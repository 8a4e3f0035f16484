//! Length-prefixed frames. A frame is a big-endian `u32` total length, which
//! counts its own four bytes, followed by the payload; a total length of four
//! or less is never produced and never accepted. The first frame a relay
//! sends on a connection carries the connection's identity as a big-endian
//! `u64`; every later frame carries a serialised snapshot.
use vstd::prelude::*;

verus! {

/// Why a frame could not be built or read.
#[derive(Copy, Clone, Debug, PartialEq, Eq, Structural)]
pub enum FrameError {
    /// The stream ended before a whole frame arrived.
    ConnectionClosed,
    /// The length prefix is four or less.
    BadLength(u32),
    /// There is no payload to frame.
    EmptyPayload,
    /// The frame would be longer than a `u32` can count.
    PayloadTooLarge,
    /// An identity payload is not a single integer that fits a `usize`.
    BadIdentity,
}

/// The four big-endian bytes of `n`.
pub open spec fn be32_bytes(n: u32) -> Seq<u8> {
    seq![
        (n / 0x100_0000) as u8,
        ((n / 0x1_0000) % 0x100) as u8,
        ((n / 0x100) % 0x100) as u8,
        (n % 0x100) as u8,
    ]
}

/// The number that the first four bytes of `b` hold, read big-endian.
pub open spec fn be32_value(b: Seq<u8>) -> int {
    b[0] * 0x100_0000 + b[1] * 0x1_0000 + b[2] * 0x100 + b[3]
}

/// The eight big-endian bytes of `n`.
pub open spec fn be64_bytes(n: u64) -> Seq<u8> {
    be32_bytes((n / 0x1_0000_0000) as u32) + be32_bytes((n % 0x1_0000_0000) as u32)
}

/// The number that the first eight bytes of `b` hold, read big-endian.
pub open spec fn be64_value(b: Seq<u8>) -> int {
    be32_value(b) * 0x1_0000_0000 + be32_value(b.subrange(4, 8))
}

/// The frame that carries `payload`.
pub open spec fn frame_of(payload: Seq<u8>) -> Seq<u8> {
    be32_bytes((payload.len() + 4) as u32) + payload
}

/// What framing `payload` gives.
pub open spec fn spec_encode_frame(payload: Seq<u8>) -> Result<Seq<u8>, FrameError> {
    if payload.len() == 0 {
        Err(FrameError::EmptyPayload)
    } else if payload.len() + 4 > u32::MAX {
        Err(FrameError::PayloadTooLarge)
    } else {
        Ok(frame_of(payload))
    }
}

/// What reading the frame at the start of `stream` gives: its payload and
/// the number of bytes it takes up.
pub open spec fn spec_decode_frame(stream: Seq<u8>) -> Result<(Seq<u8>, nat), FrameError> {
    if stream.len() < 4 {
        Err(FrameError::ConnectionClosed)
    } else if be32_value(stream) <= 4 {
        Err(FrameError::BadLength(be32_value(stream) as u32))
    } else if stream.len() < be32_value(stream) {
        Err(FrameError::ConnectionClosed)
    } else {
        Ok((stream.subrange(4, be32_value(stream)), be32_value(stream) as nat))
    }
}

fn be32_encode(n: u32) -> (r: [u8; 4])
    ensures
        r@ == be32_bytes(n),
        be32_value(r@) == n,
{
    [(n / 0x100_0000) as u8, ((n / 0x1_0000) % 0x100) as u8, ((n / 0x100) % 0x100) as u8, (n % 0x100) as u8]
}

fn be32_decode_at(b: &[u8], at: usize) -> (r: u32)
    requires
        at + 4 <= b@.len(),
    ensures
        r == be32_value(b@.subrange(at as int, at + 4)),
{
    (b[at] as u32) * 0x100_0000 + (b[at + 1] as u32) * 0x1_0000 + (b[at + 2] as u32) * 0x100 + (b[at
        + 3] as u32)
}

fn be64_encode(n: u64) -> (r: [u8; 8])
    ensures
        r@ == be64_bytes(n),
        be64_value(r@) == n,
{
    let hi = be32_encode((n / 0x1_0000_0000) as u32);
    let lo = be32_encode((n % 0x1_0000_0000) as u32);
    let r = [hi[0], hi[1], hi[2], hi[3], lo[0], lo[1], lo[2], lo[3]];
    assert(r@ == hi@ + lo@);
    assert(r@.subrange(4, 8) == lo@);
    r
}

fn be64_decode(b: &[u8]) -> (r: u64)
    requires
        b@.len() >= 8,
    ensures
        r == be64_value(b@),
{
    let hi = be32_decode_at(b, 0);
    let lo = be32_decode_at(b, 4);
    (hi as u64) * 0x1_0000_0000 + (lo as u64)
}

/// Frames `payload`: its total length, then the payload itself.
pub fn encode_frame(payload: &[u8]) -> (r: Result<Vec<u8>, FrameError>)
    ensures
        r matches Ok(v) ==> spec_encode_frame(payload@) == Ok::<Seq<u8>, FrameError>(v@),
        r matches Err(e) ==> spec_encode_frame(payload@) == Err::<Seq<u8>, FrameError>(e),
{
    if payload.len() == 0 {
        return Err(FrameError::EmptyPayload);
    }
    if payload.len() > (u32::MAX - 4) as usize {
        return Err(FrameError::PayloadTooLarge);
    }
    let total: u32 = (payload.len() + 4) as u32;
    let header = be32_encode(total);
    let mut out: Vec<u8> = Vec::new();
    let mut i: usize = 0;
    while i < 4
        invariant
            i <= 4,
            out@ == header@.subrange(0, i as int),
        decreases 4 - i,
    {
        out.push(header[i]);
        i = i + 1;
    }
    let mut j: usize = 0;
    while j < payload.len()
        invariant
            j <= payload@.len(),
            out@ == header@ + payload@.subrange(0, j as int),
        decreases payload@.len() - j,
    {
        out.push(payload[j]);
        j = j + 1;
    }
    assert(payload@.subrange(0, payload@.len() as int) == payload@);
    Ok(out)
}

/// Reads the length prefix at the start of `header`: the total length of the
/// frame that it opens.
pub fn frame_length(header: &[u8]) -> (r: Result<u32, FrameError>)
    ensures
        header@.len() < 4 ==> r == Err::<u32, FrameError>(FrameError::ConnectionClosed),
        header@.len() >= 4 && be32_value(header@) <= 4 ==> r == Err::<u32, FrameError>(
            FrameError::BadLength(be32_value(header@) as u32),
        ),
        header@.len() >= 4 && be32_value(header@) > 4 ==> r == Ok::<u32, FrameError>(
            be32_value(header@) as u32,
        ),
{
    if header.len() < 4 {
        return Err(FrameError::ConnectionClosed);
    }
    let n = be32_decode_at(header, 0);
    if n <= 4 {
        Err(FrameError::BadLength(n))
    } else {
        Ok(n)
    }
}

/// Reads the frame at the start of `stream`; returns its payload and the
/// number of bytes it takes up.
pub fn decode_frame(stream: &[u8]) -> (r: Result<(Vec<u8>, usize), FrameError>)
    ensures
        r matches Ok((v, n)) ==> spec_decode_frame(stream@) == Ok::<(Seq<u8>, nat), FrameError>(
            (v@, n as nat),
        ),
        r matches Err(e) ==> spec_decode_frame(stream@) == Err::<(Seq<u8>, nat), FrameError>(e),
{
    let total = match frame_length(stream) {
        Ok(n) => n,
        Err(e) => return Err(e),
    };
    if stream.len() < total as usize {
        return Err(FrameError::ConnectionClosed);
    }
    let mut payload: Vec<u8> = Vec::new();
    let mut i: usize = 4;
    while i < total as usize
        invariant
            4 <= i <= total,
            total <= stream@.len(),
            payload@ == stream@.subrange(4, i as int),
        decreases total - i,
    {
        payload.push(stream[i]);
        i = i + 1;
    }
    Ok((payload, total as usize))
}

/// What the identity payload of `id` is.
pub open spec fn identity_payload(id: usize) -> Seq<u8> {
    be64_bytes(id as u64)
}

/// The payload that tells a new connection its identity.
pub fn encode_identity(id: usize) -> (r: Vec<u8>)
    ensures
        r@ == identity_payload(id),
        be64_value(r@) == id,
{
    let b = be64_encode(id as u64);
    let mut out: Vec<u8> = Vec::new();
    let mut i: usize = 0;
    while i < 8
        invariant
            i <= 8,
            out@ == b@.subrange(0, i as int),
        decreases 8 - i,
    {
        out.push(b[i]);
        i = i + 1;
    }
    out
}

/// Reads an identity payload: exactly eight bytes holding a number that fits
/// a `usize`.
pub fn decode_identity(payload: &[u8]) -> (r: Result<usize, FrameError>)
    ensures
        payload@.len() == 8 && be64_value(payload@) <= usize::MAX ==> r == Ok::<usize, FrameError>(
            be64_value(payload@) as usize,
        ),
        !(payload@.len() == 8 && be64_value(payload@) <= usize::MAX) ==> r == Err::<usize, FrameError>(
            FrameError::BadIdentity,
        ),
{
    if payload.len() != 8 {
        return Err(FrameError::BadIdentity);
    }
    let v = be64_decode(payload);
    if v > usize::MAX as u64 {
        return Err(FrameError::BadIdentity);
    }
    Ok(v as usize)
}

/// Reading four big-endian bytes gives back the number they were written from.
pub proof fn lemma_be32_round_trip(n: u32)
    ensures
        be32_value(be32_bytes(n)) == n,
{
}

/// Writing back the number that four bytes hold gives the same bytes.
pub proof fn lemma_be32_bytes_of_value(b: Seq<u8>)
    requires
        b.len() >= 4,
    ensures
        0 <= be32_value(b) <= u32::MAX,
        be32_bytes(be32_value(b) as u32) == b.subrange(0, 4),
{
    let v = be32_value(b);
    assert(v / 0x100_0000 == b[0]);
    assert((v / 0x1_0000) % 0x100 == b[1]);
    assert((v / 0x100) % 0x100 == b[2]);
    assert(v % 0x100 == b[3]);
    assert(be32_bytes(v as u32) == b.subrange(0, 4));
}

/// Reading eight big-endian bytes gives back the number they were written from.
pub proof fn lemma_be64_round_trip(n: u64)
    ensures
        be64_value(be64_bytes(n)) == n,
{
    let hi = (n / 0x1_0000_0000) as u32;
    let lo = (n % 0x1_0000_0000) as u32;
    lemma_be32_round_trip(hi);
    lemma_be32_round_trip(lo);
    assert(be64_bytes(n).subrange(4, 8) == be32_bytes(lo));
}

/// Reading back a frame gives the payload it was built from and its whole
/// length, whatever follows it on the stream; the length prefix of a frame
/// is always more than four.
pub proof fn lemma_frame_round_trip(payload: Seq<u8>, rest: Seq<u8>)
    requires
        spec_encode_frame(payload) is Ok,
    ensures
        ({
            let frame = frame_of(payload);
            &&& spec_encode_frame(payload) == Ok::<Seq<u8>, FrameError>(frame)
            &&& be32_value(frame) == frame.len()
            &&& be32_value(frame) > 4
            &&& spec_decode_frame(frame + rest) == Ok::<(Seq<u8>, nat), FrameError>(
                (payload, frame.len()),
            )
        }),
{
    let frame = frame_of(payload);
    lemma_be32_round_trip((payload.len() + 4) as u32);
    assert(be32_value(frame + rest) == be32_value(frame));
    assert((frame + rest).subrange(4, frame.len() as int) == payload);
}

/// A stream whose length prefix is four or less is refused from the prefix
/// alone: whatever follows the first four bytes, the same error comes back.
pub proof fn lemma_bad_length_reads_only_prefix(s1: Seq<u8>, s2: Seq<u8>)
    requires
        s1.len() >= 4,
        s2.len() >= 4,
        s1.subrange(0, 4) == s2.subrange(0, 4),
        be32_value(s1) <= 4,
    ensures
        spec_decode_frame(s1) == Err::<(Seq<u8>, nat), FrameError>(
            FrameError::BadLength(be32_value(s1) as u32),
        ),
        spec_decode_frame(s2) == spec_decode_frame(s1),
{
    assert(s1[0] == s1.subrange(0, 4)[0] && s1[1] == s1.subrange(0, 4)[1]);
    assert(s1[2] == s1.subrange(0, 4)[2] && s1[3] == s1.subrange(0, 4)[3]);
    assert(s2[0] == s2.subrange(0, 4)[0] && s2[1] == s2.subrange(0, 4)[1]);
    assert(s2[2] == s2.subrange(0, 4)[2] && s2[3] == s2.subrange(0, 4)[3]);
}

/// Reading an identity payload gives back the identity it was written from.
pub proof fn lemma_identity_round_trip(id: usize)
    ensures
        identity_payload(id).len() == 8,
        be64_value(identity_payload(id)) == id,
{
    lemma_be64_round_trip(id as u64);
}

/// A frame ready to send or just received.
pub struct NetworkAdapter {
    /// The total length of the frame.
    pub length: u32,
    /// The whole frame, length prefix included.
    pub data: Vec<u8>,
}

impl NetworkAdapter {
    /// The frame is well formed: `data` frames a non-empty payload and
    /// `length` is its length.
    pub open spec fn wf(&self) -> bool {
        &&& self.data@.len() > 4
        &&& self.data@ == frame_of(self.data@.subrange(4, self.data@.len() as int))
        &&& self.length == self.data@.len()
    }

    /// The payload that the frame carries.
    pub open spec fn payload(&self) -> Seq<u8> {
        self.data@.subrange(4, self.data@.len() as int)
    }

    /// Frames `data` for sending.
    pub fn new_outgoing(data: &[u8]) -> (r: Result<NetworkAdapter, FrameError>)
        ensures
            r matches Ok(a) ==> a.wf() && a.payload() == data@ && spec_encode_frame(data@)
                == Ok::<Seq<u8>, FrameError>(a.data@),
            r matches Err(e) ==> spec_encode_frame(data@) == Err::<Seq<u8>, FrameError>(e),
    {
        match encode_frame(data) {
            Ok(frame) => {
                proof {
                    lemma_frame_round_trip(data@, Seq::empty());
                    assert(frame@.subrange(4, frame@.len() as int) == data@);
                }
                let length = frame.len() as u32;
                Ok(NetworkAdapter { length, data: frame })
            },
            Err(e) => Err(e),
        }
    }

    /// Takes the frame at the start of `stream`.
    pub fn new_incoming(stream: &[u8]) -> (r: Result<NetworkAdapter, FrameError>)
        ensures
            r matches Ok(a) ==> a.wf() && spec_decode_frame(stream@) == Ok::<
                (Seq<u8>, nat),
                FrameError,
            >((a.payload(), a.length as nat)) && a.data@ == stream@.subrange(0, a.length as int),
            r matches Err(e) ==> spec_decode_frame(stream@) == Err::<(Seq<u8>, nat), FrameError>(e),
    {
        match decode_frame(stream) {
            Ok((_payload, n)) => {
                let mut data: Vec<u8> = Vec::new();
                let mut i: usize = 0;
                while i < n
                    invariant
                        i <= n,
                        n <= stream@.len(),
                        data@ == stream@.subrange(0, i as int),
                    decreases n - i,
                {
                    data.push(stream[i]);
                    i = i + 1;
                }
                proof {
                    let p = stream@.subrange(4, n as int);
                    lemma_be32_bytes_of_value(stream@);
                    assert(data@ == stream@.subrange(0, 4) + p);
                    assert(data@ == frame_of(p));
                    assert(data@.subrange(4, data@.len() as int) == p);
                }
                Ok(NetworkAdapter { length: n as u32, data })
            },
            Err(e) => Err(e),
        }
    }

    /// The payload that the frame carries.
    pub fn get_data(&self) -> (r: Vec<u8>)
        requires
            self.wf(),
        ensures
            r@ == self.payload(),
    {
        let mut out: Vec<u8> = Vec::new();
        let mut i: usize = 4;
        while i < self.data.len()
            invariant
                4 <= i <= self.data@.len(),
                out@ == self.data@.subrange(4, i as int),
            decreases self.data@.len() - i,
        {
            out.push(self.data[i]);
            i = i + 1;
        }
        out
    }
}

} // verus!
