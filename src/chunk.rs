use vstd::prelude::*;
use crate::chunk_type::{ChunkType, valid_code};
use crate::error::ChunkError;

verus! {

/// The CRC-32/ISO-HDLC checksum of a byte sequence.
pub uninterp spec fn crc32_of(b: Seq<u8>) -> u32;

/// What UTF-8 decoding makes of a byte sequence: the text, or `None` when it is not UTF-8.
pub uninterp spec fn utf8_text(b: Seq<u8>) -> Option<Seq<char>>;

/// Relies on crc::Crc::<u32>::checksum with the CRC_32_ISO_HDLC algorithm: a checksum of the bytes alone.
#[verifier::external_body]
fn crc32_iso_hdlc(bytes: &[u8]) -> (r: u32)
    ensures
        r == crc32_of(bytes@),
{
    crc::Crc::<u32>::new(&crc::CRC_32_ISO_HDLC).checksum(bytes)
}

/// Relies on String::from_utf8: the text when the bytes are valid UTF-8, else an error.
#[verifier::external_body]
pub(crate) fn decode_utf8(bytes: Vec<u8>) -> (r: Option<String>)
    ensures
        r matches Some(s) ==> utf8_text(bytes@) == Some(s@),
        r is None ==> utf8_text(bytes@) is None,
{
    String::from_utf8(bytes).ok()
}

/// Four bytes of `x`, most significant first.
pub open spec fn be_bytes(x: u32) -> Seq<u8> {
    seq![(x >> 24u32) as u8, (x >> 16u32) as u8, (x >> 8u32) as u8, x as u8]
}

/// The value of four bytes read most significant first.
pub open spec fn be_value(s: Seq<u8>) -> u32 {
    ((s[0] as u32) << 24u32) | ((s[1] as u32) << 16u32) | ((s[2] as u32) << 8u32) | (s[3] as u32)
}

/// The bytes a checksum covers: the type code followed by the payload.
pub open spec fn covered(t: Seq<u8>, d: Seq<u8>) -> Seq<u8> {
    t + d
}

/// The wire form of a chunk: length, type code, payload, checksum.
pub open spec fn wire(t: Seq<u8>, d: Seq<u8>) -> Seq<u8> {
    be_bytes(d.len() as u32) + t + d + be_bytes(crc32_of(covered(t, d)))
}

/// What decoding a buffer gives: the type code and payload, or the error.
pub open spec fn decoded(b: Seq<u8>) -> Result<(Seq<u8>, Seq<u8>), ChunkError> {
    if b.len() < 12 {
        Err(ChunkError::TooShort)
    } else if !valid_code(b.subrange(4, 8)) {
        Err(ChunkError::InvalidChunkType)
    } else if b.len() - 12 < be_value(b.subrange(0, 4)) {
        Err(ChunkError::TruncatedPayload)
    } else {
        let n = be_value(b.subrange(0, 4)) as int;
        let t = b.subrange(4, 8);
        let d = b.subrange(8, 8 + n);
        if be_value(b.subrange(8 + n, 12 + n)) != crc32_of(covered(t, d)) {
            Err(ChunkError::CrcMismatch)
        } else {
            Ok((t, d))
        }
    }
}

proof fn lemma_be_round_trip(x: u32)
    ensures
        be_value(be_bytes(x)) == x,
{
    let s = be_bytes(x);
    let (a, b, c, d) = (s[0], s[1], s[2], s[3]);
    assert(a == (x >> 24u32) as u8 && b == (x >> 16u32) as u8 && c == (x >> 8u32) as u8 && d == x as u8);
    assert((((((x >> 24u32) as u8) as u32) << 24u32) | ((((x >> 16u32) as u8) as u32) << 16u32)
        | ((((x >> 8u32) as u8) as u32) << 8u32) | (((x as u8) as u32))) == x) by (bit_vector);
}

/// A chunk: a type code and a payload; its checksum is computed, never stored.
#[derive(Debug, Clone)]
pub struct Chunk {
    chunk_type: ChunkType,
    chunk_data: Vec<u8>,
}

impl Chunk {
    /// The type code bytes.
    pub closed spec fn type_view(&self) -> Seq<u8> {
        self.chunk_type@
    }

    /// The payload bytes.
    pub closed spec fn data_view(&self) -> Seq<u8> {
        self.chunk_data@
    }

    /// The type code is well formed and the payload length fits in 32 bits.
    pub closed spec fn wf(&self) -> bool {
        self.chunk_type.wf() && self.chunk_data@.len() <= u32::MAX
    }

    /// Pairs a type code with a payload.
    pub fn new(chunk_type: ChunkType, data: Vec<u8>) -> (r: Chunk)
        requires
            chunk_type.wf(),
            data@.len() <= u32::MAX,
        ensures
            r.wf(),
            r.type_view() == chunk_type@,
            r.data_view() == data@,
    {
        Chunk { chunk_type, chunk_data: data }
    }

    /// The payload length.
    pub fn length(&self) -> (r: u32)
        requires
            self.wf(),
        ensures
            r == self.data_view().len(),
    {
        self.chunk_data.len() as u32
    }

    /// The type code.
    pub fn chunk_type(&self) -> (r: &ChunkType)
        requires
            self.wf(),
        ensures
            r@ == self.type_view(),
            r.wf(),
    {
        &self.chunk_type
    }

    /// The payload.
    pub fn data(&self) -> (r: &[u8])
        ensures
            r@ == self.data_view(),
    {
        self.chunk_data.as_slice()
    }

    /// The type code bytes followed by the payload.
    fn covered_bytes(&self) -> (r: Vec<u8>)
        ensures
            r@ == covered(self.type_view(), self.data_view()),
    {
        let t = self.chunk_type.bytes();
        let mut v: Vec<u8> = Vec::new();
        v.push(t[0]);
        v.push(t[1]);
        v.push(t[2]);
        v.push(t[3]);
        let mut i: usize = 0;
        while i < self.chunk_data.len()
            invariant
                i <= self.chunk_data@.len(),
                t@ == self.type_view(),
                v@ == t@ + self.chunk_data@.subrange(0, i as int),
            decreases self.chunk_data@.len() - i,
        {
            v.push(self.chunk_data[i]);
            i = i + 1;
            assert(v@ =~= t@ + self.chunk_data@.subrange(0, i as int));
        }
        assert(self.chunk_data@.subrange(0, i as int) =~= self.chunk_data@);
        v
    }

    /// The CRC-32/ISO-HDLC checksum of the type code and payload.
    pub fn crc(&self) -> (r: u32)
        ensures
            r == crc32_of(covered(self.type_view(), self.data_view())),
    {
        let v = self.covered_bytes();
        crc32_iso_hdlc(v.as_slice())
    }

    /// The payload as text, or `InvalidEncoding` when it is not UTF-8.
    pub fn data_as_string(&self) -> (r: Result<String, ChunkError>)
        ensures
            utf8_text(self.data_view()) is None ==> r == Err::<String, ChunkError>(ChunkError::InvalidEncoding),
            utf8_text(self.data_view()) matches Some(s) ==> (r matches Ok(x) && x@ == s),
    {
        match decode_utf8(self.chunk_data.clone()) {
            Some(s) => Ok(s),
            None => Err(ChunkError::InvalidEncoding),
        }
    }

    /// The wire form: big-endian length, type code, payload, big-endian checksum.
    pub fn as_bytes(&self) -> (r: Vec<u8>)
        requires
            self.wf(),
        ensures
            r@ == wire(self.type_view(), self.data_view()),
    {
        let n = self.length();
        let c = self.crc();
        let mut v: Vec<u8> = Vec::new();
        v.push((n >> 24u32) as u8);
        v.push((n >> 16u32) as u8);
        v.push((n >> 8u32) as u8);
        v.push(n as u8);
        let t = self.chunk_type.bytes();
        v.push(t[0]);
        v.push(t[1]);
        v.push(t[2]);
        v.push(t[3]);
        assert(v@ =~= be_bytes(n) + t@);
        let mut i: usize = 0;
        while i < self.chunk_data.len()
            invariant
                i <= self.chunk_data@.len(),
                t@ == self.type_view(),
                v@ == be_bytes(n) + t@ + self.chunk_data@.subrange(0, i as int),
            decreases self.chunk_data@.len() - i,
        {
            v.push(self.chunk_data[i]);
            i = i + 1;
            assert(v@ =~= be_bytes(n) + t@ + self.chunk_data@.subrange(0, i as int));
        }
        assert(self.chunk_data@.subrange(0, i as int) =~= self.chunk_data@);
        let ghost w = v@;
        v.push((c >> 24u32) as u8);
        v.push((c >> 16u32) as u8);
        v.push((c >> 8u32) as u8);
        v.push(c as u8);
        assert(v@ =~= w + be_bytes(c));
        assert(v@ =~= wire(self.type_view(), self.data_view()));
        v
    }

    /// Decodes a chunk from its wire form; bytes after the checksum are ignored.
    pub fn try_from(bytes: &[u8]) -> (r: Result<Chunk, ChunkError>)
        ensures
            decoded(bytes@) matches Ok(p) ==> (r matches Ok(c) && c.wf() && c.type_view() == p.0
                && c.data_view() == p.1),
            decoded(bytes@) matches Err(e) ==> r == Err::<Chunk, ChunkError>(e),
    {
        if bytes.len() < 12 {
            return Err(ChunkError::TooShort);
        }
        let n: u32 = ((bytes[0] as u32) << 24u32) | ((bytes[1] as u32) << 16u32)
            | ((bytes[2] as u32) << 8u32) | (bytes[3] as u32);
        assert(n == be_value(bytes@.subrange(0, 4)));
        let arr: [u8; 4] = [bytes[4], bytes[5], bytes[6], bytes[7]];
        assert(arr@ =~= bytes@.subrange(4, 8));
        let chunk_type = match ChunkType::try_from(arr) {
            Ok(t) => t,
            Err(e) => { return Err(e); },
        };
        if bytes.len() - 12 < n as usize {
            return Err(ChunkError::TruncatedPayload);
        }
        let end: usize = 8 + n as usize;
        let mut data: Vec<u8> = Vec::new();
        let mut i: usize = 8;
        while i < end
            invariant
                8 <= i <= end,
                end + 4 <= bytes@.len(),
                data@ == bytes@.subrange(8, i as int),
            decreases end - i,
        {
            data.push(bytes[i]);
            i = i + 1;
            assert(data@ =~= bytes@.subrange(8, i as int));
        }
        let stored: u32 = ((bytes[end] as u32) << 24u32) | ((bytes[end + 1] as u32) << 16u32)
            | ((bytes[end + 2] as u32) << 8u32) | (bytes[end + 3] as u32);
        assert(stored == be_value(bytes@.subrange(end as int, end + 4)));
        let chunk = Chunk { chunk_type, chunk_data: data };
        if chunk.crc() != stored {
            return Err(ChunkError::CrcMismatch);
        }
        Ok(chunk)
    }
}

/// Decoding the wire form of a well-formed chunk whose type code obeys the reserved-bit rule gives back its type code and payload.
pub proof fn lemma_round_trip(c: Chunk)
    requires
        c.wf(),
        valid_code(c.type_view()),
    ensures
        decoded(wire(c.type_view(), c.data_view())) == Ok::<(Seq<u8>, Seq<u8>), ChunkError>(
            (c.type_view(), c.data_view())),
{
    let t = c.type_view();
    let d = c.data_view();
    let w = wire(t, d);
    let n = d.len() as u32;
    lemma_be_round_trip(n);
    lemma_be_round_trip(crc32_of(covered(t, d)));
    assert(w.subrange(0, 4) =~= be_bytes(n));
    assert(w.subrange(4, 8) =~= t);
    assert(w.subrange(8, 8 + n as int) =~= d);
    assert(w.subrange(8 + n as int, 12 + n as int) =~= be_bytes(crc32_of(covered(t, d))));
}

} // verus!

verus! {

/// Two chunks with the same type code and payload have the same checksum.
pub proof fn lemma_crc_deterministic(a: Chunk, b: Chunk)
    requires
        a.type_view() == b.type_view(),
        a.data_view() == b.data_view(),
    ensures
        crc32_of(covered(a.type_view(), a.data_view())) == crc32_of(covered(b.type_view(), b.data_view())),
{
}

proof fn lemma_be_bytes_of_value(s: Seq<u8>)
    requires
        s.len() == 4,
    ensures
        be_bytes(be_value(s)) =~= s,
{
    let (a, b, c, d) = (s[0], s[1], s[2], s[3]);
    let x = be_value(s);
    assert(x == ((a as u32) << 24u32) | ((b as u32) << 16u32) | ((c as u32) << 8u32) | (d as u32));
    assert((((((a as u32) << 24u32) | ((b as u32) << 16u32) | ((c as u32) << 8u32) | (d as u32)) >> 24u32) as u8) == a
        && (((((a as u32) << 24u32) | ((b as u32) << 16u32) | ((c as u32) << 8u32) | (d as u32)) >> 16u32) as u8) == b
        && (((((a as u32) << 24u32) | ((b as u32) << 16u32) | ((c as u32) << 8u32) | (d as u32)) >> 8u32) as u8) == c
        && ((((a as u32) << 24u32) | ((b as u32) << 16u32) | ((c as u32) << 8u32) | (d as u32)) as u8) == d)
        by (bit_vector);
}

/// Re-encoding what a buffer decodes to gives back the buffer, up to the end of its checksum.
pub proof fn lemma_reencode(b: Seq<u8>)
    requires
        decoded(b) is Ok,
    ensures
        decoded(b) matches Ok(p) && wire(p.0, p.1) =~= b.subrange(0, 12 + p.1.len() as int),
{
    let n = be_value(b.subrange(0, 4)) as int;
    let t = b.subrange(4, 8);
    let d = b.subrange(8, 8 + n);
    lemma_be_bytes_of_value(b.subrange(0, 4));
    lemma_be_bytes_of_value(b.subrange(8 + n, 12 + n));
    assert(d.len() == n);
    assert(wire(t, d) =~= b.subrange(0, 4) + t + d + b.subrange(8 + n, 12 + n));
}

} // verus!
