use vstd::prelude::*;
use crate::error::ChunkError;
use crate::chunk::{decode_utf8, utf8_text};
use vstd::string::StringSliceAdditionalSpecFns;

verus! {

/// True when `b` is an ASCII letter, `A`-`Z` or `a`-`z`.
pub open spec fn letter(b: u8) -> bool {
    (65 <= b && b <= 90) || (97 <= b && b <= 122)
}

/// True when bit 5 of `b` (the lower-case bit of an ASCII letter) is clear.
pub open spec fn bit5_clear(b: u8) -> bool {
    b & 32u8 == 0
}

/// A four-byte type code is valid when every byte is a letter and the third byte has bit 5 clear.
pub open spec fn valid_code(s: Seq<u8>) -> bool {
    &&& s.len() == 4
    &&& bit5_clear(s[2])
    &&& forall|i: int| 0 <= i < 4 ==> letter(#[trigger] s[i])
}

/// A PNG chunk type code: four bytes whose letter case carries four flags.
#[derive(Debug, Clone, PartialEq, Eq)]
pub struct ChunkType {
    data: [u8; 4],
}

impl View for ChunkType {
    type V = Seq<u8>;

    closed spec fn view(&self) -> Seq<u8> {
        self.data@
    }
}

impl ChunkType {
    /// Every type code holds four bytes, all ASCII letters.
    pub closed spec fn wf(&self) -> bool {
        &&& self.data@.len() == 4
        &&& forall|i: int| 0 <= i < 4 ==> letter(#[trigger] self.data@[i])
    }

    /// The four raw bytes.
    pub fn bytes(&self) -> (r: [u8; 4])
        ensures
            r@ == self@,
    {
        self.data
    }

    /// Bit 5 of the first byte is clear (upper case).
    pub fn is_critical(&self) -> (r: bool)
        requires
            self.wf(),
        ensures
            r == bit5_clear(self@[0]),
    {
        self.data[0] & 32u8 == 0
    }

    /// Bit 5 of the second byte is clear (upper case).
    pub fn is_public(&self) -> (r: bool)
        requires
            self.wf(),
        ensures
            r == bit5_clear(self@[1]),
    {
        self.data[1] & 32u8 == 0
    }

    /// Bit 5 of the third byte is clear (upper case).
    pub fn is_reserved_bit_valid(&self) -> (r: bool)
        requires
            self.wf(),
        ensures
            r == bit5_clear(self@[2]),
    {
        self.data[2] & 32u8 == 0
    }

    /// Bit 5 of the fourth byte is set (lower case).
    pub fn is_safe_to_copy(&self) -> (r: bool)
        requires
            self.wf(),
        ensures
            r == !bit5_clear(self@[3]),
    {
        self.data[3] & 32u8 != 0
    }

    /// The reserved bit is valid and all four bytes are ASCII letters.
    pub fn is_valid(&self) -> (r: bool)
        requires
            self.wf(),
        ensures
            r == valid_code(self@),
    {
        if !self.is_reserved_bit_valid() {
            return false;
        }
        let mut i: usize = 0;
        while i < 4
            invariant
                i <= 4,
                self.data@.len() == 4,
                forall|j: int| 0 <= j < i ==> letter(#[trigger] self.data@[j]),
            decreases 4 - i,
        {
            if !ChunkType::is_valid_byte(self.data[i]) {
                return false;
            }
            i = i + 1;
        }
        true
    }

    /// The four bytes as text; empty if they were not UTF-8.
    pub fn to_string(&self) -> (r: String)
        ensures
            utf8_text(self@) matches Some(s) ==> r@ == s,
            utf8_text(self@) is None ==> r@.len() == 0,
    {
        let mut v: Vec<u8> = Vec::new();
        v.push(self.data[0]);
        v.push(self.data[1]);
        v.push(self.data[2]);
        v.push(self.data[3]);
        assert(v@ =~= self@);
        match decode_utf8(v) {
            Some(s) => s,
            None => String::new(),
        }
    }

    /// An ASCII letter, `A`-`Z` or `a`-`z`.
    pub fn is_valid_byte(byte: u8) -> (r: bool)
        ensures
            r == letter(byte),
    {
        (65 <= byte && byte <= 90) || (97 <= byte && byte <= 122)
    }

    /// Builds a type code from four bytes, checking the letter and reserved-bit rules.
    pub fn try_from(arr: [u8; 4]) -> (r: Result<ChunkType, ChunkError>)
        ensures
            valid_code(arr@) ==> (r matches Ok(t) && t@ == arr@ && t.wf()),
            !valid_code(arr@) ==> r == Err::<ChunkType, ChunkError>(ChunkError::InvalidChunkType),
    {
        let mut i: usize = 0;
        while i < 4
            invariant
                i <= 4,
                arr@.len() == 4,
                forall|j: int| 0 <= j < i ==> letter(#[trigger] arr@[j]),
            decreases 4 - i,
        {
            if !ChunkType::is_valid_byte(arr[i]) {
                return Err(ChunkError::InvalidChunkType);
            }
            i = i + 1;
        }
        if arr[2] & 32u8 != 0 {
            return Err(ChunkError::InvalidChunkType);
        }
        Ok(ChunkType { data: arr })
    }

    /// Builds a type code from four letters of text; the reserved-bit rule is not checked here.
    pub fn from_str(s: &str) -> (r: Result<ChunkType, ChunkError>)
        ensures
            s.spec_bytes().len() != 4 ==> r == Err::<ChunkType, ChunkError>(ChunkError::InvalidLength),
            s.spec_bytes().len() == 4 && (forall|i: int| 0 <= i < 4 ==> letter(#[trigger] s.spec_bytes()[i]))
                ==> (r matches Ok(t) && t@ == s.spec_bytes() && t.wf()),
            s.spec_bytes().len() == 4 && !(forall|i: int| 0 <= i < 4 ==> letter(#[trigger] s.spec_bytes()[i]))
                ==> r == Err::<ChunkType, ChunkError>(ChunkError::InvalidChunkType),
    {
        let b = s.as_bytes();
        if b.len() != 4 {
            return Err(ChunkError::InvalidLength);
        }
        let mut i: usize = 0;
        while i < 4
            invariant
                i <= 4,
                b@.len() == 4,
                b@ == s.spec_bytes(),
                forall|j: int| 0 <= j < i ==> letter(#[trigger] b@[j]),
            decreases 4 - i,
        {
            if !ChunkType::is_valid_byte(b[i]) {
                return Err(ChunkError::InvalidChunkType);
            }
            i = i + 1;
        }
        let arr: [u8; 4] = [b[0], b[1], b[2], b[3]];
        assert(arr@ =~= b@);
        Ok(ChunkType { data: arr })
    }
}

} // verus!
