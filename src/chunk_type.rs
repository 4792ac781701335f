use vstd::prelude::*;
use vstd::utf8::{decode_utf8, valid_utf8, valid_first_scalar, pop_first_scalar};
use vstd::string::StringSliceAdditionalSpecFns;
use crate::error::PngError;
use crate::text::string_from_utf8;

verus! {

/// `b` is an ASCII capital letter.
pub open spec fn is_upper(b: u8) -> bool {
    65 <= b <= 90
}

/// `b` is an ASCII small letter.
pub open spec fn is_lower(b: u8) -> bool {
    97 <= b <= 122
}

/// `b` is an ASCII letter.
pub open spec fn is_alpha(b: u8) -> bool {
    is_upper(b) || is_lower(b)
}

/// Four bytes, each an ASCII letter: the bytes a chunk type code may hold.
pub open spec fn valid_type_code(code: Seq<u8>) -> bool {
    &&& code.len() == 4
    &&& forall|i: int| 0 <= i < 4 ==> is_alpha(#[trigger] code[i])
}

/// What a type code read from text holds: the first four bytes of its UTF-8
/// form, when there are four and all are letters.
pub open spec fn type_code_of_text(text: Seq<u8>) -> Option<Seq<u8>> {
    if text.len() >= 4 && valid_type_code(text.subrange(0, 4)) {
        Some(text.subrange(0, 4))
    } else {
        None
    }
}

/// A sequence of ASCII bytes is valid UTF-8, one character per byte.
proof fn lemma_ascii_valid_utf8(b: Seq<u8>)
    requires
        forall|i: int| 0 <= i < b.len() ==> #[trigger] b[i] < 128,
    ensures
        valid_utf8(b),
        decode_utf8(b).len() == b.len(),
    decreases b.len(),
{
    if b.len() > 0 {
        let b0 = b[0];
        assert(b0 & 0x7f == b0) by (bit_vector)
            requires
                b0 < 128,
        ;
        assert(valid_first_scalar(b));
        let rest = pop_first_scalar(b);
        assert(rest =~= b.subrange(1, b.len() as int));
        lemma_ascii_valid_utf8(rest);
    }
}

/// A validated chunk type code: four ASCII letters. The case of each letter
/// carries one property bit.
#[derive(Debug, Clone, Copy)]
pub struct ChunkType {
    type_code: [u8; 4],
}

impl View for ChunkType {
    type V = Seq<u8>;

    closed spec fn view(&self) -> Seq<u8> {
        self.type_code@
    }
}

impl ChunkType {
    #[verifier::type_invariant]
    spec fn inv(self) -> bool {
        valid_type_code(self.type_code@)
    }

    /// Builds a type code from four bytes; fails unless all are letters.
    pub fn from_bytes(bytes: [u8; 4]) -> (r: Result<ChunkType, PngError>)
        ensures
            r is Ok <==> valid_type_code(bytes@),
            r is Ok ==> r->Ok_0@ == bytes@,
            r is Err ==> r->Err_0 == PngError::InvalidTypeCode,
    {
        let mut i: usize = 0;
        while i < 4
            invariant
                i <= 4,
                forall|j: int| 0 <= j < i ==> is_alpha(#[trigger] bytes@[j]),
            decreases 4 - i,
        {
            if !Self::is_valid_byte(&bytes[i]) {
                return Err(PngError::InvalidTypeCode);
            }
            i = i + 1;
        }
        Ok(ChunkType { type_code: bytes })
    }

    /// Builds a type code from the first four bytes of a text; fails if the
    /// text is shorter or one of those bytes is not a letter.
    pub fn from_text(s: &str) -> (r: Result<ChunkType, PngError>)
        ensures
            r is Ok <==> type_code_of_text(s.spec_bytes()) is Some,
            r is Ok ==> r->Ok_0@ == type_code_of_text(s.spec_bytes())->Some_0,
            r is Err ==> r->Err_0 == PngError::InvalidTypeCode,
    {
        let input: &[u8] = s.as_bytes();
        if input.len() < 4 {
            return Err(PngError::InvalidTypeCode);
        }
        let bytes: [u8; 4] = [input[0], input[1], input[2], input[3]];
        assert(bytes@ =~= input@.subrange(0, 4));
        Self::from_bytes(bytes)
    }

    /// The four bytes of the code.
    pub fn bytes(&self) -> (r: [u8; 4])
        ensures
            r@ == self@,
            valid_type_code(self@),
    {
        proof {
            use_type_invariant(self);
        }
        self.type_code
    }

    /// True iff all four bytes are letters and the reserved bit is valid.
    pub fn is_valid(&self) -> (r: bool)
        ensures
            r == (valid_type_code(self@) && is_upper(self@[2])),
    {
        let mut i: usize = 0;
        while i < 4
            invariant
                i <= 4,
                self.type_code@.len() == 4,
                forall|j: int| 0 <= j < i ==> is_alpha(#[trigger] self.type_code@[j]),
            decreases 4 - i,
        {
            if !Self::is_valid_byte(&self.type_code[i]) {
                return false;
            }
            i = i + 1;
        }
        self.is_reserved_bit_valid()
    }

    /// Critical chunks have a capital first letter.
    pub fn is_critical(&self) -> (r: bool)
        ensures
            r == is_upper(self@[0]),
    {
        Self::is_upper_byte(self.type_code[0])
    }

    /// Public chunks have a capital second letter.
    pub fn is_public(&self) -> (r: bool)
        ensures
            r == is_upper(self@[1]),
    {
        Self::is_upper_byte(self.type_code[1])
    }

    /// The reserved bit is valid when the third letter is a capital.
    pub fn is_reserved_bit_valid(&self) -> (r: bool)
        ensures
            r == is_upper(self@[2]),
    {
        Self::is_upper_byte(self.type_code[2])
    }

    /// Safe-to-copy chunks have a small fourth letter.
    pub fn is_safe_to_copy(&self) -> (r: bool)
        ensures
            r == is_lower(self@[3]),
    {
        let b: u8 = self.type_code[3];
        97 <= b && b <= 122
    }

    /// A byte may stand in a type code iff it is an ASCII letter.
    pub fn is_valid_byte(byte: &u8) -> (r: bool)
        ensures
            r == is_alpha(*byte),
    {
        Self::is_upper_byte(*byte) || (97 <= *byte && *byte <= 122)
    }

    fn is_upper_byte(b: u8) -> (r: bool)
        ensures
            r == is_upper(b),
    {
        65 <= b && b <= 90
    }

    /// Byte-wise equality of two codes.
    pub fn equals(&self, other: &ChunkType) -> (r: bool)
        ensures
            r == (self@ == other@),
    {
        let a = self.type_code;
        let b = other.type_code;
        let r = a[0] == b[0] && a[1] == b[1] && a[2] == b[2] && a[3] == b[3];
        assert(r ==> a@ =~= b@);
        r
    }

    /// The code as text: its four letters.
    pub fn to_string(&self) -> (r: String)
        ensures
            r@ == decode_utf8(self@),
            r@.len() == 4,
    {
        proof {
            use_type_invariant(self);
        }
        let v: Vec<u8> = vec![self.type_code[0], self.type_code[1], self.type_code[2], self.type_code[3]];
        assert(v@ =~= self.type_code@);
        proof {
            lemma_ascii_valid_utf8(v@);
        }
        match string_from_utf8(v) {
            Some(s) => s,
            None => {
                assert(false);
                String::new()
            },
        }
    }
}

impl PartialEq for ChunkType {
    fn eq(&self, other: &ChunkType) -> (r: bool) {
        self.equals(other)
    }
}

impl vstd::std_specs::cmp::PartialEqSpecImpl for ChunkType {
    open spec fn obeys_eq_spec() -> bool {
        true
    }

    open spec fn eq_spec(&self, other: &ChunkType) -> bool {
        self@ == other@
    }
}

impl Eq for ChunkType {

}

impl core::str::FromStr for ChunkType {
    type Err = PngError;

    fn from_str(s: &str) -> (r: Result<ChunkType, PngError>)
        ensures
            r is Ok <==> type_code_of_text(s.spec_bytes()) is Some,
            r is Ok ==> r->Ok_0@ == type_code_of_text(s.spec_bytes())->Some_0,
            r is Err ==> r->Err_0 == PngError::InvalidTypeCode,
    {
        ChunkType::from_text(s)
    }
}

impl TryFrom<[u8; 4]> for ChunkType {
    type Error = PngError;

    fn try_from(bytes: [u8; 4]) -> (r: Result<ChunkType, PngError>)
        ensures
            r is Ok <==> valid_type_code(bytes@),
            r is Ok ==> r->Ok_0@ == bytes@,
            r is Err ==> r->Err_0 == PngError::InvalidTypeCode,
    {
        match ChunkType::from_bytes(bytes) {
            Ok(_) => Ok(ChunkType { type_code: bytes }),
            Err(e) => Err(e),
        }
    }
}

impl vstd::std_specs::convert::TryFromSpecImpl<[u8; 4]> for ChunkType {
    open spec fn obeys_try_from_spec() -> bool {
        true
    }

    closed spec fn try_from_spec(bytes: [u8; 4]) -> Result<ChunkType, PngError> {
        if valid_type_code(bytes@) {
            Ok(ChunkType { type_code: bytes })
        } else {
            Err(PngError::InvalidTypeCode)
        }
    }
}

} // verus!
