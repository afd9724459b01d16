//! The four-byte type code of a chunk.
//!
//! The case of each byte carries one property of the chunk. Case is told by
//! bit 5 of the byte, which is clear in an uppercase ASCII letter and set in a
//! lowercase one.

use crate::error::PngError;
use crate::text::{decode_text, lenient_text};
use vstd::prelude::*;
use vstd::string::StringSliceAdditionalSpecFns;

verus! {

/// Whether `byte` is an uppercase ASCII letter.
pub open spec fn is_uppercase_letter(byte: u8) -> bool {
    0x41 <= byte <= 0x5a
}

/// Whether `byte` is a lowercase ASCII letter.
pub open spec fn is_lowercase_letter(byte: u8) -> bool {
    0x61 <= byte <= 0x7a
}

/// Whether `byte` is an ASCII letter of either case.
pub open spec fn is_letter(byte: u8) -> bool {
    is_uppercase_letter(byte) || is_lowercase_letter(byte)
}

/// Whether every byte of `bytes` is an ASCII letter.
pub open spec fn all_letters(bytes: Seq<u8>) -> bool {
    forall|i: int| 0 <= i < bytes.len() ==> is_letter(#[trigger] bytes[i])
}

/// Whether bit 5 of `byte` is set.
pub open spec fn case_bit(byte: u8) -> bool {
    byte & 0x20 != 0
}

/// Bit 5 is clear in every uppercase letter and set in every lowercase one.
pub proof fn lemma_case_bit_of_letter(byte: u8)
    ensures
        is_uppercase_letter(byte) ==> !case_bit(byte),
        is_lowercase_letter(byte) ==> case_bit(byte),
{
    assert(0x41 <= byte <= 0x5a ==> byte & 0x20 == 0) by (bit_vector);
    assert(0x61 <= byte <= 0x7a ==> byte & 0x20 != 0) by (bit_vector);
}

/// Property bit mapping: an uppercase letter at a place of the code makes
/// the chunk critical, public, valid in its reserved bit, and unsafe to copy,
/// each at its own place, and a lowercase letter makes it the opposite.
pub proof fn lemma_letter_case_sets_flags(code: ChunkType)
    ensures
        is_uppercase_letter(code@[0]) ==> code.spec_is_critical(),
        is_lowercase_letter(code@[0]) ==> !code.spec_is_critical(),
        is_uppercase_letter(code@[1]) ==> code.spec_is_public(),
        is_lowercase_letter(code@[1]) ==> !code.spec_is_public(),
        is_uppercase_letter(code@[2]) ==> code.spec_is_reserved_bit_valid(),
        is_lowercase_letter(code@[2]) ==> !code.spec_is_reserved_bit_valid(),
        is_uppercase_letter(code@[3]) ==> !code.spec_is_safe_to_copy(),
        is_lowercase_letter(code@[3]) ==> code.spec_is_safe_to_copy(),
{
    lemma_case_bit_of_letter(code@[0]);
    lemma_case_bit_of_letter(code@[1]);
    lemma_case_bit_of_letter(code@[2]);
    lemma_case_bit_of_letter(code@[3]);
}

fn byte_is_letter(byte: u8) -> (out: bool)
    ensures
        out == is_letter(byte),
{
    (0x41 <= byte && byte <= 0x5a) || (0x61 <= byte && byte <= 0x7a)
}

/// A chunk type code: four raw bytes, of which nothing is demanded.
#[derive(Clone, Copy, Debug, Eq)]
pub struct ChunkType {
    bytes: [u8; 4],
}

impl View for ChunkType {
    type V = Seq<u8>;

    /// The four bytes, in order.
    open spec fn view(&self) -> Seq<u8> {
        self.spec_bytes()@
    }
}

impl PartialEq for ChunkType {
    fn eq(&self, other: &Self) -> (same: bool) {
        let same = self.bytes[0] == other.bytes[0] && self.bytes[1] == other.bytes[1]
            && self.bytes[2] == other.bytes[2] && self.bytes[3] == other.bytes[3];
        assert(same ==> self@ =~= other@);
        same
    }
}

impl vstd::std_specs::cmp::PartialEqSpecImpl for ChunkType {
    open spec fn obeys_eq_spec() -> bool {
        true
    }

    /// Two codes are equal when their bytes are.
    open spec fn eq_spec(&self, other: &Self) -> bool {
        self@ == other@
    }
}

impl TryFrom<[u8; 4]> for ChunkType {
    type Error = PngError;

    /// Takes the bytes as they are. Any four bytes make a code: this never fails.
    fn try_from(bytes: [u8; 4]) -> (out: Result<Self, PngError>)
        ensures
            out matches Ok(code) && code.spec_bytes() == bytes,
    {
        Ok(ChunkType { bytes })
    }
}

impl vstd::std_specs::convert::TryFromSpecImpl<[u8; 4]> for ChunkType {
    open spec fn obeys_try_from_spec() -> bool {
        true
    }

    closed spec fn try_from_spec(bytes: [u8; 4]) -> Result<Self, PngError> {
        Ok(ChunkType { bytes })
    }
}

impl std::str::FromStr for ChunkType {
    type Err = PngError;

    /// Reads a code from text that is exactly four bytes long, each an ASCII
    /// letter. Any other text is refused with `InvalidChunkType`.
    fn from_str(s: &str) -> (out: Result<Self, PngError>)
        ensures
            match out {
                Ok(code) => s.spec_bytes().len() == 4 && all_letters(s.spec_bytes()) && code@
                    == s.spec_bytes(),
                Err(e) => !(s.spec_bytes().len() == 4 && all_letters(s.spec_bytes())) && e
                    == PngError::InvalidChunkType,
            },
    {
        let raw = s.as_bytes();
        if raw.len() != 4 {
            return Err(PngError::InvalidChunkType);
        }
        let mut bytes = [0u8;4];
        let mut i: usize = 0;
        while i < 4
            invariant
                i <= 4,
                raw@ == s.spec_bytes(),
                raw@.len() == 4,
                forall|j: int| 0 <= j < i ==> is_letter(#[trigger] raw@[j]) && bytes@[j] == raw@[j],
            decreases 4 - i,
        {
            let byte = raw[i];
            if !byte_is_letter(byte) {
                return Err(PngError::InvalidChunkType);
            }
            bytes[i] = byte;
            i += 1;
        }
        assert(bytes@ =~= raw@);
        Ok(ChunkType { bytes })
    }
}

impl ChunkType {
    /// The four bytes as an array.
    pub closed spec fn spec_bytes(&self) -> [u8; 4] {
        self.bytes
    }

    /// Whether the chunk is critical: bit 5 of byte 0 is clear.
    pub open spec fn spec_is_critical(&self) -> bool {
        !case_bit(self@[0])
    }

    /// Whether the chunk is public: bit 5 of byte 1 is clear.
    pub open spec fn spec_is_public(&self) -> bool {
        !case_bit(self@[1])
    }

    /// Whether the reserved bit is as it must be: bit 5 of byte 2 is clear.
    pub open spec fn spec_is_reserved_bit_valid(&self) -> bool {
        !case_bit(self@[2])
    }

    /// Whether the chunk is safe to copy: bit 5 of byte 3 is set.
    pub open spec fn spec_is_safe_to_copy(&self) -> bool {
        case_bit(self@[3])
    }

    /// Whether the code is four ASCII letters with the reserved bit clear.
    pub open spec fn spec_is_valid(&self) -> bool {
        all_letters(self@) && self.spec_is_reserved_bit_valid()
    }

    /// The four raw bytes.
    #[verifier::when_used_as_spec(spec_bytes)]
    pub fn bytes(&self) -> (out: [u8; 4])
        ensures
            out == self.spec_bytes(),
    {
        self.bytes
    }

    /// Whether the code is four ASCII letters with the reserved bit clear.
    #[verifier::when_used_as_spec(spec_is_valid)]
    pub fn is_valid(&self) -> (out: bool)
        ensures
            out == self.spec_is_valid(),
    {
        byte_is_letter(self.bytes[0]) && byte_is_letter(self.bytes[1]) && byte_is_letter(
            self.bytes[2],
        ) && byte_is_letter(self.bytes[3]) && self.is_reserved_bit_valid()
    }

    /// Whether the chunk is critical rather than ancillary. An uppercase first
    /// letter says critical, a lowercase one ancillary.
    #[verifier::when_used_as_spec(spec_is_critical)]
    pub fn is_critical(&self) -> (out: bool)
        ensures
            out == self.spec_is_critical(),
            is_uppercase_letter(self@[0]) ==> out,
            is_lowercase_letter(self@[0]) ==> !out,
    {
        proof {
            lemma_case_bit_of_letter(self.bytes[0]);
        }
        self.bytes[0] & 0x20 == 0
    }

    /// Whether the chunk is public rather than private. An uppercase second
    /// letter says public, a lowercase one private.
    #[verifier::when_used_as_spec(spec_is_public)]
    pub fn is_public(&self) -> (out: bool)
        ensures
            out == self.spec_is_public(),
            is_uppercase_letter(self@[1]) ==> out,
            is_lowercase_letter(self@[1]) ==> !out,
    {
        proof {
            lemma_case_bit_of_letter(self.bytes[1]);
        }
        self.bytes[1] & 0x20 == 0
    }

    /// Whether the reserved bit is clear, as it must be. An uppercase third
    /// letter has it clear, a lowercase one has it set.
    #[verifier::when_used_as_spec(spec_is_reserved_bit_valid)]
    pub fn is_reserved_bit_valid(&self) -> (out: bool)
        ensures
            out == self.spec_is_reserved_bit_valid(),
            is_uppercase_letter(self@[2]) ==> out,
            is_lowercase_letter(self@[2]) ==> !out,
    {
        proof {
            lemma_case_bit_of_letter(self.bytes[2]);
        }
        self.bytes[2] & 0x20 == 0
    }

    /// Whether the chunk may be copied by an editor that does not know it. A
    /// lowercase fourth letter says safe, an uppercase one unsafe.
    #[verifier::when_used_as_spec(spec_is_safe_to_copy)]
    pub fn is_safe_to_copy(&self) -> (out: bool)
        ensures
            out == self.spec_is_safe_to_copy(),
            is_uppercase_letter(self@[3]) ==> !out,
            is_lowercase_letter(self@[3]) ==> out,
    {
        proof {
            lemma_case_bit_of_letter(self.bytes[3]);
        }
        self.bytes[3] & 0x20 != 0
    }

    /// The code as text: its bytes read as UTF-8, and the empty string where
    /// they are not UTF-8.
    pub fn to_string(&self) -> (out: String)
        ensures
            out@ == lenient_text(self@),
    {
        match decode_text(self.bytes.as_slice()) {
            Some(text) => text,
            None => String::new(),
        }
    }
}

} // verus!
