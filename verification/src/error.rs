//! The ways in which decoding, lookup and text conversion can fail.

use crate::text::{append_decimal, decimal};
use vstd::prelude::*;
use vstd::string::StringExecFns;

verus! {

/// Why an operation of this crate failed.
#[derive(Clone, Copy, Debug, PartialEq, Eq, Structural)]
pub enum PngError {
    /// The buffer does not begin with the eight signature bytes.
    BadSignature,
    /// Fewer than twelve bytes are left where a chunk should start.
    TruncatedChunk,
    /// The length field of a chunk disagrees with the number of data bytes present.
    LengthMismatch { declared: u32, found: usize },
    /// The stored checksum differs from the one computed over type and data.
    CrcMismatch,
    /// A chunk type given as text is not exactly four ASCII letters.
    InvalidChunkType,
    /// No chunk of the requested type is in the container.
    ChunkNotFound,
    /// The data of a chunk is not valid UTF-8.
    Utf8DecodeFailure,
}

impl PngError {
    /// The failure in words.
    pub open spec fn message_text(self) -> Seq<char> {
        match self {
            PngError::BadSignature => "Invalid signature. The file does not start as a PNG file."@,
            PngError::TruncatedChunk => "Invalid chunk. Minimum chunk size must be of 12 bytes."@,
            PngError::LengthMismatch { declared, found } => "Mismatched length: header says "@
                + decimal(declared as nat) + ", but found "@ + decimal(found as nat) + " bytes"@,
            PngError::CrcMismatch => "CRC mismatched!"@,
            PngError::InvalidChunkType => "Invalid chunk type. It must be four ASCII letters."@,
            PngError::ChunkNotFound => "No chunk found of the given type."@,
            PngError::Utf8DecodeFailure => "Chunk data is not valid UTF-8."@,
        }
    }

    /// The failure in words.
    pub fn message(&self) -> (out: String)
        ensures
            out@ == self.message_text(),
    {
        match self {
            PngError::BadSignature => String::from_str(
                "Invalid signature. The file does not start as a PNG file.",
            ),
            PngError::TruncatedChunk => String::from_str(
                "Invalid chunk. Minimum chunk size must be of 12 bytes.",
            ),
            PngError::LengthMismatch { declared, found } => {
                let mut out = String::from_str("Mismatched length: header says ");
                append_decimal(&mut out, *declared as u64);
                out.append(", but found ");
                append_decimal(&mut out, *found as u64);
                out.append(" bytes");
                out
            },
            PngError::CrcMismatch => String::from_str("CRC mismatched!"),
            PngError::InvalidChunkType => String::from_str(
                "Invalid chunk type. It must be four ASCII letters.",
            ),
            PngError::ChunkNotFound => String::from_str("No chunk found of the given type."),
            PngError::Utf8DecodeFailure => String::from_str("Chunk data is not valid UTF-8."),
        }
    }
}

} // verus!
