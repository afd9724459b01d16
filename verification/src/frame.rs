//! The layout of one chunk in a buffer.
//!
//! A frame is a four-byte length, a four-byte type, the data, and a four-byte
//! checksum, back to back. Length and checksum are big-endian.

use crate::error::PngError;
use vstd::prelude::*;

verus! {

/// The size of a frame without its data: length, type and checksum.
pub const FRAME_OVERHEAD: usize = 12;

/// The four bytes that spell `value`, most significant first.
pub open spec fn be_bytes(value: u32) -> Seq<u8> {
    seq![
        (value / 0x100_0000) as u8,
        (value / 0x1_0000 % 0x100) as u8,
        (value / 0x100 % 0x100) as u8,
        (value % 0x100) as u8,
    ]
}

/// The number that four bytes spell, most significant first.
pub open spec fn be_value(bytes: Seq<u8>) -> u32
    recommends
        bytes.len() == 4,
{
    (bytes[0] * 0x100_0000 + bytes[1] * 0x1_0000 + bytes[2] * 0x100 + bytes[3]) as u32
}

/// Reading back what was written gives the number that was written.
pub proof fn lemma_be_value_of_bytes(value: u32)
    ensures
        be_bytes(value).len() == 4,
        be_value(be_bytes(value)) == value,
{
    assert(value / 0x100_0000 < 0x100) by (bit_vector);
    assert((value / 0x100_0000) * 0x100_0000 + (value / 0x1_0000 % 0x100) * 0x1_0000 + (value
        / 0x100 % 0x100) * 0x100 + value % 0x100 == value) by (bit_vector);
}

/// Writing what was read gives the bytes that were read.
pub proof fn lemma_be_bytes_of_value(bytes: Seq<u8>)
    requires
        bytes.len() == 4,
    ensures
        be_bytes(be_value(bytes)) == bytes,
{
    let b0 = bytes[0] as int;
    let b1 = bytes[1] as int;
    let b2 = bytes[2] as int;
    let b3 = bytes[3] as int;
    let value = b0 * 0x100_0000 + b1 * 0x1_0000 + b2 * 0x100 + b3;
    assert(value == be_value(bytes));
    assert(value / 0x100_0000 == b0);
    assert(value / 0x1_0000 == b0 * 0x100 + b1);
    assert(value / 0x100 == b0 * 0x1_0000 + b1 * 0x100 + b2);
    assert(be_bytes(be_value(bytes)) =~= bytes);
}

/// Reads the big-endian number at `at`.
pub fn read_be_u32(bytes: &[u8], at: usize) -> (value: u32)
    requires
        at + 4 <= bytes.len(),
    ensures
        value == be_value(bytes@.subrange(at as int, at + 4)),
{
    let b0 = bytes[at] as u32;
    let b1 = bytes[at + 1] as u32;
    let b2 = bytes[at + 2] as u32;
    let b3 = bytes[at + 3] as u32;
    b0 * 0x100_0000 + b1 * 0x1_0000 + b2 * 0x100 + b3
}

/// Appends `value` to `out`, big-endian.
pub fn write_be_u32(out: &mut Vec<u8>, value: u32)
    ensures
        final(out)@ == old(out)@ + be_bytes(value),
{
    proof {
        }
    out.push((value / 0x100_0000) as u8);
    out.push((value / 0x1_0000 % 0x100) as u8);
    out.push((value / 0x100 % 0x100) as u8);
    out.push((value % 0x100) as u8);
    assert(out@ =~= old(out)@ + be_bytes(value));
}

/// The frame of a chunk with the given fields.
pub open spec fn frame(length: u32, chunk_type: Seq<u8>, data: Seq<u8>, crc: u32) -> Seq<u8> {
    be_bytes(length) + chunk_type + data + be_bytes(crc)
}

/// The length that a frame declares: its first four bytes.
pub open spec fn declared_length(bytes: Seq<u8>) -> u32 {
    be_value(bytes.subrange(0, 4))
}

/// The type of a frame: its bytes 4 to 7.
pub open spec fn type_portion(bytes: Seq<u8>) -> Seq<u8> {
    bytes.subrange(4, 8)
}

/// The data of a frame: all that lies between the type and the checksum.
pub open spec fn data_portion(bytes: Seq<u8>) -> Seq<u8> {
    bytes.subrange(8, bytes.len() - 4)
}

/// The part of a frame that its checksum covers: type and data.
pub open spec fn checked_portion(bytes: Seq<u8>) -> Seq<u8> {
    bytes.subrange(4, bytes.len() - 4)
}

/// The checksum that a frame stores: its last four bytes.
pub open spec fn stored_crc(bytes: Seq<u8>) -> u32 {
    be_value(bytes.subrange(bytes.len() - 4, bytes.len() as int))
}

/// The parts of a frame are the fields it was built from.
pub proof fn lemma_frame_portions(length: u32, chunk_type: Seq<u8>, data: Seq<u8>, crc: u32)
    requires
        chunk_type.len() == 4,
    ensures
        frame(length, chunk_type, data, crc).len() == FRAME_OVERHEAD + data.len(),
        declared_length(frame(length, chunk_type, data, crc)) == length,
        type_portion(frame(length, chunk_type, data, crc)) == chunk_type,
        data_portion(frame(length, chunk_type, data, crc)) == data,
        checked_portion(frame(length, chunk_type, data, crc)) == chunk_type + data,
        stored_crc(frame(length, chunk_type, data, crc)) == crc,
{
    let bytes = frame(length, chunk_type, data, crc);
    lemma_be_value_of_bytes(length);
    lemma_be_value_of_bytes(crc);
    assert(bytes.subrange(0, 4) =~= be_bytes(length));
    assert(bytes.subrange(bytes.len() - 4, bytes.len() as int) =~= be_bytes(crc));
    assert(type_portion(bytes) =~= chunk_type);
    assert(data_portion(bytes) =~= data);
    assert(checked_portion(bytes) =~= chunk_type + data);
}

/// What is wrong with `bytes` as one frame, given the checksum `computed`
/// of its type and data. The faults are looked for in this order: too short
/// to be a frame, a declared length that is not the length of the data, a
/// stored checksum that is not `computed`.
pub open spec fn frame_fault(bytes: Seq<u8>, computed: u32) -> Result<(), PngError> {
    if bytes.len() < FRAME_OVERHEAD {
        Err(PngError::TruncatedChunk)
    } else if declared_length(bytes) != bytes.len() - FRAME_OVERHEAD {
        Err(
            PngError::LengthMismatch {
                declared: declared_length(bytes),
                found: (bytes.len() - FRAME_OVERHEAD) as usize,
            },
        )
    } else if stored_crc(bytes) != computed {
        Err(PngError::CrcMismatch)
    } else {
        Ok(())
    }
}

/// Checks `bytes` as one frame against the checksum `computed` of its type
/// and data.
pub fn check_frame(bytes: &[u8], computed: u32) -> (out: Result<(), PngError>)
    ensures
        out == frame_fault(bytes@, computed),
{
    let len = bytes.len();
    if len < FRAME_OVERHEAD {
        return Err(PngError::TruncatedChunk);
    }
    let found = len - FRAME_OVERHEAD;
    let declared = read_be_u32(bytes, 0);
    if declared as usize != found {
        return Err(PngError::LengthMismatch { declared, found });
    }
    let stored = read_be_u32(bytes, len - 4);
    if stored != computed {
        return Err(PngError::CrcMismatch);
    }
    Ok(())
}

/// Builds the frame of a chunk with the given fields.
pub fn write_frame(length: u32, chunk_type: &[u8; 4], data: &[u8], crc: u32) -> (out: Vec<u8>)
    ensures
        out@ == frame(length, chunk_type@, data@, crc),
{
    let mut out = Vec::new();
    write_be_u32(&mut out, length);
    out.extend_from_slice(chunk_type.as_slice());
    out.extend_from_slice(data);
    write_be_u32(&mut out, crc);
    out
}

} // verus!
