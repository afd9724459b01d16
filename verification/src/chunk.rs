//! A chunk: a type code and opaque data, under a length prefix and a checksum.

use crate::checksum::{checksum, crc32_iso_hdlc};
use crate::chunk_type::ChunkType;
use crate::error::PngError;
use crate::frame::{
    check_frame, checked_portion, data_portion, declared_length, frame, frame_fault,
    lemma_be_bytes_of_value, lemma_frame_portions, read_be_u32, stored_crc, type_portion,
    write_frame, FRAME_OVERHEAD,
};
use crate::text::{
    append_byte_column, append_bytewise, append_decimal, byte_column, bytewise_text, decimal,
    decode_text, lenient_text,
};
use vstd::prelude::*;
use vstd::slice::{slice_subrange, slice_to_vec};
use vstd::string::StringExecFns;
use vstd::utf8::{decode_utf8, valid_utf8};

verus! {

/// What a chunk is, as plain values.
pub struct ChunkView {
    /// The number of data bytes.
    pub length: u32,
    /// The four bytes of the type code.
    pub chunk_type: Seq<u8>,
    /// The data.
    pub data: Seq<u8>,
    /// The checksum of type and data.
    pub crc: u32,
}

impl ChunkView {
    /// Whether the fields agree: four type bytes, the length that of the data,
    /// the checksum that of type and data. Every `Chunk` has such a view.
    pub open spec fn wf(self) -> bool {
        &&& self.chunk_type.len() == 4
        &&& self.length == self.data.len()
        &&& self.crc == crc32_iso_hdlc(self.chunk_type + self.data)
    }

    /// The chunk that has the given type and data.
    pub open spec fn of(chunk_type: Seq<u8>, data: Seq<u8>) -> ChunkView {
        ChunkView {
            length: data.len() as u32,
            chunk_type,
            data,
            crc: crc32_iso_hdlc(chunk_type + data),
        }
    }

    /// The frame of the chunk: length, type, data, checksum.
    pub open spec fn encoded(self) -> Seq<u8> {
        frame(self.length, self.chunk_type, self.data, self.crc)
    }

    /// The chunk put into words, one line for each field: the length, the
    /// type as text, the data as a list of numbers, the data as text with one
    /// character for each byte, and the checksum.
    pub open spec fn described(self) -> Seq<char> {
        "Length: "@ + decimal(self.length as nat) + "\nChunk Type: "@ + lenient_text(
            self.chunk_type,
        ) + "\nData (Bytes): "@ + byte_column(self.data) + "\nData (String): "@ + bytewise_text(
            self.data,
        ) + "\nCRC: "@ + decimal(self.crc as nat) + "\n"@
    }

    /// The chunk that `bytes` hold as exactly one frame, or what is wrong
    /// with them: the fault of the frame against the checksum of its type
    /// and data, and where it has none, the fields as they stand.
    pub open spec fn decoded(bytes: Seq<u8>) -> Result<ChunkView, PngError> {
        match frame_fault(bytes, crc32_iso_hdlc(checked_portion(bytes))) {
            Err(e) => Err(e),
            Ok(_) => Ok(
                ChunkView {
                    length: declared_length(bytes),
                    chunk_type: type_portion(bytes),
                    data: data_portion(bytes),
                    crc: stored_crc(bytes),
                },
            ),
        }
    }
}

/// Decoding the frame of a well-formed chunk gives that chunk back.
pub proof fn lemma_decode_encoded(chunk: ChunkView)
    requires
        chunk.wf(),
    ensures
        ChunkView::decoded(chunk.encoded()) == Ok::<ChunkView, PngError>(chunk),
{
    lemma_frame_portions(chunk.length, chunk.chunk_type, chunk.data, chunk.crc);
}

/// A frame that decodes is the frame of the chunk it decodes to, and that
/// chunk is well formed.
pub proof fn lemma_encode_decoded(bytes: Seq<u8>)
    requires
        ChunkView::decoded(bytes) is Ok,
    ensures
        ChunkView::decoded(bytes)->Ok_0.wf(),
        ChunkView::decoded(bytes)->Ok_0.encoded() == bytes,
{
    let chunk = ChunkView::decoded(bytes)->Ok_0;
    lemma_be_bytes_of_value(bytes.subrange(0, 4));
    lemma_be_bytes_of_value(bytes.subrange(bytes.len() - 4, bytes.len() as int));
    assert(chunk.chunk_type + chunk.data =~= checked_portion(bytes));
    assert(chunk.encoded() =~= bytes);
}

/// Round trip: the frame of the chunk built from a type and data decodes to
/// that chunk, equal in length, type, data and checksum.
pub proof fn lemma_round_trip(chunk_type: ChunkType, data: Seq<u8>)
    requires
        data.len() <= u32::MAX,
    ensures
        ChunkView::of(chunk_type@, data).wf(),
        ChunkView::decoded(ChunkView::of(chunk_type@, data).encoded()) == Ok::<
            ChunkView,
            PngError,
        >(ChunkView::of(chunk_type@, data)),
{
    lemma_decode_encoded(ChunkView::of(chunk_type@, data));
}

/// Length enforcement: a frame that declares another length than that of its
/// data is refused with `LengthMismatch`, whatever else it holds.
pub proof fn lemma_wrong_length_is_refused(
    declared: u32,
    chunk_type: ChunkType,
    data: Seq<u8>,
    crc: u32,
)
    requires
        data.len() <= u32::MAX,
        declared != data.len(),
    ensures
        ChunkView::decoded(frame(declared, chunk_type@, data, crc)) == Err::<ChunkView, PngError>(
            PngError::LengthMismatch { declared, found: data.len() as usize },
        ),
{
    lemma_frame_portions(declared, chunk_type@, data, crc);
}

/// A frame with the right length decodes exactly when it stores the
/// checksum of its type and data. With any other checksum it is refused with
/// `CrcMismatch`.
pub proof fn lemma_stored_checksum_decides(chunk_type: ChunkType, data: Seq<u8>, stored: u32)
    requires
        data.len() <= u32::MAX,
    ensures
        ChunkView::decoded(frame(data.len() as u32, chunk_type@, data, stored)) == if stored
            == crc32_iso_hdlc(chunk_type@ + data) {
            Ok::<ChunkView, PngError>(ChunkView::of(chunk_type@, data))
        } else {
            Err::<ChunkView, PngError>(PngError::CrcMismatch)
        },
{
    lemma_frame_portions(data.len() as u32, chunk_type@, data, stored);
}

/// Where the type or the data of an encoded chunk is overwritten in place and
/// the stored checksum is left as it was, decoding fails with `CrcMismatch`
/// unless what was written has the checksum of what it replaced. In that one
/// case the frame decodes, to the chunk with the new type and data.
pub proof fn lemma_changed_payload(chunk: ChunkView, chunk_type: Seq<u8>, data: Seq<u8>)
    requires
        chunk.wf(),
        chunk_type.len() == 4,
        data.len() == chunk.data.len(),
    ensures
        ChunkView::decoded(frame(chunk.length, chunk_type, data, chunk.crc)) == if crc32_iso_hdlc(
            chunk_type + data,
        ) == chunk.crc {
            Ok::<ChunkView, PngError>(ChunkView::of(chunk_type, data))
        } else {
            Err::<ChunkView, PngError>(PngError::CrcMismatch)
        },
{
    lemma_frame_portions(chunk.length, chunk_type, data, chunk.crc);
}

/// One chunk of a PNG file. Its length is always that of its data and its
/// checksum always that of its type and data.
#[derive(Debug, Eq)]
pub struct Chunk {
    length: u32,
    chunk_type: ChunkType,
    data: Vec<u8>,
    crc: u32,
}

impl View for Chunk {
    type V = ChunkView;

    closed spec fn view(&self) -> ChunkView {
        ChunkView {
            length: self.length,
            chunk_type: self.chunk_type@,
            data: self.data@,
            crc: self.crc,
        }
    }
}

fn same_bytes(a: &Vec<u8>, b: &Vec<u8>) -> (same: bool)
    ensures
        same == (a@ == b@),
{
    if a.len() != b.len() {
        return false;
    }
    let mut i: usize = 0;
    while i < a.len()
        invariant
            i <= a.len(),
            a.len() == b.len(),
            forall|j: int| 0 <= j < i ==> a@[j] == b@[j],
        decreases a.len() - i,
    {
        if a[i] != b[i] {
            return false;
        }
        i += 1;
    }
    assert(a@ =~= b@);
    true
}

impl Clone for Chunk {
    fn clone(&self) -> (out: Self)
        ensures
            out@ == self@,
    {
        proof {
            use_type_invariant(self);
        }
        Chunk {
            length: self.length,
            chunk_type: self.chunk_type,
            data: self.data.clone(),
            crc: self.crc,
        }
    }
}

impl PartialEq for Chunk {
    fn eq(&self, other: &Self) -> (same: bool) {
        self.length == other.length && self.chunk_type == other.chunk_type && self.crc
            == other.crc && same_bytes(&self.data, &other.data)
    }
}

impl vstd::std_specs::cmp::PartialEqSpecImpl for Chunk {
    open spec fn obeys_eq_spec() -> bool {
        true
    }

    /// Two chunks are equal when their four fields are.
    open spec fn eq_spec(&self, other: &Self) -> bool {
        self@ == other@
    }
}

impl<'a> TryFrom<&'a [u8]> for Chunk {
    type Error = PngError;

    /// Decodes a buffer that holds exactly one frame.
    ///
    /// The buffer must be at least twelve bytes long, its first four bytes
    /// must give the number of bytes between the type and the checksum, and
    /// its last four the checksum of type and data. The type is taken as it
    /// stands: it need not be made of letters.
    fn try_from(bytes: &'a [u8]) -> (out: Result<Self, PngError>)
        ensures
            match out {
                Ok(chunk) => ChunkView::decoded(bytes@) == Ok::<ChunkView, PngError>(chunk@)
                    && chunk@.wf(),
                Err(e) => ChunkView::decoded(bytes@) == Err::<ChunkView, PngError>(e),
            },
    {
        let len = bytes.len();
        if len < FRAME_OVERHEAD {
            return Err(PngError::TruncatedChunk);
        }
        let computed = checksum(slice_subrange(bytes, 4, len - 4));
        match check_frame(bytes, computed) {
            Err(e) => Err(e),
            Ok(_) => {
                let length = read_be_u32(bytes, 0);
                let code = [bytes[4], bytes[5], bytes[6], bytes[7]];
                let data = slice_to_vec(slice_subrange(bytes, 8, len - 4));
                let crc = read_be_u32(bytes, len - 4);
                let chunk_type = ChunkType::try_from(code)?;
                proof {
                    assert(chunk_type@ =~= type_portion(bytes@));
                    assert(chunk_type@ + data@ =~= checked_portion(bytes@));
                }
                Ok(Chunk { length, chunk_type, data, crc })
            },
        }
    }
}

impl<'a> vstd::std_specs::convert::TryFromSpecImpl<&'a [u8]> for Chunk {
    /// The contract stands on `try_from` itself, over the view of the chunk.
    open spec fn obeys_try_from_spec() -> bool {
        false
    }

    open spec fn try_from_spec(bytes: &'a [u8]) -> Result<Self, PngError> {
        arbitrary()
    }
}

impl Chunk {
    #[verifier::type_invariant]
    spec fn consistent(self) -> bool {
        self@.wf()
    }

    /// Builds the chunk of the given type and data, with the length and the
    /// checksum that belong to them.
    pub fn new(chunk_type: ChunkType, data: Vec<u8>) -> (out: Chunk)
        requires
            data.len() <= u32::MAX,
        ensures
            out@ == ChunkView::of(chunk_type@, data@),
            out@.wf(),
    {
        let length = data.len() as u32;
        let mut covered: Vec<u8> = Vec::new();
        covered.extend_from_slice(chunk_type.bytes().as_slice());
        covered.extend_from_slice(data.as_slice());
        let crc = checksum(covered.as_slice());
        assert(covered@ =~= chunk_type@ + data@);
        Chunk { length, chunk_type, data, crc }
    }

    /// The number of data bytes.
    pub fn length(&self) -> (out: u32)
        ensures
            out == self@.length,
            out == self@.data.len(),
    {
        proof {
            use_type_invariant(self);
        }
        self.length
    }

    /// The type code.
    pub fn chunk_type(&self) -> (out: &ChunkType)
        ensures
            out@ == self@.chunk_type,
    {
        &self.chunk_type
    }

    /// The data.
    pub fn data(&self) -> (out: &[u8])
        ensures
            out@ == self@.data,
    {
        self.data.as_slice()
    }

    /// The checksum of type and data.
    pub fn crc(&self) -> (out: u32)
        ensures
            out == self@.crc,
            out == crc32_iso_hdlc(self@.chunk_type + self@.data),
    {
        proof {
            use_type_invariant(self);
        }
        self.crc
    }

    /// The data as text, where it is valid UTF-8.
    pub fn data_as_string(&self) -> (out: Result<String, PngError>)
        ensures
            match out {
                Ok(text) => valid_utf8(self@.data) && text@ == decode_utf8(self@.data),
                Err(e) => !valid_utf8(self@.data) && e == PngError::Utf8DecodeFailure,
            },
    {
        match decode_text(self.data.as_slice()) {
            Some(text) => Ok(text),
            None => Err(PngError::Utf8DecodeFailure),
        }
    }

    /// The chunk put into words, for a reader.
    pub fn to_string(&self) -> (out: String)
        ensures
            out@ == self@.described(),
    {
        let mut out = String::from_str("Length: ");
        append_decimal(&mut out, self.length as u64);
        out.append("\nChunk Type: ");
        let code = self.chunk_type.to_string();
        out.append(code.as_str());
        out.append("\nData (Bytes): ");
        append_byte_column(&mut out, self.data.as_slice());
        out.append("\nData (String): ");
        append_bytewise(&mut out, self.data.as_slice());
        out.append("\nCRC: ");
        append_decimal(&mut out, self.crc as u64);
        out.append("\n");
        assert(out@ =~= self@.described());
        out
    }

    /// The frame of the chunk: length, type, data and checksum, with length
    /// and checksum big-endian.
    pub fn as_bytes(&self) -> (out: Vec<u8>)
        ensures
            out@ == self@.encoded(),
            self@.wf(),
    {
        proof {
            use_type_invariant(self);
        }
        let code = self.chunk_type.bytes();
        write_frame(self.length, &code, self.data.as_slice(), self.crc)
    }
}

} // verus!
