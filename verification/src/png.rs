//! The container: the fixed signature and an ordered sequence of chunks.

use crate::chunk::{Chunk, ChunkView};
use crate::chunk_type::ChunkType;
use crate::error::PngError;
use crate::frame::{declared_length, lemma_frame_portions, read_be_u32, FRAME_OVERHEAD};
use crate::text::{append_byte_list, byte_list};
use vstd::prelude::*;
use vstd::slice::slice_subrange;
use vstd::string::StringExecFns;

verus! {

/// The eight bytes with which every PNG file begins.
pub const STANDARD_HEADER: [u8; 8] = [137, 80, 78, 71, 13, 10, 26, 10];

/// The views of a sequence of chunks, in order.
pub open spec fn views(chunks: Seq<Chunk>) -> Seq<ChunkView> {
    chunks.map_values(|chunk: Chunk| chunk@)
}

/// The views of a sequence of borrowed chunks, in order.
pub open spec fn views_of_refs(chunks: Seq<&Chunk>) -> Seq<ChunkView> {
    chunks.map_values(|chunk: &Chunk| chunk@)
}

/// The test that a chunk has the type `code`.
pub open spec fn has_type(code: Seq<u8>) -> spec_fn(ChunkView) -> bool {
    |chunk: ChunkView| chunk.chunk_type == code
}

/// Whether no chunk of the sequence has the type `code`.
pub open spec fn none_of_type(chunks: Seq<ChunkView>, code: Seq<u8>) -> bool {
    forall|j: int| 0 <= j < chunks.len() ==> (#[trigger] chunks[j]).chunk_type != code
}

/// Whether `i` is the place of the earliest chunk of type `code`.
pub open spec fn is_first_of_type(chunks: Seq<ChunkView>, code: Seq<u8>, i: int) -> bool {
    &&& 0 <= i < chunks.len()
    &&& chunks[i].chunk_type == code
    &&& none_of_type(chunks.take(i), code)
}

/// The chunks of a type are none exactly where no chunk has the type.
pub proof fn lemma_no_match_no_chunk(chunks: Seq<ChunkView>, code: Seq<u8>)
    ensures
        none_of_type(chunks, code) <==> chunks.filter(has_type(code)).len() == 0,
{
    let found = chunks.filter(has_type(code));
    if none_of_type(chunks, code) {
        if found.len() > 0 {
            chunks.lemma_filter_pred(has_type(code), 0);
            chunks.lemma_filter_contains_rev(has_type(code), found[0]);
        }
    } else {
        let j = choose|j: int| 0 <= j < chunks.len() && chunks[j].chunk_type == code;
        chunks.lemma_filter_contains(has_type(code), j);
    }
}

/// The frames of the chunks, back to back.
pub open spec fn frames(chunks: Seq<ChunkView>) -> Seq<u8> {
    chunks.map_values(|chunk: ChunkView| chunk.encoded()).flatten()
}

/// The bytes of a container: the signature, then the frames of its chunks.
pub open spec fn encoded(chunks: Seq<ChunkView>) -> Seq<u8> {
    STANDARD_HEADER@ + frames(chunks)
}

/// The descriptions of the chunks, one behind the other.
pub open spec fn descriptions(chunks: Seq<ChunkView>) -> Seq<char> {
    chunks.map_values(|chunk: ChunkView| chunk.described()).flatten()
}

/// A container put into words: a line with the signature as a list of
/// numbers, then the description of each chunk.
pub open spec fn described(chunks: Seq<ChunkView>) -> Seq<char> {
    "Header: "@ + byte_list(STANDARD_HEADER@) + "\n"@ + descriptions(chunks)
}

/// How many bytes the frame at the head of `bytes` takes: twelve more than it
/// declares as its length, and all of `bytes` where they are fewer than that.
pub open spec fn head_len(bytes: Seq<u8>) -> int {
    if declared_length(bytes) <= bytes.len() - FRAME_OVERHEAD {
        FRAME_OVERHEAD + declared_length(bytes)
    } else {
        bytes.len() as int
    }
}

/// `chunks` in front of what `rest` holds, and the error of `rest` where it
/// is one.
pub open spec fn preceded_by(
    chunks: Seq<ChunkView>,
    rest: Result<Seq<ChunkView>, PngError>,
) -> Result<Seq<ChunkView>, PngError> {
    match rest {
        Ok(more) => Ok(chunks + more),
        Err(e) => Err(e),
    }
}

/// The chunks that `bytes` hold as frames back to back, or the first fault.
///
/// No bytes hold no chunks. Fewer than twelve bytes are a truncated chunk.
/// Otherwise the frame at the head is decoded, and the bytes behind it hold
/// the chunks that follow. A frame that declares more data than is left
/// takes all that is left, and so fails to decode with `LengthMismatch`.
pub open spec fn decoded_frames(bytes: Seq<u8>) -> Result<Seq<ChunkView>, PngError>
    decreases bytes.len(),
{
    if bytes.len() == 0 {
        Ok(Seq::empty())
    } else if bytes.len() < FRAME_OVERHEAD {
        Err(PngError::TruncatedChunk)
    } else {
        match ChunkView::decoded(bytes.take(head_len(bytes))) {
            Ok(chunk) => preceded_by(seq![chunk], decoded_frames(bytes.skip(head_len(bytes)))),
            Err(e) => Err(e),
        }
    }
}

/// Whether `bytes` begin with the signature.
pub open spec fn has_signature(bytes: Seq<u8>) -> bool {
    bytes.len() >= 8 && bytes.take(8) == STANDARD_HEADER@
}

/// The chunks of the file that `bytes` hold, or the first fault: a missing
/// signature, or that of the frames behind it.
pub open spec fn decoded(bytes: Seq<u8>) -> Result<Seq<ChunkView>, PngError> {
    if has_signature(bytes) {
        decoded_frames(bytes.skip(8))
    } else {
        Err(PngError::BadSignature)
    }
}

/// Bytes with the signature in front of them begin with the signature, and
/// what follows it are those bytes.
proof fn lemma_signature_in_front(body: Seq<u8>)
    ensures
        has_signature(STANDARD_HEADER@ + body),
        (STANDARD_HEADER@ + body).skip(8) == body,
{
    let bytes = STANDARD_HEADER@ + body;
    assert(bytes.take(8) =~= STANDARD_HEADER@);
    assert(bytes.skip(8) =~= body);
}

/// Whether every chunk of the sequence is well formed.
pub open spec fn all_wf(chunks: Seq<ChunkView>) -> bool {
    forall|i: int| 0 <= i < chunks.len() ==> (#[trigger] chunks[i]).wf()
}

/// A sequence that is not empty is its first item and then the others.
proof fn lemma_first_and_others<A>(s: Seq<A>)
    requires
        s.len() > 0,
    ensures
        seq![s[0]] + s.drop_first() == s,
{
    assert(seq![s[0]] + s.drop_first() =~= s);
}

/// The first item of a sequence made of an item and others is that item,
/// and the others are those others.
proof fn lemma_others_of<A>(first: A, others: Seq<A>)
    ensures
        (seq![first] + others).len() > 0,
        (seq![first] + others)[0] == first,
        (seq![first] + others).drop_first() == others,
{
    assert((seq![first] + others).drop_first() =~= others);
}

/// A sequence is what stands before a place in it and then what stands
/// from there on.
proof fn lemma_front_and_back<A>(s: Seq<A>, n: int)
    requires
        0 <= n <= s.len(),
    ensures
        s.take(n) + s.skip(n) == s,
{
    assert(s.take(n) + s.skip(n) =~= s);
}

/// Where all chunks are well formed, so are all but the first.
proof fn lemma_others_wf(chunks: Seq<ChunkView>)
    requires
        chunks.len() > 0,
        all_wf(chunks),
    ensures
        chunks[0].wf(),
        all_wf(chunks.drop_first()),
{
    let tail = chunks.drop_first();
    assert forall|i: int| 0 <= i < tail.len() implies (#[trigger] tail[i]).wf() by {
        assert(tail[i] == chunks[i + 1]);
    }
}

/// Where a chunk is well formed and those behind it are, all are.
proof fn lemma_all_wf(first: ChunkView, others: Seq<ChunkView>)
    requires
        first.wf(),
        all_wf(others),
    ensures
        all_wf(seq![first] + others),
{
    let chunks = seq![first] + others;
    assert forall|i: int| 0 <= i < chunks.len() implies (#[trigger] chunks[i]).wf() by {
        if i > 0 {
            assert(chunks[i] == others[i - 1]);
        }
    }
}

/// No chunks have no frames.
proof fn lemma_no_frames()
    ensures
        frames(Seq::empty()) == Seq::<u8>::empty(),
{
    assert(Seq::<ChunkView>::empty().map_values(|chunk: ChunkView| chunk.encoded()) =~= Seq::<
        Seq<u8>,
    >::empty());
}

/// The frames of a sequence that is not empty are the frame of its first
/// chunk and then the frames of the others.
proof fn lemma_frames_unfold(chunks: Seq<ChunkView>)
    requires
        chunks.len() > 0,
    ensures
        frames(chunks) == chunks[0].encoded() + frames(chunks.drop_first()),
{
    let each = chunks.map_values(|chunk: ChunkView| chunk.encoded());
    assert(each.drop_first() =~= chunks.drop_first().map_values(
        |chunk: ChunkView| chunk.encoded(),
    ));
}

/// What stands in front of a sequence that was put behind another.
proof fn lemma_front_of<A>(front: Seq<A>, back: Seq<A>, n: int)
    requires
        0 <= n <= front.len(),
    ensures
        (front + back).subrange(0, n) == front.subrange(0, n),
        (front + back).take(front.len() as int) == front,
        (front + back).skip(front.len() as int) == back,
{
    assert((front + back).subrange(0, n) =~= front.subrange(0, n));
    assert((front + back).take(front.len() as int) =~= front);
    assert((front + back).skip(front.len() as int) =~= back);
}

/// Where the frame of a well-formed chunk stands in front of other bytes,
/// the frame at the head is that frame, and the other bytes follow it.
proof fn lemma_head_of_frames(head: ChunkView, rest: Seq<u8>)
    requires
        head.wf(),
    ensures
        (head.encoded() + rest).len() >= FRAME_OVERHEAD,
        head_len(head.encoded() + rest) == head.encoded().len(),
        (head.encoded() + rest).take(head_len(head.encoded() + rest)) == head.encoded(),
        (head.encoded() + rest).skip(head_len(head.encoded() + rest)) == rest,
{
    lemma_frame_portions(head.length, head.chunk_type, head.data, head.crc);
    lemma_front_of(head.encoded(), rest, 4);
}

/// Where the frame at the head of `bytes` decodes to `head` and the bytes
/// behind it to `tail`, all of `bytes` decode to `head` and then `tail`.
proof fn lemma_decoded_frames_step(bytes: Seq<u8>, head: ChunkView, tail: Seq<ChunkView>)
    requires
        bytes.len() >= FRAME_OVERHEAD,
        ChunkView::decoded(bytes.take(head_len(bytes))) == Ok::<ChunkView, PngError>(head),
        decoded_frames(bytes.skip(head_len(bytes))) == Ok::<Seq<ChunkView>, PngError>(tail),
    ensures
        decoded_frames(bytes) == Ok::<Seq<ChunkView>, PngError>(seq![head] + tail),
{
}

/// Decoding the frames of well-formed chunks gives those chunks back, in
/// their order.
pub proof fn lemma_decode_frames(chunks: Seq<ChunkView>)
    requires
        all_wf(chunks),
    ensures
        decoded_frames(frames(chunks)) == Ok::<Seq<ChunkView>, PngError>(chunks),
    decreases chunks.len(),
{
    if chunks.len() == 0 {
        assert(chunks =~= Seq::empty());
        lemma_no_frames();
    } else {
        let head = chunks[0];
        let tail = chunks.drop_first();
        lemma_others_wf(chunks);
        lemma_frames_unfold(chunks);
        lemma_head_of_frames(head, frames(tail));
        crate::chunk::lemma_decode_encoded(head);
        lemma_decode_frames(tail);
        lemma_decoded_frames_step(frames(chunks), head, tail);
        lemma_first_and_others(chunks);
    }
}

/// Where frames decode and there are some, the frame at the head decodes,
/// the bytes behind it decode, and the chunks are that of the head and then
/// those behind it.
proof fn lemma_decoded_frames_unfold(bytes: Seq<u8>)
    requires
        decoded_frames(bytes) is Ok,
        bytes.len() > 0,
    ensures
        0 < head_len(bytes) <= bytes.len(),
        ChunkView::decoded(bytes.take(head_len(bytes))) is Ok,
        decoded_frames(bytes.skip(head_len(bytes))) is Ok,
        decoded_frames(bytes)->Ok_0 == seq![
            ChunkView::decoded(bytes.take(head_len(bytes)))->Ok_0,
        ] + decoded_frames(bytes.skip(head_len(bytes)))->Ok_0,
{
}

/// Frames that decode are the frames of the chunks they decode to, and those
/// chunks are well formed.
pub proof fn lemma_encode_frames(bytes: Seq<u8>)
    requires
        decoded_frames(bytes) is Ok,
    ensures
        all_wf(decoded_frames(bytes)->Ok_0),
        frames(decoded_frames(bytes)->Ok_0) == bytes,
    decreases bytes.len(),
{
    if bytes.len() == 0 {
        assert(bytes =~= Seq::empty());
        lemma_no_frames();
    } else {
        lemma_decoded_frames_unfold(bytes);
        let n = head_len(bytes);
        let head = ChunkView::decoded(bytes.take(n))->Ok_0;
        let tail = decoded_frames(bytes.skip(n))->Ok_0;
        crate::chunk::lemma_encode_decoded(bytes.take(n));
        lemma_encode_frames(bytes.skip(n));
        lemma_others_of(head, tail);
        lemma_frames_unfold(seq![head] + tail);
        lemma_front_and_back(bytes, n);
        lemma_all_wf(head, tail);
    }
}

/// Round trip of the container: the bytes of well-formed chunks decode to
/// those chunks, in their order.
pub proof fn lemma_decode_encoded(chunks: Seq<ChunkView>)
    requires
        all_wf(chunks),
    ensures
        decoded(encoded(chunks)) == Ok::<Seq<ChunkView>, PngError>(chunks),
{
    lemma_signature_in_front(frames(chunks));
    lemma_decode_frames(chunks);
}

/// A buffer that decodes is byte for byte what its chunks encode to, and
/// those chunks are well formed.
pub proof fn lemma_encode_decoded(bytes: Seq<u8>)
    requires
        decoded(bytes) is Ok,
    ensures
        all_wf(decoded(bytes)->Ok_0),
        encoded(decoded(bytes)->Ok_0) == bytes,
{
    lemma_encode_frames(bytes.skip(8));
    lemma_front_and_back(bytes, 8);
}

/// Where the frame that starts at `pos` ends.
fn head_end(bytes: &[u8], pos: usize) -> (end: usize)
    requires
        pos + FRAME_OVERHEAD <= bytes.len(),
    ensures
        pos + FRAME_OVERHEAD <= end <= bytes.len(),
        end - pos == head_len(bytes@.skip(pos as int)),
{
    let declared = read_be_u32(bytes, pos);
    assert(bytes@.skip(pos as int).subrange(0, 4) =~= bytes@.subrange(pos as int, pos + 4));
    if declared as usize <= bytes.len() - pos - FRAME_OVERHEAD {
        pos + FRAME_OVERHEAD + declared as usize
    } else {
        bytes.len()
    }
}

/// The frame at the head of what follows `pos`, and what follows that
/// frame, as parts of the whole.
proof fn lemma_head_in_place(bytes: Seq<u8>, pos: int)
    requires
        0 <= pos,
        pos + FRAME_OVERHEAD <= bytes.len(),
        pos + FRAME_OVERHEAD <= pos + head_len(bytes.skip(pos)) <= bytes.len(),
    ensures
        bytes.subrange(pos, pos + head_len(bytes.skip(pos))) == bytes.skip(pos).take(
            head_len(bytes.skip(pos)),
        ),
        bytes.skip(pos + head_len(bytes.skip(pos))) == bytes.skip(pos).skip(
            head_len(bytes.skip(pos)),
        ),
{
    let n = head_len(bytes.skip(pos));
    assert(bytes.subrange(pos, pos + n) =~= bytes.skip(pos).take(n));
    assert(bytes.skip(pos + n) =~= bytes.skip(pos).skip(n));
}

/// Putting a chunk behind those in front is putting it in front of those
/// behind.
proof fn lemma_views_push(
    before: Seq<ChunkView>,
    after: Seq<ChunkView>,
    chunk: ChunkView,
    rest: Result<Seq<ChunkView>, PngError>,
)
    requires
        after =~= before.push(chunk),
    ensures
        preceded_by(before, preceded_by(seq![chunk], rest)) == preceded_by(after, rest),
{
    if let Ok(more) = rest {
        assert(before + (seq![chunk] + more) =~= before.push(chunk) + more);
    }
}

fn starts_with_signature(bytes: &[u8]) -> (out: bool)
    ensures
        out == has_signature(bytes@),
{
    if bytes.len() < 8 {
        return false;
    }
    let mut i: usize = 0;
    while i < 8
        invariant
            i <= 8,
            bytes.len() >= 8,
            forall|j: int| 0 <= j < i ==> bytes@[j] == STANDARD_HEADER@[j],
        decreases 8 - i,
    {
        if bytes[i] != STANDARD_HEADER[i] {
            assert(bytes@.take(8)[i as int] != STANDARD_HEADER@[i as int]);
            return false;
        }
        i += 1;
    }
    assert(bytes@.take(8) =~= STANDARD_HEADER@);
    true
}

/// A PNG file as the sequence of its chunks. The order of the chunks is kept
/// as it is given.
#[derive(Debug, Eq)]
pub struct Png {
    chunks: Vec<Chunk>,
}

impl View for Png {
    type V = Seq<ChunkView>;

    closed spec fn view(&self) -> Seq<ChunkView> {
        views(self.chunks@)
    }
}

impl Clone for Png {
    fn clone(&self) -> (out: Self)
        ensures
            out@ == self@,
    {
        let mut chunks: Vec<Chunk> = Vec::new();
        let mut i: usize = 0;
        while i < self.chunks.len()
            invariant
                i <= self.chunks.len(),
                views(chunks@) == self@.take(i as int),
            decreases self.chunks.len() - i,
        {
            let chunk = self.chunks[i].clone();
            let ghost before = views(chunks@);
            chunks.push(chunk);
            assert(views(chunks@) =~= before.push(chunk@));
            assert(self@.take(i + 1) =~= self@.take(i as int).push(self@[i as int]));
            i += 1;
        }
        assert(self@.take(i as int) =~= self@);
        Png { chunks }
    }
}

impl PartialEq for Png {
    fn eq(&self, other: &Self) -> (same: bool) {
        if self.chunks.len() != other.chunks.len() {
            assert(self@.len() != other@.len());
            return false;
        }
        let mut i: usize = 0;
        while i < self.chunks.len()
            invariant
                i <= self.chunks.len(),
                self.chunks.len() == other.chunks.len(),
                forall|j: int| 0 <= j < i ==> self@[j] == other@[j],
            decreases self.chunks.len() - i,
        {
            if self.chunks[i] != other.chunks[i] {
                assert(self@[i as int] != other@[i as int]);
                return false;
            }
            i += 1;
        }
        assert(self@ =~= other@);
        true
    }
}

impl vstd::std_specs::cmp::PartialEqSpecImpl for Png {
    open spec fn obeys_eq_spec() -> bool {
        true
    }

    /// Two containers are equal when they hold equal chunks in the same order.
    open spec fn eq_spec(&self, other: &Self) -> bool {
        self@ == other@
    }
}

impl<'a> TryFrom<&'a [u8]> for Png {
    type Error = PngError;

    /// Decodes a whole file: the signature, then frames back to back until
    /// the buffer ends. The first fault ends the decoding, and no container
    /// is made of the chunks that came before it.
    fn try_from(bytes: &'a [u8]) -> (out: Result<Self, PngError>)
        ensures
            match out {
                Ok(png) => decoded(bytes@) == Ok::<Seq<ChunkView>, PngError>(png@),
                Err(e) => decoded(bytes@) == Err::<Seq<ChunkView>, PngError>(e),
            },
    {
        if !starts_with_signature(bytes) {
            return Err(PngError::BadSignature);
        }
        let len = bytes.len();
        let mut chunks: Vec<Chunk> = Vec::new();
        let mut pos: usize = 8;
        assert(views(chunks@) + Seq::<ChunkView>::empty() =~= Seq::<ChunkView>::empty());
        while pos < len
            invariant
                8 <= pos <= len,
                len == bytes.len(),
                has_signature(bytes@),
                decoded_frames(bytes@.skip(8)) == preceded_by(
                    views(chunks@),
                    decoded_frames(bytes@.skip(pos as int)),
                ),
            decreases len - pos,
        {
            if len - pos < FRAME_OVERHEAD {
                return Err(PngError::TruncatedChunk);
            }
            let end = head_end(bytes, pos);
            proof {
                lemma_head_in_place(bytes@, pos as int);
            }
            match Chunk::try_from(slice_subrange(bytes, pos, end)) {
                Ok(chunk) => {
                    let ghost before = views(chunks@);
                    chunks.push(chunk);
                    proof {
                        lemma_views_push(
                            before,
                            views(chunks@),
                            chunk@,
                            decoded_frames(bytes@.skip(end as int)),
                        );
                    }
                },
                Err(e) => {
                    return Err(e);
                },
            }
            pos = end;
        }
        assert(views(chunks@) + Seq::<ChunkView>::empty() =~= views(chunks@));
        Ok(Png { chunks })
    }
}

impl<'a> vstd::std_specs::convert::TryFromSpecImpl<&'a [u8]> for Png {
    /// The contract stands on `try_from` itself, over the view of the container.
    open spec fn obeys_try_from_spec() -> bool {
        false
    }

    open spec fn try_from_spec(bytes: &'a [u8]) -> Result<Self, PngError> {
        arbitrary()
    }
}

impl Png {
    /// The container that holds the given chunks, in the given order.
    pub fn from_chunks(chunks: Vec<Chunk>) -> (out: Png)
        ensures
            out@ == views(chunks@),
    {
        Png { chunks }
    }

    /// The chunks, in order.
    pub fn chunks(&self) -> (out: &[Chunk])
        ensures
            views(out@) == self@,
    {
        self.chunks.as_slice()
    }

    /// Adds `chunk` at the end of the sequence, behind every chunk that is
    /// there, whatever its type and theirs.
    pub fn append_chunk(&mut self, chunk: Chunk)
        ensures
            final(self)@ == old(self)@.push(chunk@),
    {
        self.chunks.push(chunk);
        assert(views(self.chunks@) =~= views(old(self).chunks@).push(chunk@));
    }

    /// The place of the earliest chunk of the given type, if there is one.
    pub fn first_matching_index(&self, chunk_type: &ChunkType) -> (out: Option<usize>)
        ensures
            match out {
                Some(i) => is_first_of_type(self@, chunk_type@, i as int),
                None => none_of_type(self@, chunk_type@),
            },
    {
        let mut i: usize = 0;
        while i < self.chunks.len()
            invariant
                i <= self.chunks.len(),
                none_of_type(self@.take(i as int), chunk_type@),
            decreases self.chunks.len() - i,
        {
            if *self.chunks[i].chunk_type() == *chunk_type {
                return Some(i);
            }
            assert(self@.take(i + 1) =~= self@.take(i as int).push(self@[i as int]));
            i += 1;
        }
        assert(self@.take(i as int) =~= self@);
        None
    }

    /// Takes the earliest chunk of the given type out of the sequence and
    /// returns it. The other chunks stay as they are, in their order. Where no
    /// chunk has the type, nothing changes and `ChunkNotFound` is returned.
    pub fn remove_first_chunk(&mut self, chunk_type: &ChunkType) -> (out: Result<Chunk, PngError>)
        ensures
            match out {
                Ok(removed) => exists|i: int|
                    {
                        &&& is_first_of_type(old(self)@, chunk_type@, i)
                        &&& removed@ == old(self)@[i]
                        &&& final(self)@ == old(self)@.remove(i)
                    },
                Err(e) => {
                    &&& e == PngError::ChunkNotFound
                    &&& none_of_type(old(self)@, chunk_type@)
                    &&& final(self)@ == old(self)@
                },
            },
    {
        match self.first_matching_index(chunk_type) {
            Some(i) => {
                let removed = self.chunks.remove(i);
                assert(views(self.chunks@) =~= views(old(self).chunks@).remove(i as int));
                assert(is_first_of_type(old(self)@, chunk_type@, i as int));
                Ok(removed)
            },
            None => Err(PngError::ChunkNotFound),
        }
    }

    /// Every chunk of the given type, in the order of the sequence. Where none
    /// has the type the result is empty.
    pub fn chunks_by_type(&self, chunk_type: &ChunkType) -> (out: Vec<&Chunk>)
        ensures
            views_of_refs(out@) == self@.filter(has_type(chunk_type@)),
            out@.len() == 0 <==> none_of_type(self@, chunk_type@),
    {
        let mut out: Vec<&Chunk> = Vec::new();
        let mut i: usize = 0;
        proof {
            assert(self@.take(0) =~= Seq::<ChunkView>::empty());
            reveal(Seq::filter);
            assert(views_of_refs(out@) =~= self@.take(0).filter(has_type(chunk_type@)));
        }
        while i < self.chunks.len()
            invariant
                i <= self.chunks.len(),
                views_of_refs(out@) == self@.take(i as int).filter(has_type(chunk_type@)),
            decreases self.chunks.len() - i,
        {
            let chunk = &self.chunks[i];
            proof {
                assert(self@.take(i + 1) =~= self@.take(i as int).push(self@[i as int]));
                self@.take(i as int).lemma_filter_push(self@[i as int], has_type(chunk_type@));
            }
            if *chunk.chunk_type() == *chunk_type {
                let ghost before = out@;
                out.push(chunk);
                assert(views_of_refs(out@) =~= views_of_refs(before).push(chunk@));
            }
            i += 1;
        }
        assert(self@.take(i as int) =~= self@);
        proof {
            lemma_no_match_no_chunk(self@, chunk_type@);
        }
        out
    }

    /// The container put into words, for a reader.
    pub fn to_string(&self) -> (out: String)
        ensures
            out@ == described(self@),
    {
        let mut out = String::from_str("Header: ");
        append_byte_list(&mut out, STANDARD_HEADER.as_slice());
        out.append("\n");
        let ghost start = out@;
        let mut i: usize = 0;
        assert(self@.take(0).map_values(|chunk: ChunkView| chunk.described()) =~= Seq::<
            Seq<char>,
        >::empty());
        assert(out@ =~= start + descriptions(self@.take(0)));
        while i < self.chunks.len()
            invariant
                i <= self.chunks.len(),
                out@ == start + descriptions(self@.take(i as int)),
            decreases self.chunks.len() - i,
        {
            let words = self.chunks[i].to_string();
            out.append(words.as_str());
            proof {
                let done = self@.take(i as int).map_values(|chunk: ChunkView| chunk.described());
                assert(self@.take(i + 1).map_values(|chunk: ChunkView| chunk.described())
                    =~= done.push(self@[i as int].described()));
                done.lemma_flatten_push(self@[i as int].described());
                assert(out@ =~= start + descriptions(self@.take(i + 1)));
            }
            i += 1;
        }
        assert(self@.take(i as int) =~= self@);
        out
    }

    /// The bytes of the file: the signature, then the frame of each chunk in
    /// the order of the sequence.
    pub fn as_bytes(&self) -> (out: Vec<u8>)
        ensures
            out@ == encoded(self@),
            all_wf(self@),
    {
        let mut out: Vec<u8> = Vec::new();
        out.extend_from_slice(STANDARD_HEADER.as_slice());
        let mut i: usize = 0;
        assert(self@.take(0).map_values(|chunk: ChunkView| chunk.encoded()) =~= Seq::<
            Seq<u8>,
        >::empty());
        assert(out@ =~= STANDARD_HEADER@ + frames(self@.take(0)));
        while i < self.chunks.len()
            invariant
                i <= self.chunks.len(),
                out@ == STANDARD_HEADER@ + frames(self@.take(i as int)),
                all_wf(self@.take(i as int)),
            decreases self.chunks.len() - i,
        {
            let bytes = self.chunks[i].as_bytes();
            out.extend_from_slice(bytes.as_slice());
            proof {
                let done = self@.take(i as int).map_values(|chunk: ChunkView| chunk.encoded());
                assert(self@.take(i + 1).map_values(|chunk: ChunkView| chunk.encoded())
                    =~= done.push(self@[i as int].encoded()));
                done.lemma_flatten_push(self@[i as int].encoded());
                assert(out@ =~= STANDARD_HEADER@ + frames(self@.take(i + 1)));
            }
            i += 1;
        }
        assert(self@.take(i as int) =~= self@);
        out
    }
}

} // verus!
