//! The four commands, from the bytes of an image to what is to be done.
//!
//! A command reads nothing and writes nothing. It is handed the bytes of the
//! image and returns an [`Action`], which its caller carries out.

use crate::chunk::{Chunk, ChunkView};
use crate::chunk_type::ChunkType;
use crate::error::PngError;
use crate::input::InputImage;
use crate::png::{
    decoded, described, encoded, has_type, is_first_of_type, none_of_type, views_of_refs, Png,
};
use crate::text::{append_byte_list, byte_list, decode_text};
use vstd::prelude::*;
use vstd::slice::slice_to_vec;
use vstd::string::{StringExecFns, StringSliceAdditionalSpecFns};
use vstd::utf8::{decode_utf8, valid_utf8};

verus! {

/// What the caller of a command is to do with its outcome.
#[derive(Debug, PartialEq, Eq)]
pub enum Action {
    /// Write `bytes` to the file at `path`.
    Write { path: String, bytes: Vec<u8> },
    /// Print `text` as it stands.
    Print { text: String },
}

/// An action as plain values.
pub enum ActionView {
    Write { path: Seq<char>, bytes: Seq<u8> },
    Print { text: Seq<char> },
}

impl View for Action {
    type V = ActionView;

    open spec fn view(&self) -> ActionView {
        match *self {
            Action::Write { path, bytes } => ActionView::Write { path: path@, bytes: bytes@ },
            Action::Print { text } => ActionView::Print { text: text@ },
        }
    }
}

/// The path in `output`, if it holds one.
pub open spec fn path_in(output: Option<String>) -> Option<Seq<char>> {
    match output {
        Some(path) => Some(path@),
        None => None,
    }
}

/// How a container is handed out: written to the file at `path` as bytes,
/// or, where there is no path, printed in words on a line of its own.
pub open spec fn handed_out(path: Option<Seq<char>>, chunks: Seq<ChunkView>) -> ActionView {
    match path {
        Some(path) => ActionView::Write { path, bytes: encoded(chunks) },
        None => ActionView::Print { text: described(chunks) + "\n"@ },
    }
}

/// Where the image goes after a chunk was removed: to the output where one
/// is given, else back to the file it was read from, and nowhere where it was
/// read from the web.
pub open spec fn path_after_removal(input: InputImage, output: Option<String>) -> Option<
    Seq<char>,
> {
    match output {
        Some(path) => Some(path@),
        None => match input {
            InputImage::File(path) => Some(path@),
            InputImage::Url(_) => None,
        },
    }
}

/// The line that shows the data of a chunk: the data as text where it is
/// UTF-8, and as a list of numbers where it is not.
pub open spec fn message_line(data: Seq<u8>) -> Seq<char> {
    if valid_utf8(data) {
        decode_utf8(data) + "\n"@
    } else {
        "[Hex data]: "@ + byte_list(data) + "\n"@
    }
}

/// The lines that show the data of the chunks, in order.
pub open spec fn message_lines(chunks: Seq<ChunkView>) -> Seq<char> {
    chunks.map_values(|chunk: ChunkView| message_line(chunk.data)).flatten()
}

fn hand_out(path: Option<String>, png: &Png) -> (action: Action)
    ensures
        action@ == handed_out(path_in(path), png@),
{
    match path {
        Some(path) => Action::Write { path, bytes: png.as_bytes() },
        None => {
            let mut text = png.to_string();
            text.append("\n");
            Action::Print { text }
        },
    }
}

/// Hides `message` in the image: adds a chunk of the given type, with the
/// bytes of the message as its data, behind the chunks of the image. The new
/// image is written to `output`, or printed where there is none.
pub fn encode(
    image: &[u8],
    output: &Option<String>,
    chunk_type: &ChunkType,
    message: &str,
) -> (out: Result<Action, PngError>)
    requires
        message.spec_bytes().len() <= u32::MAX,
    ensures
        match decoded(image@) {
            Ok(chunks) => out matches Ok(action) && action@ == handed_out(
                path_in(*output),
                chunks.push(ChunkView::of(chunk_type@, message.spec_bytes())),
            ),
            Err(e) => out == Err::<Action, PngError>(e),
        },
{
    match Png::try_from(image) {
        Ok(mut png) => {
            let data = slice_to_vec(message.as_bytes());
            png.append_chunk(Chunk::new(*chunk_type, data));
            Ok(hand_out(output.clone(), &png))
        },
        Err(e) => Err(e),
    }
}

/// Shows what is hidden in the image: the data of every chunk of the given
/// type, one line for each, in the order of the chunks. Where the image has
/// no such chunk, that is `ChunkNotFound`.
pub fn decode(image: &[u8], chunk_type: &ChunkType) -> (out: Result<Action, PngError>)
    ensures
        match decoded(image@) {
            Ok(chunks) => if none_of_type(chunks, chunk_type@) {
                out == Err::<Action, PngError>(PngError::ChunkNotFound)
            } else {
                out matches Ok(action) && action@ == (ActionView::Print {
                    text: message_lines(chunks.filter(has_type(chunk_type@))),
                })
            },
            Err(e) => out == Err::<Action, PngError>(e),
        },
{
    match Png::try_from(image) {
        Ok(png) => {
            let found = png.chunks_by_type(chunk_type);
            let ghost all = views_of_refs(found@);
            if found.len() == 0 {
                return Err(PngError::ChunkNotFound);
            }
            let mut text = String::new();
            let mut i: usize = 0;
            assert(all.take(0).map_values(|chunk: ChunkView| message_line(chunk.data)) =~= Seq::<
                Seq<char>,
            >::empty());
            assert(text@ =~= message_lines(all.take(0)));
            while i < found.len()
                invariant
                    i <= found.len(),
                    all == views_of_refs(found@),
                    text@ == message_lines(all.take(i as int)),
                decreases found.len() - i,
            {
                let ghost before = text@;
                let data = found[i].data();
                match decode_text(data) {
                    Some(message) => {
                        text.append(message.as_str());
                    },
                    None => {
                        text.append("[Hex data]: ");
                        append_byte_list(&mut text, data);
                    },
                }
                text.append("\n");
                proof {
                    let line = message_line(all[i as int].data);
                    assert(text@ =~= before + line);
                    let done = all.take(i as int).map_values(
                        |chunk: ChunkView| message_line(chunk.data),
                    );
                    assert(all.take(i + 1).map_values(
                        |chunk: ChunkView| message_line(chunk.data),
                    ) =~= done.push(line));
                    done.lemma_flatten_push(line);
                }
                i += 1;
            }
            assert(all.take(i as int) =~= all);
            Ok(Action::Print { text })
        },
        Err(e) => Err(e),
    }
}

/// Takes the earliest chunk of the given type out of the image. The new
/// image is written to `output`, else to the file the image came from, and
/// printed where it came from the web. Where the image has no such chunk,
/// that is `ChunkNotFound`.
pub fn remove(
    image: &[u8],
    input: &InputImage,
    output: &Option<String>,
    chunk_type: &ChunkType,
) -> (out: Result<Action, PngError>)
    ensures
        match decoded(image@) {
            Ok(chunks) => if none_of_type(chunks, chunk_type@) {
                out == Err::<Action, PngError>(PngError::ChunkNotFound)
            } else {
                exists|i: int|
                    {
                        &&& is_first_of_type(chunks, chunk_type@, i)
                        &&& out matches Ok(action)
                        &&& action@ == handed_out(
                            path_after_removal(*input, *output),
                            chunks.remove(i),
                        )
                    }
            },
            Err(e) => out == Err::<Action, PngError>(e),
        },
{
    match Png::try_from(image) {
        Ok(mut png) => {
            let ghost chunks = png@;
            match png.remove_first_chunk(chunk_type) {
                Ok(_) => {
                    let path = match output {
                        Some(path) => Some(path.clone()),
                        None => match input {
                            InputImage::File(path) => Some(path.clone()),
                            InputImage::Url(_) => None,
                        },
                    };
                    let action = hand_out(path, &png);
                    proof {
                        let i = choose|i: int|
                            is_first_of_type(chunks, chunk_type@, i) && png@ == chunks.remove(i);
                        assert(chunks[i].chunk_type == chunk_type@);
                        assert(action@ == handed_out(
                            path_after_removal(*input, *output),
                            chunks.remove(i),
                        ));
                    }
                    Ok(action)
                },
                Err(e) => Err(e),
            }
        },
        Err(e) => Err(e),
    }
}

/// Shows the image in words: its signature and each of its chunks.
pub fn print(image: &[u8]) -> (out: Result<Action, PngError>)
    ensures
        match decoded(image@) {
            Ok(chunks) => out matches Ok(action) && action@ == handed_out(None, chunks),
            Err(e) => out == Err::<Action, PngError>(e),
        },
{
    match Png::try_from(image) {
        Ok(png) => Ok(hand_out(None, &png)),
        Err(e) => Err(e),
    }
}

} // verus!
