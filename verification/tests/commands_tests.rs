use pngyou::commands::{decode, encode, print, remove, Action};
use pngyou::{Chunk, ChunkType, InputImage, Png, PngError};
use std::str::FromStr;

const MESSAGE: &str = "This is where your secret message will be!";

fn chunk_of(code: &str, data: &[u8]) -> Chunk {
    Chunk::new(ChunkType::from_str(code).unwrap(), data.to_vec())
}

fn header_chunk() -> Chunk {
    chunk_of("IHDR", &[0, 0, 0, 1, 0, 0, 0, 1, 8, 2, 0, 0, 0])
}

fn image_of(chunks: Vec<Chunk>) -> Vec<u8> {
    Png::from_chunks(chunks).as_bytes()
}

fn plain_image() -> Vec<u8> {
    image_of(vec![header_chunk(), chunk_of("IEND", &[])])
}

fn code(text: &str) -> ChunkType {
    ChunkType::from_str(text).unwrap()
}

fn file(path: &str) -> InputImage {
    InputImage::File(String::from(path))
}

#[test]
fn input_image_is_a_url_or_a_file() {
    for text in ["https://example.org/a.png", "http://example.org/a.png", "https://", "http://"] {
        assert_eq!(InputImage::from_str(text), Ok(InputImage::Url(String::from(text))));
    }
    for text in [
        "a.png",
        "/tmp/a.png",
        "",
        "http:/x",
        "https:/x",
        "HTTP://example.org",
        " http://example.org",
        "ftp://example.org",
        "http",
        "httpx://a",
        "./https://a",
    ] {
        assert_eq!(InputImage::from_str(text), Ok(InputImage::File(String::from(text))));
    }
}

#[test]
fn input_image_equality_and_clone() {
    let a = InputImage::File(String::from("x"));
    let b = InputImage::Url(String::from("x"));
    assert_ne!(a, b);
    assert_eq!(a.clone(), a);
    assert_eq!(b.clone(), b);
    assert_ne!(a, InputImage::File(String::from("y")));
    assert_ne!(b, InputImage::Url(String::from("y")));
}

#[test]
fn encode_appends_the_message_and_writes_the_image() {
    let out = encode(&plain_image(), &Some(String::from("out.png")), &code("RuSt"), MESSAGE);
    let expected = image_of(vec![
        header_chunk(),
        chunk_of("IEND", &[]),
        chunk_of("RuSt", MESSAGE.as_bytes()),
    ]);
    assert_eq!(out, Ok(Action::Write { path: String::from("out.png"), bytes: expected }));
}

#[test]
fn encode_without_output_prints_the_image() {
    let out = encode(&plain_image(), &None, &code("RuSt"), "hé");
    let png = Png::from_chunks(vec![
        header_chunk(),
        chunk_of("IEND", &[]),
        chunk_of("RuSt", &[b'h', 0xc3, 0xa9]),
    ]);
    assert_eq!(out, Ok(Action::Print { text: format!("{}\n", png.to_string()) }));
}

#[test]
fn encode_refuses_what_is_no_image() {
    assert_eq!(encode(b"not a png", &None, &code("RuSt"), "x"), Err(PngError::BadSignature));
    let mut cut = plain_image();
    cut.pop();
    assert_eq!(
        encode(&cut, &None, &code("RuSt"), "x"),
        Err(PngError::TruncatedChunk)
    );
}

#[test]
fn decode_shows_each_message_on_a_line() {
    let image = image_of(vec![
        header_chunk(),
        chunk_of("RuSt", MESSAGE.as_bytes()),
        chunk_of("teXt", b"other"),
        chunk_of("RuSt", &[0xff, 0, 7]),
        chunk_of("RuSt", b""),
        chunk_of("RuSt", "a€".as_bytes()),
    ]);
    let expected = format!("{}\n[Hex data]: {:?}\n\na€\n", MESSAGE, [0xffu8, 0, 7]);
    assert_eq!(decode(&image, &code("RuSt")), Ok(Action::Print { text: expected }));
    assert_eq!(
        decode(&image, &code("teXt")),
        Ok(Action::Print { text: String::from("other\n") })
    );
}

#[test]
fn decode_without_a_match_is_chunk_not_found() {
    assert_eq!(decode(&plain_image(), &code("RuSt")), Err(PngError::ChunkNotFound));
    assert_eq!(
        decode(&[137, 80, 78, 71, 13, 10, 26, 10], &code("RuSt")),
        Err(PngError::ChunkNotFound)
    );
    assert_eq!(decode(b"", &code("RuSt")), Err(PngError::BadSignature));
}

#[test]
fn remove_takes_the_first_match_and_writes_to_the_output() {
    let image = image_of(vec![
        header_chunk(),
        chunk_of("RuSt", b"one"),
        chunk_of("RuSt", b"two"),
    ]);
    let expected = image_of(vec![header_chunk(), chunk_of("RuSt", b"two")]);
    assert_eq!(
        remove(&image, &file("in.png"), &Some(String::from("out.png")), &code("RuSt")),
        Ok(Action::Write { path: String::from("out.png"), bytes: expected.clone() })
    );
    let url = InputImage::Url(String::from("https://example.org/in.png"));
    assert_eq!(
        remove(&image, &url, &Some(String::from("out.png")), &code("RuSt")),
        Ok(Action::Write { path: String::from("out.png"), bytes: expected })
    );
}

#[test]
fn remove_without_output_writes_back_to_the_file() {
    let image = image_of(vec![header_chunk(), chunk_of("RuSt", b"one")]);
    assert_eq!(
        remove(&image, &file("in.png"), &None, &code("RuSt")),
        Ok(Action::Write { path: String::from("in.png"), bytes: image_of(vec![header_chunk()]) })
    );
}

#[test]
fn remove_from_the_web_without_output_prints_the_image() {
    let image = image_of(vec![header_chunk(), chunk_of("RuSt", b"one")]);
    let url = InputImage::Url(String::from("http://example.org/in.png"));
    let left = Png::from_chunks(vec![header_chunk()]);
    assert_eq!(
        remove(&image, &url, &None, &code("RuSt")),
        Ok(Action::Print { text: format!("{}\n", left.to_string()) })
    );
}

#[test]
fn remove_without_a_match_is_chunk_not_found() {
    assert_eq!(
        remove(&plain_image(), &file("in.png"), &None, &code("RuSt")),
        Err(PngError::ChunkNotFound)
    );
    assert_eq!(
        remove(b"junk", &file("in.png"), &None, &code("RuSt")),
        Err(PngError::BadSignature)
    );
}

#[test]
fn print_shows_the_image_in_words() {
    let png = Png::from_chunks(vec![header_chunk(), chunk_of("IEND", &[])]);
    assert_eq!(
        print(&plain_image()),
        Ok(Action::Print { text: format!("{}\n", png.to_string()) })
    );
    assert_eq!(print(b"junk"), Err(PngError::BadSignature));
}
