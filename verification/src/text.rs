//! Conversion between bytes, numbers and text.

use vstd::prelude::*;
use vstd::string::{StringExecFns, StringSliceAdditionalSpecFns};
use vstd::utf8::{decode_utf8, valid_utf8};

verus! {

/// Reads `bytes` as UTF-8 text through `std::str::from_utf8`.
///
/// Trusted, not proved: the standard function accepts a slice exactly when it
/// is well-formed UTF-8, and the text it then returns borrows those very bytes.
#[verifier::external_body]
fn utf8_text(bytes: &[u8]) -> (text: Option<&str>)
    ensures
        text is Some <==> valid_utf8(bytes@),
        text matches Some(s) ==> s.spec_bytes() == bytes@,
{
    match std::str::from_utf8(bytes) {
        Ok(s) => Some(s),
        Err(_) => None,
    }
}

/// Appends one character to `text` through `String::push`.
///
/// Trusted, not proved: the standard function puts the character behind what
/// the string holds and changes nothing else.
#[verifier::external_body]
fn push_char(text: &mut String, c: char)
    ensures
        final(text)@ == old(text)@.push(c),
{
    text.push(c)
}

/// The text that `bytes` spell as UTF-8, and no text at all where they spell none.
pub open spec fn lenient_text(bytes: Seq<u8>) -> Seq<char> {
    if valid_utf8(bytes) {
        decode_utf8(bytes)
    } else {
        Seq::empty()
    }
}

/// The text in which each byte stands for the character with its number.
pub open spec fn bytewise_text(bytes: Seq<u8>) -> Seq<char> {
    bytes.map_values(|byte: u8| byte as char)
}

/// The character of the decimal digit `d`.
pub open spec fn digit(d: nat) -> char
    recommends
        d < 10,
{
    (0x30 + d) as u8 as char
}

/// The decimal numeral of `n`, without leading zeros.
pub open spec fn decimal(n: nat) -> Seq<char>
    decreases n,
{
    if n < 10 {
        seq![digit(n)]
    } else {
        decimal(n / 10).push(digit(n % 10))
    }
}

/// The numerals of `bytes`, separated by a comma and a space.
pub open spec fn listed(bytes: Seq<u8>) -> Seq<char>
    decreases bytes.len(),
{
    if bytes.len() == 0 {
        Seq::empty()
    } else if bytes.len() == 1 {
        decimal(bytes[0] as nat)
    } else {
        listed(bytes.drop_last()) + ", "@ + decimal(bytes.last() as nat)
    }
}

/// `bytes` as a list on one line: `[1, 2, 3]`.
pub open spec fn byte_list(bytes: Seq<u8>) -> Seq<char> {
    "["@ + listed(bytes) + "]"@
}

/// The numerals of `bytes`, each on a line of its own, indented by four
/// spaces and followed by a comma.
pub open spec fn lined(bytes: Seq<u8>) -> Seq<char>
    decreases bytes.len(),
{
    if bytes.len() == 0 {
        Seq::empty()
    } else {
        lined(bytes.drop_last()) + "    "@ + decimal(bytes.last() as nat) + ",\n"@
    }
}

/// `bytes` as a list with one line for each byte, and `[]` where there is none.
pub open spec fn byte_column(bytes: Seq<u8>) -> Seq<char> {
    if bytes.len() == 0 {
        "[]"@
    } else {
        "[\n"@ + lined(bytes) + "]"@
    }
}

/// Decodes `bytes` as UTF-8 where they are well formed.
pub fn decode_text(bytes: &[u8]) -> (text: Option<String>)
    ensures
        text is Some <==> valid_utf8(bytes@),
        text matches Some(s) ==> s@ == decode_utf8(bytes@),
{
    match utf8_text(bytes) {
        Some(s) => {
            proof {
                vstd::utf8::encode_utf8_decode_utf8(s@);
            }
            Some(s.to_owned())
        },
        None => None,
    }
}

/// Appends to `out` each byte as the character with its number.
pub fn append_bytewise(out: &mut String, bytes: &[u8])
    ensures
        final(out)@ == old(out)@ + bytewise_text(bytes@),
{
    let mut i: usize = 0;
    assert(out@ =~= old(out)@ + bytewise_text(bytes@.take(0)));
    while i < bytes.len()
        invariant
            i <= bytes.len(),
            out@ == old(out)@ + bytewise_text(bytes@.take(i as int)),
        decreases bytes.len() - i,
    {
        push_char(out, bytes[i] as char);
        assert(bytes@.take(i + 1) =~= bytes@.take(i as int).push(bytes@[i as int]));
        assert(out@ =~= old(out)@ + bytewise_text(bytes@.take(i + 1)));
        i += 1;
    }
    assert(bytes@.take(i as int) =~= bytes@);
}

/// Appends the decimal numeral of `value` to `out`.
pub fn append_decimal(out: &mut String, value: u64)
    ensures
        final(out)@ == old(out)@ + decimal(value as nat),
    decreases value,
{
    if value < 10 {
        push_char(out, (0x30 + value as u8) as char);
        assert(out@ =~= old(out)@ + decimal(value as nat));
    } else {
        append_decimal(out, value / 10);
        push_char(out, (0x30 + (value % 10) as u8) as char);
        assert(out@ =~= old(out)@ + decimal(value as nat));
    }
}

/// Appends `bytes` to `out` as a list on one line.
pub fn append_byte_list(out: &mut String, bytes: &[u8])
    ensures
        final(out)@ == old(out)@ + byte_list(bytes@),
{
    out.append("[");
    let mut i: usize = 0;
    assert(out@ =~= old(out)@ + "["@ + listed(bytes@.take(0)));
    while i < bytes.len()
        invariant
            i <= bytes.len(),
            out@ == old(out)@ + "["@ + listed(bytes@.take(i as int)),
        decreases bytes.len() - i,
    {
        let ghost before = out@;
        if i > 0 {
            out.append(", ");
        }
        append_decimal(out, bytes[i] as u64);
        proof {
            let done = bytes@.take(i as int);
            let next = bytes@.take(i + 1);
            assert(next.drop_last() =~= done);
            assert(next.last() == bytes@[i as int]);
            assert(out@ =~= old(out)@ + "["@ + listed(next));
        }
        i += 1;
    }
    assert(bytes@.take(i as int) =~= bytes@);
    out.append("]");
    assert(out@ =~= old(out)@ + byte_list(bytes@));
}

/// Appends `bytes` to `out` as a list with one line for each byte.
pub fn append_byte_column(out: &mut String, bytes: &[u8])
    ensures
        final(out)@ == old(out)@ + byte_column(bytes@),
{
    if bytes.len() == 0 {
        out.append("[]");
        return ;
    }
    out.append("[\n");
    let mut i: usize = 0;
    assert(out@ =~= old(out)@ + "[\n"@ + lined(bytes@.take(0)));
    while i < bytes.len()
        invariant
            i <= bytes.len(),
            out@ == old(out)@ + "[\n"@ + lined(bytes@.take(i as int)),
        decreases bytes.len() - i,
    {
        out.append("    ");
        append_decimal(out, bytes[i] as u64);
        out.append(",\n");
        proof {
            let done = bytes@.take(i as int);
            let next = bytes@.take(i + 1);
            assert(next.drop_last() =~= done);
            assert(next.last() == bytes@[i as int]);
            assert(out@ =~= old(out)@ + "[\n"@ + lined(next));
        }
        i += 1;
    }
    assert(bytes@.take(i as int) =~= bytes@);
    out.append("]");
    assert(out@ =~= old(out)@ + byte_column(bytes@));
}

} // verus!
