//! Strings on the wire: the number of characters, then the characters in
//! UTF-8. The reader takes one to three bytes for each character and rejects
//! a character of four: the format admits none.

use crate::codec::{
    add_sizes, done, ended, ended_error, failed, malformed, Deserialize, DeserializeError, Failure,
    Outcome, RoundTrip, Serialize,
};
use crate::stream::{lemma_advance_twice, lemma_advance_window, lemma_advance_zero, DataStream};
use crate::varint::{lemma_var_int_round_trip, VarInt};
use vstd::prelude::*;
use vstd::string::StrSliceExecFns;
use vstd::utf8::{
    char_is_scalar, decode_utf8, encode_scalar, encode_utf8, encode_utf8_decode_utf8,
    encode_utf8_valid_utf8, leading_byte_width_1, leading_byte_width_2, leading_byte_width_3,
    leading_byte_width_4, valid_utf8,
};

verus! {

/// The error that `String::from_utf8` returns; nothing of its contents is
/// read here.
#[verifier::external_type_specification]
#[verifier::external_body]
pub struct ExFromUtf8Error(std::string::FromUtf8Error);

/// `String::from_utf8` gives the string that the bytes encode where they are
/// well-formed UTF-8, and an error where they are not.
pub assume_specification[ std::string::String::from_utf8 ](vec: std::vec::Vec<u8>) -> (result:
    std::result::Result<std::string::String, std::string::FromUtf8Error>)
    ensures
        result is Ok <==> valid_utf8(vec@),
        result matches Ok(text) ==> text@ == decode_utf8(vec@),
;

/// The number of bytes of the character that begins with `lead`; 0 where no
/// character begins with it.
pub open spec fn utf8_width(lead: u8) -> nat {
    if lead < 0x80 {
        1
    } else if lead < 0xC2 {
        0
    } else if lead < 0xE0 {
        2
    } else if lead < 0xF0 {
        3
    } else if lead < 0xF5 {
        4
    } else {
        0
    }
}

/// Given a first byte, determines how many bytes are in this UTF-8 character.
pub fn utf8_char_width(b: u8) -> (width: usize)
    ensures
        width == utf8_width(b),
{
    if b < 0x80 {
        1
    } else if b < 0xC2 {
        0
    } else if b < 0xE0 {
        2
    } else if b < 0xF0 {
        3
    } else if b < 0xF5 {
        4
    } else {
        0
    }
}

/// What taking a number of characters off the front of a window finds.
pub enum CharRun {
    /// The characters take this many bytes.
    Run(nat),
    /// After this many bytes, the last of them stands where a character
    /// begins and is not the first byte of a character of one to three bytes.
    BadLead(nat),
    /// The window ends before the last character does.
    Truncated,
}

/// Takes `count` characters, each as long as its first byte says.
pub open spec fn char_run(window: Seq<u8>, count: nat) -> CharRun
    decreases count,
{
    if count == 0 {
        CharRun::Run(0)
    } else if window.len() == 0 {
        CharRun::Truncated
    } else {
        let width = utf8_width(window[0]);
        if !(1 <= width <= 3) {
            CharRun::BadLead(1)
        } else if window.len() < width {
            CharRun::Truncated
        } else {
            behind_run(width, char_run(window.skip(width as int), (count - 1) as nat))
        }
    }
}

/// The run `rest` that began behind `used` bytes, seen from the front of
/// those bytes.
pub open spec fn behind_run(used: nat, rest: CharRun) -> CharRun {
    match rest {
        CharRun::Run(n) => CharRun::Run(used + n),
        CharRun::BadLead(n) => CharRun::BadLead(used + n),
        CharRun::Truncated => CharRun::Truncated,
    }
}

/// The message of a string whose count is below zero.
pub open spec fn negative_length_message() -> Seq<char> {
    "Negative String length"@
}

/// The message of bytes that are no text of characters of one to three bytes.
pub open spec fn invalid_utf8_message() -> Seq<char> {
    "Invalid UTF-8"@
}

/// What reading `count` characters gives: the text that their bytes encode.
pub open spec fn text_outcome(window: Seq<u8>, short: bool, count: nat) -> Outcome<Seq<char>> {
    match char_run(window, count) {
        CharRun::Truncated => failed(ended(short), window.len()),
        CharRun::BadLead(used) => failed(Failure::Malformed(invalid_utf8_message()), used),
        CharRun::Run(len) => if valid_utf8(window.take(len as int)) {
            done(decode_utf8(window.take(len as int)), len)
        } else {
            failed(Failure::Malformed(invalid_utf8_message()), len)
        },
    }
}

/// Whether every character of `text` takes at most three bytes in UTF-8.
pub open spec fn narrow(text: Seq<char>) -> bool {
    forall|i: int| 0 <= i < text.len() ==> (#[trigger] text[i]) as u32 <= 0xFFFF
}

/// A run reads no more than the window holds.
pub proof fn lemma_char_run_bound(window: Seq<u8>, count: nat)
    ensures
        match char_run(window, count) {
            CharRun::Run(n) => n <= window.len(),
            CharRun::BadLead(n) => n <= window.len(),
            CharRun::Truncated => true,
        },
    decreases count,
{
    if count > 0 && window.len() > 0 {
        let width = utf8_width(window[0]);
        if 1 <= width <= 3 && window.len() >= width {
            lemma_char_run_bound(window.skip(width as int), (count - 1) as nat);
        }
    }
}

impl Serialize for String {
    open spec fn wire(&self) -> Seq<u8> {
        VarInt(self@.len() as i32).wire() + encode_utf8(self@)
    }

    open spec fn encodable(&self) -> bool {
        self@.len() <= i32::MAX
    }

    fn size(&self) -> (size: usize) {
        let n = self.as_str().unicode_len();
        VarInt(n as i32).size() + self.as_str().len()
    }

    fn checked_size(&self) -> (size: Option<usize>) {
        let n = self.as_str().unicode_len();
        if n > 0x7FFF_FFFF {
            return None;
        }
        add_sizes(VarInt(n as i32).checked_size(), Some(self.as_str().as_bytes().len()))
    }

    fn serialize(&self, stream: &mut Vec<u8>) {
        let n = self.as_str().unicode_len();
        VarInt(n as i32).serialize(stream);
        stream.extend_from_slice(self.as_str().as_bytes());
        assert(stream@ =~= old(stream)@ + self.wire());
    }
}

impl Deserialize for String {
    open spec fn parse(window: Seq<u8>, short: bool) -> Outcome<Seq<char>> {
        let count = VarInt::parse(window, short);
        match count.result {
            Err(failure) => failed(failure, count.used),
            Ok(VarInt(n)) => if n < 0 {
                failed(Failure::Malformed(negative_length_message()), count.used)
            } else {
                let text = text_outcome(window.skip(count.used as int), short, n as nat);
                Outcome { result: text.result, used: count.used + text.used }
            },
        }
    }

    fn deserialize(stream: &mut DataStream) -> (result: Result<Self, DeserializeError>) {
        let ghost count = VarInt::parse(old(stream)@.window(), old(stream)@.short());
        let n = VarInt::deserialize(stream)?.0;
        if n < 0 {
            return Err(malformed("Negative String length"));
        }
        let ghost text = text_outcome(stream@.window(), stream@.short(), n as nat);
        proof {
            lemma_advance_window(old(stream)@, count.used);
            lemma_char_run_bound(stream@.window(), n as nat);
            lemma_advance_twice(old(stream)@, count.used, text.used);
        }
        let buf = read_characters(stream, n)?;
        match String::from_utf8(buf) {
            Ok(text) => Ok(text),
            Err(_) => Err(malformed("Invalid UTF-8")),
        }
    }
}

/// Reads the bytes of `count` characters, each as long as its first byte
/// says.
fn read_characters(stream: &mut DataStream, count: i32) -> (result: Result<
    Vec<u8>,
    DeserializeError,
>)
    requires
        count >= 0,
    ensures
        match char_run(old(stream)@.window(), count as nat) {
            CharRun::Run(len) => len <= old(stream)@.window().len() && final(stream)@ == old(
                stream,
            )@.advance(len) && (result matches Ok(bytes) && bytes@ == old(stream)@.window().take(
                len as int,
            )),
            CharRun::BadLead(used) => used <= old(stream)@.window().len() && final(stream)@
                == old(stream)@.advance(used) && (result matches Err(error) && error@
                == Failure::Malformed(invalid_utf8_message())),
            CharRun::Truncated => final(stream)@ == old(stream)@.advance(
                old(stream)@.window().len(),
            ) && (result matches Err(error) && error@ == ended(old(stream)@.short())),
        },
{
    broadcast use lemma_advance_zero;

    let ghost start = old(stream)@;
    let ghost body = start.window();
    assert(body.skip(0) =~= body);
    let mut buf: Vec<u8> = Vec::new();
    let ghost mut used: nat = 0;
    let mut i: i32 = 0;
    while i < count
        invariant
            0 <= i <= count,
            start == old(stream)@,
            body == start.window(),
            used <= body.len(),
            buf@ == body.take(used as int),
            stream@ == start.advance(used),
            char_run(body, count as nat) == behind_run(
                used,
                char_run(body.skip(used as int), (count - i) as nat),
            ),
        decreases count - i,
    {
        proof {
            lemma_advance_window(start, used);
        }
        let ghost here = body.skip(used as int);
        let lead = match stream.read_byte() {
            Ok(lead) => lead,
            Err(error) => {
                return Err(ended_error(stream, error));
            },
        };
        proof {
            lemma_advance_twice(start, used, 1);
            lemma_advance_window(start, used + 1);
        }
        let width = utf8_char_width(lead);
        if width < 1 || width > 3 {
            return Err(malformed("Invalid UTF-8"));
        }
        buf.push(lead);
        let mut more = match stream.read_exact(width - 1) {
            Ok(more) => more,
            Err(error) => {
                proof {
                    lemma_advance_twice(start, used + 1, (body.len() - used - 1) as nat);
                    lemma_advance_window(start, body.len());
                }
                return Err(ended_error(stream, error));
            },
        };
        buf.append(&mut more);
        proof {
            lemma_advance_twice(start, used + 1, (width - 1) as nat);
            assert(buf@ =~= body.take(used + width));
            assert(here.skip(width as int) =~= body.skip(used + width));
            used = used + width as nat;
        }
        i = i + 1;
    }
    Ok(buf)
}

/// The first byte of a character's encoding tells its length where the
/// character takes one to three bytes, and tells four, which the reader
/// rejects, where it takes four.
proof fn lemma_lead_byte(c: u32)
    by (bit_vector)
    ensures
        c <= 0x7F ==> leading_byte_width_1(c) < 0x80,
        0x80 <= c <= 0x7FF ==> 0xC2 <= leading_byte_width_2(c) < 0xE0,
        0x800 <= c <= 0xFFFF ==> 0xE0 <= leading_byte_width_3(c) < 0xF0,
        0x10000 <= c <= 0x10FFFF ==> 0xF0 <= leading_byte_width_4(c) < 0xF5,
{
}

/// Taking as many characters as a text has off the text's encoding, whatever
/// follows it, takes just the encoding where every character has at most
/// three bytes, and stops at a first byte where one has four.
pub proof fn lemma_char_run_of_encoding(text: Seq<char>, rest: Seq<u8>)
    ensures
        narrow(text) ==> char_run(encode_utf8(text) + rest, text.len()) == CharRun::Run(
            encode_utf8(text).len(),
        ),
        !narrow(text) ==> char_run(encode_utf8(text) + rest, text.len()) is BadLead,
    decreases text.len(),
{
    if text.len() > 0 {
        let c = text[0] as u32;
        let tail = text.drop_first();
        let bytes = encode_utf8(text) + rest;
        char_is_scalar(text[0]);
        lemma_lead_byte(c);
        lemma_char_run_of_encoding(tail, rest);
        let first = encode_scalar(c);
        assert(bytes[0] == first[0]);
        assert(bytes.skip(first.len() as int) =~= encode_utf8(tail) + rest);
        if narrow(text) {
            assert forall|i: int| 0 <= i < tail.len() implies (#[trigger] tail[i]) as u32
                <= 0xFFFF by {
                assert(tail[i] == text[i + 1]);
            }
        } else if c <= 0xFFFF {
            assert(!narrow(tail)) by {
                if narrow(tail) {
                    assert forall|i: int| 0 <= i < text.len() implies (#[trigger] text[i]) as u32
                        <= 0xFFFF by {
                        if i > 0 {
                            assert(text[i] == tail[i - 1]);
                        }
                    }
                }
            }
        }
    }
}

/// Reading the bytes of a text whose characters all take at most three bytes,
/// whatever follows them, gives the text back from just those bytes.
pub proof fn lemma_string_round_trip(text: String, rest: Seq<u8>, short: bool)
    requires
        text.encodable(),
        narrow(text@),
    ensures
        String::parse(text.wire() + rest, short) == done(text@, text.wire().len()),
{
    let head = VarInt(text@.len() as i32);
    let body = encode_utf8(text@);
    lemma_var_int_round_trip(head, body + rest, short);
    assert(text.wire() + rest =~= head.wire() + (body + rest));
    assert((text.wire() + rest).skip(head.wire().len() as int) =~= body + rest);
    lemma_char_run_of_encoding(text@, rest);
    assert((body + rest).take(body.len() as int) =~= body);
    encode_utf8_valid_utf8(text@);
    encode_utf8_decode_utf8(text@);
}

/// Reading the bytes of a text in which some character takes four bytes is
/// refused as malformed: the format has no such character.
pub proof fn lemma_string_wide_rejected(text: String, rest: Seq<u8>, short: bool)
    requires
        text.encodable(),
        !narrow(text@),
    ensures
        String::parse(text.wire() + rest, short).result == Err::<Seq<char>, Failure>(
            Failure::Malformed(invalid_utf8_message()),
        ),
{
    let head = VarInt(text@.len() as i32);
    let body = encode_utf8(text@);
    lemma_var_int_round_trip(head, body + rest, short);
    assert(text.wire() + rest =~= head.wire() + (body + rest));
    assert((text.wire() + rest).skip(head.wire().len() as int) =~= body + rest);
    lemma_char_run_of_encoding(text@, rest);
}

impl RoundTrip for String {
    open spec fn readable(&self) -> bool {
        narrow(self@)
    }

    proof fn lemma_round_trip(&self, rest: Seq<u8>, short: bool) {
        lemma_string_round_trip(*self, rest, short);
    }
}

} // verus!
