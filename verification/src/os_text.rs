//! Byte strings of the operating system: arguments, environment values and paths.
//! They need not be UTF-8.
use crate::text::{bytes_eq, is_single_line};
use vstd::prelude::*;
use vstd::slice::slice_to_vec;
use vstd::string::*;
use vstd::utf8::*;

verus! {

/// The byte of a line feed.
pub const LINE_FEED: u8 = 10;

/// The byte of a carriage return.
pub const CARRIAGE_RETURN: u8 = 13;

/// The text that a byte string which is not UTF-8 is shown as: what
/// `String::from_utf8_lossy` makes of it.
pub uninterp spec fn lossy_decoding(bytes: Seq<u8>) -> Seq<char>;

/// The text of a byte string, where it is UTF-8.
pub open spec fn text_of(bytes: Seq<u8>) -> Option<Seq<char>> {
    if valid_utf8(bytes) {
        Some(decode_utf8(bytes))
    } else {
        None
    }
}

/// The text that a byte string is shown as: its own text where it is UTF-8, and
/// otherwise the text in which a replacement character stands for each invalid
/// sequence.
pub open spec fn display_text(bytes: Seq<u8>) -> Seq<char> {
    match text_of(bytes) {
        Some(text) => text,
        None => lossy_decoding(bytes),
    }
}

/// Calls `std::str::from_utf8`, which accepts exactly the valid UTF-8 and gives
/// the text that it encodes.
#[verifier::external_body]
pub(crate) fn decode(bytes: &[u8]) -> (text: Option<String>)
    ensures
        match text {
            Some(s) => valid_utf8(bytes@) && s@ == decode_utf8(bytes@),
            None => !valid_utf8(bytes@),
        },
{
    match std::str::from_utf8(bytes) {
        Ok(text) => Some(text.to_string()),
        Err(_) => None,
    }
}

/// A byte string without line breaks: no line feed and no carriage return.
pub open spec fn is_single_line_of_bytes(bytes: Seq<u8>) -> bool {
    !bytes.contains(LINE_FEED) && !bytes.contains(CARRIAGE_RETURN)
}

/// Calls `String::from_utf8_lossy`, which gives the text of valid UTF-8 and puts
/// replacement characters for invalid sequences. A line break is a valid sequence by
/// itself and no replacement, so the text has one exactly if the bytes have one. Where
/// the replacement characters stand is left unsaid.
#[verifier::external_body]
pub(crate) fn decode_lossy(bytes: &[u8]) -> (text: String)
    ensures
        valid_utf8(bytes@) ==> text@ == decode_utf8(bytes@),
        !valid_utf8(bytes@) ==> text@ == lossy_decoding(bytes@),
        is_single_line(text@) == is_single_line_of_bytes(bytes@),
{
    String::from_utf8_lossy(bytes).into_owned()
}

/// A byte string as the operating system hands it over.
#[derive(Debug, PartialEq, Eq)]
pub struct OsText {
    pub bytes: Vec<u8>,
}

impl View for OsText {
    type V = Seq<u8>;

    open spec fn view(&self) -> Seq<u8> {
        self.bytes@
    }
}

/// The view of an optional byte string.
pub open spec fn opt_bytes(value: Option<OsText>) -> Option<Seq<u8>> {
    match value {
        Some(b) => Some(b@),
        None => None,
    }
}

/// The view of an optional reference to a byte string.
pub open spec fn opt_ref_bytes(value: Option<&OsText>) -> Option<Seq<u8>> {
    match value {
        Some(b) => Some(b@),
        None => None,
    }
}

/// The views of a list of byte strings.
pub open spec fn byte_strings(list: Seq<OsText>) -> Seq<Seq<u8>> {
    list.map_values(|b: OsText| b@)
}

impl Clone for OsText {
    fn clone(&self) -> (copy: Self)
        ensures
            copy@ == self@,
    {
        OsText { bytes: slice_to_vec(self.bytes.as_slice()) }
    }
}

impl OsText {
    /// The byte string that encodes a text.
    pub fn from_text(text: &str) -> (out: OsText)
        ensures
            out@ == encode_utf8(text@),
    {
        OsText { bytes: text.as_bytes_vec() }
    }

    /// Whether the byte string is the encoding of `text`.
    pub fn is_text(&self, text: &str) -> (yes: bool)
        ensures
            yes == (self@ == encode_utf8(text@)),
            yes == (text_of(self@) == Some(text@)),
    {
        proof {
            lemma_is_text(self@, text@);
        }
        bytes_eq(self.bytes.as_slice(), text.as_bytes())
    }

    /// The text, where the byte string is UTF-8.
    pub fn to_text(&self) -> (out: Option<String>)
        ensures
            match out {
                Some(s) => text_of(self@) == Some(s@),
                None => text_of(self@) is None,
            },
    {
        decode(self.bytes.as_slice())
    }

    /// The text that the byte string is shown as.
    pub fn display(&self) -> (out: String)
        ensures
            out@ == display_text(self@),
            is_single_line(out@) == is_single_line_of_bytes(self@),
    {
        decode_lossy(self.bytes.as_slice())
    }

    /// Whether the byte string is empty.
    pub fn is_empty(&self) -> (yes: bool)
        ensures
            yes == (self@.len() == 0),
    {
        self.bytes.len() == 0
    }
}

/// A byte string has a given text exactly if it is the encoding of that text.
pub proof fn lemma_is_text(bytes: Seq<u8>, text: Seq<char>)
    ensures
        (text_of(bytes) == Some(text)) <==> bytes == encode_utf8(text),
{
    encode_utf8_valid_utf8(text);
    encode_utf8_decode_utf8(text);
    if valid_utf8(bytes) {
        decode_utf8_encode_utf8(bytes);
    }
}

/// A byte string that encodes a text is shown as that text.
pub proof fn law_text_is_shown_as_itself(text: Seq<char>)
    ensures
        display_text(encode_utf8(text)) == text,
        text_of(encode_utf8(text)) == Some(text),
{
    lemma_is_text(encode_utf8(text), text);
}

} // verus!
