//! The text of a workflow file as the repository contents service returns it.
use base64::Engine as _;
use vstd::prelude::*;
use vstd::string::*;
use vstd::utf8::{decode_utf8, valid_utf8};

verus! {

/// Why a workflow file's content could not be read.
#[derive(Debug, Clone, Copy, PartialEq, Eq, Structural)]
pub enum ContentError {
    /// The content is not valid standard base64.
    NotBase64,
    /// The decoded bytes are not valid UTF-8.
    NotUtf8,
}

#[verifier::external_type_specification]
#[verifier::external_body]
pub struct ExDecodeError(base64::DecodeError);

/// The bytes that the standard base64 alphabet, with padding, decodes from
/// `text`; `None` when `text` is not valid base64.
pub uninterp spec fn base64_decoded(text: Seq<char>) -> Option<Seq<u8>>;

/// Relies on base64's `Engine::decode` of the `STANDARD` engine: it decodes
/// the text's bytes, or reports why they are not valid base64.
#[verifier::external_body]
fn decode_base64(text: &Vec<char>) -> (r: Result<Vec<u8>, base64::DecodeError>)
    ensures
        match r {
            Ok(b) => base64_decoded(text@) == Some(b@),
            Err(_) => base64_decoded(text@) is None,
        },
{
    let s: String = text.iter().collect();
    base64::engine::general_purpose::STANDARD.decode(s)
}

/// Relies on std's `String::from_utf8`: it succeeds exactly on valid UTF-8
/// and then holds the characters that the bytes encode.
#[verifier::external_body]
fn string_from_utf8(bytes: Vec<u8>) -> (r: Option<String>)
    ensures
        match r {
            Some(s) => valid_utf8(bytes@) && s@ == decode_utf8(bytes@),
            None => !valid_utf8(bytes@),
        },
{
    String::from_utf8(bytes).ok()
}

/// `c` has the Unicode `White_Space` property.
pub open spec fn is_white_space(c: char) -> bool {
    let u = c as u32;
    (0x9 <= u <= 0xD) || u == 0x20 || u == 0x85 || u == 0xA0 || u == 0x1680 || (0x2000 <= u
        <= 0x200A) || u == 0x2028 || u == 0x2029 || u == 0x202F || u == 0x205F || u == 0x3000
}

/// `s` with every white-space character removed.
pub open spec fn without_white_space(s: Seq<char>) -> Seq<char>
    decreases s.len(),
{
    if s.len() == 0 {
        Seq::empty()
    } else if is_white_space(s.last()) {
        without_white_space(s.drop_last())
    } else {
        without_white_space(s.drop_last()).push(s.last())
    }
}

/// Whether `c` has the Unicode `White_Space` property.
pub fn white_space(c: char) -> (r: bool)
    ensures
        r == is_white_space(c),
{
    let u = c as u32;
    (0x9 <= u && u <= 0xD) || u == 0x20 || u == 0x85 || u == 0xA0 || u == 0x1680 || (0x2000 <= u
        && u <= 0x200A) || u == 0x2028 || u == 0x2029 || u == 0x202F || u == 0x205F || u == 0x3000
}

/// The characters of `s` that are not white space, in order.
pub fn strip_white_space(s: &str) -> (r: Vec<char>)
    ensures
        r@ == without_white_space(s@),
{
    let n = s.unicode_len();
    let mut out: Vec<char> = Vec::new();
    let mut i: usize = 0;
    while i < n
        invariant
            n == s@.len(),
            i <= n,
            out@ == without_white_space(s@.subrange(0, i as int)),
        decreases n - i,
    {
        let c = s.get_char(i);
        assert(s@.subrange(0, i + 1).drop_last() == s@.subrange(0, i as int));
        if !white_space(c) {
            out.push(c);
        }
        i = i + 1;
    }
    assert(s@.subrange(0, n as int) == s@);
    out
}

/// Reads decoded bytes as text.
pub fn text_of_bytes(bytes: Vec<u8>) -> (r: Result<String, ContentError>)
    ensures
        match r {
            Ok(s) => valid_utf8(bytes@) && s@ == decode_utf8(bytes@),
            Err(e) => e == ContentError::NotUtf8 && !valid_utf8(bytes@),
        },
{
    match string_from_utf8(bytes) {
        Some(s) => Ok(s),
        None => Err(ContentError::NotUtf8),
    }
}

/// Decodes a workflow file's content: base64 that may be broken across
/// lines, holding UTF-8 text. White space is dropped before decoding.
pub fn decode_content(encoded: &str) -> (r: Result<String, ContentError>)
    ensures
        match base64_decoded(without_white_space(encoded@)) {
            None => r == Err::<String, ContentError>(ContentError::NotBase64),
            Some(b) => match r {
                Ok(s) => valid_utf8(b) && s@ == decode_utf8(b),
                Err(e) => e == ContentError::NotUtf8 && !valid_utf8(b),
            },
        },
{
    let cleaned = strip_white_space(encoded);
    match decode_base64(&cleaned) {
        Ok(bytes) => text_of_bytes(bytes),
        Err(_) => Err(ContentError::NotBase64),
    }
}

} // verus!
