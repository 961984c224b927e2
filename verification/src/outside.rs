//! What the library takes from outside crates and from the standard library. Each function here
//! makes one outside call; its contract is what the rest of the library relies on.

use crate::text::{ascii_lowered, opt_text, texts};
use vstd::prelude::*;
use vstd::utf8::is_ascii_chars;

verus! {

/// `String::push` appends the character at the end of the string.
pub assume_specification[ String::push ](s: &mut String, c: char)
    ensures
        final(s)@ == old(s)@.push(c),
;

/// Links to tasks, in the old and in the new form of Asana URLs.
pub const LINK_PATTERN: &'static str =
    "app\\.asana\\.com/(?:0/\\d+/(\\d+)|1/\\d+/(?:project/\\d+/)?task/(\\d+))";

/// A directive that names the model.
pub const MODEL_PATTERN: &'static str = "(?:модель|model):\\s*(opus|sonnet|haiku|fable)";

/// A directive that names the effort.
pub const EFFORT_PATTERN: &'static str = "(?:эффорт|effort):\\s*(low|medium|high)";

/// Model and effort in free form, as in `Sonnet, medium effort`.
pub const FREE_PATTERN: &'static str =
    "\\b(opus|sonnet|haiku|fable)\\b[\\s,]+(low|medium|high)\\s+effort";

/// What a session prints when it has run into a usage limit.
pub const LIMIT_PATTERN: &'static str =
    "usage limit|limit reached|rate.?limit|session limit|hit your|out of usage credits|usage credits|out of credits|credit balance";

/// The patterns of this library. Each one is a regular expression that compiles.
pub open spec fn known_pattern(p: Seq<char>) -> bool {
    ||| p == LINK_PATTERN@
    ||| p == MODEL_PATTERN@
    ||| p == EFFORT_PATTERN@
    ||| p == FREE_PATTERN@
    ||| p == LIMIT_PATTERN@
}

/// The texts of the groups of one match.
pub open spec fn group_texts(groups: Seq<Option<String>>) -> Seq<Option<Seq<char>>> {
    groups.map_values(|g: Option<String>| opt_text(g))
}

/// The texts of the groups of each match.
pub open spec fn match_texts(matches: Seq<Vec<Option<String>>>) -> Seq<Seq<Option<Seq<char>>>> {
    matches.map_values(|m: Vec<Option<String>>| group_texts(m@))
}

/// The groups of the successive matches of a regular expression in a text.
pub uninterp spec fn regex_matches(pattern: Seq<char>, case_insensitive: bool, text: Seq<char>) -> Seq<Seq<Option<Seq<char>>>>;

/// `regex::Regex::captures_iter`: the groups of each match of the pattern in the text, from left
/// to right, group 0 (the whole match) first, `None` for a group that took no part. What the
/// pattern matches is a function of the pattern, the case flag and the text, and is left to
/// `regex_matches`. The build of a pattern fails only on a malformed or huge one; the patterns
/// of this library are neither.
#[verifier::external_body]
pub(crate) fn captures(pattern: &str, case_insensitive: bool, text: &str) -> (r: Vec<
    Vec<Option<String>>,
>)
    requires
        known_pattern(pattern@),
    ensures
        match_texts(r@) == regex_matches(pattern@, case_insensitive, text@),
{
    let re = regex::RegexBuilder::new(pattern)
        .case_insensitive(case_insensitive)
        .build()
        .unwrap();
    re.captures_iter(text)
        .map(|c| c.iter().map(|g| g.map(|m| m.as_str().to_string())).collect())
        .collect()
}

/// A text with its letters in lower case.
pub uninterp spec fn lowercase(s: Seq<char>) -> Seq<char>;

/// `str::to_lowercase`: the lower case of the text by the Unicode tables of the standard library,
/// left to `lowercase`. Of a text of ASCII characters only the capital letters change, each into
/// its small letter.
#[verifier::external_body]
pub(crate) fn to_lowercase(s: &str) -> (r: String)
    ensures
        r@ == lowercase(s@),
        is_ascii_chars(s@) ==> r@ == ascii_lowered(s@),
{
    s.to_lowercase()
}

/// A list of texts in the notation of `Debug`.
pub uninterp spec fn debug_list(list: Seq<Seq<char>>) -> Seq<char>;

/// `{:?}` of a vector of strings: a function of the strings, left to `debug_list`.
#[verifier::external_body]
pub(crate) fn debug_strings(list: &Vec<String>) -> (r: String)
    ensures
        r@ == debug_list(texts(list@)),
{
    format!("{:?}", list)
}

/// The hexadecimal digit of a value below sixteen.
pub open spec fn hex_digit(n: int) -> char {
    if n < 10 {
        (0x30 + n) as char
    } else {
        (0x57 + n) as char
    }
}

/// A character as it stands inside a JSON string.
pub open spec fn json_escaped(c: char) -> Seq<char> {
    let n = c as int;
    if c == '"' {
        seq!['\\', '"']
    } else if c == '\\' {
        seq!['\\', '\\']
    } else if n == 0x8 {
        seq!['\\', 'b']
    } else if n == 0x9 {
        seq!['\\', 't']
    } else if n == 0xa {
        seq!['\\', 'n']
    } else if n == 0xc {
        seq!['\\', 'f']
    } else if n == 0xd {
        seq!['\\', 'r']
    } else if n < 0x20 {
        seq!['\\', 'u', '0', '0', hex_digit(n / 16), hex_digit(n % 16)]
    } else {
        seq![c]
    }
}

/// The characters of a text as they stand inside a JSON string.
pub open spec fn json_contents(s: Seq<char>) -> Seq<char>
    decreases s.len(),
{
    if s.len() == 0 {
        Seq::empty()
    } else {
        json_contents(s.drop_last()) + json_escaped(s.last())
    }
}

/// A text as a JSON string.
pub open spec fn json_text(s: Seq<char>) -> Seq<char> {
    seq!['"'] + json_contents(s) + seq!['"']
}

/// `serde_json::to_string` of a string: the text between quotes, with the quote, the backslash
/// and the control characters below U+0020 escaped and every other character as it is. It does
/// not fail on a string.
#[verifier::external_body]
pub(crate) fn json_string(s: &str) -> (r: String)
    ensures
        r@ == json_text(s@),
{
    serde_json::to_string(s).unwrap()
}

/// Why bytes are not JSON, where they are not.
pub uninterp spec fn json_fault(bytes: Seq<u8>) -> Option<Seq<char>>;

/// `serde_json::from_slice` into a `Value`: `None` where the bytes are JSON, and the text of the
/// error where they are not. Both are a function of the bytes, left to `json_fault`.
#[verifier::external_body]
pub(crate) fn json_error(bytes: &[u8]) -> (r: Option<String>)
    ensures
        opt_text(r) == json_fault(bytes@),
{
    serde_json::from_slice::<serde_json::Value>(bytes).err().map(|e| e.to_string())
}

/// Why bytes that come from a reader are not JSON, where they are not.
pub uninterp spec fn json_read_fault(bytes: Seq<u8>) -> Option<Seq<char>>;

/// `serde_json::from_reader` into a `Value`, from a reader that gives the bytes and then ends:
/// `None` where the bytes are JSON, and the text of the error where they are not. Both are a
/// function of the bytes, left to `json_read_fault`. A reader counts the byte that it has looked
/// ahead at, so the text may name another column than that of `json_fault`.
#[verifier::external_body]
pub(crate) fn json_read_error(bytes: &[u8]) -> (r: Option<String>)
    ensures
        opt_text(r) == json_read_fault(bytes@),
{
    serde_json::from_reader::<&[u8], serde_json::Value>(bytes).err().map(|e| e.to_string())
}

/// The string at a JSON pointer.
pub uninterp spec fn json_str(bytes: Seq<u8>, pointer: Seq<char>) -> Option<Seq<char>>;

/// `serde_json::Value::as_str` at the pointer: `None` where the bytes are not JSON or hold no
/// string there. A function of the bytes and the pointer, left to `json_str`.
#[verifier::external_body]
pub(crate) fn json_str_at(bytes: &[u8], pointer: &str) -> (r: Option<String>)
    ensures
        opt_text(r) == json_str(bytes@, pointer@),
{
    let value = serde_json::from_slice::<serde_json::Value>(bytes).ok()?;
    value.pointer(pointer)?.as_str().map(String::from)
}

/// The boolean at a JSON pointer.
pub uninterp spec fn json_bool(bytes: Seq<u8>, pointer: Seq<char>) -> Option<bool>;

/// `serde_json::Value::as_bool` at the pointer: `None` where the bytes are not JSON or hold no
/// boolean there. A function of the bytes and the pointer, left to `json_bool`.
#[verifier::external_body]
pub(crate) fn json_bool_at(bytes: &[u8], pointer: &str) -> (r: Option<bool>)
    ensures
        r == json_bool(bytes@, pointer@),
{
    let value = serde_json::from_slice::<serde_json::Value>(bytes).ok()?;
    value.pointer(pointer)?.as_bool()
}

/// The whole number at a JSON pointer.
pub uninterp spec fn json_int(bytes: Seq<u8>, pointer: Seq<char>) -> Option<i64>;

/// `serde_json::Value::as_i64` at the pointer: `None` where the bytes are not JSON or hold no
/// number of that range there. A function of the bytes and the pointer, left to `json_int`.
#[verifier::external_body]
pub(crate) fn json_i64_at(bytes: &[u8], pointer: &str) -> (r: Option<i64>)
    ensures
        r == json_int(bytes@, pointer@),
{
    let value = serde_json::from_slice::<serde_json::Value>(bytes).ok()?;
    value.pointer(pointer)?.as_i64()
}

/// The number of items of the array at a JSON pointer.
pub uninterp spec fn json_count(bytes: Seq<u8>, pointer: Seq<char>) -> Option<usize>;

/// `serde_json::Value::as_array` at the pointer, as its length: `None` where the bytes are not
/// JSON or hold no array there. A function of the bytes and the pointer, left to `json_count`.
#[verifier::external_body]
pub(crate) fn json_len_at(bytes: &[u8], pointer: &str) -> (r: Option<usize>)
    ensures
        r == json_count(bytes@, pointer@),
{
    let value = serde_json::from_slice::<serde_json::Value>(bytes).ok()?;
    value.pointer(pointer)?.as_array().map(|a| a.len())
}

/// Whether null stands at a JSON pointer.
pub uninterp spec fn json_null(bytes: Seq<u8>, pointer: Seq<char>) -> Option<bool>;

/// `serde_json::Value::is_null` at the pointer: `None` where the bytes are not JSON or nothing
/// stands there. A function of the bytes and the pointer, left to `json_null`.
#[verifier::external_body]
pub(crate) fn json_null_at(bytes: &[u8], pointer: &str) -> (r: Option<bool>)
    ensures
        r == json_null(bytes@, pointer@),
{
    let value = serde_json::from_slice::<serde_json::Value>(bytes).ok()?;
    value.pointer(pointer).map(|v| v.is_null())
}

} // verus!
