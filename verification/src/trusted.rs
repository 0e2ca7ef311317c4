//! Calls into the standard library and into outside crates, each with the
//! contract that this library takes on trust from their documentation and
//! source. Where a result takes more than a few lines to describe, it is
//! given a name (an uninterpreted spec function of the arguments) and the
//! rest of the library speaks of that name.
use base64::Engine;
use vstd::prelude::*;
use vstd::utf8::{decode_utf8, valid_utf8};

verus! {

/// Appends one character to a string.
/// Calls `String::push`, which the standard library documents as appending the
/// given `char` to the end of the `String`.
#[verifier::external_body]
pub(crate) fn push_char(s: &mut String, c: char)
    ensures
        final(s)@ == old(s)@.push(c),
{
    s.push(c);
}

// ---------------------------------------------------------------------------
// Paths (`std::path::Path`)
// ---------------------------------------------------------------------------

/// What `Path::file_name` gives for a path: its final component.
pub uninterp spec fn path_file_name(path: Seq<char>) -> Option<Seq<char>>;

/// The position of the last `.` in a file name.
pub open spec fn last_dot(name: Seq<char>) -> Option<int>
    decreases name.len(),
{
    if name.len() == 0 {
        None
    } else if name.last() == '.' {
        Some(name.len() - 1)
    } else {
        last_dot(name.drop_last())
    }
}

/// The stem of a file name, as `Path::file_stem` documents it: the whole
/// name when it holds no `.` or only a leading one, else the part before
/// the last `.`.
pub open spec fn name_stem(name: Seq<char>) -> Seq<char> {
    match last_dot(name) {
        Some(k) => if k > 0 {
            name.take(k)
        } else {
            name
        },
        None => name,
    }
}

/// The extension of a file name, as `Path::extension` documents it: none
/// when the name holds no `.` or only a leading one, else the part after
/// the last `.`.
pub open spec fn name_extension(name: Seq<char>) -> Option<Seq<char>> {
    match last_dot(name) {
        Some(k) => if k > 0 {
            Some(name.skip(k + 1))
        } else {
            None
        },
        None => None,
    }
}

/// The file stem of a path (`Path::file_stem`): none without a file name.
pub open spec fn path_file_stem(path: Seq<char>) -> Option<Seq<char>> {
    match path_file_name(path) {
        Some(name) => Some(name_stem(name)),
        None => None,
    }
}

/// The extension of a path (`Path::extension`): none without a file name.
pub open spec fn path_extension(path: Seq<char>) -> Option<Seq<char>> {
    match path_file_name(path) {
        Some(name) => name_extension(name),
        None => None,
    }
}

/// What `Path::join` gives when `child` is joined onto `base`.
pub uninterp spec fn path_join(base: Seq<char>, child: Seq<char>) -> Seq<char>;

/// Calls `Path::file_stem` on `path`. The contract states what the
/// standard library documents: the stem is taken from the file name (named
/// `path_file_name`) by the rule of `name_stem`. A path given as UTF-8 text
/// has a UTF-8 stem, so the lossy conversion changes nothing.
#[verifier::external_body]
pub(crate) fn file_stem_of(path: &str) -> (r: Option<String>)
    ensures
        match r {
            Some(s) => path_file_stem(path@) == Some(s@),
            None => path_file_stem(path@) is None,
        },
{
    match std::path::Path::new(path).file_stem() {
        Some(stem) => Some(stem.to_string_lossy().into_owned()),
        None => None,
    }
}

/// Calls `Path::file_name` on `path`; the result, which depends on how the
/// path's components are read, is named `path_file_name`.
#[verifier::external_body]
pub(crate) fn file_name_of(path: &str) -> (r: Option<String>)
    ensures
        match r {
            Some(s) => path_file_name(path@) == Some(s@),
            None => path_file_name(path@) is None,
        },
{
    match std::path::Path::new(path).file_name() {
        Some(name) => Some(name.to_string_lossy().into_owned()),
        None => None,
    }
}

/// Calls `Path::extension` on `path`. The contract states what the
/// standard library documents: the extension is taken from the file name
/// (named `path_file_name`) by the rule of `name_extension`.
#[verifier::external_body]
pub(crate) fn extension_of(path: &str) -> (r: Option<String>)
    ensures
        match r {
            Some(s) => path_extension(path@) == Some(s@),
            None => path_extension(path@) is None,
        },
{
    match std::path::Path::new(path).extension() {
        Some(ext) => Some(ext.to_string_lossy().into_owned()),
        None => None,
    }
}

/// Calls `Path::join`; the result is named `path_join`.
#[verifier::external_body]
pub(crate) fn join_path(base: &str, child: &str) -> (r: String)
    ensures
        r@ == path_join(base@, child@),
{
    std::path::Path::new(base).join(child).to_string_lossy().into_owned()
}

// ---------------------------------------------------------------------------
// Unicode case (`str::to_lowercase`, `str::to_uppercase`)
// ---------------------------------------------------------------------------

/// What `str::to_lowercase` gives: the Unicode lower case of a text.
pub uninterp spec fn lower_case(s: Seq<char>) -> Seq<char>;

/// What `str::to_uppercase` gives: the Unicode upper case of a text.
pub uninterp spec fn upper_case(s: Seq<char>) -> Seq<char>;

/// Calls `str::to_lowercase`; the result is named `lower_case`.
#[verifier::external_body]
pub(crate) fn to_lower_case(s: &str) -> (r: String)
    ensures
        r@ == lower_case(s@),
{
    s.to_lowercase()
}

/// Calls `str::to_uppercase`; the result is named `upper_case`.
#[verifier::external_body]
pub(crate) fn to_upper_case(s: &str) -> (r: String)
    ensures
        r@ == upper_case(s@),
{
    s.to_uppercase()
}

// ---------------------------------------------------------------------------
// Bytes to text (`String::from_utf8_lossy`)
// ---------------------------------------------------------------------------

/// What `String::from_utf8_lossy` gives for a byte sequence: the text it
/// encodes, with each invalid sequence replaced by U+FFFD.
pub uninterp spec fn utf8_lossy(bytes: Seq<u8>) -> Seq<char>;

/// Calls `String::from_utf8_lossy`. The contract names the result
/// `utf8_lossy` and states what its documentation promises for valid
/// UTF-8 input: the text is decoded unchanged. How replacement characters
/// are placed for invalid input is not stated.
#[verifier::external_body]
pub(crate) fn text_from_bytes(bytes: &[u8]) -> (r: String)
    ensures
        r@ == utf8_lossy(bytes@),
        valid_utf8(bytes@) ==> r@ == decode_utf8(bytes@),
{
    String::from_utf8_lossy(bytes).into_owned()
}

// ---------------------------------------------------------------------------
// Base64 (`base64` crate)
// ---------------------------------------------------------------------------

/// The character of the standard base64 alphabet (the crate's
/// `alphabet::STANDARD`) for a 6-bit value: `A`–`Z`, `a`–`z`, `0`–`9`,
/// `+`, `/`.
pub open spec fn base64_char(v: int) -> char {
    if v < 26 {
        (65 + v) as char
    } else if v < 52 {
        (97 + v - 26) as char
    } else if v < 62 {
        (48 + v - 52) as char
    } else if v == 62 {
        '+'
    } else {
        '/'
    }
}

/// What the `base64` crate's `STANDARD` engine gives for a byte sequence:
/// RFC 4648 base64 with the standard alphabet and `=` padding. Each group of
/// three bytes becomes four characters, one for each six bits from the
/// highest; a last group of one or two bytes is filled with zero bits and
/// padded with `=` to four characters.
pub open spec fn base64_standard(b: Seq<u8>) -> Seq<char>
    decreases b.len(),
{
    if b.len() == 0 {
        seq![]
    } else if b.len() == 1 {
        seq![base64_char((b[0] >> 2u8) as int), base64_char(((b[0] & 3u8) << 4u8) as int), '=', '=']
    } else if b.len() == 2 {
        seq![
            base64_char((b[0] >> 2u8) as int),
            base64_char((((b[0] & 3u8) << 4u8) | (b[1] >> 4u8)) as int),
            base64_char(((b[1] & 15u8) << 2u8) as int),
            '=',
        ]
    } else {
        seq![
            base64_char((b[0] >> 2u8) as int),
            base64_char((((b[0] & 3u8) << 4u8) | (b[1] >> 4u8)) as int),
            base64_char((((b[1] & 15u8) << 2u8) | (b[2] >> 6u8)) as int),
            base64_char((b[2] & 63u8) as int),
        ] + base64_standard(b.skip(3))
    }
}

/// Calls `base64::engine::general_purpose::STANDARD.encode`, which the crate
/// documents as the RFC 4648 standard alphabet with padding; the contract
/// spells that encoding out as `base64_standard`. Its length is four
/// characters for every started group of three bytes (the crate's
/// `encoded_len` with padding). The call panics when that length overflows
/// `usize`, which `requires` rules out.
#[verifier::external_body]
pub(crate) fn encode_base64(bytes: &[u8]) -> (r: String)
    requires
        bytes@.len() / 3 * 4 + 4 <= usize::MAX,
    ensures
        r@ == base64_standard(bytes@),
        r@.len() == (bytes@.len() + 2) / 3 * 4,
{
    base64::engine::general_purpose::STANDARD.encode(bytes)
}

// ---------------------------------------------------------------------------
// JSON (`serde_json` crate)
// ---------------------------------------------------------------------------

/// A lower-case hexadecimal digit for `d < 16`.
pub open spec fn hex_digit(d: int) -> char {
    if d < 10 {
        (48 + d) as char
    } else {
        (97 + d - 10) as char
    }
}

/// How `serde_json` writes one character inside a JSON string (its `ESCAPE`
/// table and `write_char_escape`): `"` and `\` after a backslash; U+0008,
/// U+0009, U+000A, U+000C, U+000D as `\b`, `\t`, `\n`, `\f`, `\r`; any
/// other character below U+0020 as `\u00` and two lower-case hex digits;
/// every other character as itself.
pub open spec fn json_escape_char(c: char) -> Seq<char> {
    if c == '"' {
        seq!['\\', '"']
    } else if c == '\\' {
        seq!['\\', '\\']
    } else if c == '\u{8}' {
        seq!['\\', 'b']
    } else if c == '\t' {
        seq!['\\', 't']
    } else if c == '\n' {
        seq!['\\', 'n']
    } else if c == '\u{c}' {
        seq!['\\', 'f']
    } else if c == '\r' {
        seq!['\\', 'r']
    } else if (c as int) < 32 {
        seq!['\\', 'u', '0', '0', hex_digit((c as int) / 16), hex_digit((c as int) % 16)]
    } else {
        seq![c]
    }
}

/// The characters of `s`, each written as `json_escape_char` writes it.
pub open spec fn json_escaped(s: Seq<char>) -> Seq<char>
    decreases s.len(),
{
    if s.len() == 0 {
        seq![]
    } else {
        json_escaped(s.drop_last()) + json_escape_char(s.last())
    }
}

/// The JSON string literal for `s`, as `serde_json` writes it: quotes
/// around the escaped characters.
pub open spec fn json_string_text(s: Seq<char>) -> Seq<char> {
    seq!['"'] + json_escaped(s) + seq!['"']
}

/// `a` comes before `b` in the order of `String` (the order of their
/// characters' code points, compared from the first on, a proper prefix
/// first).
pub open spec fn text_less(a: Seq<char>, b: Seq<char>) -> bool
    decreases a.len(),
{
    if a.len() == 0 {
        b.len() > 0
    } else if b.len() == 0 {
        false
    } else if (a[0] as u32) < (b[0] as u32) {
        true
    } else if (a[0] as u32) > (b[0] as u32) {
        false
    } else {
        text_less(a.drop_first(), b.drop_first())
    }
}

/// `true` or `false` as JSON writes them.
pub open spec fn json_bool_text(b: bool) -> Seq<char> {
    if b {
        seq!['t', 'r', 'u', 'e']
    } else {
        seq!['f', 'a', 'l', 's', 'e']
    }
}

/// The compact JSON text of an object with the string members `key_a` and
/// `key_b` and the boolean member `key_c`, in that order.
pub open spec fn json_object3_text(
    key_a: Seq<char>,
    value_a: Seq<char>,
    key_b: Seq<char>,
    value_b: Seq<char>,
    key_c: Seq<char>,
    value_c: bool,
) -> Seq<char> {
    seq!['{'] + json_string_text(key_a) + seq![':'] + json_string_text(value_a) + seq![',']
        + json_string_text(key_b) + seq![':'] + json_string_text(value_b) + seq![',']
        + json_string_text(key_c) + seq![':'] + json_bool_text(value_c) + seq!['}']
}

/// Builds a `serde_json::Map` with the three members inserted in order and
/// calls `serde_json::to_string` on it as a `Value::Object`. The compact
/// formatter writes `{`, the members separated by `,` as key `:` value, and
/// `}`; keys and string values go through the escaping of
/// `json_string_text`. The members come out in key order (the default
/// `BTreeMap`) or in insertion order (with `preserve_order`), which agree
/// because `requires` has the keys inserted in ascending order. Writing
/// into a `Vec` cannot fail and all keys are strings, so the result is
/// always there.
#[verifier::external_body]
pub(crate) fn json_object3(
    key_a: &str,
    value_a: &str,
    key_b: &str,
    value_b: &str,
    key_c: &str,
    value_c: bool,
) -> (r: Option<String>)
    requires
        text_less(key_a@, key_b@),
        text_less(key_b@, key_c@),
    ensures
        r is Some,
        r matches Some(t) ==> t@ == json_object3_text(key_a@, value_a@, key_b@, value_b@, key_c@, value_c),
{
    let mut map = serde_json::Map::new();
    map.insert(key_a.to_string(), serde_json::Value::String(value_a.to_string()));
    map.insert(key_b.to_string(), serde_json::Value::String(value_b.to_string()));
    map.insert(key_c.to_string(), serde_json::Value::Bool(value_c));
    match serde_json::to_string(&serde_json::Value::Object(map)) {
        Ok(t) => Some(t),
        Err(_) => None,
    }
}

/// What `serde_json::from_str::<serde_json::Value>` makes of a text, read
/// for two keys: nothing where the text is not JSON; otherwise, for each
/// key, the string stored under it when the text is an object holding a
/// string there.
pub uninterp spec fn json_object_strings(text: Seq<char>, key_a: Seq<char>, key_b: Seq<char>) -> Option<
    (Option<Seq<char>>, Option<Seq<char>>),
>;

/// Calls `serde_json::from_str` to read `text` as a JSON value and takes the
/// string members `key_a` and `key_b` from it (a member that is absent, or
/// not a string, or a value that is not an object, gives `None` for that
/// key). The result is named `json_object_strings`.
#[verifier::external_body]
pub(crate) fn read_json_strings(text: &str, key_a: &str, key_b: &str) -> (r: Option<
    (Option<String>, Option<String>),
>)
    ensures
        match r {
            Some((a, b)) => json_object_strings(text@, key_a@, key_b@) == Some(
                (
                    match a {
                        Some(x) => Some(x@),
                        None => None,
                    },
                    match b {
                        Some(x) => Some(x@),
                        None => None,
                    },
                ),
            ),
            None => json_object_strings(text@, key_a@, key_b@) is None,
        },
{
    match serde_json::from_str::<serde_json::Value>(text) {
        Ok(value) => Some((
            match value.get(key_a) {
                Some(serde_json::Value::String(s)) => Some(s.clone()),
                _ => None,
            },
            match value.get(key_b) {
                Some(serde_json::Value::String(s)) => Some(s.clone()),
                _ => None,
            },
        )),
        Err(_) => None,
    }
}

} // verus!
