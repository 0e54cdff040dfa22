use vstd::prelude::*;

verus! {

pub open spec fn hex_digit(d: int) -> char {
    if d < 10 {
        (d + '0' as int) as char
    } else {
        (d - 10 + 'a' as int) as char
    }
}

/// How a character is written inside a JSON string: quote and backslash are
/// escaped, the control characters with a short escape where JSON has one and
/// as `\u00xx` (lower-case hex) otherwise; every other character as it is.
pub open spec fn escaped_char(c: char) -> Seq<char> {
    if c == '"' {
        seq!['\\', '"']
    } else if c == '\\' {
        seq!['\\', '\\']
    } else if c == '\u{8}' {
        seq!['\\', 'b']
    } else if c == '\u{c}' {
        seq!['\\', 'f']
    } else if c == '\n' {
        seq!['\\', 'n']
    } else if c == '\r' {
        seq!['\\', 'r']
    } else if c == '\t' {
        seq!['\\', 't']
    } else if (c as u32) < 0x20 {
        seq!['\\', 'u', '0', '0', hex_digit((c as u32) as int / 16), hex_digit((c as u32) as int % 16)]
    } else {
        seq![c]
    }
}

pub open spec fn escaped(s: Seq<char>) -> Seq<char>
    decreases s.len(),
{
    if s.len() == 0 {
        Seq::empty()
    } else {
        escaped(s.drop_last()) + escaped_char(s.last())
    }
}

/// A text written as a JSON string.
pub open spec fn json_string(s: Seq<char>) -> Seq<char> {
    seq!['"'] + escaped(s) + seq!['"']
}

pub open spec fn json_items(v: Seq<Seq<char>>) -> Seq<char>
    decreases v.len(),
{
    if v.len() == 0 {
        Seq::empty()
    } else if v.len() == 1 {
        json_string(v[0])
    } else {
        json_items(v.drop_last()) + seq![','] + json_string(v.last())
    }
}

/// A list of texts written compactly as a JSON array of strings.
pub open spec fn json_array_text(v: Seq<Seq<char>>) -> Seq<char> {
    seq!['['] + json_items(v) + seq![']']
}

/// Relies on `serde_json::to_string` on a `Vec<String>`: the compact array
/// that its serializer writes (`[`, the strings separated by `,`, `]`, each
/// string quoted and escaped as `escaped_char` says); it cannot fail on
/// strings.
#[verifier::external_body]
pub(crate) fn texts_to_json(v: &Vec<String>) -> (r: String)
    ensures
        r@ == json_array_text(v@.map_values(|s: String| s@)),
{
    serde_json::to_string(v).unwrap_or_default()
}

/// The texts that a JSON text holds when it is one array of strings, or
/// `None` when it is anything else.
pub uninterp spec fn texts_of_json(s: Seq<char>) -> Option<Seq<Seq<char>>>;

/// Relies on `serde_json::from_str` into a `Vec<String>`: it succeeds exactly
/// when the text is one JSON array of strings, and its outcome depends on the
/// text alone; it reads back the array that `texts_to_json` writes.
#[verifier::external_body]
pub(crate) fn parse_texts(s: &str) -> (r: Option<Vec<String>>)
    ensures
        match r {
            Some(v) => texts_of_json(s@) == Some(v@.map_values(|t: String| t@)),
            None => texts_of_json(s@) is None,
        },
        forall|w: Seq<Seq<char>>| #[trigger] json_array_text(w) == s@ ==> (r is Some && r->Some_0@.map_values(
            |t: String| t@,
        ) == w),
{
    serde_json::from_str::<Vec<String>>(s).ok()
}

} // verus!
