//! JSON text through `serde_json`: string literals as it writes them, and
//! the members of request contents as it reads them.

use vstd::prelude::*;
use crate::text::opt_view;

verus! {

/// The lower-case hexadecimal digit of `d` (below sixteen).
pub open spec fn hex_lower(d: int) -> char {
    if d < 10 {
        ((d + 48) as u32) as char
    } else {
        ((d + 87) as u32) as char
    }
}

/// How one character is written inside a JSON string literal: quote and
/// backslash escaped with a backslash, backspace, tab, line feed, form feed
/// and carriage return as `\b \t \n \f \r`, the other control characters
/// below U+0020 as `\u00` and two lower-case hex digits, everything else
/// unchanged.
pub open spec fn json_escape(c: char) -> Seq<char> {
    if c == '"' {
        seq!['\\', '"']
    } else if c == '\\' {
        seq!['\\', '\\']
    } else if c == '\u{8}' {
        seq!['\\', 'b']
    } else if c == '\t' {
        seq!['\\', 't']
    } else if c == '\n' {
        seq!['\\', 'n']
    } else if c == '\u{c}' {
        seq!['\\', 'f']
    } else if c == '\r' {
        seq!['\\', 'r']
    } else if (c as int) < 0x20 {
        seq!['\\', 'u', '0', '0', hex_lower((c as int) / 16), hex_lower((c as int) % 16)]
    } else {
        seq![c]
    }
}

/// The escaped characters of `s`.
pub open spec fn json_escape_all(s: Seq<char>) -> Seq<char>
    decreases s.len(),
{
    if s.len() == 0 {
        Seq::empty()
    } else {
        json_escape_all(s.drop_last()) + json_escape(s.last())
    }
}

/// The JSON string literal of `s`: its escaped characters between double
/// quotes.
pub open spec fn json_quoted(s: Seq<char>) -> Seq<char> {
    seq!['"'] + json_escape_all(s) + seq!['"']
}

/// The value of a lower-case hexadecimal digit.
pub open spec fn hex_value(c: char) -> Option<int> {
    if '0' <= c && c <= '9' {
        Some(c as int - 48)
    } else if 'a' <= c && c <= 'f' {
        Some(c as int - 87)
    } else {
        None
    }
}

/// The character that a two-character escape `\e` stands for.
pub open spec fn short_escape(e: char) -> Option<char> {
    if e == '"' {
        Some('"')
    } else if e == '\\' {
        Some('\\')
    } else if e == 'b' {
        Some('\u{8}')
    } else if e == 't' {
        Some('\t')
    } else if e == 'n' {
        Some('\n')
    } else if e == 'f' {
        Some('\u{c}')
    } else if e == 'r' {
        Some('\r')
    } else {
        None
    }
}

/// Reads the characters of a JSON string literal's body, left to right:
/// `\e` escapes and `\u00hh` escapes stand for one character each, every
/// other character for itself; `None` where an escape is malformed.
pub open spec fn json_unescape(t: Seq<char>) -> Option<Seq<char>>
    decreases t.len(),
{
    if t.len() == 0 {
        Some(Seq::empty())
    } else if t[0] != '\\' {
        match json_unescape(t.drop_first()) {
            Some(r) => Some(seq![t[0]] + r),
            None => None,
        }
    } else if t.len() < 2 {
        None
    } else if t[1] == 'u' {
        if t.len() < 6 || t[2] != '0' || t[3] != '0' {
            None
        } else {
            match (hex_value(t[4]), hex_value(t[5]), json_unescape(t.skip(6))) {
                (Some(h), Some(l), Some(r)) => Some(seq![((h * 16 + l) as u32) as char] + r),
                _ => None,
            }
        }
    } else {
        match (short_escape(t[1]), json_unescape(t.skip(2))) {
            (Some(c), Some(r)) => Some(seq![c] + r),
            _ => None,
        }
    }
}

/// Reads a JSON string literal: its body between double quotes.
pub open spec fn json_unquote(t: Seq<char>) -> Option<Seq<char>> {
    if t.len() >= 2 && t[0] == '"' && t.last() == '"' {
        json_unescape(t.subrange(1, t.len() - 1))
    } else {
        None
    }
}

proof fn lemma_escape_all_front(s: Seq<char>)
    requires
        s.len() > 0,
    ensures
        json_escape_all(s) == json_escape(s[0]) + json_escape_all(s.drop_first()),
    decreases s.len(),
{
    if s.len() == 1 {
        assert(s.drop_last() =~= Seq::<char>::empty());
        assert(s.drop_first() =~= Seq::<char>::empty());
        assert(json_escape_all(s.drop_last()) =~= Seq::<char>::empty());
        assert(s.last() == s[0]);
        assert(json_escape_all(s) =~= json_escape(s[0]));
    } else {
        lemma_escape_all_front(s.drop_last());
        assert(s.drop_last().drop_first() =~= s.drop_first().drop_last());
        assert(s.drop_first().last() == s.last());
        assert(json_escape_all(s) =~= json_escape(s[0]) + json_escape_all(s.drop_first()));
    }
}

proof fn lemma_unescape_one(c: char, rest: Seq<char>)
    ensures
        json_unescape(json_escape(c) + rest) == match json_unescape(rest) {
            Some(r) => Some(seq![c] + r),
            None => None::<Seq<char>>,
        },
{
    let t = json_escape(c) + rest;
    if c == '"' || c == '\\' || c == '\u{8}' || c == '\t' || c == '\n' || c == '\u{c}' || c == '\r' {
        assert(t.skip(2) =~= rest);
    } else if (c as int) < 0x20 {
        assert(t.skip(6) =~= rest);
        let h = (c as int) / 16;
        let l = (c as int) % 16;
        assert(hex_value(hex_lower(h)) == Some(h));
        assert(hex_value(hex_lower(l)) == Some(l));
        assert(h * 16 + l == c as int);
        assert(((h * 16 + l) as u32) as char == c);
    } else {
        assert(t.drop_first() =~= rest);
    }
}

/// Reading back the JSON string literal of `s` gives `s`.
pub proof fn lemma_quote_unquote(s: Seq<char>)
    ensures
        json_unescape(json_escape_all(s)) == Some(s),
        json_unquote(json_quoted(s)) == Some(s),
    decreases s.len(),
{
    if s.len() == 0 {
        assert(json_escape_all(s) =~= Seq::<char>::empty());
    } else {
        lemma_escape_all_front(s);
        lemma_quote_unquote(s.drop_first());
        lemma_unescape_one(s[0], json_escape_all(s.drop_first()));
        assert(seq![s[0]] + s.drop_first() =~= s);
    }
    let q = json_quoted(s);
    assert(q.subrange(1, q.len() - 1) =~= json_escape_all(s));
}

/// The error type of `serde_json`.
#[verifier::external_type_specification]
#[verifier::external_body]
pub struct ExJsonError(serde_json::Error);

/// `serde_json::to_string` on a string slice. Claimed: it succeeds (a
/// string is written to an in-memory buffer, which cannot fail) and gives
/// the JSON string literal of `s`, escaped as `json_escape` says.
#[verifier::external_body]
fn json_string_literal(s: &str) -> (r: Result<String, serde_json::Error>)
    ensures
        r is Ok,
        r.unwrap()@ == json_quoted(s@),
{
    serde_json::to_string(s)
}

/// The JSON string literal of `s`.
pub fn quote_json(s: &str) -> (r: String)
    ensures
        r@ == json_quoted(s@),
{
    match json_string_literal(s) {
        Ok(j) => j,
        Err(_) => {
            assert(false);
            String::new()
        },
    }
}


/// What a member lookup in a JSON document found: `None` where the text is
/// not a JSON document, `Some(None)` where the member is absent or not a
/// string, and `Some(Some(s))` for the string `s`.
pub open spec fn opt_opt_view(o: Option<Option<String>>) -> Option<Option<Seq<char>>> {
    match o {
        Some(x) => Some(opt_view(x)),
        None => None,
    }
}

/// What `serde_json` finds as the string member `key` of the document
/// `text` (see `opt_opt_view` for the layers).
pub uninterp spec fn json_str_member(text: Seq<char>, key: Seq<char>) -> Option<Option<Seq<char>>>;

/// What `serde_json` finds as the string member `key` of the member `outer`
/// of the document `text`.
pub uninterp spec fn json_str_member_in(text: Seq<char>, outer: Seq<char>, key: Seq<char>) -> Option<
    Option<Seq<char>>,
>;

/// What `serde_json` finds as the unsigned integer member `key` of the
/// document `text`: `None` where the text is not a JSON document,
/// `Some(None)` where the member is absent or not a `u64`.
pub uninterp spec fn json_u64_member(text: Seq<char>, key: Seq<char>) -> Option<Option<u64>>;

/// What `serde_json` finds as the unsigned integer member `key` of the
/// member `outer` of the document `text`.
pub uninterp spec fn json_u64_member_in(text: Seq<char>, outer: Seq<char>, key: Seq<char>) -> Option<
    Option<u64>,
>;

/// The compact JSON text that `serde_json` writes back for the document
/// `text`, or `None` where `text` is not a JSON document.
pub uninterp spec fn json_compact(text: Seq<char>) -> Option<Seq<char>>;

/// `serde_json::from_str::<Value>(text)`, then `value[key].as_str()`.
/// Claimed: the outcome is `json_str_member` of the arguments; what that is
/// (the JSON grammar, member lookup) is left to `serde_json`.
#[verifier::external_body]
pub(crate) fn parse_str_member(text: &str, key: &str) -> (r: Option<Option<String>>)
    ensures
        opt_opt_view(r) == json_str_member(text@, key@),
{
    match serde_json::from_str::<serde_json::Value>(text) {
        Ok(v) => Some(v[key].as_str().map(|s| s.to_string())),
        Err(_) => None,
    }
}

/// `serde_json::from_str::<Value>(text)`, then `value[outer][key].as_str()`.
/// Claimed: the outcome is `json_str_member_in` of the arguments.
#[verifier::external_body]
pub(crate) fn parse_str_member_in(text: &str, outer: &str, key: &str) -> (r: Option<Option<String>>)
    ensures
        opt_opt_view(r) == json_str_member_in(text@, outer@, key@),
{
    match serde_json::from_str::<serde_json::Value>(text) {
        Ok(v) => Some(v[outer][key].as_str().map(|s| s.to_string())),
        Err(_) => None,
    }
}

/// `serde_json::from_str::<Value>(text)`, then `value[key].as_u64()`.
/// Claimed: the outcome is `json_u64_member` of the arguments.
#[verifier::external_body]
pub(crate) fn parse_u64_member(text: &str, key: &str) -> (r: Option<Option<u64>>)
    ensures
        r == json_u64_member(text@, key@),
{
    match serde_json::from_str::<serde_json::Value>(text) {
        Ok(v) => Some(v[key].as_u64()),
        Err(_) => None,
    }
}

/// `serde_json::from_str::<Value>(text)`, then `value[outer][key].as_u64()`.
/// Claimed: the outcome is `json_u64_member_in` of the arguments.
#[verifier::external_body]
pub(crate) fn parse_u64_member_in(text: &str, outer: &str, key: &str) -> (r: Option<Option<u64>>)
    ensures
        r == json_u64_member_in(text@, outer@, key@),
{
    match serde_json::from_str::<serde_json::Value>(text) {
        Ok(v) => Some(v[outer][key].as_u64()),
        Err(_) => None,
    }
}

/// `serde_json::from_str::<Value>(text)`, then `value.to_string()`.
/// Claimed: the outcome is `json_compact` of `text`.
#[verifier::external_body]
pub(crate) fn parse_compact(text: &str) -> (r: Option<String>)
    ensures
        opt_view(r) == json_compact(text@),
{
    match serde_json::from_str::<serde_json::Value>(text) {
        Ok(v) => Some(v.to_string()),
        Err(_) => None,
    }
}

} // verus!
