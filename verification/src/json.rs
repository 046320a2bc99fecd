//! JSON text of the frames the bridge sends to WebSocket clients.
//!
//! A response frame is the object `{"method":..,"message":..,"timestamp":..}`
//! with its fields in that order and no whitespace. String values are quoted
//! by `serde_json`; the timestamp is written in decimal.
use vstd::prelude::*;

use crate::text::{int_decimal, push_decimal};

verus! {

/// The lower-case hexadecimal digit of `d` (`0 <= d < 16`).
pub open spec fn hex_digit(d: nat) -> char {
    if d < 10 {
        ((d + 48) as u32) as char
    } else {
        ((d + 87) as u32) as char
    }
}

/// How one character appears inside a JSON string literal: `"` and `\`
/// are escaped with a backslash, the control characters that have a short
/// escape use it, the other control characters below U+0020 become `\u00XX`,
/// and every other character stands for itself.
pub open spec fn json_escape_char(c: char) -> Seq<char> {
    if c == '"' {
        seq!['\\', '"']
    } else if c == '\\' {
        seq!['\\', '\\']
    } else if c == '\x08' {
        seq!['\\', 'b']
    } else if c == '\t' {
        seq!['\\', 't']
    } else if c == '\n' {
        seq!['\\', 'n']
    } else if c == '\x0c' {
        seq!['\\', 'f']
    } else if c == '\r' {
        seq!['\\', 'r']
    } else if (c as u32) < 0x20 {
        seq!['\\', 'u', '0', '0', hex_digit((c as u32 / 16) as nat), hex_digit((c as u32 % 16) as nat)]
    } else {
        seq![c]
    }
}

/// The escaped contents of a JSON string literal.
pub open spec fn json_escape(s: Seq<char>) -> Seq<char>
    decreases s.len(),
{
    if s.len() == 0 {
        Seq::empty()
    } else {
        json_escape(s.drop_last()) + json_escape_char(s.last())
    }
}

/// The JSON string literal of `s`, quotes included.
pub open spec fn json_quoted(s: Seq<char>) -> Seq<char> {
    seq!['"'] + json_escape(s) + seq!['"']
}

/// A character that JSON writes unescaped.
pub open spec fn json_plain_char(c: char) -> bool {
    c != '"' && c != '\\' && (c as u32) >= 0x20
}

/// The JSON object sent to a WebSocket client for one reply.
pub open spec fn response_json(method: Seq<char>, message: Seq<char>, timestamp: int) -> Seq<char> {
    "{\"method\":"@ + json_quoted(method) + ",\"message\":"@ + json_quoted(message)
        + ",\"timestamp\":"@ + int_decimal(timestamp) + "}"@
}

#[verifier::external_type_specification]
#[verifier::external_body]
pub struct ExJsonError(serde_json::Error);

/// Calls `serde_json::to_string` on a string slice. The string serializer
/// writes `"`, the escaped contents and `"` into a `Vec<u8>`, whose writes
/// cannot fail, so the result is always `Ok` and holds `json_quoted(s)`.
#[verifier::external_body]
fn serde_quote(s: &str) -> (r: Result<String, serde_json::Error>)
    ensures
        r is Ok,
        r matches Ok(q) ==> q@ == json_quoted(s@),
{
    serde_json::to_string(s)
}

/// The JSON string literal of `s`.
pub fn quote(s: &str) -> (q: String)
    ensures
        q@ == json_quoted(s@),
{
    match serde_quote(s) {
        Ok(q) => q,
        Err(_) => {
            proof {
                assert(false);
            }
            String::new()
        },
    }
}

/// Renders a reply frame: `{"method":M,"message":S,"timestamp":T}`.
pub fn encode_response(method: &str, message: &str, timestamp: i64) -> (s: String)
    ensures
        s@ == response_json(method@, message@, timestamp as int),
{
    let mut s = String::new();
    s.append("{\"method\":");
    let m = quote(method);
    s.append(m.as_str());
    s.append(",\"message\":");
    let t = quote(message);
    s.append(t.as_str());
    s.append(",\"timestamp\":");
    push_decimal(&mut s, timestamp);
    s.append("}");
    s
}

/// The value of a hexadecimal digit character (`0`-`9`, `a`-`f`).
pub open spec fn hex_value(c: char) -> int {
    if (c as u32) < 58 {
        (c as u32) - 48
    } else {
        (c as u32) - 87
    }
}

/// The character a two-character escape `\c` stands for in a JSON string.
pub open spec fn short_unescape(c: char) -> char {
    if c == 'b' {
        '\x08'
    } else if c == 't' {
        '\t'
    } else if c == 'n' {
        '\n'
    } else if c == 'f' {
        '\x0c'
    } else if c == 'r' {
        '\r'
    } else {
        c
    }
}

/// Reads the contents of a JSON string literal back into the characters it
/// stands for: `\u00XX` is the character with that code, `\c` the
/// character the short escape `c` names, any other character itself.
pub open spec fn json_unescape(s: Seq<char>) -> Seq<char>
    decreases s.len(),
{
    if s.len() == 0 {
        Seq::empty()
    } else if s[0] == '\\' && s.len() >= 2 {
        if s[1] == 'u' && s.len() >= 6 {
            seq![((hex_value(s[4]) * 16 + hex_value(s[5])) as u32) as char] + json_unescape(
                s.skip(6),
            )
        } else {
            seq![short_unescape(s[1])] + json_unescape(s.skip(2))
        }
    } else {
        seq![s[0]] + json_unescape(s.skip(1))
    }
}

proof fn lemma_escape_append(a: Seq<char>, b: Seq<char>)
    ensures
        json_escape(a + b) == json_escape(a) + json_escape(b),
    decreases b.len(),
{
    if b.len() == 0 {
        assert(a + b =~= a);
        assert(json_escape(a) + json_escape(b) =~= json_escape(a));
    } else {
        lemma_escape_append(a, b.drop_last());
        assert((a + b).drop_last() =~= a + b.drop_last());
        assert((a + b).last() == b.last());
        assert(json_escape(a) + json_escape(b.drop_last()) + json_escape_char(b.last()) =~= json_escape(a)
            + (json_escape(b.drop_last()) + json_escape_char(b.last())));
    }
}

proof fn lemma_unescape_char(c: char, rest: Seq<char>)
    ensures
        json_unescape(json_escape_char(c) + rest) == seq![c] + json_unescape(rest),
{
    let e = json_escape_char(c) + rest;
    let v = c as u32;
    if c == '"' || c == '\\' || c == '\x08' || c == '\t' || c == '\n' || c == '\x0c' || c == '\r' {
        assert(e.skip(2) =~= rest);
    } else if v < 0x20 {
        assert(e.skip(6) =~= rest);
        let hi = (v / 16) as nat;
        let lo = (v % 16) as nat;
        assert(e[4] == hex_digit(hi));
        assert(e[5] == hex_digit(lo));
        assert(hex_value(hex_digit(hi)) == hi);
        assert(hex_value(hex_digit(lo)) == lo);
        assert(hi * 16 + lo == v);
        assert(((v as int) as u32) as char == c);
    } else {
        assert(e.skip(1) =~= rest);
    }
}

/// Escaping loses nothing: reading the contents of the JSON string literal
/// of `s` back gives `s`, and the literal is the escaped contents between
/// two double quotes.
pub proof fn lemma_json_quoted_reads_back(s: Seq<char>)
    ensures
        json_unescape(json_escape(s)) == s,
        json_quoted(s).len() >= 2,
        json_quoted(s)[0] == '"',
        json_quoted(s).last() == '"',
        json_unescape(json_quoted(s).subrange(1, json_quoted(s).len() - 1)) == s,
    decreases s.len(),
{
    if s.len() > 0 {
        let first = s[0];
        let rest = s.drop_first();
        assert(s =~= seq![first] + rest);
        lemma_escape_append(seq![first], rest);
        assert(seq![first].drop_last() =~= Seq::<char>::empty());
        assert(seq![first].last() == first);
        assert(json_escape(Seq::<char>::empty()) == Seq::<char>::empty());
        assert(json_escape(seq![first]) =~= json_escape_char(first));
        lemma_json_quoted_reads_back(rest);
        lemma_unescape_char(first, json_escape(rest));
    }
    let q = json_quoted(s);
    assert(q.subrange(1, q.len() - 1) =~= json_escape(s));
}

/// A reply frame whose method and message need no escaping is the text
/// `{"method":"M","message":"S","timestamp":T}`, with the whole of both
/// strings and the timestamp in decimal.
pub proof fn lemma_plain_response_json(method: Seq<char>, message: Seq<char>, timestamp: int)
    requires
        forall|i: int| 0 <= i < method.len() ==> json_plain_char(#[trigger] method[i]),
        forall|i: int| 0 <= i < message.len() ==> json_plain_char(#[trigger] message[i]),
    ensures
        response_json(method, message, timestamp) == "{\"method\":\""@ + method + "\",\"message\":\""@
            + message + "\",\"timestamp\":"@ + int_decimal(timestamp) + "}"@,
{
    lemma_plain_string_quoted(method);
    lemma_plain_string_quoted(message);
    reveal_strlit("{\"method\":");
    reveal_strlit(",\"message\":");
    reveal_strlit(",\"timestamp\":");
    reveal_strlit("{\"method\":\"");
    reveal_strlit("\",\"message\":\"");
    reveal_strlit("\",\"timestamp\":");
    assert(response_json(method, message, timestamp) =~= "{\"method\":\""@ + method
        + "\",\"message\":\""@ + message + "\",\"timestamp\":"@ + int_decimal(timestamp) + "}"@);
}

/// A string made only of characters that JSON writes unescaped is quoted
/// as itself between two double quotes.
pub proof fn lemma_plain_string_quoted(s: Seq<char>)
    requires
        forall|i: int| 0 <= i < s.len() ==> json_plain_char(#[trigger] s[i]),
    ensures
        json_quoted(s) == seq!['"'] + s + seq!['"'],
{
    lemma_plain_string_escape(s);
}

proof fn lemma_plain_string_escape(s: Seq<char>)
    requires
        forall|i: int| 0 <= i < s.len() ==> json_plain_char(#[trigger] s[i]),
    ensures
        json_escape(s) == s,
    decreases s.len(),
{
    if s.len() > 0 {
        let init = s.drop_last();
        assert forall|i: int| 0 <= i < init.len() implies json_plain_char(#[trigger] init[i]) by {
            assert(init[i] == s[i]);
        }
        lemma_plain_string_escape(init);
        assert(json_plain_char(s[s.len() - 1]));
        assert(s == init.push(s.last()));
    }
}

} // verus!
