//! The outbound wire format: every value handed to the host callback is a
//! JSON object, either a handler's own item or `{"error": message}`.
//!
//! The error envelope is built here character by character. A spec-level
//! decoder (`unescape`, `parse_error_envelope`) states what a JSON reader
//! sees in the delivered text, and the round-trip lemmas show that the
//! envelope for a message is a well-formed JSON object holding exactly the
//! key `"error"` with that message as its value.

use vstd::prelude::*;

verus! {

use crate::text::push_char;
use vstd::string::StrSliceExecFns;

/// The lower-case hexadecimal digit for a value below sixteen.
pub open spec fn hex_char(n: int) -> char {
    if n == 0 { '0' }
    else if n == 1 { '1' }
    else if n == 2 { '2' }
    else if n == 3 { '3' }
    else if n == 4 { '4' }
    else if n == 5 { '5' }
    else if n == 6 { '6' }
    else if n == 7 { '7' }
    else if n == 8 { '8' }
    else if n == 9 { '9' }
    else if n == 10 { 'a' }
    else if n == 11 { 'b' }
    else if n == 12 { 'c' }
    else if n == 13 { 'd' }
    else if n == 14 { 'e' }
    else if n == 15 { 'f' }
    else { '0' }
}

/// The value of a lower-case hexadecimal digit, or a negative number for
/// any other character.
pub open spec fn hex_val(c: char) -> int {
    if c == '0' { 0 }
    else if c == '1' { 1 }
    else if c == '2' { 2 }
    else if c == '3' { 3 }
    else if c == '4' { 4 }
    else if c == '5' { 5 }
    else if c == '6' { 6 }
    else if c == '7' { 7 }
    else if c == '8' { 8 }
    else if c == '9' { 9 }
    else if c == 'a' { 10 }
    else if c == 'b' { 11 }
    else if c == 'c' { 12 }
    else if c == 'd' { 13 }
    else if c == 'e' { 14 }
    else if c == 'f' { 15 }
    else { -1 }
}

/// The characters that stand for one message character inside a quoted
/// JSON string: quote and backslash get a backslash escape, the common
/// control characters their named escapes, any other control character a
/// `\u00XX` escape, and everything else stands for itself.
pub open spec fn escape_char(c: char) -> Seq<char> {
    if c == '"' { seq!['\\', '"'] }
    else if c == '\\' { seq!['\\', '\\'] }
    else if c == '\n' { seq!['\\', 'n'] }
    else if c == '\r' { seq!['\\', 'r'] }
    else if c == '\t' { seq!['\\', 't'] }
    else if (c as u32) < 32 {
        seq!['\\', 'u', '0', '0', hex_char((c as u32) as int / 16), hex_char((c as u32) as int % 16)]
    }
    else { seq![c] }
}

/// The body of the quoted JSON string that stands for a message.
pub open spec fn json_escaped(s: Seq<char>) -> Seq<char>
    decreases s.len(),
{
    if s.len() == 0 {
        Seq::<char>::empty()
    } else {
        escape_char(s[0]) + json_escaped(s.drop_first())
    }
}

/// The opening characters of an error envelope, up to the quote that
/// starts the message text.
pub open spec fn envelope_prefix() -> Seq<char> {
    seq!['{', '"', 'e', 'r', 'r', 'o', 'r', '"', ':', '"']
}

/// The closing characters of an error envelope.
pub open spec fn envelope_suffix() -> Seq<char> {
    seq!['"', '}']
}

/// The full text of the error envelope for a message.
pub open spec fn error_envelope_spec(msg: Seq<char>) -> Seq<char> {
    envelope_prefix() + json_escaped(msg) + envelope_suffix()
}

/// The message character a named escape stands for.
pub open spec fn simple_unescape(c: char) -> char {
    if c == 'n' { '\n' }
    else if c == 'r' { '\r' }
    else if c == 't' { '\t' }
    else { c }
}

/// What a JSON reader decodes from the body of a quoted string: `None`
/// where the body is not acceptable JSON string content.
pub open spec fn unescape(s: Seq<char>) -> Option<Seq<char>>
    decreases s.len(),
{
    if s.len() == 0 {
        Some(Seq::<char>::empty())
    } else if s[0] == '\\' {
        if s.len() >= 2 && (s[1] == '"' || s[1] == '\\' || s[1] == 'n' || s[1] == 'r' || s[1] == 't') {
            match unescape(s.skip(2)) {
                Some(t) => Some(seq![simple_unescape(s[1])] + t),
                None => None,
            }
        } else if s.len() >= 6 && s[1] == 'u' && s[2] == '0' && s[3] == '0' && hex_val(s[4]) >= 0
            && hex_val(s[5]) >= 0 {
            match unescape(s.skip(6)) {
                Some(t) => Some(seq![(((hex_val(s[4]) * 16 + hex_val(s[5])) as u8) as char)] + t),
                None => None,
            }
        } else {
            None
        }
    } else if s[0] == '"' || (s[0] as u32) < 32 {
        None
    } else {
        match unescape(s.skip(1)) {
            Some(t) => Some(seq![s[0]] + t),
            None => None,
        }
    }
}

/// What a JSON reader decodes from a full envelope text: the message, if
/// the text is exactly an object with the single key `"error"` and a
/// well-formed string value.
pub open spec fn parse_error_envelope(s: Seq<char>) -> Option<Seq<char>> {
    if s.len() >= 12 && s.take(10) == envelope_prefix() && s.skip(s.len() - 2)
        == envelope_suffix() {
        unescape(s.subrange(10, s.len() - 2))
    } else {
        None
    }
}

/// Escaping one more character extends the escaped text at its end.
pub proof fn lemma_escape_snoc(s: Seq<char>, c: char)
    ensures
        json_escaped(s.push(c)) == json_escaped(s) + escape_char(c),
    decreases s.len(),
{
    assert(s.push(c).len() == s.len() + 1);
    assert(s.push(c)[0] == if s.len() == 0 { c } else { s[0] });
    if s.len() == 0 {
        assert(s.push(c).drop_first() =~= Seq::<char>::empty());
        assert(json_escaped(s.push(c)) == escape_char(c) + json_escaped(Seq::<char>::empty()));
        assert(json_escaped(s.push(c)) =~= json_escaped(s) + escape_char(c));
    } else {
        lemma_escape_snoc(s.drop_first(), c);
        assert(s.push(c).drop_first() =~= s.drop_first().push(c));
        assert(json_escaped(s.push(c)) == escape_char(s[0]) + json_escaped(s.drop_first().push(c)));
        assert(json_escaped(s.push(c)) =~= json_escaped(s) + escape_char(c));
    }
}

/// Decoding the escape of one character ahead of well-formed string
/// content yields that character ahead of the decoded content.
proof fn lemma_unescape_step(c: char, t: Seq<char>)
    requires
        unescape(t) is Some,
    ensures
        unescape(escape_char(c) + t) == Some(seq![c] + unescape(t)->Some_0),
{
    let e = escape_char(c) + t;
    if c == '"' || c == '\\' || c == '\n' || c == '\r' || c == '\t' {
        assert(e.skip(2) =~= t);
        assert(seq![simple_unescape(e[1])] + unescape(t)->Some_0 =~= seq![c] + unescape(t)->Some_0);
    } else if (c as u32) < 32 {
        let code = (c as u32) as int;
        assert(e.skip(6) =~= t);
        assert(hex_val(hex_char(code / 16)) == code / 16);
        assert(hex_val(hex_char(code % 16)) == code % 16);
        assert((code / 16) * 16 + code % 16 == code) by (nonlinear_arith)
            requires code >= 0;
        assert((((hex_val(e[4]) * 16 + hex_val(e[5])) as u8) as char) == c);
    } else {
        assert(e.skip(1) =~= t);
    }
}

/// Decoding the escaped text of a message yields the message.
pub proof fn lemma_unescape_escape(s: Seq<char>)
    ensures
        unescape(json_escaped(s)) == Some(s),
    decreases s.len(),
{
    if s.len() == 0 {
    } else {
        lemma_unescape_escape(s.drop_first());
        lemma_unescape_step(s[0], json_escaped(s.drop_first()));
        assert(seq![s[0]] + s.drop_first() =~= s);
    }
}

/// The error envelope for a message is a JSON object with exactly the key
/// `"error"`, and a JSON reader decodes the original message from its
/// value.
pub proof fn lemma_error_envelope_parses(msg: Seq<char>)
    ensures
        parse_error_envelope(error_envelope_spec(msg)) == Some(msg),
{
    let e = error_envelope_spec(msg);
    assert(e.len() == 12 + json_escaped(msg).len());
    assert(e.take(10) =~= envelope_prefix());
    assert(e.skip(e.len() - 2) =~= envelope_suffix());
    assert(e.subrange(10, e.len() - 2) =~= json_escaped(msg));
    lemma_unescape_escape(msg);
}

/// The lower-case hexadecimal digit for a value below sixteen.
fn hex_digit(n: u32) -> (c: char)
    requires
        n < 16,
    ensures
        c == hex_char(n as int),
{
    if n == 0 { '0' }
    else if n == 1 { '1' }
    else if n == 2 { '2' }
    else if n == 3 { '3' }
    else if n == 4 { '4' }
    else if n == 5 { '5' }
    else if n == 6 { '6' }
    else if n == 7 { '7' }
    else if n == 8 { '8' }
    else if n == 9 { '9' }
    else if n == 10 { 'a' }
    else if n == 11 { 'b' }
    else if n == 12 { 'c' }
    else if n == 13 { 'd' }
    else if n == 14 { 'e' }
    else { 'f' }
}

/// Appends the JSON escape of one message character.
fn push_escaped(out: &mut String, c: char)
    ensures
        final(out)@ == old(out)@ + escape_char(c),
{
    if c == '"' {
        push_char(out, '\\');
        push_char(out, '"');
    } else if c == '\\' {
        push_char(out, '\\');
        push_char(out, '\\');
    } else if c == '\n' {
        push_char(out, '\\');
        push_char(out, 'n');
    } else if c == '\r' {
        push_char(out, '\\');
        push_char(out, 'r');
    } else if c == '\t' {
        push_char(out, '\\');
        push_char(out, 't');
    } else {
        let code: u32 = c as u32;
        if code < 32 {
            push_char(out, '\\');
            push_char(out, 'u');
            push_char(out, '0');
            push_char(out, '0');
            push_char(out, hex_digit(code / 16));
            push_char(out, hex_digit(code % 16));
        } else {
            push_char(out, c);
        }
    }
    proof {
        assert(out@ =~= old(out)@ + escape_char(c));
    }
}

/// The error envelope for a message: `{"error":"<escaped message>"}`.
pub fn error_envelope(msg: &str) -> (r: String)
    ensures
        r@ == error_envelope_spec(msg@),
{
    let mut out = String::new();
    push_char(&mut out, '{');
    push_char(&mut out, '"');
    push_char(&mut out, 'e');
    push_char(&mut out, 'r');
    push_char(&mut out, 'r');
    push_char(&mut out, 'o');
    push_char(&mut out, 'r');
    push_char(&mut out, '"');
    push_char(&mut out, ':');
    push_char(&mut out, '"');
    proof {
        assert(out@ =~= envelope_prefix());
    }
    let n = msg.unicode_len();
    let mut i: usize = 0;
    while i < n
        invariant
            i <= n,
            n == msg@.len(),
            out@ == envelope_prefix() + json_escaped(msg@.take(i as int)),
        decreases n - i,
    {
        let c = msg.get_char(i);
        push_escaped(&mut out, c);
        proof {
            lemma_escape_snoc(msg@.take(i as int), msg@[i as int]);
            assert(msg@.take(i as int).push(msg@[i as int]) =~= msg@.take(i as int + 1));
            assert(out@ =~= envelope_prefix() + json_escaped(msg@.take(i as int + 1)));
        }
        i += 1;
    }
    push_char(&mut out, '"');
    push_char(&mut out, '}');
    proof {
        assert(msg@.take(n as int) =~= msg@);
        assert(out@ =~= error_envelope_spec(msg@));
    }
    out
}

} // verus!
