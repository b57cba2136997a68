use vstd::prelude::*;
use crate::text::{chars_of, push_char};

verus! {

broadcast use vstd::string::group_string_axioms;

/// The lower-case hexadecimal digit of `n` (for `0 <= n < 16`).
pub open spec fn hex_char(n: int) -> char {
    if n < 10 {
        (48 + n) as char
    } else {
        (87 + n) as char
    }
}

/// How one character is written inside a JSON string literal: the quote and
/// the backslash behind a backslash, the control characters with a short
/// escape where JSON has one and as `\u00XX` otherwise, every other character
/// as it stands.
pub open spec fn json_escape_char(c: char) -> Seq<char> {
    if c == '"' {
        seq!['\\', '"']
    } else if c == '\\' {
        seq!['\\', '\\']
    } else if c == '\n' {
        seq!['\\', 'n']
    } else if c == '\r' {
        seq!['\\', 'r']
    } else if c == '\t' {
        seq!['\\', 't']
    } else if c == '\x08' {
        seq!['\\', 'b']
    } else if c == '\x0c' {
        seq!['\\', 'f']
    } else if (c as u32) < 0x20 {
        seq!['\\', 'u', '0', '0', hex_char((c as u32) as int / 16), hex_char((c as u32) as int % 16)]
    } else {
        seq![c]
    }
}

/// The body of the JSON string literal for `s` (without the enclosing quotes).
pub open spec fn json_escaped(s: Seq<char>) -> Seq<char>
    decreases s.len(),
{
    if s.len() == 0 {
        Seq::empty()
    } else {
        json_escape_char(s[0]) + json_escaped(s.drop_first())
    }
}

/// The value of a hexadecimal digit of either case.
pub open spec fn hex_value(c: char) -> Option<int> {
    if '0' <= c && c <= '9' {
        Some(c as int - 48)
    } else if 'a' <= c && c <= 'f' {
        Some(c as int - 87)
    } else if 'A' <= c && c <= 'F' {
        Some(c as int - 55)
    } else {
        None
    }
}

/// The character a two-character escape `\c` stands for in JSON.
pub open spec fn short_escape(c: char) -> Option<char> {
    if c == '"' {
        Some('"')
    } else if c == '\\' {
        Some('\\')
    } else if c == '/' {
        Some('/')
    } else if c == 'b' {
        Some('\x08')
    } else if c == 'f' {
        Some('\x0c')
    } else if c == 'n' {
        Some('\n')
    } else if c == 'r' {
        Some('\r')
    } else if c == 't' {
        Some('\t')
    } else {
        None
    }
}

/// How the body of a string literal reads by JSON's string rules: `None` where the body
/// is not valid (a bare quote or control character, an unknown or cut-off
/// escape, a `\u` escape of a surrogate half), else the characters it stands
/// for.
pub open spec fn json_unescape(t: Seq<char>) -> Option<Seq<char>>
    decreases t.len(),
{
    if t.len() == 0 {
        Some(Seq::empty())
    } else if t[0] == '"' || (t[0] as u32) < 0x20 {
        None
    } else if t[0] != '\\' {
        match json_unescape(t.drop_first()) {
            Some(rest) => Some(seq![t[0]] + rest),
            None => None,
        }
    } else if t.len() < 2 {
        None
    } else if t[1] == 'u' {
        if t.len() < 6 {
            None
        } else {
            match (hex_value(t[2]), hex_value(t[3]), hex_value(t[4]), hex_value(t[5])) {
                (Some(a), Some(b), Some(c), Some(d)) => {
                    let v = a * 4096 + b * 256 + c * 16 + d;
                    if 0xD800 <= v && v <= 0xDFFF {
                        None
                    } else {
                        match json_unescape(t.subrange(6, t.len() as int)) {
                            Some(rest) => Some(seq![v as char] + rest),
                            None => None,
                        }
                    }
                },
                _ => None,
            }
        }
    } else {
        match short_escape(t[1]) {
            Some(c) => match json_unescape(t.subrange(2, t.len() as int)) {
                Some(rest) => Some(seq![c] + rest),
                None => None,
            },
            None => None,
        }
    }
}

/// Escaping a concatenation escapes each part.
pub proof fn lemma_escaped_concat(a: Seq<char>, b: Seq<char>)
    ensures
        json_escaped(a + b) == json_escaped(a) + json_escaped(b),
    decreases a.len(),
{
    if a.len() == 0 {
        assert(a + b =~= b);
    } else {
        assert((a + b).drop_first() =~= a.drop_first() + b);
        lemma_escaped_concat(a.drop_first(), b);
        assert(json_escaped(a + b) =~= json_escaped(a) + json_escaped(b));
    }
}

proof fn lemma_hex_digit_reads_back(n: int)
    requires
        0 <= n < 16,
    ensures
        hex_value(hex_char(n)) == Some(n),
{
    if n < 10 {
        assert(((48 + n) as char) as int == 48 + n);
    } else {
        assert(((87 + n) as char) as int == 87 + n);
    }
}

/// Read by JSON's string rules, the escaped text of any string gives back that
/// string: the text is a valid string body and loses nothing.
pub proof fn lemma_escaped_reads_back(s: Seq<char>)
    ensures
        json_unescape(json_escaped(s)) == Some(s),
    decreases s.len(),
{
    if s.len() > 0 {
        let c = s[0];
        let e = json_escape_char(c);
        let rest = json_escaped(s.drop_first());
        let t = e + rest;
        lemma_escaped_reads_back(s.drop_first());
        assert(json_escaped(s) == t);
        assert(t.subrange(e.len() as int, t.len() as int) =~= rest);
        assert(seq![c] + s.drop_first() =~= s);
        if (c as u32) < 0x20 && c != '\n' && c != '\r' && c != '\t' && c != '\x08' && c != '\x0c' {
            let code = c as u32;
            let hi = code / 16;
            let lo = code % 16;
            assert(0 <= hi < 16 && hi * 16 + lo == code) by (nonlinear_arith)
                requires
                    0 <= code < 0x20,
                    hi == code / 16,
                    lo == code % 16,
            ;
            lemma_hex_digit_reads_back(hi as int);
            lemma_hex_digit_reads_back(lo as int);
            assert(t[2] == '0' && t[3] == '0' && t[4] == hex_char(hi as int) && t[5] == hex_char(lo as int));
            vstd::utf8::char_u32_cast(c, code);
            assert((code as int) as char == c);
        }
        assert(json_unescape(t) == Some(s));
    }
}

/// The hexadecimal digit of `n` as a character.
fn hex_digit(n: u32) -> (r: char)
    requires
        n < 16,
    ensures
        r == hex_char(n as int),
{
    let b: u8 = n as u8;
    if b < 10 {
        (48u8 + b) as char
    } else {
        (87u8 + b) as char
    }
}

/// Appends the JSON escape of one character.
fn push_escaped_char(out: &mut String, c: char)
    ensures
        final(out)@ == old(out)@ + json_escape_char(c),
{
    let code: u32 = c as u32;
    if c == '"' {
        push_char(out, '\\');
        push_char(out, '"');
    } else if c == '\\' {
        push_char(out, '\\');
        push_char(out, '\\');
    } else if c == '\n' {
        push_char(out, '\\');
        push_char(out, 'n');
    } else if c == '\r' {
        push_char(out, '\\');
        push_char(out, 'r');
    } else if c == '\t' {
        push_char(out, '\\');
        push_char(out, 't');
    } else if c == '\x08' {
        push_char(out, '\\');
        push_char(out, 'b');
    } else if c == '\x0c' {
        push_char(out, '\\');
        push_char(out, 'f');
    } else if code < 0x20 {
        push_char(out, '\\');
        push_char(out, 'u');
        push_char(out, '0');
        push_char(out, '0');
        push_char(out, hex_digit(code / 16));
        push_char(out, hex_digit(code % 16));
    } else {
        push_char(out, c);
    }
    assert(final(out)@ =~= old(out)@ + json_escape_char(c));
}

/// Appends the body of the JSON string literal for `s`.
pub fn push_json_escaped(out: &mut String, s: &str)
    ensures
        final(out)@ == old(out)@ + json_escaped(s@),
{
    let cs = chars_of(s);
    let ghost start = out@;
    let mut i: usize = 0;
    while i < cs.len()
        invariant
            cs@ == s@,
            i <= cs@.len(),
            out@ == start + json_escaped(cs@.take(i as int)),
        decreases cs@.len() - i,
    {
        let c = cs[i];
        push_escaped_char(out, c);
        proof {
            assert(cs@.take(i + 1) =~= cs@.take(i as int) + seq![c]);
            lemma_escaped_concat(cs@.take(i as int), seq![c]);
            assert(json_escaped(seq![c]) =~= json_escape_char(c) + json_escaped(seq![c].drop_first()));
            assert(seq![c].drop_first() =~= Seq::<char>::empty());
        }
        i += 1;
    }
    assert(cs@.take(i as int) =~= s@);
}

/// The body of the JSON string literal for `s`.
pub fn json_escape(s: &str) -> (r: String)
    ensures
        r@ == json_escaped(s@),
{
    let mut out = String::new();
    push_json_escaped(&mut out, s);
    out
}

} // verus!
