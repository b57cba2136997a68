use vstd::prelude::*;

use crate::text::{chars_of, push_char};

verus! {

/// What is left of the text after a `//` comment whose opening was already
/// consumed: everything from the first newline on (the newline is kept), or
/// nothing when no newline follows.
pub open spec fn after_line_comment(r: Seq<char>) -> Seq<char>
    decreases r.len(),
{
    if r.len() == 0 {
        r
    } else if r[0] == '\n' {
        r
    } else {
        after_line_comment(r.drop_first())
    }
}

/// What is left of the text after a `/* ... */` comment whose opening was
/// already consumed: everything after the first `*/`, or nothing when the
/// comment is never closed.
pub open spec fn after_block_comment(r: Seq<char>) -> Seq<char>
    decreases r.len(),
{
    if r.len() < 2 {
        Seq::empty()
    } else if r[0] == '*' && r[1] == '/' {
        r.skip(2)
    } else {
        after_block_comment(r.drop_first())
    }
}

pub proof fn lemma_after_line_comment_len(r: Seq<char>)
    ensures
        after_line_comment(r).len() <= r.len(),
    decreases r.len(),
{
    if r.len() > 0 && r[0] != '\n' {
        lemma_after_line_comment_len(r.drop_first());
    }
}

pub proof fn lemma_after_block_comment_len(r: Seq<char>)
    ensures
        after_block_comment(r).len() <= r.len(),
    decreases r.len(),
{
    if r.len() >= 2 && !(r[0] == '*' && r[1] == '/') {
        lemma_after_block_comment_len(r.drop_first());
    }
}

/// The text `s` with its JSONC comments removed, read from a state that is
/// either inside a string literal (`in_string`) or outside one.
///
/// Outside strings, `//` starts a comment that runs up to (not including) the
/// next newline and `/*` starts one that runs through the next `*/`; both are
/// dropped. A `"` opens a string; inside a string every character is kept, a
/// backslash keeps the character after it whatever it is, and an unescaped
/// `"` closes the string.
pub open spec fn strip_from(s: Seq<char>, in_string: bool) -> Seq<char>
    decreases s.len(),
{
    if s.len() == 0 {
        Seq::empty()
    } else if in_string {
        if s[0] == '\\' && s.len() >= 2 {
            seq![s[0], s[1]] + strip_from(s.skip(2), true)
        } else if s[0] == '"' {
            seq![s[0]] + strip_from(s.drop_first(), false)
        } else {
            seq![s[0]] + strip_from(s.drop_first(), true)
        }
    } else if s[0] == '"' {
        seq![s[0]] + strip_from(s.drop_first(), true)
    } else if s[0] == '/' && s.len() >= 2 && s[1] == '/' {
        proof {
            lemma_after_line_comment_len(s.skip(2));
        }
        strip_from(after_line_comment(s.skip(2)), false)
    } else if s[0] == '/' && s.len() >= 2 && s[1] == '*' {
        proof {
            lemma_after_block_comment_len(s.skip(2));
        }
        strip_from(after_block_comment(s.skip(2)), false)
    } else {
        seq![s[0]] + strip_from(s.drop_first(), false)
    }
}

/// A JSONC text with its comments removed, starting outside any string.
pub open spec fn jsonc_stripped(s: Seq<char>) -> Seq<char> {
    strip_from(s, false)
}

/// Text with no `/` holds no comment, so stripping gives it back unchanged,
/// string literals and all.
pub proof fn lemma_strip_without_slash_is_identity(s: Seq<char>, in_string: bool)
    requires
        !s.contains('/'),
    ensures
        strip_from(s, in_string) == s,
    decreases s.len(),
{
    if s.len() > 0 {
        assert(s[0] != '/') by {
            assert(s.contains(s[0]));
        };
        if in_string && s[0] == '\\' && s.len() >= 2 {
            assert(!s.skip(2).contains('/')) by {
                if s.skip(2).contains('/') {
                    let k = choose|k: int| 0 <= k < s.skip(2).len() && s.skip(2)[k] == '/';
                    assert(s[k + 2] == '/');
                }
            };
            lemma_strip_without_slash_is_identity(s.skip(2), true);
            assert(seq![s[0], s[1]] + s.skip(2) =~= s);
        } else {
            assert(!s.drop_first().contains('/')) by {
                if s.drop_first().contains('/') {
                    let k = choose|k: int| 0 <= k < s.drop_first().len() && s.drop_first()[k] == '/';
                    assert(s[k + 1] == '/');
                }
            };
            let next_state = if in_string { s[0] != '"' } else { s[0] == '"' };
            lemma_strip_without_slash_is_identity(s.drop_first(), next_state);
            assert(seq![s[0]] + s.drop_first() =~= s);
        }
    }
}

/// Past a `//` with no newline after it, nothing is left.
proof fn lemma_line_comment_without_newline(r: Seq<char>)
    requires
        !r.contains('\n'),
    ensures
        after_line_comment(r) == Seq::<char>::empty(),
    decreases r.len(),
{
    if r.len() > 0 {
        assert(r[0] != '\n') by {
            assert(r.contains(r[0]));
        };
        assert(!r.drop_first().contains('\n')) by {
            if r.drop_first().contains('\n') {
                let k = choose|k: int| 0 <= k < r.drop_first().len() && r.drop_first()[k] == '\n';
                assert(r[k + 1] == '\n');
            }
        };
        lemma_line_comment_without_newline(r.drop_first());
    }
}

/// A `//` comment with no newline after it runs to the end of the text and
/// is dropped whole.
pub proof fn lemma_line_comment_at_end(t: Seq<char>)
    requires
        !t.contains('\n'),
    ensures
        strip_from(seq!['/', '/'] + t, false) == Seq::<char>::empty(),
{
    let s = seq!['/', '/'] + t;
    assert(s.skip(2) =~= t);
    assert(s.len() >= 2 && s[0] == '/' && s[1] == '/');
    lemma_line_comment_without_newline(t);
    assert(strip_from(s, false) == strip_from(after_line_comment(s.skip(2)), false));
    assert(strip_from(Seq::<char>::empty(), false) == Seq::<char>::empty());
}

/// A `//` comment runs up to its line's end: the newline and everything after
/// it are read on as they would be without the comment.
pub proof fn lemma_line_comment_to_newline(t: Seq<char>, q: Seq<char>)
    requires
        !t.contains('\n'),
    ensures
        strip_from(seq!['/', '/'] + t + seq!['\n'] + q, false) == seq!['\n'] + strip_from(q, false),
{
    let s = seq!['/', '/'] + t + seq!['\n'] + q;
    assert(s.len() >= 2 && s[0] == '/' && s[1] == '/');
    assert(s.skip(2) =~= t + (seq!['\n'] + q));
    lemma_after_line_comment_skips(t, seq!['\n'] + q);
    let r = seq!['\n'] + q;
    assert(r[0] == '\n');
    assert(after_line_comment(r) == r);
    assert(r.drop_first() =~= q);
    assert(strip_from(s, false) == strip_from(after_line_comment(s.skip(2)), false));
    assert(strip_from(r, false) == seq![r[0]] + strip_from(r.drop_first(), false));
}

proof fn lemma_after_line_comment_skips(t: Seq<char>, r: Seq<char>)
    requires
        !t.contains('\n'),
    ensures
        after_line_comment(t + r) == after_line_comment(r),
    decreases t.len(),
{
    if t.len() > 0 {
        assert(t[0] != '\n') by {
            assert(t.contains(t[0]));
        };
        assert(!t.drop_first().contains('\n')) by {
            if t.drop_first().contains('\n') {
                let k = choose|k: int| 0 <= k < t.drop_first().len() && t.drop_first()[k] == '\n';
                assert(t[k + 1] == '\n');
            }
        };
        assert((t + r).drop_first() =~= t.drop_first() + r);
        assert((t + r)[0] == t[0]);
        lemma_after_line_comment_skips(t.drop_first(), r);
    } else {
        assert(t + r =~= r);
    }
}

/// Text with no quote and no slash is kept as it stands, whatever follows it.
pub proof fn lemma_strip_plain_prefix(p: Seq<char>, s: Seq<char>)
    requires
        !p.contains('"'),
        !p.contains('/'),
    ensures
        strip_from(p + s, false) == p + strip_from(s, false),
    decreases p.len(),
{
    if p.len() > 0 {
        assert(p[0] != '"' && p[0] != '/') by {
            assert(p.contains(p[0]));
        };
        assert(!p.drop_first().contains('"') && !p.drop_first().contains('/')) by {
            if p.drop_first().contains('"') {
                let k = choose|k: int| 0 <= k < p.drop_first().len() && p.drop_first()[k] == '"';
                assert(p[k + 1] == '"');
            }
            if p.drop_first().contains('/') {
                let k = choose|k: int| 0 <= k < p.drop_first().len() && p.drop_first()[k] == '/';
                assert(p[k + 1] == '/');
            }
        };
        lemma_strip_plain_prefix(p.drop_first(), s);
        assert((p + s)[0] == p[0]);
        assert((p + s).drop_first() =~= p.drop_first() + s);
        assert(seq![p[0]] + (p.drop_first() + strip_from(s, false)) =~= p + strip_from(s, false));
    } else {
        assert(p + s =~= s);
    }
}

/// A keymap whose last line is a `//` comment loses that comment through the
/// end of the text: stripping `p // t` (with `p` free of quotes and slashes
/// and no newline in `t`) leaves `p`.
pub proof fn lemma_trailing_line_comment_dropped(p: Seq<char>, t: Seq<char>)
    requires
        !p.contains('"'),
        !p.contains('/'),
        !t.contains('\n'),
    ensures
        jsonc_stripped(p + seq!['/', '/'] + t) == p,
{
    assert(p + seq!['/', '/'] + t =~= p + (seq!['/', '/'] + t));
    lemma_strip_plain_prefix(p, seq!['/', '/'] + t);
    lemma_line_comment_at_end(t);
    assert(p + Seq::<char>::empty() =~= p);
}

/// Stripping keeps the first character of any text that does not start with `/`.
proof fn lemma_strip_keeps_first(t: Seq<char>, in_string: bool)
    requires
        t.len() > 0,
        in_string || t[0] != '/',
    ensures
        strip_from(t, in_string).len() > 0,
        strip_from(t, in_string)[0] == t[0],
{
}

/// Stripping is idempotent: the stripped text holds no comment left to strip.
pub proof fn lemma_strip_idempotent(s: Seq<char>, in_string: bool)
    ensures
        strip_from(strip_from(s, in_string), in_string) == strip_from(s, in_string),
    decreases s.len(),
{
    if s.len() == 0 {
        return;
    }
    let r = strip_from(s, in_string);
    if in_string {
        if s[0] == '\\' && s.len() >= 2 {
            let rest = strip_from(s.skip(2), true);
            lemma_strip_idempotent(s.skip(2), true);
            assert((seq![s[0], s[1]] + rest).skip(2) =~= rest);
        } else {
            let next_state = s[0] != '"';
            let rest = strip_from(s.drop_first(), next_state);
            lemma_strip_idempotent(s.drop_first(), next_state);
            assert((seq![s[0]] + rest).drop_first() =~= rest);
            if s[0] == '\\' {
                assert(s.drop_first().len() == 0);
                assert(rest =~= Seq::<char>::empty());
            }
        }
    } else if s[0] == '"' {
        let rest = strip_from(s.drop_first(), true);
        lemma_strip_idempotent(s.drop_first(), true);
        assert((seq![s[0]] + rest).drop_first() =~= rest);
    } else if s[0] == '/' && s.len() >= 2 && s[1] == '/' {
        lemma_after_line_comment_len(s.skip(2));
        lemma_strip_idempotent(after_line_comment(s.skip(2)), false);
    } else if s[0] == '/' && s.len() >= 2 && s[1] == '*' {
        lemma_after_block_comment_len(s.skip(2));
        lemma_strip_idempotent(after_block_comment(s.skip(2)), false);
    } else {
        let rest = strip_from(s.drop_first(), false);
        lemma_strip_idempotent(s.drop_first(), false);
        assert((seq![s[0]] + rest).drop_first() =~= rest);
        if s.len() >= 2 {
            if s[0] == '/' {
                lemma_strip_keeps_first(s.drop_first(), false);
            }
        } else {
            assert(rest =~= Seq::<char>::empty());
        }
    }
}

/// Stripping never lengthens the text.
pub proof fn lemma_strip_shortens(s: Seq<char>, in_string: bool)
    ensures
        strip_from(s, in_string).len() <= s.len(),
    decreases s.len(),
{
    if s.len() > 0 {
        if in_string && s[0] == '\\' && s.len() >= 2 {
            lemma_strip_shortens(s.skip(2), true);
        } else if !in_string && s[0] == '/' && s.len() >= 2 && s[1] == '/' {
            lemma_after_line_comment_len(s.skip(2));
            lemma_strip_shortens(after_line_comment(s.skip(2)), false);
        } else if !in_string && s[0] == '/' && s.len() >= 2 && s[1] == '*' {
            lemma_after_block_comment_len(s.skip(2));
            lemma_strip_shortens(after_block_comment(s.skip(2)), false);
        } else {
            let next_state = if in_string { s[0] != '"' } else { s[0] == '"' };
            lemma_strip_shortens(s.drop_first(), next_state);
        }
    }
}

/// Minimal JSONC comment stripper (handles // line comments and /* block comments */).
pub fn strip_jsonc_comments(input: &str) -> (r: String)
    ensures
        r@ == jsonc_stripped(input@),
{
    let mut out = String::new();
    let chars = chars_of(input);
    let len = chars.len();
    let mut i: usize = 0;
    let mut in_string = false;
    let ghost s = chars@;
    assert(s.skip(0) =~= s);

    while i < len
        invariant
            s == chars@,
            s == input@,
            len == s.len(),
            i <= len,
            out@ + strip_from(s.skip(i as int), in_string) == jsonc_stripped(s),
        decreases len - i,
    {
        let ghost rest = s.skip(i as int);
        let ghost i0 = i;
        assert(rest[0] == s[i as int]);
        if in_string {
            push_char(&mut out, chars[i]);
            if chars[i] == '\\' && i + 1 < len {
                i += 1;
                push_char(&mut out, chars[i]);
                assert(rest[1] == s[i as int]);
                assert(rest.skip(2) =~= s.skip(i + 1));
            } else if chars[i] == '"' {
                in_string = false;
                assert(rest.drop_first() =~= s.skip(i + 1));
            } else {
                assert(rest.drop_first() =~= s.skip(i + 1));
            }
            i += 1;
            continue;
        }
        if chars[i] == '"' {
            in_string = true;
            push_char(&mut out, chars[i]);
            assert(rest.drop_first() =~= s.skip(i + 1));
            i += 1;
            continue;
        }
        if chars[i] == '/' && i + 1 < len {
            assert(rest[1] == s[i + 1]);
            if chars[i + 1] == '/' {
                // Skip to end of line
                i += 2;
                assert(rest.skip(2) =~= s.skip(i as int));
                let ghost start = s.skip(i as int);
                while i < len && chars[i] != '\n'
                    invariant
                        s == chars@,
                        len == s.len(),
                        i <= len,
                        i0 < i,
                        after_line_comment(s.skip(i as int)) == after_line_comment(start),
                    decreases len - i,
                {
                    assert(s.skip(i as int).drop_first() =~= s.skip(i + 1));
                    i += 1;
                }
                continue;
            } else if chars[i + 1] == '*' {
                // Skip to */
                i += 2;
                assert(rest.skip(2) =~= s.skip(i as int));
                let ghost start = s.skip(i as int);
                while i < len - 1 && !(chars[i] == '*' && chars[i + 1] == '/')
                    invariant
                        i0 < i,
                        len >= 2,
                        s == chars@,
                        len == s.len(),
                        i <= len,
                        after_block_comment(s.skip(i as int)) == after_block_comment(start),
                    decreases len - i,
                {
                    assert(s.skip(i as int).drop_first() =~= s.skip(i + 1));
                    i += 1;
                }
                if i < len - 1 {
                    // skip */
                    assert(s.skip(i as int).skip(2) =~= s.skip(i + 2));
                    i += 2;
                } else {
                    // the comment is never closed: nothing is left
                    assert(s.skip(len as int) =~= Seq::<char>::empty());
                    i = len;
                }
                continue;
            }
        }
        push_char(&mut out, chars[i]);
        assert(rest.drop_first() =~= s.skip(i + 1));
        i += 1;
    }
    assert(s.skip(i as int) =~= Seq::<char>::empty());
    out
}

/// The white space JSON allows between tokens.
pub open spec fn is_json_space(c: char) -> bool {
    c == ' ' || c == '\t' || c == '\n' || c == '\r'
}

/// Whether the first character of `r` that is not JSON white space closes an
/// array or an object.
pub open spec fn closes_next(r: Seq<char>) -> bool
    decreases r.len(),
{
    if r.len() == 0 {
        false
    } else if is_json_space(r[0]) {
        closes_next(r.drop_first())
    } else {
        r[0] == ']' || r[0] == '}'
    }
}

/// The text `s` without its trailing commas, read from a state that is either
/// inside a string literal (`in_string`) or outside one.
///
/// Outside strings, a `,` whose next character other than white space is `]`
/// or `}` is dropped; everything else is kept. Strings are read as in
/// [`strip_from`]: a backslash keeps the character after it, an unescaped `"`
/// closes the string.
pub open spec fn commas_from(s: Seq<char>, in_string: bool) -> Seq<char>
    decreases s.len(),
{
    if s.len() == 0 {
        Seq::empty()
    } else if in_string {
        if s[0] == '\\' && s.len() >= 2 {
            seq![s[0], s[1]] + commas_from(s.skip(2), true)
        } else if s[0] == '"' {
            seq![s[0]] + commas_from(s.drop_first(), false)
        } else {
            seq![s[0]] + commas_from(s.drop_first(), true)
        }
    } else if s[0] == '"' {
        seq![s[0]] + commas_from(s.drop_first(), true)
    } else if s[0] == ',' && closes_next(s.drop_first()) {
        commas_from(s.drop_first(), false)
    } else {
        seq![s[0]] + commas_from(s.drop_first(), false)
    }
}

/// A JSONC text with its trailing commas removed, starting outside any string.
pub open spec fn without_trailing_commas(s: Seq<char>) -> Seq<char> {
    commas_from(s, false)
}

/// Text with no comma has no trailing comma to drop: it is given back
/// unchanged.
pub proof fn lemma_no_comma_is_identity(s: Seq<char>, in_string: bool)
    requires
        !s.contains(','),
    ensures
        commas_from(s, in_string) == s,
    decreases s.len(),
{
    if s.len() > 0 {
        assert(s[0] != ',') by {
            assert(s.contains(s[0]));
        };
        if in_string && s[0] == '\\' && s.len() >= 2 {
            assert(!s.skip(2).contains(',')) by {
                if s.skip(2).contains(',') {
                    let k = choose|k: int| 0 <= k < s.skip(2).len() && s.skip(2)[k] == ',';
                    assert(s[k + 2] == ',');
                }
            };
            lemma_no_comma_is_identity(s.skip(2), true);
            assert(seq![s[0], s[1]] + s.skip(2) =~= s);
        } else {
            assert(!s.drop_first().contains(',')) by {
                if s.drop_first().contains(',') {
                    let k = choose|k: int| 0 <= k < s.drop_first().len() && s.drop_first()[k] == ',';
                    assert(s[k + 1] == ',');
                }
            };
            let next_state = if in_string { s[0] != '"' } else { s[0] == '"' };
            lemma_no_comma_is_identity(s.drop_first(), next_state);
            assert(seq![s[0]] + s.drop_first() =~= s);
        }
    }
}

fn json_space(c: char) -> (r: bool)
    ensures
        r == is_json_space(c),
{
    c == ' ' || c == '\t' || c == '\n' || c == '\r'
}

/// Removes the trailing commas of a JSONC text (a `,` that only white space
/// separates from the `]` or `}` after it), which JSON does not accept.
pub fn remove_trailing_commas(input: &str) -> (r: String)
    ensures
        r@ == without_trailing_commas(input@),
{
    let mut out = String::new();
    let chars = chars_of(input);
    let len = chars.len();
    let mut i: usize = 0;
    let mut in_string = false;
    let ghost s = chars@;
    assert(s.skip(0) =~= s);
    while i < len
        invariant
            s == chars@,
            s == input@,
            len == s.len(),
            i <= len,
            out@ + commas_from(s.skip(i as int), in_string) == without_trailing_commas(s),
        decreases len - i,
    {
        let ghost rest = s.skip(i as int);
        assert(rest[0] == s[i as int]);
        assert(rest.drop_first() =~= s.skip(i + 1));
        let c = chars[i];
        if in_string {
            push_char(&mut out, c);
            if c == '\\' && i + 1 < len {
                i += 1;
                push_char(&mut out, chars[i]);
                assert(rest[1] == s[i as int]);
                assert(rest.skip(2) =~= s.skip(i + 1));
            } else if c == '"' {
                in_string = false;
            }
            i += 1;
        } else if c == '"' {
            in_string = true;
            push_char(&mut out, c);
            i += 1;
        } else if c == ',' {
            let mut j: usize = i + 1;
            while j < len && json_space(chars[j])
                invariant
                    s == chars@,
                    len == s.len(),
                    i < j <= len,
                    closes_next(s.skip(j as int)) == closes_next(s.skip(i + 1)),
                decreases len - j,
            {
                assert(s.skip(j as int).drop_first() =~= s.skip(j + 1));
                j += 1;
            }
            let closes = j < len && (chars[j] == ']' || chars[j] == '}');
            assert(closes == closes_next(s.skip(j as int))) by {
                if j < len {
                    assert(s.skip(j as int)[0] == s[j as int]);
                }
            };
            if !closes {
                push_char(&mut out, c);
            }
            i += 1;
        } else {
            push_char(&mut out, c);
            i += 1;
        }
    }
    assert(s.skip(i as int) =~= Seq::<char>::empty());
    out
}

} // verus!
