use vstd::prelude::*;

verus! {

broadcast use vstd::string::group_string_axioms;

/// Appends one character to a string (`String::push`); the contract states
/// what its documentation says: the string grows by exactly that character.
#[verifier::external_body]
pub(crate) fn push_char(s: &mut String, c: char)
    ensures
        final(s)@ == old(s)@.push(c),
{
    s.push(c);
}

/// The characters of a string slice, in order.
pub fn chars_of(s: &str) -> (r: Vec<char>)
    ensures
        r@ == s@,
{
    let mut v: Vec<char> = Vec::new();
    for c in it: s.chars()
        invariant
            it.seq() == s@,
            v@ == it.seq().take(it.index() as int),
    {
        v.push(c);
    }
    v
}

/// The white space of `char::is_whitespace`: the characters with the Unicode
/// `White_Space` property.
pub open spec fn is_white_space(c: char) -> bool {
    ||| c == '\t'
    ||| c == '\n'
    ||| c == '\u{0B}'
    ||| c == '\u{0C}'
    ||| c == '\r'
    ||| c == ' '
    ||| c == '\u{85}'
    ||| c == '\u{A0}'
    ||| c == '\u{1680}'
    ||| ('\u{2000}' <= c && c <= '\u{200A}')
    ||| c == '\u{2028}'
    ||| c == '\u{2029}'
    ||| c == '\u{202F}'
    ||| c == '\u{205F}'
    ||| c == '\u{3000}'
}

/// Whether a character is white space.
pub fn white_space(c: char) -> (r: bool)
    ensures
        r == is_white_space(c),
{
    c == '\t' || c == '\n' || c == '\u{0B}' || c == '\u{0C}' || c == '\r' || c == ' ' || c
        == '\u{85}' || c == '\u{A0}' || c == '\u{1680}' || ('\u{2000}' <= c && c <= '\u{200A}')
        || c == '\u{2028}' || c == '\u{2029}' || c == '\u{202F}' || c == '\u{205F}' || c
        == '\u{3000}'
}

/// The text without its leading white space.
pub open spec fn trim_start(s: Seq<char>) -> Seq<char>
    decreases s.len(),
{
    if s.len() > 0 && is_white_space(s[0]) {
        trim_start(s.drop_first())
    } else {
        s
    }
}

/// The text without its trailing white space.
pub open spec fn trim_end(s: Seq<char>) -> Seq<char>
    decreases s.len(),
{
    if s.len() > 0 && is_white_space(s.last()) {
        trim_end(s.drop_last())
    } else {
        s
    }
}

/// The text without leading and trailing white space (what `str::trim` gives).
pub open spec fn trimmed(s: Seq<char>) -> Seq<char> {
    trim_end(trim_start(s))
}

/// The text without leading and trailing white space.
pub fn trim_text(s: &str) -> (r: &str)
    ensures
        r@ == trimmed(s@),
{
    let cs = chars_of(s);
    let mut a: usize = 0;
    assert(cs@.skip(0) =~= cs@);
    while a < cs.len() && white_space(cs[a])
        invariant
            cs@ == s@,
            a <= cs.len(),
            trim_start(cs@.skip(a as int)) == trim_start(s@),
        decreases cs.len() - a,
    {
        assert(cs@.skip(a as int).drop_first() =~= cs@.skip(a + 1));
        a += 1;
    }
    let mut b: usize = cs.len();
    assert(cs@.skip(a as int).take(b - a) =~= cs@.skip(a as int));
    while b > a && white_space(cs[b - 1])
        invariant
            cs@ == s@,
            a <= b <= cs.len(),
            trim_end(cs@.subrange(a as int, b as int)) == trimmed(s@),
        decreases b,
    {
        assert(cs@.subrange(a as int, b as int).drop_last() =~= cs@.subrange(a as int, b - 1));
        b -= 1;
    }
    s.substring_char(a, b)
}

/// The character of a decimal digit.
pub open spec fn digit_char(d: nat) -> char {
    ((48 + d) as u8) as char
}

/// The decimal numeral of a natural number, without leading zeros.
pub open spec fn decimal(n: nat) -> Seq<char>
    decreases n,
{
    if n < 10 {
        seq![digit_char(n)]
    } else {
        decimal(n / 10).push(digit_char(n % 10))
    }
}

/// The decimal numeral of `n`, as `format!("{}", n)` writes it.
pub fn to_decimal(n: u128) -> (r: String)
    ensures
        r@ == decimal(n as nat),
    decreases n,
{
    let d = ((n % 10) as u8 + 48u8) as char;
    assert(d == digit_char((n % 10) as nat));
    if n < 10 {
        let mut s = String::new();
        push_char(&mut s, d);
        assert(s@ =~= seq![digit_char(n as nat)]);
        s
    } else {
        let mut s = to_decimal(n / 10);
        push_char(&mut s, d);
        s
    }
}

/// The texts one after the other.
pub open spec fn concat_all(parts: Seq<Seq<char>>) -> Seq<char>
    decreases parts.len(),
{
    if parts.len() == 0 {
        Seq::empty()
    } else {
        concat_all(parts.drop_last()) + parts.last()
    }
}

/// Whether `part` stands in `text` starting at offset `k`.
pub open spec fn occurs_at(text: Seq<char>, part: Seq<char>, k: int) -> bool {
    0 <= k && k + part.len() <= text.len() && text.subrange(k, k + part.len()) == part
}

/// Concatenating two lists of texts concatenates their concatenations.
pub proof fn lemma_concat_all_add(a: Seq<Seq<char>>, b: Seq<Seq<char>>)
    ensures
        concat_all(a + b) == concat_all(a) + concat_all(b),
    decreases b.len(),
{
    if b.len() == 0 {
        assert(a + b =~= a);
    } else {
        assert((a + b).drop_last() =~= a + b.drop_last());
        lemma_concat_all_add(a, b.drop_last());
    }
}

/// Each text of a list stands in the list's concatenation, right after the
/// texts before it.
pub proof fn lemma_concat_all_holds(parts: Seq<Seq<char>>, i: int)
    requires
        0 <= i < parts.len(),
    ensures
        occurs_at(concat_all(parts), parts[i], concat_all(parts.take(i)).len() as int),
{
    let before = parts.take(i);
    let after = parts.skip(i + 1);
    assert(parts =~= before + seq![parts[i]] + after);
    lemma_concat_all_add(before + seq![parts[i]], after);
    lemma_concat_all_add(before, seq![parts[i]]);
    assert(concat_all(seq![parts[i]]) =~= parts[i]) by {
        assert(seq![parts[i]].drop_last() =~= Seq::<Seq<char>>::empty());
        assert(concat_all(Seq::<Seq<char>>::empty()) == Seq::<char>::empty());
        assert(seq![parts[i]].last() == parts[i]);
    }
    let whole = concat_all(before) + parts[i] + concat_all(after);
    assert(whole.subrange(concat_all(before).len() as int, (concat_all(before).len() + parts[i].len()) as int)
        =~= parts[i]);
}

/// A text that stands in `x` stands in any text around `x`, shifted by what
/// comes before.
pub proof fn lemma_occurs_around(a: Seq<char>, x: Seq<char>, b: Seq<char>, part: Seq<char>, k: int)
    requires
        occurs_at(x, part, k),
    ensures
        occurs_at(a + x + b, part, a.len() + k),
{
    assert((a + x + b).subrange(a.len() + k, a.len() + k + part.len()) =~= x.subrange(
        k,
        k + part.len(),
    ));
}

/// The concatenation of a prefix of a list is no longer than that of a longer
/// prefix, by the texts in between.
pub proof fn lemma_concat_all_prefix(parts: Seq<Seq<char>>, i: int, j: int)
    requires
        0 <= i <= j <= parts.len(),
    ensures
        concat_all(parts.take(i)).len() <= concat_all(parts.take(j)).len(),
        i < j ==> concat_all(parts.take(i)).len() + parts[i].len() <= concat_all(parts.take(j)).len(),
{
    assert(parts.take(j) =~= parts.take(i) + parts.subrange(i, j));
    lemma_concat_all_add(parts.take(i), parts.subrange(i, j));
    if i < j {
        let mid = parts.subrange(i, j);
        assert(mid =~= seq![parts[i]] + mid.skip(1));
        lemma_concat_all_add(seq![parts[i]], mid.skip(1));
        assert(seq![parts[i]].drop_last() =~= Seq::<Seq<char>>::empty());
        assert(concat_all(Seq::<Seq<char>>::empty()) == Seq::<char>::empty());
        assert(concat_all(seq![parts[i]]) =~= parts[i]);
    }
}

/// The texts with `sep` between each two of them.
pub open spec fn join(parts: Seq<Seq<char>>, sep: Seq<char>) -> Seq<char>
    decreases parts.len(),
{
    if parts.len() == 0 {
        Seq::empty()
    } else if parts.len() == 1 {
        parts[0]
    } else {
        join(parts.drop_last(), sep) + sep + parts.last()
    }
}

/// The views of a list of strings.
pub open spec fn texts(v: Seq<String>) -> Seq<Seq<char>> {
    v.map_values(|s: String| s@)
}

/// Joins the strings with `sep` between each two of them.
pub fn join_strings(parts: &Vec<String>, sep: &str) -> (r: String)
    ensures
        r@ == join(texts(parts@), sep@),
{
    let mut out = String::new();
    let ghost ps = texts(parts@);
    let mut i: usize = 0;
    assert(ps.take(0) =~= Seq::<Seq<char>>::empty());
    while i < parts.len()
        invariant
            i <= parts@.len(),
            ps == texts(parts@),
            out@ == join(ps.take(i as int), sep@),
        decreases parts@.len() - i,
    {
        assert(ps.take(i + 1).drop_last() =~= ps.take(i as int));
        assert(ps.take(i + 1).last() == parts@[i as int]@);
        if i != 0 {
            out.append(sep);
        } else {
            assert(ps.take(1) =~= seq![ps[0]]);
        }
        out.append(parts[i].as_str());
        i += 1;
    }
    assert(ps.take(i as int) =~= ps);
    out
}

/// The character `c`, `n` times.
pub open spec fn repeat_char(c: char, n: nat) -> Seq<char> {
    Seq::new(n, |i: int| c)
}

/// Appends `n` copies of `c`.
pub fn push_repeated(s: &mut String, c: char, n: usize)
    ensures
        final(s)@ == old(s)@ + repeat_char(c, n as nat),
{
    let mut i: usize = 0;
    while i < n
        invariant
            i <= n,
            s@ == old(s)@ + repeat_char(c, i as nat),
        decreases n - i,
    {
        push_char(s, c);
        assert(old(s)@ + repeat_char(c, (i + 1) as nat) =~= (old(s)@ + repeat_char(c, i as nat)).push(c));
        i += 1;
    }
}

/// What `str::to_lowercase` returns for a text. It depends on the text
/// alone; the Unicode lowercase mapping itself is not written out here.
pub uninterp spec fn lowercase(s: Seq<char>) -> Seq<char>;

/// Calls `str::to_lowercase`; the contract names its result (`lowercase`).
#[verifier::external_body]
pub(crate) fn to_lowercase(s: &str) -> (r: String)
    ensures
        r@ == lowercase(s@),
{
    s.to_lowercase()
}

} // verus!
