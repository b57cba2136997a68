use vstd::prelude::*;

use crate::text::chars_of;

verus! {

/// The order of `str`: lexicographic by code point, a proper prefix coming
/// first. (UTF-8 keeps code-point order, so this is also the byte order that
/// `str` compares by.)
pub open spec fn text_less(a: Seq<char>, b: Seq<char>) -> bool
    decreases a.len(),
{
    if a.len() == 0 {
        b.len() > 0
    } else if b.len() == 0 {
        false
    } else if a[0] != b[0] {
        (a[0] as int) < (b[0] as int)
    } else {
        text_less(a.drop_first(), b.drop_first())
    }
}

/// A sequence of texts in strictly ascending order (so without repeats).
pub open spec fn strictly_ascending(ks: Seq<Seq<char>>) -> bool {
    forall|i: int, j: int| 0 <= i < j < ks.len() ==> text_less(#[trigger] ks[i], #[trigger] ks[j])
}

pub proof fn lemma_text_less_irreflexive(a: Seq<char>)
    ensures
        !text_less(a, a),
    decreases a.len(),
{
    if a.len() > 0 {
        lemma_text_less_irreflexive(a.drop_first());
    }
}

pub proof fn lemma_text_less_transitive(a: Seq<char>, b: Seq<char>, c: Seq<char>)
    requires
        text_less(a, b),
        text_less(b, c),
    ensures
        text_less(a, c),
    decreases a.len(),
{
    if a.len() > 0 && a[0] == b[0] && b[0] == c[0] {
        lemma_text_less_transitive(a.drop_first(), b.drop_first(), c.drop_first());
    }
}

pub proof fn lemma_text_less_total(a: Seq<char>, b: Seq<char>)
    requires
        a != b,
    ensures
        text_less(a, b) || text_less(b, a),
    decreases a.len(),
{
    if a.len() > 0 && b.len() > 0 && a[0] == b[0] {
        if a.drop_first() == b.drop_first() {
            assert(a =~= seq![a[0]] + a.drop_first());
            assert(b =~= seq![b[0]] + b.drop_first());
        }
        lemma_text_less_total(a.drop_first(), b.drop_first());
    } else if a.len() == 0 && b.len() == 0 {
        assert(a =~= b);
    }
}

pub proof fn lemma_text_less_asymmetric(a: Seq<char>, b: Seq<char>)
    requires
        text_less(a, b),
    ensures
        !text_less(b, a),
{
    if text_less(b, a) {
        lemma_text_less_transitive(a, b, a);
        lemma_text_less_irreflexive(a);
    }
}

/// Two strictly ascending sequences that hold the same texts are equal.
pub proof fn lemma_strictly_ascending_unique(k1: Seq<Seq<char>>, k2: Seq<Seq<char>>)
    requires
        strictly_ascending(k1),
        strictly_ascending(k2),
        k1.to_set() == k2.to_set(),
    ensures
        k1 == k2,
    decreases k1.len(),
{
    if k1.len() == 0 {
        if k2.len() > 0 {
            assert(k2.to_set().contains(k2[0]));
            assert(!k1.to_set().contains(k2[0]));
        }
        assert(k1 =~= k2);
        return;
    }
    assert(k1.to_set().contains(k1[0]));
    assert(k2.to_set().contains(k1[0]));
    let j = choose|j: int| 0 <= j < k2.len() && k2[j] == k1[0];
    assert(k2.to_set().contains(k2[0]));
    assert(k1.to_set().contains(k2[0]));
    let i = choose|i: int| 0 <= i < k1.len() && k1[i] == k2[0];
    if i > 0 && j > 0 {
        assert(text_less(k1[0], k1[i]));
        assert(text_less(k2[0], k2[j]));
        lemma_text_less_asymmetric(k1[0], k2[0]);
    } else if i > 0 {
        assert(text_less(k1[0], k1[i]));
        lemma_text_less_irreflexive(k1[0]);
    } else if j > 0 {
        assert(text_less(k2[0], k2[j]));
        lemma_text_less_irreflexive(k2[0]);
    }
    assert(k1[0] == k2[0]);
    let t1 = k1.drop_first();
    let t2 = k2.drop_first();
    assert(strictly_ascending(t1)) by {
        assert forall|a: int, b: int| 0 <= a < b < t1.len() implies text_less(
            #[trigger] t1[a],
            #[trigger] t1[b],
        ) by {
            assert(t1[a] == k1[a + 1] && t1[b] == k1[b + 1]);
        }
    };
    assert(strictly_ascending(t2)) by {
        assert forall|a: int, b: int| 0 <= a < b < t2.len() implies text_less(
            #[trigger] t2[a],
            #[trigger] t2[b],
        ) by {
            assert(t2[a] == k2[a + 1] && t2[b] == k2[b + 1]);
        }
    };
    assert(t1.to_set() =~= t2.to_set()) by {
        assert forall|x: Seq<char>| t1.to_set().contains(x) implies t2.to_set().contains(x) by {
            let a = choose|a: int| 0 <= a < t1.len() && t1[a] == x;
            assert(k1[a + 1] == x);
            assert(k2.to_set().contains(x));
            let b = choose|b: int| 0 <= b < k2.len() && k2[b] == x;
            if b == 0 {
                assert(text_less(k1[0], k1[a + 1]));
                lemma_text_less_irreflexive(x);
            }
            assert(t2[b - 1] == x);
        }
        assert forall|x: Seq<char>| t2.to_set().contains(x) implies t1.to_set().contains(x) by {
            let b = choose|b: int| 0 <= b < t2.len() && t2[b] == x;
            assert(k2[b + 1] == x);
            assert(k1.to_set().contains(x));
            let a = choose|a: int| 0 <= a < k1.len() && k1[a] == x;
            if a == 0 {
                assert(text_less(k2[0], k2[b + 1]));
                lemma_text_less_irreflexive(x);
            }
            assert(t1[a - 1] == x);
        }
    };
    lemma_strictly_ascending_unique(t1, t2);
    assert(k1 =~= seq![k1[0]] + t1);
    assert(k2 =~= seq![k2[0]] + t2);
}

/// Whether `a` comes strictly before `b` in the order of `str`.
pub fn text_precedes(a: &str, b: &str) -> (r: bool)
    ensures
        r == text_less(a@, b@),
{
    let x = chars_of(a);
    let y = chars_of(b);
    let mut i: usize = 0;
    assert(x@.skip(0) =~= x@);
    assert(y@.skip(0) =~= y@);
    while i < x.len() && i < y.len()
        invariant
            x@ == a@,
            y@ == b@,
            i <= x.len(),
            i <= y.len(),
            forall|j: int| 0 <= j < i ==> x@[j] == y@[j],
            text_less(x@.skip(i as int), y@.skip(i as int)) == text_less(a@, b@),
        decreases x.len() - i,
    {
        assert(x@.skip(i as int)[0] == x@[i as int]);
        assert(y@.skip(i as int)[0] == y@[i as int]);
        if x[i] != y[i] {
            return x[i] < y[i];
        }
        assert(x@.skip(i as int).drop_first() =~= x@.skip(i + 1));
        assert(y@.skip(i as int).drop_first() =~= y@.skip(i + 1));
        i += 1;
    }
    assert(x@.skip(i as int).len() == 0 || y@.skip(i as int).len() == 0);
    i == x.len() && i < y.len()
}

/// Whether two texts are equal, character by character.
pub fn text_equal(a: &str, b: &str) -> (r: bool)
    ensures
        r == (a@ == b@),
{
    let x = chars_of(a);
    let y = chars_of(b);
    if x.len() != y.len() {
        return false;
    }
    let mut i: usize = 0;
    while i < x.len()
        invariant
            x@ == a@,
            y@ == b@,
            x.len() == y.len(),
            i <= x.len(),
            forall|j: int| 0 <= j < i ==> x@[j] == y@[j],
        decreases x.len() - i,
    {
        if x[i] != y[i] {
            return false;
        }
        i += 1;
    }
    assert(x@ =~= y@);
    true
}

} // verus!
