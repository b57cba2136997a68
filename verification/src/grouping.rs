use vstd::prelude::*;

use crate::bindings::{Binding, Category};
use crate::order::{
    lemma_strictly_ascending_unique, lemma_text_less_irreflexive, lemma_text_less_total,
    lemma_text_less_transitive, strictly_ascending, text_equal, text_less, text_precedes,
};

verus! {

/// Every binding of the given categories, category by category, each in its
/// own order.
pub open spec fn all_bindings(cats: Seq<&Category>) -> Seq<Binding>
    decreases cats.len(),
{
    if cats.len() == 0 {
        Seq::empty()
    } else {
        all_bindings(cats.drop_last()) + cats.last().bindings@
    }
}

/// The bindings of `all` whose context is `c`, in their order in `all`.
pub open spec fn in_context(all: Seq<Binding>, c: Seq<char>) -> Seq<Binding>
    decreases all.len(),
{
    if all.len() == 0 {
        Seq::empty()
    } else if all.last().context@ == c {
        in_context(all.drop_last(), c).push(all.last())
    } else {
        in_context(all.drop_last(), c)
    }
}

/// The contexts that occur among the bindings.
pub open spec fn contexts(all: Seq<Binding>) -> Set<Seq<char>> {
    all.map_values(|b: Binding| b.context@).to_set()
}

/// The contexts of the bindings, each once, in ascending order (the order in
/// which a `BTreeMap` keyed by context walks them).
pub open spec fn context_order(all: Seq<Binding>) -> Seq<Seq<char>> {
    choose|ks: Seq<Seq<char>>| strictly_ascending(ks) && ks.to_set() == contexts(all)
}

/// The bindings that share one context.
pub struct ContextGroup {
    pub context: &'static str,
    pub bindings: Vec<Binding>,
}

/// The contexts of a list of groups, in order.
pub open spec fn group_keys(gs: Seq<ContextGroup>) -> Seq<Seq<char>> {
    gs.map_values(|g: ContextGroup| g.context@)
}

/// The groups hold the bindings of `all` by context: one group per context,
/// in ascending order of context, each with that context's bindings in order.
pub open spec fn grouped_by_context(gs: Seq<ContextGroup>, all: Seq<Binding>) -> bool {
    &&& group_keys(gs) == context_order(all)
    &&& forall|i: int| 0 <= i < gs.len() ==> #[trigger] gs[i].bindings@ == in_context(all, gs[i].context@)
}

proof fn lemma_in_context_push(all: Seq<Binding>, b: Binding, c: Seq<char>)
    ensures
        in_context(all.push(b), c) == if b.context@ == c {
            in_context(all, c).push(b)
        } else {
            in_context(all, c)
        },
{
    assert(all.push(b).drop_last() =~= all);
}

proof fn lemma_push_contains<A>(s: Seq<A>, x: A, y: A)
    ensures
        s.push(x).contains(y) <==> (s.contains(y) || x == y),
{
    if s.contains(y) {
        let i = choose|i: int| 0 <= i < s.len() && s[i] == y;
        assert(s.push(x)[i] == y);
    }
    if x == y {
        assert(s.push(x)[s.len() as int] == y);
    }
    if s.push(x).contains(y) {
        let i = choose|i: int| 0 <= i < s.push(x).len() && s.push(x)[i] == y;
        if i < s.len() {
            assert(s[i] == y);
        }
    }
}

proof fn lemma_in_context_absent(all: Seq<Binding>, c: Seq<char>)
    requires
        forall|j: int| 0 <= j < all.len() ==> #[trigger] all[j].context@ != c,
    ensures
        in_context(all, c) == Seq::<Binding>::empty(),
    decreases all.len(),
{
    if all.len() > 0 {
        assert(all.last().context@ != c);
        lemma_in_context_absent(all.drop_last(), c);
    }
}

/// The texts `ks` (ascending) with `c` put in its place, unless it is there.
pub open spec fn insert_sorted(ks: Seq<Seq<char>>, c: Seq<char>) -> Seq<Seq<char>>
    decreases ks.len(),
{
    if ks.len() == 0 {
        seq![c]
    } else if ks[0] == c {
        ks
    } else if text_less(c, ks[0]) {
        seq![c] + ks
    } else {
        seq![ks[0]] + insert_sorted(ks.drop_first(), c)
    }
}

/// The distinct texts of a sequence, in ascending order.
pub open spec fn sorted_texts(cs: Seq<Seq<char>>) -> Seq<Seq<char>>
    decreases cs.len(),
{
    if cs.len() == 0 {
        Seq::empty()
    } else {
        insert_sorted(sorted_texts(cs.drop_last()), cs.last())
    }
}

proof fn lemma_insert_sorted(ks: Seq<Seq<char>>, c: Seq<char>)
    requires
        strictly_ascending(ks),
    ensures
        strictly_ascending(insert_sorted(ks, c)),
        insert_sorted(ks, c).to_set() == ks.to_set().insert(c),
    decreases ks.len(),
{
    let r = insert_sorted(ks, c);
    if ks.len() == 0 {
        assert forall|x: Seq<char>| r.to_set().contains(x) <==> ks.to_set().insert(c).contains(x) by {
            if r.to_set().contains(x) {
                let i = choose|i: int| 0 <= i < r.len() && r[i] == x;
                assert(i == 0);
            }
            if x == c {
                assert(r[0] == x);
            }
        }
        assert(r.to_set() =~= ks.to_set().insert(c));
    } else if ks[0] == c {
        assert(r.to_set() =~= ks.to_set().insert(c)) by {
            assert(ks.to_set().contains(ks[0]));
        }
    } else if text_less(c, ks[0]) {
        assert forall|i: int, j: int| 0 <= i < j < r.len() implies text_less(
            #[trigger] r[i],
            #[trigger] r[j],
        ) by {
            if i == 0 {
                assert(r[j] == ks[j - 1]);
                if j - 1 > 0 {
                    assert(text_less(ks[0], ks[j - 1]));
                    lemma_text_less_transitive(c, ks[0], ks[j - 1]);
                }
            } else {
                assert(r[i] == ks[i - 1] && r[j] == ks[j - 1]);
            }
        }
        assert forall|x: Seq<char>| r.to_set().contains(x) <==> ks.to_set().insert(c).contains(x) by {
            if r.to_set().contains(x) {
                let i = choose|i: int| 0 <= i < r.len() && r[i] == x;
                if i > 0 {
                    assert(ks[i - 1] == x);
                }
            }
            if ks.to_set().contains(x) {
                let i = choose|i: int| 0 <= i < ks.len() && ks[i] == x;
                assert(r[i + 1] == x);
            }
            if x == c {
                assert(r[0] == x);
            }
        }
        assert(r.to_set() =~= ks.to_set().insert(c));
    } else {
        let rest = ks.drop_first();
        assert(strictly_ascending(rest)) by {
            assert forall|i: int, j: int| 0 <= i < j < rest.len() implies text_less(
                #[trigger] rest[i],
                #[trigger] rest[j],
            ) by {
                assert(rest[i] == ks[i + 1] && rest[j] == ks[j + 1]);
            }
        }
        lemma_insert_sorted(rest, c);
        let tail = insert_sorted(rest, c);
        lemma_text_less_total(ks[0], c);
        assert(text_less(ks[0], c));
        assert forall|j: int| 0 <= j < tail.len() implies text_less(ks[0], #[trigger] tail[j]) by {
            assert(tail.to_set().contains(tail[j]));
            if tail[j] != c {
                assert(rest.to_set().contains(tail[j]));
                let m = choose|m: int| 0 <= m < rest.len() && rest[m] == tail[j];
                assert(ks[m + 1] == tail[j]);
            }
        }
        assert forall|i: int, j: int| 0 <= i < j < r.len() implies text_less(
            #[trigger] r[i],
            #[trigger] r[j],
        ) by {
            if i == 0 {
                assert(r[j] == tail[j - 1]);
            } else {
                assert(r[i] == tail[i - 1] && r[j] == tail[j - 1]);
            }
        }
        assert forall|x: Seq<char>| r.to_set().contains(x) <==> ks.to_set().insert(c).contains(x) by {
            if r.to_set().contains(x) {
                let i = choose|i: int| 0 <= i < r.len() && r[i] == x;
                if i > 0 {
                    assert(tail[i - 1] == x);
                    assert(tail.to_set().contains(x));
                    if x != c {
                        let m = choose|m: int| 0 <= m < rest.len() && rest[m] == x;
                        assert(ks[m + 1] == x);
                    }
                }
            }
            if ks.to_set().contains(x) {
                let i = choose|i: int| 0 <= i < ks.len() && ks[i] == x;
                if i == 0 {
                    assert(r[0] == x);
                } else {
                    assert(rest[i - 1] == x);
                    assert(rest.to_set().contains(x));
                    assert(tail.to_set().contains(x));
                    let m = choose|m: int| 0 <= m < tail.len() && tail[m] == x;
                    assert(r[m + 1] == x);
                }
            }
            if x == c {
                assert(tail.to_set().contains(c));
                let m = choose|m: int| 0 <= m < tail.len() && tail[m] == c;
                assert(r[m + 1] == x);
            }
        }
        assert(r.to_set() =~= ks.to_set().insert(c));
    }
}

proof fn lemma_sorted_texts(cs: Seq<Seq<char>>)
    ensures
        strictly_ascending(sorted_texts(cs)),
        sorted_texts(cs).to_set() == cs.to_set(),
    decreases cs.len(),
{
    if cs.len() == 0 {
        assert(sorted_texts(cs).to_set() =~= cs.to_set());
    } else {
        lemma_sorted_texts(cs.drop_last());
        lemma_insert_sorted(sorted_texts(cs.drop_last()), cs.last());
        assert(cs.to_set() =~= cs.drop_last().to_set().insert(cs.last())) by {
            assert forall|x: Seq<char>| cs.to_set().contains(x) implies cs.drop_last().to_set().insert(cs.last()).contains(x) by {
                let i = choose|i: int| 0 <= i < cs.len() && cs[i] == x;
                if i < cs.len() - 1 {
                    assert(cs.drop_last()[i] == x);
                }
            }
            assert forall|x: Seq<char>| cs.drop_last().to_set().insert(cs.last()).contains(x) implies cs.to_set().contains(x) by {
                if x == cs.last() {
                    assert(cs[cs.len() - 1] == x);
                } else {
                    let i = choose|i: int| 0 <= i < cs.drop_last().len() && cs.drop_last()[i] == x;
                    assert(cs[i] == x);
                }
            }
        }
    }
}

/// Only bindings of context `c` are in its group.
pub proof fn lemma_in_context_only(all: Seq<Binding>, c: Seq<char>, k: int)
    requires
        0 <= k < in_context(all, c).len(),
    ensures
        in_context(all, c)[k].context@ == c,
        all.contains(in_context(all, c)[k]),
    decreases all.len(),
{
    let rest = all.drop_last();
    if all.last().context@ == c && k == in_context(rest, c).len() {
        assert(all[all.len() - 1] == all.last());
    } else {
        lemma_in_context_only(rest, c, k);
        let x = in_context(all, c)[k];
        let i = choose|i: int| 0 <= i < rest.len() && rest[i] == x;
        assert(all[i] == x);
    }
}

/// Every binding is in the group of its own context, and that context is one
/// of the groups: grouping loses no binding.
pub proof fn lemma_binding_in_its_group(all: Seq<Binding>, j: int)
    requires
        0 <= j < all.len(),
    ensures
        context_order(all).contains(all[j].context@),
        in_context(all, all[j].context@).contains(all[j]),
    decreases all.len(),
{
    let c = all[j].context@;
    lemma_context_order_exists(all);
    assert(all.map_values(|b: Binding| b.context@)[j] == c);
    assert(contexts(all).contains(c));
    assert(context_order(all).to_set().contains(c));
    if j == all.len() - 1 {
        let g = in_context(all, c);
        assert(g[g.len() - 1] == all[j]);
    } else {
        let rest = all.drop_last();
        lemma_binding_in_its_group(rest, j);
        assert(rest[j] == all[j]);
        let g0 = in_context(rest, c);
        let k = choose|k: int| 0 <= k < g0.len() && g0[k] == all[j];
        let g = in_context(all, c);
        assert(g[k] == all[j]);
    }
}

/// The order of contexts exists: some strictly ascending sequence holds
/// exactly the contexts.
pub proof fn lemma_context_order_exists(all: Seq<Binding>)
    ensures
        strictly_ascending(context_order(all)),
        context_order(all).to_set() == contexts(all),
{
    let ks = sorted_texts(all.map_values(|b: Binding| b.context@));
    lemma_sorted_texts(all.map_values(|b: Binding| b.context@));
    assert(ks.to_set() =~= contexts(all));
    assert(exists|ks: Seq<Seq<char>>| strictly_ascending(ks) && ks.to_set() == contexts(all));
}

/// Every binding of the given categories, in order.
pub fn collect_bindings(categories: &[&Category]) -> (r: Vec<Binding>)
    ensures
        r@ == all_bindings(categories@),
{
    let mut out: Vec<Binding> = Vec::new();
    let mut ci: usize = 0;
    assert(categories@.take(0) =~= Seq::<&Category>::empty());
    while ci < categories.len()
        invariant
            ci <= categories@.len(),
            out@ == all_bindings(categories@.take(ci as int)),
        decreases categories@.len() - ci,
    {
        let cat = categories[ci];
        let mut bi: usize = 0;
        assert(cat.bindings@.take(0) =~= Seq::<Binding>::empty());
        assert(out@ + cat.bindings@.take(0) =~= out@);
        while bi < cat.bindings.len()
            invariant
                ci < categories@.len(),
                cat == categories@[ci as int],
                bi <= cat.bindings@.len(),
                out@ == all_bindings(categories@.take(ci as int)) + cat.bindings@.take(bi as int),
            decreases cat.bindings@.len() - bi,
        {
            out.push(cat.bindings[bi]);
            assert(cat.bindings@.take(bi + 1) =~= cat.bindings@.take(bi as int).push(
                cat.bindings@[bi as int],
            ));
            assert(out@ =~= all_bindings(categories@.take(ci as int)) + cat.bindings@.take(
                bi + 1,
            ));
            bi += 1;
        }
        assert(cat.bindings@.take(bi as int) =~= cat.bindings@);
        assert(categories@.take(ci + 1).drop_last() =~= categories@.take(ci as int));
        ci += 1;
    }
    assert(categories@.take(ci as int) =~= categories@);
    out
}

/// Groups the bindings by context, the groups in ascending order of context
/// and each group's bindings in their order in `all`.
pub fn group_by_context(all: &Vec<Binding>) -> (groups: Vec<ContextGroup>)
    ensures
        grouped_by_context(groups@, all@),
{
    let mut groups: Vec<ContextGroup> = Vec::new();
    let mut k: usize = 0;
    while k < all.len()
        invariant
            k <= all@.len(),
            strictly_ascending(group_keys(groups@)),
            forall|c: Seq<char>|
                group_keys(groups@).contains(c) <==> all@.take(k as int).map_values(
                    |b: Binding| b.context@,
                ).contains(c),
            forall|i: int|
                0 <= i < groups@.len() ==> #[trigger] groups@[i].bindings@ == in_context(
                    all@.take(k as int),
                    groups@[i].context@,
                ),
        decreases all@.len() - k,
    {
        let b = all[k];
        let ghost prefix = all@.take(k as int);
        let ghost next = all@.take(k + 1);
        let ghost keys = group_keys(groups@);
        assert(next =~= prefix.push(b));
        assert(next.map_values(|x: Binding| x.context@) =~= prefix.map_values(
            |x: Binding| x.context@,
        ).push(b.context@));

        // Find the first group whose context does not come before b's.
        let mut p: usize = 0;
        while p < groups.len() && text_precedes(groups[p].context, b.context)
            invariant
                p <= groups@.len(),
                forall|i: int| 0 <= i < p ==> text_less(#[trigger] groups@[i].context@, b.context@),
            decreases groups@.len() - p,
        {
            p += 1;
        }
        if p < groups.len() && text_equal(groups[p].context, b.context) {
            let ghost before = groups@;
            let mut g = groups.remove(p);
            g.bindings.push(b);
            groups.insert(p, g);
            proof {
                assert(groups@ =~= before.update(p as int, g));
                assert(group_keys(groups@) =~= keys);
                assert forall|i: int| 0 <= i < groups@.len() implies #[trigger] groups@[i].bindings@
                    == in_context(next, groups@[i].context@) by {
                    lemma_in_context_push(prefix, b, groups@[i].context@);
                    if i != p {
                        assert(keys[i] == groups@[i].context@);
                        if i < p {
                            assert(text_less(keys[i], keys[p as int]));
                        } else {
                            assert(text_less(keys[p as int], keys[i]));
                        }
                        lemma_text_less_irreflexive(keys[i]);
                    }
                }
                assert forall|c: Seq<char>|
                    group_keys(groups@).contains(c) <==> next.map_values(
                        |x: Binding| x.context@,
                    ).contains(c) by {
                    lemma_push_contains(prefix.map_values(|x: Binding| x.context@), b.context@, c);
                    if c == b.context@ {
                        assert(keys[p as int] == c);
                        assert(next.map_values(|x: Binding| x.context@)[k as int] == c);
                    }
                }
            }
        } else {
            let mut bs: Vec<Binding> = Vec::new();
            bs.push(b);
            let g = ContextGroup { context: b.context, bindings: bs };
            let ghost before = groups@;
            groups.insert(p, g);
            proof {
                let c = b.context@;
                let nkeys = group_keys(groups@);
                assert(nkeys =~= keys.insert(p as int, c));
                // b's context is new: it is none of the existing keys.
                assert forall|i: int| 0 <= i < keys.len() implies keys[i] != c by {
                    if i < p {
                        assert(text_less(keys[i], c));
                        lemma_text_less_irreflexive(c);
                    } else {
                        if keys[p as int] != c {
                            lemma_text_less_total(keys[p as int], c);
                        }
                        assert(text_less(c, keys[p as int]));
                        if i > p {
                            assert(text_less(keys[p as int], keys[i]));
                            lemma_text_less_transitive(c, keys[p as int], keys[i]);
                        }
                        lemma_text_less_irreflexive(c);
                    }
                }
                if p < keys.len() {
                    if keys[p as int] != c {
                        lemma_text_less_total(keys[p as int], c);
                    }
                    assert(text_less(c, keys[p as int]));
                }
                assert(strictly_ascending(nkeys)) by {
                    assert forall|i: int, j: int| 0 <= i < j < nkeys.len() implies text_less(
                        #[trigger] nkeys[i],
                        #[trigger] nkeys[j],
                    ) by {
                        if j < p {
                            assert(nkeys[i] == keys[i] && nkeys[j] == keys[j]);
                        } else if j == p {
                            assert(nkeys[i] == keys[i]);
                        } else if i == p {
                            assert(nkeys[j] == keys[j - 1]);
                            if j - 1 > p {
                                assert(text_less(keys[p as int], keys[j - 1]));
                                lemma_text_less_transitive(c, keys[p as int], keys[j - 1]);
                            }
                        } else if i < p {
                            assert(nkeys[i] == keys[i] && nkeys[j] == keys[j - 1]);
                        } else {
                            assert(nkeys[i] == keys[i - 1] && nkeys[j] == keys[j - 1]);
                        }
                    }
                };
                assert forall|cc: Seq<char>|
                    nkeys.contains(cc) <==> next.map_values(|x: Binding| x.context@).contains(
                        cc,
                    ) by {
                    lemma_push_contains(prefix.map_values(|x: Binding| x.context@), c, cc);
                    if cc == c {
                        assert(nkeys[p as int] == c);
                        assert(next.map_values(|x: Binding| x.context@)[k as int] == c);
                    } else {
                        if nkeys.contains(cc) {
                            let i = choose|i: int| 0 <= i < nkeys.len() && nkeys[i] == cc;
                            if i < p {
                                assert(keys[i] == cc);
                            } else {
                                assert(keys[i - 1] == cc);
                            }
                        }
                        if keys.contains(cc) {
                            let i = choose|i: int| 0 <= i < keys.len() && keys[i] == cc;
                            if i < p {
                                assert(nkeys[i] == cc);
                            } else {
                                assert(nkeys[i + 1] == cc);
                            }
                        }
                    }
                }
                assert forall|i: int| 0 <= i < groups@.len() implies #[trigger] groups@[i].bindings@
                    == in_context(next, groups@[i].context@) by {
                    lemma_in_context_push(prefix, b, groups@[i].context@);
                    if i == p {
                        assert forall|j: int| 0 <= j < prefix.len() implies #[trigger] prefix[j].context@
                            != c by {
                            assert(prefix.map_values(|x: Binding| x.context@)[j] == prefix[j].context@);
                            assert(!keys.contains(c));
                        }
                        lemma_in_context_absent(prefix, c);
                        assert(groups@[i].bindings@ =~= Seq::<Binding>::empty().push(b));
                    } else {
                        let old_i = if i < p { i } else { i - 1 };
                        assert(groups@[i] == before[old_i]);
                        assert(keys[old_i] == before[old_i].context@);
                    }
                }
            }
        }
        k += 1;
    }
    proof {
        assert(all@.take(k as int) =~= all@);
        let keys = group_keys(groups@);
        assert(keys.to_set() =~= contexts(all@));
        assert(strictly_ascending(keys) && keys.to_set() == contexts(all@));
        assert(exists|ks: Seq<Seq<char>>| strictly_ascending(ks) && ks.to_set() == contexts(all@));
        lemma_strictly_ascending_unique(keys, context_order(all@));
    }
    groups
}

} // verus!
