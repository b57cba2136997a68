use vstd::prelude::*;

use crate::order::{
    lemma_text_less_irreflexive, lemma_text_less_transitive, text_equal, text_less, text_precedes,
};
use crate::text::chars_of;

verus! {

// ---------------------------------------------------------------------------
// Where the keymap lives
// ---------------------------------------------------------------------------

/// The name of Zed's directory under the configuration directory: `Zed` when
/// it exists, else `zed` when that exists, else `Zed`.
pub fn zed_dir_name(capitalized_exists: bool, lowercase_exists: bool) -> (r: &'static str)
    ensures
        r@ == if !capitalized_exists && lowercase_exists {
            "zed"@
        } else {
            "Zed"@
        },
{
    if capitalized_exists {
        "Zed"
    } else if lowercase_exists {
        "zed"
    } else {
        "Zed"
    }
}

// ---------------------------------------------------------------------------
// Backup files
// ---------------------------------------------------------------------------

/// The index of the last `.` in a file name, if any.
pub open spec fn last_dot(name: Seq<char>) -> Option<int>
    decreases name.len(),
{
    if name.len() == 0 {
        None
    } else if name.last() == '.' {
        Some(name.len() - 1)
    } else {
        last_dot(name.drop_last())
    }
}

/// The extension of a file name, as `Path::extension` documents it: none
/// without an embedded `.`, none for a name that starts with its only `.`,
/// and otherwise what follows the last `.`.
pub open spec fn file_extension(name: Seq<char>) -> Option<Seq<char>> {
    if name == ".."@ {
        None
    } else {
        match last_dot(name) {
            None => None,
            Some(k) => if k == 0 {
                None
            } else {
                Some(name.skip(k + 1))
            },
        }
    }
}

/// A backup is a file whose extension is `json`.
pub open spec fn is_backup_name(name: Seq<char>) -> bool {
    file_extension(name) == Some("json"@)
}

proof fn lemma_last_dot(name: Seq<char>)
    ensures
        last_dot(name) matches Some(k) ==> 0 <= k < name.len() && name[k] == '.' && forall|
            j: int,
        |
            k < j < name.len() ==> name[j] != '.',
        last_dot(name) is None ==> forall|j: int| 0 <= j < name.len() ==> name[j] != '.',
    decreases name.len(),
{
    if name.len() > 0 && name.last() != '.' {
        lemma_last_dot(name.drop_last());
        assert forall|j: int| 0 <= j < name.len() - 1 implies name[j] == name.drop_last()[j] by {}
    }
}

/// Whether a file name is that of a backup (its extension is `json`).
pub fn is_backup(name: &str) -> (r: bool)
    ensures
        r == is_backup_name(name@),
{
    proof {
        reveal_strlit("..");
        reveal_strlit("json");
    }
    let cs = chars_of(name);
    // Find the last dot.
    let mut k: usize = cs.len();
    let mut found = false;
    while k > 0 && !found
        invariant
            cs@ == name@,
            k <= cs.len(),
            found ==> k < cs.len() && cs@[k as int] == '.',
            forall|j: int| k < j < cs.len() ==> cs@[j] != '.',
            !found ==> forall|j: int| k <= j < cs.len() ==> cs@[j] != '.',
        decreases k + (if found { 0int } else { 1int }),
    {
        if cs[k - 1] == '.' {
            k = k - 1;
            found = true;
        } else {
            k = k - 1;
        }
    }
    proof {
        lemma_last_dot(name@);
        if found {
            if last_dot(name@) is None {
                assert(name@[k as int] == '.');
            } else {
                let d = last_dot(name@)->Some_0;
                if d > k {
                    assert(cs@[d] != '.');
                }
                if d < k {
                    assert(name@[k as int] != '.');
                }
                assert(d == k);
            }
        } else {
            assert(k == 0);
            if last_dot(name@) is Some {
                let d = last_dot(name@)->Some_0;
                assert(cs@[d] != '.');
            }
        }
    }
    if !found || k == 0 {
        if found {
            assert(name@ != ".."@ ==> file_extension(name@) is None);
        }
        return false;
    }
    if cs.len() == 2 && cs[0] == '.' && cs[1] == '.' {
        assert(name@ =~= ".."@);
        return false;
    }
    assert(name@ != ".."@) by {
        if name@ == ".."@ {
            assert(cs@[0] == '.' && cs@[1] == '.');
        }
    }
    // Compare what follows the dot with "json".
    let rest_len = cs.len() - (k + 1);
    let ghost rest = name@.skip(k + 1);
    if rest_len != 4 {
        assert(rest.len() != "json"@.len());
        return false;
    }
    let r = cs[k + 1] == 'j' && cs[k + 2] == 's' && cs[k + 3] == 'o' && cs[k + 4] == 'n';
    assert(rest[0] == cs@[k + 1] && rest[1] == cs@[k + 2] && rest[2] == cs@[k + 3] && rest[3]
        == cs@[k + 4]);
    if r {
        assert(rest =~= "json"@);
    } else {
        assert(rest != "json"@);
    }
    r
}

/// The views of backup entries: name and size.
pub open spec fn entry_views(es: Seq<(String, u64)>) -> Seq<(Seq<char>, u64)> {
    es.map_values(|e: (String, u64)| (e.0@, e.1))
}

/// The backup entries among the entries, in their order.
pub open spec fn backups_among(es: Seq<(Seq<char>, u64)>) -> Seq<(Seq<char>, u64)>
    decreases es.len(),
{
    if es.len() == 0 {
        Seq::empty()
    } else if is_backup_name(es.last().0) {
        backups_among(es.drop_last()).push(es.last())
    } else {
        backups_among(es.drop_last())
    }
}

/// Entries in ascending order of name.
pub open spec fn ascending_names(es: Seq<(Seq<char>, u64)>) -> bool {
    forall|i: int, j: int| 0 <= i < j < es.len() ==> !text_less(#[trigger] es[j].0, #[trigger] es[i].0)
}

/// Where an entry goes among entries sorted by name, looking from `p` on: the
/// first place whose name comes after its own, or the end.
pub open spec fn insert_position_from(es: Seq<(Seq<char>, u64)>, x: (Seq<char>, u64), p: int) -> int
    decreases es.len() - p,
{
    if p >= es.len() || text_less(x.0, es[p].0) {
        p
    } else {
        insert_position_from(es, x, p + 1)
    }
}

/// The entries with `x` put after every entry whose name does not come after
/// its own, so that among equal names the earlier one stays first.
pub open spec fn insert_by_name(es: Seq<(Seq<char>, u64)>, x: (Seq<char>, u64)) -> Seq<(Seq<char>, u64)> {
    es.insert(insert_position_from(es, x, 0), x)
}

/// The entries sorted by name, stably: inserted one by one, in their order.
pub open spec fn sorted_by_name(es: Seq<(Seq<char>, u64)>) -> Seq<(Seq<char>, u64)>
    decreases es.len(),
{
    if es.len() == 0 {
        Seq::empty()
    } else {
        insert_by_name(sorted_by_name(es.drop_last()), es.last())
    }
}

/// The backup entries (files whose extension is `json`) among the entries of a
/// directory, sorted by name.
pub fn sorted_backups(entries: Vec<(String, u64)>) -> (r: Vec<(String, u64)>)
    ensures
        entry_views(r@) == sorted_by_name(backups_among(entry_views(entries@))),
        ascending_names(entry_views(r@)),
        entry_views(r@).to_multiset() == backups_among(entry_views(entries@)).to_multiset(),
{
    broadcast use vstd::seq_lib::group_to_multiset_ensures;

    let ghost all = entry_views(entries@);
    let mut out: Vec<(String, u64)> = Vec::new();
    let mut rest = entries;
    let mut k: usize = 0;
    // Take the entries one by one, from the front.
    let n = rest.len();
    assert(rest@.skip(0) =~= entries@);
    assert(all.take(0) =~= Seq::<(Seq<char>, u64)>::empty());
    while k < n
        invariant
            n == entries@.len(),
            k <= n,
            all == entry_views(entries@),
            rest@ == entries@.skip(k as int),
            ascending_names(entry_views(out@)),
            entry_views(out@) == sorted_by_name(backups_among(all.take(k as int))),
            entry_views(out@).to_multiset() == backups_among(all.take(k as int)).to_multiset(),
        decreases n - k,
    {
        let e = rest.remove(0);
        assert(e == entries@[k as int]);
        assert(rest@ =~= entries@.skip(k + 1));
        assert(all.take(k + 1).drop_last() =~= all.take(k as int));
        assert(all.take(k + 1).last() == (e.0@, e.1));
        if is_backup(e.0.as_str()) {
            // Insert after every entry whose name does not come after e's.
            let mut p: usize = 0;
            let ghost start = entry_views(out@);
            let ghost x0 = (e.0@, e.1);
            while p < out.len() && !text_precedes(e.0.as_str(), out[p].0.as_str())
                invariant
                    p <= out@.len(),
                    start == entry_views(out@),
                    x0 == (e.0@, e.1),
                    forall|i: int| 0 <= i < p ==> !text_less(e.0@, #[trigger] out@[i].0@),
                    insert_position_from(start, x0, p as int) == insert_position_from(start, x0, 0),
                decreases out@.len() - p,
            {
                assert(start[p as int] == (out@[p as int].0@, out@[p as int].1));
                p += 1;
            }
            proof {
                if p < out.len() {
                    assert(start[p as int] == (out@[p as int].0@, out@[p as int].1));
                }
                assert(insert_position_from(start, x0, p as int) == p);
            }
            let ghost before = entry_views(out@);
            let ghost x = (e.0@, e.1);
            out.insert(p, e);
            proof {
                let now = entry_views(out@);
                assert(now =~= before.insert(p as int, x));
                before.insert_ensures(p as int, x);
                assert forall|i: int, j: int| 0 <= i < j < now.len() implies !text_less(
                    #[trigger] now[j].0,
                    #[trigger] now[i].0,
                ) by {
                    if j < p {
                        assert(now[i] == before[i] && now[j] == before[j]);
                    } else if j == p {
                        assert(now[i] == before[i]);
                        assert(!text_less(x.0, before[i].0));
                    } else if i == p {
                        assert(now[j] == before[j - 1]);
                        assert(text_less(x.0, before[p as int].0));
                        if j - 1 > p {
                            assert(!text_less(before[j - 1].0, before[p as int].0));
                        }
                        if text_less(before[j - 1].0, x.0) {
                            lemma_text_less_transitive(before[j - 1].0, x.0, before[p as int].0);
                            if j - 1 == p {
                                lemma_text_less_irreflexive(before[p as int].0);
                            }
                        }
                    } else if i < p {
                        assert(now[i] == before[i] && now[j] == before[j - 1]);
                    } else {
                        assert(now[i] == before[i - 1] && now[j] == before[j - 1]);
                    }
                }
                assert(now.remove(p as int) =~= before);
                assert(now[p as int] == x);
                assert(now.to_multiset() =~= before.to_multiset().insert(x)) by {
                    broadcast use vstd::multiset::group_multiset_axioms;

                    now.to_multiset_ensures();
                    assert(now.remove(p as int).to_multiset() =~= now.to_multiset().remove(
                        now[p as int],
                    ));
                    assert(before.to_multiset() =~= now.to_multiset().remove(x));
                    assert(now.contains(x));
                    assert(now.to_multiset().count(x) > 0);
                }
                let pre = all.take(k as int);
                assert(backups_among(all.take(k + 1)) == backups_among(pre).push(x));
                assert(backups_among(pre).push(x).drop_last() =~= backups_among(pre));
                assert(now =~= sorted_by_name(backups_among(all.take(k + 1))));
                backups_among(pre).to_multiset_ensures();
                assert(backups_among(pre).push(x).to_multiset() =~= backups_among(
                    pre,
                ).to_multiset().insert(x));
            }
        } else {
            assert(backups_among(all.take(k + 1)) == backups_among(all.take(k as int)));
        }
        k += 1;
    }
    assert(all.take(k as int) =~= all);
    out
}

/// The name of the most recent backup: the last by name, if there is one.
pub fn latest_backup(entries: Vec<(String, u64)>) -> (r: Option<String>)
    ensures
        r is None <==> backups_among(entry_views(entries@)).len() == 0,
        r matches Some(name) ==> exists|size: u64|
            backups_among(entry_views(entries@)).contains((name@, size)),
        r matches Some(name) ==> forall|i: int|
            0 <= i < backups_among(entry_views(entries@)).len() ==> !text_less(
                name@,
                #[trigger] backups_among(entry_views(entries@))[i].0,
            ),
{
    broadcast use vstd::seq_lib::group_to_multiset_ensures;

    let ghost all = backups_among(entry_views(entries@));
    let mut sorted = sorted_backups(entries);
    let ghost s = entry_views(sorted@);
    if sorted.len() == 0 {
        assert(all.to_multiset().len() == 0);
        return None;
    }
    let last = sorted.pop().unwrap();
    proof {
        let x = s.last();
        assert(x == (last.0@, last.1));
        assert(s.contains(x));
        assert(all.to_multiset().count(x) > 0);
        assert(all.contains(x));
        assert forall|i: int| 0 <= i < all.len() implies !text_less(last.0@, #[trigger] all[i].0) by {
            assert(all.to_multiset().count(all[i]) > 0);
            assert(s.to_multiset().count(all[i]) > 0);
            assert(s.contains(all[i]));
            let j = choose|j: int| 0 <= j < s.len() && s[j] == all[i];
            if j < s.len() - 1 {
                assert(!text_less(s[s.len() - 1].0, s[j].0));
            } else {
                lemma_text_less_irreflexive(last.0@);
            }
        }
    }
    let name = last.0;
    assert(all.contains((name@, last.1)));
    assert(exists|size: u64| all.contains((name@, size)));
    let r = Some(name);
    assert(r matches Some(nm) ==> nm@ == last.0@);
    assert(r matches Some(nm) ==> exists|size: u64| all.contains((nm@, size)));
    r
}

} // verus!
