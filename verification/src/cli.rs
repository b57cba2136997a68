use vstd::prelude::*;

use crate::bindings::{action_display_spec, Binding, Category};
use crate::order::{lemma_text_less_transitive, text_equal, text_less, text_precedes};
use crate::output::{find_slug, pick, slug_index, total_selected};
use crate::text::{
    chars_of, concat_all, decimal, join, join_strings, lemma_concat_all_holds, lemma_occurs_around,
    lowercase, occurs_at, push_char, push_repeated, repeat_char, texts, to_decimal, to_lowercase,
};

verus! {

// ---------------------------------------------------------------------------
// Listing the categories on the terminal
// ---------------------------------------------------------------------------

/// Whether `needle` occurs in `hay` (the empty text occurs everywhere).
pub open spec fn contains_text(hay: Seq<char>, needle: Seq<char>) -> bool {
    exists|i: int|
        0 <= i && i + needle.len() <= hay.len() && #[trigger] hay.subrange(i, i + needle.len())
            == needle
}

/// Whether `needle` occurs in `hay`.
pub fn text_contains(hay: &str, needle: &str) -> (r: bool)
    ensures
        r == contains_text(hay@, needle@),
{
    let h = chars_of(hay);
    let n = chars_of(needle);
    if n.len() > h.len() {
        return false;
    }
    let mut i: usize = 0;
    while i <= h.len() - n.len()
        invariant
            h@ == hay@,
            n@ == needle@,
            n.len() <= h.len(),
            i <= h.len() - n.len() + 1,
            forall|k: int| 0 <= k < i ==> #[trigger] h@.subrange(k, k + n@.len()) != n@,
        decreases h.len() - n.len() + 1 - i,
    {
        let mut j: usize = 0;
        while j < n.len() && h[i + j] == n[j]
            invariant
                h@ == hay@,
                n@ == needle@,
                n.len() <= h.len(),
                i <= h.len() - n.len(),
                j <= n.len(),
                forall|k: int| 0 <= k < j ==> h@[i + k] == n@[k],
            decreases n.len() - j,
        {
            j += 1;
        }
        if j == n.len() {
            assert(h@.subrange(i as int, i + n@.len()) =~= n@);
            return true;
        }
        assert(h@.subrange(i as int, i + n@.len())[j as int] != n@[j as int]);
        i += 1;
    }
    assert forall|k: int| 0 <= k && k + needle@.len() <= hay@.len() implies #[trigger] hay@.subrange(
        k,
        k + needle@.len(),
    ) != needle@ by {
        assert(k < i);
    }
    false
}

/// Whether a category is listed under the (lowercased) filter: its slug or its
/// lowercased name contains the filter. Without a filter every category is.
pub open spec fn listed(c: Category, filter: Option<Seq<char>>, lowered_name: Seq<char>) -> bool {
    match filter {
        None => true,
        Some(f) => contains_text(c.slug@, f) || contains_text(lowered_name, f),
    }
}

/// How many spaces pad a key to a width of 24 characters.
pub open spec fn key_padding(len: nat) -> nat {
    if len < 24 {
        (24 - len) as nat
    } else {
        0
    }
}

/// How a context is shown on the terminal: nothing when it is empty.
pub open spec fn terminal_context(context: Seq<char>) -> Seq<char> {
    if context.len() == 0 {
        Seq::empty()
    } else {
        "  ("@ + context + ")"@
    }
}

/// The terminal line of one binding: the key padded to 24 characters, an
/// arrow, the action and the context.
pub open spec fn terminal_line(b: Binding) -> Seq<char> {
    "    "@ + b.key@ + repeat_char(' ', key_padding(b.key@.len())) + " → "@ + action_display_spec(
        b.action,
    ) + terminal_context(b.context@) + "\n"@
}

/// The terminal section of one category; the rule under its heading is as
/// long, in bytes, as the name and the slug together plus three.
pub open spec fn terminal_section(c: Category) -> Seq<char> {
    "\n  "@ + c.name@ + " ["@ + c.slug@ + "]\n"@ + "  "@ + c.description@ + "\n"@ + "  "@
        + repeat_char('-', (c.name.len() + c.slug.len() + 3) as nat) + "\n"@
        + concat_all(c.bindings@.map_values(|b: Binding| terminal_line(b)))
}

/// The closing lines of the terminal listing.
pub open spec fn terminal_footer() -> Seq<char> {
    "\n"@ + "  Use `apply -c <slug>,<slug>` to apply specific categories.\n"@
        + "  Use `apply` with no flags to apply all categories.\n"@ + "\n"@
}

/// The terminal listing: the section of every listed category, then the
/// closing lines.
pub open spec fn terminal_listing(
    cats: Seq<Category>,
    filter: Option<Seq<char>>,
    lowered_names: Seq<Seq<char>>,
) -> Seq<char> {
    concat_all(
        Seq::new(
            cats.len(),
            |i: int|
                if listed(cats[i], filter, lowered_names[i]) {
                    terminal_section(cats[i])
                } else {
                    Seq::empty()
                },
        ),
    ) + terminal_footer()
}

fn terminal_line_text(b: &Binding) -> (r: String)
    ensures
        r@ == terminal_line(*b),
{
    let mut out = String::from_str("    ");
    out.append(b.key);
    let key_len = b.key.unicode_len();
    let pad: usize = if key_len < 24 {
        24 - key_len
    } else {
        0
    };
    push_repeated(&mut out, ' ', pad);
    out.append(" → ");
    let shown = b.action_display();
    out.append(shown.as_str());
    if !b.context.is_empty() {
        out.append("  (");
        out.append(b.context);
        out.append(")");
    }
    out.append("\n");
    out
}

fn terminal_section_text(cat: &Category) -> (r: String)
    ensures
        r@ == terminal_section(*cat),
{
    let mut out = String::from_str("\n  ");
    out.append(cat.name);
    out.append(" [");
    out.append(cat.slug);
    out.append("]\n");
    out.append("  ");
    out.append(cat.description);
    out.append("\n");
    out.append("  ");
    let ghost before = out@;
    let n1 = cat.name.len();
    let n2 = cat.slug.len();
    push_repeated(&mut out, '-', n1);
    push_repeated(&mut out, '-', n2);
    push_repeated(&mut out, '-', 3);
    assert(out@ =~= before + repeat_char('-', (n1 + n2 + 3) as nat));
    out.append("\n");
    let ghost head = out@;
    let ghost lines = cat.bindings@.map_values(|b: Binding| terminal_line(b));
    let mut i: usize = 0;
    assert(lines.take(0) =~= Seq::<Seq<char>>::empty());
    while i < cat.bindings.len()
        invariant
            i <= cat.bindings@.len(),
            lines == cat.bindings@.map_values(|b: Binding| terminal_line(b)),
            out@ == head + concat_all(lines.take(i as int)),
        decreases cat.bindings@.len() - i,
    {
        let b = &cat.bindings[i];
        let line = terminal_line_text(b);
        out.append(line.as_str());
        assert(lines.take(i + 1).drop_last() =~= lines.take(i as int));
        assert(lines.take(i + 1).last() == terminal_line(*b));
        i += 1;
    }
    assert(lines.take(i as int) =~= lines);
    out
}

/// The terminal listing of the categories, given the lowercased filter and
/// the lowercased name of each category.
pub fn terminal_listing_for(
    categories: &[Category],
    filter: Option<&str>,
    lowered_names: &Vec<String>,
) -> (r: String)
    requires
        lowered_names@.len() == categories@.len(),
    ensures
        r@ == terminal_listing(
            categories@,
            match filter {
                Some(f) => Some(f@),
                None => None,
            },
            texts(lowered_names@),
        ),
{
    let ghost f = match filter {
        Some(f) => Some(f@),
        None => None::<Seq<char>>,
    };
    let ghost parts = Seq::new(
        categories@.len(),
        |i: int|
            if listed(categories@[i], f, texts(lowered_names@)[i]) {
                terminal_section(categories@[i])
            } else {
                Seq::empty()
            },
    );
    let mut out = String::new();
    let mut i: usize = 0;
    assert(parts.take(0) =~= Seq::<Seq<char>>::empty());
    while i < categories.len()
        invariant
            i <= categories@.len(),
            lowered_names@.len() == categories@.len(),
            f == match filter {
                Some(f) => Some(f@),
                None => None::<Seq<char>>,
            },
            parts == Seq::new(
                categories@.len(),
                |i: int|
                    if listed(categories@[i], f, texts(lowered_names@)[i]) {
                        terminal_section(categories@[i])
                    } else {
                        Seq::empty()
                    },
            ),
            out@ == concat_all(parts.take(i as int)),
        decreases categories@.len() - i,
    {
        let cat = &categories[i];
        let shown = match filter {
            Some(fl) => text_contains(cat.slug, fl) || text_contains(
                lowered_names[i].as_str(),
                fl,
            ),
            None => true,
        };
        assert(texts(lowered_names@)[i as int] == lowered_names@[i as int]@);
        if shown {
            let s = terminal_section_text(cat);
            out.append(s.as_str());
        } else {
            assert(out@ + parts[i as int] =~= out@);
        }
        assert(parts.take(i + 1).drop_last() =~= parts.take(i as int));
        i += 1;
    }
    assert(parts.take(i as int) =~= parts);
    out.append("\n");
    out.append("  Use `apply -c <slug>,<slug>` to apply specific categories.\n");
    out.append("  Use `apply` with no flags to apply all categories.\n");
    out.append("\n");
    out
}

/// The lowercased names of the categories.
pub open spec fn lowered_names(cats: Seq<Category>) -> Seq<Seq<char>> {
    cats.map_values(|c: Category| lowercase(c.name@))
}

/// Under a filter, a category is listed when the filter stands anywhere (at
/// any offset) in its slug or in its lowercased name: its section then stands
/// in the listing.
pub proof fn lemma_filter_found_lists(cats: Seq<Category>, f: Seq<char>, i: int, k: int)
    requires
        0 <= i < cats.len(),
        occurs_at(cats[i].slug@, f, k) || occurs_at(lowercase(cats[i].name@), f, k),
    ensures
        exists|m: int|
            occurs_at(
                terminal_listing(cats, Some(f), lowered_names(cats)),
                terminal_section(cats[i]),
                m,
            ),
{
    let names = lowered_names(cats);
    let filter = Some(f);
    let parts = Seq::new(
        cats.len(),
        |j: int|
            if listed(cats[j], filter, names[j]) {
                terminal_section(cats[j])
            } else {
                Seq::empty()
            },
    );
    assert(names[i] == lowercase(cats[i].name@));
    if occurs_at(cats[i].slug@, f, k) {
        assert(cats[i].slug@.subrange(k, k + f.len()) == f);
    } else {
        assert(names[i].subrange(k, k + f.len()) == f);
    }
    assert(listed(cats[i], filter, names[i]));
    assert(parts[i] == terminal_section(cats[i]));
    lemma_concat_all_holds(parts, i);
    let m = concat_all(parts.take(i)).len() as int;
    lemma_occurs_around(Seq::empty(), concat_all(parts), terminal_footer(), parts[i], m);
    assert(Seq::<char>::empty() + concat_all(parts) + terminal_footer() =~= terminal_listing(
        cats,
        filter,
        names,
    ));
    assert(occurs_at(terminal_listing(cats, filter, names), terminal_section(cats[i]), m));
}

/// Without a filter, every category's section stands in the listing.
pub proof fn lemma_no_filter_lists_all(cats: Seq<Category>, i: int)
    requires
        0 <= i < cats.len(),
    ensures
        exists|m: int|
            occurs_at(terminal_listing(cats, None, lowered_names(cats)), terminal_section(cats[i]), m),
{
    let names = lowered_names(cats);
    let filter: Option<Seq<char>> = None;
    let parts = Seq::new(
        cats.len(),
        |j: int|
            if listed(cats[j], filter, names[j]) {
                terminal_section(cats[j])
            } else {
                Seq::empty()
            },
    );
    assert(parts[i] == terminal_section(cats[i]));
    lemma_concat_all_holds(parts, i);
    let m = concat_all(parts.take(i)).len() as int;
    lemma_occurs_around(Seq::empty(), concat_all(parts), terminal_footer(), parts[i], m);
    assert(Seq::<char>::empty() + concat_all(parts) + terminal_footer() =~= terminal_listing(
        cats,
        filter,
        names,
    ));
    assert(occurs_at(terminal_listing(cats, filter, names), terminal_section(cats[i]), m));
}

/// A category is listed under a filter only when the filter stands somewhere
/// in its slug or in its lowercased name.
pub proof fn lemma_listed_only_where_found(c: Category, f: Seq<char>, lowered_name: Seq<char>)
    requires
        listed(c, Some(f), lowered_name),
    ensures
        exists|k: int|
            #![trigger occurs_at(c.slug@, f, k)]
            #![trigger occurs_at(lowered_name, f, k)]
            occurs_at(c.slug@, f, k) || occurs_at(lowered_name, f, k),
{
    if contains_text(c.slug@, f) {
        let k = choose|k: int|
            0 <= k && k + f.len() <= c.slug@.len() && #[trigger] c.slug@.subrange(k, k + f.len())
                == f;
        assert(occurs_at(c.slug@, f, k) || occurs_at(lowered_name, f, k));
    } else {
        let k = choose|k: int|
            0 <= k && k + f.len() <= lowered_name.len() && #[trigger] lowered_name.subrange(
                k,
                k + f.len(),
            ) == f;
        assert(occurs_at(c.slug@, f, k) || occurs_at(lowered_name, f, k));
    }
}

/// The terminal listing of the categories whose slug or name contains the
/// filter (compared in lowercase), or of all when there is no filter.
pub fn terminal_listing_text(categories: &[Category], filter: Option<&str>) -> (r: String)
    ensures
        r@ == terminal_listing(
            categories@,
            match filter {
                Some(f) => Some(lowercase(f@)),
                None => None,
            },
            lowered_names(categories@),
        ),
{
    let lowered_filter = match filter {
        Some(f) => Some(to_lowercase(f)),
        None => None,
    };
    let mut names: Vec<String> = Vec::new();
    let mut i: usize = 0;
    while i < categories.len()
        invariant
            i <= categories@.len(),
            texts(names@) == lowered_names(categories@).take(i as int),
        decreases categories@.len() - i,
    {
        let ghost before = names@;
        names.push(to_lowercase(categories[i].name));
        assert(texts(names@) =~= texts(before).push(lowercase(categories@[i as int].name@)));
        assert(lowered_names(categories@).take(i + 1) =~= lowered_names(categories@).take(
            i as int,
        ).push(lowercase(categories@[i as int].name@)));
        i += 1;
    }
    assert(lowered_names(categories@).take(i as int) =~= lowered_names(categories@));
    match &lowered_filter {
        Some(f) => terminal_listing_for(categories, Some(f.as_str()), &names),
        None => terminal_listing_for(categories, None, &names),
    }
}

// ---------------------------------------------------------------------------
// Choosing the categories to apply
// ---------------------------------------------------------------------------

/// The message for a slug that names no category.
pub open spec fn unknown_category_message(slug: Seq<char>) -> Seq<char> {
    "Unknown category: '"@ + slug + "'. Use `list` to see available categories."@
}

/// The first of the slugs that names no category, if any.
pub open spec fn first_unknown(cats: Seq<Category>, slugs: Seq<Seq<char>>) -> Option<Seq<char>>
    decreases slugs.len(),
{
    if slugs.len() == 0 {
        None
    } else if slug_index(cats, slugs[0]) is None {
        Some(slugs[0])
    } else {
        first_unknown(cats, slugs.drop_first())
    }
}

/// The category of each slug, in the order of the slugs.
pub open spec fn slug_indices(cats: Seq<Category>, slugs: Seq<Seq<char>>) -> Seq<int> {
    slugs.map_values(|s: Seq<char>| slug_index(cats, s)->Some_0)
}

proof fn lemma_first_unknown(cats: Seq<Category>, slugs: Seq<Seq<char>>)
    ensures
        first_unknown(cats, slugs) is None <==> forall|k: int|
            0 <= k < slugs.len() ==> #[trigger] slug_index(cats, slugs[k]) is Some,
        first_unknown(cats, slugs) matches Some(s) ==> exists|k: int|
            0 <= k < slugs.len() && slugs[k] == s && slug_index(cats, slugs[k]) is None && forall|
                m: int,
            |
                0 <= m < k ==> #[trigger] slug_index(cats, slugs[m]) is Some,
    decreases slugs.len(),
{
    if slugs.len() > 0 {
        let rest = slugs.drop_first();
        lemma_first_unknown(cats, rest);
        if slug_index(cats, slugs[0]) is Some {
            if first_unknown(cats, rest) is None {
                assert forall|k: int| 0 <= k < slugs.len() implies #[trigger] slug_index(
                    cats,
                    slugs[k],
                ) is Some by {
                    if k > 0 {
                        assert(slugs[k] == rest[k - 1]);
                    }
                }
            } else {
                let k = choose|k: int|
                    0 <= k < rest.len() && rest[k] == first_unknown(cats, rest)->Some_0
                        && slug_index(cats, rest[k]) is None && forall|m: int|
                        0 <= m < k ==> #[trigger] slug_index(cats, rest[m]) is Some;
                assert(slugs[k + 1] == rest[k]);
                assert forall|m: int| 0 <= m < k + 1 implies #[trigger] slug_index(
                    cats,
                    slugs[m],
                ) is Some by {
                    if m > 0 {
                        assert(slugs[m] == rest[m - 1]);
                    }
                }
                assert(slug_index(cats, slugs[k + 1]) is None);
            }
        } else {
            assert(slug_index(cats, slugs[0 as int]) is None);
        }
    }
}

/// The categories named by the (already lowercased) slugs, in their order; or,
/// when a slug names no category, the message for the first such slug.
pub fn select_by_slugs<'a>(categories: &'a [Category], slugs: &Vec<String>) -> (r: Result<
    Vec<&'a Category>,
    String,
>)
    ensures
        match r {
            Ok(sel) => first_unknown(categories@, texts(slugs@)) is None && sel@ == pick(
                categories@,
                slug_indices(categories@, texts(slugs@)),
            ),
            Err(msg) => first_unknown(categories@, texts(slugs@)) matches Some(s) && msg@
                == unknown_category_message(s),
        },
{
    let ghost ss = texts(slugs@);
    proof {
        lemma_first_unknown(categories@, ss);
    }
    let mut matched: Vec<&'a Category> = Vec::new();
    let mut k: usize = 0;
    while k < slugs.len()
        invariant
            k <= slugs@.len(),
            ss == texts(slugs@),
            forall|m: int| 0 <= m < k ==> #[trigger] slug_index(categories@, ss[m]) is Some,
            matched@ == pick(categories@, slug_indices(categories@, ss.take(k as int))),
            first_unknown(categories@, ss) is None <==> forall|m: int|
                0 <= m < ss.len() ==> #[trigger] slug_index(categories@, ss[m]) is Some,
            first_unknown(categories@, ss) matches Some(s) ==> exists|m: int|
                0 <= m < ss.len() && ss[m] == s && slug_index(categories@, ss[m]) is None
                    && forall|j: int|
                    0 <= j < m ==> #[trigger] slug_index(categories@, ss[j]) is Some,
        decreases slugs@.len() - k,
    {
        assert(ss[k as int] == slugs@[k as int]@);
        match find_slug(categories, slugs[k].as_str()) {
            Some(i) => {
                proof {
                    crate::output::lemma_slug_index_in_range(categories@, ss[k as int]);
                }
                let ghost before = matched@;
                matched.push(&categories[i]);
                assert(slug_indices(categories@, ss.take(k + 1)) =~= slug_indices(
                    categories@,
                    ss.take(k as int),
                ).push(i as int));
                assert(matched@ =~= pick(
                    categories@,
                    slug_indices(categories@, ss.take(k + 1)),
                ));
            },
            None => {
                proof {
                    let s = first_unknown(categories@, ss)->Some_0;
                    let m = choose|m: int|
                        0 <= m < ss.len() && ss[m] == s && slug_index(categories@, ss[m]) is None
                            && forall|j: int|
                            0 <= j < m ==> #[trigger] slug_index(categories@, ss[j]) is Some;
                    if m < k {
                    } else if m > k {
                    }
                    assert(m == k);
                }
                let mut msg = String::from_str("Unknown category: '");
                msg.append(slugs[k].as_str());
                msg.append("'. Use `list` to see available categories.");
                return Err(msg);
            },
        }
        k += 1;
    }
    assert(ss.take(k as int) =~= ss);
    Ok(matched)
}

/// The categories to apply: all of them without slugs; with slugs, the ones
/// they name (compared in lowercase), or the message for the first slug that
/// names none.
pub fn choose_categories<'a>(categories: &'a [Category], slugs: Option<Vec<String>>) -> (r: Result<
    Vec<&'a Category>,
    String,
>)
    ensures
        match slugs {
            None => r matches Ok(sel) && sel@ == pick(
                categories@,
                Seq::new(categories@.len(), |i: int| i),
            ),
            Some(ss) => {
                let low = texts(ss@).map_values(|s: Seq<char>| lowercase(s));
                match r {
                    Ok(sel) => first_unknown(categories@, low) is None && sel@ == pick(
                        categories@,
                        slug_indices(categories@, low),
                    ),
                    Err(msg) => first_unknown(categories@, low) matches Some(s) && msg@
                        == unknown_category_message(s),
                }
            },
        },
{
    match slugs {
        Some(ss) => {
            let mut low: Vec<String> = Vec::new();
            let mut k: usize = 0;
            let ghost want = texts(ss@).map_values(|s: Seq<char>| lowercase(s));
            while k < ss.len()
                invariant
                    k <= ss@.len(),
                    want == texts(ss@).map_values(|s: Seq<char>| lowercase(s)),
                    texts(low@) == want.take(k as int),
                decreases ss@.len() - k,
            {
                let ghost before = low@;
                low.push(to_lowercase(ss[k].as_str()));
                assert(texts(low@) =~= texts(before).push(want[k as int]));
                assert(want.take(k + 1) =~= want.take(k as int).push(want[k as int]));
                k += 1;
            }
            assert(want.take(k as int) =~= want);
            select_by_slugs(categories, &low)
        },
        None => {
            let mut all: Vec<&'a Category> = Vec::new();
            let mut i: usize = 0;
            while i < categories.len()
                invariant
                    i <= categories@.len(),
                    all@ == pick(categories@, Seq::new(i as nat, |j: int| j)),
                decreases categories@.len() - i,
            {
                all.push(&categories[i]);
                assert(pick(categories@, Seq::new((i + 1) as nat, |j: int| j)) =~= pick(
                    categories@,
                    Seq::new(i as nat, |j: int| j),
                ).push(&categories@[i as int]));
                i += 1;
            }
            Ok(all)
        },
    }
}

// ---------------------------------------------------------------------------
// What an apply does with the new keymap
// ---------------------------------------------------------------------------

/// What an apply does once the new keymap text is ready.
#[derive(Debug, PartialEq, Eq, Structural)]
pub enum ApplyStep {
    /// Print the keymap and change nothing (a dry run).
    PrintOnly,
    /// Copy the current keymap to a backup, then write the new one.
    BackupThenWrite,
    /// Write the new keymap.
    Write,
}

/// A dry run only prints; otherwise the keymap is written, after a backup
/// when backups are wanted and there is a keymap to back up.
pub fn apply_step(dry_run: bool, no_backup: bool, keymap_exists: bool) -> (r: ApplyStep)
    ensures
        r == if dry_run {
            ApplyStep::PrintOnly
        } else if !no_backup && keymap_exists {
            ApplyStep::BackupThenWrite
        } else {
            ApplyStep::Write
        },
{
    if dry_run {
        ApplyStep::PrintOnly
    } else if !no_backup && keymap_exists {
        ApplyStep::BackupThenWrite
    } else {
        ApplyStep::Write
    }
}

// ---------------------------------------------------------------------------
// The report of an apply
// ---------------------------------------------------------------------------

/// The report printed after the keymap was written.
pub open spec fn apply_report(sel: Seq<&Category>, keymap_path: Seq<char>) -> Seq<char> {
    "Applied "@ + decimal(total_selected(sel)) + " bindings from "@ + decimal(sel.len())
        + " categories: "@ + join(sel.map_values(|c: &Category| c.name@), ", "@) + "\n"@
        + "Keymap written to "@ + keymap_path + "\n"@
        + "\nRestart Zed or run `zed: reload keymap` for changes to take effect.\n"@
}

/// The report printed after the keymap was written.
pub fn apply_report_text(selected: &[&Category], keymap_path: &str) -> (r: String)
    ensures
        r@ == apply_report(selected@, keymap_path@),
{
    let binding_count = crate::output::count_selected(selected);
    let names = crate::output::names_of(selected);
    let mut out = String::from_str("Applied ");
    out.append(to_decimal(binding_count).as_str());
    out.append(" bindings from ");
    out.append(to_decimal(selected.len() as u128).as_str());
    out.append(" categories: ");
    out.append(join_strings(&names, ", ").as_str());
    out.append("\n");
    out.append("Keymap written to ");
    out.append(keymap_path);
    out.append("\n");
    out.append("\nRestart Zed or run `zed: reload keymap` for changes to take effect.\n");
    out
}

} // verus!
