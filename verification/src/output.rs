use vstd::prelude::*;

use crate::bindings::{action_display_spec, distinct_slugs, total_bindings, Action, Binding, Category};
use crate::escape::{json_escaped, push_json_escaped};
use crate::grouping::{
    all_bindings, collect_bindings, context_order, group_by_context, grouped_by_context,
    in_context, ContextGroup,
};
use crate::order::text_equal;
use crate::text::{concat_all, decimal, lemma_concat_all_holds, lemma_concat_all_prefix, lemma_occurs_around, occurs_at, join, join_strings, lowercase, texts, to_decimal, to_lowercase};

verus! {

// ---------------------------------------------------------------------------
// Counting
// ---------------------------------------------------------------------------

/// How many bindings the (referenced) categories hold together.
pub open spec fn total_selected(cats: Seq<&Category>) -> nat
    decreases cats.len(),
{
    if cats.len() == 0 {
        0
    } else {
        total_selected(cats.drop_last()) + cats.last().bindings@.len()
    }
}

proof fn lemma_count_step(total: u128, n: usize, i: int)
    requires
        0 <= i < usize::MAX,
        total <= i * usize::MAX,
    ensures
        total + n <= (i + 1) * usize::MAX,
        (i + 1) * usize::MAX <= u128::MAX,
{
    assert((i + 1) * usize::MAX <= usize::MAX * usize::MAX) by (nonlinear_arith)
        requires
            0 <= i < usize::MAX,
    ;
    assert(usize::MAX * usize::MAX <= u128::MAX) by (nonlinear_arith)
        requires
            usize::MAX <= u64::MAX,
    ;
    assert((i + 1) * usize::MAX == i * usize::MAX + usize::MAX) by (nonlinear_arith);
}

/// Counts the bindings of the categories. The count is kept in 128 bits, which
/// no number of categories of any size can exceed.
pub fn count_bindings(categories: &[Category]) -> (r: u128)
    ensures
        r == total_bindings(categories@),
{
    let mut total: u128 = 0;
    let mut i: usize = 0;
    assert(categories@.take(0) =~= Seq::<Category>::empty());
    while i < categories.len()
        invariant
            i <= categories@.len(),
            total == total_bindings(categories@.take(i as int)),
            total <= i * usize::MAX,
        decreases categories@.len() - i,
    {
        assert(categories@.take(i + 1).drop_last() =~= categories@.take(i as int));
        let n = categories[i].bindings.len();
        proof {
            lemma_count_step(total, n, i as int);
        }
        total = total + n as u128;
        i += 1;
    }
    assert(categories@.take(i as int) =~= categories@);
    total
}

/// Counts the bindings of the selected categories, in 128 bits as above.
pub fn count_selected(categories: &[&Category]) -> (r: u128)
    ensures
        r == total_selected(categories@),
{
    let mut total: u128 = 0;
    let mut i: usize = 0;
    assert(categories@.take(0) =~= Seq::<&Category>::empty());
    while i < categories.len()
        invariant
            i <= categories@.len(),
            total == total_selected(categories@.take(i as int)),
            total <= i * usize::MAX,
        decreases categories@.len() - i,
    {
        assert(categories@.take(i + 1).drop_last() =~= categories@.take(i as int));
        let n = categories[i].bindings.len();
        proof {
            lemma_count_step(total, n, i as int);
        }
        total = total + n as u128;
        i += 1;
    }
    assert(categories@.take(i as int) =~= categories@);
    total
}

// ---------------------------------------------------------------------------
// The JSON blocks
// ---------------------------------------------------------------------------

/// The JSON text of an action: `"name"`, or `["name", args]` with the
/// argument text (itself JSON) spliced in as it stands. The name is written
/// as a JSON string literal, escaped.
pub open spec fn action_text(action: Action) -> Seq<char> {
    match action {
        Action::Simple(s) => "\""@ + json_escaped(s@) + "\""@,
        Action::WithArg(name, args) => "[\""@ + json_escaped(name@) + "\", "@ + args@ + "]"@,
    }
}

/// The line of one binding inside a block's `bindings` object.
pub open spec fn binding_line(b: Binding) -> Seq<char> {
    "      \""@ + json_escaped(b.key@) + "\": "@ + action_text(b.action)
}

/// The text of the block for one context.
pub open spec fn block_text(context: Seq<char>, bs: Seq<Binding>) -> Seq<char> {
    "  {\n"@ + (if context.len() == 0 {
        Seq::empty()
    } else {
        "    \"context\": \""@ + json_escaped(context) + "\",\n"@
    }) + "    \"__managed_by\": \"zed-win-keys\",\n"@ + "    \"bindings\": {\n"@ + join(
        bs.map_values(|b: Binding| binding_line(b)),
        ",\n"@,
    ) + "\n"@ + "    }\n"@ + "  }"@
}

/// The keymap array text for the bindings of the categories: one block per
/// context, in ascending order of context, each with that context's bindings
/// in order.
pub open spec fn json_blocks_text(cats: Seq<&Category>) -> Seq<char> {
    let all = all_bindings(cats);
    "[\n"@ + join(
        context_order(all).map_values(|c: Seq<char>| block_text(c, in_context(all, c))),
        ",\n"@,
    ) + "\n]"@
}

fn action_json_text(action: &Action) -> (r: String)
    ensures
        r@ == action_text(*action),
{
    match action {
        Action::Simple(s) => {
            let mut out = String::from_str("\"");
            push_json_escaped(&mut out, s);
            out.append("\"");
            out
        },
        Action::WithArg(name, args) => {
            let mut out = String::from_str("[\"");
            push_json_escaped(&mut out, name);
            out.append("\", ");
            out.append(args);
            out.append("]");
            out
        },
    }
}

fn block_for_group(g: &ContextGroup) -> (r: String)
    ensures
        r@ == block_text(g.context@, g.bindings@),
{
    let mut block = String::from_str("  {\n");
    if !g.context.is_empty() {
        block.append("    \"context\": \"");
        push_json_escaped(&mut block, g.context);
        block.append("\",\n");
    }
    block.append("    \"__managed_by\": \"zed-win-keys\",\n");
    block.append("    \"bindings\": {\n");
    let mut lines: Vec<String> = Vec::new();
    let mut i: usize = 0;
    let ghost want = g.bindings@.map_values(|b: Binding| binding_line(b));
    while i < g.bindings.len()
        invariant
            i <= g.bindings@.len(),
            want == g.bindings@.map_values(|b: Binding| binding_line(b)),
            texts(lines@) == want.take(i as int),
        decreases g.bindings@.len() - i,
    {
        let b = &g.bindings[i];
        let mut line = String::from_str("      \"");
        push_json_escaped(&mut line, b.key);
        line.append("\": ");
        let a = action_json_text(&b.action);
        line.append(a.as_str());
        let ghost before = lines@;
        lines.push(line);
        assert(texts(lines@) =~= texts(before).push(binding_line(*b)));
        assert(want.take(i + 1) =~= want.take(i as int).push(want[i as int]));
        i += 1;
    }
    assert(want.take(i as int) =~= want);
    let joined = join_strings(&lines, ",\n");
    block.append(joined.as_str());
    block.append("\n");
    block.append("    }\n");
    block.append("  }");
    block
}

/// Generate the JSON blocks for the keymap, grouped by context, every key,
/// context and action name written as an escaped JSON string.
pub fn generate_json_blocks(categories: &[&Category]) -> (r: String)
    ensures
        r@ == json_blocks_text(categories@),
{
    let all = collect_bindings(categories);
    let grouped = group_by_context(&all);
    let ghost want = context_order(all@).map_values(
        |c: Seq<char>| block_text(c, in_context(all@, c)),
    );
    let mut blocks: Vec<String> = Vec::new();
    let mut i: usize = 0;
    while i < grouped.len()
        invariant
            grouped_by_context(grouped@, all@),
            want == context_order(all@).map_values(
                |c: Seq<char>| block_text(c, in_context(all@, c)),
            ),
            i <= grouped@.len(),
            texts(blocks@) == want.take(i as int),
        decreases grouped@.len() - i,
    {
        let block = block_for_group(&grouped[i]);
        proof {
            assert(grouped@.map_values(|g: ContextGroup| g.context@)[i as int]
                == grouped@[i as int].context@);
            assert(grouped@[i as int].bindings@ == in_context(all@, grouped@[i as int].context@));
        }
        let ghost before = blocks@;
        blocks.push(block);
        assert(texts(blocks@) =~= texts(before).push(want[i as int]));
        assert(want.take(i + 1) =~= want.take(i as int).push(want[i as int]));
        i += 1;
    }
    assert(want.take(i as int) =~= want);
    let mut out = String::from_str("[\n");
    let joined = join_strings(&blocks, ",\n");
    out.append(joined.as_str());
    out.append("\n]");
    out
}

// ---------------------------------------------------------------------------
// The category list
// ---------------------------------------------------------------------------

/// The opening of the category list.
pub open spec fn list_header() -> Seq<char> {
    "# Windows Key Bindings — Available Categories\n\n"@
        + "The following binding categories are available. "@
        + "Use `/win-keys apply <category>` to apply a specific category, "@
        + "or `/win-keys apply` to apply all.\n\n"@
}

/// How a context is shown in the list: `global` when it is empty.
pub open spec fn context_label(context: Seq<char>) -> Seq<char> {
    if context.len() == 0 {
        "global"@
    } else {
        context
    }
}

/// The table row of one binding.
pub open spec fn list_row(b: Binding) -> Seq<char> {
    "| `"@ + b.key@ + "` | `"@ + action_display_spec(b.action) + "` | "@ + context_label(
        b.context@,
    ) + " |\n"@
}

/// The section of one category: heading, description, and a table of its
/// bindings.
pub open spec fn list_section(c: Category) -> Seq<char> {
    "## "@ + c.name@ + " ["@ + c.slug@ + "]\n"@ + c.description@ + "\n\n"@
        + "| Shortcut | Action | Context |\n"@ + "|----------|--------|---------|\n"@ + concat_all(
        c.bindings@.map_values(|b: Binding| list_row(b)),
    ) + "\n"@
}

/// The whole category list, ending with the count of bindings and categories.
pub open spec fn list_output(cats: Seq<Category>) -> Seq<char> {
    list_header() + concat_all(cats.map_values(|c: Category| list_section(c))) + "**Total: "@
        + decimal(total_bindings(cats)) + " bindings across "@ + decimal(cats.len())
        + " categories.**\n"@
}

/// The list holds the section of every category.
pub proof fn lemma_list_holds_section(cats: Seq<Category>, i: int)
    requires
        0 <= i < cats.len(),
    ensures
        exists|m: int| occurs_at(list_output(cats), list_section(cats[i]), m),
{
    let k = lemma_list_section_at(cats, i);
}

/// The sections stand in catalog order: the section of an earlier category
/// ends before the section of a later one begins.
pub proof fn lemma_list_sections_in_order(cats: Seq<Category>, i: int, j: int)
    requires
        0 <= i < j < cats.len(),
    ensures
        exists|m: int, n: int|
            occurs_at(list_output(cats), list_section(cats[i]), m) && occurs_at(
                list_output(cats),
                list_section(cats[j]),
                n,
            ) && m + list_section(cats[i]).len() <= n,
{
    let m = lemma_list_section_at(cats, i);
    let n = lemma_list_section_at(cats, j);
    let sections = cats.map_values(|c: Category| list_section(c));
    lemma_concat_all_prefix(sections, i, j);
}

proof fn lemma_list_section_at(cats: Seq<Category>, i: int) -> (k: int)
    requires
        0 <= i < cats.len(),
    ensures
        k == list_header().len() + concat_all(
            cats.map_values(|c: Category| list_section(c)).take(i),
        ).len(),
        occurs_at(list_output(cats), list_section(cats[i]), k),
{
    let sections = cats.map_values(|c: Category| list_section(c));
    let tail = "**Total: "@ + decimal(total_bindings(cats)) + " bindings across "@ + decimal(
        cats.len(),
    ) + " categories.**\n"@;
    lemma_concat_all_holds(sections, i);
    assert(sections[i] == list_section(cats[i]));
    lemma_occurs_around(list_header(), concat_all(sections), tail, sections[i], concat_all(sections.take(i)).len() as int);
    assert(list_output(cats) =~= list_header() + concat_all(sections) + tail);
    (list_header().len() + concat_all(sections.take(i)).len()) as int
}

#[verifier::rlimit(40)]
fn list_section_text(cat: &Category) -> (r: String)
    ensures
        r@ == list_section(*cat),
{
    let mut out = String::from_str("## ");
    out.append(cat.name);
    out.append(" [");
    out.append(cat.slug);
    out.append("]\n");
    out.append(cat.description);
    out.append("\n\n");
    out.append("| Shortcut | Action | Context |\n");
    out.append("|----------|--------|---------|\n");
    let ghost head = out@;
    let ghost rows = cat.bindings@.map_values(|b: Binding| list_row(b));
    let mut i: usize = 0;
    assert(rows.take(0) =~= Seq::<Seq<char>>::empty());
    while i < cat.bindings.len()
        invariant
            i <= cat.bindings@.len(),
            rows == cat.bindings@.map_values(|b: Binding| list_row(b)),
            out@ == head + concat_all(rows.take(i as int)),
        decreases cat.bindings@.len() - i,
    {
        let b = &cat.bindings[i];
        let ctx = if b.context.is_empty() {
            "global"
        } else {
            b.context
        };
        out.append("| `");
        out.append(b.key);
        out.append("` | `");
        let shown = b.action_display();
        out.append(shown.as_str());
        out.append("` | ");
        out.append(ctx);
        out.append(" |\n");
        assert(rows.take(i + 1).drop_last() =~= rows.take(i as int));
        assert(rows.take(i + 1).last() == list_row(*b));
        i += 1;
    }
    assert(rows.take(i as int) =~= rows);
    out.append("\n");
    out
}

/// The list of all categories and their bindings, as a Markdown document.
pub fn generate_list_output(categories: &[Category]) -> (r: String)
    ensures
        r@ == list_output(categories@),
{
    let mut out = String::from_str("# Windows Key Bindings — Available Categories\n\n");
    out.append("The following binding categories are available. ");
    out.append("Use `/win-keys apply <category>` to apply a specific category, ");
    out.append("or `/win-keys apply` to apply all.\n\n");
    let ghost sections = categories@.map_values(|c: Category| list_section(c));
    let mut i: usize = 0;
    assert(sections.take(0) =~= Seq::<Seq<char>>::empty());
    while i < categories.len()
        invariant
            i <= categories@.len(),
            sections == categories@.map_values(|c: Category| list_section(c)),
            out@ == list_header() + concat_all(sections.take(i as int)),
        decreases categories@.len() - i,
    {
        let s = list_section_text(&categories[i]);
        out.append(s.as_str());
        assert(sections.take(i + 1).drop_last() =~= sections.take(i as int));
        i += 1;
    }
    assert(sections.take(i as int) =~= sections);
    let total = count_bindings(categories);
    out.append("**Total: ");
    out.append(to_decimal(total).as_str());
    out.append(" bindings across ");
    out.append(to_decimal(categories.len() as u128).as_str());
    out.append(" categories.**\n");
    out
}

// ---------------------------------------------------------------------------
// Revert instructions
// ---------------------------------------------------------------------------

/// The instructions for removing the applied bindings.
pub open spec fn revert_text() -> Seq<char> {
    "# Windows Key Bindings — Revert Instructions\n\n"@
        + "To revert Windows-style keybindings, you need to remove all JSON blocks that contain `\"__managed_by\": \"zed-win-keys\"` from the user's keymap.json.\n\n"@
        + "## Keymap locations by platform\n\n"@ + "- **macOS:** `~/.config/zed/keymap.json`\n"@
        + "- **Linux:** `~/.config/zed/keymap.json`\n"@
        + "- **Windows:** `%APPDATA%\\Zed\\keymap.json`\n\n"@ + "## Steps\n\n"@
        + "1. Open the keymap file\n"@
        + "2. Find and remove every object in the top-level array that has `\"__managed_by\": \"zed-win-keys\"`\n"@
        + "3. Preserve all other objects — those are the user's custom bindings\n"@
        + "4. Save the file\n"@ + "5. The user should restart Zed or run `zed: reload keymap`\n\n"@
        + "**Important:** Do NOT remove objects that don't have the `__managed_by` marker.\n"@
}

/// The instructions for removing the applied bindings.
pub fn generate_revert_instructions() -> (r: String)
    ensures
        r@ == revert_text(),
{
    let mut out = String::from_str("# Windows Key Bindings — Revert Instructions\n\n");
    out.append("To revert Windows-style keybindings, you need to remove all JSON blocks that contain `\"__managed_by\": \"zed-win-keys\"` from the user's keymap.json.\n\n");
    out.append("## Keymap locations by platform\n\n");
    out.append("- **macOS:** `~/.config/zed/keymap.json`\n");
    out.append("- **Linux:** `~/.config/zed/keymap.json`\n");
    out.append("- **Windows:** `%APPDATA%\\Zed\\keymap.json`\n\n");
    out.append("## Steps\n\n");
    out.append("1. Open the keymap file\n");
    out.append("2. Find and remove every object in the top-level array that has `\"__managed_by\": \"zed-win-keys\"`\n");
    out.append("3. Preserve all other objects — those are the user's custom bindings\n");
    out.append("4. Save the file\n");
    out.append("5. The user should restart Zed or run `zed: reload keymap`\n\n");
    out.append("**Important:** Do NOT remove objects that don't have the `__managed_by` marker.\n");
    out
}

// ---------------------------------------------------------------------------
// Choosing categories
// ---------------------------------------------------------------------------

/// The index of the first category from `start` on whose slug is `slug`.
pub open spec fn slug_index_from(cats: Seq<Category>, slug: Seq<char>, start: int) -> Option<int>
    decreases cats.len() - start,
{
    if start < 0 || start >= cats.len() {
        None
    } else if cats[start].slug@ == slug {
        Some(start)
    } else {
        slug_index_from(cats, slug, start + 1)
    }
}

/// A filter none of whose slugs, lowercased, names a category chooses what an
/// empty filter chooses: every category, so the apply document is the same.
pub proof fn lemma_unknown_filter_applies_all(cats: Seq<Category>, filter: Seq<&str>)
    requires
        forall|k: int| 0 <= k < filter.len() ==> #[trigger] slug_index(cats, lowercase(filter[k]@)) is None,
    ensures
        apply_output(pick(cats, selected_indices(cats, lowered(filter)))) == apply_output(
            pick(cats, selected_indices(cats, lowered(Seq::<&str>::empty()))),
        ),
{
    let ss = lowered(filter);
    assert forall|k: int| 0 <= k < ss.len() implies #[trigger] slug_index(cats, ss[k]) is None by {
        assert(ss[k] == lowercase(filter[k]@));
    }
    lemma_unknown_slugs_select_all(cats, ss);
    let none = lowered(Seq::<&str>::empty());
    assert(none.len() == 0);
    lemma_unknown_slugs_select_all(cats, none);
}

/// Slugs are matched by their lowercase forms alone: two filters whose slugs
/// lowercase alike choose the same categories and give the same document.
pub proof fn lemma_filter_matched_in_lowercase(cats: Seq<Category>, f: Seq<&str>, g: Seq<&str>)
    requires
        f.len() == g.len(),
        forall|k: int| 0 <= k < f.len() ==> lowercase(#[trigger] f[k]@) == lowercase(g[k]@),
    ensures
        apply_output(pick(cats, selected_indices(cats, lowered(f)))) == apply_output(
            pick(cats, selected_indices(cats, lowered(g))),
        ),
{
    assert(lowered(f) =~= lowered(g));
}

/// The index of the first category whose slug is `slug`.
pub open spec fn slug_index(cats: Seq<Category>, slug: Seq<char>) -> Option<int> {
    slug_index_from(cats, slug, 0)
}

/// The categories named by the slugs, in the order of the slugs (a slug named
/// twice gives its category twice); slugs that name none are passed over.
pub open spec fn matched_indices(cats: Seq<Category>, slugs: Seq<Seq<char>>) -> Seq<int>
    decreases slugs.len(),
{
    if slugs.len() == 0 {
        Seq::empty()
    } else {
        let m = matched_indices(cats, slugs.drop_last());
        match slug_index(cats, slugs.last()) {
            Some(i) => m.push(i),
            None => m,
        }
    }
}

/// The categories to apply: those the slugs name, or all of them when the
/// slugs name none.
pub open spec fn selected_indices(cats: Seq<Category>, slugs: Seq<Seq<char>>) -> Seq<int> {
    let m = matched_indices(cats, slugs);
    if m.len() == 0 {
        Seq::new(cats.len(), |i: int| i)
    } else {
        m
    }
}

/// The categories at the given indices.
pub open spec fn pick<'a>(cats: Seq<Category>, idx: Seq<int>) -> Seq<&'a Category> {
    idx.map_values(|i: int| &cats[i])
}

proof fn lemma_slug_index_from(cats: Seq<Category>, slug: Seq<char>, start: int)
    requires
        0 <= start,
    ensures
        slug_index_from(cats, slug, start) matches Some(i) ==> start <= i < cats.len()
            && cats[i].slug@ == slug,
    decreases cats.len() - start,
{
    if start < cats.len() && cats[start].slug@ != slug {
        lemma_slug_index_from(cats, slug, start + 1);
    }
}

/// A slug's index is a category with that slug.
pub proof fn lemma_slug_index_in_range(cats: Seq<Category>, slug: Seq<char>)
    ensures
        slug_index(cats, slug) matches Some(i) ==> 0 <= i < cats.len() && cats[i].slug@ == slug,
{
    lemma_slug_index_from(cats, slug, 0);
}

/// Slugs that name no category (none at all included) leave every category
/// selected, in catalog order.
pub proof fn lemma_unknown_slugs_select_all(cats: Seq<Category>, slugs: Seq<Seq<char>>)
    requires
        forall|k: int| 0 <= k < slugs.len() ==> #[trigger] slug_index(cats, slugs[k]) is None,
    ensures
        selected_indices(cats, slugs) == Seq::new(cats.len(), |i: int| i),
    decreases slugs.len(),
{
    if slugs.len() > 0 {
        assert forall|k: int| 0 <= k < slugs.drop_last().len() implies #[trigger] slug_index(
            cats,
            slugs.drop_last()[k],
        ) is None by {
            assert(slugs.drop_last()[k] == slugs[k]);
        }
        lemma_unknown_slugs_select_all(cats, slugs.drop_last());
        assert(slug_index(cats, slugs[slugs.len() - 1]) is None);
    }
}

/// The index of the first category whose slug is `slug`.
pub fn find_slug(categories: &[Category], slug: &str) -> (r: Option<usize>)
    ensures
        match r {
            Some(i) => slug_index(categories@, slug@) == Some(i as int),
            None => slug_index(categories@, slug@) is None,
        },
{
    let mut i: usize = 0;
    while i < categories.len()
        invariant
            i <= categories@.len(),
            slug_index_from(categories@, slug@, i as int) == slug_index(categories@, slug@),
        decreases categories@.len() - i,
    {
        if text_equal(categories[i].slug, slug) {
            return Some(i);
        }
        i += 1;
    }
    None
}

/// The categories that the (already lowercased) slugs pick: each slug picks
/// the category with exactly that slug; when none is picked, all are.
pub fn select_categories<'a>(categories: &'a [Category], slugs: &Vec<String>) -> (r: Vec<&'a Category>)
    ensures
        r@ == pick(categories@, selected_indices(categories@, texts(slugs@))),
{
    let ghost ss = texts(slugs@);
    let mut matched: Vec<&'a Category> = Vec::new();
    let mut k: usize = 0;
    assert(ss.take(0) =~= Seq::<Seq<char>>::empty());
    while k < slugs.len()
        invariant
            k <= slugs@.len(),
            ss == texts(slugs@),
            matched@ == pick(categories@, matched_indices(categories@, ss.take(k as int))),
        decreases slugs@.len() - k,
    {
        assert(ss.take(k + 1).drop_last() =~= ss.take(k as int));
        assert(ss.take(k + 1).last() == slugs@[k as int]@);
        let found = find_slug(categories, slugs[k].as_str());
        match found {
            Some(i) => {
                proof {
                    lemma_slug_index_from(categories@, slugs@[k as int]@, 0);
                }
                let ghost before = matched@;
                matched.push(&categories[i]);
                assert(matched@ =~= pick(
                    categories@,
                    matched_indices(categories@, ss.take(k as int)).push(i as int),
                ));
            },
            None => {},
        }
        k += 1;
    }
    assert(ss.take(k as int) =~= ss);
    if matched.len() == 0 {
        let mut all: Vec<&'a Category> = Vec::new();
        let mut i: usize = 0;
        while i < categories.len()
            invariant
                i <= categories@.len(),
                all@ == pick(categories@, Seq::new(i as nat, |j: int| j)),
            decreases categories@.len() - i,
        {
            all.push(&categories[i]);
            assert(pick(categories@, Seq::new((i + 1) as nat, |j: int| j)) =~= pick(
                categories@,
                Seq::new(i as nat, |j: int| j),
            ).push(&categories@[i as int]));
            i += 1;
        }
        all
    } else {
        matched
    }
}

// ---------------------------------------------------------------------------
// The apply document
// ---------------------------------------------------------------------------

/// The names of the categories, in order.
pub open spec fn category_names(sel: Seq<&Category>) -> Seq<Seq<char>> {
    sel.map_values(|c: &Category| c.name@)
}

/// The summary line of one category.
pub open spec fn summary_line(c: Category) -> Seq<char> {
    "- **"@ + c.name@ + "** ("@ + c.slug@ + "): "@ + c.description@ + " ("@ + decimal(
        c.bindings@.len(),
    ) + " bindings)\n"@
}

/// The instructions of the apply document, from its first heading to the
/// heading of the blocks.
pub open spec fn apply_instructions() -> Seq<char> {
    "## Instructions for applying\n\n"@
        + "You are helping the user apply Windows/Linux-style keyboard shortcuts to Zed on macOS. "@
        + "These replace the default Cmd-based macOS shortcuts with Ctrl-based Windows-style ones.\n\n"@
        + "### Keymap file location\n\n"@ + "- **macOS:** `~/.config/zed/keymap.json`\n"@
        + "- **Linux:** `~/.config/zed/keymap.json`\n"@
        + "- **Windows:** `%APPDATA%\\Zed\\keymap.json`\n\n"@ + "### How to apply\n\n"@
        + "1. Read the user's current `keymap.json` (create it if it doesn't exist)\n"@
        + "2. The file should contain a JSON array `[...]` at the top level\n"@
        + "3. If there are existing blocks with `\"__managed_by\": \"zed-win-keys\"`, remove them first (these are from a previous apply)\n"@
        + "4. Append ALL of the JSON blocks listed below to the array\n"@
        + "5. Preserve all existing user blocks that do NOT have the `__managed_by` marker\n"@
        + "6. Write the file back\n"@
        + "7. Tell the user to restart Zed or run `zed: reload keymap` from the command palette\n\n"@
        + "### Important notes\n\n"@
        + "- The `__managed_by` field is a marker so we can identify and update/remove these blocks later\n"@
        + "- NEVER remove blocks that don't have this marker — those are the user's own customizations\n"@
        + "- If the file doesn't exist or is empty, create it with just these blocks inside a `[...]` array\n"@
        + "- If the file has JSONC comments (`//` or `/* */`), preserve them\n\n"@
}

/// The apply document for the chosen categories: a summary, the
/// instructions, the keymap blocks and one line per category.
pub open spec fn apply_output(sel: Seq<&Category>) -> Seq<char> {
    "# Windows Key Bindings for Zed\n\n"@ + "Apply "@ + decimal(total_selected(sel))
        + " Windows-style keybindings ("@ + decimal(sel.len()) + " categories: "@ + join(
        category_names(sel),
        ", "@,
    ) + ") to Zed's keymap.\n\n"@ + apply_instructions() + "## Keybinding blocks to add\n\n"@
        + "Add the following JSON blocks to the keymap array:\n\n"@ + "```json\n"@
        + json_blocks_text(sel) + "\n```\n\n"@ + "## Categories included\n\n"@ + concat_all(
        sel.map_values(|c: &Category| summary_line(*c)),
    )
}

fn apply_instructions_text() -> (r: String)
    ensures
        r@ == apply_instructions(),
{
    let mut out = String::from_str("## Instructions for applying\n\n");
    out.append("You are helping the user apply Windows/Linux-style keyboard shortcuts to Zed on macOS. ");
    out.append("These replace the default Cmd-based macOS shortcuts with Ctrl-based Windows-style ones.\n\n");
    out.append("### Keymap file location\n\n");
    out.append("- **macOS:** `~/.config/zed/keymap.json`\n");
    out.append("- **Linux:** `~/.config/zed/keymap.json`\n");
    out.append("- **Windows:** `%APPDATA%\\Zed\\keymap.json`\n\n");
    out.append("### How to apply\n\n");
    out.append("1. Read the user's current `keymap.json` (create it if it doesn't exist)\n");
    out.append("2. The file should contain a JSON array `[...]` at the top level\n");
    out.append("3. If there are existing blocks with `\"__managed_by\": \"zed-win-keys\"`, remove them first (these are from a previous apply)\n");
    out.append("4. Append ALL of the JSON blocks listed below to the array\n");
    out.append("5. Preserve all existing user blocks that do NOT have the `__managed_by` marker\n");
    out.append("6. Write the file back\n");
    out.append("7. Tell the user to restart Zed or run `zed: reload keymap` from the command palette\n\n");
    out.append("### Important notes\n\n");
    out.append("- The `__managed_by` field is a marker so we can identify and update/remove these blocks later\n");
    out.append("- NEVER remove blocks that don't have this marker — those are the user's own customizations\n");
    out.append("- If the file doesn't exist or is empty, create it with just these blocks inside a `[...]` array\n");
    out.append("- If the file has JSONC comments (`//` or `/* */`), preserve them\n\n");
    out
}

/// The names of the categories, in order.
pub fn names_of(selected: &[&Category]) -> (r: Vec<String>)
    ensures
        texts(r@) == category_names(selected@),
{
    let mut names: Vec<String> = Vec::new();
    let mut i: usize = 0;
    while i < selected.len()
        invariant
            i <= selected@.len(),
            texts(names@) == category_names(selected@).take(i as int),
        decreases selected@.len() - i,
    {
        let ghost before = names@;
        names.push(String::from_str(selected[i].name));
        assert(texts(names@) =~= texts(before).push(selected@[i as int].name@));
        assert(category_names(selected@).take(i + 1) =~= category_names(selected@).take(
            i as int,
        ).push(selected@[i as int].name@));
        i += 1;
    }
    assert(category_names(selected@).take(i as int) =~= category_names(selected@));
    names
}

/// The apply document for the chosen categories.
#[verifier::rlimit(40)]
pub fn apply_output_for(selected: &[&Category]) -> (r: String)
    ensures
        r@ == apply_output(selected@),
{
    let binding_count = count_selected(selected);
    let cat_names = names_of(selected);
    let mut out = String::from_str("# Windows Key Bindings for Zed\n\n");
    out.append("Apply ");
    out.append(to_decimal(binding_count).as_str());
    out.append(" Windows-style keybindings (");
    out.append(to_decimal(selected.len() as u128).as_str());
    out.append(" categories: ");
    out.append(join_strings(&cat_names, ", ").as_str());
    out.append(") to Zed's keymap.\n\n");
    // Instructions for the Agent
    out.append(apply_instructions_text().as_str());
    // The actual JSON blocks
    out.append("## Keybinding blocks to add\n\n");
    out.append("Add the following JSON blocks to the keymap array:\n\n");
    out.append("```json\n");
    let blocks = generate_json_blocks(selected);
    out.append(blocks.as_str());
    out.append("\n```\n\n");
    // Category summary
    out.append("## Categories included\n\n");
    let ghost head = out@;
    let ghost lines = selected@.map_values(|c: &Category| summary_line(*c));
    let mut i: usize = 0;
    assert(lines.take(0) =~= Seq::<Seq<char>>::empty());
    while i < selected.len()
        invariant
            i <= selected@.len(),
            lines == selected@.map_values(|c: &Category| summary_line(*c)),
            out@ == head + concat_all(lines.take(i as int)),
        decreases selected@.len() - i,
    {
        let cat = selected[i];
        out.append("- **");
        out.append(cat.name);
        out.append("** (");
        out.append(cat.slug);
        out.append("): ");
        out.append(cat.description);
        out.append(" (");
        out.append(to_decimal(cat.bindings.len() as u128).as_str());
        out.append(" bindings)\n");
        assert(lines.take(i + 1).drop_last() =~= lines.take(i as int));
        i += 1;
    }
    assert(lines.take(i as int) =~= lines);
    out
}

/// The lowercased forms of the filter's slugs.
pub open spec fn lowered(filter: Seq<&str>) -> Seq<Seq<char>> {
    filter.map_values(|s: &str| lowercase(s@))
}

/// The apply document for the categories that the filter names (compared in
/// lowercase); all categories when it names none.
pub fn generate_apply_output(categories: &[Category], category_filter: &[&str]) -> (r: String)
    ensures
        r@ == apply_output(
            pick(categories@, selected_indices(categories@, lowered(category_filter@))),
        ),
{
    let mut slugs: Vec<String> = Vec::new();
    let mut k: usize = 0;
    while k < category_filter.len()
        invariant
            k <= category_filter@.len(),
            texts(slugs@) == lowered(category_filter@).take(k as int),
        decreases category_filter@.len() - k,
    {
        let ghost before = slugs@;
        slugs.push(to_lowercase(category_filter[k]));
        assert(texts(slugs@) =~= texts(before).push(lowercase(category_filter@[k as int]@)));
        assert(lowered(category_filter@).take(k + 1) =~= lowered(category_filter@).take(
            k as int,
        ).push(lowercase(category_filter@[k as int]@)));
        k += 1;
    }
    assert(lowered(category_filter@).take(k as int) =~= lowered(category_filter@));
    let selected = select_categories(categories, &slugs);
    apply_output_for(selected.as_slice())
}

// ---------------------------------------------------------------------------
// The slash command
// ---------------------------------------------------------------------------

/// The name of the slash command.
pub const COMMAND_NAME: &'static str = "win-keys";

/// The argument completions offered for a command: for `win-keys`, the three
/// subcommands and `apply <slug>` for each category; nothing for any other
/// command.
pub open spec fn completion_labels_spec(command: Seq<char>, cats: Seq<Category>) -> Seq<Seq<char>> {
    if command != COMMAND_NAME@ {
        Seq::empty()
    } else {
        seq!["apply"@, "revert"@, "list"@] + cats.map_values(|c: Category| "apply "@ + c.slug@)
    }
}

proof fn lemma_slug_index_from_distinct(cats: Seq<Category>, i: int, k: int)
    requires
        distinct_slugs(cats),
        0 <= k <= i < cats.len(),
    ensures
        slug_index_from(cats, cats[i].slug@, k) == Some(i),
    decreases i - k,
{
    if k < i {
        assert(cats[k].slug@ != cats[i].slug@);
        lemma_slug_index_from_distinct(cats, i, k + 1);
    }
}

/// Where slugs are distinct, a category's slug picks out that category.
pub proof fn lemma_slug_names_its_category(cats: Seq<Category>, i: int)
    requires
        distinct_slugs(cats),
        0 <= i < cats.len(),
    ensures
        slug_index(cats, cats[i].slug@) == Some(i),
{
    lemma_slug_index_from_distinct(cats, i, 0);
}

/// The completions of `win-keys` are the three subcommands and then one per
/// category, in catalog order, each `apply ` followed by a text that, as a
/// slug, picks out exactly that category (where slugs are distinct).
pub proof fn lemma_completion_names_its_category(cats: Seq<Category>, i: int)
    requires
        distinct_slugs(cats),
        0 <= i < cats.len(),
    ensures
        completion_labels_spec(COMMAND_NAME@, cats).len() == cats.len() + 3,
        completion_labels_spec(COMMAND_NAME@, cats)[i + 3].take(6) == "apply "@,
        slug_index(cats, completion_labels_spec(COMMAND_NAME@, cats)[i + 3].skip(6)) == Some(i),
{
    reveal_strlit("apply ");
    let label = completion_labels_spec(COMMAND_NAME@, cats)[i + 3];
    assert(label == "apply "@ + cats[i].slug@);
    assert(label.take(6) =~= "apply "@);
    assert(label.skip(6) =~= cats[i].slug@);
    lemma_slug_names_its_category(cats, i);
}

/// The argument completions offered for a command; each one is both the
/// label and the text it inserts.
pub fn completion_labels(command_name: &str, categories: &[Category]) -> (r: Vec<String>)
    ensures
        texts(r@) == completion_labels_spec(command_name@, categories@),
{
    if !text_equal(command_name, COMMAND_NAME) {
        let r: Vec<String> = Vec::new();
        assert(texts(r@) =~= Seq::<Seq<char>>::empty());
        return r;
    }
    let mut completions: Vec<String> = Vec::new();
    completions.push(String::from_str("apply"));
    completions.push(String::from_str("revert"));
    completions.push(String::from_str("list"));
    let ghost head = seq!["apply"@, "revert"@, "list"@];
    let ghost rest = categories@.map_values(|c: Category| "apply "@ + c.slug@);
    assert(texts(completions@) =~= head);
    // Add each category as a completion
    let mut i: usize = 0;
    while i < categories.len()
        invariant
            i <= categories@.len(),
            head == seq!["apply"@, "revert"@, "list"@],
            rest == categories@.map_values(|c: Category| "apply "@ + c.slug@),
            texts(completions@) == head + rest.take(i as int),
        decreases categories@.len() - i,
    {
        let mut label = String::from_str("apply ");
        label.append(categories[i].slug);
        let ghost before = completions@;
        completions.push(label);
        assert(texts(completions@) =~= texts(before).push(rest[i as int]));
        assert(rest.take(i + 1) =~= rest.take(i as int).push(rest[i as int]));
        i += 1;
    }
    assert(rest.take(i as int) =~= rest);
    completions
}

/// The lowercased forms of some texts.
pub open spec fn lowered_texts(s: Seq<Seq<char>>) -> Seq<Seq<char>> {
    s.map_values(|t: Seq<char>| lowercase(t))
}

/// The apply document for the categories that the slugs name (compared in
/// lowercase), or for all when they name none.
pub open spec fn apply_reply(cats: Seq<Category>, slugs: Seq<Seq<char>>) -> Seq<char> {
    apply_output(pick(cats, selected_indices(cats, lowered_texts(slugs))))
}

/// What the slash command answers with for its arguments: the first argument
/// picks `list`, `revert` or `apply` (the default, also without arguments);
/// after `apply` the remaining arguments, and in place of any other
/// subcommand all arguments, are slugs of categories to apply.
pub open spec fn slash_reply(args: Seq<Seq<char>>, cats: Seq<Category>) -> Seq<char> {
    let sub = if args.len() == 0 {
        "apply"@
    } else {
        args[0]
    };
    if sub == "list"@ {
        list_output(cats)
    } else if sub == "revert"@ {
        revert_text()
    } else if sub == "apply"@ {
        apply_reply(cats, if args.len() == 0 { args } else { args.skip(1) })
    } else {
        apply_reply(cats, args)
    }
}

fn str_refs(args: &Vec<String>, from: usize) -> (r: Vec<&str>)
    requires
        from <= args@.len(),
    ensures
        r@.map_values(|s: &str| s@) == texts(args@).skip(from as int),
{
    let mut out: Vec<&str> = Vec::new();
    let mut i: usize = from;
    while i < args.len()
        invariant
            from <= i <= args@.len(),
            out@.map_values(|s: &str| s@) == texts(args@).subrange(from as int, i as int),
        decreases args@.len() - i,
    {
        let ghost before = out@;
        out.push(args[i].as_str());
        assert(out@.map_values(|s: &str| s@) =~= before.map_values(|s: &str| s@).push(args@[i as int]@));
        assert(texts(args@).subrange(from as int, i + 1) =~= texts(args@).subrange(from as int, i as int).push(args@[i as int]@));
        i += 1;
    }
    assert(texts(args@).subrange(from as int, i as int) =~= texts(args@).skip(from as int));
    out
}

/// The answer of the slash command: `Err("Unknown command")` for any command
/// but `win-keys`, else the text for its arguments.
pub fn run_slash_command(command_name: &str, args: &Vec<String>, categories: &[Category]) -> (r: Result<String, String>)
    ensures
        match r {
            Ok(text) => command_name@ == COMMAND_NAME@ && text@ == slash_reply(texts(args@), categories@),
            Err(e) => command_name@ != COMMAND_NAME@ && e@ == "Unknown command"@,
        },
{
    if !text_equal(command_name, COMMAND_NAME) {
        return Err(String::from_str("Unknown command"));
    }
    let ghost a = texts(args@);
    let subcommand: &str = if args.len() == 0 {
        "apply"
    } else {
        args[0].as_str()
    };
    assert(subcommand@ == if a.len() == 0 { "apply"@ } else { a[0] });
    let text = if text_equal(subcommand, "list") {
        generate_list_output(categories)
    } else if text_equal(subcommand, "revert") {
        generate_revert_instructions()
    } else if text_equal(subcommand, "apply") {
        let from = if args.len() == 0 { 0 } else { 1 };
        let filter = str_refs(args, from);
        assert(a.skip(from as int) == if a.len() == 0 { a } else { a.skip(1) }) by {
            if a.len() == 0 {
                assert(a.skip(0) =~= a);
            }
        }
        assert(lowered(filter@) =~= lowered_texts(a.skip(from as int)));
        generate_apply_output(categories, filter.as_slice())
    } else {
        // Treat unknown args as category names for apply
        let filter = str_refs(args, 0);
        assert(a.skip(0) =~= a);
        assert(lowered(filter@) =~= lowered_texts(a));
        generate_apply_output(categories, filter.as_slice())
    };
    Ok(text)
}

} // verus!
