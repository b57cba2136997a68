use vstd::prelude::*;

use crate::bindings::{Action, Binding, Category};
use crate::grouping::{
    all_bindings, collect_bindings, context_order, group_by_context, grouped_by_context,
    in_context, ContextGroup,
};
use crate::jsonc::{jsonc_stripped, remove_trailing_commas, strip_jsonc_comments, without_trailing_commas};
use crate::json_text::{json_text_parses, parse_json, parsed_json};
use crate::json::{lemma_array_view, lemma_object_view, lookup, views, Json, JsonView};
use crate::order::text_equal;
use crate::text::{trim_text, trimmed};

verus! {

/// The key of the marker we embed so we can identify our blocks later.
pub const MARKER_KEY: &'static str = "__managed_by";

/// The value of the marker.
pub const MARKER_VALUE: &'static str = "zed-win-keys";

/// A block is ours when it is an object whose `__managed_by` entry is the
/// string `zed-win-keys`.
pub open spec fn is_managed(block: JsonView) -> bool {
    match block {
        JsonView::Object(entries) => lookup(entries, MARKER_KEY@) == Some(
            JsonView::Str(MARKER_VALUE@),
        ),
        _ => false,
    }
}

/// The blocks that are not ours, in their order.
pub open spec fn unmanaged(s: Seq<JsonView>) -> Seq<JsonView>
    decreases s.len(),
{
    if s.len() == 0 {
        s
    } else if is_managed(s[0]) {
        unmanaged(s.drop_first())
    } else {
        seq![s[0]] + unmanaged(s.drop_first())
    }
}

/// The items of an array; nothing for any other value.
pub open spec fn array_items(v: JsonView) -> Seq<JsonView> {
    match v {
        JsonView::Array(items) => items,
        _ => Seq::empty(),
    }
}

/// The keymap after an apply: the existing top-level array without our old
/// blocks, then the new blocks. A keymap that is not an array counts as empty.
pub open spec fn merged(existing: JsonView, new_blocks: Seq<JsonView>) -> JsonView {
    JsonView::Array(unmanaged(array_items(existing)) + new_blocks)
}

pub proof fn lemma_unmanaged_concat(a: Seq<JsonView>, b: Seq<JsonView>)
    ensures
        unmanaged(a + b) == unmanaged(a) + unmanaged(b),
    decreases a.len(),
{
    if a.len() == 0 {
        assert(a + b =~= b);
        assert(unmanaged(a) + unmanaged(b) =~= unmanaged(b));
    } else {
        assert((a + b).drop_first() =~= a.drop_first() + b);
        lemma_unmanaged_concat(a.drop_first(), b);
        if !is_managed(a[0]) {
            assert(seq![a[0]] + (unmanaged(a.drop_first()) + unmanaged(b)) =~= (seq![a[0]]
                + unmanaged(a.drop_first())) + unmanaged(b));
        }
    }
}

pub proof fn lemma_unmanaged_idempotent(s: Seq<JsonView>)
    ensures
        unmanaged(unmanaged(s)) == unmanaged(s),
    decreases s.len(),
{
    if s.len() > 0 {
        lemma_unmanaged_idempotent(s.drop_first());
        if !is_managed(s[0]) {
            let r = unmanaged(s.drop_first());
            assert((seq![s[0]] + r).drop_first() =~= r);
        }
    }
}

/// Blocks that are all ours leave nothing when ours are removed.
pub proof fn lemma_unmanaged_of_managed(s: Seq<JsonView>)
    requires
        forall|i: int| 0 <= i < s.len() ==> is_managed(#[trigger] s[i]),
    ensures
        unmanaged(s) == Seq::<JsonView>::empty(),
    decreases s.len(),
{
    if s.len() > 0 {
        assert(is_managed(s[0]));
        assert forall|i: int| 0 <= i < s.drop_first().len() implies is_managed(
            #[trigger] s.drop_first()[i],
        ) by {
            assert(s.drop_first()[i] == s[i + 1]);
        }
        lemma_unmanaged_of_managed(s.drop_first());
    }
}

/// Applying the same blocks twice gives the keymap that applying them once
/// gives: the first apply's blocks are the ones the second replaces.
pub proof fn lemma_merge_idempotent(existing: JsonView, new_blocks: Seq<JsonView>)
    requires
        forall|i: int| 0 <= i < new_blocks.len() ==> is_managed(#[trigger] new_blocks[i]),
    ensures
        merged(merged(existing, new_blocks), new_blocks) == merged(existing, new_blocks),
{
    let user = unmanaged(array_items(existing));
    lemma_unmanaged_concat(user, new_blocks);
    lemma_unmanaged_idempotent(array_items(existing));
    lemma_unmanaged_of_managed(new_blocks);
    assert(user + Seq::<JsonView>::empty() =~= user);
}

/// Removing our blocks from an applied keymap gives back exactly the user's
/// own blocks of the keymap before the apply, in their order.
pub proof fn lemma_merge_preserves_user_blocks(existing: JsonView, new_blocks: Seq<JsonView>)
    requires
        forall|i: int| 0 <= i < new_blocks.len() ==> is_managed(#[trigger] new_blocks[i]),
    ensures
        unmanaged(array_items(merged(existing, new_blocks))) == unmanaged(array_items(existing)),
{
    let user = unmanaged(array_items(existing));
    lemma_unmanaged_concat(user, new_blocks);
    lemma_unmanaged_idempotent(array_items(existing));
    lemma_unmanaged_of_managed(new_blocks);
    assert(user + Seq::<JsonView>::empty() =~= user);
}

/// Whether a block is one of ours.
pub fn block_is_managed(block: &Json) -> (r: bool)
    ensures
        r == is_managed(block@),
{
    match block.get(MARKER_KEY) {
        Some(v) => match v.as_str() {
            Some(s) => text_equal(s, MARKER_VALUE),
            None => false,
        },
        None => false,
    }
}

/// Remove all blocks we previously inserted (identified by marker).
pub fn remove_managed_blocks(keymap: &mut Vec<Json>)
    ensures
        views(final(keymap)@) == unmanaged(views(old(keymap)@)),
{
    let ghost orig = views(keymap@);
    let mut i: usize = 0;
    let ghost mut j: int = 0;
    assert(views(keymap@.take(0)) =~= unmanaged(orig.take(0)));
    assert(views(keymap@.skip(0)) =~= orig.skip(0));
    while i < keymap.len()
        invariant
            0 <= j <= orig.len(),
            i <= keymap@.len(),
            keymap@.len() - i == orig.len() - j,
            views(keymap@.take(i as int)) == unmanaged(orig.take(j)),
            views(keymap@.skip(i as int)) == orig.skip(j),
        decreases keymap@.len() - i,
    {
        let ghost before = keymap@;
        let ghost x = orig[j];
        assert(orig.skip(j)[0] == orig[j]);
        assert(views(before.skip(i as int))[0] == before[i as int]@);
        assert(before[i as int]@ == x);
        proof {
            assert(orig.take(j + 1) =~= orig.take(j) + seq![x]);
            lemma_unmanaged_concat(orig.take(j), seq![x]);
            assert(seq![x].drop_first() =~= Seq::<JsonView>::empty());
            assert(unmanaged(Seq::<JsonView>::empty()) == Seq::<JsonView>::empty());
        }
        if block_is_managed(&keymap[i]) {
            keymap.remove(i);
            assert(keymap@.take(i as int) =~= before.take(i as int));
            assert(views(keymap@.skip(i as int)) =~= views(before.skip(i as int)).drop_first());
            assert(unmanaged(seq![x]) =~= Seq::<JsonView>::empty());
            assert(unmanaged(orig.take(j)) + Seq::<JsonView>::empty() =~= unmanaged(orig.take(j)));
        } else {
            assert(views(keymap@.take(i + 1)) =~= views(keymap@.take(i as int)).push(
                keymap@[i as int]@,
            ));
            assert(unmanaged(seq![x]) =~= seq![x]);
            assert(views(keymap@.skip(i + 1)) =~= views(keymap@.skip(i as int)).drop_first());
            i += 1;
        }
        proof {
            assert(orig.skip(j).drop_first() =~= orig.skip(j + 1));
            j = j + 1;
        }
    }
    assert(keymap@.take(i as int) =~= keymap@);
    assert(orig.take(j) =~= orig);
}

/// Copies of the items, in order.
pub fn copy_items(items: &Vec<Json>) -> (r: Vec<Json>)
    ensures
        views(r@) == views(items@),
{
    let mut out: Vec<Json> = Vec::new();
    let mut i: usize = 0;
    while i < items.len()
        invariant
            i <= items@.len(),
            views(out@) == views(items@).take(i as int),
        decreases items@.len() - i,
    {
        let c = items[i].deep_copy();
        let ghost before = out@;
        out.push(c);
        assert(views(out@) =~= views(before).push(c@));
        assert(views(items@).take(i + 1) =~= views(items@).take(i as int).push(items@[i as int]@));
        i += 1;
    }
    assert(views(items@).take(i as int) =~= views(items@));
    out
}

/// Merge our blocks into the keymap: remove old managed blocks, then append new ones.
pub fn merge_blocks(existing: &Json, new_blocks: Vec<Json>) -> (r: Json)
    ensures
        r@ == merged(existing@, views(new_blocks@)),
{
    let mut arr = match existing {
        Json::Array(a) => {
            proof {
                lemma_array_view(*a);
            }
            copy_items(a)
        },
        _ => Vec::new(),
    };
    assert(views(arr@) == array_items(existing@));
    remove_managed_blocks(&mut arr);
    let ghost kept = arr@;
    let mut tail = new_blocks;
    arr.append(&mut tail);
    assert(views(arr@) =~= views(kept) + views(new_blocks@));
    proof {
        lemma_array_view(arr);
    }
    Json::Array(arr)
}

/// An action value ready for JSON: either a string or `[name, args]`.
pub enum ActionValue {
    Simple(String),
    WithArg(String, Json),
}

/// The JSON form of an action value.
pub open spec fn action_value_json(v: ActionValue) -> JsonView {
    match v {
        ActionValue::Simple(s) => JsonView::Str(s@),
        ActionValue::WithArg(name, args) => JsonView::Array(seq![JsonView::Str(name@), args@]),
    }
}

impl ActionValue {
    /// The JSON form of the value.
    pub fn to_json(&self) -> (r: Json)
        ensures
            r@ == action_value_json(*self),
    {
        match self {
            ActionValue::Simple(s) => Json::Str(s.clone()),
            ActionValue::WithArg(name, args) => {
                let mut items: Vec<Json> = Vec::new();
                items.push(Json::Str(name.clone()));
                items.push(args.deep_copy());
                proof {
                    lemma_array_view(items);
                    assert(views(items@) =~= seq![JsonView::Str(name@), args@]);
                }
                Json::Array(items)
            },
        }
    }
}

/// The JSON form of an action's arguments: the argument text itself when it
/// parses as JSON, else the text as a JSON string.
pub open spec fn args_json(args: Seq<char>, parses: bool) -> JsonView {
    if parses {
        JsonView::Raw(args)
    } else {
        JsonView::Str(args)
    }
}

/// The JSON form of an action, given whether its argument text parses.
pub open spec fn action_json_with(action: Action, parses: bool) -> JsonView {
    match action {
        Action::Simple(s) => JsonView::Str(s@),
        Action::WithArg(name, args) => JsonView::Array(
            seq![JsonView::Str(name@), args_json(args@, parses)],
        ),
    }
}

/// The JSON form of an action.
pub open spec fn action_json(action: Action) -> JsonView {
    match action {
        Action::Simple(s) => action_json_with(action, false),
        Action::WithArg(name, args) => action_json_with(action, json_text_parses(args@)),
    }
}

/// The action value of an action, given whether its argument text parses as
/// JSON (for a simple action that answer does not matter).
pub fn action_value_with(action: &Action, args_parse: bool) -> (r: ActionValue)
    ensures
        action_value_json(r) == action_json_with(*action, args_parse),
        (r is Simple) == (*action is Simple),
{
    match action {
        Action::Simple(s) => ActionValue::Simple(String::from_str(s)),
        Action::WithArg(name, args_json) => {
            let args = if args_parse {
                Json::Raw(String::from_str(args_json))
            } else {
                Json::Str(String::from_str(args_json))
            };
            ActionValue::WithArg(String::from_str(name), args)
        },
    }
}

/// The action value of an action: its argument text is kept as JSON when it
/// parses, and as a JSON string when it does not.
pub fn action_to_value(action: &Action) -> (r: ActionValue)
    ensures
        action_value_json(r) == action_json(*action),
        (r is Simple) == (*action is Simple),
{
    match action {
        Action::Simple(_) => action_value_with(action, false),
        Action::WithArg(_, args) => {
            let parses = parse_json(args).is_ok();
            action_value_with(action, parses)
        },
    }
}

/// The entries after setting `key` to `value`: the first entry with that key
/// gets the new value where it stands; without one, the entry is added last.
pub open spec fn insert_entry(es: Seq<(Seq<char>, JsonView)>, key: Seq<char>, value: JsonView) -> Seq<
    (Seq<char>, JsonView),
>
    decreases es.len(),
{
    if es.len() == 0 {
        seq![(key, value)]
    } else if es[0].0 == key {
        es.update(0, (key, value))
    } else {
        seq![es[0]] + insert_entry(es.drop_first(), key, value)
    }
}

/// The entries of an object built by inserting the pairs in order.
pub open spec fn object_of(pairs: Seq<(Seq<char>, JsonView)>) -> Seq<(Seq<char>, JsonView)>
    decreases pairs.len(),
{
    if pairs.len() == 0 {
        Seq::empty()
    } else {
        insert_entry(object_of(pairs.drop_last()), pairs.last().0, pairs.last().1)
    }
}

/// The value of the last pair with key `key`, if any.
pub open spec fn last_value(pairs: Seq<(Seq<char>, JsonView)>, key: Seq<char>) -> Option<JsonView>
    decreases pairs.len(),
{
    if pairs.len() == 0 {
        None
    } else if pairs.last().0 == key {
        Some(pairs.last().1)
    } else {
        last_value(pairs.drop_last(), key)
    }
}

/// Reading a key after setting it gives the value set; other keys read as
/// before.
pub proof fn lemma_insert_entry_lookup(
    es: Seq<(Seq<char>, JsonView)>,
    key: Seq<char>,
    value: JsonView,
    other: Seq<char>,
)
    ensures
        lookup(insert_entry(es, key, value), other) == if other == key {
            Some(value)
        } else {
            lookup(es, other)
        },
    decreases es.len(),
{
    if es.len() == 0 {
        let r = seq![(key, value)];
        assert(insert_entry(es, key, value) == r);
        assert(r[0] == (key, value));
        assert(r.drop_first() =~= es);
    } else {
        if es[0].0 == key {
            let r = es.update(0, (key, value));
            assert(r[0] == (key, value));
            assert(r.drop_first() =~= es.drop_first());
        } else {
            lemma_insert_entry_lookup(es.drop_first(), key, value, other);
            let r = seq![es[0]] + insert_entry(es.drop_first(), key, value);
            assert(insert_entry(es, key, value) == r);
            assert(r[0] == es[0]);
            assert(r.drop_first() =~= insert_entry(es.drop_first(), key, value));
        }
    }
}

/// In an object built by inserting pairs in order, each key holds the value of
/// its last pair: a later binding of the same key replaces an earlier one.
pub proof fn lemma_object_of_lookup(pairs: Seq<(Seq<char>, JsonView)>, key: Seq<char>)
    ensures
        lookup(object_of(pairs), key) == last_value(pairs, key),
    decreases pairs.len(),
{
    if pairs.len() > 0 {
        lemma_object_of_lookup(pairs.drop_last(), key);
        lemma_insert_entry_lookup(object_of(pairs.drop_last()), pairs.last().0, pairs.last().1, key);
    }
}

/// The views of an object's entries.
pub open spec fn entry_views(es: Seq<(String, Json)>) -> Seq<(Seq<char>, JsonView)> {
    es.map_values(|e: (String, Json)| (e.0@, e.1@))
}

/// Sets `key` to `value` in an object's entries, as a map insert does.
pub fn insert_into(entries: &mut Vec<(String, Json)>, key: String, value: Json)
    ensures
        entry_views(final(entries)@) == insert_entry(entry_views(old(entries)@), key@, value@),
{
    let ghost es = entry_views(entries@);
    let mut i: usize = 0;
    assert(es.skip(0) =~= es);
    assert(es.take(0) + insert_entry(es.skip(0), key@, value@) =~= insert_entry(es, key@, value@));
    while i < entries.len()
        invariant
            i <= entries@.len(),
            es == entry_views(entries@),
            es == entry_views(old(entries)@),
            es.take(i as int) + insert_entry(es.skip(i as int), key@, value@) == insert_entry(
                es,
                key@,
                value@,
            ),
        decreases entries@.len() - i,
    {
        assert(es.skip(i as int)[0] == es[i as int]);
        assert(es[i as int] == (entries@[i as int].0@, entries@[i as int].1@));
        if text_equal(entries[i].0.as_str(), key.as_str()) {
            let (k0, _old) = entries.remove(i);
            entries.insert(i, (k0, value));
            assert(entry_views(entries@) =~= es.take(i as int) + es.skip(i as int).update(
                0,
                (key@, value@),
            ));
            return;
        }
        assert(es.skip(i as int).drop_first() =~= es.skip(i + 1));
        assert(es.skip(i as int) =~= seq![es[i as int]] + es.skip(i + 1));
        assert(es.take(i + 1) =~= es.take(i as int) + seq![es[i as int]]);
        assert(es.take(i as int) + (seq![es[i as int]] + insert_entry(es.skip(i + 1), key@, value@))
            =~= es.take(i + 1) + insert_entry(es.skip(i + 1), key@, value@));
        i += 1;
    }
    entries.push((key, value));
    assert(es.take(i as int) =~= es);
    assert(es.skip(i as int) =~= Seq::<(Seq<char>, JsonView)>::empty());
    assert(entry_views(entries@) =~= es + seq![(key@, value@)]);
}

/// The JSON form of the (key, action) pairs of a block.
pub open spec fn pair_views(pairs: Seq<(&str, ActionValue)>) -> Seq<(Seq<char>, JsonView)> {
    pairs.map_values(|p: (&str, ActionValue)| (p.0@, action_value_json(p.1)))
}

/// A keymap block for one context: its context (left out when empty), our
/// marker, and a bindings object with the given entries.
pub open spec fn block_with(context: Seq<char>, entries: Seq<(Seq<char>, JsonView)>) -> JsonView {
    JsonView::Object(
        (if context.len() == 0 {
            Seq::empty()
        } else {
            seq![("context"@, JsonView::Str(context))]
        }) + seq![
            (MARKER_KEY@, JsonView::Str(MARKER_VALUE@)),
            ("bindings"@, JsonView::Object(entries)),
        ],
    )
}

/// The keymap block for one context, its bindings object built by inserting
/// the pairs in order.
pub open spec fn block_view(context: Seq<char>, pairs: Seq<(Seq<char>, JsonView)>) -> JsonView {
    block_with(context, object_of(pairs))
}

/// Every block built for a context carries our marker.
pub proof fn lemma_block_is_managed(context: Seq<char>, pairs: Seq<(Seq<char>, JsonView)>)
    ensures
        is_managed(block_view(context, pairs)),
{
    reveal_strlit("context");
    reveal_strlit("__managed_by");
    assert(MARKER_KEY@ == "__managed_by"@);
    let es = match block_view(context, pairs) {
        JsonView::Object(es) => es,
        _ => Seq::empty(),
    };
    let marker = (MARKER_KEY@, JsonView::Str(MARKER_VALUE@));
    if context.len() > 0 {
        assert(es[0] == ("context"@, JsonView::Str(context)));
        assert(es[1] == marker);
        assert(es[0].0 != MARKER_KEY@) by {
            assert(es[0].0[0] != MARKER_KEY@[0]);
        }
        assert(es.drop_first()[0] == es[1]);
        assert(lookup(es.drop_first(), MARKER_KEY@) == Some(JsonView::Str(MARKER_VALUE@)));
    } else {
        assert(es[0] == marker);
    }
}

/// Build a single keymap block for a set of bindings sharing the same context.
pub fn make_block(context: &str, bindings: &[(&str, ActionValue)]) -> (r: Json)
    ensures
        r@ == block_view(context@, pair_views(bindings@)),
{
    let mut map: Vec<(String, Json)> = Vec::new();
    if !context.is_empty() {
        map.push((String::from_str("context"), Json::Str(String::from_str(context))));
    }
    // Marker so we can find/remove our blocks
    map.push((String::from_str(MARKER_KEY), Json::Str(String::from_str(MARKER_VALUE))));
    let mut b: Vec<(String, Json)> = Vec::new();
    let mut i: usize = 0;
    let ghost ps = pair_views(bindings@);
    while i < bindings.len()
        invariant
            i <= bindings@.len(),
            ps == pair_views(bindings@),
            entry_views(b@) == object_of(ps.take(i as int)),
        decreases bindings@.len() - i,
    {
        let (key, action) = &bindings[i];
        insert_into(&mut b, String::from_str(key), action.to_json());
        assert(ps.take(i + 1).drop_last() =~= ps.take(i as int));
        i += 1;
    }
    assert(ps.take(i as int) =~= ps);
    let bobj = Json::Object(b);
    proof {
        lemma_object_view(b);
        let v = bobj@;
        if let JsonView::Object(es) = v {
            assert(es =~= entry_views(b@));
        }
    }
    map.push((String::from_str("bindings"), bobj));
    proof {
        lemma_object_view(map);
        let v = Json::Object(map)@;
        if let JsonView::Object(es) = v {
            if let JsonView::Object(ex) = block_view(context@, ps) {
                assert(es =~= ex);
            }
        }
    }
    Json::Object(map)
}

/// The (key, action) pairs of a list of bindings, in JSON form.
pub open spec fn binding_pairs(bs: Seq<Binding>) -> Seq<(Seq<char>, JsonView)> {
    bs.map_values(|b: Binding| (b.key@, action_json(b.action)))
}

/// The keymap blocks for a list of bindings: one per context, in ascending
/// order of context, each holding that context's bindings in order.
pub open spec fn blocks_for(all: Seq<Binding>) -> Seq<JsonView> {
    context_order(all).map_values(|c: Seq<char>| block_view(c, binding_pairs(in_context(all, c))))
}

/// The block for one group of bindings.
fn block_for_group(g: &ContextGroup) -> (r: Json)
    ensures
        r@ == block_view(g.context@, binding_pairs(g.bindings@)),
{
    let mut pairs: Vec<(&str, ActionValue)> = Vec::new();
    let mut i: usize = 0;
    while i < g.bindings.len()
        invariant
            i <= g.bindings@.len(),
            pair_views(pairs@) == binding_pairs(g.bindings@).take(i as int),
        decreases g.bindings@.len() - i,
    {
        let b = &g.bindings[i];
        let v = action_to_value(&b.action);
        let ghost before = pairs@;
        pairs.push((b.key, v));
        assert(pair_views(pairs@) =~= pair_views(before).push((b.key@, action_json(b.action))));
        assert(binding_pairs(g.bindings@).take(i + 1) =~= binding_pairs(g.bindings@).take(
            i as int,
        ).push((b.key@, action_json(b.action))));
        i += 1;
    }
    assert(binding_pairs(g.bindings@).take(i as int) =~= binding_pairs(g.bindings@));
    make_block(g.context, pairs.as_slice())
}

/// Group raw bindings by context, then produce keymap blocks.
pub fn build_blocks(categories: &[&Category]) -> (r: Vec<Json>)
    ensures
        views(r@) == blocks_for(all_bindings(categories@)),
{
    let all = collect_bindings(categories);
    let groups = group_by_context(&all);
    let ghost ctxs = context_order(all@);
    let mut out: Vec<Json> = Vec::new();
    let mut i: usize = 0;
    while i < groups.len()
        invariant
            grouped_by_context(groups@, all@),
            ctxs == context_order(all@),
            i <= groups@.len(),
            views(out@) == blocks_for(all@).take(i as int),
        decreases groups@.len() - i,
    {
        let block = block_for_group(&groups[i]);
        proof {
            assert(groups@.map_values(|g: ContextGroup| g.context@)[i as int] == groups@[i as int].context@);
            assert(groups@[i as int].bindings@ == in_context(all@, groups@[i as int].context@));
        }
        let ghost before = out@;
        out.push(block);
        assert(views(out@) =~= views(before).push(block@));
        assert(blocks_for(all@).take(i + 1) =~= blocks_for(all@).take(i as int).push(
            blocks_for(all@)[i as int],
        ));
        i += 1;
    }
    assert(blocks_for(all@).take(i as int) =~= blocks_for(all@));
    out
}

/// Every block built for a list of bindings is one of ours.
pub proof fn lemma_built_blocks_are_managed(all: Seq<Binding>)
    ensures
        forall|i: int| 0 <= i < blocks_for(all).len() ==> is_managed(#[trigger] blocks_for(all)[i]),
{
    assert forall|i: int| 0 <= i < blocks_for(all).len() implies is_managed(
        #[trigger] blocks_for(all)[i],
    ) by {
        let c = context_order(all)[i];
        lemma_block_is_managed(c, binding_pairs(in_context(all, c)));
    }
}

/// The text of a keymap file that is left to parse: `None` when the file
/// holds nothing but white space (an empty keymap), else the trimmed text with
/// its JSONC comments and then its trailing commas removed.
pub fn keymap_source(content: &str) -> (r: Option<String>)
    ensures
        match r {
            None => trimmed(content@).len() == 0,
            Some(text) => trimmed(content@).len() > 0 && text@ == without_trailing_commas(
                jsonc_stripped(trimmed(content@)),
            ),
        },
{
    let trimmed_text = trim_text(content);
    if trimmed_text.is_empty() {
        None
    } else {
        // Zed's keymap is JSONC: comments and trailing commas are allowed
        let stripped = strip_jsonc_comments(trimmed_text);
        Some(remove_trailing_commas(stripped.as_str()))
    }
}

/// The text of a keymap file that is left to parse once it is trimmed and its
/// comments and trailing commas are removed.
pub open spec fn keymap_text(content: Seq<char>) -> Seq<char> {
    without_trailing_commas(jsonc_stripped(trimmed(content)))
}

/// The keymap read from a file's content (`None` when the file could not be
/// read): an empty keymap when there is no content, when it holds nothing but
/// white space, or when its text does not parse; else the parsed value.
pub open spec fn keymap_read(content: Option<Seq<char>>) -> JsonView {
    match content {
        None => JsonView::Array(Seq::empty()),
        Some(c) => if trimmed(c).len() == 0 {
            JsonView::Array(Seq::empty())
        } else {
            match parsed_json(keymap_text(c)) {
                Some(v) => v,
                None => JsonView::Array(Seq::empty()),
            }
        },
    }
}

/// Reads the keymap from a file's content (`None` when the file could not be
/// read), and the parser's message when there was text that did not parse.
pub fn read_keymap_text(content: Option<&str>) -> (r: (Json, Option<String>))
    ensures
        r.0@ == keymap_read(
            match content {
                Some(c) => Some(c@),
                None => None,
            },
        ),
        (r.1 is Some) <==> (content matches Some(c) && trimmed(c@).len() > 0 && parsed_json(
            keymap_text(c@),
        ) is None),
{
    let source = match content {
        Some(c) => keymap_source(c),
        None => None,
    };
    match source {
        Some(text) => match parse_json(text.as_str()) {
            Ok(v) => (v, None),
            Err(message) => (empty_keymap(), Some(message)),
        },
        None => (empty_keymap(), None),
    }
}

/// An empty keymap: an array with nothing in it.
fn empty_keymap() -> (r: Json)
    ensures
        r@ == JsonView::Array(Seq::empty()),
{
    let items: Vec<Json> = Vec::new();
    proof {
        lemma_array_view(items);
        assert(views(items@) =~= Seq::<JsonView>::empty());
    }
    Json::Array(items)
}

} // verus!
