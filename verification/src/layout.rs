use vstd::prelude::*;
use crate::bindings::{Action, Binding, Category};
use crate::escape::{json_escape_char, json_escaped};
use crate::grouping::{all_bindings, context_order, in_context, lemma_in_context_only};
use crate::json::JsonView;
use crate::json_text::json_text_parses;
use crate::keymap::{
    action_json_with, binding_pairs, block_with, blocks_for, object_of, MARKER_KEY, MARKER_VALUE,
};
use crate::output::{action_text, binding_line, block_text, json_blocks_text};
use crate::text::{join, repeat_char};

verus! {

/// A text written as a JSON string literal.
pub open spec fn quoted(s: Seq<char>) -> Seq<char> {
    "\""@ + json_escaped(s) + "\""@
}

/// The indentation of a nesting depth: two spaces per level.
pub open spec fn indent(depth: nat) -> Seq<char> {
    repeat_char(' ', 2 * depth)
}

/// How an item of an action's array is written: a string quoted and
/// escaped, raw JSON text as it stands, a number or literal as in JSON
/// (an action holds nothing deeper).
pub open spec fn written_item(v: JsonView) -> Seq<char> {
    match v {
        JsonView::Null => "null"@,
        JsonView::Bool(b) => if b {
            "true"@
        } else {
            "false"@
        },
        JsonView::Number(t) => t,
        JsonView::Str(s) => quoted(s),
        JsonView::Raw(t) => t,
        _ => Seq::empty(),
    }
}

/// How an action value is written on its binding's line: an array on one
/// line, its items separated by `, `; anything else as an item.
pub open spec fn written_action(v: JsonView) -> Seq<char> {
    match v {
        JsonView::Array(items) => "["@ + join(items.map_values(|x: JsonView| written_item(x)), ", "@) + "]"@,
        _ => written_item(v),
    }
}

/// How an object of bindings is written inside a block: one member per line,
/// three levels deep, the closing brace two levels deep.
pub open spec fn written_bindings(es: Seq<(Seq<char>, JsonView)>) -> Seq<char> {
    "{\n"@ + join(
        es.map_values(|e: (Seq<char>, JsonView)| indent(3) + quoted(e.0) + ": "@ + written_action(e.1)),
        ",\n"@,
    ) + "\n"@ + indent(2) + "}"@
}

/// How a member value of a block is written: an object as a bindings object,
/// anything else as an action value.
pub open spec fn written_member(v: JsonView) -> Seq<char> {
    match v {
        JsonView::Object(es) => written_bindings(es),
        _ => written_action(v),
    }
}

/// How a block is written inside the keymap array: one member per line, two
/// levels deep, the closing brace one level deep.
pub open spec fn written_block(v: JsonView) -> Seq<char> {
    match v {
        JsonView::Object(es) => "{\n"@ + join(
            es.map_values(|e: (Seq<char>, JsonView)| indent(2) + quoted(e.0) + ": "@ + written_member(e.1)),
            ",\n"@,
        ) + "\n"@ + indent(1) + "}"@,
        _ => written_member(v),
    }
}

/// How a keymap array of blocks is written: one block per line, one level
/// deep.
pub open spec fn written_keymap(blocks: Seq<JsonView>) -> Seq<char> {
    "[\n"@ + join(blocks.map_values(|b: JsonView| indent(1) + written_block(b)), ",\n"@) + "\n]"@
}

/// The (key, action) pairs of the bindings as the blocks text writes them:
/// every binding, in order, an action's argument text spliced in as JSON.
pub open spec fn written_pairs(bs: Seq<Binding>) -> Seq<(Seq<char>, JsonView)> {
    bs.map_values(|b: Binding| (b.key@, action_json_with(b.action, true)))
}

/// The blocks the blocks text writes: one per context, in ascending order of
/// context, each holding all of that context's pairs.
pub open spec fn written_blocks(all: Seq<Binding>) -> Seq<JsonView> {
    context_order(all).map_values(|c: Seq<char>| block_with(c, written_pairs(in_context(all, c))))
}

/// A character that JSON writes as it stands inside a string.
pub open spec fn plain_char(c: char) -> bool {
    c != '"' && c != '\\' && (c as u32) >= 0x20
}

/// Text of plain characters is its own escape.
proof fn lemma_plain_escaped(s: Seq<char>)
    requires
        forall|i: int| 0 <= i < s.len() ==> plain_char(#[trigger] s[i]),
    ensures
        json_escaped(s) == s,
    decreases s.len(),
{
    if s.len() > 0 {
        assert(plain_char(s[0]));
        assert(json_escape_char(s[0]) == seq![s[0]]);
        assert forall|i: int| 0 <= i < s.drop_first().len() implies plain_char(
            #[trigger] s.drop_first()[i],
        ) by {
            assert(s.drop_first()[i] == s[i + 1]);
        }
        lemma_plain_escaped(s.drop_first());
        assert(seq![s[0]] + s.drop_first() =~= s);
    }
}

proof fn lemma_join_two(a: Seq<char>, b: Seq<char>, sep: Seq<char>)
    ensures
        join(seq![a, b], sep) == a + sep + b,
{
    assert(seq![a, b].drop_last() =~= seq![a]);
    assert(join(seq![a], sep) == seq![a][0]);
}

proof fn lemma_join_three(a: Seq<char>, b: Seq<char>, c: Seq<char>, sep: Seq<char>)
    ensures
        join(seq![a, b, c], sep) == a + sep + b + sep + c,
{
    assert(seq![a, b, c].drop_last() =~= seq![a, b]);
    lemma_join_two(a, b, sep);
}

/// An action's text is the writing of its JSON form, argument text as it
/// stands.
proof fn lemma_action_written(a: Action)
    ensures
        action_text(a) == written_action(action_json_with(a, true)),
{
    reveal_strlit("\"");
    if let Action::WithArg(name, args) = a {
        let items = seq![JsonView::Str(name@), JsonView::Raw(args@)];
        assert(items.map_values(|x: JsonView| written_item(x)) =~= seq![quoted(name@), args@]);
        lemma_join_two(quoted(name@), args@, ", "@);
        reveal_strlit("[\"");
        reveal_strlit("\", ");
        reveal_strlit("[");
        reveal_strlit(", ");
        reveal_strlit("]");
        assert(action_text(a) =~= "["@ + (quoted(name@) + ", "@ + args@) + "]"@);
    } else {
        let s = a->Simple_0;
        assert(action_text(a) =~= quoted(s@));
    }
}

/// A binding's line is its key and action written one level inside the
/// bindings object.
proof fn lemma_line_written(b: Binding)
    ensures
        binding_line(b) == indent(3) + quoted(b.key@) + ": "@ + written_action(action_json_with(b.action, true)),
{
    lemma_action_written(b.action);
    reveal_strlit("      \"");
    reveal_strlit("\": ");
    reveal_strlit("\"");
    reveal_strlit(": ");
    assert(indent(3) =~= seq![' ', ' ', ' ', ' ', ' ', ' ']);
    assert(binding_line(b) =~= indent(3) + quoted(b.key@) + ": "@ + written_action(action_json_with(b.action, true)));
}

proof fn lemma_literal_plain(s: Seq<char>)
    requires
        forall|i: int| 0 <= i < s.len() ==> plain_char(#[trigger] s[i]),
    ensures
        quoted(s) == "\""@ + s + "\""@,
{
    lemma_plain_escaped(s);
}

proof fn lemma_bindings_written(bs: Seq<Binding>)
    ensures
        written_bindings(written_pairs(bs)) == "{\n"@ + join(
            bs.map_values(|b: Binding| binding_line(b)),
            ",\n"@,
        ) + "\n"@ + indent(2) + "}"@,
{
    let wp = written_pairs(bs);
    let lines = bs.map_values(|b: Binding| binding_line(b));
    let wlines = wp.map_values(
        |e: (Seq<char>, JsonView)| indent(3) + quoted(e.0) + ": "@ + written_action(e.1),
    );
    assert forall|i: int| 0 <= i < bs.len() implies #[trigger] wlines[i] == lines[i] by {
        lemma_line_written(bs[i]);
    }
    assert(wlines =~= lines);
}

proof fn lemma_marker_member()
    ensures
        indent(2) + quoted(MARKER_KEY@) + ": "@ + written_member(JsonView::Str(MARKER_VALUE@)) + ",\n"@
            == "    \"__managed_by\": \"zed-win-keys\",\n"@,
{
    reveal_strlit("__managed_by");
    reveal_strlit("zed-win-keys");
    reveal_strlit("\"");
    reveal_strlit(": ");
    reveal_strlit(",\n");
    reveal_strlit("    \"__managed_by\": \"zed-win-keys\",\n");
    assert(MARKER_KEY@ == "__managed_by"@);
    assert(MARKER_VALUE@ == "zed-win-keys"@);
    lemma_literal_plain("__managed_by"@);
    lemma_literal_plain("zed-win-keys"@);
    assert(indent(2) =~= seq![' ', ' ', ' ', ' ']);
    assert(indent(2) + quoted(MARKER_KEY@) + ": "@ + written_member(JsonView::Str(MARKER_VALUE@)) + ",\n"@
        =~= "    \"__managed_by\": \"zed-win-keys\",\n"@);
}

proof fn lemma_context_member(c: Seq<char>)
    ensures
        indent(2) + quoted("context"@) + ": "@ + written_member(JsonView::Str(c)) + ",\n"@
            == "    \"context\": \""@ + json_escaped(c) + "\",\n"@,
{
    reveal_strlit("context");
    reveal_strlit("\"");
    reveal_strlit(": ");
    reveal_strlit(",\n");
    reveal_strlit("    \"context\": \"");
    reveal_strlit("\",\n");
    lemma_literal_plain("context"@);
    assert(indent(2) =~= seq![' ', ' ', ' ', ' ']);
    assert(indent(2) + quoted("context"@) + ": "@ + written_member(JsonView::Str(c)) + ",\n"@
        =~= "    \"context\": \""@ + json_escaped(c) + "\",\n"@);
}

proof fn lemma_bindings_member(bs: Seq<Binding>)
    ensures
        indent(2) + quoted("bindings"@) + ": "@ + written_member(JsonView::Object(written_pairs(bs)))
            + "\n"@ + indent(1) + "}"@ == "    \"bindings\": {\n"@ + join(
            bs.map_values(|b: Binding| binding_line(b)),
            ",\n"@,
        ) + "\n"@ + "    }\n"@ + "  }"@,
{
    lemma_bindings_written(bs);
    reveal_strlit("bindings");
    reveal_strlit("\"");
    reveal_strlit(": ");
    reveal_strlit("{\n");
    reveal_strlit("\n");
    reveal_strlit("}");
    reveal_strlit("    \"bindings\": {\n");
    reveal_strlit("    }\n");
    reveal_strlit("  }");
    lemma_literal_plain("bindings"@);
    assert(indent(1) =~= seq![' ', ' ']);
    assert(indent(2) =~= seq![' ', ' ', ' ', ' ']);
    let j = join(bs.map_values(|b: Binding| binding_line(b)), ",\n"@);
    assert(indent(2) + quoted("bindings"@) + ": "@ + written_member(JsonView::Object(written_pairs(bs)))
        + "\n"@ + indent(1) + "}"@ =~= "    \"bindings\": {\n"@ + j + "\n"@ + "    }\n"@ + "  }"@);
}

proof fn lemma_assoc(p: Seq<char>, t: Seq<char>, a: Seq<char>, b: Seq<char>, c: Seq<char>, d: Seq<char>)
    requires
        t == a + b + c + d,
    ensures
        p + a + b + c + d == p + t,
{
    assert(p + a + b + c + d =~= p + t);
}

proof fn lemma_block_head()
    ensures
        indent(1) + "{\n"@ == "  {\n"@,
{
    reveal_strlit("{\n");
    reveal_strlit("  {\n");
    assert(indent(1) + "{\n"@ =~= "  {\n"@);
}

proof fn lemma_regroup_three(
    i1: Seq<char>,
    lb: Seq<char>,
    x: Seq<char>,
    sep: Seq<char>,
    y: Seq<char>,
    z: Seq<char>,
    nl: Seq<char>,
    rb: Seq<char>,
)
    ensures
        i1 + (lb + (x + sep + y + sep + z) + nl + i1 + rb) == (i1 + lb) + (x + sep) + (y + sep) + (z
            + nl + i1 + rb),
{
    assert(i1 + (lb + (x + sep + y + sep + z) + nl + i1 + rb) =~= (i1 + lb) + (x + sep) + (y + sep)
        + (z + nl + i1 + rb));
}

proof fn lemma_regroup_two(
    i1: Seq<char>,
    lb: Seq<char>,
    sep: Seq<char>,
    y: Seq<char>,
    z: Seq<char>,
    nl: Seq<char>,
    rb: Seq<char>,
)
    ensures
        i1 + (lb + (y + sep + z) + nl + i1 + rb) == (i1 + lb) + Seq::<char>::empty() + (y + sep) + (z
            + nl + i1 + rb),
{
    assert(i1 + (lb + (y + sep + z) + nl + i1 + rb) =~= (i1 + lb) + Seq::<char>::empty() + (y + sep)
        + (z + nl + i1 + rb));
}

/// A block's text is the block, with all its pairs, written inside the keymap
/// array.
proof fn lemma_block_written(c: Seq<char>, bs: Seq<Binding>)
    ensures
        block_text(c, bs) == indent(1) + written_block(block_with(c, written_pairs(bs))),
{
    let wp = written_pairs(bs);
    let m_mark = indent(2) + quoted(MARKER_KEY@) + ": "@ + written_member(JsonView::Str(MARKER_VALUE@));
    let m_bind = indent(2) + quoted("bindings"@) + ": "@ + written_member(JsonView::Object(wp));
    let j = join(bs.map_values(|b: Binding| binding_line(b)), ",\n"@);
    lemma_marker_member();
    lemma_bindings_member(bs);
    lemma_block_head();
    let v = block_with(c, wp);
    let es = v->Object_0;
    let members = es.map_values(
        |e: (Seq<char>, JsonView)| indent(2) + quoted(e.0) + ": "@ + written_member(e.1),
    );
    let wb = written_block(v);
    assert(wb == "{\n"@ + join(members, ",\n"@) + "\n"@ + indent(1) + "}"@);
    let tail = m_bind + "\n"@ + indent(1) + "}"@;
    let ctx_line = if c.len() == 0 {
        Seq::empty()
    } else {
        "    \"context\": \""@ + json_escaped(c) + "\",\n"@
    };
    if c.len() == 0 {
        assert(members =~= seq![m_mark, m_bind]);
        lemma_join_two(m_mark, m_bind, ",\n"@);
        lemma_regroup_two(indent(1), "{\n"@, ",\n"@, m_mark, m_bind, "\n"@, "}"@);
    } else {
        let m_ctx = indent(2) + quoted("context"@) + ": "@ + written_member(JsonView::Str(c));
        lemma_context_member(c);
        assert(members =~= seq![m_ctx, m_mark, m_bind]);
        lemma_join_three(m_ctx, m_mark, m_bind, ",\n"@);
        lemma_regroup_three(indent(1), "{\n"@, m_ctx, ",\n"@, m_mark, m_bind, "\n"@, "}"@);
    }
    assert(indent(1) + wb == "  {\n"@ + ctx_line + "    \"__managed_by\": \"zed-win-keys\",\n"@ + tail);
    lemma_assoc(
        "  {\n"@ + ctx_line + "    \"__managed_by\": \"zed-win-keys\",\n"@,
        tail,
        "    \"bindings\": {\n"@ + j,
        "\n"@,
        "    }\n"@,
        "  }"@,
    );
}

/// The keymap text of the slash command's blocks is the keymap array of the
/// blocks, one per context with all of that context's pairs, written in the
/// layout of [`written_keymap`].
pub proof fn lemma_blocks_text_is_written(cats: Seq<&Category>)
    ensures
        json_blocks_text(cats) == written_keymap(written_blocks(all_bindings(cats))),
{
    let all = all_bindings(cats);
    let ctxs = context_order(all);
    let parts = ctxs.map_values(|c: Seq<char>| block_text(c, in_context(all, c)));
    let wparts = written_blocks(all).map_values(|b: JsonView| indent(1) + written_block(b));
    assert forall|i: int| 0 <= i < parts.len() implies #[trigger] parts[i] == wparts[i] by {
        lemma_block_written(ctxs[i], in_context(all, ctxs[i]));
    }
    assert(parts =~= wparts);
}

/// Where every argument text parses as JSON, the command line tool's blocks
/// are the written blocks with each bindings object built by inserting its
/// pairs in order: a later pair replaces an earlier one of the same key (the
/// last one wins, as serde_json's map insert does).
pub proof fn lemma_built_blocks_resolve_written(all: Seq<Binding>)
    ensures
        (forall|i: int|
            0 <= i < all.len() ==> (#[trigger] all[i].action matches Action::WithArg(_, args)
                ==> json_text_parses(args@))) ==> blocks_for(all) == context_order(all).map_values(
            |c: Seq<char>| block_with(c, object_of(written_pairs(in_context(all, c)))),
        ),
{
    if forall|i: int|
        0 <= i < all.len() ==> (#[trigger] all[i].action matches Action::WithArg(_, args)
            ==> json_text_parses(args@)) {
        let ctxs = context_order(all);
        assert forall|k: int| 0 <= k < ctxs.len() implies #[trigger] blocks_for(all)[k] == block_with(
            ctxs[k],
            object_of(written_pairs(in_context(all, ctxs[k]))),
        ) by {
            let bs = in_context(all, ctxs[k]);
            assert forall|m: int| 0 <= m < bs.len() implies #[trigger] binding_pairs(bs)[m]
                == written_pairs(bs)[m] by {
                lemma_in_context_only(all, ctxs[k], m);
                let j = choose|j: int| 0 <= j < all.len() && all[j] == bs[m];
                assert(all[j].action == bs[m].action);
            }
            assert(binding_pairs(bs) =~= written_pairs(bs));
        }
        assert(blocks_for(all) =~= ctxs.map_values(
            |c: Seq<char>| block_with(c, object_of(written_pairs(in_context(all, c)))),
        ));
    }
}

} // verus!
