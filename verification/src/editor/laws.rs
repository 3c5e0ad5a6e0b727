//! Properties of the editor logic that span several messages or hold of every input.
use vstd::prelude::*;

use crate::editor::data_types::{EditorUiStateView, Entity, FloatBits, IcedMessage, SplitterSide};
use crate::editor::logic::{
    entity_tree_ends, kids_in, rows_for, rows_for_cut, rows_list, rows_list_cut, spec_entity_tree,
    spec_process_messages, spec_step, NamedEntity, TreeItem, TreeRow,
};
use crate::editor::logic::{hex_bytes, parse_color_splits_cleanly, spec_parse_color, ColorTextView};
use crate::text::{
    hex_digit_value, hex_value, is_hex_digit, is_white_space, lemma_trimmed_has_no_outer_space,
    spec_parse_hex_u8, trim_end, trim_spec, trim_start,
};
use vstd::utf8::{decode_utf8, encode_utf8, is_ascii_chars};

verus! {

/// Processing one more message continues from the state the batch left.
pub proof fn lemma_process_push(
    s: EditorUiStateView,
    msgs: Seq<IcedMessage>,
    m: IcedMessage,
    cursor: Option<(FloatBits, FloatBits)>,
)
    ensures
        ({
            let before = spec_process_messages(s, msgs, cursor);
            let after = spec_step(before.0, m, cursor);
            spec_process_messages(s, msgs.push(m), cursor) == (after.0, before.1 + after.1, before.2
                + after.2)
        }),
{
    assert(msgs.push(m).drop_last() =~= msgs);
}

/// Toggling the same entity twice leaves the set of expanded entities as it was.
pub proof fn lemma_toggle_twice_restores(
    s: EditorUiStateView,
    e: Entity,
    cursor: Option<(FloatBits, FloatBits)>,
)
    ensures
        spec_process_messages(
            s,
            seq![IcedMessage::ToggleEntityExpanded(e), IcedMessage::ToggleEntityExpanded(e)],
            cursor,
        ).0.expanded_entities == s.expanded_entities,
{
    let t = IcedMessage::ToggleEntityExpanded(e);
    let empty = Seq::<IcedMessage>::empty();
    assert(seq![t, t] =~= empty.push(t).push(t));
    lemma_process_push(s, empty, t, cursor);
    lemma_process_push(s, empty.push(t), t, cursor);
    let once = spec_step(s, IcedMessage::ToggleEntityExpanded(e), cursor).0;
    if s.expanded_entities.contains(e) {
        assert(once.expanded_entities.insert(e) =~= s.expanded_entities);
    } else {
        assert(once.expanded_entities.remove(e) =~= s.expanded_entities);
    }
}

/// Selecting an entity makes it the selection and ends any rename or property
/// edit, committing nothing.
pub proof fn lemma_select_ends_editing(
    s: EditorUiStateView,
    e: Entity,
    cursor: Option<(FloatBits, FloatBits)>,
)
    ensures
        spec_step(s, IcedMessage::SelectEntity(e), cursor).0.selected_entity == Some(e),
        spec_step(s, IcedMessage::SelectEntity(e), cursor).0.renaming_entity is None,
        spec_step(s, IcedMessage::SelectEntity(e), cursor).0.editing_property_index is None,
        spec_step(s, IcedMessage::SelectEntity(e), cursor).1.len() == 0,
        spec_step(s, IcedMessage::SelectEntity(e), cursor).2.len() == 0,
{
}

/// Every committed name, over any batch of messages, is non-empty and neither
/// starts nor ends with whitespace; every committed property value too.
pub proof fn lemma_commits_are_trimmed(
    s: EditorUiStateView,
    msgs: Seq<IcedMessage>,
    cursor: Option<(FloatBits, FloatBits)>,
)
    ensures
        forall|i: int|
            0 <= i < spec_process_messages(s, msgs, cursor).1.len() ==> {
                let name = #[trigger] spec_process_messages(s, msgs, cursor).1[i].1;
                &&& name.len() > 0
                &&& !is_white_space(name[0])
                &&& !is_white_space(name.last())
            },
        forall|i: int|
            0 <= i < spec_process_messages(s, msgs, cursor).2.len() ==> {
                let value = #[trigger] spec_process_messages(s, msgs, cursor).2[i].3;
                &&& value.len() > 0
                &&& !is_white_space(value[0])
                &&& !is_white_space(value.last())
            },
    decreases msgs.len(),
{
    if msgs.len() > 0 {
        lemma_commits_are_trimmed(s, msgs.drop_last(), cursor);
        let before = spec_process_messages(s, msgs.drop_last(), cursor);
        let after = spec_step(before.0, msgs.last(), cursor);
        lemma_trimmed_has_no_outer_space(before.0.name_draft);
        if before.0.editing_property_index is Some {
            let k = before.0.editing_property_index->0;
            if k < before.0.property_lines.len() {
                lemma_trimmed_has_no_outer_space(before.0.property_lines[k as int].2);
            }
        }
        let all = spec_process_messages(s, msgs, cursor);
        assert(all.1 == before.1 + after.1);
        assert(all.2 == before.2 + after.2);
        assert forall|i: int| 0 <= i < all.1.len() implies {
            let name = #[trigger] all.1[i].1;
            &&& name.len() > 0
            &&& !is_white_space(name[0])
            &&& !is_white_space(name.last())
        } by {
            if i >= before.1.len() {
                assert(all.1[i] == after.1[i - before.1.len()]);
            } else {
                assert(all.1[i] == before.1[i]);
            }
        }
        assert forall|i: int| 0 <= i < all.2.len() implies {
            let value = #[trigger] all.2[i].3;
            &&& value.len() > 0
            &&& !is_white_space(value[0])
            &&& !is_white_space(value.last())
        } by {
            if i >= before.2.len() {
                assert(all.2[i] == after.2[i - before.2.len()]);
            } else {
                assert(all.2[i] == before.2[i]);
            }
        }
    }
}

/// Renaming round trip: starting to rename `e`, typing `text` and submitting
/// commits exactly the trimmed text for `e` when it is not blank, nothing when
/// it is, and leaves rename mode either way.
pub proof fn lemma_rename_round_trip(
    s: EditorUiStateView,
    e: Entity,
    text: String,
    cursor: Option<(FloatBits, FloatBits)>,
)
    ensures
        ({
            let r = spec_process_messages(
                s,
                seq![
                    IcedMessage::StartRenaming(e),
                    IcedMessage::EntityNameInput(e, text),
                    IcedMessage::EntityNameSubmitted(e),
                ],
                cursor,
            );
            &&& r.0.renaming_entity is None
            &&& r.2.len() == 0
            &&& trim_spec(text@).len() > 0 ==> r.1 == seq![(e, trim_spec(text@))]
            &&& trim_spec(text@).len() == 0 ==> r.1.len() == 0
        }),
{
    let m0 = IcedMessage::StartRenaming(e);
    let m1 = IcedMessage::EntityNameInput(e, text);
    let m2 = IcedMessage::EntityNameSubmitted(e);
    let empty = Seq::<IcedMessage>::empty();
    let msgs = seq![m0, m1, m2];
    assert(msgs =~= empty.push(m0).push(m1).push(m2));
    lemma_process_push(s, empty, m0, cursor);
    lemma_process_push(s, empty.push(m0), m1, cursor);
    lemma_process_push(s, empty.push(m0).push(m1), m2, cursor);
    let r1 = spec_process_messages(s, empty.push(m0).push(m1), cursor);
    assert(r1.1 =~= Seq::<(Entity, Seq<char>)>::empty());
    assert(r1.2 =~= Seq::<(Entity, crate::editor::data_types::PropertyFieldId, Seq<char>, Seq<char>)>::empty());
    assert(r1.0.name_draft == text@);
    assert(r1.0.renaming_entity == Some(e));
    let r = spec_process_messages(s, msgs, cursor);
    if trim_spec(text@).len() > 0 {
        assert(r.1 =~= seq![(e, trim_spec(text@))]);
    } else {
        assert(r.1 =~= Seq::<(Entity, Seq<char>)>::empty());
    }
}

/// The rows of items, none of them expanded, are the items themselves at `depth`.
proof fn lemma_rows_list_collapsed(
    named: Seq<NamedEntity>,
    expanded: Set<Entity>,
    items: Seq<TreeItem>,
    depth: nat,
    fuel: nat,
)
    requires
        forall|e: Entity| !expanded.contains(e),
    ensures
        rows_list(named, expanded, items, depth, fuel) == items.map_values(
            |k: TreeItem| (k.0, k.1, depth, k.2),
        ),
    decreases items.len(),
{
    if items.len() > 0 {
        lemma_rows_list_collapsed(named, expanded, items.drop_last(), depth, fuel);
        let item = items.last();
        assert(rows_for(named, expanded, item, depth, fuel) == seq![(item.0, item.1, depth, item.2)]);
        assert(rows_list(named, expanded, items, depth, fuel) =~= items.map_values(
            |k: TreeItem| (k.0, k.1, depth, k.2),
        ));
    } else {
        assert(rows_list(named, expanded, items, depth, fuel) =~= items.map_values(
            |k: TreeItem| (k.0, k.1, depth, k.2),
        ));
    }
}

/// With nothing expanded the world tree shows exactly the roots, in order, at depth 0.
pub proof fn lemma_collapsed_tree_shows_roots(named: Seq<NamedEntity>, expanded: Set<Entity>)
    requires
        forall|e: Entity| !expanded.contains(e),
    ensures
        spec_entity_tree(named, expanded) == kids_in(named, named, None).map_values(
            |k: TreeItem| (k.0, k.1, 0nat, k.2),
        ),
{
    lemma_rows_list_collapsed(named, expanded, kids_in(named, named, None), 0, named.len());
}

/// Consecutive rows go at most one level deeper, and only below a row whose
/// entity is expanded and has children.
pub open spec fn well_nested(rows: Seq<TreeRow>, expanded: Set<Entity>) -> bool {
    forall|i: int|
        0 <= i < rows.len() - 1 ==> {
            &&& #[trigger] rows[i + 1].2 <= rows[i].2 + 1
            &&& rows[i + 1].2 == rows[i].2 + 1 ==> expanded.contains(rows[i].0) && rows[i].3
        }
}

/// Every row is at least `depth` deep.
pub open spec fn all_at_least(rows: Seq<TreeRow>, depth: nat) -> bool {
    forall|i: int| 0 <= i < rows.len() ==> #[trigger] rows[i].2 >= depth
}

proof fn lemma_concat_nested(a: Seq<TreeRow>, b: Seq<TreeRow>, expanded: Set<Entity>, depth: nat)
    requires
        well_nested(a, expanded),
        well_nested(b, expanded),
        all_at_least(a, depth),
        all_at_least(b, depth),
        b.len() > 0 ==> b[0].2 == depth,
    ensures
        well_nested(a + b, expanded),
        all_at_least(a + b, depth),
{
    let r = a + b;
    assert forall|i: int| 0 <= i < r.len() - 1 implies {
        &&& #[trigger] r[i + 1].2 <= r[i].2 + 1
        &&& r[i + 1].2 == r[i].2 + 1 ==> expanded.contains(r[i].0) && r[i].3
    } by {
        if i + 1 < a.len() {
            assert(r[i] == a[i] && r[i + 1] == a[i + 1]);
        } else if i + 1 == a.len() {
            assert(r[i] == a[i] && r[i + 1] == b[0]);
        } else {
            let j = i - a.len();
            assert(r[i] == b[j] && r[i + 1] == b[j + 1]);
        }
    }
    assert forall|i: int| 0 <= i < r.len() implies #[trigger] r[i].2 >= depth by {
        if i < a.len() {
            assert(r[i] == a[i]);
        } else {
            assert(r[i] == b[i - a.len()]);
        }
    }
}

proof fn lemma_rows_for_nested(
    named: Seq<NamedEntity>,
    expanded: Set<Entity>,
    item: TreeItem,
    depth: nat,
    fuel: nat,
)
    ensures
        rows_for(named, expanded, item, depth, fuel).len() > 0,
        rows_for(named, expanded, item, depth, fuel)[0].2 == depth,
        all_at_least(rows_for(named, expanded, item, depth, fuel), depth),
        well_nested(rows_for(named, expanded, item, depth, fuel), expanded),
    decreases fuel, 0nat, 0nat,
{
    let head = seq![(item.0, item.1, depth, item.2)];
    if fuel > 0 && item.2 && expanded.contains(item.0) {
        let kids = kids_in(named, named, Some(item.0));
        let rest = rows_list(named, expanded, kids, depth + 1, (fuel - 1) as nat);
        lemma_rows_list_nested(named, expanded, kids, depth + 1, (fuel - 1) as nat);
        let r = head + rest;
        assert(r[0] == head[0]);
        assert forall|i: int| 0 <= i < r.len() - 1 implies {
            &&& #[trigger] r[i + 1].2 <= r[i].2 + 1
            &&& r[i + 1].2 == r[i].2 + 1 ==> expanded.contains(r[i].0) && r[i].3
        } by {
            if i == 0 {
                assert(r[1] == rest[0]);
            } else {
                let j = i - 1;
                assert(r[i] == rest[j] && r[i + 1] == rest[j + 1]);
            }
        }
        assert forall|i: int| 0 <= i < r.len() implies #[trigger] r[i].2 >= depth by {
            if i > 0 {
                assert(r[i] == rest[i - 1]);
            }
        }
    }
}

proof fn lemma_rows_list_nested(
    named: Seq<NamedEntity>,
    expanded: Set<Entity>,
    items: Seq<TreeItem>,
    depth: nat,
    fuel: nat,
)
    ensures
        rows_list(named, expanded, items, depth, fuel).len() > 0 ==> rows_list(
            named,
            expanded,
            items,
            depth,
            fuel,
        )[0].2 == depth,
        all_at_least(rows_list(named, expanded, items, depth, fuel), depth),
        well_nested(rows_list(named, expanded, items, depth, fuel), expanded),
    decreases fuel, 1nat, items.len(),
{
    if items.len() > 0 {
        let a = rows_list(named, expanded, items.drop_last(), depth, fuel);
        let b = rows_for(named, expanded, items.last(), depth, fuel);
        lemma_rows_list_nested(named, expanded, items.drop_last(), depth, fuel);
        lemma_rows_for_nested(named, expanded, items.last(), depth, fuel);
        lemma_concat_nested(a, b, expanded, depth);
        if a.len() > 0 {
            assert((a + b)[0] == a[0]);
        } else {
            assert((a + b)[0] == b[0]);
        }
    }
}

/// In the world tree, the first row is a root at depth 0, each row is at most
/// one level deeper than the row before it, and a row is followed by a deeper
/// one only when its entity is expanded and has children: children of a
/// collapsed entity are never listed.
pub proof fn lemma_tree_rows_well_nested(named: Seq<NamedEntity>, expanded: Set<Entity>)
    ensures
        spec_entity_tree(named, expanded).len() > 0 ==> spec_entity_tree(named, expanded)[0].2 == 0,
        well_nested(spec_entity_tree(named, expanded), expanded),
{
    lemma_rows_list_nested(named, expanded, kids_in(named, named, None), 0, named.len());
}

/// The upper-case hexadecimal digit of `n` (0 to 15).
pub open spec fn upper_hex_digit(n: nat) -> char {
    if n < 10 {
        (48 + n) as char
    } else {
        (55 + n) as char
    }
}

/// `#RRGGBB` written with upper-case digits for the three bytes.
pub open spec fn hex_color_text(r: u8, g: u8, b: u8) -> Seq<char> {
    seq![
        '#',
        upper_hex_digit((r / 16) as nat),
        upper_hex_digit((r % 16) as nat),
        upper_hex_digit((g / 16) as nat),
        upper_hex_digit((g % 16) as nat),
        upper_hex_digit((b / 16) as nat),
        upper_hex_digit((b % 16) as nat),
    ]
}

proof fn lemma_upper_hex_digit(n: nat)
    requires
        n < 16,
    ensures
        is_hex_digit(upper_hex_digit(n)),
        hex_digit_value(upper_hex_digit(n)) == n,
        upper_hex_digit(n) != '+',
        !is_white_space(upper_hex_digit(n)),
        '\0' <= upper_hex_digit(n) <= '\u{7f}',
{
}

proof fn lemma_pair_parses(hi: nat, lo: nat)
    requires
        hi < 16,
        lo < 16,
    ensures
        spec_parse_hex_u8(seq![upper_hex_digit(hi), upper_hex_digit(lo)]) == Some((hi * 16 + lo) as u8),
{
    lemma_upper_hex_digit(hi);
    lemma_upper_hex_digit(lo);
    let d = seq![upper_hex_digit(hi), upper_hex_digit(lo)];
    assert(d.drop_last() =~= seq![upper_hex_digit(hi)]);
    let one = seq![upper_hex_digit(hi)];
    assert(one.drop_last() =~= Seq::<char>::empty());
    assert(one.last() == upper_hex_digit(hi));
    assert(hex_value(one) == hex_value(one.drop_last()) * 16 + hex_digit_value(one.last()));
    assert(hex_value(one) == hi);
    assert(hex_value(d.drop_last()) == hi);
    assert(hex_value(d) == hi * 16 + lo);
}

proof fn lemma_ascii_pair_decodes(hex: Seq<char>, start: int)
    requires
        is_ascii_chars(hex),
        0 <= start,
        start + 2 <= hex.len(),
    ensures
        decode_utf8(encode_utf8(hex).subrange(start, start + 2)) == hex.subrange(start, start + 2),
{
    vstd::utf8::is_ascii_chars_encode_utf8(hex);
    let pair = hex.subrange(start, start + 2);
    assert(is_ascii_chars(pair));
    vstd::utf8::is_ascii_chars_encode_utf8(pair);
    assert(encode_utf8(hex).subrange(start, start + 2) =~= encode_utf8(pair));
    vstd::utf8::encode_utf8_decode_utf8(pair);
}

/// A colour written as `#RRGGBB` from three bytes is read back as exactly
/// those bytes, and reading it splits no character.
pub proof fn lemma_hex_color_round_trip(r: u8, g: u8, b: u8)
    ensures
        parse_color_splits_cleanly(hex_color_text(r, g, b)),
        spec_parse_color(hex_color_text(r, g, b)) == Ok::<ColorTextView, Seq<char>>(
            ColorTextView::Hex(r, g, b),
        ),
{
    let t = hex_color_text(r, g, b);
    lemma_upper_hex_digit((r / 16) as nat);
    lemma_upper_hex_digit((r % 16) as nat);
    lemma_upper_hex_digit((g / 16) as nat);
    lemma_upper_hex_digit((g % 16) as nat);
    lemma_upper_hex_digit((b / 16) as nat);
    lemma_upper_hex_digit((b % 16) as nat);
    assert(trim_start(t) == t);
    assert(trim_end(t) == t);
    assert(trim_spec(t) == t);
    let hex = t.drop_first();
    assert(is_ascii_chars(hex));
    vstd::utf8::is_ascii_chars_encode_utf8(hex);
    let bytes = hex_bytes(t);
    assert(bytes.len() == 6);
    lemma_ascii_pair_decodes(hex, 0);
    lemma_ascii_pair_decodes(hex, 2);
    lemma_ascii_pair_decodes(hex, 4);
    vstd::utf8::encode_utf8_valid_utf8(hex);
    vstd::utf8::is_char_boundary_iff_not_is_continuation_byte(bytes, 2);
    vstd::utf8::is_char_boundary_iff_not_is_continuation_byte(bytes, 4);
    assert(hex.subrange(0, 2) =~= seq![upper_hex_digit((r / 16) as nat), upper_hex_digit((r % 16) as nat)]);
    assert(hex.subrange(2, 4) =~= seq![upper_hex_digit((g / 16) as nat), upper_hex_digit((g % 16) as nat)]);
    assert(hex.subrange(4, 6) =~= seq![upper_hex_digit((b / 16) as nat), upper_hex_digit((b % 16) as nat)]);
    lemma_pair_parses((r / 16) as nat, (r % 16) as nat);
    lemma_pair_parses((g / 16) as nat, (g % 16) as nat);
    lemma_pair_parses((b / 16) as nat, (b % 16) as nat);
}

proof fn lemma_rows_for_allowance(
    named: Seq<NamedEntity>,
    expanded: Set<Entity>,
    item: TreeItem,
    depth: nat,
    fuel: nat,
    more: nat,
)
    requires
        !rows_for_cut(named, expanded, item, fuel),
        fuel <= more,
    ensures
        rows_for(named, expanded, item, depth, fuel) == rows_for(named, expanded, item, depth, more),
    decreases fuel, 0nat, 0nat,
{
    let kids = kids_in(named, named, Some(item.0));
    if item.2 && expanded.contains(item.0) {
        if fuel == 0 {
            if more > 0 {
                assert(rows_list(named, expanded, kids, depth + 1, (more - 1) as nat) =~= Seq::<TreeRow>::empty());
                assert(seq![(item.0, item.1, depth, item.2)] + Seq::<TreeRow>::empty() =~= seq![(item.0, item.1, depth, item.2)]);
            }
        } else {
            lemma_rows_list_allowance(named, expanded, kids, depth + 1, (fuel - 1) as nat, (more - 1) as nat);
        }
    }
}

proof fn lemma_rows_list_allowance(
    named: Seq<NamedEntity>,
    expanded: Set<Entity>,
    items: Seq<TreeItem>,
    depth: nat,
    fuel: nat,
    more: nat,
)
    requires
        !rows_list_cut(named, expanded, items, fuel),
        fuel <= more,
    ensures
        rows_list(named, expanded, items, depth, fuel) == rows_list(named, expanded, items, depth, more),
    decreases fuel, 1nat, items.len(),
{
    if items.len() > 0 {
        lemma_rows_list_allowance(named, expanded, items.drop_last(), depth, fuel, more);
        lemma_rows_for_allowance(named, expanded, items.last(), depth, fuel, more);
    }
}

/// When the walk ends, its allowance of levels is never used up: any larger
/// allowance gives the same rows, so the tree is the unbounded depth-first walk.
pub proof fn lemma_entity_tree_allowance_unused(named: Seq<NamedEntity>, expanded: Set<Entity>, more: nat)
    requires
        entity_tree_ends(named, expanded),
        named.len() <= more,
    ensures
        rows_list(named, expanded, kids_in(named, named, None), 0, more) == spec_entity_tree(named, expanded),
{
    lemma_rows_list_allowance(named, expanded, kids_in(named, named, None), 0, named.len(), more);
}

/// The editor state just before message `i` of `msgs` is handled.
pub open spec fn state_before(
    s: EditorUiStateView,
    msgs: Seq<IcedMessage>,
    cursor: Option<(FloatBits, FloatBits)>,
    i: int,
) -> EditorUiStateView {
    spec_process_messages(s, msgs.take(i), cursor).0
}

/// How many rename submissions `msgs` holds.
pub open spec fn name_submissions(msgs: Seq<IcedMessage>) -> nat
    decreases msgs.len(),
{
    if msgs.len() == 0 {
        0
    } else {
        name_submissions(msgs.drop_last()) + if msgs.last() is EntityNameSubmitted { 1nat } else { 0nat }
    }
}

/// How many property submissions `msgs` holds.
pub open spec fn property_submissions(msgs: Seq<IcedMessage>) -> nat
    decreases msgs.len(),
{
    if msgs.len() == 0 {
        0
    } else {
        property_submissions(msgs.drop_last()) + if msgs.last() is PropertyValueSubmitted { 1nat } else { 0nat }
    }
}

/// The rename commits of a batch come from the messages at `pos`, in order:
/// each from the submission of the entity being renamed at that point, with the
/// trimmed name draft of that point.
pub open spec fn name_commits_come_from(
    s: EditorUiStateView,
    msgs: Seq<IcedMessage>,
    cursor: Option<(FloatBits, FloatBits)>,
    pos: Seq<int>,
) -> bool {
    let commits = spec_process_messages(s, msgs, cursor).1;
    &&& pos.len() == commits.len()
    &&& forall|a: int, b: int| 0 <= a < b < pos.len() ==> pos[a] < pos[b]
    &&& forall|k: int|
        0 <= k < pos.len() ==> {
            let before = #[trigger] state_before(s, msgs, cursor, pos[k]);
            &&& 0 <= pos[k] < msgs.len()
            &&& msgs[pos[k]] == IcedMessage::EntityNameSubmitted(commits[k].0)
            &&& before.renaming_entity == Some(commits[k].0)
            &&& commits[k].1 == trim_spec(before.name_draft)
        }
}

/// The property commits of a batch come from the messages at `pos`, in order:
/// each from the submission of the line being edited at that point, for the
/// entity selected then, with that line's field, old value and trimmed draft.
pub open spec fn property_commits_come_from(
    s: EditorUiStateView,
    msgs: Seq<IcedMessage>,
    cursor: Option<(FloatBits, FloatBits)>,
    pos: Seq<int>,
) -> bool {
    let commits = spec_process_messages(s, msgs, cursor).2;
    &&& pos.len() == commits.len()
    &&& forall|a: int, b: int| 0 <= a < b < pos.len() ==> pos[a] < pos[b]
    &&& forall|k: int|
        0 <= k < pos.len() ==> {
            let before = #[trigger] state_before(s, msgs, cursor, pos[k]);
            &&& 0 <= pos[k] < msgs.len()
            &&& msgs[pos[k]] matches IcedMessage::PropertyValueSubmitted(i) && {
                &&& before.editing_property_index == Some(i)
                &&& i < before.property_lines.len()
                &&& before.selected_entity == Some(commits[k].0)
                &&& commits[k].1 == before.property_lines[i as int].3
                &&& commits[k].2 == before.property_lines[i as int].1
                &&& commits[k].3 == trim_spec(before.property_lines[i as int].2)
            }
        }
}

/// Over any batch of messages, every rename commit comes from a rename
/// submission of the entity then being renamed, and every property commit from
/// a submission of the line then being edited, in the order of the messages;
/// so there are no more commits than submissions.
pub proof fn lemma_commit_provenance(s: EditorUiStateView, msgs: Seq<IcedMessage>, cursor: Option<(FloatBits, FloatBits)>)
    ensures
        exists|pos: Seq<int>| name_commits_come_from(s, msgs, cursor, pos),
        exists|pos: Seq<int>| property_commits_come_from(s, msgs, cursor, pos),
        spec_process_messages(s, msgs, cursor).1.len() <= name_submissions(msgs),
        spec_process_messages(s, msgs, cursor).2.len() <= property_submissions(msgs),
    decreases msgs.len(),
{
    if msgs.len() == 0 {
        assert(name_commits_come_from(s, msgs, cursor, Seq::<int>::empty()));
        assert(property_commits_come_from(s, msgs, cursor, Seq::<int>::empty()));
    } else {
        let init = msgs.drop_last();
        let n = init.len() as int;
        lemma_commit_provenance(s, init, cursor);
        let pn = choose|pos: Seq<int>| name_commits_come_from(s, init, cursor, pos);
        let pp = choose|pos: Seq<int>| property_commits_come_from(s, init, cursor, pos);
        let before = spec_process_messages(s, init, cursor);
        let after = spec_step(before.0, msgs.last(), cursor);
        let whole = spec_process_messages(s, msgs, cursor);
        assert(whole == (after.0, before.1 + after.1, before.2 + after.2));
        assert forall|i: int| 0 <= i <= n implies #[trigger] state_before(s, msgs, cursor, i) == state_before(s, init, cursor, i) by {
            assert(msgs.take(i) =~= init.take(i));
        }
        assert(init.take(n) =~= init);
        assert(state_before(s, msgs, cursor, n) == before.0);
        assert(after.1.len() <= 1 && after.2.len() <= 1);
        assert(after.1.len() == 1 ==> msgs.last() is EntityNameSubmitted);
        assert(after.2.len() == 1 ==> msgs.last() is PropertyValueSubmitted);
        let pn2 = if after.1.len() > 0 { pn.push(n) } else { pn };
        let pp2 = if after.2.len() > 0 { pp.push(n) } else { pp };
        assert(pn2.len() == whole.1.len());
        assert(pp2.len() == whole.2.len());
        assert forall|a: int, b: int| 0 <= a < b < pn2.len() implies pn2[a] < pn2[b] by {
            let _ = state_before(s, init, cursor, pn[a]);
            if b < pn.len() {
                assert(pn2[a] == pn[a] && pn2[b] == pn[b]);
            }
        }
        assert forall|a: int, b: int| 0 <= a < b < pp2.len() implies pp2[a] < pp2[b] by {
            let _ = state_before(s, init, cursor, pp[a]);
            if b < pp.len() {
                assert(pp2[a] == pp[a] && pp2[b] == pp[b]);
            }
        }
        assert forall|k: int| 0 <= k < pn2.len() implies {
            let b = #[trigger] state_before(s, msgs, cursor, pn2[k]);
            &&& 0 <= pn2[k] < msgs.len()
            &&& msgs[pn2[k]] == IcedMessage::EntityNameSubmitted(whole.1[k].0)
            &&& b.renaming_entity == Some(whole.1[k].0)
            &&& whole.1[k].1 == trim_spec(b.name_draft)
        } by {
            if k < pn.len() {
                assert(state_before(s, init, cursor, pn[k]) == state_before(s, msgs, cursor, pn[k]));
                assert(whole.1[k] == before.1[k]);
                assert(msgs[pn[k]] == init[pn[k]]);
            } else {
                assert(whole.1[k] == after.1[0]);
            }
        }
        assert(name_commits_come_from(s, msgs, cursor, pn2));
        assert forall|k: int| 0 <= k < pp2.len() implies {
            let b = #[trigger] state_before(s, msgs, cursor, pp2[k]);
            &&& 0 <= pp2[k] < msgs.len()
            &&& msgs[pp2[k]] matches IcedMessage::PropertyValueSubmitted(i) && {
                &&& b.editing_property_index == Some(i)
                &&& i < b.property_lines.len()
                &&& b.selected_entity == Some(whole.2[k].0)
                &&& whole.2[k].1 == b.property_lines[i as int].3
                &&& whole.2[k].2 == b.property_lines[i as int].1
                &&& whole.2[k].3 == trim_spec(b.property_lines[i as int].2)
            }
        } by {
            if k < pp.len() {
                assert(state_before(s, init, cursor, pp[k]) == state_before(s, msgs, cursor, pp[k]));
                assert(whole.2[k] == before.2[k]);
                assert(msgs[pp[k]] == init[pp[k]]);
            } else {
                assert(whole.2[k] == after.2[0]);
            }
        }
        assert(property_commits_come_from(s, msgs, cursor, pp2));
    }
}

/// Starting a splitter drag with the pointer at `(x, y)` remembers the side,
/// the pointer's `x`, and the width of the panel on the dragged side (the left
/// panel for the left splitter, the right panel for the right one), whatever
/// the other panel's width; it resizes neither panel.
pub proof fn lemma_drag_starts_from_dragged_panel(
    s: EditorUiStateView,
    side: SplitterSide,
    x: FloatBits,
    y: FloatBits,
)
    ensures
        ({
            let r = spec_process_messages(s, seq![IcedMessage::SplitterDragStarted(side)], Some((x, y))).0;
            &&& r.splitter_drag_side == Some(side)
            &&& r.splitter_drag_anchor_x == x
            &&& side == SplitterSide::Left ==> r.splitter_drag_start_width == s.left_panel_width
            &&& side == SplitterSide::Right ==> r.splitter_drag_start_width == s.right_panel_width
            &&& r.left_panel_width == s.left_panel_width
            &&& r.right_panel_width == s.right_panel_width
        }),
{
    let msgs = seq![IcedMessage::SplitterDragStarted(side)];
    assert(msgs.drop_last() =~= Seq::<IcedMessage>::empty());
    assert(msgs.last() == IcedMessage::SplitterDragStarted(side));
    let empty = spec_process_messages(s, Seq::<IcedMessage>::empty(), Some((x, y)));
    assert(empty.0 == s);
    assert(spec_process_messages(s, msgs, Some((x, y))).0 == spec_step(s, msgs.last(), Some((x, y))).0);
}

} // verus!
