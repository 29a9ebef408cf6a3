//! The library's laws: properties of the rendering semantics, proved once
//! and for all values.
//!
//! They cover, in order: the determinism and per-frame stability of node
//! identities, the distinctness of sibling identities, the inert
//! degradation of values without capabilities, the inline forwarding of
//! inspectable-only values, the exactness of numeric edits, the
//! default construction on a variant switch, the complete exclusion of
//! ignored fields from the inspector, the tree and the search, and the
//! correctness of the depth-first dispatch.

use crate::id::{lemma_child_id_injective, spec_child_id};
use crate::inspectable::{
    fields_outside_spec, inspect_spec, list_inspect_spec, outside_spec, FieldsOut, RenderOut,
};
use crate::shape::FieldDeclV;
use crate::tree::{
    contents_spec, dfs_fields_spec, dfs_list_spec, dfs_spec, node_spec, rows_fields_spec,
    rows_list_spec, TreeOut,
};
use crate::ui::{clicked_variant, set_int_at, ActV, NameV, OpV};
use crate::value::{
    is_inspectable, is_tree, spec_default, spec_defaults, ValueV,
};
use vstd::prelude::*;

verus! {

/// The identities of the tree rows in a widget trace, in drawing order.
pub open spec fn row_ids(ops: Seq<OpV>) -> Seq<u64>
    decreases ops,
{
    if ops.len() == 0 {
        Seq::empty()
    } else {
        row_ids(ops.drop_last()) + (match ops.last() {
            OpV::NodeStart { id, .. } => seq![id],
            OpV::LeafRow { id, .. } => seq![id],
            _ => Seq::<u64>::empty(),
        })
    }
}

/// Row identities distribute over concatenation.
pub proof fn lemma_row_ids_concat(a: Seq<OpV>, b: Seq<OpV>)
    ensures
        row_ids(a + b) == row_ids(a) + row_ids(b),
    decreases b.len(),
{
    if b.len() == 0 {
        assert(a + b =~= a);
        assert(row_ids(a) + Seq::<u64>::empty() =~= row_ids(a));
    } else {
        lemma_row_ids_concat(a, b.drop_last());
        assert((a + b).drop_last() =~= a + b.drop_last());
        assert((a + b).last() == b.last());
        assert(row_ids(a + b) =~= row_ids(a) + row_ids(b));
    }
}

/// Determinism of node identities: the identities of the rows a value
/// draws depend only on the value, its display name, and its own
/// identity — not on the current selection and not on the frame's
/// action.  Rendering the same tree twice therefore yields identical
/// identities both times, even though the tree is rebuilt from scratch.
#[verifier::rlimit(100)]
#[verifier::spinoff_prover]
pub proof fn lemma_node_ids_deterministic(
    v: ValueV,
    name: NameV,
    id: u64,
    sel1: Option<u64>,
    act1: Option<ActV>,
    sel2: Option<u64>,
    act2: Option<ActV>,
)
    ensures
        row_ids(node_spec(v, name, id, sel1, act1).ops) == row_ids(
            node_spec(v, name, id, sel2, act2).ops,
        ),
    decreases v, 1int,
{
    if !is_tree(v) {
    } else {
        let s1 = if crate::ui::is_row_click(act1, id) {
            Some(id)
        } else {
            sel1
        };
        let s2 = if crate::ui::is_row_click(act2, id) {
            Some(id)
        } else {
            sel2
        };
        lemma_contents_ids_deterministic(v, id, s1, act1, s2, act2);
        let i1 = contents_spec(v, id, s1, act1);
        let i2 = contents_spec(v, id, s2, act2);
        let h1 = seq![OpV::NodeStart { id, name, selected: sel1 == Some(id) }];
        let h2 = seq![OpV::NodeStart { id, name, selected: sel2 == Some(id) }];
        lemma_row_ids_single(h1, seq![id]);
        lemma_row_ids_single(h2, seq![id]);
        lemma_row_ids_single(seq![OpV::NodeEnd], Seq::empty());
        assert(row_ids(node_spec(v, name, id, sel1, act1).ops) == seq![id] + row_ids(i1.ops)) by {
            lemma_row_ids_concat(h1 + i1.ops, seq![OpV::NodeEnd]);
            lemma_row_ids_concat(h1, i1.ops);
            assert(seq![id] + row_ids(i1.ops) + Seq::<u64>::empty() =~= seq![id] + row_ids(
                i1.ops,
            ));
        }
        assert(row_ids(node_spec(v, name, id, sel2, act2).ops) == seq![id] + row_ids(i2.ops)) by {
            lemma_row_ids_concat(h2 + i2.ops, seq![OpV::NodeEnd]);
            lemma_row_ids_concat(h2, i2.ops);
            assert(seq![id] + row_ids(i2.ops) + Seq::<u64>::empty() =~= seq![id] + row_ids(
                i2.ops,
            ));
        }
    }
}

/// The row identities of a one-widget trace.
proof fn lemma_row_ids_single(ops: Seq<OpV>, expected: Seq<u64>)
    requires
        ops.len() == 1,
        expected == (match ops[0] {
            OpV::NodeStart { id, .. } => seq![id],
            OpV::LeafRow { id, .. } => seq![id],
            _ => Seq::<u64>::empty(),
        }),
    ensures
        row_ids(ops) == expected,
{
    assert(ops.drop_last() =~= Seq::<OpV>::empty());
    assert(row_ids(Seq::<OpV>::empty()) == Seq::<u64>::empty());
    assert(ops.last() == ops[0]);
    assert(Seq::<u64>::empty() + expected =~= expected);
}

/// Determinism of the children's identities, for every selection and
/// action.
pub proof fn lemma_contents_ids_deterministic(
    v: ValueV,
    id: u64,
    sel1: Option<u64>,
    act1: Option<ActV>,
    sel2: Option<u64>,
    act2: Option<ActV>,
)
    ensures
        row_ids(contents_spec(v, id, sel1, act1).ops) == row_ids(
            contents_spec(v, id, sel2, act2).ops,
        ),
    decreases v, 0int,
{
    match v {
        ValueV::StructVal(st, fields) => {
            lemma_rows_fields_ids_deterministic(fields, st.fields, id, sel1, act1, sel2, act2);
        },
        ValueV::List(t, items) => {
            lemma_rows_list_ids_deterministic(items, id, sel1, act1, sel2, act2);
        },
        _ => {},
    }
}

proof fn lemma_rows_fields_ids_deterministic(
    vs: Seq<ValueV>,
    fs: Seq<FieldDeclV>,
    id: u64,
    sel1: Option<u64>,
    act1: Option<ActV>,
    sel2: Option<u64>,
    act2: Option<ActV>,
)
    ensures
        row_ids(rows_fields_spec(vs, fs, id, sel1, act1).ops) == row_ids(
            rows_fields_spec(vs, fs, id, sel2, act2).ops,
        ),
    decreases vs, 2int,
{
    if vs.len() == 0 || vs.len() != fs.len() {
    } else {
        let f1 = rows_fields_spec(vs.drop_last(), fs.drop_last(), id, sel1, act1);
        let f2 = rows_fields_spec(vs.drop_last(), fs.drop_last(), id, sel2, act2);
        lemma_rows_fields_ids_deterministic(
            vs.drop_last(),
            fs.drop_last(),
            id,
            sel1,
            act1,
            sel2,
            act2,
        );
        if !fs.last().ignored {
            let cid = spec_child_id(id, (vs.len() - 1) as u64);
            lemma_node_ids_deterministic(
                vs.last(),
                fs.last().name,
                cid,
                f1.sel,
                act1,
                f2.sel,
                act2,
            );
            let r1 = node_spec(vs.last(), fs.last().name, cid, f1.sel, act1);
            let r2 = node_spec(vs.last(), fs.last().name, cid, f2.sel, act2);
            lemma_row_ids_concat(f1.ops, r1.ops);
            lemma_row_ids_concat(f2.ops, r2.ops);
        }
    }
}

proof fn lemma_rows_list_ids_deterministic(
    vs: Seq<ValueV>,
    id: u64,
    sel1: Option<u64>,
    act1: Option<ActV>,
    sel2: Option<u64>,
    act2: Option<ActV>,
)
    ensures
        row_ids(rows_list_spec(vs, id, sel1, act1).ops) == row_ids(
            rows_list_spec(vs, id, sel2, act2).ops,
        ),
    decreases vs, 2int,
{
    if vs.len() == 0 {
    } else {
        let f1 = rows_list_spec(vs.drop_last(), id, sel1, act1);
        let f2 = rows_list_spec(vs.drop_last(), id, sel2, act2);
        lemma_rows_list_ids_deterministic(vs.drop_last(), id, sel1, act1, sel2, act2);
        let cid = spec_child_id(id, (vs.len() - 1) as u64);
        let nm = NameV::Index((vs.len() - 1) as u64);
        lemma_node_ids_deterministic(vs.last(), nm, cid, f1.sel, act1, f2.sel, act2);
        let r1 = node_spec(vs.last(), nm, cid, f1.sel, act1);
        let r2 = node_spec(vs.last(), nm, cid, f2.sel, act2);
        lemma_row_ids_concat(f1.ops, r1.ops);
        lemma_row_ids_concat(f2.ops, r2.ops);
    }
}

/// Locality of identity: two sibling children of one parent row, at
/// distinct declared ordinals, never receive the same identity.
pub proof fn lemma_sibling_ids_distinct(parent_id: u64, i: u64, j: u64)
    requires
        i != j,
    ensures
        spec_child_id(parent_id, i) != spec_child_id(parent_id, j),
{
    lemma_child_id_injective(parent_id, i, j);
}

/// Capability degradation: a field whose value offers neither capability
/// still renders — its labelled slot is present but inert.  It draws the
/// placeholder, consumes no editor ordinal, and no action whatsoever can
/// change its value; in the tree it contributes no row.
pub proof fn lemma_opaque_degrades(
    name: NameV,
    id: u64,
    sel: Option<u64>,
    act: Option<ActV>,
    e0: int,
)
    ensures
        outside_spec(name, ValueV::Opaque, act, e0) == (RenderOut {
            ops: seq![OpV::RowStart(name), OpV::Placeholder, OpV::RowEnd],
            eds: 0,
            out: ValueV::Opaque,
        }),
        node_spec(ValueV::Opaque, name, id, sel, act) == (TreeOut { ops: Seq::empty(), sel }),
{
    let r = inspect_spec(ValueV::Opaque, act, e0);
    assert(seq![OpV::RowStart(name)] + r.ops + seq![OpV::RowEnd] =~= seq![
        OpV::RowStart(name),
        OpV::Placeholder,
        OpV::RowEnd,
    ]);
}

/// Capability forwarding: a field whose value is inspectable but not a
/// tree node is rendered inline — its labelled row wraps exactly the
/// widgets of the value's own editor, and its edits are the editor's own
/// — while the tree shows no row for it.
pub proof fn lemma_inspect_only_is_inline(
    name: NameV,
    v: ValueV,
    id: u64,
    sel: Option<u64>,
    act: Option<ActV>,
    e0: int,
)
    requires
        is_inspectable(v),
        !is_tree(v),
    ensures
        outside_spec(name, v, act, e0) == (RenderOut {
            ops: seq![OpV::RowStart(name)] + inspect_spec(v, act, e0).ops + seq![OpV::RowEnd],
            eds: inspect_spec(v, act, e0).eds,
            out: inspect_spec(v, act, e0).out,
        }),
        node_spec(v, name, id, sel, act) == (TreeOut { ops: Seq::empty(), sel }),
{
}

/// Round-trip edit: setting a numeric value through its editor and
/// reading the value back yields the edited number exactly.
pub proof fn lemma_numeric_round_trip(n: i64, x: i64, o: usize)
    ensures
        inspect_spec(ValueV::Int(n), Some(ActV::SetInt(o, x)), o as int).out == ValueV::Int(x),
        inspect_spec(ValueV::Int(n), None, o as int).out == ValueV::Int(n),
{
    assert(set_int_at(Some(ActV::SetInt(o, x)), o as int) == Some(x));
}

/// Enum variant switch: clicking the selector entry of a variant replaces
/// the value with that variant, every field of which is built from its
/// declared type's default; nothing of the old variant's data survives.
pub proof fn lemma_variant_switch(
    et: crate::shape::EnumTyV,
    k: int,
    fields: Seq<ValueV>,
    o: usize,
    e0: int,
)
    requires
        e0 <= o < e0 + et.variants.len(),
    ensures
        ({
            let j = o - e0;
            let r = inspect_spec(ValueV::EnumVal(et, k, fields), Some(ActV::Click(o)), e0);
            &&& r.out == ValueV::EnumVal(et, j, spec_defaults(et.variants[j].fields))
            &&& spec_defaults(et.variants[j].fields).len() == et.variants[j].fields.len()
            &&& forall|q: int|
                0 <= q < et.variants[j].fields.len() ==> spec_defaults(et.variants[j].fields)[q]
                    == spec_default(#[trigger] et.variants[j].fields[q].ty)
        }),
{
    let j = o - e0;
    assert(clicked_variant(Some(ActV::Click(o)), e0, et.variants.len() as int) == Some(j));
    crate::value::lemma_spec_defaults_index(et.variants[j].fields);
}


/// A frame with no pending action changes nothing: inspecting any value
/// without interaction returns it untouched.
pub proof fn lemma_no_action_no_change(v: ValueV, e0: int)
    ensures
        inspect_spec(v, None, e0).out == v,
    decreases v, 1int,
{
    match v {
        ValueV::ReadOnly(inner) => {
            lemma_no_action_no_change(*inner, e0);
        },
        ValueV::OptVal(t, inner) => {
            match inner {
                Some(b) => {
                    lemma_no_action_no_change(*b, e0);
                },
                None => {},
            }
        },
        ValueV::List(t, items) => {
            lemma_no_action_no_change_list(items, e0);
            assert(inspect_spec(v, None, e0).out == ValueV::List(
                t,
                list_inspect_spec(items, None, e0).outs,
            ));
        },
        ValueV::StructVal(st, fields) => {
            lemma_no_action_no_change_fields(fields, st.fields, e0);
        },
        ValueV::EnumVal(et, k, fields) => {
            lemma_no_action_no_change_fields(fields, et.variants[k].fields, e0 + et.variants.len());
        },
        _ => {},
    }
}

proof fn lemma_no_action_no_change_fields(vs: Seq<ValueV>, fs: Seq<FieldDeclV>, e0: int)
    ensures
        fields_outside_spec(vs, fs, None, e0).outs == vs,
    decreases vs, 2int,
{
    if vs.len() == 0 || vs.len() != fs.len() {
    } else {
        let front = fields_outside_spec(vs.drop_last(), fs.drop_last(), None, e0);
        lemma_no_action_no_change_fields(vs.drop_last(), fs.drop_last(), e0);
        let whole = fields_outside_spec(vs, fs, None, e0);
        if fs.last().ignored {
            assert(whole.outs == front.outs.push(vs.last()));
        } else {
            let r = outside_spec(fs.last().name, vs.last(), None, e0 + front.eds);
            assert(whole.outs == front.outs.push(r.out));
            if vs.last() is StructVal {
                assert(r.out == vs.last());
            } else {
                lemma_no_action_no_change(vs.last(), e0 + front.eds);
                assert(r.out == vs.last());
            }
        }
        assert(whole.outs =~= vs);
    }
}

proof fn lemma_no_action_no_change_list(vs: Seq<ValueV>, e0: int)
    ensures
        list_inspect_spec(vs, None, e0).outs == vs,
    decreases vs, 2int,
{
    if vs.len() == 0 {
    } else {
        let front = list_inspect_spec(vs.drop_last(), None, e0);
        lemma_no_action_no_change_list(vs.drop_last(), e0);
        lemma_no_action_no_change(vs.last(), e0 + front.eds);
        assert(list_inspect_spec(vs, None, e0).outs =~= vs);
    }
}

/// The inspector produces one output value per input value.
pub proof fn lemma_fields_outside_len(
    vs: Seq<ValueV>,
    fs: Seq<FieldDeclV>,
    act: Option<ActV>,
    e0: int,
)
    ensures
        fields_outside_spec(vs, fs, act, e0).outs.len() == vs.len(),
    decreases vs,
{
    if vs.len() == 0 || vs.len() != fs.len() {
    } else {
        lemma_fields_outside_len(vs.drop_last(), fs.drop_last(), act, e0);
    }
}

/// Ignored field exclusion, part one: whatever the frame's action does to
/// the rest of the fields, the value of a field marked as ignored comes
/// through the frame untouched.
pub proof fn lemma_ignored_field_untouched(
    vs: Seq<ValueV>,
    fs: Seq<FieldDeclV>,
    act: Option<ActV>,
    e0: int,
    i: int,
)
    requires
        vs.len() == fs.len(),
        0 <= i < vs.len(),
        fs[i].ignored,
    ensures
        fields_outside_spec(vs, fs, act, e0).outs.len() == vs.len(),
        fields_outside_spec(vs, fs, act, e0).outs[i] == vs[i],
    decreases vs.len(),
{
    lemma_fields_outside_len(vs, fs, act, e0);
    let front = fields_outside_spec(vs.drop_last(), fs.drop_last(), act, e0);
    lemma_fields_outside_len(vs.drop_last(), fs.drop_last(), act, e0);
    if i + 1 == vs.len() {
        assert(fs.last() == fs[i]);
    } else {
        assert(vs.drop_last()[i] == vs[i]);
        assert(fs.drop_last()[i] == fs[i]);
        lemma_ignored_field_untouched(vs.drop_last(), fs.drop_last(), act, e0, i);
    }
}

/// Ignored field exclusion, part two: an ignored field draws nothing in
/// the inspector.  The widgets and the editor ordinals of the whole
/// rendering are exactly those drawn when the field is not there at all.
pub proof fn lemma_ignored_field_invisible(
    vs: Seq<ValueV>,
    fs: Seq<FieldDeclV>,
    act: Option<ActV>,
    e0: int,
    i: int,
)
    requires
        vs.len() == fs.len(),
        0 <= i < vs.len(),
        fs[i].ignored,
    ensures
        fields_outside_spec(vs, fs, act, e0).ops == fields_outside_spec(
            vs.remove(i),
            fs.remove(i),
            act,
            e0,
        ).ops,
        fields_outside_spec(vs, fs, act, e0).eds == fields_outside_spec(
            vs.remove(i),
            fs.remove(i),
            act,
            e0,
        ).eds,
    decreases vs.len(),
{
    if i + 1 == vs.len() {
        assert(fs.last() == fs[i]);
        assert(vs.remove(i) =~= vs.drop_last());
        assert(fs.remove(i) =~= fs.drop_last());
    } else {
        assert(vs.remove(i).drop_last() =~= vs.drop_last().remove(i));
        assert(fs.remove(i).drop_last() =~= fs.drop_last().remove(i));
        assert(vs.remove(i).last() == vs.last());
        assert(fs.remove(i).last() == fs.last());
        assert(vs.drop_last()[i] == vs[i]);
        assert(fs.drop_last()[i] == fs[i]);
        lemma_ignored_field_invisible(vs.drop_last(), fs.drop_last(), act, e0, i);
    }
}

/// Ignored field exclusion, part three: the tree never looks at an
/// ignored field.  Replacing the field's value by anything at all leaves
/// the rendered rows and the selection outcome unchanged.
pub proof fn lemma_ignored_field_no_row(
    vs: Seq<ValueV>,
    fs: Seq<FieldDeclV>,
    id: u64,
    sel: Option<u64>,
    act: Option<ActV>,
    i: int,
    x: ValueV,
)
    requires
        vs.len() == fs.len(),
        0 <= i < vs.len(),
        fs[i].ignored,
    ensures
        rows_fields_spec(vs, fs, id, sel, act) == rows_fields_spec(
            vs.update(i, x),
            fs,
            id,
            sel,
            act,
        ),
    decreases vs.len(),
{
    if vs.len() == 0 {
    } else {
        if i + 1 == vs.len() {
            assert(fs.last() == fs[i]);
            assert(vs.update(i, x).drop_last() =~= vs.drop_last());
            assert(vs.update(i, x).len() == vs.len());
        } else {
            assert(vs.update(i, x).drop_last() =~= vs.drop_last().update(i, x));
            assert(vs.update(i, x).last() == vs.last());
            assert(vs.drop_last()[i] == vs[i]);
            assert(fs.drop_last()[i] == fs[i]);
            lemma_ignored_field_no_row(vs.drop_last(), fs.drop_last(), id, sel, act, i, x);
        }
    }
}

/// How many nodes of the searched part of the tree carry the searched
/// identity: the walk stops at a match, and descends only into
/// non-ignored children that offer the tree capability.
pub open spec fn search_count(v: ValueV, this_id: u64, search_id: u64) -> nat
    decreases v, 1int,
{
    if this_id == search_id {
        1
    } else {
        match v {
            ValueV::StructVal(st, fields) => count_fields(fields, st.fields, this_id, search_id),
            ValueV::List(t, items) => count_list(items, this_id, search_id),
            _ => 0,
        }
    }
}

pub open spec fn count_fields(
    vs: Seq<ValueV>,
    fs: Seq<FieldDeclV>,
    this_id: u64,
    search_id: u64,
) -> nat
    decreases vs, 2int,
{
    if vs.len() == 0 || vs.len() != fs.len() {
        0
    } else {
        count_fields(vs.drop_last(), fs.drop_last(), this_id, search_id) + (
        if fs.last().ignored || !is_tree(vs.last()) {
            0
        } else {
            search_count(vs.last(), spec_child_id(this_id, (vs.len() - 1) as u64), search_id)
        })
    }
}

pub open spec fn count_list(vs: Seq<ValueV>, this_id: u64, search_id: u64) -> nat
    decreases vs, 2int,
{
    if vs.len() == 0 {
        0
    } else {
        count_list(vs.drop_last(), this_id, search_id) + (
        if !is_tree(vs.last()) {
            0
        } else {
            search_count(vs.last(), spec_child_id(this_id, (vs.len() - 1) as u64), search_id)
        })
    }
}

/// The first node of the searched tree carrying the searched identity, in
/// depth-first order.
pub open spec fn found_node(v: ValueV, this_id: u64, search_id: u64) -> Option<ValueV>
    decreases v, 1int,
{
    if this_id == search_id {
        Some(v)
    } else {
        match v {
            ValueV::StructVal(st, fields) => found_fields(fields, st.fields, this_id, search_id),
            ValueV::List(t, items) => found_list(items, this_id, search_id),
            _ => None,
        }
    }
}

pub open spec fn found_fields(
    vs: Seq<ValueV>,
    fs: Seq<FieldDeclV>,
    this_id: u64,
    search_id: u64,
) -> Option<ValueV>
    decreases vs, 2int,
{
    if vs.len() == 0 || vs.len() != fs.len() {
        None
    } else {
        let front = found_fields(vs.drop_last(), fs.drop_last(), this_id, search_id);
        if front is Some {
            front
        } else if fs.last().ignored || !is_tree(vs.last()) {
            None
        } else {
            found_node(vs.last(), spec_child_id(this_id, (vs.len() - 1) as u64), search_id)
        }
    }
}

pub open spec fn found_list(vs: Seq<ValueV>, this_id: u64, search_id: u64) -> Option<ValueV>
    decreases vs, 2int,
{
    if vs.len() == 0 {
        None
    } else {
        let front = found_list(vs.drop_last(), this_id, search_id);
        if front is Some {
            front
        } else if !is_tree(vs.last()) {
            None
        } else {
            found_node(vs.last(), spec_child_id(this_id, (vs.len() - 1) as u64), search_id)
        }
    }
}

/// A search that matches nothing draws nothing, consumes no editor
/// ordinal, and returns the value untouched.
pub proof fn lemma_search_miss(v: ValueV, this_id: u64, search_id: u64, act: Option<ActV>, e0: int)
    requires
        search_count(v, this_id, search_id) == 0,
    ensures
        dfs_spec(v, this_id, search_id, act, e0) == (RenderOut {
            ops: Seq::<OpV>::empty(),
            eds: 0,
            out: v,
        }),
    decreases v, 1int,
{
    match v {
        ValueV::StructVal(st, fields) => {
            lemma_search_miss_fields(fields, st.fields, this_id, search_id, act, e0);
        },
        ValueV::List(t, items) => {
            lemma_search_miss_list(items, this_id, search_id, act, e0);
        },
        _ => {},
    }
}

proof fn lemma_search_miss_fields(
    vs: Seq<ValueV>,
    fs: Seq<FieldDeclV>,
    this_id: u64,
    search_id: u64,
    act: Option<ActV>,
    e0: int,
)
    requires
        count_fields(vs, fs, this_id, search_id) == 0,
    ensures
        dfs_fields_spec(vs, fs, this_id, search_id, act, e0) == (FieldsOut {
            ops: Seq::<OpV>::empty(),
            eds: 0,
            outs: vs,
        }),
    decreases vs, 2int,
{
    if vs.len() == 0 || vs.len() != fs.len() {
    } else {
        lemma_search_miss_fields(vs.drop_last(), fs.drop_last(), this_id, search_id, act, e0);
        if !(fs.last().ignored || !is_tree(vs.last())) {
            lemma_search_miss(
                vs.last(),
                spec_child_id(this_id, (vs.len() - 1) as u64),
                search_id,
                act,
                e0,
            );
        }
        assert(dfs_fields_spec(vs, fs, this_id, search_id, act, e0).outs =~= vs);
        assert(dfs_fields_spec(vs, fs, this_id, search_id, act, e0).ops =~= Seq::<
            OpV,
        >::empty());
    }
}

proof fn lemma_search_miss_list(
    vs: Seq<ValueV>,
    this_id: u64,
    search_id: u64,
    act: Option<ActV>,
    e0: int,
)
    requires
        count_list(vs, this_id, search_id) == 0,
    ensures
        dfs_list_spec(vs, this_id, search_id, act, e0) == (FieldsOut {
            ops: Seq::<OpV>::empty(),
            eds: 0,
            outs: vs,
        }),
    decreases vs, 2int,
{
    if vs.len() == 0 {
    } else {
        lemma_search_miss_list(vs.drop_last(), this_id, search_id, act, e0);
        if is_tree(vs.last()) {
            lemma_search_miss(
                vs.last(),
                spec_child_id(this_id, (vs.len() - 1) as u64),
                search_id,
                act,
                e0,
            );
        }
        assert(dfs_list_spec(vs, this_id, search_id, act, e0).outs =~= vs);
        assert(dfs_list_spec(vs, this_id, search_id, act, e0).ops =~= Seq::<
            OpV,
        >::empty());
    }
}

/// Depth-first search correctness: when exactly one node of the searched
/// tree carries the searched identity, dispatching through the root
/// renders exactly that node's editor — its widgets, its editor
/// ordinals, nothing of any other node — starting at the editor ordinal
/// the search was entered with.
pub proof fn lemma_search_hit(v: ValueV, this_id: u64, search_id: u64, act: Option<ActV>, e0: int)
    requires
        search_count(v, this_id, search_id) == 1,
    ensures
        found_node(v, this_id, search_id) is Some,
        dfs_spec(v, this_id, search_id, act, e0).ops == inspect_spec(
            found_node(v, this_id, search_id)->Some_0,
            act,
            e0,
        ).ops,
        dfs_spec(v, this_id, search_id, act, e0).eds == inspect_spec(
            found_node(v, this_id, search_id)->Some_0,
            act,
            e0,
        ).eds,
    decreases v, 1int,
{
    if this_id == search_id {
    } else {
        match v {
            ValueV::StructVal(st, fields) => {
                lemma_search_hit_fields(fields, st.fields, this_id, search_id, act, e0);
            },
            ValueV::List(t, items) => {
                lemma_search_hit_list(items, this_id, search_id, act, e0);
            },
            _ => {},
        }
    }
}

proof fn lemma_search_hit_fields(
    vs: Seq<ValueV>,
    fs: Seq<FieldDeclV>,
    this_id: u64,
    search_id: u64,
    act: Option<ActV>,
    e0: int,
)
    requires
        count_fields(vs, fs, this_id, search_id) == 1,
    ensures
        found_fields(vs, fs, this_id, search_id) is Some,
        dfs_fields_spec(vs, fs, this_id, search_id, act, e0).ops == inspect_spec(
            found_fields(vs, fs, this_id, search_id)->Some_0,
            act,
            e0,
        ).ops,
        dfs_fields_spec(vs, fs, this_id, search_id, act, e0).eds == inspect_spec(
            found_fields(vs, fs, this_id, search_id)->Some_0,
            act,
            e0,
        ).eds,
    decreases vs, 2int,
{
    let cid = spec_child_id(this_id, (vs.len() - 1) as u64);
    let cf = count_fields(vs.drop_last(), fs.drop_last(), this_id, search_id);
    if cf == 0 {
        // The unique match sits in the last field's subtree.
        lemma_search_miss_fields(vs.drop_last(), fs.drop_last(), this_id, search_id, act, e0);
        lemma_search_hit(vs.last(), cid, search_id, act, e0);
        lemma_found_of_count_zero_fields(vs.drop_last(), fs.drop_last(), this_id, search_id);
        let r = dfs_spec(vs.last(), cid, search_id, act, e0);
        assert(Seq::<OpV>::empty() + r.ops =~= r.ops);
    } else {
        // The unique match sits in an earlier field; the last field's
        // subtree matches nothing.
        lemma_search_hit_fields(vs.drop_last(), fs.drop_last(), this_id, search_id, act, e0);
        lemma_found_of_count_pos_fields(vs.drop_last(), fs.drop_last(), this_id, search_id);
        let front = dfs_fields_spec(
            vs.drop_last(),
            fs.drop_last(),
            this_id,
            search_id,
            act,
            e0,
        );
        if !(fs.last().ignored || !is_tree(vs.last())) {
            lemma_search_miss(vs.last(), cid, search_id, act, e0 + front.eds);
        }
        assert(front.ops + Seq::<OpV>::empty() =~= front.ops);
    }
}

proof fn lemma_search_hit_list(
    vs: Seq<ValueV>,
    this_id: u64,
    search_id: u64,
    act: Option<ActV>,
    e0: int,
)
    requires
        count_list(vs, this_id, search_id) == 1,
    ensures
        found_list(vs, this_id, search_id) is Some,
        dfs_list_spec(vs, this_id, search_id, act, e0).ops == inspect_spec(
            found_list(vs, this_id, search_id)->Some_0,
            act,
            e0,
        ).ops,
        dfs_list_spec(vs, this_id, search_id, act, e0).eds == inspect_spec(
            found_list(vs, this_id, search_id)->Some_0,
            act,
            e0,
        ).eds,
    decreases vs, 2int,
{
    let cid = spec_child_id(this_id, (vs.len() - 1) as u64);
    let cf = count_list(vs.drop_last(), this_id, search_id);
    if cf == 0 {
        lemma_search_miss_list(vs.drop_last(), this_id, search_id, act, e0);
        lemma_search_hit(vs.last(), cid, search_id, act, e0);
        lemma_found_of_count_zero_list(vs.drop_last(), this_id, search_id);
        let r = dfs_spec(vs.last(), cid, search_id, act, e0);
        assert(Seq::<OpV>::empty() + r.ops =~= r.ops);
    } else {
        lemma_search_hit_list(vs.drop_last(), this_id, search_id, act, e0);
        lemma_found_of_count_pos_list(vs.drop_last(), this_id, search_id);
        let front = dfs_list_spec(vs.drop_last(), this_id, search_id, act, e0);
        if is_tree(vs.last()) {
            lemma_search_miss(vs.last(), cid, search_id, act, e0 + front.eds);
        }
        assert(front.ops + Seq::<OpV>::empty() =~= front.ops);
    }
}

/// No match, nothing found.
proof fn lemma_found_of_count_zero(v: ValueV, this_id: u64, search_id: u64)
    requires
        search_count(v, this_id, search_id) == 0,
    ensures
        found_node(v, this_id, search_id) is None,
    decreases v, 1int,
{
    match v {
        ValueV::StructVal(st, fields) => {
            lemma_found_of_count_zero_fields(fields, st.fields, this_id, search_id);
        },
        ValueV::List(t, items) => {
            lemma_found_of_count_zero_list(items, this_id, search_id);
        },
        _ => {},
    }
}

proof fn lemma_found_of_count_zero_fields(
    vs: Seq<ValueV>,
    fs: Seq<FieldDeclV>,
    this_id: u64,
    search_id: u64,
)
    requires
        count_fields(vs, fs, this_id, search_id) == 0,
    ensures
        found_fields(vs, fs, this_id, search_id) is None,
    decreases vs, 2int,
{
    if vs.len() == 0 || vs.len() != fs.len() {
    } else {
        lemma_found_of_count_zero_fields(vs.drop_last(), fs.drop_last(), this_id, search_id);
        if !(fs.last().ignored || !is_tree(vs.last())) {
            lemma_found_of_count_zero(
                vs.last(),
                spec_child_id(this_id, (vs.len() - 1) as u64),
                search_id,
            );
        }
    }
}

proof fn lemma_found_of_count_zero_list(vs: Seq<ValueV>, this_id: u64, search_id: u64)
    requires
        count_list(vs, this_id, search_id) == 0,
    ensures
        found_list(vs, this_id, search_id) is None,
    decreases vs, 2int,
{
    if vs.len() == 0 {
    } else {
        lemma_found_of_count_zero_list(vs.drop_last(), this_id, search_id);
        if is_tree(vs.last()) {
            lemma_found_of_count_zero(
                vs.last(),
                spec_child_id(this_id, (vs.len() - 1) as u64),
                search_id,
            );
        }
    }
}

/// A positive count in the front means the first match sits in the front.
proof fn lemma_found_of_count_pos_fields(
    vs: Seq<ValueV>,
    fs: Seq<FieldDeclV>,
    this_id: u64,
    search_id: u64,
)
    requires
        count_fields(vs, fs, this_id, search_id) > 0,
    ensures
        found_fields(vs, fs, this_id, search_id) is Some,
    decreases vs, 2int,
{
    if vs.len() == 0 || vs.len() != fs.len() {
    } else {
        let cf = count_fields(vs.drop_last(), fs.drop_last(), this_id, search_id);
        if cf > 0 {
            lemma_found_of_count_pos_fields(vs.drop_last(), fs.drop_last(), this_id, search_id);
        } else {
            lemma_found_of_count_zero_fields(vs.drop_last(), fs.drop_last(), this_id, search_id);
            lemma_found_of_count_pos(
                vs.last(),
                spec_child_id(this_id, (vs.len() - 1) as u64),
                search_id,
            );
        }
    }
}

proof fn lemma_found_of_count_pos_list(vs: Seq<ValueV>, this_id: u64, search_id: u64)
    requires
        count_list(vs, this_id, search_id) > 0,
    ensures
        found_list(vs, this_id, search_id) is Some,
    decreases vs, 2int,
{
    if vs.len() == 0 {
    } else {
        let cf = count_list(vs.drop_last(), this_id, search_id);
        if cf > 0 {
            lemma_found_of_count_pos_list(vs.drop_last(), this_id, search_id);
        } else {
            lemma_found_of_count_zero_list(vs.drop_last(), this_id, search_id);
            lemma_found_of_count_pos(
                vs.last(),
                spec_child_id(this_id, (vs.len() - 1) as u64),
                search_id,
            );
        }
    }
}

proof fn lemma_found_of_count_pos(v: ValueV, this_id: u64, search_id: u64)
    requires
        search_count(v, this_id, search_id) > 0,
    ensures
        found_node(v, this_id, search_id) is Some,
    decreases v, 1int,
{
    if this_id == search_id {
    } else {
        match v {
            ValueV::StructVal(st, fields) => {
                lemma_found_of_count_pos_fields(fields, st.fields, this_id, search_id);
            },
            ValueV::List(t, items) => {
                lemma_found_of_count_pos_list(items, this_id, search_id);
            },
            _ => {},
        }
    }
}


/// The search produces one output value per input value.
pub proof fn lemma_dfs_fields_len(
    vs: Seq<ValueV>,
    fs: Seq<FieldDeclV>,
    this_id: u64,
    search_id: u64,
    act: Option<ActV>,
    e0: int,
)
    ensures
        dfs_fields_spec(vs, fs, this_id, search_id, act, e0).outs.len() == vs.len(),
    decreases vs,
{
    if vs.len() == 0 || vs.len() != fs.len() {
    } else {
        lemma_dfs_fields_len(vs.drop_last(), fs.drop_last(), this_id, search_id, act, e0);
    }
}

/// Ignored field exclusion, part four: the depth-first search never looks
/// at an ignored field.  Replacing its value by anything at all leaves
/// the search's widgets and editor ordinals unchanged, and the field's
/// slot comes back holding exactly the replacement.
pub proof fn lemma_ignored_field_not_searched(
    vs: Seq<ValueV>,
    fs: Seq<FieldDeclV>,
    this_id: u64,
    search_id: u64,
    act: Option<ActV>,
    e0: int,
    i: int,
    x: ValueV,
)
    requires
        vs.len() == fs.len(),
        0 <= i < vs.len(),
        fs[i].ignored,
    ensures
        dfs_fields_spec(vs.update(i, x), fs, this_id, search_id, act, e0).ops
            == dfs_fields_spec(vs, fs, this_id, search_id, act, e0).ops,
        dfs_fields_spec(vs.update(i, x), fs, this_id, search_id, act, e0).eds
            == dfs_fields_spec(vs, fs, this_id, search_id, act, e0).eds,
        dfs_fields_spec(vs.update(i, x), fs, this_id, search_id, act, e0).outs
            == dfs_fields_spec(vs, fs, this_id, search_id, act, e0).outs.update(i, x),
    decreases vs.len(),
{
    if i + 1 == vs.len() {
        assert(fs.last() == fs[i]);
        assert(vs.update(i, x).drop_last() =~= vs.drop_last());
        assert(vs.update(i, x).last() == x);
        let r = dfs_fields_spec(vs, fs, this_id, search_id, act, e0);
        let r2 = dfs_fields_spec(vs.update(i, x), fs, this_id, search_id, act, e0);
        lemma_dfs_fields_len(vs.drop_last(), fs.drop_last(), this_id, search_id, act, e0);
        assert(r2.outs =~= r.outs.update(i, x));
    } else {
        assert(vs.update(i, x).drop_last() =~= vs.drop_last().update(i, x));
        assert(vs.update(i, x).last() == vs.last());
        assert(vs.drop_last()[i] == vs[i]);
        assert(fs.drop_last()[i] == fs[i]);
        lemma_ignored_field_not_searched(
            vs.drop_last(),
            fs.drop_last(),
            this_id,
            search_id,
            act,
            e0,
            i,
            x,
        );
        let front = dfs_fields_spec(
            vs.drop_last(),
            fs.drop_last(),
            this_id,
            search_id,
            act,
            e0,
        );
        let front2 = dfs_fields_spec(
            vs.drop_last().update(i, x),
            fs.drop_last(),
            this_id,
            search_id,
            act,
            e0,
        );
        let r = dfs_fields_spec(vs, fs, this_id, search_id, act, e0);
        let r2 = dfs_fields_spec(vs.update(i, x), fs, this_id, search_id, act, e0);
        lemma_dfs_fields_len(vs.drop_last(), fs.drop_last(), this_id, search_id, act, e0);
        lemma_dfs_fields_len(vs.drop_last().update(i, x), fs.drop_last(), this_id, search_id, act, e0);
        assert(r2.outs =~= r.outs.update(i, x));
    }
}

} // verus!
