//! The navigable tree: the `TreeNode` capability.
//!
//! Values that offer the tree capability (structs and sequences) appear as
//! rows of a navigation tree, each with a deterministic 64-bit identity
//! derived from the parent identity and the child's declared ordinal.  The
//! tree is rebuilt from scratch every frame; the identity scheme keeps the
//! selection stable across frames.  Fields whose value lacks the tree
//! capability, and fields marked as ignored, contribute no row.
//!
//! `inspect_child_value` is the dispatch entry point: a depth-first walk
//! that renders the editor of the node whose identity matches the searched
//! identity.

use crate::id::{child_id, spec_child_id};
use crate::inspectable::{
    all_wf, inspect_spec, inspect_value, lemma_inspect_ty, ui_advanced, FieldsOut, RenderOut,
};
use crate::shape::TyV;
use crate::shape::{copy_name, decls_view, fields_wf, lemma_decls_view_len, ty_wf, FieldDecl, FieldDeclV};
use crate::ui::{
    act_view, is_row_click, ops_view, ActV, DisplayName, NameV, OpV, Ui, WidgetOp,
};
use crate::value::{
    has_list, has_ty, has_vals, is_tree, lemma_has_ty_wf, lemma_has_vals_index,
    lemma_vals_view_len, vals_view, value_wf, Value, ValueV,
};
use vstd::prelude::*;

verus! {

broadcast use crate::ui::lemma_ops_view_push, crate::value::lemma_vals_view_push;

/// What one frame's tree rendering produces: the widgets drawn and the
/// selection after any row click.
pub struct TreeOut {
    pub ops: Seq<OpV>,
    pub sel: Option<u64>,
}

/// The semantics of `node_ui`: a value that offers the tree capability
/// draws its collapsible row and its children; any other value draws
/// nothing (the no-op dispatch case of the generated code).
///
/// The row's highlight reflects the selection as of this row's drawing;
/// clicking the row replaces the selection with this row's identity.
pub open spec fn node_spec(
    v: ValueV,
    name: NameV,
    id: u64,
    sel: Option<u64>,
    act: Option<ActV>,
) -> TreeOut
    decreases v, 1int,
{
    if !is_tree(v) {
        TreeOut { ops: Seq::empty(), sel }
    } else {
        let selected = sel == Some(id);
        let sel1 = if is_row_click(act, id) {
            Some(id)
        } else {
            sel
        };
        let inner = contents_spec(v, id, sel1, act);
        TreeOut {
            ops: seq![OpV::NodeStart { id, name, selected }] + inner.ops + seq![OpV::NodeEnd],
            sel: inner.sel,
        }
    }
}

/// The semantics of `contents_ui`: one row per child, in declaration
/// order, each with an identity derived from this node's identity and the
/// child's ordinal.
pub open spec fn contents_spec(v: ValueV, id: u64, sel: Option<u64>, act: Option<ActV>) -> TreeOut
    decreases v, 0int,
{
    match v {
        ValueV::StructVal(st, fields) => rows_fields_spec(fields, st.fields, id, sel, act),
        ValueV::List(t, items) => rows_list_spec(items, id, sel, act),
        _ => TreeOut { ops: Seq::empty(), sel },
    }
}

/// The tree rows of a struct's fields: the ordinal of every field (ignored
/// ones included) feeds the identity derivation, but ignored fields draw
/// no row.
pub open spec fn rows_fields_spec(
    vs: Seq<ValueV>,
    fs: Seq<FieldDeclV>,
    id: u64,
    sel: Option<u64>,
    act: Option<ActV>,
) -> TreeOut
    decreases vs, 2int,
{
    if vs.len() == 0 || vs.len() != fs.len() {
        TreeOut { ops: Seq::empty(), sel }
    } else {
        let front = rows_fields_spec(vs.drop_last(), fs.drop_last(), id, sel, act);
        if fs.last().ignored {
            front
        } else {
            let r = node_spec(
                vs.last(),
                fs.last().name,
                spec_child_id(id, (vs.len() - 1) as u64),
                front.sel,
                act,
            );
            TreeOut { ops: front.ops + r.ops, sel: r.sel }
        }
    }
}

/// The tree rows of a sequence's elements, named by position.
pub open spec fn rows_list_spec(
    vs: Seq<ValueV>,
    id: u64,
    sel: Option<u64>,
    act: Option<ActV>,
) -> TreeOut
    decreases vs, 2int,
{
    if vs.len() == 0 {
        TreeOut { ops: Seq::empty(), sel }
    } else {
        let front = rows_list_spec(vs.drop_last(), id, sel, act);
        let r = node_spec(
            vs.last(),
            NameV::Index((vs.len() - 1) as u64),
            spec_child_id(id, (vs.len() - 1) as u64),
            front.sel,
            act,
        );
        TreeOut { ops: front.ops + r.ops, sel: r.sel }
    }
}

/// The semantics of `inspect_child`: depth-first search for the node with
/// the searched identity; on a match, that node's editor is rendered (and
/// the frame's action may edit it), otherwise the walk descends into the
/// tree-capable, non-ignored children.
pub open spec fn dfs_spec(
    v: ValueV,
    this_id: u64,
    search_id: u64,
    act: Option<ActV>,
    e0: int,
) -> RenderOut
    decreases v, 1int,
{
    if this_id == search_id {
        inspect_spec(v, act, e0)
    } else {
        match v {
            ValueV::StructVal(st, fields) => {
                let r = dfs_fields_spec(fields, st.fields, this_id, search_id, act, e0);
                RenderOut { ops: r.ops, eds: r.eds, out: ValueV::StructVal(st, r.outs) }
            },
            ValueV::List(t, items) => {
                let r = dfs_list_spec(items, this_id, search_id, act, e0);
                RenderOut { ops: r.ops, eds: r.eds, out: ValueV::List(t, r.outs) }
            },
            _ => RenderOut { ops: Seq::empty(), eds: 0, out: v },
        }
    }
}

/// Depth-first search through a struct's fields, in declaration order.
pub open spec fn dfs_fields_spec(
    vs: Seq<ValueV>,
    fs: Seq<FieldDeclV>,
    this_id: u64,
    search_id: u64,
    act: Option<ActV>,
    e0: int,
) -> FieldsOut
    decreases vs, 2int,
{
    if vs.len() == 0 || vs.len() != fs.len() {
        FieldsOut { ops: Seq::empty(), eds: 0, outs: vs }
    } else {
        let front = dfs_fields_spec(vs.drop_last(), fs.drop_last(), this_id, search_id, act, e0);
        if fs.last().ignored || !is_tree(vs.last()) {
            FieldsOut {
                ops: front.ops,
                eds: front.eds,
                outs: front.outs.push(vs.last()),
            }
        } else {
            let r = dfs_spec(
                vs.last(),
                spec_child_id(this_id, (vs.len() - 1) as u64),
                search_id,
                act,
                e0 + front.eds,
            );
            FieldsOut {
                ops: front.ops + r.ops,
                eds: front.eds + r.eds,
                outs: front.outs.push(r.out),
            }
        }
    }
}

/// Depth-first search through a sequence's elements.
pub open spec fn dfs_list_spec(
    vs: Seq<ValueV>,
    this_id: u64,
    search_id: u64,
    act: Option<ActV>,
    e0: int,
) -> FieldsOut
    decreases vs, 2int,
{
    if vs.len() == 0 {
        FieldsOut { ops: Seq::empty(), eds: 0, outs: vs }
    } else {
        let front = dfs_list_spec(vs.drop_last(), this_id, search_id, act, e0);
        if !is_tree(vs.last()) {
            FieldsOut {
                ops: front.ops,
                eds: front.eds,
                outs: front.outs.push(vs.last()),
            }
        } else {
            let r = dfs_spec(
                vs.last(),
                spec_child_id(this_id, (vs.len() - 1) as u64),
                search_id,
                act,
                e0 + front.eds,
            );
            FieldsOut {
                ops: front.ops + r.ops,
                eds: front.eds + r.eds,
                outs: front.outs.push(r.out),
            }
        }
    }
}

/// How one tree-rendering step relates the frame context before and after:
/// widgets appended, no editor ordinal consumed, action untouched.
pub open spec fn ui_tree_advanced(pre: Ui, post: Ui, ops: Seq<OpV>) -> bool {
    &&& post.wf()
    &&& ops_view(post.ops@) == ops_view(pre.ops@) + ops
    &&& post.editors == pre.editors
    &&& post.action == pre.action
}

/// Render a leaf row of the tree: a selectable label plus a disabled type
/// caption; clicking the row selects its identity.
pub fn default_node_ui(
    kind_label: String,
    name: DisplayName,
    id: u64,
    selected: &mut Option<u64>,
    ui: &mut Ui,
)
    requires
        old(ui).wf(),
    ensures
        ui_tree_advanced(*old(ui), *final(ui), seq![
            OpV::LeafRow { id, name: name@, selected: *old(selected) == Some(id) },
            OpV::StaticText(kind_label@),
        ]),
        *final(selected) == if is_row_click(act_view(old(ui).action), id) {
            Some(id)
        } else {
            *old(selected)
        },
{
    let is_sel = match selected {
        Some(s) => *s == id,
        None => false,
    };
    let ghost opv = OpV::LeafRow { id, name: name@, selected: is_sel };
    ui.put(WidgetOp::LeafRow { id, name, selected: is_sel });
    ui.put(WidgetOp::StaticText(kind_label));
    if ui.row_clicked(id) {
        *selected = Some(id);
    }
    proof {
        assert(ops_view(ui.ops@) =~= ops_view(old(ui).ops@) + seq![
            opv,
            ops_view(ui.ops@).last(),
        ]);
    }
}

/// Render the collapsible row of a tree-capable value: the header with its
/// selectable label, then the node's children as the body.
pub fn default_parent_node_ui(
    v: &Value,
    name: DisplayName,
    id: u64,
    selected: &mut Option<u64>,
    ui: &mut Ui,
)
    requires
        old(ui).wf(),
        is_tree(v@),
    ensures
        ({
            let r = node_spec(v@, name@, id, *old(selected), act_view(old(ui).action));
            &&& ui_tree_advanced(*old(ui), *final(ui), r.ops)
            &&& *final(selected) == r.sel
        }),
    decreases v@, 1int,
{
    let is_sel = match selected {
        Some(s) => *s == id,
        None => false,
    };
    let ghost opv = OpV::NodeStart { id, name: name@, selected: is_sel };
    ui.put(WidgetOp::NodeStart { id, name, selected: is_sel });
    if ui.row_clicked(id) {
        *selected = Some(id);
    }
    proof {
        assert(decreases_to!(v@, 1int => v@, 0int));
    }
    contents_value(v, id, selected, ui);
    ui.put(WidgetOp::NodeEnd);
    proof {
        let sel1 = if is_row_click(act_view(old(ui).action), id) {
            Some(id)
        } else {
            *old(selected)
        };
        let inner = contents_spec(v@, id, sel1, act_view(old(ui).action));
        assert(ops_view(ui.ops@) =~= ops_view(old(ui).ops@) + (seq![opv] + inner.ops + seq![
            OpV::NodeEnd,
        ]));
    }
}

/// Render this value's row of the tree, dispatching on the tree
/// capability: a value without it draws nothing.
pub fn node_value(v: &Value, name: DisplayName, id: u64, selected: &mut Option<u64>, ui: &mut Ui)
    requires
        old(ui).wf(),
    ensures
        ({
            let r = node_spec(v@, name@, id, *old(selected), act_view(old(ui).action));
            &&& ui_tree_advanced(*old(ui), *final(ui), r.ops)
            &&& *final(selected) == r.sel
        }),
    decreases v@, 2int,
{
    let has_rows = match v {
        Value::StructVal(_, _) => true,
        Value::List(_, _) => true,
        _ => false,
    };
    if has_rows {
        default_parent_node_ui(v, name, id, selected, ui);
    }
}

/// Render this node's children, each under an identity derived from this
/// node's identity and the child's declared ordinal.
#[verifier::rlimit(100)]
#[verifier::spinoff_prover]
pub fn contents_value(v: &Value, id: u64, selected: &mut Option<u64>, ui: &mut Ui)
    requires
        old(ui).wf(),
    ensures
        ({
            let r = contents_spec(v@, id, *old(selected), act_view(old(ui).action));
            &&& ui_tree_advanced(*old(ui), *final(ui), r.ops)
            &&& *final(selected) == r.sel
        }),
    decreases v@, 0int,
{
    let ghost v0 = v@;
    let ghost act = act_view(old(ui).action);
    match v {
        Value::StructVal(st, fields) => {
            proof {
                lemma_vals_view_len(fields@);
                lemma_decls_view_len(st.fields@);
            }
            let n = fields.len();
            if n != st.fields.len() {
                proof {
                    assert(ops_view(ui.ops@) =~= ops_view(ui.ops@) + Seq::<OpV>::empty());
                }
                return ;
            }
            let ghost vs = vals_view(fields@);
            let ghost fs = decls_view(st.fields@);
            for i in 0..n
                invariant
                    n == fields.len(),
                    n == st.fields.len(),
                    v0 == v@,
                    v0 == ValueV::StructVal(st@, vs),
                    vs == vals_view(fields@),
                    fs == decls_view(st.fields@),
                    vs.len() == n,
                    fs.len() == n,
                    act == act_view(old(ui).action),
                    forall|j: int| 0 <= j < n ==> #[trigger] vs[j] == fields@[j]@,
                    forall|j: int| 0 <= j < n ==> #[trigger] fs[j] == st.fields@[j]@,
                    ui.wf(),
                    ui.action == old(ui).action,
                    ui.editors == old(ui).editors,
                    ({
                        let p = rows_fields_spec(
                            vs.take(i as int),
                            fs.take(i as int),
                            id,
                            *old(selected),
                            act,
                        );
                        &&& ops_view(ui.ops@) == ops_view(old(ui).ops@) + p.ops
                        &&& *selected == p.sel
                    }),
                decreases n - i,
            {
                proof {
                    assert(vs.take((i + 1) as int).drop_last() =~= vs.take(i as int));
                    assert(fs.take((i + 1) as int).drop_last() =~= fs.take(i as int));
                    assert(vs.take((i + 1) as int).last() == vs[i as int]);
                    assert(fs.take((i + 1) as int).last() == fs[i as int]);
                    assert(decreases_to!(v0 => v0->StructVal_1));
                    assert(v0->StructVal_1 == vs);
                    assert(decreases_to!(vs => vs[i as int]));
                    assert(decreases_to!(v0 => vs[i as int]));
                }
                if !st.fields[i].ignored {
                    let name = copy_name(&st.fields[i].name);
                    let cid = crate::id::child_id(id, i as u64);
                    node_value(&fields[i], name, cid, selected, ui);
                }
            }
            proof {
                assert(vs.take(n as int) =~= vs);
                assert(fs.take(n as int) =~= fs);
            }
        },
        Value::List(t, items) => {
            proof {
                lemma_vals_view_len(items@);
            }
            let n = items.len();
            let ghost vs = vals_view(items@);
            for i in 0..n
                invariant
                    n == items.len(),
                    v0 == v@,
                    v0 == ValueV::List(t@, vs),
                    vs == vals_view(items@),
                    vs.len() == n,
                    act == act_view(old(ui).action),
                    forall|j: int| 0 <= j < n ==> #[trigger] vs[j] == items@[j]@,
                    ui.wf(),
                    ui.action == old(ui).action,
                    ui.editors == old(ui).editors,
                    ({
                        let p = rows_list_spec(vs.take(i as int), id, *old(selected), act);
                        &&& ops_view(ui.ops@) == ops_view(old(ui).ops@) + p.ops
                        &&& *selected == p.sel
                    }),
                decreases n - i,
            {
                proof {
                    assert(vs.take((i + 1) as int).drop_last() =~= vs.take(i as int));
                    assert(vs.take((i + 1) as int).last() == vs[i as int]);
                    assert(decreases_to!(v0 => v0->List_1));
                    assert(v0->List_1 == vs);
                    assert(decreases_to!(vs => vs[i as int]));
                    assert(decreases_to!(v0 => vs[i as int]));
                }
                let cid = crate::id::child_id(id, i as u64);
                node_value(&items[i], DisplayName::Index(i as u64), cid, selected, ui);
            }
            proof {
                assert(vs.take(n as int) =~= vs);
            }
        },
        _ => {
            proof {
                assert(ops_view(ui.ops@) =~= ops_view(ui.ops@) + Seq::<OpV>::empty());
            }
        },
    }
}

/// Depth-first dispatch: search this node and its children for the given
/// identity and render the editor of the match.
#[verifier::rlimit(100)]
#[verifier::spinoff_prover]
pub fn inspect_child_value(v: Value, this_id: u64, search_id: u64, ui: &mut Ui) -> (out: Value)
    requires
        value_wf(v@),
        old(ui).wf(),
    ensures
        ({
            let r = dfs_spec(v@, this_id, search_id, act_view(old(ui).action), old(
                ui,
            ).editors as int);
            &&& ui_advanced(*old(ui), *final(ui), r.ops, r.eds)
            &&& out@ == r.out
        }),
    decreases v@, 1int,
{
    let ghost v0 = v@;
    if this_id == search_id {
        proof {
            assert(decreases_to!(v0, 1int => v0, 0int));
        }
        inspect_value(v, ui)
    } else {
        match v {
            Value::StructVal(st, fields) => {
                proof {
                    let vs = vals_view(fields@);
                    assert(v0->StructVal_1 == vs);
                    assert(decreases_to!(v0 => v0->StructVal_1));
                    assert(decreases_to!(v0, 1int => vs, 2int));
                    lemma_vals_view_len(fields@);
                    lemma_decls_view_len(st.fields@);
                    assert forall|i: int| 0 <= i < vs.len() implies value_wf(#[trigger] vs[i]) by {
                        lemma_has_vals_index(vs, st@.fields, i);
                        crate::shape::lemma_fields_wf_index(st@.fields, i);
                        lemma_has_ty_wf(vs[i], st@.fields[i].ty);
                    }
                    assert(vs.len() == st@.fields.len());
                }
                let outs = dfs_fields(fields, &st.fields, this_id, search_id, ui);
                proof {
                    assert(decls_view(st.fields@).take(vals_view(fields@).len() as int)
                        =~= st@.fields);
                }
                Value::StructVal(st, outs)
            },
            Value::List(t, items) => {
                proof {
                    let vs = vals_view(items@);
                    assert(v0->List_1 == vs);
                    assert(decreases_to!(v0 => v0->List_1));
                    assert(decreases_to!(v0, 1int => vs, 2int));
                    lemma_vals_view_len(items@);
                    assert forall|i: int| 0 <= i < vs.len() implies value_wf(#[trigger] vs[i]) by {
                        crate::value::lemma_has_list_index(vs, v0->List_0, i);
                        lemma_has_ty_wf(vs[i], v0->List_0);
                    }
                }
                let outs = dfs_list(items, this_id, search_id, ui);
                Value::List(t, outs)
            },
            other => {
                proof {
                    assert(ops_view(ui.ops@) =~= ops_view(ui.ops@) + Seq::<OpV>::empty());
                }
                other
            },
        }
    }
}

/// Depth-first search through the fields of a struct, in declaration
/// order: ignored fields and fields without the tree capability are not
/// searched.
#[verifier::rlimit(100)]
#[verifier::spinoff_prover]
fn dfs_fields(
    items: Vec<Value>,
    decls: &Vec<FieldDecl>,
    this_id: u64,
    search_id: u64,
    ui: &mut Ui,
) -> (outs: Vec<Value>)
    requires
        items@.len() <= decls@.len(),
        all_wf(vals_view(items@)),
        old(ui).wf(),
    ensures
        ({
            let r = dfs_fields_spec(
                vals_view(items@),
                decls_view(decls@).take(items@.len() as int),
                this_id,
                search_id,
                act_view(old(ui).action),
                old(ui).editors as int,
            );
            &&& ui_advanced(*old(ui), *final(ui), r.ops, r.eds)
            &&& vals_view(outs@) == r.outs
        }),
    decreases vals_view(items@), 2int,
{
    let ghost vs0 = vals_view(items@);
    let ghost act = act_view(old(ui).action);
    let ghost e0 = old(ui).editors as int;
    let ghost fs = decls_view(decls@).take(items@.len() as int);
    proof {
        lemma_decls_view_len(decls@);
        lemma_vals_view_len(items@);
    }
    let mut items = items;
    let n = items.len();
    if n == 0 {
        proof {
            assert(ops_view(ui.ops@) =~= ops_view(ui.ops@) + Seq::<OpV>::empty());
        }
        return items;
    }
    let last = match items.pop() {
        Some(x) => x,
        None => vstd::pervasive::unreached(),
    };
    proof {
        assert(vals_view(items@) =~= vs0.drop_last());
        assert(last@ == vs0.last());
        assert(decreases_to!(vs0 => vs0.subrange(0, vs0.len() - 1)));
        assert(vs0.drop_last() == vs0.subrange(0, vs0.len() - 1));
        assert forall|i: int| 0 <= i < vals_view(items@).len() implies value_wf(
            #[trigger] vals_view(items@)[i],
        ) by {
            assert(vals_view(items@)[i] == vs0[i]);
        }
    }
    let front = dfs_fields(items, decls, this_id, search_id, ui);
    let mut outs = front;
    let decl_ignored = decls[n - 1].ignored;
    let last_is_tree = match &last {
        Value::StructVal(_, _) => true,
        Value::List(_, _) => true,
        _ => false,
    };
    proof {
        assert(fs.last() == decls_view(decls@)[n - 1]);
        assert(decls_view(decls@)[n - 1] == decls@[n - 1]@);
        assert(fs.drop_last() =~= decls_view(decls@).take((n - 1) as int));
    }
    if decl_ignored || !last_is_tree {
        outs.push(last);
    } else {
        proof {
            assert(decreases_to!(vs0, 2int => vs0.last(), 1int)) by {
                assert(decreases_to!(vs0 => vs0[vs0.len() - 1]));
            }
            assert(value_wf(last@)) by {
                assert(vs0[vs0.len() - 1] == vs0.last());
            }
        }
        let cid = child_id(this_id, (n - 1) as u64);
        let y = inspect_child_value(last, cid, search_id, ui);
        outs.push(y);
    }
    proof {
        let r = dfs_fields_spec(vs0, fs, this_id, search_id, act, e0);
        assert(vs0.len() == n && fs.len() == n);
        assert(vals_view(outs@) == r.outs) by {
            assert(vals_view(outs@) =~= r.outs);
        }
        assert(ops_view(ui.ops@) == ops_view(old(ui).ops@) + r.ops) by {
            assert(ops_view(ui.ops@) =~= ops_view(old(ui).ops@) + r.ops);
        }
    }
    outs
}

/// Depth-first search through the elements of a sequence.
#[verifier::rlimit(100)]
#[verifier::spinoff_prover]
fn dfs_list(items: Vec<Value>, this_id: u64, search_id: u64, ui: &mut Ui) -> (outs: Vec<Value>)
    requires
        all_wf(vals_view(items@)),
        old(ui).wf(),
    ensures
        ({
            let r = dfs_list_spec(
                vals_view(items@),
                this_id,
                search_id,
                act_view(old(ui).action),
                old(ui).editors as int,
            );
            &&& ui_advanced(*old(ui), *final(ui), r.ops, r.eds)
            &&& vals_view(outs@) == r.outs
        }),
    decreases vals_view(items@), 2int,
{
    let ghost vs0 = vals_view(items@);
    let ghost act = act_view(old(ui).action);
    let ghost e0 = old(ui).editors as int;
    proof {
        lemma_vals_view_len(items@);
    }
    let mut items = items;
    let n = items.len();
    if n == 0 {
        proof {
            assert(ops_view(ui.ops@) =~= ops_view(ui.ops@) + Seq::<OpV>::empty());
        }
        return items;
    }
    let last = match items.pop() {
        Some(x) => x,
        None => vstd::pervasive::unreached(),
    };
    proof {
        assert(vals_view(items@) =~= vs0.drop_last());
        assert(last@ == vs0.last());
        assert(decreases_to!(vs0 => vs0.subrange(0, vs0.len() - 1)));
        assert(vs0.drop_last() == vs0.subrange(0, vs0.len() - 1));
        assert forall|i: int| 0 <= i < vals_view(items@).len() implies value_wf(
            #[trigger] vals_view(items@)[i],
        ) by {
            assert(vals_view(items@)[i] == vs0[i]);
        }
    }
    let front = dfs_list(items, this_id, search_id, ui);
    let mut outs = front;
    let last_is_tree = match &last {
        Value::StructVal(_, _) => true,
        Value::List(_, _) => true,
        _ => false,
    };
    if !last_is_tree {
        outs.push(last);
    } else {
        proof {
            assert(decreases_to!(vs0, 2int => vs0.last(), 1int)) by {
                assert(decreases_to!(vs0 => vs0[vs0.len() - 1]));
            }
            assert(value_wf(last@)) by {
                assert(vs0[vs0.len() - 1] == vs0.last());
            }
        }
        let cid = child_id(this_id, (n - 1) as u64);
        let y = inspect_child_value(last, cid, search_id, ui);
        outs.push(y);
    }
    proof {
        let r = dfs_list_spec(vs0, this_id, search_id, act, e0);
        assert(vals_view(outs@) == r.outs) by {
            assert(vals_view(outs@) =~= r.outs);
        }
        assert(ops_view(ui.ops@) == ops_view(old(ui).ops@) + r.ops) by {
            assert(ops_view(ui.ops@) =~= ops_view(old(ui).ops@) + r.ops);
        }
    }
    outs
}


/// Search preserves typing: the value a dispatch frame returns has the
/// type it was given.
pub proof fn lemma_dfs_ty(v: ValueV, t: TyV, this_id: u64, search_id: u64, act: Option<ActV>, e0: int)
    requires
        has_ty(v, t),
        ty_wf(t),
    ensures
        has_ty(dfs_spec(v, this_id, search_id, act, e0).out, t),
    decreases v, 1int,
{
    if this_id == search_id {
        lemma_inspect_ty(v, t, act, e0);
    } else {
        match v {
            ValueV::StructVal(st, fields) => {
                lemma_dfs_fields_ty(fields, st.fields, this_id, search_id, act, e0);
            },
            ValueV::List(et, items) => {
                lemma_dfs_list_ty(items, et, this_id, search_id, act, e0);
            },
            _ => {},
        }
    }
}

proof fn lemma_dfs_fields_ty(
    vs: Seq<ValueV>,
    fs: Seq<FieldDeclV>,
    this_id: u64,
    search_id: u64,
    act: Option<ActV>,
    e0: int,
)
    requires
        has_vals(vs, fs),
        fields_wf(fs),
    ensures
        has_vals(dfs_fields_spec(vs, fs, this_id, search_id, act, e0).outs, fs),
    decreases vs, 2int,
{
    if vs.len() == 0 || vs.len() != fs.len() {
    } else {
        let front = dfs_fields_spec(vs.drop_last(), fs.drop_last(), this_id, search_id, act, e0);
        lemma_dfs_fields_ty(vs.drop_last(), fs.drop_last(), this_id, search_id, act, e0);
        let whole = dfs_fields_spec(vs, fs, this_id, search_id, act, e0);
        if fs.last().ignored || !is_tree(vs.last()) {
            assert(whole.outs.drop_last() =~= front.outs);
            assert(whole.outs.last() == vs.last());
        } else {
            let cid = spec_child_id(this_id, (vs.len() - 1) as u64);
            crate::shape::lemma_fields_wf_index(fs, fs.len() - 1);
            lemma_dfs_ty(vs.last(), fs.last().ty, cid, search_id, act, e0 + front.eds);
            assert(whole.outs.drop_last() =~= front.outs);
            assert(whole.outs.last() == dfs_spec(
                vs.last(),
                cid,
                search_id,
                act,
                e0 + front.eds,
            ).out);
        }
    }
}

proof fn lemma_dfs_list_ty(
    vs: Seq<ValueV>,
    et: TyV,
    this_id: u64,
    search_id: u64,
    act: Option<ActV>,
    e0: int,
)
    requires
        has_list(vs, et),
        ty_wf(et),
    ensures
        has_list(dfs_list_spec(vs, this_id, search_id, act, e0).outs, et),
    decreases vs, 2int,
{
    if vs.len() == 0 {
    } else {
        let front = dfs_list_spec(vs.drop_last(), this_id, search_id, act, e0);
        lemma_dfs_list_ty(vs.drop_last(), et, this_id, search_id, act, e0);
        let whole = dfs_list_spec(vs, this_id, search_id, act, e0);
        if !is_tree(vs.last()) {
            assert(whole.outs.drop_last() =~= front.outs);
            assert(whole.outs.last() == vs.last());
        } else {
            let cid = spec_child_id(this_id, (vs.len() - 1) as u64);
            lemma_dfs_ty(vs.last(), et, cid, search_id, act, e0 + front.eds);
            assert(whole.outs.drop_last() =~= front.outs);
            assert(whole.outs.last() == dfs_spec(
                vs.last(),
                cid,
                search_id,
                act,
                e0 + front.eds,
            ).out);
        }
    }
}

/// Search preserves well-formedness.
pub proof fn lemma_dfs_preserves_wf(
    v: ValueV,
    this_id: u64,
    search_id: u64,
    act: Option<ActV>,
    e0: int,
)
    requires
        value_wf(v),
    ensures
        value_wf(dfs_spec(v, this_id, search_id, act, e0).out),
{
    if this_id == search_id {
        crate::inspectable::lemma_inspect_preserves_wf(v, act, e0);
    } else {
        match v {
            ValueV::StructVal(st, fields) => {
                lemma_dfs_fields_ty(fields, st.fields, this_id, search_id, act, e0);
            },
            ValueV::List(et, items) => {
                lemma_dfs_list_ty(items, et, this_id, search_id, act, e0);
            },
            _ => {},
        }
    }
}

/// The tree capability: a value that appears as an addressable row of the
/// navigable tree, with children.  It presupposes the inspection
/// capability; the methods are bound to the tree semantics over the same
/// object-graph node.
pub trait TreeNode: crate::inspectable::Inspectable {
    /// Depth-first search: render the editor of the node with the
    /// searched identity, if it is in this subtree.
    fn inspect_child(&mut self, this_id: u64, search_id: u64, ui: &mut Ui)
        requires
            old(self).inv(),
            old(ui).wf(),
        ensures
            final(self).inv(),
            ({
                let r = dfs_spec(
                    old(self).as_value(),
                    this_id,
                    search_id,
                    act_view(old(ui).action),
                    old(ui).editors as int,
                );
                &&& ui_advanced(*old(ui), *final(ui), r.ops, r.eds)
                &&& final(self).as_value() == r.out
            }),
    ;

    /// Render this node's row of the tree.
    fn node_ui(&mut self, name: DisplayName, id: u64, selected: &mut Option<u64>, ui: &mut Ui)
        requires
            old(self).inv(),
            old(ui).wf(),
        ensures
            final(self).inv(),
            *final(self) == *old(self),
            ({
                let r = node_spec(
                    old(self).as_value(),
                    name@,
                    id,
                    *old(selected),
                    act_view(old(ui).action),
                );
                &&& ui_tree_advanced(*old(ui), *final(ui), r.ops)
                &&& *final(selected) == r.sel
            }),
    ;

    /// Render this node's children as rows.
    fn contents_ui(&mut self, id: u64, selected: &mut Option<u64>, ui: &mut Ui)
        requires
            old(self).inv(),
            old(ui).wf(),
        ensures
            final(self).inv(),
            *final(self) == *old(self),
            ({
                let r = contents_spec(
                    old(self).as_value(),
                    id,
                    *old(selected),
                    act_view(old(ui).action),
                );
                &&& ui_tree_advanced(*old(ui), *final(ui), r.ops)
                &&& *final(selected) == r.sel
            }),
    ;
}

impl TreeNode for Value {
    fn inspect_child(&mut self, this_id: u64, search_id: u64, ui: &mut Ui) {
        let mut taken = Value::Opaque;
        core::mem::swap(self, &mut taken);
        let mut out = inspect_child_value(taken, this_id, search_id, ui);
        core::mem::swap(self, &mut out);
        proof {
            lemma_dfs_preserves_wf(
                old(self)@,
                this_id,
                search_id,
                act_view(old(ui).action),
                old(ui).editors as int,
            );
        }
    }

    fn node_ui(&mut self, name: DisplayName, id: u64, selected: &mut Option<u64>, ui: &mut Ui) {
        node_value(&*self, name, id, selected, ui);
    }

    fn contents_ui(&mut self, id: u64, selected: &mut Option<u64>, ui: &mut Ui) {
        contents_value(&*self, id, selected, ui);
    }
}


/// Owning pointers forward to their pointee.
impl<T: TreeNode> TreeNode for Box<T> {
    fn inspect_child(&mut self, this_id: u64, search_id: u64, ui: &mut Ui) {
        (**self).inspect_child(this_id, search_id, ui);
    }

    fn node_ui(&mut self, name: DisplayName, id: u64, selected: &mut Option<u64>, ui: &mut Ui) {
        (**self).node_ui(name, id, selected, ui);
    }

    fn contents_ui(&mut self, id: u64, selected: &mut Option<u64>, ui: &mut Ui) {
        (**self).contents_ui(id, selected, ui);
    }
}

} // verus!
