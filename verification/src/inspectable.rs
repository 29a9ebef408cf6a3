//! Rendering editable widgets for values: the `Inspectable` capability.
//!
//! One frame's inspection of a value is modelled exactly: the widgets
//! drawn, the editor ordinals consumed, and the value after the frame's
//! single pending action is routed into the editor it targets.  The
//! specification functions below are the semantics; the executable
//! functions are proved to follow them.
//!
//! Dispatch over capabilities works as the generated code does: a field
//! that is inspectable renders its own editor; a field that is not renders
//! an inert placeholder; a field that is itself a tree node renders
//! nothing inline (its contents are reached through the tree instead); an
//! ignored field renders nothing at all and keeps its value.

use crate::shape::{
    copy_name, decls_view, fields_wf, lemma_decls_view_len, lemma_fields_wf_index,
    lemma_variants_view_len, lemma_variants_wf_index, ty_wf, FieldDecl, FieldDeclV,
};
use crate::ui::{
    act_view, clicked_variant, is_click, lemma_ops_view_push, ops_view, set_bool_at, set_int_at,
    set_text_at, ActV, Action, DisplayName, NameV, OpV, Ui, WidgetOp,
};
use crate::shape::TyV;
use crate::value::{
    default_fields, default_value, has_list, has_ty, has_vals, lemma_has_list_index,
    lemma_has_ty_wf, lemma_has_vals_index, lemma_spec_default_has_ty,
    lemma_spec_defaults_has_vals, lemma_vals_view_len, spec_default, spec_defaults, value_wf,
    vals_view, Value, ValueV,
};
use vstd::prelude::*;

verus! {

broadcast use crate::ui::lemma_ops_view_push, crate::value::lemma_vals_view_push;

/// What one frame's inspection of a value produces: the widgets drawn, the
/// number of editor ordinals consumed, and the value after the frame.
pub struct RenderOut {
    pub ops: Seq<OpV>,
    pub eds: int,
    pub out: ValueV,
}

/// The same for a list of values rendered in order.
pub struct FieldsOut {
    pub ops: Seq<OpV>,
    pub eds: int,
    pub outs: Seq<ValueV>,
}

/// The clamp of `x` into `lo..=hi`.
pub open spec fn clamp_i64(lo: i64, hi: i64, x: i64) -> i64 {
    if x < lo {
        lo
    } else if x > hi {
        hi
    } else {
        x
    }
}

/// Seconds obtained from an edited signed number: negative input clamps to
/// zero rather than failing.
pub open spec fn clamp_seconds(x: i64) -> u64 {
    if x < 0 {
        0
    } else {
        x as u64
    }
}

/// The semantics of `inspect_ui`: what inspecting `v` draws and returns,
/// given the frame's pending action and the number of editor ordinals
/// already consumed.
pub open spec fn inspect_spec(v: ValueV, act: Option<ActV>, e0: int) -> RenderOut
    decreases v, 0int,
{
    match v {
        ValueV::Int(n) => RenderOut {
            ops: seq![OpV::DragInt(n)],
            eds: 1,
            out: match set_int_at(act, e0) {
                Some(x) => ValueV::Int(x),
                None => v,
            },
        },
        ValueV::Bool(b) => RenderOut {
            ops: seq![OpV::Checkbox(b)],
            eds: 1,
            out: match set_bool_at(act, e0) {
                Some(x) => ValueV::Bool(x),
                None => v,
            },
        },
        ValueV::Text(s) => RenderOut {
            ops: seq![OpV::TextEdit(s)],
            eds: 1,
            out: match set_text_at(act, e0) {
                Some(x) => ValueV::Text(x),
                None => v,
            },
        },
        ValueV::Seconds(n) => RenderOut {
            ops: seq![OpV::DragSeconds(n)],
            eds: 1,
            out: match set_int_at(act, e0) {
                Some(x) => ValueV::Seconds(clamp_seconds(x)),
                None => v,
            },
        },
        ValueV::Pathname(s) => RenderOut { ops: seq![OpV::StaticText(s)], eds: 0, out: v },
        ValueV::Opaque => RenderOut { ops: seq![OpV::Placeholder], eds: 0, out: v },
        ValueV::Clamped { lo, hi, n } => RenderOut {
            ops: seq![OpV::DragInt(n)],
            eds: 1,
            out: match set_int_at(act, e0) {
                Some(x) => ValueV::Clamped { lo, hi, n: clamp_i64(lo, hi, x) },
                None => v,
            },
        },
        ValueV::ReadOnly(inner) => {
            // A disabled region: the inner editors are drawn but receive no
            // action, so a read-only value never changes.
            let r = inspect_spec(*inner, None, e0);
            RenderOut {
                ops: seq![OpV::GroupStart] + r.ops + seq![OpV::GroupEnd],
                eds: r.eds,
                out: ValueV::ReadOnly(Box::new(r.out)),
            }
        },
        ValueV::OptVal(t, inner) => match inner {
            None => RenderOut {
                ops: seq![OpV::AddButton],
                eds: 1,
                out: if is_click(act, e0) {
                    ValueV::OptVal(t, Some(Box::new(spec_default(t))))
                } else {
                    v
                },
            },
            Some(b) => {
                let r = inspect_spec(*b, act, e0);
                RenderOut {
                    ops: seq![OpV::GroupStart] + r.ops + seq![OpV::RemoveButton, OpV::GroupEnd],
                    eds: r.eds + 1,
                    out: if is_click(act, e0 + r.eds) {
                        ValueV::OptVal(t, None)
                    } else {
                        ValueV::OptVal(t, Some(Box::new(r.out)))
                    },
                }
            },
        },
        ValueV::List(t, items) => {
            let r = list_inspect_spec(items, act, e0);
            RenderOut { ops: r.ops, eds: r.eds, out: ValueV::List(t, r.outs) }
        },
        ValueV::StructVal(st, fields) => {
            let r = fields_outside_spec(fields, st.fields, act, e0);
            RenderOut {
                ops: seq![OpV::GroupStart, OpV::Label(st.name)] + r.ops + seq![OpV::GroupEnd],
                eds: r.eds,
                out: ValueV::StructVal(st, r.outs),
            }
        },
        ValueV::EnumVal(et, k, fields) => {
            let nv = et.variants.len() as int;
            let selops = Seq::new(
                et.variants.len(),
                |i: int| OpV::VariantLabel { active: i == k, name: et.variants[i].name },
            );
            let head = seq![OpV::GroupStart, OpV::Label(et.name)] + selops;
            match clicked_variant(act, e0, nv) {
                Some(j) => RenderOut {
                    // Switching the variant replaces the whole value with the
                    // chosen variant built from field defaults; its fields
                    // appear when the next frame is drawn.
                    ops: head + seq![OpV::GroupEnd],
                    eds: nv,
                    out: ValueV::EnumVal(et, j, spec_defaults(et.variants[j].fields)),
                },
                None => {
                    let r = fields_outside_spec(fields, et.variants[k].fields, act, e0 + nv);
                    RenderOut {
                        ops: head + seq![OpV::GroupStart, OpV::Label(et.name)] + r.ops + seq![
                            OpV::GroupEnd,
                            OpV::GroupEnd,
                        ],
                        eds: nv + r.eds,
                        out: ValueV::EnumVal(et, k, r.outs),
                    }
                },
            }
        },
    }
}

/// The semantics of `inspect_ui_outside`: a labelled `name: widget` row,
/// except that a value which is itself a tree node renders nothing inline
/// (it is shown through the tree instead).
pub open spec fn outside_spec(name: NameV, v: ValueV, act: Option<ActV>, e0: int) -> RenderOut
    decreases v, 1int,
{
    if v is StructVal {
        RenderOut { ops: Seq::empty(), eds: 0, out: v }
    } else {
        let r = inspect_spec(v, act, e0);
        RenderOut {
            ops: seq![OpV::RowStart(name)] + r.ops + seq![OpV::RowEnd],
            eds: r.eds,
            out: r.out,
        }
    }
}

/// The semantics of inspecting a struct's (or variant's) fields in
/// declaration order: ignored fields draw nothing and keep their value,
/// every other field draws its labelled row.
pub open spec fn fields_outside_spec(
    vs: Seq<ValueV>,
    fs: Seq<FieldDeclV>,
    act: Option<ActV>,
    e0: int,
) -> FieldsOut
    decreases vs, 2int,
{
    if vs.len() == 0 || vs.len() != fs.len() {
        FieldsOut { ops: Seq::empty(), eds: 0, outs: vs }
    } else {
        let front = fields_outside_spec(vs.drop_last(), fs.drop_last(), act, e0);
        if fs.last().ignored {
            FieldsOut { ops: front.ops, eds: front.eds, outs: front.outs.push(vs.last()) }
        } else {
            let r = outside_spec(fs.last().name, vs.last(), act, e0 + front.eds);
            FieldsOut {
                ops: front.ops + r.ops,
                eds: front.eds + r.eds,
                outs: front.outs.push(r.out),
            }
        }
    }
}

/// The semantics of inspecting a sequence: every element's editor in
/// order, with no labels between them.
pub open spec fn list_inspect_spec(vs: Seq<ValueV>, act: Option<ActV>, e0: int) -> FieldsOut
    decreases vs, 2int,
{
    if vs.len() == 0 {
        FieldsOut { ops: Seq::empty(), eds: 0, outs: vs }
    } else {
        let front = list_inspect_spec(vs.drop_last(), act, e0);
        let r = inspect_spec(vs.last(), act, e0 + front.eds);
        FieldsOut { ops: front.ops + r.ops, eds: front.eds + r.eds, outs: front.outs.push(r.out) }
    }
}

/// Every value of the list is well-formed.
pub open spec fn all_wf(vs: Seq<ValueV>) -> bool {
    forall|i: int| 0 <= i < vs.len() ==> value_wf(#[trigger] vs[i])
}

/// How one rendering step relates the frame context before and after: the
/// given widgets were appended, the given editor ordinals were consumed,
/// and the pending action is untouched.
pub open spec fn ui_advanced(pre: Ui, post: Ui, ops: Seq<OpV>, eds: int) -> bool {
    &&& post.wf()
    &&& ops_view(post.ops@) == ops_view(pre.ops@) + ops
    &&& post.editors as int == pre.editors as int + eds
    &&& post.action == pre.action
}

/// Render the editable widget for a value and route the frame's pending
/// action into it.  This is the full dispatch of the generated
/// `inspect_ui` code, proved against `inspect_spec`.
#[verifier::rlimit(100)]
#[verifier::spinoff_prover]
pub fn inspect_value(v: Value, ui: &mut Ui) -> (out: Value)
    requires
        value_wf(v@),
        old(ui).wf(),
    ensures
        ({
            let r = inspect_spec(v@, act_view(old(ui).action), old(ui).editors as int);
            &&& ui_advanced(*old(ui), *final(ui), r.ops, r.eds)
            &&& out@ == r.out
        }),
    decreases v@, 0int,
{
    let ghost v0 = v@;
    let ghost act = act_view(old(ui).action);
    let ghost e0 = old(ui).editors as int;
    match v {
        Value::Int(n) => {
            let ord = ui.put_editor(WidgetOp::DragInt(n));
            proof {
                lemma_ops_view_push(old(ui).ops@, WidgetOp::DragInt(n));
                assert(ops_view(ui.ops@) =~= ops_view(old(ui).ops@) + seq![OpV::DragInt(n)]);
            }
            match ui.set_int(ord) {
                Some(x) => Value::Int(x),
                None => Value::Int(n),
            }
        },
        Value::Bool(b) => {
            let ord = ui.put_editor(WidgetOp::Checkbox(b));
            proof {
                lemma_ops_view_push(old(ui).ops@, WidgetOp::Checkbox(b));
                assert(ops_view(ui.ops@) =~= ops_view(old(ui).ops@) + seq![OpV::Checkbox(b)]);
            }
            match ui.set_bool(ord) {
                Some(x) => Value::Bool(x),
                None => Value::Bool(b),
            }
        },
        Value::Text(s) => {
            let op = WidgetOp::TextEdit(s.clone());
            let ghost opv = op@;
            let ord = ui.put_editor(op);
            proof {
                lemma_ops_view_push(old(ui).ops@, WidgetOp::TextEdit(s));
                assert(ops_view(ui.ops@) =~= ops_view(old(ui).ops@) + seq![opv]);
                assert(opv == OpV::TextEdit(s@));
            }
            match ui.set_text(ord) {
                Some(x) => Value::Text(x),
                None => Value::Text(s),
            }
        },
        Value::Seconds(n) => {
            let ord = ui.put_editor(WidgetOp::DragSeconds(n));
            proof {
                lemma_ops_view_push(old(ui).ops@, WidgetOp::DragSeconds(n));
                assert(ops_view(ui.ops@) =~= ops_view(old(ui).ops@) + seq![OpV::DragSeconds(n)]);
            }
            match ui.set_int(ord) {
                Some(x) => {
                    let secs: u64 = if x < 0 {
                        0
                    } else {
                        x as u64
                    };
                    Value::Seconds(secs)
                },
                None => Value::Seconds(n),
            }
        },
        Value::Pathname(s) => {
            let op = WidgetOp::StaticText(s.clone());
            let ghost opv = op@;
            ui.put(op);
            proof {
                lemma_ops_view_push(old(ui).ops@, WidgetOp::StaticText(s));
                assert(ops_view(ui.ops@) =~= ops_view(old(ui).ops@) + seq![opv]);
                assert(opv == OpV::StaticText(s@));
            }
            Value::Pathname(s)
        },
        Value::Opaque => {
            ui.put(WidgetOp::Placeholder);
            proof {
                lemma_ops_view_push(old(ui).ops@, WidgetOp::Placeholder);
                assert(ops_view(ui.ops@) =~= ops_view(old(ui).ops@) + seq![OpV::Placeholder]);
            }
            Value::Opaque
        },
        Value::Clamped { lo, hi, n } => {
            let ord = ui.put_editor(WidgetOp::DragInt(n));
            proof {
                lemma_ops_view_push(old(ui).ops@, WidgetOp::DragInt(n));
                assert(ops_view(ui.ops@) =~= ops_view(old(ui).ops@) + seq![OpV::DragInt(n)]);
            }
            match ui.set_int(ord) {
                Some(x) => {
                    let n2 = if x < lo {
                        lo
                    } else if x > hi {
                        hi
                    } else {
                        x
                    };
                    Value::Clamped { lo, hi, n: n2 }
                },
                None => Value::Clamped { lo, hi, n },
            }
        },
        Value::ReadOnly(inner) => {
            proof {
                assert(decreases_to!(v0, 0int => inner@, 0int));
            }
            ui.put(WidgetOp::GroupStart);
            let mut stash: Option<Action> = None;
            core::mem::swap(&mut ui.action, &mut stash);
            let ghost mid = *ui;
            let inner_out = inspect_value(*inner, ui);
            core::mem::swap(&mut ui.action, &mut stash);
            ui.put(WidgetOp::GroupEnd);
            proof {
                let r = inspect_spec(inner@, None, e0);
                assert(ops_view(ui.ops@) =~= ops_view(old(ui).ops@) + (seq![OpV::GroupStart]
                    + r.ops + seq![OpV::GroupEnd]));
            }
            Value::ReadOnly(Box::new(inner_out))
        },
        Value::OptVal(t, inner) => {
            match inner {
                None => {
                    let ord = ui.put_editor(WidgetOp::AddButton);
                    proof {
                        lemma_ops_view_push(old(ui).ops@, WidgetOp::AddButton);
                        assert(ops_view(ui.ops@) =~= ops_view(old(ui).ops@) + seq![
                            OpV::AddButton,
                        ]);
                    }
                    if ui.clicked(ord) {
                        let d = default_value(&t);
                        Value::OptVal(t, Some(Box::new(d)))
                    } else {
                        Value::OptVal(t, None)
                    }
                },
                Some(b) => {
                    proof {
                        assert(decreases_to!(v0, 0int => b@, 0int));
                        lemma_has_ty_wf(b@, v0->OptVal_0);
                    }
                    ui.put(WidgetOp::GroupStart);
                    let inner_out = inspect_value(*b, ui);
                    let ord = ui.put_editor(WidgetOp::RemoveButton);
                    ui.put(WidgetOp::GroupEnd);
                    proof {
                        let r = inspect_spec(b@, act, e0);
                        assert(ops_view(ui.ops@) =~= ops_view(old(ui).ops@) + (seq![
                            OpV::GroupStart,
                        ] + r.ops + seq![OpV::RemoveButton, OpV::GroupEnd]));
                    }
                    if ui.clicked(ord) {
                        Value::OptVal(t, None)
                    } else {
                        Value::OptVal(t, Some(Box::new(inner_out)))
                    }
                },
            }
        },
        Value::List(t, items) => {
            proof {
                let vs = vals_view(items@);
                assert(v0->List_1 == vs);
                assert(decreases_to!(v0, 0int => vs, 2int));
                lemma_vals_view_len(items@);
                assert forall|i: int| 0 <= i < vs.len() implies value_wf(#[trigger] vs[i]) by {
                    lemma_has_list_index(vs, v0->List_0, i);
                    lemma_has_ty_wf(vs[i], v0->List_0);
                }
            }
            let outs = inspect_list(items, ui);
            Value::List(t, outs)
        },
        Value::StructVal(st, fields) => {
            ui.put(WidgetOp::GroupStart);
            let op = WidgetOp::Label(st.name.clone());
            let ghost opv = op@;
            ui.put(op);
            proof {
                let vs = vals_view(fields@);
                assert(v0->StructVal_1 == vs);
                assert(decreases_to!(v0, 0int => vs, 2int));
                lemma_vals_view_len(fields@);
                lemma_decls_view_len(st.fields@);
                assert forall|i: int| 0 <= i < vs.len() implies value_wf(#[trigger] vs[i]) by {
                    lemma_has_vals_index(vs, st@.fields, i);
                    lemma_fields_wf_index(st@.fields, i);
                    lemma_has_ty_wf(vs[i], st@.fields[i].ty);
                }
                assert(vs.len() == st@.fields.len());
            }
            let outs = inspect_fields(fields, &st.fields, ui);
            ui.put(WidgetOp::GroupEnd);
            proof {
                let fr = fields_outside_spec(vals_view(fields@), st@.fields, act, e0);
                assert(decls_view(st.fields@).take(vals_view(fields@).len() as int)
                    =~= st@.fields);
                assert(ops_view(ui.ops@) =~= ops_view(old(ui).ops@) + (seq![
                    OpV::GroupStart,
                    OpV::Label(st@.name),
                ] + fr.ops + seq![OpV::GroupEnd]));
                assert(opv == OpV::Label(st@.name));
            }
            Value::StructVal(st, outs)
        },
        Value::EnumVal(et, k, fields) => {
            ui.put(WidgetOp::GroupStart);
            let op = WidgetOp::Label(et.name.clone());
            ui.put(op);
            let nv = et.variants.len();
            let ghost e_sel = ui.editors as int;
            let ghost pre_sel_ops = ops_view(ui.ops@);
            let ghost selops = Seq::new(
                et@.variants.len(),
                |i: int| OpV::VariantLabel { active: i == k as int, name: et@.variants[i].name },
            );
            proof {
                lemma_variants_view_len(et.variants@);
                assert(pre_sel_ops =~= ops_view(old(ui).ops@) + seq![
                    OpV::GroupStart,
                    OpV::Label(et@.name),
                ]);
            }
            let mut chosen: Option<usize> = None;
            for i in 0..nv
                invariant
                    nv == et.variants.len(),
                    et@.variants.len() == nv,
                    selops.len() == nv,
                    act == act_view(old(ui).action),
                    e_sel == old(ui).editors as int,
                    pre_sel_ops == ops_view(old(ui).ops@) + seq![
                        OpV::GroupStart,
                        OpV::Label(et@.name),
                    ],
                    forall|j: int|
                        0 <= j < nv ==> #[trigger] selops[j] == (OpV::VariantLabel {
                            active: j == k as int,
                            name: et@.variants[j].name,
                        }),
                    forall|j: int|
                        0 <= j < nv ==> (#[trigger] et@.variants[j]).name == et.variants@[j].name@,
                    ui.wf(),
                    ui.action == old(ui).action,
                    ui.editors as int == e_sel + i,
                    ops_view(ui.ops@) == pre_sel_ops + selops.take(i as int),
                    match chosen {
                        Some(u) => u < i && clicked_variant(act, e_sel, i as int) == Some(
                            u as int,
                        ),
                        None => clicked_variant(act, e_sel, i as int) is None,
                    },
                decreases nv - i,
            {
                let active = i == k;
                let name = et.variants[i].name.clone();
                let op = WidgetOp::VariantLabel { active, name };
                let ghost opv = op@;
                let ord = ui.put_editor(op);
                proof {
                    assert(opv == selops[i as int]);
                    assert(ops_view(ui.ops@) =~= pre_sel_ops + selops.take((i + 1) as int));
                }
                let hit = ui.clicked(ord);
                proof {
                    assert(ord as int == e_sel + i);
                    if hit {
                        assert(act == Some(ActV::Click(ord)));
                        assert(clicked_variant(act, e_sel, (i + 1) as int) == Some(i as int));
                    } else {
                        assert(match chosen {
                            Some(u) => clicked_variant(act, e_sel, (i + 1) as int) == Some(
                                u as int,
                            ),
                            None => clicked_variant(act, e_sel, (i + 1) as int) is None,
                        });
                    }
                }
                if hit {
                    chosen = Some(i);
                }
            }
            proof {
                assert(selops.take(nv as int) =~= selops);
            }
            match chosen {
                Some(j) => {
                    ui.put(WidgetOp::GroupEnd);
                    proof {
                        lemma_variants_view_len(et.variants@);
                        lemma_variants_wf_index(et@.variants, j as int);
                    }
                    let vs2 = default_fields(&et.variants[j].fields);
                    proof {
                        let r = inspect_spec(v0, act, e0);
                        assert(ops_view(ui.ops@) =~= ops_view(old(ui).ops@) + r.ops);
                    }
                    Value::EnumVal(et, j, vs2)
                },
                None => {
                    ui.put(WidgetOp::GroupStart);
                    let op2 = WidgetOp::Label(et.name.clone());
                    ui.put(op2);
                    proof {
                        let vs = vals_view(fields@);
                        assert(v0->EnumVal_2 == vs);
                        assert(decreases_to!(v0, 0int => vs, 2int));
                        lemma_vals_view_len(fields@);
                        lemma_variants_view_len(et.variants@);
                        lemma_variants_wf_index(et@.variants, k as int);
                        lemma_decls_view_len(et.variants@[k as int].fields@);
                        assert forall|i: int| 0 <= i < vs.len() implies value_wf(
                            #[trigger] vs[i],
                        ) by {
                            lemma_has_vals_index(vs, et@.variants[k as int].fields, i);
                            lemma_fields_wf_index(et@.variants[k as int].fields, i);
                            lemma_has_ty_wf(vs[i], et@.variants[k as int].fields[i].ty);
                        }
                        assert(vs.len() == et@.variants[k as int].fields.len());
                    }
                    let outs = inspect_fields(fields, &et.variants[k].fields, ui);
                    ui.put(WidgetOp::GroupEnd);
                    ui.put(WidgetOp::GroupEnd);
                    proof {
                        let fr = fields_outside_spec(
                            vals_view(fields@),
                            et@.variants[k as int].fields,
                            act,
                            e0 + nv as int,
                        );
                        assert(decls_view(et.variants@[k as int].fields@).take(
                            vals_view(fields@).len() as int,
                        ) =~= et@.variants[k as int].fields);
                        let r = inspect_spec(v0, act, e0);
                        assert(ops_view(ui.ops@) =~= ops_view(old(ui).ops@) + r.ops);
                    }
                    Value::EnumVal(et, k, outs)
                },
            }
        },
    }
}

/// Render the labelled `name: widget` row for one field, with the
/// capability dispatch of the generated code: a tree-capable field renders
/// nothing inline.
pub fn outside_value(name: DisplayName, v: Value, ui: &mut Ui) -> (out: Value)
    requires
        value_wf(v@),
        old(ui).wf(),
    ensures
        ({
            let r = outside_spec(name@, v@, act_view(old(ui).action), old(ui).editors as int);
            &&& ui_advanced(*old(ui), *final(ui), r.ops, r.eds)
            &&& out@ == r.out
        }),
    decreases v@, 1int,
{
    let is_node = match &v {
        Value::StructVal(_, _) => true,
        _ => false,
    };
    if is_node {
        v
    } else {
        let op = WidgetOp::RowStart(name);
        let ghost opv = op@;
        ui.put(op);
        let out = inspect_value(v, ui);
        ui.put(WidgetOp::RowEnd);
        proof {
            let r = inspect_spec(v@, act_view(old(ui).action), old(ui).editors as int);
            assert(ops_view(ui.ops@) =~= ops_view(old(ui).ops@) + (seq![opv] + r.ops + seq![
                OpV::RowEnd,
            ]));
        }
        out
    }
}

/// Render the fields of a struct or variant, in declaration order, against
/// the first `items.len()` field declarations of `decls`.
pub fn inspect_fields(items: Vec<Value>, decls: &Vec<FieldDecl>, ui: &mut Ui) -> (outs: Vec<
    Value,
>)
    requires
        items@.len() <= decls@.len(),
        all_wf(vals_view(items@)),
        old(ui).wf(),
    ensures
        ({
            let r = fields_outside_spec(
                vals_view(items@),
                decls_view(decls@).take(items@.len() as int),
                act_view(old(ui).action),
                old(ui).editors as int,
            );
            &&& ui_advanced(*old(ui), *final(ui), r.ops, r.eds)
            &&& vals_view(outs@) == r.outs
        }),
    decreases vals_view(items@), 2int,
{
    let ghost vs0 = vals_view(items@);
    let ghost act = act_view(old(ui).action);
    let ghost e0 = old(ui).editors as int;
    let ghost fs = decls_view(decls@).take(items@.len() as int);
    proof {
        lemma_decls_view_len(decls@);
        lemma_vals_view_len(items@);
    }
    let mut items = items;
    let n = items.len();
    if n == 0 {
        proof {
            assert(ops_view(ui.ops@) =~= ops_view(ui.ops@) + Seq::<OpV>::empty());
        }
        return items;
    }
    let last = match items.pop() {
        Some(x) => x,
        None => vstd::pervasive::unreached(),
    };
    proof {
        // The front of the list is what remains after popping the last
        // element, both at the value level and in the view.
        assert(vals_view(items@) =~= vs0.drop_last());
        assert(last@ == vs0.last());
        assert(decreases_to!(vs0 => vs0.subrange(0, vs0.len() - 1)));
        assert(vs0.drop_last() == vs0.subrange(0, vs0.len() - 1));
        assert forall|i: int| 0 <= i < vals_view(items@).len() implies value_wf(
            #[trigger] vals_view(items@)[i],
        ) by {
            assert(vals_view(items@)[i] == vs0[i]);
        }
    }
    let front = inspect_fields(items, decls, ui);
    let mut outs = front;
    let decl_ignored = decls[n - 1].ignored;
    proof {
        assert(fs.last() == decls_view(decls@)[n - 1]);
        assert(decls_view(decls@)[n - 1] == decls@[n - 1]@);
        assert(fs.drop_last() =~= decls_view(decls@).take((n - 1) as int));
    }
    if decl_ignored {
        outs.push(last);
    } else {
        proof {
            assert(decreases_to!(vs0, 2int => vs0.last(), 1int)) by {
                assert(decreases_to!(vs0 => vs0[vs0.len() - 1]));
            }
            assert(value_wf(last@)) by {
                assert(vs0[vs0.len() - 1] == vs0.last());
            }
        }
        let name = copy_name(&decls[n - 1].name);
        let y = outside_value(name, last, ui);
        outs.push(y);
    }
    proof {
        let r = fields_outside_spec(vs0, fs, act, e0);
        let front_r = fields_outside_spec(vs0.drop_last(), fs.drop_last(), act, e0);
        assert(vs0.len() == n && fs.len() == n);
        assert(fields_outside_spec(
            vals_view(items@),
            decls_view(decls@).take(items@.len() as int),
            act,
            e0,
        ) == front_r);
        assert(vals_view(outs@) == r.outs) by {
            assert(vals_view(outs@) =~= r.outs);
        }
        assert(ops_view(ui.ops@) == ops_view(old(ui).ops@) + r.ops) by {
            assert(ops_view(ui.ops@) =~= ops_view(old(ui).ops@) + r.ops);
        }
    }
    outs
}

/// Render every element of a sequence, in order.
pub fn inspect_list(items: Vec<Value>, ui: &mut Ui) -> (outs: Vec<Value>)
    requires
        all_wf(vals_view(items@)),
        old(ui).wf(),
    ensures
        ({
            let r = list_inspect_spec(
                vals_view(items@),
                act_view(old(ui).action),
                old(ui).editors as int,
            );
            &&& ui_advanced(*old(ui), *final(ui), r.ops, r.eds)
            &&& vals_view(outs@) == r.outs
        }),
    decreases vals_view(items@), 2int,
{
    let ghost vs0 = vals_view(items@);
    let ghost act = act_view(old(ui).action);
    let ghost e0 = old(ui).editors as int;
    proof {
        lemma_vals_view_len(items@);
    }
    let mut items = items;
    let n = items.len();
    if n == 0 {
        proof {
            assert(ops_view(ui.ops@) =~= ops_view(ui.ops@) + Seq::<OpV>::empty());
        }
        return items;
    }
    let last = match items.pop() {
        Some(x) => x,
        None => vstd::pervasive::unreached(),
    };
    proof {
        assert(vals_view(items@) =~= vs0.drop_last());
        assert(last@ == vs0.last());
        assert(decreases_to!(vs0 => vs0.subrange(0, vs0.len() - 1)));
        assert(vs0.drop_last() == vs0.subrange(0, vs0.len() - 1));
        assert forall|i: int| 0 <= i < vals_view(items@).len() implies value_wf(
            #[trigger] vals_view(items@)[i],
        ) by {
            assert(vals_view(items@)[i] == vs0[i]);
        }
    }
    let front = inspect_list(items, ui);
    proof {
        assert(decreases_to!(vs0, 2int => vs0.last(), 0int)) by {
            assert(decreases_to!(vs0 => vs0[vs0.len() - 1]));
        }
        assert(value_wf(last@)) by {
            assert(vs0[vs0.len() - 1] == vs0.last());
        }
    }
    let y = inspect_value(last, ui);
    let mut outs = front;
    outs.push(y);
    proof {
        let r = list_inspect_spec(vs0, act, e0);
        let front_r = list_inspect_spec(vs0.drop_last(), act, e0);
        assert(list_inspect_spec(vals_view(items@), act, e0) == front_r);
        assert(vals_view(outs@) == r.outs) by {
            assert(vals_view(outs@) =~= r.outs);
        }
        assert(ops_view(ui.ops@) == ops_view(old(ui).ops@) + r.ops) by {
            assert(ops_view(ui.ops@) =~= ops_view(old(ui).ops@) + r.ops);
        }
    }
    outs
}


/// Inspection preserves typing: the value a frame returns has the type
/// the value it was given had.
pub proof fn lemma_inspect_ty(v: ValueV, t: TyV, act: Option<ActV>, e0: int)
    requires
        has_ty(v, t),
        ty_wf(t),
    ensures
        has_ty(inspect_spec(v, act, e0).out, t),
    decreases v, 1int,
{
    match v {
        ValueV::ReadOnly(inner) => {
            lemma_inspect_ty(*inner, *t->ReadOnly_0, None, e0);
        },
        ValueV::OptVal(et, inner) => {
            match inner {
                Some(b) => {
                    lemma_inspect_ty(*b, et, act, e0);
                },
                None => {
                    if is_click(act, e0) {
                        lemma_spec_default_has_ty(et);
                    }
                },
            }
        },
        ValueV::List(et, items) => {
            lemma_list_ty(items, et, act, e0);
        },
        ValueV::StructVal(st, fields) => {
            lemma_fields_ty(fields, st.fields, act, e0);
        },
        ValueV::EnumVal(et, k, fields) => {
            let nv = et.variants.len() as int;
            match clicked_variant(act, e0, nv) {
                Some(j) => {
                    lemma_variants_wf_index(et.variants, j);
                    lemma_spec_defaults_has_vals(et.variants[j].fields);
                },
                None => {
                    lemma_variants_wf_index(et.variants, k);
                    lemma_fields_ty(fields, et.variants[k].fields, act, e0 + nv);
                },
            }
        },
        _ => {},
    }
}

proof fn lemma_fields_ty(vs: Seq<ValueV>, fs: Seq<FieldDeclV>, act: Option<ActV>, e0: int)
    requires
        has_vals(vs, fs),
        fields_wf(fs),
    ensures
        has_vals(fields_outside_spec(vs, fs, act, e0).outs, fs),
    decreases vs, 2int,
{
    if vs.len() == 0 || vs.len() != fs.len() {
    } else {
        let front = fields_outside_spec(vs.drop_last(), fs.drop_last(), act, e0);
        lemma_fields_ty(vs.drop_last(), fs.drop_last(), act, e0);
        let whole = fields_outside_spec(vs, fs, act, e0);

        if fs.last().ignored {
            assert(whole.outs.drop_last() =~= front.outs);
            assert(whole.outs.last() == vs.last());
        } else {
            let r = outside_spec(fs.last().name, vs.last(), act, e0 + front.eds);
            if vs.last() is StructVal {
                assert(r.out == vs.last());
            } else {
                lemma_fields_wf_index(fs, fs.len() - 1);
                lemma_inspect_ty(vs.last(), fs.last().ty, act, e0 + front.eds);
            }
            assert(whole.outs.drop_last() =~= front.outs);
            assert(whole.outs.last() == r.out);
        }
    }
}

proof fn lemma_list_ty(vs: Seq<ValueV>, et: TyV, act: Option<ActV>, e0: int)
    requires
        has_list(vs, et),
        ty_wf(et),
    ensures
        has_list(list_inspect_spec(vs, act, e0).outs, et),
    decreases vs, 2int,
{
    if vs.len() == 0 {
    } else {
        let front = list_inspect_spec(vs.drop_last(), act, e0);
        lemma_list_ty(vs.drop_last(), et, act, e0);
        lemma_inspect_ty(vs.last(), et, act, e0 + front.eds);
        let whole = list_inspect_spec(vs, act, e0);
        assert(whole.outs.drop_last() =~= front.outs);
        assert(whole.outs.last() == inspect_spec(vs.last(), act, e0 + front.eds).out);
    }
}

/// Inspection preserves well-formedness.
pub proof fn lemma_inspect_preserves_wf(v: ValueV, act: Option<ActV>, e0: int)
    requires
        value_wf(v),
    ensures
        value_wf(inspect_spec(v, act, e0).out),
    decreases v,
{
    match v {
        ValueV::ReadOnly(inner) => {
            lemma_inspect_preserves_wf(*inner, None, e0);
        },
        ValueV::OptVal(et, inner) => {
            match inner {
                Some(b) => {
                    lemma_inspect_ty(*b, et, act, e0);
                },
                None => {
                    if is_click(act, e0) {
                        lemma_spec_default_has_ty(et);
                    }
                },
            }
        },
        ValueV::List(et, items) => {
            lemma_list_ty(items, et, act, e0);
        },
        ValueV::StructVal(st, fields) => {
            lemma_fields_ty(fields, st.fields, act, e0);
        },
        ValueV::EnumVal(et, k, fields) => {
            let nv = et.variants.len() as int;
            match clicked_variant(act, e0, nv) {
                Some(j) => {
                    lemma_variants_wf_index(et.variants, j);
                    lemma_spec_defaults_has_vals(et.variants[j].fields);
                },
                None => {
                    lemma_variants_wf_index(et.variants, k);
                    lemma_fields_ty(fields, et.variants[k].fields, act, e0 + nv);
                },
            }
        },
        _ => {},
    }
}

/// The inspection capability: a value that can render an editable widget
/// for its contents.  The two spec members tie every implementer to the
/// rendering semantics: `as_value` is the object-graph node the value
/// stands for, and the methods are bound to `inspect_spec` and
/// `outside_spec` over it.
pub trait Inspectable: Sized {
    /// The object-graph node this value stands for.
    spec fn as_value(&self) -> ValueV;

    /// What the value's well-formedness requires.
    spec fn inv(&self) -> bool;

    /// Render the editable widget for this value's contents and route the
    /// frame's pending action into it.
    fn inspect_ui(&mut self, ui: &mut Ui)
        requires
            old(self).inv(),
            old(ui).wf(),
        ensures
            final(self).inv(),
            ({
                let r = inspect_spec(
                    old(self).as_value(),
                    act_view(old(ui).action),
                    old(ui).editors as int,
                );
                &&& ui_advanced(*old(ui), *final(ui), r.ops, r.eds)
                &&& final(self).as_value() == r.out
            }),
    ;

    /// Render the labelled `name: widget` row for this value.  A value
    /// that is itself a tree node renders nothing here: it is shown
    /// through the tree instead.
    fn inspect_ui_outside(&mut self, name: DisplayName, ui: &mut Ui)
        requires
            old(self).inv(),
            old(ui).wf(),
        ensures
            final(self).inv(),
            ({
                let r = outside_spec(
                    name@,
                    old(self).as_value(),
                    act_view(old(ui).action),
                    old(ui).editors as int,
                );
                &&& ui_advanced(*old(ui), *final(ui), r.ops, r.eds)
                &&& final(self).as_value() == r.out
            }),
    ;
}

impl Inspectable for Value {
    open spec fn as_value(&self) -> ValueV {
        self@
    }

    open spec fn inv(&self) -> bool {
        value_wf(self@)
    }

    fn inspect_ui(&mut self, ui: &mut Ui) {
        let mut taken = Value::Opaque;
        core::mem::swap(self, &mut taken);
        let mut out = inspect_value(taken, ui);
        core::mem::swap(self, &mut out);
        proof {
            lemma_inspect_preserves_wf(
                old(self)@,
                act_view(old(ui).action),
                old(ui).editors as int,
            );
        }
    }

    fn inspect_ui_outside(&mut self, name: DisplayName, ui: &mut Ui) {
        let mut taken = Value::Opaque;
        core::mem::swap(self, &mut taken);
        let mut out = outside_value(name, taken, ui);
        core::mem::swap(self, &mut out);
        proof {
            if !(old(self)@ is StructVal) {
                lemma_inspect_preserves_wf(
                    old(self)@,
                    act_view(old(ui).action),
                    old(ui).editors as int,
                );
            }
        }
    }
}

impl Inspectable for i64 {
    open spec fn as_value(&self) -> ValueV {
        ValueV::Int(*self)
    }

    open spec fn inv(&self) -> bool {
        true
    }

    fn inspect_ui(&mut self, ui: &mut Ui) {
        let ord = ui.put_editor(WidgetOp::DragInt(*self));
        proof {
            assert(ops_view(ui.ops@) =~= ops_view(old(ui).ops@) + seq![OpV::DragInt(*old(self))]);
        }
        match ui.set_int(ord) {
            Some(x) => {
                *self = x;
            },
            None => {},
        }
    }

    fn inspect_ui_outside(&mut self, name: DisplayName, ui: &mut Ui) {
        let ghost opv = name@;
        ui.put(WidgetOp::RowStart(name));
        self.inspect_ui(ui);
        ui.put(WidgetOp::RowEnd);
        proof {
            let r = inspect_spec(
                ValueV::Int(*old(self)),
                act_view(old(ui).action),
                old(ui).editors as int,
            );
            assert(ops_view(ui.ops@) =~= ops_view(old(ui).ops@) + (seq![OpV::RowStart(opv)]
                + r.ops + seq![OpV::RowEnd]));
        }
    }
}

impl Inspectable for bool {
    open spec fn as_value(&self) -> ValueV {
        ValueV::Bool(*self)
    }

    open spec fn inv(&self) -> bool {
        true
    }

    fn inspect_ui(&mut self, ui: &mut Ui) {
        let ord = ui.put_editor(WidgetOp::Checkbox(*self));
        proof {
            assert(ops_view(ui.ops@) =~= ops_view(old(ui).ops@) + seq![
                OpV::Checkbox(*old(self)),
            ]);
        }
        match ui.set_bool(ord) {
            Some(x) => {
                *self = x;
            },
            None => {},
        }
    }

    fn inspect_ui_outside(&mut self, name: DisplayName, ui: &mut Ui) {
        let ghost opv = name@;
        ui.put(WidgetOp::RowStart(name));
        self.inspect_ui(ui);
        ui.put(WidgetOp::RowEnd);
        proof {
            let r = inspect_spec(
                ValueV::Bool(*old(self)),
                act_view(old(ui).action),
                old(ui).editors as int,
            );
            assert(ops_view(ui.ops@) =~= ops_view(old(ui).ops@) + (seq![OpV::RowStart(opv)]
                + r.ops + seq![OpV::RowEnd]));
        }
    }
}

impl Inspectable for String {
    open spec fn as_value(&self) -> ValueV {
        ValueV::Text(self@)
    }

    open spec fn inv(&self) -> bool {
        true
    }

    fn inspect_ui(&mut self, ui: &mut Ui) {
        let ord = ui.put_editor(WidgetOp::TextEdit(self.clone()));
        proof {
            assert(ops_view(ui.ops@) =~= ops_view(old(ui).ops@) + seq![
                OpV::TextEdit(old(self)@),
            ]);
        }
        match ui.set_text(ord) {
            Some(x) => {
                *self = x;
            },
            None => {},
        }
    }

    fn inspect_ui_outside(&mut self, name: DisplayName, ui: &mut Ui) {
        let ghost opv = name@;
        ui.put(WidgetOp::RowStart(name));
        self.inspect_ui(ui);
        ui.put(WidgetOp::RowEnd);
        proof {
            let r = inspect_spec(
                ValueV::Text(old(self)@),
                act_view(old(ui).action),
                old(ui).editors as int,
            );
            assert(ops_view(ui.ops@) =~= ops_view(old(ui).ops@) + (seq![OpV::RowStart(opv)]
                + r.ops + seq![OpV::RowEnd]));
        }
    }
}


/// A numeric value confined to an inclusive range; edits through its
/// editor are clamped into the range rather than rejected.
#[derive(Debug, PartialEq, Eq)]
pub struct ClampedValue {
    pub lo: i64,
    pub hi: i64,
    pub value: i64,
}

impl Inspectable for ClampedValue {
    open spec fn as_value(&self) -> ValueV {
        ValueV::Clamped { lo: self.lo, hi: self.hi, n: self.value }
    }

    open spec fn inv(&self) -> bool {
        self.lo <= self.value <= self.hi
    }

    fn inspect_ui(&mut self, ui: &mut Ui) {
        let ord = ui.put_editor(WidgetOp::DragInt(self.value));
        proof {
            assert(ops_view(ui.ops@) =~= ops_view(old(ui).ops@) + seq![
                OpV::DragInt(old(self).value),
            ]);
        }
        match ui.set_int(ord) {
            Some(x) => {
                self.value = if x < self.lo {
                    self.lo
                } else if x > self.hi {
                    self.hi
                } else {
                    x
                };
            },
            None => {},
        }
    }

    fn inspect_ui_outside(&mut self, name: DisplayName, ui: &mut Ui) {
        let ghost opv = name@;
        ui.put(WidgetOp::RowStart(name));
        self.inspect_ui(ui);
        ui.put(WidgetOp::RowEnd);
        proof {
            let r = inspect_spec(
                old(self).as_value(),
                act_view(old(ui).action),
                old(ui).editors as int,
            );
            assert(ops_view(ui.ops@) =~= ops_view(old(ui).ops@) + (seq![OpV::RowStart(opv)]
                + r.ops + seq![OpV::RowEnd]));
        }
    }
}

/// A read-only view of an inner value: its editor is drawn disabled and
/// the value never changes.
#[derive(Debug, PartialEq, Eq)]
pub struct ReadOnlyValue(pub Value);

impl Inspectable for ReadOnlyValue {
    open spec fn as_value(&self) -> ValueV {
        ValueV::ReadOnly(Box::new(self.0@))
    }

    open spec fn inv(&self) -> bool {
        value_wf(self.0@)
    }

    fn inspect_ui(&mut self, ui: &mut Ui) {
        ui.put(WidgetOp::GroupStart);
        let mut stash: Option<Action> = None;
        core::mem::swap(&mut ui.action, &mut stash);
        let mut taken = Value::Opaque;
        core::mem::swap(&mut self.0, &mut taken);
        let mut out = inspect_value(taken, ui);
        core::mem::swap(&mut self.0, &mut out);
        core::mem::swap(&mut ui.action, &mut stash);
        ui.put(WidgetOp::GroupEnd);
        proof {
            let r = inspect_spec(old(self).0@, None, old(ui).editors as int);
            assert(ops_view(ui.ops@) =~= ops_view(old(ui).ops@) + (seq![OpV::GroupStart] + r.ops
                + seq![OpV::GroupEnd]));
            lemma_inspect_preserves_wf(old(self).0@, None, old(ui).editors as int);
        }
    }

    fn inspect_ui_outside(&mut self, name: DisplayName, ui: &mut Ui) {
        let ghost opv = name@;
        ui.put(WidgetOp::RowStart(name));
        self.inspect_ui(ui);
        ui.put(WidgetOp::RowEnd);
        proof {
            let r = inspect_spec(
                old(self).as_value(),
                act_view(old(ui).action),
                old(ui).editors as int,
            );
            assert(ops_view(ui.ops@) =~= ops_view(old(ui).ops@) + (seq![OpV::RowStart(opv)]
                + r.ops + seq![OpV::RowEnd]));
        }
    }
}


/// Owning pointers forward to their pointee, as every capability does.
impl<T: Inspectable> Inspectable for Box<T> {
    open spec fn as_value(&self) -> ValueV {
        (**self).as_value()
    }

    open spec fn inv(&self) -> bool {
        (**self).inv()
    }

    fn inspect_ui(&mut self, ui: &mut Ui) {
        (**self).inspect_ui(ui);
    }

    fn inspect_ui_outside(&mut self, name: DisplayName, ui: &mut Ui) {
        (**self).inspect_ui_outside(name, ui);
    }
}

} // verus!
