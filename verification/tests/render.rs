//! Frame rendering, editing, tree navigation and the host, on concrete
//! object graphs.

use guiedit::host::{Event, InspectorHost, KeyCode};
use guiedit::id::{child_id, IdHasher};
use guiedit::inspectable::{inspect_value, ClampedValue, ReadOnlyValue};
use guiedit::{Inspectable, TreeNode};
use guiedit::shape::{EnumTy, FieldDecl, StructTy, Ty, VariantTy};
use guiedit::tree::{contents_value, default_node_ui, default_parent_node_ui, inspect_child_value, node_value};
use guiedit::ui::{Action, DisplayName, Ui, WidgetOp};
use guiedit::util::{fit_aspect_ratio_in_size, Vec2};
use guiedit::value::{default_value, Value};

fn field(name: &str, ty: Ty) -> FieldDecl {
    FieldDecl { name: DisplayName::Named(name.to_owned()), ignored: false, ty }
}

fn ignored_field(name: &str, ty: Ty) -> FieldDecl {
    FieldDecl { name: DisplayName::Named(name.to_owned()), ignored: true, ty }
}

fn struct_val(name: &str, fields: Vec<(FieldDecl, Value)>) -> Value {
    let mut decls = Vec::new();
    let mut vals = Vec::new();
    for (d, v) in fields {
        decls.push(d);
        vals.push(v);
    }
    Value::StructVal(StructTy { name: name.to_owned(), fields: decls }, vals)
}

fn row_ids_of(ops: &[WidgetOp]) -> Vec<u64> {
    let mut ids = Vec::new();
    for op in ops {
        match op {
            WidgetOp::NodeStart { id, .. } => ids.push(*id),
            WidgetOp::LeafRow { id, .. } => ids.push(*id),
            _ => {}
        }
    }
    ids
}

fn scene() -> Value {
    struct_val(
        "Scene",
        vec![
            (
                field("world", Ty::Struct(StructTy {
                    name: "World".to_owned(),
                    fields: vec![field("gravity", Ty::Int)],
                })),
                struct_val("World", vec![(field("gravity", Ty::Int), Value::Int(-10))]),
            ),
            (
                field("items", Ty::List(Box::new(Ty::Int))),
                Value::List(Ty::Int, vec![Value::Int(1), Value::Int(2)]),
            ),
        ],
    )
}

#[test]
fn hasher_is_deterministic() {
    let mut a = IdHasher::new();
    a.write_u64(17);
    a.write_u64(3);
    let mut b = IdHasher::new();
    b.write_u64(17);
    b.write_u64(3);
    assert_eq!(a.finish(), b.finish());
    assert_eq!(child_id(17, 3), child_id(17, 3));
}

#[test]
fn tree_ids_identical_across_frames() {
    let root = scene();
    let mut ui1 = Ui::new_frame(None);
    let mut sel1: Option<u64> = None;
    node_value(&root, DisplayName::Named("root".to_owned()), 0, &mut sel1, &mut ui1);

    // A second frame, this time with a click changing the selection: the
    // rows and their identities come out identical.
    let clicked = child_id(0, 1);
    let mut ui2 = Ui::new_frame(Some(Action::ClickRow(clicked)));
    let mut sel2: Option<u64> = None;
    node_value(&root, DisplayName::Named("root".to_owned()), 0, &mut sel2, &mut ui2);

    assert_eq!(row_ids_of(&ui1.ops), row_ids_of(&ui2.ops));
    assert_eq!(sel1, None);
    assert_eq!(sel2, Some(clicked));
}

#[test]
fn sibling_identities_differ() {
    for i in 0..10u64 {
        for j in 0..10u64 {
            if i != j {
                assert_ne!(child_id(77, i), child_id(77, j));
            }
        }
    }
}

#[test]
fn opaque_field_degrades_to_placeholder() {
    let v = struct_val("Holder", vec![(field("mystery", Ty::Opaque), Value::Opaque)]);
    let mut ui = Ui::new_frame(Some(Action::SetInt(0, 9)));
    let out = inspect_value(v, &mut ui);
    // The slot is present but inert: a labelled row holding the
    // placeholder, no editor, and no action can change the value.
    assert!(ui.ops.contains(&WidgetOp::Placeholder));
    assert_eq!(ui.editors, 0);
    assert_eq!(
        out,
        struct_val("Holder", vec![(field("mystery", Ty::Opaque), Value::Opaque)])
    );

    // And no tree row at all.
    let v = struct_val("Holder", vec![(field("mystery", Ty::Opaque), Value::Opaque)]);
    let mut ui = Ui::new_frame(None);
    let mut sel: Option<u64> = None;
    contents_value(&v, 0, &mut sel, &mut ui);
    assert_eq!(row_ids_of(&ui.ops), Vec::<u64>::new());
}

fn mode_ty() -> EnumTy {
    EnumTy {
        name: "Mode".to_owned(),
        variants: vec![VariantTy { name: "Idle".to_owned(), fields: vec![] }],
    }
}

fn mode_holder() -> Value {
    struct_val(
        "Holder",
        vec![(field("mode", Ty::Enum(mode_ty())), Value::EnumVal(mode_ty(), 0, vec![]))],
    )
}

#[test]
fn inspect_only_field_is_inline_not_a_row() {
    // Inline in the inspector: the labelled row wraps the enum's own
    // selector.
    let mut ui = Ui::new_frame(None);
    let _ = inspect_value(mode_holder(), &mut ui);
    assert!(ui.ops.contains(&WidgetOp::RowStart(DisplayName::Named("mode".to_owned()))));
    assert!(ui.ops.contains(&WidgetOp::VariantLabel { active: true, name: "Idle".to_owned() }));

    // Not a row of the tree.
    let v = mode_holder();
    let mut ui = Ui::new_frame(None);
    let mut sel: Option<u64> = None;
    contents_value(&v, 0, &mut sel, &mut ui);
    assert_eq!(row_ids_of(&ui.ops), Vec::<u64>::new());
}

#[test]
fn numeric_edit_round_trips_exactly() {
    let v = struct_val(
        "Pair",
        vec![
            (field("a", Ty::Int), Value::Int(1)),
            (field("b", Ty::Int), Value::Int(2)),
        ],
    );
    // The second drag box of the frame carries editor ordinal 1.
    let mut ui = Ui::new_frame(Some(Action::SetInt(1, 42)));
    let out = inspect_value(v, &mut ui);
    assert_eq!(
        out,
        struct_val(
            "Pair",
            vec![
                (field("a", Ty::Int), Value::Int(1)),
                (field("b", Ty::Int), Value::Int(42)),
            ],
        )
    );
}

fn switch_enum_ty() -> EnumTy {
    EnumTy {
        name: "Shape".to_owned(),
        variants: vec![
            VariantTy { name: "Unit".to_owned(), fields: vec![] },
            VariantTy {
                name: "Tuple".to_owned(),
                fields: vec![
                    FieldDecl { name: DisplayName::Index(0), ignored: false, ty: Ty::Int },
                    FieldDecl { name: DisplayName::Index(1), ignored: false, ty: Ty::Text },
                ],
            },
            VariantTy {
                name: "Named".to_owned(),
                fields: vec![field("value", Ty::List(Box::new(Ty::Int)))],
            },
        ],
    }
}

#[test]
fn variant_switch_builds_defaults() {
    // Selecting `Tuple` while `Unit` is active yields `Tuple(0, "")`.
    let v = Value::EnumVal(switch_enum_ty(), 0, vec![]);
    let mut ui = Ui::new_frame(Some(Action::Click(1)));
    let out = inspect_value(v, &mut ui);
    assert_eq!(
        out,
        Value::EnumVal(
            switch_enum_ty(),
            1,
            vec![Value::Int(0), Value::Text(String::new())],
        )
    );

    // Selecting `Named` similarly yields an empty sequence.
    let mut ui = Ui::new_frame(Some(Action::Click(2)));
    let out = inspect_value(out, &mut ui);
    assert_eq!(
        out,
        Value::EnumVal(switch_enum_ty(), 2, vec![Value::List(Ty::Int, vec![])])
    );
}

#[test]
fn ignored_field_never_appears_and_keeps_its_value() {
    let v = struct_val(
        "Holder",
        vec![
            (field("shown", Ty::Int), Value::Int(1)),
            (ignored_field("hidden", Ty::Int), Value::Int(99)),
        ],
    );
    let mut ui = Ui::new_frame(Some(Action::SetInt(0, 5)));
    let out = inspect_value(v, &mut ui);
    // The whole frame draws exactly the visible field's row: the ignored
    // field appears nowhere.
    assert_eq!(
        ui.ops,
        vec![
            WidgetOp::GroupStart,
            WidgetOp::Label("Holder".to_owned()),
            WidgetOp::RowStart(DisplayName::Named("shown".to_owned())),
            WidgetOp::DragInt(1),
            WidgetOp::RowEnd,
            WidgetOp::GroupEnd,
        ]
    );
    // Editing the rest leaves the ignored field untouched.
    assert_eq!(
        out,
        struct_val(
            "Holder",
            vec![
                (field("shown", Ty::Int), Value::Int(5)),
                (ignored_field("hidden", Ty::Int), Value::Int(99)),
            ],
        )
    );

    // Not searchable either: an ignored subtree draws no rows.
    let sub_ty = || StructTy { name: "Sub".to_owned(), fields: vec![field("x", Ty::Int)] };
    let v = struct_val(
        "Holder",
        vec![(
            ignored_field("hidden", Ty::Struct(sub_ty())),
            Value::StructVal(sub_ty(), vec![Value::Int(3)]),
        )],
    );
    let mut ui = Ui::new_frame(None);
    let mut sel: Option<u64> = None;
    contents_value(&v, 0, &mut sel, &mut ui);
    assert_eq!(row_ids_of(&ui.ops), Vec::<u64>::new());
}

fn deep_leaf() -> Value {
    Value::List(Ty::Int, vec![Value::Int(7), Value::Int(8)])
}

fn deep_root() -> Value {
    let mid = struct_val(
        "Mid",
        vec![(field("leaf", Ty::List(Box::new(Ty::Int))), deep_leaf())],
    );
    struct_val(
        "Root",
        vec![(
            field("inner", Ty::Struct(StructTy {
                name: "Mid".to_owned(),
                fields: vec![field("leaf", Ty::List(Box::new(Ty::Int)))],
            })),
            mid,
        )],
    )
}

#[test]
fn search_renders_exactly_the_matching_leaf() {
    let id_mid = child_id(0, 0);
    let id_leaf = child_id(id_mid, 0);

    let mut ui = Ui::new_frame(None);
    let _ = inspect_child_value(deep_root(), 0, id_leaf, &mut ui);

    // The dispatch draws exactly what inspecting the leaf alone draws.
    let mut direct = Ui::new_frame(None);
    let _ = inspect_value(deep_leaf(), &mut direct);
    assert_eq!(ui.ops, direct.ops);
    assert_eq!(ui.editors, direct.editors);

    // And an edit is routed into that leaf and nothing else.
    let mut ui = Ui::new_frame(Some(Action::SetInt(0, 99)));
    let out = inspect_child_value(deep_root(), 0, id_leaf, &mut ui);
    let expected_leaf = Value::List(Ty::Int, vec![Value::Int(99), Value::Int(8)]);
    let expected_mid = struct_val(
        "Mid",
        vec![(field("leaf", Ty::List(Box::new(Ty::Int))), expected_leaf)],
    );
    let expected_root = struct_val(
        "Root",
        vec![(
            field("inner", Ty::Struct(StructTy {
                name: "Mid".to_owned(),
                fields: vec![field("leaf", Ty::List(Box::new(Ty::Int)))],
            })),
            expected_mid,
        )],
    );
    assert_eq!(out, expected_root);
}

#[test]
fn duration_and_clamped_edits_saturate() {
    let mut ui = Ui::new_frame(Some(Action::SetInt(0, -3)));
    let out = inspect_value(Value::Seconds(5), &mut ui);
    assert_eq!(out, Value::Seconds(0));

    let mut ui = Ui::new_frame(Some(Action::SetInt(0, 42)));
    let out = inspect_value(Value::Clamped { lo: 0, hi: 10, n: 5 }, &mut ui);
    assert_eq!(out, Value::Clamped { lo: 0, hi: 10, n: 10 });
}

#[test]
fn read_only_values_never_change() {
    let mut ui = Ui::new_frame(Some(Action::SetInt(0, 99)));
    let out = inspect_value(Value::ReadOnly(Box::new(Value::Int(7))), &mut ui);
    assert_eq!(out, Value::ReadOnly(Box::new(Value::Int(7))));
}

#[test]
fn optional_values_fill_and_clear() {
    let mut ui = Ui::new_frame(Some(Action::Click(0)));
    let out = inspect_value(Value::OptVal(Ty::Int, None), &mut ui);
    assert_eq!(out, Value::OptVal(Ty::Int, Some(Box::new(Value::Int(0)))));

    // The remove button of a present optional sits after the inner
    // editor's ordinal.
    let mut ui = Ui::new_frame(Some(Action::Click(1)));
    let out = inspect_value(Value::OptVal(Ty::Int, Some(Box::new(Value::Int(3)))), &mut ui);
    assert_eq!(out, Value::OptVal(Ty::Int, None));
}

#[test]
fn defaults_follow_declarations() {
    let v = default_value(&Ty::Clamped(5, 9));
    assert_eq!(v, Value::Clamped { lo: 5, hi: 9, n: 5 });
    let v = default_value(&Ty::Struct(StructTy {
        name: "P".to_owned(),
        fields: vec![field("on", Ty::Bool), field("label", Ty::Text)],
    }));
    assert_eq!(
        v,
        struct_val(
            "P",
            vec![
                (field("on", Ty::Bool), Value::Bool(false)),
                (field("label", Ty::Text), Value::Text(String::new())),
            ],
        )
    );
}

#[test]
fn host_toggles_and_remaps_events() {
    let mut host = InspectorHost::new(400, 400);
    assert!(!host.is_editor_active);
    let out = host.process_event(Event::KeyPressed { code: KeyCode::I, ctrl: true, shift: true });
    assert!(host.is_editor_active);
    assert_eq!(out, Some(Event::Noop));

    host.target_rect = guiedit::host::TargetRect { left: 100, top: 0, width: 200, height: 200 };
    let out = host.process_event(Event::MouseMoved { x: 150, y: 50 });
    assert_eq!(out, Some(Event::MouseMoved { x: 100, y: 100 }));
    let out = host.process_event(Event::MouseMoved { x: 50, y: 50 });
    assert_eq!(out, Some(Event::Noop));
    let out = host.process_event(Event::Closed);
    assert_eq!(out, Some(Event::Closed));

    // A second toggle hides the editor again and mouse events pass
    // through unmapped.
    let _ = host.process_event(Event::KeyPressed { code: KeyCode::I, ctrl: true, shift: true });
    assert!(!host.is_editor_active);
    let out = host.process_event(Event::MouseMoved { x: 150, y: 50 });
    assert_eq!(out, Some(Event::MouseMoved { x: 150, y: 50 }));
}

#[test]
fn host_frame_selects_and_edits() {
    let mut host = InspectorHost::new(400, 400);
    let _ = host.process_event(Event::KeyPressed { code: KeyCode::I, ctrl: true, shift: true });

    // First frame: click the row of the `items` child.
    let clicked = child_id(0, 1);
    let (root, _ui) = host.display_and_inspect(scene(), Some(Action::ClickRow(clicked)));
    assert_eq!(host.active_node, Some(clicked));

    // Second frame: the detail panel shows the selected list; its first
    // drag box carries the panel's first editor ordinal.
    let (root, ui) = host.display_and_inspect(root, Some(Action::SetInt(0, 5)));
    assert!(ui.ops.contains(&WidgetOp::DragInt(1)));
    match &root {
        Value::StructVal(_, fields) => match &fields[1] {
            Value::List(_, items) => assert_eq!(items[0], Value::Int(5)),
            other => panic!("unexpected child: {:?}", other),
        },
        other => panic!("unexpected root: {:?}", other),
    }
}

#[test]
fn coordinate_mapping_is_exact() {
    let r = guiedit::util::map(
        Vec2 { x: 5, y: 5 },
        Vec2 { x: 0, y: 0 },
        Vec2 { x: 10, y: 10 },
        Vec2 { x: 0, y: 0 },
        Vec2 { x: 100, y: 100 },
    );
    assert_eq!(r, Vec2 { x: 50, y: 50 });

    let r = fit_aspect_ratio_in_size(16, 9, Vec2 { x: 1920, y: 1200 });
    assert_eq!(r, Vec2 { x: 1920, y: 1080 });
    let r = fit_aspect_ratio_in_size(16, 9, Vec2 { x: 1920, y: 1000 });
    assert_eq!(r, Vec2 { x: 1777, y: 1000 });
}

#[test]
fn capability_traits_drive_the_same_semantics() {
    // The trait methods behave exactly as the free functions do.
    let mut n: i64 = 7;
    let mut ui = Ui::new_frame(Some(Action::SetInt(0, 12)));
    n.inspect_ui(&mut ui);
    assert_eq!(n, 12);
    assert_eq!(ui.ops, vec![WidgetOp::DragInt(7)]);

    let mut flag = false;
    let mut ui = Ui::new_frame(Some(Action::SetBool(0, true)));
    flag.inspect_ui(&mut ui);
    assert!(flag);

    let mut text = String::from("ab");
    let mut ui = Ui::new_frame(Some(Action::SetText(0, "abc".to_owned())));
    text.inspect_ui(&mut ui);
    assert_eq!(text, "abc");

    let mut clamped = ClampedValue { lo: 0, hi: 10, value: 5 };
    let mut ui = Ui::new_frame(Some(Action::SetInt(0, -4)));
    clamped.inspect_ui(&mut ui);
    assert_eq!(clamped.value, 0);

    let mut frozen = ReadOnlyValue(Value::Int(3));
    let mut ui = Ui::new_frame(Some(Action::SetInt(0, 9)));
    frozen.inspect_ui(&mut ui);
    assert_eq!(frozen.0, Value::Int(3));

    let mut root = scene();
    let mut ui = Ui::new_frame(None);
    let mut sel: Option<u64> = Some(child_id(0, 0));
    root.node_ui(DisplayName::Named("root".to_owned()), 0, &mut sel, &mut ui);
    assert!(row_ids_of(&ui.ops).contains(&child_id(0, 0)));

    let mut ui = Ui::new_frame(Some(Action::SetInt(0, -5)));
    root.inspect_child(0, child_id(0, 0), &mut ui);
    match &root {
        Value::StructVal(_, fields) => match &fields[0] {
            Value::StructVal(_, inner) => assert_eq!(inner[0], Value::Int(-5)),
            other => panic!("unexpected child: {:?}", other),
        },
        other => panic!("unexpected root: {:?}", other),
    }
}

#[test]
fn default_row_helpers_render_and_select() {
    // A leaf row: selectable label plus a disabled type caption.
    let mut ui = Ui::new_frame(Some(Action::ClickRow(7)));
    let mut sel: Option<u64> = None;
    default_node_ui(
        "Sprite".to_owned(),
        DisplayName::Named("player".to_owned()),
        7,
        &mut sel,
        &mut ui,
    );
    assert_eq!(sel, Some(7));
    assert_eq!(
        ui.ops,
        vec![
            WidgetOp::LeafRow {
                id: 7,
                name: DisplayName::Named("player".to_owned()),
                selected: false,
            },
            WidgetOp::StaticText("Sprite".to_owned()),
        ]
    );

    // A parent row: collapsible header with the node's children as body.
    let root = scene();
    let mut ui = Ui::new_frame(None);
    let mut sel: Option<u64> = Some(0);
    default_parent_node_ui(&root, DisplayName::Named("root".to_owned()), 0, &mut sel, &mut ui);
    match &ui.ops[0] {
        WidgetOp::NodeStart { id: 0, selected: true, .. } => {}
        other => panic!("unexpected first widget: {:?}", other),
    }
    assert_eq!(ui.ops.last(), Some(&WidgetOp::NodeEnd));
}

#[test]
fn frame_without_root_shows_a_hint() {
    let mut host = InspectorHost::new(400, 400);
    let ui = host.display(None);
    assert_eq!(ui.ops, vec![]);
    let _ = host.process_event(Event::KeyPressed { code: KeyCode::I, ctrl: true, shift: true });
    let ui = host.display(None);
    assert_eq!(ui.ops.len(), 3);
    match &ui.ops[2] {
        WidgetOp::StaticText(_) => {}
        other => panic!("unexpected widget: {:?}", other),
    }
}
