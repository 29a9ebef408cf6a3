//! The code generator on the type shapes the derive layer is used with.

use guiedit::codegen::{
    derive_inspectable, derive_tree_node, destructure_fields, struct_field, DataShape,
    DefaultConstruction, FieldAccess, FieldSpec, FieldsShape, GenError, PatShape, PlanKind,
    TypeDef, VariantShape,
};
use guiedit::ui::DisplayName;

fn named(name: &str, ignored: bool) -> FieldSpec {
    FieldSpec { name: Some(name.to_owned()), ignored }
}

fn unnamed(ignored: bool) -> FieldSpec {
    FieldSpec { name: None, ignored }
}

#[test]
fn test_proc_macro() {
    let my_struct = TypeDef {
        ident: "MyStruct".to_owned(),
        generics: vec![],
        data: DataShape::Struct(FieldsShape::Named(vec![
            named("my_enum", false),
            named("my_number", false),
        ])),
    };
    let plan = derive_inspectable(my_struct).unwrap();
    assert_eq!(plan.target, "MyStruct");
    match plan.kind {
        PlanKind::Struct(sp) => {
            assert!(sp.outside_hidden);
            assert_eq!(
                sp.rows,
                vec![
                    DisplayName::Named("my_enum".to_owned()),
                    DisplayName::Named("my_number".to_owned()),
                ]
            );
        }
        PlanKind::Enum(_) => panic!("struct shape got an enum plan"),
    }

    let my_enum = TypeDef {
        ident: "MyEnum".to_owned(),
        generics: vec![],
        data: DataShape::Enum(vec![
            VariantShape { name: "Unit".to_owned(), fields: FieldsShape::Unit },
            VariantShape {
                name: "TupleNumber".to_owned(),
                fields: FieldsShape::Unnamed(vec![unnamed(false)]),
            },
        ]),
    };
    let plan = derive_inspectable(my_enum).unwrap();
    assert_eq!(plan.target, "MyEnum");
    match plan.kind {
        PlanKind::Enum(ep) => {
            assert_eq!(ep.selector.len(), 2);
            assert_eq!(ep.selector[0].name, "Unit");
            assert_eq!(ep.selector[0].construction, DefaultConstruction::Unit);
            assert_eq!(ep.selector[1].name, "TupleNumber");
            assert_eq!(ep.selector[1].construction, DefaultConstruction::Tuple(1));
        }
        PlanKind::Struct(_) => panic!("enum shape got a struct plan"),
    }
}

#[test]
fn test_enums() {
    let shape = TypeDef {
        ident: "Enum".to_owned(),
        generics: vec![],
        data: DataShape::Enum(vec![
            VariantShape { name: "Unit".to_owned(), fields: FieldsShape::Unit },
            VariantShape {
                name: "Tuple".to_owned(),
                fields: FieldsShape::Unnamed(vec![unnamed(false), unnamed(false)]),
            },
            VariantShape {
                name: "Named".to_owned(),
                fields: FieldsShape::Named(vec![
                    named("value", false),
                    named("ignored", true),
                ]),
            },
        ]),
    };
    let plan = derive_inspectable(shape).unwrap();
    match plan.kind {
        PlanKind::Enum(ep) => {
            // The selector rebuilds every declared field, ignored ones
            // included; the rows leave the ignored field out.
            assert_eq!(
                ep.selector[2].construction,
                DefaultConstruction::Named(vec!["value".to_owned(), "ignored".to_owned()])
            );
            assert_eq!(ep.arms[2].rows, vec![DisplayName::Named("value".to_owned())]);
            assert_eq!(
                ep.arms[1].rows,
                vec![DisplayName::Index(0), DisplayName::Index(1)]
            );
            assert_eq!(ep.arms[0].rows, vec![]);
        }
        PlanKind::Struct(_) => panic!("enum shape got a struct plan"),
    }

    let with_generics = TypeDef {
        ident: "EnumWithGenerics".to_owned(),
        generics: vec!["MaybeInspectable".to_owned()],
        data: DataShape::Enum(vec![
            VariantShape { name: "Unit".to_owned(), fields: FieldsShape::Unit },
            VariantShape {
                name: "Tuple".to_owned(),
                fields: FieldsShape::Unnamed(vec![unnamed(false), unnamed(true)]),
            },
            VariantShape {
                name: "Named".to_owned(),
                fields: FieldsShape::Named(vec![named("value", false)]),
            },
        ]),
    };
    let plan = derive_inspectable(with_generics).unwrap();
    assert_eq!(plan.bounded_params, vec!["MaybeInspectable".to_owned()]);
    match plan.kind {
        PlanKind::Enum(ep) => {
            // The ignored tuple slot is filtered; the remaining slot is
            // numbered among what remains.
            assert_eq!(ep.arms[1].rows, vec![DisplayName::Index(0)]);
            // The switch construction still fills both declared slots.
            assert_eq!(ep.selector[1].construction, DefaultConstruction::Tuple(2));
        }
        PlanKind::Struct(_) => panic!("enum shape got a struct plan"),
    }
}

#[test]
fn structures_test_structures() {
    let unit = TypeDef {
        ident: "UnitStruct".to_owned(),
        generics: vec![],
        data: DataShape::Struct(FieldsShape::Unit),
    };
    let plan = derive_inspectable(unit).unwrap();
    match plan.kind {
        PlanKind::Struct(sp) => assert_eq!(sp.rows, vec![]),
        PlanKind::Enum(_) => panic!("struct shape got an enum plan"),
    }

    let tuple = TypeDef {
        ident: "TupleStruct".to_owned(),
        generics: vec![],
        data: DataShape::Struct(FieldsShape::Unnamed(vec![unnamed(false)])),
    };
    let plan = derive_inspectable(tuple).unwrap();
    match plan.kind {
        PlanKind::Struct(sp) => assert_eq!(sp.rows, vec![DisplayName::Index(0)]),
        PlanKind::Enum(_) => panic!("struct shape got an enum plan"),
    }

    let no_members = TypeDef {
        ident: "NamedStructNoMembers".to_owned(),
        generics: vec![],
        data: DataShape::Struct(FieldsShape::Named(vec![])),
    };
    let plan = derive_inspectable(no_members).unwrap();
    match plan.kind {
        PlanKind::Struct(sp) => assert_eq!(sp.rows, vec![]),
        PlanKind::Enum(_) => panic!("struct shape got an enum plan"),
    }

    let named_struct = TypeDef {
        ident: "NamedStruct".to_owned(),
        generics: vec![],
        data: DataShape::Struct(FieldsShape::Named(vec![
            named("inner_ref", false),
            named("inner", true),
            named("my_number", false),
        ])),
    };
    let plan = derive_inspectable(named_struct).unwrap();
    match plan.kind {
        PlanKind::Struct(sp) => {
            assert_eq!(
                sp.rows,
                vec![
                    DisplayName::Named("inner_ref".to_owned()),
                    DisplayName::Named("my_number".to_owned()),
                ]
            );
        }
        PlanKind::Enum(_) => panic!("struct shape got an enum plan"),
    }
}

#[test]
fn structures_treenode_test_structures() {
    let unit = TypeDef {
        ident: "UnitStruct".to_owned(),
        generics: vec![],
        data: DataShape::Struct(FieldsShape::Unit),
    };
    let plan = derive_tree_node(unit).unwrap();
    assert_eq!(plan.children.len(), 0);
    assert_eq!(plan.cases.len(), 4);

    let tuple = TypeDef {
        ident: "TupleStruct".to_owned(),
        generics: vec![],
        data: DataShape::Struct(FieldsShape::Unnamed(vec![unnamed(false)])),
    };
    let plan = derive_tree_node(tuple).unwrap();
    assert_eq!(plan.children.len(), 1);
    assert_eq!(plan.children[0].ordinal, 0);
    assert_eq!(plan.children[0].name, DisplayName::Index(0));

    let named_struct = TypeDef {
        ident: "NamedStruct".to_owned(),
        generics: vec![],
        data: DataShape::Struct(FieldsShape::Named(vec![
            named("inner_ref", false),
            named("inner", false),
            named("my_number", false),
        ])),
    };
    let plan = derive_tree_node(named_struct).unwrap();
    assert_eq!(plan.children.len(), 3);
    assert_eq!(plan.children[1].ordinal, 1);
    assert_eq!(plan.children[1].name, DisplayName::Named("inner".to_owned()));
}

#[test]
fn union_shapes_are_rejected() {
    let u = TypeDef {
        ident: "Untagged".to_owned(),
        generics: vec![],
        data: DataShape::Union,
    };
    assert_eq!(
        derive_inspectable(u),
        Err(GenError::UnsupportedUnion("Untagged".to_owned()))
    );
    let u = TypeDef {
        ident: "Untagged".to_owned(),
        generics: vec![],
        data: DataShape::Union,
    };
    assert_eq!(
        derive_tree_node(u),
        Err(GenError::UnsupportedUnion("Untagged".to_owned()))
    );
}

#[test]
fn enum_tree_capability_is_a_gap() {
    let e = TypeDef {
        ident: "SomeEnum".to_owned(),
        generics: vec![],
        data: DataShape::Enum(vec![VariantShape {
            name: "Unit".to_owned(),
            fields: FieldsShape::Unit,
        }]),
    };
    assert_eq!(
        derive_tree_node(e),
        Err(GenError::EnumTreeUnsupported("SomeEnum".to_owned()))
    );
}

#[test]
fn destructuring_skips_ignored_and_renumbers() {
    let fields = FieldsShape::Unnamed(vec![
        unnamed(false),
        unnamed(true),
        unnamed(false),
    ]);
    let (pat, idents) = destructure_fields(&fields);
    // Positions are assigned among the fields that remain after
    // filtering, as the generated binder names are.
    assert_eq!(idents, vec![DisplayName::Index(0), DisplayName::Index(1)]);
    match pat {
        PatShape::TupleStruct(bound) => assert_eq!(bound, idents),
        _ => panic!("tuple fields must destructure with a tuple pattern"),
    }

    let fields = FieldsShape::Named(vec![named("a", false), named("b", true)]);
    let (pat, idents) = destructure_fields(&fields);
    assert_eq!(idents, vec![DisplayName::Named("a".to_owned())]);
    match pat {
        PatShape::Struct(bound) => assert_eq!(bound, idents),
        _ => panic!("named fields must destructure with a struct pattern"),
    }

    let (pat, idents) = destructure_fields(&FieldsShape::Unit);
    assert_eq!(idents, vec![]);
    assert_eq!(pat, PatShape::Path);
}

#[test]
fn field_access_by_name_or_position() {
    assert_eq!(
        struct_field(Some("speed".to_owned()), 3),
        FieldAccess::Named("speed".to_owned())
    );
    assert_eq!(struct_field(None, 3), FieldAccess::Indexed(3));
}
