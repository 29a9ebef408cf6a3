//! The code generator: from a type's compile-time shape to the
//! implementation it gets.
//!
//! Given the declaration of a struct or enum, the generator produces a
//! plan of the `Inspectable` (and, for structs, `TreeNode`) implementation
//! to emit: the wrapper-specialization cases, one labelled row per
//! non-ignored field, the variant selector with per-variant default
//! construction, and the tree children with their identity ordinals.
//! Rendering the plan into host-language source is mechanical and happens
//! outside the verified core; everything the emitted code *does* is
//! decided here.
//!
//! Union shapes cannot be rendered safely: generation fails with an error
//! naming the offending type.  Tree capability for enum shapes is a known
//! gap and is reported as unsupported.

use crate::specialization::{cases_view, SpecCase, SpecCaseV, Specialization};
use crate::ui::{DisplayName, NameV};
use vstd::prelude::*;

verus! {

broadcast use crate::specialization::lemma_cases_view_push;

/// One declared field of the input shape: its name (absent for tuple
/// fields) and whether it carries the ignore marker.
#[derive(Clone, Debug, PartialEq, Eq)]
pub struct FieldSpec {
    pub name: Option<String>,
    pub ignored: bool,
}

/// The field block of a struct or variant.
#[derive(Clone, Debug, PartialEq, Eq)]
pub enum FieldsShape {
    Named(Vec<FieldSpec>),
    Unnamed(Vec<FieldSpec>),
    Unit,
}

/// One declared variant of an enum shape.
#[derive(Clone, Debug, PartialEq, Eq)]
pub struct VariantShape {
    pub name: String,
    pub fields: FieldsShape,
}

/// The data of the input shape.
#[derive(Clone, Debug, PartialEq, Eq)]
pub enum DataShape {
    Struct(FieldsShape),
    Enum(Vec<VariantShape>),
    Union,
}

/// The declaration the generator works on: the type's name, its generic
/// parameters, and its data shape.
#[derive(Clone, Debug, PartialEq, Eq)]
pub struct TypeDef {
    pub ident: String,
    pub generics: Vec<String>,
    pub data: DataShape,
}

/// Why generation failed.  These are compile-time diagnostics: the build
/// stops, naming the offending type.
#[derive(Clone, Debug, PartialEq, Eq)]
pub enum GenError {
    /// Union shapes have no safe rendering.
    UnsupportedUnion(String),
    /// Tree capability for enum shapes is a known gap.
    EnumTreeUnsupported(String),
}

/// The destructuring pattern the generated code binds fields with.
#[derive(Clone, Debug, PartialEq, Eq)]
pub enum PatShape {
    /// `Path { a, b, .. }` for named fields.
    Struct(Vec<DisplayName>),
    /// `Path(f0, f1, ..)` for tuple fields.
    TupleStruct(Vec<DisplayName>),
    /// The bare path, for unit shapes.
    Path,
}

/// How the generated code accesses one field of `self`.
#[derive(Clone, Debug, PartialEq, Eq)]
pub enum FieldAccess {
    Named(String),
    Indexed(u32),
}

/// The plan of a generated `Inspectable` implementation.
#[derive(Clone, Debug, PartialEq, Eq)]
pub struct InspectablePlan {
    /// The implementing type.
    pub target: String,
    /// Generic parameters, each of which the emitted bounds require to be
    /// `Inspectable` itself.
    pub bounded_params: Vec<String>,
    /// The wrapper-specialization cases emitted next to the body.
    pub cases: Vec<SpecCase>,
    pub kind: PlanKind,
}

#[derive(Clone, Debug, PartialEq, Eq)]
pub enum PlanKind {
    Struct(StructPlan),
    Enum(EnumPlan),
}

/// The body plan for a struct shape.
#[derive(Clone, Debug, PartialEq, Eq)]
pub struct StructPlan {
    /// The generated `inspect_ui_outside` is emptied: a struct that is
    /// also a tree node is shown through the tree, not inline.
    pub outside_hidden: bool,
    /// The label of the group that wraps the field rows.
    pub group_label: String,
    /// One labelled dispatch row per non-ignored field, in declaration
    /// order.
    pub rows: Vec<DisplayName>,
}

/// The body plan for an enum shape.
#[derive(Clone, Debug, PartialEq, Eq)]
pub struct EnumPlan {
    /// The variant selector, one entry per variant in declaration order.
    pub selector: Vec<VariantSel>,
    /// The per-variant field rows, one arm per variant in order.
    pub arms: Vec<VariantArm>,
}

/// One selector entry: the variant's label and how the value is rebuilt
/// when the user switches to it.
#[derive(Clone, Debug, PartialEq, Eq)]
pub struct VariantSel {
    pub name: String,
    pub construction: DefaultConstruction,
}

/// The default construction of a switched-to variant: every field of the
/// new variant is built from its type's default.
#[derive(Clone, Debug, PartialEq, Eq)]
pub enum DefaultConstruction {
    /// `Self::V`
    Unit,
    /// `Self::V(Default::default(), ...)`, one default per field.
    Tuple(u64),
    /// `Self::V { a: Default::default(), ... }`, every named field.
    Named(Vec<String>),
}

/// One match arm of the enum body: the variant and its field rows.
#[derive(Clone, Debug, PartialEq, Eq)]
pub struct VariantArm {
    pub name: String,
    pub rows: Vec<DisplayName>,
}

/// The plan of a generated `TreeNode` implementation (struct shapes only).
#[derive(Clone, Debug, PartialEq, Eq)]
pub struct TreeNodePlan {
    pub target: String,
    pub bounded_params: Vec<String>,
    pub cases: Vec<SpecCase>,
    /// The tree children: each non-ignored field with its declared
    /// ordinal, which feeds the child-identity derivation, and its display
    /// name.
    pub children: Vec<ChildPlan>,
}

/// One tree child of a generated `TreeNode` implementation.
#[derive(Clone, Debug, PartialEq, Eq)]
pub struct ChildPlan {
    pub ordinal: u64,
    pub name: DisplayName,
}

/// The view of a name list.
pub open spec fn names_view(s: Seq<DisplayName>) -> Seq<NameV> {
    s.map(|i: int, n: DisplayName| n@)
}

/// Appending one name appends its view.
pub broadcast proof fn lemma_names_view_push(s: Seq<DisplayName>, n: DisplayName)
    ensures
        #[trigger] names_view(s.push(n)) == names_view(s).push(n@),
{
    assert(names_view(s.push(n)) =~= names_view(s).push(n@));
}

/// The declared name of a field, viewed.
pub open spec fn field_name_v(f: FieldSpec) -> Option<Seq<char>> {
    match f.name {
        Some(s) => Some(s@),
        None => None,
    }
}

/// The declared name of a field, with the empty name standing in where a
/// tuple field has none.
pub open spec fn field_name_or_empty(f: FieldSpec) -> Seq<char> {
    match field_name_v(f) {
        Some(s) => s,
        None => Seq::empty(),
    }
}

/// The bound identifiers of a named field block, ignored fields filtered
/// out, in declaration order.
pub open spec fn idents_named(fs: Seq<FieldSpec>) -> Seq<NameV>
    decreases fs,
{
    if fs.len() == 0 {
        Seq::empty()
    } else {
        let front = idents_named(fs.drop_last());
        if fs.last().ignored {
            front
        } else {
            front.push(
                NameV::Named(
                    match field_name_v(fs.last()) {
                        Some(s) => s,
                        None => Seq::empty(),
                    },
                ),
            )
        }
    }
}

/// The bound identifiers of a tuple field block: ignored fields filtered
/// out, the rest numbered by their position among the fields that remain.
pub open spec fn idents_unnamed(fs: Seq<FieldSpec>) -> Seq<NameV>
    decreases fs,
{
    if fs.len() == 0 {
        Seq::empty()
    } else {
        let front = idents_unnamed(fs.drop_last());
        if fs.last().ignored {
            front
        } else {
            front.push(NameV::Index(front.len() as u64))
        }
    }
}

/// The bound identifiers of any field block.
pub open spec fn idents_of(fields: FieldsShape) -> Seq<NameV> {
    match fields {
        FieldsShape::Named(fs) => idents_named(fs@),
        FieldsShape::Unnamed(fs) => idents_unnamed(fs@),
        FieldsShape::Unit => Seq::empty(),
    }
}

/// How a variant is rebuilt on switch: from every declared field's
/// default, ignored ones included.
pub open spec fn construction_matches(c: DefaultConstruction, fields: FieldsShape) -> bool {
    match fields {
        FieldsShape::Named(fs) => match c {
            DefaultConstruction::Named(names) => {
                &&& names.len() == fs@.len()
                &&& forall|i: int|
                    0 <= i < fs@.len() ==> (#[trigger] names@[i])@ == field_name_or_empty(fs@[i])
            },
            _ => false,
        },
        FieldsShape::Unnamed(fs) => c == DefaultConstruction::Tuple(fs@.len() as u64),
        FieldsShape::Unit => c == DefaultConstruction::Unit,
    }
}

/// The canonical path of the inspection capability trait, as the emitted
/// code names it.
pub fn inspectable_trait() -> (s: String)
    ensures
        s@ == "guiedit::inspectable::Inspectable"@,
{
    "guiedit::inspectable::Inspectable".to_owned()
}

/// The canonical path of the tree capability trait.
pub fn tree_node_trait() -> (s: String)
    ensures
        s@ == "guiedit::tree::TreeNode"@,
{
    "guiedit::tree::TreeNode".to_owned()
}

/// The canonical path of the drawing context type the emitted signatures
/// use.
pub fn egui_ui() -> (s: String)
    ensures
        s@ == "guiedit::ui::Ui"@,
{
    "guiedit::ui::Ui".to_owned()
}

/// How the generated code reads one field of `self`: by name where the
/// field has one, by position otherwise.
pub fn struct_field(field_ident: Option<String>, index: u32) -> (r: FieldAccess)
    ensures
        match field_ident {
            Some(name) => r == FieldAccess::Named(name),
            None => r == FieldAccess::Indexed(index),
        },
{
    match field_ident {
        Some(name) => FieldAccess::Named(name),
        None => FieldAccess::Indexed(index),
    }
}

/// Build the pattern that destructures all fields of a block, along with
/// the identifiers it binds.  Fields carrying the ignore marker are left
/// out of both.
pub fn destructure_fields(fields: &FieldsShape) -> (r: (PatShape, Vec<DisplayName>))
    ensures
        names_view(r.1@) == idents_of(*fields),
        match fields {
            FieldsShape::Named(_) => r.0 matches PatShape::Struct(b) && b@ == r.1@,
            FieldsShape::Unnamed(_) => r.0 matches PatShape::TupleStruct(b) && b@ == r.1@,
            FieldsShape::Unit => r.0 == PatShape::Path,
        },
{
    match fields {
        FieldsShape::Named(fs) => {
            let mut idents: Vec<DisplayName> = Vec::new();
            let n = fs.len();
            for i in 0..n
                invariant
                    n == fs.len(),
                    names_view(idents@) == idents_named(fs@.take(i as int)),
                decreases n - i,
            {
                proof {
                    assert(fs@.take((i + 1) as int).drop_last() =~= fs@.take(i as int));
                    assert(fs@.take((i + 1) as int).last() == fs@[i as int]);
                }
                if !fs[i].ignored {
                    let name = match &fs[i].name {
                        Some(s) => s.clone(),
                        None => String::new(),
                    };
                    idents.push(DisplayName::Named(name));
                }
            }
            proof {
                assert(fs@.take(n as int) =~= fs@);
            }
            let mut bound: Vec<DisplayName> = Vec::new();
            let m = idents.len();
            for i in 0..m
                invariant
                    m == idents.len(),
                    bound@ == idents@.take(i as int),
                decreases m - i,
            {
                let d = crate::shape::copy_name(&idents[i]);
                bound.push(d);
                proof {
                    assert(bound@ =~= idents@.take((i + 1) as int));
                }
            }
            proof {
                assert(bound@ =~= idents@);
            }
            (PatShape::Struct(bound), idents)
        },
        FieldsShape::Unnamed(fs) => {
            let mut idents: Vec<DisplayName> = Vec::new();
            let n = fs.len();
            for i in 0..n
                invariant
                    n == fs.len(),
                    idents@.len() <= i,
                    names_view(idents@) == idents_unnamed(fs@.take(i as int)),
                decreases n - i,
            {
                proof {
                    assert(fs@.take((i + 1) as int).drop_last() =~= fs@.take(i as int));
                    assert(fs@.take((i + 1) as int).last() == fs@[i as int]);
                    assert(names_view(idents@).len() == idents@.len());
                }
                if !fs[i].ignored {
                    idents.push(DisplayName::Index(idents.len() as u64));
                }
            }
            proof {
                assert(fs@.take(n as int) =~= fs@);
            }
            let mut bound: Vec<DisplayName> = Vec::new();
            let m = idents.len();
            for i in 0..m
                invariant
                    m == idents.len(),
                    bound@ == idents@.take(i as int),
                decreases m - i,
            {
                let d = crate::shape::copy_name(&idents[i]);
                bound.push(d);
                proof {
                    assert(bound@ =~= idents@.take((i + 1) as int));
                }
            }
            proof {
                assert(bound@ =~= idents@);
            }
            (PatShape::TupleStruct(bound), idents)
        },
        FieldsShape::Unit => (PatShape::Path, Vec::new()),
    }
}

/// The specialization cases of the inspection capability: the disabled
/// placeholder as the default, the forwarding implementation for types
/// that really are inspectable.
pub fn inspect_dispatch_cases() -> (r: Vec<SpecCase>)
    ensures
        cases_view(r@) =~= Seq::<SpecCaseV>::empty().push(
            SpecCaseV {
                trait_path: "guiedit::inspectable::Inspectable"@,
                wrap_depth: 1,
                bound: None,
                contents: "inspect_ui: disabled placeholder label"@,
            },
        ).push(
            SpecCaseV {
                trait_path: "guiedit::inspectable::Inspectable"@,
                wrap_depth: 2,
                bound: Some("guiedit::inspectable::Inspectable"@),
                contents: "inspect_ui, inspect_ui_outside: forward to the wrapped value"@,
            },
        ),
{
    let s = Specialization::new();
    let t = s.default_case(
        inspectable_trait(),
        "inspect_ui: disabled placeholder label".to_owned(),
    );
    let t = t.add_case_for_bounds(
        inspectable_trait(),
        "inspect_ui, inspect_ui_outside: forward to the wrapped value".to_owned(),
    );
    t.finish().build()
}

/// The specialization cases of the tree capability: a no-op row as the
/// default, full forwarding for types that really are tree nodes, plus
/// the inspection cases the tree bound requires.
pub fn tree_dispatch_cases() -> (r: Vec<SpecCase>)
    ensures
        cases_view(r@).len() == 4,
        cases_view(r@)[0] == (SpecCaseV {
            trait_path: "guiedit::tree::TreeNode"@,
            wrap_depth: 1,
            bound: None,
            contents: "inspect_child, node_ui: draw nothing"@,
        }),
        cases_view(r@)[1] == (SpecCaseV {
            trait_path: "guiedit::tree::TreeNode"@,
            wrap_depth: 2,
            bound: Some("guiedit::tree::TreeNode"@),
            contents: "inspect_child, node_ui, contents_ui: forward to the wrapped value"@,
        }),
        cases_view(r@)[2] == (SpecCaseV {
            trait_path: "guiedit::inspectable::Inspectable"@,
            wrap_depth: 1,
            bound: None,
            contents: "inspect_ui: draw nothing"@,
        }),
        cases_view(r@)[3] == (SpecCaseV {
            trait_path: "guiedit::inspectable::Inspectable"@,
            wrap_depth: 2,
            bound: Some("guiedit::inspectable::Inspectable"@),
            contents: "inspect_ui: forward to the wrapped value"@,
        }),
{
    let s = Specialization::new();
    let t = s.default_case(tree_node_trait(), "inspect_child, node_ui: draw nothing".to_owned());
    let t = t.add_case_for_bounds(
        tree_node_trait(),
        "inspect_child, node_ui, contents_ui: forward to the wrapped value".to_owned(),
    );
    let s = t.finish();
    let t = s.default_case(inspectable_trait(), "inspect_ui: draw nothing".to_owned());
    let t = t.add_case_for_bounds(
        inspectable_trait(),
        "inspect_ui: forward to the wrapped value".to_owned(),
    );
    t.finish().build()
}

/// The labelled dispatch rows of a field block: one per bound identifier,
/// in order, each routed through the wrapper chain.
pub fn inspect_ui_for_idents(parent_ident: String, idents: Vec<DisplayName>) -> (r: (
    Vec<SpecCase>,
    StructPlan,
))
    ensures
        cases_view(r.0@) == inspect_dispatch_cases_spec(),
        r.1.outside_hidden,
        r.1.group_label == parent_ident,
        names_view(r.1.rows@) == names_view(idents@),
{
    let cases = inspect_dispatch_cases();
    (cases, StructPlan { outside_hidden: true, group_label: parent_ident, rows: idents })
}

/// The view of a generic-parameter list.
pub open spec fn strs_view(s: Seq<String>) -> Seq<Seq<char>> {
    s.map(|i: int, x: String| x@)
}

/// Mathematical mirror of `ChildPlan`.
pub struct ChildV {
    pub ordinal: u64,
    pub name: NameV,
}

impl View for ChildPlan {
    type V = ChildV;

    open spec fn view(&self) -> ChildV {
        ChildV { ordinal: self.ordinal, name: self.name@ }
    }
}

/// The view of a tree-child list.
pub open spec fn children_view(s: Seq<ChildPlan>) -> Seq<ChildV> {
    s.map(|i: int, c: ChildPlan| c@)
}

/// Appending one child appends its view.
pub broadcast proof fn lemma_children_view_push(s: Seq<ChildPlan>, c: ChildPlan)
    ensures
        #[trigger] children_view(s.push(c)) == children_view(s).push(c@),
{
    assert(children_view(s.push(c)) =~= children_view(s).push(c@));
}

/// The tree children of a field block: every non-ignored field, under its
/// declared ordinal (ignored fields keep their ordinal reserved, so
/// identities stay stable when a field is ignored later).
pub open spec fn children_of_fields(fs: Seq<FieldSpec>, named: bool) -> Seq<ChildV>
    decreases fs,
{
    if fs.len() == 0 {
        Seq::empty()
    } else {
        let front = children_of_fields(fs.drop_last(), named);
        if fs.last().ignored {
            front
        } else {
            front.push(
                ChildV {
                    ordinal: (fs.len() - 1) as u64,
                    name: if named {
                        NameV::Named(
                            match field_name_v(fs.last()) {
                                Some(s) => s,
                                None => Seq::empty(),
                            },
                        )
                    } else {
                        NameV::Index((fs.len() - 1) as u64)
                    },
                },
            )
        }
    }
}

/// The tree children of any field block.
pub open spec fn children_of(fields: FieldsShape) -> Seq<ChildV> {
    match fields {
        FieldsShape::Named(fs) => children_of_fields(fs@, true),
        FieldsShape::Unnamed(fs) => children_of_fields(fs@, false),
        FieldsShape::Unit => Seq::empty(),
    }
}

/// Generate the `Inspectable` implementation plan of a struct shape: all
/// fields grouped under the type's label, each non-ignored field as a
/// labelled dispatch row, and the inline rendering hidden because the
/// derived struct is shown through the tree.
pub fn derive_struct(fields: FieldsShape, generics: Vec<String>, ident: String) -> (plan:
    InspectablePlan)
    ensures
        plan.target == ident,
        plan.bounded_params == generics,
        cases_view(plan.cases@) == inspect_dispatch_cases_spec(),
        plan.kind matches PlanKind::Struct(sp) && sp.outside_hidden && sp.group_label@ == ident@
            && names_view(sp.rows@) == idents_of(fields),
{
    let (_pat, idents) = destructure_fields(&fields);
    let (cases, sp) = inspect_ui_for_idents(ident.clone(), idents);
    InspectablePlan {
        target: ident,
        bounded_params: generics,
        cases,
        kind: PlanKind::Struct(sp),
    }
}

/// Generate the `Inspectable` implementation plan of an enum shape: a
/// variant selector whose entries rebuild the value from field defaults,
/// and one arm of labelled field rows per variant.
pub fn derive_enum(variants: Vec<VariantShape>, generics: Vec<String>, ident: String) -> (plan:
    InspectablePlan)
    ensures
        plan.target == ident,
        plan.bounded_params == generics,
        cases_view(plan.cases@) == inspect_dispatch_cases_spec(),
        plan.kind matches PlanKind::Enum(ep) && {
            &&& ep.selector@.len() == variants@.len()
            &&& forall|i: int|
                0 <= i < variants@.len() ==> (#[trigger] ep.selector@[i]).name@
                    == variants@[i].name@ && construction_matches(
                    ep.selector@[i].construction,
                    variants@[i].fields,
                )
            &&& ep.arms@.len() == variants@.len()
            &&& forall|i: int|
                0 <= i < variants@.len() ==> (#[trigger] ep.arms@[i]).name@ == variants@[i].name@
                    && names_view(ep.arms@[i].rows@) == idents_of(variants@[i].fields)
        },
{
    let cases = inspect_dispatch_cases();
    let mut selector: Vec<VariantSel> = Vec::new();
    let mut arms: Vec<VariantArm> = Vec::new();
    let n = variants.len();
    for i in 0..n
        invariant
            n == variants.len(),
            selector@.len() == i,
            arms@.len() == i,
            forall|j: int|
                0 <= j < i ==> (#[trigger] selector@[j]).name@ == variants@[j].name@
                    && construction_matches(selector@[j].construction, variants@[j].fields),
            forall|j: int|
                0 <= j < i ==> (#[trigger] arms@[j]).name@ == variants@[j].name@ && names_view(
                    arms@[j].rows@,
                ) == idents_of(variants@[j].fields),
        decreases n - i,
    {
        let construction = match &variants[i].fields {
            FieldsShape::Named(fs) => {
                let mut names: Vec<String> = Vec::new();
                let m = fs.len();
                for j in 0..m
                    invariant
                        m == fs.len(),
                        names@.len() == j,
                        forall|q: int|
                            0 <= q < j ==> (#[trigger] names@[q])@ == field_name_or_empty(fs@[q]),
                    decreases m - j,
                {
                    let name = match &fs[j].name {
                        Some(s) => s.clone(),
                        None => String::new(),
                    };
                    names.push(name);
                }
                DefaultConstruction::Named(names)
            },
            FieldsShape::Unnamed(fs) => DefaultConstruction::Tuple(fs.len() as u64),
            FieldsShape::Unit => DefaultConstruction::Unit,
        };
        let sel = VariantSel { name: variants[i].name.clone(), construction };
        selector.push(sel);
        let (_pat, rows) = destructure_fields(&variants[i].fields);
        let arm = VariantArm { name: variants[i].name.clone(), rows };
        arms.push(arm);
    }
    InspectablePlan {
        target: ident,
        bounded_params: generics,
        cases,
        kind: PlanKind::Enum(EnumPlan { selector, arms }),
    }
}

/// The entry point of the `Inspectable` derivation: dispatch on the data
/// shape.  A union shape has no safe rendering: generation fails, naming
/// the offending type.
pub fn derive_inspectable(input: TypeDef) -> (r: Result<InspectablePlan, GenError>)
    ensures
        r is Err <==> input.data is Union,
        input.data is Union ==> r == Result::<InspectablePlan, GenError>::Err(
            GenError::UnsupportedUnion(input.ident),
        ),
        r matches Ok(plan) ==> {
            &&& plan.target == input.ident
            &&& plan.bounded_params == input.generics
            &&& cases_view(plan.cases@) == inspect_dispatch_cases_spec()
            &&& (input.data matches DataShape::Struct(fields) ==> plan.kind
                matches PlanKind::Struct(sp) && sp.outside_hidden && sp.group_label@
                == input.ident@ && names_view(sp.rows@) == idents_of(fields))
            &&& (input.data matches DataShape::Enum(variants) ==> plan.kind
                matches PlanKind::Enum(ep) && {
                &&& ep.selector@.len() == variants@.len()
                &&& forall|i: int|
                    0 <= i < variants@.len() ==> (#[trigger] ep.selector@[i]).name@
                        == variants@[i].name@ && construction_matches(
                        ep.selector@[i].construction,
                        variants@[i].fields,
                    )
                &&& ep.arms@.len() == variants@.len()
                &&& forall|i: int|
                    0 <= i < variants@.len() ==> (#[trigger] ep.arms@[i]).name@
                        == variants@[i].name@ && names_view(ep.arms@[i].rows@) == idents_of(
                        variants@[i].fields,
                    )
            })
        },
{
    match input.data {
        DataShape::Struct(fields) => Ok(derive_struct(fields, input.generics, input.ident)),
        DataShape::Enum(variants) => Ok(derive_enum(variants, input.generics, input.ident)),
        DataShape::Union => Err(GenError::UnsupportedUnion(input.ident)),
    }
}

/// The entry point of the `TreeNode` derivation.  Struct shapes get the
/// full plan; tree capability for enum shapes is a known gap, and union
/// shapes are rejected as everywhere.
pub fn derive_tree_node(input: TypeDef) -> (r: Result<TreeNodePlan, GenError>)
    ensures
        r is Ok <==> input.data is Struct,
        input.data is Union ==> r == Result::<TreeNodePlan, GenError>::Err(
            GenError::UnsupportedUnion(input.ident),
        ),
        input.data is Enum ==> r == Result::<TreeNodePlan, GenError>::Err(
            GenError::EnumTreeUnsupported(input.ident),
        ),
        r matches Ok(plan) ==> {
            &&& plan.target == input.ident
            &&& plan.bounded_params == input.generics
            &&& cases_view(plan.cases@).len() == 4
            &&& (input.data matches DataShape::Struct(fields) ==> children_view(plan.children@)
                == children_of(fields))
        },
{
    match input.data {
        DataShape::Struct(fields) => {
            let cases = tree_dispatch_cases();
            let mut children: Vec<ChildPlan> = Vec::new();
            match &fields {
                FieldsShape::Named(fs) => {
                    let n = fs.len();
                    for i in 0..n
                        invariant
                            n == fs.len(),
                            children_view(children@) == children_of_fields(
                                fs@.take(i as int),
                                true,
                            ),
                        decreases n - i,
                    {
                        proof {
                            assert(fs@.take((i + 1) as int).drop_last() =~= fs@.take(i as int));
                            assert(fs@.take((i + 1) as int).last() == fs@[i as int]);
                        }
                        if !fs[i].ignored {
                            let name = match &fs[i].name {
                                Some(s) => s.clone(),
                                None => String::new(),
                            };
                            let c = ChildPlan { ordinal: i as u64, name: DisplayName::Named(name) };
                            children.push(c);
                        }
                    }
                    proof {
                        assert(fs@.take(n as int) =~= fs@);
                    }
                },
                FieldsShape::Unnamed(fs) => {
                    let n = fs.len();
                    for i in 0..n
                        invariant
                            n == fs.len(),
                            children_view(children@) == children_of_fields(
                                fs@.take(i as int),
                                false,
                            ),
                        decreases n - i,
                    {
                        proof {
                            assert(fs@.take((i + 1) as int).drop_last() =~= fs@.take(i as int));
                            assert(fs@.take((i + 1) as int).last() == fs@[i as int]);
                        }
                        if !fs[i].ignored {
                            let c = ChildPlan { ordinal: i as u64, name: DisplayName::Index(
                                i as u64,
                            ) };
                            children.push(c);
                        }
                    }
                    proof {
                        assert(fs@.take(n as int) =~= fs@);
                    }
                },
                FieldsShape::Unit => {},
            }
            Ok(TreeNodePlan {
                target: input.ident,
                bounded_params: input.generics,
                cases,
                children,
            })
        },
        DataShape::Enum(_) => Err(GenError::EnumTreeUnsupported(input.ident)),
        DataShape::Union => Err(GenError::UnsupportedUnion(input.ident)),
    }
}

/// The cases `inspect_dispatch_cases` emits, as a value.
pub open spec fn inspect_dispatch_cases_spec() -> Seq<SpecCaseV> {
    Seq::<SpecCaseV>::empty().push(
        SpecCaseV {
            trait_path: "guiedit::inspectable::Inspectable"@,
            wrap_depth: 1,
            bound: None,
            contents: "inspect_ui: disabled placeholder label"@,
        },
    ).push(
        SpecCaseV {
            trait_path: "guiedit::inspectable::Inspectable"@,
            wrap_depth: 2,
            bound: Some("guiedit::inspectable::Inspectable"@),
            contents: "inspect_ui, inspect_ui_outside: forward to the wrapped value"@,
        },
    )
}

} // verus!
