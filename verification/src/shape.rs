//! The shape of an inspectable type.
//!
//! All structural knowledge of a user type is fixed at compile time: which
//! fields a struct has, which variants an enum has, which fields are marked
//! as ignored, and what each field's type is.  The code generator walks
//! this shape; the runtime carries it alongside the values so that variant
//! switching can construct the default value of every field of the newly
//! chosen variant.
//!
//! Each declaration type has a mathematical mirror (its view) in which
//! strings are character sequences and vectors are sequences; contracts are
//! stated over the mirrors.

use crate::ui::{DisplayName, NameV};
use vstd::prelude::*;

verus! {

/// The type of an inspectable value.
#[derive(Debug, PartialEq, Eq)]
pub enum Ty {
    /// A numeric value, edited with a drag box.
    Int,
    /// A boolean, edited with a checkbox.
    Bool,
    /// A string, edited with a single-line text box.
    Text,
    /// A duration in whole seconds, edited numerically and clamped at zero.
    Seconds,
    /// A filesystem path, shown read-only.
    Pathname,
    /// A type that offers neither capability; rendered as an inert
    /// placeholder.
    Opaque,
    /// A numeric value confined to an inclusive range.
    Clamped(i64, i64),
    /// A read-only view of an inner value: rendered disabled, never edited.
    ReadOnly(Box<Ty>),
    /// A growable sequence; every element has the inner type.
    List(Box<Ty>),
    /// An optional value of the inner type.
    Opt(Box<Ty>),
    /// A struct with the given declaration.
    Struct(StructTy),
    /// An enum with the given declaration.
    Enum(EnumTy),
}

/// One declared field of a struct or of an enum variant.
#[derive(Debug, PartialEq, Eq)]
pub struct FieldDecl {
    /// The declared name, or the position for a tuple field.
    pub name: DisplayName,
    /// A field marked as ignored is never drawn and never searchable.
    pub ignored: bool,
    /// The field's type.
    pub ty: Ty,
}

/// The declaration of a struct shape.
#[derive(Debug, PartialEq, Eq)]
pub struct StructTy {
    pub name: String,
    pub fields: Vec<FieldDecl>,
}

/// The declaration of one enum variant.
#[derive(Debug, PartialEq, Eq)]
pub struct VariantTy {
    pub name: String,
    pub fields: Vec<FieldDecl>,
}

/// The declaration of an enum shape.
#[derive(Debug, PartialEq, Eq)]
pub struct EnumTy {
    pub name: String,
    pub variants: Vec<VariantTy>,
}

/// Mathematical mirror of `Ty`.
pub enum TyV {
    Int,
    Bool,
    Text,
    Seconds,
    Pathname,
    Opaque,
    Clamped(i64, i64),
    ReadOnly(Box<TyV>),
    List(Box<TyV>),
    Opt(Box<TyV>),
    Struct(StructTyV),
    Enum(EnumTyV),
}

/// Mathematical mirror of `FieldDecl`.
pub struct FieldDeclV {
    pub name: NameV,
    pub ignored: bool,
    pub ty: TyV,
}

/// Mathematical mirror of `StructTy`.
pub struct StructTyV {
    pub name: Seq<char>,
    pub fields: Seq<FieldDeclV>,
}

/// Mathematical mirror of `VariantTy`.
pub struct VariantTyV {
    pub name: Seq<char>,
    pub fields: Seq<FieldDeclV>,
}

/// Mathematical mirror of `EnumTy`.
pub struct EnumTyV {
    pub name: Seq<char>,
    pub variants: Seq<VariantTyV>,
}

pub open spec fn ty_view(t: Ty) -> TyV
    decreases t,
{
    match t {
        Ty::Int => TyV::Int,
        Ty::Bool => TyV::Bool,
        Ty::Text => TyV::Text,
        Ty::Seconds => TyV::Seconds,
        Ty::Pathname => TyV::Pathname,
        Ty::Opaque => TyV::Opaque,
        Ty::Clamped(lo, hi) => TyV::Clamped(lo, hi),
        Ty::ReadOnly(inner) => TyV::ReadOnly(Box::new(ty_view(*inner))),
        Ty::List(inner) => TyV::List(Box::new(ty_view(*inner))),
        Ty::Opt(inner) => TyV::Opt(Box::new(ty_view(*inner))),
        Ty::Struct(st) => TyV::Struct(
            StructTyV { name: st.name@, fields: decls_view(st.fields@) },
        ),
        Ty::Enum(et) => TyV::Enum(
            EnumTyV { name: et.name@, variants: variants_view(et.variants@) },
        ),
    }
}

pub open spec fn decl_view(f: FieldDecl) -> FieldDeclV
    decreases f,
{
    FieldDeclV { name: f.name@, ignored: f.ignored, ty: ty_view(f.ty) }
}

pub open spec fn decls_view(fs: Seq<FieldDecl>) -> Seq<FieldDeclV>
    decreases fs,
{
    if fs.len() == 0 {
        Seq::empty()
    } else {
        decls_view(fs.drop_last()).push(decl_view(fs.last()))
    }
}

pub open spec fn variants_view(vs: Seq<VariantTy>) -> Seq<VariantTyV>
    decreases vs,
{
    if vs.len() == 0 {
        Seq::empty()
    } else {
        variants_view(vs.drop_last()).push(
            VariantTyV { name: vs.last().name@, fields: decls_view(vs.last().fields@) },
        )
    }
}

impl View for Ty {
    type V = TyV;

    open spec fn view(&self) -> TyV {
        ty_view(*self)
    }
}

impl View for FieldDecl {
    type V = FieldDeclV;

    open spec fn view(&self) -> FieldDeclV {
        decl_view(*self)
    }
}

impl View for StructTy {
    type V = StructTyV;

    open spec fn view(&self) -> StructTyV {
        StructTyV { name: self.name@, fields: decls_view(self.fields@) }
    }
}

impl View for VariantTy {
    type V = VariantTyV;

    open spec fn view(&self) -> VariantTyV {
        VariantTyV { name: self.name@, fields: decls_view(self.fields@) }
    }
}

impl View for EnumTy {
    type V = EnumTyV;

    open spec fn view(&self) -> EnumTyV {
        EnumTyV { name: self.name@, variants: variants_view(self.variants@) }
    }
}

/// The view of a field list indexes pointwise.
pub proof fn lemma_decls_view_len(fs: Seq<FieldDecl>)
    ensures
        decls_view(fs).len() == fs.len(),
        forall|i: int| 0 <= i < fs.len() ==> #[trigger] decls_view(fs)[i] == decl_view(fs[i]),
    decreases fs,
{
    if fs.len() > 0 {
        lemma_decls_view_len(fs.drop_last());
        assert forall|i: int| 0 <= i < fs.len() implies #[trigger] decls_view(fs)[i] == decl_view(
            fs[i],
        ) by {
            if i < fs.len() - 1 {
                assert(fs.drop_last()[i] == fs[i]);
            } else {
                assert(fs[i] == fs.last());
            }
        }
    }
}

/// The view of a variant list indexes pointwise.
pub proof fn lemma_variants_view_len(vs: Seq<VariantTy>)
    ensures
        variants_view(vs).len() == vs.len(),
        forall|i: int|
            0 <= i < vs.len() ==> #[trigger] variants_view(vs)[i] == (VariantTyV {
                name: vs[i].name@,
                fields: decls_view(vs[i].fields@),
            }),
    decreases vs,
{
    if vs.len() > 0 {
        lemma_variants_view_len(vs.drop_last());
        assert forall|i: int| 0 <= i < vs.len() implies #[trigger] variants_view(vs)[i]
            == (VariantTyV { name: vs[i].name@, fields: decls_view(vs[i].fields@) }) by {
            if i < vs.len() - 1 {
                assert(vs.drop_last()[i] == vs[i]);
            } else {
                assert(vs[i] == vs.last());
            }
        }
    }
}

/// Well-formedness of a type declaration: clamp ranges are ordered and
/// every enum has at least one variant (the variant selector falls back to
/// it when switching).
pub open spec fn ty_wf(t: TyV) -> bool
    decreases t,
{
    match t {
        TyV::Int => true,
        TyV::Bool => true,
        TyV::Text => true,
        TyV::Seconds => true,
        TyV::Pathname => true,
        TyV::Opaque => true,
        TyV::Clamped(lo, hi) => lo <= hi,
        TyV::ReadOnly(inner) => ty_wf(*inner),
        TyV::List(inner) => ty_wf(*inner),
        TyV::Opt(inner) => ty_wf(*inner),
        TyV::Struct(st) => fields_wf(st.fields),
        TyV::Enum(et) => et.variants.len() > 0 && variants_wf(et.variants),
    }
}

/// Well-formedness of a field list.
pub open spec fn fields_wf(fs: Seq<FieldDeclV>) -> bool
    decreases fs,
{
    if fs.len() == 0 {
        true
    } else {
        fields_wf(fs.drop_last()) && ty_wf(fs.last().ty)
    }
}

/// Well-formedness of a variant list.
pub open spec fn variants_wf(vs: Seq<VariantTyV>) -> bool
    decreases vs,
{
    if vs.len() == 0 {
        true
    } else {
        variants_wf(vs.drop_last()) && fields_wf(vs.last().fields)
    }
}

/// Every member type of a well-formed field list is well-formed.
pub proof fn lemma_fields_wf_index(fs: Seq<FieldDeclV>, i: int)
    requires
        fields_wf(fs),
        0 <= i < fs.len(),
    ensures
        ty_wf(fs[i].ty),
    decreases fs.len(),
{
    if i + 1 == fs.len() {
        assert(fs.last() == fs[i]);
    } else {
        lemma_fields_wf_index(fs.drop_last(), i);
        assert(fs.drop_last()[i] == fs[i]);
    }
}

/// Every member of a well-formed variant list has a well-formed field list.
pub proof fn lemma_variants_wf_index(vs: Seq<VariantTyV>, i: int)
    requires
        variants_wf(vs),
        0 <= i < vs.len(),
    ensures
        fields_wf(vs[i].fields),
    decreases vs.len(),
{
    if i + 1 == vs.len() {
        assert(vs.last() == vs[i]);
    } else {
        lemma_variants_wf_index(vs.drop_last(), i);
        assert(vs.drop_last()[i] == vs[i]);
    }
}

/// A verified deep copy of a type declaration.
pub fn copy_ty(t: &Ty) -> (r: Ty)
    ensures
        r@ == t@,
    decreases *t,
{
    match t {
        Ty::Int => Ty::Int,
        Ty::Bool => Ty::Bool,
        Ty::Text => Ty::Text,
        Ty::Seconds => Ty::Seconds,
        Ty::Pathname => Ty::Pathname,
        Ty::Opaque => Ty::Opaque,
        Ty::Clamped(lo, hi) => Ty::Clamped(*lo, *hi),
        Ty::ReadOnly(inner) => Ty::ReadOnly(Box::new(copy_ty(inner))),
        Ty::List(inner) => Ty::List(Box::new(copy_ty(inner))),
        Ty::Opt(inner) => Ty::Opt(Box::new(copy_ty(inner))),
        Ty::Struct(st) => Ty::Struct(copy_struct_ty(st)),
        Ty::Enum(et) => Ty::Enum(copy_enum_ty(et)),
    }
}

/// A verified deep copy of a display name.
pub fn copy_name(n: &DisplayName) -> (r: DisplayName)
    ensures
        r == *n,
{
    match n {
        DisplayName::Named(s) => DisplayName::Named(s.clone()),
        DisplayName::Index(i) => DisplayName::Index(*i),
    }
}

/// A verified deep copy of a field list.
pub fn copy_decls(fs: &Vec<FieldDecl>) -> (r: Vec<FieldDecl>)
    ensures
        decls_view(r@) == decls_view(fs@),
    decreases *fs,
{
    let mut r: Vec<FieldDecl> = Vec::new();
    let n = fs.len();
    for i in 0..n
        invariant
            n == fs.len(),
            r@.len() == i,
            forall|j: int| 0 <= j < i ==> (#[trigger] r@[j])@ == fs@[j]@,
        decreases n - i,
    {
        let f = FieldDecl {
            name: copy_name(&fs[i].name),
            ignored: fs[i].ignored,
            ty: copy_ty(&fs[i].ty),
        };
        r.push(f);
    }
    proof {
        lemma_decls_view_len(r@);
        lemma_decls_view_len(fs@);
        assert(decls_view(r@) =~= decls_view(fs@));
    }
    r
}

/// A verified deep copy of a struct declaration.
pub fn copy_struct_ty(st: &StructTy) -> (r: StructTy)
    ensures
        r@ == st@,
    decreases *st,
{
    StructTy { name: st.name.clone(), fields: copy_decls(&st.fields) }
}

/// A verified deep copy of an enum declaration.
pub fn copy_enum_ty(et: &EnumTy) -> (r: EnumTy)
    ensures
        r@ == et@,
    decreases *et,
{
    let mut vs: Vec<VariantTy> = Vec::new();
    let n = et.variants.len();
    for i in 0..n
        invariant
            n == et.variants.len(),
            vs@.len() == i,
            forall|j: int| 0 <= j < i ==> (#[trigger] vs@[j])@ == et.variants@[j]@,
        decreases n - i,
    {
        let v = VariantTy {
            name: et.variants[i].name.clone(),
            fields: copy_decls(&et.variants[i].fields),
        };
        vs.push(v);
    }
    proof {
        lemma_variants_view_len(vs@);
        lemma_variants_view_len(et.variants@);
        assert(variants_view(vs@) =~= variants_view(et.variants@));
    }
    EnumTy { name: et.name.clone(), variants: vs }
}

} // verus!
