//! The runtime model of an inspectable object graph.
//!
//! A `Value` is a dynamic object graph node together with the shape
//! knowledge the code generator would have embedded at compile time.  Which
//! of the two capabilities a node offers is decided by its kind, mirroring
//! the capability dispatch of the generated code: leaves and enums are
//! inspectable but are not tree nodes, structs and sequences are both, and
//! an opaque node is neither and degrades to placeholder rendering.

use crate::shape::{
    copy_struct_ty, copy_enum_ty, copy_ty, decls_view, fields_wf, lemma_decls_view_len,
    lemma_fields_wf_index, lemma_variants_view_len, lemma_variants_wf_index, ty_view, ty_wf,
    variants_view, variants_wf, EnumTy, FieldDecl, FieldDeclV, StructTy, StructTyV, EnumTyV, Ty,
    TyV,
};
use vstd::prelude::*;

verus! {

/// One node of an inspectable object graph.
#[derive(Debug, PartialEq, Eq)]
pub enum Value {
    /// A numeric value.
    Int(i64),
    /// A boolean.
    Bool(bool),
    /// A string.
    Text(String),
    /// A duration in whole seconds.
    Seconds(u64),
    /// A filesystem path, shown read-only.
    Pathname(String),
    /// A value of a type that offers neither capability.
    Opaque,
    /// A numeric value confined to the inclusive range `lo..=hi`.
    Clamped { lo: i64, hi: i64, n: i64 },
    /// A read-only view of the inner value.
    ReadOnly(Box<Value>),
    /// A growable sequence; the declaration gives the element type.
    List(Ty, Vec<Value>),
    /// An optional value; the declaration gives the element type so that an
    /// absent value can be filled with a default.
    OptVal(Ty, Option<Box<Value>>),
    /// A struct value with its declaration and one value per declared
    /// field, in declaration order.
    StructVal(StructTy, Vec<Value>),
    /// An enum value: its declaration, the active variant, and one value
    /// per field of the active variant.
    EnumVal(EnumTy, usize, Vec<Value>),
}

/// Mathematical mirror of `Value`.
pub enum ValueV {
    Int(i64),
    Bool(bool),
    Text(Seq<char>),
    Seconds(u64),
    Pathname(Seq<char>),
    Opaque,
    Clamped { lo: i64, hi: i64, n: i64 },
    ReadOnly(Box<ValueV>),
    List(TyV, Seq<ValueV>),
    OptVal(TyV, Option<Box<ValueV>>),
    StructVal(StructTyV, Seq<ValueV>),
    EnumVal(EnumTyV, int, Seq<ValueV>),
}

pub open spec fn value_view(v: Value) -> ValueV
    decreases v,
{
    match v {
        Value::Int(n) => ValueV::Int(n),
        Value::Bool(b) => ValueV::Bool(b),
        Value::Text(s) => ValueV::Text(s@),
        Value::Seconds(n) => ValueV::Seconds(n),
        Value::Pathname(s) => ValueV::Pathname(s@),
        Value::Opaque => ValueV::Opaque,
        Value::Clamped { lo, hi, n } => ValueV::Clamped { lo, hi, n },
        Value::ReadOnly(inner) => ValueV::ReadOnly(Box::new(value_view(*inner))),
        Value::List(t, items) => ValueV::List(ty_view(t), vals_view(items@)),
        Value::OptVal(t, inner) => ValueV::OptVal(
            ty_view(t),
            match inner {
                Some(b) => Some(Box::new(value_view(*b))),
                None => None,
            },
        ),
        Value::StructVal(st, fields) => ValueV::StructVal(st@, vals_view(fields@)),
        Value::EnumVal(et, active, fields) => ValueV::EnumVal(
            et@,
            active as int,
            vals_view(fields@),
        ),
    }
}

pub open spec fn vals_view(s: Seq<Value>) -> Seq<ValueV>
    decreases s,
{
    if s.len() == 0 {
        Seq::empty()
    } else {
        vals_view(s.drop_last()).push(value_view(s.last()))
    }
}

impl View for Value {
    type V = ValueV;

    open spec fn view(&self) -> ValueV {
        value_view(*self)
    }
}

/// Appending one value appends its view.
pub broadcast proof fn lemma_vals_view_push(s: Seq<Value>, x: Value)
    ensures
        #[trigger] vals_view(s.push(x)) == vals_view(s).push(value_view(x)),
{
    assert(s.push(x).drop_last() =~= s);
    assert(s.push(x).last() == x);
}

/// The view of a value list indexes pointwise.
pub proof fn lemma_vals_view_len(s: Seq<Value>)
    ensures
        vals_view(s).len() == s.len(),
        forall|i: int| 0 <= i < s.len() ==> #[trigger] vals_view(s)[i] == value_view(s[i]),
    decreases s,
{
    if s.len() > 0 {
        lemma_vals_view_len(s.drop_last());
        assert forall|i: int| 0 <= i < s.len() implies #[trigger] vals_view(s)[i] == value_view(
            s[i],
        ) by {
            if i < s.len() - 1 {
                assert(s.drop_last()[i] == s[i]);
            } else {
                assert(s[i] == s.last());
            }
        }
    }
}

/// Whether the value offers the inspection capability: everything but an
/// opaque node renders an editor of some kind.
pub open spec fn is_inspectable(v: ValueV) -> bool {
    !(v is Opaque)
}

/// Whether the value offers the tree capability.  Structs and sequences
/// expose their members as addressable tree rows; enums do not (tree
/// support for enum shapes is a known gap), and leaves have no children.
pub open spec fn is_tree(v: ValueV) -> bool {
    v is StructVal || v is List
}

/// Typing of a value against a type declaration.
pub open spec fn has_ty(v: ValueV, t: TyV) -> bool
    decreases v,
{
    match v {
        ValueV::Int(_) => t is Int,
        ValueV::Bool(_) => t is Bool,
        ValueV::Text(_) => t is Text,
        ValueV::Seconds(_) => t is Seconds,
        ValueV::Pathname(_) => t is Pathname,
        ValueV::Opaque => t is Opaque,
        ValueV::Clamped { lo, hi, n } => t == TyV::Clamped(lo, hi) && lo <= n <= hi,
        ValueV::ReadOnly(inner) => t matches TyV::ReadOnly(ti) && has_ty(*inner, *ti),
        ValueV::List(et, items) => t == TyV::List(Box::new(et)) && has_list(items, et),
        ValueV::OptVal(et, inner) => t == TyV::Opt(Box::new(et)) && match inner {
            Some(b) => has_ty(*b, et),
            None => true,
        },
        ValueV::StructVal(st, fields) => t == TyV::Struct(st) && has_vals(fields, st.fields),
        ValueV::EnumVal(et, active, fields) => t == TyV::Enum(et) && 0 <= active
            < et.variants.len() && has_vals(fields, et.variants[active].fields),
    }
}

/// Every element of the list has the element type.
pub open spec fn has_list(vs: Seq<ValueV>, t: TyV) -> bool
    decreases vs,
{
    if vs.len() == 0 {
        true
    } else {
        has_list(vs.drop_last(), t) && has_ty(vs.last(), t)
    }
}

/// The values match the field declarations pairwise.
pub open spec fn has_vals(vs: Seq<ValueV>, fs: Seq<FieldDeclV>) -> bool
    decreases vs,
{
    vs.len() == fs.len() && if vs.len() == 0 {
        true
    } else {
        has_vals(vs.drop_last(), fs.drop_last()) && has_ty(vs.last(), fs.last().ty)
    }
}

/// Well-formedness of a value: embedded declarations are well-formed and
/// every payload matches its declaration.
pub open spec fn value_wf(v: ValueV) -> bool
    decreases v,
{
    match v {
        ValueV::Clamped { lo, hi, n } => lo <= n <= hi,
        ValueV::ReadOnly(inner) => value_wf(*inner),
        ValueV::List(et, items) => ty_wf(et) && has_list(items, et),
        ValueV::OptVal(et, inner) => ty_wf(et) && match inner {
            Some(b) => has_ty(*b, et),
            None => true,
        },
        ValueV::StructVal(st, fields) => fields_wf(st.fields) && has_vals(fields, st.fields),
        ValueV::EnumVal(et, active, fields) => et.variants.len() > 0 && variants_wf(et.variants)
            && 0 <= active < et.variants.len() && has_vals(fields, et.variants[active].fields),
        _ => true,
    }
}

/// Pairwise typing gives typing of every member.
pub proof fn lemma_has_vals_index(vs: Seq<ValueV>, fs: Seq<FieldDeclV>, i: int)
    requires
        has_vals(vs, fs),
        0 <= i < vs.len(),
    ensures
        vs.len() == fs.len(),
        has_ty(vs[i], fs[i].ty),
    decreases vs.len(),
{
    if i + 1 == vs.len() {
        assert(vs.last() == vs[i]);
        assert(fs.last() == fs[i]);
    } else {
        lemma_has_vals_index(vs.drop_last(), fs.drop_last(), i);
        assert(vs.drop_last()[i] == vs[i]);
        assert(fs.drop_last()[i] == fs[i]);
    }
}

/// Uniform typing gives typing of every element.
pub proof fn lemma_has_list_index(vs: Seq<ValueV>, t: TyV, i: int)
    requires
        has_list(vs, t),
        0 <= i < vs.len(),
    ensures
        has_ty(vs[i], t),
    decreases vs.len(),
{
    if i + 1 == vs.len() {
        assert(vs.last() == vs[i]);
    } else {
        lemma_has_list_index(vs.drop_last(), t, i);
        assert(vs.drop_last()[i] == vs[i]);
    }
}

/// A well-typed value against a well-formed declaration is well-formed.
pub proof fn lemma_has_ty_wf(v: ValueV, t: TyV)
    requires
        has_ty(v, t),
        ty_wf(t),
    ensures
        value_wf(v),
    decreases v,
{
    match v {
        ValueV::ReadOnly(inner) => {
            lemma_has_ty_wf(*inner, *t->ReadOnly_0);
        },
        ValueV::List(et, items) => {
            assert forall|i: int| 0 <= i < items.len() implies value_wf(#[trigger] items[i]) by {
                lemma_has_list_index(items, et, i);
                lemma_has_ty_wf(items[i], et);
            }
        },
        ValueV::OptVal(et, inner) => {
            match inner {
                Some(b) => lemma_has_ty_wf(*b, et),
                None => {},
            }
        },
        ValueV::StructVal(st, fields) => {},
        ValueV::EnumVal(et, active, fields) => {},
        _ => {},
    }
}

/// The default value of a type: zero for numbers, false, the empty string,
/// an empty sequence, an absent optional, a struct of field defaults, and
/// an enum holding its first variant with field defaults.
pub open spec fn spec_default(t: TyV) -> ValueV
    decreases t,
{
    match t {
        TyV::Int => ValueV::Int(0),
        TyV::Bool => ValueV::Bool(false),
        TyV::Text => ValueV::Text(Seq::empty()),
        TyV::Seconds => ValueV::Seconds(0),
        TyV::Pathname => ValueV::Pathname(Seq::empty()),
        TyV::Opaque => ValueV::Opaque,
        TyV::Clamped(lo, hi) => ValueV::Clamped {
            lo,
            hi,
            n: if lo > 0 {
                lo
            } else if hi < 0 {
                hi
            } else {
                0
            },
        },
        TyV::ReadOnly(inner) => ValueV::ReadOnly(Box::new(spec_default(*inner))),
        TyV::List(inner) => ValueV::List(*inner, Seq::empty()),
        TyV::Opt(inner) => ValueV::OptVal(*inner, None),
        TyV::Struct(st) => ValueV::StructVal(st, spec_defaults(st.fields)),
        TyV::Enum(et) => ValueV::EnumVal(
            et,
            0,
            if et.variants.len() > 0 {
                spec_defaults(et.variants[0].fields)
            } else {
                Seq::empty()
            },
        ),
    }
}

/// The defaults of a field list, in declaration order.
pub open spec fn spec_defaults(fs: Seq<FieldDeclV>) -> Seq<ValueV>
    decreases fs,
{
    if fs.len() == 0 {
        Seq::empty()
    } else {
        spec_defaults(fs.drop_last()).push(spec_default(fs.last().ty))
    }
}

/// The defaults of a field list index pointwise.
pub proof fn lemma_spec_defaults_index(fs: Seq<FieldDeclV>)
    ensures
        spec_defaults(fs).len() == fs.len(),
        forall|i: int|
            0 <= i < fs.len() ==> #[trigger] spec_defaults(fs)[i] == spec_default(fs[i].ty),
    decreases fs,
{
    if fs.len() > 0 {
        lemma_spec_defaults_index(fs.drop_last());
        assert forall|i: int| 0 <= i < fs.len() implies #[trigger] spec_defaults(fs)[i]
            == spec_default(fs[i].ty) by {
            if i < fs.len() - 1 {
                assert(fs.drop_last()[i] == fs[i]);
            } else {
                assert(fs[i] == fs.last());
            }
        }
    }
}

/// Default values are well-typed.
pub proof fn lemma_spec_default_has_ty(t: TyV)
    requires
        ty_wf(t),
    ensures
        has_ty(spec_default(t), t),
    decreases t,
{
    match t {
        TyV::ReadOnly(inner) => lemma_spec_default_has_ty(*inner),
        TyV::List(inner) => {
            assert(has_list(Seq::<ValueV>::empty(), *inner));
        },
        TyV::Struct(st) => {
            lemma_spec_defaults_has_vals(st.fields);
        },
        TyV::Enum(et) => {
            lemma_variants_wf_index(et.variants, 0);
            lemma_spec_defaults_has_vals(et.variants[0].fields);
        },
        _ => {},
    }
}

/// Field defaults are pairwise well-typed.
pub proof fn lemma_spec_defaults_has_vals(fs: Seq<FieldDeclV>)
    requires
        fields_wf(fs),
    ensures
        has_vals(spec_defaults(fs), fs),
    decreases fs,
{
    lemma_spec_defaults_index(fs);
    if fs.len() > 0 {
        lemma_spec_defaults_has_vals(fs.drop_last());
        lemma_fields_wf_index(fs, fs.len() - 1);
        lemma_spec_default_has_ty(fs.last().ty);
        assert(spec_defaults(fs).drop_last() =~= spec_defaults(fs.drop_last()));
        assert(spec_defaults(fs).last() == spec_default(fs.last().ty));
    }
}

/// Construct the default value of a type.
pub fn default_value(t: &Ty) -> (v: Value)
    requires
        ty_wf(t@),
    ensures
        v@ == spec_default(t@),
    decreases *t,
{
    match t {
        Ty::Int => Value::Int(0),
        Ty::Bool => Value::Bool(false),
        Ty::Text => Value::Text(String::new()),
        Ty::Seconds => Value::Seconds(0),
        Ty::Pathname => Value::Pathname(String::new()),
        Ty::Opaque => Value::Opaque,
        Ty::Clamped(lo, hi) => {
            let n = if *lo > 0 {
                *lo
            } else if *hi < 0 {
                *hi
            } else {
                0
            };
            Value::Clamped { lo: *lo, hi: *hi, n }
        },
        Ty::ReadOnly(inner) => Value::ReadOnly(Box::new(default_value(inner))),
        Ty::List(inner) => {
            let items: Vec<Value> = Vec::new();
            proof {
                assert(vals_view(items@) =~= Seq::<ValueV>::empty());
            }
            Value::List(copy_ty(inner), items)
        },
        Ty::Opt(inner) => Value::OptVal(copy_ty(inner), None),
        Ty::Struct(st) => {
            let fields = default_fields(&st.fields);
            Value::StructVal(copy_struct_ty(st), fields)
        },
        Ty::Enum(et) => {
            proof {
                lemma_variants_view_len(et.variants@);
                lemma_variants_wf_index(variants_view(et.variants@), 0);
            }
            let fields = default_fields(&et.variants[0].fields);
            Value::EnumVal(copy_enum_ty(et), 0, fields)
        },
    }
}

/// Construct the defaults of a field list, in declaration order.
pub fn default_fields(fs: &Vec<FieldDecl>) -> (r: Vec<Value>)
    requires
        fields_wf(decls_view(fs@)),
    ensures
        vals_view(r@) == spec_defaults(decls_view(fs@)),
    decreases *fs,
{
    let mut r: Vec<Value> = Vec::new();
    let n = fs.len();
    proof {
        lemma_decls_view_len(fs@);
    }
    for i in 0..n
        invariant
            n == fs.len(),
            r@.len() == i,
            decls_view(fs@).len() == n,
            fields_wf(decls_view(fs@)),
            forall|j: int| 0 <= j < fs@.len() ==> #[trigger] decls_view(fs@)[j] == fs@[j]@,
            forall|j: int|
                0 <= j < i ==> (#[trigger] r@[j])@ == spec_default(decls_view(fs@)[j].ty),
        decreases n - i,
    {
        proof {
            lemma_fields_wf_index(decls_view(fs@), i as int);
            assert(decls_view(fs@)[i as int].ty == fs@[i as int]@.ty);
        }
        let v = default_value(&fs[i].ty);
        r.push(v);
    }
    proof {
        lemma_vals_view_len(r@);
        lemma_spec_defaults_index(decls_view(fs@));
        assert(vals_view(r@) =~= spec_defaults(decls_view(fs@)));
    }
    r
}

} // verus!
