//! The intermediate representation: a recursive, immutable tree of
//! TypeScript type shapes, together with its mathematical view.
//!
//! Every executable node type has a ghost counterpart (its view) in which
//! strings are `Seq<char>` and vectors are `Seq`; contracts throughout the
//! crate speak of those views.

use vstd::prelude::*;

verus! {

/// A primitive TypeScript type, rendered as its fixed keyword.
#[derive(Debug, Clone, Copy, PartialEq, Eq, Hash, Structural)]
pub enum Primitive {
    /// The `string` type.
    String,
    /// The `number` type.
    Number,
    /// The `boolean` type.
    Boolean,
    /// The `null` type.
    Null,
    /// The `undefined` type.
    Undefined,
    /// The `void` type.
    Void,
    /// The `never` type.
    Never,
    /// The `any` type.
    Any,
    /// The `unknown` type.
    Unknown,
    /// The `bigint` type.
    BigInt,
}

/// A literal type with a specific value.
///
/// A number literal is held in decimal form: its value is
/// `mantissa / 10^scale`, so `42` is `{ mantissa: 42, scale: 0 }` and
/// `3.14` is `{ mantissa: 314, scale: 2 }`.
#[derive(Debug, PartialEq)]
pub enum Literal {
    /// A string literal: `"foo"`.
    String(String),
    /// A number literal, as a scaled decimal.
    Number { mantissa: i64, scale: u32 },
    /// A boolean literal: `true` or `false`.
    Boolean(bool),
}

/// The view of a [`Literal`].
#[verifier::ext_equal]
pub ghost enum LiteralV {
    String(Seq<char>),
    Number { mantissa: int, scale: nat },
    Boolean(bool),
}

/// A field in an object type or a parameter of a function type.
#[derive(Debug, PartialEq)]
pub struct Field {
    /// The field name.
    pub name: String,
    /// The field's type.
    pub ty: TypeDef,
    /// Whether the field is optional (`field?: T` vs `field: T`).
    pub optional: bool,
    /// Whether the field is readonly.
    pub readonly: bool,
}

/// The view of a [`Field`].
#[verifier::ext_equal]
pub ghost struct FieldV {
    pub name: Seq<char>,
    pub ty: TypeDefV,
    pub optional: bool,
    pub readonly: bool,
}

/// A generic type parameter of an imported declaration, with its optional
/// constraint and default.
#[derive(Debug, PartialEq)]
pub struct TypeParam {
    /// The parameter name, e.g. `T`.
    pub name: String,
    /// An optional `extends` constraint.
    pub constraint: Option<Box<TypeDef>>,
    /// An optional default type.
    pub default: Option<Box<TypeDef>>,
}

/// The view of a [`TypeParam`].
#[verifier::ext_equal]
pub ghost struct TypeParamV {
    pub name: Seq<char>,
    pub constraint: Option<Box<TypeDefV>>,
    pub default: Option<Box<TypeDefV>>,
}

/// Intermediate representation for TypeScript types.
///
/// A tree is constructed once (by a converter or by hand) and is then
/// immutable; the registry only reads and indexes it.
#[derive(Debug, PartialEq)]
pub enum TypeDef {
    /// A primitive type.
    Primitive(Primitive),
    /// An array type: `T[]`.
    Array(Box<TypeDef>),
    /// A tuple type: `[T1, T2, ...]`.
    Tuple(Vec<TypeDef>),
    /// An object type with named fields: `{ a: T1; b?: T2 }`.
    Object(Vec<Field>),
    /// A union type: `T1 | T2 | ...`.
    Union(Vec<TypeDef>),
    /// An intersection type: `T1 & T2 & ...`.
    Intersection(Vec<TypeDef>),
    /// A dictionary type: `Record<K, V>`.
    Record { key: Box<TypeDef>, value: Box<TypeDef> },
    /// A named type definition, emitted as a separate declaration and
    /// deduplicated by name.
    Named {
        /// Namespace path the name lives under, outermost first.
        namespace: Vec<String>,
        /// The declared name.
        name: String,
        /// The definition bound to the name.
        def: Box<TypeDef>,
        /// The host module the type was declared in, if known.
        module: Option<String>,
        /// An optional utility-type wrapper applied to the definition.
        wrapper: Option<String>,
    },
    /// A by-name reference to a named type, resolved only at render or
    /// graph-build time. A name that is never registered is rendered as a
    /// bare identifier and treated as intentionally external.
    Ref(String),
    /// A literal type.
    Literal(Literal),
    /// A function type: `(a: T1, b: T2) => R`.
    Function { params: Vec<Field>, return_type: Box<TypeDef> },
    /// A generic type application: `Base<T1, T2>`.
    Generic { base: String, args: Vec<TypeDef> },
    /// A template literal type: `` `v${number}.${number}` ``.
    /// Invariant: `strings.len() == types.len() + 1`.
    TemplateLiteral { strings: Vec<String>, types: Vec<TypeDef> },
    /// An indexed access type: `Base["key"]`.
    IndexedAccess { base: String, key: String },
    /// A generic declaration: `Name<T1, T2> = Def`, materialised only when
    /// concrete arguments are substituted.
    GenericDef { name: String, type_params: Vec<TypeParam>, def: Box<TypeDef> },
}

/// The view of a [`TypeDef`].
#[verifier::ext_equal]
pub ghost enum TypeDefV {
    Primitive(Primitive),
    Array(Box<TypeDefV>),
    Tuple(Seq<TypeDefV>),
    Object(Seq<FieldV>),
    Union(Seq<TypeDefV>),
    Intersection(Seq<TypeDefV>),
    Record { key: Box<TypeDefV>, value: Box<TypeDefV> },
    Named {
        namespace: Seq<Seq<char>>,
        name: Seq<char>,
        def: Box<TypeDefV>,
        module: Option<Seq<char>>,
        wrapper: Option<Seq<char>>,
    },
    Ref(Seq<char>),
    Literal(LiteralV),
    Function { params: Seq<FieldV>, return_type: Box<TypeDefV> },
    Generic { base: Seq<char>, args: Seq<TypeDefV> },
    TemplateLiteral { strings: Seq<Seq<char>>, types: Seq<TypeDefV> },
    IndexedAccess { base: Seq<char>, key: Seq<char> },
    GenericDef { name: Seq<char>, type_params: Seq<TypeParamV>, def: Box<TypeDefV> },
}

pub open spec fn view_literal(l: Literal) -> LiteralV {
    match l {
        Literal::String(s) => LiteralV::String(s@),
        Literal::Number { mantissa, scale } => LiteralV::Number {
            mantissa: mantissa as int,
            scale: scale as nat,
        },
        Literal::Boolean(b) => LiteralV::Boolean(b),
    }
}

pub open spec fn view_string_seq(ss: Seq<String>) -> Seq<Seq<char>> {
    Seq::new(ss.len(), |i: int| ss[i]@)
}

pub open spec fn view_opt_string(s: Option<String>) -> Option<Seq<char>> {
    match s {
        Option::Some(x) => Option::Some(x@),
        Option::None => Option::None,
    }
}

pub open spec fn view_typedef(t: TypeDef) -> TypeDefV
    decreases t,
{
    match t {
        TypeDef::Primitive(p) => TypeDefV::Primitive(p),
        TypeDef::Array(inner) => TypeDefV::Array(Box::new(view_typedef(*inner))),
        TypeDef::Tuple(items) => TypeDefV::Tuple(view_typedef_seq(items@)),
        TypeDef::Object(fields) => TypeDefV::Object(view_field_seq(fields@)),
        TypeDef::Union(items) => TypeDefV::Union(view_typedef_seq(items@)),
        TypeDef::Intersection(items) => TypeDefV::Intersection(view_typedef_seq(items@)),
        TypeDef::Record { key, value } => TypeDefV::Record {
            key: Box::new(view_typedef(*key)),
            value: Box::new(view_typedef(*value)),
        },
        TypeDef::Named { namespace, name, def, module, wrapper } => TypeDefV::Named {
            namespace: view_string_seq(namespace@),
            name: name@,
            def: Box::new(view_typedef(*def)),
            module: view_opt_string(module),
            wrapper: view_opt_string(wrapper),
        },
        TypeDef::Ref(name) => TypeDefV::Ref(name@),
        TypeDef::Literal(l) => TypeDefV::Literal(view_literal(l)),
        TypeDef::Function { params, return_type } => TypeDefV::Function {
            params: view_field_seq(params@),
            return_type: Box::new(view_typedef(*return_type)),
        },
        TypeDef::Generic { base, args } => TypeDefV::Generic {
            base: base@,
            args: view_typedef_seq(args@),
        },
        TypeDef::TemplateLiteral { strings, types } => TypeDefV::TemplateLiteral {
            strings: view_string_seq(strings@),
            types: view_typedef_seq(types@),
        },
        TypeDef::IndexedAccess { base, key } => TypeDefV::IndexedAccess {
            base: base@,
            key: key@,
        },
        TypeDef::GenericDef { name, type_params, def } => TypeDefV::GenericDef {
            name: name@,
            type_params: view_param_seq(type_params@),
            def: Box::new(view_typedef(*def)),
        },
    }
}

pub open spec fn view_typedef_seq(ts: Seq<TypeDef>) -> Seq<TypeDefV>
    decreases ts,
{
    if ts.len() == 0 {
        Seq::empty()
    } else {
        view_typedef_seq(ts.drop_last()).push(view_typedef(ts.last()))
    }
}

pub open spec fn view_field(f: Field) -> FieldV
    decreases f,
{
    FieldV { name: f.name@, ty: view_typedef(f.ty), optional: f.optional, readonly: f.readonly }
}

pub open spec fn view_field_seq(fs: Seq<Field>) -> Seq<FieldV>
    decreases fs,
{
    if fs.len() == 0 {
        Seq::empty()
    } else {
        view_field_seq(fs.drop_last()).push(view_field(fs.last()))
    }
}

pub open spec fn view_param(p: TypeParam) -> TypeParamV
    decreases p,
{
    TypeParamV {
        name: p.name@,
        constraint: match p.constraint {
            Option::Some(c) => Option::Some(Box::new(view_typedef(*c))),
            Option::None => Option::None,
        },
        default: match p.default {
            Option::Some(d) => Option::Some(Box::new(view_typedef(*d))),
            Option::None => Option::None,
        },
    }
}

pub open spec fn view_param_seq(ps: Seq<TypeParam>) -> Seq<TypeParamV>
    decreases ps,
{
    if ps.len() == 0 {
        Seq::empty()
    } else {
        view_param_seq(ps.drop_last()).push(view_param(ps.last()))
    }
}

impl View for Literal {
    type V = LiteralV;

    open spec fn view(&self) -> LiteralV {
        view_literal(*self)
    }
}

impl View for Field {
    type V = FieldV;

    open spec fn view(&self) -> FieldV {
        view_field(*self)
    }
}

impl View for TypeParam {
    type V = TypeParamV;

    open spec fn view(&self) -> TypeParamV {
        view_param(*self)
    }
}

impl View for TypeDef {
    type V = TypeDefV;

    open spec fn view(&self) -> TypeDefV {
        view_typedef(*self)
    }
}

/// Each element of a viewed sequence is the view of the element.
pub broadcast proof fn lemma_view_typedef_seq(ts: Seq<TypeDef>)
    ensures
        (#[trigger] view_typedef_seq(ts)).len() == ts.len(),
        forall|i: int| 0 <= i < ts.len() ==> view_typedef_seq(ts)[i] == view_typedef(ts[i]),
    decreases ts,
{
    if ts.len() > 0 {
        lemma_view_typedef_seq(ts.drop_last());
    }
}

/// Each element of a viewed field sequence is the view of the field.
pub broadcast proof fn lemma_view_field_seq(fs: Seq<Field>)
    ensures
        (#[trigger] view_field_seq(fs)).len() == fs.len(),
        forall|i: int| 0 <= i < fs.len() ==> view_field_seq(fs)[i] == view_field(fs[i]),
    decreases fs,
{
    if fs.len() > 0 {
        lemma_view_field_seq(fs.drop_last());
    }
}

/// Each element of a viewed parameter sequence is the view of the parameter.
pub broadcast proof fn lemma_view_param_seq(ps: Seq<TypeParam>)
    ensures
        (#[trigger] view_param_seq(ps)).len() == ps.len(),
        forall|i: int| 0 <= i < ps.len() ==> view_param_seq(ps)[i] == view_param(ps[i]),
    decreases ps,
{
    if ps.len() > 0 {
        lemma_view_param_seq(ps.drop_last());
    }
}

impl Field {
    /// Creates a new required field.
    pub fn new(name: &str, ty: TypeDef) -> (r: Self)
        ensures
            r@ == (FieldV { name: name@, ty: ty@, optional: false, readonly: false }),
    {
        Field { name: name.to_owned(), ty, optional: false, readonly: false }
    }

    /// Creates a new optional field.
    pub fn optional(name: &str, ty: TypeDef) -> (r: Self)
        ensures
            r@ == (FieldV { name: name@, ty: ty@, optional: true, readonly: false }),
    {
        Field { name: name.to_owned(), ty, optional: true, readonly: false }
    }

    /// Makes this field readonly.
    pub fn readonly(self) -> (r: Self)
        ensures
            r@ == (FieldV { readonly: true, ..self@ }),
    {
        Field { readonly: true, ..self }
    }
}

impl Clone for Literal {
    fn clone(&self) -> (r: Self)
        ensures
            r@ == self@,
    {
        match self {
            Literal::String(s) => Literal::String(s.clone()),
            Literal::Number { mantissa, scale } => Literal::Number {
                mantissa: *mantissa,
                scale: *scale,
            },
            Literal::Boolean(b) => Literal::Boolean(*b),
        }
    }
}

/// Clones a vector of strings, preserving each element's view.
pub(crate) fn clone_string_vec(v: &Vec<String>) -> (r: Vec<String>)
    ensures
        view_string_seq(r@) =~= view_string_seq(v@),
        r@.len() == v@.len(),
{
    let mut out: Vec<String> = Vec::new();
    let mut i: usize = 0;
    while i < v.len()
        invariant
            i <= v.len(),
            out@.len() == i,
            forall|j: int| 0 <= j < i ==> out@[j]@ == v@[j]@,
        decreases v.len() - i,
    {
        out.push(v[i].clone());
        i = i + 1;
    }
    proof {
        assert(view_string_seq(out@) =~= view_string_seq(v@));
    }
    out
}

fn clone_opt_string(v: &Option<String>) -> (r: Option<String>)
    ensures
        view_opt_string(r) == view_opt_string(*v),
{
    match v {
        Option::Some(s) => Option::Some(s.clone()),
        Option::None => Option::None,
    }
}

impl Clone for TypeDef {
    /// A clone has the same view as the original.
    #[verifier::loop_isolation(false)]
    fn clone(&self) -> (r: Self)
        ensures
            r@ == self@,
        decreases *self, 2int,
    {
        let r = match self {
            TypeDef::Primitive(p) => TypeDef::Primitive(*p),
            TypeDef::Array(inner) => TypeDef::Array(Box::new((**inner).clone())),
            TypeDef::Tuple(items) => TypeDef::Tuple(clone_typedef_vec_in(self, items)),
            TypeDef::Object(fields) => TypeDef::Object(clone_field_vec_in(self, fields)),
            TypeDef::Union(items) => TypeDef::Union(clone_typedef_vec_in(self, items)),
            TypeDef::Intersection(items) => TypeDef::Intersection(
                clone_typedef_vec_in(self, items),
            ),
            TypeDef::Record { key, value } => TypeDef::Record {
                key: Box::new((**key).clone()),
                value: Box::new((**value).clone()),
            },
            TypeDef::Named { namespace, name, def, module, wrapper } => TypeDef::Named {
                namespace: clone_string_vec(namespace),
                name: name.clone(),
                def: Box::new((**def).clone()),
                module: clone_opt_string(module),
                wrapper: clone_opt_string(wrapper),
            },
            TypeDef::Ref(name) => TypeDef::Ref(name.clone()),
            TypeDef::Literal(l) => TypeDef::Literal(l.clone()),
            TypeDef::Function { params, return_type } => TypeDef::Function {
                params: clone_field_vec_in(self, params),
                return_type: Box::new((**return_type).clone()),
            },
            TypeDef::Generic { base, args } => TypeDef::Generic {
                base: base.clone(),
                args: clone_typedef_vec_in(self, args),
            },
            TypeDef::TemplateLiteral { strings, types } => TypeDef::TemplateLiteral {
                strings: clone_string_vec(strings),
                types: clone_typedef_vec_in(self, types),
            },
            TypeDef::IndexedAccess { base, key } => TypeDef::IndexedAccess {
                base: base.clone(),
                key: key.clone(),
            },
            TypeDef::GenericDef { name, type_params, def } => TypeDef::GenericDef {
                name: name.clone(),
                type_params: clone_param_vec_in(self, type_params),
                def: Box::new((**def).clone()),
            },
        };
        proof {
            assert(r@ =~~= self@);
        }
        r
    }
}

/// Clones the elements of `items`, a vector held inside `whole`, so that the
/// recursive calls stay below `whole` in the termination order.
#[verifier::loop_isolation(false)]
fn clone_typedef_vec_in(whole: &TypeDef, items: &Vec<TypeDef>) -> (r: Vec<TypeDef>)
    requires
        decreases_to!(*whole => *items),
    ensures
        view_typedef_seq(r@) =~= view_typedef_seq(items@),
        r@.len() == items@.len(),
    decreases *whole, 1int,
{
    let mut out: Vec<TypeDef> = Vec::new();
    let mut i: usize = 0;
    while i < items.len()
        invariant
            i <= items.len(),
            out@.len() == i,
            forall|j: int| 0 <= j < i ==> view_typedef(out@[j]) == view_typedef(items@[j]),
        decreases items.len() - i,
    {
        proof {
            assert(decreases_to!(*items => items@[i as int]));
        }
        let item = items[i].clone();
        out.push(item);
        i = i + 1;
    }
    proof {
        lemma_view_typedef_seq(out@);
        lemma_view_typedef_seq(items@);
        assert(view_typedef_seq(out@) =~= view_typedef_seq(items@));
    }
    out
}

/// Clones the elements of `fields`, a vector held inside `whole`.
#[verifier::loop_isolation(false)]
fn clone_field_vec_in(whole: &TypeDef, fields: &Vec<Field>) -> (r: Vec<Field>)
    requires
        decreases_to!(*whole => *fields),
    ensures
        view_field_seq(r@) =~= view_field_seq(fields@),
        r@.len() == fields@.len(),
    decreases *whole, 1int,
{
    let mut out: Vec<Field> = Vec::new();
    let mut i: usize = 0;
    while i < fields.len()
        invariant
            i <= fields.len(),
            out@.len() == i,
            forall|j: int| 0 <= j < i ==> view_field(out@[j]) == view_field(fields@[j]),
        decreases fields.len() - i,
    {
        proof {
            assert(decreases_to!(*fields => fields@[i as int]));
        }
        let f = &fields[i];
        let cloned_ty = clone_field_ty(whole, f);
        let cf = Field {
            name: f.name.clone(),
            ty: cloned_ty,
            optional: f.optional,
            readonly: f.readonly,
        };
        proof {
            assert(view_field(cf) =~~= view_field(fields@[i as int]));
        }
        out.push(cf);
        i = i + 1;
    }
    proof {
        lemma_view_field_seq(out@);
        lemma_view_field_seq(fields@);
        assert(view_field_seq(out@) =~= view_field_seq(fields@));
    }
    out
}

/// Clones the type of one field of `whole`.
fn clone_field_ty(whole: &TypeDef, f: &Field) -> (r: TypeDef)
    requires
        decreases_to!(*whole => *f),
    ensures
        r@ == f.ty@,
    decreases *whole, 0int,
{
    proof {
        assert(decreases_to!(*f => f.ty));
    }
    f.ty.clone()
}

/// Clones the elements of `params`, a vector held inside `whole`.
#[verifier::loop_isolation(false)]
fn clone_param_vec_in(whole: &TypeDef, params: &Vec<TypeParam>) -> (r: Vec<TypeParam>)
    requires
        decreases_to!(*whole => *params),
    ensures
        view_param_seq(r@) =~= view_param_seq(params@),
        r@.len() == params@.len(),
    decreases *whole, 1int,
{
    let mut out: Vec<TypeParam> = Vec::new();
    let mut i: usize = 0;
    while i < params.len()
        invariant
            i <= params.len(),
            out@.len() == i,
            forall|j: int| 0 <= j < i ==> view_param(out@[j]) == view_param(params@[j]),
        decreases params.len() - i,
    {
        proof {
            assert(decreases_to!(*params => params@[i as int]));
        }
        let p = &params[i];
        let cp = clone_one_param(whole, p);
        out.push(cp);
        i = i + 1;
    }
    proof {
        lemma_view_param_seq(out@);
        lemma_view_param_seq(params@);
        assert(view_param_seq(out@) =~= view_param_seq(params@));
    }
    out
}

/// Clones one type parameter of `whole`.
fn clone_one_param(whole: &TypeDef, p: &TypeParam) -> (r: TypeParam)
    requires
        decreases_to!(*whole => *p),
    ensures
        view_param(r) == view_param(*p),
    decreases *whole, 0int,
{
    let constraint = match &p.constraint {
        Option::Some(c) => {
            proof {
                assert(decreases_to!(*p => p.constraint));
            }
            Option::Some(Box::new((**c).clone()))
        }
        Option::None => Option::None,
    };
    let default = match &p.default {
        Option::Some(d) => {
            proof {
                assert(decreases_to!(*p => p.default));
            }
            Option::Some(Box::new((**d).clone()))
        }
        Option::None => Option::None,
    };
    let r = TypeParam { name: p.name.clone(), constraint, default };
    proof {
        assert(view_param(r) =~~= view_param(*p));
    }
    r
}

impl Clone for Field {
    /// A clone has the same view as the original.
    fn clone(&self) -> (r: Self)
        ensures
            r@ == self@,
    {
        let r = Field {
            name: self.name.clone(),
            ty: self.ty.clone(),
            optional: self.optional,
            readonly: self.readonly,
        };
        proof {
            assert(view_field(r) =~~= view_field(*self));
        }
        r
    }
}

impl Clone for TypeParam {
    /// A clone has the same view as the original.
    fn clone(&self) -> (r: Self)
        ensures
            r@ == self@,
    {
        let constraint = match &self.constraint {
            Option::Some(c) => Option::Some(Box::new((**c).clone())),
            Option::None => Option::None,
        };
        let default = match &self.default {
            Option::Some(d) => Option::Some(Box::new((**d).clone())),
            Option::None => Option::None,
        };
        let r = TypeParam { name: self.name.clone(), constraint, default };
        proof {
            assert(view_param(r) =~~= view_param(*self));
        }
        r
    }
}

/// The field list of an object definition, looking through `Named` wrappers;
/// `None` where the definition is not an object.
pub open spec fn object_fields_of(t: TypeDefV) -> Option<Seq<FieldV>>
    decreases t,
{
    match t {
        TypeDefV::Object(fields) => Option::Some(fields),
        TypeDefV::Named { def, .. } => object_fields_of(*def),
        _ => Option::None,
    }
}

/// Extracts the fields of an object definition, unwrapping `Named` layers.
///
/// Used to splice a flattened member's fields into its containing object.
pub fn extract_object_fields(typedef: &TypeDef) -> (r: Vec<Field>)
    requires
        object_fields_of(typedef@) is Some,
    ensures
        view_field_seq(r@) == object_fields_of(typedef@)->Some_0,
    decreases *typedef,
{
    match typedef {
        TypeDef::Object(fields) => {
            let r = clone_field_vec_in(typedef, fields);
            proof {
                assert(view_field_seq(r@) =~= object_fields_of(typedef@)->Some_0);
            }
            r
        }
        TypeDef::Named { def, .. } => extract_object_fields(def),
        _ => {
            proof {
                assert(false);
            }
            Vec::new()
        }
    }
}

/// The definition under a `Named` wrapper, or the type itself.
pub open spec fn inlined(t: TypeDefV) -> TypeDefV {
    match t {
        TypeDefV::Named { def, .. } => *def,
        other => other,
    }
}

/// Extracts the inner definition, unwrapping one `Named` layer if present.
///
/// Used to inline a full definition in place of a type reference.
pub fn inline_typedef(typedef: TypeDef) -> (r: TypeDef)
    ensures
        r@ == inlined(typedef@),
{
    match typedef {
        TypeDef::Named { def, .. } => *def,
        other => other,
    }
}


/// Clones a vector of types, preserving each element's view.
pub(crate) fn clone_typedef_vec(v: &Vec<TypeDef>) -> (r: Vec<TypeDef>)
    ensures
        view_typedef_seq(r@) == view_typedef_seq(v@),
        r@.len() == v@.len(),
{
    let mut out: Vec<TypeDef> = Vec::new();
    let mut i: usize = 0;
    while i < v.len()
        invariant
            i <= v@.len(),
            out@.len() == i,
            forall|j: int| 0 <= j < i ==> view_typedef(#[trigger] out@[j]) == view_typedef(v@[j]),
        decreases v@.len() - i,
    {
        let item = v[i].clone();
        out.push(item);
        i = i + 1;
    }
    proof {
        lemma_view_typedef_seq(out@);
        lemma_view_typedef_seq(v@);
        assert(view_typedef_seq(out@) =~= view_typedef_seq(v@));
    }
    out
}

} // verus!
