//! Conversion of a parsed TypeScript declaration module into the IR.
//!
//! The module model carries what the conversion reads from a parsed
//! TypeScript AST: interface, type-alias and enum declarations, and the
//! type expressions under them, as plain values. A parser front end fills
//! this model; the conversion into [`TypeDef`] happens here.

use vstd::prelude::*;
use vstd::string::StringExecFns;

use crate::ir::{
    lemma_view_field_seq, lemma_view_typedef_seq, view_field, view_field_seq, view_string_seq,
    view_typedef, view_typedef_seq, Field, FieldV, Literal, LiteralV, Primitive, TypeDef,
    TypeDefV, TypeParam, TypeParamV,
};
use crate::render::joined;
use crate::strutil::{dec_digits, push_u64_dec, str_eq};

verus! {

/// A keyword type.
#[derive(Debug, Clone, Copy, PartialEq, Eq, Structural)]
pub enum TsKeyword {
    Str,
    Num,
    Bool,
    Null,
    Undefined,
    Void,
    Never,
    Any,
    Unknown,
    BigInt,
    Object,
    Symbol,
    Intrinsic,
}

/// A literal in type position.
#[derive(Debug, PartialEq)]
pub enum TsLit {
    Str(String),
    /// A number literal as a scaled decimal: `mantissa / 10^scale`.
    Num { mantissa: i64, scale: u32 },
    Bool(bool),
    BigInt,
    Tpl,
}

/// A function-type parameter pattern.
#[derive(Debug)]
pub enum TsFnParam {
    Ident { name: String, ann: Option<Box<TsType>> },
    ArrayPat { ann: Option<Box<TsType>> },
    Rest { ann: Option<Box<TsType>> },
    ObjectPat { ann: Option<Box<TsType>> },
}

/// A property of an interface body or a type literal. A `key` of `None`
/// stands for a computed property, which the conversion skips.
#[derive(Debug)]
pub struct TsProperty {
    pub key: Option<String>,
    pub ann: Option<Box<TsType>>,
    pub optional: bool,
    pub readonly: bool,
}

/// One element of an interface body or type literal; index signatures and
/// methods are carried as `Other` and skipped.
#[derive(Debug)]
pub enum TsTypeElement {
    Property(TsProperty),
    Other,
}

/// A type expression of the source language.
#[derive(Debug)]
pub enum TsType {
    Keyword(TsKeyword),
    Array(Box<TsType>),
    Union(Vec<TsType>),
    Intersection(Vec<TsType>),
    /// A reference to a (possibly qualified, possibly generic) name.
    TypeRef { path: Vec<String>, args: Vec<TsType> },
    TypeLit(Vec<TsTypeElement>),
    Lit(TsLit),
    Tuple(Vec<TsType>),
    Paren(Box<TsType>),
    /// A `T?` tuple-element type.
    OptionalType(Box<TsType>),
    FnType { params: Vec<TsFnParam>, ret: Box<TsType> },
    CtorType,
    IndexedAccess { obj: Box<TsType>, index: Box<TsType> },
    Rest(Box<TsType>),
    Predicate,
    /// `typeof`, mapped, conditional, `infer`, `this`, type operators and
    /// import types, all mapped to `any`.
    Opaque,
}

/// A generic type parameter declaration.
#[derive(Debug)]
pub struct TsTypeParamDecl {
    pub name: String,
    pub constraint: Option<Box<TsType>>,
    pub default: Option<Box<TsType>>,
}

/// An enum member, with its optional initialiser.
#[derive(Debug)]
pub enum TsEnumInit {
    Str(String),
    Num { mantissa: i64, scale: u32 },
    Other,
}

#[derive(Debug)]
pub struct TsEnumMember {
    pub name: String,
    pub init: Option<TsEnumInit>,
}

/// An interface declaration.
#[derive(Debug)]
pub struct TsInterfaceDecl {
    pub name: String,
    pub type_params: Vec<TsTypeParamDecl>,
    pub body: Vec<TsTypeElement>,
}

/// A type-alias declaration.
#[derive(Debug)]
pub struct TsTypeAliasDecl {
    pub name: String,
    pub type_params: Vec<TsTypeParamDecl>,
    pub ann: TsType,
}

/// An enum declaration.
#[derive(Debug)]
pub struct TsEnumDecl {
    pub name: String,
    pub members: Vec<TsEnumMember>,
}

/// One item of a module; anything but a type declaration is `Other`.
#[derive(Debug)]
pub enum TsModuleItem {
    Interface(TsInterfaceDecl),
    TypeAlias(TsTypeAliasDecl),
    Enum(TsEnumDecl),
    Other,
}

/// A parsed module.
#[derive(Debug)]
pub struct TsModule {
    pub body: Vec<TsModuleItem>,
}

/// One converted type declaration, ready for code generation.
#[derive(Debug)]
pub struct TsTypeInfo {
    /// The declared name.
    pub name: String,
    /// The `TypeDef` the declaration maps to.
    pub typedef: TypeDef,
    /// Whether the declaration was an interface.
    pub is_interface: bool,
}

/// The view of a converted declaration.
#[verifier::ext_equal]
pub ghost struct TsTypeInfoV {
    pub name: Seq<char>,
    pub typedef: TypeDefV,
    pub is_interface: bool,
}

impl View for TsTypeInfo {
    type V = TsTypeInfoV;

    open spec fn view(&self) -> TsTypeInfoV {
        TsTypeInfoV { name: self.name@, typedef: self.typedef@, is_interface: self.is_interface }
    }
}

/// What a keyword maps to: its primitive, `object` to an empty object, and
/// `symbol` and `intrinsic` to `any`.
pub open spec fn conv_keyword(k: TsKeyword) -> TypeDefV {
    match k {
        TsKeyword::Str => TypeDefV::Primitive(Primitive::String),
        TsKeyword::Num => TypeDefV::Primitive(Primitive::Number),
        TsKeyword::Bool => TypeDefV::Primitive(Primitive::Boolean),
        TsKeyword::Null => TypeDefV::Primitive(Primitive::Null),
        TsKeyword::Undefined => TypeDefV::Primitive(Primitive::Undefined),
        TsKeyword::Void => TypeDefV::Primitive(Primitive::Void),
        TsKeyword::Never => TypeDefV::Primitive(Primitive::Never),
        TsKeyword::Any => TypeDefV::Primitive(Primitive::Any),
        TsKeyword::Unknown => TypeDefV::Primitive(Primitive::Unknown),
        TsKeyword::BigInt => TypeDefV::Primitive(Primitive::BigInt),
        TsKeyword::Object => TypeDefV::Object(Seq::empty()),
        TsKeyword::Symbol => TypeDefV::Primitive(Primitive::Any),
        TsKeyword::Intrinsic => TypeDefV::Primitive(Primitive::Any),
    }
}

/// What a literal type maps to: string, number and boolean literals keep
/// their value; bigint literals become the `bigint` primitive and template
/// literal types the `string` primitive.
pub open spec fn conv_lit(l: TsLit) -> TypeDefV {
    match l {
        TsLit::Str(s) => TypeDefV::Literal(LiteralV::String(s@)),
        TsLit::Num { mantissa, scale } => TypeDefV::Literal(
            LiteralV::Number { mantissa: mantissa as int, scale: scale as nat },
        ),
        TsLit::Bool(b) => TypeDefV::Literal(LiteralV::Boolean(b)),
        TsLit::BigInt => TypeDefV::Primitive(Primitive::BigInt),
        TsLit::Tpl => TypeDefV::Primitive(Primitive::String),
    }
}

/// A qualified name joined with dots.
pub open spec fn dotted(path: Seq<Seq<char>>) -> Seq<char> {
    joined(path, "."@)
}

/// The field a property signature contributes: none for a computed key, a
/// field under its name otherwise, `any` where the annotation is missing,
/// with the optional and readonly markers kept.
pub open spec fn conv_prop(p: TsProperty) -> Option<FieldV>
    decreases p, 0int,
{
    match p.key {
        Option::None => Option::None,
        Option::Some(k) => Option::Some(
            FieldV {
                name: k@,
                ty: match p.ann {
                    Option::Some(t) => conv_type(*t),
                    Option::None => TypeDefV::Primitive(Primitive::Any),
                },
                optional: p.optional,
                readonly: p.readonly,
            },
        ),
    }
}

/// The fields of an interface body or type literal: property signatures
/// with plain keys, in order; everything else is skipped.
pub open spec fn conv_elements(es: Seq<TsTypeElement>) -> Seq<FieldV>
    decreases es, 1int,
{
    if es.len() == 0 {
        Seq::empty()
    } else {
        conv_elements(es.drop_last()) + (match es.last() {
            TsTypeElement::Property(p) => match conv_prop(p) {
                Option::Some(f) => seq![f],
                Option::None => Seq::empty(),
            },
            TsTypeElement::Other => Seq::empty(),
        })
    }
}

/// The name and type of one function parameter: an identifier keeps its
/// name, destructuring and rest patterns are named positionally; a missing
/// annotation is `any` (an array of `any` for a rest pattern).
pub open spec fn conv_param(p: TsFnParam, i: int) -> FieldV
    decreases p, 0int,
{
    match p {
        TsFnParam::Ident { name, ann } => FieldV {
            name: name@,
            ty: match ann {
                Option::Some(t) => conv_type(*t),
                Option::None => TypeDefV::Primitive(Primitive::Any),
            },
            optional: false,
            readonly: false,
        },
        TsFnParam::ArrayPat { ann } => FieldV {
            name: "arg"@ + dec_digits(i as nat),
            ty: match ann {
                Option::Some(t) => conv_type(*t),
                Option::None => TypeDefV::Primitive(Primitive::Any),
            },
            optional: false,
            readonly: false,
        },
        TsFnParam::Rest { ann } => FieldV {
            name: "rest"@ + dec_digits(i as nat),
            ty: match ann {
                Option::Some(t) => conv_type(*t),
                Option::None => TypeDefV::Array(Box::new(TypeDefV::Primitive(Primitive::Any))),
            },
            optional: false,
            readonly: false,
        },
        TsFnParam::ObjectPat { ann } => FieldV {
            name: "arg"@ + dec_digits(i as nat),
            ty: match ann {
                Option::Some(t) => conv_type(*t),
                Option::None => TypeDefV::Primitive(Primitive::Any),
            },
            optional: false,
            readonly: false,
        },
    }
}

pub open spec fn conv_params(ps: Seq<TsFnParam>) -> Seq<FieldV>
    decreases ps, 1int,
{
    if ps.len() == 0 {
        Seq::empty()
    } else {
        conv_params(ps.drop_last()).push(conv_param(ps.last(), ps.len() - 1))
    }
}

pub open spec fn conv_type_seq(ts: Seq<TsType>) -> Seq<TypeDefV>
    decreases ts, 0int,
{
    if ts.len() == 0 {
        Seq::empty()
    } else {
        conv_type_seq(ts.drop_last()).push(conv_type(ts.last()))
    }
}

/// What a type reference maps to. `Array` becomes an array of its first
/// argument (of `any` without one); `Record` becomes a keyed map, of
/// `string` to `any` without two arguments; `Promise`, `Map`, `Set`,
/// `WeakMap` and `WeakSet` stay generic applications; any other name is a
/// bare reference, or a generic application when arguments are given.
pub open spec fn conv_type_ref(path: Seq<Seq<char>>, args: Seq<TsType>) -> TypeDefV
    decreases args, 1int,
{
    let name = dotted(path);
    if name == "Array"@ {
        if args.len() >= 1 {
            TypeDefV::Array(Box::new(conv_type(args[0])))
        } else {
            TypeDefV::Array(Box::new(TypeDefV::Primitive(Primitive::Any)))
        }
    } else if name == "Record"@ {
        if args.len() >= 2 {
            TypeDefV::Record {
                key: Box::new(conv_type(args[0])),
                value: Box::new(conv_type(args[1])),
            }
        } else {
            TypeDefV::Record {
                key: Box::new(TypeDefV::Primitive(Primitive::String)),
                value: Box::new(TypeDefV::Primitive(Primitive::Any)),
            }
        }
    } else if name == "Promise"@ || name == "Map"@ || name == "Set"@ || name == "WeakMap"@
        || name == "WeakSet"@ {
        TypeDefV::Generic { base: name, args: conv_type_seq(args) }
    } else {
        if args.len() == 0 {
            TypeDefV::Ref(name)
        } else {
            TypeDefV::Generic { base: name, args: conv_type_seq(args) }
        }
    }
}

/// What a type expression maps to: keywords, arrays, unions, intersections,
/// references, object literals, literals, tuples and function types keep
/// their structure; a parenthesised type is transparent; `T?` becomes
/// `T | null`; a rest type becomes an array; a simple indexed access
/// `Base["key"]` is kept and any other indexed access, constructor type or
/// opaque form becomes `any`; a type predicate becomes `boolean`.
pub open spec fn conv_type(t: TsType) -> TypeDefV
    decreases t, 2int,
{
    match t {
        TsType::Keyword(k) => conv_keyword(k),
        TsType::Array(inner) => TypeDefV::Array(Box::new(conv_type(*inner))),
        TsType::Union(items) => TypeDefV::Union(conv_type_seq(items@)),
        TsType::Intersection(items) => TypeDefV::Intersection(conv_type_seq(items@)),
        TsType::TypeRef { path, args } => conv_type_ref(view_string_seq(path@), args@),
        TsType::TypeLit(es) => TypeDefV::Object(conv_elements(es@)),
        TsType::Lit(l) => conv_lit(l),
        TsType::Tuple(items) => TypeDefV::Tuple(conv_type_seq(items@)),
        TsType::Paren(inner) => conv_type(*inner),
        TsType::OptionalType(inner) => TypeDefV::Union(
            seq![conv_type(*inner), TypeDefV::Primitive(Primitive::Null)],
        ),
        TsType::FnType { params, ret } => TypeDefV::Function {
            params: conv_params(params@),
            return_type: Box::new(conv_type(*ret)),
        },
        TsType::CtorType => TypeDefV::Primitive(Primitive::Any),
        TsType::IndexedAccess { obj, index } => conv_indexed(*obj, *index),
        TsType::Rest(inner) => TypeDefV::Array(Box::new(conv_type(*inner))),
        TsType::Predicate => TypeDefV::Primitive(Primitive::Boolean),
        TsType::Opaque => TypeDefV::Primitive(Primitive::Any),
    }
}

/// A simple indexed access `Base["key"]` keeps its base name and key;
/// anything else becomes `any`.
pub open spec fn conv_indexed(obj: TsType, index: TsType) -> TypeDefV {
    match obj {
        TsType::TypeRef { path, args } => match index {
            TsType::Lit(l) => match l {
                TsLit::Str(k) => TypeDefV::IndexedAccess {
                    base: dotted(view_string_seq(path@)),
                    key: k@,
                },
                _ => TypeDefV::Primitive(Primitive::Any),
            },
            _ => TypeDefV::Primitive(Primitive::Any),
        },
        _ => TypeDefV::Primitive(Primitive::Any),
    }
}

/// One converted type parameter.
pub open spec fn conv_type_param(p: TsTypeParamDecl) -> TypeParamV
    decreases p, 0int,
{
    TypeParamV {
        name: p.name@,
        constraint: match p.constraint {
            Option::Some(t) => Option::Some(Box::new(conv_type(*t))),
            Option::None => Option::None,
        },
        default: match p.default {
            Option::Some(t) => Option::Some(Box::new(conv_type(*t))),
            Option::None => Option::None,
        },
    }
}

pub open spec fn conv_type_params(ps: Seq<TsTypeParamDecl>) -> Seq<TypeParamV>
    decreases ps, 1int,
{
    if ps.len() == 0 {
        Seq::empty()
    } else {
        conv_type_params(ps.drop_last()).push(conv_type_param(ps.last()))
    }
}

/// The literal one enum member contributes: its string or number
/// initialiser, or its own name for a missing or computed initialiser.
pub open spec fn conv_enum_member(m: TsEnumMember) -> TypeDefV {
    match m.init {
        Option::Some(init) => match init {
            TsEnumInit::Str(s) => TypeDefV::Literal(LiteralV::String(s@)),
            TsEnumInit::Num { mantissa, scale } => TypeDefV::Literal(
                LiteralV::Number { mantissa: mantissa as int, scale: scale as nat },
            ),
            TsEnumInit::Other => TypeDefV::Literal(LiteralV::String(m.name@)),
        },
        Option::None => TypeDefV::Literal(LiteralV::String(m.name@)),
    }
}

pub open spec fn conv_enum_members(ms: Seq<TsEnumMember>) -> Seq<TypeDefV> {
    Seq::new(ms.len(), |i: int| conv_enum_member(ms[i]))
}

/// A declaration with no type parameters wraps its body in a plain
/// `Named` node; a generic one becomes a `GenericDef`.
pub open spec fn decl_typedef(
    name: Seq<char>,
    params: Seq<TsTypeParamDecl>,
    body: TypeDefV,
) -> TypeDefV {
    if params.len() == 0 {
        TypeDefV::Named {
            namespace: Seq::empty(),
            name: name,
            def: Box::new(body),
            module: Option::None,
            wrapper: Option::None,
        }
    } else {
        TypeDefV::GenericDef {
            name: name,
            type_params: conv_type_params(params),
            def: Box::new(body),
        }
    }
}

/// What one module item converts to, if anything: an interface becomes an
/// object declaration, a type alias its aliased type, an enum a union of
/// its member literals.
pub open spec fn conv_item(item: TsModuleItem) -> Option<TsTypeInfoV> {
    match item {
        TsModuleItem::Interface(d) => Option::Some(
            TsTypeInfoV {
                name: d.name@,
                typedef: decl_typedef(
                    d.name@,
                    d.type_params@,
                    TypeDefV::Object(conv_elements(d.body@)),
                ),
                is_interface: true,
            },
        ),
        TsModuleItem::TypeAlias(d) => Option::Some(
            TsTypeInfoV {
                name: d.name@,
                typedef: decl_typedef(d.name@, d.type_params@, conv_type(d.ann)),
                is_interface: false,
            },
        ),
        TsModuleItem::Enum(d) => Option::Some(
            TsTypeInfoV {
                name: d.name@,
                typedef: TypeDefV::Named {
                    namespace: Seq::empty(),
                    name: d.name@,
                    def: Box::new(TypeDefV::Union(conv_enum_members(d.members@))),
                    module: Option::None,
                    wrapper: Option::None,
                },
                is_interface: false,
            },
        ),
        TsModuleItem::Other => Option::None,
    }
}

/// The declarations a module converts to, in order.
pub open spec fn conv_module(items: Seq<TsModuleItem>) -> Seq<TsTypeInfoV>
    decreases items,
{
    if items.len() == 0 {
        Seq::empty()
    } else {
        conv_module(items.drop_last()) + (match conv_item(items.last()) {
            Option::Some(info) => seq![info],
            Option::None => Seq::empty(),
        })
    }
}


/// Joins a qualified name with dots.
#[verifier::loop_isolation(false)]
fn format_qualified_name(path: &Vec<String>) -> (r: String)
    ensures
        r@ == dotted(view_string_seq(path@)),
{
    let ghost parts = view_string_seq(path@);
    let mut out = String::new();
    let mut i: usize = 0;
    while i < path.len()
        invariant
            i <= path@.len(),
            out@ == joined(parts.take(i as int), "."@),
        decreases path@.len() - i,
    {
        if i > 0 {
            out.append(".");
        }
        out.append(path[i].as_str());
        proof {
            assert(parts.take(i + 1).drop_last() =~= parts.take(i as int));
            assert(parts.take(i + 1).last() == path@[i as int]@);
            assert(out@ =~= joined(parts.take(i + 1), "."@));
        }
        i = i + 1;
    }
    proof {
        assert(parts.take(parts.len() as int) =~= parts);
    }
    out
}

/// Converts the keyword types.
fn convert_keyword_type(k: TsKeyword) -> (r: TypeDef)
    ensures
        r@ == conv_keyword(k),
{
    match k {
        TsKeyword::Str => TypeDef::Primitive(Primitive::String),
        TsKeyword::Num => TypeDef::Primitive(Primitive::Number),
        TsKeyword::Bool => TypeDef::Primitive(Primitive::Boolean),
        TsKeyword::Null => TypeDef::Primitive(Primitive::Null),
        TsKeyword::Undefined => TypeDef::Primitive(Primitive::Undefined),
        TsKeyword::Void => TypeDef::Primitive(Primitive::Void),
        TsKeyword::Never => TypeDef::Primitive(Primitive::Never),
        TsKeyword::Any => TypeDef::Primitive(Primitive::Any),
        TsKeyword::Unknown => TypeDef::Primitive(Primitive::Unknown),
        TsKeyword::BigInt => TypeDef::Primitive(Primitive::BigInt),
        TsKeyword::Object => {
            let fs: Vec<Field> = Vec::new();
            proof {
                assert(view_field_seq(fs@) =~= Seq::<FieldV>::empty());
            }
            let r = TypeDef::Object(fs);
            proof {
                assert(r@ =~~= conv_keyword(k));
            }
            r
        }
        TsKeyword::Symbol => TypeDef::Primitive(Primitive::Any),
        TsKeyword::Intrinsic => TypeDef::Primitive(Primitive::Any),
    }
}

/// Converts the literal types.
fn convert_literal_type(l: &TsLit) -> (r: TypeDef)
    ensures
        r@ == conv_lit(*l),
{
    match l {
        TsLit::Str(s) => TypeDef::Literal(Literal::String(s.clone())),
        TsLit::Num { mantissa, scale } => TypeDef::Literal(
            Literal::Number { mantissa: *mantissa, scale: *scale },
        ),
        TsLit::Bool(b) => TypeDef::Literal(Literal::Boolean(*b)),
        TsLit::BigInt => TypeDef::Primitive(Primitive::BigInt),
        TsLit::Tpl => TypeDef::Primitive(Primitive::String),
    }
}

/// Converts a simple indexed access, `any` for anything else.
fn convert_indexed_access(obj: &TsType, index: &TsType) -> (r: TypeDef)
    ensures
        r@ == conv_indexed(*obj, *index),
{
    match obj {
        TsType::TypeRef { path, .. } => match index {
            TsType::Lit(l) => match l {
                TsLit::Str(k) => {
                    let base = format_qualified_name(path);
                    TypeDef::IndexedAccess { base, key: k.clone() }
                }
                _ => TypeDef::Primitive(Primitive::Any),
            },
            _ => TypeDef::Primitive(Primitive::Any),
        },
        _ => TypeDef::Primitive(Primitive::Any),
    }
}

/// Converts a type expression.
#[verifier::loop_isolation(false)]
fn convert_ts_type(t: &TsType) -> (r: TypeDef)
    ensures
        r@ == conv_type(*t),
    decreases *t, 9int,
{
    match t {
        TsType::Keyword(k) => convert_keyword_type(*k),
        TsType::Array(inner) => TypeDef::Array(Box::new(convert_ts_type(inner))),
        TsType::Union(items) => {
            let parts = convert_type_vec(t, items);
            TypeDef::Union(parts)
        }
        TsType::Intersection(items) => {
            let parts = convert_type_vec(t, items);
            TypeDef::Intersection(parts)
        }
        TsType::TypeRef { path, args } => convert_type_ref(t, path, args),
        TsType::TypeLit(es) => {
            proof {
                assert(decreases_to!(*t => *es));
            }
            let fields = convert_type_elements(es);
            TypeDef::Object(fields)
        }
        TsType::Lit(l) => convert_literal_type(l),
        TsType::Tuple(items) => {
            let parts = convert_type_vec(t, items);
            TypeDef::Tuple(parts)
        }
        TsType::Paren(inner) => convert_ts_type(inner),
        TsType::OptionalType(inner) => {
            let mut parts: Vec<TypeDef> = Vec::new();
            parts.push(convert_ts_type(inner));
            parts.push(TypeDef::Primitive(Primitive::Null));
            proof {
                lemma_view_typedef_seq(parts@);
                assert(view_typedef_seq(parts@) =~= seq![
                    conv_type(**inner),
                    TypeDefV::Primitive(Primitive::Null),
                ]);
            }
            TypeDef::Union(parts)
        }
        TsType::FnType { params, ret } => {
            proof {
                assert(decreases_to!(*t => *params));
            }
            let fs = convert_fn_params(t, params);
            TypeDef::Function { params: fs, return_type: Box::new(convert_ts_type(ret)) }
        }
        TsType::CtorType => TypeDef::Primitive(Primitive::Any),
        TsType::IndexedAccess { obj, index } => convert_indexed_access(obj, index),
        TsType::Rest(inner) => TypeDef::Array(Box::new(convert_ts_type(inner))),
        TsType::Predicate => TypeDef::Primitive(Primitive::Boolean),
        TsType::Opaque => TypeDef::Primitive(Primitive::Any),
    }
}

/// Converts each element of a vector of types held inside `whole`.
#[verifier::loop_isolation(false)]
fn convert_type_vec(whole: &TsType, items: &Vec<TsType>) -> (r: Vec<TypeDef>)
    requires
        decreases_to!(*whole => *items),
    ensures
        view_typedef_seq(r@) == conv_type_seq(items@),
        r@.len() == items@.len(),
    decreases *whole, 7int,
{
    let mut out: Vec<TypeDef> = Vec::new();
    let mut i: usize = 0;
    while i < items.len()
        invariant
            i <= items@.len(),
            out@.len() == i,
            forall|j: int|
                0 <= j < i ==> view_typedef(#[trigger] out@[j]) == conv_type(items@[j]),
        decreases items@.len() - i,
    {
        proof {
            assert(decreases_to!(*items => items@[i as int]));
        }
        let td = convert_ts_type(&items[i]);
        out.push(td);
        i = i + 1;
    }
    proof {
        lemma_view_typedef_seq(out@);
        lemma_conv_type_seq(items@);
        assert(view_typedef_seq(out@) =~= conv_type_seq(items@));
    }
    out
}

/// Elements of a converted sequence line up with the elements.
proof fn lemma_conv_type_seq(ts: Seq<TsType>)
    ensures
        conv_type_seq(ts).len() == ts.len(),
        forall|i: int| 0 <= i < ts.len() ==> conv_type_seq(ts)[i] == conv_type(ts[i]),
    decreases ts,
{
    if ts.len() > 0 {
        lemma_conv_type_seq(ts.drop_last());
    }
}

/// Converts a type reference.
#[verifier::loop_isolation(false)]
fn convert_type_ref(whole: &TsType, path: &Vec<String>, args: &Vec<TsType>) -> (r: TypeDef)
    requires
        decreases_to!(*whole => *args),
        *whole == (TsType::TypeRef { path: *path, args: *args }),
    ensures
        r@ == conv_type_ref(view_string_seq(path@), args@),
    decreases *whole, 8int,
{
    let name = format_qualified_name(path);
    if str_eq(name.as_str(), "Array") {
        if args.len() >= 1 {
            proof {
                assert(decreases_to!(*args => args@[0]));
            }
            let inner = convert_ts_type(&args[0]);
            let r = TypeDef::Array(Box::new(inner));
            proof {
                match &r {
                    TypeDef::Array(bx) => {
                        assert(view_typedef(**bx) == conv_type(args@[0]));
                        assert(r@ == TypeDefV::Array(Box::new(view_typedef(**bx))));
                    }
                    _ => {}
                }
            }
            r
        } else {
            let r = TypeDef::Array(Box::new(TypeDef::Primitive(Primitive::Any)));
            proof {
                match &r {
                    TypeDef::Array(bx) => {
                        assert(view_typedef(**bx) == TypeDefV::Primitive(Primitive::Any));
                        assert(r@ == TypeDefV::Array(Box::new(view_typedef(**bx))));
                    }
                    _ => {}
                }
            }
            r
        }
    } else if str_eq(name.as_str(), "Record") {
        if args.len() >= 2 {
            proof {
                assert(decreases_to!(*args => args@[0]));
                assert(decreases_to!(*args => args@[1]));
            }
            let k = convert_ts_type(&args[0]);
            let v = convert_ts_type(&args[1]);
            let r = TypeDef::Record { key: Box::new(k), value: Box::new(v) };
            proof {
                match &r {
                    TypeDef::Record { key, value } => {
                        assert(view_typedef(**key) == conv_type(args@[0]));
                        assert(view_typedef(**value) == conv_type(args@[1]));
                        assert(r@ == TypeDefV::Record {
                            key: Box::new(view_typedef(**key)),
                            value: Box::new(view_typedef(**value)),
                        });
                    }
                    _ => {}
                }
            }
            r
        } else {
            let r = TypeDef::Record {
                key: Box::new(TypeDef::Primitive(Primitive::String)),
                value: Box::new(TypeDef::Primitive(Primitive::Any)),
            };
            proof {
                match &r {
                    TypeDef::Record { key, value } => {
                        assert(view_typedef(**key) == TypeDefV::Primitive(Primitive::String));
                        assert(view_typedef(**value) == TypeDefV::Primitive(Primitive::Any));
                        assert(r@ == TypeDefV::Record {
                            key: Box::new(view_typedef(**key)),
                            value: Box::new(view_typedef(**value)),
                        });
                    }
                    _ => {}
                }
            }
            r
        }
    } else if str_eq(name.as_str(), "Promise") || str_eq(name.as_str(), "Map") || str_eq(
        name.as_str(),
        "Set",
    ) || str_eq(name.as_str(), "WeakMap") || str_eq(name.as_str(), "WeakSet") {
        let parts = convert_type_vec(whole, args);
        TypeDef::Generic { base: name, args: parts }
    } else {
        if args.len() == 0 {
            let r = TypeDef::Ref(name);
            proof {
                assert(r@ =~~= conv_type_ref(view_string_seq(path@), args@));
            }
            r
        } else {
            let parts = convert_type_vec(whole, args);
            TypeDef::Generic { base: name, args: parts }
        }
    }
}

/// Converts the property-signature elements of an interface body or type
/// literal, skipping everything else.
#[verifier::loop_isolation(false)]
fn convert_type_elements(es: &Vec<TsTypeElement>) -> (r: Vec<Field>)
    ensures
        view_field_seq(r@) == conv_elements(es@),
    decreases *es, 9int,
{
    let mut out: Vec<Field> = Vec::new();
    let mut i: usize = 0;
    while i < es.len()
        invariant
            i <= es@.len(),
            view_field_seq(out@) == conv_elements(es@.take(i as int)),
        decreases es@.len() - i,
    {
        let ghost before = out@;
        match &es[i] {
            TsTypeElement::Property(p) => {
                proof {
                    assert(decreases_to!(*es => es@[i as int]));
                }
                match &p.key {
                    Option::None => {}
                    Option::Some(k) => {
                        let ty = match &p.ann {
                            Option::Some(t) => {
                                proof {
                                    assert(decreases_to!(es@[i as int] => p.ann));
                                }
                                convert_ts_type(t)
                            }
                            Option::None => TypeDef::Primitive(Primitive::Any),
                        };
                        let f = Field {
                            name: k.clone(),
                            ty,
                            optional: p.optional,
                            readonly: p.readonly,
                        };
                        proof {
                            assert(conv_prop(*p) == Option::Some(view_field(f)));
                        }
                        out.push(f);
                    }
                }
            }
            TsTypeElement::Other => {}
        }
        proof {
            assert(es@.take(i + 1).drop_last() =~= es@.take(i as int));
            lemma_view_field_seq(out@);
            lemma_view_field_seq(before);
            assert(view_field_seq(out@) =~= conv_elements(es@.take(i + 1)));
        }
        i = i + 1;
    }
    proof {
        assert(es@.take(es@.len() as int) =~= es@);
    }
    out
}

/// Converts the parameters of a function type, naming destructuring and
/// rest patterns by position.
#[verifier::loop_isolation(false)]
fn convert_fn_params(whole: &TsType, params: &Vec<TsFnParam>) -> (r: Vec<Field>)
    requires
        decreases_to!(*whole => *params),
    ensures
        view_field_seq(r@) == conv_params(params@),
        r@.len() == params@.len(),
    decreases *whole, 7int,
{
    let mut out: Vec<Field> = Vec::new();
    let mut i: usize = 0;
    while i < params.len()
        invariant
            i <= params@.len(),
            out@.len() == i,
            forall|j: int|
                0 <= j < i ==> view_field(#[trigger] out@[j]) == conv_param(params@[j], j),
        decreases params@.len() - i,
    {
        proof {
            assert(decreases_to!(*params => params@[i as int]));
        }
        let f = extract_param_info(params, i);
        out.push(f);
        i = i + 1;
    }
    proof {
        lemma_view_field_seq(out@);
        lemma_conv_params(params@);
        assert(view_field_seq(out@) =~= conv_params(params@));
    }
    out
}

proof fn lemma_conv_params(ps: Seq<TsFnParam>)
    ensures
        conv_params(ps).len() == ps.len(),
        forall|i: int| 0 <= i < ps.len() ==> conv_params(ps)[i] == conv_param(ps[i], i),
    decreases ps,
{
    if ps.len() > 0 {
        lemma_conv_params(ps.drop_last());
    }
}

/// Converts one function parameter of `params`, at position `i`.
fn extract_param_info(params: &Vec<TsFnParam>, i: usize) -> (r: Field)
    requires
        i < params@.len(),
        decreases_to!(*params => params@[i as int]),
    ensures
        view_field(r) == conv_param(params@[i as int], i as int),
    decreases *params, 7int,
{
    let p = &params[i];
    match p {
        TsFnParam::Ident { name, ann } => {
            let ty = match ann {
                Option::Some(t) => {
                    proof {
                        assert(decreases_to!(*p => *t));
                    }
                    convert_ts_type(t)
                }
                Option::None => TypeDef::Primitive(Primitive::Any),
            };
            Field { name: name.clone(), ty, optional: false, readonly: false }
        }
        TsFnParam::ArrayPat { ann } => {
            let ty = match ann {
                Option::Some(t) => {
                    proof {
                        assert(decreases_to!(*p => *t));
                    }
                    convert_ts_type(t)
                }
                Option::None => TypeDef::Primitive(Primitive::Any),
            };
            let mut name = String::new();
            name.append("arg");
            push_u64_dec(&mut name, i as u64);
            Field { name, ty, optional: false, readonly: false }
        }
        TsFnParam::Rest { ann } => {
            let ty = match ann {
                Option::Some(t) => {
                    proof {
                        assert(decreases_to!(*p => *t));
                    }
                    convert_ts_type(t)
                }
                Option::None => TypeDef::Array(Box::new(TypeDef::Primitive(Primitive::Any))),
            };
            let mut name = String::new();
            name.append("rest");
            push_u64_dec(&mut name, i as u64);
            let f = Field { name, ty, optional: false, readonly: false };
            proof {
                assert(view_field(f) =~~= conv_param(params@[i as int], i as int));
            }
            f
        }
        TsFnParam::ObjectPat { ann } => {
            let ty = match ann {
                Option::Some(t) => {
                    proof {
                        assert(decreases_to!(*p => *t));
                    }
                    convert_ts_type(t)
                }
                Option::None => TypeDef::Primitive(Primitive::Any),
            };
            let mut name = String::new();
            name.append("arg");
            push_u64_dec(&mut name, i as u64);
            Field { name, ty, optional: false, readonly: false }
        }
    }
}

/// Converts one generic type parameter.
fn convert_type_param(p: &TsTypeParamDecl) -> (r: TypeParam)
    ensures
        r@ == conv_type_param(*p),
{
    let constraint = match &p.constraint {
        Option::Some(t) => Option::Some(Box::new(convert_ts_type(t))),
        Option::None => Option::None,
    };
    let default = match &p.default {
        Option::Some(t) => Option::Some(Box::new(convert_ts_type(t))),
        Option::None => Option::None,
    };
    let r = TypeParam { name: p.name.clone(), constraint, default };
    proof {
        assert(r@ =~~= conv_type_param(*p));
    }
    r
}

/// Converts the generic type parameters of a declaration.
#[verifier::loop_isolation(false)]
fn convert_type_params(ps: &Vec<TsTypeParamDecl>) -> (r: Vec<TypeParam>)
    ensures
        crate::ir::view_param_seq(r@) == conv_type_params(ps@),
{
    let mut out: Vec<TypeParam> = Vec::new();
    let mut i: usize = 0;
    while i < ps.len()
        invariant
            i <= ps@.len(),
            out@.len() == i,
            forall|j: int|
                0 <= j < i ==> crate::ir::view_param(#[trigger] out@[j]) == conv_type_param(
                    ps@[j],
                ),
        decreases ps@.len() - i,
    {
        let p = convert_type_param(&ps[i]);
        out.push(p);
        i = i + 1;
    }
    proof {
        crate::ir::lemma_view_param_seq(out@);
        lemma_conv_type_params(ps@);
        assert(crate::ir::view_param_seq(out@) =~= conv_type_params(ps@));
    }
    out
}

proof fn lemma_conv_type_params(ps: Seq<TsTypeParamDecl>)
    ensures
        conv_type_params(ps).len() == ps.len(),
        forall|i: int| 0 <= i < ps.len() ==> conv_type_params(ps)[i] == conv_type_param(ps[i]),
    decreases ps,
{
    if ps.len() > 0 {
        lemma_conv_type_params(ps.drop_last());
    }
}

/// Wraps a converted declaration body: plain `Named` without type
/// parameters, `GenericDef` with them.
fn make_decl_typedef(name: &String, params: &Vec<TsTypeParamDecl>, body: TypeDef) -> (r: TypeDef)
    ensures
        r@ == decl_typedef(name@, params@, body@),
{
    let ghost body_v = body@;
    if params.len() == 0 {
        let ns_vec: Vec<String> = Vec::new();
        let r = TypeDef::Named {
            namespace: ns_vec,
            name: name.clone(),
            def: Box::new(body),
            module: Option::None,
            wrapper: Option::None,
        };
        proof {
            assert(r@ =~~= decl_typedef(name@, params@, body_v));
        }
        r
    } else {
        let tps = convert_type_params(params);
        let r = TypeDef::GenericDef { name: name.clone(), type_params: tps, def: Box::new(body) };
        proof {
            assert(r@ =~~= decl_typedef(name@, params@, body_v));
        }
        r
    }
}

/// Converts an interface declaration.
fn convert_interface(d: &TsInterfaceDecl) -> (r: TsTypeInfo)
    ensures
        Option::Some(r@) == conv_item(TsModuleItem::Interface(*d)),
{
    let fields = convert_type_elements(&d.body);
    let body = TypeDef::Object(fields);
    let typedef = make_decl_typedef(&d.name, &d.type_params, body);
    let r = TsTypeInfo { name: d.name.clone(), typedef, is_interface: true };
    proof {
        assert(Option::Some(r@) =~~= conv_item(TsModuleItem::Interface(*d)));
    }
    r
}

/// Converts a type-alias declaration.
fn convert_type_alias(d: &TsTypeAliasDecl) -> (r: TsTypeInfo)
    ensures
        Option::Some(r@) == conv_item(TsModuleItem::TypeAlias(*d)),
{
    let inner = convert_ts_type(&d.ann);
    let typedef = make_decl_typedef(&d.name, &d.type_params, inner);
    let r = TsTypeInfo { name: d.name.clone(), typedef, is_interface: false };
    proof {
        assert(Option::Some(r@) =~~= conv_item(TsModuleItem::TypeAlias(*d)));
    }
    r
}

/// Converts an enum declaration to a union of its member literals.
#[verifier::loop_isolation(false)]
fn convert_ts_enum(d: &TsEnumDecl) -> (r: TsTypeInfo)
    ensures
        Option::Some(r@) == conv_item(TsModuleItem::Enum(*d)),
{
    let mut parts: Vec<TypeDef> = Vec::new();
    let mut i: usize = 0;
    while i < d.members.len()
        invariant
            i <= d.members@.len(),
            parts@.len() == i,
            forall|j: int|
                0 <= j < i ==> view_typedef(#[trigger] parts@[j]) == conv_enum_member(
                    d.members@[j],
                ),
        decreases d.members@.len() - i,
    {
        let m = &d.members[i];
        let lit = match &m.init {
            Option::Some(init) => match init {
                TsEnumInit::Str(s) => TypeDef::Literal(Literal::String(s.clone())),
                TsEnumInit::Num { mantissa, scale } => TypeDef::Literal(
                    Literal::Number { mantissa: *mantissa, scale: *scale },
                ),
                TsEnumInit::Other => TypeDef::Literal(Literal::String(m.name.clone())),
            },
            Option::None => TypeDef::Literal(Literal::String(m.name.clone())),
        };
        parts.push(lit);
        i = i + 1;
    }
    proof {
        lemma_view_typedef_seq(parts@);
        assert(view_typedef_seq(parts@) =~= conv_enum_members(d.members@));
    }
    let inner = TypeDef::Union(parts);
    let ghost inner_v = inner@;
    proof {
        assert(inner_v =~~= TypeDefV::Union(conv_enum_members(d.members@)));
    }
    let ns_vec: Vec<String> = Vec::new();
    proof {
        assert(view_string_seq(ns_vec@) =~= Seq::<Seq<char>>::empty());
    }
    let typedef = TypeDef::Named {
        namespace: ns_vec,
        name: d.name.clone(),
        def: Box::new(inner),
        module: Option::None,
        wrapper: Option::None,
    };
    let r = TsTypeInfo { name: d.name.clone(), typedef, is_interface: false };
    proof {
        assert(Option::Some(r@) =~~= conv_item(TsModuleItem::Enum(*d)));
    }
    r
}

/// Converts a parsed module to its list of type declarations: every
/// interface, type alias and enum in order, everything else skipped.
#[verifier::loop_isolation(false)]
pub fn convert_module(module: &TsModule) -> (r: Vec<TsTypeInfo>)
    ensures
        r@.len() == conv_module(module.body@).len(),
        forall|i: int| 0 <= i < r@.len() ==> #[trigger] r@[i]@ == conv_module(module.body@)[i],
{
    let mut out: Vec<TsTypeInfo> = Vec::new();
    let mut i: usize = 0;
    while i < module.body.len()
        invariant
            i <= module.body@.len(),
            out@.len() == conv_module(module.body@.take(i as int)).len(),
            forall|j: int|
                0 <= j < out@.len() ==> #[trigger] out@[j]@ == conv_module(
                    module.body@.take(i as int),
                )[j],
        decreases module.body@.len() - i,
    {
        let ghost before = out@;
        match &module.body[i] {
            TsModuleItem::Interface(d) => {
                let info = convert_interface(d);
                out.push(info);
            }
            TsModuleItem::TypeAlias(d) => {
                let info = convert_type_alias(d);
                out.push(info);
            }
            TsModuleItem::Enum(d) => {
                let info = convert_ts_enum(d);
                out.push(info);
            }
            TsModuleItem::Other => {}
        }
        proof {
            assert(module.body@.take(i + 1).drop_last() =~= module.body@.take(i as int));
            assert(out@.len() == conv_module(module.body@.take(i + 1)).len());
            assert forall|j: int| 0 <= j < out@.len() implies #[trigger] out@[j]@ == conv_module(
                module.body@.take(i + 1),
            )[j] by {
                if j < before.len() {
                    assert(out@[j] == before[j]);
                }
            }
        }
        i = i + 1;
    }
    proof {
        assert(module.body@.take(module.body@.len() as int) =~= module.body@);
    }
    out
}

} // verus!
