//! Serialisation of [`TypeDef`] trees to TypeScript source text.
//!
//! Every rendering function is specified exactly, character for character,
//! by a spec function over the tree's view.

use vstd::prelude::*;
use vstd::string::StrSliceExecFns;
use vstd::string::StringExecFns;

use crate::ir::{
    lemma_view_field_seq, lemma_view_param_seq, lemma_view_typedef_seq, view_field, view_field_seq,
    view_param_seq, view_string_seq, view_typedef, view_typedef_seq, Field, FieldV, Literal,
    LiteralV, Primitive, TypeDef, TypeDefV, TypeParam, TypeParamV,
};
use crate::strutil::{number_chars, push_char, push_number};

verus! {

/// The keyword a primitive renders to.
pub open spec fn primitive_chars(p: Primitive) -> Seq<char> {
    match p {
        Primitive::String => "string"@,
        Primitive::Number => "number"@,
        Primitive::Boolean => "boolean"@,
        Primitive::Null => "null"@,
        Primitive::Undefined => "undefined"@,
        Primitive::Void => "void"@,
        Primitive::Never => "never"@,
        Primitive::Any => "any"@,
        Primitive::Unknown => "unknown"@,
        Primitive::BigInt => "bigint"@,
    }
}

/// How one character appears inside a string literal: backslash and quote
/// are escaped, everything else is kept.
pub open spec fn escape_char(c: char) -> Seq<char> {
    if c == '\\' {
        "\\\\"@
    } else if c == '"' {
        "\\\""@
    } else {
        seq![c]
    }
}

/// The escaped form of a string literal's contents.
pub open spec fn escaped_chars(s: Seq<char>) -> Seq<char>
    decreases s,
{
    if s.len() == 0 {
        Seq::empty()
    } else {
        escaped_chars(s.drop_last()) + escape_char(s.last())
    }
}

/// The rendering of a literal type: a quoted, escaped string, a decimal
/// number, or a boolean keyword.
pub open spec fn literal_chars(l: LiteralV) -> Seq<char> {
    match l {
        LiteralV::String(s) => "\""@ + escaped_chars(s) + "\""@,
        LiteralV::Number { mantissa, scale } => number_chars(mantissa, scale),
        LiteralV::Boolean(b) => if b {
            "true"@
        } else {
            "false"@
        },
    }
}

/// `parts` joined with `sep` between consecutive parts.
pub open spec fn joined(parts: Seq<Seq<char>>, sep: Seq<char>) -> Seq<char>
    decreases parts,
{
    if parts.len() == 0 {
        Seq::empty()
    } else if parts.len() == 1 {
        parts[0]
    } else {
        joined(parts.drop_last(), sep) + sep + parts.last()
    }
}

/// The element of `ss` at `i`, or empty when out of range.
pub open spec fn str_at(ss: Seq<Seq<char>>, i: int) -> Seq<char> {
    if 0 <= i < ss.len() {
        ss[i]
    } else {
        Seq::empty()
    }
}

/// The rendering of each type in a sequence.
pub open spec fn rendered_seq(items: Seq<TypeDefV>) -> Seq<Seq<char>>
    decreases items,
{
    if items.len() == 0 {
        Seq::empty()
    } else {
        rendered_seq(items.drop_last()).push(rendered(items.last()))
    }
}

/// The rendering of an object field: an optional `readonly ` prefix, the
/// name, `?` when optional, then `: ` and the field's type.
pub open spec fn field_chars(f: FieldV) -> Seq<char>
    decreases f,
{
    (if f.readonly {
        "readonly "@
    } else {
        Seq::empty()
    }) + f.name + (if f.optional {
        "?"@
    } else {
        Seq::empty()
    }) + ": "@ + rendered(f.ty)
}

/// The rendering of each field in a sequence.
pub open spec fn field_chars_seq(fs: Seq<FieldV>) -> Seq<Seq<char>>
    decreases fs,
{
    if fs.len() == 0 {
        Seq::empty()
    } else {
        field_chars_seq(fs.drop_last()).push(field_chars(fs.last()))
    }
}

/// The rendering of a function parameter: name, `: `, type.
pub open spec fn param_chars(f: FieldV) -> Seq<char>
    decreases f,
{
    f.name + ": "@ + rendered(f.ty)
}

/// The rendering of each parameter in a sequence.
pub open spec fn param_chars_seq(fs: Seq<FieldV>) -> Seq<Seq<char>>
    decreases fs,
{
    if fs.len() == 0 {
        Seq::empty()
    } else {
        param_chars_seq(fs.drop_last()).push(param_chars(fs.last()))
    }
}

/// The tail of a template literal from placeholder `i` on: for each
/// placeholder, `${`, the rendered type, `}`, then the following string.
pub open spec fn tpl_tail(ss: Seq<Seq<char>>, ts: Seq<TypeDefV>, i: int) -> Seq<char>
    decreases ts, ts.len() - i,
{
    if i < 0 || i >= ts.len() {
        Seq::empty()
    } else {
        "${"@ + rendered(ts[i]) + "}"@ + str_at(ss, i + 1) + tpl_tail(ss, ts, i + 1)
    }
}

/// The rendering of a `TypeDef`, in the inline position.
///
/// The single precedence rule: an array of a union parenthesises the union,
/// `(A | B)[]`, since `[]` binds tighter than `|`. A named type renders as
/// its bare name; its full declaration comes from `declaration_chars`.
pub open spec fn rendered(t: TypeDefV) -> Seq<char>
    decreases t,
{
    match t {
        TypeDefV::Primitive(p) => primitive_chars(p),
        TypeDefV::Array(inner) => if *inner is Union {
            "("@ + rendered(*inner) + ")[]"@
        } else {
            rendered(*inner) + "[]"@
        },
        TypeDefV::Tuple(items) => "["@ + joined(rendered_seq(items), ", "@) + "]"@,
        TypeDefV::Object(fields) => if fields.len() == 0 {
            "{}"@
        } else {
            "{ "@ + joined(field_chars_seq(fields), "; "@) + " }"@
        },
        TypeDefV::Union(items) => joined(rendered_seq(items), " | "@),
        TypeDefV::Intersection(items) => joined(rendered_seq(items), " & "@),
        TypeDefV::Record { key, value } => "Record<"@ + rendered(*key) + ", "@ + rendered(*value)
            + ">"@,
        TypeDefV::Named { name, .. } => name,
        TypeDefV::Ref(name) => name,
        TypeDefV::Literal(l) => literal_chars(l),
        TypeDefV::Function { params, return_type } => "("@ + joined(param_chars_seq(params), ", "@)
            + ") => "@ + rendered(*return_type),
        TypeDefV::Generic { base, args } => base + "<"@ + joined(rendered_seq(args), ", "@) + ">"@,
        TypeDefV::TemplateLiteral { strings, types } => "`"@ + str_at(strings, 0) + tpl_tail(
            strings,
            types,
            0,
        ) + "`"@,
        TypeDefV::IndexedAccess { base, key } => base + "[\""@ + key + "\"]"@,
        TypeDefV::GenericDef { name, .. } => name,
    }
}

/// A definition body with its optional utility-type wrapper applied.
pub open spec fn wrapped_chars(wrapper: Option<Seq<char>>, body: Seq<char>) -> Seq<char> {
    match wrapper {
        Option::Some(w) => w + "<"@ + body + ">"@,
        Option::None => body,
    }
}

/// The names of a sequence of type parameters.
pub open spec fn param_names(ps: Seq<TypeParamV>) -> Seq<Seq<char>> {
    Seq::new(ps.len(), |i: int| ps[i].name)
}

/// The rendering of a `TypeDef` in the declaration position: a `Named`
/// node declares `type Name = Body;` (with the wrapper applied to the
/// body), a `GenericDef` declares `type Name<P1, P2> = Body;`, and any
/// other node renders as in the inline position.
pub open spec fn declaration_chars(t: TypeDefV) -> Seq<char> {
    match t {
        TypeDefV::Named { name, def, wrapper, .. } => "type "@ + name + " = "@ + wrapped_chars(
            wrapper,
            rendered(*def),
        ) + ";"@,
        TypeDefV::GenericDef { name, type_params, def } => "type "@ + name + "<"@ + joined(
            param_names(type_params),
            ", "@,
        ) + "> = "@ + rendered(*def) + ";"@,
        _ => rendered(t),
    }
}

/// Views of a rendered sequence line up with renderings of the elements.
pub proof fn lemma_rendered_seq(items: Seq<TypeDefV>)
    ensures
        rendered_seq(items).len() == items.len(),
        forall|i: int| 0 <= i < items.len() ==> rendered_seq(items)[i] == rendered(items[i]),
    decreases items,
{
    if items.len() > 0 {
        lemma_rendered_seq(items.drop_last());
    }
}

/// Views of a rendered field sequence line up with the fields.
pub proof fn lemma_field_chars_seq(fs: Seq<FieldV>)
    ensures
        field_chars_seq(fs).len() == fs.len(),
        forall|i: int| 0 <= i < fs.len() ==> field_chars_seq(fs)[i] == field_chars(fs[i]),
    decreases fs,
{
    if fs.len() > 0 {
        lemma_field_chars_seq(fs.drop_last());
    }
}

/// Views of a rendered parameter sequence line up with the parameters.
pub proof fn lemma_param_chars_seq(fs: Seq<FieldV>)
    ensures
        param_chars_seq(fs).len() == fs.len(),
        forall|i: int| 0 <= i < fs.len() ==> param_chars_seq(fs)[i] == param_chars(fs[i]),
    decreases fs,
{
    if fs.len() > 0 {
        lemma_param_chars_seq(fs.drop_last());
    }
}

impl Primitive {
    /// Renders this primitive to its fixed TypeScript keyword.
    pub fn render(&self) -> (r: &'static str)
        ensures
            r@ == primitive_chars(*self),
    {
        match self {
            Primitive::String => "string",
            Primitive::Number => "number",
            Primitive::Boolean => "boolean",
            Primitive::Null => "null",
            Primitive::Undefined => "undefined",
            Primitive::Void => "void",
            Primitive::Never => "never",
            Primitive::Any => "any",
            Primitive::Unknown => "unknown",
            Primitive::BigInt => "bigint",
        }
    }
}

/// Appends the escaped form of `s`.
#[verifier::loop_isolation(false)]
fn push_escaped(s: &str, out: &mut String)
    ensures
        final(out)@ == old(out)@ + escaped_chars(s@),
{
    let n = s.unicode_len();
    let mut i: usize = 0;
    while i < n
        invariant
            i <= n,
            n == s@.len(),
            out@ == old(out)@ + escaped_chars(s@.take(i as int)),
        decreases n - i,
    {
        let c = s.get_char(i);
        if c == '\\' {
            out.append("\\\\");
        } else if c == '"' {
            out.append("\\\"");
        } else {
            push_char(out, c);
        }
        proof {
            assert(s@.take(i + 1).drop_last() =~= s@.take(i as int));
            assert(s@.take(i + 1).last() == s@[i as int]);
            assert(out@ =~= old(out)@ + escaped_chars(s@.take(i + 1)));
        }
        i = i + 1;
    }
    proof {
        assert(s@.take(n as int) =~= s@);
    }
}

impl Literal {
    /// Renders this literal to TypeScript syntax: strings are quoted with
    /// backslash and quote escaped, numbers are written in decimal with no
    /// trailing fraction for integral values.
    pub fn render(&self) -> (r: String)
        ensures
            r@ == literal_chars(self@),
    {
        match self {
            Literal::String(s) => {
                let mut out = String::new();
                out.append("\"");
                push_escaped(s.as_str(), &mut out);
                out.append("\"");
                proof {
                    assert(out@ =~= literal_chars(self@));
                }
                out
            }
            Literal::Number { mantissa, scale } => {
                let mut out = String::new();
                push_number(&mut out, *mantissa, *scale);
                proof {
                    assert(out@ =~= literal_chars(self@));
                }
                out
            }
            Literal::Boolean(b) => {
                if *b {
                    "true".to_owned()
                } else {
                    "false".to_owned()
                }
            }
        }
    }
}

/// Appends the renderings of `items`, separated by `sep`.
#[verifier::loop_isolation(false)]
fn push_rendered_list(whole: &TypeDef, items: &Vec<TypeDef>, sep: &str, out: &mut String)
    requires
        decreases_to!(*whole => *items),
    ensures
        final(out)@ == old(out)@ + joined(rendered_seq(view_typedef_seq(items@)), sep@),
    decreases *whole, 2int,
{
    proof {
        lemma_view_typedef_seq(items@);
        lemma_rendered_seq(view_typedef_seq(items@));
    }
    let ghost parts = rendered_seq(view_typedef_seq(items@));
    let mut i: usize = 0;
    while i < items.len()
        invariant
            i <= items.len(),
            out@ == old(out)@ + joined(parts.take(i as int), sep@),
        decreases items.len() - i,
    {
        if i > 0 {
            out.append(sep);
        }
        proof {
            assert(decreases_to!(*items => items@[i as int]));
        }
        push_rendered(&items[i], out);
        proof {
            assert(parts.take(i + 1).drop_last() =~= parts.take(i as int));
            assert(parts.take(i + 1).last() == rendered(view_typedef(items@[i as int])));
            if i == 0 {
                assert(joined(parts.take(1), sep@) == parts[0]);
                assert(out@ =~= old(out)@ + joined(parts.take(i + 1), sep@));
            } else {
                assert(out@ =~= old(out)@ + joined(parts.take(i + 1), sep@));
            }
        }
        i = i + 1;
    }
    proof {
        assert(parts.take(items@.len() as int) =~= parts);
    }
}

/// Appends the rendering of the type of one field of `whole`.
fn push_field_ty(whole: &TypeDef, f: &Field, out: &mut String)
    requires
        decreases_to!(*whole => *f),
    ensures
        final(out)@ == old(out)@ + rendered(f.ty@),
    decreases *whole, 1int,
{
    proof {
        assert(decreases_to!(*f => f.ty));
    }
    push_rendered(&f.ty, out);
}

/// Appends the renderings of object fields, separated by `; `.
#[verifier::loop_isolation(false)]
fn push_field_list(whole: &TypeDef, fields: &Vec<Field>, out: &mut String)
    requires
        decreases_to!(*whole => *fields),
    ensures
        final(out)@ == old(out)@ + joined(field_chars_seq(view_field_seq(fields@)), "; "@),
    decreases *whole, 2int,
{
    proof {
        lemma_view_field_seq(fields@);
        lemma_field_chars_seq(view_field_seq(fields@));
    }
    let ghost parts = field_chars_seq(view_field_seq(fields@));
    let mut i: usize = 0;
    while i < fields.len()
        invariant
            i <= fields.len(),
            out@ == old(out)@ + joined(parts.take(i as int), "; "@),
        decreases fields.len() - i,
    {
        if i > 0 {
            out.append("; ");
        }
        proof {
            assert(decreases_to!(*fields => fields@[i as int]));
        }
        let f = &fields[i];
        if f.readonly {
            out.append("readonly ");
        }
        out.append(f.name.as_str());
        if f.optional {
            out.append("?");
        }
        out.append(": ");
        push_field_ty(whole, f, out);
        proof {
            assert(parts.take(i + 1).drop_last() =~= parts.take(i as int));
            assert(parts.take(i + 1).last() == field_chars(view_field(fields@[i as int])));
            assert(out@ =~= old(out)@ + joined(parts.take(i + 1), "; "@));
        }
        i = i + 1;
    }
    proof {
        assert(parts.take(fields@.len() as int) =~= parts);
    }
}

/// Appends the renderings of function parameters, separated by `, `.
#[verifier::loop_isolation(false)]
fn push_param_list(whole: &TypeDef, params: &Vec<Field>, out: &mut String)
    requires
        decreases_to!(*whole => *params),
    ensures
        final(out)@ == old(out)@ + joined(param_chars_seq(view_field_seq(params@)), ", "@),
    decreases *whole, 2int,
{
    proof {
        lemma_view_field_seq(params@);
        lemma_param_chars_seq(view_field_seq(params@));
    }
    let ghost parts = param_chars_seq(view_field_seq(params@));
    let mut i: usize = 0;
    while i < params.len()
        invariant
            i <= params.len(),
            out@ == old(out)@ + joined(parts.take(i as int), ", "@),
        decreases params.len() - i,
    {
        if i > 0 {
            out.append(", ");
        }
        proof {
            assert(decreases_to!(*params => params@[i as int]));
        }
        let f = &params[i];
        out.append(f.name.as_str());
        out.append(": ");
        push_field_ty(whole, f, out);
        proof {
            assert(parts.take(i + 1).drop_last() =~= parts.take(i as int));
            assert(parts.take(i + 1).last() == param_chars(view_field(params@[i as int])));
            assert(out@ =~= old(out)@ + joined(parts.take(i + 1), ", "@));
        }
        i = i + 1;
    }
    proof {
        assert(parts.take(params@.len() as int) =~= parts);
    }
}

/// Appends the placeholders and trailing strings of a template literal.
#[verifier::loop_isolation(false)]
fn push_tpl_tail(whole: &TypeDef, strings: &Vec<String>, types: &Vec<TypeDef>, out: &mut String)
    requires
        decreases_to!(*whole => *types),
    ensures
        final(out)@ == old(out)@ + tpl_tail(view_string_seq(strings@), view_typedef_seq(types@), 0),
    decreases *whole, 2int,
{
    proof {
        lemma_view_typedef_seq(types@);
    }
    let ghost vss = view_string_seq(strings@);
    let ghost vts = view_typedef_seq(types@);
    let mut i: usize = 0;
    while i < types.len()
        invariant
            i <= types.len(),
            out@ + tpl_tail(vss, vts, i as int) == old(out)@ + tpl_tail(vss, vts, 0),
        decreases types.len() - i,
    {
        let ghost before = out@;
        out.append("${");
        proof {
            assert(decreases_to!(*types => types@[i as int]));
        }
        push_rendered(&types[i], out);
        out.append("}");
        if i + 1 < strings.len() {
            out.append(strings[i + 1].as_str());
        }
        proof {
            assert(str_at(vss, i + 1) == if i + 1 < strings@.len() {
                strings@[i as int + 1]@
            } else {
                Seq::<char>::empty()
            });
            assert(out@ =~= before + "${"@ + rendered(vts[i as int]) + "}"@ + str_at(vss, i + 1));
            assert(before + tpl_tail(vss, vts, i as int) =~= out@ + tpl_tail(vss, vts, i + 1));
        }
        i = i + 1;
    }
    proof {
        assert(tpl_tail(vss, vts, types@.len() as int) =~= Seq::<char>::empty());
        assert(final(out)@ + Seq::<char>::empty() =~= final(out)@);
        assert(old(out)@ + tpl_tail(vss, vts, 0) =~= final(out)@);
    }
}

/// Appends the inline rendering of `t`.
#[verifier::loop_isolation(false)]
fn push_rendered(t: &TypeDef, out: &mut String)
    ensures
        final(out)@ == old(out)@ + rendered(t@),
    decreases *t, 3int,
{
    match t {
        TypeDef::Primitive(p) => {
            out.append(p.render());
        }
        TypeDef::Array(inner) => {
            let is_union = match &**inner {
                TypeDef::Union(_) => true,
                _ => false,
            };
            if is_union {
                out.append("(");
                push_rendered(inner, out);
                out.append(")[]");
            } else {
                push_rendered(inner, out);
                out.append("[]");
            }
            proof {
                assert(final(out)@ =~= old(out)@ + rendered(t@));
            }
        }
        TypeDef::Tuple(items) => {
            out.append("[");
            push_rendered_list(t, items, ", ", out);
            out.append("]");
            proof {
                assert(final(out)@ =~= old(out)@ + rendered(t@));
            }
        }
        TypeDef::Object(fields) => {
            if fields.len() == 0 {
                out.append("{}");
            } else {
                out.append("{ ");
                push_field_list(t, fields, out);
                out.append(" }");
            }
            proof {
                lemma_view_field_seq(fields@);
                assert(final(out)@ =~= old(out)@ + rendered(t@));
            }
        }
        TypeDef::Union(items) => {
            push_rendered_list(t, items, " | ", out);
        }
        TypeDef::Intersection(items) => {
            push_rendered_list(t, items, " & ", out);
        }
        TypeDef::Record { key, value } => {
            out.append("Record<");
            push_rendered(key, out);
            out.append(", ");
            push_rendered(value, out);
            out.append(">");
            proof {
                assert(final(out)@ =~= old(out)@ + rendered(t@));
            }
        }
        TypeDef::Named { name, .. } => {
            out.append(name.as_str());
        }
        TypeDef::Ref(name) => {
            out.append(name.as_str());
        }
        TypeDef::Literal(l) => {
            let s = l.render();
            out.append(s.as_str());
        }
        TypeDef::Function { params, return_type } => {
            out.append("(");
            push_param_list(t, params, out);
            out.append(") => ");
            push_rendered(return_type, out);
            proof {
                assert(final(out)@ =~= old(out)@ + rendered(t@));
            }
        }
        TypeDef::Generic { base, args } => {
            out.append(base.as_str());
            out.append("<");
            push_rendered_list(t, args, ", ", out);
            out.append(">");
            proof {
                assert(final(out)@ =~= old(out)@ + rendered(t@));
            }
        }
        TypeDef::TemplateLiteral { strings, types } => {
            out.append("`");
            if strings.len() > 0 {
                out.append(strings[0].as_str());
            }
            push_tpl_tail(t, strings, types, out);
            out.append("`");
            proof {
                assert(str_at(view_string_seq(strings@), 0) == if strings@.len() > 0 {
                    strings@[0]@
                } else {
                    Seq::<char>::empty()
                });
                assert(final(out)@ =~= old(out)@ + rendered(t@));
            }
        }
        TypeDef::IndexedAccess { base, key } => {
            out.append(base.as_str());
            out.append("[\"");
            out.append(key.as_str());
            out.append("\"]");
            proof {
                assert(final(out)@ =~= old(out)@ + rendered(t@));
            }
        }
        TypeDef::GenericDef { name, .. } => {
            out.append(name.as_str());
        }
    }
}

/// Appends the names of `params`, separated by `, `.
#[verifier::loop_isolation(false)]
fn push_param_names(params: &Vec<TypeParam>, out: &mut String)
    ensures
        final(out)@ == old(out)@ + joined(param_names(view_param_seq(params@)), ", "@),
{
    proof {
        lemma_view_param_seq(params@);
    }
    let ghost parts = param_names(view_param_seq(params@));
    let mut i: usize = 0;
    while i < params.len()
        invariant
            i <= params.len(),
            out@ == old(out)@ + joined(parts.take(i as int), ", "@),
        decreases params.len() - i,
    {
        if i > 0 {
            out.append(", ");
        }
        out.append(params[i].name.as_str());
        proof {
            assert(parts.take(i + 1).drop_last() =~= parts.take(i as int));
            assert(parts.take(i + 1).last() == params@[i as int].name@);
            assert(out@ =~= old(out)@ + joined(parts.take(i + 1), ", "@));
        }
        i = i + 1;
    }
    proof {
        assert(parts.take(params@.len() as int) =~= parts);
    }
}

impl TypeDef {
    /// Renders this type in the inline position.
    pub fn render(&self) -> (r: String)
        ensures
            r@ == rendered(self@),
    {
        let mut out = String::new();
        push_rendered(self, &mut out);
        out
    }

    /// Renders a full type declaration.
    ///
    /// For `Named` types this is `type Name = Body;`, with the wrapper
    /// applied to the body where one is set; for `GenericDef` it is
    /// `type Name<P1, P2> = Body;`; for any other node it is the inline
    /// rendering.
    pub fn render_declaration(&self) -> (r: String)
        ensures
            r@ == declaration_chars(self@),
    {
        match self {
            TypeDef::Named { name, def, wrapper, .. } => {
                let mut out = String::new();
                out.append("type ");
                out.append(name.as_str());
                out.append(" = ");
                match wrapper {
                    Option::Some(w) => {
                        out.append(w.as_str());
                        out.append("<");
                        push_rendered(def, &mut out);
                        out.append(">");
                    }
                    Option::None => {
                        push_rendered(def, &mut out);
                    }
                }
                out.append(";");
                proof {
                    assert(out@ =~= declaration_chars(self@));
                }
                out
            }
            TypeDef::GenericDef { name, type_params, def } => {
                let mut out = String::new();
                out.append("type ");
                out.append(name.as_str());
                out.append("<");
                push_param_names(type_params, &mut out);
                out.append("> = ");
                push_rendered(def, &mut out);
                out.append(";");
                proof {
                    assert(out@ =~= declaration_chars(self@));
                }
                out
            }
            _ => {
                let r = self.render();
                proof {
                    assert(r@ =~= declaration_chars(self@));
                }
                r
            }
        }
    }
}

} // verus!
