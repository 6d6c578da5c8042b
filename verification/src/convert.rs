//! Conversion of source type descriptors into the IR.
//!
//! A [`SourceDescriptor`] carries one declared type — its name, kind,
//! members and conversion attributes, with member types already resolved to
//! [`TypeDef`] trees by the caller's reflection adapter. [`convert`] turns
//! it into the `TypeDef` the type maps to, applying the naming policy, the
//! field modifiers and the variant-encoding policy.

use vstd::prelude::*;
use vstd::string::StrSliceExecFns;

use crate::caseconv::{rename_all_chars, rename_all_of, RenameAll};
use crate::ir::{
    clone_string_vec, inlined, object_fields_of, view_field_seq, view_opt_string,
    view_string_seq, view_typedef, view_typedef_seq, Field, FieldV, Literal, Primitive, TypeDef,
    TypeDefV,
};
use crate::pattern::{parse_template_pattern, pattern_parts};
use crate::strutil::str_eq;

verus! {

/// The ways a conversion can fail. A failed conversion aborts that one
/// type and leaves any registry untouched; dangling references and cycles
/// are not errors.
#[derive(Debug, Clone, Copy, PartialEq, Eq, Structural)]
pub enum ConversionError {
    /// A variant set with no variants.
    EmptyVariantSet,
    /// `flatten` on a member whose type is not an object.
    FlattenOnNonObject,
    /// `index` and `key` must appear as a pair.
    UnpairedIndexKey,
    /// A rename-all token that names no policy.
    UnknownRenameAll,
    /// An empty `${}` placeholder in a template pattern.
    EmptyPlaceholder,
    /// `transparent` on anything but a single-member unnamed-field record.
    TransparentOnNonNewtype,
}

/// Container-level conversion attributes of a declared type.
#[derive(Debug)]
pub struct ContainerAttrs {
    /// Rename the type itself.
    pub rename: Option<String>,
    /// The rename-all token for members; validated during conversion.
    pub rename_all: Option<String>,
    /// Expose a newtype's inner type directly, with no `Named` wrapper.
    pub transparent: bool,
    /// The tag field name for variant sets (in place of `type`).
    pub tag: Option<String>,
    /// The content field name for adjacently tagged variant sets.
    pub content: Option<String>,
    /// Encode a variant set as a plain union without a discriminant.
    pub untagged: bool,
    /// A template literal pattern the type's definition is built from.
    pub pattern: Option<String>,
    /// The namespace path of the type.
    pub namespace: Vec<String>,
    /// A type name to extend via intersection.
    pub extends: Option<String>,
    /// A utility-type wrapper applied to the declaration body.
    pub wrapper: Option<String>,
}

impl Default for ContainerAttrs {
    /// No attribute set.
    fn default() -> (r: Self)
        ensures
            r.rename is None,
            r.rename_all is None,
            !r.transparent,
            r.tag is None,
            r.content is None,
            !r.untagged,
            r.pattern is None,
            r.namespace@.len() == 0,
            r.extends is None,
            r.wrapper is None,
    {
        ContainerAttrs {
            rename: Option::None,
            rename_all: Option::None,
            transparent: false,
            tag: Option::None,
            content: Option::None,
            untagged: false,
            pattern: Option::None,
            namespace: Vec::new(),
            extends: Option::None,
            wrapper: Option::None,
        }
    }
}

/// Member-level conversion attributes.
#[derive(Debug)]
pub struct FieldAttrs {
    /// Rename this member.
    pub rename: Option<String>,
    /// Leave this member out entirely.
    pub skip: bool,
    /// Splice this member's object fields into the containing object.
    pub flatten: bool,
    /// Replace the member's type with a raw reference.
    pub type_override: Option<String>,
    /// Mark the member optional.
    pub default: bool,
    /// Mark the member optional and unwrap a recognised maybe wrapper.
    pub optional: bool,
    /// Replace a `Named` reference with its unwrapped definition.
    pub inline: bool,
    /// The base type name of an indexed access; paired with `key`.
    pub index: Option<String>,
    /// The key of an indexed access; paired with `index`.
    pub key: Option<String>,
    /// A template literal pattern for this member's type.
    pub pattern: Option<String>,
}

impl Default for FieldAttrs {
    /// No attribute set.
    fn default() -> (r: Self)
        ensures
            r.rename is None,
            !r.skip,
            !r.flatten,
            r.type_override is None,
            !r.default,
            !r.optional,
            !r.inline,
            r.index is None,
            r.key is None,
            r.pattern is None,
    {
        FieldAttrs {
            rename: Option::None,
            skip: false,
            flatten: false,
            type_override: Option::None,
            default: false,
            optional: false,
            inline: false,
            index: Option::None,
            key: Option::None,
            pattern: Option::None,
        }
    }
}

/// One member of a record, or one field of a record-shaped variant: its
/// declared name, its already-resolved type, and its attributes.
#[derive(Debug)]
pub struct Member {
    pub name: String,
    pub ty: TypeDef,
    pub attrs: FieldAttrs,
}

/// The shape of one variant of a variant set.
#[derive(Debug)]
pub enum VariantShape {
    /// A variant with no payload.
    Unit,
    /// A variant with unnamed fields; a single field is treated as a
    /// newtype and exposed directly, more become a tuple.
    Tuple(Vec<TypeDef>),
    /// A variant with named fields.
    Record(Vec<Member>),
}

/// One variant of a variant set.
#[derive(Debug)]
pub struct Variant {
    pub name: String,
    pub attrs: FieldAttrs,
    pub shape: VariantShape,
}

/// What kind of declaration a descriptor describes.
#[derive(Debug)]
pub enum SourceKind {
    /// A record with named fields.
    Record(Vec<Member>),
    /// A record with unnamed fields; a single field is a newtype.
    TupleRecord(Vec<TypeDef>),
    /// A record with no fields.
    UnitRecord,
    /// A set of variants.
    VariantSet(Vec<Variant>),
    /// An alias for an already-built type.
    Alias(TypeDef),
}

/// A single declared type, as the reflection adapter reports it.
#[derive(Debug)]
pub struct SourceDescriptor {
    /// The declared name.
    pub name: String,
    /// The host module the type was declared in, if known.
    pub module: Option<String>,
    /// Container-level attributes.
    pub attrs: ContainerAttrs,
    /// The declaration's kind and members.
    pub kind: SourceKind,
}

/// Whitespace as the trimming pass recognises it.
pub open spec fn is_ws(c: char) -> bool {
    c == ' ' || c == '\t' || c == '\n' || c == '\r'
}

pub open spec fn trim_front(s: Seq<char>) -> Seq<char>
    decreases s,
{
    if s.len() > 0 && is_ws(s[0]) {
        trim_front(s.drop_first())
    } else {
        s
    }
}

pub open spec fn trim_back(s: Seq<char>) -> Seq<char>
    decreases s,
{
    if s.len() > 0 && is_ws(s.last()) {
        trim_back(s.drop_last())
    } else {
        s
    }
}

/// `s` without leading and trailing whitespace.
pub open spec fn trimmed(s: Seq<char>) -> Seq<char> {
    trim_back(trim_front(s))
}

proof fn lemma_trim_front_range(s: Seq<char>, a: int)
    requires
        0 <= a <= s.len(),
        forall|i: int| 0 <= i < a ==> is_ws(#[trigger] s[i]),
        a < s.len() ==> !is_ws(s[a]),
    ensures
        trim_front(s) =~= s.subrange(a, s.len() as int),
    decreases s,
{
    if s.len() > 0 && is_ws(s[0]) {
        assert(a > 0);
        lemma_trim_front_range(s.drop_first(), a - 1);
        assert(s.drop_first().subrange(a - 1, s.drop_first().len() as int) =~= s.subrange(
            a,
            s.len() as int,
        ));
    } else {
        assert(a == 0);
    }
}

proof fn lemma_trim_back_range(s: Seq<char>, b: int)
    requires
        0 <= b <= s.len(),
        forall|i: int| b <= i < s.len() ==> is_ws(#[trigger] s[i]),
        b > 0 ==> !is_ws(s[b - 1]),
    ensures
        trim_back(s) =~= s.subrange(0, b),
    decreases s,
{
    if s.len() > 0 && is_ws(s.last()) {
        assert(b < s.len());
        lemma_trim_back_range(s.drop_last(), b);
        assert(s.drop_last().subrange(0, b) =~= s.subrange(0, b));
    } else {
        assert(b == s.len());
    }
}

fn is_ws_char(c: char) -> (r: bool)
    ensures
        r == is_ws(c),
{
    c == ' ' || c == '\t' || c == '\n' || c == '\r'
}

/// Removes leading and trailing whitespace.
#[verifier::loop_isolation(false)]
fn trim_str(s: &str) -> (r: String)
    ensures
        r@ == trimmed(s@),
{
    let n = s.unicode_len();
    let mut a: usize = 0;
    while a < n && is_ws_char(s.get_char(a))
        invariant
            a <= n,
            n == s@.len(),
            forall|i: int| 0 <= i < a ==> is_ws(#[trigger] s@[i]),
        decreases n - a,
    {
        a = a + 1;
    }
    proof {
        lemma_trim_front_range(s@, a as int);
    }
    if a == n {
        proof {
            assert(trim_front(s@) =~= Seq::<char>::empty());
            assert(trimmed(s@) =~= Seq::<char>::empty());
        }
        return String::new();
    }
    let mut b: usize = n;
    while b > a && is_ws_char(s.get_char(b - 1))
        invariant
            a <= b <= n,
            forall|i: int| b <= i < n ==> is_ws(#[trigger] s@[i]),
        decreases b,
    {
        b = b - 1;
    }
    proof {
        assert(b > a);
        assert(!is_ws(s@[b - 1]));
        let front = trim_front(s@);
        assert(front =~= s@.subrange(a as int, n as int));
        lemma_trim_back_range(front, b - a);
        assert(front.subrange(0, b - a) =~= s@.subrange(a as int, b as int));
    }
    let piece = s.substring_char(a, b);
    piece.to_owned()
}

/// What a placeholder type name maps to: a primitive keyword after
/// trimming, anything else a bare reference.
pub open spec fn name_type_of(s: Seq<char>) -> TypeDefV {
    let t = trimmed(s);
    if t == "string"@ {
        TypeDefV::Primitive(Primitive::String)
    } else if t == "number"@ {
        TypeDefV::Primitive(Primitive::Number)
    } else if t == "boolean"@ {
        TypeDefV::Primitive(Primitive::Boolean)
    } else if t == "bigint"@ {
        TypeDefV::Primitive(Primitive::BigInt)
    } else if t == "any"@ {
        TypeDefV::Primitive(Primitive::Any)
    } else if t == "unknown"@ {
        TypeDefV::Primitive(Primitive::Unknown)
    } else {
        TypeDefV::Ref(t)
    }
}

/// Converts a placeholder type name to its `TypeDef`.
pub fn type_name_to_typedef(name: &str) -> (r: TypeDef)
    ensures
        r@ == name_type_of(name@),
{
    let t = trim_str(name);
    if str_eq(t.as_str(), "string") {
        TypeDef::Primitive(Primitive::String)
    } else if str_eq(t.as_str(), "number") {
        TypeDef::Primitive(Primitive::Number)
    } else if str_eq(t.as_str(), "boolean") {
        TypeDef::Primitive(Primitive::Boolean)
    } else if str_eq(t.as_str(), "bigint") {
        TypeDef::Primitive(Primitive::BigInt)
    } else if str_eq(t.as_str(), "any") {
        TypeDef::Primitive(Primitive::Any)
    } else if str_eq(t.as_str(), "unknown") {
        TypeDef::Primitive(Primitive::Unknown)
    } else {
        TypeDef::Ref(t)
    }
}

/// The template literal a parsed pattern denotes: its literal strings, and
/// each placeholder name mapped to a type.
pub open spec fn template_of(ss: Seq<Seq<char>>, ts: Seq<Seq<char>>) -> TypeDefV {
    TypeDefV::TemplateLiteral {
        strings: ss,
        types: Seq::new(ts.len(), |i: int| name_type_of(ts[i])),
    }
}

/// Builds the template literal for an already-parsed pattern.
#[verifier::loop_isolation(false)]
fn template_literal_typedef(strings: Vec<String>, types: &Vec<String>) -> (r: TypeDef)
    ensures
        r@ == template_of(view_string_seq(strings@), view_string_seq(types@)),
{
    let ghost gss = view_string_seq(strings@);
    let ghost gts = view_string_seq(types@);
    let mut tds: Vec<TypeDef> = Vec::new();
    let mut i: usize = 0;
    while i < types.len()
        invariant
            i <= types@.len(),
            tds@.len() == i,
            forall|j: int| 0 <= j < i ==> #[trigger] tds@[j]@ == name_type_of(gts[j]),
        decreases types@.len() - i,
    {
        let td = type_name_to_typedef(types[i].as_str());
        tds.push(td);
        i = i + 1;
    }
    let r = TypeDef::TemplateLiteral { strings, types: tds };
    proof {
        crate::ir::lemma_view_typedef_seq(tds@);
        assert forall|j: int| 0 <= j < tds@.len() implies view_typedef_seq(tds@)[j]
            == name_type_of(gts[j]) by {
            assert(view_typedef_seq(tds@)[j] == view_typedef(tds@[j]));
            assert(tds@[j]@ == name_type_of(gts[j]));
        }
        assert(view_typedef_seq(tds@) =~= Seq::new(gts.len(), |j: int| name_type_of(gts[j])));
        assert(r@ =~~= template_of(gss, gts));
    }
    r
}

/// The first failing member decides a record conversion's error.
proof fn lemma_record_fields_err(
    ms: Seq<Member>,
    policy: Option<RenameAll>,
    i: int,
    e: ConversionError,
)
    requires
        0 <= i < ms.len(),
        record_fields(ms.take(i), policy) is Ok,
        member_fields(ms[i], policy) == Result::<Seq<FieldV>, ConversionError>::Err(e),
    ensures
        record_fields(ms, policy) == Result::<Seq<FieldV>, ConversionError>::Err(e),
    decreases ms.len(),
{
    if i == ms.len() - 1 {
        assert(ms.drop_last() =~= ms.take(i));
    } else {
        assert(ms.drop_last().take(i) =~= ms.take(i));
        assert(ms.drop_last()[i] == ms[i]);
        lemma_record_fields_err(ms.drop_last(), policy, i, e);
    }
}

/// The validated member-naming policy of a container: `None` where no
/// rename-all token is given, the policy where the token names one, and
/// an error for an unknown token.
pub open spec fn policy_of(attrs: ContainerAttrs) -> Result<Option<RenameAll>, ConversionError> {
    match attrs.rename_all {
        Option::None => Result::Ok(Option::None),
        Option::Some(tok) => match rename_all_of(tok@) {
            Option::Some(p) => Result::Ok(Option::Some(p)),
            Option::None => Result::Err(ConversionError::UnknownRenameAll),
        },
    }
}

/// The effective name of a member: the explicit rename, else the container
/// policy applied to the original name, else the original name.
pub open spec fn effective_name(
    orig: Seq<char>,
    rename: Option<String>,
    policy: Option<RenameAll>,
) -> Seq<char> {
    match rename {
        Option::Some(r) => r@,
        Option::None => match policy {
            Option::Some(p) => rename_all_chars(p, orig),
            Option::None => orig,
        },
    }
}

/// Computes the effective name of a member.
fn effective_name_exec(orig: &str, rename: &Option<String>, policy: Option<RenameAll>) -> (r:
    String)
    ensures
        r@ == effective_name(orig@, *rename, policy),
{
    match rename {
        Option::Some(r) => r.clone(),
        Option::None => match policy {
            Option::Some(p) => p.apply(orig),
            Option::None => orig.to_owned(),
        },
    }
}

/// A recognised maybe wrapper: a union of exactly an inner type and null.
pub open spec fn is_maybe(t: TypeDefV) -> bool {
    match t {
        TypeDefV::Union(items) => items.len() == 2 && items[1] == TypeDefV::Primitive(
            Primitive::Null,
        ),
        _ => false,
    }
}

/// The inner type of a maybe wrapper.
pub open spec fn maybe_inner(t: TypeDefV) -> TypeDefV {
    match t {
        TypeDefV::Union(items) => items[0],
        other => other,
    }
}

/// The type a member maps to, after the type-level modifiers: a raw
/// override reference, an indexed access, a template literal pattern, or
/// the resolved type with the maybe wrapper unwrapped under `optional` and
/// a `Named` layer unwrapped under `inline`.
pub open spec fn member_type(f: Member) -> Result<TypeDefV, ConversionError> {
    match f.attrs.type_override {
        Option::Some(o) => Result::Ok(TypeDefV::Ref(o@)),
        Option::None => match f.attrs.index {
            Option::Some(ix) => Result::Ok(
                TypeDefV::IndexedAccess {
                    base: ix@,
                    key: match f.attrs.key {
                        Option::Some(kk) => kk@,
                        Option::None => Seq::empty(),
                    },
                },
            ),
            Option::None => match f.attrs.pattern {
                Option::Some(pat) => match pattern_parts(pat@) {
                    Option::Some(parts) => Result::Ok(template_of(parts.0, parts.1)),
                    Option::None => Result::Err(ConversionError::EmptyPlaceholder),
                },
                Option::None => {
                    let base = if f.attrs.optional && is_maybe(f.ty@) {
                        maybe_inner(f.ty@)
                    } else {
                        f.ty@
                    };
                    Result::Ok(
                        if f.attrs.inline {
                            inlined(base)
                        } else {
                            base
                        },
                    )
                },
            },
        },
    }
}

/// The fields one member contributes: none when skipped, the spliced
/// object fields when flattened, otherwise one field under the effective
/// name, optional exactly when `default` or `optional` is set.
pub open spec fn member_fields(f: Member, policy: Option<RenameAll>) -> Result<
    Seq<FieldV>,
    ConversionError,
> {
    if f.attrs.skip {
        Result::Ok(Seq::empty())
    } else if (f.attrs.index is Some) != (f.attrs.key is Some) {
        Result::Err(ConversionError::UnpairedIndexKey)
    } else if f.attrs.flatten {
        match object_fields_of(f.ty@) {
            Option::Some(fs) => Result::Ok(fs),
            Option::None => Result::Err(ConversionError::FlattenOnNonObject),
        }
    } else {
        match member_type(f) {
            Result::Ok(tv) => Result::Ok(
                seq![
                    FieldV {
                        name: effective_name(f.name@, f.attrs.rename, policy),
                        ty: tv,
                        optional: f.attrs.default || f.attrs.optional,
                        readonly: false,
                    }
                ],
            ),
            Result::Err(e) => Result::Err(e),
        }
    }
}

/// The field list of a record: each member's contribution spliced in
/// member order; the first failing member's error.
pub open spec fn record_fields(ms: Seq<Member>, policy: Option<RenameAll>) -> Result<
    Seq<FieldV>,
    ConversionError,
>
    decreases ms,
{
    if ms.len() == 0 {
        Result::Ok(Seq::empty())
    } else {
        match record_fields(ms.drop_last(), policy) {
            Result::Err(e) => Result::Err(e),
            Result::Ok(rest) => match member_fields(ms.last(), policy) {
                Result::Err(e) => Result::Err(e),
                Result::Ok(fs) => Result::Ok(rest + fs),
            },
        }
    }
}

/// Converts the type of one member, cloning out of the descriptor.
fn member_type_exec(f: &Member) -> (r: Result<TypeDef, ConversionError>)
    ensures
        match r {
            Result::Ok(td) => member_type(*f) == Result::Ok::<TypeDefV, ConversionError>(td@),
            Result::Err(e) => member_type(*f) == Result::Err::<TypeDefV, ConversionError>(e),
        },
{
    match &f.attrs.type_override {
        Option::Some(o) => Result::Ok(TypeDef::Ref(o.clone())),
        Option::None => match &f.attrs.index {
            Option::Some(ix) => {
                let key = match &f.attrs.key {
                    Option::Some(kk) => kk.clone(),
                    Option::None => String::new(),
                };
                Result::Ok(TypeDef::IndexedAccess { base: ix.clone(), key })
            }
            Option::None => match &f.attrs.pattern {
                Option::Some(pat) => match parse_template_pattern(pat.as_str()) {
                    Result::Ok(parts) => {
                        let (ss, ts) = parts;
                        Result::Ok(template_literal_typedef(ss, &ts))
                    }
                    Result::Err(e) => Result::Err(e),
                },
                Option::None => {
                    let unwrap_maybe = f.attrs.optional && {
                        match &f.ty {
                            TypeDef::Union(items) => items.len() == 2 && {
                                let second = &items[1];
                                match second {
                                    TypeDef::Primitive(p) => *p == Primitive::Null,
                                    _ => false,
                                }
                            },
                            _ => false,
                        }
                    };
                    let base = if unwrap_maybe {
                        match &f.ty {
                            TypeDef::Union(items) => {
                                proof {
                                    crate::ir::lemma_view_typedef_seq(items@);
                                }
                                items[0].clone()
                            }
                            _ => f.ty.clone(),
                        }
                    } else {
                        proof {
                            match &f.ty {
                                TypeDef::Union(gitems) => {
                                    crate::ir::lemma_view_typedef_seq(gitems@);
                                }
                                _ => {}
                            }
                        }
                        f.ty.clone()
                    };
                    if f.attrs.inline {
                        Result::Ok(crate::ir::inline_typedef(base))
                    } else {
                        Result::Ok(base)
                    }
                }
            },
        },
    }
}

/// Builds the field list of a record, applying the member modifiers in
/// order: `skip`, `flatten`, `type` override, `index`/`key`, `pattern`,
/// `default`/`optional`, `inline`.
#[verifier::loop_isolation(false)]
#[verifier::rlimit(80)]
fn record_fields_exec(ms: &Vec<Member>, policy: Option<RenameAll>) -> (r: Result<
    Vec<Field>,
    ConversionError,
>)
    ensures
        match r {
            Result::Ok(fs) => record_fields(ms@, policy) == Result::Ok::<
                Seq<FieldV>,
                ConversionError,
            >(view_field_seq(fs@)),
            Result::Err(e) => record_fields(ms@, policy) == Result::Err::<
                Seq<FieldV>,
                ConversionError,
            >(e),
        },
{
    let mut out: Vec<Field> = Vec::new();
    let mut i: usize = 0;
    while i < ms.len()
        invariant
            i <= ms@.len(),
            record_fields(ms@.take(i as int), policy) == Result::Ok::<
                Seq<FieldV>,
                ConversionError,
            >(view_field_seq(out@)),
        decreases ms@.len() - i,
    {
        let f = &ms[i];
        let ghost out_before = out@;
        if f.attrs.skip {
            proof {
                assert(member_fields(ms@[i as int], policy) == Result::Ok::<
                    Seq<FieldV>,
                    ConversionError,
                >(Seq::<FieldV>::empty()));
            }
        } else if f.attrs.index.is_some() != f.attrs.key.is_some() {
            proof {
                lemma_record_fields_err(
                    ms@,
                    policy,
                    i as int,
                    ConversionError::UnpairedIndexKey,
                );
            }
            return Result::Err(ConversionError::UnpairedIndexKey);
        } else if f.attrs.flatten {
            let can_flatten = is_object_like(&f.ty);
            if !can_flatten {
                proof {
                    lemma_record_fields_err(
                        ms@,
                        policy,
                        i as int,
                        ConversionError::FlattenOnNonObject,
                    );
                }
                return Result::Err(ConversionError::FlattenOnNonObject);
            }
            let mut extra = crate::ir::extract_object_fields(&f.ty);
            let ghost extra_v = view_field_seq(extra@);
            let mut j: usize = 0;
            while j < extra.len()
                invariant
                    j <= extra@.len(),
                    view_field_seq(extra@) == extra_v,
                    out@.len() == out_before.len() + j,
                    forall|p: int| 0 <= p < out_before.len() ==> out@[p] == out_before[p],
                    forall|p: int|
                        0 <= p < j ==> crate::ir::view_field(
                            #[trigger] out@[out_before.len() + p],
                        ) == crate::ir::view_field(extra@[p]),
                decreases extra@.len() - j,
            {
                let item = extra[j].clone();
                out.push(item);
                j = j + 1;
            }
            proof {
                crate::ir::lemma_view_field_seq(out@);
                crate::ir::lemma_view_field_seq(out_before);
                crate::ir::lemma_view_field_seq(extra@);
                assert forall|p: int|
                    0 <= p < out@.len() implies view_field_seq(out@)[p] == (view_field_seq(
                    out_before,
                ) + view_field_seq(extra@))[p] by {
                    if p < out_before.len() {
                        assert(out@[p] == out_before[p]);
                    } else {
                        let p2 = p - out_before.len();
                        assert(crate::ir::view_field(out@[out_before.len() + p2])
                            == crate::ir::view_field(extra@[p2]));
                    }
                }
                assert(view_field_seq(out@) =~= view_field_seq(out_before) + view_field_seq(
                    extra@,
                ));
            }
        } else {
            let tv = member_type_exec(f);
            match tv {
                Result::Err(e) => {
                    proof {
                        lemma_record_fields_err(ms@, policy, i as int, e);
                    }
                    return Result::Err(e);
                }
                Result::Ok(td) => {
                    let name = effective_name_exec(f.name.as_str(), &f.attrs.rename, policy);
                    let fld = Field {
                        name,
                        ty: td,
                        optional: f.attrs.default || f.attrs.optional,
                        readonly: false,
                    };
                    proof {
                        assert(member_fields(ms@[i as int], policy) == Result::Ok::<
                            Seq<FieldV>,
                            ConversionError,
                        >(seq![crate::ir::view_field(fld)]));
                    }
                    out.push(fld);
                    proof {
                        crate::ir::lemma_view_field_seq(out@);
                        crate::ir::lemma_view_field_seq(out_before);
                        assert(view_field_seq(out@) =~= view_field_seq(out_before) + seq![
                            crate::ir::view_field(out@[out@.len() - 1]),
                        ]);
                    }
                }
            }
        }
        proof {
            assert(ms@.take(i + 1).drop_last() =~= ms@.take(i as int));
            if f.attrs.skip {
                assert(view_field_seq(out@) =~= view_field_seq(out_before)
                    + Seq::<FieldV>::empty());
            }
        }
        i = i + 1;
    }
    proof {
        assert(ms@.take(ms@.len() as int) =~= ms@);
    }
    Result::Ok(out)
}

/// Whether a flattened member's type exposes object fields.
fn is_object_like(t: &TypeDef) -> (r: bool)
    ensures
        r == (object_fields_of(t@) is Some),
    decreases *t,
{
    match t {
        TypeDef::Object(_) => true,
        TypeDef::Named { def, .. } => is_object_like(def),
        _ => false,
    }
}


/// The effective name of a variant, under the same precedence as fields.
pub open spec fn variant_name(v: Variant, policy: Option<RenameAll>) -> Seq<char> {
    effective_name(v.name@, v.attrs.rename, policy)
}

/// The fields of a record-shaped variant's body: skipped fields are left
/// out, an explicit rename applies, nothing else.
pub open spec fn variant_record_fields(ms: Seq<Member>) -> Seq<FieldV>
    decreases ms,
{
    if ms.len() == 0 {
        Seq::empty()
    } else {
        let rest = variant_record_fields(ms.drop_last());
        if ms.last().attrs.skip {
            rest
        } else {
            rest.push(
                FieldV {
                    name: match ms.last().attrs.rename {
                        Option::Some(r) => r@,
                        Option::None => ms.last().name@,
                    },
                    ty: ms.last().ty@,
                    optional: false,
                    readonly: false,
                },
            )
        }
    }
}

/// Whether every variant is a unit variant.
pub open spec fn all_unit(vs: Seq<Variant>) -> bool
    decreases vs,
{
    if vs.len() == 0 {
        true
    } else {
        all_unit(vs.drop_last()) && vs.last().shape is Unit
    }
}

/// The discriminant field name: the `tag` attribute, defaulting to `type`.
pub open spec fn tag_name(attrs: ContainerAttrs) -> Seq<char> {
    match attrs.tag {
        Option::Some(t) => t@,
        Option::None => "type"@,
    }
}

/// An unnamed-field payload: a single field is exposed directly, more form
/// a tuple.
pub open spec fn tuple_payload(items: Seq<TypeDefV>) -> TypeDefV {
    if items.len() == 1 {
        items[0]
    } else {
        TypeDefV::Tuple(items)
    }
}

/// One variant under internal or adjacent tagging: an object starting with
/// the tag field holding the variant name as a string literal; a payload
/// goes under the content field where one is named, under `value` for
/// unnamed fields otherwise, and record fields are spliced beside the tag.
pub open spec fn variant_typedef(
    v: Variant,
    policy: Option<RenameAll>,
    tag: Seq<char>,
    content: Option<Seq<char>>,
) -> TypeDefV {
    let tag_field = FieldV {
        name: tag,
        ty: TypeDefV::Literal(crate::ir::LiteralV::String(variant_name(v, policy))),
        optional: false,
        readonly: false,
    };
    match v.shape {
        VariantShape::Unit => TypeDefV::Object(seq![tag_field]),
        VariantShape::Tuple(items) => {
            let payload = tuple_payload(view_typedef_seq(items@));
            let cname = match content {
                Option::Some(c) => c,
                Option::None => "value"@,
            };
            TypeDefV::Object(
                seq![
                    tag_field,
                    FieldV { name: cname, ty: payload, optional: false, readonly: false },
                ],
            )
        },
        VariantShape::Record(ms) => {
            let body = variant_record_fields(ms@);
            match content {
                Option::Some(c) => TypeDefV::Object(
                    seq![
                        tag_field,
                        FieldV {
                            name: c,
                            ty: TypeDefV::Object(body),
                            optional: false,
                            readonly: false,
                        },
                    ],
                ),
                Option::None => TypeDefV::Object(seq![tag_field] + body),
            }
        },
    }
}

/// One variant under the untagged policy: a unit variant becomes the
/// variant name as a string literal, a payload stands on its own, and
/// record fields form a bare object.
pub open spec fn variant_untagged(v: Variant, policy: Option<RenameAll>) -> TypeDefV {
    match v.shape {
        VariantShape::Unit => TypeDefV::Literal(
            crate::ir::LiteralV::String(variant_name(v, policy)),
        ),
        VariantShape::Tuple(items) => tuple_payload(view_typedef_seq(items@)),
        VariantShape::Record(ms) => TypeDefV::Object(variant_record_fields(ms@)),
    }
}

/// Each variant of an all-unit set as a string literal of its name.
pub open spec fn unit_literals(vs: Seq<Variant>, policy: Option<RenameAll>) -> Seq<TypeDefV> {
    Seq::new(
        vs.len(),
        |i: int| TypeDefV::Literal(crate::ir::LiteralV::String(variant_name(vs[i], policy))),
    )
}

pub open spec fn tagged_variants(
    vs: Seq<Variant>,
    policy: Option<RenameAll>,
    tag: Seq<char>,
    content: Option<Seq<char>>,
) -> Seq<TypeDefV> {
    Seq::new(vs.len(), |i: int| variant_typedef(vs[i], policy, tag, content))
}

pub open spec fn untagged_variants(vs: Seq<Variant>, policy: Option<RenameAll>) -> Seq<
    TypeDefV,
> {
    Seq::new(vs.len(), |i: int| variant_untagged(vs[i], policy))
}

/// The body of a variant set: an empty set is an error; an untagged set is
/// the plain union of its variants; a set of unit variants collapses to a
/// union of string literals; anything else is a union of tagged objects.
pub open spec fn variant_set_body(
    vs: Seq<Variant>,
    attrs: ContainerAttrs,
    policy: Option<RenameAll>,
) -> Result<TypeDefV, ConversionError> {
    if vs.len() == 0 {
        Result::Err(ConversionError::EmptyVariantSet)
    } else if attrs.untagged {
        Result::Ok(TypeDefV::Union(untagged_variants(vs, policy)))
    } else if all_unit(vs) {
        Result::Ok(TypeDefV::Union(unit_literals(vs, policy)))
    } else {
        Result::Ok(
            TypeDefV::Union(
                tagged_variants(vs, policy, tag_name(attrs), view_opt_string(attrs.content)),
            ),
        )
    }
}

/// An all-unit variant set renders the same under every tagging policy:
/// whatever the tag, content and untagged attributes say, its body is the
/// plain union of its variant names as string literals.
pub proof fn lemma_all_unit_collapses(
    vs: Seq<Variant>,
    attrs: ContainerAttrs,
    policy: Option<RenameAll>,
)
    requires
        vs.len() > 0,
        all_unit(vs),
    ensures
        variant_set_body(vs, attrs, policy) == Result::Ok::<TypeDefV, ConversionError>(
            TypeDefV::Union(unit_literals(vs, policy)),
        ),
{
    lemma_all_unit_elements(vs);
    if attrs.untagged {
        assert(untagged_variants(vs, policy) =~= unit_literals(vs, policy));
    }
}

/// In an all-unit set, every variant is a unit variant.
proof fn lemma_all_unit_elements(vs: Seq<Variant>)
    requires
        all_unit(vs),
    ensures
        forall|i: int| 0 <= i < vs.len() ==> (#[trigger] vs[i].shape) is Unit,
    decreases vs,
{
    if vs.len() > 0 {
        assert(vs.drop_last().len() == vs.len() - 1);
        lemma_all_unit_elements(vs.drop_last());
        assert forall|i: int| 0 <= i < vs.len() implies (#[trigger] vs[i].shape) is Unit by {
            if i < vs.len() - 1 {
                assert(vs.drop_last()[i].shape is Unit);
            }
        }
    }
}

/// The name a descriptor declares: the container rename, else its own.
pub open spec fn type_effective_name(d: SourceDescriptor) -> Seq<char> {
    match d.attrs.rename {
        Option::Some(r) => r@,
        Option::None => d.name@,
    }
}

/// The `Named` node wrapping a converted body.
pub open spec fn named_wrap(d: SourceDescriptor, body: TypeDefV, with_ns: bool) -> TypeDefV {
    TypeDefV::Named {
        namespace: if with_ns {
            view_string_seq(d.attrs.namespace@)
        } else {
            Seq::empty()
        },
        name: type_effective_name(d),
        def: Box::new(body),
        module: view_opt_string(d.module),
        wrapper: view_opt_string(d.attrs.wrapper),
    }
}

/// The result of a template-literal pattern on the container: the parsed
/// pattern as a `Named` template literal, carrying no namespace.
pub open spec fn pattern_body(d: SourceDescriptor, pat: Seq<char>) -> Result<
    TypeDefV,
    ConversionError,
> {
    match pattern_parts(pat) {
        Option::Some(parts) => Result::Ok(named_wrap(d, template_of(parts.0, parts.1), false)),
        Option::None => Result::Err(ConversionError::EmptyPlaceholder),
    }
}

/// What a descriptor converts to, for every input: the validated naming
/// policy applied throughout; a variant set encoded by its policy; records
/// with their field modifiers, `transparent` newtypes and template
/// patterns; every error exactly on the inputs the taxonomy names.
pub open spec fn convert_spec(d: SourceDescriptor) -> Result<TypeDefV, ConversionError> {
    match policy_of(d.attrs) {
        Result::Err(e) => Result::Err(e),
        Result::Ok(policy) => match d.kind {
            SourceKind::VariantSet(vs) => match variant_set_body(vs@, d.attrs, policy) {
                Result::Ok(b) => Result::Ok(named_wrap(d, b, true)),
                Result::Err(e) => Result::Err(e),
            },
            SourceKind::Record(ms) => if d.attrs.transparent {
                Result::Err(ConversionError::TransparentOnNonNewtype)
            } else {
                match d.attrs.pattern {
                    Option::Some(pat) => pattern_body(d, pat@),
                    Option::None => match record_fields(ms@, policy) {
                        Result::Ok(fs) => {
                            let obj = TypeDefV::Object(fs);
                            let body = match d.attrs.extends {
                                Option::Some(x) => TypeDefV::Intersection(
                                    seq![TypeDefV::Ref(x@), obj],
                                ),
                                Option::None => obj,
                            };
                            Result::Ok(named_wrap(d, body, true))
                        },
                        Result::Err(e) => Result::Err(e),
                    },
                }
            },
            SourceKind::TupleRecord(items) => if d.attrs.transparent {
                if items@.len() == 1 {
                    Result::Ok(view_typedef(items@[0]))
                } else {
                    Result::Err(ConversionError::TransparentOnNonNewtype)
                }
            } else {
                match d.attrs.pattern {
                    Option::Some(pat) => pattern_body(d, pat@),
                    Option::None => Result::Ok(
                        named_wrap(d, tuple_payload(view_typedef_seq(items@)), true),
                    ),
                }
            },
            SourceKind::UnitRecord => if d.attrs.transparent {
                Result::Err(ConversionError::TransparentOnNonNewtype)
            } else {
                match d.attrs.pattern {
                    Option::Some(pat) => pattern_body(d, pat@),
                    Option::None => Result::Ok(
                        named_wrap(d, TypeDefV::Primitive(Primitive::Null), true),
                    ),
                }
            },
            SourceKind::Alias(t) => Result::Ok(named_wrap(d, t@, true)),
        },
    }
}

/// Builds the fields of a record-shaped variant's body.
#[verifier::loop_isolation(false)]
fn variant_record_fields_exec(ms: &Vec<Member>) -> (r: Vec<Field>)
    ensures
        view_field_seq(r@) == variant_record_fields(ms@),
{
    let mut out: Vec<Field> = Vec::new();
    let mut i: usize = 0;
    while i < ms.len()
        invariant
            i <= ms@.len(),
            view_field_seq(out@) == variant_record_fields(ms@.take(i as int)),
        decreases ms@.len() - i,
    {
        let f = &ms[i];
        let ghost before = out@;
        if !f.attrs.skip {
            let name = match &f.attrs.rename {
                Option::Some(r) => r.clone(),
                Option::None => f.name.clone(),
            };
            let fld = Field { name, ty: f.ty.clone(), optional: false, readonly: false };
            out.push(fld);
        }
        proof {
            assert(ms@.take(i + 1).drop_last() =~= ms@.take(i as int));
            crate::ir::lemma_view_field_seq(out@);
            crate::ir::lemma_view_field_seq(before);
            if f.attrs.skip {
                assert(view_field_seq(out@) =~= variant_record_fields(ms@.take(i + 1)));
            } else {
                assert(crate::ir::view_field(out@[out@.len() - 1]) =~~= FieldV {
                    name: match ms@[i as int].attrs.rename {
                        Option::Some(r) => r@,
                        Option::None => ms@[i as int].name@,
                    },
                    ty: ms@[i as int].ty@,
                    optional: false,
                    readonly: false,
                });
                assert(view_field_seq(out@) =~= variant_record_fields(ms@.take(i + 1)));
            }
        }
        i = i + 1;
    }
    proof {
        assert(ms@.take(ms@.len() as int) =~= ms@);
    }
    out
}

/// Builds one variant's object under internal or adjacent tagging.
fn variant_typedef_exec(
    v: &Variant,
    policy: Option<RenameAll>,
    tag: &str,
    content: &Option<String>,
) -> (r: TypeDef)
    ensures
        r@ == variant_typedef(*v, policy, tag@, view_opt_string(*content)),
{
    let vname = effective_name_exec(v.name.as_str(), &v.attrs.rename, policy);
    let tag_field = Field::new(tag, TypeDef::Literal(Literal::String(vname)));
    match &v.shape {
        VariantShape::Unit => {
            let mut fs: Vec<Field> = Vec::new();
            fs.push(tag_field);
            let r = TypeDef::Object(fs);
            proof {
                crate::ir::lemma_view_field_seq(fs@);
                assert(view_field_seq(fs@) =~= seq![crate::ir::view_field(fs@[0])]);
                assert(crate::ir::view_field(fs@[0]) =~~= FieldV {
                    name: tag@,
                    ty: TypeDefV::Literal(
                        crate::ir::LiteralV::String(variant_name(*v, policy)),
                    ),
                    optional: false,
                    readonly: false,
                });
                assert(r@ =~~= variant_typedef(*v, policy, tag@, view_opt_string(*content)));
            }
            r
        }
        VariantShape::Tuple(items) => {
            let payload = if items.len() == 1 {
                proof {
                    crate::ir::lemma_view_typedef_seq(items@);
                }
                items[0].clone()
            } else {
                TypeDef::Tuple(crate::ir::clone_typedef_vec(items))
            };
            let cname: String = match content {
                Option::Some(c) => c.clone(),
                Option::None => "value".to_owned(),
            };
            let mut fs: Vec<Field> = Vec::new();
            fs.push(tag_field);
            fs.push(Field { name: cname, ty: payload, optional: false, readonly: false });
            let r = TypeDef::Object(fs);
            proof {
                crate::ir::lemma_view_field_seq(fs@);
                crate::ir::lemma_view_typedef_seq(items@);
                assert(view_field_seq(fs@) =~= seq![
                    crate::ir::view_field(fs@[0]),
                    crate::ir::view_field(fs@[1]),
                ]);
                assert(crate::ir::view_field(fs@[1]).ty =~~= tuple_payload(
                    view_typedef_seq(items@),
                ));
                assert(r@ =~~= variant_typedef(*v, policy, tag@, view_opt_string(*content)));
            }
            r
        }
        VariantShape::Record(ms) => {
            let body = variant_record_fields_exec(ms);
            match content {
                Option::Some(c) => {
                    let mut fs: Vec<Field> = Vec::new();
                    fs.push(tag_field);
                    fs.push(
                        Field {
                            name: c.clone(),
                            ty: TypeDef::Object(body),
                            optional: false,
                            readonly: false,
                        },
                    );
                    let r = TypeDef::Object(fs);
                    proof {
                        crate::ir::lemma_view_field_seq(fs@);
                        assert(view_field_seq(fs@) =~= seq![
                            crate::ir::view_field(fs@[0]),
                            crate::ir::view_field(fs@[1]),
                        ]);
                        assert(r@ =~~= variant_typedef(
                            *v,
                            policy,
                            tag@,
                            view_opt_string(*content),
                        ));
                    }
                    r
                }
                Option::None => {
                    let mut fs: Vec<Field> = Vec::new();
                    fs.push(tag_field);
                    let ghost body_v = view_field_seq(body@);
                    let mut j: usize = 0;
                    let ghost fs_one = fs@;
                    while j < body.len()
                        invariant
                            j <= body@.len(),
                            view_field_seq(body@) == body_v,
                            fs@.len() == 1 + j,
                            fs@[0] == fs_one[0],
                            forall|p: int|
                                0 <= p < j ==> crate::ir::view_field(#[trigger] fs@[1 + p])
                                    == crate::ir::view_field(body@[p]),
                        decreases body@.len() - j,
                    {
                        let item = body[j].clone();
                        fs.push(item);
                        j = j + 1;
                    }
                    let r = TypeDef::Object(fs);
                    proof {
                        crate::ir::lemma_view_field_seq(fs@);
                        crate::ir::lemma_view_field_seq(body@);
                        assert forall|p: int|
                            0 <= p < fs@.len() implies view_field_seq(fs@)[p] == (seq![
                            crate::ir::view_field(fs_one[0]),
                        ] + body_v)[p] by {
                            if p > 0 {
                                let p2 = p - 1;
                                assert(crate::ir::view_field(fs@[1 + p2])
                                    == crate::ir::view_field(body@[p2]));
                            }
                        }
                        assert(view_field_seq(fs@) =~= seq![crate::ir::view_field(fs_one[0])]
                            + body_v);
                        assert(r@ =~~= variant_typedef(*v, policy, tag@, view_opt_string(*content)));
                    }
                    r
                }
            }
        }
    }
}

/// Builds one variant under the untagged policy.
fn variant_untagged_exec(v: &Variant, policy: Option<RenameAll>) -> (r: TypeDef)
    ensures
        r@ == variant_untagged(*v, policy),
{
    match &v.shape {
        VariantShape::Unit => {
            let vname = effective_name_exec(v.name.as_str(), &v.attrs.rename, policy);
            TypeDef::Literal(Literal::String(vname))
        }
        VariantShape::Tuple(items) => {
            if items.len() == 1 {
                proof {
                    crate::ir::lemma_view_typedef_seq(items@);
                }
                items[0].clone()
            } else {
                let r = TypeDef::Tuple(crate::ir::clone_typedef_vec(items));
                proof {
                    crate::ir::lemma_view_typedef_seq(items@);
                    assert(r@ =~~= variant_untagged(*v, policy));
                }
                r
            }
        }
        VariantShape::Record(ms) => {
            let body = variant_record_fields_exec(ms);
            let r = TypeDef::Object(body);
            proof {
                assert(r@ =~~= variant_untagged(*v, policy));
            }
            r
        }
    }
}

/// Builds the body of a variant set under its encoding policy.
#[verifier::loop_isolation(false)]
fn variant_set_body_exec(
    vs: &Vec<Variant>,
    attrs: &ContainerAttrs,
    policy: Option<RenameAll>,
) -> (r: Result<TypeDef, ConversionError>)
    ensures
        match r {
            Result::Ok(td) => variant_set_body(vs@, *attrs, policy) == Result::Ok::<
                TypeDefV,
                ConversionError,
            >(td@),
            Result::Err(e) => variant_set_body(vs@, *attrs, policy) == Result::Err::<
                TypeDefV,
                ConversionError,
            >(e),
        },
{
    if vs.len() == 0 {
        return Result::Err(ConversionError::EmptyVariantSet);
    }
    let mut units_only = true;
    let mut i: usize = 0;
    while i < vs.len()
        invariant
            i <= vs@.len(),
            units_only == all_unit(vs@.take(i as int)),
        decreases vs@.len() - i,
    {
        let is_unit = match &vs[i].shape {
            VariantShape::Unit => true,
            _ => false,
        };
        proof {
            assert(vs@.take(i + 1).drop_last() =~= vs@.take(i as int));
        }
        units_only = units_only && is_unit;
        i = i + 1;
    }
    proof {
        assert(vs@.take(vs@.len() as int) =~= vs@);
    }
    let mut parts: Vec<TypeDef> = Vec::new();
    if attrs.untagged {
        let mut i: usize = 0;
        while i < vs.len()
            invariant
                i <= vs@.len(),
                parts@.len() == i,
                forall|j: int|
                    0 <= j < i ==> view_typedef(#[trigger] parts@[j]) == variant_untagged(
                        vs@[j],
                        policy,
                    ),
            decreases vs@.len() - i,
        {
            let td = variant_untagged_exec(&vs[i], policy);
            parts.push(td);
            i = i + 1;
        }
        proof {
            crate::ir::lemma_view_typedef_seq(parts@);
            assert(view_typedef_seq(parts@) =~= untagged_variants(vs@, policy));
        }
        let r = TypeDef::Union(parts);
        Result::Ok(r)
    } else if units_only {
        let mut i: usize = 0;
        while i < vs.len()
            invariant
                i <= vs@.len(),
                parts@.len() == i,
                forall|j: int|
                    0 <= j < i ==> view_typedef(#[trigger] parts@[j]) == TypeDefV::Literal(
                        crate::ir::LiteralV::String(variant_name(vs@[j], policy)),
                    ),
            decreases vs@.len() - i,
        {
            let v = &vs[i];
            let vname = effective_name_exec(v.name.as_str(), &v.attrs.rename, policy);
            parts.push(TypeDef::Literal(Literal::String(vname)));
            i = i + 1;
        }
        proof {
            crate::ir::lemma_view_typedef_seq(parts@);
            assert(view_typedef_seq(parts@) =~= unit_literals(vs@, policy));
        }
        let r = TypeDef::Union(parts);
        Result::Ok(r)
    } else {
        let tag: String = match &attrs.tag {
            Option::Some(t) => t.clone(),
            Option::None => "type".to_owned(),
        };
        let mut i: usize = 0;
        while i < vs.len()
            invariant
                i <= vs@.len(),
                parts@.len() == i,
                tag@ == tag_name(*attrs),
                forall|j: int|
                    0 <= j < i ==> view_typedef(#[trigger] parts@[j]) == variant_typedef(
                        vs@[j],
                        policy,
                        tag_name(*attrs),
                        view_opt_string(attrs.content),
                    ),
            decreases vs@.len() - i,
        {
            let td = variant_typedef_exec(&vs[i], policy, tag.as_str(), &attrs.content);
            parts.push(td);
            i = i + 1;
        }
        proof {
            crate::ir::lemma_view_typedef_seq(parts@);
            assert(view_typedef_seq(parts@) =~= tagged_variants(
                vs@,
                policy,
                tag_name(*attrs),
                view_opt_string(attrs.content),
            ));
        }
        let r = TypeDef::Union(parts);
        Result::Ok(r)
    }
}

fn clone_opt_string(v: &Option<String>) -> (r: Option<String>)
    ensures
        view_opt_string(r) == view_opt_string(*v),
{
    match v {
        Option::Some(s) => Option::Some(s.clone()),
        Option::None => Option::None,
    }
}

/// Wraps a converted body in its `Named` node.
fn named_wrap_exec(d: &SourceDescriptor, body: TypeDef, with_ns: bool) -> (r: TypeDef)
    ensures
        r@ == named_wrap(*d, body@, with_ns),
{
    let name: String = match &d.attrs.rename {
        Option::Some(r) => r.clone(),
        Option::None => d.name.clone(),
    };
    let namespace: Vec<String> = if with_ns {
        clone_string_vec(&d.attrs.namespace)
    } else {
        Vec::new()
    };
    let r = TypeDef::Named {
        namespace,
        name,
        def: Box::new(body),
        module: clone_opt_string(&d.module),
        wrapper: clone_opt_string(&d.attrs.wrapper),
    };
    proof {
        assert(r@ =~~= named_wrap(*d, body@, with_ns));
    }
    r
}

/// Converts a template-literal pattern on the container.
fn pattern_body_exec(d: &SourceDescriptor, pat: &String) -> (r: Result<TypeDef, ConversionError>)
    ensures
        match r {
            Result::Ok(td) => pattern_body(*d, pat@) == Result::Ok::<TypeDefV, ConversionError>(
                td@,
            ),
            Result::Err(e) => pattern_body(*d, pat@) == Result::Err::<TypeDefV, ConversionError>(
                e,
            ),
        },
{
    match parse_template_pattern(pat.as_str()) {
        Result::Ok(parts) => {
            let (ss, ts) = parts;
            let tpl = template_literal_typedef(ss, &ts);
            Result::Ok(named_wrap_exec(d, tpl, false))
        }
        Result::Err(e) => Result::Err(e),
    }
}

/// Converts one source descriptor into its `TypeDef`.
///
/// The result is exactly `convert_spec(*descriptor)`: success on every
/// descriptor whose attributes are coherent, and each `ConversionError`
/// precisely on the inputs its taxonomy names — an empty variant set, a
/// flatten on a non-object member, an unpaired `index`/`key`, an unknown
/// rename-all token, an empty template placeholder, and `transparent` on
/// anything but a single-field unnamed record.
pub fn convert(descriptor: &SourceDescriptor) -> (r: Result<TypeDef, ConversionError>)
    ensures
        match r {
            Result::Ok(td) => convert_spec(*descriptor) == Result::Ok::<
                TypeDefV,
                ConversionError,
            >(td@),
            Result::Err(e) => convert_spec(*descriptor) == Result::Err::<
                TypeDefV,
                ConversionError,
            >(e),
        },
{
    let policy: Option<RenameAll> = match &descriptor.attrs.rename_all {
        Option::None => Option::None,
        Option::Some(tok) => match RenameAll::from_str(tok.as_str()) {
            Option::Some(p) => Option::Some(p),
            Option::None => {
                return Result::Err(ConversionError::UnknownRenameAll);
            }
        },
    };
    match &descriptor.kind {
        SourceKind::VariantSet(vs) => {
            match variant_set_body_exec(vs, &descriptor.attrs, policy) {
                Result::Ok(body) => Result::Ok(named_wrap_exec(descriptor, body, true)),
                Result::Err(e) => Result::Err(e),
            }
        }
        SourceKind::Record(ms) => {
            if descriptor.attrs.transparent {
                return Result::Err(ConversionError::TransparentOnNonNewtype);
            }
            match &descriptor.attrs.pattern {
                Option::Some(pat) => pattern_body_exec(descriptor, pat),
                Option::None => match record_fields_exec(ms, policy) {
                    Result::Ok(fs) => {
                        let ghost obj_v = TypeDefV::Object(view_field_seq(fs@));
                        let obj = TypeDef::Object(fs);
                        let body = match &descriptor.attrs.extends {
                            Option::Some(x) => {
                                let mut items: Vec<TypeDef> = Vec::new();
                                items.push(TypeDef::Ref(x.clone()));
                                items.push(obj);
                                let b = TypeDef::Intersection(items);
                                proof {
                                    crate::ir::lemma_view_typedef_seq(items@);
                                    assert(view_typedef_seq(items@) =~= seq![
                                        TypeDefV::Ref(x@),
                                        obj_v,
                                    ]);
                                }
                                b
                            }
                            Option::None => obj,
                        };
                        let ghost body_spec = match &descriptor.attrs.extends {
                            Option::Some(x) => TypeDefV::Intersection(
                                seq![TypeDefV::Ref(x@), obj_v],
                            ),
                            Option::None => obj_v,
                        };
                        proof {
                            assert(body@ =~~= body_spec);
                        }
                        let r = named_wrap_exec(descriptor, body, true);
                        proof {
                            assert(named_wrap(*descriptor, body@, true) == named_wrap(
                                *descriptor,
                                body_spec,
                                true,
                            ));
                        }
                        Result::Ok(r)
                    }
                    Result::Err(e) => Result::Err(e),
                },
            }
        }
        SourceKind::TupleRecord(items) => {
            if descriptor.attrs.transparent {
                if items.len() == 1 {
                    proof {
                        crate::ir::lemma_view_typedef_seq(items@);
                    }
                    return Result::Ok(items[0].clone());
                } else {
                    return Result::Err(ConversionError::TransparentOnNonNewtype);
                }
            }
            match &descriptor.attrs.pattern {
                Option::Some(pat) => pattern_body_exec(descriptor, pat),
                Option::None => {
                    proof {
                        crate::ir::lemma_view_typedef_seq(items@);
                    }
                    let payload = if items.len() == 1 {
                        items[0].clone()
                    } else {
                        TypeDef::Tuple(crate::ir::clone_typedef_vec(items))
                    };
                    proof {
                        assert(payload@ =~~= tuple_payload(view_typedef_seq(items@)));
                    }
                    Result::Ok(named_wrap_exec(descriptor, payload, true))
                }
            }
        }
        SourceKind::UnitRecord => {
            if descriptor.attrs.transparent {
                return Result::Err(ConversionError::TransparentOnNonNewtype);
            }
            match &descriptor.attrs.pattern {
                Option::Some(pat) => pattern_body_exec(descriptor, pat),
                Option::None => Result::Ok(
                    named_wrap_exec(descriptor, TypeDef::Primitive(Primitive::Null), true),
                ),
            }
        }
        SourceKind::Alias(t) => {
            let body = t.clone();
            Result::Ok(named_wrap_exec(descriptor, body, true))
        }
    }
}

} // verus!
