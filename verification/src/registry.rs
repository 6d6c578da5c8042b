//! The type registry: collects `Named` definitions reachable from
//! registered roots, deduplicates them by name, orders them by their
//! `Ref` dependencies and renders the full declaration list.

use vstd::prelude::*;

use crate::ir::{
    lemma_view_field_seq, lemma_view_typedef_seq, view_field_seq, view_string_seq, view_typedef,
    view_typedef_seq, Field, TypeDef, TypeDefV,
};
use crate::render::declaration_chars;

verus! {

/// One registered type: its name and its full `Named` node.
#[derive(Debug)]
pub struct RegEntry {
    pub name: String,
    pub def: TypeDef,
}

/// The view of a registry entry.
#[verifier::ext_equal]
pub ghost struct EntryV {
    pub name: Seq<char>,
    pub def: TypeDefV,
}

/// The names of the entries, in registration order.
pub open spec fn reg_names(m: Seq<EntryV>) -> Seq<Seq<char>> {
    Seq::new(m.len(), |i: int| m[i].name)
}

/// Whether some entry is named `n`.
pub open spec fn has_name(m: Seq<EntryV>, n: Seq<char>) -> bool {
    exists|i: int| 0 <= i < m.len() && m[i].name == n
}

/// The index of the entry named `n`.
pub open spec fn index_of(m: Seq<EntryV>, n: Seq<char>) -> int {
    choose|i: int| 0 <= i < m.len() && m[i].name == n
}

/// The names a type refers to directly: `Ref` nodes reachable without
/// crossing into a nested `Named` definition. Only `Ref` edges count as
/// dependencies; a nested `Named` body is not re-expanded.
pub open spec fn refs_in(t: TypeDefV) -> Seq<Seq<char>>
    decreases t,
{
    match t {
        TypeDefV::Ref(name) => seq![name],
        TypeDefV::Named { .. } => Seq::empty(),
        TypeDefV::Array(inner) => refs_in(*inner),
        TypeDefV::Tuple(items) => refs_in_seq(items),
        TypeDefV::Object(fields) => refs_in_fields(fields),
        TypeDefV::Union(items) => refs_in_seq(items),
        TypeDefV::Intersection(items) => refs_in_seq(items),
        TypeDefV::Record { key, value } => refs_in(*key) + refs_in(*value),
        TypeDefV::Literal(_) => Seq::empty(),
        TypeDefV::Primitive(_) => Seq::empty(),
        TypeDefV::Function { params, return_type } => refs_in_fields(params) + refs_in(
            *return_type,
        ),
        TypeDefV::Generic { args, .. } => refs_in_seq(args),
        TypeDefV::TemplateLiteral { types, .. } => refs_in_seq(types),
        TypeDefV::IndexedAccess { .. } => Seq::empty(),
        TypeDefV::GenericDef { def, .. } => refs_in(*def),
    }
}

pub open spec fn refs_in_seq(items: Seq<TypeDefV>) -> Seq<Seq<char>>
    decreases items,
{
    if items.len() == 0 {
        Seq::empty()
    } else {
        refs_in_seq(items.drop_last()) + refs_in(items.last())
    }
}

pub open spec fn refs_in_fields(fields: Seq<crate::ir::FieldV>) -> Seq<Seq<char>>
    decreases fields,
{
    if fields.len() == 0 {
        Seq::empty()
    } else {
        refs_in_fields(fields.drop_last()) + refs_in(fields.last().ty)
    }
}

/// The raw dependency names of a registered node: the refs inside its own
/// definition (one `Named` layer deep), in traversal order, duplicates kept.
pub open spec fn raw_deps(e: EntryV) -> Seq<Seq<char>> {
    match e.def {
        TypeDefV::Named { def, .. } => refs_in(*def),
        other => refs_in(other),
    }
}

/// `raw` filtered down to registered names, first occurrences only.
pub open spec fn dedup_registered(m: Seq<EntryV>, raw: Seq<Seq<char>>) -> Seq<Seq<char>>
    decreases raw,
{
    if raw.len() == 0 {
        Seq::empty()
    } else {
        let p = dedup_registered(m, raw.drop_last());
        if has_name(m, raw.last()) && !p.contains(raw.last()) {
            p.push(raw.last())
        } else {
            p
        }
    }
}

/// The dependency set of entry `i`: the distinct registered names its
/// definition refers to.
pub open spec fn entry_deps(m: Seq<EntryV>, i: int) -> Seq<Seq<char>> {
    dedup_registered(m, raw_deps(m[i]))
}

/// The model after registering every `Named` node reachable in `t`:
/// a `Named` node whose name is absent is appended and its definition
/// walked in turn; one whose name is present is skipped whole; other
/// composite nodes are walked but not themselves registered.
pub open spec fn add_names(acc: Seq<EntryV>, t: TypeDefV) -> Seq<EntryV>
    decreases t, 1int,
{
    match t {
        TypeDefV::Named { name, def, .. } => if has_name(acc, name) {
            acc
        } else {
            add_names(acc.push(EntryV { name, def: t }), *def)
        },
        TypeDefV::Array(inner) => add_names(acc, *inner),
        TypeDefV::Tuple(items) => add_names_seq(acc, items),
        TypeDefV::Object(fields) => add_names_fields(acc, fields),
        TypeDefV::Union(items) => add_names_seq(acc, items),
        TypeDefV::Intersection(items) => add_names_seq(acc, items),
        TypeDefV::Record { key, value } => add_names(add_names(acc, *key), *value),
        TypeDefV::Function { params, return_type } => add_names(
            add_names_fields(acc, params),
            *return_type,
        ),
        TypeDefV::Generic { args, .. } => add_names_seq(acc, args),
        TypeDefV::TemplateLiteral { types, .. } => add_names_seq(acc, types),
        TypeDefV::GenericDef { def, .. } => add_names(acc, *def),
        _ => acc,
    }
}

pub open spec fn add_names_seq(acc: Seq<EntryV>, items: Seq<TypeDefV>) -> Seq<EntryV>
    decreases items, 0int,
{
    if items.len() == 0 {
        acc
    } else {
        add_names(add_names_seq(acc, items.drop_last()), items.last())
    }
}

pub open spec fn add_names_fields(acc: Seq<EntryV>, fields: Seq<crate::ir::FieldV>) -> Seq<EntryV>
    decreases fields, 0int,
{
    if fields.len() == 0 {
        acc
    } else {
        add_names(add_names_fields(acc, fields.drop_last()), fields.last().ty)
    }
}

/// Adding never removes or reorders what is already registered: the old
/// model is a prefix of the new one.
pub proof fn lemma_add_extends(acc: Seq<EntryV>, t: TypeDefV)
    ensures
        add_names(acc, t).len() >= acc.len(),
        forall|i: int| 0 <= i < acc.len() ==> add_names(acc, t)[i] == acc[i],
    decreases t, 1int,
{
    match t {
        TypeDefV::Named { name, def, .. } => {
            if !has_name(acc, name) {
                let acc1 = acc.push(EntryV { name, def: t });
                lemma_add_extends(acc1, *def);
                assert forall|i: int| 0 <= i < acc.len() implies add_names(acc, t)[i] == acc[i] by {
                    assert(acc1[i] == acc[i]);
                    assert(add_names(acc1, *def)[i] == acc1[i]);
                }
            }
        }
        TypeDefV::Array(inner) => lemma_add_extends(acc, *inner),
        TypeDefV::Tuple(items) => lemma_add_extends_seq(acc, items),
        TypeDefV::Object(fields) => lemma_add_extends_fields(acc, fields),
        TypeDefV::Union(items) => lemma_add_extends_seq(acc, items),
        TypeDefV::Intersection(items) => lemma_add_extends_seq(acc, items),
        TypeDefV::Record { key, value } => {
            lemma_add_extends(acc, *key);
            lemma_add_extends(add_names(acc, *key), *value);
        }
        TypeDefV::Function { params, return_type } => {
            lemma_add_extends_fields(acc, params);
            lemma_add_extends(add_names_fields(acc, params), *return_type);
        }
        TypeDefV::Generic { args, .. } => lemma_add_extends_seq(acc, args),
        TypeDefV::TemplateLiteral { types, .. } => lemma_add_extends_seq(acc, types),
        TypeDefV::GenericDef { def, .. } => lemma_add_extends(acc, *def),
        _ => {}
    }
}

pub proof fn lemma_add_extends_seq(acc: Seq<EntryV>, items: Seq<TypeDefV>)
    ensures
        add_names_seq(acc, items).len() >= acc.len(),
        forall|i: int| 0 <= i < acc.len() ==> add_names_seq(acc, items)[i] == acc[i],
    decreases items, 0int,
{
    if items.len() > 0 {
        lemma_add_extends_seq(acc, items.drop_last());
        lemma_add_extends(add_names_seq(acc, items.drop_last()), items.last());
    }
}

pub proof fn lemma_add_extends_fields(acc: Seq<EntryV>, fields: Seq<crate::ir::FieldV>)
    ensures
        add_names_fields(acc, fields).len() >= acc.len(),
        forall|i: int| 0 <= i < acc.len() ==> add_names_fields(acc, fields)[i] == acc[i],
    decreases fields, 0int,
{
    if fields.len() > 0 {
        lemma_add_extends_fields(acc, fields.drop_last());
        lemma_add_extends(add_names_fields(acc, fields.drop_last()), fields.last().ty);
    }
}

/// Every `Named` node the walk can reach is present: at a `Named` its name
/// is registered, and a composite is covered when its children are.
pub open spec fn covered(m: Seq<EntryV>, t: TypeDefV) -> bool
    decreases t, 1int,
{
    match t {
        TypeDefV::Named { name, .. } => has_name(m, name),
        TypeDefV::Array(inner) => covered(m, *inner),
        TypeDefV::Tuple(items) => covered_seq(m, items),
        TypeDefV::Object(fields) => covered_fields(m, fields),
        TypeDefV::Union(items) => covered_seq(m, items),
        TypeDefV::Intersection(items) => covered_seq(m, items),
        TypeDefV::Record { key, value } => covered(m, *key) && covered(m, *value),
        TypeDefV::Function { params, return_type } => covered_fields(m, params) && covered(
            m,
            *return_type,
        ),
        TypeDefV::Generic { args, .. } => covered_seq(m, args),
        TypeDefV::TemplateLiteral { types, .. } => covered_seq(m, types),
        TypeDefV::GenericDef { def, .. } => covered(m, *def),
        _ => true,
    }
}

pub open spec fn covered_seq(m: Seq<EntryV>, items: Seq<TypeDefV>) -> bool
    decreases items, 0int,
{
    if items.len() == 0 {
        true
    } else {
        covered_seq(m, items.drop_last()) && covered(m, items.last())
    }
}

pub open spec fn covered_fields(m: Seq<EntryV>, fields: Seq<crate::ir::FieldV>) -> bool
    decreases fields, 0int,
{
    if fields.len() == 0 {
        true
    } else {
        covered_fields(m, fields.drop_last()) && covered(m, fields.last().ty)
    }
}

/// Coverage is stable under growing the model.
pub proof fn lemma_covered_monotone(m1: Seq<EntryV>, m2: Seq<EntryV>, t: TypeDefV)
    requires
        covered(m1, t),
        m2.len() >= m1.len(),
        forall|i: int| 0 <= i < m1.len() ==> m2[i] == m1[i],
    ensures
        covered(m2, t),
    decreases t, 1int,
{
    match t {
        TypeDefV::Named { name, .. } => {
            let i = choose|i: int| 0 <= i < m1.len() && m1[i].name == name;
            assert(m2[i].name == name);
        }
        TypeDefV::Array(inner) => lemma_covered_monotone(m1, m2, *inner),
        TypeDefV::Tuple(items) => lemma_covered_monotone_seq(m1, m2, items),
        TypeDefV::Object(fields) => lemma_covered_monotone_fields(m1, m2, fields),
        TypeDefV::Union(items) => lemma_covered_monotone_seq(m1, m2, items),
        TypeDefV::Intersection(items) => lemma_covered_monotone_seq(m1, m2, items),
        TypeDefV::Record { key, value } => {
            lemma_covered_monotone(m1, m2, *key);
            lemma_covered_monotone(m1, m2, *value);
        }
        TypeDefV::Function { params, return_type } => {
            lemma_covered_monotone_fields(m1, m2, params);
            lemma_covered_monotone(m1, m2, *return_type);
        }
        TypeDefV::Generic { args, .. } => lemma_covered_monotone_seq(m1, m2, args),
        TypeDefV::TemplateLiteral { types, .. } => lemma_covered_monotone_seq(m1, m2, types),
        TypeDefV::GenericDef { def, .. } => lemma_covered_monotone(m1, m2, *def),
        _ => {}
    }
}

pub proof fn lemma_covered_monotone_seq(m1: Seq<EntryV>, m2: Seq<EntryV>, items: Seq<TypeDefV>)
    requires
        covered_seq(m1, items),
        m2.len() >= m1.len(),
        forall|i: int| 0 <= i < m1.len() ==> m2[i] == m1[i],
    ensures
        covered_seq(m2, items),
    decreases items, 0int,
{
    if items.len() > 0 {
        lemma_covered_monotone_seq(m1, m2, items.drop_last());
        lemma_covered_monotone(m1, m2, items.last());
    }
}

pub proof fn lemma_covered_monotone_fields(
    m1: Seq<EntryV>,
    m2: Seq<EntryV>,
    fields: Seq<crate::ir::FieldV>,
)
    requires
        covered_fields(m1, fields),
        m2.len() >= m1.len(),
        forall|i: int| 0 <= i < m1.len() ==> m2[i] == m1[i],
    ensures
        covered_fields(m2, fields),
    decreases fields, 0int,
{
    if fields.len() > 0 {
        lemma_covered_monotone_fields(m1, m2, fields.drop_last());
        lemma_covered_monotone(m1, m2, fields.last().ty);
    }
}

/// After a walk, everything the walk reached is covered.
pub proof fn lemma_add_covers(acc: Seq<EntryV>, t: TypeDefV)
    ensures
        covered(add_names(acc, t), t),
    decreases t, 1int,
{
    match t {
        TypeDefV::Named { name, def, .. } => {
            if has_name(acc, name) {
            } else {
                let acc1 = acc.push(EntryV { name, def: t });
                assert(acc1[acc.len() as int].name == name);
                assert(has_name(acc1, name));
                lemma_add_extends(acc1, *def);
                let i = choose|i: int| 0 <= i < acc1.len() && acc1[i].name == name;
                assert(add_names(acc1, *def)[i].name == name);
            }
        }
        TypeDefV::Array(inner) => lemma_add_covers(acc, *inner),
        TypeDefV::Tuple(items) => lemma_add_covers_seq(acc, items),
        TypeDefV::Object(fields) => lemma_add_covers_fields(acc, fields),
        TypeDefV::Union(items) => lemma_add_covers_seq(acc, items),
        TypeDefV::Intersection(items) => lemma_add_covers_seq(acc, items),
        TypeDefV::Record { key, value } => {
            lemma_add_covers(acc, *key);
            let m1 = add_names(acc, *key);
            lemma_add_covers(m1, *value);
            let m2 = add_names(m1, *value);
            lemma_add_extends(m1, *value);
            lemma_covered_monotone(m1, m2, *key);
        }
        TypeDefV::Function { params, return_type } => {
            lemma_add_covers_fields(acc, params);
            let m1 = add_names_fields(acc, params);
            lemma_add_covers(m1, *return_type);
            let m2 = add_names(m1, *return_type);
            lemma_add_extends(m1, *return_type);
            lemma_covered_monotone_fields(m1, m2, params);
        }
        TypeDefV::Generic { args, .. } => lemma_add_covers_seq(acc, args),
        TypeDefV::TemplateLiteral { types, .. } => lemma_add_covers_seq(acc, types),
        TypeDefV::GenericDef { def, .. } => lemma_add_covers(acc, *def),
        _ => {}
    }
}

pub proof fn lemma_add_covers_seq(acc: Seq<EntryV>, items: Seq<TypeDefV>)
    ensures
        covered_seq(add_names_seq(acc, items), items),
    decreases items, 0int,
{
    if items.len() > 0 {
        lemma_add_covers_seq(acc, items.drop_last());
        let m1 = add_names_seq(acc, items.drop_last());
        lemma_add_covers(m1, items.last());
        let m2 = add_names(m1, items.last());
        lemma_add_extends(m1, items.last());
        lemma_covered_monotone_seq(m1, m2, items.drop_last());
    }
}

pub proof fn lemma_add_covers_fields(acc: Seq<EntryV>, fields: Seq<crate::ir::FieldV>)
    ensures
        covered_fields(add_names_fields(acc, fields), fields),
    decreases fields, 0int,
{
    if fields.len() > 0 {
        lemma_add_covers_fields(acc, fields.drop_last());
        let m1 = add_names_fields(acc, fields.drop_last());
        lemma_add_covers(m1, fields.last().ty);
        let m2 = add_names(m1, fields.last().ty);
        lemma_add_extends(m1, fields.last().ty);
        lemma_covered_monotone_fields(m1, m2, fields.drop_last());
    }
}

/// A walk over a covered tree registers nothing new.
pub proof fn lemma_add_covered_noop(m: Seq<EntryV>, t: TypeDefV)
    requires
        covered(m, t),
    ensures
        add_names(m, t) == m,
    decreases t, 1int,
{
    match t {
        TypeDefV::Array(inner) => lemma_add_covered_noop(m, *inner),
        TypeDefV::Tuple(items) => lemma_add_covered_noop_seq(m, items),
        TypeDefV::Object(fields) => lemma_add_covered_noop_fields(m, fields),
        TypeDefV::Union(items) => lemma_add_covered_noop_seq(m, items),
        TypeDefV::Intersection(items) => lemma_add_covered_noop_seq(m, items),
        TypeDefV::Record { key, value } => {
            lemma_add_covered_noop(m, *key);
            lemma_add_covered_noop(m, *value);
        }
        TypeDefV::Function { params, return_type } => {
            lemma_add_covered_noop_fields(m, params);
            lemma_add_covered_noop(m, *return_type);
        }
        TypeDefV::Generic { args, .. } => lemma_add_covered_noop_seq(m, args),
        TypeDefV::TemplateLiteral { types, .. } => lemma_add_covered_noop_seq(m, types),
        TypeDefV::GenericDef { def, .. } => lemma_add_covered_noop(m, *def),
        _ => {}
    }
}

pub proof fn lemma_add_covered_noop_seq(m: Seq<EntryV>, items: Seq<TypeDefV>)
    requires
        covered_seq(m, items),
    ensures
        add_names_seq(m, items) == m,
    decreases items, 0int,
{
    if items.len() > 0 {
        lemma_add_covered_noop_seq(m, items.drop_last());
        lemma_add_covered_noop(m, items.last());
    }
}

pub proof fn lemma_add_covered_noop_fields(m: Seq<EntryV>, fields: Seq<crate::ir::FieldV>)
    requires
        covered_fields(m, fields),
    ensures
        add_names_fields(m, fields) == m,
    decreases fields, 0int,
{
    if fields.len() > 0 {
        lemma_add_covered_noop_fields(m, fields.drop_last());
        lemma_add_covered_noop(m, fields.last().ty);
    }
}

/// Registering a tree a second time changes nothing: in particular, the
/// number of registered names, and so the length of `sorted_types`, is
/// unchanged by a repeated `add_typedef`.
pub proof fn lemma_add_idempotent(m: Seq<EntryV>, t: TypeDefV)
    ensures
        add_names(add_names(m, t), t) == add_names(m, t),
{
    lemma_add_covers(m, t);
    lemma_add_covered_noop(add_names(m, t), t);
}

/// Well-formed: registered names are distinct.
pub open spec fn wf_model(m: Seq<EntryV>) -> bool {
    forall|i: int, j: int| 0 <= i < j < m.len() ==> m[i].name != m[j].name
}

/// Adding keeps names distinct: a name is pushed only when absent.
pub proof fn lemma_add_wf(acc: Seq<EntryV>, t: TypeDefV)
    requires
        wf_model(acc),
    ensures
        wf_model(add_names(acc, t)),
    decreases t, 1int,
{
    match t {
        TypeDefV::Named { name, def, .. } => {
            if !has_name(acc, name) {
                let acc1 = acc.push(EntryV { name, def: t });
                assert forall|i: int, j: int| 0 <= i < j < acc1.len() implies acc1[i].name
                    != acc1[j].name by {
                    if j == acc.len() {
                        assert(!(acc1[i].name == name));
                    }
                }
                lemma_add_wf(acc1, *def);
            }
        }
        TypeDefV::Array(inner) => lemma_add_wf(acc, *inner),
        TypeDefV::Tuple(items) => lemma_add_wf_seq(acc, items),
        TypeDefV::Object(fields) => lemma_add_wf_fields(acc, fields),
        TypeDefV::Union(items) => lemma_add_wf_seq(acc, items),
        TypeDefV::Intersection(items) => lemma_add_wf_seq(acc, items),
        TypeDefV::Record { key, value } => {
            lemma_add_wf(acc, *key);
            lemma_add_wf(add_names(acc, *key), *value);
        }
        TypeDefV::Function { params, return_type } => {
            lemma_add_wf_fields(acc, params);
            lemma_add_wf(add_names_fields(acc, params), *return_type);
        }
        TypeDefV::Generic { args, .. } => lemma_add_wf_seq(acc, args),
        TypeDefV::TemplateLiteral { types, .. } => lemma_add_wf_seq(acc, types),
        TypeDefV::GenericDef { def, .. } => lemma_add_wf(acc, *def),
        _ => {}
    }
}

pub proof fn lemma_add_wf_seq(acc: Seq<EntryV>, items: Seq<TypeDefV>)
    requires
        wf_model(acc),
    ensures
        wf_model(add_names_seq(acc, items)),
    decreases items, 0int,
{
    if items.len() > 0 {
        lemma_add_wf_seq(acc, items.drop_last());
        lemma_add_wf(add_names_seq(acc, items.drop_last()), items.last());
    }
}

pub proof fn lemma_add_wf_fields(acc: Seq<EntryV>, fields: Seq<crate::ir::FieldV>)
    requires
        wf_model(acc),
    ensures
        wf_model(add_names_fields(acc, fields)),
    decreases fields, 0int,
{
    if fields.len() > 0 {
        lemma_add_wf_fields(acc, fields.drop_last());
        lemma_add_wf(add_names_fields(acc, fields.drop_last()), fields.last().ty);
    }
}

/// The trait a type implements to state its own TypeScript shape; the
/// spec function pins down exactly the tree the executable method returns.
pub trait TypeScript {
    /// The view of the tree `typescript` returns.
    spec fn typescript_spec() -> TypeDefV;

    /// Returns the TypeScript type definition for this type.
    fn typescript() -> (r: TypeDef)
        ensures
            r@ == Self::typescript_spec(),
    ;
}

/// A registry for collecting and ordering named type definitions.
///
/// Its view is the sequence of registered (name, definition) pairs in
/// registration order; well-formedness says the names are distinct.
#[derive(Debug)]
pub struct TypeRegistry {
    entries: Vec<RegEntry>,
}

impl View for TypeRegistry {
    type V = Seq<EntryV>;

    closed spec fn view(&self) -> Seq<EntryV> {
        Seq::new(self.entries@.len(), |i: int| EntryV {
            name: self.entries@[i].name@,
            def: self.entries@[i].def@,
        })
    }
}

impl TypeRegistry {
    /// Registered names are unique.
    pub open spec fn wf(&self) -> bool {
        wf_model(self@)
    }

    /// Creates a new empty registry.
    pub fn new() -> (r: Self)
        ensures
            r@ =~= Seq::<EntryV>::empty(),
            r.wf(),
    {
        TypeRegistry { entries: Vec::new() }
    }

    /// Whether a type of this name is registered.
    #[verifier::loop_isolation(false)]
    pub fn contains_name(&self, name: &str) -> (r: bool)
        ensures
            r == has_name(self@, name@),
    {
        let mut i: usize = 0;
        while i < self.entries.len()
            invariant
                i <= self.entries.len(),
                forall|j: int| 0 <= j < i ==> self@[j].name != name@,
            decreases self.entries.len() - i,
        {
            if crate::strutil::str_eq(self.entries[i].name.as_str(), name) {
                proof {
                    assert(self@[i as int].name == name@);
                }
                return true;
            }
            i = i + 1;
        }
        false
    }

    /// Registers every `Named` node reachable in `typedef`, deduplicating
    /// by name: a name already present is left untouched, a new one is
    /// appended in walk order and its definition walked in turn.
    pub fn add_typedef(&mut self, typedef: TypeDef)
        requires
            old(self).wf(),
        ensures
            final(self)@ == add_names(old(self)@, typedef@),
            final(self).wf(),
    {
        proof {
            lemma_add_wf(self@, typedef@);
        }
        self.extract_named_types(&typedef);
    }

    /// Registers the type `T` describes.
    pub fn register<T: TypeScript>(&mut self)
        requires
            old(self).wf(),
        ensures
            final(self)@ == add_names(old(self)@, T::typescript_spec()),
            final(self).wf(),
    {
        let td = T::typescript();
        self.add_typedef(td);
    }

    /// Recursively registers all `Named` nodes reachable in `t`.
    fn extract_named_types(&mut self, t: &TypeDef)
        ensures
            final(self)@ == add_names(old(self)@, t@),
        decreases *t, 3int,
    {
        match t {
            TypeDef::Named { name, def, .. } => {
                if !self.contains_name(name.as_str()) {
                    let entry = RegEntry { name: name.clone(), def: t.clone() };
                    let ghost before = self@;
                    self.entries.push(entry);
                    proof {
                        assert(self@ =~= before.push(EntryV { name: name@, def: t@ }));
                    }
                    self.extract_named_types(def);
                }
            }
            TypeDef::Array(inner) => self.extract_named_types(inner),
            TypeDef::Tuple(items) => self.extract_from_vec(t, items),
            TypeDef::Object(fields) => self.extract_from_fields(t, fields),
            TypeDef::Union(items) => self.extract_from_vec(t, items),
            TypeDef::Intersection(items) => self.extract_from_vec(t, items),
            TypeDef::Record { key, value } => {
                self.extract_named_types(key);
                self.extract_named_types(value);
            }
            TypeDef::Function { params, return_type } => {
                self.extract_from_fields(t, params);
                self.extract_named_types(return_type);
            }
            TypeDef::Generic { args, .. } => self.extract_from_vec(t, args),
            TypeDef::TemplateLiteral { types, .. } => self.extract_from_vec(t, types),
            TypeDef::GenericDef { def, .. } => self.extract_named_types(def),
            TypeDef::Primitive(_) => {}
            TypeDef::Ref(_) => {}
            TypeDef::Literal(_) => {}
            TypeDef::IndexedAccess { .. } => {}
        }
    }

    /// Registers the `Named` nodes of each element of a vector of `whole`.
    #[verifier::loop_isolation(false)]
    fn extract_from_vec(&mut self, whole: &TypeDef, items: &Vec<TypeDef>)
        requires
            decreases_to!(*whole => *items),
        ensures
            final(self)@ == add_names_seq(old(self)@, view_typedef_seq(items@)),
        decreases *whole, 2int,
    {
        proof {
            lemma_view_typedef_seq(items@);
        }
        let mut i: usize = 0;
        while i < items.len()
            invariant
                i <= items.len(),
                self@ == add_names_seq(old(self)@, view_typedef_seq(items@.take(i as int))),
            decreases items.len() - i,
        {
            proof {
                assert(decreases_to!(*items => items@[i as int]));
            }
            self.extract_named_types(&items[i]);
            proof {
                lemma_view_typedef_seq(items@.take(i as int));
                assert(items@.take(i + 1).drop_last() =~= items@.take(i as int));
                assert(view_typedef_seq(items@.take(i + 1)) =~= view_typedef_seq(
                    items@.take(i as int),
                ).push(items@[i as int]@));
                assert(view_typedef_seq(items@.take(i + 1)).drop_last() =~= view_typedef_seq(
                    items@.take(i as int),
                ));
                assert(view_typedef_seq(items@.take(i + 1)).last() == items@[i as int]@);
            }
            i = i + 1;
        }
        proof {
            assert(items@.take(items@.len() as int) =~= items@);
        }
    }

    /// Registers the `Named` nodes of each field type of `whole`.
    #[verifier::loop_isolation(false)]
    fn extract_from_fields(&mut self, whole: &TypeDef, fields: &Vec<Field>)
        requires
            decreases_to!(*whole => *fields),
        ensures
            final(self)@ == add_names_fields(old(self)@, view_field_seq(fields@)),
        decreases *whole, 2int,
    {
        proof {
            lemma_view_field_seq(fields@);
        }
        let mut i: usize = 0;
        while i < fields.len()
            invariant
                i <= fields.len(),
                self@ == add_names_fields(old(self)@, view_field_seq(fields@.take(i as int))),
            decreases fields.len() - i,
        {
            proof {
                assert(decreases_to!(*fields => fields@[i as int]));
            }
            self.extract_one_field(whole, &fields[i]);
            proof {
                lemma_view_field_seq(fields@.take(i as int));
                assert(fields@.take(i + 1).drop_last() =~= fields@.take(i as int));
                assert(view_field_seq(fields@.take(i + 1)) =~= view_field_seq(
                    fields@.take(i as int),
                ).push(crate::ir::view_field(fields@[i as int])));
                assert(view_field_seq(fields@.take(i + 1)).drop_last() =~= view_field_seq(
                    fields@.take(i as int),
                ));
                assert(view_field_seq(fields@.take(i + 1)).last() == crate::ir::view_field(
                    fields@[i as int],
                ));
            }
            i = i + 1;
        }
        proof {
            assert(fields@.take(fields@.len() as int) =~= fields@);
        }
    }

    /// Registers the `Named` nodes of one field's type.
    fn extract_one_field(&mut self, whole: &TypeDef, f: &Field)
        requires
            decreases_to!(*whole => *f),
        ensures
            final(self)@ == add_names(old(self)@, f.ty@),
        decreases *whole, 1int,
    {
        proof {
            assert(decreases_to!(*f => f.ty));
        }
        self.extract_named_types(&f.ty);
    }

    /// The number of registered types.
    pub fn len(&self) -> (r: usize)
        ensures
            r == self@.len(),
    {
        self.entries.len()
    }

    /// Whether no types are registered.
    pub fn is_empty(&self) -> (r: bool)
        ensures
            r == (self@.len() == 0),
    {
        self.entries.len() == 0
    }

    /// The registered names, in registration order.
    #[verifier::loop_isolation(false)]
    pub fn type_names(&self) -> (r: Vec<String>)
        ensures
            view_string_seq(r@) =~= reg_names(self@),
    {
        let mut out: Vec<String> = Vec::new();
        let mut i: usize = 0;
        while i < self.entries.len()
            invariant
                i <= self.entries.len(),
                out@.len() == i,
                forall|j: int| 0 <= j < i ==> out@[j]@ == self@[j].name,
            decreases self.entries.len() - i,
        {
            out.push(self.entries[i].name.clone());
            i = i + 1;
        }
        proof {
            assert(view_string_seq(out@) =~= reg_names(self@));
        }
        out
    }

    /// The registered definition of this name, if any.
    #[verifier::loop_isolation(false)]
    pub fn get(&self, name: &str) -> (r: Option<&TypeDef>)
        ensures
            match r {
                Option::Some(td) => has_name(self@, name@) && exists|i: int|
                    0 <= i < self@.len() && self@[i].name == name@ && td@ == self@[i].def,
                Option::None => !has_name(self@, name@),
            },
    {
        let mut i: usize = 0;
        while i < self.entries.len()
            invariant
                i <= self.entries.len(),
                forall|j: int| 0 <= j < i ==> self@[j].name != name@,
            decreases self.entries.len() - i,
        {
            if crate::strutil::str_eq(self.entries[i].name.as_str(), name) {
                proof {
                    assert(self@[i as int].name == name@);
                }
                return Option::Some(&self.entries[i].def);
            }
            i = i + 1;
        }
        Option::None
    }

    /// Removes every registered type.
    pub fn clear(&mut self)
        ensures
            final(self)@ =~= Seq::<EntryV>::empty(),
            final(self).wf(),
    {
        self.entries.clear();
    }
}

/// How many of the dependency names `ds` are not yet among `done`.
pub open spec fn missing_count(ds: Seq<Seq<char>>, done: Seq<Seq<char>>) -> nat
    decreases ds,
{
    if ds.len() == 0 {
        0
    } else {
        missing_count(ds.drop_last(), done) + (if done.contains(ds.last()) {
            0nat
        } else {
            1nat
        })
    }
}

proof fn lemma_missing_empty(ds: Seq<Seq<char>>)
    ensures
        missing_count(ds, Seq::empty()) == ds.len(),
    decreases ds,
{
    if ds.len() > 0 {
        lemma_missing_empty(ds.drop_last());
    }
}

proof fn lemma_missing_zero(ds: Seq<Seq<char>>, done: Seq<Seq<char>>)
    ensures
        (missing_count(ds, done) == 0) <==> (forall|d: Seq<char>|
            ds.contains(d) ==> done.contains(d)),
    decreases ds,
{
    if ds.len() > 0 {
        lemma_missing_zero(ds.drop_last(), done);
        if missing_count(ds, done) == 0 {
            assert forall|d: Seq<char>| ds.contains(d) implies done.contains(d) by {
                let p = choose|p: int| 0 <= p < ds.len() && ds[p] == d;
                if p < ds.len() - 1 {
                    assert(ds.drop_last()[p] == d);
                    assert(ds.drop_last().contains(d));
                }
            }
        }
        if forall|d: Seq<char>| ds.contains(d) ==> done.contains(d) {
            assert forall|d: Seq<char>| ds.drop_last().contains(d) implies done.contains(d) by {
                let p = choose|p: int| 0 <= p < ds.drop_last().len() && ds.drop_last()[p] == d;
                assert(ds[p] == d);
            }
            assert(ds.contains(ds.last()));
        }
    }
}

proof fn lemma_missing_push_notin(ds: Seq<Seq<char>>, done: Seq<Seq<char>>, x: Seq<char>)
    requires
        !ds.contains(x),
    ensures
        missing_count(ds, done.push(x)) == missing_count(ds, done),
    decreases ds,
{
    if ds.len() > 0 {
        assert forall|d: Seq<char>| ds.drop_last().contains(d) implies ds.contains(d) by {
            let p = choose|p: int| 0 <= p < ds.drop_last().len() && ds.drop_last()[p] == d;
            assert(ds[p] == d);
        }
        lemma_missing_push_notin(ds.drop_last(), done, x);
        assert(ds[ds.len() - 1] == ds.last());
        assert(ds.contains(ds.last()));
        assert(ds.last() != x);
        assert(done.push(x).contains(ds.last()) == (done.contains(ds.last()) || ds.last() == x))
            by {
            if done.contains(ds.last()) {
                let q = choose|q: int| 0 <= q < done.len() && done[q] == ds.last();
                assert(done.push(x)[q] == ds.last());
            }
            if done.push(x).contains(ds.last()) {
                let q = choose|q: int|
                    0 <= q < done.push(x).len() && done.push(x)[q] == ds.last();
                if q < done.len() {
                    assert(done[q] == ds.last());
                } else {
                    assert(done.push(x)[q] == x);
                }
            }
        }
    }
}

proof fn lemma_missing_push_in(ds: Seq<Seq<char>>, done: Seq<Seq<char>>, x: Seq<char>)
    requires
        ds.no_duplicates(),
        ds.contains(x),
        !done.contains(x),
    ensures
        missing_count(ds, done.push(x)) + 1 == missing_count(ds, done),
    decreases ds,
{
    let dl = ds.drop_last();
    assert(ds.len() > 0);
    assert forall|i: int, j: int|
        0 <= i < dl.len() && 0 <= j < dl.len() && i != j implies dl[i] != dl[j] by {
        assert(dl[i] == ds[i] && dl[j] == ds[j]);
    }
    if ds.last() == x {
        if dl.contains(x) {
            let p = choose|p: int| 0 <= p < dl.len() && dl[p] == x;
            assert(ds[p] == x && ds[ds.len() - 1] == x);
            assert(false);
        }
        lemma_missing_push_notin(dl, done, x);
        assert(done.push(x)[done.len() as int] == x);
        assert(done.push(x).contains(x));
    } else {
        let p = choose|p: int| 0 <= p < ds.len() && ds[p] == x;
        assert(ds[ds.len() - 1] == ds.last());
        assert(p != ds.len() - 1);
        assert(dl[p] == x);
        assert(dl.contains(x));
        lemma_missing_push_in(dl, done, x);
        assert(done.push(x).contains(ds.last()) == (done.contains(ds.last()) || ds.last() == x))
            by {
            if done.contains(ds.last()) {
                let q = choose|q: int| 0 <= q < done.len() && done[q] == ds.last();
                assert(done.push(x)[q] == ds.last());
            }
            if done.push(x).contains(ds.last()) {
                let q = choose|q: int|
                    0 <= q < done.push(x).len() && done.push(x)[q] == ds.last();
                if q < done.len() {
                    assert(done[q] == ds.last());
                } else {
                    assert(done.push(x)[q] == x);
                }
            }
        }
    }
}

proof fn lemma_missing_pos(ds: Seq<Seq<char>>, done: Seq<Seq<char>>, d: Seq<char>)
    requires
        ds.contains(d),
        !done.contains(d),
    ensures
        missing_count(ds, done) >= 1,
{
    lemma_missing_zero(ds, done);
}

proof fn lemma_missing_witness(ds: Seq<Seq<char>>, done: Seq<Seq<char>>)
    requires
        missing_count(ds, done) > 0,
    ensures
        exists|d: Seq<char>| ds.contains(d) && !done.contains(d),
{
    lemma_missing_zero(ds, done);
}

/// What the dedup pass yields: distinct names, exactly the registered ones
/// among the raw references.
pub proof fn lemma_dedup_props(m: Seq<EntryV>, raw: Seq<Seq<char>>)
    ensures
        dedup_registered(m, raw).no_duplicates(),
        forall|d: Seq<char>| #[trigger] dedup_registered(m, raw).contains(d) <==> (raw.contains(d)
            && has_name(m, d)),
    decreases raw,
{
    if raw.len() > 0 {
        lemma_dedup_props(m, raw.drop_last());
        let p = dedup_registered(m, raw.drop_last());
        let dd = dedup_registered(m, raw);
        assert forall|d: Seq<char>| raw.drop_last().contains(d) implies raw.contains(d) by {
            let q = choose|q: int| 0 <= q < raw.drop_last().len() && raw.drop_last()[q] == d;
            assert(raw[q] == d);
        }
        assert(raw.contains(raw.last()));
        assert forall|d: Seq<char>| #[trigger] dd.contains(d) implies (raw.contains(d) && has_name(
            m,
            d,
        )) by {
            let q = choose|q: int| 0 <= q < dd.len() && dd[q] == d;
            if q < p.len() {
                assert(p[q] == d);
                assert(p.contains(d));
            }
        }
        assert forall|d: Seq<char>| raw.contains(d) && has_name(m, d) implies #[trigger] dd
            .contains(d) by {
            let q = choose|q: int| 0 <= q < raw.len() && raw[q] == d;
            if q < raw.len() - 1 {
                assert(raw.drop_last()[q] == d);
                assert(raw.drop_last().contains(d));
                assert(p.contains(d));
                let r = choose|r: int| 0 <= r < p.len() && p[r] == d;
                assert(dd[r] == d);
            } else {
                if p.contains(d) {
                    let r = choose|r: int| 0 <= r < p.len() && p[r] == d;
                    assert(dd[r] == d);
                } else {
                    assert(dd.last() == d);
                }
            }
        }
    }
}

/// Names in an output order honour the dependency graph: every registered
/// dependency of an entry appears strictly earlier.
pub open spec fn dep_ordered(m: Seq<EntryV>, ns: Seq<Seq<char>>) -> bool {
    forall|p: int, d: Seq<char>|
        0 <= p < ns.len() && #[trigger] entry_deps(m, index_of(m, ns[p])).contains(d)
            ==> exists|q: int| 0 <= q < p && ns[q] == d
}

/// A ranking that every dependency edge strictly descends.
pub open spec fn rank_ok(m: Seq<EntryV>, rank: Map<Seq<char>, nat>) -> bool {
    forall|i: int, d: Seq<char>|
        0 <= i < m.len() && #[trigger] entry_deps(m, i).contains(d) ==> rank[d] < rank[m[i].name]
}

/// A registry's dependency graph is acyclic when some ranking descends
/// along every edge.
pub open spec fn acyclic(m: Seq<EntryV>) -> bool {
    exists|rank: Map<Seq<char>, nat>| rank_ok(m, rank)
}

/// In an acyclic graph, there is no nonempty set of entries each of which
/// still misses a dependency: following missing dependencies descends the
/// ranking forever.
proof fn lemma_descent(m: Seq<EntryV>, rank: Map<Seq<char>, nat>, done: Seq<Seq<char>>, i: int)
    requires
        rank_ok(m, rank),
        0 <= i < m.len(),
        forall|j: int|
            0 <= j < m.len() && !done.contains(m[j].name) ==> missing_count(
                #[trigger] entry_deps(m, j),
                done,
            ) > 0,
    ensures
        done.contains(m[i].name),
    decreases rank[m[i].name],
{
    if !done.contains(m[i].name) {
        lemma_missing_witness(entry_deps(m, i), done);
        let d = choose|d: Seq<char>| entry_deps(m, i).contains(d) && !done.contains(d);
        lemma_dedup_props(m, raw_deps(m[i]));
        assert(has_name(m, d));
        let di = choose|k: int| 0 <= k < m.len() && m[k].name == d;
        assert(rank[d] < rank[m[i].name]);
        lemma_descent(m, rank, done, di);
        assert(false);
    }
}

/// A sequence of distinct indices into `[0, n)` has at most `n` elements.
proof fn lemma_distinct_bounded(s: Seq<int>, n: int)
    requires
        n >= 0,
        s.no_duplicates(),
        forall|p: int| 0 <= p < s.len() ==> 0 <= #[trigger] s[p] < n,
    ensures
        s.len() <= n,
{
    broadcast use vstd::seq_lib::seq_to_set_is_finite;

    s.unique_seq_to_set();
    vstd::set_lib::lemma_int_range(0, n);
    assert forall|a: int| s.to_set().contains(a) implies vstd::set_lib::set_int_range(
        0,
        n,
    ).contains(a) by {
        assert(s.contains(a));
    }
    vstd::set_lib::lemma_len_subset(s.to_set(), vstd::set_lib::set_int_range(0, n));
}

/// A sequence of fewer than `n` distinct indices into `[0, n)` misses one.
proof fn lemma_distinct_missing(s: Seq<int>, n: int)
    requires
        n >= 0,
        s.no_duplicates(),
        forall|p: int| 0 <= p < s.len() ==> 0 <= #[trigger] s[p] < n,
        s.len() < n,
    ensures
        exists|i: int| 0 <= i < n && !s.contains(i),
{
    broadcast use vstd::seq_lib::seq_to_set_is_finite;

    if !(exists|i: int| 0 <= i < n && !s.contains(i)) {
        s.unique_seq_to_set();
        vstd::set_lib::lemma_int_range(0, n);
        assert forall|a: int| vstd::set_lib::set_int_range(0, n).contains(a) implies s
            .to_set().contains(a) by {
            assert(s.contains(a));
        }
        vstd::set_lib::lemma_len_subset(vstd::set_lib::set_int_range(0, n), s.to_set());
        assert(false);
    }
}

/// Appends to `out` the names that `t` refers to, in traversal order.
fn collect_refs(t: &TypeDef, out: &mut Vec<String>)
    ensures
        view_string_seq(final(out)@) == view_string_seq(old(out)@) + refs_in(t@),
    decreases *t, 3int,
{
    match t {
        TypeDef::Ref(name) => {
            out.push(name.clone());
            proof {
                assert(view_string_seq(out@) =~= view_string_seq(old(out)@) + refs_in(t@));
            }
        }
        TypeDef::Array(inner) => collect_refs(inner, out),
        TypeDef::Tuple(items) => collect_refs_vec(t, items, out),
        TypeDef::Object(fields) => collect_refs_fields(t, fields, out),
        TypeDef::Union(items) => collect_refs_vec(t, items, out),
        TypeDef::Intersection(items) => collect_refs_vec(t, items, out),
        TypeDef::Record { key, value } => {
            collect_refs(key, out);
            collect_refs(value, out);
            proof {
                assert(view_string_seq(out@) =~= view_string_seq(old(out)@) + refs_in(t@));
            }
        }
        TypeDef::Function { params, return_type } => {
            collect_refs_fields(t, params, out);
            collect_refs(return_type, out);
            proof {
                assert(view_string_seq(out@) =~= view_string_seq(old(out)@) + refs_in(t@));
            }
        }
        TypeDef::Generic { args, .. } => collect_refs_vec(t, args, out),
        TypeDef::TemplateLiteral { types, .. } => collect_refs_vec(t, types, out),
        TypeDef::GenericDef { def, .. } => collect_refs(def, out),
        _ => {
            proof {
                assert(view_string_seq(out@) =~= view_string_seq(old(out)@) + refs_in(t@));
            }
        }
    }
}

#[verifier::loop_isolation(false)]
fn collect_refs_vec(whole: &TypeDef, items: &Vec<TypeDef>, out: &mut Vec<String>)
    requires
        decreases_to!(*whole => *items),
    ensures
        view_string_seq(final(out)@) == view_string_seq(old(out)@) + refs_in_seq(
            view_typedef_seq(items@),
        ),
    decreases *whole, 2int,
{
    proof {
        lemma_view_typedef_seq(items@);
    }
    let mut i: usize = 0;
    while i < items.len()
        invariant
            i <= items.len(),
            view_string_seq(out@) == view_string_seq(old(out)@) + refs_in_seq(
                view_typedef_seq(items@.take(i as int)),
            ),
        decreases items.len() - i,
    {
        proof {
            assert(decreases_to!(*items => items@[i as int]));
        }
        collect_refs(&items[i], out);
        proof {
            lemma_view_typedef_seq(items@.take(i as int));
            assert(items@.take(i + 1).drop_last() =~= items@.take(i as int));
            assert(view_typedef_seq(items@.take(i + 1)) =~= view_typedef_seq(
                items@.take(i as int),
            ).push(items@[i as int]@));
            assert(view_typedef_seq(items@.take(i + 1)).drop_last() =~= view_typedef_seq(
                items@.take(i as int),
            ));
            assert(view_string_seq(out@) =~= view_string_seq(old(out)@) + refs_in_seq(
                view_typedef_seq(items@.take(i + 1)),
            ));
        }
        i = i + 1;
    }
    proof {
        assert(items@.take(items@.len() as int) =~= items@);
    }
}

#[verifier::loop_isolation(false)]
fn collect_refs_fields(whole: &TypeDef, fields: &Vec<Field>, out: &mut Vec<String>)
    requires
        decreases_to!(*whole => *fields),
    ensures
        view_string_seq(final(out)@) == view_string_seq(old(out)@) + refs_in_fields(
            view_field_seq(fields@),
        ),
    decreases *whole, 2int,
{
    proof {
        lemma_view_field_seq(fields@);
    }
    let mut i: usize = 0;
    while i < fields.len()
        invariant
            i <= fields.len(),
            view_string_seq(out@) == view_string_seq(old(out)@) + refs_in_fields(
                view_field_seq(fields@.take(i as int)),
            ),
        decreases fields.len() - i,
    {
        proof {
            assert(decreases_to!(*fields => fields@[i as int]));
        }
        collect_refs_field(whole, &fields[i], out);
        proof {
            lemma_view_field_seq(fields@.take(i as int));
            assert(fields@.take(i + 1).drop_last() =~= fields@.take(i as int));
            assert(view_field_seq(fields@.take(i + 1)) =~= view_field_seq(
                fields@.take(i as int),
            ).push(crate::ir::view_field(fields@[i as int])));
            assert(view_field_seq(fields@.take(i + 1)).drop_last() =~= view_field_seq(
                fields@.take(i as int),
            ));
            assert(view_string_seq(out@) =~= view_string_seq(old(out)@) + refs_in_fields(
                view_field_seq(fields@.take(i + 1)),
            ));
        }
        i = i + 1;
    }
    proof {
        assert(fields@.take(fields@.len() as int) =~= fields@);
    }
}

fn collect_refs_field(whole: &TypeDef, f: &Field, out: &mut Vec<String>)
    requires
        decreases_to!(*whole => *f),
    ensures
        view_string_seq(final(out)@) == view_string_seq(old(out)@) + refs_in(f.ty@),
    decreases *whole, 1int,
{
    proof {
        assert(decreases_to!(*f => f.ty));
    }
    collect_refs(&f.ty, out);
}

/// Whether some element of `v` has the view of `s`.
#[verifier::loop_isolation(false)]
pub(crate) fn vec_contains_str(v: &Vec<String>, s: &str) -> (r: bool)
    ensures
        r == view_string_seq(v@).contains(s@),
{
    let mut i: usize = 0;
    while i < v.len()
        invariant
            i <= v.len(),
            forall|j: int| 0 <= j < i ==> v@[j]@ != s@,
        decreases v.len() - i,
    {
        if crate::strutil::str_eq(v[i].as_str(), s) {
            proof {
                assert(view_string_seq(v@)[i as int] == s@);
            }
            return true;
        }
        i = i + 1;
    }
    proof {
        if view_string_seq(v@).contains(s@) {
            let j = choose|j: int|
                0 <= j < view_string_seq(v@).len() && view_string_seq(v@)[j] == s@;
            assert(v@[j]@ == s@);
        }
    }
    false
}

impl TypeRegistry {
    /// Keeps the first occurrence of each registered name in `raw`.
    #[verifier::loop_isolation(false)]
    fn dedup_reg(&self, raw: &Vec<String>) -> (r: Vec<String>)
        ensures
            view_string_seq(r@) == dedup_registered(self@, view_string_seq(raw@)),
    {
        let ghost vraw = view_string_seq(raw@);
        let mut out: Vec<String> = Vec::new();
        let mut j: usize = 0;
        while j < raw.len()
            invariant
                j <= raw.len(),
                view_string_seq(out@) == dedup_registered(self@, vraw.take(j as int)),
            decreases raw.len() - j,
        {
            let keep = self.contains_name(raw[j].as_str()) && !vec_contains_str(
                &out,
                raw[j].as_str(),
            );
            let ghost before = out@;
            if keep {
                out.push(raw[j].clone());
            }
            proof {
                assert(vraw.take(j + 1).drop_last() =~= vraw.take(j as int));
                assert(vraw.take(j + 1).last() == raw@[j as int]@);
                if keep {
                    assert(view_string_seq(out@) =~= view_string_seq(before).push(raw@[j as int]@));
                }
                assert(view_string_seq(out@) == dedup_registered(self@, vraw.take(j + 1)));
            }
            j = j + 1;
        }
        proof {
            assert(vraw.take(raw@.len() as int) =~= vraw);
        }
        out
    }

    /// The index of the entry named `name`.
    #[verifier::loop_isolation(false)]
    fn find_index(&self, name: &str) -> (r: usize)
        requires
            self.wf(),
            has_name(self@, name@),
        ensures
            0 <= r < self@.len(),
            self@[r as int].name == name@,
            r == index_of(self@, name@),
    {
        let mut i: usize = 0;
        while i < self.entries.len()
            invariant
                i <= self.entries.len(),
                forall|j: int| 0 <= j < i ==> self@[j].name != name@,
            decreases self.entries.len() - i,
        {
            if crate::strutil::str_eq(self.entries[i].name.as_str(), name) {
                proof {
                    assert(self@[i as int].name == name@);
                    let i0 = index_of(self@, name@);
                    assert(0 <= i0 < self@.len() && self@[i0].name == name@);
                }
                return i;
            }
            i = i + 1;
        }
        proof {
            let i0 = choose|i0: int| 0 <= i0 < self@.len() && self@[i0].name == name@;
            assert(false);
        }
        0
    }

    /// The dependency list of every entry: the distinct registered names
    /// each definition refers to.
    #[verifier::loop_isolation(false)]
    fn build_deps(&self) -> (deps: Vec<Vec<String>>)
        ensures
            deps@.len() == self@.len(),
            forall|j: int|
                0 <= j < self@.len() ==> view_string_seq(#[trigger] deps@[j]@) == entry_deps(
                    self@,
                    j,
                ),
    {
        let ghost m = self@;
        let n = self.entries.len();
        let mut deps: Vec<Vec<String>> = Vec::new();
        let mut i: usize = 0;
        while i < n
            invariant
                i <= n,
                deps@.len() == i,
                forall|j: int|
                    0 <= j < i ==> view_string_seq(#[trigger] deps@[j]@) == entry_deps(m, j),
            decreases n - i,
        {
            let mut raw: Vec<String> = Vec::new();
            match &self.entries[i].def {
                TypeDef::Named { def, .. } => collect_refs(def, &mut raw),
                other => collect_refs(other, &mut raw),
            }
            proof {
                assert(view_string_seq(raw@) =~= raw_deps(m[i as int]));
            }
            let dd = self.dedup_reg(&raw);
            deps.push(dd);
            i = i + 1;
        }
        deps
    }

    /// Returns the registered names in dependency order: a name comes after
    /// the names its definition refers to, with ties broken by registration
    /// order (Kahn's algorithm seeded and drained in registration order).
    /// When the graph has a cycle, every name the sort did not reach is
    /// appended afterwards in registration order, so no type is dropped.
    #[verifier::loop_isolation(false)]
    #[verifier::rlimit(60)]
    pub fn sorted_types(&self) -> (r: Vec<String>)
        requires
            self.wf(),
        ensures
            r@.len() == self@.len(),
            forall|p: int, q: int| 0 <= p < q < r@.len() ==> r@[p]@ != r@[q]@,
            forall|p: int| 0 <= p < r@.len() ==> has_name(self@, r@[p]@),
            acyclic(self@) ==> dep_ordered(self@, view_string_seq(r@)),
    {
        let ghost m = self@;
        let n = self.entries.len();
        let deps = self.build_deps();
        let mut in_degree = init_degrees(&deps, Ghost(m));
        let mut queue = seed_queue(&in_degree);

        let mut result: Vec<String> = Vec::new();
        let mut qhead: usize = 0;
        proof {
            assert(view_string_seq(result@) =~= Seq::<Seq<char>>::empty());
        }
        while qhead < queue.len()
            invariant
                in_degree@.len() == n,
                deps@.len() == n,
                forall|j: int|
                    0 <= j < n ==> view_string_seq(#[trigger] deps@[j]@) == entry_deps(m, j),
                qhead <= queue@.len(),
                queue@.len() <= n,
                forall|p: int| 0 <= p < queue@.len() ==> 0 <= #[trigger] queue@[p] < n,
                forall|p: int, q: int| 0 <= p < q < queue@.len() ==> queue@[p] != queue@[q],
                result@.len() == qhead,
                forall|p: int|
                    0 <= p < qhead ==> result@[p]@ == m[#[trigger] queue@[p] as int].name,
                forall|p: int, d: Seq<char>|
                    0 <= p < qhead && #[trigger] entry_deps(m, queue@[p] as int).contains(d)
                        ==> exists|q: int| 0 <= q < p && result@[q]@ == d,
                forall|j: int|
                    0 <= j < n && !popped(queue@, qhead as int, j) ==> #[trigger] in_degree@[j]
                        == missing_count(entry_deps(m, j), view_string_seq(result@)),
                forall|p: int|
                    qhead <= p < queue@.len() ==> in_degree@[#[trigger] queue@[p] as int] == 0,
                forall|j: int|
                    0 <= j < n && !queue@.contains(j as usize) ==> #[trigger] in_degree@[j] > 0,
            decreases n - qhead,
        {
            let k = queue[qhead];
            let ghost old_result_v = result@;
            let ghost done0 = view_string_seq(result@);
            proof {
                // The popped entry is not yet in the output, and all of its
                // dependencies already are.
                if popped(queue@, qhead as int, k as int) {
                    let p = choose|p: int| 0 <= p < qhead && queue@[p] == k;
                    assert(queue@[p] == queue@[qhead as int]);
                    assert(false);
                }
                assert(in_degree@[k as int] == missing_count(entry_deps(m, k as int), done0));
                assert(in_degree@[k as int] == 0);
                lemma_missing_zero(entry_deps(m, k as int), done0);
                if done0.contains(m[k as int].name) {
                    let q = choose|q: int| 0 <= q < done0.len() && done0[q] == m[k as int].name;
                    assert(result@[q]@ == m[queue@[q] as int].name);
                    assert(queue@[q] != queue@[qhead as int]);
                    assert(false);
                }
            }
            let name_k = self.entries[k].name.clone();
            result.push(name_k);
            qhead = qhead + 1;
            let ghost done1 = view_string_seq(result@);
            proof {
                assert(result@ == old_result_v.push(result@[qhead - 1]));
                assert(result@[qhead - 1]@ == m[k as int].name);
                assert(done1 =~~= done0.push(m[k as int].name));
                assert forall|p: int| 0 <= p < qhead - 1 implies done0[p] == m[
                    #[trigger] queue@[p] as int
                ].name by {
                    assert(old_result_v[p]@ == m[queue@[p] as int].name);
                }
                assert forall|p: int, d: Seq<char>|
                    0 <= p < qhead - 1 && #[trigger] entry_deps(m, queue@[p] as int).contains(
                        d,
                    ) implies exists|q: int| 0 <= q < p && done0[q] == d by {
                    let q = choose|q: int| 0 <= q < p && old_result_v[q]@ == d;
                    assert(done0[q] == d);
                }
                assert forall|p: int, d: Seq<char>|
                    0 <= p < qhead && #[trigger] entry_deps(m, queue@[p] as int).contains(
                        d,
                    ) implies exists|q: int| 0 <= q < p && result@[q]@ == d by {
                    if p == qhead - 1 {
                        assert(done0.contains(d));
                        let q = choose|q: int| 0 <= q < done0.len() && done0[q] == d;
                        assert(result@[q] == old_result_v[q]);
                        assert(result@[q]@ == d);
                    } else {
                        let q = choose|q: int| 0 <= q < p && old_result_v[q]@ == d;
                        assert(result@[q] == old_result_v[q]);
                        assert(result@[q]@ == d);
                    }
                }
            }
            let name_ref = &self.entries[k].name;
            decrement_dependents(
                &deps,
                name_ref,
                &mut queue,
                &mut in_degree,
                qhead,
                Ghost(m),
                Ghost(k as int),
                Ghost(done0),
            );
            proof {
                assert(done0.push(m[k as int].name) =~~= view_string_seq(result@));
            }
        }

        // Anything the sort did not reach lies on a cycle; append it in
        // registration order rather than dropping it. On an acyclic graph
        // the descent argument shows the sort reached everything, so
        // nothing is appended and the order above stands.
        proof {
            if acyclic(m) && qhead < n {
                let rank = choose|rank: Map<Seq<char>, nat>| rank_ok(m, rank);
                let done = view_string_seq(result@);
                let qints = Seq::new(qhead as nat, |p: int| queue@[p] as int);
                assert forall|p: int, q: int|
                    0 <= p < q < qints.len() implies qints[p] != qints[q] by {
                    assert(queue@[p] != queue@[q]);
                }
                lemma_distinct_missing(qints, n as int);
                let i0 = choose|i0: int| 0 <= i0 < n && !qints.contains(i0);
                assert(!popped(queue@, qhead as int, i0)) by {
                    if popped(queue@, qhead as int, i0) {
                        let p = choose|p: int| 0 <= p < qhead && queue@[p] == i0;
                        assert(qints[p] == i0);
                        assert(false);
                    }
                }
                assert forall|j: int|
                    0 <= j < m.len() && !done.contains(m[j].name) implies missing_count(
                    #[trigger] entry_deps(m, j),
                    done,
                ) > 0 by {
                    if popped(queue@, qhead as int, j) {
                        let p = choose|p: int| 0 <= p < qhead && queue@[p] == j;
                        assert(result@[p]@ == m[j].name);
                        assert(done[p] == m[j].name);
                        assert(false);
                    } else {
                        if queue@.contains(j as usize) {
                            let p = choose|p: int|
                                0 <= p < queue@.len() && queue@[p] == j as usize;
                            assert(popped(queue@, qhead as int, j));
                            assert(false);
                        }
                        assert(in_degree@[j] > 0);
                    }
                }
                assert(!done.contains(m[i0].name)) by {
                    if done.contains(m[i0].name) {
                        let q = choose|q: int| 0 <= q < done.len() && done[q] == m[i0].name;
                        assert(result@[q]@ == m[queue@[q] as int].name);
                        assert(qints[q] == queue@[q] as int);
                        assert(m[queue@[q] as int].name == m[i0].name);
                        assert(queue@[q] as int == i0);
                        assert(false);
                    }
                }
                lemma_descent(m, rank, done, i0);
                assert(false);
            }
        }
        let ghost result0 = result@;
        let ghost complete0 = (qhead == n);
        proof {
            if complete0 {
                assert forall|j: int| 0 <= j < n implies #[trigger] name_listed(
                    result0,
                    m[j].name,
                ) by {
                    let qints = Seq::new(qhead as nat, |p: int| queue@[p] as int);
                    assert forall|p: int, q: int|
                        0 <= p < q < qints.len() implies qints[p] != qints[q] by {
                        assert(queue@[p] != queue@[q]);
                    }
                    lemma_distinct_full(qints, n as int, j);
                    let p = choose|p: int| 0 <= p < qints.len() && qints[p] == j;
                    assert(result0[p]@ == m[queue@[p] as int].name);
                    assert(result0[p]@ == m[j].name);
                }
            }
        }
        proof {
            assert forall|p: int, q: int|
                0 <= p < q < result@.len() implies result@[p]@ != result@[q]@ by {
                assert(result@[p]@ == m[queue@[p] as int].name);
                assert(result@[q]@ == m[queue@[q] as int].name);
                assert(queue@[p] != queue@[q]);
            }
            assert forall|p: int| 0 <= p < result@.len() implies has_name(
                m,
                #[trigger] result@[p]@,
            ) by {
                assert(result@[p]@ == m[queue@[p] as int].name);
            }
        }
        let mut idx: usize = 0;
        while idx < n
            invariant
                idx <= n,
                forall|p: int, q: int| 0 <= p < q < result@.len() ==> result@[p]@ != result@[q]@,
                forall|p: int| 0 <= p < result@.len() ==> has_name(m, #[trigger] result@[p]@),
                forall|j: int| 0 <= j < idx ==> #[trigger] name_listed(result@, m[j].name),
                result0.len() <= result@.len(),
                forall|p: int| 0 <= p < result0.len() ==> result@[p] == result0[p],
                complete0 ==> result@ == result0,
            decreases n - idx,
        {
            let ghost old_result = result@;
            if !vec_contains_str(&result, self.entries[idx].name.as_str()) {
                proof {
                    if complete0 {
                        assert(name_listed(result0, m[idx as int].name));
                        let p = choose|p: int|
                            0 <= p < result0.len() && result0[p]@ == m[idx as int].name;
                        assert(view_string_seq(result@)[p] == m[idx as int].name);
                        assert(false);
                    }
                }
                result.push(self.entries[idx].name.clone());
                proof {
                    assert(result@[result@.len() - 1]@ == m[idx as int].name);
                    assert(has_name(m, m[idx as int].name));
                    assert forall|p: int, q: int|
                        0 <= p < q < result@.len() implies result@[p]@ != result@[q]@ by {
                        if q == result@.len() - 1 {
                            assert(result@[p] == old_result[p]);
                            assert(view_string_seq(old_result)[p] == old_result[p]@);
                        }
                    }
                }
            } else {
                proof {
                    let p = choose|p: int|
                        0 <= p < view_string_seq(result@).len() && view_string_seq(result@)[p]
                            == m[idx as int].name;
                    assert(result@[p]@ == m[idx as int].name);
                    assert(name_listed(result@, m[idx as int].name));
                }
            }
            proof {
                assert forall|j: int| 0 <= j < idx + 1 implies #[trigger] name_listed(
                    result@,
                    m[j].name,
                ) by {
                    if j < idx {
                        assert(name_listed(old_result, m[j].name));
                        let p = choose|p: int|
                            0 <= p < old_result.len() && old_result[p]@ == m[j].name;
                        assert(result@[p]@ == m[j].name);
                    }
                }
            }
            idx = idx + 1;
        }
        proof {
            // The output names and the registered names are the same set of
            // distinct names, so the lengths agree.
            let rs = view_string_seq(result@);
            let ns = reg_names(m);
            assert forall|p: int, q: int| 0 <= p < q < rs.len() implies rs[p] != rs[q] by {
                assert(result@[p]@ != result@[q]@);
            }
            assert forall|p: int, q: int| 0 <= p < q < ns.len() implies ns[p] != ns[q] by {
                assert(m[p].name != m[q].name);
            }
            rs.unique_seq_to_set();
            ns.unique_seq_to_set();
            broadcast use vstd::seq_lib::seq_to_set_is_finite;

            assert forall|a: Seq<char>| rs.to_set().contains(a) implies ns.to_set().contains(
                a,
            ) by {
                assert(rs.contains(a));
                let p = choose|p: int| 0 <= p < rs.len() && rs[p] == a;
                assert(has_name(m, result@[p]@));
                let j = choose|j: int| 0 <= j < m.len() && m[j].name == a;
                assert(ns[j] == a);
            }
            assert forall|a: Seq<char>| ns.to_set().contains(a) implies rs.to_set().contains(
                a,
            ) by {
                assert(ns.contains(a));
                let j = choose|j: int| 0 <= j < ns.len() && ns[j] == a;
                assert(m[j].name == a);
                assert(name_listed(result@, m[j].name));
                let p = choose|p: int| 0 <= p < result@.len() && result@[p]@ == m[j].name;
                assert(rs[p] == a);
            }
            assert(rs.to_set() =~= ns.to_set());
            assert(result@.len() == m.len());
            if acyclic(m) {
                assert(result@ == result0);
                assert forall|p: int, d: Seq<char>|
                    0 <= p < view_string_seq(result@).len() && #[trigger] entry_deps(
                        m,
                        index_of(m, view_string_seq(result@)[p]),
                    ).contains(d) implies exists|q: int|
                    0 <= q < p && view_string_seq(result@)[q] == d by {
                    let kk = queue@[p] as int;
                    assert(result@[p]@ == m[kk].name);
                    let i0 = index_of(m, view_string_seq(result@)[p]);
                    assert(has_name(m, m[kk].name));
                    assert(0 <= i0 < m.len() && m[i0].name == result@[p]@);
                    assert(i0 == kk);
                    assert(entry_deps(m, kk).contains(d));
                    let q = choose|q: int| 0 <= q < p && result@[q]@ == d;
                    assert(view_string_seq(result@)[q] == d);
                }
            }
        }
        result
    }
}


/// The initial in-degrees: with nothing in the output yet, every
/// dependency of an entry is missing.
#[verifier::loop_isolation(false)]
fn init_degrees(deps: &Vec<Vec<String>>, Ghost(m): Ghost<Seq<EntryV>>) -> (r: Vec<usize>)
    requires
        deps@.len() == m.len(),
        forall|j: int|
            0 <= j < m.len() ==> view_string_seq(#[trigger] deps@[j]@) == entry_deps(m, j),
    ensures
        r@.len() == m.len(),
        forall|j: int|
            0 <= j < m.len() ==> #[trigger] r@[j] == missing_count(
                entry_deps(m, j),
                Seq::empty(),
            ),
{
    let n = deps.len();
    let mut r: Vec<usize> = Vec::new();
    let mut i: usize = 0;
    while i < n
        invariant
            i <= n,
            r@.len() == i,
            forall|j: int|
                0 <= j < i ==> #[trigger] r@[j] == missing_count(entry_deps(m, j), Seq::empty()),
        decreases n - i,
    {
        proof {
            lemma_missing_empty(entry_deps(m, i as int));
        }
        let d = deps[i].len();
        r.push(d);
        i = i + 1;
    }
    r
}

/// The entries with no missing dependencies, in registration order.
#[verifier::loop_isolation(false)]
fn seed_queue(in_degree: &Vec<usize>) -> (queue: Vec<usize>)
    ensures
        forall|p: int| 0 <= p < queue@.len() ==> 0 <= #[trigger] queue@[p] < in_degree@.len(),
        forall|p: int, q: int| 0 <= p < q < queue@.len() ==> queue@[p] != queue@[q],
        forall|p: int| 0 <= p < queue@.len() ==> in_degree@[#[trigger] queue@[p] as int] == 0,
        forall|j: int|
            0 <= j < in_degree@.len() && !queue@.contains(j as usize) ==> #[trigger] in_degree@[j]
                > 0,
        queue@.len() <= in_degree@.len(),
{
    let n = in_degree.len();
    let mut queue: Vec<usize> = Vec::new();
    let mut i: usize = 0;
    while i < n
        invariant
            i <= n,
            forall|p: int| 0 <= p < queue@.len() ==> 0 <= #[trigger] queue@[p] < i,
            forall|p: int, q: int| 0 <= p < q < queue@.len() ==> queue@[p] != queue@[q],
            forall|p: int| 0 <= p < queue@.len() ==> in_degree@[#[trigger] queue@[p] as int] == 0,
            forall|j: int|
                0 <= j < i && !queue@.contains(j as usize) ==> #[trigger] in_degree@[j] > 0,
        decreases n - i,
    {
        let ghost q_before = queue@;
        let deg_zero = in_degree[i] == 0;
        if deg_zero {
            queue.push(i);
        }
        proof {
            if deg_zero {
                assert(queue@[q_before.len() as int] == i);
            }
            assert forall|j: int|
                0 <= j < i + 1 && !queue@.contains(j as usize) implies #[trigger] in_degree@[j]
                > 0 by {
                if j == i {
                    assert(!deg_zero);
                } else {
                    if q_before.contains(j as usize) {
                        let p = choose|p: int|
                            0 <= p < q_before.len() && q_before[p] == j as usize;
                        assert(queue@[p] == j as usize);
                    }
                }
            }
        }
        i = i + 1;
    }
    proof {
        let qints = Seq::new(queue@.len(), |p: int| queue@[p] as int);
        assert forall|p: int, q: int| 0 <= p < q < qints.len() implies qints[p] != qints[q] by {
            assert(queue@[p] != queue@[q]);
        }
        lemma_distinct_bounded(qints, n as int);
    }
    queue
}

/// One Kahn step after entry `k` has been moved to the output: every entry
/// whose dependencies include the popped name has one fewer missing
/// dependency, and an entry thereby completed joins the queue. Entries are
/// scanned in registration order, keeping the output deterministic.
#[verifier::loop_isolation(false)]
#[verifier::rlimit(60)]
fn decrement_dependents(
    deps: &Vec<Vec<String>>,
    name_k: &String,
    queue: &mut Vec<usize>,
    in_degree: &mut Vec<usize>,
    qhead: usize,
    Ghost(m): Ghost<Seq<EntryV>>,
    Ghost(k): Ghost<int>,
    Ghost(done0): Ghost<Seq<Seq<char>>>,
)
    requires
        wf_model(m),
        deps@.len() == m.len(),
        forall|j: int|
            0 <= j < m.len() ==> view_string_seq(#[trigger] deps@[j]@) == entry_deps(m, j),
        old(in_degree)@.len() == m.len(),
        1 <= qhead <= old(queue)@.len(),
        old(queue)@.len() <= m.len(),
        forall|p: int| 0 <= p < old(queue)@.len() ==> 0 <= #[trigger] old(queue)@[p] < m.len(),
        forall|p: int, q: int|
            0 <= p < q < old(queue)@.len() ==> old(queue)@[p] != old(queue)@[q],
        0 <= k < m.len(),
        old(queue)@[qhead - 1] as int == k,
        name_k@ == m[k].name,
        done0.len() == qhead - 1,
        !done0.contains(m[k].name),
        missing_count(entry_deps(m, k), done0) == 0,
        forall|p: int| 0 <= p < qhead - 1 ==> done0[p] == m[#[trigger] old(queue)@[p] as int].name,
        forall|p: int, d: Seq<char>|
            0 <= p < qhead - 1 && #[trigger] entry_deps(m, old(queue)@[p] as int).contains(d)
                ==> exists|q: int| 0 <= q < p && done0[q] == d,
        forall|j: int|
            0 <= j < m.len() && !popped(old(queue)@, qhead as int, j) ==> #[trigger] old(in_degree)@[j] == missing_count(entry_deps(m, j), done0),
        forall|p: int|
            qhead <= p < old(queue)@.len() ==> old(in_degree)@[#[trigger] old(queue)@[p] as int] == 0,
        forall|j: int|
            0 <= j < m.len() && !old(queue)@.contains(j as usize) ==> #[trigger] old(in_degree)@[j] > 0,
    ensures
        final(in_degree)@.len() == m.len(),
        final(queue)@.len() >= old(queue)@.len(),
        final(queue)@.len() <= m.len(),
        forall|p: int| 0 <= p < old(queue)@.len() ==> final(queue)@[p] == old(queue)@[p],
        forall|p: int| 0 <= p < final(queue)@.len() ==> 0 <= #[trigger] final(queue)@[p] < m.len(),
        forall|p: int, q: int|
            0 <= p < q < final(queue)@.len() ==> final(queue)@[p] != final(queue)@[q],
        forall|j: int|
            0 <= j < m.len() && !popped(final(queue)@, qhead as int, j) ==> #[trigger] final(in_degree)@[j] == missing_count(entry_deps(m, j), done0.push(m[k].name)),
        forall|p: int|
            qhead <= p < final(queue)@.len() ==> final(in_degree)@[#[trigger] final(queue)@[p] as int] == 0,
        forall|j: int|
            0 <= j < m.len() && !final(queue)@.contains(j as usize) ==> #[trigger] final(in_degree)@[j] > 0,
{
    let n = in_degree.len();
    let ghost done1 = done0.push(m[k].name);
    proof {
        assert forall|j: int|
            0 <= j < m.len() && !popped(queue@, qhead as int, j) && !entry_deps(m, j).contains(
                m[k].name,
            ) implies in_degree@[j] == missing_count(entry_deps(m, j), done1) by {
            lemma_missing_push_notin(entry_deps(m, j), done0, m[k].name);
        }
    }
    let mut i2: usize = 0;
    while i2 < n
        invariant
            i2 <= n,
            n == m.len(),
            in_degree@.len() == n,
            qhead <= queue@.len(),
            queue@.len() <= n,
            forall|p: int| 0 <= p < old(queue)@.len() ==> queue@[p] == old(queue)@[p],
            queue@.len() >= old(queue)@.len(),
            forall|p: int| 0 <= p < queue@.len() ==> 0 <= #[trigger] queue@[p] < n,
            forall|p: int, q: int| 0 <= p < q < queue@.len() ==> queue@[p] != queue@[q],
            forall|j: int|
                0 <= j < n && !popped(queue@, qhead as int, j) && (j < i2 || !entry_deps(
                    m,
                    j,
                ).contains(m[k].name)) ==> #[trigger] in_degree@[j] == missing_count(
                    entry_deps(m, j),
                    done1,
                ),
            forall|j: int|
                0 <= j < n && !popped(queue@, qhead as int, j) && !(j < i2 || !entry_deps(
                    m,
                    j,
                ).contains(m[k].name)) ==> #[trigger] in_degree@[j] == missing_count(
                    entry_deps(m, j),
                    done0,
                ),
            forall|p: int|
                qhead <= p < queue@.len() ==> in_degree@[#[trigger] queue@[p] as int] == 0,
            forall|j: int|
                0 <= j < n && !queue@.contains(j as usize) ==> #[trigger] in_degree@[j] > 0,
        decreases n - i2,
    {
        proof {
            lemma_dedup_props(m, raw_deps(m[i2 as int]));
            if !entry_deps(m, i2 as int).contains(m[k].name) {
                lemma_missing_push_notin(entry_deps(m, i2 as int), done0, m[k].name);
            }
        }
        if vec_contains_str(&deps[i2], name_k.as_str()) {
            proof {
                // An entry already in the output cannot still depend on the
                // popped name: its own dependency on it would have had to be
                // satisfied even earlier, and names are distinct.
                if popped(queue@, qhead as int, i2 as int) {
                    let p = choose|p: int| 0 <= p < qhead && queue@[p] == i2;
                    assert(queue@[p] == old(queue)@[p]);
                    if p == qhead - 1 {
                        assert(i2 as int == k);
                        assert(entry_deps(m, k).contains(m[k].name));
                        lemma_missing_pos(entry_deps(m, k), done0, m[k].name);
                        assert(false);
                    } else {
                        assert(entry_deps(m, old(queue)@[p] as int).contains(m[k].name));
                        let q = choose|q: int| 0 <= q < p && done0[q] == m[k].name;
                        assert(done0.contains(m[k].name));
                        assert(false);
                    }
                }
                assert(in_degree@[i2 as int] == missing_count(entry_deps(m, i2 as int), done0));
                lemma_missing_pos(entry_deps(m, i2 as int), done0, m[k].name);
                lemma_missing_push_in(entry_deps(m, i2 as int), done0, m[k].name);
                // Nor can it be waiting in the queue: queued entries have no
                // missing dependencies at all.
                if queue@.contains(i2 as usize) {
                    let p = choose|p: int| 0 <= p < queue@.len() && queue@[p] == i2 as usize;
                    if p < qhead {
                        assert(popped(queue@, qhead as int, i2 as int));
                    } else {
                        assert(in_degree@[i2 as int] == 0);
                    }
                    assert(false);
                }
            }
            let d0 = in_degree[i2];
            vstd::pervasive::VecAdditionalExecFns::set(in_degree, i2, d0 - 1);
            if d0 == 1 {
                let ghost q_before = queue@;
                queue.push(i2);
                proof {
                    assert(queue@[q_before.len() as int] == i2);
                    assert(queue@.contains(i2 as usize));
                    let qints = Seq::new(queue@.len(), |p: int| queue@[p] as int);
                    assert forall|p: int, q: int|
                        0 <= p < q < qints.len() implies qints[p] != qints[q] by {
                        assert(queue@[p] != queue@[q]);
                    }
                    lemma_distinct_bounded(qints, n as int);
                    assert forall|j: int|
                        0 <= j < n && !queue@.contains(j as usize) implies !#[trigger] q_before
                        .contains(j as usize) by {
                        if q_before.contains(j as usize) {
                            let p = choose|p: int|
                                0 <= p < q_before.len() && q_before[p] == j as usize;
                            assert(queue@[p] == j as usize);
                        }
                    }
                    assert forall|j: int|
                        #[trigger] popped(queue@, qhead as int, j) implies popped(
                        q_before,
                        qhead as int,
                        j,
                    ) by {
                        if popped(queue@, qhead as int, j) {
                            let p = choose|p: int| 0 <= p < qhead && queue@[p] == j;
                            assert(q_before[p] == j);
                        }
                    }
                    assert forall|j: int|
                        #[trigger] popped(q_before, qhead as int, j) implies popped(
                        queue@,
                        qhead as int,
                        j,
                    ) by {
                        if popped(q_before, qhead as int, j) {
                            let p = choose|p: int| 0 <= p < qhead && q_before[p] == j;
                            assert(queue@[p] == j);
                        }
                    }
                }
            }
        }
        i2 = i2 + 1;
    }
}


/// A valid output order for the registry: each registered name once, and,
/// on an acyclic graph, dependencies first.
pub open spec fn sorted_names_ok(m: Seq<EntryV>, ns: Seq<Seq<char>>) -> bool {
    &&& ns.len() == m.len()
    &&& forall|p: int, q: int| 0 <= p < q < ns.len() ==> ns[p] != ns[q]
    &&& forall|p: int| 0 <= p < ns.len() ==> has_name(m, ns[p])
    &&& (acyclic(m) ==> dep_ordered(m, ns))
}

/// The declaration of each listed name, in order.
pub open spec fn decl_seq(m: Seq<EntryV>, ns: Seq<Seq<char>>) -> Seq<Seq<char>> {
    Seq::new(ns.len(), |p: int| declaration_chars(m[index_of(m, ns[p])].def))
}

/// The declaration of each listed name with an `export` keyword, in order.
pub open spec fn export_decl_seq(m: Seq<EntryV>, ns: Seq<Seq<char>>) -> Seq<Seq<char>> {
    Seq::new(
        ns.len(),
        |p: int| "export "@ + declaration_chars(m[index_of(m, ns[p])].def),
    )
}

/// The full rendered output: a fixed header, then the declarations in the
/// given order separated by blank lines, ending in a single newline.
pub open spec fn render_all_chars(m: Seq<EntryV>, ns: Seq<Seq<char>>, exported: bool) -> Seq<
    char,
> {
    if ns.len() == 0 {
        "// Generated by ferrotype\n// Do not edit manually\n"@
    } else {
        "// Generated by ferrotype\n// Do not edit manually\n\n"@ + crate::render::joined(
            if exported {
                export_decl_seq(m, ns)
            } else {
                decl_seq(m, ns)
            },
            "\n\n"@,
        ) + "\n"@
    }
}

impl TypeRegistry {
    /// Renders every registered declaration, dependency-ordered, under a
    /// fixed header; with `export` prefixes when `exported` holds.
    #[verifier::loop_isolation(false)]
    fn render_with(&self, exported: bool) -> (r: String)
        requires
            self.wf(),
        ensures
            exists|ns: Seq<Seq<char>>|
                #[trigger] sorted_names_ok(self@, ns) && r@ == render_all_chars(
                    self@,
                    ns,
                    exported,
                ),
    {
        let ghost m = self@;
        let sorted = self.sorted_types();
        let ghost ns = view_string_seq(sorted@);
        proof {
            assert(sorted_names_ok(m, ns));
        }
        let mut out = String::new();
        if sorted.len() == 0 {
            out.append("// Generated by ferrotype\n// Do not edit manually\n");
            proof {
                assert(out@ =~= render_all_chars(m, ns, exported));
            }
            return out;
        }
        out.append("// Generated by ferrotype\n// Do not edit manually\n\n");
        let ghost parts = if exported {
            export_decl_seq(m, ns)
        } else {
            decl_seq(m, ns)
        };
        let ghost header = out@;
        let mut i: usize = 0;
        while i < sorted.len()
            invariant
                i <= sorted@.len(),
                out@ == header + crate::render::joined(parts.take(i as int), "\n\n"@),
            decreases sorted@.len() - i,
        {
            if i > 0 {
                out.append("\n\n");
            }
            if exported {
                out.append("export ");
            }
            let td = self.get(sorted[i].as_str());
            match td {
                Option::Some(td) => {
                    let ghost ix = index_of(m, ns[i as int]);
                    proof {
                        let j = choose|j: int|
                            0 <= j < m.len() && m[j].name == sorted@[i as int]@ && td@ == m[j].def;
                        assert(0 <= ix < m.len() && m[ix].name == ns[i as int]);
                        assert(j == ix);
                    }
                    let decl = td.render_declaration();
                    out.append(decl.as_str());
                }
                Option::None => {
                    proof {
                        assert(has_name(m, ns[i as int]));
                        assert(false);
                    }
                }
            }
            proof {
                assert(parts.take(i + 1).drop_last() =~= parts.take(i as int));
                assert(out@ =~= header + crate::render::joined(parts.take(i + 1), "\n\n"@));
            }
            i = i + 1;
        }
        out.append("\n");
        proof {
            assert(parts.take(parts.len() as int) =~= parts);
            assert(out@ =~= render_all_chars(m, ns, exported));
        }
        out
    }

    /// Renders all registered types to TypeScript declarations, in
    /// dependency order under a fixed header.
    pub fn render(&self) -> (r: String)
        requires
            self.wf(),
        ensures
            exists|ns: Seq<Seq<char>>|
                #[trigger] sorted_names_ok(self@, ns) && r@ == render_all_chars(self@, ns, false),
    {
        self.render_with(false)
    }

    /// Renders all registered types with `export` keywords.
    pub fn render_exported(&self) -> (r: String)
        requires
            self.wf(),
        ensures
            exists|ns: Seq<Seq<char>>|
                #[trigger] sorted_names_ok(self@, ns) && r@ == render_all_chars(self@, ns, true),
    {
        self.render_with(true)
    }
}


/// The host-module key of an entry: its `Named` node's module, or
/// `default` where none is recorded.
pub open spec fn module_key(e: EntryV) -> Seq<char> {
    match e.def {
        TypeDefV::Named { module: Option::Some(mm), .. } => mm,
        _ => "default"@,
    }
}

impl TypeRegistry {
    /// The host-module key of the entry at `i`.
    pub fn module_key_at(&self, i: usize) -> (r: String)
        requires
            i < self@.len(),
        ensures
            r@ == module_key(self@[i as int]),
    {
        match &self.entries[i].def {
            TypeDef::Named { module: Option::Some(mm), .. } => mm.clone(),
            _ => "default".to_owned(),
        }
    }

    /// The name of the entry at `i`.
    pub fn name_at(&self, i: usize) -> (r: String)
        requires
            i < self@.len(),
        ensures
            r@ == self@[i as int].name,
    {
        self.entries[i].name.clone()
    }
}

/// Whether some element of `rs` views to `nm`.
pub open spec fn name_listed(rs: Seq<String>, nm: Seq<char>) -> bool {
    exists|p: int| 0 <= p < rs.len() && rs[p]@ == nm
}

/// Whether `i` is among the first `h` elements of `qs`.
pub open spec fn popped(qs: Seq<usize>, h: int, i: int) -> bool {
    exists|p: int| 0 <= p < h && qs[p] == i
}

/// A sequence of `n` distinct indices into `[0, n)` contains each of them.
proof fn lemma_distinct_full(s: Seq<int>, n: int, j: int)
    requires
        n >= 0,
        s.no_duplicates(),
        forall|p: int| 0 <= p < s.len() ==> 0 <= #[trigger] s[p] < n,
        s.len() == n,
        0 <= j < n,
    ensures
        s.contains(j),
{
    broadcast use vstd::seq_lib::seq_to_set_is_finite;

    if !s.contains(j) {
        s.unique_seq_to_set();
        vstd::set_lib::lemma_int_range(0, n);
        assert forall|a: int| s.to_set().contains(a) implies vstd::set_lib::set_int_range(
            0,
            n,
        ).contains(a) by {
            assert(s.contains(a));
        }
        assert(!s.to_set().contains(j));
        assert(s.to_set().subset_of(vstd::set_lib::set_int_range(0, n).remove(j)));
        vstd::set_lib::lemma_len_subset(
            vstd::set_lib::set_int_range(0, n).remove(j),
            vstd::set_lib::set_int_range(0, n),
        );
        vstd::set_lib::lemma_len_subset(
            s.to_set(),
            vstd::set_lib::set_int_range(0, n).remove(j),
        );
        assert(vstd::set_lib::set_int_range(0, n).remove(j).len() == n - 1);
        assert(false);
    }
}


impl TypeScript for bool {
    open spec fn typescript_spec() -> TypeDefV {
        TypeDefV::Primitive(crate::ir::Primitive::Boolean)
    }

    fn typescript() -> (r: TypeDef) {
        TypeDef::Primitive(crate::ir::Primitive::Boolean)
    }
}

impl TypeScript for String {
    open spec fn typescript_spec() -> TypeDefV {
        TypeDefV::Primitive(crate::ir::Primitive::String)
    }

    fn typescript() -> (r: TypeDef) {
        TypeDef::Primitive(crate::ir::Primitive::String)
    }
}

impl TypeScript for i32 {
    open spec fn typescript_spec() -> TypeDefV {
        TypeDefV::Primitive(crate::ir::Primitive::Number)
    }

    fn typescript() -> (r: TypeDef) {
        TypeDef::Primitive(crate::ir::Primitive::Number)
    }
}

impl TypeScript for i64 {
    open spec fn typescript_spec() -> TypeDefV {
        TypeDefV::Primitive(crate::ir::Primitive::Number)
    }

    fn typescript() -> (r: TypeDef) {
        TypeDef::Primitive(crate::ir::Primitive::Number)
    }
}

impl TypeScript for u32 {
    open spec fn typescript_spec() -> TypeDefV {
        TypeDefV::Primitive(crate::ir::Primitive::Number)
    }

    fn typescript() -> (r: TypeDef) {
        TypeDef::Primitive(crate::ir::Primitive::Number)
    }
}

impl TypeScript for u64 {
    open spec fn typescript_spec() -> TypeDefV {
        TypeDefV::Primitive(crate::ir::Primitive::Number)
    }

    fn typescript() -> (r: TypeDef) {
        TypeDef::Primitive(crate::ir::Primitive::Number)
    }
}

impl<T: TypeScript> TypeScript for Option<T> {
    /// An optional value maps to a union with null.
    open spec fn typescript_spec() -> TypeDefV {
        TypeDefV::Union(
            seq![T::typescript_spec(), TypeDefV::Primitive(crate::ir::Primitive::Null)],
        )
    }

    fn typescript() -> (r: TypeDef) {
        let mut parts: Vec<TypeDef> = Vec::new();
        parts.push(T::typescript());
        parts.push(TypeDef::Primitive(crate::ir::Primitive::Null));
        proof {
            lemma_view_typedef_seq(parts@);
            assert(view_typedef_seq(parts@) =~= seq![
                T::typescript_spec(),
                crate::ir::TypeDefV::Primitive(crate::ir::Primitive::Null),
            ]);
        }
        TypeDef::Union(parts)
    }
}

impl<T: TypeScript> TypeScript for Vec<T> {
    /// A vector maps to an array of its element type.
    open spec fn typescript_spec() -> TypeDefV {
        TypeDefV::Array(Box::new(T::typescript_spec()))
    }

    fn typescript() -> (r: TypeDef) {
        let inner = T::typescript();
        let r = TypeDef::Array(Box::new(inner));
        proof {
            match &r {
                TypeDef::Array(bx) => {
                    assert(view_typedef(**bx) == T::typescript_spec());
                    assert(r@ == TypeDefV::Array(Box::new(view_typedef(**bx))));
                }
                _ => {}
            }
        }
        r
    }
}

} // verus!
