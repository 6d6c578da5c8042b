//! Output assembly: configuration for TypeScript file generation, and a
//! generator that renders a registry under an export style, optionally
//! partitioned by host module.

use vstd::prelude::*;
use vstd::string::StrSliceExecFns;
use vstd::string::StringExecFns;

use crate::ir::{view_string_seq, TypeDef};
use crate::registry::{
    has_name, index_of, module_key, render_all_chars, sorted_names_ok, vec_contains_str, EntryV,
    TypeRegistry, TypeScript,
};
use crate::render::declaration_chars;
use crate::render::joined;

verus! {

/// The Prettify utility type: flattens intersections for readability.
pub const PRETTIFY_TYPE: &'static str = "type Prettify<T> = { [K in keyof T]: T[K] } & {};";

/// The exported form of the Prettify utility type.
pub const PRETTIFY_TYPE_EXPORTED: &'static str =
    "export type Prettify<T> = { [K in keyof T]: T[K] } & {};";

/// How declarations are exported in the generated output.
#[derive(Debug, Clone, Copy, PartialEq, Eq, Structural)]
pub enum ExportStyle {
    /// No export keyword: `type Foo = ...`.
    Plain,
    /// Named exports: `export type Foo = ...` (the default).
    Named,
    /// One grouped export statement at the end: `export { Foo, Bar };`.
    Grouped,
}

impl Default for ExportStyle {
    /// Named exports.
    fn default() -> (r: Self)
        ensures
            r == ExportStyle::Named,
    {
        ExportStyle::Named
    }
}

/// Configuration for TypeScript generation.
#[derive(Debug)]
pub struct Config {
    /// Output file path, for the caller that writes files.
    pub output: Option<String>,
    /// Export style for generated declarations.
    pub export_style: ExportStyle,
    /// Whether a declarations-only file is intended.
    pub declaration_only: bool,
    /// A custom header comment to put first.
    pub header: Option<String>,
    /// Whether ESM-style `.js` extensions are intended on imports.
    pub esm_extensions: bool,
    /// Whether to include the utility type helpers in the output.
    pub include_utilities: bool,
}

impl Default for Config {
    /// No output path or header, named exports, nothing else set.
    fn default() -> (r: Self)
        ensures
            r.output is None,
            r.export_style == ExportStyle::Named,
            !r.declaration_only,
            r.header is None,
            !r.esm_extensions,
            !r.include_utilities,
    {
        Config {
            output: Option::None,
            export_style: ExportStyle::Named,
            declaration_only: false,
            header: Option::None,
            esm_extensions: false,
            include_utilities: false,
        }
    }
}

impl Config {
    /// Creates a new config with defaults.
    pub fn new() -> (r: Self)
        ensures
            r.output is None,
            r.export_style == ExportStyle::Named,
            !r.declaration_only,
            r.header is None,
            !r.esm_extensions,
            !r.include_utilities,
    {
        Config::default()
    }

    /// Sets the output file path.
    pub fn output(self, path: &str) -> (r: Self)
        ensures
            r == (Config { output: Option::Some(r.output->Some_0), ..self }),
            r.output->Some_0@ == path@,
    {
        Config { output: Option::Some(path.to_owned()), ..self }
    }

    /// Sets the export style.
    pub fn export_style(self, style: ExportStyle) -> (r: Self)
        ensures
            r == (Config { export_style: style, ..self }),
    {
        Config { export_style: style, ..self }
    }

    /// Marks the output as a declarations-only file.
    pub fn declaration_only(self) -> (r: Self)
        ensures
            r == (Config { declaration_only: true, ..self }),
    {
        Config { declaration_only: true, ..self }
    }

    /// Sets a custom header comment.
    pub fn header(self, header: &str) -> (r: Self)
        ensures
            r == (Config { header: Option::Some(r.header->Some_0), ..self }),
            r.header->Some_0@ == header@,
    {
        Config { header: Option::Some(header.to_owned()), ..self }
    }

    /// Enables ESM-style `.js` extensions on imports.
    pub fn esm_extensions(self) -> (r: Self)
        ensures
            r == (Config { esm_extensions: true, ..self }),
    {
        Config { esm_extensions: true, ..self }
    }

    /// Includes the utility type helpers in the output.
    pub fn include_utilities(self) -> (r: Self)
        ensures
            r == (Config { include_utilities: true, ..self }),
    {
        Config { include_utilities: true, ..self }
    }
}

/// The header lines of a generated file: the custom header as a comment,
/// or a fixed two-line banner.
pub open spec fn gen_header_chars(header: Option<Seq<char>>) -> Seq<char> {
    match header {
        Option::Some(h) => "// "@ + h + "\n"@,
        Option::None => "// Generated by ferro-type-gen\n// Do not edit manually\n"@,
    }
}

/// The utility-types block, when asked for.
pub open spec fn utilities_chars(style: ExportStyle, with_utils: bool) -> Seq<char> {
    if !with_utils {
        Seq::empty()
    } else if style == ExportStyle::Plain {
        PRETTIFY_TYPE@ + "\n\n"@
    } else {
        PRETTIFY_TYPE_EXPORTED@ + "\n\n"@
    }
}

/// The grouped export statement over the sorted names, when any exist.
pub open spec fn grouped_tail_chars(ns: Seq<Seq<char>>) -> Seq<char> {
    if ns.len() == 0 {
        Seq::empty()
    } else {
        "\nexport { "@ + joined(ns, ", "@) + " };\n"@
    }
}

/// The view of a config header.
pub open spec fn header_view(c: Config) -> Option<Seq<char>> {
    match c.header {
        Option::Some(h) => Option::Some(h@),
        Option::None => Option::None,
    }
}

/// A TypeScript output generator: a configuration and a registry.
#[derive(Debug)]
pub struct Generator {
    config: Config,
    registry: TypeRegistry,
}

impl Generator {
    /// The generator's registry model.
    pub closed spec fn model(&self) -> Seq<EntryV> {
        self.registry@
    }

    /// The generator's configuration.
    pub closed spec fn config_spec(&self) -> Config {
        self.config
    }

    /// Registered names are unique.
    pub closed spec fn wf(&self) -> bool {
        self.registry.wf()
    }

    /// Creates a new generator with the given config.
    pub fn new(config: Config) -> (r: Self)
        ensures
            r.model() =~= Seq::<EntryV>::empty(),
            r.config_spec() == config,
            r.wf(),
    {
        Generator { config, registry: TypeRegistry::new() }
    }

    /// Creates a new generator with the default config.
    pub fn with_defaults() -> (r: Self)
        ensures
            r.model() =~= Seq::<EntryV>::empty(),
            r.wf(),
            r.config_spec().header is None,
            r.config_spec().export_style == ExportStyle::Named,
            !r.config_spec().include_utilities,
    {
        Generator::new(Config::new())
    }

    /// Registers a type for generation.
    pub fn register<T: TypeScript>(&mut self)
        requires
            old(self).wf(),
        ensures
            final(self).model() == crate::registry::add_names(
                old(self).model(),
                T::typescript_spec(),
            ),
            final(self).config_spec() == old(self).config_spec(),
            final(self).wf(),
    {
        self.registry.register::<T>();
    }

    /// Adds a `TypeDef` directly to the registry.
    pub fn add(&mut self, typedef: TypeDef)
        requires
            old(self).wf(),
        ensures
            final(self).model() == crate::registry::add_names(old(self).model(), typedef@),
            final(self).config_spec() == old(self).config_spec(),
            final(self).wf(),
    {
        self.registry.add_typedef(typedef);
    }

    /// The internal registry.
    pub fn registry(&self) -> (r: &TypeRegistry)
        ensures
            r@ == self.model(),
    {
        &self.registry
    }

    /// Generates the TypeScript output: the configured header, the utility
    /// types when asked for, then the registry rendered under the export
    /// style; the grouped style appends one aggregate export statement.
    #[verifier::loop_isolation(false)]
    pub fn generate(&self) -> (r: String)
        requires
            self.wf(),
        ensures
            exists|ns1: Seq<Seq<char>>, ns2: Seq<Seq<char>>|
                #[trigger] sorted_names_ok(self.model(), ns1) && #[trigger] sorted_names_ok(
                    self.model(),
                    ns2,
                ) && r@ == gen_header_chars(header_view(self.config_spec())) + "\n"@
                    + utilities_chars(
                    self.config_spec().export_style,
                    self.config_spec().include_utilities,
                ) + render_all_chars(
                    self.model(),
                    ns1,
                    self.config_spec().export_style == ExportStyle::Named,
                ) + (if self.config_spec().export_style == ExportStyle::Grouped {
                    grouped_tail_chars(ns2)
                } else {
                    Seq::<char>::empty()
                }),
    {
        let ghost m = self.model();
        let mut out = String::new();
        match &self.config.header {
            Option::Some(h) => {
                out.append("// ");
                out.append(h.as_str());
                out.append("\n");
            }
            Option::None => {
                out.append("// Generated by ferro-type-gen\n// Do not edit manually\n");
            }
        }
        out.append("\n");
        if self.config.include_utilities {
            match self.config.export_style {
                ExportStyle::Plain => {
                    out.append(PRETTIFY_TYPE);
                }
                _ => {
                    out.append(PRETTIFY_TYPE_EXPORTED);
                }
            }
            out.append("\n\n");
        }
        proof {
            assert(out@ =~= gen_header_chars(header_view(self.config_spec())) + "\n"@
                + utilities_chars(
                self.config_spec().export_style,
                self.config_spec().include_utilities,
            ));
        }
        let ghost prefix = out@;
        let ghost mut gns2: Seq<Seq<char>> = Seq::empty();
        let body = match self.config.export_style {
            ExportStyle::Named => self.registry.render_exported(),
            _ => self.registry.render(),
        };
        out.append(body.as_str());
        if match self.config.export_style {
            ExportStyle::Grouped => true,
            _ => false,
        } {
            let names = self.registry.sorted_types();
            let ghost ns2 = view_string_seq(names@);
            proof {
                assert forall|p: int| 0 <= p < ns2.len() implies has_name(
                    m,
                    #[trigger] ns2[p],
                ) by {
                    assert(ns2[p] == names@[p]@);
                }
                assert forall|p: int, q: int|
                    0 <= p < q < ns2.len() implies ns2[p] != ns2[q] by {
                    assert(names@[p]@ != names@[q]@);
                }
                assert(sorted_names_ok(m, ns2));
                gns2 = ns2;
            }
            if names.len() > 0 {
                out.append("\nexport { ");
                let ghost before = out@;
                let mut i: usize = 0;
                while i < names.len()
                    invariant
                        i <= names@.len(),
                        out@ == before + joined(ns2.take(i as int), ", "@),
                    decreases names@.len() - i,
                {
                    if i > 0 {
                        out.append(", ");
                    }
                    out.append(names[i].as_str());
                    proof {
                        assert(ns2.len() == names@.len());
                        assert(ns2[i as int] == names@[i as int]@);
                        assert(ns2.take(i + 1).drop_last() =~= ns2.take(i as int));
                        assert(ns2.take(i + 1).last() == names@[i as int]@);
                        assert(out@ =~= before + joined(ns2.take(i + 1), ", "@));
                    }
                    i = i + 1;
                }
                out.append(" };\n");
                proof {
                    assert(ns2.take(ns2.len() as int) =~= ns2);
                    assert(out@ =~= prefix + body@ + grouped_tail_chars(ns2));
                }
            } else {
                proof {
                    assert(out@ =~= prefix + body@ + grouped_tail_chars(ns2));
                }
            }
        } else {
            proof {
                assert(out@ =~= prefix + body@ + Seq::<char>::empty());
            }
        }
        proof {
            let exported = self.config_spec().export_style == ExportStyle::Named;
            let ns1 = choose|ns: Seq<Seq<char>>|
                #[trigger] sorted_names_ok(m, ns) && body@ == render_all_chars(m, ns, exported);
            if !(self.config_spec().export_style == ExportStyle::Grouped) {
                gns2 = ns1;
            }
            assert(sorted_names_ok(m, ns1) && sorted_names_ok(m, gns2) && out@
                == gen_header_chars(header_view(self.config_spec())) + "\n"@ + utilities_chars(
                self.config_spec().export_style,
                self.config_spec().include_utilities,
            ) + render_all_chars(m, ns1, exported) + (
            if self.config_spec().export_style == ExportStyle::Grouped {
                grouped_tail_chars(gns2)
            } else {
                Seq::<char>::empty()
            }));
        }
        out
    }
}


/// Generates TypeScript for a single type under the default config.
pub fn generate<T: TypeScript>() -> (r: String)
    ensures
        exists|m: Seq<EntryV>, ns: Seq<Seq<char>>|
            #[trigger] sorted_names_ok(m, ns) && m == crate::registry::add_names(
                Seq::empty(),
                T::typescript_spec(),
            ) && r@ == gen_header_chars(Option::None) + "\n"@ + render_all_chars(m, ns, true),
{
    let mut g = Generator::with_defaults();
    g.register::<T>();
    let out = g.generate();
    proof {
        let m = g.model();
        let (ns1, ns2) = choose|ns1: Seq<Seq<char>>, ns2: Seq<Seq<char>>|
            #[trigger] sorted_names_ok(m, ns1) && #[trigger] sorted_names_ok(m, ns2) && out@
                == gen_header_chars(header_view(g.config_spec())) + "\n"@ + utilities_chars(
                g.config_spec().export_style,
                g.config_spec().include_utilities,
            ) + render_all_chars(m, ns1, g.config_spec().export_style == ExportStyle::Named) + (
            if g.config_spec().export_style == ExportStyle::Grouped {
                grouped_tail_chars(ns2)
            } else {
                Seq::<char>::empty()
            });
        assert(out@ =~= gen_header_chars(Option::None) + "\n"@ + render_all_chars(
            m,
            ns1,
            true,
        ));
    }
    out
}


/// The segments of a module path, split on `::`.
pub open spec fn split_segments(s: Seq<char>, i: int, cur: Seq<char>) -> Seq<Seq<char>>
    decreases s.len() - i,
{
    if i < 0 || i >= s.len() {
        seq![cur]
    } else if s[i] == ':' && i + 1 < s.len() && s[i + 1] == ':' {
        seq![cur] + split_segments(s, i + 2, Seq::empty())
    } else {
        split_segments(s, i + 1, cur.push(s[i]))
    }
}

/// The output file path of a module: its `::`-separated segments with the
/// first (the crate name) stripped when more than one remains, joined with
/// slashes, ending in `.ts`.
pub open spec fn module_path_chars(s: Seq<char>) -> Seq<char> {
    let parts = split_segments(s, 0, Seq::empty());
    let kept = if parts.len() > 1 {
        parts.drop_first()
    } else {
        parts
    };
    joined(kept, "/"@) + ".ts"@
}

/// The modules of the entries, in order of first appearance.
pub open spec fn distinct_modules(m: Seq<EntryV>) -> Seq<Seq<char>>
    decreases m,
{
    if m.len() == 0 {
        Seq::empty()
    } else {
        let rest = distinct_modules(m.drop_last());
        if rest.contains(module_key(m.last())) {
            rest
        } else {
            rest.push(module_key(m.last()))
        }
    }
}

/// The names registered under one module, in registration order.
pub open spec fn names_with_module(m: Seq<EntryV>, key: Seq<char>) -> Seq<Seq<char>>
    decreases m,
{
    if m.len() == 0 {
        Seq::empty()
    } else {
        let rest = names_with_module(m.drop_last(), key);
        if module_key(m.last()) == key {
            rest.push(m.last().name)
        } else {
            rest
        }
    }
}

/// The header of a per-module output file.
pub open spec fn module_header_chars(header: Option<Seq<char>>, module: Seq<char>) -> Seq<
    char,
> {
    match header {
        Option::Some(h) => "// "@ + h + "
"@,
        Option::None => "// Generated by ferro-type-gen
// Do not edit manually
// Module: "@
            + module + "
"@,
    }
}

/// The declarations of the listed names from position `i` of the sorted
/// order on: each listed name's declaration, under the export prefix the
/// style asks for, followed by a blank line.
pub open spec fn module_decls(
    m: Seq<EntryV>,
    ns: Seq<Seq<char>>,
    listed: Seq<Seq<char>>,
    style: ExportStyle,
    i: int,
) -> Seq<char>
    decreases ns.len() - i,
{
    if i < 0 || i >= ns.len() {
        Seq::empty()
    } else {
        (if listed.contains(ns[i]) {
            (if style == ExportStyle::Plain {
                Seq::empty()
            } else {
                "export "@
            }) + declaration_chars(m[index_of(m, ns[i])].def) + "

"@
        } else {
            Seq::empty()
        }) + module_decls(m, ns, listed, style, i + 1)
    }
}

/// Converts a module path to an output file path: `a::b::c` becomes
/// `b/c.ts`, a bare `a` becomes `a.ts`.
#[verifier::loop_isolation(false)]
pub fn module_to_path(module: &str) -> (r: String)
    ensures
        r@ == module_path_chars(module@),
{
    let n = module.unicode_len();
    let mut parts: Vec<String> = Vec::new();
    let mut cur = String::new();
    let mut i: usize = 0;
    while i < n
        invariant
            i <= n,
            n == module@.len(),
            split_segments(module@, 0, Seq::empty()) == view_string_seq(parts@)
                + split_segments(module@, i as int, cur@),
        decreases n - i,
    {
        let c = module.get_char(i);
        if c == ':' && i + 1 < n && module.get_char(i + 1) == ':' {
            let ghost old_parts = parts@;
            let ghost old_cur = cur@;
            parts.push(cur);
            cur = String::new();
            proof {
                assert(view_string_seq(parts@) =~= view_string_seq(old_parts).push(old_cur));
                assert(view_string_seq(old_parts) + (seq![old_cur] + split_segments(
                    module@,
                    i + 2,
                    Seq::empty(),
                )) =~= view_string_seq(parts@) + split_segments(module@, i + 2, Seq::empty()));
            }
            i = i + 2;
        } else {
            crate::strutil::push_char(&mut cur, c);
            i = i + 1;
        }
    }
    let ghost old_parts = parts@;
    let ghost old_cur = cur@;
    parts.push(cur);
    proof {
        assert(split_segments(module@, n as int, old_cur) == seq![old_cur]);
        assert(view_string_seq(parts@) =~= view_string_seq(old_parts).push(old_cur));
        assert(view_string_seq(old_parts) + seq![old_cur] =~= view_string_seq(parts@));
    }
    let mut out = String::new();
    let start: usize = if parts.len() > 1 {
        1
    } else {
        0
    };
    let ghost kept = if view_string_seq(parts@).len() > 1 {
        view_string_seq(parts@).drop_first()
    } else {
        view_string_seq(parts@)
    };
    let mut j: usize = start;
    while j < parts.len()
        invariant
            start <= j <= parts@.len(),
            start == if parts@.len() > 1 { 1int } else { 0int },
            kept.len() == parts@.len() - start,
            forall|p: int| 0 <= p < kept.len() ==> kept[p] == parts@[p + start]@,
            out@ == joined(kept.take(j - start), "/"@),
        decreases parts@.len() - j,
    {
        if j > start {
            out.append("/");
        }
        out.append(parts[j].as_str());
        proof {
            assert(kept.take(j - start + 1).drop_last() =~= kept.take(j - start));
            assert(kept.take(j - start + 1).last() == parts@[j as int]@);
            assert(out@ =~= joined(kept.take(j - start + 1), "/"@));
        }
        j = j + 1;
    }
    out.append(".ts");
    proof {
        assert(kept.take(kept.len() as int) =~= kept);
        assert(out@ =~= module_path_chars(module@));
    }
    out
}

impl Generator {
    /// Groups the registered names by their host module: one group per
    /// module in order of first registration, `default` for types with no
    /// recorded module, each group's names in registration order.
    #[verifier::loop_isolation(false)]
    pub fn types_by_module(&self) -> (r: Vec<(String, Vec<String>)>)
        ensures
            r@.len() == distinct_modules(self.model()).len(),
            forall|i: int|
                0 <= i < r@.len() ==> (#[trigger] r@[i]).0@ == distinct_modules(self.model())[i]
                    && view_string_seq(r@[i].1@) == names_with_module(
                    self.model(),
                    distinct_modules(self.model())[i],
                ),
    {
        let ghost m = self.model();
        let n = self.registry.len();
        let mut keys: Vec<String> = Vec::new();
        let mut i: usize = 0;
        while i < n
            invariant
                i <= n,
                n == m.len(),
                view_string_seq(keys@) == distinct_modules(m.take(i as int)),
            decreases n - i,
        {
            let k = self.registry.module_key_at(i);
            let ghost old_keys = keys@;
            if !vec_contains_str(&keys, k.as_str()) {
                proof {
                    assert(!view_string_seq(old_keys).contains(k@));
                }
                keys.push(k);
                proof {
                    assert(view_string_seq(keys@) =~= view_string_seq(old_keys).push(
                        module_key(m[i as int]),
                    ));
                }
            }
            proof {
                assert(m.take(i + 1).drop_last() =~= m.take(i as int));
                assert(view_string_seq(keys@) =~= distinct_modules(m.take(i + 1)));
            }
            i = i + 1;
        }
        proof {
            assert(m.take(m.len() as int) =~= m);
        }
        let mut out: Vec<(String, Vec<String>)> = Vec::new();
        let mut g: usize = 0;
        while g < keys.len()
            invariant
                g <= keys@.len(),
                n == m.len(),
                view_string_seq(keys@) == distinct_modules(m),
                out@.len() == g,
                forall|p: int|
                    0 <= p < g ==> #[trigger] out@[p].0@ == distinct_modules(m)[p]
                        && view_string_seq(out@[p].1@) == names_with_module(
                        m,
                        distinct_modules(m)[p],
                    ),
            decreases keys@.len() - g,
        {
            let key = keys[g].clone();
            let ghost gkey = distinct_modules(m)[g as int];
            proof {
                assert(key@ == gkey);
            }
            let mut names: Vec<String> = Vec::new();
            let mut i2: usize = 0;
            while i2 < n
                invariant
                    i2 <= n,
                    n == m.len(),
                    key@ == gkey,
                    view_string_seq(names@) == names_with_module(m.take(i2 as int), gkey),
                decreases n - i2,
            {
                let mk = self.registry.module_key_at(i2);
                let ghost old_names = names@;
                if crate::strutil::str_eq(mk.as_str(), key.as_str()) {
                    let nm = self.registry.name_at(i2);
                    names.push(nm);
                    proof {
                        assert(view_string_seq(names@) =~= view_string_seq(old_names).push(
                            m[i2 as int].name,
                        ));
                    }
                }
                proof {
                    assert(m.take(i2 + 1).drop_last() =~= m.take(i2 as int));
                    assert(view_string_seq(names@) =~= names_with_module(m.take(i2 + 1), gkey));
                }
                i2 = i2 + 1;
            }
            proof {
                assert(m.take(m.len() as int) =~= m);
            }
            out.push((key, names));
            g = g + 1;
        }
        proof {
            assert(view_string_seq(keys@).len() == keys@.len());
            assert(out@.len() == distinct_modules(m).len());
            assert forall|i: int| 0 <= i < out@.len() implies (#[trigger] out@[i]).0@
                == distinct_modules(m)[i] && view_string_seq(out@[i].1@) == names_with_module(
                m,
                distinct_modules(m)[i],
            ) by {
                assert(out@[i].0@ =~= distinct_modules(m)[i]);
                assert(view_string_seq(out@[i].1@) =~= names_with_module(
                    m,
                    distinct_modules(m)[i],
                ));
            }
        }
        out
    }

    /// Generates the TypeScript of one module's group of names: the
    /// per-module header, then the listed names' declarations in the
    /// registry's dependency order, exported under every style but the
    /// plain one.
    #[verifier::loop_isolation(false)]
    pub fn generate_for_module(&self, module: &str, type_names: &Vec<String>) -> (r: String)
        requires
            self.wf(),
        ensures
            exists|ns: Seq<Seq<char>>|
                #[trigger] sorted_names_ok(self.model(), ns) && r@ == module_header_chars(
                    header_view(self.config_spec()),
                    module@,
                ) + "
"@ + module_decls(
                    self.model(),
                    ns,
                    view_string_seq(type_names@),
                    self.config_spec().export_style,
                    0,
                ),
    {
        let ghost m = self.model();
        let ghost listed = view_string_seq(type_names@);
        let mut out = String::new();
        match &self.config.header {
            Option::Some(h) => {
                out.append("// ");
                out.append(h.as_str());
                out.append("
");
            }
            Option::None => {
                out.append("// Generated by ferro-type-gen
// Do not edit manually
// Module: ");
                out.append(module);
                out.append("
");
            }
        }
        out.append("
");
        proof {
            assert(out@ =~= module_header_chars(header_view(self.config_spec()), module@)
                + "
"@);
        }
        let ghost header_part = out@;
        let sorted = self.registry.sorted_types();
        let ghost ns = view_string_seq(sorted@);
        proof {
            assert(sorted_names_ok(m, ns));
        }
        let style_plain = match self.config.export_style {
            ExportStyle::Plain => true,
            _ => false,
        };
        let mut i: usize = 0;
        while i < sorted.len()
            invariant
                i <= sorted@.len(),
                ns.len() == sorted@.len(),
                out@ + module_decls(m, ns, listed, self.config_spec().export_style, i as int)
                    == header_part + module_decls(
                    m,
                    ns,
                    listed,
                    self.config_spec().export_style,
                    0,
                ),
                style_plain == (self.config_spec().export_style == ExportStyle::Plain),
            decreases sorted@.len() - i,
        {
            let ghost before = out@;
            if vec_contains_str(type_names, sorted[i].as_str()) {
                if !style_plain {
                    out.append("export ");
                }
                let td = self.registry.get(sorted[i].as_str());
                match td {
                    Option::Some(td) => {
                        let ghost ix = index_of(m, ns[i as int]);
                        proof {
                            let j = choose|j: int|
                                0 <= j < m.len() && m[j].name == sorted@[i as int]@ && td@
                                    == m[j].def;
                            assert(0 <= ix < m.len() && m[ix].name == ns[i as int]);
                            assert(j == ix);
                        }
                        let decl = td.render_declaration();
                        out.append(decl.as_str());
                    }
                    Option::None => {
                        proof {
                            assert(has_name(m, ns[i as int]));
                            assert(false);
                        }
                    }
                }
                out.append("

");
            }
            proof {
                assert(before + module_decls(
                    m,
                    ns,
                    listed,
                    self.config_spec().export_style,
                    i as int,
                ) =~= out@ + module_decls(
                    m,
                    ns,
                    listed,
                    self.config_spec().export_style,
                    i + 1,
                ));
            }
            i = i + 1;
        }
        proof {
            assert(module_decls(m, ns, listed, self.config_spec().export_style, ns.len() as int)
                =~= Seq::<char>::empty());
            assert(out@ + Seq::<char>::empty() =~= out@);
        }
        out
    }
}

} // verus!
