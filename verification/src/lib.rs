//! Mapping declared types into a single TypeScript intermediate
//! representation, and emitting deduplicated, dependency-ordered type
//! declarations from it.
//!
//! The crate is organised around three pieces:
//! - the [`TypeDef`] tree (`ir`), an immutable recursive description of
//!   every representable TypeScript shape, with a renderer (`render`) that
//!   serialises it to source text;
//! - converters into that tree: from a [`SourceDescriptor`] carrying one
//!   declared host type with its conversion attributes (`convert`), and
//!   from a parsed TypeScript declaration module (`import`);
//! - the [`TypeRegistry`] (`registry`), which collects named types,
//!   deduplicates them by name, orders them by their reference
//!   dependencies, and renders the full declaration list; the `gen` module
//!   assembles whole output files from it under a configuration.

pub mod caseconv;
pub mod convert;
pub mod fixtures;
pub mod gen;
pub mod import;
pub mod ir;
pub mod pattern;
pub mod registry;
pub mod render;
pub mod server;
mod strutil;

pub use caseconv::{to_camel_case, to_pascal_case, to_snake_case, RenameAll};
pub use convert::convert;
pub use convert::{
    ContainerAttrs, ConversionError, FieldAttrs, Member, SourceDescriptor, SourceKind, Variant,
    VariantShape,
};
pub use gen::{generate, module_to_path, Config, ExportStyle, Generator};
pub use import::{convert_module, TsModule, TsModuleItem, TsType, TsTypeInfo};
pub use ir::{
    extract_object_fields, inline_typedef, Field, Literal, Primitive, TypeDef, TypeParam,
};
pub use pattern::parse_template_pattern;
pub use registry::{TypeRegistry, TypeScript};
