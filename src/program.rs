//! One decoded program unit: what a compiled source unit declares at the
//! module boundary.
use vstd::prelude::*;

verus! {

/// The views of a list of strings.
pub open spec fn strings_view(v: Seq<String>) -> Seq<Seq<char>> {
    v.map_values(|s: String| s@)
}

pub struct Program {
    pub exports: Vec<Export>,
    pub enums: Vec<Enum>,
    pub imports: Vec<Import>,
    pub structs: Vec<Struct>,
    pub typescript_custom_sections: Vec<String>,
    pub local_modules: Vec<LocalModule>,
    pub inline_js: Vec<String>,
    pub unique_crate_identifier: String,
    pub package_json: Option<String>,
}

pub struct Export {
    pub class: Option<String>,
    pub comments: Vec<String>,
    pub consumed: bool,
    pub function: FunctionDecl,
    pub method_kind: MethodKind,
    pub start: bool,
}

pub struct FunctionDecl {
    pub name: String,
    pub arg_names: Vec<String>,
}

pub enum MethodKind {
    Constructor,
    Operation(Operation),
}

pub struct Operation {
    pub is_static: bool,
    pub kind: OperationKind,
}

pub enum OperationKind {
    Regular,
    Getter(String),
    Setter(String),
    IndexingGetter,
    IndexingSetter,
    IndexingDeleter,
}

pub struct Import {
    pub module: ImportModule,
    pub js_namespace: Option<String>,
    pub kind: ImportKind,
}

pub enum ImportModule {
    Global,
    Named(String),
    RawNamed(String),
    Inline(u32),
}

pub enum ImportKind {
    Function(ImportFunction),
    Static(ImportStatic),
    Type(ImportType),
    Enum,
}

pub struct ImportFunction {
    pub shim: String,
    pub catch: bool,
    pub variadic: bool,
    pub method: Option<MethodData>,
    pub structural: bool,
    pub function: FunctionDecl,
}

pub struct MethodData {
    pub class: String,
    pub kind: MethodKind,
}

pub struct ImportStatic {
    pub name: String,
    pub shim: String,
}

pub struct ImportType {
    pub name: String,
    pub instanceof_shim: String,
    pub vendor_prefixes: Vec<String>,
}

pub struct Enum {
    pub name: String,
    pub comments: Vec<String>,
    pub variants: Vec<EnumVariant>,
}

pub struct EnumVariant {
    pub name: String,
    pub value: u32,
}

pub struct Struct {
    pub name: String,
    pub fields: Vec<StructField>,
    pub comments: Vec<String>,
}

pub struct StructField {
    pub name: String,
    pub readonly: bool,
    pub comments: Vec<String>,
}

pub struct LocalModule {
    pub identifier: String,
    pub contents: String,
}

} // verus!
