//! The two records that the synthesis pass produces: the signature every
//! boundary function presents, and where each one is wired in the host.
use crate::descriptor::{Closure, FnTy, Function, Ty};
use crate::program::strings_view;
use crate::table::NameTable;
use std::collections::{HashMap, HashSet};
use vstd::prelude::*;

verus! {

/// Signatures of the boundary functions, keyed by export and import id.
pub struct WebidlCustomSection {
    pub exports: HashMap<usize, Function>,
    pub imports: HashMap<usize, ImportBinding>,
}

/// How an imported function is invoked.
#[derive(Debug)]
pub enum ImportBinding {
    /// Invoked as a constructor.
    Constructor(Function),
    /// Invoked as a method, with the first argument as the receiver.
    Method(Function),
    /// Invoked as a plain function.
    Function(Function),
}

/// Placement metadata of the boundary functions.
pub struct WasmBindgenAux {
    pub extra_typescript: String,
    pub local_modules: NameTable<String>,
    pub snippets: NameTable<Vec<String>>,
    pub package_jsons: Vec<String>,
    pub export_map: HashMap<usize, AuxExport>,
    pub import_map: HashMap<usize, AuxImport>,
    pub imports_with_catch: HashSet<usize>,
    pub imports_with_variadic: HashSet<usize>,
    pub enums: Vec<AuxEnum>,
    pub structs: Vec<AuxStruct>,
}

#[derive(Debug)]
pub struct AuxExport {
    pub debug_name: String,
    pub comments: String,
    pub arg_names: Option<Vec<String>>,
    pub kind: AuxExportKind,
}

/// Where an exported function is placed in the host.
#[derive(Debug)]
pub enum AuxExportKind {
    Function(String),
    Constructor(String),
    Getter { class: String, field: String },
    Setter { class: String, field: String },
    StaticFunction { class: String, name: String },
    Method { class: String, name: String, consumed: bool },
}

#[derive(Debug)]
pub struct AuxEnum {
    pub name: String,
    pub comments: String,
    pub variants: Vec<(String, u32)>,
}

#[derive(Debug)]
pub struct AuxStruct {
    pub name: String,
    pub comments: String,
}

/// What an imported function is bound to in the host.
#[derive(Debug)]
pub enum AuxImport {
    Value(AuxValue),
    Instanceof(JsImport),
    Static(JsImport),
    Closure(Closure),
    StructuralMethod(String),
    StructuralGetter(String),
    StructuralClassGetter(JsImport, String),
    StructuralSetter(String),
    StructuralClassSetter(JsImport, String),
    IndexingGetterOfClass(JsImport),
    IndexingGetterOfObject,
    IndexingSetterOfClass(JsImport),
    IndexingSetterOfObject,
    IndexingDeleterOfClass(JsImport),
    IndexingDeleterOfObject,
    WrapInExportedClass(String),
    Intrinsic(String),
}

/// Values imported verbatim.
#[derive(Debug)]
pub enum AuxValue {
    Bare(JsImport),
    Getter(JsImport, String),
    ClassGetter(JsImport, String),
    Setter(JsImport, String),
    ClassSetter(JsImport, String),
}

/// A host value: a base name followed by field accesses.
#[derive(Debug)]
pub struct JsImport {
    pub name: JsImportName,
    pub fields: Vec<String>,
}

/// Where the base name of a host value comes from.
#[derive(Debug)]
pub enum JsImportName {
    Global { name: String },
    Module { module: String, name: String },
    LocalModule { module: String, name: String },
    InlineJs { unique_crate_identifier: String, snippet_idx_in_crate: usize, name: String },
    VendorPrefixed { name: String, prefixes: Vec<String> },
}

// ---------------------------------------------------------------------------
// Models

pub enum JsNameModel {
    Global(Seq<char>),
    Module(Seq<char>, Seq<char>),
    LocalModule(Seq<char>, Seq<char>),
    InlineJs(Seq<char>, int, Seq<char>),
    VendorPrefixed(Seq<char>, Seq<Seq<char>>),
}

pub struct JsImportModel {
    pub name: JsNameModel,
    pub fields: Seq<Seq<char>>,
}

pub enum AuxValueModel {
    Bare(JsImportModel),
    Getter(JsImportModel, Seq<char>),
    ClassGetter(JsImportModel, Seq<char>),
    Setter(JsImportModel, Seq<char>),
    ClassSetter(JsImportModel, Seq<char>),
}

pub enum AuxImportModel {
    Value(AuxValueModel),
    Instanceof(JsImportModel),
    Static(JsImportModel),
    Closure(Ty),
    StructuralMethod(Seq<char>),
    StructuralGetter(Seq<char>),
    StructuralClassGetter(JsImportModel, Seq<char>),
    StructuralSetter(Seq<char>),
    StructuralClassSetter(JsImportModel, Seq<char>),
    IndexingGetterOfClass(JsImportModel),
    IndexingGetterOfObject,
    IndexingSetterOfClass(JsImportModel),
    IndexingSetterOfObject,
    IndexingDeleterOfClass(JsImportModel),
    IndexingDeleterOfObject,
    WrapInExportedClass(Seq<char>),
    Intrinsic(Seq<char>),
}

pub enum BindingModel {
    Constructor(FnTy),
    Method(FnTy),
    Function(FnTy),
}

pub enum ExportKindModel {
    Function(Seq<char>),
    Constructor(Seq<char>),
    Getter(Seq<char>, Seq<char>),
    Setter(Seq<char>, Seq<char>),
    StaticFunction(Seq<char>, Seq<char>),
    Method(Seq<char>, Seq<char>, bool),
}

pub struct AuxExportModel {
    pub debug_name: Seq<char>,
    pub comments: Seq<char>,
    pub arg_names: Option<Seq<Seq<char>>>,
    pub kind: ExportKindModel,
}

/// The views of an enum's name/value pairs.
pub open spec fn variants_view(v: Seq<(String, u32)>) -> Seq<(Seq<char>, u32)> {
    v.map_values(|p: (String, u32)| (p.0@, p.1))
}

pub struct AuxEnumModel {
    pub name: Seq<char>,
    pub comments: Seq<char>,
    pub variants: Seq<(Seq<char>, u32)>,
}

pub struct AuxStructModel {
    pub name: Seq<char>,
    pub comments: Seq<char>,
}

impl View for AuxEnum {
    type V = AuxEnumModel;

    open spec fn view(&self) -> AuxEnumModel {
        AuxEnumModel {
            name: self.name@,
            comments: self.comments@,
            variants: variants_view(self.variants@),
        }
    }
}

impl View for AuxStruct {
    type V = AuxStructModel;

    open spec fn view(&self) -> AuxStructModel {
        AuxStructModel { name: self.name@, comments: self.comments@ }
    }
}

impl View for JsImportName {
    type V = JsNameModel;

    open spec fn view(&self) -> JsNameModel {
        match self {
            JsImportName::Global { name } => JsNameModel::Global(name@),
            JsImportName::Module { module, name } => JsNameModel::Module(module@, name@),
            JsImportName::LocalModule { module, name } => JsNameModel::LocalModule(module@, name@),
            JsImportName::InlineJs { unique_crate_identifier, snippet_idx_in_crate, name } =>
                JsNameModel::InlineJs(unique_crate_identifier@, *snippet_idx_in_crate as int, name@),
            JsImportName::VendorPrefixed { name, prefixes } =>
                JsNameModel::VendorPrefixed(name@, strings_view(prefixes@)),
        }
    }
}

impl View for JsImport {
    type V = JsImportModel;

    open spec fn view(&self) -> JsImportModel {
        JsImportModel { name: self.name@, fields: strings_view(self.fields@) }
    }
}

impl View for AuxValue {
    type V = AuxValueModel;

    open spec fn view(&self) -> AuxValueModel {
        match self {
            AuxValue::Bare(j) => AuxValueModel::Bare(j@),
            AuxValue::Getter(j, f) => AuxValueModel::Getter(j@, f@),
            AuxValue::ClassGetter(j, f) => AuxValueModel::ClassGetter(j@, f@),
            AuxValue::Setter(j, f) => AuxValueModel::Setter(j@, f@),
            AuxValue::ClassSetter(j, f) => AuxValueModel::ClassSetter(j@, f@),
        }
    }
}

impl View for AuxImport {
    type V = AuxImportModel;

    open spec fn view(&self) -> AuxImportModel {
        match self {
            AuxImport::Value(v) => AuxImportModel::Value(v@),
            AuxImport::Instanceof(j) => AuxImportModel::Instanceof(j@),
            AuxImport::Static(j) => AuxImportModel::Static(j@),
            AuxImport::Closure(c) => AuxImportModel::Closure(c.view_ty()),
            AuxImport::StructuralMethod(s) => AuxImportModel::StructuralMethod(s@),
            AuxImport::StructuralGetter(s) => AuxImportModel::StructuralGetter(s@),
            AuxImport::StructuralClassGetter(j, s) => AuxImportModel::StructuralClassGetter(j@, s@),
            AuxImport::StructuralSetter(s) => AuxImportModel::StructuralSetter(s@),
            AuxImport::StructuralClassSetter(j, s) => AuxImportModel::StructuralClassSetter(j@, s@),
            AuxImport::IndexingGetterOfClass(j) => AuxImportModel::IndexingGetterOfClass(j@),
            AuxImport::IndexingGetterOfObject => AuxImportModel::IndexingGetterOfObject,
            AuxImport::IndexingSetterOfClass(j) => AuxImportModel::IndexingSetterOfClass(j@),
            AuxImport::IndexingSetterOfObject => AuxImportModel::IndexingSetterOfObject,
            AuxImport::IndexingDeleterOfClass(j) => AuxImportModel::IndexingDeleterOfClass(j@),
            AuxImport::IndexingDeleterOfObject => AuxImportModel::IndexingDeleterOfObject,
            AuxImport::WrapInExportedClass(s) => AuxImportModel::WrapInExportedClass(s@),
            AuxImport::Intrinsic(s) => AuxImportModel::Intrinsic(s@),
        }
    }
}

impl View for ImportBinding {
    type V = BindingModel;

    open spec fn view(&self) -> BindingModel {
        match self {
            ImportBinding::Constructor(f) => BindingModel::Constructor(f@),
            ImportBinding::Method(f) => BindingModel::Method(f@),
            ImportBinding::Function(f) => BindingModel::Function(f@),
        }
    }
}

impl View for AuxExportKind {
    type V = ExportKindModel;

    open spec fn view(&self) -> ExportKindModel {
        match self {
            AuxExportKind::Function(n) => ExportKindModel::Function(n@),
            AuxExportKind::Constructor(c) => ExportKindModel::Constructor(c@),
            AuxExportKind::Getter { class, field } => ExportKindModel::Getter(class@, field@),
            AuxExportKind::Setter { class, field } => ExportKindModel::Setter(class@, field@),
            AuxExportKind::StaticFunction { class, name } => ExportKindModel::StaticFunction(class@, name@),
            AuxExportKind::Method { class, name, consumed } => ExportKindModel::Method(class@, name@, *consumed),
        }
    }
}

impl View for AuxExport {
    type V = AuxExportModel;

    open spec fn view(&self) -> AuxExportModel {
        AuxExportModel {
            debug_name: self.debug_name@,
            comments: self.comments@,
            arg_names: match self.arg_names {
                Some(v) => Some(strings_view(v@)),
                None => None,
            },
            kind: self.kind@,
        }
    }
}

/// Why the synthesis pass stopped.
#[derive(Debug)]
pub enum Error {
    /// The section was written against another schema version.
    VersionMismatch { theirs: String, ours: String },
    /// A section's framing or version envelope is malformed.
    MalformedSection,
    /// Two exports are marked as the start function.
    TwoStartFunctions,
    /// An indexing operation is imported without being structural.
    IndexingNotStructural,
    /// A vendor-prefixed import comes from a local snippet.
    VendorPrefixInLocalSnippet(String),
    /// A vendor-prefixed import comes from a named module.
    VendorPrefixFromModule(String),
    /// A vendor-prefixed import goes through a namespace.
    VendorPrefixInNamespace(String),
    /// One local module name was registered with two contents.
    LocalModuleMismatch(String),
    /// A descriptor names a function the module does not export.
    MissingExport(String),
    /// The descriptor of a function is no function signature.
    NotAFunction(String),
    /// A snippet index does not fit in a machine word.
    SnippetIndexOverflow,
    /// An import of the placeholder module is no function.
    ImportNotAFunction(String),
    /// A placeholder import has no placement.
    MissingImportTarget(String),
    /// A placeholder import has no signature.
    MissingImportBinding(String),
    /// The placement map holds more entries than there are imports.
    ImportMapTooLarge,
    /// The signature map holds more entries than there are imports.
    ImportBindingsTooLarge,
    /// An export signature has no placement.
    ExportWithoutPlacement,
    /// The export signature and placement maps differ in size.
    ExportMapSizeMismatch,
}

/// The kinds of `Error`, without their details.
#[derive(Clone, Copy, PartialEq, Eq, Structural, Debug)]
pub enum ErrorKind {
    VersionMismatch,
    MalformedSection,
    TwoStartFunctions,
    IndexingNotStructural,
    VendorPrefixInLocalSnippet,
    VendorPrefixFromModule,
    VendorPrefixInNamespace,
    LocalModuleMismatch,
    MissingExport,
    NotAFunction,
    SnippetIndexOverflow,
    ImportNotAFunction,
    MissingImportTarget,
    MissingImportBinding,
    ImportMapTooLarge,
    ImportBindingsTooLarge,
    ExportWithoutPlacement,
    ExportMapSizeMismatch,
}

impl Error {
    pub open spec fn kind(&self) -> ErrorKind {
        match self {
            Error::VersionMismatch { .. } => ErrorKind::VersionMismatch,
            Error::MalformedSection => ErrorKind::MalformedSection,
            Error::TwoStartFunctions => ErrorKind::TwoStartFunctions,
            Error::IndexingNotStructural => ErrorKind::IndexingNotStructural,
            Error::VendorPrefixInLocalSnippet(_) => ErrorKind::VendorPrefixInLocalSnippet,
            Error::VendorPrefixFromModule(_) => ErrorKind::VendorPrefixFromModule,
            Error::VendorPrefixInNamespace(_) => ErrorKind::VendorPrefixInNamespace,
            Error::LocalModuleMismatch(_) => ErrorKind::LocalModuleMismatch,
            Error::MissingExport(_) => ErrorKind::MissingExport,
            Error::NotAFunction(_) => ErrorKind::NotAFunction,
            Error::SnippetIndexOverflow => ErrorKind::SnippetIndexOverflow,
            Error::ImportNotAFunction(_) => ErrorKind::ImportNotAFunction,
            Error::MissingImportTarget(_) => ErrorKind::MissingImportTarget,
            Error::MissingImportBinding(_) => ErrorKind::MissingImportBinding,
            Error::ImportMapTooLarge => ErrorKind::ImportMapTooLarge,
            Error::ImportBindingsTooLarge => ErrorKind::ImportBindingsTooLarge,
            Error::ExportWithoutPlacement => ErrorKind::ExportWithoutPlacement,
            Error::ExportMapSizeMismatch => ErrorKind::ExportMapSizeMismatch,
        }
    }

    /// The kind of this error.
    pub fn error_kind(&self) -> (r: ErrorKind)
        ensures
            r == self.kind(),
    {
        match self {
            Error::VersionMismatch { .. } => ErrorKind::VersionMismatch,
            Error::MalformedSection => ErrorKind::MalformedSection,
            Error::TwoStartFunctions => ErrorKind::TwoStartFunctions,
            Error::IndexingNotStructural => ErrorKind::IndexingNotStructural,
            Error::VendorPrefixInLocalSnippet(_) => ErrorKind::VendorPrefixInLocalSnippet,
            Error::VendorPrefixFromModule(_) => ErrorKind::VendorPrefixFromModule,
            Error::VendorPrefixInNamespace(_) => ErrorKind::VendorPrefixInNamespace,
            Error::LocalModuleMismatch(_) => ErrorKind::LocalModuleMismatch,
            Error::MissingExport(_) => ErrorKind::MissingExport,
            Error::NotAFunction(_) => ErrorKind::NotAFunction,
            Error::SnippetIndexOverflow => ErrorKind::SnippetIndexOverflow,
            Error::ImportNotAFunction(_) => ErrorKind::ImportNotAFunction,
            Error::MissingImportTarget(_) => ErrorKind::MissingImportTarget,
            Error::MissingImportBinding(_) => ErrorKind::MissingImportBinding,
            Error::ImportMapTooLarge => ErrorKind::ImportMapTooLarge,
            Error::ImportBindingsTooLarge => ErrorKind::ImportBindingsTooLarge,
            Error::ExportWithoutPlacement => ErrorKind::ExportWithoutPlacement,
            Error::ExportMapSizeMismatch => ErrorKind::ExportMapSizeMismatch,
        }
    }
}

} // verus!
