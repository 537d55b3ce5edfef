//! The synthesis pass: indexes the boundary functions, claims the descriptor
//! of each declared export and import, and fills the two output records.
use crate::descriptor::{args_view, lemma_args_view_index, Closure, Descriptor, FnTy, Function, Ty};
use crate::program::{
    strings_view, Enum, EnumVariant, Export, FunctionDecl, Import, ImportFunction, ImportKind, ImportModule,
    ImportStatic, ImportType, LocalModule, MethodKind, Operation, OperationKind, Program, Struct,
};
use crate::records::{
    variants_view, AuxEnum, AuxEnumModel, AuxStructModel, AuxExport, AuxExportKind, AuxExportModel, AuxImport, AuxImportModel, AuxStruct,
    AuxValue, AuxValueModel, BindingModel, Error, ErrorKind, ExportKindModel, ImportBinding,
    JsImport, JsImportModel, JsImportName, JsNameModel, WasmBindgenAux, WebidlCustomSection,
};
use crate::steps::{
    before_exports, before_imports, before_structs, closure_scan, descriptor_table, export_table,
    fields_fold, import_function_step, import_scan, import_static_step, import_step, import_type_step,
    init_state, lemma_exports_err, lemma_fields_err, lemma_imports_err, lemma_list_views_insert,
    lemma_modules_err, lemma_seq_views_push, lemma_structs_err, lemma_units_err, lemma_views_dom,
    lemma_views_insert, lemma_views_remove, list_views, map_views, modules_fold, resolve_in, seq_views,
    state_consistent, struct_step, unit_step, units_fold, vendor_fold, vendor_step, with_crate,
    enum_step, enums_fold, export_step, exports_fold, imports_fold, structs_fold, State,
};
use crate::table::NameTable;
use std::collections::{HashMap, HashSet};
use vstd::prelude::*;

verus! {

/// The target of a non-constructor method import, and whether it is invoked
/// with the receiver as `this`.
pub open spec fn import_op_target(
    class: JsImportModel,
    fname: Seq<char>,
    structural: bool,
    op: Operation,
) -> Result<(AuxImportModel, bool), ErrorKind> {
    match op.kind {
        OperationKind::Regular => if op.is_static {
            Ok((AuxImportModel::Value(AuxValueModel::Bare(JsImportModel { name: class.name, fields: class.fields.push(fname) })), false))
        } else if structural {
            Ok((AuxImportModel::StructuralMethod(fname), false))
        } else {
            Ok((
                AuxImportModel::Value(AuxValueModel::Bare(JsImportModel {
                    name: class.name,
                    fields: class.fields.push("prototype"@).push(fname),
                })),
                true,
            ))
        },
        OperationKind::Getter(f) => if structural {
            if op.is_static {
                Ok((AuxImportModel::StructuralClassGetter(class, f@), false))
            } else {
                Ok((AuxImportModel::StructuralGetter(f@), false))
            }
        } else if op.is_static {
            Ok((AuxImportModel::Value(AuxValueModel::ClassGetter(class, f@)), true))
        } else {
            Ok((AuxImportModel::Value(AuxValueModel::Getter(class, f@)), true))
        },
        OperationKind::Setter(f) => if structural {
            if op.is_static {
                Ok((AuxImportModel::StructuralClassSetter(class, f@), false))
            } else {
                Ok((AuxImportModel::StructuralSetter(f@), false))
            }
        } else if op.is_static {
            Ok((AuxImportModel::Value(AuxValueModel::ClassSetter(class, f@)), true))
        } else {
            Ok((AuxImportModel::Value(AuxValueModel::Setter(class, f@)), true))
        },
        OperationKind::IndexingGetter => if !structural {
            Err(ErrorKind::IndexingNotStructural)
        } else if op.is_static {
            Ok((AuxImportModel::IndexingGetterOfClass(class), false))
        } else {
            Ok((AuxImportModel::IndexingGetterOfObject, false))
        },
        OperationKind::IndexingSetter => if !structural {
            Err(ErrorKind::IndexingNotStructural)
        } else if op.is_static {
            Ok((AuxImportModel::IndexingSetterOfClass(class), false))
        } else {
            Ok((AuxImportModel::IndexingSetterOfObject, false))
        },
        OperationKind::IndexingDeleter => if !structural {
            Err(ErrorKind::IndexingNotStructural)
        } else if op.is_static {
            Ok((AuxImportModel::IndexingDeleterOfClass(class), false))
        } else {
            Ok((AuxImportModel::IndexingDeleterOfObject, false))
        },
    }
}

/// Whether an import comes from JS source bundled with the module.
pub open spec fn is_local_snippet(module: ImportModule, local_modules: Map<Seq<char>, Seq<char>>) -> bool {
    match module {
        ImportModule::Named(s) => local_modules.contains_key(s@),
        ImportModule::RawNamed(_) => false,
        ImportModule::Inline(_) => true,
        ImportModule::Global => false,
    }
}

/// Where the host value `item` of `import` comes from, given the local
/// modules and vendor prefixes registered so far, the crate identifier of the
/// unit being processed, and the number of snippets it registered before.
pub open spec fn resolve_import(
    import: Import,
    item: Seq<char>,
    local_modules: Map<Seq<char>, Seq<char>>,
    vendor_prefixes: Map<Seq<char>, Seq<Seq<char>>>,
    crate_id: Seq<char>,
    snippet_offset: int,
) -> Result<JsImportModel, ErrorKind> {
    let local = is_local_snippet(import.module, local_modules);
    if vendor_prefixes.contains_key(item) {
        if local {
            Err(ErrorKind::VendorPrefixInLocalSnippet)
        } else if import.module is Named {
            Err(ErrorKind::VendorPrefixFromModule)
        } else if import.js_namespace is Some {
            Err(ErrorKind::VendorPrefixInNamespace)
        } else {
            Ok(JsImportModel {
                name: JsNameModel::VendorPrefixed(item, vendor_prefixes[item]),
                fields: Seq::empty(),
            })
        }
    } else {
        let (name, fields) = match import.js_namespace {
            Some(ns) => (ns@, seq![item]),
            None => (item, Seq::<Seq<char>>::empty()),
        };
        match import.module {
            ImportModule::Named(m) => if local {
                Ok(JsImportModel { name: JsNameModel::LocalModule(m@, name), fields })
            } else {
                Ok(JsImportModel { name: JsNameModel::Module(m@, name), fields })
            },
            ImportModule::RawNamed(m) => Ok(JsImportModel { name: JsNameModel::Module(m@, name), fields }),
            ImportModule::Inline(idx) => if idx + snippet_offset > usize::MAX {
                Err(ErrorKind::SnippetIndexOverflow)
            } else {
                Ok(JsImportModel { name: JsNameModel::InlineJs(crate_id, idx + snippet_offset, name), fields })
            },
            ImportModule::Global => Ok(JsImportModel { name: JsNameModel::Global(name), fields }),
        }
    }
}

/// A `String` holding the characters of `s`.
fn owned(s: &str) -> (r: String)
    ensures
        r@ == s@,
{
    s.to_owned()
}

/// Copies a list of strings.
fn clone_strings(v: &Vec<String>) -> (r: Vec<String>)
    ensures
        strings_view(r@) == strings_view(v@),
{
    let mut r: Vec<String> = Vec::new();
    let mut i: usize = 0;
    while i < v.len()
        invariant
                i <= v@.len(),
                strings_view(r@) == strings_view(v@.subrange(0, i as int)),
        decreases v@.len() - i,
    {
        let s = v[i].clone();
        proof {
            assert(v@.subrange(0, i + 1) =~= v@.subrange(0, i as int).push(v@[i as int]));
            assert(strings_view(r@.push(s)) =~= strings_view(r@).push(s@));
            assert(strings_view(v@.subrange(0, i + 1)) =~= strings_view(v@.subrange(0, i as int)).push(v@[i as int]@));
        }
        r.push(s);
        i = i + 1;
    }
    proof {
        assert(v@.subrange(0, v@.len() as int) =~= v@);
    }
    r
}

/// Appends one string to a field path.
fn push_field(fields: &mut Vec<String>, s: String)
    ensures
        strings_view(final(fields)@) == strings_view(old(fields)@).push(s@),
{
    let ghost prev = fields@;
    fields.push(s);
    assert(strings_view(fields@) =~= strings_view(prev).push(s@));
}

/// Picks the host target of a non-constructor method import; the flag says
/// whether it is invoked with the receiver as `this`.
pub fn determine_import_op(
    class: JsImport,
    function: &FunctionDecl,
    structural: bool,
    op: &Operation,
) -> (r: Result<(AuxImport, bool), Error>)
    ensures
        match import_op_target(class@, function.name@, structural, *op) {
            Ok((t, m)) => r matches Ok((a, n)) && a@ == t && n == m,
            Err(k) => r matches Err(e) && e.kind() == k,
        },
{
    let mut class = class;
    match &op.kind {
        OperationKind::Regular => {
            if op.is_static {
                push_field(&mut class.fields, function.name.clone());
                Ok((AuxImport::Value(AuxValue::Bare(class)), false))
            } else if structural {
                Ok((AuxImport::StructuralMethod(function.name.clone()), false))
            } else {
                push_field(&mut class.fields, owned("prototype"));
                push_field(&mut class.fields, function.name.clone());
                Ok((AuxImport::Value(AuxValue::Bare(class)), true))
            }
        },
        OperationKind::Getter(field) => {
            if structural {
                if op.is_static {
                    Ok((AuxImport::StructuralClassGetter(class, field.clone()), false))
                } else {
                    Ok((AuxImport::StructuralGetter(field.clone()), false))
                }
            } else {
                let val = if op.is_static {
                    AuxValue::ClassGetter(class, field.clone())
                } else {
                    AuxValue::Getter(class, field.clone())
                };
                Ok((AuxImport::Value(val), true))
            }
        },
        OperationKind::Setter(field) => {
            if structural {
                if op.is_static {
                    Ok((AuxImport::StructuralClassSetter(class, field.clone()), false))
                } else {
                    Ok((AuxImport::StructuralSetter(field.clone()), false))
                }
            } else {
                let val = if op.is_static {
                    AuxValue::ClassSetter(class, field.clone())
                } else {
                    AuxValue::Setter(class, field.clone())
                };
                Ok((AuxImport::Value(val), true))
            }
        },
        OperationKind::IndexingGetter => {
            if !structural {
                Err(Error::IndexingNotStructural)
            } else if op.is_static {
                Ok((AuxImport::IndexingGetterOfClass(class), false))
            } else {
                Ok((AuxImport::IndexingGetterOfObject, false))
            }
        },
        OperationKind::IndexingSetter => {
            if !structural {
                Err(Error::IndexingNotStructural)
            } else if op.is_static {
                Ok((AuxImport::IndexingSetterOfClass(class), false))
            } else {
                Ok((AuxImport::IndexingSetterOfObject, false))
            }
        },
        OperationKind::IndexingDeleter => {
            if !structural {
                Err(Error::IndexingNotStructural)
            } else if op.is_static {
                Ok((AuxImport::IndexingDeleterOfClass(class), false))
            } else {
                Ok((AuxImport::IndexingDeleterOfObject, false))
            }
        },
    }
}

/// A function export of the module.
pub struct BoundaryExport {
    pub name: String,
    pub export_id: usize,
    pub function_id: usize,
}

/// An intrinsic that the glue implements, with its signature.
pub struct Intrinsic {
    pub symbol: String,
    pub binding: Function,
}

/// An import of the module.
pub struct BoundaryImport {
    pub module: String,
    pub name: String,
    pub import_id: usize,
    /// The imported function, or `None` for an import of another kind.
    pub function_id: Option<usize>,
    /// The intrinsic this import names, if any.
    pub intrinsic: Option<Intrinsic>,
}

/// What the pass reads from the module: its boundary functions, its start
/// function, and the descriptors computed for it.
pub struct ModuleBoundary {
    pub exports: Vec<BoundaryExport>,
    pub imports: Vec<BoundaryImport>,
    pub start: Option<usize>,
    pub descriptors: Vec<(String, Descriptor)>,
    pub closure_imports: Vec<(usize, Closure)>,
}

/// How the module's start function must change.
#[derive(Clone, Copy, PartialEq, Eq, Structural, Debug)]
pub enum StartAction {
    /// The function becomes the start function.
    Install(usize),
    /// A new start function calls `first`, then `then`.
    Chain { first: usize, then: usize },
}

/// The module all synthesised imports come from.
pub const PLACEHOLDER_MODULE: &'static str = "__wbindgen_placeholder__";

/// The number of snippets registered so far for a crate identifier.
pub open spec fn snippet_count(snippets: Map<Seq<char>, Seq<Seq<char>>>, crate_id: Seq<char>) -> int {
    if snippets.contains_key(crate_id) {
        snippets[crate_id].len() as int
    } else {
        0
    }
}

/// How an imported function is invoked.
pub enum CallStyle {
    Constructor,
    Method,
    Function,
}

pub open spec fn binding_model(style: CallStyle, f: FnTy) -> BindingModel {
    match style {
        CallStyle::Constructor => BindingModel::Constructor(f),
        CallStyle::Method => BindingModel::Method(f),
        CallStyle::Function => BindingModel::Function(f),
    }
}

struct Context {
    start_found: bool,
    start: Option<usize>,
    start_action: Option<StartAction>,
    bindings: WebidlCustomSection,
    aux: WasmBindgenAux,
    function_exports: NameTable<(usize, usize)>,
    function_imports: NameTable<(usize, usize)>,
    vendor_prefixes: NameTable<Vec<String>>,
    unique_crate_identifier: String,
    descriptors: NameTable<Descriptor>,
    module_imports: Vec<BoundaryImport>,
}

impl Context {
    spec fn wf(&self) -> bool {
        &&& self.function_exports.wf()
        &&& self.function_imports.wf()
        &&& self.vendor_prefixes.wf()
        &&& self.descriptors.wf()
        &&& self.aux.local_modules.wf()
        &&& self.aux.snippets.wf()
    }

    /// The model of the state of the pass.
    spec fn model(&self) -> State {
        State {
            descriptors: map_views(self.descriptors.view()),
            function_exports: self.function_exports.view(),
            function_imports: self.function_imports.view(),
            vendor_prefixes: list_views(self.vendor_prefixes.view()),
            local_modules: map_views(self.aux.local_modules.view()),
            snippets: list_views(self.aux.snippets.view()),
            crate_id: self.unique_crate_identifier@,
            start_found: self.start_found,
            start: self.start,
            start_action: self.start_action,
            exports: map_views(self.bindings.exports@),
            export_map: map_views(self.aux.export_map@),
            imports: map_views(self.bindings.imports@),
            import_map: map_views(self.aux.import_map@),
            catch: self.aux.imports_with_catch@,
            variadic: self.aux.imports_with_variadic@,
            enums: seq_views(self.aux.enums@),
            structs: seq_views(self.aux.structs@),
            extra_typescript: self.aux.extra_typescript@,
            package_jsons: strings_view(self.aux.package_jsons@),
        }
    }

    /// Where `item` of `import` resolves in the current state.
    spec fn resolve(&self, import: Import, item: Seq<char>) -> Result<JsImportModel, ErrorKind> {
        resolve_in(self.model(), import, item)
    }

    fn determine_import(&self, import: &Import, item: &String) -> (r: Result<JsImport, Error>)
        requires
            self.wf(),
        ensures
            match self.resolve(*import, item@) {
                Ok(j) => r matches Ok(x) && x@ == j,
                Err(k) => r matches Err(e) && e.kind() == k,
            },
    {
        let is_local_snippet = match &import.module {
            ImportModule::Named(s) => self.aux.local_modules.contains_key(s),
            ImportModule::RawNamed(_) => false,
            ImportModule::Inline(_) => true,
            ImportModule::Global => false,
        };
        if let Some(prefixes) = self.vendor_prefixes.get(item) {
            if is_local_snippet {
                return Err(Error::VendorPrefixInLocalSnippet(item.clone()));
            }
            if let ImportModule::Named(_) = &import.module {
                return Err(Error::VendorPrefixFromModule(item.clone()));
            }
            if import.js_namespace.is_some() {
                return Err(Error::VendorPrefixInNamespace(item.clone()));
            }
            let r = JsImport {
                name: JsImportName::VendorPrefixed { name: item.clone(), prefixes: clone_strings(prefixes) },
                fields: Vec::new(),
            };
            assert(strings_view(r.fields@) =~= Seq::<Seq<char>>::empty());
            return Ok(r);
        }
        let (name, fields): (String, Vec<String>) = match &import.js_namespace {
            Some(ns) => {
                let mut fields: Vec<String> = Vec::new();
                push_field(&mut fields, item.clone());
                (ns.clone(), fields)
            },
            None => (item.clone(), Vec::new()),
        };
        proof {
            assert(strings_view(Seq::<String>::empty()) =~= Seq::<Seq<char>>::empty());
            assert(Seq::<Seq<char>>::empty().push(item@) =~= seq![item@]);
        }
        let name = match &import.module {
            ImportModule::Named(module) => if is_local_snippet {
                JsImportName::LocalModule { module: module.clone(), name }
            } else {
                JsImportName::Module { module: module.clone(), name }
            },
            ImportModule::RawNamed(module) => JsImportName::Module { module: module.clone(), name },
            ImportModule::Inline(idx) => {
                let offset: usize = match self.aux.snippets.get(&self.unique_crate_identifier) {
                    Some(s) => s.len(),
                    None => 0,
                };
                let idx: usize = *idx as usize;
                let snippet_idx_in_crate = match idx.checked_add(offset) {
                    Some(v) => v,
                    None => return Err(Error::SnippetIndexOverflow),
                };
                JsImportName::InlineJs {
                    unique_crate_identifier: self.unique_crate_identifier.clone(),
                    snippet_idx_in_crate,
                    name,
                }
            },
            ImportModule::Global => JsImportName::Global { name },
        };
        Ok(JsImport { name, fields })
    }


    /// Binds a static-value import: a zero-argument shim returning the value.
    fn import_static(&mut self, import: &Import, static_: &ImportStatic) -> (r: Result<(), Error>)
        requires
            old(self).wf(),
        ensures
            final(self).wf(),
            final(self).module_imports == old(self).module_imports,
            match import_static_step(old(self).model(), *import, *static_) {
                Ok(s) => r is Ok && final(self).model() == s,
                Err(k) => r matches Err(e) && e.kind() == k,
            },
    {
        let import_id = match self.function_imports.get(&static_.shim) {
            Some(pair) => pair.0,
            None => return Ok(()),
        };
        let target = match self.determine_import(import, &static_.name) {
            Ok(j) => j,
            Err(e) => return Err(e),
        };
        let f = Function { arguments: Vec::new(), shim_idx: 0, ret: Descriptor::Anyref };
        proof {
            args_view_empty(f.arguments@);
        }
        let b = ImportBinding::Function(f);
        let t = AuxImport::Static(target);
        proof {
            lemma_views_insert(self.bindings.imports@, import_id, b);
            lemma_views_insert(self.aux.import_map@, import_id, t);
        }
        self.bindings.imports.insert(import_id, b);
        self.aux.import_map.insert(import_id, t);
        Ok(())
    }

    /// Binds a type import: an `instanceof` check taking the value by
    /// reference.
    fn import_type(&mut self, import: &Import, type_: &ImportType) -> (r: Result<(), Error>)
        requires
            old(self).wf(),
        ensures
            final(self).wf(),
            final(self).module_imports == old(self).module_imports,
            match import_type_step(old(self).model(), *import, *type_) {
                Ok(s) => r is Ok && final(self).model() == s,
                Err(k) => r matches Err(e) && e.kind() == k,
            },
    {
        let import_id = match self.function_imports.get(&type_.instanceof_shim) {
            Some(pair) => pair.0,
            None => return Ok(()),
        };
        let target = match self.determine_import(import, &type_.name) {
            Ok(j) => j,
            Err(e) => return Err(e),
        };
        let f = Function { arguments: vec![Descriptor::Ref(Box::new(Descriptor::Anyref))], shim_idx: 0, ret: Descriptor::I32 };
        proof {
            args_view_one(f.arguments@);
            reveal_with_fuel(Descriptor::view_ty, 2);
            assert(f.arguments@[0]@ == Ty::Ref(Box::new(Ty::Anyref)));
        }
        let b = ImportBinding::Function(f);
        let t = AuxImport::Instanceof(target);
        proof {
            lemma_views_insert(self.bindings.imports@, import_id, b);
            lemma_views_insert(self.aux.import_map@, import_id, t);
        }
        self.bindings.imports.insert(import_id, b);
        self.aux.import_map.insert(import_id, t);
        Ok(())
    }

    /// Binds a function import: claims its descriptor and records how it is
    /// invoked and what it is bound to. A rejected import leaves both
    /// records as they were.
    fn import_function(&mut self, import: &Import, function: &ImportFunction) -> (r: Result<(), Error>)
        requires
            old(self).wf(),
        ensures
            final(self).wf(),
            final(self).module_imports == old(self).module_imports,
            match import_function_step(old(self).model(), *import, *function) {
                Ok(s) => r is Ok && final(self).model() == s,
                Err(k) => r matches Err(e) && e.kind() == k,
            },
            r is Err ==> final(self).bindings == old(self).bindings && final(self).aux == old(self).aux,
    {
        let import_id = match self.function_imports.get(&function.shim) {
            Some(pair) => pair.0,
            None => return Ok(()),
        };
        if !self.descriptors.contains_key(&function.shim) {
            return Ok(());
        }
        proof {
            lemma_views_remove(self.descriptors.view(), function.shim@);
        }
        let descriptor = match self.descriptors.remove(&function.shim) {
            Some(d) => d,
            None => return Ok(()),
        };
        if !matches!(descriptor, Descriptor::Function(_)) {
            return Err(Error::NotAFunction(function.shim.clone()));
        }
        let descriptor = descriptor.unwrap_function();
        let (target, binding) = match &function.method {
            Some(data) => {
                let class = match self.determine_import(import, &data.class) {
                    Ok(c) => c,
                    Err(e) => return Err(e),
                };
                match &data.kind {
                    MethodKind::Constructor => (AuxImport::Value(AuxValue::Bare(class)), ImportBinding::Constructor(descriptor)),
                    MethodKind::Operation(op) => {
                        match determine_import_op(class, &function.function, function.structural, op) {
                            Err(e) => return Err(e),
                            Ok((target, method)) => {
                                let binding = if method {
                                    ImportBinding::Method(descriptor)
                                } else {
                                    ImportBinding::Function(descriptor)
                                };
                                (target, binding)
                            },
                        }
                    },
                }
            },
            None => {
                let name = match self.determine_import(import, &function.function.name) {
                    Ok(n) => n,
                    Err(e) => return Err(e),
                };
                (AuxImport::Value(AuxValue::Bare(name)), ImportBinding::Function(descriptor))
            },
        };
        if function.variadic {
            self.aux.imports_with_variadic.insert(import_id);
        }
        if function.catch {
            self.aux.imports_with_catch.insert(import_id);
        }
        proof {
            lemma_views_insert(self.bindings.imports@, import_id, binding);
            lemma_views_insert(self.aux.import_map@, import_id, target);
        }
        self.bindings.imports.insert(import_id, binding);
        self.aux.import_map.insert(import_id, target);
        Ok(())
    }

    /// Makes function `id` the start function, or chains it after the one
    /// the module has.
    fn add_start_function(&mut self, id: usize) -> (r: Result<(), Error>)
        ensures
            old(self).wf() ==> final(self).wf(),
            old(self).start_found ==> *final(self) == *old(self) && (r matches Err(e) && e.kind() == ErrorKind::TwoStartFunctions),
            !old(self).start_found ==> {
                &&& r is Ok
                &&& final(self).model() == (State {
                    start_found: true,
                    start_action: Some(match old(self).start {
                        None => StartAction::Install(id),
                        Some(prev) => StartAction::Chain { first: prev, then: id },
                    }),
                    ..old(self).model()
                })
                &&& final(self).bindings == old(self).bindings
                &&& final(self).aux == old(self).aux
                &&& final(self).module_imports == old(self).module_imports
            },
    {
        if self.start_found {
            return Err(Error::TwoStartFunctions);
        }
        self.start_found = true;
        // The previous start function runs first: start functions injected
        // by earlier transforms must run before user code.
        let action = match self.start {
            None => StartAction::Install(id),
            Some(prev) => StartAction::Chain { first: prev, then: id },
        };
        self.start_action = Some(action);
        Ok(())
    }

    /// Binds an export: claims its descriptor, places it, and registers it as
    /// the start function if it is marked so. A rejected export leaves both
    /// records and the start function as they were.
    fn export(&mut self, export: &Export) -> (r: Result<(), Error>)
        requires
            old(self).wf(),
        ensures
            final(self).wf(),
            final(self).module_imports == old(self).module_imports,
            match export_step(old(self).model(), *export) {
                Ok(s) => r is Ok && final(self).model() == s,
                Err(k) => r matches Err(e) && e.kind() == k,
            },
            r is Err ==> {
                &&& final(self).bindings == old(self).bindings
                &&& final(self).aux == old(self).aux
                &&& final(self).start_action == old(self).start_action
            },
    {
        let wasm_name = match &export.class {
            Some(class) => struct_function_export_name(class, &export.function.name),
            None => export.function.name.clone(),
        };
        if !self.descriptors.contains_key(&wasm_name) {
            return Ok(());
        }
        proof {
            lemma_views_remove(self.descriptors.view(), wasm_name@);
        }
        let descriptor = match self.descriptors.remove(&wasm_name) {
            Some(d) => d,
            None => return Ok(()),
        };
        if !matches!(descriptor, Descriptor::Function(_)) {
            return Err(Error::NotAFunction(wasm_name));
        }
        let mut descriptor = descriptor.unwrap_function();
        let (export_id, id) = match self.function_exports.get(&wasm_name) {
            Some(pair) => *pair,
            None => return Err(Error::MissingExport(wasm_name)),
        };
        if export.start {
            match self.add_start_function(id) {
                Ok(()) => {},
                Err(e) => return Err(e),
            }
        }
        let ghost plain = descriptor@;
        let ghost plain_args = descriptor.arguments@;
        let kind = match &export.class {
            Some(class) => {
                let class = class.clone();
                match &export.method_kind {
                    MethodKind::Constructor => AuxExportKind::Constructor(class),
                    MethodKind::Operation(op) => match &op.kind {
                        OperationKind::Getter(f) => {
                            descriptor.arguments.insert(0, Descriptor::I32);
                            AuxExportKind::Getter { class, field: f.clone() }
                        },
                        OperationKind::Setter(f) => {
                            descriptor.arguments.insert(0, Descriptor::I32);
                            AuxExportKind::Setter { class, field: f.clone() }
                        },
                        _ => if op.is_static {
                            AuxExportKind::StaticFunction { class, name: export.function.name.clone() }
                        } else {
                            descriptor.arguments.insert(0, Descriptor::I32);
                            AuxExportKind::Method { class, name: export.function.name.clone(), consumed: export.consumed }
                        },
                    },
                }
            },
            None => AuxExportKind::Function(export.function.name.clone()),
        };
        proof {
            let (_, implicit) = export_placement(*export);
            lemma_args_view_index(descriptor.arguments@);
            lemma_args_view_index(plain_args);
            if implicit {
                assert(args_view(descriptor.arguments@) =~= seq![Ty::I32] + plain.arguments);
            }
        }
        let aux = AuxExport {
            debug_name: wasm_name,
            comments: concatenate_comments(&export.comments),
            arg_names: Some(clone_strings(&export.function.arg_names)),
            kind,
        };
        proof {
            lemma_views_insert(self.aux.export_map@, export_id, aux);
            lemma_views_insert(self.bindings.exports@, export_id, descriptor);
        }
        self.aux.export_map.insert(export_id, aux);
        self.bindings.exports.insert(export_id, descriptor);
        Ok(())
    }

    /// Binds one import declaration according to its kind.
    fn import(&mut self, import: &Import) -> (r: Result<(), Error>)
        requires
            old(self).wf(),
        ensures
            final(self).wf(),
            final(self).module_imports == old(self).module_imports,
            match import_step(old(self).model(), *import) {
                Ok(s) => r is Ok && final(self).model() == s,
                Err(k) => r matches Err(e) && e.kind() == k,
            },
    {
        match &import.kind {
            ImportKind::Function(f) => self.import_function(import, f),
            ImportKind::Static(s) => self.import_static(import, s),
            ImportKind::Type(t) => self.import_type(import, t),
            ImportKind::Enum => Ok(()),
        }
    }

    /// Adds the vendor prefixes that a type import declares.
    fn add_vendor_prefixes(&mut self, import: &Import)
        requires
            old(self).wf(),
        ensures
            final(self).wf(),
            final(self).module_imports == old(self).module_imports,
            final(self).model() == vendor_step(old(self).model(), *import),
    {
        let ty = match &import.kind {
            ImportKind::Type(ty) => ty,
            _ => return,
        };
        if ty.vendor_prefixes.len() == 0 {
            return;
        }
        let ghost v0 = self.vendor_prefixes.view();
        let mut list = match self.vendor_prefixes.remove(&ty.name) {
            Some(v) => v,
            None => Vec::new(),
        };
        proof {
            assert(strings_view(Seq::<String>::empty()) =~= Seq::<Seq<char>>::empty());
        }
        extend_strings(&mut list, &ty.vendor_prefixes);
        let ghost l = list;
        self.vendor_prefixes.insert(ty.name.clone(), list);
        proof {
            assert(v0.remove(ty.name@).insert(ty.name@, l) =~= v0.insert(ty.name@, l));
            lemma_list_views_insert(v0, ty.name@, l);
        }
    }

    /// Records an enum declaration verbatim.
    fn enum_(&mut self, enum_: &Enum) -> (r: Result<(), Error>)
        ensures
            old(self).wf() ==> final(self).wf(),
            final(self).module_imports == old(self).module_imports,
            r is Ok,
            final(self).model() == enum_step(old(self).model(), *enum_),
    {
        let mut variants: Vec<(String, u32)> = Vec::new();
        let mut i: usize = 0;
        while i < enum_.variants.len()
            invariant
                i <= enum_.variants@.len(),
                variants_view(variants@) == enum_.variants@.subrange(0, i as int).map_values(|v: EnumVariant| (v.name@, v.value)),
            decreases enum_.variants@.len() - i,
        {
            let v = &enum_.variants[i];
            let pair = (v.name.clone(), v.value);
            proof {
                assert(variants_view(variants@.push(pair)) =~= variants_view(variants@).push((v.name@, v.value)));
                assert(enum_.variants@.subrange(0, i + 1).map_values(|v: EnumVariant| (v.name@, v.value))
                    =~= enum_.variants@.subrange(0, i as int).map_values(|v: EnumVariant| (v.name@, v.value)).push((v.name@, v.value)));
            }
            variants.push(pair);
            i = i + 1;
        }
        proof {
            assert(enum_.variants@.subrange(0, enum_.variants@.len() as int) =~= enum_.variants@);
        }
        let aux = AuxEnum { name: enum_.name.clone(), comments: concatenate_comments(&enum_.comments), variants };
        proof {
            lemma_seq_views_push(self.aux.enums@, aux);
        }
        self.aux.enums.push(aux);
        Ok(())
    }

    /// Registers a struct declaration: synthesises the accessor signatures of
    /// its used fields and binds the import that wraps a pointer into an
    /// instance.
    fn struct_(&mut self, struct_: &Struct) -> (r: Result<(), Error>)
        requires
            old(self).wf(),
        ensures
            final(self).wf(),
            final(self).module_imports == old(self).module_imports,
            match struct_step(old(self).model(), *struct_) {
                Ok(s) => r is Ok && final(self).model() == s,
                Err(k) => r matches Err(e) && e.kind() == k,
            },
    {
        let ghost m0 = self.model();
        let mut i: usize = 0;
        while i < struct_.fields.len()
            invariant
                self.wf(),
                i <= struct_.fields@.len(),
                self.module_imports == old(self).module_imports,
                m0 == old(self).model(),
                fields_fold(m0, *struct_, i as nat) == Ok::<State, ErrorKind>(self.model()),
            decreases struct_.fields@.len() - i,
        {
            let field = &struct_.fields[i];
            let getter = struct_field_get(&struct_.name, &field.name);
            let setter = struct_field_set(&struct_.name, &field.name);
            let ghost s = self.model();
            let ghost dv = self.descriptors.view();
            proof {
                assert(getter@ == getter_of(*struct_, i as int));
                assert(setter@ == setter_of(*struct_, i as int));
                lemma_views_remove(dv, getter@);
                if !dv.contains_key(getter@) {
                    assert(dv.remove(getter@) =~= dv);
                }
            }
            let descriptor = match self.descriptors.remove(&getter) {
                None => {
                    i = i + 1;
                    continue;
                },
                Some(d) => d,
            };
            let getter_id = match self.function_exports.get(&getter) {
                Some(pair) => pair.0,
                None => {
                    proof {
                        lemma_fields_err(m0, *struct_, (i + 1) as nat, struct_.fields@.len());
                    }
                    return Err(Error::MissingExport(getter));
                },
            };
            let ghost ty = descriptor@;
            let mut args: Vec<Descriptor> = Vec::new();
            args.push(Descriptor::I32);
            let getter_descriptor = Function { arguments: args, shim_idx: 0, ret: descriptor.duplicate() };
            proof {
                args_view_one(getter_descriptor.arguments@);
                lemma_views_insert(self.bindings.exports@, getter_id, getter_descriptor);
            }
            self.bindings.exports.insert(getter_id, getter_descriptor);
            let getter_export = AuxExport {
                debug_name: accessor_debug_name_of("getter", &struct_.name, &field.name),
                arg_names: None,
                comments: concatenate_comments(&field.comments),
                kind: AuxExportKind::Getter { class: struct_.name.clone(), field: field.name.clone() },
            };
            proof {
                lemma_views_insert(self.aux.export_map@, getter_id, getter_export);
            }
            self.aux.export_map.insert(getter_id, getter_export);
            if !field.readonly {
                let setter_id = match self.function_exports.get(&setter) {
                    Some(pair) => pair.0,
                    None => {
                        proof {
                            lemma_fields_err(m0, *struct_, (i + 1) as nat, struct_.fields@.len());
                        }
                        return Err(Error::MissingExport(setter));
                    },
                };
                let mut args: Vec<Descriptor> = Vec::new();
                args.push(Descriptor::I32);
                args.push(descriptor);
                let setter_descriptor = Function { arguments: args, shim_idx: 0, ret: Descriptor::Unit };
                proof {
                    lemma_args_view_index(setter_descriptor.arguments@);
                    assert(args_view(setter_descriptor.arguments@) =~= seq![Ty::I32, ty]);
                    lemma_views_insert(self.bindings.exports@, setter_id, setter_descriptor);
                }
                self.bindings.exports.insert(setter_id, setter_descriptor);
                let setter_export = AuxExport {
                    debug_name: accessor_debug_name_of("setter", &struct_.name, &field.name),
                    arg_names: None,
                    comments: concatenate_comments(&field.comments),
                    kind: AuxExportKind::Setter { class: struct_.name.clone(), field: field.name.clone() },
                };
                proof {
                    lemma_views_insert(self.aux.export_map@, setter_id, setter_export);
                }
                self.aux.export_map.insert(setter_id, setter_export);
            }
            i = i + 1;
        }
        let aux = AuxStruct { name: struct_.name.clone(), comments: concatenate_comments(&struct_.comments) };
        proof {
            lemma_seq_views_push(self.aux.structs@, aux);
        }
        self.aux.structs.push(aux);
        let wrap_constructor = new_function(&struct_.name);
        let import_id = match self.function_imports.get(&wrap_constructor) {
            Some(pair) => pair.0,
            None => return Ok(()),
        };
        let t = AuxImport::WrapInExportedClass(struct_.name.clone());
        proof {
            lemma_views_insert(self.aux.import_map@, import_id, t);
        }
        self.aux.import_map.insert(import_id, t);
        let mut args: Vec<Descriptor> = Vec::new();
        args.push(Descriptor::I32);
        let binding = Function { shim_idx: 0, arguments: args, ret: Descriptor::Anyref };
        proof {
            args_view_one(binding.arguments@);
        }
        let b = ImportBinding::Function(binding);
        proof {
            lemma_views_insert(self.bindings.imports@, import_id, b);
        }
        self.bindings.imports.insert(import_id, b);
        Ok(())
    }

    /// Indexes the module's boundary functions and takes in the descriptor
    /// table.
    fn init(module: ModuleBoundary) -> (cx: Context)
        ensures
            cx.wf(),
            cx.model() == init_state(module),
            cx.module_imports@ == module.imports@,
    {
        let mut function_exports: NameTable<(usize, usize)> = NameTable::new();
        let mut i: usize = 0;
        while i < module.exports.len()
            invariant
                i <= module.exports@.len(),
                function_exports.wf(),
                function_exports.view() == export_table(module.exports@.subrange(0, i as int)),
            decreases module.exports@.len() - i,
        {
            let e = &module.exports[i];
            proof {
                assert(module.exports@.subrange(0, i + 1).drop_last() =~= module.exports@.subrange(0, i as int));
            }
            function_exports.insert(e.name.clone(), (e.export_id, e.function_id));
            i = i + 1;
        }
        proof {
            assert(module.exports@.subrange(0, module.exports@.len() as int) =~= module.exports@);
        }

        let placeholder = owned(PLACEHOLDER_MODULE);
        let mut function_imports: NameTable<(usize, usize)> = NameTable::new();
        let mut bindings = WebidlCustomSection { exports: HashMap::new(), imports: HashMap::new() };
        let mut import_map: HashMap<usize, AuxImport> = HashMap::new();
        proof {
            assert(map_views(bindings.imports@) =~= Map::<usize, BindingModel>::empty());
            assert(map_views(import_map@) =~= Map::<usize, AuxImportModel>::empty());
        }
        let mut i: usize = 0;
        while i < module.imports.len()
            invariant
                i <= module.imports@.len(),
                placeholder@ == PLACEHOLDER_MODULE@,
                function_imports.wf(),
                bindings.exports@ == Map::<usize, Function>::empty(),
                function_imports.view() == import_scan(module.imports@.subrange(0, i as int)).function_imports,
                map_views(bindings.imports@) == import_scan(module.imports@.subrange(0, i as int)).imports,
                map_views(import_map@) == import_scan(module.imports@.subrange(0, i as int)).import_map,
            decreases module.imports@.len() - i,
        {
            let import = &module.imports[i];
            proof {
                assert(module.imports@.subrange(0, i + 1).drop_last() =~= module.imports@.subrange(0, i as int));
            }
            if import.module == placeholder {
                if let Some(f) = import.function_id {
                    function_imports.insert(import.name.clone(), (import.import_id, f));
                    if let Some(intrinsic) = &import.intrinsic {
                        let b = ImportBinding::Function(intrinsic.binding.duplicate());
                        let t = AuxImport::Intrinsic(intrinsic.symbol.clone());
                        proof {
                            lemma_views_insert(bindings.imports@, import.import_id, b);
                            lemma_views_insert(import_map@, import.import_id, t);
                        }
                        bindings.imports.insert(import.import_id, b);
                        import_map.insert(import.import_id, t);
                    }
                }
            }
            i = i + 1;
        }
        proof {
            assert(module.imports@.subrange(0, module.imports@.len() as int) =~= module.imports@);
        }

        let mut descriptors: NameTable<Descriptor> = NameTable::new();
        proof {
            assert(map_views(descriptors.view()) =~= Map::<Seq<char>, Ty>::empty());
        }
        let mut i: usize = 0;
        while i < module.descriptors.len()
            invariant
                i <= module.descriptors@.len(),
                descriptors.wf(),
                map_views(descriptors.view()) == descriptor_table(module.descriptors@.subrange(0, i as int)),
            decreases module.descriptors@.len() - i,
        {
            let (name, d) = &module.descriptors[i];
            proof {
                assert(module.descriptors@.subrange(0, i + 1).drop_last() =~= module.descriptors@.subrange(0, i as int));
            }
            let copy = d.duplicate();
            proof {
                lemma_views_insert(descriptors.view(), name@, copy);
            }
            descriptors.insert(name.clone(), copy);
            i = i + 1;
        }
        proof {
            assert(module.descriptors@.subrange(0, module.descriptors@.len() as int) =~= module.descriptors@);
        }

        let ghost t0 = import_scan(module.imports@);
        let mut i: usize = 0;
        while i < module.closure_imports.len()
            invariant
                i <= module.closure_imports@.len(),
                bindings.exports@ == Map::<usize, Function>::empty(),
                t0 == import_scan(module.imports@),
                map_views(bindings.imports@) == closure_scan(t0, module.closure_imports@.subrange(0, i as int)).imports,
                map_views(import_map@) == closure_scan(t0, module.closure_imports@.subrange(0, i as int)).import_map,
                closure_scan(t0, module.closure_imports@.subrange(0, i as int)).function_imports == t0.function_imports,
            decreases module.closure_imports@.len() - i,
        {
            let (id, c) = &module.closure_imports[i];
            proof {
                assert(module.closure_imports@.subrange(0, i + 1).drop_last() =~= module.closure_imports@.subrange(0, i as int));
            }
            let closure = Closure { shim_idx: c.shim_idx, dtor_idx: c.dtor_idx, function: c.function.duplicate(), mutable: c.mutable };
            let t = AuxImport::Closure(closure);
            let binding = Function {
                shim_idx: 0,
                arguments: vec![Descriptor::I32, Descriptor::I32, Descriptor::I32],
                ret: Descriptor::Anyref,
            };
            proof {
                lemma_args_view_index(binding.arguments@);
                assert(args_view(binding.arguments@) =~= seq![Ty::I32, Ty::I32, Ty::I32]);
            }
            let b = ImportBinding::Function(binding);
            proof {
                lemma_views_insert(import_map@, *id, t);
                lemma_views_insert(bindings.imports@, *id, b);
            }
            import_map.insert(*id, t);
            bindings.imports.insert(*id, b);
            i = i + 1;
        }
        proof {
            assert(module.closure_imports@.subrange(0, module.closure_imports@.len() as int) =~= module.closure_imports@);
        }

        let aux = WasmBindgenAux {
            extra_typescript: String::new(),
            local_modules: NameTable::new(),
            snippets: NameTable::new(),
            package_jsons: Vec::new(),
            export_map: HashMap::new(),
            import_map,
            imports_with_catch: HashSet::new(),
            imports_with_variadic: HashSet::new(),
            enums: Vec::new(),
            structs: Vec::new(),
        };
        let cx = Context {
            start_found: false,
            start: module.start,
            start_action: None,
            bindings,
            aux,
            function_exports,
            function_imports,
            vendor_prefixes: NameTable::new(),
            unique_crate_identifier: String::new(),
            descriptors,
            module_imports: module.imports,
        };
        proof {
            assert(map_views(cx.bindings.exports@) =~= Map::<usize, FnTy>::empty());
            assert(map_views(cx.aux.export_map@) =~= Map::<usize, AuxExportModel>::empty());
            assert(list_views(cx.vendor_prefixes.view()) =~= Map::<Seq<char>, Seq<Seq<char>>>::empty());
            assert(list_views(cx.aux.snippets.view()) =~= Map::<Seq<char>, Seq<Seq<char>>>::empty());
            assert(map_views(cx.aux.local_modules.view()) =~= Map::<Seq<char>, Seq<char>>::empty());
            assert(seq_views(cx.aux.enums@) =~= Seq::<AuxEnumModel>::empty());
            assert(seq_views(cx.aux.structs@) =~= Seq::<AuxStructModel>::empty());
            assert(strings_view(cx.aux.package_jsons@) =~= Seq::<Seq<char>>::empty());
            assert(cx.model() =~= init_state(module));
        }
        cx
    }

    /// Processes one program unit: its local modules, exports, imports,
    /// enums, structs, typescript and inline snippets, in that order.
    fn program(&mut self, program: &Program) -> (r: Result<(), Error>)
        requires
            old(self).wf(),
        ensures
            final(self).wf(),
            final(self).module_imports == old(self).module_imports,
            match unit_step(old(self).model(), *program) {
                Ok(s) => r is Ok && final(self).model() == s,
                Err(k) => r matches Err(e) && e.kind() == k,
            },
    {
        let ghost m0 = self.model();
        self.unique_crate_identifier = program.unique_crate_identifier.clone();
        let ghost s0 = self.model();
        assert(s0 == with_crate(m0, *program));
        let mut i: usize = 0;
        while i < program.local_modules.len()
            invariant
                self.wf(),
                i <= program.local_modules@.len(),
                self.module_imports == old(self).module_imports,
                m0 == old(self).model(),
                s0 == with_crate(m0, *program),
                modules_fold(s0, program.local_modules@.subrange(0, i as int)) == Ok::<State, ErrorKind>(self.model()),
            decreases program.local_modules@.len() - i,
        {
            let module = &program.local_modules[i];
            proof {
                assert(program.local_modules@.subrange(0, i + 1).drop_last() =~= program.local_modules@.subrange(0, i as int));
            }
            let contents = module.contents.clone();
            proof {
                lemma_views_insert(self.aux.local_modules.view(), module.identifier@, contents);
            }
            let prev = self.aux.local_modules.insert(module.identifier.clone(), contents);
            if let Some(prev) = prev {
                if prev != module.contents {
                    proof {
                        lemma_modules_err(s0, program.local_modules@, i + 1);
                    }
                    return Err(Error::LocalModuleMismatch(module.identifier.clone()));
                }
            }
            i = i + 1;
        }
        proof {
            assert(program.local_modules@.subrange(0, program.local_modules@.len() as int) =~= program.local_modules@);
        }
        if let Some(s) = &program.package_json {
            insert_unique(&mut self.aux.package_jsons, s);
        }
        assert(before_exports(m0, *program) == Ok::<State, ErrorKind>(self.model()));
        let mut i: usize = 0;
        while i < program.exports.len()
            invariant
                self.wf(),
                i <= program.exports@.len(),
                self.module_imports == old(self).module_imports,
                m0 == old(self).model(),
                before_exports(m0, *program) is Ok,
                exports_fold(before_exports(m0, *program)->Ok_0, program.exports@.subrange(0, i as int))
                    == Ok::<State, ErrorKind>(self.model()),
            decreases program.exports@.len() - i,
        {
            proof {
                assert(program.exports@.subrange(0, i + 1).drop_last() =~= program.exports@.subrange(0, i as int));
            }
            match self.export(&program.exports[i]) {
                Ok(()) => {},
                Err(e) => {
                    proof {
                        lemma_exports_err(before_exports(m0, *program)->Ok_0, program.exports@, i + 1);
                    }
                    return Err(e);
                },
            }
            i = i + 1;
        }
        proof {
            assert(program.exports@.subrange(0, program.exports@.len() as int) =~= program.exports@);
        }
        let ghost s3 = self.model();
        let mut i: usize = 0;
        while i < program.imports.len()
            invariant
                self.wf(),
                i <= program.imports@.len(),
                self.module_imports == old(self).module_imports,
                m0 == old(self).model(),
                before_exports(m0, *program) is Ok,
                exports_fold(before_exports(m0, *program)->Ok_0, program.exports@) == Ok::<State, ErrorKind>(s3),
                vendor_fold(s3, program.imports@.subrange(0, i as int)) == self.model(),
            decreases program.imports@.len() - i,
        {
            proof {
                assert(program.imports@.subrange(0, i + 1).drop_last() =~= program.imports@.subrange(0, i as int));
            }
            self.add_vendor_prefixes(&program.imports[i]);
            i = i + 1;
        }
        proof {
            assert(program.imports@.subrange(0, program.imports@.len() as int) =~= program.imports@);
        }
        assert(before_imports(m0, *program) == Ok::<State, ErrorKind>(self.model()));
        let mut i: usize = 0;
        while i < program.imports.len()
            invariant
                self.wf(),
                i <= program.imports@.len(),
                self.module_imports == old(self).module_imports,
                m0 == old(self).model(),
                before_imports(m0, *program) is Ok,
                imports_fold(before_imports(m0, *program)->Ok_0, program.imports@.subrange(0, i as int))
                    == Ok::<State, ErrorKind>(self.model()),
            decreases program.imports@.len() - i,
        {
            proof {
                assert(program.imports@.subrange(0, i + 1).drop_last() =~= program.imports@.subrange(0, i as int));
            }
            match self.import(&program.imports[i]) {
                Ok(()) => {},
                Err(e) => {
                    proof {
                        lemma_imports_err(before_imports(m0, *program)->Ok_0, program.imports@, i + 1);
                    }
                    return Err(e);
                },
            }
            i = i + 1;
        }
        proof {
            assert(program.imports@.subrange(0, program.imports@.len() as int) =~= program.imports@);
        }
        let ghost s5 = self.model();
        let mut i: usize = 0;
        while i < program.enums.len()
            invariant
                self.wf(),
                i <= program.enums@.len(),
                self.module_imports == old(self).module_imports,
                m0 == old(self).model(),
                before_imports(m0, *program) is Ok,
                imports_fold(before_imports(m0, *program)->Ok_0, program.imports@) == Ok::<State, ErrorKind>(s5),
                enums_fold(s5, program.enums@.subrange(0, i as int)) == self.model(),
            decreases program.enums@.len() - i,
        {
            proof {
                assert(program.enums@.subrange(0, i + 1).drop_last() =~= program.enums@.subrange(0, i as int));
            }
            let _ = self.enum_(&program.enums[i]);
            i = i + 1;
        }
        proof {
            assert(program.enums@.subrange(0, program.enums@.len() as int) =~= program.enums@);
        }
        assert(before_structs(m0, *program) == Ok::<State, ErrorKind>(self.model()));
        let mut i: usize = 0;
        while i < program.structs.len()
            invariant
                self.wf(),
                i <= program.structs@.len(),
                self.module_imports == old(self).module_imports,
                m0 == old(self).model(),
                before_structs(m0, *program) is Ok,
                structs_fold(before_structs(m0, *program)->Ok_0, program.structs@.subrange(0, i as int))
                    == Ok::<State, ErrorKind>(self.model()),
            decreases program.structs@.len() - i,
        {
            proof {
                assert(program.structs@.subrange(0, i + 1).drop_last() =~= program.structs@.subrange(0, i as int));
            }
            match self.struct_(&program.structs[i]) {
                Ok(()) => {},
                Err(e) => {
                    proof {
                        lemma_structs_err(before_structs(m0, *program)->Ok_0, program.structs@, i + 1);
                    }
                    return Err(e);
                },
            }
            i = i + 1;
        }
        proof {
            assert(program.structs@.subrange(0, program.structs@.len() as int) =~= program.structs@);
        }
        let ghost s7 = self.model();
        let mut i: usize = 0;
        while i < program.typescript_custom_sections.len()
            invariant
                self.wf(),
                i <= program.typescript_custom_sections@.len(),
                self.module_imports == old(self).module_imports,
                m0 == old(self).model(),
                before_structs(m0, *program) is Ok,
                structs_fold(before_structs(m0, *program)->Ok_0, program.structs@) == Ok::<State, ErrorKind>(s7),
                self.model() == (State {
                    extra_typescript: s7.extra_typescript + typescript_text(strings_view(program.typescript_custom_sections@.subrange(0, i as int))),
                    ..s7
                }),
            decreases program.typescript_custom_sections@.len() - i,
        {
            push_str(&mut self.aux.extra_typescript, program.typescript_custom_sections[i].as_str());
            push_str(&mut self.aux.extra_typescript, "\n\n");
            proof {
                let cs = strings_view(program.typescript_custom_sections@.subrange(0, i + 1));
                assert(cs.drop_last() =~= strings_view(program.typescript_custom_sections@.subrange(0, i as int)));
                assert(self.aux.extra_typescript@ =~= s7.extra_typescript + typescript_text(cs));
            }
            i = i + 1;
        }
        proof {
            assert(program.typescript_custom_sections@.subrange(0, program.typescript_custom_sections@.len() as int)
                =~= program.typescript_custom_sections@);
        }
        let ghost sv = self.aux.snippets.view();
        let mut list = match self.aux.snippets.remove(&program.unique_crate_identifier) {
            Some(v) => v,
            None => Vec::new(),
        };
        proof {
            assert(strings_view(Seq::<String>::empty()) =~= Seq::<Seq<char>>::empty());
        }
        extend_strings(&mut list, &program.inline_js);
        let ghost l = list;
        self.aux.snippets.insert(program.unique_crate_identifier.clone(), list);
        proof {
            assert(sv.remove(program.unique_crate_identifier@).insert(program.unique_crate_identifier@, l)
                =~= sv.insert(program.unique_crate_identifier@, l));
            lemma_list_views_insert(sv, program.unique_crate_identifier@, l);
        }
        Ok(())
    }
}

/// The name of the getter symbol of a struct field.
pub uninterp spec fn struct_field_get_of(class: Seq<char>, field: Seq<char>) -> Seq<char>;

/// The name of the setter symbol of a struct field.
pub uninterp spec fn struct_field_set_of(class: Seq<char>, field: Seq<char>) -> Seq<char>;

/// The name of the import that wraps a pointer into an instance of a class.
pub uninterp spec fn new_function_of(class: Seq<char>) -> Seq<char>;

/// Relies on `wasm_bindgen_shared::struct_field_get`: the getter symbol
/// depends on the two names alone.
#[verifier::external_body]
fn struct_field_get(class: &String, field: &String) -> (r: String)
    ensures
        r@ == struct_field_get_of(class@, field@),
{
    wasm_bindgen_shared::struct_field_get(class, field)
}

/// Relies on `wasm_bindgen_shared::struct_field_set`: the setter symbol
/// depends on the two names alone.
#[verifier::external_body]
fn struct_field_set(class: &String, field: &String) -> (r: String)
    ensures
        r@ == struct_field_set_of(class@, field@),
{
    wasm_bindgen_shared::struct_field_set(class, field)
}

/// Relies on `wasm_bindgen_shared::new_function`: the wrapping import's
/// name depends on the class name alone.
#[verifier::external_body]
fn new_function(class: &String) -> (r: String)
    ensures
        r@ == new_function_of(class@),
{
    wasm_bindgen_shared::new_function(class)
}


/// The getter symbol of field `i`.
pub open spec fn getter_of(s: Struct, i: int) -> Seq<char> {
    struct_field_get_of(s.name@, s.fields@[i].name@)
}

/// The setter symbol of field `i`.
pub open spec fn setter_of(s: Struct, i: int) -> Seq<char> {
    struct_field_set_of(s.name@, s.fields@[i].name@)
}

/// A debug name such as ``getter for `Point::x` ``.
pub open spec fn accessor_debug_name(what: Seq<char>, class: Seq<char>, field: Seq<char>) -> Seq<char> {
    what + " for `"@ + class + "::"@ + field + "`"@
}

fn accessor_debug_name_of(what: &str, class: &String, field: &String) -> (r: String)
    ensures
        r@ == accessor_debug_name(what@, class@, field@),
{
    let mut r = String::new();
    push_str(&mut r, what);
    push_str(&mut r, " for `");
    push_str(&mut r, class.as_str());
    push_str(&mut r, "::");
    push_str(&mut r, field.as_str());
    push_str(&mut r, "`");
    proof {
        assert(r@ =~= accessor_debug_name(what@, class@, field@));
    }
    r
}

/// Whether an import comes from the placeholder module.
pub open spec fn is_placeholder(i: BoundaryImport) -> bool {
    i.module@ == PLACEHOLDER_MODULE@
}

/// The number of placeholder imports in a list.
pub open spec fn placeholder_count(s: Seq<BoundaryImport>) -> nat
    decreases s.len(),
{
    if s.len() == 0 {
        0
    } else {
        placeholder_count(s.drop_last()) + if is_placeholder(s.last()) { 1nat } else { 0nat }
    }
}

/// The closing consistency of the two records: every placeholder import is
/// a function with exactly one placement and one signature, no entry
/// belongs to anything else, and every export signature has a placement.
pub open spec fn records_consistent(imports: Seq<BoundaryImport>, b: WebidlCustomSection, a: WasmBindgenAux) -> bool {
    &&& forall|i: int| 0 <= i < imports.len() && is_placeholder(#[trigger] imports[i]) ==> {
        &&& imports[i].function_id is Some
        &&& a.import_map@.contains_key(imports[i].import_id)
        &&& b.imports@.contains_key(imports[i].import_id)
    }
    &&& a.import_map@.len() == placeholder_count(imports)
    &&& b.imports@.len() == placeholder_count(imports)
    &&& forall|k: usize| #[trigger] b.exports@.contains_key(k) ==> a.export_map@.contains_key(k)
    &&& b.exports@.len() == a.export_map@.len()
}

/// Checks that the records are consistent with the module's imports before
/// they are handed on; it never repairs them.
pub fn verify(imports: &Vec<BoundaryImport>, bindings: &WebidlCustomSection, aux: &WasmBindgenAux) -> (r: Result<(), Error>)
    ensures
        r is Ok <==> records_consistent(imports@, *bindings, *aux),
{
    let placeholder = owned(PLACEHOLDER_MODULE);
    let mut counted: usize = 0;
    let mut i: usize = 0;
    while i < imports.len()
        invariant
                i <= imports@.len(),
                placeholder@ == PLACEHOLDER_MODULE@,
                counted == placeholder_count(imports@.subrange(0, i as int)),
                counted <= i,
                forall|j: int| 0 <= j < i && is_placeholder(#[trigger] imports@[j]) ==> {
                &&& imports@[j].function_id is Some
                &&& aux.import_map@.contains_key(imports@[j].import_id)
                &&& bindings.imports@.contains_key(imports@[j].import_id)
                },
        decreases imports@.len() - i,
    {
        let import = &imports[i];
        proof {
            assert(imports@.subrange(0, i + 1).drop_last() =~= imports@.subrange(0, i as int));
        }
        if import.module == placeholder {
            if import.function_id.is_none() {
                return Err(Error::ImportNotAFunction(import.name.clone()));
            }
            if !aux.import_map.contains_key(&import.import_id) {
                return Err(Error::MissingImportTarget(import.name.clone()));
            }
            if !bindings.imports.contains_key(&import.import_id) {
                return Err(Error::MissingImportBinding(import.name.clone()));
            }
            counted = counted + 1;
        }
        i = i + 1;
    }
    proof {
        assert(imports@.subrange(0, imports@.len() as int) =~= imports@);
    }
    if aux.import_map.len() != counted {
        return Err(Error::ImportMapTooLarge);
    }
    if bindings.imports.len() != counted {
        return Err(Error::ImportBindingsTooLarge);
    }
    for id in iter: bindings.exports.keys()
        invariant
                forall|j: int| 0 <= j < iter.index() ==> aux.export_map@.contains_key(*#[trigger] iter.seq()[j]),
                iter.seq().unref().to_set() == bindings.exports@.dom(),
    {
        proof {
                assert(iter.seq().unref()[iter.index() as int] == *id);
                assert(iter.seq().unref().to_set().contains(*id));
        }
        if !aux.export_map.contains_key(id) {
                return Err(Error::ExportWithoutPlacement);
        }
    }
    proof {
        assert forall|k: usize| #[trigger] bindings.exports@.contains_key(k) implies aux.export_map@.contains_key(k) by {
                assert(bindings.exports@.dom().contains(k));
        }
    }
    if bindings.exports.len() != aux.export_map.len() {
        return Err(Error::ExportMapSizeMismatch);
    }
    Ok(())
}

/// The typescript sections, each followed by a blank line.
pub open spec fn typescript_text(sections: Seq<Seq<char>>) -> Seq<char>
    decreases sections.len(),
{
    if sections.len() == 0 {
        Seq::empty()
    } else {
        typescript_text(sections.drop_last()) + sections.last() + "\n\n"@
    }
}

/// The snippets registered so far for a crate identifier.
pub open spec fn snippets_of(snippets: Map<Seq<char>, Seq<Seq<char>>>, crate_id: Seq<char>) -> Seq<Seq<char>> {
    if snippets.contains_key(crate_id) {
        snippets[crate_id]
    } else {
        Seq::empty()
    }
}

/// Appends copies of `src` to `dst`.
fn extend_strings(dst: &mut Vec<String>, src: &Vec<String>)
    ensures
        strings_view(final(dst)@) == strings_view(old(dst)@) + strings_view(src@),
{
    let mut i: usize = 0;
    while i < src.len()
        invariant
                i <= src@.len(),
                strings_view(dst@) == strings_view(old(dst)@) + strings_view(src@.subrange(0, i as int)),
        decreases src@.len() - i,
    {
        let ghost before = dst@;
        dst.push(src[i].clone());
        proof {
            assert(strings_view(dst@) =~= strings_view(before).push(src@[i as int]@));
            assert(strings_view(src@.subrange(0, i + 1)) =~= strings_view(src@.subrange(0, i as int)).push(src@[i as int]@));
        }
        i = i + 1;
    }
    proof {
        assert(src@.subrange(0, src@.len() as int) =~= src@);
    }
}

/// The result of the pass: the two records and the change to the module's
/// start function.
pub struct Linked {
    pub bindings: WebidlCustomSection,
    pub aux: WasmBindgenAux,
    pub start: Option<StartAction>,
}

/// The records of a finished pass agree with the model state `s`.
pub open spec fn linked_model(l: Linked, s: State) -> bool {
    &&& map_views(l.bindings.exports@) == s.exports
    &&& map_views(l.bindings.imports@) == s.imports
    &&& map_views(l.aux.export_map@) == s.export_map
    &&& map_views(l.aux.import_map@) == s.import_map
    &&& l.aux.imports_with_catch@ == s.catch
    &&& l.aux.imports_with_variadic@ == s.variadic
    &&& seq_views(l.aux.enums@) == s.enums
    &&& seq_views(l.aux.structs@) == s.structs
    &&& l.aux.extra_typescript@ == s.extra_typescript
    &&& map_views(l.aux.local_modules.view()) == s.local_modules
    &&& list_views(l.aux.snippets.view()) == s.snippets
    &&& strings_view(l.aux.package_jsons@) == s.package_jsons
    &&& l.start == s.start_action
}

/// Runs the synthesis pass over the program units, in order, and checks the
/// records it produced. It succeeds exactly when every unit does and the
/// records are consistent, and then hands back the records of the pass.
pub fn process(module: ModuleBoundary, programs: Vec<Program>) -> (r: Result<Linked, Error>)
    ensures
        match units_fold(init_state(module), programs@) {
            Ok(s) => (r is Ok <==> state_consistent(module.imports@, s)) && (r matches Ok(l) ==> linked_model(l, s)),
            Err(k) => r matches Err(e) && e.kind() == k,
        },
{
    let ghost s0 = init_state(module);
    let ghost imports = module.imports@;
    let mut cx = Context::init(module);
    proof {
        assert(programs@.subrange(0, 0) =~= Seq::<Program>::empty());
    }
    let mut i: usize = 0;
    while i < programs.len()
        invariant
            cx.wf(),
            i <= programs@.len(),
            cx.module_imports@ == imports,
            imports == module.imports@,
            s0 == init_state(module),
            units_fold(s0, programs@.subrange(0, i as int)) == Ok::<State, ErrorKind>(cx.model()),
        decreases programs@.len() - i,
    {
        proof {
            assert(programs@.subrange(0, i + 1).drop_last() =~= programs@.subrange(0, i as int));
        }
        match cx.program(&programs[i]) {
            Ok(()) => {},
            Err(e) => {
                proof {
                    lemma_units_err(s0, programs@, i + 1);
                }
                return Err(e);
            },
        }
        i = i + 1;
    }
    proof {
        assert(programs@.subrange(0, programs@.len() as int) =~= programs@);
        lemma_views_dom(cx.bindings.exports@);
        lemma_views_dom(cx.bindings.imports@);
        lemma_views_dom(cx.aux.export_map@);
        lemma_views_dom(cx.aux.import_map@);
    }
    match verify(&cx.module_imports, &cx.bindings, &cx.aux) {
        Ok(()) => {},
        Err(e) => return Err(e),
    }
    Ok(Linked { bindings: cx.bindings, aux: cx.aux, start: cx.start_action })
}

/// The signature of a function model, with an implicit pointer argument put
/// in front when `implicit` holds.
pub open spec fn with_receiver(f: FnTy, implicit: bool) -> FnTy {
    if implicit {
        FnTy { arguments: seq![Ty::I32] + f.arguments, shim_idx: f.shim_idx, ret: f.ret }
    } else {
        f
    }
}

/// The function signature inside a function descriptor.
pub open spec fn fn_of(t: Ty) -> FnTy {
    match t {
        Ty::Function(f) => f,
        _ => arbitrary(),
    }
}

/// Where an export is placed, and whether its signature takes an implicit
/// pointer to the class instance first.
pub open spec fn export_placement(e: Export) -> (ExportKindModel, bool) {
    match e.class {
        None => (ExportKindModel::Function(e.function.name@), false),
        Some(c) => match e.method_kind {
            MethodKind::Constructor => (ExportKindModel::Constructor(c@), false),
            MethodKind::Operation(op) => match op.kind {
                OperationKind::Getter(f) => (ExportKindModel::Getter(c@, f@), true),
                OperationKind::Setter(f) => (ExportKindModel::Setter(c@, f@), true),
                _ => if op.is_static {
                    (ExportKindModel::StaticFunction(c@, e.function.name@), false)
                } else {
                    (ExportKindModel::Method(c@, e.function.name@, e.consumed), true)
                },
            },
        },
    }
}

/// The symbol under which the module exports the function of a class
/// member.
pub uninterp spec fn struct_function_export_name_of(class: Seq<char>, f: Seq<char>) -> Seq<char>;

/// Relies on `wasm_bindgen_shared::struct_function_export_name`: the export
/// symbol of a class member depends on the two names alone.
#[verifier::external_body]
fn struct_function_export_name(class: &String, f: &String) -> (r: String)
    ensures
        r@ == struct_function_export_name_of(class@, f@),
{
    wasm_bindgen_shared::struct_function_export_name(class, f)
}

/// The symbol under which the module exports an export's function.
pub open spec fn export_wasm_name(e: Export) -> Seq<char> {
    match e.class {
        Some(c) => struct_function_export_name_of(c@, e.function.name@),
        None => e.function.name@,
    }
}

/// `s` without the double quotes at either end.
pub open spec fn trim_quotes(s: Seq<char>) -> Seq<char> {
    strip_trailing_quotes(strip_leading_quotes(s))
}

pub open spec fn strip_leading_quotes(s: Seq<char>) -> Seq<char>
    decreases s.len(),
{
    if s.len() > 0 && s[0] == '"' {
        strip_leading_quotes(s.drop_first())
    } else {
        s
    }
}

pub open spec fn strip_trailing_quotes(s: Seq<char>) -> Seq<char>
    decreases s.len(),
{
    if s.len() > 0 && s.last() == '"' {
        strip_trailing_quotes(s.drop_last())
    } else {
        s
    }
}

/// The comment lines, unquoted and joined by line breaks.
pub open spec fn comments_text(cs: Seq<Seq<char>>) -> Seq<char>
    decreases cs.len(),
{
    if cs.len() == 0 {
        Seq::empty()
    } else if cs.len() == 1 {
        trim_quotes(cs[0])
    } else {
        comments_text(cs.drop_last()) + "\n"@ + trim_quotes(cs.last())
    }
}

/// Relies on `str::trim_matches` with a character pattern: removes every
/// leading and trailing double quote.
#[verifier::external_body]
fn trim_quote_chars(s: &str) -> (r: &str)
    ensures
        r@ == trim_quotes(s@),
{
    s.trim_matches('"')
}

/// Relies on `String::push_str`: appends `t`.
#[verifier::external_body]
pub(crate) fn push_str(s: &mut String, t: &str)
    ensures
        final(s)@ == old(s)@ + t@,
{
    s.push_str(t)
}

/// Joins comment lines, unquoted, with line breaks.
pub fn concatenate_comments(comments: &Vec<String>) -> (r: String)
    ensures
        r@ == comments_text(strings_view(comments@)),
{
    let mut r = String::new();
    let mut i: usize = 0;
    let ghost cs = strings_view(comments@);
    while i < comments.len()
        invariant
                i <= comments@.len(),
                cs == strings_view(comments@),
                r@ == comments_text(cs.subrange(0, i as int)),
        decreases comments@.len() - i,
    {
        proof {
            reveal_strlit("\n");
            let next = cs.subrange(0, i + 1);
            assert(next.drop_last() =~= cs.subrange(0, i as int));
            assert(next.last() == comments@[i as int]@);
            if i == 0 {
                assert(cs.subrange(0, 0) =~= Seq::<Seq<char>>::empty());
            }
        }
        if i > 0 {
            push_str(&mut r, "\n");
        }
        let line = trim_quote_chars(comments[i].as_str());
        push_str(&mut r, line);
        proof {
            if i == 0 {
                assert(r@ =~= trim_quotes(comments@[0]@));
            }
        }
        i = i + 1;
    }
    proof {
        assert(cs.subrange(0, comments@.len() as int) =~= cs);
    }
    r
}

/// An indexing getter is rejected unless it is structural; declared
/// structural and static, it reads an index of the class itself.
pub proof fn lemma_indexing_getter_target(class: JsImportModel, fname: Seq<char>, structural: bool, op: Operation)
    requires
        op.kind is IndexingGetter,
    ensures
        !structural ==> import_op_target(class, fname, structural, op) == Err::<(AuxImportModel, bool), ErrorKind>(
            ErrorKind::IndexingNotStructural,
        ),
        structural && op.is_static ==> import_op_target(class, fname, structural, op) == Ok::<(AuxImportModel, bool), ErrorKind>(
            (AuxImportModel::IndexingGetterOfClass(class), false),
        ),
{
}

/// A record set in which a placeholder import has a signature but no
/// placement is not consistent.
pub proof fn lemma_binding_without_target_rejected(
    imports: Seq<BoundaryImport>,
    b: WebidlCustomSection,
    a: WasmBindgenAux,
    i: int,
)
    requires
        0 <= i < imports.len(),
        is_placeholder(imports[i]),
        b.imports@.contains_key(imports[i].import_id),
        !a.import_map@.contains_key(imports[i].import_id),
    ensures
        !records_consistent(imports, b, a),
{
}

/// Inline snippets of one unit get strictly increasing indices, and those of
/// a later unit of the same crate come after every snippet the earlier unit
/// registered.
pub proof fn lemma_inline_indices_increase(
    first: Import,
    second: Import,
    later: Import,
    item: Seq<char>,
    local_modules: Map<Seq<char>, Seq<char>>,
    vendor_prefixes: Map<Seq<char>, Seq<Seq<char>>>,
    crate_id: Seq<char>,
    before: Map<Seq<char>, Seq<Seq<char>>>,
    after: Map<Seq<char>, Seq<Seq<char>>>,
    inline_js: Seq<Seq<char>>,
)
    requires
        first.module matches ImportModule::Inline(a) && a < inline_js.len(),
        second.module matches ImportModule::Inline(b) && first.module->Inline_0 < b,
        later.module is Inline,
        after.contains_key(crate_id),
        after[crate_id] == snippets_of(before, crate_id) + inline_js,
        resolve_import(first, item, local_modules, vendor_prefixes, crate_id, snippet_count(before, crate_id)) is Ok,
        resolve_import(second, item, local_modules, vendor_prefixes, crate_id, snippet_count(before, crate_id)) is Ok,
        resolve_import(later, item, local_modules, vendor_prefixes, crate_id, snippet_count(after, crate_id)) is Ok,
        !vendor_prefixes.contains_key(item),
    ensures
        ({
            let x = resolve_import(first, item, local_modules, vendor_prefixes, crate_id, snippet_count(before, crate_id))->Ok_0.name;
            let y = resolve_import(second, item, local_modules, vendor_prefixes, crate_id, snippet_count(before, crate_id))->Ok_0.name;
            let z = resolve_import(later, item, local_modules, vendor_prefixes, crate_id, snippet_count(after, crate_id))->Ok_0.name;
            &&& x->InlineJs_1 < y->InlineJs_1
            &&& x->InlineJs_1 < z->InlineJs_1
        }),
{
}

/// Registering a local module again with the contents it already has
/// changes nothing and does not fail; registering it with other contents
/// is a conflict.
pub proof fn lemma_local_module_reregistration(s: State, x: LocalModule, y: LocalModule)
    requires
        s.local_modules.contains_key(x.identifier@),
        s.local_modules[x.identifier@] == x.contents@,
    ensures
        modules_fold(s, seq![x]) == Ok::<State, ErrorKind>(s),
        modules_fold(s, seq![x, x]) == Ok::<State, ErrorKind>(s),
        y.identifier@ == x.identifier@ && y.contents@ != x.contents@ ==> modules_fold(s, seq![y]) is Err
            && modules_fold(s, seq![x, y]) is Err,
{
    assert(seq![x].drop_last() =~= Seq::<LocalModule>::empty());
    assert(seq![y].drop_last() =~= Seq::<LocalModule>::empty());
    assert(seq![x, x].drop_last() =~= seq![x]);
    assert(seq![x, y].drop_last() =~= seq![x]);
    assert(s.local_modules.insert(x.identifier@, x.contents@) =~= s.local_modules);
    let s1 = State { local_modules: s.local_modules.insert(x.identifier@, x.contents@), ..s };
    assert(s1 == s);
    assert(modules_fold(s, Seq::<LocalModule>::empty()) == Ok::<State, ErrorKind>(s));
    assert(modules_fold(s, seq![x]) == Ok::<State, ErrorKind>(s1));
    assert(modules_fold(s, seq![x, x]) == Ok::<State, ErrorKind>(s));
}

/// Adds a copy of `s` to `v` unless `v` already holds it.
fn insert_unique(v: &mut Vec<String>, s: &String)
    ensures
        strings_view(final(v)@) == crate::steps::add_package_json(strings_view(old(v)@), s@),
{
    let mut i: usize = 0;
    while i < v.len()
        invariant
            i <= v@.len(),
            v@ == old(v)@,
            forall|j: int| 0 <= j < i ==> v@[j]@ != s@,
        decreases v@.len() - i,
    {
        if v[i] == *s {
            proof {
                assert(strings_view(v@)[i as int] == s@);
            }
            return;
        }
        i = i + 1;
    }
    proof {
        assert(!strings_view(v@).contains(s@)) by {
            if strings_view(v@).contains(s@) {
                let j = choose|j: int| 0 <= j < strings_view(v@).len() && strings_view(v@)[j] == s@;
                assert(v@[j]@ == s@);
            }
        }
    }
    let ghost before = v@;
    v.push(s.clone());
    proof {
        assert(strings_view(v@) =~= strings_view(before).push(s@));
    }
}

proof fn args_view_one(s: Seq<Descriptor>)
    requires
        s.len() == 1,
    ensures
        args_view(s) == seq![s[0]@],
{
    lemma_args_view_index(s);
    assert(args_view(s) =~= seq![s[0]@]);
}

proof fn args_view_empty(s: Seq<Descriptor>)
    requires
        s.len() == 0,
    ensures
        crate::descriptor::args_view(s) == Seq::<Ty>::empty(),
{
}

} // verus!
