use bindgen_link::descriptor::{Descriptor, ANYREF, FUNCTION, I32, STRING, UNIT};
use bindgen_link::program::{
    EnumVariant, Export, FunctionDecl, Import, ImportFunction, ImportKind, ImportModule,
    ImportStatic, ImportType, LocalModule, MethodData, MethodKind, Operation, OperationKind,
    Program, Struct, StructField,
};
use bindgen_link::records::{
    AuxExportKind, AuxImport, AuxValue, ErrorKind, ImportBinding, JsImportName, WasmBindgenAux,
    WebidlCustomSection,
};
use bindgen_link::table::NameTable;
use bindgen_link::webidl::{
    concatenate_comments, determine_import_op, process, verify, BoundaryExport, BoundaryImport,
    Intrinsic, Linked, ModuleBoundary, StartAction, PLACEHOLDER_MODULE,
};
use std::collections::{HashMap, HashSet};

fn s(x: &str) -> String {
    x.to_string()
}

fn decl(name: &str, args: &[&str]) -> FunctionDecl {
    FunctionDecl { name: s(name), arg_names: args.iter().map(|a| s(a)).collect() }
}

fn sig(data: &[u32]) -> Descriptor {
    Descriptor::decode(data).unwrap()
}

fn program(uci: &str) -> Program {
    Program {
        exports: Vec::new(),
        enums: Vec::new(),
        imports: Vec::new(),
        structs: Vec::new(),
        typescript_custom_sections: Vec::new(),
        local_modules: Vec::new(),
        inline_js: Vec::new(),
        unique_crate_identifier: s(uci),
        package_json: None,
    }
}

fn free_export(name: &str, start: bool) -> Export {
    Export {
        class: None,
        comments: Vec::new(),
        consumed: false,
        function: decl(name, &[]),
        method_kind: MethodKind::Constructor,
        start,
    }
}

fn export_entry(name: &str, export_id: usize, function_id: usize) -> BoundaryExport {
    BoundaryExport { name: s(name), export_id, function_id }
}

fn placeholder(name: &str, import_id: usize) -> BoundaryImport {
    BoundaryImport {
        module: s(PLACEHOLDER_MODULE),
        name: s(name),
        import_id,
        function_id: Some(import_id + 1000),
        intrinsic: None,
    }
}

fn module(
    exports: Vec<BoundaryExport>,
    imports: Vec<BoundaryImport>,
    descriptors: Vec<(String, Descriptor)>,
) -> ModuleBoundary {
    ModuleBoundary { exports, imports, start: None, descriptors, closure_imports: Vec::new() }
}

fn fn_import(shim: &str, name: &str, method: Option<MethodData>, structural: bool, module: ImportModule) -> Import {
    Import {
        module,
        js_namespace: None,
        kind: ImportKind::Function(ImportFunction {
            shim: s(shim),
            catch: false,
            variadic: false,
            method,
            structural,
            function: decl(name, &[]),
        }),
    }
}

fn run(m: ModuleBoundary, programs: Vec<Program>) -> Linked {
    process(m, programs).unwrap()
}

fn err_kind(m: ModuleBoundary, programs: Vec<Program>) -> ErrorKind {
    process(m, programs).err().unwrap().error_kind()
}

#[test]
fn free_function_export_is_placed() {
    let mut p = program("crate-1");
    let mut e = free_export("greet", false);
    e.comments = vec![s("\" Says hi\""), s("\"twice\"")];
    e.function = decl("greet", &["name"]);
    p.exports.push(e);
    let m = module(
        vec![export_entry("greet", 10, 20)],
        Vec::new(),
        vec![(s("greet"), sig(&[FUNCTION, 1, 1, STRING, UNIT]))],
    );
    let out = run(m, vec![p]);
    assert_eq!(out.bindings.exports.len(), 1);
    assert_eq!(out.aux.export_map.len(), 1);
    let aux = &out.aux.export_map[&10];
    assert!(matches!(&aux.kind, AuxExportKind::Function(n) if n == "greet"));
    assert_eq!(aux.comments, " Says hi\ntwice");
    assert_eq!(aux.arg_names, Some(vec![s("name")]));
    assert_eq!(aux.debug_name, "greet");
    let f = &out.bindings.exports[&10];
    assert_eq!(f.shim_idx, 1);
    assert_eq!(f.arguments.len(), 1);
    assert!(out.start.is_none());
}

#[test]
fn getter_export_gets_receiver_argument() {
    let wasm_name = wasm_bindgen_shared::struct_function_export_name("Point", "x");
    let mut p = program("crate-1");
    p.exports.push(Export {
        class: Some(s("Point")),
        comments: Vec::new(),
        consumed: false,
        function: decl("x", &[]),
        method_kind: MethodKind::Operation(Operation { is_static: false, kind: OperationKind::Getter(s("x")) }),
        start: false,
    });
    let m = module(vec![export_entry(&wasm_name, 3, 4)], Vec::new(), vec![(wasm_name.clone(), sig(&[FUNCTION, 0, 0, I32]))]);
    let out = run(m, vec![p]);
    let f = &out.bindings.exports[&3];
    assert_eq!(f.arguments.len(), 1);
    assert!(matches!(f.arguments[0], Descriptor::I32));
    match &out.aux.export_map[&3].kind {
        AuxExportKind::Getter { class, field } => {
            assert_eq!(class, "Point");
            assert_eq!(field, "x");
        }
        other => panic!("unexpected {:?}", other),
    }
    assert_eq!(out.aux.export_map[&3].debug_name, wasm_name);
}

#[test]
fn static_and_method_exports() {
    let new_name = wasm_bindgen_shared::struct_function_export_name("Point", "new");
    let len_name = wasm_bindgen_shared::struct_function_export_name("Point", "len");
    let free_name = wasm_bindgen_shared::struct_function_export_name("Point", "free");
    let mut p = program("c");
    let mut ctor = free_export("new", false);
    ctor.class = Some(s("Point"));
    let mut method = free_export("len", false);
    method.class = Some(s("Point"));
    method.consumed = true;
    method.method_kind = MethodKind::Operation(Operation { is_static: false, kind: OperationKind::Regular });
    let mut stat = free_export("free", false);
    stat.class = Some(s("Point"));
    stat.method_kind = MethodKind::Operation(Operation { is_static: true, kind: OperationKind::Regular });
    p.exports = vec![ctor, method, stat];
    let empty = [FUNCTION, 0, 0, UNIT];
    let m = module(
        vec![export_entry(&new_name, 1, 1), export_entry(&len_name, 2, 2), export_entry(&free_name, 3, 3)],
        Vec::new(),
        vec![(new_name.clone(), sig(&empty)), (len_name.clone(), sig(&empty)), (free_name.clone(), sig(&empty))],
    );
    let out = run(m, vec![p]);
    assert!(matches!(&out.aux.export_map[&1].kind, AuxExportKind::Constructor(c) if c == "Point"));
    assert_eq!(out.bindings.exports[&1].arguments.len(), 0);
    assert!(matches!(&out.aux.export_map[&2].kind, AuxExportKind::Method { consumed: true, .. }));
    assert_eq!(out.bindings.exports[&2].arguments.len(), 1);
    assert!(matches!(&out.aux.export_map[&3].kind, AuxExportKind::StaticFunction { name, .. } if name == "free"));
    assert_eq!(out.bindings.exports[&3].arguments.len(), 0);
}

#[test]
fn export_without_descriptor_is_skipped() {
    let mut p = program("c");
    p.exports.push(free_export("unused", false));
    let out = run(module(vec![export_entry("unused", 1, 2)], Vec::new(), Vec::new()), vec![p]);
    assert!(out.bindings.exports.is_empty());
    assert!(out.aux.export_map.is_empty());
}

#[test]
fn export_missing_from_module_is_an_error() {
    let mut p = program("c");
    p.exports.push(free_export("ghost", false));
    let m = module(Vec::new(), Vec::new(), vec![(s("ghost"), sig(&[FUNCTION, 0, 0, UNIT]))]);
    assert_eq!(err_kind(m, vec![p]), ErrorKind::MissingExport);
}

#[test]
fn export_descriptor_must_be_a_function() {
    let mut p = program("c");
    p.exports.push(free_export("f", false));
    let m = module(vec![export_entry("f", 1, 2)], Vec::new(), vec![(s("f"), sig(&[I32]))]);
    assert_eq!(err_kind(m, vec![p]), ErrorKind::NotAFunction);
}

fn two_starts(m_start: Option<usize>) -> ModuleBoundary {
    let empty = [FUNCTION, 0, 0, UNIT];
    let mut m = module(
        vec![export_entry("a", 1, 11), export_entry("b", 2, 12)],
        Vec::new(),
        vec![(s("a"), sig(&empty)), (s("b"), sig(&empty))],
    );
    m.start = m_start;
    m
}

#[test]
fn two_start_functions_in_one_unit_are_rejected() {
    let mut p = program("c");
    p.exports = vec![free_export("a", true), free_export("b", true)];
    assert_eq!(err_kind(two_starts(None), vec![p]), ErrorKind::TwoStartFunctions);
}

#[test]
fn two_start_functions_in_two_units_are_rejected() {
    let mut p1 = program("c1");
    p1.exports = vec![free_export("a", true)];
    let mut p2 = program("c2");
    p2.exports = vec![free_export("b", true)];
    assert_eq!(err_kind(two_starts(None), vec![p1, p2]), ErrorKind::TwoStartFunctions);
}

#[test]
fn start_function_is_installed_or_chained() {
    let mut p = program("c");
    p.exports = vec![free_export("a", true), free_export("b", false)];
    let out = run(two_starts(None), vec![p]);
    assert_eq!(out.start, Some(StartAction::Install(11)));
    let mut p = program("c");
    p.exports = vec![free_export("a", false), free_export("b", true)];
    let out = run(two_starts(Some(99)), vec![p]);
    assert_eq!(out.start, Some(StartAction::Chain { first: 99, then: 12 }));
}

fn indexing_import(structural: bool, is_static: bool) -> Program {
    let mut p = program("c");
    let method = MethodData {
        class: s("Foo"),
        kind: MethodKind::Operation(Operation { is_static, kind: OperationKind::IndexingGetter }),
    };
    p.imports.push(fn_import("__wbg_get", "get", Some(method), structural, ImportModule::Global));
    p
}

fn indexing_module() -> ModuleBoundary {
    module(Vec::new(), vec![placeholder("__wbg_get", 5)], vec![(s("__wbg_get"), sig(&[FUNCTION, 0, 1, ANYREF, ANYREF]))])
}

#[test]
fn non_structural_indexing_getter_is_rejected() {
    assert_eq!(err_kind(indexing_module(), vec![indexing_import(false, true)]), ErrorKind::IndexingNotStructural);
}

#[test]
fn structural_static_indexing_getter_reads_the_class() {
    let out = run(indexing_module(), vec![indexing_import(true, true)]);
    match &out.aux.import_map[&5] {
        AuxImport::IndexingGetterOfClass(j) => {
            assert!(matches!(&j.name, JsImportName::Global { name } if name == "Foo"));
            assert!(j.fields.is_empty());
        }
        other => panic!("unexpected {:?}", other),
    }
    assert!(matches!(out.bindings.imports[&5], ImportBinding::Function(_)));
    let out = run(indexing_module(), vec![indexing_import(true, false)]);
    assert!(matches!(out.aux.import_map[&5], AuxImport::IndexingGetterOfObject));
}

#[test]
fn import_op_targets() {
    let class = bindgen_link::records::JsImport { name: JsImportName::Global { name: s("Foo") }, fields: Vec::new() };
    let op = Operation { is_static: false, kind: OperationKind::Regular };
    let (t, method) = determine_import_op(class, &decl("bar", &[]), false, &op).unwrap();
    assert!(method);
    match t {
        AuxImport::Value(AuxValue::Bare(j)) => assert_eq!(j.fields, vec![s("prototype"), s("bar")]),
        other => panic!("unexpected {:?}", other),
    }
    let class = bindgen_link::records::JsImport { name: JsImportName::Global { name: s("Foo") }, fields: Vec::new() };
    let (t, method) = determine_import_op(class, &decl("bar", &[]), true, &op).unwrap();
    assert!(!method);
    assert!(matches!(t, AuxImport::StructuralMethod(n) if n == "bar"));
    let class = bindgen_link::records::JsImport { name: JsImportName::Global { name: s("Foo") }, fields: Vec::new() };
    let setter = Operation { is_static: true, kind: OperationKind::Setter(s("y")) };
    let (t, method) = determine_import_op(class, &decl("set_y", &[]), false, &setter).unwrap();
    assert!(method);
    assert!(matches!(t, AuxImport::Value(AuxValue::ClassSetter(_, f)) if f == "y"));
    let class = bindgen_link::records::JsImport { name: JsImportName::Global { name: s("Foo") }, fields: Vec::new() };
    let deleter = Operation { is_static: false, kind: OperationKind::IndexingDeleter };
    assert_eq!(
        determine_import_op(class, &decl("del", &[]), false, &deleter).err().unwrap().error_kind(),
        ErrorKind::IndexingNotStructural
    );
}

fn records(ids_in_bindings: &[usize], ids_in_map: &[usize]) -> (WebidlCustomSection, WasmBindgenAux) {
    let mut bindings = WebidlCustomSection { exports: HashMap::new(), imports: HashMap::new() };
    for id in ids_in_bindings {
        bindings.imports.insert(*id, ImportBinding::Function(sig(&[FUNCTION, 0, 0, UNIT]).unwrap_function()));
    }
    let mut aux = WasmBindgenAux {
        extra_typescript: String::new(),
        local_modules: NameTable::new(),
        snippets: NameTable::new(),
        package_jsons: Vec::new(),
        export_map: HashMap::new(),
        import_map: HashMap::new(),
        imports_with_catch: HashSet::new(),
        imports_with_variadic: HashSet::new(),
        enums: Vec::new(),
        structs: Vec::new(),
    };
    for id in ids_in_map {
        aux.import_map.insert(*id, AuxImport::IndexingGetterOfObject);
    }
    (bindings, aux)
}

#[test]
fn verifier_rejects_binding_without_target() {
    let imports = vec![placeholder("f", 1)];
    let (b, a) = records(&[1], &[]);
    assert_eq!(verify(&imports, &b, &a).err().unwrap().error_kind(), ErrorKind::MissingImportTarget);
}

#[test]
fn verifier_accepts_matching_records() {
    let imports = vec![placeholder("f", 1), placeholder("g", 2)];
    let (b, a) = records(&[1, 2], &[1, 2]);
    assert!(verify(&imports, &b, &a).is_ok());
}

#[test]
fn verifier_rejects_extra_entries() {
    let imports = vec![placeholder("f", 1)];
    let (b, a) = records(&[1], &[1, 7]);
    assert_eq!(verify(&imports, &b, &a).err().unwrap().error_kind(), ErrorKind::ImportMapTooLarge);
    let (b, a) = records(&[1, 7], &[1]);
    assert_eq!(verify(&imports, &b, &a).err().unwrap().error_kind(), ErrorKind::ImportBindingsTooLarge);
    let (b, a) = records(&[], &[1]);
    assert_eq!(verify(&imports, &b, &a).err().unwrap().error_kind(), ErrorKind::MissingImportBinding);
}

#[test]
fn verifier_checks_export_maps() {
    let (mut b, a) = records(&[], &[]);
    b.exports.insert(4, sig(&[FUNCTION, 0, 0, UNIT]).unwrap_function());
    assert_eq!(verify(&Vec::new(), &b, &a).err().unwrap().error_kind(), ErrorKind::ExportWithoutPlacement);
}

#[test]
fn verifier_rejects_placement_without_signature() {
    let (b, mut a) = records(&[], &[]);
    a.export_map.insert(
        4,
        bindgen_link::records::AuxExport {
            debug_name: s("f"),
            comments: String::new(),
            arg_names: None,
            kind: AuxExportKind::Function(s("f")),
        },
    );
    assert_eq!(verify(&Vec::new(), &b, &a).err().unwrap().error_kind(), ErrorKind::ExportMapSizeMismatch);
}

#[test]
fn verifier_rejects_non_function_placeholder() {
    let mut import = placeholder("table", 1);
    import.function_id = None;
    let (b, a) = records(&[1], &[1]);
    assert_eq!(verify(&vec![import], &b, &a).err().unwrap().error_kind(), ErrorKind::ImportNotAFunction);
}

#[test]
fn unbound_placeholder_import_fails_the_pass() {
    let m = module(Vec::new(), vec![placeholder("__wbg_unused", 1)], Vec::new());
    assert_eq!(err_kind(m, vec![program("c")]), ErrorKind::MissingImportTarget);
}

fn inline_unit(uci: &str, shims: &[(&str, u32)], snippets: &[&str]) -> Program {
    let mut p = program(uci);
    for (shim, idx) in shims {
        p.imports.push(fn_import(shim, "f", None, false, ImportModule::Inline(*idx)));
    }
    p.inline_js = snippets.iter().map(|x| s(x)).collect();
    p
}

fn inline_index(out: &Linked, id: usize) -> usize {
    match &out.aux.import_map[&id] {
        AuxImport::Value(AuxValue::Bare(j)) => match &j.name {
            JsImportName::InlineJs { snippet_idx_in_crate, unique_crate_identifier, .. } => {
                assert_eq!(unique_crate_identifier, "crate-a");
                *snippet_idx_in_crate
            }
            other => panic!("unexpected {:?}", other),
        },
        other => panic!("unexpected {:?}", other),
    }
}

#[test]
fn inline_snippet_indices_increase_across_units() {
    let d = [FUNCTION, 0, 0, UNIT];
    let m = module(
        Vec::new(),
        vec![placeholder("s0", 1), placeholder("s1", 2), placeholder("s2", 3)],
        vec![(s("s0"), sig(&d)), (s("s1"), sig(&d)), (s("s2"), sig(&d))],
    );
    let first = inline_unit("crate-a", &[("s0", 0), ("s1", 1)], &["one", "two"]);
    let second = inline_unit("crate-a", &[("s2", 0)], &["three"]);
    let out = run(m, vec![first, second]);
    assert_eq!(inline_index(&out, 1), 0);
    assert_eq!(inline_index(&out, 2), 1);
    assert_eq!(inline_index(&out, 3), 2);
    let snippets = out.aux.snippets.get(&s("crate-a")).unwrap();
    assert_eq!(snippets, &vec![s("one"), s("two"), s("three")]);
}

fn local_module_unit(contents: &str) -> Program {
    let mut p = program("c");
    p.local_modules.push(LocalModule { identifier: s("/snippet.js"), contents: s(contents) });
    p
}

#[test]
fn local_module_reregistration() {
    let m = || module(Vec::new(), Vec::new(), Vec::new());
    let out = run(m(), vec![local_module_unit("x"), local_module_unit("x")]);
    assert_eq!(out.aux.local_modules.entries().len(), 1);
    assert_eq!(out.aux.local_modules.get(&s("/snippet.js")), Some(&s("x")));
    assert_eq!(err_kind(m(), vec![local_module_unit("x"), local_module_unit("y")]), ErrorKind::LocalModuleMismatch);
}

#[test]
fn local_module_imports_resolve_locally() {
    let mut p = local_module_unit("export function f() {}");
    p.imports.push(fn_import("s", "f", None, false, ImportModule::Named(s("/snippet.js"))));
    p.imports.push(fn_import("t", "g", None, false, ImportModule::Named(s("npm-pkg"))));
    let d = [FUNCTION, 0, 0, UNIT];
    let m = module(Vec::new(), vec![placeholder("s", 1), placeholder("t", 2)], vec![(s("s"), sig(&d)), (s("t"), sig(&d))]);
    let out = run(m, vec![p]);
    assert!(matches!(&out.aux.import_map[&1], AuxImport::Value(AuxValue::Bare(j))
        if matches!(&j.name, JsImportName::LocalModule { module, name } if module == "/snippet.js" && name == "f")));
    assert!(matches!(&out.aux.import_map[&2], AuxImport::Value(AuxValue::Bare(j))
        if matches!(&j.name, JsImportName::Module { module, name } if module == "npm-pkg" && name == "g")));
}

fn vendor_unit(module: ImportModule, namespace: Option<&str>) -> Program {
    let mut p = program("c");
    p.imports.push(Import {
        module: ImportModule::Global,
        js_namespace: None,
        kind: ImportKind::Type(ImportType { name: s("AudioContext"), instanceof_shim: s("inst"), vendor_prefixes: vec![s("webkit")] }),
    });
    let mut f = fn_import("ctor", "AudioContext", None, false, module);
    f.js_namespace = namespace.map(s);
    p.imports.push(f);
    p
}

fn vendor_module() -> ModuleBoundary {
    module(Vec::new(), vec![placeholder("inst", 1), placeholder("ctor", 2)], vec![(s("ctor"), sig(&[FUNCTION, 0, 0, ANYREF]))])
}

#[test]
fn vendor_prefixed_global_import() {
    let out = run(vendor_module(), vec![vendor_unit(ImportModule::Global, None)]);
    match &out.aux.import_map[&2] {
        AuxImport::Value(AuxValue::Bare(j)) => match &j.name {
            JsImportName::VendorPrefixed { name, prefixes } => {
                assert_eq!(name, "AudioContext");
                assert_eq!(prefixes, &vec![s("webkit")]);
            }
            other => panic!("unexpected {:?}", other),
        },
        other => panic!("unexpected {:?}", other),
    }
    match &out.aux.import_map[&1] {
        AuxImport::Instanceof(j) => assert!(matches!(&j.name, JsImportName::VendorPrefixed { .. })),
        other => panic!("unexpected {:?}", other),
    }
    match &out.bindings.imports[&1] {
        ImportBinding::Function(f) => {
            assert_eq!(f.arguments.len(), 1);
            assert!(f.arguments[0].is_ref_anyref());
            assert!(matches!(f.ret, Descriptor::I32));
        }
        other => panic!("unexpected {:?}", other),
    }
}

#[test]
fn vendor_prefixes_reject_modules_and_namespaces() {
    assert_eq!(err_kind(vendor_module(), vec![vendor_unit(ImportModule::Named(s("m")), None)]), ErrorKind::VendorPrefixFromModule);
    assert_eq!(err_kind(vendor_module(), vec![vendor_unit(ImportModule::Global, Some("ns"))]), ErrorKind::VendorPrefixInNamespace);
    assert_eq!(err_kind(vendor_module(), vec![vendor_unit(ImportModule::Inline(0), None)]), ErrorKind::VendorPrefixInLocalSnippet);
}

#[test]
fn static_import_and_namespace() {
    let mut p = program("c");
    p.imports.push(Import {
        module: ImportModule::RawNamed(s("raw")),
        js_namespace: Some(s("ns")),
        kind: ImportKind::Static(ImportStatic { name: s("VALUE"), shim: s("st") }),
    });
    let out = run(module(Vec::new(), vec![placeholder("st", 1)], Vec::new()), vec![p]);
    match &out.aux.import_map[&1] {
        AuxImport::Static(j) => {
            assert!(matches!(&j.name, JsImportName::Module { module, name } if module == "raw" && name == "ns"));
            assert_eq!(j.fields, vec![s("VALUE")]);
        }
        other => panic!("unexpected {:?}", other),
    }
    match &out.bindings.imports[&1] {
        ImportBinding::Function(f) => {
            assert!(f.arguments.is_empty());
            assert!(f.ret.is_anyref());
        }
        other => panic!("unexpected {:?}", other),
    }
}

#[test]
fn constructor_and_flags_on_function_imports() {
    let mut p = program("c");
    let method = MethodData { class: s("Map"), kind: MethodKind::Constructor };
    let mut import = fn_import("new_map", "new", Some(method), false, ImportModule::Global);
    if let ImportKind::Function(f) = &mut import.kind {
        f.catch = true;
        f.variadic = true;
    }
    p.imports.push(import);
    let m = module(Vec::new(), vec![placeholder("new_map", 1)], vec![(s("new_map"), sig(&[FUNCTION, 0, 0, ANYREF]))]);
    let out = run(m, vec![p]);
    assert!(matches!(out.bindings.imports[&1], ImportBinding::Constructor(_)));
    assert!(matches!(&out.aux.import_map[&1], AuxImport::Value(AuxValue::Bare(j))
        if matches!(&j.name, JsImportName::Global { name } if name == "Map")));
    assert!(out.aux.imports_with_catch.contains(&1));
    assert!(out.aux.imports_with_variadic.contains(&1));
}

#[test]
fn unknown_import_shim_is_skipped() {
    let mut p = program("c");
    p.imports.push(fn_import("nowhere", "f", None, false, ImportModule::Global));
    let out = run(module(Vec::new(), Vec::new(), Vec::new()), vec![p]);
    assert!(out.aux.import_map.is_empty());
}

#[test]
fn struct_accessors_and_wrapper() {
    let get_x = wasm_bindgen_shared::struct_field_get("Point", "x");
    let set_x = wasm_bindgen_shared::struct_field_set("Point", "x");
    let get_y = wasm_bindgen_shared::struct_field_get("Point", "y");
    let get_z = wasm_bindgen_shared::struct_field_get("Point", "z");
    let wrap = wasm_bindgen_shared::new_function("Point");
    let mut p = program("c");
    p.structs.push(Struct {
        name: s("Point"),
        comments: vec![s("\"A point\"")],
        fields: vec![
            StructField { name: s("x"), readonly: false, comments: vec![s("\"x coord\"")] },
            StructField { name: s("y"), readonly: true, comments: Vec::new() },
            StructField { name: s("z"), readonly: false, comments: Vec::new() },
        ],
    });
    let m = module(
        vec![export_entry(&get_x, 1, 1), export_entry(&set_x, 2, 2), export_entry(&get_y, 3, 3), export_entry(&get_z, 4, 4)],
        vec![placeholder(&wrap, 9)],
        vec![(get_x.clone(), sig(&[I32])), (get_y.clone(), sig(&[STRING]))],
    );
    let out = run(m, vec![p]);
    assert_eq!(out.bindings.exports.len(), 3);
    let getter = &out.bindings.exports[&1];
    assert_eq!(getter.arguments.len(), 1);
    assert!(matches!(getter.ret, Descriptor::I32));
    let setter = &out.bindings.exports[&2];
    assert_eq!(setter.arguments.len(), 2);
    assert!(matches!(setter.ret, Descriptor::Unit));
    assert!(matches!(&out.aux.export_map[&1].kind, AuxExportKind::Getter { class, field } if class == "Point" && field == "x"));
    assert!(matches!(&out.aux.export_map[&2].kind, AuxExportKind::Setter { field, .. } if field == "x"));
    assert_eq!(out.aux.export_map[&1].debug_name, "getter for `Point::x`");
    assert_eq!(out.aux.export_map[&2].debug_name, "setter for `Point::x`");
    assert_eq!(out.aux.export_map[&1].comments, "x coord");
    assert!(out.aux.export_map[&1].arg_names.is_none());
    assert!(out.aux.export_map.contains_key(&3));
    assert!(!out.aux.export_map.contains_key(&4));
    assert_eq!(out.aux.structs.len(), 1);
    assert_eq!(out.aux.structs[0].comments, "A point");
    assert!(matches!(&out.aux.import_map[&9], AuxImport::WrapInExportedClass(n) if n == "Point"));
}

#[test]
fn enums_typescript_and_package_json() {
    let mut p = program("c");
    p.enums.push(bindgen_link::program::Enum {
        name: s("Color"),
        comments: vec![s("\"Colors\"")],
        variants: vec![EnumVariant { name: s("Red"), value: 0 }, EnumVariant { name: s("Blue"), value: 2 }],
    });
    p.typescript_custom_sections = vec![s("type A = 1;"), s("type B = 2;")];
    p.package_json = Some(s("pkg/package.json"));
    let mut q = program("d");
    q.package_json = Some(s("pkg/package.json"));
    let out = run(module(Vec::new(), Vec::new(), Vec::new()), vec![p, q]);
    assert_eq!(out.aux.enums.len(), 1);
    assert_eq!(out.aux.enums[0].comments, "Colors");
    assert_eq!(out.aux.enums[0].variants, vec![(s("Red"), 0), (s("Blue"), 2)]);
    assert_eq!(out.aux.extra_typescript, "type A = 1;\n\ntype B = 2;\n\n");
    assert_eq!(out.aux.package_jsons, vec![s("pkg/package.json")]);
}

#[test]
fn intrinsics_and_closure_imports_are_bound_up_front() {
    let mut intrinsic = placeholder("__wbindgen_throw", 1);
    intrinsic.intrinsic = Some(Intrinsic { symbol: s("throw"), binding: sig(&[FUNCTION, 0, 1, I32, UNIT]).unwrap_function() });
    let closure = Descriptor::decode(&[12, 1, 2, 15, FUNCTION, 3, 0, UNIT]).unwrap().unwrap_closure();
    let other = BoundaryImport { module: s("env"), name: s("memory"), import_id: 3, function_id: None, intrinsic: None };
    let mut m = module(Vec::new(), vec![intrinsic, placeholder("closure", 2), other], Vec::new());
    m.closure_imports = vec![(2, closure)];
    let out = run(m, Vec::new());
    assert!(matches!(&out.aux.import_map[&1], AuxImport::Intrinsic(n) if n == "throw"));
    match &out.aux.import_map[&2] {
        AuxImport::Closure(c) => assert!(c.mutable),
        other => panic!("unexpected {:?}", other),
    }
    match &out.bindings.imports[&2] {
        ImportBinding::Function(f) => assert_eq!(f.arguments.len(), 3),
        other => panic!("unexpected {:?}", other),
    }
}

#[test]
fn comments_are_unquoted_and_joined() {
    assert_eq!(concatenate_comments(&vec![s("\"\"a\"\""), s("b\""), s("\"")]), "a\nb\n");
    assert_eq!(concatenate_comments(&Vec::new()), "");
}
