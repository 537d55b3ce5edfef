//! The synthesis pass as a function on a model of its state: one step per
//! declaration, and folds of them over a unit and over a whole pass.
use crate::descriptor::{Closure, Descriptor, FnTy, Ty};
use crate::program::{
    strings_view, Enum, EnumVariant, Export, Import, ImportFunction, ImportKind, ImportStatic,
    ImportType, LocalModule, MethodKind, Program, Struct,
};
use crate::records::{
    AuxEnumModel, AuxExportModel, AuxImportModel, AuxStructModel, AuxValueModel, BindingModel,
    ErrorKind, ExportKindModel, JsImportModel,
};
use crate::webidl::{
    accessor_debug_name, binding_model, comments_text, export_placement, export_wasm_name, fn_of,
    getter_of, import_op_target, is_placeholder, new_function_of, placeholder_count,
    resolve_import, setter_of, snippet_count, snippets_of, typescript_text, with_receiver,
    BoundaryExport, BoundaryImport, CallStyle, ModuleBoundary, StartAction,
};
use vstd::prelude::*;

verus! {

/// The state of the synthesis pass, as mathematical values.
pub struct State {
    pub descriptors: Map<Seq<char>, Ty>,
    pub function_exports: Map<Seq<char>, (usize, usize)>,
    pub function_imports: Map<Seq<char>, (usize, usize)>,
    pub vendor_prefixes: Map<Seq<char>, Seq<Seq<char>>>,
    pub local_modules: Map<Seq<char>, Seq<char>>,
    pub snippets: Map<Seq<char>, Seq<Seq<char>>>,
    pub crate_id: Seq<char>,
    pub start_found: bool,
    pub start: Option<usize>,
    pub start_action: Option<StartAction>,
    pub exports: Map<usize, FnTy>,
    pub export_map: Map<usize, AuxExportModel>,
    pub imports: Map<usize, BindingModel>,
    pub import_map: Map<usize, AuxImportModel>,
    pub catch: Set<usize>,
    pub variadic: Set<usize>,
    pub enums: Seq<AuxEnumModel>,
    pub structs: Seq<AuxStructModel>,
    pub extra_typescript: Seq<char>,
    pub package_jsons: Seq<Seq<char>>,
}

/// The views of the values of a map.
pub open spec fn map_views<K, V: View>(m: Map<K, V>) -> Map<K, V::V> {
    m.map_values(|v: V| v@)
}

/// The views of a map whose values are lists of strings.
pub open spec fn list_views(m: Map<Seq<char>, Vec<String>>) -> Map<Seq<char>, Seq<Seq<char>>> {
    m.map_values(|v: Vec<String>| strings_view(v@))
}

/// The views of the items of a list.
pub open spec fn seq_views<V: View>(s: Seq<V>) -> Seq<V::V> {
    s.map_values(|v: V| v@)
}

pub proof fn lemma_views_insert<K, V: View>(m: Map<K, V>, k: K, v: V)
    ensures
        map_views(m.insert(k, v)) == map_views(m).insert(k, v@),
{
    assert(map_views(m.insert(k, v)) =~= map_views(m).insert(k, v@));
}

pub proof fn lemma_views_remove<K, V: View>(m: Map<K, V>, k: K)
    ensures
        map_views(m.remove(k)) == map_views(m).remove(k),
{
    assert(map_views(m.remove(k)) =~= map_views(m).remove(k));
}

pub proof fn lemma_list_views_insert(m: Map<Seq<char>, Vec<String>>, k: Seq<char>, v: Vec<String>)
    ensures
        list_views(m.insert(k, v)) == list_views(m).insert(k, strings_view(v@)),
{
    assert(list_views(m.insert(k, v)) =~= list_views(m).insert(k, strings_view(v@)));
}

pub proof fn lemma_list_views_remove(m: Map<Seq<char>, Vec<String>>, k: Seq<char>)
    ensures
        list_views(m.remove(k)) == list_views(m).remove(k),
{
    assert(list_views(m.remove(k)) =~= list_views(m).remove(k));
}

pub proof fn lemma_seq_views_push<V: View>(s: Seq<V>, v: V)
    ensures
        seq_views(s.push(v)) == seq_views(s).push(v@),
{
    assert(seq_views(s.push(v)) =~= seq_views(s).push(v@));
}

/// Where `item` of `import` resolves in state `s`.
pub open spec fn resolve_in(s: State, import: Import, item: Seq<char>) -> Result<JsImportModel, ErrorKind> {
    resolve_import(import, item, s.local_modules, s.vendor_prefixes, s.crate_id, snippet_count(s.snippets, s.crate_id))
}

/// Binding one export.
pub open spec fn export_step(s: State, e: Export) -> Result<State, ErrorKind> {
    let name = export_wasm_name(e);
    if !s.descriptors.contains_key(name) {
        Ok(s)
    } else if !(s.descriptors[name] is Function) {
        Err(ErrorKind::NotAFunction)
    } else if !s.function_exports.contains_key(name) {
        Err(ErrorKind::MissingExport)
    } else if e.start && s.start_found {
        Err(ErrorKind::TwoStartFunctions)
    } else {
        let (export_id, function_id) = s.function_exports[name];
        let (kind, implicit) = export_placement(e);
        Ok(State {
            descriptors: s.descriptors.remove(name),
            start_found: s.start_found || e.start,
            start_action: if e.start {
                Some(match s.start {
                    None => StartAction::Install(function_id),
                    Some(prev) => StartAction::Chain { first: prev, then: function_id },
                })
            } else {
                s.start_action
            },
            exports: s.exports.insert(export_id, with_receiver(fn_of(s.descriptors[name]), implicit)),
            export_map: s.export_map.insert(export_id, AuxExportModel {
                debug_name: name,
                comments: comments_text(strings_view(e.comments@)),
                arg_names: Some(strings_view(e.function.arg_names@)),
                kind,
            }),
            ..s
        })
    }
}

/// The target and call style of a function import.
pub open spec fn function_import_plan(s: State, import: Import, f: ImportFunction) -> Result<(AuxImportModel, CallStyle), ErrorKind> {
    match f.method {
        Some(data) => match resolve_in(s, import, data.class@) {
            Err(k) => Err(k),
            Ok(class) => match data.kind {
                MethodKind::Constructor => Ok((AuxImportModel::Value(AuxValueModel::Bare(class)), CallStyle::Constructor)),
                MethodKind::Operation(op) => match import_op_target(class, f.function.name@, f.structural, op) {
                    Err(k) => Err(k),
                    Ok((t, m)) => Ok((t, if m { CallStyle::Method } else { CallStyle::Function })),
                },
            },
        },
        None => match resolve_in(s, import, f.function.name@) {
            Err(k) => Err(k),
            Ok(j) => Ok((AuxImportModel::Value(AuxValueModel::Bare(j)), CallStyle::Function)),
        },
    }
}

/// Binding one function import.
pub open spec fn import_function_step(s: State, import: Import, f: ImportFunction) -> Result<State, ErrorKind> {
    if !s.function_imports.contains_key(f.shim@) || !s.descriptors.contains_key(f.shim@) {
        Ok(s)
    } else if !(s.descriptors[f.shim@] is Function) {
        Err(ErrorKind::NotAFunction)
    } else {
        let id = s.function_imports[f.shim@].0;
        match function_import_plan(s, import, f) {
            Err(k) => Err(k),
            Ok((t, style)) => Ok(State {
                descriptors: s.descriptors.remove(f.shim@),
                imports: s.imports.insert(id, binding_model(style, fn_of(s.descriptors[f.shim@]))),
                import_map: s.import_map.insert(id, t),
                variadic: if f.variadic { s.variadic.insert(id) } else { s.variadic },
                catch: if f.catch { s.catch.insert(id) } else { s.catch },
                ..s
            }),
        }
    }
}

/// Binding one static-value import.
pub open spec fn import_static_step(s: State, import: Import, st: ImportStatic) -> Result<State, ErrorKind> {
    if !s.function_imports.contains_key(st.shim@) {
        Ok(s)
    } else {
        let id = s.function_imports[st.shim@].0;
        match resolve_in(s, import, st.name@) {
            Err(k) => Err(k),
            Ok(j) => Ok(State {
                imports: s.imports.insert(id, BindingModel::Function(FnTy { arguments: Seq::empty(), shim_idx: 0, ret: Box::new(Ty::Anyref) })),
                import_map: s.import_map.insert(id, AuxImportModel::Static(j)),
                ..s
            }),
        }
    }
}

/// Binding one type import.
pub open spec fn import_type_step(s: State, import: Import, t: ImportType) -> Result<State, ErrorKind> {
    if !s.function_imports.contains_key(t.instanceof_shim@) {
        Ok(s)
    } else {
        let id = s.function_imports[t.instanceof_shim@].0;
        match resolve_in(s, import, t.name@) {
            Err(k) => Err(k),
            Ok(j) => Ok(State {
                imports: s.imports.insert(id, BindingModel::Function(FnTy {
                    arguments: seq![Ty::Ref(Box::new(Ty::Anyref))],
                    shim_idx: 0,
                    ret: Box::new(Ty::I32),
                })),
                import_map: s.import_map.insert(id, AuxImportModel::Instanceof(j)),
                ..s
            }),
        }
    }
}

/// Binding one import declaration.
pub open spec fn import_step(s: State, import: Import) -> Result<State, ErrorKind> {
    match import.kind {
        ImportKind::Function(f) => import_function_step(s, import, f),
        ImportKind::Static(st) => import_static_step(s, import, st),
        ImportKind::Type(t) => import_type_step(s, import, t),
        ImportKind::Enum => Ok(s),
    }
}

/// Collecting the vendor prefixes of one import.
pub open spec fn vendor_step(s: State, import: Import) -> State {
    match import.kind {
        ImportKind::Type(t) => if t.vendor_prefixes@.len() == 0 {
            s
        } else {
            let prev = if s.vendor_prefixes.contains_key(t.name@) { s.vendor_prefixes[t.name@] } else { Seq::empty() };
            State { vendor_prefixes: s.vendor_prefixes.insert(t.name@, prev + strings_view(t.vendor_prefixes@)), ..s }
        },
        _ => s,
    }
}

/// Recording one enum.
pub open spec fn enum_step(s: State, e: Enum) -> State {
    State {
        enums: s.enums.push(AuxEnumModel {
            name: e.name@,
            comments: comments_text(strings_view(e.comments@)),
            variants: e.variants@.map_values(|v: EnumVariant| (v.name@, v.value)),
        }),
        ..s
    }
}

/// Synthesising the accessors of field `i` of a struct.
pub open spec fn field_step(s: State, st: Struct, i: int) -> Result<State, ErrorKind> {
    let g = getter_of(st, i);
    let field = st.fields@[i];
    if !s.descriptors.contains_key(g) {
        Ok(s)
    } else if !s.function_exports.contains_key(g) {
        Err(ErrorKind::MissingExport)
    } else {
        let ty = s.descriptors[g];
        let gid = s.function_exports[g].0;
        let s1 = State {
            descriptors: s.descriptors.remove(g),
            exports: s.exports.insert(gid, FnTy { arguments: seq![Ty::I32], shim_idx: 0, ret: Box::new(ty) }),
            export_map: s.export_map.insert(gid, AuxExportModel {
                debug_name: accessor_debug_name("getter"@, st.name@, field.name@),
                comments: comments_text(strings_view(field.comments@)),
                arg_names: None,
                kind: ExportKindModel::Getter(st.name@, field.name@),
            }),
            ..s
        };
        if field.readonly {
            Ok(s1)
        } else if !s.function_exports.contains_key(setter_of(st, i)) {
            Err(ErrorKind::MissingExport)
        } else {
            let sid = s.function_exports[setter_of(st, i)].0;
            Ok(State {
                exports: s1.exports.insert(sid, FnTy { arguments: seq![Ty::I32, ty], shim_idx: 0, ret: Box::new(Ty::Unit) }),
                export_map: s1.export_map.insert(sid, AuxExportModel {
                    debug_name: accessor_debug_name("setter"@, st.name@, field.name@),
                    comments: comments_text(strings_view(field.comments@)),
                    arg_names: None,
                    kind: ExportKindModel::Setter(st.name@, field.name@),
                }),
                ..s1
            })
        }
    }
}

/// Synthesising the accessors of the first `n` fields of a struct.
pub open spec fn fields_fold(s: State, st: Struct, n: nat) -> Result<State, ErrorKind>
    decreases n,
{
    if n == 0 {
        Ok(s)
    } else {
        match fields_fold(s, st, (n - 1) as nat) {
            Err(k) => Err(k),
            Ok(s1) => field_step(s1, st, n - 1),
        }
    }
}

/// Registering one struct.
pub open spec fn struct_step(s: State, st: Struct) -> Result<State, ErrorKind> {
    match fields_fold(s, st, st.fields@.len()) {
        Err(k) => Err(k),
        Ok(s1) => {
            let s2 = State {
                structs: s1.structs.push(AuxStructModel { name: st.name@, comments: comments_text(strings_view(st.comments@)) }),
                ..s1
            };
            if s2.function_imports.contains_key(new_function_of(st.name@)) {
                let id = s2.function_imports[new_function_of(st.name@)].0;
                Ok(State {
                    import_map: s2.import_map.insert(id, AuxImportModel::WrapInExportedClass(st.name@)),
                    imports: s2.imports.insert(id, BindingModel::Function(FnTy { arguments: seq![Ty::I32], shim_idx: 0, ret: Box::new(Ty::Anyref) })),
                    ..s2
                })
            } else {
                Ok(s2)
            }
        }
    }
}

pub open spec fn exports_fold(s: State, es: Seq<Export>) -> Result<State, ErrorKind>
    decreases es.len(),
{
    if es.len() == 0 {
        Ok(s)
    } else {
        match exports_fold(s, es.drop_last()) {
            Err(k) => Err(k),
            Ok(s1) => export_step(s1, es.last()),
        }
    }
}

pub open spec fn vendor_fold(s: State, is: Seq<Import>) -> State
    decreases is.len(),
{
    if is.len() == 0 {
        s
    } else {
        vendor_step(vendor_fold(s, is.drop_last()), is.last())
    }
}

pub open spec fn imports_fold(s: State, is: Seq<Import>) -> Result<State, ErrorKind>
    decreases is.len(),
{
    if is.len() == 0 {
        Ok(s)
    } else {
        match imports_fold(s, is.drop_last()) {
            Err(k) => Err(k),
            Ok(s1) => import_step(s1, is.last()),
        }
    }
}

pub open spec fn enums_fold(s: State, es: Seq<Enum>) -> State
    decreases es.len(),
{
    if es.len() == 0 {
        s
    } else {
        enum_step(enums_fold(s, es.drop_last()), es.last())
    }
}

pub open spec fn structs_fold(s: State, ss: Seq<Struct>) -> Result<State, ErrorKind>
    decreases ss.len(),
{
    if ss.len() == 0 {
        Ok(s)
    } else {
        match structs_fold(s, ss.drop_last()) {
            Err(k) => Err(k),
            Ok(s1) => struct_step(s1, ss.last()),
        }
    }
}

/// Registering local modules in order; a name registered again must come
/// with the same contents.
pub open spec fn modules_fold(s: State, mods: Seq<LocalModule>) -> Result<State, ErrorKind>
    decreases mods.len(),
{
    if mods.len() == 0 {
        Ok(s)
    } else {
        match modules_fold(s, mods.drop_last()) {
            Err(k) => Err(k),
            Ok(s1) => {
                let m = mods.last();
                if s1.local_modules.contains_key(m.identifier@) && s1.local_modules[m.identifier@] != m.contents@ {
                    Err(ErrorKind::LocalModuleMismatch)
                } else {
                    Ok(State { local_modules: s1.local_modules.insert(m.identifier@, m.contents@), ..s1 })
                }
            },
        }
    }
}

/// Adds a package manifest path unless it is already listed.
pub open spec fn add_package_json(list: Seq<Seq<char>>, p: Seq<char>) -> Seq<Seq<char>> {
    if list.contains(p) { list } else { list.push(p) }
}

/// The state once the unit's crate identifier is current.
pub open spec fn with_crate(s: State, p: Program) -> State {
    State { crate_id: p.unique_crate_identifier@, ..s }
}

/// The state once the unit's package manifest is listed.
pub open spec fn with_package(s: State, p: Program) -> State {
    match p.package_json {
        Some(j) => State { package_jsons: add_package_json(s.package_jsons, j@), ..s },
        None => s,
    }
}

/// A unit's local modules and package manifest.
pub open spec fn before_exports(s: State, p: Program) -> Result<State, ErrorKind> {
    match modules_fold(with_crate(s, p), p.local_modules@) {
        Err(k) => Err(k),
        Ok(s1) => Ok(with_package(s1, p)),
    }
}

/// A unit up to its exports and the vendor prefixes of its imports.
pub open spec fn before_imports(s: State, p: Program) -> Result<State, ErrorKind> {
    match before_exports(s, p) {
        Err(k) => Err(k),
        Ok(s2) => match exports_fold(s2, p.exports@) {
            Err(k) => Err(k),
            Ok(s3) => Ok(vendor_fold(s3, p.imports@)),
        },
    }
}

/// A unit up to its imports and enums.
pub open spec fn before_structs(s: State, p: Program) -> Result<State, ErrorKind> {
    match before_imports(s, p) {
        Err(k) => Err(k),
        Ok(s4) => match imports_fold(s4, p.imports@) {
            Err(k) => Err(k),
            Ok(s5) => Ok(enums_fold(s5, p.enums@)),
        },
    }
}

/// The typescript sections and inline snippets of a unit.
pub open spec fn unit_tail(s: State, p: Program) -> State {
    let s8 = State { extra_typescript: s.extra_typescript + typescript_text(strings_view(p.typescript_custom_sections@)), ..s };
    let id = p.unique_crate_identifier@;
    State { snippets: s8.snippets.insert(id, snippets_of(s8.snippets, id) + strings_view(p.inline_js@)), ..s8 }
}

/// Processing one program unit: local modules, exports, vendor prefixes,
/// imports, enums, structs, typescript and snippets, in that order.
pub open spec fn unit_step(s: State, p: Program) -> Result<State, ErrorKind> {
    match before_structs(s, p) {
        Err(k) => Err(k),
        Ok(s6) => match structs_fold(s6, p.structs@) {
            Err(k) => Err(k),
            Ok(s7) => Ok(unit_tail(s7, p)),
        },
    }
}

/// Processing the program units in order.
pub open spec fn units_fold(s: State, ps: Seq<Program>) -> Result<State, ErrorKind>
    decreases ps.len(),
{
    if ps.len() == 0 {
        Ok(s)
    } else {
        match units_fold(s, ps.drop_last()) {
            Err(k) => Err(k),
            Ok(s1) => unit_step(s1, ps.last()),
        }
    }
}

/// The function exports of a module by name; a later export of a name wins.
pub open spec fn export_table(es: Seq<BoundaryExport>) -> Map<Seq<char>, (usize, usize)>
    decreases es.len(),
{
    if es.len() == 0 {
        Map::empty()
    } else {
        export_table(es.drop_last()).insert(es.last().name@, (es.last().export_id, es.last().function_id))
    }
}

/// The descriptor table by name; a later entry of a name wins.
pub open spec fn descriptor_table(ds: Seq<(String, Descriptor)>) -> Map<Seq<char>, Ty>
    decreases ds.len(),
{
    if ds.len() == 0 {
        Map::empty()
    } else {
        descriptor_table(ds.drop_last()).insert(ds.last().0@, ds.last().1@)
    }
}

/// The import tables that the module's imports give before any unit.
pub struct ImportTables {
    pub function_imports: Map<Seq<char>, (usize, usize)>,
    pub imports: Map<usize, BindingModel>,
    pub import_map: Map<usize, AuxImportModel>,
}

/// Indexes the placeholder function imports, binding the intrinsics.
pub open spec fn import_scan(is: Seq<BoundaryImport>) -> ImportTables
    decreases is.len(),
{
    if is.len() == 0 {
        ImportTables { function_imports: Map::empty(), imports: Map::empty(), import_map: Map::empty() }
    } else {
        let t = import_scan(is.drop_last());
        let i = is.last();
        if is_placeholder(i) && i.function_id is Some {
            let t2 = ImportTables { function_imports: t.function_imports.insert(i.name@, (i.import_id, i.function_id->0)), ..t };
            match i.intrinsic {
                Some(x) => ImportTables {
                    imports: t2.imports.insert(i.import_id, BindingModel::Function(x.binding@)),
                    import_map: t2.import_map.insert(i.import_id, AuxImportModel::Intrinsic(x.symbol@)),
                    ..t2
                },
                None => t2,
            }
        } else {
            t
        }
    }
}

/// Binds the imports that manufacture closures.
pub open spec fn closure_scan(t: ImportTables, cs: Seq<(usize, Closure)>) -> ImportTables
    decreases cs.len(),
{
    if cs.len() == 0 {
        t
    } else {
        let t1 = closure_scan(t, cs.drop_last());
        let (id, c) = cs.last();
        ImportTables {
            import_map: t1.import_map.insert(id, AuxImportModel::Closure(c.view_ty())),
            imports: t1.imports.insert(id, BindingModel::Function(FnTy {
                arguments: seq![Ty::I32, Ty::I32, Ty::I32],
                shim_idx: 0,
                ret: Box::new(Ty::Anyref),
            })),
            ..t1
        }
    }
}

/// The state of the pass before the first unit.
pub open spec fn init_state(m: ModuleBoundary) -> State {
    let t = closure_scan(import_scan(m.imports@), m.closure_imports@);
    State {
        descriptors: descriptor_table(m.descriptors@),
        function_exports: export_table(m.exports@),
        function_imports: t.function_imports,
        vendor_prefixes: Map::empty(),
        local_modules: Map::empty(),
        snippets: Map::empty(),
        crate_id: Seq::empty(),
        start_found: false,
        start: m.start,
        start_action: None,
        exports: Map::empty(),
        export_map: Map::empty(),
        imports: t.imports,
        import_map: t.import_map,
        catch: Set::empty(),
        variadic: Set::empty(),
        enums: Seq::empty(),
        structs: Seq::empty(),
        extra_typescript: Seq::empty(),
        package_jsons: Seq::empty(),
    }
}

/// The closing consistency of the records in a state.
pub open spec fn state_consistent(imports: Seq<BoundaryImport>, s: State) -> bool {
    &&& forall|i: int| 0 <= i < imports.len() && is_placeholder(#[trigger] imports[i]) ==> {
        &&& imports[i].function_id is Some
        &&& s.import_map.contains_key(imports[i].import_id)
        &&& s.imports.contains_key(imports[i].import_id)
    }
    &&& s.import_map.len() == placeholder_count(imports)
    &&& s.imports.len() == placeholder_count(imports)
    &&& forall|k: usize| #[trigger] s.exports.contains_key(k) ==> s.export_map.contains_key(k)
    &&& s.exports.len() == s.export_map.len()
}

pub proof fn lemma_views_dom<K, V: View>(m: Map<K, V>)
    ensures
        map_views(m).dom() == m.dom(),
{
    assert(map_views(m).dom() =~= m.dom());
}

pub proof fn lemma_fields_err(s: State, st: Struct, k: nat, m: nat)
    requires
        k <= m,
        fields_fold(s, st, k) is Err,
    ensures
        fields_fold(s, st, m) == fields_fold(s, st, k),
    decreases m - k,
{
    if k < m {
        lemma_fields_err(s, st, k, (m - 1) as nat);
    }
}

pub proof fn lemma_modules_err(s: State, xs: Seq<LocalModule>, n: int)
    requires
        0 <= n <= xs.len(),
        modules_fold(s, xs.subrange(0, n)) is Err,
    ensures
        modules_fold(s, xs) == modules_fold(s, xs.subrange(0, n)),
    decreases xs.len() - n,
{
    if n < xs.len() {
        assert(xs.subrange(0, n + 1).drop_last() =~= xs.subrange(0, n));
        lemma_modules_err(s, xs, n + 1);
    } else {
        assert(xs.subrange(0, n) =~= xs);
    }
}

pub proof fn lemma_exports_err(s: State, xs: Seq<Export>, n: int)
    requires
        0 <= n <= xs.len(),
        exports_fold(s, xs.subrange(0, n)) is Err,
    ensures
        exports_fold(s, xs) == exports_fold(s, xs.subrange(0, n)),
    decreases xs.len() - n,
{
    if n < xs.len() {
        assert(xs.subrange(0, n + 1).drop_last() =~= xs.subrange(0, n));
        lemma_exports_err(s, xs, n + 1);
    } else {
        assert(xs.subrange(0, n) =~= xs);
    }
}

pub proof fn lemma_imports_err(s: State, xs: Seq<Import>, n: int)
    requires
        0 <= n <= xs.len(),
        imports_fold(s, xs.subrange(0, n)) is Err,
    ensures
        imports_fold(s, xs) == imports_fold(s, xs.subrange(0, n)),
    decreases xs.len() - n,
{
    if n < xs.len() {
        assert(xs.subrange(0, n + 1).drop_last() =~= xs.subrange(0, n));
        lemma_imports_err(s, xs, n + 1);
    } else {
        assert(xs.subrange(0, n) =~= xs);
    }
}

pub proof fn lemma_structs_err(s: State, xs: Seq<Struct>, n: int)
    requires
        0 <= n <= xs.len(),
        structs_fold(s, xs.subrange(0, n)) is Err,
    ensures
        structs_fold(s, xs) == structs_fold(s, xs.subrange(0, n)),
    decreases xs.len() - n,
{
    if n < xs.len() {
        assert(xs.subrange(0, n + 1).drop_last() =~= xs.subrange(0, n));
        lemma_structs_err(s, xs, n + 1);
    } else {
        assert(xs.subrange(0, n) =~= xs);
    }
}

pub proof fn lemma_units_err(s: State, xs: Seq<Program>, n: int)
    requires
        0 <= n <= xs.len(),
        units_fold(s, xs.subrange(0, n)) is Err,
    ensures
        units_fold(s, xs) == units_fold(s, xs.subrange(0, n)),
    decreases xs.len() - n,
{
    if n < xs.len() {
        assert(xs.subrange(0, n + 1).drop_last() =~= xs.subrange(0, n));
        lemma_units_err(s, xs, n + 1);
    } else {
        assert(xs.subrange(0, n) =~= xs);
    }
}

/// Binding an export marked as the start function sets the start flag.
pub proof fn lemma_start_export_sets_flag(s: State, e: Export)
    requires
        e.start,
        s.descriptors.contains_key(export_wasm_name(e)),
        export_step(s, e) is Ok,
    ensures
        export_step(s, e)->Ok_0.start_found,
{
}

/// With the start flag set, a second export marked as the start function is
/// rejected as soon as its descriptor is claimed.
pub proof fn lemma_second_start_rejected(s: State, e: Export)
    requires
        s.start_found,
        e.start,
        s.descriptors.contains_key(export_wasm_name(e)),
        s.descriptors[export_wasm_name(e)] is Function,
        s.function_exports.contains_key(export_wasm_name(e)),
    ensures
        export_step(s, e) == Err::<State, ErrorKind>(ErrorKind::TwoStartFunctions),
{
}

proof fn lemma_fields_keep_start(s: State, st: Struct, n: nat)
    requires
        s.start_found,
        fields_fold(s, st, n) is Ok,
    ensures
        fields_fold(s, st, n)->Ok_0.start_found,
    decreases n,
{
    if n > 0 {
        lemma_fields_keep_start(s, st, (n - 1) as nat);
    }
}

proof fn lemma_exports_keep_start(s: State, xs: Seq<Export>)
    requires
        s.start_found,
        exports_fold(s, xs) is Ok,
    ensures
        exports_fold(s, xs)->Ok_0.start_found,
    decreases xs.len(),
{
    if xs.len() > 0 {
        lemma_exports_keep_start(s, xs.drop_last());
    }
}

proof fn lemma_imports_keep_start(s: State, xs: Seq<Import>)
    requires
        s.start_found,
        imports_fold(s, xs) is Ok,
    ensures
        imports_fold(s, xs)->Ok_0.start_found,
    decreases xs.len(),
{
    if xs.len() > 0 {
        lemma_imports_keep_start(s, xs.drop_last());
    }
}

proof fn lemma_vendor_keeps_start(s: State, xs: Seq<Import>)
    ensures
        vendor_fold(s, xs).start_found == s.start_found,
    decreases xs.len(),
{
    if xs.len() > 0 {
        lemma_vendor_keeps_start(s, xs.drop_last());
    }
}

proof fn lemma_enums_keep_start(s: State, xs: Seq<Enum>)
    ensures
        enums_fold(s, xs).start_found == s.start_found,
    decreases xs.len(),
{
    if xs.len() > 0 {
        lemma_enums_keep_start(s, xs.drop_last());
    }
}

proof fn lemma_structs_keep_start(s: State, xs: Seq<Struct>)
    requires
        s.start_found,
        structs_fold(s, xs) is Ok,
    ensures
        structs_fold(s, xs)->Ok_0.start_found,
    decreases xs.len(),
{
    if xs.len() > 0 {
        lemma_structs_keep_start(s, xs.drop_last());
        let s1 = structs_fold(s, xs.drop_last())->Ok_0;
        lemma_fields_keep_start(s1, xs.last(), xs.last().fields@.len());
    }
}

proof fn lemma_modules_keep_start(s: State, xs: Seq<LocalModule>)
    requires
        modules_fold(s, xs) is Ok,
    ensures
        modules_fold(s, xs)->Ok_0.start_found == s.start_found,
    decreases xs.len(),
{
    if xs.len() > 0 {
        lemma_modules_keep_start(s, xs.drop_last());
    }
}

/// Once a start function is bound, it stays bound through later units, so
/// a start export in any later unit is rejected by the law above.
pub proof fn lemma_units_keep_start(s: State, ps: Seq<Program>)
    requires
        s.start_found,
        units_fold(s, ps) is Ok,
    ensures
        units_fold(s, ps)->Ok_0.start_found,
    decreases ps.len(),
{
    if ps.len() > 0 {
        lemma_units_keep_start(s, ps.drop_last());
        let s1 = units_fold(s, ps.drop_last())->Ok_0;
        let p = ps.last();
        lemma_modules_keep_start(with_crate(s1, p), p.local_modules@);
        let s2 = before_exports(s1, p)->Ok_0;
        lemma_exports_keep_start(s2, p.exports@);
        let s3 = exports_fold(s2, p.exports@)->Ok_0;
        lemma_vendor_keeps_start(s3, p.imports@);
        lemma_imports_keep_start(vendor_fold(s3, p.imports@), p.imports@);
        let s5 = imports_fold(vendor_fold(s3, p.imports@), p.imports@)->Ok_0;
        lemma_enums_keep_start(s5, p.enums@);
        lemma_structs_keep_start(enums_fold(s5, p.enums@), p.structs@);
    }
}

} // verus!
