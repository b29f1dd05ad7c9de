//! Contracts speak of the values that things stand for: nothing of a thing is lost in its
//! value that the pass can tell apart.

use vstd::prelude::*;

use crate::amd::{Amd, exports_name, no_helpers};
use crate::ast::{
    Decl, DefaultDecl, ExportSpecifier, Ident, ImportSpecifier, Module, ModuleDecl, ModuleItem,
    Node, Span, Str,
};
use crate::define::reading;
use crate::emit::starts_strict;
use crate::finish::Reading;
use crate::hygiene::{Contexts, Store, numbers_from, store_of};
use crate::imports::state_of;
use crate::items::{OutputView, export_alls, has_export};
use crate::model::{
    DeclView, DefaultDeclView, ExportSpecifierView, ImportDeclView, ImportSpecifierView,
    ModuleDeclView, ModuleItemView, NamedExportView, VarDeclView, export_specifiers_view,
    ident_opt_view, import_specifiers_view, items_view, lemma_kids, nodes_view, strings_view,
};
use crate::names::names_in;
use crate::read::{Output, origin_view};
use crate::scope::{
    BindingView, Id, IdView, ImportView, Scope, distinct_srcs, empty_scope, id_of, idents_view,
    ids_of, ids_view,
};
use crate::table::{Key, Table, key_at, lemma_entry};
use crate::util;

verus! {

// ---------------------------------------------------------------------------
// Trees and modules
// ---------------------------------------------------------------------------

/// The value of a tree has its place, its form, its text and the values of its kids, in order.
pub proof fn law_tree_values(n: Node, list: Seq<Node>, i: int)
    requires
        0 <= i < list.len(),
    ensures
        n@.span == n.span,
        n@.form == n.form,
        n@.text == n.text@,
        n@.kids.len() == n.kids@.len(),
        forall|k: int| 0 <= k < n.kids@.len() ==> #[trigger] n@.kids[k] == n.kids@[k]@,
        nodes_view(list).len() == list.len(),
        nodes_view(list)[i] == list[i]@,
{
    lemma_kids(n);
}

/// The value of a name has its spelling and its place; names are the same where spelling and
/// context are.
pub proof fn law_name_values(ident: Ident, s: Str, id: Id, list: Seq<Ident>, i: int)
    requires
        0 <= i < list.len(),
    ensures
        ident@.sym == ident.sym@,
        ident@.span == ident.span,
        s@.value == s.value@,
        s@.span == s.span,
        id@.sym == id.sym@,
        id@.ctxt == id.ctxt,
        id_of(ident@).sym == ident.sym@,
        id_of(ident@).ctxt == ident.span.ctxt,
        idents_view(list).len() == list.len(),
        idents_view(list)[i] == list[i]@,
        ids_of(idents_view(list)).len() == list.len(),
        ids_of(idents_view(list))[i] == id_of(list[i]@),
        ident_opt_view(Some(ident)) == Some(ident@),
        ident_opt_view(None) is None,
{
}

/// Lists have the values of their members, in order.
pub proof fn law_list_values(
    ids: Seq<Id>,
    strings: Seq<String>,
    items: Seq<ModuleItem>,
    imports: Seq<ImportSpecifier>,
    exports: Seq<ExportSpecifier>,
    i: int,
)
    ensures
        ids_view(ids).len() == ids.len(),
        strings_view(strings).len() == strings.len(),
        items_view(items).len() == items.len(),
        import_specifiers_view(imports).len() == imports.len(),
        export_specifiers_view(exports).len() == exports.len(),
        0 <= i < ids.len() ==> ids_view(ids)[i] == ids[i]@,
        0 <= i < strings.len() ==> strings_view(strings)[i] == strings[i]@,
        0 <= i < items.len() ==> items_view(items)[i] == items[i]@,
        0 <= i < imports.len() ==> import_specifiers_view(imports)[i] == imports[i]@,
        0 <= i < exports.len() ==> export_specifiers_view(exports)[i] == exports[i]@,
{
}

/// Every item of a module has a value of its own kind.
pub proof fn law_item_values(item: ModuleItem)
    ensures
        match item {
            ModuleItem::Stmt(s) => item@ == ModuleItemView::Stmt(s@),
            ModuleItem::ModuleDecl(d) => item@ == ModuleItemView::ModuleDecl(d@) && match d {
                ModuleDecl::Import(d) => item@ == ModuleItemView::ModuleDecl(
                    ModuleDeclView::Import(
                        ImportDeclView {
                            specifiers: import_specifiers_view(d.specifiers@),
                            src: d.src@,
                        },
                    ),
                ),
                ModuleDecl::ExportDecl(d) => item@ == ModuleItemView::ModuleDecl(
                    ModuleDeclView::ExportDecl(d.decl@),
                ),
                ModuleDecl::ExportNamed(d) => item@ == ModuleItemView::ModuleDecl(
                    ModuleDeclView::ExportNamed(
                        NamedExportView {
                            specifiers: export_specifiers_view(d.specifiers@),
                            src: match d.src {
                                Some(src) => Some(src@),
                                None => None,
                            },
                        },
                    ),
                ),
                ModuleDecl::ExportDefaultDecl(d) => item@ == ModuleItemView::ModuleDecl(
                    ModuleDeclView::ExportDefaultDecl(d.decl@),
                ),
                ModuleDecl::ExportDefaultExpr(d) => item@ == ModuleItemView::ModuleDecl(
                    ModuleDeclView::ExportDefaultExpr(d.expr@),
                ),
                ModuleDecl::ExportAll(d) => item@ == ModuleItemView::ModuleDecl(
                    ModuleDeclView::ExportAll(d.src@),
                ),
                ModuleDecl::TsImportEquals(_)
                | ModuleDecl::TsExportAssignment(_)
                | ModuleDecl::TsNamespaceExport(_) => item@ == ModuleItemView::ModuleDecl(
                    ModuleDeclView::Ts,
                ),
            },
        },
{
}

/// Every declaration has a value of its own kind; only types have none.
pub proof fn law_declaration_values(d: Decl, e: DefaultDecl)
    ensures
        match d {
            Decl::Class(c) => d@ == (DeclView::Class {
                ident: c.ident@,
                declare: c.declare,
                class: c.class@,
            }),
            Decl::Fn(f) => d@ == (DeclView::Fn {
                ident: f.ident@,
                declare: f.declare,
                function: f.function@,
            }),
            Decl::Var(v) => d@ == DeclView::Var(
                VarDeclView {
                    span: v.span,
                    kind: v.kind,
                    declare: v.declare,
                    decls: nodes_view(v.decls@),
                },
            ),
            Decl::TsInterface(_)
            | Decl::TsTypeAlias(_)
            | Decl::TsEnum(_)
            | Decl::TsModule(_) => d@ == DeclView::Ts,
        },
        match e {
            DefaultDecl::Class(c) => e@ == (DefaultDeclView::Class {
                ident: ident_opt_view(c.ident),
                class: c.class@,
            }),
            DefaultDecl::Fn(f) => e@ == (DefaultDeclView::Fn {
                ident: ident_opt_view(f.ident),
                function: f.function@,
            }),
            DefaultDecl::TsInterfaceDecl(_) => e@ == DefaultDeclView::TsInterfaceDecl,
        },
{
}

/// Every specifier has a value of its own kind, with its names.
pub proof fn law_specifier_values(i: ImportSpecifier, e: ExportSpecifier)
    ensures
        match i {
            ImportSpecifier::Specific { local, imported, .. } => i@ == (
            ImportSpecifierView::Specific {
                local: local@,
                imported: ident_opt_view(imported),
            }),
            ImportSpecifier::Default { local, .. } => i@ == (ImportSpecifierView::Default {
                local: local@,
            }),
            ImportSpecifier::Namespace { local, .. } => i@ == (ImportSpecifierView::Namespace {
                local: local@,
            }),
        },
        match e {
            ExportSpecifier::Named(n) => e@ == (ExportSpecifierView::Named {
                orig: n.orig@,
                exported: ident_opt_view(n.exported),
            }),
            ExportSpecifier::Default { exported, .. } => e@ == (ExportSpecifierView::Default {
                exported: exported@,
            }),
            ExportSpecifier::Namespace { name, .. } => e@ == (ExportSpecifierView::Namespace {
                name: name@,
            }),
        },
{
}

/// The value of a module has its place, its items and its first line.
pub proof fn law_module_values(m: Module)
    ensures
        m@.span == m.span,
        m@.body == items_view(m.body@),
        m@.shebang is Some <==> m.shebang is Some,
        m.shebang is Some ==> m@.shebang == Some(m.shebang->Some_0@),
{
}

// ---------------------------------------------------------------------------
// What is known
// ---------------------------------------------------------------------------

/// A table stands for the map that has each of its keys, with the value beside it, and no other
/// key.
pub proof fn law_table_values<K: Key, V>(table: Table<K, V>, i: int, k: K::V)
    requires
        table.wf(),
    ensures
        0 <= i < table.entries@.len() ==> table@.contains_key(table.entries@[i].0@),
        0 <= i < table.entries@.len() ==> table@[table.entries@[i].0@] == table.entries@[i].1,
        table@.contains_key(k) ==> exists|j: int|
            0 <= j < table.entries@.len() && (#[trigger] table.entries@[j]).0@ == k,
        forall|a: int, b: int|
            0 <= a < b < table.entries@.len() ==> (#[trigger] table.entries@[a]).0@ != (
            #[trigger] table.entries@[b]).0@,
{
    if 0 <= i < table.entries@.len() {
        lemma_entry(table.entries@, i);
    }
    if table@.contains_key(k) {
        let j = choose|j: int| key_at(table.entries@, j, k);
        assert(table.entries@[j].0@ == k);
    }
}

/// The value of a scope lists the modules in order, and has what its tables hold.
pub proof fn law_scope_values(scope: Scope, i: int, id: IdView)
    ensures
        scope@.imports.len() == scope.imports.entries@.len(),
        0 <= i < scope.imports.entries@.len() ==> scope@.imports[i] == (ImportView {
            src: scope.imports.entries@[i].0@,
            local: ident_opt_view(scope.imports.entries@[i].1),
        }),
        scope@.import_types == scope.import_types@,
        scope@.idents.contains_key(id) == scope.idents@.contains_key(id),
        scope.idents@.contains_key(id) ==> scope@.idents[id] == (BindingView {
            src: scope.idents@[id].src@,
            prop: scope.idents@[id].prop@,
        }),
        scope@.declared_vars == ids_view(scope.declared_vars@),
        scope@.exported_vars.contains_key(id) == scope.exported_vars@.contains_key(id),
        scope.exported_vars@.contains_key(id) ==> scope@.exported_vars[id] == ids_view(
            scope.exported_vars@[id]@,
        ),
        scope.wf() <==> {
            &&& scope.imports.wf()
            &&& scope.import_types.wf()
            &&& scope.idents.wf()
            &&& scope.exported_vars.wf()
            &&& distinct_srcs(scope@.imports)
        },
        distinct_srcs(scope@.imports) <==> forall|a: int, b: int|
            0 <= a < b < scope@.imports.len() ==> (#[trigger] scope@.imports[a]).src != (
            #[trigger] scope@.imports[b]).src,
{
}

/// A scope that knows of nothing, a new name and the settings where nothing is said.
pub proof fn law_beginnings(ctxt: u32)
    ensures
        empty_scope().imports.len() == 0,
        forall|src: Seq<char>| !(#[trigger] empty_scope().import_types.contains_key(src)),
        forall|id: IdView| !(#[trigger] empty_scope().idents.contains_key(id)),
        empty_scope().declared_vars.len() == 0,
        forall|id: IdView| !(#[trigger] empty_scope().exported_vars.contains_key(id)),
        exports_name(ctxt).sym == "_exports"@,
        exports_name(ctxt).span == (Span { lo: 0, hi: 0, ctxt }),
        no_helpers(ctxt).ctxt == ctxt,
        !no_helpers(ctxt).interop_require_wildcard,
        !no_helpers(ctxt).interop_require_default,
        !util::default_config().strict,
        util::default_config().strict_mode,
        !util::default_config().no_interop,
{
}

// ---------------------------------------------------------------------------
// The pass
// ---------------------------------------------------------------------------

/// A pass folds with what its scope knows and with the name of its export object.
pub proof fn law_pass_values(pass: Amd, contexts: Contexts)
    ensures
        pass.env().idents == pass.scope@.idents,
        pass.env().imports == pass.scope@.imports,
        pass.env().exported_vars == pass.scope@.exported_vars,
        pass.env().exports == pass.exports@,
        pass.frame(contexts).exports == pass.exports@,
        pass.frame(contexts).pool == contexts.ids(),
        state_of(pass.scope, contexts).scope == pass.scope@,
        state_of(pass.scope, contexts).used == contexts.used,
{
}

/// A pass that has folded code has its settings and its names, and knows the same but for the
/// variables that it has seen declared since; one that has read an item has its settings and its
/// names.
pub proof fn law_pass_changes(a: Amd, b: Amd, more: Seq<IdView>)
    ensures
        a.grown(b, more) ==> {
            &&& b.config == a.config
            &&& b.in_top_level == a.in_top_level
            &&& b.exports == a.exports
            &&& b.helpers == a.helpers
            &&& b.scope@.imports == a.scope@.imports
            &&& b.scope@.import_types == a.scope@.import_types
            &&& b.scope@.idents == a.scope@.idents
            &&& b.scope@.exported_vars == a.scope@.exported_vars
            &&& b.scope@.declared_vars == a.scope@.declared_vars + more
            &&& a.scope.wf() ==> b.scope.wf()
        },
        a.settled(b) ==> {
            &&& b.config == a.config
            &&& b.in_top_level == a.in_top_level
            &&& b.exports == a.exports
            &&& b.helpers == a.helpers
            &&& b.scope.wf()
        },
{
}

/// What was read has the values of its statements and of its names.
pub proof fn law_reading_values(out: Output, read: Reading, origin: Option<(String, Ident)>)
    ensures
        out@.header == nodes_view(out.header@),
        out@.body == nodes_view(out.body@),
        out@.names == strings_view(out.names@),
        out.wf() <==> forall|name: Seq<char>| #[trigger]
            names_in(out.initialized).contains(name) <==> out@.names.contains(name),
        read@.out.header == nodes_view(read.header@),
        read@.out.body == nodes_view(read.body@),
        read@.out.names == strings_view(read.names@),
        read@.has_export == read.has_export,
        read@.alls == strings_view(read.alls@),
        read@.strict == read.strict,
        origin_view(origin) is Some <==> origin is Some,
        origin is Some ==> origin_view(origin)->Some_0.src == origin->Some_0.0@,
        origin is Some ==> origin_view(origin)->Some_0.local == origin->Some_0.1@,
{
    if forall|name: Seq<char>| #[trigger]
        names_in(out.initialized).contains(name) <==> out@.names.contains(name) {
        assert(names_in(out.initialized) =~= out@.names.to_set());
    }
    if out.wf() {
        assert forall|name: Seq<char>| #[trigger]
            names_in(out.initialized).contains(name) <==> out@.names.contains(name) by {
            assert(out@.names.to_set().contains(name) <==> out@.names.contains(name));
        }
    }
}

/// What was read of items is what is known of them as a whole.
pub proof fn law_readings(
    out: OutputView,
    items: Seq<ModuleItemView>,
    a: OutputView,
    b: OutputView,
)
    ensures
        reading(out, items).out == out,
        reading(out, items).has_export == has_export(items),
        reading(out, items).alls == export_alls(items),
        reading(out, items).strict == starts_strict(items),
        a.then_also(b).header == a.header + b.header,
        a.then_also(b).body == a.body + b.body,
        a.then_also(b).names == a.names + b.names,
{
}

/// A store hands out the contexts of fresh marks, one mark for each, and as many as it has room
/// for.
pub proof fn law_store_values(store: Store, contexts: Contexts, n: nat, i: int)
    ensures
        store.after().marks == store.marks + 1,
        store.after().poisoned == store.poisoned,
        ({
            let pair = (0u32, store.marks as u32);
            let early = store.markings.contains_key(pair);
            &&& early ==> store.next_ctxt() == store.markings[pair]
            &&& early ==> store.after().contexts == store.contexts
            &&& !early ==> store.next_ctxt() == store.contexts as u32
            &&& !early ==> store.after().contexts == store.contexts + 1
            &&& store.after().markings == store.markings.insert(pair, store.next_ctxt())
        }),
        numbers_from(store.contexts, n).len() == n,
        0 <= i < n ==> numbers_from(store.contexts, n)[i] == (store.contexts + i) as u32,
        store.after_all(0) == store,
        store.after_all(n + 1) == store.after_all(n).after(),
        store.drawn(n).len() == n,
        0 <= i < n ==> store.drawn(n)[i] == store.after_all(i as nat).next_ctxt(),
        store.has_room(n) <==> !store.poisoned && store.marks + n <= u32::MAX && store.contexts
            + n <= u32::MAX,
        n > 0 ==> (store.has_room(n) <==> n <= store.room()),
        contexts.ids() == contexts.start@.drawn(contexts.start@.room()),
        contexts.wf() ==> contexts.left() + contexts.used == contexts.ids().len(),
        contexts.wf() ==> store_of(contexts.globals) == contexts.start@.after_all(
            contexts.used as nat,
        ),
{
}

} // verus!
