//! What the pass keeps of what it knows, while the items of a module are read.

use vstd::prelude::*;

use crate::bindings::idents_in_all;
use crate::budget::lemma_export_specifiers_imports;
use crate::define::{ReadingView, close_exports, list_name, read_alls, srcs};
use crate::emit::{class_decl_view, fn_decl_view, var_decl_view};
use crate::folding::declared_in;
use crate::imports::{
    State, generated_local, imported_name, with_export_from, with_import, with_local,
    with_specifier, with_specifiers,
};
use crate::items::{
    Frame, Origin, OutputView, default_name, read_item, read_items, read_specifiers,
    with_declared, with_exports, with_named,
};
use crate::model::{
    DeclView, DefaultDeclView, ExportSpecifierView, IdentView, ImportDeclView,
    ImportSpecifierView, ModuleDeclView, ModuleItemView,
};
use crate::scope::{
    IdView, ImportView, ScopeView, bound, exported, id_of, ids_of, lemma_bound, lemma_find_src,
    lemma_mentioned, local_of, mentioned, typed, widened,
};

verus! {

/// Whether a list starts with another.
pub open spec fn starts_with<A>(list: Seq<A>, first: Seq<A>) -> bool {
    first.len() <= list.len() && list.take(first.len() as int) == first
}

/// Whether a scope knows all that another one knew: it lists the same modules first, a
/// module that had a name still has it, a module that went through an interop helper
/// still does, and the variables that were declared and exported still are.
pub open spec fn knows_all_of(after: ScopeView, before: ScopeView) -> bool {
    &&& starts_with(srcs(after.imports), srcs(before.imports))
    &&& forall|src: Seq<char>| #[trigger]
        local_of(before.imports, src) is Some ==> local_of(after.imports, src) == local_of(
            before.imports,
            src,
        )
    &&& forall|src: Seq<char>| #[trigger]
        before.import_types.contains_key(src) ==> after.import_types.contains_key(src) && (
        before.import_types[src] ==> after.import_types[src])
    &&& starts_with(after.declared_vars, before.declared_vars)
    &&& forall|id: IdView| #[trigger]
        before.exported_vars.contains_key(id) ==> after.exported_vars.contains_key(id)
            && starts_with(after.exported_vars[id], before.exported_vars[id])
}

/// What is known stays known.
pub proof fn lemma_knows_transitive(a: ScopeView, b: ScopeView, c: ScopeView)
    requires
        knows_all_of(b, a),
        knows_all_of(c, b),
    ensures
        knows_all_of(c, a),
{
    lemma_starts_transitive(srcs(a.imports), srcs(b.imports), srcs(c.imports));
    lemma_starts_transitive(a.declared_vars, b.declared_vars, c.declared_vars);
    assert forall|id: IdView| #[trigger] a.exported_vars.contains_key(id) implies {
        &&& c.exported_vars.contains_key(id)
        &&& starts_with(c.exported_vars[id], a.exported_vars[id])
    } by {
        assert(b.exported_vars.contains_key(id));
        lemma_starts_transitive(
            a.exported_vars[id],
            b.exported_vars[id],
            c.exported_vars[id],
        );
    }
    assert forall|src: Seq<char>| #[trigger] a.import_types.contains_key(src) implies {
        &&& c.import_types.contains_key(src)
        &&& a.import_types[src] ==> c.import_types[src]
    } by {
        assert(b.import_types.contains_key(src));
    }
    assert forall|src: Seq<char>| #[trigger] local_of(a.imports, src) is Some implies local_of(
        c.imports,
        src,
    ) == local_of(a.imports, src) by {
        assert(local_of(b.imports, src) is Some);
    }
}

/// A list starts with what its own start starts with.
proof fn lemma_starts_transitive<A>(a: Seq<A>, b: Seq<A>, c: Seq<A>)
    requires
        starts_with(b, a),
        starts_with(c, b),
    ensures
        starts_with(c, a),
{
    assert(c.take(a.len() as int) =~= b.take(a.len() as int));
}

/// A scope knows all that it knows.
pub proof fn lemma_knows_itself(scope: ScopeView)
    ensures
        knows_all_of(scope, scope),
{
    assert(srcs(scope.imports).take(scope.imports.len() as int) =~= srcs(scope.imports));
    assert(scope.declared_vars.take(scope.declared_vars.len() as int) =~= scope.declared_vars);
    assert forall|id: IdView| #[trigger] scope.exported_vars.contains_key(id) implies starts_with(
        scope.exported_vars[id],
        scope.exported_vars[id],
    ) by {
        let v = scope.exported_vars[id];
        assert(v.take(v.len() as int) =~= v);
    }
}

/// A scope with another list of modules.
pub open spec fn with_imports(scope: ScopeView, imports: Seq<ImportView>) -> ScopeView {
    ScopeView { imports, ..scope }
}

/// Binding a module.
pub proof fn lemma_keeps_bound(scope: ScopeView, src: Seq<char>, local: IdentView)
    requires
        scope.wf(),
    ensures
        with_imports(scope, bound(scope.imports, src, local)).wf(),
        knows_all_of(with_imports(scope, bound(scope.imports, src, local)), scope),
        local_of(bound(scope.imports, src, local), src) is Some,
{
    let after = with_imports(scope, bound(scope.imports, src, local));
    lemma_knows_itself(scope);
    lemma_bound(scope.imports, src, local);
    lemma_find_src(scope.imports, src);
    assert(srcs(after.imports).take(scope.imports.len() as int) =~= srcs(scope.imports));
    assert forall|s: Seq<char>| #[trigger] local_of(scope.imports, s) is Some implies local_of(
        after.imports,
        s,
    ) == local_of(scope.imports, s) by {
        if s == src {
        }
    }
}

/// Listing a module.
pub proof fn lemma_keeps_mentioned(scope: ScopeView, src: Seq<char>)
    requires
        scope.wf(),
    ensures
        with_imports(scope, mentioned(scope.imports, src)).wf(),
        knows_all_of(with_imports(scope, mentioned(scope.imports, src)), scope),
{
    let after = with_imports(scope, mentioned(scope.imports, src));
    lemma_knows_itself(scope);
    lemma_mentioned(scope.imports, src);
    lemma_find_src(scope.imports, src);
    assert(srcs(after.imports).take(scope.imports.len() as int) =~= srcs(scope.imports));
}

/// Naming a module.
pub proof fn lemma_keeps_local(pool: Seq<u32>, st: State, src: Seq<char>)
    requires
        st.scope.wf(),
    ensures
        with_local(pool, st, src).scope.wf(),
        knows_all_of(with_local(pool, st, src).scope, st.scope),
        local_of(with_local(pool, st, src).scope.imports, src) is Some,
{
    lemma_keeps_bound(st.scope, src, generated_local(src, pool[st.used]));
}

/// Reading import specifiers.
pub proof fn lemma_keeps_specifiers(
    scope: ScopeView,
    src: Seq<char>,
    list: Seq<ImportSpecifierView>,
)
    requires
        scope.wf(),
    ensures
        with_specifiers(scope, src, list).wf(),
        knows_all_of(with_specifiers(scope, src, list), scope),
        with_specifiers(scope, src, list).imports == scope.imports,
    decreases list.len(),
{
    lemma_knows_itself(scope);
    if list.len() > 0 {
        let before = with_specifiers(scope, src, list.drop_last());
        lemma_keeps_specifiers(scope, src, list.drop_last());
        let after = with_specifier(before, src, list.last());
        lemma_knows_itself(before);
        assert(knows_all_of(after, before));
        lemma_knows_transitive(scope, before, after);
    }
}

/// Whether a variable is exported under a name.
pub open spec fn exports_as(scope: ScopeView, var: IdView, name: IdView) -> bool {
    scope.exported_vars.contains_key(var) && scope.exported_vars[var].contains(name)
}

/// What is exported stays exported.
pub proof fn lemma_exports_kept(before: ScopeView, after: ScopeView, var: IdView, name: IdView)
    requires
        knows_all_of(after, before),
        exports_as(before, var, name),
    ensures
        exports_as(after, var, name),
{
    let first = before.exported_vars[var];
    let i = first.index_of(name);
    assert(after.exported_vars[var].take(first.len() as int)[i] == name);
    assert(after.exported_vars[var][i] == name);
}

/// Exporting a variable under one more name.
pub proof fn lemma_keeps_exported(scope: ScopeView, var: IdView, name: IdView)
    ensures
        knows_all_of(
            ScopeView { exported_vars: exported(scope.exported_vars, var, name), ..scope },
            scope,
        ),
        exports_as(
            ScopeView { exported_vars: exported(scope.exported_vars, var, name), ..scope },
            var,
            name,
        ),
{
    let after = ScopeView { exported_vars: exported(scope.exported_vars, var, name), ..scope };
    lemma_knows_itself(scope);
    assert(after.exported_vars[var].last() == name);
    assert forall|id: IdView| #[trigger] scope.exported_vars.contains_key(id) implies {
        &&& after.exported_vars.contains_key(id)
        &&& starts_with(after.exported_vars[id], scope.exported_vars[id])
    } by {
        let v = scope.exported_vars[id];
        if id == var {
            assert(v.push(name).take(v.len() as int) =~= v);
        }
    }
}

/// Exporting variables under their own names.
pub proof fn lemma_keeps_exports(scope: ScopeView, idents: Seq<IdentView>)
    ensures
        knows_all_of(
            ScopeView { exported_vars: with_exports(scope.exported_vars, idents), ..scope },
            scope,
        ),
        forall|i: int|
            0 <= i < idents.len() ==> exports_as(
                ScopeView { exported_vars: with_exports(scope.exported_vars, idents), ..scope },
                id_of(#[trigger] idents[i]),
                id_of(idents[i]),
            ),
    decreases idents.len(),
{
    lemma_knows_itself(scope);
    if idents.len() > 0 {
        let before = ScopeView {
            exported_vars: with_exports(scope.exported_vars, idents.drop_last()),
            ..scope
        };
        let id = id_of(idents.last());
        lemma_keeps_exports(scope, idents.drop_last());
        lemma_keeps_exported(before, id, id);
        let after = ScopeView {
            exported_vars: with_exports(scope.exported_vars, idents),
            ..scope
        };
        lemma_knows_transitive(scope, before, after);
        assert forall|i: int| 0 <= i < idents.len() implies exports_as(
            after,
            id_of(#[trigger] idents[i]),
            id_of(idents[i]),
        ) by {
            if i < idents.len() - 1 {
                assert(idents.drop_last()[i] == idents[i]);
                lemma_exports_kept(before, after, id_of(idents[i]), id_of(idents[i]));
            }
        }
    }
}

/// Seeing more variables declared.
pub proof fn lemma_keeps_declared(st: State, more: Seq<IdView>)
    requires
        st.scope.wf(),
    ensures
        with_declared(st, more).scope.wf(),
        knows_all_of(with_declared(st, more).scope, st.scope),
{
    lemma_knows_itself(st.scope);
    let v = st.scope.declared_vars;
    assert((v + more).take(v.len() as int) =~= v);
}

/// Sending a module through an interop helper.
pub proof fn lemma_keeps_types(scope: ScopeView, src: Seq<char>)
    ensures
        knows_all_of(ScopeView { import_types: typed(scope.import_types, src), ..scope }, scope),
        knows_all_of(ScopeView { import_types: widened(scope.import_types, src), ..scope }, scope),
{
    lemma_knows_itself(scope);
}

/// Reading one name of an export.
pub proof fn lemma_keeps_named(st: State, origin: Option<Origin>, orig: IdentView, name: IdentView)
    requires
        st.scope.wf(),
    ensures
        with_named(st, origin, orig, name).scope.wf(),
        knows_all_of(with_named(st, origin, orig, name).scope, st.scope),
{
    let after = with_named(st, origin, orig, name).scope;
    let between = ScopeView { exported_vars: after.exported_vars, ..st.scope };
    lemma_keeps_exported(st.scope, id_of(orig), id_of(name));
    lemma_knows_itself(st.scope);
    lemma_knows_itself(between);
    if origin is Some {
        lemma_keeps_types(between, origin->Some_0.src);
    }
    lemma_knows_transitive(st.scope, between, after);
}

/// Reading the names of an export.
pub proof fn lemma_keeps_export_specifiers(
    frame: Frame,
    st: State,
    origin: Option<Origin>,
    list: Seq<ExportSpecifierView>,
)
    requires
        st.scope.wf(),
    ensures
        read_specifiers(frame, st, origin, list).state.scope.wf(),
        knows_all_of(read_specifiers(frame, st, origin, list).state.scope, st.scope),
    decreases list.len(),
{
    lemma_knows_itself(st.scope);
    if list.len() > 0 {
        let before = read_specifiers(frame, st, origin, list.drop_last()).state;
        lemma_keeps_export_specifiers(frame, st, origin, list.drop_last());
        match list.last() {
            ExportSpecifierView::Named { orig, exported } => {
                let name = match exported {
                    Some(name) => name,
                    None => orig,
                };
                lemma_keeps_named(before, origin, orig, name);
                lemma_knows_transitive(
                    st.scope,
                    before.scope,
                    with_named(before, origin, orig, name).scope,
                );
            },
            _ => {},
        }
    }
}

/// Reading an import.
pub proof fn lemma_keeps_import(pool: Seq<u32>, st: State, d: ImportDeclView)
    requires
        st.scope.wf(),
    ensures
        with_import(pool, st, d).scope.wf(),
        knows_all_of(with_import(pool, st, d).scope, st.scope),
{
    let src = d.src.value;
    lemma_keeps_mentioned(st.scope, src);
    if d.specifiers.len() > 0 {
        let named = if d.specifiers.len() == 1 && d.specifiers[0] is Namespace {
            with_imports(
                st.scope,
                bound(st.scope.imports, src, imported_name(d.specifiers[0])),
            )
        } else {
            with_local(pool, st, src).scope
        };
        lemma_keeps_bound(st.scope, src, imported_name(d.specifiers[0]));
        lemma_keeps_local(pool, st, src);
        lemma_keeps_specifiers(named, src, d.specifiers);
        lemma_knows_transitive(
            st.scope,
            named,
            with_specifiers(named, src, d.specifiers),
        );
    }
}

/// Reading an item.
pub proof fn lemma_keeps_item(frame: Frame, st: State, item: ModuleItemView)
    requires
        st.scope.wf(),
    ensures
        read_item(frame, st, item).state.scope.wf(),
        knows_all_of(read_item(frame, st, item).state.scope, st.scope),
{
    let after = read_item(frame, st, item).state;
    lemma_knows_itself(st.scope);
    match item {
        ModuleItemView::Stmt(s) => lemma_keeps_declared(st, declared_in(s)),
        ModuleItemView::ModuleDecl(d) => match d {
            ModuleDeclView::Import(d) => lemma_keeps_import(frame.pool, st, d),
            ModuleDeclView::ExportAll(src) => lemma_keeps_types(st.scope, src.value),
            ModuleDeclView::ExportDecl(d) => match d {
                DeclView::Class { ident, declare, class } => {
                    lemma_keeps_declared(
                        st,
                        declared_in(class_decl_view(ident, declare, class)),
                    );
                },
                DeclView::Fn { ident, declare, function } => {
                    lemma_keeps_declared(
                        st,
                        declared_in(fn_decl_view(ident, declare, function)),
                    );
                },
                DeclView::Var(var) => {
                    let idents = idents_in_all(var.decls);
                    let one = with_declared(st, declared_in(var_decl_view(var)));
                    let two = with_declared(one, ids_of(idents));
                    lemma_keeps_declared(st, declared_in(var_decl_view(var)));
                    lemma_keeps_declared(one, ids_of(idents));
                    lemma_knows_transitive(st.scope, one.scope, two.scope);
                    lemma_keeps_exports(two.scope, idents);
                    lemma_knows_transitive(st.scope, two.scope, after.scope);
                },
                DeclView::Ts => {},
            },
            ModuleDeclView::ExportDefaultDecl(d) => match d {
                DefaultDeclView::Fn { ident, function } => {
                    let (name, state) = default_name(frame, st, ident);
                    lemma_keeps_declared(
                        state,
                        declared_in(fn_decl_view(name, false, function)),
                    );
                },
                _ => {},
            },
            ModuleDeclView::ExportDefaultExpr(e) => {
                let (_, state) = default_name(frame, st, None);
                lemma_keeps_declared(state, declared_in(e));
            },
            ModuleDeclView::ExportNamed(d) => match d.src {
                Some(src) => {
                    let src = src.value;
                    let reads = d.specifiers.len() > 0;
                    let state = with_export_from(frame.pool, st, src, reads);
                    lemma_keeps_local(frame.pool, st, src);
                    lemma_keeps_mentioned(st.scope, src);
                    let origin = if reads {
                        Some(
                            Origin { src, local: local_of(state.scope.imports, src)->Some_0 },
                        )
                    } else {
                        None
                    };
                    lemma_keeps_export_specifiers(frame, state, origin, d.specifiers);
                    lemma_knows_transitive(st.scope, state.scope, after.scope);
                },
                None => lemma_keeps_export_specifiers(frame, st, None, d.specifiers),
            },
            ModuleDeclView::Ts => {},
        },
    }
}

/// While items are read, nothing that is known is forgotten: modules keep their places
/// and their names, variables stay declared and exported, and the scope stays well
/// formed.
pub proof fn law_nothing_forgotten(frame: Frame, st: State, items: Seq<ModuleItemView>)
    requires
        st.scope.wf(),
    ensures
        read_items(frame, st, items).state.scope.wf(),
        knows_all_of(read_items(frame, st, items).state.scope, st.scope),
    decreases items.len(),
{
    lemma_knows_itself(st.scope);
    if items.len() > 0 {
        let before = read_items(frame, st, items.drop_last()).state;
        law_nothing_forgotten(frame, st, items.drop_last());
        lemma_keeps_item(frame, before, items.last());
        lemma_knows_transitive(
            st.scope,
            before.scope,
            read_items(frame, st, items).state.scope,
        );
    }
}

/// Exporting modules as a whole.
pub proof fn lemma_keeps_alls(
    frame: Frame,
    st: State,
    names: Option<IdentView>,
    list: Seq<Seq<char>>,
)
    requires
        st.scope.wf(),
    ensures
        read_alls(frame, st, names, list).state.scope.wf(),
        knows_all_of(read_alls(frame, st, names, list).state.scope, st.scope),
    decreases list.len(),
{
    lemma_knows_itself(st.scope);
    if list.len() > 0 {
        let before = read_alls(frame, st, names, list.drop_last()).state;
        lemma_keeps_alls(frame, st, names, list.drop_last());
        lemma_keeps_local(frame.pool, before, list.last());
        lemma_knows_transitive(
            st.scope,
            before.scope,
            read_alls(frame, st, names, list).state.scope,
        );
    }
}

/// Closing the exports of a module.
pub proof fn lemma_keeps_close(frame: Frame, st: State, r: ReadingView)
    requires
        st.scope.wf(),
    ensures
        close_exports(frame, st, r).state.scope.wf(),
        knows_all_of(close_exports(frame, st, r).state.scope, st.scope),
{
    let list = list_name(frame.pool, st);
    lemma_keeps_alls(
        frame,
        State { scope: st.scope, used: st.used + 1 },
        Some(list),
        r.alls,
    );
    lemma_keeps_alls(frame, st, None, r.alls);
}

/// Items are read one after the other: what comes first neither knows nor changes what
/// comes later.
pub proof fn law_read_in_turn(
    frame: Frame,
    st: State,
    first: Seq<ModuleItemView>,
    second: Seq<ModuleItemView>,
)
    ensures
        ({
            let a = read_items(frame, st, first);
            let b = read_items(frame, a.state, second);
            let both = read_items(frame, st, first + second);
            both.state == b.state && both.out == a.out.then_also(b.out)
        }),
    decreases second.len(),
{
    let a = read_items(frame, st, first);
    if second.len() == 0 {
        assert(first + second =~= first);
        assert(a.out.then_also(OutputView::empty()) =~= a.out);
    } else {
        assert((first + second).drop_last() =~= first + second.drop_last());
        law_read_in_turn(frame, st, first, second.drop_last());
        let b = read_items(frame, a.state, second.drop_last());
        let c = read_item(frame, b.state, second.last());
        assert(a.out.then_also(b.out).then_also(c.out) =~= a.out.then_also(
            b.out.then_also(c.out),
        ));
    }
}

/// Whether a name was imported from a module that has no name.
pub open spec fn is_unbound(scope: ScopeView, id: IdView) -> bool {
    scope.idents.contains_key(id) && local_of(scope.imports, scope.idents[id].src) is None
}

/// Import specifiers of a module with a name bind their names.
proof fn lemma_specifiers_bind(
    scope: ScopeView,
    src: Seq<char>,
    list: Seq<ImportSpecifierView>,
    id: IdView,
)
    requires
        scope.wf(),
        local_of(scope.imports, src) is Some,
        is_unbound(with_specifiers(scope, src, list), id),
    ensures
        is_unbound(scope, id),
        with_specifiers(scope, src, list).idents[id] == scope.idents[id],
    decreases list.len(),
{
    lemma_keeps_specifiers(scope, src, list);
    if list.len() > 0 {
        lemma_keeps_specifiers(scope, src, list.drop_last());
        lemma_specifiers_bind(scope, src, list.drop_last(), id);
    }
}

/// The names that an item imports are bound.
proof fn lemma_item_binds(frame: Frame, st: State, item: ModuleItemView, id: IdView)
    requires
        st.scope.wf(),
        is_unbound(read_item(frame, st, item).state.scope, id),
    ensures
        is_unbound(st.scope, id),
        read_item(frame, st, item).state.scope.idents[id] == st.scope.idents[id],
{
    lemma_keeps_item(frame, st, item);
    match item {
        ModuleItemView::ModuleDecl(ModuleDeclView::Import(d)) => {
            let src = d.src.value;
            if d.specifiers.len() > 0 {
                let named = if d.specifiers.len() == 1 && d.specifiers[0] is Namespace {
                    with_imports(
                        st.scope,
                        bound(st.scope.imports, src, imported_name(d.specifiers[0])),
                    )
                } else {
                    with_local(frame.pool, st, src).scope
                };
                lemma_keeps_bound(st.scope, src, imported_name(d.specifiers[0]));
                lemma_keeps_local(frame.pool, st, src);
                lemma_specifiers_bind(named, src, d.specifiers, id);
            }
        },
        ModuleItemView::ModuleDecl(ModuleDeclView::ExportNamed(d)) => match d.src {
            Some(src) => {
                let src = src.value;
                let reads = d.specifiers.len() > 0;
                let state = with_export_from(frame.pool, st, src, reads);
                let origin = if reads {
                    Some(Origin { src, local: local_of(state.scope.imports, src)->Some_0 })
                } else {
                    None
                };
                lemma_export_specifiers_imports(frame, state, origin, d.specifiers);
            },
            None => lemma_export_specifiers_imports(frame, st, None, d.specifiers),
        },
        _ => {},
    }
}

/// Every name that a module imports is bound, from its import on: a name without a
/// module to read it from is one that was there before, and still means what it meant.
pub proof fn law_imports_bind(frame: Frame, st: State, items: Seq<ModuleItemView>, id: IdView)
    requires
        st.scope.wf(),
        is_unbound(read_items(frame, st, items).state.scope, id),
    ensures
        is_unbound(st.scope, id),
        read_items(frame, st, items).state.scope.idents[id] == st.scope.idents[id],
    decreases items.len(),
{
    if items.len() > 0 {
        law_nothing_forgotten(frame, st, items.drop_last());
        lemma_item_binds(
            frame,
            read_items(frame, st, items.drop_last()).state,
            items.last(),
            id,
        );
        law_imports_bind(frame, st, items.drop_last(), id);
    }
}

} // verus!
