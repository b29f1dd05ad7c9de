//! How many syntax contexts a module can use up.

use vstd::prelude::*;

use crate::imports::{
    State, generated_local, imported_name, with_export_from, with_local, with_specifiers,
};
use crate::items::{Frame, Origin, export_alls, read_item, read_specifiers};
use crate::model::{
    ExportSpecifierView, IdentView, ImportSpecifierView, ModuleDeclView, ModuleItemView,
};
use crate::scope::{ImportView, ScopeView, bound, find_src, lemma_find_src, local_of, mentioned};

verus! {

/// How many modules are listed without a name.
pub open spec fn unnamed(imports: Seq<ImportView>) -> nat
    decreases imports.len(),
{
    if imports.len() == 0 {
        0
    } else {
        unnamed(imports.drop_last()) + if imports.last().local is None {
            1nat
        } else {
            0
        }
    }
}

/// How many names an item can ask for: one for each module that it names and one for
/// a default export. A module that is exported as a whole asks for two, its own name
/// and that of its keys.
pub open spec fn asks_for(item: ModuleItemView) -> nat {
    match item {
        ModuleItemView::ModuleDecl(d) => match d {
            ModuleDeclView::Import(_) => 1,
            ModuleDeclView::ExportAll(_) => 2,
            ModuleDeclView::ExportDefaultDecl(_) => 1,
            ModuleDeclView::ExportDefaultExpr(_) => 1,
            ModuleDeclView::ExportNamed(_) => 1,
            _ => 0,
        },
        ModuleItemView::Stmt(_) => 0,
    }
}

/// How many names the items of a module can ask for.
pub open spec fn all_ask_for(items: Seq<ModuleItemView>) -> nat
    decreases items.len(),
{
    if items.len() == 0 {
        0
    } else {
        all_ask_for(items.drop_last()) + asks_for(items.last())
    }
}

/// How many syntax contexts suffice for a module, with the modules that are listed
/// already and one for the list of exported names.
pub open spec fn contexts_needed(imports: Seq<ImportView>, items: Seq<ModuleItemView>) -> nat {
    unnamed(imports) + all_ask_for(items) + 1
}

/// The parts have no more unnamed modules than the whole.
proof fn lemma_prefix_unnamed(imports: Seq<ImportView>, i: int)
    requires
        0 <= i <= imports.len(),
    ensures
        unnamed(imports.take(i)) <= unnamed(imports),
    decreases imports.len(),
{
    if i == imports.len() {
        assert(imports.take(i) =~= imports);
    } else {
        assert(imports.drop_last().take(i) =~= imports.take(i));
        lemma_prefix_unnamed(imports.drop_last(), i);
    }
}

/// One module in the list changes the count by itself alone.
proof fn lemma_unnamed_update(imports: Seq<ImportView>, i: int, e: ImportView)
    requires
        0 <= i < imports.len(),
        imports[i].local is None,
        e.local is Some,
    ensures
        unnamed(imports.update(i, e)) + 1 == unnamed(imports),
    decreases imports.len(),
{
    let after = imports.update(i, e);
    if i == imports.len() - 1 {
        assert(after.drop_last() =~= imports.drop_last());
    } else {
        assert(after.drop_last() =~= imports.drop_last().update(i, e));
        lemma_unnamed_update(imports.drop_last(), i, e);
    }
}

/// Binding a module leaves no more unnamed modules than there were, and one less where
/// it was listed without a name.
pub proof fn lemma_bound_unnamed(imports: Seq<ImportView>, src: Seq<char>, local: IdentView)
    ensures
        unnamed(bound(imports, src, local)) <= unnamed(imports),
{
    lemma_find_src(imports, src);
    let i = find_src(imports, src);
    let entry = ImportView { src, local: Some(local) };
    if i < 0 {
        assert(imports.push(entry).drop_last() =~= imports);
    } else if imports[i].local is None {
        lemma_unnamed_update(imports, i, entry);
    }
}

/// Naming a module uses up one context at most, with the modules that have yet to be
/// named.
pub proof fn lemma_local_unnamed(pool: Seq<u32>, st: State, src: Seq<char>)
    ensures
        st.used <= with_local(pool, st, src).used <= st.used + 1,
        with_local(pool, st, src).used + unnamed(with_local(pool, st, src).scope.imports)
            <= st.used + unnamed(st.scope.imports) + 1,
{
    lemma_bound_unnamed(st.scope.imports, src, generated_local(src, pool[st.used]));
}

/// Listing a module adds one unnamed module at most.
proof fn lemma_mentioned_unnamed(imports: Seq<ImportView>, src: Seq<char>)
    ensures
        unnamed(mentioned(imports, src)) <= unnamed(imports) + 1,
{
    assert(imports.push(ImportView { src, local: None }).drop_last() =~= imports);
}

/// Specifiers leave the list of modules alone.
pub proof fn lemma_specifiers_imports(
    scope: ScopeView,
    src: Seq<char>,
    list: Seq<ImportSpecifierView>,
)
    ensures
        with_specifiers(scope, src, list).imports == scope.imports,
        with_specifiers(scope, src, list).declared_vars == scope.declared_vars,
        with_specifiers(scope, src, list).exported_vars == scope.exported_vars,
    decreases list.len(),
{
    if list.len() > 0 {
        lemma_specifiers_imports(scope, src, list.drop_last());
    }
}

/// Export specifiers leave the list of modules and the syntax contexts alone.
pub proof fn lemma_export_specifiers_imports(
    frame: Frame,
    st: State,
    origin: Option<Origin>,
    list: Seq<ExportSpecifierView>,
)
    ensures
        read_specifiers(frame, st, origin, list).state.scope.imports == st.scope.imports,
        read_specifiers(frame, st, origin, list).state.scope.idents == st.scope.idents,
        read_specifiers(frame, st, origin, list).state.scope.declared_vars
            == st.scope.declared_vars,
        read_specifiers(frame, st, origin, list).state.used == st.used,
    decreases list.len(),
{
    if list.len() > 0 {
        lemma_export_specifiers_imports(frame, st, origin, list.drop_last());
    }
}

/// What an item asks for while it is read: a module that is exported as a whole asks
/// later.
pub open spec fn asks_at_once(item: ModuleItemView) -> nat {
    match item {
        ModuleItemView::ModuleDecl(ModuleDeclView::ExportAll(_)) => 0,
        _ => asks_for(item),
    }
}

/// An item uses up no more than it asks for, with the names that it leaves to be
/// given later.
pub proof fn lemma_item_asks(frame: Frame, st: State, item: ModuleItemView)
    ensures
        st.used <= read_item(frame, st, item).state.used,
        read_item(frame, st, item).state.used + unnamed(
            read_item(frame, st, item).state.scope.imports,
        ) <= st.used + unnamed(st.scope.imports) + asks_at_once(item),
{
    match item {
        ModuleItemView::ModuleDecl(ModuleDeclView::Import(d)) => {
            let src = d.src.value;
            lemma_mentioned_unnamed(st.scope.imports, src);
            if d.specifiers.len() > 0 {
                lemma_bound_unnamed(
                    st.scope.imports,
                    src,
                    imported_name(d.specifiers[0]),
                );
                lemma_bound_unnamed(
                    st.scope.imports,
                    src,
                    generated_local(src, frame.pool[st.used]),
                );
                let named = if d.specifiers.len() == 1 && d.specifiers[0] is Namespace {
                    ScopeView {
                        imports: bound(st.scope.imports, src, imported_name(d.specifiers[0])),
                        ..st.scope
                    }
                } else {
                    with_local(frame.pool, st, src).scope
                };
                lemma_specifiers_imports(named, src, d.specifiers);
            }
        },
        ModuleItemView::ModuleDecl(ModuleDeclView::ExportNamed(d)) => {
            match d.src {
                Some(src) => {
                    let src = src.value;
                    let state = with_export_from(frame.pool, st, src, d.specifiers.len() > 0);
                    lemma_mentioned_unnamed(st.scope.imports, src);
                    lemma_bound_unnamed(
                        st.scope.imports,
                        src,
                        generated_local(src, frame.pool[st.used]),
                    );
                    let origin = if d.specifiers.len() > 0 {
                        Some(
                            Origin { src, local: local_of(state.scope.imports, src)->Some_0 },
                        )
                    } else {
                        None
                    };
                    lemma_export_specifiers_imports(frame, state, origin, d.specifiers);
                },
                None => {
                    lemma_export_specifiers_imports(frame, st, None, d.specifiers);
                },
            }
        },
        _ => {},
    }
}

/// What the items of a module ask for while they are read.
pub open spec fn all_ask_at_once(items: Seq<ModuleItemView>) -> nat
    decreases items.len(),
{
    if items.len() == 0 {
        0
    } else {
        all_ask_at_once(items.drop_last()) + asks_at_once(items.last())
    }
}

/// What is asked for at once and what is asked for later make up the whole.
pub proof fn lemma_asks_at_once(items: Seq<ModuleItemView>)
    ensures
        all_ask_at_once(items) + 2 * export_alls(items).len() == all_ask_for(items),
    decreases items.len(),
{
    if items.len() > 0 {
        lemma_asks_at_once(items.drop_last());
    }
}

/// What is read first leaves enough for what is read next.
pub proof fn lemma_enough_left(items: Seq<ModuleItemView>, i: int)
    requires
        0 <= i < items.len(),
    ensures
        all_ask_at_once(items.take(i)) + asks_at_once(items[i]) <= all_ask_at_once(items),
        all_ask_at_once(items.take(i + 1)) == all_ask_at_once(items.take(i)) + asks_at_once(
            items[i],
        ),
    decreases items.len(),
{
    assert(items.take(i + 1).drop_last() =~= items.take(i));
    if i == items.len() - 1 {
        assert(items.take(i) =~= items.drop_last());
        assert(items.take(i + 1) =~= items);
    } else {
        lemma_enough_left(items.drop_last(), i);
        assert(items.drop_last().take(i) =~= items.take(i));
        assert(items.drop_last().take(i + 1) =~= items.take(i + 1));
    }
}

/// Unnamed modules are named one after the other.
pub proof fn lemma_unnamed_step(imports: Seq<ImportView>, i: int)
    requires
        0 <= i < imports.len(),
    ensures
        unnamed(imports.take(i + 1)) == unnamed(imports.take(i)) + (if imports[i].local is None {
            1nat
        } else {
            0
        }),
        unnamed(imports.take(i + 1)) <= unnamed(imports),
{
    assert(imports.take(i + 1).drop_last() =~= imports.take(i));
    lemma_prefix_unnamed(imports, i + 1);
}

} // verus!
