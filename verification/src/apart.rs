//! Generated names: there are contexts enough for them, and they are apart.

use vstd::prelude::*;

use crate::budget::{
    all_ask_at_once, asks_at_once, contexts_needed, lemma_asks_at_once,
    lemma_export_specifiers_imports, lemma_item_asks, lemma_local_unnamed,
    lemma_specifiers_imports, lemma_unnamed_step, unnamed,
};
use crate::define::{end_state, key_name, list_name, locals, read_alls, used_up};
use crate::history::with_imports;
use crate::imports::{State, generated_local, imported_name, with_export_from, with_local};
use crate::items::{Frame, Origin, default_name, export_alls, read_item, read_items};
use crate::model::{DefaultDeclView, IdentView, ModuleDeclView, ModuleItemView};
use crate::scope::{ImportView, bound, find_src, lemma_find_src, local_of, mentioned};

verus! {

/// Items use up no more contexts than they ask for.
proof fn lemma_items_ask(frame: Frame, st: State, items: Seq<ModuleItemView>)
    ensures
        st.used <= read_items(frame, st, items).state.used,
        read_items(frame, st, items).state.used + unnamed(
            read_items(frame, st, items).state.scope.imports,
        ) <= st.used + unnamed(st.scope.imports) + all_ask_at_once(items),
    decreases items.len(),
{
    if items.len() > 0 {
        lemma_items_ask(frame, st, items.drop_last());
        lemma_item_asks(frame, read_items(frame, st, items.drop_last()).state, items.last());
    }
}

/// Modules exported as a whole use up no more contexts than they ask for.
proof fn lemma_alls_ask(frame: Frame, st: State, names: Option<IdentView>, list: Seq<Seq<char>>)
    ensures
        st.used <= read_alls(frame, st, names, list).state.used,
        read_alls(frame, st, names, list).state.used + unnamed(
            read_alls(frame, st, names, list).state.scope.imports,
        ) <= st.used + unnamed(st.scope.imports) + 2 * list.len(),
    decreases list.len(),
{
    if list.len() > 0 {
        lemma_alls_ask(frame, st, names, list.drop_last());
        lemma_local_unnamed(
            frame.pool,
            read_alls(frame, st, names, list.drop_last()).state,
            list.last(),
        );
    }
}

/// A module uses up no more contexts than are set aside for it.
pub proof fn law_enough_contexts(frame: Frame, st: State, items: Seq<ModuleItemView>)
    ensures
        st.used <= used_up(frame, st, items),
        used_up(frame, st, items) <= st.used + contexts_needed(st.scope.imports, items),
{
    let step = read_items(frame, st, items);
    lemma_items_ask(frame, st, items);
    lemma_asks_at_once(items);
    lemma_alls_ask(
        frame,
        State { scope: step.state.scope, used: step.state.used + 1 },
        Some(list_name(frame.pool, step.state)),
        export_alls(items),
    );
    lemma_alls_ask(frame, step.state, None, export_alls(items));
}

/// Whether a context was among the first `used` of `pool`.
pub open spec fn is_issued(pool: Seq<u32>, used: int, ctxt: u32) -> bool {
    exists|k: int| 0 <= k < used && #[trigger] pool[k] == ctxt
}

/// Whether the names of modules that stand in generated contexts stand in contexts that
/// were issued, each of them in one of its own.
pub open spec fn names_apart(pool: Seq<u32>, used: int, imports: Seq<ImportView>) -> bool {
    &&& forall|i: int|
        0 <= i < imports.len() && (#[trigger] imports[i]).local is Some && pool.contains(
            imports[i].local->Some_0.span.ctxt,
        ) ==> is_issued(pool, used, imports[i].local->Some_0.span.ctxt)
    &&& forall|i: int, j: int|
        0 <= i < j < imports.len() && (#[trigger] imports[i]).local is Some && (
        #[trigger] imports[j]).local is Some && pool.contains(imports[i].local->Some_0.span.ctxt)
            ==> imports[i].local->Some_0.span.ctxt != imports[j].local->Some_0.span.ctxt
}

/// More contexts are issued as time goes by.
proof fn lemma_apart_later(pool: Seq<u32>, used: int, later: int, imports: Seq<ImportView>)
    requires
        names_apart(pool, used, imports),
        used <= later,
    ensures
        names_apart(pool, later, imports),
{
    assert forall|i: int|
        0 <= i < imports.len() && (#[trigger] imports[i]).local is Some && pool.contains(
            imports[i].local->Some_0.span.ctxt,
        ) implies is_issued(pool, later, imports[i].local->Some_0.span.ctxt) by {
        let k = choose|k: int|
            0 <= k < used && #[trigger] pool[k] == imports[i].local->Some_0.span.ctxt;
        assert(pool[k] == imports[i].local->Some_0.span.ctxt);
    }
}

/// Binding a module to a name in the next context, or in one that is not generated.
proof fn lemma_apart_bound(
    pool: Seq<u32>,
    used: int,
    imports: Seq<ImportView>,
    src: Seq<char>,
    local: IdentView,
)
    requires
        pool.no_duplicates(),
        names_apart(pool, used, imports),
        0 <= used < pool.len(),
        local.span.ctxt == pool[used] || !pool.contains(local.span.ctxt),
    ensures
        names_apart(pool, used + 1, bound(imports, src, local)),
{
    lemma_find_src(imports, src);
    lemma_apart_later(pool, used, used + 1, imports);
    let after = bound(imports, src, local);
    let new = if find_src(imports, src) < 0 {
        imports.len() as int
    } else {
        find_src(imports, src)
    };
    assert forall|i: int| 0 <= i < after.len() && i != new implies (#[trigger] after[i])
        == imports[i] by {}
    if after != imports {
        assert(after[new].local == Some(local));
        assert(pool.contains(local.span.ctxt) ==> is_issued(pool, used + 1, local.span.ctxt)) by {
            assert(pool[used] == pool[used]);
        }
        assert forall|i: int|
            0 <= i < after.len() && i != new && (#[trigger] after[i]).local is Some
                && pool.contains(after[i].local->Some_0.span.ctxt)
            implies after[i].local->Some_0.span.ctxt != local.span.ctxt by {
            let ctxt = imports[i].local->Some_0.span.ctxt;
            assert(is_issued(pool, used, ctxt));
            let k = choose|k: int| 0 <= k < used && #[trigger] pool[k] == ctxt;
            assert(pool[k] != pool[used]);
        }
        assert forall|i: int, j: int|
            0 <= i < j < after.len() && (#[trigger] after[i]).local is Some && (
            #[trigger] after[j]).local is Some && pool.contains(
                after[i].local->Some_0.span.ctxt,
            ) implies after[i].local->Some_0.span.ctxt != after[j].local->Some_0.span.ctxt by {
            if i != new && j != new {
                assert(imports[i].local is Some && imports[j].local is Some);
            } else if j != new {
                if after[j].local->Some_0.span.ctxt == local.span.ctxt {
                    assert(pool.contains(after[j].local->Some_0.span.ctxt));
                }
            }
        }
    }
}

/// Naming a module.
proof fn lemma_apart_local(pool: Seq<u32>, st: State, src: Seq<char>)
    requires
        pool.no_duplicates(),
        names_apart(pool, st.used, st.scope.imports),
        0 <= st.used < pool.len(),
    ensures
        names_apart(
            pool,
            with_local(pool, st, src).used,
            with_local(pool, st, src).scope.imports,
        ),
{
    lemma_apart_bound(
        pool,
        st.used,
        st.scope.imports,
        src,
        generated_local(src, pool[st.used]),
    );
    lemma_find_src(st.scope.imports, src);
}

/// Listing a module.
proof fn lemma_apart_mentioned(pool: Seq<u32>, used: int, imports: Seq<ImportView>, src: Seq<char>)
    requires
        names_apart(pool, used, imports),
    ensures
        names_apart(pool, used, mentioned(imports, src)),
{
    let after = mentioned(imports, src);
    assert forall|i: int| 0 <= i < imports.len() implies (#[trigger] after[i]) == imports[i] by {}
}

/// Whether the name of a namespace that is imported alone stands in no generated
/// context.
pub open spec fn is_outside(pool: Seq<u32>, item: ModuleItemView) -> bool {
    match item {
        ModuleItemView::ModuleDecl(ModuleDeclView::Import(d)) => d.specifiers.len() == 1
            && d.specifiers[0] is Namespace ==> !pool.contains(
            imported_name(d.specifiers[0]).span.ctxt,
        ),
        _ => true,
    }
}

/// Reading an item.
proof fn lemma_apart_item(frame: Frame, st: State, item: ModuleItemView)
    requires
        frame.pool.no_duplicates(),
        names_apart(frame.pool, st.used, st.scope.imports),
        is_outside(frame.pool, item),
        0 <= st.used,
        st.used + asks_at_once(item) <= frame.pool.len(),
    ensures
        names_apart(
            frame.pool,
            read_item(frame, st, item).state.used,
            read_item(frame, st, item).state.scope.imports,
        ),
{
    let pool = frame.pool;
    let imports = st.scope.imports;
    lemma_item_asks(frame, st, item);
    let after = read_item(frame, st, item).state;
    match item {
        ModuleItemView::ModuleDecl(ModuleDeclView::Import(d)) => {
            let src = d.src.value;
            lemma_apart_mentioned(pool, st.used, imports, src);
            lemma_apart_local(pool, st, src);
            if d.specifiers.len() > 0 {
                let alone = d.specifiers.len() == 1 && d.specifiers[0] is Namespace;
                let named = if alone {
                    with_imports(
                        st.scope,
                        bound(imports, src, imported_name(d.specifiers[0])),
                    )
                } else {
                    with_local(pool, st, src).scope
                };
                lemma_specifiers_imports(named, src, d.specifiers);
                if alone {
                    lemma_apart_outside(
                        pool,
                        st.used,
                        imports,
                        src,
                        imported_name(d.specifiers[0]),
                    );
                }
            }
        },
        ModuleItemView::ModuleDecl(ModuleDeclView::ExportNamed(d)) => match d.src {
            Some(src) => {
                let src = src.value;
                let reads = d.specifiers.len() > 0;
                let state = with_export_from(pool, st, src, reads);
                lemma_apart_mentioned(pool, st.used, imports, src);
                lemma_apart_local(pool, st, src);
                let origin = if reads {
                    Some(Origin { src, local: local_of(state.scope.imports, src)->Some_0 })
                } else {
                    None
                };
                lemma_export_specifiers_imports(frame, state, origin, d.specifiers);
            },
            None => lemma_export_specifiers_imports(frame, st, None, d.specifiers),
        },
        _ => {
            lemma_apart_later(pool, st.used, after.used, imports);
        },
    }
}

/// Binding a module to a name in a context that is not generated.
proof fn lemma_apart_outside(
    pool: Seq<u32>,
    used: int,
    imports: Seq<ImportView>,
    src: Seq<char>,
    local: IdentView,
)
    requires
        names_apart(pool, used, imports),
        !pool.contains(local.span.ctxt),
    ensures
        names_apart(pool, used, bound(imports, src, local)),
{
    lemma_find_src(imports, src);
    let after = bound(imports, src, local);
    let new = if find_src(imports, src) < 0 {
        imports.len() as int
    } else {
        find_src(imports, src)
    };
    assert forall|i: int| 0 <= i < after.len() && i != new implies (#[trigger] after[i])
        == imports[i] by {}
}

/// Reading items.
proof fn lemma_apart_items(frame: Frame, st: State, items: Seq<ModuleItemView>)
    requires
        frame.pool.no_duplicates(),
        names_apart(frame.pool, st.used, st.scope.imports),
        forall|i: int| 0 <= i < items.len() ==> is_outside(frame.pool, #[trigger] items[i]),
        0 <= st.used,
        st.used + unnamed(st.scope.imports) + all_ask_at_once(items) <= frame.pool.len(),
    ensures
        names_apart(
            frame.pool,
            read_items(frame, st, items).state.used,
            read_items(frame, st, items).state.scope.imports,
        ),
    decreases items.len(),
{
    if items.len() > 0 {
        let before = items.drop_last();
        assert forall|i: int| 0 <= i < before.len() implies is_outside(
            frame.pool,
            #[trigger] before[i],
        ) by {
            assert(before[i] == items[i]);
        }
        lemma_apart_items(frame, st, before);
        lemma_items_ask(frame, st, before);
        assert(is_outside(frame.pool, items[items.len() - 1]));
        lemma_apart_item(frame, read_items(frame, st, before).state, items.last());
    }
}

/// Exporting modules as a whole.
proof fn lemma_apart_alls(
    frame: Frame,
    st: State,
    names: Option<IdentView>,
    list: Seq<Seq<char>>,
)
    requires
        frame.pool.no_duplicates(),
        names_apart(frame.pool, st.used, st.scope.imports),
        0 <= st.used,
        st.used + unnamed(st.scope.imports) + 2 * list.len() <= frame.pool.len(),
    ensures
        names_apart(
            frame.pool,
            read_alls(frame, st, names, list).state.used,
            read_alls(frame, st, names, list).state.scope.imports,
        ),
    decreases list.len(),
{
    if list.len() > 0 {
        let before = read_alls(frame, st, names, list.drop_last()).state;
        lemma_apart_alls(frame, st, names, list.drop_last());
        lemma_alls_ask(frame, st, names, list.drop_last());
        lemma_apart_local(frame.pool, before, list.last());
        let named = with_local(frame.pool, before, list.last());
        lemma_apart_later(frame.pool, named.used, named.used + 1, named.scope.imports);
    }
}

// ---------------------------------------------------------------------------
// Names that are not of modules
// ---------------------------------------------------------------------------

/// The name that an item without one of its own is given.
pub open spec fn item_names(frame: Frame, st: State, item: ModuleItemView) -> Seq<IdentView> {
    let nameless = match item {
        ModuleItemView::ModuleDecl(ModuleDeclView::ExportDefaultDecl(d)) => match d {
            DefaultDeclView::Class { ident, .. } => ident is None,
            DefaultDeclView::Fn { ident, .. } => ident is None,
            DefaultDeclView::TsInterfaceDecl => false,
        },
        ModuleItemView::ModuleDecl(ModuleDeclView::ExportDefaultExpr(_)) => true,
        _ => false,
    };
    if nameless {
        seq![default_name(frame, st, None).0]
    } else {
        Seq::empty()
    }
}

/// The names that the items of a module are given.
pub open spec fn default_names(frame: Frame, st: State, items: Seq<ModuleItemView>) -> Seq<
    IdentView,
>
    decreases items.len(),
{
    if items.len() == 0 {
        Seq::empty()
    } else {
        let before = read_items(frame, st, items.drop_last()).state;
        default_names(frame, st, items.drop_last()) + item_names(frame, before, items.last())
    }
}

/// The names of the keys, when the keys of modules are walked.
pub open spec fn key_names(
    frame: Frame,
    st: State,
    names: Option<IdentView>,
    list: Seq<Seq<char>>,
) -> Seq<IdentView>
    decreases list.len(),
{
    if list.len() == 0 {
        Seq::empty()
    } else {
        let before = read_alls(frame, st, names, list.drop_last()).state;
        key_names(frame, st, names, list.drop_last()).push(
            key_name(frame.pool, with_local(frame.pool, before, list.last())),
        )
    }
}

/// The names that are generated for a module, those of imported modules aside: of its
/// default exports, of the list of exported names, and of the keys of the modules that
/// it exports as a whole.
pub open spec fn own_names(frame: Frame, st: State, items: Seq<ModuleItemView>) -> Seq<
    IdentView,
> {
    let step = read_items(frame, st, items);
    let defaults = default_names(frame, st, items);
    let alls = export_alls(items);
    if alls.len() > 0 && step.out.names.len() > 0 {
        let list = list_name(frame.pool, step.state);
        let listed = State { scope: step.state.scope, used: step.state.used + 1 };
        defaults.push(list) + key_names(frame, listed, Some(list), alls)
    } else {
        defaults + key_names(frame, step.state, None, alls)
    }
}

/// Whether names stand in contexts that were issued, each of them in one of its own, in
/// which no imported module has its name.
pub open spec fn own_apart(
    pool: Seq<u32>,
    used: int,
    imports: Seq<ImportView>,
    own: Seq<IdentView>,
) -> bool {
    &&& forall|i: int| 0 <= i < own.len() ==> is_issued(pool, used, (#[trigger] own[i]).span.ctxt)
    &&& forall|i: int, j: int|
        0 <= i < j < own.len() ==> (#[trigger] own[i]).span.ctxt != (#[trigger] own[j]).span.ctxt
    &&& forall|i: int, k: int|
        0 <= i < own.len() && 0 <= k < imports.len() && (#[trigger] imports[k]).local is Some
            ==> imports[k].local->Some_0.span.ctxt != (#[trigger] own[i]).span.ctxt
}

/// A context that was issued is not the next one.
proof fn lemma_issued(pool: Seq<u32>, used: int, ctxt: u32)
    requires
        pool.no_duplicates(),
        is_issued(pool, used, ctxt),
        used <= pool.len(),
    ensures
        pool.contains(ctxt),
        is_issued(pool, used + 1, ctxt),
        used < pool.len() ==> ctxt != pool[used],
{
    let k = choose|k: int| 0 <= k < used && #[trigger] pool[k] == ctxt;
    assert(pool[k] == ctxt);
}

/// A name in the next context.
proof fn lemma_own_drawn(
    pool: Seq<u32>,
    used: int,
    imports: Seq<ImportView>,
    own: Seq<IdentView>,
    name: IdentView,
)
    requires
        pool.no_duplicates(),
        names_apart(pool, used, imports),
        own_apart(pool, used, imports, own),
        0 <= used < pool.len(),
        name.span.ctxt == pool[used],
    ensures
        own_apart(pool, used + 1, imports, own.push(name)),
{
    let after = own.push(name);
    assert(pool[used] == name.span.ctxt);
    assert(is_issued(pool, used + 1, name.span.ctxt));
    assert forall|i: int| 0 <= i < after.len() implies is_issued(
        pool,
        used + 1,
        (#[trigger] after[i]).span.ctxt,
    ) by {
        if i < own.len() {
            lemma_issued(pool, used, own[i].span.ctxt);
        }
    }
    assert forall|i: int, j: int| 0 <= i < j < after.len() implies (
    #[trigger] after[i]).span.ctxt != (#[trigger] after[j]).span.ctxt by {
        lemma_issued(pool, used, own[i].span.ctxt);
    }
    assert forall|i: int, k: int|
        0 <= i < after.len() && 0 <= k < imports.len() && (#[trigger] imports[k]).local is Some
        implies imports[k].local->Some_0.span.ctxt != (#[trigger] after[i]).span.ctxt by {
        let ctxt = imports[k].local->Some_0.span.ctxt;
        if i < own.len() {
            assert(after[i] == own[i]);
        } else if pool.contains(ctxt) {
            lemma_issued(pool, used, ctxt);
        }
    }
}

/// Binding a module to a name in the next context, or in one that is not generated.
proof fn lemma_own_bound(
    pool: Seq<u32>,
    used: int,
    imports: Seq<ImportView>,
    own: Seq<IdentView>,
    src: Seq<char>,
    local: IdentView,
)
    requires
        pool.no_duplicates(),
        own_apart(pool, used, imports, own),
        0 <= used <= pool.len(),
        (used < pool.len() && local.span.ctxt == pool[used]) || !pool.contains(local.span.ctxt),
    ensures
        own_apart(pool, used, bound(imports, src, local), own),
        own_apart(pool, used + 1, bound(imports, src, local), own),
{
    lemma_find_src(imports, src);
    let after = bound(imports, src, local);
    assert forall|i: int, k: int|
        0 <= i < own.len() && 0 <= k < after.len() && (#[trigger] after[k]).local is Some
        implies after[k].local->Some_0.span.ctxt != (#[trigger] own[i]).span.ctxt by {
        lemma_issued(pool, used, own[i].span.ctxt);
        if k < imports.len() && after[k] == imports[k] {
            assert(imports[k].local is Some);
        } else {
            assert(after[k].local == Some(local));
        }
    }
    assert forall|i: int| 0 <= i < own.len() implies is_issued(
        pool,
        used + 1,
        (#[trigger] own[i]).span.ctxt,
    ) by {
        lemma_issued(pool, used, own[i].span.ctxt);
    }
}

/// Naming a module.
proof fn lemma_own_local(pool: Seq<u32>, st: State, own: Seq<IdentView>, src: Seq<char>)
    requires
        pool.no_duplicates(),
        own_apart(pool, st.used, st.scope.imports, own),
        0 <= st.used < pool.len(),
    ensures
        own_apart(
            pool,
            with_local(pool, st, src).used,
            with_local(pool, st, src).scope.imports,
            own,
        ),
{
    lemma_own_bound(
        pool,
        st.used,
        st.scope.imports,
        own,
        src,
        generated_local(src, pool[st.used]),
    );
}

/// Listing a module.
proof fn lemma_own_mentioned(
    pool: Seq<u32>,
    used: int,
    imports: Seq<ImportView>,
    own: Seq<IdentView>,
    src: Seq<char>,
)
    requires
        own_apart(pool, used, imports, own),
    ensures
        own_apart(pool, used, mentioned(imports, src), own),
{
    let after = mentioned(imports, src);
    assert forall|i: int, k: int|
        0 <= i < own.len() && 0 <= k < after.len() && (#[trigger] after[k]).local is Some
        implies after[k].local->Some_0.span.ctxt != (#[trigger] own[i]).span.ctxt by {
        assert(after[k] == imports[k]);
    }
}

/// Reading an item.
proof fn lemma_own_item(frame: Frame, st: State, item: ModuleItemView, own: Seq<IdentView>)
    requires
        frame.pool.no_duplicates(),
        names_apart(frame.pool, st.used, st.scope.imports),
        own_apart(frame.pool, st.used, st.scope.imports, own),
        is_outside(frame.pool, item),
        0 <= st.used,
        st.used + asks_at_once(item) <= frame.pool.len(),
    ensures
        own_apart(
            frame.pool,
            read_item(frame, st, item).state.used,
            read_item(frame, st, item).state.scope.imports,
            own + item_names(frame, st, item),
        ),
{
    let pool = frame.pool;
    let imports = st.scope.imports;
    assert(own + Seq::<IdentView>::empty() =~= own);
    match item {
        ModuleItemView::ModuleDecl(ModuleDeclView::Import(d)) => {
            let src = d.src.value;
            lemma_own_mentioned(pool, st.used, imports, own, src);
            lemma_own_local(pool, st, own, src);
            if d.specifiers.len() > 0 {
                let alone = d.specifiers.len() == 1 && d.specifiers[0] is Namespace;
                let name = imported_name(d.specifiers[0]);
                let named = if alone {
                    with_imports(st.scope, bound(imports, src, name))
                } else {
                    with_local(pool, st, src).scope
                };
                lemma_specifiers_imports(named, src, d.specifiers);
                if alone {
                    lemma_own_bound(pool, st.used, imports, own, src, name);
                }
            }
        },
        ModuleItemView::ModuleDecl(ModuleDeclView::ExportNamed(d)) => match d.src {
            Some(src) => {
                let src = src.value;
                let reads = d.specifiers.len() > 0;
                let state = with_export_from(pool, st, src, reads);
                lemma_own_mentioned(pool, st.used, imports, own, src);
                lemma_own_local(pool, st, own, src);
                let origin = if reads {
                    Some(Origin { src, local: local_of(state.scope.imports, src)->Some_0 })
                } else {
                    None
                };
                lemma_export_specifiers_imports(frame, state, origin, d.specifiers);
            },
            None => lemma_export_specifiers_imports(frame, st, None, d.specifiers),
        },
        _ => {
            let names = item_names(frame, st, item);
            if names.len() > 0 {
                lemma_own_drawn(pool, st.used, imports, own, names[0]);
                assert(own + names =~= own.push(names[0]));
            }
        },
    }
}

/// Reading items.
proof fn lemma_own_items(frame: Frame, st: State, items: Seq<ModuleItemView>)
    requires
        frame.pool.no_duplicates(),
        names_apart(frame.pool, st.used, st.scope.imports),
        forall|i: int| 0 <= i < items.len() ==> is_outside(frame.pool, #[trigger] items[i]),
        0 <= st.used,
        st.used + unnamed(st.scope.imports) + all_ask_at_once(items) <= frame.pool.len(),
    ensures
        own_apart(
            frame.pool,
            read_items(frame, st, items).state.used,
            read_items(frame, st, items).state.scope.imports,
            default_names(frame, st, items),
        ),
    decreases items.len(),
{
    if items.len() > 0 {
        let before = items.drop_last();
        assert forall|i: int| 0 <= i < before.len() implies is_outside(
            frame.pool,
            #[trigger] before[i],
        ) by {
            assert(before[i] == items[i]);
        }
        lemma_apart_items(frame, st, before);
        lemma_own_items(frame, st, before);
        lemma_items_ask(frame, st, before);
        assert(is_outside(frame.pool, items[items.len() - 1]));
        lemma_own_item(
            frame,
            read_items(frame, st, before).state,
            items.last(),
            default_names(frame, st, before),
        );
    }
}

/// Exporting modules as a whole.
proof fn lemma_own_alls(
    frame: Frame,
    st: State,
    names: Option<IdentView>,
    list: Seq<Seq<char>>,
    own: Seq<IdentView>,
)
    requires
        frame.pool.no_duplicates(),
        names_apart(frame.pool, st.used, st.scope.imports),
        own_apart(frame.pool, st.used, st.scope.imports, own),
        0 <= st.used,
        st.used + unnamed(st.scope.imports) + 2 * list.len() <= frame.pool.len(),
    ensures
        own_apart(
            frame.pool,
            read_alls(frame, st, names, list).state.used,
            read_alls(frame, st, names, list).state.scope.imports,
            own + key_names(frame, st, names, list),
        ),
    decreases list.len(),
{
    if list.len() == 0 {
        assert(own + key_names(frame, st, names, list) =~= own);
    } else {
        let before = read_alls(frame, st, names, list.drop_last()).state;
        let keys = key_names(frame, st, names, list.drop_last());
        lemma_apart_alls(frame, st, names, list.drop_last());
        lemma_own_alls(frame, st, names, list.drop_last(), own);
        lemma_alls_ask(frame, st, names, list.drop_last());
        lemma_local_unnamed(frame.pool, before, list.last());
        lemma_apart_local(frame.pool, before, list.last());
        lemma_own_local(frame.pool, before, own + keys, list.last());
        let named = with_local(frame.pool, before, list.last());
        let key = key_name(frame.pool, named);
        lemma_own_drawn(frame.pool, named.used, named.scope.imports, own + keys, key);
        assert(own + key_names(frame, st, names, list) =~= (own + keys).push(key));
    }
}

// ---------------------------------------------------------------------------
// All names
// ---------------------------------------------------------------------------

/// Where a prefix ends before a module without a name, a longer one has that module
/// more.
proof fn lemma_unnamed_grows(imports: Seq<ImportView>, i: int, j: int)
    requires
        0 <= i <= j <= imports.len(),
    ensures
        unnamed(imports.take(i)) <= unnamed(imports.take(j)),
        i < j && imports[i].local is None ==> unnamed(imports.take(i)) < unnamed(
            imports.take(j),
        ),
    decreases j - i,
{
    if i < j {
        lemma_unnamed_step(imports, i);
        lemma_unnamed_grows(imports, i + 1, j);
    }
}

/// The names that a factory has beside those of the program: of the export object, of the
/// imported modules, and those that are generated for the module itself.
pub open spec fn all_names(frame: Frame, st: State, items: Seq<ModuleItemView>) -> Seq<
    IdentView,
> {
    let end = end_state(frame, st, items);
    seq![frame.exports] + locals(frame.pool, end.used, end.scope.imports) + own_names(
        frame,
        st,
        items,
    )
}

/// Generated names are apart: none of them shares its context with another name, be it
/// that of the export object, of an imported module, of a default export, of the list of
/// exported names or of a key, as long as the contexts are different from each other, from
/// that of the export object and from those of the namespaces that the program imports.
pub proof fn law_names_apart(frame: Frame, st: State, items: Seq<ModuleItemView>)
    requires
        st.scope.imports.len() == 0,
        0 <= st.used,
        st.used + contexts_needed(st.scope.imports, items) <= frame.pool.len(),
        frame.pool.no_duplicates(),
        !frame.pool.contains(frame.exports.span.ctxt),
        forall|i: int| 0 <= i < items.len() ==> is_outside(frame.pool, #[trigger] items[i]),
    ensures
        ({
            let names = all_names(frame, st, items);
            forall|i: int, j: int|
                0 <= i < j < names.len() && (frame.pool.contains((#[trigger] names[i]).span.ctxt)
                    || frame.pool.contains((#[trigger] names[j]).span.ctxt))
                    ==> names[i].span.ctxt != names[j].span.ctxt
        }),
{
    let pool = frame.pool;
    let end = end_state(frame, st, items);
    let imports = end.scope.imports;
    let modules = locals(pool, end.used, imports);
    let own = own_names(frame, st, items);
    let names = all_names(frame, st, items);
    lemma_end_apart(frame, st, items);
    assert forall|i: int, j: int|
        0 <= i < j < names.len() && (pool.contains((#[trigger] names[i]).span.ctxt)
            || pool.contains((#[trigger] names[j]).span.ctxt)) implies names[i].span.ctxt
        != names[j].span.ctxt by {
        let n = modules.len();
        if 0 < i && j <= n {
            lemma_modules_apart(pool, end.used, imports, i - 1, j - 1);
        } else if 0 < i && i <= n {
            lemma_module_and_own(pool, end.used, imports, own, i - 1, j - 1 - n);
        } else if 0 < i {
            assert(names[i] == own[i - 1 - n]);
            assert(names[j] == own[j - 1 - n]);
        }
    }
}

/// What holds when all of a module was read.
proof fn lemma_end_apart(frame: Frame, st: State, items: Seq<ModuleItemView>)
    requires
        st.scope.imports.len() == 0,
        0 <= st.used,
        st.used + contexts_needed(st.scope.imports, items) <= frame.pool.len(),
        frame.pool.no_duplicates(),
        forall|i: int| 0 <= i < items.len() ==> is_outside(frame.pool, #[trigger] items[i]),
    ensures
        ({
            let end = end_state(frame, st, items);
            &&& names_apart(frame.pool, end.used, end.scope.imports)
            &&& own_apart(
                frame.pool,
                end.used,
                end.scope.imports,
                own_names(frame, st, items),
            )
            &&& 0 <= end.used
            &&& end.used + unnamed(end.scope.imports) <= frame.pool.len()
        }),
{
    let pool = frame.pool;
    let step = read_items(frame, st, items);
    let imports = step.state.scope.imports;
    let listed = State { scope: step.state.scope, used: step.state.used + 1 };
    let list = list_name(pool, step.state);
    let alls = export_alls(items);
    let defaults = default_names(frame, st, items);
    lemma_asks_at_once(items);
    lemma_items_ask(frame, st, items);
    lemma_apart_items(frame, st, items);
    lemma_own_items(frame, st, items);
    lemma_apart_later(pool, step.state.used, listed.used, imports);
    lemma_own_drawn(pool, step.state.used, imports, defaults, list);
    lemma_apart_alls(frame, listed, Some(list), alls);
    lemma_own_alls(frame, listed, Some(list), alls, defaults.push(list));
    lemma_apart_alls(frame, step.state, None, alls);
    lemma_own_alls(frame, step.state, None, alls, defaults);
    law_enough_contexts(frame, st, items);
    lemma_alls_ask(frame, listed, Some(list), alls);
    lemma_alls_ask(frame, step.state, None, alls);
}

/// The names of two imported modules are apart.
proof fn lemma_modules_apart(
    pool: Seq<u32>,
    used: int,
    imports: Seq<ImportView>,
    i: int,
    j: int,
)
    requires
        pool.no_duplicates(),
        names_apart(pool, used, imports),
        0 <= used,
        used + unnamed(imports) <= pool.len(),
        0 <= i < j < imports.len(),
        pool.contains(locals(pool, used, imports)[i].span.ctxt) || pool.contains(
            locals(pool, used, imports)[j].span.ctxt,
        ),
    ensures
        locals(pool, used, imports)[i].span.ctxt != locals(pool, used, imports)[j].span.ctxt,
{
    let names = locals(pool, used, imports);
    lemma_unnamed_grows(imports, i, j);
    lemma_unnamed_grows(imports, j, imports.len() as int);
    lemma_unnamed_grows(imports, i, imports.len() as int);
    assert(imports.take(imports.len() as int) =~= imports);
    let a = used + unnamed(imports.take(i));
    let b = used + unnamed(imports.take(j));
    if imports[i].local is Some && imports[j].local is Some {
        if names[i].span.ctxt == names[j].span.ctxt {
            assert(pool.contains(imports[i].local->Some_0.span.ctxt));
        }
    } else if imports[i].local is Some {
        if pool.contains(names[i].span.ctxt) {
            let k = choose|k: int| 0 <= k < used && #[trigger] pool[k] == names[i].span.ctxt;
            assert(pool[k] != pool[b]);
        } else {
            assert(pool.contains(pool[b]));
        }
    } else if imports[j].local is Some {
        if pool.contains(names[j].span.ctxt) {
            let k = choose|k: int| 0 <= k < used && #[trigger] pool[k] == names[j].span.ctxt;
            assert(pool[k] != pool[a]);
        } else {
            assert(pool.contains(pool[a]));
        }
    } else {
        assert(0 <= a < b < pool.len());
    }
}

/// The name of an imported module and one of another sort are apart.
proof fn lemma_module_and_own(
    pool: Seq<u32>,
    used: int,
    imports: Seq<ImportView>,
    own: Seq<IdentView>,
    i: int,
    j: int,
)
    requires
        pool.no_duplicates(),
        own_apart(pool, used, imports, own),
        0 <= used,
        used + unnamed(imports) <= pool.len(),
        0 <= i < imports.len(),
        0 <= j < own.len(),
    ensures
        locals(pool, used, imports)[i].span.ctxt != own[j].span.ctxt,
{
    if imports[i].local is None {
        lemma_unnamed_grows(imports, i, imports.len() as int);
        assert(imports.take(imports.len() as int) =~= imports);
        let a = used + unnamed(imports.take(i));
        let k = choose|k: int| 0 <= k < used && #[trigger] pool[k] == own[j].span.ctxt;
        assert(pool[k] != pool[a]);
    } else {
        assert(imports[i].local->Some_0.span.ctxt != own[j].span.ctxt);
    }
}

} // verus!
