//! What each kind of item does: which statements it leaves, which names it has initialized,
//! and what is known afterwards.

use vstd::prelude::*;

use crate::ast::{Form, Span};
use crate::bindings::idents_in_all;
use crate::budget::lemma_specifiers_imports;
use crate::emit::{binding_view, class_decl_view, fn_decl_view, starts_strict, var_view};
use crate::folding::{Env, declared_in, fold_tree};
use crate::imports::{
    State, generated_local, imported_name, imported_prop, with_import, with_local, with_mention,
    with_specifiers,
};
use crate::items::{
    Frame, Origin, OutputView, all_plain, default_name, export_alls, has_export, is_export,
    is_plain, named_value, read_item, read_items, read_named, read_specifiers, with_declared,
    with_exports,
};
use crate::model::{
    DeclView, DefaultDeclView, ExportSpecifierView, IdentView, ImportDeclView,
    ImportSpecifierView, ModuleDeclView, ModuleItemView, NamedExportView, NodeView, StrView,
    VarDeclView,
};
use crate::names::{camel_case, last_segment};
use crate::reach::{
    binds, bumps_import, declares, is_imported, law_all_binders, law_declared, law_module_named,
    law_no_import_is_left, law_resolution, module_named, names_are_separate, reads_from_module,
    uses_import,
};
use crate::scope::{
    BindingView, IdView, ScopeView, bound, distinct_srcs, find_src, id_of, ids_of, lemma_bound,
    lemma_find_src, lemma_mentioned, local_of, resolve,
};
use crate::shapes::{
    binder_of, default_write, export_write, live_export, plain_property, property, twig,
    value_of, variable,
};

verus! {

// ---------------------------------------------------------------------------
// Words
// ---------------------------------------------------------------------------

/// The name of an identifier: its spelling and its context.
pub open spec fn key_of(name: IdentView) -> IdView {
    IdView { sym: name.sym, ctxt: name.span.ctxt }
}

/// What folding depends on, at some point of a module.
pub open spec fn env_at(frame: Frame, st: State) -> Env {
    Env {
        idents: st.scope.idents,
        imports: st.scope.imports,
        exported_vars: st.scope.exported_vars,
        exports: frame.exports,
    }
}

/// Whether nothing is left behind.
pub open spec fn is_nothing(out: OutputView) -> bool {
    out.header.len() == 0 && out.body.len() == 0 && out.names.len() == 0
}

/// Whether a scope differs from another one in nothing but the variables that it has seen
/// declared.
pub open spec fn differs_in_declared(before: ScopeView, after: ScopeView) -> bool {
    &&& after.imports == before.imports
    &&& after.import_types == before.import_types
    &&& after.idents == before.idents
    &&& after.exported_vars == before.exported_vars
}

/// Whether the variables that a tree declares have been added to those that were declared.
pub open spec fn adds_declared(before: ScopeView, after: ScopeView, n: NodeView) -> bool {
    &&& before.declared_vars.len() <= after.declared_vars.len()
    &&& forall|id: IdView| #[trigger]
        after.declared_vars.contains(id) <==> before.declared_vars.contains(id) || declares(n, id)
}

/// A sequence that is put together holds what its parts hold.
proof fn lemma_contains<A>(a: Seq<A>, b: Seq<A>, x: A)
    ensures
        (a + b).contains(x) <==> a.contains(x) || b.contains(x),
{
    let all = a + b;
    if a.contains(x) {
        assert(all[a.index_of(x)] == x);
    }
    if b.contains(x) {
        assert(all[a.len() + b.index_of(x)] == x);
    }
    if all.contains(x) {
        let i = all.index_of(x);
        if i < a.len() {
            assert(a[i] == x);
        } else {
            assert(b[i - a.len()] == x);
        }
    }
}

/// Noting what a tree declares adds what it declares.
proof fn lemma_adds_declared(st: State, n: NodeView)
    ensures
        differs_in_declared(st.scope, with_declared(st, declared_in(n)).scope),
        adds_declared(st.scope, with_declared(st, declared_in(n)).scope, n),
        with_declared(st, declared_in(n)).used == st.used,
{
    let after = with_declared(st, declared_in(n)).scope;
    assert forall|id: IdView| #[trigger]
        after.declared_vars.contains(id) <==> st.scope.declared_vars.contains(id) || declares(
            n,
            id,
        ) by {
        lemma_contains(st.scope.declared_vars, declared_in(n), id);
        law_declared(n, id);
    }
}

// ---------------------------------------------------------------------------
// Statements and declarations
// ---------------------------------------------------------------------------

/// A statement stays where it is, folded, and leaves nothing else.
pub proof fn law_statement(frame: Frame, st: State, s: NodeView)
    ensures
        ({
            let step = read_item(frame, st, ModuleItemView::Stmt(s));
            &&& step.out.header.len() == 0
            &&& step.out.body.len() == 1
            &&& step.out.body[0] == fold_tree(env_at(frame, st), true, s)
            &&& step.out.names.len() == 0
            &&& step.state.used == st.used
            &&& differs_in_declared(st.scope, step.state.scope)
            &&& adds_declared(st.scope, step.state.scope, s)
        }),
{
    lemma_adds_declared(st, s);
}

/// An exported class stays where it is, folded, and is exported behind itself.
pub proof fn law_exported_class(
    frame: Frame,
    st: State,
    ident: IdentView,
    declare: bool,
    class: NodeView,
)
    ensures
        ({
            let decl = twig(Form::ClassDecl { declare }, seq![binder_of(ident), class]);
            let item = ModuleItemView::ModuleDecl(
                ModuleDeclView::ExportDecl(DeclView::Class { ident, declare, class }),
            );
            let step = read_item(frame, st, item);
            &&& step.out.header.len() == 0
            &&& step.out.body.len() == 2
            &&& step.out.body[0] == fold_tree(env_at(frame, st), true, decl)
            &&& step.out.body[1] == export_write(frame.exports, ident, value_of(ident))
            &&& step.out.names.len() == 0
            &&& step.state.used == st.used
            &&& differs_in_declared(st.scope, step.state.scope)
            &&& adds_declared(st.scope, step.state.scope, decl)
        }),
{
    lemma_adds_declared(st, class_decl_view(ident, declare, class));
}

/// An exported function stays where it is, folded, and is exported before the body runs.
pub proof fn law_exported_function(
    frame: Frame,
    st: State,
    ident: IdentView,
    declare: bool,
    function: NodeView,
)
    ensures
        ({
            let decl = twig(Form::FnDecl { declare }, seq![binder_of(ident), function]);
            let item = ModuleItemView::ModuleDecl(
                ModuleDeclView::ExportDecl(DeclView::Fn { ident, declare, function }),
            );
            let step = read_item(frame, st, item);
            &&& step.out.header.len() == 1
            &&& step.out.header[0] == export_write(frame.exports, ident, value_of(ident))
            &&& step.out.body.len() == 1
            &&& step.out.body[0] == fold_tree(env_at(frame, st), true, decl)
            &&& step.out.names.len() == 0
            &&& step.state.used == st.used
            &&& differs_in_declared(st.scope, step.state.scope)
            &&& adds_declared(st.scope, step.state.scope, decl)
        }),
{
    lemma_adds_declared(st, fn_decl_view(ident, declare, function));
}

/// A declaration of variables, as a statement.
pub open spec fn as_statement(var: VarDeclView) -> NodeView {
    NodeView {
        span: var.span,
        form: Form::VarDecl { kind: var.kind, declare: var.declare },
        text: Seq::empty(),
        kids: var.decls,
    }
}

/// An exported declaration of variables stays where it is, folded. Behind it, every name
/// that any of its declarators binds is exported, in source order, and every one of them is
/// initialized before the body runs.
pub proof fn law_exported_variables(frame: Frame, st: State, var: VarDeclView)
    ensures
        ({
            let item = ModuleItemView::ModuleDecl(ModuleDeclView::ExportDecl(DeclView::Var(var)));
            let out = read_item(frame, st, item).out;
            let names = idents_in_all(var.decls);
            &&& out.header.len() == 0
            &&& out.body.len() == 1 + names.len()
            &&& out.body[0] == fold_tree(env_at(frame, st), true, as_statement(var))
            &&& forall|i: int|
                0 <= i < names.len() ==> out.body[1 + i] == export_write(
                    frame.exports,
                    #[trigger] names[i],
                    value_of(names[i]),
                )
            &&& out.names.len() == names.len()
            &&& forall|i: int|
                0 <= i < names.len() ==> out.names[i] == (#[trigger] names[i]).sym
        }),
{
}

/// Whatever name any declarator of an exported declaration binds, there is a statement behind
/// the declaration that exports it, and it is among the names that are initialized.
pub proof fn law_every_variable_is_exported(
    frame: Frame,
    st: State,
    var: VarDeclView,
    d: int,
    name: IdentView,
)
    requires
        0 <= d < var.decls.len(),
        binds(var.decls[d], name),
    ensures
        ({
            let item = ModuleItemView::ModuleDecl(ModuleDeclView::ExportDecl(DeclView::Var(var)));
            let out = read_item(frame, st, item).out;
            &&& out.body.skip(1).contains(
                export_write(frame.exports, name, value_of(name)),
            )
            &&& out.names.contains(name.sym)
        }),
{
    let item = ModuleItemView::ModuleDecl(ModuleDeclView::ExportDecl(DeclView::Var(var)));
    let out = read_item(frame, st, item).out;
    let names = idents_in_all(var.decls);
    law_all_binders(var.decls, name);
    law_exported_variables(frame, st, var);
    let i = names.index_of(name);
    assert(names[i] == name);
    assert(out.body.skip(1)[i] == out.body[1 + i]);
    assert(out.names[i] == name.sym);
}

/// How often a name occurs in a list.
pub open spec fn times(names: Seq<IdentView>, id: IdView) -> nat {
    names.filter(|name: IdentView| key_of(name) == id).len()
}

/// Exporting variables under their own names adds each name as often as it occurs, and
/// changes nothing else.
proof fn lemma_own_names_added(
    vars: Map<IdView, Seq<IdView>>,
    names: Seq<IdentView>,
    id: IdView,
)
    ensures
        ({
            let after = with_exports(vars, names);
            let old = if vars.contains_key(id) {
                vars[id]
            } else {
                Seq::empty()
            };
            &&& times(names, id) == 0 ==> {
                &&& after.contains_key(id) == vars.contains_key(id)
                &&& vars.contains_key(id) ==> after[id] == vars[id]
            }
            &&& times(names, id) > 0 ==> {
                &&& after.contains_key(id)
                &&& after[id].len() == old.len() + times(names, id)
                &&& forall|i: int| 0 <= i < old.len() ==> #[trigger] after[id][i] == old[i]
                &&& forall|i: int|
                    old.len() <= i < after[id].len() ==> #[trigger] after[id][i] == id
            }
        }),
    decreases names.len(),
{
    reveal(Seq::filter);
    if names.len() > 0 {
        let rest = names.drop_last();
        lemma_own_names_added(vars, rest, id);
        let before = with_exports(vars, rest);
        let after = with_exports(vars, names);
        assert(id_of(names.last()) == key_of(names.last()));
        if key_of(names.last()) == id {
            assert(times(names, id) == times(rest, id) + 1);
        } else {
            assert(times(names, id) == times(rest, id));
        }
    }
}

/// The variables of an exported declaration are declared and exported from there on, each
/// under its own name and as often as it is bound; no other variable is.
pub proof fn law_variables_known(frame: Frame, st: State, var: VarDeclView, id: IdView)
    ensures
        ({
            let item = ModuleItemView::ModuleDecl(ModuleDeclView::ExportDecl(DeclView::Var(var)));
            let after = read_item(frame, st, item).state;
            let n = times(idents_in_all(var.decls), id);
            let vars = st.scope.exported_vars;
            let old = if vars.contains_key(id) {
                vars[id]
            } else {
                Seq::empty()
            };
            &&& after.used == st.used
            &&& after.scope.imports == st.scope.imports
            &&& after.scope.import_types == st.scope.import_types
            &&& after.scope.idents == st.scope.idents
            &&& after.scope.declared_vars.contains(id) <==> st.scope.declared_vars.contains(id)
                || declares(as_statement(var), id) || exists|d: int, name: IdentView|
                0 <= d < var.decls.len() && #[trigger] binds(var.decls[d], name) && key_of(name)
                    == id
            &&& n == 0 ==> {
                &&& after.scope.exported_vars.contains_key(id) == vars.contains_key(id)
                &&& vars.contains_key(id) ==> after.scope.exported_vars[id] == vars[id]
            }
            &&& n > 0 ==> {
                let now = after.scope.exported_vars[id];
                &&& after.scope.exported_vars.contains_key(id)
                &&& now.len() == old.len() + n
                &&& forall|i: int| 0 <= i < old.len() ==> #[trigger] now[i] == old[i]
                &&& forall|i: int| old.len() <= i < now.len() ==> #[trigger] now[i] == id
            }
        }),
{
    let names = idents_in_all(var.decls);
    let tree = as_statement(var);
    let one = with_declared(st, declared_in(tree));
    let two = with_declared(one, ids_of(names));
    lemma_adds_declared(st, tree);
    lemma_own_names_added(st.scope.exported_vars, names, id);
    lemma_contains(one.scope.declared_vars, ids_of(names), id);
    if ids_of(names).contains(id) {
        let k = ids_of(names).index_of(id);
        assert(names.contains(names[k]));
        law_all_binders(var.decls, names[k]);
        let d = choose|d: int| 0 <= d < var.decls.len() && binds(#[trigger] var.decls[d], names[k]);
        assert(binds(var.decls[d], names[k]) && key_of(names[k]) == id);
    }
    if exists|d: int, name: IdentView|
        0 <= d < var.decls.len() && #[trigger] binds(var.decls[d], name) && key_of(name) == id {
        let (d, name) = choose|d: int, name: IdentView|
            0 <= d < var.decls.len() && #[trigger] binds(var.decls[d], name) && key_of(name)
                == id;
        law_all_binders(var.decls, name);
        assert(names.contains(name));
        assert(ids_of(names)[names.index_of(name)] == id);
    }
}

// ---------------------------------------------------------------------------
// Default exports
// ---------------------------------------------------------------------------

/// The name of a default export: its own, or `_default` in the next context, which is then
/// used up.
pub open spec fn is_default_name(
    frame: Frame,
    st: State,
    own: Option<IdentView>,
    name: IdentView,
    used: int,
) -> bool {
    match own {
        Some(own) => name == own && used == st.used,
        None => {
            &&& name.sym == "_default"@
            &&& name.span == (Span { lo: 0, hi: 0, ctxt: frame.pool[st.used] })
            &&& used == st.used + 1
        },
    }
}

/// A function that is exported by default is exported before it stands: what follows is the
/// fold of the declaration that the program wrote, with what is known at that point. It is
/// not initialized.
pub proof fn law_default_function(
    frame: Frame,
    st: State,
    ident: Option<IdentView>,
    function: NodeView,
)
    ensures
        ({
            let item = ModuleItemView::ModuleDecl(
                ModuleDeclView::ExportDefaultDecl(DefaultDeclView::Fn { ident, function }),
            );
            let step = read_item(frame, st, item);
            exists|name: IdentView|
                {
                    let decl = twig(
                        Form::FnDecl { declare: false },
                        seq![#[trigger] binder_of(name), function],
                    );
                    &&& is_default_name(frame, st, ident, name, step.state.used)
                    &&& step.out.header.len() == 0
                    &&& step.out.names.len() == 0
                    &&& step.out.body.len() == 2
                    &&& step.out.body[0] == default_write(frame.exports, name)
                    &&& step.out.body[1] == fold_tree(env_at(frame, st), true, decl)
                    &&& differs_in_declared(st.scope, step.state.scope)
                    &&& adds_declared(st.scope, step.state.scope, decl)
                }
        }),
{
    let (name, state) = default_name(frame, st, ident);
    lemma_adds_declared(state, fn_decl_view(name, false, function));
    assert(binder_of(name) == binding_view(name));
}

/// In a function that is exported by default, every imported name is read from its module.
pub proof fn law_default_function_reads_imports(
    frame: Frame,
    st: State,
    ident: Option<IdentView>,
    function: NodeView,
)
    requires
        distinct_srcs(st.scope.imports),
        names_are_separate(env_at(frame, st)),
        !bumps_import(env_at(frame, st), function),
    ensures
        ({
            let item = ModuleItemView::ModuleDecl(
                ModuleDeclView::ExportDefaultDecl(DefaultDeclView::Fn { ident, function }),
            );
            let out = read_item(frame, st, item).out;
            out.body.len() == 2 && !uses_import(env_at(frame, st), out.body[1])
        }),
{
    law_default_function(frame, st, ident, function);
    let env = env_at(frame, st);
    let (name, state) = default_name(frame, st, ident);
    let decl = twig(Form::FnDecl { declare: false }, seq![binder_of(name), function]);
    assert(!bumps_import(env, decl.kids[0]));
    assert(decl.kids[1] == function);
    assert(!bumps_import(env, decl));
    law_no_import_is_left(env, true, decl);
    let item = ModuleItemView::ModuleDecl(
        ModuleDeclView::ExportDefaultDecl(DefaultDeclView::Fn { ident, function }),
    );
    assert(read_item(frame, st, item).out.body[1] == fold_tree(env, true, decl));
}

/// A class that is exported by default stands as the program wrote it, is exported behind
/// itself, and is initialized.
pub proof fn law_default_class(
    frame: Frame,
    st: State,
    ident: Option<IdentView>,
    class: NodeView,
)
    ensures
        ({
            let item = ModuleItemView::ModuleDecl(
                ModuleDeclView::ExportDefaultDecl(DefaultDeclView::Class { ident, class }),
            );
            let step = read_item(frame, st, item);
            exists|name: IdentView|
                {
                    &&& is_default_name(frame, st, ident, name, step.state.used)
                    &&& step.out.header.len() == 0
                    &&& step.out.names == seq!["default"@]
                    &&& step.out.body.len() == 2
                    &&& step.out.body[0] == twig(
                        Form::ClassDecl { declare: false },
                        seq![#[trigger] binder_of(name), class],
                    )
                    &&& step.out.body[1] == default_write(frame.exports, name)
                    &&& step.state.scope == st.scope
                }
        }),
{
    let (name, state) = default_name(frame, st, ident);
    assert(binder_of(name) == binding_view(name));
}

/// An expression that is exported by default is folded, gets a generated name, is exported
/// under it, and is initialized.
pub proof fn law_default_expression(frame: Frame, st: State, e: NodeView)
    ensures
        ({
            let item = ModuleItemView::ModuleDecl(ModuleDeclView::ExportDefaultExpr(e));
            let step = read_item(frame, st, item);
            exists|name: IdentView|
                {
                    &&& is_default_name(frame, st, None, name, step.state.used)
                    &&& step.out.header.len() == 0
                    &&& step.out.names == seq!["default"@]
                    &&& step.out.body.len() == 2
                    &&& step.out.body[0] == #[trigger] variable(
                        name,
                        fold_tree(env_at(frame, st), true, e),
                    )
                    &&& step.out.body[1] == default_write(frame.exports, name)
                    &&& differs_in_declared(st.scope, step.state.scope)
                    &&& adds_declared(st.scope, step.state.scope, e)
                }
        }),
{
    let (name, state) = default_name(frame, st, None);
    lemma_adds_declared(state, e);
    assert(var_view(name, fold_tree(env_at(frame, st), true, e)) == variable(
        name,
        fold_tree(env_at(frame, st), true, e),
    ));
}

/// Types leave nothing, and change nothing.
pub proof fn law_types(frame: Frame, st: State)
    ensures
        forall|item: ModuleItemView|
            {
                ||| item == ModuleItemView::ModuleDecl(ModuleDeclView::Ts)
                ||| item == ModuleItemView::ModuleDecl(ModuleDeclView::ExportDecl(DeclView::Ts))
                ||| item == ModuleItemView::ModuleDecl(
                    ModuleDeclView::ExportDefaultDecl(DefaultDeclView::TsInterfaceDecl),
                )
            } ==> is_nothing((#[trigger] read_item(frame, st, item)).out) && read_item(
                frame,
                st,
                item,
            ).state == st,
{
}

/// A module that is exported as a whole leaves nothing at once. If it goes through an interop
/// helper, it goes through that for namespaces from there on.
pub proof fn law_whole_module(frame: Frame, st: State, src: StrView, other: Seq<char>)
    ensures
        ({
            let item = ModuleItemView::ModuleDecl(ModuleDeclView::ExportAll(src));
            let step = read_item(frame, st, item);
            let types = st.scope.import_types;
            let now = step.state.scope.import_types;
            &&& is_nothing(step.out)
            &&& step.state.used == st.used
            &&& step.state.scope.imports == st.scope.imports
            &&& step.state.scope.idents == st.scope.idents
            &&& step.state.scope.declared_vars == st.scope.declared_vars
            &&& step.state.scope.exported_vars == st.scope.exported_vars
            &&& now.contains_key(other) == types.contains_key(other)
            &&& types.contains_key(other) ==> now[other] == (types[other] || other == src.value)
        }),
{
}

// ---------------------------------------------------------------------------
// Imports
// ---------------------------------------------------------------------------

/// The last segment of a path is what follows its last `/`.
pub proof fn law_last_segment(path: Seq<char>)
    ensures
        ({
            let segment = last_segment(path);
            let front = path.take(path.len() - segment.len());
            &&& segment.len() <= path.len()
            &&& path == front + segment
            &&& !segment.contains('/')
            &&& front.len() == 0 || front.last() == '/'
        }),
    decreases path.len(),
{
    let segment = last_segment(path);
    if path.len() > 0 && path.last() != '/' {
        let rest = path.drop_last();
        law_last_segment(rest);
        let before = last_segment(rest);
        assert(segment == before.push(path.last()));
        let front = path.take(path.len() - segment.len());
        assert(front =~= rest.take(rest.len() - before.len()));
        assert(front + before == rest);
        assert(path =~= rest.push(path.last()));
        assert(path =~= front + segment);
        if segment.contains('/') {
            let i = segment.index_of('/');
            assert(before[i] == '/');
        }
    } else {
        assert(path.take(path.len() - segment.len()) =~= path);
        assert(path + segment =~= path);
    }
}

/// Whether a name is one that was generated for a module: `_` and the last segment of its
/// source in camel case, in a given context.
pub open spec fn is_generated_for(name: IdentView, src: Seq<char>, ctxt: u32) -> bool {
    &&& name.sym == seq!['_'] + camel_case(last_segment(src))
    &&& name.span == (Span { lo: 0, hi: 0, ctxt })
}

/// Whether a module got a name: the one that it had, else a generated one in the next
/// context, which is then used up; and whether nothing else changed.
pub open spec fn names_module(pool: Seq<u32>, before: State, after: State, src: Seq<char>) -> bool {
    &&& match local_of(before.scope.imports, src) {
        Some(local) => {
            &&& local_of(after.scope.imports, src) == Some(local)
            &&& after.used == before.used
        },
        None => {
            &&& local_of(after.scope.imports, src) is Some
            &&& is_generated_for(
                local_of(after.scope.imports, src)->Some_0,
                src,
                pool[before.used],
            )
            &&& after.used == before.used + 1
        },
    }
    &&& keeps_other_modules(before.scope, after.scope, src)
}

/// Whether all modules but one have the names that they had.
pub open spec fn keeps_other_modules(
    before: ScopeView,
    after: ScopeView,
    src: Seq<char>,
) -> bool {
    forall|other: Seq<char>|
        other != src ==> #[trigger] local_of(after.imports, other) == local_of(
            before.imports,
            other,
        )
}

/// Giving a module a name.
proof fn lemma_names_module(pool: Seq<u32>, st: State, src: Seq<char>)
    requires
        distinct_srcs(st.scope.imports),
    ensures
        names_module(pool, st, with_local(pool, st, src), src),
        distinct_srcs(with_local(pool, st, src).scope.imports),
        with_local(pool, st, src).scope == (ScopeView {
            imports: with_local(pool, st, src).scope.imports,
            ..st.scope
        }),
{
    lemma_bound(st.scope.imports, src, generated_local(src, pool[st.used]));
}

/// The property that an import specifier asks for.
pub open spec fn asks_property(s: ImportSpecifierView, prop: Seq<char>) -> bool {
    match s {
        ImportSpecifierView::Namespace { .. } => prop.len() == 0,
        ImportSpecifierView::Default { .. } => prop == "default"@,
        ImportSpecifierView::Specific { local, imported } => prop == match imported {
            Some(name) => name.sym,
            None => local.sym,
        },
    }
}

/// The name that an import specifier brings in.
pub open spec fn brought_in(s: ImportSpecifierView) -> IdView {
    match s {
        ImportSpecifierView::Namespace { local } => key_of(local),
        ImportSpecifierView::Default { local } => key_of(local),
        ImportSpecifierView::Specific { local, .. } => key_of(local),
    }
}

/// Whether a specifier asks for the default export.
pub open spec fn asks_default(s: ImportSpecifierView) -> bool {
    asks_property(s, "default"@)
}

/// Whether one of the specifiers asks for the whole namespace.
pub open spec fn some_namespace(list: Seq<ImportSpecifierView>) -> bool {
    exists|k: int| 0 <= k < list.len() && (#[trigger] list[k]) is Namespace
}

/// Whether one of the specifiers asks for the default export.
pub open spec fn some_default(list: Seq<ImportSpecifierView>) -> bool {
    exists|k: int| 0 <= k < list.len() && asks_default(#[trigger] list[k])
}

/// Whether a name is brought in by none of the specifiers.
pub open spec fn brings_in_no(list: Seq<ImportSpecifierView>, id: IdView) -> bool {
    forall|k: int| 0 <= k < list.len() ==> brought_in(#[trigger] list[k]) != id
}

/// Whether the names that specifiers bring in stand for what was asked for, the last one of
/// a name deciding, and all other names stand for what they stood for.
pub open spec fn binds_names(
    before: Map<IdView, BindingView>,
    after: Map<IdView, BindingView>,
    src: Seq<char>,
    list: Seq<ImportSpecifierView>,
) -> bool {
    &&& forall|k: int|
        0 <= k < list.len() && brings_in_no(list.skip(k + 1), brought_in(#[trigger] list[k]))
            ==> stands_for(after, brought_in(list[k]), src, list[k])
    &&& forall|id: IdView| #[trigger]
        brings_in_no(list, id) ==> {
            &&& after.contains_key(id) == before.contains_key(id)
            &&& before.contains_key(id) ==> after[id] == before[id]
        }
}

/// Whether a name stands for what a specifier asks of a module.
pub open spec fn stands_for(
    idents: Map<IdView, BindingView>,
    id: IdView,
    src: Seq<char>,
    s: ImportSpecifierView,
) -> bool {
    &&& idents.contains_key(id)
    &&& idents[id].src == src
    &&& asks_property(s, idents[id].prop)
}

/// Whether a module goes through interop where one of the specifiers asks for it, and no other
/// module is affected.
pub open spec fn sets_types(
    before: Map<Seq<char>, bool>,
    after: Map<Seq<char>, bool>,
    src: Seq<char>,
    list: Seq<ImportSpecifierView>,
) -> bool {
    &&& forall|other: Seq<char>|
        other != src ==> {
            &&& #[trigger] after.contains_key(other) == before.contains_key(other)
            &&& before.contains_key(other) ==> after[other] == before[other]
        }
    &&& after.contains_key(src) == (before.contains_key(src) || some_namespace(list)
        || some_default(list))
    &&& after.contains_key(src) ==> after[src] == (some_namespace(list) || (before.contains_key(
        src,
    ) && before[src]))
}

/// What import specifiers bind, and which interop they ask for.
pub open spec fn reads_specifiers(
    before: ScopeView,
    after: ScopeView,
    src: Seq<char>,
    list: Seq<ImportSpecifierView>,
) -> bool {
    &&& binds_names(before.idents, after.idents, src, list)
    &&& sets_types(before.import_types, after.import_types, src, list)
    &&& after.imports == before.imports
    &&& after.declared_vars == before.declared_vars
    &&& after.exported_vars == before.exported_vars
}

/// The name that a specifier brings in, and what it stands for.
proof fn lemma_specifier(s: ImportSpecifierView)
    ensures
        id_of(imported_name(s)) == brought_in(s),
        asks_property(s, imported_prop(s)),
        asks_default(s) <==> imported_prop(s) == "default"@,
        s is Namespace ==> !asks_default(s),
{
    reveal_strlit("default");
}

/// The names that specifiers bind.
proof fn lemma_binds_names(scope: ScopeView, src: Seq<char>, list: Seq<ImportSpecifierView>)
    ensures
        binds_names(scope.idents, with_specifiers(scope, src, list).idents, src, list),
    decreases list.len(),
{
    let after = with_specifiers(scope, src, list).idents;
    if list.len() > 0 {
        let rest = list.drop_last();
        let last = list.last();
        let n = list.len() - 1;
        let before = with_specifiers(scope, src, rest).idents;
        lemma_binds_names(scope, src, rest);
        lemma_specifier(last);
        assert(list[n] == last);
        assert(after == before.insert(
            brought_in(last),
            BindingView { src, prop: imported_prop(last) },
        ));
        assert forall|k: int|
            0 <= k < list.len() && brings_in_no(
                list.skip(k + 1),
                brought_in(#[trigger] list[k]),
            ) implies stands_for(after, brought_in(list[k]), src, list[k]) by {
            let id = brought_in(list[k]);
            if k < n {
                assert(rest[k] == list[k]);
                assert(list.skip(k + 1)[n - k - 1] == last);
                assert(brought_in(last) != id);
                assert forall|m: int| 0 <= m < rest.skip(k + 1).len() implies brought_in(
                    #[trigger] rest.skip(k + 1)[m],
                ) != id by {
                    assert(rest.skip(k + 1)[m] == list.skip(k + 1)[m]);
                }
                assert(brings_in_no(rest.skip(k + 1), brought_in(rest[k])));
                assert(stands_for(before, id, src, rest[k]));
            }
        }
        assert forall|id: IdView| #[trigger] brings_in_no(list, id) implies {
            &&& after.contains_key(id) == scope.idents.contains_key(id)
            &&& scope.idents.contains_key(id) ==> after[id] == scope.idents[id]
        } by {
            assert forall|m: int| 0 <= m < rest.len() implies brought_in(#[trigger] rest[m])
                != id by {
                assert(rest[m] == list[m]);
            }
            assert(brings_in_no(rest, id));
            assert(brought_in(list[n]) != id);
        }
    }
}

/// The interop that specifiers ask for.
proof fn lemma_sets_types(scope: ScopeView, src: Seq<char>, list: Seq<ImportSpecifierView>)
    ensures
        sets_types(
            scope.import_types,
            with_specifiers(scope, src, list).import_types,
            src,
            list,
        ),
    decreases list.len(),
{
    if list.len() > 0 {
        let rest = list.drop_last();
        let last = list.last();
        let n = list.len() - 1;
        lemma_sets_types(scope, src, rest);
        lemma_specifier(last);
        assert(list[n] == last);
        assert(some_namespace(list) == (some_namespace(rest) || last is Namespace)) by {
            if some_namespace(rest) {
                let k = choose|k: int| 0 <= k < rest.len() && (#[trigger] rest[k]) is Namespace;
                assert(list[k] is Namespace);
            }
            if some_namespace(list) {
                let k = choose|k: int| 0 <= k < list.len() && (#[trigger] list[k]) is Namespace;
                if k < n {
                    assert(rest[k] is Namespace);
                }
            }
        }
        assert(some_default(list) == (some_default(rest) || asks_default(last))) by {
            if some_default(rest) {
                let k = choose|k: int| 0 <= k < rest.len() && asks_default(#[trigger] rest[k]);
                assert(asks_default(list[k]));
            }
            if some_default(list) {
                let k = choose|k: int| 0 <= k < list.len() && asks_default(#[trigger] list[k]);
                if k < n {
                    assert(asks_default(rest[k]));
                }
            }
        }
    }
}

/// Reading import specifiers.
proof fn lemma_reads_specifiers(
    scope: ScopeView,
    src: Seq<char>,
    list: Seq<ImportSpecifierView>,
)
    ensures
        reads_specifiers(scope, with_specifiers(scope, src, list), src, list),
{
    lemma_binds_names(scope, src, list);
    lemma_sets_types(scope, src, list);
    lemma_specifiers_imports(scope, src, list);
}

/// An import leaves nothing. Its module is listed, and has a name if something of it is read:
/// the one that it had, else that of the namespace where nothing else is imported, else a
/// generated one. Each name that it brings in stands for the property that was asked for, and
/// no other name changes; the module goes through interop where the default export or the
/// namespace was asked for, and no other module does on that account.
pub proof fn law_import(frame: Frame, st: State, d: ImportDeclView)
    requires
        distinct_srcs(st.scope.imports),
    ensures
        ({
            let item = ModuleItemView::ModuleDecl(ModuleDeclView::Import(d));
            let step = read_item(frame, st, item);
            let src = d.src.value;
            let list = d.specifiers;
            let listed = step.state.scope.imports;
            &&& is_nothing(step.out)
            &&& exists|i: int| 0 <= i < listed.len() && (#[trigger] listed[i]).src == src
            &&& reads_specifiers(
                ScopeView { imports: listed, ..st.scope },
                step.state.scope,
                src,
                list,
            )
            &&& list.len() == 0 ==> {
                &&& step.state.used == st.used
                &&& forall|s: Seq<char>| #[trigger]
                    local_of(listed, s) == local_of(st.scope.imports, s)
            }
            &&& list.len() == 1 && list[0] is Namespace ==> {
                &&& step.state.used == st.used
                &&& local_of(listed, src) == match local_of(st.scope.imports, src) {
                    Some(local) => Some(local),
                    None => Some(list[0]->Namespace_local),
                }
                &&& keeps_other_modules(st.scope, step.state.scope, src)
            }
            &&& list.len() > 1 || (list.len() == 1 && !(list[0] is Namespace)) ==> names_module(
                frame.pool,
                st,
                step.state,
                src,
            )
        }),
{
    let src = d.src.value;
    let list = d.specifiers;
    let after = with_import(frame.pool, st, d);
    if list.len() == 0 {
        lemma_mentioned(st.scope.imports, src);
        lemma_find_src(after.scope.imports, src);
        let i = find_src(after.scope.imports, src);
        assert(after.scope.imports[i].src == src);
        lemma_reads_specifiers(after.scope, src, list);
    } else {
        let named = if list.len() == 1 && list[0] is Namespace {
            lemma_bound(st.scope.imports, src, imported_name(list[0]));
            ScopeView { imports: bound(st.scope.imports, src, imported_name(list[0])), ..st.scope }
        } else {
            lemma_names_module(frame.pool, st, src);
            with_local(frame.pool, st, src).scope
        };
        lemma_reads_specifiers(named, src, list);
        lemma_find_src(named.imports, src);
        let i = find_src(named.imports, src);
        assert(named.imports[i].src == src);
    }
}

// ---------------------------------------------------------------------------
// Exports by name
// ---------------------------------------------------------------------------

/// Specifiers are read one after the other.
pub proof fn law_specifiers_in_turn(
    frame: Frame,
    st: State,
    origin: Option<Origin>,
    first: Seq<ExportSpecifierView>,
    second: Seq<ExportSpecifierView>,
)
    ensures
        ({
            let a = read_specifiers(frame, st, origin, first);
            let b = read_specifiers(frame, a.state, origin, second);
            let both = read_specifiers(frame, st, origin, first + second);
            &&& both.state == b.state
            &&& both.out.header == a.out.header + b.out.header
            &&& both.out.body == a.out.body + b.out.body
            &&& both.out.names == a.out.names + b.out.names
        }),
    decreases second.len(),
{
    let a = read_specifiers(frame, st, origin, first);
    let both = read_specifiers(frame, st, origin, first + second);
    if second.len() == 0 {
        assert(first + second =~= first);
        assert(a.out.header + Seq::<NodeView>::empty() =~= a.out.header);
        assert(a.out.body + Seq::<NodeView>::empty() =~= a.out.body);
        assert(a.out.names + Seq::<Seq<char>>::empty() =~= a.out.names);
    } else {
        assert((first + second).drop_last() =~= first + second.drop_last());
        law_specifiers_in_turn(frame, st, origin, first, second.drop_last());
        let b = read_specifiers(frame, a.state, origin, second);
        assert(both.out.header =~= a.out.header + b.out.header);
        assert(both.out.body =~= a.out.body + b.out.body);
        assert(both.out.names =~= a.out.names + b.out.names);
    }
}

/// What a specifier of an export leaves: a getter for what comes from another module, by
/// `from` or by an import, and an assignment, with an initialization, for what does not.
pub open spec fn exports_value(
    frame: Frame,
    env: Env,
    origin: Option<Origin>,
    orig: IdentView,
    name: IdentView,
    out: OutputView,
) -> bool {
    let getter = |value: NodeView|
        {
            &&& out.header.len() == 1
            &&& out.header[0] == live_export(frame.exports, name, value)
            &&& out.body.len() == 0
            &&& out.names.len() == 0
        };
    let copy = |value: NodeView|
        {
            &&& out.header.len() == 0
            &&& out.body.len() == 1
            &&& out.body[0] == export_write(frame.exports, name, value)
            &&& out.names.len() == 1
            &&& out.names[0] == name.sym
        };
    match origin {
        Some(o) => getter(property(value_of(o.local), orig)),
        None => if is_imported(env, orig) {
            exists|read: NodeView| #[trigger]
                reads_from_module(env, orig, read) && if env.idents[key_of(orig)].prop.len() == 0 {
                    copy(read)
                } else {
                    getter(read)
                }
        } else {
            copy(value_of(orig))
        },
    }
}

/// A name that is exported leaves a getter or an assignment. A variable that is declared has
/// one more export from there on, and no other variable has; a module whose default export is
/// exported goes through interop, and no other module does on that account.
pub proof fn law_specifier(
    frame: Frame,
    st: State,
    origin: Option<Origin>,
    orig: IdentView,
    exported: Option<IdentView>,
)
    requires
        distinct_srcs(st.scope.imports),
    ensures
        ({
            let step = read_specifiers(
                frame,
                st,
                origin,
                seq![ExportSpecifierView::Named { orig, exported }],
            );
            let name = match exported {
                Some(name) => name,
                None => orig,
            };
            let id = key_of(orig);
            let vars = st.scope.exported_vars;
            let now = step.state.scope.exported_vars;
            let types = st.scope.import_types;
            let typed = step.state.scope.import_types;
            &&& step.state.used == st.used
            &&& step.state.scope.imports == st.scope.imports
            &&& step.state.scope.idents == st.scope.idents
            &&& step.state.scope.declared_vars == st.scope.declared_vars
            &&& exports_value(frame, env_at(frame, st), origin, orig, name, step.out)
            &&& !st.scope.declared_vars.contains(id) ==> now == vars
            &&& st.scope.declared_vars.contains(id) ==> {
                &&& now.contains_key(id)
                &&& now[id] == (if vars.contains_key(id) {
                    vars[id]
                } else {
                    Seq::empty()
                }).push(key_of(name))
                &&& forall|other: IdView|
                    other != id ==> {
                        &&& #[trigger] now.contains_key(other) == vars.contains_key(other)
                        &&& vars.contains_key(other) ==> now[other] == vars[other]
                    }
            }
            &&& !(origin is Some && orig.sym == "default"@) ==> typed == types
            &&& origin is Some && orig.sym == "default"@ ==> {
                let src = origin->Some_0.src;
                &&& typed.contains_key(src)
                &&& typed[src] == (types.contains_key(src) && types[src])
                &&& forall|other: Seq<char>|
                    other != src ==> {
                        &&& #[trigger] typed.contains_key(other) == types.contains_key(other)
                        &&& types.contains_key(other) ==> typed[other] == types[other]
                    }
            }
        }),
{
    let list = seq![ExportSpecifierView::Named { orig, exported }];
    let name = match exported {
        Some(name) => name,
        None => orig,
    };
    reveal_with_fuel(read_specifiers, 2);
    assert(list.drop_last() =~= Seq::empty());
    let next = read_named(frame, st, origin, orig, name);
    let step = read_specifiers(frame, st, origin, list);
    assert(step.out =~= next.out);
    assert(id_of(orig) == key_of(orig));
    let env = env_at(frame, st);
    law_resolution(env, orig);
    if origin is None && is_imported(env, orig) {
        let read = resolve(env.idents, env.imports, orig)->Some_0;
        assert(reads_from_module(env, orig, read));
        let b = env.idents[key_of(orig)];
        let local = choose|local: IdentView| #[trigger]
            module_named(env.imports, b.src, local) && read == if b.prop.len() == 0 {
                value_of(local)
            } else {
                plain_property(value_of(local), b.prop)
            };
        assert(named_value(frame, next.state, origin, orig) == read);
    }
}

/// An export of names reads them one by one: those of the module itself with what is known,
/// and those of another module from that module, which then has a name. An export that reads
/// nothing from a module only lists it.
pub proof fn law_export_of_names(frame: Frame, st: State, d: NamedExportView)
    requires
        distinct_srcs(st.scope.imports),
    ensures
        ({
            let item = ModuleItemView::ModuleDecl(ModuleDeclView::ExportNamed(d));
            let step = read_item(frame, st, item);
            &&& d.src is None ==> step == read_specifiers(frame, st, None, d.specifiers)
            &&& d.src is Some && d.specifiers.len() == 0 ==> {
                let src = d.src->Some_0.value;
                let listed = step.state.scope.imports;
                &&& is_nothing(step.out)
                &&& step.state.used == st.used
                &&& step.state.scope == (ScopeView { imports: listed, ..st.scope })
                &&& exists|i: int| 0 <= i < listed.len() && (#[trigger] listed[i]).src == src
                &&& forall|s: Seq<char>| #[trigger]
                    local_of(listed, s) == local_of(st.scope.imports, s)
            }
            &&& d.src is Some && d.specifiers.len() > 0 ==> exists|named: State, local: IdentView|
                {
                    let src = d.src->Some_0.value;
                    &&& #[trigger] names_module(frame.pool, st, named, d.src->Some_0.value)
                    &&& #[trigger] module_named(
                        named.scope.imports,
                        d.src->Some_0.value,
                        local,
                    )
                    &&& distinct_srcs(named.scope.imports)
                    &&& named.scope == (ScopeView { imports: named.scope.imports, ..st.scope })
                    &&& step == read_specifiers(
                        frame,
                        named,
                        Some(Origin { src, local }),
                        d.specifiers,
                    )
                }
        }),
{
    if let Some(src) = d.src {
        let src = src.value;
        if d.specifiers.len() == 0 {
            let after = with_mention(st, src);
            lemma_mentioned(st.scope.imports, src);
            lemma_find_src(after.scope.imports, src);
            let i = find_src(after.scope.imports, src);
            assert(after.scope.imports[i].src == src);
        } else {
            let named = with_local(frame.pool, st, src);
            lemma_names_module(frame.pool, st, src);
            let local = local_of(named.scope.imports, src)->Some_0;
            law_module_named(named.scope.imports, src, local);
        }
    }
}

// ---------------------------------------------------------------------------
// Items in turn
// ---------------------------------------------------------------------------

/// Reading one item is reading it, and reading none changes nothing.
pub proof fn law_one_item(frame: Frame, st: State, item: ModuleItemView)
    ensures
        read_items(frame, st, seq![item]).state == read_item(frame, st, item).state,
        read_items(frame, st, seq![item]).out == read_item(frame, st, item).out,
        read_items(frame, st, Seq::empty()).state == st,
        is_nothing(read_items(frame, st, Seq::empty()).out),
{
    reveal_with_fuel(read_items, 2);
    assert(seq![item].drop_last() =~= Seq::empty());
    assert(read_items(frame, st, seq![item]).out =~= read_item(frame, st, item).out);
}

/// Whether an item is an export.
pub open spec fn exports_something(item: ModuleItemView) -> bool {
    match item {
        ModuleItemView::Stmt(_) => false,
        ModuleItemView::ModuleDecl(d) => match d {
            ModuleDeclView::ExportDecl(_) => true,
            ModuleDeclView::ExportNamed(_) => true,
            ModuleDeclView::ExportDefaultDecl(_) => true,
            ModuleDeclView::ExportDefaultExpr(_) => true,
            ModuleDeclView::ExportAll(_) => true,
            ModuleDeclView::Import(_) => false,
            ModuleDeclView::Ts => false,
        },
    }
}

/// A module has exports where one of its items is one; the modules that it exports as a whole
/// are found in order; and it starts strict where its first item is the directive.
pub proof fn law_module_facts(
    items: Seq<ModuleItemView>,
    more: Seq<ModuleItemView>,
    item: ModuleItemView,
)
    ensures
        has_export(items) <==> exists|i: int|
            0 <= i < items.len() && exports_something(#[trigger] items[i]),
        export_alls(items + more) == export_alls(items) + export_alls(more),
        export_alls(seq![item]) == match item {
            ModuleItemView::ModuleDecl(ModuleDeclView::ExportAll(src)) => seq![src.value],
            _ => Seq::empty(),
        },
        export_alls(Seq::empty()).len() == 0,
        starts_strict(items) <==> {
            &&& items.len() > 0
            &&& items[0] matches ModuleItemView::Stmt(s)
            &&& s.form == Form::ExprStmt
            &&& s.kids.len() == 1
            &&& s.kids[0].form == Form::Str
            &&& s.kids[0].text == "use strict"@
        },
    decreases more.len(),
{
    assert forall|i: int| 0 <= i < items.len() implies is_export(#[trigger] items[i])
        == exports_something(items[i]) by {}
    if more.len() == 0 {
        assert(items + more =~= items);
        assert(export_alls(items) + export_alls(more) =~= export_alls(items));
    } else {
        assert((items + more).drop_last() =~= items + more.drop_last());
        law_module_facts(items, more.drop_last(), item);
        assert(export_alls(items + more) =~= export_alls(items) + export_alls(more));
    }
    reveal_with_fuel(export_alls, 2);
    assert(seq![item].drop_last() =~= Seq::empty());
    assert(export_alls(seq![item]) =~= match item {
        ModuleItemView::ModuleDecl(ModuleDeclView::ExportAll(src)) => seq![src.value],
        _ => Seq::empty(),
    });
}

/// Whether an item is `export a from` or `export * as a from`.
pub open spec fn is_proposal(item: ModuleItemView) -> bool {
    item matches ModuleItemView::ModuleDecl(ModuleDeclView::ExportNamed(d)) && exists|k: int|
        0 <= k < d.specifiers.len() && ((#[trigger] d.specifiers[k]) is Default
            || d.specifiers[k] is Namespace)
}

/// All modules are read in which no such item is left.
pub proof fn law_what_is_read(items: Seq<ModuleItemView>)
    ensures
        all_plain(items) <==> forall|i: int|
            0 <= i < items.len() ==> !is_proposal(#[trigger] items[i]),
{
    assert forall|i: int| 0 <= i < items.len() implies is_plain(#[trigger] items[i])
        == !is_proposal(items[i]) by {
        if let ModuleItemView::ModuleDecl(ModuleDeclView::ExportNamed(d)) = items[i] {
            if is_plain(items[i]) {
                assert forall|k: int| 0 <= k < d.specifiers.len() implies !((
                #[trigger] d.specifiers[k]) is Default) && !(d.specifiers[k] is Namespace) by {
                    assert(d.specifiers[k] is Named);
                }
            } else {
                let k = choose|k: int|
                    0 <= k < d.specifiers.len() && !((#[trigger] d.specifiers[k]) is Named);
                assert(d.specifiers[k] is Default || d.specifiers[k] is Namespace);
            }
        }
    }
}

} // verus!
