//! What holds of the pass as a whole.

use vstd::prelude::*;

use crate::ast::{AssignOp, Form, Span, UpdateOp};
use crate::bindings::{idents_in, idents_in_all};
use crate::budget::{lemma_export_specifiers_imports, lemma_specifiers_imports};
use crate::define::{
    Parts, ReadingView, bindings_view, close_exports, define_view, defined, end_state, header,
    helper_name, initialization, interop_view, interops, list_name, locals, module_parts,
    name_props, parts, preamble, read_alls, reading, srcs, strs_view,
};
use crate::emit::{
    bare_view, binding_view, branch_view, directives, es_module_view, function_view, getter_view,
    ident_in, ident_view, is_directive, key_value_view, leaf_view, member_view, no_span,
    num_view, plain_name, prepended, starts_strict, str_view, undefined_view, use_strict_view,
    var_decl_view,
};
use crate::folding::{
    Env, bumped, chained, declared_in, detached, echoes, fold_all, fold_tree, is_nested,
};
use crate::history::{
    exports_as, law_nothing_forgotten, law_read_in_turn, lemma_exports_kept, lemma_keeps_close,
    lemma_keeps_export_specifiers, lemma_keeps_exported, lemma_keeps_exports, lemma_keeps_item,
    lemma_keeps_local, lemma_keeps_named, lemma_knows_itself, lemma_knows_transitive,
    with_imports,
};
use crate::imports::{
    State, generated_local, imported_name, imported_prop, with_export_from, with_local,
    with_specifiers,
};
use crate::items::{
    Frame, Origin, OutputView, export_alls, has_export, read_item, read_items, read_named,
    read_specifiers, with_declared,
};
use crate::model::{
    DeclView, ExportSpecifierView, IdentView, ImportDeclView, ImportSpecifierView,
    ModuleDeclView, ModuleItemView, ModuleView, NamedExportView, NodeView, VarDeclView,
};
use crate::names::lists;
use crate::scope::{
    IdView, ImportView, ScopeView, bound, exported, find_src, id_of, ids_of, import_ref,
    lemma_find_src, local_of, mentioned, resolve,
};
use crate::util;

verus! {

// ---------------------------------------------------------------------------
// Code inside a module
// ---------------------------------------------------------------------------

/// Whether a tree holds something that the pass rewrites: the `this` of the module, an
/// imported name, or a write to an exported variable.
pub open spec fn is_affected(env: Env, top: bool, n: NodeView) -> bool
    decreases n,
{
    match n.form {
        Form::This => top,
        Form::Ident | Form::Shorthand => resolve(env.idents, env.imports, ident_in(n)) is Some,
        _ => {
            ||| n.form is Update && n.kids.len() == 1 && n.kids[0].form == Form::Ident
                && env.exported_vars.contains_key(id_of(ident_in(n.kids[0])))
            ||| n.form is Assign && n.kids.len() > 0 && writes_export(env, idents_in(n.kids[0]))
            ||| exists|i: int|
                0 <= i < n.kids.len() && is_affected(
                    env,
                    top && !is_nested(n.form),
                    #[trigger] n.kids[i],
                )
        },
    }
}

/// Whether one of the names is exported.
pub open spec fn writes_export(env: Env, names: Seq<IdentView>) -> bool {
    exists|i: int|
        0 <= i < names.len() && env.exported_vars.contains_key(id_of(#[trigger] names[i]))
}

/// Code that holds nothing to rewrite stays as it is.
pub proof fn law_unaffected(env: Env, top: bool, n: NodeView)
    requires
        !is_affected(env, top, n),
    ensures
        fold_tree(env, top, n) == n,
    decreases n,
{
    match n.form {
        Form::This | Form::Ident | Form::Shorthand => {},
        _ => {
            let inner = top && !is_nested(n.form);
            assert forall|i: int| 0 <= i < n.kids.len() implies fold_tree(
                env,
                inner,
                #[trigger] n.kids[i],
            ) == n.kids[i] by {
                law_unaffected(env, inner, n.kids[i]);
            }
            assert(fold_all(env, inner, n.kids) =~= n.kids);
            if n.form is Assign && n.kids.len() > 0 {
                let names = idents_in(n.kids[0]);
                lemma_no_echoes(env, names);
                if n.kids[0].form == Form::BindingIdent {
                    assert(names.len() == 1);
                    assert(!env.exported_vars.contains_key(id_of(names[0])));
                }
            }
            if n.form == Form::Call && n.kids.len() > 0 {
                assert(n.kids.update(0, n.kids[0]) =~= n.kids);
            }
        },
    }
}

/// Where none of the names is exported, nothing has to be brought up to date.
proof fn lemma_no_echoes(env: Env, names: Seq<IdentView>)
    requires
        !writes_export(env, names),
    ensures
        echoes(env, names).len() == 0,
    decreases names.len(),
{
    if names.len() > 0 {
        assert(!env.exported_vars.contains_key(id_of(names[names.len() - 1])));
        assert forall|i: int| 0 <= i < names.len() - 1 implies !env.exported_vars.contains_key(
            id_of(#[trigger] names.drop_last()[i]),
        ) by {
            assert(names.drop_last()[i] == names[i]);
        }
        lemma_no_echoes(env, names.drop_last());
    }
}

/// Folding never changes the names that a pattern or a declaration binds.
pub proof fn law_bindings_kept(env: Env, top: bool, n: NodeView)
    ensures
        idents_in(fold_tree(env, top, n)) == idents_in(n),
    decreases n, 1int,
{
    let inner = top && !is_nested(n.form);
    match n.form {
        Form::BindingIdent => {},
        Form::ArrayPat | Form::ObjectPat | Form::RestPat => {
            law_all_bindings_kept(env, inner, n.kids);
        },
        Form::AssignPat | Form::AssignPatProp | Form::VarDeclarator { .. } => {
            if n.kids.len() > 0 {
                law_bindings_kept(env, inner, n.kids[0]);
            }
        },
        Form::KeyValuePat => {
            if n.kids.len() > 1 {
                law_bindings_kept(env, inner, n.kids[1]);
            }
        },
        Form::Assign(_) => {
            if n.kids.len() > 0 {
                let target = n.kids[0];
                if target.form == Form::BindingIdent {
                    if env.exported_vars.contains_key(id_of(idents_in(target)[0])) {
                        lemma_chain_binds_nothing(
                            env.exports,
                            env.exported_vars[id_of(idents_in(target)[0])],
                            NodeView { kids: fold_all(env, inner, n.kids), ..n },
                        );
                    }
                }
            }
        },
        Form::Update { op, .. } => {
            if n.kids.len() == 1 && n.kids[0].form == Form::Ident {
                let name = ident_in(n.kids[0]);
                if env.exported_vars.contains_key(id_of(name)) {
                    lemma_chain_binds_nothing(
                        env.exports,
                        env.exported_vars[id_of(name)],
                        bumped(name, op),
                    );
                }
            }
        },
        _ => {},
    }
}

/// The same, for a list.
pub proof fn law_all_bindings_kept(env: Env, top: bool, list: Seq<NodeView>)
    ensures
        idents_in_all(fold_all(env, top, list)) == idents_in_all(list),
    decreases list, 0int,
{
    if list.len() > 0 {
        let folded = fold_all(env, top, list);
        assert(folded.drop_last() =~= fold_all(env, top, list.drop_last()));
        law_all_bindings_kept(env, top, list.drop_last());
        law_bindings_kept(env, top, list.last());
    }
}

/// Assignments to exports bind no name.
proof fn lemma_chain_binds_nothing(exports: IdentView, names: Seq<IdView>, e: NodeView)
    requires
        idents_in(e).len() == 0,
    ensures
        idents_in(chained(exports, names, e)) == Seq::<IdentView>::empty(),
{
    if names.len() == 0 {
        assert(idents_in(e) =~= Seq::empty());
    }
}

/// An imported name in value position is read from its module, each time anew.
pub proof fn law_imports_are_read(env: Env, top: bool, name: IdentView)
    requires
        env.idents.contains_key(id_of(name)),
        local_of(env.imports, env.idents[id_of(name)].src) is Some,
    ensures
        fold_tree(env, top, ident_view(name)) == import_ref(
            env.imports,
            env.idents[id_of(name)],
        ),
{
    assert(ident_in(ident_view(name)) == name);
}

/// An imported function is called as a function, not as a method of its module: `f(a)`
/// becomes `(0, m.f)(a)`.
pub proof fn law_imports_are_called(
    env: Env,
    top: bool,
    span: Span,
    name: IdentView,
    args: Seq<NodeView>,
)
    requires
        env.idents.contains_key(id_of(name)),
        local_of(env.imports, env.idents[id_of(name)].src) is Some,
        env.idents[id_of(name)].prop.len() > 0,
    ensures
        fold_tree(
            env,
            top,
            branch_view(span, Form::Call, seq![ident_view(name)] + args),
        ) == branch_view(
            span,
            Form::Call,
            seq![
                branch_view(
                    no_span(),
                    Form::Sequence,
                    seq![num_view("0"@), import_ref(env.imports, env.idents[id_of(name)])],
                ),
            ] + fold_all(env, top, args),
        ),
{
    let callee = ident_view(name);
    let kids = seq![callee] + args;
    let n = branch_view(span, Form::Call, kids);
    let value = import_ref(env.imports, env.idents[id_of(name)]);
    law_imports_are_read(env, top, name);
    let folded = fold_all(env, top, kids);
    assert(kids[0] == callee);
    assert(folded[0] == value);
    assert(detached(value) == branch_view(
        no_span(),
        Form::Sequence,
        seq![num_view("0"@), value],
    ));
    assert forall|i: int| 0 <= i < args.len() implies folded[i + 1] == #[trigger] fold_all(
        env,
        top,
        args,
    )[i] by {
        assert(kids[i + 1] == args[i]);
    }
    assert(fold_tree(env, top, n).kids =~= seq![detached(value)] + fold_all(env, top, args));
}

/// The `this` of the module is `void 0`; that of a function, an accessor, a constructor
/// or a class property is left alone, however deep it stands.
pub proof fn law_this(env: Env, span: Span, n: NodeView)
    ensures
        fold_tree(env, true, leaf_view(span, Form::This, Seq::empty())) == undefined_view(span),
        fold_tree(env, false, leaf_view(span, Form::This, Seq::empty())) == leaf_view(
            span,
            Form::This,
            Seq::empty(),
        ),
        is_nested(n.form) ==> fold_tree(env, true, n) == fold_tree(env, false, n),
{
}

/// A write to an exported variable writes its exports too: `a = b` becomes
/// `exports.x = a = b`, for every name under which `a` is exported.
pub proof fn law_write_through(
    env: Env,
    top: bool,
    span: Span,
    op: AssignOp,
    name: IdentView,
    value: NodeView,
)
    requires
        env.exported_vars.contains_key(id_of(name)),
    ensures
        fold_tree(
            env,
            top,
            branch_view(span, Form::Assign(op), seq![binding_view(name), value]),
        ) == chained(
            env.exports,
            env.exported_vars[id_of(name)],
            branch_view(
                span,
                Form::Assign(op),
                seq![binding_view(name), fold_tree(env, top, value)],
            ),
        ),
{
    let target = binding_view(name);
    let kids = seq![target, value];
    let n = branch_view(span, Form::Assign(op), kids);
    assert(fold_all(env, top, target.kids) =~= target.kids);
    assert(fold_tree(env, top, target) == target);
    assert(fold_all(env, top, kids) =~= seq![target, fold_tree(env, top, value)]);
    assert(n.kids[0] == target);
    assert(idents_in(target) =~= seq![name]);
    assert(ident_in(target) == name);
}

/// `a++` on an exported variable writes its exports too.
pub proof fn law_update_through(
    env: Env,
    top: bool,
    span: Span,
    op: UpdateOp,
    prefix: bool,
    name: IdentView,
)
    requires
        env.exported_vars.contains_key(id_of(name)),
    ensures
        fold_tree(
            env,
            top,
            branch_view(span, Form::Update { op, prefix }, seq![ident_view(name)]),
        ) == chained(env.exports, env.exported_vars[id_of(name)], bumped(name, op)),
{
    let n = branch_view(span, Form::Update { op, prefix }, seq![ident_view(name)]);
    assert(n.kids.len() == 1 && n.kids[0] == ident_view(name));
    assert(ident_in(n.kids[0]) == name);
}


// ---------------------------------------------------------------------------
// The call of `define`
// ---------------------------------------------------------------------------

/// A module becomes one statement, a call of `define`: with the name of the module where
/// it has one, the sources that it depends on, and a factory.
pub proof fn law_one_call(id: Option<Seq<char>>, parts: Parts, module: ModuleView)
    ensures
        defined(id, parts, module).span == module.span,
        defined(id, parts, module).shebang == module.shebang,
        defined(id, parts, module).body.len() == 1,
        defined(id, parts, module).body[0] == ModuleItemView::Stmt(define_view(id, parts)),
        define_view(id, parts).form == Form::ExprStmt,
        ({
            let call = define_view(id, parts).kids[0];
            let args = call.kids.drop_first();
            &&& call.form == Form::Call
            &&& call.kids[0] == ident_view(plain_name("define"@))
            &&& args.len() == if id is Some {
                3int
            } else {
                2
            }
            &&& id is Some ==> args[0] == str_view(no_span(), id->Some_0)
            &&& args[args.len() - 2] == branch_view(
                no_span(),
                Form::Array,
                strs_view(parts.deps),
            )
            &&& args[args.len() - 1] == function_view(bindings_view(parts.params), parts.stmts)
        }),
{
    let deps = branch_view(no_span(), Form::Array, strs_view(parts.deps));
    let factory = function_view(bindings_view(parts.params), parts.stmts);
    let name = match id {
        Some(id) => seq![str_view(no_span(), id)],
        None => Seq::empty(),
    };
    let call = define_view(id, parts).kids[0];
    assert(call.kids.drop_first() =~= name + seq![deps, factory]);
}

/// The factory has one parameter for each dependency, in the same order. The export
/// object comes first, where the module exports something, and is not there where it
/// does not; the imported modules follow, each under its own name.
pub proof fn law_deps_and_params(
    config: util::Config,
    frame: Frame,
    helpers: u32,
    st: State,
    items: Seq<ModuleItemView>,
    order: Seq<Seq<char>>,
)
    ensures
        ({
            let p = module_parts(config, frame, helpers, st, items, order);
            let imports = end_state(frame, st, items).scope.imports;
            let first = if has_export(items) {
                1int
            } else {
                0
            };
            &&& p.deps.len() == p.params.len()
            &&& p.deps.len() == first + imports.len()
            &&& has_export(items) ==> p.deps[0] == "exports"@ && p.params[0] == frame.exports
            &&& forall|i: int|
                0 <= i < imports.len() ==> p.deps[first + i] == (#[trigger] imports[i]).src
            &&& forall|i: int|
                0 <= i < imports.len() && (#[trigger] imports[i]).local is Some
                    ==> p.params[first + i] == imports[i].local->Some_0
        }),
{
}

/// The list `before` with `src` in it.
pub open spec fn with_source(before: Seq<Seq<char>>, src: Seq<char>) -> Seq<Seq<char>> {
    if before.contains(src) {
        before
    } else {
        before.push(src)
    }
}

/// The list `before` with each source of `more` in it, in the order in which they first
/// occur.
pub open spec fn with_sources(before: Seq<Seq<char>>, more: Seq<Seq<char>>) -> Seq<Seq<char>>
    decreases more.len(),
{
    if more.len() == 0 {
        before
    } else {
        with_source(with_sources(before, more.drop_last()), more.last())
    }
}

/// The sources that imports and exports of names come from, in source order.
pub open spec fn sources(items: Seq<ModuleItemView>) -> Seq<Seq<char>>
    decreases items.len(),
{
    if items.len() == 0 {
        Seq::empty()
    } else {
        let before = sources(items.drop_last());
        match items.last() {
            ModuleItemView::ModuleDecl(ModuleDeclView::Import(d)) => before.push(d.src.value),
            ModuleItemView::ModuleDecl(ModuleDeclView::ExportNamed(d)) => match d.src {
                Some(src) => before.push(src.value),
                None => before,
            },
            _ => before,
        }
    }
}

/// A module is found where its source is listed.
proof fn lemma_listed(imports: Seq<ImportView>, src: Seq<char>)
    ensures
        find_src(imports, src) >= 0 <==> srcs(imports).contains(src),
{
    lemma_find_src(imports, src);
    if find_src(imports, src) >= 0 {
        assert(srcs(imports)[find_src(imports, src)] == src);
    }
    if srcs(imports).contains(src) {
        let i = srcs(imports).index_of(src);
        assert(imports[i].src == src);
    }
}

/// Binding or listing a module puts its source into the list.
proof fn lemma_sources_of(imports: Seq<ImportView>, src: Seq<char>, local: IdentView)
    ensures
        srcs(bound(imports, src, local)) == with_source(srcs(imports), src),
        srcs(mentioned(imports, src)) == with_source(srcs(imports), src),
{
    lemma_find_src(imports, src);
    lemma_listed(imports, src);
    assert(srcs(bound(imports, src, local)) =~= with_source(srcs(imports), src));
    assert(srcs(mentioned(imports, src)) =~= with_source(srcs(imports), src));
}

/// The source that an item puts into the list.
proof fn lemma_item_source(frame: Frame, st: State, item: ModuleItemView)
    ensures
        srcs(read_item(frame, st, item).state.scope.imports) == with_sources(
            srcs(st.scope.imports),
            sources(seq![item]),
        ),
{
    reveal_with_fuel(sources, 2);
    reveal_with_fuel(with_sources, 2);
    assert(seq![item].drop_last() =~= Seq::empty());
    let before = srcs(st.scope.imports);
    match item {
        ModuleItemView::ModuleDecl(ModuleDeclView::Import(d)) => {
            let src = d.src.value;
            assert(sources(seq![item]) =~= seq![src]);
            assert(seq![src].drop_last() =~= Seq::empty());
            lemma_sources_of(
                st.scope.imports,
                src,
                generated_local(src, frame.pool[st.used]),
            );
            if d.specifiers.len() > 0 {
                lemma_sources_of(st.scope.imports, src, imported_name(d.specifiers[0]));
                let named = if d.specifiers.len() == 1 && d.specifiers[0] is Namespace {
                    with_imports(
                        st.scope,
                        bound(st.scope.imports, src, imported_name(d.specifiers[0])),
                    )
                } else {
                    with_local(frame.pool, st, src).scope
                };
                lemma_specifiers_imports(named, src, d.specifiers);
            }
        },
        ModuleItemView::ModuleDecl(ModuleDeclView::ExportNamed(d)) => match d.src {
            Some(src) => {
                let src = src.value;
                assert(sources(seq![item]) =~= seq![src]);
                assert(seq![src].drop_last() =~= Seq::empty());
                lemma_sources_of(
                    st.scope.imports,
                    src,
                    generated_local(src, frame.pool[st.used]),
                );
                let reads = d.specifiers.len() > 0;
                let state = with_export_from(frame.pool, st, src, reads);
                let origin = if reads {
                    Some(Origin { src, local: local_of(state.scope.imports, src)->Some_0 })
                } else {
                    None
                };
                lemma_export_specifiers_imports(frame, state, origin, d.specifiers);
            },
            None => lemma_export_specifiers_imports(frame, st, None, d.specifiers),
        },
        _ => {},
    }
}

/// Lists of sources can be put in one after the other.
proof fn lemma_with_sources(before: Seq<Seq<char>>, first: Seq<Seq<char>>, second: Seq<Seq<char>>)
    ensures
        with_sources(before, first + second) == with_sources(
            with_sources(before, first),
            second,
        ),
    decreases second.len(),
{
    if second.len() == 0 {
        assert(first + second =~= first);
    } else {
        assert((first + second).drop_last() =~= first + second.drop_last());
        lemma_with_sources(before, first, second.drop_last());
    }
}

/// The sources that items put into the list.
proof fn lemma_items_sources(frame: Frame, st: State, items: Seq<ModuleItemView>)
    ensures
        srcs(read_items(frame, st, items).state.scope.imports) == with_sources(
            srcs(st.scope.imports),
            sources(items),
        ),
    decreases items.len(),
{
    if items.len() > 0 {
        let before = items.drop_last();
        let last = items.last();
        lemma_items_sources(frame, st, before);
        lemma_item_source(frame, read_items(frame, st, before).state, last);
        lemma_with_sources(srcs(st.scope.imports), sources(before), sources(seq![last]));
        reveal_with_fuel(sources, 2);
        assert(seq![last].drop_last() =~= Seq::empty());
        assert(sources(items) =~= sources(before) + sources(seq![last]));
    }
}

/// The sources that modules exported as a whole put into the list.
proof fn lemma_alls_sources(
    frame: Frame,
    st: State,
    names: Option<IdentView>,
    list: Seq<Seq<char>>,
)
    ensures
        srcs(read_alls(frame, st, names, list).state.scope.imports) == with_sources(
            srcs(st.scope.imports),
            list,
        ),
    decreases list.len(),
{
    if list.len() > 0 {
        let before = read_alls(frame, st, names, list.drop_last()).state;
        lemma_alls_sources(frame, st, names, list.drop_last());
        lemma_sources_of(
            before.scope.imports,
            list.last(),
            generated_local(list.last(), frame.pool[before.used]),
        );
    }
}

/// A module depends on the sources that it names, each of them once, in the order of
/// their first mention; sources that are exported as a whole come last, unless they were
/// named before.
pub proof fn law_order_of_mention(frame: Frame, st: State, items: Seq<ModuleItemView>)
    requires
        st.scope.imports.len() == 0,
    ensures
        srcs(end_state(frame, st, items).scope.imports) == with_sources(
            Seq::empty(),
            sources(items) + export_alls(items),
        ),
        srcs(end_state(frame, st, items).scope.imports).no_duplicates(),
{
    let step = read_items(frame, st, items);
    assert(srcs(st.scope.imports) =~= Seq::empty());
    lemma_items_sources(frame, st, items);
    lemma_with_sources(Seq::empty(), sources(items), export_alls(items));
    lemma_alls_sources(
        frame,
        State { scope: step.state.scope, used: step.state.used + 1 },
        Some(list_name(frame.pool, step.state)),
        export_alls(items),
    );
    lemma_alls_sources(frame, step.state, None, export_alls(items));
    lemma_once_each(sources(items) + export_alls(items));
}

/// A list that each source is put into holds each of them once.
proof fn lemma_once_each(list: Seq<Seq<char>>)
    ensures
        with_sources(Seq::empty(), list).no_duplicates(),
    decreases list.len(),
{
    if list.len() > 0 {
        lemma_once_each(list.drop_last());
    }
}

/// What an imported name is replaced by refers to a parameter of the factory: a module
/// that has a name while some of the items are read is passed to the factory under that
/// very name.
pub proof fn law_references_resolve(
    config: util::Config,
    frame: Frame,
    helpers: u32,
    st: State,
    first: Seq<ModuleItemView>,
    second: Seq<ModuleItemView>,
    order: Seq<Seq<char>>,
    id: IdView,
)
    requires
        st.scope.wf(),
        ({
            let scope = read_items(frame, st, first).state.scope;
            &&& scope.idents.contains_key(id)
            &&& local_of(scope.imports, scope.idents[id].src) is Some
        }),
    ensures
        ({
            let scope = read_items(frame, st, first).state.scope;
            let src = scope.idents[id].src;
            let p = module_parts(config, frame, helpers, st, first + second, order);
            exists|i: int|
                0 <= i < p.deps.len() && #[trigger] p.deps[i] == src && p.params[i] == local_of(
                    scope.imports,
                    src,
                )->Some_0
        }),
{
    let items = first + second;
    let early = read_items(frame, st, first).state;
    let src = early.scope.idents[id].src;
    let end = end_state(frame, st, items);
    law_nothing_forgotten(frame, st, first);
    law_nothing_forgotten(frame, early, second);
    law_read_in_turn(frame, st, first, second);
    let step = read_items(frame, st, items);
    lemma_keeps_close(frame, step.state, reading(step.out, items));
    lemma_knows_transitive(early.scope, step.state.scope, end.scope);
    assert(local_of(early.scope.imports, src) is Some);
    lemma_find_src(end.scope.imports, src);
    law_deps_and_params(config, frame, helpers, st, items, order);
    let p = module_parts(config, frame, helpers, st, items, order);
    let k = find_src(end.scope.imports, src);
    let i = if has_export(items) {
        1 + k
    } else {
        k
    };
    assert(end.scope.imports[k].src == src);
    assert(p.deps[i] == src);
}

// ---------------------------------------------------------------------------
// The statements of the factory
// ---------------------------------------------------------------------------

/// `'use strict'` is the first statement of the factory where it is asked for and the
/// module does not start with it.
pub proof fn law_use_strict(
    config: util::Config,
    frame: Frame,
    helpers: u32,
    st: State,
    r: ReadingView,
    order: Seq<Seq<char>>,
)
    requires
        config.strict_mode,
        !r.strict,
    ensures
        parts(config, frame, helpers, st, r, order).stmts.len() > 0,
        parts(config, frame, helpers, st, r, order).stmts[0] == use_strict_view(),
{
    let h = header(config, frame, st, r, order);
    assert(h.len() > 0 && h[0] == use_strict_view());
    assert(is_directive(h[0]));
    assert(directives(h) >= 1);
    lemma_directives(h);
}

/// No list starts with more directives than it has statements.
proof fn lemma_directives(stmts: Seq<NodeView>)
    ensures
        directives(stmts) <= stmts.len(),
    decreases stmts.len(),
{
    if stmts.len() > 0 && is_directive(stmts[0]) {
        lemma_directives(stmts.drop_first());
    }
}

/// `__esModule` is marked where the module exports something and the settings do not
/// leave it out, and nowhere else.
pub proof fn law_es_module(config: util::Config, exports: IdentView, r: ReadingView)
    ensures
        preamble(config, exports, r).contains(es_module_view(exports)) <==> r.has_export
            && !config.strict,
        preamble(config, exports, r).contains(use_strict_view()) <==> config.strict_mode
            && !r.strict,
        preamble(config, exports, r).no_duplicates(),
{
    let p = preamble(config, exports, r);
    assert(use_strict_view().kids[0].form == Form::Str);
    assert(es_module_view(exports).kids[0].form == Form::Call);
    if config.strict_mode && !r.strict {
        assert(p[0] == use_strict_view());
    }
    if r.has_export && !config.strict {
        assert(p[p.len() - 1] == es_module_view(exports));
    }
}

/// Whether no statement of a list is a directive.
pub open spec fn no_directive(stmts: Seq<NodeView>) -> bool {
    forall|i: int| 0 <= i < stmts.len() ==> !is_directive(#[trigger] stmts[i])
}

/// No directive is added to a list by adding a list without one.
proof fn lemma_no_directive(a: Seq<NodeView>, b: Seq<NodeView>)
    requires
        no_directive(a),
        no_directive(b),
    ensures
        no_directive(a + b),
{
}

/// Names of an export leave no directive in the header.
proof fn lemma_specifiers_no_directive(
    frame: Frame,
    st: State,
    origin: Option<Origin>,
    list: Seq<ExportSpecifierView>,
)
    ensures
        no_directive(read_specifiers(frame, st, origin, list).out.header),
    decreases list.len(),
{
    if list.len() > 0 {
        let step = read_specifiers(frame, st, origin, list.drop_last());
        lemma_specifiers_no_directive(frame, st, origin, list.drop_last());
        match list.last() {
            ExportSpecifierView::Named { orig, exported } => {
                let name = match exported {
                    Some(name) => name,
                    None => orig,
                };
                let next = read_named(frame, step.state, origin, orig, name);
                lemma_no_directive(step.out.header, next.out.header);
            },
            _ => {},
        }
    }
}

/// Items leave no directive in the header.
proof fn lemma_items_no_directive(frame: Frame, st: State, items: Seq<ModuleItemView>)
    ensures
        no_directive(read_items(frame, st, items).out.header),
    decreases items.len(),
{
    if items.len() > 0 {
        let step = read_items(frame, st, items.drop_last());
        lemma_items_no_directive(frame, st, items.drop_last());
        let next = read_item(frame, step.state, items.last());
        if let ModuleItemView::ModuleDecl(ModuleDeclView::ExportNamed(d)) = items.last() {
            match d.src {
                Some(src) => {
                    let src = src.value;
                    let reads = d.specifiers.len() > 0;
                    let state = with_export_from(frame.pool, step.state, src, reads);
                    let origin = if reads {
                        Some(
                            Origin { src, local: local_of(state.scope.imports, src)->Some_0 },
                        )
                    } else {
                        None
                    };
                    lemma_specifiers_no_directive(frame, state, origin, d.specifiers);
                },
                None => lemma_specifiers_no_directive(frame, step.state, None, d.specifiers),
            }
        }
        assert(no_directive(next.out.header));
        lemma_no_directive(step.out.header, next.out.header);
    }
}

/// Modules exported as a whole leave no directive in the header.
proof fn lemma_alls_no_directive(
    frame: Frame,
    st: State,
    names: Option<IdentView>,
    list: Seq<Seq<char>>,
)
    ensures
        no_directive(read_alls(frame, st, names, list).out.header),
    decreases list.len(),
{
    if list.len() > 0 {
        lemma_alls_no_directive(frame, st, names, list.drop_last());
    }
}

/// The modules go through their interop helpers before anything else is done: those
/// statements stand at the start of the factory, behind `'use strict'`.
pub proof fn law_interop_comes_first(
    config: util::Config,
    frame: Frame,
    helpers: u32,
    st: State,
    items: Seq<ModuleItemView>,
    order: Seq<Seq<char>>,
)
    requires
        !config.no_interop,
    ensures
        ({
            let step = read_items(frame, st, items);
            let end = end_state(frame, st, items);
            let names = locals(frame.pool, end.used, end.scope.imports);
            let strict = if config.strict_mode && !starts_strict(items) {
                1int
            } else {
                0
            };
            let h = header(config, frame, step.state, reading(step.out, items), order);
            module_parts(config, frame, helpers, st, items, order).stmts == h.take(strict)
                + interops(helpers, end.scope.import_types, end.scope.imports, names) + h.skip(
                strict,
            ) + step.out.body
        }),
{
    let step = read_items(frame, st, items);
    let r = reading(step.out, items);
    let h = header(config, frame, step.state, r, order);
    let listed = State { scope: step.state.scope, used: step.state.used + 1 };
    let list = list_name(frame.pool, step.state);
    lemma_items_no_directive(frame, st, items);
    lemma_alls_no_directive(frame, listed, Some(list), r.alls);
    lemma_alls_no_directive(frame, step.state, None, r.alls);
    let close = close_exports(frame, step.state, r).out.header;
    assert(no_directive(close));
    let init = initialization(frame.exports, order);
    assert(no_directive(init));
    let mark = if r.has_export && !config.strict {
        seq![es_module_view(frame.exports)]
    } else {
        Seq::empty()
    };
    assert(no_directive(mark));
    let rest = mark + step.out.header + close + init;
    lemma_no_directive(mark, step.out.header);
    lemma_no_directive(mark + step.out.header, close);
    lemma_no_directive(mark + step.out.header + close, init);
    if config.strict_mode && !r.strict {
        assert(h =~= seq![use_strict_view()] + rest);
        assert(h.drop_first() =~= rest);
        assert(is_directive(h[0]));
        assert(directives(rest) == 0);
        assert(directives(h) == 1);
    } else {
        assert(h =~= rest);
        assert(directives(h) == 0);
    }
}

/// Every imported module that has an interop type, and no other, goes through the helper
/// of that type.
pub proof fn law_interop_by_type(
    ctxt: u32,
    types: Map<Seq<char>, bool>,
    imports: Seq<ImportView>,
    names: Seq<IdentView>,
    stmt: NodeView,
)
    ensures
        interops(ctxt, types, imports, names).contains(stmt) <==> exists|i: int|
            #![trigger imports[i]]
            0 <= i < imports.len() && types.contains_key(imports[i].src) && stmt == interop_view(
                helper_name(ctxt, types[imports[i].src]),
                names[i],
            ),
    decreases imports.len(),
{
    let all = interops(ctxt, types, imports, names);
    if imports.len() > 0 {
        let before = imports.drop_last();
        let fewer = interops(ctxt, types, before, names);
        law_interop_by_type(ctxt, types, before, names, stmt);
        let n = imports.len() - 1;
        let src = imports[n].src;
        let own = interop_view(helper_name(ctxt, types[src]), names[n]);
        if fewer.contains(stmt) {
            let k = fewer.index_of(stmt);
            assert(all[k] == stmt);
            let i = choose|i: int|
                #![trigger before[i]]
                0 <= i < before.len() && types.contains_key(before[i].src) && stmt
                    == interop_view(helper_name(ctxt, types[before[i].src]), names[i]);
            assert(imports[i] == before[i]);
        }
        if types.contains_key(src) && stmt == own {
            assert(all.last() == stmt);
        }
        if all.contains(stmt) && !fewer.contains(stmt) {
            let k = all.index_of(stmt);
            if k < fewer.len() {
                assert(fewer[k] == stmt);
            }
            assert(types.contains_key(imports[n].src) && stmt == own);
        }
        if exists|i: int|
            #![trigger imports[i]]
            0 <= i < imports.len() && types.contains_key(imports[i].src) && stmt == interop_view(
                helper_name(ctxt, types[imports[i].src]),
                names[i],
            ) {
            let i = choose|i: int|
                #![trigger imports[i]]
                0 <= i < imports.len() && types.contains_key(imports[i].src) && stmt
                    == interop_view(helper_name(ctxt, types[imports[i].src]), names[i]);
            if i < n {
                assert(before[i] == imports[i]);
            }
        }
    }
}

/// Specifiers that ask for a default export or for a namespace give their module an
/// interop type.
proof fn lemma_specifier_types(
    scope: ScopeView,
    src: Seq<char>,
    list: Seq<ImportSpecifierView>,
    k: int,
)
    requires
        0 <= k < list.len(),
    ensures
        imported_prop(list[k]) == "default"@ || list[k] is Namespace ==> with_specifiers(
            scope,
            src,
            list,
        ).import_types.contains_key(src),
        list[k] is Namespace ==> with_specifiers(scope, src, list).import_types[src],
    decreases list.len(),
{
    if k < list.len() - 1 {
        lemma_specifier_types(scope, src, list.drop_last(), k);
    }
}

/// A module whose default export or whose namespace is imported goes through an interop
/// helper, whatever else is read of it: that for namespaces, where the namespace is.
pub proof fn law_imports_have_types(
    frame: Frame,
    st: State,
    d: ImportDeclView,
    rest: Seq<ModuleItemView>,
    k: int,
)
    requires
        st.scope.wf(),
        0 <= k < d.specifiers.len(),
        imported_prop(d.specifiers[k]) == "default"@ || d.specifiers[k] is Namespace,
    ensures
        ({
            let item = ModuleItemView::ModuleDecl(ModuleDeclView::Import(d));
            let types = end_state(frame, st, seq![item] + rest).scope.import_types;
            &&& types.contains_key(d.src.value)
            &&& d.specifiers[k] is Namespace ==> types[d.src.value]
        }),
{
    let item = ModuleItemView::ModuleDecl(ModuleDeclView::Import(d));
    let src = d.src.value;
    let items = seq![item] + rest;
    let named = if d.specifiers.len() == 1 && d.specifiers[0] is Namespace {
        with_imports(st.scope, bound(st.scope.imports, src, imported_name(d.specifiers[0])))
    } else {
        with_local(frame.pool, st, src).scope
    };
    lemma_specifier_types(named, src, d.specifiers, k);
    let before = read_items(frame, st, seq![item]);
    reveal_with_fuel(read_items, 2);
    assert(seq![item].drop_last() =~= Seq::empty());
    assert(before.state == read_item(frame, st, item).state);
    lemma_keeps_item(frame, st, item);
    law_nothing_forgotten(frame, before.state, rest);
    law_read_in_turn(frame, st, seq![item], rest);
    let step = read_items(frame, st, items);
    lemma_keeps_close(frame, step.state, reading(step.out, items));
    lemma_knows_transitive(
        before.state.scope,
        step.state.scope,
        end_state(frame, st, items).scope,
    );
    assert(before.state.scope.import_types.contains_key(src));
}

/// Without interop the modules are taken as they are: no statement is put before the
/// others.
pub proof fn law_no_interop(
    config: util::Config,
    frame: Frame,
    helpers: u32,
    st: State,
    r: ReadingView,
    order: Seq<Seq<char>>,
)
    requires
        config.no_interop,
    ensures
        parts(config, frame, helpers, st, r, order).stmts == header(config, frame, st, r, order)
            + r.out.body,
{
    let h = header(config, frame, st, r, order);
    lemma_directives(h);
    assert(prepended(h, Seq::empty()) =~= h);
}

/// Every exported name that has to be initialized is assigned once, in whatever order,
/// and no other; and there is such a statement exactly where there is such a name.
pub proof fn law_initialized_once(
    exports: IdentView,
    names: Seq<Seq<char>>,
    order: Seq<Seq<char>>,
    name: Seq<char>,
)
    requires
        lists(order, names.to_set()),
    ensures
        initialization(exports, order).len() == if names.len() == 0 {
            0int
        } else {
            1
        },
        names.contains(name) <==> exists|i: int|
            0 <= i < order.len() && #[trigger] order[i] == name,
        forall|i: int, j: int| 0 <= i < j < order.len() ==> order[i] != order[j],
{
    assert(names.contains(name) <==> names.to_set().contains(name));
    assert(order.contains(name) <==> order.to_set().contains(name));
    if names.len() > 0 {
        assert(names.to_set().contains(names[0]));
        assert(order.to_set().contains(names[0]));
        assert(order.contains(names[0]));
    }
    if order.len() > 0 {
        assert(order.to_set().contains(order[0]));
        assert(names.to_set().contains(order[0]));
        assert(names.contains(order[0]));
    }
}

/// The list of exported names holds every exported name but `default`.
pub proof fn law_listed_names(names: Seq<Seq<char>>, name: Seq<char>)
    requires
        name != "default"@,
    ensures
        names.contains(name) <==> name_props(names).contains(
            key_value_view(plain_name(name), bare_view(Form::True)),
        ),
    decreases names.len(),
{
    if names.len() > 0 {
        let before = names.drop_last();
        law_listed_names(before, name);
        let prop = key_value_view(plain_name(name), bare_view(Form::True));
        assert(names =~= before.push(names.last()));
        let other = key_value_view(plain_name(names.last()), bare_view(Form::True));
        assert(other.kids[0].text == names.last());
        assert(prop.kids[0].text == name);
        let props = name_props(before);
        if props.contains(prop) {
            let i = props.index_of(prop);
            assert(name_props(names)[i] == prop);
        }
        if names.last() == name {
            assert(name_props(names).last() == prop);
        }
        if before.contains(name) {
            let i = before.index_of(name);
            assert(names[i] == name);
        }
        if names.contains(name) && names.last() != name {
            let i = names.index_of(name);
            assert(before[i] == name);
        }
        if name_props(names).contains(prop) {
            let i = name_props(names).index_of(prop);
            if i < props.len() {
                assert(props[i] == prop);
            } else {
                assert(other == prop);
            }
        }
    }
}

/// A module of statements alone depends on nothing and keeps its statements in order,
/// folded one by one.
pub proof fn law_script(
    config: util::Config,
    frame: Frame,
    helpers: u32,
    st: State,
    stmts: Seq<NodeView>,
)
    requires
        st.scope.imports.len() == 0,
        st.scope.idents.is_empty(),
        st.scope.exported_vars.is_empty(),
    ensures
        ({
            let items = Seq::new(stmts.len(), |i: int| ModuleItemView::Stmt(stmts[i]));
            let p = module_parts(config, frame, helpers, st, items, Seq::empty());
            let strict = if config.strict_mode && !starts_strict(items) {
                seq![use_strict_view()]
            } else {
                Seq::empty()
            };
            &&& p.deps.len() == 0
            &&& p.params.len() == 0
            &&& p.stmts == strict + fold_all(frame.env(st), true, stmts)
        }),
{
    let items = Seq::new(stmts.len(), |i: int| ModuleItemView::Stmt(stmts[i]));
    lemma_script(frame, st, stmts);
    let step = read_items(frame, st, items);
    let r = reading(step.out, items);
    let h = header(config, frame, step.state, r, Seq::empty());
    let strict = if config.strict_mode && !starts_strict(items) {
        seq![use_strict_view()]
    } else {
        Seq::empty()
    };
    assert(h =~= strict);
    lemma_directives(h);
    assert(step.state.scope.imports =~= Seq::empty());
    let interop = interops(
        helpers,
        step.state.scope.import_types,
        step.state.scope.imports,
        locals(frame.pool, step.state.used, step.state.scope.imports),
    );
    assert(interop =~= Seq::empty());
    assert(prepended(h, Seq::empty()) =~= h);
    assert(module_parts(config, frame, helpers, st, items, Seq::empty()).stmts =~= strict
        + fold_all(frame.env(st), true, stmts));
}

/// What is read of statements alone.
proof fn lemma_script(frame: Frame, st: State, stmts: Seq<NodeView>)
    ensures
        ({
            let items = Seq::new(stmts.len(), |i: int| ModuleItemView::Stmt(stmts[i]));
            let step = read_items(frame, st, items);
            &&& step.out == OutputView::body(fold_all(frame.env(st), true, stmts))
            &&& step.state.used == st.used
            &&& step.state.scope == (ScopeView {
                declared_vars: step.state.scope.declared_vars,
                ..st.scope
            })
            &&& export_alls(items).len() == 0
            &&& !has_export(items)
        }),
    decreases stmts.len(),
{
    let items = Seq::new(stmts.len(), |i: int| ModuleItemView::Stmt(stmts[i]));
    if stmts.len() > 0 {
        let before = Seq::new(
            stmts.drop_last().len(),
            |i: int| ModuleItemView::Stmt(stmts.drop_last()[i]),
        );
        assert(items.drop_last() =~= before);
        lemma_script(frame, st, stmts.drop_last());
        let env = frame.env(st);
        let step = read_items(frame, st, items);
        assert(frame.env(read_items(frame, st, before).state) == env);
        assert(fold_all(env, true, stmts) =~= fold_all(env, true, stmts.drop_last()).push(
            fold_tree(env, true, stmts.last()),
        ));
        assert(step.out =~= OutputView::body(fold_all(env, true, stmts)));
    } else {
        assert(fold_all(frame.env(st), true, stmts) =~= Seq::empty());
    }
}

// ---------------------------------------------------------------------------
// Exports
// ---------------------------------------------------------------------------

/// A variable that is exported after some of the items is exported after all of them, and
/// after the module.
proof fn lemma_exported_from(
    frame: Frame,
    st: State,
    items: Seq<ModuleItemView>,
    i: int,
    var: IdView,
    name: IdView,
)
    requires
        st.scope.wf(),
        0 <= i <= items.len(),
        exports_as(read_items(frame, st, items.take(i)).state.scope, var, name),
    ensures
        forall|j: int|
            i <= j <= items.len() ==> exports_as(
                read_items(frame, st, #[trigger] items.take(j)).state.scope,
                var,
                name,
            ),
        exports_as(end_state(frame, st, items).scope, var, name),
{
    let here = read_items(frame, st, items.take(i)).state;
    law_nothing_forgotten(frame, st, items.take(i));
    assert forall|j: int| i <= j <= items.len() implies exports_as(
        read_items(frame, st, #[trigger] items.take(j)).state.scope,
        var,
        name,
    ) by {
        let rest = items.subrange(i, j);
        assert(items.take(j) =~= items.take(i) + rest);
        law_read_in_turn(frame, st, items.take(i), rest);
        law_nothing_forgotten(frame, here, rest);
        lemma_exports_kept(
            here.scope,
            read_items(frame, st, items.take(j)).state.scope,
            var,
            name,
        );
    }
    assert(items.take(items.len() as int) =~= items);
    law_nothing_forgotten(frame, st, items);
    let step = read_items(frame, st, items);
    let r = reading(step.out, items);
    lemma_keeps_close(frame, step.state, r);
    lemma_exports_kept(step.state.scope, end_state(frame, st, items).scope, var, name);
}

/// A variable that is exported where it is declared is exported under its own name for
/// the rest of the module: every later write to it is a write to that export.
pub proof fn law_exports_live_on(
    frame: Frame,
    st: State,
    items: Seq<ModuleItemView>,
    i: int,
    var: VarDeclView,
    name: IdentView,
)
    requires
        st.scope.wf(),
        0 <= i < items.len(),
        items[i] == ModuleItemView::ModuleDecl(ModuleDeclView::ExportDecl(DeclView::Var(var))),
        idents_in_all(var.decls).contains(name),
    ensures
        forall|j: int|
            i < j <= items.len() ==> exports_as(
                read_items(frame, st, #[trigger] items.take(j)).state.scope,
                id_of(name),
                id_of(name),
            ),
        exports_as(end_state(frame, st, items).scope, id_of(name), id_of(name)),
{
    let idents = idents_in_all(var.decls);
    let before = read_items(frame, st, items.take(i)).state;
    assert(items.take(i + 1).drop_last() =~= items.take(i));
    assert(items.take(i + 1).last() == items[i]);
    let declared = with_declared(
        with_declared(before, declared_in(var_decl_view(var))),
        ids_of(idents),
    );
    lemma_keeps_exports(declared.scope, idents);
    assert(idents[idents.index_of(name)] == name);
    lemma_exported_from(frame, st, items, i + 1, id_of(name), id_of(name));
}

/// The names of an export are noted for the variables that are declared.
proof fn lemma_specifiers_export(
    frame: Frame,
    st: State,
    origin: Option<Origin>,
    list: Seq<ExportSpecifierView>,
    k: int,
)
    requires
        st.scope.wf(),
        0 <= k < list.len(),
        list[k] is Named,
        st.scope.declared_vars.contains(id_of(list[k]->Named_orig)),
    ensures
        exports_as(
            read_specifiers(frame, st, origin, list).state.scope,
            id_of(list[k]->Named_orig),
            id_of(exported_name(list[k])),
        ),
    decreases list.len(),
{
    let before = read_specifiers(frame, st, origin, list.drop_last()).state;
    let after = read_specifiers(frame, st, origin, list).state;
    lemma_keeps_export_specifiers(frame, st, origin, list.drop_last());
    lemma_export_specifiers_imports(frame, st, origin, list.drop_last());
    let var = id_of(list[k]->Named_orig);
    let name = id_of(exported_name(list[k]));
    if k == list.len() - 1 {
        lemma_keeps_exported(before.scope, var, name);
        assert(after.scope.exported_vars == exported(before.scope.exported_vars, var, name));
    } else {
        lemma_specifiers_export(frame, st, origin, list.drop_last(), k);
        match list.last() {
            ExportSpecifierView::Named { orig, exported } => {
                lemma_keeps_named(before, origin, orig, exported_name(list.last()));
            },
            _ => {
                lemma_knows_itself(before.scope);
            },
        }
        lemma_exports_kept(before.scope, after.scope, var, name);
    }
}

/// The name under which a specifier exports.
pub open spec fn exported_name(s: ExportSpecifierView) -> IdentView {
    match s {
        ExportSpecifierView::Named { orig, exported } => match exported {
            Some(name) => name,
            None => orig,
        },
        ExportSpecifierView::Namespace { name } => name,
        ExportSpecifierView::Default { exported } => exported,
    }
}

/// A declared variable that is exported by name, by any specifier of any export, is
/// exported under that name for the rest of the module, too.
pub proof fn law_named_exports_live_on(
    frame: Frame,
    st: State,
    items: Seq<ModuleItemView>,
    i: int,
    d: NamedExportView,
    k: int,
)
    requires
        st.scope.wf(),
        0 <= i < items.len(),
        items[i] == ModuleItemView::ModuleDecl(ModuleDeclView::ExportNamed(d)),
        0 <= k < d.specifiers.len(),
        d.specifiers[k] is Named,
        read_items(frame, st, items.take(i)).state.scope.declared_vars.contains(
            id_of(d.specifiers[k]->Named_orig),
        ),
    ensures
        forall|j: int|
            i < j <= items.len() ==> exports_as(
                read_items(frame, st, #[trigger] items.take(j)).state.scope,
                id_of(d.specifiers[k]->Named_orig),
                id_of(exported_name(d.specifiers[k])),
            ),
        exports_as(
            end_state(frame, st, items).scope,
            id_of(d.specifiers[k]->Named_orig),
            id_of(exported_name(d.specifiers[k])),
        ),
{
    let before = read_items(frame, st, items.take(i)).state;
    law_nothing_forgotten(frame, st, items.take(i));
    assert(items.take(i + 1).drop_last() =~= items.take(i));
    assert(items.take(i + 1).last() == items[i]);
    match d.src {
        Some(src) => {
            let src = src.value;
            let state = with_export_from(frame.pool, before, src, true);
            lemma_keeps_local(frame.pool, before, src);
            let origin = Some(
                Origin { src, local: local_of(state.scope.imports, src)->Some_0 },
            );
            lemma_specifiers_export(frame, state, origin, d.specifiers, k);
        },
        None => lemma_specifiers_export(frame, before, None, d.specifiers, k),
    }
    lemma_exported_from(
        frame,
        st,
        items,
        i + 1,
        id_of(d.specifiers[k]->Named_orig),
        id_of(exported_name(d.specifiers[k])),
    );
}

/// What is exported from another module is exported by getters, one for each name: it
/// is never copied, and never initialized.
pub proof fn law_reexports_are_getters(
    frame: Frame,
    st: State,
    origin: Origin,
    list: Seq<ExportSpecifierView>,
)
    requires
        forall|i: int| 0 <= i < list.len() ==> (#[trigger] list[i]) is Named,
    ensures
        ({
            let out = read_specifiers(frame, st, Some(origin), list).out;
            &&& out.body.len() == 0
            &&& out.names.len() == 0
            &&& out.header.len() == list.len()
            &&& forall|i: int|
                0 <= i < list.len() ==> #[trigger] out.header[i] == getter_view(
                    frame.exports,
                    exported_name(list[i]),
                    member_view(ident_view(origin.local), list[i]->Named_orig),
                )
        }),
    decreases list.len(),
{
    if list.len() > 0 {
        let before = list.drop_last();
        assert forall|i: int| 0 <= i < before.len() implies (#[trigger] before[i]) is Named by {
            assert(list[i] is Named);
        }
        law_reexports_are_getters(frame, st, origin, before);
        assert(list[list.len() - 1] is Named);
        let a = read_specifiers(frame, st, Some(origin), before).out;
        let b = read_specifiers(frame, st, Some(origin), list).out;
        assert forall|i: int| 0 <= i < list.len() implies #[trigger] b.header[i] == getter_view(
            frame.exports,
            exported_name(list[i]),
            member_view(ident_view(origin.local), list[i]->Named_orig),
        ) by {
            if i < before.len() {
                assert(before[i] == list[i]);
                assert(b.header[i] == a.header[i]);
            }
        }
    }
}

} // verus!
