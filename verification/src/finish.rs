//! The pass on a module as a whole.

use fxhash::FxHashSet;
use vstd::prelude::*;

use crate::amd::{Amd, Helpers};
use crate::ast::{BinaryOp, Expr, Form, Ident, ModuleDecl, ModuleItem, Node, Pat, Span, Stmt};
use crate::budget::{
    all_ask_at_once, all_ask_for, contexts_needed, lemma_asks_at_once, lemma_enough_left,
    lemma_item_asks, lemma_local_unnamed, lemma_unnamed_step, unnamed,
};
use crate::define::{
    Parts, ReadingView, bindings_view, calls_helper, close_exports, define_view, export_all_view,
    forward_key, header, helper_name, interop_view, interops, key_is, key_name, locals,
    name_props, parts, plain_ids, preamble, read_alls, reading, skip_listed, skip_own_keys, srcs,
    strs_view,
};
use crate::emit::{
    append, assign, bare, binary, binding, binding_view, branch, branch_view, call,
    computed_member, define_es_module, define_property, dummy_sp, function_expr, function_view,
    has_use_strict, ident_expr, into_stmt, key_value, make_descriptor, member, no_span, none,
    object, one, prepend_stmts, private_ident, push, quote_ident, quote_str, return_if, str_expr,
    str_view, three, two, undefined, undefined_view, use_strict, var_stmt,
};
use crate::fold::chain_assign;
use crate::folding::chained;
use crate::hygiene::Contexts;
use crate::imports::{State, state_of, with_local};
use crate::items::{OutputView, all_plain, export_alls, has_export, is_export, read_items};
use crate::model::{
    ModuleItemView, ident_opt_view, items_view, nodes_view, string_opt_view, strings_view,
};
use crate::names::{local_name_for_src, names_in};
use crate::read::Output;
use crate::scope::{Id, IdView, ImportView, Scope, ScopeView, ids_view, local_of};
use crate::table::Table;

verus! {

/// What was read of a module.
#[derive(Debug)]
pub struct Reading {
    /// Statements that run before the body.
    pub header: Vec<Stmt>,
    /// The body.
    pub body: Vec<Stmt>,
    /// The exported names that are initialized before the body runs, as they come.
    pub names: Vec<String>,
    /// Whether there is an export.
    pub has_export: bool,
    /// The modules that are exported as a whole.
    pub alls: Vec<String>,
    /// Whether the module starts with `'use strict'`.
    pub strict: bool,
}

impl Reading {
    /// The value that this reading stands for.
    pub open spec fn view(self) -> ReadingView {
        ReadingView {
            out: OutputView {
                header: nodes_view(self.header@),
                body: nodes_view(self.body@),
                names: strings_view(self.names@),
            },
            has_export: self.has_export,
            alls: strings_view(self.alls@),
            strict: self.strict,
        }
    }
}

/// Whether an item exports something.
fn exports_something(item: &ModuleItem) -> (yes: bool)
    ensures
        yes == is_export(item@),
{
    match item {
        ModuleItem::Stmt(_) => false,
        ModuleItem::ModuleDecl(d) => match d {
            ModuleDecl::Import(_) => false,
            ModuleDecl::TsImportEquals(_) => false,
            ModuleDecl::TsExportAssignment(_) => false,
            ModuleDecl::TsNamespaceExport(_) => false,
            _ => true,
        },
    }
}

impl Amd {
    /// Reads the items of a module. The names that are initialized come out as a set,
    /// too.
    pub fn read_items(&mut self, items: Vec<ModuleItem>, contexts: &mut Contexts) -> (read: (
        Reading,
        FxHashSet<String>,
    ))
        requires
            old(self).scope.wf(),
            old(self).in_top_level,
            old(contexts).wf(),
            old(contexts).left() >= contexts_needed(old(self).scope@.imports, items_view(items@)),
            all_plain(items_view(items@)),
        ensures
            old(self).settled(*final(self)),
            final(contexts).wf(),
            final(contexts).start == old(contexts).start,
            names_in(read.1) == read.0@.out.names.to_set(),
            ({
                let step = read_items(
                    old(self).frame(*old(contexts)),
                    state_of(old(self).scope, *old(contexts)),
                    items_view(items@),
                );
                &&& state_of(final(self).scope, *final(contexts)) == step.state
                &&& read.0@ == reading(step.out, items_view(items@))
            }),
            final(contexts).left() >= unnamed(final(self).scope@.imports) + 2 * export_alls(
                items_view(items@),
            ).len() + 1,
    {
        let ghost all = items_view(items@);
        let ghost frame = self.frame(*contexts);
        let ghost st = state_of(self.scope, *contexts);
        let strict: bool = has_use_strict(&items);
        let mut out: Output = Output::new();
        let mut exporting: bool = false;
        let mut alls: Vec<String> = Vec::new();
        assert(strings_view(alls@) =~= Seq::empty());
        proof {
            lemma_asks_at_once(all);
        }
        for item in it: items
            invariant
                it.seq() == items@,
                all == items_view(items@),
                all_plain(all),
                frame == old(self).frame(*old(contexts)),
                frame == self.frame(*contexts),
                st == state_of(old(self).scope, *old(contexts)),
                old(self).settled(*self),
                self.scope.wf(),
                old(self).in_top_level,
                contexts.wf(),
                contexts.start == old(contexts).start,
                old(contexts).wf(),
                old(contexts).left() >= unnamed(st.scope.imports) + all_ask_for(all) + 1,
                all_ask_at_once(all) + 2 * export_alls(all).len() == all_ask_for(all),
                out.wf(),
                state_of(self.scope, *contexts) == read_items(
                    frame,
                    st,
                    all.take(it.index()),
                ).state,
                out@ == read_items(frame, st, all.take(it.index())).out,
                exporting == has_export(all.take(it.index())),
                strings_view(alls@) == export_alls(all.take(it.index())),
                contexts.used + unnamed(self.scope@.imports) <= st.used + unnamed(
                    st.scope.imports,
                ) + all_ask_at_once(all.take(it.index())),
        {
            let ghost i = it.index();
            let ghost before = state_of(self.scope, *contexts);
            assert(all.take(i + 1).drop_last() =~= all.take(i));
            assert(all.take(i + 1).last() == item@);
            assert(all[i] == item@);
            proof {
                lemma_enough_left(all, i);
                lemma_item_asks(frame, before, item@);
                lemma_has_export(all, i);
            }
            if exports_something(&item) {
                exporting = true;
            }
            if let ModuleItem::ModuleDecl(ModuleDecl::ExportAll(export)) = &item {
                let ghost seen = strings_view(alls@);
                alls.push(export.src.value.clone());
                assert(strings_view(alls@) =~= seen.push(export.src.value@));
            }
            self.read_item(item, contexts, &mut out);
        }
        assert(all.take(all.len() as int) =~= all);
        let Output { header, body, names, initialized } = out;
        (Reading { header, body, names, has_export: exporting, alls, strict }, initialized)
    }
}

/// Whether the items up to one export something depends on those before it and on
/// itself.
proof fn lemma_has_export(items: Seq<ModuleItemView>, i: int)
    requires
        0 <= i < items.len(),
    ensures
        has_export(items.take(i + 1)) == (has_export(items.take(i)) || is_export(items[i])),
{
    let before = items.take(i);
    let after = items.take(i + 1);
    if has_export(before) {
        let j = choose|j: int| 0 <= j < before.len() && is_export(#[trigger] before[j]);
        assert(is_export(after[j]));
    }
    if is_export(items[i]) {
        assert(is_export(after[i]));
    }
    if has_export(after) {
        let j = choose|j: int| 0 <= j < after.len() && is_export(#[trigger] after[j]);
        if j < i {
            assert(is_export(before[j]));
        }
    }
}


// ---------------------------------------------------------------------------
// Statements of the header
// ---------------------------------------------------------------------------

/// `name: true` for each of `names` but `default`.
fn list_names(names: &Vec<String>) -> (props: Vec<Node>)
    ensures
        nodes_view(props@) == name_props(strings_view(names@)),
{
    let ghost all = strings_view(names@);
    let mut props: Vec<Node> = none();
    let mut i: usize = 0;
    while i < names.len()
        invariant
            i <= names@.len(),
            all == strings_view(names@),
            nodes_view(props@) == name_props(all.take(i as int)),
        decreases names@.len() - i,
    {
        assert(all.take(i + 1).drop_last() =~= all.take(i as int));
        assert(all.take(i + 1).last() == names@[i as int]@);
        if names[i] != "default".to_owned() {
            let key: Ident = quote_ident(names[i].as_str());
            push(&mut props, key_value(key, bare(Form::True)));
        }
        i += 1;
    }
    assert(all.take(i as int) =~= all);
    props
}

/// `key === value`
fn compare_key(key: &Ident, value: &str) -> (e: Expr)
    ensures
        e@ == key_is(key@, value@),
{
    binary(BinaryOp::EqEqEq, ident_expr(key.clone()), quote_str(value))
}

/// `if (Object.prototype.hasOwnProperty.call(names, key)) return;`
fn return_if_listed(names: &Ident, key: &Ident) -> (stmt: Stmt)
    ensures
        stmt@ == skip_listed(names@, key@),
{
    let has_own: Expr = member(
        member(ident_expr(quote_ident("Object")), quote_ident("prototype")),
        quote_ident("hasOwnProperty"),
    );
    return_if(
        call(
            member(has_own, quote_ident("call")),
            two(ident_expr(names.clone()), ident_expr(key.clone())),
        ),
    )
}

/// `Object.keys(local).forEach(function (key) { .. });`
pub fn export_all(exports: &Ident, names: &Option<Ident>, local: Ident, key: Ident) -> (stmt: Stmt)
    ensures
        stmt@ == export_all_view(exports@, ident_opt_view(*names), local@, key@),
{
    let keys: Expr = call(
        member(ident_expr(quote_ident("Object")), quote_ident("keys")),
        one(ident_expr(local.clone())),
    );
    let mut stmts: Vec<Stmt> = one(
        return_if(
            binary(
                BinaryOp::LogicalOr,
                compare_key(&key, "default"),
                compare_key(&key, "__esModule"),
            ),
        ),
    );
    if let Some(names) = names {
        push(&mut stmts, return_if_listed(names, &key));
    }
    let value: Expr = computed_member(ident_expr(local), ident_expr(key.clone()));
    let args: Vec<Expr> = three(
        ident_expr(exports.clone()),
        ident_expr(key.clone()),
        make_descriptor(value),
    );
    push(&mut stmts, into_stmt(define_property(args)));
    assert(nodes_view(stmts@) =~= (match names {
        Some(names) => seq![skip_own_keys(key@), skip_listed(names@, key@)],
        None => seq![skip_own_keys(key@)],
    }).push(forward_key(exports@, local@, key@)));
    into_stmt(
        call(
            member(keys, quote_ident("forEach")),
            one(function_expr(one(binding(key)), stmts)),
        ),
    )
}

/// `exports.b = exports.a = void 0`
pub fn initialize_to_undefined(exports: &Ident, order: Vec<String>) -> (e: Expr)
    ensures
        e@ == chained(
            exports@,
            plain_ids(strings_view(order@)),
            undefined_view(no_span()),
        ),
{
    let ghost all = strings_view(order@);
    let mut ids: Vec<Id> = Vec::new();
    for name in it: order
        invariant
            it.seq() == order@,
            all == strings_view(order@),
            ids_view(ids@) =~= plain_ids(all.take(it.index())),
    {
        let ghost i = it.index();
        let ghost before = ids@;
        ids.push(Id { sym: name, ctxt: 0 });
        assert(ids_view(ids@) =~= ids_view(before).push(IdView { sym: name@, ctxt: 0 }));
        assert(plain_ids(all.take(i + 1)) =~= plain_ids(all.take(i)).push(
            IdView { sym: name@, ctxt: 0 },
        ));
    }
    assert(all.take(all.len() as int) =~= all);
    chain_assign(exports, &ids, undefined(dummy_sp()))
}

impl Scope {
    /// Exports a module as a whole.
    pub fn handle_export_all(
        &mut self,
        exports: &Ident,
        names: &Option<Ident>,
        src: &String,
        contexts: &mut Contexts,
    ) -> (stmt: Stmt)
        requires
            old(self).wf(),
            old(contexts).wf(),
            old(contexts).left() > 1,
        ensures
            final(self).wf(),
            final(contexts).wf(),
            final(contexts).start == old(contexts).start,
            ({
                let pool = old(contexts).ids();
                let named = with_local(pool, state_of(*old(self), *old(contexts)), src@);
                &&& state_of(*final(self), *final(contexts)) == (State {
                    scope: named.scope,
                    used: named.used + 1,
                })
                &&& stmt@ == export_all_view(
                    exports@,
                    ident_opt_view(*names),
                    local_of(named.scope.imports, src@)->Some_0,
                    key_name(pool, named),
                )
            }),
    {
        let local: Ident = self.ensure_local(src, contexts);
        let key: Ident = private_ident("key".to_owned(), contexts);
        export_all(exports, names, local, key)
    }
}

impl Amd {
    /// Exports the modules that are exported as a whole.
    fn handle_export_alls(
        &mut self,
        names: &Option<Ident>,
        srcs: &Vec<String>,
        contexts: &mut Contexts,
    ) -> (stmts: Vec<Stmt>)
        requires
            old(self).scope.wf(),
            old(contexts).wf(),
            old(contexts).left() >= unnamed(old(self).scope@.imports) + 2 * srcs@.len(),
        ensures
            old(self).settled(*final(self)),
            final(contexts).wf(),
            final(contexts).start == old(contexts).start,
            final(contexts).left() >= unnamed(final(self).scope@.imports),
            ({
                let step = read_alls(
                    old(self).frame(*old(contexts)),
                    state_of(old(self).scope, *old(contexts)),
                    ident_opt_view(*names),
                    strings_view(srcs@),
                );
                &&& state_of(final(self).scope, *final(contexts)) == step.state
                &&& step.out == (OutputView {
                    header: nodes_view(stmts@),
                    body: Seq::empty(),
                    names: Seq::empty(),
                })
            }),
    {
        let ghost all = strings_view(srcs@);
        let ghost frame = self.frame(*contexts);
        let ghost st = state_of(self.scope, *contexts);
        let ghost list = ident_opt_view(*names);
        let mut stmts: Vec<Stmt> = none();
        let mut i: usize = 0;
        while i < srcs.len()
            invariant
                i <= srcs@.len(),
                all == strings_view(srcs@),
                list == ident_opt_view(*names),
                frame == old(self).frame(*old(contexts)),
                frame == self.frame(*contexts),
                st == state_of(old(self).scope, *old(contexts)),
                old(self).settled(*self),
                self.scope.wf(),
                contexts.wf(),
                contexts.start == old(contexts).start,
                contexts.left() >= unnamed(self.scope@.imports) + 2 * (srcs@.len() - i),
                state_of(self.scope, *contexts) == read_alls(
                    frame,
                    st,
                    list,
                    all.take(i as int),
                ).state,
                read_alls(frame, st, list, all.take(i as int)).out == (OutputView {
                    header: nodes_view(stmts@),
                    body: Seq::empty(),
                    names: Seq::empty(),
                }),
            decreases srcs@.len() - i,
        {
            assert(all.take(i + 1).drop_last() =~= all.take(i as int));
            assert(all.take(i + 1).last() == srcs@[i as int]@);
            proof {
                let here = state_of(self.scope, *contexts);
                lemma_local_unnamed(frame.pool, here, srcs@[i as int]@);
            }
            let stmt: Stmt = self.scope.handle_export_all(&self.exports, names, &srcs[i], contexts);
            push(&mut stmts, stmt);
            i += 1;
        }
        assert(all.take(i as int) =~= all);
        stmts
    }
}


// ---------------------------------------------------------------------------
// The call of `define`
// ---------------------------------------------------------------------------

/// `local = helper(local);`
fn interop(helper: Ident, local: Ident) -> (stmt: Stmt)
    ensures
        stmt@ == interop_view(helper@, local@),
{
    let value: Expr = call(ident_expr(helper), one(ident_expr(local.clone())));
    into_stmt(assign(binding(local), value))
}

impl Helpers {
    /// The name of a helper, which is noted as called.
    fn require(&mut self, wildcard: bool) -> (name: Ident)
        ensures
            name@ == helper_name(old(self).ctxt, wildcard),
            *final(self) == (if wildcard {
                Helpers { interop_require_wildcard: true, ..*old(self) }
            } else {
                Helpers { interop_require_default: true, ..*old(self) }
            }),
    {
        let span: Span = Span { lo: 0, hi: 0, ctxt: self.ctxt };
        if wildcard {
            self.interop_require_wildcard = true;
            Ident { sym: "_interopRequireWildcard".to_owned(), span }
        } else {
            self.interop_require_default = true;
            Ident { sym: "_interopRequireDefault".to_owned(), span }
        }
    }
}

/// The helpers that are called once the given modules have gone through theirs.
pub open spec fn with_calls(
    helpers: Helpers,
    types: Map<Seq<char>, bool>,
    imports: Seq<ImportView>,
) -> Helpers {
    Helpers {
        ctxt: helpers.ctxt,
        interop_require_wildcard: helpers.interop_require_wildcard || calls_helper(
            types,
            imports,
            true,
        ),
        interop_require_default: helpers.interop_require_default || calls_helper(
            types,
            imports,
            false,
        ),
    }
}

/// One more module calls its own helper.
proof fn lemma_calls_helper(
    types: Map<Seq<char>, bool>,
    imports: Seq<ImportView>,
    i: int,
    wildcard: bool,
)
    requires
        0 <= i < imports.len(),
    ensures
        calls_helper(types, imports.take(i + 1), wildcard) == (calls_helper(
            types,
            imports.take(i),
            wildcard,
        ) || (types.contains_key(imports[i].src) && types[imports[i].src] == wildcard)),
{
    let before = imports.take(i);
    let after = imports.take(i + 1);
    assert(after[i] == imports[i]);
    if calls_helper(types, before, wildcard) {
        let j = choose|j: int|
            0 <= j < before.len() && types.contains_key((#[trigger] before[j]).src)
                && types[before[j].src] == wildcard;
        assert(after[j] == before[j]);
    }
    if calls_helper(types, after, wildcard) {
        let j = choose|j: int|
            0 <= j < after.len() && types.contains_key((#[trigger] after[j]).src)
                && types[after[j].src] == wildcard;
        if j < i {
            assert(before[j] == after[j]);
        }
    }
}

/// The imported modules, as the factory gets them.
#[derive(Debug)]
pub struct Imported {
    /// Their sources.
    pub deps: Vec<Expr>,
    /// The parameters that they are bound to.
    pub params: Vec<Pat>,
    /// The statements that send them through interop helpers.
    pub interop: Vec<Stmt>,
}

impl Amd {
    /// Names the imported modules, and forgets them.
    fn take_imports(&mut self, contexts: &mut Contexts) -> (imported: Imported)
        requires
            old(self).scope.wf(),
            old(contexts).wf(),
            old(contexts).left() >= unnamed(old(self).scope@.imports),
        ensures
            final(contexts).wf(),
            final(contexts).start == old(contexts).start,
            final(contexts).used == old(contexts).used + unnamed(old(self).scope@.imports),
            final(self).config == old(self).config,
            final(self).exports == old(self).exports,
            final(self).in_top_level == old(self).in_top_level,
            final(self).scope.wf(),
            final(self).scope@ == (ScopeView { imports: Seq::empty(), ..old(self).scope@ }),
            ({
                let scope = old(self).scope@;
                let names = locals(
                    old(contexts).ids(),
                    old(contexts).used as int,
                    scope.imports,
                );
                &&& nodes_view(imported.deps@) == strs_view(srcs(scope.imports))
                &&& nodes_view(imported.params@) == bindings_view(names)
                &&& nodes_view(imported.interop@) == if old(self).config.config.no_interop {
                    Seq::empty()
                } else {
                    interops(old(self).helpers.ctxt, scope.import_types, scope.imports, names)
                }
                &&& final(self).helpers == if old(self).config.config.no_interop {
                    old(self).helpers
                } else {
                    with_calls(old(self).helpers, scope.import_types, scope.imports)
                }
            }),
    {
        let ghost scope = self.scope@;
        let ghost imports = scope.imports;
        let ghost types = scope.import_types;
        let ghost helpers = self.helpers;
        let ghost used = contexts.used as int;
        let ghost names = locals(contexts.ids(), used, imports);
        let ghost all = srcs(imports);
        let mut deps: Vec<Expr> = none();
        let mut params: Vec<Pat> = none();
        let mut stmts: Vec<Stmt> = none();
        let mut i: usize = 0;
        assert(strs_view(all.take(0)) =~= Seq::empty());
        assert(bindings_view(names.take(0)) =~= Seq::empty());
        assert(imports.len() == self.scope.imports.entries@.len());
        while i < self.scope.imports.entries.len()
            invariant
                i <= self.scope.imports.entries@.len(),
                self.scope == old(self).scope,
                self.scope.wf(),
                self.config == old(self).config,
                self.exports == old(self).exports,
                self.in_top_level == old(self).in_top_level,
                scope == self.scope@,
                imports == scope.imports,
                types == scope.import_types,
                helpers == old(self).helpers,
                all == srcs(imports),
                names == locals(contexts.ids(), used, imports),
                contexts.wf(),
                contexts.start == old(contexts).start,
                contexts.used == used + unnamed(imports.take(i as int)),
                contexts.ids().len() - used >= unnamed(imports),
                nodes_view(deps@) == strs_view(all.take(i as int)),
                nodes_view(params@) == bindings_view(names.take(i as int)),
                nodes_view(stmts@) == (if self.config.config.no_interop {
                    Seq::empty()
                } else {
                    interops(helpers.ctxt, types, imports.take(i as int), names)
                }),
                self.helpers == (if self.config.config.no_interop {
                    helpers
                } else {
                    with_calls(helpers, types, imports.take(i as int))
                }),
            decreases self.scope.imports.entries@.len() - i,
        {
            let ghost entry = imports[i as int];
            assert(entry.src == self.scope.imports.entries@[i as int].0@);
            assert(imports.take(i + 1).drop_last() =~= imports.take(i as int));
            assert(imports.take(i + 1).last() == entry);
            proof {
                lemma_unnamed_step(imports, i as int);
                lemma_calls_helper(types, imports, i as int, true);
                lemma_calls_helper(types, imports, i as int, false);
            }
            let src: String = self.scope.imports.entries[i].0.clone();
            let local: Ident = match &self.scope.imports.entries[i].1 {
                Some(local) => local.clone(),
                None => private_ident(local_name_for_src(src.as_str()), contexts),
            };
            assert(local@ == names[i as int]);
            if !self.config.config.no_interop {
                if let Some(wildcard) = self.scope.import_types.get(&src) {
                    let helper: Ident = self.helpers.require(*wildcard);
                    push(&mut stmts, interop(helper, local.clone()));
                }
            }
            push(&mut deps, str_expr(dummy_sp(), src));
            push(&mut params, binding(local));
            assert(strs_view(all.take(i + 1)) =~= strs_view(all.take(i as int)).push(
                str_view(no_span(), entry.src),
            ));
            assert(bindings_view(names.take(i + 1)) =~= bindings_view(names.take(i as int)).push(
                binding_view(names[i as int]),
            ));
            i += 1;
        }
        assert(all.take(i as int) =~= all);
        assert(names.take(i as int) =~= names);
        assert(imports.take(i as int) =~= imports);
        self.scope.imports = Table::new();
        assert(self.scope@.imports =~= Seq::empty());
        Imported { deps, params, interop: stmts }
    }

    /// Builds the statements in front of the body.
    fn build_header(
        &mut self,
        read: Reading,
        order: Vec<String>,
        contexts: &mut Contexts,
    ) -> (built: (Vec<Stmt>, Vec<Stmt>))
        requires
            old(self).scope.wf(),
            old(contexts).wf(),
            old(contexts).left() >= unnamed(old(self).scope@.imports) + 2 * read@.alls.len() + 1,
        ensures
            old(self).settled(*final(self)),
            final(contexts).wf(),
            final(contexts).start == old(contexts).start,
            final(contexts).left() >= unnamed(final(self).scope@.imports),
            nodes_view(built.1@) == read@.out.body,
            ({
                let frame = old(self).frame(*old(contexts));
                let st = state_of(old(self).scope, *old(contexts));
                &&& nodes_view(built.0@) == header(
                    old(self).config.config,
                    frame,
                    st,
                    read@,
                    strings_view(order@),
                )
                &&& state_of(final(self).scope, *final(contexts)) == close_exports(
                    frame,
                    st,
                    read@,
                ).state
            }),
    {
        let ghost config = self.config.config;
        let ghost frame = self.frame(*contexts);
        let ghost st = state_of(self.scope, *contexts);
        let ghost r = read@;
        assert(read.alls@.len() == r.alls.len());
        assert(read.names@.len() == r.out.names.len());

        let mut stmts: Vec<Stmt> = none();
        if self.config.config.strict_mode && !read.strict {
            push(&mut stmts, use_strict());
        }
        if read.has_export && !self.config.config.strict {
            push(&mut stmts, define_es_module(self.exports.clone()));
        }
        assert(nodes_view(stmts@) =~= preamble(config, frame.exports, r));
        append(&mut stmts, read.header);

        let list: Option<Ident> = if read.alls.len() > 0 && read.names.len() > 0 {
            let list: Ident = private_ident("_exportNames".to_owned(), contexts);
            push(&mut stmts, var_stmt(list.clone(), object(list_names(&read.names))));
            Some(list)
        } else {
            None
        };
        let alls: Vec<Stmt> = self.handle_export_alls(&list, &read.alls, contexts);
        append(&mut stmts, alls);
        assert(nodes_view(stmts@) =~= preamble(config, frame.exports, r) + r.out.header
            + close_exports(frame, st, r).out.header);

        assert(strings_view(order@).len() == order@.len());
        if order.len() > 0 {
            push(&mut stmts, into_stmt(initialize_to_undefined(&self.exports, order)));
        }
        assert(nodes_view(stmts@) =~= header(config, frame, st, r, strings_view(order@)));
        (stmts, read.body)
    }

    /// Builds the call of `define` from what was read of a module, with its exported
    /// names initialized in the given order.
    pub fn define(&mut self, read: Reading, order: Vec<String>, contexts: &mut Contexts) -> (stmt:
        Stmt)
        requires
            old(self).scope.wf(),
            old(contexts).wf(),
            old(contexts).left() >= unnamed(old(self).scope@.imports) + 2 * read@.alls.len() + 1,
        ensures
            final(contexts).wf(),
            final(contexts).start == old(contexts).start,
            final(self).config == old(self).config,
            final(self).exports == old(self).exports,
            final(self).in_top_level == old(self).in_top_level,
            final(self).scope.wf(),
            ({
                let frame = old(self).frame(*old(contexts));
                let st = state_of(old(self).scope, *old(contexts));
                let end = close_exports(frame, st, read@).state;
                &&& stmt@ == define_view(
                    string_opt_view(old(self).config.module_id),
                    parts(
                        old(self).config.config,
                        frame,
                        old(self).helpers.ctxt,
                        st,
                        read@,
                        strings_view(order@),
                    ),
                )
                &&& state_of(final(self).scope, *final(contexts)) == (State {
                    scope: ScopeView { imports: Seq::empty(), ..end.scope },
                    used: end.used + unnamed(end.scope.imports),
                })
                &&& final(self).helpers == if old(self).config.config.no_interop {
                    old(self).helpers
                } else {
                    with_calls(old(self).helpers, end.scope.import_types, end.scope.imports)
                }
            }),
    {
        let ghost whole = parts(
            self.config.config,
            self.frame(*contexts),
            self.helpers.ctxt,
            state_of(self.scope, *contexts),
            read@,
            strings_view(order@),
        );
        let mut deps: Vec<Expr> = none();
        let mut params: Vec<Pat> = none();
        if read.has_export {
            push(&mut deps, quote_str("exports"));
            push(&mut params, binding(self.exports.clone()));
        }
        let (header, body): (Vec<Stmt>, Vec<Stmt>) = self.build_header(read, order, contexts);
        let imported: Imported = self.take_imports(contexts);
        append(&mut deps, imported.deps);
        append(&mut params, imported.params);
        let mut stmts: Vec<Stmt> = prepend_stmts(header, imported.interop);
        append(&mut stmts, body);
        assert(nodes_view(deps@) =~= strs_view(whole.deps));
        assert(nodes_view(params@) =~= bindings_view(whole.params));
        assert(nodes_view(stmts@) =~= whole.stmts);
        define_call(&self.config.module_id, deps, params, stmts, Ghost(whole))
    }
}

/// `define("id", ["dep"], function (param) { stmts });`
fn define_call(
    id: &Option<String>,
    deps: Vec<Expr>,
    params: Vec<Pat>,
    stmts: Vec<Stmt>,
    Ghost(whole): Ghost<Parts>,
) -> (stmt: Stmt)
    requires
        nodes_view(deps@) == strs_view(whole.deps),
        nodes_view(params@) == bindings_view(whole.params),
        nodes_view(stmts@) == whole.stmts,
    ensures
        stmt@ == define_view(string_opt_view(*id), whole),
{
    let mut args: Vec<Expr> = none();
    if let Some(id) = id {
        push(&mut args, quote_str(id.as_str()));
    }
    push(&mut args, branch(dummy_sp(), Form::Array, deps));
    push(&mut args, function_expr(params, stmts));
    assert(nodes_view(args@) =~= (match string_opt_view(*id) {
        Some(id) => seq![str_view(no_span(), id)],
        None => Seq::empty(),
    }) + seq![
        branch_view(no_span(), Form::Array, strs_view(whole.deps)),
        function_view(bindings_view(whole.params), whole.stmts),
    ]);
    into_stmt(call(ident_expr(quote_ident("define")), args))
}

} // verus!
