//! What becomes of a module as a whole.

use vstd::prelude::*;

use crate::amd::{Amd, folds, is_output};
use crate::ast::{Form, Span};
use crate::budget::{contexts_needed, unnamed};
use crate::define::{
    ReadingView, close_exports, end_state, header, helper_name, initialization, interop_view,
    interops, key_name, list_name, locals, module_parts, name_props, plain_ids, preamble,
    read_alls, reading, srcs, used_up,
};
use crate::effects::{is_generated_for, keeps_other_modules, names_module};
use crate::emit::{directives, no_span, prepended, starts_strict, undefined_view};
use crate::history::{
    knows_all_of, law_read_in_turn, lemma_keeps_alls, lemma_knows_itself, lemma_knows_transitive,
};
use crate::imports::{State, generated_local, with_local};
use crate::items::{Frame, export_alls, has_export, read_item, read_items};
use crate::laws::{law_interop_comes_first, law_no_interop};
use crate::model::{IdentView, ModuleItemView, ModuleView, NodeView, string_opt_view};
use crate::reach::{assigns_to_all, law_chain, law_module_named, module_named};
use crate::scope::{IdView, ImportView, ScopeView, distinct_srcs, lemma_bound, local_of};
use crate::shapes::{
    binder_of, define_stmt, entry, es_module_mark, export_keys, interop_call, law_define,
    law_statements, statement, strict_directive, truth, twig, value_of, variable, void_at,
};
use crate::util;

verus! {

// ---------------------------------------------------------------------------
// Modules that are exported as a whole
// ---------------------------------------------------------------------------

/// Modules are exported one after the other.
pub proof fn law_modules_in_turn(
    frame: Frame,
    st: State,
    list: Option<IdentView>,
    first: Seq<Seq<char>>,
    second: Seq<Seq<char>>,
)
    ensures
        ({
            let a = read_alls(frame, st, list, first);
            let b = read_alls(frame, a.state, list, second);
            let both = read_alls(frame, st, list, first + second);
            &&& both.state == b.state
            &&& both.out.header == a.out.header + b.out.header
        }),
    decreases second.len(),
{
    let a = read_alls(frame, st, list, first);
    let b = read_alls(frame, a.state, list, second);
    let both = read_alls(frame, st, list, first + second);
    if second.len() == 0 {
        assert(first + second =~= first);
        assert(both.out.header =~= a.out.header + b.out.header);
    } else {
        assert((first + second).drop_last() =~= first + second.drop_last());
        law_modules_in_turn(frame, st, list, first, second.drop_last());
        assert(both.out.header =~= a.out.header + b.out.header);
    }
}

/// The name of a key: `key`, in a given context.
pub open spec fn is_key_in(key: IdentView, ctxt: u32) -> bool {
    key.sym == "key"@ && key.span == (Span { lo: 0, hi: 0, ctxt })
}

/// A module that is exported as a whole gets a name, if it has none. One statement walks over
/// its keys and exports all of them but `default`, `__esModule` and, where there is a list of
/// exported names, those of the list.
pub proof fn law_one_module(frame: Frame, st: State, list: Option<IdentView>, src: Seq<char>)
    requires
        distinct_srcs(st.scope.imports),
    ensures
        ({
            let step = read_alls(frame, st, list, seq![src]);
            let scope = step.state.scope;
            &&& distinct_srcs(scope.imports)
            &&& scope == (ScopeView { imports: scope.imports, ..st.scope })
            &&& names_module(
                frame.pool,
                st,
                State { scope, used: step.state.used - 1 },
                src,
            )
            &&& step.out.body.len() == 0
            &&& step.out.names.len() == 0
            &&& step.out.header.len() == 1
            &&& exists|module: IdentView, key: IdentView|
                {
                    &&& #[trigger] module_named(scope.imports, src, module)
                    &&& #[trigger] is_key_in(key, frame.pool[step.state.used - 1])
                    &&& step.out.header[0] == export_keys(frame.exports, list, module, key)
                }
        }),
{
    reveal_with_fuel(read_alls, 2);
    assert(seq![src].drop_last() =~= Seq::empty());
    let named = with_local(frame.pool, st, src);
    lemma_bound(st.scope.imports, src, generated_local(src, frame.pool[st.used]));
    let module = local_of(named.scope.imports, src)->Some_0;
    law_module_named(named.scope.imports, src, module);
    let key = key_name(frame.pool, named);
    assert(is_key_in(key, frame.pool[named.used]));
    let step = read_alls(frame, st, list, seq![src]);
    law_statements(
        value_of(key),
        key,
        frame.exports,
        module,
        key,
        list,
        false,
        arbitrary(),
        0,
        false,
    );
    assert(step.out.header[0] == export_keys(frame.exports, list, module, key));
    assert(step.state.scope == named.scope);
    assert(step.state.used - 1 == named.used);
    assert(keeps_other_modules(st.scope, named.scope, src));
}

/// Whether a statement exports all keys of a module, under the name that the module has in the
/// end.
pub open spec fn forwards(
    stmt: NodeView,
    exports: IdentView,
    list: Option<IdentView>,
    imports: Seq<ImportView>,
    src: Seq<char>,
) -> bool {
    exists|module: IdentView, key: IdentView|
        #![trigger module_named(imports, src, module), binder_of(key)]
        module_named(imports, src, module) && binder_of(key).text == "key"@ && stmt
            == export_keys(exports, list, module, key)
}

/// There is one such statement for every module that is exported as a whole, in order, and
/// every one of them skips the names of the list.
pub proof fn law_every_module(
    frame: Frame,
    st: State,
    list: Option<IdentView>,
    all: Seq<Seq<char>>,
)
    requires
        distinct_srcs(st.scope.imports),
    ensures
        ({
            let step = read_alls(frame, st, list, all);
            let scope = step.state.scope;
            &&& distinct_srcs(scope.imports)
            &&& scope == (ScopeView { imports: scope.imports, ..st.scope })
            &&& knows_all_of(scope, st.scope)
            &&& step.out.header.len() == all.len()
            &&& step.out.body.len() == 0
            &&& step.out.names.len() == 0
            &&& forall|i: int|
                0 <= i < all.len() ==> forwards(
                    #[trigger] step.out.header[i],
                    frame.exports,
                    list,
                    scope.imports,
                    all[i],
                )
        }),
    decreases all.len(),
{
    let step = read_alls(frame, st, list, all);
    lemma_knows_itself(st.scope);
    if all.len() > 0 {
        let rest = all.drop_last();
        let src = all.last();
        let before = read_alls(frame, st, list, rest);
        law_every_module(frame, st, list, rest);
        law_one_module(frame, before.state, list, src);
        law_modules_in_turn(frame, st, list, rest, seq![src]);
        assert(rest + seq![src] =~= all);
        let last = read_alls(frame, before.state, list, seq![src]);
        lemma_keeps_alls(frame, before.state, list, seq![src]);
        lemma_knows_transitive(st.scope, before.state.scope, step.state.scope);
        let imports = step.state.scope.imports;
        let (module, key) = choose|module: IdentView, key: IdentView|
            {
                &&& #[trigger] module_named(imports, src, module)
                &&& #[trigger] is_key_in(key, frame.pool[last.state.used - 1])
                &&& last.out.header[0] == export_keys(frame.exports, list, module, key)
            };
        assert(module_named(imports, src, module) && binder_of(key).text == "key"@);
        assert forall|i: int| 0 <= i < all.len() implies forwards(
            #[trigger] step.out.header[i],
            frame.exports,
            list,
            imports,
            all[i],
        ) by {
            if i < rest.len() {
                let stmt = before.out.header[i];
                assert(step.out.header[i] == stmt);
                assert(rest[i] == all[i]);
                let early = before.state.scope.imports;
                assert(forwards(stmt, frame.exports, list, early, rest[i]));
                let (m, k) = choose|m: IdentView, k: IdentView|
                    #![trigger module_named(early, rest[i], m), binder_of(k)]
                    module_named(early, rest[i], m) && binder_of(k).text == "key"@ && stmt
                        == export_keys(frame.exports, list, m, k);
                law_module_named(early, rest[i], m);
                law_module_named(imports, rest[i], m);
                assert(local_of(early, rest[i]) is Some);
                assert(module_named(imports, all[i], m) && binder_of(k).text == "key"@);
            } else {
                assert(step.out.header[i] == last.out.header[0]);
            }
        }
    }
}

/// The names of a list without `default`.
pub open spec fn without_default(names: Seq<Seq<char>>) -> Seq<Seq<char>> {
    names.filter(|name: Seq<char>| name != "default"@)
}

/// The list of exported names has one entry for each of them but `default`, in order.
proof fn lemma_name_props(names: Seq<Seq<char>>)
    ensures
        name_props(names) == Seq::new(
            without_default(names).len(),
            |i: int| entry(without_default(names)[i], truth()),
        ),
    decreases names.len(),
{
    reveal(Seq::filter);
    let want = Seq::new(
        without_default(names).len(),
        |i: int| entry(without_default(names)[i], truth()),
    );
    if names.len() > 0 {
        lemma_name_props(names.drop_last());
        let before = without_default(names.drop_last());
        if names.last() != "default"@ {
            assert(without_default(names) =~= before.push(names.last()));
        }
    }
    assert(name_props(names) =~= want);
}

/// Where a module exports names and whole modules, a list of the names is made first, and
/// every walk over the keys of a module skips the names of that list. Where there is nothing
/// to keep apart, there is no list.
pub proof fn law_exports_are_closed(frame: Frame, st: State, r: ReadingView)
    requires
        distinct_srcs(st.scope.imports),
    ensures
        ({
            let step = close_exports(frame, st, r);
            let scope = step.state.scope;
            let stmts = step.out.header;
            let list = IdentView {
                sym: "_exportNames"@,
                span: Span { lo: 0, hi: 0, ctxt: frame.pool[st.used] },
            };
            let own = without_default(r.out.names);
            let listed = r.alls.len() > 0 && r.out.names.len() > 0;
            let first = if listed {
                1int
            } else {
                0
            };
            &&& distinct_srcs(scope.imports)
            &&& scope == (ScopeView { imports: scope.imports, ..st.scope })
            &&& knows_all_of(scope, st.scope)
            &&& stmts.len() == first + r.alls.len()
            &&& listed ==> stmts[0] == variable(
                list,
                twig(Form::Object, Seq::new(own.len(), |i: int| entry(own[i], truth()))),
            )
            &&& forall|i: int|
                0 <= i < r.alls.len() ==> forwards(
                    stmts[first + i],
                    frame.exports,
                    if listed {
                        Some(list)
                    } else {
                        None
                    },
                    scope.imports,
                    #[trigger] r.alls[i],
                )
            &&& step.state == read_alls(
                frame,
                State { scope: st.scope, used: st.used + first },
                if listed {
                    Some(list)
                } else {
                    None
                },
                r.alls,
            ).state
        }),
{
    let listed = r.alls.len() > 0 && r.out.names.len() > 0;
    let list = list_name(frame.pool, st);
    lemma_name_props(r.out.names);
    law_every_module(frame, State { scope: st.scope, used: st.used + 1 }, Some(list), r.alls);
    law_every_module(frame, st, None, r.alls);
    let step = close_exports(frame, st, r);
    if listed {
        let inner = read_alls(
            frame,
            State { scope: st.scope, used: st.used + 1 },
            Some(list),
            r.alls,
        );
        assert forall|i: int| 0 <= i < r.alls.len() implies forwards(
            step.out.header[1 + i],
            frame.exports,
            Some(list),
            step.state.scope.imports,
            #[trigger] r.alls[i],
        ) by {
            assert(step.out.header[1 + i] == inner.out.header[i]);
        }
    } else {
        let inner = read_alls(frame, st, None, r.alls);
        assert forall|i: int| 0 <= i < r.alls.len() implies forwards(
            step.out.header[i],
            frame.exports,
            None,
            step.state.scope.imports,
            #[trigger] r.alls[i],
        ) by {
            assert(step.out.header[i] == inner.out.header[i]);
        }
    }
}

// ---------------------------------------------------------------------------
// Imported modules
// ---------------------------------------------------------------------------

/// How many of the modules have no name.
pub open spec fn nameless(imports: Seq<ImportView>) -> nat {
    imports.filter(|m: ImportView| m.local is None).len()
}

/// Modules without a name are counted one by one.
pub proof fn law_nameless(imports: Seq<ImportView>)
    ensures
        unnamed(imports) == nameless(imports),
    decreases imports.len(),
{
    reveal(Seq::filter);
    if imports.len() > 0 {
        law_nameless(imports.drop_last());
    }
}

/// The factory is given every imported module under the name that it has; one without a name
/// gets a generated one, in a context of its own.
pub proof fn law_parameters(pool: Seq<u32>, used: int, imports: Seq<ImportView>)
    ensures
        ({
            let names = locals(pool, used, imports);
            &&& names.len() == imports.len()
            &&& forall|i: int|
                0 <= i < imports.len() ==> match (#[trigger] imports[i]).local {
                    Some(local) => names[i] == local,
                    None => is_generated_for(
                        names[i],
                        imports[i].src,
                        pool[used + nameless(imports.take(i))],
                    ),
                }
        }),
{
    assert forall|i: int| 0 <= i < imports.len() implies match (#[trigger] imports[i]).local {
        Some(local) => locals(pool, used, imports)[i] == local,
        None => is_generated_for(
            locals(pool, used, imports)[i],
            imports[i].src,
            pool[used + nameless(imports.take(i))],
        ),
    } by {
        law_nameless(imports.take(i));
    }
}

/// The modules with the names that they are given.
pub open spec fn given(imports: Seq<ImportView>, names: Seq<IdentView>) -> Seq<
    (Seq<char>, IdentView),
> {
    Seq::new(imports.len(), |i: int| (imports[i].src, names[i]))
}

/// Those of them that go through an interop helper, in order.
pub open spec fn through_interop(
    types: Map<Seq<char>, bool>,
    modules: Seq<(Seq<char>, IdentView)>,
) -> Seq<(Seq<char>, IdentView)> {
    modules.filter(|m: (Seq<char>, IdentView)| types.contains_key(m.0))
}

/// Every module that has an interop type is sent through the helper of that type, once, in
/// order; and no other module is.
pub proof fn law_interop(
    ctxt: u32,
    types: Map<Seq<char>, bool>,
    imports: Seq<ImportView>,
    names: Seq<IdentView>,
)
    requires
        names.len() >= imports.len(),
    ensures
        ({
            let stmts = interops(ctxt, types, imports, names);
            let found = through_interop(types, given(imports, names));
            &&& stmts.len() == found.len()
            &&& forall|i: int|
                0 <= i < found.len() ==> #[trigger] stmts[i] == interop_call(
                    ctxt,
                    types[found[i].0],
                    found[i].1,
                )
        }),
    decreases imports.len(),
{
    reveal(Seq::filter);
    if imports.len() > 0 {
        let rest = imports.drop_last();
        law_interop(ctxt, types, rest, names);
        let all = given(imports, names);
        let some = given(rest, names);
        assert(all.drop_last() =~= some);
        let m = all.last();
        let before = through_interop(types, some);
        let found = through_interop(types, all);
        if types.contains_key(m.0) {
            assert(found =~= before.push(m));
            assert(interop_view(helper_name(ctxt, types[m.0]), m.1) == interop_call(
                ctxt,
                types[m.0],
                m.1,
            ));
        } else {
            assert(found =~= before);
        }
    }
}

// ---------------------------------------------------------------------------
// The statements of the factory
// ---------------------------------------------------------------------------

/// All names are initialized by one statement, where there are any: it assigns `void 0` to the
/// export of each of them.
pub proof fn law_initialization(exports: IdentView, order: Seq<Seq<char>>)
    ensures
        order.len() == 0 ==> initialization(exports, order).len() == 0,
        order.len() > 0 ==> {
            let stmts = initialization(exports, order);
            let names = Seq::new(order.len(), |i: int| IdView { sym: order[i], ctxt: 0 });
            &&& stmts.len() == 1
            &&& stmts[0].kids.len() == 1
            &&& stmts[0] == statement(stmts[0].kids[0])
            &&& assigns_to_all(
                stmts[0].kids[0],
                exports,
                names,
                void_at(Span { lo: 0, hi: 0, ctxt: 0 }),
            )
        },
{
    let names = Seq::new(order.len(), |i: int| IdView { sym: order[i], ctxt: 0 });
    assert(plain_ids(order) =~= names);
    law_chain(exports, names, undefined_view(no_span()));
    if order.len() > 0 {
        let stmt = initialization(exports, order)[0];
        assert(stmt.kids =~= seq![stmt.kids[0]]);
    }
}

/// Whether a statement is a string on its own.
pub open spec fn is_string_stmt(s: NodeView) -> bool {
    s.form == Form::ExprStmt && s.kids.len() == 1 && s.kids[0].form == Form::Str
}

/// Statements are put behind the directives that a list starts with, and before all else.
pub proof fn law_behind_directives(stmts: Seq<NodeView>, more: Seq<NodeView>)
    ensures
        exists|n: int|
            #![trigger stmts.take(n)]
            {
                &&& 0 <= n <= stmts.len()
                &&& forall|i: int| 0 <= i < n ==> is_string_stmt(#[trigger] stmts[i])
                &&& n < stmts.len() ==> !is_string_stmt(stmts[n])
                &&& prepended(stmts, more) == stmts.take(n) + more + stmts.skip(n)
            },
{
    lemma_leading(stmts);
    let n = directives(stmts) as int;
    assert(stmts.take(n) == stmts.take(n));
}

/// Directives are counted from the start.
proof fn lemma_leading(stmts: Seq<NodeView>)
    ensures
        directives(stmts) <= stmts.len(),
        forall|i: int| 0 <= i < directives(stmts) ==> is_string_stmt(#[trigger] stmts[i]),
        directives(stmts) < stmts.len() ==> !is_string_stmt(stmts[directives(stmts) as int]),
    decreases stmts.len(),
{
    if stmts.len() > 0 && is_string_stmt(stmts[0]) {
        let rest = stmts.drop_first();
        lemma_leading(rest);
        assert forall|i: int| 0 <= i < directives(stmts) implies is_string_stmt(
            #[trigger] stmts[i],
        ) by {
            if i > 0 {
                assert(stmts[i] == rest[i - 1]);
            }
        }
    }
}

/// The statements of a factory: `'use strict'` where it is owed, the interop of the modules,
/// the mark of a module with exports where it is owed, what the items put before the body, the
/// exports of whole modules, the initialization, and the body, in this order.
pub open spec fn all_stmts(
    config: util::Config,
    frame: Frame,
    helpers: u32,
    st: State,
    items: Seq<ModuleItemView>,
    order: Seq<Seq<char>>,
) -> Seq<NodeView> {
    let step = read_items(frame, st, items);
    let close = close_exports(
        frame,
        step.state,
        ReadingView {
            out: step.out,
            has_export: has_export(items),
            alls: export_alls(items),
            strict: starts_strict(items),
        },
    );
    let imports = close.state.scope.imports;
    let strict = if config.strict_mode && !starts_strict(items) {
        seq![strict_directive()]
    } else {
        Seq::empty()
    };
    let interop = if config.no_interop {
        Seq::empty()
    } else {
        interops(
            helpers,
            close.state.scope.import_types,
            imports,
            locals(frame.pool, close.state.used, imports),
        )
    };
    let mark = if has_export(items) && !config.strict {
        seq![es_module_mark(frame.exports)]
    } else {
        Seq::empty()
    };
    strict + interop + mark + step.out.header + close.out.header + initialization(
        frame.exports,
        order,
    ) + step.out.body
}

/// The factory has these statements.
pub proof fn law_factory(
    config: util::Config,
    frame: Frame,
    helpers: u32,
    st: State,
    items: Seq<ModuleItemView>,
    order: Seq<Seq<char>>,
)
    ensures
        module_parts(config, frame, helpers, st, items, order).stmts == all_stmts(
            config,
            frame,
            helpers,
            st,
            items,
            order,
        ),
{
    let step = read_items(frame, st, items);
    let r = reading(step.out, items);
    let close = close_exports(frame, step.state, r);
    let h = header(config, frame, step.state, r, order);
    let strict = if config.strict_mode && !starts_strict(items) {
        seq![strict_directive()]
    } else {
        Seq::empty()
    };
    let mark = if has_export(items) && !config.strict {
        seq![es_module_mark(frame.exports)]
    } else {
        Seq::empty()
    };
    let init = initialization(frame.exports, order);
    assert(preamble(config, frame.exports, r) =~= strict + mark);
    if config.no_interop {
        law_no_interop(config, frame, helpers, step.state, r, order);
        lemma_assembled(
            strict,
            Seq::empty(),
            mark,
            step.out.header,
            close.out.header,
            init,
            step.out.body,
        );
    } else {
        law_interop_comes_first(config, frame, helpers, st, items, order);
        let imports = close.state.scope.imports;
        let interop = interops(
            helpers,
            close.state.scope.import_types,
            imports,
            locals(frame.pool, close.state.used, imports),
        );
        lemma_assembled(
            strict,
            interop,
            mark,
            step.out.header,
            close.out.header,
            init,
            step.out.body,
        );
    }
}

/// Putting statements behind the first ones of a header.
proof fn lemma_assembled(
    strict: Seq<NodeView>,
    interop: Seq<NodeView>,
    mark: Seq<NodeView>,
    header: Seq<NodeView>,
    close: Seq<NodeView>,
    init: Seq<NodeView>,
    body: Seq<NodeView>,
)
    ensures
        ({
            let h = (strict + mark) + header + close + init;
            let n = strict.len() as int;
            &&& h.take(n) + interop + h.skip(n) + body == strict + interop + mark + header + close
                + init + body
            &&& interop.len() == 0 ==> h + body == strict + interop + mark + header + close + init
                + body
        }),
{
    let h = (strict + mark) + header + close + init;
    let n = strict.len() as int;
    let rest = mark + header + close + init;
    assert(h.take(n) =~= strict);
    assert(h.skip(n) =~= rest);
    assert(strict + interop + rest + body =~= strict + interop + mark + header + close + init
        + body);
    if interop.len() == 0 {
        assert(h + body =~= strict + interop + mark + header + close + init + body);
    }
}

/// Whether a list stands in another one, at some place.
pub open spec fn stands_at(all: Seq<NodeView>, at: int, part: Seq<NodeView>) -> bool {
    0 <= at && at + part.len() <= all.len() && all.subrange(at, at + part.len()) == part
}

/// What an item leaves stands in the factory: its statements for the body in the body, in the
/// order of the items and with nothing between them, and its statements for the header before
/// that.
pub proof fn law_items_stand_in_factory(
    config: util::Config,
    frame: Frame,
    helpers: u32,
    st: State,
    items: Seq<ModuleItemView>,
    order: Seq<Seq<char>>,
    i: int,
)
    requires
        0 <= i < items.len(),
    ensures
        ({
            let stmts = module_parts(config, frame, helpers, st, items, order).stmts;
            let before = read_items(frame, st, items.take(i));
            let out = read_item(frame, before.state, items[i]).out;
            let all = read_items(frame, st, items).out;
            let start = stmts.len() - all.body.len();
            &&& start >= 0
            &&& stands_at(stmts, start + before.out.body.len(), out.body)
            &&& exists|at: int| #[trigger]
                stands_at(stmts, at, out.header) && at + out.header.len() <= start
            &&& forall|name: Seq<char>| #[trigger]
                out.names.contains(name) ==> all.names.contains(name)
        }),
{
    let stmts = module_parts(config, frame, helpers, st, items, order).stmts;
    let before = read_items(frame, st, items.take(i));
    let here = read_item(frame, before.state, items[i]);
    let all = read_items(frame, st, items).out;
    law_factory(config, frame, helpers, st, items, order);
    assert(items.take(i + 1).drop_last() =~= items.take(i));
    assert(items.take(i + 1).last() == items[i]);
    let upto = read_items(frame, st, items.take(i + 1));
    assert(items =~= items.take(i + 1) + items.skip(i + 1));
    law_read_in_turn(frame, st, items.take(i + 1), items.skip(i + 1));
    let after = read_items(frame, upto.state, items.skip(i + 1)).out;
    assert(all.body == before.out.body + here.out.body + after.body);
    assert(all.header == before.out.header + here.out.header + after.header);
    assert(all.names == before.out.names + here.out.names + after.names);
    let start = stmts.len() - all.body.len();
    let b = start + before.out.body.len();
    assert(stmts.subrange(b, b + here.out.body.len()) =~= here.out.body);
    let step = read_items(frame, st, items);
    let close = close_exports(frame, step.state, reading(step.out, items));
    let init = initialization(frame.exports, order);
    let h = start - init.len() - close.out.header.len() - all.header.len()
        + before.out.header.len();
    assert(stmts.subrange(h, h + here.out.header.len()) =~= here.out.header);
    assert(stands_at(stmts, h, here.out.header));
    assert forall|name: Seq<char>| #[trigger]
        here.out.names.contains(name) implies all.names.contains(name) by {
        let k = here.out.names.index_of(name);
        assert(all.names[before.out.names.len() + k] == name);
    }
}

// ---------------------------------------------------------------------------
// The result
// ---------------------------------------------------------------------------

/// Whether a list holds exactly the given names, each of them once.
pub open spec fn lists_once(order: Seq<Seq<char>>, names: Seq<Seq<char>>) -> bool {
    &&& forall|i: int, j: int| 0 <= i < j < order.len() ==> order[i] != order[j]
    &&& forall|name: Seq<char>| #[trigger] order.contains(name) <==> names.contains(name)
}

/// The module that a pass gives is one call of `define`: with the name of the module where it
/// has one, with its dependencies, and with a factory that has a parameter for each of them and
/// these statements. It keeps its place and its first line.
pub proof fn law_output(
    config: crate::amd::Config,
    frame: Frame,
    helpers: u32,
    st: State,
    module: ModuleView,
    output: ModuleView,
    order: Seq<Seq<char>>,
)
    requires
        is_output(config, frame, helpers, st, module, output, order),
    ensures
        ({
            let items = module.body;
            let imports = end_state(frame, st, items).scope.imports;
            let used = end_state(frame, st, items).used;
            let sources = Seq::new(imports.len(), |i: int| imports[i].src);
            let names = locals(frame.pool, used, imports);
            &&& output.span == module.span
            &&& output.shebang == module.shebang
            &&& lists_once(order, read_items(frame, st, items).out.names)
            &&& output.body.len() == 1
            &&& output.body[0] == ModuleItemView::Stmt(
                define_stmt(
                    match config.module_id {
                        Some(id) => Some(id@),
                        None => None,
                    },
                    if has_export(items) {
                        seq!["exports"@] + sources
                    } else {
                        sources
                    },
                    if has_export(items) {
                        seq![frame.exports] + names
                    } else {
                        names
                    },
                    all_stmts(config.config, frame, helpers, st, items, order),
                ),
            )
        }),
{
    let items = module.body;
    let p = module_parts(config.config, frame, helpers, st, items, order);
    let found = read_items(frame, st, items).out.names;
    law_factory(config.config, frame, helpers, st, items, order);
    law_define(string_opt_view(config.module_id), p);
    let imports = end_state(frame, st, items).scope.imports;
    assert(srcs(imports) =~= Seq::new(imports.len(), |i: int| imports[i].src));
    assert forall|name: Seq<char>| #[trigger] order.contains(name) <==> found.contains(name) by {
        assert(order.to_set().contains(name) <==> order.contains(name));
        assert(found.to_set().contains(name) <==> found.contains(name));
    }
}

/// A pass that has folded a module has its settings and its names, stands at the top level, has
/// forgotten the imported modules and nothing else, and has noted the helpers that it calls.
pub proof fn law_pass_afterwards(
    before: Amd,
    after: Amd,
    pool: Seq<u32>,
    used: int,
    module: ModuleView,
    output: ModuleView,
)
    requires
        folds(before, after, pool, used, module, output),
    ensures
        ({
            let frame = Frame { exports: before.exports@, pool };
            let st = State { scope: before.scope@, used };
            let end = end_state(frame, st, module.body).scope;
            let calls = |whole: bool|
                !before.config.config.no_interop && exists|i: int|
                    0 <= i < end.imports.len() && end.import_types.contains_key(
                        (#[trigger] end.imports[i]).src,
                    ) && end.import_types[end.imports[i].src] == whole;
            &&& exists|order: Seq<Seq<char>>| #[trigger]
                is_output(before.config, frame, before.helpers.ctxt, st, module, output, order)
            &&& after.config == before.config
            &&& after.exports == before.exports
            &&& after.in_top_level
            &&& after.scope@.imports.len() == 0
            &&& after.scope@.import_types == end.import_types
            &&& after.scope@.idents == end.idents
            &&& after.scope@.declared_vars == end.declared_vars
            &&& after.scope@.exported_vars == end.exported_vars
            &&& after.helpers.ctxt == before.helpers.ctxt
            &&& after.helpers.interop_require_wildcard
                == (before.helpers.interop_require_wildcard || calls(true))
            &&& after.helpers.interop_require_default == (before.helpers.interop_require_default
                || calls(false))
        }),
{
}

/// A module ends where its whole modules are exported; by then, and for the imported modules
/// that have no name, it has used up this many contexts.
pub proof fn law_end(frame: Frame, st: State, items: Seq<ModuleItemView>)
    ensures
        ({
            let step = read_items(frame, st, items);
            let end = close_exports(
                frame,
                step.state,
                ReadingView {
                    out: step.out,
                    has_export: has_export(items),
                    alls: export_alls(items),
                    strict: starts_strict(items),
                },
            ).state;
            &&& end_state(frame, st, items) == end
            &&& used_up(frame, st, items) == end.used + nameless(end.scope.imports)
        }),
{
    law_nameless(end_state(frame, st, items).scope.imports);
}

/// A module never asks for more than two contexts for each of its items and one for each module
/// that has no name, and one more.
pub proof fn law_modest(imports: Seq<ImportView>, items: Seq<ModuleItemView>)
    ensures
        contexts_needed(imports, items) <= imports.len() + 2 * items.len() + 1,
    decreases imports.len() + items.len(),
{
    if imports.len() > 0 {
        law_modest(imports.drop_last(), items);
    } else if items.len() > 0 {
        law_modest(imports, items.drop_last());
    }
}

} // verus!
