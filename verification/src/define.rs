//! What becomes of a module: a call of `define` with its dependencies and a factory.

use vstd::prelude::*;

use crate::ast::{BinaryOp, Form};
use crate::budget::unnamed;
use crate::emit::{
    assign_view, bare_view, binary_view, binding_view, branch_view, call_view,
    computed_member_view, define_property_view, descriptor_view, es_module_view, function_view,
    ident_view, key_value_view, member_view, name_in, no_span, object_view, plain_name,
    prepended, return_if_view, starts_strict, stmt_view, str_view, undefined_view,
    use_strict_view, var_view,
};
use crate::folding::chained;
use crate::imports::{State, generated_local, with_local};
use crate::items::{Frame, OutputView, Step, export_alls, has_export, read_items, read_nothing};
use crate::model::{IdentView, ModuleItemView, ModuleView, NodeView};
use crate::scope::{IdView, ImportView, local_of};
use crate::util;

verus! {

// ---------------------------------------------------------------------------
// The header
// ---------------------------------------------------------------------------

/// `name: true` for each of `names` but `default`.
pub open spec fn name_props(names: Seq<Seq<char>>) -> Seq<NodeView>
    decreases names.len(),
{
    if names.len() == 0 {
        Seq::empty()
    } else if names.last() == "default"@ {
        name_props(names.drop_last())
    } else {
        name_props(names.drop_last()).push(
            key_value_view(plain_name(names.last()), bare_view(Form::True)),
        )
    }
}

/// `key === value`
pub open spec fn key_is(key: IdentView, value: Seq<char>) -> NodeView {
    binary_view(BinaryOp::EqEqEq, ident_view(key), str_view(no_span(), value))
}

/// `if (key === "default" || key === "__esModule") return;`
pub open spec fn skip_own_keys(key: IdentView) -> NodeView {
    return_if_view(
        binary_view(
            BinaryOp::LogicalOr,
            key_is(key, "default"@),
            key_is(key, "__esModule"@),
        ),
    )
}

/// `if (Object.prototype.hasOwnProperty.call(names, key)) return;`
pub open spec fn skip_listed(names: IdentView, key: IdentView) -> NodeView {
    let has_own = member_view(
        member_view(ident_view(plain_name("Object"@)), plain_name("prototype"@)),
        plain_name("hasOwnProperty"@),
    );
    return_if_view(
        call_view(
            member_view(has_own, plain_name("call"@)),
            seq![ident_view(names), ident_view(key)],
        ),
    )
}

/// `Object.defineProperty(exports, key, { enumerable: true, get: function () { return
/// local[key]; } });`
pub open spec fn forward_key(exports: IdentView, local: IdentView, key: IdentView) -> NodeView {
    stmt_view(
        define_property_view(
            seq![
                ident_view(exports),
                ident_view(key),
                descriptor_view(computed_member_view(ident_view(local), ident_view(key))),
            ],
        ),
    )
}

/// `Object.keys(local).forEach(function (key) { .. });`, which exports every key of a
/// module but `default`, `__esModule` and those of `names`.
pub open spec fn export_all_view(
    exports: IdentView,
    names: Option<IdentView>,
    local: IdentView,
    key: IdentView,
) -> NodeView {
    let keys = call_view(
        member_view(ident_view(plain_name("Object"@)), plain_name("keys"@)),
        seq![ident_view(local)],
    );
    let skips = match names {
        Some(names) => seq![skip_own_keys(key), skip_listed(names, key)],
        None => seq![skip_own_keys(key)],
    };
    stmt_view(
        call_view(
            member_view(keys, plain_name("forEach"@)),
            seq![
                function_view(
                    seq![binding_view(key)],
                    skips.push(forward_key(exports, local, key)),
                ),
            ],
        ),
    )
}

/// The name of a key, when the keys of a module are walked.
pub open spec fn key_name(pool: Seq<u32>, st: State) -> IdentView {
    name_in("key"@, pool[st.used])
}

/// The name of the list of exported names.
pub open spec fn list_name(pool: Seq<u32>, st: State) -> IdentView {
    name_in("_exportNames"@, pool[st.used])
}

/// The modules that are exported as a whole, one after the other.
pub open spec fn read_alls(
    frame: Frame,
    st: State,
    names: Option<IdentView>,
    srcs: Seq<Seq<char>>,
) -> Step
    decreases srcs.len(),
{
    if srcs.len() == 0 {
        read_nothing(st)
    } else {
        let step = read_alls(frame, st, names, srcs.drop_last());
        let named = with_local(frame.pool, step.state, srcs.last());
        let local = local_of(named.scope.imports, srcs.last())->Some_0;
        let key = key_name(frame.pool, named);
        Step {
            state: State { scope: named.scope, used: named.used + 1 },
            out: OutputView {
                header: step.out.header.push(export_all_view(frame.exports, names, local, key)),
                ..step.out
            },
        }
    }
}

/// What was read of a module.
pub struct ReadingView {
    /// What the items left behind.
    pub out: OutputView,
    /// Whether there is an export.
    pub has_export: bool,
    /// The modules that are exported as a whole.
    pub alls: Seq<Seq<char>>,
    /// Whether the module starts with `'use strict'`.
    pub strict: bool,
}

/// What is read of the items of a module that leave `out` behind.
pub open spec fn reading(out: OutputView, items: Seq<ModuleItemView>) -> ReadingView {
    ReadingView {
        out,
        has_export: has_export(items),
        alls: export_alls(items),
        strict: starts_strict(items),
    }
}

/// The state after the modules that are exported as a whole, and the statements that
/// export them. Where other names are exported too, a list of those comes first and
/// keeps them from being exported twice.
pub open spec fn close_exports(frame: Frame, st: State, r: ReadingView) -> Step {
    if r.alls.len() > 0 && r.out.names.len() > 0 {
        let list = list_name(frame.pool, st);
        let step = read_alls(
            frame,
            State { scope: st.scope, used: st.used + 1 },
            Some(list),
            r.alls,
        );
        Step {
            state: step.state,
            out: OutputView {
                header: seq![var_view(list, object_view(name_props(r.out.names)))]
                    + step.out.header,
                ..step.out
            },
        }
    } else {
        read_alls(frame, st, None, r.alls)
    }
}

/// The statements in front of all others: `'use strict'` where it is asked for and
/// missing, and the mark of a module with exports.
pub open spec fn preamble(
    config: util::Config,
    exports: IdentView,
    r: ReadingView,
) -> Seq<NodeView> {
    let strict = if config.strict_mode && !r.strict {
        seq![use_strict_view()]
    } else {
        Seq::empty()
    };
    let es_module = if r.has_export && !config.strict {
        seq![es_module_view(exports)]
    } else {
        Seq::empty()
    };
    strict + es_module
}

/// `exports.b = exports.a = void 0;` for the names in the given order; nothing where
/// there is none.
pub open spec fn initialization(exports: IdentView, order: Seq<Seq<char>>) -> Seq<NodeView> {
    if order.len() == 0 {
        Seq::empty()
    } else {
        seq![stmt_view(chained(exports, plain_ids(order), undefined_view(no_span())))]
    }
}

/// Names in the empty context.
pub open spec fn plain_ids(names: Seq<Seq<char>>) -> Seq<IdView> {
    Seq::new(names.len(), |i: int| IdView { sym: names[i], ctxt: 0 })
}

// ---------------------------------------------------------------------------
// The imported modules
// ---------------------------------------------------------------------------

/// The name of each imported module: the one that it has, else a generated one.
pub open spec fn locals(pool: Seq<u32>, used: int, imports: Seq<ImportView>) -> Seq<IdentView> {
    Seq::new(
        imports.len(),
        |i: int|
            match imports[i].local {
                Some(local) => local,
                None => generated_local(
                    imports[i].src,
                    pool[used + unnamed(imports.take(i))],
                ),
            },
    )
}

/// The name of an interop helper.
pub open spec fn helper_name(ctxt: u32, wildcard: bool) -> IdentView {
    name_in(
        if wildcard {
            "_interopRequireWildcard"@
        } else {
            "_interopRequireDefault"@
        },
        ctxt,
    )
}

/// `local = helper(local);`
pub open spec fn interop_view(helper: IdentView, local: IdentView) -> NodeView {
    stmt_view(
        assign_view(
            binding_view(local),
            call_view(ident_view(helper), seq![ident_view(local)]),
        ),
    )
}

/// The statements that send modules through interop helpers, in the order of the
/// modules.
pub open spec fn interops(
    ctxt: u32,
    types: Map<Seq<char>, bool>,
    imports: Seq<ImportView>,
    locals: Seq<IdentView>,
) -> Seq<NodeView>
    decreases imports.len(),
{
    if imports.len() == 0 {
        Seq::empty()
    } else {
        let before = interops(ctxt, types, imports.drop_last(), locals);
        let src = imports.last().src;
        if types.contains_key(src) {
            before.push(
                interop_view(helper_name(ctxt, types[src]), locals[imports.len() - 1]),
            )
        } else {
            before
        }
    }
}

/// Whether a module of the list goes through the helper for namespaces, or through that
/// for default exports.
pub open spec fn calls_helper(
    types: Map<Seq<char>, bool>,
    imports: Seq<ImportView>,
    wildcard: bool,
) -> bool {
    exists|i: int|
        0 <= i < imports.len() && types.contains_key((#[trigger] imports[i]).src)
            && types[imports[i].src] == wildcard
}

// ---------------------------------------------------------------------------
// The call
// ---------------------------------------------------------------------------

/// What the call of `define` is made of.
pub struct Parts {
    /// The modules that it depends on.
    pub deps: Seq<Seq<char>>,
    /// The parameters of the factory.
    pub params: Seq<IdentView>,
    /// The statements of the factory.
    pub stmts: Seq<NodeView>,
}

/// The statements in front of the body, for a module whose names are initialized in
/// the given order.
pub open spec fn header(
    config: util::Config,
    frame: Frame,
    st: State,
    r: ReadingView,
    order: Seq<Seq<char>>,
) -> Seq<NodeView> {
    preamble(config, frame.exports, r) + r.out.header + close_exports(
        frame,
        st,
        r,
    ).out.header + initialization(frame.exports, order)
}

/// What the call of `define` is made of, for a module whose names are initialized in
/// the given order.
pub open spec fn parts(
    config: util::Config,
    frame: Frame,
    helpers: u32,
    st: State,
    r: ReadingView,
    order: Seq<Seq<char>>,
) -> Parts {
    let end = close_exports(frame, st, r).state;
    let imports = end.scope.imports;
    let names = locals(frame.pool, end.used, imports);
    let interop = if config.no_interop {
        Seq::empty()
    } else {
        interops(helpers, end.scope.import_types, imports, names)
    };
    Parts {
        deps: if r.has_export {
            seq!["exports"@] + srcs(imports)
        } else {
            srcs(imports)
        },
        params: if r.has_export {
            seq![frame.exports] + names
        } else {
            names
        },
        stmts: prepended(header(config, frame, st, r, order), interop) + r.out.body,
    }
}

/// The sources of imported modules.
pub open spec fn srcs(imports: Seq<ImportView>) -> Seq<Seq<char>> {
    Seq::new(imports.len(), |i: int| imports[i].src)
}

/// What the call of `define` is made of, for a module whose names are initialized in
/// the given order.
pub open spec fn module_parts(
    config: util::Config,
    frame: Frame,
    helpers: u32,
    st: State,
    items: Seq<ModuleItemView>,
    order: Seq<Seq<char>>,
) -> Parts {
    let step = read_items(frame, st, items);
    parts(config, frame, helpers, step.state, reading(step.out, items), order)
}

/// The state in which the imported modules of a module are named.
pub open spec fn end_state(frame: Frame, st: State, items: Seq<ModuleItemView>) -> State {
    let step = read_items(frame, st, items);
    close_exports(frame, step.state, reading(step.out, items)).state
}

/// How many syntax contexts have been used up after a module.
pub open spec fn used_up(frame: Frame, st: State, items: Seq<ModuleItemView>) -> int {
    let end = end_state(frame, st, items);
    end.used + unnamed(end.scope.imports)
}

/// Strings as literals.
pub open spec fn strs_view(values: Seq<Seq<char>>) -> Seq<NodeView> {
    Seq::new(values.len(), |i: int| str_view(no_span(), values[i]))
}

/// Names that are bound.
pub open spec fn bindings_view(names: Seq<IdentView>) -> Seq<NodeView> {
    Seq::new(names.len(), |i: int| binding_view(names[i]))
}

/// `define("id", ["dep"], function (param) { stmts });`, without the name where the
/// module has none.
pub open spec fn define_view(id: Option<Seq<char>>, parts: Parts) -> NodeView {
    let deps = branch_view(no_span(), Form::Array, strs_view(parts.deps));
    let factory = function_view(bindings_view(parts.params), parts.stmts);
    let name = match id {
        Some(id) => seq![str_view(no_span(), id)],
        None => Seq::empty(),
    };
    stmt_view(call_view(ident_view(plain_name("define"@)), name + seq![deps, factory]))
}

/// What becomes of a module.
pub open spec fn defined(id: Option<Seq<char>>, parts: Parts, module: ModuleView) -> ModuleView {
    ModuleView {
        body: seq![ModuleItemView::Stmt(define_view(id, parts))],
        ..module
    }
}

} // verus!
