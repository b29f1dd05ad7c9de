//! The pass.

use fxhash::FxHashSet;
use swc_common::Globals;
use vstd::prelude::*;

use crate::ast::{Ident, Module, ModuleItem, Span, Stmt};
use crate::budget::contexts_needed;
use crate::define::{defined, end_state, module_parts, used_up};
use crate::emit::name_in;
use crate::finish::{Reading, with_calls};
use crate::hygiene::{
    Contexts, Store, fresh_ctxt, law_contexts_are_new, lemma_orderly, new_globals, numbers_from,
    store_of,
};
use crate::imports::{State, state_of};
use crate::items::{Frame, all_plain, read_items};
use crate::model::{
    IdentView, ModuleItemView, ModuleView, items_view, string_opt_view, strings_view,
};
use crate::names::{into_names, lists};
use crate::scope::{Scope, ScopeView, empty_scope};
use crate::util;

verus! {

/// The settings of the pass.
#[derive(Clone, Debug)]
pub struct Config {
    /// The name that the module is defined under.
    pub module_id: Option<String>,
    /// What all module transforms share.
    pub config: util::Config,
}

impl Default for Config {
    fn default() -> (config: Self)
        ensures
            config.module_id is None,
            config.config == util::default_config(),
    {
        Config { module_id: None, config: util::Config::default() }
    }
}

/// The interop helpers that the output calls.
#[derive(Clone, Copy, Debug, PartialEq, Eq, Structural)]
pub struct Helpers {
    /// The context of their names.
    pub ctxt: u32,
    /// Whether `_interopRequireWildcard` is called.
    pub interop_require_wildcard: bool,
    /// Whether `_interopRequireDefault` is called.
    pub interop_require_default: bool,
}

/// The pass that turns a module into a call of `define`.
#[derive(Debug)]
pub struct Amd {
    /// The settings.
    pub config: Config,
    /// Whether `this` is that of the module.
    pub in_top_level: bool,
    /// The names that are known.
    pub scope: Scope,
    /// The name of the export object.
    pub exports: Ident,
    /// The interop helpers.
    pub helpers: Helpers,
}

/// The name of the export object.
pub open spec fn exports_name(ctxt: u32) -> IdentView {
    name_in("_exports"@, ctxt)
}

/// Helpers in a given context, none of them called.
pub open spec fn no_helpers(ctxt: u32) -> Helpers {
    Helpers { ctxt, interop_require_wildcard: false, interop_require_default: false }
}

/// A pass that has seen nothing yet. Its names are drawn from `globals`.
pub fn amd(config: Config, globals: &mut Globals) -> (pass: Amd)
    requires
        store_of(*old(globals)).has_room(2),
    ensures
        pass.config == config,
        !pass.in_top_level,
        pass.scope.wf(),
        pass.scope@ == empty_scope(),
        pass.exports@ == exports_name(store_of(*old(globals)).next_ctxt()),
        pass.helpers == no_helpers(store_of(*old(globals)).after().next_ctxt()),
        store_of(*final(globals)) == store_of(*old(globals)).after().after(),
{
    let exports: u32 = fresh_ctxt(globals);
    let helpers: u32 = fresh_ctxt(globals);
    Amd::new(config, exports, helpers)
}

/// What becomes of a module whose names are initialized in the given order.
pub open spec fn is_output(
    config: Config,
    frame: Frame,
    helpers: u32,
    st: State,
    module: ModuleView,
    output: ModuleView,
    order: Seq<Seq<char>>,
) -> bool {
    &&& lists(order, read_items(frame, st, module.body).out.names.to_set())
    &&& output == defined(
        string_opt_view(config.module_id),
        module_parts(config.config, frame, helpers, st, module.body, order),
        module,
    )
}

/// What a pass makes of a module, and what it is afterwards. The exported names are
/// initialized in some order; nothing is said of which.
pub open spec fn folds(
    before: Amd,
    after: Amd,
    pool: Seq<u32>,
    used: int,
    module: ModuleView,
    output: ModuleView,
) -> bool {
    let frame = Frame { exports: before.exports@, pool };
    let st = State { scope: before.scope@, used };
    let end = end_state(frame, st, module.body).scope;
    &&& exists|order: Seq<Seq<char>>| #[trigger]
        is_output(before.config, frame, before.helpers.ctxt, st, module, output, order)
    &&& after.config == before.config
    &&& after.in_top_level
    &&& after.exports == before.exports
    &&& after.scope@ == (ScopeView { imports: Seq::empty(), ..end })
    &&& after.helpers == if before.config.config.no_interop {
        before.helpers
    } else {
        with_calls(before.helpers, end.import_types, end.imports)
    }
}

/// Turns a module into a call of `define`. It is for modules whose names all stand in
/// the empty context: generated names stand in others, each in one of its own.
pub fn amd_module(config: Config, module: Module) -> (output: Module)
    requires
        all_plain(module@.body),
        contexts_needed(Seq::empty(), module@.body) + 3 <= u32::MAX,
    ensures
        exists|order: Seq<Seq<char>>| #[trigger]
            is_output(
                config,
                Frame {
                    exports: exports_name(1),
                    pool: numbers_from(3, (u32::MAX - 3) as nat),
                },
                2,
                State { scope: empty_scope(), used: 0 },
                module@,
                output@,
                order,
            ),
{
    let mut globals: Globals = new_globals();
    let ghost store = Store::initial();
    let ghost n = (u32::MAX - 3) as nat;
    proof {
        reveal_with_fuel(Store::after_all, 3);
        assert(store.after_all(2) == store.after().after());
        lemma_orderly(store, 1);
        lemma_orderly(store, 2);
        law_contexts_are_new(store.after().after(), n);
    }
    assert(store_of(globals) =~= store);
    let mut pass: Amd = amd(config, &mut globals);
    assert(pass.scope@.imports =~= Seq::empty());
    let ghost before = pass;
    let output: Module = pass.fold(module, &mut globals);
    assert(folds(before, pass, numbers_from(3, n), 0, module@, output@));
    output
}

impl Amd {
    /// A pass that has seen nothing yet, with the given contexts for the name of the
    /// export object and those of the helpers.
    pub fn new(config: Config, exports: u32, helpers: u32) -> (pass: Self)
        ensures
            pass.config == config,
            !pass.in_top_level,
            pass.scope.wf(),
            pass.scope@ == empty_scope(),
            pass.exports@ == exports_name(exports),
            pass.helpers == no_helpers(helpers),
    {
        Amd {
            config,
            in_top_level: false,
            scope: Scope::default(),
            exports: Ident {
                sym: "_exports".to_owned(),
                span: Span { lo: 0, hi: 0, ctxt: exports },
            },
            helpers: Helpers {
                ctxt: helpers,
                interop_require_wildcard: false,
                interop_require_default: false,
            },
        }
    }

    /// Turns a module into a call of `define`. Generated names are drawn from `globals`,
    /// one at a time, as they are needed.
    pub fn fold(&mut self, module: Module, globals: &mut Globals) -> (output: Module)
        requires
            old(self).scope.wf(),
            all_plain(module@.body),
            store_of(*old(globals)).has_room(
                contexts_needed(old(self).scope@.imports, module@.body),
            ),
        ensures
            final(self).scope.wf(),
            ({
                let store = store_of(*old(globals));
                let pool = store.drawn(store.room());
                let frame = Frame { exports: old(self).exports@, pool };
                let st = State { scope: old(self).scope@, used: 0 };
                &&& store_of(*final(globals)) == store.after_all(
                    used_up(frame, st, module@.body) as nat,
                )
                &&& folds(*old(self), *final(self), pool, 0, module@, output@)
            }),
    {
        let mut taken: Globals = new_globals();
        std::mem::swap(globals, &mut taken);
        let mut contexts: Contexts = Contexts::new(taken);
        let output: Module = self.fold_module(module, &mut contexts);
        std::mem::swap(globals, &mut contexts.globals);
        output
    }

    /// Turns a module into a call of `define`, with the given contexts for generated
    /// names.
    pub fn fold_module(&mut self, module: Module, contexts: &mut Contexts) -> (output: Module)
        requires
            old(self).scope.wf(),
            all_plain(module@.body),
            old(contexts).wf(),
            old(contexts).left() >= contexts_needed(old(self).scope@.imports, module@.body),
        ensures
            final(contexts).wf(),
            final(contexts).start == old(contexts).start,
            final(self).scope.wf(),
            folds(
                *old(self),
                *final(self),
                old(contexts).ids(),
                old(contexts).used as int,
                module@,
                output@,
            ),
            final(contexts).used == used_up(
                old(self).frame(*old(contexts)),
                state_of(old(self).scope, *old(contexts)),
                module@.body,
            ),
    {
        self.in_top_level = true;
        let ghost frame = self.frame(*contexts);
        let ghost st = state_of(self.scope, *contexts);
        let (read, initialized): (Reading, FxHashSet<String>) = self.read_items(
            module.body,
            contexts,
        );
        let order: Vec<String> = into_names(initialized);
        let stmt: Stmt = self.define(read, order, contexts);
        let mut items: Vec<ModuleItem> = Vec::new();
        items.push(ModuleItem::Stmt(stmt));
        assert(items_view(items@) =~= seq![ModuleItemView::Stmt(stmt@)]);
        let output: Module = Module { span: module.span, body: items, shebang: module.shebang };
        assert(is_output(
            self.config,
            frame,
            old(self).helpers.ctxt,
            st,
            module@,
            output@,
            strings_view(order@),
        ));
        output
    }

    /// What all module transforms share of the settings.
    pub fn config(&self) -> (config: &util::Config)
        ensures
            *config == self.config.config,
    {
        &self.config.config
    }

    /// The names that are known.
    pub fn scope(&self) -> (scope: &Scope)
        ensures
            *scope == self.scope,
    {
        &self.scope
    }

    /// The names that are known.
    pub fn scope_mut(&mut self) -> (scope: &mut Scope)
        ensures
            *scope == old(self).scope,
            *final(self) == (Amd { scope: *final(scope), ..*old(self) }),
    {
        &mut self.scope
    }
}

} // verus!
