//! What becomes of the items of a module, one after the other.

use vstd::prelude::*;

use crate::ast::Form;
use crate::bindings::idents_in_all;
use crate::emit::{
    class_decl_view, export_stmt_view, fn_decl_view, getter_view, ident_view, member_view,
    name_in, plain_name, var_decl_view, var_view,
};
use crate::folding::{Env, declared_in, fold_name, fold_tree};
use crate::imports::{State, with_export_from, with_import};
use crate::model::{
    DeclView, DefaultDeclView, ExportSpecifierView, IdentView, ModuleDeclView, ModuleItemView,
    NamedExportView, NodeView, VarDeclView,
};
use crate::scope::{IdView, ScopeView, exported, id_of, ids_of, local_of, typed, widened};

verus! {

/// What stays the same while the items of a module are read.
pub struct Frame {
    /// The name of the export object.
    pub exports: IdentView,
    /// The syntax contexts of generated names.
    pub pool: Seq<u32>,
}

/// What items leave behind.
#[verifier::ext_equal]
pub struct OutputView {
    /// Statements that run before the body.
    pub header: Seq<NodeView>,
    /// The body.
    pub body: Seq<NodeView>,
    /// The exported names that are initialized before the body runs.
    pub names: Seq<Seq<char>>,
}

impl OutputView {
    /// Nothing.
    pub open spec fn empty() -> OutputView {
        OutputView { header: Seq::empty(), body: Seq::empty(), names: Seq::empty() }
    }

    /// Statements for the body, and nothing else.
    pub open spec fn body(body: Seq<NodeView>) -> OutputView {
        OutputView { header: Seq::empty(), body, names: Seq::empty() }
    }

    /// What both leave behind, one after the other.
    pub open spec fn then_also(self, more: OutputView) -> OutputView {
        OutputView {
            header: self.header + more.header,
            body: self.body + more.body,
            names: self.names + more.names,
        }
    }
}

/// A state, and what was left behind on the way to it.
pub struct Step {
    pub state: State,
    pub out: OutputView,
}

impl Frame {
    /// What folding a tree depends on.
    pub open spec fn env(self, st: State) -> Env {
        Env {
            idents: st.scope.idents,
            imports: st.scope.imports,
            exported_vars: st.scope.exported_vars,
            exports: self.exports,
        }
    }

    /// What becomes of a tree at the top level.
    pub open spec fn folded(self, st: State, n: NodeView) -> NodeView {
        fold_tree(self.env(st), true, n)
    }

    /// `exports.name = value;`
    pub open spec fn export(self, name: IdentView, value: NodeView) -> NodeView {
        export_stmt_view(self.exports, name, value)
    }

    /// `exports.default = name;`
    pub open spec fn export_default(self, name: IdentView) -> NodeView {
        self.export(plain_name("default"@), ident_view(name))
    }
}

/// The state in which more variables are known to be declared.
pub open spec fn with_declared(st: State, more: Seq<IdView>) -> State {
    State {
        scope: ScopeView { declared_vars: st.scope.declared_vars + more, ..st.scope },
        used: st.used,
    }
}

/// The exports, with each of `idents` under its own name.
pub open spec fn with_exports(
    vars: Map<IdView, Seq<IdView>>,
    idents: Seq<IdentView>,
) -> Map<IdView, Seq<IdView>>
    decreases idents.len(),
{
    if idents.len() == 0 {
        vars
    } else {
        exported(
            with_exports(vars, idents.drop_last()),
            id_of(idents.last()),
            id_of(idents.last()),
        )
    }
}

/// A declaration: the folded declaration is the body.
pub open spec fn read_decl(frame: Frame, st: State, decl: NodeView) -> Step {
    Step {
        state: with_declared(st, declared_in(decl)),
        out: OutputView::body(seq![frame.folded(st, decl)]),
    }
}

/// `export class C {}`: the export follows the class.
pub open spec fn read_class(frame: Frame, st: State, ident: IdentView, decl: NodeView) -> Step {
    let step = read_decl(frame, st, decl);
    Step {
        state: step.state,
        out: step.out.then_also(
            OutputView::body(seq![frame.export(ident, ident_view(ident))]),
        ),
    }
}

/// `export function f() {}`: a function is there before the body runs, and so is its
/// export.
pub open spec fn read_fn(frame: Frame, st: State, ident: IdentView, decl: NodeView) -> Step {
    let step = read_decl(frame, st, decl);
    Step {
        state: step.state,
        out: OutputView {
            header: seq![frame.export(ident, ident_view(ident))],
            ..step.out
        },
    }
}

/// The statements that export variables under their own names.
pub open spec fn own_exports(frame: Frame, idents: Seq<IdentView>) -> Seq<NodeView> {
    Seq::new(idents.len(), |i: int| frame.export(idents[i], ident_view(idents[i])))
}

/// The spellings of a list of identifiers.
pub open spec fn syms_of(idents: Seq<IdentView>) -> Seq<Seq<char>> {
    Seq::new(idents.len(), |i: int| idents[i].sym)
}

/// `export let a;`: every variable is exported behind its declaration, and again
/// whenever it is written later on.
pub open spec fn read_var(frame: Frame, st: State, var: VarDeclView) -> Step {
    let idents = idents_in_all(var.decls);
    let step = read_decl(frame, st, var_decl_view(var));
    let state = with_declared(step.state, ids_of(idents));
    Step {
        state: State {
            scope: ScopeView {
                exported_vars: with_exports(state.scope.exported_vars, idents),
                ..state.scope
            },
            used: state.used,
        },
        out: step.out.then_also(
            OutputView {
                header: Seq::empty(),
                body: own_exports(frame, idents),
                names: syms_of(idents),
            },
        ),
    }
}

/// The name of a default export, and the state in which it is known.
pub open spec fn default_name(frame: Frame, st: State, ident: Option<IdentView>) -> (
    IdentView,
    State,
) {
    match ident {
        Some(ident) => (ident, st),
        None => (
            name_in("_default"@, frame.pool[st.used]),
            State { scope: st.scope, used: st.used + 1 },
        ),
    }
}

/// `export default class {}`: the class stands as it is, and its export behind it.
pub open spec fn read_default_class(
    frame: Frame,
    st: State,
    ident: Option<IdentView>,
    class: NodeView,
) -> Step {
    let (name, state) = default_name(frame, st, ident);
    Step {
        state,
        out: OutputView {
            header: Seq::empty(),
            body: seq![class_decl_view(name, false, class), frame.export_default(name)],
            names: seq!["default"@],
        },
    }
}

/// `export default function () {}`: the export stands before the function, which is
/// there already.
pub open spec fn read_default_fn(
    frame: Frame,
    st: State,
    ident: Option<IdentView>,
    function: NodeView,
) -> Step {
    let (name, state) = default_name(frame, st, ident);
    let decl = fn_decl_view(name, false, function);
    Step {
        state: with_declared(state, declared_in(decl)),
        out: OutputView::body(seq![frame.export_default(name), frame.folded(state, decl)]),
    }
}

/// `export default a;`: the value gets a name, which is exported.
pub open spec fn read_default_expr(frame: Frame, st: State, expr: NodeView) -> Step {
    let (name, state) = default_name(frame, st, None);
    Step {
        state: with_declared(state, declared_in(expr)),
        out: OutputView {
            header: Seq::empty(),
            body: seq![
                var_view(name, frame.folded(state, expr)),
                frame.export_default(name),
            ],
            names: seq!["default"@],
        },
    }
}

/// A module that an export reads from, and its name.
pub struct Origin {
    pub src: Seq<char>,
    pub local: IdentView,
}

/// The state after the name `orig` was exported as `name`: a declared variable is
/// exported whenever it is written later on, and a module whose default export is read
/// goes through an interop helper.
pub open spec fn with_named(
    st: State,
    origin: Option<Origin>,
    orig: IdentView,
    name: IdentView,
) -> State {
    State {
        scope: ScopeView {
            exported_vars: if st.scope.declared_vars.contains(id_of(orig)) {
                exported(st.scope.exported_vars, id_of(orig), id_of(name))
            } else {
                st.scope.exported_vars
            },
            import_types: if origin is Some && orig.sym == "default"@ {
                typed(st.scope.import_types, origin->Some_0.src)
            } else {
                st.scope.import_types
            },
            ..st.scope
        },
        used: st.used,
    }
}

/// The value that is exported for the name `orig`.
pub open spec fn named_value(
    frame: Frame,
    st: State,
    origin: Option<Origin>,
    orig: IdentView,
) -> NodeView {
    match origin {
        Some(o) => member_view(ident_view(o.local), orig),
        None => fold_name(frame.env(st), orig),
    }
}

/// `orig as name`, in an export: what is the module's own is exported by its value,
/// what comes from another module by a getter.
pub open spec fn read_named(
    frame: Frame,
    st: State,
    origin: Option<Origin>,
    orig: IdentView,
    name: IdentView,
) -> Step {
    let state = with_named(st, origin, orig, name);
    let value = named_value(frame, state, origin, orig);
    Step {
        state,
        out: if value.form == Form::Ident {
            OutputView {
                header: Seq::empty(),
                body: seq![frame.export(name, value)],
                names: seq![name.sym],
            }
        } else {
            OutputView {
                header: seq![getter_view(frame.exports, name, value)],
                body: Seq::empty(),
                names: Seq::empty(),
            }
        },
    }
}

/// The specifiers of an export.
pub open spec fn read_specifiers(
    frame: Frame,
    st: State,
    origin: Option<Origin>,
    list: Seq<ExportSpecifierView>,
) -> Step
    decreases list.len(),
{
    if list.len() == 0 {
        Step { state: st, out: OutputView::empty() }
    } else {
        let step = read_specifiers(frame, st, origin, list.drop_last());
        match list.last() {
            ExportSpecifierView::Named { orig, exported } => {
                let name = match exported {
                    Some(name) => name,
                    None => orig,
                };
                let next = read_named(frame, step.state, origin, orig, name);
                Step { state: next.state, out: step.out.then_also(next.out) }
            },
            _ => step,
        }
    }
}

/// `export { a };`, `export { a } from 'b';`
pub open spec fn read_export_named(frame: Frame, st: State, d: NamedExportView) -> Step {
    match d.src {
        Some(src) => {
            let state = with_export_from(frame.pool, st, src.value, d.specifiers.len() > 0);
            let origin = if d.specifiers.len() > 0 {
                Some(
                    Origin {
                        src: src.value,
                        local: local_of(state.scope.imports, src.value)->Some_0,
                    },
                )
            } else {
                None
            };
            read_specifiers(frame, state, origin, d.specifiers)
        },
        None => read_specifiers(frame, st, None, d.specifiers),
    }
}

/// An item that leaves nothing behind.
pub open spec fn read_nothing(st: State) -> Step {
    Step { state: st, out: OutputView::empty() }
}

/// One item of a module.
pub open spec fn read_item(frame: Frame, st: State, item: ModuleItemView) -> Step {
    match item {
        ModuleItemView::Stmt(s) => read_decl(frame, st, s),
        ModuleItemView::ModuleDecl(d) => match d {
            ModuleDeclView::Import(d) => read_nothing(with_import(frame.pool, st, d)),
            ModuleDeclView::ExportAll(src) => read_nothing(
                State {
                    scope: ScopeView {
                        import_types: widened(st.scope.import_types, src.value),
                        ..st.scope
                    },
                    used: st.used,
                },
            ),
            ModuleDeclView::ExportDecl(d) => match d {
                DeclView::Class { ident, declare, class } => read_class(
                    frame,
                    st,
                    ident,
                    class_decl_view(ident, declare, class),
                ),
                DeclView::Fn { ident, declare, function } => read_fn(
                    frame,
                    st,
                    ident,
                    fn_decl_view(ident, declare, function),
                ),
                DeclView::Var(var) => read_var(frame, st, var),
                DeclView::Ts => read_nothing(st),
            },
            ModuleDeclView::ExportDefaultDecl(d) => match d {
                DefaultDeclView::Class { ident, class } => read_default_class(
                    frame,
                    st,
                    ident,
                    class,
                ),
                DefaultDeclView::Fn { ident, function } => read_default_fn(
                    frame,
                    st,
                    ident,
                    function,
                ),
                DefaultDeclView::TsInterfaceDecl => read_nothing(st),
            },
            ModuleDeclView::ExportDefaultExpr(e) => read_default_expr(frame, st, e),
            ModuleDeclView::ExportNamed(d) => read_export_named(frame, st, d),
            ModuleDeclView::Ts => read_nothing(st),
        },
    }
}

/// The items of a module, one after the other.
pub open spec fn read_items(frame: Frame, st: State, items: Seq<ModuleItemView>) -> Step
    decreases items.len(),
{
    if items.len() == 0 {
        read_nothing(st)
    } else {
        let step = read_items(frame, st, items.drop_last());
        let next = read_item(frame, step.state, items.last());
        Step { state: next.state, out: step.out.then_also(next.out) }
    }
}

/// Whether an item exports something.
pub open spec fn is_export(item: ModuleItemView) -> bool {
    match item {
        ModuleItemView::ModuleDecl(d) => !(d is Import) && !(d is Ts),
        ModuleItemView::Stmt(_) => false,
    }
}

/// Whether a module exports something.
pub open spec fn has_export(items: Seq<ModuleItemView>) -> bool {
    exists|i: int| 0 <= i < items.len() && is_export(#[trigger] items[i])
}

/// The modules that are exported as a whole, in order.
pub open spec fn export_alls(items: Seq<ModuleItemView>) -> Seq<Seq<char>>
    decreases items.len(),
{
    if items.len() == 0 {
        Seq::empty()
    } else {
        let before = export_alls(items.drop_last());
        match items.last() {
            ModuleItemView::ModuleDecl(ModuleDeclView::ExportAll(src)) => before.push(src.value),
            _ => before,
        }
    }
}

/// Whether an item is one that the pass reads: `export a from` and `export * as a from`
/// have to be gone.
pub open spec fn is_plain(item: ModuleItemView) -> bool {
    match item {
        ModuleItemView::ModuleDecl(ModuleDeclView::ExportNamed(d)) => forall|i: int|
            0 <= i < d.specifiers.len() ==> (#[trigger] d.specifiers[i]) is Named,
        _ => true,
    }
}

/// Whether the items of a module are ones that the pass reads.
pub open spec fn all_plain(items: Seq<ModuleItemView>) -> bool {
    forall|i: int| 0 <= i < items.len() ==> is_plain(#[trigger] items[i])
}

} // verus!
