//! What the pass makes of the code inside a module, as a function of trees.

use vstd::prelude::*;

use crate::ast::{BinaryOp, Form, UnaryOp, UpdateOp, VarDeclKind};
use crate::bindings::{idents_in, idents_in_all};
use crate::emit::{
    assign_export_view, assign_view, binary_view, binding_view, branch_view, ident_in,
    ident_view, key_value_view, name_in, no_span, num_view, undefined_view,
};
use crate::model::{IdentView, NodeView};
use crate::scope::{BindingView, IdView, ImportView, id_of, ids_of, resolve};

verus! {

/// What folding a tree depends on.
pub struct Env {
    /// What the imported names stand for.
    pub idents: Map<IdView, BindingView>,
    /// The imported modules.
    pub imports: Seq<ImportView>,
    /// The names under which each variable is exported.
    pub exported_vars: Map<IdView, Seq<IdView>>,
    /// The name of the export object.
    pub exports: IdentView,
}

/// What becomes of a name in value position: an imported name gives way to the
/// property of its module.
pub open spec fn fold_name(env: Env, name: IdentView) -> NodeView {
    match resolve(env.idents, env.imports, name) {
        Some(e) => e,
        None => ident_view(name),
    }
}

/// A callee that is not called as a method: `a.b` becomes `0, a.b`.
pub open spec fn detached(callee: NodeView) -> NodeView {
    if callee.form is Member {
        branch_view(no_span(), Form::Sequence, seq![num_view("0"@), callee])
    } else {
        callee
    }
}

/// `e`, assigned to each of the given exports in turn: `exports.b = exports.a = e`.
pub open spec fn chained(exports: IdentView, names: Seq<IdView>, e: NodeView) -> NodeView
    decreases names.len(),
{
    if names.len() == 0 {
        e
    } else {
        let last = names.last();
        assign_export_view(
            exports,
            name_in(last.sym, last.ctxt),
            chained(exports, names.drop_last(), e),
        )
    }
}

/// `name = +name + 1`, or with `-` for the last sign.
pub open spec fn bumped(name: IdentView, op: UpdateOp) -> NodeView {
    assign_view(
        binding_view(name),
        binary_view(
            match op {
                UpdateOp::PlusPlus => BinaryOp::Plus,
                UpdateOp::MinusMinus => BinaryOp::Minus,
            },
            branch_view(no_span(), Form::Unary(UnaryOp::Plus), seq![ident_view(name)]),
            num_view("1"@),
        ),
    )
}

/// For each of `names` that is exported, in order, an assignment that brings its
/// exports up to date.
pub open spec fn echoes(env: Env, names: Seq<IdentView>) -> Seq<NodeView>
    decreases names.len(),
{
    if names.len() == 0 {
        Seq::empty()
    } else {
        let before = echoes(env, names.drop_last());
        let name = names.last();
        if env.exported_vars.contains_key(id_of(name)) {
            before.push(chained(env.exports, env.exported_vars[id_of(name)], ident_view(name)))
        } else {
            before
        }
    }
}

/// What becomes of an assignment whose parts are folded: the exports of the variables
/// that it writes follow it.
pub open spec fn echoed(env: Env, target: NodeView, assignment: NodeView) -> NodeView {
    let names = idents_in(target);
    if target.form == Form::BindingIdent {
        if env.exported_vars.contains_key(id_of(names[0])) {
            chained(env.exports, env.exported_vars[id_of(names[0])], assignment)
        } else {
            assignment
        }
    } else if echoes(env, names).len() == 0 {
        assignment
    } else {
        branch_view(no_span(), Form::Sequence, seq![assignment] + echoes(env, names))
    }
}

/// What becomes of `a++` and `a--` where `a` is exported.
pub open spec fn fold_update(env: Env, n: NodeView, name: IdentView, op: UpdateOp) -> NodeView {
    if env.exported_vars.contains_key(id_of(name)) {
        chained(env.exports, env.exported_vars[id_of(name)], bumped(name, op))
    } else {
        n
    }
}

/// What becomes of `{ a }`: an imported name takes a value of its own.
pub open spec fn fold_shorthand(env: Env, n: NodeView) -> NodeView {
    match resolve(env.idents, env.imports, ident_in(n)) {
        Some(value) => key_value_view(ident_in(n), value),
        None => n,
    }
}

/// Whether `this` has a meaning of its own inside such a node.
pub open spec fn is_nested(form: Form) -> bool {
    match form {
        Form::Function { .. }
        | Form::Constructor
        | Form::Getter
        | Form::Setter
        | Form::ClassProp { .. } => true,
        _ => false,
    }
}

/// What becomes of a tree. `top` says whether `this` in it is that of the module.
pub open spec fn fold_tree(env: Env, top: bool, n: NodeView) -> NodeView
    decreases n,
{
    let kids = fold_all(env, top && !is_nested(n.form), n.kids);
    let folded = NodeView { kids, ..n };
    match n.form {
        Form::This => if top {
            undefined_view(n.span)
        } else {
            n
        },
        Form::Ident => match resolve(env.idents, env.imports, ident_in(n)) {
            Some(e) => e,
            None => n,
        },
        Form::Shorthand => fold_shorthand(env, n),
        Form::Call => if n.kids.len() > 0 && n.kids[0].form == Form::Ident {
            NodeView { kids: kids.update(0, detached(kids[0])), ..n }
        } else {
            folded
        },
        Form::Update { op, .. } => if n.kids.len() == 1 && n.kids[0].form == Form::Ident {
            fold_update(env, n, ident_in(n.kids[0]), op)
        } else {
            folded
        },
        Form::Assign(_) => if n.kids.len() > 0 {
            echoed(env, n.kids[0], folded)
        } else {
            folded
        },
        _ => folded,
    }
}

/// What becomes of each tree of a list.
pub open spec fn fold_all(env: Env, top: bool, list: Seq<NodeView>) -> Seq<NodeView>
    decreases list,
{
    Seq::new(
        list.len(),
        |i: int|
            if 0 <= i < list.len() {
                fold_tree(env, top, list[i])
            } else {
                arbitrary()
            },
    )
}

/// The variables that a tree declares, except by `const`, in the order in which they
/// are met; those of a declaration come before those inside it.
pub open spec fn declared_in(n: NodeView) -> Seq<IdView>
    decreases n,
{
    match n.form {
        Form::This | Form::Ident | Form::Shorthand => Seq::empty(),
        Form::VarDecl { kind, .. } => if kind == VarDeclKind::Const {
            declared_in_all(n.kids)
        } else {
            ids_of(idents_in_all(n.kids)) + declared_in_all(n.kids)
        },
        _ => declared_in_all(n.kids),
    }
}

/// The variables that the trees of a list declare.
pub open spec fn declared_in_all(list: Seq<NodeView>) -> Seq<IdView>
    decreases list,
{
    if list.len() == 0 {
        Seq::empty()
    } else {
        declared_in_all(list.drop_last()) + declared_in(list.last())
    }
}

} // verus!
