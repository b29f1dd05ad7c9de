//! The pass on the code inside a module.

use vstd::prelude::*;

use crate::amd::Amd;
use crate::ast::{BinaryOp, Expr, Form, Ident, Node, Span, UnaryOp, UpdateOp, VarDeclKind};
use crate::bindings::{find_idents, find_idents_in_all, idents_in, idents_in_all};
use crate::emit::{
    append, assign, assign_export, bare, binary, binding, branch, dummy_sp, ident_expr,
    key_value, none, num_expr, one, push, two, undefined,
};
use crate::folding::{
    Env, bumped, chained, declared_in, declared_in_all, detached, echoed, echoes, fold_all,
    fold_shorthand, fold_tree, is_nested,
};
use crate::model::{NodeView, lemma_kids, nodes_view};
use crate::scope::{Id, IdView, id_of, idents_view, ids_of, ids_view, to_id};

verus! {

impl Amd {
    /// What folding a tree depends on.
    pub open spec fn env(self) -> Env {
        Env {
            idents: self.scope@.idents,
            imports: self.scope@.imports,
            exported_vars: self.scope@.exported_vars,
            exports: self.exports@,
        }
    }

    /// Whether `after` differs from this pass in nothing but the variables `more`, which
    /// it has seen declared since.
    pub open spec fn grown(self, after: Amd, more: Seq<IdView>) -> bool {
        &&& after.config == self.config
        &&& after.in_top_level == self.in_top_level
        &&& after.exports == self.exports
        &&& after.helpers == self.helpers
        &&& after.scope.imports == self.scope.imports
        &&& after.scope.import_types == self.scope.import_types
        &&& after.scope.idents == self.scope.idents
        &&& after.scope.exported_vars == self.scope.exported_vars
        &&& ids_view(after.scope.declared_vars@) == ids_view(self.scope.declared_vars@) + more
    }
}

/// What is noted in two steps is noted in order.
proof fn lemma_grown(a: Amd, b: Amd, c: Amd, first: Seq<IdView>, second: Seq<IdView>)
    requires
        a.grown(b, first),
        b.grown(c, second),
    ensures
        a.grown(c, first + second),
{
    assert(ids_view(c.scope.declared_vars@) =~= ids_view(a.scope.declared_vars@) + (first
        + second));
}

/// Whether `this` has a meaning of its own inside such a node.
fn nested(form: Form) -> (yes: bool)
    ensures
        yes == is_nested(form),
{
    match form {
        Form::Function { .. }
        | Form::Constructor
        | Form::Getter
        | Form::Setter
        | Form::ClassProp { .. } => true,
        _ => false,
    }
}

/// A callee that is not called as a method.
fn detach(callee: Expr) -> (e: Expr)
    ensures
        e@ == detached(callee@),
{
    match callee.form {
        Form::Member { .. } => branch(dummy_sp(), Form::Sequence, two(num_expr("0"), callee)),
        _ => callee,
    }
}

/// `e`, assigned to each of the given exports in turn.
pub(crate) fn chain_assign(exports: &Ident, names: &Vec<Id>, e: Expr) -> (chain: Expr)
    ensures
        chain@ == chained(exports@, ids_view(names@), e@),
{
    let ghost ids = ids_view(names@);
    let ghost first = e@;
    let mut chain: Expr = e;
    let mut i: usize = 0;
    while i < names.len()
        invariant
            i <= names@.len(),
            ids == ids_view(names@),
            chain@ == chained(exports@, ids.take(i as int), first),
        decreases names@.len() - i,
    {
        assert(ids.take(i + 1).drop_last() =~= ids.take(i as int));
        assert(ids.take(i + 1).last() == names@[i as int]@);
        let span: Span = Span { lo: 0, hi: 0, ctxt: names[i].ctxt };
        chain = assign_export(exports, Ident { sym: names[i].sym.clone(), span }, chain);
        i += 1;
    }
    assert(ids.take(i as int) =~= ids);
    chain
}

/// `name = +name + 1`, or with `-` for the last sign.
fn bump(name: Ident, op: UpdateOp) -> (e: Expr)
    ensures
        e@ == bumped(name@, op),
{
    let op: BinaryOp = match op {
        UpdateOp::PlusPlus => BinaryOp::Plus,
        UpdateOp::MinusMinus => BinaryOp::Minus,
    };
    let value: Expr = branch(
        dummy_sp(),
        Form::Unary(UnaryOp::Plus),
        one(ident_expr(name.clone())),
    );
    assign(binding(name), binary(op, value, num_expr("1")))
}

impl Amd {
    /// The exports of a variable.
    fn exports_of(&self, name: &Ident) -> (names: Option<&Vec<Id>>)
        requires
            self.scope.wf(),
        ensures
            match names {
                Some(v) => {
                    &&& self.scope@.exported_vars.contains_key(id_of(name@))
                    &&& self.scope@.exported_vars[id_of(name@)] == ids_view(v@)
                },
                None => !self.scope@.exported_vars.contains_key(id_of(name@)),
            },
    {
        let id: Id = to_id(name);
        self.scope.exported_vars.get(&id)
    }

    /// Notes variables.
    pub fn declare_idents(&mut self, found: &Vec<Ident>)
        ensures
            old(self).grown(*final(self), ids_of(idents_view(found@))),
    {
        let ghost all = idents_view(found@);
        let mut i: usize = 0;
        assert(ids_of(all.take(0)) =~= Seq::empty());
        while i < found.len()
            invariant
                i <= found@.len(),
                idents_view(found@) == all,
                old(self).grown(*self, ids_of(all.take(i as int))),
            decreases found@.len() - i,
        {
            let id: Id = to_id(&found[i]);
            let ghost before = self.scope.declared_vars@;
            self.scope.declared_vars.push(id);
            assert(all[i as int] == found@[i as int]@);
            assert(ids_view(self.scope.declared_vars@) =~= ids_view(before).push(id@));
            assert(ids_of(all.take(i + 1)) =~= ids_of(all.take(i as int)).push(id@));
            i += 1;
        }
        assert(all.take(i as int) =~= all);
    }

    /// Notes the variables that a list of declarators binds.
    fn declare(&mut self, decls: &Vec<Node>)
        ensures
            old(self).grown(*final(self), ids_of(idents_in_all(nodes_view(decls@)))),
    {
        let mut found: Vec<Ident> = Vec::new();
        assert(idents_view(found@) =~= Seq::empty());
        find_idents_in_all(decls, &mut found);
        assert(idents_view(found@) =~= idents_in_all(nodes_view(decls@)));
        self.declare_idents(&found);
    }

    /// Brings the exports of the variables that an assignment writes up to date.
    fn echo(
        &self,
        single: bool,
        names: Vec<Ident>,
        assignment: Expr,
        Ghost(target): Ghost<NodeView>,
    ) -> (e: Expr)
        requires
            self.scope.wf(),
            idents_view(names@) == idents_in(target),
            single == (target.form == Form::BindingIdent),
        ensures
            e@ == echoed(self.env(), target, assignment@),
    {
        let ghost all = idents_in(target);
        if single {
            assert(names@.len() == all.len());
            assert(all[0] == names@[0]@);
            return match self.exports_of(&names[0]) {
                Some(exports) => chain_assign(&self.exports, exports, assignment),
                None => assignment,
            };
        }
        let mut more: Vec<Node> = none();
        let mut i: usize = 0;
        while i < names.len()
            invariant
                i <= names@.len(),
                self.scope.wf(),
                idents_view(names@) == all,
                nodes_view(more@) == echoes(self.env(), all.take(i as int)),
            decreases names@.len() - i,
        {
            assert(all.take(i + 1).drop_last() =~= all.take(i as int));
            assert(all.take(i + 1).last() == names@[i as int]@);
            let name: Ident = names[i].clone();
            if let Some(exports) = self.exports_of(&name) {
                push(&mut more, chain_assign(&self.exports, exports, ident_expr(name)));
            }
            i += 1;
        }
        assert(all.take(i as int) =~= all);
        assert(nodes_view(more@).len() == more@.len());
        if more.len() == 0 {
            assignment
        } else {
            let mut exprs: Vec<Expr> = one(assignment);
            append(&mut exprs, more);
            branch(dummy_sp(), Form::Sequence, exprs)
        }
    }

    /// Folds a member of an object literal that is both key and value.
    pub fn fold_shorthand_prop(&self, prop: Node) -> (folded: Node)
        requires
            self.scope.wf(),
        ensures
            folded@ == fold_shorthand(self.env(), prop@),
    {
        let key: Ident = Ident { sym: prop.text.clone(), span: prop.span };
        match self.scope.fold_ident(key.clone()) {
            Ok(value) => key_value(key, value),
            Err(_) => prop,
        }
    }

    /// Folds a declaration of variables and notes those that are not constant.
    pub fn fold_var_decl(&mut self, var: Node) -> (folded: Node)
        requires
            old(self).scope.wf(),
            var.form is VarDecl,
        ensures
            folded@ == fold_tree(old(self).env(), old(self).in_top_level, var@),
            old(self).grown(*final(self), declared_in(var@)),
        decreases var, 0int,
    {
        proof {
            lemma_kids(var);
        }
        let constant: bool = match var.form {
            Form::VarDecl { kind: VarDeclKind::Const, .. } => true,
            _ => false,
        };
        if !constant {
            self.declare(&var.kids);
        }
        let ghost between = *self;
        let kids: Vec<Node> = self.fold_nodes(var.kids);
        proof {
            if !constant {
                lemma_grown(
                    *old(self),
                    between,
                    *self,
                    ids_of(idents_in_all(var@.kids)),
                    declared_in_all(var@.kids),
                );
            }
        }
        Node { span: var.span, form: var.form, text: var.text, kids }
    }

    /// Folds an expression, or any tree whose root is no declaration of variables.
    pub fn fold_expr(&mut self, expr: Node) -> (folded: Node)
        requires
            old(self).scope.wf(),
            !(expr.form is VarDecl),
        ensures
            folded@ == fold_tree(old(self).env(), old(self).in_top_level, expr@),
            old(self).grown(*final(self), declared_in(expr@)),
        decreases expr, 0int,
    {
        let ghost e = expr@;
        proof {
            lemma_kids(expr);
        }
        assert(ids_view(self.scope.declared_vars@) + Seq::<IdView>::empty() =~= ids_view(
            self.scope.declared_vars@,
        ));
        match expr.form {
            Form::This => if self.in_top_level {
                undefined(expr.span)
            } else {
                expr
            },
            Form::Ident => {
                let name: Ident = Ident { sym: expr.text.clone(), span: expr.span };
                match self.scope.fold_ident(name) {
                    Ok(value) => value,
                    Err(_) => expr,
                }
            },
            Form::Shorthand => self.fold_shorthand_prop(expr),
            Form::Update { op, .. } if expr.kids.len() == 1 && expr.kids[0].form == Form::Ident => {
                assert(declared_in_all(e.kids) =~= Seq::empty()) by {
                    reveal_with_fuel(declared_in_all, 3);
                    assert(e.kids.last().form == Form::Ident);
                }
                let name: Ident = Ident { sym: expr.kids[0].text.clone(), span: expr.kids[0].span };
                match self.exports_of(&name) {
                    Some(exports) => chain_assign(&self.exports, exports, bump(name, op)),
                    None => expr,
                }
            },
            Form::Call if expr.kids.len() > 0 && expr.kids[0].form == Form::Ident => {
                let mut kids: Vec<Node> = self.fold_nodes(expr.kids);
                let ghost before = nodes_view(kids@);
                assert(before.len() == kids@.len());
                let args: Vec<Node> = kids.split_off(1);
                match kids.pop() {
                    Some(callee) => {
                        let mut all: Vec<Node> = one(detach(callee));
                        append(&mut all, args);
                        assert(nodes_view(all@) =~= before.update(0, detached(before[0])));
                        Node { span: expr.span, form: expr.form, text: expr.text, kids: all }
                    },
                    None => {
                        assert(false);
                        bare(Form::Invalid)
                    },
                }
            },
            Form::Assign(_) if expr.kids.len() > 0 => {
                let single: bool = expr.kids[0].form == Form::BindingIdent;
                let mut names: Vec<Ident> = Vec::new();
                assert(idents_view(names@) =~= Seq::empty());
                find_idents(&expr.kids[0], &mut names);
                assert(idents_view(names@) =~= idents_in(e.kids[0]));
                let kids: Vec<Node> = self.fold_nested(expr.form, expr.kids);
                let assignment: Expr = Node {
                    span: expr.span,
                    form: expr.form,
                    text: expr.text,
                    kids,
                };
                self.echo(single, names, assignment, Ghost(e.kids[0]))
            },
            _ => {
                let kids: Vec<Node> = self.fold_nested(expr.form, expr.kids);
                Node { span: expr.span, form: expr.form, text: expr.text, kids }
            },
        }
    }

    /// Folds the kids of a node.
    fn fold_nested(&mut self, form: Form, kids: Vec<Node>) -> (folded: Vec<Node>)
        requires
            old(self).scope.wf(),
        ensures
            nodes_view(folded@) == fold_all(
                old(self).env(),
                old(self).in_top_level && !is_nested(form),
                nodes_view(kids@),
            ),
            old(self).grown(*final(self), declared_in_all(nodes_view(kids@))),
        decreases kids, 1int,
    {
        let top: bool = self.in_top_level;
        if nested(form) {
            self.in_top_level = false;
        }
        let folded: Vec<Node> = self.fold_nodes(kids);
        self.in_top_level = top;
        folded
    }

    /// Folds each tree of a list.
    pub fn fold_nodes(&mut self, list: Vec<Node>) -> (folded: Vec<Node>)
        requires
            old(self).scope.wf(),
        ensures
            nodes_view(folded@) == fold_all(
                old(self).env(),
                old(self).in_top_level,
                nodes_view(list@),
            ),
            old(self).grown(*final(self), declared_in_all(nodes_view(list@))),
        decreases list, 0int,
    {
        let ghost nodes = nodes_view(list@);
        let ghost env = self.env();
        let ghost top = self.in_top_level;
        let mut folded: Vec<Node> = none();
        assert(fold_all(env, top, nodes.take(0)) =~= Seq::empty());
        for n in it: list
            invariant
                it.seq() == list@,
                nodes == nodes_view(list@),
                env == old(self).env(),
                top == old(self).in_top_level,
                old(self).scope.wf(),
                old(self).grown(*self, declared_in_all(nodes.take(it.index()))),
                nodes_view(folded@) == fold_all(env, top, nodes.take(it.index())),
        {
            let ghost i = it.index();
            assert(nodes.take(i + 1).drop_last() =~= nodes.take(i));
            assert(nodes.take(i + 1).last() == n@);
            assert(self.env() == env);
            let ghost before = *self;
            let f: Node = self.fold_node(n);
            push(&mut folded, f);
            proof {
                lemma_grown(
                    *old(self),
                    before,
                    *self,
                    declared_in_all(nodes.take(i)),
                    declared_in(n@),
                );
            }
            assert(fold_all(env, top, nodes.take(i + 1)) =~= fold_all(
                env,
                top,
                nodes.take(i),
            ).push(f@));
        }
        assert(nodes.take(nodes.len() as int) =~= nodes);
        folded
    }

    /// Folds a tree.
    pub fn fold_node(&mut self, n: Node) -> (folded: Node)
        requires
            old(self).scope.wf(),
        ensures
            folded@ == fold_tree(old(self).env(), old(self).in_top_level, n@),
            old(self).grown(*final(self), declared_in(n@)),
        decreases n, 1int,
    {
        match n.form {
            Form::VarDecl { .. } => self.fold_var_decl(n),
            _ => self.fold_expr(n),
        }
    }
}

} // verus!
