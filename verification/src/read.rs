//! The pass on the items of a module.

use fxhash::FxHashSet;
use vstd::prelude::*;

use crate::amd::Amd;
use crate::ast::{
    ClassDecl, ClassExpr, Decl, DefaultDecl, ExportSpecifier, Expr, FnDecl, FnExpr, Form, Ident,
    ModuleDecl, ModuleItem, NamedExport, Node, Stmt, VarDecl,
};
use crate::bindings::{find_idents_in_all, idents_in_all};
use crate::budget::asks_at_once;
use crate::emit::{
    class_decl, class_decl_view, define_getter, export_stmt, fn_decl, fn_decl_view, ident_expr,
    ident_view, member, none, private_ident, push, quote_ident, var_decl, var_stmt,
};
use crate::folding::declared_in;
use crate::hygiene::Contexts;
use crate::imports::state_of;
use crate::items::{
    Frame, Origin, OutputView, is_plain, own_exports, read_class, read_decl, read_default_class,
    read_default_expr, read_default_fn, read_export_named, read_fn, read_item, read_named,
    read_specifiers, read_var, syms_of, with_declared, with_exports, with_named,
};
use crate::model::{export_specifiers_view, ident_opt_view, nodes_view, strings_view};
use crate::names::{insert_name, names_in, new_name_set};
use crate::scope::{Id, IdView, ScopeView, idents_view, ids_of, to_id};

verus! {

/// What the items of a module leave behind.
#[derive(Debug)]
pub struct Output {
    /// Statements that run before the body.
    pub header: Vec<Stmt>,
    /// The body.
    pub body: Vec<Stmt>,
    /// The exported names that are initialized before the body runs, as they come.
    pub names: Vec<String>,
    /// The same names, each of them once.
    pub initialized: FxHashSet<String>,
}

impl Output {
    /// The value that this output stands for.
    pub open spec fn view(self) -> OutputView {
        OutputView {
            header: nodes_view(self.header@),
            body: nodes_view(self.body@),
            names: strings_view(self.names@),
        }
    }

    /// The set holds the names of the list.
    pub open spec fn wf(self) -> bool {
        names_in(self.initialized) == self@.names.to_set()
    }

    /// Nothing.
    pub fn new() -> (out: Self)
        ensures
            out.wf(),
            out@ == OutputView::empty(),
    {
        let out: Output = Output {
            header: none(),
            body: none(),
            names: Vec::new(),
            initialized: new_name_set(),
        };
        assert(out@.names =~= Seq::empty());
        assert(out@.names.to_set() =~= Set::empty());
        out
    }

    /// Adds a statement to the header.
    fn add_header(&mut self, stmt: Stmt)
        requires
            old(self).wf(),
        ensures
            final(self).wf(),
            final(self)@ == (OutputView { header: old(self)@.header.push(stmt@), ..old(self)@ }),
    {
        push(&mut self.header, stmt);
    }

    /// Adds a statement to the body.
    fn add_body(&mut self, stmt: Stmt)
        requires
            old(self).wf(),
        ensures
            final(self).wf(),
            final(self)@ == (OutputView { body: old(self)@.body.push(stmt@), ..old(self)@ }),
    {
        push(&mut self.body, stmt);
    }

    /// Adds a name to those that are initialized.
    fn init_export(&mut self, name: String)
        requires
            old(self).wf(),
        ensures
            final(self).wf(),
            final(self)@ == (OutputView { names: old(self)@.names.push(name@), ..old(self)@ }),
    {
        let ghost before = self@.names;
        self.names.push(name.clone());
        insert_name(&mut self.initialized, name);
        assert(self@.names =~= before.push(name@));
        proof {
            before.lemma_push_to_set_commute(name@);
        }
    }
}

impl Amd {
    /// Whether `after` has the settings and the names of this pass, and stands at the
    /// top level.
    pub open spec fn settled(self, after: Amd) -> bool {
        &&& after.config == self.config
        &&& after.exports == self.exports
        &&& after.helpers == self.helpers
        &&& after.in_top_level == self.in_top_level
        &&& after.scope.wf()
    }

    /// What stays the same while the items of a module are read.
    pub open spec fn frame(self, contexts: Contexts) -> Frame {
        Frame { exports: self.exports@, pool: contexts.ids() }
    }
}

/// What a pass that has seen more variables declared knows.
proof fn lemma_declared(a: Amd, b: Amd, contexts: Contexts, more: Seq<IdView>)
    requires
        a.grown(b, more),
        a.scope.wf(),
    ensures
        a.settled(b),
        state_of(b.scope, contexts) == with_declared(state_of(a.scope, contexts), more),
{
    assert(b.scope@ == (ScopeView {
        declared_vars: a.scope@.declared_vars + more,
        ..a.scope@
    }));
}

impl Amd {
    /// Reads a statement or a declaration.
    fn read_decl(&mut self, decl: Node, contexts: &Contexts, out: &mut Output)
        requires
            old(self).scope.wf(),
            old(self).in_top_level,
            old(out).wf(),
        ensures
            old(self).settled(*final(self)),
            final(out).wf(),
            ({
                let step = read_decl(
                    old(self).frame(*contexts),
                    state_of(old(self).scope, *contexts),
                    decl@,
                );
                &&& state_of(final(self).scope, *contexts) == step.state
                &&& final(out)@ == old(out)@.then_also(step.out)
            }),
    {
        let ghost n = decl@;
        let folded: Node = self.fold_node(decl);
        proof {
            lemma_declared(*old(self), *self, *contexts, declared_in(n));
        }
        out.add_body(folded);
    }

    /// Reads an exported class.
    fn read_class(&mut self, class: ClassDecl, contexts: &Contexts, out: &mut Output)
        requires
            old(self).scope.wf(),
            old(self).in_top_level,
            old(out).wf(),
        ensures
            old(self).settled(*final(self)),
            final(out).wf(),
            ({
                let step = read_class(
                    old(self).frame(*contexts),
                    state_of(old(self).scope, *contexts),
                    class.ident@,
                    class_decl_view(class.ident@, class.declare, class.class@),
                );
                &&& state_of(final(self).scope, *contexts) == step.state
                &&& final(out)@ == old(out)@.then_also(step.out)
            }),
    {
        let ident: Ident = class.ident.clone();
        self.read_decl(class_decl(class.ident, class.declare, class.class), contexts, out);
        out.add_body(export_stmt(&self.exports, ident.clone(), ident_expr(ident)));
    }

    /// Reads an exported function.
    fn read_fn(&mut self, function: FnDecl, contexts: &Contexts, out: &mut Output)
        requires
            old(self).scope.wf(),
            old(self).in_top_level,
            old(out).wf(),
        ensures
            old(self).settled(*final(self)),
            final(out).wf(),
            ({
                let step = read_fn(
                    old(self).frame(*contexts),
                    state_of(old(self).scope, *contexts),
                    function.ident@,
                    fn_decl_view(function.ident@, function.declare, function.function@),
                );
                &&& state_of(final(self).scope, *contexts) == step.state
                &&& final(out)@ == old(out)@.then_also(step.out)
            }),
    {
        let ident: Ident = function.ident.clone();
        self.read_decl(fn_decl(function.ident, function.declare, function.function), contexts, out);
        out.add_header(export_stmt(&self.exports, ident.clone(), ident_expr(ident)));
    }

    /// Exports variables under their own names.
    fn export_own(&mut self, idents: Vec<Ident>, contexts: &Contexts, out: &mut Output)
        requires
            old(self).scope.wf(),
            old(out).wf(),
        ensures
            old(self).settled(*final(self)),
            final(out).wf(),
            final(self).scope@ == (ScopeView {
                exported_vars: with_exports(
                    old(self).scope@.exported_vars,
                    idents_view(idents@),
                ),
                ..old(self).scope@
            }),
            final(out)@ == old(out)@.then_also(
                OutputView {
                    header: Seq::empty(),
                    body: own_exports(old(self).frame(*contexts), idents_view(idents@)),
                    names: syms_of(idents_view(idents@)),
                },
            ),
    {
        let ghost all = idents_view(idents@);
        let ghost frame = self.frame(*contexts);
        let mut i: usize = 0;
        assert(own_exports(frame, all.take(0)) =~= Seq::empty());
        assert(syms_of(all.take(0)) =~= Seq::empty());
        while i < idents.len()
            invariant
                i <= idents@.len(),
                all == idents_view(idents@),
                frame == old(self).frame(*contexts),
                old(self).settled(*self),
                out.wf(),
                self.scope@ == (ScopeView {
                    exported_vars: with_exports(
                        old(self).scope@.exported_vars,
                        all.take(i as int),
                    ),
                    ..old(self).scope@
                }),
                out@ == old(out)@.then_also(
                    OutputView {
                        header: Seq::empty(),
                        body: own_exports(frame, all.take(i as int)),
                        names: syms_of(all.take(i as int)),
                    },
                ),
            decreases idents@.len() - i,
        {
            assert(all.take(i + 1).drop_last() =~= all.take(i as int));
            assert(all.take(i + 1).last() == idents@[i as int]@);
            let ident: Ident = idents[i].clone();
            self.scope.export_var(to_id(&ident), to_id(&ident));
            out.init_export(ident.sym.clone());
            out.add_body(export_stmt(&self.exports, ident.clone(), ident_expr(ident)));
            assert(own_exports(frame, all.take(i + 1)) =~= own_exports(
                frame,
                all.take(i as int),
            ).push(frame.export(ident@, ident_view(ident@))));
            assert(syms_of(all.take(i + 1)) =~= syms_of(all.take(i as int)).push(ident.sym@));
            i += 1;
        }
        assert(all.take(i as int) =~= all);
    }

    /// Reads an exported declaration of variables.
    fn read_var(&mut self, var: VarDecl, contexts: &Contexts, out: &mut Output)
        requires
            old(self).scope.wf(),
            old(self).in_top_level,
            old(out).wf(),
        ensures
            old(self).settled(*final(self)),
            final(out).wf(),
            ({
                let step = read_var(
                    old(self).frame(*contexts),
                    state_of(old(self).scope, *contexts),
                    var@,
                );
                &&& state_of(final(self).scope, *contexts) == step.state
                &&& final(out)@ == old(out)@.then_also(step.out)
            }),
    {
        let mut idents: Vec<Ident> = Vec::new();
        assert(idents_view(idents@) =~= Seq::empty());
        find_idents_in_all(&var.decls, &mut idents);
        let ghost all = idents_in_all(var@.decls);
        assert(idents_view(idents@) =~= all);
        self.read_decl(var_decl(var), contexts, out);
        let ghost between = *self;
        self.declare_idents(&idents);
        proof {
            lemma_declared(between, *self, *contexts, ids_of(all));
        }
        self.export_own(idents, contexts, out);
    }

    /// Reads a class that is exported by default.
    fn read_default_class(&mut self, class: ClassExpr, contexts: &mut Contexts, out: &mut Output)
        requires
            old(self).scope.wf(),
            old(contexts).wf(),
            old(contexts).left() > 0,
            old(out).wf(),
        ensures
            old(self).settled(*final(self)),
            final(contexts).wf(),
            final(contexts).start == old(contexts).start,
            final(out).wf(),
            ({
                let step = read_default_class(
                    old(self).frame(*old(contexts)),
                    state_of(old(self).scope, *old(contexts)),
                    ident_opt_view(class.ident),
                    class.class@,
                );
                &&& state_of(final(self).scope, *final(contexts)) == step.state
                &&& final(out)@ == old(out)@.then_also(step.out)
            }),
    {
        let ident: Ident = match class.ident {
            Some(ident) => ident,
            None => private_ident("_default".to_owned(), contexts),
        };
        out.init_export("default".to_owned());
        out.add_body(class_decl(ident.clone(), false, class.class));
        out.add_body(export_stmt(&self.exports, quote_ident("default"), ident_expr(ident)));
    }

    /// Reads a function that is exported by default.
    fn read_default_fn(&mut self, function: FnExpr, contexts: &mut Contexts, out: &mut Output)
        requires
            old(self).scope.wf(),
            old(self).in_top_level,
            old(contexts).wf(),
            old(contexts).left() > 0,
            old(out).wf(),
        ensures
            old(self).settled(*final(self)),
            final(contexts).wf(),
            final(contexts).start == old(contexts).start,
            final(out).wf(),
            ({
                let step = read_default_fn(
                    old(self).frame(*old(contexts)),
                    state_of(old(self).scope, *old(contexts)),
                    ident_opt_view(function.ident),
                    function.function@,
                );
                &&& state_of(final(self).scope, *final(contexts)) == step.state
                &&& final(out)@ == old(out)@.then_also(step.out)
            }),
    {
        let ident: Ident = match function.ident {
            Some(ident) => ident,
            None => private_ident("_default".to_owned(), contexts),
        };
        out.add_body(
            export_stmt(&self.exports, quote_ident("default"), ident_expr(ident.clone())),
        );
        self.read_decl(fn_decl(ident, false, function.function), contexts, out);
    }

    /// Reads an expression that is exported by default.
    fn read_default_expr(&mut self, expr: Expr, contexts: &mut Contexts, out: &mut Output)
        requires
            old(self).scope.wf(),
            old(self).in_top_level,
            old(contexts).wf(),
            old(contexts).left() > 0,
            old(out).wf(),
        ensures
            old(self).settled(*final(self)),
            final(contexts).wf(),
            final(contexts).start == old(contexts).start,
            final(out).wf(),
            ({
                let step = read_default_expr(
                    old(self).frame(*old(contexts)),
                    state_of(old(self).scope, *old(contexts)),
                    expr@,
                );
                &&& state_of(final(self).scope, *final(contexts)) == step.state
                &&& final(out)@ == old(out)@.then_also(step.out)
            }),
    {
        let ident: Ident = private_ident("_default".to_owned(), contexts);
        out.init_export("default".to_owned());
        let ghost n = expr@;
        let value: Expr = self.fold_node(expr);
        proof {
            lemma_declared(*old(self), *self, *contexts, declared_in(n));
        }
        out.add_body(var_stmt(ident.clone(), value));
        out.add_body(export_stmt(&self.exports, quote_ident("default"), ident_expr(ident)));
    }

    /// Reads one name of an export.
    fn read_named(
        &mut self,
        origin: &Option<(String, Ident)>,
        orig: Ident,
        name: Ident,
        contexts: &Contexts,
        out: &mut Output,
    )
        requires
            old(self).scope.wf(),
            old(out).wf(),
        ensures
            old(self).settled(*final(self)),
            final(out).wf(),
            ({
                let step = read_named(
                    old(self).frame(*contexts),
                    state_of(old(self).scope, *contexts),
                    origin_view(*origin),
                    orig@,
                    name@,
                );
                &&& state_of(final(self).scope, *contexts) == step.state
                &&& final(out)@ == old(out)@.then_also(step.out)
            }),
    {
        let id: Id = to_id(&orig);
        if self.scope.is_declared(&id) {
            self.scope.export_var(id, to_id(&name));
        }
        if let Some((src, _)) = origin {
            if orig.sym == "default".to_owned() {
                self.scope.use_default(src);
            }
        }
        let value: Expr = match origin {
            Some((_, local)) => member(ident_expr(local.clone()), orig),
            None => match self.scope.fold_ident(orig) {
                Ok(value) => value,
                Err(orig) => ident_expr(orig),
            },
        };
        assert(state_of(self.scope, *contexts) == with_named(
            state_of(old(self).scope, *contexts),
            origin_view(*origin),
            orig@,
            name@,
        ));
        if value.form == Form::Ident {
            out.init_export(name.sym.clone());
            out.add_body(export_stmt(&self.exports, name, value));
        } else {
            out.add_header(define_getter(self.exports.clone(), name, value));
        }
    }

    /// Reads the names of an export.
    fn read_specifiers(
        &mut self,
        origin: &Option<(String, Ident)>,
        specifiers: Vec<ExportSpecifier>,
        contexts: &Contexts,
        out: &mut Output,
    )
        requires
            old(self).scope.wf(),
            old(out).wf(),
            forall|i: int|
                0 <= i < specifiers@.len() ==> (#[trigger] export_specifiers_view(
                    specifiers@,
                )[i]) is Named,
        ensures
            old(self).settled(*final(self)),
            final(out).wf(),
            ({
                let step = read_specifiers(
                    old(self).frame(*contexts),
                    state_of(old(self).scope, *contexts),
                    origin_view(*origin),
                    export_specifiers_view(specifiers@),
                );
                &&& state_of(final(self).scope, *contexts) == step.state
                &&& final(out)@ == old(out)@.then_also(step.out)
            }),
    {
        let ghost all = export_specifiers_view(specifiers@);
        let ghost frame = self.frame(*contexts);
        let ghost st = state_of(self.scope, *contexts);
        for specifier in it: specifiers
            invariant
                it.seq() == specifiers@,
                all == export_specifiers_view(specifiers@),
                forall|i: int| 0 <= i < all.len() ==> (#[trigger] all[i]) is Named,
                frame == old(self).frame(*contexts),
                old(self).settled(*self),
                out.wf(),
                state_of(self.scope, *contexts) == read_specifiers(
                    frame,
                    st,
                    origin_view(*origin),
                    all.take(it.index()),
                ).state,
                out@ == old(out)@.then_also(
                    read_specifiers(frame, st, origin_view(*origin), all.take(it.index())).out,
                ),
        {
            let ghost i = it.index();
            assert(all.take(i + 1).drop_last() =~= all.take(i));
            assert(all.take(i + 1).last() == specifier@);
            assert(all[i] is Named);
            match specifier {
                ExportSpecifier::Named(named) => {
                    let name: Ident = match named.exported {
                        Some(name) => name,
                        None => named.orig.clone(),
                    };
                    self.read_named(origin, named.orig, name, contexts, out);
                },
                _ => {
                    assert(false);
                },
            }
        }
        assert(all.take(all.len() as int) =~= all);
    }

    /// Reads an export of names.
    fn read_export_named(&mut self, export: NamedExport, contexts: &mut Contexts, out: &mut Output)
        requires
            old(self).scope.wf(),
            old(contexts).wf(),
            old(contexts).left() > 0,
            old(out).wf(),
            forall|i: int|
                0 <= i < export@.specifiers.len() ==> (#[trigger] export@.specifiers[i]) is Named,
        ensures
            old(self).settled(*final(self)),
            final(contexts).wf(),
            final(contexts).start == old(contexts).start,
            final(out).wf(),
            ({
                let step = read_export_named(
                    old(self).frame(*old(contexts)),
                    state_of(old(self).scope, *old(contexts)),
                    export@,
                );
                &&& state_of(final(self).scope, *final(contexts)) == step.state
                &&& final(out)@ == old(out)@.then_also(step.out)
            }),
    {
        assert(export@.specifiers.len() == export.specifiers@.len());
        let reads: bool = export.specifiers.len() > 0;
        let origin: Option<(String, Ident)> = match export.src {
            Some(src) => {
                match self.scope.import_to_export(&src.value, reads, contexts) {
                    Some(local) => Some((src.value, local)),
                    None => None,
                }
            },
            None => None,
        };
        self.read_specifiers(&origin, export.specifiers, contexts, out);
    }

    /// Reads an item of the module.
    pub(crate) fn read_item(&mut self, item: ModuleItem, contexts: &mut Contexts, out: &mut Output)
        requires
            old(self).scope.wf(),
            old(self).in_top_level,
            old(contexts).wf(),
            old(contexts).left() >= asks_at_once(item@),
            old(out).wf(),
            is_plain(item@),
        ensures
            old(self).settled(*final(self)),
            final(contexts).wf(),
            final(contexts).start == old(contexts).start,
            final(out).wf(),
            ({
                let step = read_item(
                    old(self).frame(*old(contexts)),
                    state_of(old(self).scope, *old(contexts)),
                    item@,
                );
                &&& state_of(final(self).scope, *final(contexts)) == step.state
                &&& final(out)@ == old(out)@.then_also(step.out)
            }),
    {
        let decl: ModuleDecl = match item {
            ModuleItem::Stmt(stmt) => {
                self.read_decl(stmt, contexts, out);
                return;
            },
            ModuleItem::ModuleDecl(decl) => decl,
        };
        assert(out@.then_also(OutputView::empty()) =~= out@);
        match decl {
            ModuleDecl::Import(import) => self.scope.insert_import(import, contexts),
            ModuleDecl::ExportAll(export) => self.scope.use_all(&export.src.value),
            ModuleDecl::ExportDecl(export) => match export.decl {
                Decl::Class(class) => self.read_class(class, contexts, out),
                Decl::Fn(function) => self.read_fn(function, contexts, out),
                Decl::Var(var) => self.read_var(var, contexts, out),
                _ => {},
            },
            ModuleDecl::ExportDefaultDecl(export) => match export.decl {
                DefaultDecl::Class(class) => self.read_default_class(class, contexts, out),
                DefaultDecl::Fn(function) => self.read_default_fn(function, contexts, out),
                DefaultDecl::TsInterfaceDecl(_) => {},
            },
            ModuleDecl::ExportDefaultExpr(export) => {
                self.read_default_expr(export.expr, contexts, out)
            },
            ModuleDecl::ExportNamed(export) => self.read_export_named(export, contexts, out),
            _ => {},
        }
    }
}

/// The value of a module that an export reads from.
pub open spec fn origin_view(origin: Option<(String, Ident)>) -> Option<Origin> {
    match origin {
        Some(o) => Some(Origin { src: o.0@, local: o.1@ }),
        None => None,
    }
}

} // verus!
