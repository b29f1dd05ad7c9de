//! The code that the pass writes: each builder with the tree that it gives.

use vstd::prelude::*;

use crate::ast::{
    AssignOp, BinaryOp, Expr, Form, Ident, ModuleItem, Node, Pat, Span, Stmt, UnaryOp, VarDecl,
    VarDeclKind,
};
use crate::hygiene::Contexts;
use crate::model::{
    IdentView, ModuleItemView, NodeView, VarDeclView, items_view, lemma_kids, nodes_view,
};

verus! {

// ---------------------------------------------------------------------------
// Spans and names
// ---------------------------------------------------------------------------

/// The span of what has no place in the source, in a given context.
pub open spec fn span_in(ctxt: u32) -> Span {
    Span { lo: 0, hi: 0, ctxt }
}

/// The span of what has no place in the source.
pub open spec fn no_span() -> Span {
    span_in(0)
}

/// The span of what has no place in the source.
pub fn dummy_sp() -> (span: Span)
    ensures
        span == no_span(),
{
    Span { lo: 0, hi: 0, ctxt: 0 }
}

/// A name in a given context.
pub open spec fn name_in(sym: Seq<char>, ctxt: u32) -> IdentView {
    IdentView { sym, span: span_in(ctxt) }
}

/// A name in the empty context.
pub open spec fn plain_name(sym: Seq<char>) -> IdentView {
    name_in(sym, 0)
}

/// A name in the empty context.
pub fn quote_ident(sym: &str) -> (ident: Ident)
    ensures
        ident@ == plain_name(sym@),
{
    Ident { sym: sym.to_owned(), span: dummy_sp() }
}

/// A name in the next of the given contexts.
pub fn private_ident(sym: String, contexts: &mut Contexts) -> (ident: Ident)
    requires
        old(contexts).wf(),
        old(contexts).left() > 0,
    ensures
        ident@ == name_in(sym@, old(contexts).ids()[old(contexts).used as int]),
        final(contexts).wf(),
        final(contexts).start == old(contexts).start,
        final(contexts).used == old(contexts).used + 1,
{
    let ctxt: u32 = contexts.next();
    Ident { sym, span: Span { lo: 0, hi: 0, ctxt } }
}

// ---------------------------------------------------------------------------
// Nodes
// ---------------------------------------------------------------------------

/// A node with kids and no text.
pub open spec fn branch_view(span: Span, form: Form, kids: Seq<NodeView>) -> NodeView {
    NodeView { span, form, text: Seq::empty(), kids }
}

/// A node with kids and no text.
pub fn branch(span: Span, form: Form, kids: Vec<Node>) -> (node: Node)
    ensures
        node@ == branch_view(span, form, nodes_view(kids@)),
{
    Node { span, form, text: String::new(), kids }
}

/// A node with text and no kids.
pub open spec fn leaf_view(span: Span, form: Form, text: Seq<char>) -> NodeView {
    NodeView { span, form, text, kids: Seq::empty() }
}

/// A node with text and no kids.
pub fn leaf(span: Span, form: Form, text: String) -> (node: Node)
    ensures
        node@ == leaf_view(span, form, text@),
{
    let kids: Vec<Node> = Vec::new();
    assert(nodes_view(kids@) =~= Seq::empty());
    Node { span, form, text, kids }
}

/// A node without place, text or kids.
pub open spec fn bare_view(form: Form) -> NodeView {
    leaf_view(no_span(), form, Seq::empty())
}

/// A node without place, text or kids.
pub fn bare(form: Form) -> (node: Node)
    ensures
        node@ == bare_view(form),
{
    leaf(dummy_sp(), form, String::new())
}

/// No node.
pub fn none() -> (list: Vec<Node>)
    ensures
        nodes_view(list@) == Seq::<NodeView>::empty(),
{
    let list: Vec<Node> = Vec::new();
    assert(nodes_view(list@) =~= Seq::empty());
    list
}

/// Adds a node to a list.
pub fn push(list: &mut Vec<Node>, node: Node)
    ensures
        nodes_view(final(list)@) == nodes_view(old(list)@).push(node@),
{
    list.push(node);
    assert(nodes_view(list@) =~= nodes_view(old(list)@).push(node@));
}

/// A list of one node.
pub fn one(a: Node) -> (list: Vec<Node>)
    ensures
        nodes_view(list@) == seq![a@],
{
    let mut list: Vec<Node> = none();
    push(&mut list, a);
    list
}

/// A list of two nodes.
pub fn two(a: Node, b: Node) -> (list: Vec<Node>)
    ensures
        nodes_view(list@) == seq![a@, b@],
{
    let mut list: Vec<Node> = one(a);
    push(&mut list, b);
    list
}

/// A list of three nodes.
pub fn three(a: Node, b: Node, c: Node) -> (list: Vec<Node>)
    ensures
        nodes_view(list@) == seq![a@, b@, c@],
{
    let mut list: Vec<Node> = two(a, b);
    push(&mut list, c);
    list
}

/// Adds the nodes of `more` behind those of `list`.
pub fn append(list: &mut Vec<Node>, more: Vec<Node>)
    ensures
        nodes_view(final(list)@) == nodes_view(old(list)@) + nodes_view(more@),
{
    let mut more: Vec<Node> = more;
    let ghost tail = more@;
    list.append(&mut more);
    assert(nodes_view(list@) =~= nodes_view(old(list)@) + nodes_view(tail));
}

// ---------------------------------------------------------------------------
// Names and literals
// ---------------------------------------------------------------------------

/// A name as a value.
pub open spec fn ident_view(name: IdentView) -> NodeView {
    leaf_view(name.span, Form::Ident, name.sym)
}

/// A name as a value.
pub fn ident_expr(name: Ident) -> (e: Expr)
    ensures
        e@ == ident_view(name@),
{
    leaf(name.span, Form::Ident, name.sym)
}

/// A name that is bound.
pub open spec fn binding_view(name: IdentView) -> NodeView {
    leaf_view(name.span, Form::BindingIdent, name.sym)
}

/// A name that is bound.
pub fn binding(name: Ident) -> (p: Pat)
    ensures
        p@ == binding_view(name@),
{
    leaf(name.span, Form::BindingIdent, name.sym)
}

/// The name of a property.
pub open spec fn prop_name_view(name: IdentView) -> NodeView {
    leaf_view(name.span, Form::Name, name.sym)
}

/// The name of a property.
pub fn prop_name(name: Ident) -> (n: Node)
    ensures
        n@ == prop_name_view(name@),
{
    leaf(name.span, Form::Name, name.sym)
}

/// The identifier that a leaf spells.
pub open spec fn ident_in(n: NodeView) -> IdentView {
    IdentView { sym: n.text, span: n.span }
}

/// `"value"`
pub open spec fn str_view(span: Span, value: Seq<char>) -> NodeView {
    leaf_view(span, Form::Str, value)
}

/// `"value"`
pub fn str_expr(span: Span, value: String) -> (e: Expr)
    ensures
        e@ == str_view(span, value@),
{
    leaf(span, Form::Str, value)
}

/// `"value"`, with no place in the source
pub fn quote_str(value: &str) -> (e: Expr)
    ensures
        e@ == str_view(no_span(), value@),
{
    str_expr(dummy_sp(), value.to_owned())
}

/// A number, as written.
pub open spec fn num_view(raw: Seq<char>) -> NodeView {
    leaf_view(no_span(), Form::Num, raw)
}

/// A number, as written.
pub fn num_expr(raw: &str) -> (e: Expr)
    ensures
        e@ == num_view(raw@),
{
    leaf(dummy_sp(), Form::Num, raw.to_owned())
}

// ---------------------------------------------------------------------------
// Expressions
// ---------------------------------------------------------------------------

/// `obj.prop`
pub open spec fn member_view(obj: NodeView, prop: IdentView) -> NodeView {
    branch_view(no_span(), Form::Member { computed: false }, seq![obj, prop_name_view(prop)])
}

/// `obj.prop`
pub fn member(obj: Expr, prop: Ident) -> (e: Expr)
    ensures
        e@ == member_view(obj@, prop@),
{
    branch(dummy_sp(), Form::Member { computed: false }, two(obj, prop_name(prop)))
}

/// `obj[prop]`
pub open spec fn computed_member_view(obj: NodeView, prop: NodeView) -> NodeView {
    branch_view(no_span(), Form::Member { computed: true }, seq![obj, prop])
}

/// `obj[prop]`
pub fn computed_member(obj: Expr, prop: Expr) -> (e: Expr)
    ensures
        e@ == computed_member_view(obj@, prop@),
{
    branch(dummy_sp(), Form::Member { computed: true }, two(obj, prop))
}

/// `callee(args)`
pub open spec fn call_view(callee: NodeView, args: Seq<NodeView>) -> NodeView {
    branch_view(no_span(), Form::Call, seq![callee] + args)
}

/// `callee(args)`
pub fn call(callee: Expr, args: Vec<Expr>) -> (e: Expr)
    ensures
        e@ == call_view(callee@, nodes_view(args@)),
{
    let mut kids: Vec<Node> = one(callee);
    append(&mut kids, args);
    branch(dummy_sp(), Form::Call, kids)
}

/// `void 0`
pub open spec fn undefined_view(span: Span) -> NodeView {
    branch_view(span, Form::Unary(UnaryOp::Void), seq![num_view("0"@)])
}

/// `void 0`
pub fn undefined(span: Span) -> (e: Expr)
    ensures
        e@ == undefined_view(span),
{
    branch(span, Form::Unary(UnaryOp::Void), one(num_expr("0")))
}

/// `left op right`
pub open spec fn binary_view(op: BinaryOp, left: NodeView, right: NodeView) -> NodeView {
    branch_view(no_span(), Form::Binary(op), seq![left, right])
}

/// `left op right`
pub fn binary(op: BinaryOp, left: Expr, right: Expr) -> (e: Expr)
    ensures
        e@ == binary_view(op, left@, right@),
{
    branch(dummy_sp(), Form::Binary(op), two(left, right))
}

/// `left = right`
pub open spec fn assign_view(left: NodeView, right: NodeView) -> NodeView {
    branch_view(no_span(), Form::Assign(AssignOp::Assign), seq![left, right])
}

/// `left = right`
pub fn assign(left: Node, right: Expr) -> (e: Expr)
    ensures
        e@ == assign_view(left@, right@),
{
    branch(dummy_sp(), Form::Assign(AssignOp::Assign), two(left, right))
}

/// `exports.name = right`
pub open spec fn assign_export_view(
    exports: IdentView,
    name: IdentView,
    right: NodeView,
) -> NodeView {
    assign_view(member_view(ident_view(exports), name), right)
}

/// `exports.name = right`
pub fn assign_export(exports: &Ident, name: Ident, right: Expr) -> (e: Expr)
    ensures
        e@ == assign_export_view(exports@, name@, right@),
{
    assign(member(ident_expr(exports.clone()), name), right)
}

/// `function (params) { stmts }`
pub open spec fn function_view(params: Seq<NodeView>, stmts: Seq<NodeView>) -> NodeView {
    branch_view(
        no_span(),
        Form::FnExpr,
        seq![
            bare_view(Form::Absent),
            branch_view(
                no_span(),
                Form::Function { is_async: false, is_generator: false },
                seq![
                    branch_view(no_span(), Form::Params, params),
                    bare_view(Form::Decorators),
                    branch_view(no_span(), Form::Block, stmts),
                ],
            ),
        ],
    )
}

/// `function (params) { stmts }`
pub fn function_expr(params: Vec<Pat>, stmts: Vec<Stmt>) -> (e: Expr)
    ensures
        e@ == function_view(nodes_view(params@), nodes_view(stmts@)),
{
    let function: Node = branch(
        dummy_sp(),
        Form::Function { is_async: false, is_generator: false },
        three(
            branch(dummy_sp(), Form::Params, params),
            bare(Form::Decorators),
            branch(dummy_sp(), Form::Block, stmts),
        ),
    );
    branch(dummy_sp(), Form::FnExpr, two(bare(Form::Absent), function))
}

/// `key: value`
pub open spec fn key_value_view(key: IdentView, value: NodeView) -> NodeView {
    branch_view(no_span(), Form::KeyValue, seq![prop_name_view(key), value])
}

/// `key: value`
pub fn key_value(key: Ident, value: Expr) -> (prop: Node)
    ensures
        prop@ == key_value_view(key@, value@),
{
    branch(dummy_sp(), Form::KeyValue, two(prop_name(key), value))
}

// ---------------------------------------------------------------------------
// Statements
// ---------------------------------------------------------------------------

/// `expr;`
pub open spec fn stmt_view(expr: NodeView) -> NodeView {
    branch_view(no_span(), Form::ExprStmt, seq![expr])
}

/// `expr;`
pub fn into_stmt(expr: Expr) -> (stmt: Stmt)
    ensures
        stmt@ == stmt_view(expr@),
{
    branch(dummy_sp(), Form::ExprStmt, one(expr))
}

/// `return;` or `return value;`
pub open spec fn return_view(value: Option<NodeView>) -> NodeView {
    branch_view(
        no_span(),
        Form::Return,
        seq![
            match value {
                Some(v) => v,
                None => bare_view(Form::Absent),
            },
        ],
    )
}

/// `return;` or `return value;`
pub fn return_stmt(value: Option<Expr>) -> (stmt: Stmt)
    ensures
        stmt@ == return_view(
            match value {
                Some(v) => Some(v@),
                None => None,
            },
        ),
{
    let value: Node = match value {
        Some(v) => v,
        None => bare(Form::Absent),
    };
    branch(dummy_sp(), Form::Return, one(value))
}

/// `if (test) return;`
pub open spec fn return_if_view(test: NodeView) -> NodeView {
    branch_view(
        no_span(),
        Form::If,
        seq![test, return_view(None), bare_view(Form::Absent)],
    )
}

/// `if (test) return;`
pub fn return_if(test: Expr) -> (stmt: Stmt)
    ensures
        stmt@ == return_if_view(test@),
{
    branch(dummy_sp(), Form::If, three(test, return_stmt(None), bare(Form::Absent)))
}

/// `var name = init;`
pub open spec fn var_view(name: IdentView, init: NodeView) -> NodeView {
    branch_view(
        no_span(),
        Form::VarDecl { kind: VarDeclKind::Var, declare: false },
        seq![
            branch_view(
                no_span(),
                Form::VarDeclarator { definite: false },
                seq![binding_view(name), init],
            ),
        ],
    )
}

/// `var name = init;`
pub fn var_stmt(name: Ident, init: Expr) -> (stmt: Stmt)
    ensures
        stmt@ == var_view(name@, init@),
{
    let declarator: Node = branch(
        dummy_sp(),
        Form::VarDeclarator { definite: false },
        two(binding(name), init),
    );
    branch(
        dummy_sp(),
        Form::VarDecl { kind: VarDeclKind::Var, declare: false },
        one(declarator),
    )
}

/// `class C {}` as a statement
pub open spec fn class_decl_view(ident: IdentView, declare: bool, class: NodeView) -> NodeView {
    branch_view(no_span(), Form::ClassDecl { declare }, seq![binding_view(ident), class])
}

/// `class C {}` as a statement
pub fn class_decl(ident: Ident, declare: bool, class: Node) -> (stmt: Stmt)
    ensures
        stmt@ == class_decl_view(ident@, declare, class@),
{
    branch(dummy_sp(), Form::ClassDecl { declare }, two(binding(ident), class))
}

/// `function f() {}` as a statement
pub open spec fn fn_decl_view(ident: IdentView, declare: bool, function: NodeView) -> NodeView {
    branch_view(no_span(), Form::FnDecl { declare }, seq![binding_view(ident), function])
}

/// `function f() {}` as a statement
pub fn fn_decl(ident: Ident, declare: bool, function: Node) -> (stmt: Stmt)
    ensures
        stmt@ == fn_decl_view(ident@, declare, function@),
{
    branch(dummy_sp(), Form::FnDecl { declare }, two(binding(ident), function))
}

/// `let a = b;` as a statement
pub open spec fn var_decl_view(var: VarDeclView) -> NodeView {
    branch_view(var.span, Form::VarDecl { kind: var.kind, declare: var.declare }, var.decls)
}

/// `let a = b;` as a statement
pub fn var_decl(var: VarDecl) -> (stmt: Stmt)
    ensures
        stmt@ == var_decl_view(var@),
{
    branch(var.span, Form::VarDecl { kind: var.kind, declare: var.declare }, var.decls)
}

/// `{ props }`
pub open spec fn object_view(props: Seq<NodeView>) -> NodeView {
    branch_view(no_span(), Form::Object, props)
}

/// `{ props }`
pub fn object(props: Vec<Node>) -> (e: Expr)
    ensures
        e@ == object_view(nodes_view(props@)),
{
    branch(dummy_sp(), Form::Object, props)
}

/// `Object.defineProperty(args)`
pub open spec fn define_property_view(args: Seq<NodeView>) -> NodeView {
    call_view(
        member_view(ident_view(plain_name("Object"@)), plain_name("defineProperty"@)),
        args,
    )
}

/// `Object.defineProperty(args)`
pub fn define_property(args: Vec<Expr>) -> (e: Expr)
    ensures
        e@ == define_property_view(nodes_view(args@)),
{
    call(member(ident_expr(quote_ident("Object")), quote_ident("defineProperty")), args)
}

/// `{ enumerable: true, get: function () { return value; } }`
pub open spec fn descriptor_view(value: NodeView) -> NodeView {
    object_view(
        seq![
            key_value_view(plain_name("enumerable"@), bare_view(Form::True)),
            key_value_view(
                plain_name("get"@),
                function_view(Seq::empty(), seq![return_view(Some(value))]),
            ),
        ],
    )
}

/// `{ enumerable: true, get: function () { return value; } }`
pub fn make_descriptor(value: Expr) -> (e: Expr)
    ensures
        e@ == descriptor_view(value@),
{
    let get: Expr = function_expr(none(), one(return_stmt(Some(value))));
    object(
        two(
            key_value(quote_ident("enumerable"), bare(Form::True)),
            key_value(quote_ident("get"), get),
        ),
    )
}

/// `Object.defineProperty(exports, "name", { enumerable: true, get: function () { return
/// value; } });`
pub open spec fn getter_view(exports: IdentView, name: IdentView, value: NodeView) -> NodeView {
    stmt_view(
        define_property_view(
            seq![ident_view(exports), str_view(name.span, name.sym), descriptor_view(value)],
        ),
    )
}

/// `Object.defineProperty(exports, "name", { enumerable: true, get: function () { return
/// value; } });`
pub fn define_getter(exports: Ident, name: Ident, value: Expr) -> (stmt: Stmt)
    ensures
        stmt@ == getter_view(exports@, name@, value@),
{
    let key: Expr = str_expr(name.span, name.sym);
    into_stmt(define_property(three(ident_expr(exports), key, make_descriptor(value))))
}

/// `Object.defineProperty(exports, "__esModule", { value: true });`
pub open spec fn es_module_view(exports: IdentView) -> NodeView {
    stmt_view(
        define_property_view(
            seq![
                ident_view(exports),
                str_view(no_span(), "__esModule"@),
                object_view(seq![key_value_view(plain_name("value"@), bare_view(Form::True))]),
            ],
        ),
    )
}

/// `Object.defineProperty(exports, "__esModule", { value: true });`
pub fn define_es_module(exports: Ident) -> (stmt: Stmt)
    ensures
        stmt@ == es_module_view(exports@),
{
    let props: Expr = object(one(key_value(quote_ident("value"), bare(Form::True))));
    into_stmt(define_property(three(ident_expr(exports), quote_str("__esModule"), props)))
}

/// `exports.name = value;`
pub open spec fn export_stmt_view(
    exports: IdentView,
    name: IdentView,
    value: NodeView,
) -> NodeView {
    stmt_view(assign_export_view(exports, name, value))
}

/// `exports.name = value;`
pub fn export_stmt(exports: &Ident, name: Ident, value: Expr) -> (stmt: Stmt)
    ensures
        stmt@ == export_stmt_view(exports@, name@, value@),
{
    into_stmt(assign_export(exports, name, value))
}

// ---------------------------------------------------------------------------
// Directives
// ---------------------------------------------------------------------------

/// Whether a statement is a directive: a string on its own.
pub open spec fn is_directive(stmt: NodeView) -> bool {
    &&& stmt.form == Form::ExprStmt
    &&& stmt.kids.len() == 1
    &&& stmt.kids[0].form == Form::Str
}

/// Whether a statement is a directive: a string on its own.
fn directive(stmt: &Stmt) -> (yes: bool)
    ensures
        yes == is_directive(stmt@),
{
    proof {
        lemma_kids(*stmt);
    }
    stmt.form == Form::ExprStmt && stmt.kids.len() == 1 && stmt.kids[0].form == Form::Str
}

/// `'use strict';`
pub open spec fn use_strict_view() -> NodeView {
    stmt_view(str_view(no_span(), "use strict"@))
}

/// `'use strict';`
pub fn use_strict() -> (stmt: Stmt)
    ensures
        stmt@ == use_strict_view(),
{
    into_stmt(quote_str("use strict"))
}

/// Whether a module starts with the directive `'use strict';`.
pub open spec fn starts_strict(items: Seq<ModuleItemView>) -> bool {
    items.len() > 0 && match items[0] {
        ModuleItemView::Stmt(s) => is_directive(s) && s.kids[0].text == "use strict"@,
        ModuleItemView::ModuleDecl(_) => false,
    }
}

/// Whether a module starts with the directive `'use strict';`.
pub fn has_use_strict(items: &Vec<ModuleItem>) -> (strict: bool)
    ensures
        strict == starts_strict(items_view(items@)),
{
    if items.len() == 0 {
        return false;
    }
    assert(items_view(items@)[0] == items@[0]@);
    match &items[0] {
        ModuleItem::Stmt(s) => {
            proof {
                lemma_kids(*s);
            }
            directive(s) && s.kids[0].text == "use strict".to_owned()
        },
        ModuleItem::ModuleDecl(_) => false,
    }
}

/// How many directives a list of statements starts with.
pub open spec fn directives(stmts: Seq<NodeView>) -> nat
    decreases stmts.len(),
{
    if stmts.len() == 0 || !is_directive(stmts[0]) {
        0
    } else {
        1 + directives(stmts.drop_first())
    }
}

/// `more` put in front of `stmts`, but behind its directives.
pub open spec fn prepended(stmts: Seq<NodeView>, more: Seq<NodeView>) -> Seq<NodeView> {
    let n = directives(stmts) as int;
    stmts.take(n) + more + stmts.skip(n)
}

/// `more` put in front of `stmts`, but behind its directives.
pub fn prepend_stmts(stmts: Vec<Stmt>, more: Vec<Stmt>) -> (all: Vec<Stmt>)
    ensures
        nodes_view(all@) == prepended(nodes_view(stmts@), nodes_view(more@)),
{
    let ghost nodes = nodes_view(stmts@);
    let mut n: usize = 0;
    assert(nodes.skip(0) =~= nodes);
    while n < stmts.len() && directive(&stmts[n])
        invariant
            n <= stmts@.len(),
            nodes == nodes_view(stmts@),
            directives(nodes) == n + directives(nodes.skip(n as int)),
        decreases stmts@.len() - n,
    {
        assert(nodes.skip(n as int).drop_first() =~= nodes.skip(n + 1));
        n += 1;
    }
    assert(directives(nodes) == n);
    let mut stmts: Vec<Stmt> = stmts;
    let tail: Vec<Stmt> = stmts.split_off(n);
    assert(nodes_view(stmts@) =~= nodes.take(n as int));
    assert(nodes_view(tail@) =~= nodes.skip(n as int));
    append(&mut stmts, more);
    append(&mut stmts, tail);
    stmts
}

} // verus!
