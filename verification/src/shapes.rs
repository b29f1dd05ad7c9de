//! The trees that the pass writes, spelled out.

use vstd::prelude::*;

use crate::ast::{AssignOp, BinaryOp, Form, Span, UnaryOp, VarDeclKind};
use crate::define::{
    Parts, bindings_view, define_view, export_all_view, forward_key, helper_name, interop_view,
    skip_listed, skip_own_keys, strs_view,
};
use crate::emit::{
    assign_export_view, assign_view, bare_view, binary_view, binding_view, branch_view,
    call_view, class_decl_view, computed_member_view, define_property_view, descriptor_view,
    es_module_view, export_stmt_view, fn_decl_view, function_view, getter_view, ident_in,
    ident_view, key_value_view, leaf_view, member_view, name_in, no_span, num_view, object_view,
    plain_name, prop_name_view, return_if_view, return_view, span_in, stmt_view, str_view,
    undefined_view, use_strict_view, var_decl_view, var_view,
};
use crate::model::{IdentView, NodeView, VarDeclView};

verus! {

/// A tree with no place in the source.
pub open spec fn tree(form: Form, text: Seq<char>, kids: Seq<NodeView>) -> NodeView {
    NodeView { span: Span { lo: 0, hi: 0, ctxt: 0 }, form, text, kids }
}

/// A tree with no place in the source and no text.
pub open spec fn twig(form: Form, kids: Seq<NodeView>) -> NodeView {
    tree(form, Seq::empty(), kids)
}

/// A tree that is a word.
pub open spec fn word(span: Span, form: Form, text: Seq<char>) -> NodeView {
    NodeView { span, form, text, kids: Seq::empty() }
}

/// A word with no place in the source.
pub open spec fn plain_word(form: Form, text: Seq<char>) -> NodeView {
    tree(form, text, Seq::empty())
}

/// A name in value position.
pub open spec fn value_of(name: IdentView) -> NodeView {
    word(name.span, Form::Ident, name.sym)
}

/// A name that is bound.
pub open spec fn binder_of(name: IdentView) -> NodeView {
    word(name.span, Form::BindingIdent, name.sym)
}

/// `obj.name`
pub open spec fn property(obj: NodeView, name: IdentView) -> NodeView {
    twig(
        Form::Member { computed: false },
        seq![obj, word(name.span, Form::Name, name.sym)],
    )
}

/// `obj.name`, where the name has no place in the source.
pub open spec fn plain_property(obj: NodeView, name: Seq<char>) -> NodeView {
    twig(Form::Member { computed: false }, seq![obj, plain_word(Form::Name, name)])
}

/// `Object.name`
pub open spec fn of_object(name: Seq<char>) -> NodeView {
    plain_property(plain_word(Form::Ident, "Object"@), name)
}

/// `f(args)`
pub open spec fn application(f: NodeView, args: Seq<NodeView>) -> NodeView {
    twig(Form::Call, seq![f] + args)
}

/// `target = value`
pub open spec fn assignment(target: NodeView, value: NodeView) -> NodeView {
    twig(Form::Assign(AssignOp::Assign), seq![target, value])
}

/// `e;`
pub open spec fn statement(e: NodeView) -> NodeView {
    twig(Form::ExprStmt, seq![e])
}

/// `name: value`
pub open spec fn entry(name: Seq<char>, value: NodeView) -> NodeView {
    twig(Form::KeyValue, seq![plain_word(Form::Name, name), value])
}

/// `true`
pub open spec fn truth() -> NodeView {
    plain_word(Form::True, Seq::empty())
}

/// Nothing, where a part is left out.
pub open spec fn nothing() -> NodeView {
    plain_word(Form::Absent, Seq::empty())
}

/// `void 0`
pub open spec fn void_at(span: Span) -> NodeView {
    NodeView {
        span,
        form: Form::Unary(UnaryOp::Void),
        text: Seq::empty(),
        kids: seq![plain_word(Form::Num, "0"@)],
    }
}

/// `function (params) { stmts }`
pub open spec fn closure(params: Seq<NodeView>, stmts: Seq<NodeView>) -> NodeView {
    twig(
        Form::FnExpr,
        seq![
            nothing(),
            twig(
                Form::Function { is_async: false, is_generator: false },
                seq![
                    twig(Form::Params, params),
                    twig(Form::Decorators, Seq::empty()),
                    twig(Form::Block, stmts),
                ],
            ),
        ],
    )
}

/// `{ enumerable: true, get: function () { return value; } }`
pub open spec fn live(value: NodeView) -> NodeView {
    twig(
        Form::Object,
        seq![
            entry("enumerable"@, truth()),
            entry("get"@, closure(Seq::empty(), seq![twig(Form::Return, seq![value])])),
        ],
    )
}

/// `exports.name = value;`
pub open spec fn export_write(exports: IdentView, name: IdentView, value: NodeView) -> NodeView {
    statement(assignment(property(value_of(exports), name), value))
}

/// `exports.default = name;`
pub open spec fn default_write(exports: IdentView, name: IdentView) -> NodeView {
    statement(assignment(plain_property(value_of(exports), "default"@), value_of(name)))
}

/// `Object.defineProperty(exports, "name", { enumerable: true, get: function () { return
/// value; } });`
pub open spec fn live_export(exports: IdentView, name: IdentView, value: NodeView) -> NodeView {
    statement(
        application(
            of_object("defineProperty"@),
            seq![value_of(exports), word(name.span, Form::Str, name.sym), live(value)],
        ),
    )
}

/// `if (test) return;`
pub open spec fn leave_if(test: NodeView) -> NodeView {
    twig(Form::If, seq![test, twig(Form::Return, seq![nothing()]), nothing()])
}

/// `key === "text"`
pub open spec fn key_equals(key: IdentView, text: Seq<char>) -> NodeView {
    twig(
        Form::Binary(BinaryOp::EqEqEq),
        seq![value_of(key), plain_word(Form::Str, text)],
    )
}

/// `if (key === "default" || key === "__esModule") return;`
pub open spec fn leave_if_special(key: IdentView) -> NodeView {
    leave_if(
        twig(
            Form::Binary(BinaryOp::LogicalOr),
            seq![key_equals(key, "default"@), key_equals(key, "__esModule"@)],
        ),
    )
}

/// `if (Object.prototype.hasOwnProperty.call(list, key)) return;`
pub open spec fn leave_if_in(list: IdentView, key: IdentView) -> NodeView {
    leave_if(
        application(
            plain_property(
                plain_property(of_object("prototype"@), "hasOwnProperty"@),
                "call"@,
            ),
            seq![value_of(list), value_of(key)],
        ),
    )
}

/// `Object.defineProperty(exports, key, { enumerable: true, get: function () { return
/// module[key]; } });`
pub open spec fn live_key(exports: IdentView, module: IdentView, key: IdentView) -> NodeView {
    statement(
        application(
            of_object("defineProperty"@),
            seq![
                value_of(exports),
                value_of(key),
                live(
                    twig(
                        Form::Member { computed: true },
                        seq![value_of(module), value_of(key)],
                    ),
                ),
            ],
        ),
    )
}

/// `Object.keys(module).forEach(function (key) { stmts });`
pub open spec fn for_each_key(
    module: IdentView,
    key: IdentView,
    stmts: Seq<NodeView>,
) -> NodeView {
    statement(
        application(
            plain_property(
                application(of_object("keys"@), seq![value_of(module)]),
                "forEach"@,
            ),
            seq![closure(seq![binder_of(key)], stmts)],
        ),
    )
}

/// The statement that exports all keys of a module but `default`, `__esModule` and those of
/// `list`, where there is one.
pub open spec fn export_keys(
    exports: IdentView,
    list: Option<IdentView>,
    module: IdentView,
    key: IdentView,
) -> NodeView {
    for_each_key(
        module,
        key,
        match list {
            Some(list) => seq![
                leave_if_special(key),
                leave_if_in(list, key),
                live_key(exports, module, key),
            ],
            None => seq![leave_if_special(key), live_key(exports, module, key)],
        },
    )
}

/// `var name = value;`
pub open spec fn variable(name: IdentView, value: NodeView) -> NodeView {
    twig(
        Form::VarDecl { kind: VarDeclKind::Var, declare: false },
        seq![twig(Form::VarDeclarator { definite: false }, seq![binder_of(name), value])],
    )
}

/// `Object.defineProperty(exports, "__esModule", { value: true });`
pub open spec fn es_module_mark(exports: IdentView) -> NodeView {
    statement(
        application(
            of_object("defineProperty"@),
            seq![
                value_of(exports),
                plain_word(Form::Str, "__esModule"@),
                twig(Form::Object, seq![entry("value"@, truth())]),
            ],
        ),
    )
}

/// `'use strict';`
pub open spec fn strict_directive() -> NodeView {
    statement(plain_word(Form::Str, "use strict"@))
}

/// `module = helper(module);`, where the helper is `_interopRequireWildcard` or
/// `_interopRequireDefault` in a given context.
pub open spec fn interop_call(ctxt: u32, whole: bool, module: IdentView) -> NodeView {
    let helper = word(
        Span { lo: 0, hi: 0, ctxt },
        Form::Ident,
        if whole {
            "_interopRequireWildcard"@
        } else {
            "_interopRequireDefault"@
        },
    );
    statement(
        assignment(binder_of(module), application(helper, seq![value_of(module)])),
    )
}

/// `define("id", ["dep"], function (param) { stmts });`
pub open spec fn define_stmt(
    id: Option<Seq<char>>,
    deps: Seq<Seq<char>>,
    params: Seq<IdentView>,
    stmts: Seq<NodeView>,
) -> NodeView {
    let array = twig(
        Form::Array,
        Seq::new(deps.len(), |i: int| plain_word(Form::Str, deps[i])),
    );
    let factory = closure(Seq::new(params.len(), |i: int| binder_of(params[i])), stmts);
    statement(
        application(
            plain_word(Form::Ident, "define"@),
            match id {
                Some(id) => seq![plain_word(Form::Str, id), array, factory],
                None => seq![array, factory],
            },
        ),
    )
}

// ---------------------------------------------------------------------------
// The builders give these trees
// ---------------------------------------------------------------------------

/// A generated name has the spelling and the context that it is given, and no place in the
/// source; a name keeps its place wherever it is written.
pub proof fn law_words(name: IdentView, sym: Seq<char>, ctxt: u32, span: Span, n: NodeView)
    ensures
        span_in(ctxt) == (Span { lo: 0, hi: 0, ctxt }),
        no_span() == (Span { lo: 0, hi: 0, ctxt: 0 }),
        name_in(sym, ctxt) == (IdentView { sym, span: Span { lo: 0, hi: 0, ctxt } }),
        plain_name(sym) == (IdentView { sym, span: Span { lo: 0, hi: 0, ctxt: 0 } }),
        ident_view(name) == value_of(name),
        binding_view(name) == binder_of(name),
        prop_name_view(name) == word(name.span, Form::Name, name.sym),
        str_view(span, sym) == word(span, Form::Str, sym),
        num_view(sym) == plain_word(Form::Num, sym),
        leaf_view(span, Form::Ts, sym) == word(span, Form::Ts, sym),
        ident_in(n).sym == n.text,
        ident_in(n).span == n.span,
        ident_in(value_of(name)) == name,
        ident_in(binder_of(name)) == name,
{
}

/// Every node that is built has the form, the text and the kids that it is given, in order.
pub proof fn law_nodes(span: Span, form: Form, text: Seq<char>, kids: Seq<NodeView>)
    ensures
        branch_view(span, form, kids) == (NodeView { span, form, text: Seq::empty(), kids }),
        leaf_view(span, form, text) == (NodeView { span, form, text, kids: Seq::empty() }),
        bare_view(form) == plain_word(form, Seq::empty()),
        object_view(kids) == twig(Form::Object, kids),
{
}

/// What the expressions look like that the pass writes.
pub proof fn law_expressions(
    a: NodeView,
    b: NodeView,
    name: IdentView,
    exports: IdentView,
    op: BinaryOp,
    span: Span,
    list: Seq<NodeView>,
    more: Seq<NodeView>,
)
    ensures
        member_view(a, name) == property(a, name),
        computed_member_view(a, b) == twig(Form::Member { computed: true }, seq![a, b]),
        call_view(a, list) == application(a, list),
        undefined_view(span) == void_at(span),
        binary_view(op, a, b) == twig(Form::Binary(op), seq![a, b]),
        assign_view(a, b) == assignment(a, b),
        assign_export_view(exports, name, a) == assignment(property(value_of(exports), name), a),
        function_view(list, more) == closure(list, more),
        key_value_view(name, a) == twig(
            Form::KeyValue,
            seq![word(name.span, Form::Name, name.sym), a],
        ),
        define_property_view(list) == application(of_object("defineProperty"@), list),
        descriptor_view(a) == live(a),
{
}

/// What the statements look like that the pass writes.
pub proof fn law_statements(
    a: NodeView,
    name: IdentView,
    exports: IdentView,
    module: IdentView,
    key: IdentView,
    list: Option<IdentView>,
    declare: bool,
    var: VarDeclView,
    ctxt: u32,
    whole: bool,
)
    ensures
        stmt_view(a) == statement(a),
        return_view(Some(a)) == twig(Form::Return, seq![a]),
        return_view(None) == twig(Form::Return, seq![nothing()]),
        return_if_view(a) == leave_if(a),
        var_view(name, a) == variable(name, a),
        class_decl_view(name, declare, a) == twig(
            Form::ClassDecl { declare },
            seq![binder_of(name), a],
        ),
        fn_decl_view(name, declare, a) == twig(
            Form::FnDecl { declare },
            seq![binder_of(name), a],
        ),
        var_decl_view(var) == (NodeView {
            span: var.span,
            form: Form::VarDecl { kind: var.kind, declare: var.declare },
            text: Seq::empty(),
            kids: var.decls,
        }),
        getter_view(exports, name, a) == live_export(exports, name, a),
        es_module_view(exports) == es_module_mark(exports),
        export_stmt_view(exports, name, a) == export_write(exports, name, a),
        use_strict_view() == strict_directive(),
        interop_view(helper_name(ctxt, whole), module) == interop_call(ctxt, whole, module),
        export_all_view(exports, list, module, key) == export_keys(exports, list, module, key),
{
    let skips = match list {
        Some(names) => seq![skip_own_keys(key), skip_listed(names, key)],
        None => seq![skip_own_keys(key)],
    };
    let inside = match list {
        Some(list) => seq![
            leave_if_special(key),
            leave_if_in(list, key),
            live_key(exports, module, key),
        ],
        None => seq![leave_if_special(key), live_key(exports, module, key)],
    };
    assert(skips.push(forward_key(exports, module, key)) =~= inside);
}

/// What the call of `define` looks like.
pub proof fn law_define(id: Option<Seq<char>>, parts: Parts)
    ensures
        define_view(id, parts) == define_stmt(id, parts.deps, parts.params, parts.stmts),
{
    let array = twig(
        Form::Array,
        Seq::new(parts.deps.len(), |i: int| plain_word(Form::Str, parts.deps[i])),
    );
    let factory = closure(
        Seq::new(parts.params.len(), |i: int| binder_of(parts.params[i])),
        parts.stmts,
    );
    assert(strs_view(parts.deps) =~= array.kids);
    assert(bindings_view(parts.params) =~= Seq::new(
        parts.params.len(),
        |i: int| binder_of(parts.params[i]),
    ));
    let args = match id {
        Some(id) => seq![plain_word(Form::Str, id), array, factory],
        None => seq![array, factory],
    };
    let name = match id {
        Some(id) => seq![str_view(no_span(), id)],
        None => Seq::empty(),
    };
    assert(name + seq![array, factory] =~= args);
}

} // verus!
