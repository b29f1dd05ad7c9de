//! What becomes of whole modules, as text.

use amd_transform::ast::{
    AssignOp, BinaryOp, ClassDecl, ClassExpr, Decl, DefaultDecl, ExportAll, ExportDecl,
    ExportDefaultDecl, ExportDefaultExpr, ExportSpecifier, FnDecl, FnExpr, Form, Ident, ImportDecl,
    ImportSpecifier, Module, ModuleDecl, ModuleItem, NamedExport, NamedExportSpecifier, Node, Span,
    Str, UnaryOp, UpdateOp, VarDecl, VarDeclKind,
};
use amd_transform::{amd_module, util, Config};

// ---------------------------------------------------------------------------
// Building trees
// ---------------------------------------------------------------------------

fn sp() -> Span {
    Span { lo: 0, hi: 0, ctxt: 0 }
}

fn leaf(form: Form, text: &str) -> Node {
    Node { span: sp(), form, text: text.to_string(), kids: vec![] }
}

fn node(form: Form, kids: Vec<Node>) -> Node {
    Node { span: sp(), form, text: String::new(), kids }
}

fn absent() -> Node {
    leaf(Form::Absent, "")
}

fn id(name: &str) -> Node {
    leaf(Form::Ident, name)
}

fn num(raw: &str) -> Node {
    leaf(Form::Num, raw)
}

fn this() -> Node {
    leaf(Form::This, "")
}

fn pat(name: &str) -> Node {
    leaf(Form::BindingIdent, name)
}

fn member(obj: Node, prop: &str) -> Node {
    node(Form::Member { computed: false }, vec![obj, leaf(Form::Name, prop)])
}

fn call(callee: Node, args: Vec<Node>) -> Node {
    let mut kids = vec![callee];
    kids.extend(args);
    node(Form::Call, kids)
}

fn assign(target: Node, value: Node) -> Node {
    node(Form::Assign(AssignOp::Assign), vec![target, value])
}

fn increment(name: &str) -> Node {
    node(Form::Update { op: UpdateOp::PlusPlus, prefix: false }, vec![id(name)])
}

fn decrement(name: &str) -> Node {
    node(Form::Update { op: UpdateOp::MinusMinus, prefix: true }, vec![id(name)])
}

fn block(stmts: Vec<Node>) -> Node {
    node(Form::Block, stmts)
}

fn function(params: Vec<Node>, stmts: Vec<Node>) -> Node {
    node(
        Form::Function { is_async: false, is_generator: false },
        vec![node(Form::Params, params), node(Form::Decorators, vec![]), block(stmts)],
    )
}

fn class(members: Vec<Node>) -> Node {
    let mut kids = vec![node(Form::Decorators, vec![]), absent()];
    kids.extend(members);
    node(Form::Class, kids)
}

fn declarator(pattern: Node, value: Node) -> Node {
    node(Form::VarDeclarator { definite: false }, vec![pattern, value])
}

fn var_stmt(kind: VarDeclKind, decls: Vec<Node>) -> Node {
    node(Form::VarDecl { kind, declare: false }, decls)
}

fn expr(e: Node) -> Node {
    node(Form::ExprStmt, vec![e])
}

fn stmt(e: Node) -> ModuleItem {
    ModuleItem::Stmt(expr(e))
}

fn ident(name: &str) -> Ident {
    Ident { sym: name.to_string(), span: sp() }
}

fn string(value: &str) -> Str {
    Str { span: sp(), value: value.to_string() }
}

fn import(specifiers: Vec<ImportSpecifier>, src: &str) -> ModuleItem {
    ModuleItem::ModuleDecl(ModuleDecl::Import(ImportDecl {
        span: sp(),
        specifiers,
        src: string(src),
    }))
}

fn default_as(name: &str) -> ImportSpecifier {
    ImportSpecifier::Default { span: sp(), local: ident(name) }
}

fn all_as(name: &str) -> ImportSpecifier {
    ImportSpecifier::Namespace { span: sp(), local: ident(name) }
}

fn named(name: &str) -> ImportSpecifier {
    ImportSpecifier::Specific { span: sp(), local: ident(name), imported: None }
}

fn named_as(name: &str, local: &str) -> ImportSpecifier {
    ImportSpecifier::Specific {
        span: sp(),
        local: ident(local),
        imported: Some(ident(name)),
    }
}

fn export(decl: Decl) -> ModuleItem {
    ModuleItem::ModuleDecl(ModuleDecl::ExportDecl(ExportDecl { span: sp(), decl }))
}

fn export_var(kind: VarDeclKind, decls: Vec<Node>) -> ModuleItem {
    export(Decl::Var(VarDecl { span: sp(), kind, declare: false, decls }))
}

fn export_default(expr: Node) -> ModuleItem {
    ModuleItem::ModuleDecl(ModuleDecl::ExportDefaultExpr(ExportDefaultExpr { span: sp(), expr }))
}

fn export_default_decl(decl: DefaultDecl) -> ModuleItem {
    ModuleItem::ModuleDecl(ModuleDecl::ExportDefaultDecl(ExportDefaultDecl { span: sp(), decl }))
}

fn export_all(src: &str) -> ModuleItem {
    ModuleItem::ModuleDecl(ModuleDecl::ExportAll(ExportAll { span: sp(), src: string(src) }))
}

fn export_named(names: Vec<(&str, Option<&str>)>, src: Option<&str>) -> ModuleItem {
    ModuleItem::ModuleDecl(ModuleDecl::ExportNamed(NamedExport {
        span: sp(),
        specifiers: names
            .into_iter()
            .map(|(orig, exported)| {
                ExportSpecifier::Named(NamedExportSpecifier {
                    span: sp(),
                    orig: ident(orig),
                    exported: exported.map(ident),
                })
            })
            .collect(),
        src: src.map(string),
    }))
}

fn module(body: Vec<ModuleItem>) -> Module {
    Module { span: Span { lo: 1, hi: 9, ctxt: 0 }, body, shebang: None }
}

// ---------------------------------------------------------------------------
// Printing trees
// ---------------------------------------------------------------------------

fn list(nodes: &[Node]) -> String {
    nodes.iter().map(js).collect::<Vec<_>>().join(", ")
}

fn lines(nodes: &[Node]) -> String {
    nodes.iter().map(js).collect::<Vec<_>>().join(" ")
}

fn braces(nodes: &[Node]) -> String {
    if nodes.is_empty() {
        "{}".to_string()
    } else {
        format!("{{ {} }}", lines(nodes))
    }
}

fn props(nodes: &[Node]) -> String {
    if nodes.is_empty() {
        "{}".to_string()
    } else {
        format!("{{ {} }}", list(nodes))
    }
}

fn js(n: &Node) -> String {
    let k = &n.kids;
    match n.form {
        Form::Absent => String::new(),
        Form::Ident
        | Form::BindingIdent
        | Form::Name
        | Form::Shorthand
        | Form::Num => n.text.clone(),
        Form::Str => format!("\"{}\"", n.text),
        Form::True => "true".to_string(),
        Form::This => "this".to_string(),
        Form::Array => format!("[{}]", list(k)),
        Form::Object | Form::ObjectPat => props(k),
        Form::ArrayPat => format!("[{}]", list(k)),
        Form::Unary(UnaryOp::Void) => format!("void {}", js(&k[0])),
        Form::Unary(UnaryOp::Plus) => format!("+{}", js(&k[0])),
        Form::Update { op, prefix } => {
            let op = match op {
                UpdateOp::PlusPlus => "++",
                UpdateOp::MinusMinus => "--",
            };
            if prefix {
                format!("{}{}", op, js(&k[0]))
            } else {
                format!("{}{}", js(&k[0]), op)
            }
        }
        Form::Binary(op) => {
            let op = match op {
                BinaryOp::Plus => "+",
                BinaryOp::Minus => "-",
                BinaryOp::EqEqEq => "===",
                BinaryOp::LogicalOr => "||",
                _ => panic!("an operator that no test prints"),
            };
            format!("{} {} {}", js(&k[0]), op, js(&k[1]))
        }
        Form::Assign(AssignOp::Assign) => format!("{} = {}", js(&k[0]), js(&k[1])),
        Form::Assign(AssignOp::PlusAssign) => format!("{} += {}", js(&k[0]), js(&k[1])),
        Form::Member { computed: false } => format!("{}.{}", js(&k[0]), js(&k[1])),
        Form::Member { computed: true } => format!("{}[{}]", js(&k[0]), js(&k[1])),
        Form::Call => {
            let callee = js(&k[0]);
            let callee = if k[0].form == Form::Sequence { format!("({})", callee) } else { callee };
            format!("{}({})", callee, list(&k[1..]))
        }
        Form::Sequence => list(k),
        Form::Arrow { .. } => format!("({}) => {}", list(&k[0].kids), js(&k[1])),
        Form::FnExpr | Form::FnDecl { .. } => {
            let f = &k[1].kids;
            let name = js(&k[0]);
            let space = if name.is_empty() { "" } else { " " };
            format!("function{}{}({}) {}", space, name, list(&f[0].kids), braces(&f[2].kids))
        }
        Form::ClassExpr | Form::ClassDecl { .. } => {
            format!("class {} {}", js(&k[0]), braces(&k[1].kids[2..]))
        }
        Form::ClassProp { .. } => format!("{} = {};", js(&k[0]), js(&k[2])),
        Form::ClassMethod { .. } => {
            format!("{}() {}", js(&k[0]), braces(&k[1].kids[2].kids))
        }
        Form::Constructor => format!("constructor() {}", braces(&k[2].kids)),
        Form::Getter => format!("get {}() {}", js(&k[0]), braces(&k[1].kids)),
        Form::Setter => format!("set {}({}) {}", js(&k[0]), js(&k[1]), braces(&k[2].kids)),
        Form::KeyValue | Form::KeyValuePat => format!("{}: {}", js(&k[0]), js(&k[1])),
        Form::AssignPatProp if k[1].form == Form::Absent => js(&k[0]),
        Form::AssignPatProp | Form::AssignPat => format!("{} = {}", js(&k[0]), js(&k[1])),
        Form::RestPat => format!("...{}", js(&k[0])),
        Form::ExprStmt => format!("{};", js(&k[0])),
        Form::Block => braces(k),
        Form::Return if k[0].form == Form::Absent => "return;".to_string(),
        Form::Return => format!("return {};", js(&k[0])),
        Form::If => format!("if ({}) {}", js(&k[0]), js(&k[1])),
        Form::VarDecl { kind, .. } => {
            let kind = match kind {
                VarDeclKind::Var => "var",
                VarDeclKind::Let => "let",
                VarDeclKind::Const => "const",
            };
            format!("{} {};", kind, list(k))
        }
        Form::VarDeclarator { .. } if k[1].form == Form::Absent => js(&k[0]),
        Form::VarDeclarator { .. } => format!("{} = {}", js(&k[0]), js(&k[1])),
        _ => panic!("a form that no test prints: {:?}", n.form),
    }
}

fn print(m: &Module) -> String {
    assert_eq!(m.body.len(), 1);
    match &m.body[0] {
        ModuleItem::Stmt(s) => js(s),
        _ => panic!("not a statement"),
    }
}

fn transform(config: Config, body: Vec<ModuleItem>) -> String {
    print(&amd_module(config, module(body)))
}

fn run(body: Vec<ModuleItem>) -> String {
    transform(Config::default(), body)
}

fn with(config: util::Config) -> Config {
    Config { module_id: None, config }
}

fn no_interop() -> Config {
    with(util::Config { strict: false, strict_mode: true, no_interop: true })
}

fn strict() -> Config {
    with(util::Config { strict: true, strict_mode: true, no_interop: false })
}

fn sloppy() -> Config {
    with(util::Config { strict: true, strict_mode: false, no_interop: true })
}

const ES: &str = "Object.defineProperty(_exports, \"__esModule\", { value: true });";

// ---------------------------------------------------------------------------
// The call of `define`
// ---------------------------------------------------------------------------

#[test]
fn an_empty_module_is_a_factory_without_dependencies() {
    assert_eq!(run(vec![]), "define([], function() { \"use strict\"; });");
}

#[test]
fn the_module_id_comes_first() {
    let config = Config { module_id: Some("moduleId".to_string()), ..Config::default() };
    assert_eq!(
        transform(config, vec![]),
        "define(\"moduleId\", [], function() { \"use strict\"; });"
    );
}

#[test]
fn the_span_and_the_shebang_of_a_module_are_kept() {
    let input = Module {
        span: Span { lo: 3, hi: 40, ctxt: 5 },
        body: vec![],
        shebang: Some("#!node".to_string()),
    };
    let output = amd_module(Config::default(), input);
    assert_eq!(output.span, Span { lo: 3, hi: 40, ctxt: 5 });
    assert_eq!(output.shebang, Some("#!node".to_string()));
}

#[test]
fn statements_are_kept_in_order() {
    assert_eq!(
        run(vec![stmt(call(id("a"), vec![])), stmt(call(id("b"), vec![num("2")]))]),
        "define([], function() { \"use strict\"; a(); b(2); });"
    );
}

#[test]
fn use_strict_is_not_added_twice() {
    assert_eq!(
        run(vec![stmt(leaf(Form::Str, "use strict")), stmt(id("a"))]),
        "define([], function() { \"use strict\"; a; });"
    );
}

#[test]
fn use_strict_is_added_where_another_directive_stands() {
    assert_eq!(
        run(vec![stmt(leaf(Form::Str, "use asm"))]),
        "define([], function() { \"use strict\"; \"use asm\"; });"
    );
}

#[test]
fn use_strict_can_be_left_out() {
    assert_eq!(transform(sloppy(), vec![stmt(id("a"))]), "define([], function() { a; });");
}

// ---------------------------------------------------------------------------
// Imports
// ---------------------------------------------------------------------------

#[test]
fn a_module_that_is_only_run_is_a_dependency() {
    assert_eq!(
        run(vec![import(vec![], "foo"), import(vec![], "./foo-bar"), import(vec![], "./a/b_c.js")]),
        "define([\"foo\", \"./foo-bar\", \"./a/b_c.js\"], function(_foo, _fooBar, _bCJs) { \
         \"use strict\"; });"
    );
}

#[test]
fn a_default_import_goes_through_interop() {
    assert_eq!(
        run(vec![import(vec![default_as("foo")], "foo"), stmt(id("foo"))]),
        "define([\"foo\"], function(_foo) { \"use strict\"; \
         _foo = _interopRequireDefault(_foo); _foo.default; });"
    );
}

#[test]
fn a_default_import_by_name_goes_through_interop() {
    assert_eq!(
        run(vec![import(vec![named_as("default", "foo")], "foo"), stmt(id("foo"))]),
        "define([\"foo\"], function(_foo) { \"use strict\"; \
         _foo = _interopRequireDefault(_foo); _foo.default; });"
    );
}

#[test]
fn a_namespace_goes_by_its_own_name() {
    assert_eq!(
        run(vec![
            import(vec![all_as("foo")], "foo"),
            stmt(id("foo")),
            stmt(member(id("foo"), "bar"))
        ]),
        "define([\"foo\"], function(foo) { \"use strict\"; \
         foo = _interopRequireWildcard(foo); foo; foo.bar; });"
    );
}

#[test]
fn a_namespace_beside_other_names_goes_by_a_generated_name() {
    assert_eq!(
        run(vec![
            import(vec![default_as("foo"), all_as("all")], "foo"),
            stmt(id("foo")),
            stmt(id("all"))
        ]),
        "define([\"foo\"], function(_foo) { \"use strict\"; \
         _foo = _interopRequireWildcard(_foo); _foo.default; _foo; });"
    );
}

#[test]
fn imported_names_are_properties_of_their_module() {
    assert_eq!(
        run(vec![
            import(vec![named("bar"), named_as("baz", "xyz")], "foo"),
            stmt(id("bar")),
            stmt(id("xyz")),
            stmt(id("baz"))
        ]),
        "define([\"foo\"], function(_foo) { \"use strict\"; _foo.bar; _foo.baz; baz; });"
    );
}

#[test]
fn an_imported_function_is_not_called_as_a_method() {
    assert_eq!(
        run(vec![
            import(vec![named("bar")], "foo"),
            stmt(call(id("bar"), vec![id("bar")])),
            stmt(call(member(id("bar"), "bar"), vec![]))
        ]),
        "define([\"foo\"], function(_foo) { \"use strict\"; (0, _foo.bar)(_foo.bar); \
         _foo.bar.bar(); });"
    );
}

#[test]
fn an_imported_namespace_is_called_as_it_is() {
    assert_eq!(
        transform(
            no_interop(),
            vec![import(vec![all_as("foo")], "foo"), stmt(call(id("foo"), vec![]))]
        ),
        "define([\"foo\"], function(foo) { \"use strict\"; foo(); });"
    );
}

#[test]
fn one_source_is_one_dependency() {
    assert_eq!(
        transform(
            no_interop(),
            vec![
                import(vec![named("a")], "x"),
                import(vec![named("b")], "y"),
                import(vec![default_as("c")], "x"),
                import(vec![], "y"),
                stmt(id("a")),
                stmt(id("b")),
                stmt(id("c")),
            ]
        ),
        "define([\"x\", \"y\"], function(_x, _y) { \"use strict\"; _x.a; _y.b; _x.default; });"
    );
}

#[test]
fn a_module_that_was_only_run_gets_a_name_when_it_is_read() {
    assert_eq!(
        run(vec![import(vec![], "x"), import(vec![named("a")], "x"), stmt(id("a"))]),
        "define([\"x\"], function(_x) { \"use strict\"; _x.a; });"
    );
}

#[test]
fn a_module_keeps_its_first_name() {
    assert_eq!(
        transform(
            no_interop(),
            vec![
                import(vec![named("a")], "x"),
                stmt(id("a")),
                import(vec![all_as("all")], "x"),
                stmt(id("all"))
            ]
        ),
        "define([\"x\"], function(_x) { \"use strict\"; _x.a; _x; });"
    );
}

#[test]
fn interop_can_be_left_out() {
    assert_eq!(
        transform(no_interop(), vec![import(vec![default_as("foo")], "foo"), stmt(id("foo"))]),
        "define([\"foo\"], function(_foo) { \"use strict\"; _foo.default; });"
    );
}

#[test]
fn interop_comes_before_the_header() {
    assert_eq!(
        run(vec![import(vec![default_as("foo")], "foo"), export_default(id("foo"))]),
        format!(
            "define([\"exports\", \"foo\"], function(_exports, _foo) {{ \"use strict\"; \
             _foo = _interopRequireDefault(_foo); {} _exports.default = void 0; \
             var _default = _foo.default; _exports.default = _default; }});",
            ES
        )
    );
}

// ---------------------------------------------------------------------------
// Exports
// ---------------------------------------------------------------------------

#[test]
fn a_default_expression_is_exported_under_a_generated_name() {
    assert_eq!(
        run(vec![export_default(num("42"))]),
        format!(
            "define([\"exports\"], function(_exports) {{ \"use strict\"; {} \
             _exports.default = void 0; var _default = 42; _exports.default = _default; }});",
            ES
        )
    );
}

#[test]
fn es_module_can_be_left_out() {
    assert_eq!(
        transform(strict(), vec![export_default(num("42"))]),
        "define([\"exports\"], function(_exports) { \"use strict\"; \
         _exports.default = void 0; var _default = 42; _exports.default = _default; });"
    );
}

#[test]
fn es_module_is_marked_once() {
    let out = run(vec![export_default(num("1")), export_all("x"), export_named(vec![], None)]);
    assert_eq!(out.matches(ES).count(), 1);
}

#[test]
fn a_default_class_is_exported_behind_itself() {
    assert_eq!(
        run(vec![export_default_decl(DefaultDecl::Class(ClassExpr {
            ident: Some(ident("Foo")),
            class: class(vec![])
        }))]),
        format!(
            "define([\"exports\"], function(_exports) {{ \"use strict\"; {} \
             _exports.default = void 0; class Foo {{}} _exports.default = Foo; }});",
            ES
        )
    );
}

#[test]
fn a_default_class_without_a_name_gets_one() {
    assert_eq!(
        transform(
            strict(),
            vec![export_default_decl(DefaultDecl::Class(ClassExpr {
                ident: None,
                class: class(vec![])
            }))]
        ),
        "define([\"exports\"], function(_exports) { \"use strict\"; \
         _exports.default = void 0; class _default {} _exports.default = _default; });"
    );
}

#[test]
fn a_default_function_is_exported_before_itself_and_not_initialized() {
    assert_eq!(
        transform(
            strict(),
            vec![export_default_decl(DefaultDecl::Fn(FnExpr {
                ident: None,
                function: function(vec![], vec![])
            }))]
        ),
        "define([\"exports\"], function(_exports) { \"use strict\"; \
         _exports.default = _default; function _default() {} });"
    );
    assert_eq!(
        transform(
            strict(),
            vec![export_default_decl(DefaultDecl::Fn(FnExpr {
                ident: Some(ident("f")),
                function: function(vec![], vec![])
            }))]
        ),
        "define([\"exports\"], function(_exports) { \"use strict\"; \
         _exports.default = f; function f() {} });"
    );
}

#[test]
fn a_default_interface_leaves_nothing_behind() {
    assert_eq!(
        transform(
            strict(),
            vec![export_default_decl(DefaultDecl::TsInterfaceDecl(leaf(
                Form::Ts,
                "interface I {}"
            )))]
        ),
        "define([\"exports\"], function(_exports) { \"use strict\"; });"
    );
}

#[test]
fn an_exported_function_is_exported_in_front() {
    assert_eq!(
        transform(
            strict(),
            vec![
                stmt(id("a")),
                export(Decl::Fn(FnDecl {
                    ident: ident("f"),
                    declare: false,
                    function: function(vec![], vec![])
                }))
            ]
        ),
        "define([\"exports\"], function(_exports) { \"use strict\"; _exports.f = f; a; \
         function f() {} });"
    );
}

#[test]
fn an_exported_class_is_exported_behind_itself() {
    assert_eq!(
        transform(
            strict(),
            vec![export(Decl::Class(ClassDecl {
                ident: ident("C"),
                declare: false,
                class: class(vec![])
            }))]
        ),
        "define([\"exports\"], function(_exports) { \"use strict\"; class C {} \
         _exports.C = C; });"
    );
}

#[test]
fn an_exported_type_only_marks_the_module() {
    assert_eq!(
        run(vec![export(Decl::TsTypeAlias(leaf(Form::Ts, "type T = U;")))]),
        format!("define([\"exports\"], function(_exports) {{ \"use strict\"; {} }});", ES)
    );
}

#[test]
fn exported_variables_are_exported_behind_their_declaration() {
    assert_eq!(
        transform(
            strict(),
            vec![export_var(VarDeclKind::Const, vec![declarator(pat("a"), num("1"))])]
        ),
        "define([\"exports\"], function(_exports) { \"use strict\"; _exports.a = void 0; \
         const a = 1; _exports.a = a; });"
    );
}

#[test]
fn every_name_of_a_pattern_is_exported() {
    let pattern = node(
        Form::ObjectPat,
        vec![
            node(Form::AssignPatProp, vec![pat("a"), absent()]),
            node(
                Form::KeyValuePat,
                vec![
                    leaf(Form::Name, "k"),
                    node(
                        Form::ArrayPat,
                        vec![
                            absent(),
                            node(Form::AssignPat, vec![pat("b"), id("z")]),
                            node(Form::RestPat, vec![pat("c")]),
                        ],
                    ),
                ],
            ),
        ],
    );
    let out = transform(
        strict(),
        vec![export_var(VarDeclKind::Let, vec![declarator(pattern, id("v"))])],
    );
    assert!(out.ends_with(
        "let { a, k: [, b = z, ...c] } = v; _exports.a = a; _exports.b = b; _exports.c = c; });"
    ));
    for name in ["a", "b", "c"] {
        assert_eq!(out.matches(&format!("_exports.{} =", name)).count(), 2);
    }
    assert_eq!(out.matches("void 0").count(), 1);
}

#[test]
fn own_names_are_exported_by_value() {
    assert_eq!(
        transform(
            strict(),
            vec![export_named(vec![("foo", None)], None), export_named(vec![("f", Some("foo"))], None)]
        ),
        "define([\"exports\"], function(_exports) { \"use strict\"; _exports.foo = void 0; \
         _exports.foo = foo; _exports.foo = f; });"
    );
}

#[test]
fn imported_names_are_exported_by_getters() {
    assert_eq!(
        transform(
            strict(),
            vec![import(vec![named("foo")], "x"), export_named(vec![("foo", Some("bar"))], None)]
        ),
        "define([\"exports\", \"x\"], function(_exports, _x) { \"use strict\"; \
         Object.defineProperty(_exports, \"bar\", { enumerable: true, \
         get: function() { return _x.foo; } }); });"
    );
}

#[test]
fn names_from_another_module_are_exported_by_getters() {
    assert_eq!(
        transform(
            strict(),
            vec![export_named(vec![("foo", None), ("default", Some("bar"))], Some("x"))]
        ),
        "define([\"exports\", \"x\"], function(_exports, _x) { \"use strict\"; \
         _x = _interopRequireDefault(_x); \
         Object.defineProperty(_exports, \"foo\", { enumerable: true, \
         get: function() { return _x.foo; } }); \
         Object.defineProperty(_exports, \"bar\", { enumerable: true, \
         get: function() { return _x.default; } }); });"
    );
}

#[test]
fn an_export_of_nothing_from_a_module_runs_it() {
    assert_eq!(
        transform(strict(), vec![export_named(vec![], Some("x"))]),
        "define([\"exports\", \"x\"], function(_exports, _x) { \"use strict\"; });"
    );
}

const FORWARD: &str = "Object.defineProperty(_exports, key, { enumerable: true, \
                       get: function() { return _x[key]; } }); }); });";

#[test]
fn all_names_of_a_module_are_forwarded() {
    assert_eq!(
        transform(strict(), vec![export_all("x")]),
        format!(
            "define([\"exports\", \"x\"], function(_exports, _x) {{ \"use strict\"; \
             Object.keys(_x).forEach(function(key) {{ \
             if (key === \"default\" || key === \"__esModule\") return; {}",
            FORWARD
        )
    );
}

#[test]
fn own_names_are_kept_from_being_forwarded() {
    let out = transform(
        strict(),
        vec![
            export_all("x"),
            export_var(VarDeclKind::Var, vec![declarator(pat("a"), num("1"))]),
            export_default(num("2")),
        ],
    );
    assert!(out.starts_with(
        "define([\"exports\", \"x\"], function(_exports, _x) { \"use strict\"; \
         var _exportNames = { a: true }; Object.keys(_x).forEach(function(key) { \
         if (key === \"default\" || key === \"__esModule\") return; \
         if (Object.prototype.hasOwnProperty.call(_exportNames, key)) return; "
    ));
}

#[test]
fn a_forwarded_module_that_is_imported_by_default_is_taken_whole() {
    let out =
        run(vec![import(vec![default_as("a")], "x"), export_all("x"), stmt(id("a"))]);
    assert!(out.contains("_x = _interopRequireWildcard(_x);"));
    let out = run(vec![import(vec![named("a")], "x"), export_all("x"), stmt(id("a"))]);
    assert!(!out.contains("_interopRequire"));
}

#[test]
fn every_initialized_name_is_initialized_once() {
    let out = transform(
        strict(),
        vec![
            export_var(VarDeclKind::Var, vec![declarator(pat("a"), num("1"))]),
            export_named(vec![("a", None), ("a", Some("b"))], None),
            export_default(num("2")),
        ],
    );
    let init = out.split("void 0;").next().unwrap();
    for name in ["a", "b", "default"] {
        assert_eq!(init.matches(&format!("_exports.{} =", name)).count(), 1);
    }
    assert_eq!(init.matches("_exports.").count(), 3);
    assert!(out.ends_with(
        "var a = 1; _exports.a = a; _exports.a = a; _exports.b = a; var _default = 2; \
         _exports.default = _default; });"
    ));
}

#[test]
fn typescript_declarations_leave_nothing_behind() {
    assert_eq!(
        run(vec![
            ModuleItem::ModuleDecl(ModuleDecl::TsImportEquals(leaf(Form::Ts, "import a = b;"))),
            ModuleItem::ModuleDecl(ModuleDecl::TsExportAssignment(leaf(Form::Ts, "export = a;"))),
            ModuleItem::ModuleDecl(ModuleDecl::TsNamespaceExport(leaf(
                Form::Ts,
                "export as namespace a;"
            ))),
        ]),
        "define([], function() { \"use strict\"; });"
    );
}

// ---------------------------------------------------------------------------
// Writes to exported variables
// ---------------------------------------------------------------------------

fn exporting(rest: Vec<ModuleItem>) -> String {
    let mut body = vec![export_var(
        VarDeclKind::Let,
        vec![declarator(pat("a"), num("1"))],
    )];
    body.extend(rest);
    let out = transform(strict(), body);
    let start = out.find("_exports.a = a; ").unwrap() + "_exports.a = a; ".len();
    let end = out.len() - " });".len();
    out[start..end].to_string()
}

#[test]
fn an_assignment_is_exported() {
    assert_eq!(exporting(vec![stmt(assign(pat("a"), num("2")))]), "_exports.a = a = 2;");
}

#[test]
fn an_assignment_to_another_variable_is_not_exported() {
    assert_eq!(exporting(vec![stmt(assign(pat("b"), id("a")))]), "b = a;");
}

#[test]
fn an_increment_is_exported() {
    assert_eq!(exporting(vec![stmt(increment("a"))]), "_exports.a = a = +a + 1;");
    assert_eq!(exporting(vec![stmt(decrement("a"))]), "_exports.a = a = +a - 1;");
    assert_eq!(exporting(vec![stmt(increment("b"))]), "b++;");
}

#[test]
fn an_assignment_is_exported_under_every_name() {
    assert_eq!(
        exporting(vec![
            export_named(vec![("a", Some("x"))], None),
            stmt(assign(pat("a"), num("2")))
        ]),
        "_exports.x = a; _exports.x = _exports.a = a = 2;"
    );
}

#[test]
fn a_destructuring_assignment_is_followed_by_exports() {
    let target = node(Form::ArrayPat, vec![pat("b"), pat("a")]);
    assert_eq!(
        exporting(vec![stmt(assign(target, id("v")))]),
        "[b, a] = v, _exports.a = a;"
    );
    let target = node(Form::ArrayPat, vec![pat("b"), pat("c")]);
    assert_eq!(exporting(vec![stmt(assign(target, id("v")))]), "[b, c] = v;");
}

#[test]
fn writes_inside_functions_are_exported_too() {
    let body = vec![expr(assign(pat("a"), num("2")))];
    let f = node(
        Form::FnDecl { declare: false },
        vec![pat("f"), function(vec![], body)],
    );
    assert_eq!(
        exporting(vec![ModuleItem::Stmt(f)]),
        "function f() { _exports.a = a = 2; }"
    );
}

#[test]
fn a_variable_that_is_exported_later_is_exported_from_there_on() {
    assert_eq!(
        transform(
            strict(),
            vec![
                ModuleItem::Stmt(var_stmt(VarDeclKind::Let, vec![declarator(pat("a"), absent())])),
                stmt(assign(pat("a"), num("1"))),
                export_named(vec![("a", None)], None),
                stmt(assign(pat("a"), num("2"))),
            ]
        ),
        "define([\"exports\"], function(_exports) { \"use strict\"; _exports.a = void 0; \
         let a; a = 1; _exports.a = a; _exports.a = a = 2; });"
    );
}

#[test]
fn a_constant_that_is_exported_by_name_is_not_followed() {
    assert_eq!(
        transform(
            strict(),
            vec![
                ModuleItem::Stmt(var_stmt(VarDeclKind::Const, vec![declarator(pat("a"), num("1"))])),
                export_named(vec![("a", None)], None),
                stmt(assign(pat("a"), num("2"))),
            ]
        ),
        "define([\"exports\"], function(_exports) { \"use strict\"; _exports.a = void 0; \
         const a = 1; _exports.a = a; a = 2; });"
    );
}

// ---------------------------------------------------------------------------
// Code inside a module
// ---------------------------------------------------------------------------

#[test]
fn this_is_undefined_at_the_top_level() {
    assert_eq!(
        transform(sloppy(), vec![stmt(this()), stmt(member(this(), "a"))]),
        "define([], function() { void 0; void 0.a; });"
    );
}

#[test]
fn this_of_an_arrow_is_that_of_the_module() {
    let arrow = node(
        Form::Arrow { is_async: false, is_generator: false },
        vec![node(Form::Params, vec![]), this()],
    );
    assert_eq!(
        transform(sloppy(), vec![stmt(arrow)]),
        "define([], function() { () => void 0; });"
    );
}

#[test]
fn this_of_a_function_is_its_own() {
    let f = node(
        Form::FnDecl { declare: false },
        vec![pat("f"), function(vec![], vec![expr(this())])],
    );
    assert_eq!(
        transform(sloppy(), vec![ModuleItem::Stmt(f), stmt(this())]),
        "define([], function() { function f() { this; } void 0; });"
    );
}

#[test]
fn this_of_class_members_is_their_own() {
    let members = vec![
        node(
            Form::ClassProp { is_static: false },
            vec![leaf(Form::Name, "p"), node(Form::Decorators, vec![]), this()],
        ),
        node(
            Form::Constructor,
            vec![
                leaf(Form::Name, "constructor"),
                node(Form::Params, vec![]),
                block(vec![expr(this())]),
            ],
        ),
        node(
            Form::ClassMethod { kind: amd_transform::ast::MethodKind::Method, is_static: false },
            vec![leaf(Form::Name, "m"), function(vec![], vec![expr(this())])],
        ),
    ];
    let c = node(Form::ClassDecl { declare: false }, vec![pat("C"), class(members)]);
    assert_eq!(
        transform(sloppy(), vec![ModuleItem::Stmt(c), stmt(this())]),
        "define([], function() { class C { p = this; constructor() { this; } m() { this; } } \
         void 0; });"
    );
}

#[test]
fn this_of_accessors_is_their_own() {
    let object = node(
        Form::Object,
        vec![
            node(Form::Getter, vec![leaf(Form::Name, "g"), block(vec![expr(this())])]),
            node(Form::Setter, vec![leaf(Form::Name, "s"), pat("v"), block(vec![expr(this())])]),
            node(Form::KeyValue, vec![leaf(Form::Name, "k"), this()]),
        ],
    );
    assert_eq!(
        transform(sloppy(), vec![stmt(object)]),
        "define([], function() { { get g() { this; }, set s(v) { this; }, k: void 0 }; });"
    );
}

#[test]
fn shorthand_properties_are_spelled_out() {
    let object = node(
        Form::Object,
        vec![leaf(Form::Shorthand, "a"), leaf(Form::Shorthand, "b")],
    );
    assert_eq!(
        run(vec![import(vec![named_as("x", "a")], "m"), stmt(object)]),
        "define([\"m\"], function(_m) { \"use strict\"; { a: _m.x, b }; });"
    );
}

#[test]
fn property_names_are_no_variables() {
    assert_eq!(
        run(vec![
            import(vec![named("a")], "m"),
            stmt(member(id("x"), "a")),
            stmt(node(Form::Member { computed: true }, vec![id("x"), id("a")])),
        ]),
        "define([\"m\"], function(_m) { \"use strict\"; x.a; x[_m.a]; });"
    );
}

#[test]
fn a_name_in_another_context_is_another_name() {
    let mut other = id("a");
    other.span.ctxt = 7;
    assert_eq!(
        run(vec![import(vec![named("a")], "m"), stmt(other), stmt(id("a"))]),
        "define([\"m\"], function(_m) { \"use strict\"; a; _m.a; });"
    );
}

#[test]
fn names_that_are_bound_are_kept() {
    let decl = var_stmt(VarDeclKind::Let, vec![declarator(pat("a"), id("a"))]);
    assert_eq!(
        run(vec![import(vec![named("a")], "m"), ModuleItem::Stmt(decl)]),
        "define([\"m\"], function(_m) { \"use strict\"; let a = _m.a; });"
    );
}

#[test]
fn a_default_class_is_not_folded() {
    let members = vec![node(
        Form::ClassMethod { kind: amd_transform::ast::MethodKind::Method, is_static: false },
        vec![leaf(Form::Name, "m"), function(vec![], vec![expr(id("a"))])],
    )];
    assert_eq!(
        transform(
            strict(),
            vec![
                import(vec![named("a")], "x"),
                export_default_decl(DefaultDecl::Class(ClassExpr {
                    ident: Some(ident("C")),
                    class: class(members)
                }))
            ]
        ),
        "define([\"exports\", \"x\"], function(_exports, _x) { \"use strict\"; \
         _exports.default = void 0; class C { m() { a; } } _exports.default = C; });"
    );
}
