//! The pass and its parts, with the names that it generates.

use amd_transform::ast::{
    AssignOp, ExportSpecifier, Form, Ident, ImportDecl, ImportSpecifier, Module, ModuleDecl,
    ModuleItem, NamedExport, NamedExportSpecifier, Node, Span, Str, UpdateOp, VarDeclKind,
};
use amd_transform::bindings::find_idents;
use amd_transform::emit::{has_use_strict, prepend_stmts, use_strict};
use amd_transform::finish::{initialize_to_undefined, Reading};
use amd_transform::hygiene::{fresh_ctxt, Contexts};
use amd_transform::names::local_name_for_src;
use amd_transform::scope::{to_id, Id, Scope};
use amd_transform::table::Table;
use amd_transform::{amd, amd_module, util, Amd, Config};
use swc_common::{Globals, Mark, SyntaxContext, GLOBALS};

fn sp(ctxt: u32) -> Span {
    Span { lo: 0, hi: 0, ctxt }
}

fn leaf(form: Form, text: &str) -> Node {
    Node { span: sp(0), form, text: text.to_string(), kids: vec![] }
}

fn node(form: Form, kids: Vec<Node>) -> Node {
    Node { span: sp(0), form, text: String::new(), kids }
}

fn ident(sym: &str, ctxt: u32) -> Ident {
    Ident { sym: sym.to_string(), span: sp(ctxt) }
}

fn string(value: &str) -> Str {
    Str { span: sp(0), value: value.to_string() }
}

fn import(specifiers: Vec<ImportSpecifier>, src: &str) -> ImportDecl {
    ImportDecl { span: sp(0), specifiers, src: string(src) }
}

fn named(name: &str) -> ImportSpecifier {
    ImportSpecifier::Specific { span: sp(0), local: ident(name, 0), imported: None }
}

fn item(d: ImportDecl) -> ModuleItem {
    ModuleItem::ModuleDecl(ModuleDecl::Import(d))
}

fn module(body: Vec<ModuleItem>) -> Module {
    Module { span: sp(0), body, shebang: None }
}

/// Contexts that are numbered from `first` on.
fn contexts_from(first: u32) -> Contexts {
    let mut globals = Globals::new();
    for n in 1..first {
        assert_eq!(fresh_ctxt(&mut globals), n);
    }
    Contexts::new(globals)
}

/// The argument of the call of `define` at a place from the end.
fn define_arg(m: &Module, from_end: usize) -> &Node {
    let stmt = match &m.body[0] {
        ModuleItem::Stmt(s) => s,
        _ => panic!("not a statement"),
    };
    let args = &stmt.kids[0].kids;
    &args[args.len() - from_end]
}

fn deps(m: &Module) -> Vec<String> {
    define_arg(m, 2).kids.iter().map(|n| n.text.clone()).collect()
}

fn params(m: &Module) -> Vec<(String, u32)> {
    let function = &define_arg(m, 1).kids[1];
    function.kids[0].kids.iter().map(|n| (n.text.clone(), n.span.ctxt)).collect()
}

fn stmts(m: &Module) -> &Vec<Node> {
    &define_arg(m, 1).kids[1].kids[2].kids
}

// ---------------------------------------------------------------------------
// Names and contexts
// ---------------------------------------------------------------------------

#[test]
fn local_names_are_camel_cased_last_segments() {
    assert_eq!(local_name_for_src("foo"), "_foo");
    assert_eq!(local_name_for_src("foo-bar"), "_fooBar");
    assert_eq!(local_name_for_src("./foo_bar"), "_fooBar");
    assert_eq!(local_name_for_src("a/b/some-module"), "_someModule");
    assert_eq!(local_name_for_src("a/b/"), "_");
    assert_eq!(local_name_for_src(""), "_");
}

#[test]
fn fresh_contexts_are_numbered_in_order() {
    let mut globals = Globals::new();
    assert_eq!(fresh_ctxt(&mut globals), 1);
    assert_eq!(fresh_ctxt(&mut globals), 2);
    assert_eq!(fresh_ctxt(&mut globals), 3);
}

#[test]
fn fresh_contexts_go_on_from_those_that_a_store_has() {
    let mut globals = Globals::new();
    GLOBALS.set(&globals, || {
        let mark = Mark::fresh(Mark::root());
        let ctxt = SyntaxContext::empty().apply_mark(mark);
        let other = ctxt.apply_mark(Mark::fresh(Mark::root()));
        assert_eq!((ctxt.as_u32(), other.as_u32()), (1, 2));
    });
    assert_eq!(fresh_ctxt(&mut globals), 3);
}

#[test]
fn a_mark_that_was_applied_early_gives_the_context_of_then() {
    let mut globals = Globals::new();
    GLOBALS.set(&globals, || {
        let early = SyntaxContext::empty().apply_mark(Mark::from_u32(2));
        assert_eq!(early.as_u32(), 1);
    });
    assert_eq!(fresh_ctxt(&mut globals), 2);
    assert_eq!(fresh_ctxt(&mut globals), 1);
    assert_eq!(fresh_ctxt(&mut globals), 3);
}

#[test]
fn contexts_are_handed_out_in_order() {
    let mut contexts = contexts_from(7);
    assert_eq!(contexts.used, 0);
    assert_eq!(contexts.next(), 7);
    assert_eq!(contexts.next(), 8);
    assert_eq!(contexts.used, 2);
    assert_eq!(fresh_ctxt(&mut contexts.globals), 9);
}

#[test]
fn contexts_are_drawn_only_for_names() {
    let mut globals = Globals::new();
    let mut pass = amd(settings(true), &mut globals);
    pass.fold(module(vec![]), &mut globals);
    assert_eq!(fresh_ctxt(&mut globals), 3);
    let namespace = ImportSpecifier::Namespace { span: sp(0), local: ident("all", 0) };
    pass.fold(module(vec![item(import(vec![namespace], "m"))]), &mut globals);
    assert_eq!(fresh_ctxt(&mut globals), 4);
    let twice = vec![item(import(vec![named("a")], "m")), item(import(vec![named("b")], "m"))];
    pass.fold(module(twice), &mut globals);
    assert_eq!(fresh_ctxt(&mut globals), 6);
}

// ---------------------------------------------------------------------------
// Tables and scopes
// ---------------------------------------------------------------------------

#[test]
fn tables_keep_the_order_of_first_insertion() {
    let mut table: Table<String, u32> = Table::new();
    table.insert("b".to_string(), 1);
    table.insert("a".to_string(), 2);
    table.insert("b".to_string(), 3);
    assert_eq!(table.entries, vec![("b".to_string(), 3), ("a".to_string(), 2)]);
    assert_eq!(table.get(&"a".to_string()), Some(&2));
    assert_eq!(table.get(&"c".to_string()), None);
    assert_eq!(table.position(&"a".to_string()), Some(1));
}

#[test]
fn names_are_spellings_in_contexts() {
    assert_eq!(to_id(&ident("a", 3)), Id { sym: "a".to_string(), ctxt: 3 });
}

#[test]
fn an_import_binds_its_names() {
    let mut scope = Scope::default();
    let mut contexts = contexts_from(5);
    scope.insert_import(import(vec![named("a")], "m"), &mut contexts);
    assert_eq!(contexts.used, 1);
    let local = scope.local(&"m".to_string()).unwrap();
    assert_eq!(local, ident("_m", 5));
    let folded = scope.fold_ident(ident("a", 0)).unwrap();
    assert_eq!(folded.form, Form::Member { computed: false });
    assert_eq!(folded.kids[0].text, "_m");
    assert_eq!(folded.kids[0].span.ctxt, 5);
    assert_eq!(folded.kids[1].text, "a");
    assert_eq!(scope.fold_ident(ident("a", 1)), Err(ident("a", 1)));
}

#[test]
fn a_second_import_uses_no_context() {
    let mut scope = Scope::default();
    let mut contexts = contexts_from(5);
    scope.insert_import(import(vec![named("a")], "m"), &mut contexts);
    scope.insert_import(import(vec![named("b")], "m"), &mut contexts);
    assert_eq!(contexts.used, 1);
    assert_eq!(scope.imports.entries.len(), 1);
}

#[test]
fn an_export_that_reads_nothing_gives_no_name() {
    let mut scope = Scope::default();
    let mut contexts = contexts_from(5);
    assert_eq!(scope.import_to_export(&"m".to_string(), false, &mut contexts), None);
    assert_eq!(contexts.used, 0);
    assert_eq!(
        scope.import_to_export(&"m".to_string(), true, &mut contexts),
        Some(ident("_m", 5))
    );
}

#[test]
fn interop_types_only_widen() {
    let mut scope = Scope::default();
    let m = "m".to_string();
    scope.use_all(&m);
    assert_eq!(scope.import_types.get(&m), None);
    scope.use_default(&m);
    assert_eq!(scope.import_types.get(&m), Some(&false));
    scope.use_all(&m);
    assert_eq!(scope.import_types.get(&m), Some(&true));
    scope.use_default(&m);
    assert_eq!(scope.import_types.get(&m), Some(&true));
}

#[test]
fn a_variable_can_have_many_exports() {
    let mut scope = Scope::default();
    let a = Id { sym: "a".to_string(), ctxt: 0 };
    let b = Id { sym: "b".to_string(), ctxt: 0 };
    scope.export_var(a.clone(), a.clone());
    scope.export_var(a.clone(), b.clone());
    assert_eq!(scope.exported_vars.get(&a), Some(&vec![a.clone(), b.clone()]));
    assert_eq!(scope.exported_vars.get(&b), None);
}

#[test]
fn patterns_bind_names_and_expressions_do_not() {
    let pattern = node(
        Form::ArrayPat,
        vec![leaf(Form::BindingIdent, "a"), leaf(Form::Ident, "b"), leaf(Form::Absent, "")],
    );
    let mut found = vec![ident("z", 0)];
    find_idents(&pattern, &mut found);
    assert_eq!(found, vec![ident("z", 0), ident("a", 0)]);
}

// ---------------------------------------------------------------------------
// Statements
// ---------------------------------------------------------------------------

#[test]
fn statements_are_put_behind_directives() {
    let directive = || node(Form::ExprStmt, vec![leaf(Form::Str, "use asm")]);
    let plain = || leaf(Form::Empty, "");
    let more = || leaf(Form::Debugger, "");
    assert_eq!(
        prepend_stmts(vec![directive(), plain(), directive()], vec![more()]),
        vec![directive(), more(), plain(), directive()]
    );
    assert_eq!(prepend_stmts(vec![], vec![more()]), vec![more()]);
}

#[test]
fn use_strict_is_found_at_the_start_alone() {
    let other = || ModuleItem::Stmt(leaf(Form::Empty, ""));
    assert!(has_use_strict(&vec![ModuleItem::Stmt(use_strict()), other()]));
    assert!(!has_use_strict(&vec![other(), ModuleItem::Stmt(use_strict())]));
    assert!(!has_use_strict(&vec![]));
}

#[test]
fn names_are_initialized_from_the_inside_out() {
    let e = initialize_to_undefined(
        &ident("_exports", 1),
        vec!["a".to_string(), "b".to_string()],
    );
    assert_eq!(e.form, Form::Assign(AssignOp::Assign));
    assert_eq!(e.kids[0].kids[1].text, "b");
    assert_eq!(e.kids[1].kids[0].kids[1].text, "a");
    assert_eq!(e.kids[1].kids[1].kids[0].text, "0");
}

// ---------------------------------------------------------------------------
// The pass
// ---------------------------------------------------------------------------

fn settings(no_interop: bool) -> Config {
    Config {
        module_id: None,
        config: util::Config { strict: true, strict_mode: false, no_interop },
    }
}

#[test]
fn settings_have_defaults() {
    let config = Config::default();
    assert_eq!(config.module_id, None);
    assert_eq!(
        config.config,
        util::Config { strict: false, strict_mode: true, no_interop: false }
    );
}

#[test]
fn a_new_pass_draws_two_contexts() {
    let mut globals = Globals::new();
    let pass = amd(settings(false), &mut globals);
    assert_eq!(pass.exports, ident("_exports", 1));
    assert_eq!(pass.helpers.ctxt, 2);
    assert!(!pass.in_top_level);
    assert!(!pass.config().strict_mode);
    assert!(pass.scope().imports.entries.is_empty());
    assert_eq!(fresh_ctxt(&mut globals), 3);
}

#[test]
fn two_passes_on_one_store_share_no_name() {
    let mut globals = Globals::new();
    let mut names = vec![];
    for _ in 0..2 {
        let mut pass = amd(settings(false), &mut globals);
        let output = pass.fold(module(vec![item(import(vec![named("a")], "m"))]), &mut globals);
        names.push(params(&output)[0].clone());
    }
    assert_eq!(names, vec![("_m".to_string(), 3), ("_m".to_string(), 6)]);
}

#[test]
fn sources_come_in_the_order_of_their_first_mention() {
    let output = amd_module(
        settings(true),
        module(vec![
            item(import(vec![], "c")),
            ModuleItem::ModuleDecl(ModuleDecl::ExportAll(amd_transform::ast::ExportAll {
                span: sp(0),
                src: string("z"),
            })),
            item(import(vec![named("a")], "a")),
            item(import(vec![named("b")], "c")),
            ModuleItem::ModuleDecl(ModuleDecl::ExportNamed(NamedExport {
                span: sp(0),
                specifiers: vec![],
                src: Some(string("b")),
            })),
        ]),
    );
    assert_eq!(deps(&output), vec!["exports", "c", "a", "b", "z"]);
    let params = params(&output);
    assert_eq!(
        params.iter().map(|p| p.0.as_str()).collect::<Vec<_>>(),
        vec!["_exports", "_c", "_a", "_b", "_z"]
    );
    let mut contexts: Vec<u32> = params.iter().map(|p| p.1).collect();
    contexts.sort();
    contexts.dedup();
    assert_eq!(contexts.len(), 5);
}

#[test]
fn equal_local_names_are_kept_apart_by_their_contexts() {
    let output = amd_module(
        settings(true),
        module(vec![item(import(vec![], "x/foo")), item(import(vec![named("a")], "y/foo"))]),
    );
    let params = params(&output);
    assert_eq!(params[0].0, params[1].0);
    assert_ne!(params[0].1, params[1].1);
}

#[test]
fn references_refer_to_parameters() {
    let output = amd_module(
        settings(true),
        module(vec![
            item(import(vec![named("a")], "m")),
            ModuleItem::Stmt(node(Form::ExprStmt, vec![leaf(Form::Ident, "a")])),
            item(import(
                vec![ImportSpecifier::Namespace { span: sp(0), local: ident("all", 0) }],
                "m",
            )),
        ]),
    );
    let used = &stmts(&output)[0].kids[0].kids[0];
    assert_eq!(params(&output), vec![(used.text.clone(), used.span.ctxt)]);
}

#[test]
fn a_pass_notes_the_helpers_that_it_calls() {
    let default = || ImportSpecifier::Default { span: sp(0), local: ident("d", 0) };
    let mut globals = Globals::new();
    let mut pass = amd(settings(false), &mut globals);
    let output = pass.fold(module(vec![item(import(vec![default()], "m"))]), &mut globals);
    assert!(pass.helpers.interop_require_default);
    assert!(!pass.helpers.interop_require_wildcard);
    let helper = &stmts(&output)[0].kids[0].kids[1].kids[0];
    assert_eq!((helper.text.as_str(), helper.span.ctxt), ("_interopRequireDefault", 2));

    let mut pass = amd(settings(true), &mut globals);
    let output = pass.fold(module(vec![item(import(vec![default()], "m"))]), &mut globals);
    assert!(!pass.helpers.interop_require_default);
    assert!(stmts(&output).is_empty());
}

#[test]
fn a_pass_forgets_the_modules_and_keeps_the_variables() {
    let mut pass = Amd::new(settings(true), 1, 2);
    let decl = node(
        Form::VarDecl { kind: VarDeclKind::Let, declare: false },
        vec![node(
            Form::VarDeclarator { definite: false },
            vec![leaf(Form::BindingIdent, "v"), leaf(Form::Absent, "")],
        )],
    );
    let mut contexts = contexts_from(10);
    pass.fold_module(
        module(vec![item(import(vec![named("a")], "m")), ModuleItem::Stmt(decl)]),
        &mut contexts,
    );
    assert!(pass.in_top_level);
    assert_eq!(contexts.used, 1);
    assert!(pass.scope.imports.entries.is_empty());
    assert_eq!(pass.scope.declared_vars, vec![Id { sym: "v".to_string(), ctxt: 0 }]);
    pass.scope_mut().declared_vars.clear();
    assert!(pass.scope().declared_vars.is_empty());
}

#[test]
fn names_are_initialized_in_the_given_order() {
    let read = |names: Vec<&str>| Reading {
        header: vec![],
        body: vec![],
        names: names.into_iter().map(|n| n.to_string()).collect(),
        has_export: true,
        alls: vec![],
        strict: false,
    };
    let mut texts = vec![];
    for order in [vec!["a", "b"], vec!["b", "a"]] {
        let mut pass = Amd::new(settings(true), 1, 2);
        let mut contexts = contexts_from(3);
        let order = order.into_iter().map(|n| n.to_string()).collect();
        let stmt = pass.define(read(vec!["a", "b"]), order, &mut contexts);
        let output = module(vec![ModuleItem::Stmt(stmt)]);
        let outer = &stmts(&output)[0].kids[0];
        texts.push((
            outer.kids[0].kids[1].text.clone(),
            outer.kids[1].kids[0].kids[1].text.clone(),
        ));
    }
    assert_eq!(
        texts,
        vec![("b".to_string(), "a".to_string()), ("a".to_string(), "b".to_string())]
    );
}

#[test]
fn code_without_imports_and_exports_is_kept() {
    let tree = || {
        node(
            Form::If,
            vec![
                leaf(Form::Ident, "a"),
                node(
                    Form::ExprStmt,
                    vec![node(
                        Form::Update { op: UpdateOp::PlusPlus, prefix: true },
                        vec![leaf(Form::Ident, "b")],
                    )],
                ),
                leaf(Form::Absent, ""),
            ],
        )
    };
    let mut pass = Amd::new(settings(true), 1, 2);
    assert_eq!(pass.fold_node(tree()), tree());
}

#[test]
fn this_is_kept_below_the_top_level() {
    let mut pass = Amd::new(settings(true), 1, 2);
    assert_eq!(pass.fold_expr(leaf(Form::This, "")), leaf(Form::This, ""));
    pass.in_top_level = true;
    assert_eq!(
        pass.fold_expr(leaf(Form::This, "")).form,
        Form::Unary(amd_transform::ast::UnaryOp::Void)
    );
}

#[test]
fn declared_variables_are_noted_in_order() {
    let declarator = |name: &str, value: Node| {
        node(
            Form::VarDeclarator { definite: false },
            vec![leaf(Form::BindingIdent, name), value],
        )
    };
    let inner = node(
        Form::FnExpr,
        vec![
            leaf(Form::Absent, ""),
            node(
                Form::Function { is_async: false, is_generator: false },
                vec![
                    node(Form::Params, vec![]),
                    node(Form::Decorators, vec![]),
                    node(
                        Form::Block,
                        vec![node(
                            Form::VarDecl { kind: VarDeclKind::Var, declare: false },
                            vec![declarator("x", leaf(Form::Absent, ""))],
                        )],
                    ),
                ],
            ),
        ],
    );
    let mut pass = Amd::new(settings(true), 1, 2);
    let var = node(
        Form::VarDecl { kind: VarDeclKind::Let, declare: false },
        vec![declarator("a", inner), declarator("b", leaf(Form::Absent, ""))],
    );
    pass.fold_var_decl(var);
    let names: Vec<&str> = pass.scope.declared_vars.iter().map(|id| id.sym.as_str()).collect();
    assert_eq!(names, vec!["a", "b", "x"]);

    let mut pass = Amd::new(settings(true), 1, 2);
    let constant = node(
        Form::VarDecl { kind: VarDeclKind::Const, declare: false },
        vec![declarator("c", leaf(Form::Absent, ""))],
    );
    pass.fold_var_decl(constant);
    assert!(pass.scope.declared_vars.is_empty());
}

#[test]
fn getters_keep_the_place_of_the_exported_name() {
    let name = Ident { sym: "b".to_string(), span: Span { lo: 4, hi: 5, ctxt: 0 } };
    let output = amd_module(
        settings(true),
        module(vec![ModuleItem::ModuleDecl(ModuleDecl::ExportNamed(NamedExport {
            span: sp(0),
            specifiers: vec![ExportSpecifier::Named(NamedExportSpecifier {
                span: sp(0),
                orig: ident("a", 0),
                exported: Some(name),
            })],
            src: Some(string("m")),
        }))]),
    );
    let key = &stmts(&output)[0].kids[0].kids[2];
    assert_eq!((key.form, key.text.as_str()), (Form::Str, "b"));
    assert_eq!(key.span, Span { lo: 4, hi: 5, ctxt: 0 });
}

#[test]
fn items_can_be_read_in_two_parts() {
    let first = || vec![item(import(vec![named("a")], "m"))];
    let second = || {
        vec![ModuleItem::Stmt(node(Form::ExprStmt, vec![leaf(Form::Ident, "a")]))]
    };
    let pass = || {
        let mut pass = Amd::new(settings(true), 1, 2);
        pass.in_top_level = true;
        pass
    };

    let mut whole = pass();
    let mut contexts = contexts_from(5);
    let mut items = first();
    items.extend(second());
    let (together, _) = whole.read_items(items, &mut contexts);

    let mut parted = pass();
    let mut contexts = contexts_from(5);
    let (a, _) = parted.read_items(first(), &mut contexts);
    let (b, _) = parted.read_items(second(), &mut contexts);
    assert!(a.body.is_empty());
    assert_eq!(b.body, together.body);
    assert_eq!(parted.scope.imports.entries, whole.scope.imports.entries);
    assert_eq!(contexts.used, 1);
}

#[test]
fn one_pass_folds_many_modules() {
    let use_a = || ModuleItem::Stmt(node(Form::ExprStmt, vec![leaf(Form::Ident, "a")]));
    let mut globals = Globals::new();
    let mut pass = amd(settings(true), &mut globals);

    let first = pass.fold(
        module(vec![item(import(vec![named("a")], "x")), use_a()]),
        &mut globals,
    );
    assert_eq!(deps(&first), vec!["x"]);
    assert_eq!(params(&first), vec![("_x".to_string(), 3)]);
    assert_eq!(stmts(&first)[0].kids[0].kids[0].text, "_x");

    let second = pass.fold(module(vec![use_a()]), &mut globals);
    assert!(deps(&second).is_empty());
    assert_eq!(stmts(&second), &vec![node(Form::ExprStmt, vec![leaf(Form::Ident, "a")])]);

    let third = pass.fold(
        module(vec![item(import(vec![named("a")], "y")), use_a()]),
        &mut globals,
    );
    assert_eq!(deps(&third), vec!["y"]);
    assert_eq!(params(&third), vec![("_y".to_string(), 4)]);
    assert_eq!(stmts(&third)[0].kids[0].kids[0].text, "_y");
}

#[test]
fn a_source_that_is_imported_again_gets_a_new_name() {
    let mut globals = Globals::new();
    let mut pass = amd(settings(true), &mut globals);
    let input = || module(vec![item(import(vec![named("a")], "x"))]);
    assert_eq!(params(&pass.fold(input(), &mut globals)), vec![("_x".to_string(), 3)]);
    assert_eq!(params(&pass.fold(input(), &mut globals)), vec![("_x".to_string(), 4)]);
}

#[test]
fn every_generated_name_has_a_context_of_its_own() {
    let export_all = |src: &str| {
        ModuleItem::ModuleDecl(ModuleDecl::ExportAll(amd_transform::ast::ExportAll {
            span: sp(0),
            src: string(src),
        }))
    };
    let output = amd_module(
        settings(true),
        module(vec![
            export_all("x"),
            export_all("y"),
            ModuleItem::ModuleDecl(ModuleDecl::ExportDefaultExpr(
                amd_transform::ast::ExportDefaultExpr {
                    span: sp(0),
                    expr: leaf(Form::Num, "1"),
                },
            )),
        ]),
    );
    let body = stmts(&output);
    let list = &body[0].kids[0].kids[0];
    let key = |n: &Node| {
        let key = &n.kids[0].kids[1].kids[1].kids[0].kids[0];
        (key.text.clone(), key.span.ctxt)
    };
    let default = &body[4].kids[0].kids[0];
    let mut names: Vec<(String, u32)> = params(&output);
    names.push((list.text.clone(), list.span.ctxt));
    names.push(key(&body[1]));
    names.push(key(&body[2]));
    names.push((default.text.clone(), default.span.ctxt));
    let expected: Vec<(&str, u32)> = vec![
        ("_exports", 1),
        ("_x", 5),
        ("_y", 7),
        ("_exportNames", 4),
        ("key", 6),
        ("key", 8),
        ("_default", 3),
    ];
    assert_eq!(names.iter().map(|n| (n.0.as_str(), n.1)).collect::<Vec<_>>(), expected);
}
