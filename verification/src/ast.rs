//! The syntax tree that the pass reads and writes.
//!
//! A program is a tree of [`Node`]s. What a node is stands in its [`Form`]; what it is
//! made of stands in its kids, in source order. The imports and exports of a module
//! have types of their own around such trees.

use vstd::prelude::*;

verus! {

/// A place in the source, together with the syntax context of what stands there.
///
/// Two identifiers with one spelling are the same name exactly when their contexts agree.
#[derive(Clone, Copy, Debug, PartialEq, Eq, Structural)]
pub struct Span {
    /// The first byte.
    pub lo: u32,
    /// The byte after the last one.
    pub hi: u32,
    /// The syntax context.
    pub ctxt: u32,
}

/// An identifier.
#[derive(Debug, PartialEq, Eq)]
pub struct Ident {
    pub sym: String,
    pub span: Span,
}

/// A string literal.
#[derive(Debug, PartialEq, Eq)]
pub struct Str {
    pub span: Span,
    pub value: String,
}

impl Clone for Ident {
    fn clone(&self) -> (copy: Self)
        ensures
            copy == *self,
    {
        Ident { sym: self.sym.clone(), span: self.span }
    }
}

impl Clone for Str {
    fn clone(&self) -> (copy: Self)
        ensures
            copy == *self,
    {
        Str { span: self.span, value: self.value.clone() }
    }
}

// ---------------------------------------------------------------------------
// Operators and keywords
// ---------------------------------------------------------------------------

/// A prefix operator that does not assign.
#[derive(Clone, Copy, Debug, PartialEq, Eq, Structural)]
pub enum UnaryOp {
    Minus,
    Plus,
    Bang,
    Tilde,
    TypeOf,
    Void,
    Delete,
}

/// `++` or `--`.
#[derive(Clone, Copy, Debug, PartialEq, Eq, Structural)]
pub enum UpdateOp {
    PlusPlus,
    MinusMinus,
}

/// An infix operator that does not assign.
#[derive(Clone, Copy, Debug, PartialEq, Eq, Structural)]
pub enum BinaryOp {
    EqEq,
    NotEq,
    EqEqEq,
    NotEqEq,
    Lt,
    LtEq,
    Gt,
    GtEq,
    LShift,
    RShift,
    ZeroFillRShift,
    Plus,
    Minus,
    Times,
    Div,
    Rem,
    BitOr,
    BitXor,
    BitAnd,
    LogicalOr,
    LogicalAnd,
    In,
    InstanceOf,
    Exp,
    NullishCoalescing,
}

/// `=`, or an operator with `=` behind it.
#[derive(Clone, Copy, Debug, PartialEq, Eq, Structural)]
pub enum AssignOp {
    Assign,
    PlusAssign,
    MinusAssign,
    TimesAssign,
    DivAssign,
    RemAssign,
    LShiftAssign,
    RShiftAssign,
    ZeroFillRShiftAssign,
    BitOrAssign,
    BitXorAssign,
    BitAndAssign,
    ExpAssign,
}

/// The keyword of a variable declaration.
#[derive(Clone, Copy, Debug, PartialEq, Eq, Structural)]
pub enum VarDeclKind {
    Var,
    Let,
    Const,
}

/// What sort of method a class member is.
#[derive(Clone, Copy, Debug, PartialEq, Eq, Structural)]
pub enum MethodKind {
    Method,
    Getter,
    Setter,
}

/// How a type is attached to an expression.
#[derive(Clone, Copy, Debug, PartialEq, Eq, Structural)]
pub enum TsExprKind {
    /// `<T>a`
    TypeAssertion,
    /// `a as const`
    ConstAssertion,
    /// `a!`
    NonNull,
    /// `a as T`
    As,
}

// ---------------------------------------------------------------------------
// Nodes
// ---------------------------------------------------------------------------

/// What a node is. The kids that go with each form are given in square brackets.
#[derive(Clone, Copy, Debug, PartialEq, Eq, Structural)]
pub enum Form {
    /// Nothing, where a part of the parent is left out.
    Absent,
    // Names. The spelling is the text of the node.
    /// A name in value position.
    Ident,
    /// A name that is bound: in a pattern, or by a declaration.
    BindingIdent,
    /// A name that is no variable: of a property, a label, a private member.
    Name,
    /// `{ a }`: a member of an object literal that is both key and value.
    Shorthand,
    // Literals, as written; a string by its value.
    Str,
    Num,
    BigInt,
    Regex,
    True,
    False,
    Null,
    // Expressions.
    This,
    Super,
    /// `[a, , ...b]` [elements; a hole is absent]
    Array,
    /// `{ .. }` [members]
    Object,
    /// `!a` [operand]
    Unary(UnaryOp),
    /// `a++`, `--a` [operand]
    Update { op: UpdateOp, prefix: bool },
    /// `a + b` [left, right]
    Binary(BinaryOp),
    /// `a = b` [target, value]
    Assign(AssignOp),
    /// `a.b`, `a[b]` [object, property]
    Member { computed: bool },
    /// `a ? b : c` [test, then, else]
    Cond,
    /// `f(a)` [callee, arguments..]
    Call,
    /// `new F(a)` [callee, arguments..]
    New,
    /// `a, b` [expressions]
    Sequence,
    /// `` `a${b}c` `` [pieces and expressions in turn]
    Tpl,
    /// A piece of a template.
    TplElem,
    /// `` tag`..` `` [tag, template]
    TaggedTpl,
    /// `(a) => b` [parameters, body]
    Arrow { is_async: bool, is_generator: bool },
    /// `function f() {}` [name or absent, function]
    FnExpr,
    /// `class C {}` [name or absent, class]
    ClassExpr,
    /// `yield a`, `yield* a` [operand or absent]
    Yield { delegate: bool },
    /// `new.target` [name, name]
    MetaProp,
    /// `await a` [operand]
    Await,
    /// `(a)` [expression]
    Paren,
    /// `a?.b` [expression]
    OptChain,
    /// `...a` [expression]
    Spread,
    /// `a as T` [expression, type]
    TsExpr(TsExprKind),
    /// A type or a declaration that only TypeScript has, as text.
    Ts,
    /// What a parser leaves where it could not read a node.
    Invalid,
    // JSX. The names of elements and attributes are no variables.
    /// `<a b>c</a>` [name, attributes.., content..]
    JsxElement { attributes: u32 },
    /// `<>a</>` [content..]
    JsxFragment,
    /// `a="b"`, `a={b}` [name, value or absent]
    JsxAttribute,
    /// `{...a}` [expression]
    JsxSpread,
    /// `{a}` [expression or absent]
    JsxContainer,
    /// Text between tags.
    JsxText,
    // Members of object literals.
    /// `a: b` [key, value]
    KeyValue,
    /// `[a]`, as a key [expression]
    ComputedKey,
    /// `a = b`, which only a pattern may hold in the end [key, value]
    AssignProp,
    /// `get a() {}` [key, body or absent]
    Getter,
    /// `set a(b) {}` [key, pattern, body or absent]
    Setter,
    /// `a() {}` [key, function]
    Method,
    // Functions and classes.
    /// What functions and methods share [parameters, decorators, body or absent]
    Function { is_async: bool, is_generator: bool },
    /// [patterns]
    Params,
    /// [expressions]
    Decorators,
    /// What class declarations and class values share [decorators, superclass or
    /// absent, members..]
    Class,
    /// `constructor() {}` [key, parameters, body or absent]
    Constructor,
    /// `a() {}` [key, function]
    ClassMethod { kind: MethodKind, is_static: bool },
    /// `a = b` [key, decorators, value or absent]
    ClassProp { is_static: bool },
    // Patterns.
    /// `[a, , b]` [patterns; a hole is absent]
    ArrayPat,
    /// `{ .. }` [members]
    ObjectPat,
    /// `a: b` [key, pattern]
    KeyValuePat,
    /// `a`, `a = b` in an object pattern [name, default or absent]
    AssignPatProp,
    /// `...a` [pattern]
    RestPat,
    /// `a = b` [pattern, default]
    AssignPat,
    // Statements.
    /// `a;` [expression]
    ExprStmt,
    /// `{ .. }` [statements]
    Block,
    Empty,
    Debugger,
    /// `with (a) b` [object, body]
    With,
    /// `return a;` [value or absent]
    Return,
    /// `l: a` [label, body]
    Labeled,
    /// `break l;` [label or absent]
    Break,
    /// `continue l;` [label or absent]
    Continue,
    /// `if (a) b else c` [test, then, else or absent]
    If,
    /// `switch (a) { .. }` [value, cases..]
    Switch,
    /// `case a:` [test or absent, statements..]
    Case,
    /// `throw a;` [value]
    Throw,
    /// `try {} catch (a) {} finally {}` [block, catch or absent, block or absent]
    Try,
    /// `catch (a) {}` [pattern or absent, block]
    Catch,
    /// `while (a) b` [test, body]
    While,
    /// `do b while (a)` [test, body]
    DoWhile,
    /// `for (a; b; c) d` [head, test, update, each or absent; body]
    For,
    /// `for (a in b) c` [head, value, body]
    ForIn,
    /// `for (a of b) c` [head, value, body]
    ForOf { is_await: bool },
    // Declarations.
    /// `let a = b;` [declarators]
    VarDecl { kind: VarDeclKind, declare: bool },
    /// `a = b` [pattern, value or absent]
    VarDeclarator { definite: bool },
    /// `function f() {}` [name, function]
    FnDecl { declare: bool },
    /// `class C {}` [name, class]
    ClassDecl { declare: bool },
}

/// A node of a syntax tree.
#[derive(Debug, PartialEq, Eq)]
pub struct Node {
    pub span: Span,
    pub form: Form,
    /// The spelling of a name or a literal; empty where the form has none.
    pub text: String,
    pub kids: Vec<Node>,
}

/// An expression.
pub type Expr = Node;

/// A statement.
pub type Stmt = Node;

/// A binding pattern.
pub type Pat = Node;

// ---------------------------------------------------------------------------
// Modules
// ---------------------------------------------------------------------------

/// A source file that is a module.
#[derive(Debug, PartialEq, Eq)]
pub struct Module {
    pub span: Span,
    pub body: Vec<ModuleItem>,
    pub shebang: Option<String>,
}

/// A top-level item of a module.
#[derive(Debug, PartialEq, Eq)]
pub enum ModuleItem {
    ModuleDecl(ModuleDecl),
    Stmt(Stmt),
}

/// An import or an export.
#[derive(Debug, PartialEq, Eq)]
pub enum ModuleDecl {
    /// `import a from 'b';`
    Import(ImportDecl),
    /// `export let a;`
    ExportDecl(ExportDecl),
    /// `export { a } from 'b';`
    ExportNamed(NamedExport),
    /// `export default function () {}`
    ExportDefaultDecl(ExportDefaultDecl),
    /// `export default a;`
    ExportDefaultExpr(ExportDefaultExpr),
    /// `export * from 'a';`
    ExportAll(ExportAll),
    /// `import a = require('b');`
    TsImportEquals(Node),
    /// `export = a;`
    TsExportAssignment(Node),
    /// `export as namespace a;`
    TsNamespaceExport(Node),
}

/// `import .. from 'src';`
#[derive(Debug, PartialEq, Eq)]
pub struct ImportDecl {
    pub span: Span,
    pub specifiers: Vec<ImportSpecifier>,
    pub src: Str,
}

/// A name that an import binds.
#[derive(Debug, PartialEq, Eq)]
pub enum ImportSpecifier {
    /// `{ a }`, or `{ a as b }` with `imported` holding `a`
    Specific { span: Span, local: Ident, imported: Option<Ident> },
    /// `a`
    Default { span: Span, local: Ident },
    /// `* as a`
    Namespace { span: Span, local: Ident },
}

/// `export` before a declaration.
#[derive(Debug, PartialEq, Eq)]
pub struct ExportDecl {
    pub span: Span,
    pub decl: Decl,
}

/// A declaration that can be exported.
#[derive(Debug, PartialEq, Eq)]
pub enum Decl {
    /// `class C {}`
    Class(ClassDecl),
    /// `function f() {}`
    Fn(FnDecl),
    /// `let a = b;`
    Var(VarDecl),
    /// `interface I {}`
    TsInterface(Node),
    /// `type T = U;`
    TsTypeAlias(Node),
    /// `enum E {}`
    TsEnum(Node),
    /// `namespace N {}`
    TsModule(Node),
}

/// A class declaration.
#[derive(Debug, PartialEq, Eq)]
pub struct ClassDecl {
    pub ident: Ident,
    pub declare: bool,
    pub class: Node,
}

/// A function declaration.
#[derive(Debug, PartialEq, Eq)]
pub struct FnDecl {
    pub ident: Ident,
    pub declare: bool,
    pub function: Node,
}

/// A variable declaration.
#[derive(Debug, PartialEq, Eq)]
pub struct VarDecl {
    pub span: Span,
    pub kind: VarDeclKind,
    pub declare: bool,
    /// The declarators.
    pub decls: Vec<Node>,
}

/// `export { .. }`, from another module when `src` is given.
#[derive(Debug, PartialEq, Eq)]
pub struct NamedExport {
    pub span: Span,
    pub specifiers: Vec<ExportSpecifier>,
    pub src: Option<Str>,
}

/// A name that an export gives out.
#[derive(Debug, PartialEq, Eq)]
pub enum ExportSpecifier {
    /// `* as a`
    Namespace { span: Span, name: Ident },
    /// `a`, of `export a from`
    Default { span: Span, exported: Ident },
    /// `a` or `a as b` in braces
    Named(NamedExportSpecifier),
}

/// `orig`, or `orig as exported`.
#[derive(Debug, PartialEq, Eq)]
pub struct NamedExportSpecifier {
    pub span: Span,
    pub orig: Ident,
    pub exported: Option<Ident>,
}

/// `export * from 'src';`
#[derive(Debug, PartialEq, Eq)]
pub struct ExportAll {
    pub span: Span,
    pub src: Str,
}

/// `export default` before a declaration.
#[derive(Debug, PartialEq, Eq)]
pub struct ExportDefaultDecl {
    pub span: Span,
    pub decl: DefaultDecl,
}

/// What `export default` can declare.
#[derive(Debug, PartialEq, Eq)]
pub enum DefaultDecl {
    /// `class C {}`
    Class(ClassExpr),
    /// `function f() {}`
    Fn(FnExpr),
    /// `interface I {}`
    TsInterfaceDecl(Node),
}

/// A class with its name, if it has one.
#[derive(Debug, PartialEq, Eq)]
pub struct ClassExpr {
    pub ident: Option<Ident>,
    pub class: Node,
}

/// A function with its name, if it has one.
#[derive(Debug, PartialEq, Eq)]
pub struct FnExpr {
    pub ident: Option<Ident>,
    pub function: Node,
}

/// `export default expr;`
#[derive(Debug, PartialEq, Eq)]
pub struct ExportDefaultExpr {
    pub span: Span,
    pub expr: Expr,
}

} // verus!
