//! The mathematical value of a syntax tree: the same shape, with sequences for
//! vectors and sequences of characters for strings. Contracts speak of these.

use vstd::prelude::*;

use crate::ast::{
    Decl, DefaultDecl, ExportAll, ExportDecl, ExportDefaultDecl, ExportDefaultExpr,
    ExportSpecifier, Form, Ident, ImportDecl, ImportSpecifier, Module, ModuleDecl, ModuleItem,
    NamedExport, Node, Span, Stmt, Str, VarDecl, VarDeclKind,
};

verus! {

/// The value of an [`Ident`].
pub struct IdentView {
    pub sym: Seq<char>,
    pub span: Span,
}

/// The value of a [`Str`].
pub struct StrView {
    pub span: Span,
    pub value: Seq<char>,
}

/// The value of a [`Node`].
pub struct NodeView {
    pub span: Span,
    pub form: Form,
    pub text: Seq<char>,
    pub kids: Seq<NodeView>,
}

impl Ident {
    /// The value of this identifier.
    pub open spec fn view(self) -> IdentView {
        IdentView { sym: self.sym@, span: self.span }
    }
}

impl Str {
    /// The value of this literal.
    pub open spec fn view(self) -> StrView {
        StrView { span: self.span, value: self.value@ }
    }
}

impl Node {
    /// The value of this tree.
    pub open spec fn view(self) -> NodeView
        decreases self,
    {
        NodeView {
            span: self.span,
            form: self.form,
            text: self.text@,
            kids: nodes_view(self.kids@),
        }
    }
}

/// The values of a list of trees, in order.
pub open spec fn nodes_view(s: Seq<Node>) -> Seq<NodeView>
    decreases s,
{
    Seq::new(s.len(), |i: int| if 0 <= i < s.len() { s[i]@ } else { arbitrary() })
}

/// The kids of a tree's value are the values of its kids.
pub proof fn lemma_kids(n: Node)
    ensures
        n@.kids == nodes_view(n.kids@),
        n@.kids.len() == n.kids@.len(),
        forall|i: int| 0 <= i < n.kids@.len() ==> #[trigger] n@.kids[i] == n.kids@[i]@,
{
    reveal_with_fuel(Node::view, 2);
}

/// The value of an optional identifier.
pub open spec fn ident_opt_view(ident: Option<Ident>) -> Option<IdentView> {
    match ident {
        Some(i) => Some(i@),
        None => None,
    }
}

/// The value of an optional string.
pub open spec fn string_opt_view(s: Option<String>) -> Option<Seq<char>> {
    match s {
        Some(s) => Some(s@),
        None => None,
    }
}

/// The values of a list of strings.
pub open spec fn strings_view(s: Seq<String>) -> Seq<Seq<char>> {
    Seq::new(s.len(), |i: int| s[i]@)
}

// ---------------------------------------------------------------------------
// Modules
// ---------------------------------------------------------------------------

/// The value of a [`Module`].
pub struct ModuleView {
    pub span: Span,
    pub body: Seq<ModuleItemView>,
    pub shebang: Option<Seq<char>>,
}

/// The value of a [`ModuleItem`].
pub enum ModuleItemView {
    ModuleDecl(ModuleDeclView),
    Stmt(NodeView),
}

/// The value of a [`ModuleDecl`].
pub enum ModuleDeclView {
    Import(ImportDeclView),
    ExportDecl(DeclView),
    ExportNamed(NamedExportView),
    ExportDefaultDecl(DefaultDeclView),
    ExportDefaultExpr(NodeView),
    ExportAll(StrView),
    Ts,
}

/// The value of an [`ImportDecl`].
pub struct ImportDeclView {
    pub specifiers: Seq<ImportSpecifierView>,
    pub src: StrView,
}

/// The value of an [`ImportSpecifier`].
pub enum ImportSpecifierView {
    Specific { local: IdentView, imported: Option<IdentView> },
    Default { local: IdentView },
    Namespace { local: IdentView },
}

/// The value of a [`Decl`].
pub enum DeclView {
    Class { ident: IdentView, declare: bool, class: NodeView },
    Fn { ident: IdentView, declare: bool, function: NodeView },
    Var(VarDeclView),
    Ts,
}

/// The value of a [`VarDecl`].
pub struct VarDeclView {
    pub span: Span,
    pub kind: VarDeclKind,
    pub declare: bool,
    pub decls: Seq<NodeView>,
}

/// The value of a [`NamedExport`].
pub struct NamedExportView {
    pub specifiers: Seq<ExportSpecifierView>,
    pub src: Option<StrView>,
}

/// The value of an [`ExportSpecifier`].
pub enum ExportSpecifierView {
    Namespace { name: IdentView },
    Default { exported: IdentView },
    Named { orig: IdentView, exported: Option<IdentView> },
}

/// The value of a [`DefaultDecl`].
pub enum DefaultDeclView {
    Class { ident: Option<IdentView>, class: NodeView },
    Fn { ident: Option<IdentView>, function: NodeView },
    TsInterfaceDecl,
}

impl Module {
    /// The value of this module.
    pub open spec fn view(self) -> ModuleView {
        ModuleView {
            span: self.span,
            body: items_view(self.body@),
            shebang: string_opt_view(self.shebang),
        }
    }
}

/// The values of a list of items, in order.
pub open spec fn items_view(s: Seq<ModuleItem>) -> Seq<ModuleItemView> {
    Seq::new(s.len(), |i: int| s[i]@)
}

impl ModuleItem {
    /// The value of this item.
    pub open spec fn view(self) -> ModuleItemView {
        match self {
            ModuleItem::ModuleDecl(d) => ModuleItemView::ModuleDecl(d@),
            ModuleItem::Stmt(s) => ModuleItemView::Stmt(s@),
        }
    }
}

impl ModuleDecl {
    /// The value of this import or export.
    pub open spec fn view(self) -> ModuleDeclView {
        match self {
            ModuleDecl::Import(d) => ModuleDeclView::Import(d@),
            ModuleDecl::ExportDecl(d) => ModuleDeclView::ExportDecl(d.decl@),
            ModuleDecl::ExportNamed(d) => ModuleDeclView::ExportNamed(d@),
            ModuleDecl::ExportDefaultDecl(d) => ModuleDeclView::ExportDefaultDecl(d.decl@),
            ModuleDecl::ExportDefaultExpr(d) => ModuleDeclView::ExportDefaultExpr(d.expr@),
            ModuleDecl::ExportAll(d) => ModuleDeclView::ExportAll(d.src@),
            ModuleDecl::TsImportEquals(_) => ModuleDeclView::Ts,
            ModuleDecl::TsExportAssignment(_) => ModuleDeclView::Ts,
            ModuleDecl::TsNamespaceExport(_) => ModuleDeclView::Ts,
        }
    }
}

impl ImportDecl {
    /// The value of this import.
    pub open spec fn view(self) -> ImportDeclView {
        ImportDeclView { specifiers: import_specifiers_view(self.specifiers@), src: self.src@ }
    }
}

/// The values of a list of import specifiers, in order.
pub open spec fn import_specifiers_view(s: Seq<ImportSpecifier>) -> Seq<ImportSpecifierView> {
    Seq::new(s.len(), |i: int| s[i]@)
}

impl ImportSpecifier {
    /// The value of this specifier.
    pub open spec fn view(self) -> ImportSpecifierView {
        match self {
            ImportSpecifier::Specific { local, imported, .. } => ImportSpecifierView::Specific {
                local: local@,
                imported: ident_opt_view(imported),
            },
            ImportSpecifier::Default { local, .. } => ImportSpecifierView::Default {
                local: local@,
            },
            ImportSpecifier::Namespace { local, .. } => ImportSpecifierView::Namespace {
                local: local@,
            },
        }
    }
}

impl Decl {
    /// The value of this declaration.
    pub open spec fn view(self) -> DeclView {
        match self {
            Decl::Class(d) => DeclView::Class {
                ident: d.ident@,
                declare: d.declare,
                class: d.class@,
            },
            Decl::Fn(d) => DeclView::Fn {
                ident: d.ident@,
                declare: d.declare,
                function: d.function@,
            },
            Decl::Var(d) => DeclView::Var(d@),
            Decl::TsInterface(_) => DeclView::Ts,
            Decl::TsTypeAlias(_) => DeclView::Ts,
            Decl::TsEnum(_) => DeclView::Ts,
            Decl::TsModule(_) => DeclView::Ts,
        }
    }
}

impl VarDecl {
    /// The value of this declaration.
    pub open spec fn view(self) -> VarDeclView {
        VarDeclView {
            span: self.span,
            kind: self.kind,
            declare: self.declare,
            decls: nodes_view(self.decls@),
        }
    }
}

impl NamedExport {
    /// The value of this export.
    pub open spec fn view(self) -> NamedExportView {
        NamedExportView {
            specifiers: export_specifiers_view(self.specifiers@),
            src: match self.src {
                Some(s) => Some(s@),
                None => None,
            },
        }
    }
}

/// The values of a list of export specifiers, in order.
pub open spec fn export_specifiers_view(s: Seq<ExportSpecifier>) -> Seq<ExportSpecifierView> {
    Seq::new(s.len(), |i: int| s[i]@)
}

impl ExportSpecifier {
    /// The value of this specifier.
    pub open spec fn view(self) -> ExportSpecifierView {
        match self {
            ExportSpecifier::Namespace { name, .. } => ExportSpecifierView::Namespace {
                name: name@,
            },
            ExportSpecifier::Default { exported, .. } => ExportSpecifierView::Default {
                exported: exported@,
            },
            ExportSpecifier::Named(n) => ExportSpecifierView::Named {
                orig: n.orig@,
                exported: ident_opt_view(n.exported),
            },
        }
    }
}

impl DefaultDecl {
    /// The value of this declaration.
    pub open spec fn view(self) -> DefaultDeclView {
        match self {
            DefaultDecl::Class(c) => DefaultDeclView::Class {
                ident: ident_opt_view(c.ident),
                class: c.class@,
            },
            DefaultDecl::Fn(f) => DefaultDeclView::Fn {
                ident: ident_opt_view(f.ident),
                function: f.function@,
            },
            DefaultDecl::TsInterfaceDecl(_) => DefaultDeclView::TsInterfaceDecl,
        }
    }
}

} // verus!
