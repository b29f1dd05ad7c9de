//! What the pass knows of a module's names: which modules it imports, what its
//! imported names stand for, and under which names its variables are exported.

use vstd::prelude::*;

use crate::ast::{Expr, Ident};
use crate::emit::{ident_expr, ident_view, member, member_view, plain_name, quote_ident};
use crate::model::{IdentView, NodeView, ident_opt_view};
use crate::table::{Key, Table, key_at, lemma_entry, lemma_update};

verus! {

// ---------------------------------------------------------------------------
// Names and what they stand for
// ---------------------------------------------------------------------------

/// A name: a spelling and a syntax context.
#[derive(Debug, PartialEq, Eq)]
pub struct Id {
    pub sym: String,
    pub ctxt: u32,
}

/// The value of an [`Id`].
pub struct IdView {
    pub sym: Seq<char>,
    pub ctxt: u32,
}

impl View for Id {
    type V = IdView;

    open spec fn view(&self) -> IdView {
        IdView { sym: self.sym@, ctxt: self.ctxt }
    }
}

impl Clone for Id {
    fn clone(&self) -> (copy: Self)
        ensures
            copy == *self,
    {
        Id { sym: self.sym.clone(), ctxt: self.ctxt }
    }
}

impl Key for Id {
    fn same(&self, other: &Self) -> (same: bool) {
        self.ctxt == other.ctxt && self.sym == other.sym
    }
}

/// The name of an identifier, wherever it stands.
pub open spec fn id_of(ident: IdentView) -> IdView {
    IdView { sym: ident.sym, ctxt: ident.span.ctxt }
}

/// The name of an identifier, wherever it stands.
pub fn to_id(ident: &Ident) -> (id: Id)
    ensures
        id@ == id_of(ident@),
{
    Id { sym: ident.sym.clone(), ctxt: ident.span.ctxt }
}

/// The values of a list of names.
pub open spec fn ids_view(ids: Seq<Id>) -> Seq<IdView> {
    Seq::new(ids.len(), |i: int| ids[i]@)
}

/// The values of a list of identifiers.
pub open spec fn idents_view(idents: Seq<Ident>) -> Seq<IdentView> {
    Seq::new(idents.len(), |i: int| idents[i]@)
}

/// The names of a list of identifiers.
pub open spec fn ids_of(idents: Seq<IdentView>) -> Seq<IdView> {
    Seq::new(idents.len(), |i: int| id_of(idents[i]))
}

/// What an imported name stands for: a property of a module, or the module itself
/// when the property is empty.
#[derive(Debug)]
pub struct Binding {
    pub src: String,
    pub prop: String,
}

/// The value of a [`Binding`].
pub struct BindingView {
    pub src: Seq<char>,
    pub prop: Seq<char>,
}

impl Binding {
    /// The value that this binding stands for.
    pub open spec fn view(self) -> BindingView {
        BindingView { src: self.src@, prop: self.prop@ }
    }
}

/// An imported module and the name that it is bound to, if it has one.
pub struct ImportView {
    pub src: Seq<char>,
    pub local: Option<IdentView>,
}

/// The values of the entries of an import table, in order.
pub open spec fn imports_view(entries: Seq<(String, Option<Ident>)>) -> Seq<ImportView> {
    Seq::new(
        entries.len(),
        |i: int|
            ImportView {
                src: entries[i].0@,
                local: match entries[i].1 {
                    Some(l) => Some(l@),
                    None => None,
                },
            },
    )
}

// ---------------------------------------------------------------------------
// The list of imported modules
// ---------------------------------------------------------------------------

/// Whether no module is listed twice.
pub open spec fn distinct_srcs(imports: Seq<ImportView>) -> bool {
    forall|i: int, j: int|
        0 <= i < j < imports.len() ==> (#[trigger] imports[i]).src != (#[trigger] imports[j]).src
}

/// Where a module is listed; negative where it is not.
pub open spec fn find_src(imports: Seq<ImportView>, src: Seq<char>) -> int
    decreases imports.len(),
{
    if imports.len() == 0 {
        -1
    } else if imports.last().src == src {
        imports.len() - 1
    } else {
        find_src(imports.drop_last(), src)
    }
}

/// The name that a module is bound to.
pub open spec fn local_of(imports: Seq<ImportView>, src: Seq<char>) -> Option<IdentView> {
    if find_src(imports, src) >= 0 {
        imports[find_src(imports, src)].local
    } else {
        None
    }
}

/// The imports with `src` among them.
pub open spec fn mentioned(imports: Seq<ImportView>, src: Seq<char>) -> Seq<ImportView> {
    if find_src(imports, src) >= 0 {
        imports
    } else {
        imports.push(ImportView { src, local: None })
    }
}

/// The imports with `src` bound to a name: the one that it has, else `local`.
pub open spec fn bound(imports: Seq<ImportView>, src: Seq<char>, local: IdentView) -> Seq<
    ImportView,
> {
    let i = find_src(imports, src);
    let entry = ImportView { src, local: Some(local) };
    if i < 0 {
        imports.push(entry)
    } else if imports[i].local is None {
        imports.update(i, entry)
    } else {
        imports
    }
}

/// What [`find_src`] finds.
pub proof fn lemma_find_src(imports: Seq<ImportView>, src: Seq<char>)
    ensures
        -1 <= find_src(imports, src) < imports.len(),
        find_src(imports, src) >= 0 ==> imports[find_src(imports, src)].src == src,
        find_src(imports, src) < 0 ==> forall|j: int|
            0 <= j < imports.len() ==> (#[trigger] imports[j]).src != src,
    decreases imports.len(),
{
    if imports.len() > 0 && imports.last().src != src {
        lemma_find_src(imports.drop_last(), src);
        assert(forall|j: int|
            0 <= j < imports.len() - 1 ==> imports.drop_last()[j] == #[trigger] imports[j]);
    }
}

/// In a list without repeats a module is found where it stands.
pub proof fn lemma_found_at(imports: Seq<ImportView>, i: int)
    requires
        distinct_srcs(imports),
        0 <= i < imports.len(),
    ensures
        find_src(imports, imports[i].src) == i,
        local_of(imports, imports[i].src) == imports[i].local,
{
    lemma_find_src(imports, imports[i].src);
}

/// Mentioning a module keeps the list free of repeats and every binding in place.
pub proof fn lemma_mentioned(imports: Seq<ImportView>, src: Seq<char>)
    requires
        distinct_srcs(imports),
    ensures
        distinct_srcs(mentioned(imports, src)),
        find_src(mentioned(imports, src), src) >= 0,
        forall|s: Seq<char>| #[trigger]
            local_of(mentioned(imports, src), s) == local_of(imports, s),
{
    lemma_find_src(imports, src);
    let after = mentioned(imports, src);
    assert(distinct_srcs(after));
    if find_src(imports, src) < 0 {
        lemma_found_at(after, imports.len() as int);
    }
    assert forall|s: Seq<char>| #[trigger] local_of(after, s) == local_of(imports, s) by {
        if find_src(imports, src) < 0 {
            assert(after.drop_last() =~= imports);
            lemma_find_src(imports, s);
        }
    }
}

/// Binding a module keeps the list free of repeats and every other binding in place;
/// a module that is bound keeps its name.
pub proof fn lemma_bound(imports: Seq<ImportView>, src: Seq<char>, local: IdentView)
    requires
        distinct_srcs(imports),
    ensures
        distinct_srcs(bound(imports, src, local)),
        local_of(bound(imports, src, local), src) == (match local_of(imports, src) {
            Some(l) => Some(l),
            None => Some(local),
        }),
        forall|s: Seq<char>|
            s != src ==> #[trigger] local_of(bound(imports, src, local), s) == local_of(imports, s),
{
    let after = bound(imports, src, local);
    let i = find_src(imports, src);
    lemma_find_src(imports, src);
    assert(distinct_srcs(after));
    assert forall|s: Seq<char>| s != src implies #[trigger] local_of(after, s) == local_of(
        imports,
        s,
    ) by {
        lemma_find_src(imports, s);
        lemma_find_src(after, s);
        let j = find_src(imports, s);
        if j >= 0 {
            assert(after[j].src == s);
            lemma_found_at(after, j);
        } else {
            let k = find_src(after, s);
            if k >= 0 {
                assert(k < imports.len());
                assert(imports[k].src == s);
            }
        }
    }
    lemma_found_at(
        after,
        if i < 0 {
            imports.len() as int
        } else {
            i
        },
    );
}

// ---------------------------------------------------------------------------
// The scope
// ---------------------------------------------------------------------------

/// What the pass knows of a module's names.
#[derive(Debug)]
pub struct Scope {
    /// The imported modules in the order of their first mention, each with the name
    /// that it is bound to. A module that is only run has none.
    pub imports: Table<String, Option<Ident>>,
    /// The modules whose value goes through an interop helper: `true` for the whole
    /// namespace, `false` for the default export alone.
    pub import_types: Table<String, bool>,
    /// What the imported names stand for.
    pub idents: Table<Id, Binding>,
    /// The variables that were declared, except by `const`.
    pub declared_vars: Vec<Id>,
    /// The names under which each variable is exported.
    pub exported_vars: Table<Id, Vec<Id>>,
}

/// The value of a [`Scope`].
pub struct ScopeView {
    pub imports: Seq<ImportView>,
    pub import_types: Map<Seq<char>, bool>,
    pub idents: Map<IdView, BindingView>,
    pub declared_vars: Seq<IdView>,
    pub exported_vars: Map<IdView, Seq<IdView>>,
}

impl ScopeView {
    /// No module is listed twice.
    pub open spec fn wf(self) -> bool {
        distinct_srcs(self.imports)
    }
}

impl Scope {
    /// The value that this scope stands for.
    pub open spec fn view(self) -> ScopeView {
        ScopeView {
            imports: imports_view(self.imports.entries@),
            import_types: self.import_types@,
            idents: self.idents@.map_values(|b: Binding| b@),
            declared_vars: ids_view(self.declared_vars@),
            exported_vars: self.exported_vars@.map_values(|v: Vec<Id>| ids_view(v@)),
        }
    }

    /// The tables hold no key twice.
    pub open spec fn wf(self) -> bool {
        &&& self.imports.wf()
        &&& self.import_types.wf()
        &&& self.idents.wf()
        &&& self.exported_vars.wf()
        &&& self@.wf()
    }
}

/// A scope that knows of no name.
pub open spec fn empty_scope() -> ScopeView {
    ScopeView {
        imports: Seq::empty(),
        import_types: Map::empty(),
        idents: Map::empty(),
        declared_vars: Seq::empty(),
        exported_vars: Map::empty(),
    }
}

impl Default for Scope {
    fn default() -> (scope: Self)
        ensures
            scope.wf(),
            scope@ == empty_scope(),
    {
        let scope = Scope {
            imports: Table::new(),
            import_types: Table::new(),
            idents: Table::new(),
            declared_vars: Vec::new(),
            exported_vars: Table::new(),
        };
        assert(scope@.imports =~= Seq::empty());
        assert(scope@.idents =~= Map::empty());
        assert(scope@.declared_vars =~= Seq::empty());
        assert(scope@.exported_vars =~= Map::empty());
        scope
    }
}

/// The expression that an imported name stands for, where its module has a name.
pub open spec fn import_ref(imports: Seq<ImportView>, b: BindingView) -> NodeView {
    let module = ident_view(local_of(imports, b.src)->Some_0);
    if b.prop.len() == 0 {
        module
    } else {
        member_view(module, plain_name(b.prop))
    }
}

/// The expression that a name stands for, if it is an imported one. Once the imports of
/// a module have been handed to its factory, the names that it imported stand for
/// themselves again.
pub open spec fn resolve(
    idents: Map<IdView, BindingView>,
    imports: Seq<ImportView>,
    name: IdentView,
) -> Option<NodeView> {
    if idents.contains_key(id_of(name)) && local_of(imports, idents[id_of(name)].src) is Some {
        Some(import_ref(imports, idents[id_of(name)]))
    } else {
        None
    }
}

/// The table of imports finds a module where its list has it.
proof fn lemma_import_table(imports: Table<String, Option<Ident>>, src: Seq<char>)
    requires
        imports.wf(),
    ensures
        imports@.contains_key(src) <==> find_src(imports_view(imports.entries@), src) >= 0,
        imports@.contains_key(src) ==> local_of(imports_view(imports.entries@), src) == (
        match imports@[src] {
            Some(l) => Some(l@),
            None => None,
        }),
        distinct_srcs(imports_view(imports.entries@)),
{
    let list = imports_view(imports.entries@);
    lemma_find_src(list, src);
    let i = find_src(list, src);
    if i >= 0 {
        assert(list[i].src == src);
        lemma_entry(imports.entries@, i);
    }
    if imports@.contains_key(src) {
        let j = choose|j: int| key_at(imports.entries@, j, src);
        assert(list[j].src == src);
    }
}

impl Scope {
    /// What `name` stands for, if it is imported; else `name` itself.
    pub fn fold_ident(&self, name: Ident) -> (folded: Result<Expr, Ident>)
        requires
            self.wf(),
        ensures
            match folded {
                Ok(e) => resolve(self@.idents, self@.imports, name@) == Some(e@),
                Err(same) => resolve(self@.idents, self@.imports, name@) is None && same == name,
            },
    {
        let id: Id = to_id(&name);
        match self.idents.get(&id) {
            None => Err(name),
            Some(binding) => {
                assert(self@.idents.contains_key(id@));
                assert(self@.idents[id@] == binding@);
                proof {
                    lemma_import_table(self.imports, binding.src@);
                }
                match self.imports.get(&binding.src) {
                    Some(Some(local)) => {
                        let module: Expr = ident_expr(local.clone());
                        if binding.prop.as_str().is_empty() {
                            Ok(module)
                        } else {
                            Ok(member(module, quote_ident(binding.prop.as_str())))
                        }
                    },
                    _ => Err(name),
                }
            },
        }
    }
}

// ---------------------------------------------------------------------------
// Changes
// ---------------------------------------------------------------------------

/// The interop types with `src` among them, by its default export if it is new.
pub open spec fn typed(types: Map<Seq<char>, bool>, src: Seq<char>) -> Map<Seq<char>, bool> {
    if types.contains_key(src) {
        types
    } else {
        types.insert(src, false)
    }
}

/// The interop types with `src` by its whole namespace, if it is there at all.
pub open spec fn widened(types: Map<Seq<char>, bool>, src: Seq<char>) -> Map<Seq<char>, bool> {
    if types.contains_key(src) {
        types.insert(src, true)
    } else {
        types
    }
}

/// The exports with one more name for `var`.
pub open spec fn exported(
    vars: Map<IdView, Seq<IdView>>,
    var: IdView,
    name: IdView,
) -> Map<IdView, Seq<IdView>> {
    let names = if vars.contains_key(var) {
        vars[var]
    } else {
        Seq::empty()
    };
    vars.insert(var, names.push(name))
}

impl Scope {
    /// The name that a module is bound to.
    pub fn local(&self, src: &String) -> (local: Option<Ident>)
        requires
            self.wf(),
        ensures
            ident_opt_view(local) == local_of(self@.imports, src@),
    {
        proof {
            lemma_import_table(self.imports, src@);
        }
        match self.imports.get(src) {
            Some(Some(local)) => Some(local.clone()),
            _ => None,
        }
    }

    /// Lists a module, if it is not listed yet.
    pub fn mention(&mut self, src: &String)
        requires
            old(self).wf(),
        ensures
            final(self).wf(),
            final(self)@ == (ScopeView {
                imports: mentioned(old(self)@.imports, src@),
                ..old(self)@
            }),
    {
        let ghost before = self@;
        proof {
            lemma_import_table(self.imports, src@);
            lemma_mentioned(before.imports, src@);
        }
        if self.imports.position(src).is_none() {
            self.imports.insert(src.clone(), None);
            assert(self@.imports =~= mentioned(before.imports, src@));
        }
    }

    /// Binds a module to a name, if it has none.
    pub fn bind_module(&mut self, src: &String, local: Ident)
        requires
            old(self).wf(),
        ensures
            final(self).wf(),
            final(self)@ == (ScopeView {
                imports: bound(old(self)@.imports, src@, local@),
                ..old(self)@
            }),
    {
        let ghost before = self@;
        let ghost entries = self.imports.entries@;
        proof {
            lemma_import_table(self.imports, src@);
            lemma_bound(before.imports, src@, local@);
            lemma_find_src(before.imports, src@);
        }
        match self.imports.position(src) {
            None => {
                self.imports.insert(src.clone(), Some(local));
                assert(self@.imports =~= bound(before.imports, src@, local@));
            },
            Some(i) => {
                assert(before.imports[i as int].src == src@);
                proof {
                    lemma_found_at(before.imports, i as int);
                    lemma_entry(entries, i as int);
                }
                if self.imports.entries[i].1.is_none() {
                    let entry: (String, Option<Ident>) = (src.clone(), Some(local));
                    proof {
                        lemma_update(entries, i as int, entry);
                    }
                    self.imports.entries.set(i, entry);
                    assert(self@.imports =~= bound(before.imports, src@, local@));
                }
            },
        }
    }

    /// Sends a module through the interop helper for namespaces.
    pub fn use_namespace(&mut self, src: &String)
        requires
            old(self).wf(),
        ensures
            final(self).wf(),
            final(self)@ == (ScopeView {
                import_types: old(self)@.import_types.insert(src@, true),
                ..old(self)@
            }),
    {
        self.import_types.insert(src.clone(), true);
    }

    /// Sends a module through an interop helper: that for default exports, unless it
    /// has one already.
    pub fn use_default(&mut self, src: &String)
        requires
            old(self).wf(),
        ensures
            final(self).wf(),
            final(self)@ == (ScopeView {
                import_types: typed(old(self)@.import_types, src@),
                ..old(self)@
            }),
    {
        if self.import_types.position(src).is_none() {
            self.import_types.insert(src.clone(), false);
        }
    }

    /// Sends a module that goes through an interop helper through that for namespaces.
    pub fn use_all(&mut self, src: &String)
        requires
            old(self).wf(),
        ensures
            final(self).wf(),
            final(self)@ == (ScopeView {
                import_types: widened(old(self)@.import_types, src@),
                ..old(self)@
            }),
    {
        if self.import_types.position(src).is_some() {
            self.import_types.insert(src.clone(), true);
        }
    }

    /// Lets a name stand for a property of a module, or for the module itself when the
    /// property is empty.
    pub fn bind_name(&mut self, name: &Ident, src: &String, prop: String)
        requires
            old(self).wf(),
        ensures
            final(self).wf(),
            final(self)@ == (ScopeView {
                idents: old(self)@.idents.insert(
                    id_of(name@),
                    BindingView { src: src@, prop: prop@ },
                ),
                ..old(self)@
            }),
    {
        let ghost before = self@;
        let binding: Binding = Binding { src: src.clone(), prop };
        self.idents.insert(to_id(name), binding);
        assert(self@.idents =~= before.idents.insert(id_of(name@), binding@));
    }

    /// Notes one more name under which a variable is exported.
    pub fn export_var(&mut self, var: Id, name: Id)
        requires
            old(self).wf(),
        ensures
            final(self).wf(),
            final(self)@ == (ScopeView {
                exported_vars: exported(old(self)@.exported_vars, var@, name@),
                ..old(self)@
            }),
    {
        let ghost before = self@;
        let mut names: Vec<Id> = match self.exported_vars.get(&var) {
            Some(names) => copy_ids(names),
            None => Vec::new(),
        };
        let ghost first = ids_view(names@);
        names.push(name);
        assert(ids_view(names@) =~= first.push(name@));
        assert(before.exported_vars.contains_key(var@) ==> first == before.exported_vars[var@]);
        assert(!before.exported_vars.contains_key(var@) ==> first =~= Seq::empty());
        self.exported_vars.insert(var, names);
        assert(self@.exported_vars =~= exported(before.exported_vars, var@, name@));
    }

    /// Whether a variable was declared.
    pub fn is_declared(&self, var: &Id) -> (yes: bool)
        ensures
            yes == self@.declared_vars.contains(var@),
    {
        let mut i: usize = 0;
        while i < self.declared_vars.len()
            invariant
                i <= self.declared_vars@.len(),
                forall|j: int| 0 <= j < i ==> (#[trigger] self@.declared_vars[j]) != var@,
            decreases self.declared_vars@.len() - i,
        {
            assert(self@.declared_vars[i as int] == self.declared_vars@[i as int]@);
            if self.declared_vars[i].same(var) {
                return true;
            }
            i += 1;
        }
        false
    }
}

/// A copy of a list of names.
fn copy_ids(ids: &Vec<Id>) -> (copy: Vec<Id>)
    ensures
        copy@ == ids@,
{
    let mut copy: Vec<Id> = Vec::new();
    let mut i: usize = 0;
    while i < ids.len()
        invariant
            i <= ids@.len(),
            copy@ == ids@.take(i as int),
        decreases ids@.len() - i,
    {
        copy.push(ids[i].clone());
        i += 1;
    }
    copy
}

} // verus!
