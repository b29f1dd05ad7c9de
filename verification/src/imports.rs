//! Imports: which names a module gets, and what the imported names stand for.

use vstd::prelude::*;

use crate::ast::{Ident, ImportDecl, ImportSpecifier};
use crate::emit::{name_in, private_ident};
use crate::hygiene::Contexts;
use crate::model::{
    IdentView, ImportDeclView, ImportSpecifierView, ident_opt_view, import_specifiers_view,
};
use crate::names::{local_name, local_name_for_src};
use crate::scope::{
    BindingView, Scope, ScopeView, bound, id_of, lemma_bound, lemma_find_src, local_of,
    mentioned, typed,
};

verus! {

/// What changes while the items of a module are read.
pub struct State {
    /// The names that are known.
    pub scope: ScopeView,
    /// How many syntax contexts were used up.
    pub used: int,
}

/// What changes while the items of a module are read.
pub open spec fn state_of(scope: Scope, contexts: Contexts) -> State {
    State { scope: scope@, used: contexts.used as int }
}

/// The name that a module gets when the program gives it none.
pub open spec fn generated_local(src: Seq<char>, ctxt: u32) -> IdentView {
    name_in(local_name(src), ctxt)
}

/// The state in which a module is bound to a name: to the one that it has, else to a
/// generated one in the next syntax context.
pub open spec fn with_local(pool: Seq<u32>, st: State, src: Seq<char>) -> State {
    State {
        scope: ScopeView {
            imports: bound(st.scope.imports, src, generated_local(src, pool[st.used])),
            ..st.scope
        },
        used: if local_of(st.scope.imports, src) is None {
            st.used + 1
        } else {
            st.used
        },
    }
}

/// The state in which a module is listed.
pub open spec fn with_mention(st: State, src: Seq<char>) -> State {
    State {
        scope: ScopeView { imports: mentioned(st.scope.imports, src), ..st.scope },
        used: st.used,
    }
}

/// The property that an import specifier asks for; empty for the whole namespace.
pub open spec fn imported_prop(s: ImportSpecifierView) -> Seq<char> {
    match s {
        ImportSpecifierView::Specific { imported: Some(name), .. } => name.sym,
        ImportSpecifierView::Specific { local, .. } => local.sym,
        ImportSpecifierView::Default { .. } => "default"@,
        ImportSpecifierView::Namespace { .. } => Seq::empty(),
    }
}

/// The name that an import specifier binds.
pub open spec fn imported_name(s: ImportSpecifierView) -> IdentView {
    match s {
        ImportSpecifierView::Specific { local, .. } => local,
        ImportSpecifierView::Default { local } => local,
        ImportSpecifierView::Namespace { local } => local,
    }
}

/// A scope that has read one specifier of an import from `src`.
pub open spec fn with_specifier(
    scope: ScopeView,
    src: Seq<char>,
    s: ImportSpecifierView,
) -> ScopeView {
    ScopeView {
        idents: scope.idents.insert(
            id_of(imported_name(s)),
            BindingView { src, prop: imported_prop(s) },
        ),
        import_types: if s is Namespace {
            scope.import_types.insert(src, true)
        } else if imported_prop(s) == "default"@ {
            typed(scope.import_types, src)
        } else {
            scope.import_types
        },
        ..scope
    }
}

/// A scope that has read the specifiers of an import from `src`.
pub open spec fn with_specifiers(
    scope: ScopeView,
    src: Seq<char>,
    list: Seq<ImportSpecifierView>,
) -> ScopeView
    decreases list.len(),
{
    if list.len() == 0 {
        scope
    } else {
        with_specifier(with_specifiers(scope, src, list.drop_last()), src, list.last())
    }
}

/// The state after an import. A module that is only run is listed. Any other needs a
/// name, if it has none yet: that of the namespace where it is imported as a namespace
/// and nothing else, and a generated one where it is not.
pub open spec fn with_import(pool: Seq<u32>, st: State, d: ImportDeclView) -> State {
    let src = d.src.value;
    if d.specifiers.len() == 0 {
        with_mention(st, src)
    } else {
        let named = if d.specifiers.len() == 1 && d.specifiers[0] is Namespace {
            State {
                scope: ScopeView {
                    imports: bound(st.scope.imports, src, imported_name(d.specifiers[0])),
                    ..st.scope
                },
                used: st.used,
            }
        } else {
            with_local(pool, st, src)
        };
        State { scope: with_specifiers(named.scope, src, d.specifiers), used: named.used }
    }
}

/// The state after `export .. from src`. Only an export that reads the module needs a
/// name for it.
pub open spec fn with_export_from(
    pool: Seq<u32>,
    st: State,
    src: Seq<char>,
    reads: bool,
) -> State {
    if reads {
        with_local(pool, st, src)
    } else {
        with_mention(st, src)
    }
}

impl Scope {
    /// The name of a module; a generated one if it has none yet.
    pub fn ensure_local(&mut self, src: &String, contexts: &mut Contexts) -> (local: Ident)
        requires
            old(self).wf(),
            old(contexts).wf(),
            old(contexts).left() > 0,
        ensures
            final(self).wf(),
            final(contexts).wf(),
            final(contexts).start == old(contexts).start,
            state_of(*final(self), *final(contexts)) == with_local(
                old(contexts).ids(),
                state_of(*old(self), *old(contexts)),
                src@,
            ),
            local_of(final(self)@.imports, src@) == Some(local@),
    {
        let ghost ctxt = contexts.ids()[contexts.used as int];
        proof {
            lemma_bound(self@.imports, src@, generated_local(src@, ctxt));
            lemma_find_src(self@.imports, src@);
        }
        match self.local(src) {
            Some(local) => local,
            None => {
                let name: String = local_name_for_src(src.as_str());
                let local: Ident = private_ident(name, contexts);
                self.bind_module(src, local.clone());
                local
            },
        }
    }

    /// Reads one specifier of an import.
    fn insert_specifier(&mut self, src: &String, specifier: &ImportSpecifier)
        requires
            old(self).wf(),
        ensures
            final(self).wf(),
            final(self)@ == with_specifier(old(self)@, src@, specifier@),
    {
        match specifier {
            ImportSpecifier::Namespace { local, .. } => {
                let prop: String = String::new();
                assert(prop@ =~= Seq::empty());
                self.bind_name(local, src, prop);
                self.use_namespace(src);
            },
            ImportSpecifier::Default { local, .. } => {
                self.bind_name(local, src, "default".to_owned());
                self.use_default(src);
            },
            ImportSpecifier::Specific { local, imported, .. } => {
                let prop: String = match imported {
                    Some(name) => name.sym.clone(),
                    None => local.sym.clone(),
                };
                let is_default: bool = prop == "default".to_owned();
                self.bind_name(local, src, prop);
                if is_default {
                    self.use_default(src);
                }
            },
        }
    }

    /// Reads an import.
    pub fn insert_import(&mut self, import: ImportDecl, contexts: &mut Contexts)
        requires
            old(self).wf(),
            old(contexts).wf(),
            old(contexts).left() > 0,
        ensures
            final(self).wf(),
            final(contexts).wf(),
            final(contexts).start == old(contexts).start,
            state_of(*final(self), *final(contexts)) == with_import(
                old(contexts).ids(),
                state_of(*old(self), *old(contexts)),
                import@,
            ),
    {
        let ghost specs = import@.specifiers;
        assert(specs.len() == import.specifiers@.len());
        let src: &String = &import.src.value;
        if import.specifiers.len() == 0 {
            self.mention(src);
            return;
        }
        assert(specs[0] == import.specifiers@[0]@);
        let alone: Option<Ident> = if import.specifiers.len() == 1 {
            match &import.specifiers[0] {
                ImportSpecifier::Namespace { local, .. } => Some(local.clone()),
                _ => None,
            }
        } else {
            None
        };
        match alone {
            Some(local) => {
                proof {
                    lemma_bound(self@.imports, src@, local@);
                }
                self.bind_module(src, local);
            },
            None => {
                let _: Ident = self.ensure_local(src, contexts);
            },
        }
        let ghost named = self@;
        let mut i: usize = 0;
        while i < import.specifiers.len()
            invariant
                i <= import.specifiers@.len(),
                specs == import_specifiers_view(import.specifiers@),
                src@ == import.src.value@,
                self.wf(),
                self@ == with_specifiers(named, src@, specs.take(i as int)),
            decreases import.specifiers@.len() - i,
        {
            assert(specs.take(i + 1).drop_last() =~= specs.take(i as int));
            assert(specs.take(i + 1).last() == import.specifiers@[i as int]@);
            self.insert_specifier(src, &import.specifiers[i]);
            i += 1;
        }
        assert(specs.take(i as int) =~= specs);
    }

    /// Reads the source of an export, and gives the name of the module if the export
    /// reads it.
    pub fn import_to_export(
        &mut self,
        src: &String,
        reads: bool,
        contexts: &mut Contexts,
    ) -> (local: Option<Ident>)
        requires
            old(self).wf(),
            old(contexts).wf(),
            old(contexts).left() > 0,
        ensures
            final(self).wf(),
            final(contexts).wf(),
            final(contexts).start == old(contexts).start,
            state_of(*final(self), *final(contexts)) == with_export_from(
                old(contexts).ids(),
                state_of(*old(self), *old(contexts)),
                src@,
                reads,
            ),
            local is Some <==> reads,
            reads ==> ident_opt_view(local) == local_of(final(self)@.imports, src@),
    {
        if reads {
            Some(self.ensure_local(src, contexts))
        } else {
            self.mention(src);
            None
        }
    }
}

} // verus!
