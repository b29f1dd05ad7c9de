//! Syntax contexts: the numbers that keep generated names apart from the names
//! of the program.

use swc_common::{Globals, Mark, SyntaxContext, GLOBALS};
use vstd::prelude::*;

verus! {

/// `swc_common::Globals`, the store of all marks and syntax contexts.
#[verifier::external_type_specification]
#[verifier::external_body]
pub struct ExGlobals(swc_common::Globals);

/// How many marks a store holds, the root mark among them.
pub uninterp spec fn mark_count(globals: Globals) -> nat;

/// How many syntax contexts a store holds, the empty one among them.
pub uninterp spec fn context_count(globals: Globals) -> nat;

/// The context that a store has for each pair of a context and a mark applied to it.
pub uninterp spec fn markings(globals: Globals) -> Map<(u32, u32), u32>;

/// Whether a thread has panicked while it held a lock of the store, which makes every
/// later use of the store panic.
pub uninterp spec fn is_poisoned(globals: Globals) -> bool;

/// Calls `swc_common::Mark::fresh` below `swc_common::Mark::root()`.
///
/// It adds one mark to the store and hands out its number, which is the number of
/// marks that were there. The root mark is always there, so the number is not zero.
/// The contexts stay as they are.
#[verifier::external_body]
fn fresh_mark(globals: &mut Globals) -> (mark: u32)
    requires
        !is_poisoned(*old(globals)),
        mark_count(*old(globals)) < u32::MAX,
    ensures
        !is_poisoned(*final(globals)),
        mark == mark_count(*old(globals)),
        mark > 0,
        mark_count(*final(globals)) == mark_count(*old(globals)) + 1,
        context_count(*final(globals)) == context_count(*old(globals)),
        markings(*final(globals)) == markings(*old(globals)),
{
    GLOBALS.set(&*globals, || Mark::fresh(Mark::root()).as_u32())
}

/// Calls `swc_common::SyntaxContext::apply_mark`.
///
/// A pair of a context and a mark that was seen before gives the context that it
/// gave then; a new pair gives a context numbered by how many there were. The root
/// mark is not accepted.
#[verifier::external_body]
fn apply_mark(globals: &mut Globals, ctxt: u32, mark: u32) -> (marked: u32)
    requires
        !is_poisoned(*old(globals)),
        mark != 0,
        context_count(*old(globals)) <= u32::MAX,
    ensures
        !is_poisoned(*final(globals)),
        marked == (if markings(*old(globals)).contains_key((ctxt, mark)) {
            markings(*old(globals))[(ctxt, mark)] as nat
        } else {
            context_count(*old(globals))
        }),
        markings(*final(globals)) == markings(*old(globals)).insert((ctxt, mark), marked),
        context_count(*final(globals)) == context_count(*old(globals)) + (if markings(
            *old(globals),
        ).contains_key((ctxt, mark)) {
            0nat
        } else {
            1nat
        }),
        mark_count(*final(globals)) == mark_count(*old(globals)),
{
    GLOBALS.set(
        &*globals,
        || SyntaxContext::from_u32(ctxt).apply_mark(Mark::from_u32(mark)).as_u32(),
    )
}

/// Calls `swc_common::Globals::new`: a store with the root mark and the empty context,
/// and nothing else.
#[verifier::external_body]
pub(crate) fn new_globals() -> (globals: Globals)
    ensures
        !is_poisoned(globals),
        mark_count(globals) == 1,
        context_count(globals) == 1,
        markings(globals).is_empty(),
{
    Globals::new()
}

/// What a store holds.
#[verifier::ext_equal]
pub struct Store {
    /// How many marks there are.
    pub marks: nat,
    /// How many syntax contexts there are.
    pub contexts: nat,
    /// The context that each pair of a context and a mark was given.
    pub markings: Map<(u32, u32), u32>,
    /// Whether using the store panics.
    pub poisoned: bool,
}

/// What a store holds.
pub open spec fn store_of(globals: Globals) -> Store {
    Store {
        marks: mark_count(globals),
        contexts: context_count(globals),
        markings: markings(globals),
        poisoned: is_poisoned(globals),
    }
}

impl Store {
    /// A store with the root mark and the empty context.
    pub open spec fn initial() -> Store {
        Store { marks: 1, contexts: 1, markings: Map::empty(), poisoned: false }
    }

    /// Whether `n` more marks and contexts can be numbered.
    pub open spec fn has_room(self, n: nat) -> bool {
        &&& !self.poisoned
        &&& self.marks + n <= u32::MAX
        &&& self.contexts + n <= u32::MAX
    }

    /// How many more marks and contexts can be numbered.
    pub open spec fn room(self) -> nat {
        if !self.has_room(0) {
            0
        } else if self.marks <= self.contexts {
            (u32::MAX - self.contexts) as nat
        } else {
            (u32::MAX - self.marks) as nat
        }
    }

    /// Whether the next mark was applied to the empty context before it was handed out.
    pub open spec fn marked_early(self) -> bool {
        self.markings.contains_key((0, self.marks as u32))
    }

    /// The context that the next mark gives the empty context.
    pub open spec fn next_ctxt(self) -> u32 {
        if self.marked_early() {
            self.markings[(0, self.marks as u32)]
        } else {
            self.contexts as u32
        }
    }

    /// The store once that context was drawn.
    pub open spec fn after(self) -> Store {
        Store {
            marks: self.marks + 1,
            contexts: if self.marked_early() {
                self.contexts
            } else {
                self.contexts + 1
            },
            markings: self.markings.insert((0, self.marks as u32), self.next_ctxt()),
            poisoned: self.poisoned,
        }
    }

    /// The store once `n` contexts were drawn.
    pub open spec fn after_all(self, n: nat) -> Store
        decreases n,
    {
        if n == 0 {
            self
        } else {
            self.after_all((n - 1) as nat).after()
        }
    }

    /// The `n` contexts that are drawn next.
    pub open spec fn drawn(self, n: nat) -> Seq<u32> {
        Seq::new(n, |i: int| self.after_all(i as nat).next_ctxt())
    }
}

/// Drawing contexts uses up as many marks, and no more contexts.
pub proof fn lemma_after_all(store: Store, n: nat)
    ensures
        store.after_all(n).marks == store.marks + n,
        store.contexts <= store.after_all(n).contexts <= store.contexts + n,
        store.after_all(n).poisoned == store.poisoned,
    decreases n,
{
    if n > 0 {
        lemma_after_all(store, (n - 1) as nat);
    }
}

/// Whether no mark that has yet to be handed out was applied to the empty context.
pub open spec fn orderly(store: Store) -> bool {
    forall|m: u32| store.marks <= m ==> !(#[trigger] store.markings.contains_key((0u32, m)))
}

/// An orderly store numbers its contexts one after the other, and stays orderly.
pub proof fn lemma_orderly(store: Store, n: nat)
    requires
        orderly(store),
        store.has_room(n),
    ensures
        orderly(store.after_all(n)),
        store.after_all(n).contexts == store.contexts + n,
        store.after_all(n).marks == store.marks + n,
        store.after_all(n).poisoned == store.poisoned,
    decreases n,
{
    if n > 0 {
        lemma_orderly(store, (n - 1) as nat);
    }
}

/// The `n` numbers from `first` on.
pub open spec fn numbers_from(first: nat, n: nat) -> Seq<u32> {
    Seq::new(n, |i: int| (first + i) as u32)
}

/// The contexts drawn from an orderly store are consecutive numbers, so no two of them
/// are the same, and none is one that the store had before.
pub proof fn law_contexts_are_new(store: Store, n: nat)
    requires
        orderly(store),
        store.has_room(n),
    ensures
        store.drawn(n) == numbers_from(store.contexts, n),
        store.drawn(n).no_duplicates(),
        forall|i: int| 0 <= i < n ==> #[trigger] store.drawn(n)[i] >= store.contexts,
{
    assert forall|i: int| 0 <= i < n implies #[trigger] store.drawn(n)[i] == store.contexts
        + i by {
        lemma_orderly(store, i as nat);
    }
}

/// What is drawn from an orderly store first is not drawn again.
pub proof fn law_contexts_do_not_return(store: Store, m: nat, n: nat, i: int)
    requires
        orderly(store),
        store.has_room(m + n),
        0 <= i < m,
    ensures
        !store.after_all(m).drawn(n).contains(store.drawn(m)[i]),
{
    lemma_orderly(store, m);
    law_contexts_are_new(store, m);
    law_contexts_are_new(store.after_all(m), n);
    if store.after_all(m).drawn(n).contains(store.drawn(m)[i]) {
        let k = store.after_all(m).drawn(n).index_of(store.drawn(m)[i]);
        assert(store.after_all(m).drawn(n)[k] >= store.after_all(m).contexts);
    }
}

/// A syntax context for a generated name: a fresh mark on the empty context.
pub fn fresh_ctxt(globals: &mut Globals) -> (ctxt: u32)
    requires
        store_of(*old(globals)).has_room(1),
    ensures
        ctxt == store_of(*old(globals)).next_ctxt(),
        store_of(*final(globals)) == store_of(*old(globals)).after(),
{
    let mark: u32 = fresh_mark(globals);
    apply_mark(globals, 0, mark)
}

/// Syntax contexts for generated names, drawn from a store when they are asked for.
pub struct Contexts {
    /// The store.
    pub globals: Globals,
    /// How many have been handed out.
    pub used: usize,
    /// What the store held before.
    pub start: Ghost<Store>,
}

impl Contexts {
    /// The store holds what it held before and what was drawn since.
    pub open spec fn wf(self) -> bool {
        &&& self.used <= self.start@.room()
        &&& store_of(self.globals) == self.start@.after_all(self.used as nat)
    }

    /// All that the store could give from the start, in order.
    pub open spec fn ids(self) -> Seq<u32> {
        self.start@.drawn(self.start@.room())
    }

    /// How many are left.
    pub open spec fn left(self) -> nat {
        (self.start@.room() - self.used) as nat
    }

    /// The contexts that a store can give.
    pub fn new(globals: Globals) -> (contexts: Self)
        ensures
            contexts.wf(),
            contexts.globals == globals,
            contexts.used == 0,
            contexts.start@ == store_of(globals),
    {
        Contexts { globals, used: 0, start: Ghost(store_of(globals)) }
    }

    /// Draws the next context.
    pub fn next(&mut self) -> (ctxt: u32)
        requires
            old(self).wf(),
            old(self).left() > 0,
        ensures
            final(self).wf(),
            ctxt == old(self).ids()[old(self).used as int],
            final(self).start == old(self).start,
            final(self).used == old(self).used + 1,
    {
        proof {
            lemma_after_all(self.start@, self.used as nat);
        }
        let ctxt: u32 = fresh_ctxt(&mut self.globals);
        self.used += 1;
        ctxt
    }
}

} // verus!
