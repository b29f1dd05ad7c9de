//! The names that patterns and declarations bind.

use vstd::prelude::*;

use crate::ast::{Form, Ident, Node};
use crate::emit::ident_in;
use crate::model::{IdentView, NodeView, lemma_kids, nodes_view};
use crate::scope::idents_view;

verus! {

/// The names that a pattern or a declarator binds, in source order. Expressions bind
/// none.
pub open spec fn idents_in(n: NodeView) -> Seq<IdentView>
    decreases n,
{
    match n.form {
        Form::BindingIdent => seq![ident_in(n)],
        Form::ArrayPat | Form::ObjectPat | Form::RestPat => idents_in_all(n.kids),
        Form::AssignPat | Form::AssignPatProp | Form::VarDeclarator { .. } => if n.kids.len() > 0 {
            idents_in(n.kids[0])
        } else {
            Seq::empty()
        },
        Form::KeyValuePat => if n.kids.len() > 1 {
            idents_in(n.kids[1])
        } else {
            Seq::empty()
        },
        _ => Seq::empty(),
    }
}

/// The names that a list of patterns or declarators binds, in source order.
pub open spec fn idents_in_all(list: Seq<NodeView>) -> Seq<IdentView>
    decreases list,
{
    if list.len() == 0 {
        Seq::empty()
    } else {
        idents_in_all(list.drop_last()) + idents_in(list.last())
    }
}

/// Adds the names that `n` binds to `found`.
pub fn find_idents(n: &Node, found: &mut Vec<Ident>)
    ensures
        idents_view(final(found)@) == idents_view(old(found)@) + idents_in(n@),
    decreases n,
{
    proof {
        lemma_kids(*n);
    }
    match n.form {
        Form::BindingIdent => {
            let ident: Ident = Ident { sym: n.text.clone(), span: n.span };
            found.push(ident);
            assert(idents_view(found@) =~= idents_view(old(found)@).push(ident@));
        },
        Form::ArrayPat | Form::ObjectPat | Form::RestPat => find_idents_in_all(&n.kids, found),
        Form::AssignPat | Form::AssignPatProp | Form::VarDeclarator { .. } => {
            if n.kids.len() > 0 {
                find_idents(&n.kids[0], found);
            }
        },
        Form::KeyValuePat => {
            if n.kids.len() > 1 {
                find_idents(&n.kids[1], found);
            }
        },
        _ => {},
    }
}

/// Adds the names that the nodes of a list bind to `found`.
pub fn find_idents_in_all(list: &Vec<Node>, found: &mut Vec<Ident>)
    ensures
        idents_view(final(found)@) == idents_view(old(found)@) + idents_in_all(nodes_view(list@)),
    decreases list,
{
    let ghost nodes = nodes_view(list@);
    let mut i: usize = 0;
    while i < list.len()
        invariant
            i <= list@.len(),
            nodes == nodes_view(list@),
            idents_view(found@) == idents_view(old(found)@) + idents_in_all(nodes.take(i as int)),
        decreases list@.len() - i,
    {
        find_idents(&list[i], found);
        assert(nodes.take(i + 1).drop_last() =~= nodes.take(i as int));
        assert(nodes.take(i + 1).last() == list@[i as int]@);
        i += 1;
    }
    assert(nodes.take(i as int) =~= nodes);
}

} // verus!
