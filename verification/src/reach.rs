//! How far folding reaches: into every part of a tree, down to any depth.

use vstd::prelude::*;

use crate::ast::{BinaryOp, Form, Span, UnaryOp, UpdateOp, VarDeclKind};
use crate::bindings::{idents_in, idents_in_all};
use crate::emit::{ident_in, num_view};
use crate::folding::{
    Env, bumped, chained, declared_in, declared_in_all, detached, echoes, fold_all, fold_tree,
    is_nested,
};
use crate::model::{IdentView, NodeView};
use crate::scope::{
    IdView, ImportView, distinct_srcs, find_src, ids_of, import_ref, lemma_find_src,
    lemma_found_at, local_of, resolve,
};
use crate::shapes::{
    assignment, binder_of, plain_property, plain_word, property, twig, value_of, void_at, word,
};

verus! {

// ---------------------------------------------------------------------------
// Words
// ---------------------------------------------------------------------------

/// The name of an imported module.
pub open spec fn module_named(imports: Seq<ImportView>, src: Seq<char>, local: IdentView) -> bool {
    exists|i: int| 0 <= i < imports.len() && #[trigger] imports[i] == (ImportView {
        src,
        local: Some(local),
    })
}

/// Whether a name was imported from a module that has a name.
pub open spec fn is_imported(env: Env, name: IdentView) -> bool {
    let id = IdView { sym: name.sym, ctxt: name.span.ctxt };
    env.idents.contains_key(id) && exists|local: IdentView| #[trigger]
        module_named(env.imports, env.idents[id].src, local)
}

/// Whether a variable is exported.
pub open spec fn is_exported(env: Env, name: IdentView) -> bool {
    env.exported_vars.contains_key(IdView { sym: name.sym, ctxt: name.span.ctxt })
}

/// The names under which a variable is exported.
pub open spec fn exports_of(env: Env, name: IdentView) -> Seq<IdView> {
    env.exported_vars[IdView { sym: name.sym, ctxt: name.span.ctxt }]
}

/// Whether a tree reads an imported name: as a property of its module, or as the module
/// itself where the whole namespace was imported.
pub open spec fn reads_from_module(env: Env, name: IdentView, n: NodeView) -> bool {
    let b = env.idents[IdView { sym: name.sym, ctxt: name.span.ctxt }];
    exists|local: IdentView| #[trigger]
        module_named(env.imports, b.src, local) && n == if b.prop.len() == 0 {
            value_of(local)
        } else {
            plain_property(value_of(local), b.prop)
        }
}

/// Whether `this` inside such a node is not that of the code around it.
pub open spec fn has_own_this(form: Form) -> bool {
    ||| form is Function
    ||| form == Form::Constructor
    ||| form == Form::Getter
    ||| form == Form::Setter
    ||| form is ClassProp
}

/// The identifier that a word spells.
pub open spec fn spelled(n: NodeView) -> IdentView {
    IdentView { sym: n.text, span: n.span }
}

/// Whether a node is `name++` or `name--`.
pub open spec fn is_bump(n: NodeView) -> bool {
    n.form is Update && n.kids.len() == 1 && n.kids[0].form == Form::Ident
}

/// Whether a node is `name(..)`.
pub open spec fn is_named_call(n: NodeView) -> bool {
    n.form == Form::Call && n.kids.len() > 0 && n.kids[0].form == Form::Ident
}

/// What is found in the list of modules.
pub proof fn law_module_named(imports: Seq<ImportView>, src: Seq<char>, local: IdentView)
    requires
        distinct_srcs(imports),
    ensures
        local_of(imports, src) == Some(local) <==> module_named(imports, src, local),
{
    lemma_find_src(imports, src);
    if module_named(imports, src, local) {
        let i = choose|i: int| 0 <= i < imports.len() && #[trigger] imports[i] == (ImportView {
            src,
            local: Some(local),
        });
        lemma_found_at(imports, i);
    }
    if local_of(imports, src) == Some(local) {
        let i = find_src(imports, src);
        assert(imports[i] == (ImportView { src, local: Some(local) }));
    }
}

/// A name stands for something else exactly where it was imported from a module that has a
/// name, and then for what is read from that module.
pub proof fn law_resolution(env: Env, name: IdentView)
    requires
        distinct_srcs(env.imports),
    ensures
        resolve(env.idents, env.imports, name) is Some <==> is_imported(env, name),
        is_imported(env, name) ==> reads_from_module(
            env,
            name,
            resolve(env.idents, env.imports, name)->Some_0,
        ),
{
    let id = IdView { sym: name.sym, ctxt: name.span.ctxt };
    let b = env.idents[id];
    if resolve(env.idents, env.imports, name) is Some {
        let local = local_of(env.imports, b.src)->Some_0;
        law_module_named(env.imports, b.src, local);
        assert(module_named(env.imports, b.src, local));
        assert(import_ref(env.imports, b) == if b.prop.len() == 0 {
            value_of(local)
        } else {
            plain_property(value_of(local), b.prop)
        });
    }
    if is_imported(env, name) {
        let local = choose|local: IdentView| #[trigger]
            module_named(env.imports, b.src, local);
        law_module_named(env.imports, b.src, local);
    }
}

// ---------------------------------------------------------------------------
// Every node
// ---------------------------------------------------------------------------

/// Folding reaches every kid: a node that is no word, no assignment and no update of a name
/// keeps its form, and its kids are the folds of its kids. Only the callee of a call by name
/// can change beyond that.
pub proof fn law_every_kid(env: Env, top: bool, n: NodeView)
    requires
        n.form != Form::This && n.form != Form::Ident && n.form != Form::Shorthand,
        !(n.form is Assign),
        !is_bump(n),
    ensures
        ({
            let out = fold_tree(env, top, n);
            &&& out.span == n.span
            &&& out.form == n.form
            &&& out.text == n.text
            &&& out.kids.len() == n.kids.len()
            &&& forall|i: int|
                0 <= i < n.kids.len() && !(i == 0 && is_named_call(n)) ==> #[trigger] out.kids[i]
                    == fold_tree(env, top && !has_own_this(n.form), n.kids[i])
        }),
{
}

/// A list is folded tree by tree.
pub proof fn law_every_tree(env: Env, top: bool, list: Seq<NodeView>)
    ensures
        fold_all(env, top, list).len() == list.len(),
        forall|i: int|
            0 <= i < list.len() ==> #[trigger] fold_all(env, top, list)[i] == fold_tree(
                env,
                top,
                list[i],
            ),
{
}

/// A function that is called by name is called as a function: what is read from a module for
/// it is not called as a method of the module.
pub proof fn law_callee(env: Env, top: bool, n: NodeView)
    requires
        is_named_call(n),
    ensures
        ({
            let callee = fold_tree(env, top, n).kids[0];
            let read = fold_tree(env, top, n.kids[0]);
            callee == if read.form is Member {
                twig(Form::Sequence, seq![plain_word(Form::Num, "0"@), read])
            } else {
                read
            }
        }),
{
}

/// A name in value position is read from its module where it was imported, and stays where
/// it was not; and so is the value of a member `{ a }` of an object literal.
pub proof fn law_word(env: Env, top: bool, n: NodeView)
    requires
        distinct_srcs(env.imports),
    ensures
        ({
            let out = fold_tree(env, top, n);
            &&& n.form == Form::Ident && is_imported(env, spelled(n)) ==> reads_from_module(
                env,
                spelled(n),
                out,
            )
            &&& n.form == Form::Shorthand && is_imported(env, spelled(n)) ==> {
                &&& out.form == Form::KeyValue
                &&& out.kids.len() == 2
                &&& out.kids[0] == word(n.span, Form::Name, n.text)
                &&& reads_from_module(env, spelled(n), out.kids[1])
                &&& out == twig(Form::KeyValue, seq![out.kids[0], out.kids[1]])
            }
            &&& (n.form == Form::Ident || n.form == Form::Shorthand) && !is_imported(
                env,
                spelled(n),
            ) ==> out == n
            &&& n.form == Form::This ==> out == if top {
                void_at(n.span)
            } else {
                n
            }
        }),
{
    law_resolution(env, spelled(n));
    assert(ident_in(n) == spelled(n));
    if n.form == Form::Shorthand && is_imported(env, spelled(n)) {
        let out = fold_tree(env, top, n);
        assert(out.kids =~= seq![out.kids[0], out.kids[1]]);
    }
}

// ---------------------------------------------------------------------------
// Writes
// ---------------------------------------------------------------------------

/// The node that is reached by going from an assignment to its value `j` times.
pub open spec fn value_after(n: NodeView, j: nat) -> NodeView
    decreases j,
{
    if j == 0 {
        n
    } else {
        value_after(n.kids[1], (j - 1) as nat)
    }
}

/// `exports.name = ..`
pub open spec fn is_export_assignment(n: NodeView, exports: IdentView, name: IdView) -> bool {
    &&& n.kids.len() == 2
    &&& n == assignment(
        property(
            value_of(exports),
            IdentView { sym: name.sym, span: Span { lo: 0, hi: 0, ctxt: name.ctxt } },
        ),
        n.kids[1],
    )
}

/// Whether a tree assigns `e` to one export after the other: once for each of the names, the
/// first of them innermost, and with nothing but `e` inside.
pub open spec fn assigns_to_all(
    n: NodeView,
    exports: IdentView,
    names: Seq<IdView>,
    e: NodeView,
) -> bool {
    &&& forall|j: int|
        0 <= j < names.len() ==> is_export_assignment(
            #[trigger] value_after(n, j as nat),
            exports,
            names[names.len() - 1 - j],
        )
    &&& value_after(n, names.len()) == e
}

/// A chain of exports assigns its value to every one of them, whatever the value is.
pub proof fn law_chain(exports: IdentView, names: Seq<IdView>, e: NodeView)
    ensures
        assigns_to_all(chained(exports, names, e), exports, names, e),
    decreases names.len(),
{
    let chain = chained(exports, names, e);
    if names.len() > 0 {
        let rest = names.drop_last();
        law_chain(exports, rest, e);
        let inner = chained(exports, rest, e);
        assert(chain.kids[1] == inner);
        assert(chain.kids =~= seq![chain.kids[0], inner]);
        assert forall|j: int| 0 <= j < names.len() implies is_export_assignment(
            #[trigger] value_after(chain, j as nat),
            exports,
            names[names.len() - 1 - j],
        ) by {
            if j > 0 {
                assert(value_after(chain, j as nat) == value_after(inner, (j - 1) as nat));
                assert(rest[rest.len() - 1 - (j - 1)] == names[names.len() - 1 - j]);
            }
        }
        assert(value_after(chain, names.len()) == value_after(inner, rest.len()));
    }
}

/// The assignment itself, with its parts folded.
pub open spec fn plain_fold(env: Env, top: bool, n: NodeView) -> NodeView {
    NodeView {
        kids: Seq::new(n.kids.len(), |i: int| fold_tree(env, top, n.kids[i])),
        ..n
    }
}

/// A write to a variable, by whatever operator, is a write to each of its exports: the
/// assignment is the value of an assignment to every one of them, and stays as it is where
/// there is none.
pub proof fn law_write(env: Env, top: bool, n: NodeView)
    requires
        n.form is Assign,
        n.kids.len() > 0,
        n.kids[0].form == Form::BindingIdent,
    ensures
        is_exported(env, spelled(n.kids[0])) ==> assigns_to_all(
            fold_tree(env, top, n),
            env.exports,
            exports_of(env, spelled(n.kids[0])),
            plain_fold(env, top, n),
        ),
        !is_exported(env, spelled(n.kids[0])) ==> fold_tree(env, top, n) == plain_fold(
            env,
            top,
            n,
        ),
{
    let name = spelled(n.kids[0]);
    assert(idents_in(n.kids[0]) =~= seq![name]);
    assert(fold_all(env, top, n.kids) =~= plain_fold(env, top, n).kids);
    law_chain(env.exports, exports_of(env, name), plain_fold(env, top, n));
}

/// The names of a list that are exported, in order.
pub open spec fn exported_among(env: Env, names: Seq<IdentView>) -> Seq<IdentView> {
    names.filter(|name: IdentView| is_exported(env, name))
}

/// What follows an assignment to a pattern: for every variable that it writes and that is
/// exported, in order, its value goes to each of its exports.
proof fn lemma_echoes(env: Env, names: Seq<IdentView>)
    ensures
        ({
            let found = exported_among(env, names);
            &&& echoes(env, names).len() == found.len()
            &&& forall|i: int|
                0 <= i < found.len() ==> assigns_to_all(
                    #[trigger] echoes(env, names)[i],
                    env.exports,
                    exports_of(env, found[i]),
                    value_of(found[i]),
                )
        }),
    decreases names.len(),
{
    reveal(Seq::filter);
    if names.len() > 0 {
        let name = names.last();
        lemma_echoes(env, names.drop_last());
        law_chain(env.exports, exports_of(env, name), value_of(name));
        let before = exported_among(env, names.drop_last());
        let found = exported_among(env, names);
        assert(is_exported(env, name) ==> found =~= before.push(name));
        assert(!is_exported(env, name) ==> found =~= before);
    }
}

/// A write to a pattern is followed by writes to the exports of every variable in it.
pub proof fn law_pattern_write(env: Env, top: bool, n: NodeView)
    requires
        n.form is Assign,
        n.kids.len() > 0,
        n.kids[0].form != Form::BindingIdent,
    ensures
        ({
            let found = exported_among(env, idents_in(n.kids[0]));
            let out = fold_tree(env, top, n);
            &&& found.len() == 0 ==> out == plain_fold(env, top, n)
            &&& found.len() > 0 ==> {
                &&& out.kids.len() == 1 + found.len()
                &&& out == twig(Form::Sequence, out.kids)
                &&& out.kids[0] == plain_fold(env, top, n)
                &&& forall|i: int|
                    0 <= i < found.len() ==> assigns_to_all(
                        #[trigger] out.kids[1 + i],
                        env.exports,
                        exports_of(env, found[i]),
                        value_of(found[i]),
                    )
            }
        }),
{
    let names = idents_in(n.kids[0]);
    let found = exported_among(env, names);
    let out = fold_tree(env, top, n);
    lemma_echoes(env, names);
    assert(fold_all(env, top, n.kids) =~= plain_fold(env, top, n).kids);
    if found.len() > 0 {
        assert forall|i: int| 0 <= i < found.len() implies assigns_to_all(
            #[trigger] out.kids[1 + i],
            env.exports,
            exports_of(env, found[i]),
            value_of(found[i]),
        ) by {
            assert(out.kids[1 + i] == echoes(env, names)[i]);
        }
    }
}

/// `a++` is `a = +a + 1` for each of the exports of `a`, and stays where there is none; `a--`
/// is `a = +a - 1`.
pub proof fn law_bump(env: Env, top: bool, n: NodeView)
    requires
        is_bump(n),
    ensures
        ({
            let name = spelled(n.kids[0]);
            let sign = if n.form->Update_op == UpdateOp::PlusPlus {
                BinaryOp::Plus
            } else {
                BinaryOp::Minus
            };
            let number = twig(Form::Unary(UnaryOp::Plus), seq![value_of(name)]);
            &&& is_exported(env, name) ==> assigns_to_all(
                fold_tree(env, top, n),
                env.exports,
                exports_of(env, name),
                assignment(
                    binder_of(name),
                    twig(Form::Binary(sign), seq![number, plain_word(Form::Num, "1"@)]),
                ),
            )
            &&& !is_exported(env, name) ==> fold_tree(env, top, n) == n
        }),
{
    let name = spelled(n.kids[0]);
    law_chain(env.exports, exports_of(env, name), bumped(name, n.form->Update_op));
}

/// An assignment without parts stays as it is.
pub proof fn law_empty_assignment(env: Env, top: bool, n: NodeView)
    requires
        n.form is Assign,
        n.kids.len() == 0,
    ensures
        fold_tree(env, top, n) == n,
{
    assert(fold_all(env, top, n.kids) =~= n.kids);
}

// ---------------------------------------------------------------------------
// Any depth
// ---------------------------------------------------------------------------

/// Whether a path leads to a part of a tree.
pub open spec fn leads(n: NodeView, path: Seq<int>) -> bool
    decreases path.len(),
{
    path.len() == 0 || (0 <= path[0] < n.kids.len() && leads(n.kids[path[0]], path.skip(1)))
}

/// The part of a tree that a path leads to.
pub open spec fn part_at(n: NodeView, path: Seq<int>) -> NodeView
    decreases path.len(),
{
    if path.len() == 0 {
        n
    } else {
        part_at(n.kids[path[0]], path.skip(1))
    }
}

/// Whether the parts on a path keep their places: no word on the way, no update of a name,
/// no write to an exported variable, and no callee of a call by name.
pub open spec fn is_steady(env: Env, n: NodeView, path: Seq<int>) -> bool
    decreases path.len(),
{
    path.len() == 0 || {
        &&& n.form != Form::This && n.form != Form::Ident && n.form != Form::Shorthand
        &&& !is_bump(n)
        &&& n.form is Assign ==> exported_among(env, idents_in(n.kids[0])).len() == 0
        &&& !(path[0] == 0 && is_named_call(n))
        &&& is_steady(env, n.kids[path[0]], path.skip(1))
    }
}

/// Whether a part has the `this` of the tree around it.
pub open spec fn shares_this(n: NodeView, path: Seq<int>) -> bool
    decreases path.len(),
{
    path.len() == 0 || (!has_own_this(n.form) && shares_this(n.kids[path[0]], path.skip(1)))
}

/// What stands at any depth of a tree is folded, wherever it stands.
pub proof fn law_any_depth(env: Env, top: bool, n: NodeView, path: Seq<int>)
    requires
        leads(n, path),
        is_steady(env, n, path),
    ensures
        leads(fold_tree(env, top, n), path),
        part_at(fold_tree(env, top, n), path) == fold_tree(
            env,
            top && shares_this(n, path),
            part_at(n, path),
        ),
    decreases path.len(),
{
    if path.len() > 0 {
        let i = path[0];
        let out = fold_tree(env, top, n);
        let inner = top && !has_own_this(n.form);
        if n.form is Assign {
            let names = idents_in(n.kids[0]);
            reveal(Seq::filter);
            if n.kids[0].form == Form::BindingIdent {
                assert(names =~= seq![spelled(n.kids[0])]);
                assert(names.drop_last() =~= Seq::empty());
                assert(!is_exported(env, names.last()));
                law_write(env, top, n);
            } else {
                law_pattern_write(env, top, n);
            }
        } else {
            law_every_kid(env, top, n);
        }
        assert(out.kids[i] == fold_tree(env, inner, n.kids[i]));
        law_any_depth(env, inner, n.kids[i], path.skip(1));
    }
}

/// An imported name in value position is read from its module at any depth, below any kind
/// of statement or expression.
pub proof fn law_imports_at_any_depth(env: Env, top: bool, n: NodeView, path: Seq<int>)
    requires
        distinct_srcs(env.imports),
        leads(n, path),
        is_steady(env, n, path),
        part_at(n, path).form == Form::Ident,
        is_imported(env, spelled(part_at(n, path))),
    ensures
        reads_from_module(
            env,
            spelled(part_at(n, path)),
            part_at(fold_tree(env, top, n), path),
        ),
{
    law_any_depth(env, top, n, path);
    law_word(env, top && shares_this(n, path), part_at(n, path));
}

/// A write to an exported variable is written through at any depth.
pub proof fn law_writes_at_any_depth(env: Env, top: bool, n: NodeView, path: Seq<int>)
    requires
        leads(n, path),
        is_steady(env, n, path),
        part_at(n, path).form is Assign,
        part_at(n, path).kids.len() > 0,
        part_at(n, path).kids[0].form == Form::BindingIdent,
        is_exported(env, spelled(part_at(n, path).kids[0])),
    ensures
        ({
            let write = part_at(n, path);
            assigns_to_all(
                part_at(fold_tree(env, top, n), path),
                env.exports,
                exports_of(env, spelled(write.kids[0])),
                plain_fold(env, top && shares_this(n, path), write),
            )
        }),
{
    law_any_depth(env, top, n, path);
    law_write(env, top && shares_this(n, path), part_at(n, path));
}

// ---------------------------------------------------------------------------
// Nothing is left over
// ---------------------------------------------------------------------------

/// Whether an imported name is used in a tree as if it were a variable.
pub open spec fn uses_import(env: Env, n: NodeView) -> bool
    decreases n,
{
    match n.form {
        Form::This => false,
        Form::Ident | Form::Shorthand => is_imported(env, spelled(n)),
        _ => exists|i: int| 0 <= i < n.kids.len() && uses_import(env, #[trigger] n.kids[i]),
    }
}

/// Whether an imported name is counted up or down in a tree, which no program may do.
pub open spec fn bumps_import(env: Env, n: NodeView) -> bool
    decreases n,
{
    ||| is_bump(n) && is_imported(env, spelled(n.kids[0]))
    ||| exists|i: int| 0 <= i < n.kids.len() && bumps_import(env, #[trigger] n.kids[i])
}

/// Whether the names that the pass writes itself are not imported ones: those of modules, that
/// of the export object, and those of exported variables.
pub open spec fn names_are_separate(env: Env) -> bool {
    &&& forall|src: Seq<char>, local: IdentView| #[trigger]
        module_named(env.imports, src, local) ==> !is_imported(env, local)
    &&& !is_imported(env, env.exports)
    &&& forall|name: IdentView| #[trigger] is_exported(env, name) ==> !is_imported(env, name)
}

/// Assigning to exports uses no imported name, if what is assigned does not.
proof fn lemma_chain_uses_nothing(env: Env, names: Seq<IdView>, e: NodeView)
    requires
        names_are_separate(env),
        !uses_import(env, e),
    ensures
        !uses_import(env, chained(env.exports, names, e)),
    decreases names.len(),
{
    if names.len() > 0 {
        lemma_chain_uses_nothing(env, names.drop_last(), e);
        let chain = chained(env.exports, names, e);
        let target = chain.kids[0];
        assert(target.kids[0] == value_of(env.exports));
        assert(spelled(target.kids[0]) == env.exports);
        assert(!uses_import(env, target.kids[0]));
        assert(!uses_import(env, target.kids[1]));
        assert(!uses_import(env, target));
        assert(chain.kids[1] == chained(env.exports, names.drop_last(), e));
    }
}

/// What is read from a module uses no imported name.
proof fn lemma_read_uses_nothing(env: Env, name: IdentView, n: NodeView)
    requires
        names_are_separate(env),
        reads_from_module(env, name, n),
    ensures
        !uses_import(env, n),
        !uses_import(env, detached(n)),
{
    let b = env.idents[IdView { sym: name.sym, ctxt: name.span.ctxt }];
    let local = choose|local: IdentView| #[trigger]
        module_named(env.imports, b.src, local) && n == if b.prop.len() == 0 {
            value_of(local)
        } else {
            plain_property(value_of(local), b.prop)
        };
    assert(spelled(value_of(local)) == local);
    assert(!uses_import(env, value_of(local)));
    if b.prop.len() > 0 {
        assert(n.kids[0] == value_of(local));
        assert(!uses_import(env, n.kids[1]));
        assert(!uses_import(env, n.kids[0]));
        assert(!uses_import(env, n));
        let d = detached(n);
        assert(d.kids.len() == 2);
        assert(d.kids[0] == num_view("0"@));
        assert(d.kids[1] == n);
        assert(!uses_import(env, d.kids[0]));
        assert(!uses_import(env, d));
    } else {
        assert(detached(n) == n);
    }
}

/// What follows a write to a pattern uses no imported name.
proof fn lemma_echoes_use_nothing(env: Env, names: Seq<IdentView>)
    requires
        names_are_separate(env),
    ensures
        forall|i: int|
            0 <= i < echoes(env, names).len() ==> !uses_import(
                env,
                #[trigger] echoes(env, names)[i],
            ),
    decreases names.len(),
{
    if names.len() > 0 {
        lemma_echoes_use_nothing(env, names.drop_last());
        let name = names.last();
        let before = echoes(env, names.drop_last());
        if is_exported(env, name) {
            assert(spelled(value_of(name)) == name);
            assert(!uses_import(env, value_of(name)));
            lemma_chain_uses_nothing(env, exports_of(env, name), value_of(name));
        }
        assert forall|i: int| 0 <= i < echoes(env, names).len() implies !uses_import(
            env,
            #[trigger] echoes(env, names)[i],
        ) by {
            if i < before.len() {
                assert(echoes(env, names)[i] == before[i]);
            }
        }
    }
}

/// After folding, no imported name is left that is used as if it were a variable: every one of
/// them is read from its module, wherever it stood.
#[verifier::rlimit(40)]
pub proof fn law_no_import_is_left(env: Env, top: bool, n: NodeView)
    requires
        distinct_srcs(env.imports),
        names_are_separate(env),
        !bumps_import(env, n),
    ensures
        !uses_import(env, fold_tree(env, top, n)),
    decreases n,
{
    let out = fold_tree(env, top, n);
    match n.form {
        Form::This => {
            if top {
                assert(!uses_import(env, out.kids[0]));
            }
        },
        Form::Ident => {
            law_word(env, top, n);
            if is_imported(env, spelled(n)) {
                lemma_read_uses_nothing(env, spelled(n), out);
            }
        },
        Form::Shorthand => {
            law_word(env, top, n);
            if is_imported(env, spelled(n)) {
                lemma_read_uses_nothing(env, spelled(n), out.kids[1]);
                assert(!uses_import(env, out.kids[0]));
            }
        },
        _ => {
            let inner = top && !has_own_this(n.form);
            let plain = NodeView { kids: fold_all(env, inner, n.kids), ..n };
            assert forall|i: int| 0 <= i < n.kids.len() implies !uses_import(
                env,
                #[trigger] plain.kids[i],
            ) by {
                assert(!bumps_import(env, n.kids[i]));
                law_no_import_is_left(env, inner, n.kids[i]);
            }
            assert(!uses_import(env, plain));
            if is_bump(n) {
                let name = spelled(n.kids[0]);
                assert(spelled(n.kids[0]) == name);
                if is_exported(env, name) {
                    let op = n.form->Update_op;
                    let b = bumped(name, op);
                    let sum = b.kids[1];
                    assert(!uses_import(env, b.kids[0]));
                    assert(sum.kids[0].kids[0] == value_of(name));
                    assert(spelled(value_of(name)) == name);
                    assert(!uses_import(env, sum.kids[0].kids[0]));
                    assert(!uses_import(env, sum.kids[0]));
                    assert(!uses_import(env, sum.kids[1]));
                    assert(!uses_import(env, sum));
                    assert(!uses_import(env, b));
                    lemma_chain_uses_nothing(env, exports_of(env, name), b);
                } else {
                    assert(!uses_import(env, n.kids[0]));
                }
            } else if n.form is Assign && n.kids.len() > 0 {
                let target = n.kids[0];
                let names = idents_in(target);
                if target.form == Form::BindingIdent {
                    assert(names =~= seq![spelled(target)]);
                    if is_exported(env, names[0]) {
                        lemma_chain_uses_nothing(env, exports_of(env, names[0]), plain);
                    }
                } else {
                    lemma_echoes_use_nothing(env, names);
                    if echoes(env, names).len() > 0 {
                        assert forall|i: int| 0 <= i < out.kids.len() implies !uses_import(
                            env,
                            #[trigger] out.kids[i],
                        ) by {
                            if i > 0 {
                                assert(out.kids[i] == echoes(env, names)[i - 1]);
                            }
                        }
                    }
                }
            } else if is_named_call(n) {
                law_word(env, top, n.kids[0]);
                let read = fold_tree(env, top, n.kids[0]);
                if is_imported(env, spelled(n.kids[0])) {
                    lemma_read_uses_nothing(env, spelled(n.kids[0]), read);
                }
                assert forall|i: int| 0 <= i < out.kids.len() implies !uses_import(
                    env,
                    #[trigger] out.kids[i],
                ) by {
                    if i > 0 {
                        assert(out.kids[i] == plain.kids[i]);
                    } else {
                        assert(plain.kids[0] == read);
                    }
                }
            }
        },
    }
}

/// Whether the `this` of the module occurs in a tree.
pub open spec fn uses_module_this(n: NodeView) -> bool
    decreases n,
{
    match n.form {
        Form::This => true,
        Form::Ident | Form::Shorthand => false,
        _ => !has_own_this(n.form) && exists|i: int|
            0 <= i < n.kids.len() && uses_module_this(#[trigger] n.kids[i]),
    }
}

/// Assigning to exports does not use `this`, if what is assigned does not.
proof fn lemma_chain_without_this(exports: IdentView, names: Seq<IdView>, e: NodeView)
    requires
        !uses_module_this(e),
    ensures
        !uses_module_this(chained(exports, names, e)),
    decreases names.len(),
{
    if names.len() > 0 {
        lemma_chain_without_this(exports, names.drop_last(), e);
        let chain = chained(exports, names, e);
        let target = chain.kids[0];
        assert(!uses_module_this(target.kids[0]));
        assert(!uses_module_this(target.kids[1]));
        assert(!uses_module_this(target));
        assert(chain.kids[1] == chained(exports, names.drop_last(), e));
    }
}

/// What follows a write to a pattern does not use `this`.
proof fn lemma_echoes_without_this(env: Env, names: Seq<IdentView>)
    ensures
        forall|i: int|
            0 <= i < echoes(env, names).len() ==> !uses_module_this(
                #[trigger] echoes(env, names)[i],
            ),
    decreases names.len(),
{
    if names.len() > 0 {
        lemma_echoes_without_this(env, names.drop_last());
        let name = names.last();
        let before = echoes(env, names.drop_last());
        assert(!uses_module_this(value_of(name)));
        lemma_chain_without_this(env.exports, exports_of(env, name), value_of(name));
        assert forall|i: int| 0 <= i < echoes(env, names).len() implies !uses_module_this(
            #[trigger] echoes(env, names)[i],
        ) by {
            if i < before.len() {
                assert(echoes(env, names)[i] == before[i]);
            }
        }
    }
}

/// What is read from a module does not use `this`.
proof fn lemma_read_without_this(env: Env, name: IdentView, n: NodeView)
    requires
        reads_from_module(env, name, n),
    ensures
        !uses_module_this(n),
        !uses_module_this(detached(n)),
{
    let b = env.idents[IdView { sym: name.sym, ctxt: name.span.ctxt }];
    let local = choose|local: IdentView| #[trigger]
        module_named(env.imports, b.src, local) && n == if b.prop.len() == 0 {
            value_of(local)
        } else {
            plain_property(value_of(local), b.prop)
        };
    assert(!uses_module_this(value_of(local)));
    if b.prop.len() > 0 {
        assert(n.kids[0] == value_of(local));
        assert(!uses_module_this(n.kids[1]));
        assert(!uses_module_this(n.kids[0]));
        assert(!uses_module_this(n));
        let d = detached(n);
        assert(d.kids.len() == 2);
        assert(d.kids[0] == num_view("0"@));
        assert(d.kids[1] == n);
        assert(!uses_module_this(d.kids[0]));
        assert(!uses_module_this(d));
    } else {
        assert(detached(n) == n);
    }
}

/// After folding at the top level, the `this` of the module is gone, wherever it stood.
#[verifier::rlimit(40)]
pub proof fn law_no_this_is_left(env: Env, n: NodeView)
    requires
        distinct_srcs(env.imports),
    ensures
        !uses_module_this(fold_tree(env, true, n)),
    decreases n,
{
    let out = fold_tree(env, true, n);
    match n.form {
        Form::This => {
            assert(!uses_module_this(out.kids[0]));
        },
        Form::Ident => {
            law_word(env, true, n);
            if is_imported(env, spelled(n)) {
                lemma_read_without_this(env, spelled(n), out);
            }
        },
        Form::Shorthand => {
            law_word(env, true, n);
            if is_imported(env, spelled(n)) {
                lemma_read_without_this(env, spelled(n), out.kids[1]);
                assert(!uses_module_this(out.kids[0]));
            }
        },
        _ => {
            let plain = NodeView {
                kids: fold_all(env, true && !is_nested(n.form), n.kids),
                ..n
            };
            if !has_own_this(n.form) {
                assert forall|i: int| 0 <= i < n.kids.len() implies !uses_module_this(
                    #[trigger] plain.kids[i],
                ) by {
                    law_no_this_is_left(env, n.kids[i]);
                }
            }
            assert(!uses_module_this(plain));
            if is_bump(n) {
                let name = spelled(n.kids[0]);
                if is_exported(env, name) {
                    let b = bumped(name, n.form->Update_op);
                    let sum = b.kids[1];
                    assert(!uses_module_this(b.kids[0]));
                    assert(!uses_module_this(sum.kids[0].kids[0]));
                    assert(!uses_module_this(sum.kids[0]));
                    assert(!uses_module_this(sum.kids[1]));
                    assert(!uses_module_this(sum));
                    assert(!uses_module_this(b));
                    lemma_chain_without_this(env.exports, exports_of(env, name), b);
                } else {
                    assert(!uses_module_this(n.kids[0]));
                }
            } else if n.form is Assign && n.kids.len() > 0 {
                let target = n.kids[0];
                let names = idents_in(target);
                if target.form == Form::BindingIdent {
                    assert(names =~= seq![spelled(target)]);
                    lemma_chain_without_this(env.exports, exports_of(env, names[0]), plain);
                } else {
                    lemma_echoes_without_this(env, names);
                    if echoes(env, names).len() > 0 {
                        assert forall|i: int|
                            0 <= i < out.kids.len() implies !uses_module_this(
                            #[trigger] out.kids[i],
                        ) by {
                            if i > 0 {
                                assert(out.kids[i] == echoes(env, names)[i - 1]);
                            }
                        }
                    }
                }
            } else if is_named_call(n) {
                law_word(env, true, n.kids[0]);
                let read = fold_tree(env, true, n.kids[0]);
                if is_imported(env, spelled(n.kids[0])) {
                    lemma_read_without_this(env, spelled(n.kids[0]), read);
                }
                assert forall|i: int| 0 <= i < out.kids.len() implies !uses_module_this(
                    #[trigger] out.kids[i],
                ) by {
                    if i > 0 {
                        assert(out.kids[i] == plain.kids[i]);
                    } else {
                        assert(plain.kids[0] == read);
                    }
                }
            }
        },
    }
}

// ---------------------------------------------------------------------------
// What is bound, and what is declared
// ---------------------------------------------------------------------------

/// Whether a pattern or a declarator binds a name, somewhere in it.
pub open spec fn binds(n: NodeView, name: IdentView) -> bool
    decreases n,
{
    ||| n.form == Form::BindingIdent && spelled(n) == name
    ||| (n.form == Form::ArrayPat || n.form == Form::ObjectPat || n.form == Form::RestPat)
        && exists|i: int| 0 <= i < n.kids.len() && binds(#[trigger] n.kids[i], name)
    ||| (n.form == Form::AssignPat || n.form == Form::AssignPatProp || n.form is VarDeclarator)
        && n.kids.len() > 0 && binds(n.kids[0], name)
    ||| n.form == Form::KeyValuePat && n.kids.len() > 1 && binds(n.kids[1], name)
}

/// Exactly the names that are bound somewhere in a pattern are found in it.
pub proof fn law_binders(n: NodeView, name: IdentView)
    ensures
        idents_in(n).contains(name) <==> binds(n, name),
    decreases n, 1int,
{
    match n.form {
        Form::BindingIdent => {
            assert(idents_in(n)[0] == spelled(n));
        },
        Form::ArrayPat | Form::ObjectPat | Form::RestPat => law_all_binders(n.kids, name),
        Form::AssignPat | Form::AssignPatProp | Form::VarDeclarator { .. } => {
            if n.kids.len() > 0 {
                law_binders(n.kids[0], name);
            }
        },
        Form::KeyValuePat => {
            if n.kids.len() > 1 {
                law_binders(n.kids[1], name);
            }
        },
        _ => {},
    }
}

/// Exactly the names that are bound in one of a list of patterns are found in the list.
pub proof fn law_all_binders(list: Seq<NodeView>, name: IdentView)
    ensures
        idents_in_all(list).contains(name) <==> exists|i: int|
            0 <= i < list.len() && binds(#[trigger] list[i], name),
    decreases list, 0int,
{
    let all = idents_in_all(list);
    if list.len() > 0 {
        let rest = list.drop_last();
        let before = idents_in_all(rest);
        let last = idents_in(list.last());
        law_all_binders(rest, name);
        law_binders(list.last(), name);
        assert(all == before + last);
        if before.contains(name) {
            assert(all[before.index_of(name)] == name);
            let i = choose|i: int| 0 <= i < rest.len() && binds(#[trigger] rest[i], name);
            assert(binds(list[i], name));
        }
        if last.contains(name) {
            assert(all[before.len() + last.index_of(name)] == name);
            assert(binds(list[list.len() - 1], name));
        }
        if all.contains(name) {
            let k = all.index_of(name);
            if k < before.len() {
                assert(before[k] == name);
            } else {
                assert(last[k - before.len()] == name);
            }
        }
        if exists|i: int| 0 <= i < list.len() && binds(#[trigger] list[i], name) {
            let i = choose|i: int| 0 <= i < list.len() && binds(#[trigger] list[i], name);
            if i < rest.len() {
                assert(binds(rest[i], name));
            }
        }
    }
}

/// Names are found in source order: those of a list part by part, and those of a pattern
/// with parts as those of its parts.
pub proof fn law_binders_in_order(a: Seq<NodeView>, b: Seq<NodeView>, n: NodeView)
    ensures
        idents_in_all(a + b) == idents_in_all(a) + idents_in_all(b),
        idents_in_all(seq![n]) == idents_in(n),
        n.form == Form::BindingIdent ==> idents_in(n) == seq![spelled(n)],
        n.form == Form::ArrayPat || n.form == Form::ObjectPat || n.form == Form::RestPat
            ==> idents_in(n) == idents_in_all(n.kids),
        (n.form == Form::AssignPat || n.form == Form::AssignPatProp || n.form is VarDeclarator)
            && n.kids.len() > 0 ==> idents_in(n) == idents_in(n.kids[0]),
        n.form == Form::KeyValuePat && n.kids.len() > 1 ==> idents_in(n) == idents_in(n.kids[1]),
    decreases b.len(),
{
    if b.len() == 0 {
        assert(a + b =~= a);
        assert(idents_in_all(a) + idents_in_all(b) =~= idents_in_all(a));
    } else {
        assert((a + b).drop_last() =~= a + b.drop_last());
        law_binders_in_order(a, b.drop_last(), n);
        assert(idents_in_all(a + b) =~= idents_in_all(a) + idents_in_all(b));
    }
    reveal_with_fuel(idents_in_all, 2);
    assert(seq![n].drop_last() =~= Seq::empty());
    assert(idents_in_all(seq![n]) =~= idents_in(n));
}

/// Whether a variable is declared somewhere in a tree, by `var` or by `let`.
pub open spec fn declares(n: NodeView, id: IdView) -> bool
    decreases n,
{
    &&& n.form != Form::This && n.form != Form::Ident && n.form != Form::Shorthand
    &&& {
        ||| n.form is VarDecl && n.form->VarDecl_kind != VarDeclKind::Const && exists|
            i: int,
            name: IdentView,
        |
            0 <= i < n.kids.len() && #[trigger] binds(n.kids[i], name) && (IdView {
                sym: name.sym,
                ctxt: name.span.ctxt,
            }) == id
        ||| exists|i: int| 0 <= i < n.kids.len() && declares(#[trigger] n.kids[i], id)
    }
}

/// Exactly the variables that are declared by `var` or `let` somewhere in a tree, at any
/// depth, are noted as declared.
pub proof fn law_declared(n: NodeView, id: IdView)
    ensures
        declared_in(n).contains(id) <==> declares(n, id),
    decreases n, 1int,
{
    if n.form != Form::This && n.form != Form::Ident && n.form != Form::Shorthand {
        law_all_declared(n.kids, id);
        if n.form is VarDecl && n.form->VarDecl_kind != VarDeclKind::Const {
            let names = idents_in_all(n.kids);
            let own = ids_of(names);
            let inner = declared_in_all(n.kids);
            let all = own + inner;
            assert(declared_in(n) == all);
            if own.contains(id) {
                let k = own.index_of(id);
                assert(names.contains(names[k]));
                law_all_binders(n.kids, names[k]);
                let i = choose|i: int|
                    0 <= i < n.kids.len() && binds(#[trigger] n.kids[i], names[k]);
                assert(binds(n.kids[i], names[k]));
                assert(all[k] == id);
            }
            if inner.contains(id) {
                assert(all[own.len() + inner.index_of(id)] == id);
            }
            if all.contains(id) {
                let k = all.index_of(id);
                if k < own.len() {
                    assert(own[k] == id);
                } else {
                    assert(inner[k - own.len()] == id);
                }
            }
            if exists|i: int, name: IdentView|
                0 <= i < n.kids.len() && #[trigger] binds(n.kids[i], name) && (IdView {
                    sym: name.sym,
                    ctxt: name.span.ctxt,
                }) == id {
                let (i, name) = choose|i: int, name: IdentView|
                    0 <= i < n.kids.len() && #[trigger] binds(n.kids[i], name) && (IdView {
                        sym: name.sym,
                        ctxt: name.span.ctxt,
                    }) == id;
                law_all_binders(n.kids, name);
                assert(names.contains(name));
                let k = names.index_of(name);
                assert(own[k] == id);
                assert(all[k] == id);
            }
        }
    }
}

/// The same, for a list.
pub proof fn law_all_declared(list: Seq<NodeView>, id: IdView)
    ensures
        declared_in_all(list).contains(id) <==> exists|i: int|
            0 <= i < list.len() && declares(#[trigger] list[i], id),
    decreases list, 0int,
{
    let all = declared_in_all(list);
    if list.len() > 0 {
        let rest = list.drop_last();
        let before = declared_in_all(rest);
        let last = declared_in(list.last());
        law_all_declared(rest, id);
        law_declared(list.last(), id);
        assert(all == before + last);
        if before.contains(id) {
            assert(all[before.index_of(id)] == id);
            let i = choose|i: int| 0 <= i < rest.len() && declares(#[trigger] rest[i], id);
            assert(declares(list[i], id));
        }
        if last.contains(id) {
            assert(all[before.len() + last.index_of(id)] == id);
            assert(declares(list[list.len() - 1], id));
        }
        if all.contains(id) {
            let k = all.index_of(id);
            if k < before.len() {
                assert(before[k] == id);
            } else {
                assert(last[k - before.len()] == id);
            }
        }
        if exists|i: int| 0 <= i < list.len() && declares(#[trigger] list[i], id) {
            let i = choose|i: int| 0 <= i < list.len() && declares(#[trigger] list[i], id);
            if i < rest.len() {
                assert(declares(rest[i], id));
            }
        }
    }
}

} // verus!
