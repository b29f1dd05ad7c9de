//! Names: the local name of a module source, and the set of names that are
//! initialized before a module body runs.

use fxhash::FxHashSet;
use vstd::prelude::*;
use vstd::string::StrSliceExecFns;
use vstd::string::StringExecFns;

verus! {

/// What `inflector::cases::camelcase::to_camel_case` makes of a string.
pub uninterp spec fn camel_case(s: Seq<char>) -> Seq<char>;

/// Calls `inflector::cases::camelcase::to_camel_case`, whose result depends on the
/// string alone.
#[verifier::external_body]
fn to_camel_case(s: &str) -> (camel: String)
    ensures
        camel@ == camel_case(s@),
{
    inflector::cases::camelcase::to_camel_case(s)
}

/// What follows the last `/` of a path; all of it where there is none.
pub open spec fn last_segment(path: Seq<char>) -> Seq<char>
    decreases path.len(),
{
    if path.len() == 0 || path.last() == '/' {
        Seq::empty()
    } else {
        last_segment(path.drop_last()).push(path.last())
    }
}

/// The local name of a module source.
pub open spec fn local_name(src: Seq<char>) -> Seq<char> {
    seq!['_'] + camel_case(last_segment(src))
}

/// The name under which a module is bound when the program gives it none: `_` and
/// the last segment of its path in camel case.
pub fn local_name_for_src(src: &str) -> (name: String)
    ensures
        name@ == local_name(src@),
{
    let len: usize = src.unicode_len();
    let mut start: usize = 0;
    let mut i: usize = 0;
    for c in it: src.chars()
        invariant
            it.seq() == src@,
            i == it.index(),
            start <= i,
            i <= len,
            len == src@.len(),
            last_segment(src@.take(i as int)) == src@.subrange(start as int, i as int),
    {
        proof {
            assert(src@.take(i + 1).drop_last() =~= src@.take(i as int));
        }
        i += 1;
        if c == '/' {
            start = i;
        }
    }
    let segment: &str = src.substring_char(start, len);
    let camel: String = to_camel_case(segment);
    let mut name: String = "_".to_owned();
    name.append(camel.as_str());
    proof {
        reveal_strlit("_");
        assert(src@.take(len as int) =~= src@);
        assert(name@ =~= local_name(src@));
    }
    name
}

/// `fxhash::FxHasher`, which hashes the names of a set.
#[verifier::external_type_specification]
#[verifier::external_body]
pub struct ExFxHasher(fxhash::FxHasher);

/// `std::hash::BuildHasherDefault`, which makes hashers for a set.
#[verifier::external_type_specification]
#[verifier::external_body]
#[verifier::reject_recursive_types(H)]
pub struct ExBuildHasherDefault<H>(std::hash::BuildHasherDefault<H>);

/// The names that a set holds.
pub uninterp spec fn names_in(set: FxHashSet<String>) -> Set<Seq<char>>;

/// Calls `fxhash::FxHashSet::default`: a set without names.
#[verifier::external_body]
pub(crate) fn new_name_set() -> (set: FxHashSet<String>)
    ensures
        names_in(set) == Set::<Seq<char>>::empty(),
{
    FxHashSet::default()
}

/// Calls `fxhash::FxHashSet::insert`: the name is in the set afterwards, and nothing
/// else changes.
#[verifier::external_body]
pub(crate) fn insert_name(set: &mut FxHashSet<String>, name: String)
    ensures
        names_in(*final(set)) == names_in(*old(set)).insert(name@),
{
    set.insert(name);
}

/// Whether `order` lists the names of `set`, each of them once.
pub open spec fn lists(order: Seq<Seq<char>>, set: Set<Seq<char>>) -> bool {
    order.no_duplicates() && order.to_set() == set
}

/// Calls `fxhash::FxHashSet::into_iter`: every name of the set comes out once. The
/// order is that of the hash table, and nothing is said of it.
#[verifier::external_body]
pub(crate) fn into_names(set: FxHashSet<String>) -> (names: Vec<String>)
    ensures
        lists(crate::model::strings_view(names@), names_in(set)),
{
    set.into_iter().collect()
}

} // verus!
