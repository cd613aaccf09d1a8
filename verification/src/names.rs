//! Lists of identifiers.

use vstd::prelude::*;

verus! {

/// The members of `names` that are not among `present`, each kept where it
/// is first seen.
pub open spec fn missing(names: Seq<Seq<char>>, present: Seq<Seq<char>>) -> Seq<Seq<char>>
    decreases names.len(),
{
    if names.len() == 0 {
        seq![]
    } else {
        let before = missing(names.drop_last(), present);
        let name = names.last();
        if present.contains(name) || before.contains(name) {
            before
        } else {
            before.push(name)
        }
    }
}

/// The members of `names`, each kept where it is first seen.
pub open spec fn first_occurrences(names: Seq<Seq<char>>) -> Seq<Seq<char>> {
    missing(names, seq![])
}

/// The members of `names` that are among `allowed`, in their order.
pub open spec fn only(names: Seq<Seq<char>>, allowed: Seq<Seq<char>>) -> Seq<Seq<char>>
    decreases names.len(),
{
    if names.len() == 0 {
        seq![]
    } else if allowed.contains(names.last()) {
        only(names.drop_last(), allowed).push(names.last())
    } else {
        only(names.drop_last(), allowed)
    }
}

/// `missing` holds nothing twice, and holds exactly the names that are
/// members of the one list and not of the other.
pub proof fn lemma_missing(names: Seq<Seq<char>>, present: Seq<Seq<char>>)
    ensures
        missing(names, present).no_duplicates(),
        forall|name: Seq<char>| #[trigger]
            missing(names, present).contains(name) <==> names.contains(name) && !present.contains(
                name,
            ),
    decreases names.len(),
{
    let found = missing(names, present);
    if names.len() == 0 {
    } else {
        let before = missing(names.drop_last(), present);
        let last = names.last();
        lemma_missing(names.drop_last(), present);
        assert forall|name: Seq<char>| #[trigger]
            found.contains(name) <==> names.contains(name) && !present.contains(name) by {
            if names.contains(name) {
                let k = choose|k: int| 0 <= k < names.len() && names[k] == name;
                if k < names.len() - 1 {
                    assert(names.drop_last()[k] == name);
                }
            }
            if names.drop_last().contains(name) {
                let k = choose|k: int| 0 <= k < names.drop_last().len() && names.drop_last()[k] == name;
                assert(names[k] == name);
            }
            if found.contains(name) && found != before {
                let k = choose|k: int| 0 <= k < found.len() && found[k] == name;
                if k < before.len() {
                    assert(before[k] == name);
                } else {
                    assert(names[names.len() - 1] == name);
                }
            }
            if before.contains(name) && found != before {
                let k = choose|k: int| 0 <= k < before.len() && before[k] == name;
                assert(found[k] == name);
            }
            if name == last && !present.contains(name) && !before.contains(name) {
                assert(found[found.len() - 1] == name);
            }
        }
    }
}

/// A list that holds nothing twice, and nothing that is among `present`, is
/// kept as it is.
pub proof fn lemma_missing_keeps(names: Seq<Seq<char>>, present: Seq<Seq<char>>)
    requires
        names.no_duplicates(),
        forall|name: Seq<char>| names.contains(name) ==> !present.contains(name),
    ensures
        missing(names, present) == names,
    decreases names.len(),
{
    if names.len() > 0 {
        let init = names.drop_last();
        assert forall|name: Seq<char>| init.contains(name) implies !present.contains(name) by {
            let k = choose|k: int| 0 <= k < init.len() && init[k] == name;
            assert(names[k] == name);
        }
        lemma_missing_keeps(init, present);
        assert(names.contains(names.last()));
        if init.contains(names.last()) {
            let k = choose|k: int| 0 <= k < init.len() && init[k] == names.last();
            assert(names[k] == names[names.len() - 1]);
        }
        assert(init.push(names.last()) =~= names);
    }
}

/// The members of `only` are those of the one list that are members of the
/// other.
pub proof fn lemma_only(names: Seq<Seq<char>>, allowed: Seq<Seq<char>>)
    ensures
        forall|name: Seq<char>| #[trigger]
            only(names, allowed).contains(name) <==> names.contains(name) && allowed.contains(name),
    decreases names.len(),
{
    let found = only(names, allowed);
    if names.len() == 0 {
    } else {
        let before = only(names.drop_last(), allowed);
        let last = names.last();
        lemma_only(names.drop_last(), allowed);
        assert forall|name: Seq<char>| #[trigger]
            found.contains(name) <==> names.contains(name) && allowed.contains(name) by {
            if names.contains(name) {
                let k = choose|k: int| 0 <= k < names.len() && names[k] == name;
                if k < names.len() - 1 {
                    assert(names.drop_last()[k] == name);
                }
            }
            if names.drop_last().contains(name) {
                let k = choose|k: int| 0 <= k < names.drop_last().len() && names.drop_last()[k] == name;
                assert(names[k] == name);
            }
            if found.contains(name) && found != before {
                let k = choose|k: int| 0 <= k < found.len() && found[k] == name;
                if k < before.len() {
                    assert(before[k] == name);
                } else {
                    assert(names[names.len() - 1] == name);
                }
            }
            if before.contains(name) && found != before {
                let k = choose|k: int| 0 <= k < before.len() && before[k] == name;
                assert(found[k] == name);
            }
            if name == last && allowed.contains(name) {
                assert(found[found.len() - 1] == name);
            }
        }
    }
}

/// Whether `name` is a member of `names`.
pub fn contains_name(names: &Vec<String>, name: &String) -> (found: bool)
    ensures
        found == names.deep_view().contains(name@),
{
    let mut i: usize = 0;
    while i < names.len()
        invariant
            i <= names.len(),
            forall|k: int| 0 <= k < i ==> names[k]@ != name@,
        decreases names.len() - i,
    {
        if names[i] == *name {
            assert(names.deep_view()[i as int] == name@);
            return true;
        }
        i += 1;
    }
    false
}

/// The members of `names` that are not among `present`, each kept where it
/// is first seen.
pub fn missing_names(names: &Vec<String>, present: &Vec<String>) -> (found: Vec<String>)
    ensures
        found.deep_view() == missing(names.deep_view(), present.deep_view()),
{
    let mut found: Vec<String> = Vec::new();
    let mut i: usize = 0;
    assert(names.deep_view().take(0) =~= seq![]);
    while i < names.len()
        invariant
            i <= names.len(),
            found.deep_view() == missing(names.deep_view().take(i as int), present.deep_view()),
        decreases names.len() - i,
    {
        proof {
            assert(names.deep_view().take(i + 1).drop_last() =~= names.deep_view().take(i as int));
            assert(names.deep_view().take(i + 1).last() == names[i as int]@);
        }
        if !contains_name(present, &names[i]) && !contains_name(&found, &names[i]) {
            let ghost before = found.deep_view();
            found.push(names[i].clone());
            assert(found.deep_view() =~= before.push(names[i as int]@));
        }
        i += 1;
    }
    assert(names.deep_view().take(i as int) =~= names.deep_view());
    found
}

/// The members of `names` that are among `allowed`, in their order.
pub fn only_names(names: &Vec<String>, allowed: &Vec<String>) -> (found: Vec<String>)
    ensures
        found.deep_view() == only(names.deep_view(), allowed.deep_view()),
{
    let mut found: Vec<String> = Vec::new();
    let mut i: usize = 0;
    assert(names.deep_view().take(0) =~= seq![]);
    while i < names.len()
        invariant
            i <= names.len(),
            found.deep_view() == only(names.deep_view().take(i as int), allowed.deep_view()),
        decreases names.len() - i,
    {
        proof {
            assert(names.deep_view().take(i + 1).drop_last() =~= names.deep_view().take(i as int));
            assert(names.deep_view().take(i + 1).last() == names[i as int]@);
        }
        if contains_name(allowed, &names[i]) {
            let ghost before = found.deep_view();
            found.push(names[i].clone());
            assert(found.deep_view() =~= before.push(names[i as int]@));
        }
        i += 1;
    }
    assert(names.deep_view().take(i as int) =~= names.deep_view());
    found
}

} // verus!
