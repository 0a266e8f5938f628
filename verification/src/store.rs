//! The puzzle store: an association list from commitment strings to puzzle
//! records, abstracted as a `Map` from key views to puzzle models.

use vstd::prelude::*;

use crate::types::Puzzle;
use crate::types::PuzzleModel;

verus! {

/// The map a key/puzzle association list stands for. A later entry with the
/// same key view would shadow an earlier one; the store keeps keys unique, so
/// that never happens.
pub open spec fn assoc_map(s: Seq<(String, Puzzle)>) -> Map<Seq<char>, PuzzleModel>
    decreases s.len(),
{
    if s.len() == 0 {
        Map::empty()
    } else {
        assoc_map(s.drop_last()).insert(s.last().0@, s.last().1@)
    }
}

/// No two entries share a key view.
pub open spec fn keys_unique(s: Seq<(String, Puzzle)>) -> bool {
    forall|i: int, j: int| 0 <= i < j < s.len() ==> s[i].0@ != s[j].0@
}

/// A key is in the abstract map exactly when some entry holds it.
pub proof fn lemma_assoc_map_contains(s: Seq<(String, Puzzle)>, k: Seq<char>)
    ensures
        assoc_map(s).contains_key(k) <==> exists|i: int| 0 <= i < s.len() && s[i].0@ == k,
    decreases s.len(),
{
    if s.len() > 0 {
        lemma_assoc_map_contains(s.drop_last(), k);
        if s.last().0@ == k {
            assert(s[s.len() - 1].0@ == k);
        } else if assoc_map(s).contains_key(k) {
            let i = choose|i: int| 0 <= i < s.drop_last().len() && s.drop_last()[i].0@ == k;
            assert(s[i].0@ == k);
        } else if exists|i: int| 0 <= i < s.len() && s[i].0@ == k {
            let i = choose|i: int| 0 <= i < s.len() && s[i].0@ == k;
            assert(s.drop_last()[i].0@ == k);
        }
    }
}

/// With unique keys, the abstract map sends each entry's key to that entry's
/// puzzle.
pub proof fn lemma_assoc_map_at(s: Seq<(String, Puzzle)>, i: int)
    requires
        keys_unique(s),
        0 <= i < s.len(),
    ensures
        assoc_map(s).contains_key(s[i].0@),
        assoc_map(s)[s[i].0@] == s[i].1@,
    decreases s.len(),
{
    if i == s.len() - 1 {
    } else {
        assert(keys_unique(s.drop_last()));
        lemma_assoc_map_at(s.drop_last(), i);
        assert(s.drop_last()[i] == s[i]);
        assert(s[i].0@ != s.last().0@);
    }
}

/// Appending a fresh entry inserts its key into the abstract map.
pub proof fn lemma_assoc_map_push(s: Seq<(String, Puzzle)>, x: (String, Puzzle))
    ensures
        assoc_map(s.push(x)) == assoc_map(s).insert(x.0@, x.1@),
{
    assert(s.push(x).drop_last() =~= s);
    assert(s.push(x).last() == x);
}

/// Replacing one entry's puzzle, keeping its key view, overwrites that key in
/// the abstract map.
pub proof fn lemma_assoc_map_update(s: Seq<(String, Puzzle)>, i: int, x: (String, Puzzle))
    requires
        keys_unique(s),
        0 <= i < s.len(),
        x.0@ == s[i].0@,
    ensures
        assoc_map(s.update(i, x)) == assoc_map(s).insert(x.0@, x.1@),
    decreases s.len(),
{
    let t = s.update(i, x);
    if i == s.len() - 1 {
        assert(t.drop_last() =~= s.drop_last());
        assert(t.last() == x);
        assert(assoc_map(t) == assoc_map(s.drop_last()).insert(x.0@, x.1@));
        assert(assoc_map(s.drop_last()).insert(s[i].0@, s[i].1@).insert(x.0@, x.1@)
            =~= assoc_map(s.drop_last()).insert(x.0@, x.1@));
    } else {
        assert(keys_unique(s.drop_last()));
        assert(t.drop_last() =~= s.drop_last().update(i, x));
        assert(t.last() == s.last());
        lemma_assoc_map_update(s.drop_last(), i, x);
        assert(assoc_map(t) == assoc_map(s.drop_last()).insert(x.0@, x.1@).insert(
            s.last().0@,
            s.last().1@,
        ));
        assert(s[i].0@ != s.last().0@);
        assert(assoc_map(s.drop_last()).insert(x.0@, x.1@).insert(s.last().0@, s.last().1@)
            =~= assoc_map(s.drop_last()).insert(s.last().0@, s.last().1@).insert(x.0@, x.1@));
    }
}

/// Finds the entry stored under `key`, if any.
pub fn find_puzzle_index(v: &Vec<(String, Puzzle)>, key: &String) -> (r: Option<usize>)
    ensures
        match r {
            Some(i) => i < v@.len() && v@[i as int].0@ == key@,
            None => forall|i: int| 0 <= i < v@.len() ==> v@[i].0@ != key@,
        },
{
    let mut i: usize = 0;
    while i < v.len()
        invariant
            i <= v@.len(),
            forall|j: int| 0 <= j < i ==> v@[j].0@ != key@,
        decreases v@.len() - i,
    {
        if v[i].0 == *key {
            return Some(i);
        }
        i += 1;
    }
    None
}

/// Finds the first occurrence of `key` in a list of commitment strings.
pub fn find_string_index(v: &Vec<String>, key: &String) -> (r: Option<usize>)
    ensures
        match r {
            Some(i) => i < v@.len() && v@[i as int]@ == key@ && (forall|j: int|
                0 <= j < i ==> v@[j]@ != key@),
            None => forall|i: int| 0 <= i < v@.len() ==> v@[i]@ != key@,
        },
{
    let mut i: usize = 0;
    while i < v.len()
        invariant
            i <= v@.len(),
            forall|j: int| 0 <= j < i ==> v@[j]@ != key@,
        decreases v@.len() - i,
    {
        if v[i] == *key {
            return Some(i);
        }
        i += 1;
    }
    None
}

} // verus!
