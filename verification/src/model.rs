//! The abstract registry: its state, its invariant, and the state transitions
//! of the two mutating operations, stated purely over mathematical values.

use vstd::prelude::*;

use crate::digest::commitment_of;
use crate::types::AnswerModel;
use crate::types::PuzzleError;
use crate::types::PuzzleModel;
use crate::types::StatusModel;

verus! {

/// The abstract state of the registry: the configured owner, the stored
/// puzzles keyed by commitment, and the index of still-unsolved commitments
/// in insertion order.
#[verifier::ext_equal]
pub ghost struct RegistryModel {
    pub owner: Seq<char>,
    pub puzzles: Map<Seq<char>, PuzzleModel>,
    pub unsolved: Seq<Seq<char>>,
}

/// The registry invariant: the unsolved index holds no duplicates, every
/// indexed commitment names a stored puzzle that is still unsolved, and every
/// stored puzzle that is still unsolved is indexed.
pub open spec fn inv(m: RegistryModel) -> bool {
    &&& (forall|i: int, j: int|
        0 <= i < j < m.unsolved.len() ==> m.unsolved[i] != m.unsolved[j])
    &&& (forall|i: int|
        0 <= i < m.unsolved.len() ==> m.puzzles.contains_key(#[trigger] m.unsolved[i])
            && m.puzzles[m.unsolved[i]].status is Unsolved)
    &&& (forall|c: Seq<char>|
        #[trigger] m.puzzles.contains_key(c) && m.puzzles[c].status is Unsolved
            ==> m.unsolved.contains(c))
}

/// The outcome of creating a puzzle: only the owner may create, and a
/// commitment may be registered only once.
pub open spec fn create_result(
    m: RegistryModel,
    caller: Seq<char>,
    solution: Seq<char>,
) -> Result<(), PuzzleError> {
    if caller != m.owner {
        Result::Err(PuzzleError::Unauthorized)
    } else if m.puzzles.contains_key(commitment_of(solution)) {
        Result::Err(PuzzleError::AlreadyExists)
    } else {
        Result::Ok(())
    }
}

/// The state after a create: on success the new puzzle is stored unsolved
/// under its solution's commitment and that commitment joins the unsolved
/// index; on failure nothing changes.
pub open spec fn create_state(
    m: RegistryModel,
    caller: Seq<char>,
    solution: Seq<char>,
    answers: Seq<AnswerModel>,
) -> RegistryModel {
    if create_result(m, caller, solution) is Ok {
        let c = commitment_of(solution);
        RegistryModel {
            owner: m.owner,
            puzzles: m.puzzles.insert(c, PuzzleModel { status: StatusModel::Unsolved, answers }),
            unsolved: m.unsolved.push(c),
        }
    } else {
        m
    }
}

/// The outcome of submitting a solution: accepted exactly when a puzzle is
/// stored under the candidate's commitment and is still unsolved.
pub open spec fn submit_result(m: RegistryModel, solution: Seq<char>) -> Result<
    (),
    PuzzleError,
> {
    let c = commitment_of(solution);
    if !m.puzzles.contains_key(c) {
        Result::Err(PuzzleError::NotFound)
    } else if !(m.puzzles[c].status is Unsolved) {
        Result::Err(PuzzleError::AlreadySolved)
    } else {
        Result::Ok(())
    }
}

/// The state after a submit: on success the puzzle's status becomes solved
/// with the revealer's memo, its answers are kept, and its commitment leaves
/// the unsolved index; on failure nothing changes.
pub open spec fn submit_state(
    m: RegistryModel,
    solution: Seq<char>,
    memo: Seq<char>,
) -> RegistryModel {
    if submit_result(m, solution) is Ok {
        let c = commitment_of(solution);
        RegistryModel {
            owner: m.owner,
            puzzles: m.puzzles.insert(
                c,
                PuzzleModel { status: StatusModel::Solved { memo }, answers: m.puzzles[c].answers },
            ),
            unsolved: m.unsolved.remove_value(c),
        }
    } else {
        m
    }
}

/// Creating a puzzle preserves the registry invariant.
pub proof fn lemma_create_preserves_inv(
    m: RegistryModel,
    caller: Seq<char>,
    solution: Seq<char>,
    answers: Seq<AnswerModel>,
)
    requires
        inv(m),
    ensures
        inv(create_state(m, caller, solution, answers)),
{
    if create_result(m, caller, solution) is Ok {
        let c = commitment_of(solution);
        let m2 = create_state(m, caller, solution, answers);
        assert forall|i: int| 0 <= i < m2.unsolved.len() implies m2.puzzles.contains_key(
            #[trigger] m2.unsolved[i],
        ) && m2.puzzles[m2.unsolved[i]].status is Unsolved by {
            if i < m.unsolved.len() {
                assert(m.puzzles.contains_key(m.unsolved[i]));
                assert(m.unsolved[i] != c);
            }
        }
        assert forall|i: int, j: int|
            0 <= i < j < m2.unsolved.len() implies m2.unsolved[i] != m2.unsolved[j] by {
            if j < m.unsolved.len() {
            } else {
                assert(m2.unsolved[j] == c);
                assert(m.puzzles.contains_key(m.unsolved[i]));
            }
        }
        assert forall|k: Seq<char>|
            #[trigger] m2.puzzles.contains_key(k) && m2.puzzles[k].status is Unsolved
                implies m2.unsolved.contains(k) by {
            if k == c {
                assert(m2.unsolved[m.unsolved.len() as int] == c);
            } else {
                assert(m.puzzles.contains_key(k));
                let i = choose|i: int| 0 <= i < m.unsolved.len() && m.unsolved[i] == k;
                assert(m2.unsolved[i] == k);
            }
        }
    }
}

/// Submitting a solution preserves the registry invariant.
pub proof fn lemma_submit_preserves_inv(m: RegistryModel, solution: Seq<char>, memo: Seq<char>)
    requires
        inv(m),
    ensures
        inv(submit_state(m, solution, memo)),
{
    if submit_result(m, solution) is Ok {
        let c = commitment_of(solution);
        let m2 = submit_state(m, solution, memo);
        m.unsolved.index_of_first_ensures(c);
        assert(m.unsolved.contains(c));
        let f = m.unsolved.index_of_first(c).unwrap();
        assert(m2.unsolved == m.unsolved.remove(f));
        m.unsolved.remove_ensures(f);
        assert forall|i: int, j: int|
            0 <= i < j < m2.unsolved.len() implies m2.unsolved[i] != m2.unsolved[j] by {
            let oi = if i < f { i } else { i + 1 };
            let oj = if j < f { j } else { j + 1 };
            assert(m2.unsolved[i] == m.unsolved[oi]);
            assert(m2.unsolved[j] == m.unsolved[oj]);
        }
        assert forall|i: int| 0 <= i < m2.unsolved.len() implies m2.puzzles.contains_key(
            #[trigger] m2.unsolved[i],
        ) && m2.puzzles[m2.unsolved[i]].status is Unsolved by {
            let oi = if i < f { i } else { i + 1 };
            assert(m2.unsolved[i] == m.unsolved[oi]);
            assert(m.puzzles.contains_key(m.unsolved[oi]));
            assert(m.unsolved[oi] != c);
        }
        assert forall|k: Seq<char>|
            #[trigger] m2.puzzles.contains_key(k) && m2.puzzles[k].status is Unsolved
                implies m2.unsolved.contains(k) by {
            assert(k != c);
            assert(m.puzzles.contains_key(k));
            let i = choose|i: int| 0 <= i < m.unsolved.len() && m.unsolved[i] == k;
            assert(i != f);
            let ni = if i < f { i } else { i - 1 };
            assert(m2.unsolved[ni] == m.unsolved[i]);
        }
    }
}

} // verus!
