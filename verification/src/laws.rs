//! The laws of the registry, proved over the abstract state and the
//! transitions of `crate::model`.

use vstd::prelude::*;

use crate::digest::commitment_of;
use crate::model::create_result;
use crate::model::create_state;
use crate::model::inv;
use crate::model::submit_result;
use crate::model::submit_state;
use crate::model::RegistryModel;
use crate::types::AnswerModel;
use crate::types::PuzzleError;
use crate::types::PuzzleModel;
use crate::types::StatusModel;

verus! {

/// Digest equality, not text equality, governs acceptance: two candidate
/// solutions with equal commitments get the same outcome and leave the
/// registry in the same state.
pub proof fn lemma_digest_governs_acceptance(
    m: RegistryModel,
    s1: Seq<char>,
    s2: Seq<char>,
    memo: Seq<char>,
)
    requires
        commitment_of(s1) == commitment_of(s2),
    ensures
        submit_result(m, s1) == submit_result(m, s2),
        submit_state(m, s1, memo) == submit_state(m, s2, memo),
{
}

/// A puzzle created with solution `s` is stored under `commitment_of(s)` and
/// under no other key: any key the registry did not already hold resolves
/// after the create exactly when it is that commitment.
pub proof fn lemma_created_only_under_digest(
    m: RegistryModel,
    caller: Seq<char>,
    s: Seq<char>,
    answers: Seq<AnswerModel>,
    k: Seq<char>,
)
    requires
        create_result(m, caller, s) is Ok,
    ensures
        create_state(m, caller, s, answers).puzzles.contains_key(k) <==> (m.puzzles.contains_key(
            k,
        ) || k == commitment_of(s)),
        create_state(m, caller, s, answers).puzzles[commitment_of(s)] == (PuzzleModel {
            status: StatusModel::Unsolved,
            answers,
        }),
{
}

/// Creating twice with the same solution: the second create fails with
/// `AlreadyExists`, changes nothing, and the first puzzle's stored answers
/// and status stay as they were.
pub proof fn lemma_create_twice(
    m: RegistryModel,
    caller: Seq<char>,
    s: Seq<char>,
    answers1: Seq<AnswerModel>,
    answers2: Seq<AnswerModel>,
)
    requires
        create_result(m, caller, s) is Ok,
    ensures
        ({
            let m1 = create_state(m, caller, s, answers1);
            &&& create_result(m1, caller, s) == Err::<(), PuzzleError>(PuzzleError::AlreadyExists)
            &&& create_state(m1, caller, s, answers2) == m1
            &&& m1.puzzles[commitment_of(s)] == (PuzzleModel {
                status: StatusModel::Unsolved,
                answers: answers1,
            })
        }),
{
}

/// After a successful submit, a second submit of the same solution — or of
/// any solution with the same commitment — fails with `AlreadySolved` and
/// changes nothing, so no second payout is ever owed.
pub proof fn lemma_double_solve(
    m: RegistryModel,
    s1: Seq<char>,
    s2: Seq<char>,
    memo1: Seq<char>,
    memo2: Seq<char>,
)
    requires
        submit_result(m, s1) is Ok,
        commitment_of(s2) == commitment_of(s1),
    ensures
        ({
            let m1 = submit_state(m, s1, memo1);
            &&& submit_result(m1, s2) == Err::<(), PuzzleError>(PuzzleError::AlreadySolved)
            &&& submit_state(m1, s2, memo2) == m1
        }),
{
}

/// A create by any identity other than the configured owner fails with
/// `Unauthorized` and creates nothing.
pub proof fn lemma_unauthorized_creates_nothing(
    m: RegistryModel,
    caller: Seq<char>,
    s: Seq<char>,
    answers: Seq<AnswerModel>,
)
    requires
        caller != m.owner,
    ensures
        create_result(m, caller, s) == Err::<(), PuzzleError>(PuzzleError::Unauthorized),
        create_state(m, caller, s, answers) == m,
{
}

/// Under the registry invariant the unsolved index is exact: it holds
/// precisely the commitments whose stored puzzle is still unsolved. Together
/// with the preservation lemmas of `crate::model`, this holds after any
/// sequence of create and submit operations on a fresh registry.
pub proof fn lemma_unsolved_index_exact(m: RegistryModel)
    requires
        inv(m),
    ensures
        m.unsolved.to_set() == Set::new(
            |c: Seq<char>| m.puzzles.contains_key(c) && m.puzzles[c].status is Unsolved,
        ),
{
    let exact = Set::new(
        |c: Seq<char>| m.puzzles.contains_key(c) && m.puzzles[c].status is Unsolved,
    );
    assert forall|c: Seq<char>| m.unsolved.to_set().contains(c) implies exact.contains(c) by {
        let i = choose|i: int| 0 <= i < m.unsolved.len() && m.unsolved[i] == c;
        assert(m.puzzles.contains_key(m.unsolved[i]));
    }
    assert(m.unsolved.to_set() =~= exact);
}

} // verus!
