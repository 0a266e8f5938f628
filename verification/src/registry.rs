//! The registry: create puzzles, submit solutions, query status and list the
//! unsolved puzzles, with the invariant of the coupled store and index.

use vstd::prelude::*;

use crate::digest::commitment_of;
use crate::digest::solution_digest;
use crate::model::create_result;
use crate::model::create_state;
use crate::model::inv;
use crate::model::lemma_create_preserves_inv;
use crate::model::lemma_submit_preserves_inv;
use crate::model::submit_result;
use crate::model::submit_state;
use crate::model::RegistryModel;
use crate::store::assoc_map;
use crate::store::find_puzzle_index;
use crate::store::find_string_index;
use crate::store::keys_unique;
use crate::store::lemma_assoc_map_at;
use crate::store::lemma_assoc_map_contains;
use crate::store::lemma_assoc_map_push;
use crate::store::lemma_assoc_map_update;
use crate::types::clone_answers;
use crate::types::Answer;
use crate::types::JsonPuzzle;
use crate::types::JsonPuzzleModel;
use crate::types::Payout;
use crate::types::Puzzle;
use crate::types::PuzzleError;
use crate::types::PuzzleModel;
use crate::types::PuzzleStatus;
use crate::types::StatusModel;
use crate::types::UnsolvedPuzzles;
use vstd::pervasive::unreached;

verus! {

/// The static deployment identifier served by `get_puzzle_number`.
pub const PUZZLE_NUMBER: u8 = 1;

/// The fixed reward, in the payout gateway's smallest unit, owed to the
/// revealer of a solution.
pub const PRIZE_AMOUNT: u128 = 5_000_000_000_000_000_000_000_000;

/// The puzzle registry: the configured owner, the stored puzzles keyed by the
/// commitment of their solution, and the index of unsolved commitments.
pub struct Welcome {
    owner_id: String,
    puzzles: Vec<(String, Puzzle)>,
    unsolved_puzzles: Vec<String>,
}

impl View for Welcome {
    type V = RegistryModel;

    closed spec fn view(&self) -> RegistryModel {
        RegistryModel {
            owner: self.owner_id@,
            puzzles: assoc_map(self.puzzles@),
            unsolved: self.unsolved_puzzles@.map_values(|s: String| s@),
        }
    }
}

impl Welcome {
    /// The representation is sound (no two entries share a key) and the
    /// abstract state satisfies the registry invariant.
    pub closed spec fn wf(&self) -> bool {
        keys_unique(self.puzzles@) && inv(self@)
    }

    /// A well-formed registry's abstract state satisfies the invariant.
    pub proof fn lemma_wf_implies_inv(&self)
        requires
            self.wf(),
        ensures
            inv(self@),
    {
    }

    /// Sets up an empty registry owned by `owner_id`.
    pub fn new(owner_id: String) -> (r: Self)
        ensures
            r.wf(),
            r@ == (RegistryModel {
                owner: owner_id@,
                puzzles: Map::<Seq<char>, PuzzleModel>::empty(),
                unsolved: Seq::<Seq<char>>::empty(),
            }),
    {
        let r = Welcome { owner_id, puzzles: Vec::new(), unsolved_puzzles: Vec::new() };
        proof {
            assert(r@.unsolved =~= Seq::<Seq<char>>::empty());
            assert(r@ =~= (RegistryModel {
                owner: r.owner_id@,
                puzzles: Map::<Seq<char>, PuzzleModel>::empty(),
                unsolved: Seq::<Seq<char>>::empty(),
            }));
        }
        r
    }

    /// Registers a new puzzle under the commitment of `solution`. Only the
    /// owner may create; a commitment may be registered only once; a rejected
    /// create changes nothing.
    pub fn new_puzzle(&mut self, caller: &String, solution: String, answers: Vec<Answer>) -> (r:
        Result<(), PuzzleError>)
        requires
            old(self).wf(),
        ensures
            final(self).wf(),
            r == create_result(old(self)@, caller@, solution@),
            final(self)@ == create_state(
                old(self)@,
                caller@,
                solution@,
                answers@.map_values(|a: Answer| a@),
            ),
    {
        if *caller != self.owner_id {
            return Err(PuzzleError::Unauthorized);
        }
        let key = solution_digest(solution.as_str());
        proof {
            lemma_assoc_map_contains(self.puzzles@, key@);
        }
        match find_puzzle_index(&self.puzzles, &key) {
            Some(_) => Err(PuzzleError::AlreadyExists),
            None => {
                let ghost m = self@;
                let ghost old_entries = self.puzzles@;
                let ghost answer_models = answers@.map_values(|a: Answer| a@);
                let entry = (key.clone(), Puzzle { status: PuzzleStatus::Unsolved, answer: answers });
                let ghost e = entry;
                self.puzzles.push(entry);
                self.unsolved_puzzles.push(key);
                proof {
                    let c = commitment_of(solution@);
                    lemma_assoc_map_push(old_entries, e);
                    assert(e.0@ == c);
                    assert(e.1@ == (PuzzleModel {
                        status: StatusModel::Unsolved,
                        answers: answer_models,
                    }));
                    assert(self@.unsolved =~= m.unsolved.push(c));
                    assert forall|i: int, j: int|
                        0 <= i < j < self.puzzles@.len() implies self.puzzles@[i].0@
                        != self.puzzles@[j].0@ by {
                        if j == self.puzzles@.len() - 1 {
                            assert(self.puzzles@[i] == old_entries[i]);
                        } else {
                            assert(self.puzzles@[i] == old_entries[i]);
                            assert(self.puzzles@[j] == old_entries[j]);
                        }
                    }
                    assert(self@ =~= create_state(m, caller@, solution@, answer_models));
                    lemma_create_preserves_inv(m, caller@, solution@, answer_models);
                }
                Ok(())
            },
        }
    }

    /// Reveals a candidate solution. If a still-unsolved puzzle is stored
    /// under the candidate's commitment, it is marked solved with `memo`,
    /// leaves the unsolved index, and the fixed reward is owed to `caller`;
    /// otherwise the submission is rejected and nothing changes.
    pub fn submit_solution(&mut self, caller: &String, solution: String, memo: String) -> (r:
        Result<Payout, PuzzleError>)
        requires
            old(self).wf(),
        ensures
            final(self).wf(),
            final(self)@ == submit_state(old(self)@, solution@, memo@),
            match r {
                Ok(p) => submit_result(old(self)@, solution@) is Ok && p.receiver@ == caller@
                    && p.amount == PRIZE_AMOUNT,
                Err(e) => submit_result(old(self)@, solution@) == Err::<(), PuzzleError>(e),
            },
    {
        let ghost m = self@;
        let key = solution_digest(solution.as_str());
        proof {
            lemma_assoc_map_contains(self.puzzles@, key@);
        }
        let idx = match find_puzzle_index(&self.puzzles, &key) {
            None => {
                return Err(PuzzleError::NotFound);
            },
            Some(i) => i,
        };
        proof {
            lemma_assoc_map_at(self.puzzles@, idx as int);
        }
        let solved_already = match &self.puzzles[idx].1.status {
            PuzzleStatus::Solved { .. } => true,
            PuzzleStatus::Unsolved => false,
        };
        if solved_already {
            return Err(PuzzleError::AlreadySolved);
        }
        let j = match find_string_index(&self.unsolved_puzzles, &key) {
            Some(j) => j,
            None => {
                proof {
                    assert(m.puzzles.contains_key(key@) && m.puzzles[key@].status is Unsolved);
                    let w = choose|w: int| 0 <= w < m.unsolved.len() && m.unsolved[w] == key@;
                    assert(self.unsolved_puzzles@[w]@ == key@);
                    assert(false);
                }
                unreached()
            },
        };
        let ghost old_entries = self.puzzles@;
        let ghost old_unsolved = self.unsolved_puzzles@;
        let (stored_key, mut puzzle) = self.puzzles.remove(idx);
        puzzle.status = PuzzleStatus::Solved { memo };
        let entry = (stored_key, puzzle);
        let ghost e = entry;
        self.puzzles.insert(idx, entry);
        self.unsolved_puzzles.remove(j);
        proof {
            let c = commitment_of(solution@);
            assert(self.puzzles@ =~= old_entries.update(idx as int, e));
            lemma_assoc_map_update(old_entries, idx as int, e);
            assert(e.1@ == (PuzzleModel {
                status: StatusModel::Solved { memo: memo@ },
                answers: m.puzzles[c].answers,
            }));
            // The removed index is the first (and only) occurrence of the key.
            m.unsolved.index_of_first_ensures(c);
            assert(m.unsolved[j as int] == c);
            assert(m.unsolved.contains(c));
            let f = m.unsolved.index_of_first(c).unwrap();
            assert(f == j) by {
                if f < j {
                    assert(m.unsolved[f] == c);
                } else if (j as int) < f {
                    assert(m.unsolved[j as int] == c);
                }
            }
            old_unsolved.remove_ensures(j as int);
            m.unsolved.remove_ensures(j as int);
            assert(self@.unsolved =~= m.unsolved.remove(j as int));
            assert(self@ =~= submit_state(m, solution@, memo@));
            assert forall|a: int, b: int|
                0 <= a < b < self.puzzles@.len() implies self.puzzles@[a].0@
                != self.puzzles@[b].0@ by {
                assert(self.puzzles@[a].0@ == old_entries[a].0@);
                assert(self.puzzles@[b].0@ == old_entries[b].0@);
            }
            lemma_submit_preserves_inv(m, solution@, memo@);
        }
        Ok(Payout { receiver: caller.clone(), amount: PRIZE_AMOUNT })
    }

    /// The status stored under a commitment, or `None` where no puzzle is
    /// registered under it. Read-only.
    pub fn get_puzzle_status(&self, solution_hash: String) -> (r: Option<PuzzleStatus>)
        requires
            self.wf(),
        ensures
            match r {
                Some(st) => self@.puzzles.contains_key(solution_hash@) && st@
                    == self@.puzzles[solution_hash@].status,
                None => !self@.puzzles.contains_key(solution_hash@),
            },
    {
        proof {
            lemma_assoc_map_contains(self.puzzles@, solution_hash@);
        }
        match find_puzzle_index(&self.puzzles, &solution_hash) {
            None => None,
            Some(i) => {
                proof {
                    lemma_assoc_map_at(self.puzzles@, i as int);
                }
                Some(self.puzzles[i].1.status.clone())
            },
        }
    }

    /// Every puzzle in the unsolved index, in index order: its commitment,
    /// its (necessarily unsolved) status, and its answer metadata. Read-only.
    pub fn get_unsolved_puzzles(&self) -> (r: UnsolvedPuzzles)
        requires
            self.wf(),
        ensures
            r@.len() == self@.unsolved.len(),
            forall|i: int|
                0 <= i < r@.len() ==> r@[i] == (JsonPuzzleModel {
                    solution_hash: self@.unsolved[i],
                    status: StatusModel::Unsolved,
                    answers: self@.puzzles[self@.unsolved[i]].answers,
                }),
    {
        let mut out: Vec<JsonPuzzle> = Vec::new();
        let mut i: usize = 0;
        while i < self.unsolved_puzzles.len()
            invariant
                self.wf(),
                i <= self.unsolved_puzzles@.len(),
                out@.len() == i,
                forall|k: int|
                    0 <= k < i ==> out@[k]@ == (JsonPuzzleModel {
                        solution_hash: self@.unsolved[k],
                        status: StatusModel::Unsolved,
                        answers: self@.puzzles[self@.unsolved[k]].answers,
                    }),
            decreases self.unsolved_puzzles@.len() - i,
        {
            let hash = &self.unsolved_puzzles[i];
            proof {
                assert(self@.unsolved[i as int] == hash@);
                assert(self@.puzzles.contains_key(hash@));
                lemma_assoc_map_contains(self.puzzles@, hash@);
            }
            match find_puzzle_index(&self.puzzles, hash) {
                Some(j) => {
                    proof {
                        lemma_assoc_map_at(self.puzzles@, j as int);
                    }
                    let record = JsonPuzzle {
                        solution_hash: hash.clone(),
                        status: self.puzzles[j].1.status.clone(),
                        answer: clone_answers(&self.puzzles[j].1.answer),
                    };
                    proof {
                        assert(record@ =~= (JsonPuzzleModel {
                            solution_hash: self@.unsolved[i as int],
                            status: StatusModel::Unsolved,
                            answers: self@.puzzles[self@.unsolved[i as int]].answers,
                        }));
                    }
                    out.push(record);
                },
                None => {
                    proof {
                        assert(false);
                    }
                    unreached()
                },
            }
            i += 1;
        }
        UnsolvedPuzzles { puzzles: out }
    }

    /// The static deployment identifier.
    pub fn get_puzzle_number(&self) -> (r: u8)
        ensures
            r == PUZZLE_NUMBER,
    {
        PUZZLE_NUMBER
    }
}

} // verus!
