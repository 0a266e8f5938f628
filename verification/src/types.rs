//! The puzzle data model: answer metadata, puzzle status, and the records the
//! registry stores and serves, together with their mathematical views.

use vstd::prelude::*;

verus! {

/// Whether an answer runs across or down the grid.
#[derive(Clone, Copy, PartialEq, Eq, Structural, Debug)]
pub enum AnswerDirection {
    Across,
    Down,
}

/// A position in the grid. The origin (0, 0) is the top left corner.
#[derive(Clone, Copy, PartialEq, Eq, Structural, Debug)]
pub struct CoordinatePair {
    pub x: u8,
    pub y: u8,
}

/// One clue/answer slot of a puzzle. Purely descriptive metadata; the
/// registry never checks it against the hidden solution.
#[derive(PartialEq, Debug)]
pub struct Answer {
    pub num: u8,
    pub start: CoordinatePair,
    pub direction: AnswerDirection,
    pub length: u8,
    pub clue: String,
}

/// The mathematical view of an [`Answer`].
#[verifier::ext_equal]
pub ghost struct AnswerModel {
    pub num: u8,
    pub start: CoordinatePair,
    pub direction: AnswerDirection,
    pub length: u8,
    pub clue: Seq<char>,
}

impl View for Answer {
    type V = AnswerModel;

    open spec fn view(&self) -> AnswerModel {
        AnswerModel {
            num: self.num,
            start: self.start,
            direction: self.direction,
            length: self.length,
            clue: self.clue@,
        }
    }
}

impl Clone for Answer {
    fn clone(&self) -> (res: Self)
        ensures
            res == *self,
    {
        Answer {
            num: self.num,
            start: self.start,
            direction: self.direction,
            length: self.length,
            clue: self.clue.clone(),
        }
    }
}

/// The lifecycle state of a puzzle: unsolved, or solved with the revealer's
/// memo attached permanently.
#[derive(PartialEq, Debug)]
pub enum PuzzleStatus {
    Unsolved,
    Solved { memo: String },
}

/// The mathematical view of a [`PuzzleStatus`].
#[verifier::ext_equal]
pub ghost enum StatusModel {
    Unsolved,
    Solved { memo: Seq<char> },
}

impl View for PuzzleStatus {
    type V = StatusModel;

    open spec fn view(&self) -> StatusModel {
        match self {
            PuzzleStatus::Unsolved => StatusModel::Unsolved,
            PuzzleStatus::Solved { memo } => StatusModel::Solved { memo: memo@ },
        }
    }
}

impl Clone for PuzzleStatus {
    fn clone(&self) -> (res: Self)
        ensures
            res == *self,
    {
        match self {
            PuzzleStatus::Unsolved => PuzzleStatus::Unsolved,
            PuzzleStatus::Solved { memo } => PuzzleStatus::Solved { memo: memo.clone() },
        }
    }
}

/// A stored puzzle: its status and its immutable answer metadata.
#[derive(Debug)]
pub struct Puzzle {
    pub status: PuzzleStatus,
    pub answer: Vec<Answer>,
}

/// The mathematical view of a [`Puzzle`].
#[verifier::ext_equal]
pub ghost struct PuzzleModel {
    pub status: StatusModel,
    pub answers: Seq<AnswerModel>,
}

impl View for Puzzle {
    type V = PuzzleModel;

    open spec fn view(&self) -> PuzzleModel {
        PuzzleModel {
            status: self.status@,
            answers: self.answer@.map_values(|a: Answer| a@),
        }
    }
}

/// A puzzle as served to callers, carrying the commitment key it is stored
/// under alongside the record itself.
#[derive(Debug)]
pub struct JsonPuzzle {
    /// The human-readable (not in bytes) hash of the solution.
    pub solution_hash: String,
    pub status: PuzzleStatus,
    pub answer: Vec<Answer>,
}

/// The mathematical view of a [`JsonPuzzle`].
#[verifier::ext_equal]
pub ghost struct JsonPuzzleModel {
    pub solution_hash: Seq<char>,
    pub status: StatusModel,
    pub answers: Seq<AnswerModel>,
}

impl View for JsonPuzzle {
    type V = JsonPuzzleModel;

    open spec fn view(&self) -> JsonPuzzleModel {
        JsonPuzzleModel {
            solution_hash: self.solution_hash@,
            status: self.status@,
            answers: self.answer@.map_values(|a: Answer| a@),
        }
    }
}

/// The listing of all puzzles that are still unsolved.
#[derive(Debug)]
pub struct UnsolvedPuzzles {
    pub puzzles: Vec<JsonPuzzle>,
}

impl View for UnsolvedPuzzles {
    type V = Seq<JsonPuzzleModel>;

    open spec fn view(&self) -> Seq<JsonPuzzleModel> {
        self.puzzles@.map_values(|p: JsonPuzzle| p@)
    }
}

/// Why a registry operation was rejected. A rejected operation changes no
/// state.
#[derive(Clone, Copy, PartialEq, Eq, Structural, Debug)]
pub enum PuzzleError {
    /// The caller of a create is not the configured owner.
    Unauthorized,
    /// A puzzle with the same commitment is already registered.
    AlreadyExists,
    /// No puzzle is stored under the submitted solution's commitment.
    NotFound,
    /// The puzzle under this commitment was already solved.
    AlreadySolved,
}

/// The reward owed after a successful solve: the fixed prize amount, to the
/// submitting caller. Dispatching the transfer is the host's duty.
#[derive(Debug)]
pub struct Payout {
    pub receiver: String,
    pub amount: u128,
}

/// Copies a list of answers element by element.
pub fn clone_answers(v: &Vec<Answer>) -> (r: Vec<Answer>)
    ensures
        r@ == v@,
{
    let mut r: Vec<Answer> = Vec::new();
    let mut i: usize = 0;
    while i < v.len()
        invariant
            i <= v@.len(),
            r@.len() == i,
            forall|k: int| 0 <= k < i ==> r@[k] == v@[k],
        decreases v@.len() - i,
    {
        r.push(v[i].clone());
        i += 1;
    }
    proof {
        assert(r@ =~= v@);
    }
    r
}

} // verus!
