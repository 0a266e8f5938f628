//! A commit-reveal puzzle registry.
//!
//! An owner publishes puzzles identified only by the lowercase-hex SHA-256
//! digest of their solution. Anyone may later reveal a candidate solution;
//! if its digest matches a stored commitment whose puzzle is still unsolved,
//! the registry marks it solved and reports the fixed reward owed to the
//! revealer.

mod digest;
mod laws;
mod model;
mod registry;
mod store;
mod types;

pub use laws::lemma_create_twice;
pub use laws::lemma_created_only_under_digest;
pub use laws::lemma_digest_governs_acceptance;
pub use laws::lemma_double_solve;
pub use laws::lemma_unauthorized_creates_nothing;
pub use laws::lemma_unsolved_index_exact;
pub use model::create_result;
pub use model::create_state;
pub use model::inv;
pub use model::lemma_create_preserves_inv;
pub use model::lemma_submit_preserves_inv;
pub use model::submit_result;
pub use model::submit_state;
pub use model::RegistryModel;
pub use registry::Welcome;
pub use registry::PRIZE_AMOUNT;
pub use registry::PUZZLE_NUMBER;

pub use digest::commitment_of;
pub use digest::hex_digit;
pub use digest::hex_of;
pub use digest::sha256_of;
pub use digest::solution_digest;
pub use types::Answer;
pub use types::AnswerDirection;
pub use types::AnswerModel;
pub use types::CoordinatePair;
pub use types::JsonPuzzle;
pub use types::JsonPuzzleModel;
pub use types::Payout;
pub use types::Puzzle;
pub use types::PuzzleError;
pub use types::PuzzleModel;
pub use types::PuzzleStatus;
pub use types::StatusModel;
pub use types::UnsolvedPuzzles;
