use vstd::prelude::*;
use crate::uint256::Uint256;

verus! {

/// One round of the oracle, as `getRoundData` and `latestRoundData` return it.
#[derive(Clone, Copy, Debug, PartialEq, Eq, Structural)]
pub struct RoundRecord {
    pub round_id: Uint256,
    pub answer: Uint256,
    pub started_at: Uint256,
    pub updated_at: Uint256,
    pub answered_in_round: Uint256,
}

/// Why a remote read gave no round.
#[derive(Clone, Copy, Debug, PartialEq, Eq, Structural)]
pub enum FetchFailure {
    /// The contract call reverted: most often the round does not exist.
    Reverted,
    /// The transport failed before the contract answered.
    Transport,
}

/// What one remote read of a round gave.
#[derive(Clone, Copy, Debug, PartialEq, Eq, Structural)]
pub enum FetchOutcome {
    Success(RoundRecord),
    Failure(FetchFailure),
}

impl RoundRecord {
    pub fn new(
        round_id: Uint256,
        answer: Uint256,
        started_at: Uint256,
        updated_at: Uint256,
        answered_in_round: Uint256,
    ) -> (r: RoundRecord)
        ensures
            r == (RoundRecord { round_id, answer, started_at, updated_at, answered_in_round }),
    {
        RoundRecord { round_id, answer, started_at, updated_at, answered_in_round }
    }

    /// The five values in column order.
    pub open spec fn values(self) -> Seq<nat> {
        seq![
            self.round_id.value(),
            self.answer.value(),
            self.started_at.value(),
            self.updated_at.value(),
            self.answered_in_round.value(),
        ]
    }
}

} // verus!
