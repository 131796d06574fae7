//! What the relay remembers between cycles, and the decisions that rest on it.

use vstd::prelude::*;
use crate::canonical::{ValidatorSet, ValidatorSetView};

verus! {

/// Where the relay stands in the life of its client.
#[derive(Clone, Copy, Debug, PartialEq, Eq, Structural)]
pub enum Phase {
    /// The client has yet to be created.
    CreatePending,
    /// The next header is passed over, so that the update after it spans two
    /// heights.
    SkipOnce,
    /// Every further header updates the client.
    Updating,
}

impl Phase {
    /// The phase of the first cycle.
    pub open spec fn initial() -> Phase {
        Phase::CreatePending
    }

    /// The phase that follows this one.
    pub open spec fn spec_next(self, non_adjacent_test: bool) -> Phase {
        match self {
            Phase::CreatePending => if non_adjacent_test {
                Phase::SkipOnce
            } else {
                Phase::Updating
            },
            Phase::SkipOnce => Phase::Updating,
            Phase::Updating => Phase::Updating,
        }
    }

    /// The phase that follows this one.
    #[verifier::when_used_as_spec(spec_next)]
    pub fn next(self, non_adjacent_test: bool) -> (out: Phase)
        ensures
            out == self.spec_next(non_adjacent_test),
    {
        match self {
            Phase::CreatePending => if non_adjacent_test {
                Phase::SkipOnce
            } else {
                Phase::Updating
            },
            Phase::SkipOnce => Phase::Updating,
            Phase::Updating => Phase::Updating,
        }
    }

    /// The phase of the cycle with the given number, counted from zero: the
    /// first creates, the second is passed over when the test of
    /// non-adjacent updates is on, every other one updates.
    pub open spec fn at(cycle: nat, non_adjacent_test: bool) -> Phase {
        if cycle == 0 {
            Phase::CreatePending
        } else if cycle == 1 && non_adjacent_test {
            Phase::SkipOnce
        } else {
            Phase::Updating
        }
    }

    /// Stepping from phase to phase visits the phases in the order of the cycles.
    pub proof fn theorem_phases_follow_cycles(cycle: nat, non_adjacent_test: bool)
        ensures
            Phase::at(0, non_adjacent_test) == Phase::initial(),
            Phase::at(cycle + 1, non_adjacent_test) == Phase::at(cycle, non_adjacent_test).spec_next(
                non_adjacent_test,
            ),
    {
    }
}

/// How an update relates to the height the client trusts.
#[derive(Clone, Copy, Debug, PartialEq, Eq, Structural)]
pub enum UpdateMode {
    /// The new height is the one right after the trusted height.
    Adjacent,
    /// Heights lie between the trusted height and the new one.
    NonAdjacent,
}

/// The mode of an update from a trusted height to a new one.
pub open spec fn update_mode(trusted_height: u64, new_height: u64) -> UpdateMode {
    if new_height == trusted_height + 1 {
        UpdateMode::Adjacent
    } else {
        UpdateMode::NonAdjacent
    }
}

/// The relay's memory: the client it feeds, the last height the destination
/// accepted, and the validator set relayed with it.
#[derive(Debug, PartialEq, Eq)]
pub struct TrustState {
    pub client_id: Option<String>,
    pub trusted_height: u64,
    pub trusted_validator_set: Option<ValidatorSet>,
}

/// The mathematical view of [`TrustState`]: bytes and text as sequences.
pub struct TrustStateView {
    pub client_id: Option<Seq<char>>,
    pub trusted_height: u64,
    pub trusted_validator_set: Option<ValidatorSetView>,
}

impl View for TrustState {
    type V = TrustStateView;

    open spec fn view(&self) -> TrustStateView {
        TrustStateView {
            client_id: match self.client_id {
                Some(id) => Some(id@),
                None => None,
            },
            trusted_height: self.trusted_height,
            trusted_validator_set: match self.trusted_validator_set {
                Some(set) => Some(set@),
                None => None,
            },
        }
    }
}

impl TrustStateView {
    /// The state after a client was created at `height`: that height is
    /// trusted and no validator set is kept.
    pub open spec fn created(self, height: u64) -> TrustStateView {
        TrustStateView { trusted_height: height, trusted_validator_set: None, ..self }
    }

    /// The state after the client accepted an update to `height`.
    pub open spec fn updated(self, height: u64, validators: ValidatorSetView) -> TrustStateView {
        TrustStateView {
            trusted_height: height,
            trusted_validator_set: Some(validators),
            ..self
        }
    }

    /// The state once the client's identifier is known.
    pub open spec fn identified(self, id: Seq<char>) -> TrustStateView {
        TrustStateView { client_id: Some(id), ..self }
    }
}

impl TrustState {
    /// The state at the start of a run: nothing is trusted; the client's
    /// identifier is known only if it was given.
    pub fn new(client_id: Option<String>) -> (out: TrustState)
        ensures
            out.client_id == client_id,
            out@.trusted_height == 0,
            out@.trusted_validator_set is None,
    {
        TrustState { client_id, trusted_height: 0, trusted_validator_set: None }
    }

    /// Whether an update to `new_height` follows the trusted height directly.
    pub fn mode(&self, new_height: u64) -> (out: UpdateMode)
        ensures
            out == update_mode(self.trusted_height, new_height),
    {
        if self.trusted_height < u64::MAX && new_height == self.trusted_height + 1 {
            UpdateMode::Adjacent
        } else {
            UpdateMode::NonAdjacent
        }
    }

    /// Records that a client was created at `height`.
    pub fn record_created(self, height: u64) -> (out: TrustState)
        ensures
            out@ == self@.created(height),
    {
        TrustState {
            client_id: self.client_id,
            trusted_height: height,
            trusted_validator_set: None,
        }
    }

    /// Records that the client accepted an update to `height`, signed by
    /// `validators`.
    pub fn record_updated(self, height: u64, validators: ValidatorSet) -> (out: TrustState)
        ensures
            out@ == self@.updated(height, validators@),
    {
        TrustState {
            client_id: self.client_id,
            trusted_height: height,
            trusted_validator_set: Some(validators),
        }
    }

    /// Records the client's identifier.
    pub fn identify(self, id: String) -> (out: TrustState)
        ensures
            out@ == self@.identified(id@),
    {
        TrustState {
            client_id: Some(id),
            trusted_height: self.trusted_height,
            trusted_validator_set: self.trusted_validator_set,
        }
    }
}

} // verus!
