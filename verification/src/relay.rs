//! The relay driver: a state machine from events to actions.
//!
//! The driver performs nothing itself. Each step takes the outcome of the
//! last action and answers with the next one; whoever runs it performs the
//! action and reports back. One cycle runs from the polling for a block to
//! the receipt of the submission it led to, and no cycle starts before the
//! last one is over.

use vstd::prelude::*;
use crate::bytes::copy_text;
use crate::canonical::{
    power_sum, ClientState, ClientStateView, ConsensusState, ConsensusStateView, Duration,
    Fraction, LightHeaderView, MerkleRoot, MerkleRootView, TmHeader, TmHeaderView,
    ValidatorSet, ValidatorSetView,
};
use crate::header_source::{HeaderSource, Poll};
use crate::proto::{
    any_bytes, client_state_fields, consensus_state_fields, prost_serialize_any, tm_header_fields,
    Message,
};
use crate::source::{SourceSignedHeader, SourceValidator};
use crate::trust::{update_mode, Phase, TrustState, TrustStateView, UpdateMode};
use crate::types::{
    canonical_signed_header, canonical_validators, signed_header_defect, to_duration,
    to_light_block, to_signed_header, to_validator_set, ConversionError,
};
use crate::wire::fields_bytes;

verus! {

/// How the destination answered a submission.
#[derive(Clone, Copy, Debug, PartialEq, Eq, Structural)]
pub enum ReceiptStatus {
    /// The transaction was executed.
    Success,
    /// The transaction was included but its execution failed.
    Reverted,
    /// The receipt does not say how the transaction went.
    Unknown,
}

/// Why a run ended before its last cycle.
#[derive(Clone, Copy, Debug, PartialEq, Eq, Structural)]
pub enum HaltReason {
    /// The source did not tell its current height.
    HeadUnavailable,
    /// The block at the target height could not be had within the attempts
    /// allowed.
    RetriesExhausted,
    /// The signed header or the validator set of the target height could not
    /// be fetched.
    HeaderUnavailable,
    /// The source answered with a header or a commit of another height than
    /// the one asked for.
    HeightMismatch,
    /// The source's data has no canonical form.
    Conversion(ConversionError),
    /// A message is too long to be put in an envelope.
    EnvelopeTooLarge,
    /// The destination's client identifiers could not be read.
    ClientIdsUnavailable,
    /// The destination has registered no client.
    NoClient,
    /// The validator set after the trusted height could not be fetched.
    ValidatorsUnavailable,
    /// A submission did not reach the destination.
    SubmissionFailed,
    /// A receipt does not say how its transaction went.
    UnknownOutcome,
    /// There is no height after the last one.
    HeightOverflow,
    /// An event arrived that answers no action of the driver.
    UnexpectedEvent,
}

/// What happened to the driver's last action.
#[derive(Debug, PartialEq, Eq)]
pub enum Event {
    /// The run begins.
    Start,
    /// The source's current height.
    Head { height: u64 },
    /// The block asked for exists.
    Block,
    /// The pause is over.
    Elapsed,
    /// The signed header and the validator set asked for.
    Header { signed_header: SourceSignedHeader, validators: Vec<SourceValidator> },
    /// The validator set asked for on its own.
    Validators { validators: Vec<SourceValidator> },
    /// The identifiers of the destination's clients, oldest first.
    ClientIds { ids: Vec<String> },
    /// The receipt of the submission.
    Receipt { status: ReceiptStatus },
    /// The action could not be carried out.
    Failed,
}

/// What the driver wants done next.
#[derive(Debug, PartialEq, Eq)]
pub enum Action {
    /// Ask the source for its current height.
    QueryHead,
    /// Ask the source for the block at a height.
    FetchBlock { height: u64 },
    /// Pause.
    Sleep { seconds: u64 },
    /// Fetch the signed header and the validator set of a height.
    FetchHeader { height: u64 },
    /// Fetch the validator set of a height.
    FetchValidators { height: u64 },
    /// Read the identifiers of the destination's clients.
    FetchClientIds,
    /// Register the client type with the destination.
    RegisterClient { client_type: String },
    /// Create the client. The two envelopes hold the two states.
    CreateClient {
        client_type: String,
        height: u64,
        client_state: ClientState,
        consensus_state: ConsensusState,
        client_state_bytes: Vec<u8>,
        consensus_state_bytes: Vec<u8>,
    },
    /// Update the client. The envelope holds the message.
    UpdateClient { client_id: String, message: TmHeader, payload: Vec<u8> },
    /// Every cycle has run.
    Finish,
    /// The run is over before its time.
    Halt { reason: HaltReason },
}

/// The mathematical view of [`Action`]: bytes and text as sequences.
pub enum ActionView {
    QueryHead,
    FetchBlock { height: u64 },
    Sleep { seconds: u64 },
    FetchHeader { height: u64 },
    FetchValidators { height: u64 },
    FetchClientIds,
    RegisterClient { client_type: Seq<char> },
    CreateClient {
        client_type: Seq<char>,
        height: u64,
        client_state: ClientStateView,
        consensus_state: ConsensusStateView,
        client_state_bytes: Seq<u8>,
        consensus_state_bytes: Seq<u8>,
    },
    UpdateClient { client_id: Seq<char>, message: TmHeaderView, payload: Seq<u8> },
    Finish,
    Halt { reason: HaltReason },
}

impl View for Action {
    type V = ActionView;

    open spec fn view(&self) -> ActionView {
        match self {
            Action::QueryHead => ActionView::QueryHead,
            Action::FetchBlock { height } => ActionView::FetchBlock { height: *height },
            Action::Sleep { seconds } => ActionView::Sleep { seconds: *seconds },
            Action::FetchHeader { height } => ActionView::FetchHeader { height: *height },
            Action::FetchValidators { height } => ActionView::FetchValidators { height: *height },
            Action::FetchClientIds => ActionView::FetchClientIds,
            Action::RegisterClient { client_type } => ActionView::RegisterClient {
                client_type: client_type@,
            },
            Action::CreateClient {
                client_type,
                height,
                client_state,
                consensus_state,
                client_state_bytes,
                consensus_state_bytes,
            } => ActionView::CreateClient {
                client_type: client_type@,
                height: *height,
                client_state: client_state@,
                consensus_state: consensus_state@,
                client_state_bytes: client_state_bytes@,
                consensus_state_bytes: consensus_state_bytes@,
            },
            Action::UpdateClient { client_id, message, payload } => ActionView::UpdateClient {
                client_id: client_id@,
                message: message@,
                payload: payload@,
            },
            Action::Finish => ActionView::Finish,
            Action::Halt { reason } => ActionView::Halt { reason: *reason },
        }
    }
}

impl ActionView {
    /// The action hands something to the destination.
    pub open spec fn is_submission(self) -> bool {
        self is RegisterClient || self is CreateClient || self is UpdateClient
    }
}

/// What the driver waits for.
#[derive(Debug, PartialEq, Eq)]
pub enum Stage {
    /// The run has not begun.
    Idle,
    /// The source's current height.
    AwaitHead,
    /// The block at the target height.
    AwaitBlock,
    /// The end of a pause.
    AwaitBackoff,
    /// The signed header and the validator set of the target height.
    AwaitHeader,
    /// The receipt of the registration; `block` is what the client will be
    /// created from.
    AwaitRegisterReceipt { block: TmHeader },
    /// The receipt of the creation at `height`.
    AwaitCreateReceipt { height: u64 },
    /// The destination's client identifiers; `block` is what the client will
    /// be updated with.
    AwaitClientIds { block: TmHeader },
    /// The validator set after the trusted height.
    AwaitTrustedValidators { block: TmHeader, client_id: String },
    /// The receipt of the update to `height`, signed by `validators`.
    AwaitUpdateReceipt { height: u64, validators: ValidatorSet },
    /// Every cycle has run.
    Finished,
    /// The run is over before its time.
    Halted { reason: HaltReason },
}

/// The mathematical view of [`Stage`]: bytes and text as sequences.
pub enum StageView {
    Idle,
    AwaitHead,
    AwaitBlock,
    AwaitBackoff,
    AwaitHeader,
    AwaitRegisterReceipt { block: TmHeaderView },
    AwaitCreateReceipt { height: u64 },
    AwaitClientIds { block: TmHeaderView },
    AwaitTrustedValidators { block: TmHeaderView, client_id: Seq<char> },
    AwaitUpdateReceipt { height: u64, validators: ValidatorSetView },
    Finished,
    Halted { reason: HaltReason },
}

impl View for Stage {
    type V = StageView;

    open spec fn view(&self) -> StageView {
        match self {
            Stage::Idle => StageView::Idle,
            Stage::AwaitHead => StageView::AwaitHead,
            Stage::AwaitBlock => StageView::AwaitBlock,
            Stage::AwaitBackoff => StageView::AwaitBackoff,
            Stage::AwaitHeader => StageView::AwaitHeader,
            Stage::AwaitRegisterReceipt { block } => StageView::AwaitRegisterReceipt {
                block: block@,
            },
            Stage::AwaitCreateReceipt { height } => StageView::AwaitCreateReceipt {
                height: *height,
            },
            Stage::AwaitClientIds { block } => StageView::AwaitClientIds { block: block@ },
            Stage::AwaitTrustedValidators { block, client_id } => StageView::AwaitTrustedValidators {
                block: block@,
                client_id: client_id@,
            },
            Stage::AwaitUpdateReceipt { height, validators } => StageView::AwaitUpdateReceipt {
                height: *height,
                validators: validators@,
            },
            Stage::Finished => StageView::Finished,
            Stage::Halted { reason } => StageView::Halted { reason: *reason },
        }
    }
}

/// What a run is started with.
#[derive(Debug, PartialEq, Eq)]
pub struct RelayConfig {
    /// How many headers to process.
    pub max_headers: u64,
    /// Pass over the second header, so that the update after it spans two
    /// heights.
    pub non_adjacent_test: bool,
    /// The client to update, if it is known beforehand.
    pub client_id: Option<String>,
    /// The first height to relay; the source's current height if none is given.
    pub start_height: Option<u64>,
}

/// The driver's state.
#[derive(Debug, PartialEq, Eq)]
pub struct Relay {
    pub max_headers: u64,
    pub non_adjacent_test: bool,
    pub start_height: Option<u64>,
    /// The cycles that are over; the number of the cycle under way.
    pub done: u64,
    pub phase: Phase,
    pub source: HeaderSource,
    pub trust: TrustState,
    pub stage: Stage,
}

/// The mathematical view of [`Relay`]: bytes and text as sequences.
pub struct RelayView {
    pub max_headers: u64,
    pub non_adjacent_test: bool,
    pub start_height: Option<u64>,
    pub done: u64,
    pub phase: Phase,
    pub source: HeaderSource,
    pub trust: TrustStateView,
    pub stage: StageView,
}

impl View for Relay {
    type V = RelayView;

    open spec fn view(&self) -> RelayView {
        RelayView {
            max_headers: self.max_headers,
            non_adjacent_test: self.non_adjacent_test,
            start_height: self.start_height,
            done: self.done,
            phase: self.phase,
            source: self.source,
            trust: self.trust@,
            stage: self.stage@,
        }
    }
}

/// The type of client the relay creates.
pub open spec fn client_type() -> Seq<char> {
    "07-tendermint"@
}

/// The name under which a client state travels.
pub open spec fn client_state_url() -> Seq<char> {
    "/tendermint.types.ClientState"@
}

/// The name under which a consensus state travels.
pub open spec fn consensus_state_url() -> Seq<char> {
    "/tendermint.types.ConsensusState"@
}

/// The name under which an update message travels.
pub open spec fn update_url() -> Seq<char> {
    "/tendermint.types.TmHeader"@
}

/// The periods a new client is given, in seconds.
pub const CLIENT_PERIOD_SECONDS: i64 = 100_000_000_000;

/// The state of a client created from a header: a trust level of one third,
/// the fixed periods, not frozen, at the header's height, and open to
/// updates after expiry and after misbehaviour.
pub open spec fn client_state_for(header: LightHeaderView) -> ClientStateView {
    ClientStateView {
        chain_id: header.chain_id,
        trust_level: Fraction { numerator: 1, denominator: 3 },
        trusting_period: Duration { seconds: CLIENT_PERIOD_SECONDS, nanos: 0 },
        unbonding_period: Duration { seconds: CLIENT_PERIOD_SECONDS, nanos: 0 },
        max_clock_drift: Duration { seconds: CLIENT_PERIOD_SECONDS, nanos: 0 },
        frozen_height: 0,
        latest_height: header.height,
        allow_update_after_expiry: true,
        allow_update_after_misbehaviour: true,
    }
}

/// The consensus state of a header: its application state root, its time
/// and the hash of the validators of the next height.
pub open spec fn consensus_state_for(header: LightHeaderView) -> ConsensusStateView {
    ConsensusStateView {
        root: MerkleRootView { hash: header.app_hash },
        timestamp: header.time,
        next_validators_hash: header.next_validators_hash,
    }
}

/// The update message for a block: the block itself, the height the client
/// trusts, and the trusted validators where the update needs them.
pub open spec fn update_message(
    block: TmHeaderView,
    trusted_height: u64,
    trusted_validators: Option<ValidatorSetView>,
) -> TmHeaderView {
    TmHeaderView {
        signed_header: block.signed_header,
        validator_set: block.validator_set,
        trusted_height,
        trusted_validators,
    }
}

/// The light block made of a signed header and a validator set of the source.
pub open spec fn light_block_of(
    signed_header: SourceSignedHeader,
    validators: Seq<SourceValidator>,
) -> TmHeaderView {
    TmHeaderView {
        signed_header: canonical_signed_header(signed_header),
        validator_set: validator_set_of(validators),
        trusted_height: 0,
        trusted_validators: None,
    }
}

/// The canonical validator set of a run of source validators.
pub open spec fn validator_set_of(validators: Seq<SourceValidator>) -> ValidatorSetView {
    ValidatorSetView {
        validators: canonical_validators(validators),
        total_voting_power: power_sum(canonical_validators(validators)) as u64,
    }
}

/// The views of client identifiers.
pub open spec fn last_id(ids: Seq<String>) -> Seq<char> {
    ids[ids.len() - 1]@
}

impl RelayView {
    /// The run ends here, for the reason given.
    pub open spec fn halted(self, reason: HaltReason) -> (RelayView, ActionView) {
        (RelayView { stage: StageView::Halted { reason }, ..self }, ActionView::Halt { reason })
    }

    /// Asks once more for the block at the target height.
    pub open spec fn poll(self) -> (RelayView, ActionView) {
        let (source, poll) = self.source.spec_ask();
        match poll {
            Poll::Fetch { height } => (
                RelayView { source, stage: StageView::AwaitBlock, ..self },
                ActionView::FetchBlock { height },
            ),
            _ => self.halted(HaltReason::RetriesExhausted),
        }
    }

    /// Starts the first cycle at `height`.
    pub open spec fn begin(self, height: u64) -> (RelayView, ActionView) {
        RelayView { source: HeaderSource { target: height, attempts: 0 }, ..self }.poll()
    }

    /// Ends the cycle under way: the run is over when it was the last one,
    /// else the next height is polled for.
    pub open spec fn complete_cycle(self) -> (RelayView, ActionView) {
        if self.done >= self.max_headers {
            (RelayView { stage: StageView::Finished, ..self }, ActionView::Finish)
        } else {
            let next = RelayView {
                done: (self.done + 1) as u64,
                phase: self.phase.spec_next(self.non_adjacent_test),
                ..self
            };
            if next.done == next.max_headers {
                (RelayView { stage: StageView::Finished, ..next }, ActionView::Finish)
            } else {
                match next.source.spec_advance() {
                    Some(source) => RelayView { source, ..next }.poll(),
                    None => next.halted(HaltReason::HeightOverflow),
                }
            }
        }
    }

    pub open spec fn on_start(self) -> (RelayView, ActionView) {
        if self.max_headers == 0 {
            (RelayView { stage: StageView::Finished, ..self }, ActionView::Finish)
        } else {
            match self.start_height {
                Some(height) => self.begin(height),
                None => (RelayView { stage: StageView::AwaitHead, ..self }, ActionView::QueryHead),
            }
        }
    }

    pub open spec fn on_block_failed(self) -> (RelayView, ActionView) {
        match self.source.spec_failed() {
            Poll::Backoff { seconds } => (
                RelayView { stage: StageView::AwaitBackoff, ..self },
                ActionView::Sleep { seconds },
            ),
            _ => self.halted(HaltReason::RetriesExhausted),
        }
    }

    pub open spec fn on_block(self) -> (RelayView, ActionView) {
        (
            RelayView { stage: StageView::AwaitHeader, ..self },
            ActionView::FetchHeader { height: self.source.spec_found() },
        )
    }

    /// The update is handed in: adjacent to the trusted height without
    /// trusted validators, else with them.
    pub open spec fn submit_update(
        self,
        block: TmHeaderView,
        trusted_validators: Option<ValidatorSetView>,
        client_id: Seq<char>,
    ) -> (RelayView, ActionView) {
        let message = update_message(block, self.trust.trusted_height, trusted_validators);
        let payload = any_bytes(update_url(), fields_bytes(tm_header_fields(message)));
        if payload.len() > isize::MAX {
            self.halted(HaltReason::EnvelopeTooLarge)
        } else {
            (
                RelayView {
                    stage: StageView::AwaitUpdateReceipt {
                        height: block.signed_header.header.height,
                        validators: block.validator_set,
                    },
                    ..self
                },
                ActionView::UpdateClient { client_id, message, payload },
            )
        }
    }

    /// Decides how the client is updated with `block`: directly where the
    /// block follows the trusted height, else after fetching the validator
    /// set of the height after the trusted one.
    pub open spec fn prepare_update(self, block: TmHeaderView, client_id: Seq<char>) -> (
        RelayView,
        ActionView,
    ) {
        match update_mode(self.trust.trusted_height, block.signed_header.header.height) {
            UpdateMode::Adjacent => self.submit_update(block, None, client_id),
            UpdateMode::NonAdjacent => if self.trust.trusted_height == u64::MAX {
                self.halted(HaltReason::HeightOverflow)
            } else {
                (
                    RelayView {
                        stage: StageView::AwaitTrustedValidators { block, client_id },
                        ..self
                    },
                    ActionView::FetchValidators {
                        height: (self.trust.trusted_height + 1) as u64,
                    },
                )
            },
        }
    }

    /// The signed header and the validator set of the target height are
    /// there: they must be of that height and have a canonical form. Then the
    /// phase decides: create, pass over, or update.
    pub open spec fn on_header(
        self,
        signed_header: SourceSignedHeader,
        validators: Seq<SourceValidator>,
    ) -> (RelayView, ActionView) {
        if signed_header.header.height != self.source.target || signed_header.commit.height
            != self.source.target {
            self.halted(HaltReason::HeightMismatch)
        } else {
            match signed_header_defect(signed_header) {
                Some(e) => self.halted(HaltReason::Conversion(e)),
                None => if power_sum(canonical_validators(validators)) > u64::MAX {
                    self.halted(HaltReason::Conversion(ConversionError::VotingPowerOverflow))
                } else {
                    let block = light_block_of(signed_header, validators);
                    match self.phase {
                        Phase::CreatePending => (
                            RelayView {
                                stage: StageView::AwaitRegisterReceipt { block },
                                ..self
                            },
                            ActionView::RegisterClient { client_type: client_type() },
                        ),
                        Phase::SkipOnce => self.complete_cycle(),
                        Phase::Updating => match self.trust.client_id {
                            Some(id) => self.prepare_update(block, id),
                            None => (
                                RelayView { stage: StageView::AwaitClientIds { block }, ..self },
                                ActionView::FetchClientIds,
                            ),
                        },
                    }
                },
            }
        }
    }

    /// The client type is registered, now or earlier: the client is created
    /// from the block.
    pub open spec fn on_register_receipt(self, block: TmHeaderView, status: ReceiptStatus) -> (
        RelayView,
        ActionView,
    ) {
        if status == ReceiptStatus::Unknown {
            self.halted(HaltReason::UnknownOutcome)
        } else {
            let header = block.signed_header.header;
            let client_state = client_state_for(header);
            let consensus_state = consensus_state_for(header);
            let consensus_state_bytes = any_bytes(
                consensus_state_url(),
                fields_bytes(consensus_state_fields(consensus_state)),
            );
            let client_state_bytes = any_bytes(
                client_state_url(),
                fields_bytes(client_state_fields(client_state)),
            );
            if consensus_state_bytes.len() > isize::MAX || client_state_bytes.len() > isize::MAX {
                self.halted(HaltReason::EnvelopeTooLarge)
            } else {
                (
                    RelayView {
                        stage: StageView::AwaitCreateReceipt { height: header.height },
                        ..self
                    },
                    ActionView::CreateClient {
                        client_type: client_type(),
                        height: header.height,
                        client_state,
                        consensus_state,
                        client_state_bytes,
                        consensus_state_bytes,
                    },
                )
            }
        }
    }

    /// The creation was answered: only an executed one makes its height trusted.
    pub open spec fn on_create_receipt(self, height: u64, status: ReceiptStatus) -> (
        RelayView,
        ActionView,
    ) {
        match status {
            ReceiptStatus::Success => RelayView {
                trust: self.trust.created(height),
                ..self
            }.complete_cycle(),
            ReceiptStatus::Reverted => self.complete_cycle(),
            ReceiptStatus::Unknown => self.halted(HaltReason::UnknownOutcome),
        }
    }

    /// The update was answered: only an executed one moves the trusted height.
    pub open spec fn on_update_receipt(
        self,
        height: u64,
        validators: ValidatorSetView,
        status: ReceiptStatus,
    ) -> (RelayView, ActionView) {
        match status {
            ReceiptStatus::Success => RelayView {
                trust: self.trust.updated(height, validators),
                ..self
            }.complete_cycle(),
            ReceiptStatus::Reverted => self.complete_cycle(),
            ReceiptStatus::Unknown => self.halted(HaltReason::UnknownOutcome),
        }
    }

    /// The destination's clients are known: the youngest is the one to update.
    pub open spec fn on_client_ids(self, block: TmHeaderView, ids: Seq<String>) -> (
        RelayView,
        ActionView,
    ) {
        if ids.len() == 0 {
            self.halted(HaltReason::NoClient)
        } else {
            RelayView { trust: self.trust.identified(last_id(ids)), ..self }.prepare_update(
                block,
                last_id(ids),
            )
        }
    }

    /// The validator set after the trusted height is there: the update goes
    /// out with it.
    pub open spec fn on_trusted_validators(
        self,
        block: TmHeaderView,
        client_id: Seq<char>,
        validators: Seq<SourceValidator>,
    ) -> (RelayView, ActionView) {
        if power_sum(canonical_validators(validators)) > u64::MAX {
            self.halted(HaltReason::Conversion(ConversionError::VotingPowerOverflow))
        } else {
            self.submit_update(block, Some(validator_set_of(validators)), client_id)
        }
    }

    /// The state and the action that follow an event.
    pub open spec fn step(self, event: Event) -> (RelayView, ActionView) {
        match self.stage {
            StageView::Idle => match event {
                Event::Start => self.on_start(),
                _ => self.halted(HaltReason::UnexpectedEvent),
            },
            StageView::AwaitHead => match event {
                Event::Head { height } => self.begin(height),
                Event::Failed => self.halted(HaltReason::HeadUnavailable),
                _ => self.halted(HaltReason::UnexpectedEvent),
            },
            StageView::AwaitBlock => match event {
                Event::Block => self.on_block(),
                Event::Failed => self.on_block_failed(),
                _ => self.halted(HaltReason::UnexpectedEvent),
            },
            StageView::AwaitBackoff => match event {
                Event::Elapsed => self.poll(),
                _ => self.halted(HaltReason::UnexpectedEvent),
            },
            StageView::AwaitHeader => match event {
                Event::Header { signed_header, validators } => self.on_header(
                    signed_header,
                    validators@,
                ),
                Event::Failed => self.halted(HaltReason::HeaderUnavailable),
                _ => self.halted(HaltReason::UnexpectedEvent),
            },
            StageView::AwaitRegisterReceipt { block } => match event {
                Event::Receipt { status } => self.on_register_receipt(block, status),
                Event::Failed => self.halted(HaltReason::SubmissionFailed),
                _ => self.halted(HaltReason::UnexpectedEvent),
            },
            StageView::AwaitCreateReceipt { height } => match event {
                Event::Receipt { status } => self.on_create_receipt(height, status),
                Event::Failed => self.halted(HaltReason::SubmissionFailed),
                _ => self.halted(HaltReason::UnexpectedEvent),
            },
            StageView::AwaitClientIds { block } => match event {
                Event::ClientIds { ids } => self.on_client_ids(block, ids@),
                Event::Failed => self.halted(HaltReason::ClientIdsUnavailable),
                _ => self.halted(HaltReason::UnexpectedEvent),
            },
            StageView::AwaitTrustedValidators { block, client_id } => match event {
                Event::Validators { validators } => self.on_trusted_validators(
                    block,
                    client_id,
                    validators@,
                ),
                Event::Failed => self.halted(HaltReason::ValidatorsUnavailable),
                _ => self.halted(HaltReason::UnexpectedEvent),
            },
            StageView::AwaitUpdateReceipt { height, validators } => match event {
                Event::Receipt { status } => self.on_update_receipt(height, validators, status),
                Event::Failed => self.halted(HaltReason::SubmissionFailed),
                _ => self.halted(HaltReason::UnexpectedEvent),
            },
            StageView::Finished => (self, ActionView::Finish),
            StageView::Halted { reason } => (self, ActionView::Halt { reason }),
        }
    }

    /// The state a run starts in.
    pub open spec fn initial(config: RelayConfig) -> RelayView {
        RelayView {
            max_headers: config.max_headers,
            non_adjacent_test: config.non_adjacent_test,
            start_height: config.start_height,
            done: 0,
            phase: Phase::initial(),
            source: HeaderSource { target: 0, attempts: 0 },
            trust: TrustStateView {
                client_id: match config.client_id {
                    Some(id) => Some(id@),
                    None => None,
                },
                trusted_height: 0,
                trusted_validator_set: None,
            },
            stage: StageView::Idle,
        }
    }
}

impl Relay {
    /// The driver at the start of a run.
    pub fn new(config: RelayConfig) -> (out: Relay)
        ensures
            out@ == RelayView::initial(config),
    {
        Relay {
            max_headers: config.max_headers,
            non_adjacent_test: config.non_adjacent_test,
            start_height: config.start_height,
            done: 0,
            phase: Phase::CreatePending,
            source: HeaderSource::new(0),
            trust: TrustState::new(config.client_id),
            stage: Stage::Idle,
        }
    }

    /// Whether the run is over.
    pub fn is_over(&self) -> (out: bool)
        ensures
            out == (self@.stage is Finished || self@.stage is Halted),
    {
        match self.stage {
            Stage::Finished => true,
            Stage::Halted { .. } => true,
            _ => false,
        }
    }

    fn halted(self, reason: HaltReason) -> (out: (Relay, Action))
        ensures
            (out.0@, out.1@) == self@.halted(reason),
    {
        (Relay { stage: Stage::Halted { reason }, ..self }, Action::Halt { reason })
    }

    fn poll(self) -> (out: (Relay, Action))
        ensures
            (out.0@, out.1@) == self@.poll(),
    {
        let (source, poll) = self.source.ask();
        match poll {
            Poll::Fetch { height } => (
                Relay { source, stage: Stage::AwaitBlock, ..self },
                Action::FetchBlock { height },
            ),
            _ => self.halted(HaltReason::RetriesExhausted),
        }
    }

    fn begin(self, height: u64) -> (out: (Relay, Action))
        ensures
            (out.0@, out.1@) == self@.begin(height),
    {
        let started = Relay { source: HeaderSource::new(height), ..self };
        started.poll()
    }

    fn complete_cycle(self) -> (out: (Relay, Action))
        ensures
            (out.0@, out.1@) == self@.complete_cycle(),
    {
        if self.done >= self.max_headers {
            (Relay { stage: Stage::Finished, ..self }, Action::Finish)
        } else {
            let done = self.done + 1;
            let phase = self.phase.next(self.non_adjacent_test);
            let next = Relay { done, phase, ..self };
            if next.done == next.max_headers {
                (Relay { stage: Stage::Finished, ..next }, Action::Finish)
            } else {
                match next.source.advance() {
                    Some(source) => {
                        let moved = Relay { source, ..next };
                        moved.poll()
                    },
                    None => next.halted(HaltReason::HeightOverflow),
                }
            }
        }
    }

    fn on_start(self) -> (out: (Relay, Action))
        ensures
            (out.0@, out.1@) == self@.on_start(),
    {
        if self.max_headers == 0 {
            (Relay { stage: Stage::Finished, ..self }, Action::Finish)
        } else {
            match self.start_height {
                Some(height) => self.begin(height),
                None => (Relay { stage: Stage::AwaitHead, ..self }, Action::QueryHead),
            }
        }
    }

    fn on_block_failed(self) -> (out: (Relay, Action))
        ensures
            (out.0@, out.1@) == self@.on_block_failed(),
    {
        match self.source.failed() {
            Poll::Backoff { seconds } => (
                Relay { stage: Stage::AwaitBackoff, ..self },
                Action::Sleep { seconds },
            ),
            _ => self.halted(HaltReason::RetriesExhausted),
        }
    }

    fn on_block(self) -> (out: (Relay, Action))
        ensures
            (out.0@, out.1@) == self@.on_block(),
    {
        let height = self.source.found();
        (Relay { stage: Stage::AwaitHeader, ..self }, Action::FetchHeader { height })
    }

    fn submit_update(
        self,
        block: TmHeader,
        trusted_validators: Option<ValidatorSet>,
        client_id: String,
    ) -> (out: (Relay, Action))
        ensures
            (out.0@, out.1@) == self@.submit_update(
                block@,
                match trusted_validators {
                    Some(set) => Some(set@),
                    None => None,
                },
                client_id@,
            ),
    {
        let height = block.signed_header.header.height;
        let validators = block.validator_set.clone();
        let message = TmHeader {
            signed_header: block.signed_header,
            validator_set: block.validator_set,
            trusted_height: self.trust.trusted_height,
            trusted_validators,
        };
        match prost_serialize_any(&message, "/tendermint.types.TmHeader") {
            Ok(payload) => (
                Relay { stage: Stage::AwaitUpdateReceipt { height, validators }, ..self },
                Action::UpdateClient { client_id, message, payload },
            ),
            Err(_) => self.halted(HaltReason::EnvelopeTooLarge),
        }
    }

    fn prepare_update(self, block: TmHeader, client_id: String) -> (out: (Relay, Action))
        ensures
            (out.0@, out.1@) == self@.prepare_update(block@, client_id@),
    {
        match self.trust.mode(block.signed_header.header.height) {
            UpdateMode::Adjacent => self.submit_update(block, None, client_id),
            UpdateMode::NonAdjacent => {
                if self.trust.trusted_height == u64::MAX {
                    self.halted(HaltReason::HeightOverflow)
                } else {
                    let height = self.trust.trusted_height + 1;
                    (
                        Relay { stage: Stage::AwaitTrustedValidators { block, client_id }, ..self },
                        Action::FetchValidators { height },
                    )
                }
            },
        }
    }

    fn on_header(self, signed_header: SourceSignedHeader, validators: Vec<SourceValidator>) -> (out:
        (Relay, Action))
        ensures
            (out.0@, out.1@) == self@.on_header(signed_header, validators@),
    {
        if signed_header.header.height != self.source.target || signed_header.commit.height
            != self.source.target {
            return self.halted(HaltReason::HeightMismatch);
        }
        let header = match to_signed_header(&signed_header) {
            Ok(header) => header,
            Err(e) => {
                return self.halted(HaltReason::Conversion(e));
            },
        };
        let set = match to_validator_set(validators.as_slice()) {
            Ok(set) => set,
            Err(e) => {
                return self.halted(HaltReason::Conversion(e));
            },
        };
        let block = to_light_block(&header, &set);
        assert(block@ == light_block_of(signed_header, validators@));
        match self.phase {
            Phase::CreatePending => (
                Relay { stage: Stage::AwaitRegisterReceipt { block }, ..self },
                Action::RegisterClient { client_type: "07-tendermint".to_string() },
            ),
            Phase::SkipOnce => self.complete_cycle(),
            Phase::Updating => {
                let known = match &self.trust.client_id {
                    Some(id) => Some(copy_text(id)),
                    None => None,
                };
                match known {
                    Some(id) => self.prepare_update(block, id),
                    None => (
                        Relay { stage: Stage::AwaitClientIds { block }, ..self },
                        Action::FetchClientIds,
                    ),
                }
            },
        }
    }

    fn on_register_receipt(self, block: TmHeader, status: ReceiptStatus) -> (out: (Relay, Action))
        ensures
            (out.0@, out.1@) == self@.on_register_receipt(block@, status),
    {
        match status {
            ReceiptStatus::Unknown => {
                return self.halted(HaltReason::UnknownOutcome);
            },
            _ => {},
        }
        let header = &block.signed_header.header;
        let height = header.height;
        let client_state = ClientState {
            chain_id: copy_text(&header.chain_id),
            trust_level: Fraction { numerator: 1, denominator: 3 },
            trusting_period: to_duration(CLIENT_PERIOD_SECONDS, 0),
            unbonding_period: to_duration(CLIENT_PERIOD_SECONDS, 0),
            max_clock_drift: to_duration(CLIENT_PERIOD_SECONDS, 0),
            frozen_height: 0,
            latest_height: height,
            allow_update_after_expiry: true,
            allow_update_after_misbehaviour: true,
        };
        let consensus_state = ConsensusState {
            root: MerkleRoot { hash: crate::bytes::copy_bytes(&header.app_hash) },
            timestamp: header.time,
            next_validators_hash: crate::bytes::copy_bytes(&header.next_validators_hash),
        };
        assert(client_state@ == client_state_for(block@.signed_header.header));
        assert(consensus_state@ == consensus_state_for(block@.signed_header.header));
        let consensus_state_bytes = match prost_serialize_any(
            &consensus_state,
            "/tendermint.types.ConsensusState",
        ) {
            Ok(bytes) => bytes,
            Err(_) => {
                return self.halted(HaltReason::EnvelopeTooLarge);
            },
        };
        let client_state_bytes = match prost_serialize_any(
            &client_state,
            "/tendermint.types.ClientState",
        ) {
            Ok(bytes) => bytes,
            Err(_) => {
                return self.halted(HaltReason::EnvelopeTooLarge);
            },
        };
        (
            Relay { stage: Stage::AwaitCreateReceipt { height }, ..self },
            Action::CreateClient {
                client_type: "07-tendermint".to_string(),
                height,
                client_state,
                consensus_state,
                client_state_bytes,
                consensus_state_bytes,
            },
        )
    }

    fn on_create_receipt(self, height: u64, status: ReceiptStatus) -> (out: (Relay, Action))
        ensures
            (out.0@, out.1@) == self@.on_create_receipt(height, status),
    {
        match status {
            ReceiptStatus::Success => {
                let Relay {
                    max_headers,
                    non_adjacent_test,
                    start_height,
                    done,
                    phase,
                    source,
                    trust,
                    stage,
                } = self;
                let trust = trust.record_created(height);
                let advanced = Relay {
                    max_headers,
                    non_adjacent_test,
                    start_height,
                    done,
                    phase,
                    source,
                    trust,
                    stage,
                };
                advanced.complete_cycle()
            },
            ReceiptStatus::Reverted => self.complete_cycle(),
            ReceiptStatus::Unknown => self.halted(HaltReason::UnknownOutcome),
        }
    }

    fn on_update_receipt(self, height: u64, validators: ValidatorSet, status: ReceiptStatus) -> (out:
        (Relay, Action))
        ensures
            (out.0@, out.1@) == self@.on_update_receipt(height, validators@, status),
    {
        match status {
            ReceiptStatus::Success => {
                let Relay {
                    max_headers,
                    non_adjacent_test,
                    start_height,
                    done,
                    phase,
                    source,
                    trust,
                    stage,
                } = self;
                let advanced = Relay {
                    max_headers,
                    non_adjacent_test,
                    start_height,
                    done,
                    phase,
                    source,
                    trust: trust.record_updated(height, validators),
                    stage,
                };
                advanced.complete_cycle()
            },
            ReceiptStatus::Reverted => self.complete_cycle(),
            ReceiptStatus::Unknown => self.halted(HaltReason::UnknownOutcome),
        }
    }

    fn on_client_ids(self, block: TmHeader, ids: Vec<String>) -> (out: (Relay, Action))
        ensures
            (out.0@, out.1@) == self@.on_client_ids(block@, ids@),
    {
        if ids.len() == 0 {
            self.halted(HaltReason::NoClient)
        } else {
            let id = copy_text(&ids[ids.len() - 1]);
            let Relay {
                max_headers,
                non_adjacent_test,
                start_height,
                done,
                phase,
                source,
                trust,
                stage,
            } = self;
            let identified = Relay {
                max_headers,
                non_adjacent_test,
                start_height,
                done,
                phase,
                source,
                trust: trust.identify(copy_text(&id)),
                stage,
            };
            identified.prepare_update(block, id)
        }
    }

    fn on_trusted_validators(
        self,
        block: TmHeader,
        client_id: String,
        validators: Vec<SourceValidator>,
    ) -> (out: (Relay, Action))
        ensures
            (out.0@, out.1@) == self@.on_trusted_validators(block@, client_id@, validators@),
    {
        match to_validator_set(validators.as_slice()) {
            Ok(set) => {
                assert(set@ == validator_set_of(validators@));
                self.submit_update(block, Some(set), client_id)
            },
            Err(e) => self.halted(HaltReason::Conversion(e)),
        }
    }

    /// Takes the outcome of the last action and answers with the next one.
    ///
    /// The first event of a run is `Event::Start`. An event that answers no
    /// action of the driver ends the run. Once the run is over every event
    /// is answered with the same last action.
    pub fn step(self, event: Event) -> (out: (Relay, Action))
        ensures
            (out.0@, out.1@) == self@.step(event),
    {
        match &self.stage {
            Stage::Idle => match event {
                Event::Start => self.on_start(),
                _ => self.halted(HaltReason::UnexpectedEvent),
            },
            Stage::AwaitHead => match event {
                Event::Head { height } => self.begin(height),
                Event::Failed => self.halted(HaltReason::HeadUnavailable),
                _ => self.halted(HaltReason::UnexpectedEvent),
            },
            Stage::AwaitBlock => match event {
                Event::Block => self.on_block(),
                Event::Failed => self.on_block_failed(),
                _ => self.halted(HaltReason::UnexpectedEvent),
            },
            Stage::AwaitBackoff => match event {
                Event::Elapsed => self.poll(),
                _ => self.halted(HaltReason::UnexpectedEvent),
            },
            Stage::AwaitHeader => match event {
                Event::Header { signed_header, validators } => self.on_header(
                    signed_header,
                    validators,
                ),
                Event::Failed => self.halted(HaltReason::HeaderUnavailable),
                _ => self.halted(HaltReason::UnexpectedEvent),
            },
            Stage::AwaitRegisterReceipt { block } => match event {
                Event::Receipt { status } => {
                    let block = block.clone();
                    self.on_register_receipt(block, status)
                },
                Event::Failed => self.halted(HaltReason::SubmissionFailed),
                _ => self.halted(HaltReason::UnexpectedEvent),
            },
            Stage::AwaitCreateReceipt { height } => match event {
                Event::Receipt { status } => {
                    let height = *height;
                    self.on_create_receipt(height, status)
                },
                Event::Failed => self.halted(HaltReason::SubmissionFailed),
                _ => self.halted(HaltReason::UnexpectedEvent),
            },
            Stage::AwaitClientIds { block } => match event {
                Event::ClientIds { ids } => {
                    let block = block.clone();
                    self.on_client_ids(block, ids)
                },
                Event::Failed => self.halted(HaltReason::ClientIdsUnavailable),
                _ => self.halted(HaltReason::UnexpectedEvent),
            },
            Stage::AwaitTrustedValidators { block, client_id } => match event {
                Event::Validators { validators } => {
                    let block = block.clone();
                    let client_id = copy_text(client_id);
                    self.on_trusted_validators(block, client_id, validators)
                },
                Event::Failed => self.halted(HaltReason::ValidatorsUnavailable),
                _ => self.halted(HaltReason::UnexpectedEvent),
            },
            Stage::AwaitUpdateReceipt { height, validators } => match event {
                Event::Receipt { status } => {
                    let height = *height;
                    let validators = validators.clone();
                    self.on_update_receipt(height, validators, status)
                },
                Event::Failed => self.halted(HaltReason::SubmissionFailed),
                _ => self.halted(HaltReason::UnexpectedEvent),
            },
            Stage::Finished => (self, Action::Finish),
            Stage::Halted { reason } => {
                let reason = *reason;
                (self, Action::Halt { reason })
            },
        }
    }
}

} // verus!
