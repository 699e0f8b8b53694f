//! The stream consumer: what to do with each message, from fetch to
//! acknowledgment.
//!
//! The consumer itself performs nothing. [`step`] takes the state and what
//! just happened, and answers with the next state and the one action to
//! perform; the caller performs it and reports back.

use vstd::prelude::*;
use vstd::utf8::{decode_utf8, valid_utf8};
use crate::error::{DeserializationError, SettlementError, ValidationError};
use crate::retry::{decision, RetryDecision, RetryPolicy};
use crate::settlement::{SettlementOutcome, SettlementOutcomeView};
use crate::transaction::{IdempotencyKey, Transaction, TransactionView};

verus! {

/// A message as the broker handed it over.
#[derive(Debug, PartialEq, Eq)]
pub struct Delivery {
    pub partition: i32,
    pub offset: i64,
    pub payload: Option<Vec<u8>>,
}

/// The mathematical content of a [`Delivery`].
pub struct DeliveryView {
    pub partition: i32,
    pub offset: i64,
    pub payload: Option<Seq<u8>>,
}

impl View for Delivery {
    type V = DeliveryView;

    open spec fn view(&self) -> DeliveryView {
        DeliveryView {
            partition: self.partition,
            offset: self.offset,
            payload: match self.payload {
                Some(bytes) => Some(bytes@),
                None => None,
            },
        }
    }
}

impl DeliveryView {
    /// The idempotency key of the message: its durable position.
    pub open spec fn key(self) -> IdempotencyKey {
        IdempotencyKey { partition: self.partition, offset: self.offset }
    }
}

impl Delivery {
    /// The idempotency key of the message: its durable position.
    pub fn key(&self) -> (key: IdempotencyKey)
        ensures
            key == self@.key(),
    {
        IdempotencyKey { partition: self.partition, offset: self.offset }
    }
}

/// Why a message was set aside for good.
#[derive(Clone, Copy, Debug, PartialEq, Eq, Structural)]
pub enum DeadLetterReason {
    /// The message cannot be read as a transfer request.
    Undeliverable(DeserializationError),
    /// Every attempt to settle it failed; this is the last failure.
    Exhausted(SettlementError),
}

/// What is made known about a message before it is acknowledged.
#[derive(Clone, Copy, Debug, PartialEq, Eq, Structural)]
pub enum Notice {
    /// The transfer was rejected by a business rule.
    Rejected(ValidationError),
    /// The message goes to the dead-letter destination.
    DeadLetter(DeadLetterReason),
}

/// The four phases that a consumer moves through for each message.
#[derive(Clone, Copy, Debug, PartialEq, Eq, Structural)]
pub enum Phase {
    Idle,
    Fetching,
    Processing,
    Acknowledging,
}

/// Where the consumer stands.
#[derive(Debug, PartialEq, Eq)]
pub enum ConsumerState {
    /// Nothing in hand.
    Idle,
    /// Waiting for the broker.
    Fetching,
    /// The payload text of the message `key` is being read.
    Parsing { key: IdempotencyKey },
    /// `request` is with the settlement engine; `failures` attempts have
    /// failed so far.
    Settling { key: IdempotencyKey, request: Transaction, failures: u32 },
    /// `notice` is being made known; the acknowledgment follows it.
    Publishing { key: IdempotencyKey, notice: Notice },
    /// The acknowledgment of the message `key` is under way.
    Acknowledging { key: IdempotencyKey },
}

/// The mathematical content of a [`ConsumerState`].
pub enum ConsumerStateView {
    Idle,
    Fetching,
    Parsing { key: IdempotencyKey },
    Settling { key: IdempotencyKey, request: TransactionView, failures: u32 },
    Publishing { key: IdempotencyKey, notice: Notice },
    Acknowledging { key: IdempotencyKey },
}

impl View for ConsumerState {
    type V = ConsumerStateView;

    open spec fn view(&self) -> ConsumerStateView {
        match self {
            ConsumerState::Idle => ConsumerStateView::Idle,
            ConsumerState::Fetching => ConsumerStateView::Fetching,
            ConsumerState::Parsing { key } => ConsumerStateView::Parsing { key: *key },
            ConsumerState::Settling { key, request, failures } => ConsumerStateView::Settling {
                key: *key,
                request: request@,
                failures: *failures,
            },
            ConsumerState::Publishing { key, notice } => ConsumerStateView::Publishing {
                key: *key,
                notice: *notice,
            },
            ConsumerState::Acknowledging { key } => ConsumerStateView::Acknowledging { key: *key },
        }
    }
}

impl ConsumerState {
    /// The phase that this state belongs to.
    pub fn phase(&self) -> (phase: Phase)
        ensures
            phase == self@.phase(),
    {
        match self {
            ConsumerState::Idle => Phase::Idle,
            ConsumerState::Fetching => Phase::Fetching,
            ConsumerState::Parsing { .. } => Phase::Processing,
            ConsumerState::Settling { .. } => Phase::Processing,
            ConsumerState::Publishing { .. } => Phase::Acknowledging,
            ConsumerState::Acknowledging { .. } => Phase::Acknowledging,
        }
    }
}

impl ConsumerStateView {
    /// The phase that this state belongs to.
    pub open spec fn phase(self) -> Phase {
        match self {
            ConsumerStateView::Idle => Phase::Idle,
            ConsumerStateView::Fetching => Phase::Fetching,
            ConsumerStateView::Parsing { .. } => Phase::Processing,
            ConsumerStateView::Settling { .. } => Phase::Processing,
            ConsumerStateView::Publishing { .. } => Phase::Acknowledging,
            ConsumerStateView::Acknowledging { .. } => Phase::Acknowledging,
        }
    }
}

/// What just happened.
#[derive(Debug, PartialEq, Eq)]
pub enum ConsumerEvent {
    /// It is time to look for the next message.
    Poll,
    /// The broker handed over a message.
    Delivered(Delivery),
    /// The broker reported an error in place of a message.
    FetchFailed,
    /// The payload text was read: the request, or `None` where the text is
    /// not a transfer request.
    Parsed(Option<Transaction>),
    /// The settlement engine finished an attempt.
    Attempted(SettlementOutcome),
    /// The notice was made known.
    Published,
    /// The broker took the acknowledgment.
    Acknowledged,
}

/// The mathematical content of a [`ConsumerEvent`].
pub enum ConsumerEventView {
    Poll,
    Delivered(DeliveryView),
    FetchFailed,
    Parsed(Option<TransactionView>),
    Attempted(SettlementOutcomeView),
    Published,
    Acknowledged,
}

impl View for ConsumerEvent {
    type V = ConsumerEventView;

    open spec fn view(&self) -> ConsumerEventView {
        match self {
            ConsumerEvent::Poll => ConsumerEventView::Poll,
            ConsumerEvent::Delivered(delivery) => ConsumerEventView::Delivered(delivery@),
            ConsumerEvent::FetchFailed => ConsumerEventView::FetchFailed,
            ConsumerEvent::Parsed(parsed) => ConsumerEventView::Parsed(
                match parsed {
                    Some(request) => Some(request@),
                    None => None,
                },
            ),
            ConsumerEvent::Attempted(outcome) => ConsumerEventView::Attempted(outcome@),
            ConsumerEvent::Published => ConsumerEventView::Published,
            ConsumerEvent::Acknowledged => ConsumerEventView::Acknowledged,
        }
    }
}

/// The one thing to do next.
#[derive(Debug, PartialEq, Eq)]
pub enum ConsumerAction {
    /// Ask the broker for the next message.
    Fetch,
    /// Read this payload text as a transfer request.
    Parse(String),
    /// Wait `delay_ms` milliseconds, then hand `request` to the settlement
    /// engine under `key`.
    Settle { key: IdempotencyKey, request: Transaction, delay_ms: u64 },
    /// Make `notice` known about the message `key`.
    Publish { key: IdempotencyKey, notice: Notice },
    /// Acknowledge the message `key` to the broker.
    Acknowledge(IdempotencyKey),
    /// Nothing to do.
    Rest,
}

/// The mathematical content of a [`ConsumerAction`].
pub enum ConsumerActionView {
    Fetch,
    Parse(Seq<char>),
    Settle { key: IdempotencyKey, request: TransactionView, delay_ms: u64 },
    Publish { key: IdempotencyKey, notice: Notice },
    Acknowledge(IdempotencyKey),
    Rest,
}

impl View for ConsumerAction {
    type V = ConsumerActionView;

    open spec fn view(&self) -> ConsumerActionView {
        match self {
            ConsumerAction::Fetch => ConsumerActionView::Fetch,
            ConsumerAction::Parse(text) => ConsumerActionView::Parse(text@),
            ConsumerAction::Settle { key, request, delay_ms } => ConsumerActionView::Settle {
                key: *key,
                request: request@,
                delay_ms: *delay_ms,
            },
            ConsumerAction::Publish { key, notice } => ConsumerActionView::Publish {
                key: *key,
                notice: *notice,
            },
            ConsumerAction::Acknowledge(key) => ConsumerActionView::Acknowledge(*key),
            ConsumerAction::Rest => ConsumerActionView::Rest,
        }
    }
}

/// The state and the action that set a message aside with `notice`.
pub open spec fn publishing(key: IdempotencyKey, notice: Notice) -> (
    ConsumerStateView,
    ConsumerActionView,
) {
    (ConsumerStateView::Publishing { key, notice }, ConsumerActionView::Publish { key, notice })
}

/// What follows a delivered message: a message without payload, or with a
/// payload that is not UTF-8, goes to the dead letters; any other is read as
/// text.
pub open spec fn on_delivery(delivery: DeliveryView) -> (ConsumerStateView, ConsumerActionView) {
    match delivery.payload {
        None => publishing(
            delivery.key(),
            Notice::DeadLetter(DeadLetterReason::Undeliverable(DeserializationError::NoPayload)),
        ),
        Some(bytes) => if valid_utf8(bytes) {
            (
                ConsumerStateView::Parsing { key: delivery.key() },
                ConsumerActionView::Parse(decode_utf8(bytes)),
            )
        } else {
            publishing(
                delivery.key(),
                Notice::DeadLetter(
                    DeadLetterReason::Undeliverable(DeserializationError::InvalidEncoding),
                ),
            )
        },
    }
}

/// The count of failures after one more, held at the largest number.
pub open spec fn one_more(failures: u32) -> u32 {
    if failures < u32::MAX {
        (failures + 1) as u32
    } else {
        failures
    }
}

/// What follows an attempt of the settlement engine. A settled transfer, and
/// one that was settled before, is acknowledged. A rejection is made known
/// and then acknowledged. A failure is tried again under the same key while
/// the policy allows, and goes to the dead letters after that.
pub open spec fn on_attempt(
    key: IdempotencyKey,
    request: TransactionView,
    failures: u32,
    outcome: SettlementOutcomeView,
    policy: RetryPolicy,
) -> (ConsumerStateView, ConsumerActionView) {
    match outcome {
        SettlementOutcomeView::Settled(_) => (
            ConsumerStateView::Acknowledging { key },
            ConsumerActionView::Acknowledge(key),
        ),
        SettlementOutcomeView::AlreadySettled => (
            ConsumerStateView::Acknowledging { key },
            ConsumerActionView::Acknowledge(key),
        ),
        SettlementOutcomeView::Rejected(reason) => publishing(key, Notice::Rejected(reason)),
        SettlementOutcomeView::Failed(error) => match decision(policy, one_more(failures) as nat) {
            RetryDecision::RetryAfter(delay_ms) => (
                ConsumerStateView::Settling { key, request, failures: one_more(failures) },
                ConsumerActionView::Settle { key, request, delay_ms },
            ),
            RetryDecision::GiveUp => publishing(
                key,
                Notice::DeadLetter(DeadLetterReason::Exhausted(error)),
            ),
        },
    }
}

/// The transition of the consumer. An event that does not belong to the
/// state changes nothing and asks for nothing.
pub open spec fn next(state: ConsumerStateView, event: ConsumerEventView, policy: RetryPolicy) -> (
    ConsumerStateView,
    ConsumerActionView,
) {
    match (state, event) {
        (ConsumerStateView::Idle, ConsumerEventView::Poll) => (
            ConsumerStateView::Fetching,
            ConsumerActionView::Fetch,
        ),
        (ConsumerStateView::Fetching, ConsumerEventView::Delivered(delivery)) => on_delivery(
            delivery,
        ),
        (ConsumerStateView::Fetching, ConsumerEventView::FetchFailed) => (
            ConsumerStateView::Idle,
            ConsumerActionView::Rest,
        ),
        (ConsumerStateView::Parsing { key }, ConsumerEventView::Parsed(Some(request))) => (
            ConsumerStateView::Settling { key, request, failures: 0 },
            ConsumerActionView::Settle { key, request, delay_ms: 0 },
        ),
        (ConsumerStateView::Parsing { key }, ConsumerEventView::Parsed(None)) => publishing(
            key,
            Notice::DeadLetter(
                DeadLetterReason::Undeliverable(DeserializationError::MalformedPayload),
            ),
        ),
        (
            ConsumerStateView::Settling { key, request, failures },
            ConsumerEventView::Attempted(outcome),
        ) => on_attempt(key, request, failures, outcome, policy),
        (ConsumerStateView::Publishing { key, notice }, ConsumerEventView::Published) => (
            ConsumerStateView::Acknowledging { key },
            ConsumerActionView::Acknowledge(key),
        ),
        (ConsumerStateView::Acknowledging { key }, ConsumerEventView::Acknowledged) => (
            ConsumerStateView::Idle,
            ConsumerActionView::Rest,
        ),
        _ => (state, ConsumerActionView::Rest),
    }
}

/// Reads a payload as text through `rdkafka`'s `FromBytes` for `str`, the
/// conversion behind `Message::payload_view::<str>`. Its source is one call
/// of `str::from_utf8`: the answer is `Some` exactly for well-formed UTF-8,
/// and the text is then the decoding of the bytes.
#[verifier::external_body]
fn payload_text(bytes: &Vec<u8>) -> (text: Option<String>)
    ensures
        text is Some <==> valid_utf8(bytes@),
        text matches Some(decoded) ==> decoded@ == decode_utf8(bytes@),
{
    match <str as rdkafka::message::FromBytes>::from_bytes(bytes.as_slice()) {
        Ok(decoded) => Some(decoded.to_owned()),
        Err(_) => None,
    }
}

/// The state and the action that set a message aside with `notice`.
fn publish(key: IdempotencyKey, notice: Notice) -> (result: (ConsumerState, ConsumerAction))
    ensures
        (result.0@, result.1@) == publishing(key, notice),
{
    (ConsumerState::Publishing { key, notice }, ConsumerAction::Publish { key, notice })
}

/// Decides what follows a delivered message.
pub fn handle_message(delivery: Delivery) -> (result: (ConsumerState, ConsumerAction))
    ensures
        (result.0@, result.1@) == on_delivery(delivery@),
{
    let key = delivery.key();
    match delivery.payload {
        None => publish(
            key,
            Notice::DeadLetter(DeadLetterReason::Undeliverable(DeserializationError::NoPayload)),
        ),
        Some(bytes) => match payload_text(&bytes) {
            Some(text) => (ConsumerState::Parsing { key }, ConsumerAction::Parse(text)),
            None => publish(
                key,
                Notice::DeadLetter(
                    DeadLetterReason::Undeliverable(DeserializationError::InvalidEncoding),
                ),
            ),
        },
    }
}

/// Decides what follows an attempt of the settlement engine on `request`.
pub fn handle_outcome(
    key: IdempotencyKey,
    request: Transaction,
    failures: u32,
    outcome: SettlementOutcome,
    policy: &RetryPolicy,
) -> (result: (ConsumerState, ConsumerAction))
    ensures
        (result.0@, result.1@) == on_attempt(key, request@, failures, outcome@, *policy),
{
    match outcome {
        SettlementOutcome::Settled(_) => (
            ConsumerState::Acknowledging { key },
            ConsumerAction::Acknowledge(key),
        ),
        SettlementOutcome::AlreadySettled => (
            ConsumerState::Acknowledging { key },
            ConsumerAction::Acknowledge(key),
        ),
        SettlementOutcome::Rejected(reason) => publish(key, Notice::Rejected(reason)),
        SettlementOutcome::Failed(error) => {
            let failed: u32 = if failures < u32::MAX {
                failures + 1
            } else {
                failures
            };
            match policy.decide(failed) {
                RetryDecision::RetryAfter(delay_ms) => {
                    let again = request.clone();
                    (
                        ConsumerState::Settling { key, request, failures: failed },
                        ConsumerAction::Settle { key, request: again, delay_ms },
                    )
                },
                RetryDecision::GiveUp => publish(
                    key,
                    Notice::DeadLetter(DeadLetterReason::Exhausted(error)),
                ),
            }
        },
    }
}

/// Takes the consumer from `state` through `event`: the next state, and the
/// action that the caller is to perform.
pub fn step(state: ConsumerState, event: ConsumerEvent, policy: &RetryPolicy) -> (result: (
    ConsumerState,
    ConsumerAction,
))
    ensures
        (result.0@, result.1@) == next(state@, event@, *policy),
{
    match (state, event) {
        (ConsumerState::Idle, ConsumerEvent::Poll) => (ConsumerState::Fetching, ConsumerAction::Fetch),
        (ConsumerState::Fetching, ConsumerEvent::Delivered(delivery)) => handle_message(delivery),
        (ConsumerState::Fetching, ConsumerEvent::FetchFailed) => (
            ConsumerState::Idle,
            ConsumerAction::Rest,
        ),
        (ConsumerState::Parsing { key }, ConsumerEvent::Parsed(Some(request))) => {
            let first = request.clone();
            (
                ConsumerState::Settling { key, request, failures: 0 },
                ConsumerAction::Settle { key, request: first, delay_ms: 0 },
            )
        },
        (ConsumerState::Parsing { key }, ConsumerEvent::Parsed(None)) => publish(
            key,
            Notice::DeadLetter(
                DeadLetterReason::Undeliverable(DeserializationError::MalformedPayload),
            ),
        ),
        (
            ConsumerState::Settling { key, request, failures },
            ConsumerEvent::Attempted(outcome),
        ) => handle_outcome(key, request, failures, outcome, policy),
        (ConsumerState::Publishing { key, notice }, ConsumerEvent::Published) => (
            ConsumerState::Acknowledging { key },
            ConsumerAction::Acknowledge(key),
        ),
        (ConsumerState::Acknowledging { key }, ConsumerEvent::Acknowledged) => (
            ConsumerState::Idle,
            ConsumerAction::Rest,
        ),
        (state, _) => (state, ConsumerAction::Rest),
    }
}

/// The rank of a phase in the cycle of one message.
pub open spec fn rank(phase: Phase) -> int {
    match phase {
        Phase::Idle => 0,
        Phase::Fetching => 1,
        Phase::Processing => 2,
        Phase::Acknowledging => 3,
    }
}

/// A message moves forward only: from idle to fetching, on to processing
/// and to acknowledging, and from there back to idle. A step never returns
/// to an earlier phase of the same message; the consumer is idle again only
/// after an acknowledgment, or after a fetch that brought nothing.
pub proof fn lemma_phases_in_order(
    state: ConsumerStateView,
    event: ConsumerEventView,
    policy: RetryPolicy,
)
    ensures
        ({
            let after = next(state, event, policy).0;
            ||| rank(after.phase()) >= rank(state.phase())
            ||| after == ConsumerStateView::Idle && (state is Acknowledging || state is Fetching)
        }),
        state is Idle ==> rank(next(state, event, policy).0.phase()) <= 1,
{
}

/// An acknowledgment is asked for in two situations only: the engine
/// reported the transfer settled (now or before), or the notice about the
/// message has been made known. It names the message in hand.
pub proof fn lemma_acknowledged_when_done(
    state: ConsumerStateView,
    event: ConsumerEventView,
    policy: RetryPolicy,
)
    requires
        next(state, event, policy).1 is Acknowledge,
    ensures
        ({
            let key = next(state, event, policy).1->Acknowledge_0;
            ||| state matches ConsumerStateView::Settling { key: held, .. } && held == key && (event
                matches ConsumerEventView::Attempted(outcome) && (outcome is Settled
                || outcome is AlreadySettled))
            ||| state matches ConsumerStateView::Publishing { key: held, .. } && held == key
                && event is Published
        }),
{
}

/// A failed attempt is never acknowledged. It is tried again with the same
/// key and the same request, one failure further and still short of the
/// policy's bound, or it goes to the dead letters with the failure as the
/// reason.
pub proof fn lemma_failure_retried_or_set_aside(
    key: IdempotencyKey,
    request: TransactionView,
    failures: u32,
    error: SettlementError,
    policy: RetryPolicy,
)
    ensures
        ({
            let state = ConsumerStateView::Settling { key, request, failures };
            let event = ConsumerEventView::Attempted(SettlementOutcomeView::Failed(error));
            let (after, action) = next(state, event, policy);
            ||| (exists|delay_ms: u64|
                {
                    &&& delay_ms <= policy.max_delay_ms
                    &&& #[trigger] is_retry(after, action, key, request, failures, delay_ms)
                    &&& failures + 1 < policy.max_attempts
                })
            ||| (after, action) == publishing(
                key,
                Notice::DeadLetter(DeadLetterReason::Exhausted(error)),
            ) && failures + 1 >= policy.max_attempts
        }),
{
    let state = ConsumerStateView::Settling { key, request, failures };
    let event = ConsumerEventView::Attempted(SettlementOutcomeView::Failed(error));
    let (after, action) = next(state, event, policy);
    crate::retry::lemma_retry_bounded(policy, one_more(failures) as nat);
    match decision(policy, one_more(failures) as nat) {
        RetryDecision::RetryAfter(delay_ms) => {
            assert(is_retry(after, action, key, request, failures, delay_ms));
        },
        RetryDecision::GiveUp => {},
    }
}

/// The state and action of a retry after `delay_ms`, one failure further.
pub open spec fn is_retry(
    after: ConsumerStateView,
    action: ConsumerActionView,
    key: IdempotencyKey,
    request: TransactionView,
    failures: u32,
    delay_ms: u64,
) -> bool {
    &&& after == ConsumerStateView::Settling { key, request, failures: (failures + 1) as u32 }
    &&& action == ConsumerActionView::Settle { key, request, delay_ms }
}

/// The engine is only ever handed the request that was read from the
/// message in hand, under the key of that message.
pub proof fn lemma_settle_under_message_key(
    state: ConsumerStateView,
    event: ConsumerEventView,
    policy: RetryPolicy,
)
    requires
        next(state, event, policy).1 is Settle,
    ensures
        ({
            let action = next(state, event, policy).1;
            ||| state matches ConsumerStateView::Parsing { key } && event
                == ConsumerEventView::Parsed(Some(action->Settle_request)) && action->Settle_key
                == key
            ||| state matches ConsumerStateView::Settling { key, request, .. } && action->Settle_key
                == key && action->Settle_request == request
        }),
{
}

} // verus!
