use settlement::consumer::{
    handle_message, handle_outcome, step, ConsumerAction, ConsumerEvent, ConsumerState,
    DeadLetterReason, Delivery, Notice, Phase,
};
use settlement::error::{
    DeserializationError, EnrichmentError, PersistenceError, SettlementError, ValidationError,
};
use settlement::retry::RetryPolicy;
use settlement::settlement::SettlementOutcome;
use settlement::transaction::{IdempotencyKey, LedgerEntry, Transaction};

fn rules() -> RetryPolicy {
    RetryPolicy { max_attempts: 3, base_delay_ms: 100, max_delay_ms: 150 }
}

fn position(offset: i64) -> IdempotencyKey {
    IdempotencyKey { partition: 2, offset }
}

fn message(offset: i64, payload: Option<&[u8]>) -> Delivery {
    Delivery { partition: 2, offset, payload: payload.map(|bytes| bytes.to_vec()) }
}

fn transfer() -> Transaction {
    Transaction { sender_id: "A".to_string(), recipient_id: "B".to_string(), amount: 2_000 }
}

fn settled() -> SettlementOutcome {
    SettlementOutcome::Settled(LedgerEntry {
        id: 1,
        sender_id: "A".to_string(),
        recipient_id: "B".to_string(),
        amount: 2_000,
        incentive: 200,
        timestamp: 0,
    })
}

fn settling(failures: u32) -> ConsumerState {
    ConsumerState::Settling { key: position(5), request: transfer(), failures }
}

fn dead(reason: DeadLetterReason) -> Notice {
    Notice::DeadLetter(reason)
}

#[test]
fn an_idle_consumer_fetches_on_poll() {
    assert_eq!(
        step(ConsumerState::Idle, ConsumerEvent::Poll, &rules()),
        (ConsumerState::Fetching, ConsumerAction::Fetch)
    );
}

#[test]
fn a_text_payload_is_handed_on_for_parsing() {
    let text = "{\"sender_id\":\"A\",\"recipient_id\":\"B\",\"amount\":20}";
    let result = step(
        ConsumerState::Fetching,
        ConsumerEvent::Delivered(message(5, Some(text.as_bytes()))),
        &rules(),
    );
    assert_eq!(
        result,
        (ConsumerState::Parsing { key: position(5) }, ConsumerAction::Parse(text.to_string()))
    );
}

#[test]
fn a_payload_of_several_bytes_per_character_is_decoded() {
    let bytes = [0xe2u8, 0x82, 0xb9, 0x31, 0x35, 0xc3, 0xa9];
    let (state, action) = handle_message(message(8, Some(&bytes)));
    assert_eq!(state, ConsumerState::Parsing { key: position(8) });
    assert_eq!(action, ConsumerAction::Parse("\u{20b9}15\u{e9}".to_string()));
}

#[test]
fn an_empty_payload_is_empty_text() {
    let (state, action) = handle_message(message(8, Some(&[])));
    assert_eq!(state, ConsumerState::Parsing { key: position(8) });
    assert_eq!(action, ConsumerAction::Parse(String::new()));
}

#[test]
fn a_payload_that_is_not_text_goes_to_the_dead_letters() {
    let notice = dead(DeadLetterReason::Undeliverable(DeserializationError::InvalidEncoding));
    for bytes in [&[0xffu8, 0xfe][..], &[0x7b, 0xc3][..], &[0xed, 0xa0, 0x80][..], &[0xc0, 0xaf][..]] {
        assert_eq!(
            handle_message(message(6, Some(bytes))),
            (
                ConsumerState::Publishing { key: position(6), notice },
                ConsumerAction::Publish { key: position(6), notice }
            )
        );
    }
}

#[test]
fn a_message_without_payload_goes_to_the_dead_letters() {
    let notice = dead(DeadLetterReason::Undeliverable(DeserializationError::NoPayload));
    assert_eq!(
        step(ConsumerState::Fetching, ConsumerEvent::Delivered(message(7, None)), &rules()),
        (
            ConsumerState::Publishing { key: position(7), notice },
            ConsumerAction::Publish { key: position(7), notice }
        )
    );
}

#[test]
fn a_failed_fetch_returns_to_idle() {
    assert_eq!(
        step(ConsumerState::Fetching, ConsumerEvent::FetchFailed, &rules()),
        (ConsumerState::Idle, ConsumerAction::Rest)
    );
}

#[test]
fn a_parsed_request_goes_to_the_engine_under_the_key_of_its_message() {
    assert_eq!(
        step(
            ConsumerState::Parsing { key: position(5) },
            ConsumerEvent::Parsed(Some(transfer())),
            &rules()
        ),
        (
            settling(0),
            ConsumerAction::Settle { key: position(5), request: transfer(), delay_ms: 0 }
        )
    );
}

#[test]
fn text_that_is_no_request_goes_to_the_dead_letters() {
    let notice = dead(DeadLetterReason::Undeliverable(DeserializationError::MalformedPayload));
    assert_eq!(
        step(ConsumerState::Parsing { key: position(5) }, ConsumerEvent::Parsed(None), &rules()),
        (
            ConsumerState::Publishing { key: position(5), notice },
            ConsumerAction::Publish { key: position(5), notice }
        )
    );
}

#[test]
fn a_settled_transfer_is_acknowledged() {
    assert_eq!(
        step(settling(0), ConsumerEvent::Attempted(settled()), &rules()),
        (
            ConsumerState::Acknowledging { key: position(5) },
            ConsumerAction::Acknowledge(position(5))
        )
    );
}

#[test]
fn a_transfer_settled_before_is_acknowledged() {
    assert_eq!(
        step(settling(1), ConsumerEvent::Attempted(SettlementOutcome::AlreadySettled), &rules()),
        (
            ConsumerState::Acknowledging { key: position(5) },
            ConsumerAction::Acknowledge(position(5))
        )
    );
}

#[test]
fn a_rejection_is_made_known_and_then_acknowledged() {
    let notice = Notice::Rejected(ValidationError::InsufficientBalance);
    let (state, action) = step(
        settling(0),
        ConsumerEvent::Attempted(SettlementOutcome::Rejected(ValidationError::InsufficientBalance)),
        &rules(),
    );
    assert_eq!(state, ConsumerState::Publishing { key: position(5), notice });
    assert_eq!(action, ConsumerAction::Publish { key: position(5), notice });
    assert_eq!(
        step(state, ConsumerEvent::Published, &rules()),
        (
            ConsumerState::Acknowledging { key: position(5) },
            ConsumerAction::Acknowledge(position(5))
        )
    );
}

#[test]
fn a_failure_is_retried_with_backoff_and_then_set_aside() {
    let policy = rules();
    let failure = SettlementError::Enrichment(EnrichmentError::Timeout);
    let (state, action) =
        step(settling(0), ConsumerEvent::Attempted(SettlementOutcome::Failed(failure)), &policy);
    assert_eq!(state, settling(1));
    assert_eq!(
        action,
        ConsumerAction::Settle { key: position(5), request: transfer(), delay_ms: 100 }
    );
    let (state, action) =
        step(state, ConsumerEvent::Attempted(SettlementOutcome::Failed(failure)), &policy);
    assert_eq!(state, settling(2));
    assert_eq!(
        action,
        ConsumerAction::Settle { key: position(5), request: transfer(), delay_ms: 150 }
    );
    let last = SettlementError::Persistence(PersistenceError::StoreUnavailable);
    let (state, action) =
        step(state, ConsumerEvent::Attempted(SettlementOutcome::Failed(last)), &policy);
    let notice = dead(DeadLetterReason::Exhausted(last));
    assert_eq!(state, ConsumerState::Publishing { key: position(5), notice });
    assert_eq!(action, ConsumerAction::Publish { key: position(5), notice });
    let (state, action) = step(state, ConsumerEvent::Published, &policy);
    assert_eq!(action, ConsumerAction::Acknowledge(position(5)));
    assert_eq!(
        step(state, ConsumerEvent::Acknowledged, &policy),
        (ConsumerState::Idle, ConsumerAction::Rest)
    );
}

#[test]
fn a_retry_that_succeeds_is_acknowledged() {
    let policy = rules();
    let failure = SettlementError::Persistence(PersistenceError::CommitFailed);
    let (state, _) =
        step(settling(0), ConsumerEvent::Attempted(SettlementOutcome::Failed(failure)), &policy);
    let (state, action) = step(state, ConsumerEvent::Attempted(settled()), &policy);
    assert_eq!(state, ConsumerState::Acknowledging { key: position(5) });
    assert_eq!(action, ConsumerAction::Acknowledge(position(5)));
}

#[test]
fn a_policy_of_one_attempt_sets_the_first_failure_aside() {
    let once = RetryPolicy { max_attempts: 1, base_delay_ms: 100, max_delay_ms: 150 };
    let failure = SettlementError::Enrichment(EnrichmentError::Unreachable);
    let notice = dead(DeadLetterReason::Exhausted(failure));
    assert_eq!(
        handle_outcome(position(5), transfer(), 0, SettlementOutcome::Failed(failure), &once),
        (
            ConsumerState::Publishing { key: position(5), notice },
            ConsumerAction::Publish { key: position(5), notice }
        )
    );
}

#[test]
fn the_count_of_failures_does_not_overflow() {
    let failure = SettlementError::Enrichment(EnrichmentError::Timeout);
    let forever = RetryPolicy { max_attempts: u32::MAX, base_delay_ms: 1, max_delay_ms: 1 };
    let notice = dead(DeadLetterReason::Exhausted(failure));
    assert_eq!(
        handle_outcome(position(5), transfer(), u32::MAX, SettlementOutcome::Failed(failure), &forever),
        (
            ConsumerState::Publishing { key: position(5), notice },
            ConsumerAction::Publish { key: position(5), notice }
        )
    );
}

#[test]
fn an_event_that_does_not_belong_changes_nothing() {
    let policy = rules();
    assert_eq!(
        step(ConsumerState::Idle, ConsumerEvent::Acknowledged, &policy),
        (ConsumerState::Idle, ConsumerAction::Rest)
    );
    assert_eq!(
        step(ConsumerState::Fetching, ConsumerEvent::Poll, &policy),
        (ConsumerState::Fetching, ConsumerAction::Rest)
    );
    assert_eq!(
        step(settling(1), ConsumerEvent::Published, &policy),
        (settling(1), ConsumerAction::Rest)
    );
    assert_eq!(
        step(settling(1), ConsumerEvent::Delivered(message(9, None)), &policy),
        (settling(1), ConsumerAction::Rest)
    );
    assert_eq!(
        step(ConsumerState::Acknowledging { key: position(5) }, ConsumerEvent::Attempted(settled()), &policy),
        (ConsumerState::Acknowledging { key: position(5) }, ConsumerAction::Rest)
    );
    assert_eq!(
        step(ConsumerState::Parsing { key: position(5) }, ConsumerEvent::Attempted(settled()), &policy),
        (ConsumerState::Parsing { key: position(5) }, ConsumerAction::Rest)
    );
}

#[test]
fn one_message_runs_from_fetch_to_acknowledgment() {
    let policy = rules();
    let (state, action) = step(ConsumerState::Idle, ConsumerEvent::Poll, &policy);
    assert_eq!(action, ConsumerAction::Fetch);
    let (state, action) =
        step(state, ConsumerEvent::Delivered(message(5, Some(b"{}"))), &policy);
    assert_eq!(action, ConsumerAction::Parse("{}".to_string()));
    let (state, action) = step(state, ConsumerEvent::Parsed(Some(transfer())), &policy);
    assert!(matches!(action, ConsumerAction::Settle { delay_ms: 0, .. }));
    let (state, action) = step(state, ConsumerEvent::Attempted(settled()), &policy);
    assert_eq!(action, ConsumerAction::Acknowledge(position(5)));
    let (state, action) = step(state, ConsumerEvent::Acknowledged, &policy);
    assert_eq!((state, action), (ConsumerState::Idle, ConsumerAction::Rest));
}

#[test]
fn the_key_of_a_message_is_its_position() {
    assert_eq!(message(41, None).key(), IdempotencyKey { partition: 2, offset: 41 });
}

#[test]
fn every_state_belongs_to_one_of_four_phases() {
    assert_eq!(ConsumerState::Idle.phase(), Phase::Idle);
    assert_eq!(ConsumerState::Fetching.phase(), Phase::Fetching);
    assert_eq!(ConsumerState::Parsing { key: position(1) }.phase(), Phase::Processing);
    assert_eq!(settling(2).phase(), Phase::Processing);
    assert_eq!(
        ConsumerState::Publishing {
            key: position(1),
            notice: Notice::Rejected(ValidationError::InvalidAmount)
        }
        .phase(),
        Phase::Acknowledging
    );
    assert_eq!(ConsumerState::Acknowledging { key: position(1) }.phase(), Phase::Acknowledging);
}
