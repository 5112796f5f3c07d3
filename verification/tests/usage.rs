//! Run identities and usage records.
use ktesio_engine::budget::{assemble_usage_event, ingest_usage, ParsedUsage};
use ktesio_engine::error::{RegistryErrorOf, StoreErrorOf};
use ktesio_engine::usage::{
    RecordOutcome, RunId, RunNonces, UsageEvent, UsageTotals, UsageUpdateEvent, USAGE_SCHEMA_VERSION,
};

fn sample_event(sequence: u64) -> UsageEvent {
    UsageEvent {
        instance: "demo".to_string(),
        run_id: RunId::from_wire("run-1-0".to_string()),
        input_tokens: 10,
        output_tokens: 20,
        metering_source: "self-reported".to_string(),
        sequence,
        occurred_at: "2026-01-01T00:00:00Z".to_string(),
    }
}

#[test]
fn mint_produces_distinct_run_ids_even_back_to_back() {
    let mut nonces = RunNonces::new();
    let ids: Vec<RunId> = (0..1000)
        .map(|_| {
            let (nanos, nonce) = nonces.take(Some(1_700_000_000_000_000_000));
            RunId::mint(nanos, nonce)
        })
        .collect();
    let mut sorted: Vec<String> = ids.iter().map(|id| id.as_str().to_string()).collect();
    sorted.sort();
    sorted.dedup();
    assert_eq!(sorted.len(), ids.len(), "all minted run ids must be unique");
    assert!(ids[0].as_str().starts_with("run-"), "{}", ids[0].as_str());
    assert_eq!(ids[7].as_str(), "run-1700000000000000000-7");
}

#[test]
fn a_clock_before_the_epoch_shows_its_start() {
    let mut nonces = RunNonces::new();
    assert_eq!(nonces.take(None), (0, 0));
    assert_eq!(nonces.take(Some(5)), (5, 1));
    assert_eq!(nonces.take(None), (0, 2));
}

#[test]
fn identities_of_different_moments_differ_whatever_the_nonce() {
    assert_ne!(RunId::mint(1, 11), RunId::mint(11, 1));
    assert_ne!(RunId::mint(1, 0), RunId::mint(10, 0));
    assert_eq!(RunId::mint(u128::MAX, u64::MAX).as_str(),
        "run-340282366920938463463374607431768211455-18446744073709551615");
    assert_eq!(RunId::mint(0, 0).as_str(), "run-0-0");
}

#[test]
fn run_id_round_trips_through_wire_and_display() {
    let id = RunId::from_wire("run-42-7".to_string());
    assert_eq!(id.as_str(), "run-42-7");
    assert_eq!(RunId::mint(42, 7), id);
}

#[test]
fn total_tokens_sums_and_saturates() {
    assert_eq!(sample_event(1).total_tokens(), 30);
    let big = UsageEvent {
        input_tokens: u64::MAX,
        output_tokens: 5,
        ..sample_event(1)
    };
    assert_eq!(big.total_tokens(), u64::MAX, "saturating, never overflow");
}

#[test]
fn usage_totals_zero_and_sum() {
    let z = UsageTotals::zero();
    assert_eq!(z.input_tokens, 0);
    assert_eq!(z.output_tokens, 0);
    assert_eq!(z.total_tokens(), 0);
    let t = UsageTotals {
        input_tokens: 100,
        output_tokens: 250,
    };
    assert_eq!(t.total_tokens(), 350);
    assert_eq!(UsageTotals::default(), UsageTotals::zero());
}

#[test]
fn record_outcome_is_inserted_predicate() {
    assert!(RecordOutcome::Inserted.is_inserted());
    assert!(!RecordOutcome::DuplicateReplay.is_inserted());
}

#[test]
fn usage_update_event_carries_schema_version_and_round_trips() {
    let update = UsageUpdateEvent::new(sample_event(5));
    assert_eq!(update.schema_version, USAGE_SCHEMA_VERSION);
    assert_eq!(update.event, sample_event(5));
}

#[test]
fn only_a_newly_recorded_event_is_announced() {
    let announced = ingest_usage(sample_event(1), Ok(RecordOutcome::Inserted));
    assert_eq!(announced, Some(UsageUpdateEvent::new(sample_event(1))));
    assert_eq!(ingest_usage(sample_event(1), Ok(RecordOutcome::DuplicateReplay)), None);
    let broken = RegistryErrorOf::Store(StoreErrorOf::Backend("disk full".to_string()));
    assert_eq!(ingest_usage(sample_event(1), Err(broken)), None);
}

#[test]
fn a_parsed_report_becomes_an_event_of_its_run() {
    let parsed = ParsedUsage { input_tokens: 10, output_tokens: 20, sequence: 3 };
    let event = assemble_usage_event(
        &parsed,
        "demo",
        RunId::from_wire("run-1-0".to_string()),
        "self-reported",
        "2026-01-01T00:00:00Z".to_string(),
    );
    assert_eq!(event, sample_event(3));
}
