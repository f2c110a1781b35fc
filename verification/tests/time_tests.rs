use ate::errors::TimeError;
use ate::errors::ValidationError;
use ate::header::PrimaryKey;
use ate::meta::CoreMetadata;
use ate::meta::Metadata;
use ate::meta::MetaAuthorization;
use ate::meta::MetaTimestamp;
use ate::time::ntp_should_replace;
use ate::time::NtpResult;
use ate::time::TimestampEnforcer;
use ate::time::ValidationResult;

fn enforcer(tolerance_ms: u32, offset_us: i64) -> TimestampEnforcer {
    TimestampEnforcer::new(
        "pool.ntp.org".to_owned(),
        123,
        tolerance_ms,
        NtpResult {
            offset_us,
            roundtrip_us: 42_000,
        },
    )
}

fn stamped(ms: u64) -> Metadata {
    let mut meta = Metadata::for_data(PrimaryKey::new(1));
    meta.push_entry(CoreMetadata::Timestamp(MetaTimestamp {
        time_since_epoch_ms: ms,
    }));
    meta
}

#[test]
fn timestamps_inside_the_window_pass() {
    let mut e = enforcer(1_000, 0);
    // The cursor starts at the tolerance; feed advances it monotonically.
    assert_eq!(e.cursor_ms, 1_000);
    e.feed(&stamped(50_000));
    assert_eq!(e.cursor_ms, 50_000);
    e.feed(&stamped(40_000));
    assert_eq!(e.cursor_ms, 50_000);

    let now: u64 = 50_100;
    assert!(matches!(
        e.validate(&stamped(49_500), now),
        Ok(ValidationResult::Abstain)
    ));
    assert!(matches!(
        e.validate(&stamped(51_000), now),
        Ok(ValidationResult::Abstain)
    ));
}

#[test]
fn timestamps_outside_the_window_are_rejected() {
    let mut e = enforcer(1_000, 0);
    e.feed(&stamped(50_000));
    let now: u64 = 50_100;
    // Older than cursor - tolerance.
    assert!(matches!(
        e.validate(&stamped(48_999), now),
        Err(ValidationError::Time(TimeError::OutOfBounds {
            timestamp_ms: 48_999
        }))
    ));
    // Newer than now + tolerance.
    assert!(matches!(
        e.validate(&stamped(51_101), now),
        Err(ValidationError::Time(TimeError::OutOfBounds { .. }))
    ));
}

#[test]
fn missing_timestamps_fail_only_signed_headers() {
    let e = enforcer(1_000, 0);
    let plain = Metadata::for_data(PrimaryKey::new(2));
    assert!(matches!(
        e.validate(&plain, 10_000),
        Ok(ValidationResult::Abstain)
    ));
    let mut restricted = Metadata::for_data(PrimaryKey::new(3));
    restricted.push_entry(CoreMetadata::Authorization(MetaAuthorization {
        allow_read: Vec::new(),
        allow_write: vec![ate::crypto::AteHash::from_bytes(b"w")],
        implicit_authority: Vec::new(),
    }));
    assert!(matches!(
        e.validate(&restricted, 10_000),
        Err(ValidationError::Time(TimeError::NoTimestamp))
    ));
}

#[test]
fn clock_offsets_are_applied_in_milliseconds() {
    let e = enforcer(1_000, 2_000_000);
    assert_eq!(e.current_offset_ms(), 2_000);
    assert_eq!(e.current_ping_ms(), 42);
    assert_eq!(e.current_timestamp_from(10_000), Ok(12_000));

    let e = enforcer(1_000, -2_000_000);
    assert_eq!(e.current_offset_ms(), -2_000);
    assert_eq!(e.current_timestamp_from(10_000), Ok(8_000));
    // Adjusting below zero is refused rather than wrapped.
    assert!(matches!(
        e.current_timestamp_from(1_000),
        Err(TimeError::ClockFailed)
    ));
}

#[test]
fn fresh_ntp_samples_replace_only_near_the_best_ping() {
    assert!(ntp_should_replace(100, 100));
    assert!(ntp_should_replace(100, 149));
    assert!(!ntp_should_replace(100, 150));
    let mut e = enforcer(1_000, 0);
    e.update_ntp(NtpResult {
        offset_us: 5_000,
        roundtrip_us: 1_000,
    });
    assert_eq!(e.current_offset_ms(), 5);
}

#[test]
fn lint_attaches_the_adjusted_timestamp() {
    let e = enforcer(1_000, 3_000_000);
    let session = ate::session::Session::default();
    let extra =
        ate::pipeline::metadata_lint_event(&e, &session, 40_000).unwrap();
    assert_eq!(extra.len(), 1);
    assert!(matches!(
        extra[0],
        CoreMetadata::Timestamp(MetaTimestamp {
            time_since_epoch_ms: 43_000
        })
    ));
    // With an identity the author entry follows the timestamp.
    let mut session = ate::session::Session::default();
    session.add_identity(b"author@here.com".to_vec());
    let extra = ate::pipeline::metadata_lint_event(&e, &session, 40_000).unwrap();
    assert_eq!(extra.len(), 2);
    assert!(matches!(&extra[1], CoreMetadata::Author(a) if a == &b"author@here.com".to_vec()));
}
