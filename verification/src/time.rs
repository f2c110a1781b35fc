//! The timestamp enforcer: an NTP-disciplined cursor bounding the event
//! times a chain accepts, plus the clock access the rest of the store uses.
//!
//! The enforcer lints a `Timestamp` entry onto every outgoing event,
//! advances its cursor to the largest timestamp it has sunk, and rejects
//! events whose timestamp falls outside
//! `[cursor - tolerance, now + tolerance]`. Querying the NTP pool is I/O
//! and lives with the caller, who hands fresh samples in.
use vstd::prelude::*;
use crate::errors::TimeError;
use crate::errors::ValidationError;
use crate::meta::CoreMetadata;
use crate::meta::CoreMetadataV;
use crate::meta::Metadata;
use crate::meta::MetadataExt;
use crate::meta::MetaTimestamp;
use crate::meta::OtherMetadata;
use crate::meta::spec_needs_signature;
use crate::session::Session;

verus! {

/// Relies on std::time::SystemTime::now, read relative to the Unix epoch in
/// nanoseconds. The value depends on the wall clock: nothing is promised of
/// it, and a reading before the epoch is reported as zero.
#[verifier::external_body]
pub fn clock_nanos() -> (r: u64) {
    std::time::SystemTime::now()
        .duration_since(std::time::UNIX_EPOCH)
        .map(|d| d.as_nanos() as u64)
        .unwrap_or(0)
}

/// Milliseconds since the Unix epoch, by the local clock.
pub fn now_unix_ms() -> (r: u64) {
    clock_nanos() / 1_000_000
}

/// A 64-bit value for fresh keys and vectors, drawn from the clock. Nothing
/// is promised of it; distinctness is best-effort.
pub fn entropy64() -> (r: u64) {
    crate::crypto::mix64_exec(clock_nanos(), 0x6a09e667f3bcc909)
}

/// One answer from the NTP pool: the clock offset and the round trip of the
/// query, both in microseconds.
#[derive(Clone, Copy, Debug, PartialEq, Eq, Structural, Hash)]
pub struct NtpResult {
    pub offset_us: i64,
    pub roundtrip_us: u64,
}

impl NtpResult {
    pub fn offset(&self) -> (r: i64)
        ensures
            r == self.offset_us,
    {
        self.offset_us
    }

    pub fn roundtrip(&self) -> (r: u64)
        ensures
            r == self.roundtrip_us,
    {
        self.roundtrip_us
    }
}

/// Signed division by one thousand, rounding toward zero.
pub open spec fn spec_div1000(v: i64) -> int {
    if v >= 0 {
        v / 1000
    } else {
        0 - ((0 - v) / 1000)
    }
}

/// A clock reading adjusted by an NTP offset.
pub open spec fn spec_adjusted(now_ms: u64, offset_us: i64) -> int {
    now_ms + spec_div1000(offset_us)
}

/// A fresh NTP sample replaces the cached one only when its round trip is
/// within fifty milliseconds of the best ping observed.
pub fn ntp_should_replace(best_ping_ms: u32, ping_ms: u32) -> (r: bool)
    ensures
        r == (ping_ms < best_ping_ms + 50),
{
    (ping_ms as u64) < (best_ping_ms as u64) + 50
}

/// Bounds acceptable event times: a monotone cursor, a fixed tolerance and
/// the latest NTP sample.
#[derive(Clone, Debug)]
pub struct TimestampEnforcer {
    pub cursor_ms: u64,
    pub tolerance_ms: u64,
    pub ntp_pool: String,
    pub ntp_port: u32,
    pub ntp_result: NtpResult,
}

impl TimestampEnforcer {
    /// The cursor never falls below the tolerance, so the lower bound of
    /// the window never underflows; the offset stays negatable.
    pub open spec fn wf(&self) -> bool {
        &&& self.cursor_ms >= self.tolerance_ms
        &&& self.ntp_result.offset_us != i64::MIN
    }

    /// A fresh enforcer over an initial NTP sample. The caller owns the
    /// task that re-queries the pool and hands new samples to
    /// `update_ntp`.
    pub fn new(pool: String, port: u32, tolerance_ms: u32, ntp: NtpResult) -> (r: TimestampEnforcer)
        requires
            ntp.offset_us != i64::MIN,
        ensures
            r.wf(),
            r.cursor_ms == tolerance_ms,
            r.tolerance_ms == tolerance_ms,
            r.ntp_pool@ == pool@,
            r.ntp_port == port,
            r.ntp_result == ntp,
    {
        TimestampEnforcer {
            cursor_ms: tolerance_ms as u64,
            tolerance_ms: tolerance_ms as u64,
            ntp_pool: pool,
            ntp_port: port,
            ntp_result: ntp,
        }
    }

    /// Replaces the cached NTP sample.
    pub fn update_ntp(&mut self, ntp: NtpResult)
        requires
            ntp.offset_us != i64::MIN,
        ensures
            final(self).ntp_result == ntp,
            final(self).cursor_ms == old(self).cursor_ms,
            final(self).tolerance_ms == old(self).tolerance_ms,
            old(self).wf() ==> final(self).wf(),
    {
        self.ntp_result = ntp;
    }

    /// The cached clock offset in milliseconds.
    pub fn current_offset_ms(&self) -> (r: i64)
        requires
            self.ntp_result.offset_us != i64::MIN,
        ensures
            r == spec_div1000(self.ntp_result.offset_us),
    {
        let off = self.ntp_result.offset_us;
        if off >= 0 {
            ((off as u64) / 1000) as i64
        } else {
            let mag = ((0i64 - off) as u64) / 1000;
            0i64 - (mag as i64)
        }
    }

    /// The cached round trip in milliseconds.
    pub fn current_ping_ms(&self) -> (r: u64)
        ensures
            r == self.ntp_result.roundtrip_us / 1000,
    {
        self.ntp_result.roundtrip_us / 1000
    }

    /// The clock reading `now_ms` adjusted by the cached offset; fails when
    /// the adjustment leaves the representable range.
    pub fn current_timestamp_from(&self, now_ms: u64) -> (r: Result<u64, TimeError>)
        requires
            self.ntp_result.offset_us != i64::MIN,
        ensures
            r matches Ok(t) ==> t == now_ms + spec_div1000(self.ntp_result.offset_us),
            r is Err ==> (now_ms + spec_div1000(self.ntp_result.offset_us) < 0 || now_ms
                + spec_div1000(self.ntp_result.offset_us) > u64::MAX),
    {
        let off = self.current_offset_ms();
        if off >= 0 {
            let mag = off as u64;
            if now_ms <= u64::MAX - mag {
                Ok(now_ms + mag)
            } else {
                Err(TimeError::ClockFailed)
            }
        } else {
            let mag = (0i64 - off) as u64;
            if now_ms >= mag {
                Ok(now_ms - mag)
            } else {
                Err(TimeError::ClockFailed)
            }
        }
    }

    /// The adjusted time of the local clock, in milliseconds since the
    /// epoch. Whatever the clock read, the result is that reading adjusted
    /// by the cached offset.
    pub fn current_timestamp(&self) -> (r: Result<u64, TimeError>)
        requires
            self.ntp_result.offset_us != i64::MIN,
        ensures
            r matches Ok(t) ==> exists|now_ms: u64|
                t == #[trigger] spec_adjusted(now_ms, self.ntp_result.offset_us),
    {
        let now = now_unix_ms();
        let r = self.current_timestamp_from(now);
        proof {
            if r is Ok {
                assert(r->Ok_0 == spec_adjusted(now, self.ntp_result.offset_us));
            }
        }
        r
    }

    /// The first `Timestamp` entry of a header.
    pub fn get_timestamp<M: OtherMetadata>(meta: &MetadataExt<M>) -> (r: Option<MetaTimestamp>)
        ensures
            r == crate::meta::first_timestamp_from(crate::meta::core_view(meta.core@), 0),
    {
        let n = meta.core.len();
        let mut i: usize = 0;
        while i < n
            invariant
                i <= n,
                n == meta.core@.len(),
                crate::meta::first_timestamp_from(crate::meta::core_view(meta.core@), 0)
                    == crate::meta::first_timestamp_from(
                    crate::meta::core_view(meta.core@),
                    i as int,
                ),
            decreases n - i,
        {
            match &meta.core[i] {
                CoreMetadata::Timestamp(t) => {
                    proof {
                        assert(crate::meta::core_view(meta.core@)[i as int]
                            == CoreMetadataV::Timestamp(*t));
                    }
                    return Some(*t);
                },
                _ => {},
            }
            i = i + 1;
        }
        None
    }

    /// Linter: the entry to append to an outgoing header, carrying the
    /// adjusted clock reading.
    pub fn metadata_lint_event(&self, _meta: &Metadata, _session: &Session, now_ms: u64) -> (r:
        Result<Vec<CoreMetadata>, TimeError>)
        requires
            self.ntp_result.offset_us != i64::MIN,
        ensures
            r matches Ok(v) ==> crate::meta::core_view(v@) == seq![
                CoreMetadataV::Timestamp(
                    MetaTimestamp {
                        time_since_epoch_ms: (now_ms + spec_div1000(
                            self.ntp_result.offset_us,
                        )) as u64,
                    },
                ),
            ],
            r is Err ==> (now_ms + spec_div1000(self.ntp_result.offset_us) < 0 || now_ms
                + spec_div1000(self.ntp_result.offset_us) > u64::MAX),
    {
        let t = self.current_timestamp_from(now_ms)?;
        let mut ret: Vec<CoreMetadata> = Vec::new();
        ret.push(CoreMetadata::Timestamp(MetaTimestamp { time_since_epoch_ms: t }));
        proof {
            assert(crate::meta::core_view(ret@) =~= seq![
                CoreMetadataV::Timestamp(MetaTimestamp { time_since_epoch_ms: t }),
            ]);
        }
        Ok(ret)
    }

    /// Sink: advances the cursor to the largest timestamp observed.
    pub fn feed(&mut self, meta: &Metadata)
        ensures
            final(self).cursor_ms == (match meta.spec_timestamp() {
                Some(t) => if t.time_since_epoch_ms > old(self).cursor_ms {
                    t.time_since_epoch_ms
                } else {
                    old(self).cursor_ms
                },
                None => old(self).cursor_ms,
            }),
            final(self).cursor_ms >= old(self).cursor_ms,
            final(self).tolerance_ms == old(self).tolerance_ms,
            final(self).ntp_result == old(self).ntp_result,
            old(self).wf() ==> final(self).wf(),
    {
        if let Some(t) = TimestampEnforcer::get_timestamp(meta) {
            if t.time_since_epoch_ms > self.cursor_ms {
                self.cursor_ms = t.time_since_epoch_ms;
            }
        }
    }

    /// Validator: whether a header's timestamp lies in the accepted window
    /// `[cursor - tolerance, now + tolerance]`. A header without a
    /// timestamp is rejected when it needs a signature and ignored
    /// otherwise; an in-window timestamp is ignored too, since this
    /// validator never votes to allow on its own.
    pub fn validate(&self, meta: &Metadata, now_ms: u64) -> (r: Result<
        ValidationResult,
        ValidationError,
    >)
        requires
            self.wf(),
            now_ms + self.tolerance_ms <= u64::MAX,
        ensures
            match meta.spec_timestamp() {
                None => if spec_needs_signature(meta@) {
                    r == Err::<ValidationResult, ValidationError>(
                        ValidationError::Time(TimeError::NoTimestamp),
                    )
                } else {
                    r == Ok::<ValidationResult, ValidationError>(ValidationResult::Abstain)
                },
                Some(t) => {
                    let ts = t.time_since_epoch_ms;
                    if self.cursor_ms - self.tolerance_ms <= ts <= now_ms + self.tolerance_ms {
                        r == Ok::<ValidationResult, ValidationError>(ValidationResult::Abstain)
                    } else {
                        r == Err::<ValidationResult, ValidationError>(
                            ValidationError::Time(TimeError::OutOfBounds { timestamp_ms: ts }),
                        )
                    }
                },
            },
    {
        let time = match TimestampEnforcer::get_timestamp(meta) {
            Some(t) => t,
            None => {
                if meta.needs_signature() {
                    return Err(ValidationError::Time(TimeError::NoTimestamp));
                } else {
                    return Ok(ValidationResult::Abstain);
                }
            },
        };
        let ts = time.time_since_epoch_ms;
        let min_timestamp = self.cursor_ms - self.tolerance_ms;
        let max_timestamp = now_ms + self.tolerance_ms;
        if ts < min_timestamp || ts > max_timestamp {
            return Err(ValidationError::Time(TimeError::OutOfBounds { timestamp_ms: ts }));
        }
        Ok(ValidationResult::Abstain)
    }
}

impl Default for TimestampEnforcer {
    /// An enforcer over the public pool with a 200 ms tolerance and no
    /// sample yet; the caller hands real samples in as they arrive.
    fn default() -> (r: TimestampEnforcer)
        ensures
            r.wf(),
            r.tolerance_ms == 200,
            r.cursor_ms == 200,
    {
        TimestampEnforcer::new(
            "pool.ntp.org".to_owned(),
            123,
            200,
            NtpResult { offset_us: 0, roundtrip_us: 0 },
        )
    }
}

/// A validator's vote on one event.
#[derive(Clone, Copy, Debug, PartialEq, Eq, Structural)]
pub enum ValidationResult {
    Allow,
    Abstain,
}

} // verus!
