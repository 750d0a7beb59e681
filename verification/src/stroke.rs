//! Identifiers and clock stamps of signatures in the on-disk library.
use vstd::prelude::*;

use crate::text::{decimal, push_decimal};

verus! {

/// Stable identifier for a signature in the on-disk library.
#[derive(Debug, Clone, Copy, PartialEq, Eq, Hash, Structural)]
pub struct SignatureId(pub u64);

/// The system clock: `std::time::SystemTime`.
#[verifier::external_type_specification]
#[verifier::external_body]
pub struct ExSystemTime(std::time::SystemTime);

/// The error of a clock reading earlier than the epoch asked about.
#[verifier::external_type_specification]
#[verifier::external_body]
pub struct ExSystemTimeError(std::time::SystemTimeError);

/// Calls `std::time::SystemTime::now`. Nothing is claimed of the reading.
#[verifier::external_body]
fn system_time_now() -> std::time::SystemTime {
    std::time::SystemTime::now()
}

/// Calls `SystemTime::duration_since(UNIX_EPOCH)` on `t`. Nothing is claimed
/// of the result, which depends on the clock reading.
#[verifier::external_body]
fn since_unix_epoch(t: std::time::SystemTime) -> Result<std::time::Duration, std::time::SystemTimeError> {
    t.duration_since(std::time::UNIX_EPOCH)
}

/// Calls `Duration::as_nanos`. Nothing is claimed of the count.
#[verifier::external_body]
fn duration_as_nanos(d: std::time::Duration) -> u128 {
    d.as_nanos()
}

/// Calls `Duration::as_secs`. Nothing is claimed of the count.
#[verifier::external_body]
fn duration_as_secs(d: std::time::Duration) -> u64 {
    d.as_secs()
}

/// The stamp text for a clock reading of `secs` whole seconds since the Unix
/// epoch: `#` and the decimal count, `#0` when the clock read before it.
pub open spec fn stamp_text(secs: Option<u64>) -> Seq<char> {
    seq!['#'] + decimal(
        match secs {
            Some(n) => n as nat,
            None => 0nat,
        },
    )
}

/// The stamp for a clock reading of `secs` seconds since the Unix epoch
/// (`None` when the clock read before it).
pub fn stamp_label(secs: Option<u64>) -> (s: String)
    ensures
        s@ == stamp_text(secs),
{
    let mut s = String::new();
    s.append("#");
    proof {
        reveal_strlit("#");
        assert(s@ =~= seq!['#']);
    }
    let n = match secs {
        Some(n) => n,
        None => 0,
    };
    push_decimal(&mut s, n);
    s
}

/// A short stamp of the current time, `#` and the whole seconds since the
/// Unix epoch, used to name freshly drawn signatures. Nothing is stated of
/// the count, which is whatever the clock reads.
pub fn chrono_like_stamp() -> (s: String)
    ensures
        exists|secs: Option<u64>| s@ == stamp_text(secs),
{
    let secs = match since_unix_epoch(system_time_now()) {
        Ok(d) => Some(duration_as_secs(d)),
        Err(_) => None,
    };
    stamp_label(secs)
}

impl SignatureId {
    /// The id for a clock reading of `nanos` nanoseconds since the Unix
    /// epoch (its low 64 bits), or 0 when the clock read before the epoch.
    pub fn from_clock(nanos: Option<u128>) -> (id: Self)
        ensures
            id.0 == match nanos {
                Some(n) => n % 0x1_0000_0000_0000_0000,
                None => 0,
            },
    {
        match nanos {
            Some(n) => {
                let low = n as u64;
                proof {
                    assert(low == n % 0x1_0000_0000_0000_0000) by (bit_vector)
                        requires
                            low == n as u64,
                    ;
                }
                SignatureId(low)
            },
            None => SignatureId(0),
        }
    }

    /// An id from the system time in nanoseconds since the Unix epoch (its
    /// low 64 bits), or 0 when the clock reads before the epoch. Coarse but
    /// monotonic enough for human-scale signature creation.
    pub fn random() -> (id: Self) {
        let nanos = match since_unix_epoch(system_time_now()) {
            Ok(d) => Some(duration_as_nanos(d)),
            Err(_) => None,
        };
        Self::from_clock(nanos)
    }
}

} // verus!
