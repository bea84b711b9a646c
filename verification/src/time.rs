//! Points in time as plain values, and the two ways a modification time is
//! shown: as a fuzzy age, or as a breakdown of the time since the epoch.

use vstd::prelude::*;
use vstd::string::StringExecFns;
use crate::text::{decimal, push_decimal};
use std::time::{SystemTime, UNIX_EPOCH};

verus! {

/// Nanoseconds in one second.
pub const NANOS_PER_SEC: u32 = 1_000_000_000;

/// A point in time, held as its distance from the UNIX epoch and the side of
/// the epoch on which it lies.
#[derive(Clone, Copy, Debug, PartialEq, Eq)]
pub struct Timestamp {
    /// Whether the point lies before the epoch.
    pub before_epoch: bool,
    /// Whole seconds of the distance.
    pub secs: u64,
    /// Nanoseconds of the distance, on top of the whole seconds.
    pub nanos: u32,
}

impl View for Timestamp {
    type V = int;

    /// The point as a signed number of nanoseconds since the epoch.
    open spec fn view(&self) -> int {
        let distance = self.secs * NANOS_PER_SEC + self.nanos;
        if self.before_epoch {
            -distance
        } else {
            distance
        }
    }
}

/// A count with its unit, in the singular for one and the plural otherwise.
pub open spec fn counted(count: nat, unit: Seq<char>) -> Seq<char> {
    if count == 1 {
        decimal(count) + " "@ + unit
    } else {
        decimal(count) + " "@ + unit + "s"@
    }
}

/// The fuzzy age for a number of elapsed seconds: the largest unit that fits,
/// with months of 2629744 seconds and years of 31556926 seconds.
pub open spec fn fuzzy_text(seconds: nat) -> Seq<char> {
    if seconds == 0 {
        "now"@
    } else if seconds < 60 {
        counted(seconds, "second"@)
    } else if seconds < 3600 {
        counted(seconds / 60, "minute"@)
    } else if seconds < 86400 {
        counted(seconds / 3600, "hour"@)
    } else if seconds < 604800 {
        counted(seconds / 86400, "day"@)
    } else if seconds < 2629744 {
        counted(seconds / 604800, "week"@)
    } else if seconds < 31556926 {
        counted(seconds / 2629744, "month"@)
    } else {
        counted(seconds / 31556926, "year"@)
    }
}

/// The breakdown of a number of seconds since the epoch: the days modulo 365,
/// the hour of the day and the minute of the hour.
pub open spec fn epoch_text(seconds: nat) -> Seq<char> {
    decimal((seconds / 86400) % 365) + "d "@ + decimal((seconds % 86400) / 3600) + "h:"@ + decimal(
        (seconds % 3600) / 60,
    ) + "m"@
}

/// What is shown for a modification time `modified` when the present is
/// `now`, both in nanoseconds since the epoch.
///
/// Without `use_fuzzy` the text describes `modified` itself, not its age, and
/// `now` plays no part.
pub open spec fn duration_text(modified: int, now: int, use_fuzzy: bool) -> Seq<char> {
    if !use_fuzzy {
        if modified >= 0 {
            epoch_text((modified / (NANOS_PER_SEC as int)) as nat)
        } else {
            "unknown"@
        }
    } else if now < modified {
        "future"@
    } else {
        fuzzy_text(((now - modified) / (NANOS_PER_SEC as int)) as nat)
    }
}

impl Timestamp {
    /// The point as a signed number of nanoseconds since the epoch.
    pub fn offset(&self) -> (r: i128)
        ensures
            r == self@,
    {
        assert(self.secs * NANOS_PER_SEC <= u64::MAX * NANOS_PER_SEC) by (nonlinear_arith)
            requires
                self.secs <= u64::MAX,
                NANOS_PER_SEC >= 0,
        ;
        let distance: i128 = (self.secs as i128) * (NANOS_PER_SEC as i128) + (self.nanos as i128);
        if self.before_epoch {
            -distance
        } else {
            distance
        }
    }
}

/// `SystemTime::now`, as its distance from the epoch. The clock decides the
/// result, so nothing is claimed of it.
#[verifier::external_body]
fn current_time() -> Timestamp {
    match SystemTime::now().duration_since(UNIX_EPOCH) {
        Ok(d) => Timestamp { before_epoch: false, secs: d.as_secs(), nanos: d.subsec_nanos() },
        Err(e) => Timestamp {
            before_epoch: true,
            secs: e.duration().as_secs(),
            nanos: e.duration().subsec_nanos(),
        },
    }
}

/// Appends `count` and `unit` to `out`, the unit in the plural unless the
/// count is one.
fn push_counted(out: &mut String, count: u128, unit: &str)
    ensures
        final(out)@ == old(out)@ + counted(count as nat, unit@),
{
    push_decimal(out, count);
    out.append(" ");
    out.append(unit);
    if count != 1 {
        out.append("s");
    }
}

/// The fuzzy age for `seconds` elapsed seconds.
pub fn format_elapsed(seconds: u128) -> (r: String)
    ensures
        r@ == fuzzy_text(seconds as nat),
{
    let mut r = String::new();
    if seconds == 0 {
        r.append("now");
    } else if seconds < 60 {
        push_counted(&mut r, seconds, "second");
    } else if seconds < 3600 {
        push_counted(&mut r, seconds / 60, "minute");
    } else if seconds < 86400 {
        push_counted(&mut r, seconds / 3600, "hour");
    } else if seconds < 604800 {
        push_counted(&mut r, seconds / 86400, "day");
    } else if seconds < 2629744 {
        push_counted(&mut r, seconds / 604800, "week");
    } else if seconds < 31556926 {
        push_counted(&mut r, seconds / 2629744, "month");
    } else {
        push_counted(&mut r, seconds / 31556926, "year");
    }
    r
}

/// The breakdown of `seconds` seconds since the epoch.
pub fn format_epoch_seconds(seconds: u128) -> (r: String)
    ensures
        r@ == epoch_text(seconds as nat),
{
    let mut r = String::new();
    push_decimal(&mut r, (seconds / 86400) % 365);
    r.append("d ");
    push_decimal(&mut r, (seconds % 86400) / 3600);
    r.append("h:");
    push_decimal(&mut r, (seconds % 3600) / 60);
    r.append("m");
    r
}

/// What is shown for the modification time `modified_time` when the present
/// is `now`.
pub fn format_duration_at(modified_time: Timestamp, now: Timestamp, use_fuzzy: bool) -> (r: String)
    ensures
        r@ == duration_text(modified_time@, now@, use_fuzzy),
{
    let modified = modified_time.offset();
    if !use_fuzzy {
        if modified >= 0 {
            format_epoch_seconds((modified / (NANOS_PER_SEC as i128)) as u128)
        } else {
            "unknown".to_owned()
        }
    } else {
        let present = now.offset();
        if present < modified {
            "future".to_owned()
        } else {
            format_elapsed(((present - modified) / (NANOS_PER_SEC as i128)) as u128)
        }
    }
}

/// What is shown for the modification time `modified_time` at the moment of
/// the call. The clock is read only when `use_fuzzy` is set.
pub fn format_duration_since(modified_time: Timestamp, use_fuzzy: bool) -> (r: String)
    ensures
        exists|now: int| r@ == duration_text(modified_time@, now, use_fuzzy),
        !use_fuzzy ==> r@ == duration_text(modified_time@, 0, false),
{
    if use_fuzzy {
        let now = current_time();
        let r = format_duration_at(modified_time, now, true);
        assert(r@ == duration_text(modified_time@, now@, use_fuzzy));
        r
    } else {
        let r = format_duration_at(modified_time, modified_time, false);
        assert(r@ == duration_text(modified_time@, 0, use_fuzzy));
        r
    }
}

/// A fuzzy age depends on the whole seconds between the two moments alone,
/// and a modification time that lies after the present is shown as
/// `future`, however far ahead it lies.
pub proof fn lemma_fuzzy_age(modified: int, now: int, other_modified: int, other_now: int)
    ensures
        now < modified ==> duration_text(modified, now, true) == "future"@,
        now >= modified ==> duration_text(modified, now, true) == fuzzy_text(
            ((now - modified) / (NANOS_PER_SEC as int)) as nat,
        ),
        now >= modified && other_now >= other_modified && (now - modified) / (NANOS_PER_SEC as int)
            == (other_now - other_modified) / (NANOS_PER_SEC as int) ==> duration_text(
            modified,
            now,
            true,
        ) == duration_text(other_modified, other_now, true),
{
}

} // verus!
