//! Device liveness: a status derived from the time since the last recorded
//! activity, the refresh that records new activity, and the sweep decision.
use vstd::prelude::*;

use crate::text::{
    all_digits, decimal_value, digit_char, digit_value, digits_value, i64_to_text, int_text,
    is_digit, nat_text, parse_i64, parsed_i64,
};

verus! {

/// Default heartbeat interval, in seconds.
pub const HEARTBEAT_INTERVAL_SECONDS: i64 = 300;

/// Liveness of a device, recomputed on every evaluation.
#[derive(Debug, Clone, Copy, PartialEq, Eq, Structural)]
pub enum HeartbeatStatus {
    /// Last activity less than one and a half intervals ago.
    Active,
    /// Last activity between one and a half and two and a half intervals ago.
    Inactive,
    /// Last activity two and a half intervals ago or more, or none recorded.
    Dead,
}

/// Status of a device whose last activity was `elapsed_ms` milliseconds ago,
/// for a heartbeat interval of `interval_s` seconds.
pub open spec fn status_after(elapsed_ms: int, interval_s: int) -> HeartbeatStatus {
    if elapsed_ms < interval_s * 1500 {
        HeartbeatStatus::Active
    } else if elapsed_ms < interval_s * 2500 {
        HeartbeatStatus::Inactive
    } else {
        HeartbeatStatus::Dead
    }
}

/// Status of a device at time `now_ms`, given the stored last-activity
/// record, if any. A record that is not a timestamp counts as none.
pub open spec fn status_of(record: Option<Seq<char>>, now_ms: int, interval_s: int) -> HeartbeatStatus {
    match record {
        Some(v) => match parsed_i64(v) {
            Some(t) => status_after(now_ms - t, interval_s),
            None => HeartbeatStatus::Dead,
        },
        None => HeartbeatStatus::Dead,
    }
}

/// The view of an optional string.
pub open spec fn opt_view(s: Option<&str>) -> Option<Seq<char>> {
    match s {
        Some(v) => Some(v@),
        None => None,
    }
}

/// Expiration of a liveness record, in seconds: two and a half intervals,
/// rounded down, and held within the range of `u64`.
pub open spec fn record_ttl(interval_s: int) -> int {
    if interval_s <= 0 {
        0
    } else if interval_s * 5 / 2 > u64::MAX {
        u64::MAX as int
    } else {
        interval_s * 5 / 2
    }
}

/// The notification sent when a device comes back up.
pub open spec fn up_message(device: Seq<char>) -> Seq<char> {
    "🟢 "@ + device + " is now up"@
}

/// The notification sent when a device is found down.
pub open spec fn down_message(device: Seq<char>) -> Seq<char> {
    "🔴 "@ + device + " is DOWN ⚠️"@
}

impl HeartbeatStatus {
    /// Classifies an elapsed time against the heartbeat interval.
    pub fn from_elapsed(elapsed_ms: i128, interval_s: i64) -> (r: HeartbeatStatus)
        ensures
            r == status_after(elapsed_ms as int, interval_s as int),
    {
        if elapsed_ms < interval_s as i128 * 1500 {
            HeartbeatStatus::Active
        } else if elapsed_ms < interval_s as i128 * 2500 {
            HeartbeatStatus::Inactive
        } else {
            HeartbeatStatus::Dead
        }
    }

    /// Status at `now_ms` of a device whose stored record is `record`.
    pub fn from_record(record: Option<&str>, now_ms: i64, interval_s: i64) -> (r: HeartbeatStatus)
        ensures
            r == status_of(opt_view(record), now_ms as int, interval_s as int),
    {
        match record {
            Some(v) => match parse_i64(v) {
                Some(t) => HeartbeatStatus::from_elapsed(now_ms as i128 - t as i128, interval_s),
                None => HeartbeatStatus::Dead,
            },
            None => HeartbeatStatus::Dead,
        }
    }
}

/// What recording new activity of a device amounts to.
pub struct Refresh {
    /// The status before the activity was recorded.
    pub previous: HeartbeatStatus,
    /// The record to store: the current time in milliseconds, in decimal.
    pub record: String,
    /// How long the stored record lives, in seconds.
    pub ttl_seconds: u64,
    /// The "up" notification owed, present when the device was not active.
    pub announcement: Option<String>,
}

/// Expiration of a liveness record for a heartbeat interval of `interval_s`.
pub fn record_ttl_seconds(interval_s: i64) -> (r: u64)
    ensures
        r == record_ttl(interval_s as int),
{
    if interval_s <= 0 {
        0
    } else {
        let t: i128 = interval_s as i128 * 5 / 2;
        if t > u64::MAX as i128 {
            u64::MAX
        } else {
            t as u64
        }
    }
}

/// The notification that `device` is up again.
pub fn up_notification(device: &str) -> (r: String)
    ensures
        r@ == up_message(device@),
{
    let mut r = String::new();
    r.append("🟢 ");
    r.append(device);
    r.append(" is now up");
    r
}

/// The notification that `device` is down.
pub fn down_notification(device: &str) -> (r: String)
    ensures
        r@ == down_message(device@),
{
    let mut r = String::new();
    r.append("🔴 ");
    r.append(device);
    r.append(" is DOWN ⚠️");
    r
}

/// Records activity of `device` at `now_ms`: the status is computed from the
/// stored record before it is replaced, and an "up" notification is owed
/// whenever that status was not `Active`.
pub fn refresh(device: &str, record: Option<&str>, now_ms: i64, interval_s: i64) -> (r: Refresh)
    ensures
        r.previous == status_of(opt_view(record), now_ms as int, interval_s as int),
        r.record@ == int_text(now_ms as int),
        r.ttl_seconds == record_ttl(interval_s as int),
        match r.announcement {
            Some(a) => r.previous != HeartbeatStatus::Active && a@ == up_message(device@),
            None => r.previous == HeartbeatStatus::Active,
        },
{
    let previous = HeartbeatStatus::from_record(record, now_ms, interval_s);
    let announcement = if previous != HeartbeatStatus::Active {
        Some(up_notification(device))
    } else {
        None
    };
    Refresh {
        previous,
        record: i64_to_text(now_ms),
        ttl_seconds: record_ttl_seconds(interval_s),
        announcement,
    }
}

/// The "down" alert that a sweep owes for a device in status `status`:
/// present exactly when the device is `Inactive`.
pub fn sweep_alert(device: &str, status: HeartbeatStatus) -> (r: Option<String>)
    ensures
        match r {
            Some(a) => status == HeartbeatStatus::Inactive && a@ == down_message(device@),
            None => status != HeartbeatStatus::Inactive,
        },
{
    if status == HeartbeatStatus::Inactive {
        Some(down_notification(device))
    } else {
        None
    }
}

// ----------------------------------------------------------------------
// Laws
// ----------------------------------------------------------------------

proof fn lemma_digit_char(d: int)
    requires
        0 <= d < 10,
    ensures
        is_digit(digit_char(d)),
        digit_value(digit_char(d)) == d,
{
}

proof fn lemma_nat_text_digits(n: nat)
    ensures
        all_digits(nat_text(n)),
        digits_value(nat_text(n)) == n,
    decreases n,
{
    if n < 10 {
        lemma_digit_char(n as int);
        let s = nat_text(n);
        assert(s.drop_last() =~= Seq::<char>::empty());
        assert(digits_value(s.drop_last()) == 0);
        assert(s.last() == digit_char(n as int));
        assert(digits_value(s) == digit_value(s.last()));
    } else {
        lemma_nat_text_digits(n / 10);
        lemma_digit_char((n % 10) as int);
        let s = nat_text(n);
        assert(s.drop_last() =~= nat_text(n / 10));
        assert(s.last() == digit_char((n % 10) as int));
        assert((n / 10) * 10 + n % 10 == n);
        assert forall|i: int| 0 <= i < s.len() implies is_digit(s[i]) by {
            if i < s.len() - 1 {
                assert(s[i] == nat_text(n / 10)[i]);
            }
        }
    }
}

/// The decimal text of a timestamp reads back as that timestamp.
pub proof fn lemma_int_text_round_trip(n: i64)
    ensures
        parsed_i64(int_text(n as int)) == Some(n),
{
    if n < 0 {
        let s = int_text(n as int);
        lemma_nat_text_digits((-n) as nat);
        assert(s.drop_first() =~= nat_text((-n) as nat));
        assert(decimal_value(s) == Some(n as int));
    } else {
        let s = nat_text(n as nat);
        lemma_nat_text_digits(n as nat);
        assert(is_digit(s[0]));
        assert(decimal_value(s) == Some(n as int));
    }
}

/// Refreshing is not idempotent with respect to alerting: a device that is
/// not active owes an "up" notification on its first refresh, while a
/// second refresh less than one and a half intervals later finds it active
/// and owes none.
pub proof fn lemma_refresh_alerts_once(
    device: Seq<char>,
    record: Option<Seq<char>>,
    t1: i64,
    t2: i64,
    interval_s: i64,
)
    requires
        status_of(record, t1 as int, interval_s as int) != HeartbeatStatus::Active,
        t1 <= t2,
        t2 - t1 < interval_s * 1500,
    ensures
        status_of(Some(int_text(t1 as int)), t2 as int, interval_s as int)
            == HeartbeatStatus::Active,
{
    lemma_int_text_round_trip(t1);
}

/// A sweep writes nothing, so sweeps repeated while a device stays within
/// its inactive window each find it `Inactive` and each owe the alert.
pub proof fn lemma_sweep_repeats_alert(
    record: Seq<char>,
    last_ms: i64,
    t1: i64,
    t2: i64,
    interval_s: i64,
)
    requires
        parsed_i64(record) == Some(last_ms),
        interval_s * 1500 <= t1 - last_ms,
        t1 <= t2,
        t2 - last_ms < interval_s * 2500,
    ensures
        status_of(Some(record), t1 as int, interval_s as int) == HeartbeatStatus::Inactive,
        status_of(Some(record), t2 as int, interval_s as int) == HeartbeatStatus::Inactive,
{
}

} // verus!
