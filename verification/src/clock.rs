use vstd::prelude::*;
use crate::text::{decimal, decimal_string};

verus! {

/// A local date and time without time zone (`chrono::NaiveDateTime`), as seconds and
/// nanoseconds since 1970-01-01T00:00:00 on the same clock.
#[derive(Clone, Copy)]
pub struct Timestamp {
    pub secs: i64,
    pub nanos: u32,
}

/// What `NaiveDateTime::parse_from_str(value, format)` yields, as seconds and nanoseconds.
pub uninterp spec fn naive_parse(value: Seq<char>, format: Seq<char>) -> Option<(i64, u32)>;

/// What `DateTime::parse_from_rfc3339(value)` yields, as the instant's Unix seconds and
/// nanoseconds.
pub uninterp spec fn rfc3339_instant(value: Seq<char>) -> Option<(i64, u32)>;

/// The text of the date and time at these seconds and nanoseconds in a chrono format,
/// when chrono can represent that date and time.
pub uninterp spec fn naive_text(secs: i64, nanos: u32, format: Seq<char>) -> Option<Seq<char>>;

/// `chrono::NaiveDateTime::parse_from_str`: the date and time `value` spells in `format`.
/// The result is claimed to be named `naive_parse` of the two texts, nothing more.
#[verifier::external_body]
pub(crate) fn parse_naive(value: &str, format: &str) -> (r: Option<Timestamp>)
    ensures
        match r {
            Some(t) => naive_parse(value@, format@) == Some((t.secs, t.nanos)),
            None => naive_parse(value@, format@) is None,
        },
{
    match chrono::NaiveDateTime::parse_from_str(value, format) {
        Ok(dt) => Some(Timestamp { secs: dt.and_utc().timestamp(), nanos: dt.and_utc().timestamp_subsec_nanos() }),
        Err(_) => None,
    }
}

/// `chrono::DateTime::parse_from_rfc3339`: the instant `value` spells, as Unix seconds and
/// nanoseconds. The result is claimed to be named `rfc3339_instant` of the text.
#[verifier::external_body]
pub(crate) fn parse_rfc3339(value: &str) -> (r: Option<(i64, u32)>)
    ensures
        r == rfc3339_instant(value@),
{
    match chrono::DateTime::parse_from_rfc3339(value) {
        Ok(dt) => Some((dt.timestamp(), dt.timestamp_subsec_nanos())),
        Err(_) => None,
    }
}

/// Unix seconds of the dates chrono represents (from the start of year -262143, Unix time
/// -8,334,601,228,800, to the end of year 262142, Unix time 8,210,266,876,799), less the
/// first and the last day: a UTC offset, always under a day, keeps the local time in range.
pub open spec fn instant_in_range(secs: i64) -> bool {
    -8_334_601_142_401 <= secs <= 8_210_266_790_400
}

/// `t` is how the machine can read the instant `instant` in local time: nothing for no
/// instant or one out of range, something for an instant in range with nanoseconds under a
/// second, and any local time less than a day from the instant, with its nanoseconds.
pub open spec fn local_reading(instant: Option<(i64, u32)>, t: Option<Timestamp>) -> bool {
    match instant {
        None => t is None,
        Some((secs, n)) => {
            &&& !instant_in_range(secs) ==> t is None
            &&& instant_in_range(secs) && n < 1_000_000_000 ==> t is Some
            &&& t matches Some(u) ==> secs - 86_400 < u.secs < secs + 86_400 && u.nanos == n
        },
    }
}

/// `chrono::DateTime::from_timestamp` followed by `with_timezone(&Local)` and
/// `naive_local`: the local date and time of a Unix instant. Claimed: `from_timestamp`
/// succeeds for seconds in range and nanoseconds under a second; the local time is the
/// instant moved by the machine's UTC offset, which chrono keeps under a day, with the
/// nanoseconds unchanged. Which offset applies depends on the machine's time zone and is
/// not claimed. Seconds out of range are not admitted: near chrono's limits the offset can
/// push the local time out of range, and `naive_local` panics.
#[verifier::external_body]
pub(crate) fn local_from_instant(secs: i64, nanos: u32) -> (r: Option<Timestamp>)
    requires
        instant_in_range(secs),
    ensures
        nanos < 1_000_000_000 ==> r is Some,
        r matches Some(t) ==> secs - 86_400 < t.secs < secs + 86_400 && t.nanos == nanos,
{
    match chrono::DateTime::from_timestamp(secs, nanos) {
        Some(dt) => {
            let local = dt.with_timezone(&chrono::Local).naive_local().and_utc();
            Some(Timestamp { secs: local.timestamp(), nanos: local.timestamp_subsec_nanos() })
        },
        None => None,
    }
}

/// `chrono::Local::now`: the local date and time. Nothing is claimed of it.
#[verifier::external_body]
pub(crate) fn local_now() -> (r: Timestamp) {
    let now = chrono::Local::now().naive_local().and_utc();
    Timestamp { secs: now.timestamp(), nanos: now.timestamp_subsec_nanos() }
}

/// `NaiveDateTime::format`: the text of a date and time in a chrono format. The result
/// is claimed to be named `naive_text` of the two numbers and the format. Only the two
/// formats the library writes are admitted: a malformed format makes `to_string` panic.
#[verifier::external_body]
pub(crate) fn format_naive(t: Timestamp, format: &str) -> (r: Option<String>)
    requires
        format@ == "%Y-%m-%dT%H:%M:%S%.6f"@ || format@ == "%Y-%m-%d %H:%M"@,
    ensures
        match r {
            Some(s) => naive_text(t.secs, t.nanos, format@) == Some(s@),
            None => naive_text(t.secs, t.nanos, format@) is None,
        },
{
    match chrono::DateTime::from_timestamp(t.secs, t.nanos) {
        Some(dt) => Some(dt.naive_utc().format(format).to_string()),
        None => None,
    }
}

/// The local time of an instant, when there is one and it is in range.
pub fn local_time_of(instant: Option<(i64, u32)>) -> (r: Option<Timestamp>)
    ensures
        local_reading(instant, r),
{
    match instant {
        Some((secs, nanos)) => {
            if -8_334_601_142_401 <= secs && secs <= 8_210_266_790_400 {
                local_from_instant(secs, nanos)
            } else {
                None
            }
        },
        None => None,
    }
}

/// The formats tried after RFC 3339, in order.
pub open spec fn naive_format(k: int) -> Seq<char> {
    if k == 0 {
        "%Y-%m-%dT%H:%M:%S%.f"@
    } else if k == 1 {
        "%Y-%m-%d %H:%M:%S%.f"@
    } else if k == 2 {
        "%Y-%m-%dT%H:%M:%S"@
    } else {
        "%Y-%m-%d %H:%M:%S"@
    }
}

/// The first of the formats from `k` on that reads `value`.
pub open spec fn first_naive(value: Seq<char>, k: int) -> Option<(i64, u32)>
    decreases 4 - k,
{
    if k < 0 || k >= 4 {
        None
    } else {
        match naive_parse(value, naive_format(k)) {
            Some(t) => Some(t),
            None => first_naive(value, k + 1),
        }
    }
}

pub open spec fn ts_pair(t: Option<Timestamp>) -> Option<(i64, u32)> {
    match t {
        Some(t) => Some((t.secs, t.nanos)),
        None => None,
    }
}

fn naive_format_exec(k: usize) -> (r: &'static str)
    ensures
        r@ == naive_format(k as int),
{
    if k == 0 {
        "%Y-%m-%dT%H:%M:%S%.f"
    } else if k == 1 {
        "%Y-%m-%d %H:%M:%S%.f"
    } else if k == 2 {
        "%Y-%m-%dT%H:%M:%S"
    } else {
        "%Y-%m-%d %H:%M:%S"
    }
}

/// A date and time read from text: an RFC 3339 instant in local time, else the first of
/// four naive formats that reads the text. Which UTC offset the machine applies to an
/// RFC 3339 instant is not stated; `local_reading` bounds it.
pub fn parse_datetime(value: &str) -> (r: Option<Timestamp>)
    ensures
        match rfc3339_instant(value@) {
            Some(i) => local_reading(Some(i), r),
            None => ts_pair(r) == first_naive(value@, 0),
        },
{
    let instant = parse_rfc3339(value);
    if instant.is_some() {
        return local_time_of(instant);
    }
    let mut k: usize = 0;
    while k < 4
        invariant
            k <= 4,
            rfc3339_instant(value@) is None,
            first_naive(value@, 0) == first_naive(value@, k as int),
        decreases 4 - k,
    {
        match parse_naive(value, naive_format_exec(k)) {
            Some(t) => {
                return Some(t);
            },
            None => {},
        }
        k = k + 1;
    }
    None
}

/// The text a creation time is recorded with (`%Y-%m-%dT%H:%M:%S%.6f`).
pub open spec fn created_text_spec(t: Timestamp) -> Seq<char> {
    match naive_text(t.secs, t.nanos, "%Y-%m-%dT%H:%M:%S%.6f"@) {
        Some(s) => s,
        None => seq![],
    }
}

pub fn created_text(t: Timestamp) -> (r: String)
    ensures
        r@ == created_text_spec(t),
{
    match format_naive(t, "%Y-%m-%dT%H:%M:%S%.6f") {
        Some(s) => s,
        None => String::new(),
    }
}

/// How `wt clean` shows a creation time (`%Y-%m-%d %H:%M`), `N/A` when there is none.
pub open spec fn clean_time_spec(t: Option<Timestamp>) -> Seq<char> {
    match t {
        Some(t) => match naive_text(t.secs, t.nanos, "%Y-%m-%d %H:%M"@) {
            Some(s) => s,
            None => seq![],
        },
        None => "N/A"@,
    }
}

pub fn clean_time(t: Option<Timestamp>) -> (r: String)
    ensures
        r@ == clean_time_spec(t),
{
    match t {
        Some(t) => match format_naive(t, "%Y-%m-%d %H:%M") {
            Some(s) => s,
            None => String::new(),
        },
        None => String::from_str("N/A"),
    }
}

/// The local date and time now. What the clock reads is not stated.
pub fn local_time_now() -> (r: Timestamp) {
    local_now()
}

/// The text of the current local time, as creation times are recorded.
pub fn metadata_created_now() -> (r: String)
    ensures
        exists|t: Timestamp| r@ == created_text_spec(t),
{
    let t = local_now();
    created_text(t)
}

/// Division rounding toward zero, as `i64` division does.
pub open spec fn trunc_div(a: int, b: int) -> int {
    if a >= 0 {
        a / b
    } else {
        -((-a) / b)
    }
}

/// `now.signed_duration_since(then).num_seconds()`: whole seconds from `then` to `now`,
/// rounded toward zero.
pub open spec fn seconds_between(now: Timestamp, then: Timestamp) -> int {
    trunc_div((now.secs - then.secs) * 1_000_000_000 + (now.nanos - then.nanos), 1_000_000_000)
}

/// `get_relative_time`: how long ago `dt` was, seen at `now`.
pub open spec fn relative_time(dt: Option<Timestamp>, now: Timestamp) -> Seq<char> {
    match dt {
        None => "N/A"@,
        Some(t) => {
            let s = seconds_between(now, t);
            let days = trunc_div(s, 86400);
            if days < 0 {
                "just now"@
            } else if days == 0 {
                if s < 60 {
                    "just now"@
                } else if s < 3600 {
                    decimal((s / 60) as nat) + "m ago"@
                } else {
                    decimal((s / 3600) as nat) + "h ago"@
                }
            } else if days == 1 {
                "yesterday"@
            } else if days < 30 {
                decimal(days as nat) + "d ago"@
            } else if days < 365 {
                decimal((days / 30) as nat) + "mo ago"@
            } else {
                decimal((days / 365) as nat) + "y ago"@
            }
        },
    }
}

fn with_suffix(n: u64, suffix: &str) -> (r: String)
    ensures
        r@ == decimal(n as nat) + suffix@,
{
    let mut s = decimal_string(n);
    s.append(suffix);
    s
}

/// `get_relative_time`, seen at `now`.
pub fn get_relative_time(dt: Option<Timestamp>, now: Timestamp) -> (r: String)
    ensures
        r@ == relative_time(dt, now),
{
    let t = match dt {
        None => {
            return String::from_str("N/A");
        },
        Some(t) => t,
    };
    let ds: i128 = (now.secs as i128) - (t.secs as i128);
    let dn: i128 = (now.nanos as i128) - (t.nanos as i128);
    assert(-0x1_0000_0000_0000_0000 <= ds <= 0x1_0000_0000_0000_0000);
    assert(ds * 1_000_000_000 <= 0x1_0000_0000_0000_0000 * 1_000_000_000) by (nonlinear_arith)
        requires
            ds <= 0x1_0000_0000_0000_0000,
    ;
    assert(ds * 1_000_000_000 >= -0x1_0000_0000_0000_0000 * 1_000_000_000) by (nonlinear_arith)
        requires
            ds >= -0x1_0000_0000_0000_0000,
    ;
    let total: i128 = ds * 1_000_000_000 + dn;
    assert(-0x1_0000_0000_0000_0000 * 1_000_000_000 - 0x1_0000_0000 <= total);
    assert(total <= 0x1_0000_0000_0000_0000 * 1_000_000_000 + 0x1_0000_0000);
    let s: i128 = if total >= 0 {
        proof {
            vstd::arithmetic::div_mod::lemma_div_is_ordered(
                total as int,
                (0x1_0000_0000_0000_0000 * 1_000_000_000 + 0x1_0000_0000) as int,
                1_000_000_000,
            );
            assert((0x1_0000_0000_0000_0000 * 1_000_000_000 + 0x1_0000_0000) / 1_000_000_000
                == 0x1_0000_0000_0000_0004int);
        }
        total / 1_000_000_000
    } else {
        proof {
            vstd::arithmetic::div_mod::lemma_div_is_ordered(
                -total as int,
                (0x1_0000_0000_0000_0000 * 1_000_000_000 + 0x1_0000_0000) as int,
                1_000_000_000,
            );
            assert((0x1_0000_0000_0000_0000 * 1_000_000_000 + 0x1_0000_0000) / 1_000_000_000
                == 0x1_0000_0000_0000_0004int);
        }
        -((-total) / 1_000_000_000)
    };
    assert(s == seconds_between(now, t));
    let days: i128 = if s >= 0 {
        s / 86400
    } else {
        -((-s) / 86400)
    };
    assert(-0x1_0000_0000_0000_0004 <= s <= 0x1_0000_0000_0000_0004);
    if days < 0 {
        String::from_str("just now")
    } else if days == 0 {
        if s < 60 {
            String::from_str("just now")
        } else if s < 3600 {
            with_suffix((s / 60) as u64, "m ago")
        } else {
            with_suffix((s / 3600) as u64, "h ago")
        }
    } else if days == 1 {
        String::from_str("yesterday")
    } else if days < 30 {
        with_suffix(days as u64, "d ago")
    } else if days < 365 {
        with_suffix((days / 30) as u64, "mo ago")
    } else {
        with_suffix((days / 365) as u64, "y ago")
    }
}

/// How long ago `dt` was, seen now.
pub fn relative_time_now(dt: Option<Timestamp>) -> (r: String)
    ensures
        exists|now: Timestamp| r@ == relative_time(dt, now),
{
    let now = local_now();
    get_relative_time(dt, now)
}

/// The time of a worktree's last commit from what `git log -1 --format=%ct` printed: the
/// Unix time it gives, read in local time. Nothing when the command failed or printed no
/// whole number.
pub fn commit_time(log: &crate::git::CmdResult) -> (r: Option<Timestamp>)
    ensures
        log.status != 0 ==> r is None,
        log.status == 0 ==> match crate::text::parse_i64_spec(crate::text::trim(log.stdout@)) {
            Some(ts) => local_reading(Some((ts, 0u32)), r),
            None => r is None,
        },
{
    if log.status != 0 {
        return None;
    }
    match crate::text::parse_i64(&crate::text::trim_chars(&crate::text::chars_of(log.stdout.as_str()))) {
        Some(ts) => local_time_of(Some((ts, 0))),
        None => None,
    }
}

} // verus!
