//! The texts of the interface: times, totals, rows and the help line.
use vstd::prelude::*;

use chrono::TimeZone;

use crate::app::{tab_label, Tab};
use crate::config::KeyMap;
use crate::text::{
    decimal, padded_left, pad_left, push_char, push_decimal, push_signed_decimal, repeat_char,
    repeated, signed_decimal,
};

verus! {

/// The instants, in seconds since the epoch, that chrono represents: from
/// January 1st of year -262143 to the last second of December 31st, 262142
/// (`NaiveDate::MIN` and `NaiveDate::MAX`).
pub open spec fn utc_representable(secs: int) -> bool {
    -8334601228800 <= secs <= 8210266876799
}

/// Whole seconds from instant `then_secs` to instant `now_secs` plus
/// `now_nanos` nanoseconds, as chrono's `TimeDelta::num_seconds` counts them:
/// truncated toward zero.
pub open spec fn whole_seconds(now_secs: int, now_nanos: int, then_secs: int) -> int {
    let d = now_secs - then_secs;
    if d < 0 && now_nanos > 0 {
        d + 1
    } else {
        d
    }
}

/// Whether chrono can represent the instant `secs` seconds after the epoch:
/// calls `Utc.timestamp_opt(secs, 0)` and tests for a single result, which
/// `DateTime::from_timestamp` gives exactly for the days from `NaiveDate::MIN`
/// to `NaiveDate::MAX`.
#[verifier::external_body]
fn timestamp_exists(secs: i64) -> (b: bool)
    ensures
        b == utc_representable(secs as int),
{
    chrono::Utc.timestamp_opt(secs, 0).single().is_some()
}

/// The system clock's time type, carried opaquely.
#[verifier::external_type_specification]
#[verifier::external_body]
pub struct ExSystemTime(std::time::SystemTime);

/// Reads the system clock: std's `SystemTime::now`. Nothing is stated of
/// the reading.
#[verifier::external_body]
fn system_now() -> std::time::SystemTime {
    std::time::SystemTime::now()
}

/// Where `t` lies from the Unix epoch, by std's `t.duration_since(UNIX_EPOCH)`:
/// `Ok` with the time since the epoch, or `Err` with how long before it `t`
/// is (`SystemTimeError::duration`), each as whole seconds and the
/// nanoseconds past them, which std's `Duration::subsec_nanos` keeps below
/// one second.
#[verifier::external_body]
fn epoch_offset(t: &std::time::SystemTime) -> (r: Result<(u64, u32), (u64, u32)>)
    ensures
        match r {
            Ok(d) => d.1 < 1_000_000_000,
            Err(d) => d.1 < 1_000_000_000,
        },
{
    match t.duration_since(std::time::UNIX_EPOCH) {
        Ok(d) => Ok((d.as_secs(), d.subsec_nanos())),
        Err(e) => Err((e.duration().as_secs(), e.duration().subsec_nanos())),
    }
}

/// A clock reading as an instant: seconds since the epoch rounded down, and
/// the nanoseconds past them (as chrono turns a `SystemTime` into a
/// `DateTime<Utc>`, also before the epoch).
pub open spec fn clock_instant(r: Result<(u64, u32), (u64, u32)>) -> (int, int) {
    match r {
        Ok(d) => (d.0 as int, d.1 as int),
        Err(d) => if d.1 == 0 {
            (-(d.0 as int), 0)
        } else {
            (-(d.0 as int) - 1, 1_000_000_000 - d.1)
        },
    }
}

/// The instant of a clock reading, when chrono can represent it.
fn instant_of(r: Result<(u64, u32), (u64, u32)>) -> (now: Option<(i64, u32)>)
    requires
        match r {
            Ok(d) => d.1 < 1_000_000_000,
            Err(d) => d.1 < 1_000_000_000,
        },
    ensures
        utc_representable(clock_instant(r).0) ==> now == Some(
            (clock_instant(r).0 as i64, clock_instant(r).1 as u32),
        ),
        !utc_representable(clock_instant(r).0) ==> now is None,
{
    match r {
        Ok(d) => {
            if d.0 <= 8210266876799 {
                Some((d.0 as i64, d.1))
            } else {
                None
            }
        },
        Err(d) => {
            if d.1 == 0 {
                if d.0 <= 8334601228800 {
                    Some((0 - (d.0 as i64), 0))
                } else {
                    None
                }
            } else if d.0 < 8334601228800 {
                Some((0 - (d.0 as i64) - 1, 1_000_000_000 - d.1))
            } else {
                None
            }
        },
    }
}

/// Whole seconds from the instant `then_secs` to the instant `now_secs` plus
/// `now_nanos` nanoseconds, as chrono computes `(now - then).num_seconds()`:
/// the difference of two non-leap instants, truncated toward zero.
#[verifier::external_body]
fn seconds_between(now_secs: i64, now_nanos: u32, then_secs: i64) -> (d: i64)
    requires
        utc_representable(now_secs as int),
        utc_representable(then_secs as int),
        now_nanos < 1_000_000_000,
    ensures
        d == whole_seconds(now_secs as int, now_nanos as int, then_secs as int),
{
    let now = chrono::DateTime::from_timestamp(now_secs, now_nanos).unwrap();
    let then = chrono::Utc.timestamp_opt(then_secs, 0).unwrap();
    (now - then).num_seconds()
}

/// Whether `c` is an ASCII digit.
pub open spec fn is_digit(c: char) -> bool {
    '0' <= c && c <= '9'
}

/// The value of an ASCII digit.
pub open spec fn digit_value(c: char) -> int {
    c as int - '0' as int
}

/// Whether `s` is a two-digit number from `lo` to `hi`.
pub open spec fn two_digits_between(s: Seq<char>, lo: int, hi: int) -> bool {
    &&& s.len() == 2
    &&& is_digit(s[0])
    &&& is_digit(s[1])
    &&& lo <= 10 * digit_value(s[0]) + digit_value(s[1]) <= hi
}

/// A year as chrono's `%Y` writes it: four digits for the years 0 to 9999,
/// otherwise a sign and at least four digits.
pub open spec fn is_year_text(y: Seq<char>) -> bool {
    ||| y.len() == 4 && forall|i: int| 0 <= i < 4 ==> is_digit(#[trigger] y[i])
    ||| y.len() >= 5 && (y[0] == '+' || y[0] == '-') && forall|i: int|
        1 <= i < y.len() ==> is_digit(#[trigger] y[i])
}

/// A date as chrono's `%Y-%m-%d` writes it: year, two-digit month from 01 to
/// 12, two-digit day from 01 to 31.
pub open spec fn is_date_text(s: Seq<char>) -> bool {
    let n = s.len() as int;
    &&& n >= 10
    &&& is_year_text(s.take(n - 6))
    &&& s[n - 6] == '-'
    &&& two_digits_between(s.subrange(n - 5, n - 3), 1, 12)
    &&& s[n - 3] == '-'
    &&& two_digits_between(s.subrange(n - 2, n), 1, 31)
}

/// The offset from UTC, in seconds, of the machine's time zone at the
/// instant `secs`: chrono's `Local.offset_from_utc_datetime(..)` read with
/// `local_minus_utc`. Which offset depends on the machine; what holds of
/// every time zone is that chrono's `FixedOffset` stays within a day.
#[verifier::external_body]
fn local_offset(secs: i64) -> (o: i32)
    requires
        utc_representable(secs as int),
    ensures
        -86400 < o < 86400,
{
    let utc = chrono::DateTime::from_timestamp(secs, 0).unwrap().naive_utc();
    chrono::Local.offset_from_utc_datetime(&utc).local_minus_utc()
}

/// The text that chrono's `format("%Y-%m-%d")` gives for the instant `secs`
/// seen at the fixed offset `offset` (seconds east of UTC).
pub uninterp spec fn local_date_text(secs: i64, offset: i32) -> Seq<char>;

/// The calendar date of the instant `secs` at offset `offset`, as chrono
/// formats it with `%Y-%m-%d` after `with_timezone(&FixedOffset)`. The text
/// is named; of its form the contract states what chrono's `write_year`
/// (four zero-padded digits, or a sign and at least four digits outside 0 to
/// 9999) and two-digit month and day give.
#[verifier::external_body]
fn date_at_offset(secs: i64, offset: i32) -> (s: String)
    requires
        utc_representable(secs as int),
        -86400 < offset < 86400,
    ensures
        s@ == local_date_text(secs, offset),
        is_date_text(s@),
{
    let zone = chrono::FixedOffset::east_opt(offset).unwrap();
    let then = chrono::DateTime::from_timestamp(secs, 0).unwrap();
    then.with_timezone(&zone).format("%Y-%m-%d").to_string()
}

/// How long ago something happened `secs` seconds back: seconds under a
/// minute (a negative count too), then minutes, hours and days; nothing from
/// a week on, where a date is shown instead.
pub open spec fn ago_text(secs: int) -> Option<Seq<char>> {
    if secs < 60 {
        Some(signed_decimal(secs) + "s ago"@)
    } else if secs < 3600 {
        Some(decimal((secs / 60) as nat) + "m ago"@)
    } else if secs < 86400 {
        Some(decimal((secs / 3600) as nat) + "h ago"@)
    } else if secs < 604800 {
        Some(decimal((secs / 86400) as nat) + "d ago"@)
    } else {
        None
    }
}

/// The relative text for an age of `secs` seconds (see `ago_text`).
pub fn humanize_ago(secs: i64) -> (r: Option<String>)
    ensures
        opt_chars(r) == ago_text(secs as int),
{
    let mut s = String::new();
    if secs < 60 {
        push_signed_decimal(&mut s, secs);
        s.append("s ago");
    } else if secs < 3600 {
        push_decimal(&mut s, (secs / 60) as u128);
        s.append("m ago");
    } else if secs < 86400 {
        push_decimal(&mut s, (secs / 3600) as u128);
        s.append("h ago");
    } else if secs < 604800 {
        push_decimal(&mut s, (secs / 86400) as u128);
        s.append("d ago");
    } else {
        return None;
    }
    assert(s@ == ago_text(secs as int)->0);
    Some(s)
}

/// The characters of an optional string.
pub open spec fn opt_chars(o: Option<String>) -> Option<Seq<char>> {
    match o {
        Some(s) => Some(s@),
        None => None,
    }
}

/// `h` is the display of timestamp `ts` at the current time `now_secs` plus
/// `now_nanos` nanoseconds: `—` for a missing time (0 or less) or one chrono
/// cannot represent; the relative text of the elapsed whole seconds when
/// they are under a week; otherwise the date of `ts` at the offset of some
/// time zone (the machine's, which is not known here).
pub open spec fn humanized_at(ts: int, now_secs: int, now_nanos: int, h: Seq<char>) -> bool {
    if ts <= 0 || !utc_representable(ts) {
        h == "—"@
    } else {
        let d = whole_seconds(now_secs, now_nanos, ts);
        if d < 604800 {
            ago_text(d) == Some(h)
        } else {
            exists|o: i32|
                -86400 < o < 86400 && h == #[trigger] local_date_text(ts as i64, o) && is_date_text(h)
        }
    }
}

/// When `ts` happened, seen from the current time `now_secs` plus
/// `now_nanos` nanoseconds (see `humanized_at`): `—`, how long ago for less
/// than a week, the local date after that.
pub fn humanize_at(ts: i64, now_secs: i64, now_nanos: u32) -> (s: String)
    requires
        utc_representable(now_secs as int),
        now_nanos < 1_000_000_000,
    ensures
        humanized_at(ts as int, now_secs as int, now_nanos as int, s@),
{
    if ts <= 0 {
        return String::from_str("—");
    }
    if !timestamp_exists(ts) {
        return String::from_str("—");
    }
    let secs = seconds_between(now_secs, now_nanos, ts);
    match humanize_ago(secs) {
        Some(text) => text,
        None => {
            let offset = local_offset(ts);
            let s = date_at_offset(ts, offset);
            assert(-86400 < offset < 86400 && s@ == local_date_text((ts as int) as i64, offset)
                && is_date_text(s@));
            s
        },
    }
}

proof fn lemma_decimal_nonempty(n: nat)
    ensures
        decimal(n).len() >= 1,
    decreases n,
{
    if n >= 10 {
        lemma_decimal_nonempty(n / 10);
    }
}

/// Neither a relative text nor a date is the dash.
proof fn lemma_not_dash(d: int, h: Seq<char>)
    requires
        ago_text(d) == Some(h) || is_date_text(h),
    ensures
        h != "—"@,
{
    reveal_strlit("—");
    reveal_strlit("s ago");
    reveal_strlit("m ago");
    reveal_strlit("h ago");
    reveal_strlit("d ago");
    if ago_text(d) == Some(h) {
        if d < 0 {
            lemma_decimal_nonempty((-d) as nat);
        } else {
            lemma_decimal_nonempty(d as nat);
            lemma_decimal_nonempty((d / 60) as nat);
            lemma_decimal_nonempty((d / 3600) as nat);
            lemma_decimal_nonempty((d / 86400) as nat);
        }
        assert(h.len() > 1);
    }
}

/// The dash appears exactly for a missing or unrepresentable time: a
/// relative text or a date never reads `—`.
pub proof fn dash_only_for_missing_times(ts: int, now_secs: int, now_nanos: int, h: Seq<char>)
    requires
        humanized_at(ts, now_secs, now_nanos, h),
    ensures
        h == "—"@ <==> (ts <= 0 || !utc_representable(ts)),
{
    if ts > 0 && utc_representable(ts) {
        let d = whole_seconds(now_secs, now_nanos, ts);
        lemma_not_dash(d, h);
    }
}

/// `h` is what `humanize` shows for `ts` when the clock reads `now_secs`
/// plus `now_nanos` nanoseconds: `humanized_at`, except that a reading chrono
/// cannot represent (hundreds of thousands of years away) shows `—`.
pub open spec fn shown_at(ts: int, now_secs: int, now_nanos: int, h: Seq<char>) -> bool {
    if ts > 0 && utc_representable(ts) && !utc_representable(now_secs) {
        h == "—"@
    } else {
        humanized_at(ts, now_secs, now_nanos, h)
    }
}

/// `h` is what `humanize` shows for `ts` at some reading of the clock.
pub open spec fn shown(ts: int, h: Seq<char>) -> bool {
    exists|now_secs: int, now_nanos: int|
        0 <= now_nanos < 1_000_000_000 && shown_at(ts, now_secs, now_nanos, h)
}

/// When a listen or a fetch happened, for display, for a given reading of
/// the clock (as `epoch_offset` gives it): exactly `shown_at` at the instant
/// of that reading.
pub fn humanize_reading(ts: i64, reading: Result<(u64, u32), (u64, u32)>) -> (s: String)
    requires
        match reading {
            Ok(d) => d.1 < 1_000_000_000,
            Err(d) => d.1 < 1_000_000_000,
        },
    ensures
        ts <= 0 || !utc_representable(ts as int) ==> s@ == "—"@,
        shown_at(ts as int, clock_instant(reading).0, clock_instant(reading).1, s@),
{
    if ts <= 0 || !timestamp_exists(ts) {
        return String::from_str("—");
    }
    match instant_of(reading) {
        Some(now) => humanize_at(ts, now.0, now.1),
        None => String::from_str("—"),
    }
}

/// When a listen or a fetch happened, for display, at the time the clock
/// reads during the call (see `humanize_reading`). The clock is read only
/// for a time that is present and representable; a reading before 1970
/// counts as a negative time, as chrono counts it.
pub fn humanize(ts: i64) -> (s: String)
    ensures
        ts <= 0 || !utc_representable(ts as int) ==> s@ == "—"@,
        shown(ts as int, s@),
{
    if ts <= 0 || !timestamp_exists(ts) {
        let s = String::from_str("—");
        assert(shown_at(ts as int, 0, 0, s@));
        return s;
    }
    let reading = epoch_offset(&system_now());
    let s = humanize_reading(ts, reading);
    assert(shown_at(ts as int, clock_instant(reading).0, clock_instant(reading).1, s@));
    s
}

/// The "updated" segment of the status bar for the time of the last fetch
/// (0 when nothing was fetched yet) and a given reading of the clock:
/// ` updated: ` and what `humanize_reading` shows.
pub fn updated_label_at(fetched_at: i64, reading: Result<(u64, u32), (u64, u32)>) -> (s: String)
    requires
        match reading {
            Ok(d) => d.1 < 1_000_000_000,
            Err(d) => d.1 < 1_000_000_000,
        },
    ensures
        fetched_at <= 0 ==> s@ == " updated: —"@,
        fetched_at > 0 ==> exists|h: Seq<char>|
            s@ == " updated: "@ + h && shown_at(
                fetched_at as int,
                clock_instant(reading).0,
                clock_instant(reading).1,
                h,
            ),
{
    if fetched_at > 0 {
        let h = humanize_reading(fetched_at, reading);
        let s = crate::text::concat(" updated: ", h.as_str());
        assert(s@ == " updated: "@ + h@);
        s
    } else {
        String::from_str(" updated: —")
    }
}

/// The "updated" segment of the status bar at the time the clock reads
/// during the call (see `updated_label_at`); the clock is read only when
/// something was fetched.
pub fn updated_label(fetched_at: i64) -> (s: String)
    ensures
        fetched_at <= 0 ==> s@ == " updated: —"@,
        fetched_at > 0 ==> exists|h: Seq<char>| s@ == " updated: "@ + h && shown(fetched_at as int, h),
{
    if fetched_at > 0 {
        let reading = epoch_offset(&system_now());
        let s = updated_label_at(fetched_at, reading);
        let ghost h = choose|h: Seq<char>|
            s@ == " updated: "@ + h && shown_at(
                fetched_at as int,
                clock_instant(reading).0,
                clock_instant(reading).1,
                h,
            );
        assert(shown(fetched_at as int, h));
        s
    } else {
        String::from_str(" updated: —")
    }
}

/// The segment of the status bar that shows the status line: ` status `, or
/// nothing when the status line is empty.
pub fn status_segment(status: &str) -> (s: Option<String>)
    ensures
        status@.len() == 0 ==> s is None,
        status@.len() > 0 ==> opt_chars(s) == Some(" "@ + status@ + " "@),
{
    if status.unicode_len() == 0 {
        None
    } else {
        let mut s = crate::text::concat(" ", status);
        s.append(" ");
        Some(s)
    }
}

/// The release part of the now-playing line: `  · release`, or nothing.
pub fn release_suffix(release: &Option<String>) -> (s: String)
    ensures
        match release {
            Some(r) => s@ == "  · "@ + r@,
            None => s@.len() == 0,
        },
{
    match release {
        Some(r) => crate::text::concat("  · ", r.as_str()),
        None => String::new(),
    }
}

/// The total shown in the header: `N listens`, or `—` while it is unknown.
pub open spec fn total_text(total: Option<u64>) -> Seq<char> {
    match total {
        Some(n) => decimal(n as nat) + " listens"@,
        None => "—"@,
    }
}

/// The header's total.
pub fn total_label(total: Option<u64>) -> (s: String)
    ensures
        s@ == total_text(total),
{
    match total {
        Some(n) => {
            let mut s = String::new();
            push_decimal(&mut s, n as u128);
            s.append(" listens");
            s
        },
        None => String::from_str("—"),
    }
}

/// The help line of the status bar for the bindings `k`.
pub open spec fn help_text(k: KeyMap) -> Seq<char> {
    "    "@ + seq![k.quit] + " quit · "@ + seq![k.prev_tab] + "/"@ + seq![k.next_tab]
        + " tabs · "@ + seq![k.up] + "/"@ + seq![k.down] + " move · "@ + seq![k.top] + "/"@
        + seq![k.bottom] + " top/bot · "@ + seq![k.refresh] + " refresh · "@ + seq![
        k.toggle_range,
    ] + " range · ⏎ open  "@
}

/// The help line of the status bar.
pub fn help_line(k: &KeyMap) -> (s: String)
    ensures
        s@ == help_text(*k),
{
    let mut s = String::from_str("    ");
    push_char(&mut s, k.quit);
    s.append(" quit · ");
    push_char(&mut s, k.prev_tab);
    s.append("/");
    push_char(&mut s, k.next_tab);
    s.append(" tabs · ");
    push_char(&mut s, k.up);
    s.append("/");
    push_char(&mut s, k.down);
    s.append(" move · ");
    push_char(&mut s, k.top);
    s.append("/");
    push_char(&mut s, k.bottom);
    s.append(" top/bot · ");
    push_char(&mut s, k.refresh);
    s.append(" refresh · ");
    push_char(&mut s, k.toggle_range);
    s.append(" range · ⏎ open  ");
    assert(s@ =~= help_text(*k));
    s
}

/// The rank column of row `i` (counting from 0): the rank right-aligned in
/// two columns, then `. `.
pub open spec fn rank_text(i: nat) -> Seq<char> {
    padded_left(decimal(i + 1), 2) + ". "@
}

/// The rank column of row `i`.
pub fn rank_label(i: usize) -> (s: String)
    requires
        i < usize::MAX,
    ensures
        s@ == rank_text(i as nat),
{
    let mut digits = String::new();
    push_decimal(&mut digits, (i + 1) as u128);
    let mut s = pad_left(digits.as_str(), 2);
    s.append(". ");
    proof {
        assert(digits@ =~= decimal((i + 1) as nat));
    }
    s
}

/// The title of a list panel.
pub fn list_title(tab: Tab) -> (s: String)
    ensures
        s@ == " "@ + tab_label(tab) + " "@,
{
    let mut s = String::from_str(" ");
    s.append(tab.label());
    s.append(" ");
    s
}

/// The largest number in `s` (0 for none).
pub open spec fn seq_max(s: Seq<u64>) -> nat
    decreases s.len(),
{
    if s.len() == 0 {
        0
    } else if seq_max(s.drop_last()) >= s.last() {
        seq_max(s.drop_last())
    } else {
        s.last() as nat
    }
}

/// The count that a full bar stands for: the largest count, at least 1.
pub open spec fn bar_scale(counts: Seq<u64>) -> nat {
    if seq_max(counts) >= 1 {
        seq_max(counts)
    } else {
        1
    }
}

/// The bar scale is at least every count of the list, and is one of the
/// counts unless it is 1 (for an empty list or one of zeros).
pub proof fn bar_scale_is_largest_count(counts: Seq<u64>)
    ensures
        forall|i: int| 0 <= i < counts.len() ==> counts[i] <= bar_scale(counts),
        bar_scale(counts) == 1 || exists|i: int|
            0 <= i < counts.len() && counts[i] == bar_scale(counts),
        (forall|i: int| 0 <= i < counts.len() ==> counts[i] == 0) ==> bar_scale(counts) == 1,
{
    lemma_seq_max(counts);
}

proof fn lemma_seq_max(s: Seq<u64>)
    ensures
        forall|i: int| 0 <= i < s.len() ==> s[i] <= seq_max(s),
        s.len() == 0 ==> seq_max(s) == 0,
        s.len() > 0 ==> exists|i: int| 0 <= i < s.len() && s[i] == seq_max(s),
    decreases s.len(),
{
    if s.len() > 0 {
        let p = s.drop_last();
        lemma_seq_max(p);
        assert forall|i: int| 0 <= i < s.len() implies s[i] <= seq_max(s) by {
            if i < p.len() {
                assert(p[i] == s[i]);
            }
        }
        if p.len() == 0 {
            assert(s[0] == seq_max(s));
        } else if seq_max(p) >= s.last() {
            let k = choose|k: int| 0 <= k < p.len() && p[k] == seq_max(p);
            assert(s[k] == p[k]);
        } else {
            assert(s[s.len() - 1] == seq_max(s));
        }
    }
}

/// The largest of the listen counts of a list, at least 1.
pub fn max_listen_count(counts: &Vec<u64>) -> (m: u64)
    ensures
        m == bar_scale(counts@),
        forall|i: int| 0 <= i < counts@.len() ==> counts@[i] <= m,
        m == 1 || exists|i: int| 0 <= i < counts@.len() && counts@[i] == m,
{
    proof {
        bar_scale_is_largest_count(counts@);
    }
    let mut best: u64 = 0;
    let mut i: usize = 0;
    while i < counts.len()
        invariant
            i <= counts@.len(),
            best == seq_max(counts@.take(i as int)),
        decreases counts@.len() - i,
    {
        proof {
            assert(counts@.take(i + 1).drop_last() =~= counts@.take(i as int));
        }
        if counts[i] > best {
            best = counts[i];
        }
        i = i + 1;
    }
    assert(counts@.take(counts@.len() as int) =~= counts@);
    if best >= 1 {
        best
    } else {
        1
    }
}

/// The two parts of a bar of `width` cells with `filled` of them full
/// (at most `width`): `█` cells then `·` cells.
pub open spec fn bar_text(filled: nat, width: nat) -> (Seq<char>, Seq<char>) {
    let f = if filled <= width {
        filled
    } else {
        width
    };
    (repeated('█', f), repeated('·', (width - f) as nat))
}

/// A bar of `width` cells, `filled` of them full.
pub fn bar_strings(filled: usize, width: usize) -> (r: (String, String))
    ensures
        r.0@ == bar_text(filled as nat, width as nat).0,
        r.1@ == bar_text(filled as nat, width as nat).1,
        r.0@.len() + r.1@.len() == width,
{
    let f = if filled <= width {
        filled
    } else {
        width
    };
    (repeat_char('█', f), repeat_char('·', width - f))
}

} // verus!
