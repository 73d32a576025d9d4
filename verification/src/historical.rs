//! Daily cadence checks over bar open times, and the closure rule for
//! ISO-week buckets of daily bars.

use vstd::prelude::*;
use chrono::Datelike;
use crate::contracts::{timeframe_seconds, SessionCalendar, Timeframe};
use crate::text::{concat, push_text, text_eq};
use crate::readiness::{decimal, decimal_text};
use vstd::arithmetic::div_mod::{
    lemma_fundamental_div_mod, lemma_fundamental_div_mod_converse_div,
    lemma_fundamental_div_mod_converse_mod,
};

verus! {

/// One day in nanoseconds.
pub const DAY_NS: i64 = 86_400_000_000_000;

/// The one-millisecond slack of closed-interval providers, which encode a bar
/// ending at a boundary as `boundary - 1 ms`.
pub const INCLUSIVE_CLOSE_MILLISECOND_NS: i64 = 1_000_000;

/// Two consecutive bars whose open times are further apart, or closer, than
/// the cadence policy allows.
#[derive(Debug, Clone, PartialEq, Eq, Structural)]
pub struct CadenceAnomaly {
    pub previous_open_time_ns: i64,
    pub current_open_time_ns: i64,
    pub gap_ns: i64,
}

/// The accepted range of gaps between consecutive open times.
#[derive(Debug, Clone, Copy)]
pub struct CadencePolicy {
    pub minimum_gap_ns: i64,
    pub maximum_gap_ns: i64,
}

/// How a daily CSV is loaded.
#[derive(Debug, Clone, Copy, Default)]
pub struct HistoricalLoadPolicy {
    pub zero_volume_is_unavailable: bool,
    pub exclude_malformed_ohlc: bool,
}

/// The daily cadence of a session calendar.
pub open spec fn daily_cadence(calendar: SessionCalendar) -> CadencePolicy {
    match calendar {
        SessionCalendar::ContinuousUtc => CadencePolicy {
            minimum_gap_ns: DAY_NS,
            maximum_gap_ns: DAY_NS,
        },
        SessionCalendar::ExchangeSession => CadencePolicy {
            minimum_gap_ns: DAY_NS,
            maximum_gap_ns: (4 * DAY_NS) as i64,
        },
    }
}

impl CadencePolicy {
    /// Continuous markets trade every day; exchange sessions tolerate
    /// weekends and holidays of up to three missing days, which are reported,
    /// never resampled.
    pub fn daily(calendar: SessionCalendar) -> (r: Self)
        ensures
            r == daily_cadence(calendar),
    {
        match calendar {
            SessionCalendar::ContinuousUtc => CadencePolicy {
                minimum_gap_ns: DAY_NS,
                maximum_gap_ns: DAY_NS,
            },
            SessionCalendar::ExchangeSession => CadencePolicy {
                minimum_gap_ns: DAY_NS,
                maximum_gap_ns: DAY_NS * 4,
            },
        }
    }
}

/// Every gap between consecutive open times fits in an `i64`.
pub open spec fn gaps_fit(times: Seq<i64>) -> bool {
    forall|i: int|
        0 <= i && i + 1 < times.len() ==> i64::MIN <= #[trigger] times[i + 1] - times[i]
            <= i64::MAX
}

/// Whether a gap lies outside the policy's range.
pub open spec fn is_anomalous_gap(policy: CadencePolicy, gap: int) -> bool {
    gap < policy.minimum_gap_ns || gap > policy.maximum_gap_ns
}

/// The anomalies of a series of open times, in order: one for each
/// consecutive pair whose gap is anomalous.
pub open spec fn anomalies_of(times: Seq<i64>, policy: CadencePolicy) -> Seq<CadenceAnomaly>
    decreases times.len(),
{
    if times.len() < 2 {
        Seq::empty()
    } else {
        let earlier = anomalies_of(times.drop_last(), policy);
        let previous = times[times.len() - 2];
        let current = times.last();
        let gap = current - previous;
        if is_anomalous_gap(policy, gap) {
            earlier.push(
                CadenceAnomaly {
                    previous_open_time_ns: previous,
                    current_open_time_ns: current,
                    gap_ns: gap as i64,
                },
            )
        } else {
            earlier
        }
    }
}

/// Reports every consecutive pair of open times whose gap is outside the
/// policy's range, in series order.
pub fn cadence_anomalies(open_times: &[i64], policy: CadencePolicy) -> (r: Vec<CadenceAnomaly>)
    requires
        gaps_fit(open_times@),
    ensures
        r@ == anomalies_of(open_times@, policy),
{
    let n = open_times.len();
    let mut out: Vec<CadenceAnomaly> = Vec::new();
    if n < 2 {
        return out;
    }
    let mut i: usize = 1;
    assert(open_times@.subrange(0, 1).len() == 1);
    while i < n
        invariant
            n == open_times@.len(),
            1 <= i <= n,
            gaps_fit(open_times@),
            out@ == anomalies_of(open_times@.subrange(0, i as int), policy),
        decreases n - i,
    {
        let previous = open_times[i - 1];
        let current = open_times[i];
        assert(i64::MIN <= open_times@[(i - 1) + 1] - open_times@[i - 1] <= i64::MAX);
        let gap = current - previous;
        let ghost prefix = open_times@.subrange(0, i + 1);
        assert(prefix.drop_last() =~= open_times@.subrange(0, i as int));
        if gap < policy.minimum_gap_ns || gap > policy.maximum_gap_ns {
            out.push(
                CadenceAnomaly {
                    previous_open_time_ns: previous,
                    current_open_time_ns: current,
                    gap_ns: gap,
                },
            );
        }
        i = i + 1;
    }
    assert(open_times@.subrange(0, n as int) =~= open_times@);
    out
}

/// The open time of the Monday, 00:00 UTC, that starts the ISO week holding
/// `t`. 1970-01-01 was a Thursday, three days after a Monday.
pub open spec fn iso_week_start(t: int) -> int {
    let day = t / (DAY_NS as int);
    let weekday = (day + 3) % 7;
    (day - weekday) * (DAY_NS as int)
}

/// The start of the ISO week that holds the instant `timestamp_ns`, when it
/// can itself be written as nanoseconds in an `i64`.
pub fn iso_week_start_ns(timestamp_ns: i64) -> (r: Option<i64>)
    ensures
        r == (if iso_week_start(timestamp_ns as int) >= i64::MIN {
            Some(iso_week_start(timestamp_ns as int) as i64)
        } else {
            None
        }),
{
    // Shift by a whole number of weeks so that the division below is over
    // nonnegative values and keeps the weekday.
    let offset_days: i128 = 747_271;
    let day_ns: i128 = DAY_NS as i128;
    let shifted = timestamp_ns as i128 + offset_days * day_ns;
    let shifted_u = shifted as u128;
    let day_u = shifted_u / (DAY_NS as u128);
    let remainder_u = shifted_u % (DAY_NS as u128);
    let weekday_u = (day_u + 3) % 7;
    let day = day_u as i128 - offset_days;
    let weekday = weekday_u as i128;
    proof {
        let t = timestamp_ns as int;
        let d = DAY_NS as int;
        lemma_fundamental_div_mod(shifted_u as int, d);
        assert(t == (day as int) * d + remainder_u) by (nonlinear_arith)
            requires
                shifted_u as int == d * (day_u as int) + remainder_u,
                shifted_u as int == t + 747_271 * d,
                day as int == day_u as int - 747_271,
        ;
        lemma_fundamental_div_mod_converse_div(t, d, day as int, remainder_u as int);
        let a = day as int + 3;
        lemma_fundamental_div_mod(day_u as int + 3, 7);
        assert(a == ((day_u as int + 3) / 7 - 106_753) * 7 + weekday_u);
        lemma_fundamental_div_mod_converse_mod(a, 7, (day_u as int + 3) / 7 - 106_753, weekday_u as int);
        assert(-106752 <= day <= 106751) by (nonlinear_arith)
            requires
                day as int == t / 86_400_000_000_000,
                i64::MIN <= t <= i64::MAX,
        ;
    }
    let start = (day - weekday) * day_ns;
    if start < i64::MIN as i128 {
        None
    } else {
        Some(start as i64)
    }
}

/// Whether a weekly bucket of daily bars, given as (open, close) times in
/// nanoseconds, is known to be closed. A later week is proof enough; without
/// one, the last bar's close must reach the start of the next ISO week,
/// allowing the one-millisecond inclusive-close convention.
pub open spec fn weekly_bucket_closed(bars: Seq<(i64, i64)>, has_later_week: bool) -> bool {
    if bars.len() == 0 {
        false
    } else if has_later_week {
        true
    } else {
        let start = iso_week_start(bars[0].0 as int);
        let next = start + 7 * (DAY_NS as int);
        let last_close = bars.last().1 as int;
        let reach = if last_close + INCLUSIVE_CLOSE_MILLISECOND_NS > i64::MAX {
            i64::MAX as int
        } else {
            last_close + INCLUSIVE_CLOSE_MILLISECOND_NS
        };
        &&& start >= i64::MIN
        &&& next <= i64::MAX
        &&& reach >= next
    }
}

/// Decides whether a weekly bucket may be emitted as a closed bar.
pub fn weekly_bucket_is_closed(bars: &[(i64, i64)], has_later_week: bool) -> (r: bool)
    ensures
        r == weekly_bucket_closed(bars@, has_later_week),
{
    if bars.len() == 0 {
        return false;
    }
    if has_later_week {
        return true;
    }
    let first_open = bars[0].0;
    let next_week_start = match iso_week_start_ns(first_open) {
        Some(start) => start.checked_add(7 * DAY_NS),
        None => None,
    };
    match next_week_start {
        None => false,
        Some(next) => {
            let last_close = bars[bars.len() - 1].1;
            let reach = if last_close > i64::MAX - INCLUSIVE_CLOSE_MILLISECOND_NS {
                i64::MAX
            } else {
                last_close + INCLUSIVE_CLOSE_MILLISECOND_NS
            };
            reach >= next
        },
    }
}

/// Why bars could not be loaded or aggregated.
#[derive(Debug, Clone, PartialEq, Eq)]
pub enum HistoricalError {
    Csv(String),
    Io(String),
    MissingColumn(String),
    InvalidValue { row: usize, field: String, value: String },
    InvalidObservation { row: usize, message: String },
    NonIncreasing(usize),
    EmptyAggregation,
}

/// The text that describes a loading error.
pub open spec fn historical_error_text(e: HistoricalError) -> Seq<char> {
    match e {
        HistoricalError::Csv(m) => "CSV error: "@ + m@,
        HistoricalError::Io(m) => "I/O error: "@ + m@,
        HistoricalError::MissingColumn(c) => "missing required CSV column: "@ + c@,
        HistoricalError::InvalidValue { row, field, value } => "row "@ + decimal(row as nat)
            + ": invalid "@ + field@ + " value `"@ + value@ + "`"@,
        HistoricalError::InvalidObservation { row, message } => "row "@ + decimal(row as nat)
            + ": "@ + message@,
        HistoricalError::NonIncreasing(row) => "timestamps must be strictly increasing; failure at row "@
            + decimal(row as nat),
        HistoricalError::EmptyAggregation => "weekly aggregation requires at least one D1 bar"@,
    }
}

impl HistoricalError {
    /// Describes the error.
    pub fn message(&self) -> (r: String)
        ensures
            r@ == historical_error_text(*self),
    {
        match self {
            HistoricalError::Csv(m) => concat("CSV error: ", m.as_str()),
            HistoricalError::Io(m) => concat("I/O error: ", m.as_str()),
            HistoricalError::MissingColumn(c) => concat("missing required CSV column: ", c.as_str()),
            HistoricalError::InvalidValue { row, field, value } => {
                let mut out = concat("row ", decimal_text(*row).as_str());
                push_text(&mut out, ": invalid ");
                push_text(&mut out, field.as_str());
                push_text(&mut out, " value `");
                push_text(&mut out, value.as_str());
                push_text(&mut out, "`");
                out
            },
            HistoricalError::InvalidObservation { row, message } => {
                let mut out = concat("row ", decimal_text(*row).as_str());
                push_text(&mut out, ": ");
                push_text(&mut out, message.as_str());
                out
            },
            HistoricalError::NonIncreasing(row) => concat(
                "timestamps must be strictly increasing; failure at row ",
                decimal_text(*row).as_str(),
            ),
            HistoricalError::EmptyAggregation => "weekly aggregation requires at least one D1 bar".to_owned(),
        }
    }
}

/// An invalid-observation error at `row` with the given message.
pub open spec fn invalid_observation(e: HistoricalError, row: int, message: Seq<char>) -> bool {
    e matches HistoricalError::InvalidObservation { row: r, message: m } && r == row && m@ == message
}

/// Every bar is closed and of the given timeframe.
pub open spec fn all_closed_of(bars: Seq<(Timeframe, bool)>, timeframe: Timeframe) -> bool {
    forall|i: int| 0 <= i < bars.len() ==> (#[trigger] bars[i]).0 == timeframe && bars[i].1
}

/// What is wrong with a non-empty intraday series for aggregation into
/// `target` (M5, H1 or H4), if anything.
pub open spec fn batch_problem(bars: Seq<(Timeframe, bool)>, target: Timeframe) -> Option<Seq<char>> {
    if target == Timeframe::M5 {
        if all_closed_of(bars, Timeframe::M1) {
            None
        } else {
            Some("all input bars must be closed M1 bars"@)
        }
    } else if target == Timeframe::H1 {
        let source = bars[0].0;
        if source != Timeframe::M1 && source != Timeframe::M5 {
            Some("H1 aggregation requires M1 or M5 input bars"@)
        } else if all_closed_of(bars, source) {
            None
        } else {
            Some("all input bars must be closed and same timeframe"@)
        }
    } else if all_closed_of(bars, Timeframe::H1) {
        None
    } else {
        Some("all input bars must be closed H1 bars"@)
    }
}

/// How many input bars make one bar of `target`: five M1 bars an M5 bar,
/// sixty M1 or twelve M5 bars an H1 bar, four H1 bars an H4 bar.
pub open spec fn batch_size(source: Timeframe, target: Timeframe) -> usize {
    if target == Timeframe::M5 {
        5
    } else if target == Timeframe::H1 {
        if source == Timeframe::M1 {
            60
        } else {
            12
        }
    } else {
        4
    }
}

fn all_closed_of_exec(bars: &[(Timeframe, bool)], timeframe: Timeframe) -> (r: bool)
    ensures
        r == all_closed_of(bars@, timeframe),
{
    let n = bars.len();
    let mut i: usize = 0;
    while i < n
        invariant
            n == bars@.len(),
            i <= n,
            forall|k: int| 0 <= k < i ==> (#[trigger] bars@[k]).0 == timeframe && bars@[k].1,
        decreases n - i,
    {
        if !(bars[i].0 == timeframe && bars[i].1) {
            return false;
        }
        i = i + 1;
    }
    true
}

/// Checks an intraday series, given as (timeframe, closed) per bar, for
/// aggregation into `target`, and gives how many of its bars make one bar
/// of `target`. Consecutive full batches are aggregated; a trailing partial
/// batch is left out.
pub fn intraday_batch_size(bars: &[(Timeframe, bool)], target: Timeframe) -> (r: Result<
    usize,
    HistoricalError,
>)
    requires
        target == Timeframe::M5 || target == Timeframe::H1 || target == Timeframe::H4,
    ensures
        bars@.len() == 0 ==> r == Err::<usize, HistoricalError>(HistoricalError::EmptyAggregation),
        bars@.len() > 0 ==> match batch_problem(bars@, target) {
            Some(message) => r matches Err(e) && invalid_observation(e, 0, message),
            None => r == Ok::<usize, HistoricalError>(batch_size(bars@[0].0, target)),
        },
        r matches Ok(size) ==> size * timeframe_seconds(bars@[0].0) == timeframe_seconds(target),
{
    proof {
        if bars@.len() > 0 && batch_problem(bars@, target) is None {
            lemma_batch_spans_one_target_bar(bars@, target);
        }
    }
    if bars.len() == 0 {
        return Err(HistoricalError::EmptyAggregation);
    }
    match target {
        Timeframe::M5 => {
            if all_closed_of_exec(bars, Timeframe::M1) {
                Ok(5)
            } else {
                Err(HistoricalError::InvalidObservation {
                    row: 0,
                    message: "all input bars must be closed M1 bars".to_owned(),
                })
            }
        },
        Timeframe::H1 => {
            let source = bars[0].0;
            if source != Timeframe::M1 && source != Timeframe::M5 {
                Err(HistoricalError::InvalidObservation {
                    row: 0,
                    message: "H1 aggregation requires M1 or M5 input bars".to_owned(),
                })
            } else if all_closed_of_exec(bars, source) {
                Ok(
                    if source == Timeframe::M1 {
                        60
                    } else {
                        12
                    },
                )
            } else {
                Err(HistoricalError::InvalidObservation {
                    row: 0,
                    message: "all input bars must be closed and same timeframe".to_owned(),
                })
            }
        },
        _ => {
            if all_closed_of_exec(bars, Timeframe::H1) {
                Ok(4)
            } else {
                Err(HistoricalError::InvalidObservation {
                    row: 0,
                    message: "all input bars must be closed H1 bars".to_owned(),
                })
            }
        },
    }
}

/// What weekly aggregation reads of a daily bar.
#[derive(Debug, Clone, PartialEq, Eq)]
pub struct DailyBarHeader {
    pub instrument_id: String,
    pub source: String,
    pub timeframe: Timeframe,
    pub is_closed: bool,
    pub open_time_ns: i64,
    pub close_time_ns: i64,
}

/// What is wrong with daily bar `i` for weekly aggregation: 1 when it is not
/// a closed D1 bar, 2 when its instrument or source differs from the first
/// bar's, 3 when it does not open after the bar before it, 0 when nothing.
pub open spec fn bar_fault(bars: Seq<DailyBarHeader>, i: int) -> u8 {
    if !(bars[i].timeframe == Timeframe::D1 && bars[i].is_closed) {
        1
    } else if bars[i].instrument_id@ != bars[0].instrument_id@ || bars[i].source@ != bars[0].source@ {
        2
    } else if i > 0 && bars[i - 1].open_time_ns >= bars[i].open_time_ns {
        3
    } else {
        0
    }
}

/// The error reported for a fault at bar `i` (rows count from one).
pub open spec fn fault_error(e: HistoricalError, fault: u8, i: int) -> bool {
    &&& fault == 1 ==> invalid_observation(e, i + 1, "weekly aggregation requires closed D1 bars"@)
    &&& fault == 2 ==> invalid_observation(
        e,
        i + 1,
        "weekly aggregation cannot mix instrument or source authority"@,
    )
    &&& fault == 3 ==> e == HistoricalError::NonIncreasing((i + 1) as usize)
}

/// The (open, close) times of bars `start..end`.
pub open spec fn spans(bars: Seq<DailyBarHeader>, start: int, end: int) -> Seq<(i64, i64)> {
    bars.subrange(start, end).map_values(|b: DailyBarHeader| (b.open_time_ns, b.close_time_ns))
}

/// The runs of consecutive bars that share a week, as (start, end) ranges.
pub open spec fn week_runs(weeks: Seq<(i32, u32)>) -> Seq<(usize, usize)>
    decreases weeks.len(),
{
    if weeks.len() == 0 {
        Seq::empty()
    } else {
        let n = weeks.len();
        let earlier = week_runs(weeks.drop_last());
        if n == 1 || weeks[n - 1] != weeks[n - 2] {
            earlier.push(((n - 1) as usize, n as usize))
        } else {
            earlier.update(earlier.len() - 1, (earlier.last().0, n as usize))
        }
    }
}

/// The runs, in order, that are known to be closed weeks.
pub open spec fn closed_runs(
    bars: Seq<DailyBarHeader>,
    runs: Seq<(usize, usize)>,
    count: int,
) -> Seq<(usize, usize)>
    decreases runs.len(),
{
    if runs.len() == 0 {
        Seq::empty()
    } else {
        let j = runs.len() - 1;
        let run = runs[j];
        let earlier = closed_runs(bars, runs.drop_last(), count);
        if weekly_bucket_closed(spans(bars, run.0 as int, run.1 as int), j + 1 < count) {
            earlier.push(run)
        } else {
            earlier
        }
    }
}

proof fn lemma_week_runs_shape(weeks: Seq<(i32, u32)>)
    requires
        weeks.len() <= usize::MAX,
    ensures
        weeks.len() == 0 <==> week_runs(weeks).len() == 0,
        weeks.len() > 0 ==> week_runs(weeks).last().1 == weeks.len(),
        forall|k: int|
            0 <= k < week_runs(weeks).len() ==> (#[trigger] week_runs(weeks)[k]).0 < week_runs(
                weeks,
            )[k].1 <= weeks.len(),
    decreases weeks.len(),
{
    if weeks.len() > 0 {
        let n = weeks.len();
        lemma_week_runs_shape(weeks.drop_last());
        let earlier = week_runs(weeks.drop_last());
        if n == 1 || weeks[n - 1] != weeks[n - 2] {
        } else {
            assert forall|k: int| 0 <= k < week_runs(weeks).len() implies (#[trigger] week_runs(
                weeks,
            )[k]).0 < week_runs(weeks)[k].1 <= weeks.len() by {
                if k < earlier.len() - 1 {
                    assert(week_runs(weeks)[k] == earlier[k]);
                }
            }
        }
    }
}

/// Groups daily bars, given with the ISO week of each, into runs of one
/// week, and keeps the runs known to be closed: a later week closes an
/// earlier one; the last week closes when its bars reach the next Monday.
pub fn closed_week_runs(bars: &[DailyBarHeader], weeks: &[(i32, u32)]) -> (r: Vec<(usize, usize)>)
    requires
        bars@.len() == weeks@.len(),
    ensures
        r@ == closed_runs(bars@, week_runs(weeks@), week_runs(weeks@).len() as int),
{
    let n = weeks.len();
    let mut runs: Vec<(usize, usize)> = Vec::new();
    let mut i: usize = 0;
    while i < n
        invariant
            n == weeks@.len(),
            i <= n,
            runs@ == week_runs(weeks@.subrange(0, i as int)),
        decreases n - i,
    {
        let prefix = Ghost(weeks@.subrange(0, i + 1));
        assert(prefix@.drop_last() =~= weeks@.subrange(0, i as int));
        proof {
            lemma_week_runs_shape(weeks@.subrange(0, i as int));
        }
        if i == 0 || weeks[i].0 != weeks[i - 1].0 || weeks[i].1 != weeks[i - 1].1 {
            runs.push((i, i + 1));
        } else {
            let last = runs.len() - 1;
            let start = runs[last].0;
            runs.set(last, (start, i + 1));
        }
        i = i + 1;
    }
    assert(weeks@.subrange(0, n as int) =~= weeks@);
    proof {
        lemma_week_runs_shape(weeks@);
    }
    let count = runs.len();
    let mut out: Vec<(usize, usize)> = Vec::new();
    let mut j: usize = 0;
    while j < count
        invariant
            count == runs@.len(),
            runs@ == week_runs(weeks@),
            n == weeks@.len(),
            n == bars@.len(),
            j <= count,
            forall|k: int| 0 <= k < count ==> (#[trigger] runs@[k]).0 < runs@[k].1 <= n,
            out@ == closed_runs(bars@, runs@.subrange(0, j as int), count as int),
        decreases count - j,
    {
        let run = runs[j];
        let mut span: Vec<(i64, i64)> = Vec::new();
        let mut k: usize = run.0;
        while k < run.1
            invariant
                run == runs@[j as int],
                run.0 <= k <= run.1 <= bars@.len(),
                span@ == spans(bars@, run.0 as int, k as int),
            decreases run.1 - k,
        {
            span.push((bars[k].open_time_ns, bars[k].close_time_ns));
            assert(spans(bars@, run.0 as int, k + 1) =~= spans(bars@, run.0 as int, k as int).push(
                (bars@[k as int].open_time_ns, bars@[k as int].close_time_ns),
            ));
            k = k + 1;
        }
        let prefix = Ghost(runs@.subrange(0, j + 1));
        assert(prefix@.drop_last() =~= runs@.subrange(0, j as int));
        if weekly_bucket_is_closed(span.as_slice(), j + 1 < count) {
            out.push(run);
        }
        j = j + 1;
    }
    assert(runs@.subrange(0, count as int) =~= runs@);
    out
}

/// Checks daily bars for weekly aggregation: each must be a closed D1 bar of
/// the first bar's instrument and source, opening after the bar before it.
pub fn check_weekly_input(bars: &[DailyBarHeader]) -> (r: Result<(), HistoricalError>)
    ensures
        bars@.len() == 0 ==> r == Err::<(), HistoricalError>(HistoricalError::EmptyAggregation),
        bars@.len() > 0 ==> match r {
            Ok(()) => forall|i: int| 0 <= i < bars@.len() ==> #[trigger] bar_fault(bars@, i) == 0,
            Err(e) => exists|i: int|
                0 <= i < bars@.len() && (forall|j: int| 0 <= j < i ==> #[trigger] bar_fault(bars@, j) == 0)
                    && #[trigger] bar_fault(bars@, i) != 0 && fault_error(e, bar_fault(bars@, i), i),
        },
{
    let n = bars.len();
    if n == 0 {
        return Err(HistoricalError::EmptyAggregation);
    }
    let authority = &bars[0];
    let mut i: usize = 0;
    while i < n
        invariant
            n == bars@.len(),
            n > 0,
            i <= n,
            *authority == bars@[0],
            forall|j: int| 0 <= j < i ==> #[trigger] bar_fault(bars@, j) == 0,
        decreases n - i,
    {
        let bar = &bars[i];
        if !(bar.timeframe == Timeframe::D1 && bar.is_closed) {
            assert(bar_fault(bars@, i as int) == 1);
            return Err(HistoricalError::InvalidObservation {
                row: i + 1,
                message: "weekly aggregation requires closed D1 bars".to_owned(),
            });
        }
        if !text_eq(bar.instrument_id.as_str(), authority.instrument_id.as_str()) || !text_eq(
            bar.source.as_str(),
            authority.source.as_str(),
        ) {
            assert(bar_fault(bars@, i as int) == 2);
            return Err(HistoricalError::InvalidObservation {
                row: i + 1,
                message: "weekly aggregation cannot mix instrument or source authority".to_owned(),
            });
        }
        if i > 0 && bars[i - 1].open_time_ns >= bar.open_time_ns {
            assert(bar_fault(bars@, i as int) == 3);
            return Err(HistoricalError::NonIncreasing(i + 1));
        }
        assert(bar_fault(bars@, i as int) == 0);
        i = i + 1;
    }
    Ok(())
}

/// The day, counted from 1970-01-01, that an instant in nanoseconds since
/// the Unix epoch falls on, in UTC.
pub open spec fn day_of_instant(timestamp_ns: i64) -> int {
    timestamp_ns as int / DAY_NS as int
}

/// The proleptic Gregorian (year, month, day) of a day counted from
/// 1970-01-01, by 400-year eras of 146097 days with years taken from
/// March.
#[verifier::opaque]
pub open spec fn civil_from_days(days: int) -> (int, int, int) {
    let z = days + 719468;
    let era = z / 146097;
    let doe = z - era * 146097;
    let yoe = (doe - doe / 1460 + doe / 36524 - doe / 146096) / 365;
    let doy = doe - (365 * yoe + yoe / 4 - yoe / 100);
    let mp = (5 * doy + 2) / 153;
    let d = doy - (153 * mp + 2) / 5 + 1;
    let m = if mp < 10 {
        mp + 3
    } else {
        mp - 9
    };
    let y = yoe + era * 400 + if m <= 2 {
        1int
    } else {
        0int
    };
    (y, m, d)
}

/// The day, counted from 1970-01-01, of a proleptic Gregorian date.
#[verifier::opaque]
pub open spec fn days_from_civil(year: int, month: int, day: int) -> int {
    let y = if month <= 2 {
        year - 1
    } else {
        year
    };
    let era = y / 400;
    let yoe = y - era * 400;
    let mp = if month > 2 {
        month - 3
    } else {
        month + 9
    };
    let doy = (153 * mp + 2) / 5 + day - 1;
    let doe = yoe * 365 + yoe / 4 - yoe / 100 + doy;
    era * 146097 + doe - 719468
}

/// The ISO week, as (ISO year, week number), of an instant in nanoseconds
/// since the Unix epoch, in UTC: the week runs Monday to Sunday and belongs
/// to the year of its Thursday, and the weeks of a year are counted from
/// the one holding its first Thursday.
#[verifier::opaque]
pub open spec fn iso_week_of(timestamp_ns: i64) -> (i32, u32) {
    let days = day_of_instant(timestamp_ns);
    let weekday = (days + 3) % 7;
    let thursday = days - weekday + 3;
    let year = civil_from_days(thursday).0;
    (year as i32, ((thursday - days_from_civil(year, 1, 1)) / 7 + 1) as u32)
}

/// Trusted: chrono's `DateTime::<Utc>::from_timestamp_nanos(..).iso_week()`,
/// read as its year and week number, which is the ISO 8601 week of the
/// instant's UTC date in the proleptic Gregorian calendar.
#[verifier::external_body]
pub(crate) fn iso_week(timestamp_ns: i64) -> (r: (i32, u32))
    ensures
        r == iso_week_of(timestamp_ns),
{
    let week = chrono::DateTime::<chrono::Utc>::from_timestamp_nanos(timestamp_ns).iso_week();
    (week.year(), week.week())
}

/// Midnight UTC of the date that `text` spells in chrono's `format`, in
/// nanoseconds since the Unix epoch; nothing when the text is no such date
/// or the instant does not fit.
pub uninterp spec fn utc_midnight_of(text: Seq<char>, format: Seq<char>) -> Option<i64>;

/// Trusted: chrono's `NaiveDate::parse_from_str` with the given format,
/// taken at midnight UTC and read with `timestamp_nanos_opt`. The answer
/// depends on the text and the format alone.
#[verifier::external_body]
pub(crate) fn utc_midnight_ns(text: &str, format: &str) -> (r: Option<i64>)
    ensures
        r == utc_midnight_of(text@, format@),
{
    let day = chrono::NaiveDate::parse_from_str(text, format).ok()?;
    day.and_hms_opt(0, 0, 0)?.and_utc().timestamp_nanos_opt()
}

/// The ISO weeks of the bars' open times.
pub open spec fn weeks_of(bars: Seq<DailyBarHeader>) -> Seq<(i32, u32)> {
    bars.map_values(|b: DailyBarHeader| iso_week_of(b.open_time_ns))
}

/// Checks daily bars for weekly aggregation and gives the runs of bars that
/// form closed ISO weeks, in order; an in-progress last week is left out.
pub fn plan_weekly_aggregation(bars: &[DailyBarHeader]) -> (r: Result<Vec<(usize, usize)>, HistoricalError>)
    ensures
        bars@.len() == 0 ==> r == Err::<Vec<(usize, usize)>, HistoricalError>(HistoricalError::EmptyAggregation),
        bars@.len() > 0 ==> match r {
            Ok(runs) => {
                &&& forall|i: int| 0 <= i < bars@.len() ==> #[trigger] bar_fault(bars@, i) == 0
                &&& runs@ == closed_runs(
                    bars@,
                    week_runs(weeks_of(bars@)),
                    week_runs(weeks_of(bars@)).len() as int,
                )
            },
            Err(e) => exists|i: int|
                0 <= i < bars@.len() && (forall|j: int| 0 <= j < i ==> #[trigger] bar_fault(bars@, j) == 0)
                    && #[trigger] bar_fault(bars@, i) != 0 && fault_error(e, bar_fault(bars@, i), i),
        },
{
    match check_weekly_input(bars) {
        Err(e) => return Err(e),
        Ok(()) => {},
    }
    let n = bars.len();
    let mut weeks: Vec<(i32, u32)> = Vec::new();
    let mut i: usize = 0;
    while i < n
        invariant
            n == bars@.len(),
            i <= n,
            weeks@ =~= weeks_of(bars@.subrange(0, i as int)),
        decreases n - i,
    {
        weeks.push(iso_week(bars[i].open_time_ns));
        i = i + 1;
    }
    assert(bars@.subrange(0, n as int) =~= bars@);
    Ok(closed_week_runs(bars, weeks.as_slice()))
}

/// An intraday batch spans exactly one target bar: for every series that
/// may be aggregated into `target`, the batch size times the duration of a
/// source bar is the duration of a target bar (5 M1 bars make an M5 bar, 60
/// M1 or 12 M5 bars an H1 bar, 4 H1 bars an H4 bar).
pub proof fn lemma_batch_spans_one_target_bar(bars: Seq<(Timeframe, bool)>, target: Timeframe)
    requires
        target == Timeframe::M5 || target == Timeframe::H1 || target == Timeframe::H4,
        bars.len() > 0,
        batch_problem(bars, target) is None,
    ensures
        batch_size(bars[0].0, target) * timeframe_seconds(bars[0].0) == timeframe_seconds(target),
{
    assert(bars[0] == bars[0]);
    if target == Timeframe::M5 {
        assert(all_closed_of(bars, Timeframe::M1));
        assert(bars[0].0 == Timeframe::M1);
    } else if target == Timeframe::H4 {
        assert(all_closed_of(bars, Timeframe::H1));
        assert(bars[0].0 == Timeframe::H1);
    } else {
        let source = bars[0].0;
        assert(source == Timeframe::M1 || source == Timeframe::M5);
        if source == Timeframe::M1 {
            assert(batch_size(source, target) == 60);
        } else {
            assert(batch_size(source, target) == 12);
        }
    }
}

} // verus!
