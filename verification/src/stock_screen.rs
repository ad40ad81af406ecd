use vstd::prelude::*;

use crate::calendar::{date_before, date_lt, CivilDate};
use crate::normalize::{clean_text, clean_text_ok, hex_char, lower_text, normalize_sha256, normalize_us_ticker, upper_text, us_ticker_ok};
use crate::text::{same_text, trimmed};
use crate::error::{broken, conflict, invalid, invalid_field, outcome, Error, ErrorKind};
use crate::text::str_eq;

verus! {

/// Minimum share of the universe, in basis points, that must have prices.
pub const STOCK_SCREEN_MIN_COVERAGE_BPS: u32 = 9_800;

/// Fixed-point scale of returns: one unit is a millionth of the baseline.
pub const RETURN_SCALE: i128 = 1_000_000;

/// Largest number of members a stock universe holds.
pub const STOCK_SCREEN_MAX_MEMBERS: usize = 1_000;

/// Largest page of screen results.
pub const STOCK_SCREEN_MAX_PAGE_SIZE: u32 = 50;

/// Days of daily bars kept.
pub const STOCK_SCREEN_BAR_RETENTION_DAYS: i64 = 120;

/// Monthly spending cap of the daily stock report, in millionths of a dollar.
pub const STOCK_AI_MONTHLY_HARD_LIMIT_MICROUSD: u64 = 2_000_000;

/// Largest cost one daily stock report may reserve, in millionths of a dollar.
pub const STOCK_AI_MAXIMUM_COST_MICROUSD: u64 = 10_000;

/// Four return bands a screened stock can fall into.
#[derive(Debug, Clone, Copy, PartialEq, Eq, Structural)]
pub enum StockScreenBand {
    Down20Plus,
    Down10To20,
    Up10To20,
    Up20Plus,
}

/// The band a move from `baseline` to `current` falls into, decided on exact integers:
/// a move of at least a fifth of the baseline is a twenty-percent move, one of at
/// least a tenth is a ten-percent move.
pub open spec fn band_of(current: int, baseline: int) -> Option<StockScreenBand> {
    let delta = current - baseline;
    if delta >= 0 {
        if delta * 5 >= baseline {
            Some(StockScreenBand::Up20Plus)
        } else if delta * 10 >= baseline {
            Some(StockScreenBand::Up10To20)
        } else {
            None
        }
    } else {
        if (-delta) * 5 >= baseline {
            Some(StockScreenBand::Down20Plus)
        } else if (-delta) * 10 >= baseline {
            Some(StockScreenBand::Down10To20)
        } else {
            None
        }
    }
}

/// The return from `baseline` to `current` in millionths, rounded half away from zero.
pub open spec fn rounded_return_micros(current: int, baseline: int) -> int {
    let numerator = (current - baseline) * 1_000_000;
    if numerator >= 0 {
        (numerator + baseline / 2) / baseline
    } else {
        -((-numerator + baseline / 2) / baseline)
    }
}

/// The scaled return of a move between two positive closing prices.
pub fn scaled_return_micros(current: i64, baseline: i64) -> (result: Result<i64, Error>)
    ensures
        (current <= 0 || baseline <= 0) ==> result is Err && result->Err_0 is Invariant,
        (current > 0 && baseline > 0) ==> match result {
            Ok(value) => value == rounded_return_micros(current as int, baseline as int),
            Err(e) => e is Invariant && !(i64::MIN <= rounded_return_micros(
                current as int,
                baseline as int,
            ) <= i64::MAX),
        },
{
    if current <= 0 || baseline <= 0 {
        return Err(broken("stock prices must be positive during return calculation"));
    }
    let numerator: i128 = (current as i128 - baseline as i128) * RETURN_SCALE;
    let denominator: i128 = baseline as i128;
    let rounded: i128 = if numerator >= 0 {
        (numerator + denominator / 2) / denominator
    } else {
        -((-numerator + denominator / 2) / denominator)
    };
    if rounded < i64::MIN as i128 || rounded > i64::MAX as i128 {
        return Err(broken("stock return exceeds supported range"));
    }
    Ok(rounded as i64)
}


/// Classifies the move between two optional closing prices. No band is returned
/// when either price is missing or the move is under ten percent; a band comes with
/// the rounded scaled return of the move.
pub fn calculate_band(current: Option<i64>, baseline: Option<i64>) -> (result: Result<
    Option<(i64, StockScreenBand)>,
    Error,
>)
    ensures
        outcome(result) == band_calc(current, baseline),
        (current is None || baseline is None) ==> result == Ok::<
            Option<(i64, StockScreenBand)>,
            Error,
        >(None),
        current is Some && baseline is Some ==> {
            let c = current->0 as int;
            let b = baseline->0 as int;
            if b < 0 {
                result is Err && result->Err_0 is Invariant
            } else if band_of(c, b) is None {
                result == Ok::<Option<(i64, StockScreenBand)>, Error>(None)
            } else if c <= 0 || b <= 0 || !(i64::MIN <= rounded_return_micros(c, b) <= i64::MAX) {
                result is Err && result->Err_0 is Invariant
            } else {
                result matches Ok(Some((r, band))) && r == rounded_return_micros(c, b) && band
                    == band_of(c, b)->0
            }
        },
{
    let (current, baseline) = match (current, baseline) {
        (Some(c), Some(b)) => (c, b),
        _ => return Ok(None),
    };
    let delta: i128 = current as i128 - baseline as i128;
    let magnitude: u128 = if delta >= 0 { delta as u128 } else { (-delta) as u128 };
    if baseline < 0 {
        return Err(broken("stock baseline close is not positive"));
    }
    let baseline_u: u128 = baseline as u128;
    let band = if delta >= 0 {
        if magnitude * 5 >= baseline_u {
            Some(StockScreenBand::Up20Plus)
        } else if magnitude * 10 >= baseline_u {
            Some(StockScreenBand::Up10To20)
        } else {
            None
        }
    } else if magnitude * 5 >= baseline_u {
        Some(StockScreenBand::Down20Plus)
    } else if magnitude * 10 >= baseline_u {
        Some(StockScreenBand::Down10To20)
    } else {
        None
    };
    let band = match band {
        Some(band) => band,
        None => return Ok(None),
    };
    let value = scaled_return_micros(current, baseline)?;
    Ok(Some((value, band)))
}

/// The band calculation of two optional closing prices, with its failures reduced to
/// their kind.
pub open spec fn band_calc(current: Option<i64>, baseline: Option<i64>) -> Result<
    Option<(i64, StockScreenBand)>,
    ErrorKind,
> {
    match (current, baseline) {
        (Some(c), Some(b)) => if b < 0 {
            Err(ErrorKind::Invariant)
        } else if band_of(c as int, b as int) is None {
            Ok(None)
        } else if c <= 0 || b <= 0 || !(i64::MIN <= rounded_return_micros(c as int, b as int)
            <= i64::MAX) {
            Err(ErrorKind::Invariant)
        } else {
            Ok(
                Some(
                    (
                        rounded_return_micros(c as int, b as int) as i64,
                        band_of(c as int, b as int)->0,
                    ),
                ),
            )
        },
        _ => Ok(None),
    }
}

/// The lower edge of a band, in millionths of the baseline.
pub open spec fn band_floor_micros(band: StockScreenBand) -> int {
    match band {
        StockScreenBand::Up10To20 | StockScreenBand::Down10To20 => 100_000,
        StockScreenBand::Up20Plus | StockScreenBand::Down20Plus => 200_000,
    }
}

/// Whether a band describes a rise.
pub open spec fn band_is_up(band: StockScreenBand) -> bool {
    band is Up10To20 || band is Up20Plus
}

proof fn lemma_rounded_at_least(d: int, b: int, k: int)
    requires
        d >= 0,
        b > 0,
        k > 0,
        d * k >= b,
        k == 5 || k == 10,
    ensures
        (d * 1_000_000 + b / 2) / b >= 1_000_000int / k,
{
    assert(d * 1_000_000 >= b * (1_000_000int / k)) by (nonlinear_arith)
        requires
            d * k >= b,
            k == 5 || k == 10,
            d >= 0,
            b > 0,
    ;
    assert((d * 1_000_000 + b / 2) / b >= 1_000_000int / k) by (nonlinear_arith)
        requires
            d * 1_000_000 >= b * (1_000_000int / k),
            b > 0,
            b / 2 >= 0,
    ;
}

/// A banded move never rounds below its band: a rise in a band returns at least the
/// band's floor, a fall at most its negation, so the sign of the return always matches
/// the band's direction.
pub proof fn lemma_band_return_agree(current: int, baseline: int)
    requires
        current > 0,
        baseline > 0,
        band_of(current, baseline) is Some,
    ensures
        ({
            let band = band_of(current, baseline)->0;
            let r = rounded_return_micros(current, baseline);
            &&& band_is_up(band) ==> r >= band_floor_micros(band)
            &&& !band_is_up(band) ==> r <= -band_floor_micros(band)
        }),
{
    let delta = current - baseline;
    if delta >= 0 {
        if delta * 5 >= baseline {
            lemma_rounded_at_least(delta, baseline, 5);
        } else {
            lemma_rounded_at_least(delta, baseline, 10);
        }
    } else {
        assert((current - baseline) * 1_000_000 == -((-delta) * 1_000_000));
        if (-delta) * 5 >= baseline {
            lemma_rounded_at_least(-delta, baseline, 5);
        } else {
            lemma_rounded_at_least(-delta, baseline, 10);
        }
    }
}

/// Whether `covered` of `total` members meet the minimum coverage share, on exact integers.
pub open spec fn coverage_met(covered: int, total: int) -> bool {
    total > 0 && covered * 10_000 >= total * (STOCK_SCREEN_MIN_COVERAGE_BPS as int)
}

/// Whether a coverage count reaches 98 percent of the universe.
pub fn coverage_passes(covered: u32, total: u32) -> (passes: bool)
    ensures
        passes == coverage_met(covered as int, total as int),
{
    total > 0 && (covered as u64) * 10_000 >= (total as u64) * 9_800
}

/// Whether a screened stock rose or fell.
#[derive(Debug, Clone, Copy, PartialEq, Eq, Structural)]
pub enum StockScreenDirection {
    Up,
    Down,
}

/// How many sessions back a return is measured.
#[derive(Debug, Clone, Copy, PartialEq, Eq, Structural)]
pub enum StockScreenHorizon {
    Five,
    TwentyOne,
}

impl StockScreenHorizon {
    /// The number of sessions of the horizon.
    pub fn sessions(self) -> (n: u8)
        ensures
            n == (if self is Five { 5u8 } else { 21u8 }),
    {
        match self {
            StockScreenHorizon::Five => 5,
            StockScreenHorizon::TwentyOne => 21,
        }
    }

    /// The horizon of a session count: 5 or 21.
    pub fn from_sessions(value: u8) -> (r: Option<StockScreenHorizon>)
        ensures
            r is Some <==> value == 5 || value == 21,
            r matches Some(h) ==> (if h is Five { 5u8 } else { 21u8 }) == value,
    {
        match value {
            5 => Some(StockScreenHorizon::Five),
            21 => Some(StockScreenHorizon::TwentyOne),
            _ => None,
        }
    }
}

/// The two band widths a listing can ask for.
#[derive(Debug, Clone, Copy, PartialEq, Eq, Structural)]
pub enum StockScreenBandFilter {
    TenToTwenty,
    TwentyPlus,
}

impl StockScreenBand {
    /// The stored name of the band.
    pub open spec fn name(self) -> Seq<char> {
        match self {
            StockScreenBand::Down20Plus => "down_20_plus"@,
            StockScreenBand::Down10To20 => "down_10_to_20"@,
            StockScreenBand::Up10To20 => "up_10_to_20"@,
            StockScreenBand::Up20Plus => "up_20_plus"@,
        }
    }

    /// The stored name of the band.
    pub fn as_str(self) -> (s: &'static str)
        ensures
            s@ == self.name(),
    {
        match self {
            StockScreenBand::Down20Plus => "down_20_plus",
            StockScreenBand::Down10To20 => "down_10_to_20",
            StockScreenBand::Up10To20 => "up_10_to_20",
            StockScreenBand::Up20Plus => "up_20_plus",
        }
    }

    /// The direction of the band.
    pub fn direction(self) -> (d: StockScreenDirection)
        ensures
            d == (if band_is_up(self) { StockScreenDirection::Up } else { StockScreenDirection::Down }),
    {
        match self {
            StockScreenBand::Down20Plus | StockScreenBand::Down10To20 => StockScreenDirection::Down,
            StockScreenBand::Up10To20 | StockScreenBand::Up20Plus => StockScreenDirection::Up,
        }
    }

    /// The width of the band.
    pub fn filter(self) -> (f: StockScreenBandFilter)
        ensures
            f == (if self is Down20Plus || self is Up20Plus {
                StockScreenBandFilter::TwentyPlus
            } else {
                StockScreenBandFilter::TenToTwenty
            }),
    {
        match self {
            StockScreenBand::Down20Plus | StockScreenBand::Up20Plus => StockScreenBandFilter::TwentyPlus,
            StockScreenBand::Down10To20 | StockScreenBand::Up10To20 => StockScreenBandFilter::TenToTwenty,
        }
    }

    /// Reads a stored band name.
    pub fn parse(value: &str) -> (r: Result<StockScreenBand, Error>)
        ensures
            match r {
                Ok(b) => b.name() == value@,
                Err(e) => e is Invariant && forall|b: StockScreenBand| b.name() != value@,
            },
    {
        if str_eq(value, "down_20_plus") {
            Ok(StockScreenBand::Down20Plus)
        } else if str_eq(value, "down_10_to_20") {
            Ok(StockScreenBand::Down10To20)
        } else if str_eq(value, "up_10_to_20") {
            Ok(StockScreenBand::Up10To20)
        } else if str_eq(value, "up_20_plus") {
            Ok(StockScreenBand::Up20Plus)
        } else {
            Err(broken("unsupported stock screen band"))
        }
    }
}

/// How many results fall in each horizon, direction and band width.
#[derive(Debug, Clone, Copy, PartialEq, Eq, Structural)]
pub struct StockScreenBucketCounts {
    pub up_5_ten_to_twenty: u32,
    pub up_5_twenty_plus: u32,
    pub down_5_ten_to_twenty: u32,
    pub down_5_twenty_plus: u32,
    pub up_21_ten_to_twenty: u32,
    pub up_21_twenty_plus: u32,
    pub down_21_ten_to_twenty: u32,
    pub down_21_twenty_plus: u32,
}

impl StockScreenBucketCounts {
    /// No results counted.
    pub fn zero() -> (c: StockScreenBucketCounts)
        ensures
            c == (StockScreenBucketCounts {
                up_5_ten_to_twenty: 0,
                up_5_twenty_plus: 0,
                down_5_ten_to_twenty: 0,
                down_5_twenty_plus: 0,
                up_21_ten_to_twenty: 0,
                up_21_twenty_plus: 0,
                down_21_ten_to_twenty: 0,
                down_21_twenty_plus: 0,
            }),
    {
        StockScreenBucketCounts {
            up_5_ten_to_twenty: 0,
            up_5_twenty_plus: 0,
            down_5_ten_to_twenty: 0,
            down_5_twenty_plus: 0,
            up_21_ten_to_twenty: 0,
            up_21_twenty_plus: 0,
            down_21_ten_to_twenty: 0,
            down_21_twenty_plus: 0,
        }
    }

    /// The count of one horizon and band.
    pub open spec fn bucket(self, horizon: StockScreenHorizon, band: StockScreenBand) -> int {
        match (horizon, band) {
            (StockScreenHorizon::Five, StockScreenBand::Up10To20) => self.up_5_ten_to_twenty as int,
            (StockScreenHorizon::Five, StockScreenBand::Up20Plus) => self.up_5_twenty_plus as int,
            (StockScreenHorizon::Five, StockScreenBand::Down10To20) => self.down_5_ten_to_twenty as int,
            (StockScreenHorizon::Five, StockScreenBand::Down20Plus) => self.down_5_twenty_plus as int,
            (StockScreenHorizon::TwentyOne, StockScreenBand::Up10To20) => self.up_21_ten_to_twenty as int,
            (StockScreenHorizon::TwentyOne, StockScreenBand::Up20Plus) => self.up_21_twenty_plus as int,
            (StockScreenHorizon::TwentyOne, StockScreenBand::Down10To20) => self.down_21_ten_to_twenty as int,
            (StockScreenHorizon::TwentyOne, StockScreenBand::Down20Plus) => self.down_21_twenty_plus as int,
        }
    }
}

/// Counts one result: its horizon and band's count grows by one, the others stay.
pub fn increment_count(
    counts: &mut StockScreenBucketCounts,
    horizon: StockScreenHorizon,
    band: StockScreenBand,
)
    requires
        old(counts).bucket(horizon, band) < u32::MAX,
    ensures
        final(counts).bucket(horizon, band) == old(counts).bucket(horizon, band) + 1,
        forall|h: StockScreenHorizon, b: StockScreenBand|
            !(h == horizon && b == band) ==> #[trigger] final(counts).bucket(h, b) == old(counts).bucket(h, b),
{
    match (horizon, band) {
        (StockScreenHorizon::Five, StockScreenBand::Up10To20) => {
            counts.up_5_ten_to_twenty = counts.up_5_ten_to_twenty + 1;
        },
        (StockScreenHorizon::Five, StockScreenBand::Up20Plus) => {
            counts.up_5_twenty_plus = counts.up_5_twenty_plus + 1;
        },
        (StockScreenHorizon::Five, StockScreenBand::Down10To20) => {
            counts.down_5_ten_to_twenty = counts.down_5_ten_to_twenty + 1;
        },
        (StockScreenHorizon::Five, StockScreenBand::Down20Plus) => {
            counts.down_5_twenty_plus = counts.down_5_twenty_plus + 1;
        },
        (StockScreenHorizon::TwentyOne, StockScreenBand::Up10To20) => {
            counts.up_21_ten_to_twenty = counts.up_21_ten_to_twenty + 1;
        },
        (StockScreenHorizon::TwentyOne, StockScreenBand::Up20Plus) => {
            counts.up_21_twenty_plus = counts.up_21_twenty_plus + 1;
        },
        (StockScreenHorizon::TwentyOne, StockScreenBand::Down10To20) => {
            counts.down_21_ten_to_twenty = counts.down_21_ten_to_twenty + 1;
        },
        (StockScreenHorizon::TwentyOne, StockScreenBand::Down20Plus) => {
            counts.down_21_twenty_plus = counts.down_21_twenty_plus + 1;
        },
    }
}

/// Splits a band calculation into what a stored result keeps: the baseline close, the
/// return and the band when a band was found, nothing at all otherwise.
pub fn unpack_calculation(baseline: Option<i64>, calculated: Option<(i64, StockScreenBand)>) -> (r: (
    Option<i64>,
    Option<i64>,
    Option<StockScreenBand>,
))
    ensures
        r == (match calculated {
            Some((ret, band)) => (baseline, Some(ret), Some(band)),
            None => (None, None, None),
        }),
{
    match calculated {
        Some((return_micros, band)) => (baseline, Some(return_micros), Some(band)),
        None => (None, None, None),
    }
}

/// The closing prices of one universe member on the screen's three sessions.
#[derive(Debug, Clone, Copy, PartialEq, Eq, Structural)]
pub struct MemberCloses {
    pub current: Option<i64>,
    pub baseline_5: Option<i64>,
    pub baseline_21: Option<i64>,
}

/// The stored result of one member that moved enough on either horizon.
#[derive(Debug, Clone, Copy, PartialEq, Eq, Structural)]
pub struct ScreenResultRow {
    /// Position of the member in the universe.
    pub member: usize,
    pub current_close: i64,
    pub baseline_5_close: Option<i64>,
    pub return_5_micros: Option<i64>,
    pub band_5: Option<StockScreenBand>,
    pub baseline_21_close: Option<i64>,
    pub return_21_micros: Option<i64>,
    pub band_21: Option<StockScreenBand>,
}

/// The result of one member, if it moved enough on either horizon.
pub open spec fn member_result(i: int, m: MemberCloses) -> Result<Option<ScreenResultRow>, ErrorKind> {
    match band_calc(m.current, m.baseline_5) {
        Err(k) => Err(k),
        Ok(five) => match band_calc(m.current, m.baseline_21) {
            Err(k) => Err(k),
            Ok(twenty_one) => if five is None && twenty_one is None {
                Ok(None)
            } else {
                Ok(
                    Some(
                        ScreenResultRow {
                            member: i as usize,
                            current_close: m.current->0,
                            baseline_5_close: if five is Some { m.baseline_5 } else { None },
                            return_5_micros: match five {
                                Some(f) => Some(f.0),
                                None => None,
                            },
                            band_5: match five {
                                Some(f) => Some(f.1),
                                None => None,
                            },
                            baseline_21_close: if twenty_one is Some { m.baseline_21 } else { None },
                            return_21_micros: match twenty_one {
                                Some(t) => Some(t.0),
                                None => None,
                            },
                            band_21: match twenty_one {
                                Some(t) => Some(t.1),
                                None => None,
                            },
                        },
                    ),
                )
            },
        },
    }
}

/// The results of the members, in universe order.
pub open spec fn screen_results(members: Seq<MemberCloses>) -> Result<Seq<ScreenResultRow>, ErrorKind>
    decreases members.len(),
{
    if members.len() == 0 {
        Ok(Seq::empty())
    } else {
        match screen_results(members.drop_last()) {
            Err(k) => Err(k),
            Ok(prev) => match member_result(members.len() - 1, members.last()) {
                Err(k) => Err(k),
                Ok(None) => Ok(prev),
                Ok(Some(row)) => Ok(prev.push(row)),
            },
        }
    }
}

/// The number of members with a close on one of the screen's sessions.
pub open spec fn covered_on(members: Seq<MemberCloses>, slot: int) -> int
    decreases members.len(),
{
    if members.len() == 0 {
        0
    } else {
        let m = members.last();
        let present = if slot == 0 {
            m.current is Some
        } else if slot == 5 {
            m.baseline_5 is Some
        } else {
            m.baseline_21 is Some
        };
        covered_on(members.drop_last(), slot) + if present {
            1int
        } else {
            0
        }
    }
}

/// Why a screen ends without results.
#[derive(Debug, Clone, Copy, PartialEq, Eq, Structural)]
pub enum ScreenFailure {
    InsufficientMarketSessions,
    MarketDateNotAvailable,
    CoverageBelow98Percent,
}

impl ScreenFailure {
    /// The stored failure code.
    pub open spec fn name(self) -> Seq<char> {
        match self {
            ScreenFailure::InsufficientMarketSessions => "insufficient_market_sessions"@,
            ScreenFailure::MarketDateNotAvailable => "market_date_not_available"@,
            ScreenFailure::CoverageBelow98Percent => "coverage_below_98_percent"@,
        }
    }

    /// The stored failure code.
    pub fn code(self) -> (s: &'static str)
        ensures
            s@ == self.name(),
    {
        match self {
            ScreenFailure::InsufficientMarketSessions => "insufficient_market_sessions",
            ScreenFailure::MarketDateNotAvailable => "market_date_not_available",
            ScreenFailure::CoverageBelow98Percent => "coverage_below_98_percent",
        }
    }
}

/// How many members had closes on each of the screen's sessions.
#[derive(Debug, Clone, Copy, PartialEq, Eq, Structural)]
pub struct ScreenCoverageCounts {
    pub total: u32,
    pub current_covered: u32,
    pub baseline_5_covered: u32,
    pub baseline_21_covered: u32,
}

/// How a screen run ends.
#[derive(Debug, Clone, PartialEq, Eq)]
pub enum ScreenOutcome {
    /// The run failed for want of sessions or coverage.
    Failed { failure: ScreenFailure, counts: ScreenCoverageCounts },
    /// The run completed, with the results of the members that moved enough.
    Completed { counts: ScreenCoverageCounts, results: Vec<ScreenResultRow> },
}

/// The status a screen run is left in: a failure is a coverage failure; a completed run
/// succeeded when some member moved enough, and found no candidates otherwise.
pub open spec fn screen_status_name(o: ScreenOutcome) -> Seq<char> {
    match o {
        ScreenOutcome::Failed { .. } => "coverage_failed"@,
        ScreenOutcome::Completed { results, .. } => if results@.len() == 0 {
            "no_candidates"@
        } else {
            "succeeded"@
        },
    }
}

/// The status a screen run is left in.
pub fn screen_status(o: &ScreenOutcome) -> (s: &'static str)
    ensures
        s@ == screen_status_name(*o),
{
    match o {
        ScreenOutcome::Failed { .. } => "coverage_failed",
        ScreenOutcome::Completed { results, .. } => if results.len() == 0 {
            "no_candidates"
        } else {
            "succeeded"
        },
    }
}

/// The closes present on one of the screen's sessions.
fn coverage_count(members: &Vec<MemberCloses>, slot: usize) -> (n: u32)
    requires
        members@.len() <= u32::MAX,
        slot == 0 || slot == 5 || slot == 21,
    ensures
        n == covered_on(members@, slot as int),
{
    let mut n: u32 = 0;
    let mut i: usize = 0;
    while i < members.len()
        invariant
            0 <= i <= members@.len() <= u32::MAX,
            slot == 0 || slot == 5 || slot == 21,
            n == covered_on(members@.take(i as int), slot as int),
            n <= i,
        decreases members@.len() - i,
    {
        let ghost prefix = members@.take(i + 1);
        assert(prefix.drop_last() == members@.take(i as int));
        let m = members[i];
        let present = if slot == 0 {
            m.current.is_some()
        } else if slot == 5 {
            m.baseline_5.is_some()
        } else {
            m.baseline_21.is_some()
        };
        if present {
            n = n + 1;
        }
        i = i + 1;
    }
    assert(members@.take(members@.len() as int) == members@);
    n
}

/// Once screening a prefix of the members fails, screening all of them fails the same way.
proof fn lemma_screen_error_persists(s: Seq<MemberCloses>, n: int)
    requires
        0 <= n <= s.len(),
        screen_results(s.take(n)) is Err,
    ensures
        screen_results(s) == screen_results(s.take(n)),
    decreases s.len() - n,
{
    if n < s.len() {
        assert(s.take(n + 1).drop_last() == s.take(n));
        assert(screen_results(s.take(n + 1)) == screen_results(s.take(n)));
        lemma_screen_error_persists(s, n + 1);
    } else {
        assert(s.take(n) == s);
    }
}

/// The results of the members that moved enough.
fn collect_results(members: &Vec<MemberCloses>) -> (r: Result<Vec<ScreenResultRow>, Error>)
    ensures
        match r {
            Ok(v) => screen_results(members@) == Ok::<Seq<ScreenResultRow>, ErrorKind>(v@),
            Err(e) => screen_results(members@) == Err::<Seq<ScreenResultRow>, ErrorKind>(e.kind()),
        },
{
    let mut out: Vec<ScreenResultRow> = Vec::new();
    let mut i: usize = 0;
    while i < members.len()
        invariant
            0 <= i <= members@.len(),
            screen_results(members@.take(i as int)) == Ok::<Seq<ScreenResultRow>, ErrorKind>(out@),
        decreases members@.len() - i,
    {
        let ghost prefix = members@.take(i + 1);
        assert(prefix.drop_last() == members@.take(i as int));
        assert(prefix.last() == members@[i as int]);
        let m = members[i];
        let five = match calculate_band(m.current, m.baseline_5) {
            Ok(v) => v,
            Err(e) => {
                proof {
                    lemma_screen_error_persists(members@, i + 1);
                }
                return Err(e);
            },
        };
        let twenty_one = match calculate_band(m.current, m.baseline_21) {
            Ok(v) => v,
            Err(e) => {
                proof {
                    lemma_screen_error_persists(members@, i + 1);
                }
                return Err(e);
            },
        };
        if five.is_some() || twenty_one.is_some() {
            let current = match m.current {
                Some(c) => c,
                None => return Err(broken("candidate result is missing its current close")),
            };
            let (baseline_5_close, return_5, band_5) = unpack_calculation(m.baseline_5, five);
            let (baseline_21_close, return_21, band_21) = unpack_calculation(m.baseline_21, twenty_one);
            out.push(
                ScreenResultRow {
                    member: i,
                    current_close: current,
                    baseline_5_close,
                    return_5_micros: return_5,
                    band_5,
                    baseline_21_close,
                    return_21_micros: return_21,
                    band_21,
                },
            );
        }
        i = i + 1;
    }
    assert(members@.take(members@.len() as int) == members@);
    Ok(out)
}

/// Screens a universe against stored market data. `sessions` are the latest (at most 22)
/// sessions up to the market date, newest first; the run needs all 22 and the newest
/// must be the market date; then at least 98 percent of the members need closes on the
/// current session and on the sessions five and twenty-one back. Each member whose close
/// moved at least ten percent on either horizon yields a result.
pub fn evaluate_screen(
    sessions: &Vec<CivilDate>,
    market_date: CivilDate,
    members: &Vec<MemberCloses>,
    member_count: u32,
) -> (r: Result<ScreenOutcome, Error>)
    ensures
        members@.len() > u32::MAX ==> (r matches Err(e) && e is Invalid),
        members@.len() <= u32::MAX && members@.len() != member_count ==> (r matches Err(e)
            && e is Invariant),
        members@.len() == member_count ==> {
            let total = member_count;
            let zero = ScreenCoverageCounts {
                total,
                current_covered: 0,
                baseline_5_covered: 0,
                baseline_21_covered: 0,
            };
            let counts = ScreenCoverageCounts {
                total,
                current_covered: covered_on(members@, 0) as u32,
                baseline_5_covered: covered_on(members@, 5) as u32,
                baseline_21_covered: covered_on(members@, 21) as u32,
            };
            if sessions@.len() < 22 {
                r == Ok::<ScreenOutcome, Error>(
                    ScreenOutcome::Failed { failure: ScreenFailure::InsufficientMarketSessions, counts: zero },
                )
            } else if sessions@[0] != market_date {
                r == Ok::<ScreenOutcome, Error>(
                    ScreenOutcome::Failed { failure: ScreenFailure::MarketDateNotAvailable, counts: zero },
                )
            } else if !coverage_met(covered_on(members@, 0), total as int) || !coverage_met(
                covered_on(members@, 5),
                total as int,
            ) || !coverage_met(covered_on(members@, 21), total as int) {
                r == Ok::<ScreenOutcome, Error>(
                    ScreenOutcome::Failed { failure: ScreenFailure::CoverageBelow98Percent, counts },
                )
            } else {
                match screen_results(members@) {
                    Ok(rows) => (r matches Ok(ScreenOutcome::Completed { counts: c, results })
                        && c == counts && results@ == rows),
                    Err(k) => (r matches Err(e) && e.kind() == k),
                }
            }
        },
{
    if members.len() > 0xffff_ffff {
        return Err(invalid("stock universe member count is too large"));
    }
    let total = members.len() as u32;
    if total != member_count {
        return Err(broken("stock universe snapshot and member count differ"));
    }
    let zero = ScreenCoverageCounts {
        total,
        current_covered: 0,
        baseline_5_covered: 0,
        baseline_21_covered: 0,
    };
    if sessions.len() < 22 {
        return Ok(ScreenOutcome::Failed { failure: ScreenFailure::InsufficientMarketSessions, counts: zero });
    }
    if sessions[0] != market_date {
        return Ok(ScreenOutcome::Failed { failure: ScreenFailure::MarketDateNotAvailable, counts: zero });
    }
    let counts = ScreenCoverageCounts {
        total,
        current_covered: coverage_count(members, 0),
        baseline_5_covered: coverage_count(members, 5),
        baseline_21_covered: coverage_count(members, 21),
    };
    if !coverage_passes(counts.current_covered, total) || !coverage_passes(
        counts.baseline_5_covered,
        total,
    ) || !coverage_passes(counts.baseline_21_covered, total) {
        return Ok(ScreenOutcome::Failed { failure: ScreenFailure::CoverageBelow98Percent, counts });
    }
    let results = collect_results(members)?;
    Ok(ScreenOutcome::Completed { counts, results })
}

/// One daily closing price as a provider delivers it.
#[derive(Debug, Clone, PartialEq, Eq)]
pub struct StockDailyBarInput {
    pub ticker: String,
    pub session_date: CivilDate,
    pub close_microusd: u64,
}

/// A delivery of market data: the sessions the provider confirms and their closes.
#[derive(Debug, Clone, PartialEq, Eq)]
pub struct StoreStockMarketDataInput {
    pub source: String,
    pub feed: String,
    pub adjustment: String,
    pub source_sha256: String,
    pub sessions: Vec<CivilDate>,
    pub bars: Vec<StockDailyBarInput>,
}

/// A closing price as stored.
#[derive(Debug, Clone, PartialEq, Eq)]
pub struct NormalizedBar {
    pub ticker: String,
    pub session_date: CivilDate,
    pub close_microusd: i64,
}

/// A delivery of market data, checked and ready to store.
#[derive(Debug, Clone, PartialEq, Eq)]
pub struct MarketDataBatch {
    pub source: String,
    pub feed: String,
    pub source_sha256: String,
    /// The confirmed sessions, in delivery order.
    pub sessions: Vec<CivilDate>,
    /// For each session, the number of closes delivered for it.
    pub session_bar_counts: Vec<u32>,
    /// The closes, in delivery order.
    pub bars: Vec<NormalizedBar>,
    pub earliest_session: CivilDate,
    pub latest_session: CivilDate,
    pub session_count: u32,
    pub bar_count: u32,
}

/// The normalized ticker of a bar.
pub open spec fn bar_ticker(b: StockDailyBarInput) -> Seq<char> {
    upper_text(trimmed(b.ticker@))
}

/// The rules a delivery's bars meet: each on a confirmed session, with a valid ticker
/// and a positive close that fits `i64`, and no two for the same session and ticker.
pub open spec fn bars_ok(sessions: Seq<CivilDate>, bars: Seq<StockDailyBarInput>) -> bool {
    &&& forall|i: int|
        0 <= i < bars.len() ==> sessions.contains(#[trigger] bars[i].session_date) && us_ticker_ok(
            bar_ticker(bars[i]),
        ) && 0 < bars[i].close_microusd <= i64::MAX
    &&& forall|i: int, j: int|
        0 <= i < j < bars.len() ==> !(#[trigger] bars[i].session_date == #[trigger] bars[j].session_date
            && bar_ticker(bars[i]) == bar_ticker(bars[j]))
}

/// The rules a delivery of market data meets.
pub open spec fn market_data_ok(input: StoreStockMarketDataInput) -> bool {
    let digest = lower_text(trimmed(input.source_sha256@));
    &&& clean_text_ok(trimmed(input.source@), 80)
    &&& clean_text_ok(trimmed(input.feed@), 40)
    &&& input.adjustment@ == "split"@
    &&& digest.len() == 64 && forall|i: int| 0 <= i < 64 ==> hex_char(#[trigger] digest[i])
    &&& 1 <= input.sessions@.len() <= 366
    &&& input.bars@.len() <= 50_000
    &&& forall|i: int, j: int|
        0 <= i < j < input.sessions@.len() ==> #[trigger] input.sessions@[i] != #[trigger] input.sessions@[j]
    &&& bars_ok(input.sessions@, input.bars@)
}

/// The number of bars on a session.
pub open spec fn bars_on(bars: Seq<StockDailyBarInput>, d: CivilDate) -> int
    decreases bars.len(),
{
    if bars.len() == 0 {
        0
    } else {
        bars_on(bars.drop_last(), d) + if bars.last().session_date == d {
            1int
        } else {
            0
        }
    }
}

/// Whether a session is the earliest (or latest) of all.
pub open spec fn earliest_of(sessions: Seq<CivilDate>, d: CivilDate) -> bool {
    sessions.contains(d) && forall|i: int| 0 <= i < sessions.len() ==> !date_before(#[trigger] sessions[i], d)
}

/// Whether a session is the latest of all.
pub open spec fn latest_of(sessions: Seq<CivilDate>, d: CivilDate) -> bool {
    sessions.contains(d) && forall|i: int| 0 <= i < sessions.len() ==> !date_before(d, #[trigger] sessions[i])
}

/// Whether a date is among the first `n` sessions.
fn session_known(sessions: &Vec<CivilDate>, n: usize, d: CivilDate) -> (r: bool)
    requires
        n <= sessions@.len(),
    ensures
        r == exists|k: int| 0 <= k < n && sessions@[k] == d,
{
    let mut k: usize = 0;
    while k < n
        invariant
            0 <= k <= n <= sessions@.len(),
            forall|m: int| 0 <= m < k ==> sessions@[m] != d,
        decreases n - k,
    {
        if sessions[k] == d {
            return true;
        }
        k = k + 1;
    }
    false
}

/// Checks the bars of a delivery and normalizes them.
fn check_bars(sessions: &Vec<CivilDate>, bars: &Vec<StockDailyBarInput>) -> (r: Result<Vec<NormalizedBar>, Error>)
    requires
        bars@.len() <= 50_000,
    ensures
        r is Ok <==> bars_ok(sessions@, bars@),
        r matches Ok(v) ==> v@.len() == bars@.len() && forall|i: int|
            0 <= i < v@.len() ==> (#[trigger] v@[i]).ticker@ == bar_ticker(bars@[i]) && v@[i].session_date
                == bars@[i].session_date && v@[i].close_microusd == bars@[i].close_microusd,
        r matches Err(e) ==> e is Invalid,
{
    let mut out: Vec<NormalizedBar> = Vec::new();
    let mut i: usize = 0;
    while i < bars.len()
        invariant
            0 <= i <= bars@.len() <= 50_000,
            out@.len() == i,
            forall|k: int|
                0 <= k < i ==> sessions@.contains(#[trigger] bars@[k].session_date) && us_ticker_ok(
                    bar_ticker(bars@[k]),
                ) && 0 < bars@[k].close_microusd <= i64::MAX,
            forall|k: int|
                0 <= k < i ==> (#[trigger] out@[k]).ticker@ == bar_ticker(bars@[k]) && out@[k].session_date
                    == bars@[k].session_date && out@[k].close_microusd == bars@[k].close_microusd,
            forall|a: int, b: int|
                0 <= a < b < i ==> !(#[trigger] bars@[a].session_date == #[trigger] bars@[b].session_date
                    && bar_ticker(bars@[a]) == bar_ticker(bars@[b])),
        decreases bars@.len() - i,
    {
        let bar = &bars[i];
        if !session_known(sessions, sessions.len(), bar.session_date) {
            return Err(invalid("stock bar date is not a provider-confirmed session"));
        }
        let ticker = normalize_us_ticker(bar.ticker.as_str())?;
        if bar.close_microusd > 0x7fff_ffff_ffff_ffff {
            return Err(invalid("stock close price is too large"));
        }
        if bar.close_microusd == 0 {
            return Err(invalid("stock close price must be positive"));
        }
        let mut k: usize = 0;
        while k < i
            invariant
                0 <= k <= i < bars@.len(),
                out@.len() == i,
                bar.session_date == bars@[i as int].session_date,
                ticker@ == bar_ticker(bars@[i as int]),
                forall|m: int|
                    0 <= m < i ==> (#[trigger] out@[m]).ticker@ == bar_ticker(bars@[m]) && out@[m].session_date
                        == bars@[m].session_date,
                forall|m: int|
                    0 <= m < k ==> !(bars@[m].session_date == bars@[i as int].session_date && bar_ticker(
                        #[trigger] bars@[m],
                    ) == bar_ticker(bars@[i as int])),
            decreases i - k,
        {
            assert(out@[k as int].session_date == bars@[k as int].session_date && out@[k as int].ticker@
                == bar_ticker(bars@[k as int]));
            if out[k].session_date == bar.session_date && same_text(&out[k].ticker, &ticker) {
                proof {
                    assert(bars@[k as int].session_date == bars@[i as int].session_date);
                    assert(!bars_ok(sessions@, bars@));
                }
                return Err(invalid("duplicate stock bar"));
            }
            k = k + 1;
        }
        proof {
            assert forall|a: int, b: int|
                0 <= a < b < i + 1 implies !(#[trigger] bars@[a].session_date
                == #[trigger] bars@[b].session_date && bar_ticker(bars@[a]) == bar_ticker(bars@[b])) by {
                if b == i {
                    assert(!(bars@[a].session_date == bars@[i as int].session_date && bar_ticker(bars@[a])
                        == bar_ticker(bars@[i as int])));
                }
            }
        }
        out.push(
            NormalizedBar {
                ticker,
                session_date: bar.session_date,
                close_microusd: bar.close_microusd as i64,
            },
        );
        i = i + 1;
    }
    Ok(out)
}

/// Checks a delivery of market data and prepares it for storing: each confirmed session
/// with the number of closes delivered for it, the earliest and latest sessions, and the
/// counts.
pub fn prepare_market_data(input: &StoreStockMarketDataInput) -> (r: Result<MarketDataBatch, Error>)
    ensures
        r is Ok <==> market_data_ok(*input),
        r matches Ok(b) ==> {
            &&& b.source@ == trimmed(input.source@)
            &&& b.feed@ == trimmed(input.feed@)
            &&& b.source_sha256@ == lower_text(trimmed(input.source_sha256@))
            &&& b.sessions@ == input.sessions@
            &&& b.session_bar_counts@.len() == input.sessions@.len()
            &&& forall|i: int|
                0 <= i < input.sessions@.len() ==> #[trigger] b.session_bar_counts@[i] == bars_on(
                    input.bars@,
                    input.sessions@[i],
                )
            &&& b.bars@.len() == input.bars@.len()
            &&& forall|i: int|
                0 <= i < b.bars@.len() ==> (#[trigger] b.bars@[i]).ticker@ == bar_ticker(input.bars@[i])
                    && b.bars@[i].session_date == input.bars@[i].session_date
                    && b.bars@[i].close_microusd == input.bars@[i].close_microusd
            &&& earliest_of(input.sessions@, b.earliest_session)
            &&& latest_of(input.sessions@, b.latest_session)
            &&& b.session_count == input.sessions@.len()
            &&& b.bar_count == input.bars@.len()
        },
        r matches Err(e) ==> e is Invalid,
{
    let source = clean_text("stock market data source", input.source.as_str(), 80)?;
    let feed = clean_text("stock market data feed", input.feed.as_str(), 40)?;
    if !str_eq(input.adjustment.as_str(), "split") {
        return Err(invalid("stock market data adjustment must be split"));
    }
    let digest = normalize_sha256(input.source_sha256.as_str())?;
    if input.sessions.len() == 0 || input.sessions.len() > 366 {
        return Err(invalid("stock market data must contain 1-366 provider-confirmed sessions"));
    }
    if input.bars.len() > 50_000 {
        return Err(invalid("stock market data cannot exceed 50000 bars"));
    }
    let mut i: usize = 0;
    while i < input.sessions.len()
        invariant
            0 <= i <= input.sessions@.len(),
            forall|a: int, b: int|
                0 <= a < b < i ==> #[trigger] input.sessions@[a] != #[trigger] input.sessions@[b],
        decreases input.sessions@.len() - i,
    {
        if session_known(&input.sessions, i, input.sessions[i]) {
            return Err(invalid("stock market data contains duplicate provider-confirmed sessions"));
        }
        i = i + 1;
    }
    let bars = check_bars(&input.sessions, &input.bars)?;
    let mut counts: Vec<u32> = Vec::new();
    let mut earliest = input.sessions[0];
    let mut latest = input.sessions[0];
    let mut s: usize = 0;
    while s < input.sessions.len()
        invariant
            0 <= s <= input.sessions@.len(),
            input.sessions@.len() >= 1,
            input.bars@.len() <= 50_000,
            counts@.len() == s,
            forall|k: int| 0 <= k < s ==> #[trigger] counts@[k] == bars_on(input.bars@, input.sessions@[k]),
            input.sessions@.contains(earliest),
            input.sessions@.contains(latest),
            forall|k: int| 0 <= k < s ==> !date_before(#[trigger] input.sessions@[k], earliest),
            forall|k: int| 0 <= k < s ==> !date_before(latest, #[trigger] input.sessions@[k]),
        decreases input.sessions@.len() - s,
    {
        let d = input.sessions[s];
        if date_lt(d, earliest) {
            earliest = d;
        }
        if date_lt(latest, d) {
            latest = d;
        }
        let mut n: u32 = 0;
        let mut b: usize = 0;
        while b < input.bars.len()
            invariant
                0 <= b <= input.bars@.len() <= 50_000,
                n == bars_on(input.bars@.take(b as int), d),
                n <= b,
            decreases input.bars@.len() - b,
        {
            let ghost prefix = input.bars@.take(b + 1);
            assert(prefix.drop_last() == input.bars@.take(b as int));
            if input.bars[b].session_date == d {
                n = n + 1;
            }
            b = b + 1;
        }
        assert(input.bars@.take(input.bars@.len() as int) == input.bars@);
        counts.push(n);
        s = s + 1;
    }
    Ok(
        MarketDataBatch {
            source,
            feed,
            source_sha256: digest,
            sessions: input.sessions.clone(),
            session_bar_counts: counts,
            bars,
            earliest_session: earliest,
            latest_session: latest,
            session_count: input.sessions.len() as u32,
            bar_count: input.bars.len() as u32,
        },
    )
}

/// A batch of market data stored before under the same digest.
#[derive(Debug, Clone, PartialEq, Eq)]
pub struct StoredMarketBatch {
    pub source: String,
    pub feed: String,
    pub adjustment: String,
    pub session_count: u32,
    pub bar_count: u32,
    pub earliest_session: CivilDate,
    pub latest_session: CivilDate,
}

/// A digest stored before must describe the same batch.
pub fn check_stored_batch(stored: &StoredMarketBatch, batch: &MarketDataBatch) -> (r: Result<(), Error>)
    ensures
        r is Ok <==> (stored.source@ == batch.source@ && stored.feed@ == batch.feed@
            && stored.adjustment@ == "split"@ && stored.session_count == batch.session_count
            && stored.bar_count == batch.bar_count && stored.earliest_session == batch.earliest_session
            && stored.latest_session == batch.latest_session),
        r matches Err(e) ==> e is Conflict,
{
    if !same_text(&stored.source, &batch.source) || !same_text(&stored.feed, &batch.feed)
        || !str_eq(stored.adjustment.as_str(), "split") || stored.session_count != batch.session_count
        || stored.bar_count != batch.bar_count || stored.earliest_session != batch.earliest_session
        || stored.latest_session != batch.latest_session {
        return Err(
            conflict("stock market data hash was already used with different batch metadata"),
        );
    }
    Ok(())
}

/// One member of a stock universe as its source lists it.
#[derive(Debug, Clone, PartialEq, Eq)]
pub struct StockUniverseMemberInput {
    pub ticker: String,
    pub display_name: String,
    pub sector: Option<String>,
    pub sub_industry: Option<String>,
}

/// A stock universe as its source publishes it.
#[derive(Debug, Clone, PartialEq, Eq)]
pub struct StoreStockUniverseInput {
    pub name: String,
    pub effective_date: CivilDate,
    pub source_url: String,
    pub source_revision: String,
    pub source_sha256: String,
    pub license_name: String,
    pub license_url: String,
    pub attribution_text: String,
    pub members: Vec<StockUniverseMemberInput>,
}

/// A stock universe checked and normalized, ready to store.
#[derive(Debug, Clone, PartialEq, Eq)]
pub struct PreparedUniverse {
    pub name: String,
    pub effective_date: CivilDate,
    pub source_url: String,
    pub source_revision: String,
    pub source_sha256: String,
    pub license_name: String,
    pub license_url: String,
    pub attribution_text: String,
    /// The members, normalized, in the order listed.
    pub members: Vec<StockUniverseMemberInput>,
    pub member_count: u32,
}

/// An optional text that, when present, is fit to store once trimmed.
pub open spec fn optional_clean_ok(value: Option<String>, maximum: int) -> bool {
    match value {
        Some(v) => clean_text_ok(trimmed(v@), maximum),
        None => true,
    }
}

/// An optional text, trimmed.
pub open spec fn optional_trimmed(value: Option<String>) -> Option<Seq<char>> {
    match value {
        Some(v) => Some(trimmed(v@)),
        None => None,
    }
}

/// The normalized ticker of a member.
pub open spec fn member_ticker(m: StockUniverseMemberInput) -> Seq<char> {
    upper_text(trimmed(m.ticker@))
}

/// A member's fields meet the rules.
pub open spec fn member_ok(m: StockUniverseMemberInput) -> bool {
    &&& us_ticker_ok(member_ticker(m))
    &&& clean_text_ok(trimmed(m.display_name@), 160)
    &&& optional_clean_ok(m.sector, 160)
    &&& optional_clean_ok(m.sub_industry, 200)
}

/// A lowercase SHA-256 once trimmed and lowercased.
pub open spec fn digest_text_ok(value: Seq<char>) -> bool {
    let digest = lower_text(trimmed(value));
    digest.len() == 64 && forall|i: int| 0 <= i < 64 ==> hex_char(#[trigger] digest[i])
}

/// The rules a stock universe meets: its texts fit to store, its URLs HTTPS, its digest
/// well formed, 1 to 1000 valid members, and no ticker listed twice.
pub open spec fn universe_ok(input: StoreStockUniverseInput) -> bool {
    &&& clean_text_ok(trimmed(input.name@), 80)
    &&& clean_text_ok(trimmed(input.source_url@), 2048)
    &&& crate::normalize::https_url_with_host(trimmed(input.source_url@))
    &&& clean_text_ok(trimmed(input.source_revision@), 160)
    &&& digest_text_ok(input.source_sha256@)
    &&& clean_text_ok(trimmed(input.license_name@), 160)
    &&& clean_text_ok(trimmed(input.license_url@), 2048)
    &&& crate::normalize::https_url_with_host(trimmed(input.license_url@))
    &&& clean_text_ok(trimmed(input.attribution_text@), 500)
    &&& 1 <= input.members@.len() <= STOCK_SCREEN_MAX_MEMBERS
    &&& forall|i: int| 0 <= i < input.members@.len() ==> member_ok(#[trigger] input.members@[i])
    &&& forall|i: int, j: int|
        0 <= i < j < input.members@.len() ==> member_ticker(#[trigger] input.members@[i])
            != member_ticker(#[trigger] input.members@[j])
}

/// Checks a member and normalizes it.
fn normalize_member(member: &StockUniverseMemberInput) -> (r: Result<StockUniverseMemberInput, Error>)
    ensures
        r is Ok <==> member_ok(*member),
        r matches Ok(m) ==> m.ticker@ == member_ticker(*member) && m.display_name@ == trimmed(
            member.display_name@,
        ) && crate::text::opt_view(m.sector) == optional_trimmed(member.sector)
            && crate::text::opt_view(m.sub_industry) == optional_trimmed(member.sub_industry),
        r matches Err(e) ==> e is Invalid,
{
    let ticker = normalize_us_ticker(member.ticker.as_str())?;
    let display_name = clean_text("stock universe display name", member.display_name.as_str(), 160)?;
    let sector = crate::normalize::clean_optional_text("stock universe sector", &member.sector, 160)?;
    let sub_industry = crate::normalize::clean_optional_text(
        "stock universe sub-industry",
        &member.sub_industry,
        200,
    )?;
    Ok(StockUniverseMemberInput { ticker, display_name, sector, sub_industry })
}

/// Checks a stock universe and normalizes it for storing.
pub fn prepare_universe(input: &StoreStockUniverseInput) -> (r: Result<PreparedUniverse, Error>)
    ensures
        r is Ok <==> universe_ok(*input),
        r matches Ok(u) ==> {
            &&& u.name@ == trimmed(input.name@)
            &&& u.effective_date == input.effective_date
            &&& u.source_url@ == trimmed(input.source_url@)
            &&& u.source_revision@ == trimmed(input.source_revision@)
            &&& u.source_sha256@ == lower_text(trimmed(input.source_sha256@))
            &&& u.license_name@ == trimmed(input.license_name@)
            &&& u.license_url@ == trimmed(input.license_url@)
            &&& u.attribution_text@ == trimmed(input.attribution_text@)
            &&& u.member_count == input.members@.len()
            &&& u.members@.len() == input.members@.len()
            &&& forall|i: int|
                0 <= i < u.members@.len() ==> (#[trigger] u.members@[i]).ticker@ == member_ticker(
                    input.members@[i],
                ) && u.members@[i].display_name@ == trimmed(input.members@[i].display_name@)
                    && crate::text::opt_view(u.members@[i].sector) == optional_trimmed(
                    input.members@[i].sector,
                ) && crate::text::opt_view(u.members@[i].sub_industry) == optional_trimmed(
                    input.members@[i].sub_industry,
                )
            &&& crate::universe_listing::tickers_distinct(u.members@)
        },
        r matches Err(e) ==> e is Invalid,
{
    let name = clean_text("stock universe name", input.name.as_str(), 80)?;
    let source_url = crate::normalize::validate_https_url("stock universe source URL", input.source_url.as_str())?;
    let source_revision = clean_text("stock universe source revision", input.source_revision.as_str(), 160)?;
    let source_sha256 = normalize_sha256(input.source_sha256.as_str())?;
    let license_name = clean_text("stock universe license", input.license_name.as_str(), 160)?;
    let license_url = crate::normalize::validate_https_url("stock universe license URL", input.license_url.as_str())?;
    let attribution_text = clean_text("stock universe attribution", input.attribution_text.as_str(), 500)?;
    if input.members.len() == 0 || input.members.len() > STOCK_SCREEN_MAX_MEMBERS {
        return Err(invalid("stock universe must contain 1-1000 members"));
    }
    let mut members: Vec<StockUniverseMemberInput> = Vec::new();
    let mut i: usize = 0;
    while i < input.members.len()
        invariant
            0 <= i <= input.members@.len() <= STOCK_SCREEN_MAX_MEMBERS,
            members@.len() == i,
            forall|k: int| 0 <= k < i ==> member_ok(#[trigger] input.members@[k]),
            forall|k: int|
                0 <= k < i ==> (#[trigger] members@[k]).ticker@ == member_ticker(input.members@[k])
                    && members@[k].display_name@ == trimmed(input.members@[k].display_name@)
                    && crate::text::opt_view(members@[k].sector) == optional_trimmed(input.members@[k].sector)
                    && crate::text::opt_view(members@[k].sub_industry) == optional_trimmed(
                    input.members@[k].sub_industry,
                ),
            forall|a: int, b: int|
                0 <= a < b < i ==> member_ticker(#[trigger] input.members@[a]) != member_ticker(
                    #[trigger] input.members@[b],
                ),
        decreases input.members@.len() - i,
    {
        let member = normalize_member(&input.members[i])?;
        let mut k: usize = 0;
        while k < i
            invariant
                0 <= k <= i < input.members@.len(),
                members@.len() == i,
                member.ticker@ == member_ticker(input.members@[i as int]),
                forall|m: int|
                    0 <= m < i ==> (#[trigger] members@[m]).ticker@ == member_ticker(input.members@[m]),
                forall|m: int|
                    0 <= m < k ==> member_ticker(#[trigger] input.members@[m]) != member_ticker(
                        input.members@[i as int],
                    ),
            decreases i - k,
        {
            assert(members@[k as int].ticker@ == member_ticker(input.members@[k as int]));
            if same_text(&members[k].ticker, &member.ticker) {
                return Err(invalid_field("stock universe contains duplicate ticker: ", member.ticker.as_str()));
            }
            k = k + 1;
        }
        members.push(member);
        i = i + 1;
    }
    assert forall|a: int, b: int| 0 <= a < b < members@.len() implies (#[trigger] members@[a]).ticker@
        != (#[trigger] members@[b]).ticker@ by {
        assert(member_ticker(input.members@[a]) != member_ticker(input.members@[b]));
    }
    Ok(
        PreparedUniverse {
            name,
            effective_date: input.effective_date,
            source_url,
            source_revision,
            source_sha256,
            license_name,
            license_url,
            attribution_text,
            members,
            member_count: input.members.len() as u32,
        },
    )
}

/// Why completing a screen run is refused before its data is read, if it is: the run must
/// still be started, the market data batch must exist, the universe must be the one the
/// run started with (if it named one), and the universe may not take effect after the
/// market date.
pub open spec fn screen_run_refusal(
    run_status: Seq<char>,
    batch_exists: bool,
    started_snapshot: Option<Seq<char>>,
    snapshot_id: Seq<char>,
    snapshot_effective: CivilDate,
    market_date: CivilDate,
) -> Option<ErrorKind> {
    if run_status != "started"@ {
        Some(ErrorKind::Conflict)
    } else if !batch_exists {
        Some(ErrorKind::NotFound)
    } else if started_snapshot matches Some(started) && started != snapshot_id {
        Some(ErrorKind::Conflict)
    } else if date_before(market_date, snapshot_effective) {
        Some(ErrorKind::Invalid)
    } else {
        None
    }
}

/// Checks that a screen run may be completed with a universe snapshot and a market data
/// batch.
pub fn check_screen_run(
    run_id: &str,
    run_status: &str,
    batch_exists: bool,
    market_data_sha256: &str,
    started_snapshot: &Option<String>,
    snapshot_id: &str,
    snapshot_effective: CivilDate,
    market_date: CivilDate,
) -> (r: Result<(), Error>)
    ensures
        outcome(r) == match screen_run_refusal(
            run_status@,
            batch_exists,
            crate::text::opt_view(*started_snapshot),
            snapshot_id@,
            snapshot_effective,
            market_date,
        ) {
            Some(k) => Err::<(), ErrorKind>(k),
            None => Ok::<(), ErrorKind>(()),
        },
        run_status@ != "started"@ ==> (r matches Err(e) && e->Conflict_0@ == "stock screen run "@ + run_id@
            + " was not in started state"@),
        r matches Err(e) ==> (e is NotFound ==> e->entity@ == "stock market data batch"@ && e->id@
            == market_data_sha256@),
        run_status@ == "started"@ ==> (r matches Err(e) ==> (e is Conflict ==> e->Conflict_0@
            == "stock screen universe changed after the run started"@)),
        r matches Err(e) ==> (e is Invalid ==> e->Invalid_0@
            == "stock universe effective date is later than the market date"@),
{
    if !str_eq(run_status, "started") {
        return Err(Error::Conflict("stock screen run ".to_owned().concat(run_id).concat(" was not in started state")));
    }
    if !batch_exists {
        return Err(crate::error::not_found("stock market data batch", market_data_sha256));
    }
    if let Some(started) = started_snapshot {
        if !str_eq(started.as_str(), snapshot_id) {
            return Err(conflict("stock screen universe changed after the run started"));
        }
    }
    if date_lt(market_date, snapshot_effective) {
        return Err(invalid("stock universe effective date is later than the market date"));
    }
    Ok(())
}

/// A universe stored before under the same source, date and digest must have as many
/// members.
pub fn check_stored_universe(stored_member_count: u32, member_count: u32) -> (r: Result<(), Error>)
    ensures
        r is Ok <==> stored_member_count == member_count,
        r matches Err(e) ==> e is Invariant,
{
    if stored_member_count != member_count {
        return Err(broken("stock universe snapshot member count does not match"));
    }
    Ok(())
}

} // verus!
