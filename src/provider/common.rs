//! Shared data shapes: observations, forecasts, alerts, historical summaries,
//! the error kinds providers report and the features they may offer.
//!
//! Every numeric reading is a fixed-point `i32`: thousandths of the unit its
//! field names (degrees Celsius, percent, hectopascal, metres per second,
//! degrees, millimetres, metres, index points).  Coordinates are millionths of
//! a degree.  An absent optional reading means that the provider did not
//! report it; it is never read as zero.
use vstd::prelude::*;

use crate::utils::time::{elapsed_whole_millis, instant_now};

verus! {

/// The kinds of failure a provider reports.
#[derive(Debug, Clone)]
pub enum WeatherError {
    NetworkError(String),
    ParseError(String),
    NotFound(String),
    RateLimitExceeded,
    InvalidApiKey,
    ConfigurationError(String),
    DatabaseError(String),
}

impl WeatherError {
    /// The human-readable text of the error.
    pub open spec fn spec_message(&self) -> Seq<char> {
        match self {
            WeatherError::NetworkError(m) => "Network error: "@ + m@,
            WeatherError::ParseError(m) => "Parse error: "@ + m@,
            WeatherError::NotFound(m) => "Not found: "@ + m@,
            WeatherError::RateLimitExceeded => "Rate limit exceeded"@,
            WeatherError::InvalidApiKey => "Invalid API key"@,
            WeatherError::ConfigurationError(m) => "Configuration error: "@ + m@,
            WeatherError::DatabaseError(m) => "Database error: "@ + m@,
        }
    }

    /// Renders the error as text, e.g. `Network error: Connection failed`.
    pub fn message(&self) -> (r: String)
        ensures
            r@ == self.spec_message(),
    {
        match self {
            WeatherError::NetworkError(m) => prefixed("Network error: ", m),
            WeatherError::ParseError(m) => prefixed("Parse error: ", m),
            WeatherError::NotFound(m) => prefixed("Not found: ", m),
            WeatherError::RateLimitExceeded => String::from_str("Rate limit exceeded"),
            WeatherError::InvalidApiKey => String::from_str("Invalid API key"),
            WeatherError::ConfigurationError(m) => prefixed("Configuration error: ", m),
            WeatherError::DatabaseError(m) => prefixed("Database error: ", m),
        }
    }
}

/// `head` followed by `tail`.
pub fn prefixed(head: &str, tail: &String) -> (r: String)
    ensures
        r@ == head@ + tail@,
{
    let mut s = String::from_str(head);
    s.append(tail.as_str());
    s
}

/// Relies on `String::push`: appends one character.
#[verifier::external_body]
pub(crate) fn push_char(out: &mut String, c: char)
    ensures
        final(out)@ == old(out)@.push(c),
{
    out.push(c)
}

/// The decimal digit for `d`.
pub open spec fn digit(d: nat) -> char {
    if d == 0 {
        '0'
    } else if d == 1 {
        '1'
    } else if d == 2 {
        '2'
    } else if d == 3 {
        '3'
    } else if d == 4 {
        '4'
    } else if d == 5 {
        '5'
    } else if d == 6 {
        '6'
    } else if d == 7 {
        '7'
    } else if d == 8 {
        '8'
    } else {
        '9'
    }
}

/// The decimal text of `n`, without leading zeros.
pub open spec fn decimal(n: nat) -> Seq<char>
    decreases n,
{
    if n < 10 {
        seq![digit(n)]
    } else {
        decimal(n / 10) + seq![digit(n % 10)]
    }
}

/// The decimal digit for `d`.
fn digit_char(d: u64) -> (c: char)
    requires
        d < 10,
    ensures
        c == digit(d as nat),
{
    if d == 0 {
        '0'
    } else if d == 1 {
        '1'
    } else if d == 2 {
        '2'
    } else if d == 3 {
        '3'
    } else if d == 4 {
        '4'
    } else if d == 5 {
        '5'
    } else if d == 6 {
        '6'
    } else if d == 7 {
        '7'
    } else if d == 8 {
        '8'
    } else {
        '9'
    }
}

/// Appends the decimal text of `n`.
pub fn push_decimal(out: &mut String, n: u64)
    ensures
        final(out)@ == old(out)@ + decimal(n as nat),
    decreases n,
{
    if n >= 10 {
        push_decimal(out, n / 10);
    }
    let c = digit_char(n % 10);
    let mut one = String::new();
    push_char(&mut one, c);
    out.append(one.as_str());
    proof {
        if n < 10 {
            assert(n % 10 == n);
        }
    }
}


/// A copy of an optional string.
pub fn copy_opt_string(o: &Option<String>) -> (r: Option<String>)
    ensures
        r == *o,
{
    match o {
        Some(s) => Some(s.clone()),
        None => None,
    }
}

/// A copy of a list of strings.
pub fn copy_strings(v: &Vec<String>) -> (r: Vec<String>)
    ensures
        r@ == v@,
{
    let mut out: Vec<String> = Vec::new();
    let mut i: usize = 0;
    while i < v.len()
        invariant
            i <= v@.len(),
            out@ == v@.take(i as int),
        decreases v@.len() - i,
    {
        out.push(v[i].clone());
        proof {
            assert(out@ =~= v@.take(i + 1));
        }
        i += 1;
    }
    proof {
        assert(v@.take(v@.len() as int) =~= v@);
    }
    out
}

/// Where an observation or forecast applies.
#[derive(Debug, Clone)]
pub struct Location {
    pub latitude: i32,
    pub longitude: i32,
    pub name: String,
    pub country: Option<String>,
    pub region: Option<String>,
    pub postal_code: Option<String>,
}

impl Location {
    /// A field-for-field copy.
    pub fn copy(&self) -> (r: Location)
        ensures
            r == *self,
    {
        Location {
            latitude: self.latitude,
            longitude: self.longitude,
            name: self.name.clone(),
            country: copy_opt_string(&self.country),
            region: copy_opt_string(&self.region),
            postal_code: copy_opt_string(&self.postal_code),
        }
    }
}

/// A point-in-time observation.
#[derive(Debug, Clone)]
pub struct Weather {
    pub temperature: i32,
    pub feels_like: Option<i32>,
    pub humidity: Option<i32>,
    pub pressure: Option<i32>,
    pub wind_speed: Option<i32>,
    pub wind_direction: Option<i32>,
    pub description: String,
    pub icon: Option<String>,
    pub precipitation: Option<i32>,
    pub visibility: Option<i32>,
    pub uv_index: Option<i32>,
    pub provider: String,
    pub location: Location,
    pub timestamp: i64,
}

/// A multi-day forecast, optionally with hourly detail.
#[derive(Debug, Clone)]
pub struct Forecast {
    pub location: Location,
    pub provider: String,
    pub daily: Vec<DailyForecast>,
    pub hourly: Option<Vec<HourlyForecast>>,
}

/// The forecast for one calendar day, keyed by its date string.
#[derive(Debug, Clone)]
pub struct DailyForecast {
    pub date: String,
    pub temperature_min: i32,
    pub temperature_max: i32,
    pub humidity: Option<i32>,
    pub precipitation_probability: Option<i32>,
    pub precipitation_amount: Option<i32>,
    pub wind_speed: Option<i32>,
    pub wind_direction: Option<i32>,
    pub description: String,
    pub icon: Option<String>,
    pub sunrise: Option<String>,
    pub sunset: Option<String>,
}

/// The forecast for one hour, keyed by its date-time string.
#[derive(Debug, Clone)]
pub struct HourlyForecast {
    pub datetime: String,
    pub temperature: i32,
    pub feels_like: Option<i32>,
    pub humidity: Option<i32>,
    pub precipitation_probability: Option<i32>,
    pub precipitation_amount: Option<i32>,
    pub wind_speed: Option<i32>,
    pub wind_direction: Option<i32>,
    pub description: String,
    pub icon: Option<String>,
}

/// A weather alert issued for an area.
#[derive(Debug, Clone)]
pub struct Alert {
    pub title: String,
    pub description: String,
    pub severity: AlertSeverity,
    pub start: String,
    pub end: Option<String>,
    pub regions: Vec<String>,
}

impl Alert {
    /// A field-for-field copy.
    pub fn copy(&self) -> (r: Alert)
        ensures
            r.title == self.title,
            r.description == self.description,
            r.severity == self.severity,
            r.start == self.start,
            r.end == self.end,
            r.regions@ == self.regions@,
    {
        Alert {
            title: self.title.clone(),
            description: self.description.clone(),
            severity: self.severity,
            start: self.start.clone(),
            end: copy_opt_string(&self.end),
            regions: copy_strings(&self.regions),
        }
    }
}

/// How serious an alert is, from least to most.
#[derive(Debug, Clone, Copy, PartialEq, Eq, Structural, PartialOrd, Ord, Hash)]
pub enum AlertSeverity {
    Minor,
    Moderate,
    Severe,
    Extreme,
}

impl AlertSeverity {
    /// The position of the severity in the order Minor < Moderate < Severe < Extreme.
    pub open spec fn spec_rank(self) -> int {
        match self {
            AlertSeverity::Minor => 0,
            AlertSeverity::Moderate => 1,
            AlertSeverity::Severe => 2,
            AlertSeverity::Extreme => 3,
        }
    }

    /// The position of the severity in the order Minor < Moderate < Severe < Extreme.
    pub fn rank(self) -> (r: u8)
        ensures
            r as int == self.spec_rank(),
    {
        match self {
            AlertSeverity::Minor => 0,
            AlertSeverity::Moderate => 1,
            AlertSeverity::Severe => 2,
            AlertSeverity::Extreme => 3,
        }
    }
}

/// A summary of one past day.
#[derive(Debug, Clone)]
pub struct HistoricalData {
    pub location: Location,
    pub provider: String,
    pub date: String,
    pub temperature_min: i32,
    pub temperature_max: i32,
    pub temperature_avg: i32,
    pub humidity_avg: Option<i32>,
    pub precipitation_total: Option<i32>,
    pub wind_speed_avg: Option<i32>,
}

/// A capability a provider may or may not offer.
#[derive(Debug, Clone, Copy, PartialEq, Eq, Structural)]
pub enum WeatherFeature {
    CurrentWeather,
    Forecast,
    Alerts,
    HistoricalData,
    HourlyForecast,
    UvIndex,
    AirQuality,
}


/// The calls of `ts` (milliseconds) that lie within `window` milliseconds
/// before `now`, in order.
pub open spec fn recent(ts: Seq<u64>, now: u64, window: int) -> Seq<u64>
    decreases ts.len(),
{
    if ts.len() == 0 {
        Seq::empty()
    } else if now - ts.last() < window {
        recent(ts.drop_last(), now, window).push(ts.last())
    } else {
        recent(ts.drop_last(), now, window)
    }
}

/// Keeps the calls of `ts` that lie within `window` milliseconds before
/// `now`.
pub fn prune(ts: &Vec<u64>, now: u64, window: u128) -> (r: Vec<u64>)
    ensures
        r@ == recent(ts@, now, window as int),
{
    let mut out: Vec<u64> = Vec::new();
    let mut i: usize = 0;
    while i < ts.len()
        invariant
            i <= ts@.len(),
            out@ == recent(ts@.take(i as int), now, window as int),
        decreases ts@.len() - i,
    {
        proof {
            assert(ts@.take(i + 1).drop_last() =~= ts@.take(i as int));
        }
        let t = ts[i];
        let keep = if now >= t {
            ((now - t) as u128) < window
        } else {
            true
        };
        if keep {
            out.push(t);
        }
        i += 1;
    }
    proof {
        assert(ts@.take(ts@.len() as int) =~= ts@);
    }
    out
}

/// A window of whole seconds in milliseconds.
pub open spec fn window_millis(seconds: u64) -> int {
    seconds * 1000
}

/// One admission check on recorded calls `ts` at `now`: admitted when fewer
/// than `max` calls lie within the window, and then recorded; a refusal
/// leaves the record as it was.
pub open spec fn admission(ts: Seq<u64>, now: u64, max: int, window: int) -> (bool, Seq<u64>) {
    if recent(ts, now, window).len() < max {
        (true, recent(ts, now, window).push(now))
    } else {
        (false, ts)
    }
}

/// The record after checks at each of `times` in turn, starting from `ts`.
pub open spec fn after_calls(ts: Seq<u64>, times: Seq<u64>, max: int, window: int) -> Seq<u64>
    decreases times.len(),
{
    if times.len() == 0 {
        ts
    } else {
        admission(after_calls(ts, times.drop_last(), max, window), times.last(), max, window).1
    }
}

/// Whether the last of the checks at `times`, starting from `ts`, admits.
pub open spec fn last_admitted(ts: Seq<u64>, times: Seq<u64>, max: int, window: int) -> bool {
    admission(after_calls(ts, times.drop_last(), max, window), times.last(), max, window).0
}

/// Calls that all lie within the window are all kept.
pub proof fn lemma_recent_keeps_all(ts: Seq<u64>, now: u64, window: int)
    requires
        forall|i: int| 0 <= i < ts.len() ==> now - #[trigger] ts[i] < window,
    ensures
        recent(ts, now, window) == ts,
    decreases ts.len(),
{
    if ts.len() > 0 {
        let rest = ts.drop_last();
        assert forall|i: int| 0 <= i < rest.len() implies now - #[trigger] rest[i] < window by {
            assert(rest[i] == ts[i]);
        }
        lemma_recent_keeps_all(rest, now, window);
        assert(rest.push(ts.last()) =~= ts);
    }
}

/// Calls that all lie a window or more in the past are all dropped.
pub proof fn lemma_recent_drops_all(ts: Seq<u64>, now: u64, window: int)
    requires
        forall|i: int| 0 <= i < ts.len() ==> now - #[trigger] ts[i] >= window,
    ensures
        recent(ts, now, window).len() == 0,
    decreases ts.len(),
{
    if ts.len() > 0 {
        let rest = ts.drop_last();
        assert forall|i: int| 0 <= i < rest.len() implies now - #[trigger] rest[i] >= window by {
            assert(rest[i] == ts[i]);
        }
        lemma_recent_drops_all(rest, now, window);
    }
}

/// Within one window, starting with no recorded call, a limiter of `max`
/// calls admits the first `max` calls and refuses the next one.
pub proof fn lemma_window_admits_exactly_max(times: Seq<u64>, max: nat, window: int)
    requires
        window > 0,
        times.len() == max + 1,
        forall|i: int, j: int| 0 <= i <= j < times.len() ==> times[i] <= times[j],
        times.last() - times[0] < window,
    ensures
        forall|k: int|
            0 <= k < max ==> last_admitted(Seq::empty(), #[trigger] times.take(k + 1), max as int, window),
        !last_admitted(Seq::empty(), times, max as int, window),
{
    assert forall|k: int| 0 <= k < max implies last_admitted(
        Seq::empty(),
        #[trigger] times.take(k + 1),
        max as int,
        window,
    ) by {
        lemma_prefix_recorded(times, max, window, k);
    }
    lemma_prefix_recorded(times, max, window, max as int);
    let state = times.take(max as int);
    assert(times.drop_last() =~= state);
    assert forall|i: int| 0 <= i < state.len() implies times.last() - #[trigger] state[i] < window by {
        assert(state[i] == times[i]);
    }
    lemma_recent_keeps_all(state, times.last(), window);
}

/// After the first `k` calls of one window every call is recorded.
proof fn lemma_prefix_recorded(times: Seq<u64>, max: nat, window: int, k: int)
    requires
        window > 0,
        times.len() == max + 1,
        forall|i: int, j: int| 0 <= i <= j < times.len() ==> times[i] <= times[j],
        times.last() - times[0] < window,
        0 <= k <= max,
    ensures
        after_calls(Seq::empty(), times.take(k), max as int, window) == times.take(k),
        k < max ==> last_admitted(Seq::empty(), times.take(k + 1), max as int, window),
    decreases k,
{
    if k > 0 {
        lemma_prefix_recorded(times, max, window, k - 1);
        assert(times.take(k).drop_last() =~= times.take(k - 1));
    }
    if k == 0 {
        assert(times.take(0) =~= Seq::<u64>::empty());
    }
    if k < max {
        let state = times.take(k);
        assert(times.take(k + 1).drop_last() =~= state);
        assert(times.take(k + 1).last() == times[k]);
        assert forall|i: int| 0 <= i < state.len() implies times[k] - #[trigger] state[i] < window by {
            assert(state[i] == times[i]);
            assert(times[0] <= times[i]);
            assert(times[k] <= times[max as int]);
        }
        lemma_recent_keeps_all(state, times[k], window);
    }
    if k > 0 {
        let prev = times.take(k - 1);
        assert(times.take(k).last() == times[k - 1]);
        assert forall|i: int| 0 <= i < prev.len() implies times[k - 1] - #[trigger] prev[i] < window by {
            assert(prev[i] == times[i]);
            assert(times[0] <= times[i]);
            assert(times[k - 1] <= times[max as int]);
        }
        lemma_recent_keeps_all(prev, times[k - 1], window);
        assert(prev.push(times[k - 1]) =~= times.take(k));
    }
}

/// Once a full window has passed since every recorded call, a call is
/// admitted again.
pub proof fn lemma_admits_after_window(ts: Seq<u64>, now: u64, max: nat, window: int)
    requires
        max >= 1,
        forall|i: int| 0 <= i < ts.len() ==> now - #[trigger] ts[i] >= window,
    ensures
        admission(ts, now, max as int, window).0,
{
    lemma_recent_drops_all(ts, now, window);
}

/// A fixed-window limiter of calls to one upstream service.
pub struct RateLimiter {
    pub max_requests: u32,
    pub window_seconds: u64,
    origin: std::time::Instant,
    requests: Vec<u64>,
}

impl RateLimiter {
    /// The recorded admissions, in milliseconds since the limiter was made.
    pub closed spec fn requests(&self) -> Seq<u64> {
        self.requests@
    }

    /// The most calls admitted within one window.
    pub closed spec fn limit(&self) -> u32 {
        self.max_requests
    }

    /// The window, in seconds.
    pub closed spec fn window(&self) -> u64 {
        self.window_seconds
    }

    /// A limiter of `max_requests` calls per `window_seconds`, with no call
    /// recorded.
    pub fn new(max_requests: u32, window_seconds: u64) -> (r: Self)
        ensures
            r.limit() == max_requests,
            r.window() == window_seconds,
            r.requests().len() == 0,
    {
        RateLimiter {
            max_requests,
            window_seconds,
            origin: instant_now(),
            requests: Vec::new(),
        }
    }

    /// The admission check at `now` (milliseconds since the limiter was
    /// made): calls older than the window are forgotten, then the call is
    /// admitted and recorded if fewer than `max_requests` remain; a refused
    /// call changes nothing.
    pub fn check_rate_limit_at(&mut self, now: u64) -> (r: bool)
        ensures
            (r, final(self).requests()) == admission(
                old(self).requests(),
                now,
                old(self).limit() as int,
                window_millis(old(self).window()),
            ),
            final(self).limit() == old(self).limit(),
            final(self).window() == old(self).window(),
    {
        let window = self.window_seconds as u128 * 1000;
        let mut kept = prune(&self.requests, now, window);
        if kept.len() < self.max_requests as usize {
            kept.push(now);
            self.requests = kept;
            true
        } else {
            false
        }
    }

    /// The admission check at the current time.
    pub fn check_rate_limit(&mut self) -> (r: bool)
        ensures
            exists|now: u64|
                (r, final(self).requests()) == admission(
                    old(self).requests(),
                    now,
                    old(self).limit() as int,
                    window_millis(old(self).window()),
                ),
    {
        let now = elapsed_millis_u64(&self.origin);
        self.check_rate_limit_at(now)
    }
}

/// Milliseconds elapsed since `origin`, saturating at `u64::MAX`.
pub fn elapsed_millis_u64(origin: &std::time::Instant) -> (r: u64) {
    let ms = elapsed_whole_millis(origin);
    if ms > u64::MAX as u128 {
        u64::MAX
    } else {
        ms as u64
    }
}

} // verus!
