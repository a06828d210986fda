//! The composite provider: a weighted list of providers, a fan-out over
//! them, the combination of what they return, and a time-boxed cache.
//!
//! Calling a provider is outside work, so a request runs in three verified
//! steps around it: a cache lookup (`cached_current`, `cached_forecast`,
//! `cached_alerts`); on a miss, a `FanOut` that says which provider to ask
//! next and records what each answered; and a finishing step that combines
//! the answers and stores the result in the cache.
use vstd::prelude::*;

use super::cache::{is_fresh, WeatherCache};
use super::combine::{
    average_weather, combine_forecasts, forecast_combines, merge_alerts, weather_combines,
    weight_in, weight_lookup, weights_positive, by_severity, first_of_key, flat_alerts,
    titled_all, of_rank, Keyed,
};
use super::common::{
    decimal, push_decimal, Alert, Forecast, HistoricalData, HourlyForecast, DailyForecast, Weather, WeatherError,
    WeatherFeature,
};

verus! {

/// What the composite knows of one provider: its name and its features.
pub struct ProviderInfo {
    pub name: String,
    pub features: Vec<WeatherFeature>,
}

/// A value held in the composite's cache.
pub enum CachedData {
    Current(Weather),
    Forecast(Forecast),
    Alerts(Vec<Alert>),
}

/// The kinds of request a fan-out serves.
#[derive(Debug, Clone, Copy, PartialEq, Eq, Structural)]
pub enum Request {
    Current,
    Forecast,
    Alerts,
    Historical,
}

/// Whether a provider is asked for a request: every provider is asked for
/// current weather; for the rest the provider must offer the feature.
pub open spec fn admits(info: ProviderInfo, req: Request) -> bool {
    match req {
        Request::Current => true,
        Request::Forecast => info.features@.contains(WeatherFeature::Forecast),
        Request::Alerts => info.features@.contains(WeatherFeature::Alerts),
        Request::Historical => info.features@.contains(WeatherFeature::HistoricalData),
    }
}

/// The positions of the providers asked for a request, in insertion order.
pub open spec fn eligible(providers: Seq<ProviderInfo>, req: Request) -> Seq<usize>
    decreases providers.len(),
{
    if providers.len() == 0 {
        Seq::empty()
    } else if admits(providers.last(), req) {
        eligible(providers.drop_last(), req).push((providers.len() - 1) as usize)
    } else {
        eligible(providers.drop_last(), req)
    }
}

/// Eligible positions are positions of the list.
proof fn lemma_eligible_in_range(providers: Seq<ProviderInfo>, req: Request)
    requires
        providers.len() <= usize::MAX,
    ensures
        forall|k: int|
            0 <= k < eligible(providers, req).len() ==> #[trigger] eligible(providers, req)[k]
                < providers.len(),
    decreases providers.len(),
{
    if providers.len() > 0 {
        let prev = eligible(providers.drop_last(), req);
        lemma_eligible_in_range(providers.drop_last(), req);
        if admits(providers.last(), req) {
            let e = eligible(providers, req);
            assert(e == prev.push((providers.len() - 1) as usize));
            assert forall|k: int| 0 <= k < e.len() implies #[trigger] e[k] < providers.len() by {
                if k < prev.len() {
                    assert(e[k] == prev[k]);
                }
            }
        }
    }
}

/// Whether a fan-out stops at the first answer: when fallback is disabled,
/// except for alerts, for which every capable provider is always asked.
pub open spec fn short_circuits(req: Request, fallback_enabled: bool) -> bool {
    !fallback_enabled && req != Request::Alerts
}

/// What a fan-out asks for next.
#[derive(Debug, Clone, Copy, PartialEq, Eq, Structural)]
pub enum FanOutStep {
    /// Ask the provider at this position of the composite's list.
    Query(usize),
    /// Ask no one else.
    Done,
}

/// The sequential fan-out of one request over the composite's providers.
pub struct FanOut<T> {
    candidates: Vec<usize>,
    names: Vec<String>,
    next: usize,
    stop_after_success: bool,
    results: Vec<(String, T)>,
}

impl<T> FanOut<T> {
    /// The positions of the providers to ask, in order.
    pub closed spec fn candidates(&self) -> Seq<usize> {
        self.candidates@
    }

    /// The names of those providers.
    pub closed spec fn names(&self) -> Seq<String> {
        self.names@
    }

    /// How many candidates have been asked.
    pub closed spec fn position(&self) -> int {
        self.next as int
    }

    /// Whether the fan-out stops at the first answer.
    pub closed spec fn stops_after_success(&self) -> bool {
        self.stop_after_success
    }

    /// The answers so far, each with its provider's name.
    pub closed spec fn results(&self) -> Seq<(String, T)> {
        self.results@
    }

    /// The fan-out's bookkeeping is consistent.
    pub closed spec fn wf(&self) -> bool {
        &&& self.names@.len() == self.candidates@.len()
        &&& self.candidates@.len() <= usize::MAX
        &&& self.next <= self.candidates@.len()
    }

    /// What the fan-out asks for next: the next candidate, unless all were
    /// asked or an answer came and the fan-out stops at the first answer.
    pub open spec fn spec_step(&self) -> FanOutStep {
        if self.position() < self.candidates().len() && !(self.stops_after_success()
            && self.results().len() > 0) {
            FanOutStep::Query(self.candidates()[self.position()])
        } else {
            FanOutStep::Done
        }
    }

    /// What to ask for next.
    pub fn next_step(&self) -> (r: FanOutStep)
        requires
            self.wf(),
        ensures
            r == self.spec_step(),
    {
        if self.next < self.candidates.len() && !(self.stop_after_success && self.results.len()
            > 0) {
            FanOutStep::Query(self.candidates[self.next])
        } else {
            FanOutStep::Done
        }
    }

    /// Records the answer of the provider that `next_step` named.
    pub fn record_success(&mut self, value: T)
        requires
            old(self).wf(),
            old(self).spec_step() is Query,
        ensures
            final(self).wf(),
            final(self).position() == old(self).position() + 1,
            final(self).results() == old(self).results().push(
                (old(self).names()[old(self).position()], value),
            ),
            final(self).candidates() == old(self).candidates(),
            final(self).names() == old(self).names(),
            final(self).stops_after_success() == old(self).stops_after_success(),
    {
        let name = self.names[self.next].clone();
        self.results.push((name, value));
        self.next = self.next + 1;
    }

    /// Records that the provider `next_step` named failed; the failure is
    /// absorbed.
    pub fn record_failure(&mut self)
        requires
            old(self).wf(),
            old(self).spec_step() is Query,
        ensures
            final(self).wf(),
            final(self).position() == old(self).position() + 1,
            final(self).results() == old(self).results(),
            final(self).candidates() == old(self).candidates(),
            final(self).names() == old(self).names(),
            final(self).stops_after_success() == old(self).stops_after_success(),
    {
        self.next = self.next + 1;
    }

    /// The answers collected.
    pub fn into_results(self) -> (r: Vec<(String, T)>)
        ensures
            r@ == self.results(),
    {
        self.results
    }
}

/// With fallback disabled, a fan-out asks no one after the first answer.
pub proof fn lemma_no_query_after_success<T>(fan: FanOut<T>)
    requires
        fan.stops_after_success(),
        fan.results().len() > 0,
    ensures
        fan.spec_step() == FanOutStep::Done,
{
}

/// The cache key of current weather for a location: `current:{location}`.
pub open spec fn current_key(location: Seq<char>) -> Seq<char> {
    "current:"@ + location
}

/// The cache key of a forecast: `forecast:{location}:{days}`.
pub open spec fn forecast_key(location: Seq<char>, days: u8) -> Seq<char> {
    "forecast:"@ + location + ":"@ + decimal(days as nat)
}

/// The cache key of alerts for a location: `alerts:{location}`.
pub open spec fn alerts_key(location: Seq<char>) -> Seq<char> {
    "alerts:"@ + location
}

/// A copy of an observation.
fn copy_weather(w: &Weather) -> (r: Weather)
    ensures
        r == *w,
{
    Weather {
        temperature: w.temperature,
        feels_like: w.feels_like,
        humidity: w.humidity,
        pressure: w.pressure,
        wind_speed: w.wind_speed,
        wind_direction: w.wind_direction,
        description: w.description.clone(),
        icon: super::common::copy_opt_string(&w.icon),
        precipitation: w.precipitation,
        visibility: w.visibility,
        uv_index: w.uv_index,
        provider: w.provider.clone(),
        location: w.location.copy(),
        timestamp: w.timestamp,
    }
}

/// A copy of a list of keyed forecast entries.
fn copy_entries<T: Keyed>(v: &Vec<T>) -> (r: Vec<T>)
    ensures
        r@ == v@,
{
    let mut out: Vec<T> = Vec::new();
    let mut i: usize = 0;
    while i < v.len()
        invariant
            i <= v@.len(),
            out@ == v@.take(i as int),
        decreases v@.len() - i,
    {
        out.push(v[i].copy());
        proof {
            assert(out@ =~= v@.take(i + 1));
        }
        i += 1;
    }
    proof {
        assert(v@.take(v@.len() as int) =~= v@);
    }
    out
}

/// Two forecasts hold the same data.
pub open spec fn same_forecast(a: Forecast, b: Forecast) -> bool {
    &&& a.location == b.location
    &&& a.provider == b.provider
    &&& a.daily@ == b.daily@
    &&& match (a.hourly, b.hourly) {
        (Some(x), Some(y)) => x@ == y@,
        (None, None) => true,
        _ => false,
    }
}

/// A copy of a forecast.
fn copy_forecast(f: &Forecast) -> (r: Forecast)
    ensures
        same_forecast(r, *f),
{
    let daily: Vec<DailyForecast> = copy_entries(&f.daily);
    let hourly: Option<Vec<HourlyForecast>> = match &f.hourly {
        Some(h) => Some(copy_entries(h)),
        None => None,
    };
    Forecast { location: f.location.copy(), provider: f.provider.clone(), daily, hourly }
}

/// Two alerts hold the same data.
pub open spec fn same_alert(a: Alert, b: Alert) -> bool {
    &&& a.title == b.title
    &&& a.description == b.description
    &&& a.severity == b.severity
    &&& a.start == b.start
    &&& a.end == b.end
    &&& a.regions@ == b.regions@
}

/// Two lists of alerts hold the same data.
pub open spec fn same_alerts(a: Seq<Alert>, b: Seq<Alert>) -> bool {
    &&& a.len() == b.len()
    &&& forall|i: int| 0 <= i < a.len() ==> same_alert(#[trigger] a[i], b[i])
}

/// A copy of a list of alerts.
fn copy_alerts(v: &Vec<Alert>) -> (r: Vec<Alert>)
    ensures
        same_alerts(r@, v@),
{
    let mut out: Vec<Alert> = Vec::new();
    let mut i: usize = 0;
    while i < v.len()
        invariant
            i <= v@.len(),
            out@.len() == i,
            forall|j: int| 0 <= j < i ==> same_alert(#[trigger] out@[j], v@[j]),
        decreases v@.len() - i,
    {
        out.push(v[i].copy());
        i += 1;
    }
    out
}

/// Whether a provider offers a feature.
fn offers(info: &ProviderInfo, f: WeatherFeature) -> (r: bool)
    ensures
        r == info.features@.contains(f),
{
    let mut i: usize = 0;
    while i < info.features.len()
        invariant
            i <= info.features@.len(),
            forall|j: int| 0 <= j < i ==> info.features@[j] != f,
        decreases info.features@.len() - i,
    {
        if info.features[i] == f {
            return true;
        }
        i += 1;
    }
    false
}

/// Whether a provider is asked for a request.
fn admits_request(info: &ProviderInfo, req: Request) -> (r: bool)
    ensures
        r == admits(*info, req),
{
    match req {
        Request::Current => true,
        Request::Forecast => offers(info, WeatherFeature::Forecast),
        Request::Alerts => offers(info, WeatherFeature::Alerts),
        Request::Historical => offers(info, WeatherFeature::HistoricalData),
    }
}

/// The composite provider.
pub struct ComboProvider {
    providers: Vec<ProviderInfo>,
    weights: Vec<(String, u32)>,
    cache: WeatherCache<CachedData>,
    cache_duration_secs: u64,
    fallback_enabled: bool,
}

impl ComboProvider {
    /// The providers, in the order they were added.
    pub closed spec fn providers(&self) -> Seq<ProviderInfo> {
        self.providers@
    }

    /// The recorded weights, in the order they were recorded.
    pub closed spec fn weights(&self) -> Seq<(String, u32)> {
        self.weights@
    }

    /// How long a cached result stays fresh, in seconds.
    pub closed spec fn cache_duration(&self) -> u64 {
        self.cache_duration_secs
    }

    /// Whether a fan-out goes on after the first answer.
    pub closed spec fn fallback(&self) -> bool {
        self.fallback_enabled
    }

    /// The cached value and its store time under `key`, if any.
    pub closed spec fn cached(&self, key: Seq<char>) -> Option<(CachedData, i64)> {
        self.cache.entry(key)
    }

    /// Every recorded weight is at least one.
    pub closed spec fn wf(&self) -> bool {
        weights_positive(self.weights@)
    }

    /// The cached value under `key` if it is still fresh at `now`.
    pub open spec fn fresh_entry(&self, key: Seq<char>, now: i64) -> Option<CachedData> {
        match self.cached(key) {
            Some((v, t)) => if is_fresh(t, self.cache_duration(), now) {
                Some(v)
            } else {
                None
            },
            None => None,
        }
    }

    /// A composite without providers, caching for 300 seconds, with fallback.
    pub fn new() -> (r: Self)
        ensures
            r.wf(),
            r.providers().len() == 0,
            r.weights().len() == 0,
            r.cache_duration() == 300,
            r.fallback(),
            forall|k: Seq<char>| #[trigger] r.cached(k) is None,
    {
        let cache = WeatherCache::new();
        ComboProvider {
            providers: Vec::new(),
            weights: Vec::new(),
            cache,
            cache_duration_secs: 300,
            fallback_enabled: true,
        }
    }

    /// Appends a provider and records its weight under its name; a later
    /// provider of the same name overrides the weight of an earlier one.
    pub fn add_provider(self, provider: ProviderInfo, weight: u32) -> (r: Self)
        requires
            self.wf(),
            weight >= 1,
        ensures
            r.wf(),
            r.providers() == self.providers().push(provider),
            r.weights() == self.weights().push((provider.name, weight)),
            r.cache_duration() == self.cache_duration(),
            r.fallback() == self.fallback(),
            forall|k: Seq<char>| #[trigger] r.cached(k) == self.cached(k),
    {
        let mut c = self;
        let name = provider.name.clone();
        c.providers.push(provider);
        c.weights.push((name, weight));
        c
    }

    /// Sets how long a cached result stays fresh.
    pub fn set_cache_duration(self, seconds: u64) -> (r: Self)
        ensures
            r.wf() == self.wf(),
            r.providers() == self.providers(),
            r.weights() == self.weights(),
            r.cache_duration() == seconds,
            r.fallback() == self.fallback(),
            forall|k: Seq<char>| #[trigger] r.cached(k) == self.cached(k),
    {
        let mut c = self;
        c.cache_duration_secs = seconds;
        c
    }

    /// Sets whether a fan-out goes on after the first answer.
    pub fn set_fallback_enabled(self, enabled: bool) -> (r: Self)
        ensures
            r.wf() == self.wf(),
            r.providers() == self.providers(),
            r.weights() == self.weights(),
            r.cache_duration() == self.cache_duration(),
            r.fallback() == enabled,
            forall|k: Seq<char>| #[trigger] r.cached(k) == self.cached(k),
    {
        let mut c = self;
        c.fallback_enabled = enabled;
        c
    }

    /// The weight a provider name carries in a combination.
    pub fn weight_of(&self, name: &String) -> (r: u32)
        ensures
            r == weight_in(self.weights(), name@),
    {
        weight_lookup(&self.weights, name)
    }

    /// The composite's name.
    pub fn name(&self) -> (r: &'static str)
        ensures
            r@ == "Combo"@,
    {
        "Combo"
    }

    /// Whether any provider offers the feature.
    pub fn supports_feature(&self, feature: WeatherFeature) -> (r: bool)
        ensures
            r == exists|i: int|
                0 <= i < self.providers().len() && (#[trigger] self.providers()[i]).features@.contains(
                    feature,
                ),
    {
        let mut i: usize = 0;
        while i < self.providers.len()
            invariant
                i <= self.providers@.len(),
                forall|j: int| 0 <= j < i ==> !(#[trigger] self.providers@[j]).features@.contains(feature),
            decreases self.providers@.len() - i,
        {
            if offers(&self.providers[i], feature) {
                proof {
                    assert(self.providers()[i as int].features@.contains(feature));
                }
                return true;
            }
            i += 1;
        }
        false
    }

    /// Starts the fan-out of a request over the providers that are asked
    /// for it, in insertion order.
    pub fn fan_out<T>(&self, req: Request) -> (r: FanOut<T>)
        ensures
            r.wf(),
            r.candidates() == eligible(self.providers(), req),
            forall|k: int|
                0 <= k < r.candidates().len() ==> #[trigger] r.candidates()[k] < self.providers().len(),
            forall|k: int|
                0 <= k < r.names().len() ==> #[trigger] r.names()[k] == self.providers()[r.candidates()[k] as int].name,
            r.position() == 0,
            r.results().len() == 0,
            r.stops_after_success() == short_circuits(req, self.fallback()),
    {
        let mut candidates: Vec<usize> = Vec::new();
        let mut names: Vec<String> = Vec::new();
        let mut i: usize = 0;
        while i < self.providers.len()
            invariant
                i <= self.providers@.len(),
                candidates@ == eligible(self.providers@.take(i as int), req),
                names@.len() == candidates@.len(),
                candidates@.len() <= i,
                forall|k: int|
                    0 <= k < names@.len() ==> #[trigger] names@[k] == self.providers@[candidates@[k] as int].name,
            decreases self.providers@.len() - i,
        {
            proof {
                assert(self.providers@.take(i + 1).drop_last() =~= self.providers@.take(i as int));
            }
            if admits_request(&self.providers[i], req) {
                candidates.push(i);
                names.push(self.providers[i].name.clone());
            }
            i += 1;
        }
        proof {
            assert(self.providers@.take(self.providers@.len() as int) =~= self.providers@);
            lemma_eligible_in_range(self.providers@, req);
        }
        FanOut {
            candidates,
            names,
            next: 0,
            stop_after_success: !self.fallback_enabled && req != Request::Alerts,
            results: Vec::new(),
        }
    }

    /// The cached current weather for a location, if fresh.
    pub fn cached_current(&self, location: &str, now: i64) -> (r: Option<&Weather>)
        ensures
            r is Some <==> self.fresh_entry(current_key(location@), now) matches Some(
                CachedData::Current(_),
            ),
            r matches Some(w) ==> self.fresh_entry(current_key(location@), now) == Some(
                CachedData::Current(*w),
            ),
    {
        let mut key = String::from_str("current:");
        key.append(location);
        match self.cache.get(&key, self.cache_duration_secs, now) {
            Some(CachedData::Current(w)) => Some(w),
            _ => None,
        }
    }

    /// The cached forecast for a location and number of days, if fresh.
    pub fn cached_forecast(&self, location: &str, days: u8, now: i64) -> (r: Option<&Forecast>)
        ensures
            r is Some <==> self.fresh_entry(forecast_key(location@, days), now) matches Some(
                CachedData::Forecast(_),
            ),
            r matches Some(f) ==> self.fresh_entry(forecast_key(location@, days), now) == Some(
                CachedData::Forecast(*f),
            ),
    {
        let key = forecast_key_text(location, days);
        match self.cache.get(&key, self.cache_duration_secs, now) {
            Some(CachedData::Forecast(f)) => Some(f),
            _ => None,
        }
    }

    /// The cached alerts for a location, if fresh.
    pub fn cached_alerts(&self, location: &str, now: i64) -> (r: Option<&Vec<Alert>>)
        ensures
            r is Some <==> self.fresh_entry(alerts_key(location@), now) matches Some(
                CachedData::Alerts(_),
            ),
            r matches Some(a) ==> self.fresh_entry(alerts_key(location@), now) == Some(
                CachedData::Alerts(*a),
            ),
    {
        let mut key = String::from_str("alerts:");
        key.append(location);
        match self.cache.get(&key, self.cache_duration_secs, now) {
            Some(CachedData::Alerts(a)) => Some(a),
            _ => None,
        }
    }

    /// Combines the answers of a current-weather fan-out and caches the
    /// result under `current:{location}` at time `now`.
    pub fn finish_current(&mut self, location: &str, fan: FanOut<Weather>, now: i64) -> (r: Result<
        Weather,
        WeatherError,
    >)
        requires
            old(self).wf(),
        ensures
            final(self).wf(),
            final(self).providers() == old(self).providers(),
            final(self).weights() == old(self).weights(),
            final(self).cache_duration() == old(self).cache_duration(),
            final(self).fallback() == old(self).fallback(),
            r is Err <==> fan.results().len() == 0,
            r is Err ==> r->Err_0 is NotFound,
            r matches Ok(w) ==> {
                &&& weather_combines(old(self).weights(), fan.results(), now, w)
                &&& final(self).cached(current_key(location@)) == Some((CachedData::Current(w), now))
            },
            forall|k: Seq<char>|
                k != current_key(location@) || r is Err ==> #[trigger] final(self).cached(k)
                    == old(self).cached(k),
    {
        let results = fan.into_results();
        match average_weather(&self.weights, &results, now) {
            Ok(w) => {
                let mut key = String::from_str("current:");
                key.append(location);
                self.cache.set(key, CachedData::Current(copy_weather(&w)), now);
                Ok(w)
            },
            Err(e) => Err(e),
        }
    }

    /// Combines the answers of a forecast fan-out and caches the result
    /// under `forecast:{location}:{days}` at time `now`.
    pub fn finish_forecast(
        &mut self,
        location: &str,
        days: u8,
        fan: FanOut<Forecast>,
        now: i64,
    ) -> (r: Result<Forecast, WeatherError>)
        requires
            old(self).wf(),
        ensures
            final(self).wf(),
            final(self).providers() == old(self).providers(),
            final(self).weights() == old(self).weights(),
            final(self).cache_duration() == old(self).cache_duration(),
            final(self).fallback() == old(self).fallback(),
            r is Err <==> fan.results().len() == 0,
            r is Err ==> r->Err_0 is NotFound,
            r matches Ok(f) ==> {
                &&& forecast_combines(old(self).weights(), fan.results(), f)
                &&& final(self).cached(forecast_key(location@, days)) matches Some(
                    (CachedData::Forecast(c), t),
                ) && t == now && same_forecast(c, f)
            },
            forall|k: Seq<char>|
                k != forecast_key(location@, days) || r is Err ==> #[trigger] final(self).cached(k)
                    == old(self).cached(k),
    {
        let results = fan.into_results();
        match combine_forecasts(&self.weights, &results) {
            Ok(f) => {
                let key = forecast_key_text(location, days);
                self.cache.set(key, CachedData::Forecast(copy_forecast(&f)), now);
                Ok(f)
            },
            Err(e) => Err(e),
        }
    }

    /// Merges the answers of an alerts fan-out and caches the result under
    /// `alerts:{location}` at time `now`.  With no answer the result is an
    /// empty list.
    pub fn finish_alerts(&mut self, location: &str, fan: FanOut<Vec<Alert>>, now: i64) -> (r: Vec<
        Alert,
    >)
        requires
            old(self).wf(),
        ensures
            final(self).wf(),
            final(self).providers() == old(self).providers(),
            final(self).weights() == old(self).weights(),
            final(self).cache_duration() == old(self).cache_duration(),
            final(self).fallback() == old(self).fallback(),
            titled_all(r@, by_severity(first_of_key(flat_alerts(fan.results())))),
            fan.results().len() == 0 ==> r@.len() == 0,
            final(self).cached(alerts_key(location@)) matches Some((CachedData::Alerts(c), t))
                && t == now && same_alerts(c@, r@),
            forall|k: Seq<char>|
                k != alerts_key(location@) ==> #[trigger] final(self).cached(k) == old(
                    self,
                ).cached(k),
    {
        let results = fan.into_results();
        let merged = merge_alerts(&results);
        proof {
            if results@.len() == 0 {
                let s = first_of_key(flat_alerts(results@));
                assert(flat_alerts(results@) == Seq::<(String, Alert)>::empty());
                assert(s == Seq::<(String, Alert)>::empty());
                assert(of_rank(s, 3) == Seq::<(String, Alert)>::empty());
                assert(of_rank(s, 2) == Seq::<(String, Alert)>::empty());
                assert(of_rank(s, 1) == Seq::<(String, Alert)>::empty());
                assert(of_rank(s, 0) == Seq::<(String, Alert)>::empty());
                assert(by_severity(s) =~= Seq::<(String, Alert)>::empty());
            }
        }
        let mut key = String::from_str("alerts:");
        key.append(location);
        self.cache.set(key, CachedData::Alerts(copy_alerts(&merged)), now);
        merged
    }

    /// The first answer of a historical-data fan-out, as it came; not
    /// combined and not cached.
    pub fn finish_historical(&self, fan: FanOut<HistoricalData>) -> (r: Result<
        HistoricalData,
        WeatherError,
    >)
        ensures
            r is Err <==> fan.results().len() == 0,
            r is Err ==> r->Err_0 is NotFound,
            r matches Ok(h) ==> h == fan.results()[0].1,
    {
        let mut results = fan.into_results();
        if results.len() == 0 {
            return Err(WeatherError::NotFound(String::from_str("No historical data available")));
        }
        let first = results.remove(0);
        Ok(first.1)
    }
}

/// The text of `forecast_key(location, days)`.
fn forecast_key_text(location: &str, days: u8) -> (r: String)
    ensures
        r@ == forecast_key(location@, days),
{
    let mut key = String::from_str("forecast:");
    key.append(location);
    key.append(":");
    push_decimal(&mut key, days as u64);
    key
}

/// A result cached at `stored` is served, unchanged, to a lookup at `later`
/// while `later - stored` is below the cache duration.
pub proof fn lemma_cache_hit(c: ComboProvider, key: Seq<char>, v: CachedData, stored: i64, later: i64)
    requires
        c.cached(key) == Some((v, stored)),
        later - stored < c.cache_duration(),
    ensures
        c.fresh_entry(key, later) == Some(v),
{
}

/// A result cached at `stored` is not served to a lookup at `later` once
/// `later - stored` has reached the cache duration.
pub proof fn lemma_cache_expiry(c: ComboProvider, key: Seq<char>, v: CachedData, stored: i64, later: i64)
    requires
        c.cached(key) == Some((v, stored)),
        later - stored >= c.cache_duration(),
    ensures
        c.fresh_entry(key, later) is None,
{
}

} // verus!
