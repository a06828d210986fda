//! Weighted averaging of fixed-point readings.
//!
//! A reading is an `i32` in a fixed-point unit chosen by the caller (for
//! example thousandths of a degree Celsius); a weight is a `u32`.  The mean
//! of the readings that are present is their weight-scaled sum divided by
//! the sum of their weights, rounded toward zero.
use vstd::arithmetic::div_mod::*;
use vstd::prelude::*;

use super::common::{
    copy_opt_string, prefixed, Alert, AlertSeverity, DailyForecast, Forecast, HourlyForecast, Location, Weather,
    WeatherError,
};
use super::keys::{holds_key, lemma_lt_irreflexive, seq_lt, sorted_distinct, strictly_ascending};

verus! {

/// Integer division rounded toward zero (the divisor is positive).
pub open spec fn trunc_div(a: int, b: int) -> int {
    if a >= 0 {
        a / b
    } else {
        -((-a) / b)
    }
}

/// Sum of `value * weight` over the samples whose value is present.
pub open spec fn present_sum(s: Seq<(Option<i32>, u32)>) -> int
    decreases s.len(),
{
    if s.len() == 0 {
        0
    } else {
        present_sum(s.drop_last()) + match s.last().0 {
            Some(v) => v as int * s.last().1 as int,
            None => 0int,
        }
    }
}

/// Sum of the weights of the samples whose value is present.
pub open spec fn present_weight(s: Seq<(Option<i32>, u32)>) -> int
    decreases s.len(),
{
    if s.len() == 0 {
        0
    } else {
        present_weight(s.drop_last()) + match s.last().0 {
            Some(_) => s.last().1 as int,
            None => 0int,
        }
    }
}

/// The weighted mean of the present values; absent when no present value
/// carries any weight.
pub open spec fn weighted_mean(s: Seq<(Option<i32>, u32)>) -> Option<int> {
    if present_weight(s) > 0 {
        Some(trunc_div(present_sum(s), present_weight(s)))
    } else {
        None
    }
}

/// An optional reading seen as a mathematical integer.
pub open spec fn as_int(o: Option<i32>) -> Option<int> {
    match o {
        Some(v) => Some(v as int),
        None => None,
    }
}

/// A sample whose value is absent does not count: dropping it leaves the
/// weighted mean, and both sums behind it, unchanged.
pub proof fn lemma_absent_sample_ignored(s: Seq<(Option<i32>, u32)>, i: int)
    requires
        0 <= i < s.len(),
        s[i].0 is None,
    ensures
        present_sum(s.remove(i)) == present_sum(s),
        present_weight(s.remove(i)) == present_weight(s),
        weighted_mean(s.remove(i)) == weighted_mean(s),
    decreases s.len(),
{
    if i == s.len() - 1 {
        assert(s.remove(i) =~= s.drop_last());
    } else {
        assert(s.remove(i).drop_last() =~= s.drop_last().remove(i));
        assert(s.remove(i).last() == s.last());
        lemma_absent_sample_ignored(s.drop_last(), i);
    }
}

/// When every sample is present and weighs at least one, the samples have a
/// positive present weight.
pub proof fn lemma_all_present_has_weight(s: Seq<(Option<i32>, u32)>)
    requires
        s.len() > 0,
        forall|i: int| 0 <= i < s.len() ==> (#[trigger] s[i]).0 is Some && s[i].1 >= 1,
    ensures
        present_weight(s) >= 1,
    decreases s.len(),
{
    if s.len() > 1 {
        lemma_all_present_has_weight(s.drop_last());
    }
    lemma_present_weight_nonneg(s.drop_last());
}

/// Present weights are never negative.
pub proof fn lemma_present_weight_nonneg(s: Seq<(Option<i32>, u32)>)
    ensures
        present_weight(s) >= 0,
    decreases s.len(),
{
    if s.len() > 0 {
        lemma_present_weight_nonneg(s.drop_last());
    }
}

/// Weighted mean of the present readings, rounded toward zero.
pub fn mean_of(samples: &Vec<(Option<i32>, u32)>) -> (r: Option<i32>)
    ensures
        as_int(r) == weighted_mean(samples@),
{
    let mut sum: i128 = 0;
    let mut total: u128 = 0;
    let mut i: usize = 0;
    while i < samples.len()
        invariant
            i <= samples@.len(),
            sum as int == present_sum(samples@.take(i as int)),
            total as int == present_weight(samples@.take(i as int)),
            total <= i * 0xffff_ffffu128,
            -0x8000_0000 * total <= sum <= 0x7fff_ffff * total,
        decreases samples@.len() - i,
    {
        let v = samples[i].0;
        let w = samples[i].1;
        proof {
            assert(samples@.take(i + 1).drop_last() =~= samples@.take(i as int));
        }
        match v {
            Some(x) => {
                proof {
                    let xi = x as int;
                    let wi = w as int;
                    assert(-0x8000_0000 * wi <= xi * wi <= 0x7fff_ffff * wi) by (nonlinear_arith)
                        requires
                            -0x8000_0000 <= xi <= 0x7fff_ffff,
                            0 <= wi,
                    ;
                }
                sum = sum + (x as i128) * (w as i128);
                total = total + w as u128;
            },
            None => {},
        }
        i += 1;
    }
    proof {
        assert(samples@.take(samples@.len() as int) =~= samples@);
    }
    if total == 0 {
        None
    } else {
        let q: i128 = if sum >= 0 {
            proof {
                lemma_div_is_ordered(sum as int, 0x7fff_ffff * total as int, total as int);
                lemma_div_by_multiple(0x7fff_ffff, total as int);
                lemma_div_pos_is_pos(sum as int, total as int);
            }
            (sum as u128 / total) as i128
        } else {
            proof {
                lemma_div_is_ordered(-sum as int, 0x8000_0000 * total as int, total as int);
                lemma_div_by_multiple(0x8000_0000, total as int);
                lemma_div_pos_is_pos(-sum as int, total as int);
            }
            -(((-sum) as u128 / total) as i128)
        };
        Some(q as i32)
    }
}


/// The weight a provider name carries: the one recorded last under that
/// name, or one where none was recorded.
pub open spec fn weight_in(weights: Seq<(String, u32)>, name: Seq<char>) -> u32
    decreases weights.len(),
{
    if weights.len() == 0 {
        1
    } else if weights.last().0@ == name {
        weights.last().1
    } else {
        weight_in(weights.drop_last(), name)
    }
}

/// Every recorded weight is at least one.
pub open spec fn weights_positive(weights: Seq<(String, u32)>) -> bool {
    forall|i: int| 0 <= i < weights.len() ==> (#[trigger] weights[i]).1 >= 1
}

/// Under positive recorded weights every name weighs at least one.
pub proof fn lemma_weight_positive(weights: Seq<(String, u32)>, name: Seq<char>)
    requires
        weights_positive(weights),
    ensures
        weight_in(weights, name) >= 1,
    decreases weights.len(),
{
    if weights.len() > 0 && weights.last().0@ != name {
        lemma_weight_positive(weights.drop_last(), name);
    }
}

/// Looks up the weight of a provider name.
pub fn weight_lookup(weights: &Vec<(String, u32)>, name: &String) -> (r: u32)
    ensures
        r == weight_in(weights@, name@),
{
    let mut i: usize = weights.len();
    proof {
        assert(weights@.take(i as int) =~= weights@);
    }
    while i > 0
        invariant
            i <= weights@.len(),
            weight_in(weights@, name@) == weight_in(weights@.take(i as int), name@),
        decreases i,
    {
        proof {
            assert(weights@.take(i as int).drop_last() =~= weights@.take(i - 1));
        }
        if weights[i - 1].0 == *name {
            return weights[i - 1].1;
        }
        i -= 1;
    }
    1
}

/// The readings of an observation that a combination averages.
#[derive(Debug, Clone, Copy, PartialEq, Eq, Structural)]
pub enum WeatherField {
    Temperature,
    FeelsLike,
    Humidity,
    Pressure,
    WindSpeed,
    WindDirection,
    Precipitation,
    Visibility,
    UvIndex,
}

/// One reading of an observation; the temperature is always present.
pub open spec fn weather_field(w: Weather, f: WeatherField) -> Option<i32> {
    match f {
        WeatherField::Temperature => Some(w.temperature),
        WeatherField::FeelsLike => w.feels_like,
        WeatherField::Humidity => w.humidity,
        WeatherField::Pressure => w.pressure,
        WeatherField::WindSpeed => w.wind_speed,
        WeatherField::WindDirection => w.wind_direction,
        WeatherField::Precipitation => w.precipitation,
        WeatherField::Visibility => w.visibility,
        WeatherField::UvIndex => w.uv_index,
    }
}

/// Reads one reading of an observation.
pub fn read_weather_field(w: &Weather, f: WeatherField) -> (r: Option<i32>)
    ensures
        r == weather_field(*w, f),
{
    match f {
        WeatherField::Temperature => Some(w.temperature),
        WeatherField::FeelsLike => w.feels_like,
        WeatherField::Humidity => w.humidity,
        WeatherField::Pressure => w.pressure,
        WeatherField::WindSpeed => w.wind_speed,
        WeatherField::WindDirection => w.wind_direction,
        WeatherField::Precipitation => w.precipitation,
        WeatherField::Visibility => w.visibility,
        WeatherField::UvIndex => w.uv_index,
    }
}

/// Each result's reading of `f`, paired with the weight of the provider that
/// produced it.
pub open spec fn weather_samples(
    weights: Seq<(String, u32)>,
    results: Seq<(String, Weather)>,
    f: WeatherField,
) -> Seq<(Option<i32>, u32)> {
    Seq::new(
        results.len(),
        |i: int| (weather_field(results[i].1, f), weight_in(weights, results[i].0@)),
    )
}

/// The weighted mean of one reading over the results.
pub fn weather_field_mean(
    weights: &Vec<(String, u32)>,
    results: &Vec<(String, Weather)>,
    f: WeatherField,
) -> (r: Option<i32>)
    ensures
        as_int(r) == weighted_mean(weather_samples(weights@, results@, f)),
{
    let mut samples: Vec<(Option<i32>, u32)> = Vec::new();
    let mut i: usize = 0;
    while i < results.len()
        invariant
            i <= results@.len(),
            samples@ == weather_samples(weights@, results@, f).take(i as int),
        decreases results@.len() - i,
    {
        let v = read_weather_field(&results[i].1, f);
        let w = weight_lookup(weights, &results[i].0);
        samples.push((v, w));
        proof {
            assert(samples@ =~= weather_samples(weights@, results@, f).take(i + 1));
        }
        i += 1;
    }
    proof {
        assert(samples@ =~= weather_samples(weights@, results@, f));
    }
    mean_of(&samples)
}

/// `"{provider}: {description}"` for one result.
pub open spec fn entry_text(entry: (String, Weather)) -> Seq<char> {
    entry.0@ + ": "@ + entry.1.description@
}

/// The entry texts of the results joined by `" | "`.
pub open spec fn joined_descriptions(results: Seq<(String, Weather)>) -> Seq<char>
    decreases results.len(),
{
    if results.len() == 0 {
        Seq::empty()
    } else if results.len() == 1 {
        entry_text(results[0])
    } else {
        joined_descriptions(results.drop_last()) + " | "@ + entry_text(results.last())
    }
}

/// Joins the entry texts of the results.
fn join_descriptions(results: &Vec<(String, Weather)>) -> (r: String)
    ensures
        r@ == joined_descriptions(results@),
{
    let mut out = String::new();
    let mut i: usize = 0;
    while i < results.len()
        invariant
            i <= results@.len(),
            out@ == joined_descriptions(results@.take(i as int)),
        decreases results@.len() - i,
    {
        let ghost before = out@;
        if i > 0 {
            out.append(" | ");
        }
        out.append(results[i].0.as_str());
        out.append(": ");
        out.append(results[i].1.description.as_str());
        proof {
            let t = results@.take(i + 1);
            assert(t.drop_last() =~= results@.take(i as int));
            if i == 0 {
                assert(out@ =~= entry_text(t[0]));
            } else {
                assert(out@ =~= before + " | "@ + entry_text(t.last()));
            }
        }
        i += 1;
    }
    proof {
        assert(results@.take(results@.len() as int) =~= results@);
    }
    out
}

/// `w` combines the results: each reading is the weighted mean over the
/// providers that reported it, the description lists every contribution,
/// the location is the first contributor's, the icon is dropped, the provider
/// is `Combo` and the time is `now`.
pub open spec fn weather_combines(
    weights: Seq<(String, u32)>,
    results: Seq<(String, Weather)>,
    now: i64,
    w: Weather,
) -> bool {
    &&& forall|f: WeatherField|
        as_int(#[trigger] weather_field(w, f)) == weighted_mean(weather_samples(weights, results, f))
    &&& w.description@ == "Combined: "@ + joined_descriptions(results)
    &&& w.icon is None
    &&& w.provider@ == "Combo"@
    &&& w.location == results[0].1.location
    &&& w.timestamp == now
}

/// Combines observations from several providers into one.
///
/// Each reading is the weighted mean over the providers that reported it,
/// so an absent reading does not dilute the others; the description lists
/// every contribution; the location is the first contributor's; the icon is
/// dropped and the provider is `Combo`.  Without any result there is nothing
/// to combine and the answer is `NotFound`.
pub fn average_weather(
    weights: &Vec<(String, u32)>,
    results: &Vec<(String, Weather)>,
    now: i64,
) -> (r: Result<Weather, WeatherError>)
    requires
        weights_positive(weights@),
    ensures
        r is Err <==> results@.len() == 0,
        r is Err ==> r->Err_0 is NotFound,
        r matches Ok(w) ==> weather_combines(weights@, results@, now, w),
{
    if results.len() == 0 {
        return Err(WeatherError::NotFound(String::from_str("No weather data available from any provider")));
    }
    let temperature = weather_field_mean(weights, results, WeatherField::Temperature);
    proof {
        let s = weather_samples(weights@, results@, WeatherField::Temperature);
        assert forall|i: int| 0 <= i < s.len() implies (#[trigger] s[i]).0 is Some && s[i].1 >= 1 by {
            lemma_weight_positive(weights@, results@[i].0@);
        }
        lemma_all_present_has_weight(s);
    }
    let temperature = match temperature {
        Some(t) => t,
        None => 0,
    };
    let descriptions = join_descriptions(results);
    let w = Weather {
        temperature,
        feels_like: weather_field_mean(weights, results, WeatherField::FeelsLike),
        humidity: weather_field_mean(weights, results, WeatherField::Humidity),
        pressure: weather_field_mean(weights, results, WeatherField::Pressure),
        wind_speed: weather_field_mean(weights, results, WeatherField::WindSpeed),
        wind_direction: weather_field_mean(weights, results, WeatherField::WindDirection),
        description: prefixed("Combined: ", &descriptions),
        icon: None,
        precipitation: weather_field_mean(weights, results, WeatherField::Precipitation),
        visibility: weather_field_mean(weights, results, WeatherField::Visibility),
        uv_index: weather_field_mean(weights, results, WeatherField::UvIndex),
        provider: String::from_str("Combo"),
        location: results[0].1.location.copy(),
        timestamp: now,
    };
    proof {
        assert forall|f: WeatherField|
            as_int(#[trigger] weather_field(w, f)) == weighted_mean(
                weather_samples(weights@, results@, f),
            ) by {}
    }
    Ok(w)
}


/// A forecast entry filed under a text key (a date or a date-time).
pub trait Keyed: Sized {
    /// The key the entry is filed under.
    spec fn key_of(&self) -> Seq<char>;

    /// The key the entry is filed under.
    fn key(&self) -> (r: &String)
        ensures
            r@ == self.key_of(),
    ;

    /// A field-for-field copy.
    fn copy(&self) -> (r: Self)
        ensures
            r == *self,
    ;
}

impl Keyed for DailyForecast {
    open spec fn key_of(&self) -> Seq<char> {
        self.date@
    }

    fn key(&self) -> (r: &String) {
        &self.date
    }

    fn copy(&self) -> (r: Self) {
        DailyForecast {
            date: self.date.clone(),
            temperature_min: self.temperature_min,
            temperature_max: self.temperature_max,
            humidity: self.humidity,
            precipitation_probability: self.precipitation_probability,
            precipitation_amount: self.precipitation_amount,
            wind_speed: self.wind_speed,
            wind_direction: self.wind_direction,
            description: self.description.clone(),
            icon: copy_opt_string(&self.icon),
            sunrise: copy_opt_string(&self.sunrise),
            sunset: copy_opt_string(&self.sunset),
        }
    }
}

impl Keyed for HourlyForecast {
    open spec fn key_of(&self) -> Seq<char> {
        self.datetime@
    }

    fn key(&self) -> (r: &String) {
        &self.datetime
    }

    fn copy(&self) -> (r: Self) {
        HourlyForecast {
            datetime: self.datetime.clone(),
            temperature: self.temperature,
            feels_like: self.feels_like,
            humidity: self.humidity,
            precipitation_probability: self.precipitation_probability,
            precipitation_amount: self.precipitation_amount,
            wind_speed: self.wind_speed,
            wind_direction: self.wind_direction,
            description: self.description.clone(),
            icon: copy_opt_string(&self.icon),
        }
    }
}

/// The entries of `flat` filed under `key`, in order.
pub open spec fn bucket<T: Keyed>(flat: Seq<(String, T)>, key: Seq<char>) -> Seq<(String, T)>
    decreases flat.len(),
{
    if flat.len() == 0 {
        Seq::empty()
    } else if flat.last().1.key_of() == key {
        bucket(flat.drop_last(), key).push(flat.last())
    } else {
        bucket(flat.drop_last(), key)
    }
}

/// Some entry of `flat` is filed under `key`.
pub open spec fn has_key<T: Keyed>(flat: Seq<(String, T)>, key: Seq<char>) -> bool {
    exists|k: int| 0 <= k < flat.len() && (#[trigger] flat[k]).1.key_of() == key
}

/// A key that some entry is filed under has a non-empty bucket.
pub proof fn lemma_bucket_nonempty<T: Keyed>(flat: Seq<(String, T)>, key: Seq<char>)
    requires
        has_key(flat, key),
    ensures
        bucket(flat, key).len() > 0,
    decreases flat.len(),
{
    if flat.last().1.key_of() != key {
        let k = choose|k: int| 0 <= k < flat.len() && (#[trigger] flat[k]).1.key_of() == key;
        assert(flat.drop_last()[k] == flat[k]);
        lemma_bucket_nonempty(flat.drop_last(), key);
    }
}

/// Collects the entries of `flat` filed under `key`.
pub fn select_bucket<T: Keyed>(flat: &Vec<(String, T)>, key: &String) -> (r: Vec<(String, T)>)
    ensures
        r@ == bucket(flat@, key@),
{
    let mut out: Vec<(String, T)> = Vec::new();
    let mut i: usize = 0;
    while i < flat.len()
        invariant
            i <= flat@.len(),
            out@ == bucket(flat@.take(i as int), key@),
        decreases flat@.len() - i,
    {
        proof {
            assert(flat@.take(i + 1).drop_last() =~= flat@.take(i as int));
        }
        if *flat[i].1.key() == *key {
            out.push((flat[i].0.clone(), flat[i].1.copy()));
        }
        i += 1;
    }
    proof {
        assert(flat@.take(flat@.len() as int) =~= flat@);
    }
    out
}

/// The keys of the entries of `flat`, in order.
pub fn keys_of<T: Keyed>(flat: &Vec<(String, T)>) -> (r: Vec<String>)
    ensures
        r@.len() == flat@.len(),
        forall|k: int| 0 <= k < flat@.len() ==> (#[trigger] r@[k])@ == flat@[k].1.key_of(),
{
    let mut out: Vec<String> = Vec::new();
    let mut i: usize = 0;
    while i < flat.len()
        invariant
            i <= flat@.len(),
            out@.len() == i,
            forall|k: int| 0 <= k < i ==> (#[trigger] out@[k])@ == flat@[k].1.key_of(),
        decreases flat@.len() - i,
    {
        out.push(flat[i].1.key().clone());
        i += 1;
    }
    out
}

/// The keys of `s` ascend strictly.
pub open spec fn keys_ascending<T: Keyed>(s: Seq<T>) -> bool {
    forall|i: int, j: int|
        0 <= i < j < s.len() ==> seq_lt(#[trigger] s[i].key_of(), #[trigger] s[j].key_of())
}

/// Some entry of `out` is filed under `key`.
pub open spec fn lists_key<T: Keyed>(out: Seq<T>, key: Seq<char>) -> bool {
    exists|i: int| 0 <= i < out.len() && (#[trigger] out[i]).key_of() == key
}

/// `out` holds an entry for each key of `flat` and for no other key.
pub open spec fn covers_keys<T: Keyed>(out: Seq<T>, flat: Seq<(String, T)>) -> bool {
    &&& forall|i: int| 0 <= i < out.len() ==> has_key(flat, (#[trigger] out[i]).key_of())
    &&& forall|k: int| 0 <= k < flat.len() ==> lists_key(out, (#[trigger] flat[k]).1.key_of())
}

/// The distinct keys of `flat`, ascending, and a bucket of entries for each.
fn keyed_buckets<T: Keyed>(flat: &Vec<(String, T)>) -> (r: (Vec<String>, Vec<Vec<(String, T)>>))
    ensures
        r.0@.len() == r.1@.len(),
        strictly_ascending(r.0@),
        forall|i: int| 0 <= i < r.0@.len() ==> has_key(flat@, (#[trigger] r.0@[i])@),
        forall|k: int| 0 <= k < flat@.len() ==> holds_key(r.0@, (#[trigger] flat@[k]).1.key_of()),
        forall|i: int| 0 <= i < r.1@.len() ==> (#[trigger] r.1@[i])@ == bucket(flat@, r.0@[i]@),
        forall|i: int| 0 <= i < r.1@.len() ==> (#[trigger] r.1@[i])@.len() > 0,
{
    let keys = keys_of(flat);
    let sorted = sorted_distinct(&keys);
    proof {
        assert forall|i: int| 0 <= i < sorted@.len() implies has_key(flat@, (#[trigger] sorted@[i])@) by {
            assert(holds_key(keys@, sorted@[i]@));
            let k = choose|k: int| 0 <= k < keys@.len() && (#[trigger] keys@[k])@ == sorted@[i]@;
            assert(flat@[k].1.key_of() == sorted@[i]@);
        }
        assert forall|k: int| 0 <= k < flat@.len() implies holds_key(
            sorted@,
            (#[trigger] flat@[k]).1.key_of(),
        ) by {
            assert(holds_key(sorted@, keys@[k]@));
        }
    }
    let mut buckets: Vec<Vec<(String, T)>> = Vec::new();
    let mut i: usize = 0;
    while i < sorted.len()
        invariant
            i <= sorted@.len(),
            buckets@.len() == i,
            forall|i: int| 0 <= i < sorted@.len() ==> has_key(flat@, (#[trigger] sorted@[i])@),
            forall|j: int| 0 <= j < i ==> (#[trigger] buckets@[j])@ == bucket(flat@, sorted@[j]@),
            forall|j: int| 0 <= j < i ==> (#[trigger] buckets@[j])@.len() > 0,
        decreases sorted@.len() - i,
    {
        let b = select_bucket(flat, &sorted[i]);
        proof {
            lemma_bucket_nonempty(flat@, sorted@[i as int]@);
        }
        buckets.push(b);
        i += 1;
    }
    (sorted, buckets)
}

/// The readings of a daily forecast that a combination averages.
#[derive(Debug, Clone, Copy, PartialEq, Eq, Structural)]
pub enum DailyField {
    TemperatureMin,
    TemperatureMax,
    Humidity,
    PrecipitationProbability,
    PrecipitationAmount,
    WindSpeed,
    WindDirection,
}

/// One reading of a daily forecast; the extremes are always present.
pub open spec fn daily_field(d: DailyForecast, f: DailyField) -> Option<i32> {
    match f {
        DailyField::TemperatureMin => Some(d.temperature_min),
        DailyField::TemperatureMax => Some(d.temperature_max),
        DailyField::Humidity => d.humidity,
        DailyField::PrecipitationProbability => d.precipitation_probability,
        DailyField::PrecipitationAmount => d.precipitation_amount,
        DailyField::WindSpeed => d.wind_speed,
        DailyField::WindDirection => d.wind_direction,
    }
}

/// Reads one reading of a daily forecast.
pub fn read_daily_field(d: &DailyForecast, f: DailyField) -> (r: Option<i32>)
    ensures
        r == daily_field(*d, f),
{
    match f {
        DailyField::TemperatureMin => Some(d.temperature_min),
        DailyField::TemperatureMax => Some(d.temperature_max),
        DailyField::Humidity => d.humidity,
        DailyField::PrecipitationProbability => d.precipitation_probability,
        DailyField::PrecipitationAmount => d.precipitation_amount,
        DailyField::WindSpeed => d.wind_speed,
        DailyField::WindDirection => d.wind_direction,
    }
}

/// Each entry's reading of `f`, with the weight of its provider.
pub open spec fn daily_samples(
    weights: Seq<(String, u32)>,
    entries: Seq<(String, DailyForecast)>,
    f: DailyField,
) -> Seq<(Option<i32>, u32)> {
    Seq::new(
        entries.len(),
        |i: int| (daily_field(entries[i].1, f), weight_in(weights, entries[i].0@)),
    )
}

/// The weighted mean of one reading over the entries.
fn daily_field_mean(
    weights: &Vec<(String, u32)>,
    entries: &Vec<(String, DailyForecast)>,
    f: DailyField,
) -> (r: Option<i32>)
    ensures
        as_int(r) == weighted_mean(daily_samples(weights@, entries@, f)),
{
    let mut samples: Vec<(Option<i32>, u32)> = Vec::new();
    let mut i: usize = 0;
    while i < entries.len()
        invariant
            i <= entries@.len(),
            samples@ == daily_samples(weights@, entries@, f).take(i as int),
        decreases entries@.len() - i,
    {
        let v = read_daily_field(&entries[i].1, f);
        let w = weight_lookup(weights, &entries[i].0);
        samples.push((v, w));
        proof {
            assert(samples@ =~= daily_samples(weights@, entries@, f).take(i + 1));
        }
        i += 1;
    }
    proof {
        assert(samples@ =~= daily_samples(weights@, entries@, f));
    }
    mean_of(&samples)
}

/// The sunrise of the first entry that has one.
pub open spec fn first_sunrise(entries: Seq<(String, DailyForecast)>) -> Option<String>
    decreases entries.len(),
{
    if entries.len() == 0 {
        None
    } else if first_sunrise(entries.drop_last()) is Some {
        first_sunrise(entries.drop_last())
    } else {
        entries.last().1.sunrise
    }
}

/// The sunset of the first entry that has one.
pub open spec fn first_sunset(entries: Seq<(String, DailyForecast)>) -> Option<String>
    decreases entries.len(),
{
    if entries.len() == 0 {
        None
    } else if first_sunset(entries.drop_last()) is Some {
        first_sunset(entries.drop_last())
    } else {
        entries.last().1.sunset
    }
}

/// `d` combines the entries of one day.
pub open spec fn day_combines(
    weights: Seq<(String, u32)>,
    entries: Seq<(String, DailyForecast)>,
    d: DailyForecast,
) -> bool {
    &&& forall|f: DailyField|
        as_int(#[trigger] daily_field(d, f)) == weighted_mean(daily_samples(weights, entries, f))
    &&& d.description@ == "Combined forecast"@
    &&& d.icon is None
    &&& d.sunrise == first_sunrise(entries)
    &&& d.sunset == first_sunset(entries)
}

/// Combines the entries that several providers gave for one day.
pub fn combine_day(
    weights: &Vec<(String, u32)>,
    date: &String,
    entries: &Vec<(String, DailyForecast)>,
) -> (d: DailyForecast)
    requires
        weights_positive(weights@),
        entries@.len() > 0,
    ensures
        d.date == *date,
        day_combines(weights@, entries@, d),
{
    let mut sunrise: Option<String> = None;
    let mut sunset: Option<String> = None;
    let mut i: usize = 0;
    while i < entries.len()
        invariant
            i <= entries@.len(),
            sunrise == first_sunrise(entries@.take(i as int)),
            sunset == first_sunset(entries@.take(i as int)),
        decreases entries@.len() - i,
    {
        proof {
            assert(entries@.take(i + 1).drop_last() =~= entries@.take(i as int));
        }
        if sunrise.is_none() {
            sunrise = copy_opt_string(&entries[i].1.sunrise);
        }
        if sunset.is_none() {
            sunset = copy_opt_string(&entries[i].1.sunset);
        }
        i += 1;
    }
    proof {
        assert(entries@.take(entries@.len() as int) =~= entries@);
        let s1 = daily_samples(weights@, entries@, DailyField::TemperatureMin);
        let s2 = daily_samples(weights@, entries@, DailyField::TemperatureMax);
        assert forall|i: int| 0 <= i < s1.len() implies (#[trigger] s1[i]).0 is Some && s1[i].1 >= 1 by {
            lemma_weight_positive(weights@, entries@[i].0@);
        }
        assert forall|i: int| 0 <= i < s2.len() implies (#[trigger] s2[i]).0 is Some && s2[i].1 >= 1 by {
            lemma_weight_positive(weights@, entries@[i].0@);
        }
        lemma_all_present_has_weight(s1);
        lemma_all_present_has_weight(s2);
    }
    let low = match daily_field_mean(weights, entries, DailyField::TemperatureMin) {
        Some(v) => v,
        None => 0,
    };
    let high = match daily_field_mean(weights, entries, DailyField::TemperatureMax) {
        Some(v) => v,
        None => 0,
    };
    let d = DailyForecast {
        date: date.clone(),
        temperature_min: low,
        temperature_max: high,
        humidity: daily_field_mean(weights, entries, DailyField::Humidity),
        precipitation_probability: daily_field_mean(
            weights,
            entries,
            DailyField::PrecipitationProbability,
        ),
        precipitation_amount: daily_field_mean(weights, entries, DailyField::PrecipitationAmount),
        wind_speed: daily_field_mean(weights, entries, DailyField::WindSpeed),
        wind_direction: daily_field_mean(weights, entries, DailyField::WindDirection),
        description: String::from_str("Combined forecast"),
        icon: None,
        sunrise,
        sunset,
    };
    proof {
        assert forall|f: DailyField|
            as_int(#[trigger] daily_field(d, f)) == weighted_mean(
                daily_samples(weights@, entries@, f),
            ) by {}
    }
    d
}

/// Each hourly entry's temperature, with the weight of its provider.
pub open spec fn hourly_samples(
    weights: Seq<(String, u32)>,
    entries: Seq<(String, HourlyForecast)>,
) -> Seq<(Option<i32>, u32)> {
    Seq::new(
        entries.len(),
        |i: int| (Some(entries[i].1.temperature), weight_in(weights, entries[i].0@)),
    )
}

/// `h` combines the entries of one hour: only the temperature is averaged.
pub open spec fn hour_combines(
    weights: Seq<(String, u32)>,
    entries: Seq<(String, HourlyForecast)>,
    h: HourlyForecast,
) -> bool {
    &&& weighted_mean(hourly_samples(weights, entries)) == Some(h.temperature as int)
    &&& h.feels_like is None
    &&& h.humidity is None
    &&& h.precipitation_probability is None
    &&& h.precipitation_amount is None
    &&& h.wind_speed is None
    &&& h.wind_direction is None
    &&& h.description@ == "Combined"@
    &&& h.icon is None
}

/// Combines the entries that several providers gave for one hour.
pub fn combine_hour(
    weights: &Vec<(String, u32)>,
    datetime: &String,
    entries: &Vec<(String, HourlyForecast)>,
) -> (h: HourlyForecast)
    requires
        weights_positive(weights@),
        entries@.len() > 0,
    ensures
        h.datetime == *datetime,
        hour_combines(weights@, entries@, h),
{
    let mut samples: Vec<(Option<i32>, u32)> = Vec::new();
    let mut i: usize = 0;
    while i < entries.len()
        invariant
            i <= entries@.len(),
            samples@ == hourly_samples(weights@, entries@).take(i as int),
        decreases entries@.len() - i,
    {
        let w = weight_lookup(weights, &entries[i].0);
        samples.push((Some(entries[i].1.temperature), w));
        proof {
            assert(samples@ =~= hourly_samples(weights@, entries@).take(i + 1));
        }
        i += 1;
    }
    proof {
        assert(samples@ =~= hourly_samples(weights@, entries@));
        let s = hourly_samples(weights@, entries@);
        assert forall|i: int| 0 <= i < s.len() implies (#[trigger] s[i]).0 is Some && s[i].1 >= 1 by {
            lemma_weight_positive(weights@, entries@[i].0@);
        }
        lemma_all_present_has_weight(s);
    }
    let temperature = match mean_of(&samples) {
        Some(v) => v,
        None => 0,
    };
    HourlyForecast {
        datetime: datetime.clone(),
        temperature,
        feels_like: None,
        humidity: None,
        precipitation_probability: None,
        precipitation_amount: None,
        wind_speed: None,
        wind_direction: None,
        description: String::from_str("Combined"),
        icon: None,
    }
}


/// Each item paired with the name of the provider that gave it.
pub open spec fn tagged<T>(name: String, items: Seq<T>) -> Seq<(String, T)> {
    Seq::new(items.len(), |i: int| (name, items[i]))
}

/// All daily entries of the forecasts, provider by provider, in order.
pub open spec fn flat_daily(forecasts: Seq<(String, Forecast)>) -> Seq<(String, DailyForecast)>
    decreases forecasts.len(),
{
    if forecasts.len() == 0 {
        Seq::empty()
    } else {
        flat_daily(forecasts.drop_last()) + tagged(forecasts.last().0, forecasts.last().1.daily@)
    }
}

/// The hourly entries of a forecast; none where it has no hourly part.
pub open spec fn hourly_items(f: Forecast) -> Seq<HourlyForecast> {
    match f.hourly {
        Some(v) => v@,
        None => Seq::empty(),
    }
}

/// All hourly entries of the forecasts, provider by provider, in order.
pub open spec fn flat_hourly(forecasts: Seq<(String, Forecast)>) -> Seq<(String, HourlyForecast)>
    decreases forecasts.len(),
{
    if forecasts.len() == 0 {
        Seq::empty()
    } else {
        flat_hourly(forecasts.drop_last()) + tagged(
            forecasts.last().0,
            hourly_items(forecasts.last().1),
        )
    }
}

/// Appends copies of `items`, each paired with `name`.
fn push_tagged<T: Keyed>(out: &mut Vec<(String, T)>, name: &String, items: &Vec<T>)
    ensures
        final(out)@ == old(out)@ + tagged(*name, items@),
{
    let ghost start = out@;
    let mut j: usize = 0;
    while j < items.len()
        invariant
            j <= items@.len(),
            out@ == start + tagged(*name, items@.take(j as int)),
        decreases items@.len() - j,
    {
        out.push((name.clone(), items[j].copy()));
        proof {
            assert(tagged(*name, items@.take(j + 1)) =~= tagged(*name, items@.take(j as int)).push(
                (*name, items@[j as int]),
            ));
        }
        j += 1;
    }
    proof {
        assert(items@.take(items@.len() as int) =~= items@);
    }
}

/// The daily entries of all forecasts with their providers' names.
fn flatten_daily(forecasts: &Vec<(String, Forecast)>) -> (r: Vec<(String, DailyForecast)>)
    ensures
        r@ == flat_daily(forecasts@),
{
    let mut out: Vec<(String, DailyForecast)> = Vec::new();
    let mut i: usize = 0;
    while i < forecasts.len()
        invariant
            i <= forecasts@.len(),
            out@ == flat_daily(forecasts@.take(i as int)),
        decreases forecasts@.len() - i,
    {
        push_tagged(&mut out, &forecasts[i].0, &forecasts[i].1.daily);
        proof {
            assert(forecasts@.take(i + 1).drop_last() =~= forecasts@.take(i as int));
        }
        i += 1;
    }
    proof {
        assert(forecasts@.take(forecasts@.len() as int) =~= forecasts@);
    }
    out
}

/// The hourly entries of all forecasts with their providers' names.
fn flatten_hourly(forecasts: &Vec<(String, Forecast)>) -> (r: Vec<(String, HourlyForecast)>)
    ensures
        r@ == flat_hourly(forecasts@),
{
    let mut out: Vec<(String, HourlyForecast)> = Vec::new();
    let mut i: usize = 0;
    while i < forecasts.len()
        invariant
            i <= forecasts@.len(),
            out@ == flat_hourly(forecasts@.take(i as int)),
        decreases forecasts@.len() - i,
    {
        let ghost before = out@;
        match &forecasts[i].1.hourly {
            Some(items) => push_tagged(&mut out, &forecasts[i].0, items),
            None => {
                proof {
                    assert(out@ =~= before + tagged(forecasts@[i as int].0, Seq::<HourlyForecast>::empty()));
                }
            },
        }
        proof {
            assert(forecasts@.take(i + 1).drop_last() =~= forecasts@.take(i as int));
        }
        i += 1;
    }
    proof {
        assert(forecasts@.take(forecasts@.len() as int) =~= forecasts@);
    }
    out
}

/// `out` is the day-by-day combination of the forecasts: one entry per
/// distinct date, ascending by date, each combining that date's entries.
pub open spec fn days_merged(
    weights: Seq<(String, u32)>,
    forecasts: Seq<(String, Forecast)>,
    out: Seq<DailyForecast>,
) -> bool {
    &&& keys_ascending(out)
    &&& covers_keys(out, flat_daily(forecasts))
    &&& forall|i: int|
        0 <= i < out.len() ==> day_combines(
            weights,
            bucket(flat_daily(forecasts), out[i].key_of()),
            #[trigger] out[i],
        )
}

/// `out` is the hour-by-hour combination of the forecasts: one entry per
/// distinct date-time, ascending, each combining that hour's entries.
pub open spec fn hours_merged(
    weights: Seq<(String, u32)>,
    forecasts: Seq<(String, Forecast)>,
    out: Seq<HourlyForecast>,
) -> bool {
    &&& keys_ascending(out)
    &&& covers_keys(out, flat_hourly(forecasts))
    &&& forall|i: int|
        0 <= i < out.len() ==> hour_combines(
            weights,
            bucket(flat_hourly(forecasts), out[i].key_of()),
            #[trigger] out[i],
        )
}

/// Combines the daily entries of the forecasts date by date.
pub fn combine_days(weights: &Vec<(String, u32)>, forecasts: &Vec<(String, Forecast)>) -> (r: Vec<
    DailyForecast,
>)
    requires
        weights_positive(weights@),
    ensures
        days_merged(weights@, forecasts@, r@),
{
    let flat = flatten_daily(forecasts);
    let (keys, buckets) = keyed_buckets(&flat);
    let mut out: Vec<DailyForecast> = Vec::new();
    let mut i: usize = 0;
    while i < keys.len()
        invariant
            i <= keys@.len(),
            weights_positive(weights@),
            keys@.len() == buckets@.len(),
            out@.len() == i,
            forall|j: int| 0 <= j < buckets@.len() ==> (#[trigger] buckets@[j])@ == bucket(flat@, keys@[j]@),
            forall|j: int| 0 <= j < buckets@.len() ==> (#[trigger] buckets@[j])@.len() > 0,
            forall|j: int| 0 <= j < i ==> (#[trigger] out@[j]).date == keys@[j],
            forall|j: int|
                0 <= j < i ==> day_combines(weights@, bucket(flat@, keys@[j]@), #[trigger] out@[j]),
        decreases keys@.len() - i,
    {
        let d = combine_day(weights, &keys[i], &buckets[i]);
        out.push(d);
        i += 1;
    }
    proof {
        assert forall|k: int| 0 <= k < flat@.len() implies lists_key(
            out@,
            (#[trigger] flat@[k]).1.key_of(),
        ) by {
            assert(holds_key(keys@, flat@[k].1.key_of()));
            let i = choose|i: int| 0 <= i < keys@.len() && (#[trigger] keys@[i])@ == flat@[k].1.key_of();
            assert(out@[i].key_of() == keys@[i]@);
        }
        assert forall|i: int, j: int| 0 <= i < j < out@.len() implies seq_lt(
            #[trigger] out@[i].key_of(),
            #[trigger] out@[j].key_of(),
        ) by {
            assert(seq_lt(keys@[i]@, keys@[j]@));
        }
    }
    out
}

/// Combines the hourly entries of the forecasts hour by hour.
pub fn combine_hours(weights: &Vec<(String, u32)>, forecasts: &Vec<(String, Forecast)>) -> (r:
    Vec<HourlyForecast>)
    requires
        weights_positive(weights@),
    ensures
        hours_merged(weights@, forecasts@, r@),
        r@.len() == 0 <==> flat_hourly(forecasts@).len() == 0,
{
    let flat = flatten_hourly(forecasts);
    let (keys, buckets) = keyed_buckets(&flat);
    let mut out: Vec<HourlyForecast> = Vec::new();
    let mut i: usize = 0;
    while i < keys.len()
        invariant
            i <= keys@.len(),
            weights_positive(weights@),
            keys@.len() == buckets@.len(),
            out@.len() == i,
            forall|j: int| 0 <= j < buckets@.len() ==> (#[trigger] buckets@[j])@ == bucket(flat@, keys@[j]@),
            forall|j: int| 0 <= j < buckets@.len() ==> (#[trigger] buckets@[j])@.len() > 0,
            forall|j: int| 0 <= j < i ==> (#[trigger] out@[j]).datetime == keys@[j],
            forall|j: int|
                0 <= j < i ==> hour_combines(weights@, bucket(flat@, keys@[j]@), #[trigger] out@[j]),
        decreases keys@.len() - i,
    {
        let h = combine_hour(weights, &keys[i], &buckets[i]);
        out.push(h);
        i += 1;
    }
    proof {
        assert forall|k: int| 0 <= k < flat@.len() implies lists_key(
            out@,
            (#[trigger] flat@[k]).1.key_of(),
        ) by {
            assert(holds_key(keys@, flat@[k].1.key_of()));
            let i = choose|i: int| 0 <= i < keys@.len() && (#[trigger] keys@[i])@ == flat@[k].1.key_of();
            assert(out@[i].key_of() == keys@[i]@);
        }
        assert forall|i: int, j: int| 0 <= i < j < out@.len() implies seq_lt(
            #[trigger] out@[i].key_of(),
            #[trigger] out@[j].key_of(),
        ) by {
            assert(seq_lt(keys@[i]@, keys@[j]@));
        }
        if flat@.len() > 0 {
            assert(lists_key(out@, flat@[0].1.key_of()));
        }
        if out@.len() > 0 {
            assert(has_key(flat@, out@[0].key_of()));
        }
    }
    out
}

/// `f` combines the forecasts: days and hours merged key by key, the first
/// forecast's location, and `Combo` as provider.
pub open spec fn forecast_combines(
    weights: Seq<(String, u32)>,
    forecasts: Seq<(String, Forecast)>,
    f: Forecast,
) -> bool {
    &&& f.location == forecasts[0].1.location
    &&& f.provider@ == "Combo"@
    &&& days_merged(weights, forecasts, f.daily@)
    &&& f.hourly is None <==> flat_hourly(forecasts).len() == 0
    &&& f.hourly matches Some(h) ==> hours_merged(weights, forecasts, h@)
}

/// Combines forecasts from several providers into one.
///
/// Daily entries are grouped by date and hourly entries by date-time across
/// all providers; each group is averaged with the providers' weights and the
/// groups come out in ascending key order.  Only the temperature of an hour
/// is combined.  The location is the first forecast's and the provider is
/// `Combo`.  Without any forecast the answer is `NotFound`.
pub fn combine_forecasts(
    weights: &Vec<(String, u32)>,
    forecasts: &Vec<(String, Forecast)>,
) -> (r: Result<Forecast, WeatherError>)
    requires
        weights_positive(weights@),
    ensures
        r is Err <==> forecasts@.len() == 0,
        r is Err ==> r->Err_0 is NotFound,
        r matches Ok(f) ==> forecast_combines(weights@, forecasts@, f),
{
    if forecasts.len() == 0 {
        return Err(WeatherError::NotFound(String::from_str("No forecast data available from any provider")));
    }
    let daily = combine_days(weights, forecasts);
    let hours = combine_hours(weights, forecasts);
    let hourly = if hours.len() == 0 {
        None
    } else {
        Some(hours)
    };
    Ok(
        Forecast {
            location: forecasts[0].1.location.copy(),
            provider: String::from_str("Combo"),
            daily,
            hourly,
        },
    )
}


/// The identity of an alert: `"{title}-{start}"`.
pub open spec fn alert_key(a: Alert) -> Seq<char> {
    a.title@ + "-"@ + a.start@
}

/// All alerts of the lists, each with the name of its provider, in order.
pub open spec fn flat_alerts(lists: Seq<(String, Vec<Alert>)>) -> Seq<(String, Alert)>
    decreases lists.len(),
{
    if lists.len() == 0 {
        Seq::empty()
    } else {
        flat_alerts(lists.drop_last()) + tagged(lists.last().0, lists.last().1@)
    }
}

/// Some alert of `s` has identity `key`.
pub open spec fn key_seen(s: Seq<(String, Alert)>, key: Seq<char>) -> bool {
    exists|i: int| 0 <= i < s.len() && alert_key((#[trigger] s[i]).1) == key
}

/// The alerts of `s` whose identity no earlier alert had.
pub open spec fn first_of_key(s: Seq<(String, Alert)>) -> Seq<(String, Alert)>
    decreases s.len(),
{
    if s.len() == 0 {
        Seq::empty()
    } else if key_seen(s.drop_last(), alert_key(s.last().1)) {
        first_of_key(s.drop_last())
    } else {
        first_of_key(s.drop_last()).push(s.last())
    }
}

/// The alerts of `s` whose severity has rank `rank`, in order.
pub open spec fn of_rank(s: Seq<(String, Alert)>, rank: int) -> Seq<(String, Alert)>
    decreases s.len(),
{
    if s.len() == 0 {
        Seq::empty()
    } else if s.last().1.severity.spec_rank() == rank {
        of_rank(s.drop_last(), rank).push(s.last())
    } else {
        of_rank(s.drop_last(), rank)
    }
}

/// The alerts of `s` from most to least severe, keeping the order of alerts
/// of equal severity.
pub open spec fn by_severity(s: Seq<(String, Alert)>) -> Seq<(String, Alert)> {
    of_rank(s, 3) + of_rank(s, 2) + of_rank(s, 1) + of_rank(s, 0)
}

/// `out` is the alert of `src` with the title prefixed by `"[{provider}] "`.
pub open spec fn is_titled(out: Alert, src: (String, Alert)) -> bool {
    &&& out.title@ == "["@ + src.0@ + "] "@ + src.1.title@
    &&& out.description@ == src.1.description@
    &&& out.severity == src.1.severity
    &&& out.start@ == src.1.start@
    &&& out.end == src.1.end
    &&& out.regions@ == src.1.regions@
}

/// `out` holds the titled alerts of `src`, position by position.
pub open spec fn titled_all(out: Seq<Alert>, src: Seq<(String, Alert)>) -> bool {
    &&& out.len() == src.len()
    &&& forall|i: int| 0 <= i < out.len() ==> is_titled(#[trigger] out[i], src[i])
}

/// Appends the alerts of `kept` whose severity has rank `rank`.
fn push_rank(
    out: &mut Vec<Alert>,
    kept: &Vec<Alert>,
    rank: u8,
    Ghost(done): Ghost<Seq<(String, Alert)>>,
    Ghost(src): Ghost<Seq<(String, Alert)>>,
)
    requires
        titled_all(old(out)@, done),
        titled_all(kept@, src),
    ensures
        titled_all(final(out)@, done + of_rank(src, rank as int)),
{
    let mut k: usize = 0;
    while k < kept.len()
        invariant
            k <= kept@.len(),
            titled_all(kept@, src),
            titled_all(out@, done + of_rank(src.take(k as int), rank as int)),
        decreases kept@.len() - k,
    {
        proof {
            assert(src.take(k + 1).drop_last() =~= src.take(k as int));
            assert(is_titled(kept@[k as int], src[k as int]));
        }
        let a = &kept[k];
        if a.severity.rank() == rank {
            let c = a.copy();
            let ghost prev = out@;
            out.push(c);
            proof {
                assert((done + of_rank(src.take(k as int), rank as int)).push(src[k as int]) =~= done
                    + of_rank(src.take(k + 1), rank as int));
                let target = done + of_rank(src.take(k + 1), rank as int);
                assert forall|i: int| 0 <= i < out@.len() implies is_titled(#[trigger] out@[i], target[i]) by {
                    if i < prev.len() {
                        assert(out@[i] == prev[i]);
                    }
                }
            }
        }
        k += 1;
    }
    proof {
        assert(src.take(kept@.len() as int) =~= src);
    }
}

/// Merges the alerts of several providers.
///
/// An alert whose `"{title}-{start}"` identity an earlier alert already had
/// is dropped; a kept alert gets its title prefixed by `"[{provider}] "`.
/// The result runs from most to least severe, alerts of equal severity in
/// the order they came.
pub fn merge_alerts(lists: &Vec<(String, Vec<Alert>)>) -> (r: Vec<Alert>)
    ensures
        titled_all(r@, by_severity(first_of_key(flat_alerts(lists@)))),
{
    let mut kept: Vec<Alert> = Vec::new();
    let mut seen: Vec<String> = Vec::new();
    let ghost mut prefix: Seq<(String, Alert)> = Seq::empty();
    let mut i: usize = 0;
    while i < lists.len()
        invariant
            i <= lists@.len(),
            prefix == flat_alerts(lists@.take(i as int)),
            seen@.len() == prefix.len(),
            forall|m: int| 0 <= m < seen@.len() ==> (#[trigger] seen@[m])@ == alert_key(prefix[m].1),
            titled_all(kept@, first_of_key(prefix)),
        decreases lists@.len() - i,
    {
        let name = &lists[i].0;
        let alerts = &lists[i].1;
        let ghost base = prefix;
        let mut j: usize = 0;
        while j < alerts.len()
            invariant
                i < lists@.len(),
                *name == lists@[i as int].0,
                alerts@ == lists@[i as int].1@,
                j <= alerts@.len(),
                prefix == base + tagged(*name, alerts@.take(j as int)),
                seen@.len() == prefix.len(),
                forall|m: int| 0 <= m < seen@.len() ==> (#[trigger] seen@[m])@ == alert_key(prefix[m].1),
                titled_all(kept@, first_of_key(prefix)),
            decreases alerts@.len() - j,
        {
            let a = &alerts[j];
            let mut key = a.title.clone();
            key.append("-");
            key.append(a.start.as_str());
            let mut found = false;
            let mut m: usize = 0;
            while m < seen.len()
                invariant
                    m <= seen@.len(),
                    found <==> exists|q: int| 0 <= q < m && (#[trigger] seen@[q])@ == key@,
                decreases seen@.len() - m,
            {
                if seen[m] == key {
                    found = true;
                }
                m += 1;
            }
            let ghost entry = (*name, alerts@[j as int]);
            proof {
                assert(tagged(*name, alerts@.take(j + 1)) =~= tagged(*name, alerts@.take(j as int)).push(
                    entry,
                ));
                assert((prefix.push(entry)).drop_last() =~= prefix);
                if found {
                    let q = choose|q: int| 0 <= q < seen@.len() && (#[trigger] seen@[q])@ == key@;
                    assert(alert_key(prefix[q].1) == key@);
                } else {
                    assert forall|q: int| 0 <= q < prefix.len() implies alert_key(
                        (#[trigger] prefix[q]).1,
                    ) != key@ by {
                        assert(seen@[q]@ == alert_key(prefix[q].1));
                    }
                }
            }
            if !found {
                let mut title = String::from_str("[");
                title.append(name.as_str());
                title.append("] ");
                title.append(a.title.as_str());
                let c = a.copy();
                let t = Alert {
                    title,
                    description: c.description,
                    severity: c.severity,
                    start: c.start,
                    end: c.end,
                    regions: c.regions,
                };
                kept.push(t);
            }
            seen.push(key);
            proof {
                prefix = prefix.push(entry);
                assert forall|m: int| 0 <= m < seen@.len() implies (#[trigger] seen@[m])@ == alert_key(
                    prefix[m].1,
                ) by {}
            }
            j += 1;
        }
        proof {
            assert(alerts@.take(alerts@.len() as int) =~= alerts@);
            assert(lists@.take(i + 1).drop_last() =~= lists@.take(i as int));
        }
        i += 1;
    }
    proof {
        assert(lists@.take(lists@.len() as int) =~= lists@);
    }
    let ghost src = first_of_key(prefix);
    let mut out: Vec<Alert> = Vec::new();
    push_rank(&mut out, &kept, 3, Ghost(Seq::empty()), Ghost(src));
    proof {
        assert(Seq::<(String, Alert)>::empty() + of_rank(src, 3) =~= of_rank(src, 3));
    }
    push_rank(&mut out, &kept, 2, Ghost(of_rank(src, 3)), Ghost(src));
    push_rank(&mut out, &kept, 1, Ghost(of_rank(src, 3) + of_rank(src, 2)), Ghost(src));
    push_rank(
        &mut out,
        &kept,
        0,
        Ghost(of_rank(src, 3) + of_rank(src, 2) + of_rank(src, 1)),
        Ghost(src),
    );
    out
}


/// A provider whose name has no recorded weight carries weight one.
pub proof fn lemma_unrecorded_weight_is_one(weights: Seq<(String, u32)>, name: Seq<char>)
    requires
        forall|i: int| 0 <= i < weights.len() ==> (#[trigger] weights[i]).0@ != name,
    ensures
        weight_in(weights, name) == 1,
    decreases weights.len(),
{
    if weights.len() > 0 {
        let rest = weights.drop_last();
        assert forall|i: int| 0 <= i < rest.len() implies (#[trigger] rest[i]).0@ != name by {
            assert(rest[i] == weights[i]);
        }
        lemma_unrecorded_weight_is_one(rest, name);
    }
}

/// Every alert that `of_rank(s, rank)` keeps has that rank.
pub proof fn lemma_of_rank_has_rank(s: Seq<(String, Alert)>, rank: int)
    ensures
        forall|k: int|
            0 <= k < of_rank(s, rank).len() ==> (#[trigger] of_rank(s, rank)[k]).1.severity.spec_rank()
                == rank,
    decreases s.len(),
{
    if s.len() > 0 {
        lemma_of_rank_has_rank(s.drop_last(), rank);
        let prev = of_rank(s.drop_last(), rank);
        let cur = of_rank(s, rank);
        assert forall|k: int| 0 <= k < cur.len() implies (#[trigger] cur[k]).1.severity.spec_rank()
            == rank by {
            if k < prev.len() {
                assert(cur[k] == prev[k]);
            }
        }
    }
}

/// Merged alerts never rise in severity: each is at least as severe as
/// every alert after it.
pub proof fn lemma_by_severity_descending(s: Seq<(String, Alert)>)
    ensures
        forall|i: int, j: int|
            0 <= i < j < by_severity(s).len() ==> (#[trigger] by_severity(s)[i]).1.severity.spec_rank()
                >= (#[trigger] by_severity(s)[j]).1.severity.spec_rank(),
{
    let a = of_rank(s, 3);
    let b = of_rank(s, 2);
    let c = of_rank(s, 1);
    let d = of_rank(s, 0);
    lemma_of_rank_has_rank(s, 3);
    lemma_of_rank_has_rank(s, 2);
    lemma_of_rank_has_rank(s, 1);
    lemma_of_rank_has_rank(s, 0);
    let x = by_severity(s);
    assert forall|i: int| 0 <= i < x.len() implies (#[trigger] x[i]).1.severity.spec_rank() == (if i
        < a.len() {
        3int
    } else if i < a.len() + b.len() {
        2int
    } else if i < a.len() + b.len() + c.len() {
        1int
    } else {
        0int
    }) by {
        if i < a.len() {
            assert(x[i] == a[i]);
        } else if i < a.len() + b.len() {
            assert(x[i] == b[i - a.len()]);
        } else if i < a.len() + b.len() + c.len() {
            assert(x[i] == c[i - a.len() - b.len()]);
        } else {
            assert(x[i] == d[i - a.len() - b.len() - c.len()]);
        }
    }
}

/// Two providers reporting alerts of the same identity yield one merged
/// alert: the first provider's.
pub proof fn lemma_duplicate_alert_kept_once(lists: Seq<(String, Vec<Alert>)>)
    requires
        lists.len() == 2,
        lists[0].1@.len() == 1,
        lists[1].1@.len() == 1,
        alert_key(lists[0].1@[0]) == alert_key(lists[1].1@[0]),
    ensures
        by_severity(first_of_key(flat_alerts(lists))) == seq![(lists[0].0, lists[0].1@[0])],
{
    let e0 = (lists[0].0, lists[0].1@[0]);
    let e1 = (lists[1].0, lists[1].1@[0]);
    assert(lists.drop_last().drop_last() =~= Seq::<(String, Vec<Alert>)>::empty());
    assert(tagged(lists[0].0, lists[0].1@) =~= seq![e0]);
    assert(tagged(lists[1].0, lists[1].1@) =~= seq![e1]);
    assert(lists.drop_last().last() == lists[0]);
    assert(flat_alerts(lists.drop_last().drop_last()) == Seq::<(String, Alert)>::empty());
    assert(flat_alerts(lists.drop_last()) =~= seq![e0]);
    let flat = flat_alerts(lists);
    assert(flat =~= seq![e0, e1]);
    assert(flat.drop_last() =~= seq![e0]);
    assert(seq![e0].drop_last() =~= Seq::<(String, Alert)>::empty());
    assert(key_seen(flat.drop_last(), alert_key(e1.1))) by {
        assert(flat.drop_last()[0] == e0);
    }
    let kept = first_of_key(flat);
    assert(!key_seen(seq![e0].drop_last(), alert_key(e0.1)));
    assert(first_of_key(seq![e0].drop_last()) == Seq::<(String, Alert)>::empty());
    assert(first_of_key(seq![e0]) =~= seq![e0]);
    assert(kept =~= seq![e0]);
    assert(kept.drop_last() =~= Seq::<(String, Alert)>::empty());
    assert(kept.last() == e0);
    let r = e0.1.severity.spec_rank();
    assert(of_rank(kept.drop_last(), r) == Seq::<(String, Alert)>::empty());
    assert(of_rank(kept, r) =~= seq![e0]);
    assert forall|q: int| q != r implies #[trigger] of_rank(kept, q) =~= Seq::<(String, Alert)>::empty() by {
        assert(of_rank(kept.drop_last(), q) == Seq::<(String, Alert)>::empty());
    }
    assert(by_severity(kept) =~= seq![e0]) by {
        assert(of_rank(kept, 3) + of_rank(kept, 2) + of_rank(kept, 1) + of_rank(kept, 0) =~= seq![e0]);
    }
}

/// A merged forecast holds at most one entry per date.
pub proof fn lemma_days_distinct(
    weights: Seq<(String, u32)>,
    forecasts: Seq<(String, Forecast)>,
    out: Seq<DailyForecast>,
)
    requires
        days_merged(weights, forecasts, out),
    ensures
        forall|i: int, j: int|
            0 <= i < out.len() && 0 <= j < out.len() && i != j ==> (#[trigger] out[i]).date@ != (
            #[trigger] out[j]).date@,
{
    assert forall|i: int, j: int|
        0 <= i < out.len() && 0 <= j < out.len() && i != j implies (#[trigger] out[i]).date@ != (
        #[trigger] out[j]).date@ by {
        lemma_lt_irreflexive(out[i].date@);
        if i < j {
            assert(seq_lt(out[i].key_of(), out[j].key_of()));
        } else {
            assert(seq_lt(out[j].key_of(), out[i].key_of()));
        }
    }
}

} // verus!
