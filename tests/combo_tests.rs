use jupiter::provider::combine::{average_weather, combine_forecasts, mean_of, merge_alerts};
use jupiter::provider::combo_enhanced::{ComboProvider, FanOut, FanOutStep, ProviderInfo, Request};
use jupiter::provider::common::{
    Alert, AlertSeverity, DailyForecast, Forecast, HistoricalData, HourlyForecast, Location, Weather,
    WeatherError, WeatherFeature,
};
use std::cell::Cell;

struct Stub {
    name: String,
    features: Vec<WeatherFeature>,
    weather: Option<Weather>,
    forecast: Option<Forecast>,
    alerts: Option<Vec<Alert>>,
    historical: Option<HistoricalData>,
    calls: Cell<usize>,
}

fn stub(name: &str) -> Stub {
    Stub {
        name: name.to_string(),
        features: vec![
            WeatherFeature::CurrentWeather,
            WeatherFeature::Forecast,
            WeatherFeature::Alerts,
            WeatherFeature::HistoricalData,
        ],
        weather: None,
        forecast: None,
        alerts: None,
        historical: None,
        calls: Cell::new(0),
    }
}

fn location(name: &str) -> Location {
    Location {
        latitude: 0,
        longitude: 0,
        name: name.to_string(),
        country: None,
        region: None,
        postal_code: None,
    }
}

fn weather(temperature: i32, humidity: Option<i32>, description: &str) -> Weather {
    Weather {
        temperature,
        feels_like: None,
        humidity,
        pressure: None,
        wind_speed: None,
        wind_direction: None,
        description: description.to_string(),
        icon: Some("01d".to_string()),
        precipitation: None,
        visibility: None,
        uv_index: None,
        provider: "stub".to_string(),
        location: location("Test"),
        timestamp: 0,
    }
}

fn combo_of(stubs: &[Stub], weights: &[u32]) -> ComboProvider {
    let mut combo = ComboProvider::new();
    for (s, w) in stubs.iter().zip(weights) {
        combo = combo.add_provider(
            ProviderInfo { name: s.name.clone(), features: s.features.clone() },
            *w,
        );
    }
    combo
}

fn drive<T: Clone>(mut fan: FanOut<T>, stubs: &[Stub], answer: impl Fn(&Stub) -> Option<T>) -> FanOut<T> {
    loop {
        match fan.next_step() {
            FanOutStep::Query(i) => {
                let s = &stubs[i];
                s.calls.set(s.calls.get() + 1);
                match answer(s) {
                    Some(v) => fan.record_success(v),
                    None => fan.record_failure(),
                }
            }
            FanOutStep::Done => return fan,
        }
    }
}

fn current(combo: &mut ComboProvider, stubs: &[Stub], loc: &str, now: i64) -> Result<Weather, WeatherError> {
    if let Some(w) = combo.cached_current(loc, now) {
        return Ok(w.clone());
    }
    let fan = drive(combo.fan_out::<Weather>(Request::Current), stubs, |s| s.weather.clone());
    combo.finish_current(loc, fan, now)
}

fn forecast(combo: &mut ComboProvider, stubs: &[Stub], loc: &str, days: u8, now: i64) -> Result<Forecast, WeatherError> {
    if let Some(f) = combo.cached_forecast(loc, days, now) {
        return Ok(f.clone());
    }
    let fan = drive(combo.fan_out::<Forecast>(Request::Forecast), stubs, |s| s.forecast.clone());
    combo.finish_forecast(loc, days, fan, now)
}

fn alerts(combo: &mut ComboProvider, stubs: &[Stub], loc: &str, now: i64) -> Vec<Alert> {
    if let Some(a) = combo.cached_alerts(loc, now) {
        return a.clone();
    }
    let fan = drive(combo.fan_out::<Vec<Alert>>(Request::Alerts), stubs, |s| s.alerts.clone());
    combo.finish_alerts(loc, fan, now)
}

fn historical(combo: &ComboProvider, stubs: &[Stub]) -> Result<HistoricalData, WeatherError> {
    let fan = drive(combo.fan_out::<HistoricalData>(Request::Historical), stubs, |s| s.historical.clone());
    combo.finish_historical(fan)
}

fn alert(title: &str, severity: AlertSeverity, start: &str) -> Alert {
    Alert {
        title: title.to_string(),
        description: format!("{} description", title),
        severity,
        start: start.to_string(),
        end: None,
        regions: vec!["Region".to_string()],
    }
}

fn day(date: &str, min: i32, max: i32, humidity: Option<i32>, sunrise: Option<&str>) -> DailyForecast {
    DailyForecast {
        date: date.to_string(),
        temperature_min: min,
        temperature_max: max,
        humidity,
        precipitation_probability: None,
        precipitation_amount: None,
        wind_speed: None,
        wind_direction: None,
        description: "day".to_string(),
        icon: None,
        sunrise: sunrise.map(|s| s.to_string()),
        sunset: None,
    }
}

fn hour(datetime: &str, temperature: i32) -> HourlyForecast {
    HourlyForecast {
        datetime: datetime.to_string(),
        temperature,
        feels_like: Some(1),
        humidity: Some(2),
        precipitation_probability: None,
        precipitation_amount: None,
        wind_speed: None,
        wind_direction: None,
        description: "hour".to_string(),
        icon: None,
    }
}

#[test]
fn test_combo_provider_with_mocks() {
    let mut s1 = stub("Mock1");
    s1.weather = Some(weather(20_000, Some(50_000), "Mock1 weather"));
    let mut s2 = stub("Mock2");
    s2.weather = Some(weather(22_000, Some(60_000), "Mock2 weather"));
    let stubs = vec![s1, s2];
    let mut combo = combo_of(&stubs, &[1, 1]);

    let result = current(&mut combo, &stubs, "test", 1_000).unwrap();
    assert_eq!(result.temperature, 21_000);
    assert!(result.description.contains("Combined"));
    assert_eq!(result.description, "Combined: Mock1: Mock1 weather | Mock2: Mock2 weather");
    assert_eq!(result.humidity, Some(55_000));
    assert_eq!(result.provider, "Combo");
    assert!(result.icon.is_none());
    assert_eq!(result.timestamp, 1_000);
    assert_eq!(result.location.name, "Test");
}

#[test]
fn weighted_skew_of_two_providers() {
    let mut s1 = stub("North");
    s1.weather = Some(weather(10_000, None, "a"));
    let mut s2 = stub("South");
    s2.weather = Some(weather(20_000, None, "b"));
    let stubs = vec![s1, s2];
    let mut combo = combo_of(&stubs, &[2, 1]);
    let result = current(&mut combo, &stubs, "x", 0).unwrap();
    // (10 * 2 + 20 * 1) / 3 = 13.333..., in thousandths rounded toward zero
    assert_eq!(result.temperature, 13_333);
    assert!(result.humidity.is_none());
}

#[test]
fn absent_reading_does_not_dilute() {
    let mut s1 = stub("North");
    s1.weather = Some(weather(10_000, Some(50_000), "a"));
    let mut s2 = stub("South");
    s2.weather = Some(weather(30_000, None, "b"));
    let stubs = vec![s1, s2];
    let mut combo = combo_of(&stubs, &[1, 1]);
    let result = current(&mut combo, &stubs, "x", 0).unwrap();
    assert_eq!(result.humidity, Some(50_000));
    assert_eq!(result.temperature, 20_000);
}

#[test]
fn weight_defaults_to_one_and_later_name_overrides() {
    let combo = ComboProvider::new()
        .add_provider(ProviderInfo { name: "A".to_string(), features: vec![] }, 3)
        .add_provider(ProviderInfo { name: "A".to_string(), features: vec![] }, 5);
    assert_eq!(combo.weight_of(&"A".to_string()), 5);
    assert_eq!(combo.weight_of(&"B".to_string()), 1);
    assert_eq!(ComboProvider::new().weight_of(&"A".to_string()), 1);
}

#[test]
fn no_answer_gives_not_found_except_for_alerts() {
    let stubs = vec![stub("A"), stub("B")];
    let mut combo = combo_of(&stubs, &[1, 1]);
    assert!(matches!(current(&mut combo, &stubs, "x", 0), Err(WeatherError::NotFound(_))));
    assert!(matches!(forecast(&mut combo, &stubs, "x", 3, 0), Err(WeatherError::NotFound(_))));
    assert!(matches!(historical(&combo, &stubs), Err(WeatherError::NotFound(_))));
    assert!(alerts(&mut combo, &stubs, "x", 0).is_empty());
    assert_eq!(stubs[0].calls.get(), 4);
    assert_eq!(stubs[1].calls.get(), 4);

    let mut empty = ComboProvider::new();
    assert!(matches!(current(&mut empty, &[], "x", 0), Err(WeatherError::NotFound(_))));
}

#[test]
fn fallback_disabled_stops_at_first_answer() {
    let mut s1 = stub("North");
    s1.weather = Some(weather(10_000, None, "a"));
    let mut s2 = stub("South");
    s2.weather = Some(weather(30_000, None, "b"));
    let stubs = vec![s1, s2];
    let mut combo = combo_of(&stubs, &[1, 5]).set_fallback_enabled(false);
    let result = current(&mut combo, &stubs, "x", 0).unwrap();
    assert_eq!(stubs[0].calls.get(), 1);
    assert_eq!(stubs[1].calls.get(), 0);
    assert_eq!(result.temperature, 10_000);
    assert_eq!(result.description, "Combined: North: a");
}

#[test]
fn fallback_disabled_still_tries_after_a_failure() {
    let s1 = stub("North");
    let mut s2 = stub("South");
    s2.weather = Some(weather(30_000, None, "b"));
    let mut s3 = stub("East");
    s3.weather = Some(weather(0, None, "c"));
    let stubs = vec![s1, s2, s3];
    let mut combo = combo_of(&stubs, &[1, 1, 1]).set_fallback_enabled(false);
    let result = current(&mut combo, &stubs, "x", 0).unwrap();
    assert_eq!(result.temperature, 30_000);
    assert_eq!(stubs[2].calls.get(), 0);
}

#[test]
fn alerts_ignore_the_fallback_setting() {
    let mut s1 = stub("North");
    s1.alerts = Some(vec![alert("A", AlertSeverity::Minor, "t1")]);
    let mut s2 = stub("South");
    s2.alerts = Some(vec![alert("B", AlertSeverity::Minor, "t2")]);
    let stubs = vec![s1, s2];
    let mut combo = combo_of(&stubs, &[1, 1]).set_fallback_enabled(false);
    let merged = alerts(&mut combo, &stubs, "x", 0);
    assert_eq!(merged.len(), 2);
    assert_eq!(stubs[1].calls.get(), 1);
}

#[test]
fn cache_hit_skips_providers() {
    let mut s1 = stub("North");
    s1.weather = Some(weather(10_000, Some(1), "a"));
    let stubs = vec![s1];
    let mut combo = combo_of(&stubs, &[1]);
    let first = current(&mut combo, &stubs, "loc", 100).unwrap();
    let second = current(&mut combo, &stubs, "loc", 399).unwrap();
    assert_eq!(stubs[0].calls.get(), 1);
    assert_eq!(format!("{:?}", first), format!("{:?}", second));
    // another location is another key
    let _ = current(&mut combo, &stubs, "other", 399).unwrap();
    assert_eq!(stubs[0].calls.get(), 2);
}

#[test]
fn cache_entry_expires_after_its_duration() {
    let mut s1 = stub("North");
    s1.weather = Some(weather(10_000, None, "a"));
    let stubs = vec![s1];
    let mut combo = combo_of(&stubs, &[1]).set_cache_duration(60);
    let _ = current(&mut combo, &stubs, "loc", 1_000).unwrap();
    let _ = current(&mut combo, &stubs, "loc", 1_059).unwrap();
    assert_eq!(stubs[0].calls.get(), 1);
    let again = current(&mut combo, &stubs, "loc", 1_060).unwrap();
    assert_eq!(stubs[0].calls.get(), 2);
    assert_eq!(again.timestamp, 1_060);
}

#[test]
fn zero_duration_never_hits() {
    let mut s1 = stub("North");
    s1.weather = Some(weather(10_000, None, "a"));
    let stubs = vec![s1];
    let mut combo = combo_of(&stubs, &[1]).set_cache_duration(0);
    let _ = current(&mut combo, &stubs, "loc", 5).unwrap();
    let _ = current(&mut combo, &stubs, "loc", 5).unwrap();
    assert_eq!(stubs[0].calls.get(), 2);
}

#[test]
fn test_alert_merging() {
    let mut s1 = stub("Mock1");
    s1.alerts = Some(vec![Alert {
        title: "Storm Warning".to_string(),
        description: "Severe storm approaching".to_string(),
        severity: AlertSeverity::Severe,
        start: "2024-01-01T12:00:00".to_string(),
        end: None,
        regions: vec!["Region1".to_string()],
    }]);
    let mut s2 = stub("Mock2");
    s2.alerts = Some(vec![Alert {
        title: "Heat Advisory".to_string(),
        description: "High temperatures expected".to_string(),
        severity: AlertSeverity::Moderate,
        start: "2024-01-01T14:00:00".to_string(),
        end: None,
        regions: vec!["Region2".to_string()],
    }]);
    let stubs = vec![s1, s2];
    let mut combo = combo_of(&stubs, &[1, 1]);

    let result = alerts(&mut combo, &stubs, "test", 0);
    assert_eq!(result.len(), 2);
    assert!(result[0].title.contains("[Mock"));
    assert_eq!(result[0].title, "[Mock1] Storm Warning");
    assert_eq!(result[1].title, "[Mock2] Heat Advisory");
}

#[test]
fn duplicate_alert_kept_once_with_first_provider() {
    let lists = vec![
        ("First".to_string(), vec![alert("Flood", AlertSeverity::Severe, "2024-01-01")]),
        ("Second".to_string(), vec![alert("Flood", AlertSeverity::Minor, "2024-01-01")]),
    ];
    let merged = merge_alerts(&lists);
    assert_eq!(merged.len(), 1);
    assert_eq!(merged[0].title, "[First] Flood");
    assert_eq!(merged[0].severity, AlertSeverity::Severe);
    assert_eq!(merged[0].regions, vec!["Region".to_string()]);
}

#[test]
fn alerts_sorted_by_descending_severity() {
    let lists = vec![(
        "P".to_string(),
        vec![
            alert("a", AlertSeverity::Minor, "1"),
            alert("b", AlertSeverity::Severe, "2"),
            alert("c", AlertSeverity::Extreme, "3"),
            alert("d", AlertSeverity::Moderate, "4"),
            alert("e", AlertSeverity::Severe, "5"),
        ],
    )];
    let merged = merge_alerts(&lists);
    let titles: Vec<&str> = merged.iter().map(|a| a.title.as_str()).collect();
    assert_eq!(titles, vec!["[P] c", "[P] b", "[P] e", "[P] d", "[P] a"]);
}

#[test]
fn dedup_key_joins_title_and_start_with_a_hyphen() {
    let lists = vec![
        ("P".to_string(), vec![alert("a-b", AlertSeverity::Minor, "c")]),
        ("Q".to_string(), vec![alert("a", AlertSeverity::Minor, "b-c")]),
    ];
    assert_eq!(merge_alerts(&lists).len(), 1);
    assert!(merge_alerts(&vec![]).is_empty());
}

#[test]
fn forecast_dates_are_merged_and_sorted() {
    let mut s1 = stub("North");
    s1.forecast = Some(Forecast {
        location: location("First"),
        provider: "North".to_string(),
        daily: vec![
            day("2024-01-03", 0, 10_000, Some(40_000), None),
            day("2024-01-01", 2_000, 12_000, None, Some("07:00")),
        ],
        hourly: None,
    });
    let mut s2 = stub("South");
    s2.forecast = Some(Forecast {
        location: location("Second"),
        provider: "South".to_string(),
        daily: vec![
            day("2024-01-01", 4_000, 14_000, Some(80_000), Some("07:05")),
            day("2024-01-02", 1_000, 11_000, None, None),
        ],
        hourly: Some(vec![hour("2024-01-01T10", 3_000), hour("2024-01-01T09", 1_000)]),
    });
    let mut s3 = stub("East");
    s3.features = vec![WeatherFeature::CurrentWeather];
    let stubs = vec![s1, s2, s3];
    let mut combo = combo_of(&stubs, &[1, 1, 1]);
    let f = forecast(&mut combo, &stubs, "x", 3, 0).unwrap();
    assert_eq!(stubs[2].calls.get(), 0);
    assert_eq!(f.provider, "Combo");
    assert_eq!(f.location.name, "First");
    let dates: Vec<&str> = f.daily.iter().map(|d| d.date.as_str()).collect();
    assert_eq!(dates, vec!["2024-01-01", "2024-01-02", "2024-01-03"]);
    let first = &f.daily[0];
    assert_eq!(first.temperature_min, 3_000);
    assert_eq!(first.temperature_max, 13_000);
    assert_eq!(first.humidity, Some(80_000));
    assert_eq!(first.sunrise.as_deref(), Some("07:00"));
    assert_eq!(first.description, "Combined forecast");
    assert_eq!(f.daily[2].humidity, Some(40_000));
    let hourly = f.hourly.unwrap();
    assert_eq!(hourly.len(), 2);
    assert_eq!(hourly[0].datetime, "2024-01-01T09");
    assert_eq!(hourly[0].temperature, 1_000);
    assert!(hourly[0].feels_like.is_none());
    assert_eq!(hourly[0].description, "Combined");

    // the second request is served from the cache
    let g = forecast(&mut combo, &stubs, "x", 3, 10).unwrap();
    assert_eq!(stubs[0].calls.get(), 1);
    assert_eq!(g.daily.len(), 3);
    // another day count is another key
    let _ = forecast(&mut combo, &stubs, "x", 12, 10).unwrap();
    assert_eq!(stubs[0].calls.get(), 2);
}

#[test]
fn forecast_without_hourly_data_has_none() {
    let weights: Vec<(String, u32)> = vec![];
    let forecasts = vec![(
        "P".to_string(),
        Forecast {
            location: location("L"),
            provider: "P".to_string(),
            daily: vec![],
            hourly: Some(vec![]),
        },
    )];
    let f = combine_forecasts(&weights, &forecasts).unwrap();
    assert!(f.hourly.is_none());
    assert!(f.daily.is_empty());
    assert!(combine_forecasts(&weights, &vec![]).is_err());
}

#[test]
fn historical_returns_first_answer_unchanged() {
    let mut s1 = stub("North");
    s1.features = vec![];
    s1.historical = Some(HistoricalData {
        location: location("No"),
        provider: "North".to_string(),
        date: "d".to_string(),
        temperature_min: 0,
        temperature_max: 0,
        temperature_avg: 0,
        humidity_avg: None,
        precipitation_total: None,
        wind_speed_avg: None,
    });
    let mut s2 = stub("South");
    s2.historical = Some(HistoricalData {
        location: location("Yes"),
        provider: "South".to_string(),
        date: "2024-01-01".to_string(),
        temperature_min: 1,
        temperature_max: 3,
        temperature_avg: 2,
        humidity_avg: Some(5),
        precipitation_total: None,
        wind_speed_avg: None,
    });
    let stubs = vec![s1, s2];
    let combo = combo_of(&stubs, &[1, 1]);
    let h = historical(&combo, &stubs).unwrap();
    assert_eq!(h.provider, "South");
    assert_eq!(h.temperature_avg, 2);
    assert_eq!(stubs[0].calls.get(), 0);
}

#[test]
fn supports_feature_is_any_provider() {
    let mut s1 = stub("North");
    s1.features = vec![WeatherFeature::UvIndex];
    let s2 = stub("South");
    let stubs = vec![s1, s2];
    let combo = combo_of(&stubs, &[1, 1]);
    assert!(combo.supports_feature(WeatherFeature::UvIndex));
    assert!(combo.supports_feature(WeatherFeature::Alerts));
    assert!(!combo.supports_feature(WeatherFeature::AirQuality));
    assert!(!ComboProvider::new().supports_feature(WeatherFeature::CurrentWeather));
}

#[test]
fn weighted_mean_rounds_toward_zero() {
    assert_eq!(mean_of(&vec![(Some(-10), 1), (Some(-11), 2)]), Some(-10));
    assert_eq!(mean_of(&vec![(Some(10), 1), (Some(11), 2)]), Some(10));
    assert_eq!(mean_of(&vec![(None, 4), (Some(7), 1)]), Some(7));
    assert_eq!(mean_of(&vec![(None, 4)]), None);
    assert_eq!(mean_of(&vec![]), None);
    assert_eq!(
        mean_of(&vec![(Some(i32::MAX), u32::MAX), (Some(i32::MAX), u32::MAX)]),
        Some(i32::MAX)
    );
    assert_eq!(
        mean_of(&vec![(Some(i32::MIN), u32::MAX), (Some(i32::MIN), 1)]),
        Some(i32::MIN)
    );
}

#[test]
fn average_weather_directly() {
    let weights = vec![("A".to_string(), 3u32)];
    let results = vec![
        ("A".to_string(), weather(1_000, None, "x")),
        ("B".to_string(), weather(5_000, Some(7), "y")),
    ];
    let w = average_weather(&weights, &results, 9).unwrap();
    assert_eq!(w.temperature, 2_000);
    assert_eq!(w.humidity, Some(7));
    assert_eq!(w.description, "Combined: A: x | B: y");
    assert!(matches!(average_weather(&weights, &vec![], 9), Err(WeatherError::NotFound(_))));
}
