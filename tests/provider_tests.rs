use jupiter::provider::combo_enhanced::ComboProvider;
use jupiter::provider::common::{
    Alert, AlertSeverity, DailyForecast, Forecast, HistoricalData, Location, RateLimiter, Weather,
    WeatherError,
};
use std::time::{Duration, Instant};

fn create_test_location() -> Location {
    Location {
        latitude: 40_712_800,
        longitude: -74_006_000,
        name: "New York".to_string(),
        country: Some("US".to_string()),
        region: Some("NY".to_string()),
        postal_code: Some("10001".to_string()),
    }
}


fn pause(d: Duration) {
    let start = Instant::now();
    while start.elapsed() < d {
        std::hint::spin_loop();
    }
}

#[test]
fn test_weather_error_display() {
    let err = WeatherError::NetworkError("Connection failed".to_string());
    assert_eq!(err.message(), "Network error: Connection failed");

    let err = WeatherError::InvalidApiKey;
    assert_eq!(err.message(), "Invalid API key");

    let err = WeatherError::RateLimitExceeded;
    assert_eq!(err.message(), "Rate limit exceeded");
}

#[test]
fn weather_error_messages_of_every_kind() {
    assert_eq!(WeatherError::ParseError("x".to_string()).message(), "Parse error: x");
    assert_eq!(WeatherError::NotFound("x".to_string()).message(), "Not found: x");
    assert_eq!(
        WeatherError::ConfigurationError("x".to_string()).message(),
        "Configuration error: x"
    );
    assert_eq!(WeatherError::DatabaseError("x".to_string()).message(), "Database error: x");
}

#[test]
fn test_alert_severity_ordering() {
    assert!(AlertSeverity::Extreme.cmp(&AlertSeverity::Severe) == std::cmp::Ordering::Greater);
    assert!(AlertSeverity::Severe.cmp(&AlertSeverity::Moderate) == std::cmp::Ordering::Greater);
    assert!(AlertSeverity::Moderate.cmp(&AlertSeverity::Minor) == std::cmp::Ordering::Greater);
    assert!(AlertSeverity::Minor.cmp(&AlertSeverity::Minor) == std::cmp::Ordering::Equal);
    assert!(AlertSeverity::Extreme.rank() > AlertSeverity::Severe.rank());
    assert_eq!(AlertSeverity::Minor.rank(), 0);
}

#[test]
fn tests_test_rate_limiter() {
    let mut limiter = RateLimiter::new(2, 1);

    assert!(limiter.check_rate_limit());
    assert!(limiter.check_rate_limit());
    assert!(!limiter.check_rate_limit());

    pause(Duration::from_secs(2));
    assert!(limiter.check_rate_limit());
}

#[test]
fn rate_limiter_admits_n_per_window() {
    let mut limiter = RateLimiter::new(3, 10);
    assert!(limiter.check_rate_limit_at(1_000));
    assert!(limiter.check_rate_limit_at(2_000));
    assert!(limiter.check_rate_limit_at(3_000));
    assert!(!limiter.check_rate_limit_at(10_999));
    // the first admission is 10 s old at 11_000 ms
    assert!(limiter.check_rate_limit_at(11_000));
    assert!(!limiter.check_rate_limit_at(11_500));
    // every admission is a full window old
    assert!(limiter.check_rate_limit_at(21_000));
    assert!(limiter.check_rate_limit_at(21_000));
}

#[test]
fn test_weather_struct_creation() {
    let weather = Weather {
        temperature: 20_500,
        feels_like: Some(19_000),
        humidity: Some(65_000),
        pressure: Some(1_013_250),
        wind_speed: Some(5_500),
        wind_direction: Some(180_000),
        description: "Partly cloudy".to_string(),
        icon: Some("02d".to_string()),
        precipitation: Some(0),
        visibility: Some(10_000_000),
        uv_index: Some(3_000),
        provider: "Test".to_string(),
        location: create_test_location(),
        timestamp: 1234567890,
    };

    assert_eq!(weather.temperature, 20_500);
    assert_eq!(weather.provider, "Test");
    assert_eq!(weather.location.name, "New York");
}

#[test]
fn test_forecast_struct_creation() {
    let daily = vec![DailyForecast {
        date: "2024-01-01".to_string(),
        temperature_min: 10_000,
        temperature_max: 20_000,
        humidity: Some(70_000),
        precipitation_probability: Some(30_000),
        precipitation_amount: Some(2_500),
        wind_speed: Some(10_000),
        wind_direction: Some(270_000),
        description: "Rain".to_string(),
        icon: Some("10d".to_string()),
        sunrise: Some("06:30".to_string()),
        sunset: Some("18:45".to_string()),
    }];

    let forecast = Forecast {
        location: create_test_location(),
        provider: "Test".to_string(),
        daily,
        hourly: None,
    };

    assert_eq!(forecast.daily.len(), 1);
    assert_eq!(forecast.daily[0].temperature_max, 20_000);
}

#[test]
fn test_alert_struct_creation() {
    let alert = Alert {
        title: "Severe Thunderstorm Warning".to_string(),
        description: "Severe thunderstorms expected".to_string(),
        severity: AlertSeverity::Severe,
        start: "2024-01-01T12:00:00".to_string(),
        end: Some("2024-01-01T18:00:00".to_string()),
        regions: vec!["New York".to_string(), "Brooklyn".to_string()],
    };

    assert_eq!(alert.title, "Severe Thunderstorm Warning");
    assert_eq!(alert.regions.len(), 2);
}

#[test]
fn test_combo_provider_builder() {
    let combo = ComboProvider::new().set_cache_duration(600).set_fallback_enabled(false);

    assert_eq!(combo.name(), "Combo");
}

#[test]
fn test_historical_data_struct() {
    let historical = HistoricalData {
        location: create_test_location(),
        provider: "Test".to_string(),
        date: "2024-01-01".to_string(),
        temperature_min: 5_000,
        temperature_max: 15_000,
        temperature_avg: 10_000,
        humidity_avg: Some(75_000),
        precipitation_total: Some(5_000),
        wind_speed_avg: Some(8_000),
    };

    assert_eq!(historical.temperature_avg, 10_000);
    assert_eq!(historical.date, "2024-01-01");
}

#[test]
fn location_copy_and_unknown() {
    let l = create_test_location();
    let c = l.copy();
    assert_eq!(c.name, "New York");
    assert_eq!(c.latitude, 40_712_800);
    assert_eq!(c.postal_code.as_deref(), Some("10001"));
}

#[test]
fn test_is_empty_check() {
    let empty: Vec<String> = vec![];
    let not_empty = vec!["data".to_string()];

    assert!(empty.is_empty());
    assert!(!not_empty.is_empty());

    if !not_empty.is_empty() {
        let _ = &not_empty[0];
    }
}
