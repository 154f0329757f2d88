use discord_bot::decimal::{format_i32, format_u64};
use discord_bot::replies::{ip, ping, poll};
use discord_bot::weather::{weather, CurrentWeather, UnitChoices};

#[test]
fn decimal_formats() {
    assert_eq!(format_u64(0), "0");
    assert_eq!(format_u64(10), "10");
    assert_eq!(format_u64(u64::MAX), "18446744073709551615");
    assert_eq!(format_i32(-7), "-7");
    assert_eq!(format_i32(i32::MIN), "-2147483648");
    assert_eq!(format_i32(i32::MAX), "2147483647");
}

#[test]
fn decimal_roundtrip() {
    for n in [0u64, 9, 10, 99, 100, 123456789, u64::MAX] {
        assert_eq!(format_u64(n).parse::<u64>().unwrap(), n);
    }
}

#[test]
fn fixed_replies() {
    assert_eq!(ping(), "Pong");
    assert_eq!(ip(), "64.227.172.38");
}

#[test]
fn poll_reactions() {
    let p = poll("Pizza tonight?".to_string());
    assert_eq!(p.prompt, "Pizza tonight?");
    assert_eq!(p.reactions, vec!["✅".to_string(), "❌".to_string()]);
}

fn sample() -> CurrentWeather {
    CurrentWeather {
        name: "Paris".to_string(),
        country: "FR".to_string(),
        lat: "48.85".to_string(),
        lon: "2.35".to_string(),
        conditions: "Clouds".to_string(),
        temperature: "12.3".to_string(),
        feels_like: "10.1".to_string(),
    }
}

#[test]
fn weather_report_metric() {
    assert_eq!(
        weather(Ok(sample()), UnitChoices::Metric),
        "Weather for: Paris, FR (48.85, 2.35)\n                Conditions: Clouds\n                Temperature: 12.3 °C (Feels like 10.1 °C)"
    );
}

#[test]
fn weather_report_imperial() {
    let r = weather(Ok(sample()), UnitChoices::Imperial);
    assert!(r.ends_with("Temperature: 12.3 °F (Feels like 10.1 °F)"));
}

#[test]
fn weather_failure() {
    assert_eq!(
        weather(Err("city not found".to_string()), UnitChoices::Metric),
        "Could not fetch weather because: city not found"
    );
}

#[test]
fn weather_units() {
    assert_eq!(UnitChoices::Metric.api_units(), "metric");
    assert_eq!(UnitChoices::Imperial.api_units(), "imperial");
    assert_eq!(UnitChoices::Metric.temperature_unit(), "C");
    assert_eq!(UnitChoices::Imperial.temperature_unit(), "F");
}
