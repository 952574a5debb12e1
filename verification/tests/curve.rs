use fanctl::curve::determine_fan_level;
use fanctl::curve::CurveConfig;
use fanctl::errors::FanError;

fn mdeg(t: f64) -> i64 {
    (t * 1000.0) as i64
}

fn cfg(min_fan: u8, max_fan: u8, min_temp: f64, max_temp: f64, exponent: u32) -> CurveConfig {
    CurveConfig::new(min_fan, max_fan, mdeg(min_temp), mdeg(max_temp), exponent).unwrap()
}

#[test]
fn test_determine_fan_level_minimum() {
    let args = cfg(10, 100, 40.0, 90.0, 2);

    // At or below min_temp should give min_fan
    assert_eq!(determine_fan_level(mdeg(40.0), &args), 10);
    assert_eq!(determine_fan_level(mdeg(30.0), &args), 10);
}

#[test]
fn test_determine_fan_level_maximum() {
    let args = cfg(10, 100, 40.0, 90.0, 2);

    // At or above max_temp should give max_fan
    assert_eq!(determine_fan_level(mdeg(90.0), &args), 100);
    assert_eq!(determine_fan_level(mdeg(100.0), &args), 100);
}

#[test]
fn test_determine_fan_level_linear() {
    let args = cfg(0, 100, 0.0, 100.0, 1);

    // Linear relationship with power = 1
    assert_eq!(determine_fan_level(mdeg(0.0), &args), 0);
    assert_eq!(determine_fan_level(mdeg(50.0), &args), 50);
    assert_eq!(determine_fan_level(mdeg(100.0), &args), 100);
}

#[test]
fn test_determine_fan_level_power_curve() {
    let args = cfg(10, 100, 40.0, 90.0, 2);

    // Midpoint temperature (65°C) with power=2
    // x = (65 - 40) / (90 - 40) = 0.5
    // fan = 0.5^2 * (100 - 10) + 10 = 0.25 * 90 + 10 = 32.5 ≈ 33
    assert_eq!(determine_fan_level(mdeg(65.0), &args), 33);
}

#[test]
fn test_determine_fan_level_high_power_curve() {
    let args = cfg(4, 100, 40.0, 90.0, 4);

    // With power=4, fans stay low until higher temps
    // At 65°C: x = 0.5, fan = 0.5^4 * 96 + 4 = 0.0625 * 96 + 4 = 10
    assert_eq!(determine_fan_level(mdeg(65.0), &args), 10);

    // At 80°C: x = 0.8, fan = 0.8^4 * 96 + 4 = 0.4096 * 96 + 4 = 43.3 ≈ 43
    assert_eq!(determine_fan_level(mdeg(80.0), &args), 43);
}

#[test]
fn duty_clamps_outside_temperature_range() {
    let args = cfg(10, 100, 40.0, 90.0, 2);

    // Far below min_temp and far above max_temp stay at the bounds
    assert_eq!(determine_fan_level(mdeg(30.0), &args), 10);
    assert_eq!(determine_fan_level(mdeg(200.0), &args), 100);
    assert_eq!(determine_fan_level(i64::MIN, &args), 10);
    assert_eq!(determine_fan_level(i64::MAX, &args), 100);
}

#[test]
fn duty_is_monotone_in_temperature() {
    let args = cfg(10, 100, 40.0, 90.0, 3);
    let mut last = 0u8;
    let mut t = mdeg(20.0);
    while t <= mdeg(110.0) {
        let duty = determine_fan_level(t, &args);
        assert!(duty >= last, "duty dropped from {last} to {duty} at {t} mdeg");
        last = duty;
        t += 250;
    }
    assert_eq!(last, 100);
}

#[test]
fn duty_stays_between_fan_bounds() {
    let args = cfg(25, 75, 40.0, 90.0, 2);
    let mut t = mdeg(0.0);
    while t <= mdeg(150.0) {
        let duty = determine_fan_level(t, &args);
        assert!((25..=75).contains(&duty));
        t += 1375;
    }
}

#[test]
fn linear_curve_rounds_to_nearest() {
    let args = cfg(0, 100, 0.0, 100.0, 1);
    // 0.5% steps: 505 millidegrees of a 100-degree range is 0.505%,
    // which rounds to 1; 495 millidegrees rounds to 0.
    assert_eq!(determine_fan_level(505, &args), 1);
    assert_eq!(determine_fan_level(495, &args), 0);
    // An exact half rounds up, as the reference device's rounding does.
    assert_eq!(determine_fan_level(500, &args), 1);
}

#[test]
fn config_rejects_inverted_temperature_range() {
    assert_eq!(
        CurveConfig::new(10, 100, mdeg(90.0), mdeg(40.0), 2).unwrap_err(),
        FanError::ConfigInvalid
    );
    assert_eq!(
        CurveConfig::new(10, 100, mdeg(40.0), mdeg(40.0), 2).unwrap_err(),
        FanError::ConfigInvalid
    );
}

#[test]
fn config_rejects_bad_fan_bounds_and_exponent() {
    assert_eq!(CurveConfig::new(50, 40, mdeg(40.0), mdeg(90.0), 2).unwrap_err(), FanError::ConfigInvalid);
    assert_eq!(CurveConfig::new(10, 101, mdeg(40.0), mdeg(90.0), 2).unwrap_err(), FanError::ConfigInvalid);
    assert_eq!(CurveConfig::new(10, 100, mdeg(40.0), mdeg(90.0), 0).unwrap_err(), FanError::ConfigInvalid);
}

#[test]
fn config_rejects_ranges_too_wide_for_the_arithmetic() {
    // A range of nearly 2^63 millidegrees raised to the 20th power cannot
    // be evaluated in 128 bits.
    assert_eq!(
        CurveConfig::new(10, 100, 0, i64::MAX, 20).unwrap_err(),
        FanError::ConfigInvalid
    );
    // The default-sized range still takes a steep exponent comfortably.
    let c = CurveConfig::new(4, 100, mdeg(40.0), mdeg(90.0), 6).unwrap();
    assert_eq!(determine_fan_level(mdeg(90.0), &c), 100);
}

#[test]
fn config_accepts_and_returns_the_given_fields() {
    let c = CurveConfig::new(4, 100, mdeg(40.0), mdeg(90.0), 4).unwrap();
    assert_eq!(c.min_fan, 4);
    assert_eq!(c.max_fan, 100);
    assert_eq!(c.min_temp_mdeg, 40_000);
    assert_eq!(c.max_temp_mdeg, 90_000);
    assert_eq!(c.exponent, 4);
}

#[test]
fn error_descriptions_name_the_failure() {
    assert!(FanError::ConfigInvalid.describe().contains("min_temp"));
    assert!(FanError::SensorUnavailable.describe().contains("sensor"));
    assert!(FanError::NoPackageSensorFound.describe().contains("package"));
    assert!(FanError::BmcUnreachable.describe().contains("IPMI"));
    assert!(FanError::CommandFailed.describe().contains("command"));
}
