use unifetch::series::{LayerKind, LayerReading, Metric, Observation, SeriesError, TimeSeries};
use unifetch::trend::Trend;

fn obs(timestamp: i64, temp: Option<i32>, slp: Option<i32>) -> Observation {
    let near = LayerReading {
        kind: LayerKind::NearSurface,
        temperature: temp,
        dewpoint: None,
        relative_humidity: None,
        apparent_temperature: None,
        pressure: None,
        wind: None,
        visibility: None,
        height_msl: None,
    };
    Observation {
        timestamp,
        layers: vec![near],
        cape: None,
        sky_cover: None,
        wx_codes: None,
        raw_report: None,
        altimeter: slp,
    }
}

const T: i64 = 1_700_000_000;

#[test]
fn scenario_rising_over_change_window() {
    // 68F two hours back, 70F one hour back, 74F now; change criterion (2 h, 4 degrees)
    let s = TimeSeries::new(vec![
        obs(T - 7200, Some(680), None),
        obs(T - 3600, Some(700), None),
        obs(T, Some(740), None),
    ])
    .unwrap();
    let t = Trend::from_db(&s, Metric::OutdoorTemperature, (7200, 40), (3600, 40, 3600, 40));
    assert_eq!(t, Trend::Rising);
    assert_eq!(t.str(), " ↗");
}

#[test]
fn scenario_pressure_missing_six_hours_back() {
    let s = TimeSeries::new(vec![
        obs(T - 10800, None, Some(10200)),
        obs(T - 900, None, Some(10100)),
        obs(T, None, Some(10000)),
    ])
    .unwrap();
    let m = Metric::SeaLevelPressure;
    let t = Trend::from_db(&s, m, m.change_criteria(), m.rapid_criteria());
    assert_eq!(t, Trend::UnknownChange);
    assert_eq!(t.str(), "");
    assert!(Trend::from_db_inner(&s, m, m.change_criteria(), m.rapid_criteria()).is_err());
}

#[test]
fn rapid_rise_without_change_rise() {
    // change over 2 h is +1.0 (under 4), but +2.5 over 15 min and +4.5 over 1 h
    let s = TimeSeries::new(vec![
        obs(T - 7200, Some(730), None),
        obs(T - 3600, Some(695), None),
        obs(T - 900, Some(715), None),
        obs(T, Some(740), None),
    ])
    .unwrap();
    let m = Metric::OutdoorTemperature;
    let t = Trend::from_db(&s, m, m.change_criteria(), m.rapid_criteria());
    assert_eq!(t, Trend::RapidlyRising);
    assert_eq!(t.str(), " ⬆");
}

#[test]
fn rapid_fall_without_change_fall() {
    let s = TimeSeries::new(vec![
        obs(T - 7200, Some(750), None),
        obs(T - 3600, Some(785), None),
        obs(T - 900, Some(765), None),
        obs(T, Some(740), None),
    ])
    .unwrap();
    let m = Metric::OutdoorTemperature;
    assert_eq!(Trend::from_db(&s, m, m.change_criteria(), m.rapid_criteria()), Trend::RapidlyFalling);
}

#[test]
fn falling_and_neutral() {
    let m = Metric::IndoorTemperature;
    let indoor = |ts: i64, v: i32| {
        let mut o = obs(ts, None, None);
        o.layers[0].kind = LayerKind::Indoor;
        o.layers[0].temperature = Some(v);
        o
    };
    let s = TimeSeries::new(vec![indoor(T - 7200, 700), indoor(T - 3600, 690), indoor(T, 675)])
        .unwrap();
    assert_eq!(Trend::from_db(&s, m, m.change_criteria(), m.rapid_criteria()), Trend::Falling);
    let s = TimeSeries::new(vec![indoor(T - 7200, 700), indoor(T - 3600, 700), indoor(T, 701)])
        .unwrap();
    let t = Trend::from_db(&s, m, m.change_criteria(), m.rapid_criteria());
    assert_eq!(t, Trend::Neutral);
    assert_eq!(t.str(), " ➡");
}

#[test]
fn missing_value_is_unknown() {
    let s = TimeSeries::new(vec![
        obs(T - 7200, None, None),
        obs(T - 3600, Some(700), None),
        obs(T - 900, Some(700), None),
        obs(T, Some(740), None),
    ])
    .unwrap();
    let m = Metric::OutdoorTemperature;
    assert_eq!(Trend::from_db(&s, m, m.change_criteria(), m.rapid_criteria()), Trend::UnknownChange);
    assert_eq!(Trend::from_db(&TimeSeries::empty(), m, (0, 0), (0, 0, 0, 0)), Trend::UnknownChange);
}

#[test]
fn same_inputs_same_label() {
    let build = || {
        TimeSeries::new(vec![
            obs(T - 7200, Some(680), None),
            obs(T - 3600, Some(700), None),
            obs(T, Some(740), None),
        ])
        .unwrap()
    };
    let a = Trend::from_db(&build(), Metric::OutdoorTemperature, (7200, 40), (3600, 40, 3600, 40));
    let b = Trend::from_db(&build(), Metric::OutdoorTemperature, (7200, 40), (3600, 40, 3600, 40));
    assert_eq!(a, b);
}

#[test]
fn criteria_per_metric() {
    assert_eq!(Metric::IndoorTemperature.change_criteria(), (7200, 20));
    assert_eq!(Metric::IndoorTemperature.rapid_criteria(), (3600, 20, 3600, 20));
    assert_eq!(Metric::OutdoorTemperature.change_criteria(), (7200, 40));
    assert_eq!(Metric::OutdoorTemperature.rapid_criteria(), (900, 20, 3600, 40));
    assert_eq!(Metric::SeaLevelPressure.change_criteria(), (21600, 30));
    assert_eq!(Metric::SeaLevelPressure.rapid_criteria(), (900, 10, 10800, 20));
}

#[test]
fn missing_value_reports_data_unavailable() {
    let s = TimeSeries::new(vec![
        obs(T - 7200, Some(700), None),
        obs(T - 3600, None, None),
        obs(T - 900, Some(700), None),
        obs(T, Some(740), None),
    ])
    .unwrap();
    let m = Metric::OutdoorTemperature;
    assert_eq!(
        Trend::from_db_inner(&s, m, m.change_criteria(), m.rapid_criteria()),
        Err(SeriesError::DataUnavailable)
    );
}
