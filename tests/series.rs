use unifetch::series::{
    LayerKind, LayerReading, Metric, Observation, SeriesError, TimeSeries,
};

fn reading(kind: LayerKind) -> LayerReading {
    LayerReading {
        kind,
        temperature: None,
        dewpoint: None,
        relative_humidity: None,
        apparent_temperature: None,
        pressure: None,
        wind: None,
        visibility: None,
        height_msl: None,
    }
}

fn obs(timestamp: i64, temp: Option<i32>) -> Observation {
    let mut near = reading(LayerKind::NearSurface);
    near.temperature = temp;
    Observation {
        timestamp,
        layers: vec![near],
        cape: None,
        sky_cover: None,
        wx_codes: None,
        raw_report: None,
        altimeter: None,
    }
}

#[test]
fn zero_offset_finds_latest() {
    let s = TimeSeries::new(vec![obs(0, Some(680)), obs(3600, Some(700)), obs(7200, Some(740))])
        .unwrap();
    let latest = s.latest().unwrap();
    let t = s.latest_time().unwrap();
    let same = s.at_exact_offset(t, 0).unwrap();
    assert_eq!(latest.timestamp, 7200);
    assert_eq!(same.timestamp, latest.timestamp);
}

#[test]
fn exact_offset_hit_and_miss() {
    let s = TimeSeries::new(vec![obs(0, Some(680)), obs(3600, Some(700)), obs(7200, Some(740))])
        .unwrap();
    assert_eq!(s.at_exact_offset(7200, 3600).unwrap().timestamp, 3600);
    assert_eq!(s.at_exact_offset(7200, 1800).unwrap_err(), SeriesError::LookupMiss);
    assert_eq!(s.at_exact_offset(i64::MIN, 1).unwrap_err(), SeriesError::LookupMiss);
}

#[test]
fn empty_series_errors() {
    let s = TimeSeries::empty();
    assert_eq!(s.latest().unwrap_err(), SeriesError::EmptySeries);
    assert_eq!(s.latest_time().unwrap_err(), SeriesError::EmptySeries);
    assert_eq!(s.len(), 0);
}

#[test]
fn unordered_series_refused() {
    let r = TimeSeries::new(vec![obs(10, None), obs(10, None)]);
    assert_eq!(r.err(), Some(SeriesError::Unordered));
    let r = TimeSeries::new(vec![obs(20, None), obs(10, None)]);
    assert_eq!(r.err(), Some(SeriesError::Unordered));
}

#[test]
fn best_slp_prefers_sea_level_layer() {
    let mut o = obs(0, None);
    o.altimeter = Some(10120);
    assert_eq!(Metric::SeaLevelPressure.value(&o), Some(10120));
    let mut sl = reading(LayerKind::SeaLevel);
    sl.pressure = Some(10135);
    o.layers.push(sl);
    assert_eq!(o.best_slp(), Some(10135));
    assert_eq!(Metric::OutdoorTemperature.value(&o), None);
    assert_eq!(Metric::IndoorTemperature.value(&o), None);
}

#[test]
fn index_at_or_after_picks_first_later() {
    let s = TimeSeries::new(vec![obs(0, None), obs(3600, None), obs(7200, None)]).unwrap();
    assert_eq!(s.index_at_or_after(1), Some(1));
    assert_eq!(s.index_at_or_after(3600), Some(1));
    assert_eq!(s.index_at_or_after(-5), Some(0));
    assert_eq!(s.index_at_or_after(99999), Some(2));
    assert_eq!(TimeSeries::empty().index_at_or_after(0), None);
}
