use unifetch::formatters::{
    cardinal_name, format_500mb_height, format_250mb_wind, format_apparent_temp, format_cape,
    format_cloud, format_dewpoint, format_flight_rules, format_metar, format_pressure,
    format_temp, format_visibility, format_wind, format_wx, station_line, FlightRules, WxParams,
};
use unifetch::report::{forecast_indices, station_block, station_prelude};
use unifetch::series::{
    CloudLayer, Coverage, LayerKind, LayerReading, Observation, SkyCover, TimeSeries, Wind,
};

fn reading(kind: LayerKind) -> LayerReading {
    LayerReading {
        kind,
        temperature: None,
        dewpoint: None,
        relative_humidity: None,
        apparent_temperature: None,
        pressure: None,
        wind: None,
        visibility: None,
        height_msl: None,
    }
}

fn bare(timestamp: i64) -> Observation {
    Observation {
        timestamp,
        layers: vec![],
        cape: None,
        sky_cover: None,
        wx_codes: None,
        raw_report: None,
        altimeter: None,
    }
}

fn with_surface(l: LayerReading) -> Observation {
    let mut o = bare(0);
    o.layers.push(l);
    o
}

fn layer(height: u32, coverage: Coverage) -> CloudLayer {
    CloudLayer { coverage, height }
}

#[test]
fn scenario_ifr_from_ceiling_and_visibility() {
    assert_eq!(FlightRules::from_conditions(800, 200), FlightRules::IFR);
    let mut near = reading(LayerKind::NearSurface);
    near.visibility = Some(200);
    let mut o = with_surface(near);
    o.sky_cover = Some(SkyCover::Cloudy(vec![
        layer(400, Coverage::Few),
        layer(800, Coverage::Broken),
        layer(2500, Coverage::Overcast),
    ]));
    let f = format_flight_rules(&o);
    assert_eq!(f.text, "IFR");
    assert_eq!(f.title, "");
    assert_eq!(f.style, "\x1b[41;1m");
}

#[test]
fn flight_category_is_worse_of_two() {
    assert_eq!(FlightRules::from_conditions(400, 1000), FlightRules::LIFR);
    assert_eq!(FlightRules::from_conditions(5000, 50), FlightRules::LIFR);
    assert_eq!(FlightRules::from_conditions(2000, 1000), FlightRules::MVFR);
    assert_eq!(FlightRules::from_conditions(5000, 400), FlightRules::MVFR);
    assert_eq!(FlightRules::from_conditions(u32::MAX, 500), FlightRules::VFR);
    assert_eq!(FlightRules::from_conditions(3000, 299), FlightRules::IFR);
    assert_eq!(FlightRules::LIFR.name(), "LIFR");
    assert_eq!(FlightRules::VFR.style(), "\x1b[42;1m");
}

#[test]
fn flight_rules_need_sky_and_visibility() {
    let mut near = reading(LayerKind::NearSurface);
    near.visibility = Some(1000);
    let mut o = with_surface(near);
    assert!(format_flight_rules(&o).is_none());
    o.sky_cover = Some(SkyCover::Clear);
    assert_eq!(format_flight_rules(&o).text, "VFR");
}

#[test]
fn temperature_with_trend() {
    let t0 = 1_700_000_000;
    let mk = |ts: i64, v: i32| {
        let mut near = reading(LayerKind::NearSurface);
        near.temperature = Some(v);
        let mut o = with_surface(near);
        o.timestamp = ts;
        o
    };
    let s = TimeSeries::new(vec![mk(t0 - 7200, 680), mk(t0 - 3600, 700), mk(t0 - 900, 730), mk(t0, 744)])
        .unwrap();
    let e = s.latest().unwrap();
    let f = format_temp(e, false, &s);
    assert_eq!(f.title, "Temp");
    assert_eq!(f.text, "74F ↗");
    assert_eq!(f.style, "\x1b[41;1m");
    let g = format_temp(e, false, &TimeSeries::empty());
    assert_eq!(g.text, "74F");
    assert!(format_temp(e, true, &s).is_none());
}

#[test]
fn temperature_rounding_and_styles() {
    let mut near = reading(LayerKind::NearSurface);
    near.temperature = Some(-45);
    near.apparent_temperature = Some(315);
    let o = with_surface(near);
    let f = format_temp(&o, false, &TimeSeries::empty());
    assert_eq!(f.text, "-5F");
    assert_eq!(f.style, "\x1b[45;1m");
    let a = format_apparent_temp(&o);
    assert_eq!(a.title, "Feels");
    assert_eq!(a.text, "32F");
    assert_eq!(a.style, "\x1b[44;1m");
    let mut indoor = reading(LayerKind::Indoor);
    indoor.temperature = Some(700);
    let i = with_surface(indoor);
    assert_eq!(format_temp(&i, true, &TimeSeries::empty()).style, "\x1b[;1m");
}

#[test]
fn pressure_one_decimal() {
    let mut o = bare(0);
    o.altimeter = Some(10132);
    let f = format_pressure(&o, &TimeSeries::empty());
    assert_eq!(f.title, "Pres");
    assert_eq!(f.text, "1013.2");
    assert_eq!(f.style, "\x1b[1m");
    o.altimeter = Some(10000);
    assert_eq!(format_pressure(&o, &TimeSeries::empty()).style, "\x1b[41;30;1m");
    assert!(format_pressure(&bare(0), &TimeSeries::empty()).is_none());
}

#[test]
fn dewpoint_and_humidity() {
    let mut near = reading(LayerKind::NearSurface);
    near.dewpoint = Some(615);
    near.relative_humidity = Some(925);
    let (d, rh) = format_dewpoint(&with_surface(near));
    assert_eq!((d.title.as_str(), d.text.as_str()), ("Dew", "62F"));
    assert_eq!(d.style, "\x1b[44;30;1m");
    assert_eq!((rh.title.as_str(), rh.text.as_str()), ("RH", "93%"));
    assert_eq!(rh.style, "\x1b[44;30;1m");
    near.relative_humidity = None;
    let (_, rh) = format_dewpoint(&with_surface(near));
    assert_eq!(rh.text, "N/A");
    assert_eq!(rh.style, "\x1b[31;1m");
    near.dewpoint = None;
    let (d, rh) = format_dewpoint(&with_surface(near));
    assert!(d.is_none() && rh.is_none());
}

#[test]
fn wind_text_forms() {
    let mut near = reading(LayerKind::NearSurface);
    near.wind = Some(Wind { direction: Some(45), speed: 85 });
    assert_eq!(format_wind(&with_surface(near)).text, "045(NE)@ 9kts");
    near.wind = Some(Wind { direction: None, speed: 250 });
    let f = format_wind(&with_surface(near));
    assert_eq!(f.text, "25kts");
    assert_eq!(f.style, "\x1b[45;30;1m");
    near.wind = Some(Wind { direction: Some(270), speed: 0 });
    assert_eq!(format_wind(&with_surface(near)).text, "Calm");
    assert_eq!(cardinal_name(0), "N");
    assert_eq!(cardinal_name(350), "N");
    assert_eq!(cardinal_name(200), "SSW");
}

#[test]
fn visibility_decimals() {
    let mut near = reading(LayerKind::NearSurface);
    near.visibility = Some(50);
    assert_eq!(format_visibility(&with_surface(near)).text, "0.50mi");
    near.visibility = Some(275);
    assert_eq!(format_visibility(&with_surface(near)).text, "2.8mi");
    near.visibility = Some(1000);
    let f = format_visibility(&with_surface(near));
    assert_eq!(f.text, "10mi");
    assert_eq!(f.style, "\x1b[1m");
}

#[test]
fn clouds_listed() {
    let mut o = bare(0);
    assert_eq!(format_cloud(&o).text, "");
    o.sky_cover = Some(SkyCover::Clear);
    assert_eq!(format_cloud(&o).text, "CLR");
    o.sky_cover = Some(SkyCover::Cloudy(vec![layer(2500, Coverage::Scattered), layer(8000, Coverage::Overcast)]));
    let f = format_cloud(&o);
    assert_eq!(f.text, "SCT025, OVC080");
    assert_eq!(f.style, "\x1b[47;30;1m");
}

#[test]
fn present_weather_codes() {
    let f = format_wx(&Some(vec!["-RA".to_string(), "BR".to_string()]));
    assert_eq!(f.text, "-RA BR");
    assert_eq!(f.style, "\x1b[44;30;1m");
    let f = format_wx(&Some(vec!["BR".to_string(), "+TSRA".to_string()]));
    assert_eq!(f.style, "\x1b[43;30;1m");
    let f = format_wx(&Some(vec![]));
    assert_eq!(f.text, "No WX");
    assert_eq!(f.style, "\x1b[1m");
    assert!(format_wx(&None).is_none());
    let f = format_wx(&Some(vec!["VCSH".to_string()]));
    assert_eq!(f.style, "\x1b[0m");
}

#[test]
fn upper_air_and_energy() {
    let mut h = reading(LayerKind::PressureLevel(500));
    h.height_msl = Some(5764);
    let mut w = reading(LayerKind::PressureLevel(250));
    w.wind = Some(Wind { direction: None, speed: 1205 });
    let mut o = bare(0);
    o.layers = vec![h, w];
    o.cape = Some(2500);
    let f = format_500mb_height(&o);
    assert_eq!((f.title.as_str(), f.text.as_str(), f.style.as_str()), ("500mb Hght", "5760m", "\x1b[43;30;1m"));
    let f = format_250mb_wind(&o);
    assert_eq!((f.title.as_str(), f.text.as_str(), f.style.as_str()), ("250mb", "121kts", "\x1b[41;30;1m"));
    let f = format_cape(&o);
    assert_eq!((f.title.as_str(), f.text.as_str(), f.style.as_str()), ("CAPE", "2500 J/kg", "\x1b[43;30;1m"));
    o.cape = Some(100);
    assert_eq!(format_cape(&o).style, "\x1b[m");
}

#[test]
fn station_line_full() {
    let mut near = reading(LayerKind::NearSurface);
    near.temperature = Some(720);
    near.wind = Some(Wind { direction: None, speed: 0 });
    let mut o = with_surface(near);
    o.raw_report = Some("KPSM AUTO".to_string());
    let s = TimeSeries::new(vec![o.clone()]).unwrap();
    let params = vec![WxParams::Temperature, WxParams::Metar, WxParams::Cape, WxParams::Wind];
    let line = station_line("KPSM", &o, &params, false, &s).unwrap();
    assert_eq!(
        line,
        "KPSM Temp: \x1b[41;1m72F\x1b[0m Wind: \x1b[1mCalm\x1b[0m\n  METAR: KPSM AUTO\n"
    );
    assert_eq!(format_metar(&o), "\n  METAR: KPSM AUTO");
    assert_eq!(format_metar(&bare(0)), "");
}

#[test]
fn station_blocks() {
    assert_eq!(station_prelude("APT", "09:15 AM"), "APT: ⌛09:15 AM");
    let params = vec![WxParams::Cape];
    assert_eq!(
        station_block("UNH", "", &TimeSeries::empty(), &params, false),
        "UNH did not have any data.\n"
    );
    let mut o = bare(60);
    o.cape = Some(1500);
    let s = TimeSeries::new(vec![o]).unwrap();
    assert_eq!(
        station_block("UNH", "10:00 AM", &s, &params, false),
        "UNH: ⌛10:00 AM CAPE: \x1b[34;1m1500 J/kg\x1b[0m\n"
    );
}

#[test]
fn forecast_hours_pick_unique_entries() {
    let s = TimeSeries::new(vec![bare(0), bare(3600), bare(7200), bare(10800)]).unwrap();
    assert_eq!(forecast_indices(&s, 100, &vec![0, 1, 1, 24]), vec![1, 2, 3]);
    assert_eq!(forecast_indices(&s, 0, &vec![2, 0]), vec![0, 2]);
    assert_eq!(forecast_indices(&TimeSeries::empty(), 0, &vec![1]), Vec::<usize>::new());
}
