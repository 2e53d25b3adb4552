//! One formatter per report parameter, and the station line built from them.
use vstd::prelude::*;
use vstd::string::{StrSliceExecFns, StringExecFns};

use crate::fragment::{
    blank, render_line, rendered, views, words, wrap_report, wrap_state, FragView, WeatherData,
};
use crate::series::{layer_of, metric_of, CloudLayer, Coverage, LayerKind, Metric, Observation, SkyCover, TimeSeries};
use crate::style::{style_seq, Style, TermStyle};
use crate::text::{
    fixed_point, padded, push_char, push_fixed, push_padded, push_signed,
    push_text, round_div, round_div_exec, signed_decimal,
};
use crate::thresholds::{
    cape_style, cape_styles, dewpoint_style, dewpoint_styles, style_500mb_height,
    height_500mb_styles, humidity_style, humidity_styles, indoor_temp_style, indoor_temp_styles,
    mslp_style, mslp_styles, outdoor_temp_style, outdoor_temp_styles, visibility_style,
    visibility_styles, style_250mb_wind, wind_250mb_styles, wind_style, wind_styles, wx_style,
    wx_styles,
};
use crate::trend::{change_of, classify, glyph, rapid_of, Trend};

verus! {

/// Visible columns of a station line.
pub const COLUMN_WIDTH: usize = 80;

/// A fragment made of a title, a text and a style escape.
fn make(title: &str, text: String, style: String) -> (r: WeatherData)
    ensures
        r@ == (title@, text@, style@),
{
    WeatherData { title: String::from_str(title), text, style }
}

/// Tenths of a degree, rounded to a whole degree, followed by `F`.
pub open spec fn degrees_text(tenths: int) -> Seq<char> {
    signed_decimal(round_div(tenths, 10)) + "F"@
}

fn push_degrees(s: &mut String, tenths: i32)
    ensures
        final(s)@ == old(s)@ + degrees_text(tenths as int),
{
    push_signed(s, round_div_exec(tenths as i64, 10));
    push_text(s, "F");
}

/// The near-surface reading of an observation.
pub open spec fn surface(e: Observation) -> Option<crate::series::LayerReading> {
    layer_of(e, LayerKind::NearSurface)
}

// TEMPERATURE -------------------------------------------------------------------------------

/// The metric a temperature field trends on.
pub open spec fn temp_metric(indoor: bool) -> Metric {
    if indoor {
        Metric::IndoorTemperature
    } else {
        Metric::OutdoorTemperature
    }
}

/// The temperature field: the rounded temperature, its trend glyph, and the
/// indoor or outdoor style.
pub open spec fn temp_view(e: Observation, indoor: bool, s: Seq<Observation>) -> FragView {
    let m = temp_metric(indoor);
    match metric_of(e, m) {
        Some(t) => (
            "Temp"@,
            degrees_text(t as int) + glyph(classify(s, m, change_of(m), rapid_of(m))),
            style_seq(
                if indoor {
                    indoor_temp_styles(t as int)
                } else {
                    outdoor_temp_styles(t as int)
                },
            ),
        ),
        None => blank(),
    }
}

/// Formats the indoor or near-surface temperature with its trend over `db`.
pub fn format_temp(e: &Observation, indoor: bool, db: &TimeSeries) -> (r: WeatherData)
    ensures
        r@ == temp_view(*e, indoor, db@),
{
    let m = if indoor {
        Metric::IndoorTemperature
    } else {
        Metric::OutdoorTemperature
    };
    let trend = Trend::from_db(db, m, m.change_criteria(), m.rapid_criteria());
    match m.value(e) {
        Some(t) => {
            let style = if indoor {
                indoor_temp_style(t)
            } else {
                outdoor_temp_style(t)
            };
            let mut text = String::new();
            push_degrees(&mut text, t);
            push_text(&mut text, trend.str());
            make("Temp", text, style)
        },
        None => WeatherData::none(),
    }
}

/// The apparent-temperature field, styled as an outdoor temperature.
pub open spec fn apparent_view(e: Observation) -> FragView {
    match surface(e) {
        Some(l) => match l.apparent_temperature {
            Some(a) => ("Feels"@, degrees_text(a as int), style_seq(outdoor_temp_styles(a as int))),
            None => blank(),
        },
        None => blank(),
    }
}

/// Formats the apparent temperature.
pub fn format_apparent_temp(e: &Observation) -> (r: WeatherData)
    ensures
        r@ == apparent_view(*e),
{
    match e.layer(LayerKind::NearSurface) {
        Some(l) => match l.apparent_temperature {
            Some(a) => {
                let mut text = String::new();
                push_degrees(&mut text, a);
                make("Feels", text, outdoor_temp_style(a))
            },
            None => WeatherData::none(),
        },
        None => WeatherData::none(),
    }
}

// PRESSURE ----------------------------------------------------------------------------------

/// The pressure field: the best sea-level pressure to a tenth of a
/// millibar, its trend glyph, and its style.
pub open spec fn pressure_view(e: Observation, s: Seq<Observation>) -> FragView {
    let m = Metric::SeaLevelPressure;
    match metric_of(e, m) {
        Some(p) => (
            "Pres"@,
            fixed_point(p as int, 1) + glyph(classify(s, m, change_of(m), rapid_of(m))),
            style_seq(mslp_styles(p as int)),
        ),
        None => blank(),
    }
}

/// Formats the sea-level pressure with its trend over `db`.
pub fn format_pressure(e: &Observation, db: &TimeSeries) -> (r: WeatherData)
    ensures
        r@ == pressure_view(*e, db@),
{
    let m = Metric::SeaLevelPressure;
    match m.value(e) {
        Some(p) => {
            let trend = Trend::from_db(db, m, m.change_criteria(), m.rapid_criteria());
            let mut text = String::new();
            push_fixed(&mut text, p as i64, 1);
            push_text(&mut text, trend.str());
            make("Pres", text, mslp_style(p))
        },
        None => WeatherData::none(),
    }
}

// MOISTURE ----------------------------------------------------------------------------------

/// The dewpoint field.
pub open spec fn dew_view(e: Observation) -> FragView {
    match surface(e) {
        Some(l) => match l.dewpoint {
            Some(a) => ("Dew"@, degrees_text(a as int), style_seq(dewpoint_styles(a as int))),
            None => blank(),
        },
        None => blank(),
    }
}

/// The relative-humidity field: shown, as `N/A` when unknown, only with a dewpoint.
pub open spec fn rh_view(e: Observation) -> FragView {
    match surface(e) {
        Some(l) => match l.dewpoint {
            Some(_) => match l.relative_humidity {
                Some(a) => (
                    "RH"@,
                    signed_decimal(round_div(a as int, 10)) + "%"@,
                    style_seq(humidity_styles(a as int)),
                ),
                None => ("RH"@, "N/A"@, style_seq(seq![TermStyle::Red, TermStyle::Bold])),
            },
            None => blank(),
        },
        None => blank(),
    }
}

/// Formats the dewpoint and the relative humidity.
pub fn format_dewpoint(e: &Observation) -> (r: (WeatherData, WeatherData))
    ensures
        r.0@ == dew_view(*e),
        r.1@ == rh_view(*e),
{
    let l = match e.layer(LayerKind::NearSurface) {
        Some(l) => l,
        None => return (WeatherData::none(), WeatherData::none()),
    };
    let a = match l.dewpoint {
        Some(a) => a,
        None => return (WeatherData::none(), WeatherData::none()),
    };
    let mut dew_text = String::new();
    push_degrees(&mut dew_text, a);
    let dew = make("Dew", dew_text, dewpoint_style(a));
    let rh = match l.relative_humidity {
        Some(h) => {
            let mut text = String::new();
            push_signed(&mut text, round_div_exec(h as i64, 10));
            push_text(&mut text, "%");
            make("RH", text, humidity_style(h))
        },
        None => make("RH", String::from_str("N/A"), Style::error()),
    };
    (dew, rh)
}

// WIND --------------------------------------------------------------------------------------

/// The 16-point compass name of a direction in degrees.
pub open spec fn cardinal(degrees: int) -> Seq<char> {
    let i = ((4 * degrees + 45) / 90) % 16;
    if i == 0 {
        "N"@
    } else if i == 1 {
        "NNE"@
    } else if i == 2 {
        "NE"@
    } else if i == 3 {
        "ENE"@
    } else if i == 4 {
        "E"@
    } else if i == 5 {
        "ESE"@
    } else if i == 6 {
        "SE"@
    } else if i == 7 {
        "SSE"@
    } else if i == 8 {
        "S"@
    } else if i == 9 {
        "SSW"@
    } else if i == 10 {
        "SW"@
    } else if i == 11 {
        "WSW"@
    } else if i == 12 {
        "W"@
    } else if i == 13 {
        "WNW"@
    } else if i == 14 {
        "NW"@
    } else {
        "NNW"@
    }
}

/// The 16-point compass name of a direction in degrees.
pub fn cardinal_name(degrees: u16) -> (r: &'static str)
    ensures
        r@ == cardinal(degrees as int),
{
    let i = ((4 * degrees as u32 + 45) / 90) % 16;
    if i == 0 {
        "N"
    } else if i == 1 {
        "NNE"
    } else if i == 2 {
        "NE"
    } else if i == 3 {
        "ENE"
    } else if i == 4 {
        "E"
    } else if i == 5 {
        "ESE"
    } else if i == 6 {
        "SE"
    } else if i == 7 {
        "SSE"
    } else if i == 8 {
        "S"
    } else if i == 9 {
        "SSW"
    } else if i == 10 {
        "SW"
    } else if i == 11 {
        "WSW"
    } else if i == 12 {
        "W"
    } else if i == 13 {
        "WNW"
    } else if i == 14 {
        "NW"
    } else {
        "NNW"
    }
}

/// A speed in tenths of a knot, rounded to whole knots, right-aligned in two columns.
pub open spec fn knots_text(tenths: int) -> Seq<char> {
    let k = round_div(tenths, 10);
    if k < 0 {
        signed_decimal(k) + "kts"@
    } else {
        padded(k as nat, 2, ' ') + "kts"@
    }
}

fn push_knots(s: &mut String, tenths: i32)
    ensures
        final(s)@ == old(s)@ + knots_text(tenths as int),
{
    let k = round_div_exec(tenths as i64, 10);
    if k < 0 {
        push_signed(s, k);
    } else {
        push_padded(s, k as u64, 2, ' ');
    }
    push_text(s, "kts");
}

/// The text of a surface wind: direction in three digits, compass name and
/// speed; `Calm` when the speed is not positive.
pub open spec fn wind_text(speed: int, direction: Option<u16>) -> Seq<char> {
    if speed > 0 {
        match direction {
            Some(d) => padded(d as nat, 3, '0') + "("@ + cardinal(d as int) + ")@"@ + knots_text(
                speed,
            ),
            None => knots_text(speed),
        }
    } else {
        "Calm"@
    }
}

/// The surface wind field.
pub open spec fn wind_view(e: Observation) -> FragView {
    match surface(e) {
        Some(l) => match l.wind {
            Some(w) => (
                "Wind"@,
                wind_text(w.speed as int, w.direction),
                style_seq(wind_styles(w.speed as int)),
            ),
            None => blank(),
        },
        None => blank(),
    }
}

/// Formats the surface wind.
pub fn format_wind(e: &Observation) -> (r: WeatherData)
    ensures
        r@ == wind_view(*e),
{
    let w = match e.layer(LayerKind::NearSurface) {
        Some(l) => match l.wind {
            Some(w) => w,
            None => return WeatherData::none(),
        },
        None => return WeatherData::none(),
    };
    let mut text = String::new();
    if w.speed > 0 {
        match w.direction {
            Some(d) => {
                push_padded(&mut text, d as u64, 3, '0');
                push_text(&mut text, "(");
                push_text(&mut text, cardinal_name(d));
                push_text(&mut text, ")@");
                push_knots(&mut text, w.speed);
            },
            None => push_knots(&mut text, w.speed),
        }
    } else {
        push_text(&mut text, "Calm");
    }
    make("Wind", text, wind_style(w.speed))
}

/// The 250 mb wind field.
pub open spec fn wind_250mb_view(e: Observation) -> FragView {
    match layer_of(e, LayerKind::PressureLevel(250)) {
        Some(l) => match l.wind {
            Some(w) => ("250mb"@, knots_text(w.speed as int), style_seq(wind_250mb_styles(w.speed as int))),
            None => blank(),
        },
        None => blank(),
    }
}

/// Formats the wind speed at 250 mb.
pub fn format_250mb_wind(e: &Observation) -> (r: WeatherData)
    ensures
        r@ == wind_250mb_view(*e),
{
    match e.layer(LayerKind::PressureLevel(250)) {
        Some(l) => match l.wind {
            Some(w) => {
                let mut text = String::new();
                push_knots(&mut text, w.speed);
                make("250mb", text, style_250mb_wind(w.speed))
            },
            None => WeatherData::none(),
        },
        None => WeatherData::none(),
    }
}

// VISIBILITY, HEIGHTS, ENERGY ---------------------------------------------------------------

/// Visibility in hundredths of a mile: two decimals up to one mile, one
/// decimal under three miles, whole miles beyond.
pub open spec fn visibility_text(v: int) -> Seq<char> {
    if v <= 100 {
        fixed_point(v, 2) + "mi"@
    } else if v < 300 {
        fixed_point(round_div(v, 10), 1) + "mi"@
    } else {
        signed_decimal(round_div(v, 100)) + "mi"@
    }
}

/// The visibility field.
pub open spec fn visibility_view(e: Observation) -> FragView {
    match surface(e) {
        Some(l) => match l.visibility {
            Some(v) => ("Vis"@, visibility_text(v as int), style_seq(visibility_styles(v as int))),
            None => blank(),
        },
        None => blank(),
    }
}

/// Formats the visibility.
pub fn format_visibility(e: &Observation) -> (r: WeatherData)
    ensures
        r@ == visibility_view(*e),
{
    let v = match e.layer(LayerKind::NearSurface) {
        Some(l) => match l.visibility {
            Some(v) => v,
            None => return WeatherData::none(),
        },
        None => return WeatherData::none(),
    };
    let mut text = String::new();
    if v <= 100 {
        push_fixed(&mut text, v as i64, 2);
    } else if v < 300 {
        push_fixed(&mut text, round_div_exec(v as i64, 10), 1);
    } else {
        push_signed(&mut text, round_div_exec(v as i64, 100));
    }
    push_text(&mut text, "mi");
    make("Vis", text, visibility_style(v))
}

/// The 500 mb height field, in decametres followed by `0m`.
pub open spec fn height_500mb_view(e: Observation) -> FragView {
    match layer_of(e, LayerKind::PressureLevel(500)) {
        Some(l) => match l.height_msl {
            Some(h) => (
                "500mb Hght"@,
                signed_decimal(round_div(h as int, 10)) + "0m"@,
                style_seq(height_500mb_styles(h as int)),
            ),
            None => blank(),
        },
        None => blank(),
    }
}

/// Formats the height of the 500 mb surface.
pub fn format_500mb_height(e: &Observation) -> (r: WeatherData)
    ensures
        r@ == height_500mb_view(*e),
{
    match e.layer(LayerKind::PressureLevel(500)) {
        Some(l) => match l.height_msl {
            Some(h) => {
                let mut text = String::new();
                push_signed(&mut text, round_div_exec(h as i64, 10));
                push_text(&mut text, "0m");
                make("500mb Hght", text, style_500mb_height(h))
            },
            None => WeatherData::none(),
        },
        None => WeatherData::none(),
    }
}

/// The convective energy field.
pub open spec fn cape_view(e: Observation) -> FragView {
    match e.cape {
        Some(c) => ("CAPE"@, signed_decimal(c as int) + " J/kg"@, style_seq(cape_styles(c as int))),
        None => blank(),
    }
}

/// Formats the convective available potential energy.
pub fn format_cape(e: &Observation) -> (r: WeatherData)
    ensures
        r@ == cape_view(*e),
{
    match e.cape {
        Some(c) => {
            let mut text = String::new();
            push_signed(&mut text, c as i64);
            push_text(&mut text, " J/kg");
            make("CAPE", text, cape_style(c))
        },
        None => WeatherData::none(),
    }
}

// CLOUDS ------------------------------------------------------------------------------------

/// The report code of a coverage.
pub open spec fn coverage_code(c: Coverage) -> Seq<char> {
    match c {
        Coverage::Few => "FEW"@,
        Coverage::Scattered => "SCT"@,
        Coverage::Broken => "BKN"@,
        Coverage::Overcast => "OVC"@,
    }
}

/// A cloud layer as in a station report: its code, then its base in
/// hundreds of feet in three digits (`BKN025`).
pub open spec fn cloud_layer_text(l: CloudLayer) -> Seq<char> {
    coverage_code(l.coverage) + padded((l.height / 100) as nat, 3, '0')
}

/// The cloud layers, separated by `, `.
pub open spec fn cloud_layers_text(ls: Seq<CloudLayer>) -> Seq<char>
    decreases ls.len(),
{
    if ls.len() == 0 {
        Seq::empty()
    } else if ls.len() == 1 {
        cloud_layer_text(ls[0])
    } else {
        cloud_layers_text(ls.drop_last()) + ", "@ + cloud_layer_text(ls.last())
    }
}

/// Whether any of the layers is overcast.
pub open spec fn any_overcast(ls: Seq<CloudLayer>) -> bool {
    exists|i: int| 0 <= i < ls.len() && ls[i].coverage == Coverage::Overcast
}

/// The sky-cover field; its text is empty, so it is left out, when the sky was not observed.
pub open spec fn cloud_view(e: Observation) -> FragView {
    match e.sky_cover {
        None => ("Clouds"@, Seq::empty(), style_seq(seq![TermStyle::Red, TermStyle::Bold])),
        Some(SkyCover::Clear) => ("Clouds"@, "CLR"@, style_seq(seq![TermStyle::Bold])),
        Some(SkyCover::Cloudy(v)) => (
            "Clouds"@,
            cloud_layers_text(v@),
            style_seq(
                if any_overcast(v@) {
                    seq![TermStyle::WhiteBg, TermStyle::Black, TermStyle::Bold]
                } else {
                    seq![TermStyle::Bold]
                },
            ),
        ),
    }
}

fn coverage_str(c: Coverage) -> (r: &'static str)
    ensures
        r@ == coverage_code(c),
{
    match c {
        Coverage::Few => "FEW",
        Coverage::Scattered => "SCT",
        Coverage::Broken => "BKN",
        Coverage::Overcast => "OVC",
    }
}

/// Formats the sky cover.
pub fn format_cloud(e: &Observation) -> (r: WeatherData)
    ensures
        r@ == cloud_view(*e),
{
    match &e.sky_cover {
        None => {
            let st = [TermStyle::Red, TermStyle::Bold];
            assert(st@ =~= seq![TermStyle::Red, TermStyle::Bold]);
            let r = make("Clouds", String::new(), Style::new(&st));
            assert(r@.1 =~= Seq::<char>::empty());
            r
        },
        Some(SkyCover::Clear) => {
            let st = [TermStyle::Bold];
            assert(st@ =~= seq![TermStyle::Bold]);
            make("Clouds", String::from_str("CLR"), Style::new(&st))
        },
        Some(SkyCover::Cloudy(v)) => {
            let mut text = String::new();
            let mut overcast = false;
            let mut i: usize = 0;
            assert(v@.subrange(0, 0) =~= Seq::<CloudLayer>::empty());
            while i < v.len()
                invariant
                    i <= v@.len(),
                    text@ == cloud_layers_text(v@.subrange(0, i as int)),
                    overcast == any_overcast(v@.subrange(0, i as int)),
                decreases v@.len() - i,
            {
                let ghost before = v@.subrange(0, i as int);
                let ghost after = v@.subrange(0, i + 1);
                assert(after.drop_last() =~= before);
                if i > 0 {
                    push_text(&mut text, ", ");
                }
                push_text(&mut text, coverage_str(v[i].coverage));
                push_padded(&mut text, (v[i].height / 100) as u64, 3, '0');
                if v[i].coverage == Coverage::Overcast {
                    overcast = true;
                }
                i = i + 1;
                assert(any_overcast(after) == (any_overcast(before) || after.last().coverage
                    == Coverage::Overcast)) by {
                    if any_overcast(before) {
                        let k = choose|k: int| 0 <= k < before.len() && before[k].coverage == Coverage::Overcast;
                        assert(after[k] == before[k]);
                    }
                    if any_overcast(after) {
                        let k = choose|k: int| 0 <= k < after.len() && after[k].coverage == Coverage::Overcast;
                        if k < before.len() {
                            assert(after[k] == before[k]);
                        }
                    }
                }
            }
            assert(v@.subrange(0, v@.len() as int) =~= v@);
            let style = if overcast {
                let st = [TermStyle::WhiteBg, TermStyle::Black, TermStyle::Bold];
                assert(st@ =~= seq![TermStyle::WhiteBg, TermStyle::Black, TermStyle::Bold]);
                Style::new(&st)
            } else {
                let st = [TermStyle::Bold];
                assert(st@ =~= seq![TermStyle::Bold]);
                Style::new(&st)
            };
            make("Clouds", text, style)
        },
    }
}

// PRESENT WEATHER ---------------------------------------------------------------------------

/// Whether `s` holds the two characters `a`, `b` next to each other.
pub open spec fn has_pair(s: Seq<char>, a: char, b: char) -> bool {
    exists|i: int| 0 <= i < s.len() - 1 && #[trigger] s[i] == a && s[i + 1] == b
}

fn contains_pair(s: &str, a: char, b: char) -> (r: bool)
    ensures
        r == has_pair(s@, a, b),
{
    let n = s.unicode_len();
    if n < 2 {
        return false;
    }
    let mut i: usize = 0;
    while i < n - 1
        invariant
            n == s@.len(),
            n >= 2,
            i <= n - 1,
            forall|k: int| 0 <= k < i ==> !(#[trigger] s@[k] == a && s@[k + 1] == b),
        decreases n - 1 - i,
    {
        if s.get_char(i) == a && s.get_char(i + 1) == b {
            return true;
        }
        i = i + 1;
    }
    false
}

/// The severity of one present-weather code: 5 fire or ash, 4 severe
/// (hail, thunder, dust, sand, squalls, funnel clouds), 3 frozen
/// precipitation, 2 rain or drizzle, 1 obscuration, 0 anything else.
pub open spec fn wx_rank(c: Seq<char>) -> u8 {
    if has_pair(c, 'F', 'U') || has_pair(c, 'V', 'A') {
        5
    } else if has_pair(c, 'G', 'R') || has_pair(c, 'T', 'S') || has_pair(c, 'D', 'U') || has_pair(
        c,
        'S',
        'A',
    ) || has_pair(c, 'S', 'Q') || has_pair(c, 'D', 'S') || has_pair(c, 'S', 'S') || has_pair(
        c,
        'F',
        'C',
    ) {
        4
    } else if has_pair(c, 'S', 'N') || has_pair(c, 'S', 'G') || has_pair(c, 'G', 'S') || has_pair(
        c,
        'P',
        'L',
    ) || has_pair(c, 'I', 'C') {
        3
    } else if has_pair(c, 'D', 'Z') || has_pair(c, 'R', 'A') || has_pair(c, 'U', 'P') {
        2
    } else if has_pair(c, 'F', 'G') || has_pair(c, 'B', 'R') || has_pair(c, 'H', 'Z') || has_pair(
        c,
        'P',
        'Y',
    ) {
        1
    } else {
        0
    }
}

fn code_rank(c: &str) -> (r: u8)
    ensures
        r == wx_rank(c@),
{
    if contains_pair(c, 'F', 'U') || contains_pair(c, 'V', 'A') {
        5
    } else if contains_pair(c, 'G', 'R') || contains_pair(c, 'T', 'S') || contains_pair(c, 'D', 'U')
        || contains_pair(c, 'S', 'A') || contains_pair(c, 'S', 'Q') || contains_pair(c, 'D', 'S')
        || contains_pair(c, 'S', 'S') || contains_pair(c, 'F', 'C') {
        4
    } else if contains_pair(c, 'S', 'N') || contains_pair(c, 'S', 'G') || contains_pair(c, 'G', 'S')
        || contains_pair(c, 'P', 'L') || contains_pair(c, 'I', 'C') {
        3
    } else if contains_pair(c, 'D', 'Z') || contains_pair(c, 'R', 'A') || contains_pair(c, 'U', 'P') {
        2
    } else if contains_pair(c, 'F', 'G') || contains_pair(c, 'B', 'R') || contains_pair(c, 'H', 'Z')
        || contains_pair(c, 'P', 'Y') {
        1
    } else {
        0
    }
}

/// The highest severity among the codes.
pub open spec fn max_rank(cs: Seq<Seq<char>>) -> u8
    decreases cs.len(),
{
    if cs.len() == 0 {
        0
    } else {
        let r = max_rank(cs.drop_last());
        let l = wx_rank(cs.last());
        if l > r {
            l
        } else {
            r
        }
    }
}

/// The codes joined by single spaces.
pub open spec fn joined_codes(cs: Seq<Seq<char>>) -> Seq<char>
    decreases cs.len(),
{
    if cs.len() == 0 {
        Seq::empty()
    } else if cs.len() == 1 {
        cs[0]
    } else {
        joined_codes(cs.drop_last()) + " "@ + cs.last()
    }
}

/// The present-weather field: the codes, styled by their most severe
/// category; `No WX` in bold when they make no text.
pub open spec fn wx_view(codes: Option<Seq<Seq<char>>>) -> FragView {
    match codes {
        None => blank(),
        Some(cs) => if joined_codes(cs).len() == 0 {
            (Seq::empty(), "No WX"@, style_seq(seq![TermStyle::Bold]))
        } else {
            (Seq::empty(), joined_codes(cs), style_seq(wx_styles(max_rank(cs) as int)))
        },
    }
}

/// The views of a list of codes.
pub open spec fn code_views(v: Seq<String>) -> Seq<Seq<char>> {
    v.map_values(|c: String| c@)
}

/// The present-weather codes of an observation, as text.
pub open spec fn codes_of(e: Observation) -> Option<Seq<Seq<char>>> {
    match e.wx_codes {
        Some(v) => Some(code_views(v@)),
        None => None,
    }
}

/// Formats a list of present-weather codes.
pub fn format_wx(o: &Option<Vec<String>>) -> (r: WeatherData)
    ensures
        r@ == wx_view(
            match o {
                Some(v) => Some(code_views(v@)),
                None => None,
            },
        ),
{
    let v = match o {
        Some(v) => v,
        None => return WeatherData::none(),
    };
    let ghost all = code_views(v@);
    let mut text = String::new();
    let mut rank: u8 = 0;
    let mut i: usize = 0;
    assert(all.subrange(0, 0) =~= Seq::<Seq<char>>::empty());
    while i < v.len()
        invariant
            i <= v@.len(),
            all == code_views(v@),
            text@ == joined_codes(all.subrange(0, i as int)),
            rank == max_rank(all.subrange(0, i as int)),
            rank <= 5,
        decreases v@.len() - i,
    {
        assert(all.subrange(0, i + 1).drop_last() =~= all.subrange(0, i as int));
        assert(all.subrange(0, i + 1).last() == v@[i as int]@);
        if i > 0 {
            push_text(&mut text, " ");
        }
        push_text(&mut text, v[i].as_str());
        let c = code_rank(v[i].as_str());
        if c > rank {
            rank = c;
        }
        i = i + 1;
    }
    assert(all.subrange(0, v@.len() as int) =~= all);
    proof {
        reveal_strlit("");
    }
    if text.as_str().unicode_len() == 0 {
        let st = [TermStyle::Bold];
        assert(st@ =~= seq![TermStyle::Bold]);
        make("", String::from_str("No WX"), Style::new(&st))
    } else {
        make("", text, wx_style(rank))
    }
}

// FLIGHT CATEGORY ---------------------------------------------------------------------------

/// Flight category, from least to most restrictive.
#[derive(Debug, Clone, Copy, PartialEq, Eq, Structural)]
pub enum FlightRules {
    VFR,
    MVFR,
    IFR,
    LIFR,
}

/// How restrictive a category is: 0 for VFR up to 3 for LIFR.
pub open spec fn restrictiveness(f: FlightRules) -> int {
    match f {
        FlightRules::VFR => 0,
        FlightRules::MVFR => 1,
        FlightRules::IFR => 2,
        FlightRules::LIFR => 3,
    }
}

/// The category of a ceiling in feet: up to 499, 500 to 999, 1000 to 2999, 3000 and up.
pub open spec fn ceiling_tier(ceiling: int) -> FlightRules {
    if ceiling <= 499 {
        FlightRules::LIFR
    } else if ceiling <= 999 {
        FlightRules::IFR
    } else if ceiling <= 2999 {
        FlightRules::MVFR
    } else {
        FlightRules::VFR
    }
}

/// The category of a visibility in hundredths of a mile: under 1, 3, 5 miles, else.
pub open spec fn visibility_tier(v: int) -> FlightRules {
    if v < 100 {
        FlightRules::LIFR
    } else if v < 300 {
        FlightRules::IFR
    } else if v < 500 {
        FlightRules::MVFR
    } else {
        FlightRules::VFR
    }
}

/// The more restrictive of the ceiling's and the visibility's categories.
pub open spec fn flight_category(ceiling: int, v: int) -> FlightRules {
    if restrictiveness(ceiling_tier(ceiling)) >= restrictiveness(visibility_tier(v)) {
        ceiling_tier(ceiling)
    } else {
        visibility_tier(v)
    }
}

/// The name of a category.
pub open spec fn rules_name(f: FlightRules) -> Seq<char> {
    match f {
        FlightRules::VFR => "VFR"@,
        FlightRules::MVFR => "MVFR"@,
        FlightRules::IFR => "IFR"@,
        FlightRules::LIFR => "LIFR"@,
    }
}

/// The styles of a category.
pub open spec fn rules_styles(f: FlightRules) -> Seq<TermStyle> {
    match f {
        FlightRules::VFR => seq![TermStyle::GreenBg, TermStyle::Bold],
        FlightRules::MVFR => seq![TermStyle::BlueBg, TermStyle::Bold],
        FlightRules::IFR => seq![TermStyle::RedBg, TermStyle::Bold],
        FlightRules::LIFR => seq![TermStyle::PurpleBg, TermStyle::Bold],
    }
}

impl FlightRules {
    /// The category for a ceiling in feet and a visibility in hundredths of a mile.
    pub fn from_conditions(ceiling: u32, visibility: i32) -> (r: FlightRules)
        ensures
            r == flight_category(ceiling as int, visibility as int),
    {
        if ceiling <= 499 {
            FlightRules::LIFR
        } else if visibility < 100 {
            FlightRules::LIFR
        } else if ceiling <= 999 {
            FlightRules::IFR
        } else if visibility < 300 {
            FlightRules::IFR
        } else if ceiling <= 2999 {
            FlightRules::MVFR
        } else if visibility < 500 {
            FlightRules::MVFR
        } else {
            FlightRules::VFR
        }
    }

    /// The name of the category.
    pub fn name(&self) -> (r: &'static str)
        ensures
            r@ == rules_name(*self),
    {
        match self {
            FlightRules::VFR => "VFR",
            FlightRules::MVFR => "MVFR",
            FlightRules::IFR => "IFR",
            FlightRules::LIFR => "LIFR",
        }
    }

    /// The escape sequence the category is shown in.
    pub fn style(&self) -> (r: String)
        ensures
            r@ == style_seq(rules_styles(*self)),
    {
        let c = match self {
            FlightRules::VFR => TermStyle::GreenBg,
            FlightRules::MVFR => TermStyle::BlueBg,
            FlightRules::IFR => TermStyle::RedBg,
            FlightRules::LIFR => TermStyle::PurpleBg,
        };
        let st = [c, TermStyle::Bold];
        assert(st@ =~= rules_styles(*self));
        Style::new(&st)
    }
}

/// The lowest base among the layers that are not `Few`, `u32::MAX` when there is none.
pub open spec fn lowest_ceiling(ls: Seq<CloudLayer>) -> u32
    decreases ls.len(),
{
    if ls.len() == 0 {
        u32::MAX
    } else {
        let r = lowest_ceiling(ls.drop_last());
        let l = ls.last();
        if l.coverage != Coverage::Few && l.height < r {
            l.height
        } else {
            r
        }
    }
}

/// The ceiling under a sky cover: none under a clear sky.
pub open spec fn ceiling_of(sky: SkyCover) -> u32 {
    match sky {
        SkyCover::Clear => u32::MAX,
        SkyCover::Cloudy(v) => lowest_ceiling(v@),
    }
}

/// The flight-category field, shown when both the sky and the visibility were observed.
pub open spec fn rules_view(e: Observation) -> FragView {
    match (e.sky_cover, surface(e)) {
        (Some(sky), Some(l)) => match l.visibility {
            Some(v) => {
                let f = flight_category(ceiling_of(sky) as int, v as int);
                (Seq::empty(), rules_name(f), style_seq(rules_styles(f)))
            },
            None => blank(),
        },
        _ => blank(),
    }
}

/// Formats the flight category.
pub fn format_flight_rules(e: &Observation) -> (r: WeatherData)
    ensures
        r@ == rules_view(*e),
{
    let sky = match &e.sky_cover {
        Some(s) => s,
        None => return WeatherData::none(),
    };
    let vis = match e.layer(LayerKind::NearSurface) {
        Some(l) => match l.visibility {
            Some(v) => v,
            None => return WeatherData::none(),
        },
        None => return WeatherData::none(),
    };
    let mut ceiling: u32 = u32::MAX;
    if let SkyCover::Cloudy(v) = sky {
        let mut i: usize = 0;
        assert(v@.subrange(0, 0) =~= Seq::<CloudLayer>::empty());
        while i < v.len()
            invariant
                i <= v@.len(),
                ceiling == lowest_ceiling(v@.subrange(0, i as int)),
            decreases v@.len() - i,
        {
            assert(v@.subrange(0, i + 1).drop_last() =~= v@.subrange(0, i as int));
            if v[i].coverage != Coverage::Few && v[i].height < ceiling {
                ceiling = v[i].height;
            }
            i = i + 1;
        }
        assert(v@.subrange(0, v@.len() as int) =~= v@);
    }
    let f = FlightRules::from_conditions(ceiling, vis);
    proof {
        reveal_strlit("");
    }
    make("", String::from_str(f.name()), f.style())
}

// STATION LINE ------------------------------------------------------------------------------

/// A selectable report parameter.
#[derive(Debug, Clone, Copy, PartialEq, Eq, Structural)]
pub enum WxParams {
    ApparentTemp,
    Cape,
    Cloud,
    Dewpoint,
    FlightRules,
    Height500mb,
    Metar,
    Pressure,
    RelativeHumidity,
    Temperature,
    Visibility,
    Wind,
    Wind250mb,
    WxCode,
}

/// The fragment of parameter `p`; the verbatim report has none, it comes
/// after the fragments.
pub open spec fn field_view(e: Observation, p: WxParams, indoor: bool, s: Seq<Observation>) -> FragView {
    match p {
        WxParams::ApparentTemp => apparent_view(e),
        WxParams::Cape => cape_view(e),
        WxParams::Cloud => cloud_view(e),
        WxParams::Dewpoint => dew_view(e),
        WxParams::FlightRules => rules_view(e),
        WxParams::Height500mb => height_500mb_view(e),
        WxParams::Metar => blank(),
        WxParams::Pressure => pressure_view(e, s),
        WxParams::RelativeHumidity => rh_view(e),
        WxParams::Temperature => temp_view(e, indoor, s),
        WxParams::Visibility => visibility_view(e),
        WxParams::Wind => wind_view(e),
        WxParams::Wind250mb => wind_250mb_view(e),
        WxParams::WxCode => wx_view(codes_of(e)),
    }
}

/// The fragments of the parameters, in order.
pub open spec fn fields(e: Observation, ps: Seq<WxParams>, indoor: bool, s: Seq<Observation>) -> Seq<
    FragView,
> {
    ps.map_values(|p: WxParams| field_view(e, p, indoor, s))
}

/// The verbatim report block, empty when the observation has no report.
pub open spec fn metar_view(e: Observation) -> Seq<char> {
    match e.raw_report {
        Some(t) => wrap_state(words(t@), COLUMN_WIDTH as nat).0,
        None => Seq::empty(),
    }
}

/// Formats the verbatim report as a wrapped block.
pub fn format_metar(e: &Observation) -> (r: String)
    ensures
        r@ == metar_view(*e),
{
    match &e.raw_report {
        Some(t) => wrap_report(t.as_str(), COLUMN_WIDTH),
        None => String::new(),
    }
}

/// The text of one station: `prelude`, the parameters' fragments packed into
/// lines of `COLUMN_WIDTH` columns, the verbatim report when it is asked
/// for, and a newline.
pub open spec fn station_text(
    prelude: Seq<char>,
    e: Observation,
    ps: Seq<WxParams>,
    indoor: bool,
    s: Seq<Observation>,
) -> Seq<char> {
    rendered(prelude, fields(e, ps, indoor, s), COLUMN_WIDTH as nat) + (if ps.contains(
        WxParams::Metar,
    ) {
        metar_view(e)
    } else {
        Seq::empty()
    }) + "\n"@
}

/// Renders the observation `e` of a station: the fields of `parameters`,
/// with temperature and pressure trends taken over `db`.
pub fn station_line(
    prelude: &str,
    e: &Observation,
    parameters: &Vec<WxParams>,
    indoor: bool,
    db: &TimeSeries,
) -> (r: Result<String, String>)
    ensures
        r is Ok,
        r->Ok_0@ == station_text(prelude@, *e, parameters@, indoor, db@),
{
    let mut data_vec: Vec<WeatherData> = Vec::new();
    let ghost target = fields(*e, parameters@, indoor, db@);
    let mut has_metar = false;
    let mut i: usize = 0;
    while i < parameters.len()
        invariant
            i <= parameters@.len(),
            target == fields(*e, parameters@, indoor, db@),
            views(data_vec@) == target.subrange(0, i as int),
            has_metar == parameters@.subrange(0, i as int).contains(WxParams::Metar),
        decreases parameters@.len() - i,
    {
        let p = parameters[i];
        let d = match p {
            WxParams::ApparentTemp => format_apparent_temp(e),
            WxParams::Cape => format_cape(e),
            WxParams::Cloud => format_cloud(e),
            WxParams::Dewpoint => format_dewpoint(e).0,
            WxParams::FlightRules => format_flight_rules(e),
            WxParams::Height500mb => format_500mb_height(e),
            WxParams::Metar => WeatherData::none(),
            WxParams::Pressure => format_pressure(e, db),
            WxParams::RelativeHumidity => format_dewpoint(e).1,
            WxParams::Temperature => format_temp(e, indoor, db),
            WxParams::Visibility => format_visibility(e),
            WxParams::Wind => format_wind(e),
            WxParams::Wind250mb => format_250mb_wind(e),
            WxParams::WxCode => format_wx(&e.wx_codes),
        };
        if p == WxParams::Metar {
            has_metar = true;
        }
        let ghost before = data_vec@;
        data_vec.push(d);
        proof {
            assert(views(data_vec@) =~= views(before).push(d@));
            assert(target.subrange(0, i + 1) =~= target.subrange(0, i as int).push(target[i as int]));
            let ps = parameters@.subrange(0, i + 1);
            assert(ps =~= parameters@.subrange(0, i as int).push(p));
            assert(ps.contains(WxParams::Metar) == (parameters@.subrange(0, i as int).contains(
                WxParams::Metar,
            ) || p == WxParams::Metar)) by {
                if ps.contains(WxParams::Metar) {
                    let k = choose|k: int| 0 <= k < ps.len() && ps[k] == WxParams::Metar;
                    if k < i {
                        assert(parameters@.subrange(0, i as int)[k] == WxParams::Metar);
                    }
                }
                if parameters@.subrange(0, i as int).contains(WxParams::Metar) {
                    let k = choose|k: int|
                        0 <= k < i && parameters@.subrange(0, i as int)[k] == WxParams::Metar;
                    assert(ps[k] == WxParams::Metar);
                }
                if p == WxParams::Metar {
                    assert(ps[i as int] == WxParams::Metar);
                }
            }
        }
        i = i + 1;
    }
    assert(target.subrange(0, parameters@.len() as int) =~= target);
    assert(parameters@.subrange(0, parameters@.len() as int) =~= parameters@);
    let mut total = render_line(prelude, &data_vec, COLUMN_WIDTH);
    if has_metar {
        push_text(&mut total, format_metar(e).as_str());
    }
    push_char(&mut total, '\n');
    proof {
        reveal_strlit("\n");
        assert(total@ =~= station_text(prelude@, *e, parameters@, indoor, db@));
    }
    Ok(total)
}

} // verus!
