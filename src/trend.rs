//! Trend classification: how a metric moved relative to fixed points in the past.
use vstd::prelude::*;

use crate::series::{
    ascending, entry_at, has_time, latest_of, lemma_entry_at_index, metric_of, Metric,
    Observation, SeriesError, TimeSeries,
};

verus! {

/// The direction and pace of a change.
#[derive(Debug, Clone, Copy, PartialEq, Eq, Structural)]
pub enum Trend {
    Rising,
    Falling,
    UnknownChange,
    Neutral,
    RapidlyRising,
    RapidlyFalling,
}

/// How far a metric's latest value lies above its value `back` seconds
/// before the latest observation; none when either value is missing.
pub open spec fn delta(s: Seq<Observation>, m: Metric, back: int) -> Option<int> {
    match latest_of(s) {
        None => None,
        Some(l) => match entry_at(s, l.timestamp - back) {
            None => None,
            Some(past) => match (metric_of(l, m), metric_of(past, m)) {
                (Some(now), Some(then)) => Some(now - then),
                _ => None,
            },
        },
    }
}

/// The label for three changes: `d1` over the change window, `d2` and `d3`
/// over the two rapid windows. Rapid bands are checked first.
pub open spec fn label(d1: int, d2: int, d3: int, t1: int, t2: int, t3: int) -> Trend {
    if d2 > t2 && d3 > t3 {
        Trend::RapidlyRising
    } else if d1 > t1 {
        Trend::Rising
    } else if d2 < -t2 && d3 < -t3 {
        Trend::RapidlyFalling
    } else if d1 < -t1 {
        Trend::Falling
    } else {
        Trend::Neutral
    }
}

/// The trend of `m` over `s`, for a change criterion `(window, threshold)`
/// and a rapid criterion `(window, threshold, window, threshold)`.
pub open spec fn classify(
    s: Seq<Observation>,
    m: Metric,
    change: (i64, i32),
    rapid: (i64, i32, i64, i32),
) -> Trend {
    match (delta(s, m, change.0 as int), delta(s, m, rapid.0 as int), delta(s, m, rapid.2 as int)) {
        (Some(d1), Some(d2), Some(d3)) => label(
            d1,
            d2,
            d3,
            change.1 as int,
            rapid.1 as int,
            rapid.3 as int,
        ),
        _ => Trend::UnknownChange,
    }
}

/// The observation `back` seconds before the latest one, if there is one.
fn db_reverse_time(db: &TimeSeries, back: i64) -> (r: Result<&Observation, SeriesError>)
    ensures
        match r {
            Ok(o) => latest_of(db@) is Some && entry_at(db@, latest_of(db@)->0.timestamp - back)
                == Some(*o),
            Err(_) => latest_of(db@) is None || entry_at(
                db@,
                latest_of(db@)->0.timestamp - back,
            ) is None,
        },
{
    let latest = db.latest_time()?;
    db.at_exact_offset(latest, back)
}

/// The change of `m` between the latest observation and the one `back`
/// seconds before it.
fn change_over(db: &TimeSeries, m: Metric, back: i64) -> (r: Result<i64, SeriesError>)
    ensures
        match r {
            Ok(d) => delta(db@, m, back as int) == Some(d as int),
            Err(_) => delta(db@, m, back as int) is None,
        },
{
    let latest = db.latest()?;
    let past = db_reverse_time(db, back)?;
    let now = match m.value(latest) {
        Some(v) => v,
        None => return Err(SeriesError::DataUnavailable),
    };
    let then = match m.value(past) {
        Some(v) => v,
        None => return Err(SeriesError::DataUnavailable),
    };
    Ok(now as i64 - then as i64)
}

impl Trend {
    /// The trend, or the reason it cannot be told.
    pub fn from_db_inner(
        db: &TimeSeries,
        m: Metric,
        change_criteria: (i64, i32),
        rapid_criteria: (i64, i32, i64, i32),
    ) -> (r: Result<Trend, SeriesError>)
        ensures
            match r {
                Ok(t) => t == classify(db@, m, change_criteria, rapid_criteria) && t
                    != Trend::UnknownChange,
                Err(_) => classify(db@, m, change_criteria, rapid_criteria)
                    == Trend::UnknownChange,
            },
    {
        let d1 = change_over(db, m, change_criteria.0)?;
        let d2 = change_over(db, m, rapid_criteria.0)?;
        let d3 = change_over(db, m, rapid_criteria.2)?;
        let t1 = change_criteria.1 as i64;
        let t2 = rapid_criteria.1 as i64;
        let t3 = rapid_criteria.3 as i64;
        if d2 > t2 && d3 > t3 {
            Ok(Trend::RapidlyRising)
        } else if d1 > t1 {
            Ok(Trend::Rising)
        } else if d2 < -t2 && d3 < -t3 {
            Ok(Trend::RapidlyFalling)
        } else if d1 < -t1 {
            Ok(Trend::Falling)
        } else {
            Ok(Trend::Neutral)
        }
    }

    /// The trend of `m` over `db`; `UnknownChange` when a value it needs is missing.
    pub fn from_db(
        db: &TimeSeries,
        m: Metric,
        change_criteria: (i64, i32),
        rapid_criteria: (i64, i32, i64, i32),
    ) -> (r: Trend)
        ensures
            r == classify(db@, m, change_criteria, rapid_criteria),
    {
        match Trend::from_db_inner(db, m, change_criteria, rapid_criteria) {
            Ok(t) => t,
            Err(_) => Trend::UnknownChange,
        }
    }

    /// The glyph appended to a value with this trend.
    pub fn str(&self) -> (r: &'static str)
        ensures
            r@ == glyph(*self),
    {
        match self {
            Trend::Rising => {
                proof {
                    reveal_strlit(" ↗");
                }
                " ↗"
            },
            Trend::Falling => {
                proof {
                    reveal_strlit(" ↘");
                }
                " ↘"
            },
            Trend::RapidlyRising => {
                proof {
                    reveal_strlit(" ⬆");
                }
                " ⬆"
            },
            Trend::RapidlyFalling => {
                proof {
                    reveal_strlit(" ⬇");
                }
                " ⬇"
            },
            Trend::UnknownChange => {
                proof {
                    reveal_strlit("");
                }
                ""
            },
            Trend::Neutral => {
                proof {
                    reveal_strlit(" ➡");
                }
                " ➡"
            },
        }
    }
}

/// The glyph of a trend: a space and an arrow, nothing when unknown.
pub open spec fn glyph(t: Trend) -> Seq<char> {
    match t {
        Trend::Rising => seq![' ', '↗'],
        Trend::Falling => seq![' ', '↘'],
        Trend::RapidlyRising => seq![' ', '⬆'],
        Trend::RapidlyFalling => seq![' ', '⬇'],
        Trend::UnknownChange => Seq::empty(),
        Trend::Neutral => seq![' ', '➡'],
    }
}

/// Classification depends on the observations, the metric and the criteria
/// alone: two series with the same observations get the same label.
pub proof fn lemma_classify_deterministic(
    a: &TimeSeries,
    b: &TimeSeries,
    m: Metric,
    change: (i64, i32),
    rapid: (i64, i32, i64, i32),
)
    requires
        a@ == b@,
    ensures
        classify(a@, m, change, rapid) == classify(b@, m, change, rapid),
{
}

/// The rapid bands are checked on their own: when both rapid changes pass
/// their thresholds the series is rapidly rising, or rapidly falling, even
/// though the change over the change window stays within its threshold.
pub proof fn lemma_rapid_bands_independent(
    s: Seq<Observation>,
    m: Metric,
    change: (i64, i32),
    rapid: (i64, i32, i64, i32),
    d1: int,
    d2: int,
    d3: int,
)
    requires
        ascending(s),
        delta(s, m, change.0 as int) == Some(d1),
        delta(s, m, rapid.0 as int) == Some(d2),
        delta(s, m, rapid.2 as int) == Some(d3),
        -change.1 <= d1 <= change.1,
    ensures
        d2 > rapid.1 && d3 > rapid.3 ==> classify(s, m, change, rapid) == Trend::RapidlyRising,
        d2 < -rapid.1 && d3 < -rapid.3 && !(d2 > rapid.1 && d3 > rapid.3) ==> classify(
            s,
            m,
            change,
            rapid,
        ) == Trend::RapidlyFalling,
{
}

/// A series that lacks an observation at one of the three looked-up times
/// is classified `UnknownChange`.
pub proof fn lemma_missing_key_unknown(
    s: Seq<Observation>,
    m: Metric,
    change: (i64, i32),
    rapid: (i64, i32, i64, i32),
)
    requires
        ascending(s),
        s.len() == 0 || !has_time(s, s.last().timestamp - change.0) || !has_time(
            s,
            s.last().timestamp - rapid.0,
        ) || !has_time(s, s.last().timestamp - rapid.2),
    ensures
        classify(s, m, change, rapid) == Trend::UnknownChange,
{
}

/// Looking back zero seconds compares the latest observation with itself:
/// an observed metric shows no change over an empty window.
pub proof fn lemma_zero_window_no_change(s: Seq<Observation>, m: Metric)
    requires
        ascending(s),
        s.len() > 0,
        metric_of(s.last(), m) is Some,
    ensures
        delta(s, m, 0) == Some(0int),
{
    lemma_entry_at_index(s, s.len() - 1);
}

/// The change criterion of a metric: `(window in seconds, threshold)`.
pub open spec fn change_of(m: Metric) -> (i64, i32) {
    match m {
        Metric::IndoorTemperature => (7200, 20),
        Metric::OutdoorTemperature => (7200, 40),
        Metric::SeaLevelPressure => (21600, 30),
    }
}

/// The rapid criterion of a metric: two `(window in seconds, threshold)` pairs.
pub open spec fn rapid_of(m: Metric) -> (i64, i32, i64, i32) {
    match m {
        Metric::IndoorTemperature => (3600, 20, 3600, 20),
        Metric::OutdoorTemperature => (900, 20, 3600, 40),
        Metric::SeaLevelPressure => (900, 10, 10800, 20),
    }
}

impl Metric {
    /// The change criterion: indoor temperature 2 h and 2 degrees, outdoor
    /// temperature 2 h and 4 degrees, sea-level pressure 6 h and 3 mb.
    pub fn change_criteria(&self) -> (r: (i64, i32))
        ensures
            r == change_of(*self),
    {
        match self {
            Metric::IndoorTemperature => (7200, 20),
            Metric::OutdoorTemperature => (7200, 40),
            Metric::SeaLevelPressure => (21600, 30),
        }
    }

    /// The rapid criterion: indoor temperature 1 h and 2 degrees twice,
    /// outdoor temperature 15 min and 2 degrees with 1 h and 4 degrees,
    /// sea-level pressure 15 min and 1 mb with 3 h and 2 mb.
    pub fn rapid_criteria(&self) -> (r: (i64, i32, i64, i32))
        ensures
            r == rapid_of(*self),
    {
        match self {
            Metric::IndoorTemperature => (3600, 20, 3600, 20),
            Metric::OutdoorTemperature => (900, 20, 3600, 40),
            Metric::SeaLevelPressure => (900, 10, 10800, 20),
        }
    }
}

} // verus!
