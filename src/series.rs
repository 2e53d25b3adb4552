//! Observations and the time series that holds them.
//!
//! Measured quantities are integers in fixed display units: temperatures in
//! tenths of a degree Fahrenheit, pressures in tenths of a millibar, wind
//! speeds in tenths of a knot, visibility in hundredths of a statute mile,
//! heights in metres (cloud bases in feet), convective energy in J/kg.
//! Timestamps are seconds since the Unix epoch (UTC), durations are seconds.
use vstd::prelude::*;

verus! {

/// A vertical or logical subdivision of an observation.
#[derive(Debug, Clone, Copy, PartialEq, Eq, Structural)]
pub enum LayerKind {
    NearSurface,
    SeaLevel,
    Indoor,
    /// A constant-pressure level, in millibars (250, 500, ...).
    PressureLevel(u32),
}

/// Wind: direction it blows from, in degrees, and speed in tenths of a knot.
#[derive(Debug, Clone, Copy, PartialEq, Eq, Structural)]
pub struct Wind {
    pub direction: Option<u16>,
    pub speed: i32,
}

/// What was observed in one layer; an absent field was not observed.
#[derive(Debug, Clone, Copy, PartialEq, Eq, Structural)]
pub struct LayerReading {
    pub kind: LayerKind,
    /// Tenths of a degree Fahrenheit.
    pub temperature: Option<i32>,
    /// Tenths of a degree Fahrenheit.
    pub dewpoint: Option<i32>,
    /// Tenths of a percent, derived from temperature and dewpoint.
    pub relative_humidity: Option<i32>,
    /// Tenths of a degree Fahrenheit, derived from temperature, wind and humidity.
    pub apparent_temperature: Option<i32>,
    /// Tenths of a millibar.
    pub pressure: Option<i32>,
    pub wind: Option<Wind>,
    /// Hundredths of a statute mile.
    pub visibility: Option<i32>,
    /// Metres above sea level.
    pub height_msl: Option<i32>,
}

/// How much of the sky one cloud layer covers.
#[derive(Debug, Clone, Copy, PartialEq, Eq, Structural)]
pub enum Coverage {
    Few,
    Scattered,
    Broken,
    Overcast,
}

/// One cloud layer: its coverage and the height of its base in feet.
#[derive(Debug, Clone, Copy, PartialEq, Eq, Structural)]
pub struct CloudLayer {
    pub coverage: Coverage,
    pub height: u32,
}

/// The state of the sky.
#[derive(Debug, Clone)]
pub enum SkyCover {
    Clear,
    Cloudy(Vec<CloudLayer>),
}

/// One timestamped record of the conditions at a station.
#[derive(Debug, Clone)]
pub struct Observation {
    /// Seconds since the Unix epoch, UTC.
    pub timestamp: i64,
    /// Readings per layer; each kind of layer appears at most once.
    pub layers: Vec<LayerReading>,
    /// Convective available potential energy, J/kg.
    pub cape: Option<i32>,
    pub sky_cover: Option<SkyCover>,
    /// Present-weather codes (`RA`, `-SN`, `BR`, ...).
    pub wx_codes: Option<Vec<String>>,
    /// The station's verbatim report.
    pub raw_report: Option<String>,
    /// Altimeter setting, tenths of a millibar.
    pub altimeter: Option<i32>,
}

/// The first reading of kind `kind` among `layers`.
pub open spec fn find_layer(layers: Seq<LayerReading>, kind: LayerKind) -> Option<LayerReading>
    decreases layers.len(),
{
    if layers.len() == 0 {
        None
    } else if layers[0].kind == kind {
        Some(layers[0])
    } else {
        find_layer(layers.drop_first(), kind)
    }
}

/// The reading of kind `kind` in an observation.
pub open spec fn layer_of(o: Observation, kind: LayerKind) -> Option<LayerReading> {
    find_layer(o.layers@, kind)
}

impl Observation {
    /// The reading of kind `kind`, if the observation has one.
    pub fn layer(&self, kind: LayerKind) -> (r: Option<&LayerReading>)
        ensures
            match r {
                Some(l) => layer_of(*self, kind) == Some(*l),
                None => layer_of(*self, kind) is None,
            },
    {
        let mut i: usize = 0;
        assert(self.layers@.subrange(0, self.layers@.len() as int) =~= self.layers@);
        while i < self.layers.len()
            invariant
                i <= self.layers@.len(),
                find_layer(self.layers@, kind) == find_layer(
                    self.layers@.subrange(i as int, self.layers@.len() as int),
                    kind,
                ),
            decreases self.layers@.len() - i,
        {
            let ghost rest = self.layers@.subrange(i as int, self.layers@.len() as int);
            assert(rest.drop_first() =~= self.layers@.subrange(i + 1, self.layers@.len() as int));
            if self.layers[i].kind == kind {
                return Some(&self.layers[i]);
            }
            i = i + 1;
        }
        None
    }
}

/// A scalar quantity read off an observation, in its display unit.
#[derive(Debug, Clone, Copy, PartialEq, Eq, Structural)]
pub enum Metric {
    /// Indoor temperature, tenths of a degree Fahrenheit.
    IndoorTemperature,
    /// Near-surface temperature, tenths of a degree Fahrenheit.
    OutdoorTemperature,
    /// Best available sea-level pressure, tenths of a millibar.
    SeaLevelPressure,
}

/// The best available sea-level pressure: the sea-level layer's pressure,
/// else the altimeter setting.
pub open spec fn best_slp(o: Observation) -> Option<i32> {
    match layer_of(o, LayerKind::SeaLevel) {
        Some(l) if l.pressure is Some => l.pressure,
        _ => o.altimeter,
    }
}

/// The value of `m` on `o`, if it was observed.
pub open spec fn metric_of(o: Observation, m: Metric) -> Option<i32> {
    match m {
        Metric::IndoorTemperature => match layer_of(o, LayerKind::Indoor) {
            Some(l) => l.temperature,
            None => None,
        },
        Metric::OutdoorTemperature => match layer_of(o, LayerKind::NearSurface) {
            Some(l) => l.temperature,
            None => None,
        },
        Metric::SeaLevelPressure => best_slp(o),
    }
}

impl Observation {
    /// The best available sea-level pressure.
    pub fn best_slp(&self) -> (r: Option<i32>)
        ensures
            r == best_slp(*self),
    {
        match self.layer(LayerKind::SeaLevel) {
            Some(l) if l.pressure.is_some() => l.pressure,
            _ => self.altimeter,
        }
    }
}

impl Metric {
    /// The value of this metric on `o`.
    pub fn value(&self, o: &Observation) -> (r: Option<i32>)
        ensures
            r == metric_of(*o, *self),
    {
        match self {
            Metric::IndoorTemperature => match o.layer(LayerKind::Indoor) {
                Some(l) => l.temperature,
                None => None,
            },
            Metric::OutdoorTemperature => match o.layer(LayerKind::NearSurface) {
                Some(l) => l.temperature,
                None => None,
            },
            Metric::SeaLevelPressure => o.best_slp(),
        }
    }
}

/// What can go wrong when building or querying a time series.
#[derive(Debug, Clone, Copy, PartialEq, Eq, Structural)]
pub enum SeriesError {
    /// The series holds no observation.
    EmptySeries,
    /// No observation has the requested timestamp.
    LookupMiss,
    /// A field is absent on an observation that is present.
    DataUnavailable,
    /// The observations handed in are not in strictly ascending time order.
    Unordered,
}

/// Timestamps strictly ascending: ordered, and no two equal.
pub open spec fn ascending(s: Seq<Observation>) -> bool {
    forall|i: int, j: int| 0 <= i < j < s.len() ==> s[i].timestamp < s[j].timestamp
}

/// Whether some observation of `s` is stamped `t`.
pub open spec fn has_time(s: Seq<Observation>, t: int) -> bool {
    exists|i: int| 0 <= i < s.len() && s[i].timestamp == t
}

/// The observation of `s` stamped `t`, if any.
pub open spec fn entry_at(s: Seq<Observation>, t: int) -> Option<Observation> {
    if has_time(s, t) {
        Some(s[choose|i: int| 0 <= i < s.len() && s[i].timestamp == t])
    } else {
        None
    }
}

/// The observation with the greatest timestamp, if any.
pub open spec fn latest_of(s: Seq<Observation>) -> Option<Observation> {
    if s.len() == 0 {
        None
    } else {
        Some(s.last())
    }
}

/// In an ascending series, the observation at index `k` is the one stamped with its time.
pub proof fn lemma_entry_at_index(s: Seq<Observation>, k: int)
    requires
        ascending(s),
        0 <= k < s.len(),
    ensures
        entry_at(s, s[k].timestamp as int) == Some(s[k]),
{
    assert(has_time(s, s[k].timestamp as int));
    let j = choose|i: int| 0 <= i < s.len() && s[i].timestamp == s[k].timestamp;
    if j < k {
        assert(s[j].timestamp < s[k].timestamp);
    } else if j > k {
        assert(s[k].timestamp < s[j].timestamp);
    }
}

/// Observations of one station, in strictly ascending time order.
pub struct TimeSeries {
    entries: Vec<Observation>,
}

impl View for TimeSeries {
    type V = Seq<Observation>;

    closed spec fn view(&self) -> Seq<Observation> {
        self.entries@
    }
}

impl TimeSeries {
    #[verifier::type_invariant]
    closed spec fn inv(&self) -> bool {
        ascending(self.entries@)
    }

    /// A series with no observation.
    pub fn empty() -> (r: TimeSeries)
        ensures
            r@ == Seq::<Observation>::empty(),
    {
        TimeSeries { entries: Vec::new() }
    }

    /// A series of `entries`, which must be in strictly ascending time order.
    pub fn new(entries: Vec<Observation>) -> (r: Result<TimeSeries, SeriesError>)
        ensures
            ascending(entries@) <==> r is Ok,
            match r {
                Ok(t) => t@ == entries@,
                Err(e) => e == SeriesError::Unordered,
            },
    {
        let n = entries.len();
        let mut i: usize = 1;
        if n == 0 {
            return Ok(TimeSeries { entries });
        }
        while i < n
            invariant
                1 <= i <= n,
                n == entries@.len(),
                forall|a: int, b: int| 0 <= a < b < i ==> entries@[a].timestamp < entries@[b].timestamp,
            decreases n - i,
        {
            if entries[i - 1].timestamp >= entries[i].timestamp {
                return Err(SeriesError::Unordered);
            }
            i = i + 1;
            assert forall|a: int, b: int| 0 <= a < b < i implies entries@[a].timestamp
                < entries@[b].timestamp by {
                if b == i - 1 && a < i - 2 {
                    assert(entries@[a].timestamp < entries@[i - 2].timestamp);
                }
            }
        }
        Ok(TimeSeries { entries })
    }

    /// The number of observations.
    pub fn len(&self) -> (r: usize)
        ensures
            r == self@.len(),
    {
        self.entries.len()
    }

    /// The observation at `index`, in time order.
    pub fn get(&self, index: usize) -> (r: &Observation)
        requires
            index < self@.len(),
        ensures
            *r == self@[index as int],
    {
        &self.entries[index]
    }

    /// The most recent observation.
    pub fn latest(&self) -> (r: Result<&Observation, SeriesError>)
        ensures
            match r {
                Ok(o) => latest_of(self@) == Some(*o),
                Err(e) => latest_of(self@) is None && e == SeriesError::EmptySeries,
            },
    {
        let n = self.entries.len();
        if n == 0 {
            Err(SeriesError::EmptySeries)
        } else {
            Ok(&self.entries[n - 1])
        }
    }

    /// The timestamp of the most recent observation.
    pub fn latest_time(&self) -> (r: Result<i64, SeriesError>)
        ensures
            match r {
                Ok(t) => self@.len() > 0 && t == self@.last().timestamp,
                Err(e) => self@.len() == 0 && e == SeriesError::EmptySeries,
            },
    {
        match self.latest() {
            Ok(o) => Ok(o.timestamp),
            Err(e) => Err(e),
        }
    }

    /// The observation stamped exactly `reference_time - duration`.
    pub fn at_exact_offset(&self, reference_time: i64, duration: i64) -> (r: Result<
        &Observation,
        SeriesError,
    >)
        ensures
            match r {
                Ok(o) => entry_at(self@, reference_time - duration) == Some(*o),
                Err(e) => entry_at(self@, reference_time - duration) is None && e
                    == SeriesError::LookupMiss,
            },
    {
        proof {
            use_type_invariant(self);
        }
        let target: i128 = reference_time as i128 - duration as i128;
        let mut i: usize = 0;
        while i < self.entries.len()
            invariant
                i <= self.entries@.len(),
                ascending(self.entries@),
                target == reference_time - duration,
                forall|k: int| 0 <= k < i ==> self.entries@[k].timestamp != target,
            decreases self.entries@.len() - i,
        {
            if self.entries[i].timestamp as i128 == target {
                proof {
                    lemma_entry_at_index(self.entries@, i as int);
                }
                return Ok(&self.entries[i]);
            }
            i = i + 1;
        }
        Err(SeriesError::LookupMiss)
    }

    /// The index of the first observation stamped at or after `t`; the last
    /// index when all are earlier.
    pub fn index_at_or_after(&self, t: i128) -> (r: Option<usize>)
        ensures
            self@.len() == 0 <==> r is None,
            match r {
                Some(k) => k < self@.len() && (forall|j: int|
                    0 <= j < k ==> self@[j].timestamp < t) && (self@[k as int].timestamp >= t || k
                    == self@.len() - 1),
                None => true,
            },
    {
        let n = self.entries.len();
        if n == 0 {
            return None;
        }
        let mut i: usize = 0;
        while i < n - 1
            invariant
                i <= n - 1,
                n == self.entries@.len(),
                forall|j: int| 0 <= j < i ==> self.entries@[j].timestamp < t,
            decreases n - 1 - i,
        {
            if self.entries[i].timestamp as i128 >= t {
                return Some(i);
            }
            i = i + 1;
        }
        Some(n - 1)
    }
}

/// Looking back a zero duration from the latest time finds the latest observation.
pub proof fn lemma_zero_offset_is_latest(s: Seq<Observation>)
    requires
        ascending(s),
        s.len() > 0,
    ensures
        entry_at(s, s.last().timestamp - 0) == latest_of(s),
{
    lemma_entry_at_index(s, s.len() - 1);
}

} // verus!
