//! Configuration values and the choice of report sections to run.
use vstd::prelude::*;

verus! {

/// The report sections, each on or off.
#[derive(Debug, Clone, Copy, Default, PartialEq, Eq, Structural)]
pub struct Modules {
    pub current_conditions: bool,
    pub forecast: bool,
    pub teleconnections: bool,
    pub earthquakes: bool,
    pub random: bool,
    pub solarlunar: bool,
    pub tides: bool,
    pub updates: bool,
}

/// An outside service that may be told the user's location.
#[derive(Debug, Clone, Copy, PartialEq, Eq, Structural)]
pub enum Service {
    Wxer,
    Usno,
    Usgs,
}

/// Where the observation server can be reached: mirror addresses tried in order.
#[derive(Debug, Clone)]
pub struct Wxer {
    pub addresses: Vec<String>,
}

/// General settings; none so far.
#[derive(Debug, Clone, Copy)]
pub struct GeneralConfig {}

/// The unit in which distances are configured.
#[derive(Debug, Clone, Copy, PartialEq, Eq, Structural)]
pub enum DistanceUnits {
    Miles,
    Kilometers,
    NauticalMiles,
}

impl Default for DistanceUnits {
    fn default() -> (r: DistanceUnits)
        ensures
            r == DistanceUnits::Kilometers,
    {
        DistanceUnits::Kilometers
    }
}

/// A tide station: its numeric id and the name it is shown under.
#[derive(Debug, Clone)]
pub struct TidalStation {
    pub id: u64,
    pub short_name: String,
}

/// The command-line switches.
#[derive(Debug, Clone, Copy, PartialEq, Eq, Structural)]
pub struct Args {
    pub default: bool,
    pub random: bool,
    pub solar_lunar: bool,
    pub current_conditions: bool,
    pub forecast: bool,
    pub teleconnections: bool,
    pub earthquakes: bool,
    pub tides: bool,
    pub datetime: bool,
    pub disable_header: bool,
    pub disable_update_notif: bool,
    pub verbose: u8,
}

/// Whether any section was switched on by name.
pub open spec fn any_section(a: Args) -> bool {
    a.random || a.solar_lunar || a.current_conditions || a.forecast || a.teleconnections
        || a.earthquakes || a.tides
}

/// The switches after defaults are applied: at most two levels of detail,
/// and the default sections when no section was named.
pub open spec fn normalized(a: Args) -> Args {
    Args {
        verbose: if a.verbose > 2 {
            2
        } else {
            a.verbose
        },
        default: a.default || !any_section(a),
        ..a
    }
}

/// The sections to run: the configured defaults when asked for or when no
/// section was named, plus every section named; the update check unless
/// switched off.
pub open spec fn enabled(a: Args, defaults: Modules) -> Modules {
    let base = if a.default || !any_section(a) {
        defaults
    } else {
        Modules {
            current_conditions: false,
            forecast: false,
            teleconnections: false,
            earthquakes: false,
            random: false,
            solarlunar: false,
            tides: false,
            updates: false,
        }
    };
    Modules {
        random: base.random || a.random,
        solarlunar: base.solarlunar || a.solar_lunar,
        current_conditions: base.current_conditions || a.current_conditions,
        forecast: base.forecast || a.forecast,
        teleconnections: base.teleconnections || a.teleconnections,
        earthquakes: base.earthquakes || a.earthquakes,
        tides: base.tides || a.tides,
        updates: !a.disable_update_notif,
    }
}

/// The default for a section switch that the configuration leaves out: on.
pub fn t() -> (r: bool)
    ensures
        r,
{
    true
}

impl Args {
    /// Caps the detail level at two and turns on the defaults when no section is named.
    pub fn normalize(&mut self)
        ensures
            *final(self) == normalized(*old(self)),
    {
        if self.verbose > 2 {
            self.verbose = 2;
        }
        let any = self.random || self.solar_lunar || self.current_conditions || self.forecast
            || self.teleconnections || self.earthquakes || self.tides;
        self.default = self.default || !any;
    }
}

impl Modules {
    /// The sections to run for `args`, given the configured defaults.
    pub fn enabled_for(args: &Args, default_modules: &Modules) -> (r: Modules)
        ensures
            r == enabled(*args, *default_modules),
    {
        let any = args.random || args.solar_lunar || args.current_conditions || args.forecast
            || args.teleconnections || args.earthquakes || args.tides;
        let base = if args.default || !any {
            *default_modules
        } else {
            Modules {
                current_conditions: false,
                forecast: false,
                teleconnections: false,
                earthquakes: false,
                random: false,
                solarlunar: false,
                tides: false,
                updates: false,
            }
        };
        Modules {
            random: base.random || args.random,
            solarlunar: base.solarlunar || args.solar_lunar,
            current_conditions: base.current_conditions || args.current_conditions,
            forecast: base.forecast || args.forecast,
            teleconnections: base.teleconnections || args.teleconnections,
            earthquakes: base.earthquakes || args.earthquakes,
            tides: base.tides || args.tides,
            updates: !args.disable_update_notif,
        }
    }
}

/// The indices of the tides worth showing: the last one at or before `now`,
/// the first one after it and the next; the first three when none is after
/// `now`. Indices past either end are left out.
pub open spec fn key_tides(times: Seq<i64>, now: i64) -> Seq<int> {
    let after = exists|i: int| 0 <= i < times.len() && times[i] > now;
    let first = choose|i: int|
        0 <= i < times.len() && times[i] > now && forall|j: int| 0 <= j < i ==> times[j] <= now;
    let candidates = if after {
        seq![first - 1, first, first + 1]
    } else {
        seq![0int, 1, 2]
    };
    candidates.filter(within(times.len()))
}

/// The indices of a sequence of length `n`.
pub open spec fn within(n: nat) -> spec_fn(int) -> bool {
    |c: int| 0 <= c < n
}

/// The indices of the tides to show around `now`, in order.
pub fn key_tide_indices(times: &Vec<i64>, now: i64) -> (r: Vec<usize>)
    ensures
        r@.map_values(|k: usize| k as int) == key_tides(times@, now),
{
    let n = times.len();
    let mut i: usize = 0;
    let mut found = false;
    while i < n && !found
        invariant
            i <= n,
            n == times@.len(),
            forall|j: int| 0 <= j < i ==> times@[j] <= now,
            found ==> i < n && times@[i as int] > now,
        decreases n - i + (if found {
            0int
        } else {
            1int
        }),
    {
        if times[i] > now {
            found = true;
        } else {
            i = i + 1;
        }
    }
    let ghost first = i as int;
    proof {
        if found {
            assert(exists|k: int| 0 <= k < times@.len() && times@[k] > now) by {
                assert(times@[first] > now);
            }
            let c = choose|k: int|
                0 <= k < times@.len() && times@[k] > now && forall|j: int|
                    0 <= j < k ==> times@[j] <= now;
            if c < first {
                assert(times@[c] <= now);
            } else if c > first {
                assert(times@[first] <= now);
            }
            assert(c == first);
        } else {
            assert(!exists|k: int| 0 <= k < times@.len() && times@[k] > now);
        }
    }
    let ghost candidates: Seq<int> = if found {
        seq![first - 1, first, first + 1]
    } else {
        seq![0int, 1, 2]
    };
    assert(candidates == seq![
        if found { first - 1 } else { 0 },
        if found { first } else { 1 },
        if found { first + 1 } else { 2 },
    ]);
    let mut r: Vec<usize> = Vec::new();
    reveal(Seq::filter);
    let ghost pred = within(times@.len());
    assert(candidates.subrange(0, 0) =~= Seq::<int>::empty());
    if found {
        if i >= 1 {
            r.push(i - 1);
        }
    } else if n > 0 {
        r.push(0);
    }
    assert(candidates.subrange(0, 1).drop_last() =~= candidates.subrange(0, 0));
    assert(candidates.subrange(0, 0).filter(pred) =~= Seq::<int>::empty());
    assert(candidates.subrange(0, 1).last() == candidates[0]);
    assert(candidates.subrange(0, 2).last() == candidates[1]);
    assert(candidates.subrange(0, 3).last() == candidates[2]);
    assert(r@.map_values(|k: usize| k as int) =~= candidates.subrange(0, 1).filter(pred));
    let second: usize = if found { i } else { 1 };
    if second < n {
        r.push(second);
    }
    assert(candidates.subrange(0, 2).drop_last() =~= candidates.subrange(0, 1));
    assert(r@.map_values(|k: usize| k as int) =~= candidates.subrange(0, 2).filter(pred));
    if (found && i < n - 1) || (!found && 2 < n) {
        let third: usize = if found { i + 1 } else { 2 };
        r.push(third);
    }
    assert(candidates.subrange(0, 3).drop_last() =~= candidates.subrange(0, 2));
    assert(candidates.subrange(0, 3) =~= candidates);
    assert(r@.map_values(|k: usize| k as int) =~= candidates.filter(pred));
    r
}

} // verus!
