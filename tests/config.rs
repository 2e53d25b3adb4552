use unifetch::config::{key_tide_indices, t, Args, DistanceUnits, Modules};

fn args() -> Args {
    Args {
        default: false,
        random: false,
        solar_lunar: false,
        current_conditions: false,
        forecast: false,
        teleconnections: false,
        earthquakes: false,
        tides: false,
        datetime: false,
        disable_header: false,
        disable_update_notif: false,
        verbose: 0,
    }
}

fn all(on: bool) -> Modules {
    Modules {
        current_conditions: on,
        forecast: on,
        teleconnections: on,
        earthquakes: on,
        random: on,
        solarlunar: on,
        tides: on,
        updates: on,
    }
}

#[test]
fn switch_default_is_on() {
    assert!(t());
    assert_eq!(DistanceUnits::default(), DistanceUnits::Kilometers);
}

#[test]
fn normalize_caps_verbosity_and_sets_default() {
    let mut a = args();
    a.verbose = 7;
    a.normalize();
    assert_eq!(a.verbose, 2);
    assert!(a.default);
    let mut b = args();
    b.tides = true;
    b.normalize();
    assert!(!b.default);
}

#[test]
fn enabled_modules_from_args() {
    let mut a = args();
    a.tides = true;
    let m = Modules::enabled_for(&a, &all(true));
    assert!(m.tides && !m.forecast && m.updates);
    let none = args();
    let m = Modules::enabled_for(&none, &all(true));
    assert_eq!(m, all(true));
    let mut off = args();
    off.disable_update_notif = true;
    off.default = true;
    let m = Modules::enabled_for(&off, &all(false));
    assert_eq!(m, all(false));
}

#[test]
fn tides_around_now() {
    let times = vec![10, 20, 30, 40];
    assert_eq!(key_tide_indices(&times, 25), vec![1, 2, 3]);
    assert_eq!(key_tide_indices(&times, 5), vec![0, 1]);
    assert_eq!(key_tide_indices(&times, 35), vec![2, 3]);
    assert_eq!(key_tide_indices(&times, 99), vec![0, 1, 2]);
    assert_eq!(key_tide_indices(&vec![], 0), Vec::<usize>::new());
}
