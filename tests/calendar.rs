use unifetch::calendar::mayan_calendar;

#[test]
fn epoch_day() {
    assert_eq!(mayan_calendar(0), "Tzolkin: 4 Ajaw\nHaab: 3 K'ank'in\nLong Count: 13.0.0.0.0");
}

#[test]
fn next_day() {
    assert_eq!(mayan_calendar(1), "Tzolkin: 5 Imix\nHaab: 4 K'ank'in\nLong Count: 13.0.0.0.1");
}

#[test]
fn new_haab_year() {
    assert_eq!(mayan_calendar(102), "Tzolkin: 2 Ik'\nHaab: 0 Pop\nLong Count: 13.0.0.5.2");
}

#[test]
fn long_count_carries() {
    let s = mayan_calendar(144000 + 7200 + 360 + 20 + 1);
    assert!(s.ends_with("Long Count: 14.1.1.1.1"));
}
