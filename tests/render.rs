use unifetch::fragment::{render_line, visible_tail_len, wrap_report, WeatherData};

fn plain(text: &str) -> WeatherData {
    WeatherData { title: String::new(), text: text.to_string(), style: String::new() }
}

#[test]
fn scenario_wraps_third_column_budget() {
    // prelude of 10, budget 20: "VFR" fits (14), "Temp:72F" would reach 23 and wraps
    let frags = vec![plain("VFR"), plain("Temp:72F"), plain("Wind:calm")];
    let out = render_line("0123456789", &frags, 20);
    assert_eq!(out, "0123456789 VFR\x1b[0m\n  Temp:72F\x1b[0m Wind:calm\x1b[0m");
}

#[test]
fn empty_fragments_are_skipped() {
    let with = vec![plain("A"), WeatherData::none(), plain("B"), WeatherData::none()];
    let without = vec![plain("A"), plain("B")];
    assert_eq!(render_line("P", &with, 5), render_line("P", &without, 5));
    assert_eq!(render_line("P", &with, 5), "P A\x1b[0m B\x1b[0m");
    assert_eq!(render_line("P", &with, 4), "P A\x1b[0m\n  B\x1b[0m");
}

#[test]
fn oversized_fragment_kept_whole() {
    let frags = vec![plain("ABCDEFGHIJKL"), plain("x")];
    let out = render_line("pre", &frags, 8);
    assert_eq!(out, "pre\n  ABCDEFGHIJKL\x1b[0m\n  x\x1b[0m");
}

#[test]
fn titled_fragment_text() {
    let f = WeatherData { title: "Temp".to_string(), text: "72F".to_string(), style: "\x1b[1m".to_string() };
    assert_eq!(f.to_string(), "Temp: \x1b[1m72F\x1b[0m");
    assert_eq!(f.width(), 9);
    assert!(!f.is_none());
    assert!(WeatherData::none().is_none());
    assert_eq!(WeatherData::none().width(), 0);
    assert_eq!(WeatherData::none().to_string(), "");
}

#[test]
fn report_words_wrap_with_deeper_indent() {
    let out = wrap_report("KPSM 121854Z  31008KT\t10SM", 20);
    assert_eq!(out, "\n  METAR: KPSM\n    121854Z 31008KT\n    10SM");
}

#[test]
fn empty_report_is_only_heading() {
    assert_eq!(wrap_report("   ", 80), "\n  METAR:");
}

#[test]
fn styled_prelude_counts_visible_characters() {
    let prelude = "\x1b[31;1mMon\x1b[0m 12 3PM:";
    assert_eq!(visible_tail_len(prelude), 11);
    assert_eq!(visible_tail_len("ab\ncd\x1b[1mef"), 4);
    let out = render_line(prelude, &vec![plain("ABCDE")], 17);
    assert_eq!(out, format!("{prelude} ABCDE\x1b[0m"));
    let out = render_line(prelude, &vec![plain("ABCDEF")], 17);
    assert_eq!(out, format!("{prelude}\n  ABCDEF\x1b[0m"));
}
