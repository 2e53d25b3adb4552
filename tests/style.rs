use unifetch::style::{
    day_of_week_style, high_low_style, terminal_line, title, Style, TermStyle,
};

#[test]
fn combined_escape() {
    assert_eq!(Style::new(&[TermStyle::Red, TermStyle::Bold]), "\x1b[31;1m");
    assert_eq!(Style::new(&[]), "\x1b[m");
    assert_eq!(Style::new(&[TermStyle::NoStyle, TermStyle::Bold]), "\x1b[;1m");
    assert_eq!(Style::error(), "\x1b[31;1m");
}

#[test]
fn single_escapes() {
    assert_eq!(TermStyle::Reset.str(), "\x1b[0m");
    assert_eq!(TermStyle::WhiteBg.str(), "\x1b[47m");
    assert_eq!(TermStyle::NoStyle.str(), "");
    assert_eq!(TermStyle::Cyan.param(), "36");
}

#[test]
fn rule_of_eighty() {
    let l = terminal_line('-');
    assert_eq!(l.len(), 81);
    assert!(l.starts_with("--------"));
    assert!(l.ends_with("-\n"));
}

#[test]
fn banner_centred() {
    let t = title("TIDES");
    assert_eq!(t, format!("\n{:-^80}\n", "TIDES"));
    let t = title("ODD");
    assert_eq!(t, format!("\n{:-^80}\n", "ODD"));
    let long = "x".repeat(90);
    assert_eq!(title(&long), format!("\n{}\n", long));
}

#[test]
fn tide_styles() {
    assert_eq!(high_low_style('L'), "\x1b[34m");
    assert_eq!(high_low_style('h'), "\x1b[31m");
    assert_eq!(high_low_style('?'), "");
}

#[test]
fn weekday_styles() {
    assert_eq!(day_of_week_style(0), "\x1b[31;1m");
    assert_eq!(day_of_week_style(5), "\x1b[36;1m");
    assert_eq!(day_of_week_style(6), "\x1b[1m");
}
