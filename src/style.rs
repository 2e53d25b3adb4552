//! Terminal styles: SGR escape sequences, banners and rules.
use vstd::prelude::*;

use vstd::string::StrSliceExecFns;

use crate::text::{push_char, push_text};

verus! {

/// One terminal attribute: a text effect, a foreground or a background colour.
#[derive(Debug, Clone, Copy, PartialEq, Eq, Structural)]
pub enum TermStyle {
    Reset,
    Bold,
    Underline,
    Blinking,
    Black,
    Red,
    Green,
    Yellow,
    Blue,
    Purple,
    Cyan,
    White,
    BlackBg,
    RedBg,
    GreenBg,
    YellowBg,
    BlueBg,
    PurpleBg,
    CyanBg,
    WhiteBg,
    NoStyle,
}

/// The SGR parameter of a style (the number between `ESC [` and `m`).
pub open spec fn sgr_param(t: TermStyle) -> Seq<char> {
    match t {
        TermStyle::Reset => seq!['0'],
        TermStyle::Bold => seq!['1'],
        TermStyle::Underline => seq!['4'],
        TermStyle::Blinking => seq!['5'],
        TermStyle::Black => seq!['3', '0'],
        TermStyle::Red => seq!['3', '1'],
        TermStyle::Green => seq!['3', '2'],
        TermStyle::Yellow => seq!['3', '3'],
        TermStyle::Blue => seq!['3', '4'],
        TermStyle::Purple => seq!['3', '5'],
        TermStyle::Cyan => seq!['3', '6'],
        TermStyle::White => seq!['3', '7'],
        TermStyle::BlackBg => seq!['4', '0'],
        TermStyle::RedBg => seq!['4', '1'],
        TermStyle::GreenBg => seq!['4', '2'],
        TermStyle::YellowBg => seq!['4', '3'],
        TermStyle::BlueBg => seq!['4', '4'],
        TermStyle::PurpleBg => seq!['4', '5'],
        TermStyle::CyanBg => seq!['4', '6'],
        TermStyle::WhiteBg => seq!['4', '7'],
        TermStyle::NoStyle => Seq::empty(),
    }
}

/// The escape sequence that switches one style on; empty for `NoStyle`.
pub open spec fn escape_of(t: TermStyle) -> Seq<char> {
    if t is NoStyle {
        Seq::empty()
    } else {
        seq!['\x1b', '['] + sgr_param(t) + seq!['m']
    }
}

/// The escape sequence that resets all styles.
pub open spec fn reset_seq() -> Seq<char> {
    seq!['\x1b', '[', '0', 'm']
}

/// The SGR parameters of a list of styles, separated by `;`.
pub open spec fn joined_params(s: Seq<TermStyle>) -> Seq<char>
    decreases s.len(),
{
    if s.len() == 0 {
        Seq::empty()
    } else if s.len() == 1 {
        sgr_param(s[0])
    } else {
        joined_params(s.drop_last()) + seq![';'] + sgr_param(s.last())
    }
}

/// The single escape sequence that switches on every style of the list.
pub open spec fn style_seq(s: Seq<TermStyle>) -> Seq<char> {
    seq!['\x1b', '['] + joined_params(s) + seq!['m']
}

impl TermStyle {
    /// The SGR parameter of this style.
    pub fn param(&self) -> (r: &'static str)
        ensures
            r@ == sgr_param(*self),
    {
        match self {
            TermStyle::Reset => {
                proof {
                    reveal_strlit("0");
                }
                "0"
            },
            TermStyle::Bold => {
                proof {
                    reveal_strlit("1");
                }
                "1"
            },
            TermStyle::Underline => {
                proof {
                    reveal_strlit("4");
                }
                "4"
            },
            TermStyle::Blinking => {
                proof {
                    reveal_strlit("5");
                }
                "5"
            },
            TermStyle::Black => {
                proof {
                    reveal_strlit("30");
                }
                "30"
            },
            TermStyle::Red => {
                proof {
                    reveal_strlit("31");
                }
                "31"
            },
            TermStyle::Green => {
                proof {
                    reveal_strlit("32");
                }
                "32"
            },
            TermStyle::Yellow => {
                proof {
                    reveal_strlit("33");
                }
                "33"
            },
            TermStyle::Blue => {
                proof {
                    reveal_strlit("34");
                }
                "34"
            },
            TermStyle::Purple => {
                proof {
                    reveal_strlit("35");
                }
                "35"
            },
            TermStyle::Cyan => {
                proof {
                    reveal_strlit("36");
                }
                "36"
            },
            TermStyle::White => {
                proof {
                    reveal_strlit("37");
                }
                "37"
            },
            TermStyle::BlackBg => {
                proof {
                    reveal_strlit("40");
                }
                "40"
            },
            TermStyle::RedBg => {
                proof {
                    reveal_strlit("41");
                }
                "41"
            },
            TermStyle::GreenBg => {
                proof {
                    reveal_strlit("42");
                }
                "42"
            },
            TermStyle::YellowBg => {
                proof {
                    reveal_strlit("43");
                }
                "43"
            },
            TermStyle::BlueBg => {
                proof {
                    reveal_strlit("44");
                }
                "44"
            },
            TermStyle::PurpleBg => {
                proof {
                    reveal_strlit("45");
                }
                "45"
            },
            TermStyle::CyanBg => {
                proof {
                    reveal_strlit("46");
                }
                "46"
            },
            TermStyle::WhiteBg => {
                proof {
                    reveal_strlit("47");
                }
                "47"
            },
            TermStyle::NoStyle => {
                proof {
                    reveal_strlit("");
                }
                ""
            },
        }
    }

    /// The escape sequence that switches this style on.
    pub fn str(&self) -> (r: &'static str)
        ensures
            r@ == escape_of(*self),
    {
        match self {
            TermStyle::Reset => {
                proof {
                    reveal_strlit("\x1b[0m");
                }
                "\x1b[0m"
            },
            TermStyle::Bold => {
                proof {
                    reveal_strlit("\x1b[1m");
                }
                "\x1b[1m"
            },
            TermStyle::Underline => {
                proof {
                    reveal_strlit("\x1b[4m");
                }
                "\x1b[4m"
            },
            TermStyle::Blinking => {
                proof {
                    reveal_strlit("\x1b[5m");
                }
                "\x1b[5m"
            },
            TermStyle::Black => {
                proof {
                    reveal_strlit("\x1b[30m");
                }
                "\x1b[30m"
            },
            TermStyle::Red => {
                proof {
                    reveal_strlit("\x1b[31m");
                }
                "\x1b[31m"
            },
            TermStyle::Green => {
                proof {
                    reveal_strlit("\x1b[32m");
                }
                "\x1b[32m"
            },
            TermStyle::Yellow => {
                proof {
                    reveal_strlit("\x1b[33m");
                }
                "\x1b[33m"
            },
            TermStyle::Blue => {
                proof {
                    reveal_strlit("\x1b[34m");
                }
                "\x1b[34m"
            },
            TermStyle::Purple => {
                proof {
                    reveal_strlit("\x1b[35m");
                }
                "\x1b[35m"
            },
            TermStyle::Cyan => {
                proof {
                    reveal_strlit("\x1b[36m");
                }
                "\x1b[36m"
            },
            TermStyle::White => {
                proof {
                    reveal_strlit("\x1b[37m");
                }
                "\x1b[37m"
            },
            TermStyle::BlackBg => {
                proof {
                    reveal_strlit("\x1b[40m");
                }
                "\x1b[40m"
            },
            TermStyle::RedBg => {
                proof {
                    reveal_strlit("\x1b[41m");
                }
                "\x1b[41m"
            },
            TermStyle::GreenBg => {
                proof {
                    reveal_strlit("\x1b[42m");
                }
                "\x1b[42m"
            },
            TermStyle::YellowBg => {
                proof {
                    reveal_strlit("\x1b[43m");
                }
                "\x1b[43m"
            },
            TermStyle::BlueBg => {
                proof {
                    reveal_strlit("\x1b[44m");
                }
                "\x1b[44m"
            },
            TermStyle::PurpleBg => {
                proof {
                    reveal_strlit("\x1b[45m");
                }
                "\x1b[45m"
            },
            TermStyle::CyanBg => {
                proof {
                    reveal_strlit("\x1b[46m");
                }
                "\x1b[46m"
            },
            TermStyle::WhiteBg => {
                proof {
                    reveal_strlit("\x1b[47m");
                }
                "\x1b[47m"
            },
            TermStyle::NoStyle => {
                proof {
                    reveal_strlit("");
                }
                ""
            },
        }
    }
}

/// Builds combined escape sequences out of lists of styles.
pub struct Style {}

impl Style {
    /// One escape sequence switching on all of `styles`.
    pub fn new(styles: &[TermStyle]) -> (r: String)
        ensures
            r@ == style_seq(styles@),
    {
        let mut s = String::new();
        proof {
            reveal_strlit("\x1b[");
        }
        push_text(&mut s, "\x1b[");
        let mut i: usize = 0;
        while i < styles.len()
            invariant
                i <= styles@.len(),
                s@ == seq!['\x1b', '['] + joined_params(styles@.subrange(0, i as int)),
            decreases styles@.len() - i,
        {
            let ghost before = styles@.subrange(0, i as int);
            let ghost after = styles@.subrange(0, i + 1);
            assert(after.drop_last() =~= before);
            if i > 0 {
                push_char(&mut s, ';');
            }
            push_text(&mut s, styles[i].param());
            i = i + 1;
            assert(s@ =~= seq!['\x1b', '['] + joined_params(after));
        }
        push_char(&mut s, 'm');
        assert(styles@.subrange(0, styles@.len() as int) =~= styles@);
        assert(s@ =~= style_seq(styles@));
        s
    }

    /// The style of error messages: bold red.
    pub fn error() -> (r: String)
        ensures
            r@ == style_seq(seq![TermStyle::Red, TermStyle::Bold]),
    {
        let styles = [TermStyle::Red, TermStyle::Bold];
        assert(styles@ =~= seq![TermStyle::Red, TermStyle::Bold]);
        Style::new(&styles)
    }
}

/// Width of a full terminal rule and of a banner.
pub const LINE_WIDTH: usize = 80;

/// A rule of `LINE_WIDTH` copies of `c`, ended by a newline.
pub fn terminal_line(c: char) -> (r: String)
    ensures
        r@ == Seq::new(LINE_WIDTH as nat, |_i: int| c).push('\n'),
{
    let mut s = String::new();
    let mut i: usize = 0;
    while i < LINE_WIDTH
        invariant
            i <= LINE_WIDTH,
            s@ == Seq::new(i as nat, |_i: int| c),
        decreases LINE_WIDTH - i,
    {
        push_char(&mut s, c);
        i = i + 1;
        assert(s@ =~= Seq::new(i as nat, |_i: int| c));
    }
    push_char(&mut s, '\n');
    s
}

/// `s` centred in `LINE_WIDTH` columns between runs of `-`; the left run is
/// the shorter one when the padding is odd. Longer text is left as it is.
pub open spec fn centered(s: Seq<char>) -> Seq<char> {
    if s.len() >= LINE_WIDTH {
        s
    } else {
        let pad = LINE_WIDTH - s.len();
        Seq::new((pad / 2) as nat, |_i: int| '-') + s + Seq::new(
            (pad - pad / 2) as nat,
            |_i: int| '-',
        )
    }
}

fn push_dashes(s: &mut String, n: usize)
    ensures
        final(s)@ == old(s)@ + Seq::new(n as nat, |_i: int| '-'),
{
    let ghost start = s@;
    let mut i: usize = 0;
    while i < n
        invariant
            i <= n,
            s@ == start + Seq::new(i as nat, |_i: int| '-'),
        decreases n - i,
    {
        push_char(s, '-');
        i = i + 1;
        assert(s@ =~= start + Seq::new(i as nat, |_i: int| '-'));
    }
}

/// A section banner: `s` centred in a rule of dashes, on a line of its own.
pub fn title(s: &str) -> (r: String)
    ensures
        r@ == seq!['\n'] + centered(s@) + seq!['\n'],
{
    let len = s.unicode_len();
    let mut r = String::new();
    push_char(&mut r, '\n');
    if len >= LINE_WIDTH {
        push_text(&mut r, s);
    } else {
        let pad = LINE_WIDTH - len;
        push_dashes(&mut r, pad / 2);
        push_text(&mut r, s);
        push_dashes(&mut r, pad - pad / 2);
    }
    push_char(&mut r, '\n');
    assert(r@ =~= seq!['\n'] + centered(s@) + seq!['\n']);
    r
}

/// The styles of a tide extreme: blue for a low (`L`), red for a high (`H`).
pub open spec fn high_low_styles(peak: char) -> Option<Seq<TermStyle>> {
    if peak == 'L' || peak == 'l' {
        Some(seq![TermStyle::Blue])
    } else if peak == 'H' || peak == 'h' {
        Some(seq![TermStyle::Red])
    } else {
        None
    }
}

/// The escape sequence for a tide extreme marked `peak`; empty for other marks.
pub fn high_low_style(peak: char) -> (r: String)
    ensures
        r@ == match high_low_styles(peak) {
            Some(st) => style_seq(st),
            None => Seq::empty(),
        },
{
    if peak == 'L' || peak == 'l' {
        let st = [TermStyle::Blue];
        assert(st@ =~= seq![TermStyle::Blue]);
        Style::new(&st)
    } else if peak == 'H' || peak == 'h' {
        let st = [TermStyle::Red];
        assert(st@ =~= seq![TermStyle::Red]);
        Style::new(&st)
    } else {
        String::new()
    }
}

/// The colour of a weekday, counted in days from Monday.
pub open spec fn weekday_styles(days_from_monday: int) -> Seq<TermStyle> {
    if days_from_monday == 0 {
        seq![TermStyle::Red, TermStyle::Bold]
    } else if days_from_monday == 1 {
        seq![TermStyle::Yellow, TermStyle::Bold]
    } else if days_from_monday == 2 {
        seq![TermStyle::Green, TermStyle::Bold]
    } else if days_from_monday == 3 {
        seq![TermStyle::Purple, TermStyle::Bold]
    } else if days_from_monday == 4 {
        seq![TermStyle::Blue, TermStyle::Bold]
    } else if days_from_monday == 5 {
        seq![TermStyle::Cyan, TermStyle::Bold]
    } else {
        seq![TermStyle::Bold]
    }
}

/// The escape sequence that colours the name of a weekday (`0` is Monday, `6` Sunday).
pub fn day_of_week_style(days_from_monday: u32) -> (r: String)
    requires
        days_from_monday < 7,
    ensures
        r@ == style_seq(weekday_styles(days_from_monday as int)),
{
    let c = if days_from_monday == 0 {
        TermStyle::Red
    } else if days_from_monday == 1 {
        TermStyle::Yellow
    } else if days_from_monday == 2 {
        TermStyle::Green
    } else if days_from_monday == 3 {
        TermStyle::Purple
    } else if days_from_monday == 4 {
        TermStyle::Blue
    } else {
        TermStyle::Cyan
    };
    if days_from_monday == 6 {
        let st = [TermStyle::Bold];
        assert(st@ =~= weekday_styles(days_from_monday as int));
        Style::new(&st)
    } else {
        let st = [c, TermStyle::Bold];
        assert(st@ =~= weekday_styles(days_from_monday as int));
        Style::new(&st)
    }
}

} // verus!
