//! Severity tables: which styles a value of each metric is shown in.
use vstd::prelude::*;

use crate::style::{style_seq, Style, TermStyle};

verus! {

/// Outdoor temperature styles, `v` in tenths of a degree F: below 10, 32, 55, 70, 85, 95 degrees, else.
pub open spec fn outdoor_temp_styles(v: int) -> Seq<TermStyle> {
    if v < 100 {
        seq![TermStyle::PurpleBg, TermStyle::Bold]
    } else if v < 320 {
        seq![TermStyle::BlueBg, TermStyle::Bold]
    } else if v < 550 {
        seq![TermStyle::GreenBg, TermStyle::Black, TermStyle::Bold]
    } else if v < 700 {
        seq![TermStyle::YellowBg, TermStyle::Black, TermStyle::Bold]
    } else if v < 850 {
        seq![TermStyle::RedBg, TermStyle::Bold]
    } else if v < 950 {
        seq![TermStyle::WhiteBg, TermStyle::Red, TermStyle::Bold]
    } else {
        seq![TermStyle::PurpleBg, TermStyle::Red, TermStyle::Bold]
    }
}

/// The escape sequence for `v` by the table of [`outdoor_temp_styles`].
pub fn outdoor_temp_style(v: i32) -> (r: String)
    ensures
        r@ == style_seq(outdoor_temp_styles(v as int)),
{
    if v < 100 {
        let st = [TermStyle::PurpleBg, TermStyle::Bold];
        assert(st@ =~= outdoor_temp_styles(v as int));
        Style::new(&st)
    } else if v < 320 {
        let st = [TermStyle::BlueBg, TermStyle::Bold];
        assert(st@ =~= outdoor_temp_styles(v as int));
        Style::new(&st)
    } else if v < 550 {
        let st = [TermStyle::GreenBg, TermStyle::Black, TermStyle::Bold];
        assert(st@ =~= outdoor_temp_styles(v as int));
        Style::new(&st)
    } else if v < 700 {
        let st = [TermStyle::YellowBg, TermStyle::Black, TermStyle::Bold];
        assert(st@ =~= outdoor_temp_styles(v as int));
        Style::new(&st)
    } else if v < 850 {
        let st = [TermStyle::RedBg, TermStyle::Bold];
        assert(st@ =~= outdoor_temp_styles(v as int));
        Style::new(&st)
    } else if v < 950 {
        let st = [TermStyle::WhiteBg, TermStyle::Red, TermStyle::Bold];
        assert(st@ =~= outdoor_temp_styles(v as int));
        Style::new(&st)
    } else {
        let st = [TermStyle::PurpleBg, TermStyle::Red, TermStyle::Bold];
        assert(st@ =~= outdoor_temp_styles(v as int));
        Style::new(&st)
    }
}

/// Indoor temperature styles, `v` in tenths of a degree F: below 65, 75 degrees, else.
pub open spec fn indoor_temp_styles(v: int) -> Seq<TermStyle> {
    if v < 650 {
        seq![TermStyle::BlueBg, TermStyle::Bold]
    } else if v < 750 {
        seq![TermStyle::NoStyle, TermStyle::Bold]
    } else {
        seq![TermStyle::RedBg, TermStyle::Bold]
    }
}

/// The escape sequence for `v` by the table of [`indoor_temp_styles`].
pub fn indoor_temp_style(v: i32) -> (r: String)
    ensures
        r@ == style_seq(indoor_temp_styles(v as int)),
{
    if v < 650 {
        let st = [TermStyle::BlueBg, TermStyle::Bold];
        assert(st@ =~= indoor_temp_styles(v as int));
        Style::new(&st)
    } else if v < 750 {
        let st = [TermStyle::NoStyle, TermStyle::Bold];
        assert(st@ =~= indoor_temp_styles(v as int));
        Style::new(&st)
    } else {
        let st = [TermStyle::RedBg, TermStyle::Bold];
        assert(st@ =~= indoor_temp_styles(v as int));
        Style::new(&st)
    }
}

/// Sea-level pressure styles, `v` in tenths of a millibar: low below 1005 mb, high above 1025 mb.
pub open spec fn mslp_styles(v: int) -> Seq<TermStyle> {
    if v < 10050 {
        seq![TermStyle::RedBg, TermStyle::Black, TermStyle::Bold]
    } else if v > 10250 {
        seq![TermStyle::BlueBg, TermStyle::Black, TermStyle::Bold]
    } else {
        seq![TermStyle::Bold]
    }
}

/// The escape sequence for `v` by the table of [`mslp_styles`].
pub fn mslp_style(v: i32) -> (r: String)
    ensures
        r@ == style_seq(mslp_styles(v as int)),
{
    if v < 10050 {
        let st = [TermStyle::RedBg, TermStyle::Black, TermStyle::Bold];
        assert(st@ =~= mslp_styles(v as int));
        Style::new(&st)
    } else if v > 10250 {
        let st = [TermStyle::BlueBg, TermStyle::Black, TermStyle::Bold];
        assert(st@ =~= mslp_styles(v as int));
        Style::new(&st)
    } else {
        let st = [TermStyle::Bold];
        assert(st@ =~= mslp_styles(v as int));
        Style::new(&st)
    }
}

/// Dewpoint styles, `v` in tenths of a degree F: above 70, 60, 45 degrees, below 30, else.
pub open spec fn dewpoint_styles(v: int) -> Seq<TermStyle> {
    if v > 700 {
        seq![TermStyle::PurpleBg, TermStyle::Black, TermStyle::Bold]
    } else if v > 600 {
        seq![TermStyle::BlueBg, TermStyle::Black, TermStyle::Bold]
    } else if v > 450 {
        seq![TermStyle::GreenBg, TermStyle::Black, TermStyle::Bold]
    } else if v < 300 {
        seq![TermStyle::YellowBg, TermStyle::Black, TermStyle::Bold]
    } else {
        seq![TermStyle::Bold]
    }
}

/// The escape sequence for `v` by the table of [`dewpoint_styles`].
pub fn dewpoint_style(v: i32) -> (r: String)
    ensures
        r@ == style_seq(dewpoint_styles(v as int)),
{
    if v > 700 {
        let st = [TermStyle::PurpleBg, TermStyle::Black, TermStyle::Bold];
        assert(st@ =~= dewpoint_styles(v as int));
        Style::new(&st)
    } else if v > 600 {
        let st = [TermStyle::BlueBg, TermStyle::Black, TermStyle::Bold];
        assert(st@ =~= dewpoint_styles(v as int));
        Style::new(&st)
    } else if v > 450 {
        let st = [TermStyle::GreenBg, TermStyle::Black, TermStyle::Bold];
        assert(st@ =~= dewpoint_styles(v as int));
        Style::new(&st)
    } else if v < 300 {
        let st = [TermStyle::YellowBg, TermStyle::Black, TermStyle::Bold];
        assert(st@ =~= dewpoint_styles(v as int));
        Style::new(&st)
    } else {
        let st = [TermStyle::Bold];
        assert(st@ =~= dewpoint_styles(v as int));
        Style::new(&st)
    }
}

/// Relative humidity styles, `v` in tenths of a percent: above 95, 90, 70, 40 percent, else.
pub open spec fn humidity_styles(v: int) -> Seq<TermStyle> {
    if v > 950 {
        seq![TermStyle::PurpleBg, TermStyle::Black, TermStyle::Bold]
    } else if v > 900 {
        seq![TermStyle::BlueBg, TermStyle::Black, TermStyle::Bold]
    } else if v > 700 {
        seq![TermStyle::GreenBg, TermStyle::Black, TermStyle::Bold]
    } else if v > 400 {
        seq![TermStyle::Bold]
    } else {
        seq![TermStyle::YellowBg, TermStyle::Black, TermStyle::Bold]
    }
}

/// The escape sequence for `v` by the table of [`humidity_styles`].
pub fn humidity_style(v: i32) -> (r: String)
    ensures
        r@ == style_seq(humidity_styles(v as int)),
{
    if v > 950 {
        let st = [TermStyle::PurpleBg, TermStyle::Black, TermStyle::Bold];
        assert(st@ =~= humidity_styles(v as int));
        Style::new(&st)
    } else if v > 900 {
        let st = [TermStyle::BlueBg, TermStyle::Black, TermStyle::Bold];
        assert(st@ =~= humidity_styles(v as int));
        Style::new(&st)
    } else if v > 700 {
        let st = [TermStyle::GreenBg, TermStyle::Black, TermStyle::Bold];
        assert(st@ =~= humidity_styles(v as int));
        Style::new(&st)
    } else if v > 400 {
        let st = [TermStyle::Bold];
        assert(st@ =~= humidity_styles(v as int));
        Style::new(&st)
    } else {
        let st = [TermStyle::YellowBg, TermStyle::Black, TermStyle::Bold];
        assert(st@ =~= humidity_styles(v as int));
        Style::new(&st)
    }
}

/// Surface wind styles, `v` in tenths of a knot: above 45, 32, 20, 12 knots, else.
pub open spec fn wind_styles(v: int) -> Seq<TermStyle> {
    if v > 450 {
        seq![TermStyle::YellowBg, TermStyle::Black, TermStyle::Bold]
    } else if v > 320 {
        seq![TermStyle::RedBg, TermStyle::Black, TermStyle::Bold]
    } else if v > 200 {
        seq![TermStyle::PurpleBg, TermStyle::Black, TermStyle::Bold]
    } else if v > 120 {
        seq![TermStyle::BlueBg, TermStyle::Black, TermStyle::Bold]
    } else {
        seq![TermStyle::Bold]
    }
}

/// The escape sequence for `v` by the table of [`wind_styles`].
pub fn wind_style(v: i32) -> (r: String)
    ensures
        r@ == style_seq(wind_styles(v as int)),
{
    if v > 450 {
        let st = [TermStyle::YellowBg, TermStyle::Black, TermStyle::Bold];
        assert(st@ =~= wind_styles(v as int));
        Style::new(&st)
    } else if v > 320 {
        let st = [TermStyle::RedBg, TermStyle::Black, TermStyle::Bold];
        assert(st@ =~= wind_styles(v as int));
        Style::new(&st)
    } else if v > 200 {
        let st = [TermStyle::PurpleBg, TermStyle::Black, TermStyle::Bold];
        assert(st@ =~= wind_styles(v as int));
        Style::new(&st)
    } else if v > 120 {
        let st = [TermStyle::BlueBg, TermStyle::Black, TermStyle::Bold];
        assert(st@ =~= wind_styles(v as int));
        Style::new(&st)
    } else {
        let st = [TermStyle::Bold];
        assert(st@ =~= wind_styles(v as int));
        Style::new(&st)
    }
}

/// Visibility styles, `v` in hundredths of a mile: under 3 miles, else.
pub open spec fn visibility_styles(v: int) -> Seq<TermStyle> {
    if v < 300 {
        seq![TermStyle::WhiteBg, TermStyle::Black, TermStyle::Bold]
    } else {
        seq![TermStyle::Bold]
    }
}

/// The escape sequence for `v` by the table of [`visibility_styles`].
pub fn visibility_style(v: i32) -> (r: String)
    ensures
        r@ == style_seq(visibility_styles(v as int)),
{
    if v < 300 {
        let st = [TermStyle::WhiteBg, TermStyle::Black, TermStyle::Bold];
        assert(st@ =~= visibility_styles(v as int));
        Style::new(&st)
    } else {
        let st = [TermStyle::Bold];
        assert(st@ =~= visibility_styles(v as int));
        Style::new(&st)
    }
}

/// 500 mb height styles, `v` in metres: above 5700 m, below 5300 m, else.
pub open spec fn height_500mb_styles(v: int) -> Seq<TermStyle> {
    if v > 5700 {
        seq![TermStyle::YellowBg, TermStyle::Black, TermStyle::Bold]
    } else if v < 5300 {
        seq![TermStyle::BlueBg, TermStyle::Black, TermStyle::Bold]
    } else {
        seq![TermStyle::Bold]
    }
}

/// The escape sequence for `v` by the table of [`height_500mb_styles`].
pub fn style_500mb_height(v: i32) -> (r: String)
    ensures
        r@ == style_seq(height_500mb_styles(v as int)),
{
    if v > 5700 {
        let st = [TermStyle::YellowBg, TermStyle::Black, TermStyle::Bold];
        assert(st@ =~= height_500mb_styles(v as int));
        Style::new(&st)
    } else if v < 5300 {
        let st = [TermStyle::BlueBg, TermStyle::Black, TermStyle::Bold];
        assert(st@ =~= height_500mb_styles(v as int));
        Style::new(&st)
    } else {
        let st = [TermStyle::Bold];
        assert(st@ =~= height_500mb_styles(v as int));
        Style::new(&st)
    }
}

/// 250 mb wind styles, `v` in tenths of a knot: above 140, 110, 80, 60 knots, else.
pub open spec fn wind_250mb_styles(v: int) -> Seq<TermStyle> {
    if v > 1400 {
        seq![TermStyle::YellowBg, TermStyle::Black, TermStyle::Bold]
    } else if v > 1100 {
        seq![TermStyle::RedBg, TermStyle::Black, TermStyle::Bold]
    } else if v > 800 {
        seq![TermStyle::PurpleBg, TermStyle::Black, TermStyle::Bold]
    } else if v > 600 {
        seq![TermStyle::BlueBg, TermStyle::Black, TermStyle::Bold]
    } else {
        seq![TermStyle::Bold]
    }
}

/// The escape sequence for `v` by the table of [`wind_250mb_styles`].
pub fn style_250mb_wind(v: i32) -> (r: String)
    ensures
        r@ == style_seq(wind_250mb_styles(v as int)),
{
    if v > 1400 {
        let st = [TermStyle::YellowBg, TermStyle::Black, TermStyle::Bold];
        assert(st@ =~= wind_250mb_styles(v as int));
        Style::new(&st)
    } else if v > 1100 {
        let st = [TermStyle::RedBg, TermStyle::Black, TermStyle::Bold];
        assert(st@ =~= wind_250mb_styles(v as int));
        Style::new(&st)
    } else if v > 800 {
        let st = [TermStyle::PurpleBg, TermStyle::Black, TermStyle::Bold];
        assert(st@ =~= wind_250mb_styles(v as int));
        Style::new(&st)
    } else if v > 600 {
        let st = [TermStyle::BlueBg, TermStyle::Black, TermStyle::Bold];
        assert(st@ =~= wind_250mb_styles(v as int));
        Style::new(&st)
    } else {
        let st = [TermStyle::Bold];
        assert(st@ =~= wind_250mb_styles(v as int));
        Style::new(&st)
    }
}

/// Convective energy styles, `v` in J/kg: below 200, 1000, 2000, 3000, 4000, 5000, 6000, else.
pub open spec fn cape_styles(v: int) -> Seq<TermStyle> {
    if v < 200 {
        Seq::<TermStyle>::empty()
    } else if v < 1000 {
        seq![TermStyle::Bold]
    } else if v < 2000 {
        seq![TermStyle::Blue, TermStyle::Bold]
    } else if v < 3000 {
        seq![TermStyle::YellowBg, TermStyle::Black, TermStyle::Bold]
    } else if v < 4000 {
        seq![TermStyle::RedBg, TermStyle::Black, TermStyle::Bold]
    } else if v < 5000 {
        seq![TermStyle::PurpleBg, TermStyle::Black, TermStyle::Bold]
    } else if v < 6000 {
        seq![TermStyle::PurpleBg, TermStyle::White, TermStyle::Bold]
    } else {
        seq![TermStyle::RedBg, TermStyle::White, TermStyle::Bold]
    }
}

/// The escape sequence for `v` by the table of [`cape_styles`].
pub fn cape_style(v: i32) -> (r: String)
    ensures
        r@ == style_seq(cape_styles(v as int)),
{
    if v < 200 {
        let st: [TermStyle; 0] = [];
        assert(st@ =~= cape_styles(v as int));
        Style::new(&st)
    } else if v < 1000 {
        let st = [TermStyle::Bold];
        assert(st@ =~= cape_styles(v as int));
        Style::new(&st)
    } else if v < 2000 {
        let st = [TermStyle::Blue, TermStyle::Bold];
        assert(st@ =~= cape_styles(v as int));
        Style::new(&st)
    } else if v < 3000 {
        let st = [TermStyle::YellowBg, TermStyle::Black, TermStyle::Bold];
        assert(st@ =~= cape_styles(v as int));
        Style::new(&st)
    } else if v < 4000 {
        let st = [TermStyle::RedBg, TermStyle::Black, TermStyle::Bold];
        assert(st@ =~= cape_styles(v as int));
        Style::new(&st)
    } else if v < 5000 {
        let st = [TermStyle::PurpleBg, TermStyle::Black, TermStyle::Bold];
        assert(st@ =~= cape_styles(v as int));
        Style::new(&st)
    } else if v < 6000 {
        let st = [TermStyle::PurpleBg, TermStyle::White, TermStyle::Bold];
        assert(st@ =~= cape_styles(v as int));
        Style::new(&st)
    } else {
        let st = [TermStyle::RedBg, TermStyle::White, TermStyle::Bold];
        assert(st@ =~= cape_styles(v as int));
        Style::new(&st)
    }
}

/// Present-weather styles by the most severe category, ranked 5 (fire) down to 0 (none).
pub open spec fn wx_styles(v: int) -> Seq<TermStyle> {
    if v == 5 {
        seq![TermStyle::RedBg, TermStyle::White, TermStyle::Bold]
    } else if v == 4 {
        seq![TermStyle::YellowBg, TermStyle::Black, TermStyle::Bold]
    } else if v == 3 {
        seq![TermStyle::WhiteBg, TermStyle::Blue, TermStyle::Bold]
    } else if v == 2 {
        seq![TermStyle::BlueBg, TermStyle::Black, TermStyle::Bold]
    } else if v == 1 {
        seq![TermStyle::WhiteBg, TermStyle::Black, TermStyle::Bold]
    } else {
        seq![TermStyle::Reset]
    }
}

/// The escape sequence for `v` by the table of [`wx_styles`].
pub fn wx_style(v: u8) -> (r: String)
    ensures
        r@ == style_seq(wx_styles(v as int)),
{
    if v == 5 {
        let st = [TermStyle::RedBg, TermStyle::White, TermStyle::Bold];
        assert(st@ =~= wx_styles(v as int));
        Style::new(&st)
    } else if v == 4 {
        let st = [TermStyle::YellowBg, TermStyle::Black, TermStyle::Bold];
        assert(st@ =~= wx_styles(v as int));
        Style::new(&st)
    } else if v == 3 {
        let st = [TermStyle::WhiteBg, TermStyle::Blue, TermStyle::Bold];
        assert(st@ =~= wx_styles(v as int));
        Style::new(&st)
    } else if v == 2 {
        let st = [TermStyle::BlueBg, TermStyle::Black, TermStyle::Bold];
        assert(st@ =~= wx_styles(v as int));
        Style::new(&st)
    } else if v == 1 {
        let st = [TermStyle::WhiteBg, TermStyle::Black, TermStyle::Bold];
        assert(st@ =~= wx_styles(v as int));
        Style::new(&st)
    } else {
        let st = [TermStyle::Reset];
        assert(st@ =~= wx_styles(v as int));
        Style::new(&st)
    }
}

} // verus!
