//! Dates in the Maya calendars, counted from 21 December 2012 (4 Ajaw 3 K'ank'in, 13.0.0.0.0).
use vstd::prelude::*;

use crate::text::{decimal, push_decimal, push_text};

verus! {

/// The twenty day names of the Tzolk'in, from Imix.
pub open spec fn tzolkin_name(i: int) -> Seq<char> {
    if i == 0 {
        "Imix"@
    } else if i == 1 {
        "Ik'"@
    } else if i == 2 {
        "Ak'b'al"@
    } else if i == 3 {
        "K'an"@
    } else if i == 4 {
        "Chikchan"@
    } else if i == 5 {
        "Kimi"@
    } else if i == 6 {
        "Manik'"@
    } else if i == 7 {
        "Lamat"@
    } else if i == 8 {
        "Muluk"@
    } else if i == 9 {
        "Ok"@
    } else if i == 10 {
        "Chuwen"@
    } else if i == 11 {
        "Eb'"@
    } else if i == 12 {
        "B'en"@
    } else if i == 13 {
        "Ix"@
    } else if i == 14 {
        "Men"@
    } else if i == 15 {
        "Kib'"@
    } else if i == 16 {
        "Kab'an"@
    } else if i == 17 {
        "Etz'nab"@
    } else if i == 18 {
        "Kawak"@
    } else {
        "Ajaw"@
    }
}

/// The nineteen months of the Haab', from Pop.
pub open spec fn haab_month(i: int) -> Seq<char> {
    if i == 0 {
        "Pop"@
    } else if i == 1 {
        "Wo'"@
    } else if i == 2 {
        "Sip"@
    } else if i == 3 {
        "Sotz'"@
    } else if i == 4 {
        "Sek"@
    } else if i == 5 {
        "Xul"@
    } else if i == 6 {
        "Yaxk'in"@
    } else if i == 7 {
        "Mol"@
    } else if i == 8 {
        "Ch'en"@
    } else if i == 9 {
        "Yax"@
    } else if i == 10 {
        "Sak'"@
    } else if i == 11 {
        "Keh"@
    } else if i == 12 {
        "Mak"@
    } else if i == 13 {
        "K'ank'in"@
    } else if i == 14 {
        "Muwan"@
    } else if i == 15 {
        "Pax"@
    } else if i == 16 {
        "K'ayab'"@
    } else if i == 17 {
        "Kumk'u"@
    } else {
        "Wayeb' (unlucky days)"@
    }
}

fn tzolkin_name_exec(i: u64) -> (r: &'static str)
    requires
        i < 20,
    ensures
        r@ == tzolkin_name(i as int),
{
    if i == 0 {
        "Imix"
    } else if i == 1 {
        "Ik'"
    } else if i == 2 {
        "Ak'b'al"
    } else if i == 3 {
        "K'an"
    } else if i == 4 {
        "Chikchan"
    } else if i == 5 {
        "Kimi"
    } else if i == 6 {
        "Manik'"
    } else if i == 7 {
        "Lamat"
    } else if i == 8 {
        "Muluk"
    } else if i == 9 {
        "Ok"
    } else if i == 10 {
        "Chuwen"
    } else if i == 11 {
        "Eb'"
    } else if i == 12 {
        "B'en"
    } else if i == 13 {
        "Ix"
    } else if i == 14 {
        "Men"
    } else if i == 15 {
        "Kib'"
    } else if i == 16 {
        "Kab'an"
    } else if i == 17 {
        "Etz'nab"
    } else if i == 18 {
        "Kawak"
    } else {
        "Ajaw"
    }
}

fn haab_month_exec(i: u64) -> (r: &'static str)
    requires
        i < 19,
    ensures
        r@ == haab_month(i as int),
{
    if i == 0 {
        "Pop"
    } else if i == 1 {
        "Wo'"
    } else if i == 2 {
        "Sip"
    } else if i == 3 {
        "Sotz'"
    } else if i == 4 {
        "Sek"
    } else if i == 5 {
        "Xul"
    } else if i == 6 {
        "Yaxk'in"
    } else if i == 7 {
        "Mol"
    } else if i == 8 {
        "Ch'en"
    } else if i == 9 {
        "Yax"
    } else if i == 10 {
        "Sak'"
    } else if i == 11 {
        "Keh"
    } else if i == 12 {
        "Mak"
    } else if i == 13 {
        "K'ank'in"
    } else if i == 14 {
        "Muwan"
    } else if i == 15 {
        "Pax"
    } else if i == 16 {
        "K'ayab'"
    } else if i == 17 {
        "Kumk'u"
    } else {
        "Wayeb' (unlucky days)"
    }
}

/// The position in the year of the Haab', 0 to 364.
pub open spec fn haab_day_of_year(days: int) -> int {
    (13 * 20 + 3 + days) % 365
}

/// The day within a Haab' month; the day that starts a year counts as 0.
pub open spec fn haab_day(y: int) -> int {
    if y == 0 {
        0
    } else {
        (y - 1) % 20 + 1
    }
}

/// The three calendar lines for `days` days after 21 December 2012.
pub open spec fn mayan_text(days: int) -> Seq<char> {
    let y = haab_day_of_year(days);
    "Tzolkin: "@ + decimal(((3 + days) % 13 + 1) as nat) + " "@ + tzolkin_name((19 + days) % 20)
        + "\nHaab: "@ + decimal(haab_day(y) as nat) + " "@ + haab_month(y / 20) + "\nLong Count: "@
        + decimal((13 + days / 144000) as nat) + "."@ + decimal((days % 144000 / 7200) as nat)
        + "."@ + decimal((days % 7200 / 360) as nat) + "."@ + decimal((days % 360 / 20) as nat)
        + "."@ + decimal((days % 20) as nat)
}

/// The Tzolk'in, Haab' and Long Count dates `days` days after 21 December 2012.
pub fn mayan_calendar(days: u64) -> (r: String)
    requires
        days <= u64::MAX - 1000,
    ensures
        r@ == mayan_text(days as int),
{
    let y: u64 = (13 * 20 + 3 + days) % 365;
    let mut s = String::new();
    push_text(&mut s, "Tzolkin: ");
    push_decimal(&mut s, (3 + days) % 13 + 1);
    push_text(&mut s, " ");
    push_text(&mut s, tzolkin_name_exec((19 + days) % 20));
    push_text(&mut s, "\nHaab: ");
    let hd: u64 = if y == 0 {
        0
    } else {
        (y - 1) % 20 + 1
    };
    push_decimal(&mut s, hd);
    push_text(&mut s, " ");
    push_text(&mut s, haab_month_exec(y / 20));
    push_text(&mut s, "\nLong Count: ");
    push_decimal(&mut s, 13 + days / 144000);
    push_text(&mut s, ".");
    push_decimal(&mut s, days % 144000 / 7200);
    push_text(&mut s, ".");
    push_decimal(&mut s, days % 7200 / 360);
    push_text(&mut s, ".");
    push_decimal(&mut s, days % 360 / 20);
    push_text(&mut s, ".");
    push_decimal(&mut s, days % 20);
    assert(s@ =~= mayan_text(days as int));
    s
}

} // verus!
