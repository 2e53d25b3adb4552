//! Assembling station blocks and choosing forecast hours.
use vstd::prelude::*;

use crate::formatters::{station_line, station_text, WxParams};
use crate::series::{latest_of, TimeSeries};
use crate::text::push_text;

verus! {

/// The head of a station's block: its name, an hourglass and the local time.
pub open spec fn prelude_text(name: Seq<char>, clock: Seq<char>) -> Seq<char> {
    name + ": ⌛"@ + clock
}

/// The head of a station's block.
pub fn station_prelude(name: &str, clock: &str) -> (r: String)
    ensures
        r@ == prelude_text(name@, clock@),
{
    let mut s = String::new();
    push_text(&mut s, name);
    push_text(&mut s, ": ⌛");
    push_text(&mut s, clock);
    s
}

/// The line that stands in for a station whose series is empty.
pub open spec fn empty_series_line(name: Seq<char>) -> Seq<char> {
    name + " did not have any data.\n"@
}

/// The block of one station: its latest observation rendered with trends
/// over the whole series, headed by `name` and `clock` (the local time of
/// that observation); one error line when the series is empty.
pub fn station_block(
    name: &str,
    clock: &str,
    series: &TimeSeries,
    parameters: &Vec<WxParams>,
    indoor: bool,
) -> (r: String)
    ensures
        r@ == match latest_of(series@) {
            Some(e) => station_text(prelude_text(name@, clock@), e, parameters@, indoor, series@),
            None => empty_series_line(name@),
        },
{
    match series.latest() {
        Ok(e) => {
            let prelude = station_prelude(name, clock);
            match station_line(prelude.as_str(), e, parameters, indoor, series) {
                Ok(s) => s,
                Err(s) => s,
            }
        },
        Err(_) => {
            let mut s = String::new();
            push_text(&mut s, name);
            push_text(&mut s, " did not have any data.\n");
            s
        },
    }
}

/// The index a forecast hour picks: the first observation at or after
/// `now` plus `hours`, or the last one when all are earlier.
#[verifier::opaque]
pub open spec fn picked(s: Seq<crate::series::Observation>, now: int, hours: int) -> int {
    let t = now + hours * 3600;
    if exists|j: int| 0 <= j < s.len() && s[j].timestamp >= t {
        choose|j: int|
            0 <= j < s.len() && s[j].timestamp >= t && forall|k: int|
                0 <= k < j ==> s[k].timestamp < t
    } else {
        s.len() - 1
    }
}

proof fn lemma_picked(s: Seq<crate::series::Observation>, now: int, hours: int, t: int, idx: int)
    requires
        t == now + hours * 3600,
        0 <= idx < s.len(),
        forall|y: int| 0 <= y < idx ==> s[y].timestamp < t,
        s[idx].timestamp >= t || idx == s.len() - 1,
    ensures
        picked(s, now, hours) == idx,
{
    reveal(picked);
    if exists|x: int| 0 <= x < s.len() && s[x].timestamp >= t {
        let c = choose|x: int|
            0 <= x < s.len() && s[x].timestamp >= t && forall|y: int|
                0 <= y < x ==> s[y].timestamp < t;
        let w = choose|x: int| 0 <= x < s.len() && s[x].timestamp >= t;
        if s[idx].timestamp >= t {
            assert(forall|y: int| 0 <= y < idx ==> s[y].timestamp < t);
            if c < idx {
                assert(s[c].timestamp < t);
            } else if c > idx {
                assert(s[idx].timestamp < t);
            }
        } else {
            if w < idx {
                assert(s[w].timestamp < t);
            }
        }
    }
}

/// The observations to show for the forecast hours `hours` after `now`
/// (seconds since the epoch): each hour picks one, and every picked index
/// appears once, in time order.
pub fn forecast_indices(series: &TimeSeries, now: i64, hours: &Vec<u32>) -> (r: Vec<usize>)
    ensures
        series@.len() == 0 ==> r@.len() == 0,
        forall|a: int, b: int| 0 <= a < b < r@.len() ==> r@[a] < r@[b],
        series@.len() > 0 ==> forall|k: usize|
            #[trigger] r@.contains(k) <==> exists|j: int|
                0 <= j < hours@.len() && picked(series@, now as int, hours@[j] as int) == k as int,
{
    let n = series.len();
    if n == 0 {
        return Vec::new();
    }
    let mut chosen: Vec<bool> = Vec::new();
    let mut k: usize = 0;
    while k < n
        invariant
            k <= n,
            chosen@.len() == k,
            forall|m: int| 0 <= m < k ==> !chosen@[m],
        decreases n - k,
    {
        chosen.push(false);
        k = k + 1;
    }
    let mut j: usize = 0;
    while j < hours.len()
        invariant
            n == series@.len(),
            n > 0,
            chosen@.len() == n,
            j <= hours@.len(),
            forall|q: int|
                0 <= q < j ==> 0 <= #[trigger] picked(series@, now as int, hours@[q] as int) < n,
            forall|m: int|
                0 <= m < n ==> (chosen@[m] <==> exists|q: int|
                    0 <= q < j && picked(series@, now as int, hours@[q] as int) == m),
        decreases hours@.len() - j,
    {
        let t: i128 = now as i128 + hours[j] as i128 * 3600;
        let idx = match series.index_at_or_after(t) {
            Some(i) => i,
            None => 0,
        };
        proof {
            lemma_picked(series@, now as int, hours@[j as int] as int, t as int, idx as int);
        }
        chosen.set(idx, true);
        j = j + 1;
        assert forall|m: int| 0 <= m < n implies (chosen@[m] <==> exists|q: int|
            0 <= q < j && picked(series@, now as int, hours@[q] as int) == m) by {
            if m != idx {
                if exists|q: int| 0 <= q < j && picked(series@, now as int, hours@[q] as int) == m {
                    let q = choose|q: int|
                        0 <= q < j && picked(series@, now as int, hours@[q] as int) == m;
                    assert(q != j - 1);
                }
            } else {
                assert(picked(series@, now as int, hours@[j - 1] as int) == m);
            }
        }
    }
    let mut r: Vec<usize> = Vec::new();
    let mut m: usize = 0;
    while m < n
        invariant
            m <= n,
            n == chosen@.len(),
            forall|a: int, b: int| 0 <= a < b < r@.len() ==> r@[a] < r@[b],
            forall|a: int| 0 <= a < r@.len() ==> r@[a] < m,
            forall|x: usize| #[trigger] r@.contains(x) <==> (x < m && chosen@[x as int]),
        decreases n - m,
    {
        let ghost old_r = r@;
        if chosen[m] {
            r.push(m);
        }
        proof {
            assert forall|x: usize| #[trigger] r@.contains(x) <==> (x < m + 1 && chosen@[x as int]) by {
                if chosen@[m as int] {
                    assert(r@ == old_r.push(m));
                    if r@.contains(x) {
                        let a = choose|a: int| 0 <= a < r@.len() && r@[a] == x;
                        if a < old_r.len() {
                            assert(old_r[a] == x);
                            assert(old_r.contains(x));
                        }
                    }
                    if old_r.contains(x) {
                        let a = choose|a: int| 0 <= a < old_r.len() && old_r[a] == x;
                        assert(r@[a] == x);
                    }
                    if x == m {
                        assert(r@[r@.len() - 1] == x);
                    }
                }
            }
        }
        m = m + 1;
    }
    assert forall|k: usize| #[trigger] r@.contains(k) <==> exists|q: int|
        0 <= q < hours@.len() && picked(series@, now as int, hours@[q] as int) == k as int by {
        if exists|q: int|
            0 <= q < hours@.len() && picked(series@, now as int, hours@[q] as int) == k as int {
            let q = choose|q: int|
                0 <= q < hours@.len() && picked(series@, now as int, hours@[q] as int) == k as int;
            assert(0 <= picked(series@, now as int, hours@[q] as int) < n);
        }
    }
    r
}

} // verus!
