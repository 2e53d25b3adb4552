//! Fragments of a report line and the greedy line renderer.
use vstd::prelude::*;
use vstd::string::StrSliceExecFns;

use crate::style::{reset_seq, TermStyle};
use crate::text::{push_char, push_text};

verus! {

/// One formatted field: an optional title, its text, and the escape
/// sequence that styles the text. Empty text marks an empty fragment.
#[derive(Debug, Clone)]
pub struct WeatherData {
    pub title: String,
    pub text: String,
    pub style: String,
}

/// A fragment as a value: its title, text and style escape.
pub type FragView = (Seq<char>, Seq<char>, Seq<char>);

impl View for WeatherData {
    type V = FragView;

    open spec fn view(&self) -> FragView {
        (self.title@, self.text@, self.style@)
    }
}

/// The views of a list of fragments.
pub open spec fn views(v: Seq<WeatherData>) -> Seq<FragView> {
    v.map_values(|f: WeatherData| f@)
}

/// The empty fragment.
pub open spec fn blank() -> FragView {
    (Seq::empty(), Seq::empty(), Seq::empty())
}

/// Whether a fragment is empty, and so left out of a line.
pub open spec fn is_blank(f: FragView) -> bool {
    f.1.len() == 0
}

/// The visible width of a fragment, escape sequences left out.
pub open spec fn frag_width(f: FragView) -> nat {
    if is_blank(f) {
        0
    } else if f.0.len() == 0 {
        f.1.len()
    } else {
        f.0.len() + 2 + f.1.len()
    }
}

/// The text of a fragment: `title: ` when titled, then the styled text and a reset.
pub open spec fn frag_text(f: FragView) -> Seq<char> {
    if is_blank(f) {
        Seq::empty()
    } else if f.0.len() == 0 {
        f.2 + f.1 + reset_seq()
    } else {
        f.0 + seq![':', ' '] + f.2 + f.1 + reset_seq()
    }
}

impl WeatherData {
    /// The empty fragment.
    pub fn none() -> (r: WeatherData)
        ensures
            r@ == blank(),
    {
        let r = WeatherData { title: String::new(), text: String::new(), style: String::new() };
        assert(r@ =~= blank());
        r
    }

    /// Whether the fragment is empty.
    pub fn is_none(&self) -> (r: bool)
        ensures
            r == is_blank(self@),
    {
        self.text.as_str().unicode_len() == 0
    }

    /// The visible width of the fragment.
    pub fn width(&self) -> (r: u128)
        ensures
            r == frag_width(self@),
            r <= 2 * (usize::MAX as u128) + 2,
    {
        let text = self.text.as_str().unicode_len();
        if text == 0 {
            0
        } else {
            let title = self.title.as_str().unicode_len();
            if title == 0 {
                text as u128
            } else {
                title as u128 + 2 + text as u128
            }
        }
    }

    /// The fragment as it appears on a line.
    pub fn to_string(&self) -> (r: String)
        ensures
            r@ == frag_text(self@),
    {
        let mut s = String::new();
        if self.is_none() {
            return s;
        }
        if self.title.as_str().unicode_len() != 0 {
            push_text(&mut s, self.title.as_str());
            push_char(&mut s, ':');
            push_char(&mut s, ' ');
        }
        push_text(&mut s, self.style.as_str());
        push_text(&mut s, self.text.as_str());
        push_text(&mut s, TermStyle::Reset.str());
        assert(s@ =~= frag_text(self@));
        s
    }
}

/// `s` with its escape sequences left out, `esc` telling whether `s` starts
/// inside one. An escape sequence runs from `ESC` up to and including `m`.
pub open spec fn strip_from(s: Seq<char>, esc: bool) -> Seq<char>
    decreases s.len(),
{
    if s.len() == 0 {
        Seq::empty()
    } else if esc {
        strip_from(s.drop_first(), s[0] != 'm')
    } else if s[0] == '\x1b' {
        strip_from(s.drop_first(), true)
    } else {
        seq![s[0]] + strip_from(s.drop_first(), false)
    }
}

/// Whether `s`, started inside an escape sequence or not as `esc` says,
/// ends inside one.
pub open spec fn esc_after(s: Seq<char>, esc: bool) -> bool
    decreases s.len(),
{
    if s.len() == 0 {
        esc
    } else if esc {
        esc_after(s.drop_first(), s[0] != 'm')
    } else if s[0] == '\x1b' {
        esc_after(s.drop_first(), true)
    } else {
        esc_after(s.drop_first(), false)
    }
}

/// What `s` shows on a terminal: its characters outside escape sequences.
pub open spec fn visible(s: Seq<char>) -> Seq<char> {
    strip_from(s, false)
}

/// The length of the last line of `s`: the characters after its last newline.
pub open spec fn tail_len(s: Seq<char>) -> nat
    decreases s.len(),
{
    if s.len() == 0 {
        0
    } else if s.last() == '\n' {
        0
    } else {
        tail_len(s.drop_last()) + 1
    }
}

/// Text without escape characters and newlines.
pub open spec fn plain_piece(s: Seq<char>) -> bool {
    forall|i: int| 0 <= i < s.len() ==> #[trigger] s[i] != '\x1b' && s[i] != '\n'
}

/// A fragment whose title and text are plain and whose style is made of
/// whole escape sequences.
pub open spec fn well_formed(f: FragView) -> bool {
    plain_piece(f.0) && plain_piece(f.1) && visible(f.2).len() == 0 && !esc_after(f.2, false)
}

proof fn lemma_strip_concat(a: Seq<char>, b: Seq<char>, esc: bool)
    ensures
        strip_from(a + b, esc) == strip_from(a, esc) + strip_from(b, esc_after(a, esc)),
        esc_after(a + b, esc) == esc_after(b, esc_after(a, esc)),
    decreases a.len(),
{
    if a.len() == 0 {
        assert(a + b =~= b);
    } else {
        assert((a + b).drop_first() =~= a.drop_first() + b);
        assert((a + b)[0] == a[0]);
        let next = if esc {
            a[0] != 'm'
        } else {
            a[0] == '\x1b'
        };
        lemma_strip_concat(a.drop_first(), b, next);
        if !esc && a[0] != '\x1b' {
            assert(seq![a[0]] + (strip_from(a.drop_first(), false) + strip_from(
                b,
                esc_after(a.drop_first(), false),
            )) =~= (seq![a[0]] + strip_from(a.drop_first(), false)) + strip_from(
                b,
                esc_after(a.drop_first(), false),
            ));
        }
    }
}

proof fn lemma_plain_visible(s: Seq<char>)
    requires
        plain_piece(s),
    ensures
        visible(s) == s,
        !esc_after(s, false),
    decreases s.len(),
{
    if s.len() > 0 {
        assert(s[0] != '\x1b');
        lemma_plain_visible(s.drop_first());
        assert(seq![s[0]] + s.drop_first() =~= s);
    }
}

proof fn lemma_reset_invisible()
    ensures
        visible(reset_seq()).len() == 0,
        !esc_after(reset_seq(), false),
{
    let r0 = reset_seq();
    let r1 = r0.drop_first();
    let r2 = r1.drop_first();
    let r3 = r2.drop_first();
    let r4 = r3.drop_first();
    assert(r1 =~= seq!['[', '0', 'm']);
    assert(r2 =~= seq!['0', 'm']);
    assert(r3 =~= seq!['m']);
    assert(r4 =~= Seq::<char>::empty());
    assert(strip_from(r4, false) =~= Seq::<char>::empty());
    assert(strip_from(r3, true) == strip_from(r4, false));
    assert(strip_from(r2, true) == strip_from(r3, true));
    assert(strip_from(r1, true) == strip_from(r2, true));
    assert(strip_from(r0, false) == strip_from(r1, true));
    assert(esc_after(r3, true) == esc_after(r4, false));
    assert(esc_after(r2, true) == esc_after(r3, true));
    assert(esc_after(r1, true) == esc_after(r2, true));
    assert(esc_after(r0, false) == esc_after(r1, true));
}

proof fn lemma_tail_plain(a: Seq<char>, b: Seq<char>)
    requires
        plain_piece(b),
    ensures
        tail_len(a + b) == tail_len(a) + b.len(),
    decreases b.len(),
{
    if b.len() == 0 {
        assert(a + b =~= a);
    } else {
        assert((a + b).drop_last() =~= a + b.drop_last());
        assert((a + b).last() == b.last());
        assert(b.last() == b[b.len() - 1]);
        lemma_tail_plain(a, b.drop_last());
    }
}

proof fn lemma_tail_newline(a: Seq<char>, b: Seq<char>)
    requires
        plain_piece(b),
    ensures
        tail_len(a + seq!['\n'] + b) == b.len(),
{
    lemma_tail_plain(a + seq!['\n'], b);
    assert((a + seq!['\n']).last() == '\n');
}

/// What a fragment shows: `title: ` when titled, then its text.
pub open spec fn frag_plain(f: FragView) -> Seq<char> {
    if is_blank(f) {
        Seq::empty()
    } else if f.0.len() == 0 {
        f.1
    } else {
        f.0 + seq![':', ' '] + f.1
    }
}

proof fn lemma_frag_visible(f: FragView)
    requires
        well_formed(f),
    ensures
        visible(frag_text(f)) == frag_plain(f),
        !esc_after(frag_text(f), false),
        plain_piece(frag_plain(f)),
        frag_plain(f).len() == frag_width(f),
{
    lemma_plain_visible(f.0);
    lemma_plain_visible(f.1);
    lemma_reset_invisible();
    if !is_blank(f) {
        let sep = seq![':', ' '];
        assert(plain_piece(sep));
        lemma_plain_visible(sep);
        let head = if f.0.len() == 0 {
            Seq::<char>::empty()
        } else {
            f.0 + sep
        };
        if f.0.len() > 0 {
            lemma_strip_concat(f.0, sep, false);
        }
        lemma_strip_concat(head, f.2, false);
        lemma_strip_concat(head + f.2, f.1, false);
        lemma_strip_concat(head + f.2 + f.1, reset_seq(), false);
        if f.0.len() == 0 {
            assert(frag_text(f) =~= head + f.2 + f.1 + reset_seq());
            assert(Seq::<char>::empty() + f.2 =~= f.2);
        } else {
            assert(frag_text(f) =~= head + f.2 + f.1 + reset_seq());
        }
        assert(visible(frag_text(f)) =~= frag_plain(f));
        assert forall|i: int| 0 <= i < frag_plain(f).len() implies #[trigger] frag_plain(f)[i]
            != '\x1b' && frag_plain(f)[i] != '\n' by {
            if f.0.len() > 0 {
                if i < f.0.len() {
                    assert(frag_plain(f)[i] == f.0[i]);
                } else if i >= f.0.len() + 2 {
                    assert(frag_plain(f)[i] == f.1[i - f.0.len() - 2]);
                }
            }
        }
    }
}

/// The text rendered so far and the visible width of its last line, after
/// the fragments `frags` have been placed after `prelude`: a fragment that
/// fits goes on the current line after a space; one that does not starts a
/// new line indented by two spaces; empty fragments are skipped.
pub open spec fn render_state(prelude: Seq<char>, frags: Seq<FragView>, budget: nat) -> (
    Seq<char>,
    nat,
)
    decreases frags.len(),
{
    if frags.len() == 0 {
        (prelude, tail_len(visible(prelude)))
    } else {
        let (text, width) = render_state(prelude, frags.drop_last(), budget);
        let f = frags.last();
        let w = frag_width(f);
        if is_blank(f) {
            (text, width)
        } else if width + 1 + w <= budget {
            (text + seq![' '] + frag_text(f), width + 1 + w)
        } else {
            (text + seq!['\n', ' ', ' '] + frag_text(f), 2 + w)
        }
    }
}

/// The line (or indented lines) for `prelude` followed by `fragments`.
pub open spec fn rendered(prelude: Seq<char>, frags: Seq<FragView>, budget: nat) -> Seq<char> {
    render_state(prelude, frags, budget).0
}

/// The visible length of the last line of `s`: characters after its last
/// newline, escape sequences left out.
pub fn visible_tail_len(s: &str) -> (r: usize)
    ensures
        r == tail_len(visible(s@)),
{
    let n = s.unicode_len();
    let mut count: usize = 0;
    let mut esc = false;
    let mut i: usize = 0;
    assert(s@.take(0) =~= Seq::<char>::empty());
    while i < n
        invariant
            i <= n,
            n == s@.len(),
            count <= i,
            count == tail_len(visible(s@.take(i as int))),
            esc == esc_after(s@.take(i as int), false),
        decreases n - i,
    {
        let c = s.get_char(i);
        let ghost before = s@.take(i as int);
        proof {
            assert(s@.take(i + 1) =~= before + seq![c]);
            lemma_strip_concat(before, seq![c], false);
            let one = seq![c];
            assert(one.drop_first() =~= Seq::<char>::empty());
            assert(one[0] == c);
            assert(strip_from(one.drop_first(), false) =~= Seq::<char>::empty());
            assert(strip_from(one.drop_first(), true) =~= Seq::<char>::empty());
            assert(esc_after(one.drop_first(), true));
            assert(!esc_after(one.drop_first(), false));
            assert(esc_after(one, esc) == if esc {
                c != 'm'
            } else {
                c == '\x1b'
            });
            assert(seq![c] + Seq::<char>::empty() =~= seq![c]);
            let shown = strip_from(seq![c], esc);
            assert(visible(before + seq![c]) == visible(before) + shown);
            if shown.len() == 0 {
                assert(visible(before) + shown =~= visible(before));
            } else {
                assert(shown =~= seq![c]);
                assert((visible(before) + shown).drop_last() =~= visible(before));
                assert((visible(before) + shown).last() == c);
            }
        }
        if esc {
            if c == 'm' {
                esc = false;
            }
        } else if c == '\x1b' {
            esc = true;
        } else if c == '\n' {
            count = 0;
        } else {
            count = count + 1;
        }
        i = i + 1;
    }
    assert(s@.take(n as int) =~= s@);
    count
}

/// Packs `fragments` after `prelude` into lines of at most `column_budget`
/// visible characters, in order; later lines are indented by two spaces.
pub fn render_line(prelude: &str, fragments: &Vec<WeatherData>, column_budget: usize) -> (r:
    String)
    ensures
        r@ == rendered(prelude@, views(fragments@), column_budget as nat),
{
    let mut s = String::new();
    push_text(&mut s, prelude);
    let mut line: u128 = visible_tail_len(prelude) as u128;
    let mut i: usize = 0;
    let ghost all = views(fragments@);
    assert(all.subrange(0, 0) =~= Seq::<FragView>::empty());
    while i < fragments.len()
        invariant
            i <= fragments@.len(),
            all == views(fragments@),
            (s@, line as nat) == render_state(prelude@, all.subrange(0, i as int), column_budget as nat),
            line <= 2 * (usize::MAX as u128) + 4,
        decreases fragments@.len() - i,
    {
        let f = &fragments[i];
        assert(all.subrange(0, i + 1).drop_last() =~= all.subrange(0, i as int));
        assert(all.subrange(0, i + 1).last() == fragments@[i as int]@);
        let w = f.width();
        if f.is_none() {
        } else if line + 1 + w <= column_budget as u128 {
            push_char(&mut s, ' ');
            push_text(&mut s, f.to_string().as_str());
            line = line + 1 + w;
        } else {
            push_char(&mut s, '\n');
            push_char(&mut s, ' ');
            push_char(&mut s, ' ');
            push_text(&mut s, f.to_string().as_str());
            line = 2 + w;
        }
        i = i + 1;
        assert(s@ =~= render_state(prelude@, all.subrange(0, i as int), column_budget as nat).0);
    }
    assert(all.subrange(0, fragments@.len() as int) =~= all);
    s
}

proof fn lemma_width_is_last_line(prelude: Seq<char>, frags: Seq<FragView>, budget: nat)
    requires
        !esc_after(prelude, false),
        forall|k: int| 0 <= k < frags.len() ==> well_formed(#[trigger] frags[k]),
    ensures
        !esc_after(render_state(prelude, frags, budget).0, false),
        tail_len(visible(render_state(prelude, frags, budget).0)) == render_state(
            prelude,
            frags,
            budget,
        ).1,
    decreases frags.len(),
{
    if frags.len() > 0 {
        let rest = frags.drop_last();
        assert forall|k: int| 0 <= k < rest.len() implies well_formed(#[trigger] rest[k]) by {
            assert(rest[k] == frags[k]);
        }
        lemma_width_is_last_line(prelude, rest, budget);
        let (text, width) = render_state(prelude, rest, budget);
        let f = frags.last();
        assert(well_formed(frags[frags.len() - 1]));
        lemma_frag_visible(f);
        if !is_blank(f) {
            let gap = if width + 1 + frag_width(f) <= budget {
                seq![' ']
            } else {
                seq!['\n', ' ', ' ']
            };
            let piece = gap + frag_text(f);
            assert(text + gap + frag_text(f) =~= text + piece);
            lemma_strip_concat(text, piece, false);
            lemma_strip_concat(gap, frag_text(f), false);
            if gap.len() == 1 {
                assert(plain_piece(gap));
                lemma_plain_visible(gap);
                let shown = gap + frag_plain(f);
                assert(plain_piece(shown)) by {
                    assert forall|i: int| 0 <= i < shown.len() implies #[trigger] shown[i]
                        != '\x1b' && shown[i] != '\n' by {
                        if i > 0 {
                            assert(shown[i] == frag_plain(f)[i - 1]);
                        }
                    }
                }
                lemma_tail_plain(visible(text), shown);
            } else {
                let indent = seq![' ', ' '];
                let shown = indent + frag_plain(f);
                assert(plain_piece(shown)) by {
                    assert forall|i: int| 0 <= i < shown.len() implies #[trigger] shown[i]
                        != '\x1b' && shown[i] != '\n' by {
                        if i > 1 {
                            assert(shown[i] == frag_plain(f)[i - 2]);
                        }
                    }
                }
                assert(visible(gap) =~= seq!['\n'] + indent) by {
                    assert(gap.drop_first() =~= indent);
                    assert(plain_piece(indent));
                    lemma_plain_visible(indent);
                }
                assert(!esc_after(gap, false)) by {
                    assert(gap.drop_first() =~= indent);
                    assert(plain_piece(indent));
                    lemma_plain_visible(indent);
                }
                assert(visible(text) + visible(piece) =~= visible(text) + seq!['\n'] + shown);
                lemma_tail_newline(visible(text), shown);
            }
        }
    }
}

/// No line is wider than the budget, except a line that holds a single
/// fragment too wide to fit: after any number `n` of fragments, the last line
/// of the visible text (escape sequences left out) is the tracked width, and
/// it is within the budget, or it holds just fragment `k` after the two-space
/// indent, which together exceed the budget.
pub proof fn lemma_lines_within_budget(
    prelude: Seq<char>,
    frags: Seq<FragView>,
    budget: nat,
    n: nat,
)
    requires
        tail_len(visible(prelude)) <= budget,
        !esc_after(prelude, false),
        forall|k: int| 0 <= k < frags.len() ==> well_formed(#[trigger] frags[k]),
        n <= frags.len(),
    ensures
        ({
            let line = tail_len(visible(render_state(prelude, frags.take(n as int), budget).0));
            line == render_state(prelude, frags.take(n as int), budget).1 && (line <= budget
                || exists|k: int|
                0 <= k < n && !is_blank(frags[k]) && line == 2 + frag_width(frags[k]) && 2
                    + frag_width(frags[k]) > budget && forall|j: int|
                    k < j < n ==> is_blank(#[trigger] frags[j]))
        }),
    decreases n,
{
    let taken = frags.take(n as int);
    assert forall|k: int| 0 <= k < taken.len() implies well_formed(#[trigger] taken[k]) by {
        assert(taken[k] == frags[k]);
    }
    lemma_width_is_last_line(prelude, taken, budget);
    if n > 0 {
        lemma_lines_within_budget(prelude, frags, budget, (n - 1) as nat);
        assert(frags.take(n as int).drop_last() =~= frags.take(n - 1));
        let before = render_state(prelude, frags.take(n - 1), budget).1;
        let width = render_state(prelude, frags.take(n as int), budget).1;
        let f = frags[n - 1];
        if is_blank(f) {
            if before > budget {
                let k = choose|k: int|
                    0 <= k < n - 1 && !is_blank(frags[k]) && before == 2 + frag_width(frags[k])
                        && 2 + frag_width(frags[k]) > budget && forall|j: int|
                        k < j < n - 1 ==> is_blank(#[trigger] frags[j]);
                assert(forall|j: int| k < j < n ==> is_blank(#[trigger] frags[j]));
            }
        } else if before + 1 + frag_width(f) > budget && width > budget {
            assert(forall|j: int| n - 1 < j < n ==> is_blank(#[trigger] frags[j]));
        }
    }
}

/// Empty fragments change nothing: rendering the fragments with the empty
/// ones removed gives the same text and the same line width.
pub proof fn lemma_blank_fragments_dropped(
    prelude: Seq<char>,
    frags: Seq<FragView>,
    budget: nat,
)
    ensures
        render_state(prelude, frags.filter(|f: FragView| !is_blank(f)), budget)
            == render_state(prelude, frags, budget),
    decreases frags.len(),
{
    reveal(Seq::filter);
    if frags.len() > 0 {
        lemma_blank_fragments_dropped(prelude, frags.drop_last(), budget);
        let kept = frags.drop_last().filter(|f: FragView| !is_blank(f));
        if !is_blank(frags.last()) {
            assert(kept.push(frags.last()).drop_last() =~= kept);
        }
    }
}

/// ASCII whitespace: space, tab, line feed, form feed, carriage return.
pub open spec fn is_ascii_space(c: char) -> bool {
    c == ' ' || c == '\t' || c == '\n' || c == '\x0C' || c == '\r'
}

/// The words of `s` read so far, and the word being read.
pub open spec fn words_state(s: Seq<char>) -> (Seq<Seq<char>>, Seq<char>)
    decreases s.len(),
{
    if s.len() == 0 {
        (Seq::empty(), Seq::empty())
    } else {
        let (done, cur) = words_state(s.drop_last());
        let c = s.last();
        if is_ascii_space(c) {
            if cur.len() > 0 {
                (done.push(cur), Seq::empty())
            } else {
                (done, Seq::empty())
            }
        } else {
            (done, cur.push(c))
        }
    }
}

/// The maximal runs of non-whitespace characters of `s`, in order.
pub open spec fn words(s: Seq<char>) -> Seq<Seq<char>> {
    let (done, cur) = words_state(s);
    if cur.len() > 0 {
        done.push(cur)
    } else {
        done
    }
}

/// The heading of a verbatim report block.
pub open spec fn report_heading() -> Seq<char> {
    seq!['\n', ' ', ' ', 'M', 'E', 'T', 'A', 'R', ':']
}

/// The verbatim block so far and the visible width of its last line: each
/// word follows on the current line after a space while the line stays
/// within `budget`, else starts a new line indented by four spaces.
pub open spec fn wrap_state(ws: Seq<Seq<char>>, budget: nat) -> (Seq<char>, nat)
    decreases ws.len(),
{
    if ws.len() == 0 {
        (report_heading(), (report_heading().len() - 1) as nat)
    } else {
        let (text, width) = wrap_state(ws.drop_last(), budget);
        let w = ws.last();
        if width + 1 + w.len() <= budget {
            (text + seq![' '] + w, width + 1 + w.len())
        } else {
            (text + seq!['\n', ' ', ' ', ' ', ' '] + w, 4 + w.len())
        }
    }
}

/// The words of `s`, split at ASCII whitespace.
fn split_words(s: &str) -> (r: Vec<String>)
    ensures
        r@.map_values(|w: String| w@) == words(s@),
{
    let n = s.unicode_len();
    let mut done: Vec<String> = Vec::new();
    let mut cur = String::new();
    let mut i: usize = 0;
    assert(s@.subrange(0, 0) =~= Seq::<char>::empty());
    while i < n
        invariant
            i <= n,
            n == s@.len(),
            (done@.map_values(|w: String| w@), cur@) == words_state(s@.subrange(0, i as int)),
        decreases n - i,
    {
        let c = s.get_char(i);
        let ghost prev = done@.map_values(|w: String| w@);
        assert(s@.subrange(0, i + 1).drop_last() =~= s@.subrange(0, i as int));
        if c == ' ' || c == '\t' || c == '\n' || c == '\x0C' || c == '\r' {
            if cur.as_str().unicode_len() > 0 {
                let w = cur;
                let ghost wv = w@;
                done.push(w);
                assert(done@.map_values(|w: String| w@) =~= prev.push(wv));
                cur = String::new();
            } else {
                cur = String::new();
            }
        } else {
            push_char(&mut cur, c);
        }
        i = i + 1;
    }
    assert(s@.subrange(0, n as int) =~= s@);
    if cur.as_str().unicode_len() > 0 {
        let ghost prev = done@.map_values(|w: String| w@);
        let ghost wv = cur@;
        done.push(cur);
        assert(done@.map_values(|w: String| w@) =~= prev.push(wv));
    }
    done
}

/// The verbatim report `report` as a block after a line: a `METAR:` heading
/// on a new indented line, then its words wrapped within `column_budget`.
pub fn wrap_report(report: &str, column_budget: usize) -> (r: String)
    ensures
        r@ == wrap_state(words(report@), column_budget as nat).0,
{
    let ws = split_words(report);
    let ghost all = ws@.map_values(|w: String| w@);
    let mut s = String::new();
    push_char(&mut s, '\n');
    push_char(&mut s, ' ');
    push_char(&mut s, ' ');
    push_char(&mut s, 'M');
    push_char(&mut s, 'E');
    push_char(&mut s, 'T');
    push_char(&mut s, 'A');
    push_char(&mut s, 'R');
    push_char(&mut s, ':');
    assert(s@ =~= report_heading());
    let mut line: u128 = 8;
    let mut i: usize = 0;
    assert(all.subrange(0, 0) =~= Seq::<Seq<char>>::empty());
    while i < ws.len()
        invariant
            i <= ws@.len(),
            all == ws@.map_values(|w: String| w@),
            (s@, line as nat) == wrap_state(all.subrange(0, i as int), column_budget as nat),
            line <= (usize::MAX as u128) + 4,
        decreases ws@.len() - i,
    {
        let w = &ws[i];
        assert(all.subrange(0, i + 1).drop_last() =~= all.subrange(0, i as int));
        assert(all.subrange(0, i + 1).last() == w@);
        let len = w.as_str().unicode_len() as u128;
        if line + 1 + len <= column_budget as u128 {
            push_char(&mut s, ' ');
            push_text(&mut s, w.as_str());
            line = line + 1 + len;
        } else {
            push_char(&mut s, '\n');
            push_char(&mut s, ' ');
            push_char(&mut s, ' ');
            push_char(&mut s, ' ');
            push_char(&mut s, ' ');
            push_text(&mut s, w.as_str());
            line = 4 + len;
        }
        i = i + 1;
        assert(s@ =~= wrap_state(all.subrange(0, i as int), column_budget as nat).0);
    }
    assert(all.subrange(0, ws@.len() as int) =~= all);
    s
}

} // verus!
