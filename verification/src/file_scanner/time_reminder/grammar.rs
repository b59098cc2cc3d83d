//! The reminder grammar of the notes.
//!
//! A reminder is a bullet `- `, optionally a check box `[x]`, optionally one
//! white-space character, a message, and a time stamp `(@DATE TIME)` in which
//! the date `YY.M.D` / `YYYY.MM.DD` (straight after the `@`, any one character
//! between its parts) and the time ` HH:MM` / ` HMM:SS` / ` HMMSS` (after a
//! space; one- or two-digit hour, two-digit minute, optional two-digit
//! seconds, each colon optional) may each be left out. A bullet may start anywhere in a
//! line. Among the ways a line can be read, the one taken is the one a
//! leftmost-first (backtracking) matcher takes: the leftmost bullet that starts
//! a reminder; there the check box and the white space are taken when present,
//! the message reaches the last time stamp of the line that can close the
//! reminder, and inside the time stamp the alternatives are tried in order:
//! date before no date, two-digit before four-digit years, two before one
//! digit for month, day and hour, colon before none, seconds before none,
//! time before no time. Digits are those of Unicode category `Nd`. After a reminder the search goes on behind its `)`.
use crate::text::{
    decimal_digit, first_newline, is_decimal_digit, is_white_space, lemma_first_newline, white_space,
};
use vstd::prelude::*;

verus! {

/// A half-open range `[start, end)` of character positions.
pub struct SpanSpec {
    pub start: int,
    pub end: int,
}

pub struct DateSpec {
    pub year: SpanSpec,
    pub month: SpanSpec,
    pub day: SpanSpec,
    pub end: int,
}

pub struct TimeSpec {
    pub hour: SpanSpec,
    pub minute: SpanSpec,
    pub second: Option<SpanSpec>,
    pub end: int,
}

/// What follows `(@`: the date and time that were read, and the position just
/// after the closing `)`.
pub struct TailSpec {
    pub date: Option<DateSpec>,
    pub time: Option<TimeSpec>,
    pub end: int,
}

/// One reminder found in a line: where its bullet starts, the character in its
/// check box if it has one, where its message lies, and its time stamp.
pub struct MatchSpec {
    pub start: int,
    pub checked: Option<char>,
    pub message: SpanSpec,
    pub tail: TailSpec,
}

pub open spec fn digits_at(l: Seq<char>, i: int, n: int) -> bool {
    &&& 0 <= i
    &&& i + n <= l.len()
    &&& forall|t: int| i <= t < i + n ==> is_decimal_digit(#[trigger] l[t])
}

/// The pattern's `.`: any character but a line feed.
pub open spec fn any_at(l: Seq<char>, i: int) -> bool {
    0 <= i < l.len() && l[i] != '\n'
}

/// The `j`-th way (of twelve, in the order they are tried) to read a time
/// group whose separating space stands at `p`: two-digit hour before one
/// digit, colon after the hour before none, then seconds after a colon,
/// seconds without one, no seconds.
pub open spec fn time_choice(l: Seq<char>, p: int, j: int) -> Option<TimeSpec> {
    let hl: int = if j < 6 { 2 } else { 1 };
    let colon = (j / 3) % 2 == 0;
    let sec_mode = j % 3;
    let h = p + 1;
    let c = h + hl;
    let m = if colon { c + 1 } else { c };
    let e = m + 2;
    let ss = if sec_mode == 0 { e + 1 } else { e };
    if 0 <= p < l.len() && l[p] == ' ' && digits_at(l, h, hl) && (colon ==> (c < l.len() && l[c]
        == ':')) && digits_at(l, m, 2) && (sec_mode == 0 ==> (e < l.len() && l[e] == ':')) && (
    sec_mode != 2 ==> digits_at(l, ss, 2)) {
        Some(
            TimeSpec {
                hour: SpanSpec { start: h, end: c },
                minute: SpanSpec { start: m, end: e },
                second: if sec_mode != 2 {
                    Some(SpanSpec { start: ss, end: ss + 2 })
                } else {
                    None
                },
                end: if sec_mode != 2 {
                    ss + 2
                } else {
                    e
                },
            },
        )
    } else {
        None
    }
}

pub open spec fn closes_at(l: Seq<char>, i: int) -> bool {
    0 <= i < l.len() && l[i] == ')'
}

/// The first way, from the `j`-th on, to finish the time stamp from `p`: a
/// time group followed by `)`, or (last) `)` at once. Gives the time read and
/// the position after `)`.
pub open spec fn close_from(l: Seq<char>, p: int, j: int) -> Option<(Option<TimeSpec>, int)>
    decreases 13 - j,
{
    if j >= 13 || j < 0 {
        None
    } else if j == 12 {
        if closes_at(l, p) {
            Some((None, p + 1))
        } else {
            None
        }
    } else if time_choice(l, p, j) is Some && closes_at(l, time_choice(l, p, j)->0.end) {
        Some((time_choice(l, p, j), time_choice(l, p, j)->0.end + 1))
    } else {
        close_from(l, p, j + 1)
    }
}

/// The `k`-th way (of eight, in the order they are tried) to read a date at
/// `r`: two-digit before four-digit year, then two before one digit for the
/// month and for the day.
pub open spec fn date_choice(l: Seq<char>, r: int, k: int) -> Option<DateSpec> {
    let yl: int = if k < 4 { 2 } else { 4 };
    let ml: int = if (k / 2) % 2 == 0 { 2 } else { 1 };
    let dl: int = if k % 2 == 0 { 2 } else { 1 };
    let ye = r + yl;
    let ms = ye + 1;
    let me = ms + ml;
    let ds = me + 1;
    let de = ds + dl;
    if digits_at(l, r, yl) && any_at(l, ye) && digits_at(l, ms, ml) && any_at(l, me) && digits_at(
        l,
        ds,
        dl,
    ) {
        Some(
            DateSpec {
                year: SpanSpec { start: r, end: ye },
                month: SpanSpec { start: ms, end: me },
                day: SpanSpec { start: ds, end: de },
                end: de,
            },
        )
    } else {
        None
    }
}

/// The first way, from the `k`-th on, to read the rest of a time stamp whose
/// `(@` ends at `r`: a date and then the close, or (last) no date and the close.
pub open spec fn tail_from(l: Seq<char>, r: int, k: int) -> Option<TailSpec>
    decreases 9 - k,
{
    if k >= 9 || k < 0 {
        None
    } else if k == 8 {
        match close_from(l, r, 0) {
            Some(c) => Some(TailSpec { date: None, time: c.0, end: c.1 }),
            None => None,
        }
    } else if date_choice(l, r, k) is Some && close_from(l, date_choice(l, r, k)->0.end, 0) is Some {
        let d = date_choice(l, r, k)->0;
        let c = close_from(l, d.end, 0)->0;
        Some(TailSpec { date: Some(d), time: c.0, end: c.1 })
    } else {
        tail_from(l, r, k + 1)
    }
}

/// The time stamp that starts with `(@` at `q`, if one does.
pub open spec fn tail_at(l: Seq<char>, q: int) -> Option<TailSpec> {
    if 0 <= q && q + 1 < l.len() && l[q] == '(' && l[q + 1] == '@' {
        tail_from(l, q + 2, 0)
    } else {
        None
    }
}

/// The last position in `[m0, q]` at which a time stamp starts.
pub open spec fn last_tail(l: Seq<char>, m0: int, q: int) -> Option<(int, TailSpec)>
    decreases q + 1 - m0,
{
    if q < m0 {
        None
    } else if tail_at(l, q) is Some {
        Some((q, tail_at(l, q)->0))
    } else {
        last_tail(l, m0, q - 1)
    }
}

/// The check box `[c]` at `i`, by its character.
pub open spec fn checkbox_at(l: Seq<char>, i: int) -> Option<char> {
    if 0 <= i && i + 2 < l.len() && l[i] == '[' && l[i + 1] != '\n' && l[i + 2] == ']' {
        Some(l[i + 1])
    } else {
        None
    }
}

/// Where the message of a bullet at `s` begins.
pub open spec fn message_start(l: Seq<char>, s: int) -> int {
    let p = if checkbox_at(l, s + 2) is Some {
        s + 5
    } else {
        s + 2
    };
    if 0 <= p < l.len() && is_white_space(l[p]) {
        p + 1
    } else {
        p
    }
}

/// The reminder whose bullet starts at `s`, if there is one.
pub open spec fn match_at(l: Seq<char>, s: int) -> Option<MatchSpec> {
    if 0 <= s && s + 1 < l.len() && l[s] == '-' && l[s + 1] == ' ' {
        let m0 = message_start(l, s);
        match last_tail(l, m0, first_newline(l, m0)) {
            Some(t) => Some(
                MatchSpec {
                    start: s,
                    checked: checkbox_at(l, s + 2),
                    message: SpanSpec { start: m0, end: t.0 },
                    tail: t.1,
                },
            ),
            None => None,
        }
    } else {
        None
    }
}

/// The leftmost reminder that starts at or after `pos`.
pub open spec fn first_match(l: Seq<char>, pos: int) -> Option<MatchSpec>
    decreases l.len() - pos,
{
    if pos < 0 || pos >= l.len() {
        None
    } else if match_at(l, pos) is Some {
        match_at(l, pos)
    } else {
        first_match(l, pos + 1)
    }
}

/// All reminders of a line from `pos` on, each search starting behind the
/// previous reminder.
pub open spec fn all_matches(l: Seq<char>, pos: int) -> Seq<MatchSpec>
    decreases l.len() - pos,
{
    if pos < 0 || pos >= l.len() {
        seq![]
    } else {
        match first_match(l, pos) {
            None => seq![],
            Some(m) => {
                proof {
                    lemma_first_match_bounds(l, pos);
                }
                seq![m] + all_matches(l, m.tail.end)
            },
        }
    }
}

/// The reminders of a line.
pub open spec fn line_matches(l: Seq<char>) -> Seq<MatchSpec> {
    all_matches(l, 0)
}

pub proof fn lemma_close_from_bounds(l: Seq<char>, p: int, j: int)
    requires
        0 <= p,
    ensures
        close_from(l, p, j) matches Some(c) ==> p + 1 <= c.1 <= l.len(),
    decreases 13 - j,
{
    if 0 <= j < 12 && !(time_choice(l, p, j) is Some && closes_at(l, time_choice(l, p, j)->0.end)) {
        lemma_close_from_bounds(l, p, j + 1);
    }
}

pub proof fn lemma_tail_from_bounds(l: Seq<char>, r: int, k: int)
    requires
        0 <= r,
    ensures
        tail_from(l, r, k) matches Some(t) ==> r + 1 <= t.end <= l.len(),
    decreases 9 - k,
{
    lemma_close_from_bounds(l, r, 0);
    if 0 <= k < 8 {
        if date_choice(l, r, k) is Some {
            lemma_close_from_bounds(l, date_choice(l, r, k)->0.end, 0);
        }
        lemma_tail_from_bounds(l, r, k + 1);
    }
}

pub proof fn lemma_last_tail_bounds(l: Seq<char>, m0: int, q: int)
    requires
        0 <= m0,
    ensures
        last_tail(l, m0, q) matches Some(t) ==> m0 <= t.0 <= q && t.0 + 3 <= t.1.end <= l.len()
            && tail_at(l, t.0) == Some(t.1),
    decreases q + 1 - m0,
{
    if q >= m0 {
        if tail_at(l, q) is Some {
            lemma_tail_from_bounds(l, q + 2, 0);
        } else {
            lemma_last_tail_bounds(l, m0, q - 1);
        }
    }
}

pub proof fn lemma_match_at_bounds(l: Seq<char>, s: int)
    ensures
        match_at(l, s) matches Some(m) ==> m.start == s && s + 2 <= m.message.start
            <= m.message.end && m.message.end + 3 <= m.tail.end <= l.len(),
{
    if 0 <= s && s + 1 < l.len() && l[s] == '-' && l[s + 1] == ' ' {
        let m0 = message_start(l, s);
        lemma_last_tail_bounds(l, m0, first_newline(l, m0));
    }
}

pub proof fn lemma_first_match_bounds(l: Seq<char>, pos: int)
    ensures
        first_match(l, pos) matches Some(m) ==> pos <= m.start && m.start + 5 <= m.tail.end
            <= l.len() && match_at(l, m.start) == Some(m),
    decreases l.len() - pos,
{
    if 0 <= pos < l.len() {
        lemma_match_at_bounds(l, pos);
        if match_at(l, pos) is None {
            lemma_first_match_bounds(l, pos + 1);
        }
    }
}


/// Bounds that every reminder of a line satisfies: its spans lie in the line,
/// in order.
pub open spec fn match_in_line(l: Seq<char>, m: MatchSpec) -> bool {
    &&& 0 <= m.message.start <= m.message.end <= l.len()
    &&& (m.tail.date matches Some(d) ==> 0 <= d.year.start <= d.year.end <= d.month.start
        <= d.month.end <= d.day.start <= d.day.end <= l.len())
    &&& (m.tail.time matches Some(t) ==> 0 <= t.hour.start <= t.hour.end <= t.minute.start
        <= t.minute.end <= l.len() && (t.second matches Some(sc) ==> t.minute.end <= sc.start
        <= sc.end <= l.len()))
}

proof fn lemma_close_in_line(l: Seq<char>, p: int, j: int)
    requires
        0 <= p,
    ensures
        close_from(l, p, j) matches Some(c) ==> (c.0 matches Some(t) ==> p <= t.hour.start
            <= t.hour.end <= t.minute.start <= t.minute.end <= l.len() && (t.second matches Some(
            sc,
        ) ==> t.minute.end <= sc.start <= sc.end <= l.len())),
    decreases 13 - j,
{
    if 0 <= j < 12 && !(time_choice(l, p, j) is Some && closes_at(l, time_choice(l, p, j)->0.end)) {
        lemma_close_in_line(l, p, j + 1);
    }
}

proof fn lemma_tail_in_line(l: Seq<char>, r: int, k: int)
    requires
        0 <= r,
    ensures
        tail_from(l, r, k) matches Some(t) ==> (t.date matches Some(d) ==> r <= d.year.start
            <= d.year.end <= d.month.start <= d.month.end <= d.day.start <= d.day.end <= l.len())
            && (t.time matches Some(tm) ==> r <= tm.hour.start <= tm.hour.end <= tm.minute.start
            <= tm.minute.end <= l.len() && (tm.second matches Some(sc) ==> tm.minute.end
            <= sc.start <= sc.end <= l.len())),
    decreases 9 - k,
{
    lemma_close_in_line(l, r, 0);
    if 0 <= k < 8 {
        if date_choice(l, r, k) is Some {
            lemma_close_in_line(l, date_choice(l, r, k)->0.end, 0);
        }
        lemma_tail_in_line(l, r, k + 1);
    }
}

/// Each reminder of a line lies in the line.
pub proof fn lemma_matches_in_line(l: Seq<char>, pos: int)
    ensures
        forall|i: int|
            0 <= i < all_matches(l, pos).len() ==> match_in_line(l, #[trigger] all_matches(l, pos)[i]),
    decreases l.len() - pos,
{
    if 0 <= pos < l.len() {
        lemma_first_match_bounds(l, pos);
        match first_match(l, pos) {
            None => {},
            Some(m) => {
                let s = m.start;
                let m0 = message_start(l, s);
                lemma_last_tail_bounds(l, m0, first_newline(l, m0));
                lemma_tail_in_line(l, m.message.end + 2, 0);
                lemma_matches_in_line(l, m.tail.end);
                let rest = all_matches(l, m.tail.end);
                assert(all_matches(l, pos) == seq![m] + rest);
                assert forall|i: int| 0 <= i < all_matches(l, pos).len() implies match_in_line(
                    l,
                    #[trigger] all_matches(l, pos)[i],
                ) by {
                    if i > 0 {
                        assert(all_matches(l, pos)[i] == rest[i - 1]);
                    }
                }
            },
        }
    }
}

/// A half-open range of character positions in a line.
#[derive(Clone, Copy, Debug, PartialEq, Eq)]
pub struct Span {
    pub start: usize,
    pub end: usize,
}

impl View for Span {
    type V = SpanSpec;

    open spec fn view(&self) -> SpanSpec {
        SpanSpec { start: self.start as int, end: self.end as int }
    }
}

pub open spec fn opt_span(o: Option<Span>) -> Option<SpanSpec> {
    match o {
        Some(s) => Some(s@),
        None => None,
    }
}

#[derive(Clone, Copy, Debug)]
pub struct DateSpans {
    pub year: Span,
    pub month: Span,
    pub day: Span,
    pub end: usize,
}

impl View for DateSpans {
    type V = DateSpec;

    open spec fn view(&self) -> DateSpec {
        DateSpec { year: self.year@, month: self.month@, day: self.day@, end: self.end as int }
    }
}

pub open spec fn opt_date(o: Option<DateSpans>) -> Option<DateSpec> {
    match o {
        Some(d) => Some(d@),
        None => None,
    }
}

#[derive(Clone, Copy, Debug)]
pub struct TimeSpans {
    pub hour: Span,
    pub minute: Span,
    pub second: Option<Span>,
    pub end: usize,
}

impl View for TimeSpans {
    type V = TimeSpec;

    open spec fn view(&self) -> TimeSpec {
        TimeSpec {
            hour: self.hour@,
            minute: self.minute@,
            second: opt_span(self.second),
            end: self.end as int,
        }
    }
}

pub open spec fn opt_time(o: Option<TimeSpans>) -> Option<TimeSpec> {
    match o {
        Some(t) => Some(t@),
        None => None,
    }
}

#[derive(Clone, Copy, Debug)]
pub struct Tail {
    pub date: Option<DateSpans>,
    pub time: Option<TimeSpans>,
    pub end: usize,
}

impl View for Tail {
    type V = TailSpec;

    open spec fn view(&self) -> TailSpec {
        TailSpec { date: opt_date(self.date), time: opt_time(self.time), end: self.end as int }
    }
}

/// One reminder of a line, by character positions.
#[derive(Clone, Copy, Debug)]
pub struct ReminderMatch {
    pub start: usize,
    pub checked: Option<char>,
    pub message: Span,
    pub tail: Tail,
}

impl View for ReminderMatch {
    type V = MatchSpec;

    open spec fn view(&self) -> MatchSpec {
        MatchSpec {
            start: self.start as int,
            checked: self.checked,
            message: self.message@,
            tail: self.tail@,
        }
    }
}

fn digits_exec(l: &[char], i: usize, n: usize) -> (r: bool)
    ensures
        r == digits_at(l@, i as int, n as int),
{
    if i > l.len() || n > l.len() - i {
        return false;
    }
    let end = i + n;
    let mut t = i;
    while t < end
        invariant
            end == i + n,
            i <= t <= i + n <= l@.len(),
            forall|u: int| i <= u < t ==> is_decimal_digit(#[trigger] l@[u]),
        decreases end - t,
    {
        if !decimal_digit(l[t]) {
            return false;
        }
        t += 1;
    }
    true
}

fn time_choice_exec(l: &[char], p: usize, j: usize) -> (r: Option<TimeSpans>)
    requires
        j < 12,
    ensures
        opt_time(r) == time_choice(l@, p as int, j as int),
{
    let hl: usize = if j < 6 {
        2
    } else {
        1
    };
    let colon = (j / 3) % 2 == 0;
    let sec_mode = j % 3;
    let len = l.len();
    if p >= len {
        return None;
    }
    if l[p] != ' ' {
        return None;
    }
    let h = p + 1;
    if !digits_exec(l, h, hl) {
        return None;
    }
    let c = h + hl;
    let m = if colon {
        if c < len && l[c] == ':' {
            c + 1
        } else {
            return None;
        }
    } else {
        c
    };
    if !digits_exec(l, m, 2) {
        return None;
    }
    let e = m + 2;
    if sec_mode == 2 {
        return Some(
            TimeSpans {
                hour: Span { start: h, end: c },
                minute: Span { start: m, end: e },
                second: None,
                end: e,
            },
        );
    }
    let ss = if sec_mode == 0 {
        if e < len && l[e] == ':' {
            e + 1
        } else {
            return None;
        }
    } else {
        e
    };
    if !digits_exec(l, ss, 2) {
        return None;
    }
    Some(
        TimeSpans {
            hour: Span { start: h, end: c },
            minute: Span { start: m, end: e },
            second: Some(Span { start: ss, end: ss + 2 }),
            end: ss + 2,
        },
    )
}

pub open spec fn opt_close(o: Option<(Option<TimeSpans>, usize)>) -> Option<(Option<TimeSpec>, int)> {
    match o {
        Some(c) => Some((opt_time(c.0), c.1 as int)),
        None => None,
    }
}

fn close_exec(l: &[char], p: usize) -> (r: Option<(Option<TimeSpans>, usize)>)
    ensures
        opt_close(r) == close_from(l@, p as int, 0),
{
    let mut j: usize = 0;
    while j < 12
        invariant
            j <= 12,
            close_from(l@, p as int, 0) == close_from(l@, p as int, j as int),
        decreases 12 - j,
    {
        match time_choice_exec(l, p, j) {
            Some(t) => {
                if t.end < l.len() && l[t.end] == ')' {
                    return Some((Some(t), t.end + 1));
                }
            },
            None => {},
        }
        j += 1;
    }
    if p < l.len() && l[p] == ')' {
        Some((None, p + 1))
    } else {
        None
    }
}

fn date_choice_exec(l: &[char], r: usize, k: usize) -> (d: Option<DateSpans>)
    requires
        k < 8,
    ensures
        opt_date(d) == date_choice(l@, r as int, k as int),
{
    let yl: usize = if k < 4 {
        2
    } else {
        4
    };
    let ml: usize = if (k / 2) % 2 == 0 {
        2
    } else {
        1
    };
    let dl: usize = if k % 2 == 0 {
        2
    } else {
        1
    };
    let len = l.len();
    if !digits_exec(l, r, yl) {
        return None;
    }
    let ye = r + yl;
    if !(ye < l.len() && l[ye] != '\n') {
        return None;
    }
    let ms = ye + 1;
    if !digits_exec(l, ms, ml) {
        return None;
    }
    let me = ms + ml;
    if !(me < l.len() && l[me] != '\n') {
        return None;
    }
    let ds = me + 1;
    if !digits_exec(l, ds, dl) {
        return None;
    }
    let de = ds + dl;
    Some(
        DateSpans {
            year: Span { start: r, end: ye },
            month: Span { start: ms, end: me },
            day: Span { start: ds, end: de },
            end: de,
        },
    )
}

pub open spec fn opt_tail(o: Option<Tail>) -> Option<TailSpec> {
    match o {
        Some(t) => Some(t@),
        None => None,
    }
}

fn tail_exec(l: &[char], r: usize) -> (t: Option<Tail>)
    ensures
        opt_tail(t) == tail_from(l@, r as int, 0),
{
    let mut k: usize = 0;
    while k < 8
        invariant
            k <= 8,
            tail_from(l@, r as int, 0) == tail_from(l@, r as int, k as int),
        decreases 8 - k,
    {
        match date_choice_exec(l, r, k) {
            Some(d) => {
                match close_exec(l, d.end) {
                    Some(c) => {
                        return Some(Tail { date: Some(d), time: c.0, end: c.1 });
                    },
                    None => {},
                }
            },
            None => {},
        }
        k += 1;
    }
    match close_exec(l, r) {
        Some(c) => Some(Tail { date: None, time: c.0, end: c.1 }),
        None => None,
    }
}

fn tail_at_exec(l: &[char], q: usize) -> (t: Option<Tail>)
    ensures
        opt_tail(t) == tail_at(l@, q as int),
{
    if q < l.len() && q + 1 < l.len() && l[q] == '(' && l[q + 1] == '@' {
        tail_exec(l, q + 2)
    } else {
        None
    }
}

fn first_newline_exec(l: &[char], i: usize) -> (r: usize)
    requires
        i <= l@.len(),
    ensures
        r as int == first_newline(l@, i as int),
{
    let mut j = i;
    while j < l.len() && l[j] != '\n'
        invariant
            i <= j <= l@.len(),
            first_newline(l@, i as int) == first_newline(l@, j as int),
        decreases l.len() - j,
    {
        j += 1;
    }
    j
}

fn match_at_exec(l: &[char], s: usize) -> (m: Option<ReminderMatch>)
    requires
        s < l@.len(),
    ensures
        m matches Some(x) ==> match_at(l@, s as int) == Some(x@),
        m is None ==> match_at(l@, s as int) is None,
{
    if !(s < l.len() - 1 && l[s] == '-' && l[s + 1] == ' ') {
        return None;
    }
    let checked = if l.len() > 4 && s < l.len() - 4 && l[s + 2] == '[' && l[s + 3] != '\n' && l[s + 4] == ']' {
        Some(l[s + 3])
    } else {
        None
    };
    let p = if checked.is_some() {
        s + 5
    } else {
        s + 2
    };
    let m0 = if p < l.len() && white_space(l[p]) {
        p + 1
    } else {
        p
    };
    assert(m0 == message_start(l@, s as int));
    let nl = first_newline_exec(l, m0);
    proof {
        lemma_first_newline(l@, m0 as int);
    }
    assert(checked == checkbox_at(l@, s + 2));
    let mut q = nl;
    loop
        invariant
            m0 <= q <= l@.len(),
            nl <= l@.len(),
            nl as int == first_newline(l@, m0 as int),
            m0 == message_start(l@, s as int),
            checked == checkbox_at(l@, s + 2),
            s + 1 < l@.len() && l@[s as int] == '-' && l@[s + 1] == ' ',
            last_tail(l@, m0 as int, nl as int) == last_tail(l@, m0 as int, q as int),
        decreases q,
    {
        match tail_at_exec(l, q) {
            Some(t) => {
                return Some(
                    ReminderMatch { start: s, checked, message: Span { start: m0, end: q }, tail: t },
                );
            },
            None => {},
        }
        if q == m0 {
            assert(last_tail(l@, m0 as int, m0 as int - 1) is None);
            return None;
        }
        q -= 1;
    }
}

fn first_match_exec(l: &[char], from: usize) -> (m: Option<ReminderMatch>)
    ensures
        m matches Some(x) ==> first_match(l@, from as int) == Some(x@),
        m is None ==> first_match(l@, from as int) is None,
{
    let mut pos = from;
    while pos < l.len()
        invariant
            from <= pos,
            first_match(l@, from as int) == first_match(l@, pos as int),
        decreases l.len() - pos,
    {
        match match_at_exec(l, pos) {
            Some(x) => {
                return Some(x);
            },
            None => {},
        }
        pos += 1;
    }
    None
}

/// The reminders of a line, in order: `captures_iter` of the reminder pattern.
pub fn line_reminders(l: &[char]) -> (r: Vec<ReminderMatch>)
    ensures
        r@.len() == line_matches(l@).len(),
        forall|i: int| 0 <= i < r@.len() ==> #[trigger] r@[i]@ == line_matches(l@)[i],
{
    let mut out: Vec<ReminderMatch> = Vec::new();
    let mut pos: usize = 0;
    while pos < l.len()
        invariant
            pos <= l@.len(),
            line_matches(l@) =~= out@.map_values(|m: ReminderMatch| m@) + all_matches(
                l@,
                pos as int,
            ),
        decreases l.len() - pos,
    {
        match first_match_exec(l, pos) {
            None => {
                assert(all_matches(l@, l@.len() as int) =~= Seq::<MatchSpec>::empty());
                pos = l.len();
            },
            Some(m) => {
                proof {
                    lemma_first_match_bounds(l@, pos as int);
                    assert(pos < m.tail.end <= l@.len());
                }
                out.push(m);
                pos = m.tail.end;
            },
        }
    }
    assert(line_matches(l@) =~= out@.map_values(|m: ReminderMatch| m@));
    out
}

} // verus!

verus! {

/// What every reminder of a line is: a bullet `- ` at its start, the check
/// box right after it as the line has it, a message free of line feeds that
/// ends where `(@` begins, and a `)` as its last character; and the message
/// reaches the last place in the line where a time stamp could start.
pub open spec fn reminder_shape(l: Seq<char>, m: MatchSpec) -> bool {
    &&& 0 <= m.start && m.start + 1 < l.len()
    &&& l[m.start] == '-' && l[m.start + 1] == ' '
    &&& m.checked == checkbox_at(l, m.start + 2)
    &&& m.message.start == message_start(l, m.start)
    &&& m.message.start <= m.message.end
    &&& forall|i: int| m.message.start <= i < m.message.end ==> l[i] != '\n'
    &&& m.message.end + 1 < l.len() && l[m.message.end] == '(' && l[m.message.end + 1] == '@'
    &&& 0 < m.tail.end <= l.len() && l[m.tail.end - 1] == ')'
    &&& forall|q: int|
        m.message.end < q <= first_newline(l, m.message.start) ==> #[trigger] tail_at(l, q) is None
}

proof fn lemma_close_ends_with_paren(l: Seq<char>, p: int, j: int)
    requires
        0 <= p,
    ensures
        close_from(l, p, j) matches Some(c) ==> 0 < c.1 <= l.len() && l[c.1 - 1] == ')',
    decreases 13 - j,
{
    if 0 <= j < 12 && !(time_choice(l, p, j) is Some && closes_at(l, time_choice(l, p, j)->0.end)) {
        lemma_close_ends_with_paren(l, p, j + 1);
    }
}

proof fn lemma_tail_ends_with_paren(l: Seq<char>, r: int, k: int)
    requires
        0 <= r,
    ensures
        tail_from(l, r, k) matches Some(t) ==> 0 < t.end <= l.len() && l[t.end - 1] == ')',
    decreases 9 - k,
{
    lemma_close_ends_with_paren(l, r, 0);
    if 0 <= k < 8 {
        if date_choice(l, r, k) is Some {
            lemma_close_ends_with_paren(l, date_choice(l, r, k)->0.end, 0);
        }
        lemma_tail_ends_with_paren(l, r, k + 1);
    }
}

proof fn lemma_last_tail_is_last(l: Seq<char>, m0: int, q: int)
    requires
        0 <= m0,
    ensures
        last_tail(l, m0, q) matches Some(t) ==> forall|x: int| t.0 < x <= q ==> #[trigger] tail_at(l, x) is None,
    decreases q + 1 - m0,
{
    if q >= m0 && tail_at(l, q) is None {
        lemma_last_tail_is_last(l, m0, q - 1);
    }
}

proof fn lemma_match_shape(l: Seq<char>, s: int)
    ensures
        match_at(l, s) matches Some(m) ==> reminder_shape(l, m),
{
    if 0 <= s && s + 1 < l.len() && l[s] == '-' && l[s + 1] == ' ' {
        let m0 = message_start(l, s);
        let nl = first_newline(l, m0);
        lemma_last_tail_bounds(l, m0, nl);
        lemma_last_tail_is_last(l, m0, nl);
        if m0 <= l.len() {
            lemma_first_newline(l, m0);
        }
        match last_tail(l, m0, nl) {
            Some(t) => {
                lemma_tail_ends_with_paren(l, t.0 + 2, 0);
            },
            None => {},
        }
    }
}

/// Every reminder that the grammar reads from a line has the reminder shape,
/// and its message is as long as the line allows.
pub proof fn law_reminders_have_their_shape(l: Seq<char>, pos: int)
    ensures
        forall|i: int| 0 <= i < all_matches(l, pos).len() ==> reminder_shape(l, #[trigger] all_matches(l, pos)[i]),
    decreases l.len() - pos,
{
    if 0 <= pos < l.len() {
        lemma_first_match_bounds(l, pos);
        match first_match(l, pos) {
            None => {},
            Some(m) => {
                lemma_match_shape(l, m.start);
                law_reminders_have_their_shape(l, m.tail.end);
                let rest = all_matches(l, m.tail.end);
                assert(all_matches(l, pos) == seq![m] + rest);
                assert forall|i: int| 0 <= i < all_matches(l, pos).len() implies reminder_shape(
                    l,
                    #[trigger] all_matches(l, pos)[i],
                ) by {
                    if i > 0 {
                        assert(all_matches(l, pos)[i] == rest[i - 1]);
                    }
                }
            },
        }
    }
}

proof fn lemma_first_match_is_leftmost(l: Seq<char>, pos: int)
    requires
        0 <= pos,
    ensures
        first_match(l, pos) matches Some(m) ==> forall|s: int| pos <= s < m.start ==> #[trigger] match_at(l, s) is None,
        first_match(l, pos) is None ==> forall|s: int| pos <= s < l.len() ==> #[trigger] match_at(l, s) is None,
    decreases l.len() - pos,
{
    if 0 <= pos < l.len() && match_at(l, pos) is None {
        lemma_first_match_is_leftmost(l, pos + 1);
    }
}

/// The reminders of a line are read leftmost first: no bullet between the end
/// of one reminder (or the line's start) and the start of the next starts a
/// reminder, nor any bullet after the last one.
pub proof fn law_reminders_are_leftmost(l: Seq<char>, pos: int)
    requires
        0 <= pos,
    ensures
        forall|i: int|
            0 <= i < all_matches(l, pos).len() ==> forall|s: int|
                (if i == 0 {
                    pos
                } else {
                    all_matches(l, pos)[i - 1].tail.end
                }) <= s < #[trigger] all_matches(l, pos)[i].start ==> match_at(l, s) is None,
    decreases l.len() - pos,
{
    if pos < l.len() {
        lemma_first_match_bounds(l, pos);
        lemma_first_match_is_leftmost(l, pos);
        match first_match(l, pos) {
            None => {},
            Some(m) => {
                law_reminders_are_leftmost(l, m.tail.end);
                let rest = all_matches(l, m.tail.end);
                assert(all_matches(l, pos) == seq![m] + rest);
                assert forall|i: int| 0 <= i < all_matches(l, pos).len() implies forall|s: int|
                    (if i == 0 {
                        pos
                    } else {
                        all_matches(l, pos)[i - 1].tail.end
                    }) <= s < #[trigger] all_matches(l, pos)[i].start ==> match_at(l, s) is None by {
                    if i > 0 {
                        assert(all_matches(l, pos)[i] == rest[i - 1]);
                        if i > 1 {
                            assert(all_matches(l, pos)[i - 1] == rest[i - 2]);
                        }
                    }
                }
            },
        }
    }
}

} // verus!
