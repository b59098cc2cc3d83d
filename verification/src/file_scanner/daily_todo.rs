//! The daily TODO digest: the unchecked tasks under the TODO heading of a
//! vault's TODO note, sent every morning at 9:00.
use crate::clock::{instant_nanos, Instant};
use crate::file_scanner::time_reminder::grammar::{checkbox_at, message_start};
use crate::text::{
    chars_of, first_newline, is_white_space, lemma_first_newline, lines_of, split_lines,
    string_from_chars, white_space,
};
use vstd::prelude::*;

verus! {

#[verifier::external_type_specification]
#[verifier::external_body]
pub struct ExRegex(regex::Regex);

/// Whether `regex::Regex::new` accepts `pattern`.
pub uninterp spec fn pattern_compiles(pattern: Seq<char>) -> bool;

/// What the regex compiled from `pattern` finds in `line` (the first match, as
/// `Regex::captures` gives it): `None` for no match, else whether the group
/// named `todo_header` took part in the match.
pub uninterp spec fn header_group_of(pattern: Seq<char>, line: Seq<char>) -> Option<bool>;

/// A compiled heading pattern, kept with the text it was compiled from.
pub struct HeaderMatcher {
    pattern: String,
    regex: regex::Regex,
}

impl HeaderMatcher {
    /// The text of the pattern. The matcher holds it beside the `Regex` that
    /// `compile` built from that very text and nothing else, so the pattern
    /// decides every answer of `header_group`.
    pub closed spec fn pattern_view(&self) -> Seq<char> {
        self.pattern@
    }

    /// `regex::Regex::new(pattern)`. Claimed: the result is there exactly
    /// when the pattern compiles (`pattern_compiles`), and it keeps the
    /// pattern's text.
    #[verifier::external_body]
    pub(crate) fn compile(pattern: &str) -> (r: Option<HeaderMatcher>)
        ensures
            r is Some <==> pattern_compiles(pattern@),
            r matches Some(m) ==> m.pattern_view() == pattern@,
    {
        match regex::Regex::new(pattern) {
            Ok(regex) => Some(HeaderMatcher { pattern: pattern.to_owned(), regex }),
            Err(_) => None,
        }
    }

    /// `Regex::captures(line)` and, on a match, whether its group
    /// `todo_header` took part. Claimed: the result is the name
    /// `header_group_of` of the pattern and the line. `is_match` is true
    /// exactly where `captures` finds a match, so this one call answers both.
    #[verifier::external_body]
    pub(crate) fn header_group(&self, line: &str) -> (r: Option<bool>)
        ensures
            r == header_group_of(self.pattern_view(), line@),
    {
        match self.regex.captures(line) {
            Some(c) => Some(c.name("todo_header").is_some()),
            None => None,
        }
    }
}

/// The heading pattern for the TODO section named `header`: a line `# `
/// followed by the name is the TODO heading, any other line `# ` followed
/// only by letters, digits and white space is another heading. The name is
/// put into the pattern as it is written.
pub open spec fn header_pattern_spec(header: Seq<char>) -> Seq<char> {
    "(?<todo_header>^# "@ + header + "$)|(^# [A-Za-z0-9\\s]*$)"@
}

pub fn header_pattern(header: &str) -> (r: String)
    ensures
        r@ == header_pattern_spec(header@),
{
    let mut v = chars_of("(?<todo_header>^# ");
    let mut h = chars_of(header);
    v.append(&mut h);
    let mut t = chars_of("$)|(^# [A-Za-z0-9\\s]*$)");
    v.append(&mut t);
    string_from_chars(v.as_slice())
}

/// Compiles the heading pattern for the TODO section named `header`; `None`
/// when the name makes the pattern invalid.
pub fn build_regex(header: &str) -> (r: Option<HeaderMatcher>)
    ensures
        r is Some <==> pattern_compiles(header_pattern_spec(header@)),
        r matches Some(m) ==> m.pattern_view() == header_pattern_spec(header@),
{
    let p = header_pattern(header);
    HeaderMatcher::compile(p.as_str())
}

/// One task of the TODO section: whether it counts as checked, and its text.
#[derive(Clone, Debug, PartialEq, Eq)]
pub struct Task {
    pub checked: bool,
    pub msg: String,
}

pub struct TaskView {
    pub checked: bool,
    pub msg: Seq<char>,
}

impl View for Task {
    type V = TaskView;

    open spec fn view(&self) -> TaskView {
        TaskView { checked: self.checked, msg: self.msg@ }
    }
}

/// The task that line `l` holds, if any: a line starting with `- `, then
/// optionally a check box `[c]`, optionally one white-space character, then
/// the task's text. A task without a check box, or whose box holds anything
/// but white space, counts as checked.
pub open spec fn task_of_line(l: Seq<char>) -> Option<TaskView> {
    if l.len() >= 2 && l[0] == '-' && l[1] == ' ' {
        let m0 = message_start(l, 0);
        Some(
            TaskView {
                checked: match checkbox_at(l, 2) {
                    None => true,
                    Some(c) => !is_white_space(c),
                },
                msg: l.subrange(m0, first_newline(l, m0)),
            },
        )
    } else {
        None
    }
}

/// Reading the lines `ls` in order: whether the last heading seen was the
/// TODO heading, and the tasks found under TODO headings.
pub open spec fn todo_scan(pattern: Seq<char>, ls: Seq<Seq<char>>) -> (bool, Seq<TaskView>)
    decreases ls.len(),
{
    if ls.len() == 0 {
        (false, seq![])
    } else {
        let prev = todo_scan(pattern, ls.drop_last());
        let l = ls.last();
        match header_group_of(pattern, l) {
            Some(is_todo) => (is_todo, prev.1),
            None => if prev.0 {
                match task_of_line(l) {
                    Some(t) => (prev.0, prev.1.push(t)),
                    None => prev,
                }
            } else {
                prev
            },
        }
    }
}

/// The task in `line`, if it holds one.
pub fn parse_task(line: &[char]) -> (r: Option<Task>)
    ensures
        match r {
            Some(t) => task_of_line(line@) == Some(t@),
            None => task_of_line(line@) is None,
        },
{
    let n = line.len();
    if !(n >= 2 && line[0] == '-' && line[1] == ' ') {
        return None;
    }
    let cb = if n > 4 && line[2] == '[' && line[3] != '\n' && line[4] == ']' {
        Some(line[3])
    } else {
        None
    };
    assert(cb == checkbox_at(line@, 2));
    let p: usize = if cb.is_some() {
        5
    } else {
        2
    };
    let m0 = if p < n && white_space(line[p]) {
        p + 1
    } else {
        p
    };
    assert(m0 == message_start(line@, 0));
    let mut msg: Vec<char> = Vec::new();
    let mut j = m0;
    while j < n && line[j] != '\n'
        invariant
            m0 <= j <= n == line@.len(),
            msg@ =~= line@.subrange(m0 as int, j as int),
            first_newline(line@, m0 as int) == first_newline(line@, j as int),
        decreases n - j,
    {
        msg.push(line[j]);
        j += 1;
    }
    let checked = match cb {
        None => true,
        Some(c) => !white_space(c),
    };
    Some(Task { checked, msg: string_from_chars(msg.as_slice()) })
}

/// The tasks of the TODO section of a TODO note: the tasks of the lines that
/// follow a TODO heading, up to the next heading, in order.
pub fn todo_tasks(text: &str, header: &HeaderMatcher) -> (r: Vec<Task>)
    ensures
        r@.len() == todo_scan(header.pattern_view(), lines_of(text@)).1.len(),
        forall|i: int|
            0 <= i < r@.len() ==> #[trigger] r@[i]@ == todo_scan(header.pattern_view(), lines_of(text@)).1[i],
{
    let chars = chars_of(text);
    let lines = split_lines(&chars);
    let ghost ls = lines_of(text@);
    let ghost pat = header.pattern_view();
    let mut tasks: Vec<Task> = Vec::new();
    let mut under = false;
    let mut i: usize = 0;
    proof {
        assert(ls.take(0) =~= Seq::<Seq<char>>::empty());
    }
    while i < lines.len()
        invariant
            0 <= i <= lines@.len(),
            lines@.len() == ls.len(),
            pat == header.pattern_view(),
            forall|k: int| 0 <= k < lines@.len() ==> #[trigger] lines@[k]@ == ls[k],
            under == todo_scan(pat, ls.take(i as int)).0,
            tasks@.len() == todo_scan(pat, ls.take(i as int)).1.len(),
            forall|k: int|
                0 <= k < tasks@.len() ==> #[trigger] tasks@[k]@ == todo_scan(pat, ls.take(i as int)).1[k],
        decreases lines.len() - i,
    {
        let line = lines[i].as_slice();
        let text_line = string_from_chars(line);
        proof {
            assert(ls.take(i + 1).drop_last() =~= ls.take(i as int));
            assert(ls.take(i + 1).last() == ls[i as int]);
        }
        match header.header_group(text_line.as_str()) {
            Some(is_todo) => {
                under = is_todo;
            },
            None => {
                if under {
                    match parse_task(line) {
                        Some(t) => {
                            tasks.push(t);
                        },
                        None => {},
                    }
                }
            },
        }
        i += 1;
    }
    proof {
        assert(ls.take(ls.len() as int) =~= ls);
    }
    tasks
}

/// The digest of the tasks: a line `- TEXT` for each task that is not
/// checked, in order.
pub open spec fn todo_message_spec(ts: Seq<TaskView>) -> Seq<char>
    decreases ts.len(),
{
    if ts.len() == 0 {
        seq![]
    } else {
        todo_message_spec(ts.drop_last()) + if ts.last().checked {
            Seq::<char>::empty()
        } else {
            seq!['-', ' '] + ts.last().msg + seq!['\n']
        }
    }
}

pub fn todo_message(tasks: &Vec<Task>) -> (r: String)
    ensures
        r@ == todo_message_spec(tasks@.map_values(|t: Task| t@)),
{
    let mut out: Vec<char> = Vec::new();
    let mut i: usize = 0;
    while i < tasks.len()
        invariant
            0 <= i <= tasks@.len(),
            out@ == todo_message_spec(tasks@.map_values(|t: Task| t@).take(i as int)),
        decreases tasks.len() - i,
    {
        let ghost before = out@;
        if !tasks[i].checked {
            out.push('-');
            out.push(' ');
            let mut m = chars_of(tasks[i].msg.as_str());
            out.append(&mut m);
            out.push('\n');
        }
        proof {
            let tv = tasks@.map_values(|t: Task| t@);
            assert(tv.take(i + 1).drop_last() =~= tv.take(i as int));
            assert(tv.take(i + 1).last() == tasks@[i as int]@);
            if !tasks@[i as int].checked {
                assert(out@ =~= before + (seq!['-', ' '] + tasks@[i as int].msg@ + seq!['\n']));
            } else {
                assert(out@ =~= before + Seq::<char>::empty());
            }
        }
        i += 1;
    }
    proof {
        let tv = tasks@.map_values(|t: Task| t@);
        assert(tv.take(tasks@.len() as int) =~= tv);
    }
    string_from_chars(out.as_slice())
}

/// One day in nanoseconds.
pub open spec fn day_nanos() -> int {
    86_400_000_000_000
}

/// The wait before the next digest when the clock reads `now` and today's
/// 9:00 is `nine`: until today's 9:00 if that is not a whole second or more
/// past, else until the same instant a day later.
pub open spec fn daily_wait_nanos(nine: Instant, now: Instant) -> int {
    let d = instant_nanos(nine) - instant_nanos(now);
    if d <= -1_000_000_000 {
        d + day_nanos()
    } else {
        d
    }
}

/// The wait is a duration: not negative. (It is negative less than a second
/// after 9:00, and where a clock change makes a day much shorter.)
pub open spec fn daily_wait_defined(nine: Instant, now: Instant) -> bool {
    daily_wait_nanos(nine, now) >= 0
}

/// Whether `daily_wait` can be asked for these instants.
pub fn daily_wait_is_defined(nine: &Instant, now: &Instant) -> (r: bool)
    requires
        nine.nanos < 1_000_000_000,
        now.nanos < 1_000_000_000,
    ensures
        r == daily_wait_defined(*nine, *now),
{
    let d = wait_delta(nine, now);
    d >= 0
}

fn wait_delta(nine: &Instant, now: &Instant) -> (r: i128)
    requires
        nine.nanos < 1_000_000_000,
        now.nanos < 1_000_000_000,
    ensures
        r == daily_wait_nanos(*nine, *now),
        r <= 18446744073709551615 * 1_000_000_000 + 999_999_999,
{
    let ds: i128 = (nine.secs as i128) - (now.secs as i128);
    let dn: i128 = (nine.nanos as i128) - (now.nanos as i128);
    let d: i128 = ds * 1_000_000_000 + dn;
    assert(d == instant_nanos(*nine) - instant_nanos(*now)) by (nonlinear_arith)
        requires
            ds == nine.secs - now.secs,
            dn == nine.nanos - now.nanos,
            d == ds * 1_000_000_000 + dn,
    ;
    assert(d <= 18446744073709551615 * 1_000_000_000 + 999_999_999) by (nonlinear_arith)
        requires
            d == ds * 1_000_000_000 + dn,
            ds <= 18446744073709551615,
            dn < 1_000_000_000,
    ;
    if d <= -1_000_000_000 {
        d + 86_400_000_000_000
    } else {
        d
    }
}

/// How long the digest waits, in whole seconds and nanoseconds, when the
/// clock reads `now` and today's 9:00 is `nine`.
pub fn daily_wait(nine: &Instant, now: &Instant) -> (r: (u64, u32))
    requires
        nine.nanos < 1_000_000_000,
        now.nanos < 1_000_000_000,
        daily_wait_defined(*nine, *now),
    ensures
        r.0 * 1_000_000_000 + r.1 == daily_wait_nanos(*nine, *now),
        r.1 < 1_000_000_000,
{
    let d = wait_delta(nine, now);
    let secs = d / 1_000_000_000;
    let nanos = d % 1_000_000_000;
    assert(secs <= u64::MAX) by (nonlinear_arith)
        requires
            secs == d / 1_000_000_000,
            0 <= d <= 18446744073709551615 * 1_000_000_000 + 999_999_999,
    ;
    assert(secs * 1_000_000_000 + nanos == d) by (nonlinear_arith)
        requires
            secs == d / 1_000_000_000,
            nanos == d % 1_000_000_000,
            d >= 0,
    ;
    (secs as u64, nanos as u32)
}

} // verus!

verus! {

/// Today's 9:00 in the local time zone, for the clock reading `now`: no
/// instant where the date of `now` is no date, and otherwise each instant it
/// resolves to lies within a day of that date's 9:00 read as UTC.
pub fn nine_today(now: &crate::clock::LocalNow) -> (r: crate::clock::ResolvedTime)
    ensures
        !crate::clock::fields_in_range(now.month, now.day, 9, 0, 0) ==> r.time
            == crate::clock::LocalTime::Unresolved,
        !crate::clock::date_exists(now.year as int, now.month as int, now.day as int) ==> r.time
            == crate::clock::LocalTime::Unresolved,
        crate::clock::resolved_within_a_day_of(
            r.time,
            crate::clock::calendar_seconds(now.year as int, now.month as int, now.day as int, 9, 0, 0),
        ),
        r.time matches crate::clock::LocalTime::Single(t) ==> t.nanos == 0,
        r.time matches crate::clock::LocalTime::Ambiguous(a, b) ==> a.nanos == 0 && b.nanos == 0,
{
    crate::clock::local_ymd_hms(now.year, now.month, now.day, 9, 0, 0)
}

} // verus!

verus! {

/// Without a TODO heading in the note, the digest collects no task.
pub proof fn law_no_todo_heading_no_tasks(pattern: Seq<char>, ls: Seq<Seq<char>>)
    requires
        forall|i: int| 0 <= i < ls.len() ==> header_group_of(pattern, #[trigger] ls[i]) != Some(true),
    ensures
        !todo_scan(pattern, ls).0,
        todo_scan(pattern, ls).1.len() == 0,
    decreases ls.len(),
{
    if ls.len() > 0 {
        let p = ls.drop_last();
        assert forall|i: int| 0 <= i < p.len() implies header_group_of(pattern, #[trigger] p[i]) != Some(true) by {
            assert(p[i] == ls[i]);
        }
        law_no_todo_heading_no_tasks(pattern, p);
        assert(header_group_of(pattern, ls[ls.len() - 1]) != Some(true));
    }
}

/// A line that is not a heading never ends or starts a section: after it the
/// scan is still inside the TODO section exactly when it was before it (a
/// blank line or plain text under the TODO heading does not end it), and it
/// adds its task exactly when it holds one and stands in the TODO section.
pub proof fn law_non_heading_keeps_section(pattern: Seq<char>, ls: Seq<Seq<char>>, l: Seq<char>)
    requires
        header_group_of(pattern, l) is None,
    ensures
        todo_scan(pattern, ls.push(l)).0 == todo_scan(pattern, ls).0,
        todo_scan(pattern, ls).0 && task_of_line(l) is Some ==> todo_scan(pattern, ls.push(l)).1
            == todo_scan(pattern, ls).1.push(task_of_line(l).unwrap()),
        !(todo_scan(pattern, ls).0 && task_of_line(l) is Some) ==> todo_scan(pattern, ls.push(l)).1
            == todo_scan(pattern, ls).1,
{
    assert(ls.push(l).drop_last() =~= ls);
}

/// How a line reads as a task: `- [c] text` is the task `text`, unchecked
/// exactly when `c` is white space; `- text` without a box is the task
/// `text`, counted as checked; a line that does not start with `- ` holds
/// no task.
pub proof fn law_task_lines_read(l: Seq<char>, c: char, t: Seq<char>)
    requires
        c != '\n',
        forall|j: int| 0 <= j < t.len() ==> t[j] != '\n',
        t.len() > 0 ==> !is_white_space(t[0]),
    ensures
        task_of_line(seq!['-', ' ', '[', c, ']', ' '] + t) == Some(
            TaskView { checked: !is_white_space(c), msg: t },
        ),
        t.len() > 0 && t[0] != '[' ==> task_of_line(seq!['-', ' '] + t) == Some(
            TaskView { checked: true, msg: t },
        ),
        !(l.len() >= 2 && l[0] == '-' && l[1] == ' ') ==> task_of_line(l) is None,
{
    let b = seq!['-', ' ', '[', c, ']', ' '] + t;
    assert(b[0] == '-' && b[1] == ' ' && b[2] == '[' && b[3] == c && b[4] == ']' && b[5] == ' ');
    assert(checkbox_at(b, 2) == Some(c));
    assert(message_start(b, 0) == 6);
    lemma_first_newline(b, 6);
    assert(forall|j: int| 6 <= j < b.len() ==> b[j] == t[j - 6]);
    assert(first_newline(b, 6) == b.len());
    assert(b.subrange(6, b.len() as int) =~= t);
    if t.len() > 0 && t[0] != '[' {
        let n = seq!['-', ' '] + t;
        assert(n[2] == t[0]);
        assert(checkbox_at(n, 2) is None);
        assert(message_start(n, 0) == 2);
        lemma_first_newline(n, 2);
        assert(forall|j: int| 2 <= j < n.len() ==> n[j] == t[j - 2]);
        assert(first_newline(n, 2) == n.len());
        assert(n.subrange(2, n.len() as int) =~= t);
    }
}

/// The TODO heading opens its section, keeping the tasks gathered so far.
pub proof fn law_todo_heading_opens_section(pattern: Seq<char>, ls: Seq<Seq<char>>, l: Seq<char>)
    requires
        header_group_of(pattern, l) == Some(true),
    ensures
        todo_scan(pattern, ls.push(l)).0,
        todo_scan(pattern, ls.push(l)).1 == todo_scan(pattern, ls).1,
{
    assert(ls.push(l).drop_last() =~= ls);
}

/// A line that is a heading is never a task; a heading other than the TODO
/// heading ends the TODO section.
pub proof fn law_heading_ends_section(pattern: Seq<char>, ls: Seq<Seq<char>>)
    requires
        ls.len() > 0,
        header_group_of(pattern, ls.last()) == Some(false),
    ensures
        !todo_scan(pattern, ls).0,
        todo_scan(pattern, ls).1 == todo_scan(pattern, ls.drop_last()).1,
{
}

/// The digest goes out at the next 9:00: the wait ends at today's 9:00, or at
/// the same instant a day later when today's has passed.
pub proof fn law_digest_waits_for_next_nine(nine: Instant, now: Instant)
    requires
        daily_wait_defined(nine, now),
    ensures
        instant_nanos(now) + daily_wait_nanos(nine, now) == instant_nanos(nine) || instant_nanos(now)
            + daily_wait_nanos(nine, now) == instant_nanos(nine) + day_nanos(),
        daily_wait_nanos(nine, now) >= 0,
{
}

} // verus!
