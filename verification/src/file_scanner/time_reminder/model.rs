//! Reminder keys and the date/time parts of a reminder's time stamp.
use crate::file_scanner::time_reminder::grammar::{
    lemma_matches_in_line, line_matches, line_reminders, match_in_line, MatchSpec, ReminderMatch, Span, SpanSpec,
};
use crate::text::{
    chars_of, decimal, lines_of, split_lines, string_from_chars, u32_decimal,
};
use crate::clock::{
    calendar_seconds, clock_reading, date_exists, fields_in_range, local_ymd_hms, now,
    resolved_within_a_day_of, LocalNow, LocalTime, ResolvedTime,
};
use vstd::prelude::*;

verus! {

/// The text of each named group of one reminder match.
#[derive(Clone, Debug)]
pub struct ReminderCaptures {
    pub checked: Option<String>,
    pub message: Option<String>,
    pub year: Option<String>,
    pub month: Option<String>,
    pub day: Option<String>,
    pub hour: Option<String>,
    pub minute: Option<String>,
    pub second: Option<String>,
}

pub struct CapturesView {
    pub checked: Option<Seq<char>>,
    pub message: Option<Seq<char>>,
    pub year: Option<Seq<char>>,
    pub month: Option<Seq<char>>,
    pub day: Option<Seq<char>>,
    pub hour: Option<Seq<char>>,
    pub minute: Option<Seq<char>>,
    pub second: Option<Seq<char>>,
}

pub open spec fn opt_str(o: Option<String>) -> Option<Seq<char>> {
    match o {
        Some(s) => Some(s@),
        None => None,
    }
}

impl View for ReminderCaptures {
    type V = CapturesView;

    open spec fn view(&self) -> CapturesView {
        CapturesView {
            checked: opt_str(self.checked),
            message: opt_str(self.message),
            year: opt_str(self.year),
            month: opt_str(self.month),
            day: opt_str(self.day),
            hour: opt_str(self.hour),
            minute: opt_str(self.minute),
            second: opt_str(self.second),
        }
    }
}

pub open spec fn span_text(l: Seq<char>, s: SpanSpec) -> Seq<char> {
    l.subrange(s.start, s.end)
}

pub open spec fn opt_span_text(l: Seq<char>, s: Option<SpanSpec>) -> Option<Seq<char>> {
    match s {
        Some(x) => Some(span_text(l, x)),
        None => None,
    }
}

/// The groups of one match of the reminder pattern in line `l`.
pub open spec fn captures_spec(l: Seq<char>, m: MatchSpec) -> CapturesView {
    CapturesView {
        checked: match m.checked {
            Some(c) => Some(seq![c]),
            None => None,
        },
        message: Some(span_text(l, m.message)),
        year: match m.tail.date {
            Some(d) => Some(span_text(l, d.year)),
            None => None,
        },
        month: match m.tail.date {
            Some(d) => Some(span_text(l, d.month)),
            None => None,
        },
        day: match m.tail.date {
            Some(d) => Some(span_text(l, d.day)),
            None => None,
        },
        hour: match m.tail.time {
            Some(t) => Some(span_text(l, t.hour)),
            None => None,
        },
        minute: match m.tail.time {
            Some(t) => Some(span_text(l, t.minute)),
            None => None,
        },
        second: match m.tail.time {
            Some(t) => opt_span_text(l, t.second),
            None => None,
        },
    }
}

fn span_string(l: &[char], s: Span) -> (r: String)
    requires
        s.start <= s.end <= l@.len(),
    ensures
        r@ == span_text(l@, s@),
{
    let mut v: Vec<char> = Vec::new();
    let mut i = s.start;
    while i < s.end
        invariant
            s.start <= i <= s.end <= l@.len(),
            v@ =~= l@.subrange(s.start as int, i as int),
        decreases s.end - i,
    {
        v.push(l[i]);
        i += 1;
    }
    string_from_chars(v.as_slice())
}

fn captures_of(l: &[char], m: ReminderMatch) -> (r: ReminderCaptures)
    requires
        match_in_line(l@, m@),
    ensures
        r@ == captures_spec(l@, m@),
{
    let checked = match m.checked {
        Some(c) => {
            let mut v: Vec<char> = Vec::new();
            v.push(c);
            Some(string_from_chars(v.as_slice()))
        },
        None => None,
    };
    let message = Some(span_string(l, m.message));
    let (year, month, day) = match m.tail.date {
        Some(d) => (
            Some(span_string(l, d.year)),
            Some(span_string(l, d.month)),
            Some(span_string(l, d.day)),
        ),
        None => (None, None, None),
    };
    let (hour, minute, second) = match m.tail.time {
        Some(t) => (
            Some(span_string(l, t.hour)),
            Some(span_string(l, t.minute)),
            match t.second {
                Some(sc) => Some(span_string(l, sc)),
                None => None,
            },
        ),
        None => (None, None, None),
    };
    let r = ReminderCaptures { checked, message, year, month, day, hour, minute, second };
    assert(r@.checked == captures_spec(l@, m@).checked);
    r
}


/// Why `str::parse::<u32>` refused a string (the `kind` of its
/// `ParseIntError`).
#[derive(Clone, Copy, Debug, PartialEq, Eq, Structural)]
pub enum IntErrorKind {
    Empty,
    InvalidDigit,
    PosOverflow,
}

pub open spec fn ascii_digit_value(c: char) -> int {
    (c as u32) - ('0' as u32)
}

pub open spec fn is_ascii_digit(c: char) -> bool {
    '0' <= c && c <= '9'
}

/// Reads the digits `d[i..]` onto the value `acc` read so far, left to right:
/// a character that is no ASCII digit stops with `InvalidDigit`, a value that
/// passes `u32::MAX` with `PosOverflow`.
pub open spec fn read_digits(d: Seq<char>, i: int, acc: int) -> Result<u32, IntErrorKind>
    decreases d.len() - i,
{
    if i >= d.len() || i < 0 {
        Ok(acc as u32)
    } else if !is_ascii_digit(d[i]) {
        Err(IntErrorKind::InvalidDigit)
    } else if acc * 10 + ascii_digit_value(d[i]) > u32::MAX {
        Err(IntErrorKind::PosOverflow)
    } else {
        read_digits(d, i + 1, acc * 10 + ascii_digit_value(d[i]))
    }
}

/// What `s.parse::<u32>()` gives: `Empty` for no text, `InvalidDigit` for a
/// lone sign, else the decimal value of the ASCII digits after an optional
/// `+`.
pub open spec fn parse_u32_spec(s: Seq<char>) -> Result<u32, IntErrorKind> {
    if s.len() == 0 {
        Err(IntErrorKind::Empty)
    } else if s.len() == 1 && (s[0] == '+' || s[0] == '-') {
        Err(IntErrorKind::InvalidDigit)
    } else if s[0] == '+' {
        read_digits(s, 1, 0)
    } else {
        read_digits(s, 0, 0)
    }
}

/// `str::parse::<u32>`.
pub fn parse_u32_str(s: &[char]) -> (r: Result<u32, IntErrorKind>)
    ensures
        r == parse_u32_spec(s@),
{
    if s.len() == 0 {
        return Err(IntErrorKind::Empty);
    }
    if s.len() == 1 && (s[0] == '+' || s[0] == '-') {
        return Err(IntErrorKind::InvalidDigit);
    }
    let mut i: usize = if s[0] == '+' {
        1
    } else {
        0
    };
    let ghost start = i as int;
    let mut acc: u32 = 0;
    while i < s.len()
        invariant
            0 <= start <= i <= s@.len(),
            parse_u32_spec(s@) == read_digits(s@, start, 0),
            read_digits(s@, start, 0) == read_digits(s@, i as int, acc as int),
        decreases s.len() - i,
    {
        let c = s[i];
        if !('0' <= c && c <= '9') {
            return Err(IntErrorKind::InvalidDigit);
        }
        let d = (c as u32) - ('0' as u32);
        if acc > 429496729 || (acc == 429496729 && d > 5) {
            return Err(IntErrorKind::PosOverflow);
        }
        acc = acc * 10 + d;
        i += 1;
    }
    Ok(acc)
}

pub open spec fn kind_name(k: IntErrorKind) -> Seq<char> {
    match k {
        IntErrorKind::Empty => "Empty"@,
        IntErrorKind::InvalidDigit => "InvalidDigit"@,
        IntErrorKind::PosOverflow => "PosOverflow"@,
    }
}

/// Where in this library a time-stamp part is read as a number: the file and
/// the line that build the report of a refused part.
pub open spec fn parse_error_site() -> Seq<char> {
    "src/file_scanner/time_reminder/model.rs:425"@
}

/// The report for a time-stamp part that does not read as a `u32`.
pub open spec fn parse_error_message(value: Seq<char>, k: IntErrorKind) -> Seq<char> {
    "Error parsing value ("@ + value + ") as u32\nError at "@ + parse_error_site()
        + "  with message:```ParseIntError { kind: "@ + kind_name(k) + " }```"@
}

fn kind_chars(k: IntErrorKind) -> (r: Vec<char>)
    ensures
        r@ == kind_name(k),
{
    match k {
        IntErrorKind::Empty => chars_of("Empty"),
        IntErrorKind::InvalidDigit => chars_of("InvalidDigit"),
        IntErrorKind::PosOverflow => chars_of("PosOverflow"),
    }
}

/// The year, month, day, hour, minute and second that a reminder names; a part
/// that the time stamp leaves out is `None`.
#[derive(Clone, Copy, Debug, PartialEq, Eq, Hash, Structural)]
pub struct DateTimeParts {
    pub year: Option<u32>,
    pub month: Option<u32>,
    pub day: Option<u32>,
    pub hour: Option<u32>,
    pub minute: Option<u32>,
    pub second: Option<u32>,
    /// The year was written with two digits, so that it stands for a year of
    /// the current century.
    pub short_year: bool,
}

/// One captured part read as a number: absent stays `None`, a refused text
/// gives its report.
pub open spec fn part_value(t: Option<Seq<char>>) -> Result<Option<u32>, Seq<char>> {
    match t {
        None => Ok(None),
        Some(v) => match parse_u32_spec(v) {
            Ok(n) => Ok(Some(n)),
            Err(k) => Err(parse_error_message(v, k)),
        },
    }
}

/// The parts of a reminder's captures, read in the order year, month, day,
/// hour, minute, second; the first part that does not read gives the error.
pub open spec fn parts_spec(c: CapturesView) -> Result<DateTimeParts, Seq<char>> {
    match part_value(c.year) {
        Err(e) => Err(e),
        Ok(year) => match part_value(c.month) {
            Err(e) => Err(e),
            Ok(month) => match part_value(c.day) {
                Err(e) => Err(e),
                Ok(day) => match part_value(c.hour) {
                    Err(e) => Err(e),
                    Ok(hour) => match part_value(c.minute) {
                        Err(e) => Err(e),
                        Ok(minute) => match part_value(c.second) {
                            Err(e) => Err(e),
                            Ok(second) => Ok(
                                DateTimeParts {
                                    year,
                                    month,
                                    day,
                                    hour,
                                    minute,
                                    second,
                                    short_year: match c.year {
                                        Some(v) => v.len() == 2,
                                        None => false,
                                    },
                                },
                            ),
                        },
                    },
                },
            },
        },
    }
}

pub open spec fn result_str<T>(r: Result<T, String>) -> Result<T, Seq<char>> {
    match r {
        Ok(v) => Ok(v),
        Err(e) => Err(e@),
    }
}

impl DateTimeParts {
    /// Reads the date and time parts of one reminder match.
    pub fn new(cap: &ReminderCaptures) -> (r: Result<DateTimeParts, String>)
        ensures
            result_str(r) == parts_spec(cap@),
    {
        let year = match Self::parse_u32(&cap.year) {
            Ok(v) => v,
            Err(e) => {
                return Err(e);
            },
        };
        let month = match Self::parse_u32(&cap.month) {
            Ok(v) => v,
            Err(e) => {
                return Err(e);
            },
        };
        let day = match Self::parse_u32(&cap.day) {
            Ok(v) => v,
            Err(e) => {
                return Err(e);
            },
        };
        let hour = match Self::parse_u32(&cap.hour) {
            Ok(v) => v,
            Err(e) => {
                return Err(e);
            },
        };
        let minute = match Self::parse_u32(&cap.minute) {
            Ok(v) => v,
            Err(e) => {
                return Err(e);
            },
        };
        let second = match Self::parse_u32(&cap.second) {
            Ok(v) => v,
            Err(e) => {
                return Err(e);
            },
        };
        let short_year = match &cap.year {
            Some(v) => chars_of(v.as_str()).len() == 2,
            None => false,
        };
        Ok(DateTimeParts { year, month, day, hour, minute, second, short_year })
    }

    fn parse_u32(mat: &Option<String>) -> (r: Result<Option<u32>, String>)
        ensures
            result_str(r) == part_value(opt_str(*mat)),
    {
        match mat {
            None => Ok(None),
            Some(v) => {
                let cs = chars_of(v.as_str());
                match parse_u32_str(cs.as_slice()) {
                    Ok(n) => Ok(Some(n)),
                    Err(k) => {
                        let mut msg = chars_of("Error parsing value (");
                        let mut rest = cs.clone();
                        msg.append(&mut rest);
                        let mut at = chars_of(") as u32\nError at ");
                        msg.append(&mut at);
                        let mut site = chars_of("src/file_scanner/time_reminder/model.rs:425");
                        msg.append(&mut site);
                        let mut mid = chars_of("  with message:```ParseIntError { kind: ");
                        msg.append(&mut mid);
                        let mut kind = kind_chars(k);
                        msg.append(&mut kind);
                        let mut tail = chars_of(" }```");
                        msg.append(&mut tail);
                        Err(string_from_chars(msg.as_slice()))
                    },
                }
            },
        }
    }
}


/// How `Display` writes an optional part: its decimal digits, or `~`.
pub open spec fn part_str(v: Option<u32>) -> Seq<char> {
    match v {
        Some(n) => decimal(n as nat),
        None => seq!['~'],
    }
}

/// `{:0>2}`: zeros in front up to two characters.
pub open spec fn pad2(s: Seq<char>) -> Seq<char> {
    if s.len() >= 2 {
        s
    } else {
        Seq::new((2 - s.len()) as nat, |i: int| '0') + s
    }
}

/// `YEAR-MONTH-DAY HH:MM`, each left-out part as `~`, the hour and the minute
/// padded to two characters, and the seconds (when given) appended, padded,
/// with no separator.
pub open spec fn display_spec(p: DateTimeParts) -> Seq<char> {
    part_str(p.year) + seq!['-'] + part_str(p.month) + seq!['-'] + part_str(p.day) + seq![' ']
        + pad2(part_str(p.hour)) + seq![':'] + pad2(part_str(p.minute)) + match p.second {
        Some(s) => pad2(decimal(s as nat)),
        None => Seq::<char>::empty(),
    }
}

fn part_chars(v: Option<u32>) -> (r: Vec<char>)
    ensures
        r@ == part_str(v),
{
    match v {
        Some(n) => u32_decimal(n),
        None => {
            let mut r = Vec::new();
            r.push('~');
            assert(r@ =~= seq!['~']);
            r
        },
    }
}

fn push_padded(out: &mut Vec<char>, s: Vec<char>)
    ensures
        final(out)@ == old(out)@ + pad2(s@),
{
    let ghost before = out@;
    let mut k: usize = s.len();
    while k < 2
        invariant
            s@.len() <= k <= 2 || (k == s@.len() && k >= 2),
            out@ =~= before + Seq::new((k - s@.len()) as nat, |i: int| '0'),
        decreases 2 - k,
    {
        out.push('0');
        k += 1;
    }
    let mut i: usize = 0;
    let ghost mid = out@;
    while i < s.len()
        invariant
            0 <= i <= s@.len(),
            out@ =~= mid + s@.take(i as int),
        decreases s.len() - i,
    {
        out.push(s[i]);
        i += 1;
    }
    assert(s@.take(s@.len() as int) =~= s@);
    proof {
        if s@.len() >= 2 {
            assert(Seq::new((k - s@.len()) as nat, |i: int| '0') =~= Seq::<char>::empty());
        }
    }
}

fn push_all(out: &mut Vec<char>, s: Vec<char>)
    ensures
        final(out)@ == old(out)@ + s@,
{
    let mut t = s;
    out.append(&mut t);
}

impl DateTimeParts {
    /// The text that `Display` writes for these parts.
    pub fn to_display_string(&self) -> (r: String)
        ensures
            r@ == display_spec(*self),
    {
        let mut out: Vec<char> = Vec::new();
        push_all(&mut out, part_chars(self.year));
        out.push('-');
        push_all(&mut out, part_chars(self.month));
        out.push('-');
        push_all(&mut out, part_chars(self.day));
        out.push(' ');
        push_padded(&mut out, part_chars(self.hour));
        out.push(':');
        push_padded(&mut out, part_chars(self.minute));
        match self.second {
            Some(sc) => push_padded(&mut out, u32_decimal(sc)),
            None => {},
        }
        assert(out@ =~= display_spec(*self));
        string_from_chars(out.as_slice())
    }
}

/// A reminder as found in a note: the file, the message, the time stamp's
/// parts, and whether its check box is ticked.
#[derive(Clone, Debug, PartialEq, Eq, Hash)]
pub struct ReminderKey {
    pub file_path: String,
    pub msg: String,
    pub time_parts: DateTimeParts,
    pub completed_checked: bool,
}

pub struct ReminderKeyView {
    pub file_path: Seq<char>,
    pub msg: Seq<char>,
    pub time_parts: DateTimeParts,
    pub completed_checked: bool,
}

impl View for ReminderKey {
    type V = ReminderKeyView;

    open spec fn view(&self) -> ReminderKeyView {
        ReminderKeyView {
            file_path: self.file_path@,
            msg: self.msg@,
            time_parts: self.time_parts,
            completed_checked: self.completed_checked,
        }
    }
}

impl ReminderKey {
    /// Whether two keys name the same reminder (all fields equal).
    pub fn same_as(&self, other: &ReminderKey) -> (r: bool)
        ensures
            r == (self@ == other@),
    {
        let r = self.file_path == other.file_path && self.msg == other.msg
            && self.time_parts == other.time_parts && self.completed_checked
            == other.completed_checked;
        proof {
            if r {
                assert(self@ =~= other@);
            }
        }
        r
    }

    /// A copy of the key.
    pub fn duplicate(&self) -> (r: ReminderKey)
        ensures
            r@ == self@,
    {
        ReminderKey {
            file_path: self.file_path.clone(),
            msg: self.msg.clone(),
            time_parts: self.time_parts,
            completed_checked: self.completed_checked,
        }
    }
}

/// The key of one reminder match found in the file at `path`, or the report
/// for a part of its time stamp that does not read as a number.
pub open spec fn key_spec(path: Seq<char>, c: CapturesView) -> Result<ReminderKeyView, Seq<char>> {
    match parts_spec(c) {
        Err(e) => Err(e),
        Ok(tp) => Ok(
            ReminderKeyView {
                file_path: path,
                msg: match c.message {
                    Some(m) => m,
                    None => Seq::<char>::empty(),
                },
                time_parts: tp,
                completed_checked: match c.checked {
                    Some(x) => x != seq![' '],
                    None => false,
                },
            },
        ),
    }
}

pub open spec fn key_result(r: Result<ReminderKey, String>) -> Result<ReminderKeyView, Seq<char>> {
    match r {
        Ok(k) => Ok(k@),
        Err(e) => Err(e@),
    }
}

/// The reminders of one line, in order.
pub open spec fn line_keys(path: Seq<char>, l: Seq<char>) -> Seq<
    Result<ReminderKeyView, Seq<char>>,
> {
    line_matches(l).map_values(|m: MatchSpec| key_spec(path, captures_spec(l, m)))
}

/// The reminders of the lines `ls`, line after line.
pub open spec fn lines_keys(path: Seq<char>, ls: Seq<Seq<char>>) -> Seq<
    Result<ReminderKeyView, Seq<char>>,
>
    decreases ls.len(),
{
    if ls.len() == 0 {
        seq![]
    } else {
        lines_keys(path, ls.drop_last()) + line_keys(path, ls.last())
    }
}

/// The reminders of a note's text: those of each of its lines (as `str::lines`
/// splits it), in order.
pub open spec fn text_keys(path: Seq<char>, text: Seq<char>) -> Seq<
    Result<ReminderKeyView, Seq<char>>,
> {
    lines_keys(path, lines_of(text))
}

impl ReminderKey {
    /// The key of one reminder match of the file at `file_path`.
    pub fn from_captures(file_path: &str, cap: &ReminderCaptures) -> (r: Result<ReminderKey, String>)
        ensures
            key_result(r) == key_spec(file_path@, cap@),
    {
        let time_parts = match DateTimeParts::new(cap) {
            Ok(v) => v,
            Err(e) => {
                return Err(e);
            },
        };
        let msg = match &cap.message {
            Some(m) => m.clone(),
            None => String::new(),
        };
        let completed_checked = match &cap.checked {
            Some(c) => {
                let cs = chars_of(c.as_str());
                let unticked = cs.len() == 1 && cs[0] == ' ';
                proof {
                    if unticked {
                        assert(c@ =~= seq![' ']);
                    } else {
                        assert(c@.len() != 1 || c@[0] != ' ');
                    }
                }
                !unticked
            },
            None => false,
        };
        Ok(ReminderKey { file_path: String::from_str(file_path), msg, time_parts, completed_checked })
    }
}

/// The reminders of one line, read as the reminder pattern's `captures_iter`.
pub fn reminder_captures(line: &[char]) -> (r: Vec<ReminderCaptures>)
    ensures
        r@.len() == line_matches(line@).len(),
        forall|i: int|
            0 <= i < r@.len() ==> #[trigger] r@[i]@ == captures_spec(line@, line_matches(line@)[i]),
{
    let ms = line_reminders(line);
    proof {
        lemma_matches_in_line(line@, 0);
    }
    let mut out: Vec<ReminderCaptures> = Vec::new();
    let mut i: usize = 0;
    while i < ms.len()
        invariant
            0 <= i <= ms@.len(),
            ms@.len() == line_matches(line@).len(),
            forall|k: int| 0 <= k < ms@.len() ==> #[trigger] ms@[k]@ == line_matches(line@)[k],
            forall|k: int|
                0 <= k < line_matches(line@).len() ==> match_in_line(
                    line@,
                    #[trigger] line_matches(line@)[k],
                ),
            out@.len() == i,
            forall|k: int|
                0 <= k < i ==> #[trigger] out@[k]@ == captures_spec(line@, line_matches(line@)[k]),
        decreases ms.len() - i,
    {
        let c = captures_of(line, ms[i]);
        out.push(c);
        i += 1;
    }
    out
}

/// The reminders of a note's text, in order, each as its key or as the report
/// for a time stamp that does not read.
pub fn reminders_in_text(file_path: &str, text: &str) -> (r: Vec<Result<ReminderKey, String>>)
    ensures
        r@.len() == text_keys(file_path@, text@).len(),
        forall|i: int|
            0 <= i < r@.len() ==> #[trigger] key_result(r@[i]) == text_keys(file_path@, text@)[i],
{
    let chars = chars_of(text);
    let lines = split_lines(&chars);
    let ghost ls = lines_of(text@);
    let mut out: Vec<Result<ReminderKey, String>> = Vec::new();
    let mut li: usize = 0;
    while li < lines.len()
        invariant
            0 <= li <= lines@.len(),
            lines@.len() == ls.len(),
            forall|k: int| 0 <= k < lines@.len() ==> #[trigger] lines@[k]@ == ls[k],
            out@.len() == lines_keys(file_path@, ls.take(li as int)).len(),
            forall|k: int|
                0 <= k < out@.len() ==> #[trigger] key_result(out@[k]) == lines_keys(
                    file_path@,
                    ls.take(li as int),
                )[k],
        decreases lines.len() - li,
    {
        let line = lines[li].as_slice();
        let caps = reminder_captures(line);
        let ghost before = lines_keys(file_path@, ls.take(li as int));
        let ghost lk = line_keys(file_path@, ls[li as int]);
        let mut j: usize = 0;
        while j < caps.len()
            invariant
                0 <= j <= caps@.len(),
                line@ == ls[li as int],
                caps@.len() == line_matches(line@).len(),
                forall|k: int|
                    0 <= k < caps@.len() ==> #[trigger] caps@[k]@ == captures_spec(
                        line@,
                        line_matches(line@)[k],
                    ),
                lk == line_keys(file_path@, ls[li as int]),
                out@.len() == before.len() + j,
                forall|k: int| 0 <= k < before.len() ==> #[trigger] key_result(out@[k]) == before[k],
                forall|k: int|
                    0 <= k < j ==> #[trigger] key_result(out@[before.len() + k]) == lk[k],
            decreases caps.len() - j,
        {
            let r = ReminderKey::from_captures(file_path, &caps[j]);
            out.push(r);
            proof {
                assert(key_result(out@[before.len() + j]) == lk[j as int]);
            }
            j += 1;
        }
        proof {
            assert(ls.take(li + 1).drop_last() =~= ls.take(li as int));
            assert(ls.take(li + 1).last() == ls[li as int]);
            let after = lines_keys(file_path@, ls.take(li + 1));
            assert(after == before + lk);
            assert forall|k: int| 0 <= k < out@.len() implies #[trigger] key_result(out@[k])
                == after[k] by {
                if k >= before.len() {
                    assert(key_result(out@[before.len() + (k - before.len())]) == lk[k
                        - before.len()]);
                }
            }
        }
        li += 1;
    }
    proof {
        assert(ls.take(ls.len() as int) =~= ls);
    }
    out
}


/// The calendar time a reminder aims at, its parts filled in from the clock.
#[derive(Clone, Copy, Debug, PartialEq, Eq, Structural)]
pub struct TargetFields {
    pub year: i32,
    pub month: u32,
    pub day: u32,
    pub hour: u32,
    pub minute: u32,
    pub second: u32,
}

/// The year of the current century that a two-digit year `yy` stands for.
pub open spec fn century_year(now_year: i32, yy: u32) -> int {
    (now_year / 100) * 100 + yy
}

/// The time a reminder aims at, read at clock time `now`. A part the time
/// stamp gives is taken as it is (a two-digit year in the current century);
/// a missing date part is today's; a missing hour is the current hour at the
/// top of an hour (minute 0 or 59) and the next hour otherwise; a missing
/// minute is the current minute at the top of an hour and 0 otherwise; a
/// missing second is 0.
pub open spec fn target_fields_spec(p: DateTimeParts, now: LocalNow) -> TargetFields {
    let top_of_hour = now.minute == 0 || now.minute == 59;
    TargetFields {
        year: match p.year {
            Some(y) => if p.short_year && y < 100 {
                century_year(now.year, y) as i32
            } else {
                y as i32
            },
            None => now.year,
        },
        month: match p.month {
            Some(v) => v,
            None => now.month,
        },
        day: match p.day {
            Some(v) => v,
            None => now.day,
        },
        hour: match p.hour {
            Some(v) => v,
            None => if top_of_hour {
                now.hour
            } else {
                (now.hour + 1) as u32
            },
        },
        minute: match p.minute {
            Some(v) => v,
            None => if top_of_hour {
                now.minute
            } else {
                0
            },
        },
        second: match p.second {
            Some(v) => v,
            None => 0,
        },
    }
}

/// The given parts of a time stamp can name a calendar time: they lie in
/// their ranges.
pub open spec fn given_parts_in_range(p: DateTimeParts) -> bool {
    &&& (p.month matches Some(v) ==> 1 <= v <= 12)
    &&& (p.day matches Some(v) ==> 1 <= v <= 31)
    &&& (p.hour matches Some(v) ==> v <= 23)
    &&& (p.minute matches Some(v) ==> v <= 59)
    &&& (p.second matches Some(v) ==> v <= 59)
}

/// What a local time resolved from the calendar time `f` can be: nothing
/// where `f` names no calendar time, and otherwise instants on whole seconds
/// within a day of `f` read as UTC (or nothing, where the time zone skips
/// `f`).
pub open spec fn aims_at(time: LocalTime, f: TargetFields) -> bool {
    &&& !(fields_in_range(f.month, f.day, f.hour, f.minute, f.second) && date_exists(f.year as int, f.month as int, f.day as int))
        ==> time == LocalTime::Unresolved
    &&& resolved_within_a_day_of(
        time,
        calendar_seconds(f.year as int, f.month as int, f.day as int, f.hour as int, f.minute as int, f.second as int),
    )
    &&& (time matches LocalTime::Single(t) ==> t.nanos == 0)
    &&& (time matches LocalTime::Ambiguous(a, b) ==> a.nanos == 0 && b.nanos == 0)
}

impl DateTimeParts {
    /// The calendar time these parts aim at when the clock reads `now`.
    pub fn target_fields(&self, now: &LocalNow) -> (r: TargetFields)
        requires
            1969 <= now.year <= 262144,
            now.hour <= 23,
        ensures
            r == target_fields_spec(*self, *now),
    {
        let top_of_hour = now.minute == 0 || now.minute == 59;
        let year = match self.year {
            Some(y) => if self.short_year && y < 100 {
                (now.year / 100) * 100 + (y as i32)
            } else {
                y as i32
            },
            None => now.year,
        };
        TargetFields {
            year,
            month: match self.month {
                Some(v) => v,
                None => now.month,
            },
            day: match self.day {
                Some(v) => v,
                None => now.day,
            },
            hour: match self.hour {
                Some(v) => v,
                None => if top_of_hour {
                    now.hour
                } else {
                    now.hour + 1
                },
            },
            minute: match self.minute {
                Some(v) => v,
                None => if top_of_hour {
                    now.minute
                } else {
                    0
                },
            },
            second: match self.second {
                Some(v) => v,
                None => 0,
            },
        }
    }

    /// The local time these parts aim at when the clock reads `now`. A
    /// calendar time out of range (such as hour 24 when the hour is left out
    /// and the clock reads 23:30, or February 30) resolves to nothing; which
    /// instant a valid time resolves to is up to the local time zone, and
    /// lies within a day of that calendar time read as UTC.
    pub fn get_target_time_at(&self, now: &LocalNow) -> (r: ResolvedTime)
        requires
            1969 <= now.year <= 262144,
            now.hour <= 23,
        ensures
            aims_at(r.time, target_fields_spec(*self, *now)),
    {
        let f = self.target_fields(now);
        local_ymd_hms(f.year, f.month, f.day, f.hour, f.minute, f.second)
    }

    /// The local time these parts aim at, the missing parts taken from the
    /// local clock now. Parts given out of range resolve to nothing. `None`
    /// when the local clock cannot be read (it reads before the epoch).
    pub fn get_target_time(&self) -> (r: Option<ResolvedTime>)
        ensures
            r matches Some(t) ==> (!given_parts_in_range(*self) ==> t.time == LocalTime::Unresolved),
            r matches Some(t) ==> exists|now: LocalNow|
                #[trigger] clock_reading(now) && aims_at(t.time, target_fields_spec(*self, now)),
    {
        let now = match now() {
            Some(n) => n,
            None => return None,
        };
        let r = self.get_target_time_at(&now);
        assert(clock_reading(now));
        Some(r)
    }
}

} // verus!

verus! {

/// A reminder without a date goes off today: its date is the clock's.
pub proof fn law_dateless_reminder_is_for_today(p: DateTimeParts, now: LocalNow)
    requires
        p.year is None,
        p.month is None,
        p.day is None,
    ensures
        target_fields_spec(p, now).year == now.year,
        target_fields_spec(p, now).month == now.month,
        target_fields_spec(p, now).day == now.day,
{
}

/// A time of day without seconds means second 0; a given hour and minute are
/// kept as written.
pub proof fn law_time_of_day_as_written(p: DateTimeParts, now: LocalNow)
    ensures
        p.second is None ==> target_fields_spec(p, now).second == 0,
        p.hour matches Some(h) ==> target_fields_spec(p, now).hour == h,
        p.minute matches Some(m) ==> target_fields_spec(p, now).minute == m,
        p.second matches Some(s) ==> target_fields_spec(p, now).second == s,
{
}

/// A month and a day given in the time stamp are aimed at as written: the
/// month as the month and the day as the day, whatever their values.
pub proof fn law_date_as_written(p: DateTimeParts, now: LocalNow)
    ensures
        p.month matches Some(m) ==> target_fields_spec(p, now).month == m,
        p.day matches Some(d) ==> target_fields_spec(p, now).day == d,
{
}

/// A time stamp without a time of day aims at the coming top of the hour:
/// the minute of the day aimed at is not before the clock's, at most an hour
/// after it, and on a full hour unless it is the clock's own minute (the
/// clock reading minute 0 or 59 aims at that very minute).
pub proof fn law_missing_time_aims_at_top_of_hour(p: DateTimeParts, now: LocalNow)
    requires
        p.hour is None,
        p.minute is None,
        now.hour <= 23,
        now.minute <= 59,
    ensures
        ({
            let f = target_fields_spec(p, now);
            let aimed = f.hour * 60 + f.minute;
            let clock = now.hour * 60 + now.minute;
            &&& clock <= aimed <= clock + 60
            &&& (f.minute == 0 || aimed == clock)
            &&& (now.minute != 0 && now.minute != 59 ==> f.hour == now.hour + 1 && f.minute == 0)
        }),
{
}

/// A two-digit year stands for that year of the current century; a
/// four-digit year for itself.
pub proof fn law_year_as_written(p: DateTimeParts, now: LocalNow, y: u32)
    requires
        p.year == Some(y),
        y <= 9999,
        1969 <= now.year <= 262144,
    ensures
        p.short_year && y < 100 ==> target_fields_spec(p, now).year == (now.year / 100) * 100 + y,
        !p.short_year ==> target_fields_spec(p, now).year == y,
{
}

/// A reminder's key reads the check box as the notes show it: ticked by any
/// character but a space, and not ticked without a box.
pub proof fn law_check_box_read(path: Seq<char>, c: CapturesView)
    requires
        parts_spec(c) is Ok,
    ensures
        key_spec(path, c) matches Ok(k) && k.completed_checked == (c.checked matches Some(x) && x != seq![' ']),
{
}

} // verus!

verus! {

/// The number `10^n`.
pub open spec fn pow10(n: nat) -> nat
    decreases n,
{
    if n == 0 {
        1
    } else {
        10 * pow10((n - 1) as nat)
    }
}

/// Up to four ASCII digits.
pub open spec fn short_ascii_number(t: Option<Seq<char>>) -> bool {
    t matches Some(v) ==> 1 <= v.len() <= 4 && forall|i: int| 0 <= i < v.len() ==> is_ascii_digit(#[trigger] v[i])
}

proof fn lemma_read_short_digits(d: Seq<char>, i: int, acc: int)
    requires
        0 <= i <= d.len() <= 4,
        0 <= acc < pow10(i as nat),
        forall|k: int| 0 <= k < d.len() ==> is_ascii_digit(#[trigger] d[k]),
    ensures
        read_digits(d, i, acc) is Ok,
    decreases d.len() - i,
{
    if i < d.len() {
        let v = ascii_digit_value(d[i]);
        assert(0 <= v <= 9);
        assert(pow10((i + 1) as nat) == 10 * pow10(i as nat));
        assert(pow10(4) == 10000) by {
            reveal_with_fuel(pow10, 5);
        }
        assert(acc * 10 + v < pow10((i + 1) as nat)) by (nonlinear_arith)
            requires
                acc < pow10(i as nat),
                pow10((i + 1) as nat) == 10 * pow10(i as nat),
                0 <= v <= 9,
        ;
        lemma_pow10_mono(i + 1);
        lemma_read_short_digits(d, i + 1, acc * 10 + v);
    }
}

proof fn lemma_pow10_mono(n: int)
    requires
        0 <= n <= 4,
    ensures
        pow10(n as nat) <= 10000,
{
    reveal_with_fuel(pow10, 5);
}

/// A time stamp whose parts are written with ASCII digits always reads: the
/// report for a part that does not read as a number only comes with digits
/// of other scripts.
pub proof fn law_ascii_time_stamps_always_read(c: CapturesView)
    requires
        short_ascii_number(c.year),
        short_ascii_number(c.month),
        short_ascii_number(c.day),
        short_ascii_number(c.hour),
        short_ascii_number(c.minute),
        short_ascii_number(c.second),
    ensures
        parts_spec(c) is Ok,
{
    assert(pow10(0) == 1);
    let parts = seq![c.year, c.month, c.day, c.hour, c.minute, c.second];
    assert forall|k: int| 0 <= k < 6 implies (#[trigger] part_value(parts[k])) is Ok by {
        match parts[k] {
            Some(v) => {
                assert(v[0] != '+' && v[0] != '-');
                lemma_read_short_digits(v, 0, 0);
            },
            None => {},
        }
    }
    assert(part_value(parts[0]) is Ok);
    assert(part_value(parts[1]) is Ok);
    assert(part_value(parts[2]) is Ok);
    assert(part_value(parts[3]) is Ok);
    assert(part_value(parts[4]) is Ok);
    assert(part_value(parts[5]) is Ok);
}

} // verus!
