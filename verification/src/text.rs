//! Character-level helpers shared by the note parsers: Unicode classes,
//! conversions between `str`, `String` and `Vec<char>`, decimal rendering and
//! the line splitting of `str::lines`.
use vstd::prelude::*;

verus! {

/// Unicode `White_Space`: the class `\s` of the note grammars, and the set
/// that `char::is_whitespace` (hence `str::trim`) uses.
pub open spec fn is_white_space(c: char) -> bool {
    let v = c as u32;
    ||| 0x9 <= v <= 0xD
    ||| v == 0x20
    ||| v == 0x85
    ||| v == 0xA0
    ||| v == 0x1680
    ||| 0x2000 <= v <= 0x200A
    ||| v == 0x2028
    ||| v == 0x2029
    ||| v == 0x202F
    ||| v == 0x205F
    ||| v == 0x3000
}

pub fn white_space(c: char) -> (r: bool)
    ensures
        r == is_white_space(c),
{
    let v = c as u32;
    (0x9 <= v && v <= 0xD) || v == 0x20 || v == 0x85 || v == 0xA0 || v == 0x1680 || (0x2000
        <= v && v <= 0x200A) || v == 0x2028 || v == 0x2029 || v == 0x202F || v == 0x205F || v
        == 0x3000
}

/// Unicode general category `Nd` (Unicode 16.0): the class `\d` of the note
/// grammars.
pub open spec fn is_decimal_digit(c: char) -> bool {
    let v = c as u32;
    ||| 0x30 <= v <= 0x39
    ||| 0x660 <= v <= 0x669
    ||| 0x6F0 <= v <= 0x6F9
    ||| 0x7C0 <= v <= 0x7C9
    ||| 0x966 <= v <= 0x96F
    ||| 0x9E6 <= v <= 0x9EF
    ||| 0xA66 <= v <= 0xA6F
    ||| 0xAE6 <= v <= 0xAEF
    ||| 0xB66 <= v <= 0xB6F
    ||| 0xBE6 <= v <= 0xBEF
    ||| 0xC66 <= v <= 0xC6F
    ||| 0xCE6 <= v <= 0xCEF
    ||| 0xD66 <= v <= 0xD6F
    ||| 0xDE6 <= v <= 0xDEF
    ||| 0xE50 <= v <= 0xE59
    ||| 0xED0 <= v <= 0xED9
    ||| 0xF20 <= v <= 0xF29
    ||| 0x1040 <= v <= 0x1049
    ||| 0x1090 <= v <= 0x1099
    ||| 0x17E0 <= v <= 0x17E9
    ||| 0x1810 <= v <= 0x1819
    ||| 0x1946 <= v <= 0x194F
    ||| 0x19D0 <= v <= 0x19D9
    ||| 0x1A80 <= v <= 0x1A89
    ||| 0x1A90 <= v <= 0x1A99
    ||| 0x1B50 <= v <= 0x1B59
    ||| 0x1BB0 <= v <= 0x1BB9
    ||| 0x1C40 <= v <= 0x1C49
    ||| 0x1C50 <= v <= 0x1C59
    ||| 0xA620 <= v <= 0xA629
    ||| 0xA8D0 <= v <= 0xA8D9
    ||| 0xA900 <= v <= 0xA909
    ||| 0xA9D0 <= v <= 0xA9D9
    ||| 0xA9F0 <= v <= 0xA9F9
    ||| 0xAA50 <= v <= 0xAA59
    ||| 0xABF0 <= v <= 0xABF9
    ||| 0xFF10 <= v <= 0xFF19
    ||| 0x104A0 <= v <= 0x104A9
    ||| 0x10D30 <= v <= 0x10D39
    ||| 0x10D40 <= v <= 0x10D49
    ||| 0x11066 <= v <= 0x1106F
    ||| 0x110F0 <= v <= 0x110F9
    ||| 0x11136 <= v <= 0x1113F
    ||| 0x111D0 <= v <= 0x111D9
    ||| 0x112F0 <= v <= 0x112F9
    ||| 0x11450 <= v <= 0x11459
    ||| 0x114D0 <= v <= 0x114D9
    ||| 0x11650 <= v <= 0x11659
    ||| 0x116C0 <= v <= 0x116C9
    ||| 0x116D0 <= v <= 0x116E3
    ||| 0x11730 <= v <= 0x11739
    ||| 0x118E0 <= v <= 0x118E9
    ||| 0x11950 <= v <= 0x11959
    ||| 0x11BF0 <= v <= 0x11BF9
    ||| 0x11C50 <= v <= 0x11C59
    ||| 0x11D50 <= v <= 0x11D59
    ||| 0x11DA0 <= v <= 0x11DA9
    ||| 0x11F50 <= v <= 0x11F59
    ||| 0x16130 <= v <= 0x16139
    ||| 0x16A60 <= v <= 0x16A69
    ||| 0x16AC0 <= v <= 0x16AC9
    ||| 0x16B50 <= v <= 0x16B59
    ||| 0x16D70 <= v <= 0x16D79
    ||| 0x1CCF0 <= v <= 0x1CCF9
    ||| 0x1D7CE <= v <= 0x1D7FF
    ||| 0x1E140 <= v <= 0x1E149
    ||| 0x1E2F0 <= v <= 0x1E2F9
    ||| 0x1E4F0 <= v <= 0x1E4F9
    ||| 0x1E5F1 <= v <= 0x1E5FA
    ||| 0x1E950 <= v <= 0x1E959
    ||| 0x1FBF0 <= v <= 0x1FBF9
}

pub fn decimal_digit(c: char) -> (r: bool)
    ensures
        r == is_decimal_digit(c),
{
    let v = c as u32;
    if v < 0x80 {
        return 0x30 <= v && v <= 0x39;
    }
    (0x660 <= v && v <= 0x669) || (0x6F0 <= v && v <= 0x6F9) || (0x7C0 <= v && v <= 0x7C9) || (
    0x966 <= v && v <= 0x96F) || (0x9E6 <= v && v <= 0x9EF) || (0xA66 <= v && v <= 0xA6F) || (
    0xAE6 <= v && v <= 0xAEF) || (0xB66 <= v && v <= 0xB6F) || (0xBE6 <= v && v <= 0xBEF) || (
    0xC66 <= v && v <= 0xC6F) || (0xCE6 <= v && v <= 0xCEF) || (0xD66 <= v && v <= 0xD6F) || (
    0xDE6 <= v && v <= 0xDEF) || (0xE50 <= v && v <= 0xE59) || (0xED0 <= v && v <= 0xED9) || (
    0xF20 <= v && v <= 0xF29) || (0x1040 <= v && v <= 0x1049) || (0x1090 <= v && v <= 0x1099)
        || (0x17E0 <= v && v <= 0x17E9) || (0x1810 <= v && v <= 0x1819) || (0x1946 <= v && v
        <= 0x194F) || (0x19D0 <= v && v <= 0x19D9) || (0x1A80 <= v && v <= 0x1A89) || (0x1A90
        <= v && v <= 0x1A99) || (0x1B50 <= v && v <= 0x1B59) || (0x1BB0 <= v && v <= 0x1BB9)
        || (0x1C40 <= v && v <= 0x1C49) || (0x1C50 <= v && v <= 0x1C59) || (0xA620 <= v && v
        <= 0xA629) || (0xA8D0 <= v && v <= 0xA8D9) || (0xA900 <= v && v <= 0xA909) || (0xA9D0
        <= v && v <= 0xA9D9) || (0xA9F0 <= v && v <= 0xA9F9) || (0xAA50 <= v && v <= 0xAA59)
        || (0xABF0 <= v && v <= 0xABF9) || (0xFF10 <= v && v <= 0xFF19) || (0x104A0 <= v && v
        <= 0x104A9) || (0x10D30 <= v && v <= 0x10D39) || (0x10D40 <= v && v <= 0x10D49) || (
    0x11066 <= v && v <= 0x1106F) || (0x110F0 <= v && v <= 0x110F9) || (0x11136 <= v && v
        <= 0x1113F) || (0x111D0 <= v && v <= 0x111D9) || (0x112F0 <= v && v <= 0x112F9) || (
    0x11450 <= v && v <= 0x11459) || (0x114D0 <= v && v <= 0x114D9) || (0x11650 <= v && v
        <= 0x11659) || (0x116C0 <= v && v <= 0x116C9) || (0x116D0 <= v && v <= 0x116E3) || (
    0x11730 <= v && v <= 0x11739) || (0x118E0 <= v && v <= 0x118E9) || (0x11950 <= v && v
        <= 0x11959) || (0x11BF0 <= v && v <= 0x11BF9) || (0x11C50 <= v && v <= 0x11C59) || (
    0x11D50 <= v && v <= 0x11D59) || (0x11DA0 <= v && v <= 0x11DA9) || (0x11F50 <= v && v
        <= 0x11F59) || (0x16130 <= v && v <= 0x16139) || (0x16A60 <= v && v <= 0x16A69) || (
    0x16AC0 <= v && v <= 0x16AC9) || (0x16B50 <= v && v <= 0x16B59) || (0x16D70 <= v && v
        <= 0x16D79) || (0x1CCF0 <= v && v <= 0x1CCF9) || (0x1D7CE <= v && v <= 0x1D7FF) || (
    0x1E140 <= v && v <= 0x1E149) || (0x1E2F0 <= v && v <= 0x1E2F9) || (0x1E4F0 <= v && v
        <= 0x1E4F9) || (0x1E5F1 <= v && v <= 0x1E5FA) || (0x1E950 <= v && v <= 0x1E959) || (
    0x1FBF0 <= v && v <= 0x1FBF9)
}

/// The characters of a string slice, in order.
pub fn chars_of(s: &str) -> (r: Vec<char>)
    ensures
        r@ == s@,
{
    let mut v: Vec<char> = Vec::new();
    for c in it: s.chars()
        invariant
            v@ == it.seq().take(it.index() as int),
    {
        v.push(c);
    }
    v
}

/// `String::from_iter` over characters: the string whose characters are `v`.
#[verifier::external_body]
pub(crate) fn string_from_chars(v: &[char]) -> (r: String)
    ensures
        r@ == v@,
{
    v.iter().collect()
}

/// The decimal digits of `n` as `Display` for unsigned integers writes them:
/// no sign, no leading zeros, `"0"` for zero.
pub open spec fn decimal(n: nat) -> Seq<char>
    decreases n,
{
    if n < 10 {
        seq![digit_char(n)]
    } else {
        decimal(n / 10).push(digit_char(n % 10))
    }
}

pub open spec fn digit_char(d: nat) -> char {
    if d == 0 {
        '0'
    } else if d == 1 {
        '1'
    } else if d == 2 {
        '2'
    } else if d == 3 {
        '3'
    } else if d == 4 {
        '4'
    } else if d == 5 {
        '5'
    } else if d == 6 {
        '6'
    } else if d == 7 {
        '7'
    } else if d == 8 {
        '8'
    } else {
        '9'
    }
}

fn digit_of(d: u32) -> (c: char)
    requires
        d < 10,
    ensures
        c == digit_char(d as nat),
{
    if d == 0 {
        '0'
    } else if d == 1 {
        '1'
    } else if d == 2 {
        '2'
    } else if d == 3 {
        '3'
    } else if d == 4 {
        '4'
    } else if d == 5 {
        '5'
    } else if d == 6 {
        '6'
    } else if d == 7 {
        '7'
    } else if d == 8 {
        '8'
    } else {
        '9'
    }
}

/// Renders `n` in decimal, as `n.to_string()` does.
pub fn u32_decimal(n: u32) -> (r: Vec<char>)
    ensures
        r@ == decimal(n as nat),
    decreases n,
{
    if n < 10 {
        let mut v = Vec::new();
        v.push(digit_of(n));
        v
    } else {
        let mut v = u32_decimal(n / 10);
        v.push(digit_of(n % 10));
        v
    }
}

/// The pieces that `str::lines` yields: the text split at each `'\n'`, one
/// `'\r'` removed from the end of each piece that a `'\n'` ended, and no empty
/// piece after a final `'\n'`.
pub open spec fn lines_of(s: Seq<char>) -> Seq<Seq<char>>
    decreases s.len(),
{
    if s.len() == 0 {
        seq![]
    } else {
        let i = first_newline(s, 0);
        if i >= s.len() {
            seq![s]
        } else {
            proof {
                lemma_first_newline(s, 0);
            }
            seq![strip_cr(s.take(i))] + lines_of(s.skip(i + 1))
        }
    }
}

/// The index of the first `'\n'` at or after `i`, or `s.len()` where none is.
pub open spec fn first_newline(s: Seq<char>, i: int) -> int
    decreases s.len() - i,
{
    if i >= s.len() {
        s.len() as int
    } else if s[i] == '\n' {
        i
    } else {
        first_newline(s, i + 1)
    }
}

pub open spec fn strip_cr(s: Seq<char>) -> Seq<char> {
    if s.len() > 0 && s.last() == '\r' {
        s.drop_last()
    } else {
        s
    }
}

pub proof fn lemma_first_newline(s: Seq<char>, i: int)
    requires
        0 <= i <= s.len(),
    ensures
        i <= first_newline(s, i) <= s.len(),
        first_newline(s, i) < s.len() ==> s[first_newline(s, i)] == '\n',
        forall|j: int| i <= j < first_newline(s, i) ==> s[j] != '\n',
    decreases s.len() - i,
{
    if i < s.len() && s[i] != '\n' {
        lemma_first_newline(s, i + 1);
    }
}

/// Splits text into lines as `str::lines` does.
pub fn split_lines(s: &Vec<char>) -> (r: Vec<Vec<char>>)
    ensures
        r@.len() == lines_of(s@).len(),
        forall|k: int| 0 <= k < r@.len() ==> #[trigger] r@[k]@ == lines_of(s@)[k],
{
    let mut out: Vec<Vec<char>> = Vec::new();
    let mut start: usize = 0;
    proof {
        assert(s@.skip(0) =~= s@);
    }
    while start < s.len()
        invariant
            start <= s.len(),
            lines_of(s@) =~= out@.map_values(|l: Vec<char>| l@) + lines_of(s@.skip(start as int)),
        decreases s.len() - start,
    {
        let ghost rest = s@.skip(start as int);
        let mut line: Vec<char> = Vec::new();
        let mut j = start;
        while j < s.len() && s[j] != '\n'
            invariant
                start <= j <= s.len(),
                line@ =~= s@.subrange(start as int, j as int),
                forall|t: int| start <= t < j ==> s@[t] != '\n',
            decreases s.len() - j,
        {
            line.push(s[j]);
            j += 1;
        }
        proof {
            lemma_first_newline(rest, 0);
            lemma_newline_offset(s@, start as int, j as int);
        }
        if j < s.len() {
            if line.len() > 0 && line[line.len() - 1] == '\r' {
                line.pop();
            }
            proof {
                assert(rest.take(j - start) =~= s@.subrange(start as int, j as int));
                assert(rest.skip(j - start + 1) =~= s@.skip(j + 1));
            }
            out.push(line);
            start = j + 1;
        } else {
            proof {
                assert(rest =~= s@.subrange(start as int, j as int));
                assert(s@.skip(s@.len() as int) =~= Seq::<char>::empty());
            }
            out.push(line);
            start = j;
        }
    }
    proof {
        assert(s@.skip(start as int) =~= Seq::<char>::empty());
    }
    out
}

proof fn lemma_newline_offset(s: Seq<char>, start: int, j: int)
    requires
        0 <= start <= j <= s.len(),
        forall|t: int| start <= t < j ==> s[t] != '\n',
        j < s.len() ==> s[j] == '\n',
    ensures
        first_newline(s.skip(start), 0) == j - start,
{
    let r = s.skip(start);
    lemma_first_newline(r, 0);
    let f = first_newline(r, 0);
    if f < j - start {
        assert(r[f] == s[start + f]);
    }
    if f > j - start {
        assert(r[j - start] == s[j]);
    }
}

} // verus!

verus! {

pub open spec fn opt_string(o: Option<String>) -> Option<Seq<char>> {
    match o {
        Some(s) => Some(s@),
        None => None,
    }
}

/// `s` ends with `suffix`.
pub open spec fn ends_with(s: Seq<char>, suffix: Seq<char>) -> bool {
    suffix.len() <= s.len() && s.skip(s.len() - suffix.len()) == suffix
}

/// `s` contains `needle` somewhere.
pub open spec fn contains_seq(s: Seq<char>, needle: Seq<char>) -> bool {
    exists|i: int| 0 <= i <= s.len() - needle.len() && #[trigger] s.subrange(i, i + needle.len()) == needle
}

/// `s[i..i + needle.len()]` is `needle`.
pub fn matches_at(s: &[char], i: usize, needle: &[char]) -> (r: bool)
    ensures
        r == (i + needle@.len() <= s@.len() && s@.subrange(i as int, i + needle@.len()) == needle@),
{
    if i > s.len() || needle.len() > s.len() - i {
        return false;
    }
    let mut k: usize = 0;
    while k < needle.len()
        invariant
            i + needle@.len() <= s.len(),
            0 <= k <= needle@.len(),
            forall|t: int| 0 <= t < k ==> s@[i + t] == needle@[t],
        decreases needle.len() - k,
    {
        if s[i + k] != needle[k] {
            assert(s@.subrange(i as int, i + needle@.len())[k as int] != needle@[k as int]);
            return false;
        }
        k += 1;
    }
    assert(s@.subrange(i as int, i + needle@.len()) =~= needle@);
    true
}

/// Whether `s` contains `needle`.
pub fn contains_chars(s: &[char], needle: &[char]) -> (r: bool)
    ensures
        r == contains_seq(s@, needle@),
{
    if needle.len() > s.len() {
        return false;
    }
    if needle.len() == 0 {
        assert(s@.subrange(0, 0 + needle@.len() as int) =~= needle@);
        return true;
    }
    let mut i: usize = 0;
    while i <= s.len() - needle.len()
        invariant
            1 <= needle@.len() <= s.len(),
            0 <= i <= s@.len() - needle@.len() + 1,
            forall|j: int| 0 <= j < i ==> #[trigger] s@.subrange(j, j + needle@.len()) != needle@,
        decreases s.len() - needle.len() + 1 - i,
    {
        if matches_at(s, i, needle) {
            return true;
        }
        i += 1;
    }
    false
}

/// Whether `s` ends with `suffix`.
pub fn ends_with_chars(s: &[char], suffix: &[char]) -> (r: bool)
    ensures
        r == ends_with(s@, suffix@),
{
    if suffix.len() > s.len() {
        return false;
    }
    let r = matches_at(s, s.len() - suffix.len(), suffix);
    proof {
        assert(s@.skip(s@.len() - suffix@.len()) =~= s@.subrange(
            s@.len() - suffix@.len(),
            s@.len() as int,
        ));
    }
    r
}

} // verus!

verus! {

/// The length in bytes of the UTF-8 encoding of `s`, as `str::len` reports
/// it.
pub open spec fn utf8_len(s: Seq<char>) -> usize {
    vstd::utf8::encode_utf8(s).len() as usize
}

} // verus!

verus! {

/// No line that `str::lines` yields holds a line feed.
pub proof fn law_lines_hold_no_line_feed(s: Seq<char>)
    ensures
        forall|k: int, i: int|
            0 <= k < lines_of(s).len() && 0 <= i < lines_of(s)[k].len() ==> #[trigger] lines_of(s)[k][i] != '\n',
    decreases s.len(),
{
    if s.len() > 0 {
        lemma_first_newline(s, 0);
        let f = first_newline(s, 0);
        if f < s.len() {
            law_lines_hold_no_line_feed(s.skip(f + 1));
            let first = strip_cr(s.take(f));
            let rest = lines_of(s.skip(f + 1));
            assert(lines_of(s) == seq![first] + rest);
            assert forall|k: int, i: int|
                0 <= k < lines_of(s).len() && 0 <= i < lines_of(s)[k].len() implies #[trigger] lines_of(s)[k][i] != '\n' by {
                if k == 0 {
                    assert(lines_of(s)[0] == first);
                    assert(first[i] == s[i]);
                } else {
                    assert(lines_of(s)[k] == rest[k - 1]);
                }
            }
        } else {
            assert forall|k: int, i: int|
                0 <= k < lines_of(s).len() && 0 <= i < lines_of(s)[k].len() implies #[trigger] lines_of(s)[k][i] != '\n' by {
                assert(lines_of(s)[k] == s);
            }
        }
    }
}

} // verus!
