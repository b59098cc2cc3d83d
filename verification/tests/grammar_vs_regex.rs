//! The reminder grammar read by the library, compared with the same grammar
//! written as a `regex` pattern, on many generated lines.
use obsidian_notifications::file_scanner::time_reminder::model::reminder_captures;
use obsidian_notifications::text::chars_of;
use regex::Regex;

const PATTERN: &str = r#"(?:- (?<checkbox>\[(?<checked>.)])?)\s?(?<message>.*)\(@(?<date>(?<year>\d{2}|\d{4}).(?<month>\d{1,2}).(?<day>\d{1,2}))?(?: (?<time>(?<hour>\d{1,2}):?(?<minute>\d{2})(?::?(?<second>\d{2}))?))?\)"#;

fn regex_captures(re: &Regex, line: &str) -> Vec<Vec<Option<String>>> {
    re.captures_iter(line)
        .map(|c| {
            ["checked", "message", "year", "month", "day", "hour", "minute", "second"]
                .iter()
                .map(|n| c.name(n).map(|m| m.as_str().to_string()))
                .collect()
        })
        .collect()
}

fn library_captures(line: &str) -> Vec<Vec<Option<String>>> {
    reminder_captures(&chars_of(line))
        .into_iter()
        .map(|c| vec![c.checked, c.message, c.year, c.month, c.day, c.hour, c.minute, c.second])
        .collect()
}

fn check(re: &Regex, line: &str) {
    assert_eq!(library_captures(line), regex_captures(re, line), "line {:?}", line);
}

#[test]
fn grammar_matches_regex_on_written_lines() {
    let re = Regex::new(PATTERN).unwrap();
    for line in [
        "- [ ] Take out trash (@2025-01-30 2205)",
        "- [x] a (@ 0725)",
        "- a (@ 7:05)",
        "- a (@ 07:25:30) and - b (@ 1:00)",
        "- a (@25-1-3)",
        "- a (@2025.12.31 23:59:59)",
        "x - y - z (@ 0900",
        "- (@ 0900)(@ 1000)",
        "- [a](@ 12)",
        "-  [ ] (@) tail",
        "- \u{661}\u{662} (@\u{661}\u{662}-1-1 \u{661}\u{662}30)",
        "- [\n] a (@ 0900)",
        "- a (@ 0900)\u{2003}- b (@2025-1-1)",
    ] {
        check(&re, line);
    }
}

#[test]
fn grammar_matches_regex_on_generated_lines() {
    let re = Regex::new(PATTERN).unwrap();
    let alphabet: Vec<char> = "- []x(@)0123456789:.\t\u{661}ab".chars().collect();
    let mut state: u64 = 0x2545_f491_4f6c_dd1d;
    for _ in 0..20000 {
        state ^= state << 13;
        state ^= state >> 7;
        state ^= state << 17;
        let len = (state % 24) as usize;
        let mut line = String::new();
        let mut s = state;
        for _ in 0..len {
            s ^= s << 13;
            s ^= s >> 7;
            s ^= s << 17;
            line.push(alphabet[(s % alphabet.len() as u64) as usize]);
        }
        let head: String = line.chars().take(3).collect();
        let templated = format!("- {}(@{}", head, line);
        check(&re, &line);
        check(&re, &templated);
    }
}
