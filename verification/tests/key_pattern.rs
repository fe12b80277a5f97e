use margo_fetch::key::find_reading;
use margo_fetch::Crate;
use regex::Regex;

fn pattern() -> Regex {
    Regex::new(r"(?m)checksum (.+) (.+) \((.+)\)").unwrap()
}

/// The three fields that the regular expression captures.
fn by_pattern<'t>(pattern: &Regex, text: &'t str) -> Option<(&'t str, &'t str, &'t str)> {
    pattern.captures(text).map(|found| {
        (
            found.get(1).unwrap().as_str(),
            found.get(2).unwrap().as_str(),
            found.get(3).unwrap().as_str(),
        )
    })
}

/// The three fields that the library reads.
fn by_library(text: &str) -> Option<(&str, &str, &str)> {
    Crate::parse_from_parts(text, "<none>")
        .ok()
        .map(|record| (record.crate_name, record.version, record.source))
}

/// Every text of the given length over the alphabet, in turn.
fn each_text(alphabet: &[char], length: usize, visit: &mut dyn FnMut(&str)) {
    let mut digits = vec![0usize; length];
    loop {
        let text: String = digits.iter().map(|&d| alphabet[d]).collect();
        visit(&text);
        let mut place = 0;
        while place < length {
            digits[place] += 1;
            if digits[place] < alphabet.len() {
                break;
            }
            digits[place] = 0;
            place += 1;
        }
        if place == length {
            break;
        }
    }
}

#[test]
fn reading_gives_positions_in_characters() {
    let text: Vec<char> = "é checksum nä 1 (s)".chars().collect();
    assert_eq!(find_reading(&text), Some((2, 13, 15, 18)));
    let none: Vec<char> = "checksum".chars().collect();
    assert_eq!(find_reading(&none), None);
    assert_eq!(find_reading(&Vec::new()), None);
}

#[test]
fn shortest_key_is_read() {
    let text: Vec<char> = "checksum a b (c)".chars().collect();
    assert_eq!(find_reading(&text), Some((0, 10, 12, 15)));
    let short: Vec<char> = "checksum a b (c".chars().collect();
    assert_eq!(find_reading(&short), None);
}

#[test]
fn agrees_with_the_regular_expression_on_chosen_texts() {
    let pattern = pattern();
    for text in [
        "checksum foo 1.0.0 (registry+https://example.org/index)",
        "checksum foo 1.0.0 (registry+https://github.com/rust-lang/crates.io-index)",
        "checksum a b c d (e)",
        "checksum a 1 (b (c) d) e) f",
        "checksum a 1 (b)c)",
        "checksum a 1 (b) checksum c 2 (d)",
        "checksum checksum a 1 (b)",
        "checksum  a 1 (b)",
        "checksum a  1 (b)",
        "checksum a 1  (b)",
        "checksum a 1 ( b)",
        "checksum a 1 (b )",
        "checksum a 1 ((b))",
        "checksum a 1 ()",
        "checksum a 1 ())",
        "checksum a (1) (b)",
        "checksum (a) (1) (b)",
        "checksum a 1 (b)\n",
        "\nchecksum a 1 (b)",
        "checksum a\n1 (b)",
        "checksum a 1\n (b)",
        "checksum a 1 (\nb)",
        "checksum a 1 (b\n)",
        "checksum x\nchecksum a 1 (b)\nchecksum c 2 (d)",
        "checksum a 1 (b)\r\n",
        "checksum a\r 1 (b)",
        "xchecksum a 1 (b)",
        "checksum\ta 1 (b)",
        "checksum ä ö (ü)",
        "checksum 名前 1.0 (源)",
        "",
        " ",
        "checksum ",
        "checksum a",
        "checksum a 1",
        "checksum a 1 (",
        "checksum a 1 (b",
    ] {
        assert_eq!(by_library(text), by_pattern(&pattern, text), "{:?}", text);
    }
}

#[test]
fn agrees_with_the_regular_expression_on_every_short_tail() {
    let pattern = pattern();
    let alphabet = [' ', '(', ')', 'a', '\n'];
    let mut accepted = 0;
    for length in 0..=7 {
        each_text(&alphabet, length, &mut |tail| {
            let text = format!("checksum {}", tail);
            let read = by_library(&text);
            assert_eq!(read, by_pattern(&pattern, &text), "{:?}", text);
            if read.is_some() {
                accepted += 1;
            }
        });
    }
    assert!(accepted > 0);
}

#[test]
fn agrees_with_the_regular_expression_around_a_second_prefix() {
    let pattern = pattern();
    let alphabet = [' ', '(', ')', 'b', '\n'];
    for length in 0..=5 {
        each_text(&alphabet, length, &mut |tail| {
            for head in ["checksum a", "checksum a\n", "checksum a 1 (", "x"] {
                let text = format!("{}checksum {}", head, tail);
                assert_eq!(by_library(&text), by_pattern(&pattern, &text), "{:?}", text);
            }
        });
    }
}

#[test]
fn agrees_with_the_regular_expression_on_mixed_texts() {
    let pattern = pattern();
    let pieces = [
        "checksum ", "checksum", " ", "  ", "(", ")", " (", ") ", "\n", "\r\n", "\t", "a", "serde",
        "1.0.0", "registry+https://example.org/index", "\u{e9}", "\u{540d}", "()", ")(",
    ];
    // A fixed sequence of numbers stands in for chance.
    let mut state: u64 = 0x2545_f491_4f6c_dd1d;
    let mut next = move |bound: usize| {
        state ^= state << 13;
        state ^= state >> 7;
        state ^= state << 17;
        (state % bound as u64) as usize
    };
    let mut accepted = 0;
    for _ in 0..40_000 {
        let count = 1 + next(12);
        let mut text = String::from(if next(2) == 0 { "checksum " } else { "" });
        for _ in 0..count {
            text.push_str(pieces[next(pieces.len())]);
        }
        let read = by_library(&text);
        assert_eq!(read, by_pattern(&pattern, &text), "{:?}", text);
        if read.is_some() {
            accepted += 1;
        }
    }
    assert!(accepted > 100, "{}", accepted);
}
