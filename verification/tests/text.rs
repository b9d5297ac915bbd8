use realtime_web_comparison::numbers::{append_decimal, parse_digits, parse_octet, parse_u16};
use realtime_web_comparison::text::{
    chars_of, contains, ends_with, eq_ignore_ascii_case, is_white_space, lines_of, lower_case_of,
    split_on, split_whitespace, starts_with, trimmed, without_leading,
};

fn owned(parts: Vec<&[char]>) -> Vec<String> {
    parts.iter().map(|part| part.iter().collect()).collect()
}

fn strings(parts: &[&str]) -> Vec<String> {
    parts.iter().map(|part| part.to_string()).collect()
}

const SAMPLES: [&str; 14] = [
    "",
    " ",
    "one",
    " one two\tthree ",
    "a,b,,c,",
    ",",
    "line\nline\r\nlast\r",
    "\n",
    "\r\n\r\n",
    "\r\r\n",
    "\u{2003}wide\u{3000}space\u{a0}",
    "a=a=candidate:candidate:1",
    "caf\u{e9} \u{1f600}\u{85}next",
    "x\u{b}y\u{c}z",
];

#[test]
fn white_space_is_that_of_unicode() {
    for n in 0..=0x10ffffu32 {
        if let Some(c) = char::from_u32(n) {
            assert_eq!(is_white_space(c), c.is_whitespace(), "{n:x}");
        }
    }
}

#[test]
fn characters_of_a_string() {
    for s in SAMPLES {
        assert_eq!(chars_of(s), s.chars().collect::<Vec<char>>());
    }
}

#[test]
fn words_are_those_of_std() {
    for s in SAMPLES {
        let expected: Vec<String> = s.split_whitespace().map(|w| w.to_string()).collect();
        assert_eq!(owned(split_whitespace(&chars_of(s))), expected, "{s:?}");
    }
    assert_eq!(owned(split_whitespace(&chars_of(" one two\tthree "))), strings(&["one", "two", "three"]));
}

#[test]
fn lines_are_those_of_std() {
    for s in SAMPLES {
        let expected: Vec<String> = s.lines().map(|l| l.to_string()).collect();
        assert_eq!(owned(lines_of(&chars_of(s))), expected, "{s:?}");
    }
    assert_eq!(owned(lines_of(&chars_of("line\nline\r\nlast\r"))), strings(&["line", "line", "last\r"]));
}

#[test]
fn parts_are_those_of_std() {
    for s in SAMPLES {
        let expected: Vec<String> = s.split(',').map(|p| p.to_string()).collect();
        assert_eq!(owned(split_on(&chars_of(s), ',')), expected, "{s:?}");
    }
    assert_eq!(owned(split_on(&chars_of("a,b,,c,"), ',')), strings(&["a", "b", "", "c", ""]));
}

#[test]
fn joining_what_was_split_gives_the_text_back() {
    for s in SAMPLES {
        assert_eq!(owned(split_on(&chars_of(s), ',')).join(","), s);
    }
}

#[test]
fn trimming_is_that_of_std() {
    for s in SAMPLES {
        let t: String = trimmed(&chars_of(s)).iter().collect();
        assert_eq!(t, s.trim(), "{s:?}");
    }
}

#[test]
fn leading_repetitions_are_dropped() {
    for s in SAMPLES {
        let t: String = without_leading(&chars_of(s), &chars_of("a=")).iter().collect();
        assert_eq!(t, s.trim_start_matches("a="), "{s:?}");
    }
    let t: String = without_leading(&chars_of("a=a=candidate:1"), &chars_of("a=")).iter().collect();
    assert_eq!(t, "candidate:1");
    let unchanged: String = without_leading(&chars_of("abc"), &[]).iter().collect();
    assert_eq!(unchanged, "abc");
}

#[test]
fn prefixes_suffixes_and_parts() {
    assert!(starts_with(&chars_of("a=candidate:1"), &chars_of("a=candidate:")));
    assert!(!starts_with(&chars_of("a=cand"), &chars_of("a=candidate:")));
    assert!(!starts_with(&chars_of("b=candidate:1"), &chars_of("a=candidate:")));
    assert!(ends_with(&chars_of("host.local"), &chars_of(".local")));
    assert!(!ends_with(&chars_of("host.locals"), &chars_of(".local")));
    assert!(!ends_with(&chars_of("local"), &chars_of(".local")));
    assert!(contains(&chars_of("my docker0 bridge"), &chars_of("docker")));
    assert!(contains(&chars_of("docker"), &chars_of("docker")));
    assert!(contains(&chars_of(""), &[]));
    assert!(!contains(&chars_of("dock"), &chars_of("docker")));
    assert!(!contains(&chars_of("d o c k e r"), &chars_of("docker")));
}

#[test]
fn case_is_that_of_ascii() {
    let lowered: String = lower_case_of(&chars_of("AZ[@az\u{c9}09")).iter().collect();
    assert_eq!(lowered, "az[@az\u{c9}09");
    assert!(eq_ignore_ascii_case(&chars_of("UdP"), &chars_of("udp")));
    assert!(!eq_ignore_ascii_case(&chars_of("udps"), &chars_of("udp")));
    assert!(!eq_ignore_ascii_case(&chars_of("tcp"), &chars_of("udp")));
    assert!(!eq_ignore_ascii_case(&chars_of("\u{e9}"), &chars_of("\u{c9}")));
}

#[test]
fn ports_are_read_as_std_reads_them() {
    let cases = [
        "0", "8080", "65535", "65536", "+80", "+", "", "-1", "007", "000000000080", "80 ", "0x50",
        "99999999999999999999", "++1", "+0",
    ];
    for s in cases {
        assert_eq!(parse_u16(&chars_of(s)), s.parse::<u16>().ok(), "{s:?}");
    }
    assert_eq!(parse_u16(&chars_of("8080")), Some(8080));
}

#[test]
fn octets_have_no_leading_zeros() {
    assert_eq!(parse_octet(&chars_of("0")), Some(0));
    assert_eq!(parse_octet(&chars_of("255")), Some(255));
    assert_eq!(parse_octet(&chars_of("256")), None);
    assert_eq!(parse_octet(&chars_of("00")), None);
    assert_eq!(parse_octet(&chars_of("01")), None);
    assert_eq!(parse_octet(&chars_of("")), None);
    assert_eq!(parse_octet(&chars_of("+1")), None);
}

#[test]
fn digits_up_to_a_bound() {
    assert_eq!(parse_digits(&chars_of("42"), 100), Some(42));
    assert_eq!(parse_digits(&chars_of("101"), 100), None);
    assert_eq!(parse_digits(&chars_of("4a"), 100), None);
    assert_eq!(parse_digits(&chars_of("4294967295"), u32::MAX), Some(u32::MAX));
    assert_eq!(parse_digits(&chars_of("4294967296"), u32::MAX), None);
}

#[test]
fn numbers_are_written_in_decimal() {
    for n in [0u64, 7, 10, 99, 100, 8002, 1234567890, u64::MAX] {
        let mut out = String::from("n=");
        append_decimal(&mut out, n);
        assert_eq!(out, format!("n={n}"));
    }
}
