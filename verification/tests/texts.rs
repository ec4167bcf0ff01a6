use cargo_build_sbpf::number::{parse_u64, to_decimal};
use cargo_build_sbpf::text::{
    characters, cut_before, is_white_space, join, same, split_first_word, split_lines,
    starts_with, strip_prefix, trim, trim_end, trim_start,
};

const TEXTS: [&str; 12] = [
    "",
    " ",
    "a",
    " a b\t",
    "\u{a0}x\u{3000}",
    "a\nb\r\nc\r",
    "\n\r\n\n",
    "x=y=z",
    "=",
    "\u{e9}t\u{e9} \u{1f980}\n",
    "a\rb\n",
    "-C  link",
];

#[test]
fn knows_white_space() {
    for code in 0..=0x10ffff_u32 {
        if let Some(c) = char::from_u32(code) {
            assert_eq!(is_white_space(c), c.is_whitespace(), "{code:x}");
        }
    }
}

#[test]
fn agrees_with_std_on_texts() {
    for text in TEXTS {
        assert_eq!(trim_start(text), text.trim_start());
        assert_eq!(trim_end(text), text.trim_end());
        assert_eq!(trim(text), text.trim());
        assert_eq!(split_first_word(text), text.split_whitespace().next());
        assert_eq!(split_lines(text), text.lines().collect::<Vec<_>>());
        assert_eq!(cut_before(text, '='), text.split('=').next().unwrap());
        assert_eq!(characters(text), text.chars().collect::<Vec<_>>());
        for other in TEXTS {
            assert_eq!(strip_prefix(text, other), text.strip_prefix(other));
            assert_eq!(starts_with(text, other), text.starts_with(other));
            assert_eq!(same(text, other), text == other);
        }
    }
}

#[test]
fn joins_texts() {
    let list = |texts: &[&str]| texts.iter().map(|text| text.to_string()).collect::<Vec<_>>();
    for texts in [list(&[]), list(&["a"]), list(&["a", "", "b c"])] {
        assert_eq!(join(&texts, " "), texts.join(" "));
    }
}

#[test]
fn reads_and_writes_numbers() {
    for n in [0, 7, 10, 4096, 8192, u64::MAX - 1, u64::MAX] {
        assert_eq!(to_decimal(n), n.to_string());
        assert_eq!(parse_u64(&to_decimal(n)), Some(n));
    }
    for text in [
        "", "+", "-1", "+5", "++5", "007", " 1", "1 ", "1_000", "0x10", "18446744073709551615",
        "18446744073709551616", "99999999999999999999", "\u{662}",
    ] {
        assert_eq!(parse_u64(text), text.parse::<u64>().ok(), "{text}");
    }
}
