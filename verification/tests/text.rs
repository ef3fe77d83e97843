use ndn_dashboard_next::text::{
    ascii_lowercase, before_char, chars_of, contains, contains_char, is_space_char, join, lower,
    piece_after, replace_char, split_lines, split_once, split_up_to, split_words, starts_with,
    strip_prefix, text_before, trim, trim_end_char,
};

const WORDS: [&str; 12] = [
    "",
    " ",
    "a",
    " a b ",
    "\u{2003}wide\u{00A0}",
    "one two  three",
    "l1\nl2\r\nl3",
    "\n",
    "x:y:z",
    "caf\u{00E9}",
    "\u{1F600} smile",
    "trail\r",
];

#[test]
fn white_space_is_that_of_unicode() {
    for code in 0..=0x10FFFFu32 {
        if let Some(c) = char::from_u32(code) {
            assert_eq!(is_space_char(c), c.is_whitespace(), "char {code:x}");
        }
    }
}

#[test]
fn splitting_and_trimming_agree_with_the_language() {
    for s in WORDS {
        assert_eq!(trim(s), s.trim());
        assert_eq!(split_words(s), s.split_whitespace().collect::<Vec<_>>());
        assert_eq!(split_lines(s), s.lines().collect::<Vec<_>>());
        assert_eq!(split_once(s, ':'), s.split_once(':'));
        for limit in [1usize, 2, 3, 4] {
            assert_eq!(
                split_up_to(s, ' ', limit),
                s.splitn(limit, ' ').collect::<Vec<_>>()
            );
        }
        assert_eq!(trim_end_char(s, '\r'), s.trim_end_matches('\r'));
        assert_eq!(before_char(s, ' '), s.split(' ').next().unwrap_or(""));
        assert_eq!(piece_after(s, ":"), s.split(':').nth(1));
        assert_eq!(replace_char(s, ' ', "__"), s.replace(' ', "__"));
        assert_eq!(ascii_lowercase(s), s.to_ascii_lowercase());
        assert_eq!(chars_of(s), s.chars().collect::<Vec<_>>());
        assert_eq!(contains_char(s, 'a'), s.contains('a'));
        for t in WORDS {
            assert_eq!(contains(s, t), s.contains(t));
            assert_eq!(starts_with(s, t), s.starts_with(t));
            assert_eq!(strip_prefix(s, t), s.strip_prefix(t));
            assert_eq!(text_before(s, t), s < t);
        }
    }
}

#[test]
fn joining_puts_the_separator_between() {
    let parts: Vec<String> = vec!["a".into(), "".into(), "c".into()];
    assert_eq!(join(&parts, "--"), "a----c");
    assert_eq!(join(&Vec::new(), "--"), "");
}

#[test]
fn lower_case_reaches_beyond_ascii() {
    assert_eq!(lower("UDP4://Face-7"), "udp4://face-7");
    assert_eq!(lower("\u{c4}RGER"), "\u{e4}rger");
    assert_eq!(lower(""), "");
}
