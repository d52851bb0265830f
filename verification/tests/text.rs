use linuxdo_accelerator::lines::{join, split_lines};
use linuxdo_accelerator::number::{parse_unsigned, to_decimal};
use linuxdo_accelerator::space::{split_whitespace, trim, trim_end, white_space};
use linuxdo_accelerator::text::{
    followed_by, contains, ends_with, replace, same_text, starts_with, strip_prefix,
    to_ascii_lowercase,
};

const SAMPLES: [&str; 12] = [
    "",
    " ",
    "a",
    " a b ",
    "\u{3000}中 文\u{2028}",
    "a\nb",
    "a\r\nb\r\n",
    "a\r",
    "\n\n",
    "\r\n\r",
    "ABC def ÄÖ",
    "x\u{85}y\tz",
];

#[test]
fn white_space_is_the_unicode_property() {
    for c in '\0'..=char::MAX {
        assert_eq!(white_space(c), c.is_whitespace(), "{:?}", c);
    }
}

#[test]
fn texts_are_taken_apart_as_the_standard_library_does() {
    for s in SAMPLES {
        assert_eq!(trim(s), s.trim(), "{:?}", s);
        assert_eq!(trim_end(s), s.trim_end(), "{:?}", s);
        assert_eq!(split_whitespace(s), s.split_whitespace().collect::<Vec<_>>(), "{:?}", s);
        assert_eq!(split_lines(s), s.lines().collect::<Vec<_>>(), "{:?}", s);
        assert_eq!(to_ascii_lowercase(s), s.to_ascii_lowercase(), "{:?}", s);
        assert_eq!(replace(s, 'a', "--"), s.replace('a', "--"), "{:?}", s);
    }
}

#[test]
fn texts_are_searched_as_the_standard_library_does() {
    for s in SAMPLES {
        for p in SAMPLES {
            assert_eq!(starts_with(s, p), s.starts_with(p), "{:?} {:?}", s, p);
            assert_eq!(ends_with(s, p), s.ends_with(p), "{:?} {:?}", s, p);
            assert_eq!(contains(s, p), s.contains(p), "{:?} {:?}", s, p);
            assert_eq!(strip_prefix(s, p).as_deref(), s.strip_prefix(p), "{:?} {:?}", s, p);
            assert_eq!(same_text(s, p), s == p, "{:?} {:?}", s, p);
            assert_eq!(followed_by(s, p), format!("{s}{p}"));
        }
    }
}

#[test]
fn lines_are_put_together() {
    let parts = vec!["a".to_string(), "".to_string(), "b".to_string()];
    assert_eq!(join(&parts, ", "), "a, , b");
    assert_eq!(join(&Vec::new(), ", "), "");
}

#[test]
fn numbers_are_read_as_the_standard_library_does() {
    for s in ["", "+", "-", "0", "007", "+7", "255", "256", "ff", "FF", "zz", " 1", "1 ", "++1", "٣"] {
        assert_eq!(
            parse_unsigned(s, 10, 255),
            s.parse::<u8>().ok().map(u64::from),
            "{:?}",
            s
        );
        assert_eq!(
            parse_unsigned(s, 16, 255),
            u8::from_str_radix(s, 16).ok().map(u64::from),
            "{:?}",
            s
        );
    }
    for n in [0, 7, 10, 99, 100, u64::MAX] {
        assert_eq!(to_decimal(n), n.to_string());
        assert_eq!(parse_unsigned(&to_decimal(n), 10, u64::MAX), Some(n));
    }
    assert_eq!(parse_unsigned("18446744073709551616", 10, u64::MAX), None);
}
