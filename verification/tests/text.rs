use dimport::text::push_decimal;
use dimport::text::{
    blank, chars_of, ends_with, find_first, find_last, join_strings, lowercase,
    matches_at, parse_number, replace, same_text, slice_of, starts_with, string_of,
    strip_leading, text_is, whitespace,
};

fn v(s: &str) -> Vec<char> {
    s.chars().collect()
}

fn replaced(s: &str, pat: &str, rep: &str) -> String {
    replace(&v(s), &v(pat), &v(rep)).into_iter().collect()
}

#[test]
fn chars_and_strings_round_trip() {
    assert_eq!(chars_of("héllo"), vec!['h', 'é', 'l', 'l', 'o']);
    assert_eq!(string_of(&vec!['a', 'ß', 'c']), "aßc");
    assert_eq!(chars_of(""), Vec::<char>::new());
    assert_eq!(string_of(&Vec::new()), "");
}

#[test]
fn same_text_compares_letter_by_letter() {
    assert!(same_text(&v("abc"), &v("abc")));
    assert!(!same_text(&v("abc"), &v("abd")));
    assert!(!same_text(&v("abc"), &v("ab")));
    assert!(same_text(&v(""), &v("")));
    assert!(text_is(&v("--first"), "--first"));
    assert!(!text_is(&v("--first"), "--last"));
}

#[test]
fn prefix_suffix_and_occurrence() {
    assert!(starts_with(&v("http://x"), &v("http://")));
    assert!(!starts_with(&v("http:/"), &v("http://")));
    assert!(starts_with(&v("abc"), &v("")));
    assert!(ends_with(&v("photo.png"), &v("png")));
    assert!(!ends_with(&v("ng"), &v("png")));
    assert!(ends_with(&v(""), &v("")));
    assert!(matches_at(&v("abcabc"), 3, &v("abc")));
    assert!(!matches_at(&v("abcabc"), 4, &v("abc")));
    assert!(!matches_at(&v("abc"), 7, &v("")));
    assert!(matches_at(&v("abc"), 3, &v("")));
}

#[test]
fn lowercase_matches_std_on_every_char() {
    for code in 0u32..=0x10FFFF {
        if let Some(c) = char::from_u32(code) {
            assert_eq!(lowercase(&vec![c]), vec![c.to_ascii_lowercase()], "char {code:#x}");
        }
    }
    assert_eq!(lowercase(&v("PhoTo.JPG É")), v("photo.jpg É"));
}

#[test]
fn whitespace_matches_std_on_every_char() {
    for code in 0u32..=0x10FFFF {
        if let Some(c) = char::from_u32(code) {
            assert_eq!(whitespace(c), c.is_whitespace(), "char {code:#x}");
        }
    }
}

#[test]
fn blank_means_only_white_space() {
    assert!(blank(&v("")));
    assert!(blank(&v(" \t\u{3000}\n")));
    assert!(!blank(&v("  x ")));
}

#[test]
fn replace_matches_std_replace() {
    let texts = ["", "a", "aaa", "aaaa", "abab", "hello @bob and @bobby", "::x::", "xay", "ééé"];
    let patterns = ["", "a", "aa", "ab", "@bob", ":", "é", "zzz"];
    let replacements = ["", "-", "<@1>", "aa", "é"];
    for s in texts {
        for pat in patterns {
            for rep in replacements {
                assert_eq!(replaced(s, pat, rep), s.replace(pat, rep), "{s:?} {pat:?} {rep:?}");
            }
        }
    }
}

#[test]
fn replace_exact_values() {
    assert_eq!(replaced("aaa", "aa", "b"), "ba");
    assert_eq!(replaced("abc", "", "-"), "-a-b-c-");
    assert_eq!(replaced("", "", "-"), "-");
    assert_eq!(replaced("", "x", "-"), "");
    assert_eq!(replaced("hi @al!", "@al", "<@7>"), "hi <@7>!");
}

#[test]
fn join_puts_separator_between_neighbours() {
    let parts = vec!["a".to_string(), "".to_string(), "c".to_string()];
    assert_eq!(join_strings(&parts, " | "), "a |  | c");
    assert_eq!(join_strings(&vec!["solo".to_string()], ", "), "solo");
    assert_eq!(join_strings(&Vec::new(), ", "), "");
}

#[test]
fn decimal_matches_std_formatting() {
    for n in [0u64, 1, 9, 10, 11, 99, 100, 101, 12345, 1u64 << 32, u64::MAX - 1, u64::MAX] {
        let mut out = vec!['#'];
        push_decimal(&mut out, n);
        assert_eq!(out.into_iter().collect::<String>(), format!("#{n}"));
    }
}

#[test]
fn parse_number_matches_std_for_decimal() {
    let inputs = [
        "", "+", "-", "0", "00", "007", "+7", "++7", "-7", "-0", " 7", "7 ", "7a", "a", "1_000",
        "٣", "18446744073709551615", "18446744073709551616", "99999999999999999999999",
        "4294967295", "4294967296", "+0", "1e3",
    ];
    for s in inputs {
        assert_eq!(parse_number(&v(s), 10, u64::MAX), s.parse::<u64>().ok(), "u64 {s:?}");
        assert_eq!(
            parse_number(&v(s), 10, u32::MAX as u64),
            s.parse::<u32>().ok().map(|n| n as u64),
            "u32 {s:?}"
        );
        assert_eq!(
            parse_number(&v(s), 10, usize::MAX as u64),
            s.parse::<usize>().ok().map(|n| n as u64),
            "usize {s:?}"
        );
    }
}

#[test]
fn parse_number_matches_std_for_hex() {
    let inputs = [
        "", "+", "ff", "FF", "fF", "+ff", "-ff", "0x10", "g", "ffffffff", "100000000", "FFFFFFFF",
        "00000000ff", "7289DA", "zz", " ff", "f f",
    ];
    for s in inputs {
        assert_eq!(
            parse_number(&v(s), 16, u32::MAX as u64),
            u32::from_str_radix(s, 16).ok().map(|n| n as u64),
            "{s:?}"
        );
    }
    assert_eq!(parse_number(&v("z"), 36, u64::MAX), Some(35));
    assert_eq!(parse_number(&v("Z"), 36, u64::MAX), Some(35));
    assert_eq!(parse_number(&v("2"), 2, u64::MAX), None);
    assert_eq!(parse_number(&v("101"), 2, u64::MAX), Some(5));
}

#[test]
fn find_first_and_last() {
    assert_eq!(find_first(&v("a,b,c"), ','), Some(1));
    assert_eq!(find_last(&v("a,b,c"), ','), Some(3));
    assert_eq!(find_first(&v("abc"), ','), None);
    assert_eq!(find_last(&v(""), ','), None);
    assert_eq!(find_first(&v(","), ','), Some(0));
    assert_eq!(find_last(&v(","), ','), Some(0));
}

#[test]
fn slices_and_leading_runs() {
    assert_eq!(slice_of(&v("hello"), 1, 3), v("el"));
    assert_eq!(slice_of(&v("hello"), 5, 5), v(""));
    assert_eq!(strip_leading(&v("##ab#"), '#'), v("ab#"));
    assert_eq!(strip_leading(&v("###"), '#'), v(""));
    assert_eq!(strip_leading(&v("ab"), '#'), v("ab"));
    for s in ["", "#", "##a#b", "a#", "###"] {
        assert_eq!(
            strip_leading(&v(s), '#').into_iter().collect::<String>(),
            s.trim_start_matches('#')
        );
    }
}
