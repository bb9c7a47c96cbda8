use mso::scan::{split_lines, split_words, trim_bounds, parse_uint_in, is_whitespace, find_last, sub_chars};

fn chars(s: &str) -> Vec<char> {
    s.chars().collect()
}

fn strings(v: Vec<Vec<char>>) -> Vec<String> {
    v.into_iter().map(|w| w.into_iter().collect()).collect()
}

#[test]
fn lines_match_std() {
    for s in ["", "a", "a\n", "a\nb", "a\r\nb\r\n", "\n", "\n\n", "x\r", "a\rb\n", " \r\n\r\n"] {
        let expected: Vec<String> = s.lines().map(|l| l.to_string()).collect();
        assert_eq!(strings(split_lines(&chars(s))), expected, "lines of {s:?}");
    }
}

#[test]
fn words_match_std() {
    for s in ["", "  ", "a b", "  a\t b\n", "x\u{a0}y\u{3000}z", "one"] {
        let expected: Vec<String> = s.split_whitespace().map(|w| w.to_string()).collect();
        assert_eq!(strings(split_words(&chars(s))), expected, "words of {s:?}");
    }
}

#[test]
fn whitespace_matches_std() {
    for c in ['\t', '\n', '\u{b}', '\u{c}', '\r', ' ', '\u{85}', '\u{a0}', '\u{1680}', '\u{2000}', '\u{200a}',
              '\u{2028}', '\u{2029}', '\u{202f}', '\u{205f}', '\u{3000}', 'a', '0', '\u{200b}', '\u{feff}'] {
        assert_eq!(is_whitespace(c), c.is_whitespace(), "{c:?}");
    }
}

#[test]
fn trim_matches_std() {
    for s in ["", "  ", " a ", "a", "\t a b \n", "\u{3000}x"] {
        let v = chars(s);
        let (a, b) = trim_bounds(&v, 0, v.len());
        let got: String = v[a..b].iter().collect();
        assert_eq!(got, s.trim(), "trim of {s:?}");
    }
}

#[test]
fn parse_matches_std() {
    for s in ["0", "42", "+7", "", "+", "-1", "18446744073709551615", "18446744073709551616", "1a", "007"] {
        let v = chars(s);
        assert_eq!(parse_uint_in(&v, 0, v.len(), 10, u64::MAX), s.parse::<u64>().ok(), "{s:?}");
    }
    for s in ["1F90", "ffff", "FFFF", "10000", "+a", "g", ""] {
        let v = chars(s);
        assert_eq!(
            parse_uint_in(&v, 0, v.len(), 16, 65535),
            u16::from_str_radix(s, 16).ok().map(|x| x as u64),
            "{s:?}"
        );
    }
    for s in ["255", "256", "196"] {
        let v = chars(s);
        assert_eq!(parse_uint_in(&v, 0, v.len(), 10, 255), s.parse::<u8>().ok().map(|x| x as u64), "{s:?}");
    }
}

#[test]
fn last_colon_and_slices() {
    let v = chars("0100007F:0277");
    assert_eq!(find_last(&v, ':'), Some(8));
    assert_eq!(find_last(&chars("abc"), ':'), None);
    assert_eq!(sub_chars(&v, 9, 13), chars("0277"));
}
