use brightness_control::numbers::{decimal_string, hex_string, parse_unsigned, unsigned_word};
use brightness_control::text::{
    chars_of, clean, control_char, equals_ignoring_case, find_chars, lines, split_n, string_of,
    trim_str, white_space,
};
use brightness_control::wide::{decode_utf16, to_wide, wide_to_string};

const SAMPLES: [&str; 14] = [
    "",
    " ",
    "a",
    " a b ",
    "\t\r\n",
    "\u{a0}x\u{3000}",
    "Grüße, 世界",
    "a|b|c|d|e|f",
    "||",
    "line\r\nline\n\nlast\r",
    "x\n",
    "\u{1F600}|\u{1F600}",
    "\u{85}\u{2028}z\u{200b}",
    "null",
];

#[test]
fn white_space_is_that_of_unicode() {
    for code in 0..=0x10ffffu32 {
        if let Some(c) = char::from_u32(code) {
            assert_eq!(white_space(c), c.is_whitespace(), "{code:x}");
            assert_eq!(control_char(c), c.is_control(), "{code:x}");
        }
    }
}

#[test]
fn strings_and_characters_convert() {
    for s in SAMPLES {
        let chars = chars_of(s);
        assert_eq!(chars, s.chars().collect::<Vec<char>>());
        assert_eq!(string_of(&chars), s);
    }
}

#[test]
fn trimming_takes_white_space_from_both_ends() {
    for s in SAMPLES {
        assert_eq!(trim_str(s), s.trim());
    }
}

#[test]
fn cleaning_drops_control_characters() {
    assert_eq!(clean("\u{0}MSI\u{7} MP251\r\n "), "MSI MP251");
    assert_eq!(clean(" \u{1} \u{9f}"), "");
    for s in SAMPLES {
        let kept: String = s.chars().filter(|c| !c.is_control()).collect();
        assert_eq!(clean(s), kept.trim());
    }
}

#[test]
fn lines_end_in_line_feeds() {
    for s in SAMPLES {
        let got: Vec<String> = lines(&chars_of(s)).iter().map(|l| string_of(l)).collect();
        let expected: Vec<&str> = s.lines().collect();
        assert_eq!(got, expected, "{s:?}");
    }
}

#[test]
fn splitting_stops_after_n_parts() {
    for s in SAMPLES {
        for n in 1usize..7 {
            let got: Vec<String> = split_n(&chars_of(s), n, '|').iter().map(|p| string_of(p)).collect();
            let expected: Vec<&str> = s.splitn(n, '|').collect();
            assert_eq!(got, expected, "{s:?} {n}");
        }
    }
}

#[test]
fn case_is_ignored_for_ascii_letters_only() {
    for a in SAMPLES {
        for b in SAMPLES {
            assert_eq!(equals_ignoring_case(a, b), a.eq_ignore_ascii_case(b));
        }
        assert!(equals_ignoring_case(a, &a.to_ascii_uppercase()));
    }
    assert!(equals_ignoring_case("NuLL", "null"));
    assert!(!equals_ignoring_case("ü", "Ü"));
    assert!(!equals_ignoring_case("a", "ab"));
    assert!(!equals_ignoring_case("@", "`"));
}

#[test]
fn texts_are_found_at_their_first_occurrence() {
    for (s, p) in [("aaab", "ab"), ("", ""), ("abc", ""), ("abc", "cd"), ("REG_SZ", "REG_SZ"), ("x", "xx")] {
        assert_eq!(find_chars(&chars_of(s), &chars_of(p)), s.find(p));
    }
}

#[test]
fn decimals_are_written_and_read() {
    for n in [0u64, 7, 9, 10, 99, 100, 4_294_967_295, u64::MAX] {
        assert_eq!(decimal_string(n), n.to_string());
        assert_eq!(parse_unsigned(&chars_of(&n.to_string()), u64::MAX), Some(n));
    }
}

#[test]
fn numbers_are_read_as_the_standard_library_reads_them() {
    let samples = [
        "", "+", "-", "0", "+0", "-0", "-1", "00012", "+12", "++1", "1 ", " 1", "1_000", "4294967295",
        "4294967296", "0004294967295", "99999999999999999999", "12a", "\u{661}",
    ];
    for s in samples {
        let expected = s.parse::<u32>().ok().map(u64::from);
        assert_eq!(parse_unsigned(&chars_of(s), u64::from(u32::MAX)), expected, "{s:?}");
    }
}

#[test]
fn hexadecimals_have_eight_digits() {
    for v in [0i32, 1, -1, 255, i32::MIN, i32::MAX, -2147217392] {
        assert_eq!(hex_string(v), format!("{v:08X}"));
        assert_eq!(unsigned_word(v), v as u32);
    }
    assert_eq!(hex_string(-2147217392), "80041010");
}

#[test]
fn utf16_is_decoded_and_replaced() {
    let samples: [&[u16]; 9] = [
        &[],
        &[0x41, 0x42],
        &[0xd83d, 0xde00],
        &[0xd83d],
        &[0xde00],
        &[0xde00, 0xd83d],
        &[0xd83d, 0xd83d, 0xde00],
        &[0xd83d, 0x41],
        &[0xdbff, 0xdfff, 0xffff, 0xd800, 0xdc00],
    ];
    for s in samples {
        assert_eq!(string_of(&decode_utf16(s)), String::from_utf16_lossy(s));
    }
}

#[test]
fn every_character_survives_utf16() {
    for code in (0..=0x10ffffu32).step_by(7) {
        if let Some(c) = char::from_u32(code) {
            let s = c.to_string();
            let wide = to_wide(&s);
            let mut expected: Vec<u16> = s.encode_utf16().collect();
            assert_eq!(decode_utf16(&expected), vec![c]);
            expected.push(0);
            assert_eq!(wide, expected);
        }
    }
}

#[test]
fn wide_texts_end_at_a_zero_and_are_trimmed() {
    assert_eq!(wide_to_string(&to_wide("  Generic PnP Monitor ")), "Generic PnP Monitor");
    assert_eq!(wide_to_string(&[0x41, 0, 0x42]), "A");
    assert_eq!(wide_to_string(&[0x41, 0x42]), "AB");
    assert_eq!(wide_to_string(&[]), "");
}

#[test]
fn wide_texts_read_back() {
    for s in ["BrightnessDisplayListener", "ROOT\\WMI", "世界 \u{1F600}", ""] {
        assert_eq!(wide_to_string(&to_wide(s)), s);
    }
}
