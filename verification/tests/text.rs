use windfinder::block::{find_close, find_value_start, is_candidate, repair, replace};
use windfinder::text::{
    chars_of, find, is_white_space, matches_at, parse_integer, string_of, take_first_word,
    to_lower, trim,
};

fn chars(s: &str) -> Vec<char> {
    s.chars().collect()
}

#[test]
fn strings_to_characters_and_back() {
    assert_eq!(chars_of("héllo, wörld"), chars("héllo, wörld"));
    assert_eq!(chars_of(""), Vec::<char>::new());
    assert_eq!(string_of(&chars("héllo")), "héllo");
    assert_eq!(string_of(&[]), "");
}

#[test]
fn white_space_is_the_unicode_property() {
    for c in ['\t', '\n', '\u{b}', '\u{c}', '\r', ' ', '\u{85}', '\u{a0}', '\u{1680}', '\u{2000}',
        '\u{200a}', '\u{2028}', '\u{2029}', '\u{202f}', '\u{205f}', '\u{3000}']
    {
        assert!(is_white_space(c), "{:?}", c);
    }
    for c in ['a', '0', '\u{200b}', '\u{1c}', '\u{feff}', '-', '\u{180e}'] {
        assert!(!is_white_space(c), "{:?}", c);
    }
    for u in 0..0x3100u32 {
        if let Some(c) = char::from_u32(u) {
            assert_eq!(is_white_space(c), c.is_whitespace(), "{:x}", u);
        }
    }
}

#[test]
fn trimming() {
    assert_eq!(trim(&chars("  Els Poblets \n")), chars("Els Poblets"));
    assert_eq!(trim(&chars("\u{a0}x\u{a0}")), chars("x"));
    assert_eq!(trim(&chars("x")), chars("x"));
    assert_eq!(trim(&chars("   ")), chars(""));
    assert_eq!(trim(&chars("")), chars(""));
    assert_eq!(trim(&chars("a  b")), chars("a  b"));
}

#[test]
fn first_words() {
    assert_eq!(take_first_word(&chars(" 12 deg")), chars("12"));
    assert_eq!(take_first_word(&chars("12")), chars("12"));
    assert_eq!(take_first_word(&chars("\n\t7\u{a0}s")), chars("7"));
    assert_eq!(take_first_word(&chars("   ")), chars(""));
    assert_eq!(take_first_word(&chars("")), chars(""));
    assert_eq!(take_first_word(&chars("ab\u{3000}cd")), chars("ab"));
}

#[test]
fn integers_in_decimal() {
    assert_eq!(parse_integer(&chars("12")), Some(12));
    assert_eq!(parse_integer(&chars("0")), Some(0));
    assert_eq!(parse_integer(&chars("007")), Some(7));
    assert_eq!(parse_integer(&chars("+5")), Some(5));
    assert_eq!(parse_integer(&chars("-5")), Some(-5));
    assert_eq!(parse_integer(&chars("-0")), Some(0));
    assert_eq!(parse_integer(&chars("2147483647")), Some(i32::MAX));
    assert_eq!(parse_integer(&chars("-2147483648")), Some(i32::MIN));
    assert_eq!(parse_integer(&chars("2147483648")), None);
    assert_eq!(parse_integer(&chars("-2147483649")), None);
    assert_eq!(parse_integer(&chars("99999999999999999999999")), None);
    assert_eq!(parse_integer(&chars("")), None);
    assert_eq!(parse_integer(&chars("-")), None);
    assert_eq!(parse_integer(&chars("+")), None);
    assert_eq!(parse_integer(&chars("+-5")), None);
    assert_eq!(parse_integer(&chars("12a")), None);
    assert_eq!(parse_integer(&chars("1 2")), None);
    assert_eq!(parse_integer(&chars("21°")), None);
    assert_eq!(parse_integer(&chars("٣")), None);
    assert_eq!(parse_integer(&chars("1.5")), None);
}

#[test]
fn integers_agree_with_the_standard_reading() {
    for s in ["12", "-12", "+12", "", "-", "2147483647", "2147483648", "-2147483648", "0000",
        "1e3", " 1", "1 ", "--1", "12345678901"]
    {
        assert_eq!(parse_integer(&chars(s)), s.parse::<i32>().ok(), "{:?}", s);
    }
}

#[test]
fn searching() {
    let hay = chars("abcabcabd");
    assert_eq!(find(&hay, &chars("abc"), 0), Some(0));
    assert_eq!(find(&hay, &chars("abc"), 1), Some(3));
    assert_eq!(find(&hay, &chars("abd"), 0), Some(6));
    assert_eq!(find(&hay, &chars("abd"), 7), None);
    assert_eq!(find(&hay, &chars("x"), 0), None);
    assert_eq!(find(&hay, &chars(""), 4), Some(4));
    assert_eq!(find(&hay, &chars(""), 9), Some(9));
    assert_eq!(find(&hay, &chars(""), 10), None);
    assert_eq!(find(&chars("ab"), &chars("abc"), 0), None);
    assert!(matches_at(&hay, &chars("cab"), 2));
    assert!(!matches_at(&hay, &chars("cab"), 3));
    assert!(!matches_at(&hay, &chars("abd"), 8));
    assert!(matches_at(&hay, &chars(""), 9));
}

#[test]
fn lower_case_of_the_latin_letters() {
    assert_eq!(to_lower(&chars("FcData: ÀZaz09[]")), chars("fcdata: Àzaz09[]"));
    assert_eq!(to_lower(&chars("@[`{")), chars("@[`{"));
}

#[test]
fn candidates_hold_marker_and_key() {
    assert!(is_candidate(&chars("window.ctx.push({fcData: []});")));
    assert!(is_candidate(&chars("x FCDATA y window.ctx.push z")));
    assert!(!is_candidate(&chars("window.ctx.push({other: []});")));
    assert!(!is_candidate(&chars("var fcData = [];")));
    assert!(!is_candidate(&chars("Window.ctx.push({fcData: []});")));
    assert!(!is_candidate(&chars("")));
}

#[test]
fn value_starts_after_the_first_label() {
    assert_eq!(find_value_start(&chars("a fcData: [1] fcData: [2]")), Some(9));
    assert_eq!(find_value_start(&chars("fcData:")), Some(7));
    assert_eq!(find_value_start(&chars("fcdata: [1]")), None);
    assert_eq!(find_value_start(&chars("fcData [1]")), None);
}

#[test]
fn the_array_closes_at_the_first_structural_bracket() {
    assert_eq!(find_close(&chars("[1, 2] x ]")), Some(5));
    assert_eq!(find_close(&chars(" [[1, 2], [3, [4]]] ]")), Some(18));
    assert_eq!(find_close(&chars("[\"a]b\", 1]")), Some(9));
    assert_eq!(find_close(&chars("[\"a\\\"]b\", 1]")), Some(11));
    assert_eq!(find_close(&chars("[\"a\\\\\"]")), Some(6));
    assert_eq!(find_close(&chars("[{\"k\": [1, 2]}, {\"k\": []}]);")), Some(25));
    assert_eq!(find_close(&chars("] rest")), Some(0));
    assert_eq!(find_close(&chars("[1, [2]")), None);
    assert_eq!(find_close(&chars("[\"unclosed ]")), None);
    assert_eq!(find_close(&chars("")), None);
}

#[test]
fn replacing() {
    assert_eq!(replace(&chars("a: null, b: null"), &chars(": null"), &chars(": 0")), chars("a: 0, b: 0"));
    assert_eq!(replace(&chars("aaaa"), &chars("aa"), &chars("b")), chars("bb"));
    assert_eq!(replace(&chars("aaa"), &chars("aa"), &chars("b")), chars("ba"));
    assert_eq!(replace(&chars("abc"), &chars(""), &chars("x")), chars("abc"));
    assert_eq!(replace(&chars("abc"), &chars("abcd"), &chars("x")), chars("abc"));
    assert_eq!(replace(&chars(""), &chars("a"), &chars("x")), chars(""));
    assert_eq!(replace(&chars("abc"), &chars("c"), &chars("")), chars("ab"));
}

#[test]
fn missing_numbers_become_zero() {
    assert_eq!(
        repair(&chars("[{\"wd\": null, \"ws\": 3, \"wh\": null}]")),
        chars("[{\"wd\": 0, \"ws\": 3, \"wh\": 0}]")
    );
    assert_eq!(repair(&chars("[{\"wd\":null}]")), chars("[{\"wd\":null}]"));
    assert_eq!(repair(&chars("[]")), chars("[]"));
}

#[test]
fn replacing_agrees_with_the_standard_one() {
    for s in ["a: null", ": null: null", ": nul: null", "", ": : null null", "x: nullable"] {
        assert_eq!(string_of(&repair(&chars(s))), s.replace(": null", ": 0"), "{:?}", s);
    }
}
