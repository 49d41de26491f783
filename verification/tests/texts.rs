use digital_sign::text::{collapse_whitespace, is_whitespace, strip_leading_zeros};

#[test]
fn white_space_is_what_std_calls_white_space() {
    for code in 0..=0x10FFFFu32 {
        if let Some(c) = char::from_u32(code) {
            assert_eq!(is_whitespace(c), c.is_whitespace(), "U+{:04X}", code);
        }
    }
}

#[test]
fn words_are_set_one_space_apart() {
    assert_eq!(collapse_whitespace(""), "");
    assert_eq!(collapse_whitespace("   \n\t "), "");
    assert_eq!(collapse_whitespace("word"), "word");
    assert_eq!(collapse_whitespace("  two   words \n"), "two words");
    assert_eq!(collapse_whitespace("a\nb\r\nc\td"), "a b c d");
    assert_eq!(collapse_whitespace("x\u{00A0}y\u{3000}z"), "x y z");
    assert_eq!(collapse_whitespace("déjà  vu"), "déjà vu");
}

#[test]
fn collapsing_is_splitting_and_joining() {
    let samples = [
        "",
        " ",
        "a",
        " a",
        "a ",
        "a b",
        "a  b",
        "\n\nfirst line\nsecond   line\n\n",
        "tabs\tand\u{2003}wide spaces",
        "  lead and trail  ",
    ];
    for sample in samples {
        let expected = sample.replace('\n', " ").split_whitespace().collect::<Vec<&str>>().join(" ");
        assert_eq!(collapse_whitespace(sample), expected);
    }
}

#[test]
fn leading_zeros_are_stripped() {
    assert_eq!(strip_leading_zeros("09:05 AM"), "9:05 AM");
    assert_eq!(strip_leading_zeros("12:00 PM"), "12:00 PM");
    assert_eq!(strip_leading_zeros("0012"), "12");
    assert_eq!(strip_leading_zeros("000"), "");
    assert_eq!(strip_leading_zeros(""), "");
    assert_eq!(strip_leading_zeros("10:00"), "10:00");
    assert_eq!(strip_leading_zeros("a0"), "a0");
    for sample in ["007", "0", "100", "0:00 AM", "x"] {
        assert_eq!(strip_leading_zeros(sample), sample.trim_start_matches('0'));
    }
}
