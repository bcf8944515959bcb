use prometheus_csv_adapter::text::{chars_of, is_decimal_digit, is_letter_or_digit};
use prometheus_csv_adapter::{is_numeric, normalize_string};

#[test]
fn normalize_lowers_and_joins_words() {
    assert_eq!(normalize_string("Foo Bar"), "foo_bar");
}

#[test]
fn normalize_drops_separators_at_both_ends() {
    assert_eq!(normalize_string("  a--b()  "), "a_b");
    assert_eq!(normalize_string("  Foo-Bar()  "), "foo_bar");
}

#[test]
fn normalize_of_separators_alone_is_empty() {
    assert_eq!(normalize_string("___"), "");
    assert_eq!(normalize_string(""), "");
    assert_eq!(normalize_string(" \t\n"), "");
}

#[test]
fn normalize_keeps_digits() {
    assert_eq!(normalize_string("A1"), "a1");
    assert_eq!(normalize_string("9 Lives"), "9_lives");
    assert_eq!(normalize_string("1"), "1");
}

#[test]
fn normalize_collapses_a_run_into_one_underscore() {
    assert_eq!(normalize_string("cpu - load (1m)"), "cpu_load_1m");
    assert_eq!(normalize_string("a_b"), "a_b");
    assert_eq!(normalize_string("a___b"), "a_b");
    assert_eq!(normalize_string("_a_"), "a");
}

#[test]
fn normalize_is_stable_on_its_own_output() {
    let once = normalize_string("  Disk Usage (%) / Root ");
    assert_eq!(once, "disk_usage_root");
    assert_eq!(normalize_string(&once), once);
}

#[test]
fn normalize_lowers_capitals_beyond_ascii() {
    assert_eq!(normalize_string("\u{c9}"), "\u{e9}");
    assert_eq!(normalize_string("ÉTÉ chaud"), "été_chaud");
    assert_eq!(normalize_string("Größe"), "größe");
    assert_eq!(normalize_string("ΑΒΓ Δ"), "αβγ_δ");
    assert_eq!(normalize_string("ЖАРА"), "жара");
}

#[test]
fn normalize_keeps_letters_without_a_lower_case_form() {
    assert_eq!(normalize_string("温度 (C)"), "温度_c");
    assert_eq!(normalize_string("٣ items"), "٣_items");
    assert_eq!(normalize_string("a→b"), "a_b");
}

#[test]
fn normalize_appends_every_character_of_a_longer_lower_case_form() {
    assert_eq!(normalize_string("\u{130}"), "i\u{307}");
    assert_eq!(normalize_string("x \u{130}Z"), "x_i\u{307}z");
}

#[test]
fn normalize_lowers_a_letter_beyond_ascii_into_ascii() {
    assert_eq!(normalize_string("\u{212a}"), "k");
    assert_eq!(normalize_string("5 \u{212a}"), "5_k");
}

#[test]
fn normalize_agrees_with_the_lower_case_mapping_of_each_letter() {
    for c in ['A', 'z', '7', 'É', 'é', 'ß', 'Σ', 'Ǆ', 'İ', 'K', '藏', 'Ⅷ'] {
        let expected: String = c.to_lowercase().collect();
        assert_eq!(normalize_string(&c.to_string()), expected, "{:?}", c);
    }
}

#[test]
fn letters_and_digits_are_told_from_the_rest() {
    for c in ['a', 'z', 'A', 'Z', '0', '9', 'é', 'ß', '藏', '٣'] {
        assert!(is_letter_or_digit(c), "{:?}", c);
    }
    for c in ['_', ' ', '-', '(', ')', '.', '@', '[', '`', '{', '/', ':', '\u{7f}', '→', '\u{a0}'] {
        assert!(!is_letter_or_digit(c), "{:?}", c);
    }
}

#[test]
fn letters_and_digits_agree_with_std_on_every_ascii_character() {
    for b in 0u8..128 {
        let c = b as char;
        assert_eq!(is_letter_or_digit(c), c.is_alphanumeric(), "{:?}", c);
        assert_eq!(is_decimal_digit(c), c.is_ascii_digit(), "{:?}", c);
    }
}

#[test]
fn chars_of_gives_the_characters_in_order() {
    assert_eq!(chars_of("aé藏"), vec!['a', 'é', '藏']);
    assert_eq!(chars_of(""), Vec::<char>::new());
}

#[test]
fn plain_numbers_are_numeric() {
    for s in ["3.14", "0", "42", "007", "1.", ".5", "0.0", "123456789012345678901234567890"] {
        assert!(is_numeric(s), "{:?}", s);
    }
}

#[test]
fn signed_numbers_are_numeric() {
    for s in ["+1", "-1", "-0.5", "+.5", "-5."] {
        assert!(is_numeric(s), "{:?}", s);
    }
}

#[test]
fn numbers_with_an_exponent_are_numeric() {
    for s in ["1e5", "1E5", "1e+5", "1e-5", "1.5e10", ".5e1", "5.e1", "-1.25E-3", "1e999"] {
        assert!(is_numeric(s), "{:?}", s);
    }
}

#[test]
fn words_are_not_numeric() {
    for s in ["abc", "oops", "x", "1x", "x1", "0x10", "1,5", "one"] {
        assert!(!is_numeric(s), "{:?}", s);
    }
}

#[test]
fn incomplete_numbers_are_not_numeric() {
    for s in ["", ".", "+", "-", "+.", "e", "e5", ".e5", "1e", "1e+", "1e-", "+e1", "1.e"] {
        assert!(!is_numeric(s), "{:?}", s);
    }
}

#[test]
fn numbers_with_anything_more_are_not_numeric() {
    for s in [" 1", "1 ", "1.2.3", "1e5.0", "1e5e5", "--1", "+-1", "1+", "1e++5", "1_000", "１"] {
        assert!(!is_numeric(s), "{:?}", s);
    }
}

#[test]
fn infinities_and_not_a_number_are_not_numeric() {
    for s in ["inf", "-inf", "+inf", "infinity", "Infinity", "nan", "NaN", "-NaN"] {
        assert!(!is_numeric(s), "{:?}", s);
    }
}

#[test]
fn numeric_agrees_with_the_float_parser_on_finite_spellings() {
    let samples = [
        "3.14", "abc", "", ".", "1.", ".5", "+1", "-1e5", "1e", "1e+", " 1", "1 ", "1.2.3",
        "1e5.0", "--1", "E5", "1E5", "+.5e-3", "0", "-0", "1e-999", "12.34e+56", "..", "1..",
        "e", "+", "-.", "5e", "5e5", ".e1", "1.e1", "١٢٣",
    ];
    for s in samples {
        assert_eq!(is_numeric(s), s.parse::<f64>().is_ok(), "{:?}", s);
    }
}
