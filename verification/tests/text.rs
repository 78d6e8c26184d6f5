//! Texts and numbers.
use retheme_codex::decimal::{decimal_chars, parse_decimal};
use retheme_codex::locale::normalize_theme_locale;
use retheme_codex::text::{
    chars_of, join_texts, split_header, split_lines, split_pieces, split_words, text_of, trim,
};

fn texts(parts: Vec<Vec<char>>) -> Vec<String> {
    parts.iter().map(|part| text_of(part)).collect()
}

#[test]
fn splits_as_the_standard_library_does() {
    for text in [
        "",
        "a",
        " a  b\tc ",
        "\u{a0}x\u{2003}y\u{3000}\u{85}",
        "a\r\nb\r\n\r\nc",
        "a\nb\n",
        "\n",
        "\r",
        "a\r",
        "a\rb\n\r\n",
        "中文 文本\r\n末",
        "\r\n\r\r\n",
    ] {
        let chars = chars_of(text);
        assert_eq!(
            texts(split_words(&chars)),
            text.split_whitespace().collect::<Vec<_>>(),
            "{text:?}"
        );
        assert_eq!(texts(split_lines(&chars)), text.lines().collect::<Vec<_>>(), "{text:?}");
        assert_eq!(
            texts(split_pieces(&chars, &['\r', '\n'])),
            text.split("\r\n").collect::<Vec<_>>(),
            "{text:?}"
        );
        assert_eq!(text_of(&trim(&chars)), text.trim(), "{text:?}");
    }
}

#[test]
fn a_header_ends_at_its_first_colon() {
    let (name, value) = split_header(&chars_of("Host: a:b")).unwrap();
    assert_eq!(text_of(&name), "Host");
    assert_eq!(text_of(&value), " a:b");
    assert!(split_header(&chars_of("Host")).is_none());
}

#[test]
fn joins_texts_with_a_separator() {
    assert_eq!(join_texts(&[], ", "), "");
    assert_eq!(join_texts(&["a".to_owned()], ", "), "a");
    assert_eq!(join_texts(&["a".to_owned(), String::new(), "b".to_owned()], ", "), "a, , b");
}

#[test]
fn numbers_read_back_from_their_digits() {
    for number in [0u64, 1, 9, 10, 99, 100, 65535, u64::MAX] {
        let digits = decimal_chars(number as u128);
        assert_eq!(text_of(&digits), number.to_string());
        assert_eq!(parse_decimal(&digits, u64::MAX), Some(number));
    }
    assert_eq!(text_of(&decimal_chars(u128::MAX)), u128::MAX.to_string());
}

#[test]
fn reads_numbers_as_the_standard_library_does() {
    for text in ["", "+", "-1", "+5", "++5", "007", "65535", "65536", " 1", "1 ", "١", "0x1", "1_0"] {
        let expected = text.parse::<u16>().ok().map(u64::from);
        assert_eq!(parse_decimal(&chars_of(text), u64::from(u16::MAX)), expected, "{text:?}");
    }
    assert_eq!(parse_decimal(&chars_of("18446744073709551616"), u64::MAX), None);
}

#[test]
fn locales_are_chinese_or_english() {
    for locale in ["zh", "ZH-TW", "zH_hans", "zhuang"] {
        assert_eq!(normalize_theme_locale(locale), "zh-CN");
    }
    for locale in ["", "z", "en", "fr-zh", "Ｚh"] {
        assert_eq!(normalize_theme_locale(locale), "en");
    }
    for locale in ["ZH-TW", "de"] {
        let once = normalize_theme_locale(locale);
        assert_eq!(normalize_theme_locale(once), once);
        assert_eq!(normalize_theme_locale(&locale.to_lowercase()), once);
    }
}
