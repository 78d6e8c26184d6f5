//! Languages that the engine speaks.
use vstd::prelude::*;

use crate::text::{chars_of, lower_char, lower_chars, lowered, text_begins_with, text_of};

verus! {

/// The language of a theme for a requested locale: Chinese for every locale of that language, in
/// any case of its letters, else English.
pub open spec fn theme_locale(locale: Seq<char>) -> Seq<char> {
    if "zh"@.is_prefix_of(lowered(locale)) {
        "zh-CN"@
    } else {
        "en"@
    }
}

/// The language of a theme for a requested locale.
pub fn normalize_theme_locale(locale: &str) -> (result: &'static str)
    ensures
        result@ == theme_locale(locale@),
{
    let lower = text_of(lower_chars(chars_of(locale).as_slice()).as_slice());
    if text_begins_with(lower.as_str(), "zh") {
        "zh-CN"
    } else {
        "en"
    }
}

/// To normalize a locale twice is to normalize it once.
pub proof fn normalizing_a_locale_twice_changes_nothing(locale: Seq<char>)
    ensures
        theme_locale(theme_locale(locale)) == theme_locale(locale),
{
    reveal_strlit("zh");
    reveal_strlit("zh-CN");
    reveal_strlit("en");
    assert(lowered("zh-CN"@)[0] == 'z');
    assert(lowered("zh-CN"@)[1] == 'h');
    assert("zh"@ =~= lowered("zh-CN"@).subrange(0, 2));
    assert(lowered("en"@)[0] == 'e');
    assert("zh"@[0] == 'z');
    if "zh"@.is_prefix_of(lowered("en"@)) {
        assert(lowered("en"@).subrange(0, 2)[0] == 'e');
    }
}

/// The case of the letters of a locale makes no difference.
pub proof fn locale_case_makes_no_difference(locale: Seq<char>)
    ensures
        theme_locale(lowered(locale)) == theme_locale(locale),
{
    assert forall|i: int| 0 <= i < locale.len() implies lower_char(
        lower_char(#[trigger] locale[i]),
    ) == lower_char(locale[i]) by {
    }
    assert(lowered(lowered(locale)) =~= lowered(locale));
}

/// A theme speaks Chinese exactly where the locale begins with the letters of that language, large or
/// small, and English everywhere else.
pub proof fn chinese_locales_begin_with_zh(locale: Seq<char>)
    ensures
        ({
            let chinese = locale.len() >= 2 && (locale[0] == 'z' || locale[0] == 'Z') && (locale[1]
                == 'h' || locale[1] == 'H');
            theme_locale(locale) == if chinese {
                "zh-CN"@
            } else {
                "en"@
            }
        }),
{
    reveal_strlit("zh");
    reveal_strlit("zh-CN");
    reveal_strlit("en");
    let lower = lowered(locale);
    if locale.len() >= 2 {
        assert(lower[0] == lower_char(locale[0]));
        assert(lower[1] == lower_char(locale[1]));
        if lower[0] == 'z' && lower[1] == 'h' {
            assert("zh"@ =~= lower.subrange(0, 2));
        }
        if "zh"@.is_prefix_of(lower) {
            assert(lower.subrange(0, 2)[0] == lower[0]);
            assert(lower.subrange(0, 2)[1] == lower[1]);
        }
    }
}

/// A requested locale is normalized to Chinese exactly where it begins with the letters of that
/// language, large or small, and else to English.
pub proof fn requested_locale_is_normalized(locale: &str, normal: &'static str)
    requires
        call_ensures(normalize_theme_locale, (locale,), normal),
    ensures
        locale@.len() >= 2 && (locale@[0] == 'z' || locale@[0] == 'Z') && (locale@[1] == 'h'
            || locale@[1] == 'H') ==> normal@ == "zh-CN"@,
        !(locale@.len() >= 2 && (locale@[0] == 'z' || locale@[0] == 'Z') && (locale@[1] == 'h'
            || locale@[1] == 'H')) ==> normal@ == "en"@,
{
    chinese_locales_begin_with_zh(locale@);
}

} // verus!
