use fancy_hangman::input::validate_user_input;
use fancy_hangman::locale::{
    app_language_of_locale, parse_app_language, replace_umlauts, replace_unicode, AppLanguage,
};

#[test]
fn test_replace_unicode() {
    assert_eq!(replace_unicode("schön", AppLanguage::DE), "schoen");
    assert_eq!(replace_unicode("geschoß", AppLanguage::DE), "geschoss");
    assert_eq!(replace_unicode("zäh", AppLanguage::DE), "zaeh");
    assert_eq!(replace_unicode("lüge", AppLanguage::DE), "luege");

    assert_eq!(replace_unicode("schön", AppLanguage::EN), "schon");
    assert_eq!(replace_unicode("geschoß", AppLanguage::EN), "geschoss");
    assert_eq!(replace_unicode("zäh", AppLanguage::EN), "zah");
    assert_eq!(replace_unicode("lüge", AppLanguage::EN), "luge");
}

#[test]
fn test_replace_umlauts() {
    assert_eq!(replace_umlauts("schön"), "schoen");
    assert_eq!(replace_umlauts("zäh"), "zaeh");
    assert_eq!(replace_umlauts("lüge"), "luege");

    assert_ne!(replace_umlauts("schön"), "schon");
    assert_ne!(replace_umlauts("zäh"), "zah");
    assert_ne!(replace_umlauts("lüge"), "luge");
}

#[test]
fn test_parse_app_language() {
    assert_eq!(parse_app_language("de"), AppLanguage::DE);
    assert_eq!(parse_app_language("de-AT"), AppLanguage::DE);
    assert_eq!(parse_app_language("de-DE"), AppLanguage::DE);
    assert_eq!(parse_app_language("en"), AppLanguage::EN);
    assert_eq!(parse_app_language("it"), AppLanguage::EN);
    assert_eq!(parse_app_language(""), AppLanguage::EN);

    assert_ne!(parse_app_language("de-DE"), AppLanguage::EN);
    assert_ne!(parse_app_language("it"), AppLanguage::DE);
    assert_ne!(parse_app_language(""), AppLanguage::DE);
}

#[test]
fn main_test_validate_user_input() {
    assert!(validate_user_input(
        replace_unicode("schön", AppLanguage::DE).as_str(), 6
    ));

    assert!(validate_user_input(
        replace_unicode("schön", AppLanguage::EN).as_str(), 5
    ));

    assert!(validate_user_input(
        replace_unicode("lüge", AppLanguage::DE).as_str(), 5
    ));

    assert!(validate_user_input(
        replace_unicode("lüge", AppLanguage::EN).as_str(), 4
    ));

    assert!(validate_user_input(
        replace_unicode("howdy", AppLanguage::DE).as_str(), 5
    ));

    assert!(validate_user_input(
        replace_unicode("howdy", AppLanguage::EN).as_str(), 5
    ));
}

#[test]
fn normalize_schoen_per_language() {
    assert_eq!(replace_unicode("schön", AppLanguage::DE), "schoen");
    assert_eq!(replace_unicode("schön", AppLanguage::EN), "schon");
}

#[test]
fn umlauts_left_alone_outside_german_words() {
    assert_eq!(replace_umlauts(""), "");
    assert_eq!(replace_umlauts("rusty"), "rusty");
    assert_eq!(replace_umlauts("äöü"), "aeoeue");
    assert_eq!(replace_umlauts("éß"), "éß");
}

#[test]
fn transliteration_reaches_ascii() {
    assert_eq!(replace_unicode("crème", AppLanguage::EN), "creme");
    assert_eq!(replace_unicode("crème", AppLanguage::DE), "creme");
    assert_eq!(replace_unicode("howdy", AppLanguage::DE), "howdy");
    assert!(replace_unicode("ñandú", AppLanguage::EN).is_ascii());
}

#[test]
fn language_of_missing_or_foreign_locale() {
    assert_eq!(app_language_of_locale(None), AppLanguage::EN);
    assert_eq!(app_language_of_locale(Some(String::from("de-AT"))), AppLanguage::DE);
    assert_eq!(app_language_of_locale(Some(String::from("en-US"))), AppLanguage::EN);
    assert_eq!(app_language_of_locale(Some(String::from("de-CH"))), AppLanguage::EN);
}

#[test]
fn language_tags() {
    assert_eq!(AppLanguage::DE.to_string(), "de");
    assert_eq!(AppLanguage::EN.to_string(), "en");
}

#[test]
fn system_language_is_read() {
    let l = fancy_hangman::locale::get_app_language();
    assert!(l == AppLanguage::DE || l == AppLanguage::EN);
}
