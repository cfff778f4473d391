use vstd::prelude::*;
use crate::text::{chars_of, push_char, str_eq};
use vstd::utf8::is_ascii_chars;

verus! {

/// The language the game is played in; it decides how input text is transliterated.
#[derive(Clone, Copy, Debug, PartialEq, Eq, Structural)]
pub enum AppLanguage {
    /// German: umlauts are spelled out before transliteration.
    DE,
    /// English: text is transliterated as it stands.
    EN,
}

/// The language a locale tag selects: German for `de`, `de-DE` and `de-AT`, English otherwise.
pub open spec fn language_of_tag(tag: Seq<char>) -> AppLanguage {
    if tag == seq!['d', 'e'] || tag == seq!['d', 'e', '-', 'D', 'E'] || tag == seq![
        'd',
        'e',
        '-',
        'A',
        'T',
    ] {
        AppLanguage::DE
    } else {
        AppLanguage::EN
    }
}

/// Maps a locale tag such as `de-AT` to the language of the game.
pub fn parse_app_language(locale_str: &str) -> (r: AppLanguage)
    ensures
        r == language_of_tag(locale_str@),
{
    let de = "de";
    let de_de = "de-DE";
    let de_at = "de-AT";
    proof {
        reveal_strlit("de");
        reveal_strlit("de-DE");
        reveal_strlit("de-AT");
        assert(de@ =~= seq!['d', 'e']);
        assert(de_de@ =~= seq!['d', 'e', '-', 'D', 'E']);
        assert(de_at@ =~= seq!['d', 'e', '-', 'A', 'T']);
    }
    if str_eq(locale_str, de) || str_eq(locale_str, de_de) || str_eq(locale_str, de_at) {
        AppLanguage::DE
    } else {
        AppLanguage::EN
    }
}

/// The short tag under which words of a language are stored (`de`, `en`).
pub open spec fn language_tag(l: AppLanguage) -> Seq<char> {
    match l {
        AppLanguage::DE => seq!['d', 'e'],
        AppLanguage::EN => seq!['e', 'n'],
    }
}

impl AppLanguage {
    /// The short tag of this language, as stored beside each word.
    pub fn to_string(&self) -> (r: String)
        ensures
            r@ == language_tag(*self),
    {
        let mut r = String::new();
        match self {
            AppLanguage::DE => {
                push_char(&mut r, 'd');
                push_char(&mut r, 'e');
            },
            AppLanguage::EN => {
                push_char(&mut r, 'e');
                push_char(&mut r, 'n');
            },
        }
        assert(r@ =~= language_tag(*self));
        r
    }
}

/// What the locale of the system selects: German for a German locale, English for any
/// other locale and where none can be read.
pub open spec fn language_of_locale(locale: Option<Seq<char>>) -> AppLanguage {
    match locale {
        Some(tag) => language_of_tag(tag),
        None => AppLanguage::EN,
    }
}

/// The language that a locale read from the system selects.
pub fn app_language_of_locale(locale: Option<String>) -> (r: AppLanguage)
    ensures
        r == language_of_locale(
            match locale {
                Some(s) => Some(s@),
                None => None,
            },
        ),
{
    match locale {
        Some(tag) => parse_app_language(tag.as_str()),
        None => AppLanguage::EN,
    }
}

/// The locale of the system, such as `en-US`, where one can be read.
/// Relies on `sys_locale::get_locale`; the result depends on the machine, so nothing is
/// stated of it.
#[verifier::external_body]
fn system_locale() -> (r: Option<String>) {
    sys_locale::get_locale()
}

/// The language of the game as the locale of the system selects it.
pub fn get_app_language() -> (r: AppLanguage) {
    app_language_of_locale(system_locale())
}

/// The letters that stand for one character when German umlauts are spelled out:
/// `ä` as `ae`, `ö` as `oe`, `ü` as `ue`, any other character as itself.
pub open spec fn umlaut_spelling(c: char) -> Seq<char> {
    if c == '\u{e4}' {
        seq!['a', 'e']
    } else if c == '\u{f6}' {
        seq!['o', 'e']
    } else if c == '\u{fc}' {
        seq!['u', 'e']
    } else {
        seq![c]
    }
}

/// `s` with each lowercase German umlaut spelled out.
pub open spec fn without_umlauts(s: Seq<char>) -> Seq<char>
    decreases s.len(),
{
    if s.len() == 0 {
        Seq::empty()
    } else {
        without_umlauts(s.drop_last()) + umlaut_spelling(s.last())
    }
}

/// Replaces the lowercase German umlauts `ä`, `ö` and `ü` by `ae`, `oe` and `ue`.
pub fn replace_umlauts(word: &str) -> (r: String)
    ensures
        r@ == without_umlauts(word@),
{
    let cs = chars_of(word);
    let mut r = String::new();
    let mut i: usize = 0;
    while i < cs.len()
        invariant
            cs@ == word@,
            i <= cs.len(),
            r@ == without_umlauts(cs@.take(i as int)),
        decreases cs.len() - i,
    {
        let c = cs[i];
        if c == '\u{e4}' {
            push_char(&mut r, 'a');
            push_char(&mut r, 'e');
        } else if c == '\u{f6}' {
            push_char(&mut r, 'o');
            push_char(&mut r, 'e');
        } else if c == '\u{fc}' {
            push_char(&mut r, 'u');
            push_char(&mut r, 'e');
        } else {
            push_char(&mut r, c);
        }
        assert(cs@.take(i + 1).drop_last() =~= cs@.take(i as int));
        assert(r@ =~= without_umlauts(cs@.take(i + 1)));
        i = i + 1;
    }
    assert(cs@.take(cs.len() as int) =~= cs@);
    r
}

/// What `any_ascii` makes of a text: each character replaced by its ASCII transliteration.
pub uninterp spec fn transliterated(s: Seq<char>) -> Seq<char>;

/// Transliterates a text to ASCII.
/// Relies on `any_ascii::any_ascii`, which keeps ASCII characters as they are and replaces
/// every other one by printable ASCII (possibly none).
#[verifier::external_body]
fn any_ascii_of(s: &str) -> (r: String)
    ensures
        r@ == transliterated(s@),
        is_ascii_chars(r@),
        is_ascii_chars(s@) ==> r@ == s@,
{
    any_ascii::any_ascii(s)
}

/// The ASCII form of `word` in language `l`: German umlauts are spelled out first, the
/// rest is transliterated.
pub open spec fn normalized(word: Seq<char>, l: AppLanguage) -> Seq<char> {
    match l {
        AppLanguage::DE => transliterated(without_umlauts(word)),
        AppLanguage::EN => transliterated(word),
    }
}

/// Turns a lowercase word into ASCII, spelling out German umlauts when the language is
/// German.
pub fn replace_unicode(word: &str, app_language: AppLanguage) -> (r: String)
    ensures
        r@ == normalized(word@, app_language),
        is_ascii_chars(r@),
{
    match app_language {
        AppLanguage::DE => {
            let without = replace_umlauts(word);
            any_ascii_of(without.as_str())
        },
        AppLanguage::EN => any_ascii_of(word),
    }
}

} // verus!
