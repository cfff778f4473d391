use vstd::prelude::*;

use crate::locale::{normalized, replace_unicode, AppLanguage};
use crate::text::{lowercase_of, to_lowercase, trim, trimmed};

verus! {

/// Whether `user_input` is `expected_len` characters long.
pub fn validate_user_input(user_input: &str, expected_len: usize) -> (r: bool)
    ensures
        r == (user_input@.len() == expected_len),
{
    user_input.unicode_len() == expected_len
}

/// A line typed by the player in canonical form: lowercased, trimmed, then turned into
/// ASCII as the language asks.
pub open spec fn polished_input(input: Seq<char>, l: AppLanguage) -> Seq<char> {
    normalized(trimmed(lowercase_of(input)), l)
}

/// The guess that a typed line stands for, or `None` where its canonical form does not have
/// `word_len` characters.
pub fn polish_guess(input: &str, app_language: AppLanguage, word_len: usize) -> (r: Option<
    String,
>)
    ensures
        r is Some <==> polished_input(input@, app_language).len() == word_len,
        r matches Some(g) ==> g@ == lowercase_of(polished_input(input@, app_language)),
{
    let lowered = to_lowercase(input);
    let polished = replace_unicode(trim(lowered.as_str()), app_language);
    if validate_user_input(polished.as_str(), word_len) {
        Some(to_lowercase(polished.as_str()))
    } else {
        None
    }
}

/// A line of a raw word list in canonical form: lowercased, then turned into ASCII as the
/// language asks.
pub open spec fn polished_word(line: Seq<char>, l: AppLanguage) -> Seq<char> {
    normalized(lowercase_of(line), l)
}

/// The canonical forms of `lines` that have `word_len` characters, in order.
pub open spec fn polished_words(lines: Seq<Seq<char>>, l: AppLanguage, word_len: nat) -> Seq<
    Seq<char>,
>
    decreases lines.len(),
{
    if lines.len() == 0 {
        Seq::empty()
    } else {
        let rest = polished_words(lines.drop_last(), l, word_len);
        let p = polished_word(lines.last(), l);
        if p.len() == word_len {
            rest.push(p)
        } else {
            rest
        }
    }
}

/// Prepares a raw word list for import: each line in canonical form, keeping those of
/// `word_len` characters.
pub fn polish(lines: &Vec<String>, app_language: AppLanguage, word_len: usize) -> (r: Vec<String>)
    ensures
        r@.map_values(|w: String| w@) == polished_words(
            lines@.map_values(|l: String| l@),
            app_language,
            word_len as nat,
        ),
{
    let ghost all = lines@.map_values(|l: String| l@);
    let mut r: Vec<String> = Vec::new();
    let mut i: usize = 0;
    while i < lines.len()
        invariant
            all == lines@.map_values(|l: String| l@),
            i <= lines.len(),
            r@.map_values(|w: String| w@) == polished_words(all.take(i as int), app_language, word_len as nat),
        decreases lines.len() - i,
    {
        let lowered = to_lowercase(lines[i].as_str());
        let polished = replace_unicode(lowered.as_str(), app_language);
        proof {
            assert(all.take(i + 1).drop_last() =~= all.take(i as int));
            assert(all.take(i + 1).last() == lines@[i as int]@);
        }
        let ghost before = r@;
        if validate_user_input(polished.as_str(), word_len) {
            r.push(polished);
            assert(r@.map_values(|w: String| w@) =~= before.map_values(|w: String| w@).push(
                polished_word(lines@[i as int]@, app_language),
            ));
        }
        i = i + 1;
    }
    assert(all.take(i as int) =~= all);
    r
}

} // verus!
