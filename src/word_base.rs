use rand::seq::IteratorRandom;
use vstd::prelude::*;
use vstd::string::StringExecFns;

use crate::locale::{language_tag, AppLanguage};
use crate::text::str_eq;

verus! {

/// One word of a word base.
pub struct WordEntry {
    pub word: String,
}

/// Reading from and writing to a word base: a random unused word to guess, lookups of
/// guesses, and insertion that refuses duplicates.
pub trait WordBase {
    /// Whether a lookup of `text` finds an entry.
    spec fn knows(&self, text: Seq<char>) -> bool;

    /// Whether an entry holds exactly the word `w`.
    spec fn holds(&self, w: Seq<char>) -> bool;

    /// A word to guess, or `None` where the word base has none to give.
    fn get_random_word(&mut self) -> (r: Option<WordEntry>)
        ensures
            r matches Some(e) ==> old(self).holds(e.word@),
    ;

    /// The entry that a lookup of `text` finds, if any.
    fn find_word(&self, text: &str) -> (r: Option<WordEntry>)
        ensures
            r is Some <==> self.knows(text@),
    ;

    /// Adds an entry unless a lookup of its word already finds one; returns the entry when
    /// it was added.
    fn create_word(&mut self, word_entry: WordEntry) -> (r: Option<WordEntry>)
        ensures
            old(self).knows(word_entry.word@) ==> r is None,
            r matches Some(e) ==> e.word@ == word_entry.word@,
    ;

    /// Records that the word of `word_entry` was guessed; a word base that keeps no such
    /// record leaves itself unchanged.
    fn guessed_word(&mut self, word_entry: WordEntry);
}

/// An index drawn at random below `n`, or `None` when `n` is 0.
/// Relies on rand's `IteratorRandom::choose` over `0..n` with the thread's generator: it
/// returns `None` exactly when the range is empty, and otherwise one of its elements.
#[verifier::external_body]
pub(crate) fn choose_index(n: usize) -> (r: Option<usize>)
    ensures
        r is None <==> n == 0,
        r matches Some(i) ==> i < n,
{
    (0..n).choose(&mut rand::thread_rng())
}

/// The kinds of word base a game can use.
#[derive(Clone, Copy, Debug, PartialEq, Eq, Structural)]
pub enum StoreKind {
    /// A text file with one word per line.
    Text,
    /// A table of rows with rotation state.
    Db,
}

/// The kind of word base a selector names: `db` names the table, anything else the text file.
pub fn store_kind(dictionary_flag: &str) -> (r: StoreKind)
    ensures
        r == if dictionary_flag@ == seq!['d', 'b'] {
            StoreKind::Db
        } else {
            StoreKind::Text
        },
{
    let db = "db";
    proof {
        reveal_strlit("db");
        assert(db@ =~= seq!['d', 'b']);
    }
    if str_eq(dictionary_flag, db) {
        StoreKind::Db
    } else {
        StoreKind::Text
    }
}

/// The path of the text file that holds the words of a language.
pub fn dictionary_file_path(app_language: AppLanguage) -> (r: String)
    ensures
        r@ == "res/dictionary_"@ + language_tag(app_language) + ".txt"@,
{
    let mut path = String::from_str("res/dictionary_");
    let tag = app_language.to_string();
    path.append(tag.as_str());
    path.append(".txt");
    path
}

} // verus!
