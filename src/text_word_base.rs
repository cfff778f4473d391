use vstd::prelude::*;

use crate::text::{lemma_trimmed_id, str_eq, trim, trimmed, is_trimmed};
use crate::word_base::{choose_index, WordBase, WordEntry};

verus! {

/// The first of `lines` whose trimmed form is `text`, if any.
pub open spec fn first_line_of(lines: Seq<Seq<char>>, text: Seq<char>) -> Option<Seq<char>>
    decreases lines.len(),
{
    if lines.len() == 0 {
        None
    } else {
        match first_line_of(lines.drop_last(), text) {
            Some(l) => Some(l),
            None => if trimmed(lines.last()) == text {
                Some(lines.last())
            } else {
                None
            },
        }
    }
}

/// Whether one of `lines` reads `text` once trimmed.
pub open spec fn lists(lines: Seq<Seq<char>>, text: Seq<char>) -> bool {
    first_line_of(lines, text) is Some
}

/// The lines after `w` was inserted: unchanged where `w` is listed, else `w` appended.
pub open spec fn lines_after_insert(lines: Seq<Seq<char>>, w: Seq<char>) -> Seq<Seq<char>> {
    if lists(lines, w) {
        lines
    } else {
        lines.push(w)
    }
}

/// How many of `lines` read `text` once trimmed.
pub open spec fn count_listed(lines: Seq<Seq<char>>, text: Seq<char>) -> nat
    decreases lines.len(),
{
    if lines.len() == 0 {
        0
    } else {
        count_listed(lines.drop_last(), text) + if trimmed(lines.last()) == text {
            1nat
        } else {
            0nat
        }
    }
}

/// A word base kept as a text file with one word per line: the path of the file and the
/// lines read from it.
pub struct TextWordBase {
    pub wordbase_file_path: String,
    pub lines: Vec<String>,
}

impl View for TextWordBase {
    type V = Seq<Seq<char>>;

    open spec fn view(&self) -> Seq<Seq<char>> {
        self.lines@.map_values(|l: String| l@)
    }
}

impl TextWordBase {
    /// A word base for the file at `file_path`, with no lines read yet.
    pub fn new(file_path: String) -> (r: TextWordBase)
        ensures
            r.wordbase_file_path == file_path,
            r@ == Seq::<Seq<char>>::empty(),
    {
        let r = TextWordBase { wordbase_file_path: file_path, lines: Vec::new() };
        assert(r@ =~= Seq::<Seq<char>>::empty());
        r
    }

    /// A word base for the file at `file_path` that holds `lines`.
    pub fn from_lines(file_path: String, lines: Vec<String>) -> (r: TextWordBase)
        ensures
            r.wordbase_file_path == file_path,
            r@ == lines@.map_values(|l: String| l@),
    {
        TextWordBase { wordbase_file_path: file_path, lines }
    }
}

/// A prefix of `lines` that lists `text` finds the same line as the whole.
proof fn lemma_first_line_prefix(lines: Seq<Seq<char>>, text: Seq<char>, k: int)
    requires
        0 <= k <= lines.len(),
        first_line_of(lines.take(k), text) is Some,
    ensures
        first_line_of(lines, text) == first_line_of(lines.take(k), text),
    decreases lines.len(),
{
    if k == lines.len() {
        assert(lines.take(k) =~= lines);
    } else {
        assert(lines.drop_last().take(k) =~= lines.take(k));
        lemma_first_line_prefix(lines.drop_last(), text, k);
    }
}

/// Lines of which none reads `text` count none that do.
proof fn lemma_unlisted_count(lines: Seq<Seq<char>>, text: Seq<char>)
    requires
        !lists(lines, text),
    ensures
        count_listed(lines, text) == 0,
    decreases lines.len(),
{
    if lines.len() > 0 {
        lemma_unlisted_count(lines.drop_last(), text);
    }
}

/// Appending a word that is its own trimmed form makes it listed; where it was not listed
/// before, the appended line is the one a lookup finds.
proof fn lemma_push_lists(lines: Seq<Seq<char>>, w: Seq<char>)
    requires
        is_trimmed(w),
    ensures
        lists(lines.push(w), w),
        !lists(lines, w) ==> first_line_of(lines.push(w), w) == Some(w),
{
    lemma_trimmed_id(w);
    assert(lines.push(w).drop_last() =~= lines);
}

/// Round trip: once a word that neither starts nor ends with white space has been inserted,
/// a lookup of it finds a line; where no line read it before, the line found is the word itself.
pub proof fn lemma_text_insert_then_find(lines: Seq<Seq<char>>, w: Seq<char>)
    requires
        is_trimmed(w),
    ensures
        lists(lines_after_insert(lines, w), w),
        !lists(lines, w) ==> first_line_of(lines_after_insert(lines, w), w) == Some(w),
{
    lemma_push_lists(lines, w);
}

/// Inserting a word that neither starts nor ends with white space twice has the effect of
/// inserting it once: the second insertion is refused, and where no line read the word
/// before, exactly one line reads it after both.
pub proof fn lemma_text_insert_twice(lines: Seq<Seq<char>>, w: Seq<char>)
    requires
        is_trimmed(w),
    ensures
        lists(lines_after_insert(lines, w), w),
        lines_after_insert(lines_after_insert(lines, w), w) == lines_after_insert(lines, w),
        !lists(lines, w) ==> count_listed(
            lines_after_insert(lines_after_insert(lines, w), w),
            w,
        ) == 1,
{
    lemma_push_lists(lines, w);
    if !lists(lines, w) {
        lemma_unlisted_count(lines, w);
        lemma_trimmed_id(w);
        assert(lines.push(w).drop_last() =~= lines);
    }
}

impl WordBase for TextWordBase {
    open spec fn knows(&self, text: Seq<char>) -> bool {
        lists(self@, text)
    }

    open spec fn holds(&self, w: Seq<char>) -> bool {
        self@.contains(w)
    }

    /// A line of the file drawn at random, each with the same chance.
    fn get_random_word(&mut self) -> (r: Option<WordEntry>)
        ensures
            *final(self) == *old(self),
            r is None <==> old(self)@.len() == 0,
    {
        match choose_index(self.lines.len()) {
            None => None,
            Some(i) => {
                let word = self.lines[i].clone();
                assert(self@[i as int] == word@);
                Some(WordEntry { word })
            },
        }
    }

    /// The first line that reads `text` once trimmed, as it stands in the file.
    fn find_word(&self, text: &str) -> (r: Option<WordEntry>)
        ensures
            match r {
                Some(e) => first_line_of(self@, text@) == Some(e.word@),
                None => first_line_of(self@, text@) is None,
            },
    {
        let ghost all = self@;
        let mut i: usize = 0;
        while i < self.lines.len()
            invariant
                all == self@,
                all.len() == self.lines.len(),
                i <= self.lines.len(),
                first_line_of(all.take(i as int), text@) is None,
            decreases self.lines.len() - i,
        {
            let line = &self.lines[i];
            assert(all[i as int] == line@);
            assert(all.take(i + 1).drop_last() =~= all.take(i as int));
            if str_eq(text, trim(line.as_str())) {
                proof {
                    lemma_first_line_prefix(all, text@, i + 1);
                }
                return Some(WordEntry { word: line.clone() });
            }
            i = i + 1;
        }
        assert(all.take(i as int) =~= all);
        None
    }

    /// Appends the word as a new line unless a line already reads it.
    fn create_word(&mut self, word_entry: WordEntry) -> (r: Option<WordEntry>)
        ensures
            final(self).wordbase_file_path == old(self).wordbase_file_path,
            final(self)@ == lines_after_insert(old(self)@, word_entry.word@),
            r is Some <==> !lists(old(self)@, word_entry.word@),
            r matches Some(e) ==> e.word@ == word_entry.word@,
    {
        match self.find_word(word_entry.word.as_str()) {
            Some(_) => None,
            None => {
                let ghost before = self@;
                self.lines.push(word_entry.word.clone());
                assert(self@ =~= before.push(word_entry.word@));
                Some(word_entry)
            },
        }
    }

    /// A text file keeps no record of guessed words: nothing changes.
    fn guessed_word(&mut self, word_entry: WordEntry)
        ensures
            *final(self) == *old(self),
    {
    }
}

} // verus!
