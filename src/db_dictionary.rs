use chrono::Datelike;
use vstd::prelude::*;

use crate::locale::{language_tag, AppLanguage};
use crate::text::str_eq;
use crate::word_base::{choose_index, WordBase, WordEntry};

verus! {

/// A calendar day.
#[derive(Clone, Copy, Debug, PartialEq, Eq, Structural)]
pub struct Day {
    pub year: i32,
    /// 1 to 12.
    pub month: u32,
    /// 1 to 31.
    pub day: u32,
}

impl Day {
    /// Month and day of month lie in their ranges.
    pub open spec fn wf(&self) -> bool {
        1 <= self.month <= 12 && 1 <= self.day <= 31
    }
}

/// Today's date in UTC.
/// Relies on chrono: `Utc::now()` read as a naive UTC date, whose `Datelike` month lies in
/// 1 to 12 and whose day of month lies in 1 to 31.
#[verifier::external_body]
fn today_utc() -> (r: Day)
    ensures
        r.wf(),
{
    let today = chrono::Utc::now().naive_utc().date();
    Day { year: today.year(), month: today.month(), day: today.day() }
}

/// A row of the word table.
pub struct DbDictionaryEntry {
    pub id: i32,
    pub word: String,
    /// The day on which the word was served as the word of the day, if any.
    pub used_at: Option<Day>,
    /// Whether the word was guessed by the player it was served to.
    pub guessed: bool,
    /// The tag of the language the word belongs to.
    pub language: String,
}

/// A row to insert into the word table; the table assigns its id.
pub struct NewDbDictionaryEntry {
    pub word: String,
    pub language: String,
}

impl DbDictionaryEntry {
    /// A copy of this row.
    pub fn copy(&self) -> (r: DbDictionaryEntry)
        ensures
            r == *self,
    {
        DbDictionaryEntry {
            id: self.id,
            word: self.word.clone(),
            used_at: self.used_at,
            guessed: self.guessed,
            language: self.language.clone(),
        }
    }
}

/// The row belongs to language `l`.
pub open spec fn in_language(row: DbDictionaryEntry, l: AppLanguage) -> bool {
    row.language@ == language_tag(l)
}

/// The row holds word `w` of language `l`.
pub open spec fn holds_word(row: DbDictionaryEntry, l: AppLanguage, w: Seq<char>) -> bool {
    in_language(row, l) && row.word@ == w
}

/// Some row holds word `w` of language `l`.
pub open spec fn has_word(rows: Seq<DbDictionaryEntry>, l: AppLanguage, w: Seq<char>) -> bool {
    exists|i: int| 0 <= i < rows.len() && holds_word(#[trigger] rows[i], l, w)
}

/// How many rows hold word `w` of language `l`.
pub open spec fn count_word(rows: Seq<DbDictionaryEntry>, l: AppLanguage, w: Seq<char>) -> nat
    decreases rows.len(),
{
    if rows.len() == 0 {
        0
    } else {
        count_word(rows.drop_last(), l, w) + if holds_word(rows.last(), l, w) {
            1nat
        } else {
            0nat
        }
    }
}

/// The row was served as the word of day `d` in language `l`.
pub open spec fn is_word_of_day(row: DbDictionaryEntry, l: AppLanguage, d: Day) -> bool {
    in_language(row, l) && row.used_at == Some(d)
}

/// The row belongs to language `l` and was never served.
pub open spec fn is_unused(row: DbDictionaryEntry, l: AppLanguage) -> bool {
    in_language(row, l) && row.used_at is None
}

/// The index of the first row served as the word of day `d` in language `l`, if any.
pub open spec fn word_of_day_index(rows: Seq<DbDictionaryEntry>, l: AppLanguage, d: Day) -> Option<
    int,
>
    decreases rows.len(),
{
    if rows.len() == 0 {
        None
    } else {
        match word_of_day_index(rows.drop_last(), l, d) {
            Some(i) => Some(i),
            None => if is_word_of_day(rows.last(), l, d) {
                Some(rows.len() - 1)
            } else {
                None
            },
        }
    }
}

/// The largest id of the rows, or 0 where there is none larger.
pub open spec fn max_id(rows: Seq<DbDictionaryEntry>) -> int
    decreases rows.len(),
{
    if rows.len() == 0 {
        0
    } else {
        let m = max_id(rows.drop_last());
        if rows.last().id > m {
            rows.last().id as int
        } else {
            m
        }
    }
}

/// `row` is the row that inserting word `w` of language `l` adds with id `id`.
pub open spec fn is_new_row(row: DbDictionaryEntry, id: int, l: AppLanguage, w: Seq<char>) -> bool {
    &&& row.id == id
    &&& row.word@ == w
    &&& row.used_at is None
    &&& !row.guessed
    &&& row.language@ == language_tag(l)
}

/// What inserting word `w` of language `l` does: where the word is already there, or no id
/// is left above the largest, nothing is added and the rows stay as they were; otherwise a
/// fresh row with the next id is appended.
pub open spec fn insert_outcome(
    before: Seq<DbDictionaryEntry>,
    l: AppLanguage,
    w: Seq<char>,
    after: Seq<DbDictionaryEntry>,
    added: bool,
) -> bool {
    if has_word(before, l, w) || max_id(before) >= i32::MAX {
        !added && after == before
    } else {
        &&& added
        &&& after.len() == before.len() + 1
        &&& after.drop_last() == before
        &&& is_new_row(after.last(), max_id(before) + 1, l, w)
    }
}

/// What serving the word of day `d` in language `l` does: a row already served on that day
/// is served again and nothing changes; otherwise one never-served row is marked as served
/// on `d` and served; where there is none, nothing is served.
pub open spec fn serve_outcome(
    before: Seq<DbDictionaryEntry>,
    l: AppLanguage,
    d: Day,
    after: Seq<DbDictionaryEntry>,
    served: Option<DbDictionaryEntry>,
) -> bool {
    match word_of_day_index(before, l, d) {
        Some(i) => after == before && served == Some(before[i]),
        None => if exists|i: int| 0 <= i < before.len() && is_unused(#[trigger] before[i], l) {
            exists|i: int|
                0 <= i < before.len() && is_unused(#[trigger] before[i], l) && after == before.update(
                    i,
                    DbDictionaryEntry { used_at: Some(d), ..before[i] },
                ) && served == Some(after[i])
        } else {
            after == before && served is None
        },
    }
}

/// What marking word `w` of language `l` as guessed does: each row that holds it is marked
/// as guessed, every other row stays as it was.
pub open spec fn marked_guessed(
    before: Seq<DbDictionaryEntry>,
    l: AppLanguage,
    w: Seq<char>,
    after: Seq<DbDictionaryEntry>,
) -> bool {
    &&& after.len() == before.len()
    &&& forall|i: int|
        0 <= i < before.len() ==> #[trigger] after[i] == if holds_word(before[i], l, w) {
            DbDictionaryEntry { guessed: true, ..before[i] }
        } else {
            before[i]
        }
}

/// A word base kept in a table of rows, each with the day it was served and whether it was
/// guessed; it serves one word per day and language.
pub struct DbDictionary {
    pub rows: Vec<DbDictionaryEntry>,
    pub app_language: AppLanguage,
}

/// Where no row before `k` is served on day `d`, and row `k` is, row `k` is the first.
proof fn lemma_word_of_day_first(rows: Seq<DbDictionaryEntry>, l: AppLanguage, d: Day, k: int)
    requires
        0 <= k < rows.len(),
        is_word_of_day(rows[k], l, d),
        forall|j: int| 0 <= j < k ==> !is_word_of_day(#[trigger] rows[j], l, d),
    ensures
        word_of_day_index(rows, l, d) == Some(k),
    decreases rows.len(),
{
    if k < rows.len() - 1 {
        lemma_word_of_day_first(rows.drop_last(), l, d, k);
    } else {
        lemma_word_of_day_none(rows.drop_last(), l, d);
    }
}

/// No row is served on day `d` exactly when the search for one finds none.
proof fn lemma_word_of_day_none(rows: Seq<DbDictionaryEntry>, l: AppLanguage, d: Day)
    ensures
        word_of_day_index(rows, l, d) is None <==> forall|j: int|
            0 <= j < rows.len() ==> !is_word_of_day(#[trigger] rows[j], l, d),
    decreases rows.len(),
{
    if rows.len() > 0 {
        lemma_word_of_day_none(rows.drop_last(), l, d);
        assert forall|j: int| 0 <= j < rows.len() - 1 implies rows.drop_last()[j] == rows[j] by {}
        if word_of_day_index(rows, l, d) is None {
            assert forall|j: int| 0 <= j < rows.len() implies !is_word_of_day(
                #[trigger] rows[j],
                l,
                d,
            ) by {
                if j < rows.len() - 1 {
                    assert(rows.drop_last()[j] == rows[j]);
                }
            }
        }
    }
}

/// The row that the search for the word of day `d` finds was served on that day.
proof fn lemma_word_of_day_found(rows: Seq<DbDictionaryEntry>, l: AppLanguage, d: Day)
    ensures
        word_of_day_index(rows, l, d) matches Some(i) ==> 0 <= i < rows.len() && is_word_of_day(
            rows[i],
            l,
            d,
        ),
    decreases rows.len(),
{
    if rows.len() > 0 {
        lemma_word_of_day_found(rows.drop_last(), l, d);
    }
}

impl DbDictionary {
    /// A word base over `rows` that serves words of `app_language`.
    pub fn new(rows: Vec<DbDictionaryEntry>, app_language: AppLanguage) -> (r: DbDictionary)
        ensures
            r.rows@ == rows@,
            r.app_language == app_language,
    {
        DbDictionary { rows, app_language }
    }

    /// The row that inserting `word` adds to the table.
    pub fn new_row(&self, word: &String) -> (r: NewDbDictionaryEntry)
        ensures
            r.word@ == word@,
            r.language@ == language_tag(self.app_language),
    {
        NewDbDictionaryEntry { word: word.clone(), language: self.app_language.to_string() }
    }

    /// The index of the row to serve on `current_day`: the row already served on that day,
    /// else a never-served row drawn at random, else none.
    fn get_word_of_today(&self, current_day: Day) -> (r: Option<usize>)
        ensures
            r matches Some(i) ==> i < self.rows.len(),
            match word_of_day_index(self.rows@, self.app_language, current_day) {
                Some(i) => r == Some(i as usize),
                None => match r {
                    Some(i) => i < self.rows.len() && is_unused(self.rows@[i as int], self.app_language),
                    None => forall|j: int|
                        0 <= j < self.rows.len() ==> !is_unused(#[trigger] self.rows@[j], self.app_language),
                },
            },
    {
        let tag = self.app_language.to_string();
        let mut i: usize = 0;
        while i < self.rows.len()
            invariant
                tag@ == language_tag(self.app_language),
                i <= self.rows.len(),
                forall|j: int| 0 <= j < i ==> !is_word_of_day(#[trigger] self.rows@[j], self.app_language, current_day),
            decreases self.rows.len() - i,
        {
            let row = &self.rows[i];
            let served_today = match row.used_at {
                Some(d) => d == current_day,
                None => false,
            };
            if served_today && row.language == tag {
                proof {
                    lemma_word_of_day_first(self.rows@, self.app_language, current_day, i as int);
                }
                return Some(i);
            }
            i = i + 1;
        }
        proof {
            lemma_word_of_day_none(self.rows@, self.app_language, current_day);
        }
        let mut candidates: Vec<usize> = Vec::new();
        let mut k: usize = 0;
        while k < self.rows.len()
            invariant
                tag@ == language_tag(self.app_language),
                k <= self.rows.len(),
                forall|m: int| 0 <= m < candidates.len() ==> #[trigger] candidates@[m] < self.rows.len()
                    && is_unused(self.rows@[candidates@[m] as int], self.app_language),
                forall|j: int| 0 <= j < k && is_unused(#[trigger] self.rows@[j], self.app_language)
                    ==> candidates@.contains(j as usize),
            decreases self.rows.len() - k,
        {
            let row = &self.rows[k];
            if row.used_at.is_none() && row.language == tag {
                let ghost old_c = candidates@;
                candidates.push(k);
                assert(candidates@ == old_c.push(k));
                assert forall|j: int| 0 <= j <= k && is_unused(#[trigger] self.rows@[j], self.app_language)
                    implies candidates@.contains(j as usize) by {
                    if j < k {
                        let m = choose|m: int| 0 <= m < old_c.len() && old_c[m] == j as usize;
                        assert(candidates@[m] == j as usize);
                    } else {
                        assert(candidates@[old_c.len() as int] == k);
                    }
                }
            }
            k = k + 1;
        }
        match choose_index(candidates.len()) {
            Some(pick) => Some(candidates[pick]),
            None => {
                assert forall|j: int| 0 <= j < self.rows.len() implies !is_unused(#[trigger] self.rows@[j], self.app_language) by {
                    if is_unused(self.rows@[j], self.app_language) {
                        assert(candidates@.contains(j as usize));
                    }
                }
                None
            },
        }
    }

    /// Serves the word of `current_day`: the row already served on that day, else a
    /// never-served row drawn at random, which is then marked as served on that day. The row
    /// served is returned as it stands afterwards.
    pub fn get_random_word_on(&mut self, current_day: Day) -> (r: Option<DbDictionaryEntry>)
        ensures
            final(self).app_language == old(self).app_language,
            serve_outcome(old(self).rows@, old(self).app_language, current_day, final(self).rows@, r),
    {
        match self.get_word_of_today(current_day) {
            None => None,
            Some(i) => {
                let ghost before = self.rows@;
                let row = self.rows[i].copy();
                let updated = DbDictionaryEntry { used_at: Some(current_day), ..row };
                self.rows.set(i, updated);
                let r = self.rows[i].copy();
                proof {
                    lemma_word_of_day_found(before, self.app_language, current_day);
                    if word_of_day_index(before, self.app_language, current_day) is Some {
                        assert(updated == before[i as int]);
                        assert(self.rows@ =~= before);
                    } else {
                        assert(is_unused(before[i as int], self.app_language));
                        assert(self.rows@ == before.update(
                            i as int,
                            DbDictionaryEntry { used_at: Some(current_day), ..before[i as int] },
                        ));
                    }
                }
                Some(r)
            },
        }
    }

    /// Serves the word of today (UTC), as [`DbDictionary::get_random_word_on`] does for a
    /// given day.
    pub fn serve_today(&mut self) -> (r: Option<DbDictionaryEntry>)
        ensures
            final(self).app_language == old(self).app_language,
            exists|d: Day|
                d.wf() && serve_outcome(old(self).rows@, old(self).app_language, d, final(self).rows@, r),
            r matches Some(row) ==> has_word(old(self).rows@, old(self).app_language, row.word@),
    {
        let ghost before = self.rows@;
        let today = today_utc();
        let served = self.get_random_word_on(today);
        proof {
            lemma_word_of_day_found(before, self.app_language, today);
            if served is Some {
                match word_of_day_index(before, self.app_language, today) {
                    Some(i) => {
                        assert(holds_word(before[i], self.app_language, served->0.word@));
                    },
                    None => {
                        let i = choose|i: int|
                            0 <= i < before.len() && is_unused(#[trigger] before[i], self.app_language)
                                && self.rows@ == before.update(
                                i,
                                DbDictionaryEntry { used_at: Some(today), ..before[i] },
                            ) && served == Some(self.rows@[i]);
                        assert(holds_word(before[i], self.app_language, served->0.word@));
                    },
                }
            }
        }
        served
    }

    /// The largest id of the rows, or 0 where there is none larger.
    fn max_row_id(&self) -> (r: i32)
        ensures
            r == max_id(self.rows@),
    {
        let mut m: i32 = 0;
        let mut i: usize = 0;
        while i < self.rows.len()
            invariant
                i <= self.rows.len(),
                m == max_id(self.rows@.take(i as int)),
            decreases self.rows.len() - i,
        {
            assert(self.rows@.take(i + 1).drop_last() =~= self.rows@.take(i as int));
            if self.rows[i].id > m {
                m = self.rows[i].id;
            }
            i = i + 1;
        }
        assert(self.rows@.take(i as int) =~= self.rows@);
        m
    }
}

impl WordBase for DbDictionary {
    open spec fn knows(&self, text: Seq<char>) -> bool {
        has_word(self.rows@, self.app_language, text)
    }

    open spec fn holds(&self, w: Seq<char>) -> bool {
        has_word(self.rows@, self.app_language, w)
    }

    /// The word of today (UTC), served as [`DbDictionary::get_random_word_on`] serves it.
    fn get_random_word(&mut self) -> (r: Option<WordEntry>)
        ensures
            final(self).app_language == old(self).app_language,
            exists|d: Day, e: Option<DbDictionaryEntry>|
                d.wf() && serve_outcome(old(self).rows@, old(self).app_language, d, final(self).rows@, e)
                    && match r {
                    Some(w) => e matches Some(row) && w.word@ == row.word@,
                    None => e is None,
                },
    {
        match self.serve_today() {
            None => None,
            Some(row) => Some(WordEntry { word: row.word }),
        }
    }

    /// A word of the active language that reads exactly `text`.
    fn find_word(&self, text: &str) -> (r: Option<WordEntry>)
        ensures
            r matches Some(e) ==> e.word@ == text@,
    {
        let tag = self.app_language.to_string();
        let mut i: usize = 0;
        while i < self.rows.len()
            invariant
                tag@ == language_tag(self.app_language),
                i <= self.rows.len(),
                forall|j: int| 0 <= j < i ==> !holds_word(#[trigger] self.rows@[j], self.app_language, text@),
            decreases self.rows.len() - i,
        {
            let row = &self.rows[i];
            if str_eq(row.word.as_str(), text) && row.language == tag {
                assert(holds_word(self.rows@[i as int], self.app_language, text@));
                return Some(WordEntry { word: row.word.clone() });
            }
            i = i + 1;
        }
        None
    }

    /// Adds a fresh row for the word, with the next id, unless the word is already there.
    fn create_word(&mut self, word_entry: WordEntry) -> (r: Option<WordEntry>)
        ensures
            final(self).app_language == old(self).app_language,
            insert_outcome(old(self).rows@, old(self).app_language, word_entry.word@, final(self).rows@, r is Some),
    {
        match self.find_word(word_entry.word.as_str()) {
            Some(_) => None,
            None => {
                let m = self.max_row_id();
                if m == i32::MAX {
                    None
                } else {
                    let ghost before = self.rows@;
                    let new_row = self.new_row(&word_entry.word);
                    let row = DbDictionaryEntry {
                        id: m + 1,
                        word: new_row.word,
                        used_at: None,
                        guessed: false,
                        language: new_row.language,
                    };
                    self.rows.push(row);
                    assert(self.rows@.drop_last() =~= before);
                    Some(word_entry)
                }
            },
        }
    }

    /// Marks every row of the active language that holds the word as guessed.
    fn guessed_word(&mut self, word_entry: WordEntry)
        ensures
            final(self).app_language == old(self).app_language,
            marked_guessed(old(self).rows@, old(self).app_language, word_entry.word@, final(self).rows@),
    {
        let tag = self.app_language.to_string();
        let ghost before = self.rows@;
        let mut i: usize = 0;
        while i < self.rows.len()
            invariant
                tag@ == language_tag(self.app_language),
                i <= self.rows.len(),
                self.rows.len() == before.len(),
                forall|j: int|
                    0 <= j < before.len() ==> #[trigger] self.rows@[j] == if j < i && holds_word(
                        before[j],
                        self.app_language,
                        word_entry.word@,
                    ) {
                        DbDictionaryEntry { guessed: true, ..before[j] }
                    } else {
                        before[j]
                    },
            decreases self.rows.len() - i,
        {
            if str_eq(self.rows[i].word.as_str(), word_entry.word.as_str()) && self.rows[i].language == tag {
                let row = self.rows[i].copy();
                let updated = DbDictionaryEntry { guessed: true, ..row };
                self.rows.set(i, updated);
            }
            i = i + 1;
        }
    }
}

/// Rows of which none holds the word count none that do.
proof fn lemma_count_absent(rows: Seq<DbDictionaryEntry>, l: AppLanguage, w: Seq<char>)
    requires
        !has_word(rows, l, w),
    ensures
        count_word(rows, l, w) == 0,
    decreases rows.len(),
{
    if rows.len() > 0 {
        assert(!has_word(rows.drop_last(), l, w)) by {
            if has_word(rows.drop_last(), l, w) {
                let i = choose|i: int|
                    0 <= i < rows.drop_last().len() && holds_word(#[trigger] rows.drop_last()[i], l, w);
                assert(rows[i] == rows.drop_last()[i]);
            }
        }
        lemma_count_absent(rows.drop_last(), l, w);
        assert(!holds_word(rows[rows.len() - 1], l, w));
    }
}

/// Round trip: after an insertion of `w`, a lookup of `w` finds it, unless the insertion
/// was refused for want of a fresh id.
pub proof fn lemma_db_insert_then_find(
    before: Seq<DbDictionaryEntry>,
    l: AppLanguage,
    w: Seq<char>,
    after: Seq<DbDictionaryEntry>,
    added: bool,
)
    requires
        insert_outcome(before, l, w, after, added),
    ensures
        added || has_word(before, l, w) ==> has_word(after, l, w),
        max_id(before) < i32::MAX ==> has_word(after, l, w),
{
    if added {
        assert(holds_word(after[after.len() - 1], l, w));
    }
}

/// Inserting the same word twice: the second insertion is refused and changes nothing, and
/// where the word was not there and a fresh id was left, exactly one row holds it after both.
pub proof fn lemma_db_insert_twice(
    rows0: Seq<DbDictionaryEntry>,
    l: AppLanguage,
    w: Seq<char>,
    rows1: Seq<DbDictionaryEntry>,
    added1: bool,
    rows2: Seq<DbDictionaryEntry>,
    added2: bool,
)
    requires
        insert_outcome(rows0, l, w, rows1, added1),
        insert_outcome(rows1, l, w, rows2, added2),
    ensures
        !added2,
        rows2 == rows1,
        !has_word(rows0, l, w) && max_id(rows0) < i32::MAX ==> added1 && count_word(rows2, l, w)
            == 1,
{
    lemma_db_insert_then_find(rows0, l, w, rows1, added1);
    if !has_word(rows0, l, w) && max_id(rows0) < i32::MAX {
        lemma_count_absent(rows0, l, w);
    }
}

/// The word of a day is stable: serving the word of the same day twice serves the same row
/// both times, and the second time changes nothing.
pub proof fn lemma_daily_word_is_stable(
    rows0: Seq<DbDictionaryEntry>,
    l: AppLanguage,
    d: Day,
    rows1: Seq<DbDictionaryEntry>,
    served1: Option<DbDictionaryEntry>,
    rows2: Seq<DbDictionaryEntry>,
    served2: Option<DbDictionaryEntry>,
)
    requires
        serve_outcome(rows0, l, d, rows1, served1),
        serve_outcome(rows1, l, d, rows2, served2),
    ensures
        served2 == served1,
        rows2 == rows1,
{
    lemma_word_of_day_found(rows0, l, d);
    lemma_word_of_day_none(rows0, l, d);
    if word_of_day_index(rows0, l, d) is None {
        if exists|i: int| 0 <= i < rows0.len() && is_unused(#[trigger] rows0[i], l) {
            let i = choose|i: int|
                0 <= i < rows0.len() && is_unused(#[trigger] rows0[i], l) && rows1 == rows0.update(
                    i,
                    DbDictionaryEntry { used_at: Some(d), ..rows0[i] },
                ) && served1 == Some(rows1[i]);
            assert forall|j: int| 0 <= j < i implies !is_word_of_day(#[trigger] rows1[j], l, d) by {
                assert(rows1[j] == rows0[j]);
            }
            lemma_word_of_day_first(rows1, l, d, i);
        }
    }
}

/// Marking a word as guessed is idempotent: doing it a second time changes nothing.
pub proof fn lemma_guessed_idempotent(
    rows0: Seq<DbDictionaryEntry>,
    l: AppLanguage,
    w: Seq<char>,
    rows1: Seq<DbDictionaryEntry>,
    rows2: Seq<DbDictionaryEntry>,
)
    requires
        marked_guessed(rows0, l, w, rows1),
        marked_guessed(rows1, l, w, rows2),
    ensures
        rows2 == rows1,
{
    assert forall|i: int| 0 <= i < rows1.len() implies rows2[i] == rows1[i] by {
        if holds_word(rows1[i], l, w) {
            assert(holds_word(rows0[i], l, w));
        }
    }
    assert(rows2 =~= rows1);
}

} // verus!
