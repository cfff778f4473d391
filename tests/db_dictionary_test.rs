use fancy_hangman::db_dictionary::{DbDictionary, DbDictionaryEntry, Day};
use fancy_hangman::locale::AppLanguage;
use fancy_hangman::word_base::{WordBase, WordEntry};

fn row(id: i32, word: &str, used_at: Option<Day>, language: &str) -> DbDictionaryEntry {
    DbDictionaryEntry {
        id,
        word: String::from(word),
        used_at,
        guessed: false,
        language: String::from(language),
    }
}

fn day(d: u32) -> Day {
    Day { year: 2024, month: 5, day: d }
}

fn sample() -> DbDictionary {
    DbDictionary::new(
        vec![
            row(1, "rusty", Some(day(1)), "en"),
            row(2, "fishy", None, "en"),
            row(3, "busty", None, "en"),
            row(4, "schon", None, "de"),
        ],
        AppLanguage::EN,
    )
}

#[test]
fn same_day_serves_same_word() {
    let mut d = sample();
    let first = d.get_random_word_on(day(2)).unwrap();
    assert_eq!(first.used_at, Some(day(2)));
    assert!(first.word == "fishy" || first.word == "busty");
    let second = d.get_random_word_on(day(2)).unwrap();
    assert_eq!(second.id, first.id);
    assert_eq!(second.word, first.word);
}

#[test]
fn word_already_served_today_is_served_again() {
    let mut d = sample();
    let served = d.get_random_word_on(day(1)).unwrap();
    assert_eq!(served.id, 1);
    assert_eq!(served.word, "rusty");
}

#[test]
fn new_day_serves_an_unused_word_of_the_language() {
    let mut d = sample();
    let a = d.get_random_word_on(day(2)).unwrap();
    let b = d.get_random_word_on(day(3)).unwrap();
    assert_ne!(a.id, b.id);
    assert!(d.get_random_word_on(day(4)).is_none());
    assert_eq!(d.rows[3].used_at, None);
}

#[test]
fn no_unused_word_serves_none() {
    let mut d = DbDictionary::new(vec![row(1, "rusty", Some(day(1)), "en")], AppLanguage::EN);
    assert!(d.get_random_word_on(day(2)).is_none());
    assert_eq!(d.rows[0].used_at, Some(day(1)));
}

#[test]
fn find_filters_by_language() {
    let d = sample();
    assert_eq!(d.find_word("fishy").unwrap().word, "fishy");
    assert!(d.find_word("schon").is_none());
    assert!(d.find_word("fish").is_none());
    let german = DbDictionary::new(sample().rows, AppLanguage::DE);
    assert_eq!(german.find_word("schon").unwrap().word, "schon");
}

#[test]
fn duplicate_insert_keeps_one_row() {
    let mut d = sample();
    let added = d.create_word(WordEntry { word: String::from("gusty") });
    assert_eq!(added.unwrap().word, "gusty");
    assert!(d.create_word(WordEntry { word: String::from("gusty") }).is_none());
    let rows: Vec<&DbDictionaryEntry> = d.rows.iter().filter(|r| r.word == "gusty").collect();
    assert_eq!(rows.len(), 1);
    assert_eq!(rows[0].id, 5);
    assert_eq!(rows[0].language, "en");
    assert_eq!(rows[0].used_at, None);
    assert!(!rows[0].guessed);
    assert_eq!(d.find_word("gusty").unwrap().word, "gusty");
}

#[test]
fn same_word_other_language_is_inserted() {
    let mut d = DbDictionary::new(sample().rows, AppLanguage::DE);
    assert!(d.create_word(WordEntry { word: String::from("rusty") }).is_some());
    assert_eq!(d.rows.len(), 5);
    assert_eq!(d.rows[4].language, "de");
}

#[test]
fn insert_refused_without_fresh_id() {
    let mut d = DbDictionary::new(vec![row(i32::MAX, "rusty", None, "en")], AppLanguage::EN);
    assert!(d.create_word(WordEntry { word: String::from("gusty") }).is_none());
    assert_eq!(d.rows.len(), 1);
}

#[test]
fn guessed_word_marks_matching_rows() {
    let mut d = sample();
    d.guessed_word(WordEntry { word: String::from("fishy") });
    d.guessed_word(WordEntry { word: String::from("fishy") });
    d.guessed_word(WordEntry { word: String::from("schon") });
    assert!(d.rows[1].guessed);
    assert!(!d.rows[0].guessed);
    assert!(!d.rows[3].guessed);
}

#[test]
fn new_row_carries_language_tag() {
    let d = DbDictionary::new(Vec::new(), AppLanguage::DE);
    let r = d.new_row(&String::from("zaehe"));
    assert_eq!(r.word, "zaehe");
    assert_eq!(r.language, "de");
}

#[test]
fn todays_word_comes_from_the_table() {
    let mut d = sample();
    if let Some(w) = d.get_random_word() {
        assert!(["rusty", "fishy", "busty"].contains(&w.word.as_str()));
    }
}
