use fancy_hangman::text_word_base::TextWordBase;
use fancy_hangman::word_base::{WordBase, WordEntry};

const FILE_PATH: &str = "word_base.txt";

fn get_sample_words() -> Vec<&'static str> {
    vec!["rusty", "fishy", "busty", "lusty"]
}

fn filled() -> TextWordBase {
    let lines: Vec<String> = get_sample_words().iter().map(|w| String::from(*w)).collect();
    TextWordBase::from_lines(String::from(FILE_PATH), lines)
}

#[test]
fn text_word_base_test_test_create_word() {
    let mut word_base = TextWordBase::new(String::from(FILE_PATH));

    word_base.create_word(WordEntry { word: String::from("rusty") });

    assert_eq!(word_base.lines, vec![String::from("rusty")]);
}

#[test]
fn text_word_base_test_test_find_word() {
    let word_base = filled();

    for word_str in get_sample_words() {
        match word_base.find_word(word_str) {
            Some(word) => assert_eq!(word_str, word.word),
            None => assert!(false),
        }
    }
}

#[test]
fn text_word_base_test_test_find_word_negative() {
    let word_base = TextWordBase::new(String::from(FILE_PATH));

    for word_str in get_sample_words() {
        match word_base.find_word(word_str) {
            Some(_) => assert!(false),
            None => assert!(true),
        }
    }
}

#[test]
fn text_word_base_test_test_read_random_word() {
    let mut word_base = filled();

    match word_base.get_random_word() {
        Some(word) => assert!(get_sample_words().contains(&word.word.as_str())),
        None => assert!(false),
    }
}

#[test]
fn text_word_base_test_test_read_random_word_negative() {
    let mut word_base = TextWordBase::new(String::from(FILE_PATH));

    match word_base.get_random_word() {
        Some(_) => assert!(false),
        None => assert!(true),
    }
}

#[test]
fn text_dictionary_test_test_create_word() {
    let mut dictionary = TextWordBase::new(String::from(FILE_PATH));

    match dictionary.create_word(WordEntry { word: String::from("rusty") }) {
        None => assert!(false),
        Some(_) => assert!(true),
    }

    match dictionary.create_word(WordEntry { word: String::from("testy") }) {
        None => assert!(false),
        Some(_) => assert!(true),
    }

    match dictionary.create_word(WordEntry { word: String::from("rusty") }) {
        None => assert!(true),
        Some(_) => assert!(false),
    }
}

#[test]
fn text_dictionary_test_test_find_word() {
    let dictionary = filled();

    for word_str in get_sample_words() {
        match dictionary.find_word(word_str) {
            Some(word) => assert_eq!(word_str, word.word),
            None => assert!(false),
        }
    }
}

#[test]
fn text_dictionary_test_test_find_word_negative() {
    let dictionary = TextWordBase::new(String::from(FILE_PATH));

    for word_str in get_sample_words() {
        match dictionary.find_word(word_str) {
            Some(_) => assert!(false),
            None => assert!(true),
        }
    }
}

#[test]
fn text_dictionary_test_test_read_random_word() {
    let mut dictionary = filled();

    match dictionary.get_random_word() {
        Some(word) => assert!(get_sample_words().contains(&word.word.as_str())),
        None => assert!(false),
    }
}

#[test]
fn text_dictionary_test_test_read_random_word_negative() {
    let mut dictionary = TextWordBase::new(String::from(FILE_PATH));

    match dictionary.get_random_word() {
        Some(_) => assert!(false),
        None => assert!(true),
    }
}

#[test]
fn random_word_is_uniform() {
    let mut word_base = filled();
    let trials = 8000;
    let mut counts = [0usize; 4];
    for _ in 0..trials {
        let word = word_base.get_random_word().unwrap().word;
        let i = get_sample_words().iter().position(|w| *w == word).unwrap();
        counts[i] += 1;
    }
    for c in counts {
        let share = c as f64 / trials as f64;
        assert!((share - 0.25).abs() < 0.05, "share {} too far from 1/4", share);
    }
}

#[test]
fn duplicate_insert_keeps_one_line() {
    let mut word_base = TextWordBase::new(String::from(FILE_PATH));
    assert!(word_base.create_word(WordEntry { word: String::from("gusty") }).is_some());
    assert!(word_base.create_word(WordEntry { word: String::from("gusty") }).is_none());
    assert_eq!(word_base.lines, vec![String::from("gusty")]);
}

#[test]
fn inserted_word_is_found() {
    let mut word_base = filled();
    assert!(word_base.find_word("gusty").is_none());
    word_base.create_word(WordEntry { word: String::from("gusty") });
    assert_eq!(word_base.find_word("gusty").unwrap().word, "gusty");
}

#[test]
fn lookup_trims_lines() {
    let lines = vec![String::from("  rusty \r"), String::from("rusty")];
    let mut word_base = TextWordBase::from_lines(String::from(FILE_PATH), lines);
    assert_eq!(word_base.find_word("rusty").unwrap().word, "  rusty \r");
    assert!(word_base.find_word(" rusty").is_none());
    assert!(word_base.create_word(WordEntry { word: String::from("rusty") }).is_none());
    assert_eq!(word_base.lines.len(), 2);
}

#[test]
fn text_base_ignores_guessed_marks() {
    let mut word_base = filled();
    word_base.guessed_word(WordEntry { word: String::from("rusty") });
    assert_eq!(word_base.lines.len(), 4);
    assert_eq!(word_base.wordbase_file_path, FILE_PATH);
}
