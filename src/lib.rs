pub mod db_dictionary;
pub mod evaluator;
pub mod game;
pub mod input;
pub mod locale;
pub mod text;
pub mod text_word_base;
pub mod word_base;
