use texthook::foreign_string::ForeignString;
use texthook::tables::EncodingTables;
use texthook::transform::{
    capitalize_string_first_word, capitalize_string_words, lower_case_string, simplify_string,
    upper_case_string,
};

fn identity_table() -> Vec<u8> {
    let mut t = Vec::new();
    let mut i: usize = 0;
    while i < 256 {
        t.push(i as u8);
        i += 1;
    }
    t
}

fn ascii_upper_table() -> Vec<u8> {
    let mut t = identity_table();
    for b in 97u8..=122u8 {
        t[b as usize] = b - 32;
    }
    t
}

fn ascii_lower_table() -> Vec<u8> {
    let mut t = identity_table();
    for b in 65u8..=90u8 {
        t[b as usize] = b + 32;
    }
    t
}

fn test_tables() -> EncodingTables {
    EncodingTables {
        simplify: identity_table(),
        uppercase: ascii_upper_table(),
        lowercase: ascii_lower_table(),
        capitalize: ascii_upper_table(),
        utf: Vec::new(),
    }
}

fn words_of(text: &str) -> Vec<u8> {
    let tables = test_tables();
    let mut view = ForeignString::build_new(&text.as_bytes().to_vec());
    capitalize_string_words(&mut view, &tables);
    view.read_bytes()
}

fn first_word_of(text: &str) -> Vec<u8> {
    let tables = test_tables();
    let mut view = ForeignString::build_new(&text.as_bytes().to_vec());
    capitalize_string_first_word(&mut view, &tables);
    view.read_bytes()
}

#[test]
fn capitalize_words_capitalizes_each_word() {
    assert_eq!(words_of("hello world"), b"Hello World".to_vec());
}

#[test]
fn capitalize_first_word_stops_after_first_word() {
    assert_eq!(first_word_of("hello world"), b"Hello world".to_vec());
}

#[test]
fn capitalize_first_word_skips_leading_spaces() {
    assert_eq!(first_word_of("  hi there"), b"  Hi there".to_vec());
}

#[test]
fn capitalize_first_word_skips_leading_bracketed_text() {
    assert_eq!(first_word_of("[x] hi there"), b"[x] Hi there".to_vec());
}

#[test]
fn capitalize_words_leaves_bracketed_text_untouched() {
    assert_eq!(words_of("a [tag] b"), b"A [tag] B".to_vec());
}

#[test]
fn capitalize_words_leaves_nested_bracketed_text_untouched() {
    assert_eq!(words_of("x [a [b] c] y"), b"X [a [b] c] Y".to_vec());
}

#[test]
fn capitalize_words_capitalizes_after_quote_and_qualified_apostrophe() {
    assert_eq!(words_of("she said \"hi\" 'twas"), b"She Said \"Hi\" 'Twas".to_vec());
}

#[test]
fn capitalize_words_ignores_unqualified_apostrophe() {
    assert_eq!(words_of("ab'cd"), b"Ab'cd".to_vec());
}

#[test]
fn capitalize_words_apostrophe_after_comma_qualifies() {
    assert_eq!(words_of("a,'b"), b"A,'B".to_vec());
}

#[test]
fn upper_case_string_maps_every_byte() {
    let tables = test_tables();
    let mut view = ForeignString::build_new(&b"Hello, World! 123".to_vec());
    upper_case_string(&mut view, &tables);
    assert_eq!(view.read_bytes(), b"HELLO, WORLD! 123".to_vec());
}

#[test]
fn lower_case_string_maps_every_byte() {
    let tables = test_tables();
    let mut view = ForeignString::build_new(&b"Hello, World! 123".to_vec());
    lower_case_string(&mut view, &tables);
    assert_eq!(view.read_bytes(), b"hello, world! 123".to_vec());
}

#[test]
fn simplify_string_substitutes_through_table() {
    let mut tables = test_tables();
    tables.simplify[200] = b'e';
    let mut view = ForeignString::build_new(&vec![200u8, b'b']);
    simplify_string(&mut view, &tables);
    assert_eq!(view.read_bytes(), b"eb".to_vec());
}

#[test]
fn case_transforms_are_idempotent_on_ascii_letters() {
    let tables = test_tables();
    let mut once = ForeignString::build_new(&b"MiXeD".to_vec());
    upper_case_string(&mut once, &tables);
    let mut twice = ForeignString::build_new(&b"MiXeD".to_vec());
    upper_case_string(&mut twice, &tables);
    upper_case_string(&mut twice, &tables);
    assert_eq!(once.read_bytes(), twice.read_bytes());

    let mut lower_once = ForeignString::build_new(&b"MiXeD".to_vec());
    lower_case_string(&mut lower_once, &tables);
    let mut lower_twice = ForeignString::build_new(&b"MiXeD".to_vec());
    lower_case_string(&mut lower_twice, &tables);
    lower_case_string(&mut lower_twice, &tables);
    assert_eq!(lower_once.read_bytes(), lower_twice.read_bytes());

    let mut simplified_once = ForeignString::build_new(&b"plain".to_vec());
    simplify_string(&mut simplified_once, &tables);
    let mut simplified_twice = ForeignString::build_new(&b"plain".to_vec());
    simplify_string(&mut simplified_twice, &tables);
    simplify_string(&mut simplified_twice, &tables);
    assert_eq!(simplified_once.read_bytes(), simplified_twice.read_bytes());
}
