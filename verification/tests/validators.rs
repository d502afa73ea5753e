use caesar::lexicon::Lexicon;
use caesar::validate::{contains_subslice, CribValidator, Validator, WordListValidator};

fn lexicon_of(corpus: &[u8]) -> Lexicon {
    Lexicon::new(&corpus.to_vec())
}

#[test]
fn crib_validator_finds_substring() {
    let v = CribValidator::new(b"quick".to_vec());
    assert!(v.validate(&b"the quick brown fox".to_vec()));
    assert!(!v.validate(&b"the slow brown fox".to_vec()));
}

#[test]
fn crib_validator_is_case_sensitive() {
    let v = CribValidator::new(b"Quick".to_vec());
    assert!(!v.validate(&b"the quick brown fox".to_vec()));
    assert!(v.validate(&b"the Quick brown fox".to_vec()));
}

#[test]
fn crib_validator_empty_crib_accepts() {
    let v = CribValidator::new(Vec::new());
    assert!(v.validate(&b"anything".to_vec()));
    assert!(v.validate(&Vec::new()));
}

#[test]
fn crib_can_be_replaced() {
    let mut v = CribValidator::new(b"alpha".to_vec());
    v.set_crib(b"beta".to_vec());
    assert!(v.validate(&b"alphabet a beta".to_vec()));
    assert!(!v.validate(&b"alpha alone".to_vec()));
}

#[test]
fn substring_search_edges() {
    assert!(contains_subslice(&b"abc".to_vec(), &b"abc".to_vec()));
    assert!(contains_subslice(&b"abc".to_vec(), &b"c".to_vec()));
    assert!(!contains_subslice(&b"abc".to_vec(), &b"abcd".to_vec()));
    assert!(!contains_subslice(&b"".to_vec(), &b"a".to_vec()));
    assert!(contains_subslice(&b"aab".to_vec(), &b"ab".to_vec()));
}

#[test]
fn lexicon_lookup_is_case_insensitive() {
    let lex = lexicon_of(b"Hello\nWorld\n");
    assert!(lex.contains(&b"hello".to_vec()));
    assert!(lex.contains(&b"HELLO".to_vec()));
    assert!(lex.contains(&b"WoRlD".to_vec()));
    assert!(!lex.contains(&b"helo".to_vec()));
    assert_eq!(lex.len(), 2);
}

#[test]
fn lexicon_exact_lookup_is_lowercase_only() {
    let lex = lexicon_of(b"Hello\nWorld\n");
    assert!(lex.contains_exact(&b"hello".to_vec()));
    assert!(!lex.contains_exact(&b"Hello".to_vec()));
}

#[test]
fn word_list_threshold_boundary() {
    // Four words, threshold three quarters: exactly three recognized words
    // are accepted, one recognized word fewer is rejected.
    let lex = lexicon_of(b"alpha beta gamma delta");
    let v = WordListValidator::with_threshold(lex, 3, 4);
    assert!(v.validate(&b"alpha beta gamma qqqq".to_vec()));
    let lex = lexicon_of(b"alpha beta gamma delta");
    let v = WordListValidator::with_threshold(lex, 3, 4);
    assert!(!v.validate(&b"alpha beta zzzz qqqq".to_vec()));
}

#[test]
fn word_list_full_threshold() {
    let lex = lexicon_of(b"the quick brown fox");
    let v = WordListValidator::with_threshold(lex, 1, 1);
    assert!(v.validate(&b"the quick fox".to_vec()));
    let lex = lexicon_of(b"the quick brown fox");
    let v = WordListValidator::with_threshold(lex, 1, 1);
    assert!(!v.validate(&b"the quick wolf".to_vec()));
}

#[test]
fn word_list_default_threshold_is_three_quarters() {
    let lex = lexicon_of(b"one two three four");
    let v = WordListValidator::new(lex);
    assert!(v.validate(&b"one two three xxxx".to_vec()));
    let lex = lexicon_of(b"one two three four");
    let v = WordListValidator::new(lex);
    assert!(!v.validate(&b"one two xxxx yyyy".to_vec()));
}

#[test]
fn word_list_zero_words_rejected() {
    let lex = lexicon_of(b"alpha beta");
    let v = WordListValidator::new(lex);
    assert!(!v.validate(&b"123 456 !!! ...".to_vec()));
    let lex = lexicon_of(b"alpha beta");
    let v = WordListValidator::new(lex);
    assert!(!v.validate(&Vec::new()));
}

#[test]
fn word_list_threshold_is_clamped() {
    // A zero denominator is raised to one and the numerator is clamped, so
    // the validator behaves as with a threshold of one.
    let lex = lexicon_of(b"alpha beta");
    let mut v = WordListValidator::new(lex);
    v.set_threshold(5, 0);
    assert!(v.validate(&b"alpha beta".to_vec()));
    assert!(!v.validate(&b"alpha gamma".to_vec()));
    // A fraction above one is clamped down to one.
    v.set_threshold(9, 4);
    assert!(v.validate(&b"alpha beta".to_vec()));
    assert!(!v.validate(&b"alpha gamma".to_vec()));
}

#[test]
fn word_list_zero_threshold_accepts_any_words() {
    let lex = lexicon_of(b"alpha");
    let mut v = WordListValidator::new(lex);
    v.set_threshold(0, 1);
    assert!(v.validate(&b"zzz yyy".to_vec()));
    // ... but still rejects a candidate without words.
    assert!(!v.validate(&b"123".to_vec()));
}

#[test]
fn tokenization_keeps_hyphen_and_apostrophe() {
    let lex = lexicon_of(b"well-known don't");
    let v = WordListValidator::with_threshold(lex, 1, 1);
    assert!(v.validate(&b"Well-Known, DON'T!".to_vec()));
}
