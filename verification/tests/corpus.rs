use stylometry::corpus::scan_document;
use stylometry::corpus::split_tokens;

fn lines_of(text: &str) -> Vec<String> {
    text.lines().map(|l| l.to_string()).collect()
}

fn word(s: &str) -> Vec<char> {
    s.chars().collect()
}

#[test]
fn splitting_ignores_extra_whitespace() {
    let lines = vec![String::from("  The cat\tsat.  "), String::from(""), String::from("dog")];
    let toks = split_tokens(&lines);
    let got: Vec<String> = toks.iter().map(|t| t.iter().collect()).collect();
    assert_eq!(got, vec!["The", "cat", "sat.", "dog"]);
}

#[test]
fn one_sentence_three_words() {
    let d = scan_document(String::from("sample"), 1, &lines_of("The cat sat."));
    assert_eq!(d.total_sentences, 1);
    assert_eq!(d.words_per_sentence, vec![3]);
    assert_eq!(d.pronouns_per_sentence, vec![0]);
    assert_eq!(d.conjunctions_per_sentence, vec![0]);
    assert_eq!(d.total_commas, 0);
    assert_eq!(d.name, "sample");
    assert_eq!(d.class, 1);
}

#[test]
fn pronouns_conjunctions_and_commas_are_counted() {
    let d = scan_document(String::from("sample"), 0, &lines_of("I said, but he left."));
    assert_eq!(d.total_sentences, 1);
    assert_eq!(d.total_commas, 1);
    assert_eq!(d.words_per_sentence, vec![5]);
    assert_eq!(d.pronouns_per_sentence, vec![2]);
    assert_eq!(d.conjunctions_per_sentence, vec![1]);
}

#[test]
fn trailing_fragment_is_discarded() {
    let d = scan_document(String::from("sample"), 0, &lines_of("One two. three four"));
    assert_eq!(d.total_sentences, 1);
    assert_eq!(d.words_per_sentence, vec![2]);
    // the fragment's words still reach the frequency table
    assert_eq!(d.word_frequencies.count_of(&word("three")), 1);
    assert_eq!(d.word_frequencies.count_of(&word("four")), 1);
}

#[test]
fn frequency_table_counts_cleaned_words() {
    let d = scan_document(String::from("sample"), 0, &lines_of("The cat sat. The dog ran."));
    assert_eq!(d.word_frequencies.count_of(&word("the")), 2);
    assert_eq!(d.word_frequencies.count_of(&word("cat")), 1);
    assert_eq!(d.word_frequencies.count_of(&word("sat")), 1);
    assert_eq!(d.word_frequencies.count_of(&word("The")), 0);
    assert_eq!(d.word_frequencies.count_of(&word("sat.")), 0);
}

#[test]
fn abbreviation_does_not_close_a_sentence() {
    let d = scan_document(String::from("sample"), 0, &lines_of("Mr. Smith went home."));
    assert_eq!(d.total_sentences, 1);
    assert_eq!(d.words_per_sentence, vec![4]);
    assert_eq!(d.word_frequencies.count_of(&word("mister")), 1);
    assert_eq!(d.word_frequencies.count_of(&word("smith")), 1);
}

#[test]
fn punctuation_is_stripped_from_words() {
    let d = scan_document(String::from("sample"), 0, &lines_of("\u{201c}Look!\u{201d} (Here); he said: 'go'."));
    // curly double quotes, parentheses, semicolon and colon are deleted
    assert_eq!(d.word_frequencies.count_of(&word("look")), 1);
    assert_eq!(d.word_frequencies.count_of(&word("here")), 1);
    assert_eq!(d.total_sentences, 2);
}

#[test]
fn question_and_exclamation_close_sentences() {
    let d = scan_document(String::from("sample"), 0, &lines_of("Really? Yes! Fine."));
    assert_eq!(d.total_sentences, 3);
    assert_eq!(d.words_per_sentence, vec![1, 1, 1]);
}

#[test]
fn empty_document_yields_nothing() {
    let d = scan_document(String::from("empty"), 0, &lines_of(""));
    assert_eq!(d.total_sentences, 0);
    assert_eq!(d.total_commas, 0);
    assert!(d.words_per_sentence.is_empty());
    assert_eq!(d.word_frequencies.len(), 0);
}
