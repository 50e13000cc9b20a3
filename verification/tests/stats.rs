use stylometry::corpus::scan_document;
use stylometry::stats::count_bucket_index;
use stylometry::stats::sentence_length_bucket;
use stylometry::stats::statistics;
use stylometry::stats::word_length_bucket;

fn lines_of(text: &str) -> Vec<String> {
    text.lines().map(|l| l.to_string()).collect()
}

#[test]
fn word_length_buckets_clamp() {
    assert_eq!(word_length_bucket(1), 0);
    assert_eq!(word_length_bucket(26), 25);
    assert_eq!(word_length_bucket(27), 25);
    assert_eq!(word_length_bucket(100), 25);
}

#[test]
fn sentence_length_buckets_clamp() {
    assert_eq!(sentence_length_bucket(1), 0);
    assert_eq!(sentence_length_bucket(3), 0);
    assert_eq!(sentence_length_bucket(4), 1);
    assert_eq!(sentence_length_bucket(108), 35);
    assert_eq!(sentence_length_bucket(200), 35);
}

#[test]
fn occurrence_buckets_clamp() {
    assert_eq!(count_bucket_index(0), 0);
    assert_eq!(count_bucket_index(18), 18);
    assert_eq!(count_bucket_index(19), 19);
    assert_eq!(count_bucket_index(25), 19);
}

#[test]
fn summary_of_a_small_document() {
    let d = scan_document(String::from("doc"), 1, &lines_of("The cat sat. The dog ran away."));
    let s = statistics(&d);
    assert_eq!(s.total_sentences, 2);
    assert_eq!(s.total_words, 7);
    assert_eq!(s.unique_words, 6);
    assert_eq!(s.hapax_legomena, 5);
    assert_eq!(s.dis_legomena, 1);
    assert_eq!(s.total_commas, 0);
    // sentences of 3 and 4 words
    assert_eq!(s.sentence_length_hist[0], 1);
    assert_eq!(s.sentence_length_hist[1], 1);
    // five unique three-letter words, one four-letter word
    assert_eq!(s.word_length_hist[2], 5);
    assert_eq!(s.word_length_hist[3], 1);
    // both sentences have zero pronouns and zero conjunctions
    assert_eq!(s.pronouns_hist[0], 2);
    assert_eq!(s.conjunctions_hist[0], 2);
    assert_eq!(s.name, "doc");
    assert_eq!(s.class, 1);
}

fn normalized(hist: &Vec<usize>, denom: usize) -> Vec<f64> {
    // a zero denominator yields the all-zero distribution by convention
    if denom == 0 {
        return hist.iter().map(|_| 0.0).collect();
    }
    hist.iter().map(|&c| c as f64 / denom as f64).collect()
}

#[test]
fn normalized_histograms_sum_to_one() {
    let text = "I saw the cat, and the cat saw me. We ran away together! \
                Afterwards nobody believed a word of the story.";
    let d = scan_document(String::from("doc"), 0, &lines_of(text));
    let s = statistics(&d);
    assert!(s.total_sentences > 0);
    assert!(s.unique_words > 0);
    let dists = [
        normalized(&s.sentence_length_hist, s.total_sentences),
        normalized(&s.word_length_hist, s.unique_words),
        normalized(&s.pronouns_hist, s.total_sentences),
        normalized(&s.conjunctions_hist, s.total_sentences),
    ];
    for dist in dists.iter() {
        let total: f64 = dist.iter().sum();
        assert!((total - 1.0).abs() < 1e-9);
    }
}

#[test]
fn hapax_and_dis_never_exceed_unique() {
    for text in [
        "The cat sat.",
        "a a a b b c.",
        "One two three four five. One two.",
        "",
    ] {
        let d = scan_document(String::from("doc"), 0, &lines_of(text));
        let s = statistics(&d);
        assert!(s.hapax_legomena + s.dis_legomena <= s.unique_words);
    }
}

#[test]
fn degenerate_document_has_all_zero_distributions() {
    let d = scan_document(String::from("empty"), 0, &lines_of(""));
    let s = statistics(&d);
    assert_eq!(s.total_sentences, 0);
    assert_eq!(s.unique_words, 0);
    let dist = normalized(&s.sentence_length_hist, s.total_sentences);
    assert!(dist.iter().all(|&x| x == 0.0));
    assert_eq!(s.sentence_length_hist.iter().sum::<usize>(), 0);
}

#[test]
fn long_words_and_long_sentences_clamp_into_last_buckets() {
    // one word of 27 letters, then a sentence of 200 words
    let long_word = "abcdefghijklmnopqrstuvwxyza";
    let mut text = format!("{} ends here.", long_word);
    let many: Vec<&str> = std::iter::repeat("word").take(199).collect();
    text.push_str(&format!("\n{} stop.", many.join(" ")));
    let d = scan_document(String::from("doc"), 0, &lines_of(&text));
    let s = statistics(&d);
    assert_eq!(s.word_length_hist[25], 1);
    assert_eq!(s.sentence_length_hist[35], 1);
}
