use stylometry::corpus::scan_document;
use stylometry::features::to_sample;
use stylometry::features::FeatureError;
use stylometry::stats::statistics;

fn lines_of(text: &str) -> Vec<String> {
    text.lines().map(|l| l.to_string()).collect()
}

#[test]
fn feature_vector_holds_bias_and_scaled_ratios() {
    let d = scan_document(String::from("doc"), 1, &lines_of("The cat sat. The dog ran away."));
    let s = statistics(&d);
    // 7 words: "the" twice, five words once; no commas; two sentences
    let sample = to_sample(&s, 1).unwrap();
    assert_eq!(sample.class, 1);
    assert_eq!(
        sample.values,
        vec![
            10_000,           // bias: one whole unit
            0,                // 0 commas / 2 sentences
            10_000 * 5 / 7,   // hapax fraction
            10_000 * 1 / 7,   // dis fraction
            10_000 * 6 / 7,   // unique fraction
        ]
    );
}

#[test]
fn commas_per_sentence_feature() {
    let d = scan_document(String::from("doc"), 0, &lines_of("One, two, three. Four five."));
    let s = statistics(&d);
    assert_eq!(s.total_commas, 2);
    assert_eq!(s.total_sentences, 2);
    let sample = to_sample(&s, 0).unwrap();
    assert_eq!(sample.values[1], 10_000); // 2 commas / 2 sentences = 1.0
    assert_eq!(sample.class, 0);
}

#[test]
fn degenerate_summary_is_rejected() {
    let d = scan_document(String::from("empty"), 0, &lines_of(""));
    let s = statistics(&d);
    assert!(matches!(to_sample(&s, 0), Err(FeatureError::DivisionUndefined)));
}
