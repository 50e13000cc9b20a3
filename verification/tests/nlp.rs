use stylometry::nlp::is_conjunction;
use stylometry::nlp::is_pronoun;
use stylometry::nlp::replace_word;

#[test]
fn pronoun_membership_is_exact() {
    assert!(is_pronoun("i"));
    assert!(is_pronoun("he"));
    assert!(is_pronoun("whoever"));
    assert!(is_pronoun("it"));
    assert!(!is_pronoun("I"));
    assert!(!is_pronoun("dog"));
    assert!(!is_pronoun(""));
}

#[test]
fn conjunction_membership_is_exact() {
    assert!(is_conjunction("and"));
    assert!(is_conjunction("but"));
    assert!(is_conjunction("whereas"));
    assert!(is_conjunction("til"));
    assert!(!is_conjunction("banana"));
    assert!(!is_conjunction("And"));
    assert!(!is_conjunction(""));
}

#[test]
fn abbreviations_expand() {
    assert_eq!(replace_word(String::from("mr.")), "mister");
    assert_eq!(replace_word(String::from("mrs.")), "missus");
    assert_eq!(replace_word(String::from("&c.")), "etc");
    assert_eq!(replace_word(String::from("st.")), "saint");
    assert_eq!(replace_word(String::from("lon.")), "longitude");
}

#[test]
fn initials_are_dropped() {
    assert_eq!(replace_word(String::from("a.")), "");
    assert_eq!(replace_word(String::from("q.")), "");
    assert_eq!(replace_word(String::from("z.")), "");
}

#[test]
fn unmatched_tokens_pass_through() {
    assert_eq!(replace_word(String::from("hello")), "hello");
    assert_eq!(replace_word(String::from("mr")), "mr");
    assert_eq!(replace_word(String::from("A.")), "A.");
    assert_eq!(replace_word(String::from("ab.")), "ab.");
    assert_eq!(replace_word(String::from("")), "");
}

#[test]
fn substitution_is_idempotent_on_samples() {
    for w in ["mr.", "a.", "hello", "&c.", "st.", ""] {
        let once = replace_word(String::from(w));
        let twice = replace_word(once.clone());
        assert_eq!(once, twice);
    }
}
