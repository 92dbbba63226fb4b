use rust_stemmers::{Algorithm, Stemmer};
use stemmer_service::handler::handle;
use stemmer_service::handler::parse_language;
use stemmer_service::stemming::stem_phrase;
use stemmer_service::stemming::stem_word;
use stemmer_service::Language;

#[test]
fn english_phrase_succeeds_and_reports_original() {
    let r = handle("r1", "running dogs", "english").unwrap();
    assert_eq!(r.req_id, "r1");
    let en = Stemmer::create(Algorithm::English);
    let expected = format!(
        "Original phrase: running dogs; Stemmed phrase: {} {}",
        en.stem("running"),
        en.stem("dogs")
    );
    assert_eq!(r.msg, expected);
    assert!(r.msg.contains("running dogs"));
}

#[test]
fn spanish_tag_matches_case_insensitively() {
    let r = handle("r2", "corriendo", "SPANISH").unwrap();
    assert_eq!(r.req_id, "r2");
    let es = Stemmer::create(Algorithm::Spanish);
    let expected = format!(
        "Original phrase: corriendo; Stemmed phrase: {}",
        es.stem("corriendo")
    );
    assert_eq!(r.msg, expected);
}

#[test]
fn unsupported_language_is_rejected() {
    let e = handle("r3", "hello", "french").unwrap_err();
    assert_eq!(e.req_id, "r3");
    assert!(e.msg.contains("french"));
    assert_eq!(
        e.msg,
        "Invalid language parameter, only 'Spanish' and 'English' available, but 'french' received!"
    );
}

#[test]
fn error_message_keeps_original_casing() {
    let e = handle("r5", "hello", "FrEnCh").unwrap_err();
    assert!(e.msg.contains("FrEnCh"));
    assert!(!e.msg.contains("french"));
}

#[test]
fn empty_phrase_succeeds_with_empty_transform() {
    let r = handle("r4", "", "english").unwrap();
    assert_eq!(r.req_id, "r4");
    assert_eq!(r.msg, "Original phrase: ; Stemmed phrase: ");
}

#[test]
fn token_count_is_preserved() {
    let phrase = "the  running   dogs ran quickly";
    let r = handle("r6", phrase, "english").unwrap();
    let stemmed = r.msg.split("; Stemmed phrase: ").nth(1).unwrap();
    assert_eq!(
        stemmed.split(' ').count(),
        phrase.split(' ').count()
    );
}

#[test]
fn parse_language_matches_the_closed_set() {
    assert_eq!(parse_language("EnGlIsH"), Some(Language::English));
    assert_eq!(parse_language("spanish"), Some(Language::Spanish));
    assert_eq!(parse_language("german"), None);
    assert_eq!(parse_language(""), None);
}

#[test]
fn stem_word_follows_the_reference_algorithm() {
    let en = Stemmer::create(Algorithm::English);
    let es = Stemmer::create(Algorithm::Spanish);
    let stemmed = stem_word(Language::English, "fruitlessly");
    assert_eq!(stemmed, en.stem("fruitlessly"));
    assert_ne!(stemmed, "fruitlessly");
    let stemmed_es = stem_word(Language::Spanish, "corriendo");
    assert_eq!(stemmed_es, es.stem("corriendo"));
    assert_ne!(stemmed_es, "corriendo");
}

#[test]
fn stem_phrase_keeps_empty_tokens() {
    assert_eq!(stem_phrase(Language::English, ""), "");
    assert_eq!(stem_phrase(Language::English, "  "), "  ");
}
