use bayes_spam_ml::{fraction_greater, parse_training_line, tokenize, SpamFilter, Verdict};

fn trained(examples: &[(&str, bool)]) -> SpamFilter {
    let mut f = SpamFilter::new();
    for (m, s) in examples {
        f.train(m, *s);
    }
    f
}

fn predict(f: &SpamFilter, m: &str) -> Option<bool> {
    match f.classify(m) {
        Verdict::Spam => Some(true),
        Verdict::NotSpam => Some(false),
        _ => None,
    }
}

#[test]
fn tokenize_splits_on_whitespace_runs() {
    let t = tokenize("  Buy\tcheap\n\nwatches!  ");
    assert_eq!(t, vec!["Buy".to_string(), "cheap".to_string(), "watches!".to_string()]);
}

#[test]
fn tokenize_empty_and_blank() {
    assert!(tokenize("").is_empty());
    assert!(tokenize(" \t\r\n ").is_empty());
}

#[test]
fn tokenize_unicode_whitespace() {
    let t = tokenize("a\u{3000}b\u{00A0}c\u{2009}d");
    assert_eq!(t, vec!["a".to_string(), "b".to_string(), "c".to_string(), "d".to_string()]);
}

#[test]
fn tokenize_keeps_case_and_punctuation() {
    let t = tokenize("Hello hello, HELLO");
    assert_eq!(t, vec!["Hello".to_string(), "hello,".to_string(), "HELLO".to_string()]);
}

#[test]
fn count_accumulation_per_occurrence() {
    let f = trained(&[("a b a", true), ("a c", true), ("a", false)]);
    assert_eq!(f.word_count("a", true), 3);
    assert_eq!(f.word_count("b", true), 1);
    assert_eq!(f.word_count("c", true), 1);
    assert_eq!(f.word_count("a", false), 1);
    assert_eq!(f.word_count("b", false), 0);
    assert_eq!(f.word_count("A", true), 0);
    assert_eq!(f.token_total(true), 5);
    assert_eq!(f.token_total(false), 1);
}

#[test]
fn message_counters_with_interleaving() {
    let f = trained(&[("x", true), ("y", false), ("", true), ("z", false), ("w", true)]);
    assert_eq!(f.message_count(true), 3);
    assert_eq!(f.message_count(false), 2);
    assert_eq!(f.message_total(), 5);
}

#[test]
fn empty_message_only_counts_the_message() {
    let f = trained(&[("", false), ("   ", false)]);
    assert_eq!(f.message_count(false), 2);
    assert_eq!(f.token_total(false), 0);
}

#[test]
fn training_never_lowers_counts() {
    let mut f = trained(&[("a b", true), ("a", false)]);
    let before = (f.word_count("a", true), f.word_count("a", false), f.message_count(true), f.message_count(false));
    f.train("c", false);
    f.train("a", true);
    assert!(f.word_count("a", true) >= before.0);
    assert!(f.word_count("a", false) >= before.1);
    assert!(f.message_count(true) >= before.2);
    assert!(f.message_count(false) >= before.3);
    assert_eq!(f.word_count("a", true), 2);
}

#[test]
fn unseen_word_adds_no_evidence() {
    let f = trained(&[("cheap watches", true), ("hello there", false)]);
    let with = tokenize("cheap zebra hello");
    let without = tokenize("cheap hello");
    for is_spam in [true, false] {
        assert_eq!(f.score_terms(&with, is_spam).evidence, f.score_terms(&without, is_spam).evidence);
    }
    assert_eq!(f.score_terms(&tokenize("zebra"), true).evidence, 0);
}

#[test]
fn token_order_within_a_message_is_irrelevant() {
    let f1 = trained(&[("a b", true)]);
    let f2 = trained(&[("b a", true)]);
    for f in [&f1, &f2] {
        assert_eq!(f.word_count("a", true), 1);
        assert_eq!(f.word_count("b", true), 1);
        assert_eq!(f.message_count(true), 1);
        assert_eq!(f.message_count(false), 0);
        assert_eq!(f.token_total(true), 2);
    }
}

#[test]
fn punctuated_token_does_not_match() {
    let f = trained(&[("Buy cheap watches", true), ("Hello how are you", false)]);
    // "watches!" is not "watches": no token matches, the priors are equal, a tie is not spam.
    assert_eq!(predict(&f, "Great deals on luxury watches!"), Some(false));
    assert_eq!(f.score_terms(&tokenize("Great deals on luxury watches!"), true).evidence, 0);
    assert_eq!(predict(&f, "Great deals on luxury watches"), Some(true));
}

#[test]
fn empty_model_is_untrained() {
    let f = SpamFilter::new();
    assert!(matches!(f.classify(""), Verdict::Untrained));
    assert!(matches!(f.classify("anything at all"), Verdict::Untrained));
}

#[test]
fn disjoint_vocabularies() {
    let f = trained(&[("win free prize now", true), ("meeting agenda for monday", false)]);
    assert_eq!(predict(&f, "free prize"), Some(true));
    assert_eq!(predict(&f, "win now free"), Some(true));
    assert_eq!(predict(&f, "monday meeting"), Some(false));
    assert_eq!(predict(&f, "agenda for"), Some(false));
}

#[test]
fn repeated_training_grows_linearly() {
    let mut f = SpamFilter::new();
    f.train("hello", false);
    let mut last_gap: Option<(u128, u128)> = None;
    for n in 1..=5usize {
        f.train("x", true);
        assert_eq!(f.word_count("x", true), n);
        let t = f.score_terms(&tokenize("x"), true);
        assert_eq!(t.evidence, n as u128 + 1);
        assert_eq!(t.evidence_denominator, n as u128 + 2);
        if let Some((e, d)) = last_gap {
            assert!(fraction_greater(t.evidence, t.evidence_denominator, e, d));
        }
        last_gap = Some((t.evidence, t.evidence_denominator));
        assert_eq!(predict(&f, "x"), Some(true));
    }
}

#[test]
fn one_empty_class_decides() {
    let f = trained(&[("spam words", true)]);
    assert_eq!(predict(&f, "ham"), Some(true));
    let g = trained(&[("ham words", false)]);
    assert_eq!(predict(&g, "spam words"), Some(false));
}

#[test]
fn score_terms_exact_values() {
    let f = trained(&[("a a b", true), ("c", true), ("a", false)]);
    let q = tokenize("a b z a");
    let s = f.score_terms(&q, true);
    assert_eq!(s.class_messages, 2);
    assert_eq!(s.all_messages, 3);
    // a: 2 + 1, b: 1 + 1, z: 0, a: 2 + 1
    assert_eq!(s.evidence, 8);
    assert_eq!(s.evidence_denominator, 4);
    let h = f.score_terms(&q, false);
    assert_eq!(h.class_messages, 1);
    assert_eq!(h.evidence, 4);
    assert_eq!(h.evidence_denominator, 3);
}

#[test]
fn weighing_needed_when_prior_and_evidence_disagree() {
    let f = trained(&[("a", true), ("b", true), ("c c c", false)]);
    match f.classify("c") {
        Verdict::Weigh(s, h) => {
            assert_eq!((s.class_messages, s.all_messages, s.evidence, s.evidence_denominator), (2, 3, 0, 4));
            assert_eq!((h.class_messages, h.all_messages, h.evidence, h.evidence_denominator), (1, 3, 4, 3));
        }
        _ => panic!("expected the priors to be weighed"),
    }
    // Larger prior and larger evidence: settled without a logarithm.
    assert_eq!(predict(&f, "a b"), Some(true));
}

#[test]
fn fraction_comparison_exact() {
    assert!(fraction_greater(2, 3, 1, 2));
    assert!(!fraction_greater(1, 2, 2, 4));
    assert!(!fraction_greater(1, 3, 1, 2));
    assert!(fraction_greater(7, 1, 13, 2));
    assert!(!fraction_greater(0, 5, 0, 7));
    assert!(fraction_greater(u128::MAX, u128::MAX - 1, u128::MAX - 1, u128::MAX - 2) == false);
    assert!(fraction_greater(u128::MAX - 1, u128::MAX - 2, u128::MAX, u128::MAX - 1));
}

#[test]
fn can_train_on_fresh_filter() {
    let f = SpamFilter::new();
    assert!(f.can_train("some message", true));
    assert!(f.can_train("", false));
}

#[test]
fn corpus_line_spam_label() {
    assert_eq!(parse_training_line("Buy cheap watches 01"), ("Buy cheap watches".to_string(), true));
    assert_eq!(parse_training_line("  Win now0101 "), ("Win now0101".to_string(), false));
    assert_eq!(parse_training_line("Win now0101"), ("Win now".to_string(), true));
}

#[test]
fn corpus_line_ham_and_other_endings() {
    assert_eq!(parse_training_line("  Hello how are you 00"), ("Hello how are you 00".to_string(), false));
    assert_eq!(parse_training_line("see you at 1"), ("see you at 1".to_string(), true));
    assert_eq!(parse_training_line(""), ("".to_string(), false));
    assert_eq!(parse_training_line("01"), ("".to_string(), true));
}
