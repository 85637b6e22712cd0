use gitprint::wrap::{word_wrap, wrap_text};

#[test]
fn wrap_text_short() {
    let chunks = wrap_text("short", 20);
    assert_eq!(chunks, vec!["short"]);
}

#[test]
fn wrap_text_exact() {
    let chunks = wrap_text("1234567890", 10);
    assert_eq!(chunks, vec!["1234567890"]);
}

#[test]
fn wrap_text_overflow() {
    let chunks = wrap_text("1234567890ab", 10);
    assert_eq!(chunks, vec!["1234567890", "ab"]);
}

#[test]
fn wrap_text_empty() {
    let chunks = wrap_text("", 10);
    assert_eq!(chunks, vec![""]);
}

#[test]
fn wrap_text_rejoins_exactly() {
    // The chunks always concatenate back to the input, for every width.
    let samples = ["", "a", "abcdef", "päth/with/ümlauts.rs", "こんにちは世界"];
    for text in samples {
        for n in 1..=8usize {
            let joined: String = wrap_text(text, n).concat();
            assert_eq!(joined, text, "width {n}");
        }
    }
}

#[test]
fn wrap_text_zero_width_returns_whole() {
    assert_eq!(wrap_text("anything at all", 0), vec!["anything at all"]);
}

#[test]
fn word_wrap_scenario_long_identifier() {
    let lines = word_wrap("a very long single_identifier_with_no_spaces_at_all", 10);
    assert_eq!(lines, vec!["a very", "long", "single_identifier_with_no_spaces_at_all"]);
}

#[test]
fn word_wrap_respects_width() {
    let lines = word_wrap("the quick brown fox jumps over the lazy dog", 10);
    for line in &lines {
        assert!(line.chars().count() <= 10 || !line.contains(' '), "line {line:?}");
        assert!(!line.is_empty());
    }
}

#[test]
fn word_wrap_zero_width_returns_whole() {
    assert_eq!(word_wrap("two words", 0), vec!["two words"]);
}

#[test]
fn word_wrap_empty_input() {
    assert!(word_wrap("", 10).is_empty());
    assert!(word_wrap("   ", 10).is_empty());
}

#[test]
fn word_wrap_greedy_fill() {
    assert_eq!(word_wrap("alpha beta gamma", 11), vec!["alpha beta", "gamma"]);
    assert_eq!(word_wrap("a b c d", 3), vec!["a b", "c d"]);
    // Joining each line on single spaces gives the words back in order.
    let text = "the quick  brown\tfox";
    let words: Vec<&str> = text.split_whitespace().collect();
    let rejoined: Vec<String> =
        word_wrap(text, 9).iter().flat_map(|l| l.split(' ').map(str::to_string)).collect();
    assert_eq!(rejoined, words);
}

#[test]
fn word_wrap_splits_at_unicode_spaces() {
    let lines = word_wrap("one\u{00A0}two\u{2003}three", 5);
    assert_eq!(lines, vec!["one", "two", "three"]);
}
