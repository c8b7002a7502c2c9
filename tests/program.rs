use microsim::program::parse_image;

fn chars(s: &str) -> Vec<char> {
    s.chars().collect()
}

fn skipped(text: &str) -> Vec<(usize, String)> {
    parse_image(&chars(text))
        .skipped
        .iter()
        .map(|s| (s.counter, s.text.iter().collect::<String>()))
        .collect()
}

#[test]
fn reads_words_and_passes_over_comments() {
    let text = chars("// header\n\n00_0_010_000_001_1_101\n  0000 0000 0000 0111 // seven\n//\n");
    let image = parse_image(&text);
    assert_eq!(image.words, vec![0b00_0_010_000_001_1_101u16, 7]);
    assert!(image.skipped.is_empty());
}

#[test]
fn invalid_lines_are_recorded_with_their_counter() {
    let text = "101\nabc\n// c\n11\n1_0000_0000_0000_0000\n";
    assert_eq!(parse_image(&chars(text)).words, vec![5u16, 3]);
    assert_eq!(
        skipped(text),
        vec![(1, "abc".to_string()), (3, "1_0000_0000_0000_0000".to_string())]
    );
}

#[test]
fn sign_and_crlf_line_endings() {
    let text = "+101\r\n  \t11\t\r\n+\r\n";
    assert_eq!(parse_image(&chars(text)).words, vec![5u16, 3]);
    assert_eq!(skipped(text), vec![(2, "+".to_string())]);
    assert_eq!(skipped("-1\n"), vec![(0, "-1".to_string())]);
}

#[test]
fn largest_word_and_leading_zeros() {
    let image = parse_image(&chars("1111111111111111\n0001111111111111111\n0\n"));
    assert_eq!(image.words, vec![0xFFFFu16, 0xFFFF, 0]);
    assert!(image.skipped.is_empty());
}

#[test]
fn unicode_white_space_is_trimmed() {
    let image = parse_image(&chars("\u{3000}101\u{a0}\n"));
    assert_eq!(image.words, vec![5u16]);
}

#[test]
fn empty_and_comment_only_texts() {
    assert!(parse_image(&chars("")).words.is_empty());
    let image = parse_image(&chars("  // only\n\n   \n"));
    assert!(image.words.is_empty());
    assert!(image.skipped.is_empty());
}

#[test]
fn tab_between_digits_is_not_a_separator() {
    assert_eq!(skipped("10\t01"), vec![(0, "10\t01".to_string())]);
    assert_eq!(skipped("_\n"), vec![(0, "_".to_string())]);
}

#[test]
fn last_line_needs_no_newline() {
    assert_eq!(parse_image(&chars("1\n10")).words, vec![1u16, 2]);
}
