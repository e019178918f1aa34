use aurora_ui::code_block::{line_lengths, tokens_by_line, tokens_of_line};
use aurora_ui::syntax::TokenType;

#[test]
fn line_byte_lengths() {
    assert_eq!(line_lengths(""), vec![0]);
    assert_eq!(line_lengths("ab\n\nc\n"), vec![2, 0, 1, 0]);
    assert_eq!(line_lengths("é€\nx"), vec![5, 1]);
}

#[test]
fn tokens_split_across_lines() {
    // "let s = \"a\nb\";" : the string token spans both lines.
    let code = "let s = \"a\nb\";";
    let tokens = vec![(0..3, TokenType::Keyword), (8..13, TokenType::String), (13..14, TokenType::Punctuation)];
    let lines = tokens_by_line(code, &tokens);
    assert_eq!(lines.len(), 2);
    assert_eq!(lines[0], vec![(0..3, TokenType::Keyword), (8..10, TokenType::String)]);
    assert_eq!(lines[1], vec![(0..2, TokenType::String), (2..3, TokenType::Punctuation)]);
}

#[test]
fn one_line_window() {
    let tokens = vec![(0..2, TokenType::Number), (5..9, TokenType::Plain), (12..20, TokenType::Comment)];
    assert_eq!(tokens_of_line(&tokens, 4, 6), vec![(1..5, TokenType::Plain)]);
    assert_eq!(tokens_of_line(&tokens, 10, 5), vec![(2..5, TokenType::Comment)]);
}
