use aurora_ui::syntax::{SyntaxSet, TokenType};

/// A small language set standing in for the built-in definitions.
const LANGS: &str = r#"{
  "rust": {
    "comment": "//.*$|/\\*[\\s\\S]*?\\*/",
    "string": "\"(?:[^\"\\\\]|\\\\.)*\"",
    "keyword": "\\b(?:let|fn|mut|pub|if|else|for|while|return|struct|impl|use)\\b",
    "function": "\\b([a-z_][a-zA-Z0-9_]*)\\s*\\(",
    "number": "\\b\\d+(?:\\.\\d+)?\\b",
    "operator": "[=+\\-*/<>!&|]+",
    "punctuation": "[{}()\\[\\];,.]"
  },
  "javascript": { "keyword": "\\b(?:let|const|var|function)\\b" },
  "python": { "keyword": "\\b(?:def|class|import)\\b" },
  "json": { "string": "\"[^\"]*\"" },
  "html": { "tag": "</?[a-zA-Z]+" },
  "css": { "punctuation": "[{};:]" }
}"#;

fn set() -> SyntaxSet {
    SyntaxSet::from_json(LANGS)
}

#[test]
fn languages_includes_rust() {
    let set = set();
    let langs = set.languages();
    assert!(langs.contains(&"rust"), "expected 'rust' in {langs:?}");
}

#[test]
fn languages_includes_common() {
    let set = set();
    let langs = set.languages();
    for expected in ["javascript", "python", "json", "html", "css"] {
        assert!(langs.contains(&expected), "missing language: {expected}");
    }
}

#[test]
fn highlight_rust_keyword() {
    let set = set();
    let tokens = set.highlight("let x = 42;", "rust");
    let keywords: Vec<_> = tokens
        .iter()
        .filter(|(_, t)| *t == TokenType::Keyword)
        .collect();
    assert!(!keywords.is_empty(), "expected at least one keyword token");
    let (range, _) = &keywords[0];
    assert_eq!(&"let x = 42;"[range.clone()], "let");
}

#[test]
fn highlight_rust_number() {
    let set = set();
    let tokens = set.highlight("let x = 42;", "rust");
    let numbers: Vec<_> = tokens
        .iter()
        .filter(|(_, t)| *t == TokenType::Number)
        .collect();
    assert!(!numbers.is_empty(), "expected at least one number token");
    let (range, _) = &numbers[0];
    assert_eq!(&"let x = 42;"[range.clone()], "42");
}

#[test]
fn highlight_unknown_language_empty() {
    let set = set();
    let tokens = set.highlight("let x = 42;", "nonexistent_lang_xyz");
    assert!(tokens.is_empty());
}

#[test]
fn highlight_empty_string() {
    let set = set();
    let tokens = set.highlight("", "rust");
    assert!(tokens.is_empty());
}

#[test]
fn tokens_non_overlapping_and_sorted() {
    let set = set();
    let tokens = set.highlight("fn main() { let x = 42; }", "rust");
    for window in tokens.windows(2) {
        let (r1, _) = &window[0];
        let (r2, _) = &window[1];
        assert!(r1.start <= r2.start, "tokens not sorted: {:?} before {:?}", r1, r2);
        assert!(r1.end <= r2.start, "tokens overlap: {:?} and {:?}", r1, r2);
    }
}

#[test]
fn highlight_rust_string() {
    let set = set();
    let tokens = set.highlight(r#"let s = "hello";"#, "rust");
    let strings: Vec<_> = tokens
        .iter()
        .filter(|(_, t)| *t == TokenType::String)
        .collect();
    assert!(!strings.is_empty(), "expected a string token");
}

#[test]
fn highlight_rust_comment() {
    let set = set();
    let tokens = set.highlight("// this is a comment", "rust");
    let comments: Vec<_> = tokens
        .iter()
        .filter(|(_, t)| *t == TokenType::Comment)
        .collect();
    assert!(!comments.is_empty(), "expected a comment token");
}

#[test]
fn from_json_empty_object() {
    let set = SyntaxSet::from_json("{}");
    assert!(set.languages().is_empty());
    assert!(set.highlight("let x = 1;", "rust").is_empty());
}

#[test]
fn invalid_json_gives_no_languages() {
    let set = SyntaxSet::from_json("not json");
    assert!(set.languages().is_empty());
}

#[test]
fn strings_mask_keywords_inside() {
    let set = set();
    let code = r#"let s = "let fn";"#;
    let tokens = set.highlight(code, "rust");
    let kw: Vec<_> = tokens.iter().filter(|(_, t)| *t == TokenType::Keyword).collect();
    assert_eq!(kw.len(), 1);
    assert_eq!(&code[kw[0].0.clone()], "let");
}

#[test]
fn function_rule_takes_group_one() {
    let set = set();
    let code = "call(1)";
    let tokens = set.highlight(code, "rust");
    let f: Vec<_> = tokens.iter().filter(|(_, t)| *t == TokenType::Function).collect();
    assert_eq!(f.len(), 1);
    assert_eq!(&code[f[0].0.clone()], "call");
    // The parenthesis after the name was not claimed by the function rule.
    assert!(tokens.iter().any(|(r, t)| *t == TokenType::Punctuation && &code[r.clone()] == "("));
}

#[test]
fn invalid_pattern_is_dropped() {
    let set = SyntaxSet::from_json(r#"{"x": {"keyword": "(", "number": "[0-9]+"}}"#);
    let tokens = set.highlight("a 12", "x");
    assert_eq!(tokens.len(), 1);
    assert_eq!(tokens[0].0, 2..4);
    assert_eq!(tokens[0].1, TokenType::Number);
}
