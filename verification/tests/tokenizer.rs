use keep_a_changelog::{tokenize, Token, TokenKind};

fn token(line: usize, kind: TokenKind, content: &[&str]) -> Token {
    Token::new(line, kind, content.iter().map(|s| s.to_string()).collect())
}

#[test]
fn tokenize_classifies_each_kind_of_line() {
    let text = "<!-- markdownlint-disable MD022 -->\n<!-- a flag -->\n# Title\n\nSome text\n\n## [1.0.0] - 2024-01-02\n\n### Added\n\n- First\n* Second\n\n[link]: https://example.com\n\n---\nfooter\n";
    let (compact, tokens) = tokenize(text.to_string()).unwrap();
    assert!(!compact);
    assert_eq!(
        tokens,
        vec![
            token(1, TokenKind::Lint, &["markdownlint-disable MD022"]),
            token(2, TokenKind::Flag, &["a flag"]),
            token(3, TokenKind::H1, &["Title"]),
            token(4, TokenKind::P, &["Some text"]),
            token(7, TokenKind::H2, &["[1.0.0] - 2024-01-02"]),
            token(9, TokenKind::H3, &["Added"]),
            token(11, TokenKind::Li, &["First"]),
            token(12, TokenKind::Li, &["Second"]),
            token(14, TokenKind::Link, &["[link]: https://example.com"]),
            token(16, TokenKind::Hr, &["-"]),
            token(17, TokenKind::P, &["footer"]),
        ]
    );
}

#[test]
fn tokenize_never_fails_on_plain_text() {
    let (compact, tokens) = tokenize("just\nsome\nlines".to_string()).unwrap();
    assert!(!compact);
    assert_eq!(tokens, vec![token(1, TokenKind::P, &["just", "some", "lines"])]);
}

#[test]
fn tokenize_of_nothing_is_nothing() {
    let (compact, tokens) = tokenize(String::new()).unwrap();
    assert!(!compact);
    assert!(tokens.is_empty());
    let (compact, tokens) = tokenize("  \n\n \t\n".to_string()).unwrap();
    assert!(!compact);
    assert!(tokens.is_empty());
}

#[test]
fn heading_prefixes_are_told_apart() {
    let (_, tokens) = tokenize("# one\n## two\n### three\n#### four\n#five".to_string()).unwrap();
    assert_eq!(
        tokens,
        vec![
            token(1, TokenKind::H1, &["one"]),
            token(2, TokenKind::H2, &["two"]),
            token(3, TokenKind::H3, &["three"]),
            token(4, TokenKind::P, &["#### four", "#five"]),
        ]
    );
}

#[test]
fn rule_comes_before_list_item() {
    let (_, tokens) = tokenize("--- anything\n-- two dashes".to_string()).unwrap();
    assert_eq!(
        tokens,
        vec![token(1, TokenKind::Hr, &["-"]), token(2, TokenKind::Li, &["- two dashes"])]
    );
}

#[test]
fn paragraphs_in_a_row_merge() {
    let (_, tokens) = tokenize("one\ntwo\n\nthree".to_string()).unwrap();
    assert_eq!(tokens, vec![token(1, TokenKind::P, &["one", "two", "", "three"])]);
}

#[test]
fn indented_line_continues_a_list_item() {
    let (_, tokens) = tokenize("- item\n  more\n    deeper\n- next".to_string()).unwrap();
    assert_eq!(
        tokens,
        vec![
            token(1, TokenKind::Li, &["item", "more", "  deeper"]),
            token(4, TokenKind::Li, &["next"]),
        ]
    );
}

#[test]
fn unindented_line_after_a_list_item_is_a_paragraph() {
    let (_, tokens) = tokenize("- item\nmore\n  indented".to_string()).unwrap();
    assert_eq!(
        tokens,
        vec![
            token(1, TokenKind::Li, &["item"]),
            token(2, TokenKind::P, &["more", "  indented"]),
        ]
    );
}

#[test]
fn blank_lines_are_dropped_and_trimmed() {
    let (_, tokens) = tokenize("# t\n\n\nfirst\n\n\n## r\n".to_string()).unwrap();
    assert_eq!(
        tokens,
        vec![
            token(1, TokenKind::H1, &["t"]),
            token(2, TokenKind::P, &["first"]),
            token(7, TokenKind::H2, &["r"]),
        ]
    );
}

#[test]
fn link_on_two_lines_is_one_token() {
    let (_, tokens) = tokenize("[anchor]:\n  https://example.com  \nafter".to_string()).unwrap();
    assert_eq!(
        tokens,
        vec![
            token(1, TokenKind::Link, &["[anchor]:\n  https://example.com"]),
            // the line that the link used up counts as an empty paragraph,
            // which the next paragraph continues
            token(2, TokenKind::P, &["after"]),
        ]
    );
}

#[test]
fn anchor_without_url_gives_no_token() {
    let (_, tokens) = tokenize("[anchor]:\nplain".to_string()).unwrap();
    assert_eq!(tokens, vec![token(2, TokenKind::P, &["plain"])]);
}

#[test]
fn comment_is_lint_directive_or_flag() {
    let (_, tokens) =
        tokenize("<!--markdownlint-disable MD001-->\n<!--   spaced   -->".to_string()).unwrap();
    assert_eq!(
        tokens,
        vec![
            token(1, TokenKind::Lint, &["markdownlint-disable MD001"]),
            token(2, TokenKind::Flag, &["spaced"]),
        ]
    );
}

#[test]
fn compact_looks_at_the_line_after_the_first_title() {
    assert!(tokenize("# Changelog\nSome text\n".to_string()).unwrap().0);
    assert!(!tokenize("# Changelog\n\nSome text\n".to_string()).unwrap().0);
    assert!(!tokenize("# Changelog".to_string()).unwrap().0);
    assert!(!tokenize("no title\nat all".to_string()).unwrap().0);
    assert!(tokenize("intro\n\n# Changelog\n## 1.0.0 - 2024-01-01".to_string()).unwrap().0);
    assert!(!tokenize("# First\n\ntext\n# Second\ntext".to_string()).unwrap().0);
    assert!(!tokenize("# Changelog\n   \ntext".to_string()).unwrap().0);
}

#[test]
fn line_numbers_count_from_the_trimmed_text() {
    let (_, tokens) = tokenize("\n\n# Title\ntext".to_string()).unwrap();
    assert_eq!(
        tokens,
        vec![token(1, TokenKind::H1, &["Title"]), token(2, TokenKind::P, &["text"])]
    );
}

#[test]
fn kind_names() {
    assert_eq!(TokenKind::H1.name(), "Heading 1");
    assert_eq!(TokenKind::H2.name(), "Heading 2");
    assert_eq!(TokenKind::H3.name(), "Heading 3");
    assert_eq!(TokenKind::Li.name(), "List Item");
    assert_eq!(TokenKind::P.name(), "Paragraph");
    assert_eq!(TokenKind::Link.name(), "Link");
    assert_eq!(TokenKind::Flag.name(), "Flag");
    assert_eq!(TokenKind::Hr.name(), "Horizontal Rule");
    assert_eq!(TokenKind::Lint.name(), "Lint");
}
