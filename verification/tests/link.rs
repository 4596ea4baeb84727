use keep_a_changelog::{Error, Link};

#[test]
fn test_new_with_invalid_anchor() {
    let result = Link::new("", "https://example.com");
    assert!(result.is_err());
}

#[test]
fn test_new_with_invalid_url() {
    let result = Link::new("anchor", "");
    assert!(result.is_err());
}

#[test]
fn test_new_with_valid_anchor_and_url() {
    let result = Link::new("anchor", "https://example.com");
    assert!(result.is_ok());
    let link = result.unwrap();
    assert_eq!(link.anchor(), "anchor");
    assert_eq!(link.url(), "https://example.com");
}

#[test]
fn test_new_with_valid_decorarted_anchor_and_url() {
    let result = Link::new("[anchor]:", "https://example.com");
    assert!(result.is_ok());
    let link = result.unwrap();
    assert_eq!(link.anchor(), "anchor");
    assert_eq!(link.url(), "https://example.com");
}

#[test]
fn new_reports_which_part_is_missing() {
    assert_eq!(
        Link::new("[]:", "https://example.com"),
        Err(Error::MissingAnchor { text: String::new() })
    );
    assert_eq!(Link::new("anchor", ""), Err(Error::MissingUrl));
}

#[test]
fn parse_splits_at_the_first_colon_and_space() {
    let link = Link::parse("[anchor]: https://example.com".to_string()).unwrap();
    assert_eq!(link.anchor(), "anchor");
    assert_eq!(link.url(), "https://example.com");
    let link = Link::parse("[a]: b: c".to_string()).unwrap();
    assert_eq!(link.anchor(), "a");
    assert_eq!(link.url(), "b: c");
}

#[test]
fn parse_without_parting_colon_has_no_url() {
    assert_eq!(Link::parse("no link".to_string()), Err(Error::MissingUrl));
    assert_eq!(Link::parse("https://example.com".to_string()), Err(Error::MissingUrl));
    assert_eq!(Link::parse("anchor:url".to_string()), Err(Error::MissingUrl));
    assert_eq!(Link::parse(String::new()), Err(Error::MissingUrl));
}

#[test]
fn parse_reads_a_link_on_two_lines() {
    let link = Link::parse("[a]:\n  https://example.com/x".to_string()).unwrap();
    assert_eq!(link.anchor(), "a");
    assert_eq!(link.url(), "https://example.com/x");
    let link = Link::parse("[a]:\thttps://example.com/x  ".to_string()).unwrap();
    assert_eq!(link.anchor(), "a");
    assert_eq!(link.url(), "https://example.com/x");
}

#[test]
fn parse_reads_a_link_without_space() {
    let link = Link::parse("[anchor]:https://example.com".to_string()).unwrap();
    assert_eq!(link.anchor(), "anchor");
    assert_eq!(link.url(), "https://example.com");
}

#[test]
fn parse_takes_the_whitespace_off_the_url() {
    let link = Link::parse("[docs]:   https://example.com/docs \t".to_string()).unwrap();
    assert_eq!(link.anchor(), "docs");
    assert_eq!(link.url(), "https://example.com/docs");
    let link = Link::parse("plain: url".to_string()).unwrap();
    assert_eq!(link.anchor(), "plain");
    assert_eq!(link.url(), "url");
    let link = Link::parse("[a]: ".to_string()).unwrap();
    assert_eq!(link.anchor(), "a");
    assert_eq!(link.url(), "");
}

#[test]
fn parse_prefers_the_colon_before_whitespace() {
    let link = Link::parse("[a]:b]: c".to_string()).unwrap();
    assert_eq!(link.anchor(), "a:b");
    assert_eq!(link.url(), "c");
}

#[test]
fn render_writes_a_reference_definition() {
    let link = Link::new("anchor", "https://example.com").unwrap();
    assert_eq!(link.render(), "[anchor]: https://example.com");
}
