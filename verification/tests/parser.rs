use keep_a_changelog::{
    ChangeKind, Changelog, ChangelogParseOptions, Date, Error, Parser, Token, TokenKind, Version,
};

fn options(url: Option<&str>, tag_prefix: Option<&str>, head: Option<&str>) -> ChangelogParseOptions {
    ChangelogParseOptions {
        url: url.map(|s| s.to_string()),
        tag_prefix: tag_prefix.map(|s| s.to_string()),
        head: head.map(|s| s.to_string()),
    }
}

fn version(text: &str) -> Version {
    Version::parse(text).unwrap()
}

const FULL: &str = "# Changelog\n\nAll notable changes to this project will be documented in this file.\n\nThe format is based on [Keep a Changelog](https://keepachangelog.com/en/1.0.0/)\nand this project adheres to [Semantic Versioning](https://semver.org/spec/v2.0.0.html).\n\n## [Unreleased]\n\n### Added\n\n- New feature\n\n## [0.1.1] - 2024-05-18\n\n### Fixed\n\n- Parsing anchor links in the middle of the file\n- Error readability\n\n## [0.1.0] - 2024-04-28\n\n### Added\n\n- Initial release\n\n[Unreleased]: https://github.com/user/repo/compare/0.1.1...HEAD\n[0.1.1]: https://github.com/user/repo/compare/0.1.0...0.1.1\n[0.1.0]: https://github.com/user/repo/releases/tag/0.1.0\n";

#[test]
fn parse_reads_a_whole_changelog() {
    let changelog = Changelog::parse(FULL.to_string(), None).unwrap();
    assert_eq!(changelog.title(), &Some("Changelog".to_string()));
    assert_eq!(
        changelog.description(),
        &Some("All notable changes to this project will be documented in this file.\n\nThe format is based on [Keep a Changelog](https://keepachangelog.com/en/1.0.0/)\nand this project adheres to [Semantic Versioning](https://semver.org/spec/v2.0.0.html).".to_string())
    );
    assert_eq!(changelog.head(), "HEAD");
    assert_eq!(changelog.url(), &Some("https://github.com/user/repo".to_string()));
    assert_eq!(changelog.tag_prefix(), &None);
    assert_eq!(changelog.lint(), &None);
    assert_eq!(changelog.flag(), &None);
    assert_eq!(changelog.footer(), &None);
    assert!(!*changelog.compact());
    assert_eq!(changelog.links().len(), 3);
    assert_eq!(changelog.links()[0].anchor(), "Unreleased");
    assert_eq!(changelog.links()[2].url(), "https://github.com/user/repo/releases/tag/0.1.0");

    let releases = changelog.releases();
    assert_eq!(releases.len(), 3);
    assert_eq!(releases[0].version(), &None);
    assert_eq!(releases[0].date(), &None);
    assert_eq!(releases[0].changes().entries(ChangeKind::Added), &vec!["New feature".to_string()]);
    assert_eq!(releases[1].version(), &Some(version("0.1.1")));
    assert_eq!(releases[1].date(), &Some(Date { year: 2024, month: 5, day: 18 }));
    assert_eq!(
        releases[1].changes().entries(ChangeKind::Fixed),
        &vec![
            "Parsing anchor links in the middle of the file".to_string(),
            "Error readability".to_string()
        ]
    );
    assert_eq!(releases[2].version(), &Some(version("0.1.0")));
    assert_eq!(releases[2].date(), &Some(Date { year: 2024, month: 4, day: 28 }));
    assert!(!*releases[2].yanked());
}

#[test]
fn parse_of_the_short_example() {
    let markdown = "# Changelog\n## 0.1.0 - 2024-04-28\n- Initial release\n";
    let changelog = Changelog::parse(
        markdown.to_string(),
        Some(options(
            Some("https://github.com/napalmpapalam/keep-a-changelog-rs"),
            Some("v"),
            Some("master"),
        )),
    )
    .unwrap();
    assert_eq!(changelog.title(), &Some("Changelog".to_string()));
    assert_eq!(changelog.description(), &None);
    assert!(*changelog.compact());
    assert_eq!(changelog.head(), "master");
    assert_eq!(changelog.tag_prefix(), &Some("v".to_string()));
    assert_eq!(changelog.releases().len(), 1);
    let release = &changelog.releases()[0];
    assert_eq!(release.version(), &Some(version("0.1.0")));
    assert_eq!(release.date(), &Some(Date { year: 2024, month: 4, day: 28 }));
    // A list item right below a release heading belongs to the release's
    // description, not to a kind of change.
    assert_eq!(release.description(), &Some("- Initial release".to_string()));
    assert!(release.changes().is_empty());
}

#[test]
fn parse_of_the_short_example_with_a_kind() {
    let markdown = "# Changelog\n## 0.1.0 - 2024-04-28\n### Added\n- Initial release\n";
    let changelog = Changelog::parse(markdown.to_string(), None).unwrap();
    assert_eq!(changelog.releases().len(), 1);
    let release = &changelog.releases()[0];
    assert_eq!(release.version(), &Some(version("0.1.0")));
    assert_eq!(release.date(), &Some(Date { year: 2024, month: 4, day: 28 }));
    assert_eq!(release.description(), &None);
    assert_eq!(release.changes().entries(ChangeKind::Added), &vec!["Initial release".to_string()]);
    assert!(release.changes().entries(ChangeKind::Fixed).is_empty());
}

#[test]
fn heading_that_is_no_release_fails() {
    let error = Changelog::parse("# Changelog\n\n## NotAVersion\n".to_string(), None).unwrap_err();
    assert_eq!(
        error,
        Error::ReleaseHeading { line: 3, kind: TokenKind::H2, content: "NotAVersion".to_string() }
    );
    assert_eq!(
        error.message(),
        "Failed to parse release token at line: 3, kind: Heading 2, content: `## NotAVersion`. Expected format: `## [VERSION] - [DATE]` or `## [Unreleased]`"
    );
}

#[test]
fn unknown_kind_of_change_fails() {
    let error = Changelog::parse(
        "# Changelog\n\n## [1.0.0] - 2024-01-01\n\n### Unknown\n\n- entry\n".to_string(),
        None,
    )
    .unwrap_err();
    assert_eq!(error, Error::ChangeKind { line: 5, content: "unknown".to_string() });
    assert_eq!(
        error.message(),
        "Failed to parse change kind at line: 5, content: `unknown`, error: \"Unknown change type: unknown\""
    );
}

#[test]
fn unknown_kind_of_change_fails_without_entries() {
    let error =
        Changelog::parse("## [1.0.0] - 2024-01-01\n### Unknown\n".to_string(), None).unwrap_err();
    assert_eq!(error, Error::ChangeKind { line: 2, content: "unknown".to_string() });
}

#[test]
fn label_of_a_dated_release_must_be_a_version() {
    let error = Changelog::parse("## [one] - 2024-01-01\n".to_string(), None).unwrap_err();
    assert_eq!(error, Error::Version { line: 1, text: "one".to_string() });
    assert_eq!(error.message(), "Failed to parse version: `one` at line: 1");
}

#[test]
fn date_of_a_dated_release_must_exist() {
    let error = Changelog::parse("# t\n\n## [1.0.0] - 2024-02-30\n".to_string(), None).unwrap_err();
    assert_eq!(error, Error::Date { line: 3, text: "2024-02-30".to_string() });
    assert_eq!(error.message(), "Failed to parse date: `2024-02-30` at line: 3");
}

#[test]
fn lint_directive_without_codes_fails() {
    let error =
        Changelog::parse("<!-- markdownlint-disable -->\n# t\n".to_string(), None).unwrap_err();
    assert_eq!(error, Error::LintDirective { line: 1 });
    assert_eq!(error.message(), "Failed to get lint content at line: 1");
}

#[test]
fn leftover_tokens_fail() {
    let error = Changelog::parse(
        "# t\n\n## [1.0.0] - 2024-01-01\n\n### Added\n\n- entry\n\n# Another title\n\ntext\n"
            .to_string(),
        None,
    )
    .unwrap_err();
    assert_eq!(
        error,
        Error::UnexpectedTokens {
            tokens: vec![
                Token::new(9, TokenKind::H1, vec!["Another title".to_string()]),
                Token::new(10, TokenKind::P, vec!["text".to_string()]),
            ],
            index: 4,
            count: 6,
        }
    );
    assert_eq!(
        error.message(),
        "Unexpected tokens: Heading 1 at line 9, Paragraph at line 10, index: 4, tokens length: 6"
    );
}

#[test]
fn link_on_two_lines_is_read() {
    let changelog =
        Changelog::parse("# T\n\ntext\n\n[a]:\n  https://example.com/x\n".to_string(), None)
            .unwrap();
    assert_eq!(changelog.links().len(), 1);
    assert_eq!(changelog.links()[0].anchor(), "a");
    assert_eq!(changelog.links()[0].url(), "https://example.com/x");
    assert_eq!(changelog.description(), &Some("text".to_string()));
    assert_eq!(
        changelog.file_contents().unwrap(),
        "# T\n\ntext\n\n[a]: https://example.com/x\n"
    );
}

#[test]
fn link_without_space_is_read() {
    let changelog =
        Changelog::parse("# T\n\n[a]:http://x\n[b]:  http://y\n".to_string(), None).unwrap();
    assert_eq!(changelog.links().len(), 2);
    assert_eq!(changelog.links()[0].anchor(), "a");
    assert_eq!(changelog.links()[0].url(), "http://x");
    assert_eq!(changelog.links()[1].anchor(), "b");
    assert_eq!(changelog.links()[1].url(), "http://y");
}

#[test]
fn link_token_without_parting_colon_fails() {
    let tokens = vec![Token::new(1, TokenKind::Link, vec!["no link at all".to_string()])];
    let error = Parser::parse_tokens(false, tokens, None).unwrap_err();
    assert_eq!(error, Error::MissingUrl);
    assert_eq!(error.message(), "Missing url");
}

#[test]
fn lint_directive_gives_the_codes_in_order() {
    let changelog = Changelog::parse(
        "<!-- markdownlint-disable MD032 MD022 MD032 -->\n# t\n".to_string(),
        None,
    )
    .unwrap();
    assert_eq!(changelog.lint(), &Some(vec!["MD022".to_string(), "MD032".to_string()]));
    assert!(*changelog.compact() == false);
}

#[test]
fn flag_title_and_description_are_optional() {
    let changelog = Changelog::parse("<!-- flag text -->\n".to_string(), None).unwrap();
    assert_eq!(changelog.flag(), &Some("flag text".to_string()));
    assert_eq!(changelog.title(), &None);
    assert_eq!(changelog.description(), &None);
    assert!(changelog.releases().is_empty());

    let changelog = Changelog::parse(String::new(), None).unwrap();
    assert_eq!(changelog.flag(), &None);
    assert_eq!(changelog.title(), &None);
}

#[test]
fn description_takes_paragraphs_and_list_items() {
    let changelog =
        Changelog::parse("# t\n\nfirst\nsecond\n\n- item\n  more\n\nlast\n".to_string(), None)
            .unwrap();
    assert_eq!(
        changelog.description(),
        &Some("first\nsecond\n- item\nmore\nlast".to_string())
    );
}

#[test]
fn unreleased_heading_may_carry_a_version() {
    let changelog = Changelog::parse(
        "## [Unreleased]\n\n## [2.0.0] - Unreleased [YANKED]\n\n## Unreleased\n".to_string(),
        None,
    )
    .unwrap();
    let releases = changelog.releases();
    assert_eq!(releases.len(), 3);
    assert_eq!(releases[0].version(), &None);
    assert!(!*releases[0].yanked());
    assert_eq!(releases[1].version(), &Some(version("2.0.0")));
    assert_eq!(releases[1].date(), &None);
    assert!(*releases[1].yanked());
    assert_eq!(releases[2].version(), &None);
}

#[test]
fn unreleased_label_must_be_a_version() {
    let error = Changelog::parse("## next - unreleased\n".to_string(), None).unwrap_err();
    assert_eq!(error, Error::Version { line: 1, text: "next".to_string() });
}

#[test]
fn yanked_release_is_marked() {
    let changelog =
        Changelog::parse("## [1.0.0] - 2024-01-01 [YANKED]\n".to_string(), None).unwrap();
    assert!(*changelog.releases()[0].yanked());
    assert_eq!(changelog.releases()[0].date(), &Some(Date { year: 2024, month: 1, day: 1 }));
}

#[test]
fn dated_heading_wins_over_the_word_unreleased() {
    let changelog =
        Changelog::parse("## 1.0.0-unreleased - 2024-01-01\n".to_string(), None).unwrap();
    assert_eq!(changelog.releases()[0].version(), &Some(version("1.0.0-unreleased")));
    assert_eq!(changelog.releases()[0].date(), &Some(Date { year: 2024, month: 1, day: 1 }));
}

#[test]
fn releases_come_out_newest_first() {
    let changelog = Changelog::parse(
        "## [0.1.0] - 2024-04-28\n\n## [0.3.0] - 2024-06-01\n\n## [Unreleased]\n\n## [0.2.0] - 2024-05-18\n"
            .to_string(),
        None,
    )
    .unwrap();
    let versions: Vec<Option<String>> =
        changelog.releases().iter().map(|r| r.version().as_ref().map(|v| v.to_text())).collect();
    assert_eq!(
        versions,
        vec![
            None,
            Some("0.3.0".to_string()),
            Some("0.2.0".to_string()),
            Some("0.1.0".to_string())
        ]
    );
}

#[test]
fn repository_comes_from_the_first_compare_link() {
    let text = "# t\n\n[docs]: https://example.com/docs\n[1.0.0]: https://gitlab.com/a/b/-/compare/0.9.0...1.0.0\n[0.9.0]: https://github.com/c/d/compare/0.8.0...0.9.0\n";
    let changelog = Changelog::parse(text.to_string(), None).unwrap();
    assert_eq!(changelog.url(), &Some("https://gitlab.com/a/b".to_string()));
    assert_eq!(changelog.links().len(), 3);

    let changelog =
        Changelog::parse(text.to_string(), Some(options(Some("https://mine"), None, None)))
            .unwrap();
    assert_eq!(changelog.url(), &Some("https://mine".to_string()));
}

#[test]
fn release_without_date_stays_on_top() {
    let changelog = Changelog::parse(
        "## [1.1.0] - 2024-02-01\n\n## [1.2.0] - Unreleased\n\n## [1.0.0] - 2024-01-01\n"
            .to_string(),
        None,
    )
    .unwrap();
    let versions: Vec<String> = changelog
        .releases()
        .iter()
        .map(|r| r.version().as_ref().map(|v| v.to_text()).unwrap_or_default())
        .collect();
    assert_eq!(versions, vec!["1.2.0", "1.1.0", "1.0.0"]);
    assert_eq!(changelog.releases()[0].date(), &None);
}

#[test]
fn repository_stays_unknown_without_compare_links() {
    let changelog =
        Changelog::parse("# t\n\n[docs]: https://example.com/docs\n".to_string(), None).unwrap();
    assert_eq!(changelog.url(), &None);
}

#[test]
fn footer_is_what_follows_the_rule() {
    let changelog = Changelog::parse(
        "# t\n\n## [1.0.0] - 2024-01-01\n\n---\n\nmade by hand\n- with care\n".to_string(),
        None,
    )
    .unwrap();
    assert_eq!(changelog.footer(), &Some("made by hand\n- with care".to_string()));

    let changelog = Changelog::parse("# t\n\n---\n".to_string(), None).unwrap();
    assert_eq!(changelog.footer(), &Some(String::new()));
}

#[test]
fn parse_tokens_takes_the_tokens_as_they_are() {
    let tokens = vec![
        Token::new(1, TokenKind::H1, vec!["Title".to_string()]),
        Token::new(2, TokenKind::Link, vec!["[a]: https://b".to_string()]),
        Token::new(3, TokenKind::H2, vec!["[1.2.3] - 2020-02-29".to_string()]),
        Token::new(4, TokenKind::P, vec!["about".to_string(), "it".to_string()]),
        Token::new(6, TokenKind::H3, vec!["SECURITY".to_string()]),
        Token::new(7, TokenKind::Li, vec!["one".to_string(), "two".to_string()]),
    ];
    let changelog = Parser::parse_tokens(true, tokens, None).unwrap();
    assert!(*changelog.compact());
    assert_eq!(changelog.title(), &Some("Title".to_string()));
    assert_eq!(changelog.links().len(), 1);
    let release = &changelog.releases()[0];
    assert_eq!(release.version(), &Some(version("1.2.3")));
    assert_eq!(release.date(), &Some(Date { year: 2020, month: 2, day: 29 }));
    assert_eq!(release.description(), &Some("about\nit".to_string()));
    assert_eq!(release.changes().entries(ChangeKind::Security), &vec!["one\ntwo".to_string()]);
}

#[test]
fn parse_and_parser_agree() {
    let a = Changelog::parse(FULL.to_string(), None).unwrap();
    let b = Parser::parse(FULL.to_string(), None).unwrap();
    assert_eq!(a.file_contents(), b.file_contents());
}
