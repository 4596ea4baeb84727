use keep_a_changelog::{
    ChangeKind, Changelog, ChangelogBuilder, ChangelogParseOptions, Changes, Date, Error, Link,
    Release, Version,
};

fn release(version: &str, year: i32, month: u32, day: u32) -> Release {
    let mut builder = Release::builder();
    builder.version(Version::parse(version).unwrap()).date(Date { year, month, day });
    builder.build().unwrap()
}

fn with_url(url: &str) -> Changelog {
    let mut builder = ChangelogBuilder::new();
    builder.url(Some(url.to_string()));
    builder.build().unwrap()
}

const DEFAULT: &str = "# Changelog\n\nAll notable changes to this project will be documented in this file.\n\nThe format is based on [Keep a Changelog](https://keepachangelog.com/en/1.0.0/)\nand this project adheres to [Semantic Versioning](https://semver.org/spec/v2.0.0.html).\n";

#[test]
fn default_changelog() {
    let changelog = ChangelogBuilder::new().build().unwrap();
    assert_eq!(changelog.file_contents().unwrap(), DEFAULT);
}

#[test]
fn default_changelog_compact() {
    let mut changelog = ChangelogBuilder::new().build().unwrap();
    changelog.set_compact();
    assert_eq!(
        changelog.file_contents().unwrap(),
        "<!-- markdownlint-disable MD022 MD032 -->\n# Changelog\nAll notable changes to this project will be documented in this file.\n\nThe format is based on [Keep a Changelog](https://keepachangelog.com/en/1.0.0/)\nand this project adheres to [Semantic Versioning](https://semver.org/spec/v2.0.0.html).\n"
    );
}

#[test]
fn default_changelog_with_unreleased() {
    let mut changelog = ChangelogBuilder::new().build().unwrap();
    changelog.add_release(Release::builder().build().unwrap());
    assert_eq!(changelog.file_contents().unwrap(), format!("{DEFAULT}\n## [Unreleased]\n"));
}

#[test]
fn initial_changelog_unreleased() {
    let mut changelog = ChangelogBuilder::new().build().unwrap();
    let mut release = Release::builder().build().unwrap();
    release.added("Initial commit".to_string());
    changelog.add_release(release);
    assert_eq!(
        changelog.file_contents().unwrap(),
        format!("{DEFAULT}\n## [Unreleased]\n\n### Added\n\n- Initial commit\n")
    );
}

fn early(compact: bool) -> Changelog {
    let mut builder = ChangelogBuilder::new();
    builder
        .flag(Some("test flag".to_string()))
        .url(Some("https://github.com/napalmpapalam/keep-a-changelog-rs".to_string()));
    let mut changelog = builder.build().unwrap();
    if compact {
        changelog.set_compact();
    }

    let mut first = release("0.1.0", 2024, 4, 28);
    first.added("Initial release".to_string());
    changelog.add_release(first);

    let mut second = release("0.1.1", 2024, 5, 18);
    second.fixed("Parsing anchor links in the middle of the file".to_string());
    second.fixed("Error readability".to_string());
    changelog.add_release(second);

    let mut third = release("0.1.2", 2024, 5, 20);
    third.fixed("Default changelog description".to_string());
    third.fixed("Changelog builder error when title and description are not provided".to_string());
    changelog.add_release(third);

    let mut unreleased = Release::builder().build().unwrap();
    unreleased.added("New feature".to_string());
    unreleased.added("Another new feature".to_string());
    unreleased.fixed("Bug fix to one old feature".to_string());
    changelog.add_release(unreleased);
    changelog
}

const EARLY: &str = "<!-- test flag -->\n# Changelog\n\nAll notable changes to this project will be documented in this file.\n\nThe format is based on [Keep a Changelog](https://keepachangelog.com/en/1.0.0/)\nand this project adheres to [Semantic Versioning](https://semver.org/spec/v2.0.0.html).\n\n## [Unreleased]\n\n### Added\n\n- New feature\n- Another new feature\n\n### Fixed\n\n- Bug fix to one old feature\n\n## [0.1.2] - 2024-05-20\n\n### Fixed\n\n- Default changelog description\n- Changelog builder error when title and description are not provided\n\n## [0.1.1] - 2024-05-18\n\n### Fixed\n\n- Parsing anchor links in the middle of the file\n- Error readability\n\n## [0.1.0] - 2024-04-28\n\n### Added\n\n- Initial release\n\n[Unreleased]: https://github.com/napalmpapalam/keep-a-changelog-rs/compare/0.1.2...HEAD\n[0.1.2]: https://github.com/napalmpapalam/keep-a-changelog-rs/compare/0.1.1...0.1.2\n[0.1.1]: https://github.com/napalmpapalam/keep-a-changelog-rs/compare/0.1.0...0.1.1\n[0.1.0]: https://github.com/napalmpapalam/keep-a-changelog-rs/releases/tag/0.1.0\n";

const EARLY_COMPACT: &str = "<!-- markdownlint-disable MD022 MD032 -->\n<!-- test flag -->\n# Changelog\nAll notable changes to this project will be documented in this file.\n\nThe format is based on [Keep a Changelog](https://keepachangelog.com/en/1.0.0/)\nand this project adheres to [Semantic Versioning](https://semver.org/spec/v2.0.0.html).\n\n## [Unreleased]\n### Added\n- New feature\n- Another new feature\n### Fixed\n- Bug fix to one old feature\n\n## [0.1.2] - 2024-05-20\n### Fixed\n- Default changelog description\n- Changelog builder error when title and description are not provided\n\n## [0.1.1] - 2024-05-18\n### Fixed\n- Parsing anchor links in the middle of the file\n- Error readability\n\n## [0.1.0] - 2024-04-28\n### Added\n- Initial release\n\n[Unreleased]: https://github.com/napalmpapalam/keep-a-changelog-rs/compare/0.1.2...HEAD\n[0.1.2]: https://github.com/napalmpapalam/keep-a-changelog-rs/compare/0.1.1...0.1.2\n[0.1.1]: https://github.com/napalmpapalam/keep-a-changelog-rs/compare/0.1.0...0.1.1\n[0.1.0]: https://github.com/napalmpapalam/keep-a-changelog-rs/releases/tag/0.1.0\n";

#[test]
fn early_changelog_with_multiple_sections() {
    assert_eq!(early(false).file_contents().unwrap(), EARLY);
}

#[test]
fn early_changelog_with_multiple_sections_compact() {
    assert_eq!(early(true).file_contents().unwrap(), EARLY_COMPACT);
}

#[test]
fn written_changelog_reads_back_the_same() {
    for text in [DEFAULT, EARLY, EARLY_COMPACT] {
        let once = Changelog::parse(text.to_string(), None).unwrap().file_contents().unwrap();
        assert_eq!(once, text);
        let twice = Changelog::parse(once.clone(), None).unwrap().file_contents().unwrap();
        assert_eq!(twice, once);
    }
}

#[test]
fn reading_and_writing_settles_after_one_round() {
    let untidy = "#  My log  \n\n\n\nabout it\n\n\n## 1.0.0 - 2024-1-2\n### fixed\n* one\n    deeper\n*  two\n\n\n\n[docs]:   https://example.com/docs\n\n---\nbye\n\n\n";
    let first = Changelog::parse(untidy.to_string(), Some(ChangelogParseOptions {
        url: Some("https://example.com/repo".to_string()),
        tag_prefix: Some("v".to_string()),
        head: None,
    }))
    .unwrap();
    let written = first.file_contents().unwrap();
    assert_eq!(
        written,
        "# My log\n\nabout it\n\n## [1.0.0] - 2024-01-02\n\n### Fixed\n\n- one\n    deeper\n- two\n\n[docs]: https://example.com/docs\n\n[1.0.0]: https://example.com/repo/releases/tag/v1.0.0\n---\nbye\n"
    );
    let options = ChangelogParseOptions {
        url: Some("https://example.com/repo".to_string()),
        tag_prefix: Some("v".to_string()),
        head: None,
    };
    let again = Changelog::parse(written.clone(), Some(options)).unwrap().file_contents().unwrap();
    assert_eq!(again, written);
}

#[test]
fn compact_source_is_written_compactly() {
    let changelog = Changelog::parse("# Changelog\nSome text\n".to_string(), None).unwrap();
    assert!(*changelog.compact());
    assert_eq!(changelog.file_contents().unwrap(), "# Changelog\nSome text\n");
}

#[test]
fn spacious_source_is_written_with_blank_lines() {
    let changelog = Changelog::parse("# Changelog\n\nSome text\n".to_string(), None).unwrap();
    assert!(!*changelog.compact());
    assert_eq!(changelog.file_contents().unwrap(), "# Changelog\n\nSome text\n");
}

#[test]
fn compact_release_has_no_blank_line_after_headings_or_lists() {
    let text = "# Changelog\nSome text\n## [1.0.0] - 2024-01-02\n### Added\n- one\n### Fixed\n- two\n";
    let changelog = Changelog::parse(
        text.to_string(),
        Some(ChangelogParseOptions {
            url: Some("https://example.com/r".to_string()),
            tag_prefix: None,
            head: None,
        }),
    )
    .unwrap();
    assert_eq!(
        changelog.file_contents().unwrap(),
        "# Changelog\nSome text\n\n## [1.0.0] - 2024-01-02\n### Added\n- one\n### Fixed\n- two\n\n[1.0.0]: https://example.com/r/releases/tag/1.0.0\n"
    );
}

#[test]
fn render_keeps_what_file_contents_tidies() {
    let mut changelog = Changelog::new();
    changelog.title = Some("T".to_string());
    changelog.description = Some("  d\n\n\n\ne  ".to_string());
    changelog.footer = Some("f  \n\n".to_string());
    assert_eq!(changelog.render().unwrap(), "# T\n\nd\n\n\n\ne\n\n---\nf  \n\n\n");
    assert_eq!(changelog.file_contents().unwrap(), "# T\n\nd\n\ne\n\n---\nf\n");
}

#[test]
fn lint_codes_are_written_in_order_and_once() {
    let mut changelog = Changelog::new();
    changelog.disable_lint("MD032").disable_lint("MD001").disable_lint("MD032").disable_lint("MD0");
    assert_eq!(
        changelog.lint(),
        &Some(vec!["MD032".to_string(), "MD001".to_string(), "MD0".to_string()])
    );
    assert_eq!(
        changelog.render_head(),
        "<!-- markdownlint-disable MD0 MD001 MD032 -->\n# Changelog\n\nAll notable changes to this project will be documented in this file.\n\nThe format is based on [Keep a Changelog](https://keepachangelog.com/en/1.0.0/)\nand this project adheres to [Semantic Versioning](https://semver.org/spec/v2.0.0.html).\n\n"
    );
    changelog.lint = Some(vec!["b".to_string(), "a".to_string(), "b".to_string(), "B".to_string()]);
    assert!(changelog.render().unwrap().starts_with("<!-- markdownlint-disable B a b -->\n"));
}

#[test]
fn enable_lint_removes_the_code() {
    let mut changelog = Changelog::new();
    changelog.enable_lint("MD001");
    assert_eq!(changelog.lint(), &None);
    changelog.disable_lint("MD001").disable_lint("MD002");
    changelog.enable_lint("MD001");
    assert_eq!(changelog.lint(), &Some(vec!["MD002".to_string()]));
    changelog.enable_lint("MD009");
    assert_eq!(changelog.lint(), &Some(vec!["MD002".to_string()]));
    changelog.enable_lint("MD002");
    assert_eq!(changelog.lint(), &None);
}

#[test]
fn set_and_unset_compact() {
    let mut changelog = Changelog::new();
    changelog.disable_lint("MD001");
    changelog.set_compact();
    assert!(*changelog.compact());
    assert_eq!(
        changelog.lint(),
        &Some(vec!["MD001".to_string(), "MD022".to_string(), "MD032".to_string()])
    );
    changelog.unset_compact();
    assert!(!*changelog.compact());
    assert_eq!(changelog.lint(), &Some(vec!["MD001".to_string()]));
}

#[test]
fn builder_compact_replaces_the_lint_rules() {
    let mut builder = ChangelogBuilder::new();
    builder.lint(Some(vec!["MD001".to_string()]));
    builder.compact(true);
    let changelog = builder.build().unwrap();
    assert!(*changelog.compact());
    assert_eq!(changelog.lint(), &Some(vec!["MD022".to_string(), "MD032".to_string()]));
    builder.compact(false);
    let changelog = builder.build().unwrap();
    assert!(!*changelog.compact());
    assert_eq!(changelog.lint(), &None);
}

#[test]
fn builder_links_reads_each_line() {
    let mut builder = ChangelogBuilder::new();
    assert!(builder
        .links(vec!["[a]: https://a".to_string(), "[b]: https://b".to_string()])
        .is_ok());
    let changelog = builder.build().unwrap();
    assert_eq!(
        changelog.links(),
        &vec![Link::new("a", "https://a").unwrap(), Link::new("b", "https://b").unwrap()]
    );
    let failed = builder.links(vec!["[c]: https://c".to_string(), "no link".to_string()]);
    assert_eq!(failed.err(), Some(Error::MissingUrl));
    assert_eq!(builder.build().unwrap().links().len(), 2);
}

#[test]
fn builder_defaults() {
    let builder = ChangelogBuilder::new();
    assert_eq!(builder.default_head(), "HEAD");
    let changelog = builder.build().unwrap();
    assert_eq!(changelog.head(), "HEAD");
    assert_eq!(changelog.title(), &None);
    assert!(changelog.releases().is_empty());
    assert!(!*changelog.compact());
}

#[test]
fn own_links_are_written_before_compare_links() {
    let mut changelog = with_url("https://github.com/u/r");
    changelog.add_link("docs", "https://example.com/docs");
    changelog.add_link("1.0.0", "https://old/compare/0.9.0...1.0.0");
    changelog.add_link("Unreleased stuff", "https://old/compare/1.0.0...HEAD");
    changelog.add_link("home", "https://example.com");
    changelog.add_release(release("1.0.0", 2024, 1, 2));
    assert_eq!(
        changelog.file_contents().unwrap(),
        format!("{DEFAULT}\n## [1.0.0] - 2024-01-02\n\n[docs]: https://example.com/docs\n[home]: https://example.com\n\n[1.0.0]: https://github.com/u/r/releases/tag/1.0.0\n")
    );
}

#[test]
fn release_with_description_and_yanked_mark() {
    let mut r = release("1.2.3-rc.1+build.5", 2024, 12, 31);
    r.set_yanked(true).set_description("What it is about".to_string());
    r.changed("a\nb\n\n  c  ".to_string());
    assert_eq!(
        r.render(false).unwrap(),
        "## [1.2.3-rc.1+build.5] - 2024-12-31 [YANKED]\n\nWhat it is about\n### Changed\n\n- a\n  b\n\n    c\n\n"
    );
    assert_eq!(
        r.render(true).unwrap(),
        "## [1.2.3-rc.1+build.5] - 2024-12-31 [YANKED]\nWhat it is about\n### Changed\n- a\n  b\n\n    c\n\n"
    );
}

#[test]
fn unreleased_heading_shows_the_yanked_mark() {
    let mut r = Release::new();
    r.set_yanked(true);
    assert_eq!(r.render(false).unwrap(), "## [Unreleased] [YANKED]\n\n");
    assert_eq!(r.render(true).unwrap(), "## [Unreleased] [YANKED]\n\n");
    let mut dated = Release::new();
    dated.set_date(Date { year: 2024, month: 1, day: 1 });
    assert_eq!(dated.render(false).unwrap(), "## [Unreleased]\n\n");
}

#[test]
fn release_with_version_needs_a_date() {
    let mut r = Release::new();
    r.set_version(Version::parse("1.0.0").unwrap());
    assert_eq!(r.render(false), Err(Error::MissingDate));
    r.set_date(Date { year: 2023, month: 2, day: 29 });
    assert_eq!(r.render(false), Err(Error::InvalidDate));
    r.set_date(Date { year: 2024, month: 2, day: 29 });
    assert_eq!(r.render(false).unwrap(), "## [1.0.0] - 2024-02-29\n\n");

    let mut changelog = Changelog::new();
    let mut bad = Release::new();
    bad.set_version(Version::parse("1.0.0").unwrap());
    changelog.add_release(bad);
    assert_eq!(changelog.file_contents(), Err(Error::MissingDate));
    assert_eq!(Error::MissingDate.message(), "Missing date for release");
    assert_eq!(Error::InvalidDate.message(), "Invalid date for release");
}

#[test]
fn changes_are_written_by_kind_in_fixed_order() {
    let mut changes = Changes::new();
    assert!(changes.is_empty());
    assert_eq!(changes.render(false), "");
    changes.add(ChangeKind::Security, "s".to_string());
    changes.add(ChangeKind::Added, "a1".to_string());
    changes.add(ChangeKind::Removed, "r".to_string());
    changes.add(ChangeKind::Added, "a2".to_string());
    changes.add(ChangeKind::Deprecated, "d".to_string());
    changes.add(ChangeKind::Changed, "c".to_string());
    changes.add(ChangeKind::Fixed, "f".to_string());
    assert!(!changes.is_empty());
    assert_eq!(changes.entries(ChangeKind::Added), &vec!["a1".to_string(), "a2".to_string()]);
    assert_eq!(
        changes.render(false),
        "### Added\n\n- a1\n- a2\n\n### Changed\n\n- c\n\n### Deprecated\n\n- d\n\n### Removed\n\n- r\n\n### Fixed\n\n- f\n\n### Security\n\n- s\n\n"
    );
    assert_eq!(
        changes.render(true),
        "### Added\n- a1\n- a2\n### Changed\n- c\n### Deprecated\n- d\n### Removed\n- r\n### Fixed\n- f\n### Security\n- s\n\n"
    );
}

#[test]
fn kind_of_change_is_read_whatever_its_case() {
    assert_eq!(ChangeKind::from_str("Added"), Some(ChangeKind::Added));
    assert_eq!(ChangeKind::from_str("CHANGED"), Some(ChangeKind::Changed));
    assert_eq!(ChangeKind::from_str("deprecated"), Some(ChangeKind::Deprecated));
    assert_eq!(ChangeKind::from_str("rEmOvEd"), Some(ChangeKind::Removed));
    assert_eq!(ChangeKind::from_str("fixed"), Some(ChangeKind::Fixed));
    assert_eq!(ChangeKind::from_str("Security"), Some(ChangeKind::Security));
    assert_eq!(ChangeKind::from_str("Unknown"), None);
    assert_eq!(ChangeKind::from_str(" added"), None);
    assert_eq!(ChangeKind::Deprecated.title(), "Deprecated");
}
