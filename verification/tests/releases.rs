use keep_a_changelog::order::sort_releases;
use keep_a_changelog::{
    Changelog, ChangelogBuilder, Date, Error, Link, Release, Token, TokenKind, Version,
};

fn release(version: &str, year: i32, month: u32, day: u32) -> Release {
    let mut builder = Release::builder();
    builder.version(Version::parse(version).unwrap()).date(Date { year, month, day });
    builder.build().unwrap()
}

fn labelled(version: &str) -> Release {
    let mut builder = Release::builder();
    builder.version(Version::parse(version).unwrap());
    builder.build().unwrap()
}

fn described(text: &str) -> Release {
    let mut builder = Release::builder();
    builder.description(Some(text.to_string()));
    builder.build().unwrap()
}

fn versions(releases: &[Release]) -> Vec<String> {
    releases
        .iter()
        .map(|r| match r.version() {
            Some(v) => v.to_text(),
            None => format!("unreleased {}", r.description().clone().unwrap_or_default()),
        })
        .collect()
}

#[test]
fn sort_puts_newest_first_and_unreleased_on_top() {
    let sorted = sort_releases(vec![
        release("0.1.0", 2024, 4, 28),
        release("0.3.0", 2025, 1, 1),
        labelled("9.9.9"),
        described("first"),
        release("0.2.0", 2024, 12, 31),
        release("0.2.1", 2024, 12, 31),
        described("second"),
        release("0.0.1", 2023, 12, 31),
    ]);
    // the first release with neither version nor date goes on top; the
    // other releases without a date are the oldest
    assert_eq!(
        versions(&sorted),
        vec![
            "unreleased first",
            "0.3.0",
            "0.2.0",
            "0.2.1",
            "0.1.0",
            "0.0.1",
            "9.9.9",
            "unreleased second",
        ]
    );
}

#[test]
fn sort_puts_a_release_without_date_on_top_whatever_its_version() {
    let sorted = sort_releases(vec![
        release("0.1.0", 2024, 4, 28),
        release("0.3.0", 2025, 1, 1),
        labelled("9.9.9"),
        release("0.2.0", 2024, 12, 31),
        labelled("0.0.0"),
        release("0.0.1", 2023, 12, 31),
    ]);
    assert_eq!(versions(&sorted), vec!["9.9.9", "0.3.0", "0.2.0", "0.1.0", "0.0.1", "0.0.0"]);
}

#[test]
fn add_release_pins_the_one_release_without_date() {
    let mut changelog = Changelog::new();
    changelog.add_release(release("0.1.0", 2024, 4, 28));
    changelog.add_release(labelled("1.2.0"));
    assert_eq!(versions(changelog.releases()), vec!["1.2.0", "0.1.0"]);
    changelog.add_release(release("0.2.0", 2024, 5, 1));
    assert_eq!(versions(changelog.releases()), vec!["1.2.0", "0.2.0", "0.1.0"]);
    changelog.add_release(Release::new());
    assert_eq!(versions(changelog.releases()), vec!["unreleased ", "0.2.0", "0.1.0", "1.2.0"]);
}

#[test]
fn sort_orders_by_year_then_month_then_day() {
    let sorted = sort_releases(vec![
        release("1.0.0", 2024, 1, 31),
        release("2.0.0", 2024, 2, 1),
        release("3.0.0", 2023, 12, 31),
        release("4.0.0", 2024, 2, 2),
    ]);
    assert_eq!(versions(&sorted), vec!["4.0.0", "2.0.0", "1.0.0", "3.0.0"]);
}

#[test]
fn sort_of_nothing_and_of_one() {
    assert!(sort_releases(Vec::new()).is_empty());
    assert_eq!(versions(&sort_releases(vec![labelled("1.0.0")])), vec!["1.0.0"]);
}

#[test]
fn version_is_no_sort_key() {
    let sorted =
        sort_releases(vec![release("9.0.0", 2020, 1, 1), release("1.0.0", 2021, 1, 1)]);
    assert_eq!(versions(&sorted), vec!["1.0.0", "9.0.0"]);
}

#[test]
fn add_release_keeps_the_order_whatever_the_order_of_adding() {
    let mut changelog = Changelog::new();
    changelog.add_release(release("0.2.0", 2024, 5, 18));
    changelog.add_release(Release::new());
    changelog.add_release(release("0.3.0", 2024, 5, 20));
    changelog.add_release(release("0.1.0", 2024, 4, 28));
    assert_eq!(
        versions(changelog.releases()),
        vec!["unreleased ", "0.3.0", "0.2.0", "0.1.0"]
    );
    assert_eq!(changelog.releases().len(), 4);
}

#[test]
fn add_release_puts_the_new_one_before_its_equals() {
    let mut changelog = Changelog::new();
    changelog.add_release(release("1.0.0", 2024, 1, 1));
    changelog.add_release(release("1.0.1", 2024, 1, 1));
    assert_eq!(versions(changelog.releases()), vec!["1.0.1", "1.0.0"]);
    changelog.add_release(described("old"));
    changelog.add_release(described("new"));
    assert_eq!(
        versions(changelog.releases()),
        vec!["unreleased new", "1.0.1", "1.0.0", "unreleased old"]
    );
}

#[test]
fn builder_releases_sorts() {
    let mut builder = ChangelogBuilder::new();
    builder.releases(vec![release("0.1.0", 2024, 4, 28), Release::new(), release("0.2.0", 2024, 5, 1)]);
    let changelog = builder.build().unwrap();
    assert_eq!(versions(changelog.releases()), vec!["unreleased ", "0.2.0", "0.1.0"]);
}

#[test]
fn releases_mut_hands_out_the_list() {
    let mut changelog = Changelog::new();
    changelog.releases_mut().push(release("0.1.0", 2024, 4, 28));
    changelog.releases_mut().push(release("0.2.0", 2024, 5, 1));
    assert_eq!(versions(changelog.releases()), vec!["0.1.0", "0.2.0"]);
    changelog.sort_releases();
    assert_eq!(versions(changelog.releases()), vec!["0.2.0", "0.1.0"]);
}

#[test]
fn find_release_by_version() {
    let mut changelog = Changelog::new();
    changelog.add_release(release("0.1.0", 2024, 4, 28));
    changelog.add_release(release("0.2.0", 2024, 5, 1));
    let found = changelog.find_release("0.1.0".to_string()).unwrap().unwrap();
    assert_eq!(found.date(), &Some(Date { year: 2024, month: 4, day: 28 }));
    assert!(changelog.find_release("0.3.0".to_string()).unwrap().is_none());
    let error = changelog.find_release("latest".to_string()).unwrap_err();
    assert_eq!(error, Error::InvalidVersion { text: "latest".to_string() });
    assert_eq!(error.message(), "Failed to parse version: latest during finding release");
}

#[test]
fn find_release_mut_changes_the_release_in_place() {
    let mut changelog = Changelog::new();
    changelog.add_release(release("0.1.0", 2024, 4, 28));
    changelog.add_release(release("0.2.0", 2024, 5, 1));
    changelog.find_release_mut("0.1.0".to_string()).unwrap().unwrap().added("late".to_string());
    assert_eq!(changelog.releases()[1].changes().added, vec!["late".to_string()]);
    assert!(changelog.releases()[0].changes().is_empty());
    assert!(changelog.find_release_mut("7.0.0".to_string()).unwrap().is_none());
    assert!(changelog.find_release_mut("x".to_string()).is_err());
}

#[test]
fn get_unreleased_finds_the_first_without_version_and_date() {
    let mut changelog = Changelog::new();
    assert!(changelog.get_unreleased().is_none());
    assert!(changelog.get_unreleased_mut().is_none());
    changelog.add_release(release("0.1.0", 2024, 4, 28));
    changelog.add_release(labelled("0.2.0"));
    assert!(changelog.get_unreleased().is_none());
    changelog.add_release(described("next"));
    assert_eq!(changelog.get_unreleased().unwrap().description(), &Some("next".to_string()));
    changelog.get_unreleased_mut().unwrap().fixed("a bug".to_string());
    assert_eq!(changelog.releases()[0].changes().fixed, vec!["a bug".to_string()]);
}

#[test]
fn release_changes_by_kind() {
    let mut r = Release::new();
    r.added("a".to_string())
        .changed("c".to_string())
        .deprecated("d".to_string())
        .removed("r".to_string())
        .fixed("f".to_string())
        .security("s".to_string());
    assert_eq!(r.changes().added, vec!["a".to_string()]);
    assert_eq!(r.changes().changed, vec!["c".to_string()]);
    assert_eq!(r.changes().deprecated, vec!["d".to_string()]);
    assert_eq!(r.changes().removed, vec!["r".to_string()]);
    assert_eq!(r.changes().fixed, vec!["f".to_string()]);
    assert_eq!(r.changes().security, vec!["s".to_string()]);
    r.empty_changes();
    assert!(r.changes().is_empty());
}

#[test]
fn builder_add_change_reads_the_kind_from_the_heading() {
    let mut builder = Release::builder();
    let heading = Token::new(3, TokenKind::H3, vec!["Fixed".to_string()]);
    let change = Token::new(4, TokenKind::Li, vec!["one".to_string(), "two".to_string()]);
    assert!(builder.add_change(heading, change.clone()).is_ok());
    let wrong = Token::new(7, TokenKind::H3, vec!["Broken".to_string()]);
    let error = builder.add_change(wrong, change).err().unwrap();
    assert_eq!(error, Error::ChangeKind { line: 7, content: "broken".to_string() });
    let release = builder.build().unwrap();
    assert_eq!(release.changes().fixed, vec!["one\ntwo".to_string()]);
}

fn repository(url: &str, tag_prefix: Option<&str>, head: &str) -> Changelog {
    let mut builder = ChangelogBuilder::new();
    builder
        .url(Some(url.to_string()))
        .tag_prefix(tag_prefix.map(|s| s.to_string()))
        .head(head.to_string());
    builder.build().unwrap()
}

#[test]
fn oldest_release_links_to_its_tag() {
    let mut changelog = repository("https://github.com/u/r", Some("v"), "HEAD");
    changelog.add_release(release("0.1.0", 2024, 4, 28));
    let link = changelog.releases()[0].compare_link(&changelog).unwrap().unwrap();
    assert_eq!(link.anchor(), "0.1.0");
    assert_eq!(link.url(), "https://github.com/u/r/releases/tag/v0.1.0");
}

#[test]
fn compare_links_of_a_changelog() {
    let mut changelog = repository("https://github.com/u/r", Some("v"), "main");
    changelog.add_release(release("0.1.0", 2024, 4, 28));
    changelog.add_release(labelled("0.3.0"));
    changelog.add_release(release("0.2.0", 2024, 5, 18));
    changelog.add_release(Release::new());
    let links: Vec<Option<Link>> =
        changelog.releases().iter().map(|r| r.compare_link(&changelog).unwrap()).collect();
    assert_eq!(
        links,
        vec![
            Some(Link::new("Unreleased", "https://github.com/u/r/compare/v0.2.0...main").unwrap()),
            Some(Link::new("0.2.0", "https://github.com/u/r/compare/v0.1.0...v0.2.0").unwrap()),
            Some(Link::new("0.1.0", "https://github.com/u/r/releases/tag/v0.1.0").unwrap()),
            // a release without date that has none before it gets no link
            None,
        ]
    );
}

#[test]
fn undated_releases_are_skipped_when_looking_back() {
    let mut changelog = repository("https://github.com/u/r", None, "HEAD");
    changelog.releases_mut().push(release("0.3.0", 2024, 6, 1));
    changelog.releases_mut().push(labelled("0.2.5"));
    changelog.releases_mut().push(Release::new());
    changelog.releases_mut().push(release("0.2.0", 2024, 5, 1));
    let link = changelog.releases()[0].compare_link(&changelog).unwrap().unwrap();
    assert_eq!(link.url(), "https://github.com/u/r/compare/0.2.0...0.3.0");
    let link = changelog.releases()[1].compare_link(&changelog).unwrap().unwrap();
    assert_eq!(link, Link::new("Unreleased", "https://github.com/u/r/compare/0.2.0...HEAD").unwrap());
}

#[test]
fn gitlab_has_its_own_paths() {
    let mut changelog = repository("https://gitlab.com/u/r", None, "HEAD");
    changelog.add_release(release("0.1.0", 2024, 4, 28));
    changelog.add_release(release("0.2.0", 2024, 5, 18));
    let newer = changelog.releases()[0].compare_link(&changelog).unwrap().unwrap();
    assert_eq!(newer.url(), "https://gitlab.com/u/r/-/compare/0.1.0...0.2.0");
    let older = changelog.releases()[1].compare_link(&changelog).unwrap().unwrap();
    assert_eq!(older.url(), "https://gitlab.com/u/r/-/tags/0.1.0");
}

#[test]
fn lonely_unreleased_section_has_no_link() {
    let mut changelog = Changelog::new();
    changelog.add_release(Release::new());
    assert_eq!(changelog.releases()[0].compare_link(&changelog), Ok(None));
    let mut labelled_only = repository("https://github.com/u/r", None, "HEAD");
    labelled_only.add_release(labelled("1.0.0"));
    assert_eq!(labelled_only.releases()[0].compare_link(&labelled_only), Ok(None));
}

#[test]
fn compare_link_needs_a_repository() {
    let mut changelog = Changelog::new();
    changelog.add_release(release("0.1.0", 2024, 4, 28));
    assert_eq!(
        changelog.releases()[0].compare_link(&changelog),
        Err(Error::MissingRepositoryUrl)
    );
    assert_eq!(changelog.file_contents(), Err(Error::MissingRepositoryUrl));
    assert_eq!(Error::MissingRepositoryUrl.message(), "Missing repo URL");
}

#[test]
fn compare_link_needs_the_versions() {
    let mut changelog = repository("https://github.com/u/r", None, "HEAD");
    let mut dated = Release::new();
    dated.set_date(Date { year: 2024, month: 1, day: 1 });
    changelog.add_release(dated.clone());
    assert_eq!(changelog.releases()[0].compare_link(&changelog), Ok(None));
    changelog.add_release(release("1.0.0", 2024, 2, 1));
    assert_eq!(changelog.releases()[0].compare_link(&changelog), Err(Error::MissingVersion));
    assert_eq!(Error::MissingVersion.message(), "Missing version for release");
    assert_eq!(changelog.compare_link(&dated, None), Err(Error::MissingVersion));
}

#[test]
fn compare_link_of_a_stranger() {
    let changelog = repository("https://github.com/u/r", None, "HEAD");
    assert_eq!(
        release("1.0.0", 2024, 2, 1).compare_link(&changelog),
        Err(Error::ReleaseNotFound)
    );
    assert_eq!(Error::ReleaseNotFound.message(), "Release not found");
}

#[test]
fn tag_name_puts_the_prefix_first() {
    let changelog = repository("u", Some("release-"), "HEAD");
    assert_eq!(changelog.tag_name("1.0.0".to_string()), "release-1.0.0");
    assert_eq!(Changelog::new().tag_name("1.0.0".to_string()), "1.0.0");
}
