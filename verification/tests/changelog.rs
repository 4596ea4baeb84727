use keep_a_changelog::{
    Changelog, ChangelogBuilder, ChangelogParseOptions, Changes, ReleaseBuilder,
};

#[test]
fn test_add_link() {
    // Create a new ChangelogBuilder instance
    let builder = ChangelogBuilder::default();
    let mut changelog = builder.build().unwrap();

    // Add a link to the builder
    changelog.add_link("[anchor]:", "https://example.com");

    // Assert that the link was added correctly
    assert_eq!(changelog.links().len(), 1);
    assert_eq!(changelog.links().first().unwrap().anchor(), "anchor");
    assert_eq!(
        changelog.links().first().unwrap().url(),
        "https://example.com"
    );
}

#[test]
fn add_link_ignores_what_makes_no_link() {
    let mut changelog = Changelog::new();
    changelog.add_link("", "https://example.com");
    changelog.add_link("anchor", "");
    assert_eq!(changelog.links().len(), 0);
}

#[test]
fn defaults_are_empty() {
    assert!(Changes::default().is_empty());
    let options = ChangelogParseOptions::default();
    assert_eq!(options.url, None);
    assert_eq!(options.tag_prefix, None);
    assert_eq!(options.head, None);
    let release = ReleaseBuilder::default().build().unwrap();
    assert_eq!(release.version(), &None);
    assert_eq!(release.date(), &None);
    assert_eq!(release.description(), &None);
    assert!(!*release.yanked());
    assert!(release.changes().is_empty());
}
