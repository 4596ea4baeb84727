use keep_a_changelog::text::{
    collapse, contains, decimal, join, less_text, skip_chars, split, starts_with, strip_chars,
    to_chars, to_file_text, trim, trim_end,
};
use keep_a_changelog::token::{is_empty_str, is_empty_str_vec, substring, trim_blank_lines};
use keep_a_changelog::changelog::{get_compare_url, get_release_url};
use keep_a_changelog::{Date, Error, Version};

fn strings(items: &[&str]) -> Vec<String> {
    items.iter().map(|s| s.to_string()).collect()
}

#[test]
fn version_is_read_by_its_parts() {
    let v = Version::parse("1.2.3-rc.1+build.5").unwrap();
    assert_eq!(
        v,
        Version { major: 1, minor: 2, patch: 3, pre: "rc.1".to_string(), build: "build.5".to_string() }
    );
    assert_eq!(v.to_text(), "1.2.3-rc.1+build.5");
    let plain = Version::parse("10.0.200").unwrap();
    assert_eq!(
        plain,
        Version { major: 10, minor: 0, patch: 200, pre: String::new(), build: String::new() }
    );
    assert_eq!(plain.to_text(), "10.0.200");
    assert!(plain.same(&plain.copy()));
    assert!(!plain.same(&v));
}

#[test]
fn version_text_with_one_of_the_tags() {
    let pre = Version { major: 0, minor: 0, patch: 0, pre: "alpha".to_string(), build: String::new() };
    assert_eq!(pre.to_text(), "0.0.0-alpha");
    let build = Version {
        major: 18446744073709551615,
        minor: 9,
        patch: 10,
        pre: String::new(),
        build: "x".to_string(),
    };
    assert_eq!(build.to_text(), "18446744073709551615.9.10+x");
}

#[test]
fn what_is_no_version() {
    assert_eq!(Version::parse(""), None);
    assert_eq!(Version::parse("1.0"), None);
    assert_eq!(Version::parse("1.0.01"), None);
    assert_eq!(Version::parse(" 1.0.0"), None);
    assert_eq!(Version::parse("v1.0.0"), None);
    assert_eq!(Version::parse("1.0.0-"), None);
}

#[test]
fn date_is_read_and_written() {
    let d = Date::parse("2024-04-28", "%Y-%m-%d").unwrap();
    assert_eq!(d, Date { year: 2024, month: 4, day: 28 });
    assert_eq!(d.format("%Y-%m-%d"), Some("2024-04-28".to_string()));
    assert_eq!(Date::parse("2024-1-2", "%Y-%m-%d"), Some(Date { year: 2024, month: 1, day: 2 }));
    assert_eq!(Date { year: 987, month: 1, day: 2 }.format("%Y-%m-%d"), Some("0987-01-02".to_string()));
    assert_eq!(Date { year: 2024, month: 1, day: 2 }.format("%d.%m.%Y"), Some("02.01.2024".to_string()));
}

#[test]
fn what_is_no_date() {
    assert_eq!(Date::parse("2024-02-30", "%Y-%m-%d"), None);
    assert_eq!(Date::parse("2024-13-01", "%Y-%m-%d"), None);
    assert_eq!(Date::parse("yesterday", "%Y-%m-%d"), None);
    assert_eq!(Date::parse("2024-04-28 ", "%Y-%m-%d"), None);
    assert_eq!(Date { year: 2023, month: 2, day: 29 }.format("%Y-%m-%d"), None);
    assert_eq!(Date { year: 2024, month: 0, day: 1 }.format("%Y-%m-%d"), None);
    assert_eq!(Date { year: 2024, month: 1, day: 1 }.format("%Q"), None);
}

#[test]
fn dates_in_calendar_order() {
    let a = Date { year: 2024, month: 4, day: 28 };
    assert!(a.before(&Date { year: 2024, month: 4, day: 29 }));
    assert!(a.before(&Date { year: 2024, month: 5, day: 1 }));
    assert!(a.before(&Date { year: 2025, month: 1, day: 1 }));
    assert!(!a.before(&a));
    assert!(!a.before(&Date { year: 2024, month: 3, day: 31 }));
    assert!(!a.before(&Date { year: 2023, month: 12, day: 31 }));
    assert!(Date { year: -1, month: 12, day: 31 }.before(&Date { year: 0, month: 1, day: 1 }));
}

#[test]
fn trim_takes_whitespace_off_the_ends() {
    assert_eq!(trim("  a b \t\n"), "a b");
    assert_eq!(trim("\u{a0}x\u{3000}"), "x");
    assert_eq!(trim(" \n "), "");
    assert_eq!(trim(""), "");
    assert_eq!(trim_end("  a b \t\n"), "  a b");
    assert_eq!(trim_end("   "), "");
}

#[test]
fn split_and_join_are_each_other_s_inverse() {
    assert_eq!(split("a\nb\n\nc", '\n'), strings(&["a", "b", "", "c"]));
    assert_eq!(split("", '\n'), strings(&[""]));
    assert_eq!(split("\n", '\n'), strings(&["", ""]));
    assert_eq!(split("a b", ' '), strings(&["a", "b"]));
    assert_eq!(join(&strings(&["a", "b", "", "c"]), "\n"), "a\nb\n\nc");
    assert_eq!(join(&strings(&["a"]), ", "), "a");
    assert_eq!(join(&strings(&[]), ", "), "");
    assert_eq!(join(&strings(&["a", "b"]), ", "), "a, b");
}

#[test]
fn searching_in_text() {
    assert!(starts_with("## two", "## "));
    assert!(!starts_with("## two", "# "));
    assert!(!starts_with("#", "# "));
    assert!(starts_with("anything", ""));
    assert!(contains("https://gitlab.com/a", "gitlab"));
    assert!(!contains("https://github.com/a", "gitlab"));
    assert!(contains("abc", ""));
    assert!(contains("abc", "abc"));
    assert!(!contains("ab", "abc"));
    assert!(contains("aab", "ab"));
}

#[test]
fn cutting_text() {
    assert_eq!(skip_chars("héllo", 2), "llo");
    assert_eq!(skip_chars("ab", 2), "");
    assert_eq!(skip_chars("ab", 3), "");
    assert_eq!(strip_chars("[an:chor]:", "[]:"), "anchor");
    assert_eq!(strip_chars("[an:chor]:", "[]"), "an:chor:");
    assert_eq!(strip_chars("plain", ""), "plain");
    assert_eq!(to_chars("añ"), vec!['a', 'ñ']);
    assert_eq!(substring("#  Title  ", 1), "Title");
    assert_eq!(substring("- item", 1), "item");
    assert_eq!(substring("ab", 2), "");
    assert_eq!(substring("ab", 5), "");
}

#[test]
fn blank_lines() {
    assert!(is_empty_str(""));
    assert!(is_empty_str(" \t "));
    assert!(!is_empty_str(" . "));
    assert!(is_empty_str_vec(&strings(&["", "  "])));
    assert!(is_empty_str_vec(&strings(&[])));
    assert!(!is_empty_str_vec(&strings(&["", "x"])));
    assert_eq!(trim_blank_lines(&strings(&["", " ", "a", "", "b", "  ", ""])), strings(&["a", "", "b"]));
    assert_eq!(trim_blank_lines(&strings(&["", " "])), strings(&[]));
    assert_eq!(trim_blank_lines(&strings(&["a"])), strings(&["a"]));
}

#[test]
fn order_of_dictionaries() {
    assert!(less_text("MD022", "MD032"));
    assert!(!less_text("MD032", "MD022"));
    assert!(!less_text("MD022", "MD022"));
    assert!(less_text("MD02", "MD022"));
    assert!(!less_text("MD022", "MD02"));
    assert!(less_text("", "a"));
    assert!(!less_text("", ""));
    assert!(less_text("B", "a"));
    assert!(less_text("z", "é"));
}

#[test]
fn no_two_blank_lines_in_a_row() {
    assert_eq!(collapse("a\n\n\nb"), "a\n\nb");
    assert_eq!(collapse("a\n\n\n\n\n\nb\n\n\n"), "a\n\nb\n\n");
    assert_eq!(collapse("a\n\nb\nc"), "a\n\nb\nc");
    assert_eq!(collapse("\n\n\n"), "\n\n");
    assert_eq!(collapse(""), "");
    assert_eq!(to_file_text("a\n\n\n\nb  \n\n \n"), "a\n\nb\n");
    assert_eq!(to_file_text(""), "\n");
    assert_eq!(to_file_text("a"), "a\n");
}

#[test]
fn numbers_in_decimal() {
    assert_eq!(decimal(0), "0");
    assert_eq!(decimal(7), "7");
    assert_eq!(decimal(10), "10");
    assert_eq!(decimal(1234567890), "1234567890");
    assert_eq!(decimal(u64::MAX), "18446744073709551615");
}

#[test]
fn urls_of_a_repository() {
    assert_eq!(get_release_url("https://h/u/r", "v1"), "https://h/u/r/releases/tag/v1");
    assert_eq!(get_release_url("https://gitlab.h/u/r", "v1"), "https://gitlab.h/u/r/-/tags/v1");
    assert_eq!(get_compare_url("https://h/u/r", "a", "b"), "https://h/u/r/compare/a...b");
    assert_eq!(
        get_compare_url("https://gitlab.h/u/r", "a", "b"),
        "https://gitlab.h/u/r/-/compare/a...b"
    );
}

#[test]
fn messages_of_the_remaining_errors() {
    assert_eq!(
        Error::Pattern.message(),
        "A pattern of the changelog grammar was refused by the regex engine"
    );
    assert_eq!(
        Error::MissingAnchor { text: "x".to_string() }.message(),
        "Missing anchor: x"
    );
}
