//! The fixed texts of the changelog dialect.

use vstd::prelude::*;

verus! {

pub const CHANGELOG_TITLE: &'static str = "Changelog";

pub const CHANGELOG_DESCRIPTION: &'static str =
    "All notable changes to this project will be documented in this file.\n\nThe format is based on [Keep a Changelog](https://keepachangelog.com/en/1.0.0/)\nand this project adheres to [Semantic Versioning](https://semver.org/spec/v2.0.0.html).";

pub const PREFIX_HR: &'static str = "---";

pub const PREFIX_H1: &'static str = "# ";

pub const PREFIX_H2: &'static str = "## ";

pub const PREFIX_H3: &'static str = "### ";

pub const PREFIX_LI: &'static str = "-";

pub const PREFIX_LI2: &'static str = "*";

/// How a release's date is written.
pub const DATE_FORMAT: &'static str = "%Y-%m-%d";

/// A link reference definition on one line: `[anchor]: http...`.
pub const LINK_PATTERN: &'static str = r"^\[.*\]\:\s*http.*$";

/// The first line of a link reference definition on two lines: `[anchor]:`.
pub const LINK_REF_PATTERN: &'static str = r"^\[.*\]\:$";

/// The second line of a link reference definition on two lines.
pub const LINK_URL_PATTERN: &'static str = r"\s+http.*$";

/// An HTML comment that fills its line.
pub const COMMENT_PATTERN: &'static str = r"^<!--(.*)-->$";

/// An anchor that names a version, and so a link between releases.
pub const TAG_PATTERN: &'static str = r"\d+\.\d+\.\d+((-rc|-x)\.\d+)?";

/// The indentation of a list item's continuation line.
pub const INDENT_PATTERN: &'static str = r"^\s\s";

/// The heading of a dated release, in lower case: a label, a dash, a date,
/// and perhaps the mark of a withdrawn release.
pub const RELEASE_PATTERN: &'static str =
    r"\[?([^\]]+)\]?\s*-\s*([\d]{4}-[\d]{1,2}-[\d]{1,2})(\s+\[yanked\])?$";

/// The heading of an unreleased section that carries a label, in lower
/// case.
pub const UNRELEASED_PATTERN: &'static str = r"\[?([^\]]+)\]?\s*-\s*unreleased(\s+\[yanked\])?$";

/// A link that compares two references; its first group is the URL of the
/// repository.
pub const COMPARE_LINK_PATTERN: &'static str = r"^\[.*\]\:\s*(http.*?)\/(?:-\/)?compare\/.*$";

/// A lint directive; its first group is the list of rule codes.
pub const LINT_PATTERN: &'static str = r"markdownlint-disable(?P<lints>( MD\d{3})+)";

} // verus!
