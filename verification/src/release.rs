//! Releases: a version, a date and the changes that came with them.

use vstd::prelude::*;
use crate::changelog::{
    compare_link_spec, first_dated, link_option_view, position_from, Changelog,
};
use crate::changes::{changes_text, kind_of, ChangeKind, Changes, ChangesView};
use crate::consts::DATE_FORMAT;
use crate::date::{chrono_format, Date};
use crate::error::{Error, ErrorView};
use crate::link::Link;
use crate::text::{
    copy_opt_text, join, join_spec, lowercase, opt_text, same_opt_text, str_lowercase,
};
use crate::token::Token;
use crate::version::{version_text, Version, VersionView};

verus! {

/// One release of a changelog. A release with neither version nor date is
/// the section of what is not released yet.
#[derive(Clone, Debug, PartialEq, Eq)]
pub struct Release {
    pub version: Option<Version>,
    pub yanked: bool,
    pub description: Option<String>,
    pub date: Option<Date>,
    pub changes: Changes,
}

/// What a release holds.
#[verifier::ext_equal]
pub struct ReleaseView {
    pub version: Option<VersionView>,
    pub yanked: bool,
    pub description: Option<Seq<char>>,
    pub date: Option<Date>,
    pub changes: ChangesView,
}

/// What an optional version holds.
pub open spec fn opt_version(v: Option<Version>) -> Option<VersionView> {
    match v {
        Some(v) => Some(v@),
        None => None,
    }
}

impl View for Release {
    type V = ReleaseView;

    open spec fn view(&self) -> ReleaseView {
        ReleaseView {
            version: opt_version(self.version),
            yanked: self.yanked,
            description: opt_text(self.description),
            date: self.date,
            changes: self.changes@,
        }
    }
}

/// What a vector of releases holds.
pub open spec fn release_views(releases: Seq<Release>) -> Seq<ReleaseView> {
    releases.map_values(|r: Release| r@)
}

impl ReleaseView {
    /// Whether this is the section of what is not released yet.
    pub open spec fn is_unreleased(self) -> bool {
        self.version is None && self.date is None
    }

    /// A release without version, date, description or changes.
    pub open spec fn empty() -> ReleaseView {
        ReleaseView {
            version: None,
            yanked: false,
            description: None,
            date: None,
            changes: ChangesView::empty(),
        }
    }
}

/// The heading of a release: `## [version] - date` for a release with a
/// version, whose date must exist, `## [Unreleased]` for one without; then
/// ` [YANKED]` if the release was withdrawn.
pub open spec fn heading_text(r: ReleaseView) -> Result<Seq<char>, ErrorView> {
    let mark = if r.yanked {
        " [YANKED]"@
    } else {
        ""@
    };
    match r.version {
        Some(v) => match r.date {
            Some(d) => match chrono_format(d.year, d.month, d.day, DATE_FORMAT@) {
                Some(day) => Ok("## ["@ + version_text(v) + "] - "@ + day + mark + "\n"@),
                None => Err(ErrorView::InvalidDate),
            },
            None => Err(ErrorView::MissingDate),
        },
        None => Ok("## [Unreleased]"@ + mark + "\n"@),
    }
}

/// What follows the heading of a release: a blank line unless the changelog
/// is compact, the description if there is one, and the changes; a compact
/// release without changes ends with a blank line.
pub open spec fn body_text(r: ReleaseView, compact: bool) -> Seq<char> {
    (if compact {
        ""@
    } else {
        "\n"@
    }) + (match r.description {
        Some(d) => d + "\n"@,
        None => ""@,
    }) + (if !r.changes.is_empty() {
        changes_text(r.changes, compact)
    } else if compact {
        "\n"@
    } else {
        ""@
    })
}

/// A release as it is written in a changelog.
pub open spec fn release_text(r: ReleaseView, compact: bool) -> Result<Seq<char>, ErrorView> {
    match heading_text(r) {
        Ok(heading) => Ok(heading + body_text(r, compact)),
        Err(e) => Err(e),
    }
}

/// Results by what they hold.
pub open spec fn text_result_view(r: Result<String, Error>) -> Result<Seq<char>, ErrorView> {
    match r {
        Ok(s) => Ok(s@),
        Err(e) => Err(e@),
    }
}

impl Release {
    /// A release without version, date, description or changes.
    pub fn new() -> (r: Release)
        ensures
            r@ == ReleaseView::empty(),
    {
        Release {
            version: None,
            yanked: false,
            description: None,
            date: None,
            changes: Changes::new(),
        }
    }

    /// Starts a release.
    pub fn builder() -> (b: ReleaseBuilder)
        ensures
            b.release@ == ReleaseView::empty(),
    {
        ReleaseBuilder { release: Release::new() }
    }

    pub fn version(&self) -> (r: &Option<Version>)
        ensures
            *r == self.version,
    {
        &self.version
    }

    pub fn yanked(&self) -> (r: &bool)
        ensures
            *r == self.yanked,
    {
        &self.yanked
    }

    pub fn description(&self) -> (r: &Option<String>)
        ensures
            *r == self.description,
    {
        &self.description
    }

    pub fn date(&self) -> (r: &Option<Date>)
        ensures
            *r == self.date,
    {
        &self.date
    }

    pub fn changes(&self) -> (r: &Changes)
        ensures
            *r == self.changes,
    {
        &self.changes
    }

    /// Whether this is the section of what is not released yet.
    pub fn is_unreleased(&self) -> (r: bool)
        ensures
            r == self@.is_unreleased(),
    {
        self.version.is_none() && self.date.is_none()
    }

    /// Whether two releases hold the same.
    pub fn same(&self, other: &Release) -> (r: bool)
        ensures
            r == (self@ == other@),
    {
        let versions = match (&self.version, &other.version) {
            (Some(a), Some(b)) => a.same(b),
            (None, None) => true,
            _ => false,
        };
        let dates = match (&self.date, &other.date) {
            (Some(a), Some(b)) => a.year == b.year && a.month == b.month && a.day == b.day,
            (None, None) => true,
            _ => false,
        };
        versions && self.yanked == other.yanked && same_opt_text(
            &self.description,
            &other.description,
        ) && dates && self.changes.same(&other.changes)
    }

    /// A copy of the release.
    pub fn copy(&self) -> (r: Release)
        ensures
            r@ == self@,
    {
        Release {
            version: match &self.version {
                Some(v) => Some(v.copy()),
                None => None,
            },
            yanked: self.yanked,
            description: copy_opt_text(&self.description),
            date: self.date,
            changes: self.changes.copy(),
        }
    }

    /// The heading of the release.
    pub fn render_heading(&self) -> (r: Result<String, Error>)
        ensures
            text_result_view(r) == heading_text(self@),
    {
        let mark = if self.yanked {
            " [YANKED]"
        } else {
            ""
        };
        match &self.version {
            Some(v) => {
                let date = match &self.date {
                    Some(d) => d,
                    None => {
                        return Err(Error::MissingDate);
                    },
                };
                let day = match date.format(DATE_FORMAT) {
                    Some(day) => day,
                    None => {
                        return Err(Error::InvalidDate);
                    },
                };
                let mut out = "## [".to_owned();
                out.append(v.to_text().as_str());
                out.append("] - ");
                out.append(day.as_str());
                out.append(mark);
                out.append("\n");
                Ok(out)
            },
            None => {
                let mut out = "## [Unreleased]".to_owned();
                out.append(mark);
                out.append("\n");
                Ok(out)
            },
        }
    }

    /// What follows the heading of the release.
    pub fn render_body(&self, compact: bool) -> (r: String)
        ensures
            r@ == body_text(self@, compact),
    {
        let mut out = if compact {
            "".to_owned()
        } else {
            "\n".to_owned()
        };
        let description = match &self.description {
            Some(d) => {
                let mut text = d.clone();
                text.append("\n");
                text
            },
            None => "".to_owned(),
        };
        out.append(description.as_str());
        let changes = if !self.changes.is_empty() {
            self.changes.render(compact)
        } else if compact {
            "\n".to_owned()
        } else {
            "".to_owned()
        };
        out.append(changes.as_str());
        out
    }

    /// The release as it is written in a changelog.
    pub fn render(&self, compact: bool) -> (r: Result<String, Error>)
        ensures
            text_result_view(r) == release_text(self@, compact),
    {
        match self.render_heading() {
            Ok(heading) => {
                let mut out = heading;
                out.append(self.render_body(compact).as_str());
                Ok(out)
            },
            Err(e) => Err(e),
        }
    }

    pub fn set_version(&mut self, value: Version) -> (r: &mut Self)
        ensures
            r@ == (ReleaseView { version: Some(value@), ..old(self)@ }),
            *final(self) == *final(r),
    {
        self.version = Some(value);
        self
    }

    pub fn set_yanked(&mut self, value: bool) -> (r: &mut Self)
        ensures
            r@ == (ReleaseView { yanked: value, ..old(self)@ }),
            *final(self) == *final(r),
    {
        self.yanked = value;
        self
    }

    pub fn set_description(&mut self, value: String) -> (r: &mut Self)
        ensures
            r@ == (ReleaseView { description: Some(value@), ..old(self)@ }),
            *final(self) == *final(r),
    {
        self.description = Some(value);
        self
    }

    pub fn set_date(&mut self, value: Date) -> (r: &mut Self)
        ensures
            r@ == (ReleaseView { date: Some(value), ..old(self)@ }),
            *final(self) == *final(r),
    {
        self.date = Some(value);
        self
    }

    pub fn set_changes(&mut self, value: Changes) -> (r: &mut Self)
        ensures
            r@ == (ReleaseView { changes: value@, ..old(self)@ }),
            *final(self) == *final(r),
    {
        self.changes = value;
        self
    }

    /// The compare link of this release within `changelog`.
    pub fn compare_link(&self, changelog: &Changelog) -> (r: Result<Option<Link>, Error>)
        ensures
            link_option_view(r) == compare_link_spec(changelog@, self@),
    {
        let releases = &changelog.releases;
        let ghost views = release_views(releases@);
        let mut at: usize = 0;
        while at < releases.len() && !releases[at].same(self)
            invariant
                at <= releases.len(),
                views == release_views(releases@),
                position_from(views, self@, 0) == position_from(views, self@, at as int),
            decreases releases.len() - at,
        {
            at += 1;
        }
        if at >= releases.len() {
            return Err(Error::ReleaseNotFound);
        }
        let mut p: usize = at + 1;
        while p < releases.len() && releases[p].date.is_none()
            invariant
                at < p <= releases.len(),
                views == release_views(releases@),
                first_dated(views, at + 1) == first_dated(views, p as int),
            decreases releases.len() - p,
        {
            p += 1;
        }
        if p >= releases.len() {
            if self.date.is_none() || self.version.is_none() {
                return Ok(None);
            }
            changelog.compare_link(self, None)
        } else {
            changelog.compare_link(self, Some(&releases[p]))
        }
    }

    /// Removes all changes.
    pub fn empty_changes(&mut self) -> (r: &mut Self)
        ensures
            r@ == (ReleaseView { changes: ChangesView::empty(), ..old(self)@ }),
            *final(self) == *final(r),
    {
        self.changes = Changes::new();
        self
    }

    /// Adds an entry of the kind "Added".
    pub fn added(&mut self, change: String) -> (r: &mut Self)
        ensures
            r@ == (ReleaseView {
                changes: old(self)@.changes.with(ChangeKind::Added, change@),
                ..old(self)@
            }),
            *final(self) == *final(r),
    {
        self.changes.add(ChangeKind::Added, change);
        self
    }

    /// Adds an entry of the kind "Changed".
    pub fn changed(&mut self, change: String) -> (r: &mut Self)
        ensures
            r@ == (ReleaseView {
                changes: old(self)@.changes.with(ChangeKind::Changed, change@),
                ..old(self)@
            }),
            *final(self) == *final(r),
    {
        self.changes.add(ChangeKind::Changed, change);
        self
    }

    /// Adds an entry of the kind "Deprecated".
    pub fn deprecated(&mut self, change: String) -> (r: &mut Self)
        ensures
            r@ == (ReleaseView {
                changes: old(self)@.changes.with(ChangeKind::Deprecated, change@),
                ..old(self)@
            }),
            *final(self) == *final(r),
    {
        self.changes.add(ChangeKind::Deprecated, change);
        self
    }

    /// Adds an entry of the kind "Removed".
    pub fn removed(&mut self, change: String) -> (r: &mut Self)
        ensures
            r@ == (ReleaseView {
                changes: old(self)@.changes.with(ChangeKind::Removed, change@),
                ..old(self)@
            }),
            *final(self) == *final(r),
    {
        self.changes.add(ChangeKind::Removed, change);
        self
    }

    /// Adds an entry of the kind "Fixed".
    pub fn fixed(&mut self, change: String) -> (r: &mut Self)
        ensures
            r@ == (ReleaseView {
                changes: old(self)@.changes.with(ChangeKind::Fixed, change@),
                ..old(self)@
            }),
            *final(self) == *final(r),
    {
        self.changes.add(ChangeKind::Fixed, change);
        self
    }

    /// Adds an entry of the kind "Security".
    pub fn security(&mut self, change: String) -> (r: &mut Self)
        ensures
            r@ == (ReleaseView {
                changes: old(self)@.changes.with(ChangeKind::Security, change@),
                ..old(self)@
            }),
            *final(self) == *final(r),
    {
        self.changes.add(ChangeKind::Security, change);
        self
    }
}

/// A release in the making.
#[derive(Clone, Debug)]
pub struct ReleaseBuilder {
    pub release: Release,
}

/// The name of a kind of change as a heading's token gives it.
pub open spec fn kind_text(content: Seq<Seq<char>>) -> Seq<char> {
    str_lowercase(join_spec(content, "\n"@))
}

impl Default for ReleaseBuilder {
    fn default() -> (b: ReleaseBuilder)
        ensures
            b.release@ == ReleaseView::empty(),
    {
        Release::builder()
    }
}

impl ReleaseBuilder {
    /// Adds the change of the token `change_token` under the kind that the
    /// heading `kind_token` names. A heading that names no kind is an
    /// error, and nothing is added.
    pub fn add_change(&mut self, kind_token: Token, change_token: Token) -> (r: Result<
        &mut Self,
        Error,
    >)
        ensures
            match r {
                Ok(b) => kind_of(kind_text(kind_token@.content)) matches Some(kind) && b.release@
                    == (ReleaseView {
                    changes: old(self).release@.changes.with(
                        kind,
                        join_spec(change_token@.content, "\n"@),
                    ),
                    ..old(self).release@
                }) && *final(self) == *final(b),
                Err(e) => kind_of(kind_text(kind_token@.content)) is None && e@
                    == (ErrorView::ChangeKind {
                    line: kind_token@.line,
                    content: kind_text(kind_token@.content),
                }) && *final(self) == *old(self),
            },
    {
        let name = lowercase(join(&kind_token.content, "\n").as_str());
        match ChangeKind::from_str(name.as_str()) {
            Some(kind) => {
                self.release.changes.add(kind, join(&change_token.content, "\n"));
                Ok(self)
            },
            None => Err(Error::ChangeKind { line: kind_token.line, content: name }),
        }
    }

    pub fn version(&mut self, value: Version) -> (r: &mut Self)
        ensures
            r.release@ == (ReleaseView { version: Some(value@), ..old(self).release@ }),
            *final(self) == *final(r),
    {
        self.release.version = Some(value);
        self
    }

    pub fn yanked(&mut self, value: bool) -> (r: &mut Self)
        ensures
            r.release@ == (ReleaseView { yanked: value, ..old(self).release@ }),
            *final(self) == *final(r),
    {
        self.release.yanked = value;
        self
    }

    pub fn description(&mut self, value: Option<String>) -> (r: &mut Self)
        ensures
            r.release@ == (ReleaseView { description: opt_text(value), ..old(self).release@ }),
            *final(self) == *final(r),
    {
        self.release.description = value;
        self
    }

    pub fn date(&mut self, value: Date) -> (r: &mut Self)
        ensures
            r.release@ == (ReleaseView { date: Some(value), ..old(self).release@ }),
            *final(self) == *final(r),
    {
        self.release.date = Some(value);
        self
    }

    pub fn changes(&mut self, value: Changes) -> (r: &mut Self)
        ensures
            r.release@ == (ReleaseView { changes: value@, ..old(self).release@ }),
            *final(self) == *final(r),
    {
        self.release.changes = value;
        self
    }

    /// The release that was built.
    pub fn build(&self) -> (r: Result<Release, Error>)
        ensures
            r matches Ok(release) && release@ == self.release@,
    {
        Ok(self.release.copy())
    }
}

} // verus!
