//! The changelog: its head matter, its releases in order, its links, and
//! the links between releases that are derived from them.

use vstd::prelude::*;
use crate::error::{Error, ErrorView};
use crate::link::{link_views, new_link_spec, parse_link_spec, Link, LinkView};
use crate::order::first_unreleased;
use crate::release::{release_views, Release, ReleaseView};
use crate::order::{
    lemma_new_dateless_on_top, lemma_sorted_releases, sort_releases, sorted_releases, well_ordered,
};
use crate::text::{contains, contains_spec, lemma_texts_push, opt_text, same_text, texts};
use crate::version::{parse_spec, version_text, Version, VersionView};

verus! {

/// A changelog.
#[derive(Clone, Debug)]
pub struct Changelog {
    /// The lint rules that the changelog switches off, as a set: order and
    /// repetition do not count.
    pub lint: Option<Vec<String>>,
    /// The text of the flag comment.
    pub flag: Option<String>,
    /// The title; "Changelog" where there is none.
    pub title: Option<String>,
    /// The description; a standard text where there is none.
    pub description: Option<String>,
    /// The git reference that unreleased changes are compared with.
    pub head: String,
    /// The text below the horizontal rule.
    pub footer: Option<String>,
    /// The URL of the repository, from which links to releases are made.
    pub url: Option<String>,
    /// The releases, newest first.
    pub releases: Vec<Release>,
    /// The links that the changelog defines.
    pub links: Vec<Link>,
    /// What stands before a version in the name of its tag.
    pub tag_prefix: Option<String>,
    /// Whether the changelog is written without blank lines after headings.
    pub compact: bool,
}

/// What a changelog holds.
#[verifier::ext_equal]
pub struct ChangelogView {
    pub lint: Option<Seq<Seq<char>>>,
    pub flag: Option<Seq<char>>,
    pub title: Option<Seq<char>>,
    pub description: Option<Seq<char>>,
    pub head: Seq<char>,
    pub footer: Option<Seq<char>>,
    pub url: Option<Seq<char>>,
    pub releases: Seq<ReleaseView>,
    pub links: Seq<LinkView>,
    pub tag_prefix: Option<Seq<char>>,
    pub compact: bool,
}

/// The texts that an optional vector of strings holds.
pub open spec fn opt_texts(v: Option<Vec<String>>) -> Option<Seq<Seq<char>>> {
    match v {
        Some(v) => Some(texts(v@)),
        None => None,
    }
}

impl ChangelogView {
    /// Whether no lint rule is switched off twice.
    pub open spec fn lint_unique(self) -> bool {
        unique_codes(self.lint)
    }

    /// Whether the releases stand in the order of a changelog and no lint
    /// rule is switched off twice. Every changelog that this library reads
    /// or makes from nothing is well formed, and stays so unless its
    /// releases or its lint rules are changed in place.
    pub open spec fn well_formed(self) -> bool {
        well_ordered(self.releases) && self.lint_unique()
    }

    /// A changelog with nothing in it, compared with "HEAD".
    pub open spec fn empty() -> ChangelogView {
        ChangelogView {
            lint: None,
            flag: None,
            title: None,
            description: None,
            head: "HEAD"@,
            footer: None,
            url: None,
            releases: Seq::empty(),
            links: Seq::empty(),
            tag_prefix: None,
            compact: false,
        }
    }
}

impl View for Changelog {
    type V = ChangelogView;

    open spec fn view(&self) -> ChangelogView {
        ChangelogView {
            lint: opt_texts(self.lint),
            flag: opt_text(self.flag),
            title: opt_text(self.title),
            description: opt_text(self.description),
            head: self.head@,
            footer: opt_text(self.footer),
            url: opt_text(self.url),
            releases: release_views(self.releases@),
            links: link_views(self.links@),
            tag_prefix: opt_text(self.tag_prefix),
            compact: self.compact,
        }
    }
}

/// The name of a version's tag: the version behind the tag prefix.
pub open spec fn tag_name_spec(tag_prefix: Option<Seq<char>>, version: Seq<char>) -> Seq<char> {
    match tag_prefix {
        Some(prefix) => prefix + version,
        None => version,
    }
}

/// The page of a tag's release in the repository at `url`.
pub open spec fn release_url_spec(url: Seq<char>, tag: Seq<char>) -> Seq<char> {
    if contains_spec(url, "gitlab"@) {
        url + "/-/tags/"@ + tag
    } else {
        url + "/releases/tag/"@ + tag
    }
}

/// The page that compares two references in the repository at `url`.
pub open spec fn compare_url_spec(url: Seq<char>, previous: Seq<char>, current: Seq<char>) -> Seq<
    char,
> {
    if contains_spec(url, "gitlab"@) {
        url + "/-/compare/"@ + previous + "..."@ + current
    } else {
        url + "/compare/"@ + previous + "..."@ + current
    }
}

/// The page of a tag's release in the repository at `url`.
pub fn get_release_url(url: &str, tag: &str) -> (r: String)
    ensures
        r@ == release_url_spec(url@, tag@),
{
    let mut out = url.to_owned();
    if contains(url, "gitlab") {
        out.append("/-/tags/");
    } else {
        out.append("/releases/tag/");
    }
    out.append(tag);
    out
}

/// The page that compares two references in the repository at `url`.
pub fn get_compare_url(url: &str, previous: &str, current: &str) -> (r: String)
    ensures
        r@ == compare_url_spec(url@, previous@, current@),
{
    let mut out = url.to_owned();
    if contains(url, "gitlab") {
        out.append("/-/compare/");
    } else {
        out.append("/compare/");
    }
    out.append(previous);
    out.append("...");
    out.append(current);
    out
}

/// The link of the release `current`, given the nearest dated release
/// `previous` that follows it in the changelog.
///
/// Without a repository URL there is no link to make. A release with
/// nothing before it links to its own tag. A release without date or
/// version is compared from the previous tag to the head reference, under
/// the anchor "Unreleased". Any other release is compared from the previous
/// tag to its own. Every release whose tag is needed must have a version.
pub open spec fn link_between(
    c: ChangelogView,
    current: ReleaseView,
    previous: Option<ReleaseView>,
) -> Result<Option<LinkView>, ErrorView> {
    match c.url {
        None => Err(ErrorView::MissingRepositoryUrl),
        Some(url) => match previous {
            None => match current.version {
                None => Err(ErrorView::MissingVersion),
                Some(v) => Ok(
                    Some(
                        LinkView {
                            anchor: version_text(v),
                            url: release_url_spec(url, tag_name_spec(c.tag_prefix, version_text(v))),
                        },
                    ),
                ),
            },
            Some(before) => if current.date is None || current.version is None {
                match before.version {
                    None => Err(ErrorView::MissingVersion),
                    Some(p) => Ok(
                        Some(
                            LinkView {
                                anchor: "Unreleased"@,
                                url: compare_url_spec(
                                    url,
                                    tag_name_spec(c.tag_prefix, version_text(p)),
                                    c.head,
                                ),
                            },
                        ),
                    ),
                }
            } else {
                match before.version {
                    None => Err(ErrorView::MissingVersion),
                    Some(p) => Ok(
                        Some(
                            LinkView {
                                anchor: version_text(current.version->0),
                                url: compare_url_spec(
                                    url,
                                    tag_name_spec(c.tag_prefix, version_text(p)),
                                    tag_name_spec(c.tag_prefix, version_text(current.version->0)),
                                ),
                            },
                        ),
                    ),
                }
            },
        },
    }
}

/// Index of the first release at or after `k` that holds what `r` holds,
/// or -1.
pub open spec fn position_from(releases: Seq<ReleaseView>, r: ReleaseView, k: int) -> int
    decreases releases.len() - k,
{
    if k < 0 || k >= releases.len() {
        -1
    } else if releases[k] == r {
        k
    } else {
        position_from(releases, r, k + 1)
    }
}

/// Index of the first release at or after `k` that has a date, or -1.
pub open spec fn first_dated(releases: Seq<ReleaseView>, k: int) -> int
    decreases releases.len() - k,
{
    if k < 0 || k >= releases.len() {
        -1
    } else if releases[k].date is Some {
        k
    } else {
        first_dated(releases, k + 1)
    }
}

/// The release before the one at index `at`: the nearest one later in the
/// list that has a date.
pub open spec fn previous_release(releases: Seq<ReleaseView>, at: int) -> Option<ReleaseView> {
    let p = first_dated(releases, at + 1);
    if p < 0 {
        None
    } else {
        Some(releases[p])
    }
}

/// The compare link of the release `r` of the changelog `c`: none for a
/// release without date or version that has no release before it, else the
/// link between it and the release before it.
pub open spec fn compare_link_spec(c: ChangelogView, r: ReleaseView) -> Result<
    Option<LinkView>,
    ErrorView,
> {
    let at = position_from(c.releases, r, 0);
    if at < 0 {
        Err(ErrorView::ReleaseNotFound)
    } else {
        let previous = previous_release(c.releases, at);
        if previous is None && (r.date is None || r.version is None) {
            Ok(None)
        } else {
            link_between(c, r, previous)
        }
    }
}

/// Results by what they hold.
pub open spec fn link_option_view(r: Result<Option<Link>, Error>) -> Result<
    Option<LinkView>,
    ErrorView,
> {
    match r {
        Ok(Some(l)) => Ok(Some(l@)),
        Ok(None) => Ok(None),
        Err(e) => Err(e@),
    }
}

/// What an optional release holds.
pub open spec fn opt_release(r: Option<&Release>) -> Option<ReleaseView> {
    match r {
        Some(r) => Some(r@),
        None => None,
    }
}

/// The codes `codes` and the code `x`: nothing new if `x` is among them.
pub open spec fn with_code(codes: Seq<Seq<char>>, x: Seq<char>) -> Seq<Seq<char>> {
    if codes.contains(x) {
        codes
    } else {
        codes.push(x)
    }
}

/// The codes `codes` without the code `x`.
pub open spec fn without_code(codes: Seq<Seq<char>>, x: Seq<char>) -> Seq<Seq<char>>
    decreases codes.len(),
{
    if codes.len() == 0 {
        codes
    } else if codes.last() == x {
        without_code(codes.drop_last(), x)
    } else {
        without_code(codes.drop_last(), x).push(codes.last())
    }
}

/// A code joins codes that stand each once, and they stand each once.
pub proof fn lemma_with_code(codes: Seq<Seq<char>>, x: Seq<char>)
    requires
        codes.no_duplicates(),
    ensures
        with_code(codes, x).no_duplicates(),
        with_code(codes, x).contains(x),
{
    let r = with_code(codes, x);
    if !codes.contains(x) {
        assert(r[codes.len() as int] == x);
        assert forall|i: int, j: int| 0 <= i < r.len() && 0 <= j < r.len() && i != j implies r[i]
            != r[j] by {
            if i < codes.len() && j < codes.len() {
                assert(codes[i] != codes[j]);
            } else if i < codes.len() {
                assert(codes.contains(codes[i]));
            } else {
                assert(codes.contains(codes[j]));
            }
        }
    }
}

/// Codes without one of them are the other codes in their order: none of
/// them is the code that left, each was there before, and they stand each
/// once where they did before.
pub proof fn lemma_without_code(codes: Seq<Seq<char>>, x: Seq<char>)
    ensures
        !without_code(codes, x).contains(x),
        forall|k: int|
            0 <= k < without_code(codes, x).len() ==> codes.contains(
                #[trigger] without_code(codes, x)[k],
            ),
        forall|k: int|
            0 <= k < codes.len() && codes[k] != x ==> without_code(codes, x).contains(
                #[trigger] codes[k],
            ),
        codes.no_duplicates() ==> without_code(codes, x).no_duplicates(),
    decreases codes.len(),
{
    let r = without_code(codes, x);
    if codes.len() > 0 {
        let front = codes.drop_last();
        let inner = without_code(front, x);
        let last = codes.last();
        lemma_without_code(front, x);
        assert forall|k: int| 0 <= k < r.len() implies codes.contains(#[trigger] r[k]) by {
            if k < inner.len() {
                assert(front.contains(inner[k]));
                let m = choose|m: int| 0 <= m < front.len() && front[m] == inner[k];
                assert(codes[m] == r[k]);
            } else {
                assert(codes[codes.len() - 1] == r[k]);
            }
        }
        assert forall|k: int| 0 <= k < codes.len() && codes[k] != x implies r.contains(
            #[trigger] codes[k],
        ) by {
            if k < front.len() {
                assert(front[k] == codes[k]);
                assert(inner.contains(front[k]));
                let m = choose|m: int| 0 <= m < inner.len() && inner[m] == front[k];
                assert(r[m] == codes[k]);
            } else {
                assert(r[r.len() - 1] == codes[k]);
            }
        }
        if r.contains(x) {
            let k = choose|k: int| 0 <= k < r.len() && r[k] == x;
            if k < inner.len() {
                assert(inner.contains(inner[k]));
            }
        }
        if codes.no_duplicates() {
            assert forall|i: int, j: int| 0 <= i < front.len() && 0 <= j < front.len() && i
                != j implies front[i] != front[j] by {
                assert(codes[i] != codes[j]);
            }
            assert forall|i: int, j: int| 0 <= i < r.len() && 0 <= j < r.len() && i != j implies r[i]
                != r[j] by {
                if i < inner.len() && j < inner.len() {
                    assert(inner[i] != inner[j]);
                } else {
                    let low = if i < j {
                        i
                    } else {
                        j
                    };
                    assert(front.contains(inner[low]));
                    let m = choose|m: int| 0 <= m < front.len() && front[m] == inner[low];
                    assert(codes[m] != codes[codes.len() - 1]);
                }
            }
        }
    }
}

/// The lint rules after `x` is switched off.
pub open spec fn lint_disabled(lint: Option<Seq<Seq<char>>>, x: Seq<char>) -> Option<
    Seq<Seq<char>>,
> {
    match lint {
        Some(codes) => Some(with_code(codes, x)),
        None => Some(seq![x]),
    }
}

/// The lint rules after `x` is switched on again: none where no rule is
/// left switched off.
pub open spec fn lint_enabled(lint: Option<Seq<Seq<char>>>, x: Seq<char>) -> Option<
    Seq<Seq<char>>,
> {
    match lint {
        Some(codes) => if without_code(codes, x).len() == 0 {
            None
        } else {
            Some(without_code(codes, x))
        },
        None => None,
    }
}

/// Whether no code stands twice among the lint rules.
pub open spec fn unique_codes(lint: Option<Seq<Seq<char>>>) -> bool {
    match lint {
        Some(codes) => codes.no_duplicates(),
        None => true,
    }
}

/// Switching a rule off or on leaves every rule switched off once.
pub proof fn lemma_lint_unique(lint: Option<Seq<Seq<char>>>, x: Seq<char>)
    requires
        unique_codes(lint),
    ensures
        unique_codes(lint_disabled(lint, x)),
        unique_codes(lint_enabled(lint, x)),
{
    match lint {
        Some(codes) => {
            lemma_with_code(codes, x);
            lemma_without_code(codes, x);
        },
        None => {
            assert(seq![x].no_duplicates());
        },
    }
}

/// Index of the first release at or after `k` whose version is `v`, or -1.
pub open spec fn version_position(releases: Seq<ReleaseView>, v: VersionView, k: int) -> int
    decreases releases.len() - k,
{
    if k < 0 || k >= releases.len() {
        -1
    } else if releases[k].version == Some(v) {
        k
    } else {
        version_position(releases, v, k + 1)
    }
}

/// Whether `codes` holds the code `x`.
fn holds_code(codes: &Vec<String>, x: &str) -> (r: bool)
    ensures
        r == texts(codes@).contains(x@),
{
    let mut i: usize = 0;
    while i < codes.len()
        invariant
            i <= codes.len(),
            forall|k: int| 0 <= k < i ==> texts(codes@)[k] != x@,
        decreases codes.len() - i,
    {
        if same_text(codes[i].as_str(), x) {
            assert(texts(codes@)[i as int] == x@);
            return true;
        }
        i += 1;
    }
    false
}

/// The codes without the code `x`.
fn remove_code(codes: &Vec<String>, x: &str) -> (out: Vec<String>)
    ensures
        texts(out@) == without_code(texts(codes@), x@),
{
    let mut out: Vec<String> = Vec::new();
    let mut i: usize = 0;
    assert(texts(codes@).take(0) == Seq::<Seq<char>>::empty());
    assert(texts(out@) == Seq::<Seq<char>>::empty());
    while i < codes.len()
        invariant
            i <= codes.len(),
            texts(out@) == without_code(texts(codes@).take(i as int), x@),
        decreases codes.len() - i,
    {
        proof {
            let upto = texts(codes@).take(i + 1);
            assert(upto.drop_last() == texts(codes@).take(i as int));
            assert(upto.last() == codes@[i as int]@);
        }
        if !same_text(codes[i].as_str(), x) {
            let code = codes[i].clone();
            proof {
                lemma_texts_push(out@, code);
            }
            out.push(code);
        }
        i += 1;
    }
    assert(texts(codes@).take(i as int) == texts(codes@));
    out
}

impl Changelog {
    /// A changelog with nothing in it, compared with "HEAD".
    pub fn new() -> (c: Changelog)
        ensures
            c@ == ChangelogView::empty(),
            c@.well_formed(),
    {
        let c = Changelog {
            lint: None,
            flag: None,
            title: None,
            description: None,
            head: "HEAD".to_owned(),
            footer: None,
            url: None,
            releases: Vec::new(),
            links: Vec::new(),
            tag_prefix: None,
            compact: false,
        };
        assert(c@.releases =~= Seq::<ReleaseView>::empty());
        assert(c@.links =~= Seq::<LinkView>::empty());
        c
    }

    pub fn lint(&self) -> (r: &Option<Vec<String>>)
        ensures
            *r == self.lint,
    {
        &self.lint
    }

    pub fn flag(&self) -> (r: &Option<String>)
        ensures
            *r == self.flag,
    {
        &self.flag
    }

    pub fn title(&self) -> (r: &Option<String>)
        ensures
            *r == self.title,
    {
        &self.title
    }

    pub fn description(&self) -> (r: &Option<String>)
        ensures
            *r == self.description,
    {
        &self.description
    }

    pub fn head(&self) -> (r: &String)
        ensures
            *r == self.head,
    {
        &self.head
    }

    pub fn footer(&self) -> (r: &Option<String>)
        ensures
            *r == self.footer,
    {
        &self.footer
    }

    pub fn url(&self) -> (r: &Option<String>)
        ensures
            *r == self.url,
    {
        &self.url
    }

    pub fn releases(&self) -> (r: &Vec<Release>)
        ensures
            *r == self.releases,
    {
        &self.releases
    }

    pub fn links(&self) -> (r: &Vec<Link>)
        ensures
            *r == self.links,
    {
        &self.links
    }

    pub fn tag_prefix(&self) -> (r: &Option<String>)
        ensures
            *r == self.tag_prefix,
    {
        &self.tag_prefix
    }

    pub fn compact(&self) -> (r: &bool)
        ensures
            *r == self.compact,
    {
        &self.compact
    }

    /// The releases, to be changed in place. Whoever changes their dates or
    /// their number answers for their order.
    pub fn releases_mut(&mut self) -> (r: &mut Vec<Release>)
        ensures
            *r == old(self).releases,
            *final(self) == (Changelog { releases: *final(r), ..*old(self) }),
    {
        &mut self.releases
    }

    /// The first release with the version that `version` spells.
    pub fn find_release(&self, version: String) -> (r: Result<Option<&Release>, Error>)
        ensures
            match r {
                Ok(Some(release)) => parse_spec(version@) matches Some(v) && version_position(
                    self@.releases,
                    v,
                    0,
                ) >= 0 && release@ == self@.releases[version_position(self@.releases, v, 0)],
                Ok(None) => parse_spec(version@) matches Some(v) && version_position(
                    self@.releases,
                    v,
                    0,
                ) == -1,
                Err(e) => parse_spec(version@) is None && e@ == (ErrorView::InvalidVersion {
                    text: version@,
                }),
            },
    {
        let wanted = match Version::parse(version.as_str()) {
            Some(v) => v,
            None => {
                return Err(Error::InvalidVersion { text: version });
            },
        };
        let mut i: usize = 0;
        while i < self.releases.len()
            invariant
                i <= self.releases.len(),
                parse_spec(version@) == Some(wanted@),
                version_position(self@.releases, wanted@, 0) == version_position(
                    self@.releases,
                    wanted@,
                    i as int,
                ),
            decreases self.releases.len() - i,
        {
            let hit = match &self.releases[i].version {
                Some(v) => v.same(&wanted),
                None => false,
            };
            assert(hit == (self@.releases[i as int].version == Some(wanted@)));
            if hit {
                return Ok(Some(&self.releases[i]));
            }
            i += 1;
        }
        Ok(None)
    }

    /// The first release with the version that `version` spells, to be
    /// changed in place.
    pub fn find_release_mut(&mut self, version: String) -> (r: Result<Option<&mut Release>, Error>)
        ensures
            match r {
                Ok(Some(release)) => parse_spec(version@) matches Some(v) && version_position(
                    old(self)@.releases,
                    v,
                    0,
                ) >= 0 && *release == old(self).releases[version_position(
                    old(self)@.releases,
                    v,
                    0,
                )] && final(self)@ == (ChangelogView {
                    releases: old(self)@.releases.update(
                        version_position(old(self)@.releases, v, 0),
                        final(release)@,
                    ),
                    ..old(self)@
                }),
                Ok(None) => parse_spec(version@) matches Some(v) && version_position(
                    old(self)@.releases,
                    v,
                    0,
                ) == -1 && *final(self) == *old(self),
                Err(e) => parse_spec(version@) is None && e@ == (ErrorView::InvalidVersion {
                    text: version@,
                }) && *final(self) == *old(self),
            },
    {
        let wanted = match Version::parse(version.as_str()) {
            Some(v) => v,
            None => {
                return Err(Error::InvalidVersion { text: version });
            },
        };
        let mut i: usize = 0;
        while i < self.releases.len()
            invariant
                i <= self.releases.len(),
                *self == *old(self),
                parse_spec(version@) == Some(wanted@),
                version_position(self@.releases, wanted@, 0) == version_position(
                    self@.releases,
                    wanted@,
                    i as int,
                ),
            decreases self.releases.len() - i,
        {
            let hit = match &self.releases[i].version {
                Some(v) => v.same(&wanted),
                None => false,
            };
            assert(hit == (self@.releases[i as int].version == Some(wanted@)));
            if hit {
                return Ok(Some(&mut self.releases[i]));
            }
            i += 1;
        }
        Ok(None)
    }

    /// The section of what is not released yet: the first release with
    /// neither version nor date.
    pub fn get_unreleased(&self) -> (r: Option<&Release>)
        ensures
            match r {
                Some(release) => first_unreleased(self@.releases, 0) >= 0 && *release
                    == self.releases[first_unreleased(self@.releases, 0)],
                None => first_unreleased(self@.releases, 0) == -1,
            },
    {
        let mut i: usize = 0;
        while i < self.releases.len()
            invariant
                i <= self.releases.len(),
                first_unreleased(self@.releases, 0) == first_unreleased(self@.releases, i as int),
            decreases self.releases.len() - i,
        {
            if self.releases[i].is_unreleased() {
                return Some(&self.releases[i]);
            }
            i += 1;
        }
        None
    }

    /// The section of what is not released yet, to be changed in place.
    pub fn get_unreleased_mut(&mut self) -> (r: Option<&mut Release>)
        ensures
            match r {
                Some(release) => first_unreleased(old(self)@.releases, 0) >= 0 && *release == old(
                    self,
                ).releases[first_unreleased(old(self)@.releases, 0)] && final(self)@
                    == (ChangelogView {
                    releases: old(self)@.releases.update(
                        first_unreleased(old(self)@.releases, 0),
                        final(release)@,
                    ),
                    ..old(self)@
                }),
                None => first_unreleased(old(self)@.releases, 0) == -1 && *final(self) == *old(
                    self,
                ),
            },
    {
        let mut i: usize = 0;
        while i < self.releases.len()
            invariant
                i <= self.releases.len(),
                *self == *old(self),
                first_unreleased(self@.releases, 0) == first_unreleased(self@.releases, i as int),
            decreases self.releases.len() - i,
        {
            if self.releases[i].is_unreleased() {
                return Some(&mut self.releases[i]);
            }
            i += 1;
        }
        None
    }

    /// Puts the releases in the order of a changelog.
    pub fn sort_releases(&mut self) -> (r: &mut Self)
        ensures
            r@ == (ChangelogView { releases: sorted_releases(old(self)@.releases), ..old(self)@ }),
            well_ordered(r@.releases),
            old(self)@.lint_unique() ==> r@.well_formed(),
            r@.releases.len() == old(self)@.releases.len(),
            r@.releases.to_multiset() == old(self)@.releases.to_multiset(),
            *final(self) == *final(r),
    {
        let mut releases: Vec<Release> = Vec::new();
        core::mem::swap(&mut releases, &mut self.releases);
        self.releases = sort_releases(releases);
        self
    }

    /// Adds a release and puts the releases in order again: the new release
    /// stands before the releases of its date that were there. A release
    /// without a date goes on top, unless a release without a date is there
    /// already and the new one has a version.
    pub fn add_release(&mut self, release: Release) -> (r: &mut Self)
        ensures
            r@ == (ChangelogView {
                releases: sorted_releases(seq![release@] + old(self)@.releases),
                ..old(self)@
            }),
            well_ordered(r@.releases),
            old(self)@.lint_unique() ==> r@.well_formed(),
            release@.date is None && (forall|j: int|
                0 <= j < old(self)@.releases.len() ==> (#[trigger] old(self)@.releases[j]).date
                    is Some) ==> r@.releases[0] == release@,
            forall|j: int|
                0 <= j < old(self)@.releases.len() && (#[trigger] old(self)@.releases[j]).date
                    is None ==> r@.releases[0].date is None,
            r@.releases.len() == old(self)@.releases.len() + 1,
            r@.releases.to_multiset() == old(self)@.releases.to_multiset().insert(release@),
            *final(self) == *final(r),
    {
        proof {
            assert(release_views(self.releases@.insert(0, release)) =~= seq![release@]
                + self@.releases);
            assert(seq![release@] + self@.releases =~= self@.releases.insert(0, release@));
            vstd::seq_lib::to_multiset_insert(self@.releases, 0, release@);
            let all = seq![release@] + self@.releases;
            lemma_sorted_releases(all);
            if release@.date is None && (forall|j: int|
                0 <= j < self@.releases.len() ==> (#[trigger] self@.releases[j]).date is Some) {
                lemma_new_dateless_on_top(release@, self@.releases);
            }
            assert forall|j: int|
                0 <= j < self@.releases.len() && (#[trigger] self@.releases[j]).date
                    is None implies sorted_releases(all)[0].date is None by {
                assert(all[j + 1] == self@.releases[j]);
            }
        }
        self.releases.insert(0, release);
        self.sort_releases()
    }

    /// Switches a lint rule off.
    pub fn disable_lint(&mut self, lint: &str) -> (r: &mut Self)
        ensures
            old(self)@.well_formed() ==> r@.well_formed(),
            old(self)@.lint_unique() ==> r@.lint_unique(),
            r@ == (ChangelogView { lint: lint_disabled(old(self)@.lint, lint@), ..old(self)@ }),
            *final(self) == *final(r),
    {
        proof {
            if self@.lint_unique() {
                lemma_lint_unique(self@.lint, lint@);
            }
        }
        let mut codes: Vec<String> = match &self.lint {
            Some(codes) => crate::text::copy_texts(codes),
            None => Vec::new(),
        };
        if self.lint.is_none() || !holds_code(&codes, lint) {
            let code = lint.to_owned();
            proof {
                lemma_texts_push(codes@, code);
                assert(Seq::<Seq<char>>::empty().push(lint@) =~= seq![lint@]);
            }
            codes.push(code);
        }
        self.lint = Some(codes);
        self
    }

    /// Switches a lint rule on again.
    pub fn enable_lint(&mut self, lint: &str) -> (r: &mut Self)
        ensures
            old(self)@.well_formed() ==> r@.well_formed(),
            old(self)@.lint_unique() ==> r@.lint_unique(),
            r@ == (ChangelogView { lint: lint_enabled(old(self)@.lint, lint@), ..old(self)@ }),
            *final(self) == *final(r),
    {
        proof {
            if self@.lint_unique() {
                lemma_lint_unique(self@.lint, lint@);
            }
        }
        let left = match &self.lint {
            Some(codes) => Some(remove_code(codes, lint)),
            None => None,
        };
        if let Some(codes) = left {
            if codes.len() == 0 {
                self.lint = None;
            } else {
                self.lint = Some(codes);
            }
        }
        self
    }

    /// Makes the changelog compact, and switches off the lint rules that
    /// ask for blank lines around headings and lists.
    pub fn set_compact(&mut self) -> (r: &mut Self)
        ensures
            old(self)@.well_formed() ==> r@.well_formed(),
            old(self)@.lint_unique() ==> r@.lint_unique(),
            r@ == (ChangelogView {
                compact: true,
                lint: lint_disabled(lint_disabled(old(self)@.lint, "MD022"@), "MD032"@),
                ..old(self)@
            }),
            *final(self) == *final(r),
    {
        self.compact = true;
        self.disable_lint("MD022");
        self.disable_lint("MD032");
        self
    }

    /// Makes the changelog spacious again, and switches the two lint rules
    /// back on.
    pub fn unset_compact(&mut self) -> (r: &mut Self)
        ensures
            old(self)@.well_formed() ==> r@.well_formed(),
            old(self)@.lint_unique() ==> r@.lint_unique(),
            r@ == (ChangelogView {
                compact: false,
                lint: lint_enabled(lint_enabled(old(self)@.lint, "MD022"@), "MD032"@),
                ..old(self)@
            }),
            *final(self) == *final(r),
    {
        self.compact = false;
        self.enable_lint("MD022");
        self.enable_lint("MD032");
        self
    }

    /// Adds a link, if anchor and URL make one; else nothing changes.
    pub fn add_link(&mut self, anchor: &str, url: &str) -> (r: &mut Self)
        ensures
            old(self)@.well_formed() ==> r@.well_formed(),
            r@ == (match new_link_spec(anchor@, url@) {
                Ok(link) => ChangelogView { links: old(self)@.links.push(link), ..old(self)@ },
                Err(_) => old(self)@,
            }),
            *final(self) == *final(r),
    {
        if let Ok(link) = Link::new(anchor, url) {
            assert(link_views(self.links@.push(link)) =~= self@.links.push(link@));
            self.links.push(link);
        }
        self
    }

    /// The name of a version's tag.
    pub fn tag_name(&self, version: String) -> (r: String)
        ensures
            r@ == tag_name_spec(self@.tag_prefix, version@),
    {
        match &self.tag_prefix {
            Some(prefix) => {
                let mut out = prefix.clone();
                out.append(version.as_str());
                out
            },
            None => version,
        }
    }

    /// The link of the release `current`, given the nearest dated release
    /// `previous` that follows it.
    pub fn compare_link(&self, current: &Release, previous: Option<&Release>) -> (r: Result<
        Option<Link>,
        Error,
    >)
        ensures
            link_option_view(r) == link_between(self@, current@, opt_release(previous)),
    {
        let url = match &self.url {
            Some(url) => url,
            None => {
                return Err(Error::MissingRepositoryUrl);
            },
        };
        let previous = match previous {
            Some(previous) => previous,
            None => {
                let version = match &current.version {
                    Some(v) => v.to_text(),
                    None => {
                        return Err(Error::MissingVersion);
                    },
                };
                let tag = self.tag_name(version.clone());
                return Ok(
                    Some(
                        Link {
                            anchor: version,
                            url: get_release_url(url.as_str(), tag.as_str()),
                        },
                    ),
                );
            },
        };
        let previous_version = match &previous.version {
            Some(v) => v.to_text(),
            None => {
                return Err(Error::MissingVersion);
            },
        };
        let previous_tag = self.tag_name(previous_version);
        match (&current.date, &current.version) {
            (Some(_), Some(v)) => {
                let version = v.to_text();
                let tag = self.tag_name(version.clone());
                Ok(
                    Some(
                        Link {
                            anchor: version,
                            url: get_compare_url(url.as_str(), previous_tag.as_str(), tag.as_str()),
                        },
                    ),
                )
            },
            _ => Ok(
                Some(
                    Link {
                        anchor: "Unreleased".to_owned(),
                        url: get_compare_url(
                            url.as_str(),
                            previous_tag.as_str(),
                            self.head.as_str(),
                        ),
                    },
                ),
            ),
        }
    }
}

/// What a caller may settle before a changelog is parsed.
#[derive(Clone, Debug)]
pub struct ChangelogParseOptions {
    /// The URL of the repository, where the links shall not decide it.
    pub url: Option<String>,
    /// What stands before a version in the name of its tag.
    pub tag_prefix: Option<String>,
    /// The git reference that unreleased changes are compared with.
    pub head: Option<String>,
}

/// What the options hold.
#[verifier::ext_equal]
pub struct OptionsView {
    pub url: Option<Seq<char>>,
    pub tag_prefix: Option<Seq<char>>,
    pub head: Option<Seq<char>>,
}

impl View for ChangelogParseOptions {
    type V = OptionsView;

    open spec fn view(&self) -> OptionsView {
        OptionsView {
            url: opt_text(self.url),
            tag_prefix: opt_text(self.tag_prefix),
            head: opt_text(self.head),
        }
    }
}

impl Default for ChangelogParseOptions {
    fn default() -> (o: ChangelogParseOptions)
        ensures
            o@ == (OptionsView { url: None, tag_prefix: None, head: None }),
    {
        ChangelogParseOptions::new()
    }
}

impl ChangelogParseOptions {
    /// No option settled.
    pub fn new() -> (o: ChangelogParseOptions)
        ensures
            o@ == (OptionsView { url: None, tag_prefix: None, head: None }),
    {
        ChangelogParseOptions { url: None, tag_prefix: None, head: None }
    }
}

/// A changelog in the making.
#[derive(Clone, Debug)]
pub struct ChangelogBuilder {
    pub changelog: Changelog,
}

/// The links that texts define, or the error of the first text that
/// defines none.
pub open spec fn parse_links_spec(lines: Seq<Seq<char>>) -> Result<Seq<LinkView>, ErrorView>
    decreases lines.len(),
{
    if lines.len() == 0 {
        Ok(Seq::<LinkView>::empty())
    } else {
        match parse_links_spec(lines.drop_last()) {
            Ok(before) => match parse_link_spec(lines.last()) {
                Ok(link) => Ok(before.push(link)),
                Err(e) => Err(e),
            },
            Err(e) => Err(e),
        }
    }
}

/// Once the first lines define no links, neither do all of them, for the
/// same reason.
pub proof fn lemma_parse_links_fails(lines: Seq<Seq<char>>, n: int)
    requires
        0 <= n <= lines.len(),
        parse_links_spec(lines.take(n)) is Err,
    ensures
        parse_links_spec(lines) == parse_links_spec(lines.take(n)),
    decreases lines.len() - n,
{
    if n < lines.len() {
        let upto = lines.take(n + 1);
        assert(upto.drop_last() == lines.take(n));
        lemma_parse_links_fails(lines, n + 1);
    } else {
        assert(lines.take(n) == lines);
    }
}

/// The links that lines define.
pub fn parse_links(lines: &Vec<String>) -> (r: Result<Vec<Link>, Error>)
    ensures
        match r {
            Ok(links) => parse_links_spec(texts(lines@)) == Ok::<Seq<LinkView>, ErrorView>(
                link_views(links@),
            ),
            Err(e) => parse_links_spec(texts(lines@)) == Err::<Seq<LinkView>, ErrorView>(e@),
        },
{
    let ghost all = texts(lines@);
    let mut out: Vec<Link> = Vec::new();
    let mut i: usize = 0;
    assert(all.take(0) == Seq::<Seq<char>>::empty());
    assert(link_views(out@) == Seq::<LinkView>::empty());
    while i < lines.len()
        invariant
            i <= lines.len(),
            all == texts(lines@),
            parse_links_spec(all.take(i as int)) == Ok::<Seq<LinkView>, ErrorView>(
                link_views(out@),
            ),
        decreases lines.len() - i,
    {
        proof {
            let upto = all.take(i + 1);
            assert(upto.drop_last() == all.take(i as int));
            assert(upto.last() == lines@[i as int]@);
        }
        match Link::parse(lines[i].clone()) {
            Ok(link) => {
                assert(link_views(out@.push(link)) == link_views(out@).push(link@));
                out.push(link);
            },
            Err(e) => {
                proof {
                    lemma_parse_links_fails(all, i + 1);
                }
                return Err(e);
            },
        }
        i += 1;
    }
    assert(all.take(i as int) == all);
    Ok(out)
}

impl Default for ChangelogBuilder {
    fn default() -> (b: ChangelogBuilder)
        ensures
            b.changelog@ == ChangelogView::empty(),
    {
        ChangelogBuilder::new()
    }
}

impl ChangelogBuilder {
    /// Starts a changelog with nothing in it.
    pub fn new() -> (b: ChangelogBuilder)
        ensures
            b.changelog@ == ChangelogView::empty(),
    {
        ChangelogBuilder { changelog: Changelog::new() }
    }

    /// The git reference of a changelog that names none.
    pub fn default_head(&self) -> (r: String)
        ensures
            r@ == "HEAD"@,
    {
        "HEAD".to_owned()
    }

    pub fn lint(&mut self, value: Option<Vec<String>>) -> (r: &mut Self)
        ensures
            r.changelog@ == (ChangelogView { lint: opt_texts(value), ..old(self).changelog@ }),
            *final(self) == *final(r),
    {
        self.changelog.lint = value;
        self
    }

    pub fn flag(&mut self, value: Option<String>) -> (r: &mut Self)
        ensures
            r.changelog@ == (ChangelogView { flag: opt_text(value), ..old(self).changelog@ }),
            *final(self) == *final(r),
    {
        self.changelog.flag = value;
        self
    }

    pub fn title(&mut self, value: Option<String>) -> (r: &mut Self)
        ensures
            r.changelog@ == (ChangelogView { title: opt_text(value), ..old(self).changelog@ }),
            *final(self) == *final(r),
    {
        self.changelog.title = value;
        self
    }

    pub fn description(&mut self, value: Option<String>) -> (r: &mut Self)
        ensures
            r.changelog@ == (ChangelogView {
                description: opt_text(value),
                ..old(self).changelog@
            }),
            *final(self) == *final(r),
    {
        self.changelog.description = value;
        self
    }

    pub fn head(&mut self, value: String) -> (r: &mut Self)
        ensures
            r.changelog@ == (ChangelogView { head: value@, ..old(self).changelog@ }),
            *final(self) == *final(r),
    {
        self.changelog.head = value;
        self
    }

    pub fn footer(&mut self, value: Option<String>) -> (r: &mut Self)
        ensures
            r.changelog@ == (ChangelogView { footer: opt_text(value), ..old(self).changelog@ }),
            *final(self) == *final(r),
    {
        self.changelog.footer = value;
        self
    }

    pub fn url(&mut self, value: Option<String>) -> (r: &mut Self)
        ensures
            r.changelog@ == (ChangelogView { url: opt_text(value), ..old(self).changelog@ }),
            *final(self) == *final(r),
    {
        self.changelog.url = value;
        self
    }

    pub fn tag_prefix(&mut self, value: Option<String>) -> (r: &mut Self)
        ensures
            r.changelog@ == (ChangelogView {
                tag_prefix: opt_text(value),
                ..old(self).changelog@
            }),
            *final(self) == *final(r),
    {
        self.changelog.tag_prefix = value;
        self
    }

    /// Sets the releases, and puts them in the order of a changelog.
    pub fn releases(&mut self, releases: Vec<Release>) -> (r: &mut Self)
        ensures
            r.changelog@ == (ChangelogView {
                releases: sorted_releases(release_views(releases@)),
                ..old(self).changelog@
            }),
            well_ordered(r.changelog@.releases),
            r.changelog@.releases.len() == releases.len(),
            r.changelog@.releases.to_multiset() == release_views(releases@).to_multiset(),
            *final(self) == *final(r),
    {
        self.changelog.releases = releases;
        self.sort_releases()
    }

    /// Puts the releases in the order of a changelog.
    pub fn sort_releases(&mut self) -> (r: &mut Self)
        ensures
            r.changelog@ == (ChangelogView {
                releases: sorted_releases(old(self).changelog@.releases),
                ..old(self).changelog@
            }),
            well_ordered(r.changelog@.releases),
            r.changelog@.releases.len() == old(self).changelog@.releases.len(),
            r.changelog@.releases.to_multiset() == old(self).changelog@.releases.to_multiset(),
            *final(self) == *final(r),
    {
        self.changelog.sort_releases();
        self
    }

    /// Sets the links to those that the lines define. Where a line defines
    /// none, that is an error and nothing changes.
    pub fn links(&mut self, links: Vec<String>) -> (r: Result<&mut Self, Error>)
        ensures
            match r {
                Ok(b) => parse_links_spec(texts(links@)) matches Ok(parsed) && b.changelog@
                    == (ChangelogView { links: parsed, ..old(self).changelog@ }) && *final(self)
                    == *final(b),
                Err(e) => parse_links_spec(texts(links@)) == Err::<Seq<LinkView>, ErrorView>(e@)
                    && *final(self) == *old(self),
            },
    {
        match parse_links(&links) {
            Ok(parsed) => {
                self.changelog.links = parsed;
                Ok(self)
            },
            Err(e) => Err(e),
        }
    }

    /// Makes the changelog compact or spacious. A compact changelog
    /// switches off the two lint rules that ask for blank lines around
    /// headings and lists, and no others; a spacious one switches off none.
    pub fn compact(&mut self, compact: bool) -> (r: &mut Self)
        ensures
            r.changelog@ == (ChangelogView {
                compact,
                lint: if compact {
                    Some(seq!["MD022"@, "MD032"@])
                } else {
                    None
                },
                ..old(self).changelog@
            }),
            r.changelog@.lint_unique(),
            *final(self) == *final(r),
    {
        self.changelog.compact = compact;
        if compact {
            let mut codes: Vec<String> = Vec::new();
            codes.push("MD022".to_owned());
            codes.push("MD032".to_owned());
            assert(texts(codes@) =~= seq!["MD022"@, "MD032"@]);
            proof {
                reveal_strlit("MD022");
                reveal_strlit("MD032");
                assert("MD022"@[3] != "MD032"@[3]);
            }
            self.changelog.lint = Some(codes);
        } else {
            self.changelog.lint = None;
        }
        self
    }

    /// The changelog that was built.
    pub fn build(&self) -> (r: Result<Changelog, Error>)
        ensures
            r matches Ok(c) && c@ == self.changelog@,
    {
        Ok(self.changelog.copy())
    }
}

impl Changelog {
    /// A copy of the changelog.
    pub fn copy(&self) -> (r: Changelog)
        ensures
            r@ == self@,
    {
        let mut releases: Vec<Release> = Vec::new();
        let mut i: usize = 0;
        assert(release_views(releases@) == self@.releases.take(0));
        while i < self.releases.len()
            invariant
                i <= self.releases.len(),
                release_views(releases@) == self@.releases.take(i as int),
            decreases self.releases.len() - i,
        {
            let release = self.releases[i].copy();
            proof {
                assert(release_views(releases@.push(release)) == release_views(releases@).push(
                    release@,
                ));
                assert(self@.releases[i as int] == release@);
                assert(self@.releases.take(i as int).push(release@) == self@.releases.take(i + 1));
            }
            releases.push(release);
            i += 1;
        }
        assert(self@.releases.take(i as int) == self@.releases);
        let mut links: Vec<Link> = Vec::new();
        let mut k: usize = 0;
        assert(link_views(links@) == self@.links.take(0));
        while k < self.links.len()
            invariant
                k <= self.links.len(),
                link_views(links@) == self@.links.take(k as int),
            decreases self.links.len() - k,
        {
            let link = self.links[k].copy();
            proof {
                assert(link_views(links@.push(link)) == link_views(links@).push(link@));
                assert(self@.links[k as int] == link@);
                assert(self@.links.take(k as int).push(link@) == self@.links.take(k + 1));
            }
            links.push(link);
            k += 1;
        }
        assert(self@.links.take(k as int) == self@.links);
        Changelog {
            lint: match &self.lint {
                Some(codes) => Some(crate::text::copy_texts(codes)),
                None => None,
            },
            flag: crate::text::copy_opt_text(&self.flag),
            title: crate::text::copy_opt_text(&self.title),
            description: crate::text::copy_opt_text(&self.description),
            head: self.head.clone(),
            footer: crate::text::copy_opt_text(&self.footer),
            url: crate::text::copy_opt_text(&self.url),
            releases,
            links,
            tag_prefix: crate::text::copy_opt_text(&self.tag_prefix),
            compact: self.compact,
        }
    }
}

} // verus!
