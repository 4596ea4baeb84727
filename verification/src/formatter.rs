//! The formatter: a changelog as the text of its file.

use vstd::prelude::*;
use crate::changelog::{compare_link_spec, Changelog, ChangelogView};
use crate::consts::{CHANGELOG_DESCRIPTION, CHANGELOG_TITLE, TAG_PATTERN};
use crate::error::{Error, ErrorView};
use crate::link::{link_text, link_views, Link, LinkView};
use crate::pattern::{is_match, pattern_compiles, pattern_matches};
use crate::release::{release_text, release_views, text_result_view, Release, ReleaseView};
use crate::text::{
    contains, contains_spec, ends_with_one_feed, file_text, join, join_spec,
    lemma_text_lt_irreflexive, lemma_text_lt_total, lemma_text_lt_transitive, less_text,
    no_two_blank_lines, same_text, text_lt, texts, to_file_text, trim, trim_spec,
};

verus! {

/// The codes `acc`, in the order of dictionaries and each once, with the
/// code `x` at its place among them.
pub open spec fn insert_code(acc: Seq<Seq<char>>, x: Seq<char>) -> Seq<Seq<char>>
    decreases acc.len(),
{
    if acc.len() == 0 {
        seq![x]
    } else if acc.last() == x {
        acc
    } else if text_lt(acc.last(), x) {
        acc.push(x)
    } else {
        insert_code(acc.drop_last(), x).push(acc.last())
    }
}

/// The codes in the order of dictionaries, each once.
pub open spec fn sorted_codes(codes: Seq<Seq<char>>) -> Seq<Seq<char>>
    decreases codes.len(),
{
    if codes.len() == 0 {
        codes
    } else {
        insert_code(sorted_codes(codes.drop_last()), codes.last())
    }
}

/// Whether each code comes before the next in the order of dictionaries.
pub open spec fn ascending(codes: Seq<Seq<char>>) -> bool {
    forall|i: int, j: int| 0 <= i < j < codes.len() ==> text_lt(codes[i], codes[j])
}

/// Putting a code among ordered codes leaves them ordered, and adds that
/// code and no other.
pub proof fn lemma_insert_code(acc: Seq<Seq<char>>, x: Seq<char>)
    requires
        ascending(acc),
    ensures
        ascending(insert_code(acc, x)),
        insert_code(acc, x).contains(x),
        forall|k: int| 0 <= k < acc.len() ==> insert_code(acc, x).contains(#[trigger] acc[k]),
        forall|k: int|
            0 <= k < insert_code(acc, x).len() ==> (#[trigger] insert_code(acc, x)[k] == x
                || acc.contains(insert_code(acc, x)[k])),
    decreases acc.len(),
{
    let r = insert_code(acc, x);
    if acc.len() == 0 {
        assert(r[0] == x);
    } else if acc.last() == x {
        assert(acc[acc.len() - 1] == x);
        assert forall|k: int| 0 <= k < r.len() implies (#[trigger] r[k] == x || acc.contains(
            r[k],
        )) by {
            assert(acc[k] == r[k]);
        }
    } else if text_lt(acc.last(), x) {
        assert forall|i: int, j: int| 0 <= i < j < r.len() implies text_lt(r[i], r[j]) by {
            if j == acc.len() && i < acc.len() - 1 {
                assert(text_lt(acc[i], acc[acc.len() - 1]));
                lemma_text_lt_transitive(acc[i], acc.last(), x);
            }
        }
        assert(r[acc.len() as int] == x);
        assert forall|k: int| 0 <= k < acc.len() implies r.contains(#[trigger] acc[k]) by {
            assert(r[k] == acc[k]);
        }
        assert forall|k: int| 0 <= k < r.len() implies (#[trigger] r[k] == x || acc.contains(
            r[k],
        )) by {
            if k < acc.len() {
                assert(acc[k] == r[k]);
            }
        }
    } else {
        let front = acc.drop_last();
        let inner = insert_code(front, x);
        let last = acc.last();
        assert forall|i: int, j: int| 0 <= i < j < front.len() implies text_lt(
            front[i],
            front[j],
        ) by {
            assert(text_lt(acc[i], acc[j]));
        }
        lemma_insert_code(front, x);
        lemma_text_lt_total(last, x);
        assert(text_lt(x, last));
        assert forall|i: int, j: int| 0 <= i < j < r.len() implies text_lt(r[i], r[j]) by {
            if j < inner.len() {
                assert(text_lt(inner[i], inner[j]));
            } else {
                if inner[i] != x {
                    assert(front.contains(inner[i]));
                    let m = choose|m: int| 0 <= m < front.len() && front[m] == inner[i];
                    assert(text_lt(acc[m], acc[acc.len() - 1]));
                }
            }
        }
        let at = choose|m: int| 0 <= m < inner.len() && inner[m] == x;
        assert(r[at] == x);
        assert forall|k: int| 0 <= k < acc.len() implies r.contains(#[trigger] acc[k]) by {
            if k < front.len() {
                assert(front[k] == acc[k]);
                assert(inner.contains(front[k]));
                let m = choose|m: int| 0 <= m < inner.len() && inner[m] == front[k];
                assert(r[m] == acc[k]);
            } else {
                assert(r[r.len() - 1] == acc[k]);
            }
        }
        assert forall|k: int| 0 <= k < r.len() implies (#[trigger] r[k] == x || acc.contains(
            r[k],
        )) by {
            if k < inner.len() {
                if inner[k] != x {
                    assert(front.contains(inner[k]));
                    let m = choose|m: int| 0 <= m < front.len() && front[m] == inner[k];
                    assert(acc[m] == r[k]);
                }
            } else {
                assert(acc[acc.len() - 1] == r[k]);
            }
        }
    }
}

/// The codes as they are written stand in the order of dictionaries, each
/// once, and they are the codes that were given and no others.
pub proof fn lemma_sorted_codes(codes: Seq<Seq<char>>)
    ensures
        ascending(sorted_codes(codes)),
        sorted_codes(codes).no_duplicates(),
        forall|k: int| 0 <= k < codes.len() ==> sorted_codes(codes).contains(#[trigger] codes[k]),
        forall|k: int|
            0 <= k < sorted_codes(codes).len() ==> codes.contains(#[trigger] sorted_codes(codes)[k]),
    decreases codes.len(),
{
    if codes.len() > 0 {
        let front = codes.drop_last();
        let before = sorted_codes(front);
        let r = sorted_codes(codes);
        lemma_sorted_codes(front);
        assert forall|i: int, j: int| 0 <= i < r.len() && 0 <= j < r.len() && i != j implies r[i]
            != r[j] by {
            lemma_insert_code(before, codes.last());
            lemma_text_lt_irreflexive(r[i]);
            if i < j {
                assert(text_lt(r[i], r[j]));
            } else {
                assert(text_lt(r[j], r[i]));
            }
        }
        lemma_insert_code(before, codes.last());
        assert forall|k: int| 0 <= k < codes.len() implies r.contains(#[trigger] codes[k]) by {
            if k < front.len() {
                assert(front[k] == codes[k]);
                assert(before.contains(front[k]));
                let m = choose|m: int| 0 <= m < before.len() && before[m] == front[k];
                assert(r.contains(before[m]));
            }
        }
        assert forall|k: int| 0 <= k < r.len() implies codes.contains(#[trigger] r[k]) by {
            if r[k] == codes.last() {
                assert(codes[codes.len() - 1] == r[k]);
            } else {
                assert(before.contains(r[k]));
                let m = choose|m: int| 0 <= m < before.len() && before[m] == r[k];
                assert(front.contains(before[m]));
                let n = choose|n: int| 0 <= n < front.len() && front[n] == before[m];
                assert(codes[n] == r[k]);
            }
        }
    }
}

/// The comment that switches lint rules off.
pub open spec fn lint_text(lint: Option<Seq<Seq<char>>>) -> Seq<char> {
    match lint {
        Some(codes) => "<!-- markdownlint-disable "@ + join_spec(sorted_codes(codes), " "@)
            + " -->\n"@,
        None => ""@,
    }
}

/// The flag comment.
pub open spec fn flag_text(flag: Option<Seq<char>>) -> Seq<char> {
    match flag {
        Some(f) => "<!-- "@ + f + " -->\n"@,
        None => ""@,
    }
}

/// The title line, and the blank line after it unless the changelog is
/// compact.
pub open spec fn title_text(title: Option<Seq<char>>, compact: bool) -> Seq<char> {
    "# "@ + (match title {
        Some(t) => t,
        None => CHANGELOG_TITLE@,
    }) + "\n"@ + (if compact {
        ""@
    } else {
        "\n"@
    })
}

/// The description and the blank line after it.
pub open spec fn description_text(description: Option<Seq<char>>) -> Seq<char> {
    (match description {
        Some(d) => trim_spec(d),
        None => CHANGELOG_DESCRIPTION@,
    }) + "\n\n"@
}

/// What stands above the releases.
pub open spec fn head_text(c: ChangelogView) -> Seq<char> {
    lint_text(c.lint) + flag_text(c.flag) + title_text(c.title, c.compact) + description_text(
        c.description,
    )
}

/// The releases as they are written, one after the other; the error of the
/// first release that cannot be written.
pub open spec fn releases_text(releases: Seq<ReleaseView>, compact: bool) -> Result<
    Seq<char>,
    ErrorView,
>
    decreases releases.len(),
{
    if releases.len() == 0 {
        Ok(""@)
    } else {
        match releases_text(releases.drop_last(), compact) {
            Ok(before) => match release_text(releases.last(), compact) {
                Ok(last) => Ok(before + last),
                Err(e) => Err(e),
            },
            Err(e) => Err(e),
        }
    }
}

/// Whether a link is one of the changelog's own: its anchor neither looks
/// like a version nor holds the word "Unreleased".
pub open spec fn is_plain_link(l: LinkView) -> bool {
    !pattern_matches(TAG_PATTERN@, l.anchor) && !contains_spec(l.anchor, "Unreleased"@)
}

/// The changelog's own links, each on a new line, and whether there is one.
pub open spec fn plain_links_text(links: Seq<LinkView>) -> (Seq<char>, bool)
    decreases links.len(),
{
    if links.len() == 0 {
        (""@, false)
    } else {
        let before = plain_links_text(links.drop_last());
        if is_plain_link(links.last()) {
            (before.0 + "\n"@ + link_text(links.last()), true)
        } else {
            before
        }
    }
}

/// The block of the changelog's own links, with a blank line after it if
/// there is one.
pub open spec fn links_text(links: Seq<LinkView>) -> Seq<char> {
    let block = plain_links_text(links);
    block.0 + (if block.1 {
        "\n\n"@
    } else {
        ""@
    })
}

/// The compare links of the releases `releases` of the changelog `c`, one
/// on each line; the error of the first link that cannot be made.
pub open spec fn compare_links_text(c: ChangelogView, releases: Seq<ReleaseView>) -> Result<
    Seq<char>,
    ErrorView,
>
    decreases releases.len(),
{
    if releases.len() == 0 {
        Ok(""@)
    } else {
        match compare_links_text(c, releases.drop_last()) {
            Ok(before) => match compare_link_spec(c, releases.last()) {
                Ok(Some(link)) => Ok(before + link_text(link) + "\n"@),
                Ok(None) => Ok(before),
                Err(e) => Err(e),
            },
            Err(e) => Err(e),
        }
    }
}

/// The footer below its horizontal rule.
pub open spec fn footer_text(footer: Option<Seq<char>>) -> Seq<char> {
    match footer {
        Some(f) => "---\n"@ + f + "\n"@,
        None => ""@,
    }
}

/// The changelog as it is written, before blank lines are tidied: head
/// matter, releases, own links, compare links, footer.
pub open spec fn changelog_text(c: ChangelogView) -> Result<Seq<char>, ErrorView> {
    if !pattern_compiles(TAG_PATTERN@) {
        Err(ErrorView::Pattern)
    } else {
        match releases_text(c.releases, c.compact) {
            Ok(releases) => match compare_links_text(c, c.releases) {
                Ok(compare) => Ok(
                    head_text(c) + releases + links_text(c.links) + compare + footer_text(c.footer),
                ),
                Err(e) => Err(e),
            },
            Err(e) => Err(e),
        }
    }
}

/// The text of the changelog's file.
pub open spec fn file_contents_spec(c: ChangelogView) -> Result<Seq<char>, ErrorView> {
    match changelog_text(c) {
        Ok(text) => Ok(file_text(text)),
        Err(e) => Err(e),
    }
}

/// Puts the code `x` at its place among the ordered codes `out`.
fn insert_sorted(out: &mut Vec<String>, x: String)
    ensures
        texts(final(out)@) == insert_code(texts(old(out)@), x@),
{
    let ghost all = texts(out@);
    let mut k: usize = out.len();
    assert(all.take(k as int) == all);
    assert(insert_code(all, x@) + all.skip(k as int) == insert_code(all, x@));
    while k > 0 && !same_text(out[k - 1].as_str(), x.as_str()) && !less_text(
        out[k - 1].as_str(),
        x.as_str(),
    )
        invariant
            k <= out.len(),
            out == old(out),
            all == texts(out@),
            insert_code(all, x@) == insert_code(all.take(k as int), x@) + all.skip(k as int),
        decreases k,
    {
        proof {
            let upto = all.take(k as int);
            assert(upto.drop_last() == all.take(k - 1));
            assert(upto.last() == all[k - 1]);
            assert(insert_code(all.take(k - 1), x@).push(all[k - 1]) + all.skip(k as int)
                == insert_code(all.take(k - 1), x@) + all.skip(k - 1));
        }
        k -= 1;
    }
    let ghost upto = all.take(k as int);
    proof {
        if k > 0 {
            assert(upto.last() == all[k - 1]);
        }
    }
    if k > 0 && same_text(out[k - 1].as_str(), x.as_str()) {
        proof {
            assert(insert_code(upto, x@) == upto);
            assert(upto + all.skip(k as int) == all);
        }
    } else {
        proof {
            assert(insert_code(upto, x@) == upto.push(x@));
            assert(upto.push(x@) + all.skip(k as int) == all.insert(k as int, x@));
            assert(texts(out@.insert(k as int, x)) == all.insert(k as int, x@));
        }
        out.insert(k, x);
    }
}

/// The codes in the order of dictionaries, each once.
pub fn sort_codes(codes: &Vec<String>) -> (out: Vec<String>)
    ensures
        texts(out@) == sorted_codes(texts(codes@)),
{
    let mut out: Vec<String> = Vec::new();
    let mut i: usize = 0;
    assert(texts(codes@).take(0) == Seq::<Seq<char>>::empty());
    assert(texts(out@) == Seq::<Seq<char>>::empty());
    while i < codes.len()
        invariant
            i <= codes.len(),
            texts(out@) == sorted_codes(texts(codes@).take(i as int)),
        decreases codes.len() - i,
    {
        proof {
            let upto = texts(codes@).take(i + 1);
            assert(upto.drop_last() == texts(codes@).take(i as int));
            assert(upto.last() == codes@[i as int]@);
        }
        insert_sorted(&mut out, codes[i].clone());
        i += 1;
    }
    assert(texts(codes@).take(i as int) == texts(codes@));
    out
}

/// The comment that switches lint rules off.
fn render_lint(lint: &Option<Vec<String>>) -> (r: String)
    ensures
        r@ == lint_text(crate::changelog::opt_texts(*lint)),
{
    match lint {
        Some(codes) => {
            let mut out = "<!-- markdownlint-disable ".to_owned();
            out.append(join(&sort_codes(codes), " ").as_str());
            out.append(" -->\n");
            out
        },
        None => "".to_owned(),
    }
}

/// The flag comment.
fn render_flag(flag: &Option<String>) -> (r: String)
    ensures
        r@ == flag_text(crate::text::opt_text(*flag)),
{
    match flag {
        Some(f) => {
            let mut out = "<!-- ".to_owned();
            out.append(f.as_str());
            out.append(" -->\n");
            out
        },
        None => "".to_owned(),
    }
}

/// The title line, and the blank line after it unless the changelog is
/// compact.
fn render_title(title: &Option<String>, compact: bool) -> (r: String)
    ensures
        r@ == title_text(crate::text::opt_text(*title), compact),
{
    let mut out = "# ".to_owned();
    match title {
        Some(t) => out.append(t.as_str()),
        None => out.append(CHANGELOG_TITLE),
    }
    out.append("\n");
    out.append(if compact {
        ""
    } else {
        "\n"
    });
    out
}

/// The description and the blank line after it.
fn render_description(description: &Option<String>) -> (r: String)
    ensures
        r@ == description_text(crate::text::opt_text(*description)),
{
    let mut out = match description {
        Some(d) => trim(d.as_str()),
        None => CHANGELOG_DESCRIPTION.to_owned(),
    };
    out.append("\n\n");
    out
}

/// The releases as they are written, one after the other.
fn render_releases(releases: &Vec<Release>, compact: bool) -> (r: Result<String, Error>)
    ensures
        text_result_view(r) == releases_text(release_views(releases@), compact),
{
    let ghost all = release_views(releases@);
    let mut out = "".to_owned();
    let mut i: usize = 0;
    assert(all.take(0) == Seq::<ReleaseView>::empty());
    while i < releases.len()
        invariant
            i <= releases.len(),
            all == release_views(releases@),
            releases_text(all.take(i as int), compact) == Ok::<Seq<char>, ErrorView>(out@),
        decreases releases.len() - i,
    {
        proof {
            let upto = all.take(i + 1);
            assert(upto.drop_last() == all.take(i as int));
            assert(upto.last() == releases@[i as int]@);
        }
        match releases[i].render(compact) {
            Ok(text) => {
                out.append(text.as_str());
            },
            Err(e) => {
                proof {
                    lemma_releases_text_fails(all, i + 1, compact);
                }
                return Err(e);
            },
        }
        i += 1;
    }
    assert(all.take(i as int) == all);
    Ok(out)
}

/// Once the releases up to some point cannot be written, neither can all
/// of them, for the same reason.
proof fn lemma_releases_text_fails(releases: Seq<ReleaseView>, n: int, compact: bool)
    requires
        0 <= n <= releases.len(),
        releases_text(releases.take(n), compact) is Err,
    ensures
        releases_text(releases, compact) == releases_text(releases.take(n), compact),
    decreases releases.len() - n,
{
    if n < releases.len() {
        let upto = releases.take(n + 1);
        assert(upto.drop_last() == releases.take(n));
        lemma_releases_text_fails(releases, n + 1, compact);
    } else {
        assert(releases.take(n) == releases);
    }
}

/// Once the compare links up to some release cannot be made, neither can
/// all of them, for the same reason.
proof fn lemma_compare_links_text_fails(c: ChangelogView, releases: Seq<ReleaseView>, n: int)
    requires
        0 <= n <= releases.len(),
        compare_links_text(c, releases.take(n)) is Err,
    ensures
        compare_links_text(c, releases) == compare_links_text(c, releases.take(n)),
    decreases releases.len() - n,
{
    if n < releases.len() {
        let upto = releases.take(n + 1);
        assert(upto.drop_last() == releases.take(n));
        lemma_compare_links_text_fails(c, releases, n + 1);
    } else {
        assert(releases.take(n) == releases);
    }
}

/// The block of the changelog's own links.
fn render_links(links: &Vec<Link>) -> (r: String)
    requires
        pattern_compiles(TAG_PATTERN@),
    ensures
        r@ == links_text(link_views(links@)),
{
    let ghost all = link_views(links@);
    let mut out = "".to_owned();
    let mut any = false;
    let mut i: usize = 0;
    assert(all.take(0) == Seq::<LinkView>::empty());
    while i < links.len()
        invariant
            i <= links.len(),
            pattern_compiles(TAG_PATTERN@),
            all == link_views(links@),
            plain_links_text(all.take(i as int)) == (out@, any),
        decreases links.len() - i,
    {
        proof {
            let upto = all.take(i + 1);
            assert(upto.drop_last() == all.take(i as int));
            assert(upto.last() == links@[i as int]@);
        }
        let anchor = links[i].anchor.as_str();
        if !is_match(TAG_PATTERN, anchor).unwrap() && !contains(anchor, "Unreleased") {
            out.append("\n");
            out.append(links[i].render().as_str());
            any = true;
        }
        i += 1;
    }
    assert(all.take(i as int) == all);
    out.append(if any {
        "\n\n"
    } else {
        ""
    });
    out
}

/// The footer below its horizontal rule.
fn render_footer(footer: &Option<String>) -> (r: String)
    ensures
        r@ == footer_text(crate::text::opt_text(*footer)),
{
    match footer {
        Some(f) => {
            let mut out = "---\n".to_owned();
            out.append(f.as_str());
            out.append("\n");
            out
        },
        None => "".to_owned(),
    }
}

impl Changelog {
    /// What stands above the releases.
    pub fn render_head(&self) -> (r: String)
        ensures
            r@ == head_text(self@),
    {
        let mut out = render_lint(&self.lint);
        out.append(render_flag(&self.flag).as_str());
        out.append(render_title(&self.title, self.compact).as_str());
        out.append(render_description(&self.description).as_str());
        out
    }

    /// The compare links of the releases, one on each line.
    pub fn render_compare_links(&self) -> (r: Result<String, Error>)
        ensures
            text_result_view(r) == compare_links_text(self@, self@.releases),
    {
        let ghost all = self@.releases;
        let mut out = "".to_owned();
        let mut i: usize = 0;
        assert(all.take(0) == Seq::<ReleaseView>::empty());
        while i < self.releases.len()
            invariant
                i <= self.releases.len(),
                all == self@.releases,
                compare_links_text(self@, all.take(i as int)) == Ok::<Seq<char>, ErrorView>(out@),
            decreases self.releases.len() - i,
        {
            proof {
                let upto = all.take(i + 1);
                assert(upto.drop_last() == all.take(i as int));
                assert(upto.last() == self.releases@[i as int]@);
            }
            match self.releases[i].compare_link(self) {
                Ok(Some(link)) => {
                    out.append(link.render().as_str());
                    out.append("\n");
                },
                Ok(None) => {},
                Err(e) => {
                    proof {
                        lemma_compare_links_text_fails(self@, all, i + 1);
                    }
                    return Err(e);
                },
            }
            i += 1;
        }
        assert(all.take(i as int) == all);
        Ok(out)
    }

    /// The changelog as it is written, before blank lines are tidied.
    pub fn render(&self) -> (r: Result<String, Error>)
        ensures
            text_result_view(r) == changelog_text(self@),
    {
        if is_match(TAG_PATTERN, "").is_none() {
            return Err(Error::Pattern);
        }
        let releases = match render_releases(&self.releases, self.compact) {
            Ok(text) => text,
            Err(e) => {
                return Err(e);
            },
        };
        let compare = match self.render_compare_links() {
            Ok(text) => text,
            Err(e) => {
                return Err(e);
            },
        };
        let mut out = self.render_head();
        out.append(releases.as_str());
        out.append(render_links(&self.links).as_str());
        out.append(compare.as_str());
        out.append(render_footer(&self.footer).as_str());
        Ok(out)
    }

    /// The text of the changelog's file: the changelog as it is written,
    /// without two blank lines in a row and with one line feed at its end.
    pub fn file_contents(&self) -> (r: Result<String, Error>)
        ensures
            text_result_view(r) == file_contents_spec(self@),
            r matches Ok(text) ==> ends_with_one_feed(text@) && no_two_blank_lines(text@),
    {
        match self.render() {
            Ok(text) => Ok(to_file_text(text.as_str())),
            Err(e) => Err(e),
        }
    }
}

} // verus!
