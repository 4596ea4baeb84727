//! Reference links: an anchor and the URL it stands for.

use vstd::prelude::*;
use crate::error::{Error, ErrorView};
use crate::text::{
    char_count, char_is_whitespace, is_whitespace, slice_to_string, strip_chars, strip_chars_spec,
    to_chars, trim, trim_spec,
};

verus! {

/// A reference link of a changelog.
#[derive(Clone, Debug, PartialEq, Eq)]
pub struct Link {
    pub anchor: String,
    pub url: String,
}

/// What a link holds.
#[verifier::ext_equal]
pub struct LinkView {
    pub anchor: Seq<char>,
    pub url: Seq<char>,
}

impl View for Link {
    type V = LinkView;

    open spec fn view(&self) -> LinkView {
        LinkView { anchor: self.anchor@, url: self.url@ }
    }
}

/// What a vector of links holds.
pub open spec fn link_views(links: Seq<Link>) -> Seq<LinkView> {
    links.map_values(|l: Link| l@)
}

/// Whether a colon that is followed by whitespace stands at index `i`.
pub open spec fn spaced_colon_at(line: Seq<char>, i: int) -> bool {
    0 <= i && i + 1 < line.len() && line[i] == ':' && char_is_whitespace(line[i + 1])
}

/// Whether a colon that follows a closing bracket stands at index `i`.
pub open spec fn bracket_colon_at(line: Seq<char>, i: int) -> bool {
    1 <= i < line.len() && line[i] == ':' && line[i - 1] == ']'
}

/// Index of the first colon at or after `k` that is followed by
/// whitespace, or -1.
pub open spec fn first_spaced_colon(line: Seq<char>, k: int) -> int
    decreases line.len() - k,
{
    if k < 0 || k >= line.len() {
        -1
    } else if spaced_colon_at(line, k) {
        k
    } else {
        first_spaced_colon(line, k + 1)
    }
}

/// Index of the first colon at or after `k` that follows a closing
/// bracket, or -1.
pub open spec fn first_bracket_colon(line: Seq<char>, k: int) -> int
    decreases line.len() - k,
{
    if k < 0 || k >= line.len() {
        -1
    } else if bracket_colon_at(line, k) {
        k
    } else {
        first_bracket_colon(line, k + 1)
    }
}

/// Index of the colon that parts anchor and URL, or -1: the first colon
/// that is followed by whitespace, be it a space or the end of the line;
/// where there is none, the first colon that follows a closing bracket.
pub open spec fn link_cut(line: Seq<char>) -> int {
    if first_spaced_colon(line, 0) >= 0 {
        first_spaced_colon(line, 0)
    } else {
        first_bracket_colon(line, 0)
    }
}

/// The link that the text `[anchor]: url` defines, on one line or on two:
/// the anchor is what stands before the parting colon, without square
/// brackets; the URL is what stands after it, without the whitespace
/// around it. A text without such a colon has no URL.
pub open spec fn parse_link_spec(line: Seq<char>) -> Result<LinkView, ErrorView> {
    let at = link_cut(line);
    if at < 0 {
        Err(ErrorView::MissingUrl)
    } else {
        Ok(
            LinkView {
                anchor: strip_chars_spec(line.take(at), "[]"@),
                url: trim_spec(line.skip(at + 1)),
            },
        )
    }
}

/// Where the search for a colon followed by whitespace ends.
pub proof fn lemma_first_spaced_colon(line: Seq<char>, k: int)
    requires
        0 <= k,
    ensures
        first_spaced_colon(line, k) == -1 || (k <= first_spaced_colon(line, k) && spaced_colon_at(
            line,
            first_spaced_colon(line, k),
        )),
        forall|j: int|
            k <= j && #[trigger] spaced_colon_at(line, j) ==> 0 <= first_spaced_colon(line, k) <= j,
    decreases line.len() - k,
{
    if k < line.len() && !spaced_colon_at(line, k) {
        lemma_first_spaced_colon(line, k + 1);
    }
}

/// Where the search for a colon behind a closing bracket ends.
pub proof fn lemma_first_bracket_colon(line: Seq<char>, k: int)
    requires
        0 <= k,
    ensures
        first_bracket_colon(line, k) == -1 || (k <= first_bracket_colon(line, k)
            && bracket_colon_at(line, first_bracket_colon(line, k))),
        forall|j: int|
            k <= j && #[trigger] bracket_colon_at(line, j) ==> 0 <= first_bracket_colon(line, k)
                <= j,
    decreases line.len() - k,
{
    if k < line.len() && !bracket_colon_at(line, k) {
        lemma_first_bracket_colon(line, k + 1);
    }
}

/// A text with a colon that is followed by whitespace, or with a colon
/// behind a closing bracket, defines a link.
pub proof fn lemma_link_is_read(line: Seq<char>, i: int)
    requires
        spaced_colon_at(line, i) || bracket_colon_at(line, i),
    ensures
        parse_link_spec(line) is Ok,
{
    lemma_first_spaced_colon(line, 0);
    lemma_first_bracket_colon(line, 0);
}

/// The link with this anchor and URL: the anchor loses its square brackets
/// and colons and must not be empty after that, nor may the URL be empty.
pub open spec fn new_link_spec(anchor: Seq<char>, url: Seq<char>) -> Result<LinkView, ErrorView> {
    let bare = strip_chars_spec(anchor, "[]:"@);
    if bare.len() == 0 {
        Err(ErrorView::MissingAnchor { text: bare })
    } else if url.len() == 0 {
        Err(ErrorView::MissingUrl)
    } else {
        Ok(LinkView { anchor: bare, url })
    }
}

/// The link as a line of a changelog.
pub open spec fn link_text(link: LinkView) -> Seq<char> {
    "["@ + link.anchor + "]: "@ + link.url
}

/// Results by what they hold.
pub open spec fn link_result_view(r: Result<Link, Error>) -> Result<LinkView, ErrorView> {
    match r {
        Ok(l) => Ok(l@),
        Err(e) => Err(e@),
    }
}

/// Index of the first colon that is followed by whitespace.
fn find_spaced_colon(v: &Vec<char>) -> (r: Option<usize>)
    ensures
        match r {
            Some(i) => i as int == first_spaced_colon(v@, 0) && i < v.len(),
            None => first_spaced_colon(v@, 0) == -1,
        },
{
    let mut i: usize = 0;
    while i < v.len()
        invariant
            i <= v.len(),
            first_spaced_colon(v@, 0) == first_spaced_colon(v@, i as int),
        decreases v.len() - i,
    {
        if v[i] == ':' && i + 1 < v.len() && is_whitespace(v[i + 1]) {
            return Some(i);
        }
        i += 1;
    }
    None
}

/// Index of the first colon that follows a closing bracket.
fn find_bracket_colon(v: &Vec<char>) -> (r: Option<usize>)
    ensures
        match r {
            Some(i) => i as int == first_bracket_colon(v@, 0) && i < v.len(),
            None => first_bracket_colon(v@, 0) == -1,
        },
{
    let mut i: usize = 0;
    while i < v.len()
        invariant
            i <= v.len(),
            first_bracket_colon(v@, 0) == first_bracket_colon(v@, i as int),
        decreases v.len() - i,
    {
        if i >= 1 && v[i] == ':' && v[i - 1] == ']' {
            return Some(i);
        }
        i += 1;
    }
    None
}

impl Link {
    /// Reads a link from the text `[anchor]: url`, on one line or on two.
    pub fn parse(line: String) -> (r: Result<Link, Error>)
        ensures
            link_result_view(r) == parse_link_spec(line@),
    {
        let v = to_chars(line.as_str());
        let at = match find_spaced_colon(&v) {
            Some(at) => at,
            None => match find_bracket_colon(&v) {
                Some(at) => at,
                None => {
                    return Err(Error::MissingUrl);
                },
            },
        };
        let before = slice_to_string(&v, 0, at);
        let anchor = strip_chars(before.as_str(), "[]");
        let rest = slice_to_string(&v, at + 1, v.len());
        let url = trim(rest.as_str());
        assert(v@.subrange(0, at as int) == v@.take(at as int));
        assert(v@.subrange(at + 1, v.len() as int) == v@.skip(at + 1));
        Ok(Link { anchor, url })
    }

    /// Makes a link of an anchor and a URL.
    pub fn new(anchor: &str, url: &str) -> (r: Result<Link, Error>)
        ensures
            link_result_view(r) == new_link_spec(anchor@, url@),
    {
        let anchor = strip_chars(anchor, "[]:");
        if char_count(anchor.as_str()) == 0 {
            return Err(Error::MissingAnchor { text: anchor });
        }
        if char_count(url) == 0 {
            return Err(Error::MissingUrl);
        }
        Ok(Link { anchor, url: url.to_owned() })
    }

    pub fn anchor(&self) -> (r: &String)
        ensures
            r@ == self@.anchor,
    {
        &self.anchor
    }

    pub fn url(&self) -> (r: &String)
        ensures
            r@ == self@.url,
    {
        &self.url
    }

    /// The link as a line of a changelog.
    pub fn render(&self) -> (r: String)
        ensures
            r@ == link_text(self@),
    {
        let mut out = "[".to_owned();
        out.append(self.anchor.as_str());
        out.append("]: ");
        out.append(self.url.as_str());
        out
    }

    /// A copy of the link.
    pub fn copy(&self) -> (r: Link)
        ensures
            r@ == self@,
    {
        Link { anchor: self.anchor.clone(), url: self.url.clone() }
    }
}

} // verus!
