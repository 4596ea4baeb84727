//! The parser: the tokens of a changelog as a changelog.
//!
//! The grammar is walked once, from the first token to the last, by a
//! cursor that only moves forward: lint directive, flag, title,
//! description, releases, footer. Links are taken out of the tokens before
//! that and read on their own.

use vstd::prelude::*;
use crate::changelog::{
    parse_links_spec, Changelog, ChangelogBuilder, ChangelogParseOptions, ChangelogView,
    OptionsView,
};
use crate::changes::{kind_of, ChangeKind, ChangesView};
use crate::consts::{
    COMPARE_LINK_PATTERN, DATE_FORMAT, LINT_PATTERN, RELEASE_PATTERN, UNRELEASED_PATTERN,
};
use crate::date::{chrono_parse, date_of, Date};
use crate::error::{Error, ErrorView};
use crate::formatter::{lemma_sorted_codes, sort_codes, sorted_codes};
use crate::order::{lemma_sorted_releases, sorted_releases};
use crate::pattern::{
    captures, group, group_text, is_match, pattern_captures, pattern_compiles,
};
use crate::release::{kind_text, release_views, Release, ReleaseView};
use crate::text::{
    contains, contains_spec, join, join_spec, lemma_texts_push, lowercase, opt_text, split,
    split_spec, str_lowercase, texts, trim, trim_spec,
};
use crate::token::{
    token_views, tokenize, tokenize_spec, tokenizer_patterns_compile, Token, TokenKind, TokenView,
};
use crate::version::{parse_spec, Version, VersionView};

verus! {

/// Whether the regex engine accepts the patterns that the parser uses.
pub open spec fn parser_patterns_compile() -> bool {
    &&& pattern_compiles(RELEASE_PATTERN@)
    &&& pattern_compiles(UNRELEASED_PATTERN@)
    &&& pattern_compiles(COMPARE_LINK_PATTERN@)
    &&& pattern_compiles(LINT_PATTERN@)
}

/// The text of a token: its lines, joined by line feeds.
pub open spec fn content_text(t: TokenView) -> Seq<char> {
    join_spec(t.content, "\n"@)
}

/// The first line of a token's text; empty where it has none.
pub open spec fn first_line(t: TokenView) -> Seq<char> {
    if t.content.len() > 0 {
        t.content[0]
    } else {
        ""@
    }
}

/// Whether the token at `idx` exists and is of one of `kinds`.
pub open spec fn takes(tokens: Seq<TokenView>, idx: int, kinds: Seq<TokenKind>) -> bool {
    0 <= idx < tokens.len() && kinds.contains(tokens[idx].kind)
}

/// Whether the token at `idx` exists and is of the kind `kind`.
pub open spec fn at_kind(tokens: Seq<TokenView>, idx: int, kind: TokenKind) -> bool {
    0 <= idx < tokens.len() && tokens[idx].kind == kind
}

/// The tokens that are links (`links` true) or the others (`links` false),
/// in their order.
pub open spec fn select_links(tokens: Seq<TokenView>, links: bool) -> Seq<TokenView>
    decreases tokens.len(),
{
    if tokens.len() == 0 {
        tokens
    } else if (tokens.last().kind == TokenKind::Link) == links {
        select_links(tokens.drop_last(), links).push(tokens.last())
    } else {
        select_links(tokens.drop_last(), links)
    }
}

/// A token of running text as a line of a description: a list item gets
/// its dash back.
pub open spec fn text_line(t: TokenView) -> Seq<char> {
    if t.kind == TokenKind::Li {
        "- "@ + content_text(t)
    } else {
        content_text(t)
    }
}

/// Whether a token is running text: a paragraph or a list item.
pub open spec fn is_text(t: TokenView) -> bool {
    t.kind == TokenKind::P || t.kind == TokenKind::Li
}

/// Where the run of text tokens that begins at `idx` ends.
pub open spec fn run_end(tokens: Seq<TokenView>, idx: int) -> int
    decreases tokens.len() - idx,
{
    if 0 <= idx < tokens.len() && is_text(tokens[idx]) {
        run_end(tokens, idx + 1)
    } else {
        idx
    }
}

/// The lines of the text tokens from `from` up to `to`.
pub open spec fn run_lines(tokens: Seq<TokenView>, from: int, to: int) -> Seq<Seq<char>> {
    Seq::new((to - from) as nat, |i: int| text_line(tokens[from + i]))
}

/// The text of the run of text tokens that begins at `idx`, if there is
/// one.
pub open spec fn text_run(tokens: Seq<TokenView>, idx: int) -> Option<Seq<char>> {
    let end = run_end(tokens, idx);
    if end <= idx {
        None
    } else {
        Some(join_spec(run_lines(tokens, idx, end), "\n"@))
    }
}

/// A run of text ends at or after its beginning, within the tokens.
pub proof fn lemma_run_end(tokens: Seq<TokenView>, idx: int)
    requires
        0 <= idx <= tokens.len(),
    ensures
        idx <= run_end(tokens, idx) <= tokens.len(),
    decreases tokens.len() - idx,
{
    if idx < tokens.len() && is_text(tokens[idx]) {
        lemma_run_end(tokens, idx + 1);
    }
}

/// The rule codes of a lint directive, in order and each once: what
/// follows `markdownlint-disable`, cut at the spaces.
pub open spec fn lint_codes(text: Seq<char>) -> Option<Seq<Seq<char>>> {
    match pattern_captures(LINT_PATTERN@, text) {
        Some(groups) => Some(sorted_codes(split_spec(trim_spec(group_text(groups, 1)), ' '))),
        None => None,
    }
}

/// What the head of a changelog gives, and the token after it.
pub struct MetaView {
    pub lint: Option<Seq<Seq<char>>>,
    pub flag: Option<Seq<char>>,
    pub title: Option<Seq<char>>,
    pub description: Option<Seq<char>>,
    pub next: int,
}

/// The head of a changelog: a lint directive, a flag, a title and a
/// description, each of which may be missing. A lint directive without
/// rule codes is an error.
pub open spec fn meta_spec(tokens: Seq<TokenView>) -> Result<MetaView, ErrorView> {
    let has_lint = at_kind(tokens, 0, TokenKind::Lint);
    if has_lint && lint_codes(first_line(tokens[0])) is None {
        Err(ErrorView::LintDirective { line: tokens[0].line })
    } else {
        let lint = if has_lint {
            lint_codes(first_line(tokens[0]))
        } else {
            None
        };
        let i1: int = if has_lint {
            1
        } else {
            0
        };
        let has_flag = at_kind(tokens, i1, TokenKind::Flag);
        let i2 = if has_flag {
            i1 + 1
        } else {
            i1
        };
        let has_title = at_kind(tokens, i2, TokenKind::H1);
        let i3 = if has_title {
            i2 + 1
        } else {
            i2
        };
        Ok(
            MetaView {
                lint,
                flag: if has_flag {
                    Some(content_text(tokens[i1]))
                } else {
                    None
                },
                title: if has_title {
                    Some(content_text(tokens[i2]))
                } else {
                    None
                },
                description: text_run(tokens, i3),
                next: run_end(tokens, i3),
            },
        )
    }
}

/// What the heading of a release says.
pub struct HeadingView {
    pub version: Option<VersionView>,
    pub date: Option<Date>,
    pub yanked: bool,
}

/// What the heading of a release says. In lower case it is either a dated
/// release, whose label must be a version and whose date a date, or it
/// holds the word "unreleased", with or without a label that must then be
/// a version. The mark `[yanked]` anywhere in it withdraws the release.
pub open spec fn heading_spec(heading: Seq<char>, line: nat, kind: TokenKind) -> Result<
    HeadingView,
    ErrorView,
> {
    let lower = str_lowercase(heading);
    let yanked = contains_spec(lower, "[yanked]"@);
    match pattern_captures(RELEASE_PATTERN@, lower) {
        Some(groups) => {
            let label = trim_spec(group_text(groups, 1));
            let day = trim_spec(group_text(groups, 2));
            match parse_spec(label) {
                Some(v) => match chrono_parse(day, DATE_FORMAT@) {
                    Some(d) => Ok(
                        HeadingView { version: Some(v), date: Some(date_of(d)), yanked },
                    ),
                    None => Err(ErrorView::Date { line, text: day }),
                },
                None => Err(ErrorView::Version { line, text: label }),
            }
        },
        None => if contains_spec(lower, "unreleased"@) {
            match pattern_captures(UNRELEASED_PATTERN@, lower) {
                Some(groups) => {
                    let label = trim_spec(group_text(groups, 1));
                    match parse_spec(label) {
                        Some(v) => Ok(HeadingView { version: Some(v), date: None, yanked }),
                        None => Err(ErrorView::Version { line, text: label }),
                    }
                },
                None => Ok(HeadingView { version: None, date: None, yanked }),
            }
        } else {
            Err(ErrorView::ReleaseHeading { line, kind, content: heading })
        },
    }
}

/// The changes of a release from the token `idx` on, and the token after
/// them: a heading of level 3 names the kind of the list items that
/// follow it, and must name one of the six kinds.
pub open spec fn changes_from(
    tokens: Seq<TokenView>,
    idx: int,
    kind: Option<ChangeKind>,
    acc: ChangesView,
) -> Result<(ChangesView, int), ErrorView>
    decreases tokens.len() - idx,
{
    if at_kind(tokens, idx, TokenKind::H3) {
        match kind_of(kind_text(tokens[idx].content)) {
            Some(k) => changes_from(tokens, idx + 1, Some(k), acc),
            None => Err(
                ErrorView::ChangeKind {
                    line: tokens[idx].line,
                    content: kind_text(tokens[idx].content),
                },
            ),
        }
    } else if at_kind(tokens, idx, TokenKind::Li) && kind is Some {
        changes_from(tokens, idx + 1, kind, acc.with(kind->0, content_text(tokens[idx])))
    } else {
        Ok((acc, idx))
    }
}

/// The release that the heading at `idx` opens, and the token after it.
pub open spec fn release_at(tokens: Seq<TokenView>, idx: int) -> Result<
    (ReleaseView, int),
    ErrorView,
> {
    match heading_spec(content_text(tokens[idx]), tokens[idx].line, tokens[idx].kind) {
        Ok(heading) => match changes_from(
            tokens,
            run_end(tokens, idx + 1),
            None,
            ChangesView::empty(),
        ) {
            Ok((changes, next)) => Ok(
                (
                    ReleaseView {
                        version: heading.version,
                        yanked: heading.yanked,
                        description: text_run(tokens, idx + 1),
                        date: heading.date,
                        changes,
                    },
                    next,
                ),
            ),
            Err(e) => Err(e),
        },
        Err(e) => Err(e),
    }
}

/// The changes of a release end at or after their beginning, within the
/// tokens.
pub proof fn lemma_changes_from(
    tokens: Seq<TokenView>,
    idx: int,
    kind: Option<ChangeKind>,
    acc: ChangesView,
)
    requires
        0 <= idx <= tokens.len(),
    ensures
        changes_from(tokens, idx, kind, acc) matches Ok((_, next)) ==> idx <= next <= tokens.len(),
    decreases tokens.len() - idx,
{
    if at_kind(tokens, idx, TokenKind::H3) {
        match kind_of(kind_text(tokens[idx].content)) {
            Some(k) => lemma_changes_from(tokens, idx + 1, Some(k), acc),
            None => {},
        }
    } else if at_kind(tokens, idx, TokenKind::Li) && kind is Some {
        lemma_changes_from(tokens, idx + 1, kind, acc.with(kind->0, content_text(tokens[idx])));
    }
}

/// A release ends after its heading, within the tokens.
pub proof fn lemma_release_at(tokens: Seq<TokenView>, idx: int)
    requires
        0 <= idx < tokens.len(),
    ensures
        release_at(tokens, idx) matches Ok((_, next)) ==> idx < next <= tokens.len(),
{
    lemma_run_end(tokens, idx + 1);
    lemma_changes_from(tokens, run_end(tokens, idx + 1), None, ChangesView::empty());
}

/// The releases from the token `idx` on, in the order of the source, and
/// the token after them: each heading of level 2 opens one.
pub open spec fn releases_from(tokens: Seq<TokenView>, idx: int) -> Result<
    (Seq<ReleaseView>, int),
    ErrorView,
>
    decreases tokens.len() - idx,
{
    if at_kind(tokens, idx, TokenKind::H2) {
        match release_at(tokens, idx) {
            Ok((release, next)) => {
                proof {
                    lemma_release_at(tokens, idx);
                }
                match releases_from(tokens, next) {
                    Ok((rest, end)) => Ok((seq![release] + rest, end)),
                    Err(e) => Err(e),
                }
            },
            Err(e) => Err(e),
        }
    } else {
        Ok((Seq::<ReleaseView>::empty(), idx))
    }
}

/// The texts of the link tokens.
pub open spec fn link_lines(links: Seq<TokenView>) -> Seq<Seq<char>> {
    links.map_values(|t: TokenView| content_text(t))
}

/// The URL of the repository as the links tell it: what stands before
/// `/compare/` in the first link, at or after `k`, that compares two
/// references.
pub open spec fn inferred_url(lines: Seq<Seq<char>>, k: int) -> Option<Seq<char>>
    decreases lines.len() - k,
{
    if k < 0 || k >= lines.len() {
        None
    } else {
        match pattern_captures(COMPARE_LINK_PATTERN@, lines[k]) {
            Some(groups) => Some(group_text(groups, 1)),
            None => inferred_url(lines, k + 1),
        }
    }
}

/// The footer and the token after it: a horizontal rule at `idx` makes
/// everything behind it the footer.
pub open spec fn footer_spec(tokens: Seq<TokenView>, idx: int) -> (Option<Seq<char>>, int) {
    if at_kind(tokens, idx, TokenKind::Hr) {
        (
            Some(join_spec(run_lines(tokens, idx + 1, tokens.len() as int), "\n"@)),
            tokens.len() as int,
        )
    } else {
        (None, idx)
    }
}

/// The changelog that tokens make, given whether the source was compact
/// and what the caller settled.
///
/// The links are read on their own. The other tokens are walked in the
/// order of the grammar, and every one of them must be used up. The first
/// error ends the parse. The releases come out in the order of a
/// changelog. Where the caller names no repository, the links may tell it;
/// where the caller names no head reference, it is "HEAD".
pub open spec fn parse_tokens_spec(compact: bool, tokens: Seq<TokenView>, opts: OptionsView)
    -> Result<ChangelogView, ErrorView> {
    let main = select_links(tokens, false);
    let lines = link_lines(select_links(tokens, true));
    if !parser_patterns_compile() {
        Err(ErrorView::Pattern)
    } else {
        match meta_spec(main) {
            Ok(meta) => match releases_from(main, meta.next) {
                Ok((releases, after)) => match parse_links_spec(lines) {
                    Ok(links) => {
                        let (footer, end) = footer_spec(main, after);
                        if end != main.len() {
                            Err(
                                ErrorView::UnexpectedTokens {
                                    tokens: main.skip(end),
                                    index: end as nat,
                                    count: main.len(),
                                },
                            )
                        } else {
                            Ok(
                                ChangelogView {
                                    lint: meta.lint,
                                    flag: meta.flag,
                                    title: meta.title,
                                    description: meta.description,
                                    head: match opts.head {
                                        Some(head) => head,
                                        None => "HEAD"@,
                                    },
                                    footer,
                                    url: match opts.url {
                                        Some(url) => Some(url),
                                        None => inferred_url(lines, 0),
                                    },
                                    releases: sorted_releases(releases),
                                    links,
                                    tag_prefix: opts.tag_prefix,
                                    compact,
                                },
                            )
                        }
                    },
                    Err(e) => Err(e),
                },
                Err(e) => Err(e),
            },
            Err(e) => Err(e),
        }
    }
}

/// Whatever changelog tokens make, its releases stand in the order of a
/// changelog and no lint rule is switched off twice.
pub proof fn lemma_parse_well_formed(compact: bool, tokens: Seq<TokenView>, opts: OptionsView)
    ensures
        parse_tokens_spec(compact, tokens, opts) matches Ok(c) ==> c.well_formed(),
{
    let main = select_links(tokens, false);
    match meta_spec(main) {
        Ok(meta) => match releases_from(main, meta.next) {
            Ok((releases, after)) => {
                lemma_sorted_releases(releases);
                if at_kind(main, 0, TokenKind::Lint) {
                    match pattern_captures(LINT_PATTERN@, first_line(main[0])) {
                        Some(groups) => {
                            lemma_sorted_codes(split_spec(trim_spec(group_text(groups, 1)), ' '));
                        },
                        None => {},
                    }
                }
            },
            Err(e) => {},
        },
        Err(e) => {},
    }
}

/// The changelog that a text spells.
pub open spec fn parse_changelog_spec(markdown: Seq<char>, opts: OptionsView) -> Result<
    ChangelogView,
    ErrorView,
> {
    if !tokenizer_patterns_compile() {
        Err(ErrorView::Pattern)
    } else {
        parse_tokens_spec(tokenize_spec(markdown).0, tokenize_spec(markdown).1, opts)
    }
}

/// What the caller settled; nothing where there are no options.
pub open spec fn options_view(opts: Option<ChangelogParseOptions>) -> OptionsView {
    match opts {
        Some(o) => o@,
        None => OptionsView { url: None, tag_prefix: None, head: None },
    }
}

/// Results by what they hold.
pub open spec fn changelog_result_view(r: Result<Changelog, Error>) -> Result<
    ChangelogView,
    ErrorView,
> {
    match r {
        Ok(c) => Ok(c@),
        Err(e) => Err(e@),
    }
}

/// Whether the regex engine accepts the patterns that the parser uses.
pub(crate) fn check_parser_patterns() -> (r: bool)
    ensures
        r == parser_patterns_compile(),
{
    is_match(RELEASE_PATTERN, "").is_some() && is_match(UNRELEASED_PATTERN, "").is_some()
        && is_match(COMPARE_LINK_PATTERN, "").is_some() && is_match(LINT_PATTERN, "").is_some()
}

/// The tokens that are links, and the others, each in their order.
pub fn partition_links(tokens: &Vec<Token>) -> (r: (Vec<Token>, Vec<Token>))
    ensures
        token_views(r.0@) == select_links(token_views(tokens@), true),
        token_views(r.1@) == select_links(token_views(tokens@), false),
{
    let ghost all = token_views(tokens@);
    let mut links: Vec<Token> = Vec::new();
    let mut main: Vec<Token> = Vec::new();
    let mut i: usize = 0;
    assert(all.take(0) == Seq::<TokenView>::empty());
    assert(token_views(links@) == Seq::<TokenView>::empty());
    assert(token_views(main@) == Seq::<TokenView>::empty());
    while i < tokens.len()
        invariant
            i <= tokens.len(),
            all == token_views(tokens@),
            token_views(links@) == select_links(all.take(i as int), true),
            token_views(main@) == select_links(all.take(i as int), false),
        decreases tokens.len() - i,
    {
        proof {
            let upto = all.take(i + 1);
            assert(upto.drop_last() == all.take(i as int));
            assert(upto.last() == tokens@[i as int]@);
        }
        let t = tokens[i].copy();
        if t.kind == TokenKind::Link {
            assert(token_views(links@.push(t)) == token_views(links@).push(t@));
            links.push(t);
        } else {
            assert(token_views(main@.push(t)) == token_views(main@).push(t@));
            main.push(t);
        }
        i += 1;
    }
    assert(all.take(i as int) == all);
    (links, main)
}

/// What a heading's reading holds.
pub open spec fn heading_result_view(r: Result<(Option<Version>, Option<Date>, bool), Error>)
    -> Result<HeadingView, ErrorView> {
    match r {
        Ok((version, date, yanked)) => Ok(
            HeadingView { version: crate::release::opt_version(version), date, yanked },
        ),
        Err(e) => Err(e@),
    }
}

/// What the heading of a release says: its version, its date, and whether
/// the release was withdrawn.
pub(crate) fn parse_heading(heading: &str, line: usize, kind: TokenKind) -> (r: Result<
    (Option<Version>, Option<Date>, bool),
    Error,
>)
    requires
        parser_patterns_compile(),
    ensures
        heading_result_view(r) == heading_spec(heading@, line as nat, kind),
{
    let lower = lowercase(heading);
    let yanked = contains(lower.as_str(), "[yanked]");
    match captures(RELEASE_PATTERN, lower.as_str()).unwrap() {
        Some(groups) => {
            let label = trim(group(&groups, 1).as_str());
            let day = trim(group(&groups, 2).as_str());
            let version = match Version::parse(label.as_str()) {
                Some(v) => v,
                None => {
                    return Err(Error::Version { line, text: label });
                },
            };
            let date = match Date::parse(day.as_str(), DATE_FORMAT) {
                Some(d) => d,
                None => {
                    return Err(Error::Date { line, text: day });
                },
            };
            Ok((Some(version), Some(date), yanked))
        },
        None => {
            if !contains(lower.as_str(), "unreleased") {
                return Err(Error::ReleaseHeading { line, kind, content: heading.to_owned() });
            }
            match captures(UNRELEASED_PATTERN, lower.as_str()).unwrap() {
                Some(groups) => {
                    let label = trim(group(&groups, 1).as_str());
                    match Version::parse(label.as_str()) {
                        Some(v) => Ok((Some(v), None, yanked)),
                        None => Err(Error::Version { line, text: label }),
                    }
                },
                None => Ok((None, None, yanked)),
            }
        },
    }
}

/// The rule codes of a lint directive, in order and each once.
pub(crate) fn parse_lint_codes(text: &str) -> (r: Option<Vec<String>>)
    requires
        parser_patterns_compile(),
    ensures
        crate::changelog::opt_texts(r) == lint_codes(text@),
{
    match captures(LINT_PATTERN, text).unwrap() {
        Some(groups) => {
            let listed = trim(group(&groups, 1).as_str());
            Some(sort_codes(&split(listed.as_str(), ' ')))
        },
        None => None,
    }
}

/// A token of running text as a line of a description.
pub fn token_line(t: &Token) -> (r: String)
    ensures
        r@ == text_line(t@),
{
    if t.kind == TokenKind::Li {
        let mut out = "- ".to_owned();
        out.append(join(&t.content, "\n").as_str());
        out
    } else {
        join(&t.content, "\n")
    }
}

/// The first line of a token's text; empty where it has none.
pub fn token_first_line(t: &Token) -> (r: String)
    ensures
        r@ == first_line(t@),
{
    if t.content.len() > 0 {
        t.content[0].clone()
    } else {
        "".to_owned()
    }
}

/// Whether `kinds` holds `kind`.
pub fn holds_kind(kinds: &Vec<TokenKind>, kind: TokenKind) -> (r: bool)
    ensures
        r == kinds@.contains(kind),
{
    let mut i: usize = 0;
    while i < kinds.len()
        invariant
            i <= kinds.len(),
            forall|k: int| 0 <= k < i ==> kinds@[k] != kind,
        decreases kinds.len() - i,
    {
        if kinds[i] == kind {
            return true;
        }
        i += 1;
    }
    false
}

/// The URL of the repository as the links tell it.
pub(crate) fn infer_url(lines: &Vec<String>) -> (r: Option<String>)
    requires
        parser_patterns_compile(),
    ensures
        opt_text(r) == inferred_url(texts(lines@), 0),
{
    let mut i: usize = 0;
    while i < lines.len()
        invariant
            i <= lines.len(),
            parser_patterns_compile(),
            inferred_url(texts(lines@), 0) == inferred_url(texts(lines@), i as int),
        decreases lines.len() - i,
    {
        match captures(COMPARE_LINK_PATTERN, lines[i].as_str()).unwrap() {
            Some(groups) => {
                return Some(group(&groups, 1));
            },
            None => {},
        }
        i += 1;
    }
    None
}

/// The parser: the changelog in the making, the tokens without the links,
/// what the caller settled, and the cursor.
#[derive(Debug)]
pub struct Parser {
    pub builder: ChangelogBuilder,
    pub tokens: Vec<Token>,
    pub opts: ChangelogParseOptions,
    pub idx: usize,
}

/// The releases `acc` before the releases that `rest` gives.
pub open spec fn prepend_releases(
    acc: Seq<ReleaseView>,
    rest: Result<(Seq<ReleaseView>, int), ErrorView>,
) -> Result<(Seq<ReleaseView>, int), ErrorView> {
    match rest {
        Ok((releases, end)) => Ok((acc + releases, end)),
        Err(e) => Err(e),
    }
}

impl Parser {
    /// What the parser's tokens hold.
    pub open spec fn views(&self) -> Seq<TokenView> {
        token_views(self.tokens@)
    }

    /// What the changelog in the making holds.
    pub open spec fn made(&self) -> ChangelogView {
        self.builder.changelog@
    }

    /// The changelog that `markdown` spells.
    pub fn parse(markdown: String, opts: Option<ChangelogParseOptions>) -> (r: Result<
        Changelog,
        Error,
    >)
        ensures
            changelog_result_view(r) == parse_changelog_spec(markdown@, options_view(opts)),
            r matches Ok(c) ==> c@.well_formed(),
    {
        match tokenize(markdown) {
            Ok((compact, tokens)) => Parser::parse_tokens(compact, tokens, opts),
            Err(e) => Err(e),
        }
    }

    /// The changelog that `tokens` make, given whether the source was
    /// compact.
    pub fn parse_tokens(compact: bool, tokens: Vec<Token>, opts: Option<ChangelogParseOptions>)
        -> (r: Result<Changelog, Error>)
        ensures
            changelog_result_view(r) == parse_tokens_spec(
                compact,
                token_views(tokens@),
                options_view(opts),
            ),
            r matches Ok(c) ==> c@.well_formed(),
    {
        proof {
            lemma_parse_well_formed(compact, token_views(tokens@), options_view(opts));
        }
        if !check_parser_patterns() {
            return Err(Error::Pattern);
        }
        let (links, main) = partition_links(&tokens);
        let opts = match opts {
            Some(o) => o,
            None => ChangelogParseOptions::new(),
        };
        let mut parser = Parser { builder: ChangelogBuilder::new(), tokens: main, opts, idx: 0 };
        parser.parse_opts();
        match parser.parse_meta() {
            Ok(()) => {},
            Err(e) => {
                return Err(e);
            },
        }
        match parser.parse_releases() {
            Ok(()) => {},
            Err(e) => {
                return Err(e);
            },
        }
        match parser.parse_links(links) {
            Ok(()) => {},
            Err(e) => {
                return Err(e);
            },
        }
        parser.parse_footer();
        parser.parse_compact(compact);
        parser.build()
    }

    /// Hands what the caller settled to the changelog in the making.
    fn parse_opts(&mut self)
        ensures
            final(self).made() == (ChangelogView {
                url: old(self).opts@.url,
                tag_prefix: old(self).opts@.tag_prefix,
                head: match old(self).opts@.head {
                    Some(head) => head,
                    None => old(self).made().head,
                },
                ..old(self).made()
            }),
            final(self).tokens == old(self).tokens,
            final(self).opts == old(self).opts,
            final(self).idx == old(self).idx,
    {
        self.builder.url(crate::text::copy_opt_text(&self.opts.url));
        self.builder.tag_prefix(crate::text::copy_opt_text(&self.opts.tag_prefix));
        if let Some(head) = &self.opts.head {
            self.builder.head(head.clone());
        }
    }

    /// The text of the token under the cursor, and the token itself, which
    /// is used up if it is of one of `kinds`.
    fn get_content(&mut self, kinds: Vec<TokenKind>) -> (r: (Option<String>, Option<Token>))
        ensures
            *final(self) == (Parser { idx: final(self).idx, ..*old(self) }),
            final(self).idx == (if takes(old(self).views(), old(self).idx as int, kinds@) {
                old(self).idx + 1
            } else {
                old(self).idx as int
            }),
            opt_text(r.0) == (if takes(old(self).views(), old(self).idx as int, kinds@) {
                Some(content_text(old(self).views()[old(self).idx as int]))
            } else {
                None
            }),
            match r.1 {
                Some(t) => old(self).idx < old(self).tokens.len() && t@ == old(self).views()[old(
                    self,
                ).idx as int],
                None => old(self).idx >= old(self).tokens.len(),
            },
    {
        if self.idx >= self.tokens.len() {
            return (None, None);
        }
        let token = self.tokens[self.idx].copy();
        if !holds_kind(&kinds, token.kind) {
            return (None, Some(token));
        }
        self.idx += 1;
        (Some(join(&token.content, "\n")), Some(token))
    }

    /// The text of the run of paragraphs and list items under the cursor,
    /// which is used up.
    fn get_text_content(&mut self) -> (r: Option<String>)
        ensures
            *final(self) == (Parser { idx: final(self).idx, ..*old(self) }),
            final(self).idx == run_end(old(self).views(), old(self).idx as int),
            old(self).idx <= old(self).tokens.len() ==> final(self).idx <= final(self).tokens.len(),
            opt_text(r) == text_run(old(self).views(), old(self).idx as int),
    {
        let ghost views = self.views();
        let ghost start = self.idx as int;
        let mut lines: Vec<String> = Vec::new();
        assert(texts(lines@) =~= run_lines(views, start, start));
        while self.idx < self.tokens.len() && (self.tokens[self.idx].kind == TokenKind::P
            || self.tokens[self.idx].kind == TokenKind::Li)
            invariant
                *self == (Parser { idx: self.idx, ..*old(self) }),
                views == self.views(),
                start <= self.idx,
                self.idx <= self.tokens.len() || self.idx == start,
                run_end(views, start) == run_end(views, self.idx as int),
                texts(lines@) == run_lines(views, start, self.idx as int),
            decreases self.tokens.len() - self.idx,
        {
            let line = token_line(&self.tokens[self.idx]);
            proof {
                lemma_texts_push(lines@, line);
                assert(run_lines(views, start, self.idx as int).push(line@) =~= run_lines(
                    views,
                    start,
                    self.idx + 1,
                ));
            }
            lines.push(line);
            self.idx += 1;
        }
        if lines.len() == 0 {
            return None;
        }
        Some(join(&lines, "\n"))
    }

    /// The rule codes of the lint directive under the cursor, which is
    /// used up. A directive without rule codes is an error, and the cursor
    /// stays.
    fn get_lint_content(&mut self) -> (r: Result<(Option<Vec<String>>, Option<Token>), Error>)
        requires
            parser_patterns_compile(),
        ensures
            ({
                let views = old(self).views();
                let at = old(self).idx as int;
                let is_lint = at_kind(views, at, TokenKind::Lint);
                match r {
                    Ok((codes, _)) => *final(self) == (Parser {
                        idx: final(self).idx,
                        ..*old(self)
                    }) && if is_lint {
                        lint_codes(first_line(views[at])) is Some && crate::changelog::opt_texts(
                            codes,
                        ) == lint_codes(first_line(views[at])) && final(self).idx == at + 1
                    } else {
                        codes is None && final(self).idx == at
                    },
                    Err(e) => is_lint && lint_codes(first_line(views[at])) is None && e@
                        == (ErrorView::LintDirective { line: views[at].line }) && *final(self)
                        == *old(self),
                }
            }),
    {
        if self.idx >= self.tokens.len() {
            return Ok((None, None));
        }
        let token = self.tokens[self.idx].copy();
        if token.kind != TokenKind::Lint {
            return Ok((None, Some(token)));
        }
        match parse_lint_codes(token_first_line(&token).as_str()) {
            Some(codes) => {
                self.idx += 1;
                Ok((Some(codes), Some(token)))
            },
            None => Err(Error::LintDirective { line: token.line }),
        }
    }

    /// Reads the head of the changelog: lint directive, flag, title and
    /// description.
    fn parse_meta(&mut self) -> (r: Result<(), Error>)
        requires
            parser_patterns_compile(),
            old(self).idx == 0,
        ensures
            match meta_spec(old(self).views()) {
                Ok(meta) => r is Ok && final(self).idx == meta.next && meta.next <= old(
                    self,
                ).tokens.len() && final(self).made() == (ChangelogView {
                    lint: meta.lint,
                    flag: meta.flag,
                    title: meta.title,
                    description: meta.description,
                    ..old(self).made()
                }) && final(self).tokens == old(self).tokens && final(self).opts == old(
                    self,
                ).opts,
                Err(e) => r matches Err(x) && x@ == e && *final(self) == *old(self),
            },
    {
        let lint = match self.get_lint_content() {
            Ok((lint, _)) => lint,
            Err(e) => {
                return Err(e);
            },
        };
        let mut flags: Vec<TokenKind> = Vec::new();
        flags.push(TokenKind::Flag);
        let mut titles: Vec<TokenKind> = Vec::new();
        titles.push(TokenKind::H1);
        proof {
            assert(forall|k: TokenKind| flags@.contains(k) <==> k == TokenKind::Flag) by {
                assert(flags@[0] == TokenKind::Flag);
            }
            assert(forall|k: TokenKind| titles@.contains(k) <==> k == TokenKind::H1) by {
                assert(titles@[0] == TokenKind::H1);
            }
        }
        let (flag, _) = self.get_content(flags);
        let (title, _) = self.get_content(titles);
        let description = self.get_text_content();
        self.builder.lint(lint);
        self.builder.flag(flag);
        self.builder.title(title);
        self.builder.description(description);
        Ok(())
    }

    /// Reads the release whose heading is under the cursor.
    fn parse_release(&mut self) -> (r: Result<Release, Error>)
        requires
            parser_patterns_compile(),
            at_kind(old(self).views(), old(self).idx as int, TokenKind::H2),
        ensures
            final(self).tokens == old(self).tokens,
            final(self).opts == old(self).opts,
            final(self).builder == old(self).builder,
            match release_at(old(self).views(), old(self).idx as int) {
                Ok((release, next)) => r matches Ok(x) && x@ == release && final(self).idx == next,
                Err(e) => r matches Err(x) && x@ == e,
            },
    {
        let ghost views = self.views();
        let ghost at = self.idx as int;
        assert(views.len() == self.tokens.len());
        let heading_token = &self.tokens[self.idx];
        let heading = join(&heading_token.content, "\n");
        let (version, date, yanked) = match parse_heading(
            heading.as_str(),
            heading_token.line,
            heading_token.kind,
        ) {
            Ok(parts) => parts,
            Err(e) => {
                return Err(e);
            },
        };
        self.idx += 1;
        let mut builder = Release::builder();
        builder.yanked(yanked);
        if let Some(v) = version {
            builder.version(v);
        }
        if let Some(d) = date {
            builder.date(d);
        }
        builder.description(self.get_text_content());
        proof {
            lemma_run_end(views, at + 1);
        }
        let ghost start = self.idx as int;
        let ghost base = builder.release@;
        let mut kind_token: Option<Token> = None;
        let ghost mut kind: Option<ChangeKind> = None;
        loop
            invariant
                parser_patterns_compile(),
                *self == (Parser { idx: self.idx, ..*old(self) }),
                views == self.views(),
                views == old(self).views(),
                at == old(self).idx,
                release_at(views, at) == (match changes_from(
                    views,
                    start,
                    None,
                    ChangesView::empty(),
                ) {
                    Ok((changes, next)) => Ok::<(ReleaseView, int), ErrorView>(
                        (ReleaseView { changes, ..base }, next),
                    ),
                    Err(e) => Err::<(ReleaseView, int), ErrorView>(e),
                }),
                start <= self.idx <= self.tokens.len(),
                base.changes == ChangesView::empty(),
                builder.release@ == (ReleaseView { changes: builder.release@.changes, ..base }),
                changes_from(views, start, None, ChangesView::empty()) == changes_from(
                    views,
                    self.idx as int,
                    kind,
                    builder.release@.changes,
                ),
                match kind_token {
                    Some(t) => kind_of(kind_text(t@.content)) == kind && kind is Some,
                    None => kind is None,
                },
            ensures
                changes_from(views, self.idx as int, kind, builder.release@.changes) == Ok::<
                    (ChangesView, int),
                    ErrorView,
                >((builder.release@.changes, self.idx as int)),
            decreases self.tokens.len() - self.idx,
        {
            if self.idx >= self.tokens.len() {
                break;
            }
            let token = self.tokens[self.idx].copy();
            if token.kind == TokenKind::H3 {
                let name = lowercase(join(&token.content, "\n").as_str());
                match ChangeKind::from_str(name.as_str()) {
                    Some(k) => {
                        proof {
                            kind = Some(k);
                        }
                        kind_token = Some(token);
                    },
                    None => {
                        return Err(Error::ChangeKind { line: token.line, content: name });
                    },
                }
                self.idx += 1;
            } else if token.kind == TokenKind::Li && kind_token.is_some() {
                let heading = match &kind_token {
                    Some(t) => t.copy(),
                    None => token.copy(),
                };
                match builder.add_change(heading, token) {
                    Ok(_) => {},
                    Err(e) => {
                        return Err(e);
                    },
                }
                self.idx += 1;
            } else {
                break;
            }
        }
        builder.build()
    }

    /// Reads the releases, and puts them in the order of a changelog.
    fn parse_releases(&mut self) -> (r: Result<(), Error>)
        requires
            parser_patterns_compile(),
            old(self).idx <= old(self).tokens.len(),
        ensures
            final(self).tokens == old(self).tokens,
            final(self).opts == old(self).opts,
            match releases_from(old(self).views(), old(self).idx as int) {
                Ok((releases, next)) => r is Ok && final(self).idx == next && final(self).idx
                    <= final(self).tokens.len() && final(self).made() == (ChangelogView {
                    releases: sorted_releases(releases),
                    ..old(self).made()
                }),
                Err(e) => r matches Err(x) && x@ == e,
            },
    {
        let ghost views = self.views();
        let ghost start = self.idx as int;
        let mut releases: Vec<Release> = Vec::new();
        assert(release_views(releases@) + Seq::<ReleaseView>::empty() == Seq::<
            ReleaseView,
        >::empty());
        assert(release_views(releases@) =~= Seq::<ReleaseView>::empty());
        proof {
            match releases_from(views, start) {
                Ok((rest, end)) => {
                    assert(Seq::<ReleaseView>::empty() + rest == rest);
                },
                Err(e) => {},
            }
        }
        while self.idx < self.tokens.len() && self.tokens[self.idx].kind == TokenKind::H2
            invariant
                parser_patterns_compile(),
                *self == (Parser { idx: self.idx, ..*old(self) }),
                views == self.views(),
                views == old(self).views(),
                start == old(self).idx,
                self.idx <= self.tokens.len(),
                releases_from(views, start) == prepend_releases(
                    release_views(releases@),
                    releases_from(views, self.idx as int),
                ),
            decreases self.tokens.len() - self.idx,
        {
            let ghost at = self.idx as int;
            let ghost before = release_views(releases@);
            proof {
                lemma_release_at(views, at);
            }
            match self.parse_release() {
                Ok(release) => {
                    proof {
                        assert(release_views(releases@.push(release)) == before.push(release@));
                        match releases_from(views, self.idx as int) {
                            Ok((rest, end)) => {
                                assert(before + (seq![release@] + rest) == before.push(release@)
                                    + rest);
                            },
                            Err(e) => {},
                        }
                    }
                    releases.push(release);
                },
                Err(e) => {
                    return Err(e);
                },
            }
        }
        proof {
            assert(release_views(releases@) + Seq::<ReleaseView>::empty() == release_views(
                releases@,
            ));
        }
        self.builder.releases(releases);
        Ok(())
    }

    /// Reads the links, and takes the URL of the repository from them
    /// where the caller named none.
    fn parse_links(&mut self, tokens: Vec<Token>) -> (r: Result<(), Error>)
        requires
            parser_patterns_compile(),
        ensures
            final(self).tokens == old(self).tokens,
            final(self).opts == old(self).opts,
            final(self).idx == old(self).idx,
            match parse_links_spec(link_lines(token_views(tokens@))) {
                Ok(links) => r is Ok && final(self).made() == (ChangelogView {
                    links,
                    url: if old(self).opts@.url is None && inferred_url(
                        link_lines(token_views(tokens@)),
                        0,
                    ) is Some {
                        inferred_url(link_lines(token_views(tokens@)), 0)
                    } else {
                        old(self).made().url
                    },
                    ..old(self).made()
                }),
                Err(e) => r matches Err(x) && x@ == e,
            },
    {
        let ghost all = link_lines(token_views(tokens@));
        let mut lines: Vec<String> = Vec::new();
        let mut i: usize = 0;
        assert(texts(lines@) =~= all.take(0));
        while i < tokens.len()
            invariant
                i <= tokens.len(),
                all == link_lines(token_views(tokens@)),
                texts(lines@) == all.take(i as int),
            decreases tokens.len() - i,
        {
            let line = join(&tokens[i].content, "\n");
            proof {
                lemma_texts_push(lines@, line);
                assert(all.take(i as int).push(line@) =~= all.take(i + 1));
            }
            lines.push(line);
            i += 1;
        }
        assert(all.take(i as int) == all);
        if self.opts.url.is_none() {
            match infer_url(&lines) {
                Some(url) => {
                    self.builder.url(Some(url));
                },
                None => {},
            }
        }
        match self.builder.links(lines) {
            Ok(_) => Ok(()),
            Err(e) => Err(e),
        }
    }

    /// Reads the footer: everything behind a horizontal rule under the
    /// cursor.
    fn parse_footer(&mut self)
        requires
            old(self).idx <= old(self).tokens.len(),
        ensures
            final(self).tokens == old(self).tokens,
            final(self).opts == old(self).opts,
            final(self).idx == footer_spec(old(self).views(), old(self).idx as int).1,
            final(self).made() == (ChangelogView {
                footer: footer_spec(old(self).views(), old(self).idx as int).0,
                ..old(self).made()
            }),
    {
        if self.idx >= self.tokens.len() || self.tokens[self.idx].kind != TokenKind::Hr {
            self.builder.footer(None);
            return ;
        }
        let ghost views = self.views();
        let ghost start = self.idx + 1;
        self.idx += 1;
        let mut lines: Vec<String> = Vec::new();
        assert(texts(lines@) =~= run_lines(views, start, start));
        while self.idx < self.tokens.len()
            invariant
                old(self).tokens == self.tokens,
                old(self).opts == self.opts,
                self.builder == old(self).builder,
                views == self.views(),
                start <= self.idx <= self.tokens.len(),
                texts(lines@) == run_lines(views, start, self.idx as int),
            decreases self.tokens.len() - self.idx,
        {
            let line = token_line(&self.tokens[self.idx]);
            proof {
                lemma_texts_push(lines@, line);
                assert(run_lines(views, start, self.idx as int).push(line@) =~= run_lines(
                    views,
                    start,
                    self.idx + 1,
                ));
            }
            lines.push(line);
            self.idx += 1;
        }
        self.builder.footer(Some(join(&lines, "\n")));
    }

    /// Records whether the source was compact.
    fn parse_compact(&mut self, compact: bool)
        ensures
            final(self).tokens == old(self).tokens,
            final(self).opts == old(self).opts,
            final(self).idx == old(self).idx,
            final(self).made() == (ChangelogView { compact, ..old(self).made() }),
    {
        self.builder.changelog.compact = compact;
    }

    /// The changelog that was read, if every token was used up.
    fn build(&self) -> (r: Result<Changelog, Error>)
        requires
            self.idx <= self.tokens.len(),
        ensures
            changelog_result_view(r) == (if self.idx != self.tokens.len() {
                Err(
                    ErrorView::UnexpectedTokens {
                        tokens: self.views().skip(self.idx as int),
                        index: self.idx as nat,
                        count: self.tokens.len() as nat,
                    },
                )
            } else {
                Ok(self.made())
            }),
    {
        if self.idx != self.tokens.len() {
            let ghost views = self.views();
            let mut rest: Vec<Token> = Vec::new();
            let mut i: usize = self.idx;
            assert(token_views(rest@) =~= views.subrange(self.idx as int, i as int));
            while i < self.tokens.len()
                invariant
                    self.idx <= i <= self.tokens.len(),
                    views == self.views(),
                    token_views(rest@) == views.subrange(self.idx as int, i as int),
                decreases self.tokens.len() - i,
            {
                let t = self.tokens[i].copy();
                proof {
                    assert(token_views(rest@.push(t)) == token_views(rest@).push(t@));
                    assert(views.subrange(self.idx as int, i as int).push(t@) =~= views.subrange(
                        self.idx as int,
                        i + 1,
                    ));
                }
                rest.push(t);
                i += 1;
            }
            assert(views.subrange(self.idx as int, i as int) =~= views.skip(self.idx as int));
            return Err(
                Error::UnexpectedTokens { tokens: rest, index: self.idx, count: self.tokens.len() },
            );
        }
        self.builder.build()
    }
}

impl Changelog {
    /// The changelog that `markdown` spells.
    pub fn parse(markdown: String, opts: Option<ChangelogParseOptions>) -> (r: Result<
        Changelog,
        Error,
    >)
        ensures
            changelog_result_view(r) == parse_changelog_spec(markdown@, options_view(opts)),
            r matches Ok(c) ==> c@.well_formed(),
    {
        Parser::parse(markdown, opts)
    }
}

} // verus!
