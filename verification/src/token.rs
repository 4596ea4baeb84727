//! The tokenizer: a changelog's text, line by line, as a list of tokens.

use vstd::prelude::*;
use crate::consts::{
    COMMENT_PATTERN, INDENT_PATTERN, LINK_PATTERN, LINK_REF_PATTERN, LINK_URL_PATTERN, PREFIX_H1,
    PREFIX_H2, PREFIX_H3, PREFIX_HR, PREFIX_LI, PREFIX_LI2,
};
use crate::error::{Error, ErrorView};
use crate::pattern::{
    captures, group, group_text, is_match, pattern_captures, pattern_compiles, pattern_matches,
    pattern_replace, replace,
};
use crate::text::{
    lemma_texts_push, skip_chars, split, split_spec, starts_with, texts, trim, trim_end, trim_end_spec, trim_spec,
};

verus! {

/// What a line of a changelog is.
#[derive(Clone, Copy, Debug, PartialEq, Eq, Structural)]
pub enum TokenKind {
    H1,
    H2,
    H3,
    Li,
    P,
    Link,
    Flag,
    Hr,
    Lint,
}

/// The name of a kind of token, as diagnostics print it.
pub open spec fn kind_name(kind: TokenKind) -> Seq<char> {
    match kind {
        TokenKind::H1 => "Heading 1"@,
        TokenKind::H2 => "Heading 2"@,
        TokenKind::H3 => "Heading 3"@,
        TokenKind::Li => "List Item"@,
        TokenKind::P => "Paragraph"@,
        TokenKind::Link => "Link"@,
        TokenKind::Flag => "Flag"@,
        TokenKind::Hr => "Horizontal Rule"@,
        TokenKind::Lint => "Lint"@,
    }
}

impl TokenKind {
    /// The name of the kind, as diagnostics print it.
    pub fn name(&self) -> (r: &'static str)
        ensures
            r@ == kind_name(*self),
    {
        match self {
            TokenKind::H1 => "Heading 1",
            TokenKind::H2 => "Heading 2",
            TokenKind::H3 => "Heading 3",
            TokenKind::Li => "List Item",
            TokenKind::P => "Paragraph",
            TokenKind::Link => "Link",
            TokenKind::Flag => "Flag",
            TokenKind::Hr => "Horizontal Rule",
            TokenKind::Lint => "Lint",
        }
    }
}

/// One token: the line it began on (counted from 1), its kind, and its
/// lines of text.
#[derive(Clone, Debug, PartialEq, Eq)]
pub struct Token {
    pub line: usize,
    pub kind: TokenKind,
    pub content: Vec<String>,
}

/// What a token holds.
#[verifier::ext_equal]
pub struct TokenView {
    pub line: nat,
    pub kind: TokenKind,
    pub content: Seq<Seq<char>>,
}

impl View for Token {
    type V = TokenView;

    open spec fn view(&self) -> TokenView {
        TokenView { line: self.line as nat, kind: self.kind, content: texts(self.content@) }
    }
}

/// What a vector of tokens holds.
pub open spec fn token_views(tokens: Seq<Token>) -> Seq<TokenView> {
    tokens.map_values(|t: Token| t@)
}

impl Token {
    /// A copy of the token.
    pub fn copy(&self) -> (t: Token)
        ensures
            t@ == self@,
    {
        Token { line: self.line, kind: self.kind, content: crate::text::copy_texts(&self.content) }
    }

    /// A token of the given line, kind and text.
    pub fn new(line: usize, kind: TokenKind, content: Vec<String>) -> (t: Token)
        ensures
            t@ == (TokenView { line: line as nat, kind, content: texts(content@) }),
    {
        Token { line, kind, content }
    }
}

/// `s` from its character `start` on, without the whitespace around it.
pub open spec fn substring_spec(s: Seq<char>, start: int) -> Seq<char> {
    if 0 <= start <= s.len() {
        trim_spec(s.skip(start))
    } else {
        Seq::<char>::empty()
    }
}

/// `s` from its character `start` on, without the whitespace around it.
pub fn substring(s: &str, start: usize) -> (r: String)
    ensures
        r@ == substring_spec(s@, start as int),
{
    let rest = skip_chars(s, start);
    if start > s.unicode_len() {
        return rest;
    }
    trim(rest.as_str())
}

/// Whether a line is empty or whitespace only.
pub open spec fn is_blank(s: Seq<char>) -> bool {
    trim_spec(s).len() == 0
}

/// Whether a line is empty or whitespace only.
pub fn is_empty_str(s: &str) -> (r: bool)
    ensures
        r == is_blank(s@),
{
    trim(s).as_str().unicode_len() == 0
}

/// Whether the regex engine accepts the patterns that the tokenizer uses.
pub open spec fn tokenizer_patterns_compile() -> bool {
    &&& pattern_compiles(LINK_PATTERN@)
    &&& pattern_compiles(LINK_REF_PATTERN@)
    &&& pattern_compiles(LINK_URL_PATTERN@)
    &&& pattern_compiles(COMMENT_PATTERN@)
    &&& pattern_compiles(INDENT_PATTERN@)
}

/// What one source line gives: a token's kind and first line of text, or
/// nothing, and whether the next source line is used up with it.
pub struct LineResult {
    pub token: Option<(TokenKind, Seq<char>)>,
    pub takes_next: bool,
}

/// The text inside a comment line, recognised as a lint directive or a flag.
pub open spec fn classify_comment(inner: Seq<char>) -> (TokenKind, Seq<char>) {
    if "markdownlint-disable"@.is_prefix_of(inner) {
        (TokenKind::Lint, inner)
    } else {
        (TokenKind::Flag, inner)
    }
}

/// The token of one source line, given the source line after it. The tests
/// are made in this order: rule, headings of level 1 to 3, list item, link
/// on one line, link on two lines, comment; anything else is a paragraph.
pub open spec fn classify(line: Seq<char>, next: Option<Seq<char>>) -> LineResult {
    if PREFIX_HR@.is_prefix_of(line) {
        LineResult { token: Some((TokenKind::Hr, "-"@)), takes_next: false }
    } else if PREFIX_H1@.is_prefix_of(line) {
        LineResult { token: Some((TokenKind::H1, substring_spec(line, 1))), takes_next: false }
    } else if PREFIX_H2@.is_prefix_of(line) {
        LineResult { token: Some((TokenKind::H2, substring_spec(line, 2))), takes_next: false }
    } else if PREFIX_H3@.is_prefix_of(line) {
        LineResult { token: Some((TokenKind::H3, substring_spec(line, 3))), takes_next: false }
    } else if PREFIX_LI@.is_prefix_of(line) || PREFIX_LI2@.is_prefix_of(line) {
        LineResult { token: Some((TokenKind::Li, substring_spec(line, 1))), takes_next: false }
    } else if pattern_matches(LINK_PATTERN@, line) {
        LineResult { token: Some((TokenKind::Link, trim_spec(line))), takes_next: false }
    } else if pattern_matches(LINK_REF_PATTERN@, line) {
        match next {
            Some(url) => if pattern_matches(LINK_URL_PATTERN@, url) {
                LineResult {
                    token: Some((TokenKind::Link, trim_spec(line) + "\n"@ + trim_end_spec(url))),
                    takes_next: true,
                }
            } else {
                LineResult { token: None, takes_next: false }
            },
            None => LineResult { token: None, takes_next: false },
        }
    } else {
        match pattern_captures(COMMENT_PATTERN@, line) {
            Some(groups) => LineResult {
                token: Some(classify_comment(trim_spec(group_text(groups, 1)))),
                takes_next: false,
            },
            None => LineResult {
                token: Some((TokenKind::P, trim_end_spec(line))),
                takes_next: false,
            },
        }
    }
}

/// What `classify_line` hands back, by its texts.
pub open spec fn line_result_view(token: Option<(TokenKind, String)>, takes_next: bool)
    -> LineResult {
    LineResult {
        token: match token {
            Some((kind, text)) => Some((kind, text@)),
            None => None,
        },
        takes_next,
    }
}

/// The token of one source line, given the source line after it.
pub(crate) fn classify_line(line: &str, next: Option<&String>) -> (r: (
    Option<(TokenKind, String)>,
    bool,
))
    requires
        tokenizer_patterns_compile(),
    ensures
        line_result_view(r.0, r.1) == classify(
            line@,
            match next {
                Some(n) => Some(n@),
                None => None,
            },
        ),
{
    if starts_with(line, PREFIX_HR) {
        return (Some((TokenKind::Hr, "-".to_owned())), false);
    }
    if starts_with(line, PREFIX_H1) {
        return (Some((TokenKind::H1, substring(line, 1))), false);
    }
    if starts_with(line, PREFIX_H2) {
        return (Some((TokenKind::H2, substring(line, 2))), false);
    }
    if starts_with(line, PREFIX_H3) {
        return (Some((TokenKind::H3, substring(line, 3))), false);
    }
    if starts_with(line, PREFIX_LI) || starts_with(line, PREFIX_LI2) {
        return (Some((TokenKind::Li, substring(line, 1))), false);
    }
    if is_match(LINK_PATTERN, line).unwrap() {
        return (Some((TokenKind::Link, trim(line))), false);
    }
    if is_match(LINK_REF_PATTERN, line).unwrap() {
        if let Some(url) = next {
            if is_match(LINK_URL_PATTERN, url.as_str()).unwrap() {
                let mut joined = trim(line);
                joined.append("\n");
                joined.append(trim_end(url.as_str()).as_str());
                return (Some((TokenKind::Link, joined)), true);
            }
        }
        return (None, false);
    }
    match captures(COMMENT_PATTERN, line).unwrap() {
        Some(groups) => {
            let inner = trim(group(&groups, 1).as_str());
            if starts_with(inner.as_str(), "markdownlint-disable") {
                (Some((TokenKind::Lint, inner)), false)
            } else {
                (Some((TokenKind::Flag, inner)), false)
            }
        },
        None => (Some((TokenKind::P, trim_end(line))), false),
    }
}

/// The tokens of the source lines from line `i` on; `blanked` says that
/// line `i` was used up by the line before it and counts as empty.
pub open spec fn extract_from(lines: Seq<Seq<char>>, i: int, blanked: bool) -> Seq<TokenView>
    decreases lines.len() - i,
{
    if i < 0 || i >= lines.len() {
        Seq::<TokenView>::empty()
    } else {
        let line = if blanked {
            Seq::<char>::empty()
        } else {
            lines[i]
        };
        let next = if i + 1 < lines.len() {
            Some(lines[i + 1])
        } else {
            None
        };
        let found = classify(line, next);
        let rest = extract_from(lines, i + 1, found.takes_next);
        match found.token {
            Some((kind, text)) => seq![
                TokenView { line: (i + 1) as nat, kind, content: seq![text] },
            ] + rest,
            None => rest,
        }
    }
}

/// The source lines of a changelog: its text without the whitespace around
/// it, cut at the line feeds.
pub open spec fn source_lines(markdown: Seq<char>) -> Seq<Seq<char>> {
    split_spec(trim_spec(markdown), '\n')
}

/// The tokens of the source lines, one line of text each.
pub(crate) fn extract_tokens(lines: &Vec<String>) -> (out: Vec<Token>)
    requires
        tokenizer_patterns_compile(),
    ensures
        token_views(out@) == extract_from(texts(lines@), 0, false),
        forall|k: int| 0 <= k < out.len() ==> (#[trigger] out@[k]).content.len() == 1,
{
    let mut out: Vec<Token> = Vec::new();
    let mut blanked = false;
    let mut i: usize = 0;
    let empty = String::new();
    assert(token_views(out@) + extract_from(texts(lines@), 0, false) == extract_from(
        texts(lines@),
        0,
        false,
    ));
    while i < lines.len()
        invariant
            i <= lines.len(),
            tokenizer_patterns_compile(),
            empty@ == Seq::<char>::empty(),
            extract_from(texts(lines@), 0, false) == token_views(out@) + extract_from(
                texts(lines@),
                i as int,
                blanked,
            ),
            forall|k: int| 0 <= k < out.len() ==> (#[trigger] out@[k]).content.len() == 1,
        decreases lines.len() - i,
    {
        let line: &String = if blanked {
            &empty
        } else {
            &lines[i]
        };
        let next: Option<&String> = if i + 1 < lines.len() {
            Some(&lines[i + 1])
        } else {
            None
        };
        let (token, takes_next) = classify_line(line.as_str(), next);
        let ghost before = token_views(out@);
        let ghost rest = extract_from(texts(lines@), i + 1, takes_next);
        match token {
            Some((kind, text)) => {
                let mut content: Vec<String> = Vec::new();
                content.push(text);
                let t = Token::new(i + 1, kind, content);
                proof {
                    assert(t@.content == seq![text@]);
                    assert(token_views(out@.push(t)) == before.push(t@));
                    assert(before + (seq![t@] + rest) == before.push(t@) + rest);
                }
                out.push(t);
            },
            None => {},
        }
        blanked = takes_next;
        i += 1;
    }
    assert(token_views(out@) + Seq::<TokenView>::empty() == token_views(out@));
    out
}

/// Index of the first heading of level 1 at or after `i`, or -1.
pub open spec fn first_title(tokens: Seq<TokenView>, i: int) -> int
    decreases tokens.len() - i,
{
    if i < 0 || i >= tokens.len() {
        -1
    } else if tokens[i].kind == TokenKind::H1 {
        i
    } else {
        first_title(tokens, i + 1)
    }
}

/// Whether the source is written compactly: the line right after the first
/// heading of level 1 exists and is not blank.
pub open spec fn compact_spec(lines: Seq<Seq<char>>, tokens: Seq<TokenView>) -> bool {
    let h = first_title(tokens, 0);
    h >= 0 && tokens[h].line < lines.len() && !is_blank(lines[tokens[h].line as int])
}

/// Whether the source is written compactly.
pub(crate) fn detect_compact(lines: &Vec<String>, tokens: &Vec<Token>) -> (r: bool)
    ensures
        r == compact_spec(texts(lines@), token_views(tokens@)),
{
    let mut i: usize = 0;
    while i < tokens.len()
        invariant
            i <= tokens.len(),
            first_title(token_views(tokens@), 0) == first_title(token_views(tokens@), i as int),
        decreases tokens.len() - i,
    {
        if tokens[i].kind == TokenKind::H1 {
            let after = tokens[i].line;
            return after < lines.len() && !is_empty_str(lines[after].as_str());
        }
        i += 1;
    }
    false
}

/// `t` with one more line of text.
pub open spec fn with_line(t: TokenView, text: Seq<char>) -> TokenView {
    TokenView { line: t.line, kind: t.kind, content: t.content.push(text) }
}

/// The merged tokens `acc` after the next token `t`. A paragraph after a
/// paragraph becomes one more line of it; a paragraph after a list item
/// that begins with the indentation becomes one more line of the item,
/// without the indentation; every other token stands for itself.
pub open spec fn merge_step(acc: Seq<TokenView>, t: TokenView) -> Seq<TokenView> {
    let text = t.content[0];
    let fresh = TokenView { line: t.line, kind: t.kind, content: seq![text] };
    if acc.len() > 0 && t.kind == TokenKind::P {
        let prev = acc.last();
        if prev.kind == TokenKind::P {
            acc.drop_last().push(with_line(prev, text))
        } else if prev.kind == TokenKind::Li && pattern_matches(INDENT_PATTERN@, text) {
            acc.drop_last().push(
                with_line(prev, pattern_replace(INDENT_PATTERN@, text, Seq::<char>::empty())),
            )
        } else {
            acc.push(fresh)
        }
    } else {
        acc.push(fresh)
    }
}

/// The tokens after continuation lines are merged into the token they
/// continue.
pub open spec fn merge_spec(tokens: Seq<TokenView>) -> Seq<TokenView>
    decreases tokens.len(),
{
    if tokens.len() == 0 {
        tokens
    } else {
        merge_step(merge_spec(tokens.drop_last()), tokens.last())
    }
}

/// The tokens after continuation lines are merged into the token they
/// continue.
pub(crate) fn merge_tokens(tokens: &Vec<Token>) -> (out: Vec<Token>)
    requires
        tokenizer_patterns_compile(),
        forall|k: int| 0 <= k < tokens.len() ==> (#[trigger] tokens@[k]).content.len() == 1,
    ensures
        token_views(out@) == merge_spec(token_views(tokens@)),
{
    let mut out: Vec<Token> = Vec::new();
    let mut i: usize = 0;
    assert(token_views(tokens@).take(0) == Seq::<TokenView>::empty());
    assert(token_views(out@) == Seq::<TokenView>::empty());
    while i < tokens.len()
        invariant
            i <= tokens.len(),
            tokenizer_patterns_compile(),
            forall|k: int| 0 <= k < tokens.len() ==> (#[trigger] tokens@[k]).content.len() == 1,
            token_views(out@) == merge_spec(token_views(tokens@).take(i as int)),
        decreases tokens.len() - i,
    {
        let ghost acc = token_views(out@);
        let ghost t = tokens@[i as int]@;
        proof {
            let upto = token_views(tokens@).take(i + 1);
            assert(upto.drop_last() == token_views(tokens@).take(i as int));
            assert(upto.last() == t);
            assert(tokens@[i as int].content.len() == 1);
            assert(t.content[0] == tokens@[i as int].content@[0]@);
        }
        let text = tokens[i].content[0].clone();
        let kind = tokens[i].kind;
        let line = tokens[i].line;
        let mut merged = false;
        if out.len() > 0 && kind == TokenKind::P {
            let prev_kind = out[out.len() - 1].kind;
            assert(acc.last().kind == prev_kind);
            if prev_kind == TokenKind::P {
                let mut prev = out.pop().unwrap();
                let ghost rest = out@;
                let ghost old_prev = prev@;
                let ghost old_content = prev.content@;
                prev.content.push(text.clone());
                proof {
                    lemma_texts_push(old_content, text);
                    assert(prev@ == with_line(old_prev, text@));
                    assert(token_views(rest) == acc.drop_last());
                    assert(token_views(rest.push(prev)) == acc.drop_last().push(prev@));
                }
                out.push(prev);
                merged = true;
            } else if prev_kind == TokenKind::Li && is_match(
                INDENT_PATTERN,
                text.as_str(),
            ).unwrap() {
                let stripped = replace(INDENT_PATTERN, text.as_str(), "").unwrap();
                let mut prev = out.pop().unwrap();
                let ghost rest = out@;
                let ghost old_prev = prev@;
                let ghost old_content = prev.content@;
                prev.content.push(stripped);
                proof {
                    lemma_texts_push(old_content, stripped);
                    assert(""@ == Seq::<char>::empty()) by {
                        reveal_strlit("");
                    }
                    assert(prev@ == with_line(old_prev, stripped@));
                    assert(token_views(rest) == acc.drop_last());
                    assert(token_views(rest.push(prev)) == acc.drop_last().push(prev@));
                }
                out.push(prev);
                merged = true;
            }
        }
        if !merged {
            let mut content: Vec<String> = Vec::new();
            content.push(text);
            let fresh = Token::new(line, kind, content);
            proof {
                assert(fresh@.content == seq![text@]);
                assert(token_views(out@.push(fresh)) == acc.push(fresh@));
            }
            out.push(fresh);
        }
        i += 1;
    }
    assert(token_views(tokens@).take(i as int) == token_views(tokens@));
    out
}

/// Whether every line of a token's text is blank.
pub open spec fn all_blank(content: Seq<Seq<char>>) -> bool {
    forall|i: int| 0 <= i < content.len() ==> is_blank(#[trigger] content[i])
}

/// The lines without the blank ones at their end.
pub open spec fn drop_blank_tail(content: Seq<Seq<char>>) -> Seq<Seq<char>>
    decreases content.len(),
{
    if content.len() > 0 && is_blank(content.last()) {
        drop_blank_tail(content.drop_last())
    } else {
        content
    }
}

/// The lines without the blank ones at their beginning.
pub open spec fn drop_blank_head(content: Seq<Seq<char>>) -> Seq<Seq<char>>
    decreases content.len(),
{
    if content.len() > 0 && is_blank(content[0]) {
        drop_blank_head(content.drop_first())
    } else {
        content
    }
}

/// The lines without the blank ones at either end.
pub open spec fn trim_blank(content: Seq<Seq<char>>) -> Seq<Seq<char>> {
    drop_blank_head(drop_blank_tail(content))
}

/// The tokens that have text, each without the blank lines at either end
/// of its text.
pub open spec fn finish_spec(tokens: Seq<TokenView>) -> Seq<TokenView>
    decreases tokens.len(),
{
    if tokens.len() == 0 {
        tokens
    } else {
        let done = finish_spec(tokens.drop_last());
        let t = tokens.last();
        if all_blank(t.content) {
            done
        } else {
            done.push(TokenView { line: t.line, kind: t.kind, content: trim_blank(t.content) })
        }
    }
}

/// Whether a token's text has a line and neither begins nor ends with a
/// blank one.
pub open spec fn is_trimmed(content: Seq<Seq<char>>) -> bool {
    content.len() > 0 && !is_blank(content[0]) && !is_blank(content.last())
}

/// Lines that are not all blank end with a line that is not blank once the
/// blank ones at their end are dropped.
pub proof fn lemma_drop_blank_tail(content: Seq<Seq<char>>)
    requires
        !all_blank(content),
    ensures
        drop_blank_tail(content).len() > 0,
        !is_blank(drop_blank_tail(content).last()),
    decreases content.len(),
{
    if content.len() > 0 && is_blank(content.last()) {
        let front = content.drop_last();
        let k = choose|k: int| 0 <= k < content.len() && !is_blank(#[trigger] content[k]);
        assert(k < front.len());
        assert(!is_blank(front[k]));
        lemma_drop_blank_tail(front);
    }
}

/// Lines that end with a line that is not blank begin with one, and end
/// as before, once the blank ones at their beginning are dropped.
pub proof fn lemma_drop_blank_head(content: Seq<Seq<char>>)
    requires
        content.len() > 0,
        !is_blank(content.last()),
    ensures
        is_trimmed(drop_blank_head(content)),
    decreases content.len(),
{
    if is_blank(content[0]) {
        let rest = content.drop_first();
        assert(rest.len() > 0);
        assert(rest.last() == content.last());
        lemma_drop_blank_head(rest);
    }
}

/// Every token that the tokenizer hands out has text, which neither begins
/// nor ends with a blank line.
pub proof fn lemma_finish_spec(tokens: Seq<TokenView>)
    ensures
        forall|k: int|
            0 <= k < finish_spec(tokens).len() ==> is_trimmed(
                (#[trigger] finish_spec(tokens)[k]).content,
            ),
    decreases tokens.len(),
{
    if tokens.len() > 0 {
        lemma_finish_spec(tokens.drop_last());
        let t = tokens.last();
        if !all_blank(t.content) {
            lemma_drop_blank_tail(t.content);
            lemma_drop_blank_head(drop_blank_tail(t.content));
        }
    }
}

/// Whether every line is blank.
pub fn is_empty_str_vec(content: &Vec<String>) -> (r: bool)
    ensures
        r == all_blank(texts(content@)),
{
    let mut i: usize = 0;
    while i < content.len()
        invariant
            i <= content.len(),
            forall|k: int| 0 <= k < i ==> is_blank(#[trigger] texts(content@)[k]),
        decreases content.len() - i,
    {
        if !is_empty_str(content[i].as_str()) {
            assert(!is_blank(texts(content@)[i as int]));
            return false;
        }
        i += 1;
    }
    true
}

/// The lines without the blank ones at either end.
pub fn trim_blank_lines(content: &Vec<String>) -> (out: Vec<String>)
    ensures
        texts(out@) == trim_blank(texts(content@)),
{
    let ghost all = texts(content@);
    let mut to: usize = content.len();
    assert(all.take(to as int) == all);
    while to > 0 && is_empty_str(content[to - 1].as_str())
        invariant
            to <= content.len(),
            all == texts(content@),
            drop_blank_tail(all) == drop_blank_tail(all.take(to as int)),
        decreases to,
    {
        assert(all.take(to as int).drop_last() == all.take(to - 1));
        to -= 1;
    }
    assert(drop_blank_tail(all) == all.take(to as int));
    let mut from: usize = 0;
    assert(all.subrange(0, to as int) == all.take(to as int));
    while from < to && is_empty_str(content[from].as_str())
        invariant
            from <= to <= content.len(),
            all == texts(content@),
            trim_blank(all) == drop_blank_head(all.subrange(from as int, to as int)),
        decreases to - from,
    {
        assert(all.subrange(from as int, to as int).drop_first() == all.subrange(
            from + 1,
            to as int,
        ));
        from += 1;
    }
    assert(trim_blank(all) == all.subrange(from as int, to as int));
    let mut out: Vec<String> = Vec::new();
    let mut i: usize = from;
    assert(texts(out@) =~= all.subrange(from as int, i as int));
    while i < to
        invariant
            from <= i <= to <= content.len(),
            all == texts(content@),
            texts(out@) == all.subrange(from as int, i as int),
        decreases to - i,
    {
        let line = content[i].clone();
        proof {
            lemma_texts_push(out@, line);
            assert(all.subrange(from as int, i as int).push(line@) == all.subrange(
                from as int,
                i + 1,
            ));
        }
        out.push(line);
        i += 1;
    }
    out
}

/// The tokens that have text, each without the blank lines at either end
/// of its text.
pub(crate) fn finish_tokens(tokens: &Vec<Token>) -> (out: Vec<Token>)
    ensures
        token_views(out@) == finish_spec(token_views(tokens@)),
{
    let mut out: Vec<Token> = Vec::new();
    let mut i: usize = 0;
    assert(token_views(tokens@).take(0) == Seq::<TokenView>::empty());
    assert(token_views(out@) == Seq::<TokenView>::empty());
    while i < tokens.len()
        invariant
            i <= tokens.len(),
            token_views(out@) == finish_spec(token_views(tokens@).take(i as int)),
        decreases tokens.len() - i,
    {
        proof {
            let upto = token_views(tokens@).take(i + 1);
            assert(upto.drop_last() == token_views(tokens@).take(i as int));
            assert(upto.last() == tokens@[i as int]@);
        }
        if !is_empty_str_vec(&tokens[i].content) {
            let t = Token::new(tokens[i].line, tokens[i].kind, trim_blank_lines(&tokens[i].content));
            proof {
                assert(token_views(out@.push(t)) == token_views(out@).push(t@));
            }
            out.push(t);
        }
        i += 1;
    }
    assert(token_views(tokens@).take(i as int) == token_views(tokens@));
    out
}

/// What the tokenizer makes of a changelog's text: whether it is written
/// compactly, and its tokens.
pub open spec fn tokenize_spec(markdown: Seq<char>) -> (bool, Seq<TokenView>) {
    let lines = source_lines(markdown);
    let raw = extract_from(lines, 0, false);
    (compact_spec(lines, raw), finish_spec(merge_spec(raw)))
}

/// Whether the regex engine accepts the patterns that the tokenizer uses.
pub(crate) fn check_tokenizer_patterns() -> (r: bool)
    ensures
        r == tokenizer_patterns_compile(),
{
    is_match(LINK_PATTERN, "").is_some() && is_match(LINK_REF_PATTERN, "").is_some() && is_match(
        LINK_URL_PATTERN,
        "",
    ).is_some() && is_match(COMMENT_PATTERN, "").is_some() && is_match(
        INDENT_PATTERN,
        "",
    ).is_some()
}

/// Cuts a changelog's text into tokens and tells whether it is written
/// compactly. Text that fits no other kind of token becomes paragraphs; the
/// only failure is a pattern that the regex engine refuses.
pub fn tokenize(markdown: String) -> (r: Result<(bool, Vec<Token>), Error>)
    ensures
        match r {
            Ok((compact, tokens)) => tokenizer_patterns_compile() && (compact, token_views(tokens@))
                == tokenize_spec(markdown@) && forall|k: int|
                0 <= k < tokens.len() ==> is_trimmed((#[trigger] tokens@[k])@.content),
            Err(e) => !tokenizer_patterns_compile() && e@ == ErrorView::Pattern,
        },
{
    if !check_tokenizer_patterns() {
        return Err(Error::Pattern);
    }
    let trimmed = trim(markdown.as_str());
    let lines = split(trimmed.as_str(), '\n');
    let raw = extract_tokens(&lines);
    let compact = detect_compact(&lines, &raw);
    let merged = merge_tokens(&raw);
    let tokens = finish_tokens(&merged);
    proof {
        lemma_finish_spec(token_views(merged@));
        assert forall|k: int| 0 <= k < tokens.len() implies is_trimmed(
            (#[trigger] tokens@[k])@.content,
        ) by {
            assert(token_views(tokens@)[k] == tokens@[k]@);
        }
    }
    Ok((compact, tokens))
}

} // verus!
