//! What can go wrong while a changelog is read or written.

use vstd::prelude::*;
use crate::text::{decimal, decimal_spec, join, join_spec, lemma_texts_push, texts};
use crate::token::{kind_name, token_views, Token, TokenKind, TokenView};

verus! {

/// A failure of parsing or rendering. Each one ends the call it came from.
#[derive(Clone, Debug, PartialEq, Eq)]
pub enum Error {
    /// The regex engine refused one of the grammar's patterns.
    Pattern,
    /// A heading of level 2 is neither a dated release nor an unreleased one.
    ReleaseHeading { line: usize, kind: TokenKind, content: String },
    /// The label of a dated release is no semantic version.
    Version { line: usize, text: String },
    /// The date of a dated release is no calendar date.
    Date { line: usize, text: String },
    /// A text that should name a release is no semantic version.
    InvalidVersion { text: String },
    /// A heading of level 3 names none of the six kinds of change.
    ChangeKind { line: usize, content: String },
    /// Tokens were left over when the grammar was through.
    UnexpectedTokens { tokens: Vec<Token>, index: usize, count: usize },
    /// A lint directive lists no rule codes.
    LintDirective { line: usize },
    /// A link has no anchor.
    MissingAnchor { text: String },
    /// A link has no URL.
    MissingUrl,
    /// A compare link is wanted and the changelog has no repository URL.
    MissingRepositoryUrl,
    /// A release that needs a version has none.
    MissingVersion,
    /// A release with a version has no date.
    MissingDate,
    /// A release's date is no day of the calendar.
    InvalidDate,
    /// The release is not one of the changelog's.
    ReleaseNotFound,
}

/// What an error holds.
pub enum ErrorView {
    Pattern,
    ReleaseHeading { line: nat, kind: TokenKind, content: Seq<char> },
    Version { line: nat, text: Seq<char> },
    Date { line: nat, text: Seq<char> },
    InvalidVersion { text: Seq<char> },
    ChangeKind { line: nat, content: Seq<char> },
    UnexpectedTokens { tokens: Seq<TokenView>, index: nat, count: nat },
    LintDirective { line: nat },
    MissingAnchor { text: Seq<char> },
    MissingUrl,
    MissingRepositoryUrl,
    MissingVersion,
    MissingDate,
    InvalidDate,
    ReleaseNotFound,
}

impl View for Error {
    type V = ErrorView;

    open spec fn view(&self) -> ErrorView {
        match *self {
            Error::Pattern => ErrorView::Pattern,
            Error::ReleaseHeading { line, kind, content } => ErrorView::ReleaseHeading {
                line: line as nat,
                kind,
                content: content@,
            },
            Error::Version { line, text } => ErrorView::Version { line: line as nat, text: text@ },
            Error::Date { line, text } => ErrorView::Date { line: line as nat, text: text@ },
            Error::InvalidVersion { text } => ErrorView::InvalidVersion { text: text@ },
            Error::ChangeKind { line, content } => ErrorView::ChangeKind {
                line: line as nat,
                content: content@,
            },
            Error::UnexpectedTokens { tokens, index, count } => ErrorView::UnexpectedTokens {
                tokens: token_views(tokens@),
                index: index as nat,
                count: count as nat,
            },
            Error::LintDirective { line } => ErrorView::LintDirective { line: line as nat },
            Error::MissingAnchor { text } => ErrorView::MissingAnchor { text: text@ },
            Error::MissingUrl => ErrorView::MissingUrl,
            Error::MissingRepositoryUrl => ErrorView::MissingRepositoryUrl,
            Error::MissingVersion => ErrorView::MissingVersion,
            Error::MissingDate => ErrorView::MissingDate,
            Error::InvalidDate => ErrorView::InvalidDate,
            Error::ReleaseNotFound => ErrorView::ReleaseNotFound,
        }
    }
}

/// How a token is named in a message: its kind and its line.
pub open spec fn token_label(t: TokenView) -> Seq<char> {
    kind_name(t.kind) + " at line "@ + decimal_spec(t.line)
}

/// How tokens are listed in a message.
pub open spec fn token_labels(tokens: Seq<TokenView>) -> Seq<Seq<char>> {
    tokens.map_values(|t: TokenView| token_label(t))
}

/// What an error says.
pub open spec fn error_text(e: ErrorView) -> Seq<char> {
    match e {
        ErrorView::Pattern => "A pattern of the changelog grammar was refused by the regex engine"@,
        ErrorView::ReleaseHeading { line, kind, content } =>
            "Failed to parse release token at line: "@ + decimal_spec(line) + ", kind: "@
                + kind_name(kind) + ", content: `## "@ + content
                + "`. Expected format: `## [VERSION] - [DATE]` or `## [Unreleased]`"@,
        ErrorView::Version { line, text } => "Failed to parse version: `"@ + text + "` at line: "@
            + decimal_spec(line),
        ErrorView::Date { line, text } => "Failed to parse date: `"@ + text + "` at line: "@
            + decimal_spec(line),
        ErrorView::InvalidVersion { text } => "Failed to parse version: "@ + text
            + " during finding release"@,
        ErrorView::ChangeKind { line, content } => "Failed to parse change kind at line: "@
            + decimal_spec(line) + ", content: `"@ + content + "`, error: \"Unknown change type: "@
            + content + "\""@,
        ErrorView::UnexpectedTokens { tokens, index, count } => "Unexpected tokens: "@ + join_spec(
            token_labels(tokens),
            ", "@,
        ) + ", index: "@ + decimal_spec(index) + ", tokens length: "@ + decimal_spec(count),
        ErrorView::LintDirective { line } => "Failed to get lint content at line: "@
            + decimal_spec(line),
        ErrorView::MissingAnchor { text } => "Missing anchor: "@ + text,
        ErrorView::MissingUrl => "Missing url"@,
        ErrorView::MissingRepositoryUrl => "Missing repo URL"@,
        ErrorView::MissingVersion => "Missing version for release"@,
        ErrorView::MissingDate => "Missing date for release"@,
        ErrorView::InvalidDate => "Invalid date for release"@,
        ErrorView::ReleaseNotFound => "Release not found"@,
    }
}

/// How tokens are listed in a message.
fn label_tokens(tokens: &Vec<Token>) -> (out: Vec<String>)
    ensures
        texts(out@) == token_labels(token_views(tokens@)),
{
    let ghost all = token_labels(token_views(tokens@));
    let mut out: Vec<String> = Vec::new();
    let mut i: usize = 0;
    assert(texts(out@) =~= all.take(0));
    while i < tokens.len()
        invariant
            i <= tokens.len(),
            all == token_labels(token_views(tokens@)),
            texts(out@) == all.take(i as int),
        decreases tokens.len() - i,
    {
        let mut label = tokens[i].kind.name().to_owned();
        label.append(" at line ");
        label.append(decimal(tokens[i].line as u64).as_str());
        proof {
            lemma_texts_push(out@, label);
            assert(all.take(i as int).push(label@) =~= all.take(i + 1));
        }
        out.push(label);
        i += 1;
    }
    assert(all.take(i as int) == all);
    out
}

impl Error {
    /// What the error says.
    pub fn message(&self) -> (r: String)
        ensures
            r@ == error_text(self@),
    {
        match self {
            Error::Pattern => {
                "A pattern of the changelog grammar was refused by the regex engine".to_owned()
            },
            Error::ReleaseHeading { line, kind, content } => {
                let mut out = "Failed to parse release token at line: ".to_owned();
                out.append(decimal(*line as u64).as_str());
                out.append(", kind: ");
                out.append(kind.name());
                out.append(", content: `## ");
                out.append(content.as_str());
                out.append("`. Expected format: `## [VERSION] - [DATE]` or `## [Unreleased]`");
                out
            },
            Error::Version { line, text } => {
                let mut out = "Failed to parse version: `".to_owned();
                out.append(text.as_str());
                out.append("` at line: ");
                out.append(decimal(*line as u64).as_str());
                out
            },
            Error::Date { line, text } => {
                let mut out = "Failed to parse date: `".to_owned();
                out.append(text.as_str());
                out.append("` at line: ");
                out.append(decimal(*line as u64).as_str());
                out
            },
            Error::InvalidVersion { text } => {
                let mut out = "Failed to parse version: ".to_owned();
                out.append(text.as_str());
                out.append(" during finding release");
                out
            },
            Error::ChangeKind { line, content } => {
                let mut out = "Failed to parse change kind at line: ".to_owned();
                out.append(decimal(*line as u64).as_str());
                out.append(", content: `");
                out.append(content.as_str());
                out.append("`, error: \"Unknown change type: ");
                out.append(content.as_str());
                out.append("\"");
                out
            },
            Error::UnexpectedTokens { tokens, index, count } => {
                let mut out = "Unexpected tokens: ".to_owned();
                out.append(join(&label_tokens(tokens), ", ").as_str());
                out.append(", index: ");
                out.append(decimal(*index as u64).as_str());
                out.append(", tokens length: ");
                out.append(decimal(*count as u64).as_str());
                out
            },
            Error::LintDirective { line } => {
                let mut out = "Failed to get lint content at line: ".to_owned();
                out.append(decimal(*line as u64).as_str());
                out
            },
            Error::MissingAnchor { text } => {
                let mut out = "Missing anchor: ".to_owned();
                out.append(text.as_str());
                out
            },
            Error::MissingUrl => "Missing url".to_owned(),
            Error::MissingRepositoryUrl => "Missing repo URL".to_owned(),
            Error::MissingVersion => "Missing version for release".to_owned(),
            Error::MissingDate => "Missing date for release".to_owned(),
            Error::InvalidDate => "Invalid date for release".to_owned(),
            Error::ReleaseNotFound => "Release not found".to_owned(),
        }
    }
}

} // verus!
