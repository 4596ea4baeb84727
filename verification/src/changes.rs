//! The changes of a release, by kind, and how they are written.

use vstd::prelude::*;
use crate::text::{
    copy_texts, same_texts, join, join_spec, lemma_texts_push, lowercase, same_text, split, split_spec, str_lowercase,
    texts, trim, trim_end, trim_end_spec, trim_spec,
};

verus! {

/// The kinds of change that a changelog knows.
#[derive(Clone, Copy, Debug, PartialEq, Eq, Hash, Structural)]
pub enum ChangeKind {
    Added,
    Changed,
    Deprecated,
    Removed,
    Fixed,
    Security,
}

/// The kind that a heading names, whatever its case.
pub open spec fn kind_of(name: Seq<char>) -> Option<ChangeKind> {
    let lower = str_lowercase(name);
    if lower == "added"@ {
        Some(ChangeKind::Added)
    } else if lower == "changed"@ {
        Some(ChangeKind::Changed)
    } else if lower == "deprecated"@ {
        Some(ChangeKind::Deprecated)
    } else if lower == "removed"@ {
        Some(ChangeKind::Removed)
    } else if lower == "fixed"@ {
        Some(ChangeKind::Fixed)
    } else if lower == "security"@ {
        Some(ChangeKind::Security)
    } else {
        None
    }
}

/// The heading of a kind's section.
pub open spec fn kind_title(kind: ChangeKind) -> Seq<char> {
    match kind {
        ChangeKind::Added => "Added"@,
        ChangeKind::Changed => "Changed"@,
        ChangeKind::Deprecated => "Deprecated"@,
        ChangeKind::Removed => "Removed"@,
        ChangeKind::Fixed => "Fixed"@,
        ChangeKind::Security => "Security"@,
    }
}

impl ChangeKind {
    /// The kind that `s` names, whatever its case.
    pub fn from_str(s: &str) -> (r: Option<ChangeKind>)
        ensures
            r == kind_of(s@),
    {
        let lower = lowercase(s);
        if same_text(lower.as_str(), "added") {
            Some(ChangeKind::Added)
        } else if same_text(lower.as_str(), "changed") {
            Some(ChangeKind::Changed)
        } else if same_text(lower.as_str(), "deprecated") {
            Some(ChangeKind::Deprecated)
        } else if same_text(lower.as_str(), "removed") {
            Some(ChangeKind::Removed)
        } else if same_text(lower.as_str(), "fixed") {
            Some(ChangeKind::Fixed)
        } else if same_text(lower.as_str(), "security") {
            Some(ChangeKind::Security)
        } else {
            None
        }
    }

    /// The heading of the kind's section.
    pub fn title(&self) -> (r: &'static str)
        ensures
            r@ == kind_title(*self),
    {
        match self {
            ChangeKind::Added => "Added",
            ChangeKind::Changed => "Changed",
            ChangeKind::Deprecated => "Deprecated",
            ChangeKind::Removed => "Removed",
            ChangeKind::Fixed => "Fixed",
            ChangeKind::Security => "Security",
        }
    }
}

/// The changes of a release: for each kind its entries, in the order in
/// which they were added. An entry may have several lines.
#[derive(Clone, Debug, PartialEq, Eq)]
pub struct Changes {
    pub added: Vec<String>,
    pub changed: Vec<String>,
    pub deprecated: Vec<String>,
    pub removed: Vec<String>,
    pub fixed: Vec<String>,
    pub security: Vec<String>,
}

/// What a set of changes holds.
#[verifier::ext_equal]
pub struct ChangesView {
    pub added: Seq<Seq<char>>,
    pub changed: Seq<Seq<char>>,
    pub deprecated: Seq<Seq<char>>,
    pub removed: Seq<Seq<char>>,
    pub fixed: Seq<Seq<char>>,
    pub security: Seq<Seq<char>>,
}

impl ChangesView {
    /// The entries of one kind.
    pub open spec fn of(self, kind: ChangeKind) -> Seq<Seq<char>> {
        match kind {
            ChangeKind::Added => self.added,
            ChangeKind::Changed => self.changed,
            ChangeKind::Deprecated => self.deprecated,
            ChangeKind::Removed => self.removed,
            ChangeKind::Fixed => self.fixed,
            ChangeKind::Security => self.security,
        }
    }

    /// The changes with `change` as the last entry of `kind`.
    pub open spec fn with(self, kind: ChangeKind, change: Seq<char>) -> ChangesView {
        match kind {
            ChangeKind::Added => ChangesView { added: self.added.push(change), ..self },
            ChangeKind::Changed => ChangesView { changed: self.changed.push(change), ..self },
            ChangeKind::Deprecated => ChangesView {
                deprecated: self.deprecated.push(change),
                ..self
            },
            ChangeKind::Removed => ChangesView { removed: self.removed.push(change), ..self },
            ChangeKind::Fixed => ChangesView { fixed: self.fixed.push(change), ..self },
            ChangeKind::Security => ChangesView { security: self.security.push(change), ..self },
        }
    }

    /// Whether no kind has an entry.
    pub open spec fn is_empty(self) -> bool {
        self.added.len() == 0 && self.changed.len() == 0 && self.deprecated.len() == 0
            && self.removed.len() == 0 && self.fixed.len() == 0 && self.security.len() == 0
    }

    /// No entries at all.
    pub open spec fn empty() -> ChangesView {
        ChangesView {
            added: Seq::empty(),
            changed: Seq::empty(),
            deprecated: Seq::empty(),
            removed: Seq::empty(),
            fixed: Seq::empty(),
            security: Seq::empty(),
        }
    }
}

impl View for Changes {
    type V = ChangesView;

    open spec fn view(&self) -> ChangesView {
        ChangesView {
            added: texts(self.added@),
            changed: texts(self.changed@),
            deprecated: texts(self.deprecated@),
            removed: texts(self.removed@),
            fixed: texts(self.fixed@),
            security: texts(self.security@),
        }
    }
}

/// The lines of an entry as they are written: the first behind a dash, the
/// others indented by two spaces, none with whitespace at its end.
pub open spec fn entry_lines(lines: Seq<Seq<char>>) -> Seq<Seq<char>> {
    Seq::new(
        lines.len(),
        |i: int|
            if i == 0 {
                "- "@ + trim_spec(lines[0])
            } else {
                trim_end_spec("  "@ + lines[i])
            },
    )
}

/// One entry as it is written, line feed included.
pub open spec fn entry_text(change: Seq<char>) -> Seq<char> {
    join_spec(entry_lines(split_spec(change, '\n')), "\n"@) + "\n"@
}

/// The entries of one kind as they are written, one after the other.
pub open spec fn entries_text(changes: Seq<Seq<char>>) -> Seq<char>
    decreases changes.len(),
{
    if changes.len() == 0 {
        Seq::<char>::empty()
    } else {
        entries_text(changes.drop_last()) + entry_text(changes.last())
    }
}

/// A kind's section: its heading, a blank line unless the changelog is
/// compact, and its entries.
pub open spec fn section_text(kind: ChangeKind, entries: Seq<Seq<char>>, compact: bool) -> Seq<
    char,
> {
    "### "@ + kind_title(kind) + "\n"@ + (if compact {
        Seq::<char>::empty()
    } else {
        "\n"@
    }) + entries_text(entries)
}

/// What is written so far, and whether a section is among it, after the
/// section of `kind`: nothing new for a kind without entries; otherwise the
/// section, after a blank line if it is not the first and the changelog is
/// not compact.
pub open spec fn after_section(
    so_far: (Seq<char>, bool),
    kind: ChangeKind,
    entries: Seq<Seq<char>>,
    compact: bool,
) -> (Seq<char>, bool) {
    if entries.len() == 0 {
        so_far
    } else {
        (
            so_far.0 + (if so_far.1 && !compact {
                "\n"@
            } else {
                Seq::<char>::empty()
            }) + section_text(kind, entries, compact),
            true,
        )
    }
}

/// The changes as they are written: the sections of the kinds that have
/// entries, in the fixed order of the kinds, and a blank line after the
/// last one.
pub open spec fn changes_text(c: ChangesView, compact: bool) -> Seq<char> {
    let s0 = (Seq::<char>::empty(), false);
    let s1 = after_section(s0, ChangeKind::Added, c.added, compact);
    let s2 = after_section(s1, ChangeKind::Changed, c.changed, compact);
    let s3 = after_section(s2, ChangeKind::Deprecated, c.deprecated, compact);
    let s4 = after_section(s3, ChangeKind::Removed, c.removed, compact);
    let s5 = after_section(s4, ChangeKind::Fixed, c.fixed, compact);
    let s6 = after_section(s5, ChangeKind::Security, c.security, compact);
    if s6.1 {
        s6.0 + "\n"@
    } else {
        s6.0
    }
}

/// Writes the blank line between two sections: nothing before the first
/// section, which it records as written, and nothing in a compact
/// changelog.
pub fn ensure_newline(out: &mut String, first_printed: &mut bool, compact: bool)
    ensures
        final(out)@ == old(out)@ + (if *old(first_printed) && !compact {
            "\n"@
        } else {
            Seq::<char>::empty()
        }),
        *final(first_printed),
{
    if *first_printed {
        if !compact {
            out.append("\n");
        }
    } else {
        *first_printed = true;
    }
}

/// Writes the entries of one kind.
pub fn print_changes(out: &mut String, changes: &Vec<String>)
    ensures
        final(out)@ == old(out)@ + entries_text(texts(changes@)),
{
    let mut i: usize = 0;
    assert(texts(changes@).take(0) =~= Seq::<Seq<char>>::empty());
    while i < changes.len()
        invariant
            i <= changes.len(),
            out@ == old(out)@ + entries_text(texts(changes@).take(i as int)),
        decreases changes.len() - i,
    {
        proof {
            let upto = texts(changes@).take(i + 1);
            assert(upto.drop_last() == texts(changes@).take(i as int));
            assert(upto.last() == changes@[i as int]@);
        }
        let lines = split(changes[i].as_str(), '\n');
        let mut written: Vec<String> = Vec::new();
        let mut k: usize = 0;
        while k < lines.len()
            invariant
                k <= lines.len(),
                texts(written@) == entry_lines(texts(lines@)).take(k as int),
            decreases lines.len() - k,
        {
            let line = if k == 0 {
                let mut first = "- ".to_owned();
                first.append(trim(lines[0].as_str()).as_str());
                first
            } else {
                let mut indented = "  ".to_owned();
                indented.append(lines[k].as_str());
                trim_end(indented.as_str())
            };
            proof {
                lemma_texts_push(written@, line);
                assert(entry_lines(texts(lines@)).take(k as int).push(line@) == entry_lines(
                    texts(lines@),
                ).take(k + 1));
            }
            written.push(line);
            k += 1;
        }
        assert(entry_lines(texts(lines@)).take(k as int) == entry_lines(texts(lines@)));
        let entry = join(&written, "\n");
        out.append(entry.as_str());
        out.append("\n");
        i += 1;
    }
    assert(texts(changes@).take(i as int) == texts(changes@));
}

/// Writes the section of one kind, if the kind has entries.
fn print_section(
    out: &mut String,
    first_printed: &mut bool,
    kind: ChangeKind,
    entries: &Vec<String>,
    compact: bool,
)
    ensures
        (final(out)@, *final(first_printed)) == after_section(
            (old(out)@, *old(first_printed)),
            kind,
            texts(entries@),
            compact,
        ),
{
    if entries.len() > 0 {
        ensure_newline(out, first_printed, compact);
        out.append("### ");
        out.append(kind.title());
        out.append("\n");
        if !compact {
            out.append("\n");
        }
        print_changes(out, entries);
    }
}

impl Default for Changes {
    fn default() -> (c: Changes)
        ensures
            c@ == ChangesView::empty(),
    {
        Changes::new()
    }
}

impl Changes {
    /// No changes.
    pub fn new() -> (c: Changes)
        ensures
            c@ == ChangesView::empty(),
    {
        let c = Changes {
            added: Vec::new(),
            changed: Vec::new(),
            deprecated: Vec::new(),
            removed: Vec::new(),
            fixed: Vec::new(),
            security: Vec::new(),
        };
        assert(c@ =~~= ChangesView::empty());
        c
    }

    /// Adds `change` as the last entry of `kind`.
    pub fn add(&mut self, kind: ChangeKind, change: String)
        ensures
            final(self)@ == old(self)@.with(kind, change@),
    {
        proof {
            lemma_texts_push(self.added@, change);
            lemma_texts_push(self.changed@, change);
            lemma_texts_push(self.deprecated@, change);
            lemma_texts_push(self.removed@, change);
            lemma_texts_push(self.fixed@, change);
            lemma_texts_push(self.security@, change);
        }
        match kind {
            ChangeKind::Added => self.added.push(change),
            ChangeKind::Changed => self.changed.push(change),
            ChangeKind::Deprecated => self.deprecated.push(change),
            ChangeKind::Removed => self.removed.push(change),
            ChangeKind::Fixed => self.fixed.push(change),
            ChangeKind::Security => self.security.push(change),
        }
    }

    /// Whether no kind has an entry.
    pub fn is_empty(&self) -> (r: bool)
        ensures
            r == self@.is_empty(),
    {
        self.added.is_empty() && self.changed.is_empty() && self.deprecated.is_empty()
            && self.removed.is_empty() && self.fixed.is_empty() && self.security.is_empty()
    }

    /// The entries of one kind.
    pub fn entries(&self, kind: ChangeKind) -> (r: &Vec<String>)
        ensures
            texts(r@) == self@.of(kind),
    {
        match kind {
            ChangeKind::Added => &self.added,
            ChangeKind::Changed => &self.changed,
            ChangeKind::Deprecated => &self.deprecated,
            ChangeKind::Removed => &self.removed,
            ChangeKind::Fixed => &self.fixed,
            ChangeKind::Security => &self.security,
        }
    }

    /// Whether two sets of changes hold the same entries.
    pub fn same(&self, other: &Changes) -> (r: bool)
        ensures
            r == (self@ == other@),
    {
        same_texts(&self.added, &other.added) && same_texts(&self.changed, &other.changed)
            && same_texts(&self.deprecated, &other.deprecated) && same_texts(
            &self.removed,
            &other.removed,
        ) && same_texts(&self.fixed, &other.fixed) && same_texts(&self.security, &other.security)
    }

    /// A copy of the changes.
    pub fn copy(&self) -> (r: Changes)
        ensures
            r@ == self@,
    {
        Changes {
            added: copy_texts(&self.added),
            changed: copy_texts(&self.changed),
            deprecated: copy_texts(&self.deprecated),
            removed: copy_texts(&self.removed),
            fixed: copy_texts(&self.fixed),
            security: copy_texts(&self.security),
        }
    }

    /// The changes as they are written in a changelog.
    pub fn render(&self, compact: bool) -> (r: String)
        ensures
            r@ == changes_text(self@, compact),
    {
        let mut out = String::new();
        let mut first_printed = false;
        print_section(&mut out, &mut first_printed, ChangeKind::Added, &self.added, compact);
        print_section(&mut out, &mut first_printed, ChangeKind::Changed, &self.changed, compact);
        print_section(
            &mut out,
            &mut first_printed,
            ChangeKind::Deprecated,
            &self.deprecated,
            compact,
        );
        print_section(&mut out, &mut first_printed, ChangeKind::Removed, &self.removed, compact);
        print_section(&mut out, &mut first_printed, ChangeKind::Fixed, &self.fixed, compact);
        print_section(&mut out, &mut first_printed, ChangeKind::Security, &self.security, compact);
        if first_printed {
            out.append("\n");
        }
        out
    }
}

} // verus!
