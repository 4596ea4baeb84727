//! Semantic versions: the parts of a version as plain values, read from
//! text by the `semver` crate and written back in its canonical form.

use vstd::prelude::*;
use crate::text::{decimal_spec, from_chars, push_decimal, push_text};

verus! {

/// A semantic version: three numbers, a pre-release tag and build metadata
/// (each empty where the version has none).
#[derive(Clone, Debug, PartialEq, Eq)]
pub struct Version {
    pub major: u64,
    pub minor: u64,
    pub patch: u64,
    pub pre: String,
    pub build: String,
}

/// What a version holds.
#[verifier::ext_equal]
pub struct VersionView {
    pub major: nat,
    pub minor: nat,
    pub patch: nat,
    pub pre: Seq<char>,
    pub build: Seq<char>,
}

impl View for Version {
    type V = VersionView;

    open spec fn view(&self) -> VersionView {
        VersionView {
            major: self.major as nat,
            minor: self.minor as nat,
            patch: self.patch as nat,
            pre: self.pre@,
            build: self.build@,
        }
    }
}

/// The parts of the version that `text` spells, as the `semver` crate reads
/// it: major, minor, patch, pre-release, build. `None` where it refuses.
pub uninterp spec fn semver_parse(text: Seq<char>) -> Option<(u64, u64, u64, Seq<char>, Seq<char>)>;

/// The version with the given parts.
pub open spec fn version_of(parts: (u64, u64, u64, Seq<char>, Seq<char>)) -> VersionView {
    VersionView {
        major: parts.0 as nat,
        minor: parts.1 as nat,
        patch: parts.2 as nat,
        pre: parts.3,
        build: parts.4,
    }
}

/// The version that `text` spells, if it spells one.
pub open spec fn parse_spec(text: Seq<char>) -> Option<VersionView> {
    match semver_parse(text) {
        Some(parts) => Some(version_of(parts)),
        None => None,
    }
}

/// Calls `semver::Version::parse` and copies the parts of the version out.
/// `None` exactly where the crate returns an error; the parts are a
/// function of the text and are named.
#[verifier::external_body]
fn semver_read(text: &str) -> (r: Option<Version>)
    ensures
        r is Some <==> semver_parse(text@) is Some,
        r matches Some(v) ==> v@ == version_of(semver_parse(text@)->0),
{
    match semver::Version::parse(text) {
        Ok(v) => Some(
            Version {
                major: v.major,
                minor: v.minor,
                patch: v.patch,
                pre: v.pre.as_str().to_string(),
                build: v.build.as_str().to_string(),
            },
        ),
        Err(_) => None,
    }
}

/// The canonical text of a version: `major.minor.patch`, then `-` and the
/// pre-release tag if there is one, then `+` and the build metadata if
/// there is any.
pub open spec fn version_text(v: VersionView) -> Seq<char> {
    decimal_spec(v.major) + seq!['.'] + decimal_spec(v.minor) + seq!['.'] + decimal_spec(v.patch)
        + (if v.pre.len() > 0 {
        seq!['-'] + v.pre
    } else {
        Seq::<char>::empty()
    }) + (if v.build.len() > 0 {
        seq!['+'] + v.build
    } else {
        Seq::<char>::empty()
    })
}

impl Version {
    /// Reads a version from its text.
    pub fn parse(text: &str) -> (r: Option<Version>)
        ensures
            match r {
                Some(v) => parse_spec(text@) == Some(v@),
                None => parse_spec(text@) is None,
            },
    {
        semver_read(text)
    }

    /// The canonical text of the version.
    pub fn to_text(&self) -> (r: String)
        ensures
            r@ == version_text(self@),
    {
        let mut out: Vec<char> = Vec::new();
        push_decimal(&mut out, self.major);
        out.push('.');
        push_decimal(&mut out, self.minor);
        out.push('.');
        push_decimal(&mut out, self.patch);
        if self.pre.as_str().unicode_len() > 0 {
            out.push('-');
            push_text(&mut out, self.pre.as_str());
        }
        if self.build.as_str().unicode_len() > 0 {
            out.push('+');
            push_text(&mut out, self.build.as_str());
        }
        assert(out@ == version_text(self@));
        from_chars(&out)
    }

    /// Whether two versions have the same parts.
    pub fn same(&self, other: &Version) -> (r: bool)
        ensures
            r == (self@ == other@),
    {
        self.major == other.major && self.minor == other.minor && self.patch == other.patch
            && self.pre == other.pre && self.build == other.build
    }

    /// A copy of the version.
    pub fn copy(&self) -> (r: Version)
        ensures
            r@ == self@,
    {
        Version {
            major: self.major,
            minor: self.minor,
            patch: self.patch,
            pre: self.pre.clone(),
            build: self.build.clone(),
        }
    }
}

} // verus!
