//! The version string of a build.
//!
//! On a tag it is the tag, elsewhere the branch and the commit; a tree with
//! changes is marked as dirty.

use crate::text::{owned, trim, trimmed_end, trimmed_start};
use vstd::prelude::*;
use vstd::string::*;

verus! {

/// What the version control system printed, for the questions that it answered.
pub struct GitAnswers {
    /// The tag of the commit.
    pub tag: Option<String>,
    pub branch: Option<String>,
    pub hash: Option<String>,
    pub dirty: bool,
}

/// Text without the white space around it, or `fallback` where there is none.
pub open spec fn cleaned(answer: Option<String>, fallback: Seq<char>) -> Seq<char> {
    match answer {
        Some(s) => trimmed_end(trimmed_start(s@)),
        None => fallback,
    }
}

/// The version string without the mark of changes.
pub open spec fn base_version(a: GitAnswers) -> Seq<char> {
    if a.tag is Some {
        cleaned(a.tag, seq![])
    } else {
        cleaned(a.branch, "unknown"@) + "-"@ + cleaned(a.hash, "000000"@)
    }
}

fn clean(answer: &Option<String>, fallback: &str) -> (s: String)
    ensures
        s@ == cleaned(*answer, fallback@),
{
    match answer {
        Some(s) => trim(s.as_str()),
        None => owned(fallback),
    }
}

/// The version string.
pub fn git_version(a: &GitAnswers) -> (v: String)
    ensures
        v@ == (if a.dirty {
            base_version(*a) + "-dirty"@
        } else {
            base_version(*a)
        }),
{
    let mut v = if a.tag.is_some() {
        clean(&a.tag, "")
    } else {
        let mut v = clean(&a.branch, "unknown");
        v.append("-");
        v.append(clean(&a.hash, "000000").as_str());
        v
    };
    if a.dirty {
        v.append("-dirty");
    }
    v
}

/// The version string, also where the version control system cannot be asked.
pub fn build_version(a: Option<&GitAnswers>) -> (v: String)
    ensures
        v@ == (match a {
            Some(a) => if a.dirty {
                base_version(*a) + "-dirty"@
            } else {
                base_version(*a)
            },
            None => "unknown"@,
        }),
{
    match a {
        Some(a) => git_version(a),
        None => owned("unknown"),
    }
}

} // verus!
