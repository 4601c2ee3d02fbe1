//! The saved brief: its file, and the `.gitignore` entry that keeps it out
//! of the repository.

use crate::text::{contains_seq, contains_str};
use vstd::prelude::*;
use vstd::string::StringExecFns;

verus! {

/// Name of the brief file at the repository root.
pub const BRIEF_FILENAME: &'static str = ".rewind-brief.md";

/// The content of the brief file for a summary.
pub open spec fn brief_content_spec(summary: Seq<char>) -> Seq<char> {
    "# Rewind Brief\n\n"@ + summary + "\n\n*(Generated by `rewind`)*\n"@
}

/// The content of the brief file for a summary.
pub fn brief_file_content(summary: &str) -> (r: String)
    ensures
        r@ == brief_content_spec(summary@),
{
    let mut r = String::from_str("# Rewind Brief\n\n");
    r.append(summary);
    r.append("\n\n*(Generated by `rewind`)*\n");
    r
}

/// Whether the `.gitignore` needs the brief's entry: unless its content,
/// when it could be read, already names the brief file.
pub fn gitignore_needs_entry(existing: Option<&str>) -> (r: bool)
    ensures
        r == match existing {
            Some(c) => !contains_seq(c@, BRIEF_FILENAME@),
            None => true,
        },
{
    match existing {
        Some(c) => !contains_str(c, BRIEF_FILENAME),
        None => true,
    }
}

/// The lines appended to the `.gitignore`.
pub fn gitignore_entry() -> (r: String)
    ensures
        r@ == "\n# Rewind\n"@ + BRIEF_FILENAME@ + "\n"@,
{
    let mut r = String::from_str("\n# Rewind\n");
    r.append(BRIEF_FILENAME);
    r.append("\n");
    r
}

/// Once the entry is appended, the `.gitignore` needs it no more.
pub proof fn lemma_gitignore_entry_sticks(existing: Seq<char>)
    ensures
        contains_seq(existing + "\n# Rewind\n"@ + BRIEF_FILENAME@ + "\n"@, BRIEF_FILENAME@),
{
    let s = existing + "\n# Rewind\n"@ + BRIEF_FILENAME@ + "\n"@;
    let i: int = (existing.len() + "\n# Rewind\n"@.len()) as int;
    assert(s.subrange(i, i + BRIEF_FILENAME@.len()) =~= BRIEF_FILENAME@);
    assert(crate::text::occurs_at(s, BRIEF_FILENAME@, i));
}

} // verus!
