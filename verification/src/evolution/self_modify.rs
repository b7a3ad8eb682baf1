//! Self-modification of the source: an exact old-to-new replacement that is
//! kept only when the project still builds, and reverted otherwise.
use vstd::prelude::*;
use crate::text::{contains_sub, replace_first};
use crate::tools::apply_edit;

verus! {

/// What an edit of a source file comes to before it is built.
#[derive(Debug)]
pub enum CodeEdit {
    /// The text to replace does not occur; the message says so.
    NotFound(String),
    /// Keep the old content in `backup`, then write `updated`.
    Apply { backup: String, updated: String },
}

pub open spec fn not_found_message(file: Seq<char>) -> Seq<char> {
    "old text not found in "@ + file
}

pub open spec fn backup_path(file: Seq<char>) -> Seq<char> {
    file + ".evo.bak"@
}

/// Plans the replacement of the first occurrence of `old` by `new` in the
/// content of `file`.
pub fn plan_code_edit(file: &str, content: &str, old: &str, new: &str) -> (e: CodeEdit)
    ensures
        contains_sub(content@, old@) ==> (e matches CodeEdit::Apply { backup, updated } && backup@
            == backup_path(file@) && updated@ == replace_first(content@, old@, new@)),
        !contains_sub(content@, old@) ==> (e matches CodeEdit::NotFound(msg) && msg@
            == not_found_message(file@)),
{
    match apply_edit(content, old, new) {
        Some(updated) => CodeEdit::Apply {
            backup: String::from_str(file).concat(".evo.bak"),
            updated,
        },
        None => CodeEdit::NotFound(String::from_str("old text not found in ").concat(file)),
    }
}

pub open spec fn evolved_message(file: Seq<char>) -> Seq<char> {
    "evolved "@ + file + " (build passed)"@
}

pub open spec fn build_failed_message(file: Seq<char>, stderr: Seq<char>) -> Seq<char> {
    "build failed; reverted "@ + file + ". error:\n"@ + stderr
}

/// The result of an applied edit once the build ran: kept when the build
/// succeeded, otherwise reverted with the compiler's errors.
pub fn build_outcome(file: &str, build_succeeded: bool, stderr: &str) -> (r: Result<String, String>)
    ensures
        build_succeeded ==> (r matches Ok(m) && m@ == evolved_message(file@)),
        !build_succeeded ==> (r matches Err(m) && m@ == build_failed_message(file@, stderr@)),
{
    if build_succeeded {
        Ok(String::from_str("evolved ").concat(file).concat(" (build passed)"))
    } else {
        Err(String::from_str("build failed; reverted ").concat(file).concat(". error:\n").concat(
            stderr,
        ))
    }
}

} // verus!
