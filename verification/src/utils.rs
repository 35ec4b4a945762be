//! Small helpers: the check that a path names a file, and the shape of a
//! line on the error stream.

use vstd::prelude::*;

verus! {

/// Calls `std::path::Path::exists` on `file_path`. The answer depends on
/// what is on disk at the time of the call, so nothing is claimed of it.
#[verifier::external_body]
fn path_exists(file_path: &str) -> bool {
    std::path::Path::new(file_path).exists()
}

/// Calls `std::path::Path::is_file` on `file_path`. The answer depends on
/// what is on disk at the time of the call, so nothing is claimed of it.
#[verifier::external_body]
fn path_is_file(file_path: &str) -> bool {
    std::path::Path::new(file_path).is_file()
}

/// Whether `file_path` exists and names a regular file, as the file system
/// answers when asked. A symbolic link counts as what it points to; a
/// directory and a missing path are not valid.
pub fn is_file_path_valid(file_path: &str) -> bool {
    path_validity(path_exists(file_path), path_is_file(file_path))
}

/// Whether a path is valid, by what the file system answers of it: it must
/// exist, and it must name a regular file.
pub open spec fn is_valid_path(exists: bool, is_file: bool) -> bool {
    exists && is_file
}

/// Decides whether a path is valid from the two answers of the file system:
/// whether the path exists, and whether it names a regular file.
pub fn path_validity(exists: bool, is_file: bool) -> (valid: bool)
    ensures
        valid == is_valid_path(exists, is_file),
{
    exists && is_file
}

/// The line that reports `error` on the error stream: the program's short
/// name, a colon and a space, and the error.
pub open spec fn error_text(error: Seq<char>) -> Seq<char> {
    "cwc: "@ + error
}

/// Makes the line that reports `error` on the error stream.
pub fn error_line(error: &str) -> (line: String)
    ensures
        line@ == error_text(error@),
{
    "cwc: ".to_owned().concat(error)
}

} // verus!
