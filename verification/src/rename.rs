use vstd::prelude::*;

use crate::paths::join_of;
use crate::paths::join_path;
use crate::paths::parent_dir;
use crate::paths::parent_of;

verus! {

/// Resolves where a rename of `old_path` to the bare `new_name` would write:
/// the containing directory of `old_path` joined with `new_name`. A path with
/// no parent segment is refused before any filesystem work.
pub fn rename_destination(old_path: &str, new_name: &str) -> (r: Result<String, String>)
    ensures
        match parent_of(old_path@) {
            Some(parent) => r matches Ok(dest) && dest@ == join_of(parent, new_name@),
            None => r matches Err(m) && m@ == "cannot determine containing directory"@,
        },
{
    match parent_dir(old_path) {
        Some(parent) => Ok(join_path(parent.as_str(), new_name)),
        None => Err(String::from_str("cannot determine containing directory")),
    }
}

/// Decides the rename once the destination's occupancy is known: an occupied
/// destination is refused — a rename never overwrites — and a free one is
/// committed to, handing the destination path back for the caller to rename
/// to.
pub fn rename_decision(new_name: &str, destination: String, destination_occupied: bool) -> (r:
    Result<String, String>)
    ensures
        destination_occupied ==> (r matches Err(m) && m@ == "file \""@ + new_name@
            + "\" already exists"@),
        !destination_occupied ==> (r matches Ok(d) && d@ == destination@),
{
    if destination_occupied {
        let mut m = String::from_str("file \"");
        m.append(new_name);
        m.append("\" already exists");
        Err(m)
    } else {
        Ok(destination)
    }
}

/// The message when the filesystem's own rename fails, embedding the
/// underlying error text.
pub fn rename_failure_message(detail: &str) -> (r: String)
    ensures
        r@ == "failed to rename file: "@ + detail@,
{
    String::from_str("failed to rename file: ").concat(detail)
}

} // verus!
