use vstd::prelude::*;

use crate::paths::join_of;
use crate::paths::join_path;
use crate::text::dec_of;
use crate::text::lemma_dec_of_len;
use crate::text::u64_to_dec;

verus! {

/// The index of the last '.' of `name` that does not stand first, or -1 if
/// there is none.
pub open spec fn last_dot_index(s: Seq<char>) -> int
    decreases s.len(),
{
    if s.len() <= 1 {
        -1
    } else if s.last() == '.' {
        s.len() - 1
    } else {
        last_dot_index(s.drop_last())
    }
}

/// [`last_dot_index`] is -1 or a proper index past the first character.
pub proof fn lemma_last_dot_index_bounds(s: Seq<char>)
    ensures
        last_dot_index(s) == -1 || (1 <= last_dot_index(s) < s.len()),
    decreases s.len(),
{
    if s.len() > 1 && !(s.last() == '.') {
        lemma_last_dot_index_bounds(s.drop_last());
    }
}

/// "." and "..": names that carry no stem of their own.
pub open spec fn is_dot_name(s: Seq<char>) -> bool {
    s =~= seq!['.'] || s =~= seq!['.', '.']
}

/// The stem of a bare file name: the part before the last '.' that does not
/// begin the name. The empty name, "." and ".." fall back to the stem "file".
pub open spec fn stem_of(name: Seq<char>) -> Seq<char> {
    if name.len() == 0 || is_dot_name(name) {
        "file"@
    } else if last_dot_index(name) == -1 {
        name
    } else {
        name.take(last_dot_index(name))
    }
}

/// The extension of a bare file name: the part after the last '.' that does
/// not begin the name. Empty when there is no such '.' or nothing follows it.
pub open spec fn extension_of(name: Seq<char>) -> Seq<char> {
    if name.len() == 0 || is_dot_name(name) || last_dot_index(name) == -1 {
        Seq::empty()
    } else {
        name.skip(last_dot_index(name) + 1)
    }
}

/// The collision-avoiding name: the stem, an underscore, the decimal
/// timestamp, and the original extension when there is one.
pub open spec fn disambiguated(name: Seq<char>, timestamp: nat) -> Seq<char> {
    if extension_of(name).len() == 0 {
        stem_of(name) + "_"@ + dec_of(timestamp)
    } else {
        stem_of(name) + "_"@ + dec_of(timestamp) + "."@ + extension_of(name)
    }
}

/// A disambiguated name is strictly longer than the requested name, so the
/// fallback destination of a copy never carries the name that was taken.
pub proof fn lemma_disambiguated_name_differs(name: Seq<char>, timestamp: nat)
    ensures
        disambiguated(name, timestamp).len() > name.len(),
        disambiguated(name, timestamp) != name,
{
    broadcast use vstd::string::group_string_axioms;

    reveal_strlit("file");
    reveal_strlit("_");
    reveal_strlit(".");
    lemma_dec_of_len(timestamp);
    lemma_last_dot_index_bounds(name);
}

/// A copy that finds the desired name taken falls back to a destination that
/// differs from the desired one, so the pre-existing file at the desired
/// name is never the copy's destination.
pub proof fn lemma_copy_fallback_destination_differs(
    target_folder: Seq<char>,
    name: Seq<char>,
    timestamp: nat,
)
    ensures
        join_of(target_folder, disambiguated(name, timestamp)) != join_of(target_folder, name),
{
    broadcast use vstd::string::group_string_axioms;

    reveal_strlit("/");
    lemma_disambiguated_name_differs(name, timestamp);
    assert(join_of(target_folder, disambiguated(name, timestamp)).len() != join_of(
        target_folder,
        name,
    ).len());
}

/// Computes [`disambiguated`].
pub fn disambiguated_name(name: &str, timestamp: u64) -> (r: String)
    ensures
        r@ == disambiguated(name@, timestamp as nat),
{
    let n = name.unicode_len();
    proof {
        broadcast use vstd::string::group_string_axioms;

        reveal_strlit("file");
        reveal_strlit("_");
        reveal_strlit(".");
        assert(name@.take(n as int) =~= name@);
    }
    let is_dot = (n == 1 && name.get_char(0) == '.') || (n == 2 && name.get_char(0) == '.'
        && name.get_char(1) == '.');
    proof {
        if is_dot {
            if n == 1 {
                assert(name@ =~= seq!['.']);
            } else {
                assert(name@ =~= seq!['.', '.']);
            }
        } else {
            assert(!is_dot_name(name@));
        }
    }
    let mut stem = String::new();
    let mut extension = String::new();
    if n == 0 || is_dot {
        stem = String::from_str("file");
        proof {
            assert("file"@ =~= stem_of(name@));
        }
    } else {
        // find the last '.' that does not begin the name
        let mut i: usize = n;
        while i > 1 && name.get_char(i - 1) != '.'
            invariant
                i <= n,
                n == name@.len(),
                last_dot_index(name@) == last_dot_index(name@.take(i as int)),
            decreases i,
        {
            proof {
                assert(name@.take(i as int).drop_last() =~= name@.take(i as int - 1));
            }
            i -= 1;
        }
        if i <= 1 {
            proof {
                assert(last_dot_index(name@) == -1);
            }
            stem = String::from_str(name);
        } else {
            let d = i - 1;
            proof {
                assert(name@.take(i as int).last() == name@[d as int]);
                assert(last_dot_index(name@) == d as int);
            }
            stem = String::from_str(name.substring_char(0, d));
            extension = String::from_str(name.substring_char(i, n));
            proof {
                assert(stem@ == name@.take(d as int));
                assert(extension@ =~= name@.skip(d as int + 1));
            }
        }
    }
    let mut r = stem;
    r.append("_");
    let digits = u64_to_dec(timestamp);
    r.append(digits.as_str());
    if extension.unicode_len() > 0 {
        r.append(".");
        r.append(extension.as_str());
    }
    r
}

/// The message when the source of a copy does not exist; nothing is written.
pub fn missing_source_message(file_path: &str) -> (r: String)
    ensures
        r@ == "file does not exist: "@ + file_path@,
{
    String::from_str("file does not exist: ").concat(file_path)
}

/// The message when the target folder cannot be created, embedding the
/// underlying error text.
pub fn folder_create_failure_message(detail: &str) -> (r: String)
    ensures
        r@ == "failed to create folder: "@ + detail@,
{
    String::from_str("failed to create folder: ").concat(detail)
}

/// The destination a copy writes to, once the desired name's occupancy in
/// the target folder is known: the desired name while it is free, else the
/// timestamp-disambiguated name. The pre-existing file at the desired name
/// is never the destination.
pub fn copy_destination(
    target_folder: &str,
    new_name: &str,
    destination_occupied: bool,
    timestamp: u64,
) -> (r: String)
    ensures
        !destination_occupied ==> r@ == join_of(target_folder@, new_name@),
        destination_occupied ==> r@ == join_of(
            target_folder@,
            disambiguated(new_name@, timestamp as nat),
        ),
{
    if destination_occupied {
        let fallback = disambiguated_name(new_name, timestamp);
        join_path(target_folder, fallback.as_str())
    } else {
        join_path(target_folder, new_name)
    }
}

/// The message when the filesystem's own copy fails, embedding the
/// underlying error text.
pub fn copy_failure_message(detail: &str) -> (r: String)
    ensures
        r@ == "failed to copy file: "@ + detail@,
{
    String::from_str("failed to copy file: ").concat(detail)
}

} // verus!
