//! The part of the `cd` built-in that needs no operating system: which
//! directory a target names.

use vstd::prelude::*;
use vstd::string::{StrSliceExecFns, StringExecFns};

verus! {

/// The directory that `target` names for a user whose home directory is
/// `home`.
///
/// A target that does not start with `~` names itself. A lone `~` names the
/// home directory. A longer target that starts with `~` names what lies
/// below the home directory under the target's text from its third
/// character on: `~/src` is `src` below the home directory.
pub open spec fn directory_of(target: Seq<char>, home: Seq<char>) -> Seq<char> {
    if target.len() > 0 && target[0] == '~' {
        if target.len() >= 2 {
            home + seq!['/'] + target.skip(2)
        } else {
            home
        }
    } else {
        target
    }
}

/// Expands a leading `~` in `target_path` to `home_dir`.
pub fn resolve_dir(target_path: &str, home_dir: &str) -> (path: String)
    ensures
        path@ == directory_of(target_path@, home_dir@),
{
    let n = target_path.unicode_len();
    if n > 0 && target_path.get_char(0) == '~' {
        let mut path = home_dir.to_owned();
        if n >= 2 {
            proof {
                reveal_strlit("/");
            }
            path.append("/");
            path.append(target_path.substring_char(2, n));
        }
        path
    } else {
        target_path.to_owned()
    }
}

} // verus!
