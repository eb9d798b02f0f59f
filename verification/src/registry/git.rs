//! Where the upstream registry is cloned from.

use vstd::prelude::*;
use vstd::string::*;
use crate::text::chars_of;

verus! {

/// Whether `s` ends with `.git`.
pub open spec fn names_repository(s: Seq<char>) -> bool {
    s.len() >= 4 && s.skip(s.len() - 4) == ".git"@
}

/// The location that is handed to the clone: the given one, with `.git`
/// put behind it where it does not end so.
pub open spec fn repository_location(url: Seq<char>) -> Seq<char> {
    if names_repository(url) {
        url
    } else {
        url + ".git"@
    }
}

/// The location that is handed to the clone for a registry at `url`.
pub fn clone_repo(url: &str) -> (r: String)
    ensures
        r@ == repository_location(url@),
{
    let chars = chars_of(url);
    let n = chars.len();
    proof {
        reveal_strlit(".git");
    }
    let named = n >= 4 && chars[n - 4] == '.' && chars[n - 3] == 'g' && chars[n - 2] == 'i'
        && chars[n - 1] == 't';
    proof {
        if n >= 4 {
            let tail = url@.skip(n - 4);
            assert(tail.len() == 4);
            assert(tail[0] == chars@[n - 4] && tail[1] == chars@[n - 3] && tail[2] == chars@[n - 2]
                && tail[3] == chars@[n - 1]);
            if named {
                assert(tail =~= ".git"@);
            }
        }
    }
    let mut out = url.to_owned();
    if !named {
        out.append(".git");
    }
    out
}

} // verus!
