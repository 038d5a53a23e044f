//! Module-side helpers: checking a user against password-file text.

use vstd::prelude::*;
use crate::codes::{PAM_PERM_DENIED, PAM_SERVICE_ERR, PAM_SUCCESS};
use crate::env::{lemma_find_char_bounds, spec_find_char};
use crate::strutil::starts_with;

verus! {

/// Whether this password-file line belongs to `user`: the name followed by
/// a colon.
pub open spec fn passwd_line_matches(line: Seq<char>, user: Seq<char>) -> bool {
    &&& line.len() > user.len()
    &&& line.subrange(0, user.len() as int) == user
    &&& line[user.len() as int] == ':'
}

/// Check whether a user appears in password-file text, handed in line by
/// line.  A name containing a colon can never match and is refused.
pub fn utpam_modutil_check_user_in_passwd(user_name: &str, lines: &Vec<String>) -> (r: u8)
    ensures
        spec_find_char(user_name@, 0, ':') < user_name@.len() ==> r == PAM_PERM_DENIED,
        spec_find_char(user_name@, 0, ':') == user_name@.len() ==> (r == PAM_SUCCESS <==> exists|
            i: int,
        | 0 <= i < lines@.len() && passwd_line_matches(#[trigger] lines@[i]@, user_name@)),
        r == PAM_SUCCESS || r == PAM_PERM_DENIED,
{
    proof {
        lemma_find_char_bounds(user_name@, 0, ':');
    }
    let n = user_name.unicode_len();
    let colon = crate::env::find_char(user_name, ':');
    if colon < n {
        return PAM_PERM_DENIED;
    }
    let mut i: usize = 0;
    let mut rc = PAM_PERM_DENIED;
    while i < lines.len()
        invariant
            i <= lines@.len(),
            n == user_name@.len(),
            rc == PAM_SUCCESS || rc == PAM_PERM_DENIED,
            (rc == PAM_SUCCESS <==> exists|j: int|
                0 <= j < i && passwd_line_matches(#[trigger] lines@[j]@, user_name@)),
        decreases lines@.len() - i,
    {
        let line = &lines[i];
        let m = line.as_str().unicode_len();
        if starts_with(line.as_str(), user_name) && m > n && line.as_str().get_char(n) == ':' {
            proof {
                assert(passwd_line_matches(lines@[i as int]@, user_name@));
            }
            rc = PAM_SUCCESS;
        }
        i = i + 1;
    }
    rc
}

} // verus!
