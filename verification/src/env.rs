//! The session-local environment list: `NAME=value` strings owned by the
//! session, searched from the most recent entry backwards.

use vstd::prelude::*;
use crate::codes::{PAM_ABORT, PAM_BAD_ITEM, PAM_PERM_DENIED, PAM_SUCCESS};
use crate::strutil::starts_with;

verus! {

/// The environment list and its bookkeeping.
pub struct UtpamEnviron {
    /// How many entries were sized for; kept for accounting only.
    pub entries: i32,
    /// How many entries are in use; always the list's length.
    pub requested: usize,
    /// The `NAME=value` strings.
    pub list: Vec<String>,
}

/// A well-formed environment: the use count is the list's length.
pub open spec fn env_wf(e: UtpamEnviron) -> bool {
    e.requested == e.list@.len()
}

/// Whether `entry` binds the variable `name`: it starts with the name
/// followed by `=`.
pub open spec fn env_matches(entry: Seq<char>, name: Seq<char>) -> bool {
    &&& entry.len() > name.len()
    &&& entry.subrange(0, name.len() as int) == name
    &&& entry[name.len() as int] == '='
}

/// Index of the last entry binding `name`, or -1.
pub open spec fn spec_env_last_match(list: Seq<String>, name: Seq<char>) -> int
    decreases list.len(),
{
    if list.len() == 0 {
        -1
    } else if env_matches(list.last()@, name) {
        list.len() - 1
    } else {
        spec_env_last_match(list.drop_last(), name)
    }
}

pub proof fn lemma_env_last_match(list: Seq<String>, name: Seq<char>)
    ensures
        -1 <= spec_env_last_match(list, name) < list.len(),
        spec_env_last_match(list, name) >= 0 ==> env_matches(
            list[spec_env_last_match(list, name)]@,
            name,
        ),
        forall|j: int|
            spec_env_last_match(list, name) < j < list.len() ==> !env_matches(
                #[trigger] list[j]@,
                name,
            ),
    decreases list.len(),
{
    if list.len() > 0 && !env_matches(list.last()@, name) {
        lemma_env_last_match(list.drop_last(), name);
        assert(forall|j: int| 0 <= j < list.len() - 1 ==> list[j] == list.drop_last()[j]);
    }
}

/// First position of `c` in `s` at or after `i`, or the length.
pub open spec fn spec_find_char(s: Seq<char>, i: int, c: char) -> int
    decreases s.len() - i when 0 <= i <= s.len()
{
    if i >= s.len() {
        s.len() as int
    } else if s[i] == c {
        i
    } else {
        spec_find_char(s, i + 1, c)
    }
}

pub proof fn lemma_find_char_bounds(s: Seq<char>, i: int, c: char)
    requires
        0 <= i <= s.len(),
    ensures
        i <= spec_find_char(s, i, c) <= s.len(),
        spec_find_char(s, i, c) < s.len() ==> s[spec_find_char(s, i, c)] == c,
    decreases s.len() - i,
{
    if i < s.len() && s[i] != c {
        lemma_find_char_bounds(s, i + 1, c);
    }
}

/// First position of `c` in `s`, or the length.
pub fn find_char(s: &str, c: char) -> (r: usize)
    ensures
        r == spec_find_char(s@, 0, c),
{
    let n = s.unicode_len();
    let mut i: usize = 0;
    while i < n
        invariant
            i <= n,
            n == s@.len(),
            spec_find_char(s@, 0, c) == spec_find_char(s@, i as int, c),
        decreases n - i,
    {
        if s.get_char(i) == c {
            return i;
        }
        i = i + 1;
    }
    i
}

/// Give the session a fresh, empty environment.
pub fn utpam_make_env(env: &mut Option<UtpamEnviron>) -> (r: u8)
    ensures
        r == PAM_SUCCESS,
        (*final(env)) matches Some(e) && env_wf(e) && e.list@.len() == 0,
{
    *env = Some(UtpamEnviron { entries: 10, requested: 0, list: Vec::new() });
    PAM_SUCCESS
}

/// Empty the environment list.
pub fn utpam_drop_env(env: &mut Option<UtpamEnviron>)
    ensures
        match *final(env) {
            Some(e) => env_wf(e) && e.list@.len() == 0,
            None => *old(env) is None,
        },
{
    match env {
        Some(e) => {
            e.entries = 0;
            e.requested = 0;
            e.list.clear();
        },
        None => {},
    }
}

/// Find the entry binding the first `length` characters of `name_value`,
/// searching from the most recent entry backwards; -1 when absent.
pub fn utpam_search_env(env: &UtpamEnviron, name_value: &str, length: usize) -> (r: i32)
    requires
        length <= name_value@.len(),
        env.list@.len() < i32::MAX,
    ensures
        r == spec_env_last_match(env.list@, name_value@.subrange(0, length as int)),
{
    proof {
        lemma_env_last_match(env.list@, name_value@.subrange(0, length as int));
    }
    let ghost name = name_value@.subrange(0, length as int);
    let prefix = name_value.substring_char(0, length);
    let mut i: usize = env.list.len();
    while i > 0
        invariant
            i <= env.list@.len(),
            env.list@.len() < i32::MAX,
            name == name_value@.subrange(0, length as int),
            prefix@ == name,
            length == name.len(),
            forall|j: int| i <= j < env.list@.len() ==> !env_matches(#[trigger] env.list@[j]@, name),
        decreases i,
    {
        let entry = &env.list[i - 1];
        let matches = starts_with(entry.as_str(), prefix) && entry.as_str().unicode_len() > length
            && entry.as_str().get_char(length) == '=';
        if matches {
            proof {
                assert(env_matches(env.list@[i - 1]@, name));
                lemma_env_last_match(env.list@, name);
            }
            return (i - 1) as i32;
        }
        proof {
            assert(!env_matches(env.list@[i - 1]@, name));
        }
        i = i - 1;
    }
    proof {
        lemma_env_last_match(env.list@, name);
    }
    -1
}

/// Add, replace or delete one environment variable: `NAME=value` sets,
/// `NAME` alone deletes.
pub fn utpam_putenv(env: &mut Option<UtpamEnviron>, name_value: &str) -> (r: u8)
    requires
        match *old(env) {
            Some(e) => env_wf(e) && e.list@.len() < i32::MAX - 1,
            None => true,
        },
    ensures
        match *final(env) {
            Some(e) => env_wf(e),
            None => true,
        },
        *old(env) is None && name_value@.len() > 0 && spec_find_char(name_value@, 0, '=') > 0
            ==> r == PAM_ABORT && *final(env) is None,
        name_value@.len() == 0 ==> r == PAM_PERM_DENIED,
        ({
            let eq = spec_find_char(name_value@, 0, '=');
            let name = name_value@.subrange(0, eq);
            name_value@.len() > 0 && eq > 0 ==> ((*old(env)) matches Some(e0) ==> {
                let at = spec_env_last_match(e0.list@, name);
                if eq < name_value@.len() {
                    // Setting: replace the latest binding or append.
                    &&& r == PAM_SUCCESS
                    &&& (*final(env)) matches Some(e1) && (if at >= 0 {
                        &&& e1.list@.len() == e0.list@.len()
                        &&& e1.list@[at]@ == name_value@
                        &&& forall|j: int|
                            0 <= j < e0.list@.len() && j != at ==> #[trigger] e1.list@[j]
                                == e0.list@[j]
                    } else {
                        &&& e1.list@.len() == e0.list@.len() + 1
                        &&& e1.list@.last()@ == name_value@
                        &&& forall|j: int|
                            0 <= j < e0.list@.len() ==> #[trigger] e1.list@[j] == e0.list@[j]
                    })
                } else {
                    // Deleting: drop the latest binding if there is one.
                    if at >= 0 {
                        &&& r == PAM_SUCCESS
                        &&& (*final(env)) matches Some(e1) && e1.list@ == e0.list@.remove(at)
                    } else {
                        &&& r == PAM_BAD_ITEM
                        &&& *final(env) == *old(env)
                    }
                }
            })
        }),
        ({
            let eq = spec_find_char(name_value@, 0, '=');
            name_value@.len() > 0 && eq == 0 ==> r == PAM_BAD_ITEM && *final(env) == *old(env)
        }),
{
    proof {
        lemma_find_char_bounds(name_value@, 0, '=');
    }
    let n = name_value.unicode_len();
    if n == 0 {
        return PAM_PERM_DENIED;
    }
    let l2eq = find_char(name_value, '=');
    if l2eq == 0 {
        return PAM_BAD_ITEM;
    }
    match env {
        Some(e) => {
            let item = utpam_search_env(e, name_value, l2eq);
            proof {
                lemma_env_last_match(e.list@, name_value@.subrange(0, l2eq as int));
            }
            if l2eq < n {
                if item < 0 {
                    e.requested = e.requested + 1;
                    e.list.push(name_value.to_owned());
                } else {
                    e.list[item as usize] = name_value.to_owned();
                }
                PAM_SUCCESS
            } else {
                if item < 0 {
                    return PAM_BAD_ITEM;
                }
                e.list.remove(item as usize);
                e.requested = e.requested - 1;
                PAM_SUCCESS
            }
        },
        None => PAM_ABORT,
    }
}

/// Look one variable up; the value is everything after its `=`.
pub fn utpam_getenv(env: &Option<UtpamEnviron>, name: &str) -> (r: Option<String>)
    requires
        match *env {
            Some(e) => env_wf(e) && e.list@.len() < i32::MAX,
            None => true,
        },
    ensures
        match r {
            Some(v) => (*env) matches Some(e) && name@.len() > 0 && {
                let at = spec_env_last_match(e.list@, name@);
                at >= 0 && v@ == e.list@[at]@.subrange(name@.len() as int + 1, e.list@[at]@.len() as int)
            },
            None => match *env {
                Some(e) => name@.len() == 0 || spec_env_last_match(e.list@, name@) < 0,
                None => true,
            },
        },
{
    let e = match env {
        Some(e) => e,
        None => {
            return None;
        },
    };
    let n = name.unicode_len();
    if n == 0 {
        return None;
    }
    proof {
        assert(name@.subrange(0, n as int) =~= name@);
        lemma_env_last_match(e.list@, name@);
    }
    let item = utpam_search_env(e, name, n);
    if item < 0 {
        return None;
    }
    proof {
        lemma_env_last_match(e.list@, name@);
        assert(env_matches(e.list@[item as int]@, name@));
    }
    let entry = &e.list[item as usize];
    let m = entry.as_str().unicode_len();
    proof {
        assert(m > n);
    }
    let v = entry.as_str().substring_char(n + 1, m);
    Some(v.to_owned())
}

/// A copy of the whole environment list; the session's own list is handed
/// off and dropped, as the caller now owns the variables.
pub fn utpam_getenvlist(env: &mut Option<UtpamEnviron>) -> (r: Option<Vec<String>>)
    requires
        match *old(env) {
            Some(e) => env_wf(e),
            None => true,
        },
    ensures
        match r {
            Some(l) => (*old(env)) matches Some(e) && l@.len() == e.list@.len() && (forall|i: int|
                0 <= i < e.list@.len() ==> #[trigger] l@[i]@ == e.list@[i]@) && *final(env) is None,
            None => *old(env) is None && *final(env) is None,
        },
{
    match env {
        Some(e) => {
            let copy = crate::handlers::vec_string_copy(&e.list);
            *env = None;
            Some(copy)
        },
        None => {
            *env = None;
            None
        },
    }
}

/// Set one variable from separate name and value parts; a read-only request
/// refuses to overwrite an existing binding.
pub fn utpam_misc_setenv(env: &mut Option<UtpamEnviron>, name: &str, value: &str, readonly: bool)
    -> (r: u8)
    requires
        match *old(env) {
            Some(e) => env_wf(e) && e.list@.len() < i32::MAX - 1,
            None => true,
        },
    ensures
        match *final(env) {
            Some(e) => env_wf(e),
            None => true,
        },
        readonly && ((*old(env)) matches Some(e0) && spec_env_last_match(e0.list@, name@) >= 0)
            ==> r == PAM_PERM_DENIED && *final(env) == *old(env),
{
    if readonly {
        let existing = match env {
            Some(e) => {
                proof {
                    assert(name@.subrange(0, name@.len() as int) =~= name@);
                }
                utpam_search_env(e, name, name.unicode_len()) >= 0
            },
            None => false,
        };
        if existing {
            return PAM_PERM_DENIED;
        }
    }
    let mut pair = String::new();
    pair.append(name);
    pair.append("=");
    pair.append(value);
    utpam_putenv(env, pair.as_str())
}

/// Copy a batch of `NAME=value` strings into the environment, stopping at
/// the first one that is refused.
pub fn utpam_misc_paste_env(env: &mut Option<UtpamEnviron>, user_env: &Vec<String>) -> (r: u8)
    requires
        match *old(env) {
            Some(e) => env_wf(e),
            None => true,
        },
    ensures
        match *final(env) {
            Some(e) => env_wf(e),
            None => true,
        },
{
    let mut i: usize = 0;
    while i < user_env.len()
        invariant
            i <= user_env@.len(),
            match *env {
                Some(e) => env_wf(e),
                None => true,
            },
        decreases user_env@.len() - i,
    {
        let ok = match env {
            Some(e) => e.list.len() < (i32::MAX - 1) as usize,
            None => true,
        };
        if !ok {
            return PAM_ABORT;
        }
        let r = utpam_putenv(env, user_env[i].as_str());
        if r != PAM_SUCCESS {
            return r;
        }
        i = i + 1;
    }
    PAM_SUCCESS
}

} // verus!
