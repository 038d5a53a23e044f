//! Opaque per-session keyed data: modules stash values under a name and
//! find them again on a later call.

use vstd::prelude::*;
use crate::codes::{PAM_CALLED_FROM_APP, PAM_NO_MODULE_DATA, PAM_SUCCESS, PAM_SYSTEM_ERR};
use crate::session::UtpamHandle;
use crate::strutil::eq_str;

verus! {

/// Index of the first entry stored under `name`, or -1.
pub open spec fn spec_data_find<D>(data: Seq<(String, D)>, name: Seq<char>) -> int
    decreases data.len(),
{
    if data.len() == 0 {
        -1
    } else if data[0].0@ == name {
        0
    } else {
        let r = spec_data_find(data.skip(1), name);
        if r < 0 {
            -1
        } else {
            r + 1
        }
    }
}

pub proof fn lemma_data_find<D>(data: Seq<(String, D)>, name: Seq<char>)
    ensures
        -1 <= spec_data_find(data, name) < data.len(),
        spec_data_find(data, name) >= 0 ==> data[spec_data_find(data, name)].0@ == name,
        spec_data_find(data, name) < 0 ==> forall|i: int|
            0 <= i < data.len() ==> (#[trigger] data[i]).0@ != name,
    decreases data.len(),
{
    if data.len() > 0 && data[0].0@ != name {
        lemma_data_find(data.skip(1), name);
        if spec_data_find(data, name) < 0 {
            assert forall|i: int| 0 <= i < data.len() implies (#[trigger] data[i]).0@ != name by {
                if i > 0 {
                    assert(data.skip(1)[i - 1] == data[i]);
                    assert(data.skip(1)[i - 1].0@ != name);
                }
            };
        }
    }
}

/// Find the entry stored under `name`.
fn locate_index<M, D>(utpamh: &UtpamHandle<M, D>, name: &str) -> (r: Option<usize>)
    ensures
        match r {
            Some(i) => i == spec_data_find(utpamh.data@, name@),
            None => spec_data_find(utpamh.data@, name@) < 0,
        },
{
    proof {
        lemma_data_find(utpamh.data@, name@);
    }
    let n = utpamh.data.len();
    let mut i: usize = 0;
    while i < n
        invariant
            i <= n,
            n == utpamh.data@.len(),
            forall|j: int| 0 <= j < i ==> (#[trigger] utpamh.data@[j]).0@ != name@,
        decreases n - i,
    {
        if eq_str(utpamh.data[i].0.as_str(), name) {
            proof {
                lemma_data_find_at(utpamh.data@, name@, i as int);
            }
            return Some(i);
        }
        i = i + 1;
    }
    None
}

proof fn lemma_data_find_at<D>(data: Seq<(String, D)>, name: Seq<char>, i: int)
    requires
        0 <= i < data.len(),
        data[i].0@ == name,
        forall|j: int| 0 <= j < i ==> (#[trigger] data[j]).0@ != name,
    ensures
        spec_data_find(data, name) == i,
    decreases data.len(),
{
    if data[0].0@ != name {
        assert(forall|j: int| 0 <= j < data.skip(1).len() ==> data.skip(1)[j] == data[j + 1]);
        lemma_data_find_at(data.skip(1), name, i - 1);
    }
}

/// A borrowed view of the value stored under `name`.
pub fn utpam_locate_data<'a, M, D>(utpamh: &'a UtpamHandle<M, D>, name: &str) -> (r: Option<&'a D>)
    ensures
        match r {
            Some(d) => spec_data_find(utpamh.data@, name@) >= 0 && *d
                == utpamh.data@[spec_data_find(utpamh.data@, name@)].1,
            None => spec_data_find(utpamh.data@, name@) < 0,
        },
{
    match locate_index(utpamh, name) {
        Some(i) => {
            proof {
                lemma_data_find(utpamh.data@, name@);
            }
            Some(&utpamh.data[i].1)
        },
        None => None,
    }
}

/// Store a value under a name, replacing what was there.  Only a module may
/// touch the keyed data.  A displaced value is handed back so the caller
/// can run its own cleanup on it.
pub fn utpam_set_data<M, D>(utpamh: &mut UtpamHandle<M, D>, module_data_name: &str, data: D) -> (r:
    (u8, Option<D>))
    ensures
        old(utpamh).caller_is == PAM_CALLED_FROM_APP ==> r.0 == PAM_SYSTEM_ERR && r.1 is None
            && *final(utpamh) == *old(utpamh),
        old(utpamh).caller_is != PAM_CALLED_FROM_APP ==> {
            let at = spec_data_find(old(utpamh).data@, module_data_name@);
            &&& r.0 == PAM_SUCCESS
            &&& if at >= 0 {
                r.1 == Some(old(utpamh).data@[at].1)
            } else {
                r.1 is None
            }
            &&& *final(utpamh) == (UtpamHandle { data: final(utpamh).data, ..*old(utpamh) })
            &&& if at >= 0 {
                &&& final(utpamh).data@.len() == old(utpamh).data@.len()
                &&& final(utpamh).data@[at].0 == old(utpamh).data@[at].0
                &&& final(utpamh).data@[at].1 == data
                &&& forall|j: int|
                    0 <= j < old(utpamh).data@.len() && j != at ==> #[trigger] final(utpamh).data@[j]
                        == old(utpamh).data@[j]
            } else {
                &&& final(utpamh).data@.len() == old(utpamh).data@.len() + 1
                &&& final(utpamh).data@.last().0@ == module_data_name@
                &&& final(utpamh).data@.last().1 == data
                &&& forall|j: int|
                    0 <= j < old(utpamh).data@.len() ==> #[trigger] final(utpamh).data@[j] == old(utpamh).data@[j]
            }
        },
{
    if utpamh.caller_is == PAM_CALLED_FROM_APP {
        return (PAM_SYSTEM_ERR, None);
    }
    proof {
        lemma_data_find(utpamh.data@, module_data_name@);
    }
    match locate_index(utpamh, module_data_name) {
        Some(i) => {
            let (name, displaced) = utpamh.data.remove(i);
            utpamh.data.insert(i, (name, data));
            proof {
                assert(utpamh.data@ =~= old(utpamh).data@.update(
                    i as int,
                    utpamh.data@[i as int],
                ));
            }
            (PAM_SUCCESS, Some(displaced))
        },
        None => {
            utpamh.data.push((String::from_str(module_data_name), data));
            (PAM_SUCCESS, None)
        },
    }
}

/// Look a stored value up by its name.  Only a module may touch the keyed
/// data; a name never stored reports the absence.
pub fn utpam_get_data<'a, M, D>(utpamh: &'a UtpamHandle<M, D>, module_data_name: &str) -> (r:
    Result<&'a D, u8>)
    ensures
        match r {
            Ok(d) => utpamh.caller_is != PAM_CALLED_FROM_APP && spec_data_find(
                utpamh.data@,
                module_data_name@,
            ) >= 0 && *d == utpamh.data@[spec_data_find(utpamh.data@, module_data_name@)].1,
            Err(e) => (utpamh.caller_is == PAM_CALLED_FROM_APP && e == PAM_SYSTEM_ERR) || (
            utpamh.caller_is != PAM_CALLED_FROM_APP && e == PAM_NO_MODULE_DATA && spec_data_find(
                utpamh.data@,
                module_data_name@,
            ) < 0),
        },
{
    if utpamh.caller_is == PAM_CALLED_FROM_APP {
        return Err(PAM_SYSTEM_ERR);
    }
    match utpam_locate_data(utpamh, module_data_name) {
        Some(d) => Ok(d),
        None => Err(PAM_NO_MODULE_DATA),
    }
}

/// Drop every keyed datum.
pub fn utpam_free_data<M, D>(utpamh: &mut UtpamHandle<M, D>)
    ensures
        final(utpamh).data@.len() == 0,
        *final(utpamh) == (UtpamHandle { data: final(utpamh).data, ..*old(utpamh) }),
{
    utpamh.data.clear();
}

} // verus!
