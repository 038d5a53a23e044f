//! Creating and destroying a session: building the handle, compiling its
//! policy table, and scrubbing every sensitive field at the end.

use vstd::prelude::*;
use crate::codes::{PAM_ABORT, PAM_CALLED_FROM_MODULE, PAM_SUCCESS, PAM_SYSTEM_ERR};
use crate::env::{utpam_drop_env, utpam_make_env};
use crate::handlers::utpam_init_handlers;
use crate::session::{handle_wf, ConfigFile, UtpamHandle, UtpamModule};
use crate::strutil::{parse_str, spec_parse_str};
use crate::zeroize_wrap::scrub_string;

verus! {

fn utpam_start_internal<M: UtpamModule, D>(
    service_name: String,
    user: Option<String>,
    confdir: Option<String>,
    confsource: Vec<ConfigFile>,
    utpamh: &mut Option<Box<UtpamHandle<M, D>>>,
) -> (r: u8)
    ensures
        r == PAM_SUCCESS || r == PAM_ABORT,
        r == PAM_SUCCESS ==> ((*final(utpamh)) matches Some(h) && (handle_wf(*h)
            && h.handlers.handlers_loaded && h.service_name@ == spec_parse_str(service_name@)
            && h.caller_is == crate::codes::PAM_CALLED_FROM_APP && h.former.choice
            == crate::codes::PAM_NOT_STACKED)),
        spec_parse_str(service_name@).len() == 0 ==> r == PAM_ABORT,
        spec_parse_str(service_name@).len() > 0 && crate::handlers::spec_source_benign(
            confsource@,
            spec_parse_str(service_name@),
        ) ==> r == PAM_SUCCESS,
        r != PAM_SUCCESS ==> *final(utpamh) == *old(utpamh),
{
    let service = parse_str(service_name);
    let mut h = UtpamHandle::<M, D>::new(service, confdir, user, confsource);
    utpam_make_env(&mut h.env);
    let res = utpam_init_handlers(&mut h);
    if res != PAM_SUCCESS {
        // The out-parameter is left as the caller had it.
        return PAM_ABORT;
    }
    *utpamh = Some(Box::new(h));
    PAM_SUCCESS
}

/// Open a session for one service: the handle is created, its environment
/// initialized and its policy table compiled from the configuration source.
/// The service name keeps only what follows the last slash, lowered.
pub fn utpam_start<M: UtpamModule, D>(
    service_name: String,
    user: Option<String>,
    confsource: Vec<ConfigFile>,
    utpamh: &mut Option<Box<UtpamHandle<M, D>>>,
) -> (r: u8)
    ensures
        r == PAM_SUCCESS || r == PAM_ABORT,
        r == PAM_SUCCESS ==> ((*final(utpamh)) matches Some(h) && (handle_wf(*h)
            && h.handlers.handlers_loaded && h.service_name@ == spec_parse_str(service_name@)
            && h.caller_is == crate::codes::PAM_CALLED_FROM_APP && h.former.choice
            == crate::codes::PAM_NOT_STACKED)),
        spec_parse_str(service_name@).len() == 0 ==> r == PAM_ABORT,
        spec_parse_str(service_name@).len() > 0 && crate::handlers::spec_source_benign(
            confsource@,
            spec_parse_str(service_name@),
        ) ==> r == PAM_SUCCESS,
        r != PAM_SUCCESS ==> *final(utpamh) == *old(utpamh),
{
    utpam_start_internal(service_name, user, None, confsource, utpamh)
}

/// Like [`utpam_start`], remembering the configuration directory the source
/// was read from.
pub fn utpam_start_confdir<M: UtpamModule, D>(
    service_name: String,
    user: Option<String>,
    confdir: String,
    confsource: Vec<ConfigFile>,
    utpamh: &mut Option<Box<UtpamHandle<M, D>>>,
) -> (r: u8)
    ensures
        r == PAM_SUCCESS || r == PAM_ABORT,
        r == PAM_SUCCESS ==> ((*final(utpamh)) matches Some(h) && (handle_wf(*h)
            && h.handlers.handlers_loaded && h.service_name@ == spec_parse_str(service_name@)
            && h.caller_is == crate::codes::PAM_CALLED_FROM_APP && h.former.choice
            == crate::codes::PAM_NOT_STACKED)),
        spec_parse_str(service_name@).len() == 0 ==> r == PAM_ABORT,
        spec_parse_str(service_name@).len() > 0 && crate::handlers::spec_source_benign(
            confsource@,
            spec_parse_str(service_name@),
        ) ==> r == PAM_SUCCESS,
        r != PAM_SUCCESS ==> *final(utpamh) == *old(utpamh),
{
    utpam_start_internal(service_name, user, Some(confdir), confsource, utpamh)
}

/// Every sensitive or identifying field of the session is gone: scrubbed
/// strings empty, prompts dropped, keyed data and environment cleared.
pub open spec fn session_scrubbed<M, D>(h: UtpamHandle<M, D>) -> bool {
    &&& h.authtok@.len() == 0
    &&& h.oldauthtok@.len() == 0
    &&& h.service_name@.len() == 0
    &&& h.user@.len() == 0
    &&& h.tty@.len() == 0
    &&& h.rhost@.len() == 0
    &&& h.ruser@.len() == 0
    &&& h.xdisplay@.len() == 0
    &&& h.authtok_type@.len() == 0
    &&& h.prompt is None
    &&& h.former.prompt is None
    &&& h.xauth.name is None
    &&& h.xauth.data@.len() == 0
    &&& h.data@.len() == 0
    &&& match h.env {
        Some(e) => e.list@.len() == 0,
        None => true,
    }
}

/// Scrub every sensitive field of a session in place, overwriting the
/// strings before they are dropped.
pub fn utpam_scrub_session<M, D>(h: &mut UtpamHandle<M, D>)
    ensures
        session_scrubbed(*final(h)),
{
    h.data.clear();
    utpam_drop_env(&mut h.env);
    scrub_string(&mut h.authtok);
    scrub_string(&mut h.oldauthtok);
    match &mut h.former.prompt {
        Some(p) => scrub_string(p),
        None => {},
    }
    h.former.prompt = None;
    scrub_string(&mut h.service_name);
    scrub_string(&mut h.user);
    match &mut h.prompt {
        Some(p) => scrub_string(p),
        None => {},
    }
    h.prompt = None;
    scrub_string(&mut h.tty);
    scrub_string(&mut h.rhost);
    scrub_string(&mut h.ruser);
    scrub_string(&mut h.xdisplay);
    match &mut h.xauth.name {
        Some(p) => scrub_string(p),
        None => {},
    }
    h.xauth.clear();
    scrub_string(&mut h.authtok_type);
}

/// Close a session: every credential and identifying string is scrubbed
/// (per [`session_scrubbed`]), and the handle is released.
pub fn utpam_end<M: UtpamModule, D>(utpamh: &mut Option<Box<UtpamHandle<M, D>>>, pam_status: u8)
    -> (r: u8)
    ensures
        *old(utpamh) is None ==> r == PAM_SYSTEM_ERR && *final(utpamh) is None,
        ((*old(utpamh)) matches Some(h) && h.caller_is == PAM_CALLED_FROM_MODULE) ==> r
            == PAM_SYSTEM_ERR && *final(utpamh) == *old(utpamh),
        ((*old(utpamh)) matches Some(h) && h.caller_is != PAM_CALLED_FROM_MODULE) ==> r
            == PAM_SUCCESS && *final(utpamh) is None,
{
    let h = match utpamh {
        Some(h) => h,
        None => {
            return PAM_SYSTEM_ERR;
        },
    };
    if h.caller_is == PAM_CALLED_FROM_MODULE {
        // A module may not tear the session down underneath the
        // application.
        return PAM_SYSTEM_ERR;
    }
    utpam_scrub_session(h);
    *utpamh = None;
    PAM_SUCCESS
}

} // verus!
