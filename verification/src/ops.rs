//! The per-operation entry points: each one guards the protocol edge cases
//! and hands the session to the dispatch engine with its operation tag.

use vstd::prelude::*;
use crate::codes::{
    PAM_ABORT, PAM_ACCOUNT, PAM_AUTHENTICATE, PAM_CALLED_FROM_MODULE, PAM_CHAUTHTOK,
    PAM_CLOSE_SESSION, PAM_ESTABLISH_CRED, PAM_INCOMPLETE, PAM_NOT_STACKED, PAM_OPEN_SESSION,
    PAM_PRELIM_CHECK, PAM_SETCRED, PAM_SUCCESS, PAM_SYSTEM_ERR, PAM_UPDATE_AUTHTOK,
};
use crate::dispatch::{
    service_eq_mod_dispatch, spec_selected_chain, spec_start_state, spec_start_depth, spec_walk,
    spec_mode_of, spec_uses_other, utpam_dispatch, WalkRes,
};
use crate::session::{handle_wf, UtpamBoolean, UtpamHandle, UtpamModule};

verus! {

/// What every dispatching operation promises: the guard results, the
/// checkpoint protocol, and — on the main path — that the result is the
/// walk of the selected chain over the observed raw returns.
pub open spec fn spec_op_post<M, D>(
    pre: UtpamHandle<M, D>,
    post: UtpamHandle<M, D>,
    r: u8,
    rets: Seq<u8>,
    choice: u8,
) -> bool {
    &&& (pre.caller_is == PAM_CALLED_FROM_MODULE ==> r == PAM_SYSTEM_ERR && post.former
        == pre.former)
    &&& (pre.caller_is != PAM_CALLED_FROM_MODULE && !pre.handlers.handlers_loaded ==> r
        == PAM_SYSTEM_ERR && post.former == pre.former)
    &&& (pre.caller_is != PAM_CALLED_FROM_MODULE && pre.handlers.handlers_loaded
        && pre.former.choice != PAM_NOT_STACKED && pre.former.choice != choice ==> r == PAM_ABORT
        && post.former == pre.former && post.handlers == pre.handlers)
    &&& ({
        let resumed = pre.former.choice == choice;
        let other = spec_uses_other(pre, choice);
        let chain = spec_selected_chain(pre, other, choice);
        let mode = spec_mode_of(choice);
        pre.caller_is != PAM_CALLED_FROM_MODULE && pre.handlers.handlers_loaded && (
        pre.former.choice == PAM_NOT_STACKED || pre.former.choice == choice) ==> {
            &&& rets.len() == chain.len()
            &&& post.former.choice == if r == PAM_INCOMPLETE {
                choice
            } else {
                PAM_NOT_STACKED
            }
            &&& match spec_walk(
                chain,
                rets,
                mode,
                spec_start_state(pre, resumed),
                pre.handlers.cells@,
                spec_start_depth(pre, resumed, chain.len() as int),
                Set::<int>::empty(),
            ) {
                WalkRes::Completed { status, cells, .. } => {
                    &&& r == status
                    &&& post.handlers.cells@ == cells
                },
                WalkRes::Suspended { st, depth, cells, .. } => {
                    &&& r == PAM_INCOMPLETE
                    &&& post.handlers.cells@ == cells
                    &&& post.former.impression == st.impression
                    &&& post.former.status == st.status
                    &&& post.former.depth == depth
                    &&& post.former.substates@ == st.substates
                },
                WalkRes::Faulted { cells, .. } => {
                    &&& r == PAM_SYSTEM_ERR
                    &&& post.handlers.cells@ == cells
                },
            }
        }
    })
}

/// Run the account-management chain.
pub fn utpam_acct_mgmt<M: UtpamModule, D>(utpamh: &mut UtpamHandle<M, D>, flags: u32) -> (res: (
    u8,
    Ghost<Seq<u8>>,
))
    requires
        handle_wf(*old(utpamh)),
    ensures
        handle_wf(*final(utpamh)),
        crate::dispatch::session_fields_eq(*old(utpamh), *final(utpamh)),
        service_eq_mod_dispatch(old(utpamh).handlers, final(utpamh).handlers),
        spec_op_post(*old(utpamh), *final(utpamh), res.0, res.1@, PAM_ACCOUNT),
{
    utpam_dispatch(utpamh, flags, PAM_ACCOUNT)
}

/// Run the session-open chain.
pub fn utpam_open_session<M: UtpamModule, D>(utpamh: &mut UtpamHandle<M, D>, flags: u32) -> (res: (
    u8,
    Ghost<Seq<u8>>,
))
    requires
        handle_wf(*old(utpamh)),
    ensures
        handle_wf(*final(utpamh)),
        crate::dispatch::session_fields_eq(*old(utpamh), *final(utpamh)),
        service_eq_mod_dispatch(old(utpamh).handlers, final(utpamh).handlers),
        spec_op_post(*old(utpamh), *final(utpamh), res.0, res.1@, PAM_OPEN_SESSION),
{
    utpam_dispatch(utpamh, flags, PAM_OPEN_SESSION)
}

/// Run the session-close chain, replaying the decisions frozen when the
/// session was opened.
pub fn utpam_close_session<M: UtpamModule, D>(utpamh: &mut UtpamHandle<M, D>, flags: u32) -> (res: (
    u8,
    Ghost<Seq<u8>>,
))
    requires
        handle_wf(*old(utpamh)),
    ensures
        handle_wf(*final(utpamh)),
        crate::dispatch::session_fields_eq(*old(utpamh), *final(utpamh)),
        service_eq_mod_dispatch(old(utpamh).handlers, final(utpamh).handlers),
        spec_op_post(*old(utpamh), *final(utpamh), res.0, res.1@, PAM_CLOSE_SESSION),
{
    utpam_dispatch(utpamh, flags, PAM_CLOSE_SESSION)
}

/// Run the credential chain, replaying the decisions frozen during
/// authentication.  A nonzero flag word is narrowed to the
/// establish-credentials request.
pub fn utpam_setcred<M: UtpamModule, D>(utpamh: &mut UtpamHandle<M, D>, flags: u32) -> (res: (
    u8,
    Ghost<Seq<u8>>,
))
    requires
        handle_wf(*old(utpamh)),
    ensures
        handle_wf(*final(utpamh)),
        crate::dispatch::session_fields_eq(*old(utpamh), *final(utpamh)),
        service_eq_mod_dispatch(old(utpamh).handlers, final(utpamh).handlers),
        spec_op_post(*old(utpamh), *final(utpamh), res.0, res.1@, PAM_SETCRED),
{
    let f = if flags != 0 {
        PAM_ESTABLISH_CRED
    } else {
        flags
    };
    utpam_dispatch(utpamh, f, PAM_SETCRED)
}

/// Scrub the session's transient authentication tokens.
fn sanitize<M, D>(utpamh: &mut UtpamHandle<M, D>)
    ensures
        final(utpamh).authtok@.len() == 0,
        final(utpamh).oldauthtok@.len() == 0,
        *final(utpamh) == (UtpamHandle {
            authtok: final(utpamh).authtok,
            oldauthtok: final(utpamh).oldauthtok,
            ..*old(utpamh)
        }),
{
    crate::zeroize_wrap::scrub_string(&mut utpamh.authtok);
    crate::zeroize_wrap::scrub_string(&mut utpamh.oldauthtok);
}

/// Run the authentication chain, timing the attempt for the fail delay.
/// `now_usec` is the caller's clock reading, used to seed the delay.
/// Authentication tokens left in the session are scrubbed before a fresh
/// walk and after any completed one.
pub fn utpam_authenticate<M: UtpamModule, D>(
    utpamh: &mut UtpamHandle<M, D>,
    flags: u32,
    now_usec: u64,
) -> (res: (u8, Ghost<Seq<u8>>))
    requires
        handle_wf(*old(utpamh)),
    ensures
        handle_wf(*final(utpamh)),
        service_eq_mod_dispatch(old(utpamh).handlers, final(utpamh).handlers),
        spec_op_post(*old(utpamh), *final(utpamh), res.0, res.1@, PAM_AUTHENTICATE),
        res.0 != PAM_INCOMPLETE && old(utpamh).caller_is != PAM_CALLED_FROM_MODULE ==> final(utpamh).authtok@.len()
            == 0 && final(utpamh).oldauthtok@.len() == 0,
        old(utpamh).caller_is != PAM_CALLED_FROM_MODULE && old(utpamh).former.choice
            == PAM_NOT_STACKED ==> final(utpamh).fail_delay.begin_usec == now_usec,
        old(utpamh).caller_is != PAM_CALLED_FROM_MODULE && old(utpamh).former.choice
            != PAM_NOT_STACKED ==> final(utpamh).fail_delay == old(utpamh).fail_delay,
{
    if utpamh.caller_is == PAM_CALLED_FROM_MODULE {
        return (PAM_SYSTEM_ERR, Ghost(Seq::empty()));
    }
    if utpamh.former.choice == PAM_NOT_STACKED {
        sanitize(utpamh);
        utpamh.fail_delay.utpam_start_timer(now_usec);
    }
    let ghost hmid = *utpamh;
    let r = utpam_dispatch(utpamh, flags, PAM_AUTHENTICATE);
    proof {
        assert(spec_selected_chain(hmid, spec_uses_other(hmid, PAM_AUTHENTICATE), PAM_AUTHENTICATE)
            == spec_selected_chain(
            *old(utpamh),
            spec_uses_other(*old(utpamh), PAM_AUTHENTICATE),
            PAM_AUTHENTICATE,
        ));
    }
    if r.0 != PAM_INCOMPLETE {
        sanitize(utpamh);
    }
    r
}

/// The session fields a dispatch walk's outcome is a function of: who is
/// calling, the policy table with its result cells, and the checkpointed
/// dispatch state.
pub open spec fn dispatch_inputs_eq<M, D>(a: UtpamHandle<M, D>, b: UtpamHandle<M, D>) -> bool {
    &&& a.caller_is == b.caller_is
    &&& a.handlers == b.handlers
    &&& a.former.choice == b.former.choice
    &&& a.former.impression == b.former.impression
    &&& a.former.status == b.former.status
    &&& a.former.depth == b.former.depth
    &&& a.former.substates == b.former.substates
}

/// Change the authentication token: a preliminary check pass over the
/// password chain, then — unless the preliminary pass succeeded outright
/// with no update pending — the update pass.  The caller may not request
/// either phase directly.  The result is tied to the two walks: each pass
/// satisfies [`spec_op_post`] for the password chain from its own
/// pre-state, whose dispatch inputs are exactly the session's.
pub fn utpam_chauthtok<M: UtpamModule, D>(utpamh: &mut UtpamHandle<M, D>, flags: u32, now_usec: u64)
    -> (r: u8)
    requires
        handle_wf(*old(utpamh)),
    ensures
        handle_wf(*final(utpamh)),
        service_eq_mod_dispatch(old(utpamh).handlers, final(utpamh).handlers),
        old(utpamh).caller_is == PAM_CALLED_FROM_MODULE ==> r == PAM_SYSTEM_ERR && *final(utpamh)
            == *old(utpamh),
        old(utpamh).caller_is != PAM_CALLED_FROM_MODULE && flags & (PAM_PRELIM_CHECK
            | PAM_UPDATE_AUTHTOK) != 0 ==> r == PAM_SYSTEM_ERR && *final(utpamh) == *old(utpamh),
        r != PAM_INCOMPLETE && old(utpamh).caller_is != PAM_CALLED_FROM_MODULE && flags & (
        PAM_PRELIM_CHECK | PAM_UPDATE_AUTHTOK) == 0 ==> final(utpamh).former.update is UtpamFalse
            && final(utpamh).authtok@.len() == 0 && final(utpamh).oldauthtok@.len() == 0,
        old(utpamh).caller_is != PAM_CALLED_FROM_MODULE && flags & (PAM_PRELIM_CHECK
            | PAM_UPDATE_AUTHTOK) == 0 ==> exists|
            pre1: UtpamHandle<M, D>,
            mid: UtpamHandle<M, D>,
            r1: u8,
            rets1: Seq<u8>,
        |
            {
                &&& #[trigger] spec_op_post(pre1, mid, r1, rets1, PAM_CHAUTHTOK)
                &&& dispatch_inputs_eq(pre1, *old(utpamh))
                &&& if mid.former.update is UtpamTrue || r1 != PAM_SUCCESS {
                    exists|pre2: UtpamHandle<M, D>, post2: UtpamHandle<M, D>, rets2: Seq<u8>|
                        {
                            &&& #[trigger] spec_op_post(pre2, post2, r, rets2, PAM_CHAUTHTOK)
                            &&& dispatch_inputs_eq(pre2, mid)
                            &&& if r == PAM_INCOMPLETE {
                                *final(utpamh) == post2
                            } else {
                                &&& *final(utpamh) == (UtpamHandle {
                                    authtok: final(utpamh).authtok,
                                    oldauthtok: final(utpamh).oldauthtok,
                                    former: final(utpamh).former,
                                    ..post2
                                })
                                &&& final(utpamh).former == (crate::session::UtpamFormerState {
                                    update: UtpamBoolean::UtpamFalse,
                                    ..post2.former
                                })
                            }
                        }
                } else {
                    &&& r == r1
                    &&& if r == PAM_INCOMPLETE {
                        *final(utpamh) == mid
                    } else {
                        &&& *final(utpamh) == (UtpamHandle {
                            authtok: final(utpamh).authtok,
                            oldauthtok: final(utpamh).oldauthtok,
                            former: final(utpamh).former,
                            ..mid
                        })
                        &&& final(utpamh).former == (crate::session::UtpamFormerState {
                            update: UtpamBoolean::UtpamFalse,
                            ..mid.former
                        })
                    }
                }
            },
{
    let ghost h0 = *utpamh;
    if utpamh.caller_is == PAM_CALLED_FROM_MODULE {
        return PAM_SYSTEM_ERR;
    }
    if flags & (PAM_PRELIM_CHECK | PAM_UPDATE_AUTHTOK) != 0 {
        // The two phases are this function's own protocol.
        return PAM_SYSTEM_ERR;
    }
    if utpamh.former.choice == PAM_NOT_STACKED {
        sanitize(utpamh);
        utpamh.fail_delay.utpam_start_timer(now_usec);
        utpamh.former.update = UtpamBoolean::UtpamFalse;
    }
    let ghost pre1 = *utpamh;
    let first = utpam_dispatch(utpamh, flags | PAM_PRELIM_CHECK, PAM_CHAUTHTOK);
    let ghost mid = *utpamh;
    let ghost r1 = first.0;
    let ghost rets1 = first.1@;
    let mut r = first.0;
    let mut second_ran = false;
    let ghost mut rets2: Seq<u8> = Seq::empty();
    let ghost mut pre2 = *utpamh;
    let ghost mut post2 = *utpamh;
    if utpamh.former.update.to_bool() || r != PAM_SUCCESS {
        utpamh.former.update = UtpamBoolean::UtpamTrue;
        proof {
            pre2 = *utpamh;
        }
        let second = utpam_dispatch(utpamh, flags | PAM_UPDATE_AUTHTOK, PAM_CHAUTHTOK);
        proof {
            post2 = *utpamh;
            rets2 = second.1@;
        }
        r = second.0;
        second_ran = true;
    }
    if r != PAM_INCOMPLETE {
        sanitize(utpamh);
        utpamh.former.update = UtpamBoolean::UtpamFalse;
    }
    proof {
        assert(dispatch_inputs_eq(pre1, h0));
        assert(spec_op_post(pre1, mid, r1, rets1, PAM_CHAUTHTOK));
        if second_ran {
            assert(dispatch_inputs_eq(pre2, mid));
            assert(spec_op_post(pre2, post2, r, rets2, PAM_CHAUTHTOK));
        } else {
            assert(r == r1);
        }
    }
    r
}

} // verus!
