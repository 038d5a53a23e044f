//! The dispatch engine: walking a resolved handler chain for one operation,
//! combining each entry's return code through its action table into a final
//! decision, suspending and resuming across `incomplete` returns.
//!
//! The walk is specified by the recursive function [`spec_walk`]: the
//! executable dispatch returns the sequence of raw module returns it
//! observed, and its result is exactly what `spec_walk` computes from them.

use vstd::prelude::*;
use crate::codes::{
    PAM_ABORT, PAM_NOT_STACKED, PAM_SETCRED, PAM_CLOSE_SESSION, PAM_CALLED_FROM_MODULE,
    PAM_ACTION_BAD, PAM_ACTION_DIE, PAM_ACTION_DONE, PAM_ACTION_OK, PAM_ACTION_RESET,
    PAM_HT_MUST_FAIL, PAM_HT_SUBSTACK, PAM_IGNORE, PAM_INCOMPLETE, PAM_INVALID_RETVAL,
    PAM_MAY_BE_FROZEN, PAM_MODULE_UNKNOWN, PAM_MUST_FAIL_CODE, PAM_NEGATIVE, PAM_PLEASE_FREEZE,
    PAM_POSITIVE, PAM_RETURN_VALUES, PAM_SUBSTACK_LEVELS, PAM_SUCCESS, PAM_SYSTEM_ERR,
    PAM_UNDEF,
};
use crate::session::{
    handle_wf, Handler, LoadedModule, Service, UtpamFormerState, UtpamHandle, UtpamModule,
    UtpamSubstackState,
};

verus! {

/// The transient state of one dispatch walk.
pub struct DState {
    /// The running decision: undecided, leaning accept, or leaning reject.
    pub impression: i32,
    /// The candidate final return code.
    pub status: u8,
    /// The per-nesting-level snapshots used by the `reset` action.
    pub substates: Seq<UtpamSubstackState>,
    /// Nesting level of the last executed entry.
    pub prev_level: int,
}

/// The snapshot array before any entry ran: every level undecided.
pub open spec fn fresh_substates() -> Seq<UtpamSubstackState> {
    Seq::new(
        PAM_SUBSTACK_LEVELS as nat,
        |i: int| UtpamSubstackState { impression: PAM_UNDEF, status: PAM_MUST_FAIL_CODE },
    )
}

/// The state a fresh (non-resumed) walk starts from.
pub open spec fn fresh_state() -> DState {
    DState {
        impression: PAM_UNDEF,
        status: PAM_MUST_FAIL_CODE,
        substates: fresh_substates(),
        prev_level: 0,
    }
}

/// The status a finished walk reports: success is owed only to a positive
/// impression; otherwise a lingering success code is forced to the generic
/// failure.
pub open spec fn spec_final_status(st: DState) -> u8 {
    if st.status == PAM_SUCCESS && st.impression != PAM_POSITIVE {
        PAM_MUST_FAIL_CODE
    } else {
        st.status
    }
}

/// Record the decision snapshot for this entry's nesting level when the
/// nesting grows deeper.
pub open spec fn spec_snapshot(st: DState, level: int) -> DState {
    if st.prev_level < level {
        DState {
            substates: st.substates.update(
                level,
                UtpamSubstackState { impression: st.impression, status: st.status },
            ),
            ..st
        }
    } else {
        st
    }
}

/// The raw return an entry produces: forced failure for a poorly-listed
/// entry, module-unknown for an entry with no resolved binding, else the
/// module's own return.
pub open spec fn spec_entry_raw(h: Handler, ret: u8) -> u8 {
    if h.handler_type == PAM_HT_MUST_FAIL {
        PAM_MUST_FAIL_CODE
    } else if h.module is None {
        PAM_MODULE_UNKNOWN
    } else {
        ret
    }
}

/// The action chosen for an effective return value; out-of-range values act
/// as `bad`.
pub open spec fn spec_action_of(h: Handler, eff: int) -> i32 {
    if eff < 0 || eff >= PAM_RETURN_VALUES {
        PAM_ACTION_BAD
    } else {
        h.actions@[eff]
    }
}

/// The return code the state machine acts with: the raw return, except that
/// an out-of-range effective value forces the generic failure.
pub open spec fn spec_rv(raw: u8, eff: int) -> u8 {
    if eff < 0 || eff >= PAM_RETURN_VALUES {
        PAM_MUST_FAIL_CODE
    } else {
        raw
    }
}

/// Whether a positive decision may be adopted: the walk is undecided, or
/// leaning accept with a plain success, and the return is not an untrusted
/// `ignore`.
pub open spec fn spec_adopts(st: DState, rv: u8, eff: int) -> bool {
    (st.impression == PAM_UNDEF || (st.impression == PAM_POSITIVE && st.status == PAM_SUCCESS))
        && (rv != PAM_IGNORE || eff == rv as int)
}

/// What one executed entry does to the walk.  `credit` names the entry
/// credited as grantor by this step, if any.
pub enum StepOut {
    /// Keep walking at index `next`.
    Next { st: DState, cells: Seq<i16>, next: int, credit: Option<int> },
    /// Terminate the walk (`done` or `die`).
    Halt { st: DState, cells: Seq<i16>, credit: Option<int> },
    /// Suspend: the module needs another round trip.
    Susp { st: DState, cells: Seq<i16> },
    /// Internal consistency fault: replay found no frozen value.
    Fault { cells: Seq<i16> },
}

/// Apply the chosen action to the walk state.  `st` is the state after the
/// snapshot update, `i` the entry's index, `n` the chain length.
pub open spec fn spec_apply_action(
    h: Handler,
    st: DState,
    cells: Seq<i16>,
    act: i32,
    rv: u8,
    eff: int,
    mode: i32,
    i: int,
    n: int,
) -> StepOut {
    let lvl = h.stack_level as int;
    if act == PAM_ACTION_RESET {
        StepOut::Next {
            st: DState {
                impression: st.substates[lvl].impression,
                status: st.substates[lvl].status,
                substates: st.substates,
                prev_level: lvl,
            },
            cells,
            next: i + 1,
            credit: None,
        }
    } else if act == PAM_ACTION_OK || act == PAM_ACTION_DONE {
        let st2 = if spec_adopts(st, rv, eff) {
            DState { impression: PAM_POSITIVE, status: rv, substates: st.substates, prev_level: lvl }
        } else {
            DState { prev_level: lvl, ..st }
        };
        let credit: Option<int> = if st2.impression == PAM_POSITIVE && rv == PAM_SUCCESS {
            Some(i)
        } else {
            None
        };
        if act == PAM_ACTION_DONE && st2.impression == PAM_POSITIVE {
            StepOut::Halt { st: st2, cells, credit }
        } else {
            StepOut::Next { st: st2, cells, next: i + 1, credit }
        }
    } else if act == PAM_ACTION_BAD || act == PAM_ACTION_DIE {
        let st2 = if st.impression != PAM_NEGATIVE {
            DState {
                impression: PAM_NEGATIVE,
                status: if rv == PAM_IGNORE {
                    PAM_MUST_FAIL_CODE
                } else {
                    rv
                },
                substates: st.substates,
                prev_level: lvl,
            }
        } else {
            DState { prev_level: lvl, ..st }
        };
        if act == PAM_ACTION_DIE {
            StepOut::Halt { st: st2, cells, credit: None }
        } else {
            StepOut::Next { st: st2, cells, next: i + 1, credit: None }
        }
    } else if act >= 1 {
        // A forward jump, honored only while replaying a frozen chain.
        if mode == PAM_MAY_BE_FROZEN {
            let st2 = if spec_adopts(st, rv, eff) {
                DState {
                    impression: PAM_POSITIVE,
                    status: rv,
                    substates: st.substates,
                    prev_level: lvl,
                }
            } else {
                DState { prev_level: lvl, ..st }
            };
            let credit: Option<int> = if spec_adopts(st, rv, eff) && st.impression == PAM_UNDEF
                && rv == PAM_SUCCESS {
                Some(i)
            } else {
                None
            };
            if i + 1 + act > n {
                // The jump leads past the end of the chain: an internal
                // stacking error.
                StepOut::Next {
                    st: DState {
                        impression: PAM_NEGATIVE,
                        status: PAM_MUST_FAIL_CODE,
                        substates: st2.substates,
                        prev_level: lvl,
                    },
                    cells,
                    next: n,
                    credit,
                }
            } else {
                StepOut::Next { st: st2, cells, next: i + 1 + act, credit }
            }
        } else {
            StepOut::Next { st: DState { prev_level: lvl, ..st }, cells, next: i + 1, credit: None }
        }
    } else {
        // `ignore`, and any unresolved action, leaves the decision alone.
        StepOut::Next { st: DState { prev_level: lvl, ..st }, cells, next: i + 1, credit: None }
    }
}

/// One entry of the walk: snapshot, raw return, freeze-or-replay, action.
pub open spec fn spec_step(
    h: Handler,
    ret: u8,
    st: DState,
    cells: Seq<i16>,
    mode: i32,
    i: int,
    n: int,
) -> StepOut {
    let st1 = spec_snapshot(st, h.stack_level as int);
    if h.handler_type == PAM_HT_SUBSTACK {
        // A structural marker: it only demarcates the nesting level.
        StepOut::Next { st: st1, cells, next: i + 1, credit: None }
    } else {
        let raw = spec_entry_raw(h, ret);
        if raw == PAM_INCOMPLETE {
            StepOut::Susp { st: st1, cells }
        } else if mode == PAM_PLEASE_FREEZE {
            let cells2 = cells.update(h.cell as int, raw as i16);
            spec_apply_action(
                h,
                st1,
                cells2,
                spec_action_of(h, raw as int),
                spec_rv(raw, raw as int),
                raw as int,
                mode,
                i,
                n,
            )
        } else {
            let c = cells[h.cell as int] as int;
            if c == PAM_INVALID_RETVAL {
                StepOut::Fault { cells }
            } else {
                spec_apply_action(
                    h,
                    st1,
                    cells,
                    spec_action_of(h, c),
                    spec_rv(raw, c),
                    c,
                    mode,
                    i,
                    n,
                )
            }
        }
    }
}

/// Grow a credit set by an optional credit.
pub open spec fn with_credit(gr: Set<int>, credit: Option<int>) -> Set<int> {
    match credit {
        Some(c) => gr.insert(c),
        None => gr,
    }
}

/// How a whole walk ends.  `grantors` holds the indices of the entries the
/// walk credited with the accepted decision.
pub enum WalkRes {
    /// The chain was walked to an end: the final status and the result
    /// cells as the walk left them.
    Completed { status: u8, cells: Seq<i16>, grantors: Set<int> },
    /// A module returned `incomplete`: the state to checkpoint.
    Suspended { st: DState, depth: int, cells: Seq<i16>, grantors: Set<int> },
    /// Replay of a chain that was never frozen: a system error.
    Faulted { cells: Seq<i16>, grantors: Set<int> },
}

/// The whole walk from index `i`: `rets[j]` is the raw return the module of
/// entry `j` would give if invoked, and `gr` the credits granted so far.
pub open spec fn spec_walk(
    chain: Seq<Handler>,
    rets: Seq<u8>,
    mode: i32,
    st: DState,
    cells: Seq<i16>,
    i: int,
    gr: Set<int>,
) -> WalkRes
    decreases chain.len() - i when 0 <= i <= chain.len()
{
    if i >= chain.len() {
        WalkRes::Completed { status: spec_final_status(st), cells, grantors: gr }
    } else {
        match spec_step(chain[i], rets[i], st, cells, mode, i, chain.len() as int) {
            StepOut::Next { st: st2, cells: c2, next, credit } => {
                if next <= i || next > chain.len() {
                    // Never produced by a well-formed step; close the walk.
                    WalkRes::Completed {
                        status: spec_final_status(st2),
                        cells: c2,
                        grantors: with_credit(gr, credit),
                    }
                } else {
                    spec_walk(chain, rets, mode, st2, c2, next, with_credit(gr, credit))
                }
            },
            StepOut::Halt { st: st2, cells: c2, credit } => WalkRes::Completed {
                status: spec_final_status(st2),
                cells: c2,
                grantors: with_credit(gr, credit),
            },
            StepOut::Susp { st: st2, cells: c2 } => WalkRes::Suspended {
                st: st2,
                depth: i,
                cells: c2,
                grantors: gr,
            },
            StepOut::Fault { cells: c2 } => WalkRes::Faulted { cells: c2, grantors: gr },
        }
    }
}

// ---------------------------------------------------------------------------
// Frame conditions: what a dispatch walk may and may not touch.
// ---------------------------------------------------------------------------

/// Two handlers equal in everything but the grantor flag.
pub open spec fn handler_eq_mod_grantor(a: Handler, b: Handler) -> bool {
    b == (Handler { grantor: b.grantor, ..a })
}

/// Two chains equal entry for entry, grantor flags aside.
pub open spec fn chain_eq_mod_grantor(a: Seq<Handler>, b: Seq<Handler>) -> bool {
    &&& a.len() == b.len()
    &&& forall|i: int| 0 <= i < a.len() ==> handler_eq_mod_grantor(#[trigger] a[i], b[i])
}

/// Grantor flags only ever turn on: a walk credits entries, it never
/// uncredits them.
pub open spec fn chain_grantors_monotone(a: Seq<Handler>, b: Seq<Handler>) -> bool {
    &&& a.len() == b.len()
    &&& forall|i: int| 0 <= i < a.len() ==> ((#[trigger] a[i]).grantor ==> b[i].grantor)
}

proof fn lemma_grantors_monotone_trans(a: Seq<Handler>, b: Seq<Handler>, c: Seq<Handler>)
    requires
        chain_grantors_monotone(a, b),
        chain_grantors_monotone(b, c),
    ensures
        chain_grantors_monotone(a, c),
{
}

/// The module registry keeps its length and names; the bindings themselves
/// may have been exercised.
pub open spec fn modules_names_eq<M>(a: Seq<LoadedModule<M>>, b: Seq<LoadedModule<M>>) -> bool {
    &&& a.len() == b.len()
    &&& forall|i: int| 0 <= i < a.len() ==> #[trigger] b[i].name == a[i].name
}

/// What a dispatch walk leaves of the policy table: every chain unchanged
/// but for grantor flags, the registry's names kept.  The result cells are
/// stated separately.
pub open spec fn service_eq_mod_dispatch<M>(a: Service<M>, b: Service<M>) -> bool {
    &&& chain_eq_mod_grantor(a.conf.authenticate@, b.conf.authenticate@)
    &&& chain_eq_mod_grantor(a.conf.setcred@, b.conf.setcred@)
    &&& chain_eq_mod_grantor(a.conf.acct_mgmt@, b.conf.acct_mgmt@)
    &&& chain_eq_mod_grantor(a.conf.open_session@, b.conf.open_session@)
    &&& chain_eq_mod_grantor(a.conf.close_session@, b.conf.close_session@)
    &&& chain_eq_mod_grantor(a.conf.chauthtok@, b.conf.chauthtok@)
    &&& chain_eq_mod_grantor(a.other.authenticate@, b.other.authenticate@)
    &&& chain_eq_mod_grantor(a.other.setcred@, b.other.setcred@)
    &&& chain_eq_mod_grantor(a.other.acct_mgmt@, b.other.acct_mgmt@)
    &&& chain_eq_mod_grantor(a.other.open_session@, b.other.open_session@)
    &&& chain_eq_mod_grantor(a.other.close_session@, b.other.close_session@)
    &&& chain_eq_mod_grantor(a.other.chauthtok@, b.other.chauthtok@)
    &&& modules_names_eq(a.module@, b.module@)
    &&& b.handlers_loaded == a.handlers_loaded
}

/// Every session field a dispatch walk never touches.
pub open spec fn session_fields_eq<M, D>(a: UtpamHandle<M, D>, b: UtpamHandle<M, D>) -> bool {
    &&& b.authtok == a.authtok
    &&& b.caller_is == a.caller_is
    &&& b.oldauthtok == a.oldauthtok
    &&& b.prompt == a.prompt
    &&& b.service_name == a.service_name
    &&& b.user == a.user
    &&& b.rhost == a.rhost
    &&& b.ruser == a.ruser
    &&& b.tty == a.tty
    &&& b.xdisplay == a.xdisplay
    &&& b.authtok_type == a.authtok_type
    &&& b.data == a.data
    &&& b.env == a.env
    &&& b.fail_delay == a.fail_delay
    &&& b.xauth == a.xauth
    &&& b.mod_name == a.mod_name
    &&& b.mod_argv == a.mod_argv
    &&& b.choice == a.choice
    &&& b.confdir == a.confdir
    &&& b.confsource == a.confsource
}

/// The checkpoint fields the walk machinery never touches.
pub open spec fn former_rest_eq(a: UtpamFormerState, b: UtpamFormerState) -> bool {
    &&& b.choice == a.choice
    &&& b.fail_user == a.fail_user
    &&& b.want_user == a.want_user
    &&& b.prompt == a.prompt
    &&& b.update == a.update
}

/// A checkpoint whose dispatch state was consumed and cleared.
pub open spec fn former_cleared(a: UtpamFormerState, b: UtpamFormerState) -> bool {
    &&& b.impression == PAM_UNDEF
    &&& b.status == PAM_MUST_FAIL_CODE
    &&& b.depth == 0
    &&& b.substates@ == fresh_substates()
    &&& former_rest_eq(a, b)
}

/// The chain a dispatch walks: the named service's chain for the operation,
/// or the fallback service's.
pub open spec fn spec_selected_chain<M, D>(h: UtpamHandle<M, D>, other: bool, op: u8) -> Seq<
    Handler,
> {
    if other {
        h.handlers.other.spec_chain(op)
    } else {
        h.handlers.conf.spec_chain(op)
    }
}

/// The state a walk starts from: fresh, or restored from the checkpoint.
pub open spec fn spec_start_state<M, D>(h: UtpamHandle<M, D>, resumed: bool) -> DState {
    if resumed {
        DState {
            impression: h.former.impression,
            status: h.former.status,
            substates: h.former.substates@,
            prev_level: 0,
        }
    } else {
        fresh_state()
    }
}

/// The index a walk starts at: the checkpointed depth (capped at the chain's
/// end), or zero.
pub open spec fn spec_start_depth<M, D>(h: UtpamHandle<M, D>, resumed: bool, n: int) -> int {
    if resumed {
        if h.former.depth < n {
            h.former.depth as int
        } else {
            n
        }
    } else {
        0
    }
}

// ---------------------------------------------------------------------------
// Executable helpers.
// ---------------------------------------------------------------------------

/// A fresh snapshot vector, one cleared slot per nesting level.
fn fresh_substates_vec() -> (r: Vec<UtpamSubstackState>)
    ensures
        r@ =~= fresh_substates(),
{
    let mut v: Vec<UtpamSubstackState> = Vec::new();
    let mut i: usize = 0;
    while i < PAM_SUBSTACK_LEVELS
        invariant
            i <= PAM_SUBSTACK_LEVELS,
            v@.len() == i,
            forall|j: int|
                0 <= j < i ==> v@[j] == (UtpamSubstackState {
                    impression: PAM_UNDEF,
                    status: PAM_MUST_FAIL_CODE,
                }),
        decreases PAM_SUBSTACK_LEVELS - i,
    {
        v.push(UtpamSubstackState { impression: PAM_UNDEF, status: PAM_MUST_FAIL_CODE });
        i = i + 1;
    }
    v
}

/// An exact copy of a snapshot vector.
fn substates_copy(v: &Vec<UtpamSubstackState>) -> (r: Vec<UtpamSubstackState>)
    ensures
        r@ =~= v@,
{
    let mut r: Vec<UtpamSubstackState> = Vec::new();
    let mut i: usize = 0;
    while i < v.len()
        invariant
            i <= v@.len(),
            r@.len() == i,
            forall|j: int| 0 <= j < i ==> r@[j] == v@[j],
        decreases v@.len() - i,
    {
        r.push(v[i]);
        i = i + 1;
    }
    r
}

/// Length of the selected chain.
fn sel_chain_len<M, D>(h: &UtpamHandle<M, D>, other: bool, op: u8) -> (n: usize)
    ensures
        n == spec_selected_chain(*h, other, op).len(),
{
    let hs = if other {
        &h.handlers.other
    } else {
        &h.handlers.conf
    };
    if op == crate::codes::PAM_AUTHENTICATE {
        hs.authenticate.len()
    } else if op == crate::codes::PAM_SETCRED {
        hs.setcred.len()
    } else if op == crate::codes::PAM_ACCOUNT {
        hs.acct_mgmt.len()
    } else if op == crate::codes::PAM_OPEN_SESSION {
        hs.open_session.len()
    } else if op == crate::codes::PAM_CLOSE_SESSION {
        hs.close_session.len()
    } else {
        hs.chauthtok.len()
    }
}

/// Borrow one entry of the selected chain.
fn sel_chain_entry<'a, M, D>(h: &'a UtpamHandle<M, D>, other: bool, op: u8, i: usize) -> (e:
    &'a Handler)
    requires
        i < spec_selected_chain(*h, other, op).len(),
    ensures
        *e == spec_selected_chain(*h, other, op)[i as int],
{
    let hs = if other {
        &h.handlers.other
    } else {
        &h.handlers.conf
    };
    if op == crate::codes::PAM_AUTHENTICATE {
        &hs.authenticate[i]
    } else if op == crate::codes::PAM_SETCRED {
        &hs.setcred[i]
    } else if op == crate::codes::PAM_ACCOUNT {
        &hs.acct_mgmt[i]
    } else if op == crate::codes::PAM_OPEN_SESSION {
        &hs.open_session[i]
    } else if op == crate::codes::PAM_CLOSE_SESSION {
        &hs.close_session[i]
    } else {
        &hs.chauthtok[i]
    }
}

/// Credit entry `i` of the selected chain with the accepted decision.
fn sel_set_grantor<M, D>(h: &mut UtpamHandle<M, D>, other: bool, op: u8, i: usize)
    requires
        1 <= op <= 6,
        i < spec_selected_chain(*old(h), other, op).len(),
    ensures
        spec_selected_chain(*final(h), other, op) == spec_selected_chain(
            *old(h),
            other,
            op,
        ).update(
            i as int,
            (Handler { grantor: true, ..spec_selected_chain(*old(h), other, op)[i as int] }),
        ),
        forall|o2: bool, op2: u8|
            1 <= op2 <= 6 && !(o2 == other && op2 == op) ==> spec_selected_chain(*final(h), o2, op2)
                == spec_selected_chain(*old(h), o2, op2),
        final(h).handlers.module == old(h).handlers.module,
        final(h).handlers.cells == old(h).handlers.cells,
        final(h).handlers.handlers_loaded == old(h).handlers.handlers_loaded,
        session_fields_eq(*old(h), *final(h)),
        final(h).former == old(h).former,
        service_eq_mod_dispatch(old(h).handlers, final(h).handlers),
        chain_grantors_monotone(
            spec_selected_chain(*old(h), other, op),
            spec_selected_chain(*final(h), other, op),
        ),
{
    let hs = if other {
        &mut h.handlers.other
    } else {
        &mut h.handlers.conf
    };
    if op == crate::codes::PAM_AUTHENTICATE {
        hs.authenticate[i].grantor = true;
    } else if op == crate::codes::PAM_SETCRED {
        hs.setcred[i].grantor = true;
    } else if op == crate::codes::PAM_ACCOUNT {
        hs.acct_mgmt[i].grantor = true;
    } else if op == crate::codes::PAM_OPEN_SESSION {
        hs.open_session[i].grantor = true;
    } else if op == crate::codes::PAM_CLOSE_SESSION {
        hs.close_session[i].grantor = true;
    } else {
        hs.chauthtok[i].grantor = true;
    }
    proof {
        let a = spec_selected_chain(*old(h), other, op);
        let b = spec_selected_chain(*h, other, op);
        assert forall|k: int| 0 <= k < a.len() implies handler_eq_mod_grantor(
            #[trigger] a[k],
            b[k],
        ) by {
            if k != i {
                assert(b[k] == a[k]);
            }
        };
    }
}

/// Run the module bound at registry slot `mi` for this operation; a slot
/// with no binding reports the module as unknown.
fn invoke_module<M: UtpamModule, D>(
    h: &mut UtpamHandle<M, D>,
    mi: usize,
    op: u8,
    flags: u32,
    argv: &Vec<String>,
) -> (r: u8)
    requires
        mi < old(h).handlers.module@.len(),
    ensures
        final(h).handlers.module@.len() == old(h).handlers.module@.len(),
        forall|j: int|
            0 <= j < old(h).handlers.module@.len() && j != mi ==> final(h).handlers.module@[j]
                == old(h).handlers.module@[j],
        final(h).handlers.module@[mi as int].name == old(h).handlers.module@[mi as int].name,
        final(h).handlers.cells == old(h).handlers.cells,
        final(h).handlers.conf == old(h).handlers.conf,
        final(h).handlers.other == old(h).handlers.other,
        final(h).handlers.handlers_loaded == old(h).handlers.handlers_loaded,
        session_fields_eq(*old(h), *final(h)),
        final(h).former == old(h).former,
{
    let lm = &mut h.handlers.module[mi];
    match &mut lm.binding {
        Some(m) => m.invoke(op, flags, argv),
        None => PAM_MODULE_UNKNOWN,
    }
}

/// A chain stays well formed when only grantor flags differ.
proof fn lemma_chain_wf_mod_grantor(a: Seq<Handler>, b: Seq<Handler>, nm: nat, nc: nat)
    requires
        chain_eq_mod_grantor(a, b),
        crate::session::chain_wf(a, nm, nc),
    ensures
        crate::session::chain_wf(b, nm, nc),
{
    assert forall|i: int| 0 <= i < b.len() implies crate::session::handler_wf(
        #[trigger] b[i],
        nm,
        nc,
    ) by {
        assert(handler_eq_mod_grantor(a[i], b[i]));
        assert(crate::session::handler_wf(a[i], nm, nc));
    };
}

/// The policy table stays well formed across a dispatch walk.
proof fn lemma_service_wf_mod_dispatch<M>(a: Service<M>, b: Service<M>)
    requires
        crate::session::service_wf(a),
        service_eq_mod_dispatch(a, b),
        b.cells@.len() == a.cells@.len(),
    ensures
        crate::session::service_wf(b),
{
    let nm = a.module@.len();
    let nc = a.cells@.len();
    lemma_chain_wf_mod_grantor(a.conf.authenticate@, b.conf.authenticate@, nm, nc);
    lemma_chain_wf_mod_grantor(a.conf.setcred@, b.conf.setcred@, nm, nc);
    lemma_chain_wf_mod_grantor(a.conf.acct_mgmt@, b.conf.acct_mgmt@, nm, nc);
    lemma_chain_wf_mod_grantor(a.conf.open_session@, b.conf.open_session@, nm, nc);
    lemma_chain_wf_mod_grantor(a.conf.close_session@, b.conf.close_session@, nm, nc);
    lemma_chain_wf_mod_grantor(a.conf.chauthtok@, b.conf.chauthtok@, nm, nc);
    lemma_chain_wf_mod_grantor(a.other.authenticate@, b.other.authenticate@, nm, nc);
    lemma_chain_wf_mod_grantor(a.other.setcred@, b.other.setcred@, nm, nc);
    lemma_chain_wf_mod_grantor(a.other.acct_mgmt@, b.other.acct_mgmt@, nm, nc);
    lemma_chain_wf_mod_grantor(a.other.open_session@, b.other.open_session@, nm, nc);
    lemma_chain_wf_mod_grantor(a.other.close_session@, b.other.close_session@, nm, nc);
    lemma_chain_wf_mod_grantor(a.other.chauthtok@, b.other.chauthtok@, nm, nc);
}

/// `service_eq_mod_dispatch` composes.
proof fn lemma_service_eq_trans<M>(a: Service<M>, b: Service<M>, c: Service<M>)
    requires
        service_eq_mod_dispatch(a, b),
        service_eq_mod_dispatch(b, c),
    ensures
        service_eq_mod_dispatch(a, c),
{
}

/// How one entry of the walk ended, as the executable code reports it.
enum StepExec {
    /// Keep walking.
    Continue,
    /// The walk terminated; the folded final status.
    Halted(u8),
    /// The entry's module needs another round trip.
    Suspended,
    /// Replay found no frozen value.
    Faulted,
}

/// Process one entry of the chain: snapshot, module call, freeze or replay,
/// action.  The mutable scalars mirror the ghost walk state; the returned
/// ghost value is the raw return observed, and the outcome is exactly what
/// [`spec_step`] says for it.
#[verifier::rlimit(100)]
fn walk_one<M: UtpamModule, D>(
    utpamh: &mut UtpamHandle<M, D>,
    flags: u32,
    other: bool,
    op: u8,
    mode: i32,
    impression: &mut i32,
    status: &mut u8,
    substates: &mut Vec<UtpamSubstackState>,
    prev_level: &mut usize,
    depth: &mut usize,
    Ghost(chain): Ghost<Seq<Handler>>,
) -> (r: (StepExec, Ghost<u8>, Ghost<Option<int>>))
    requires
        1 <= op <= 6,
        mode == PAM_PLEASE_FREEZE || mode == PAM_MAY_BE_FROZEN,
        *old(depth) < chain.len(),
        chain.len() == spec_selected_chain(*old(utpamh), other, op).len(),
        chain_eq_mod_grantor(chain, spec_selected_chain(*old(utpamh), other, op)),
        crate::session::chain_wf(
            chain,
            old(utpamh).handlers.module@.len() as nat,
            old(utpamh).handlers.cells@.len() as nat,
        ),
        old(substates)@.len() == PAM_SUBSTACK_LEVELS,
        *old(prev_level) < PAM_SUBSTACK_LEVELS,
    ensures
        session_fields_eq(*old(utpamh), *final(utpamh)),
        service_eq_mod_dispatch(old(utpamh).handlers, final(utpamh).handlers),
        chain_eq_mod_grantor(chain, spec_selected_chain(*final(utpamh), other, op)),
        chain_grantors_monotone(
            spec_selected_chain(*old(utpamh), other, op),
            spec_selected_chain(*final(utpamh), other, op),
        ),
        forall|o2: bool, op2: u8|
            1 <= op2 <= 6 && !(o2 == other && op2 == op) ==> #[trigger] spec_selected_chain(
                *final(utpamh),
                o2,
                op2,
            ) == spec_selected_chain(*old(utpamh), o2, op2),
        match r.2@ {
            Some(ci) => ci == *old(depth) as int && spec_selected_chain(*final(utpamh), other, op)
                == spec_selected_chain(*old(utpamh), other, op).update(
                ci,
                (Handler {
                    grantor: true,
                    ..spec_selected_chain(*old(utpamh), other, op)[ci]
                }),
            ),
            None => spec_selected_chain(*final(utpamh), other, op) == spec_selected_chain(
                *old(utpamh),
                other,
                op,
            ),
        },
        final(utpamh).handlers.cells@.len() == old(utpamh).handlers.cells@.len(),
        final(substates)@.len() == PAM_SUBSTACK_LEVELS,
        *final(prev_level) < PAM_SUBSTACK_LEVELS,
        ({
            let gst = DState {
                impression: *old(impression),
                status: *old(status),
                substates: old(substates)@,
                prev_level: *old(prev_level) as int,
            };
            let gst2 = DState {
                impression: *final(impression),
                status: *final(status),
                substates: final(substates)@,
                prev_level: *final(prev_level) as int,
            };
            let stepres = spec_step(
                chain[*old(depth) as int],
                r.1@,
                gst,
                old(utpamh).handlers.cells@,
                mode,
                *old(depth) as int,
                chain.len() as int,
            );
            match r.0 {
                StepExec::Continue => {
                    &&& stepres == (StepOut::Next {
                        st: gst2,
                        cells: final(utpamh).handlers.cells@,
                        next: *final(depth) as int,
                        credit: r.2@,
                    })
                    &&& *old(depth) < *final(depth) <= chain.len()
                    &&& final(utpamh).former == old(utpamh).former
                },
                StepExec::Halted(rr) => {
                    &&& stepres == (StepOut::Halt {
                        st: gst2,
                        cells: final(utpamh).handlers.cells@,
                        credit: r.2@,
                    })
                    &&& rr == spec_final_status(gst2)
                    &&& final(utpamh).former == old(utpamh).former
                },
                StepExec::Suspended => {
                    &&& r.2@ is None
                    &&& stepres == (StepOut::Susp {
                        st: gst2,
                        cells: final(utpamh).handlers.cells@,
                    })
                    &&& final(utpamh).former.impression == gst2.impression
                    &&& final(utpamh).former.status == gst2.status
                    &&& final(utpamh).former.depth == *old(depth)
                    &&& final(utpamh).former.substates@ == gst2.substates
                    &&& former_rest_eq(old(utpamh).former, final(utpamh).former)
                },
                StepExec::Faulted => {
                    &&& r.2@ is None
                    &&& stepres == (StepOut::Fault { cells: final(utpamh).handlers.cells@ })
                    &&& final(utpamh).former == old(utpamh).former
                },
            }
        }),
{
    let ghost gst = DState {
        impression: *impression,
        status: *status,
        substates: substates@,
        prev_level: *prev_level as int,
    };
    let ghost cells_a = utpamh.handlers.cells@;
    let ghost d0 = *depth as int;
    let ghost n_int = chain.len() as int;
    let ghost mut gcredit: Option<int> = None;
    let n = sel_chain_len(utpamh, other, op);
    let e = sel_chain_entry(utpamh, other, op, *depth);
    let htype = e.handler_type;
    let mi_opt = e.module;
    let cellidx = e.cell;
    let lvl = e.stack_level;
    let argv = e.argv.clone();
    proof {
        assert(handler_eq_mod_grantor(chain[d0], spec_selected_chain(*utpamh, other, op)[d0]));
        assert(crate::session::handler_wf(
            chain[d0],
            utpamh.handlers.module@.len() as nat,
            utpamh.handlers.cells@.len() as nat,
        ));
        assert(htype == chain[d0].handler_type);
        assert(mi_opt == chain[d0].module);
        assert(cellidx == chain[d0].cell);
        assert(lvl == chain[d0].stack_level);
    }
    // Record the decision snapshot when the nesting level grows.
    if *prev_level < lvl {
        let snap = UtpamSubstackState { impression: *impression, status: *status };
        substates[lvl] = snap;
    }
    let ghost st1 = spec_snapshot(gst, lvl as int);
    proof {
        assert(st1.substates =~= substates@);
        assert(st1.substates == substates@);
    }
    if htype == PAM_HT_SUBSTACK {
        // Structural marker: nothing executes, the nesting level was noted.
        *depth = *depth + 1;
        proof {
            assert(spec_step(chain[d0], 0u8, gst, cells_a, mode, d0, n_int) == (StepOut::Next {
                st: st1,
                cells: cells_a,
                next: d0 + 1,
                credit: None,
            }));
        }
        return (StepExec::Continue, Ghost(0u8), Ghost(None));
    }
    // The entry's raw return.
    let raw: u8 = if htype == PAM_HT_MUST_FAIL {
        PAM_MUST_FAIL_CODE
    } else {
        match mi_opt {
            Some(mi) => invoke_module(utpamh, mi, op, flags, &argv),
            None => PAM_MODULE_UNKNOWN,
        }
    };
    proof {
        assert(raw == spec_entry_raw(chain[d0], raw));
    }
    if raw == PAM_INCOMPLETE {
        // Checkpoint the walk for the resuming call.
        utpamh.former.impression = *impression;
        utpamh.former.status = *status;
        utpamh.former.depth = *depth;
        utpamh.former.substates = substates_copy(substates);
        proof {
            assert(spec_step(chain[d0], raw, gst, cells_a, mode, d0, n_int) == (StepOut::Susp {
                st: st1,
                cells: cells_a,
            }));
        }
        return (StepExec::Suspended, Ghost(raw), Ghost(None));
    }
    // The effective value: freeze the raw return, or read the frozen one.
    let eff: i32;
    if mode == PAM_PLEASE_FREEZE {
        utpamh.handlers.cells[cellidx] = raw as i16;
        eff = raw as i32;
    } else {
        let c = utpamh.handlers.cells[cellidx];
        if c == PAM_INVALID_RETVAL {
            // Replay of a chain that was never frozen: an internal
            // consistency fault, not a policy decision.
            proof {
                assert(spec_step(chain[d0], raw, gst, cells_a, mode, d0, n_int) == (StepOut::Fault {
                    cells: cells_a,
                }));
            }
            return (StepExec::Faulted, Ghost(raw), Ghost(None));
        }
        eff = c as i32;
    }
    let ghost cells_b = utpamh.handlers.cells@;
    // The action this value maps to, and the value acted with.
    let act: i32;
    let rv: u8;
    if eff < 0 || eff >= PAM_RETURN_VALUES as i32 {
        act = PAM_ACTION_BAD;
        rv = PAM_MUST_FAIL_CODE;
    } else {
        let e2 = sel_chain_entry(utpamh, other, op, *depth);
        proof {
            assert(handler_eq_mod_grantor(chain[d0], spec_selected_chain(*utpamh, other, op)[d0]));
        }
        act = e2.actions[eff as usize];
        rv = raw;
    }
    proof {
        assert(act == spec_action_of(chain[d0], eff as int));
        assert(rv == spec_rv(raw, eff as int));
        assert(spec_step(chain[d0], raw, gst, cells_a, mode, d0, n_int) == spec_apply_action(
            chain[d0],
            st1,
            cells_b,
            act,
            rv,
            eff as int,
            mode,
            d0,
            n_int,
        ));
    }
    let mut halted = false;
    if act == PAM_ACTION_RESET {
        *impression = substates[lvl].impression;
        *status = substates[lvl].status;
        *prev_level = lvl;
        *depth = *depth + 1;
    } else if act == PAM_ACTION_OK || act == PAM_ACTION_DONE {
        let adopt = (*impression == PAM_UNDEF || (*impression == PAM_POSITIVE && *status
            == PAM_SUCCESS)) && (rv != PAM_IGNORE || eff == rv as i32);
        if adopt {
            *impression = PAM_POSITIVE;
            *status = rv;
        }
        *prev_level = lvl;
        if *impression == PAM_POSITIVE {
            if rv == PAM_SUCCESS {
                sel_set_grantor(utpamh, other, op, *depth);
                proof {
                    gcredit = Some(d0);
                }
            }
            if act == PAM_ACTION_DONE {
                halted = true;
            }
        }
        if !halted {
            *depth = *depth + 1;
        }
    } else if act == PAM_ACTION_BAD || act == PAM_ACTION_DIE {
        if *impression != PAM_NEGATIVE {
            *impression = PAM_NEGATIVE;
            *status = if rv == PAM_IGNORE {
                PAM_MUST_FAIL_CODE
            } else {
                rv
            };
        }
        *prev_level = lvl;
        if act == PAM_ACTION_DIE {
            halted = true;
        } else {
            *depth = *depth + 1;
        }
    } else if act >= 1 {
        // A forward jump, honored only while replaying a frozen chain.
        if mode == PAM_MAY_BE_FROZEN {
            let adopt = (*impression == PAM_UNDEF || (*impression == PAM_POSITIVE && *status
                == PAM_SUCCESS)) && (rv != PAM_IGNORE || eff == rv as i32);
            if adopt {
                if *impression == PAM_UNDEF && rv == PAM_SUCCESS {
                    sel_set_grantor(utpamh, other, op, *depth);
                    proof {
                        gcredit = Some(d0);
                    }
                }
                *impression = PAM_POSITIVE;
                *status = rv;
            }
            *prev_level = lvl;
            let jump = act as usize;
            if jump > n - (*depth + 1) {
                // Jumping past the end of the chain: an internal stacking
                // error.
                *impression = PAM_NEGATIVE;
                *status = PAM_MUST_FAIL_CODE;
                *depth = n;
            } else {
                *depth = *depth + 1 + jump;
            }
        } else {
            *prev_level = lvl;
            *depth = *depth + 1;
        }
    } else {
        *prev_level = lvl;
        *depth = *depth + 1;
    }
    let ghost gst2 = DState {
        impression: *impression,
        status: *status,
        substates: substates@,
        prev_level: *prev_level as int,
    };
    if halted {
        let rr = if *status == PAM_SUCCESS && *impression != PAM_POSITIVE {
            PAM_MUST_FAIL_CODE
        } else {
            *status
        };
        proof {
            assert(spec_apply_action(chain[d0], st1, cells_b, act, rv, eff as int, mode, d0, n_int)
                == (StepOut::Halt { st: gst2, cells: cells_b, credit: gcredit }));
            assert(rr == spec_final_status(gst2));
        }
        return (StepExec::Halted(rr), Ghost(raw), Ghost(gcredit));
    }
    proof {
        assert(spec_apply_action(chain[d0], st1, cells_b, act, rv, eff as int, mode, d0, n_int)
            == (StepOut::Next { st: gst2, cells: cells_b, next: *depth as int, credit: gcredit }));
    }
    (StepExec::Continue, Ghost(raw), Ghost(gcredit))
}

/// Extending the walk by one `Next` step keeps the running equivalence
/// between the walk from the start and the walk from the current state.
proof fn lemma_walk_step_next(
    chain: Seq<Handler>,
    mode: i32,
    st0: DState,
    cells0: Seq<i16>,
    start: int,
    gst: DState,
    cells_a: Seq<i16>,
    d0: int,
    raw: u8,
    gst2: DState,
    cells_b: Seq<i16>,
    next: int,
    rets0: Seq<u8>,
    rets: Seq<u8>,
    gr: Set<int>,
    credit: Option<int>,
)
    requires
        0 <= d0 < chain.len(),
        d0 < next <= chain.len(),
        rets0.len() == chain.len(),
        rets == rets0.update(d0, raw),
        spec_step(chain[d0], raw, gst, cells_a, mode, d0, chain.len() as int) == (StepOut::Next {
            st: gst2,
            cells: cells_b,
            next: next,
            credit: credit,
        }),
        forall|r: Seq<u8>|
            #![trigger spec_walk(chain, r, mode, st0, cells0, start, Set::<int>::empty())]
            r.len() == chain.len() && (forall|j: int| 0 <= j < d0 ==> r[j] == rets0[j])
                ==> spec_walk(chain, r, mode, st0, cells0, start, Set::<int>::empty())
                == spec_walk(chain, r, mode, gst, cells_a, d0, gr),
    ensures
        forall|r: Seq<u8>|
            #![trigger spec_walk(chain, r, mode, st0, cells0, start, Set::<int>::empty())]
            r.len() == chain.len() && (forall|j: int| 0 <= j < next ==> r[j] == rets[j])
                ==> spec_walk(chain, r, mode, st0, cells0, start, Set::<int>::empty())
                == spec_walk(chain, r, mode, gst2, cells_b, next, with_credit(gr, credit)),
{
    assert forall|r: Seq<u8>|
        #![trigger spec_walk(chain, r, mode, st0, cells0, start, Set::<int>::empty())]
        r.len() == chain.len() && (forall|j: int| 0 <= j < next ==> r[j] == rets[j])
            implies spec_walk(chain, r, mode, st0, cells0, start, Set::<int>::empty())
            == spec_walk(chain, r, mode, gst2, cells_b, next, with_credit(gr, credit)) by {
        assert(forall|j: int| 0 <= j < d0 ==> r[j] == rets0[j]);
        assert(r[d0] == raw);
        assert(spec_step(chain[d0], r[d0], gst, cells_a, mode, d0, chain.len() as int)
            == (StepOut::Next { st: gst2, cells: cells_b, next: next, credit: credit }));
        assert(spec_walk(chain, r, mode, gst, cells_a, d0, gr) == spec_walk(
            chain,
            r,
            mode,
            gst2,
            cells_b,
            next,
            with_credit(gr, credit),
        ));
    };
}

/// A terminating step closes the walk with the matching overall result.
proof fn lemma_walk_step_end(
    chain: Seq<Handler>,
    mode: i32,
    st0: DState,
    cells0: Seq<i16>,
    start: int,
    gst: DState,
    cells_a: Seq<i16>,
    d0: int,
    raw: u8,
    rets0: Seq<u8>,
    rets: Seq<u8>,
    gr: Set<int>,
)
    requires
        0 <= d0 < chain.len(),
        rets0.len() == chain.len(),
        rets == rets0.update(d0, raw),
        forall|r: Seq<u8>|
            #![trigger spec_walk(chain, r, mode, st0, cells0, start, Set::<int>::empty())]
            r.len() == chain.len() && (forall|j: int| 0 <= j < d0 ==> r[j] == rets0[j])
                ==> spec_walk(chain, r, mode, st0, cells0, start, Set::<int>::empty())
                == spec_walk(chain, r, mode, gst, cells_a, d0, gr),
    ensures
        ({
            let res = spec_walk(chain, rets, mode, st0, cells0, start, Set::<int>::empty());
            match spec_step(chain[d0], raw, gst, cells_a, mode, d0, chain.len() as int) {
                StepOut::Halt { st, cells, credit } => res == (WalkRes::Completed {
                    status: spec_final_status(st),
                    cells,
                    grantors: with_credit(gr, credit),
                }),
                StepOut::Susp { st, cells } => res == (WalkRes::Suspended {
                    st,
                    depth: d0,
                    cells,
                    grantors: gr,
                }),
                StepOut::Fault { cells } => res == (WalkRes::Faulted { cells, grantors: gr }),
                StepOut::Next { .. } => true,
            }
        }),
{
    assert(rets.len() == chain.len());
    assert(forall|j: int| 0 <= j < d0 ==> rets[j] == rets0[j]);
    assert(spec_walk(chain, rets, mode, st0, cells0, start, Set::<int>::empty()) == spec_walk(
        chain,
        rets,
        mode,
        gst,
        cells_a,
        d0,
        gr,
    ));
    assert(rets[d0] == raw);
}

/// Walk the selected chain once: the heart of the dispatch engine.
///
/// Returns the final return code together with the sequence of raw module
/// returns it observed; the result is exactly what [`spec_walk`] computes
/// from that sequence.  A suspension writes the checkpoint fields of
/// `former`; a completed walk leaves them cleared (when resuming) or
/// untouched.
#[verifier::rlimit(100)]
pub fn utpam_dispatch_aux<M: UtpamModule, D>(
    utpamh: &mut UtpamHandle<M, D>,
    flags: u32,
    other: bool,
    op: u8,
    resumed: bool,
    use_cached_chain: i32,
) -> (res: (u8, Ghost<Seq<u8>>))
    requires
        handle_wf(*old(utpamh)),
        1 <= op <= 6,
        use_cached_chain == PAM_PLEASE_FREEZE || use_cached_chain == PAM_MAY_BE_FROZEN,
    ensures
        handle_wf(*final(utpamh)),
        session_fields_eq(*old(utpamh), *final(utpamh)),
        service_eq_mod_dispatch(old(utpamh).handlers, final(utpamh).handlers),
        chain_grantors_monotone(
            spec_selected_chain(*old(utpamh), other, op),
            spec_selected_chain(*final(utpamh), other, op),
        ),
        forall|o2: bool, op2: u8|
            1 <= op2 <= 6 && !(o2 == other && op2 == op) ==> #[trigger] spec_selected_chain(
                *final(utpamh),
                o2,
                op2,
            ) == spec_selected_chain(*old(utpamh), o2, op2),
        res.1@.len() == spec_selected_chain(*old(utpamh), other, op).len(),
        ({
            let chain = spec_selected_chain(*old(utpamh), other, op);
            let walk = spec_walk(
                chain,
                res.1@,
                use_cached_chain,
                spec_start_state(*old(utpamh), resumed),
                old(utpamh).handlers.cells@,
                spec_start_depth(*old(utpamh), resumed, chain.len() as int),
                Set::<int>::empty(),
            );
            // The selected chain ends exactly as it began, with this walk's
            // credits turned on.
            let credited = match walk {
                WalkRes::Completed { grantors, .. } => grantors,
                WalkRes::Suspended { grantors, .. } => grantors,
                WalkRes::Faulted { grantors, .. } => grantors,
            };
            &&& forall|k: int|
                0 <= k < chain.len() ==> #[trigger] spec_selected_chain(*final(utpamh), other, op)[k]
                    == if credited.contains(k) {
                    Handler { grantor: true, ..chain[k] }
                } else {
                    chain[k]
                }
            &&& match walk {
                WalkRes::Completed { status, cells, grantors } => {
                    &&& res.0 == status
                    &&& final(utpamh).handlers.cells@ == cells
                    &&& if resumed {
                        former_cleared(old(utpamh).former, final(utpamh).former)
                    } else {
                        final(utpamh).former == old(utpamh).former
                    }
                },
                WalkRes::Suspended { st, depth, cells, grantors } => {
                    &&& res.0 == PAM_INCOMPLETE
                    &&& final(utpamh).handlers.cells@ == cells
                    &&& final(utpamh).former.impression == st.impression
                    &&& final(utpamh).former.status == st.status
                    &&& final(utpamh).former.depth == depth
                    &&& final(utpamh).former.substates@ == st.substates
                    &&& former_rest_eq(old(utpamh).former, final(utpamh).former)
                },
                WalkRes::Faulted { cells, grantors } => {
                    &&& res.0 == PAM_SYSTEM_ERR
                    &&& final(utpamh).handlers.cells@ == cells
                    &&& if resumed {
                        former_cleared(old(utpamh).former, final(utpamh).former)
                    } else {
                        final(utpamh).former == old(utpamh).former
                    }
                },
            }
        }),
{
    let ghost h0 = *utpamh;
    let ghost chain = spec_selected_chain(*utpamh, other, op);
    let ghost cells0 = utpamh.handlers.cells@;
    let n = sel_chain_len(utpamh, other, op);
    let mut impression: i32;
    let mut status: u8;
    let mut substates: Vec<UtpamSubstackState>;
    let mut depth: usize;
    if resumed {
        impression = utpamh.former.impression;
        status = utpamh.former.status;
        substates = substates_copy(&utpamh.former.substates);
        depth = if utpamh.former.depth < n {
            utpamh.former.depth
        } else {
            n
        };
        utpamh.former.impression = PAM_UNDEF;
        utpamh.former.status = PAM_MUST_FAIL_CODE;
        utpamh.former.depth = 0;
        utpamh.former.substates = fresh_substates_vec();
    } else {
        impression = PAM_UNDEF;
        status = PAM_MUST_FAIL_CODE;
        substates = fresh_substates_vec();
        depth = 0;
    }
    let mut prev_level: usize = 0;
    let ghost st0 = spec_start_state(h0, resumed);
    let ghost start = spec_start_depth(h0, resumed, n as int);
    let ghost mut rets: Seq<u8> = Seq::new(n as nat, |j: int| 0u8);
    let ghost mut gr: Set<int> = Set::empty();
    proof {
        assert(st0.substates == substates@);
        assert(start == depth as int);
        assert(st0 == (DState {
            impression: impression,
            status: status,
            substates: substates@,
            prev_level: prev_level as int,
        }));
    }
    while depth < n
        invariant
            n == chain.len(),
            depth <= n,
            1 <= op <= 6,
            use_cached_chain == PAM_PLEASE_FREEZE || use_cached_chain == PAM_MAY_BE_FROZEN,
            chain == spec_selected_chain(h0, other, op),
            h0 == *old(utpamh),
            cells0 == h0.handlers.cells@,
            st0 == spec_start_state(h0, resumed),
            start == spec_start_depth(h0, resumed, n as int),
            handle_wf(h0),
            session_fields_eq(h0, *utpamh),
            service_eq_mod_dispatch(h0.handlers, utpamh.handlers),
            chain_eq_mod_grantor(chain, spec_selected_chain(*utpamh, other, op)),
            chain_grantors_monotone(
                spec_selected_chain(h0, other, op),
                spec_selected_chain(*utpamh, other, op),
            ),
            forall|o2: bool, op2: u8|
                1 <= op2 <= 6 && !(o2 == other && op2 == op) ==> #[trigger] spec_selected_chain(
                    *utpamh,
                    o2,
                    op2,
                ) == spec_selected_chain(h0, o2, op2),
            utpamh.handlers.cells@.len() == cells0.len(),
            if resumed {
                former_cleared(h0.former, utpamh.former)
            } else {
                utpamh.former == h0.former
            },
            substates@.len() == PAM_SUBSTACK_LEVELS,
            prev_level < PAM_SUBSTACK_LEVELS,
            rets.len() == n,
            forall|k: int|
                0 <= k < n ==> #[trigger] spec_selected_chain(*utpamh, other, op)[k]
                    == if gr.contains(k) {
                    Handler { grantor: true, ..chain[k] }
                } else {
                    chain[k]
                },
            forall|r: Seq<u8>|
                #![trigger spec_walk(chain, r, use_cached_chain, st0, cells0, start, Set::<int>::empty())]
                r.len() == n && (forall|j: int| 0 <= j < depth ==> r[j] == rets[j])
                    ==> spec_walk(
                    chain,
                    r,
                    use_cached_chain,
                    st0,
                    cells0,
                    start,
                    Set::<int>::empty(),
                ) == spec_walk(
                    chain,
                    r,
                    use_cached_chain,
                    DState {
                        impression: impression,
                        status: status,
                        substates: substates@,
                        prev_level: prev_level as int,
                    },
                    utpamh.handlers.cells@,
                    depth as int,
                    gr,
                ),
        decreases n - depth,
    {
        let ghost gst = DState {
            impression: impression,
            status: status,
            substates: substates@,
            prev_level: prev_level as int,
        };
        let ghost cells_a = utpamh.handlers.cells@;
        let ghost rets0 = rets;
        let ghost d0 = depth as int;
        proof {
            assert(crate::session::chain_wf(
                chain,
                utpamh.handlers.module@.len() as nat,
                utpamh.handlers.cells@.len() as nat,
            ));
        }
        let ghost hpre = *utpamh;
        let ghost gr0 = gr;
        let (se, graw, gcr) = walk_one(
            utpamh,
            flags,
            other,
            op,
            use_cached_chain,
            &mut impression,
            &mut status,
            &mut substates,
            &mut prev_level,
            &mut depth,
            Ghost(chain),
        );
        proof {
            rets = rets0.update(d0, graw@);
            gr = with_credit(gr0, gcr@);
            lemma_service_eq_trans(h0.handlers, hpre.handlers, utpamh.handlers);
            lemma_grantors_monotone_trans(
                spec_selected_chain(h0, other, op),
                spec_selected_chain(hpre, other, op),
                spec_selected_chain(*utpamh, other, op),
            );
            assert forall|k: int|
                0 <= k < n implies #[trigger] spec_selected_chain(*utpamh, other, op)[k]
                == if gr.contains(k) {
                Handler { grantor: true, ..chain[k] }
            } else {
                chain[k]
            } by {
                match gcr@ {
                    Some(ci) => {
                        if k != ci {
                            assert(spec_selected_chain(*utpamh, other, op)[k]
                                == spec_selected_chain(hpre, other, op)[k]);
                        }
                    },
                    None => {
                        assert(spec_selected_chain(*utpamh, other, op)[k] == spec_selected_chain(
                            hpre,
                            other,
                            op,
                        )[k]);
                    },
                }
            };
        }
        let ghost gst2 = DState {
            impression: impression,
            status: status,
            substates: substates@,
            prev_level: prev_level as int,
        };
        match se {
            StepExec::Continue => {
                proof {
                    lemma_walk_step_next(
                        chain,
                        use_cached_chain,
                        st0,
                        cells0,
                        start,
                        gst,
                        cells_a,
                        d0,
                        graw@,
                        gst2,
                        utpamh.handlers.cells@,
                        depth as int,
                        rets0,
                        rets,
                        gr0,
                        gcr@,
                    );
                }
            },
            StepExec::Halted(rr) => {
                proof {
                    lemma_walk_step_end(
                        chain,
                        use_cached_chain,
                        st0,
                        cells0,
                        start,
                        gst,
                        cells_a,
                        d0,
                        graw@,
                        rets0,
                        rets,
                        gr0,
                    );
                    lemma_service_wf_mod_dispatch(h0.handlers, utpamh.handlers);
                }
                return (rr, Ghost(rets));
            },
            StepExec::Suspended => {
                proof {
                    lemma_walk_step_end(
                        chain,
                        use_cached_chain,
                        st0,
                        cells0,
                        start,
                        gst,
                        cells_a,
                        d0,
                        graw@,
                        rets0,
                        rets,
                        gr0,
                    );
                    lemma_service_wf_mod_dispatch(h0.handlers, utpamh.handlers);
                }
                return (PAM_INCOMPLETE, Ghost(rets));
            },
            StepExec::Faulted => {
                proof {
                    lemma_walk_step_end(
                        chain,
                        use_cached_chain,
                        st0,
                        cells0,
                        start,
                        gst,
                        cells_a,
                        d0,
                        graw@,
                        rets0,
                        rets,
                        gr0,
                    );
                    lemma_service_wf_mod_dispatch(h0.handlers, utpamh.handlers);
                }
                return (PAM_SYSTEM_ERR, Ghost(rets));
            },
        }
    }
    let r = if status == PAM_SUCCESS && impression != PAM_POSITIVE {
        PAM_MUST_FAIL_CODE
    } else {
        status
    };
    proof {
        let gst = DState {
            impression: impression,
            status: status,
            substates: substates@,
            prev_level: prev_level as int,
        };
        assert(spec_walk(chain, rets, use_cached_chain, st0, cells0, start, Set::<int>::empty())
            == spec_walk(
            chain,
            rets,
            use_cached_chain,
            gst,
            utpamh.handlers.cells@,
            depth as int,
            gr,
        ));
        assert(spec_walk(chain, rets, use_cached_chain, gst, utpamh.handlers.cells@, n as int, gr)
            == (WalkRes::Completed {
            status: spec_final_status(gst),
            cells: utpamh.handlers.cells@,
            grantors: gr,
        }));
        assert(r == spec_final_status(gst));
        lemma_service_wf_mod_dispatch(h0.handlers, utpamh.handlers);
    }
    (r, Ghost(rets))
}

/// The walk never looks at grantor flags: chains that differ only there
/// walk alike.
pub proof fn lemma_walk_eq_mod_grantor(
    a: Seq<Handler>,
    b: Seq<Handler>,
    rets: Seq<u8>,
    mode: i32,
    st: DState,
    cells: Seq<i16>,
    i: int,
    gr: Set<int>,
)
    requires
        chain_eq_mod_grantor(a, b),
        0 <= i <= a.len(),
    ensures
        spec_walk(a, rets, mode, st, cells, i, gr) == spec_walk(b, rets, mode, st, cells, i, gr),
    decreases a.len() - i,
{
    if i < a.len() {
        assert(handler_eq_mod_grantor(a[i], b[i]));
        assert(a[i].handler_type == b[i].handler_type);
        assert(a[i].module == b[i].module);
        assert(a[i].actions == b[i].actions);
        assert(a[i].cell == b[i].cell);
        assert(a[i].stack_level == b[i].stack_level);
        assert(spec_step(a[i], rets[i], st, cells, mode, i, a.len() as int) == spec_step(
            b[i],
            rets[i],
            st,
            cells,
            mode,
            i,
            b.len() as int,
        ));
        match spec_step(a[i], rets[i], st, cells, mode, i, a.len() as int) {
            StepOut::Next { st: st2, cells: c2, next, credit } => {
                if i < next <= a.len() {
                    lemma_walk_eq_mod_grantor(a, b, rets, mode, st2, c2, next, with_credit(
                        gr,
                        credit,
                    ));
                }
            },
            StepOut::Halt { .. } => {},
            StepOut::Susp { .. } => {},
            StepOut::Fault { .. } => {},
        }
    }
}

/// A chain differs from itself in nothing, grantor flags included.
proof fn lemma_chain_eq_refl(a: Seq<Handler>)
    ensures
        chain_eq_mod_grantor(a, a),
{
    assert forall|i: int| 0 <= i < a.len() implies handler_eq_mod_grantor(
        #[trigger] a[i],
        a[i],
    ) by {};
}

/// Every policy table relates to itself.
proof fn lemma_service_eq_refl<M>(s: Service<M>)
    ensures
        service_eq_mod_dispatch(s, s),
{
    lemma_chain_eq_refl(s.conf.authenticate@);
    lemma_chain_eq_refl(s.conf.setcred@);
    lemma_chain_eq_refl(s.conf.acct_mgmt@);
    lemma_chain_eq_refl(s.conf.open_session@);
    lemma_chain_eq_refl(s.conf.close_session@);
    lemma_chain_eq_refl(s.conf.chauthtok@);
    lemma_chain_eq_refl(s.other.authenticate@);
    lemma_chain_eq_refl(s.other.setcred@);
    lemma_chain_eq_refl(s.other.acct_mgmt@);
    lemma_chain_eq_refl(s.other.open_session@);
    lemma_chain_eq_refl(s.other.close_session@);
    lemma_chain_eq_refl(s.other.chauthtok@);
}

/// Clear every grantor flag of the selected chain, so that a fresh walk
/// starts with a clean audit trail.
fn sel_clear_grantors<M, D>(h: &mut UtpamHandle<M, D>, other: bool, op: u8)
    requires
        1 <= op <= 6,
    ensures
        spec_selected_chain(*final(h), other, op).len() == spec_selected_chain(
            *old(h),
            other,
            op,
        ).len(),
        forall|i: int|
            0 <= i < spec_selected_chain(*old(h), other, op).len()
                ==> #[trigger] spec_selected_chain(*final(h), other, op)[i] == (Handler {
                grantor: false,
                ..spec_selected_chain(*old(h), other, op)[i]
            }),
        forall|o2: bool, op2: u8|
            1 <= op2 <= 6 && !(o2 == other && op2 == op) ==> spec_selected_chain(*final(h), o2, op2)
                == spec_selected_chain(*old(h), o2, op2),
        final(h).handlers.module == old(h).handlers.module,
        final(h).handlers.cells == old(h).handlers.cells,
        final(h).handlers.handlers_loaded == old(h).handlers.handlers_loaded,
        session_fields_eq(*old(h), *final(h)),
        final(h).former == old(h).former,
        service_eq_mod_dispatch(old(h).handlers, final(h).handlers),
{
    let n = sel_chain_len(h, other, op);
    let mut i: usize = 0;
    while i < n
        invariant
            1 <= op <= 6,
            i <= n,
            n == spec_selected_chain(*old(h), other, op).len(),
            spec_selected_chain(*h, other, op).len() == n,
            forall|k: int|
                0 <= k < i ==> #[trigger] spec_selected_chain(*h, other, op)[k] == (Handler {
                    grantor: false,
                    ..spec_selected_chain(*old(h), other, op)[k]
                }),
            forall|k: int|
                i <= k < n ==> #[trigger] spec_selected_chain(*h, other, op)[k]
                    == spec_selected_chain(*old(h), other, op)[k],
            forall|o2: bool, op2: u8|
                1 <= op2 <= 6 && !(o2 == other && op2 == op) ==> spec_selected_chain(*h, o2, op2)
                    == spec_selected_chain(*old(h), o2, op2),
            h.handlers.module == old(h).handlers.module,
            h.handlers.cells == old(h).handlers.cells,
            h.handlers.handlers_loaded == old(h).handlers.handlers_loaded,
            session_fields_eq(*old(h), *h),
            h.former == old(h).former,
        decreases n - i,
    {
        let hs = if other {
            &mut h.handlers.other
        } else {
            &mut h.handlers.conf
        };
        if op == crate::codes::PAM_AUTHENTICATE {
            hs.authenticate[i].grantor = false;
        } else if op == crate::codes::PAM_SETCRED {
            hs.setcred[i].grantor = false;
        } else if op == crate::codes::PAM_ACCOUNT {
            hs.acct_mgmt[i].grantor = false;
        } else if op == crate::codes::PAM_OPEN_SESSION {
            hs.open_session[i].grantor = false;
        } else if op == crate::codes::PAM_CLOSE_SESSION {
            hs.close_session[i].grantor = false;
        } else {
            hs.chauthtok[i].grantor = false;
        }
        i = i + 1;
    }
    proof {
        assert forall|k: int| 0 <= k < n implies handler_eq_mod_grantor(
            #[trigger] spec_selected_chain(*old(h), other, op)[k],
            spec_selected_chain(*h, other, op)[k],
        ) by {};
        assert(chain_eq_mod_grantor(
            spec_selected_chain(*old(h), other, op),
            spec_selected_chain(*h, other, op),
        ));
        lemma_service_eq_refl(old(h).handlers);
        assert(spec_selected_chain(*h, false, crate::codes::PAM_AUTHENTICATE) == spec_selected_chain(
            *old(h),
            false,
            crate::codes::PAM_AUTHENTICATE,
        ) || (false == other && crate::codes::PAM_AUTHENTICATE == op));
        assert(spec_selected_chain(*h, false, crate::codes::PAM_SETCRED) == spec_selected_chain(
            *old(h),
            false,
            crate::codes::PAM_SETCRED,
        ) || (false == other && crate::codes::PAM_SETCRED == op));
        assert(spec_selected_chain(*h, false, crate::codes::PAM_ACCOUNT) == spec_selected_chain(
            *old(h),
            false,
            crate::codes::PAM_ACCOUNT,
        ) || (false == other && crate::codes::PAM_ACCOUNT == op));
        assert(spec_selected_chain(*h, false, crate::codes::PAM_OPEN_SESSION) == spec_selected_chain(
            *old(h),
            false,
            crate::codes::PAM_OPEN_SESSION,
        ) || (false == other && crate::codes::PAM_OPEN_SESSION == op));
        assert(spec_selected_chain(*h, false, crate::codes::PAM_CLOSE_SESSION) == spec_selected_chain(
            *old(h),
            false,
            crate::codes::PAM_CLOSE_SESSION,
        ) || (false == other && crate::codes::PAM_CLOSE_SESSION == op));
        assert(spec_selected_chain(*h, false, crate::codes::PAM_CHAUTHTOK) == spec_selected_chain(
            *old(h),
            false,
            crate::codes::PAM_CHAUTHTOK,
        ) || (false == other && crate::codes::PAM_CHAUTHTOK == op));
        assert(spec_selected_chain(*h, true, crate::codes::PAM_AUTHENTICATE) == spec_selected_chain(
            *old(h),
            true,
            crate::codes::PAM_AUTHENTICATE,
        ) || (true == other && crate::codes::PAM_AUTHENTICATE == op));
        assert(spec_selected_chain(*h, true, crate::codes::PAM_SETCRED) == spec_selected_chain(
            *old(h),
            true,
            crate::codes::PAM_SETCRED,
        ) || (true == other && crate::codes::PAM_SETCRED == op));
        assert(spec_selected_chain(*h, true, crate::codes::PAM_ACCOUNT) == spec_selected_chain(
            *old(h),
            true,
            crate::codes::PAM_ACCOUNT,
        ) || (true == other && crate::codes::PAM_ACCOUNT == op));
        assert(spec_selected_chain(*h, true, crate::codes::PAM_OPEN_SESSION) == spec_selected_chain(
            *old(h),
            true,
            crate::codes::PAM_OPEN_SESSION,
        ) || (true == other && crate::codes::PAM_OPEN_SESSION == op));
        assert(spec_selected_chain(*h, true, crate::codes::PAM_CLOSE_SESSION) == spec_selected_chain(
            *old(h),
            true,
            crate::codes::PAM_CLOSE_SESSION,
        ) || (true == other && crate::codes::PAM_CLOSE_SESSION == op));
        assert(spec_selected_chain(*h, true, crate::codes::PAM_CHAUTHTOK) == spec_selected_chain(
            *old(h),
            true,
            crate::codes::PAM_CHAUTHTOK,
        ) || (true == other && crate::codes::PAM_CHAUTHTOK == op));
        assert(service_eq_mod_dispatch(old(h).handlers, h.handlers));
    }
}

/// Whether this dispatch call must fall back to the `other` chains: the
/// named service has no entries for the operation.
pub open spec fn spec_uses_other<M, D>(h: UtpamHandle<M, D>, op: u8) -> bool {
    h.handlers.conf.spec_chain(op).len() == 0
}

/// The freeze/replay mode an operation dispatches with: credential teardown
/// and session close replay the decisions frozen by their matching setup
/// call.
pub open spec fn spec_mode_of(op: u8) -> i32 {
    if op == PAM_SETCRED || op == PAM_CLOSE_SESSION {
        PAM_MAY_BE_FROZEN
    } else {
        PAM_PLEASE_FREEZE
    }
}

/// Dispatch one operation over the session's resolved policy table.
///
/// Rejections come first: a call from module context, an unloaded policy
/// table, an unknown operation, and a resume whose operation differs from
/// the checkpointed one all return without touching the chains — the last
/// leaves the checkpoint exactly as it was.  Otherwise the selected chain
/// is walked per [`spec_walk`] and the checkpoint's operation tag records
/// whether the walk suspended.
pub fn utpam_dispatch<M: UtpamModule, D>(utpamh: &mut UtpamHandle<M, D>, flags: u32, choice: u8)
    -> (res: (u8, Ghost<Seq<u8>>))
    requires
        handle_wf(*old(utpamh)),
    ensures
        handle_wf(*final(utpamh)),
        session_fields_eq(*old(utpamh), *final(utpamh)),
        service_eq_mod_dispatch(old(utpamh).handlers, final(utpamh).handlers),
        old(utpamh).caller_is == PAM_CALLED_FROM_MODULE ==> res.0 == PAM_SYSTEM_ERR
            && *final(utpamh) == *old(utpamh),
        old(utpamh).caller_is != PAM_CALLED_FROM_MODULE && !old(utpamh).handlers.handlers_loaded
            ==> res.0 == PAM_SYSTEM_ERR && *final(utpamh) == *old(utpamh),
        old(utpamh).caller_is != PAM_CALLED_FROM_MODULE && old(utpamh).handlers.handlers_loaded && !(
        1 <= choice <= 6) ==> res.0 == PAM_ABORT && *final(utpamh) == *old(utpamh),
        old(utpamh).caller_is != PAM_CALLED_FROM_MODULE && old(utpamh).handlers.handlers_loaded && 1
            <= choice <= 6 && old(utpamh).former.choice != PAM_NOT_STACKED
            && old(utpamh).former.choice != choice ==> res.0 == PAM_ABORT
            && *final(utpamh) == *old(utpamh),
        ({
            let other = spec_uses_other(*old(utpamh), choice);
            old(utpamh).caller_is != PAM_CALLED_FROM_MODULE && old(utpamh).handlers.handlers_loaded
                && 1 <= choice <= 6 && (old(utpamh).former.choice == PAM_NOT_STACKED
                || old(utpamh).former.choice == choice) ==> {
                // Grantor bookkeeping: a resuming call keeps every credit the
                // earlier walk granted, and no other chain is touched.
                &&& (old(utpamh).former.choice == choice ==> chain_grantors_monotone(
                    spec_selected_chain(*old(utpamh), other, choice),
                    spec_selected_chain(*final(utpamh), other, choice),
                ))
                &&& forall|o2: bool, op2: u8|
                    1 <= op2 <= 6 && !(o2 == other && op2 == choice)
                        ==> #[trigger] spec_selected_chain(*final(utpamh), o2, op2)
                        == spec_selected_chain(*old(utpamh), o2, op2)
            }
        }),
        ({
            let resumed = old(utpamh).former.choice == choice;
            let other = spec_uses_other(*old(utpamh), choice);
            let chain = spec_selected_chain(*old(utpamh), other, choice);
            let mode = spec_mode_of(choice);
            old(utpamh).caller_is != PAM_CALLED_FROM_MODULE && old(utpamh).handlers.handlers_loaded
                && 1 <= choice <= 6 && (old(utpamh).former.choice == PAM_NOT_STACKED
                || old(utpamh).former.choice == choice) ==> {
                &&& res.1@.len() == chain.len()
                &&& final(utpamh).former.choice == if res.0 == PAM_INCOMPLETE {
                    choice
                } else {
                    PAM_NOT_STACKED
                }
                &&& ({
                    let walk = spec_walk(
                        chain,
                        res.1@,
                        mode,
                        spec_start_state(*old(utpamh), resumed),
                        old(utpamh).handlers.cells@,
                        spec_start_depth(*old(utpamh), resumed, chain.len() as int),
                        Set::<int>::empty(),
                    );
                    let credited = match walk {
                        WalkRes::Completed { grantors, .. } => grantors,
                        WalkRes::Suspended { grantors, .. } => grantors,
                        WalkRes::Faulted { grantors, .. } => grantors,
                    };
                    // Grantor bookkeeping: a fresh walk starts from a clean
                    // slate, so exactly the entries this walk credits end
                    // credited; a resuming walk only ever adds credits.
                    &&& forall|k: int|
                        0 <= k < chain.len() ==> (#[trigger] spec_selected_chain(
                            *final(utpamh),
                            other,
                            choice,
                        )[k].grantor == if resumed {
                            chain[k].grantor || credited.contains(k)
                        } else {
                            credited.contains(k)
                        })
                    &&& match walk {
                        WalkRes::Completed { status, cells, grantors } => {
                            &&& res.0 == status
                            &&& final(utpamh).handlers.cells@ == cells
                            &&& resumed ==> final(utpamh).former.depth == 0
                                && final(utpamh).former.impression == PAM_UNDEF
                        },
                        WalkRes::Suspended { st, depth, cells, grantors } => {
                            &&& res.0 == PAM_INCOMPLETE
                            &&& final(utpamh).handlers.cells@ == cells
                            &&& final(utpamh).former.impression == st.impression
                            &&& final(utpamh).former.status == st.status
                            &&& final(utpamh).former.depth == depth
                            &&& final(utpamh).former.substates@ == st.substates
                        },
                        WalkRes::Faulted { cells, grantors } => {
                            &&& res.0 == PAM_SYSTEM_ERR
                            &&& final(utpamh).handlers.cells@ == cells
                        },
                    }
                })
            }
        }),
{
    if utpamh.caller_is == PAM_CALLED_FROM_MODULE {
        return (PAM_SYSTEM_ERR, Ghost(Seq::empty()));
    }
    if !utpamh.handlers.handlers_loaded {
        // The policy table was never compiled for this session.
        return (PAM_SYSTEM_ERR, Ghost(Seq::empty()));
    }
    if !(1 <= choice && choice <= 6) {
        return (PAM_ABORT, Ghost(Seq::empty()));
    }
    // A pending checkpoint belongs to exactly one operation.
    let resumed: bool;
    if utpamh.former.choice != PAM_NOT_STACKED {
        if utpamh.former.choice != choice {
            return (PAM_ABORT, Ghost(Seq::empty()));
        }
        resumed = true;
    } else {
        resumed = false;
    }
    let ghost h0 = *utpamh;
    let other = sel_chain_len(utpamh, false, choice) == 0;
    let mode = if choice == PAM_SETCRED || choice == PAM_CLOSE_SESSION {
        PAM_MAY_BE_FROZEN
    } else {
        PAM_PLEASE_FREEZE
    };
    if !resumed {
        // A fresh walk starts with a clean audit trail.
        sel_clear_grantors(utpamh, other, choice);
        proof {
            lemma_service_wf_mod_dispatch(h0.handlers, utpamh.handlers);
        }
    }
    let ghost h1 = *utpamh;
    proof {
        if resumed {
            lemma_service_eq_refl(h0.handlers);
        }
    }
    let (rr, grets) = utpam_dispatch_aux(utpamh, flags, other, choice, resumed, mode);
    proof {
        lemma_service_eq_trans(h0.handlers, h1.handlers, utpamh.handlers);
        assert(chain_eq_mod_grantor(
            spec_selected_chain(h0, other, choice),
            spec_selected_chain(h1, other, choice),
        ));
        lemma_walk_eq_mod_grantor(
            spec_selected_chain(h0, other, choice),
            spec_selected_chain(h1, other, choice),
            grets@,
            mode,
            spec_start_state(h1, resumed),
            h1.handlers.cells@,
            spec_start_depth(h1, resumed, spec_selected_chain(h1, other, choice).len() as int),
            Set::<int>::empty(),
        );
        assert(spec_start_state(h1, resumed) == spec_start_state(h0, resumed));
    }
    let ghost hafter = *utpamh;
    if rr == PAM_INCOMPLETE {
        utpamh.former.choice = choice;
    } else {
        utpamh.former.choice = PAM_NOT_STACKED;
    }
    proof {
        assert forall|o2: bool, op2: u8|
            1 <= op2 <= 6 && !(o2 == other && op2 == choice) implies #[trigger] spec_selected_chain(
            *utpamh,
            o2,
            op2,
        ) == spec_selected_chain(h0, o2, op2) by {
            assert(spec_selected_chain(h1, o2, op2) == spec_selected_chain(h0, o2, op2));
            assert(spec_selected_chain(hafter, o2, op2) == spec_selected_chain(h1, o2, op2));
            assert(spec_selected_chain(*utpamh, o2, op2) == spec_selected_chain(hafter, o2, op2));
        };
        if resumed {
            let a = spec_selected_chain(h0, other, choice);
            let b = spec_selected_chain(h1, other, choice);
            assert forall|i: int| 0 <= i < a.len() implies ((#[trigger] a[i]).grantor
                ==> b[i].grantor) by {};
            assert(chain_grantors_monotone(a, b));
            assert(spec_selected_chain(*utpamh, other, choice) == spec_selected_chain(
                hafter,
                other,
                choice,
            ));
            lemma_grantors_monotone_trans(a, b, spec_selected_chain(hafter, other, choice));
        }
    }
    (rr, grets)
}

} // verus!
