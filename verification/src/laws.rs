//! Laws of the dispatch engine, proved once over the walk model that every
//! dispatch result is tied to.

use vstd::prelude::*;
use crate::codes::{
    PAM_ACTION_DONE, PAM_ACTION_IGNORE, PAM_ACTION_OK, PAM_ACTION_DIE, PAM_HT_MODULE,
    PAM_HT_SILENT_MODULE, PAM_IGNORE, PAM_INCOMPLETE, PAM_NEW_AUTHTOK_REQD, PAM_PLEASE_FREEZE,
    PAM_POSITIVE, PAM_NEGATIVE, PAM_RETURN_VALUES, PAM_SUCCESS, PAM_UNDEF,
};
use crate::control::spec_keyword_table;
use crate::dispatch::{spec_step, spec_walk, with_credit, DState, StepOut, WalkRes};
use crate::session::Handler;

verus! {

/// Whether a chain entry is an executable module entry.
pub open spec fn is_module_entry(h: Handler) -> bool {
    (h.handler_type == PAM_HT_MODULE || h.handler_type == PAM_HT_SILENT_MODULE) && h.module is Some
}

/// When the walk reaches a `sufficient` entry whose module returns success
/// while the decision is still winnable — undecided, or leaning accept on a
/// plain success — the walk terminates right there with final status
/// success, whatever entries follow, and that entry is credited as the
/// grantor.
pub proof fn lemma_sufficient_success_terminates(
    chain: Seq<Handler>,
    rets: Seq<u8>,
    st: DState,
    cells: Seq<i16>,
    i: int,
)
    requires
        0 <= i < chain.len(),
        is_module_entry(chain[i]),
        chain[i].actions@ == spec_keyword_table(PAM_ACTION_DONE, PAM_ACTION_IGNORE),
        rets[i] == PAM_SUCCESS,
        st.impression == PAM_UNDEF || (st.impression == PAM_POSITIVE && st.status == PAM_SUCCESS),
    ensures
        forall|gr: Set<int>|
            #[trigger] spec_walk(chain, rets, PAM_PLEASE_FREEZE, st, cells, i, gr)
                == (WalkRes::Completed {
                status: PAM_SUCCESS,
                cells: cells.update(chain[i].cell as int, PAM_SUCCESS as i16),
                grantors: gr.insert(i),
            }),
{
    assert(spec_keyword_table(PAM_ACTION_DONE, PAM_ACTION_IGNORE)[PAM_SUCCESS as int]
        == PAM_ACTION_DONE);
}

/// When the walk reaches a `requisite` entry whose module returns a plain,
/// non-ignorable failure while the decision is not yet negative, the walk
/// terminates right there and the final status is that failure, whatever
/// entries follow.
pub proof fn lemma_requisite_failure_terminates(
    chain: Seq<Handler>,
    rets: Seq<u8>,
    st: DState,
    cells: Seq<i16>,
    i: int,
    f: u8,
)
    requires
        0 <= i < chain.len(),
        is_module_entry(chain[i]),
        chain[i].actions@ == spec_keyword_table(PAM_ACTION_OK, PAM_ACTION_DIE),
        rets[i] == f,
        f < PAM_RETURN_VALUES,
        f != PAM_SUCCESS,
        f != PAM_NEW_AUTHTOK_REQD,
        f != PAM_IGNORE,
        f != PAM_INCOMPLETE,
        st.impression != PAM_NEGATIVE,
    ensures
        forall|gr: Set<int>|
            #[trigger] spec_walk(chain, rets, PAM_PLEASE_FREEZE, st, cells, i, gr)
                == (WalkRes::Completed {
                status: f,
                cells: cells.update(chain[i].cell as int, f as i16),
                grantors: gr,
            }),
{
    assert(spec_keyword_table(PAM_ACTION_OK, PAM_ACTION_DIE)[f as int] == PAM_ACTION_DIE);
}

/// The walk from index `i` never reads a raw return of an earlier entry:
/// resuming at a checkpointed depth cannot depend on — and so never
/// re-invokes — the entries already executed before the suspension.
pub proof fn lemma_resume_ignores_executed_entries(
    chain: Seq<Handler>,
    r1: Seq<u8>,
    r2: Seq<u8>,
    mode: i32,
    st: DState,
    cells: Seq<i16>,
    i: int,
)
    requires
        0 <= i <= chain.len(),
        r1.len() == chain.len(),
        r2.len() == chain.len(),
        forall|j: int| i <= j < chain.len() ==> r1[j] == r2[j],
    ensures
        forall|gr: Set<int>|
            #[trigger] spec_walk(chain, r1, mode, st, cells, i, gr) == spec_walk(
                chain,
                r2,
                mode,
                st,
                cells,
                i,
                gr,
            ),
    decreases chain.len() - i,
{
    assert forall|gr: Set<int>|
        #[trigger] spec_walk(chain, r1, mode, st, cells, i, gr) == spec_walk(
            chain,
            r2,
            mode,
            st,
            cells,
            i,
            gr,
        ) by {
        if i < chain.len() {
            assert(r1[i] == r2[i]);
            match spec_step(chain[i], r1[i], st, cells, mode, i, chain.len() as int) {
                StepOut::Next { st: st2, cells: c2, next, credit } => {
                    if i < next <= chain.len() {
                        lemma_resume_ignores_executed_entries(chain, r1, r2, mode, st2, c2, next);
                        assert(spec_walk(chain, r1, mode, st2, c2, next, with_credit(gr, credit))
                            == spec_walk(
                            chain,
                            r2,
                            mode,
                            st2,
                            c2,
                            next,
                            with_credit(gr, credit),
                        ));
                    }
                },
                StepOut::Halt { .. } => {},
                StepOut::Susp { .. } => {},
                StepOut::Fault { .. } => {},
            }
        }
    };
}

/// A walk reports success only when its impression ended leaning accept:
/// an undecided or rejecting walk can never hand back the success code.
pub proof fn lemma_success_owed_to_positive_impression(st: DState)
    ensures
        crate::dispatch::spec_final_status(st) == PAM_SUCCESS ==> st.impression == PAM_POSITIVE
            && st.status == PAM_SUCCESS,
{
}

} // verus!
