//! The session handle and the resolved policy table: handler chains, the
//! loaded-module registry, shared result cells and the suspend checkpoint.

use vstd::prelude::*;
use crate::codes::{
    PAM_CALLED_FROM_APP, PAM_HT_MODULE, PAM_HT_MUST_FAIL, PAM_HT_SILENT_MODULE, PAM_HT_SUBSTACK,
    PAM_INVALID_RETVAL, PAM_MUST_FAIL_CODE, PAM_NOT_STACKED, PAM_RETURN_VALUES,
    PAM_SUBSTACK_LEVELS, PAM_UNDEF, PAM_AUTHENTICATE, PAM_SETCRED, PAM_ACCOUNT, PAM_OPEN_SESSION,
    PAM_CLOSE_SESSION, PAM_CHAUTHTOK,
};
use crate::delay::UtpamFailDelay;
use crate::env::UtpamEnviron;

verus! {

/// A two-valued flag kept as its own type so that its uses read like the
/// protocol states they stand for.
#[derive(Clone, Copy, PartialEq, Eq, Structural)]
pub enum UtpamBoolean {
    UtpamFalse,
    UtpamTrue,
}

impl UtpamBoolean {
    pub fn to_bool(&self) -> (r: bool)
        ensures
            r == (*self is UtpamTrue),
    {
        match self {
            UtpamBoolean::UtpamTrue => true,
            UtpamBoolean::UtpamFalse => false,
        }
    }
}

/// Auxiliary authentication data attached to the session.
pub struct UtpamXAuthData {
    pub namelen: i32,
    pub name: Option<String>,
    pub datalen: i32,
    pub data: Vec<String>,
}

impl UtpamXAuthData {
    /// Drop every field back to its empty state.
    pub fn clear(&mut self)
        ensures
            final(self).namelen == 0,
            final(self).name is None,
            final(self).datalen == 0,
            final(self).data@.len() == 0,
    {
        self.namelen = 0;
        self.name = None;
        self.datalen = 0;
        self.data.clear();
    }
}

/// The decision snapshot recorded for one nesting level, restored by the
/// `reset` action.
#[derive(Clone, Copy, PartialEq, Eq, Structural)]
pub struct UtpamSubstackState {
    pub impression: i32,
    pub status: u8,
}

/// The suspend checkpoint: which operation was in flight and the dispatch
/// state needed to resume it.
pub struct UtpamFormerState {
    pub choice: u8,
    pub depth: usize,
    pub impression: i32,
    pub status: u8,
    pub substates: Vec<UtpamSubstackState>,
    pub fail_user: u8,
    pub want_user: UtpamBoolean,
    pub prompt: Option<String>,
    pub update: UtpamBoolean,
}

/// One link of a handler chain.
pub struct Handler {
    /// `PAM_HT_MODULE`, `PAM_HT_MUST_FAIL`, `PAM_HT_SUBSTACK` or
    /// `PAM_HT_SILENT_MODULE`.
    pub handler_type: u8,
    /// Index of the resolved binding in the session's module registry;
    /// absent for entries that never execute a module.
    pub module: Option<usize>,
    /// The 32-slot action table.
    pub actions: Vec<i32>,
    /// Index of the result cell shared with the companion entry.
    pub cell: usize,
    /// Arguments handed to the module on every call.
    pub argv: Vec<String>,
    /// The module's display name.
    pub mod_name: String,
    /// Substack nesting level of this entry.
    pub stack_level: usize,
    /// Whether this entry was credited with the accepted decision.
    pub grantor: bool,
}

/// How the platform hands modules to the library: resolving a reference
/// yields a binding, and a binding can be invoked for an operation.  Nothing
/// is assumed of what an invocation returns.
pub trait UtpamModule: Sized {
    /// Resolve a module reference; `None` when it cannot be bound.
    fn resolve(path: &String) -> Option<Self>;

    /// Whether the binding offers an entry point for this operation.
    fn has_entry(&self, op: u8) -> bool;

    /// Run the module's entry point for this operation.
    fn invoke(&mut self, op: u8, flags: u32, argv: &Vec<String>) -> u8;
}

/// One resolved module, cached by its reference so that repeated mentions
/// reuse a single binding.
pub struct LoadedModule<M> {
    pub name: String,
    pub binding: Option<M>,
}

/// The six handler chains of one service block.
pub struct Handlers {
    pub authenticate: Vec<Handler>,
    pub setcred: Vec<Handler>,
    pub acct_mgmt: Vec<Handler>,
    pub open_session: Vec<Handler>,
    pub close_session: Vec<Handler>,
    pub chauthtok: Vec<Handler>,
}

/// The resolved policy table of a session: the module registry, the shared
/// result cells, the named service's chains and the fallback chains.
pub struct Service<M> {
    pub module: Vec<LoadedModule<M>>,
    pub cells: Vec<i16>,
    pub conf: Handlers,
    pub other: Handlers,
    pub handlers_loaded: bool,
}

/// One message a module hands to the application's conversation callback.
pub struct UtpamMessage {
    pub msg_style: u8,
    pub msg: String,
}

/// One response the conversation callback hands back.
pub struct UtpamResponse {
    pub resp: Vec<String>,
    pub resp_retcode: isize,
}

/// One configuration file as plain text: its name and its physical lines.
pub struct ConfigFile {
    pub name: String,
    pub lines: Vec<String>,
}

impl Handlers {
    /// An empty set of chains.
    pub fn new() -> (r: Handlers)
        ensures
            r.authenticate@.len() == 0,
            r.setcred@.len() == 0,
            r.acct_mgmt@.len() == 0,
            r.open_session@.len() == 0,
            r.close_session@.len() == 0,
            r.chauthtok@.len() == 0,
    {
        Handlers {
            authenticate: Vec::new(),
            setcred: Vec::new(),
            acct_mgmt: Vec::new(),
            open_session: Vec::new(),
            close_session: Vec::new(),
            chauthtok: Vec::new(),
        }
    }

    /// The chain for one operation tag.
    pub open spec fn spec_chain(&self, op: u8) -> Seq<Handler> {
        if op == PAM_AUTHENTICATE {
            self.authenticate@
        } else if op == PAM_SETCRED {
            self.setcred@
        } else if op == PAM_ACCOUNT {
            self.acct_mgmt@
        } else if op == PAM_OPEN_SESSION {
            self.open_session@
        } else if op == PAM_CLOSE_SESSION {
            self.close_session@
        } else {
            self.chauthtok@
        }
    }
}

/// A well-formed handler: a full action table, a result cell and module
/// index inside their registries, and a nesting level inside the snapshot
/// array.
pub open spec fn handler_wf(h: Handler, n_modules: nat, n_cells: nat) -> bool {
    &&& h.actions@.len() == PAM_RETURN_VALUES
    &&& h.cell < n_cells
    &&& (h.module matches Some(m) ==> m < n_modules)
    &&& h.stack_level < PAM_SUBSTACK_LEVELS
}

/// Every entry of the chain is well formed.
pub open spec fn chain_wf(chain: Seq<Handler>, n_modules: nat, n_cells: nat) -> bool {
    forall|i: int| 0 <= i < chain.len() ==> handler_wf(#[trigger] chain[i], n_modules, n_cells)
}

/// All twelve chains of the policy table are well formed.
pub open spec fn service_wf<M>(s: Service<M>) -> bool {
    let nm = s.module@.len();
    let nc = s.cells@.len();
    &&& chain_wf(s.conf.authenticate@, nm, nc)
    &&& chain_wf(s.conf.setcred@, nm, nc)
    &&& chain_wf(s.conf.acct_mgmt@, nm, nc)
    &&& chain_wf(s.conf.open_session@, nm, nc)
    &&& chain_wf(s.conf.close_session@, nm, nc)
    &&& chain_wf(s.conf.chauthtok@, nm, nc)
    &&& chain_wf(s.other.authenticate@, nm, nc)
    &&& chain_wf(s.other.setcred@, nm, nc)
    &&& chain_wf(s.other.acct_mgmt@, nm, nc)
    &&& chain_wf(s.other.open_session@, nm, nc)
    &&& chain_wf(s.other.close_session@, nm, nc)
    &&& chain_wf(s.other.chauthtok@, nm, nc)
}

/// A well-formed checkpoint: one decision snapshot per nesting level.
pub open spec fn former_wf(f: UtpamFormerState) -> bool {
    f.substates@.len() == PAM_SUBSTACK_LEVELS
}

/// The session handle, exclusively owned by the caller for its lifetime.
pub struct UtpamHandle<M, D> {
    pub authtok: String,
    pub caller_is: u8,
    pub oldauthtok: String,
    pub prompt: Option<String>,
    pub service_name: String,
    pub user: String,
    pub rhost: String,
    pub ruser: String,
    pub tty: String,
    pub xdisplay: String,
    pub authtok_type: String,
    pub data: Vec<(String, D)>,
    pub env: Option<UtpamEnviron>,
    pub fail_delay: UtpamFailDelay,
    pub xauth: UtpamXAuthData,
    pub handlers: Service<M>,
    pub former: UtpamFormerState,
    pub mod_name: String,
    pub mod_argv: Vec<String>,
    pub choice: u8,
    pub confdir: Option<String>,
    /// The configuration text the policy table is compiled from, as handed
    /// in by the caller at session start.
    pub confsource: Vec<ConfigFile>,
}

/// A well-formed session.
pub open spec fn handle_wf<M, D>(h: UtpamHandle<M, D>) -> bool {
    &&& service_wf(h.handlers)
    &&& former_wf(h.former)
}

/// A fresh, cleared checkpoint.
pub fn former_state_new() -> (r: UtpamFormerState)
    ensures
        former_wf(r),
        r.choice == PAM_NOT_STACKED,
        r.depth == 0,
        r.impression == PAM_UNDEF,
        r.status == PAM_MUST_FAIL_CODE,
        r.want_user is UtpamFalse,
        r.update is UtpamFalse,
        r.fail_user == 0,
        r.prompt is None,
        forall|i: int|
            0 <= i < PAM_SUBSTACK_LEVELS ==> r.substates@[i] == (UtpamSubstackState {
                impression: PAM_UNDEF,
                status: PAM_MUST_FAIL_CODE,
            }),
{
    let mut substates: Vec<UtpamSubstackState> = Vec::new();
    let mut i: usize = 0;
    while i < PAM_SUBSTACK_LEVELS
        invariant
            i <= PAM_SUBSTACK_LEVELS,
            substates@.len() == i,
            forall|j: int|
                0 <= j < i ==> substates@[j] == (UtpamSubstackState {
                    impression: PAM_UNDEF,
                    status: PAM_MUST_FAIL_CODE,
                }),
        decreases PAM_SUBSTACK_LEVELS - i,
    {
        substates.push(UtpamSubstackState { impression: PAM_UNDEF, status: PAM_MUST_FAIL_CODE });
        i = i + 1;
    }
    UtpamFormerState {
        choice: PAM_NOT_STACKED,
        depth: 0,
        impression: PAM_UNDEF,
        status: PAM_MUST_FAIL_CODE,
        substates,
        fail_user: 0,
        want_user: UtpamBoolean::UtpamFalse,
        prompt: None,
        update: UtpamBoolean::UtpamFalse,
    }
}

impl<M, D> UtpamHandle<M, D> {
    /// A fresh session for one service: empty policy table, cleared
    /// checkpoint, no credentials.
    pub fn new(
        service_name: String,
        confdir: Option<String>,
        user: Option<String>,
        confsource: Vec<ConfigFile>,
    ) -> (r: Self)
        ensures
            handle_wf(r),
            r.service_name == service_name,
            r.confdir == confdir,
            r.confsource == confsource,
            r.user@ == match user {
                Some(u) => u@,
                None => Seq::<char>::empty(),
            },
            !r.handlers.handlers_loaded,
            r.former.choice == PAM_NOT_STACKED,
            r.handlers.module@.len() == 0,
            r.handlers.cells@.len() == 0,
            r.caller_is == PAM_CALLED_FROM_APP,
            r.authtok@.len() == 0,
            r.oldauthtok@.len() == 0,
            r.data@.len() == 0,
    {
        UtpamHandle {
            authtok: String::new(),
            caller_is: PAM_CALLED_FROM_APP,
            oldauthtok: String::new(),
            prompt: None,
            service_name,
            user: match user {
                Some(u) => u,
                None => String::new(),
            },
            rhost: String::new(),
            ruser: String::new(),
            tty: String::new(),
            xdisplay: String::new(),
            authtok_type: String::new(),
            data: Vec::new(),
            env: None,
            fail_delay: UtpamFailDelay::new(),
            xauth: UtpamXAuthData { namelen: 0, name: None, datalen: 0, data: Vec::new() },
            handlers: Service {
                module: Vec::new(),
                cells: Vec::new(),
                conf: Handlers::new(),
                other: Handlers::new(),
                handlers_loaded: false,
            },
            former: former_state_new(),
            mod_name: String::new(),
            mod_argv: Vec::new(),
            choice: 0,
            confdir,
            confsource,
        }
    }
}

} // verus!
