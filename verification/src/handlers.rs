//! Compiling the declarative per-service policy into the session's handler
//! chains: reading logical lines, resolving control words into action
//! tables, binding modules, and expanding `include`/`substack` directives
//! up to the fixed nesting bound.

use vstd::prelude::*;
use crate::codes::{
    PAM_ABORT, PAM_BAD_ITEM, PAM_HT_MODULE, PAM_HT_MUST_FAIL, PAM_HT_SILENT_MODULE,
    PAM_HT_SUBSTACK, PAM_INVALID_RETVAL, PAM_OPEN_ERR, PAM_SUBSTACK_LEVELS,
    PAM_SUBSTACK_MAX_LEVEL, PAM_SUCCESS, PAM_RETURN_VALUES, PAM_ACTION_BAD,
    UTPAM_DEFAULT_SERVICE,
};
use crate::control::{is_action_table, utpam_build_control};
use crate::dispatch::session_fields_eq;
use crate::line::{utpam_line_assemble, UtpamLineBuffer};
use crate::session::{
    chain_wf, handle_wf, handler_wf, ConfigFile, Handler, LoadedModule, Service, UtpamHandle,
    UtpamModule,
};
use crate::strutil::{eq_ignore_ascii_case, eq_str, extract_modulename, spec_lower, starts_with};
use crate::tokenize::utpam_tokenize;

verus! {

/// Operation classes a configuration line may name.
pub const PAM_T_ANY: u8 = 0;
pub const PAM_T_AUTH: u8 = 1;
pub const PAM_T_SESS: u8 = 2;
pub const PAM_T_ACCT: u8 = 4;
pub const PAM_T_PASS: u8 = 8;

/// Where relative module references are looked for.
pub const DEFAULT_MODULE_PATH: &'static str = "/lib64/security";

/// The name of the single flat configuration file, used when no per-service
/// file exists.
pub const UTPAM_CONFIG_NAME: &'static str = "utpam.conf";

/// `b` begins with exactly the entries of `a`.
pub open spec fn chain_extends(a: Seq<Handler>, b: Seq<Handler>) -> bool {
    &&& a.len() <= b.len()
    &&& forall|i: int| 0 <= i < a.len() ==> #[trigger] b[i] == a[i]
}

/// What loading configuration may do to a policy table: every chain, the
/// module registry and the result cells only grow, keeping what was there.
pub open spec fn service_extends<M>(a: Service<M>, b: Service<M>) -> bool {
    &&& chain_extends(a.conf.authenticate@, b.conf.authenticate@)
    &&& chain_extends(a.conf.setcred@, b.conf.setcred@)
    &&& chain_extends(a.conf.acct_mgmt@, b.conf.acct_mgmt@)
    &&& chain_extends(a.conf.open_session@, b.conf.open_session@)
    &&& chain_extends(a.conf.close_session@, b.conf.close_session@)
    &&& chain_extends(a.conf.chauthtok@, b.conf.chauthtok@)
    &&& chain_extends(a.other.authenticate@, b.other.authenticate@)
    &&& chain_extends(a.other.setcred@, b.other.setcred@)
    &&& chain_extends(a.other.acct_mgmt@, b.other.acct_mgmt@)
    &&& chain_extends(a.other.open_session@, b.other.open_session@)
    &&& chain_extends(a.other.close_session@, b.other.close_session@)
    &&& chain_extends(a.other.chauthtok@, b.other.chauthtok@)
    &&& a.module@.len() <= b.module@.len()
    &&& forall|i: int| 0 <= i < a.module@.len() ==> #[trigger] b.module@[i] == a.module@[i]
    &&& a.cells@.len() <= b.cells@.len()
    &&& forall|i: int| 0 <= i < a.cells@.len() ==> #[trigger] b.cells@[i] == a.cells@[i]
}

/// Everything of the session a configuration load leaves alone.
pub open spec fn parse_frame<M, D>(a: UtpamHandle<M, D>, b: UtpamHandle<M, D>) -> bool {
    &&& session_fields_eq(a, b)
    &&& b.former == a.former
    &&& service_extends(a.handlers, b.handlers)
    &&& b.handlers.handlers_loaded == a.handlers.handlers_loaded
}

/// `service_extends` composes.
proof fn lemma_service_extends_trans<M>(a: Service<M>, b: Service<M>, c: Service<M>)
    requires
        service_extends(a, b),
        service_extends(b, c),
    ensures
        service_extends(a, c),
{
}

/// A well-formed chain stays well formed when the registries only grow.
proof fn lemma_chain_wf_grow(c: Seq<Handler>, nm1: nat, nc1: nat, nm2: nat, nc2: nat)
    requires
        chain_wf(c, nm1, nc1),
        nm1 <= nm2,
        nc1 <= nc2,
    ensures
        chain_wf(c, nm2, nc2),
{
    assert forall|i: int| 0 <= i < c.len() implies handler_wf(#[trigger] c[i], nm2, nc2) by {
        assert(handler_wf(c[i], nm1, nc1));
    };
}

/// An exact copy of a vector of strings.
pub fn vec_string_copy(v: &Vec<String>) -> (r: Vec<String>)
    ensures
        r@.len() == v@.len(),
        forall|i: int| 0 <= i < v@.len() ==> #[trigger] r@[i]@ == v@[i]@,
{
    let mut r: Vec<String> = Vec::new();
    let mut i: usize = 0;
    while i < v.len()
        invariant
            i <= v@.len(),
            r@.len() == i,
            forall|j: int| 0 <= j < i ==> #[trigger] r@[j]@ == v@[j]@,
        decreases v@.len() - i,
    {
        r.push(v[i].clone());
        i = i + 1;
    }
    r
}

/// An exact copy of an action table.
fn vec_i32_copy(v: &Vec<i32>) -> (r: Vec<i32>)
    ensures
        r@ == v@,
{
    let mut r: Vec<i32> = Vec::new();
    let mut i: usize = 0;
    while i < v.len()
        invariant
            i <= v@.len(),
            r@ =~= v@.subrange(0, i as int),
        decreases v@.len() - i,
    {
        r.push(v[i]);
        proof {
            assert(r@ =~= v@.subrange(0, i + 1 as int));
        }
        i = i + 1;
    }
    proof {
        assert(v@.subrange(0, v@.len() as int) =~= v@);
    }
    r
}

/// Index of the first file of this name, or -1.
pub open spec fn spec_first_file(src: Seq<ConfigFile>, name: Seq<char>) -> int
    decreases src.len(),
{
    if src.len() == 0 {
        -1
    } else if src[0].name@ == name {
        0
    } else {
        let r = spec_first_file(src.skip(1), name);
        if r < 0 {
            -1
        } else {
            r + 1
        }
    }
}

pub proof fn lemma_first_file(src: Seq<ConfigFile>, name: Seq<char>)
    ensures
        -1 <= spec_first_file(src, name) < src.len(),
        spec_first_file(src, name) >= 0 ==> src[spec_first_file(src, name)].name@ == name,
        spec_first_file(src, name) >= 0 ==> forall|j: int|
            0 <= j < spec_first_file(src, name) ==> (#[trigger] src[j]).name@ != name,
        spec_first_file(src, name) < 0 ==> forall|j: int|
            0 <= j < src.len() ==> (#[trigger] src[j]).name@ != name,
        spec_first_file(src, name) >= 0 <==> spec_has_file(src, name),
    decreases src.len(),
{
    if src.len() > 0 && src[0].name@ != name {
        lemma_first_file(src.skip(1), name);
        assert(forall|j: int| 0 <= j < src.skip(1).len() ==> src.skip(1)[j] == src[j + 1]);
        if spec_first_file(src, name) < 0 {
            assert forall|j: int| 0 <= j < src.len() implies (#[trigger] src[j]).name@ != name by {
                if j > 0 {
                    assert(src.skip(1)[j - 1] == src[j]);
                }
            };
        } else {
            assert forall|j: int|
                0 <= j < spec_first_file(src, name) implies (#[trigger] src[j]).name@ != name by {
                if j > 0 {
                    assert(src.skip(1)[j - 1] == src[j]);
                    assert(src.skip(1)[j - 1].name@ != name);
                }
            };
        }
        if spec_has_file(src, name) {
            let w = choose|i: int| 0 <= i < src.len() && (#[trigger] src[i]).name@ == name;
            if w > 0 {
                assert(src.skip(1)[w - 1] == src[w]);
                assert(spec_has_file(src.skip(1), name));
            }
        }
    }
}

/// Find the first configuration file of this name; the source list is
/// ordered by priority, so the first match wins.
pub fn find_config(source: &Vec<ConfigFile>, name: &str) -> (r: Option<usize>)
    ensures
        match r {
            Some(i) => i == spec_first_file(source@, name@) && i < source@.len()
                && source@[i as int].name@ == name@,
            None => spec_first_file(source@, name@) < 0 && forall|i: int|
                0 <= i < source@.len() ==> #[trigger] source@[i].name@ != name@,
        },
{
    proof {
        lemma_first_file(source@, name@);
    }
    let mut i: usize = 0;
    while i < source.len()
        invariant
            i <= source@.len(),
            forall|j: int| 0 <= j < i ==> #[trigger] source@[j].name@ != name@,
        decreases source@.len() - i,
    {
        if eq_str(source[i].name.as_str(), name) {
            proof {
                lemma_first_file_at(source@, name@, i as int);
            }
            return Some(i);
        }
        i = i + 1;
    }
    None
}

proof fn lemma_first_file_at(src: Seq<ConfigFile>, name: Seq<char>, i: int)
    requires
        0 <= i < src.len(),
        src[i].name@ == name,
        forall|j: int| 0 <= j < i ==> (#[trigger] src[j]).name@ != name,
    ensures
        spec_first_file(src, name) == i,
    decreases src.len(),
{
    if src[0].name@ != name {
        assert(forall|j: int| 0 <= j < src.skip(1).len() ==> src.skip(1)[j] == src[j + 1]);
        lemma_first_file_at(src.skip(1), name, i - 1);
    }
}

/// Resolve a module reference through the session's registry, caching by
/// the reference text so repeated mentions reuse one binding.  A reference
/// that cannot be bound is cached with no binding.
fn utpam_load_module<M: UtpamModule, D>(utpamh: &mut UtpamHandle<M, D>, mod_path: &String) -> (mi:
    usize)
    ensures
        mi < final(utpamh).handlers.module@.len(),
        final(utpamh).handlers.module@[mi as int].name@ == mod_path@,
        session_fields_eq(*old(utpamh), *final(utpamh)),
        final(utpamh).former == old(utpamh).former,
        service_extends(old(utpamh).handlers, final(utpamh).handlers),
        final(utpamh).handlers.handlers_loaded == old(utpamh).handlers.handlers_loaded,
        final(utpamh).handlers.conf == old(utpamh).handlers.conf,
        final(utpamh).handlers.other == old(utpamh).handlers.other,
        final(utpamh).handlers.cells == old(utpamh).handlers.cells,
{
    let n = utpamh.handlers.module.len();
    let mut i: usize = 0;
    while i < n
        invariant
            i <= n,
            n == utpamh.handlers.module@.len(),
        decreases n - i,
    {
        if eq_str(utpamh.handlers.module[i].name.as_str(), mod_path.as_str()) {
            return i;
        }
        i = i + 1;
    }
    let binding = M::resolve(mod_path);
    let lm = LoadedModule { name: mod_path.clone(), binding };
    utpamh.handlers.module.push(lm);
    utpamh.handlers.module.len() - 1
}

/// The operation tag an operation class's entries execute under.
pub open spec fn spec_primary_op(module_type: u8) -> u8 {
    if module_type == PAM_T_AUTH {
        crate::codes::PAM_AUTHENTICATE
    } else if module_type == PAM_T_SESS {
        crate::codes::PAM_OPEN_SESSION
    } else if module_type == PAM_T_ACCT {
        crate::codes::PAM_ACCOUNT
    } else {
        crate::codes::PAM_CHAUTHTOK
    }
}

/// The companion operation an entry is mirrored onto, when the class has
/// one: credentials mirror authentication, closing mirrors opening.
pub open spec fn spec_companion_op(module_type: u8) -> Option<u8> {
    if module_type == PAM_T_AUTH {
        Some(crate::codes::PAM_SETCRED)
    } else if module_type == PAM_T_SESS {
        Some(crate::codes::PAM_CLOSE_SESSION)
    } else {
        None
    }
}

/// The shape of a freshly appended entry.
pub open spec fn entry_matches(
    h: Handler,
    handler_type: u8,
    actions: Seq<i32>,
    cell: int,
    stack_level: usize,
) -> bool {
    &&& h.handler_type == handler_type
    &&& h.actions@ == actions
    &&& h.cell == cell
    &&& h.stack_level == stack_level
    &&& !h.grantor
    &&& (handler_type == PAM_HT_MODULE || handler_type == PAM_HT_SILENT_MODULE <==> h.module
        is Some)
}

/// The chain of one block of a policy table.
pub open spec fn svc_chain<M>(s: Service<M>, other: bool, op: u8) -> Seq<Handler> {
    if other {
        s.other.spec_chain(op)
    } else {
        s.conf.spec_chain(op)
    }
}

/// Everything one configuration line asks to append: the entry kind, its
/// operation class and block, its nesting level, its action table, its
/// argument tokens, and the module reference (absent for entries that never
/// execute a module).
pub struct EntryPlan {
    pub kind: u8,
    pub class: u8,
    pub other: bool,
    pub level: usize,
    pub actions: Seq<i32>,
    pub argv: Seq<Seq<char>>,
    pub modref: Option<Seq<char>>,
}

/// The path handed to the module loader: the reference itself when
/// absolute, else the reference under the default module directory.
pub open spec fn spec_module_path(p: Seq<char>) -> Seq<char> {
    if p.len() > 0 && p[0] == '/' {
        p
    } else {
        "/lib64/security"@ + seq!['/'] + p
    }
}

/// What appending one planned entry does to the policy table: exactly one
/// fresh shared result cell; the entry (and, for the classes that have one,
/// its companion sharing that cell) appended to the selected block's
/// chains; every other chain untouched; the module registry only grown.
pub open spec fn spec_entry_applied<M>(pre: Service<M>, post: Service<M>, p: EntryPlan) -> bool {
    let pop = spec_primary_op(p.class);
    let cell = pre.cells@.len() as int;
    let pold = svc_chain(pre, p.other, pop);
    let pnew = svc_chain(post, p.other, pop);
    &&& post.cells@ == pre.cells@.push(PAM_INVALID_RETVAL)
    &&& pnew.len() == pold.len() + 1
    &&& pnew.subrange(0, pold.len() as int) == pold
    &&& entry_matches(pnew.last(), p.kind, p.actions, cell, p.level)
    &&& pnew.last().argv.deep_view() == p.argv
    &&& match spec_companion_op(p.class) {
        Some(cop) => {
            let cold = svc_chain(pre, p.other, cop);
            let cnew = svc_chain(post, p.other, cop);
            &&& cnew.len() == cold.len() + 1
            &&& cnew.subrange(0, cold.len() as int) == cold
            &&& entry_matches(cnew.last(), p.kind, p.actions, cell, p.level)
            &&& cnew.last().argv.deep_view() == p.argv
        },
        None => true,
    }
    &&& forall|o2: bool, op2: u8|
        1 <= op2 <= 6 && !(o2 == p.other && op2 == pop) && !(Some(op2) == spec_companion_op(
            p.class,
        ) && o2 == p.other) ==> #[trigger] svc_chain(post, o2, op2) == svc_chain(pre, o2, op2)
    &&& pre.module@.len() <= post.module@.len()
    &&& forall|i: int| 0 <= i < pre.module@.len() ==> #[trigger] post.module@[i] == pre.module@[i]
    &&& post.handlers_loaded == pre.handlers_loaded
    &&& (p.kind == PAM_HT_MODULE || p.kind == PAM_HT_SILENT_MODULE ==> (p.modref matches Some(
        mr,
    ) && (exists|mi: int|
        {
            &&& 0 <= mi < post.module@.len()
            &&& (#[trigger] post.module@[mi]).name@ == spec_module_path(mr)
            &&& post.module@[mi].binding is Some
            &&& pnew.last().module == Some(mi as usize)
            &&& pnew.last().mod_name@ == crate::strutil::spec_module_stem(spec_module_path(mr))
        })))
}

/// Append one policy entry (and its companion, for the operation classes
/// that have one) to the proper chain, resolving and caching the module
/// binding.  Failure to bind a module aborts the whole load.
#[verifier::rlimit(100)]
fn utpam_add_handler<M: UtpamModule, D>(
    utpamh: &mut UtpamHandle<M, D>,
    handler_type: u8,
    other: bool,
    stack_level: usize,
    module_type: u8,
    actions: &Vec<i32>,
    mod_path: Option<&String>,
    argv: &Vec<String>,
) -> (r: u8)
    requires
        handle_wf(*old(utpamh)),
        is_action_table(actions@),
        stack_level < PAM_SUBSTACK_LEVELS,
        module_type == PAM_T_AUTH || module_type == PAM_T_SESS || module_type == PAM_T_ACCT
            || module_type == PAM_T_PASS,
    ensures
        handle_wf(*final(utpamh)),
        session_fields_eq(*old(utpamh), *final(utpamh)),
        final(utpamh).former == old(utpamh).former,
        service_extends(old(utpamh).handlers, final(utpamh).handlers),
        final(utpamh).handlers.handlers_loaded == old(utpamh).handlers.handlers_loaded,
        r == PAM_SUCCESS || r == PAM_ABORT,
        r == PAM_SUCCESS ==> spec_entry_applied(
            old(utpamh).handlers,
            final(utpamh).handlers,
            EntryPlan {
                kind: handler_type,
                class: module_type,
                other,
                level: stack_level,
                actions: actions@,
                argv: argv.deep_view(),
                modref: match mod_path {
                    Some(p) => Some(p@),
                    None => None,
                },
            },
        ),
        handler_type == PAM_HT_SUBSTACK || handler_type == PAM_HT_MUST_FAIL ==> r == PAM_SUCCESS,
        (handler_type == PAM_HT_MODULE || handler_type == PAM_HT_SILENT_MODULE) && mod_path
            is None ==> r == PAM_ABORT,
        r == PAM_ABORT ==> {
            &&& handler_type == PAM_HT_MODULE || handler_type == PAM_HT_SILENT_MODULE
            &&& final(utpamh).handlers.conf == old(utpamh).handlers.conf
            &&& final(utpamh).handlers.other == old(utpamh).handlers.other
            &&& final(utpamh).handlers.cells == old(utpamh).handlers.cells
            &&& match mod_path {
                None => true,
                Some(mp) => exists|mi: int|
                    {
                        &&& 0 <= mi < final(utpamh).handlers.module@.len()
                        &&& (#[trigger] final(utpamh).handlers.module@[mi]).name@
                            == spec_module_path(mp@)
                        &&& (final(utpamh).handlers.module@[mi].binding is None
                            || !crate::strutil::spec_modulename_valid(spec_module_path(mp@)))
                    },
            }
        },
{
    let ghost h0 = *utpamh;
    let mut module_idx: Option<usize> = None;
    let mut mod_name = String::new();
    if handler_type == PAM_HT_MODULE || handler_type == PAM_HT_SILENT_MODULE {
        let path: String = match mod_path {
            Some(p) => {
                proof {
                    reveal_strlit("/");
                    assert("/"@ =~= seq!['/']);
                }
                if starts_with(p.as_str(), "/") {
                    proof {
                        assert(p@.subrange(0, 1) == "/"@);
                        assert(p@[0] == p@.subrange(0, 1)[0]);
                        assert(p@[0] == '/');
                    }
                    p.clone()
                } else {
                    let mut q = String::from_str(DEFAULT_MODULE_PATH);
                    q.append("/");
                    q.append(p.as_str());
                    proof {
                        reveal_strlit("/");
                        reveal_strlit("/lib64/security");
                        assert("/"@ =~= seq!['/']);
                        if p@.len() > 0 && p@[0] == '/' {
                            assert(p@.subrange(0, 1) =~= "/"@);
                        }
                        assert(q@ =~= "/lib64/security"@ + seq!['/'] + p@);
                        assert(q@ =~= spec_module_path(p@));
                    }
                    q
                }
            },
            None => {
                return PAM_ABORT;
            },
        };
        proof {
            assert(match mod_path {
                Some(p) => path@ == spec_module_path(p@),
                None => false,
            });
        }
        let mi = utpam_load_module(utpamh, &path);
        let bound = match &utpamh.handlers.module[mi].binding {
            Some(_) => true,
            None => false,
        };
        if !bound {
            // The module cannot be bound: the whole load fails.
            return PAM_ABORT;
        }
        match extract_modulename(path.as_str()) {
            Some(s) => {
                mod_name = s;
            },
            None => {
                return PAM_ABORT;
            },
        }
        module_idx = Some(mi);
    }
    let ghost h1 = *utpamh;
    // One result cell, shared between the entry and its companion.
    utpamh.handlers.cells.push(PAM_INVALID_RETVAL);
    let cell = utpamh.handlers.cells.len() - 1;
    let first = Handler {
        handler_type,
        module: module_idx,
        actions: vec_i32_copy(actions),
        cell,
        argv: vec_string_copy(argv),
        mod_name: mod_name.clone(),
        stack_level,
        grantor: false,
    };
    proof {
        assert(handler_wf(
            first,
            utpamh.handlers.module@.len() as nat,
            utpamh.handlers.cells@.len() as nat,
        ));
    }
    let hs = if other {
        &mut utpamh.handlers.other
    } else {
        &mut utpamh.handlers.conf
    };
    if module_type == PAM_T_AUTH {
        let second = Handler {
            handler_type,
            module: module_idx,
            actions: vec_i32_copy(actions),
            cell,
            argv: vec_string_copy(argv),
            mod_name,
            stack_level,
            grantor: false,
        };
        hs.authenticate.push(first);
        hs.setcred.push(second);
    } else if module_type == PAM_T_SESS {
        let second = Handler {
            handler_type,
            module: module_idx,
            actions: vec_i32_copy(actions),
            cell,
            argv: vec_string_copy(argv),
            mod_name,
            stack_level,
            grantor: false,
        };
        hs.open_session.push(first);
        hs.close_session.push(second);
    } else if module_type == PAM_T_ACCT {
        hs.acct_mgmt.push(first);
    } else {
        hs.chauthtok.push(first);
    }
    proof {
        let ghost plan = EntryPlan {
            kind: handler_type,
            class: module_type,
            other,
            level: stack_level,
            actions: actions@,
            argv: argv.deep_view(),
            modref: match mod_path {
                Some(p) => Some(p@),
                None => None,
            },
        };
        let pop = spec_primary_op(module_type);
        let pre = h0.handlers;
        let post = utpamh.handlers;
        assert(post.cells@ =~= pre.cells@.push(PAM_INVALID_RETVAL));
        // The freshly pushed entries extend their chains and nothing else.
        assert(svc_chain(utpamh.handlers, false, crate::codes::PAM_AUTHENTICATE) == svc_chain(
            utpamh.handlers,
            false,
            crate::codes::PAM_AUTHENTICATE,
        ));
        assert(svc_chain(utpamh.handlers, false, crate::codes::PAM_SETCRED) == svc_chain(
            utpamh.handlers,
            false,
            crate::codes::PAM_SETCRED,
        ));
        assert(svc_chain(utpamh.handlers, false, crate::codes::PAM_ACCOUNT) == svc_chain(
            utpamh.handlers,
            false,
            crate::codes::PAM_ACCOUNT,
        ));
        assert(svc_chain(utpamh.handlers, false, crate::codes::PAM_OPEN_SESSION) == svc_chain(
            utpamh.handlers,
            false,
            crate::codes::PAM_OPEN_SESSION,
        ));
        assert(svc_chain(utpamh.handlers, false, crate::codes::PAM_CLOSE_SESSION) == svc_chain(
            utpamh.handlers,
            false,
            crate::codes::PAM_CLOSE_SESSION,
        ));
        assert(svc_chain(utpamh.handlers, false, crate::codes::PAM_CHAUTHTOK) == svc_chain(
            utpamh.handlers,
            false,
            crate::codes::PAM_CHAUTHTOK,
        ));
        assert(svc_chain(utpamh.handlers, true, crate::codes::PAM_AUTHENTICATE) == svc_chain(
            utpamh.handlers,
            true,
            crate::codes::PAM_AUTHENTICATE,
        ));
        assert(svc_chain(utpamh.handlers, true, crate::codes::PAM_SETCRED) == svc_chain(
            utpamh.handlers,
            true,
            crate::codes::PAM_SETCRED,
        ));
        assert(svc_chain(utpamh.handlers, true, crate::codes::PAM_ACCOUNT) == svc_chain(
            utpamh.handlers,
            true,
            crate::codes::PAM_ACCOUNT,
        ));
        assert(svc_chain(utpamh.handlers, true, crate::codes::PAM_OPEN_SESSION) == svc_chain(
            utpamh.handlers,
            true,
            crate::codes::PAM_OPEN_SESSION,
        ));
        assert(svc_chain(utpamh.handlers, true, crate::codes::PAM_CLOSE_SESSION) == svc_chain(
            utpamh.handlers,
            true,
            crate::codes::PAM_CLOSE_SESSION,
        ));
        assert(svc_chain(utpamh.handlers, true, crate::codes::PAM_CHAUTHTOK) == svc_chain(
            utpamh.handlers,
            true,
            crate::codes::PAM_CHAUTHTOK,
        ));
        assert(svc_chain(post, other, pop).subrange(
            0,
            svc_chain(pre, other, pop).len() as int,
        ) =~= svc_chain(pre, other, pop));
        match spec_companion_op(module_type) {
            Some(cop) => {
                assert(svc_chain(post, other, cop).subrange(
                    0,
                    svc_chain(pre, other, cop).len() as int,
                ) =~= svc_chain(pre, other, cop));
            },
            None => {},
        }
        assert forall|i: int|
            0 <= i < argv@.len() implies #[trigger] svc_chain(post, other, pop).last().argv.deep_view()[i]
            == plan.argv[i] by {
            assert(svc_chain(post, other, pop).last().argv@[i]@ == argv@[i]@);
        };
        assert(svc_chain(post, other, pop).last().argv.deep_view() =~= plan.argv);
        match spec_companion_op(module_type) {
            Some(cop) => {
                assert forall|i: int|
                    0 <= i < argv@.len() implies #[trigger] svc_chain(
                    post,
                    other,
                    cop,
                ).last().argv.deep_view()[i] == plan.argv[i] by {
                    assert(svc_chain(post, other, cop).last().argv@[i]@ == argv@[i]@);
                };
                assert(svc_chain(post, other, cop).last().argv.deep_view() =~= plan.argv);
            },
            None => {},
        }
        assert(spec_entry_applied(pre, post, plan));
        let nm = utpamh.handlers.module@.len() as nat;
        let nc = utpamh.handlers.cells@.len() as nat;
        lemma_chain_wf_grow(
            h0.handlers.conf.authenticate@,
            h0.handlers.module@.len() as nat,
            h0.handlers.cells@.len() as nat,
            nm,
            nc,
        );
        lemma_chain_wf_grow(
            h0.handlers.conf.setcred@,
            h0.handlers.module@.len() as nat,
            h0.handlers.cells@.len() as nat,
            nm,
            nc,
        );
        lemma_chain_wf_grow(
            h0.handlers.conf.acct_mgmt@,
            h0.handlers.module@.len() as nat,
            h0.handlers.cells@.len() as nat,
            nm,
            nc,
        );
        lemma_chain_wf_grow(
            h0.handlers.conf.open_session@,
            h0.handlers.module@.len() as nat,
            h0.handlers.cells@.len() as nat,
            nm,
            nc,
        );
        lemma_chain_wf_grow(
            h0.handlers.conf.close_session@,
            h0.handlers.module@.len() as nat,
            h0.handlers.cells@.len() as nat,
            nm,
            nc,
        );
        lemma_chain_wf_grow(
            h0.handlers.conf.chauthtok@,
            h0.handlers.module@.len() as nat,
            h0.handlers.cells@.len() as nat,
            nm,
            nc,
        );
        lemma_chain_wf_grow(
            h0.handlers.other.authenticate@,
            h0.handlers.module@.len() as nat,
            h0.handlers.cells@.len() as nat,
            nm,
            nc,
        );
        lemma_chain_wf_grow(
            h0.handlers.other.setcred@,
            h0.handlers.module@.len() as nat,
            h0.handlers.cells@.len() as nat,
            nm,
            nc,
        );
        lemma_chain_wf_grow(
            h0.handlers.other.acct_mgmt@,
            h0.handlers.module@.len() as nat,
            h0.handlers.cells@.len() as nat,
            nm,
            nc,
        );
        lemma_chain_wf_grow(
            h0.handlers.other.open_session@,
            h0.handlers.module@.len() as nat,
            h0.handlers.cells@.len() as nat,
            nm,
            nc,
        );
        lemma_chain_wf_grow(
            h0.handlers.other.close_session@,
            h0.handlers.module@.len() as nat,
            h0.handlers.cells@.len() as nat,
            nm,
            nc,
        );
        lemma_chain_wf_grow(
            h0.handlers.other.chauthtok@,
            h0.handlers.module@.len() as nat,
            h0.handlers.cells@.len() as nat,
            nm,
            nc,
        );
    }
    PAM_SUCCESS
}

/// Load and parse one included configuration file.  Nesting deeper than the
/// fixed bound is a hard abort; a target that does not exist in the
/// configuration source is reported for the caller to turn into a
/// must-fail entry.
fn utpam_load_conf_file<M: UtpamModule, D>(
    utpamh: &mut UtpamHandle<M, D>,
    config_name: &String,
    service: &String,
    module_type: u8,
    include_level: i32,
    stack_level: usize,
    not_other: bool,
) -> (r: u8)
    requires
        handle_wf(*old(utpamh)),
        0 <= include_level <= PAM_SUBSTACK_MAX_LEVEL + 1,
        stack_level as int <= include_level,
        module_type == PAM_T_ANY || module_type == PAM_T_AUTH || module_type == PAM_T_SESS
            || module_type == PAM_T_ACCT || module_type == PAM_T_PASS,
    ensures
        handle_wf(*final(utpamh)),
        parse_frame(*old(utpamh), *final(utpamh)),
        include_level > PAM_SUBSTACK_MAX_LEVEL ==> r == PAM_ABORT && *final(utpamh) == *old(
            utpamh,
        ),
        r == PAM_SUCCESS || r == PAM_ABORT || r == PAM_OPEN_ERR,
        r == PAM_OPEN_ERR <==> (include_level <= PAM_SUBSTACK_MAX_LEVEL && forall|i: int|
            0 <= i < old(utpamh).confsource@.len() ==> (#[trigger] old(
                utpamh,
            ).confsource@[i]).name@ != config_name@),
        r == PAM_OPEN_ERR ==> *final(utpamh) == *old(utpamh),
        r == PAM_SUCCESS ==> include_level <= PAM_SUBSTACK_MAX_LEVEL && (exists|fi: int|
            {
                &&& 0 <= fi < old(utpamh).confsource@.len()
                &&& (#[trigger] old(utpamh).confsource@[fi]).name@ == config_name@
                &&& spec_parse_rel(
                    old(utpamh).confsource@,
                    old(utpamh).confsource@[fi].lines.deep_view(),
                    0,
                    Some(service@),
                    old(utpamh).service_name@,
                    module_type,
                    stack_level,
                    not_other,
                    include_level as int,
                    old(utpamh).handlers,
                    final(utpamh).handlers,
                )
            }),
    decreases PAM_SUBSTACK_MAX_LEVEL + 2 - include_level, 3int,
{
    if include_level > PAM_SUBSTACK_MAX_LEVEL {
        // The include nesting bound is a hard limit.
        return PAM_ABORT;
    }
    let fi = match find_config(&utpamh.confsource, config_name.as_str()) {
        Some(fi) => fi,
        None => {
            return PAM_OPEN_ERR;
        },
    };
    let lines = vec_string_copy(&utpamh.confsource[fi].lines);
    proof {
        assert forall|j: int|
            0 <= j < lines@.len() implies #[trigger] lines.deep_view()[j] == utpamh.confsource@[
            fi as int
        ].lines.deep_view()[j] by {
            assert(lines@[j]@ == utpamh.confsource@[fi as int].lines@[j]@);
        };
        assert(lines.deep_view() =~= utpamh.confsource@[fi as int].lines.deep_view());
    }
    let r = utpam_parse_config_file(
        utpamh,
        &lines,
        Some(service),
        module_type,
        include_level,
        stack_level,
        not_other,
    );
    r
}

/// What one logical configuration line asks for.
pub enum LinePlan {
    /// The line belongs to another service or operation class.
    Skip,
    /// Append one policy entry.
    Make(EntryPlan),
    /// Recurse into another configuration file, with a structural marker
    /// first when the directive opens a substack.  `svc` is the service the
    /// included file parses under.
    Inc { other: bool, class: u8, substack: bool, target: Seq<char>, svc: Seq<char> },
}

/// The operation class a line falls back to when its own class token is
/// missing or unknown.
pub open spec fn spec_fallback_class(requested: u8) -> u8 {
    if requested != PAM_T_ANY {
        requested
    } else {
        PAM_T_AUTH
    }
}

/// The meaning of one logical line: which service it addresses, its
/// operation class (with the silence marker), its control word, its module
/// reference or inclusion target, and its argument tokens — exactly the
/// grammar the parser walks, expressed over the token cursor functions.
pub open spec fn spec_line_plan(
    line: Seq<char>,
    known: Option<Seq<char>>,
    service: Seq<char>,
    requested: u8,
    stack_level: usize,
    not_other: bool,
) -> LinePlan {
    let p0: int = match known {
        Some(_) => 0,
        None => crate::tokenize::spec_token_next(line, 0),
    };
    let svc: Seq<char> = match known {
        Some(s) => s,
        None => if crate::tokenize::spec_token_start(line, 0) >= line.len() {
            Seq::empty()
        } else {
            crate::tokenize::spec_token_val(line, 0)
        },
    };
    let other = !not_other && spec_lower(svc) == spec_lower("other"@);
    let accept = spec_lower(svc) == spec_lower(service);
    if !(accept || other) {
        LinePlan::Skip
    } else {
        let t1s = crate::tokenize::spec_token_start(line, p0);
        if t1s >= line.len() {
            // No operation class at all: a hard-failing entry of the
            // fallback class.
            LinePlan::Make(
                EntryPlan {
                    kind: PAM_HT_MUST_FAIL,
                    class: spec_fallback_class(requested),
                    other,
                    level: stack_level,
                    actions: crate::control::spec_all_bad(),
                    argv: Seq::empty(),
                    modref: None,
                },
            )
        } else {
            let t1 = crate::tokenize::spec_token_val(line, p0);
            let p1 = crate::tokenize::spec_token_next(line, p0);
            let silent = crate::strutil::spec_is_prefix(t1, "-"@);
            let tcls = if silent {
                t1.subrange(1, t1.len() as int)
            } else {
                t1
            };
            let base_kind = if silent {
                PAM_HT_SILENT_MODULE
            } else {
                PAM_HT_MODULE
            };
            let known_class = spec_lower(tcls) == spec_lower("auth"@) || spec_lower(tcls)
                == spec_lower("session"@) || spec_lower(tcls) == spec_lower("account"@)
                || spec_lower(tcls) == spec_lower("password"@);
            let class = if spec_lower(tcls) == spec_lower("auth"@) {
                PAM_T_AUTH
            } else if spec_lower(tcls) == spec_lower("session"@) {
                PAM_T_SESS
            } else if spec_lower(tcls) == spec_lower("account"@) {
                PAM_T_ACCT
            } else if spec_lower(tcls) == spec_lower("password"@) {
                PAM_T_PASS
            } else {
                spec_fallback_class(requested)
            };
            if requested != PAM_T_ANY && class != requested {
                LinePlan::Skip
            } else {
                let t2s = crate::tokenize::spec_token_start(line, p1);
                if t2s >= line.len() {
                    // No control word: the entry hard-fails.
                    LinePlan::Make(
                        EntryPlan {
                            kind: PAM_HT_MUST_FAIL,
                            class,
                            other,
                            level: stack_level,
                            actions: crate::control::spec_all_bad(),
                            argv: Seq::empty(),
                            modref: None,
                        },
                    )
                } else {
                    let t2 = crate::tokenize::spec_token_val(line, p1);
                    let p2 = crate::tokenize::spec_token_next(line, p1);
                    let is_inc = spec_lower(t2) == spec_lower("include"@);
                    let is_sub = !is_inc && spec_lower(t2) == spec_lower("substack"@);
                    if is_inc || is_sub {
                        let t3s = crate::tokenize::spec_token_start(line, p2);
                        if t3s >= line.len() {
                            // An inclusion with no target hard-fails.
                            LinePlan::Make(
                                EntryPlan {
                                    kind: PAM_HT_MUST_FAIL,
                                    class,
                                    other,
                                    level: stack_level,
                                    actions: crate::control::spec_all_bad(),
                                    argv: Seq::empty(),
                                    modref: None,
                                },
                            )
                        } else {
                            LinePlan::Inc {
                                other,
                                class,
                                substack: is_sub,
                                target: crate::tokenize::spec_token_val(line, p2),
                                svc,
                            }
                        }
                    } else {
                        let built = crate::control::spec_build_control(t2);
                        let kind = if !known_class || built.1 {
                            PAM_HT_MUST_FAIL
                        } else {
                            base_kind
                        };
                        let t3s = crate::tokenize::spec_token_start(line, p2);
                        if t3s >= line.len() {
                            // No module reference: the entry hard-fails.
                            LinePlan::Make(
                                EntryPlan {
                                    kind: PAM_HT_MUST_FAIL,
                                    class,
                                    other,
                                    level: stack_level,
                                    actions: built.0,
                                    argv: Seq::empty(),
                                    modref: None,
                                },
                            )
                        } else {
                            let modref = crate::tokenize::spec_token_val(line, p2);
                            let p3 = crate::tokenize::spec_token_next(line, p2);
                            let rest = line.subrange(p3, line.len() as int);
                            LinePlan::Make(
                                EntryPlan {
                                    kind,
                                    class,
                                    other,
                                    level: stack_level,
                                    actions: built.0,
                                    argv: if rest.len() < i32::MAX {
                                        crate::tokenize::spec_tokens(rest, 0)
                                    } else {
                                        Seq::empty()
                                    },
                                    modref: Some(modref),
                                },
                            )
                        }
                    }
                }
            }
        }
    }
}

/// The structural marker a substack directive appends before recursing.
pub open spec fn spec_marker_plan(other: bool, class: u8, stack_level: usize) -> EntryPlan {
    EntryPlan {
        kind: PAM_HT_SUBSTACK,
        class,
        other,
        level: stack_level,
        actions: crate::control::spec_all_bad(),
        argv: Seq::empty(),
        modref: None,
    }
}

/// The hard-failing entry a missing inclusion target turns into.
pub open spec fn spec_missing_include_plan(other: bool, class: u8, stack_level: usize) -> EntryPlan {
    EntryPlan {
        kind: PAM_HT_MUST_FAIL,
        class,
        other,
        level: stack_level,
        actions: crate::control::spec_all_bad(),
        argv: Seq::empty(),
        modref: None,
    }
}

/// What a successful parse of a file's lines does to the policy table,
/// logical line by logical line: skipped lines change nothing, each
/// accepted line appends exactly its planned entry, and an inclusion first
/// appends its marker (for a substack) and then applies the target file's
/// own parse relation at the raised include (and, for a substack, stack)
/// level — or, when the target is absent from the source, one hard-failing
/// entry.
pub open spec fn spec_parse_rel<M>(
    src: Seq<ConfigFile>,
    dv: Seq<Seq<char>>,
    i: int,
    known: Option<Seq<char>>,
    service: Seq<char>,
    requested: u8,
    stack_level: usize,
    not_other: bool,
    level: int,
    pre: Service<M>,
    post: Service<M>,
) -> bool
    decreases
            PAM_SUBSTACK_MAX_LEVEL + 1 - level,
            dv.len() - i,
        when 0 <= i <= dv.len() && 0 <= level <= PAM_SUBSTACK_MAX_LEVEL
        via spec_parse_rel_decreases::<M>
{
    match crate::line::spec_next_logical(dv, i, Seq::empty()) {
        None => post == pre,
        Some((line, ni)) => match spec_line_plan(
            line,
            known,
            service,
            requested,
            stack_level,
            not_other,
        ) {
            LinePlan::Skip => spec_parse_rel(
                src,
                dv,
                ni,
                known,
                service,
                requested,
                stack_level,
                not_other,
                level,
                pre,
                post,
            ),
            LinePlan::Make(p) => exists|mid: Service<M>|
                #![trigger spec_entry_applied(pre, mid, p)]
                spec_entry_applied(pre, mid, p) && spec_parse_rel(
                    src,
                    dv,
                    ni,
                    known,
                    service,
                    requested,
                    stack_level,
                    not_other,
                    level,
                    mid,
                    post,
                ),
            LinePlan::Inc { other, class, substack, target, svc } => exists|
                mid1: Service<M>,
                mid2: Service<M>,
            |
                #![trigger trigger_mid(mid1), trigger_mid(mid2)]
                {
                    &&& if substack {
                        spec_entry_applied(pre, mid1, spec_marker_plan(other, class, stack_level))
                    } else {
                        mid1 == pre
                    }
                    &&& level + 1 <= PAM_SUBSTACK_MAX_LEVEL
                    &&& if spec_has_file(src, target) {
                        exists|fi: int|
                            {
                                &&& 0 <= fi < src.len()
                                &&& (#[trigger] src[fi]).name@ == target
                                &&& spec_parse_rel(
                                    src,
                                    src[fi].lines.deep_view(),
                                    0,
                                    Some(svc),
                                    service,
                                    class,
                                    (stack_level + if substack {
                                        1int
                                    } else {
                                        0int
                                    }) as usize,
                                    not_other,
                                    level + 1,
                                    mid1,
                                    mid2,
                                )
                            }
                    } else {
                        spec_entry_applied(
                            mid1,
                            mid2,
                            spec_missing_include_plan(other, class, stack_level),
                        )
                    }
                    &&& spec_parse_rel(
                        src,
                        dv,
                        ni,
                        known,
                        service,
                        requested,
                        stack_level,
                        not_other,
                        level,
                        mid2,
                        post,
                    )
                },
        },
    }
}

/// A file is benign when every logical line either belongs elsewhere or
/// yields a hard-failing entry: nothing in it consults the module loader
/// or another file, so parsing it cannot fail.
pub open spec fn spec_lines_benign(
    dv: Seq<Seq<char>>,
    i: int,
    known: Option<Seq<char>>,
    service: Seq<char>,
    requested: u8,
    stack_level: usize,
    not_other: bool,
) -> bool
    decreases dv.len() - i when 0 <= i <= dv.len() via spec_lines_benign_decreases
{
    match crate::line::spec_next_logical(dv, i, Seq::empty()) {
        None => true,
        Some((line, ni)) => {
            let plan = spec_line_plan(line, known, service, requested, stack_level, not_other);
            &&& match plan {
                LinePlan::Skip => true,
                LinePlan::Make(p) => p.kind == PAM_HT_MUST_FAIL,
                LinePlan::Inc { .. } => false,
            }
            &&& spec_lines_benign(dv, ni, known, service, requested, stack_level, not_other)
        },
    }
}

#[via_fn]
proof fn spec_lines_benign_decreases(
    dv: Seq<Seq<char>>,
    i: int,
    known: Option<Seq<char>>,
    service: Seq<char>,
    requested: u8,
    stack_level: usize,
    not_other: bool,
) {
    crate::line::lemma_next_logical_advances(dv, i, Seq::empty());
}

#[via_fn]
proof fn spec_parse_rel_decreases<M>(
    src: Seq<ConfigFile>,
    dv: Seq<Seq<char>>,
    i: int,
    known: Option<Seq<char>>,
    service: Seq<char>,
    requested: u8,
    stack_level: usize,
    not_other: bool,
    level: int,
    pre: Service<M>,
    post: Service<M>,
) {
    crate::line::lemma_next_logical_advances(dv, i, Seq::empty());
}

/// Handle one inclusion directive: append the substack marker if asked,
/// then load the target at the raised levels; a missing target becomes one
/// hard-failing entry.  The returned ghost value is the table right after
/// the marker.
#[verifier::rlimit(100)]
fn parse_include_line<M: UtpamModule, D>(
    utpamh: &mut UtpamHandle<M, D>,
    target: &String,
    this_service: &String,
    other: bool,
    substack: bool,
    module_type: u8,
    actions: &Vec<i32>,
    include_level: i32,
    stack_level: usize,
    not_other: bool,
) -> (r: (u8, Ghost<Service<M>>))
    requires
        handle_wf(*old(utpamh)),
        0 <= include_level <= PAM_SUBSTACK_MAX_LEVEL,
        stack_level as int <= include_level,
        is_action_table(actions@),
        actions@ == crate::control::spec_all_bad(),
        module_type == PAM_T_AUTH || module_type == PAM_T_SESS || module_type == PAM_T_ACCT
            || module_type == PAM_T_PASS,
    ensures
        handle_wf(*final(utpamh)),
        parse_frame(*old(utpamh), *final(utpamh)),
        r.0 == PAM_SUCCESS || r.0 == PAM_ABORT,
        r.0 == PAM_SUCCESS ==> include_level < PAM_SUBSTACK_MAX_LEVEL && {
            &&& if substack {
                spec_entry_applied(
                    old(utpamh).handlers,
                    r.1@,
                    spec_marker_plan(other, module_type, stack_level),
                )
            } else {
                r.1@ == old(utpamh).handlers
            }
            &&& if spec_has_file(old(utpamh).confsource@, target@) {
                exists|fi: int|
                    {
                        &&& 0 <= fi < old(utpamh).confsource@.len()
                        &&& (#[trigger] old(utpamh).confsource@[fi]).name@ == target@
                        &&& spec_parse_rel(
                            old(utpamh).confsource@,
                            old(utpamh).confsource@[fi].lines.deep_view(),
                            0,
                            Some(this_service@),
                            old(utpamh).service_name@,
                            module_type,
                            (stack_level + if substack {
                                1int
                            } else {
                                0int
                            }) as usize,
                            not_other,
                            include_level + 1,
                            r.1@,
                            final(utpamh).handlers,
                        )
                    }
            } else {
                spec_entry_applied(
                    r.1@,
                    final(utpamh).handlers,
                    spec_missing_include_plan(other, module_type, stack_level),
                )
            }
        },
    decreases PAM_SUBSTACK_MAX_LEVEL + 2 - include_level, 0int,
{
    let ghost h0 = *utpamh;
    if substack {
        // The structural marker recording the nesting boundary.
        let empty_args: Vec<String> = Vec::new();
        let res = utpam_add_handler(
            utpamh,
            PAM_HT_SUBSTACK,
            other,
            stack_level,
            module_type,
            actions,
            None,
            &empty_args,
        );
        if res != PAM_SUCCESS {
            return (PAM_ABORT, Ghost(h0.handlers));
        }
        proof {
            assert(empty_args.deep_view() =~= Seq::<Seq<char>>::empty());
            assert(spec_entry_applied(
                h0.handlers,
                utpamh.handlers,
                spec_marker_plan(other, module_type, stack_level),
            ));
        }
    }
    let ghost hmid = *utpamh;
    let next_stack = if substack {
        stack_level + 1
    } else {
        stack_level
    };
    let res = utpam_load_conf_file(
        utpamh,
        target,
        this_service,
        module_type,
        include_level + 1,
        next_stack,
        not_other,
    );
    proof {
        lemma_service_extends_trans(h0.handlers, hmid.handlers, utpamh.handlers);
    }
    if res == PAM_SUCCESS {
        proof {
            assert(spec_has_file(utpamh.confsource@, target@));
        }
        return (PAM_SUCCESS, Ghost(hmid.handlers));
    }
    if res == PAM_OPEN_ERR {
        // The target does not exist: this entry hard-fails instead of
        // sinking the whole load.
        let empty_args: Vec<String> = Vec::new();
        let res2 = utpam_add_handler(
            utpamh,
            PAM_HT_MUST_FAIL,
            other,
            stack_level,
            module_type,
            actions,
            None,
            &empty_args,
        );
        if res2 != PAM_SUCCESS {
            return (PAM_ABORT, Ghost(h0.handlers));
        }
        proof {
            assert(empty_args.deep_view() =~= Seq::<Seq<char>>::empty());
            assert(spec_entry_applied(
                hmid.handlers,
                utpamh.handlers,
                spec_missing_include_plan(other, module_type, stack_level),
            ));
            lemma_service_extends_trans(h0.handlers, hmid.handlers, utpamh.handlers);
        }
        return (PAM_SUCCESS, Ghost(hmid.handlers));
    }
    (PAM_ABORT, Ghost(h0.handlers))
}

/// Process one logical line: skip it, append its entry, or recurse into
/// its inclusion target — exactly what [`spec_line_plan`] says of it.
#[verifier::rlimit(100)]
#[verifier::spinoff_prover]
fn parse_one_line<M: UtpamModule, D>(
    utpamh: &mut UtpamHandle<M, D>,
    line: &String,
    known_service: Option<&String>,
    requested_module_type: u8,
    include_level: i32,
    stack_level: usize,
    not_other: bool,
) -> (r: (u8, Ghost<Service<M>>))
    requires
        handle_wf(*old(utpamh)),
        0 <= include_level <= PAM_SUBSTACK_MAX_LEVEL,
        stack_level as int <= include_level,
        requested_module_type == PAM_T_ANY || requested_module_type == PAM_T_AUTH
            || requested_module_type == PAM_T_SESS || requested_module_type == PAM_T_ACCT
            || requested_module_type == PAM_T_PASS,
    ensures
        handle_wf(*final(utpamh)),
        parse_frame(*old(utpamh), *final(utpamh)),
        r.0 == PAM_SUCCESS || r.0 == PAM_ABORT,
        ({
            let kv: Option<Seq<char>> = match known_service {
                Some(s) => Some(s@),
                None => None,
            };
            let plan = spec_line_plan(
                line@,
                kv,
                old(utpamh).service_name@,
                requested_module_type,
                stack_level,
                not_other,
            );
            match plan {
                LinePlan::Skip => r.0 == PAM_SUCCESS && final(utpamh).handlers == old(
                    utpamh,
                ).handlers,
                LinePlan::Make(p) => {
                    &&& (r.0 == PAM_SUCCESS ==> spec_entry_applied(
                        old(utpamh).handlers,
                        final(utpamh).handlers,
                        p,
                    ))
                    &&& (p.kind == PAM_HT_MUST_FAIL || p.kind == PAM_HT_SUBSTACK ==> r.0
                        == PAM_SUCCESS)
                },
                LinePlan::Inc { other, class, substack, target, svc } => r.0 == PAM_SUCCESS
                    ==> include_level < PAM_SUBSTACK_MAX_LEVEL && {
                    &&& if substack {
                        spec_entry_applied(
                            old(utpamh).handlers,
                            r.1@,
                            spec_marker_plan(other, class, stack_level),
                        )
                    } else {
                        r.1@ == old(utpamh).handlers
                    }
                    &&& if spec_has_file(old(utpamh).confsource@, target) {
                        exists|fi: int|
                            {
                                &&& 0 <= fi < old(utpamh).confsource@.len()
                                &&& (#[trigger] old(utpamh).confsource@[fi]).name@ == target
                                &&& spec_parse_rel(
                                    old(utpamh).confsource@,
                                    old(utpamh).confsource@[fi].lines.deep_view(),
                                    0,
                                    Some(svc),
                                    old(utpamh).service_name@,
                                    class,
                                    (stack_level + if substack {
                                        1int
                                    } else {
                                        0int
                                    }) as usize,
                                    not_other,
                                    include_level + 1,
                                    r.1@,
                                    final(utpamh).handlers,
                                )
                            }
                    } else {
                        spec_entry_applied(
                            r.1@,
                            final(utpamh).handlers,
                            spec_missing_include_plan(other, class, stack_level),
                        )
                    }
                },
            }
        }),
    decreases PAM_SUBSTACK_MAX_LEVEL + 2 - include_level, 1int,
{
    let ghost h0 = *utpamh;
    let ghost lv = line@;
    let ghost kv: Option<Seq<char>> = match known_service {
        Some(s) => Some(s@),
        None => None,
    };
    let ghost plan = spec_line_plan(
        lv,
        kv,
        utpamh.service_name@,
        requested_module_type,
        stack_level,
        not_other,
    );
    let mut pos: usize = 0;
    // The target service: fixed by the caller, or the line's first token.
    let this_service: String = match known_service {
        Some(s) => s.clone(),
        None => {
            match utpam_tokenize(line.as_str(), &mut pos) {
                Some(t) => t,
                None => String::new(),
            }
        },
    };
    let ghost gp0: int = match kv {
        Some(_) => 0int,
        None => crate::tokenize::spec_token_next(lv, 0),
    };
    let ghost gsvc: Seq<char> = match kv {
        Some(s) => s,
        None => if crate::tokenize::spec_token_start(lv, 0) >= lv.len() {
            Seq::empty()
        } else {
            crate::tokenize::spec_token_val(lv, 0)
        },
    };
    proof {
        assert(pos == gp0);
        assert(this_service@ == gsvc);
    }
    let other = if not_other {
        false
    } else {
        eq_ignore_ascii_case(this_service.as_str(), UTPAM_DEFAULT_SERVICE)
    };
    let accept = eq_ignore_ascii_case(this_service.as_str(), utpamh.service_name.as_str());
    if !(accept || other) {
        // A line for some other service.
        proof {
            assert(plan is Skip);
        }
        return (PAM_SUCCESS, Ghost(h0.handlers));
    }
    // The operation class, with an optional leading silence marker.
    let mut handler_type = PAM_HT_MODULE;
    let mut module_type = PAM_T_AUTH;
    match utpam_tokenize(line.as_str(), &mut pos) {
        Some(t) => {
            proof {
                assert(t@ == crate::tokenize::spec_token_val(lv, gp0));
                assert(pos == crate::tokenize::spec_token_next(lv, gp0));
            }
            let mut tref: &str = t.as_str();
            let silent = starts_with(tref, "-");
            let tcut: String;
            if silent {
                handler_type = PAM_HT_SILENT_MODULE;
                proof {
                    reveal_strlit("-");
                    assert(t@.len() >= 1);
                }
                tcut = t.as_str().substring_char(1, t.as_str().unicode_len()).to_owned();
                tref = tcut.as_str();
                proof {
                    assert(tref@ == t@.subrange(1, t@.len() as int));
                }
            } else {
                tcut = t.clone();
                tref = tcut.as_str();
            }
            if eq_ignore_ascii_case(tref, "auth") {
                module_type = PAM_T_AUTH;
            } else if eq_ignore_ascii_case(tref, "session") {
                module_type = PAM_T_SESS;
            } else if eq_ignore_ascii_case(tref, "account") {
                module_type = PAM_T_ACCT;
            } else if eq_ignore_ascii_case(tref, "password") {
                module_type = PAM_T_PASS;
            } else {
                // An unknown class still yields a hard-failing entry of
                // the class the caller asked for.
                module_type = if requested_module_type != PAM_T_ANY {
                    requested_module_type
                } else {
                    PAM_T_AUTH
                };
                handler_type = PAM_HT_MUST_FAIL;
            }
        },
        None => {
            module_type = if requested_module_type != PAM_T_ANY {
                requested_module_type
            } else {
                PAM_T_AUTH
            };
            handler_type = PAM_HT_MUST_FAIL;
        },
    }
    if requested_module_type != PAM_T_ANY && module_type != requested_module_type {
        // An included file only contributes the class that asked for it.
        proof {
            assert(plan is Skip);
        }
        return (PAM_SUCCESS, Ghost(h0.handlers));
    }
    // The control word: a keyword, an explicit action list, or an
    // inclusion directive.
    let mut pam_include = false;
    let mut substack = false;
    let mut actions: Vec<i32> = Vec::new();
    let mut k: usize = 0;
    while k < PAM_RETURN_VALUES
        invariant
            k <= PAM_RETURN_VALUES,
            actions@.len() == k,
            forall|j: int| 0 <= j < k ==> actions@[j] == PAM_ACTION_BAD,
        decreases PAM_RETURN_VALUES - k,
    {
        actions.push(PAM_ACTION_BAD);
        k = k + 1;
    }
    proof {
        assert(actions@ =~= crate::control::spec_all_bad());
    }
    match utpam_tokenize(line.as_str(), &mut pos) {
        Some(t) => {
            if eq_ignore_ascii_case(t.as_str(), "include") {
                pam_include = true;
            } else if eq_ignore_ascii_case(t.as_str(), "substack") {
                pam_include = true;
                substack = true;
            } else {
                let built = utpam_build_control(t.as_str());
                actions = built.0;
                if built.1 {
                    // A malformed control list hard-fails this entry.
                    handler_type = PAM_HT_MUST_FAIL;
                }
            }
        },
        None => {
            handler_type = PAM_HT_MUST_FAIL;
        },
    }
    // The module reference or inclusion target, then the argument vector.
    let mut mod_path: Option<String> = None;
    if pam_include {
        match utpam_tokenize(line.as_str(), &mut pos) {
            Some(t) => {
                proof {
                    let t1s = crate::tokenize::spec_token_start(lv, gp0);
                    let t1 = crate::tokenize::spec_token_val(lv, gp0);
                    let p1 = crate::tokenize::spec_token_next(lv, gp0);
                    let t2s = crate::tokenize::spec_token_start(lv, p1);
                    let t2 = crate::tokenize::spec_token_val(lv, p1);
                    let p2 = crate::tokenize::spec_token_next(lv, p1);
                    assert(t1s < lv.len());
                    assert(t2s < lv.len());
                    assert(spec_lower(t2) == spec_lower("include"@) || spec_lower(t2)
                        == spec_lower("substack"@));
                    assert(substack == (spec_lower(t2) != spec_lower("include"@) && spec_lower(
                        t2,
                    ) == spec_lower("substack"@)));
                    assert(crate::tokenize::spec_token_start(lv, p2) < lv.len());
                    assert(t@ == crate::tokenize::spec_token_val(lv, p2));
                    assert(plan == (LinePlan::Inc {
                        other,
                        class: module_type,
                        substack,
                        target: t@,
                        svc: this_service@,
                    }));
                }
                let r = parse_include_line(
                    utpamh,
                    &t,
                    &this_service,
                    other,
                    substack,
                    module_type,
                    &actions,
                    include_level,
                    stack_level,
                    not_other,
                );
                if r.0 != PAM_SUCCESS {
                    return (PAM_ABORT, Ghost(h0.handlers));
                }
                return (PAM_SUCCESS, r.1);
            },
            None => {
                mod_path = None;
                handler_type = PAM_HT_MUST_FAIL;
            },
        }
    } else {
        match utpam_tokenize(line.as_str(), &mut pos) {
            Some(t) => {
                mod_path = Some(t);
            },
            None => {
                mod_path = None;
                handler_type = PAM_HT_MUST_FAIL;
            },
        }
    }
    let mut argv: Vec<String> = Vec::new();
    let mut argc: i32 = 0;
    let rest = line.as_str().substring_char(pos, line.as_str().unicode_len());
    if rest.unicode_len() < i32::MAX as usize {
        crate::tokenize::utpam_mkargv(rest, &mut argv, &mut argc);
        proof {
            assert(argv.deep_view() =~= crate::tokenize::spec_tokens(rest@, 0));
        }
    }
    proof {
        assert(argv.deep_view() =~= (match plan {
            LinePlan::Make(p) => p.argv,
            _ => argv.deep_view(),
        }));
        assert(plan == (LinePlan::Make(EntryPlan {
            kind: handler_type,
            class: module_type,
            other,
            level: stack_level,
            actions: actions@,
            argv: argv.deep_view(),
            modref: match mod_path {
                Some(p) => Some(p@),
                None => None,
            },
        })));
    }
    let res = utpam_add_handler(
        utpamh,
        handler_type,
        other,
        stack_level,
        module_type,
        &actions,
        match &mod_path {
            Some(p) => Some(p),
            None => None,
        },
        &argv,
    );
    if res != PAM_SUCCESS {
        return (PAM_ABORT, Ghost(h0.handlers));
    }
    (PAM_SUCCESS, Ghost(h0.handlers))
}

/// Parse one configuration file's lines, appending the policy entries they
/// describe to the session's chains.
///
/// On success the policy table relates to its old value by
/// [`spec_parse_rel`]: the logical lines' plans, applied in order.
pub fn utpam_parse_config_file<M: UtpamModule, D>(
    utpamh: &mut UtpamHandle<M, D>,
    lines: &Vec<String>,
    known_service: Option<&String>,
    requested_module_type: u8,
    include_level: i32,
    stack_level: usize,
    not_other: bool,
) -> (r: u8)
    requires
        handle_wf(*old(utpamh)),
        0 <= include_level <= PAM_SUBSTACK_MAX_LEVEL,
        stack_level as int <= include_level,
        requested_module_type == PAM_T_ANY || requested_module_type == PAM_T_AUTH
            || requested_module_type == PAM_T_SESS || requested_module_type == PAM_T_ACCT
            || requested_module_type == PAM_T_PASS,
    ensures
        handle_wf(*final(utpamh)),
        parse_frame(*old(utpamh), *final(utpamh)),
        r == PAM_SUCCESS || r == PAM_ABORT,
        r == PAM_SUCCESS ==> spec_parse_rel(
            old(utpamh).confsource@,
            lines.deep_view(),
            0,
            match known_service {
                Some(s) => Some(s@),
                None => None,
            },
            old(utpamh).service_name@,
            requested_module_type,
            stack_level,
            not_other,
            include_level as int,
            old(utpamh).handlers,
            final(utpamh).handlers,
        ),
        spec_lines_benign(
            lines.deep_view(),
            0,
            match known_service {
                Some(s) => Some(s@),
                None => None,
            },
            old(utpamh).service_name@,
            requested_module_type,
            stack_level,
            not_other,
        ) ==> r == PAM_SUCCESS,
    decreases PAM_SUBSTACK_MAX_LEVEL + 2 - include_level, 2int,
{
    let ghost h0 = *utpamh;
    let ghost srcv = utpamh.confsource@;
    let ghost lvl = include_level as int;
    let ghost dv = lines.deep_view();
    let ghost kv: Option<Seq<char>> = match known_service {
        Some(s) => Some(s@),
        None => None,
    };
    let ghost svc = utpamh.service_name@;
    let mut idx: usize = 0;
    let mut buffer = UtpamLineBuffer::new();
    let n = lines.len();
    loop
        invariant
            idx <= n,
            n == lines@.len(),
            dv == lines.deep_view(),
            dv.len() == n,
            kv == (match known_service {
                Some(s) => Some(s@),
                None => None,
            }),
            svc == h0.service_name@,
            handle_wf(*utpamh),
            parse_frame(h0, *utpamh),
            utpamh.service_name@ == svc,
            h0 == *old(utpamh),
            0 <= include_level <= PAM_SUBSTACK_MAX_LEVEL,
            stack_level as int <= include_level,
            requested_module_type == PAM_T_ANY || requested_module_type == PAM_T_AUTH
                || requested_module_type == PAM_T_SESS || requested_module_type == PAM_T_ACCT
                || requested_module_type == PAM_T_PASS,
            buffer.chunk@.len() == 0,
            srcv == h0.confsource@,
            utpamh.confsource@ == srcv,
            lvl == include_level as int,
            spec_lines_benign(dv, 0, kv, svc, requested_module_type, stack_level, not_other)
                ==> spec_lines_benign(
                dv,
                idx as int,
                kv,
                svc,
                requested_module_type,
                stack_level,
                not_other,
            ),
            forall|post: Service<M>|
                spec_parse_rel(
                    srcv,
                    dv,
                    idx as int,
                    kv,
                    svc,
                    requested_module_type,
                    stack_level,
                    not_other,
                    lvl,
                    #[trigger] utpamh.handlers,
                    post,
                ) ==> spec_parse_rel(
                    srcv,
                    dv,
                    0,
                    kv,
                    svc,
                    requested_module_type,
                    stack_level,
                    not_other,
                    lvl,
                    h0.handlers,
                    post,
                ),
        ensures
            handle_wf(*utpamh),
            parse_frame(h0, *utpamh),
            spec_parse_rel(
                srcv,
                dv,
                0,
                kv,
                svc,
                requested_module_type,
                stack_level,
                not_other,
                lvl,
                h0.handlers,
                utpamh.handlers,
            ),
        decreases n - idx,
    {
        let ghost idx_pre = idx as int;
        let ghost chunk_pre = buffer.chunk@;
        let ghost ha = *utpamh;
        let got = utpam_line_assemble(lines, &mut idx, &mut buffer);
        proof {
            assert(chunk_pre =~= Seq::<char>::empty());
            crate::line::lemma_next_logical_advances(lines.deep_view(), idx_pre, chunk_pre);
        }
        if got == 0 {
            proof {
                assert(spec_parse_rel(
                    srcv,
                    dv,
                    idx as int,
                    kv,
                    svc,
                    requested_module_type,
                    stack_level,
                    not_other,
                    lvl,
                    utpamh.handlers,
                    utpamh.handlers,
                ));
            }
            break ;
        }
        let line = buffer.assembled.clone();
        let ghost gline = line@;
        let ghost ni = idx as int;
        let (res, gmid1) = parse_one_line(
            utpamh,
            &line,
            known_service,
            requested_module_type,
            include_level,
            stack_level,
            not_other,
        );
        proof {
            lemma_service_extends_trans(h0.handlers, ha.handlers, utpamh.handlers);
        }
        if res != PAM_SUCCESS {
            proof {
                if spec_lines_benign(dv, 0, kv, svc, requested_module_type, stack_level, not_other)
                     {
                    assert(spec_lines_benign(
                        dv,
                        idx_pre,
                        kv,
                        svc,
                        requested_module_type,
                        stack_level,
                        not_other,
                    ));
                    assert(false);
                }
            }
            return PAM_ABORT;
        }
        proof {
            let plan = spec_line_plan(
                gline,
                kv,
                svc,
                requested_module_type,
                stack_level,
                not_other,
            );
            assert forall|post: Service<M>|
                spec_parse_rel(
                    srcv,
                    dv,
                    ni,
                    kv,
                    svc,
                    requested_module_type,
                    stack_level,
                    not_other,
                    lvl,
                    #[trigger] utpamh.handlers,
                    post,
                ) implies spec_parse_rel(
                srcv,
                dv,
                0,
                kv,
                svc,
                requested_module_type,
                stack_level,
                not_other,
                lvl,
                h0.handlers,
                post,
            ) by {
                match plan {
                    LinePlan::Skip => {
                        assert(utpamh.handlers == ha.handlers);
                        assert(spec_parse_rel(
                            srcv,
                            dv,
                            idx_pre,
                            kv,
                            svc,
                            requested_module_type,
                            stack_level,
                            not_other,
                            lvl,
                            ha.handlers,
                            post,
                        ));
                    },
                    LinePlan::Make(p) => {
                        assert(spec_entry_applied(ha.handlers, utpamh.handlers, p));
                        assert(spec_parse_rel(
                            srcv,
                            dv,
                            idx_pre,
                            kv,
                            svc,
                            requested_module_type,
                            stack_level,
                            not_other,
                            lvl,
                            ha.handlers,
                            post,
                        ));
                    },
                    LinePlan::Inc { other, class, substack, target, svc: isvc } => {
                        assert(trigger_mid(gmid1@) && trigger_mid(utpamh.handlers));
                        assert(spec_parse_rel(
                            srcv,
                            dv,
                            idx_pre,
                            kv,
                            svc,
                            requested_module_type,
                            stack_level,
                            not_other,
                            lvl,
                            ha.handlers,
                            post,
                        ));
                    },
                }
            };
        }
    }
    PAM_SUCCESS
}

/// A handle for quantifier instantiation over intermediate policy tables.
pub open spec fn trigger_mid<M>(s: Service<M>) -> bool {
    true
}

/// Whether the source holds a file of this name.
pub open spec fn spec_has_file(src: Seq<ConfigFile>, name: Seq<char>) -> bool {
    exists|i: int| 0 <= i < src.len() && (#[trigger] src[i]).name@ == name
}

/// A configuration source that cannot fail to load for service `svc`: some
/// file applies, and every applicable file's lines are benign — none
/// consults the module loader or another file.
pub open spec fn spec_source_benign(src: Seq<ConfigFile>, svc: Seq<char>) -> bool {
    &&& (spec_has_file(src, svc) || spec_has_file(src, "other"@) || spec_has_file(
        src,
        "utpam.conf"@,
    ))
    &&& (spec_has_file(src, svc) ==> spec_lines_benign(
        src[spec_first_file(src, svc)].lines.deep_view(),
        0,
        Some(svc),
        svc,
        PAM_T_ANY,
        0,
        false,
    ))
    &&& (spec_has_file(src, "other"@) ==> spec_lines_benign(
        src[spec_first_file(src, "other"@)].lines.deep_view(),
        0,
        Some("other"@),
        svc,
        PAM_T_ANY,
        0,
        false,
    ))
    &&& (!spec_has_file(src, svc) && !spec_has_file(src, "other"@) ==> spec_lines_benign(
        src[spec_first_file(src, "utpam.conf"@)].lines.deep_view(),
        0,
        None,
        svc,
        PAM_T_ANY,
        0,
        false,
    ))
}

/// Compile the policy table for this session from its configuration
/// source: the named service's file, then the fallback service's, or the
/// single flat file when neither exists.  Loads once; later calls are
/// no-ops.
pub fn utpam_init_handlers<M: UtpamModule, D>(utpamh: &mut UtpamHandle<M, D>) -> (r: u8)
    requires
        handle_wf(*old(utpamh)),
    ensures
        handle_wf(*final(utpamh)),
        session_fields_eq(*old(utpamh), *final(utpamh)),
        final(utpamh).former == old(utpamh).former,
        service_extends(old(utpamh).handlers, final(utpamh).handlers),
        old(utpamh).handlers.handlers_loaded ==> r == PAM_SUCCESS && *final(utpamh) == *old(
            utpamh,
        ),
        r == PAM_SUCCESS ==> final(utpamh).handlers.handlers_loaded,
        r != PAM_SUCCESS ==> final(utpamh).handlers.handlers_loaded == old(
            utpamh,
        ).handlers.handlers_loaded,
        r == PAM_BAD_ITEM <==> !old(utpamh).handlers.handlers_loaded && old(
            utpamh,
        ).service_name@.len() == 0,
        r == PAM_SUCCESS || r == PAM_ABORT || r == PAM_BAD_ITEM,
        !old(utpamh).handlers.handlers_loaded && old(utpamh).service_name@.len() > 0
            && !spec_has_file(old(utpamh).confsource@, old(utpamh).service_name@)
            && !spec_has_file(old(utpamh).confsource@, "other"@) && !spec_has_file(
            old(utpamh).confsource@,
            "utpam.conf"@,
        ) ==> r == PAM_ABORT && *final(utpamh) == *old(utpamh),
        !old(utpamh).handlers.handlers_loaded && old(utpamh).service_name@.len() > 0
            && spec_source_benign(old(utpamh).confsource@, old(utpamh).service_name@) ==> r
            == PAM_SUCCESS,
        r == PAM_SUCCESS && !old(utpamh).handlers.handlers_loaded ==> ({
            let srcv = old(utpamh).confsource@;
            let svc = old(utpamh).service_name@;
            exists|fin0: Service<M>|
                {
                    &&& final(utpamh).handlers == (Service { handlers_loaded: true, ..fin0 })
                    &&& if spec_has_file(srcv, svc) || spec_has_file(srcv, "other"@) {
                        exists|mid: Service<M>|
                            {
                                &&& if spec_has_file(srcv, svc) {
                                    exists|fi: int|
                                        {
                                            &&& 0 <= fi < srcv.len()
                                            &&& (#[trigger] srcv[fi]).name@ == svc
                                            &&& spec_parse_rel(
                                                srcv,
                                                srcv[fi].lines.deep_view(),
                                                0,
                                                Some(svc),
                                                svc,
                                                PAM_T_ANY,
                                                0,
                                                false,
                                                0,
                                                old(utpamh).handlers,
                                                mid,
                                            )
                                        }
                                } else {
                                    mid == old(utpamh).handlers
                                }
                                &&& if spec_has_file(srcv, "other"@) {
                                    exists|fo: int|
                                        {
                                            &&& 0 <= fo < srcv.len()
                                            &&& (#[trigger] srcv[fo]).name@ == "other"@
                                            &&& spec_parse_rel(
                                                srcv,
                                                srcv[fo].lines.deep_view(),
                                                0,
                                                Some("other"@),
                                                svc,
                                                PAM_T_ANY,
                                                0,
                                                false,
                                                0,
                                                mid,
                                                fin0,
                                            )
                                        }
                                } else {
                                    #[trigger] trigger_mid(mid) && fin0 == mid
                                }
                            }
                    } else {
                        exists|fc: int|
                            {
                                &&& 0 <= fc < srcv.len()
                                &&& (#[trigger] srcv[fc]).name@ == "utpam.conf"@
                                &&& spec_parse_rel(
                                    srcv,
                                    srcv[fc].lines.deep_view(),
                                    0,
                                    None,
                                    svc,
                                    PAM_T_ANY,
                                    0,
                                    false,
                                    0,
                                    old(utpamh).handlers,
                                    fin0,
                                )
                            }
                    }
                }
        }),
{
    if utpamh.handlers.handlers_loaded {
        return PAM_SUCCESS;
    }
    if utpamh.service_name.unicode_len() == 0 {
        return PAM_BAD_ITEM;
    }
    let ghost h0 = *utpamh;
    let service = utpamh.service_name.clone();
    let mut read_something = false;
    let service_file = find_config(&utpamh.confsource, service.as_str());
    let other_name = String::from_str(UTPAM_DEFAULT_SERVICE);
    let other_file = find_config(&utpamh.confsource, other_name.as_str());
    if service_file.is_some() || other_file.is_some() {
        if let Some(fi) = service_file {
            let lines = vec_string_copy(&utpamh.confsource[fi].lines);
            proof {
                assert forall|j: int|
                    0 <= j < lines@.len() implies #[trigger] lines.deep_view()[j]
                    == utpamh.confsource@[fi as int].lines.deep_view()[j] by {
                    assert(lines@[j]@ == utpamh.confsource@[fi as int].lines@[j]@);
                };
                assert(lines.deep_view() =~= utpamh.confsource@[fi as int].lines.deep_view());
            }
            let res = utpam_parse_config_file(
                utpamh,
                &lines,
                Some(&service),
                PAM_T_ANY,
                0,
                0,
                false,
            );
            if res != PAM_SUCCESS {
                return PAM_ABORT;
            }
            read_something = true;
        }
        let ghost h1 = *utpamh;
        if let Some(fo) = other_file {
            let lines = vec_string_copy(&utpamh.confsource[fo].lines);
            proof {
                assert forall|j: int|
                    0 <= j < lines@.len() implies #[trigger] lines.deep_view()[j]
                    == utpamh.confsource@[fo as int].lines.deep_view()[j] by {
                    assert(lines@[j]@ == utpamh.confsource@[fo as int].lines@[j]@);
                };
                assert(lines.deep_view() =~= utpamh.confsource@[fo as int].lines.deep_view());
            }
            let res = utpam_parse_config_file(
                utpamh,
                &lines,
                Some(&other_name),
                PAM_T_ANY,
                0,
                0,
                false,
            );
            proof {
                lemma_service_extends_trans(h0.handlers, h1.handlers, utpamh.handlers);
            }
            if res != PAM_SUCCESS {
                return PAM_ABORT;
            }
            read_something = true;
        }
        if !read_something {
            return PAM_ABORT;
        }
        proof {
            assert(trigger_mid(h1.handlers));
        }
    } else {
        // No per-service files: fall back to the single flat file, whose
        // lines carry the service column themselves.
        let flat = String::from_str(UTPAM_CONFIG_NAME);
        let fc = match find_config(&utpamh.confsource, flat.as_str()) {
            Some(fc) => fc,
            None => {
                return PAM_ABORT;
            },
        };
        let lines = vec_string_copy(&utpamh.confsource[fc].lines);
        proof {
            assert forall|j: int|
                0 <= j < lines@.len() implies #[trigger] lines.deep_view()[j] == utpamh.confsource@[
                fc as int
            ].lines.deep_view()[j] by {
                assert(lines@[j]@ == utpamh.confsource@[fc as int].lines@[j]@);
            };
            assert(lines.deep_view() =~= utpamh.confsource@[fc as int].lines.deep_view());
        }
        let res = utpam_parse_config_file(utpamh, &lines, None, PAM_T_ANY, 0, 0, false);
        if res != PAM_SUCCESS {
            return PAM_ABORT;
        }
    }
    let ghost fin0 = utpamh.handlers;
    utpamh.handlers.handlers_loaded = true;
    proof {
        assert(utpamh.handlers == (Service { handlers_loaded: true, ..fin0 }));
    }
    PAM_SUCCESS
}

} // verus!
