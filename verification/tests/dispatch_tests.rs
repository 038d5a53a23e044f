//! End-to-end scenarios: a policy text is compiled into chains and
//! dispatched against scripted in-memory modules.

use utpam::codes::{
    PAM_ABORT, PAM_ACCOUNT, PAM_AUTHENTICATE, PAM_AUTH_ERR, PAM_INCOMPLETE, PAM_NOT_STACKED,
    PAM_PERM_DENIED, PAM_SETCRED, PAM_SUCCESS,
};
use utpam::delay::utpam_await_decision;
use utpam::session::UtpamBoolean;
use utpam::dispatch::utpam_dispatch;
use utpam::session::{ConfigFile, UtpamHandle, UtpamModule};
use utpam::start::{utpam_end, utpam_start};

/// A scripted module: each invocation returns the next code of its script,
/// repeating the last one, and counts how often it ran.
pub struct FakeModule {
    pub script: Vec<u8>,
    pub at: usize,
    pub calls: usize,
}

impl UtpamModule for FakeModule {
    fn resolve(path: &String) -> Option<Self> {
        let stem = match path.rfind('/') {
            Some(p) => &path[p + 1..],
            None => path.as_str(),
        };
        let script: Vec<u8> = match stem {
            "succ" => vec![PAM_SUCCESS],
            "auth7" => vec![PAM_AUTH_ERR],
            "deny" => vec![PAM_PERM_DENIED],
            "ignore" => vec![25],
            "incomplete_then_ok" => vec![PAM_INCOMPLETE, PAM_SUCCESS],
            "ok_then_fail" => vec![PAM_SUCCESS, PAM_AUTH_ERR],
            _ => return None,
        };
        Some(FakeModule { script, at: 0, calls: 0 })
    }

    fn has_entry(&self, _op: u8) -> bool {
        true
    }

    fn invoke(&mut self, _op: u8, _flags: u32, _argv: &Vec<String>) -> u8 {
        let i = if self.at < self.script.len() {
            self.at
        } else {
            self.script.len() - 1
        };
        self.at += 1;
        self.calls += 1;
        self.script[i]
    }
}

type Handle = UtpamHandle<FakeModule, ()>;

fn source(files: &[(&str, &[&str])]) -> Vec<ConfigFile> {
    files
        .iter()
        .map(|(name, lines)| ConfigFile {
            name: name.to_string(),
            lines: lines.iter().map(|l| l.to_string()).collect(),
        })
        .collect()
}

fn session(lines: &[&str]) -> Box<Handle> {
    let mut h: Option<Box<Handle>> = None;
    let r = utpam_start("dummy".to_string(), None, source(&[("dummy", lines)]), &mut h);
    assert_eq!(r, PAM_SUCCESS);
    h.unwrap()
}

fn module_calls(h: &Handle, stem: &str) -> usize {
    for m in h.handlers.module.iter() {
        if m.name.ends_with(stem) {
            return m.binding.as_ref().map(|b| b.calls).unwrap_or(0);
        }
    }
    0
}

#[test]
fn test_two_required_entries_failure_wins() {
    // First required module succeeds, the second fails: the final status is
    // that failure.
    let mut h = session(&["auth required /succ", "auth required /auth7"]);
    let (r, _) = utpam_dispatch(&mut h, 0, PAM_AUTHENTICATE);
    assert_eq!(r, PAM_AUTH_ERR);
}

#[test]
fn test_single_optional_ignore_forces_generic_failure() {
    // The decision never turns positive, so a lingering success is forced to
    // the generic failure.
    let mut h = session(&["auth optional /ignore"]);
    let (r, _) = utpam_dispatch(&mut h, 0, PAM_AUTHENTICATE);
    assert_eq!(r, PAM_PERM_DENIED);
}

#[test]
fn test_sufficient_success_short_circuits() {
    // The sufficient entry terminates the walk: nothing after it runs.
    let mut h = session(&["auth sufficient /succ", "auth required /auth7"]);
    let (r, _) = utpam_dispatch(&mut h, 0, PAM_AUTHENTICATE);
    assert_eq!(r, PAM_SUCCESS);
    assert_eq!(module_calls(&h, "auth7"), 0);
    // The deciding entry is credited as grantor; the one that never ran is
    // not.
    assert!(h.handlers.conf.authenticate[0].grantor);
    assert!(!h.handlers.conf.authenticate[1].grantor);
}

#[test]
fn test_requisite_failure_stops_immediately() {
    let mut h = session(&["auth requisite /auth7", "auth required /succ"]);
    let (r, _) = utpam_dispatch(&mut h, 0, PAM_AUTHENTICATE);
    assert_eq!(r, PAM_AUTH_ERR);
    assert_eq!(module_calls(&h, "succ"), 0);
}

#[test]
fn test_resume_continues_at_checkpoint() {
    // The first call suspends at the second entry; the resuming call never
    // re-invokes the entry already executed.
    let mut h = session(&["auth required /succ", "auth required /incomplete_then_ok"]);
    let (r, _) = utpam_dispatch(&mut h, 0, PAM_AUTHENTICATE);
    assert_eq!(r, PAM_INCOMPLETE);
    assert_eq!(module_calls(&h, "succ"), 1);
    assert_eq!(h.former.choice, PAM_AUTHENTICATE);
    // The first entry's credit survives the suspension.
    assert!(h.handlers.conf.authenticate[0].grantor);
    let (r, _) = utpam_dispatch(&mut h, 0, PAM_AUTHENTICATE);
    assert_eq!(r, PAM_SUCCESS);
    assert_eq!(module_calls(&h, "succ"), 1);
    assert_eq!(module_calls(&h, "incomplete_then_ok"), 2);
    assert_eq!(h.former.choice, PAM_NOT_STACKED);
    assert!(h.handlers.conf.authenticate[0].grantor);
    assert!(h.handlers.conf.authenticate[1].grantor);
}

#[test]
fn test_resume_with_other_operation_aborts() {
    // Resuming with a different operation is refused and leaves the
    // checkpoint untouched.
    let mut h = session(&[
        "auth required /incomplete_then_ok",
        "account required /succ",
    ]);
    let (r, _) = utpam_dispatch(&mut h, 0, PAM_AUTHENTICATE);
    assert_eq!(r, PAM_INCOMPLETE);
    let depth_before = h.former.depth;
    let (r, _) = utpam_dispatch(&mut h, 0, PAM_ACCOUNT);
    assert_eq!(r, PAM_ABORT);
    assert_eq!(h.former.choice, PAM_AUTHENTICATE);
    assert_eq!(h.former.depth, depth_before);
    // The original operation still resumes cleanly.
    let (r, _) = utpam_dispatch(&mut h, 0, PAM_AUTHENTICATE);
    assert_eq!(r, PAM_SUCCESS);
}

#[test]
fn test_setcred_replays_frozen_decision() {
    // Authentication freezes each entry's result; the credential pass
    // replays those decisions through the shared cells.
    let mut h = session(&["auth required /succ"]);
    let (r, _) = utpam_dispatch(&mut h, 0, PAM_AUTHENTICATE);
    assert_eq!(r, PAM_SUCCESS);
    let (r, _) = utpam_dispatch(&mut h, 0, PAM_SETCRED);
    assert_eq!(r, PAM_SUCCESS);
}

#[test]
fn test_unknown_operation_class_hard_fails() {
    let mut h = session(&["frobnicate required /succ", "auth required /succ"]);
    let (r, _) = utpam_dispatch(&mut h, 0, PAM_AUTHENTICATE);
    // The malformed line became a hard-failing entry, so the chain ends
    // denied even though the real module succeeds.
    assert_eq!(r, PAM_PERM_DENIED);
}

#[test]
fn test_fallback_to_other_service() {
    let mut h: Option<Box<Handle>> = None;
    let r = utpam_start(
        "dummy".to_string(),
        None,
        source(&[("other", &["auth required /succ"])]),
        &mut h,
    );
    assert_eq!(r, PAM_SUCCESS);
    let mut h = h.unwrap();
    let (r, _) = utpam_dispatch(&mut h, 0, PAM_AUTHENTICATE);
    assert_eq!(r, PAM_SUCCESS);
}

#[test]
fn test_unresolvable_module_aborts_load() {
    let mut h: Option<Box<Handle>> = None;
    let r = utpam_start(
        "dummy".to_string(),
        None,
        source(&[("dummy", &["auth required /nosuchmodule"])]),
        &mut h,
    );
    assert_eq!(r, PAM_ABORT);
    assert!(h.is_none());
}

#[test]
fn test_utpam_end_scrubs_and_releases() {
    let mut h: Option<Box<Handle>> = None;
    let r = utpam_start(
        "dummy".to_string(),
        Some("root".to_string()),
        source(&[("dummy", &["auth required /succ"])]),
        &mut h,
    );
    assert_eq!(r, PAM_SUCCESS);
    let r = utpam_end(&mut h, PAM_SUCCESS);
    assert_eq!(r, PAM_SUCCESS);
    assert!(h.is_none());
}

#[test]
fn test_utpam_authenticate_scrubs_tokens() {
    let mut h = session(&["auth required /succ"]);
    h.authtok = "secret".to_string();
    let (r, _) = utpam::ops::utpam_authenticate(&mut h, 0, 12345);
    assert_eq!(r, PAM_SUCCESS);
    assert!(h.authtok.is_empty());
    assert_eq!(h.fail_delay.begin_usec, 12345);
}

#[test]
fn test_utpam_acct_mgmt_runs_account_chain() {
    let mut h = session(&["account required /auth7", "auth required /succ"]);
    let (r, _) = utpam::ops::utpam_acct_mgmt(&mut h, 0);
    assert_eq!(r, PAM_AUTH_ERR);
}

#[test]
fn test_utpam_sessions_open_close() {
    let mut h = session(&["session required /succ"]);
    let (r, _) = utpam::ops::utpam_open_session(&mut h, 0);
    assert_eq!(r, PAM_SUCCESS);
    let (r, _) = utpam::ops::utpam_close_session(&mut h, 0);
    assert_eq!(r, PAM_SUCCESS);
}

#[test]
fn test_utpam_chauthtok_prelim_pass() {
    let mut h = session(&["password required /succ"]);
    let r = utpam::ops::utpam_chauthtok(&mut h, 0, 7);
    assert_eq!(r, PAM_SUCCESS);
}

#[test]
fn test_utpam_chauthtok_rejects_phase_flags() {
    let mut h = session(&["password required /succ"]);
    let r = utpam::ops::utpam_chauthtok(&mut h, utpam::codes::PAM_PRELIM_CHECK, 7);
    assert_eq!(r, utpam::codes::PAM_SYSTEM_ERR);
}


#[test]
fn test_fresh_dispatch_clears_grantors() {
    // The first walk credits the entry; a fresh second walk that fails
    // starts from a clean slate and leaves it uncredited.
    let mut h = session(&["auth required /ok_then_fail"]);
    let (r, _) = utpam_dispatch(&mut h, 0, PAM_AUTHENTICATE);
    assert_eq!(r, PAM_SUCCESS);
    assert!(h.handlers.conf.authenticate[0].grantor);
    let (r, _) = utpam_dispatch(&mut h, 0, PAM_AUTHENTICATE);
    assert_eq!(r, PAM_AUTH_ERR);
    assert!(!h.handlers.conf.authenticate[0].grantor);
}

#[test]
fn test_benign_config_always_starts() {
    // A config whose lines never consult the loader cannot fail to load:
    // the malformed control word becomes a hard-failing entry.
    let mut h: Option<Box<Handle>> = None;
    let r = utpam_start(
        "dummy".to_string(),
        None,
        source(&[("dummy", &["auth bogusword [broken control"])]),
        &mut h,
    );
    assert_eq!(r, PAM_SUCCESS);
    let mut h = h.unwrap();
    let (r, _) = utpam_dispatch(&mut h, 0, PAM_AUTHENTICATE);
    assert_eq!(r, PAM_PERM_DENIED);
}

#[test]
fn test_await_decision() {
    let mut d = utpam::delay::UtpamFailDelay::new();
    d.utpam_set_delay(100);
    assert_eq!(utpam_await_decision(&d, PAM_AUTH_ERR, 77), Some(77));
    // Success never sleeps, an unset timer never sleeps, a zero delay
    // never sleeps.
    assert_eq!(utpam_await_decision(&d, PAM_SUCCESS, 77), None);
    assert_eq!(utpam_await_decision(&d, PAM_AUTH_ERR, 0), None);
    d.utpam_reset_timer();
    assert_eq!(utpam_await_decision(&d, PAM_AUTH_ERR, 77), None);
    assert!(matches!(d.set, UtpamBoolean::UtpamFalse));
}
