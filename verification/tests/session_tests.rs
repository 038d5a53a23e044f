//! Fail delay, environment list, keyed data and small helpers.

use utpam::codes::{
    PAM_AUTHTOK, PAM_BAD_ITEM, PAM_CALLED_FROM_APP, PAM_CALLED_FROM_MODULE, PAM_CONV,
    PAM_FAIL_DELAY, PAM_PERM_DENIED, PAM_RHOST, PAM_SERVICE, PAM_SUCCESS, PAM_TTY, PAM_USER,
    PAM_XAUTHDATA,
};
use utpam::items::{utpam_get_item, utpam_set_item};
use utpam::data::{utpam_get_data, utpam_locate_data, utpam_set_data};
use utpam::delay::UtpamFailDelay;
use utpam::env::{utpam_getenv, utpam_getenvlist, utpam_make_env, utpam_misc_paste_env,
    utpam_misc_setenv, utpam_putenv};
use utpam::modutil::utpam_modutil_check_user_in_passwd;
use utpam::session::{ConfigFile, UtpamHandle, UtpamModule};
use utpam::strerror::pam_strerror;
use utpam::strutil::{extract_modulename, parse_str};

pub struct NoModule;

impl UtpamModule for NoModule {
    fn resolve(_path: &String) -> Option<Self> {
        None
    }

    fn has_entry(&self, _op: u8) -> bool {
        false
    }

    fn invoke(&mut self, _op: u8, _flags: u32, _argv: &Vec<String>) -> u8 {
        PAM_PERM_DENIED
    }
}

type Handle = UtpamHandle<NoModule, u64>;

fn handle() -> Handle {
    UtpamHandle::new("dummy".to_string(), None, Some("root".to_string()), Vec::<ConfigFile>::new())
}

#[test]
fn test_compute_delay() {
    let fail_delay = UtpamFailDelay::new();
    let (delay, _) = fail_delay.utpam_compute_delay(10, 100);
    assert!(delay >= 50 && delay <= 150);
    // The computation reads nothing but its arguments: equal inputs give
    // equal delays.
    assert_eq!(delay, fail_delay.utpam_compute_delay(10, 100).0);
}

#[test]
fn test_set_delay_keeps_maximum() {
    let mut d = UtpamFailDelay::new();
    d.utpam_set_delay(500);
    d.utpam_set_delay(200);
    assert_eq!(d.delay, 500);
    d.utpam_set_delay(900);
    assert_eq!(d.delay, 900);
    d.utpam_reset_timer();
    d.utpam_set_delay(10);
    // A fresh operation starts counting from zero again.
    assert_eq!(d.delay, 10);
}

#[test]
fn test_env_set_get_delete() {
    let mut env = None;
    assert_eq!(utpam_make_env(&mut env), PAM_SUCCESS);
    assert_eq!(utpam_putenv(&mut env, "HOME=/root"), PAM_SUCCESS);
    assert_eq!(utpam_putenv(&mut env, "TERM=dumb"), PAM_SUCCESS);
    assert_eq!(utpam_getenv(&env, "HOME").as_deref(), Some("/root"));
    assert_eq!(utpam_putenv(&mut env, "HOME=/home/x"), PAM_SUCCESS);
    assert_eq!(utpam_getenv(&env, "HOME").as_deref(), Some("/home/x"));
    assert_eq!(utpam_putenv(&mut env, "HOME"), PAM_SUCCESS);
    assert_eq!(utpam_getenv(&env, "HOME"), None);
    assert_eq!(utpam_putenv(&mut env, "HOME"), PAM_BAD_ITEM);
    assert_eq!(utpam_putenv(&mut env, "=bad"), PAM_BAD_ITEM);
    let l = utpam_getenvlist(&mut env).unwrap();
    assert_eq!(l, vec!["TERM=dumb".to_string()]);
    assert!(env.is_none());
}

#[test]
fn test_keyed_data_roundtrip() {
    let mut h = handle();
    h.caller_is = PAM_CALLED_FROM_MODULE;
    assert_eq!(utpam_set_data(&mut h, "counter", 41u64), (PAM_SUCCESS, None));
    // Replacing hands the displaced value back for cleanup.
    assert_eq!(utpam_set_data(&mut h, "counter", 42u64), (PAM_SUCCESS, Some(41u64)));
    assert_eq!(utpam_get_data(&h, "counter"), Ok(&42u64));
    assert!(utpam_locate_data(&h, "absent").is_none());
}

#[test]
fn test_check_user_in_passwd_lines() {
    let lines = vec![
        "root:x:0:0:root:/root:/bin/bash".to_string(),
        "daemon:x:1:1::/usr/sbin:/usr/sbin/nologin".to_string(),
    ];
    assert_eq!(utpam_modutil_check_user_in_passwd("root", &lines), PAM_SUCCESS);
    assert_eq!(utpam_modutil_check_user_in_passwd("roo", &lines), PAM_PERM_DENIED);
    assert_eq!(utpam_modutil_check_user_in_passwd("nobody", &lines), PAM_PERM_DENIED);
    assert_eq!(utpam_modutil_check_user_in_passwd("a:b", &lines), PAM_PERM_DENIED);
}

#[test]
fn test_parse_str_and_modulename() {
    assert_eq!(parse_str("/usr/sbin/SSHD".to_string()), "sshd");
    assert_eq!(parse_str("Login".to_string()), "login");
    assert_eq!(extract_modulename("/lib/security/pam_unix.so"), Some("pam_unix".to_string()));
    // Trailing slashes are ignored, as a file-name lookup ignores them.
    assert_eq!(extract_modulename("dir/"), Some("dir".to_string()));
    assert_eq!(extract_modulename("/"), None);
    // An all-blank reference names nothing.
    assert_eq!(extract_modulename("  "), None);
    assert_eq!(extract_modulename("?"), None);
}

#[test]
fn test_strerror_names() {
    assert_eq!(pam_strerror(PAM_SUCCESS), "Success");
    assert_eq!(pam_strerror(PAM_PERM_DENIED), "Permission denied");
    assert_eq!(pam_strerror(250), "Unknown PAM error");
}

#[test]
fn test_xauth_clear() {
    let mut h = handle();
    h.xauth.namelen = 4;
    h.xauth.name = Some("MIT".to_string());
    h.xauth.data = vec!["cookie".to_string()];
    h.xauth.clear();
    assert_eq!(h.xauth.namelen, 0);
    assert!(h.xauth.name.is_none());
    assert!(h.xauth.data.is_empty());
}

#[test]
fn test_set_and_get_items() {
    let mut h = handle();
    assert_eq!(utpam_set_item(&mut h, PAM_TTY, Some("tty7")), PAM_SUCCESS);
    assert_eq!(utpam_get_item(&h, PAM_TTY), Ok(Some("tty7".to_string())));
    assert_eq!(utpam_set_item(&mut h, PAM_RHOST, Some("example.net")), PAM_SUCCESS);
    assert_eq!(utpam_get_item(&h, PAM_RHOST), Ok(Some("example.net".to_string())));
    assert_eq!(utpam_set_item(&mut h, PAM_USER, None), PAM_SUCCESS);
    assert_eq!(utpam_get_item(&h, PAM_USER), Ok(Some(String::new())));
    // Changing the service lowers the name and forces a policy reload.
    assert_eq!(utpam_set_item(&mut h, PAM_SERVICE, Some("SSHD")), PAM_SUCCESS);
    assert_eq!(h.service_name, "sshd");
    assert!(!h.handlers.handlers_loaded);
}

#[test]
fn test_authtok_item_is_module_only() {
    let mut h = handle();
    h.caller_is = PAM_CALLED_FROM_APP;
    assert_eq!(utpam_set_item(&mut h, PAM_AUTHTOK, Some("pw")), PAM_BAD_ITEM);
    assert_eq!(utpam_get_item(&h, PAM_AUTHTOK), Err(PAM_BAD_ITEM));
    h.caller_is = PAM_CALLED_FROM_MODULE;
    assert_eq!(utpam_set_item(&mut h, PAM_AUTHTOK, Some("pw")), PAM_SUCCESS);
    assert_eq!(utpam_get_item(&h, PAM_AUTHTOK), Ok(Some("pw".to_string())));
}

#[test]
fn test_capability_items_are_refused() {
    let mut h = handle();
    assert_eq!(utpam_set_item(&mut h, PAM_CONV, Some("x")), PAM_BAD_ITEM);
    assert_eq!(utpam_set_item(&mut h, PAM_FAIL_DELAY, None), PAM_BAD_ITEM);
    assert_eq!(utpam_get_item(&h, PAM_XAUTHDATA), Err(PAM_BAD_ITEM));
    assert_eq!(utpam_get_item(&h, 99), Err(PAM_BAD_ITEM));
}

#[test]
fn test_misc_setenv_respects_readonly() {
    let mut env = None;
    assert_eq!(utpam_make_env(&mut env), PAM_SUCCESS);
    assert_eq!(utpam_misc_setenv(&mut env, "LANG", "C", false), PAM_SUCCESS);
    assert_eq!(utpam_getenv(&env, "LANG").as_deref(), Some("C"));
    assert_eq!(utpam_misc_setenv(&mut env, "LANG", "POSIX", true), utpam::codes::PAM_PERM_DENIED);
    assert_eq!(utpam_getenv(&env, "LANG").as_deref(), Some("C"));
    let batch = vec!["A=1".to_string(), "B=2".to_string()];
    assert_eq!(utpam_misc_paste_env(&mut env, &batch), PAM_SUCCESS);
    assert_eq!(utpam_getenv(&env, "B").as_deref(), Some("2"));
}
