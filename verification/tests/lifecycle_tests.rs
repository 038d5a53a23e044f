//! Session lifecycle and entry-point behavior on sessions whose chains do
//! not carry the requested operation.

use utpam::codes::{
    PAM_CALLED_FROM_MODULE, PAM_NO_MODULE_DATA, PAM_SUCCESS,
};
use utpam::data::{utpam_get_data, utpam_set_data};
use utpam::delay::utpam_fail_delay;
use utpam::items::{utpam_get_item, utpam_set_item};
use utpam::session::{ConfigFile, UtpamHandle, UtpamModule};
use utpam::start::{utpam_end, utpam_start};

pub struct FakeModule;

impl UtpamModule for FakeModule {
    fn resolve(path: &String) -> Option<Self> {
        if path.ends_with("/succ") {
            Some(FakeModule)
        } else {
            None
        }
    }

    fn has_entry(&self, _op: u8) -> bool {
        true
    }

    fn invoke(&mut self, _op: u8, _flags: u32, _argv: &Vec<String>) -> u8 {
        PAM_SUCCESS
    }
}

type Handle = UtpamHandle<FakeModule, String>;

fn auth_only_session() -> Box<Handle> {
    let mut h: Option<Box<Handle>> = None;
    let r = utpam_start(
        "dummy".to_string(),
        Some("root".to_string()),
        vec![ConfigFile {
            name: "dummy".to_string(),
            lines: vec!["auth required /succ".to_string()],
        }],
        &mut h,
    );
    assert_eq!(r, PAM_SUCCESS);
    h.unwrap()
}

fn make_source() -> Vec<ConfigFile> {
    vec![ConfigFile {
        name: "dummy".to_string(),
        lines: vec!["auth required /succ".to_string()],
    }]
}

#[test]
fn test_utpam_start() {
    let service = "dummy".to_string();
    let user = "root".to_string();
    let mut utpamh: Option<Box<Handle>> = None;

    // 1: valid arguments.
    let mut retval = utpam_start(service.clone(), Some(user.clone()), make_source(), &mut utpamh);
    assert_eq!(retval, PAM_SUCCESS);
    assert!(utpamh.is_some());
    utpam_end(&mut utpamh, retval);

    // 2: an empty service name is refused.
    retval = utpam_start(String::default(), Some(user.clone()), make_source(), &mut utpamh);
    assert_ne!(retval, PAM_SUCCESS);

    // 3: no user is fine.
    retval = utpam_start(service.clone(), None, make_source(), &mut utpamh);
    assert_eq!(retval, PAM_SUCCESS);
    utpam_end(&mut utpamh, retval);
}

#[test]
fn test_utpam_end() {
    let mut utpamh: Option<Box<Handle>> = Some(auth_only_session());
    let retval = utpam_end(&mut utpamh, 0);
    assert_eq!(retval, PAM_SUCCESS);
    assert!(utpamh.is_none());
}

#[test]
fn test_utpam_fail_delay() {
    let mut utpam = auth_only_session();
    let retval = utpam_fail_delay(&mut utpam, 60);
    assert_eq!(retval, PAM_SUCCESS);
    assert_eq!(utpam.fail_delay.delay, 60);
}

#[test]
fn test_utpam_acct_mgmt() {
    // No account chain exists anywhere: the operation cannot succeed.
    let mut h = auth_only_session();
    let (retval, _) = utpam::ops::utpam_acct_mgmt(&mut h, 0);
    assert_ne!(retval, PAM_SUCCESS);
}

#[test]
fn test_utpam_authenticate() {
    let mut h = auth_only_session();
    let (retval, _) = utpam::ops::utpam_authenticate(&mut h, 0, 0);
    assert_eq!(retval, PAM_SUCCESS);
}

#[test]
fn test_utpam_setcred() {
    // Nothing was frozen for the credential pass on an empty walk history,
    // and replaying reports the inconsistency.
    let mut h = auth_only_session();
    let (retval, _) = utpam::ops::utpam_setcred(&mut h, 0);
    assert_ne!(retval, PAM_SUCCESS);
}

#[test]
fn test_utpam_open_session() {
    let mut h = auth_only_session();
    let (retval, _) = utpam::ops::utpam_open_session(&mut h, 0);
    assert_ne!(retval, PAM_SUCCESS);
}

#[test]
fn test_utpam_chauthtok() {
    let mut h = auth_only_session();
    let retval = utpam::ops::utpam_chauthtok(&mut h, 0, 0);
    assert_ne!(retval, PAM_SUCCESS);
}

#[test]
fn test_utpam_get_data() {
    let mut h = auth_only_session();
    h.caller_is = PAM_CALLED_FROM_MODULE;
    assert_eq!(
        utpam_set_data(&mut h, "tst-utpam_get_data-1", "value-1".to_string()),
        (PAM_SUCCESS, None)
    );
    assert_eq!(
        utpam_get_data(&h, "tst-utpam_get_data-1"),
        Ok(&"value-1".to_string())
    );
    assert_eq!(
        utpam_get_data(&h, "tst-utpam_get_data-2"),
        Err(PAM_NO_MODULE_DATA)
    );
}

#[test]
fn test_utpam_get_item() {
    let h = auth_only_session();
    assert_eq!(
        utpam_get_item(&h, utpam::codes::PAM_SERVICE),
        Ok(Some("dummy".to_string()))
    );
    assert_eq!(
        utpam_get_item(&h, utpam::codes::PAM_USER),
        Ok(Some("root".to_string()))
    );
    assert_eq!(utpam_get_item(&h, utpam::codes::PAM_TTY), Ok(Some(String::new())));
}

#[test]
fn test_utpam_set_item() {
    let mut h = auth_only_session();
    assert_eq!(
        utpam_set_item(&mut h, utpam::codes::PAM_USER, Some("somebody")),
        PAM_SUCCESS
    );
    assert_eq!(
        utpam_get_item(&h, utpam::codes::PAM_USER),
        Ok(Some("somebody".to_string()))
    );
    assert_eq!(
        utpam_set_item(&mut h, utpam::codes::PAM_XDISPLAY, Some(":0")),
        PAM_SUCCESS
    );
    assert_eq!(
        utpam_get_item(&h, utpam::codes::PAM_XDISPLAY),
        Ok(Some(":0".to_string()))
    );
}
