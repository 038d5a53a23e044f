//! Configuration parsing: include nesting, substacks, continuation lines.

use utpam::codes::{
    PAM_ABORT, PAM_AUTHENTICATE, PAM_AUTH_ERR, PAM_PERM_DENIED, PAM_SUCCESS,
};
use utpam::dispatch::utpam_dispatch;
use utpam::line::{utpam_line_assemble, UtpamLineBuffer};
use utpam::session::{ConfigFile, UtpamHandle, UtpamModule};
use utpam::start::utpam_start;

pub struct FakeModule {
    pub script: Vec<u8>,
    pub at: usize,
}

impl UtpamModule for FakeModule {
    fn resolve(path: &String) -> Option<Self> {
        let stem = match path.rfind('/') {
            Some(p) => &path[p + 1..],
            None => path.as_str(),
        };
        let script: Vec<u8> = match stem {
            "succ" => vec![PAM_SUCCESS],
            "auth7" => vec![PAM_AUTH_ERR],
            _ => return None,
        };
        Some(FakeModule { script, at: 0 })
    }

    fn has_entry(&self, _op: u8) -> bool {
        true
    }

    fn invoke(&mut self, _op: u8, _flags: u32, _argv: &Vec<String>) -> u8 {
        let i = if self.at < self.script.len() {
            self.at
        } else {
            self.script.len() - 1
        };
        self.at += 1;
        self.script[i]
    }
}

type Handle = UtpamHandle<FakeModule, ()>;

/// A source with `depth` nested includes below the service file; the
/// innermost file holds one real entry.
fn nested_source(depth: usize) -> Vec<ConfigFile> {
    let mut files = Vec::new();
    files.push(ConfigFile {
        name: "dummy".to_string(),
        lines: vec![format!("auth include f1")],
    });
    for i in 1..depth {
        files.push(ConfigFile {
            name: format!("f{}", i),
            lines: vec![format!("auth include f{}", i + 1)],
        });
    }
    files.push(ConfigFile {
        name: format!("f{}", depth),
        lines: vec!["auth required /succ".to_string()],
    });
    files
}

#[test]
fn test_include_nesting_sixteen_succeeds() {
    let mut h: Option<Box<Handle>> = None;
    let r = utpam_start("dummy".to_string(), None, nested_source(16), &mut h);
    assert_eq!(r, PAM_SUCCESS);
    let mut h = h.unwrap();
    let (r, _) = utpam_dispatch(&mut h, 0, PAM_AUTHENTICATE);
    assert_eq!(r, PAM_SUCCESS);
}

#[test]
fn test_include_nesting_seventeen_aborts() {
    let mut h: Option<Box<Handle>> = None;
    let r = utpam_start("dummy".to_string(), None, nested_source(17), &mut h);
    assert_eq!(r, PAM_ABORT);
    assert!(h.is_none());
}

#[test]
fn test_missing_include_target_becomes_must_fail() {
    let mut h: Option<Box<Handle>> = None;
    let r = utpam_start(
        "dummy".to_string(),
        None,
        vec![ConfigFile {
            name: "dummy".to_string(),
            lines: vec![
                "auth include nowhere".to_string(),
                "auth required /succ".to_string(),
            ],
        }],
        &mut h,
    );
    assert_eq!(r, PAM_SUCCESS);
    let mut h = h.unwrap();
    let (r, _) = utpam_dispatch(&mut h, 0, PAM_AUTHENTICATE);
    assert_eq!(r, PAM_PERM_DENIED);
}

#[test]
fn test_substack_reset_isolates_inner_failure() {
    // The substack marker snapshots the decision; entries inside run at a
    // deeper nesting level.
    let mut h: Option<Box<Handle>> = None;
    let r = utpam_start(
        "dummy".to_string(),
        None,
        vec![
            ConfigFile {
                name: "dummy".to_string(),
                lines: vec![
                    "auth required /succ".to_string(),
                    "auth substack inner".to_string(),
                ],
            },
            ConfigFile {
                name: "inner".to_string(),
                lines: vec!["auth required /succ".to_string()],
            },
        ],
        &mut h,
    );
    assert_eq!(r, PAM_SUCCESS);
    let mut h = h.unwrap();
    let (r, _) = utpam_dispatch(&mut h, 0, PAM_AUTHENTICATE);
    assert_eq!(r, PAM_SUCCESS);
}

#[test]
fn test_flat_file_with_service_column() {
    // With no per-service file the flat file is used; its lines carry the
    // service name.
    let mut h: Option<Box<Handle>> = None;
    let r = utpam_start(
        "dummy".to_string(),
        None,
        vec![ConfigFile {
            name: "utpam.conf".to_string(),
            lines: vec![
                "dummy auth required /succ".to_string(),
                "elsewhere auth required /auth7".to_string(),
            ],
        }],
        &mut h,
    );
    assert_eq!(r, PAM_SUCCESS);
    let mut h = h.unwrap();
    let (r, _) = utpam_dispatch(&mut h, 0, PAM_AUTHENTICATE);
    assert_eq!(r, PAM_SUCCESS);
}

#[test]
fn test_line_assemble_joins_continuations() {
    let lines = vec![
        "# leading comment".to_string(),
        "".to_string(),
        "auth required\\".to_string(),
        "/succ arg1".to_string(),
        "account required /succ".to_string(),
    ];
    let mut idx = 0usize;
    let mut buf = UtpamLineBuffer::new();
    let r = utpam_line_assemble(&lines, &mut idx, &mut buf);
    assert_eq!(r, 1);
    assert_eq!(buf.assembled, "auth required /succ arg1");
    let r = utpam_line_assemble(&lines, &mut idx, &mut buf);
    assert_eq!(r, 1);
    assert_eq!(buf.assembled, "account required /succ");
    let r = utpam_line_assemble(&lines, &mut idx, &mut buf);
    assert_eq!(r, 0);
}
