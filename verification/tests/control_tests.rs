//! Action-table builder behavior.

use utpam::codes::{
    PAM_ACTION_BAD, PAM_ACTION_DIE, PAM_ACTION_DONE, PAM_ACTION_IGNORE, PAM_ACTION_OK,
    PAM_ACTION_UNDEF, PAM_IGNORE, PAM_NEW_AUTHTOK_REQD, PAM_RETURN_VALUES, PAM_SUCCESS,
};
use utpam::control::{utpam_build_control, utpam_parse_control, utpam_set_default_control};

#[test]
fn test_required_table_shape() {
    let (t, err) = utpam_build_control("required");
    assert!(!err);
    assert_eq!(t.len(), PAM_RETURN_VALUES);
    for i in 0..PAM_RETURN_VALUES {
        if i == PAM_SUCCESS as usize || i == PAM_NEW_AUTHTOK_REQD as usize {
            assert_eq!(t[i], PAM_ACTION_OK);
        } else if i == PAM_IGNORE as usize {
            assert_eq!(t[i], PAM_ACTION_IGNORE);
        } else {
            assert_eq!(t[i], PAM_ACTION_BAD);
        }
    }
}

#[test]
fn test_requisite_and_optional_and_sufficient_tables() {
    let (t, err) = utpam_build_control("requisite");
    assert!(!err);
    assert_eq!(t[PAM_SUCCESS as usize], PAM_ACTION_OK);
    assert_eq!(t[3], PAM_ACTION_DIE);

    let (t, err) = utpam_build_control("optional");
    assert!(!err);
    assert_eq!(t[PAM_SUCCESS as usize], PAM_ACTION_OK);
    assert_eq!(t[3], PAM_ACTION_IGNORE);

    let (t, err) = utpam_build_control("SUFFICIENT");
    assert!(!err);
    assert_eq!(t[PAM_SUCCESS as usize], PAM_ACTION_DONE);
    assert_eq!(t[PAM_NEW_AUTHTOK_REQD as usize], PAM_ACTION_DONE);
    assert_eq!(t[3], PAM_ACTION_IGNORE);
}

#[test]
fn test_explicit_list_round_trip() {
    // Building from the explicit list and looking the slots up again.
    let (t, err) = utpam_build_control("success=ok new_authtok_reqd=ok default=bad");
    assert!(!err);
    for i in 0..PAM_RETURN_VALUES {
        if i == PAM_SUCCESS as usize || i == PAM_NEW_AUTHTOK_REQD as usize {
            assert_eq!(t[i], PAM_ACTION_OK);
        } else {
            assert_eq!(t[i], PAM_ACTION_BAD);
        }
    }
}

#[test]
fn test_explicit_jump_distance() {
    let mut t = vec![PAM_ACTION_UNDEF; PAM_RETURN_VALUES];
    let ok = utpam_parse_control(&mut t, "success=2 ignore=ignore");
    assert!(ok);
    assert_eq!(t[PAM_SUCCESS as usize], 2);
    assert_eq!(t[PAM_IGNORE as usize], PAM_ACTION_IGNORE);
    assert_eq!(t[1], PAM_ACTION_UNDEF);
}

#[test]
fn test_zero_jump_is_malformed() {
    let mut t = vec![PAM_ACTION_UNDEF; PAM_RETURN_VALUES];
    let ok = utpam_parse_control(&mut t, "success=0");
    assert!(!ok);
    for i in 0..PAM_RETURN_VALUES {
        assert_eq!(t[i], PAM_ACTION_BAD);
    }
}

#[test]
fn test_missing_equals_is_malformed() {
    let mut t = vec![PAM_ACTION_UNDEF; PAM_RETURN_VALUES];
    let ok = utpam_parse_control(&mut t, "success ok");
    assert!(!ok);
    for i in 0..PAM_RETURN_VALUES {
        assert_eq!(t[i], PAM_ACTION_BAD);
    }
}

#[test]
fn test_unknown_return_name_is_malformed() {
    let mut t = vec![PAM_ACTION_UNDEF; PAM_RETURN_VALUES];
    let ok = utpam_parse_control(&mut t, "nonsense=ok");
    assert!(!ok);
    for i in 0..PAM_RETURN_VALUES {
        assert_eq!(t[i], PAM_ACTION_BAD);
    }
}

#[test]
fn test_set_default_control_fills_only_undefined() {
    let mut t = vec![PAM_ACTION_UNDEF; PAM_RETURN_VALUES];
    t[0] = PAM_ACTION_OK;
    utpam_set_default_control(&mut t, PAM_ACTION_DIE);
    assert_eq!(t[0], PAM_ACTION_OK);
    for i in 1..PAM_RETURN_VALUES {
        assert_eq!(t[i], PAM_ACTION_DIE);
    }
}
