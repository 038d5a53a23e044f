//! Numeric return codes, control actions and related constants shared by the
//! whole crate.

use vstd::prelude::*;

verus! {

// Return codes handed back by modules and by the library itself.
pub const PAM_SUCCESS: u8 = 0;
pub const PAM_OPEN_ERR: u8 = 1;
pub const PAM_SYMBOL_ERR: u8 = 2;
pub const PAM_SERVICE_ERR: u8 = 3;
pub const PAM_SYSTEM_ERR: u8 = 4;
pub const PAM_BUF_ERR: u8 = 5;
pub const PAM_PERM_DENIED: u8 = 6;
pub const PAM_AUTH_ERR: u8 = 7;
pub const PAM_CRED_INSUFFICIENT: u8 = 8;
pub const PAM_AUTHINFO_UNAVAIL: u8 = 9;
pub const PAM_USER_UNKNOWN: u8 = 10;
pub const PAM_MAXTRIES: u8 = 11;
pub const PAM_NEW_AUTHTOK_REQD: u8 = 12;
pub const PAM_ACCT_EXPIRED: u8 = 13;
pub const PAM_SESSION_ERR: u8 = 14;
pub const PAM_CRED_UNAVAIL: u8 = 15;
pub const PAM_CRED_EXPIRED: u8 = 16;
pub const PAM_CRED_ERR: u8 = 17;
pub const PAM_NO_MODULE_DATA: u8 = 18;
pub const PAM_CONV_ERR: u8 = 19;
pub const PAM_AUTHTOK_ERR: u8 = 20;
pub const PAM_AUTHTOK_RECOVERY_ERR: u8 = 21;
pub const PAM_AUTHTOK_LOCK_BUSY: u8 = 22;
pub const PAM_AUTHTOK_DISABLE_AGING: u8 = 23;
pub const PAM_TRY_AGAIN: u8 = 24;
pub const PAM_IGNORE: u8 = 25;
pub const PAM_ABORT: u8 = 26;
pub const PAM_AUTHTOK_EXPIRED: u8 = 27;
pub const PAM_MODULE_UNKNOWN: u8 = 28;
pub const PAM_BAD_ITEM: u8 = 29;
pub const PAM_CONV_AGAIN: u8 = 30;
pub const PAM_INCOMPLETE: u8 = 31;

/// Number of distinct return codes; also the size of an action table.
pub const PAM_RETURN_VALUES: usize = 32;

// Control actions stored in an action table.  Non-negative values other than
// `PAM_ACTION_IGNORE` are forward-jump distances.
pub const PAM_ACTION_IGNORE: i32 = 0;
pub const PAM_ACTION_OK: i32 = -1;
pub const PAM_ACTION_DONE: i32 = -2;
pub const PAM_ACTION_BAD: i32 = -3;
pub const PAM_ACTION_DIE: i32 = -4;
pub const PAM_ACTION_RESET: i32 = -5;
pub const PAM_ACTION_UNDEF: i32 = -6;

// Who is currently driving the session.
pub const PAM_CALLED_FROM_MODULE: u8 = 1;
pub const PAM_CALLED_FROM_APP: u8 = 2;

// Operation tags selecting one of the six handler chains.
pub const PAM_NOT_STACKED: u8 = 0;
pub const PAM_AUTHENTICATE: u8 = 1;
pub const PAM_SETCRED: u8 = 2;
pub const PAM_ACCOUNT: u8 = 3;
pub const PAM_OPEN_SESSION: u8 = 4;
pub const PAM_CLOSE_SESSION: u8 = 5;
pub const PAM_CHAUTHTOK: u8 = 6;

// Kinds of handler entry.
pub const PAM_HT_MODULE: u8 = 0;
pub const PAM_HT_MUST_FAIL: u8 = 1;
pub const PAM_HT_SUBSTACK: u8 = 2;
pub const PAM_HT_SILENT_MODULE: u8 = 3;

/// Deepest allowed `include`/`substack` nesting when loading configuration.
pub const PAM_SUBSTACK_MAX_LEVEL: i32 = 16;

/// One more than the deepest nesting level: the size of the per-level
/// snapshot array used by the `reset` action.
pub const PAM_SUBSTACK_LEVELS: usize = 17;

/// Marker stored in a result cell that has not been frozen yet.
pub const PAM_INVALID_RETVAL: i16 = -1;

/// The generic failure forced when a chain cannot produce a positive decision.
pub const PAM_MUST_FAIL_CODE: u8 = PAM_PERM_DENIED;

// Running decision classification of a dispatch walk.
pub const PAM_UNDEF: i32 = 0;
pub const PAM_POSITIVE: i32 = 1;
pub const PAM_NEGATIVE: i32 = -1;

// How a dispatch walk treats the per-entry result cells.
pub const PAM_PLEASE_FREEZE: i32 = 0;
pub const PAM_MAY_BE_FROZEN: i32 = 1;

// Item tags for the session attributes.
pub const PAM_SERVICE: i8 = 1;
pub const PAM_USER: i8 = 2;
pub const PAM_TTY: i8 = 3;
pub const PAM_RHOST: i8 = 4;
pub const PAM_CONV: i8 = 5;
pub const PAM_AUTHTOK: i8 = 6;
pub const PAM_OLDAUTHTOK: i8 = 7;
pub const PAM_RUSER: i8 = 8;
pub const PAM_USER_PROMPT: i8 = 9;
pub const PAM_FAIL_DELAY: i8 = 10;
pub const PAM_XDISPLAY: i8 = 11;
pub const PAM_XAUTHDATA: i8 = 12;
pub const PAM_AUTHTOK_TYPE: i8 = 13;

// Flag bits.
pub const PAM_ESTABLISH_CRED: u32 = 0x0002;
pub const PAM_PRELIM_CHECK: u32 = 0x4000;
pub const PAM_UPDATE_AUTHTOK: u32 = 0x2000;
pub const PAM_SILENT: u32 = 0x8000;

/// The fallback service name used when the named service has no entry.
pub const UTPAM_DEFAULT_SERVICE: &'static str = "other";

} // verus!
