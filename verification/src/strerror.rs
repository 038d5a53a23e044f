//! Human-readable names for the return codes.

use vstd::prelude::*;
use crate::codes::{
    PAM_ABORT, PAM_ACCT_EXPIRED, PAM_AUTHINFO_UNAVAIL, PAM_AUTHTOK_DISABLE_AGING, PAM_AUTHTOK_ERR,
    PAM_AUTHTOK_EXPIRED, PAM_AUTHTOK_LOCK_BUSY, PAM_AUTHTOK_RECOVERY_ERR, PAM_AUTH_ERR,
    PAM_BAD_ITEM, PAM_BUF_ERR, PAM_CONV_AGAIN, PAM_CONV_ERR, PAM_CRED_ERR, PAM_CRED_EXPIRED,
    PAM_CRED_INSUFFICIENT, PAM_CRED_UNAVAIL, PAM_IGNORE, PAM_INCOMPLETE, PAM_MAXTRIES,
    PAM_MODULE_UNKNOWN, PAM_NEW_AUTHTOK_REQD, PAM_NO_MODULE_DATA, PAM_OPEN_ERR, PAM_PERM_DENIED,
    PAM_SERVICE_ERR, PAM_SESSION_ERR, PAM_SUCCESS, PAM_SYMBOL_ERR, PAM_SYSTEM_ERR, PAM_TRY_AGAIN,
    PAM_USER_UNKNOWN,
};

verus! {

/// The description of each return code.
pub open spec fn spec_strerror(errnum: u8) -> Seq<char> {
    if errnum == PAM_SUCCESS {
        "Success"@
    } else if errnum == PAM_ABORT {
        "Critical error - immediate abort"@
    } else if errnum == PAM_OPEN_ERR {
        "Failed to load module"@
    } else if errnum == PAM_SYMBOL_ERR {
        "Symbol not found"@
    } else if errnum == PAM_SERVICE_ERR {
        "Error in service module"@
    } else if errnum == PAM_SYSTEM_ERR {
        "System error"@
    } else if errnum == PAM_BUF_ERR {
        "Memory buffer error"@
    } else if errnum == PAM_PERM_DENIED {
        "Permission denied"@
    } else if errnum == PAM_AUTH_ERR {
        "Authentication failure"@
    } else if errnum == PAM_CRED_INSUFFICIENT {
        "Insufficient credentials to access authentication data"@
    } else if errnum == PAM_AUTHINFO_UNAVAIL {
        "Authentication service cannot retrieve authentication info"@
    } else if errnum == PAM_USER_UNKNOWN {
        "User not known to the underlying authentication module"@
    } else if errnum == PAM_MAXTRIES {
        "Have exhausted maximum number of retries for service"@
    } else if errnum == PAM_NEW_AUTHTOK_REQD {
        "Authentication token is no longer valid; new one required"@
    } else if errnum == PAM_ACCT_EXPIRED {
        "User account has expired"@
    } else if errnum == PAM_SESSION_ERR {
        "Cannot make/remove an entry for the specified session"@
    } else if errnum == PAM_CRED_UNAVAIL {
        "Authentication service cannot retrieve user credentials"@
    } else if errnum == PAM_CRED_EXPIRED {
        "User credentials expired"@
    } else if errnum == PAM_CRED_ERR {
        "Failure setting user credentials"@
    } else if errnum == PAM_NO_MODULE_DATA {
        "No module specific data is present"@
    } else if errnum == PAM_BAD_ITEM {
        "Bad item passed to pam_*_item()"@
    } else if errnum == PAM_CONV_ERR {
        "Conversation error"@
    } else if errnum == PAM_AUTHTOK_ERR {
        "Authentication token manipulation error"@
    } else if errnum == PAM_AUTHTOK_RECOVERY_ERR {
        "Authentication information cannot be recovered"@
    } else if errnum == PAM_AUTHTOK_LOCK_BUSY {
        "Authentication token lock busy"@
    } else if errnum == PAM_AUTHTOK_DISABLE_AGING {
        "Authentication token aging disabled"@
    } else if errnum == PAM_TRY_AGAIN {
        "Failed preliminary check by password service"@
    } else if errnum == PAM_IGNORE {
        "The return value should be ignored by PAM dispatch"@
    } else if errnum == PAM_MODULE_UNKNOWN {
        "Module is unknown"@
    } else if errnum == PAM_AUTHTOK_EXPIRED {
        "Authentication token expired"@
    } else if errnum == PAM_CONV_AGAIN {
        "Conversation is waiting for event"@
    } else if errnum == PAM_INCOMPLETE {
        "Application needs to call libpam again"@
    } else {
        "Unknown PAM error"@
    }
}

/// The description of one return code.
pub fn pam_strerror(errnum: u8) -> (r: &'static str)
    ensures
        r@ == spec_strerror(errnum),
{
    if errnum == PAM_SUCCESS {
        "Success"
    } else if errnum == PAM_ABORT {
        "Critical error - immediate abort"
    } else if errnum == PAM_OPEN_ERR {
        "Failed to load module"
    } else if errnum == PAM_SYMBOL_ERR {
        "Symbol not found"
    } else if errnum == PAM_SERVICE_ERR {
        "Error in service module"
    } else if errnum == PAM_SYSTEM_ERR {
        "System error"
    } else if errnum == PAM_BUF_ERR {
        "Memory buffer error"
    } else if errnum == PAM_PERM_DENIED {
        "Permission denied"
    } else if errnum == PAM_AUTH_ERR {
        "Authentication failure"
    } else if errnum == PAM_CRED_INSUFFICIENT {
        "Insufficient credentials to access authentication data"
    } else if errnum == PAM_AUTHINFO_UNAVAIL {
        "Authentication service cannot retrieve authentication info"
    } else if errnum == PAM_USER_UNKNOWN {
        "User not known to the underlying authentication module"
    } else if errnum == PAM_MAXTRIES {
        "Have exhausted maximum number of retries for service"
    } else if errnum == PAM_NEW_AUTHTOK_REQD {
        "Authentication token is no longer valid; new one required"
    } else if errnum == PAM_ACCT_EXPIRED {
        "User account has expired"
    } else if errnum == PAM_SESSION_ERR {
        "Cannot make/remove an entry for the specified session"
    } else if errnum == PAM_CRED_UNAVAIL {
        "Authentication service cannot retrieve user credentials"
    } else if errnum == PAM_CRED_EXPIRED {
        "User credentials expired"
    } else if errnum == PAM_CRED_ERR {
        "Failure setting user credentials"
    } else if errnum == PAM_NO_MODULE_DATA {
        "No module specific data is present"
    } else if errnum == PAM_BAD_ITEM {
        "Bad item passed to pam_*_item()"
    } else if errnum == PAM_CONV_ERR {
        "Conversation error"
    } else if errnum == PAM_AUTHTOK_ERR {
        "Authentication token manipulation error"
    } else if errnum == PAM_AUTHTOK_RECOVERY_ERR {
        "Authentication information cannot be recovered"
    } else if errnum == PAM_AUTHTOK_LOCK_BUSY {
        "Authentication token lock busy"
    } else if errnum == PAM_AUTHTOK_DISABLE_AGING {
        "Authentication token aging disabled"
    } else if errnum == PAM_TRY_AGAIN {
        "Failed preliminary check by password service"
    } else if errnum == PAM_IGNORE {
        "The return value should be ignored by PAM dispatch"
    } else if errnum == PAM_MODULE_UNKNOWN {
        "Module is unknown"
    } else if errnum == PAM_AUTHTOK_EXPIRED {
        "Authentication token expired"
    } else if errnum == PAM_CONV_AGAIN {
        "Conversation is waiting for event"
    } else if errnum == PAM_INCOMPLETE {
        "Application needs to call libpam again"
    } else {
        "Unknown PAM error"
    }
}

} // verus!
