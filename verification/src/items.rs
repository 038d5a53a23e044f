//! Setting and reading the session's attribute items by their numeric tag.
//!
//! The conversation callback and the delay callback are capabilities the
//! application holds; they are not session data here, so their tags are
//! refused alongside the unknown ones.

use vstd::prelude::*;
use crate::codes::{
    PAM_AUTHTOK, PAM_AUTHTOK_TYPE, PAM_BAD_ITEM, PAM_CALLED_FROM_MODULE, PAM_OLDAUTHTOK,
    PAM_RHOST, PAM_RUSER, PAM_SERVICE, PAM_SUCCESS, PAM_TTY, PAM_USER, PAM_USER_PROMPT,
    PAM_XDISPLAY,
};
use crate::session::{UtpamHandle, UtpamModule};
use crate::strutil::{spec_lower, to_lower_str};

verus! {

/// Which string field an item tag names, for the tags that plain set/get
/// calls may touch.
pub open spec fn is_settable_item(item_type: i8) -> bool {
    ||| item_type == PAM_SERVICE
    ||| item_type == PAM_USER
    ||| item_type == PAM_USER_PROMPT
    ||| item_type == PAM_TTY
    ||| item_type == PAM_RUSER
    ||| item_type == PAM_RHOST
    ||| item_type == PAM_AUTHTOK
    ||| item_type == PAM_OLDAUTHTOK
    ||| item_type == PAM_XDISPLAY
    ||| item_type == PAM_AUTHTOK_TYPE
}

/// Set one session item.  A missing value resets the item to empty.  The
/// service name is lowered and marks the policy table for reloading; the
/// authentication tokens may only be touched from module context.
pub fn utpam_set_item<M, D>(utpamh: &mut UtpamHandle<M, D>, item_type: i8, item: Option<&str>)
    -> (r: u8)
    ensures
        r == PAM_SUCCESS || r == PAM_BAD_ITEM,
        r == PAM_BAD_ITEM ==> *final(utpamh) == *old(utpamh),
        item_type == PAM_SERVICE ==> *final(utpamh) == (UtpamHandle {
            service_name: final(utpamh).service_name,
            handlers: final(utpamh).handlers,
            ..*old(utpamh)
        }) && final(utpamh).handlers == (crate::session::Service {
            handlers_loaded: false,
            ..old(utpamh).handlers
        }),
        item_type == PAM_USER ==> *final(utpamh) == (UtpamHandle {
            user: final(utpamh).user,
            ..*old(utpamh)
        }),
        item_type == PAM_USER_PROMPT ==> *final(utpamh) == (UtpamHandle {
            prompt: final(utpamh).prompt,
            former: final(utpamh).former,
            ..*old(utpamh)
        }) && final(utpamh).former == (crate::session::UtpamFormerState {
            fail_user: 0,
            ..old(utpamh).former
        }),
        item_type == PAM_TTY ==> *final(utpamh) == (UtpamHandle {
            tty: final(utpamh).tty,
            ..*old(utpamh)
        }),
        item_type == PAM_RUSER ==> *final(utpamh) == (UtpamHandle {
            ruser: final(utpamh).ruser,
            ..*old(utpamh)
        }),
        item_type == PAM_RHOST ==> *final(utpamh) == (UtpamHandle {
            rhost: final(utpamh).rhost,
            ..*old(utpamh)
        }),
        item_type == PAM_XDISPLAY ==> *final(utpamh) == (UtpamHandle {
            xdisplay: final(utpamh).xdisplay,
            ..*old(utpamh)
        }),
        item_type == PAM_AUTHTOK_TYPE ==> *final(utpamh) == (UtpamHandle {
            authtok_type: final(utpamh).authtok_type,
            ..*old(utpamh)
        }),
        item_type == PAM_AUTHTOK ==> *final(utpamh) == (UtpamHandle {
            authtok: final(utpamh).authtok,
            ..*old(utpamh)
        }),
        item_type == PAM_OLDAUTHTOK ==> *final(utpamh) == (UtpamHandle {
            oldauthtok: final(utpamh).oldauthtok,
            ..*old(utpamh)
        }),
        ({
            let v: Seq<char> = match item {
                Some(s) => s@,
                None => Seq::empty(),
            };
            &&& item_type == PAM_SERVICE ==> r == PAM_SUCCESS && final(utpamh).service_name@
                == spec_lower(v) && !final(utpamh).handlers.handlers_loaded
            &&& item_type == PAM_USER ==> r == PAM_SUCCESS && final(utpamh).user@ == v
            &&& item_type == PAM_USER_PROMPT ==> r == PAM_SUCCESS && (match final(utpamh).prompt {
                Some(p) => item is Some && p@ == v,
                None => item is None,
            }) && final(utpamh).former.fail_user == 0
            &&& item_type == PAM_TTY ==> r == PAM_SUCCESS && final(utpamh).tty@ == v
            &&& item_type == PAM_RUSER ==> r == PAM_SUCCESS && final(utpamh).ruser@ == v
            &&& item_type == PAM_RHOST ==> r == PAM_SUCCESS && final(utpamh).rhost@ == v
            &&& item_type == PAM_XDISPLAY ==> r == PAM_SUCCESS && final(utpamh).xdisplay@ == v
            &&& item_type == PAM_AUTHTOK_TYPE ==> r == PAM_SUCCESS && final(utpamh).authtok_type@
                == v
            &&& item_type == PAM_AUTHTOK ==> if old(utpamh).caller_is == PAM_CALLED_FROM_MODULE {
                r == PAM_SUCCESS && final(utpamh).authtok@ == v
            } else {
                r == PAM_BAD_ITEM && *final(utpamh) == *old(utpamh)
            }
            &&& item_type == PAM_OLDAUTHTOK ==> if old(utpamh).caller_is
                == PAM_CALLED_FROM_MODULE {
                r == PAM_SUCCESS && final(utpamh).oldauthtok@ == v
            } else {
                r == PAM_BAD_ITEM && *final(utpamh) == *old(utpamh)
            }
            &&& !is_settable_item(item_type) ==> r == PAM_BAD_ITEM && *final(utpamh) == *old(
                utpamh,
            )
        }),
{
    let value: String = match item {
        Some(s) => s.to_owned(),
        None => String::new(),
    };
    if item_type == PAM_SERVICE {
        // A new service name invalidates the compiled policy table.
        utpamh.handlers.handlers_loaded = false;
        utpamh.service_name = to_lower_str(value.as_str());
        PAM_SUCCESS
    } else if item_type == PAM_USER {
        utpamh.user = value;
        PAM_SUCCESS
    } else if item_type == PAM_USER_PROMPT {
        utpamh.prompt = match item {
            Some(_) => Some(value),
            None => None,
        };
        utpamh.former.fail_user = 0;
        PAM_SUCCESS
    } else if item_type == PAM_TTY {
        utpamh.tty = value;
        PAM_SUCCESS
    } else if item_type == PAM_RUSER {
        utpamh.ruser = value;
        PAM_SUCCESS
    } else if item_type == PAM_RHOST {
        utpamh.rhost = value;
        PAM_SUCCESS
    } else if item_type == PAM_XDISPLAY {
        utpamh.xdisplay = value;
        PAM_SUCCESS
    } else if item_type == PAM_AUTHTOK_TYPE {
        utpamh.authtok_type = value;
        PAM_SUCCESS
    } else if item_type == PAM_AUTHTOK {
        if utpamh.caller_is == PAM_CALLED_FROM_MODULE {
            utpamh.authtok = value;
            PAM_SUCCESS
        } else {
            PAM_BAD_ITEM
        }
    } else if item_type == PAM_OLDAUTHTOK {
        if utpamh.caller_is == PAM_CALLED_FROM_MODULE {
            utpamh.oldauthtok = value;
            PAM_SUCCESS
        } else {
            PAM_BAD_ITEM
        }
    } else {
        PAM_BAD_ITEM
    }
}

/// Read one session item; the authentication tokens are only readable from
/// module context, and the capability tags are refused.
pub fn utpam_get_item<M, D>(utpamh: &UtpamHandle<M, D>, item_type: i8) -> (r: Result<
    Option<String>,
    u8,
>)
    ensures
        match r {
            Ok(v) => {
                let got: Seq<char> = match v {
                    Some(s) => s@,
                    None => Seq::empty(),
                };
                &&& item_type == PAM_SERVICE ==> got == utpamh.service_name@
                &&& item_type == PAM_USER ==> got == utpamh.user@
                &&& item_type == PAM_USER_PROMPT ==> (match utpamh.prompt {
                    Some(p) => v is Some && got == p@,
                    None => v is None,
                })
                &&& item_type == PAM_TTY ==> got == utpamh.tty@
                &&& item_type == PAM_RUSER ==> got == utpamh.ruser@
                &&& item_type == PAM_RHOST ==> got == utpamh.rhost@
                &&& item_type == PAM_XDISPLAY ==> got == utpamh.xdisplay@
                &&& item_type == PAM_AUTHTOK_TYPE ==> got == utpamh.authtok_type@
                &&& item_type == PAM_AUTHTOK ==> utpamh.caller_is == PAM_CALLED_FROM_MODULE && got
                    == utpamh.authtok@
                &&& item_type == PAM_OLDAUTHTOK ==> utpamh.caller_is == PAM_CALLED_FROM_MODULE
                    && got == utpamh.oldauthtok@
                &&& is_settable_item(item_type)
            },
            Err(e) => e == PAM_BAD_ITEM && (!is_settable_item(item_type) || ((item_type
                == PAM_AUTHTOK || item_type == PAM_OLDAUTHTOK) && utpamh.caller_is
                != PAM_CALLED_FROM_MODULE)),
        },
{
    if item_type == PAM_SERVICE {
        Ok(Some(utpamh.service_name.clone()))
    } else if item_type == PAM_USER {
        Ok(Some(utpamh.user.clone()))
    } else if item_type == PAM_USER_PROMPT {
        match &utpamh.prompt {
            Some(p) => Ok(Some(p.clone())),
            None => Ok(None),
        }
    } else if item_type == PAM_TTY {
        Ok(Some(utpamh.tty.clone()))
    } else if item_type == PAM_RUSER {
        Ok(Some(utpamh.ruser.clone()))
    } else if item_type == PAM_RHOST {
        Ok(Some(utpamh.rhost.clone()))
    } else if item_type == PAM_XDISPLAY {
        Ok(Some(utpamh.xdisplay.clone()))
    } else if item_type == PAM_AUTHTOK_TYPE {
        Ok(Some(utpamh.authtok_type.clone()))
    } else if item_type == PAM_AUTHTOK {
        if utpamh.caller_is == PAM_CALLED_FROM_MODULE {
            Ok(Some(utpamh.authtok.clone()))
        } else {
            Err(PAM_BAD_ITEM)
        }
    } else if item_type == PAM_OLDAUTHTOK {
        if utpamh.caller_is == PAM_CALLED_FROM_MODULE {
            Ok(Some(utpamh.oldauthtok.clone()))
        } else {
            Err(PAM_BAD_ITEM)
        }
    } else {
        Err(PAM_BAD_ITEM)
    }
}

} // verus!
