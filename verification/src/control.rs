//! Building a 32-slot action table out of a control keyword or an explicit
//! `return-name=action` list.

use vstd::prelude::*;
use crate::codes::{
    PAM_ACTION_BAD, PAM_ACTION_DIE, PAM_ACTION_DONE, PAM_ACTION_IGNORE, PAM_ACTION_OK,
    PAM_ACTION_UNDEF, PAM_IGNORE, PAM_NEW_AUTHTOK_REQD, PAM_RETURN_VALUES, PAM_SUCCESS,
};
use crate::strutil::{spec_is_prefix_at, spec_lower, starts_with_at, to_lower_str, eq_str};
use crate::tokenize::{spec_skip_delims, lemma_skip_delims_bounds};

verus! {

/// The name of each return code, `success` through `incomplete`, with slot 32
/// naming the `default` pseudo-code.
pub open spec fn spec_return_name(i: int) -> Seq<char> {
    if i == 0 {
        "success"@
    } else if i == 1 {
        "open_err"@
    } else if i == 2 {
        "symbol_err"@
    } else if i == 3 {
        "service_err"@
    } else if i == 4 {
        "system_err"@
    } else if i == 5 {
        "buf_err"@
    } else if i == 6 {
        "perm_denied"@
    } else if i == 7 {
        "auth_err"@
    } else if i == 8 {
        "cred_insufficient"@
    } else if i == 9 {
        "authinfo_unavail"@
    } else if i == 10 {
        "user_unknown"@
    } else if i == 11 {
        "maxtries"@
    } else if i == 12 {
        "new_authtok_reqd"@
    } else if i == 13 {
        "acct_expired"@
    } else if i == 14 {
        "session_err"@
    } else if i == 15 {
        "cred_unavail"@
    } else if i == 16 {
        "cred_expired"@
    } else if i == 17 {
        "cred_err"@
    } else if i == 18 {
        "no_module_data"@
    } else if i == 19 {
        "conv_err"@
    } else if i == 20 {
        "authtok_err"@
    } else if i == 21 {
        "authtok_recover_err"@
    } else if i == 22 {
        "authtok_lock_busy"@
    } else if i == 23 {
        "authtok_disable_aging"@
    } else if i == 24 {
        "try_again"@
    } else if i == 25 {
        "ignore"@
    } else if i == 26 {
        "abort"@
    } else if i == 27 {
        "authtok_expired"@
    } else if i == 28 {
        "module_unknown"@
    } else if i == 29 {
        "bad_item"@
    } else if i == 30 {
        "conv_again"@
    } else if i == 31 {
        "incomplete"@
    } else {
        "default"@
    }
}

/// The return-code name table as executable strings.
pub fn return_name(i: usize) -> (r: &'static str)
    requires
        i <= 32,
    ensures
        r@ == spec_return_name(i as int),
{
    match i {
        0 => "success",
        1 => "open_err",
        2 => "symbol_err",
        3 => "service_err",
        4 => "system_err",
        5 => "buf_err",
        6 => "perm_denied",
        7 => "auth_err",
        8 => "cred_insufficient",
        9 => "authinfo_unavail",
        10 => "user_unknown",
        11 => "maxtries",
        12 => "new_authtok_reqd",
        13 => "acct_expired",
        14 => "session_err",
        15 => "cred_unavail",
        16 => "cred_expired",
        17 => "cred_err",
        18 => "no_module_data",
        19 => "conv_err",
        20 => "authtok_err",
        21 => "authtok_recover_err",
        22 => "authtok_lock_busy",
        23 => "authtok_disable_aging",
        24 => "try_again",
        25 => "ignore",
        26 => "abort",
        27 => "authtok_expired",
        28 => "module_unknown",
        29 => "bad_item",
        30 => "conv_again",
        31 => "incomplete",
        _ => "default",
    }
}

/// The name of each action, in the order of their numeric encodings
/// `0, -1, ..., -5`.
pub open spec fn spec_action_name(i: int) -> Seq<char> {
    if i == 0 {
        "ignore"@
    } else if i == 1 {
        "ok"@
    } else if i == 2 {
        "done"@
    } else if i == 3 {
        "bad"@
    } else if i == 4 {
        "die"@
    } else {
        "reset"@
    }
}

/// The action name table as executable strings.
pub fn action_name(i: usize) -> (r: &'static str)
    requires
        i <= 5,
    ensures
        r@ == spec_action_name(i as int),
{
    match i {
        0 => "ignore",
        1 => "ok",
        2 => "done",
        3 => "bad",
        4 => "die",
        _ => "reset",
    }
}

/// First index `r` in `[lo, hi)` whose return name is a prefix of `s` at `j`,
/// together with the cursor after the name.
pub open spec fn spec_match_name(s: Seq<char>, j: int, lo: int, hi: int, is_ret: bool) -> Option<
    (int, int),
>
    decreases hi - lo,
{
    if lo >= hi {
        None
    } else {
        let name = if is_ret {
            spec_return_name(lo)
        } else {
            spec_action_name(lo)
        };
        if spec_is_prefix_at(s, name, j) {
            Some((lo, j + name.len()))
        } else {
            spec_match_name(s, j, lo + 1, hi, is_ret)
        }
    }
}

pub proof fn lemma_match_name_bounds(s: Seq<char>, j: int, lo: int, hi: int, is_ret: bool)
    requires
        0 <= j <= s.len(),
    ensures
        match spec_match_name(s, j, lo, hi, is_ret) {
            Some((r, nx)) => lo <= r < hi && j <= nx <= s.len(),
            None => true,
        },
    decreases hi - lo,
{
    if lo < hi {
        lemma_match_name_bounds(s, j, lo + 1, hi, is_ret);
    }
}

/// Find the first return-code name that is a prefix of `s` at `j`.
fn match_return_name(s: &str, j: usize) -> (r: Option<(usize, usize)>)
    requires
        j <= s@.len(),
    ensures
        match r {
            Some((idx, nx)) => Some((idx as int, nx as int)) == spec_match_name(
                s@,
                j as int,
                0,
                33,
                true,
            ),
            None => spec_match_name(s@, j as int, 0, 33, true) is None,
        },
{
    proof {
        lemma_match_name_bounds(s@, j as int, 0, 33, true);
    }
    let slen = s.unicode_len();
    let mut i: usize = 0;
    while i < 33
        invariant
            i <= 33,
            j <= s@.len(),
            slen == s@.len(),
            spec_match_name(s@, j as int, 0, 33, true) == spec_match_name(
                s@,
                j as int,
                i as int,
                33,
                true,
            ),
        decreases 33 - i,
    {
        let name = return_name(i);
        if starts_with_at(s, name, j) {
            proof {
                assert(j + name@.len() <= slen);
            }
            let nx = j + name.unicode_len();
            return Some((i, nx));
        }
        i = i + 1;
    }
    None
}

/// Find the first action name that is a prefix of `s` at `j`.
fn match_action_name(s: &str, j: usize) -> (r: Option<(usize, usize)>)
    requires
        j <= s@.len(),
    ensures
        match r {
            Some((idx, nx)) => Some((idx as int, nx as int)) == spec_match_name(
                s@,
                j as int,
                0,
                6,
                false,
            ),
            None => spec_match_name(s@, j as int, 0, 6, false) is None,
        },
{
    proof {
        lemma_match_name_bounds(s@, j as int, 0, 6, false);
    }
    let slen = s.unicode_len();
    let mut i: usize = 0;
    while i < 6
        invariant
            i <= 6,
            j <= s@.len(),
            slen == s@.len(),
            spec_match_name(s@, j as int, 0, 6, false) == spec_match_name(
                s@,
                j as int,
                i as int,
                6,
                false,
            ),
        decreases 6 - i,
    {
        let name = action_name(i);
        if starts_with_at(s, name, j) {
            proof {
                assert(j + name@.len() <= slen);
            }
            let nx = j + name.unicode_len();
            return Some((i, nx));
        }
        i = i + 1;
    }
    None
}

/// A decimal digit.
pub open spec fn is_digit(c: char) -> bool {
    '0' <= c && c <= '9'
}

/// End of the digit run starting at `i`.
pub open spec fn spec_digits_end(s: Seq<char>, i: int) -> int
    decreases s.len() - i when 0 <= i <= s.len()
{
    if i >= s.len() {
        s.len() as int
    } else if !is_digit(s[i]) {
        i
    } else {
        spec_digits_end(s, i + 1)
    }
}

pub proof fn lemma_digits_end_bounds(s: Seq<char>, i: int)
    requires
        0 <= i <= s.len(),
    ensures
        i <= spec_digits_end(s, i) <= s.len(),
    decreases s.len() - i,
{
    if i < s.len() && is_digit(s[i]) {
        lemma_digits_end_bounds(s, i + 1);
    }
}

/// Value of the digit run `s[i..e)`.
pub open spec fn spec_digits_val(s: Seq<char>, i: int, e: int) -> int
    decreases e - i when 0 <= i <= e <= s.len()
{
    if i >= e {
        0
    } else {
        spec_digits_val(s, i, e - 1) * 10 + (s[e - 1] as u32 - 48)
    }
}

/// One parsed `return-name=action` pair: the return-code index (32 meaning
/// `default`) and the action value.
pub type ControlPair = (int, i32);

/// Parse the whole control string into its pairs; `None` on any malformation
/// (unknown return name, missing `=`, unknown action, zero or oversized
/// jump).
pub open spec fn spec_parse_pairs(s: Seq<char>, i: int) -> Option<Seq<ControlPair>>
    decreases s.len() - i when 0 <= i <= s.len() via spec_parse_pairs_decreases
{
    let j = spec_skip_delims(s, i);
    if j >= s.len() {
        Some(Seq::empty())
    } else {
        match spec_match_name(s, j, 0, 33, true) {
            None => None,
            Some((r, ja)) => {
                let j2 = spec_skip_delims(s, ja);
                if j2 >= s.len() || s[j2] != '=' {
                    None
                } else {
                    let j3 = spec_skip_delims(s, j2 + 1);
                    match spec_match_name(s, j3, 0, 6, false) {
                        Some((a, jb)) => {
                            let j4 = spec_skip_delims(s, jb);
                            match spec_parse_pairs(s, j4) {
                                Some(rest) => Some(seq![(r, (-a) as i32)] + rest),
                                None => None,
                            }
                        },
                        None => {
                            let e = spec_digits_end(s, j3);
                            let v = spec_digits_val(s, j3, e);
                            if e == j3 || v == 0 || v > i32::MAX {
                                None
                            } else {
                                let j4 = spec_skip_delims(s, e);
                                match spec_parse_pairs(s, j4) {
                                    Some(rest) => Some(seq![(r, v as i32)] + rest),
                                    None => None,
                                }
                            }
                        },
                    }
                }
            },
        }
    }
}

#[via_fn]
proof fn spec_parse_pairs_decreases(s: Seq<char>, i: int) {
    let j = spec_skip_delims(s, i);
    lemma_skip_delims_bounds(s, i);
    if j < s.len() {
        lemma_match_name_bounds(s, j, 0, 33, true);
        match spec_match_name(s, j, 0, 33, true) {
            Some((r, ja)) => {
                let j2 = spec_skip_delims(s, ja);
                lemma_skip_delims_bounds(s, ja);
                if j2 < s.len() && s[j2] == '=' {
                    let j3 = spec_skip_delims(s, j2 + 1);
                    lemma_skip_delims_bounds(s, j2 + 1);
                    lemma_match_name_bounds(s, j3, 0, 6, false);
                    match spec_match_name(s, j3, 0, 6, false) {
                        Some((a, jb)) => {
                            lemma_skip_delims_bounds(s, jb);
                        },
                        None => {
                            let e = spec_digits_end(s, j3);
                            lemma_digits_end_bounds(s, j3);
                            lemma_skip_delims_bounds(s, e);
                        },
                    }
                }
            },
            None => {},
        }
    }
}

/// A well-formed action table: one slot per return code.
pub open spec fn is_action_table(t: Seq<i32>) -> bool {
    t.len() == PAM_RETURN_VALUES
}

/// The table after filling every still-undefined slot with `act`.
pub open spec fn spec_set_default(t: Seq<i32>, act: i32) -> Seq<i32> {
    Seq::new(t.len(), |i: int| if t[i] == PAM_ACTION_UNDEF {
        act
    } else {
        t[i]
    })
}

/// The table after applying one parsed pair.
pub open spec fn spec_apply_pair(t: Seq<i32>, p: ControlPair) -> Seq<i32> {
    if p.0 == PAM_RETURN_VALUES {
        spec_set_default(t, p.1)
    } else {
        t.update(p.0, p.1)
    }
}

/// The table after applying a list of parsed pairs in order.
pub open spec fn spec_apply_pairs(t: Seq<i32>, pairs: Seq<ControlPair>) -> Seq<i32>
    decreases pairs.len(),
{
    if pairs.len() == 0 {
        t
    } else {
        spec_apply_pairs(spec_apply_pair(t, pairs[0]), pairs.skip(1))
    }
}

/// Every slot set to `bad`: the table of a malformed control list.
pub open spec fn spec_all_bad() -> Seq<i32> {
    Seq::new(PAM_RETURN_VALUES as nat, |i: int| PAM_ACTION_BAD)
}

/// Fill every still-undefined slot of the table with the default action.
pub fn utpam_set_default_control(control_array: &mut Vec<i32>, default_action: i32)
    requires
        is_action_table(old(control_array)@),
    ensures
        final(control_array)@ == spec_set_default(old(control_array)@, default_action),
{
    let ghost t0 = old(control_array)@;
    let mut i: usize = 0;
    while i < PAM_RETURN_VALUES
        invariant
            i <= PAM_RETURN_VALUES,
            t0 == old(control_array)@,
            t0.len() == PAM_RETURN_VALUES,
            control_array@.len() == PAM_RETURN_VALUES,
            forall|j: int|
                0 <= j < i ==> control_array@[j] == spec_set_default(t0, default_action)[j],
            forall|j: int| i <= j < PAM_RETURN_VALUES ==> control_array@[j] == t0[j],
        decreases PAM_RETURN_VALUES - i,
    {
        if control_array[i] == PAM_ACTION_UNDEF {
            control_array[i] = default_action;
        }
        i = i + 1;
    }
    proof {
        assert(control_array@ =~= spec_set_default(t0, default_action));
    }
}

/// Parse an explicit `return-name=action` list and update the table with it;
/// a malformed list turns every slot to `bad` and reports failure.
pub fn utpam_parse_control(control_array: &mut Vec<i32>, tok: &str) -> (ok: bool)
    requires
        is_action_table(old(control_array)@),
    ensures
        is_action_table(final(control_array)@),
        match spec_parse_pairs(tok@, 0) {
            Some(pairs) => ok && final(control_array)@ == spec_apply_pairs(
                old(control_array)@,
                pairs,
            ),
            None => !ok && final(control_array)@ == spec_all_bad(),
        },
{
    let n = tok.unicode_len();
    let ghost t0 = old(control_array)@;
    let mut pos: usize = 0;
    let mut failed = false;
    proof {
        lemma_skip_delims_bounds(tok@, 0);
    }
    loop
        invariant_except_break
            !failed,
        invariant
            pos <= n,
            n == tok@.len(),
            t0 == old(control_array)@,
            t0.len() == PAM_RETURN_VALUES,
            control_array@.len() == PAM_RETURN_VALUES,
            match spec_parse_pairs(tok@, pos as int) {
                Some(rest) => spec_parse_pairs(tok@, 0) matches Some(all) && spec_apply_pairs(
                    control_array@,
                    rest,
                ) == spec_apply_pairs(t0, all),
                None => spec_parse_pairs(tok@, 0) is None,
            },
        ensures
            is_action_table(control_array@),
            failed ==> spec_parse_pairs(tok@, 0) is None,
            !failed ==> spec_parse_pairs(tok@, 0) is Some && control_array@ == spec_apply_pairs(
                t0,
                spec_parse_pairs(tok@, 0)->Some_0,
            ),
        decreases n - pos,
    {
        let ghost p0 = pos as int;
        let j = crate::tokenize::skip_delims(tok, pos);
        proof {
            lemma_skip_delims_bounds(tok@, p0);
        }
        if j >= n {
            proof {
                assert(spec_parse_pairs(tok@, p0) == Some(Seq::<ControlPair>::empty()));
                assert(spec_apply_pairs(control_array@, Seq::<ControlPair>::empty())
                    == control_array@);
                assert(spec_parse_pairs(tok@, 0) is Some);
                let all = spec_parse_pairs(tok@, 0)->Some_0;
                assert(control_array@ == spec_apply_pairs(t0, all));
            }
            break ;
        }
        // Return-code name.
        let (ret, ja) = match match_return_name(tok, j) {
            Some(m) => m,
            None => {
                failed = true;
                proof {
                    assert(spec_parse_pairs(tok@, p0) is None);
                }
                break ;
            },
        };
        proof {
            lemma_match_name_bounds(tok@, j as int, 0, 33, true);
        }
        // The `=` sign, with blanks allowed around it.
        let j2 = crate::tokenize::skip_delims(tok, ja);
        proof {
            lemma_skip_delims_bounds(tok@, ja as int);
        }
        if j2 >= n || tok.get_char(j2) != '=' {
            failed = true;
            proof {
                assert(spec_parse_pairs(tok@, p0) is None);
            }
            break ;
        }
        let j3 = crate::tokenize::skip_delims(tok, j2 + 1);
        proof {
            lemma_skip_delims_bounds(tok@, j2 + 1);
        }
        // The action: a name, or a bare decimal jump distance.
        let (act, jb): (i32, usize) = match match_action_name(tok, j3) {
            Some((a, jb)) => {
                proof {
                    lemma_match_name_bounds(tok@, j3 as int, 0, 6, false);
                }
                (-(a as i32), jb)
            },
            None => {
                proof {
                    lemma_digits_end_bounds(tok@, j3 as int);
                }
                let mut e = j3;
                let mut acc: u64 = 0;
                loop
                    invariant
                        j3 <= e <= n,
                        n == tok@.len(),
                        spec_digits_end(tok@, j3 as int) == spec_digits_end(tok@, e as int),
                        acc <= i32::MAX as u64 + 1,
                        spec_digits_val(tok@, j3 as int, e as int) > i32::MAX ==> acc
                            == i32::MAX as u64 + 1,
                        spec_digits_val(tok@, j3 as int, e as int) <= i32::MAX ==> acc
                            == spec_digits_val(tok@, j3 as int, e as int),
                    ensures
                        j3 <= e <= n,
                        n == tok@.len(),
                        spec_digits_end(tok@, j3 as int) == e,
                        acc <= i32::MAX as u64 + 1,
                        spec_digits_val(tok@, j3 as int, e as int) > i32::MAX ==> acc
                            == i32::MAX as u64 + 1,
                        spec_digits_val(tok@, j3 as int, e as int) <= i32::MAX ==> acc
                            == spec_digits_val(tok@, j3 as int, e as int),
                    decreases n - e,
                {
                    if e >= n {
                        proof {
                            assert(spec_digits_end(tok@, e as int) == e);
                        }
                        break ;
                    }
                    let c = tok.get_char(e);
                    if !('0' <= c && c <= '9') {
                        proof {
                            assert(spec_digits_end(tok@, e as int) == e);
                        }
                        break ;
                    }
                    let d = (c as u32) - 48;
                    let next = acc * 10 + (d as u64);
                    proof {
                        assert(spec_digits_val(tok@, j3 as int, e + 1 as int) == spec_digits_val(
                            tok@,
                            j3 as int,
                            e as int,
                        ) * 10 + (tok@[e as int] as u32 - 48));
                    }
                    acc = if next > i32::MAX as u64 {
                        i32::MAX as u64 + 1
                    } else {
                        next
                    };
                    e = e + 1;
                }
                if e == j3 || acc == 0 || acc > i32::MAX as u64 {
                    failed = true;
                    proof {
                        if acc > i32::MAX as u64 {
                            assert(spec_digits_val(tok@, j3 as int, e as int) > i32::MAX);
                        }
                        assert(spec_parse_pairs(tok@, p0) is None);
                    }
                    break ;
                }
                (acc as i32, e)
            },
        };
        let j4 = crate::tokenize::skip_delims(tok, jb);
        proof {
            lemma_skip_delims_bounds(tok@, jb as int);
        }
        // Apply the pair to the table.
        let ghost before = control_array@;
        if ret == PAM_RETURN_VALUES {
            utpam_set_default_control(control_array, act);
        } else {
            control_array[ret] = act;
        }
        pos = j4;
        proof {
            let pair = (ret as int, act);
            assert(control_array@ == spec_apply_pair(before, pair));
            match spec_parse_pairs(tok@, pos as int) {
                Some(rest) => {
                    assert(spec_parse_pairs(tok@, p0) == Some(seq![pair] + rest));
                    assert((seq![pair] + rest).skip(1) =~= rest);
                    assert(spec_apply_pairs(before, seq![pair] + rest) == spec_apply_pairs(
                        control_array@,
                        rest,
                    ));
                },
                None => {
                    assert(spec_parse_pairs(tok@, p0) is None);
                },
            }
        }
    }
    if failed {
        let mut i: usize = 0;
        while i < PAM_RETURN_VALUES
            invariant
                i <= PAM_RETURN_VALUES,
                control_array@.len() == PAM_RETURN_VALUES,
                forall|j: int| 0 <= j < i ==> control_array@[j] == PAM_ACTION_BAD,
            decreases PAM_RETURN_VALUES - i,
        {
            control_array[i] = PAM_ACTION_BAD;
            i = i + 1;
        }
        proof {
            assert(control_array@ =~= spec_all_bad());
        }
        false
    } else {
        true
    }
}

/// The table a plain control keyword stands for: the success and
/// new-token-required slots get `success_act`, the ignore slot stays
/// `ignore`, and every other slot gets `default_act`.
pub open spec fn spec_keyword_table(success_act: i32, default_act: i32) -> Seq<i32> {
    Seq::new(
        PAM_RETURN_VALUES as nat,
        |i: int|
            if i == PAM_SUCCESS || i == PAM_NEW_AUTHTOK_REQD {
                success_act
            } else if i == PAM_IGNORE {
                PAM_ACTION_IGNORE
            } else {
                default_act
            },
    )
}

/// In a table built from `required`, unspecified slots are `bad`, the
/// success and new-token slots are `ok`, and the ignore slot is `ignore`.
pub proof fn lemma_required_table_shape()
    ensures
        forall|i: int|
            0 <= i < PAM_RETURN_VALUES && i != PAM_SUCCESS && i != PAM_NEW_AUTHTOK_REQD && i
                != PAM_IGNORE ==> spec_keyword_table(PAM_ACTION_OK, PAM_ACTION_BAD)[i]
                == PAM_ACTION_BAD,
        spec_keyword_table(PAM_ACTION_OK, PAM_ACTION_BAD)[PAM_SUCCESS as int] == PAM_ACTION_OK,
        spec_keyword_table(PAM_ACTION_OK, PAM_ACTION_BAD)[PAM_NEW_AUTHTOK_REQD as int]
            == PAM_ACTION_OK,
        spec_keyword_table(PAM_ACTION_OK, PAM_ACTION_BAD)[PAM_IGNORE as int] == PAM_ACTION_IGNORE,
{
}

/// Build the action table for one keyword-shaped control word, on a table
/// whose slots are all still undefined.
fn apply_keyword(control_array: &mut Vec<i32>, success_act: i32, default_act: i32)
    requires
        old(control_array)@ =~= Seq::new(PAM_RETURN_VALUES as nat, |i: int| PAM_ACTION_UNDEF),
        success_act == PAM_ACTION_OK || success_act == PAM_ACTION_DONE,
    ensures
        final(control_array)@ == spec_keyword_table(success_act, default_act),
{
    control_array[PAM_SUCCESS as usize] = success_act;
    control_array[PAM_NEW_AUTHTOK_REQD as usize] = success_act;
    control_array[PAM_IGNORE as usize] = PAM_ACTION_IGNORE;
    utpam_set_default_control(control_array, default_act);
    proof {
        assert(control_array@ =~= spec_keyword_table(success_act, default_act));
    }
}

/// What `utpam_build_control` produces for a control token: the table, and
/// whether the token was malformed.
pub open spec fn spec_build_control(tok: Seq<char>) -> (Seq<i32>, bool) {
    let low = spec_lower(tok);
    if low == "required"@ {
        (spec_keyword_table(PAM_ACTION_OK, PAM_ACTION_BAD), false)
    } else if low == "requisite"@ {
        (spec_keyword_table(PAM_ACTION_OK, PAM_ACTION_DIE), false)
    } else if low == "optional"@ {
        (spec_keyword_table(PAM_ACTION_OK, PAM_ACTION_IGNORE), false)
    } else if low == "sufficient"@ {
        (spec_keyword_table(PAM_ACTION_DONE, PAM_ACTION_IGNORE), false)
    } else {
        match spec_parse_pairs(tok, 0) {
            Some(pairs) => (
                spec_set_default(
                    spec_apply_pairs(
                        Seq::new(PAM_RETURN_VALUES as nat, |i: int| PAM_ACTION_UNDEF),
                        pairs,
                    ),
                    PAM_ACTION_BAD,
                ),
                false,
            ),
            None => (spec_set_default(spec_all_bad(), PAM_ACTION_BAD), true),
        }
    }
}

/// Turn a control token (`required`, `requisite`, `optional`, `sufficient`,
/// or an explicit list) into a full action table.  Reports `false` for a
/// malformed explicit list, whose table is all `bad`.
pub fn utpam_build_control(tok: &str) -> (r: (Vec<i32>, bool))
    ensures
        r.0@ == spec_build_control(tok@).0,
        r.1 == spec_build_control(tok@).1,
        is_action_table(r.0@),
{
    let mut actions: Vec<i32> = Vec::new();
    let mut i: usize = 0;
    while i < PAM_RETURN_VALUES
        invariant
            i <= PAM_RETURN_VALUES,
            actions@.len() == i,
            forall|j: int| 0 <= j < i ==> actions@[j] == PAM_ACTION_UNDEF,
        decreases PAM_RETURN_VALUES - i,
    {
        actions.push(PAM_ACTION_UNDEF);
        i = i + 1;
    }
    proof {
        assert(actions@ =~= Seq::new(PAM_RETURN_VALUES as nat, |k: int| PAM_ACTION_UNDEF));
    }
    let low = to_lower_str(tok);
    if eq_str(low.as_str(), "required") {
        apply_keyword(&mut actions, PAM_ACTION_OK, PAM_ACTION_BAD);
        (actions, false)
    } else if eq_str(low.as_str(), "requisite") {
        apply_keyword(&mut actions, PAM_ACTION_OK, PAM_ACTION_DIE);
        (actions, false)
    } else if eq_str(low.as_str(), "optional") {
        apply_keyword(&mut actions, PAM_ACTION_OK, PAM_ACTION_IGNORE);
        (actions, false)
    } else if eq_str(low.as_str(), "sufficient") {
        apply_keyword(&mut actions, PAM_ACTION_DONE, PAM_ACTION_IGNORE);
        (actions, false)
    } else {
        let ok = utpam_parse_control(&mut actions, tok);
        utpam_set_default_control(&mut actions, PAM_ACTION_BAD);
        (actions, !ok)
    }
}

} // verus!
