//! Assembling logical configuration lines: blank and comment lines are
//! skipped, and a line ending in the continuation marker is joined with the
//! next one, the marker replaced by a single blank.

use vstd::prelude::*;
use crate::tokenize::{is_delim, spec_skip_delims, lemma_skip_delims_bounds};

verus! {

/// Length of `s` with trailing blanks removed.
pub open spec fn spec_rtrim_len(s: Seq<char>) -> int
    decreases s.len(),
{
    if s.len() == 0 {
        0
    } else if is_delim(s[s.len() - 1]) {
        spec_rtrim_len(s.drop_last())
    } else {
        s.len() as int
    }
}

proof fn lemma_rtrim_at(s: Seq<char>, j: int)
    requires
        0 <= j <= s.len(),
        forall|k: int| j <= k < s.len() ==> is_delim(s[k]),
        j == 0 || !is_delim(s[j - 1]),
    ensures
        spec_rtrim_len(s) == j,
    decreases s.len(),
{
    if s.len() > 0 {
        if j < s.len() {
            assert(is_delim(s[s.len() - 1]));
            lemma_rtrim_at(s.drop_last(), j);
        }
    }
}

/// `s` with leading and trailing blanks removed.
pub open spec fn spec_trim(s: Seq<char>) -> Seq<char> {
    let a = spec_skip_delims(s, 0);
    let e = spec_rtrim_len(s);
    if a >= e {
        Seq::empty()
    } else {
        s.subrange(a, e)
    }
}

/// Strip leading and trailing blanks.
pub fn trim_line(s: &str) -> (r: String)
    ensures
        r@ == spec_trim(s@),
{
    let n = s.unicode_len();
    proof {
        lemma_skip_delims_bounds(s@, 0);
    }
    let a = crate::tokenize::skip_delims(s, 0);
    let mut e = n;
    while e > 0
        invariant
            e <= n,
            n == s@.len(),
            a == spec_skip_delims(s@, 0),
            0 <= a <= n,
            forall|k: int| e <= k < s@.len() ==> is_delim(s@[k]),
        decreases e,
    {
        let c = s.get_char(e - 1);
        if !(c == ' ' || c == '\t' || c == '\n') {
            proof {
                lemma_rtrim_at(s@, e as int);
            }
            if a >= e {
                return String::new();
            }
            return s.substring_char(a, e).to_owned();
        }
        e = e - 1;
    }
    proof {
        lemma_rtrim_at(s@, 0);
    }
    String::new()
}

/// The buffer carrying one assembled logical line, and the partial
/// continuation text waiting for its next piece.
pub struct UtpamLineBuffer {
    pub assembled: String,
    pub chunk: String,
}

impl UtpamLineBuffer {
    /// An empty buffer.
    pub fn new() -> (r: Self)
        ensures
            r.assembled@.len() == 0,
            r.chunk@.len() == 0,
    {
        UtpamLineBuffer { assembled: String::new(), chunk: String::new() }
    }
}

/// The next logical line at or after physical line `i`, given the pending
/// continuation text, together with the index to continue from; `None` when
/// the input is exhausted.
pub open spec fn spec_next_logical(lines: Seq<Seq<char>>, i: int, chunk: Seq<char>) -> Option<
    (Seq<char>, int),
>
    decreases lines.len() - i when 0 <= i <= lines.len()
{
    if i >= lines.len() {
        if chunk.len() > 0 {
            Some((chunk, i))
        } else {
            None
        }
    } else {
        let t = spec_trim(lines[i]);
        if t.len() == 0 || t[0] == '#' {
            spec_next_logical(lines, i + 1, chunk)
        } else if t[t.len() - 1] == '\\' {
            spec_next_logical(lines, i + 1, chunk + t.drop_last() + seq![' '])
        } else {
            Some((chunk + t, i + 1))
        }
    }
}

/// A logical line is never found behind the cursor: with no pending
/// continuation text the cursor strictly advances.
pub proof fn lemma_next_logical_advances(lines: Seq<Seq<char>>, i: int, chunk: Seq<char>)
    requires
        0 <= i <= lines.len(),
    ensures
        match spec_next_logical(lines, i, chunk) {
            Some((a, ni)) => i <= ni <= lines.len() && (chunk.len() == 0 ==> ni > i),
            None => true,
        },
    decreases lines.len() - i,
{
    if i < lines.len() {
        let t = spec_trim(lines[i]);
        if t.len() == 0 || t[0] == '#' {
            lemma_next_logical_advances(lines, i + 1, chunk);
        } else if t[t.len() - 1] == '\\' {
            lemma_next_logical_advances(lines, i + 1, chunk + t.drop_last() + seq![' ']);
        }
    }
}

/// Assemble the next logical line into the buffer, advancing the cursor.
/// Returns 1 with the line in `assembled`, or 0 at end of input.
pub fn utpam_line_assemble(lines: &Vec<String>, idx: &mut usize, buffer: &mut UtpamLineBuffer)
    -> (r: i32)
    requires
        *old(idx) <= lines@.len(),
    ensures
        *final(idx) <= lines@.len(),
        final(buffer).chunk@.len() == 0,
        match spec_next_logical(lines.deep_view(), *old(idx) as int, old(buffer).chunk@) {
            Some((a, ni)) => r == 1 && final(buffer).assembled@ == a && *final(idx) == ni,
            None => r == 0 && *final(idx) == lines@.len(),
        },
{
    let ghost dv = lines.deep_view();
    let ghost i0 = *idx as int;
    let ghost chunk0 = buffer.chunk@;
    let n = lines.len();
    proof {
        assert(dv.len() == lines@.len());
    }
    while *idx < n
        invariant
            *idx <= n,
            n == lines@.len(),
            dv == lines.deep_view(),
            dv.len() == n,
            i0 == *old(idx) as int,
            chunk0 == old(buffer).chunk@,
            spec_next_logical(dv, i0, chunk0) == spec_next_logical(dv, *idx as int, buffer.chunk@),
        decreases n - *idx,
    {
        let i = *idx;
        proof {
            assert(dv[i as int] == lines@[i as int]@);
        }
        let t = trim_line(&lines[i]);
        let tn = t.unicode_len();
        if tn == 0 || t.get_char(0) == '#' {
            *idx = i + 1;
        } else if t.get_char(tn - 1) == '\\' {
            // Continuation: keep the head and a single joining blank.
            let ghost cprev = buffer.chunk@;
            let head = t.substring_char(0, tn - 1);
            buffer.chunk.append(head);
            buffer.chunk.append(" ");
            proof {
                reveal_strlit(" ");
                assert(" "@ =~= seq![' ']);
                assert(spec_trim(dv[i as int]).drop_last() =~= head@);
                assert(buffer.chunk@ =~= cprev + spec_trim(dv[i as int]).drop_last() + seq![' ']);
            }
            *idx = i + 1;
        } else {
            let ghost cpre = buffer.chunk@;
            let mut a = buffer.chunk.clone();
            a.append(t.as_str());
            buffer.assembled = a;
            buffer.chunk = String::new();
            *idx = i + 1;
            proof {
                assert(t@ == spec_trim(dv[i as int]));
                assert(spec_next_logical(dv, i as int, cpre) == Some(
                    (cpre + spec_trim(dv[i as int]), i + 1 as int),
                ));
                assert(buffer.assembled@ == cpre + spec_trim(dv[i as int]));
            }
            return 1;
        }
    }
    if buffer.chunk.unicode_len() > 0 {
        buffer.assembled = buffer.chunk.clone();
        buffer.chunk = String::new();
        return 1;
    }
    buffer.chunk = String::new();
    0
}

} // verus!
