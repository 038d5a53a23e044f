//! Character and string helpers used by the tokenizer and the parsers.

use vstd::prelude::*;

verus! {

/// Relies on the standard library's String::push appending exactly one
/// character at the end.
pub assume_specification[ String::push ](s: &mut String, c: char)
    ensures
        final(s)@ == old(s)@.push(c),
;

/// The lower-case form of an ASCII letter; any other character is unchanged.
pub open spec fn spec_lower_char(c: char) -> char {
    if 'A' <= c && c <= 'Z' {
        (((c as u8) + 32) as char)
    } else {
        c
    }
}

/// A sequence of characters with each ASCII letter lowered.
pub open spec fn spec_lower(s: Seq<char>) -> Seq<char> {
    s.map_values(|c: char| spec_lower_char(c))
}

/// Lower-case an ASCII letter, leaving every other character unchanged.
pub fn lower_char(c: char) -> (r: char)
    ensures
        r == spec_lower_char(c),
{
    if 'A' <= c && c <= 'Z' {
        ((c as u8) + 32) as char
    } else {
        c
    }
}

/// Lower-case every ASCII letter of a string.
pub fn to_lower_str(s: &str) -> (r: String)
    ensures
        r@ == spec_lower(s@),
{
    let n = s.unicode_len();
    let mut out = String::new();
    let mut i: usize = 0;
    while i < n
        invariant
            i <= n,
            n == s@.len(),
            out@ == spec_lower(s@.subrange(0, i as int)),
        decreases n - i,
    {
        let c = lower_char(s.get_char(i));
        out.push(c);
        proof {
            assert(s@.subrange(0, i + 1 as int).drop_last() =~= s@.subrange(0, i as int));
            assert(out@ =~= spec_lower(s@.subrange(0, i + 1 as int)));
        }
        i = i + 1;
    }
    proof {
        assert(s@.subrange(0, n as int) =~= s@);
    }
    out
}

/// Whether `p` is a prefix of `s`.
pub open spec fn spec_is_prefix(s: Seq<char>, p: Seq<char>) -> bool {
    p.len() <= s.len() && s.subrange(0, p.len() as int) == p
}

/// Whether `p` is a prefix of `s` starting at position `from`.
pub open spec fn spec_is_prefix_at(s: Seq<char>, p: Seq<char>, from: int) -> bool {
    from + p.len() <= s.len() && s.subrange(from, from + p.len()) == p
}

/// Prefix test by characters, starting at position `from` of `s`.
pub fn starts_with_at(s: &str, p: &str, from: usize) -> (r: bool)
    requires
        from <= s@.len(),
    ensures
        r == spec_is_prefix_at(s@, p@, from as int),
{
    let n = s.unicode_len();
    let m = p.unicode_len();
    if m > n - from {
        proof {
            assert(!spec_is_prefix_at(s@, p@, from as int));
        }
        return false;
    }
    let mut i: usize = 0;
    while i < m
        invariant
            i <= m,
            from + m <= n,
            n == s@.len(),
            m == p@.len(),
            forall|j: int| 0 <= j < i ==> s@[from + j] == p@[j],
        decreases m - i,
    {
        if s.get_char(from + i) != p.get_char(i) {
            proof {
                assert(s@.subrange(from as int, from + p@.len())[i as int] != p@[i as int]);
            }
            return false;
        }
        i = i + 1;
    }
    proof {
        assert(s@.subrange(from as int, from + p@.len()) =~= p@);
    }
    true
}

/// Whether `p` is a prefix of `s`.
pub fn starts_with(s: &str, p: &str) -> (r: bool)
    ensures
        r == spec_is_prefix(s@, p@),
{
    let r = starts_with_at(s, p, 0);
    proof {
        assert(spec_is_prefix_at(s@, p@, 0) == spec_is_prefix(s@, p@));
    }
    r
}

/// Case-insensitive (ASCII) equality of two strings.
pub fn eq_ignore_ascii_case(a: &str, b: &str) -> (r: bool)
    ensures
        r == (spec_lower(a@) == spec_lower(b@)),
{
    let n = a.unicode_len();
    let m = b.unicode_len();
    if n != m {
        proof {
            assert(spec_lower(a@).len() == a@.len());
            assert(spec_lower(b@).len() == b@.len());
        }
        return false;
    }
    let mut i: usize = 0;
    while i < n
        invariant
            i <= n,
            n == a@.len(),
            n == b@.len(),
            forall|j: int| 0 <= j < i ==> spec_lower_char(a@[j]) == spec_lower_char(b@[j]),
        decreases n - i,
    {
        if lower_char(a.get_char(i)) != lower_char(b.get_char(i)) {
            proof {
                assert(spec_lower(a@)[i as int] != spec_lower(b@)[i as int]);
            }
            return false;
        }
        i = i + 1;
    }
    proof {
        assert(spec_lower(a@) =~= spec_lower(b@));
    }
    true
}

/// The start of the last occurrence of `c` in `s`, if any.
pub open spec fn spec_last_index_of(s: Seq<char>, c: char) -> int
    decreases s.len(),
{
    if s.len() == 0 {
        -1
    } else if s[s.len() - 1] == c {
        s.len() - 1
    } else {
        spec_last_index_of(s.drop_last(), c)
    }
}

proof fn lemma_last_index_of(s: Seq<char>, c: char)
    ensures
        -1 <= spec_last_index_of(s, c) < s.len(),
        spec_last_index_of(s, c) >= 0 ==> s[spec_last_index_of(s, c)] == c,
        forall|j: int| spec_last_index_of(s, c) < j < s.len() ==> s[j] != c,
    decreases s.len(),
{
    if s.len() > 0 && s[s.len() - 1] != c {
        lemma_last_index_of(s.drop_last(), c);
        assert(forall|j: int| 0 <= j < s.len() - 1 ==> s[j] == s.drop_last()[j]);
    }
}

/// Position right after the last occurrence of `c`, or 0 when `c` is absent.
fn find_after_last(s: &str, c: char) -> (r: usize)
    ensures
        r == spec_last_index_of(s@, c) + 1,
{
    proof {
        lemma_last_index_of(s@, c);
    }
    let n = s.unicode_len();
    let mut i: usize = n;
    while i > 0
        invariant
            i <= n,
            n == s@.len(),
            forall|j: int| i <= j < s@.len() ==> s@[j] != c,
        decreases i,
    {
        if s.get_char(i - 1) == c {
            proof {
                assert(spec_last_index_of(s@, c) == i - 1) by {
                    lemma_last_index_of(s@, c);
                }
            }
            return i;
        }
        i = i - 1;
    }
    proof {
        assert(spec_last_index_of(s@, c) == -1) by {
            lemma_last_index_of(s@, c);
        }
    }
    0
}

/// What `parse_str` returns: everything after the last `/`, lowered.
pub open spec fn spec_parse_str(s: Seq<char>) -> Seq<char> {
    spec_lower(s.subrange(spec_last_index_of(s, '/') + 1, s.len() as int))
}

/// Keep only the part of a path after its last slash, lowered to ASCII
/// lower case.
pub fn parse_str(s: String) -> (r: String)
    ensures
        r@ == spec_parse_str(s@),
{
    proof {
        lemma_last_index_of(s@, '/');
    }
    let start = find_after_last(s.as_str(), '/');
    let tail = s.as_str().substring_char(start, s.as_str().unicode_len());
    to_lower_str(tail)
}

/// The path with its trailing slashes removed, as a file-name lookup
/// ignores them.
pub open spec fn spec_rstrip_slashes(s: Seq<char>) -> Seq<char>
    decreases s.len(),
{
    if s.len() > 0 && s[s.len() - 1] == '/' {
        spec_rstrip_slashes(s.drop_last())
    } else {
        s
    }
}

proof fn lemma_rstrip_slashes_at(s: Seq<char>, m: int)
    requires
        0 <= m <= s.len(),
        forall|k: int| m <= k < s.len() ==> s[k] == '/',
        m == 0 || s[m - 1] != '/',
    ensures
        spec_rstrip_slashes(s) == s.subrange(0, m),
    decreases s.len(),
{
    if s.len() > 0 && s[s.len() - 1] == '/' {
        lemma_rstrip_slashes_at(s.drop_last(), m);
        assert(s.drop_last() =~= s.subrange(0, s.len() - 1));
        assert(s.drop_last().subrange(0, m) =~= s.subrange(0, m));
    } else {
        assert(s.subrange(0, m) =~= s);
    }
}

/// The stem of a module path's last component: trailing slashes ignored,
/// the name after the last remaining `/`, cut before its last `.` unless
/// that dot is the name's first character.
pub open spec fn spec_module_stem(s: Seq<char>) -> Seq<char> {
    let t = spec_rstrip_slashes(s);
    let name = t.subrange(spec_last_index_of(t, '/') + 1, t.len() as int);
    let dot = spec_last_index_of(name, '.');
    if dot > 0 {
        name.subrange(0, dot)
    } else {
        name
    }
}

/// Whether a module reference yields a usable display name: it is not all
/// blanks, and its last component's stem is neither empty nor `?`.
pub open spec fn spec_modulename_valid(s: Seq<char>) -> bool {
    &&& crate::line::spec_trim(s).len() > 0
    &&& spec_module_stem(s).len() > 0
    &&& spec_module_stem(s) != "?"@
}

/// Length of the path with its trailing slashes removed.
fn rstrip_slashes_len(s: &str) -> (m: usize)
    ensures
        m <= s@.len(),
        spec_rstrip_slashes(s@) == s@.subrange(0, m as int),
{
    let n = s.unicode_len();
    let mut m = n;
    while m > 0
        invariant
            m <= n,
            n == s@.len(),
            forall|k: int| m <= k < s@.len() ==> s@[k] == '/',
        decreases m,
    {
        if s.get_char(m - 1) != '/' {
            proof {
                lemma_rstrip_slashes_at(s@, m as int);
            }
            return m;
        }
        m = m - 1;
    }
    proof {
        lemma_rstrip_slashes_at(s@, 0);
    }
    0
}

/// Extract a module's display name from its path; `None` when the
/// reference is all blanks or has no usable stem.
pub fn extract_modulename(mod_path: &str) -> (r: Option<String>)
    ensures
        match r {
            Some(name) => spec_modulename_valid(mod_path@) && name@ == spec_module_stem(
                mod_path@,
            ),
            None => !spec_modulename_valid(mod_path@),
        },
{
    let trimmed = crate::line::trim_line(mod_path);
    if trimmed.unicode_len() == 0 {
        return None;
    }
    // A file-name lookup ignores trailing slashes.
    let m = rstrip_slashes_len(mod_path);
    let sp = mod_path.substring_char(0, m);
    proof {
        assert(sp@ == spec_rstrip_slashes(mod_path@));
        lemma_last_index_of(sp@, '/');
    }
    let start = find_after_last(sp, '/');
    let name = sp.substring_char(start, sp.unicode_len());
    proof {
        lemma_last_index_of(name@, '.');
    }
    let dot = find_after_last(name, '.');
    let stem = if dot > 1 {
        name.substring_char(0, dot - 1)
    } else {
        name
    };
    proof {
        assert(name@ =~= sp@.subrange(spec_last_index_of(sp@, '/') + 1, sp@.len() as int));
        if dot > 1 {
            assert(stem@ =~= spec_module_stem(mod_path@));
        } else {
            assert(stem@ =~= spec_module_stem(mod_path@));
        }
    }
    if stem.unicode_len() == 0 {
        return None;
    }
    let q = "?";
    if eq_str(stem, q) {
        return None;
    }
    Some(stem.to_owned())
}

/// Character-for-character equality of two string slices.
pub fn eq_str(a: &str, b: &str) -> (r: bool)
    ensures
        r == (a@ == b@),
{
    let n = a.unicode_len();
    let m = b.unicode_len();
    if n != m {
        return false;
    }
    let mut i: usize = 0;
    while i < n
        invariant
            i <= n,
            n == a@.len(),
            n == b@.len(),
            forall|j: int| 0 <= j < i ==> a@[j] == b@[j],
        decreases n - i,
    {
        if a.get_char(i) != b.get_char(i) {
            return false;
        }
        i = i + 1;
    }
    proof {
        assert(a@ =~= b@);
    }
    true
}

} // verus!
