//! Splitting a configuration line into whitespace-delimited tokens.
//!
//! A token that begins with `[` is taken verbatim up to the first unescaped
//! `]`; only the outermost brackets are significant and they are stripped
//! from the returned token.  A backslash keeps the following character from
//! closing the bracket.  An unclosed bracket swallows the rest of the line.

use vstd::prelude::*;

verus! {

/// The token delimiters: space, tab and newline.
pub open spec fn is_delim(c: char) -> bool {
    c == ' ' || c == '\t' || c == '\n'
}

/// First position at or after `i` holding a non-delimiter, or the length.
pub open spec fn spec_skip_delims(s: Seq<char>, i: int) -> int
    decreases s.len() - i when 0 <= i <= s.len()
{
    if i >= s.len() {
        s.len() as int
    } else if !is_delim(s[i]) {
        i
    } else {
        spec_skip_delims(s, i + 1)
    }
}

/// First position at or after `i` holding a delimiter, or the length.
pub open spec fn spec_token_end(s: Seq<char>, i: int) -> int
    decreases s.len() - i when 0 <= i <= s.len()
{
    if i >= s.len() {
        s.len() as int
    } else if is_delim(s[i]) {
        i
    } else {
        spec_token_end(s, i + 1)
    }
}

/// Position of the first unescaped `]` at or after `i`, or -1 when the
/// bracket never closes.  `esc` says whether the previous character was a
/// backslash; a backslash always escapes its successor.
pub open spec fn spec_bracket_close(s: Seq<char>, i: int, esc: bool) -> int
    decreases s.len() - i when 0 <= i <= s.len()
{
    if i >= s.len() {
        -1
    } else if s[i] == '\\' {
        spec_bracket_close(s, i + 1, true)
    } else if esc {
        spec_bracket_close(s, i + 1, false)
    } else if s[i] == ']' {
        i
    } else {
        spec_bracket_close(s, i + 1, false)
    }
}

pub proof fn lemma_skip_delims_bounds(s: Seq<char>, i: int)
    requires
        0 <= i <= s.len(),
    ensures
        i <= spec_skip_delims(s, i) <= s.len(),
        spec_skip_delims(s, i) < s.len() ==> !is_delim(s[spec_skip_delims(s, i)]),
    decreases s.len() - i,
{
    if i < s.len() && is_delim(s[i]) {
        lemma_skip_delims_bounds(s, i + 1);
    }
}

pub proof fn lemma_token_end_bounds(s: Seq<char>, i: int)
    requires
        0 <= i <= s.len(),
    ensures
        i <= spec_token_end(s, i) <= s.len(),
    decreases s.len() - i,
{
    if i < s.len() && !is_delim(s[i]) {
        lemma_token_end_bounds(s, i + 1);
    }
}

pub proof fn lemma_bracket_close_bounds(s: Seq<char>, i: int, esc: bool)
    requires
        0 <= i <= s.len(),
    ensures
        spec_bracket_close(s, i, esc) == -1 || i <= spec_bracket_close(s, i, esc) < s.len(),
    decreases s.len() - i,
{
    if i < s.len() {
        if s[i] == '\\' {
            lemma_bracket_close_bounds(s, i + 1, true);
        } else if esc || s[i] != ']' {
            lemma_bracket_close_bounds(s, i + 1, false);
        }
    }
}

/// Start of the token found at or after cursor `p`.
pub open spec fn spec_token_start(s: Seq<char>, p: int) -> int {
    spec_skip_delims(s, p)
}

/// The characters of the token found at or after cursor `p`; meaningful only
/// when `spec_token_start(s, p) < s.len()`.
pub open spec fn spec_token_val(s: Seq<char>, p: int) -> Seq<char> {
    let st = spec_token_start(s, p);
    if st < s.len() && s[st] == '[' {
        let cl = spec_bracket_close(s, st + 1, false);
        if cl >= 0 {
            s.subrange(st + 1, cl)
        } else {
            s.subrange(st + 1, s.len() as int)
        }
    } else {
        s.subrange(st, spec_token_end(s, st))
    }
}

/// The cursor position after the token found at or after cursor `p`.
pub open spec fn spec_token_next(s: Seq<char>, p: int) -> int {
    let st = spec_token_start(s, p);
    if st >= s.len() {
        s.len() as int
    } else if s[st] == '[' {
        let cl = spec_bracket_close(s, st + 1, false);
        if cl >= 0 {
            cl + 1
        } else {
            s.len() as int
        }
    } else {
        spec_token_end(s, st)
    }
}

pub proof fn lemma_token_next_bounds(s: Seq<char>, p: int)
    requires
        0 <= p <= s.len(),
    ensures
        p <= spec_token_next(s, p) <= s.len(),
        spec_token_start(s, p) < s.len() ==> spec_token_next(s, p) > p,
{
    lemma_skip_delims_bounds(s, p);
    let st = spec_token_start(s, p);
    if st < s.len() {
        if s[st] == '[' {
            lemma_bracket_close_bounds(s, st + 1, false);
        } else {
            lemma_token_end_bounds(s, st + 1);
            assert(spec_token_end(s, st) == spec_token_end(s, st + 1));
        }
    }
}

/// The sequence of all tokens of `s` from cursor `p` on.
pub open spec fn spec_tokens(s: Seq<char>, p: int) -> Seq<Seq<char>>
    decreases s.len() - p when 0 <= p <= s.len() via spec_tokens_decreases
{
    if spec_token_start(s, p) >= s.len() {
        Seq::empty()
    } else {
        seq![spec_token_val(s, p)] + spec_tokens(s, spec_token_next(s, p))
    }
}

#[via_fn]
proof fn spec_tokens_decreases(s: Seq<char>, p: int) {
    lemma_token_next_bounds(s, p);
    lemma_skip_delims_bounds(s, p);
}

/// Skip delimiters in `line` starting at `i`.
pub fn skip_delims(line: &str, i: usize) -> (r: usize)
    requires
        i <= line@.len(),
    ensures
        r == spec_skip_delims(line@, i as int),
{
    let n = line.unicode_len();
    let mut j = i;
    while j < n
        invariant
            i <= j <= n,
            n == line@.len(),
            spec_skip_delims(line@, i as int) == spec_skip_delims(line@, j as int),
        decreases n - j,
    {
        let c = line.get_char(j);
        if !(c == ' ' || c == '\t' || c == '\n') {
            return j;
        }
        j = j + 1;
    }
    j
}

/// Extract the next token of `line` at cursor `pos`, advancing the cursor.
///
/// Returns `None` when only delimiters remain.  The cursor always lands
/// inside the line, and strictly advances whenever a token is returned.
pub fn utpam_tokenize(line: &str, pos: &mut usize) -> (r: Option<String>)
    requires
        *old(pos) <= line@.len(),
    ensures
        *final(pos) <= line@.len(),
        r is None <==> spec_token_start(line@, *old(pos) as int) >= line@.len(),
        r is None ==> *final(pos) == line@.len(),
        r is Some ==> r->Some_0@ == spec_token_val(line@, *old(pos) as int),
        r is Some ==> *final(pos) == spec_token_next(line@, *old(pos) as int),
        r is Some ==> *final(pos) > *old(pos),
{
    proof {
        lemma_skip_delims_bounds(line@, *pos as int);
        lemma_token_next_bounds(line@, *pos as int);
    }
    let n = line.unicode_len();
    let p0 = *pos;
    let start = skip_delims(line, p0);
    if start >= n {
        *pos = n;
        return None;
    }
    if line.get_char(start) == '[' {
        // Bracketed token: scan for the first unescaped closing bracket.
        let mut j = start + 1;
        let mut esc = false;
        while j < n
            invariant
                start + 1 <= j <= n,
                n == line@.len(),
                p0 <= start,
                start == spec_token_start(line@, p0 as int),
                start < n && line@[start as int] == '[',
                p0 == *old(pos),
                spec_bracket_close(line@, start + 1, false) == spec_bracket_close(
                    line@,
                    j as int,
                    esc,
                ),
            decreases n - j,
        {
            let c = line.get_char(j);
            proof {
                assert(spec_bracket_close(line@, j as int, esc) == if line@[j as int] == '\\' {
                    spec_bracket_close(line@, j + 1, true)
                } else if esc {
                    spec_bracket_close(line@, j + 1, false)
                } else if line@[j as int] == ']' {
                    j as int
                } else {
                    spec_bracket_close(line@, j + 1, false)
                });
            }
            if c == '\\' {
                esc = true;
            } else if esc {
                esc = false;
            } else if c == ']' {
                let tok = line.substring_char(start + 1, j);
                *pos = j + 1;
                return Some(tok.to_owned());
            }
            j = j + 1;
        }
        // No closing bracket: the rest of the line is the token.
        proof {
            assert(spec_bracket_close(line@, j as int, esc) == -1);
        }
        let tok = line.substring_char(start + 1, n);
        *pos = n;
        Some(tok.to_owned())
    } else {
        let mut j = start;
        while j < n
            invariant
                start <= j <= n,
                n == line@.len(),
                p0 <= start,
                start == spec_token_start(line@, p0 as int),
                start < n && !is_delim(line@[start as int]) && line@[start as int] != '[',
                p0 == *old(pos),
                spec_token_end(line@, start as int) == spec_token_end(line@, j as int),
            decreases n - j,
        {
            let c = line.get_char(j);
            if c == ' ' || c == '\t' || c == '\n' {
                proof {
                    assert(spec_token_end(line@, j as int) == j);
                }
                let tok = line.substring_char(start, j);
                *pos = j;
                return Some(tok.to_owned());
            }
            j = j + 1;
        }
        proof {
            assert(spec_token_end(line@, j as int) == j);
        }
        let tok = line.substring_char(start, n);
        *pos = n;
        Some(tok.to_owned())
    }
}

/// Split `input` into its tokens, appending them to `argv` and counting them
/// in `argc`.
///
/// Returns how many tokens were appended.  The count deliberately stands in
/// for an allocation-size estimate: zero exactly when the input yields no
/// token, which is all a caller may test it for.
pub fn utpam_mkargv(input: &str, argv: &mut Vec<String>, argc: &mut i32) -> (r: usize)
    requires
        0 <= *old(argc),
        *old(argc) + input@.len() < i32::MAX,
    ensures
        ({
            let toks = spec_tokens(input@, 0);
            &&& final(argv)@.len() == old(argv)@.len() + toks.len()
            &&& forall|i: int|
                0 <= i < old(argv)@.len() ==> final(argv)@[i] == old(argv)@[i]
            &&& forall|i: int|
                old(argv)@.len() <= i < final(argv)@.len() ==> final(argv)@[i]@ == toks[i - old(
                    argv,
                )@.len()]
            &&& *final(argc) == *old(argc) + toks.len()
            &&& r == toks.len()
        }),
{
    let base = argv.len();
    let ghost toks = spec_tokens(input@, 0);
    let mut pos: usize = 0;
    let mut count: usize = 0;
    proof {
        lemma_tokens_count_bound(input@, 0);
    }
    loop
        invariant
            pos <= input@.len(),
            count == argv@.len() - base,
            base <= argv@.len(),
            toks == spec_tokens(input@, 0),
            toks =~= argv@.skip(base as int).map_values(|t: String| t@) + spec_tokens(
                input@,
                pos as int,
            ),
            forall|i: int| 0 <= i < base ==> argv@[i] == old(argv)@[i],
            base == old(argv)@.len(),
            0 <= *argc,
            *argc == *old(argc) + count,
            *old(argc) + input@.len() < i32::MAX,
            count + (input@.len() - pos) <= input@.len(),
        ensures
            spec_tokens(input@, pos as int) =~= Seq::<Seq<char>>::empty(),
        decreases input@.len() - pos,
    {
        proof {
            lemma_token_next_bounds(input@, pos as int);
            lemma_tokens_count_bound(input@, pos as int);
        }
        let ghost pos_before = pos as int;
        let tok = match utpam_tokenize(input, &mut pos) {
            Some(t) => t,
            None => {
                proof {
                    assert(spec_tokens(input@, pos_before) =~= Seq::<Seq<char>>::empty());
                    assert(spec_tokens(input@, pos as int) =~= Seq::<Seq<char>>::empty());
                }
                break ;
            },
        };
        argv.push(tok);
        count = count + 1;
        *argc = *argc + 1;
        proof {
            assert(argv@.skip(base as int).map_values(|t: String| t@) =~= argv@.skip(
                base as int,
            ).map_values(|t: String| t@));
            assert(toks =~= argv@.skip(base as int).map_values(|t: String| t@) + spec_tokens(
                input@,
                pos as int,
            ));
        }
    }
    proof {
        assert(spec_tokens(input@, pos as int) =~= Seq::<Seq<char>>::empty());
        assert(toks =~= argv@.skip(base as int).map_values(|t: String| t@));
        assert forall|i: int| base <= i < argv@.len() implies argv@[i]@ == toks[i - base] by {
            assert(toks[i - base] == argv@.skip(base as int).map_values(|t: String| t@)[i - base]);
            assert(argv@.skip(base as int)[i - base] == argv@[i]);
        };
    }
    count
}

/// There are never more tokens than characters left.
pub proof fn lemma_tokens_count_bound(s: Seq<char>, p: int)
    requires
        0 <= p <= s.len(),
    ensures
        spec_tokens(s, p).len() <= s.len() - p,
    decreases s.len() - p,
{
    lemma_token_next_bounds(s, p);
    lemma_skip_delims_bounds(s, p);
    if spec_token_start(s, p) < s.len() {
        lemma_tokens_count_bound(s, spec_token_next(s, p));
    }
}

} // verus!
