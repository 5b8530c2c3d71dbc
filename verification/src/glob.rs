//! The wildcard pattern language and its matcher.
//!
//! A pattern is a filename in which `*` stands for a run of zero or more
//! characters other than `.`; every other character stands for itself. A
//! filename matches only when it is consumed in full. When several ways of
//! splitting the filename over the wildcards exist, each wildcard, from left
//! to right, takes as much as it can (greedy matching), so the captured
//! substrings are uniquely determined.

use vstd::prelude::*;

verus! {

/// Whether filename `f`, consumed in full, agrees with pattern `p` under
/// "literal characters match exactly, `*` matches any run of non-dot
/// characters".
pub open spec fn glob_match(p: Seq<char>, f: Seq<char>) -> bool
    decreases p.len() + f.len(),
{
    if p.len() == 0 {
        f.len() == 0
    } else if p[0] == '*' {
        glob_match(p.skip(1), f) || (f.len() > 0 && f[0] != '.' && glob_match(p, f.skip(1)))
    } else {
        f.len() > 0 && f[0] == p[0] && glob_match(p.skip(1), f.skip(1))
    }
}

/// The number of wildcards in a pattern.
pub open spec fn star_count(p: Seq<char>) -> nat
    decreases p.len(),
{
    if p.len() == 0 {
        0
    } else {
        star_count(p.skip(1)) + (if p[0] == '*' {
            1nat
        } else {
            0nat
        })
    }
}

/// The substrings the wildcards of `p` consume when matching `f` greedily,
/// one per wildcard in left-to-right order. Meaningful when
/// `glob_match(p, f)` holds.
pub open spec fn glob_captures(p: Seq<char>, f: Seq<char>) -> Seq<Seq<char>>
    decreases p.len() + f.len(),
{
    if p.len() == 0 {
        Seq::empty()
    } else if p[0] == '*' {
        if f.len() > 0 && f[0] != '.' && glob_match(p, f.skip(1)) {
            let rest = glob_captures(p, f.skip(1));
            seq![seq![f[0]] + rest[0]] + rest.skip(1)
        } else {
            seq![Seq::<char>::empty()] + glob_captures(p.skip(1), f)
        }
    } else {
        if f.len() > 0 {
            glob_captures(p.skip(1), f.skip(1))
        } else {
            Seq::empty()
        }
    }
}

/// On a match, the wildcards yield one capture each.
pub proof fn lemma_captures_count(p: Seq<char>, f: Seq<char>)
    requires
        glob_match(p, f),
    ensures
        glob_captures(p, f).len() == star_count(p),
    decreases p.len() + f.len(),
{
    if p.len() == 0 {
    } else if p[0] == '*' {
        if f.len() > 0 && f[0] != '.' && glob_match(p, f.skip(1)) {
            lemma_captures_count(p, f.skip(1));
        } else {
            lemma_captures_count(p.skip(1), f);
        }
    } else {
        lemma_captures_count(p.skip(1), f.skip(1));
    }
}

/// Whether the tail of `p` from `pi` on matches the tail of `f` from `fi` on.
fn match_from(p: &Vec<char>, f: &Vec<char>, pi: usize, fi: usize) -> (r: bool)
    requires
        pi <= p@.len(),
        fi <= f@.len(),
    ensures
        r == glob_match(p@.skip(pi as int), f@.skip(fi as int)),
    decreases p@.len() - pi + f@.len() - fi,
{
    proof {
        let ps = p@.skip(pi as int);
        let fs = f@.skip(fi as int);
        if pi < p@.len() {
            assert(ps[0] == p@[pi as int]);
            assert(ps.skip(1) =~= p@.skip(pi + 1));
        }
        if fi < f@.len() {
            assert(fs[0] == f@[fi as int]);
            assert(fs.skip(1) =~= f@.skip(fi + 1));
        }
    }
    if pi == p.len() {
        fi == f.len()
    } else if p[pi] == '*' {
        if match_from(p, f, pi + 1, fi) {
            true
        } else if fi < f.len() && f[fi] != '.' {
            match_from(p, f, pi, fi + 1)
        } else {
            false
        }
    } else {
        if fi < f.len() && f[fi] == p[pi] {
            match_from(p, f, pi + 1, fi + 1)
        } else {
            false
        }
    }
}

/// Whether the filename, consumed in full, matches the pattern.
pub fn glob_is_match(pattern: &Vec<char>, filename: &Vec<char>) -> (r: bool)
    ensures
        r == glob_match(pattern@, filename@),
{
    let r = match_from(pattern, filename, 0, 0);
    proof {
        assert(pattern@.skip(0) =~= pattern@);
        assert(filename@.skip(0) =~= filename@);
    }
    r
}

/// The greedy captures of the tails of `p` and `f`, which must match.
fn captures_from(p: &Vec<char>, f: &Vec<char>, pi: usize, fi: usize) -> (r: Vec<Vec<char>>)
    requires
        pi <= p@.len(),
        fi <= f@.len(),
        glob_match(p@.skip(pi as int), f@.skip(fi as int)),
    ensures
        r.deep_view() == glob_captures(p@.skip(pi as int), f@.skip(fi as int)),
    decreases p@.len() - pi + f@.len() - fi,
{
    proof {
        let ps = p@.skip(pi as int);
        let fs = f@.skip(fi as int);
        if pi < p@.len() {
            assert(ps[0] == p@[pi as int]);
            assert(ps.skip(1) =~= p@.skip(pi + 1));
        }
        if fi < f@.len() {
            assert(fs[0] == f@[fi as int]);
            assert(fs.skip(1) =~= f@.skip(fi + 1));
        }
    }
    if pi == p.len() {
        let r: Vec<Vec<char>> = Vec::new();
        proof {
            assert(r.deep_view() =~= glob_captures(p@.skip(pi as int), f@.skip(fi as int)));
        }
        r
    } else if p[pi] == '*' {
        let greedy = fi < f.len() && f[fi] != '.' && match_from(p, f, pi, fi + 1);
        if greedy {
            let mut rest = captures_from(p, f, pi, fi + 1);
            proof {
                lemma_captures_count(p@.skip(pi as int), f@.skip(fi + 1));
                assert(rest.deep_view().len() == rest@.len());
                assert(rest@.len() >= 1);
            }
            let mut head = rest.remove(0);
            head.insert(0, f[fi]);
            rest.insert(0, head);
            proof {
                let ps = p@.skip(pi as int);
                let fs = f@.skip(fi as int);
                let old_caps = glob_captures(ps, fs.skip(1));
                assert(fs.skip(1) =~= f@.skip(fi + 1));
                assert(rest.deep_view() =~~= seq![seq![fs[0]] + old_caps[0]] + old_caps.skip(1));
            }
            rest
        } else {
            let mut rest = captures_from(p, f, pi + 1, fi);
            let empty: Vec<char> = Vec::new();
            rest.insert(0, empty);
            proof {
                let ps = p@.skip(pi as int);
                let fs = f@.skip(fi as int);
                assert(rest.deep_view() =~~= seq![Seq::<char>::empty()] + glob_captures(
                    ps.skip(1),
                    fs,
                ));
            }
            rest
        }
    } else {
        proof {
            let ps = p@.skip(pi as int);
            let fs = f@.skip(fi as int);
            assert(glob_match(ps, fs));
            assert(fs.len() > 0 && fs[0] == ps[0]);
            assert(fi < f.len());
        }
        captures_from(p, f, pi + 1, fi + 1)
    }
}

/// The greedy captures of a full match.
pub fn glob_get_captures(pattern: &Vec<char>, filename: &Vec<char>) -> (r: Vec<Vec<char>>)
    requires
        glob_match(pattern@, filename@),
    ensures
        r.deep_view() == glob_captures(pattern@, filename@),
{
    proof {
        assert(pattern@.skip(0) =~= pattern@);
        assert(filename@.skip(0) =~= filename@);
    }
    captures_from(pattern, filename, 0, 0)
}

} // verus!
