//! Splitting a path into its parent directory and final segment, and
//! joining them back.
//!
//! The splitting follows file-name semantics: trailing separators and
//! trailing `.` segments are ignored, and a path that is then empty, all
//! separators, or ends in a `..` segment has no derivable final name. The
//! parent of a name directly under the root is the root itself, and the
//! parent of a bare name is the empty string (the current directory).

use vstd::prelude::*;

use crate::chars::from_chars;
use crate::chars::sub_chars;
use crate::chars::to_chars;

verus! {

/// `s` with every trailing `/` removed.
pub open spec fn trim_slashes(s: Seq<char>) -> Seq<char>
    decreases s.len(),
{
    if s.len() > 0 && s[s.len() - 1] == '/' {
        trim_slashes(s.take(s.len() - 1))
    } else {
        s
    }
}

/// `s` with every trailing `/`, and every trailing `.` that forms a whole
/// segment, removed.
pub open spec fn trim_path_end(s: Seq<char>) -> Seq<char>
    decreases s.len(),
{
    if s.len() > 0 && s[s.len() - 1] == '/' {
        trim_path_end(s.take(s.len() - 1))
    } else if s.len() > 0 && s[s.len() - 1] == '.' && (s.len() == 1 || s[s.len() - 2] == '/') {
        trim_path_end(s.take(s.len() - 1))
    } else {
        s
    }
}

/// The index of the last `/` in `s`, or `-1` if there is none.
pub open spec fn last_slash(s: Seq<char>) -> int
    decreases s.len(),
{
    if s.len() == 0 {
        -1
    } else if s[s.len() - 1] == '/' {
        s.len() - 1
    } else {
        last_slash(s.take(s.len() - 1))
    }
}

/// `last_slash` stays within bounds.
pub proof fn lemma_last_slash_bounds(s: Seq<char>)
    ensures
        -1 <= last_slash(s) < s.len(),
    decreases s.len(),
{
    if s.len() > 0 && s[s.len() - 1] != '/' {
        lemma_last_slash_bounds(s.take(s.len() - 1));
    }
}

/// The parent directory and final segment of a path, or `None` when no
/// final name can be derived: the path, with trailing separators and
/// trailing `.` segments ignored, is empty, or its final segment is `..`.
/// The final segment is the part after the last separator of the trimmed
/// path; the parent is the part before it with its own trailing
/// separators removed, the root `/` when nothing else is left of it, or
/// empty when there is no separator at all.
pub open spec fn split_path(s: Seq<char>) -> Option<(Seq<char>, Seq<char>)> {
    let t = trim_path_end(s);
    if t.len() == 0 {
        None
    } else {
        let i = last_slash(t);
        let name = t.skip(i + 1);
        if name == seq!['.', '.'] {
            None
        } else {
            let dir = if i == -1 {
                Seq::<char>::empty()
            } else {
                let d = trim_slashes(t.take(i));
                if d.len() == 0 {
                    seq!['/']
                } else {
                    d
                }
            };
            Some((dir, name))
        }
    }
}

/// `dir` and `name` joined with a single separator: `name` alone when
/// `dir` is empty, with no separator added when `dir` already ends in one.
pub open spec fn join_path(dir: Seq<char>, name: Seq<char>) -> Seq<char> {
    if dir.len() == 0 {
        name
    } else if dir[dir.len() - 1] == '/' {
        dir + name
    } else {
        dir + seq!['/'] + name
    }
}

/// Splits a path into its parent directory and final segment, or `None`
/// when neither can be derived.
pub fn split_path_str(s: &str) -> (r: Option<(String, String)>)
    ensures
        ({
            match split_path(s@) {
                None => r is None,
                Some(parts) => r matches Some(p) && (p.0@ == parts.0 && p.1@ == parts.1),
            }
        }),
{
    let v = to_chars(s);
    let n = v.len();
    proof {
        assert(v@.take(n as int) =~= v@);
    }
    let mut end = n;
    loop
        invariant
            0 <= end <= n,
            n == v@.len(),
            trim_path_end(v@) == trim_path_end(v@.take(end as int)),
        ensures
            0 <= end <= n,
            trim_path_end(v@) == v@.take(end as int),
        decreases end,
    {
        if end == 0 {
            proof {
                assert(v@.take(0) =~= Seq::<char>::empty());
            }
            break ;
        }
        let c = v[end - 1];
        let drop_last = if c == '/' {
            true
        } else if c == '.' {
            end == 1 || v[end - 2] == '/'
        } else {
            false
        };
        if !drop_last {
            proof {
                let cur = v@.take(end as int);
                assert(cur[cur.len() - 1] == v@[end - 1]);
                if end >= 2 {
                    assert(cur[cur.len() - 2] == v@[end - 2]);
                }
                assert(trim_path_end(cur) == cur);
            }
            break ;
        }
        proof {
            let cur = v@.take(end as int);
            assert(cur[cur.len() - 1] == v@[end - 1]);
            if end >= 2 {
                assert(cur[cur.len() - 2] == v@[end - 2]);
            }
            assert(cur.take(cur.len() - 1) =~= v@.take(end - 1));
        }
        end = end - 1;
    }
    if end == 0 {
        return None;
    }
    let ghost t = trim_path_end(v@);
    let mut i = end;
    let mut slash_at: Option<usize> = None;
    loop
        invariant_except_break
            slash_at is None,
        invariant
            0 <= i <= end <= n,
            n == v@.len(),
            t == v@.take(end as int),
            end > 0,
            last_slash(t) == last_slash(v@.take(i as int)),
        ensures
            0 <= i <= end,
            slash_at is None ==> last_slash(t) == -1,
            slash_at matches Some(k) ==> 0 <= k < end && last_slash(t) == k as int,
        decreases i,
    {
        if i == 0 {
            proof {
                assert(v@.take(0) =~= Seq::<char>::empty());
            }
            break ;
        }
        if v[i - 1] == '/' {
            proof {
                let cur = v@.take(i as int);
                assert(cur[cur.len() - 1] == v@[i - 1]);
                assert(last_slash(cur) == i - 1);
            }
            slash_at = Some(i - 1);
            break ;
        }
        proof {
            let cur = v@.take(i as int);
            assert(cur[cur.len() - 1] == v@[i - 1]);
            assert(cur.take(cur.len() - 1) =~= v@.take(i - 1));
        }
        i = i - 1;
    }
    proof {
        lemma_last_slash_bounds(t);
    }
    let name_start: usize = match slash_at {
        None => 0,
        Some(k) => k + 1,
    };
    let ghost nm = t.skip(last_slash(t) + 1);
    proof {
        assert(nm =~= v@.subrange(name_start as int, end as int));
    }
    if end - name_start == 2 && v[name_start] == '.' && v[name_start + 1] == '.' {
        proof {
            assert(nm =~= seq!['.', '.']);
        }
        return None;
    }
    proof {
        if nm == seq!['.', '.'] {
            assert(nm.len() == 2);
            assert(nm[0] == '.' && nm[1] == '.');
            assert(v@[name_start as int] == '.' && v@[name_start + 1] == '.');
        }
        assert(nm != seq!['.', '.']);
    }
    let name = sub_chars(&v, name_start, end);
    proof {
        assert(name@ =~= nm);
    }
    match slash_at {
        None => {
            let dir = String::new();
            Some((dir, from_chars(&name)))
        },
        Some(k) => {
            let mut dend = k;
            while dend > 0 && v[dend - 1] == '/'
                invariant
                    0 <= dend <= k < end <= n,
                    n == v@.len(),
                    trim_slashes(v@.take(k as int)) == trim_slashes(v@.take(dend as int)),
                decreases dend,
            {
                proof {
                    let cur = v@.take(dend as int);
                    assert(cur[cur.len() - 1] == v@[dend - 1]);
                    assert(cur.take(cur.len() - 1) =~= v@.take(dend - 1));
                }
                dend = dend - 1;
            }
            proof {
                let cur = v@.take(dend as int);
                if dend > 0 {
                    assert(cur[cur.len() - 1] == v@[dend - 1]);
                }
                if dend == 0 {
                    assert(cur =~= Seq::<char>::empty());
                }
                assert(trim_slashes(v@.take(k as int)) == cur);
                assert(t.take(k as int) =~= v@.take(k as int));
            }
            if dend == 0 {
                let mut dv: Vec<char> = Vec::new();
                dv.push('/');
                proof {
                    assert(dv@ =~= seq!['/']);
                }
                Some((from_chars(&dv), from_chars(&name)))
            } else {
                let dir = sub_chars(&v, 0, dend);
                proof {
                    assert(dir@ =~= trim_slashes(t.take(k as int)));
                }
                Some((from_chars(&dir), from_chars(&name)))
            }
        },
    }
}

/// Joins a directory and a filename with a single separator.
pub fn join_path_str(dir: &str, name: &str) -> (r: String)
    ensures
        r@ == join_path(dir@, name@),
{
    let dv = to_chars(dir);
    let nv = to_chars(name);
    let mut out = dv;
    if out.len() > 0 && out[out.len() - 1] != '/' {
        out.push('/');
    }
    let mut tail = nv;
    out.append(&mut tail);
    proof {
        assert(out@ =~= join_path(dir@, name@));
    }
    from_chars(&out)
}

} // verus!
