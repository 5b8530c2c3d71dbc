//! Matching the files of a directory against a wildcard pattern.
//!
//! A `FileMatcher` holds the source directory and the wildcard filename
//! pattern derived from a source path. Given the directory's entries it
//! selects the matching filenames and pairs each with its captures, the
//! substrings its wildcards consumed, empty ones dropped.

use vstd::prelude::*;

use crate::chars::from_chars;
use crate::chars::to_chars;
use crate::errors::MassMoveError;
use crate::glob::glob_captures;
use crate::glob::glob_get_captures;
use crate::glob::glob_is_match;
use crate::glob::glob_match;
use crate::paths::join_path;
use crate::paths::join_path_str;
use crate::paths::split_path;
use crate::paths::split_path_str;

verus! {

/// The capture list with the empty captures removed, order kept.
pub open spec fn drop_empty(cs: Seq<Seq<char>>) -> Seq<Seq<char>>
    decreases cs.len(),
{
    if cs.len() == 0 {
        Seq::empty()
    } else {
        let rest = drop_empty(cs.drop_last());
        if cs.last().len() > 0 {
            rest.push(cs.last())
        } else {
            rest
        }
    }
}

/// The captures a greedy match of `f` against `p` records: one substring
/// per wildcard, those that matched an empty span silently dropped.
pub open spec fn nonempty_captures(p: Seq<char>, f: Seq<char>) -> Seq<Seq<char>> {
    drop_empty(glob_captures(p, f))
}

/// The entries that match `p`, in their original order.
pub open spec fn matching_entries(p: Seq<char>, entries: Seq<Seq<char>>) -> Seq<Seq<char>>
    decreases entries.len(),
{
    if entries.len() == 0 {
        Seq::empty()
    } else {
        let rest = matching_entries(p, entries.drop_last());
        if glob_match(p, entries.last()) {
            rest.push(entries.last())
        } else {
            rest
        }
    }
}

/// A run selects no entry exactly when no entry matches the pattern; a
/// directory whose files were already renamed away from the pattern
/// therefore always reports that the pattern has no files, never an empty
/// success.
pub proof fn lemma_no_matching_entries(p: Seq<char>, es: Seq<Seq<char>>)
    ensures
        matching_entries(p, es).len() == 0 <==> (forall|k: int|
            0 <= k < es.len() ==> !glob_match(p, #[trigger] es[k])),
    decreases es.len(),
{
    if es.len() > 0 {
        lemma_no_matching_entries(p, es.drop_last());
        assert forall|k: int| 0 <= k < es.len() - 1 implies es.drop_last()[k] == #[trigger] es[k] by {}
        assert(es.last() == es[es.len() - 1]);
    }
}

/// Matches filenames against the wildcard pattern of a source path.
pub struct FileMatcher {
    source_pattern: String,
    source_directory: String,
}

/// One matched file: its full path and the captures of its match.
pub struct FileWithMatches {
    filepath: String,
    matches: Vec<String>,
}

impl FileMatcher {
    /// The wildcard filename pattern.
    pub closed spec fn spec_pattern(&self) -> Seq<char> {
        self.source_pattern@
    }

    /// The source directory.
    pub closed spec fn spec_directory(&self) -> Seq<char> {
        self.source_directory@
    }

    /// A matcher over the given directory and wildcard pattern.
    pub fn new(source_directory: String, source_pattern: String) -> (m: FileMatcher)
        ensures
            m.spec_directory() == source_directory@,
            m.spec_pattern() == source_pattern@,
    {
        FileMatcher { source_pattern, source_directory }
    }

    /// Splits a source path into directory and filename pattern; a path
    /// with no derivable parts is an invalid source path.
    pub fn from_source_path(source_path: &str) -> (r: Result<FileMatcher, MassMoveError>)
        ensures
            ({
                match split_path(source_path@) {
                    None => r matches Err(MassMoveError::InvalidSourcePath(p)) && p@
                        == source_path@,
                    Some(parts) => r matches Ok(m) && (m.spec_directory() == parts.0
                        && m.spec_pattern() == parts.1),
                }
            }),
    {
        match split_path_str(source_path) {
            None => Err(MassMoveError::InvalidSourcePath(source_path.to_owned())),
            Some((dir, name)) => Ok(
                FileMatcher { source_pattern: name, source_directory: dir },
            ),
        }
    }

    /// The wildcard filename pattern, as text.
    pub fn source_pattern(&self) -> (r: &String)
        ensures
            r@ == self.spec_pattern(),
    {
        &self.source_pattern
    }

    /// The source directory, as text.
    pub fn source_directory(&self) -> (r: &String)
        ensures
            r@ == self.spec_directory(),
    {
        &self.source_directory
    }

    /// Whether the filename, consumed in full, matches the pattern.
    pub fn is_file_match_pattern(&self, filename: &str) -> (r: Result<bool, MassMoveError>)
        ensures
            r matches Ok(b) && b == glob_match(self.spec_pattern(), filename@),
    {
        let pv = to_chars(self.source_pattern.as_str());
        let fv = to_chars(filename);
        Ok(glob_is_match(&pv, &fv))
    }

    /// The nonempty captures of the file's match, in wildcard order; a
    /// filename that does not match yields no captures.
    pub fn get_file_matches(&self, filename: &str) -> (r: Result<Vec<String>, MassMoveError>)
        ensures
            r is Ok,
            glob_match(self.spec_pattern(), filename@) ==> r->Ok_0.deep_view()
                == nonempty_captures(self.spec_pattern(), filename@),
            !glob_match(self.spec_pattern(), filename@) ==> r->Ok_0@.len() == 0,
    {
        let pv = to_chars(self.source_pattern.as_str());
        let fv = to_chars(filename);
        if glob_is_match(&pv, &fv) {
            let caps = glob_get_captures(&pv, &fv);
            let mut out: Vec<String> = Vec::new();
            let mut i: usize = 0;
            while i < caps.len()
                invariant
                    i <= caps@.len(),
                    out.deep_view() == drop_empty(caps.deep_view().take(i as int)),
                decreases caps@.len() - i,
            {
                proof {
                    let full = caps.deep_view();
                    assert(full.take(i + 1).drop_last() =~= full.take(i as int));
                    assert(full.take(i + 1).last() == full[i as int]);
                }
                if caps[i].len() > 0 {
                    out.push(from_chars(&caps[i]));
                    proof {
                        assert(out.deep_view() =~~= drop_empty(caps.deep_view().take(i + 1)));
                    }
                } else {
                    proof {
                        assert(out.deep_view() =~~= drop_empty(caps.deep_view().take(i + 1)));
                    }
                }
                i = i + 1;
            }
            proof {
                assert(caps.deep_view().take(caps@.len() as int) =~= caps.deep_view());
                assert(caps.deep_view() == glob_captures(self.spec_pattern(), filename@));
            }
            Ok(out)
        } else {
            let out: Vec<String> = Vec::new();
            Ok(out)
        }
    }

    /// The entries that match the pattern, in directory order; when none
    /// does, the pattern has no files.
    pub fn collect_matched_files(&self, entries: &Vec<String>) -> (r: Result<
        Vec<String>,
        MassMoveError,
    >)
        ensures
            ({
                let m = matching_entries(self.spec_pattern(), entries.deep_view());
                if m.len() == 0 {
                    r matches Err(MassMoveError::NoFilesForPattern(p)) && p@ == self.spec_pattern()
                } else {
                    r matches Ok(v) && v.deep_view() == m
                }
            }),
    {
        let pv = to_chars(self.source_pattern.as_str());
        let mut out: Vec<String> = Vec::new();
        let mut i: usize = 0;
        while i < entries.len()
            invariant
                i <= entries@.len(),
                pv@ == self.spec_pattern(),
                out.deep_view() == matching_entries(
                    self.spec_pattern(),
                    entries.deep_view().take(i as int),
                ),
            decreases entries@.len() - i,
        {
            proof {
                let full = entries.deep_view();
                assert(full.take(i + 1).drop_last() =~= full.take(i as int));
                assert(full.take(i + 1).last() == full[i as int]);
            }
            let fv = to_chars(entries[i].as_str());
            if glob_is_match(&pv, &fv) {
                out.push(entries[i].clone());
                proof {
                    assert(out.deep_view() =~~= matching_entries(
                        self.spec_pattern(),
                        entries.deep_view().take(i + 1),
                    ));
                }
            } else {
                proof {
                    assert(out.deep_view() =~~= matching_entries(
                        self.spec_pattern(),
                        entries.deep_view().take(i + 1),
                    ));
                }
            }
            i = i + 1;
        }
        proof {
            assert(entries.deep_view().take(entries@.len() as int) =~= entries.deep_view());
        }
        if out.len() == 0 {
            Err(MassMoveError::NoFilesForPattern(self.source_pattern.clone()))
        } else {
            Ok(out)
        }
    }

    /// Every matching entry of the directory, paired with its full path
    /// and the nonempty captures of its match; when none matches, the
    /// pattern has no files.
    pub fn get_files_with_matches(&self, entries: &Vec<String>) -> (r: Result<
        Vec<FileWithMatches>,
        MassMoveError,
    >)
        ensures
            ({
                let m = matching_entries(self.spec_pattern(), entries.deep_view());
                if m.len() == 0 {
                    r matches Err(MassMoveError::NoFilesForPattern(p)) && p@ == self.spec_pattern()
                } else {
                    r matches Ok(v) && (v@.len() == m.len() && (forall|k: int|
                        0 <= k < m.len() ==> (#[trigger] v@[k]).spec_filepath() == join_path(
                            self.spec_directory(),
                            m[k],
                        ) && v@[k].spec_matches() == nonempty_captures(self.spec_pattern(), m[k])))
                }
            }),
    {
        let pv = to_chars(self.source_pattern.as_str());
        let mut out: Vec<FileWithMatches> = Vec::new();
        let mut i: usize = 0;
        while i < entries.len()
            invariant
                i <= entries@.len(),
                pv@ == self.spec_pattern(),
                ({
                    let m = matching_entries(self.spec_pattern(), entries.deep_view().take(i as int));
                    out@.len() == m.len() && (forall|k: int|
                        0 <= k < m.len() ==> (#[trigger] out@[k]).spec_filepath() == join_path(
                            self.spec_directory(),
                            m[k],
                        ) && out@[k].spec_matches() == nonempty_captures(self.spec_pattern(), m[k]))
                }),
            decreases entries@.len() - i,
        {
            proof {
                let full = entries.deep_view();
                assert(full.take(i + 1).drop_last() =~= full.take(i as int));
                assert(full.take(i + 1).last() == full[i as int]);
            }
            let fv = to_chars(entries[i].as_str());
            if glob_is_match(&pv, &fv) {
                let matches = match self.get_file_matches(entries[i].as_str()) {
                    Ok(ms) => ms,
                    Err(e) => {
                        return Err(e);
                    },
                };
                let filepath = join_path_str(self.source_directory.as_str(), entries[i].as_str());
                out.push(FileWithMatches { filepath, matches });
            }
            i = i + 1;
        }
        proof {
            assert(entries.deep_view().take(entries@.len() as int) =~= entries.deep_view());
        }
        if out.len() == 0 {
            Err(MassMoveError::NoFilesForPattern(self.source_pattern.clone()))
        } else {
            Ok(out)
        }
    }
}

impl FileWithMatches {
    /// The full path of the matched file.
    pub closed spec fn spec_filepath(&self) -> Seq<char> {
        self.filepath@
    }

    /// The views of the captures of the match.
    pub closed spec fn spec_matches(&self) -> Seq<Seq<char>> {
        self.matches.deep_view()
    }

    /// The full path of the matched file, as text.
    pub fn filename(&self) -> (r: &str)
        ensures
            r@ == self.spec_filepath(),
    {
        self.filepath.as_str()
    }

    /// The captures of the match, as text.
    pub fn matches(&self) -> (r: &Vec<String>)
        ensures
            r.deep_view() == self.spec_matches(),
    {
        &self.matches
    }
}

} // verus!
