//! Planning and validating the moves of the matched files.
//!
//! The plan pairs every matched file with its resolved target path; the
//! validation of one target decides, from what the filesystem reports,
//! whether the move may proceed. The moves themselves are filesystem work
//! and stay outside the library.

use vstd::prelude::*;

use crate::config::Config;
use crate::errors::MassMoveError;
use crate::file_matcher::matching_entries;
use crate::file_matcher::nonempty_captures;
use crate::file_matcher::FileMatcher;
use crate::paths::join_path;
use crate::paths::split_path;
use crate::paths::split_path_str;
use crate::pattern::caps_view;
use crate::pattern::insert_matches_in_target;
use crate::pattern::interp;
use crate::pattern::position_message;

verus! {

/// One planned move: the file's current path and its target path.
pub struct MoveFiles {
    pub from: String,
    pub to: String,
}

/// The target text for file `f` under pattern `p` and template `t`: the
/// captures of the match, empty ones dropped, substituted into `t`.
pub open spec fn target_of(p: Seq<char>, f: Seq<char>, t: Seq<char>) -> Result<Seq<char>, nat> {
    interp(nonempty_captures(p, f), t)
}

/// Builds the full move plan for a run: derives the matcher from the
/// source path, selects the matching entries, and resolves each one's
/// target from the template. Fails on an invalid source path, when no
/// entry matches, or on the first file whose target template references
/// an invalid capture position.
pub fn plan_moves(source_path: &str, target_path: &str, entries: &Vec<String>) -> (r: Result<
    Vec<MoveFiles>,
    MassMoveError,
>)
    ensures
        ({
            match split_path(source_path@) {
                None => r matches Err(MassMoveError::InvalidSourcePath(p)) && p@ == source_path@,
                Some(parts) => {
                    let m = matching_entries(parts.1, entries.deep_view());
                    if m.len() == 0 {
                        r matches Err(MassMoveError::NoFilesForPattern(p)) && p@ == parts.1
                    } else if forall|k: int|
                        0 <= k < m.len() ==> (#[trigger] target_of(
                            parts.1,
                            m[k],
                            target_path@,
                        )) is Ok {
                        r matches Ok(v) && (v@.len() == m.len() && forall|k: int|
                            0 <= k < m.len() ==> (#[trigger] v@[k]).from@ == join_path(
                                parts.0,
                                m[k],
                            ) && v@[k].to@ == target_of(parts.1, m[k], target_path@)->Ok_0)
                    } else {
                        r is Err && (exists|j: int|
                            0 <= j < m.len() && (#[trigger] target_of(
                                parts.1,
                                m[j],
                                target_path@,
                            )) is Err && (forall|k: int|
                                0 <= k < j ==> (#[trigger] target_of(
                                    parts.1,
                                    m[k],
                                    target_path@,
                                )) is Ok) && (r->Err_0 matches MassMoveError::InvalidTargetPath(
                                msg,
                            ) && msg@ == position_message(
                                target_of(parts.1, m[j], target_path@)->Err_0,
                            )))
                    }
                },
            }
        }),
{
    let matcher = match FileMatcher::from_source_path(source_path) {
        Ok(m) => m,
        Err(e) => {
            return Err(e);
        },
    };
    let files = match matcher.get_files_with_matches(entries) {
        Ok(fs) => fs,
        Err(e) => {
            return Err(e);
        },
    };
    let ghost pat = matcher.spec_pattern();
    let ghost dir = matcher.spec_directory();
    let ghost m = matching_entries(pat, entries.deep_view());
    let mut out: Vec<MoveFiles> = Vec::new();
    let mut i: usize = 0;
    while i < files.len()
        invariant
            i <= files@.len(),
            files@.len() == m.len(),
            split_path(source_path@) == Some((dir, pat)),
            m == matching_entries(pat, entries.deep_view()),
            forall|k: int|
                0 <= k < m.len() ==> (#[trigger] files@[k]).spec_filepath() == join_path(
                    dir,
                    m[k],
                ) && files@[k].spec_matches() == nonempty_captures(pat, m[k]),
            out@.len() == i,
            forall|k: int|
                0 <= k < i ==> (#[trigger] target_of(pat, m[k], target_path@)) is Ok,
            forall|k: int|
                0 <= k < i ==> (#[trigger] out@[k]).from@ == join_path(dir, m[k]) && out@[k].to@
                    == target_of(pat, m[k], target_path@)->Ok_0,
        decreases files@.len() - i,
    {
        let file = &files[i];
        let ms = file.matches();
        proof {
            assert(caps_view(ms@) =~~= file.spec_matches());
        }
        let to = match insert_matches_in_target(ms.as_slice(), target_path) {
            Ok(t) => t,
            Err(e) => {
                proof {
                    assert(caps_view(ms@) == nonempty_captures(pat, m[i as int]));
                    assert(target_of(pat, m[i as int], target_path@) is Err);
                    assert(exists|j: int|
                        0 <= j < m.len() && (#[trigger] target_of(pat, m[j], target_path@)) is Err
                            && (forall|k: int|
                            0 <= k < j ==> (#[trigger] target_of(pat, m[k], target_path@)) is Ok)
                            && (e matches MassMoveError::InvalidTargetPath(msg) && msg@
                            == position_message(target_of(pat, m[j], target_path@)->Err_0)));
                }
                return Err(e);
            },
        };
        let from = file.filename().to_owned();
        out.push(MoveFiles { from, to });
        i = i + 1;
    }
    Ok(out)
}

/// Moves the planned files under a configuration.
pub struct FilesMover {
    config: Config,
    files_to_move: Vec<MoveFiles>,
}

impl FilesMover {
    /// Whether existing targets may be overwritten.
    pub closed spec fn spec_force_move(&self) -> bool {
        self.config.spec_force_move()
    }

    /// The planned moves.
    pub closed spec fn spec_files(&self) -> Seq<MoveFiles> {
        self.files_to_move@
    }

    /// A mover over a configuration and a plan.
    pub fn new(config: Config, files_to_move: Vec<MoveFiles>) -> (m: FilesMover)
        ensures
            m.spec_force_move() == config.spec_force_move(),
            m.spec_files() == files_to_move@,
    {
        FilesMover { config, files_to_move }
    }

    /// The planned moves, in order.
    pub fn files_to_move(&self) -> (r: &Vec<MoveFiles>)
        ensures
            r@ == self.spec_files(),
    {
        &self.files_to_move
    }

    /// Whether existing targets may be overwritten.
    pub fn force_move(&self) -> (r: bool)
        ensures
            r == self.spec_force_move(),
    {
        self.config.force_move()
    }

    /// Decides whether one target path may be moved to, given what the
    /// filesystem reports: whether the target's parent directory exists
    /// and whether the target itself does. A target with no derivable
    /// parts is invalid; a missing nonempty parent directory is not
    /// found; an existing target is kept unless overwriting is on.
    pub fn correct_target_path(
        &self,
        target_path: &str,
        parent_exists: bool,
        target_exists: bool,
    ) -> (r: Result<(), MassMoveError>)
        ensures
            ({
                match split_path(target_path@) {
                    None => r matches Err(MassMoveError::InvalidTargetPath(p)) && p@
                        == target_path@,
                    Some(parts) => {
                        if parts.0.len() > 0 && !parent_exists {
                            r matches Err(MassMoveError::DirectoryNotFound(d)) && d@ == parts.0
                        } else if !self.spec_force_move() && target_exists {
                            r matches Err(MassMoveError::FileAlreadyExists(p)) && p@
                                == target_path@
                        } else {
                            r is Ok
                        }
                    },
                }
            }),
    {
        match split_path_str(target_path) {
            None => Err(MassMoveError::InvalidTargetPath(target_path.to_owned())),
            Some((dir, _name)) => {
                if !dir.as_str().is_empty() && !parent_exists {
                    Err(MassMoveError::DirectoryNotFound(dir))
                } else if !self.config.force_move() && target_exists {
                    Err(MassMoveError::FileAlreadyExists(target_path.to_owned()))
                } else {
                    Ok(())
                }
            },
        }
    }
}

} // verus!
