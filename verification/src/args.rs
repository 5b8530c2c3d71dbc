//! The command line arguments the tool receives: the source path, the
//! target path, and whether existing targets may be overwritten.

use vstd::prelude::*;

verus! {

/// The tool's arguments as plain values.
pub struct Args {
    force: bool,
    source_path: String,
    target_path: String,
}

impl Args {
    /// Whether overwriting existing targets was requested.
    pub closed spec fn spec_force(&self) -> bool {
        self.force
    }

    /// The source path argument.
    pub closed spec fn spec_source_path(&self) -> Seq<char> {
        self.source_path@
    }

    /// The target path argument.
    pub closed spec fn spec_target_path(&self) -> Seq<char> {
        self.target_path@
    }

    /// Arguments from their parts.
    pub fn new(force: bool, source_path: String, target_path: String) -> (a: Args)
        ensures
            a.spec_force() == force,
            a.spec_source_path() == source_path@,
            a.spec_target_path() == target_path@,
    {
        Args { force, source_path, target_path }
    }

    /// The source path argument, as text.
    pub fn source_path(&self) -> (r: &str)
        ensures
            r@ == self.spec_source_path(),
    {
        self.source_path.as_str()
    }

    /// The target path argument, as text.
    pub fn target_path(&self) -> (r: &str)
        ensures
            r@ == self.spec_target_path(),
    {
        self.target_path.as_str()
    }

    /// Whether overwriting existing targets was requested.
    pub fn force(&self) -> (r: bool)
        ensures
            r == self.spec_force(),
    {
        self.force
    }
}

} // verus!
