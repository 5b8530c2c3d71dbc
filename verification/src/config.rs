//! The configuration the move step runs under.

use vstd::prelude::*;

use crate::args::Args;

verus! {

/// The settings of one run: whether existing targets may be overwritten.
pub struct Config {
    force_move: bool,
}

impl Config {
    /// Whether existing targets may be overwritten.
    pub closed spec fn spec_force_move(&self) -> bool {
        self.force_move
    }

    /// The default configuration: existing targets are kept.
    pub fn new() -> (c: Config)
        ensures
            !c.spec_force_move(),
    {
        Config { force_move: false }
    }

    /// The configuration the command line arguments ask for.
    pub fn from_args(args: &Args) -> (c: Config)
        ensures
            c.spec_force_move() == args.spec_force(),
    {
        Config { force_move: args.force() }
    }

    /// Whether existing targets may be overwritten.
    pub fn force_move(&self) -> (r: bool)
        ensures
            r == self.spec_force_move(),
    {
        self.force_move
    }
}

} // verus!
