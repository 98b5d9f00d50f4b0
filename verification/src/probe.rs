//! Asking the disk whether a file is there, with a record of which path was
//! asked about and what the answer was.

use vstd::prelude::*;
use crate::config::path_exists;

verus! {

/// One question to the disk and its answer. Only `DiskProbe::of` makes one,
/// so a probe always records a question that was really asked.
#[derive(Debug)]
pub struct DiskProbe {
    path: String,
    found: bool,
}

impl DiskProbe {
    /// The path that was asked about.
    pub closed spec fn asked(&self) -> Seq<char> {
        self.path@
    }

    /// What the disk answered: whether something was at that path.
    pub closed spec fn answer(&self) -> bool {
        self.found
    }

    /// Asks the disk whether something is at `path`.
    pub fn of(path: &String) -> (p: DiskProbe)
        ensures
            p.asked() == path@,
    {
        DiskProbe { path: path.clone(), found: path_exists(path.as_str()) }
    }

    /// The answer that was given.
    pub fn found(&self) -> (b: bool)
        ensures
            b == self.answer(),
    {
        self.found
    }
}

} // verus!
