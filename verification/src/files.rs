//! What reading a file gave, and how a file is written.

use vstd::prelude::*;
use vstd::string::StringExecFns;
use crate::error::BootrError;
use crate::text::child;
use crate::text::joined;
use crate::text::join;

verus! {

/// What was found of a file that holds a record.
#[derive(Debug)]
pub enum FileProbe<T> {
    /// There is no such file.
    Missing,
    /// There is one, but it could not be read.
    Unreadable,
    /// There is one, and what it holds is no record of the kind asked for.
    Invalid,
    /// The record that the file holds.
    Loaded(T),
}

impl<T> FileProbe<T> {
    /// The record, or why there is none: `NotFound` for a file that is
    /// missing, `Io` for one that cannot be read, `InvalidData` for one
    /// that holds something else.
    pub fn loaded(self) -> (r: Result<T, BootrError>)
        ensures
            r == match self {
                FileProbe::Missing => Err::<T, BootrError>(BootrError::NotFound),
                FileProbe::Unreadable => Err::<T, BootrError>(BootrError::Io),
                FileProbe::Invalid => Err::<T, BootrError>(BootrError::InvalidData),
                FileProbe::Loaded(record) => Ok::<T, BootrError>(record),
            },
    {
        match self {
            FileProbe::Missing => Err(BootrError::NotFound),
            FileProbe::Unreadable => Err(BootrError::Io),
            FileProbe::Invalid => Err(BootrError::InvalidData),
            FileProbe::Loaded(record) => Ok(record),
        }
    }
}

/// How a file is written so that it is never seen half written: the
/// content goes to `temp`, which is then renamed to `dest`.
#[derive(Debug, PartialEq, Eq)]
pub struct WritePlan {
    pub temp: String,
    pub dest: String,
}

/// What ends the name under which a file is written before it gets its
/// own.
pub const TEMP_SUFFIX: &'static str = ".tmp";

/// The plan writes the file at `dest`.
pub open spec fn writes_to(plan: WritePlan, dest: Seq<char>) -> bool {
    plan.dest@ == dest && plan.temp@ == dest + TEMP_SUFFIX@
}

/// The plan writes the file `name` of the directory `dir`.
pub open spec fn writes(plan: WritePlan, dir: Seq<char>, name: Seq<char>) -> bool {
    writes_to(plan, child(dir, name))
}

/// How the file at `dest` is written.
pub fn plan_for(dest: &str) -> (r: WritePlan)
    ensures
        writes_to(r, dest@),
{
    WritePlan { temp: joined(dest, TEMP_SUFFIX), dest: String::from_str(dest) }
}

/// How the file `name` of the directory `dir` is written. Fails with
/// `NotFound` where `present` says that the directory does not exist.
pub fn write_plan(dir: &str, name: &str, present: bool) -> (r: Result<WritePlan, BootrError>)
    ensures
        !present ==> r == Err::<WritePlan, BootrError>(BootrError::NotFound),
        present ==> r is Ok && writes(r->Ok_0, dir@, name@),
{
    if !present {
        return Err(BootrError::NotFound);
    }
    let dest = join(dir, name);
    Ok(plan_for(dest.as_str()))
}

} // verus!
