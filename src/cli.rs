//! The command-line model: which day, which parts, and whether to run concurrently.

use vstd::prelude::*;

verus! {

/// Options of one invocation. `part1` and `part2` exclude each other.
pub struct Args {
    /// Specific day to run (1-25); all days when absent.
    pub day: Option<u8>,
    /// Run only part 1.
    pub part1: bool,
    /// Run only part 2.
    pub part2: bool,
    /// Run the selected days concurrently.
    pub concurrent: bool,
}

/// Why a set of options is refused.
#[derive(Debug, PartialEq, Eq, Structural)]
pub enum ArgsError {
    /// Both `--part1` and `--part2` were given.
    ConflictingParts,
}

/// The parts to run for the given flags: only part 1, only part 2, or both when
/// neither (or, degenerately, both) is set.
pub open spec fn resolve_parts(part1: bool, part2: bool) -> (bool, bool) {
    if part1 && !part2 {
        (true, false)
    } else if !part1 && part2 {
        (false, true)
    } else {
        (true, true)
    }
}

impl Args {
    /// Options from parsed flags; fails exactly when both part flags are set.
    pub fn new(day: Option<u8>, part1: bool, part2: bool, concurrent: bool) -> (r: Result<
        Args,
        ArgsError,
    >)
        ensures
            part1 && part2 ==> r == Err::<Args, ArgsError>(ArgsError::ConflictingParts),
            !(part1 && part2) ==> (r matches Ok(a) && a.day == day && a.part1 == part1
                && a.part2 == part2 && a.concurrent == concurrent),
    {
        if part1 && part2 {
            Err(ArgsError::ConflictingParts)
        } else {
            Ok(Args { day, part1, part2, concurrent })
        }
    }

    /// Returns (should_run_part1, should_run_part2).
    pub fn parts_to_run(&self) -> (r: (bool, bool))
        ensures
            r == resolve_parts(self.part1, self.part2),
    {
        match (self.part1, self.part2) {
            (true, false) => (true, false),
            (false, true) => (false, true),
            _ => (true, true),
        }
    }
}

} // verus!
