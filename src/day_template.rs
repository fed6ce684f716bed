//! The template from which each day's module is made: its parts answer nothing yet.

use vstd::prelude::*;
use crate::day::{run_day, AoCDay, PartReport};

verus! {

/// The day number this module answers for; each copy of the template sets its own.
pub const DAY: u8 = 1;

/// A day built from its input text and the flags (run part 1, run part 2).
pub struct DayXXX2dayXXX(pub String, pub bool, pub bool);

/// Builds the day from its loaded input and runs the requested parts.
pub fn run(input: String, part1: bool, part2: bool) -> (r: Vec<PartReport>)
    ensures
        r@.len() == (if part1 {
            1nat
        } else {
            0nat
        }) + (if part2 {
            1nat
        } else {
            0nat
        }),
        part1 ==> r@[0].part == 1,
        part2 ==> r@.last().part == 2,
        forall|i: int| 0 <= i < r@.len() ==> r@[i].day == DAY && r@[i].result@.len() == 0,
{
    let day = DayXXX2dayXXX::new(input, part1, part2);
    run_day(&day)
}

impl AoCDay for DayXXX2dayXXX {
    open spec fn input(&self) -> Seq<char> {
        self.0@
    }

    open spec fn runs_part1(&self) -> bool {
        self.1
    }

    open spec fn runs_part2(&self) -> bool {
        self.2
    }

    open spec fn answer1(&self) -> (u8, Seq<char>) {
        (DAY, Seq::empty())
    }

    open spec fn answer2(&self) -> (u8, Seq<char>) {
        (DAY, Seq::empty())
    }

    fn new(input: String, part1: bool, part2: bool) -> (r: Self) {
        DayXXX2dayXXX(input, part1, part2)
    }

    fn part1(&self) -> (r: (u8, String)) {
        (DAY, String::new())
    }

    fn part2(&self) -> (r: (u8, String)) {
        (DAY, String::new())
    }

    fn should_run_part1(&self) -> (r: bool) {
        self.1
    }

    fn should_run_part2(&self) -> (r: bool) {
        self.2
    }
}

} // verus!
