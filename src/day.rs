//! The interface every day implements, and the shared run that times each part.

use vstd::prelude::*;
use crate::duration::{pretty, PrettyDuration};
use crate::text::{decimal, push_decimal, push_two_digits, two_digits};

verus! {

#[verifier::external_type_specification]
#[verifier::external_body]
pub struct ExInstant(std::time::Instant);

/// Relies on Instant::now: reads the monotonic clock. Nothing is known of the value.
pub assume_specification[ std::time::Instant::now ]() -> std::time::Instant;

/// Relies on Instant::elapsed: the time passed since the instant. Nothing is known of
/// the value.
pub assume_specification[ std::time::Instant::elapsed ](i: &std::time::Instant) -> core::time::Duration;

/// Relies on Duration::as_nanos: the span in whole nanoseconds. Nothing is known of
/// the value, as the span itself is opaque.
pub assume_specification[ core::time::Duration::as_nanos ](d: &core::time::Duration) -> u128;

/// One day's puzzle: built from its already loaded input and the parts to run, it
/// answers each part with a (day number, result) pair computed from that input.
pub trait AoCDay: Sized {
    /// The input text the day was built from.
    spec fn input(&self) -> Seq<char>;

    /// Whether part 1 is to run.
    spec fn runs_part1(&self) -> bool;

    /// Whether part 2 is to run.
    spec fn runs_part2(&self) -> bool;

    /// The answer to part 1: the day number and the result text.
    spec fn answer1(&self) -> (u8, Seq<char>);

    /// The answer to part 2: the day number and the result text.
    spec fn answer2(&self) -> (u8, Seq<char>);

    fn new(input: String, part1: bool, part2: bool) -> (r: Self)
        ensures
            r.input() == input@,
            r.runs_part1() == part1,
            r.runs_part2() == part2,
    ;

    fn part1(&self) -> (r: (u8, String))
        ensures
            r.0 == self.answer1().0,
            r.1@ == self.answer1().1,
    ;

    fn part2(&self) -> (r: (u8, String))
        ensures
            r.0 == self.answer2().0,
            r.1@ == self.answer2().1,
    ;

    fn should_run_part1(&self) -> (r: bool)
        ensures
            r == self.runs_part1(),
    ;

    fn should_run_part2(&self) -> (r: bool)
        ensures
            r == self.runs_part2(),
    ;
}

/// The outcome of one part: its day, which part, the result and the time the
/// computation took, in nanoseconds.
pub struct PartReport {
    pub day: u8,
    pub part: u8,
    pub result: String,
    pub nanos: u128,
}

/// The printed line of a part: "Day{DD} Part {P}: {result} ({duration})".
pub open spec fn report_line(day: u8, part: u8, result: Seq<char>, nanos: u128) -> Seq<char> {
    "Day"@ + two_digits(day as nat) + " Part "@ + decimal(part as nat) + ": "@ + result + " ("@
        + pretty(nanos as nat) + ")"@
}

impl PartReport {
    /// The line that reports this part.
    pub fn line(&self) -> (r: String)
        ensures
            r@ == report_line(self.day, self.part, self.result@, self.nanos),
    {
        let mut s = String::new();
        s.append("Day");
        push_two_digits(&mut s, self.day as u128);
        s.append(" Part ");
        push_decimal(&mut s, self.part as u128);
        s.append(": ");
        s.append(self.result.as_str());
        s.append(" (");
        let d = PrettyDuration(self.nanos).to_string();
        s.append(d.as_str());
        s.append(")");
        s
    }
}

/// Computes part `part` of `day`, timing only the computation itself.
fn timed_part<D: AoCDay>(day: &D, part: u8) -> (r: PartReport)
    requires
        part == 1 || part == 2,
    ensures
        r.part == part,
        part == 1 ==> r.day == day.answer1().0 && r.result@ == day.answer1().1,
        part == 2 ==> r.day == day.answer2().0 && r.result@ == day.answer2().1,
{
    let started = std::time::Instant::now();
    let answer = if part == 1 {
        day.part1()
    } else {
        day.part2()
    };
    let elapsed = started.elapsed();
    PartReport { day: answer.0, part, result: answer.1, nanos: elapsed.as_nanos() }
}

/// Runs the parts that `day` is to run, part 1 before part 2, each timed on its own.
pub fn run_day<D: AoCDay>(day: &D) -> (r: Vec<PartReport>)
    ensures
        r@.len() == (if day.runs_part1() {
            1nat
        } else {
            0nat
        }) + (if day.runs_part2() {
            1nat
        } else {
            0nat
        }),
        day.runs_part1() ==> r@[0].part == 1 && r@[0].day == day.answer1().0 && r@[0].result@
            == day.answer1().1,
        day.runs_part2() ==> r@.last().part == 2 && r@.last().day == day.answer2().0
            && r@.last().result@ == day.answer2().1,
{
    let mut reports: Vec<PartReport> = Vec::new();
    if day.should_run_part1() {
        reports.push(timed_part(day, 1));
    }
    if day.should_run_part2() {
        reports.push(timed_part(day, 2));
    }
    reports
}

/// The path of the input file of day `day` under the directory `root`:
/// `{root}\src\inputs\day{DD}`.
pub fn input_path(root: &str, day: u8) -> (r: String)
    ensures
        r@ == root@ + "\\src\\inputs\\day"@ + two_digits(day as nat),
{
    let mut s = String::new();
    s.append(root);
    s.append("\\src\\inputs\\day");
    push_two_digits(&mut s, day as u128);
    s
}

} // verus!
