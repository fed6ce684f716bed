use rustaoc::cli::{Args, ArgsError};
use rustaoc::day::{input_path, AoCDay, PartReport};
use rustaoc::day_template::{run, DayXXX2dayXXX, DAY};
use rustaoc::dispatch::{plan, running_notice, select, DispatchError, Step};
use rustaoc::duration::PrettyDuration;
use rustaoc::registry::{day_number, RegistryEntry, RegistryError};

fn args(day: Option<u8>, part1: bool, part2: bool, concurrent: bool) -> Args {
    Args::new(day, part1, part2, concurrent).unwrap()
}

fn registry(names: &[&str]) -> Vec<RegistryEntry<usize>> {
    names
        .iter()
        .enumerate()
        .map(|(i, n)| RegistryEntry::new(n.to_string(), i).unwrap())
        .collect()
}

#[test]
fn part1_only_runs_part1() {
    assert_eq!(args(None, true, false, false).parts_to_run(), (true, false));
}

#[test]
fn part2_only_runs_part2() {
    assert_eq!(args(Some(3), false, true, true).parts_to_run(), (false, true));
}

#[test]
fn no_part_flag_runs_both() {
    assert_eq!(args(None, false, false, false).parts_to_run(), (true, true));
    assert_eq!(args(Some(1), false, false, true).parts_to_run(), (true, true));
}

#[test]
fn both_part_flags_resolve_to_both() {
    let a = Args { day: None, part1: true, part2: true, concurrent: false };
    assert_eq!(a.parts_to_run(), (true, true));
}

#[test]
fn both_part_flags_are_refused() {
    assert_eq!(Args::new(Some(2), true, true, false).err(), Some(ArgsError::ConflictingParts));
    assert_eq!(Args::new(None, true, true, true).err(), Some(ArgsError::ConflictingParts));
}

#[test]
fn args_keep_their_fields() {
    let a = args(Some(12), false, true, true);
    assert_eq!(a.day, Some(12));
    assert!(!a.part1);
    assert!(a.part2);
    assert!(a.concurrent);
}

#[test]
fn day_numbers_from_names() {
    assert_eq!(day_number("day01"), Some(1));
    assert_eq!(day_number("day7"), Some(7));
    assert_eq!(day_number("day25"), Some(25));
    assert_eq!(day_number("day255"), Some(255));
    assert_eq!(day_number("day0001"), Some(1));
    assert_eq!(day_number("day+3"), Some(3));
}

#[test]
fn names_without_a_day_number() {
    assert_eq!(day_number("day"), None);
    assert_eq!(day_number("day+"), None);
    assert_eq!(day_number("day256"), None);
    assert_eq!(day_number("day1000"), None);
    assert_eq!(day_number("day-1"), None);
    assert_eq!(day_number("day1a"), None);
    assert_eq!(day_number("Day01"), None);
    assert_eq!(day_number("dy01"), None);
    assert_eq!(day_number(""), None);
}

#[test]
fn registering_a_bad_name_fails() {
    let r = RegistryEntry::new("template".to_string(), 0u8);
    assert_eq!(r.err(), Some(RegistryError::InvalidDayName("template".to_string())));
}

#[test]
fn registering_a_day_keeps_name_and_entry() {
    let e = RegistryEntry::new("day09".to_string(), 42u32).unwrap();
    assert_eq!(e.day, 9);
    assert_eq!(e.name, "day09");
    assert_eq!(e.entry, 42);
}

#[test]
fn select_present_day_once() {
    let reg = registry(&["day01", "day02", "day05"]);
    assert_eq!(select(&reg, Some(2)), vec![1]);
}

#[test]
fn select_absent_day_is_empty() {
    let reg = registry(&["day01", "day02"]);
    assert_eq!(select(&reg, Some(9)), Vec::<usize>::new());
}

#[test]
fn select_keeps_duplicates_in_order() {
    let reg = registry(&["day03", "day01", "day3"]);
    assert_eq!(select(&reg, Some(3)), vec![0, 2]);
}

#[test]
fn select_all_when_no_day() {
    let reg = registry(&["day04", "day01", "day02"]);
    assert_eq!(select(&reg, None), vec![0, 1, 2]);
}

#[test]
fn absent_day_plans_nothing() {
    let reg = registry(&["day01", "day02"]);
    let r = plan(&args(Some(9), false, false, false), &reg);
    assert_eq!(r.err(), Some(DispatchError::DayNotFound(9)));
    let r = plan(&args(Some(9), true, false, true), &reg);
    assert_eq!(r.err(), Some(DispatchError::DayNotFound(9)));
}

#[test]
fn empty_registry_plans_nothing() {
    let reg: Vec<RegistryEntry<usize>> = Vec::new();
    let r = plan(&args(None, false, false, false), &reg);
    assert_eq!(r.err(), Some(DispatchError::NoDaysRegistered));
}

#[test]
fn sequential_plan_announces_in_order() {
    let reg = registry(&["day01", "day02", "day03"]);
    let p = plan(&args(None, false, true, false), &reg).unwrap();
    assert_eq!(p.tasks.len(), 1);
    assert_eq!(
        p.tasks[0],
        vec![
            Step::Announce(0),
            Step::Invoke(0, false, true),
            Step::Announce(1),
            Step::Invoke(1, false, true),
            Step::Announce(2),
            Step::Invoke(2, false, true),
        ]
    );
}

#[test]
fn sequential_plan_of_one_day() {
    let reg = registry(&["day01", "day02", "day03"]);
    let p = plan(&args(Some(2), true, false, false), &reg).unwrap();
    assert_eq!(p.tasks, vec![vec![Step::Announce(1), Step::Invoke(1, true, false)]]);
}

#[test]
fn concurrent_plan_has_one_task_per_day() {
    let reg = registry(&["day01", "day02", "day03"]);
    let p = plan(&args(None, false, false, true), &reg).unwrap();
    assert_eq!(p.tasks.len(), 3);
    for (k, task) in p.tasks.iter().enumerate() {
        assert_eq!(task, &vec![Step::Announce(k), Step::Invoke(k, true, true)]);
    }
    let notices = p
        .tasks
        .iter()
        .flatten()
        .filter(|s| matches!(s, Step::Announce(_)))
        .count();
    assert_eq!(notices, 3);
}

#[test]
fn running_notice_names_the_day() {
    assert_eq!(running_notice(&"day04".to_string()), "Running day04");
}

#[test]
fn not_found_messages() {
    assert_eq!(DispatchError::DayNotFound(9).message(), "Error: Day 9 not found or not implemented");
    assert_eq!(DispatchError::DayNotFound(17).message(), "Error: Day 17 not found or not implemented");
    assert_eq!(DispatchError::NoDaysRegistered.message(), "Error: no days are registered");
}

#[test]
fn duration_examples() {
    assert_eq!(PrettyDuration(1_500_000_000).to_string(), "1.5s");
    assert_eq!(PrettyDuration(2_000_000).to_string(), "2ms");
    assert_eq!(PrettyDuration(500).to_string(), "500ns");
    assert_eq!(PrettyDuration(1_000).to_string(), "1\u{b5}s");
    assert_eq!(PrettyDuration(0).to_string(), "0ns");
}

#[test]
fn duration_rounding_and_trimming() {
    assert_eq!(PrettyDuration(999_999_999).to_string(), "1000ms");
    assert_eq!(PrettyDuration(1_234_567).to_string(), "1.23ms");
    assert_eq!(PrettyDuration(1_235_000).to_string(), "1.24ms");
    assert_eq!(PrettyDuration(1_005).to_string(), "1.01\u{b5}s");
    assert_eq!(PrettyDuration(1_004).to_string(), "1\u{b5}s");
    assert_eq!(PrettyDuration(10_000_000_000).to_string(), "10s");
    assert_eq!(PrettyDuration(120_500_000_000).to_string(), "120.5s");
    assert_eq!(PrettyDuration(999).to_string(), "999ns");
    assert_eq!(PrettyDuration(1_999_999).to_string(), "2ms");
}

#[test]
fn duration_of_largest_span() {
    let s = PrettyDuration(u128::MAX).to_string();
    assert_eq!(s, "340282366920938463463374607431.77s");
}

#[test]
fn report_lines() {
    let r = PartReport { day: 3, part: 1, result: "42".to_string(), nanos: 1_500_000_000 };
    assert_eq!(r.line(), "Day03 Part 1: 42 (1.5s)");
    let r = PartReport { day: 14, part: 2, result: String::new(), nanos: 500 };
    assert_eq!(r.line(), "Day14 Part 2:  (500ns)");
}

#[test]
fn input_paths_are_zero_padded() {
    assert_eq!(input_path("root", 7), "root\\src\\inputs\\day07");
    assert_eq!(input_path("C:\\aoc", 12), "C:\\aoc\\src\\inputs\\day12");
    assert_eq!(input_path("", 0), "\\src\\inputs\\day00");
}

#[test]
fn template_runs_requested_parts_in_order() {
    let both = run("input".to_string(), true, true);
    assert_eq!(both.len(), 2);
    assert_eq!((both[0].day, both[0].part, both[0].result.as_str()), (DAY, 1, ""));
    assert_eq!((both[1].day, both[1].part, both[1].result.as_str()), (DAY, 2, ""));
    let only2 = run(String::new(), false, true);
    assert_eq!(only2.len(), 1);
    assert_eq!(only2[0].part, 2);
    let only1 = run(String::new(), true, false);
    assert_eq!(only1.len(), 1);
    assert_eq!(only1[0].part, 1);
    assert!(run(String::new(), false, false).is_empty());
}

#[test]
fn template_day_keeps_its_input() {
    let d = <DayXXX2dayXXX as AoCDay>::new("line one\nline two".to_string(), true, false);
    assert_eq!(d.0, "line one\nline two");
    assert!(d.should_run_part1());
    assert!(!d.should_run_part2());
    assert_eq!(d.part1(), (DAY, String::new()));
    assert_eq!(d.part2(), (DAY, String::new()));
}
