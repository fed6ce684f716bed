//! Choosing which registered days run, and in what steps.
//!
//! A dispatch plan is a list of tasks; each task is a list of steps performed in
//! order. Sequential dispatch is one task that announces and invokes each selected
//! entry in registry order; concurrent dispatch is one independent task per entry.

use vstd::prelude::*;
use crate::cli::{resolve_parts, Args};
use crate::registry::RegistryEntry;
use crate::text::{decimal, push_decimal};

verus! {

/// One step of a task.
#[derive(Debug, Clone, Copy, PartialEq, Eq)]
pub enum Step {
    /// Print the "Running {name}" notice of the registry entry at this index.
    Announce(usize),
    /// Call the entry point at this index with the flags (run part 1, run part 2).
    Invoke(usize, bool, bool),
}

/// Why nothing can be dispatched.
#[derive(Debug, PartialEq, Eq, Structural)]
pub enum DispatchError {
    /// The requested day is not registered.
    DayNotFound(u8),
    /// No day was requested and none is registered.
    NoDaysRegistered,
}

/// The tasks to run, each a list of steps in order.
pub struct DispatchPlan {
    pub tasks: Vec<Vec<Step>>,
}

impl DispatchPlan {
    pub open spec fn view(&self) -> Seq<Seq<Step>> {
        self.tasks@.map_values(|t: Vec<Step>| t@)
    }
}

/// Whether a registry entry of day `entry_day` is selected by the requested day.
pub open spec fn selects(day: Option<u8>, entry_day: u8) -> bool {
    match day {
        Some(d) => entry_day == d,
        None => true,
    }
}

/// The indices of the entries selected by `day`, in registry order: those of that
/// day number, or all of them when no day is requested.
pub open spec fn selection<F>(entries: Seq<RegistryEntry<F>>, day: Option<u8>) -> Seq<usize>
    decreases entries.len(),
{
    if entries.len() == 0 {
        seq![]
    } else {
        let earlier = selection(entries.drop_last(), day);
        if selects(day, entries.last().day) {
            earlier.push((entries.len() - 1) as usize)
        } else {
            earlier
        }
    }
}

/// The steps of one entry: its notice, then its entry point.
pub open spec fn entry_steps(i: usize, part1: bool, part2: bool) -> Seq<Step> {
    seq![Step::Announce(i), Step::Invoke(i, part1, part2)]
}

/// The steps of each selected entry, one entry after another.
pub open spec fn sequential_steps(sel: Seq<usize>, part1: bool, part2: bool) -> Seq<Step>
    decreases sel.len(),
{
    if sel.len() == 0 {
        seq![]
    } else {
        sequential_steps(sel.drop_last(), part1, part2) + entry_steps(sel.last(), part1, part2)
    }
}

/// The tasks for a selection: one task per entry when concurrent, else a single task.
pub open spec fn planned_tasks(sel: Seq<usize>, part1: bool, part2: bool, concurrent: bool) -> Seq<
    Seq<Step>,
> {
    if concurrent {
        Seq::new(sel.len(), |k: int| entry_steps(sel[k], part1, part2))
    } else {
        seq![sequential_steps(sel, part1, part2)]
    }
}

/// The entries that the steps announce, in order.
pub open spec fn announced(steps: Seq<Step>) -> Seq<usize>
    decreases steps.len(),
{
    if steps.len() == 0 {
        seq![]
    } else {
        let earlier = announced(steps.drop_last());
        match steps.last() {
            Step::Announce(i) => earlier.push(i),
            Step::Invoke(_, _, _) => earlier,
        }
    }
}

/// The calls that the steps make, in order: (entry, run part 1, run part 2).
pub open spec fn invoked(steps: Seq<Step>) -> Seq<(usize, bool, bool)>
    decreases steps.len(),
{
    if steps.len() == 0 {
        seq![]
    } else {
        let earlier = invoked(steps.drop_last());
        match steps.last() {
            Step::Announce(_) => earlier,
            Step::Invoke(i, part1, part2) => earlier.push((i, part1, part2)),
        }
    }
}

/// The "Running {name}" notice of each entry in `indices`, in order.
pub open spec fn notices<F>(entries: Seq<RegistryEntry<F>>, indices: Seq<usize>) -> Seq<Seq<char>> {
    indices.map_values(|i: usize| "Running "@ + entries[i as int].name@)
}

/// The calls of the entries in `indices`, in order, each with the same flags.
pub open spec fn calls(indices: Seq<usize>, part1: bool, part2: bool) -> Seq<(usize, bool, bool)> {
    indices.map_values(|i: usize| (i, part1, part2))
}

/// The error for an empty selection.
pub open spec fn not_found(day: Option<u8>) -> DispatchError {
    match day {
        Some(d) => DispatchError::DayNotFound(d),
        None => DispatchError::NoDaysRegistered,
    }
}

/// What dispatching `args` over `entries` amounts to: an error where nothing is
/// selected, else the tasks over the selection with the resolved part flags.
pub open spec fn dispatch_of<F>(args: Args, entries: Seq<RegistryEntry<F>>) -> Result<
    Seq<Seq<Step>>,
    DispatchError,
> {
    let sel = selection(entries, args.day);
    let parts = resolve_parts(args.part1, args.part2);
    if sel.len() == 0 {
        Err(not_found(args.day))
    } else {
        Ok(planned_tasks(sel, parts.0, parts.1, args.concurrent))
    }
}

/// The indices of the entries of day `day` (all entries when `None`), in registry order.
pub fn select<F>(entries: &Vec<RegistryEntry<F>>, day: Option<u8>) -> (r: Vec<usize>)
    ensures
        r@ == selection(entries@, day),
{
    let mut r: Vec<usize> = Vec::new();
    let mut i: usize = 0;
    while i < entries.len()
        invariant
            i <= entries@.len(),
            r@ == selection(entries@.take(i as int), day),
        decreases entries@.len() - i,
    {
        assert(entries@.take(i + 1).drop_last() =~= entries@.take(i as int));
        let keep = match day {
            Some(d) => entries[i].day == d,
            None => true,
        };
        if keep {
            r.push(i);
        }
        i += 1;
    }
    assert(entries@.take(i as int) =~= entries@);
    r
}

/// Plans the dispatch of `args` over the registry `entries`.
pub fn plan<F>(args: &Args, entries: &Vec<RegistryEntry<F>>) -> (r: Result<DispatchPlan, DispatchError>)
    ensures
        match dispatch_of(*args, entries@) {
            Ok(tasks) => r matches Ok(p) && p@ == tasks,
            Err(e) => r == Err::<DispatchPlan, DispatchError>(e),
        },
{
    let sel = select(entries, args.day);
    if sel.len() == 0 {
        return Err(
            match args.day {
                Some(d) => DispatchError::DayNotFound(d),
                None => DispatchError::NoDaysRegistered,
            },
        );
    }
    let (part1, part2) = args.parts_to_run();
    let mut tasks: Vec<Vec<Step>> = Vec::new();
    if args.concurrent {
        let mut k: usize = 0;
        while k < sel.len()
            invariant
                k <= sel@.len(),
                tasks@.map_values(|t: Vec<Step>| t@) =~= Seq::new(
                    k as nat,
                    |j: int| entry_steps(sel@[j], part1, part2),
                ),
            decreases sel@.len() - k,
        {
            let task = vec![Step::Announce(sel[k]), Step::Invoke(sel[k], part1, part2)];
            assert(task@ =~= entry_steps(sel@[k as int], part1, part2));
            let ghost before = tasks@;
            tasks.push(task);
            assert(tasks@ =~= before.push(task));
            assert(tasks@.map_values(|t: Vec<Step>| t@) =~= before.map_values(|t: Vec<Step>| t@).push(
                entry_steps(sel@[k as int], part1, part2),
            ));
            k += 1;
        }
    } else {
        let mut steps: Vec<Step> = Vec::new();
        let mut k: usize = 0;
        while k < sel.len()
            invariant
                k <= sel@.len(),
                steps@ == sequential_steps(sel@.take(k as int), part1, part2),
            decreases sel@.len() - k,
        {
            assert(sel@.take(k + 1).drop_last() =~= sel@.take(k as int));
            steps.push(Step::Announce(sel[k]));
            steps.push(Step::Invoke(sel[k], part1, part2));
            assert(steps@ =~= sequential_steps(sel@.take(k + 1), part1, part2));
            k += 1;
        }
        assert(sel@.take(k as int) =~= sel@);
        tasks.push(steps);
    }
    let p = DispatchPlan { tasks };
    assert(p@ =~= planned_tasks(sel@, part1, part2, args.concurrent));
    Ok(p)
}

/// The notice printed before an entry runs: "Running {name}".
pub fn running_notice(name: &String) -> (r: String)
    ensures
        r@ == "Running "@ + name@,
{
    let mut s = String::new();
    s.append("Running ");
    s.append(name.as_str());
    s
}

impl DispatchError {
    /// The error report: "Error: Day {d} not found or not implemented" for a missing day.
    pub fn message(&self) -> (r: String)
        ensures
            self matches DispatchError::DayNotFound(d) ==> r@ == "Error: Day "@ + decimal(d as nat)
                + " not found or not implemented"@,
            self is NoDaysRegistered ==> r@ == "Error: no days are registered"@,
    {
        let mut s = String::new();
        match self {
            DispatchError::DayNotFound(d) => {
                s.append("Error: Day ");
                push_decimal(&mut s, *d as u128);
                s.append(" not found or not implemented");
            },
            DispatchError::NoDaysRegistered => {
                s.append("Error: no days are registered");
            },
        }
        s
    }
}

proof fn lemma_absent_day_selects_nothing<F>(entries: Seq<RegistryEntry<F>>, d: u8)
    requires
        forall|j: int| 0 <= j < entries.len() ==> entries[j].day != d,
    ensures
        selection(entries, Some(d)) == Seq::<usize>::empty(),
    decreases entries.len(),
{
    if entries.len() > 0 {
        lemma_absent_day_selects_nothing(entries.drop_last(), d);
    }
}

/// Selecting by a day number that exactly one entry has yields that entry alone.
pub proof fn lemma_unique_day_selects_its_entry<F>(entries: Seq<RegistryEntry<F>>, k: int)
    requires
        0 <= k < entries.len(),
        forall|j: int| 0 <= j < entries.len() && j != k ==> entries[j].day != entries[k].day,
    ensures
        selection(entries, Some(entries[k].day)) == seq![k as usize],
    decreases entries.len(),
{
    let d = entries[k].day;
    if k == entries.len() - 1 {
        lemma_absent_day_selects_nothing(entries.drop_last(), d);
        assert(selection(entries, Some(d)) =~= seq![k as usize]);
    } else {
        lemma_unique_day_selects_its_entry(entries.drop_last(), k);
    }
}

/// With no day requested, every entry is selected, in registry order.
pub proof fn lemma_no_day_selects_all<F>(entries: Seq<RegistryEntry<F>>)
    ensures
        selection(entries, None) == Seq::new(entries.len(), |i: int| i as usize),
    decreases entries.len(),
{
    if entries.len() > 0 {
        lemma_no_day_selects_all(entries.drop_last());
    }
    assert(selection(entries, None) =~= Seq::new(entries.len(), |i: int| i as usize));
}

/// Requesting a day number that exactly one entry has dispatches that entry alone:
/// in either mode, a single task that announces it once and calls it once with the
/// resolved part flags.
pub proof fn lemma_unique_day_dispatches_its_entry<F>(
    args: Args,
    entries: Seq<RegistryEntry<F>>,
    k: usize,
)
    requires
        k < entries.len(),
        args.day == Some(entries[k as int].day),
        forall|j: int| 0 <= j < entries.len() && j != k as int ==> entries[j].day != entries[k as int].day,
    ensures
        ({
            let parts = resolve_parts(args.part1, args.part2);
            &&& selection(entries, args.day) == seq![k]
            &&& dispatch_of(args, entries) == Ok::<Seq<Seq<Step>>, DispatchError>(
                seq![entry_steps(k, parts.0, parts.1)],
            )
            &&& announced(entry_steps(k, parts.0, parts.1)) == seq![k]
            &&& invoked(entry_steps(k, parts.0, parts.1)) == seq![
                (k, parts.0, parts.1),
            ]
        }),
{
    let parts = resolve_parts(args.part1, args.part2);
    lemma_unique_day_selects_its_entry(entries, k as int);
    lemma_entry_steps_announce_and_invoke(k, parts.0, parts.1);
    let sel = seq![k];
    assert(sel.drop_last() =~= Seq::<usize>::empty());
    assert(sequential_steps(sel.drop_last(), parts.0, parts.1) =~= Seq::<Step>::empty());
    assert(sequential_steps(sel, parts.0, parts.1) =~= entry_steps(k, parts.0, parts.1));
    assert(planned_tasks(sel, parts.0, parts.1, args.concurrent) =~= seq![
        entry_steps(k, parts.0, parts.1),
    ]);
}

/// Requesting a day number that no entry has selects nothing; dispatch then plans
/// no step at all and reports exactly that day as not found.
pub proof fn lemma_absent_day_dispatches_nothing<F>(args: Args, entries: Seq<RegistryEntry<F>>)
    requires
        args.day is Some,
        forall|j: int| 0 <= j < entries.len() ==> entries[j].day != args.day->Some_0,
    ensures
        selection(entries, args.day) == Seq::<usize>::empty(),
        dispatch_of(args, entries) == Err::<Seq<Seq<Step>>, DispatchError>(
            DispatchError::DayNotFound(args.day->Some_0),
        ),
{
    lemma_absent_day_selects_nothing(entries, args.day->Some_0);
}

proof fn lemma_announced_invoked_concat(a: Seq<Step>, b: Seq<Step>)
    ensures
        announced(a + b) == announced(a) + announced(b),
        invoked(a + b) == invoked(a) + invoked(b),
    decreases b.len(),
{
    if b.len() == 0 {
        assert(a + b =~= a);
        assert(announced(a) + announced(b) =~= announced(a));
        assert(invoked(a) + invoked(b) =~= invoked(a));
    } else {
        lemma_announced_invoked_concat(a, b.drop_last());
        assert((a + b).drop_last() =~= a + b.drop_last());
        assert(announced(a) + announced(b) =~= match b.last() {
            Step::Announce(i) => (announced(a) + announced(b.drop_last())).push(i),
            Step::Invoke(_, _, _) => announced(a) + announced(b.drop_last()),
        });
        assert(invoked(a) + invoked(b) =~= match b.last() {
            Step::Announce(_) => invoked(a) + invoked(b.drop_last()),
            Step::Invoke(i, p, q) => (invoked(a) + invoked(b.drop_last())).push((i, p, q)),
        });
    }
}

proof fn lemma_entry_steps_announce_and_invoke(i: usize, part1: bool, part2: bool)
    ensures
        announced(entry_steps(i, part1, part2)) == seq![i],
        invoked(entry_steps(i, part1, part2)) == seq![(i, part1, part2)],
{
    let steps = entry_steps(i, part1, part2);
    let first = steps.drop_last();
    let none = first.drop_last();
    assert(none =~= Seq::<Step>::empty());
    assert(invoked(none) == Seq::<(usize, bool, bool)>::empty());
    assert(announced(none) == Seq::<usize>::empty());
    assert(first.last() == Step::Announce(i));
    assert(invoked(first) == invoked(none));
    assert(announced(first) == announced(none).push(i));
    assert(steps.last() == Step::Invoke(i, part1, part2));
    assert(announced(steps) =~= seq![i]);
    assert(invoked(steps) =~= seq![(i, part1, part2)]);
}

proof fn lemma_sequential_steps_announce_and_invoke(sel: Seq<usize>, part1: bool, part2: bool)
    ensures
        announced(sequential_steps(sel, part1, part2)) == sel,
        invoked(sequential_steps(sel, part1, part2)) == calls(sel, part1, part2),
    decreases sel.len(),
{
    if sel.len() == 0 {
        assert(calls(sel, part1, part2) =~= Seq::<(usize, bool, bool)>::empty());
    } else {
        let earlier = sel.drop_last();
        lemma_sequential_steps_announce_and_invoke(earlier, part1, part2);
        lemma_entry_steps_announce_and_invoke(sel.last(), part1, part2);
        lemma_announced_invoked_concat(
            sequential_steps(earlier, part1, part2),
            entry_steps(sel.last(), part1, part2),
        );
        assert(earlier.push(sel.last()) =~= sel);
        assert(calls(sel, part1, part2) =~= calls(earlier, part1, part2).push(
            (sel.last(), part1, part2),
        ));
    }
}

proof fn lemma_sequential_steps_shape(sel: Seq<usize>, part1: bool, part2: bool)
    ensures
        sequential_steps(sel, part1, part2).len() == 2 * sel.len(),
        forall|k: int|
            0 <= k < sel.len() ==> sequential_steps(sel, part1, part2)[2 * k] == Step::Announce(
                sel[k],
            ) && sequential_steps(sel, part1, part2)[2 * k + 1] == Step::Invoke(
                sel[k],
                part1,
                part2,
            ),
    decreases sel.len(),
{
    if sel.len() > 0 {
        let earlier = sel.drop_last();
        lemma_sequential_steps_shape(earlier, part1, part2);
        let steps = sequential_steps(sel, part1, part2);
        assert forall|k: int| 0 <= k < sel.len() implies steps[2 * k] == Step::Announce(sel[k])
            && steps[2 * k + 1] == Step::Invoke(sel[k], part1, part2) by {
            if k < sel.len() - 1 {
                assert(earlier[k] == sel[k]);
            }
        }
    }
}

/// Sequential dispatch is a single task which, for each selected entry in registry
/// order, announces that entry and then invokes it: one notice per entry, in order,
/// and one call per entry, in order, each with the resolved part flags; an entry's
/// notice comes after the previous entry's call and before its own.
pub proof fn lemma_sequential_dispatch_order<F>(args: Args, entries: Seq<RegistryEntry<F>>)
    requires
        !args.concurrent,
        selection(entries, args.day).len() > 0,
    ensures
        ({
            let sel = selection(entries, args.day);
            let parts = resolve_parts(args.part1, args.part2);
            dispatch_of(args, entries) matches Ok(tasks) && tasks.len() == 1 && tasks[0].len() == 2
                * sel.len() && (forall|k: int|
                0 <= k < sel.len() ==> tasks[0][2 * k] == Step::Announce(sel[k]) && tasks[0][2 * k
                    + 1] == Step::Invoke(sel[k], parts.0, parts.1)) && announced(tasks[0]) == sel
                && notices(entries, announced(tasks[0])) == notices(entries, sel) && invoked(
                tasks[0],
            ) == calls(sel, parts.0, parts.1)
        }),
{
    let parts = resolve_parts(args.part1, args.part2);
    lemma_sequential_steps_shape(selection(entries, args.day), parts.0, parts.1);
    lemma_sequential_steps_announce_and_invoke(selection(entries, args.day), parts.0, parts.1);
}

/// Concurrent dispatch is one task per selected entry; each task announces its
/// entry once and then calls it once with the resolved part flags, so there are
/// exactly as many notices and calls as selected entries.
pub proof fn lemma_concurrent_dispatch_tasks<F>(args: Args, entries: Seq<RegistryEntry<F>>)
    requires
        args.concurrent,
        selection(entries, args.day).len() > 0,
    ensures
        ({
            let sel = selection(entries, args.day);
            let parts = resolve_parts(args.part1, args.part2);
            dispatch_of(args, entries) matches Ok(tasks) && tasks.len() == sel.len() && forall|
                k: int,
            |
                0 <= k < sel.len() ==> tasks[k] == seq![
                    Step::Announce(sel[k]),
                    Step::Invoke(sel[k], parts.0, parts.1),
                ] && announced(tasks[k]) == seq![sel[k]] && invoked(tasks[k]) == seq![
                    (sel[k], parts.0, parts.1),
                ]
        }),
{
    let sel = selection(entries, args.day);
    let parts = resolve_parts(args.part1, args.part2);
    assert forall|k: int| 0 <= k < sel.len() implies announced(
        entry_steps(sel[k], parts.0, parts.1),
    ) == seq![sel[k]] && invoked(entry_steps(sel[k], parts.0, parts.1)) == seq![
        (sel[k], parts.0, parts.1),
    ] by {
        lemma_entry_steps_announce_and_invoke(sel[k], parts.0, parts.1);
    }
}

} // verus!
