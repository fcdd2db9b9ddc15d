//! Execution units and the rule by which one of them runs: the most urgent
//! unit that is ready. A unit of lower priority runs only while no unit of
//! higher priority is ready.

use vstd::prelude::*;
use vstd::string::StringExecFns;

verus! {

/// The number of priority levels. Priorities are `0 .. PRIORITY_LEVELS`, and
/// a smaller number is a higher priority.
pub const PRIORITY_LEVELS: u8 = 16;

/// The largest number of units a scheduler holds.
pub const MAX_UNITS: usize = 32;

/// Whether a unit can run.
#[derive(Clone, Copy, Debug, PartialEq, Eq, Structural)]
pub enum RunState {
    /// The unit can run as soon as it is the most urgent.
    Ready,
    /// The unit waits for a sleep to end, for input, or for a signal.
    Waiting,
    /// The unit's routine has returned.
    Finished,
}

/// Why a unit cannot be created.
#[derive(Clone, Copy, Debug, PartialEq, Eq, Structural)]
pub enum SpawnError {
    /// The priority is not below `PRIORITY_LEVELS`.
    PriorityOutOfRange,
    /// The stack budget is zero bytes.
    NoStack,
    /// The scheduler already holds `MAX_UNITS` units.
    TooManyUnits,
}

/// No unit has the number asked for.
#[derive(Clone, Copy, Debug, PartialEq, Eq, Structural)]
pub struct NoSuchUnit {
    pub pid: usize,
}

/// What an `ExecutionUnit` stands for.
pub ghost struct UnitView {
    pub name: Option<Seq<char>>,
    pub priority: nat,
    pub stack_size: nat,
    pub state: RunState,
}

/// An execution unit: a routine with a stack of its own, a priority and,
/// where it was given one, a name.
#[derive(Debug)]
pub struct ExecutionUnit {
    name: Option<String>,
    priority: u8,
    stack_size: usize,
    state: RunState,
}

impl View for ExecutionUnit {
    type V = UnitView;

    closed spec fn view(&self) -> UnitView {
        UnitView {
            name: match self.name {
                Some(s) => Some(s@),
                None => None,
            },
            priority: self.priority as nat,
            stack_size: self.stack_size as nat,
            state: self.state,
        }
    }
}

/// Unit `i` is the one to run: it is ready, no ready unit has a higher
/// priority, and among the ready units of its priority it comes first.
pub open spec fn is_most_urgent(units: Seq<UnitView>, i: int) -> bool {
    &&& 0 <= i < units.len()
    &&& units[i].state == RunState::Ready
    &&& forall|j: int|
        0 <= j < units.len() && (#[trigger] units[j]).state == RunState::Ready
            ==> units[i].priority <= units[j].priority
    &&& forall|j: int|
        0 <= j < i && (#[trigger] units[j]).state == RunState::Ready ==> units[i].priority
            < units[j].priority
}

/// `choice` is the unit to run among `units`, or `None` where none is ready.
pub open spec fn is_choice(units: Seq<UnitView>, choice: Option<int>) -> bool {
    match choice {
        Some(i) => is_most_urgent(units, i),
        None => forall|j: int| 0 <= j < units.len() ==> (#[trigger] units[j]).state
            != RunState::Ready,
    }
}

/// What a `Scheduler` stands for: its units by number, and the number of the
/// unit that runs.
pub ghost struct SchedulerView {
    pub units: Seq<UnitView>,
    pub current: Option<int>,
}

/// The execution units of the system and the one that runs.
#[derive(Debug)]
pub struct Scheduler {
    units: Vec<ExecutionUnit>,
    current: Option<usize>,
}

impl View for Scheduler {
    type V = SchedulerView;

    closed spec fn view(&self) -> SchedulerView {
        SchedulerView {
            units: self.units@.map_values(|u: ExecutionUnit| u@),
            current: match self.current {
                Some(i) => Some(i as int),
                None => None,
            },
        }
    }
}

impl Scheduler {
    /// The unit that runs is the most urgent ready unit, at all times.
    pub open spec fn wf(&self) -> bool {
        &&& is_choice(self@.units, self@.current)
        &&& self@.units.len() <= MAX_UNITS
        &&& forall|i: int|
            0 <= i < self@.units.len() ==> (#[trigger] self@.units[i]).priority < PRIORITY_LEVELS
    }

    /// A scheduler without units.
    pub fn new() -> (r: Scheduler)
        ensures
            r.wf(),
            r@.units == Seq::<UnitView>::empty(),
            r@.current == None::<int>,
    {
        Scheduler { units: Vec::new(), current: None }
    }

    /// The most urgent ready unit, or `None` where no unit is ready.
    fn pick(&self) -> (r: Option<usize>)
        ensures
            is_choice(
                self@.units,
                match r {
                    Some(i) => Some(i as int),
                    None => None,
                },
            ),
    {
        let mut best: Option<usize> = None;
        let mut i: usize = 0;
        while i < self.units.len()
            invariant
                i <= self.units@.len(),
                is_choice(
                    self@.units.take(i as int),
                    match best {
                        Some(b) => Some(b as int),
                        None => None,
                    },
                ),
            decreases self.units@.len() - i,
        {
            let ready: bool = match self.units[i].state {
                RunState::Ready => true,
                _ => false,
            };
            if ready {
                match best {
                    None => {
                        best = Some(i);
                    },
                    Some(b) => {
                        if self.units[i].priority < self.units[b].priority {
                            best = Some(i);
                        }
                    },
                }
            }
            i += 1;
        }
        assert(self@.units.take(i as int) =~= self@.units);
        best
    }

    /// Creates a unit with a name, a priority and a stack budget, ready to
    /// run, and returns its number. The unit to run is chosen anew: the new
    /// unit runs at once if it is more urgent than every other ready unit.
    pub fn spawn(&mut self, name: Option<&str>, priority: u8, stack_size: usize) -> (r: Result<
        usize,
        SpawnError,
    >)
        requires
            old(self).wf(),
        ensures
            final(self).wf(),
            r == spawn_result(old(self)@.units.len(), priority, stack_size),
            r is Err ==> final(self)@ == old(self)@,
            r is Ok ==> final(self)@.units == old(self)@.units.push(
                UnitView {
                    name: match name {
                        Some(s) => Some(s@),
                        None => None,
                    },
                    priority: priority as nat,
                    stack_size: stack_size as nat,
                    state: RunState::Ready,
                },
            ),
    {
        if priority >= PRIORITY_LEVELS {
            return Err(SpawnError::PriorityOutOfRange);
        }
        if stack_size == 0 {
            return Err(SpawnError::NoStack);
        }
        if self.units.len() >= MAX_UNITS {
            return Err(SpawnError::TooManyUnits);
        }
        let pid: usize = self.units.len();
        let owned: Option<String> = match name {
            Some(s) => Some(String::from_str(s)),
            None => None,
        };
        let unit = ExecutionUnit { name: owned, priority, stack_size, state: RunState::Ready };
        let ghost added = unit@;
        self.units.push(unit);
        assert(self@.units =~= old(self)@.units.push(added));
        self.current = self.pick();
        Ok(pid)
    }

    /// The number of units.
    pub fn len(&self) -> (n: usize)
        ensures
            n == self@.units.len(),
    {
        self.units.len()
    }

    /// The number of the unit that runs; `None` while no unit is ready.
    pub fn current(&self) -> (r: Option<usize>)
        ensures
            r is Some <==> self@.current is Some,
            r is Some ==> r->0 == self@.current->0,
    {
        self.current
    }

    /// The name of unit `pid`: `None` where no unit has that number or the
    /// unit was given no name.
    pub fn name_of(&self, pid: usize) -> (r: Option<&str>)
        ensures
            r is Some <==> pid < self@.units.len() && self@.units[pid as int].name is Some,
            r is Some ==> r->0@ == self@.units[pid as int].name->0,
    {
        if pid < self.units.len() {
            match &self.units[pid].name {
                Some(s) => Some(s.as_str()),
                None => None,
            }
        } else {
            None
        }
    }

    /// The name of the unit that runs: the answer to "who am I" for the code
    /// that asks. `None` while no unit runs or the running unit has no name.
    pub fn current_name(&self) -> (r: Option<&str>)
        requires
            self.wf(),
        ensures
            r is Some <==> self@.current is Some && self@.units[self@.current->0].name is Some,
            r is Some ==> r->0@ == self@.units[self@.current->0].name->0,
    {
        match self.current {
            Some(pid) => self.name_of(pid),
            None => None,
        }
    }

    /// The priority of unit `pid`.
    pub fn priority_of(&self, pid: usize) -> (r: Result<u8, NoSuchUnit>)
        ensures
            pid < self@.units.len() ==> r is Ok && r->Ok_0 == self@.units[pid as int].priority,
            pid >= self@.units.len() ==> r == Err::<u8, NoSuchUnit>(NoSuchUnit { pid }),
    {
        if pid < self.units.len() {
            Ok(self.units[pid].priority)
        } else {
            Err(NoSuchUnit { pid })
        }
    }

    /// The state of unit `pid`.
    pub fn state_of(&self, pid: usize) -> (r: Result<RunState, NoSuchUnit>)
        ensures
            pid < self@.units.len() ==> r == Ok::<RunState, NoSuchUnit>(
                self@.units[pid as int].state,
            ),
            pid >= self@.units.len() ==> r == Err::<RunState, NoSuchUnit>(NoSuchUnit { pid }),
    {
        if pid < self.units.len() {
            Ok(self.units[pid].state)
        } else {
            Err(NoSuchUnit { pid })
        }
    }

    /// Puts unit `pid` into `state` and chooses the unit to run anew. A unit
    /// that starts to wait or finishes gives way to the next most urgent
    /// one; a unit that becomes ready runs at once if it is the most urgent.
    pub fn set_state(&mut self, pid: usize, state: RunState) -> (r: Result<(), NoSuchUnit>)
        requires
            old(self).wf(),
        ensures
            final(self).wf(),
            pid >= old(self)@.units.len() ==> r == Err::<(), NoSuchUnit>(NoSuchUnit { pid })
                && final(self)@ == old(self)@,
            pid < old(self)@.units.len() ==> r is Ok && final(self)@.units == old(
                self,
            )@.units.update(
                pid as int,
                UnitView {
                    name: old(self)@.units[pid as int].name,
                    priority: old(self)@.units[pid as int].priority,
                    stack_size: old(self)@.units[pid as int].stack_size,
                    state,
                },
            ),
    {
        if pid >= self.units.len() {
            return Err(NoSuchUnit { pid });
        }
        self.units[pid].state = state;
        assert(self@.units =~= old(self)@.units.update(
            pid as int,
            UnitView {
                name: old(self)@.units[pid as int].name,
                priority: old(self)@.units[pid as int].priority,
                stack_size: old(self)@.units[pid as int].stack_size,
                state,
            },
        )) by {
            assert forall|j: int| 0 <= j < self@.units.len() implies self@.units[j] == old(
                self,
            )@.units.update(
                pid as int,
                UnitView {
                    name: old(self)@.units[pid as int].name,
                    priority: old(self)@.units[pid as int].priority,
                    stack_size: old(self)@.units[pid as int].stack_size,
                    state,
                },
            )[j] by {}
        }
        self.current = self.pick();
        Ok(())
    }
}

/// What `spawn` answers in a scheduler of `count` units.
pub open spec fn spawn_result(count: nat, priority: u8, stack_size: usize) -> Result<
    usize,
    SpawnError,
> {
    if priority >= PRIORITY_LEVELS {
        Err(SpawnError::PriorityOutOfRange)
    } else if stack_size == 0 {
        Err(SpawnError::NoStack)
    } else if count >= MAX_UNITS {
        Err(SpawnError::TooManyUnits)
    } else {
        Ok(count as usize)
    }
}

/// The unit to run is determined by the units alone: two choices among the
/// same units are the same choice.
pub proof fn lemma_choice_is_unique(units: Seq<UnitView>, a: Option<int>, b: Option<int>)
    requires
        is_choice(units, a),
        is_choice(units, b),
    ensures
        a == b,
{
}

/// While a unit of higher priority is ready, no unit of lower priority
/// runs.
pub proof fn lemma_no_starvation(units: Seq<UnitView>, running: Option<int>, other: int)
    requires
        is_choice(units, running),
        0 <= other < units.len(),
        units[other].state == RunState::Ready,
    ensures
        running is Some,
        units[running->0].priority <= units[other].priority,
{
}

} // verus!
