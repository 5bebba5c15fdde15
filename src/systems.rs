use vstd::prelude::*;

use crate::commands::{Command, RunSystemCommand};
use crate::label::{label_views, LabelView, SystemLabel};
use crate::world::{add_u8, inc_u64, sub_u8, Counter, Storage};

verus! {

/// The systems that can be stored and run. Each takes no input, returns no
/// output, and may queue commands that are applied once it returns.
#[derive(Debug, Clone, Copy, PartialEq, Eq, Hash, Structural)]
pub enum SystemFn {
    CountUp,
    SpawnEntity,
    NonSendCountDown,
    TriggerNonSendCountDown,
    CountUpIffChanged,
    FibonacciCounting,
    CountToTen,
}

/// Adds one to the counter.
pub fn count_up(counter: &mut Counter)
    ensures
        final(counter).0 == add_u8(old(counter).0, 1),
{
    counter.0 = counter.0.wrapping_add(1);
}

/// Queues the spawn of one entity.
pub fn spawn_entity(commands: &mut Vec<Command>)
    ensures
        final(commands)@ == old(commands)@.push(Command::Spawn),
{
    commands.push(Command::Spawn);
}

/// Takes one from the non-send counter.
pub fn non_send_count_down(ns: &mut Counter)
    ensures
        final(ns).0 == sub_u8(old(ns).0, 1),
{
    ns.0 = ns.0.wrapping_sub(1);
}

/// Queues a run of `non_send_count_down`.
pub fn trigger_non_send_count_down(commands: &mut Vec<Command>)
    ensures
        final(commands)@ == old(commands)@.push(
            Command::RunSystem(RunSystemCommand { system: SystemFn::NonSendCountDown }),
        ),
{
    commands.push(Command::RunSystem(RunSystemCommand::new(SystemFn::NonSendCountDown)));
}

/// Queues a run of `count_up` when the change detector is changed.
pub fn count_up_iff_changed(commands: &mut Vec<Command>, changed: bool)
    ensures
        final(commands)@ == if changed {
            old(commands)@.push(Command::RunSystem(RunSystemCommand { system: SystemFn::CountUp }))
        } else {
            old(commands)@
        },
{
    if changed {
        commands.push(Command::RunSystem(RunSystemCommand::new(SystemFn::CountUp)));
    }
}

/// Adds the counter's value from the previous run (kept in `last_counter`,
/// zero at first) to the counter, and remembers the value it had.
pub fn fibonacci_counting(last_counter: &mut u8, counter: &mut Counter)
    ensures
        final(counter).0 == add_u8(old(counter).0, *old(last_counter)),
        *final(last_counter) == old(counter).0,
{
    let before = counter.0;
    counter.0 = counter.0.wrapping_add(*last_counter);
    *last_counter = before;
}

/// Adds one to the counter and, while it is under ten, queues another run of
/// itself.
pub fn count_to_ten(counter: &mut Counter, commands: &mut Vec<Command>)
    ensures
        final(counter).0 == add_u8(old(counter).0, 1),
        final(commands)@ == if final(counter).0 < 10 {
            old(commands)@.push(Command::RunSystem(RunSystemCommand { system: SystemFn::CountToTen }))
        } else {
            old(commands)@
        },
{
    counter.0 = counter.0.wrapping_add(1);
    if counter.0 < 10 {
        commands.push(Command::RunSystem(RunSystemCommand::new(SystemFn::CountToTen)));
    }
}

/// A system together with the state it keeps between runs.
///
/// `local` is its local variable; `last_run` the change tick of its last run,
/// against which it detects changes.
#[derive(Debug, Clone, Copy, PartialEq, Eq, Structural)]
pub struct StoredSystem {
    pub system: SystemFn,
    pub local: u8,
    pub last_run: u64,
}

impl SystemFn {
    /// The labels a system carries by default: its own identity.
    pub open spec fn default_labels_spec(self) -> Seq<LabelView> {
        seq![LabelView::Auto(self)]
    }

    /// The labels a system carries by default.
    pub fn default_labels(self) -> (r: Vec<SystemLabel>)
        ensures
            label_views(r@) == self.default_labels_spec(),
    {
        let r = vec![SystemLabel::Auto(self)];
        assert(label_views(r@) =~= self.default_labels_spec());
        r
    }
}

/// A stored system freshly initialized: its local variable is zero, and it has
/// never run, so everything in the world counts as changed to it.
pub open spec fn initialized(f: SystemFn) -> StoredSystem {
    StoredSystem { system: f, local: 0, last_run: 0 }
}

/// One run of a stored system on the storage: the system's new state, the new
/// storage, and the commands it queued. A system runs at the current change
/// tick, which then advances, and records it as its last run; it sees the
/// change detector as changed iff that was changed at a later tick than its
/// last run.
pub open spec fn run_unit(u: StoredSystem, s: Storage) -> (StoredSystem, Storage, Seq<Command>) {
    let tick = s.change_tick;
    let s1 = Storage { change_tick: inc_u64(tick), ..s };
    let u1 = StoredSystem { last_run: tick, ..u };
    match u.system {
        SystemFn::CountUp => (
            u1,
            Storage { counter: Counter(add_u8(s.counter.0, 1)), ..s1 },
            Seq::empty(),
        ),
        SystemFn::SpawnEntity => (u1, s1, seq![Command::Spawn]),
        SystemFn::NonSendCountDown => (
            u1,
            Storage { non_send_counter: Counter(sub_u8(s.non_send_counter.0, 1)), ..s1 },
            Seq::empty(),
        ),
        SystemFn::TriggerNonSendCountDown => (
            u1,
            s1,
            seq![Command::RunSystem(RunSystemCommand { system: SystemFn::NonSendCountDown })],
        ),
        SystemFn::CountUpIffChanged => (
            u1,
            s1,
            if s.detector_tick > u.last_run {
                seq![Command::RunSystem(RunSystemCommand { system: SystemFn::CountUp })]
            } else {
                Seq::empty()
            },
        ),
        SystemFn::FibonacciCounting => (
            StoredSystem { local: s.counter.0, ..u1 },
            Storage { counter: Counter(add_u8(s.counter.0, u.local)), ..s1 },
            Seq::empty(),
        ),
        SystemFn::CountToTen => {
            let c = add_u8(s.counter.0, 1);
            (
                u1,
                Storage { counter: Counter(c), ..s1 },
                if c < 10 {
                    seq![Command::RunSystem(RunSystemCommand { system: SystemFn::CountToTen })]
                } else {
                    Seq::empty()
                },
            )
        },
    }
}

impl StoredSystem {
    /// Initializes a system for storage.
    pub fn new(system: SystemFn) -> (r: StoredSystem)
        ensures
            r == initialized(system),
    {
        StoredSystem { system, local: 0, last_run: 0 }
    }

    /// Runs the system once on the storage and returns the commands it queued,
    /// which are not yet applied.
    pub fn run(&mut self, storage: &mut Storage) -> (r: Vec<Command>)
        ensures
            (*final(self), *final(storage), r@) == run_unit(*old(self), *old(storage)),
    {
        let last_run = self.last_run;
        let tick = storage.increment_change_tick();
        let mut commands: Vec<Command> = Vec::new();
        match self.system {
            SystemFn::CountUp => count_up(&mut storage.counter),
            SystemFn::SpawnEntity => spawn_entity(&mut commands),
            SystemFn::NonSendCountDown => non_send_count_down(&mut storage.non_send_counter),
            SystemFn::TriggerNonSendCountDown => trigger_non_send_count_down(&mut commands),
            SystemFn::CountUpIffChanged => {
                count_up_iff_changed(&mut commands, storage.detector_tick > last_run)
            },
            SystemFn::FibonacciCounting => {
                fibonacci_counting(&mut self.local, &mut storage.counter)
            },
            SystemFn::CountToTen => count_to_ten(&mut storage.counter, &mut commands),
        }
        self.last_run = tick;
        assert(commands@ =~= run_unit(*old(self), *old(storage)).2);
        commands
    }
}

} // verus!
