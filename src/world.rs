use vstd::prelude::*;

use crate::label::{label_views, SystemLabel};
use crate::registry::{register_spec, run_label_spec, run_system_spec, RegistryError, SystemRegistry};
use crate::systems::{initialized, SystemFn};

verus! {

/// A counter resource.
#[derive(Debug, Clone, Copy, PartialEq, Eq, Structural)]
pub struct Counter(pub u8);

/// The entities that exist in a world; only their number is tracked.
#[derive(Debug, Clone, Copy, PartialEq, Eq, Structural)]
pub struct Entities {
    pub count: u64,
}

impl Entities {
    /// How many entities have been spawned.
    pub fn len(&self) -> (r: u64)
        ensures
            r == self.count,
    {
        self.count
    }
}

/// The shared state that systems read and write.
///
/// `change_tick` is the current tick: a system runs at it and advances it by
/// one. `detector_tick` is the tick at which the change-detector resource was
/// last changed.
#[derive(Debug, Clone, Copy, PartialEq, Eq, Structural)]
pub struct Storage {
    pub counter: Counter,
    pub non_send_counter: Counter,
    pub detector_tick: u64,
    pub change_tick: u64,
    pub entities: Entities,
}

/// `t + 1`, wrapping to 0 past `u64::MAX`.
pub open spec fn inc_u64(t: u64) -> u64 {
    if t == u64::MAX { 0 } else { (t + 1) as u64 }
}

/// `a + b` wrapping modulo 256.
pub open spec fn add_u8(a: u8, b: u8) -> u8 {
    ((a as int + b as int) % 256) as u8
}

/// `a - b` wrapping modulo 256.
pub open spec fn sub_u8(a: u8, b: u8) -> u8 {
    ((a as int - b as int + 256) % 256) as u8
}

impl Storage {
    /// Empty storage: counters at zero, no entities, at tick 1.
    pub fn new() -> (r: Storage)
        ensures
            r == Storage::initial(),
    {
        Storage {
            counter: Counter(0),
            non_send_counter: Counter(0),
            detector_tick: 0,
            change_tick: 1,
            entities: Entities { count: 0 },
        }
    }

    pub open spec fn initial() -> Storage {
        Storage {
            counter: Counter(0),
            non_send_counter: Counter(0),
            detector_tick: 0,
            change_tick: 1,
            entities: Entities { count: 0 },
        }
    }

    /// Advances the change tick and returns the tick it had, at which the
    /// caller runs.
    pub fn increment_change_tick(&mut self) -> (r: u64)
        ensures
            r == old(self).change_tick,
            *final(self) == (Storage { change_tick: inc_u64(r), ..*old(self) }),
    {
        let tick = self.change_tick;
        self.change_tick = self.change_tick.wrapping_add(1);
        tick
    }
}

/// The shared world: its storage and the registry of systems kept in it.
pub struct World {
    pub storage: Storage,
    pub registry: SystemRegistry,
}

impl World {
    /// The world's registry is well formed.
    pub open spec fn wf(&self) -> bool {
        self.registry.wf()
    }

    /// A world with empty storage and an empty registry.
    pub fn new() -> (r: World)
        ensures
            r.storage == Storage::initial(),
            r.registry@.systems.len() == 0,
            r.registry@.labels.dom().is_empty(),
            r.wf(),
    {
        World { storage: Storage::new(), registry: SystemRegistry::new() }
    }

    /// The counter resource.
    pub fn counter(&self) -> (r: Counter)
        ensures
            r == self.storage.counter,
    {
        self.storage.counter
    }

    /// The non-send counter resource.
    pub fn non_send_counter(&self) -> (r: Counter)
        ensures
            r == self.storage.non_send_counter,
    {
        self.storage.non_send_counter
    }

    /// Sets the counter resource to its default, zero.
    pub fn init_counter(&mut self)
        ensures
            final(self).storage == (Storage { counter: Counter(0), ..old(self).storage }),
            final(self).registry == old(self).registry,
    {
        self.storage.counter = Counter(0);
    }

    /// Sets the counter resource.
    pub fn insert_counter(&mut self, c: Counter)
        ensures
            final(self).storage == (Storage { counter: c, ..old(self).storage }),
            final(self).registry == old(self).registry,
    {
        self.storage.counter = c;
    }

    /// Sets the non-send counter resource.
    pub fn insert_non_send_counter(&mut self, c: Counter)
        ensures
            final(self).storage == (Storage { non_send_counter: c, ..old(self).storage }),
            final(self).registry == old(self).registry,
    {
        self.storage.non_send_counter = c;
    }

    /// Adds the change-detector resource; a resource counts as changed when it
    /// is added.
    pub fn init_change_detector(&mut self)
        ensures
            final(self).storage == (Storage {
                detector_tick: old(self).storage.change_tick,
                ..old(self).storage
            }),
            final(self).registry == old(self).registry,
    {
        self.storage.detector_tick = self.storage.change_tick;
    }

    /// Marks the change-detector resource as changed now.
    pub fn set_change_detector_changed(&mut self)
        ensures
            final(self).storage == (Storage {
                detector_tick: old(self).storage.change_tick,
                ..old(self).storage
            }),
            final(self).registry == old(self).registry,
    {
        self.storage.detector_tick = self.storage.change_tick;
    }
}

impl World {
    /// Registers `system` under `label` in the world's registry.
    pub fn register_system(&mut self, system: SystemFn, label: SystemLabel)
        requires
            old(self).wf(),
        ensures
            final(self).wf(),
            final(self).registry@ == register_spec(old(self).registry@, initialized(system), seq![label@]),
            final(self).storage == old(self).storage,
    {
        self.registry.register_system(&mut self.storage, system, label);
    }

    /// Registers `system` under each of `labels` in the world's registry.
    pub fn register_system_with_labels(&mut self, system: SystemFn, labels: Vec<SystemLabel>)
        requires
            old(self).wf(),
        ensures
            final(self).wf(),
            final(self).registry@ == register_spec(
                old(self).registry@,
                initialized(system),
                label_views(labels@),
            ),
            final(self).storage == old(self).storage,
    {
        self.registry.register_system_with_labels(&mut self.storage, system, labels);
    }

    /// Runs `system` once by identity, caching its state in the world's
    /// registry; its commands are applied before this returns.
    pub fn run_system(&mut self, system: SystemFn) -> (r: Result<(), RegistryError>)
        requires
            old(self).wf(),
        ensures
            final(self).wf(),
            (final(self).registry@, final(self).storage, r) == run_system_spec(
                old(self).registry@,
                old(self).storage,
                system,
                false,
            ),
    {
        self.registry.run_system(&mut self.storage, system)
    }

    /// Runs every system registered under `label` once, in registration order.
    pub fn run_systems_by_label(&mut self, label: SystemLabel) -> (r: Result<(), RegistryError>)
        requires
            old(self).wf(),
        ensures
            final(self).wf(),
            (final(self).registry@, final(self).storage, r) == run_label_spec(
                old(self).registry@,
                old(self).storage,
                label@,
            ),
    {
        self.registry.run_systems_by_label(&mut self.storage, label)
    }
}

} // verus!
