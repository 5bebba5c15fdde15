use vstd::prelude::*;

use crate::label::SystemLabel;
use crate::registry::{run_label_spec, run_system_spec, RegistryError};
use crate::systems::SystemFn;
use crate::world::World;

verus! {

/// A command that runs a system by its identity, reusing its cached state.
#[derive(Debug, Clone, Copy, PartialEq, Eq, Structural)]
pub struct RunSystemCommand {
    pub system: SystemFn,
}

impl RunSystemCommand {
    /// A command to run `system`.
    pub fn new(system: SystemFn) -> (r: RunSystemCommand)
        ensures
            r.system == system,
    {
        RunSystemCommand { system }
    }

    /// Runs the system on `world` by identity.
    pub fn write(self, world: &mut World) -> (r: Result<(), RegistryError>)
        requires
            old(world).wf(),
        ensures
            final(world).wf(),
            (final(world).registry@, final(world).storage, r) == run_system_spec(
                old(world).registry@,
                old(world).storage,
                self.system,
                false,
            ),
    {
        world.run_system(self.system)
    }
}

/// A command that runs every system registered under a label.
#[derive(Debug)]
pub struct RunSystemsByLabelCommand {
    pub label: SystemLabel,
}

impl RunSystemsByLabelCommand {
    /// Runs the systems under the label on `world`, in registration order.
    pub fn write(self, world: &mut World) -> (r: Result<(), RegistryError>)
        requires
            old(world).wf(),
        ensures
            final(world).wf(),
            (final(world).registry@, final(world).storage, r) == run_label_spec(
                old(world).registry@,
                old(world).storage,
                self.label@,
            ),
    {
        world.run_systems_by_label(self.label.dyn_clone())
    }
}

/// A deferred write queued by a running system.
#[derive(Debug, Clone, Copy, PartialEq, Eq, Structural)]
pub enum Command {
    /// Spawns one entity.
    Spawn,
    /// Runs a system by its identity.
    RunSystem(RunSystemCommand),
}

} // verus!
