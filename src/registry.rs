use vstd::prelude::*;

use crate::commands::Command;
use crate::label::{label_views, index_entries, index_get, index_insert, index_new, LabelIndex, LabelView, SystemLabel};
use crate::systems::{initialized, run_unit, StoredSystem, SystemFn};
use crate::world::{inc_u64, Entities, Storage};

verus! {

/// Why a run did not complete.
#[derive(Debug, Clone, Copy, PartialEq, Eq, Structural)]
pub enum RegistryError {
    /// No system was ever registered under the label that was run.
    UnregisteredLabel,
    /// A system run by a deferred command queued a further run of a system;
    /// registry runs do not recurse.
    NestedRun,
}

/// The registry as a mathematical value: the stored systems in registration
/// order, and for each label the positions of the systems registered under it.
pub struct RegistryView {
    pub systems: Seq<StoredSystem>,
    pub labels: Map<LabelView, Seq<usize>>,
}

/// The registry, the storage, and the result after a run.
pub type Outcome = (RegistryView, Storage, Result<(), RegistryError>);

/// Stores initialized systems so that they can be run again with their state:
/// by label, in registration order, or by identity, registering the system on
/// its first run.
pub struct SystemRegistry {
    systems: Vec<StoredSystem>,
    labels: LabelIndex,
}

impl View for SystemRegistry {
    type V = RegistryView;

    closed spec fn view(&self) -> RegistryView {
        RegistryView { systems: self.systems@, labels: index_entries(self.labels) }
    }
}

/// Every label lists at least one position, and every position is under `n`.
pub open spec fn labels_wf(m: Map<LabelView, Seq<usize>>, n: nat) -> bool {
    forall|l: LabelView| #[trigger] m.contains_key(l) ==> {
        &&& m[l].len() > 0
        &&& forall|j: int| 0 <= j < m[l].len() ==> (#[trigger] m[l][j]) < n
    }
}

/// Every label lists at least one position, and every position names a stored
/// system.
pub open spec fn registry_wf(r: RegistryView) -> bool {
    labels_wf(r.labels, r.systems.len())
}

/// `m` with `pos` appended to the list of `l`, which is created if absent.
pub open spec fn add_label(m: Map<LabelView, Seq<usize>>, l: LabelView, pos: usize) -> Map<LabelView, Seq<usize>> {
    if m.contains_key(l) {
        m.insert(l, m[l].push(pos))
    } else {
        m.insert(l, seq![pos])
    }
}

/// `m` with `pos` appended under each label of `ls`, in order.
pub open spec fn add_labels(m: Map<LabelView, Seq<usize>>, ls: Seq<LabelView>, pos: usize) -> Map<LabelView, Seq<usize>>
    decreases ls.len(),
{
    if ls.len() == 0 {
        m
    } else {
        add_labels(add_label(m, ls[0], pos), ls.drop_first(), pos)
    }
}

/// The registry after appending system `u` under the labels `ls`.
pub open spec fn register_spec(r: RegistryView, u: StoredSystem, ls: Seq<LabelView>) -> RegistryView {
    RegistryView {
        systems: r.systems.push(u),
        labels: add_labels(r.labels, ls, r.systems.len() as usize),
    }
}

/// The measure that bounds nested runs: a deferred command may run a system
/// only from a run that is not itself nested.
pub open spec fn depth(nested: bool) -> nat {
    if nested { 0 } else { 1 }
}

/// Runs the system at position `i` and applies the commands it queued.
pub open spec fn execute_spec(r: RegistryView, s: Storage, i: usize, nested: bool) -> Outcome
    decreases depth(nested), 3nat, 0nat,
{
    if i < r.systems.len() {
        let (u, s1, cmds) = run_unit(r.systems[i as int], s);
        apply_spec(RegistryView { systems: r.systems.update(i as int, u), ..r }, s1, cmds, nested)
    } else {
        (r, s, Ok(()))
    }
}

/// Applies queued commands in order, stopping at the first error.
pub open spec fn apply_spec(r: RegistryView, s: Storage, cmds: Seq<Command>, nested: bool) -> Outcome
    decreases depth(nested), 2nat, cmds.len(),
{
    if cmds.len() == 0 {
        (r, s, Ok(()))
    } else {
        match cmds[0] {
            Command::Spawn => apply_spec(
                r,
                Storage { entities: Entities { count: inc_u64(s.entities.count) }, ..s },
                cmds.drop_first(),
                nested,
            ),
            Command::RunSystem(c) => if nested {
                (r, s, Err(RegistryError::NestedRun))
            } else {
                let (r1, s1, res) = run_system_spec(r, s, c.system, true);
                if res is Err {
                    (r1, s1, res)
                } else {
                    apply_spec(r1, s1, cmds.drop_first(), nested)
                }
            },
        }
    }
}

/// Runs system `f` by identity: registers it under its default labels if no
/// system carries its automatic label, then runs the first system that does.
pub open spec fn run_system_spec(r: RegistryView, s: Storage, f: SystemFn, nested: bool) -> Outcome
    decreases depth(nested), 4nat, 0nat,
{
    let r1 = if r.labels.contains_key(LabelView::Auto(f)) {
        r
    } else {
        register_spec(r, initialized(f), f.default_labels_spec())
    };
    if r1.labels.contains_key(LabelView::Auto(f)) && r1.labels[LabelView::Auto(f)].len() > 0 {
        execute_spec(r1, s, r1.labels[LabelView::Auto(f)][0], nested)
    } else {
        (r1, s, Ok(()))
    }
}

/// Runs the systems at positions `ps` in order, stopping at the first error.
pub open spec fn run_positions_spec(r: RegistryView, s: Storage, ps: Seq<usize>, nested: bool) -> Outcome
    decreases depth(nested), 4nat, ps.len(),
{
    if ps.len() == 0 {
        (r, s, Ok(()))
    } else {
        let (r1, s1, res) = execute_spec(r, s, ps[0], nested);
        if res is Err {
            (r1, s1, res)
        } else {
            run_positions_spec(r1, s1, ps.drop_first(), nested)
        }
    }
}

/// Runs every system registered under `l`, in registration order; fails if
/// there is none.
pub open spec fn run_label_spec(r: RegistryView, s: Storage, l: LabelView) -> Outcome {
    if r.labels.contains_key(l) {
        run_positions_spec(r, s, r.labels[l], false)
    } else {
        (r, s, Err(RegistryError::UnregisteredLabel))
    }
}

/// Adding one label keeps the labels well formed when `pos < n`.
pub proof fn lemma_add_label(m: Map<LabelView, Seq<usize>>, l: LabelView, pos: usize, n: nat)
    requires
        pos < n,
        labels_wf(m, n),
    ensures
        labels_wf(add_label(m, l, pos), n),
        add_label(m, l, pos).contains_key(l),
        forall|k: LabelView| m.contains_key(k) ==> #[trigger] add_label(m, l, pos).contains_key(k),
{
    let m1 = add_label(m, l, pos);
    assert forall|k: LabelView| #[trigger] m1.contains_key(k) implies {
        &&& m1[k].len() > 0
        &&& forall|j: int| 0 <= j < m1[k].len() ==> (#[trigger] m1[k][j]) < n
    } by {
        if k != l {
            assert(m.contains_key(k));
        } else if m.contains_key(k) {
            assert forall|j: int| 0 <= j < m1[k].len() implies (#[trigger] m1[k][j]) < n by {
                if j < m[k].len() {
                    assert(m1[k][j] == m[k][j]);
                }
            }
        }
    }
}

/// Adding labels keeps the registry well formed once the new system is stored
/// at `pos`, and lists `pos` under every added label.
pub proof fn lemma_add_labels(m: Map<LabelView, Seq<usize>>, ls: Seq<LabelView>, pos: usize, n: nat)
    requires
        pos < n,
        labels_wf(m, n),
    ensures
        labels_wf(add_labels(m, ls, pos), n),
        forall|l: LabelView| m.contains_key(l) ==> #[trigger] add_labels(m, ls, pos).contains_key(l),
        forall|j: int| 0 <= j < ls.len() ==> #[trigger] add_labels(m, ls, pos).contains_key(ls[j]),
    decreases ls.len(),
{
    if ls.len() > 0 {
        let m1 = add_label(m, ls[0], pos);
        lemma_add_label(m, ls[0], pos, n);
        lemma_add_labels(m1, ls.drop_first(), pos, n);
        assert forall|j: int| 0 <= j < ls.len() implies #[trigger] add_labels(m, ls, pos).contains_key(ls[j]) by {
            if j > 0 {
                assert(ls.drop_first()[j - 1] == ls[j]);
            }
        }
    }
}


impl SystemRegistry {
    /// The registry is well formed.
    pub open spec fn wf(&self) -> bool {
        registry_wf(self@)
    }

    /// An empty registry.
    pub fn new() -> (r: SystemRegistry)
        ensures
            r@.systems.len() == 0,
            r@.labels.dom().is_empty(),
            r.wf(),
    {
        SystemRegistry { systems: Vec::new(), labels: index_new() }
    }

    /// Registers `system` under one label. It is not run.
    pub fn register_system(&mut self, storage: &mut Storage, system: SystemFn, label: SystemLabel)
        requires
            old(self).wf(),
        ensures
            final(self).wf(),
            final(self)@ == register_spec(old(self)@, initialized(system), seq![label@]),
            *final(storage) == *old(storage),
    {
        let labels = vec![label];
        assert(label_views(labels@) =~= seq![labels@[0]@]);
        self.register_boxed_system_with_labels(storage, StoredSystem::new(system), labels);
    }

    /// Registers `system` under each of `labels`, in order. It is not run.
    pub fn register_system_with_labels(&mut self, storage: &mut Storage, system: SystemFn, labels: Vec<SystemLabel>)
        requires
            old(self).wf(),
        ensures
            final(self).wf(),
            final(self)@ == register_spec(old(self)@, initialized(system), label_views(labels@)),
            *final(storage) == *old(storage),
    {
        self.register_boxed_system_with_labels(storage, StoredSystem::new(system), labels);
    }

    /// Stores an initialized system at the end of the registry and lists its
    /// position under each of `labels`. Nothing is deduplicated: a system
    /// registered twice is stored twice, with separate state.
    pub fn register_boxed_system_with_labels(
        &mut self,
        storage: &mut Storage,
        stored: StoredSystem,
        labels: Vec<SystemLabel>,
    )
        requires
            old(self).wf(),
        ensures
            final(self).wf(),
            final(self)@ == register_spec(old(self)@, stored, label_views(labels@)),
            *final(storage) == *old(storage),
    {
        let pos = self.systems.len();
        self.systems.push(stored);
        let ghost ls = label_views(labels@);
        let ghost m0 = index_entries(self.labels);
        proof {
            assert(labels_wf(m0, self.systems@.len()));
            lemma_add_labels(m0, ls, pos, self.systems@.len());
            assert(ls.skip(0) =~= ls);
        }
        let mut i: usize = 0;
        while i < labels.len()
            invariant
                i <= labels.len(),
                ls == label_views(labels@),
                self.systems@ == old(self).systems@.push(stored),
                pos == old(self).systems@.len(),
                labels_wf(index_entries(self.labels), self.systems@.len()),
                add_labels(m0, ls, pos) == add_labels(index_entries(self.labels), ls.skip(i as int), pos),
            decreases labels.len() - i,
        {
            let ghost m = index_entries(self.labels);
            let label = labels[i].dyn_clone();
            proof {
                assert(ls.skip(i as int).drop_first() =~= ls.skip(i as int + 1));
                assert(ls.skip(i as int)[0] == label@);
            }
            let ghost lv = label@;
            match index_get(&self.labels, &label) {
                Some(v) => {
                    let mut positions = v.clone();
                    assert(positions@ =~= m[lv]);
                    positions.push(pos);
                    index_insert(&mut self.labels, label, positions);
                    assert(index_entries(self.labels) == m.insert(lv, m[lv].push(pos)));
                },
                None => {
                    let positions = vec![pos];
                    assert(positions@ =~= seq![pos]);
                    index_insert(&mut self.labels, label, positions);
                },
            }
            proof {
                lemma_add_label(m, label@, pos, self.systems@.len());
                assert(index_entries(self.labels) =~= add_label(m, lv, pos));
            }
            i = i + 1;
        }
        proof {
            assert(ls.skip(i as int) =~= Seq::<LabelView>::empty());
        }
    }

    /// How many systems are stored.
    pub fn len(&self) -> (r: usize)
        ensures
            r == self@.systems.len(),
    {
        self.systems.len()
    }

    /// Whether at least one system is registered under `label`.
    pub fn is_label_registered(&self, label: &SystemLabel) -> (r: bool)
        ensures
            r == self@.labels.contains_key(label@),
    {
        index_get(&self.labels, label).is_some()
    }

    /// The position of the first system registered under `label`.
    fn first_registered_index(&self, label: &SystemLabel) -> (r: usize)
        requires
            self.wf(),
            self@.labels.contains_key(label@),
        ensures
            r == self@.labels[label@][0],
            r < self@.systems.len(),
    {
        match index_get(&self.labels, label) {
            Some(v) => v[0],
            None => 0,
        }
    }

    /// Runs the system at `index` once, then applies the commands it queued.
    fn run_system_at_index(&mut self, storage: &mut Storage, index: usize, nested: bool) -> (r: Result<(), RegistryError>)
        requires
            old(self).wf(),
            index < old(self)@.systems.len(),
        ensures
            final(self).wf(),
            final(self)@.systems.len() >= old(self)@.systems.len(),
            (final(self)@, *final(storage), r) == execute_spec(old(self)@, *old(storage), index, nested),
        decreases depth(nested), 3nat, 0nat,
    {
        let mut stored = self.systems[index];
        let commands = stored.run(storage);
        self.systems.set(index, stored);
        self.apply_commands(storage, commands, nested)
    }

    /// Applies `commands` in order; a command that runs a system runs it by
    /// identity, unless this is itself a nested run.
    fn apply_commands(&mut self, storage: &mut Storage, commands: Vec<Command>, nested: bool) -> (r: Result<(), RegistryError>)
        requires
            old(self).wf(),
        ensures
            final(self).wf(),
            final(self)@.systems.len() >= old(self)@.systems.len(),
            (final(self)@, *final(storage), r) == apply_spec(old(self)@, *old(storage), commands@, nested),
        decreases depth(nested), 2nat, commands@.len(),
    {
        let mut i: usize = 0;
        assert(commands@.skip(0) =~= commands@);
        while i < commands.len()
            invariant
                i <= commands.len(),
                self.wf(),
                self@.systems.len() >= old(self)@.systems.len(),
                apply_spec(old(self)@, *old(storage), commands@, nested)
                    == apply_spec(self@, *storage, commands@.skip(i as int), nested),
            decreases commands.len() - i,
        {
            proof {
                assert(commands@.skip(i as int).drop_first() =~= commands@.skip(i as int + 1));
            }
            match commands[i] {
                Command::Spawn => {
                    storage.entities.count = storage.entities.count.wrapping_add(1);
                },
                Command::RunSystem(c) => {
                    if nested {
                        return Err(RegistryError::NestedRun);
                    }
                    let res = self.run_system_by_id(storage, c.system, true);
                    if res.is_err() {
                        return res;
                    }
                },
            }
            i = i + 1;
        }
        proof {
            assert(commands@.skip(i as int) =~= Seq::<Command>::empty());
        }
        Ok(())
    }

    /// Runs `system` by identity, registering it on its first run.
    fn run_system_by_id(&mut self, storage: &mut Storage, system: SystemFn, nested: bool) -> (r: Result<(), RegistryError>)
        requires
            old(self).wf(),
        ensures
            final(self).wf(),
            final(self)@.systems.len() >= old(self)@.systems.len(),
            (final(self)@, *final(storage), r) == run_system_spec(old(self)@, *old(storage), system, nested),
        decreases depth(nested), 4nat, 0nat,
    {
        let auto = SystemLabel::Auto(system);
        let ghost r1 = if old(self)@.labels.contains_key(auto@) {
            old(self)@
        } else {
            register_spec(old(self)@, initialized(system), system.default_labels_spec())
        };
        if !self.is_label_registered(&auto) {
            let labels = system.default_labels();
            let pos = self.systems.len();
            self.register_boxed_system_with_labels(storage, StoredSystem::new(system), labels);
            proof {
                lemma_add_labels(old(self)@.labels, system.default_labels_spec(), pos, self@.systems.len());
                assert(system.default_labels_spec()[0] == auto@);
            }
        }
        assert(self@ == r1);
        assert(r1.labels.contains_key(auto@));
        let index = self.first_registered_index(&auto);
        self.run_system_at_index(storage, index, nested)
    }

    /// Runs the systems listed under `label`, in registration order.
    fn run_systems_by_boxed_label(&mut self, storage: &mut Storage, label: &SystemLabel) -> (r: Result<(), RegistryError>)
        requires
            old(self).wf(),
        ensures
            final(self).wf(),
            (final(self)@, *final(storage), r) == run_label_spec(old(self)@, *old(storage), label@),
    {
        let positions = match index_get(&self.labels, label) {
            Some(v) => v.clone(),
            None => {
                return Err(RegistryError::UnregisteredLabel);
            },
        };
        assert(positions@ =~= self@.labels[label@]);
        let ghost ps = positions@;
        let mut i: usize = 0;
        assert(ps.skip(0) =~= ps);
        while i < positions.len()
            invariant
                i <= positions.len(),
                ps == positions@,
                ps == old(self)@.labels[label@],
                old(self)@.labels.contains_key(label@),
                self.wf(),
                self@.systems.len() >= old(self)@.systems.len(),
                forall|j: int| 0 <= j < ps.len() ==> (#[trigger] ps[j]) < old(self)@.systems.len(),
                run_positions_spec(old(self)@, *old(storage), ps, false)
                    == run_positions_spec(self@, *storage, ps.skip(i as int), false),
            decreases positions.len() - i,
        {
            proof {
                assert(ps.skip(i as int).drop_first() =~= ps.skip(i as int + 1));
                assert(ps.skip(i as int)[0] == ps[i as int]);
            }
            let res = self.run_system_at_index(storage, positions[i], false);
            if res.is_err() {
                return res;
            }
            i = i + 1;
        }
        proof {
            assert(ps.skip(i as int) =~= Seq::<usize>::empty());
        }
        Ok(())
    }

    /// Runs every system registered under `label` once, in registration order,
    /// applying each one's commands before the next starts. Fails with
    /// `UnregisteredLabel`, changing nothing, when no system was registered
    /// under `label`.
    pub fn run_systems_by_label(&mut self, storage: &mut Storage, label: SystemLabel) -> (r: Result<(), RegistryError>)
        requires
            old(self).wf(),
        ensures
            final(self).wf(),
            (final(self)@, *final(storage), r) == run_label_spec(old(self)@, *old(storage), label@),
            !old(self)@.labels.contains_key(label@) ==> r == Err::<(), RegistryError>(
                RegistryError::UnregisteredLabel,
            ) && *final(storage) == *old(storage),
    {
        let boxed_label = label.dyn_clone();
        self.run_systems_by_boxed_label(storage, &boxed_label)
    }

    /// Runs `system` once by identity. The first run registers it under its
    /// default labels; every later run reuses the same stored system and its
    /// state. Commands it queues are applied before this returns.
    pub fn run_system(&mut self, storage: &mut Storage, system: SystemFn) -> (r: Result<(), RegistryError>)
        requires
            old(self).wf(),
        ensures
            final(self).wf(),
            (final(self)@, *final(storage), r) == run_system_spec(old(self)@, *old(storage), system, false),
    {
        self.run_system_by_id(storage, system, false)
    }
}

} // verus!
