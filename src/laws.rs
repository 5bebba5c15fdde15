use vstd::prelude::*;

use crate::commands::{Command, RunSystemCommand};
use crate::label::LabelView;
use crate::registry::{
    add_label, add_labels, apply_spec, execute_spec, labels_wf, lemma_add_label, register_spec,
    registry_wf, run_label_spec, run_positions_spec, run_system_spec, RegistryError, RegistryView,
};
use crate::systems::{initialized, run_unit, StoredSystem, SystemFn};
use crate::world::{inc_u64, Entities, Storage};

verus! {

/// `r1` is `r` grown: no stored system is lost, no label is lost, and every
/// label's list keeps its old positions as a prefix.
pub open spec fn extends(r: RegistryView, r1: RegistryView) -> bool {
    &&& r1.systems.len() >= r.systems.len()
    &&& forall|k: LabelView| #[trigger] r.labels.contains_key(k) ==> {
        &&& r1.labels.contains_key(k)
        &&& r1.labels[k].len() >= r.labels[k].len()
        &&& forall|j: int| 0 <= j < r.labels[k].len() ==> #[trigger] r1.labels[k][j] == r.labels[k][j]
    }
}

proof fn lemma_extends_trans(a: RegistryView, b: RegistryView, c: RegistryView)
    requires
        extends(a, b),
        extends(b, c),
    ensures
        extends(a, c),
{
    assert forall|k: LabelView| #[trigger] a.labels.contains_key(k) implies {
        &&& c.labels.contains_key(k)
        &&& c.labels[k].len() >= a.labels[k].len()
        &&& forall|j: int| 0 <= j < a.labels[k].len() ==> #[trigger] c.labels[k][j] == a.labels[k][j]
    } by {
        assert(b.labels.contains_key(k));
        assert forall|j: int| 0 <= j < a.labels[k].len() implies #[trigger] c.labels[k][j] == a.labels[k][j] by {
            assert(b.labels[k][j] == a.labels[k][j]);
        }
    }
}

proof fn lemma_register_extends(r: RegistryView, u: StoredSystem, ls: Seq<LabelView>)
    requires
        registry_wf(r),
    ensures
        registry_wf(register_spec(r, u, ls)),
        extends(r, register_spec(r, u, ls)),
        forall|j: int| 0 <= j < ls.len() ==> #[trigger] register_spec(r, u, ls).labels.contains_key(ls[j]),
{
    let n = r.systems.len() + 1;
    assert(labels_wf(r.labels, n));
    let m2 = add_labels(r.labels, ls, r.systems.len() as usize);
    lemma_add_labels_extends(r.labels, ls, r.systems.len() as usize, n);
    assert forall|k: LabelView| #[trigger] r.labels.contains_key(k) implies {
        &&& m2.contains_key(k)
        &&& m2[k].len() >= r.labels[k].len()
        &&& forall|j: int| 0 <= j < r.labels[k].len() ==> #[trigger] m2[k][j] == r.labels[k][j]
    } by {
        let e = RegistryView { systems: Seq::empty(), labels: r.labels };
        assert(e.labels.contains_key(k));
    }
}

proof fn lemma_add_labels_extends(m: Map<LabelView, Seq<usize>>, ls: Seq<LabelView>, pos: usize, n: nat)
    requires
        pos < n,
        labels_wf(m, n),
    ensures
        labels_wf(add_labels(m, ls, pos), n),
        extends(
            RegistryView { systems: Seq::empty(), labels: m },
            RegistryView { systems: Seq::empty(), labels: add_labels(m, ls, pos) },
        ),
        forall|j: int| 0 <= j < ls.len() ==> #[trigger] add_labels(m, ls, pos).contains_key(ls[j]),
    decreases ls.len(),
{
    let e = RegistryView { systems: Seq::empty(), labels: m };
    if ls.len() > 0 {
        let m1 = add_label(m, ls[0], pos);
        lemma_add_label(m, ls[0], pos, n);
        let e1 = RegistryView { systems: Seq::empty(), labels: m1 };
        assert forall|k: LabelView| #[trigger] m.contains_key(k) implies {
            &&& m1.contains_key(k)
            &&& m1[k].len() >= m[k].len()
            &&& forall|j: int| 0 <= j < m[k].len() ==> #[trigger] m1[k][j] == m[k][j]
        } by {
            if k == ls[0] {
                assert forall|j: int| 0 <= j < m[k].len() implies #[trigger] m1[k][j] == m[k][j] by {
                    assert(m1[k] == m[k].push(pos));
                }
            }
        }
        assert(extends(e, e1));
        lemma_add_labels_extends(m1, ls.drop_first(), pos, n);
        lemma_extends_trans(e, e1, RegistryView { systems: Seq::empty(), labels: add_labels(m, ls, pos) });
        assert forall|j: int| 0 <= j < ls.len() implies #[trigger] add_labels(m, ls, pos).contains_key(ls[j]) by {
            if j > 0 {
                assert(ls.drop_first()[j - 1] == ls[j]);
            } else {
                let ef = RegistryView { systems: Seq::empty(), labels: add_labels(m1, ls.drop_first(), pos) };
                assert(e1.labels.contains_key(ls[0]));
                assert(ef.labels.contains_key(ls[0]));
                assert(add_labels(m, ls, pos) == ef.labels);
            }
        }
    } else {
        assert(extends(e, e));
    }
}

/// Running the system at a position only grows the registry and keeps it well
/// formed.
pub proof fn lemma_execute_extends(r: RegistryView, s: Storage, i: usize, nested: bool)
    requires
        registry_wf(r),
    ensures
        registry_wf(execute_spec(r, s, i, nested).0),
        extends(r, execute_spec(r, s, i, nested).0),
    decreases crate::registry::depth(nested), 3nat, 0nat,
{
    if i < r.systems.len() {
        let (u, s1, cmds) = run_unit(r.systems[i as int], s);
        let r1 = RegistryView { systems: r.systems.update(i as int, u), ..r };
        assert(extends(r, r1));
        lemma_apply_extends(r1, s1, cmds, nested);
        lemma_extends_trans(r, r1, execute_spec(r, s, i, nested).0);
    } else {
        assert(extends(r, r));
    }
}

/// Applying commands only grows the registry and keeps it well formed.
pub proof fn lemma_apply_extends(r: RegistryView, s: Storage, cmds: Seq<Command>, nested: bool)
    requires
        registry_wf(r),
    ensures
        registry_wf(apply_spec(r, s, cmds, nested).0),
        extends(r, apply_spec(r, s, cmds, nested).0),
    decreases crate::registry::depth(nested), 2nat, cmds.len(),
{
    if cmds.len() == 0 {
        assert(extends(r, r));
    } else {
        match cmds[0] {
            Command::Spawn => {
                lemma_apply_extends(
                    r,
                    Storage { entities: Entities { count: inc_u64(s.entities.count) }, ..s },
                    cmds.drop_first(),
                    nested,
                );
            },
            Command::RunSystem(c) => {
                if nested {
                    assert(extends(r, r));
                } else {
                    let (r1, s1, res) = run_system_spec(r, s, c.system, true);
                    lemma_run_system_extends(r, s, c.system, true);
                    if !(res is Err) {
                        lemma_apply_extends(r1, s1, cmds.drop_first(), nested);
                        lemma_extends_trans(r, r1, apply_spec(r, s, cmds, nested).0);
                    }
                }
            },
        }
    }
}

/// Running a system by identity only grows the registry and keeps it well
/// formed.
pub proof fn lemma_run_system_extends(r: RegistryView, s: Storage, f: SystemFn, nested: bool)
    requires
        registry_wf(r),
    ensures
        registry_wf(run_system_spec(r, s, f, nested).0),
        extends(r, run_system_spec(r, s, f, nested).0),
        run_system_spec(r, s, f, nested).0.labels.contains_key(LabelView::Auto(f)),
    decreases crate::registry::depth(nested), 4nat, 0nat,
{
    let r1 = if r.labels.contains_key(LabelView::Auto(f)) {
        assert(extends(r, r));
        r
    } else {
        lemma_register_extends(r, initialized(f), f.default_labels_spec());
        assert(f.default_labels_spec()[0] == LabelView::Auto(f));
        register_spec(r, initialized(f), f.default_labels_spec())
    };
    assert(r1.labels.contains_key(LabelView::Auto(f)));
    let i = r1.labels[LabelView::Auto(f)][0];
    lemma_execute_extends(r1, s, i, nested);
    lemma_extends_trans(r, r1, run_system_spec(r, s, f, nested).0);
}

/// Running systems at positions only grows the registry and keeps it well
/// formed.
pub proof fn lemma_positions_extend(r: RegistryView, s: Storage, ps: Seq<usize>, nested: bool)
    requires
        registry_wf(r),
    ensures
        registry_wf(run_positions_spec(r, s, ps, nested).0),
        extends(r, run_positions_spec(r, s, ps, nested).0),
    decreases crate::registry::depth(nested), 4nat, ps.len(),
{
    if ps.len() == 0 {
        assert(extends(r, r));
    } else {
        let (r1, s1, res) = execute_spec(r, s, ps[0], nested);
        lemma_execute_extends(r, s, ps[0], nested);
        if !(res is Err) {
            lemma_positions_extend(r1, s1, ps.drop_first(), nested);
            lemma_extends_trans(r, r1, run_positions_spec(r, s, ps, nested).0);
        }
    }
}

/// The positions listed under `k` in `m`; none when `k` is absent.
pub open spec fn listed(m: Map<LabelView, Seq<usize>>, k: LabelView) -> Seq<usize> {
    if m.contains_key(k) { m[k] } else { Seq::empty() }
}

proof fn lemma_add_one(m: Map<LabelView, Seq<usize>>, l: LabelView, pos: usize)
    ensures
        add_labels(m, seq![l], pos) == add_label(m, l, pos),
{
    assert(seq![l].drop_first() =~= Seq::<LabelView>::empty());
    assert(add_labels(add_label(m, l, pos), Seq::<LabelView>::empty(), pos) == add_label(m, l, pos));
}

/// The system that runs `f` by identity: the first one registered under `f`'s
/// automatic label, after `f` has been registered if no system carried it.
pub open spec fn cached_position(r: RegistryView, f: SystemFn) -> usize {
    let r0 = if r.labels.contains_key(LabelView::Auto(f)) {
        r
    } else {
        register_spec(r, initialized(f), f.default_labels_spec())
    };
    r0.labels[LabelView::Auto(f)][0]
}

/// Running a system by identity twice reuses one stored system: the second
/// run registers nothing and runs the system at the same position as the first,
/// starting from the state that the first run left in it.
pub proof fn law_identity_caching(r: RegistryView, s: Storage, f: SystemFn)
    requires
        registry_wf(r),
    ensures
        cached_position(run_system_spec(r, s, f, false).0, f) == cached_position(r, f),
        run_system_spec(r, s, f, false).0.labels.contains_key(LabelView::Auto(f)),
        run_system_spec(run_system_spec(r, s, f, false).0, run_system_spec(r, s, f, false).1, f, false)
            == execute_spec(
                run_system_spec(r, s, f, false).0,
                run_system_spec(r, s, f, false).1,
                cached_position(r, f),
                false,
            ),
{
    let r0 = if r.labels.contains_key(LabelView::Auto(f)) {
        r
    } else {
        lemma_register_extends(r, initialized(f), f.default_labels_spec());
        assert(f.default_labels_spec()[0] == LabelView::Auto(f));
        register_spec(r, initialized(f), f.default_labels_spec())
    };
    assert(r0.labels.contains_key(LabelView::Auto(f)));
    let p = cached_position(r, f);
    lemma_execute_extends(r0, s, p, false);
    let r1 = run_system_spec(r, s, f, false).0;
    assert(r1 == execute_spec(r0, s, p, false).0);
    assert(r1.labels.contains_key(LabelView::Auto(f)));
    assert(r1.labels[LabelView::Auto(f)][0] == r0.labels[LabelView::Auto(f)][0]);
}

/// Three systems registered under one new label are listed under it in
/// registration order, and running the label runs them in that order, each
/// on the world that the one before it left.
pub proof fn law_label_fan_out(
    r: RegistryView,
    s: Storage,
    l: LabelView,
    u1: StoredSystem,
    u2: StoredSystem,
    u3: StoredSystem,
)
    requires
        registry_wf(r),
        !r.labels.contains_key(l),
        r.systems.len() + 3 <= usize::MAX,
    ensures
        ({
            let n = r.systems.len();
            let r3 = register_spec(
                register_spec(register_spec(r, u1, seq![l]), u2, seq![l]),
                u3,
                seq![l],
            );
            &&& r3.systems == r.systems.push(u1).push(u2).push(u3)
            &&& r3.labels[l] == seq![n as usize, (n + 1) as usize, (n + 2) as usize]
            &&& run_label_spec(r3, s, l) == run_positions_spec(
                r3,
                s,
                seq![n as usize, (n + 1) as usize, (n + 2) as usize],
                false,
            )
        }),
{
    let n = r.systems.len();
    let r1 = register_spec(r, u1, seq![l]);
    let r2 = register_spec(r1, u2, seq![l]);
    let r3 = register_spec(r2, u3, seq![l]);
    lemma_add_one(r.labels, l, n as usize);
    lemma_add_one(r1.labels, l, (n + 1) as usize);
    lemma_add_one(r2.labels, l, (n + 2) as usize);
    assert(r1.labels[l] == seq![n as usize]);
    assert(r2.labels[l] =~= seq![n as usize, (n + 1) as usize]);
    assert(r3.labels[l] =~= seq![n as usize, (n + 1) as usize, (n + 2) as usize]);
}

/// A system registered under two labels is listed, at its new position, under
/// each of them; no other label changes; and running either label runs exactly
/// the systems listed under it.
pub proof fn law_multi_label(r: RegistryView, s: Storage, u: StoredSystem, a: LabelView, b: LabelView)
    requires
        registry_wf(r),
        a != b,
    ensures
        ({
            let n = r.systems.len() as usize;
            let r1 = register_spec(r, u, seq![a, b]);
            &&& r1.labels[a] == listed(r.labels, a).push(n)
            &&& r1.labels[b] == listed(r.labels, b).push(n)
            &&& forall|k: LabelView| k != a && k != b ==> #[trigger] listed(r1.labels, k) == listed(r.labels, k)
            &&& run_label_spec(r1, s, a) == run_positions_spec(r1, s, r1.labels[a], false)
            &&& run_label_spec(r1, s, b) == run_positions_spec(r1, s, r1.labels[b], false)
        }),
{
    let n = r.systems.len() as usize;
    let ls = seq![a, b];
    let m1 = add_label(r.labels, a, n);
    assert(ls.drop_first() =~= seq![b]);
    lemma_add_one(m1, b, n);
    assert(add_labels(r.labels, ls, n) == add_labels(m1, seq![b], n));
    let r1 = register_spec(r, u, ls);
    assert(r1.labels == add_label(m1, b, n));
    if r.labels.contains_key(a) {
        assert(r1.labels[a] == r.labels[a].push(n));
    } else {
        assert(r1.labels[a] =~= Seq::<usize>::empty().push(n));
    }
    if r.labels.contains_key(b) {
        assert(r1.labels[b] == r.labels[b].push(n));
    } else {
        assert(r1.labels[b] =~= Seq::<usize>::empty().push(n));
    }
}

/// Running a label under which nothing was registered fails and changes
/// nothing.
pub proof fn law_unregistered_label_fails(r: RegistryView, s: Storage, l: LabelView)
    requires
        !r.labels.contains_key(l),
    ensures
        run_label_spec(r, s, l) == (r, s, Err::<(), RegistryError>(RegistryError::UnregisteredLabel)),
{
}

/// The entity that a system queues for spawning exists as soon as the run of
/// that system returns.
pub proof fn law_deferred_writes_flushed(r: RegistryView, s: Storage, i: usize, nested: bool)
    requires
        i < r.systems.len(),
        r.systems[i as int].system == SystemFn::SpawnEntity,
    ensures
        execute_spec(r, s, i, nested) == (
            RegistryView { systems: r.systems.update(i as int, run_unit(r.systems[i as int], s).0), ..r },
            Storage {
                entities: Entities { count: inc_u64(s.entities.count) },
                ..run_unit(r.systems[i as int], s).1
            },
            Ok::<(), RegistryError>(()),
        ),
{
    let (u, s1, cmds) = run_unit(r.systems[i as int], s);
    assert(cmds == seq![Command::Spawn]);
    assert(cmds.drop_first() =~= Seq::<Command>::empty());
}

/// A system run that queues a run of another system does not run it inline:
/// the other system runs, as a nested run, on the world and registry that the
/// first one left once it returned.
pub proof fn law_deferred_run_not_inline(r: RegistryView, s: Storage, i: usize, c: RunSystemCommand)
    requires
        i < r.systems.len(),
        run_unit(r.systems[i as int], s).2 == seq![Command::RunSystem(c)],
    ensures
        execute_spec(r, s, i, false) == run_system_spec(
            RegistryView { systems: r.systems.update(i as int, run_unit(r.systems[i as int], s).0), ..r },
            run_unit(r.systems[i as int], s).1,
            c.system,
            true,
        ),
{
    let (u, s1, cmds) = run_unit(r.systems[i as int], s);
    assert(cmds.drop_first() =~= Seq::<Command>::empty());
    let r1 = RegistryView { systems: r.systems.update(i as int, u), ..r };
    let (r2, s2, res) = run_system_spec(r1, s1, c.system, true);
    assert(apply_spec(r2, s2, cmds.drop_first(), false) == (r2, s2, Ok::<(), RegistryError>(())));
    assert(execute_spec(r, s, i, false) == apply_spec(r1, s1, cmds, false));
    assert(cmds[0] == Command::RunSystem(c));
    match res {
        Ok(v) => {
            assert(apply_spec(r1, s1, cmds, false) == apply_spec(r2, s2, cmds.drop_first(), false));
            assert(v == ());
            assert(res == Ok::<(), RegistryError>(()));
        },
        Err(_) => {
            assert(apply_spec(r1, s1, cmds, false) == (r2, s2, res));
        },
    }
}

} // verus!
