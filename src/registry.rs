use vstd::prelude::*;
use std::collections::HashMap;

verus! {

/// A scrape target and its labels.
pub struct Machine {
    target: String,
    labels: HashMap<String, String>,
}

/// What a machine holds, as mathematical values.
pub struct MachineView {
    pub target: Seq<char>,
    pub labels: Map<String, String>,
}

impl View for Machine {
    type V = MachineView;

    closed spec fn view(&self) -> MachineView {
        MachineView { target: self.target@, labels: self.labels@ }
    }
}

impl Clone for Machine {
    fn clone(&self) -> (r: Self)
        ensures
            r@ == self@,
    {
        Machine { target: self.target.clone(), labels: self.labels.clone() }
    }
}

impl Machine {
    pub fn new(target: String, labels: HashMap<String, String>) -> (r: Self)
        ensures
            r@ == (MachineView { target: target@, labels: labels@ }),
    {
        Machine { target, labels }
    }

    pub fn target(&self) -> (r: &String)
        ensures
            r@ == self@.target,
    {
        &self.target
    }

    pub fn labels(&self) -> (r: &HashMap<String, String>)
        ensures
            r@ == self@.labels,
    {
        &self.labels
    }
}

/// The views of a sequence of machines.
pub open spec fn views(s: Seq<Machine>) -> Seq<MachineView> {
    s.map_values(|m: Machine| m@)
}

/// The index of the first machine at or after `i` whose target is `target`,
/// or -1.
pub open spec fn position_from(s: Seq<MachineView>, target: Seq<char>, i: int) -> int
    decreases s.len() - i,
{
    if 0 <= i < s.len() {
        if s[i].target == target {
            i
        } else {
            position_from(s, target, i + 1)
        }
    } else {
        -1
    }
}

/// The index of the machine whose target is `target`, or -1.
pub open spec fn position(s: Seq<MachineView>, target: Seq<char>) -> int {
    position_from(s, target, 0)
}

/// The registry after adding `m`: it takes the place of the machine with the
/// same target, or comes last when there is none.
pub open spec fn upsert(s: Seq<MachineView>, m: MachineView) -> Seq<MachineView> {
    let p = position(s, m.target);
    if p >= 0 {
        s.update(p, m)
    } else {
        s.push(m)
    }
}

/// The registry without the machine whose target is `target`.
pub open spec fn without(s: Seq<MachineView>, target: Seq<char>) -> Seq<MachineView> {
    let p = position(s, target);
    if p >= 0 {
        s.remove(p)
    } else {
        s
    }
}

/// The registry after adding each of `ms` in turn to `s`.
pub open spec fn upsert_all(s: Seq<MachineView>, ms: Seq<MachineView>) -> Seq<MachineView>
    decreases ms.len(),
{
    if ms.len() == 0 {
        s
    } else {
        upsert(upsert_all(s, ms.drop_last()), ms.last())
    }
}

/// No two machines share a target.
pub open spec fn unique_targets(s: Seq<MachineView>) -> bool {
    forall|i: int, j: int| 0 <= i < j < s.len() ==> #[trigger] s[i].target != #[trigger] s[j].target
}

proof fn lemma_position_from(s: Seq<MachineView>, target: Seq<char>, i: int)
    requires
        0 <= i <= s.len(),
    ensures
        position_from(s, target, i) == -1 ==> forall|j: int| i <= j < s.len() ==> #[trigger] s[j].target != target,
        position_from(s, target, i) != -1 ==> i <= position_from(s, target, i) < s.len()
            && s[position_from(s, target, i)].target == target,
    decreases s.len() - i,
{
    if i < s.len() && s[i].target != target {
        lemma_position_from(s, target, i + 1);
    }
}

proof fn lemma_upsert_unique(s: Seq<MachineView>, m: MachineView)
    requires
        unique_targets(s),
    ensures
        unique_targets(upsert(s, m)),
{
    lemma_position_from(s, m.target, 0);
}

/// The machines of one registry, with the file they are kept in.
pub struct MachineManager {
    cfg_path: String,
    machines: Vec<Machine>,
}

impl View for MachineManager {
    type V = Seq<MachineView>;

    /// The machines in the order they were first added.
    closed spec fn view(&self) -> Seq<MachineView> {
        views(self.machines@)
    }
}

impl MachineManager {
    pub closed spec fn wf(&self) -> bool {
        unique_targets(self@)
    }

    pub closed spec fn path(&self) -> Seq<char> {
        self.cfg_path@
    }

    /// An empty registry kept in `cfg_path`.
    pub fn new(cfg_path: String) -> (r: Self)
        ensures
            r.wf(),
            r@ == Seq::<MachineView>::empty(),
            r.path() == cfg_path@,
    {
        let r = MachineManager { cfg_path, machines: Vec::new() };
        assert(r@ =~= Seq::<MachineView>::empty());
        r
    }

    /// A registry kept in `cfg_path` holding `machines`, added in order: a
    /// later machine replaces an earlier one with the same target.
    pub fn with_machines(cfg_path: String, machines: Vec<Machine>) -> (r: Self)
        ensures
            r.wf(),
            r@ == upsert_all(Seq::empty(), views(machines@)),
            r.path() == cfg_path@,
    {
        let ghost ms = views(machines@);
        let mut r = MachineManager::new(cfg_path);
        let mut i: usize = 0;
        while i < machines.len()
            invariant
                i <= machines.len(),
                ms == views(machines@),
                r.wf(),
                r@ == upsert_all(Seq::empty(), ms.take(i as int)),
                r.path() == cfg_path@,
            decreases machines.len() - i,
        {
            assert(ms.take(i + 1).drop_last() =~= ms.take(i as int));
            r.add_machine(machines[i].clone());
            i = i + 1;
        }
        assert(ms.take(i as int) =~= ms);
        r
    }

    /// The file the registry is kept in.
    pub fn cfg_path(&self) -> (r: &String)
        ensures
            r@ == self.path(),
    {
        &self.cfg_path
    }

    fn find(&self, target: &String) -> (r: Option<usize>)
        ensures
            match r {
                Some(i) => i as int == position(self@, target@),
                None => position(self@, target@) == -1,
            },
    {
        let ghost s = self@;
        let mut i: usize = 0;
        while i < self.machines.len()
            invariant
                i <= self.machines.len(),
                s == self@,
                position_from(s, target@, i as int) == position(s, target@),
            decreases self.machines.len() - i,
        {
            if self.machines[i].target == *target {
                return Some(i);
            }
            i = i + 1;
        }
        None
    }

    /// Adds `machine`, replacing the one with the same target.
    pub fn add_machine(&mut self, machine: Machine)
        requires
            old(self).wf(),
        ensures
            final(self).wf(),
            final(self)@ == upsert(old(self)@, machine@),
            final(self).path() == old(self).path(),
    {
        proof {
            lemma_upsert_unique(self@, machine@);
            lemma_position_from(self@, machine@.target, 0);
        }
        let ghost m = machine@;
        match self.find(&machine.target) {
            Some(i) => {
                self.machines.set(i, machine);
            },
            None => {
                self.machines.push(machine);
            },
        }
        assert(self@ =~= upsert(old(self)@, m));
    }

    /// Removes the machine whose target is `machine`, if there is one.
    pub fn remove_machine(&mut self, machine: &String)
        requires
            old(self).wf(),
        ensures
            final(self).wf(),
            final(self)@ == without(old(self)@, machine@),
            final(self).path() == old(self).path(),
    {
        proof {
            lemma_position_from(self@, machine@, 0);
        }
        match self.find(machine) {
            Some(i) => {
                self.machines.remove(i);
                assert(self@ =~= without(old(self)@, machine@));
                assert(unique_targets(self@)) by {
                    assert forall|a: int, b: int| 0 <= a < b < self@.len() implies #[trigger] self@[a].target
                        != #[trigger] self@[b].target by {
                        let a0 = if a < i { a } else { a + 1 };
                        let b0 = if b < i { b } else { b + 1 };
                        assert(self@[a] == old(self)@[a0]);
                        assert(self@[b] == old(self)@[b0]);
                    }
                }
            },
            None => {
                assert(self@ =~= without(old(self)@, machine@));
            },
        }
    }

    /// The machine whose target is `machine`.
    pub fn get_machine(&mut self, machine: &String) -> (r: Option<&Machine>)
        requires
            old(self).wf(),
        ensures
            *final(self) == *old(self),
            position(old(self)@, machine@) >= 0 ==> r is Some && r->Some_0@ == old(self)@[position(
                old(self)@,
                machine@,
            )],
            position(old(self)@, machine@) < 0 ==> r is None,
    {
        proof {
            lemma_position_from(self@, machine@, 0);
        }
        match self.find(machine) {
            Some(i) => Some(&self.machines[i]),
            None => None,
        }
    }

    /// Each target with its machine, in registry order.
    pub fn get_matches(&mut self) -> (r: Vec<(String, Machine)>)
        ensures
            *final(self) == *old(self),
            r@.len() == old(self)@.len(),
            forall|i: int|
                0 <= i < r@.len() ==> (#[trigger] r@[i]).0@ == old(self)@[i].target && r@[i].1@ == old(self)@[i],
    {
        let mut r: Vec<(String, Machine)> = Vec::new();
        let mut i: usize = 0;
        while i < self.machines.len()
            invariant
                i <= self.machines.len(),
                r@.len() == i,
                forall|j: int| 0 <= j < i ==> (#[trigger] r@[j]).0@ == self@[j].target && r@[j].1@ == self@[j],
            decreases self.machines.len() - i,
        {
            let m = &self.machines[i];
            r.push((m.target.clone(), m.clone()));
            i = i + 1;
        }
        r
    }

    /// The number of machines.
    pub fn size(&self) -> (r: usize)
        ensures
            r == self@.len(),
    {
        self.machines.len()
    }

    /// The machines, in registry order.
    pub fn to_vec(&self) -> (r: Vec<Machine>)
        ensures
            views(r@) == self@,
    {
        let mut r: Vec<Machine> = Vec::new();
        let mut i: usize = 0;
        while i < self.machines.len()
            invariant
                i <= self.machines.len(),
                r@.len() == i,
                forall|j: int| 0 <= j < i ==> (#[trigger] r@[j])@ == self@[j],
            decreases self.machines.len() - i,
        {
            r.push(self.machines[i].clone());
            i = i + 1;
        }
        assert(views(r@) =~= self@);
        r
    }
}

} // verus!
