//! Schedules: named systems grouped into ordered system sets.

use vstd::prelude::*;

use crate::system::ScheduleLabel;

verus! {

/// The phase a system runs in. The five standard sets run in a fixed order;
/// custom sets run after them.
#[derive(Debug, Clone, Copy, PartialEq, Eq, Hash, Structural)]
pub enum SystemSet {
    PreUpdate,
    Update,
    PostUpdate,
    First,
    Last,
    Custom(u32),
}

impl Default for SystemSet {
    /// The update phase.
    fn default() -> (r: SystemSet)
        ensures
            r == SystemSet::Update,
    {
        SystemSet::Update
    }
}

/// Explicit before/after constraints of one system, by system name.
#[derive(Debug, Clone)]
pub struct SystemOrdering {
    pub before: Vec<String>,
    pub after: Vec<String>,
}

impl SystemOrdering {
    pub fn new() -> (r: SystemOrdering)
        ensures
            r.before@ == Seq::<String>::empty(),
            r.after@ == Seq::<String>::empty(),
    {
        SystemOrdering { before: Vec::new(), after: Vec::new() }
    }

    /// Constrains this system to run before the named one.
    pub fn before(self, system_name: &str) -> (r: SystemOrdering)
        ensures
            r.before@.len() == self.before@.len() + 1,
            forall|i: int| 0 <= i < self.before@.len() ==> r.before@[i] == self.before@[i],
            r.before@.last()@ == system_name@,
            r.after@ == self.after@,
    {
        let mut r = self;
        r.before.push(system_name.to_owned());
        r
    }

    /// Constrains this system to run after the named one.
    pub fn after(self, system_name: &str) -> (r: SystemOrdering)
        ensures
            r.after@.len() == self.after@.len() + 1,
            forall|i: int| 0 <= i < self.after@.len() ==> r.after@[i] == self.after@[i],
            r.after@.last()@ == system_name@,
            r.before@ == self.before@,
    {
        let mut r = self;
        r.after.push(system_name.to_owned());
        r
    }
}

impl Default for SystemOrdering {
    /// No constraints.
    fn default() -> (r: SystemOrdering)
        ensures
            r.before@ == Seq::<String>::empty(),
            r.after@ == Seq::<String>::empty(),
    {
        SystemOrdering::new()
    }
}

/// How one system is placed: its set, its ordering constraints, and an
/// optional run condition by name.
#[derive(Debug, Clone)]
pub struct ScheduleConfig {
    pub set: SystemSet,
    pub ordering: SystemOrdering,
    pub run_if: Option<String>,
}

impl ScheduleConfig {
    /// The update set, no constraints, no condition.
    pub fn new() -> (r: ScheduleConfig)
        ensures
            r.set == SystemSet::Update,
            r.ordering.before@ == Seq::<String>::empty(),
            r.ordering.after@ == Seq::<String>::empty(),
            r.run_if is None,
    {
        ScheduleConfig { set: SystemSet::Update, ordering: SystemOrdering::new(), run_if: None }
    }

    /// Moves the system to the given set.
    pub fn in_set(self, set: SystemSet) -> (r: ScheduleConfig)
        ensures
            r.set == set,
            r.ordering == self.ordering,
            r.run_if == self.run_if,
    {
        let mut r = self;
        r.set = set;
        r
    }

    /// Adds a before constraint.
    pub fn before(self, system_name: &str) -> (r: ScheduleConfig)
        ensures
            r.set == self.set,
            r.run_if == self.run_if,
            r.ordering.before@.len() == self.ordering.before@.len() + 1,
            forall|i: int|
                0 <= i < self.ordering.before@.len() ==> r.ordering.before@[i]
                    == self.ordering.before@[i],
            r.ordering.before@.last()@ == system_name@,
            r.ordering.after@ == self.ordering.after@,
    {
        let mut r = self;
        r.ordering = r.ordering.before(system_name);
        r
    }

    /// Adds an after constraint.
    pub fn after(self, system_name: &str) -> (r: ScheduleConfig)
        ensures
            r.set == self.set,
            r.run_if == self.run_if,
            r.ordering.after@.len() == self.ordering.after@.len() + 1,
            forall|i: int|
                0 <= i < self.ordering.after@.len() ==> r.ordering.after@[i]
                    == self.ordering.after@[i],
            r.ordering.after@.last()@ == system_name@,
            r.ordering.before@ == self.ordering.before@,
    {
        let mut r = self;
        r.ordering = r.ordering.after(system_name);
        r
    }

    /// Sets the run condition by name.
    pub fn run_if(self, condition: &str) -> (r: ScheduleConfig)
        ensures
            r.set == self.set,
            r.ordering == self.ordering,
            (match r.run_if {
                Some(c) => c@ == condition@,
                None => false,
            }),
    {
        let mut r = self;
        r.run_if = Some(condition.to_owned());
        r
    }
}

impl Default for ScheduleConfig {
    /// The same configuration `new` builds.
    fn default() -> (r: ScheduleConfig)
        ensures
            r.set == SystemSet::Update,
            r.ordering.before@ == Seq::<String>::empty(),
            r.ordering.after@ == Seq::<String>::empty(),
            r.run_if is None,
    {
        ScheduleConfig::new()
    }
}

/// Where a set stands in the fixed phase order; the five standard sets run
/// first through last, and custom sets follow them.
pub open spec fn set_rank(s: SystemSet) -> int {
    match s {
        SystemSet::First => 0,
        SystemSet::PreUpdate => 1,
        SystemSet::Update => 2,
        SystemSet::PostUpdate => 3,
        SystemSet::Last => 4,
        SystemSet::Custom(_) => 5,
    }
}

/// The names of the systems placed in the set of the given rank, in the
/// order they were added.
pub open spec fn rank_names(sys: Seq<(String, ScheduleConfig)>, rank: int) -> Seq<Seq<char>>
    decreases sys.len(),
{
    if sys.len() == 0 {
        Seq::empty()
    } else {
        let p = rank_names(sys.drop_last(), rank);
        if set_rank(sys.last().1.set) == rank {
            p.push(sys.last().0@)
        } else {
            p
        }
    }
}

/// The names of the custom-set systems appended to `acc`, oldest first, each
/// one skipped when `acc` already holds its name.
pub open spec fn with_customs(
    acc: Seq<Seq<char>>,
    sys: Seq<(String, ScheduleConfig)>,
) -> Seq<Seq<char>>
    decreases sys.len(),
{
    if sys.len() == 0 {
        acc
    } else {
        let head = sys[0];
        let acc2 = if set_rank(head.1.set) == 5 && !acc.contains(head.0@) {
            acc.push(head.0@)
        } else {
            acc
        };
        with_customs(acc2, sys.subrange(1, sys.len() as int))
    }
}

/// The full expected run order of a schedule's systems: the five standard
/// sets in order, then the custom-set systems not already named.
pub open spec fn run_order(sys: Seq<(String, ScheduleConfig)>) -> Seq<Seq<char>> {
    with_customs(
        rank_names(sys, 0) + rank_names(sys, 1) + rank_names(sys, 2) + rank_names(sys, 3)
            + rank_names(sys, 4),
        sys,
    )
}

/// One schedule: its label and its systems in the order they were added.
pub struct Schedule {
    label: ScheduleLabel,
    systems: Vec<(String, ScheduleConfig)>,
}

impl Schedule {
    /// The systems as added: name and configuration.
    pub closed spec fn systems_seq(&self) -> Seq<(String, ScheduleConfig)> {
        self.systems@
    }

    pub fn new(label: ScheduleLabel) -> (r: Schedule)
        ensures
            r.spec_label() == label,
            r.systems_seq() == Seq::<(String, ScheduleConfig)>::empty(),
    {
        Schedule { label, systems: Vec::new() }
    }

    /// The label this schedule runs under.
    pub fn label(&self) -> (r: ScheduleLabel)
        ensures
            r == self.spec_label(),
    {
        self.label
    }

    /// The label this schedule runs under.
    pub closed spec fn spec_label(&self) -> ScheduleLabel {
        self.label
    }

    /// Adds a system at the back.
    pub fn add_system(&mut self, name: &str, config: ScheduleConfig)
        ensures
            final(self).spec_label() == old(self).spec_label(),
            final(self).systems_seq().len() == old(self).systems_seq().len() + 1,
            forall|i: int|
                0 <= i < old(self).systems_seq().len() ==> final(self).systems_seq()[i] == old(
                    self,
                ).systems_seq()[i],
            final(self).systems_seq().last().0@ == name@,
            final(self).systems_seq().last().1 == config,
    {
        self.systems.push((name.to_owned(), config));
    }

    /// The systems as added.
    pub fn systems(&self) -> (r: &Vec<(String, ScheduleConfig)>)
        ensures
            r@ == self.systems_seq(),
    {
        &self.systems
    }

    /// The system names in the order the engine would run them: the five
    /// standard sets first through last, each keeping insertion order, then
    /// the custom-set systems whose names are not already present.
    pub fn systems_in_order(&self) -> (r: Vec<String>)
        ensures
            r@.len() == run_order(self.systems_seq()).len(),
            forall|i: int|
                0 <= i < r@.len() ==> r@[i]@ == run_order(self.systems_seq())[i],
    {
        let n = self.systems.len();
        let mut r: Vec<String> = Vec::new();
        let mut rank: usize = 0;
        while rank < 5
            invariant
                n == self.systems@.len(),
                rank <= 5,
                r@.len() == spec_ranks_concat(self.systems@, rank as int).len(),
                forall|i: int|
                    0 <= i < r@.len() ==> r@[i]@ == spec_ranks_concat(
                        self.systems@,
                        rank as int,
                    )[i],
            decreases 5 - rank,
        {
            let mut i: usize = 0;
            while i < n
                invariant
                    n == self.systems@.len(),
                    rank < 5,
                    i <= n,
                    r@.len() == spec_ranks_concat(self.systems@, rank as int).len() + rank_names(
                        self.systems@.subrange(0, i as int),
                        rank as int,
                    ).len(),
                    forall|j: int|
                        0 <= j < r@.len() ==> r@[j]@ == (spec_ranks_concat(
                            self.systems@,
                            rank as int,
                        ) + rank_names(self.systems@.subrange(0, i as int), rank as int))[j],
                decreases n - i,
            {
                let ghost prefix = self.systems@.subrange(0, i as int);
                let ghost done = spec_ranks_concat(self.systems@, rank as int);
                proof {
                    let ext = prefix.push(self.systems@[i as int]);
                    assert(self.systems@.subrange(0, i as int + 1) =~= ext);
                    assert(ext.drop_last() =~= prefix);
                    assert(ext.last() == self.systems@[i as int]);
                }
                let in_rank: bool = match self.systems[i].1.set {
                    SystemSet::First => rank == 0,
                    SystemSet::PreUpdate => rank == 1,
                    SystemSet::Update => rank == 2,
                    SystemSet::PostUpdate => rank == 3,
                    SystemSet::Last => rank == 4,
                    SystemSet::Custom(_) => false,
                };
                proof {
                    assert(in_rank == (set_rank(self.systems@[i as int].1.set) == rank as int));
                }
                if in_rank {
                    let ghost pre = r@;
                    r.push(self.systems[i].0.clone());
                    proof {
                        let whole = done + rank_names(
                            self.systems@.subrange(0, i as int + 1),
                            rank as int,
                        );
                        assert(rank_names(self.systems@.subrange(0, i as int + 1), rank as int)
                            =~= rank_names(prefix, rank as int).push(
                            self.systems@[i as int].0@,
                        ));
                        assert(whole =~= (done + rank_names(prefix, rank as int)).push(
                            self.systems@[i as int].0@,
                        ));
                        assert(r@[r@.len() - 1]@ == self.systems@[i as int].0@);
                    }
                } else {
                    proof {
                        assert(rank_names(self.systems@.subrange(0, i as int + 1), rank as int)
                            =~= rank_names(prefix, rank as int));
                    }
                }
                i = i + 1;
            }
            proof {
                assert(self.systems@.subrange(0, n as int) =~= self.systems@);
                assert(spec_ranks_concat(self.systems@, rank as int + 1) =~= spec_ranks_concat(
                    self.systems@,
                    rank as int,
                ) + rank_names(self.systems@, rank as int));
            }
            rank = rank + 1;
        }
        proof {
            let s5 = self.systems@;
            assert(spec_ranks_concat(s5, 0) =~= Seq::<Seq<char>>::empty());
            assert(spec_ranks_concat(s5, 1) =~= Seq::<Seq<char>>::empty() + rank_names(s5, 0));
            assert(spec_ranks_concat(s5, 5) =~= spec_ranks_concat(s5, 4) + rank_names(s5, 4));
            assert(spec_ranks_concat(s5, 4) =~= spec_ranks_concat(s5, 3) + rank_names(s5, 3));
            assert(spec_ranks_concat(s5, 3) =~= spec_ranks_concat(s5, 2) + rank_names(s5, 2));
            assert(spec_ranks_concat(s5, 2) =~= spec_ranks_concat(s5, 1) + rank_names(s5, 1));
            assert(spec_ranks_concat(s5, 5) =~= rank_names(s5, 0) + rank_names(s5, 1)
                + rank_names(s5, 2) + rank_names(s5, 3) + rank_names(s5, 4));
        }
        // Append custom-set systems whose names are not already present.
        let ghost std_part = spec_ranks_concat(self.systems@, 5);
        let mut i: usize = 0;
        proof {
            assert(views_of(r@) =~= std_part);
            assert(self.systems@.subrange(0, n as int) =~= self.systems@);
        }
        while i < n
            invariant
                n == self.systems@.len(),
                i <= n,
                forall|j: int| 0 <= j < r@.len() ==> #[trigger] r@[j]@ == views_of(r@)[j],
                r@.len() == views_of(r@).len(),
                with_customs(std_part, self.systems@) == with_customs(
                    views_of(r@),
                    self.systems@.subrange(i as int, n as int),
                ),
            decreases n - i,
        {
            let ghost pre = r@;
            let ghost rest = self.systems@.subrange(i as int, n as int);
            proof {
                assert(rest[0] == self.systems@[i as int]);
                assert(rest.subrange(1, rest.len() as int) =~= self.systems@.subrange(
                    i as int + 1,
                    n as int,
                ));
            }
            let is_custom: bool = match self.systems[i].1.set {
                SystemSet::Custom(_) => true,
                _ => false,
            };
            if is_custom {
                let name = &self.systems[i].0;
                let mut found = false;
                let m = r.len();
                let mut j: usize = 0;
                while j < m
                    invariant
                        m == r@.len(),
                        j <= m,
                        name@ == self.systems@[i as int].0@,
                        i < n,
                        n == self.systems@.len(),
                        found <==> exists|k: int| 0 <= k < j && #[trigger] r@[k]@ == name@,
                    decreases m - j,
                {
                    if r[j] == *name {
                        found = true;
                        proof {
                            assert(r@[j as int]@ == name@);
                        }
                    }
                    j = j + 1;
                }
                proof {
                    if found {
                        let k = choose|k: int| 0 <= k < r@.len() && #[trigger] r@[k]@ == name@;
                        assert(views_of(r@)[k] == name@);
                        assert(views_of(r@).contains(name@));
                    } else {
                        if views_of(r@).contains(name@) {
                            let k = choose|k: int|
                                0 <= k < views_of(r@).len() && views_of(r@)[k] == name@;
                            assert(r@[k]@ == name@);
                            assert(false);
                        }
                    }
                }
                if !found {
                    r.push(self.systems[i].0.clone());
                    proof {
                        assert(views_of(r@) =~= views_of(pre).push(name@));
                    }
                }
            }
            i = i + 1;
            proof {
                assert(self.systems@.subrange(i as int, n as int) =~= rest.subrange(
                    1,
                    rest.len() as int,
                ));
            }
        }
        proof {
            assert(self.systems@.subrange(n as int, n as int) =~= Seq::<
                (String, ScheduleConfig),
            >::empty());
            assert(with_customs(views_of(r@), Seq::<(String, ScheduleConfig)>::empty())
                == views_of(r@));
            assert(run_order(self.systems@) == with_customs(std_part, self.systems@));
        }
        r
    }
}

/// The views of a sequence of names.
pub open spec fn views_of(s: Seq<String>) -> Seq<Seq<char>> {
    s.map_values(|x: String| x@)
}

/// The standard-set names of all ranks below `rank`, concatenated in rank
/// order.
pub open spec fn spec_ranks_concat(sys: Seq<(String, ScheduleConfig)>, rank: int) -> Seq<Seq<char>>
    decreases
            (if rank > 0 {
                rank
            } else {
                0
            }),
{
    if rank <= 0 {
        Seq::empty()
    } else {
        spec_ranks_concat(sys, rank - 1) + rank_names(sys, rank - 1)
    }
}

/// The four engine schedules, each holding its own systems.
pub struct Schedules {
    startup: Schedule,
    update: Schedule,
    fixed_update: Schedule,
    post_update: Schedule,
}

impl Schedules {
    /// The schedule kept for a label.
    pub closed spec fn spec_get(&self, label: ScheduleLabel) -> Schedule {
        match label {
            ScheduleLabel::Startup => self.startup,
            ScheduleLabel::Update => self.update,
            ScheduleLabel::FixedUpdate => self.fixed_update,
            ScheduleLabel::PostUpdate => self.post_update,
        }
    }

    pub open spec fn wf(&self) -> bool {
        forall|label: ScheduleLabel| (#[trigger] self.spec_get(label)).spec_label() == label
    }

    /// One empty schedule per label.
    pub fn new() -> (r: Schedules)
        ensures
            r.wf(),
            forall|label: ScheduleLabel|
                (#[trigger] r.spec_get(label)).systems_seq() == Seq::<
                    (String, ScheduleConfig),
                >::empty(),
    {
        Schedules {
            startup: Schedule::new(ScheduleLabel::Startup),
            update: Schedule::new(ScheduleLabel::Update),
            fixed_update: Schedule::new(ScheduleLabel::FixedUpdate),
            post_update: Schedule::new(ScheduleLabel::PostUpdate),
        }
    }

    /// The schedule for a label; every label has one.
    pub fn get(&self, label: ScheduleLabel) -> (r: Option<&Schedule>)
        ensures
            (match r {
                Some(s) => *s == self.spec_get(label),
                None => false,
            }),
    {
        match label {
            ScheduleLabel::Startup => Some(&self.startup),
            ScheduleLabel::Update => Some(&self.update),
            ScheduleLabel::FixedUpdate => Some(&self.fixed_update),
            ScheduleLabel::PostUpdate => Some(&self.post_update),
        }
    }

    /// The schedule for a label, mutably; every label has one. The caller
    /// sees exactly the schedule kept under that label, and whatever it
    /// makes of it is what the label keeps afterwards.
    pub fn get_mut(&mut self, label: ScheduleLabel) -> (r: Option<&mut Schedule>)
        ensures
            (match r {
                Some(s) => *s == old(self).spec_get(label) && final(self).spec_get(label)
                    == *final(s) && (forall|o: ScheduleLabel|
                    o != label ==> final(self).spec_get(o) == old(self).spec_get(o)),
                None => false,
            }),
    {
        match label {
            ScheduleLabel::Startup => Some(&mut self.startup),
            ScheduleLabel::Update => Some(&mut self.update),
            ScheduleLabel::FixedUpdate => Some(&mut self.fixed_update),
            ScheduleLabel::PostUpdate => Some(&mut self.post_update),
        }
    }

    /// Adds a system to the schedule of the given label.
    pub fn add_system(&mut self, label: ScheduleLabel, name: &str, config: ScheduleConfig)
        requires
            old(self).wf(),
        ensures
            final(self).wf(),
            final(self).spec_get(label).systems_seq().len() == old(self).spec_get(
                label,
            ).systems_seq().len() + 1,
            forall|i: int|
                0 <= i < old(self).spec_get(label).systems_seq().len() ==> final(self).spec_get(
                    label,
                ).systems_seq()[i] == old(self).spec_get(label).systems_seq()[i],
            final(self).spec_get(label).systems_seq().last().0@ == name@,
            final(self).spec_get(label).systems_seq().last().1 == config,
            forall|other: ScheduleLabel|
                other != label ==> final(self).spec_get(other) == old(self).spec_get(other),
    {
        match label {
            ScheduleLabel::Startup => self.startup.add_system(name, config),
            ScheduleLabel::Update => self.update.add_system(name, config),
            ScheduleLabel::FixedUpdate => self.fixed_update.add_system(name, config),
            ScheduleLabel::PostUpdate => self.post_update.add_system(name, config),
        }
        proof {
            assert forall|l: ScheduleLabel| (#[trigger] self.spec_get(l)).spec_label()
                == l by {
                assert(old(self).spec_get(l).spec_label() == l);
            }
        }
    }
}

impl Default for Schedules {
    /// The same four empty schedules `new` builds.
    fn default() -> (r: Schedules)
        ensures
            r.wf(),
    {
        Schedules::new()
    }
}

} // verus!
