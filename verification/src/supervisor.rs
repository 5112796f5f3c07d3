//! What the engine keeps in memory of the processes it supervises.
//!
//! The operating-system handles themselves live with the caller, keyed by the
//! same names. The operations on an instance are machines: each takes the answer
//! to the action it asked for and says what to do next. They stand in the modules
//! named after them.
use crate::duration::Duration;
use crate::event::{BreachDimension, BreachScope};
use crate::lifecycle::{next_state, next_state_spec, LifecycleCommand, LifecycleError, LifecycleState};
use crate::name::InstanceName;
use crate::restart::BackoffSchedule;
use crate::usage::RunId;
use vstd::prelude::*;

verus! {

/// The time a process gets to go away when asked to, unless told otherwise, in
/// seconds.
pub const DEFAULT_STOP_WINDOW_SECS: u64 = 30;

/// The metering source whose usage the engine observes itself.
pub const ENGINE_OBSERVED: &'static str = "engine-observed";

/// The metering source that is taken for an adopted process whose own is not to
/// be had.
pub const SELF_REPORTED: &'static str = "self-reported";

/// The time a process gets to go away when asked to, unless told otherwise.
pub fn default_stop_window() -> (r: Duration)
    ensures
        r.nanos == DEFAULT_STOP_WINDOW_SECS * 1_000_000_000,
{
    Duration::from_secs(DEFAULT_STOP_WINDOW_SECS)
}

/// What is kept of one supervised process.
pub struct Supervised {
    /// The run the process is in.
    pub run_id: RunId,
    /// Who meters it.
    pub metering_source: String,
    /// How much of its output has been read for usage.
    pub usage_cursor: u64,
    /// The limits already reported as reached in this run.
    pub breached: Vec<(BreachDimension, BreachScope)>,
    /// Whether the engine forwards and meters its traffic.
    pub observed: bool,
    /// Whether a stop was tried and the death of the process not confirmed.
    pub stop_unconfirmed: bool,
}

/// The model of a [`Supervised`].
pub struct SupervisedModel {
    /// The run the process is in.
    pub run_id: Seq<char>,
    /// Who meters it.
    pub metering_source: Seq<char>,
    /// How much of its output has been read for usage.
    pub usage_cursor: u64,
    /// The limits already reported as reached in this run.
    pub breached: Set<(BreachDimension, BreachScope)>,
    /// Whether the engine forwards and meters its traffic.
    pub observed: bool,
    /// Whether a stop was tried and the death of the process not confirmed.
    pub stop_unconfirmed: bool,
}

impl View for Supervised {
    type V = SupervisedModel;

    open spec fn view(&self) -> SupervisedModel {
        SupervisedModel {
            run_id: self.run_id@,
            metering_source: self.metering_source@,
            usage_cursor: self.usage_cursor,
            breached: self.breached@.to_set(),
            observed: self.observed,
            stop_unconfirmed: self.stop_unconfirmed,
        }
    }
}

impl SupervisedModel {
    /// A process at the beginning of a run: nothing reported, nothing doubted.
    pub open spec fn fresh(
        run_id: Seq<char>,
        metering_source: Seq<char>,
        usage_cursor: u64,
        observed: bool,
    ) -> SupervisedModel {
        SupervisedModel {
            run_id,
            metering_source,
            usage_cursor,
            breached: Set::empty(),
            observed,
            stop_unconfirmed: false,
        }
    }
}

impl Supervised {
    /// A process at the beginning of a run: nothing reported, nothing doubted.
    pub fn fresh(
        run_id: RunId,
        metering_source: String,
        usage_cursor: u64,
        observed: bool,
    ) -> (r: Self)
        ensures
            r@ == SupervisedModel::fresh(run_id@, metering_source@, usage_cursor, observed),
    {
        let r = Supervised {
            run_id,
            metering_source,
            usage_cursor,
            breached: Vec::new(),
            observed,
            stop_unconfirmed: false,
        };
        assert(r.breached@.to_set() =~= Set::empty());
        r
    }
}

/// The processes under supervision and how they are supervised.
pub struct Supervisor {
    running: Vec<(InstanceName, Supervised)>,
    backoff: BackoffSchedule,
    has_runtime: bool,
}

/// The model of a [`Supervisor`].
pub struct SupervisorModel {
    /// The supervised processes by instance name.
    pub running: Map<Seq<char>, SupervisedModel>,
    /// The backoff between restarts.
    pub backoff: BackoffSchedule,
    /// Whether there is a runtime to forward traffic on.
    pub has_runtime: bool,
}

impl View for Supervisor {
    type V = SupervisorModel;

    closed spec fn view(&self) -> SupervisorModel {
        SupervisorModel {
            running: as_map(self.running@),
            backoff: self.backoff,
            has_runtime: self.has_runtime,
        }
    }
}

spec fn holds(entries: Seq<(InstanceName, Supervised)>, name: Seq<char>, i: int) -> bool {
    0 <= i < entries.len() && entries[i].0@ == name
}

spec fn as_map(entries: Seq<(InstanceName, Supervised)>) -> Map<Seq<char>, SupervisedModel> {
    Map::new(
        |name: Seq<char>| exists|i: int| holds(entries, name, i),
        |name: Seq<char>| entries[choose|i: int| holds(entries, name, i)].1@,
    )
}

spec fn distinct(entries: Seq<(InstanceName, Supervised)>) -> bool {
    forall|i: int, j: int|
        0 <= i < entries.len() && 0 <= j < entries.len() && #[trigger] entries[i].0@
            == #[trigger] entries[j].0@ ==> i == j
}

proof fn lemma_entry(entries: Seq<(InstanceName, Supervised)>, i: int)
    requires
        distinct(entries),
        0 <= i < entries.len(),
    ensures
        as_map(entries).contains_key(entries[i].0@),
        as_map(entries)[entries[i].0@] == entries[i].1@,
{
    assert(holds(entries, entries[i].0@, i));
}

impl Supervisor {
    /// No name is supervised twice.
    pub closed spec fn wf(&self) -> bool {
        distinct(self.running@)
    }

    /// A supervisor of nothing, with the production backoff and no runtime.
    pub fn new() -> (r: Self)
        ensures
            r.wf(),
            r@ == (SupervisorModel {
                running: Map::empty(),
                backoff: BackoffSchedule::production_spec(),
                has_runtime: false,
            }),
    {
        let r = Supervisor {
            running: Vec::new(),
            backoff: BackoffSchedule::production(),
            has_runtime: false,
        };
        assert(as_map(r.running@) =~= Map::empty());
        r
    }

    /// A supervisor of nothing that has a runtime to forward traffic on.
    pub fn with_runtime() -> (r: Self)
        ensures
            r.wf(),
            r@ == (SupervisorModel {
                running: Map::empty(),
                backoff: BackoffSchedule::production_spec(),
                has_runtime: true,
            }),
    {
        let r = Supervisor {
            running: Vec::new(),
            backoff: BackoffSchedule::production(),
            has_runtime: true,
        };
        assert(as_map(r.running@) =~= Map::empty());
        r
    }

    /// A supervisor of nothing with another backoff.
    pub fn with_backoff(backoff: BackoffSchedule) -> (r: Self)
        ensures
            r.wf(),
            r@ == (SupervisorModel { running: Map::empty(), backoff, has_runtime: false }),
    {
        let r = Supervisor { running: Vec::new(), backoff, has_runtime: false };
        assert(as_map(r.running@) =~= Map::empty());
        r
    }

    fn position(&self, name: &InstanceName) -> (r: Option<usize>)
        ensures
            match r {
                Some(i) => holds(self.running@, name@, i as int),
                None => forall|i: int| !holds(self.running@, name@, i),
            },
    {
        let mut i: usize = 0;
        while i < self.running.len()
            invariant
                i <= self.running@.len(),
                forall|j: int| 0 <= j < i ==> !holds(self.running@, name@, j),
            decreases self.running@.len() - i,
        {
            if self.running[i].0.same(name) {
                return Some(i);
            }
            i = i + 1;
        }
        None
    }

    /// What is kept of the process of `name`, if it is supervised.
    pub fn supervised(&self, name: &InstanceName) -> (r: Option<&Supervised>)
        requires
            self.wf(),
        ensures
            match r {
                Some(s) => self@.running.contains_key(name@) && self@.running[name@] == s@,
                None => !self@.running.contains_key(name@),
            },
    {
        match self.position(name) {
            Some(i) => {
                proof {
                    lemma_entry(self.running@, i as int);
                }
                Some(&self.running[i].1)
            },
            None => None,
        }
    }

    /// Whether the process of `name` is supervised.
    pub fn is_held(&self, name: &InstanceName) -> (r: bool)
        requires
            self.wf(),
        ensures
            r == self@.running.contains_key(name@),
    {
        match self.supervised(name) {
            Some(_) => true,
            None => false,
        }
    }

    /// The run that the process of `name` is in, if it is supervised.
    pub fn current_run_id(&self, name: &InstanceName) -> (r: Option<RunId>)
        requires
            self.wf(),
        ensures
            match r {
                Some(id) => self@.running.contains_key(name@) && id@
                    == self@.running[name@].run_id,
                None => !self@.running.contains_key(name@),
            },
    {
        match self.supervised(name) {
            Some(s) => Some(s.run_id.clone()),
            None => None,
        }
    }

    /// The backoff between restarts.
    pub fn backoff(&self) -> (r: BackoffSchedule)
        ensures
            r == self@.backoff,
    {
        self.backoff
    }

    /// Whether there is a runtime to forward traffic on.
    pub fn has_runtime(&self) -> (r: bool)
        ensures
            r == self@.has_runtime,
    {
        self.has_runtime
    }

    /// The supervised names, each once.
    pub fn names(&self) -> (r: Vec<InstanceName>)
        requires
            self.wf(),
        ensures
            forall|i: int| 0 <= i < r@.len() ==> self@.running.contains_key(#[trigger] r@[i]@),
            forall|name: Seq<char>| #[trigger]
                self@.running.contains_key(name) ==> exists|i: int|
                    0 <= i < r@.len() && #[trigger] r@[i]@ == name,
            forall|i: int, j: int|
                0 <= i < r@.len() && 0 <= j < r@.len() && #[trigger] r@[i]@ == #[trigger] r@[j]@
                    ==> i == j,
    {
        let mut out: Vec<InstanceName> = Vec::new();
        let mut i: usize = 0;
        while i < self.running.len()
            invariant
                i <= self.running@.len(),
                out@.len() == i,
                forall|j: int| 0 <= j < i ==> #[trigger] out@[j] == self.running@[j].0,
            decreases self.running@.len() - i,
        {
            out.push(self.running[i].0.clone());
            i = i + 1;
        }
        proof {
            assert forall|j: int| 0 <= j < out@.len() implies self@.running.contains_key(
                #[trigger] out@[j]@,
            ) by {
                lemma_entry(self.running@, j);
            }
            assert forall|name: Seq<char>| #[trigger]
                self@.running.contains_key(name) implies exists|j: int|
                0 <= j < out@.len() && #[trigger] out@[j]@ == name by {
                let j = choose|j: int| holds(self.running@, name, j);
                assert(out@[j]@ == name);
            }
        }
        out
    }

    /// Take the process of `name` under supervision, in place of any other that
    /// was supervised under that name.
    pub fn hold(&mut self, name: &InstanceName, supervised: Supervised)
        requires
            old(self).wf(),
        ensures
            final(self).wf(),
            final(self)@ == (SupervisorModel {
                running: old(self)@.running.insert(name@, supervised@),
                ..old(self)@
            }),
    {
        let ghost before = self.running@;
        match self.position(name) {
            Some(i) => {
                self.replace(i, supervised);
            },
            None => {
                self.running.push((name.clone(), supervised));
                proof {
                    let after = self.running@;
                    assert(distinct(after)) by {
                        assert forall|a: int, b: int|
                            0 <= a < after.len() && 0 <= b < after.len() && #[trigger] after[a].0@
                                == #[trigger] after[b].0@ implies a == b by {
                            if a < before.len() && b == before.len() {
                                assert(holds(before, name@, a));
                            }
                            if b < before.len() && a == before.len() {
                                assert(holds(before, name@, b));
                            }
                        }
                    }
                    assert(as_map(after) =~= as_map(before).insert(name@, supervised@)) by {
                        assert forall|a: int|
                            0 <= a < before.len() && #[trigger] before[a].0@ != name@ implies exists|
                            b: int,
                        |
                            0 <= b < after.len() && #[trigger] after[b].0@ == before[a].0@
                                && after[b].1@ == before[a].1@ by {
                            assert(after[a].0@ == before[a].0@);
                        }
                        assert forall|b: int|
                            0 <= b < after.len() && #[trigger] after[b].0@ != name@ implies exists|
                            a: int,
                        |
                            0 <= a < before.len() && #[trigger] before[a].0@ == after[b].0@ by {
                            assert(before[b].0@ == after[b].0@);
                        }
                        lemma_same_elsewhere(before, after, name@);
                        lemma_entry(after, before.len() as int);
                    }
                }
            },
        }
    }

    fn replace(&mut self, i: usize, supervised: Supervised)
        requires
            old(self).wf(),
            i < old(self).running@.len(),
        ensures
            final(self).wf(),
            final(self).running@.len() == old(self).running@.len(),
            final(self)@ == (SupervisorModel {
                running: old(self)@.running.insert(
                    old(self).running@[i as int].0@,
                    supervised@,
                ),
                ..old(self)@
            }),
    {
        let ghost before = self.running@;
        let name = self.running[i].0.clone();
        self.running.set(i, (name, supervised));
        proof {
            let after = self.running@;
            let key = before[i as int].0@;
            assert forall|a: int| 0 <= a < after.len() implies #[trigger] after[a].0@
                == before[a].0@ by {}
            assert(distinct(after));
            assert(as_map(after) =~= as_map(before).insert(key, supervised@)) by {
                lemma_entry(after, i as int);
                lemma_entry(before, i as int);
                assert forall|a: int|
                            0 <= a < before.len() && #[trigger] before[a].0@ != key implies exists|
                            b: int,
                        |
                            0 <= b < after.len() && #[trigger] after[b].0@ == before[a].0@
                                && after[b].1@ == before[a].1@ by {
                            assert(after[a].0@ == before[a].0@);
                        }
                        assert forall|b: int|
                            0 <= b < after.len() && #[trigger] after[b].0@ != key implies exists|
                            a: int,
                        |
                            0 <= a < before.len() && #[trigger] before[a].0@ == after[b].0@ by {
                            assert(before[b].0@ == after[b].0@);
                        }
                        lemma_same_elsewhere(before, after, key);
            }
        }
    }

    /// Let go of the process of `name`.
    pub fn release(&mut self, name: &InstanceName)
        requires
            old(self).wf(),
        ensures
            final(self).wf(),
            final(self)@ == (SupervisorModel {
                running: old(self)@.running.remove(name@),
                ..old(self)@
            }),
    {
        let ghost before = self.running@;
        match self.position(name) {
            Some(i) => {
                let _gone = self.running.remove(i);
                proof {
                    let after = self.running@;
                    assert forall|a: int| 0 <= a < after.len() implies #[trigger] after[a]
                        == before[if a < i { a } else { a + 1 }] by {}
                    assert(distinct(after));
                    assert(as_map(after) =~= as_map(before).remove(name@)) by {
                        assert forall|a: int|
                            0 <= a < before.len() && #[trigger] before[a].0@ != name@ implies exists|
                            b: int,
                        |
                            0 <= b < after.len() && #[trigger] after[b].0@ == before[a].0@
                                && after[b].1@ == before[a].1@ by {
                            assert(after[if a < i { a } else { a - 1 }].0@ == before[a].0@);
                        }
                        assert forall|b: int|
                            0 <= b < after.len() && #[trigger] after[b].0@ != name@ implies exists|
                            a: int,
                        |
                            0 <= a < before.len() && #[trigger] before[a].0@ == after[b].0@ by {
                            assert(before[if b < i { b } else { b + 1 }].0@ == after[b].0@);
                        }
                        lemma_same_elsewhere(before, after, name@);
                        assert forall|a: int| !holds(after, name@, a) by {
                            if holds(after, name@, a) {
                                assert(before[if a < i { a } else { a + 1 }].0@ == name@);
                            }
                        }
                    }
                }
            },
            None => {
                assert(as_map(before).remove(name@) =~= as_map(before));
            },
        }
    }

    /// Note how far the output of `name` has been read for usage.
    pub fn set_usage_cursor(&mut self, name: &InstanceName, cursor: u64)
        requires
            old(self).wf(),
        ensures
            final(self).wf(),
            final(self)@ == (SupervisorModel {
                running: with_cursor(old(self)@.running, name@, cursor),
                ..old(self)@
            }),
    {
        if let Some(i) = self.position(name) {
            proof {
                lemma_entry(self.running@, i as int);
            }
            let kept = self.copy_at(i);
            let changed = Supervised { usage_cursor: cursor, ..kept };
            self.replace(i, changed);
        }
    }

    /// Note that the death of the process of `name` could not be confirmed.
    pub fn mark_stop_unconfirmed(&mut self, name: &InstanceName)
        requires
            old(self).wf(),
        ensures
            final(self).wf(),
            final(self)@ == (SupervisorModel {
                running: with_unconfirmed(old(self)@.running, name@),
                ..old(self)@
            }),
    {
        if let Some(i) = self.position(name) {
            proof {
                lemma_entry(self.running@, i as int);
            }
            let kept = self.copy_at(i);
            let changed = Supervised { stop_unconfirmed: true, ..kept };
            self.replace(i, changed);
        }
    }

    /// Note that `name` reached a limit in its current run. Says whether this is
    /// news: not where the process is not supervised, nor where the limit was
    /// noted before in this run.
    pub fn latch_breach(
        &mut self,
        name: &InstanceName,
        dimension: BreachDimension,
        scope: BreachScope,
    ) -> (r: bool)
        requires
            old(self).wf(),
        ensures
            final(self).wf(),
            r == breach_is_news(old(self)@.running, name@, dimension, scope),
            final(self)@ == (SupervisorModel {
                running: with_breach(old(self)@.running, name@, dimension, scope),
                ..old(self)@
            }),
    {
        match self.position(name) {
            None => false,
            Some(i) => {
                proof {
                    lemma_entry(self.running@, i as int);
                }
                let mut kept = self.copy_at(i);
                let ghost before = kept.breached@;
                if noted(&kept.breached, dimension, scope) {
                    assert(before.to_set().insert((dimension, scope)) =~= before.to_set());
                    assert(with_breach(self@.running, name@, dimension, scope) =~= self@.running);
                    return false;
                }
                kept.breached.push((dimension, scope));
                proof {
                    assert(!before.to_set().contains((dimension, scope)));
                    assert(kept.breached@.to_set() =~= before.to_set().insert(
                        (dimension, scope),
                    )) by {
                        assert(kept.breached@.last() == (dimension, scope));
                        assert forall|x: (BreachDimension, BreachScope)|
                            before.contains(x) implies kept.breached@.contains(x) by {
                            let j = choose|j: int| 0 <= j < before.len() && before[j] == x;
                            assert(kept.breached@[j] == x);
                        }
                    }
                }
                self.replace(i, kept);
                true
            },
        }
    }

    fn copy_at(&self, i: usize) -> (r: Supervised)
        requires
            i < self.running@.len(),
        ensures
            r.run_id == self.running@[i as int].1.run_id,
            r.metering_source == self.running@[i as int].1.metering_source,
            r.usage_cursor == self.running@[i as int].1.usage_cursor,
            r.breached@ == self.running@[i as int].1.breached@,
            r.observed == self.running@[i as int].1.observed,
            r.stop_unconfirmed == self.running@[i as int].1.stop_unconfirmed,
    {
        let s = &self.running[i].1;
        let mut breached: Vec<(BreachDimension, BreachScope)> = Vec::new();
        let mut k: usize = 0;
        while k < s.breached.len()
            invariant
                k <= s.breached@.len(),
                breached@ == s.breached@.take(k as int),
            decreases s.breached@.len() - k,
        {
            breached.push(s.breached[k]);
            k = k + 1;
            assert(breached@ =~= s.breached@.take(k as int));
        }
        assert(s.breached@.take(k as int) =~= s.breached@);
        Supervised {
            run_id: s.run_id.clone(),
            metering_source: s.metering_source.clone(),
            usage_cursor: s.usage_cursor,
            breached,
            observed: s.observed,
            stop_unconfirmed: s.stop_unconfirmed,
        }
    }
}

impl Default for Supervisor {
    fn default() -> (r: Self)
        ensures
            r.wf(),
            r@ == (SupervisorModel {
                running: Map::empty(),
                backoff: BackoffSchedule::production_spec(),
                has_runtime: false,
            }),
    {
        Supervisor::new()
    }
}

fn noted(
    breached: &Vec<(BreachDimension, BreachScope)>,
    dimension: BreachDimension,
    scope: BreachScope,
) -> (r: bool)
    ensures
        r == breached@.to_set().contains((dimension, scope)),
{
    let mut k: usize = 0;
    while k < breached.len()
        invariant
            k <= breached@.len(),
            forall|j: int| 0 <= j < k ==> breached@[j] != (dimension, scope),
        decreases breached@.len() - k,
    {
        let seen = breached[k];
        if seen.0 == dimension && seen.1 == scope {
            assert(breached@[k as int] == (dimension, scope));
            return true;
        }
        k = k + 1;
    }
    false
}

proof fn lemma_same_elsewhere(
    before: Seq<(InstanceName, Supervised)>,
    after: Seq<(InstanceName, Supervised)>,
    key: Seq<char>,
)
    requires
        distinct(before),
        distinct(after),
        forall|a: int|
            0 <= a < before.len() && #[trigger] before[a].0@ != key ==> exists|b: int|
                0 <= b < after.len() && #[trigger] after[b].0@ == before[a].0@ && after[b].1@
                    == before[a].1@,
        forall|b: int|
            0 <= b < after.len() && #[trigger] after[b].0@ != key ==> exists|a: int|
                0 <= a < before.len() && #[trigger] before[a].0@ == after[b].0@,
    ensures
        forall|name: Seq<char>|
            name != key ==> (#[trigger] as_map(after).contains_key(name) == as_map(
                before,
            ).contains_key(name)),
        forall|name: Seq<char>|
            name != key && as_map(before).contains_key(name) ==> #[trigger] as_map(after)[name]
                == as_map(before)[name],
{
    assert forall|name: Seq<char>| name != key implies (#[trigger] as_map(after).contains_key(name)
        == as_map(before).contains_key(name)) by {
        if as_map(before).contains_key(name) {
            let a = choose|a: int| holds(before, name, a);
            assert(before[a].0@ != key);
            let b = choose|b: int|
                0 <= b < after.len() && #[trigger] after[b].0@ == before[a].0@ && after[b].1@
                    == before[a].1@;
            assert(holds(after, name, b));
        }
        if as_map(after).contains_key(name) {
            let b = choose|b: int| holds(after, name, b);
            assert(after[b].0@ != key);
            let a = choose|a: int| 0 <= a < before.len() && #[trigger] before[a].0@ == after[b].0@;
            assert(holds(before, name, a));
        }
    }
    assert forall|name: Seq<char>|
        name != key && as_map(before).contains_key(name) implies #[trigger] as_map(after)[name]
        == as_map(before)[name] by {
        let a = choose|a: int| holds(before, name, a);
        assert(before[a].0@ != key);
        let b = choose|b: int|
            0 <= b < after.len() && #[trigger] after[b].0@ == before[a].0@ && after[b].1@
                == before[a].1@;
        lemma_entry(after, b);
        lemma_entry(before, a);
    }
}

/// The processes with the usage cursor of one moved.
pub open spec fn with_cursor(
    running: Map<Seq<char>, SupervisedModel>,
    name: Seq<char>,
    cursor: u64,
) -> Map<Seq<char>, SupervisedModel> {
    if running.contains_key(name) {
        running.insert(name, SupervisedModel { usage_cursor: cursor, ..running[name] })
    } else {
        running
    }
}

/// The processes with the death of one unconfirmed.
pub open spec fn with_unconfirmed(
    running: Map<Seq<char>, SupervisedModel>,
    name: Seq<char>,
) -> Map<Seq<char>, SupervisedModel> {
    if running.contains_key(name) {
        running.insert(name, SupervisedModel { stop_unconfirmed: true, ..running[name] })
    } else {
        running
    }
}

/// The processes with a limit of one noted as reached.
pub open spec fn with_breach(
    running: Map<Seq<char>, SupervisedModel>,
    name: Seq<char>,
    dimension: BreachDimension,
    scope: BreachScope,
) -> Map<Seq<char>, SupervisedModel> {
    if running.contains_key(name) {
        running.insert(
            name,
            SupervisedModel {
                breached: running[name].breached.insert((dimension, scope)),
                ..running[name]
            },
        )
    } else {
        running
    }
}

/// Whether a reached limit of a process has not been noted yet in its run.
pub open spec fn breach_is_news(
    running: Map<Seq<char>, SupervisedModel>,
    name: Seq<char>,
    dimension: BreachDimension,
    scope: BreachScope,
) -> bool {
    running.contains_key(name) && !running[name].breached.contains((dimension, scope))
}

/// A limit is news at most once per run: once noted it stays noted, whatever
/// else is noted after it.
pub proof fn law_a_breach_is_news_once(
    running: Map<Seq<char>, SupervisedModel>,
    name: Seq<char>,
    dimension: BreachDimension,
    scope: BreachScope,
    dimension2: BreachDimension,
    scope2: BreachScope,
)
    ensures
        !breach_is_news(with_breach(running, name, dimension, scope), name, dimension, scope),
        !breach_is_news(
            with_breach(
                with_breach(running, name, dimension, scope),
                name,
                dimension2,
                scope2,
            ),
            name,
            dimension,
            scope,
        ),
{
}

/// The scopes and dimensions latch apart from each other: noting one limit
/// leaves every other one news, if it was.
pub proof fn law_breaches_latch_independently(
    running: Map<Seq<char>, SupervisedModel>,
    name: Seq<char>,
    dimension: BreachDimension,
    scope: BreachScope,
    dimension2: BreachDimension,
    scope2: BreachScope,
)
    requires
        (dimension, scope) != (dimension2, scope2),
    ensures
        breach_is_news(with_breach(running, name, dimension, scope), name, dimension2, scope2)
            == breach_is_news(running, name, dimension2, scope2),
{
}

/// What a start may begin from: what the command table lets `start` begin from, and a
/// failed instance; a restart begins from a failed instance alone.
pub open spec fn start_gate_spec(from: LifecycleState, restart: bool) -> Result<
    LifecycleState,
    LifecycleError,
> {
    if from == LifecycleState::Failed {
        Ok(LifecycleState::Starting)
    } else if restart {
        Err(LifecycleError::InvalidTransition { from, command: LifecycleCommand::Start })
    } else {
        next_state_spec(from, LifecycleCommand::Start)
    }
}

/// What a start may begin from. The command table knows nothing of failed instances; the
/// supervisor lets them be started again, by hand or after a crash. A restart comes after a
/// crash only: where the instance has been stopped or started since, it is refused.
pub fn start_gate(from: LifecycleState, restart: bool) -> (r: Result<
    LifecycleState,
    LifecycleError,
>)
    ensures
        r == start_gate_spec(from, restart),
{
    match from {
        LifecycleState::Failed => Ok(LifecycleState::Starting),
        other => if restart {
            Err(
                LifecycleError::InvalidTransition { from: other, command: LifecycleCommand::Start },
            )
        } else {
            next_state(other, LifecycleCommand::Start)
        },
    }
}

/// A start leads to `starting`, and only from an instance behind which no
/// process stands.
pub proof fn law_start_only_where_nothing_runs(from: LifecycleState)
    ensures
        start_gate_spec(from, false) is Ok <==> (from == LifecycleState::Registered || from
            == LifecycleState::Stopped || from == LifecycleState::Failed),
        start_gate_spec(from, false) is Ok ==> start_gate_spec(from, false) == Ok::<
            LifecycleState,
            LifecycleError,
        >(LifecycleState::Starting),
{
}

/// A restart that comes late is refused: it begins from a failed instance and no other.
pub proof fn law_restart_only_from_failed(from: LifecycleState)
    ensures
        start_gate_spec(from, true) == if from == LifecycleState::Failed {
            Ok::<LifecycleState, LifecycleError>(LifecycleState::Starting)
        } else {
            Err(LifecycleError::InvalidTransition { from, command: LifecycleCommand::Start })
        },
{
}

/// What is noted of one process leaves the rest of it, and every other process, as it was: moving
/// a usage cursor moves that alone, an unconfirmed stop is marked and no more, and a
/// limit that was reached is added to those noted. Of a process that is not supervised nothing
/// is noted.
pub proof fn law_a_note_changes_nothing_else(
    running: Map<Seq<char>, SupervisedModel>,
    name: Seq<char>,
    cursor: u64,
    dimension: BreachDimension,
    scope: BreachScope,
)
    ensures
        !running.contains_key(name) ==> with_cursor(running, name, cursor) == running
            && with_unconfirmed(running, name) == running && with_breach(
            running,
            name,
            dimension,
            scope,
        ) == running,
        running.contains_key(name) ==> {
            let was = running[name];
            let moved = with_cursor(running, name, cursor);
            let marked = with_unconfirmed(running, name);
            let noted = with_breach(running, name, dimension, scope);
            &&& moved.remove(name) == running.remove(name)
            &&& marked.remove(name) == running.remove(name)
            &&& noted.remove(name) == running.remove(name)
            &&& moved.contains_key(name) && moved[name] == (SupervisedModel {
                run_id: was.run_id,
                metering_source: was.metering_source,
                usage_cursor: cursor,
                breached: was.breached,
                observed: was.observed,
                stop_unconfirmed: was.stop_unconfirmed,
            })
            &&& marked.contains_key(name) && marked[name] == (SupervisedModel {
                run_id: was.run_id,
                metering_source: was.metering_source,
                usage_cursor: was.usage_cursor,
                breached: was.breached,
                observed: was.observed,
                stop_unconfirmed: true,
            })
            &&& noted.contains_key(name) && noted[name] == (SupervisedModel {
                run_id: was.run_id,
                metering_source: was.metering_source,
                usage_cursor: was.usage_cursor,
                breached: was.breached.insert((dimension, scope)),
                observed: was.observed,
                stop_unconfirmed: was.stop_unconfirmed,
            })
        },
{
    assert(with_cursor(running, name, cursor).remove(name) =~= running.remove(name));
    assert(with_unconfirmed(running, name).remove(name) =~= running.remove(name));
    assert(with_breach(running, name, dimension, scope).remove(name) =~= running.remove(name));
}

} // verus!
