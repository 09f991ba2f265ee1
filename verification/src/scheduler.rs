//! The job scheduler's bookkeeping: which jobs are known, when each runs
//! next, and which are due at a given second. Loading jobs, waiting for the
//! next second and running them stay with the caller.
use std::collections::HashMap;
use vstd::prelude::*;

use crate::records::Cronjobs;

verus! {

broadcast use vstd::std_specs::hash::group_hash_axioms;

/// A job the scheduler knows: its id and name, its interval in seconds, and
/// when it runs next (a Unix time).
#[derive(Debug)]
pub struct ScheduledJob {
    pub id: i32,
    pub name: String,
    pub interval: i64,
    pub next_run: i64,
}

/// The scheduler's jobs, by id.
#[derive(Debug)]
pub struct Schedule {
    jobs: HashMap<i32, ScheduledJob>,
}

/// A job, viewed: id, name, interval, next run.
pub type JobView = (i32, Seq<char>, i64, i64);

/// A job's view.
pub open spec fn job_view(j: ScheduledJob) -> JobView {
    (j.id, j.name@, j.interval, j.next_run)
}

/// The known jobs after loading `loaded` at time `now`: each job not yet
/// known is added, to run one interval from now; known jobs stay as they are.
pub open spec fn after_load(m: Map<i32, JobView>, loaded: Seq<Cronjobs>, now: i64) -> Map<i32, JobView>
    decreases loaded.len(),
{
    if loaded.len() == 0 {
        m
    } else {
        let prev = after_load(m, loaded.drop_last(), now);
        let c = loaded.last();
        if prev.contains_key(c.id) {
            prev
        } else {
            prev.insert(c.id, (c.id, c.name@, c.timer as i64, (now + c.timer) as i64))
        }
    }
}

/// A job is due at `now` once its next run has come.
pub open spec fn due(j: JobView, now: i64) -> bool {
    now >= j.3
}

/// A job after a tick at `now`: a due job runs again one interval later.
pub open spec fn ticked(j: JobView, now: i64) -> JobView {
    if due(j, now) {
        (j.0, j.1, j.2, (now + j.2) as i64)
    } else {
        j
    }
}

/// The ids of the jobs due at `now`.
pub open spec fn due_ids(m: Map<i32, JobView>, now: i64) -> Set<i32> {
    Set::new(|id: i32| m.contains_key(id) && due(m[id], now))
}

/// The ids of a list of (id, name) pairs.
pub open spec fn pair_ids(v: Seq<(i32, String)>) -> Seq<i32> {
    v.map_values(|e: (i32, String)| e.0)
}

/// A time far enough from the ends of `i64` that adding a job's interval
/// cannot overflow.
pub open spec fn time_in_range(now: i64) -> bool {
    i64::MIN + 0x8000_0000 <= now && now <= i64::MAX - 0x8000_0000
}

impl Schedule {
    /// The jobs by id, viewed.
    pub closed spec fn view_jobs(&self) -> Map<i32, JobView> {
        self.jobs@.map_values(|j: ScheduledJob| job_view(j))
    }

    /// Each job is kept under its own id, with an interval that came from an
    /// `i32`.
    pub open spec fn wf(&self) -> bool {
        forall|id: i32|
            #[trigger] self.view_jobs().contains_key(id) ==> self.view_jobs()[id].0 == id && i32::MIN
                <= self.view_jobs()[id].2 <= i32::MAX
    }

    /// No jobs.
    pub fn new() -> (r: Self)
        ensures
            r.wf(),
            r.view_jobs() == Map::<i32, JobView>::empty(),
    {
        let r = Schedule { jobs: HashMap::new() };
        assert(r.view_jobs() =~= Map::<i32, JobView>::empty());
        r
    }

    /// The number of known jobs.
    pub fn len(&self) -> (r: usize)
        ensures
            r == self.view_jobs().len(),
    {
        assert(self.view_jobs().dom() =~= self.jobs@.dom());
        self.jobs.len()
    }

    /// The job with this id, if it is known.
    pub fn job(&self, id: i32) -> (r: Option<&ScheduledJob>)
        ensures
            match r {
                Some(j) => self.view_jobs().contains_key(id) && job_view(*j) == self.view_jobs()[id],
                None => !self.view_jobs().contains_key(id),
            },
    {
        self.jobs.get(&id)
    }

    /// Takes in the jobs loaded at `now`: jobs not yet known are added, to
    /// run one interval from now; known jobs keep their schedule.
    pub fn update_jobs(&mut self, loaded: &Vec<Cronjobs>, now: i64)
        requires
            old(self).wf(),
            time_in_range(now),
        ensures
            final(self).wf(),
            final(self).view_jobs() == after_load(old(self).view_jobs(), loaded@, now),
    {
        let mut i: usize = 0;
        let ghost start = self.view_jobs();
        while i < loaded.len()
            invariant
                i <= loaded@.len(),
                time_in_range(now),
                self.wf(),
                self.view_jobs() == after_load(start, loaded@.subrange(0, i as int), now),
            decreases loaded@.len() - i,
        {
            proof {
                assert(loaded@.subrange(0, i + 1).drop_last() =~= loaded@.subrange(0, i as int));
                assert(loaded@.subrange(0, i + 1).last() == loaded@[i as int]);
            }
            let c = &loaded[i];
            if !self.jobs.contains_key(&c.id) {
                let ghost before = self.view_jobs();
                let interval = c.timer as i64;
                let job = ScheduledJob { id: c.id, name: c.name.clone(), interval, next_run: now + interval };
                self.jobs.insert(c.id, job);
                assert(self.view_jobs() =~= before.insert(c.id, (c.id, c.name@, c.timer as i64, (now + c.timer) as i64)));
            }
            i = i + 1;
        }
        assert(loaded@.subrange(0, loaded@.len() as int) =~= loaded@);
    }

    /// The ids of the known jobs, each once.
    fn ids(&self) -> (r: Vec<i32>)
        ensures
            r@.no_duplicates(),
            r@.to_set() == self.view_jobs().dom(),
    {
        let ghost full = vstd::std_specs::iter::IteratorSpec::remaining(
            &vstd::std_specs::hash::spec_keys_iter(&self.jobs),
        );
        let mut ids: Vec<i32> = Vec::new();
        for id in it: self.jobs.keys()
            invariant
                ids@ == it.seq().take(it.index()).unref(),
                it.seq().unref().to_set() == self.jobs@.dom(),
                it.seq().no_duplicates(),
                it.seq() == full,
        {
            ids.push(*id);
        }
        assert(ids@ == full.unref());
        assert(self.view_jobs().dom() =~= self.jobs@.dom());
        ids
    }

    /// The jobs due at `now`, each by id and name (in no particular order, as
    /// the map holds them); each of them is rescheduled one interval later,
    /// the others keep their schedule.
    pub fn due_jobs(&mut self, now: i64) -> (r: Vec<(i32, String)>)
        requires
            old(self).wf(),
            time_in_range(now),
        ensures
            final(self).wf(),
            final(self).view_jobs() == old(self).view_jobs().map_values(|j: JobView| ticked(j, now)),
            pair_ids(r@).no_duplicates(),
            pair_ids(r@).to_set() == due_ids(old(self).view_jobs(), now),
            forall|k: int| 0 <= k < r@.len() ==> (#[trigger] r@[k]).1@ == old(self).view_jobs()[r@[k].0].1,
    {
        let ghost start = self.view_jobs();
        let ids = self.ids();
        let mut out: Vec<(i32, String)> = Vec::new();
        let mut i: usize = 0;
        while i < ids.len()
            invariant
                i <= ids@.len(),
                time_in_range(now),
                ids@.no_duplicates(),
                ids@.to_set() == start.dom(),
                forall|id: i32| #[trigger] start.contains_key(id) ==> start[id].0 == id && i32::MIN <= start[id].2 <= i32::MAX,
                self.view_jobs().dom() == start.dom(),
                forall|id: i32|
                    #[trigger] start.contains_key(id) ==> self.view_jobs()[id] == if ids@.take(i as int).contains(id) {
                        ticked(start[id], now)
                    } else {
                        start[id]
                    },
                pair_ids(out@).no_duplicates(),
                forall|x: i32| #[trigger] pair_ids(out@).contains(x) <==> (ids@.take(i as int).contains(x) && start.contains_key(x) && due(start[x], now)),
                forall|k: int| 0 <= k < out@.len() ==> (#[trigger] out@[k]).1@ == start[out@[k].0].1,
            decreases ids@.len() - i,
        {
            let id = ids[i];
            assert(start.contains_key(id)) by {
                assert(ids@.contains(id));
            }
            let ghost before = self.view_jobs();
            let ghost out_before = out@;
            assert(!ids@.take(i as int).contains(id)) by {
                if ids@.take(i as int).contains(id) {
                    let j = choose|j: int| 0 <= j < i && ids@.take(i as int)[j] == id;
                    assert(ids@[j] == ids@[i as int]);
                }
            }
            let ghost t0 = ids@.take(i as int);
            let ghost t1 = ids@.take(i + 1);
            assert(t1 =~= t0.push(id));
            assert forall|x: i32| #[trigger] t1.contains(x) <==> (t0.contains(x) || x == id) by {
                if t1.contains(x) {
                    let j = choose|j: int| 0 <= j < t1.len() && t1[j] == x;
                    if j < t0.len() {
                        assert(t0[j] == x);
                    }
                }
                if t0.contains(x) {
                    let j = choose|j: int| 0 <= j < t0.len() && t0[j] == x;
                    assert(t1[j] == x);
                }
                if x == id {
                    assert(t1[t0.len() as int] == x);
                }
            }
            match self.jobs.get(&id) {
                Some(j) => {
                    if now >= j.next_run {
                        let name = j.name.clone();
                        let interval = j.interval;
                        let job = ScheduledJob { id: j.id, name: j.name.clone(), interval, next_run: now + interval };
                        self.jobs.insert(id, job);
                        assert(self.view_jobs() =~= before.insert(id, ticked(start[id], now)));
                        out.push((id, name));
                        assert(pair_ids(out@) =~= pair_ids(out_before).push(id));
                        assert(!pair_ids(out_before).contains(id));
                        assert forall|x: i32| #[trigger] pair_ids(out@).contains(x) <==> (pair_ids(out_before).contains(x) || x == id) by {
                            if pair_ids(out@).contains(x) {
                                let k = choose|k: int| 0 <= k < pair_ids(out@).len() && pair_ids(out@)[k] == x;
                                if k < out_before.len() {
                                    assert(pair_ids(out_before)[k] == x);
                                }
                            }
                            if pair_ids(out_before).contains(x) {
                                let k = choose|k: int| 0 <= k < pair_ids(out_before).len() && pair_ids(out_before)[k] == x;
                                assert(pair_ids(out@)[k] == x);
                            }
                            if x == id {
                                assert(pair_ids(out@)[out_before.len() as int] == x);
                            }
                        }
                        assert forall|k: int| 0 <= k < out@.len() implies (#[trigger] out@[k]).1@ == start[out@[k].0].1 by {
                            if k < out_before.len() {
                                assert(out@[k] == out_before[k]);
                            }
                        }
                    }
                },
                None => {},
            }
            i = i + 1;
        }
        proof {
            assert(ids@.take(ids@.len() as int) =~= ids@);
            assert(self.view_jobs() =~= start.map_values(|j: JobView| ticked(j, now)));
            assert(pair_ids(out@).to_set() =~= due_ids(start, now));
        }
        out
    }
}

/// After a tick at `now`, no job with a positive interval is due at `now`
/// any more, and jobs that were not due keep their next run.
pub proof fn law_tick_reschedules(j: JobView, now: i64)
    requires
        time_in_range(now),
        i32::MIN <= j.2 <= i32::MAX,
    ensures
        j.2 > 0 ==> !due(ticked(j, now), now),
        !due(j, now) ==> ticked(j, now) == j,
{
}

} // verus!
