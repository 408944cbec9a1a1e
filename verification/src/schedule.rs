//! The task scheduler's decision core: a registry of tasks with their next
//! trigger times, the due-set scan, the soonest-trigger computation and the
//! sleep-until-next-wake rule.  The driving loop (spawning, sleeping,
//! awaiting) lives outside; every decision it takes comes from here.

use vstd::prelude::*;

verus! {

/// Fallback sleep when no tasks are registered, in seconds.
pub const IDLE_SLEEP_SECS: u64 = 60;

/// Heartbeat interval, in seconds.
pub const HEARTBEAT_INTERVAL_SECS: u32 = 600;

/// One registered task: an identifier chosen by the caller and the UTC
/// epoch second at which it next wants to run.
#[derive(Clone, Copy, Debug, PartialEq, Eq, Structural)]
pub struct TaskEntry {
    pub id: u64,
    pub next_trigger_epoch: i64,
}

/// The ids of the tasks due at `now` (trigger at or before now), in
/// registration order.
pub open spec fn due_ids(tasks: Seq<TaskEntry>, now: int) -> Seq<u64>
    decreases tasks.len(),
{
    if tasks.len() == 0 {
        Seq::empty()
    } else {
        let rest = due_ids(tasks.drop_last(), now);
        if tasks.last().next_trigger_epoch <= now {
            rest.push(tasks.last().id)
        } else {
            rest
        }
    }
}

/// The scheduler's task registry.
pub struct RqTaskScheduler {
    pub tasks: Vec<TaskEntry>,
}

impl RqTaskScheduler {
    /// An empty registry.
    pub fn new() -> (r: RqTaskScheduler)
        ensures
            r.tasks@ == Seq::<TaskEntry>::empty(),
    {
        RqTaskScheduler { tasks: Vec::new() }
    }

    /// Register a task.
    pub fn schedule_task(&mut self, id: u64, next_trigger_epoch: i64)
        ensures
            final(self).tasks@ == old(self).tasks@.push(
                TaskEntry { id, next_trigger_epoch },
            ),
    {
        self.tasks.push(TaskEntry { id, next_trigger_epoch });
    }

    /// Move every task with the given id to a new trigger time (ids are
    /// expected to be unique; every match is updated).
    pub fn update_trigger(&mut self, id: u64, next_trigger_epoch: i64)
        ensures
            final(self).tasks@.len() == old(self).tasks@.len(),
            forall|i: int|
                0 <= i < old(self).tasks@.len() ==> final(self).tasks@[i] == (if old(
                    self,
                ).tasks@[i].id == id {
                    TaskEntry { id, next_trigger_epoch }
                } else {
                    old(self).tasks@[i]
                }),
    {
        let ghost orig = self.tasks@;
        let mut i: usize = 0;
        while i < self.tasks.len()
            invariant
                self.tasks@.len() == orig.len(),
                i <= orig.len(),
                forall|k: int|
                    0 <= k < i ==> self.tasks@[k] == (if orig[k].id == id {
                        TaskEntry { id, next_trigger_epoch }
                    } else {
                        orig[k]
                    }),
                forall|k: int| i <= k < orig.len() ==> self.tasks@[k] == orig[k],
            decreases orig.len() - i,
        {
            if self.tasks[i].id == id {
                self.tasks.set(i, TaskEntry { id, next_trigger_epoch });
            }
            i = i + 1;
        }
    }

    /// The ids of the tasks due at `now`, in registration order.
    pub fn due_tasks(&self, now_epoch: i64) -> (r: Vec<u64>)
        ensures
            r@ == due_ids(self.tasks@, now_epoch as int),
    {
        let mut out: Vec<u64> = Vec::new();
        let mut i: usize = 0;
        while i < self.tasks.len()
            invariant
                i <= self.tasks@.len(),
                out@ == due_ids(self.tasks@.subrange(0, i as int), now_epoch as int),
            decreases self.tasks@.len() - i,
        {
            proof {
                assert(self.tasks@.subrange(0, i + 1).drop_last() =~= self.tasks@.subrange(
                    0,
                    i as int,
                ));
                assert(self.tasks@.subrange(0, i + 1).last() == self.tasks@[i as int]);
            }
            if self.tasks[i].next_trigger_epoch <= now_epoch {
                out.push(self.tasks[i].id);
            }
            i = i + 1;
        }
        proof {
            assert(self.tasks@.subrange(0, self.tasks@.len() as int) =~= self.tasks@);
        }
        out
    }

    /// The earliest next trigger over all tasks, or `None` when no task is
    /// registered.
    pub fn soonest_trigger(&self) -> (r: Option<i64>)
        ensures
            r is None <==> self.tasks@.len() == 0,
            r matches Some(s) ==> {
                &&& exists|i: int|
                    0 <= i < self.tasks@.len() && s == self.tasks@[i].next_trigger_epoch
                &&& forall|i: int|
                    0 <= i < self.tasks@.len() ==> s <= self.tasks@[i].next_trigger_epoch
            },
    {
        if self.tasks.len() == 0 {
            return None;
        }
        let mut best: i64 = self.tasks[0].next_trigger_epoch;
        let mut i: usize = 1;
        while i < self.tasks.len()
            invariant
                1 <= i <= self.tasks@.len(),
                exists|j: int| 0 <= j < i && best == self.tasks@[j].next_trigger_epoch,
                forall|j: int| 0 <= j < i ==> best <= self.tasks@[j].next_trigger_epoch,
            decreases self.tasks@.len() - i,
        {
            if self.tasks[i].next_trigger_epoch < best {
                best = self.tasks[i].next_trigger_epoch;
            }
            i = i + 1;
        }
        Some(best)
    }

    /// How long the scheduler should sleep before the next scan: until the
    /// soonest trigger (zero when it has already passed), or a fixed idle
    /// interval when no tasks are registered.
    pub fn sleep_seconds(&self, now_epoch: i64) -> (r: u64)
        ensures
            self.tasks@.len() == 0 ==> r == IDLE_SLEEP_SECS,
            self.tasks@.len() > 0 ==> {
                let s = soonest_spec(self.tasks@);
                if s > now_epoch {
                    r == s - now_epoch
                } else {
                    r == 0
                }
            },
    {
        match self.soonest_trigger() {
            None => IDLE_SLEEP_SECS,
            Some(s) => {
                proof {
                    lemma_soonest_spec_is_min(self.tasks@);
                    assert(s == soonest_spec(self.tasks@)) by {
                        let m = soonest_spec(self.tasks@);
                        assert(s <= m && m <= s);
                    }
                }
                if s > now_epoch {
                    ((s as i128 - now_epoch as i128) as u64)
                } else {
                    0
                }
            },
        }
    }
}

/// The minimum next trigger of a non-empty task list.
pub open spec fn soonest_spec(tasks: Seq<TaskEntry>) -> i64
    recommends
        tasks.len() > 0,
    decreases tasks.len(),
{
    if tasks.len() <= 1 {
        tasks[0].next_trigger_epoch
    } else {
        let rest = soonest_spec(tasks.drop_last());
        if tasks.last().next_trigger_epoch < rest {
            tasks.last().next_trigger_epoch
        } else {
            rest
        }
    }
}

/// `soonest_spec` is a member of the list and a lower bound of it.
pub proof fn lemma_soonest_spec_is_min(tasks: Seq<TaskEntry>)
    requires
        tasks.len() > 0,
    ensures
        exists|i: int| 0 <= i < tasks.len() && soonest_spec(tasks) == tasks[i].next_trigger_epoch,
        forall|i: int| 0 <= i < tasks.len() ==> soonest_spec(tasks) <= tasks[i].next_trigger_epoch,
    decreases tasks.len(),
{
    if tasks.len() == 1 {
        assert(soonest_spec(tasks) == tasks[0].next_trigger_epoch);
    } else {
        lemma_soonest_spec_is_min(tasks.drop_last());
        assert forall|i: int| 0 <= i < tasks.len() implies soonest_spec(tasks)
            <= tasks[i].next_trigger_epoch by {
            if i < tasks.len() - 1 {
                assert(tasks.drop_last()[i] == tasks[i]);
            }
        }
        let r = soonest_spec(tasks);
        if tasks.last().next_trigger_epoch < soonest_spec(tasks.drop_last()) {
            assert(r == tasks[tasks.len() - 1].next_trigger_epoch);
        } else {
            let j = choose|j: int|
                0 <= j < tasks.drop_last().len() && soonest_spec(tasks.drop_last())
                    == tasks.drop_last()[j].next_trigger_epoch;
            assert(tasks[j] == tasks.drop_last()[j]);
            assert(r == tasks[j].next_trigger_epoch);
        }
    }
}

/// The heartbeat task: a fixed-interval liveness tick.
pub struct HeartbeatTask {
    pub interval_secs: u32,
    pub next_trigger_epoch: i64,
}

impl HeartbeatTask {
    /// A heartbeat first due one interval from now.
    pub fn new(now_epoch: i64) -> (r: HeartbeatTask)
        requires
            now_epoch + HEARTBEAT_INTERVAL_SECS <= i64::MAX,
        ensures
            r.interval_secs == HEARTBEAT_INTERVAL_SECS,
            r.next_trigger_epoch == now_epoch + HEARTBEAT_INTERVAL_SECS,
    {
        HeartbeatTask {
            interval_secs: HEARTBEAT_INTERVAL_SECS,
            next_trigger_epoch: now_epoch + HEARTBEAT_INTERVAL_SECS as i64,
        }
    }

    /// Reschedule the heartbeat one interval after now.
    pub fn reschedule(&mut self, now_epoch: i64)
        requires
            now_epoch + old(self).interval_secs <= i64::MAX,
        ensures
            final(self).next_trigger_epoch == now_epoch + old(self).interval_secs,
            final(self).interval_secs == old(self).interval_secs,
    {
        self.next_trigger_epoch = now_epoch + self.interval_secs as i64;
    }
}

} // verus!
