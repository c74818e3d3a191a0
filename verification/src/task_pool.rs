//! A bounded first-in first-out pool of proving tasks that refuses tasks it
//! already holds or has seen completed.

use vstd::prelude::*;
use std::collections::VecDeque;
use crate::task::Task;

verus! {

/// The most completed task ids remembered before the oldest are forgotten.
pub const COMPLETED_LIMIT: usize = 1000;

/// How many completed task ids are forgotten at once.
pub const COMPLETED_FORGET: usize = 500;

/// The ids of a sequence of tasks.
pub open spec fn task_ids(tasks: Seq<Task>) -> Seq<Seq<char>> {
    tasks.map_values(|t: Task| t.task_id@)
}

/// Whether the pool takes task `t` into queue `queued`.
pub open spec fn admits(queued: Seq<Task>, completed: Seq<Seq<char>>, capacity: nat, t: Task) -> bool {
    &&& !completed.contains(t.task_id@)
    &&& !task_ids(queued).contains(t.task_id@)
    &&& queued.len() < capacity
}

/// The queue after offering `offered`, in order, to queue `queued`.
pub open spec fn queue_after_adding(
    queued: Seq<Task>,
    completed: Seq<Seq<char>>,
    capacity: nat,
    offered: Seq<Task>,
) -> Seq<Task>
    decreases offered.len(),
{
    if offered.len() == 0 {
        queued
    } else {
        let before = queue_after_adding(queued, completed, capacity, offered.drop_last());
        if admits(before, completed, capacity, offered.last()) {
            before.push(offered.last())
        } else {
            before
        }
    }
}

/// The completed ids after `id` is marked: added if new, and the oldest
/// forgotten when there are more than the limit.
pub open spec fn completed_after_marking(completed: Seq<Seq<char>>, id: Seq<char>) -> Seq<Seq<char>> {
    let grown = if completed.contains(id) {
        completed
    } else {
        completed.push(id)
    };
    if grown.len() > COMPLETED_LIMIT {
        grown.subrange(COMPLETED_FORGET as int, grown.len() as int)
    } else {
        grown
    }
}

/// Offering tasks never drops or reorders the queued ones: they stay in front,
/// in order; every task added after them was offered, is not completed, was
/// not queued before, and the queue stays within its capacity.
pub proof fn lemma_adding_keeps_queue(
    queued: Seq<Task>,
    completed: Seq<Seq<char>>,
    capacity: nat,
    offered: Seq<Task>,
)
    ensures
        ({
            let after = queue_after_adding(queued, completed, capacity, offered);
            &&& queued.len() <= after.len()
            &&& after.subrange(0, queued.len() as int) == queued
            &&& forall|i: int|
                queued.len() <= i < after.len() ==> {
                    &&& offered.contains(#[trigger] after[i])
                    &&& !completed.contains(after[i].task_id@)
                    &&& !task_ids(queued).contains(after[i].task_id@)
                }
            &&& queued.len() <= capacity ==> after.len() <= capacity
        }),
    decreases offered.len(),
{
    if offered.len() > 0 {
        let prefix = offered.drop_last();
        lemma_adding_keeps_queue(queued, completed, capacity, prefix);
        let before = queue_after_adding(queued, completed, capacity, prefix);
        let after = queue_after_adding(queued, completed, capacity, offered);
        assert forall|i: int| queued.len() <= i < after.len() implies {
            &&& offered.contains(#[trigger] after[i])
            &&& !completed.contains(after[i].task_id@)
            &&& !task_ids(queued).contains(after[i].task_id@)
        } by {
            if i < before.len() {
                assert(after[i] == before[i]);
                assert(prefix.contains(before[i]));
                let k = choose|k: int| 0 <= k < prefix.len() && prefix[k] == before[i];
                assert(offered[k] == prefix[k]);
            } else {
                let t = offered.last();
                assert(after[i] == t);
                assert(offered[offered.len() - 1] == t);
                if task_ids(queued).contains(t.task_id@) {
                    let k = choose|k: int| 0 <= k < task_ids(queued).len() && task_ids(queued)[k]
                        == t.task_id@;
                    assert(before.subrange(0, queued.len() as int)[k] == queued[k]);
                    assert(task_ids(before)[k] == t.task_id@);
                }
            }
        }
        assert(after.subrange(0, queued.len() as int) =~= queued) by {
            assert(before.subrange(0, queued.len() as int) == queued);
        }
    }
}

/// Tasks with fresh, distinct ids are all queued, in order, when the queue has
/// room for them: none is completed, none is queued, and no two of them share
/// an id.
pub proof fn lemma_fresh_tasks_all_queued(
    queued: Seq<Task>,
    completed: Seq<Seq<char>>,
    capacity: nat,
    offered: Seq<Task>,
)
    requires
        queued.len() + offered.len() <= capacity,
        forall|i: int| 0 <= i < offered.len() ==> !completed.contains(#[trigger] offered[i].task_id@),
        forall|i: int| 0 <= i < offered.len() ==> !task_ids(queued).contains(#[trigger] offered[i].task_id@),
        task_ids(offered).no_duplicates(),
    ensures
        queue_after_adding(queued, completed, capacity, offered) == queued + offered,
    decreases offered.len(),
{
    if offered.len() > 0 {
        let prefix = offered.drop_last();
        let t = offered.last();
        assert forall|i: int| 0 <= i < prefix.len() implies !completed.contains(#[trigger] prefix[i].task_id@) by {
            assert(prefix[i] == offered[i]);
        }
        assert forall|i: int| 0 <= i < prefix.len() implies !task_ids(queued).contains(#[trigger] prefix[i].task_id@) by {
            assert(prefix[i] == offered[i]);
        }
        assert(task_ids(prefix).no_duplicates()) by {
            assert forall|a: int, b: int| 0 <= a < task_ids(prefix).len() && 0 <= b < task_ids(prefix).len()
                && a != b implies task_ids(prefix)[a] != task_ids(prefix)[b] by {
                assert(task_ids(prefix)[a] == task_ids(offered)[a]);
                assert(task_ids(prefix)[b] == task_ids(offered)[b]);
            }
        }
        lemma_fresh_tasks_all_queued(queued, completed, capacity, prefix);
        let before = queued + prefix;
        assert(!completed.contains(t.task_id@)) by {
            assert(offered[offered.len() - 1] == t);
        }
        assert(!task_ids(before).contains(t.task_id@)) by {
            if task_ids(before).contains(t.task_id@) {
                let k = choose|k: int| 0 <= k < task_ids(before).len() && task_ids(before)[k] == t.task_id@;
                if k < queued.len() {
                    assert(task_ids(queued)[k] == t.task_id@);
                    assert(offered[offered.len() - 1] == t);
                } else {
                    let j = k - queued.len();
                    assert(before[k] == prefix[j]);
                    assert(task_ids(offered)[j] == task_ids(offered)[offered.len() - 1]);
                }
            }
        }
        assert(before.push(t) =~= queued + offered);
    }
}

/// Marking an id completed remembers it, whatever was remembered before; and
/// while the limit is not reached no other id is forgotten.
pub proof fn lemma_marked_id_is_completed(completed: Seq<Seq<char>>, id: Seq<char>)
    requires
        completed.len() <= COMPLETED_LIMIT,
    ensures
        completed_after_marking(completed, id).contains(id),
        completed.contains(id) || completed.len() < COMPLETED_LIMIT ==> forall|x: Seq<char>|
            completed.contains(x) ==> #[trigger] completed_after_marking(completed, id).contains(x),
{
    let after = completed_after_marking(completed, id);
    if completed.contains(id) {
        assert(after == completed);
    } else {
        let grown = completed.push(id);
        assert(grown[grown.len() - 1] == id);
        if grown.len() > COMPLETED_LIMIT {
            let k = grown.len() - 1 - COMPLETED_FORGET;
            assert(after[k] == grown[grown.len() - 1]);
        } else {
            assert(after == grown);
            assert forall|x: Seq<char>| completed.contains(x) implies #[trigger] after.contains(x) by {
                let k = choose|k: int| 0 <= k < completed.len() && completed[k] == x;
                assert(after[k] == x);
            }
        }
    }
}

/// What holds of every pool: the queue fits the capacity, no id is queued
/// twice, and the completed ids are distinct and within the limit.
pub open spec fn pool_invariant(queued: Seq<Task>, completed: Seq<Seq<char>>, capacity: nat) -> bool {
    &&& queued.len() <= capacity
    &&& task_ids(queued).no_duplicates()
    &&& completed.no_duplicates()
    &&& completed.len() <= COMPLETED_LIMIT
}

/// A bounded queue of tasks with a memory of completed task ids.
pub struct TaskPool {
    tasks: VecDeque<Task>,
    completed_tasks: Vec<String>,
    capacity: usize,
}

impl TaskPool {
    /// The queued tasks, front first.
    pub closed spec fn queued(&self) -> Seq<Task> {
        self.tasks@
    }

    /// The ids remembered as completed, oldest first.
    pub closed spec fn completed(&self) -> Seq<Seq<char>> {
        self.completed_tasks@.map_values(|s: String| s@)
    }

    /// The most tasks the queue holds.
    pub closed spec fn capacity_limit(&self) -> nat {
        self.capacity as nat
    }

    #[verifier::type_invariant]
    closed spec fn inv(&self) -> bool {
        pool_invariant(self.queued(), self.completed(), self.capacity_limit())
    }

    /// An empty pool holding at most `capacity` tasks.
    pub fn new(capacity: usize) -> (pool: TaskPool)
        ensures
            pool.queued() == Seq::<Task>::empty(),
            pool.completed() == Seq::<Seq<char>>::empty(),
            pool.capacity_limit() == capacity,
            pool_invariant(pool.queued(), pool.completed(), pool.capacity_limit()),
    {
        let pool = TaskPool {
            tasks: VecDeque::new(),
            completed_tasks: Vec::new(),
            capacity,
        };
        assert(pool.completed() =~= Seq::<Seq<char>>::empty());
        assert(task_ids(pool.queued()) =~= Seq::<Seq<char>>::empty());
        pool
    }

    /// Takes the task at the front of the queue, if any.
    pub fn get_task(&mut self) -> (task: Option<Task>)
        ensures
            old(self).queued().len() == 0 ==> task is None && final(self).queued() == old(self).queued(),
            old(self).queued().len() > 0 ==> task == Some(old(self).queued()[0])
                && final(self).queued() == old(self).queued().drop_first(),
            final(self).completed() == old(self).completed(),
            final(self).capacity_limit() == old(self).capacity_limit(),
            pool_invariant(final(self).queued(), final(self).completed(), final(self).capacity_limit()),
    {
        proof {
            use_type_invariant(&*self);
        }
        let mut tasks = VecDeque::new();
        std::mem::swap(&mut tasks, &mut self.tasks);
        let task = tasks.pop_front();
        proof {
            let ids = task_ids(old(self).queued());
            if old(self).queued().len() > 0 {
                assert(tasks@ =~= old(self).queued().drop_first());
                assert(task_ids(tasks@) =~= ids.subrange(1, ids.len() as int));
                assert forall|a: int, b: int|
                    0 <= a < task_ids(tasks@).len() && 0 <= b < task_ids(tasks@).len() && a != b
                    implies task_ids(tasks@)[a] != task_ids(tasks@)[b] by {
                    assert(task_ids(tasks@)[a] == ids[a + 1]);
                    assert(task_ids(tasks@)[b] == ids[b + 1]);
                }
            }
        }
        self.tasks = tasks;
        task
    }

    /// Whether `id` is among the completed ids.
    fn is_completed(&self, id: &String) -> (found: bool)
        ensures
            found == self.completed().contains(id@),
    {
        let mut i: usize = 0;
        while i < self.completed_tasks.len()
            invariant
                i <= self.completed_tasks@.len(),
                forall|j: int| 0 <= j < i ==> self.completed_tasks@[j]@ != id@,
            decreases self.completed_tasks@.len() - i,
        {
            if self.completed_tasks[i] == *id {
                assert(self.completed()[i as int] == id@);
                return true;
            }
            i = i + 1;
        }
        assert forall|j: int| 0 <= j < self.completed().len() implies self.completed()[j] != id@ by {
            assert(self.completed()[j] == self.completed_tasks@[j]@);
        }
        false
    }

    /// Offers tasks to the pool in order; a task is queued when its id is not
    /// completed, not already queued, and the queue has room. Returns the
    /// number queued.
    pub fn add_tasks(&mut self, new_tasks: Vec<Task>) -> (added: usize)
        ensures
            final(self).queued() == queue_after_adding(
                old(self).queued(),
                old(self).completed(),
                old(self).capacity_limit(),
                new_tasks@,
            ),
            added == final(self).queued().len() - old(self).queued().len(),
            final(self).completed() == old(self).completed(),
            final(self).capacity_limit() == old(self).capacity_limit(),
            pool_invariant(final(self).queued(), final(self).completed(), final(self).capacity_limit()),
    {
        proof {
            use_type_invariant(&*self);
        }
        let ghost q0 = old(self).queued();
        let ghost c0 = old(self).completed();
        let ghost cap = old(self).capacity_limit();
        let ghost offered = new_tasks@;
        let mut rest = new_tasks;
        assert(offered.len() == rest.len());
        let mut tasks = VecDeque::new();
        std::mem::swap(&mut tasks, &mut self.tasks);
        let mut added: usize = 0;
        let mut taken: usize = 0;
        assert(offered.take(0) =~= Seq::<Task>::empty());
        assert(offered.skip(0) =~= offered);
        while rest.len() > 0
            invariant
                offered.len() <= usize::MAX,
                taken <= offered.len(),
                rest@ == offered.skip(taken as int),
                tasks@ == queue_after_adding(q0, c0, cap, offered.take(taken as int)),
                tasks@.len() == q0.len() + added,
                pool_invariant(tasks@, c0, cap),
                self.completed() == c0,
                self.capacity_limit() == cap,
                q0.len() <= cap,
            decreases rest@.len(),
        {
            let task = rest.remove(0);
            proof {
                assert(offered.take(taken + 1).drop_last() =~= offered.take(taken as int));
                assert(offered.take(taken + 1).last() == task);
                assert(rest@ =~= offered.skip(taken + 1));
            }
            taken = taken + 1;
            let seen = self.is_completed(&task.task_id);
            let mut queued = false;
            let mut i: usize = 0;
            while i < tasks.len()
                invariant
                    i <= tasks@.len(),
                    queued == exists|j: int| 0 <= j < i && tasks@[j].task_id@ == task.task_id@,
                decreases tasks@.len() - i,
            {
                if tasks[i].task_id == task.task_id {
                    queued = true;
                }
                i = i + 1;
            }
            proof {
                if queued {
                    let j = choose|j: int| 0 <= j < i && tasks@[j].task_id@ == task.task_id@;
                    assert(task_ids(tasks@)[j] == task.task_id@);
                } else {
                    assert forall|j: int| 0 <= j < task_ids(tasks@).len() implies task_ids(tasks@)[j]
                        != task.task_id@ by {
                        assert(task_ids(tasks@)[j] == tasks@[j].task_id@);
                    }
                }
            }
            if !seen && !queued && tasks.len() < self.capacity {
                let ghost before = tasks@;
                tasks.push_back(task);
                added = added + 1;
                proof {
                    assert(task_ids(tasks@) =~= task_ids(before).push(task.task_id@));
                }
            }
        }
        assert(offered.take(taken as int) =~= offered);
        self.tasks = tasks;
        added
    }

    /// Remembers `task_id` as completed; past the limit, the oldest ids are
    /// forgotten.
    pub fn mark_completed(&mut self, task_id: &str)
        ensures
            final(self).completed() == completed_after_marking(old(self).completed(), task_id@),
            final(self).queued() == old(self).queued(),
            final(self).capacity_limit() == old(self).capacity_limit(),
            pool_invariant(final(self).queued(), final(self).completed(), final(self).capacity_limit()),
    {
        proof {
            use_type_invariant(&*self);
        }
        let id = String::from_str(task_id);
        let known = self.is_completed(&id);
        let mut completed = Vec::new();
        std::mem::swap(&mut completed, &mut self.completed_tasks);
        let ghost c0 = old(self).completed();
        assert(completed@.map_values(|s: String| s@) == c0);
        if !known {
            completed.push(id);
            assert(completed@.map_values(|s: String| s@) =~= c0.push(task_id@));
        }
        let ghost grown = completed@.map_values(|s: String| s@);
        if completed.len() > COMPLETED_LIMIT {
            let kept = completed.split_off(COMPLETED_FORGET);
            completed = kept;
            assert(completed@.map_values(|s: String| s@) =~= grown.subrange(
                COMPLETED_FORGET as int,
                grown.len() as int,
            ));
        }
        proof {
            assert(grown.no_duplicates()) by {
                if !known {
                    assert forall|a: int, b: int| 0 <= a < b < grown.len() implies grown[a] != grown[b] by {
                        if b == grown.len() - 1 {
                            assert(c0[a] == grown[a]);
                        } else {
                            assert(c0[a] == grown[a] && c0[b] == grown[b]);
                        }
                    }
                }
            }
        }
        self.completed_tasks = completed;
    }

    /// The number of queued tasks.
    pub fn len(&self) -> (n: usize)
        ensures
            n == self.queued().len(),
    {
        self.tasks.len()
    }
}

} // verus!
