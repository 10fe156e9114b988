//! The mathematical model of the task store: plain sequences of days and
//! tasks, the three mutations as spec functions, and the laws they obey.

use vstd::prelude::*;

verus! {

/// A task as contracts see it: its id and its text.
pub struct TaskView {
    pub id: nat,
    pub text: Seq<char>,
}

/// One date with its tasks, oldest first.
pub struct DayView {
    pub date: Seq<char>,
    pub tasks: Seq<TaskView>,
}

/// The whole store: the days in the order their dates first appeared, and the
/// id that the next created task will get.
pub struct StoreView {
    pub days: Seq<DayView>,
    pub next_id: nat,
}

/// One create request: a date and a text.
pub struct NewTask {
    pub date: Seq<char>,
    pub text: Seq<char>,
}

impl StoreView {
    /// The store at startup: no days, and 1 as the first id.
    pub open spec fn empty() -> StoreView {
        StoreView { days: Seq::empty(), next_id: 1 }
    }

    /// Position `(i, k)` names a task: task `k` of day `i`.
    pub open spec fn holds(self, i: int, k: int) -> bool {
        0 <= i < self.days.len() && 0 <= k < self.days[i].tasks.len()
    }

    /// The id of the task at position `(i, k)`.
    pub open spec fn id_at(self, i: int, k: int) -> nat {
        self.days[i].tasks[k].id
    }

    /// The invariant of the store: no date occurs twice, every id is positive
    /// and below `next_id`, and no id occurs twice anywhere.
    pub open spec fn wf(self) -> bool {
        &&& self.next_id >= 1
        &&& forall|i: int, j: int|
            0 <= i < j < self.days.len() ==> (#[trigger] self.days[i]).date != (
            #[trigger] self.days[j]).date
        &&& forall|i: int, k: int| #[trigger]
            self.holds(i, k) ==> 1 <= self.id_at(i, k) < self.next_id
        &&& forall|i: int, k: int, j: int, l: int|
            #[trigger] self.holds(i, k) && #[trigger] self.holds(j, l) && self.id_at(i, k)
                == self.id_at(j, l) ==> i == j && k == l
    }

    /// Some day carries this date.
    pub open spec fn has_day(self, date: Seq<char>) -> bool {
        exists|i: int| 0 <= i < self.days.len() && (#[trigger] self.days[i]).date == date
    }

    /// The index of a day that carries this date (the only one, in a
    /// well-formed store).
    pub open spec fn day_index(self, date: Seq<char>) -> int {
        choose|i: int| 0 <= i < self.days.len() && (#[trigger] self.days[i]).date == date
    }

    /// Some task, under any date, has this id.
    pub open spec fn contains_id(self, id: nat) -> bool {
        exists|i: int, k: int| #[trigger] self.holds(i, k) && self.id_at(i, k) == id
    }

    /// The position of a task with this id (the only one, in a well-formed
    /// store).
    pub open spec fn position(self, id: nat) -> (int, int) {
        choose|i: int, k: int| #[trigger] self.holds(i, k) && self.id_at(i, k) == id
    }

    /// A task with this id stands under this very date.
    pub open spec fn has_task_under(self, id: nat, date: Seq<char>) -> bool {
        exists|i: int, k: int|
            #[trigger] self.holds(i, k) && self.id_at(i, k) == id && self.days[i].date == date
    }

    /// The number of tasks in the first `n` days.
    pub open spec fn count_in(self, n: int) -> nat
        decreases n,
    {
        if n <= 0 {
            0
        } else {
            self.count_in(n - 1) + self.days[n - 1].tasks.len()
        }
    }

    /// The number of tasks in the store.
    pub open spec fn task_count(self) -> nat {
        self.count_in(self.days.len() as int)
    }

    /// The task that the next create will make from this text.
    pub open spec fn next_task(self, text: Seq<char>) -> TaskView {
        TaskView { id: self.next_id, text }
    }

    /// The store after creating a task: the new task goes to the end of its
    /// date's list, or opens a new day at the end, and the counter moves on
    /// by one.
    pub open spec fn create(self, date: Seq<char>, text: Seq<char>) -> StoreView {
        let task = self.next_task(text);
        if self.has_day(date) {
            let i = self.day_index(date);
            StoreView {
                days: self.days.update(
                    i,
                    DayView { date, tasks: self.days[i].tasks.push(task) },
                ),
                next_id: self.next_id + 1,
            }
        } else {
            StoreView {
                days: self.days.push(DayView { date, tasks: seq![task] }),
                next_id: self.next_id + 1,
            }
        }
    }

    /// The store after an update: where a task with this id stands under this
    /// date its text is replaced; otherwise nothing changes.
    pub open spec fn update(self, id: nat, date: Seq<char>, text: Seq<char>) -> StoreView {
        if self.has_task_under(id, date) {
            let (i, k) = self.position(id);
            let day = self.days[i];
            StoreView {
                days: self.days.update(
                    i,
                    DayView { date: day.date, tasks: day.tasks.update(k, TaskView { id, text }) },
                ),
                next_id: self.next_id,
            }
        } else {
            self
        }
    }

    /// The store after a delete: the task with this id leaves its day, which
    /// stays even if empty; where no task has the id nothing changes.
    pub open spec fn delete(self, id: nat) -> StoreView {
        if self.contains_id(id) {
            let (i, k) = self.position(id);
            let day = self.days[i];
            StoreView {
                days: self.days.update(i, DayView { date: day.date, tasks: day.tasks.remove(k) }),
                next_id: self.next_id,
            }
        } else {
            self
        }
    }
}

/// In a well-formed store a date fixes its day.
pub proof fn lemma_day_index(s: StoreView, date: Seq<char>, i: int)
    requires
        s.wf(),
        0 <= i < s.days.len(),
        s.days[i].date == date,
    ensures
        s.has_day(date),
        s.day_index(date) == i,
{
    let j = s.day_index(date);
    assert(0 <= j < s.days.len() && s.days[j].date == date);
    if j < i {
        assert(s.days[j].date != s.days[i].date);
    } else if i < j {
        assert(s.days[i].date != s.days[j].date);
    }
}

/// In a well-formed store an id fixes its position.
pub proof fn lemma_position(s: StoreView, id: nat, i: int, k: int)
    requires
        s.wf(),
        s.holds(i, k),
        s.id_at(i, k) == id,
    ensures
        s.contains_id(id),
        s.position(id) == (i, k),
{
    let (a, b) = s.position(id);
    assert(s.holds(a, b) && s.id_at(a, b) == id);
}

/// Creating a task keeps the store well-formed.
pub proof fn lemma_create_wf(s: StoreView, date: Seq<char>, text: Seq<char>)
    requires
        s.wf(),
    ensures
        s.create(date, text).wf(),
{
    let t = s.create(date, text);
    // The place of the new task: the end of its day, or a new last day.
    let p = if s.has_day(date) {
        s.day_index(date)
    } else {
        s.days.len() as int
    };
    let q = if s.has_day(date) {
        s.days[p].tasks.len() as int
    } else {
        0
    };
    if s.has_day(date) {
        assert(0 <= p < s.days.len() && s.days[p].date == date);
    }
    assert forall|i: int, k: int| #[trigger] t.holds(i, k) implies (1 <= t.id_at(i, k)
        < t.next_id) && ((i == p && k == q && t.id_at(i, k) == s.next_id) || (s.holds(i, k)
        && s.id_at(i, k) == t.id_at(i, k))) by {
        if !(i == p && k == q) {
            assert(s.holds(i, k));
        }
    }
    assert forall|i: int, j: int| 0 <= i < j < t.days.len() implies (#[trigger] t.days[i]).date
        != (#[trigger] t.days[j]).date by {
        if j == s.days.len() {
            assert(s.days[i].date != date);
        } else {
            assert(s.days[i].date != s.days[j].date);
        }
    }
    assert forall|i: int, k: int, j: int, l: int|
        #[trigger] t.holds(i, k) && #[trigger] t.holds(j, l) && t.id_at(i, k) == t.id_at(
            j,
            l,
        ) implies i == j && k == l by {
        if !(i == p && k == q) {
            assert(s.holds(i, k));
        }
        if !(j == p && l == q) {
            assert(s.holds(j, l));
        }
    }
}

/// Updating a task keeps the store well-formed.
pub proof fn lemma_update_wf(s: StoreView, id: nat, date: Seq<char>, text: Seq<char>)
    requires
        s.wf(),
    ensures
        s.update(id, date, text).wf(),
{
    let t = s.update(id, date, text);
    if s.has_task_under(id, date) {
        let (a, b) = choose|i: int, k: int|
            #[trigger] s.holds(i, k) && s.id_at(i, k) == id && s.days[i].date == date;
        lemma_position(s, id, a, b);
        assert forall|i: int, k: int| #[trigger] t.holds(i, k) implies s.holds(i, k) && t.id_at(
            i,
            k,
        ) == s.id_at(i, k) by {}
        assert forall|i: int, j: int| 0 <= i < j < t.days.len() implies (#[trigger] t.days[i]).date
            != (#[trigger] t.days[j]).date by {
            assert(s.days[i].date != s.days[j].date);
        }
    }
}

/// Deleting a task keeps the store well-formed.
pub proof fn lemma_delete_wf(s: StoreView, id: nat)
    requires
        s.wf(),
    ensures
        s.delete(id).wf(),
{
    let t = s.delete(id);
    if s.contains_id(id) {
        let (a, b) = s.position(id);
        assert(s.holds(a, b) && s.id_at(a, b) == id);
        assert forall|i: int, k: int| #[trigger] t.holds(i, k) implies s.holds(i, shifted(a, b, i, k))
            && t.id_at(i, k) == s.id_at(i, shifted(a, b, i, k)) by {}
        assert forall|i: int, j: int| 0 <= i < j < t.days.len() implies (#[trigger] t.days[i]).date
            != (#[trigger] t.days[j]).date by {
            assert(s.days[i].date != s.days[j].date);
        }
        assert forall|i: int, k: int, j: int, l: int|
            #[trigger] t.holds(i, k) && #[trigger] t.holds(j, l) && t.id_at(i, k) == t.id_at(
                j,
                l,
            ) implies i == j && k == l by {
            assert(s.holds(i, shifted(a, b, i, k)));
            assert(s.holds(j, shifted(a, b, j, l)));
        }
    }
}

/// Where task `b` of day `a` has left, the old index of what is now task `k`
/// of day `i`.
pub open spec fn shifted(a: int, b: int, i: int, k: int) -> int {
    if i == a && k >= b {
        k + 1
    } else {
        k
    }
}

} // verus!
