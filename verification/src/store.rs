//! The executable store: days in the order their dates first appeared, each
//! with its tasks in the order they were created, and the id counter.

use vstd::prelude::*;
use vstd::string::StringExecFns;
use crate::laws::{law_delete_filters, other_than};
use crate::model::{
    lemma_create_wf, lemma_day_index, lemma_delete_wf, lemma_position, lemma_update_wf, DayView,
    StoreView, TaskView,
};

verus! {

/// Why a request was not served.
#[derive(Clone, Copy, Debug, PartialEq, Eq, Structural)]
pub enum ApiError {
    /// A required field is missing, empty or malformed.
    InvalidInput,
    /// No route matches the request.
    NotFound,
    /// The task that an operation names does not exist.
    OperationFailed,
    /// Something failed that no request can be blamed for.
    InternalError,
}

/// A single to-do item.
#[derive(Debug)]
pub struct Task {
    pub id: u32,
    pub text: String,
}

/// One date with its tasks, oldest first.
#[derive(Debug)]
pub struct Day {
    pub date: String,
    pub tasks: Vec<Task>,
}

/// All tasks by date, and the counter that ids come from.
#[derive(Debug)]
pub struct Store {
    days: Vec<Day>,
    next_id: u32,
}

/// The views of a sequence of tasks.
pub open spec fn task_views(tasks: Seq<Task>) -> Seq<TaskView> {
    Seq::new(tasks.len(), |k: int| tasks[k]@)
}

/// The views of a sequence of days.
pub open spec fn day_views(days: Seq<Day>) -> Seq<DayView> {
    Seq::new(days.len(), |i: int| days[i]@)
}

impl View for Task {
    type V = TaskView;

    open spec fn view(&self) -> TaskView {
        TaskView { id: self.id as nat, text: self.text@ }
    }
}

impl View for Day {
    type V = DayView;

    open spec fn view(&self) -> DayView {
        DayView { date: self.date@, tasks: task_views(self.tasks@) }
    }
}

impl View for Store {
    type V = StoreView;

    closed spec fn view(&self) -> StoreView {
        StoreView { days: day_views(self.days@), next_id: self.next_id as nat }
    }
}

impl Clone for Task {
    fn clone(&self) -> (r: Task)
        ensures
            r@ == self@,
    {
        Task { id: self.id, text: self.text.clone() }
    }
}

impl Clone for Day {
    fn clone(&self) -> (r: Day)
        ensures
            r@ == self@,
    {
        let mut tasks: Vec<Task> = Vec::new();
        let mut k: usize = 0;
        while k < self.tasks.len()
            invariant
                k <= self.tasks.len(),
                tasks.len() == k,
                forall|l: int| 0 <= l < k ==> tasks[l]@ == self.tasks[l]@,
            decreases self.tasks.len() - k,
        {
            tasks.push(self.tasks[k].clone());
            k += 1;
        }
        assert(task_views(tasks@) =~= task_views(self.tasks@));
        Day { date: self.date.clone(), tasks }
    }
}

impl Store {
    /// The store's invariant: no date twice, no id twice, every id positive
    /// and below the counter.
    pub open spec fn wf(&self) -> bool {
        self@.wf() && self@.next_id <= u32::MAX
    }

    /// An empty store whose first id will be 1.
    pub fn new() -> (s: Store)
        ensures
            s.wf(),
            s@ == StoreView::empty(),
    {
        let s = Store { days: Vec::new(), next_id: 1 };
        assert(s@.days =~= Seq::empty());
        s
    }

    /// The id that the next created task will get.
    pub fn next_id(&self) -> (n: u32)
        ensures
            n == self@.next_id,
    {
        self.next_id
    }

    /// A snapshot of every day with its tasks, in the store's order.
    pub fn list_all(&self) -> (days: Vec<Day>)
        ensures
            day_views(days@) == self@.days,
    {
        let mut days: Vec<Day> = Vec::new();
        let mut i: usize = 0;
        while i < self.days.len()
            invariant
                i <= self.days.len(),
                days.len() == i,
                forall|j: int| 0 <= j < i ==> days[j]@ == self.days[j]@,
            decreases self.days.len() - i,
        {
            days.push(self.days[i].clone());
            i += 1;
        }
        assert(day_views(days@) =~= day_views(self.days@));
        days
    }

    /// The index of the day with this date, or the number of days where no
    /// day has it.
    fn find_day(&self, date: &str) -> (i: usize)
        requires
            self.wf(),
        ensures
            i <= self.days.len(),
            i < self.days.len() ==> self@.has_day(date@) && self@.day_index(date@) == i,
            i == self.days.len() ==> !self@.has_day(date@),
    {
        let key = String::from_str(date);
        let mut i: usize = 0;
        while i < self.days.len()
            invariant
                i <= self.days.len(),
                self.wf(),
                key@ == date@,
                forall|j: int| 0 <= j < i ==> (#[trigger] self@.days[j]).date != date@,
            decreases self.days.len() - i,
        {
            if self.days[i].date == key {
                proof {
                    lemma_day_index(self@, date@, i as int);
                }
                return i;
            }
            i += 1;
        }
        i
    }

    /// Creates a task under `date` with the next id and hands back a copy of
    /// it. An empty date or text is refused as `InvalidInput`; a store whose
    /// ids are used up answers `InternalError`. In both cases nothing changes.
    pub fn create_task(&mut self, date: &str, text: &str) -> (r: Result<Task, ApiError>)
        requires
            old(self).wf(),
        ensures
            final(self).wf(),
            match r {
                Ok(task) => {
                    &&& date@.len() > 0 && text@.len() > 0
                    &&& old(self)@.next_id < u32::MAX
                    &&& task@ == old(self)@.next_task(text@)
                    &&& final(self)@ == old(self)@.create(date@, text@)
                },
                Err(e) => {
                    &&& final(self)@ == old(self)@
                    &&& e == ApiError::InvalidInput <==> date@.len() == 0 || text@.len() == 0
                    &&& e == ApiError::InternalError <==> date@.len() > 0 && text@.len() > 0
                        && old(self)@.next_id == u32::MAX
                    &&& e == ApiError::InvalidInput || e == ApiError::InternalError
                },
            },
    {
        if date.is_empty() || text.is_empty() {
            return Err(ApiError::InvalidInput);
        }
        if self.next_id == u32::MAX {
            return Err(ApiError::InternalError);
        }
        let id = self.next_id;
        let task = Task { id, text: String::from_str(text) };
        let copy = task.clone();
        let i = self.find_day(date);
        proof {
            lemma_create_wf(self@, date@, text@);
        }
        if i < self.days.len() {
            self.days[i].tasks.push(task);
            self.next_id = id + 1;
            proof {
                let d = old(self)@.days[i as int];
                assert(self.days@[i as int]@.tasks =~= d.tasks.push(copy@));
                assert(self@.days =~= old(self)@.days.update(
                    i as int,
                    DayView { date: date@, tasks: d.tasks.push(copy@) },
                ));
            }
        } else {
            let mut tasks: Vec<Task> = Vec::new();
            tasks.push(task);
            self.days.push(Day { date: String::from_str(date), tasks });
            self.next_id = id + 1;
            proof {
                assert(task_views(tasks@) =~= seq![copy@]);
                assert(self@.days =~= old(self)@.days.push(
                    DayView { date: date@, tasks: seq![copy@] },
                ));
            }
        }
        Ok(copy)
    }

    /// Replaces the text of the task with this id, provided it stands under
    /// this date. Says whether it did; where it did not, nothing changes.
    pub fn update_task(&mut self, id: u32, date: &str, text: &str) -> (done: bool)
        requires
            old(self).wf(),
        ensures
            final(self).wf(),
            done == old(self)@.has_task_under(id as nat, date@),
            final(self)@ == old(self)@.update(id as nat, date@, text@),
    {
        let i = self.find_day(date);
        if i < self.days.len() {
            assert(self@.days[i as int].date == date@);
            let mut k: usize = 0;
            while k < self.days[i].tasks.len()
                invariant
                    i < self.days.len(),
                    self@.days[i as int].date == date@,
                    k <= self.days[i as int].tasks.len(),
                    *self == *old(self),
                    self.wf(),
                    forall|l: int| 0 <= l < k ==> self@.id_at(i as int, l) != id,
                decreases self.days[i as int].tasks.len() - k,
            {
                if self.days[i].tasks[k].id == id {
                    proof {
                        assert(self@.holds(i as int, k as int));
                        lemma_position(self@, id as nat, i as int, k as int);
                        lemma_update_wf(self@, id as nat, date@, text@);
                        assert(self@.has_task_under(id as nat, date@));
                    }
                    self.days[i].tasks[k].text = String::from_str(text);
                    proof {
                        let d = old(self)@.days[i as int];
                        assert(self.days@[i as int]@.tasks =~= d.tasks.update(
                            k as int,
                            TaskView { id: id as nat, text: text@ },
                        ));
                        assert(self@.days =~= old(self)@.days.update(
                            i as int,
                            DayView {
                                date: d.date,
                                tasks: d.tasks.update(
                                    k as int,
                                    TaskView { id: id as nat, text: text@ },
                                ),
                            },
                        ));
                    }
                    return true;
                }
                k += 1;
            }
        }
        proof {
            if self@.has_task_under(id as nat, date@) {
                let (a, b) = choose|a: int, b: int|
                    #[trigger] self@.holds(a, b) && self@.id_at(a, b) == id as nat
                        && self@.days[a].date == date@;
                lemma_day_index(self@, date@, a);
            }
        }
        false
    }

    /// What a delete leaves of each day, put as a filter.
    proof fn delete_filters(&self, id: u32)
        requires
            self.wf(),
        ensures
            forall|i: int|
                0 <= i < self@.days.len() ==> (#[trigger] self@.delete(id as nat).days[i]) == (
                DayView {
                    date: self@.days[i].date,
                    tasks: self@.days[i].tasks.filter(other_than(id as nat)),
                }),
    {
        assert forall|i: int| 0 <= i < self@.days.len() implies (#[trigger] self@.delete(
            id as nat,
        ).days[i]) == (DayView {
            date: self@.days[i].date,
            tasks: self@.days[i].tasks.filter(other_than(id as nat)),
        }) by {
            law_delete_filters(self@, id as nat, i);
        }
    }

    /// Removes the task with this id, under whichever date it stands. Its
    /// day stays, even if empty. Where no task has the id nothing changes.
    /// Put as a filter: every day keeps its date and those of its tasks,
    /// in their order, whose id is another.
    pub fn delete_task(&mut self, id: u32)
        requires
            old(self).wf(),
        ensures
            final(self).wf(),
            final(self)@ == old(self)@.delete(id as nat),
            final(self)@.next_id == old(self)@.next_id,
            final(self)@.days.len() == old(self)@.days.len(),
            forall|i: int|
                0 <= i < old(self)@.days.len() ==> (#[trigger] final(self)@.days[i]) == (DayView {
                    date: old(self)@.days[i].date,
                    tasks: old(self)@.days[i].tasks.filter(other_than(id as nat)),
                }),
    {
        let mut i: usize = 0;
        while i < self.days.len()
            invariant
                i <= self.days.len(),
                *self == *old(self),
                self.wf(),
                forall|a: int, b: int|
                    0 <= a < i && #[trigger] self@.holds(a, b) ==> self@.id_at(a, b) != id,
            decreases self.days.len() - i,
        {
            let mut k: usize = 0;
            while k < self.days[i].tasks.len()
                invariant
                    i < self.days.len(),
                    k <= self.days[i as int].tasks.len(),
                    *self == *old(self),
                    self.wf(),
                    forall|l: int| 0 <= l < k ==> self@.id_at(i as int, l) != id,
                decreases self.days[i as int].tasks.len() - k,
            {
                if self.days[i].tasks[k].id == id {
                    proof {
                        assert(self@.holds(i as int, k as int));
                        lemma_position(self@, id as nat, i as int, k as int);
                        lemma_delete_wf(self@, id as nat);
                        self.delete_filters(id);
                    }
                    self.days[i].tasks.remove(k);
                    proof {
                        let d = old(self)@.days[i as int];
                        assert(self.days@[i as int]@.tasks =~= d.tasks.remove(k as int));
                        assert(self@.days =~= old(self)@.days.update(
                            i as int,
                            DayView { date: d.date, tasks: d.tasks.remove(k as int) },
                        ));
                    }
                    return ;
                }
                k += 1;
            }
            i += 1;
        }
        proof {
            if self@.contains_id(id as nat) {
                let (a, b) = self@.position(id as nat);
                assert(self@.holds(a, b) && self@.id_at(a, b) == id as nat);
            }
            self.delete_filters(id);
        }
    }
}

} // verus!
