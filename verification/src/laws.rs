//! What holds of the store's operations, whatever the requests: proved over
//! the model that the executable store's contracts speak of.

use vstd::prelude::*;
use crate::http::{cors_headers, is_cors_name, not_cors, with_cors, ResponseView};
use crate::text::same_name;
use crate::model::{lemma_create_wf, lemma_day_index, lemma_position, shifted, NewTask, StoreView, TaskView};

verus! {

/// The store after a run of creates, one for each request in order.
pub open spec fn create_all(s: StoreView, reqs: Seq<NewTask>) -> StoreView
    decreases reqs.len(),
{
    if reqs.len() == 0 {
        s
    } else {
        let r = reqs.last();
        create_all(s, reqs.drop_last()).create(r.date, r.text)
    }
}

/// The tasks that such a run hands back, in the order of the requests.
pub open spec fn created(s: StoreView, reqs: Seq<NewTask>) -> Seq<TaskView>
    decreases reqs.len(),
{
    if reqs.len() == 0 {
        Seq::empty()
    } else {
        created(s, reqs.drop_last()).push(
            create_all(s, reqs.drop_last()).next_task(reqs.last().text),
        )
    }
}

/// One create adds exactly one task to the store.
pub proof fn law_create_adds_one(s: StoreView, date: Seq<char>, text: Seq<char>)
    requires
        s.wf(),
    ensures
        s.create(date, text).task_count() == s.task_count() + 1,
        s.create(date, text).next_id == s.next_id + 1,
{
    let t = s.create(date, text);
    if s.has_day(date) {
        let d = s.day_index(date);
        assert(0 <= d < s.days.len());
        lemma_count_after_push(s, t, d, s.days.len() as int);
    } else {
        let n = s.days.len() as int;
        lemma_count_same(s, t, n);
        assert(t.count_in(n + 1) == t.count_in(n) + t.days[n].tasks.len());
    }
}

proof fn lemma_count_same(s: StoreView, t: StoreView, n: int)
    requires
        0 <= n <= s.days.len(),
        n <= t.days.len(),
        forall|i: int| 0 <= i < n ==> s.days[i].tasks.len() == t.days[i].tasks.len(),
    ensures
        s.count_in(n) == t.count_in(n),
    decreases n,
{
    if n > 0 {
        lemma_count_same(s, t, n - 1);
    }
}

proof fn lemma_count_after_push(s: StoreView, t: StoreView, d: int, n: int)
    requires
        0 <= n <= s.days.len(),
        s.days.len() == t.days.len(),
        0 <= d < s.days.len(),
        t.days[d].tasks.len() == s.days[d].tasks.len() + 1,
        forall|i: int| 0 <= i < s.days.len() && i != d ==> s.days[i].tasks.len() == t.days[i].tasks.len(),
    ensures
        t.count_in(n) == s.count_in(n) + if d < n { 1nat } else { 0nat },
    decreases n,
{
    if n > 0 {
        lemma_count_after_push(s, t, d, n - 1);
    }
}

/// A run of creates keeps the store well-formed, moves the counter on by
/// exactly the number of requests, adds exactly that many tasks, and hands
/// out the ids `next_id`, `next_id + 1`, ... in the order of the requests,
/// whatever their dates.
pub proof fn law_create_all(s: StoreView, reqs: Seq<NewTask>)
    requires
        s.wf(),
    ensures
        create_all(s, reqs).wf(),
        create_all(s, reqs).next_id == s.next_id + reqs.len(),
        create_all(s, reqs).task_count() == s.task_count() + reqs.len(),
        created(s, reqs).len() == reqs.len(),
        forall|a: int|
            0 <= a < reqs.len() ==> (#[trigger] created(s, reqs)[a]).id == s.next_id + a
                && created(s, reqs)[a].text == reqs[a].text,
    decreases reqs.len(),
{
    if reqs.len() > 0 {
        let before = create_all(s, reqs.drop_last());
        let r = reqs.last();
        law_create_all(s, reqs.drop_last());
        lemma_create_wf(before, r.date, r.text);
        law_create_adds_one(before, r.date, r.text);
    }
}

/// Ids are issued in strictly increasing order: of two tasks made by one run
/// of creates, the later has the greater id.
pub proof fn law_ids_increase(s: StoreView, reqs: Seq<NewTask>, a: int, b: int)
    requires
        s.wf(),
        0 <= a < b < reqs.len(),
    ensures
        created(s, reqs)[a].id < created(s, reqs)[b].id,
{
    law_create_all(s, reqs);
}

/// Ids are unique: two different creates of one run never hand out the same
/// id.
pub proof fn law_ids_distinct(s: StoreView, reqs: Seq<NewTask>, a: int, b: int)
    requires
        s.wf(),
        0 <= a < reqs.len(),
        0 <= b < reqs.len(),
        a != b,
    ensures
        created(s, reqs)[a].id != created(s, reqs)[b].id,
{
    law_create_all(s, reqs);
}

/// A created task is listed: afterwards its date has a day, and the new task,
/// with the id that was handed out, is the last task of that day.
pub proof fn law_create_listed(s: StoreView, date: Seq<char>, text: Seq<char>)
    requires
        s.wf(),
    ensures
        s.create(date, text).has_day(date),
        s.create(date, text).days[s.create(date, text).day_index(date)].tasks.last()
            == s.next_task(text),
        s.create(date, text).has_task_under(s.next_id, date),
{
    let t = s.create(date, text);
    lemma_create_wf(s, date, text);
    let i = if s.has_day(date) {
        s.day_index(date)
    } else {
        s.days.len() as int
    };
    assert(0 <= i < t.days.len() && t.days[i].date == date);
    lemma_day_index(t, date, i);
    let k = t.days[i].tasks.len() - 1;
    assert(t.holds(i, k) && t.id_at(i, k) == s.next_id);
}

/// An update is scoped to its date: with the right id but another date than
/// the task's own it fails, and no task changes.
pub proof fn law_update_wrong_date(
    s: StoreView,
    id: nat,
    own: Seq<char>,
    other: Seq<char>,
    text: Seq<char>,
)
    requires
        s.wf(),
        s.has_task_under(id, own),
        other != own,
    ensures
        !s.has_task_under(id, other),
        s.update(id, other, text) == s,
{
    let (a, b) = choose|i: int, k: int|
        #[trigger] s.holds(i, k) && s.id_at(i, k) == id && s.days[i].date == own;
    if s.has_task_under(id, other) {
        let (c, d) = choose|i: int, k: int|
            #[trigger] s.holds(i, k) && s.id_at(i, k) == id && s.days[i].date == other;
        assert(a == c);
    }
}

/// An update that succeeds replaces the text of that one task and leaves its
/// id, its place and every other task as they were.
pub proof fn law_update_changes_text(s: StoreView, id: nat, date: Seq<char>, text: Seq<char>)
    requires
        s.wf(),
        s.has_task_under(id, date),
    ensures
        s.update(id, date, text).has_task_under(id, date),
        forall|i: int, k: int| #[trigger]
            s.holds(i, k) ==> s.update(id, date, text).holds(i, k) && s.update(
                id,
                date,
                text,
            ).days[i].date == s.days[i].date && s.update(id, date, text).days[i].tasks[k] == (if s.id_at(
                i,
                k,
            ) == id {
                TaskView { id, text }
            } else {
                s.days[i].tasks[k]
            }),
{
    let t = s.update(id, date, text);
    let (a, b) = choose|i: int, k: int|
        #[trigger] s.holds(i, k) && s.id_at(i, k) == id && s.days[i].date == date;
    lemma_position(s, id, a, b);
    assert(t.holds(a, b) && t.id_at(a, b) == id && t.days[a].date == date);
    assert forall|i: int, k: int| #[trigger] s.holds(i, k) implies t.holds(i, k) && t.days[i].date
        == s.days[i].date && t.days[i].tasks[k] == (if s.id_at(i, k) == id {
        TaskView { id, text }
    } else {
        s.days[i].tasks[k]
    }) by {
        if s.id_at(i, k) == id {
            lemma_position(s, id, i, k);
        }
    }
}

/// Deleting an id that no task has changes nothing.
pub proof fn law_delete_absent(s: StoreView, id: nat)
    requires
        !s.contains_id(id),
    ensures
        s.delete(id) == s,
{
}

/// After a delete no task has the id; every day is still there, under its
/// date; and the counter has not moved.
pub proof fn law_delete_removes(s: StoreView, id: nat)
    requires
        s.wf(),
    ensures
        !s.delete(id).contains_id(id),
        s.delete(id).next_id == s.next_id,
        s.delete(id).days.len() == s.days.len(),
        forall|i: int| 0 <= i < s.days.len() ==> (#[trigger] s.delete(id).days[i]).date == s.days[i].date,
{
    let t = s.delete(id);
    if s.contains_id(id) {
        let (a, b) = s.position(id);
        assert(s.holds(a, b) && s.id_at(a, b) == id);
        if t.contains_id(id) {
            let (c, d) = t.position(id);
            assert(t.holds(c, d) && t.id_at(c, d) == id);
            assert(s.holds(c, shifted(a, b, c, d)));
            assert(s.id_at(c, shifted(a, b, c, d)) == id);
        }
    }
}

/// A delete touches no other task: a task with another id is in the store
/// afterwards exactly if it was before, under the same date and with the
/// same text.
pub proof fn law_delete_keeps_others(s: StoreView, id: nat, other: TaskView, date: Seq<char>)
    requires
        s.wf(),
        other.id != id,
    ensures
        s.delete(id).contains_id(other.id) == s.contains_id(other.id),
        has_task(s.delete(id), other, date) == has_task(s, other, date),
{
    let t = s.delete(id);
    if s.contains_id(id) {
        let (a, b) = s.position(id);
        assert(s.holds(a, b) && s.id_at(a, b) == id);
        if s.contains_id(other.id) {
            let (c, d) = s.position(other.id);
            assert(s.holds(c, d) && s.id_at(c, d) == other.id);
            let e = if c == a && d > b {
                d - 1
            } else {
                d
            };
            assert(t.holds(c, e) && t.id_at(c, e) == other.id);
        }
        if t.contains_id(other.id) {
            let (c, d) = t.position(other.id);
            assert(t.holds(c, d) && t.id_at(c, d) == other.id);
            assert(s.holds(c, shifted(a, b, c, d)));
            assert(s.id_at(c, shifted(a, b, c, d)) == other.id);
        }
        if has_task(s, other, date) {
            let (c, d) = choose|i: int, k: int|
                #[trigger] s.holds(i, k) && s.days[i].tasks[k] == other && s.days[i].date == date;
            let e = if c == a && d > b {
                d - 1
            } else {
                d
            };
            assert(s.id_at(c, d) == other.id);
            assert(t.holds(c, e) && t.days[c].tasks[e] == other && t.days[c].date == date);
        }
        if has_task(t, other, date) {
            let (c, d) = choose|i: int, k: int|
                #[trigger] t.holds(i, k) && t.days[i].tasks[k] == other && t.days[i].date == date;
            let e = shifted(a, b, c, d);
            assert(s.holds(c, e) && s.days[c].tasks[e] == other && s.days[c].date == date);
        }
    }
}

/// This very task, id and text, stands under this date.
pub open spec fn has_task(s: StoreView, task: TaskView, date: Seq<char>) -> bool {
    exists|i: int, k: int|
        #[trigger] s.holds(i, k) && s.days[i].tasks[k] == task && s.days[i].date == date
}

/// Deleting twice is deleting once: the second delete of the same id finds
/// nothing and changes nothing.
pub proof fn law_delete_twice(s: StoreView, id: nat)
    requires
        s.wf(),
    ensures
        s.delete(id).delete(id) == s.delete(id),
{
    law_delete_removes(s, id);
}

/// The test that a delete applies to each task: it stays unless it has the
/// id.
pub open spec fn other_than(id: nat) -> spec_fn(TaskView) -> bool {
    |t: TaskView| t.id != id
}

proof fn lemma_filter_keeps_all(tasks: Seq<TaskView>, id: nat)
    requires
        forall|k: int| 0 <= k < tasks.len() ==> (#[trigger] tasks[k]).id != id,
    ensures
        tasks.filter(other_than(id)) == tasks,
    decreases tasks.len(),
{
    reveal(Seq::filter);
    if tasks.len() > 0 {
        lemma_filter_keeps_all(tasks.drop_last(), id);
        assert(tasks.drop_last().push(tasks.last()) =~= tasks);
    }
}

proof fn lemma_filter_drops_one(tasks: Seq<TaskView>, id: nat, at: int)
    requires
        0 <= at < tasks.len(),
        forall|k: int| 0 <= k < tasks.len() ==> ((#[trigger] tasks[k]).id == id <==> k == at),
    ensures
        tasks.filter(other_than(id)) == tasks.remove(at),
    decreases tasks.len(),
{
    reveal(Seq::filter);
    if at == tasks.len() - 1 {
        lemma_filter_keeps_all(tasks.drop_last(), id);
        assert(tasks.drop_last() =~= tasks.remove(at));
    } else {
        lemma_filter_drops_one(tasks.drop_last(), id, at);
        assert(tasks.drop_last().remove(at).push(tasks.last()) =~= tasks.remove(at));
    }
}

/// A delete is a filter over the whole store: every day keeps its date and
/// exactly those of its tasks, in their order, whose id is another.
pub proof fn law_delete_filters(s: StoreView, id: nat, i: int)
    requires
        s.wf(),
        0 <= i < s.days.len(),
    ensures
        s.delete(id).days.len() == s.days.len(),
        s.delete(id).days[i].date == s.days[i].date,
        s.delete(id).days[i].tasks == s.days[i].tasks.filter(other_than(id)),
{
    let tasks = s.days[i].tasks;
    if s.contains_id(id) {
        let (a, b) = s.position(id);
        assert(s.holds(a, b) && s.id_at(a, b) == id);
        if i == a {
            assert forall|k: int| 0 <= k < tasks.len() implies ((#[trigger] tasks[k]).id == id <==> k
                == b) by {
                assert(s.holds(i, k));
                assert(s.id_at(i, k) == tasks[k].id);
            }
            lemma_filter_drops_one(tasks, id, b);
        } else {
            assert forall|k: int| 0 <= k < tasks.len() implies (#[trigger] tasks[k]).id != id by {
                assert(s.holds(i, k));
                assert(s.id_at(i, k) == tasks[k].id);
            }
            lemma_filter_keeps_all(tasks, id);
        }
    } else {
        assert forall|k: int| 0 <= k < tasks.len() implies (#[trigger] tasks[k]).id != id by {
            assert(s.holds(i, k));
            assert(s.id_at(i, k) == tasks[k].id);
        }
        lemma_filter_keeps_all(tasks, id);
    }
}

proof fn lemma_headers_all_kept(headers: Seq<(Seq<char>, Seq<char>)>)
    requires
        forall|i: int| 0 <= i < headers.len() ==> !is_cors_name((#[trigger] headers[i]).0),
    ensures
        headers.filter(not_cors()) == headers,
    decreases headers.len(),
{
    reveal(Seq::filter);
    if headers.len() > 0 {
        lemma_headers_all_kept(headers.drop_last());
        assert(headers.drop_last().push(headers.last()) =~= headers);
    }
}

proof fn lemma_headers_none_kept(headers: Seq<(Seq<char>, Seq<char>)>)
    requires
        forall|i: int| 0 <= i < headers.len() ==> is_cors_name((#[trigger] headers[i]).0),
    ensures
        headers.filter(not_cors()) == Seq::<(Seq<char>, Seq<char>)>::empty(),
    decreases headers.len(),
{
    reveal(Seq::filter);
    if headers.len() > 0 {
        lemma_headers_none_kept(headers.drop_last());
    }
}

/// The three cross-origin headers carry three different names, each of them
/// a cross-origin name.
pub proof fn law_cors_names(i: int, j: int)
    requires
        0 <= i < 3,
        0 <= j < 3,
    ensures
        cors_headers().len() == 3,
        is_cors_name(cors_headers()[i].0),
        same_name(cors_headers()[i].0, cors_headers()[j].0) <==> i == j,
{
    reveal_strlit("Access-Control-Allow-Origin");
    reveal_strlit("Access-Control-Allow-Methods");
    reveal_strlit("Access-Control-Allow-Headers");
    let methods = "Access-Control-Allow-Methods"@;
    let headers = "Access-Control-Allow-Headers"@;
    assert(methods[21] == 'M' && headers[21] == 'H');
}

/// Setting the cross-origin headers replaces: in the result the headers
/// under a cross-origin name are exactly the last three, which are the three
/// cross-origin headers; what stands before them are the headers that the
/// response had under other names.
pub proof fn law_cors_replaces(r: ResponseView, i: int)
    requires
        0 <= i < with_cors(r).headers.len(),
    ensures
        with_cors(r).headers.len() == r.headers.filter(not_cors()).len() + 3,
        is_cors_name(with_cors(r).headers[i].0) <==> i >= with_cors(r).headers.len() - 3,
        i >= with_cors(r).headers.len() - 3 ==> with_cors(r).headers[i] == cors_headers()[i - (
        with_cors(r).headers.len() - 3)],
{
    let kept = r.headers.filter(not_cors());
    if i < kept.len() {
        r.headers.lemma_filter_pred(not_cors(), i);
    } else {
        law_cors_names(i - kept.len(), 0);
    }
}

/// Setting the cross-origin headers twice is setting them once.
pub proof fn law_cors_idempotent(r: ResponseView)
    ensures
        with_cors(with_cors(r)) == with_cors(r),
{
    let kept = r.headers.filter(not_cors());
    assert forall|i: int| 0 <= i < kept.len() implies !is_cors_name((#[trigger] kept[i]).0) by {
        r.headers.lemma_filter_pred(not_cors(), i);
    }
    lemma_headers_all_kept(kept);
    assert forall|i: int| 0 <= i < cors_headers().len() implies is_cors_name(
        (#[trigger] cors_headers()[i]).0,
    ) by {
        law_cors_names(i, 0);
    }
    lemma_headers_none_kept(cors_headers());
    Seq::filter_distributes_over_add(kept, cors_headers(), not_cors());
    assert(with_cors(with_cors(r)).headers =~= with_cors(r).headers);
}

} // verus!
