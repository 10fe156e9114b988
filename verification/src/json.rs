//! The wire format: reading the two fields of a request body and writing
//! tasks, days and the month as compact JSON. Parsing and string escaping are
//! serde_json's; the framing around them is proved here.

use vstd::prelude::*;
use vstd::string::StringExecFns;
use crate::model::{DayView, TaskView};
use crate::store::{day_views, task_views, Day, Task};
use crate::text::{decimal, decimal_text};

verus! {

/// What serde_json writes for a string: the JSON string literal, in quotes
/// and escaped.
pub uninterp spec fn json_quoted(s: Seq<char>) -> Seq<char>;

/// What serde_json reads from a body as a map from strings to strings, or
/// nothing where the body is not such a JSON object.
pub uninterp spec fn json_string_map(body: Seq<u8>) -> Option<Map<Seq<char>, Seq<char>>>;

/// The two fields of a request body, each present or not.
#[derive(Debug)]
pub struct TaskFields {
    pub date: Option<String>,
    pub text: Option<String>,
}

/// The fields of a request body as contracts see them.
pub struct FieldsView {
    pub date: Option<Seq<char>>,
    pub text: Option<Seq<char>>,
}

/// The text of an optional string.
pub open spec fn text_of(s: Option<String>) -> Option<Seq<char>> {
    match s {
        Some(s) => Some(s@),
        None => None,
    }
}

/// The views of a sequence of strings.
pub open spec fn texts(items: Seq<String>) -> Seq<Seq<char>> {
    Seq::new(items.len(), |i: int| items[i]@)
}

impl View for TaskFields {
    type V = FieldsView;

    open spec fn view(&self) -> FieldsView {
        FieldsView { date: text_of(self.date), text: text_of(self.text) }
    }
}

/// The view of what a body was read as.
pub open spec fn fields_of(parsed: Option<TaskFields>) -> Option<FieldsView> {
    match parsed {
        Some(f) => Some(f@),
        None => None,
    }
}

/// The value under a key, where the map has the key.
pub open spec fn lookup(m: Map<Seq<char>, Seq<char>>, key: Seq<char>) -> Option<Seq<char>> {
    if m.contains_key(key) {
        Some(m[key])
    } else {
        None
    }
}

/// The two named fields of a map that was read, or nothing where none was.
pub open spec fn named_fields(
    m: Option<Map<Seq<char>, Seq<char>>>,
    date_key: Seq<char>,
    text_key: Seq<char>,
) -> Option<FieldsView> {
    match m {
        Some(m) => Some(FieldsView { date: lookup(m, date_key), text: lookup(m, text_key) }),
        None => None,
    }
}

/// Items joined by commas.
pub open spec fn joined(items: Seq<Seq<char>>) -> Seq<char>
    decreases items.len(),
{
    if items.len() == 0 {
        Seq::empty()
    } else if items.len() == 1 {
        items[0]
    } else {
        joined(items.drop_last()) + ","@ + items.last()
    }
}

/// A JSON array of items that are already JSON.
pub open spec fn array_text(items: Seq<Seq<char>>) -> Seq<char> {
    "["@ + joined(items) + "]"@
}

/// A task object around an id and an already quoted text.
pub open spec fn task_frame(id: nat, quoted: Seq<char>) -> Seq<char> {
    "{\"id\":"@ + decimal_text(id) + ",\"text\":"@ + quoted + "}"@
}

/// A day object around an already quoted date and an array of tasks.
pub open spec fn day_frame(quoted_date: Seq<char>, tasks: Seq<char>) -> Seq<char> {
    "{\"date\":"@ + quoted_date + ",\"tasks\":"@ + tasks + "}"@
}

/// The month object around an array of days.
pub open spec fn month_frame(days: Seq<char>) -> Seq<char> {
    "{\"days\":"@ + days + "}"@
}

/// A task as JSON.
pub open spec fn task_text(t: TaskView) -> Seq<char> {
    task_frame(t.id, json_quoted(t.text))
}

/// A list of tasks as a JSON array.
pub open spec fn tasks_text(tasks: Seq<TaskView>) -> Seq<char> {
    array_text(Seq::new(tasks.len(), |k: int| task_text(tasks[k])))
}

/// A day as JSON.
pub open spec fn day_text(d: DayView) -> Seq<char> {
    day_frame(json_quoted(d.date), tasks_text(d.tasks))
}

/// The month as JSON.
pub open spec fn month_text(days: Seq<DayView>) -> Seq<char> {
    month_frame(array_text(Seq::new(days.len(), |i: int| day_text(days[i]))))
}

/// Calls `serde_json::to_string` on a string. Trusted: the result is the
/// JSON string literal that serde_json writes for it, which depends on the
/// string alone; and the call succeeds, since a string is written by
/// `serialize_str` into a byte vector, where no write can fail.
#[verifier::external_body]
fn quote(s: &str) -> (r: Option<String>)
    ensures
        text_of(r) == Some(json_quoted(s@)),
{
    serde_json::to_string(s).ok()
}

/// Calls `serde_json::from_slice` to read a body as a map from strings to
/// strings, and takes the values under the two keys out of it. Trusted: the
/// map that comes back depends on the bytes alone, an error comes back as
/// `None`, and each field is the map's value under its key where it has one.
#[verifier::external_body]
fn parse_fields(body: &[u8], date_key: &str, text_key: &str) -> (r: Option<TaskFields>)
    requires
        date_key@ != text_key@,
    ensures
        fields_of(r) == named_fields(json_string_map(body@), date_key@, text_key@),
{
    match serde_json::from_slice::<std::collections::HashMap<String, String>>(body) {
        Ok(mut m) => Some(TaskFields { date: m.remove(date_key), text: m.remove(text_key) }),
        Err(_) => None,
    }
}

/// Reads the `date` and `text` fields of a request body.
pub fn read_task_fields(body: &[u8]) -> (r: Option<TaskFields>)
    ensures
        fields_of(r) == named_fields(json_string_map(body@), "date"@, "text"@),
{
    proof {
        reveal_strlit("date");
        reveal_strlit("text");
        assert("date"@[0] != "text"@[0]);
    }
    parse_fields(body, "date", "text")
}

/// Joins items that are already JSON into a JSON array.
pub fn join_array(items: &Vec<String>) -> (r: String)
    ensures
        r@ == array_text(texts(items@)),
{
    let mut out = String::from_str("[");
    let mut i: usize = 0;
    assert(texts(items@).take(0) =~= Seq::<Seq<char>>::empty());
    while i < items.len()
        invariant
            i <= items.len(),
            out@ == "["@ + joined(texts(items@).take(i as int)),
        decreases items.len() - i,
    {
        let ghost before = texts(items@).take(i as int);
        let ghost after = texts(items@).take(i + 1);
        assert(after.drop_last() =~= before);
        assert(after.last() == items[i as int]@);
        if i > 0 {
            out.append(",");
        }
        out.append(items[i].as_str());
        assert(out@ =~= "["@ + joined(after)) by {
            if i == 0 {
                assert(joined(before) =~= Seq::<char>::empty());
            }
        }
        i += 1;
    }
    assert(texts(items@).take(i as int) =~= texts(items@));
    out.append("]");
    out
}

/// Frames a task object around an id and an already quoted text.
pub fn frame_task(id: u32, quoted: &str) -> (r: String)
    ensures
        r@ == task_frame(id as nat, quoted@),
{
    let mut out = String::from_str("{\"id\":");
    let number = decimal(id);
    out.append(number.as_str());
    out.append(",\"text\":");
    out.append(quoted);
    out.append("}");
    out
}

/// Frames a day object around an already quoted date and an array of tasks.
pub fn frame_day(quoted_date: &str, tasks: &str) -> (r: String)
    ensures
        r@ == day_frame(quoted_date@, tasks@),
{
    let mut out = String::from_str("{\"date\":");
    out.append(quoted_date);
    out.append(",\"tasks\":");
    out.append(tasks);
    out.append("}");
    out
}

/// Frames the month object around an array of days.
pub fn frame_month(days: &str) -> (r: String)
    ensures
        r@ == month_frame(days@),
{
    let mut out = String::from_str("{\"days\":");
    out.append(days);
    out.append("}");
    out
}

/// Writes a task as JSON.
pub fn task_json(task: &Task) -> (r: String)
    ensures
        r@ == task_text(task@),
{
    let quoted = quote(task.text.as_str()).unwrap();
    frame_task(task.id, quoted.as_str())
}

/// Writes a list of tasks as a JSON array.
pub fn tasks_json(tasks: &Vec<Task>) -> (r: String)
    ensures
        r@ == tasks_text(task_views(tasks@)),
{
    let ghost views = task_views(tasks@);
    let mut items: Vec<String> = Vec::new();
    let mut k: usize = 0;
    while k < tasks.len()
        invariant
            k <= tasks.len(),
            views == task_views(tasks@),
            items.len() == k,
            forall|l: int| 0 <= l < k ==> task_text(#[trigger] views[l]) == items[l]@,
        decreases tasks.len() - k,
    {
        assert(views[k as int] == tasks[k as int]@);
        items.push(task_json(&tasks[k]));
        k += 1;
    }
    assert(texts(items@) =~= Seq::new(views.len(), |l: int| task_text(views[l])));
    join_array(&items)
}

/// Writes a day as JSON.
pub fn day_json(day: &Day) -> (r: String)
    ensures
        r@ == day_text(day@),
{
    let quoted = quote(day.date.as_str()).unwrap();
    let tasks = tasks_json(&day.tasks);
    frame_day(quoted.as_str(), tasks.as_str())
}

/// Writes the month as JSON.
pub fn month_json(days: &Vec<Day>) -> (r: String)
    ensures
        r@ == month_text(day_views(days@)),
{
    let ghost views = day_views(days@);
    let mut items: Vec<String> = Vec::new();
    let mut i: usize = 0;
    while i < days.len()
        invariant
            i <= days.len(),
            views == day_views(days@),
            items.len() == i,
            forall|j: int| 0 <= j < i ==> day_text(#[trigger] views[j]) == items[j]@,
        decreases days.len() - i,
    {
        assert(views[i as int] == days[i as int]@);
        items.push(day_json(&days[i]));
        i += 1;
    }
    assert(texts(items@) =~= Seq::new(views.len(), |j: int| day_text(views[j])));
    let array = join_array(&items);
    frame_month(array.as_str())
}

} // verus!
