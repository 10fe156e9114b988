use calendar_server::store::{ApiError, Day, Store};

fn texts(day: &Day) -> Vec<String> {
    day.tasks.iter().map(|t| t.text.clone()).collect()
}

fn ids(day: &Day) -> Vec<u32> {
    day.tasks.iter().map(|t| t.id).collect()
}

#[test]
fn new_store_is_empty_and_starts_at_one() {
    let store = Store::new();
    assert!(store.list_all().is_empty());
    assert_eq!(store.next_id(), 1);
}

#[test]
fn created_ids_are_distinct() {
    let mut store = Store::new();
    let mut seen: Vec<u32> = Vec::new();
    for n in 0..50 {
        let date = format!("2024-01-{:02}", n % 7 + 1);
        let task = store.create_task(&date, "x").unwrap();
        assert!(!seen.contains(&task.id));
        seen.push(task.id);
    }
    assert_eq!(seen.len(), 50);
}

#[test]
fn created_ids_increase_whatever_the_dates() {
    let mut store = Store::new();
    let a = store.create_task("2024-12-31", "late").unwrap();
    let b = store.create_task("2024-01-01", "early").unwrap();
    let c = store.create_task("2024-12-31", "late again").unwrap();
    let d = store.create_task("not a date", "anything").unwrap();
    assert_eq!((a.id, b.id, c.id, d.id), (1, 2, 3, 4));
}

#[test]
fn created_task_is_listed_under_its_date() {
    let mut store = Store::new();
    let task = store.create_task("2024-05-01", "buy milk").unwrap();
    assert_eq!(task.text, "buy milk");
    let days = store.list_all();
    assert_eq!(days.len(), 1);
    assert_eq!(days[0].date, "2024-05-01");
    assert_eq!(days[0].tasks.len(), 1);
    assert_eq!(days[0].tasks[0].id, task.id);
    assert_eq!(days[0].tasks[0].text, "buy milk");
}

#[test]
fn tasks_keep_insertion_order_within_and_across_days() {
    let mut store = Store::new();
    store.create_task("b", "one").unwrap();
    store.create_task("a", "two").unwrap();
    store.create_task("b", "three").unwrap();
    let days = store.list_all();
    assert_eq!(days.len(), 2);
    assert_eq!(days[0].date, "b");
    assert_eq!(texts(&days[0]), vec!["one", "three"]);
    assert_eq!(ids(&days[0]), vec![1, 3]);
    assert_eq!(days[1].date, "a");
    assert_eq!(texts(&days[1]), vec!["two"]);
    assert_eq!(ids(&days[1]), vec![2]);
}

#[test]
fn create_refuses_empty_date() {
    let mut store = Store::new();
    let r = store.create_task("", "text");
    assert_eq!(r.err(), Some(ApiError::InvalidInput));
    assert!(store.list_all().is_empty());
    assert_eq!(store.next_id(), 1);
}

#[test]
fn create_refuses_empty_text() {
    let mut store = Store::new();
    let r = store.create_task("2024-05-01", "");
    assert_eq!(r.err(), Some(ApiError::InvalidInput));
    assert!(store.list_all().is_empty());
    assert_eq!(store.next_id(), 1);
}

#[test]
fn update_replaces_the_text_only() {
    let mut store = Store::new();
    store.create_task("d", "first").unwrap();
    let t = store.create_task("d", "second").unwrap();
    assert!(store.update_task(t.id, "d", "changed"));
    let days = store.list_all();
    assert_eq!(texts(&days[0]), vec!["first", "changed"]);
    assert_eq!(ids(&days[0]), vec![1, 2]);
    assert_eq!(store.next_id(), 3);
}

#[test]
fn update_with_wrong_date_fails_and_changes_nothing() {
    let mut store = Store::new();
    let t = store.create_task("2024-05-01", "buy milk").unwrap();
    store.create_task("2024-05-02", "other").unwrap();
    assert!(!store.update_task(t.id, "2024-05-02", "changed"));
    assert!(!store.update_task(t.id, "2024-05-03", "changed"));
    let days = store.list_all();
    assert_eq!(texts(&days[0]), vec!["buy milk"]);
    assert_eq!(texts(&days[1]), vec!["other"]);
}

#[test]
fn update_of_unknown_id_fails() {
    let mut store = Store::new();
    store.create_task("d", "a").unwrap();
    assert!(!store.update_task(99, "d", "b"));
    assert_eq!(texts(&store.list_all()[0]), vec!["a"]);
}

#[test]
fn delete_of_unknown_id_changes_nothing() {
    let mut store = Store::new();
    store.create_task("d", "a").unwrap();
    store.delete_task(42);
    let days = store.list_all();
    assert_eq!(days.len(), 1);
    assert_eq!(texts(&days[0]), vec!["a"]);
    assert_eq!(store.next_id(), 2);
}

#[test]
fn delete_twice_removes_once() {
    let mut store = Store::new();
    store.create_task("d", "a").unwrap();
    let t = store.create_task("e", "b").unwrap();
    store.create_task("e", "c").unwrap();
    store.delete_task(t.id);
    let once = store.list_all();
    assert_eq!(texts(&once[0]), vec!["a"]);
    assert_eq!(texts(&once[1]), vec!["c"]);
    store.delete_task(t.id);
    let twice = store.list_all();
    assert_eq!(twice.len(), 2);
    assert_eq!(texts(&twice[0]), vec!["a"]);
    assert_eq!(texts(&twice[1]), vec!["c"]);
}

#[test]
fn delete_finds_the_task_under_any_date_and_keeps_the_empty_day() {
    let mut store = Store::new();
    store.create_task("first", "a").unwrap();
    let t = store.create_task("second", "b").unwrap();
    store.delete_task(t.id);
    let days = store.list_all();
    assert_eq!(days.len(), 2);
    assert_eq!(days[1].date, "second");
    assert!(days[1].tasks.is_empty());
}

#[test]
fn ids_are_not_reused_after_delete() {
    let mut store = Store::new();
    let a = store.create_task("d", "a").unwrap();
    store.delete_task(a.id);
    let b = store.create_task("d", "b").unwrap();
    assert_eq!(b.id, 2);
    assert_eq!(store.next_id(), 3);
}

#[test]
fn n_creates_make_n_tasks_and_advance_the_counter_by_n() {
    let mut store = Store::new();
    let before = store.next_id();
    for n in 0..20u32 {
        store.create_task(if n % 2 == 0 { "even" } else { "odd" }, "t").unwrap();
    }
    let total: usize = store.list_all().iter().map(|d| d.tasks.len()).sum();
    assert_eq!(total, 20);
    assert_eq!(store.next_id(), before + 20);
}

#[test]
fn task_and_day_clone_keep_their_fields() {
    let mut store = Store::new();
    store.create_task("d", "a").unwrap();
    let days = store.list_all();
    let copy = days[0].clone();
    assert_eq!(copy.date, "d");
    assert_eq!(copy.tasks[0].id, 1);
    assert_eq!(copy.tasks[0].clone().text, "a");
}
