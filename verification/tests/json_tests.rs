use calendar_server::json::{
    day_json, frame_day, frame_month, frame_task, join_array, month_json, read_task_fields,
    task_json, tasks_json,
};
use calendar_server::store::{Day, Store, Task};

#[test]
fn frame_task_is_compact_with_id_first() {
    assert_eq!(frame_task(1, "\"call mom\""), "{\"id\":1,\"text\":\"call mom\"}");
    assert_eq!(frame_task(4294967295, "\"\""), "{\"id\":4294967295,\"text\":\"\"}");
}

#[test]
fn frame_day_and_month() {
    assert_eq!(frame_day("\"d\"", "[]"), "{\"date\":\"d\",\"tasks\":[]}");
    assert_eq!(frame_month("[]"), "{\"days\":[]}");
}

#[test]
fn join_array_separates_with_commas() {
    assert_eq!(join_array(&vec![]), "[]");
    assert_eq!(join_array(&vec!["1".to_string()]), "[1]");
    assert_eq!(join_array(&vec!["1".to_string(), "2".to_string(), "3".to_string()]), "[1,2,3]");
}

#[test]
fn task_json_quotes_and_escapes_the_text() {
    let plain = Task { id: 1, text: "call mom".to_string() };
    assert_eq!(task_json(&plain), "{\"id\":1,\"text\":\"call mom\"}");
    let quoted = Task { id: 3, text: "say \"hi\"\n".to_string() };
    assert_eq!(task_json(&quoted), "{\"id\":3,\"text\":\"say \\\"hi\\\"\\n\"}");
}

#[test]
fn tasks_json_and_day_json() {
    let tasks =
        vec![Task { id: 1, text: "a".to_string() }, Task { id: 2, text: "b".to_string() }];
    assert_eq!(tasks_json(&tasks), "[{\"id\":1,\"text\":\"a\"},{\"id\":2,\"text\":\"b\"}]");
    let day = Day { date: "2024-01-10".to_string(), tasks };
    assert_eq!(
        day_json(&day),
        "{\"date\":\"2024-01-10\",\"tasks\":[{\"id\":1,\"text\":\"a\"},{\"id\":2,\"text\":\"b\"}]}"
    );
}

#[test]
fn month_json_lists_days_in_store_order() {
    let mut store = Store::new();
    assert_eq!(month_json(&store.list_all()), "{\"days\":[]}");
    store.create_task("b", "one").unwrap();
    store.create_task("a", "two").unwrap();
    assert_eq!(
        month_json(&store.list_all()),
        "{\"days\":[{\"date\":\"b\",\"tasks\":[{\"id\":1,\"text\":\"one\"}]},{\"date\":\"a\",\"tasks\":[{\"id\":2,\"text\":\"two\"}]}]}"
    );
}

#[test]
fn month_json_is_what_serde_json_reads_back() {
    let mut store = Store::new();
    store.create_task("2024-05-01", "tab\there \\ \"q\" é").unwrap();
    let text = month_json(&store.list_all());
    let value: serde_json::Value = serde_json::from_str(&text).unwrap();
    let task = &value["days"][0]["tasks"][0];
    assert_eq!(value["days"][0]["date"].as_str(), Some("2024-05-01"));
    assert_eq!(task["id"].as_u64(), Some(1));
    assert_eq!(task["text"].as_str(), Some("tab\there \\ \"q\" é"));
}

#[test]
fn read_task_fields_finds_both_fields() {
    let f = read_task_fields(b"{\"date\":\"2024-01-10\",\"text\":\"call mom\"}").unwrap();
    assert_eq!(f.date.as_deref(), Some("2024-01-10"));
    assert_eq!(f.text.as_deref(), Some("call mom"));
    let swapped = read_task_fields(b" { \"text\" : \"t\\n\" , \"date\" : \"d\" } ").unwrap();
    assert_eq!(swapped.date.as_deref(), Some("d"));
    assert_eq!(swapped.text.as_deref(), Some("t\n"));
}

#[test]
fn read_task_fields_reports_missing_fields() {
    let f = read_task_fields(b"{\"date\":\"d\"}").unwrap();
    assert_eq!(f.date.as_deref(), Some("d"));
    assert_eq!(f.text, None);
    let g = read_task_fields(b"{\"other\":\"x\"}").unwrap();
    assert_eq!(g.date, None);
    assert_eq!(g.text, None);
    let e = read_task_fields(b"{}").unwrap();
    assert_eq!(e.date, None);
    assert_eq!(e.text, None);
}

#[test]
fn read_task_fields_refuses_what_is_no_map_of_strings() {
    assert!(read_task_fields(b"").is_none());
    assert!(read_task_fields(b"not json").is_none());
    assert!(read_task_fields(b"{\"date\":\"d\",").is_none());
    assert!(read_task_fields(b"[\"date\",\"text\"]").is_none());
    assert!(read_task_fields(b"{\"date\":\"d\",\"text\":5}").is_none());
    assert!(read_task_fields(b"{\"date\":\"d\",\"text\":\"t\"} trailing").is_none());
    assert!(read_task_fields(&[0x7b, 0x22, 0xff, 0x22, 0x3a, 0x22, 0x22, 0x7d]).is_none());
}
