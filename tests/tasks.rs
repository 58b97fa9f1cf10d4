use axum_db::app_error::StatusCode;
use axum_db::task::{
    atomic_task_update, contains_text, create_task, delete_task, get_all_tasks, get_task,
    get_task_with_deleted, partial_task_update, DeleteParams, TaskQueryParams, TaskRequest,
    TaskTable, Timestamp,
};

fn request(title: Option<&str>, description: Option<&str>, priority: Option<&str>) -> TaskRequest {
    TaskRequest {
        id: None,
        priority: priority.map(|s| s.to_owned()),
        title: title.map(|s| s.to_owned()),
        completed_at: None,
        description: description.map(|s| s.to_owned()),
        deleted_at: None,
        user_id: None,
        is_default: None,
    }
}

fn query(title: Option<&str>, priority: Option<&str>) -> TaskQueryParams {
    TaskQueryParams { title: title.map(|s| s.to_owned()), priority: priority.map(|s| s.to_owned()) }
}

fn ids(table: &TaskTable, q: &TaskQueryParams) -> Vec<Option<i32>> {
    get_all_tasks(table, q).iter().map(|t| t.id).collect()
}

const NOW: Timestamp = Timestamp { secs: 1_700_000_000, nanos: 0, offset_secs: 0 };

fn two_tasks() -> TaskTable {
    let mut table = TaskTable::new();
    create_task(&mut table, 7, request(Some("buy milk"), None, Some("low"))).unwrap();
    create_task(&mut table, 7, request(Some("buy bread"), None, Some("high"))).unwrap();
    table
}

#[test]
fn create_assigns_id_and_owner() {
    let mut table = TaskTable::new();
    let r = create_task(&mut table, 42, request(Some("write"), Some("notes"), None)).unwrap();
    assert_eq!(r.id, Some(1));
    assert_eq!(r.title, "write");
    assert_eq!(r.description, Some("notes".to_owned()));
    assert_eq!(r.priority, None);
    assert_eq!(r.deleted_at, None);
    assert_eq!(r.user_id, Some(42));
    let r2 = create_task(&mut table, 42, request(Some("second"), None, None)).unwrap();
    assert_eq!(r2.id, Some(2));
}

#[test]
fn create_without_title_is_bad_request() {
    let mut table = TaskTable::new();
    let err = create_task(&mut table, 1, request(None, Some("x"), None)).unwrap_err();
    assert_eq!(err.code, StatusCode::BadRequest);
    assert_eq!(err.message, "Title is required.");
    assert!(table.rows.is_empty());
}

#[test]
fn list_filters_by_title_and_priority_and_hides_soft_deleted() {
    let mut table = two_tasks();
    assert_eq!(ids(&table, &query(Some("buy"), None)), vec![Some(1), Some(2)]);
    assert_eq!(ids(&table, &query(None, Some("low"))), vec![Some(1)]);
    delete_task(&mut table, 1, DeleteParams { soft: Some(true) }, NOW).unwrap();
    assert_eq!(ids(&table, &query(Some("buy"), None)), vec![Some(2)]);
    assert_eq!(ids(&table, &query(None, Some("low"))), Vec::<Option<i32>>::new());
}

#[test]
fn empty_filters_ask_for_missing_fields() {
    let mut table = two_tasks();
    create_task(&mut table, 7, request(Some("no priority"), None, None)).unwrap();
    assert_eq!(ids(&table, &query(None, Some(""))), vec![Some(3)]);
    assert_eq!(ids(&table, &query(Some(""), None)), Vec::<Option<i32>>::new());
    assert_eq!(ids(&table, &query(None, None)), vec![Some(1), Some(2), Some(3)]);
    assert_eq!(ids(&table, &query(Some("bread"), Some("high"))), vec![Some(2)]);
    assert_eq!(ids(&table, &query(Some("bread"), Some("low"))), Vec::<Option<i32>>::new());
}

#[test]
fn partial_update_description_sentinel() {
    let mut table = TaskTable::new();
    create_task(&mut table, 1, request(Some("t"), Some("old"), Some("low"))).unwrap();
    partial_task_update(&mut table, 1, request(None, None, None)).unwrap();
    assert_eq!(get_task(&table, 1).unwrap().description, Some("old".to_owned()));
    partial_task_update(&mut table, 1, request(None, Some("x"), None)).unwrap();
    assert_eq!(get_task(&table, 1).unwrap().description, Some("x".to_owned()));
    partial_task_update(&mut table, 1, request(None, Some(""), None)).unwrap();
    let t = get_task(&table, 1).unwrap();
    assert_eq!(t.description, None);
    assert_eq!(t.priority, Some("low".to_owned()));
    assert_eq!(t.title, "t");
}

#[test]
fn partial_update_priority_and_title() {
    let mut table = TaskTable::new();
    create_task(&mut table, 1, request(Some("t"), None, Some("low"))).unwrap();
    partial_task_update(&mut table, 1, request(Some("renamed"), None, Some(""))).unwrap();
    let t = get_task(&table, 1).unwrap();
    assert_eq!(t.priority, None);
    assert_eq!(t.title, "renamed");
}

#[test]
fn partial_update_of_missing_task_is_not_found() {
    let mut table = TaskTable::new();
    let err = partial_task_update(&mut table, 9, request(None, Some("x"), None)).unwrap_err();
    assert_eq!(err.code, StatusCode::NotFound);
}

#[test]
fn full_update_replaces_every_field() {
    let mut table = TaskTable::new();
    create_task(&mut table, 1, request(Some("t"), Some("d"), Some("low"))).unwrap();
    let mut req = request(Some("new"), None, None);
    req.user_id = Some(5);
    atomic_task_update(&mut table, 1, req).unwrap();
    let t = get_task(&table, 1).unwrap();
    assert_eq!(t.title, "new");
    assert_eq!(t.description, None);
    assert_eq!(t.priority, None);
    assert_eq!(t.user_id, Some(5));
}

#[test]
fn full_update_can_mark_deleted() {
    let mut table = TaskTable::new();
    create_task(&mut table, 1, request(Some("t"), None, None)).unwrap();
    let mut req = request(Some("t"), None, None);
    req.deleted_at = Some(NOW);
    atomic_task_update(&mut table, 1, req).unwrap();
    assert_eq!(get_task(&table, 1).unwrap_err().code, StatusCode::NotFound);
}

#[test]
fn full_update_without_title_is_bad_request() {
    let mut table = TaskTable::new();
    create_task(&mut table, 1, request(Some("t"), None, None)).unwrap();
    let err = atomic_task_update(&mut table, 1, request(None, Some("d"), None)).unwrap_err();
    assert_eq!(err.code, StatusCode::BadRequest);
    assert_eq!(get_task(&table, 1).unwrap().title, "t");
}

#[test]
fn full_update_of_missing_task_changes_nothing() {
    let mut table = TaskTable::new();
    assert!(atomic_task_update(&mut table, 3, request(Some("t"), None, None)).is_ok());
    assert!(table.rows.is_empty());
}

#[test]
fn soft_delete_keeps_row_for_deleted_lookup() {
    let mut table = two_tasks();
    delete_task(&mut table, 1, DeleteParams { soft: Some(true) }, NOW).unwrap();
    assert_eq!(get_task(&table, 1).unwrap_err().code, StatusCode::NotFound);
    let t = get_task_with_deleted(&table, 1).unwrap();
    assert_eq!(t.deleted_at, Some(NOW));
}

#[test]
fn hard_delete_removes_row_and_repeats_without_error() {
    let mut table = two_tasks();
    assert!(delete_task(&mut table, 1, DeleteParams { soft: None }, NOW).is_ok());
    assert_eq!(get_task_with_deleted(&table, 1).unwrap_err().code, StatusCode::NotFound);
    assert!(delete_task(&mut table, 1, DeleteParams { soft: Some(false) }, NOW).is_ok());
    assert_eq!(table.rows.len(), 1);
    assert_eq!(get_task(&table, 2).unwrap().title, "buy bread");
}

#[test]
fn soft_delete_of_missing_task_is_not_found() {
    let mut table = TaskTable::new();
    let err = delete_task(&mut table, 4, DeleteParams { soft: Some(true) }, NOW).unwrap_err();
    assert_eq!(err.code, StatusCode::NotFound);
}

#[test]
fn substring_search() {
    assert!(contains_text("buy milk", "buy"));
    assert!(contains_text("buy milk", "milk"));
    assert!(contains_text("buy milk", ""));
    assert!(!contains_text("buy milk", "bread"));
    assert!(!contains_text("bu", "buy"));
    assert!(contains_text("ünïcode", "nïc"));
}

fn stored(id: i32, title: &str) -> axum_db::task::Task {
    axum_db::task::Task {
        id,
        title: title.to_owned(),
        description: None,
        priority: None,
        completed_at: None,
        deleted_at: None,
        user_id: None,
        is_default: None,
    }
}

#[test]
fn table_from_stored_rows() {
    let mut table = TaskTable::from_rows(vec![stored(4, "a"), stored(2, "b")]).unwrap();
    assert_eq!(table.next_id, 5);
    let r = create_task(&mut table, 1, request(Some("c"), None, None)).unwrap();
    assert_eq!(r.id, Some(5));
    assert!(TaskTable::from_rows(vec![stored(1, "a"), stored(1, "b")]).is_none());
    assert!(TaskTable::from_rows(vec![stored(0, "a")]).is_none());
    assert!(TaskTable::from_rows(vec![stored(i32::MAX, "a")]).is_none());
    assert_eq!(TaskTable::from_rows(Vec::new()).unwrap().next_id, 1);
}
