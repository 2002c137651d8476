use flashback::error::AppError;
use flashback::memory::MemoryRow;
use flashback::state::{apply_todo_op, find_mut, StateKind, TodoItem, TodoList, TodoOp};
use flashback::state_routes::{
    check_create, create_state, fetch_terminal, patch_state, replace_state, state_history,
    to_state_view, CreateRequest, PatchRequest, ReplaceRequest, StateRow,
};
use flashback::time::Timestamp;

fn item(id: &str, text: &str, done: bool) -> TodoItem {
    TodoItem {
        id: id.to_string(),
        text: text.to_string(),
        done,
    }
}

fn list() -> TodoList {
    TodoList {
        items: vec![
            item("a", "one", false),
            item("b", "two", true),
            item("c", "three", false),
        ],
    }
}

fn ids(l: &TodoList) -> Vec<&str> {
    l.items.iter().map(|i| i.id.as_str()).collect()
}

fn on(id: &str) -> String {
    id.to_string()
}

fn row() -> StateRow {
    StateRow {
        id: 4,
        user_id: "alice".to_string(),
        project_id: Some("p".to_string()),
        session_id: None,
        importance: 0.5_f32.to_bits(),
        state_key: Some("today".to_string()),
        state_data: Some(Ok(list())),
        supersedes: None,
        created_at: Timestamp::new(0, 0).unwrap(),
    }
}

fn create(key: &str, initial: Option<Result<TodoList, String>>) -> CreateRequest {
    CreateRequest {
        project_id: None,
        session_id: None,
        state_key: key.to_string(),
        initial,
        importance: None,
    }
}

#[test]
fn kinds_have_names() {
    assert_eq!(StateKind::parse("todo_list").unwrap().as_str(), "todo_list");
    assert!(matches!(
        StateKind::parse("x"),
        Err(AppError::BadRequest(m)) if m == "unknown state_kind: x"
    ));
}

#[test]
fn adding_trims_and_numbers() {
    let l = apply_todo_op(
        list(),
        TodoOp::Add {
            text: " buy milk ".to_string(),
        },
    )
    .unwrap();
    assert_eq!(l.items[3].text, "buy milk");
    assert_eq!(l.items[3].id.len(), 36);
    assert_eq!(&l.items[3].id[14..15], "4");
    assert!(matches!(
        apply_todo_op(list(), TodoOp::Add { text: " ".to_string() }),
        Err(AppError::BadRequest(m)) if m == "add: text cannot be empty"
    ));
}

#[test]
fn marking_and_toggling() {
    let l = apply_todo_op(list(), TodoOp::MarkDone { item_id: on("a") }).unwrap();
    assert!(l.items[0].done);
    let l = apply_todo_op(l, TodoOp::Unmark { item_id: on("b") }).unwrap();
    assert!(!l.items[1].done);
    let l = apply_todo_op(l, TodoOp::Toggle { item_id: on("c") }).unwrap();
    assert!(l.items[2].done);
    let l = apply_todo_op(l, TodoOp::Toggle { item_id: on("c") }).unwrap();
    assert!(!l.items[2].done);
    assert!(matches!(
        apply_todo_op(l, TodoOp::Toggle { item_id: on("z") }),
        Err(AppError::NotFound(m)) if m == "item z"
    ));
}

#[test]
fn removing_updating_clearing() {
    let l = apply_todo_op(list(), TodoOp::Remove { item_id: on("b") }).unwrap();
    assert_eq!(ids(&l), vec!["a", "c"]);
    assert!(apply_todo_op(l.clone(), TodoOp::Remove { item_id: on("b") }).is_err());
    let l = apply_todo_op(
        l,
        TodoOp::Update {
            item_id: on("c"),
            text: " new ".to_string(),
        },
    )
    .unwrap();
    assert_eq!(l.items[1].text, "new");
    assert!(matches!(
        apply_todo_op(
            l.clone(),
            TodoOp::Update {
                item_id: on("c"),
                text: "".to_string()
            }
        ),
        Err(AppError::BadRequest(m)) if m == "update: text cannot be empty"
    ));
    assert!(apply_todo_op(l, TodoOp::Clear).unwrap().items.is_empty());
}

#[test]
fn reordering_is_a_permutation() {
    let op = |v: &[&str]| TodoOp::Reorder {
        ids: v.iter().map(|s| s.to_string()).collect(),
    };
    let l = apply_todo_op(list(), op(&["c", "a", "b"])).unwrap();
    assert_eq!(ids(&l), vec!["c", "a", "b"]);
    assert_eq!(l.items[0].text, "three");
    assert!(matches!(
        apply_todo_op(list(), op(&["a", "b"])),
        Err(AppError::BadRequest(m)) if m == "reorder: ids must cover every item exactly once"
    ));
    assert!(matches!(
        apply_todo_op(list(), op(&["a", "a", "b"])),
        Err(AppError::NotFound(m)) if m == "item a"
    ));
    let twice = TodoList {
        items: vec![
            item("a", "one", false),
            item("b", "two", false),
            item("a", "three", true),
        ],
    };
    let l = apply_todo_op(twice, op(&["b", "a", "a"])).unwrap();
    assert_eq!(ids(&l), vec!["b", "a", "a"]);
    assert_eq!(l.items[1].text, "one");
    assert_eq!(l.items[2].text, "three");
}

#[test]
fn replacing_fills_ids() {
    let l = apply_todo_op(
        list(),
        TodoOp::Replace {
            items: vec![item("", "x", true), item("k", "y", false)],
        },
    )
    .unwrap();
    assert_eq!(l.items[0].id.len(), 36);
    assert_eq!(l.items[1].id, "k");
    let mut l = TodoList {
        items: vec![item("", "x", false), item("", "y", false)],
    };
    l.assign_missing_ids();
    assert!(l.items[0].id != l.items[1].id);
    let mut v = list().items;
    find_mut(&mut v, "b").unwrap().done = false;
    assert!(!v[1].done);
    assert!(find_mut(&mut v, "q").is_err());
}

#[test]
fn rendering_is_deterministic() {
    let k = StateKind::TodoList;
    assert_eq!(
        k.render(&Ok(list()), "today"),
        "Todo list \"today\":\n  [ ] one\n  [x] two\n  [ ] three"
    );
    assert_eq!(
        k.render(&Ok(k.empty()), "today"),
        "Todo list \"today\" is empty."
    );
    assert_eq!(
        k.render(&Err("bad".to_string()), "k"),
        "Todo list \"k\" is empty."
    );
    assert!(matches!(
        k.apply(Err("e".to_string()), Ok(TodoOp::Clear)),
        Err(AppError::BadRequest(m)) if m == "corrupt todo_list state: e"
    ));
    assert!(matches!(
        k.apply(Ok(list()), Err("e".to_string())),
        Err(AppError::BadRequest(m)) if m == "invalid todo op: e"
    ));
    assert!(matches!(
        k.validate_initial(Err("e".to_string())),
        Err(AppError::BadRequest(m)) if m == "invalid todo_list: e"
    ));
}

#[test]
fn objects_are_created_once() {
    assert!(check_create("todo_list", "k").is_ok());
    assert!(check_create("x", "k").is_err());
    assert!(check_create("todo_list", " ").is_err());
    let k = StateKind::TodoList;
    let n = create_state(k, create("today", None), None).unwrap();
    assert!(n.data.items.is_empty() && n.supersedes.is_none());
    assert_eq!(n.importance, 0.8_f32.to_bits());
    assert_eq!(n.rendered, "Todo list \"today\" is empty.");
    assert!(matches!(
        create_state(k, create("today", None), Some(1)),
        Err(AppError::Conflict(m))
            if m == "state object todo_list/today already exists (00000000-0000-0000-0000-000000000001)"
    ));
    let first = TodoList {
        items: vec![item("", "first", false)],
    };
    let n = create_state(k, create("today", Some(Ok(first))), None).unwrap();
    assert_eq!(n.data.items.len(), 1);
    assert!(!n.data.items[0].id.is_empty());
    assert!(create_state(k, create("", None), None).is_err());
}

#[test]
fn changes_supersede_the_current_node() {
    let k = StateKind::TodoList;
    let n = patch_state(
        k,
        "today",
        row(),
        PatchRequest {
            project_id: None,
            session_id: Some("s".to_string()),
            op: Ok(TodoOp::Remove { item_id: on("a") }),
        },
    )
    .unwrap();
    assert_eq!(n.supersedes, Some(4));
    assert_eq!(n.project_id.as_deref(), Some("p"));
    assert_eq!(n.session_id.as_deref(), Some("s"));
    assert_eq!(ids(&n.data), vec!["b", "c"]);
    let mut r = row();
    r.state_data = None;
    assert!(matches!(
        patch_state(
            k,
            "today",
            r,
            PatchRequest {
                project_id: None,
                session_id: None,
                op: Ok(TodoOp::Clear)
            }
        ),
        Err(AppError::Internal(m)) if m == "state row missing state_data"
    ));
    let n = replace_state(
        k,
        "today",
        row(),
        ReplaceRequest {
            project_id: None,
            session_id: None,
            state_data: Ok(list()),
            importance: Some(2.0_f32.to_bits()),
        },
    )
    .unwrap();
    assert_eq!(n.importance, 1.0_f32.to_bits());
    assert_eq!(n.supersedes, Some(4));
}

#[test]
fn objects_are_shown_with_their_rendering() {
    let k = StateKind::TodoList;
    let v = to_state_view(k, row()).unwrap();
    assert_eq!(v.state_kind, "todo_list");
    assert!(v.rendered.starts_with("Todo list \"today\":"));
    let mut r = row();
    r.state_key = None;
    assert!(matches!(
        to_state_view(k, r),
        Err(AppError::Internal(m)) if m == "state row missing state_key"
    ));
    assert!(fetch_terminal(Some(row()), k, "today").is_ok());
    assert!(matches!(
        fetch_terminal(None, k, "nope"),
        Err(AppError::NotFound(m)) if m == "state object todo_list/nope"
    ));
    let chain: Vec<MemoryRow> = vec![];
    assert!(matches!(
        state_history(k, "nope", chain),
        Err(AppError::NotFound(m)) if m == "state object todo_list/nope"
    ));
}
