//! State objects as they are stored: each change is a new node that supersedes
//! the last one.
use vstd::prelude::*;
use vstd::string::*;

use crate::bits::{clamp_unit, unit, FOUR_FIFTHS};
use crate::error::{AppError, ErrorView};
use crate::ids::{id_text, is_random_id, random_id, write_id};
use crate::memory::{terminal, terminal_of, MemoryRow};
use crate::state::{
    all_fresh, applied, has_item, ids_needed, item_ids, law_remove_removes, law_reorder_permutes,
    lemma_place_of, place_of, stored_items, todo_text, with_ids, ItemView, OpView, StateKind,
    TodoList, TodoOp,
};
use crate::text::{blank, clone_text, is_blank, opt_text};
use crate::time::Timestamp;

verus! {

/// A state object to create. `initial` is its value as it was read, or what was
/// wrong with it; `importance` holds the bits of a number.
#[derive(Debug)]
pub struct CreateRequest {
    pub project_id: Option<String>,
    pub session_id: Option<String>,
    pub state_key: String,
    pub initial: Option<Result<TodoList, String>>,
    pub importance: Option<u32>,
}

/// An operation on a state object, as it was read.
#[derive(Debug)]
pub struct PatchRequest {
    pub project_id: Option<String>,
    pub session_id: Option<String>,
    pub op: Result<TodoOp, String>,
}

/// A new value for a state object, as it was read.
#[derive(Debug)]
pub struct ReplaceRequest {
    pub project_id: Option<String>,
    pub session_id: Option<String>,
    pub state_data: Result<TodoList, String>,
    pub importance: Option<u32>,
}

/// A node of a state object, as it is stored.
#[derive(Debug)]
pub struct StateRow {
    pub id: u128,
    pub user_id: String,
    pub project_id: Option<String>,
    pub session_id: Option<String>,
    pub importance: u32,
    pub state_key: Option<String>,
    pub state_data: Option<Result<TodoList, String>>,
    pub supersedes: Option<u128>,
    pub created_at: Timestamp,
}

/// A state object, as it is shown.
#[derive(Debug)]
pub struct StateView {
    pub id: u128,
    pub state_kind: &'static str,
    pub state_key: String,
    pub user_id: String,
    pub project_id: Option<String>,
    pub session_id: Option<String>,
    pub state_data: Result<TodoList, String>,
    pub rendered: String,
    pub supersedes: Option<u128>,
    pub created_at: Timestamp,
}

/// A node to store.
#[derive(Debug, Clone)]
pub struct NewState {
    pub id: u128,
    pub data: TodoList,
    pub rendered: String,
    pub importance: u32,
    pub project_id: Option<String>,
    pub session_id: Option<String>,
    pub supersedes: Option<u128>,
}

/// The name of a state object.
pub open spec fn object_name(kind: StateKind, key: Seq<char>) -> Seq<char> {
    kind.name() + "/"@ + key
}

/// The answer for a state object that is not there.
pub open spec fn no_state(kind: StateKind, key: Seq<char>) -> ErrorView {
    ErrorView::NotFound("state object "@ + object_name(kind, key))
}

/// What wrongs a new state object before its value is looked at.
pub open spec fn create_fault(key: Seq<char>, kind: StateKind, existing: Option<u128>) -> Option<
    ErrorView,
> {
    if blank(key) {
        Some(ErrorView::BadRequest("state_key cannot be empty"@))
    } else {
        match existing {
            Some(id) => Some(
                ErrorView::Conflict(
                    "state object "@ + object_name(kind, key) + " already exists ("@ + id_text(id)
                        + ")"@,
                ),
            ),
            None => None,
        }
    }
}

fn name_of(kind: StateKind, key: &str) -> (r: String)
    ensures
        r@ == "state object "@ + object_name(kind, key@),
{
    let mut out = String::from_str("state object ");
    out.append(kind.as_str());
    out.append("/");
    out.append(key);
    assert(out@ =~= "state object "@ + object_name(kind, key@));
    out
}

/// The kind of a new state object, where its name and key are in order. Whether
/// it exists already is asked only then.
pub fn check_create(kind_str: &str, state_key: &str) -> (r: Result<StateKind, AppError>)
    ensures
        match r {
            Ok(kind) => kind_str@ == "todo_list"@ && kind == StateKind::TodoList && !blank(
                state_key@,
            ),
            Err(e) => if kind_str@ != "todo_list"@ {
                e@ == ErrorView::BadRequest("unknown state_kind: "@ + kind_str@)
            } else {
                blank(state_key@) && e@ == ErrorView::BadRequest("state_key cannot be empty"@)
            },
        },
{
    match StateKind::parse(kind_str) {
        Ok(kind) => {
            if is_blank(state_key) {
                return Err(AppError::bad_request("state_key cannot be empty"));
            }
            Ok(kind)
        },
        Err(e) => Err(e),
    }
}

/// What a node renders to, and its importance.
pub open spec fn stored_as(
    n: NewState,
    kind: StateKind,
    key: Seq<char>,
    importance: Option<u32>,
) -> bool {
    &&& is_random_id(n.id)
    &&& n.rendered@ == todo_text(n.data@, key)
    &&& n.importance == unit(
        match importance {
            Some(i) => i,
            None => FOUR_FIFTHS,
        },
    )
}

/// The node to store for a value.
fn insert_state(
    kind: StateKind,
    key: &str,
    project_id: Option<String>,
    session_id: Option<String>,
    data: TodoList,
    importance: Option<u32>,
    supersedes: Option<u128>,
) -> (r: NewState)
    ensures
        stored_as(r, kind, key@, importance),
        r.data@ == data@,
        opt_text(r.project_id) == opt_text(project_id),
        opt_text(r.session_id) == opt_text(session_id),
        r.supersedes == supersedes,
{
    let rendered = crate::state::render_todo_list(&data, key);
    let importance = clamp_unit(
        match importance {
            Some(i) => i,
            None => FOUR_FIFTHS,
        },
    );
    NewState { id: random_id(), data, rendered, importance, project_id, session_id, supersedes }
}

/// The first node of a state object, where its key is not taken: the given
/// value, with ids where they are missing, or the empty one.
pub fn create_state(kind: StateKind, req: CreateRequest, existing: Option<u128>) -> (r: Result<
    NewState,
    AppError,
>)
    ensures
        match create_fault(req.state_key@, kind, existing) {
            Some(fault) => r matches Err(e) && e@ == fault,
            None => match (req.initial, r) {
                (Some(Err(fault)), _) => r matches Err(e) && e@ == ErrorView::BadRequest(
                    "invalid todo_list: "@ + fault@,
                ),
                (Some(Ok(list)), Ok(n)) => {
                    &&& stored_as(n, kind, req.state_key@, req.importance)
                    &&& opt_text(n.project_id) == opt_text(req.project_id)
                    &&& opt_text(n.session_id) == opt_text(req.session_id)
                    &&& n.supersedes is None
                    &&& exists|fresh: Seq<Seq<char>>|
                        fresh.len() == list@.len() && all_fresh(fresh) && n.data@ == with_ids(
                            list@,
                            fresh,
                        )
                },
                (None, Ok(n)) => {
                    &&& stored_as(n, kind, req.state_key@, req.importance)
                    &&& opt_text(n.project_id) == opt_text(req.project_id)
                    &&& opt_text(n.session_id) == opt_text(req.session_id)
                    &&& n.supersedes is None
                    &&& n.data@ == Seq::<ItemView>::empty()
                },
                _ => false,
            },
        },
        r matches Ok(n) ==> (req.initial matches Some(Ok(list)) ==> kept_as(list@, n.data@)),
        r matches Ok(n) ==> (req.initial is None ==> kept_as(Seq::empty(), n.data@)),
{
    proof {
        let none = Seq::<ItemView>::empty();
        assert(with_ids(none, Seq::empty()) =~= none);
        assert(kept_as(none, none));
    }
    if is_blank(req.state_key.as_str()) {
        return Err(AppError::bad_request("state_key cannot be empty"));
    }
    if let Some(id) = existing {
        let mut message = name_of(kind, req.state_key.as_str());
        message.append(" already exists (");
        message.append(write_id(id).as_str());
        message.append(")");
        return Err(AppError::Conflict(message));
    }
    let data = match req.initial {
        Some(v) => match kind.validate_initial(v) {
            Ok(list) => list,
            Err(e) => {
                return Err(e);
            },
        },
        None => kind.empty(),
    };
    Ok(
        insert_state(
            kind,
            req.state_key.as_str(),
            req.project_id,
            req.session_id,
            data,
            req.importance,
            None,
        ),
    )
}

/// The node that was read, or the answer that there is none.
pub fn fetch_terminal(row: Option<StateRow>, kind: StateKind, key: &str) -> (r: Result<
    StateRow,
    AppError,
>)
    ensures
        match r {
            Ok(x) => row == Some(x),
            Err(e) => row is None && e@ == no_state(kind, key@),
        },
{
    match row {
        Some(x) => Ok(x),
        None => Err(AppError::NotFound(name_of(kind, key))),
    }
}

/// The scope of a change: its own, else that of the current node.
pub open spec fn scope_or(asked: Option<Seq<char>>, current: Option<Seq<char>>) -> Option<
    Seq<char>,
> {
    if asked is Some {
        asked
    } else {
        current
    }
}

fn or_current(asked: Option<String>, current: &Option<String>) -> (r: Option<String>)
    ensures
        opt_text(r) == scope_or(opt_text(asked), opt_text(*current)),
{
    match asked {
        Some(s) => Some(s),
        None => clone_text(current),
    }
}

/// A node that follows another: in its scope, and superseding it.
pub open spec fn follows(
    n: NewState,
    current: StateRow,
    project_id: Option<String>,
    session_id: Option<String>,
) -> bool {
    &&& opt_text(n.project_id) == scope_or(opt_text(project_id), opt_text(current.project_id))
    &&& opt_text(n.session_id) == scope_or(opt_text(session_id), opt_text(current.session_id))
    &&& n.supersedes == Some(current.id)
}

/// Whether an operation makes this of a list.
pub open spec fn changed_by(items: Seq<ItemView>, op: OpView, after: Seq<ItemView>) -> bool {
    exists|fresh: Seq<Seq<char>>|
        #![trigger applied(items, op, fresh)]
        fresh.len() == ids_needed(op) && all_fresh(fresh) && applied(items, op, fresh) == Ok::<
            Seq<ItemView>,
            ErrorView,
        >(after)
}

/// Whether a list is stored as this one: with fresh ids where it has none.
pub open spec fn kept_as(items: Seq<ItemView>, after: Seq<ItemView>) -> bool {
    exists|fresh: Seq<Seq<char>>|
        fresh.len() == items.len() && all_fresh(fresh) && after == #[trigger] with_ids(items, fresh)
}

/// The node after an operation on the current one.
pub fn patch_state(kind: StateKind, key: &str, current: StateRow, req: PatchRequest) -> (r: Result<
    NewState,
    AppError,
>)
    ensures
        match current.state_data {
            None => r matches Err(e) && e@ == ErrorView::Internal("state row missing state_data"@),
            Some(Err(fault)) => r matches Err(e) && e@ == ErrorView::BadRequest(
                "corrupt todo_list state: "@ + fault@,
            ),
            Some(Ok(list)) => match req.op {
                Err(fault) => r matches Err(e) && e@ == ErrorView::BadRequest(
                    "invalid todo op: "@ + fault@,
                ),
                Ok(op) => exists|fresh: Seq<Seq<char>>|
                    #![trigger applied(list@, op@, fresh)]
                    fresh.len() == ids_needed(op@) && all_fresh(fresh) && match (
                        r,
                        applied(list@, op@, fresh),
                    ) {
                        (Ok(n), Ok(items)) => {
                            &&& n.data@ == items
                            &&& stored_as(n, kind, key@, Some(current.importance))
                            &&& follows(n, current, req.project_id, req.session_id)
                        },
                        (Err(e), Err(fault)) => e@ == fault,
                        _ => false,
                    },
            },
        },
        r matches Ok(n) ==> (current.state_data matches Some(Ok(list)) && (req.op matches Ok(op)
            && changed_by(list@, op@, n.data@))),
{
    let data = match current.state_data {
        Some(d) => d,
        None => {
            return Err(AppError::Internal("state row missing state_data".to_owned()));
        },
    };
    match kind.apply(data, req.op) {
        Ok(list) => {
            let project_id = or_current(req.project_id, &current.project_id);
            let session_id = or_current(req.session_id, &current.session_id);
            Ok(
                insert_state(
                    kind,
                    key,
                    project_id,
                    session_id,
                    list,
                    Some(current.importance),
                    Some(current.id),
                ),
            )
        },
        Err(e) => Err(e),
    }
}

/// The node that replaces the current one.
pub fn replace_state(kind: StateKind, key: &str, current: StateRow, req: ReplaceRequest) -> (r:
    Result<NewState, AppError>)
    ensures
        match req.state_data {
            Err(fault) => r matches Err(e) && e@ == ErrorView::BadRequest(
                "invalid todo_list: "@ + fault@,
            ),
            Ok(list) => r matches Ok(n) && {
                &&& exists|fresh: Seq<Seq<char>>|
                    fresh.len() == list@.len() && all_fresh(fresh) && n.data@ == with_ids(
                        list@,
                        fresh,
                    )
                &&& stored_as(
                    n,
                    kind,
                    key@,
                    Some(
                        match req.importance {
                            Some(i) => i,
                            None => current.importance,
                        },
                    ),
                )
                &&& follows(n, current, req.project_id, req.session_id)
            },
        },
        r matches Ok(n) ==> (req.state_data matches Ok(list) && kept_as(list@, n.data@)),
{
    match kind.validate_initial(req.state_data) {
        Ok(list) => {
            let project_id = or_current(req.project_id, &current.project_id);
            let session_id = or_current(req.session_id, &current.session_id);
            let importance = match req.importance {
                Some(i) => Some(i),
                None => Some(current.importance),
            };
            Ok(
                insert_state(
                    kind,
                    key,
                    project_id,
                    session_id,
                    list,
                    importance,
                    Some(current.id),
                ),
            )
        },
        Err(e) => Err(e),
    }
}

/// The history of a state object: its nodes, oldest first, and the current one.
#[derive(Debug, Clone)]
pub struct StateHistory {
    pub state_kind: &'static str,
    pub state_key: String,
    pub terminal: Option<u128>,
    pub length: usize,
    pub chain: Vec<MemoryRow>,
}

/// The history of a state object.
pub fn state_history(kind: StateKind, key: &str, rows: Vec<MemoryRow>) -> (r: Result<
    StateHistory,
    AppError,
>)
    ensures
        match r {
            Ok(h) => {
                &&& rows@.len() > 0
                &&& h.state_kind@ == kind.name()
                &&& h.state_key@ == key@
                &&& h.terminal == terminal_of(rows@)
                &&& h.length == rows@.len()
                &&& h.chain@ == rows@
            },
            Err(e) => rows@.len() == 0 && e@ == no_state(kind, key@),
        },
{
    if rows.len() == 0 {
        return Err(AppError::NotFound(name_of(kind, key)));
    }
    Ok(
        StateHistory {
            state_kind: kind.as_str(),
            state_key: key.to_owned(),
            terminal: terminal(&rows),
            length: rows.len(),
            chain: rows,
        },
    )
}

/// Whether this is how a stored node is shown.
pub open spec fn shows_state(kind: StateKind, row: StateRow, v: StateView) -> bool {
    &&& row.state_data == Some(v.state_data)
    &&& row.state_key == Some(v.state_key)
    &&& v.rendered@ == todo_text(stored_items(v.state_data), v.state_key@)
    &&& v.state_kind@ == kind.name()
    &&& v.id == row.id
    &&& v.user_id == row.user_id
    &&& v.project_id == row.project_id
    &&& v.session_id == row.session_id
    &&& v.supersedes == row.supersedes
    &&& v.created_at == row.created_at
}

/// A stored node as it is shown: with its value and its rendering.
pub fn to_state_view(kind: StateKind, row: StateRow) -> (r: Result<StateView, AppError>)
    ensures
        match r {
            Ok(v) => {
                &&& row.state_data == Some(v.state_data)
                &&& row.state_key == Some(v.state_key)
                &&& v.rendered@ == todo_text(stored_items(v.state_data), v.state_key@)
                &&& v.state_kind@ == kind.name()
                &&& v.id == row.id
                &&& v.user_id == row.user_id
                &&& v.project_id == row.project_id
                &&& v.session_id == row.session_id
                &&& v.supersedes == row.supersedes
                &&& v.created_at == row.created_at
            },
            Err(e) => if row.state_data is None {
                e@ == ErrorView::Internal("state row missing state_data"@)
            } else {
                row.state_key is None && e@ == ErrorView::Internal("state row missing state_key"@)
            },
        },
        r matches Ok(v) ==> shows_state(kind, row, v),
{
    let data = match row.state_data {
        Some(d) => d,
        None => {
            return Err(AppError::Internal("state row missing state_data".to_owned()));
        },
    };
    let key = match row.state_key {
        Some(k) => k,
        None => {
            return Err(AppError::Internal("state row missing state_key".to_owned()));
        },
    };
    let rendered = kind.render(&data, key.as_str());
    Ok(
        StateView {
            id: row.id,
            state_kind: kind.as_str(),
            state_key: key,
            user_id: row.user_id,
            project_id: row.project_id,
            session_id: row.session_id,
            state_data: data,
            rendered,
            supersedes: row.supersedes,
            created_at: row.created_at,
        },
    )
}

// ---------------------------------------------------------------------------
// Laws
// ---------------------------------------------------------------------------
/// An object can be made exactly where it has a key and there is none of that key;
/// one that is there is told of as a conflict.
pub proof fn law_objects_are_made_once(key: Seq<char>, kind: StateKind, id: u128)
    ensures
        create_fault(key, kind, None) is None <==> !blank(key),
        !blank(key) ==> (create_fault(key, kind, Some(id)) matches Some(e) && e is Conflict),
        blank(key) ==> (create_fault(key, kind, Some(id)) matches Some(e) && e is BadRequest),
{
}

/// A change never touches what is stored: what follows an object points back at
/// it, stays in its project and its session unless another is named, and holds
/// what its own text renders, as important as it was told to be or else four fifths.
pub proof fn law_changes_follow_what_was(
    n: NewState,
    current: StateRow,
    project_id: Option<String>,
    session_id: Option<String>,
    kind: StateKind,
    key: Seq<char>,
    importance: Option<u32>,
)
    ensures
        follows(n, current, project_id, session_id) ==> {
            &&& n.supersedes == Some(current.id)
            &&& project_id is None ==> opt_text(n.project_id) == opt_text(current.project_id)
            &&& project_id is Some ==> opt_text(n.project_id) == opt_text(project_id)
            &&& session_id is None ==> opt_text(n.session_id) == opt_text(current.session_id)
            &&& session_id is Some ==> opt_text(n.session_id) == opt_text(session_id)
        },
        stored_as(n, kind, key, importance) ==> {
            &&& n.rendered@ == todo_text(n.data@, key)
            &&& importance matches Some(i) ==> n.importance == unit(i)
            &&& importance is None ==> n.importance == 0x3f4c_cccd
        },
{
}

/// A state object is shown as it is stored, and its text is that of its value; a
/// value that could not be read is shown as empty.
pub proof fn law_state_is_shown_as_stored(kind: StateKind, row: StateRow, v: StateView)
    requires
        shows_state(kind, row, v),
    ensures
        v.id == row.id && v.user_id == row.user_id && v.supersedes == row.supersedes,
        v.project_id == row.project_id && v.session_id == row.session_id,
        v.created_at == row.created_at,
        row.state_key == Some(v.state_key) && row.state_data == Some(v.state_data),
        v.state_data matches Ok(list) ==> v.rendered@ == todo_text(list@, v.state_key@),
        v.state_data is Err ==> v.rendered@ == "Todo list \""@ + v.state_key@ + "\" is empty."@,
        v.state_kind@ == "todo_list"@,
{
}

/// What follows an object is what the operation makes of it: one more open item
/// where one is added, none of the id where one is removed, nothing where all is
/// cleared, and else as many items as before.
pub proof fn law_changes_are_the_operations_own(
    items: Seq<ItemView>,
    op: OpView,
    after: Seq<ItemView>,
)
    requires
        changed_by(items, op, after),
    ensures
        op matches OpView::Add { text } ==> {
            &&& after.len() == items.len() + 1
            &&& after.drop_last() == items
            &&& after.last().text == crate::text::trimmed(text)
            &&& !after.last().done
        },
        op matches OpView::Remove { item_id } ==> !has_item(after, item_id)
            && has_item(items, item_id),
        op is Clear ==> after.len() == 0,
        op is MarkDone || op is Unmark || op is Toggle || op is Update || op is Reorder
            ==> after.len() == items.len(),
        op matches OpView::MarkDone { item_id } ==> exists|i: int|
            0 <= i < after.len() && (#[trigger] after[i]).id == item_id && after[i].done,
        op matches OpView::Unmark { item_id } ==> exists|i: int|
            0 <= i < after.len() && (#[trigger] after[i]).id == item_id && !after[i].done,
{
    let fresh = choose|fresh: Seq<Seq<char>>|
        #![trigger applied(items, op, fresh)]
        fresh.len() == ids_needed(op) && all_fresh(fresh) && applied(items, op, fresh) == Ok::<
            Seq<ItemView>,
            ErrorView,
        >(after);
    match op {
        OpView::Add { text } => {
            assert(after.drop_last() =~= items);
        },
        OpView::Remove { item_id } => {
            law_remove_removes(items, item_id, fresh);
        },
        OpView::MarkDone { item_id } => {
            lemma_place_of(items, item_id);
            let p = place_of(items, item_id);
            assert(after[p].id == item_id && after[p].done);
        },
        OpView::Unmark { item_id } => {
            lemma_place_of(items, item_id);
            let p = place_of(items, item_id);
            assert(after[p].id == item_id && !after[p].done);
        },
        OpView::Reorder { ids } => {
            law_reorder_permutes(items, ids);
            assert(item_ids(after).len() == after.len());
        },
        OpView::Toggle { item_id } => {
            lemma_place_of(items, item_id);
        },
        OpView::Update { item_id, text } => {
            lemma_place_of(items, item_id);
        },
        _ => {},
    }
}

/// A list is stored as it was given: every item with its text and whether it is
/// done, under its own id where it has one.
pub proof fn law_lists_are_stored_as_given(items: Seq<ItemView>, after: Seq<ItemView>)
    requires
        kept_as(items, after),
    ensures
        after.len() == items.len(),
        forall|i: int|
            0 <= i < after.len() ==> (#[trigger] after[i]).text == items[i].text && after[i].done
                == items[i].done && (items[i].id.len() > 0 ==> after[i].id == items[i].id),
{
}

} // verus!
