//! State objects: the reference half of memory. Each kind has a shape for its
//! data, a set of operations and a deterministic rendering.
use vstd::prelude::*;
use vstd::string::*;

use crate::error::{AppError, ErrorView};
use crate::ids::{is_fresh, lemma_fresh_is_not_empty, new_id};
use crate::text::{same_text, texts, trim, trim_end, trim_end_text, trimmed};

verus! {

/// What sort of state object it is.
#[derive(Debug, Clone, Copy, PartialEq, Eq, Structural)]
pub enum StateKind {
    TodoList,
}

/// One entry of a to-do list.
#[derive(Debug, Clone)]
pub struct TodoItem {
    pub id: String,
    pub text: String,
    pub done: bool,
}

/// A to-do list, in its order.
#[derive(Debug, Clone)]
pub struct TodoList {
    pub items: Vec<TodoItem>,
}

/// A [`TodoItem`] over character sequences.
pub struct ItemView {
    pub id: Seq<char>,
    pub text: Seq<char>,
    pub done: bool,
}

impl View for TodoItem {
    type V = ItemView;

    open spec fn view(&self) -> ItemView {
        ItemView { id: self.id@, text: self.text@, done: self.done }
    }
}

/// The items of a vector, each by its view.
pub open spec fn items_view(v: Seq<TodoItem>) -> Seq<ItemView> {
    v.map_values(|i: TodoItem| i@)
}

impl View for TodoList {
    type V = Seq<ItemView>;

    open spec fn view(&self) -> Seq<ItemView> {
        items_view(self.items@)
    }
}

/// A change to a to-do list.
#[derive(Debug, Clone)]
pub enum TodoOp {
    Add { text: String },
    MarkDone { item_id: String },
    Unmark { item_id: String },
    Toggle { item_id: String },
    Remove { item_id: String },
    Update { item_id: String, text: String },
    Reorder { ids: Vec<String> },
    Replace { items: Vec<TodoItem> },
    Clear,
}

/// A [`TodoOp`] over character sequences.
pub enum OpView {
    Add { text: Seq<char> },
    MarkDone { item_id: Seq<char> },
    Unmark { item_id: Seq<char> },
    Toggle { item_id: Seq<char> },
    Remove { item_id: Seq<char> },
    Update { item_id: Seq<char>, text: Seq<char> },
    Reorder { ids: Seq<Seq<char>> },
    Replace { items: Seq<ItemView> },
    Clear,
}

impl View for TodoOp {
    type V = OpView;

    open spec fn view(&self) -> OpView {
        match self {
            TodoOp::Add { text } => OpView::Add { text: text@ },
            TodoOp::MarkDone { item_id } => OpView::MarkDone { item_id: item_id@ },
            TodoOp::Unmark { item_id } => OpView::Unmark { item_id: item_id@ },
            TodoOp::Toggle { item_id } => OpView::Toggle { item_id: item_id@ },
            TodoOp::Remove { item_id } => OpView::Remove { item_id: item_id@ },
            TodoOp::Update { item_id, text } => OpView::Update { item_id: item_id@, text: text@ },
            TodoOp::Reorder { ids } => OpView::Reorder { ids: texts(ids@) },
            TodoOp::Replace { items } => OpView::Replace { items: items_view(items@) },
            TodoOp::Clear => OpView::Clear,
        }
    }
}

// ---------------------------------------------------------------------------
// What the operations mean
// ---------------------------------------------------------------------------
/// The place of the first item with this id; the length where none has it.
pub open spec fn place_of(items: Seq<ItemView>, id: Seq<char>) -> int
    decreases items.len(),
{
    if items.len() == 0 || items[0].id == id {
        0
    } else {
        1 + place_of(items.drop_first(), id)
    }
}

/// Whether some item has this id.
pub open spec fn has_item(items: Seq<ItemView>, id: Seq<char>) -> bool {
    exists|i: int| 0 <= i < items.len() && (#[trigger] items[i]).id == id
}

/// The answer for an id that no item has.
pub open spec fn no_such_item(id: Seq<char>) -> ErrorView {
    ErrorView::NotFound("item "@ + id)
}

/// `items` with the first item of this id replaced by what `f` makes of it.
pub open spec fn change_item(
    items: Seq<ItemView>,
    id: Seq<char>,
    f: spec_fn(ItemView) -> ItemView,
) -> Result<Seq<ItemView>, ErrorView> {
    let p = place_of(items, id);
    if p < items.len() {
        Ok(items.update(p, f(items[p])))
    } else {
        Err(no_such_item(id))
    }
}

/// The items in the order of `ids`: each id in turn takes the first item that
/// is left with that id.
pub open spec fn reordered(items: Seq<ItemView>, ids: Seq<Seq<char>>) -> Result<
    Seq<ItemView>,
    ErrorView,
>
    decreases ids.len(),
{
    if ids.len() == 0 {
        Ok(Seq::empty())
    } else {
        let p = place_of(items, ids[0]);
        if p < items.len() {
            match reordered(items.remove(p), ids.drop_first()) {
                Ok(rest) => Ok(seq![items[p]] + rest),
                Err(e) => Err(e),
            }
        } else {
            Err(no_such_item(ids[0]))
        }
    }
}

/// The items, each one without an id given the fresh id of its place.
pub open spec fn with_ids(items: Seq<ItemView>, fresh: Seq<Seq<char>>) -> Seq<ItemView> {
    Seq::new(
        items.len(),
        |i: int|
            if items[i].id.len() == 0 {
                ItemView { id: fresh[i], ..items[i] }
            } else {
                items[i]
            },
    )
}

/// How many fresh ids an operation may take.
pub open spec fn ids_needed(op: OpView) -> nat {
    match op {
        OpView::Add { .. } => 1,
        OpView::Replace { items } => items.len(),
        _ => 0,
    }
}

/// What an operation makes of a list, given the fresh ids that it may take.
pub open spec fn applied(items: Seq<ItemView>, op: OpView, fresh: Seq<Seq<char>>) -> Result<
    Seq<ItemView>,
    ErrorView,
> {
    match op {
        OpView::Add { text } => if trimmed(text).len() == 0 {
            Err(ErrorView::BadRequest("add: text cannot be empty"@))
        } else {
            Ok(items.push(ItemView { id: fresh[0], text: trimmed(text), done: false }))
        },
        OpView::MarkDone { item_id } => change_item(
            items,
            item_id,
            |i: ItemView| ItemView { done: true, ..i },
        ),
        OpView::Unmark { item_id } => change_item(
            items,
            item_id,
            |i: ItemView| ItemView { done: false, ..i },
        ),
        OpView::Toggle { item_id } => change_item(
            items,
            item_id,
            |i: ItemView| ItemView { done: !i.done, ..i },
        ),
        OpView::Remove { item_id } => if has_item(items, item_id) {
            Ok(items.filter(|i: ItemView| i.id != item_id))
        } else {
            Err(no_such_item(item_id))
        },
        OpView::Update { item_id, text } => if trimmed(text).len() == 0 {
            Err(ErrorView::BadRequest("update: text cannot be empty"@))
        } else {
            change_item(items, item_id, |i: ItemView| ItemView { text: trimmed(text), ..i })
        },
        OpView::Reorder { ids } => if ids.len() != items.len() {
            Err(ErrorView::BadRequest("reorder: ids must cover every item exactly once"@))
        } else {
            reordered(items, ids)
        },
        OpView::Replace { items: new_items } => Ok(with_ids(new_items, fresh)),
        OpView::Clear => Ok(Seq::empty()),
    }
}

/// The outcome of an operation, by its view.
pub open spec fn outcome(r: Result<TodoList, AppError>) -> Result<Seq<ItemView>, ErrorView> {
    match r {
        Ok(list) => Ok(list@),
        Err(e) => Err(e@),
    }
}

// ---------------------------------------------------------------------------
// The operations
// ---------------------------------------------------------------------------
/// [`place_of`] is the first place whose item has the id.
pub proof fn lemma_place_of(items: Seq<ItemView>, id: Seq<char>)
    ensures
        0 <= place_of(items, id) <= items.len(),
        forall|j: int| 0 <= j < place_of(items, id) ==> (#[trigger] items[j]).id != id,
        place_of(items, id) < items.len() ==> items[place_of(items, id)].id == id,
        place_of(items, id) < items.len() <==> has_item(items, id),
    decreases items.len(),
{
    if items.len() > 0 && items[0].id != id {
        let rest = items.drop_first();
        lemma_place_of(rest, id);
        assert forall|j: int| 0 <= j < place_of(items, id) implies (#[trigger] items[j]).id
            != id by {
            if j > 0 {
                assert(items[j] == rest[j - 1]);
            }
        }
    }
}

/// The place of the first item with this id.
fn find(items: &Vec<TodoItem>, id: &str) -> (r: Option<usize>)
    ensures
        r matches Some(p) ==> p < items@.len() && p == place_of(items_view(items@), id@),
        r is None ==> place_of(items_view(items@), id@) == items@.len(),
{
    let ghost all = items_view(items@);
    let mut i: usize = 0;
    while i < items.len()
        invariant
            i <= items@.len(),
            all == items_view(items@),
            forall|j: int| 0 <= j < i ==> (#[trigger] all[j]).id != id@,
        decreases items@.len() - i,
    {
        if same_text(items[i].id.as_str(), id) {
            proof {
                lemma_place_of(all, id@);
                assert(all[i as int].id == id@);
            }
            return Some(i);
        }
        i += 1;
    }
    proof {
        lemma_place_of(all, id@);
    }
    None
}

fn missing_item(id: &str) -> (r: AppError)
    ensures
        r@ == no_such_item(id@),
{
    let mut message = String::from_str("item ");
    message.append(id);
    AppError::NotFound(message)
}

/// The first item with this id, to be changed in place.
pub fn find_mut<'a>(items: &'a mut Vec<TodoItem>, id: &str) -> (r: Result<
    &'a mut TodoItem,
    AppError,
>)
    ensures
        ({
            let all = items_view(old(items)@);
            let p = place_of(all, id@);
            match r {
                Ok(item) => {
                    &&& 0 <= p < all.len()
                    &&& *item == old(items)@[p]
                    &&& final(items)@ == old(items)@.update(p, *final(item))
                },
                Err(e) => {
                    &&& p == all.len()
                    &&& e@ == no_such_item(id@)
                    &&& final(items)@ == old(items)@
                },
            }
        }),
{
    match find(items, id) {
        Some(p) => Ok(&mut items[p]),
        None => Err(missing_item(id)),
    }
}

/// Texts that are all fresh identifiers.
pub open spec fn all_fresh(ids: Seq<Seq<char>>) -> bool {
    forall|i: int| 0 <= i < ids.len() ==> is_fresh(#[trigger] ids[i])
}

/// As many new identifiers as asked for.
fn draw_ids(n: usize) -> (r: Vec<String>)
    ensures
        r@.len() == n,
        all_fresh(texts(r@)),
{
    let mut r: Vec<String> = Vec::new();
    while r.len() < n
        invariant
            r@.len() <= n,
            forall|i: int| 0 <= i < r@.len() ==> is_fresh(#[trigger] r@[i]@),
        decreases n - r@.len(),
    {
        r.push(new_id());
    }
    r
}

/// Gives each item without an id the one of its place.
pub fn fill_ids(items: &mut Vec<TodoItem>, fresh: &Vec<String>)
    requires
        fresh@.len() >= old(items)@.len(),
    ensures
        items_view(final(items)@) == with_ids(items_view(old(items)@), texts(fresh@)),
{
    let n: usize = items.len();
    let ghost before = items_view(items@);
    let ghost after = with_ids(before, texts(fresh@));
    let mut i: usize = 0;
    while i < n
        invariant
            i <= n == items@.len() == before.len(),
            n <= fresh@.len(),
            after == with_ids(before, texts(fresh@)),
            forall|j: int| 0 <= j < i ==> (#[trigger] items@[j])@ == after[j],
            forall|j: int| i <= j < n ==> (#[trigger] items@[j])@ == before[j],
        decreases n - i,
    {
        if items[i].id.as_str().is_empty() {
            let id = fresh[i].clone();
            let item = &mut items[i];
            item.id = id;
        }
        assert(items@[i as int]@ == after[i as int]);
        i += 1;
    }
    assert(items_view(items@) =~= after);
}

impl TodoList {
    /// Gives every item without an id a new one.
    pub fn assign_missing_ids(&mut self)
        ensures
            exists|fresh: Seq<Seq<char>>|
                fresh.len() == old(self)@.len() && all_fresh(fresh) && final(self)@ == with_ids(
                    old(self)@,
                    fresh,
                ),
    {
        let fresh = draw_ids(self.items.len());
        fill_ids(&mut self.items, &fresh);
    }
}

/// Applies an operation that takes its new ids from `fresh`.
pub fn apply_with_ids(list: TodoList, op: TodoOp, fresh: &Vec<String>) -> (r: Result<
    TodoList,
    AppError,
>)
    requires
        fresh@.len() >= ids_needed(op@),
    ensures
        outcome(r) == applied(list@, op@, texts(fresh@)),
{
    let mut items = list.items;
    let ghost before = items_view(items@);
    match op {
        TodoOp::Add { text } => {
            let text = trim(text.as_str());
            if text.as_str().is_empty() {
                return Err(AppError::bad_request("add: text cannot be empty"));
            }
            items.push(TodoItem { id: fresh[0].clone(), text, done: false });
            assert(items_view(items@) =~= applied(before, op@, texts(fresh@))->Ok_0);
        },
        TodoOp::MarkDone { item_id } => {
            match find_mut(&mut items, item_id.as_str()) {
                Ok(item) => {
                    item.done = true;
                },
                Err(e) => {
                    return Err(e);
                },
            }
            assert(items_view(items@) =~= applied(before, op@, texts(fresh@))->Ok_0);
        },
        TodoOp::Unmark { item_id } => {
            match find_mut(&mut items, item_id.as_str()) {
                Ok(item) => {
                    item.done = false;
                },
                Err(e) => {
                    return Err(e);
                },
            }
            assert(items_view(items@) =~= applied(before, op@, texts(fresh@))->Ok_0);
        },
        TodoOp::Toggle { item_id } => {
            match find_mut(&mut items, item_id.as_str()) {
                Ok(item) => {
                    item.done = !item.done;
                },
                Err(e) => {
                    return Err(e);
                },
            }
            assert(items_view(items@) =~= applied(before, op@, texts(fresh@))->Ok_0);
        },
        TodoOp::Remove { item_id } => {
            let count: usize = items.len();
            items = without(items, item_id.as_str());
            proof {
                lemma_without_len(before, item_id@);
            }
            if items.len() == count {
                return Err(missing_item(item_id.as_str()));
            }
        },
        TodoOp::Update { item_id, text } => {
            let text = trim(text.as_str());
            if text.as_str().is_empty() {
                return Err(AppError::bad_request("update: text cannot be empty"));
            }
            match find_mut(&mut items, item_id.as_str()) {
                Ok(item) => {
                    item.text = text;
                },
                Err(e) => {
                    return Err(e);
                },
            }
            assert(items_view(items@) =~= applied(before, op@, texts(fresh@))->Ok_0);
        },
        TodoOp::Reorder { ids } => {
            if ids.len() != items.len() {
                return Err(
                    AppError::bad_request("reorder: ids must cover every item exactly once"),
                );
            }
            match reorder(items, &ids) {
                Ok(new_items) => {
                    items = new_items;
                },
                Err(e) => {
                    return Err(e);
                },
            }
        },
        TodoOp::Replace { items: new_items } => {
            items = new_items;
            fill_ids(&mut items, fresh);
        },
        TodoOp::Clear => {
            items.clear();
            assert(items_view(items@) =~= Seq::empty());
        },
    }
    Ok(TodoList { items })
}

/// The items whose id is another one.
fn without(items: Vec<TodoItem>, id: &str) -> (r: Vec<TodoItem>)
    ensures
        items_view(r@) == items_view(items@).filter(|i: ItemView| i.id != id@),
{
    let ghost before = items_view(items@);
    let ghost keep = |i: ItemView| i.id != id@;
    let mut r: Vec<TodoItem> = Vec::new();
    assert(items_view(r@) =~= before.take(0).filter(keep)) by {
        reveal(Seq::filter);
    }
    for item in it: items
        invariant
            items_view(it.seq()) == before,
            items_view(r@) == before.take(it.index()).filter(keep),
            keep == |i: ItemView| i.id != id@,
    {
        proof {
            let k = it.index();
            assert(item@ == before[k]);
            assert(before.take(k + 1).drop_last() =~= before.take(k));
            reveal(Seq::filter);
        }
        if !same_text(item.id.as_str(), id) {
            let ghost was = items_view(r@);
            r.push(item);
            assert(items_view(r@) =~= was.push(item@));
        }
    }
    assert(before.take(before.len() as int) =~= before);
    r
}

/// Dropping the items of an id shortens the list exactly when there are some.
proof fn lemma_without_len(items: Seq<ItemView>, id: Seq<char>)
    ensures
        has_item(items, id) <==> items.filter(|i: ItemView| i.id != id).len() != items.len(),
        items.filter(|i: ItemView| i.id != id).len() <= items.len(),
    decreases items.len(),
{
    reveal(Seq::filter);
    if items.len() > 0 {
        let front = items.drop_last();
        lemma_without_len(front, id);
        if has_item(items, id) {
            let i = choose|i: int| 0 <= i < items.len() && (#[trigger] items[i]).id == id;
            if i < front.len() {
                assert(front[i].id == id);
            }
        }
        if has_item(front, id) {
            let i = choose|i: int| 0 <= i < front.len() && (#[trigger] front[i]).id == id;
            assert(items[i].id == id);
        }
        if items.last().id == id {
            assert(items[items.len() - 1].id == id);
        }
    }
}

/// `r` with `head` in front, where it is a list.
spec fn behind(head: Seq<ItemView>, r: Result<Seq<ItemView>, ErrorView>) -> Result<
    Seq<ItemView>,
    ErrorView,
> {
    match r {
        Ok(rest) => Ok(head + rest),
        Err(e) => Err(e),
    }
}

/// The items in the order of `ids`.
fn reorder(items: Vec<TodoItem>, ids: &Vec<String>) -> (r: Result<Vec<TodoItem>, AppError>)
    ensures
        match r {
            Ok(v) => reordered(items_view(items@), texts(ids@)) == Ok::<Seq<ItemView>, ErrorView>(
                items_view(v@),
            ),
            Err(e) => reordered(items_view(items@), texts(ids@)) == Err::<
                Seq<ItemView>,
                ErrorView,
            >(e@),
        },
{
    let ghost goal = reordered(items_view(items@), texts(ids@));
    let ghost wanted = texts(ids@);
    let mut left = items;
    let mut out: Vec<TodoItem> = Vec::with_capacity(left.len());
    let mut k: usize = 0;
    proof {
        assert(wanted.skip(0) =~= wanted);
        assert(goal is Ok ==> items_view(out@) + goal->Ok_0 =~= goal->Ok_0);
    }
    while k < ids.len()
        invariant
            k <= ids@.len(),
            wanted == texts(ids@),
            goal == reordered(items_view(items@), wanted),
            goal == behind(items_view(out@), reordered(items_view(left@), wanted.skip(k as int))),
        decreases ids@.len() - k,
    {
        let ghost pool = items_view(left@);
        let ghost done = items_view(out@);
        let ghost todo = wanted.skip(k as int);
        assert(todo[0] == ids@[k as int]@);
        match find(&left, ids[k].as_str()) {
            Some(p) => {
                let item = left.remove(p);
                out.push(item);
                proof {
                    assert(item@ == pool[p as int]);
                    assert(items_view(left@) =~= pool.remove(p as int));
                    assert(todo.drop_first() =~= wanted.skip(k + 1));
                    let r = reordered(items_view(left@), wanted.skip(k + 1));
                    if r is Ok {
                        assert(done + (seq![pool[p as int]] + r->Ok_0) =~= items_view(out@)
                            + r->Ok_0);
                    }
                }
            },
            None => {
                return Err(missing_item(ids[k].as_str()));
            },
        }
        k += 1;
    }
    proof {
        assert(items_view(out@) + Seq::<ItemView>::empty() =~= items_view(out@));
    }
    Ok(out)
}

/// Applies an operation to a list, drawing the new ids that it needs.
pub fn apply_todo_op(list: TodoList, op: TodoOp) -> (r: Result<TodoList, AppError>)
    ensures
        exists|fresh: Seq<Seq<char>>|
            fresh.len() == ids_needed(op@) && all_fresh(fresh) && outcome(r) == applied(
                list@,
                op@,
                fresh,
            ),
{
    let needed: usize = match &op {
        TodoOp::Add { .. } => 1,
        TodoOp::Replace { items } => items.len(),
        _ => 0,
    };
    let fresh = draw_ids(needed);
    apply_with_ids(list, op, &fresh)
}

// ---------------------------------------------------------------------------
// Rendering
// ---------------------------------------------------------------------------
/// One line per item: its mark and its text.
pub open spec fn item_lines(items: Seq<ItemView>) -> Seq<char>
    decreases items.len(),
{
    if items.len() == 0 {
        Seq::empty()
    } else {
        item_lines(items.drop_last()) + (if items.last().done {
            "  [x] "@
        } else {
            "  [ ] "@
        }) + items.last().text + "\n"@
    }
}

/// A to-do list as text.
pub open spec fn todo_text(items: Seq<ItemView>, key: Seq<char>) -> Seq<char> {
    if items.len() == 0 {
        "Todo list \""@ + key + "\" is empty."@
    } else {
        trim_end("Todo list \""@ + key + "\":\n"@ + item_lines(items))
    }
}

/// Renders a to-do list, for embedding and for prompts.
pub fn render_todo_list(list: &TodoList, state_key: &str) -> (r: String)
    ensures
        r@ == todo_text(list@, state_key@),
{
    let mut out = String::from_str("Todo list \"");
    out.append(state_key);
    if list.items.len() == 0 {
        out.append("\" is empty.");
        return out;
    }
    out.append("\":\n");
    let ghost head = out@;
    let mut i: usize = 0;
    assert(head + item_lines(list@.take(0)) =~= head);
    while i < list.items.len()
        invariant
            i <= list.items@.len(),
            out@ == head + item_lines(list@.take(i as int)),
        decreases list.items@.len() - i,
    {
        let item = &list.items[i];
        out.append(if item.done { "  [x] " } else { "  [ ] " });
        out.append(item.text.as_str());
        out.append("\n");
        proof {
            let k = i as int;
            assert(list@.take(k + 1).drop_last() =~= list@.take(k));
            assert(out@ =~= head + item_lines(list@.take(k + 1)));
        }
        i += 1;
    }
    assert(list@.take(i as int) =~= list@);
    trim_end_text(out.as_str())
}

impl StateKind {
    /// The kind of this name.
    pub fn parse(s: &str) -> (r: Result<StateKind, AppError>)
        ensures
            match r {
                Ok(kind) => s@ == "todo_list"@ && kind == StateKind::TodoList,
                Err(e) => s@ != "todo_list"@ && e@ == ErrorView::BadRequest(
                    "unknown state_kind: "@ + s@,
                ),
            },
    {
        if same_text(s, "todo_list") {
            Ok(StateKind::TodoList)
        } else {
            let mut message = String::from_str("unknown state_kind: ");
            message.append(s);
            Err(AppError::BadRequest(message))
        }
    }

    /// The name of a kind, as a sequence of characters.
    pub open spec fn name(self) -> Seq<char> {
        match self {
            StateKind::TodoList => "todo_list"@,
        }
    }

    /// The name of the kind.
    pub fn as_str(&self) -> (r: &'static str)
        ensures
            r@ == self.name(),
    {
        match self {
            StateKind::TodoList => "todo_list",
        }
    }

    /// The value to store for a new object of this kind: the one that was read,
    /// with ids where they are missing.
    pub fn validate_initial(&self, data: Result<TodoList, String>) -> (r: Result<TodoList, AppError>)
        ensures
            match data {
                Ok(list) => r matches Ok(x) && exists|fresh: Seq<Seq<char>>|
                    fresh.len() == list@.len() && all_fresh(fresh) && x@ == with_ids(list@, fresh),
                Err(fault) => r matches Err(e) && e@ == ErrorView::BadRequest(
                    "invalid todo_list: "@ + fault@,
                ),
            },
    {
        match data {
            Ok(list) => {
                let mut list = list;
                list.assign_missing_ids();
                Ok(list)
            },
            Err(fault) => Err(malformed("invalid todo_list: ", fault.as_str())),
        }
    }

    /// The value of an object that was given none.
    pub fn empty(&self) -> (r: TodoList)
        ensures
            r@ == Seq::<ItemView>::empty(),
    {
        let r = TodoList { items: Vec::new() };
        assert(r@ =~= Seq::empty());
        r
    }

    /// The object as text. What could not be read is rendered as empty.
    pub fn render(&self, data: &Result<TodoList, String>, state_key: &str) -> (r: String)
        ensures
            r@ == todo_text(stored_items(*data), state_key@),
    {
        match data {
            Ok(list) => render_todo_list(list, state_key),
            Err(_) => {
                let nothing = self.empty();
                render_todo_list(&nothing, state_key)
            },
        }
    }

    /// The object after an operation, of which both were read from what was
    /// stored and what was asked.
    pub fn apply(&self, data: Result<TodoList, String>, op: Result<TodoOp, String>) -> (r: Result<
        TodoList,
        AppError,
    >)
        ensures
            match (data, op) {
                (Err(fault), _) => r matches Err(e) && e@ == ErrorView::BadRequest(
                    "corrupt todo_list state: "@ + fault@,
                ),
                (Ok(_), Err(fault)) => r matches Err(e) && e@ == ErrorView::BadRequest(
                    "invalid todo op: "@ + fault@,
                ),
                (Ok(list), Ok(op)) => exists|fresh: Seq<Seq<char>>|
                    fresh.len() == ids_needed(op@) && all_fresh(fresh) && outcome(r) == applied(
                        list@,
                        op@,
                        fresh,
                    ),
            },
    {
        match data {
            Ok(list) => match op {
                Ok(op) => apply_todo_op(list, op),
                Err(fault) => Err(malformed("invalid todo op: ", fault.as_str())),
            },
            Err(fault) => Err(malformed("corrupt todo_list state: ", fault.as_str())),
        }
    }
}

/// The items that were stored; none where they could not be read.
pub open spec fn stored_items(data: Result<TodoList, String>) -> Seq<ItemView> {
    match data {
        Ok(list) => list@,
        Err(_) => Seq::empty(),
    }
}

fn malformed(what: &str, fault: &str) -> (r: AppError)
    ensures
        r@ == ErrorView::BadRequest(what@ + fault@),
{
    let mut message = String::from_str(what);
    message.append(fault);
    AppError::BadRequest(message)
}

// ---------------------------------------------------------------------------
// Laws
// ---------------------------------------------------------------------------
/// Changing an item by a function that keeps its id, and then by one that
/// undoes it, leaves the list as it was.
proof fn lemma_change_back(
    items: Seq<ItemView>,
    id: Seq<char>,
    f: spec_fn(ItemView) -> ItemView,
    g: spec_fn(ItemView) -> ItemView,
)
    requires
        has_item(items, id),
        forall|i: ItemView| (#[trigger] f(i)).id == i.id,
    ensures
        change_item(items, id, f) is Ok,
        change_item(change_item(items, id, f)->Ok_0, id, g) == change_item(
            items,
            id,
            |i: ItemView| g(f(i)),
        ),
{
    let p = place_of(items, id);
    lemma_place_of(items, id);
    let after = items.update(p, f(items[p]));
    let q = place_of(after, id);
    lemma_place_of(after, id);
    assert(after[p].id == id);
    if q < p {
        assert(after[q] == items[q]);
    }
    assert(p == q);
    assert(after.update(p, g(after[p])) =~= items.update(p, g(f(items[p]))));
}

/// Toggling an item twice gives back the list.
pub proof fn law_toggle_twice(items: Seq<ItemView>, item_id: Seq<char>, a: Seq<Seq<char>>, b: Seq<Seq<char>>)
    requires
        has_item(items, item_id),
    ensures
        applied(items, OpView::Toggle { item_id }, a) is Ok,
        applied(applied(items, OpView::Toggle { item_id }, a)->Ok_0, OpView::Toggle { item_id }, b)
            == Ok::<Seq<ItemView>, ErrorView>(items),
{
    let f = |i: ItemView| ItemView { done: !i.done, ..i };
    lemma_change_back(items, item_id, f, f);
    lemma_place_of(items, item_id);
    let p = place_of(items, item_id);
    assert(items.update(p, f(f(items[p]))) =~= items);
}

/// Marking an item that is already marked changes nothing.
pub proof fn law_mark_done_twice(items: Seq<ItemView>, item_id: Seq<char>, a: Seq<Seq<char>>, b: Seq<Seq<char>>)
    requires
        has_item(items, item_id),
    ensures
        applied(items, OpView::MarkDone { item_id }, a) is Ok,
        applied(
            applied(items, OpView::MarkDone { item_id }, a)->Ok_0,
            OpView::MarkDone { item_id },
            b,
        ) == applied(items, OpView::MarkDone { item_id }, a),
{
    let f = |i: ItemView| ItemView { done: true, ..i };
    lemma_change_back(items, item_id, f, f);
    lemma_place_of(items, item_id);
    let p = place_of(items, item_id);
    assert(items.update(p, f(f(items[p]))) =~= items.update(p, f(items[p])));
}

/// After a removal no item has the id, and every other item is still there.
pub proof fn law_remove_removes(items: Seq<ItemView>, item_id: Seq<char>, fresh: Seq<Seq<char>>)
    requires
        has_item(items, item_id),
    ensures
        applied(items, OpView::Remove { item_id }, fresh) matches Ok(after) && {
            &&& !has_item(after, item_id)
            &&& forall|i: int|
                0 <= i < items.len() && items[i].id != item_id ==> after.contains(
                    #[trigger] items[i],
                )
        },
{
    let keep = |i: ItemView| i.id != item_id;
    broadcast use vstd::seq_lib::group_filter_ensures;

    let after = items.filter(keep);
    if has_item(after, item_id) {
        let i = choose|i: int| 0 <= i < after.len() && (#[trigger] after[i]).id == item_id;
        assert(keep(after[i]));
    }
    assert forall|i: int| 0 <= i < items.len() && items[i].id != item_id implies after.contains(
        #[trigger] items[i],
    ) by {
        assert(keep(items[i]));
    }
}

/// The ids of the items, in order.
pub open spec fn item_ids(items: Seq<ItemView>) -> Seq<Seq<char>> {
    items.map_values(|i: ItemView| i.id)
}

/// A reordering that succeeds holds the same items, in the order of the ids.
pub proof fn law_reorder_permutes(items: Seq<ItemView>, ids: Seq<Seq<char>>)
    requires
        items.len() == ids.len(),
        reordered(items, ids) is Ok,
    ensures
        item_ids(reordered(items, ids)->Ok_0) == ids,
        reordered(items, ids)->Ok_0.to_multiset() == items.to_multiset(),
    decreases ids.len(),
{
    broadcast use vstd::seq_lib::group_to_multiset_ensures;

    if ids.len() > 0 {
        let p = place_of(items, ids[0]);
        lemma_place_of(items, ids[0]);
        let rest = items.remove(p);
        law_reorder_permutes(rest, ids.drop_first());
        let out = reordered(rest, ids.drop_first())->Ok_0;
        let all = seq![items[p]] + out;
        assert(item_ids(all) =~= ids) by {
            assert(item_ids(out) == ids.drop_first());
            assert forall|i: int| 0 <= i < ids.len() implies item_ids(all)[i] == ids[i] by {
                if i > 0 {
                    assert(item_ids(out)[i - 1] == ids.drop_first()[i - 1]);
                }
            }
            assert(item_ids(out).len() == out.len());
        }
        vstd::seq_lib::lemma_multiset_commutative(seq![items[p]], out);
        assert(seq![items[p]] =~= Seq::<ItemView>::empty().push(items[p]));
        assert(all.to_multiset() =~= out.to_multiset().insert(items[p]));
        items.to_multiset_ensures();
        assert(rest.to_multiset() =~= items.to_multiset().remove(items[p]));
        assert(items.to_multiset().contains(items[p]));
        assert(all.to_multiset() =~= items.to_multiset());
    } else {
        assert(item_ids(reordered(items, ids)->Ok_0) =~= ids);
        assert(items =~= Seq::empty());
    }
}

/// A reordering succeeds exactly where each id is asked for at most as often as
/// there are items with it.
pub proof fn law_reorder_succeeds(items: Seq<ItemView>, ids: Seq<Seq<char>>)
    ensures
        reordered(items, ids) is Ok <==> ids.to_multiset().subset_of(item_ids(items).to_multiset()),
    decreases ids.len(),
{
    broadcast use vstd::seq_lib::group_to_multiset_ensures;

    let held = item_ids(items);
    if ids.len() > 0 {
        let first = ids[0];
        let p = place_of(items, first);
        lemma_place_of(items, first);
        let more = ids.drop_first();
        assert(more =~= ids.remove(0));
        ids.to_multiset_ensures();
        held.to_multiset_ensures();
        assert(more.to_multiset() =~= ids.to_multiset().remove(first));
        assert(ids.contains(first));
        assert(ids.to_multiset().count(first) >= 1);
        if p < items.len() {
            let rest = items.remove(p);
            assert(item_ids(rest) =~= held.remove(p));
            assert(held[p] == first);
            assert(held.contains(first));
            law_reorder_succeeds(rest, more);
            let left = item_ids(rest).to_multiset();
            assert(left =~= held.to_multiset().remove(first));
            if more.to_multiset().subset_of(left) {
                assert forall|x: Seq<char>| ids.to_multiset().count(x) <= #[trigger] held.to_multiset().count(
                    x,
                ) by {
                    assert(more.to_multiset().count(x) <= left.count(x));
                }
            }
            if ids.to_multiset().subset_of(held.to_multiset()) {
                assert forall|x: Seq<char>| more.to_multiset().count(x) <= #[trigger] left.count(x) by {
                    assert(ids.to_multiset().count(x) <= held.to_multiset().count(x));
                }
            }
        } else {
            assert(!held.contains(first)) by {
                if held.contains(first) {
                    let i = choose|i: int| 0 <= i < held.len() && held[i] == first;
                    assert(items[i].id == first);
                    assert(has_item(items, first));
                }
            }
            assert(held.to_multiset().count(first) == 0);
        }
    } else {
        assert(ids =~= Seq::empty());
        assert(ids.to_multiset().len() == 0);
        assert forall|x: Seq<char>| ids.to_multiset().count(x) <= #[trigger] held.to_multiset().count(x) by {
            assert(!ids.contains(x));
        }
    }
}

/// Every item has an id.
pub open spec fn ids_present(items: Seq<ItemView>) -> bool {
    forall|i: int| 0 <= i < items.len() ==> (#[trigger] items[i]).id.len() > 0
}

/// Fresh ids fill every gap.
pub proof fn law_assigned_ids_are_present(items: Seq<ItemView>, fresh: Seq<Seq<char>>)
    requires
        fresh.len() == items.len(),
        all_fresh(fresh),
    ensures
        ids_present(with_ids(items, fresh)),
{
    assert forall|i: int| 0 <= i < items.len() implies (#[trigger] with_ids(items, fresh)[i]).id.len()
        > 0 by {
        lemma_fresh_is_not_empty(fresh[i]);
    }
}

/// No operation leaves an item without an id.
pub proof fn law_ids_stay_present(items: Seq<ItemView>, op: OpView, fresh: Seq<Seq<char>>)
    requires
        ids_present(items),
        fresh.len() == ids_needed(op),
        all_fresh(fresh),
    ensures
        applied(items, op, fresh) matches Ok(after) ==> ids_present(after),
{
    broadcast use vstd::seq_lib::group_filter_ensures;

    if let Ok(after) = applied(items, op, fresh) {
        match op {
            OpView::Add { text } => {
                lemma_fresh_is_not_empty(fresh[0]);
            },
            OpView::Replace { items: new_items } => {
                law_assigned_ids_are_present(new_items, fresh);
            },
            OpView::MarkDone { item_id } => {
                lemma_place_of(items, item_id);
            },
            OpView::Unmark { item_id } => {
                lemma_place_of(items, item_id);
            },
            OpView::Toggle { item_id } => {
                lemma_place_of(items, item_id);
            },
            OpView::Update { item_id, text } => {
                lemma_place_of(items, item_id);
            },
            OpView::Remove { item_id } => {
                let keep = |i: ItemView| i.id != item_id;
                assert forall|i: int| 0 <= i < after.len() implies (#[trigger] after[i]).id.len()
                    > 0 by {
                    lemma_filter_from(items, keep, i);
                }
            },
            OpView::Reorder { ids } => {
                law_reorder_permutes(items, ids);
                broadcast use vstd::seq_lib::group_to_multiset_ensures;

                assert forall|i: int| 0 <= i < after.len() implies (#[trigger] after[i]).id.len()
                    > 0 by {
                    assert(after.to_multiset().contains(after[i])) by {
                        assert(after.contains(after[i]));
                    }
                    assert(items.contains(after[i]));
                }
            },
            OpView::Clear => {},
        }
    }
}

/// What is left after filtering was there before.
proof fn lemma_filter_from(items: Seq<ItemView>, keep: spec_fn(ItemView) -> bool, i: int)
    requires
        0 <= i < items.filter(keep).len(),
    ensures
        items.contains(items.filter(keep)[i]),
    decreases items.len(),
{
    reveal(Seq::filter);
    if items.len() > 0 {
        let front = items.drop_last();
        if i < front.filter(keep).len() {
            lemma_filter_from(front, keep, i);
            let j = choose|j: int| 0 <= j < front.len() && front[j] == front.filter(keep)[i];
            assert(items[j] == items.filter(keep)[i]);
        } else {
            assert(items[items.len() - 1] == items.filter(keep)[i]);
        }
    }
}

// ---------------------------------------------------------------------------
// What each operation is for
// ---------------------------------------------------------------------------
/// How many items are still to be done.
pub open spec fn open_items(items: Seq<ItemView>) -> nat
    decreases items.len(),
{
    if items.len() == 0 {
        0
    } else {
        open_items(items.drop_last()) + if items.last().done {
            0nat
        } else {
            1nat
        }
    }
}

/// Adding puts one more open item at the end and leaves the others alone: it has
/// the text that was given, without space around it. Marking it done then changes
/// the list, and unmarking it does not. A blank text is refused.
pub proof fn law_adding_opens_an_item(
    items: Seq<ItemView>,
    text: Seq<char>,
    fresh: Seq<Seq<char>>,
    more: Seq<Seq<char>>,
)
    requires
        fresh.len() == 1,
    ensures
        trimmed(text).len() == 0 ==> (applied(items, OpView::Add { text }, fresh) matches Err(e) && e
            is BadRequest),
        trimmed(text).len() > 0 ==> (applied(items, OpView::Add { text }, fresh) matches Ok(after)
            && {
            &&& after.len() == items.len() + 1
            &&& after.drop_last() == items
            &&& after.last().text == trimmed(text)
            &&& after.last().id == fresh[0]
            &&& open_items(after) == open_items(items) + 1
            &&& !has_item(items, fresh[0]) ==> {
                &&& applied(after, OpView::Unmark { item_id: fresh[0] }, more) == Ok::<
                    Seq<ItemView>,
                    ErrorView,
                >(after)
                &&& applied(after, OpView::MarkDone { item_id: fresh[0] }, more) matches Ok(then)
                    && then != after && open_items(then) == open_items(items)
            }
        }),
{
    if trimmed(text).len() > 0 {
        let after = applied(items, OpView::Add { text }, fresh)->Ok_0;
        let n = items.len() as int;
        assert(after.drop_last() =~= items);
        if !has_item(items, fresh[0]) {
            lemma_place_of(after, fresh[0]);
            assert(after[n].id == fresh[0]);
            assert(has_item(after, fresh[0]));
            let p = place_of(after, fresh[0]);
            if p < n {
                assert(items[p].id == fresh[0]);
            }
            assert(p == n);
            assert(after.update(n, after[n]) =~= after);
            let then = applied(after, OpView::MarkDone { item_id: fresh[0] }, more)->Ok_0;
            assert(then[n].done && !after[n].done);
            assert(then.drop_last() =~= items);
        }
    }
}

/// The operations on one item change that item alone, the first with its id, and
/// of it only what they are for: marking and unmarking settle whether it is done,
/// toggling turns it over, and an update gives it its new text without space
/// around it.
pub proof fn law_one_item_changes(
    items: Seq<ItemView>,
    item_id: Seq<char>,
    text: Seq<char>,
    fresh: Seq<Seq<char>>,
    op: OpView,
    p: int,
)
    requires
        0 <= p < items.len(),
        items[p].id == item_id,
        forall|j: int| 0 <= j < p ==> (#[trigger] items[j]).id != item_id,
        trimmed(text).len() > 0,
        op == (OpView::MarkDone { item_id }) || op == (OpView::Unmark { item_id }) || op == (
        OpView::Toggle { item_id }) || op == (OpView::Update { item_id, text }),
    ensures
        applied(items, op, fresh) matches Ok(after) && {
            &&& after.len() == items.len()
            &&& forall|j: int| 0 <= j < items.len() && j != p ==> #[trigger] after[j] == items[j]
            &&& after[p].id == item_id
            &&& op is Update ==> after[p].text == trimmed(text) && after[p].done == items[p].done
            &&& !(op is Update) ==> after[p].text == items[p].text
            &&& op is MarkDone ==> after[p].done
            &&& op is Unmark ==> !after[p].done
            &&& op is Toggle ==> after[p].done != items[p].done
        },
{
    lemma_place_of(items, item_id);
    let q = place_of(items, item_id);
    assert(has_item(items, item_id));
    if q < p {
        assert(items[q].id != item_id);
    } else if p < q {
        assert(items[p].id != item_id);
    }
}

/// What names an item that is not there is answered so, and a blank text or an
/// order that does not name every item is refused.
pub proof fn law_what_is_not_there_cannot_change(
    items: Seq<ItemView>,
    item_id: Seq<char>,
    text: Seq<char>,
    ids: Seq<Seq<char>>,
    fresh: Seq<Seq<char>>,
)
    requires
        !has_item(items, item_id),
        trimmed(text).len() > 0,
    ensures
        ({
            let missing = Err::<Seq<ItemView>, ErrorView>(ErrorView::NotFound("item "@ + item_id));
            &&& applied(items, OpView::MarkDone { item_id }, fresh) == missing
            &&& applied(items, OpView::Unmark { item_id }, fresh) == missing
            &&& applied(items, OpView::Toggle { item_id }, fresh) == missing
            &&& applied(items, OpView::Remove { item_id }, fresh) == missing
            &&& applied(items, OpView::Update { item_id, text }, fresh) == missing
        }),
        applied(items, OpView::Update { item_id, text: Seq::empty() }, fresh) matches Err(e) && e
            is BadRequest,
        ids.len() != items.len() ==> (applied(items, OpView::Reorder { ids }, fresh) matches Err(e)
            && e is BadRequest),
{
    lemma_place_of(items, item_id);
    assert(trimmed(Seq::<char>::empty()).len() == 0);
}

/// Removing takes out the items with the id and keeps the others in their order;
/// what is removed is not there to be removed again.
pub proof fn law_removing_keeps_the_rest_in_order(
    a: Seq<ItemView>,
    item: ItemView,
    b: Seq<ItemView>,
    fresh: Seq<Seq<char>>,
)
    requires
        !has_item(a, item.id),
        !has_item(b, item.id),
    ensures
        applied(a + seq![item] + b, OpView::Remove { item_id: item.id }, fresh) == Ok::<
            Seq<ItemView>,
            ErrorView,
        >(a + b),
        applied(a + b, OpView::Remove { item_id: item.id }, fresh) is Err,
{
    let keep = |i: ItemView| i.id != item.id;
    let all = a + seq![item] + b;
    assert(all[a.len() as int].id == item.id);
    assert(has_item(all, item.id));
    lemma_filter_all(a, keep, item.id);
    lemma_filter_all(b, keep, item.id);
    Seq::filter_distributes_over_add(a + seq![item], b, keep);
    Seq::filter_distributes_over_add(a, seq![item], keep);
    assert(seq![item].filter(keep) =~= Seq::empty()) by {
        reveal(Seq::filter);
        assert(seq![item].drop_last() =~= Seq::empty());
        assert(Seq::<ItemView>::empty().filter(keep) =~= Seq::empty());
        assert(seq![item].last() == item);
    }
    assert(a + Seq::<ItemView>::empty() =~= a);
    if has_item(a + b, item.id) {
        let i = choose|i: int| 0 <= i < (a + b).len() && (#[trigger] (a + b)[i]).id == item.id;
        if i < a.len() {
            assert(a[i].id == item.id);
        } else {
            assert(b[i - a.len()].id == item.id);
        }
    }
}

proof fn lemma_filter_all(v: Seq<ItemView>, keep: spec_fn(ItemView) -> bool, id: Seq<char>)
    requires
        !has_item(v, id),
        keep == (|i: ItemView| i.id != id),
    ensures
        v.filter(keep) == v,
    decreases v.len(),
{
    reveal(Seq::filter);
    if v.len() > 0 {
        let front = v.drop_last();
        assert(v[v.len() - 1].id != id) by {
            if v[v.len() - 1].id == id {
                assert(has_item(v, id));
            }
        }
        assert(!has_item(front, id)) by {
            if has_item(front, id) {
                let i = choose|i: int| 0 <= i < front.len() && (#[trigger] front[i]).id == id;
                assert(v[i].id == id);
            }
        }
        lemma_filter_all(front, keep, id);
        assert(front.push(v.last()) =~= v);
    } else {
        assert(v.filter(keep) =~= v);
    }
}

/// A list that is replaced is the new one, item for item, with fresh ids only
/// where it had none; a list that is cleared is empty. Neither is ever refused.
pub proof fn law_replacing_takes_the_new_list(
    items: Seq<ItemView>,
    new_items: Seq<ItemView>,
    fresh: Seq<Seq<char>>,
)
    requires
        fresh.len() == new_items.len(),
    ensures
        applied(items, OpView::Clear, fresh) == Ok::<Seq<ItemView>, ErrorView>(Seq::empty()),
        applied(items, OpView::Replace { items: new_items }, fresh) matches Ok(after) && {
            &&& after.len() == new_items.len()
            &&& forall|i: int|
                0 <= i < after.len() ==> {
                    let x = #[trigger] after[i];
                    &&& x.text == new_items[i].text
                    &&& x.done == new_items[i].done
                    &&& new_items[i].id.len() > 0 ==> x.id == new_items[i].id
                    &&& new_items[i].id.len() == 0 ==> x.id == fresh[i]
                }
        },
{
}

proof fn lemma_item_lines_add(a: Seq<ItemView>, b: Seq<ItemView>)
    ensures
        item_lines(a + b) == item_lines(a) + item_lines(b),
    decreases b.len(),
{
    if b.len() == 0 {
        assert(a + b =~= a);
        assert(item_lines(a) + item_lines(b) =~= item_lines(a));
    } else {
        assert((a + b).drop_last() =~= a + b.drop_last());
        lemma_item_lines_add(a, b.drop_last());
        assert(item_lines(a + b) =~= item_lines(a) + item_lines(b));
    }
}

/// Every item of a list is in its text, in its order, on a line of its own, with
/// a cross exactly where it is done; the text names the list, and says so where
/// there is nothing in it.
pub proof fn law_every_item_is_rendered(
    a: Seq<ItemView>,
    item: ItemView,
    b: Seq<ItemView>,
    key: Seq<char>,
)
    ensures
        todo_text(Seq::empty(), key) == "Todo list \""@ + key + "\" is empty."@,
        todo_text(a + seq![item] + b, key) == trim_end(
            "Todo list \""@ + key + "\":\n"@ + item_lines(a) + item_lines(seq![item]) + item_lines(
                b,
            ),
        ),
        item_lines(seq![item]) == seq![
            ' ',
            ' ',
            '[',
            if item.done {
                'x'
            } else {
                ' '
            },
            ']',
            ' ',
        ] + item.text + seq!['\n'],
        item_lines(Seq::empty()) == Seq::<char>::empty(),
        item_lines(a + b) == item_lines(a) + item_lines(b),
{
    reveal_strlit("  [x] ");
    reveal_strlit("  [ ] ");
    reveal_strlit("\n");
    lemma_item_lines_add(a, b);
    lemma_item_lines_add(a + seq![item], b);
    lemma_item_lines_add(a, seq![item]);
    assert(seq![item].drop_last() =~= Seq::empty());
    assert(item_lines(seq![item].drop_last()) =~= Seq::empty());
    let mark = if item.done {
        'x'
    } else {
        ' '
    };
    assert(item_lines(seq![item]) =~= seq![' ', ' ', '[', mark, ']', ' '] + item.text + seq!['\n']);
    let head = "Todo list \""@ + key + "\":\n"@;
    assert(head + item_lines(a + seq![item] + b) =~= head + item_lines(a) + item_lines(seq![item])
        + item_lines(b));
}

/// A kind has the name that callers know it by.
pub proof fn law_names_of_kinds()
    ensures
        StateKind::TodoList.name() == "todo_list"@,
{
}

} // verus!
