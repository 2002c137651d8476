//! Core memory: what is pinned and always in context.
use vstd::prelude::*;
use vstd::string::*;

use crate::bits::{clamp_unit, clamp_unit_opt, unit, unit_opt, ONE};
use crate::error::{AppError, ErrorView};
use crate::ids::{id_text, is_random_id, random_id, write_id};
use crate::text::{blank, clone_text, is_blank, opt_text, trim, trimmed};
use crate::time::Timestamp;

verus! {

/// A pinned memory. `importance` holds the bits of a number.
#[derive(Debug, Clone)]
pub struct CoreMemoryRow {
    pub id: u128,
    pub user_id: String,
    pub content: String,
    pub importance: u32,
    pub pinned_at: Timestamp,
    pub updated_at: Timestamp,
}

/// A memory to pin.
#[derive(Debug, Clone)]
pub struct CreateRequest {
    pub content: String,
    pub importance: Option<u32>,
}

/// A change to a pinned memory.
#[derive(Debug, Clone)]
pub struct UpdateRequest {
    pub content: Option<String>,
    pub importance: Option<u32>,
}

/// The pinned memories of a user.
#[derive(Debug, Clone)]
pub struct ListResponse {
    pub items: Vec<CoreMemoryRow>,
    pub count: usize,
}

/// What is stored of a memory that is pinned.
#[derive(Debug, Clone)]
pub struct NewCoreMemory {
    pub id: u128,
    pub content: String,
    pub importance: u32,
}

/// The answer for a pinned memory that is not there, or is another user's.
pub open spec fn no_core_memory(id: u128) -> ErrorView {
    ErrorView::NotFound("core memory "@ + id_text(id))
}

fn missing_core(id: u128) -> (r: AppError)
    ensures
        r@ == no_core_memory(id),
{
    let mut message = String::from_str("core memory ");
    message.append(write_id(id).as_str());
    AppError::NotFound(message)
}

/// The pinned memories that were read, counted.
pub fn list_core(items: Vec<CoreMemoryRow>) -> (r: ListResponse)
    ensures
        r.items@ == items@,
        r.count == items@.len(),
{
    let count: usize = items.len();
    ListResponse { items, count }
}

/// The text and the importance of a memory that is pinned, or why it is refused.
pub open spec fn pinned(content: Seq<char>, importance: Option<u32>) -> Result<
    (Seq<char>, u32),
    ErrorView,
> {
    if blank(content) {
        Err(ErrorView::BadRequest("content cannot be empty"@))
    } else {
        Ok(
            (
                trimmed(content),
                unit(
                    match importance {
                        Some(i) => i,
                        None => ONE,
                    },
                ),
            ),
        )
    }
}

/// What to store for a memory that is pinned: its text trimmed, and the highest
/// importance unless it says otherwise.
pub fn create_core(req: &CreateRequest) -> (r: Result<NewCoreMemory, AppError>)
    ensures
        match r {
            Ok(m) => {
                &&& !blank(req.content@)
                &&& is_random_id(m.id)
                &&& m.content@ == trimmed(req.content@)
                &&& m.importance == unit(
                    match req.importance {
                        Some(i) => i,
                        None => ONE,
                    },
                )
            },
            Err(e) => blank(req.content@) && e@ == ErrorView::BadRequest(
                "content cannot be empty"@,
            ),
        },
        match r {
            Ok(m) => pinned(req.content@, req.importance) == Ok::<(Seq<char>, u32), ErrorView>(
                (m.content@, m.importance),
            ),
            Err(e) => pinned(req.content@, req.importance) == Err::<(Seq<char>, u32), ErrorView>(e@),
        },
{
    if is_blank(req.content.as_str()) {
        return Err(AppError::bad_request("content cannot be empty"));
    }
    let importance = clamp_unit(
        match req.importance {
            Some(i) => i,
            None => ONE,
        },
    );
    Ok(NewCoreMemory { id: random_id(), content: trim(req.content.as_str()), importance })
}

/// The pinned memory that a read or a change gave back. Both look only among
/// the caller's own.
pub fn get_core(row: Option<CoreMemoryRow>, id: u128) -> (r: Result<CoreMemoryRow, AppError>)
    ensures
        match r {
            Ok(m) => row == Some(m),
            Err(e) => row is None && e@ == no_core_memory(id),
        },
{
    match row {
        Some(m) => Ok(m),
        None => Err(missing_core(id)),
    }
}

/// The values that a change sets; a missing one stays as it is.
pub fn update_core(req: &UpdateRequest) -> (r: UpdateRequest)
    ensures
        opt_text(r.content) == opt_text(req.content),
        r.importance == unit_opt(req.importance),
{
    UpdateRequest {
        content: clone_text(&req.content),
        importance: clamp_unit_opt(req.importance),
    }
}

/// Whether a removal found what it was to remove.
pub fn delete_core(rows_affected: u64, id: u128) -> (r: Result<(), AppError>)
    ensures
        match r {
            Ok(_) => rows_affected != 0,
            Err(e) => rows_affected == 0 && e@ == no_core_memory(id),
        },
{
    if rows_affected == 0 {
        Err(missing_core(id))
    } else {
        Ok(())
    }
}

/// A memory that says something can be pinned: with what it says, without space
/// around it, and as important as can be unless it says otherwise.
pub proof fn law_pinned_memories_weigh_most(content: Seq<char>, i: u32)
    ensures
        pinned(content, None) is Ok <==> !blank(content),
        pinned(content, Some(i)) is Ok <==> !blank(content),
        pinned(content, None) matches Ok(m) ==> m.0 == trimmed(content) && m.1 == 0x3f80_0000,
        pinned(content, Some(i)) matches Ok(m) ==> m.0 == trimmed(content) && m.1 == unit(i),
        pinned(content, None) matches Err(e) ==> e is BadRequest,
{
}

} // verus!
