//! The four request-level operations: list, create, update, delete.

use vstd::prelude::*;

use crate::store::Store;
use crate::store::{contains_id, lookup, remove_id, upsert};
use crate::todo::{apply_update, ApiError, CreateTodo, Todo, TodoView, UpdateTodo};

verus! {

/// Pagination of a list request: how many leading records to skip, and how
/// many to return at most. Each field defaults when absent: `offset` to 0,
/// `limit` to unbounded.
pub struct Pagination {
    pub offset: Option<usize>,
    pub limit: Option<usize>,
}

impl Default for Pagination {
    /// No offset, no limit: the whole snapshot.
    fn default() -> (r: Self)
        ensures
            r.offset is None,
            r.limit is None,
    {
        Pagination { offset: None, limit: None }
    }
}

/// The offset actually applied: 0 when none was supplied.
pub open spec fn eff_offset(p: Pagination) -> int {
    match p.offset {
        Some(o) => o as int,
        None => 0,
    }
}

/// The limit actually applied: unbounded (the largest possible snapshot
/// length) when none was supplied.
pub open spec fn eff_limit(p: Pagination) -> int {
    match p.limit {
        Some(l) => l as int,
        None => usize::MAX as int,
    }
}

/// The page of `s` selected by `offset` and `limit`: skip the first
/// `offset` records, then take at most `limit` of the remainder.
pub open spec fn page(s: Seq<TodoView>, offset: int, limit: int) -> Seq<TodoView>
    recommends
        0 <= offset,
        0 <= limit,
{
    let start = if offset <= s.len() {
        offset
    } else {
        s.len() as int
    };
    let end = if offset + limit <= s.len() {
        offset + limit
    } else {
        s.len() as int
    };
    s.subrange(start, end)
}

/// A page holds `min(limit, len - offset)` records, and none when the
/// offset reaches past the snapshot: out-of-range pagination is no error.
pub proof fn lemma_page_len(s: Seq<TodoView>, offset: int, limit: int)
    requires
        0 <= offset,
        0 <= limit,
    ensures
        page(s, offset, limit).len() == if offset >= s.len() {
            0int
        } else if limit <= s.len() - offset {
            limit
        } else {
            s.len() - offset
        },
{
}

/// Law: with no offset and no limit supplied, the page is the whole
/// snapshot.
pub proof fn lemma_page_all(s: Seq<TodoView>)
    requires
        s.len() <= usize::MAX,
    ensures
        page(s, 0, usize::MAX as int) == s,
{
    assert(page(s, 0, usize::MAX as int) =~= s);
}

/// The pagination actually applied: the supplied one, or the default when
/// the request carried none.
pub open spec fn pagination_or_default(p: Option<Pagination>) -> Pagination {
    match p {
        Some(q) => q,
        None => Pagination { offset: None, limit: None },
    }
}

/// Relies on uuid::Uuid::new_v4 (a freshly generated random version-4
/// UUID) and uuid::Uuid::as_u128 (its value as one 128-bit integer): the
/// value is random, so nothing is stated of it.
#[verifier::external_body]
fn new_uuid_v4() -> u128 {
    uuid::Uuid::new_v4().as_u128()
}

/// Lists a snapshot of the store: skips the first `offset` records of the
/// snapshot order and returns at most `limit` of the remainder.
pub fn todo_index(pagination: Option<Pagination>, store: &Store) -> (r: Vec<Todo>)
    ensures
        r.deep_view() == page(
            store@,
            eff_offset(pagination_or_default(pagination)),
            eff_limit(pagination_or_default(pagination)),
        ),
{
    let p = match pagination {
        Some(q) => q,
        None => Pagination::default(),
    };
    let todos = store.get_all();
    let n = todos.len();
    let offset = match p.offset {
        Some(o) => o,
        None => 0,
    };
    let start = if offset <= n {
        offset
    } else {
        n
    };
    let rem = n - start;
    let take_count = match p.limit {
        Some(l) => if l <= rem {
            l
        } else {
            rem
        },
        None => rem,
    };
    let end = start + take_count;
    let mut r: Vec<Todo> = Vec::new();
    let mut i = start;
    while i < end
        invariant
            start <= i <= end <= todos.len(),
            todos.deep_view() == store@,
            r.deep_view() =~= store@.subrange(start as int, i as int),
        decreases end - i,
    {
        let ghost pre = r.deep_view();
        r.push(todos[i].clone());
        proof {
            assert(r.deep_view() =~= pre.push(store@[i as int]));
            assert(store@.subrange(start as int, i as int + 1) =~= store@.subrange(
                start as int,
                i as int,
            ).push(store@[i as int]));
        }
        i += 1;
    }
    proof {
        assert(r.deep_view() =~= page(store@, eff_offset(p), eff_limit(p)));
    }
    r
}

/// Creates a record: generates a fresh identifier, sets `completed` to
/// false, and writes the record into the store.
pub fn todos_create(input: CreateTodo, store: &mut Store) -> (r: Todo)
    ensures
        r@.text == input.text@,
        r@.completed == false,
        final(store)@ == upsert(old(store)@, r@),
        old(store).wf() ==> final(store).wf(),
{
    let id = new_uuid_v4();
    let todo = Todo { id, text: input.text, completed: false };
    let created = todo.clone();
    store.insert(todo);
    created
}

/// Updates the record carrying `id`: each supplied field of `input` is
/// applied onto the looked-up record, unsupplied fields keep their prior
/// values, and the result is written back under the same identifier.
/// Returns the updated record, or not-found when no record carries `id`,
/// in which case the store is unchanged.
///
/// The look-up and the write-back happen under one exclusive borrow of the
/// store, so no concurrent write can interleave between them; an embedder
/// that wants the looser two-phase locking must call [`Store::get`] and
/// [`Store::insert`] itself.
pub fn todos_update(id: u128, input: UpdateTodo, store: &mut Store) -> (r: Result<Todo, ApiError>)
    ensures
        r is Ok <==> contains_id(old(store)@, id),
        r matches Ok(t) ==> t@ == apply_update(lookup(old(store)@, id)->0, input@),
        r matches Ok(t) ==> final(store)@ == upsert(old(store)@, t@),
        r is Err ==> r == Err::<Todo, ApiError>(ApiError::NotFound) && final(store)@ == old(
            store,
        )@,
        old(store).wf() ==> final(store).wf(),
{
    let prev = match store.get(id) {
        Some(t) => t,
        None => {
            return Err(ApiError::NotFound);
        },
    };
    let UpdateTodo { text, completed } = input;
    let mut todo = prev;
    match text {
        Some(t) => {
            todo.text = t;
        },
        None => {},
    }
    match completed {
        Some(c) => {
            todo.completed = c;
        },
        None => {},
    }
    let updated = todo.clone();
    store.insert(todo);
    Ok(updated)
}

/// Deletes the record carrying `id`; not-found when no record carries it,
/// in which case the store is unchanged.
pub fn todos_delete(id: u128, store: &mut Store) -> (r: Result<(), ApiError>)
    ensures
        r is Ok <==> contains_id(old(store)@, id),
        final(store)@ == remove_id(old(store)@, id),
        r is Err ==> r == Err::<(), ApiError>(ApiError::NotFound) && final(store)@ == old(
            store,
        )@,
        old(store).wf() ==> final(store).wf(),
{
    if store.remove(id) {
        Ok(())
    } else {
        proof {
            crate::store::lemma_remove_id_absent(old(store)@, id);
        }
        Err(ApiError::NotFound)
    }
}

} // verus!
