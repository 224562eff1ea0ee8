//! The in-memory store: a mapping from identifier to todo record, modelled
//! as a sequence of record values with pairwise-distinct identifiers.

use vstd::prelude::*;

use crate::todo::{Todo, TodoView};

verus! {

/// All identifiers in `s` are pairwise distinct: the store is a mapping.
pub open spec fn ids_distinct(s: Seq<TodoView>) -> bool {
    forall|i: int, j: int| 0 <= i < j < s.len() ==> s[i].id != s[j].id
}

/// Some record in `s` carries the identifier `id`.
pub open spec fn contains_id(s: Seq<TodoView>, id: u128) -> bool {
    exists|i: int| 0 <= i < s.len() && s[i].id == id
}

/// The first record in `s` carrying `id`, if any. Under [`ids_distinct`]
/// it is the only one.
pub open spec fn lookup(s: Seq<TodoView>, id: u128) -> Option<TodoView>
    decreases s.len(),
{
    if s.len() == 0 {
        None
    } else if s[0].id == id {
        Some(s[0])
    } else {
        lookup(s.drop_first(), id)
    }
}

/// `s` with `t` written under its identifier: the first record carrying
/// `t.id` is replaced in place, or `t` is appended when none carries it.
pub open spec fn upsert(s: Seq<TodoView>, t: TodoView) -> Seq<TodoView>
    decreases s.len(),
{
    if s.len() == 0 {
        seq![t]
    } else if s[0].id == t.id {
        seq![t] + s.drop_first()
    } else {
        seq![s[0]] + upsert(s.drop_first(), t)
    }
}

/// `s` with the first record carrying `id` removed; `s` itself when none
/// carries it.
pub open spec fn remove_id(s: Seq<TodoView>, id: u128) -> Seq<TodoView>
    decreases s.len(),
{
    if s.len() == 0 {
        s
    } else if s[0].id == id {
        s.drop_first()
    } else {
        seq![s[0]] + remove_id(s.drop_first(), id)
    }
}

/// The store: every live todo record, keyed by its identifier.
pub struct Store {
    todos: Vec<Todo>,
}

impl View for Store {
    type V = Seq<TodoView>;

    closed spec fn view(&self) -> Seq<TodoView> {
        self.todos.deep_view()
    }
}

impl Store {
    /// The store's invariant: no two live records share an identifier.
    pub open spec fn wf(&self) -> bool {
        ids_distinct(self@)
    }

    /// An empty store.
    pub fn new() -> (r: Store)
        ensures
            r@ == Seq::<TodoView>::empty(),
            r.wf(),
    {
        let r = Store { todos: Vec::new() };
        proof {
            assert(r@ =~= Seq::<TodoView>::empty());
        }
        r
    }

    /// Index of the first record carrying `id`, if any.
    fn find_idx(&self, id: u128) -> (r: Option<usize>)
        ensures
            match r {
                Some(k) => k < self@.len() && self@[k as int].id == id && (forall|j: int|
                    0 <= j < k ==> self@[j].id != id),
                None => forall|j: int| 0 <= j < self@.len() ==> self@[j].id != id,
            },
    {
        let mut i: usize = 0;
        while i < self.todos.len()
            invariant
                i <= self.todos.len(),
                self@.len() == self.todos.len(),
                forall|j: int| 0 <= j < i ==> self@[j].id != id,
            decreases self.todos.len() - i,
        {
            if self.todos[i].id == id {
                return Some(i);
            }
            i += 1;
        }
        None
    }

    /// A snapshot copy of every live record, in the store's order.
    pub fn get_all(&self) -> (r: Vec<Todo>)
        ensures
            r.deep_view() == self@,
    {
        let mut r: Vec<Todo> = Vec::new();
        let mut i: usize = 0;
        while i < self.todos.len()
            invariant
                i <= self.todos.len(),
                self@.len() == self.todos.len(),
                r.deep_view() =~= self@.take(i as int),
            decreases self.todos.len() - i,
        {
            let ghost pre = r.deep_view();
            r.push(self.todos[i].clone());
            proof {
                assert(r.deep_view() =~= pre.push(self@[i as int]));
                assert(self@.take(i as int + 1) =~= self@.take(i as int).push(self@[i as int]));
            }
            i += 1;
        }
        proof {
            assert(r.deep_view() =~= self@);
        }
        r
    }

    /// A snapshot copy of the record carrying `id`, if one is live.
    pub fn get(&self, id: u128) -> (r: Option<Todo>)
        ensures
            r is Some <==> contains_id(self@, id),
            match r {
                Some(t) => lookup(self@, id) == Some(t@),
                None => lookup(self@, id) is None,
            },
    {
        match self.find_idx(id) {
            Some(k) => {
                proof {
                    lemma_lookup_at_index(self@, id, k as int);
                }
                Some(self.todos[k].clone())
            },
            None => {
                proof {
                    lemma_lookup_none(self@, id);
                }
                None
            },
        }
    }

    /// Inserts `todo`, replacing any live record with the same identifier.
    pub fn insert(&mut self, todo: Todo)
        ensures
            final(self)@ == upsert(old(self)@, todo@),
            old(self).wf() ==> final(self).wf(),
    {
        proof {
            if old(self).wf() {
                lemma_upsert_preserves_ids_distinct(old(self)@, todo@);
            }
        }
        match self.find_idx(todo.id) {
            Some(k) => {
                proof {
                    lemma_upsert_at_index(self@, todo@, k as int);
                }
                self.todos[k] = todo;
                proof {
                    assert(self@ =~= old(self)@.update(k as int, todo@));
                }
            },
            None => {
                proof {
                    lemma_upsert_absent(self@, todo@);
                }
                self.todos.push(todo);
                proof {
                    assert(self@ =~= old(self)@.push(todo@));
                }
            },
        }
    }

    /// Removes the record carrying `id`; reports whether one was live.
    pub fn remove(&mut self, id: u128) -> (r: bool)
        ensures
            r == contains_id(old(self)@, id),
            final(self)@ == remove_id(old(self)@, id),
            old(self).wf() ==> final(self).wf(),
    {
        proof {
            if old(self).wf() {
                lemma_remove_preserves_ids_distinct(old(self)@, id);
            }
        }
        match self.find_idx(id) {
            Some(k) => {
                proof {
                    lemma_remove_at_index(self@, id, k as int);
                }
                self.todos.remove(k);
                proof {
                    assert(self@ =~= old(self)@.remove(k as int));
                }
                true
            },
            None => {
                proof {
                    lemma_remove_absent(self@, id);
                }
                false
            },
        }
    }
}

/// The first index of `s` carrying `id`, extracted from [`contains_id`].
pub proof fn lemma_first_index(s: Seq<TodoView>, id: u128) -> (k: int)
    requires
        contains_id(s, id),
    ensures
        0 <= k < s.len(),
        s[k].id == id,
        forall|j: int| 0 <= j < k ==> s[j].id != id,
    decreases s.len(),
{
    if s[0].id == id {
        0
    } else {
        assert(contains_id(s.drop_first(), id)) by {
            let w = choose|i: int| 0 <= i < s.len() && s[i].id == id;
            assert(s.drop_first()[w - 1].id == id);
        }
        let k0 = lemma_first_index(s.drop_first(), id);
        assert(forall|j: int| 1 <= j < k0 + 1 ==> s[j] == s.drop_first()[j - 1]);
        k0 + 1
    }
}

/// [`lookup`] finds the record at the first index carrying `id`.
proof fn lemma_lookup_at_index(s: Seq<TodoView>, id: u128, k: int)
    requires
        0 <= k < s.len(),
        s[k].id == id,
        forall|j: int| 0 <= j < k ==> s[j].id != id,
    ensures
        lookup(s, id) == Some(s[k]),
    decreases k,
{
    if k > 0 {
        lemma_lookup_at_index(s.drop_first(), id, k - 1);
    }
}

/// When no record carries `id`, [`lookup`] finds none.
proof fn lemma_lookup_none(s: Seq<TodoView>, id: u128)
    requires
        forall|j: int| 0 <= j < s.len() ==> s[j].id != id,
    ensures
        lookup(s, id) is None,
    decreases s.len(),
{
    if s.len() > 0 {
        lemma_lookup_none(s.drop_first(), id);
    }
}

/// [`upsert`] replaces in place at the first index carrying the identifier.
proof fn lemma_upsert_at_index(s: Seq<TodoView>, t: TodoView, k: int)
    requires
        0 <= k < s.len(),
        s[k].id == t.id,
        forall|j: int| 0 <= j < k ==> s[j].id != t.id,
    ensures
        upsert(s, t) == s.update(k, t),
    decreases k,
{
    if k == 0 {
        assert(upsert(s, t) =~= s.update(0, t));
    } else {
        lemma_upsert_at_index(s.drop_first(), t, k - 1);
        assert(upsert(s, t) =~= s.update(k, t));
    }
}

/// When no record carries the identifier, [`upsert`] appends.
proof fn lemma_upsert_absent(s: Seq<TodoView>, t: TodoView)
    requires
        forall|j: int| 0 <= j < s.len() ==> s[j].id != t.id,
    ensures
        upsert(s, t) == s.push(t),
    decreases s.len(),
{
    if s.len() == 0 {
        assert(upsert(s, t) =~= s.push(t));
    } else {
        lemma_upsert_absent(s.drop_first(), t);
        assert(upsert(s, t) =~= s.push(t));
    }
}

/// [`remove_id`] removes the record at the first index carrying `id`.
proof fn lemma_remove_at_index(s: Seq<TodoView>, id: u128, k: int)
    requires
        0 <= k < s.len(),
        s[k].id == id,
        forall|j: int| 0 <= j < k ==> s[j].id != id,
    ensures
        remove_id(s, id) == s.remove(k),
    decreases k,
{
    if k == 0 {
        assert(remove_id(s, id) =~= s.remove(0));
    } else {
        lemma_remove_at_index(s.drop_first(), id, k - 1);
        assert(remove_id(s, id) =~= s.remove(k));
    }
}

/// When no record carries `id`, [`remove_id`] changes nothing.
proof fn lemma_remove_absent(s: Seq<TodoView>, id: u128)
    requires
        forall|j: int| 0 <= j < s.len() ==> s[j].id != id,
    ensures
        remove_id(s, id) == s,
    decreases s.len(),
{
    if s.len() > 0 {
        lemma_remove_absent(s.drop_first(), id);
        assert(remove_id(s, id) =~= s);
    }
}

/// Law: in a store with pairwise-distinct identifiers, every live
/// identifier names exactly one record, so the identifier returned for a
/// created record is unique among all currently-live records.
pub proof fn lemma_live_ids_unique(s: Seq<TodoView>, i: int, j: int)
    requires
        ids_distinct(s),
        0 <= i < s.len(),
        0 <= j < s.len(),
        i != j,
    ensures
        s[i].id != s[j].id,
{
}

/// Law: a record just written is found by its identifier in the new
/// snapshot, and every record of the snapshot carrying that identifier is
/// exactly the written one.
pub proof fn lemma_upsert_found(s: Seq<TodoView>, t: TodoView)
    requires
        ids_distinct(s),
    ensures
        contains_id(upsert(s, t), t.id),
        lookup(upsert(s, t), t.id) == Some(t),
        forall|j: int|
            0 <= j < upsert(s, t).len() && upsert(s, t)[j].id == t.id ==> upsert(s, t)[j] == t,
{
    if contains_id(s, t.id) {
        let k = lemma_first_index(s, t.id);
        lemma_upsert_at_index(s, t, k);
        assert(upsert(s, t)[k] == t);
        lemma_lookup_at_index(upsert(s, t), t.id, k);
    } else {
        assert(forall|j: int| 0 <= j < s.len() ==> s[j].id != t.id) by {
            assert(forall|j: int|
                0 <= j < s.len() && s[j].id == t.id ==> contains_id(s, t.id));
        }
        lemma_upsert_absent(s, t);
        assert(upsert(s, t)[s.len() as int] == t);
        lemma_lookup_at_index(upsert(s, t), t.id, s.len() as int);
    }
}

/// Law: removing an identifier that no record carries changes nothing, so
/// deleting the same record a second time finds nothing to remove.
pub proof fn lemma_remove_id_absent(s: Seq<TodoView>, id: u128)
    requires
        !contains_id(s, id),
    ensures
        remove_id(s, id) == s,
{
    assert(forall|j: int| 0 <= j < s.len() ==> s[j].id != id) by {
        assert(forall|j: int| 0 <= j < s.len() && s[j].id == id ==> contains_id(s, id));
    }
    lemma_remove_absent(s, id);
}

/// Law: after removing an identifier from a store with pairwise-distinct
/// identifiers, no live record carries it: a deleted record is absent from
/// the list and from direct lookup.
pub proof fn lemma_remove_id_removes(s: Seq<TodoView>, id: u128)
    requires
        ids_distinct(s),
    ensures
        !contains_id(remove_id(s, id), id),
        lookup(remove_id(s, id), id) is None,
{
    if contains_id(s, id) {
        let k = lemma_first_index(s, id);
        lemma_remove_at_index(s, id, k);
        assert(forall|j: int| 0 <= j < s.len() && j != k ==> s[j].id != id);
        assert(forall|j: int| 0 <= j < remove_id(s, id).len() ==> remove_id(s, id)[j].id != id);
    } else {
        lemma_remove_id_absent(s, id);
        assert(forall|j: int| 0 <= j < s.len() ==> s[j].id != id) by {
            assert(forall|j: int| 0 <= j < s.len() && s[j].id == id ==> contains_id(s, id));
        }
    }
    lemma_lookup_none(remove_id(s, id), id);
}

/// Writing a record keeps the identifiers pairwise distinct: the store
/// stays a mapping, so every live identifier names exactly one record.
pub proof fn lemma_upsert_preserves_ids_distinct(s: Seq<TodoView>, t: TodoView)
    requires
        ids_distinct(s),
    ensures
        ids_distinct(upsert(s, t)),
{
    if contains_id(s, t.id) {
        let k = lemma_first_index(s, t.id);
        lemma_upsert_at_index(s, t, k);
    } else {
        assert(forall|j: int| 0 <= j < s.len() ==> s[j].id != t.id) by {
            assert(forall|j: int| 0 <= j < s.len() && s[j].id == t.id ==> contains_id(s, t.id));
        }
        lemma_upsert_absent(s, t);
    }
}

/// Removing a record keeps the identifiers pairwise distinct.
pub proof fn lemma_remove_preserves_ids_distinct(s: Seq<TodoView>, id: u128)
    requires
        ids_distinct(s),
    ensures
        ids_distinct(remove_id(s, id)),
{
    if contains_id(s, id) {
        let k = lemma_first_index(s, id);
        lemma_remove_at_index(s, id, k);
    } else {
        assert(forall|j: int| 0 <= j < s.len() ==> s[j].id != id) by {
            assert(forall|j: int| 0 <= j < s.len() && s[j].id == id ==> contains_id(s, id));
        }
        lemma_remove_absent(s, id);
    }
}

} // verus!
