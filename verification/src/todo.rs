//! The todo record and the request bodies that create and update it.

use vstd::prelude::*;

verus! {

/// Mathematical value of a [`Todo`]: the identifier, the text as a sequence
/// of characters, and the completion flag.
pub struct TodoView {
    pub id: u128,
    pub text: Seq<char>,
    pub completed: bool,
}

/// A single task record. The identifier is generated at creation and never
/// changes; `text` and `completed` may be updated in place.
#[derive(Debug)]
pub struct Todo {
    pub id: u128,
    pub text: String,
    pub completed: bool,
}

impl View for Todo {
    type V = TodoView;

    open spec fn view(&self) -> TodoView {
        TodoView { id: self.id, text: self.text@, completed: self.completed }
    }
}

impl DeepView for Todo {
    type V = TodoView;

    open spec fn deep_view(&self) -> TodoView {
        self@
    }
}

impl Clone for Todo {
    fn clone(&self) -> (r: Self)
        ensures
            r == *self,
    {
        Todo { id: self.id, text: self.text.clone(), completed: self.completed }
    }
}

/// Body of a create request: the text of the new record.
pub struct CreateTodo {
    pub text: String,
}

/// Body of an update request: each field is applied only when supplied.
pub struct UpdateTodo {
    pub text: Option<String>,
    pub completed: Option<bool>,
}

/// Mathematical value of an [`UpdateTodo`].
pub struct UpdateTodoView {
    pub text: Option<Seq<char>>,
    pub completed: Option<bool>,
}

impl View for UpdateTodo {
    type V = UpdateTodoView;

    open spec fn view(&self) -> UpdateTodoView {
        UpdateTodoView { text: self.text.deep_view(), completed: self.completed }
    }
}

/// `prev` with each supplied field of `u` applied: unsupplied fields keep
/// their prior values, and the identifier never changes.
pub open spec fn apply_update(prev: TodoView, u: UpdateTodoView) -> TodoView {
    TodoView {
        id: prev.id,
        text: match u.text {
            Some(t) => t,
            None => prev.text,
        },
        completed: match u.completed {
            Some(c) => c,
            None => prev.completed,
        },
    }
}

/// Law: an update that supplies no new text leaves the text unchanged, one
/// that supplies no completion flag leaves the flag unchanged, and no
/// update changes the identifier.
pub proof fn lemma_partial_update(prev: TodoView, u: UpdateTodoView)
    ensures
        u.text is None ==> apply_update(prev, u).text == prev.text,
        u.completed is None ==> apply_update(prev, u).completed == prev.completed,
        apply_update(prev, u).id == prev.id,
{
}

/// The one domain error: the requested identifier has no live record.
#[derive(Debug, PartialEq, Eq, Structural, Clone, Copy)]
pub enum ApiError {
    NotFound,
}

} // verus!
