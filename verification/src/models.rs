//! The to-do item and its mathematical model.

use vstd::prelude::*;

verus! {

/// A to-do item as the store keeps it and as it travels to and from clients.
#[derive(Debug, PartialEq, Eq)]
pub struct ToDo {
    pub id: u32,
    pub title: String,
    pub description: String,
    pub done: bool,
}

/// What a [`ToDo`] is to a contract: its identifier, its two texts as
/// sequences of characters, and its completion flag.
pub ghost struct ToDoView {
    pub id: u32,
    pub title: Seq<char>,
    pub description: Seq<char>,
    pub done: bool,
}

impl View for ToDo {
    type V = ToDoView;

    open spec fn view(&self) -> ToDoView {
        ToDoView {
            id: self.id,
            title: self.title@,
            description: self.description@,
            done: self.done,
        }
    }
}

impl DeepView for ToDo {
    type V = ToDoView;

    open spec fn deep_view(&self) -> ToDoView {
        self@
    }
}

impl Clone for ToDo {
    /// The copy has the same identifier, texts and flag.
    fn clone(&self) -> (copy: Self)
        ensures
            copy@ == self@,
    {
        ToDo {
            id: self.id,
            title: self.title.clone(),
            description: self.description.clone(),
            done: self.done,
        }
    }
}

impl ToDo {
    /// An item that is not done yet, with the given identifier and texts.
    pub fn new(id: u32, title: &str, description: &str) -> (item: ToDo)
        ensures
            item@ == (ToDoView { id, title: title@, description: description@, done: false }),
    {
        ToDo { id, title: title.to_owned(), description: description.to_owned(), done: false }
    }
}

} // verus!
