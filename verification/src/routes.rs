//! The handlers behind the four routes. Each takes plain values and the
//! store, and says what goes back and under which status; reading the request
//! and writing the response is the front end's part.

use vstd::prelude::*;
use crate::models::ToDo;
use crate::store::{StoreError, ToDoStore};

verus! {

/// The statuses that the handlers answer with.
#[derive(Debug, Clone, Copy, PartialEq, Eq, Structural)]
pub enum Status {
    Okay,
    Accepted,
    BadRequest,
    NotFound,
}

impl Status {
    /// The status as the number that goes over the wire.
    pub open spec fn spec_code(self) -> u16 {
        match self {
            Status::Okay => 200,
            Status::Accepted => 202,
            Status::BadRequest => 400,
            Status::NotFound => 404,
        }
    }

    /// The status as the number that goes over the wire.
    #[verifier::when_used_as_spec(spec_code)]
    pub fn code(self) -> (code: u16)
        ensures
            code == self.spec_code(),
    {
        match self {
            Status::Okay => 200,
            Status::Accepted => 202,
            Status::BadRequest => 400,
            Status::NotFound => 404,
        }
    }

    /// The status under which a handler's answer goes out where the handler
    /// names none for success: a body goes out as 200, a refusal under the
    /// status that the handler gave.
    pub fn of_reply<T>(reply: &Result<T, Status>) -> (status: Status)
        ensures
            status == (match *reply {
                Ok(_) => Status::Okay,
                Err(refused) => refused,
            }),
    {
        match reply {
            Ok(_) => Status::Okay,
            Err(refused) => *refused,
        }
    }

    /// The status under which a refusal of the store goes back to the
    /// client: both are the client's fault.
    pub open spec fn spec_of_error(error: StoreError) -> Status {
        match error {
            StoreError::ValidationError => Status::BadRequest,
            StoreError::NotFound => Status::NotFound,
        }
    }

    /// The status under which a refusal of the store goes back to the client.
    #[verifier::when_used_as_spec(spec_of_error)]
    pub fn of_error(error: StoreError) -> (status: Status)
        ensures
            status == Status::spec_of_error(error),
    {
        match error {
            StoreError::ValidationError => Status::BadRequest,
            StoreError::NotFound => Status::NotFound,
        }
    }
}

/// A body that goes out as 202 Accepted, whatever it holds.
#[derive(Debug, Clone, PartialEq)]
pub struct HogeAccepted<R>(pub R);

impl<R> HogeAccepted<R> {
    /// The status of the response: always [`Status::Accepted`].
    pub fn status(&self) -> (status: Status)
        ensures
            status == Status::Accepted,
    {
        Status::Accepted
    }
}

/// `GET /`: a fixed greeting.
pub fn index() -> (greeting: &'static str)
    ensures
        greeting@ == "Hello, world!"@,
{
    "Hello, world!"
}

/// `GET /todos`: all items in the order of their creation.
pub fn todos(store: &ToDoStore) -> (reply: HogeAccepted<Vec<ToDo>>)
    ensures
        reply.0.deep_view() == store@.items,
{
    HogeAccepted(store.list())
}

/// `POST /todos`: creates an item from the title and the description that
/// the client sent. The identifier and the flag that came with them are not
/// the client's to set and are passed over. An empty title is a bad request.
pub fn new_todo(store: &mut ToDoStore, todo: ToDo) -> (reply: Result<HogeAccepted<ToDo>, Status>)
    requires
        todo.title@.len() > 0 ==> old(store)@.has_room(),
    ensures
        final(store)@.wf(),
        final(store)@ == old(store)@.create(todo.title@, todo.description@),
        todo.title@.len() == 0 ==> reply == Err::<HogeAccepted<ToDo>, Status>(Status::BadRequest),
        todo.title@.len() > 0 ==> (reply matches Ok(body) && body.0@ == old(store)@.fresh_item(
            todo.title@,
            todo.description@,
        )),
{
    match store.create(todo.title.as_str(), todo.description.as_str()) {
        Ok(item) => Ok(HogeAccepted(item)),
        Err(error) => Err(Status::of_error(error)),
    }
}

/// `GET /todos/<todoid>`: the item that carries `todoid`, or not found.
pub fn todo_by_id(store: &ToDoStore, todoid: u32) -> (reply: Result<ToDo, Status>)
    ensures
        match reply {
            Ok(item) => store@.lookup(todoid) == Some(item@),
            Err(status) => status == Status::NotFound && store@.lookup(todoid).is_none(),
        },
{
    match store.get_by_id(todoid) {
        Ok(item) => Ok(item),
        Err(error) => Err(Status::of_error(error)),
    }
}

} // verus!
