//! The store: sole owner of the to-do items and of the counter that names them.

use vstd::prelude::*;
use crate::models::{ToDo, ToDoView};

verus! {

/// Why the store turned a request down.
#[derive(Debug, Clone, Copy, PartialEq, Eq, Structural)]
pub enum StoreError {
    /// The input breaks a constraint: the title is empty.
    ValidationError,
    /// No item has the identifier asked for.
    NotFound,
}

/// The identifier that the first item of a new store gets.
pub const FIRST_ID: u32 = 1;

/// The title of the item that a seeded store starts with.
pub const SAMPLE_TITLE: &'static str = "Read Rocket tutorial";

/// The description of the item that a seeded store starts with.
pub const SAMPLE_DESCRIPTION: &'static str = "Read https://rocket.rs/guide/quickstart/";

/// The store as contracts see it: the items in the order of their creation,
/// and the identifier that the next item will get.
pub ghost struct StoreView {
    pub items: Seq<ToDoView>,
    pub next_id: nat,
}

impl StoreView {
    /// The store before anything was created.
    pub open spec fn empty() -> StoreView {
        StoreView { items: Seq::empty(), next_id: FIRST_ID as nat }
    }

    /// What holds of every store: identifiers grow strictly along the list,
    /// all lie below the counter, and no title is empty.
    pub open spec fn wf(self) -> bool {
        &&& FIRST_ID <= self.next_id <= u32::MAX
        &&& forall|i: int|
            0 <= i < self.items.len() ==> FIRST_ID <= (#[trigger] self.items[i]).id < self.next_id
        &&& forall|i: int| 0 <= i < self.items.len() ==> (#[trigger] self.items[i]).title.len() > 0
        &&& forall|i: int, j: int|
            0 <= i < j < self.items.len() ==> (#[trigger] self.items[i]).id < (
            #[trigger] self.items[j]).id
    }

    /// Whether some item carries `id`.
    pub open spec fn has_id(self, id: u32) -> bool {
        exists|i: int| 0 <= i < self.items.len() && (#[trigger] self.items[i]).id == id
    }

    /// A place in the list where `id` stands, if it stands anywhere.
    pub open spec fn position(self, id: u32) -> int {
        choose|i: int| 0 <= i < self.items.len() && (#[trigger] self.items[i]).id == id
    }

    /// The item that carries `id`, if there is one.
    pub open spec fn lookup(self, id: u32) -> Option<ToDoView> {
        if self.has_id(id) {
            Some(self.items[self.position(id)])
        } else {
            None
        }
    }

    /// Whether the counter can still name a new item.
    pub open spec fn has_room(self) -> bool {
        self.next_id < u32::MAX
    }

    /// The item that a creation with these texts would add.
    pub open spec fn fresh_item(self, title: Seq<char>, description: Seq<char>) -> ToDoView {
        ToDoView { id: self.next_id as u32, title, description, done: false }
    }

    /// The store after a request to create an item: unchanged where the title
    /// is empty, else one item longer and the counter one higher.
    pub open spec fn create(self, title: Seq<char>, description: Seq<char>) -> StoreView {
        if title.len() == 0 {
            self
        } else {
            StoreView {
                items: self.items.push(self.fresh_item(title, description)),
                next_id: self.next_id + 1,
            }
        }
    }

    /// The store after the item with `id` had its flag set to `done`:
    /// unchanged where no item carries `id`.
    pub open spec fn set_done(self, id: u32, done: bool) -> StoreView {
        if self.has_id(id) {
            let at = self.position(id);
            StoreView {
                items: self.items.update(at, ToDoView { done, ..self.items[at] }),
                next_id: self.next_id,
            }
        } else {
            self
        }
    }
}

/// In a well-formed store an identifier stands at one place at most, so an
/// item found under `id` is the one that `lookup` gives.
pub proof fn lemma_lookup_at(s: StoreView, at: int)
    requires
        s.wf(),
        0 <= at < s.items.len(),
    ensures
        s.has_id(s.items[at].id),
        s.position(s.items[at].id) == at,
        s.lookup(s.items[at].id) == Some(s.items[at]),
{
    let id = s.items[at].id;
    assert(s.has_id(id));
    let found = s.position(id);
    if found < at {
        assert(s.items[found].id < s.items[at].id);
    } else if at < found {
        assert(s.items[at].id < s.items[found].id);
    }
}

/// The to-do store. It starts empty, grows by `create` alone, and never
/// hands out an identifier twice.
pub struct ToDoStore {
    items: Vec<ToDo>,
    next_id: u32,
}

impl View for ToDoStore {
    type V = StoreView;

    closed spec fn view(&self) -> StoreView {
        StoreView { items: self.items.deep_view(), next_id: self.next_id as nat }
    }
}

impl ToDoStore {
    /// Every store is well-formed, wherever it came from.
    #[verifier::type_invariant]
    pub open spec fn inv(&self) -> bool {
        self@.wf()
    }

    /// An empty store whose counter stands at [`FIRST_ID`].
    pub fn new() -> (store: ToDoStore)
        ensures
            store@ == StoreView::empty(),
            store@.wf(),
    {
        let store = ToDoStore { items: Vec::new(), next_id: FIRST_ID };
        assert(store@.items =~= Seq::empty());
        store
    }

    /// A store that holds one sample item, created as any other is.
    pub fn with_sample() -> (store: ToDoStore)
        ensures
            store@ == StoreView::empty().create(SAMPLE_TITLE@, SAMPLE_DESCRIPTION@),
            store@.items.len() == 1,
            store@.wf(),
    {
        proof {
            reveal_strlit("Read Rocket tutorial");
        }
        let mut store = ToDoStore::new();
        let _ = store.create(SAMPLE_TITLE, SAMPLE_DESCRIPTION);
        store
    }

    /// The number of items.
    pub fn len(&self) -> (n: usize)
        ensures
            n == self@.items.len(),
    {
        self.items.len()
    }

    /// The identifier that the next item will get.
    pub fn next_id(&self) -> (id: u32)
        ensures
            id == self@.next_id,
    {
        self.next_id
    }

    /// Whether the counter can still name a new item. It cannot once it has
    /// reached the largest identifier there is.
    pub fn has_room(&self) -> (room: bool)
        ensures
            room == self@.has_room(),
    {
        self.next_id < u32::MAX
    }

    /// Adds an item with the given texts, not done, under the counter's
    /// value, and raises the counter by one. An empty title is turned down
    /// and leaves the store as it was.
    pub fn create(&mut self, title: &str, description: &str) -> (result: Result<ToDo, StoreError>)
        requires
            title@.len() > 0 ==> old(self)@.has_room(),
        ensures
            final(self)@.wf(),
            final(self)@ == old(self)@.create(title@, description@),
            title@.len() == 0 ==> final(self)@ == old(self)@,
            title@.len() == 0 ==> result == Err::<ToDo, StoreError>(StoreError::ValidationError),
            title@.len() > 0 ==> (result matches Ok(item) && item@ == old(self)@.fresh_item(
                title@,
                description@,
            )),
    {
        proof {
            use_type_invariant(&*self);
        }
        if title.is_empty() {
            return Err(StoreError::ValidationError);
        }
        let id: u32 = self.next_id;
        let item = ToDo::new(id, title, description);
        let copy = item.clone();
        // The list leaves the store while it grows, so that the store is
        // whole at every step: empty in between, then one item longer.
        let mut items: Vec<ToDo> = Vec::new();
        core::mem::swap(&mut self.items, &mut items);
        items.push(item);
        self.next_id = id + 1;
        proof {
            let grown = StoreView { items: items.deep_view(), next_id: self.next_id as nat };
            assert(grown.items =~= old(self)@.items.push(item@));
            assert(grown.wf());
        }
        core::mem::swap(&mut self.items, &mut items);
        Ok(copy)
    }

    /// A copy of all items in the order of their creation.
    pub fn list(&self) -> (snapshot: Vec<ToDo>)
        ensures
            snapshot.deep_view() == self@.items,
    {
        let mut snapshot: Vec<ToDo> = Vec::new();
        let mut i: usize = 0;
        while i < self.items.len()
            invariant
                0 <= i <= self.items.len(),
                snapshot.len() == i,
                forall|k: int| 0 <= k < i ==> (#[trigger] snapshot[k])@ == self.items[k]@,
            decreases self.items.len() - i,
        {
            snapshot.push(self.items[i].clone());
            i += 1;
        }
        assert(snapshot.deep_view() =~= self@.items);
        snapshot
    }

    /// A copy of the item that carries `id`.
    pub fn get_by_id(&self, id: u32) -> (result: Result<ToDo, StoreError>)
        ensures
            match result {
                Ok(item) => self@.lookup(id) == Some(item@),
                Err(e) => e == StoreError::NotFound && self@.lookup(id).is_none(),
            },
    {
        proof {
            use_type_invariant(self);
        }
        let mut i: usize = 0;
        while i < self.items.len()
            invariant
                0 <= i <= self.items.len(),
                self@.wf(),
                forall|k: int| 0 <= k < i ==> (#[trigger] self@.items[k]).id != id,
            decreases self.items.len() - i,
        {
            if self.items[i].id == id {
                proof {
                    lemma_lookup_at(self@, i as int);
                }
                return Ok(self.items[i].clone());
            }
            i += 1;
        }
        Err(StoreError::NotFound)
    }

    /// Sets the completion flag of the item that carries `id`, and touches
    /// nothing else.
    pub fn set_done(&mut self, id: u32, done: bool) -> (result: Result<(), StoreError>)
        ensures
            final(self)@.wf(),
            final(self)@ == old(self)@.set_done(id, done),
            old(self)@.has_id(id) ==> result.is_ok(),
            !old(self)@.has_id(id) ==> result == Err::<(), StoreError>(StoreError::NotFound),
    {
        proof {
            use_type_invariant(&*self);
        }
        let mut i: usize = 0;
        while i < self.items.len()
            invariant
                0 <= i <= self.items.len(),
                *self == *old(self),
                self@.wf(),
                forall|k: int| 0 <= k < i ==> (#[trigger] self@.items[k]).id != id,
            decreases self.items.len() - i,
        {
            if self.items[i].id == id {
                proof {
                    lemma_lookup_at(self@, i as int);
                }
                let mut items: Vec<ToDo> = Vec::new();
                core::mem::swap(&mut self.items, &mut items);
                items[i].done = done;
                proof {
                    let changed = StoreView {
                        items: items.deep_view(),
                        next_id: self.next_id as nat,
                    };
                    assert(changed.items =~= old(self)@.items.update(
                        i as int,
                        ToDoView { done, ..old(self)@.items[i as int] },
                    ));
                    assert(changed.wf());
                }
                core::mem::swap(&mut self.items, &mut items);
                return Ok(());
            }
            i += 1;
        }
        Err(StoreError::NotFound)
    }
}

} // verus!
