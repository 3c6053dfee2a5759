use vstd::prelude::*;
use vstd::string::StringExecFns;

use crate::laws::{
    lemma_append_one, lemma_created_poll_visible, lemma_history_step, replay, StoreEvent,
};
use crate::poll::{fresh_poll, with_response, Poll, PollResponse, PollView, ResponseView, Selection};

verus! {

/// Why an operation on the store did not take effect.
#[derive(Clone, Copy, Debug, PartialEq, Eq, Structural)]
pub enum PollError {
    /// No poll in the store has the requested id.
    NotFound,
    /// A poll with the id offered for a new poll is already in the store.
    IdTaken,
}

impl PollError {
    /// The message that reports this error for the id `id`.
    pub fn message(&self, id: &str) -> (r: String)
        ensures
            *self == PollError::NotFound ==> r@ == "No poll with id "@ + id@,
            *self == PollError::IdTaken ==> r@ == "A poll already has id "@ + id@,
    {
        let mut r = match self {
            PollError::NotFound => String::from_str("No poll with id "),
            PollError::IdTaken => String::from_str("A poll already has id "),
        };
        r.append(id);
        r
    }
}

/// Some poll of `polls` has the id `id`.
pub open spec fn holds_id(polls: Seq<PollView>, id: Seq<char>) -> bool {
    exists|i: int| 0 <= i < polls.len() && #[trigger] polls[i].id == id
}

/// No two polls of `polls` share an id.
pub open spec fn ids_unique(polls: Seq<PollView>) -> bool {
    forall|i: int, j: int|
        0 <= i < polls.len() && 0 <= j < polls.len() && i != j ==> #[trigger] polls[i].id
            != #[trigger] polls[j].id
}

/// The ids of `polls`, in order.
pub open spec fn ids_of(polls: Seq<PollView>) -> Seq<Seq<char>> {
    polls.map_values(|p: PollView| p.id)
}

/// The poll of `polls` with the id `id`, if there is one.
pub open spec fn find(polls: Seq<PollView>, id: Seq<char>) -> Option<PollView> {
    if holds_id(polls, id) {
        Some(polls[choose|i: int| 0 <= i < polls.len() && #[trigger] polls[i].id == id])
    } else {
        None
    }
}

/// `polls` after `r` is appended to the responses of the poll with id `id`;
/// every other poll stays as it was.
pub open spec fn append_to(polls: Seq<PollView>, id: Seq<char>, r: ResponseView) -> Seq<PollView> {
    polls.map_values(|p: PollView| if p.id == id { with_response(p, r) } else { p })
}

/// `c` is a digit of lower case hexadecimal.
pub open spec fn is_lower_hex_digit(c: char) -> bool {
    ('0' as u32 <= c as u32 <= '9' as u32) || ('a' as u32 <= c as u32 <= 'f' as u32)
}

/// `s` is the hyphenated lower case text of a version 4 UUID: 32 hex digits
/// in groups of 8, 4, 4, 4 and 12 joined by hyphens, with the version digit
/// `4` and a variant digit of `8`, `9`, `a` or `b`.
pub open spec fn is_uuid_v4_text(s: Seq<char>) -> bool {
    &&& s.len() == 36
    &&& forall|i: int|
        0 <= i < 36 ==> if i == 8 || i == 13 || i == 18 || i == 23 {
            #[trigger] s[i] == '-'
        } else {
            is_lower_hex_digit(s[i])
        }
    &&& s[14] == '4'
    &&& (s[19] == '8' || s[19] == '9' || s[19] == 'a' || s[19] == 'b')
}

/// A new identifier for a poll: a random version 4 UUID in its hyphenated
/// form. Relies on `uuid::Uuid::new_v4`, which draws 122 random bits from the
/// operating system and sets the version and variant bits, and on the
/// `Display` of `Uuid`, which writes its 16 bytes, most significant first, as
/// 32 lower case hex digits in groups of 8, 4, 4, 4 and 12 joined by hyphens.
/// Nothing more is promised of the value: two draws may in principle be
/// equal.
#[verifier::external_body]
fn new_poll_id() -> (r: String)
    ensures
        is_uuid_v4_text(r@),
{
    uuid::Uuid::new_v4().to_string()
}

/// The collection of all polls, in the order in which they were created.
/// No two of them share an id. Beside the polls it keeps, as ghost state,
/// the operations that took effect, in order.
pub struct PollStore {
    polls: Vec<Poll>,
    history: Ghost<Seq<StoreEvent>>,
}

impl View for PollStore {
    type V = Seq<PollView>;

    closed spec fn view(&self) -> Seq<PollView> {
        self.polls@.map_values(|p: Poll| p@)
    }
}

impl PollStore {
    /// The creations and responses that took effect on this store, oldest
    /// first.
    pub closed spec fn history(&self) -> Seq<StoreEvent> {
        self.history@
    }

    /// The store's invariant: ids are unique, and the polls are what the
    /// history makes of an empty store.
    pub open spec fn wf(&self) -> bool {
        &&& ids_unique(self@)
        &&& self@ == replay(self.history())
    }

    /// An empty store.
    pub fn new() -> (r: PollStore)
        ensures
            r.wf(),
            r@ == Seq::<PollView>::empty(),
            r.history() == Seq::<StoreEvent>::empty(),
    {
        let r = PollStore { polls: Vec::new(), history: Ghost(Seq::empty()) };
        assert(r@ =~= Seq::<PollView>::empty());
        r
    }

    /// The number of polls in the store.
    pub fn len(&self) -> (r: usize)
        ensures
            r == self@.len(),
    {
        self.polls.len()
    }

    /// Every poll in the store, in the order of creation.
    pub fn list_polls(&self) -> (r: &Vec<Poll>)
        ensures
            r@.map_values(|p: Poll| p@) == self@,
    {
        &self.polls
    }

    /// The position of the poll with id `id`.
    fn index_of(&self, id: &String) -> (r: Option<usize>)
        ensures
            match r {
                Some(i) => i < self@.len() && self@[i as int].id == id@,
                None => !holds_id(self@, id@),
            },
    {
        let mut i: usize = 0;
        while i < self.polls.len()
            invariant
                i <= self.polls@.len(),
                forall|k: int| 0 <= k < i ==> #[trigger] self@[k].id != id@,
            decreases self.polls@.len() - i,
        {
            if self.polls[i].id == *id {
                return Some(i);
            }
            i = i + 1;
        }
        None
    }

    /// Adds a poll with id `id`, the given fields and no responses, at the
    /// end of the store, and returns `id`; fails, changing nothing, where a
    /// poll with that id is already held.
    pub fn insert_poll(
        &mut self,
        id: String,
        title: String,
        description: String,
        x: Vec<String>,
        y: Option<Vec<String>>,
    ) -> (r: Result<String, PollError>)
        requires
            old(self).wf(),
        ensures
            final(self).wf(),
            match r {
                Ok(got) => {
                    &&& got@ == id@
                    &&& !holds_id(old(self)@, id@)
                    &&& final(self)@ == old(self)@.push(
                        fresh_poll(id@, title@, description@, x.deep_view(), y.deep_view()),
                    )
                    &&& find(final(self)@, id@) == Some(
                        fresh_poll(id@, title@, description@, x.deep_view(), y.deep_view()),
                    )
                    &&& final(self).history() == old(self).history().push(
                        StoreEvent::Create(
                            fresh_poll(id@, title@, description@, x.deep_view(), y.deep_view()),
                        ),
                    )
                },
                Err(e) => {
                    &&& e == PollError::IdTaken
                    &&& holds_id(old(self)@, id@)
                    &&& final(self)@ == old(self)@
                    &&& final(self).history() == old(self).history()
                },
            },
    {
        match self.index_of(&id) {
            Some(_) => Err(PollError::IdTaken),
            None => {
                let got = id.clone();
                let poll = Poll::new(id, title, description, x, y);
                let ghost before = self@;
                self.polls.push(poll);
                proof {
                    lemma_history_step(self.history@, StoreEvent::Create(poll@), id@);
                    self.history@ = self.history@.push(StoreEvent::Create(poll@));
                    assert(self@ =~= before.push(poll@));
                    lemma_created_poll_visible(before, id@, title@, description@, x.deep_view(), y.deep_view());
                }
                Ok(got)
            },
        }
    }

    /// Creates a poll with a freshly drawn id, the given fields and no
    /// responses, and returns that id. The id is new to the store: in the
    /// practically impossible case that the drawn value is already held,
    /// nothing changes and `IdTaken` comes back.
    pub fn create_poll(
        &mut self,
        title: String,
        description: String,
        x: Vec<String>,
        y: Option<Vec<String>>,
    ) -> (r: Result<String, PollError>)
        requires
            old(self).wf(),
        ensures
            final(self).wf(),
            (forall|i: int| 0 <= i < old(self)@.len() ==> (#[trigger] old(self)@[i]).id.len() != 36)
                ==> r is Ok,
            match r {
                Ok(id) => {
                    &&& is_uuid_v4_text(id@)
                    &&& !holds_id(old(self)@, id@)
                    &&& final(self)@ == old(self)@.push(
                        fresh_poll(id@, title@, description@, x.deep_view(), y.deep_view()),
                    )
                    &&& find(final(self)@, id@) == Some(
                        fresh_poll(id@, title@, description@, x.deep_view(), y.deep_view()),
                    )
                    &&& final(self).history() == old(self).history().push(
                        StoreEvent::Create(
                            fresh_poll(id@, title@, description@, x.deep_view(), y.deep_view()),
                        ),
                    )
                },
                Err(e) => {
                    &&& e == PollError::IdTaken
                    &&& final(self)@ == old(self)@
                    &&& final(self).history() == old(self).history()
                },
            },
    {
        let id = new_poll_id();
        self.insert_poll(id, title, description, x, y)
    }

    /// Appends a response from `name` with `selections` to the poll with id
    /// `id`; fails with `NotFound`, changing nothing, where no poll has that
    /// id. The selections are stored as given, without any check against
    /// the poll's categories.
    pub fn append_response(&mut self, id: &String, name: String, selections: Vec<Selection>) -> (r:
        Result<(), PollError>)
        requires
            old(self).wf(),
        ensures
            final(self).wf(),
            match r {
                Ok(()) => {
                    &&& holds_id(old(self)@, id@)
                    &&& final(self)@ == append_to(
                        old(self)@,
                        id@,
                        ResponseView { name: name@, selections: selections@.map_values(|s: Selection| s@) },
                    )
                    &&& find(final(self)@, id@) == Some(
                        with_response(
                            find(old(self)@, id@).unwrap(),
                            ResponseView { name: name@, selections: selections@.map_values(|s: Selection| s@) },
                        ),
                    )
                    &&& final(self).history() == old(self).history().push(
                        StoreEvent::Respond(
                            id@,
                            ResponseView { name: name@, selections: selections@.map_values(|s: Selection| s@) },
                        ),
                    )
                },
                Err(e) => {
                    &&& e == PollError::NotFound
                    &&& !holds_id(old(self)@, id@)
                    &&& final(self)@ == old(self)@
                    &&& final(self).history() == old(self).history()
                },
            },
    {
        match self.index_of(id) {
            Some(i) => {
                let response = PollResponse::new(name, selections);
                let ghost before = self@;
                self.polls[i].responses.push(response);
                proof {
                    let rv = response@;
                    let after = self@;
                    assert(after[i as int].responses =~= before[i as int].responses.push(rv));
                    assert forall|k: int| 0 <= k < before.len() && k != i implies before[k].id != id@ by {}
                    assert(after =~= append_to(before, id@, rv));
                    lemma_append_one(before, id@, rv);
                    lemma_history_step(self.history@, StoreEvent::Respond(id@, rv), id@);
                    self.history@ = self.history@.push(StoreEvent::Respond(id@, rv));
                }
                Ok(())
            },
            None => Err(PollError::NotFound),
        }
    }

    /// The poll with id `id`, with all its responses.
    pub fn get_poll(&self, id: &String) -> (r: Result<&Poll, PollError>)
        requires
            self.wf(),
        ensures
            r is Ok <==> holds_id(self@, id@),
            match r {
                Ok(p) => find(self@, id@) == Some(p@),
                Err(e) => e == PollError::NotFound && find(self@, id@) is None,
            },
    {
        match self.index_of(id) {
            Some(i) => {
                let p = &self.polls[i];
                proof {
                    let k = choose|k: int| 0 <= k < self@.len() && #[trigger] self@[k].id == id@;
                    assert(self@[k].id == self@[i as int].id);
                }
                Ok(p)
            },
            None => Err(PollError::NotFound),
        }
    }
}

} // verus!
