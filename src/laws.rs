//! Facts about sequences of store operations, stated over the models that
//! the operations' contracts use.
use vstd::prelude::*;

use crate::poll::{fresh_poll, with_response, PollView, ResponseView};
use crate::store::{append_to, find, holds_id, ids_of, ids_unique, PollStore};

verus! {

/// One successful or failed mutation of the store, as its contract records
/// it: a poll offered for creation, or a response offered to an id.
pub enum StoreEvent {
    Create(PollView),
    Respond(Seq<char>, ResponseView),
}

/// The effect of one event: a created poll is added where its id is new,
/// a response is appended where its id is held; otherwise nothing changes.
pub open spec fn step(polls: Seq<PollView>, e: StoreEvent) -> Seq<PollView> {
    match e {
        StoreEvent::Create(p) => if holds_id(polls, p.id) {
            polls
        } else {
            polls.push(p)
        },
        StoreEvent::Respond(id, r) => if holds_id(polls, id) {
            append_to(polls, id, r)
        } else {
            polls
        },
    }
}

/// The store after the events `es`, from an empty store.
pub open spec fn replay(es: Seq<StoreEvent>) -> Seq<PollView>
    decreases es.len(),
{
    if es.len() == 0 {
        Seq::empty()
    } else {
        step(replay(es.drop_last()), es.last())
    }
}

/// The ids handed back by the creations among `es` that succeeded, in order.
pub open spec fn created_ids(es: Seq<StoreEvent>) -> Seq<Seq<char>>
    decreases es.len(),
{
    if es.len() == 0 {
        Seq::empty()
    } else {
        let before = created_ids(es.drop_last());
        match es.last() {
            StoreEvent::Create(p) => if holds_id(replay(es.drop_last()), p.id) {
                before
            } else {
                before.push(p.id)
            },
            StoreEvent::Respond(_, _) => before,
        }
    }
}

/// `polls` after the responses `rs` are appended, in order, to the poll
/// with id `id`.
pub open spec fn append_each(polls: Seq<PollView>, id: Seq<char>, rs: Seq<ResponseView>) -> Seq<
    PollView,
>
    decreases rs.len(),
{
    if rs.len() == 0 {
        polls
    } else {
        append_to(append_each(polls, id, rs.drop_last()), id, rs.last())
    }
}

/// The responses that the events `es` leave on the poll with id `id`: those
/// it was created with, then each response that reached it, in order.
pub open spec fn responses_to(es: Seq<StoreEvent>, id: Seq<char>) -> Seq<ResponseView>
    decreases es.len(),
{
    if es.len() == 0 {
        Seq::empty()
    } else {
        let prev = es.drop_last();
        let before = responses_to(prev, id);
        match es.last() {
            StoreEvent::Create(p) => if p.id == id && !holds_id(replay(prev), id) {
                p.responses
            } else {
                before
            },
            StoreEvent::Respond(j, r) => if j == id && holds_id(replay(prev), id) {
                before.push(r)
            } else {
                before
            },
        }
    }
}

/// Where ids are unique, the poll found under an id is the one that has it.
pub proof fn lemma_find_at(polls: Seq<PollView>, id: Seq<char>, i: int)
    requires
        ids_unique(polls),
        0 <= i < polls.len(),
        polls[i].id == id,
    ensures
        holds_id(polls, id),
        find(polls, id) == Some(polls[i]),
{
    let k = choose|k: int| 0 <= k < polls.len() && #[trigger] polls[k].id == id;
    assert(polls[k].id == polls[i].id);
}

/// Unique ids are exactly ids without duplicates.
pub proof fn lemma_unique_ids_no_duplicates(polls: Seq<PollView>)
    ensures
        ids_unique(polls) <==> ids_of(polls).no_duplicates(),
{
    if ids_unique(polls) {
        assert forall|i: int, j: int|
            0 <= i < ids_of(polls).len() && 0 <= j < ids_of(polls).len() && i != j implies ids_of(
            polls,
        )[i] != ids_of(polls)[j] by {
            assert(polls[i].id != polls[j].id);
        }
    }
    if ids_of(polls).no_duplicates() {
        assert forall|i: int, j: int|
            0 <= i < polls.len() && 0 <= j < polls.len() && i != j implies #[trigger] polls[i].id
            != #[trigger] polls[j].id by {
            assert(ids_of(polls)[i] != ids_of(polls)[j]);
        }
    }
}

/// Appending a response changes no id and keeps every poll in its place.
pub proof fn lemma_append_keeps_ids(polls: Seq<PollView>, id: Seq<char>, r: ResponseView)
    ensures
        ids_of(append_to(polls, id, r)) == ids_of(polls),
        ids_unique(polls) ==> ids_unique(append_to(polls, id, r)),
        holds_id(append_to(polls, id, r), id) == holds_id(polls, id),
{
    let after = append_to(polls, id, r);
    assert(ids_of(after) =~= ids_of(polls));
    if holds_id(polls, id) {
        let i = choose|i: int| 0 <= i < polls.len() && #[trigger] polls[i].id == id;
        assert(after[i].id == id);
    }
    if holds_id(after, id) {
        let i = choose|i: int| 0 <= i < after.len() && #[trigger] after[i].id == id;
        assert(polls[i].id == id);
    }
}

/// Every id that a creation hands back differs from every id handed back
/// before it, and the store holds exactly the ids handed back, in the order
/// of creation, with no duplicates and no omissions, whatever responses were
/// appended in between.
pub proof fn lemma_replay_ids(es: Seq<StoreEvent>)
    ensures
        ids_of(replay(es)) == created_ids(es),
        created_ids(es).no_duplicates(),
        ids_unique(replay(es)),
    decreases es.len(),
{
    if es.len() == 0 {
        assert(ids_of(replay(es)) =~= created_ids(es));
    } else {
        let prev = es.drop_last();
        lemma_replay_ids(prev);
        let polls = replay(prev);
        match es.last() {
            StoreEvent::Create(p) => {
                if !holds_id(polls, p.id) {
                    assert(ids_of(polls.push(p)) =~= ids_of(polls).push(p.id));
                    assert forall|i: int, j: int|
                        0 <= i < polls.push(p).len() && 0 <= j < polls.push(p).len() && i
                            != j implies #[trigger] polls.push(p)[i].id != #[trigger] polls.push(
                        p,
                    )[j].id by {
                        if i == polls.len() {
                            assert(polls[j].id != p.id);
                        } else if j == polls.len() {
                            assert(polls[i].id != p.id);
                        }
                    }
                }
            },
            StoreEvent::Respond(id, r) => {
                if holds_id(polls, id) {
                    lemma_append_keeps_ids(polls, id, r);
                }
            },
        }
        lemma_unique_ids_no_duplicates(replay(es));
    }
}

/// A poll just created is found under its id, with the given fields and no
/// responses.
pub proof fn lemma_created_poll_visible(
    polls: Seq<PollView>,
    id: Seq<char>,
    title: Seq<char>,
    description: Seq<char>,
    x: Seq<Seq<char>>,
    y: Option<Seq<Seq<char>>>,
)
    requires
        ids_unique(polls),
        !holds_id(polls, id),
    ensures
        find(polls.push(fresh_poll(id, title, description, x, y)), id) == Some(
            fresh_poll(id, title, description, x, y),
        ),
        find(polls.push(fresh_poll(id, title, description, x, y)), id).unwrap().responses.len()
            == 0,
{
    let p = fresh_poll(id, title, description, x, y);
    let after = polls.push(p);
    assert(after[polls.len() as int].id == id);
    let k = choose|k: int| 0 <= k < after.len() && #[trigger] after[k].id == id;
    if k < polls.len() {
        assert(polls[k].id == id);
    }
}

/// Appending one response to the poll with id `id` leaves that poll found
/// under its id with the response at the end of its responses.
pub proof fn lemma_append_one(polls: Seq<PollView>, id: Seq<char>, r: ResponseView)
    requires
        ids_unique(polls),
        holds_id(polls, id),
    ensures
        ids_unique(append_to(polls, id, r)),
        holds_id(append_to(polls, id, r), id),
        find(append_to(polls, id, r), id) == Some(with_response(find(polls, id).unwrap(), r)),
{
    lemma_append_keeps_ids(polls, id, r);
    let after = append_to(polls, id, r);
    let i = choose|i: int| 0 <= i < polls.len() && #[trigger] polls[i].id == id;
    let k = choose|k: int| 0 <= k < after.len() && #[trigger] after[k].id == id;
    assert(after[i].id == id);
    assert(k == i);
}

/// After the responses `rs` are appended one by one to the poll with id
/// `id`, that poll holds its earlier responses followed by exactly `rs`, in
/// the order of the calls; nothing else about it changes.
pub proof fn lemma_appends_in_order(polls: Seq<PollView>, id: Seq<char>, rs: Seq<ResponseView>)
    requires
        ids_unique(polls),
        holds_id(polls, id),
    ensures
        ids_unique(append_each(polls, id, rs)),
        holds_id(append_each(polls, id, rs), id),
        find(append_each(polls, id, rs), id) == Some(
            PollView { responses: find(polls, id).unwrap().responses + rs, ..find(polls, id).unwrap() },
        ),
    decreases rs.len(),
{
    let start = find(polls, id).unwrap();
    if rs.len() == 0 {
        assert(start.responses + rs =~= start.responses);
    } else {
        let prev = append_each(polls, id, rs.drop_last());
        lemma_appends_in_order(polls, id, rs.drop_last());
        lemma_append_one(prev, id, rs.last());
        assert(start.responses + rs =~= (start.responses + rs.drop_last()).push(rs.last()));
    }
}

/// An id that no poll has is not found, and appending to it changes
/// nothing.
pub proof fn lemma_unknown_id(polls: Seq<PollView>, id: Seq<char>, r: ResponseView)
    requires
        !holds_id(polls, id),
    ensures
        find(polls, id) is None,
        append_to(polls, id, r) == polls,
        step(polls, StoreEvent::Respond(id, r)) == polls,
{
    assert forall|i: int| 0 <= i < polls.len() implies polls[i].id != id by {}
    assert(append_to(polls, id, r) =~= polls);
}


/// What one more event does: to the polls, to the ids handed back (only a
/// creation that took effect adds its id, at the end), and to the responses
/// counted for `id` (only a response that reached that poll is added, at the
/// end).
pub proof fn lemma_history_step(es: Seq<StoreEvent>, e: StoreEvent, id: Seq<char>)
    ensures
        replay(es.push(e)) == step(replay(es), e),
        created_ids(es.push(e)) == match e {
            StoreEvent::Create(p) => if holds_id(replay(es), p.id) {
                created_ids(es)
            } else {
                created_ids(es).push(p.id)
            },
            StoreEvent::Respond(_, _) => created_ids(es),
        },
        responses_to(es.push(e), id) == match e {
            StoreEvent::Create(p) => if p.id == id && !holds_id(replay(es), id) {
                p.responses
            } else {
                responses_to(es, id)
            },
            StoreEvent::Respond(j, r) => if j == id && holds_id(replay(es), id) {
                responses_to(es, id).push(r)
            } else {
                responses_to(es, id)
            },
        },
{
    assert(es.push(e).drop_last() =~= es);
}

/// On every store, the polls listed carry exactly the ids that the
/// creations of its history handed back, in the order of creation, with no
/// duplicates and no omissions; so each id handed back differs from every
/// id handed back before it.
pub proof fn lemma_store_ids(store: &PollStore)
    requires
        store.wf(),
    ensures
        ids_of(store@) == created_ids(store.history()),
        created_ids(store.history()).no_duplicates(),
{
    lemma_replay_ids(store.history());
}

/// On every store, the poll with id `id` holds the responses it was created
/// with (none, through the store's operations) followed by exactly the
/// responses appended to it, in the order of the calls.
pub proof fn lemma_store_responses(store: &PollStore, id: Seq<char>)
    requires
        store.wf(),
    ensures
        holds_id(store@, id) ==> find(store@, id).unwrap().responses == responses_to(
            store.history(),
            id,
        ),
{
    lemma_replay_responses(store.history(), id);
}

/// The poll with id `id` holds exactly the responses that the events gave
/// it, in the order of the events; while no poll has that id, no response
/// is counted for it.
pub proof fn lemma_replay_responses(es: Seq<StoreEvent>, id: Seq<char>)
    ensures
        holds_id(replay(es), id) ==> find(replay(es), id).unwrap().responses == responses_to(es, id),
        !holds_id(replay(es), id) ==> responses_to(es, id) == Seq::<ResponseView>::empty(),
    decreases es.len(),
{
    if es.len() == 0 {
    } else {
        let prev = es.drop_last();
        lemma_replay_responses(prev, id);
        lemma_replay_ids(prev);
        lemma_replay_ids(es);
        let polls = replay(prev);
        let after = replay(es);
        match es.last() {
            StoreEvent::Create(p) => {
                if !holds_id(polls, p.id) {
                    assert(after == polls.push(p));
                    if p.id == id {
                        lemma_find_at(after, id, polls.len() as int);
                    } else {
                        if holds_id(polls, id) {
                            let i = choose|i: int| 0 <= i < polls.len() && #[trigger] polls[i].id == id;
                            lemma_find_at(polls, id, i);
                            lemma_find_at(after, id, i);
                        }
                        if holds_id(after, id) {
                            let i = choose|i: int| 0 <= i < after.len() && #[trigger] after[i].id == id;
                            assert(polls[i].id == id);
                        }
                    }
                }
            },
            StoreEvent::Respond(j, r) => {
                if holds_id(polls, j) {
                    assert(after == append_to(polls, j, r));
                    if j == id {
                        lemma_append_one(polls, id, r);
                    } else {
                        lemma_append_keeps_ids(polls, j, r);
                        if holds_id(polls, id) {
                            let i = choose|i: int| 0 <= i < polls.len() && #[trigger] polls[i].id == id;
                            lemma_find_at(polls, id, i);
                            lemma_find_at(after, id, i);
                        }
                        if holds_id(after, id) {
                            let i = choose|i: int| 0 <= i < after.len() && #[trigger] after[i].id == id;
                            assert(ids_of(after)[i] == ids_of(polls)[i]);
                            assert(polls[i].id == id);
                        }
                    }
                }
            },
        }
    }
}

} // verus!
