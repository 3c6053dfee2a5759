use vstd::prelude::*;

verus! {

/// One answered row of a response: a value on the X axis, optionally one on
/// the Y axis, and the value chosen for that row.
#[derive(Debug)]
pub struct Selection {
    pub x: String,
    pub y: Option<String>,
    pub selection: String,
}

/// One respondent's submission to a poll.
#[derive(Debug)]
pub struct PollResponse {
    pub name: String,
    pub selections: Vec<Selection>,
}

/// A poll: its identifier, its text, the categories of its axes, and the
/// responses given to it so far, oldest first.
#[derive(Debug)]
pub struct Poll {
    pub id: String,
    pub title: String,
    pub description: String,
    pub x: Vec<String>,
    pub y: Option<Vec<String>>,
    pub responses: Vec<PollResponse>,
}

/// The mathematical value of a [`Selection`].
pub struct SelectionView {
    pub x: Seq<char>,
    pub y: Option<Seq<char>>,
    pub selection: Seq<char>,
}

/// The mathematical value of a [`PollResponse`].
pub struct ResponseView {
    pub name: Seq<char>,
    pub selections: Seq<SelectionView>,
}

/// The mathematical value of a [`Poll`].
pub struct PollView {
    pub id: Seq<char>,
    pub title: Seq<char>,
    pub description: Seq<char>,
    pub x: Seq<Seq<char>>,
    pub y: Option<Seq<Seq<char>>>,
    pub responses: Seq<ResponseView>,
}

impl View for Selection {
    type V = SelectionView;

    open spec fn view(&self) -> SelectionView {
        SelectionView { x: self.x@, y: self.y.deep_view(), selection: self.selection@ }
    }
}

impl View for PollResponse {
    type V = ResponseView;

    open spec fn view(&self) -> ResponseView {
        ResponseView {
            name: self.name@,
            selections: self.selections@.map_values(|s: Selection| s@),
        }
    }
}

impl View for Poll {
    type V = PollView;

    open spec fn view(&self) -> PollView {
        PollView {
            id: self.id@,
            title: self.title@,
            description: self.description@,
            x: self.x.deep_view(),
            y: self.y.deep_view(),
            responses: self.responses@.map_values(|r: PollResponse| r@),
        }
    }
}

/// A poll as it stands right after creation: the given fields and no
/// responses.
pub open spec fn fresh_poll(
    id: Seq<char>,
    title: Seq<char>,
    description: Seq<char>,
    x: Seq<Seq<char>>,
    y: Option<Seq<Seq<char>>>,
) -> PollView {
    PollView { id, title, description, x, y, responses: Seq::empty() }
}

/// The same poll with one more response at the end.
pub open spec fn with_response(p: PollView, r: ResponseView) -> PollView {
    PollView { responses: p.responses.push(r), ..p }
}

impl PollResponse {
    /// A response from `name` with the given selections, in order.
    pub fn new(name: String, selections: Vec<Selection>) -> (r: PollResponse)
        ensures
            r.name == name,
            r.selections == selections,
    {
        PollResponse { name, selections }
    }
}

impl Poll {
    /// A poll with the given fields and no responses.
    pub fn new(
        id: String,
        title: String,
        description: String,
        x: Vec<String>,
        y: Option<Vec<String>>,
    ) -> (r: Poll)
        ensures
            r@ == fresh_poll(id@, title@, description@, x.deep_view(), y.deep_view()),
    {
        let r = Poll { id, title, description, x, y, responses: Vec::new() };
        assert(r@.responses =~= Seq::empty());
        r
    }
}

} // verus!
