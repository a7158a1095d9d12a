//! What a handler answers: a status and a body.

use vstd::prelude::*;

verus! {

/// The HTTP statuses that the service answers with (`Success` is 200 OK).
#[derive(Clone, Copy, Debug, PartialEq, Eq, Structural)]
pub enum Status {
    Success,
    BadRequest,
    Unauthorized,
    Forbidden,
    NotFound,
    Conflict,
    InternalServerError,
}

/// A value in a JSON object body.
#[derive(Debug)]
pub enum JsonValue {
    Text(String),
    List(Vec<String>),
}

/// A JSON value by the characters of its strings.
pub enum JsonValueView {
    Text(Seq<char>),
    List(Seq<Seq<char>>),
}

/// The listing of one entry of the upload directory.
#[derive(Debug)]
pub struct FileMeta {
    pub filename: String,
    pub size: u64,
    pub path: String,
}

/// A body of a reply.
#[derive(Debug)]
pub enum Body {
    /// Plain text.
    Text(String),
    /// A JSON object with these members, in this order.
    Json(Vec<(String, JsonValue)>),
    /// A JSON array of strings.
    Names(Vec<String>),
    /// A JSON array of file listings.
    Files(Vec<FileMeta>),
    /// The bytes of the file that was read, sent as an octet stream with this
    /// `Content-Disposition` header.
    Download(String),
}

/// A body by the characters of its strings.
pub enum BodyView {
    Text(Seq<char>),
    Json(Seq<(Seq<char>, JsonValueView)>),
    Names(Seq<Seq<char>>),
    Files(Seq<(Seq<char>, u64, Seq<char>)>),
    Download(Seq<char>),
}

/// A reply to a request.
#[derive(Debug)]
pub struct Reply {
    pub status: Status,
    pub body: Body,
}

/// A reply by the characters of its strings.
pub struct ReplyView {
    pub status: Status,
    pub body: BodyView,
}

/// A list of strings by their characters.
pub open spec fn strings_view(v: Seq<String>) -> Seq<Seq<char>> {
    v.map_values(|s: String| s@)
}

impl View for JsonValue {
    type V = JsonValueView;

    open spec fn view(&self) -> JsonValueView {
        match self {
            JsonValue::Text(s) => JsonValueView::Text(s@),
            JsonValue::List(v) => JsonValueView::List(strings_view(v@)),
        }
    }
}

impl View for FileMeta {
    type V = (Seq<char>, u64, Seq<char>);

    open spec fn view(&self) -> (Seq<char>, u64, Seq<char>) {
        (self.filename@, self.size, self.path@)
    }
}

impl View for Body {
    type V = BodyView;

    open spec fn view(&self) -> BodyView {
        match self {
            Body::Text(s) => BodyView::Text(s@),
            Body::Json(members) => BodyView::Json(
                members@.map_values(|m: (String, JsonValue)| (m.0@, m.1@)),
            ),
            Body::Names(v) => BodyView::Names(strings_view(v@)),
            Body::Files(v) => BodyView::Files(v@.map_values(|f: FileMeta| f@)),
            Body::Download(d) => BodyView::Download(d@),
        }
    }
}

impl View for Reply {
    type V = ReplyView;

    open spec fn view(&self) -> ReplyView {
        ReplyView { status: self.status, body: self.body@ }
    }
}

/// A reply with a text body.
pub open spec fn text_reply(status: Status, text: Seq<char>) -> ReplyView {
    ReplyView { status, body: BodyView::Text(text) }
}

/// A reply with a JSON object body of one text member.
pub open spec fn json_reply(status: Status, key: Seq<char>, value: Seq<char>) -> ReplyView {
    ReplyView { status, body: BodyView::Json(seq![(key, JsonValueView::Text(value))]) }
}

impl Reply {
    /// A reply whose body is `text`.
    pub fn text(status: Status, text: &str) -> (r: Reply)
        ensures
            r@ == text_reply(status, text@),
    {
        Reply { status, body: Body::Text(String::from_str(text)) }
    }

    /// A reply whose body is the text that `text` holds.
    pub fn owned_text(status: Status, text: String) -> (r: Reply)
        ensures
            r@ == text_reply(status, text@),
    {
        Reply { status, body: Body::Text(text) }
    }

    /// A reply whose body is a JSON object with one text member.
    pub fn json_text(status: Status, key: &str, value: String) -> (r: Reply)
        ensures
            r@ == json_reply(status, key@, value@),
    {
        let mut members: Vec<(String, JsonValue)> = Vec::new();
        members.push((String::from_str(key), JsonValue::Text(value)));
        let r = Reply { status, body: Body::Json(members) };
        proof {
            assert(members@.map_values(|m: (String, JsonValue)| (m.0@, m.1@)) =~= seq![
                (key@, JsonValueView::Text(value@)),
            ]);
        }
        r
    }
}

} // verus!
