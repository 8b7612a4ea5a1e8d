//! The ways a read of the catalogue fails, and what a client is told of them.

use crate::date::DateError;
use vstd::prelude::*;
use vstd::string::StringExecFns;

verus! {

/// Why a query gave no result.
#[derive(Debug, Clone)]
pub enum QueryError {
    /// A query that was to give one row gave none.
    RowNotFound,
    /// A stored value could not be read as what it stands for.
    Decode(DateError),
    /// Any other failure of the storage, with its description.
    Other(String),
}

/// What a query error is.
pub enum QueryErrorView {
    RowNotFound,
    Decode(DateError),
    Other(Seq<char>),
}

impl View for QueryError {
    type V = QueryErrorView;

    open spec fn view(&self) -> QueryErrorView {
        match self {
            QueryError::RowNotFound => QueryErrorView::RowNotFound,
            QueryError::Decode(e) => QueryErrorView::Decode(*e),
            QueryError::Other(text) => QueryErrorView::Other(text@),
        }
    }
}

/// The words for a date error.
pub open spec fn date_error_text(error: DateError) -> Seq<char> {
    match error {
        DateError::Malformed => "input contains invalid characters"@,
        DateError::OutOfRange => "input is out of range"@,
    }
}

/// The words for a query error.
pub open spec fn query_error_text(error: QueryErrorView) -> Seq<char> {
    match error {
        QueryErrorView::RowNotFound =>
            "no rows returned by a query that expected to return at least one row"@,
        QueryErrorView::Decode(e) => "error occurred while decoding: "@ + date_error_text(e),
        QueryErrorView::Other(text) => text,
    }
}

/// Says in words why a text is not a date.
pub fn date_error_message(error: DateError) -> (text: String)
    ensures
        text@ == date_error_text(error),
{
    match error {
        DateError::Malformed => "input contains invalid characters".to_owned(),
        DateError::OutOfRange => "input is out of range".to_owned(),
    }
}

impl QueryError {
    /// Says in words what went wrong.
    pub fn description(&self) -> (text: String)
        ensures
            text@ == query_error_text(self@),
    {
        match self {
            QueryError::RowNotFound =>
                "no rows returned by a query that expected to return at least one row".to_owned(),
            QueryError::Decode(e) => {
                let mut text = "error occurred while decoding: ".to_owned();
                let detail = date_error_message(*e);
                text.append(detail.as_str());
                text
            },
            QueryError::Other(text) => text.clone(),
        }
    }
}

/// What a client of the server is told when a request fails.
#[derive(Debug, Clone)]
pub enum ServerError {
    /// There is no such thing as was asked for.
    NotFound,
    /// Something else went wrong; the text describes it.
    InternalError(String),
}

/// What a server error is.
pub enum ServerErrorView {
    NotFound,
    InternalError(Seq<char>),
}

impl View for ServerError {
    type V = ServerErrorView;

    open spec fn view(&self) -> ServerErrorView {
        match self {
            ServerError::NotFound => ServerErrorView::NotFound,
            ServerError::InternalError(text) => ServerErrorView::InternalError(text@),
        }
    }
}

/// The server error that a query error becomes: a missing row is "not
/// found", everything else an internal error with its description.
pub open spec fn server_error_of(error: QueryErrorView) -> ServerErrorView {
    match error {
        QueryErrorView::RowNotFound => ServerErrorView::NotFound,
        _ => ServerErrorView::InternalError(query_error_text(error)),
    }
}

/// The HTTP status that goes with a server error.
pub open spec fn status_of(error: ServerErrorView) -> int {
    match error {
        ServerErrorView::NotFound => 404,
        ServerErrorView::InternalError(_) => 500,
    }
}

/// The body that goes with a server error.
pub open spec fn body_of(error: ServerErrorView) -> Seq<char> {
    match error {
        ServerErrorView::NotFound => Seq::empty(),
        ServerErrorView::InternalError(text) => text,
    }
}

/// Only a missing row is answered with "not found" and status 404; every
/// other failure is an internal error with status 500, so that the two stay
/// apart up to the client.
pub proof fn lemma_only_a_missing_row_is_not_found(error: QueryErrorView)
    ensures
        server_error_of(error) is NotFound <==> error is RowNotFound,
        status_of(server_error_of(error)) == if error is RowNotFound {
            404int
        } else {
            500int
        },
{
}

/// A status line and a body, ready to be sent.
#[derive(Debug, Clone, PartialEq, Eq)]
pub struct Response {
    pub status: u16,
    pub body: String,
}

/// The conversion is stated on what the two errors are, by the `ensures` of
/// `from`: the text of an internal error is built anew, so nothing is claimed
/// of the value beyond its view.
impl vstd::std_specs::convert::FromSpecImpl<QueryError> for ServerError {
    open spec fn obeys_from_spec() -> bool {
        false
    }

    open spec fn from_spec(error: QueryError) -> ServerError {
        match error {
            QueryError::Other(text) => ServerError::InternalError(text),
            _ => ServerError::NotFound,
        }
    }
}

impl From<QueryError> for ServerError {
    fn from(error: QueryError) -> (mapped: ServerError)
        ensures
            mapped@ == server_error_of(error@),
    {
        match error {
            QueryError::RowNotFound => ServerError::NotFound,
            other => ServerError::InternalError(other.description()),
        }
    }
}

impl ServerError {
    /// The HTTP status to answer with.
    pub fn status_code(&self) -> (status: u16)
        ensures
            status == status_of(self@),
    {
        match self {
            ServerError::NotFound => 404,
            ServerError::InternalError(_) => 500,
        }
    }

    /// The answer to send: status 404 and nothing else, or status 500 and the
    /// description.
    pub fn into_response(self) -> (response: Response)
        ensures
            response.status == status_of(self@),
            response.body@ == body_of(self@),
    {
        match self {
            ServerError::NotFound => Response { status: 404, body: String::new() },
            ServerError::InternalError(text) => Response { status: 500, body: text },
        }
    }
}

} // verus!
