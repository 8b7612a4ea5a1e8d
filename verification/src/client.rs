//! The front end's side of the talk with the server: where it asks, and what
//! it makes of an answer before it reads the body.

use crate::text::{decimal, decimal_text};
use vstd::prelude::*;
use vstd::string::StringExecFns;

verus! {

/// Why the front end got nothing from the server.
#[derive(Debug)]
pub enum BackendError {
    /// The request failed, or was answered with an error status.
    Reqwest { status: Option<u16>, description: String },
    /// The answer is of another content type than JSON, or of none.
    UnknownContentType(Option<String>),
    /// The body of the answer is not the JSON that was asked for.
    Json(String),
}

impl vstd::std_specs::convert::FromSpecImpl<Option<String>> for BackendError {
    open spec fn obeys_from_spec() -> bool {
        true
    }

    open spec fn from_spec(value: Option<String>) -> BackendError {
        BackendError::UnknownContentType(value)
    }
}

impl From<Option<String>> for BackendError {
    fn from(value: Option<String>) -> (error: BackendError) {
        BackendError::UnknownContentType(value)
    }
}

/// The server that the front end asks.
#[derive(Debug)]
pub struct Backend {
    pub host: String,
    pub port: u16,
}

/// The address of `path` on the server at `host` and `port`.
pub open spec fn url_text(host: Seq<char>, port: int, path: Seq<char>) -> Seq<char> {
    "http://"@ + host + ":"@ + decimal(port) + path
}

/// The path of the endpoint of one recipe.
pub open spec fn recipe_endpoint_text(id: int) -> Seq<char> {
    "/api/recipes/"@ + decimal(id)
}

/// Whether an answer with this content type is taken for JSON.
pub open spec fn is_json(content_type: Option<Seq<char>>) -> bool {
    content_type == Some("application/json"@)
}

/// The content type of an answer, as text or none.
pub open spec fn content_type_view(content_type: Option<&str>) -> Option<Seq<char>> {
    match content_type {
        Some(text) => Some(text@),
        None => None,
    }
}

/// The path of the endpoint of the index.
pub fn recipe_listing_endpoint() -> (path: String)
    ensures
        path@ == "/api/recipes"@,
{
    "/api/recipes".to_owned()
}

/// The path of the endpoint of the recipe `id`.
pub fn recipe_endpoint(id: i64) -> (path: String)
    ensures
        path@ == recipe_endpoint_text(id as int),
{
    let mut path = "/api/recipes/".to_owned();
    let number = decimal_text(id);
    path.append(number.as_str());
    path
}

/// Accepts an answer whose content type is `application/json`, and refuses
/// every other with the content type it has.
pub fn check_content_type(content_type: Option<&str>) -> (checked: Result<(), BackendError>)
    ensures
        checked is Ok <==> is_json(content_type_view(content_type)),
        checked matches Err(error) ==> (match content_type {
            None => error matches BackendError::UnknownContentType(None),
            Some(text) => error matches BackendError::UnknownContentType(Some(found)) && found@
                == text@,
        }),
{
    match content_type {
        None => Err(BackendError::UnknownContentType(None)),
        Some(text) => {
            let found = text.to_owned();
            let json = "application/json".to_owned();
            if found == json {
                Ok(())
            } else {
                Err(BackendError::UnknownContentType(Some(found)))
            }
        },
    }
}

impl Backend {
    /// The server at `host` and `port`.
    pub fn new(host: String, port: u16) -> (backend: Backend)
        ensures
            backend.host == host,
            backend.port == port,
    {
        Backend { host, port }
    }

    /// The address of `path` on the server.
    pub fn format_url(&self, path: &str) -> (url: String)
        ensures
            url@ == url_text(self.host@, self.port as int, path@),
    {
        let mut url = "http://".to_owned();
        url.append(self.host.as_str());
        url.append(":");
        let port = decimal_text(self.port as i64);
        url.append(port.as_str());
        url.append(path);
        url
    }
}

} // verus!
