//! What the front end shows when something goes wrong, and which recipe a
//! page address stands for.

use crate::client::BackendError;
use crate::layout::{title_with_status, Layout};
use crate::models::{text_option_view, Recipe};
use crate::slug::{is_slug_of, kebab_case, slug_id, slug_id_of, slug_text};
use crate::text::{decimal, decimal_text};
use vstd::prelude::*;
use vstd::string::StringExecFns;

verus! {

/// Why a page cannot be shown.
#[derive(Debug)]
pub enum AppError {
    /// There is no such page.
    NotFound,
    /// Something else went wrong: `generic` is for the visitor, `detailed`
    /// for the log.
    Internal { generic: String, detailed: Option<String> },
}

/// What an error of the front end is.
pub enum AppErrorView {
    NotFound,
    Internal { generic: Seq<char>, detailed: Option<Seq<char>> },
}

impl View for AppError {
    type V = AppErrorView;

    open spec fn view(&self) -> AppErrorView {
        match self {
            AppError::NotFound => AppErrorView::NotFound,
            AppError::Internal { generic, detailed } => AppErrorView::Internal {
                generic: generic@,
                detailed: text_option_view(*detailed),
            },
        }
    }
}

/// The words for the visitor when something went wrong on the way to the
/// server.
pub open spec fn generic_text() -> Seq<char> {
    "We ran into an unexpected_problem."@
}

/// The error of the front end that a failed request becomes: an answer with
/// status 404 means that there is no such page, everything else is an
/// internal error.
pub open spec fn app_error_of(error: BackendError) -> AppErrorView {
    match error {
        BackendError::Reqwest { status, description } => if status == Some(404u16) {
            AppErrorView::NotFound
        } else {
            AppErrorView::Internal { generic: generic_text(), detailed: Some(description@) }
        },
        BackendError::UnknownContentType(found) => AppErrorView::Internal {
            generic: generic_text(),
            detailed: text_option_view(found),
        },
        BackendError::Json(description) => AppErrorView::Internal {
            generic: generic_text(),
            detailed: Some(description@),
        },
    }
}

/// The conversion is stated on what the errors are, by the `ensures` of
/// `from`.
impl vstd::std_specs::convert::FromSpecImpl<BackendError> for AppError {
    open spec fn obeys_from_spec() -> bool {
        false
    }

    open spec fn from_spec(error: BackendError) -> AppError {
        AppError::NotFound
    }
}

impl From<BackendError> for AppError {
    fn from(error: BackendError) -> (mapped: AppError)
        ensures
            mapped@ == app_error_of(error),
    {
        match error {
            BackendError::Reqwest { status, description } => {
                let not_found = match status {
                    Some(code) => code == 404,
                    None => false,
                };
                if not_found {
                    AppError::NotFound
                } else {
                    AppError::Internal {
                        generic: "We ran into an unexpected_problem.".to_owned(),
                        detailed: Some(description),
                    }
                }
            },
            BackendError::UnknownContentType(found) => AppError::Internal {
                generic: "We ran into an unexpected_problem.".to_owned(),
                detailed: found,
            },
            BackendError::Json(description) => AppError::Internal {
                generic: "We ran into an unexpected_problem.".to_owned(),
                detailed: Some(description),
            },
        }
    }
}

/// An error together with the frame of the page that reports it.
#[derive(Debug)]
pub struct ErrorResponse {
    pub layout: Layout,
    pub error: AppError,
}

/// An error that can be given the frame of its page.
pub trait ErrorWithLayout {
    fn with_layout(self, layout: &Layout) -> ErrorResponse;
}

impl ErrorWithLayout for AppError {
    fn with_layout(self, layout: &Layout) -> (response: ErrorResponse)
        ensures
            response.error == self,
            response.layout.title@ == layout.title@,
    {
        ErrorResponse { layout: layout.clone(), error: self }
    }
}

/// An outcome whose error can be given the frame of its page.
pub trait ResultWithLayout<T> {
    fn with_layout(self, layout: &Layout) -> Result<T, ErrorResponse>;
}

impl<T> ResultWithLayout<T> for Result<T, AppError> {
    fn with_layout(self, layout: &Layout) -> (framed: Result<T, ErrorResponse>)
        ensures
            match self {
                Ok(value) => framed == Ok::<T, ErrorResponse>(value),
                Err(error) => framed matches Err(response) && response.error == error
                    && response.layout.title@ == layout.title@,
            },
    {
        match self {
            Ok(value) => Ok(value),
            Err(error) => Err(ErrorResponse { layout: layout.clone(), error }),
        }
    }
}

/// The HTTP status of the page that reports an error.
pub open spec fn error_status(error: AppErrorView) -> int {
    match error {
        AppErrorView::NotFound => 404,
        AppErrorView::Internal { .. } => 500,
    }
}

/// The words that go with a status.
pub open spec fn reason_text(status: int) -> Seq<char> {
    if status == 404 {
        "Not Found"@
    } else {
        "Internal Server Error"@
    }
}

/// The words for the visitor on the page that reports an error.
pub open spec fn error_message(error: AppErrorView) -> Seq<char> {
    match error {
        AppErrorView::NotFound => "Looks like we could not find what you were looking for."@,
        AppErrorView::Internal { generic, .. } => generic,
    }
}

/// The status and its words, as they stand in the title of an error page.
pub open spec fn status_title(status: int) -> Seq<char> {
    decimal(status) + " - "@ + reason_text(status)
}

/// Makes the status with `http::StatusCode::from_u16` and gives its reason
/// phrase with `http::StatusCode::canonical_reason`, for the two statuses that
/// an error page can have: "Not Found" for 404 and "Internal Server Error"
/// for 500.
#[verifier::external_body]
fn canonical_reason(status: u16) -> (reason: Option<String>)
    requires
        status == 404 || status == 500,
    ensures
        reason is Some,
        reason matches Some(text) ==> text@ == reason_text(status as int),
{
    http::StatusCode::from_u16(status).ok().and_then(|code| code.canonical_reason()).map(
        |reason| reason.to_owned(),
    )
}

/// The page that reports an error: its status, its frame, the status as a
/// heading, and the words for the visitor.
#[derive(Debug)]
pub struct ErrorPage {
    pub status: u16,
    pub layout: Layout,
    pub heading: String,
    pub message: String,
}

impl ErrorResponse {
    /// Makes the page that reports the error. Its title begins with the
    /// status and the words that go with it.
    pub fn into_page(self) -> (page: ErrorPage)
        ensures
            page.status == error_status(self.error@),
            page.heading@ == decimal(error_status(self.error@)),
            page.message@ == error_message(self.error@),
            page.layout.title@ == title_with_status(
                status_title(error_status(self.error@)),
                self.layout.title@,
            ),
    {
        let (status, message): (u16, String) = match self.error {
            AppError::NotFound => (
                404,
                "Looks like we could not find what you were looking for.".to_owned(),
            ),
            AppError::Internal { generic, detailed } => (500, generic),
        };
        let heading = decimal_text(status as i64);
        let reason = match canonical_reason(status) {
            Some(text) => text,
            None => "?".to_owned(),
        };
        let mut title = heading.clone();
        title.append(" - ");
        title.append(reason.as_str());
        ErrorPage { status, layout: self.layout.with_status(title.as_str()), heading, message }
    }
}

/// The recipe that a page address asks for, or "not found" where the address
/// names no number.
pub fn requested_recipe(slug: &str) -> (id: Result<i64, AppError>)
    ensures
        match slug_id_of(slug@) {
            Some(n) => id matches Ok(found) && found == n,
            None => id matches Err(error) && error@ is NotFound,
        },
{
    match slug_id(slug) {
        Some(id) => Ok(id),
        None => Err(AppError::NotFound),
    }
}

/// What the page at `slug` shows once the recipe `id` was asked for: the
/// recipe, if it came and `slug` is its slug; "not found" if it came and has
/// another slug; else the error that the failed request becomes.
pub fn fetched_recipe(slug: &str, id: i64, fetched: Result<Recipe, BackendError>) -> (shown: Result<
    Recipe,
    AppError,
>)
    ensures
        match fetched {
            Ok(recipe) => if slug@ == slug_text(id as int, kebab_case(recipe.title@)) {
                shown == Ok::<Recipe, AppError>(recipe)
            } else {
                shown matches Err(error) && error@ is NotFound
            },
            Err(failure) => shown matches Err(error) && error@ == app_error_of(failure),
        },
{
    match fetched {
        Ok(recipe) => {
            if is_slug_of(slug, id, recipe.title.as_str()) {
                Ok(recipe)
            } else {
                Err(AppError::NotFound)
            }
        },
        Err(failure) => Err(AppError::from(failure)),
    }
}

} // verus!
