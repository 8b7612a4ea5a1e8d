//! The two endpoints of the server: what each answers, and with which
//! status.

use crate::catalogue::{listing_of, Catalogue, RecipeRow};
use crate::database::{all_recipe_titles, recipe, recipe_of};
use crate::error::{server_error_of, QueryError, QueryErrorView, Response, ServerError, ServerErrorView};
use crate::models::{listings_view, Recipe, RecipeListing, RecipeView};
use vstd::prelude::*;

verus! {

/// What the answer of the recipe endpoint is.
pub open spec fn recipe_answer_view(answer: Result<Recipe, ServerError>) -> Result<
    RecipeView,
    ServerErrorView,
> {
    match answer {
        Ok(recipe) => Ok(recipe@),
        Err(error) => Err(error@),
    }
}

/// The answer that the outcome of a read becomes: the value as it is, or the
/// server error that the query error maps to.
pub open spec fn answer_of(outcome: Result<RecipeView, QueryErrorView>) -> Result<
    RecipeView,
    ServerErrorView,
> {
    match outcome {
        Ok(recipe) => Ok(recipe),
        Err(error) => Err(server_error_of(error)),
    }
}

/// Turns the outcome of a read into the answer of an endpoint: a value goes
/// through untouched, an error becomes "not found" or an internal error.
pub fn answer<T>(outcome: Result<T, QueryError>) -> (answer: Result<T, ServerError>)
    ensures
        match outcome {
            Ok(value) => answer == Ok::<T, ServerError>(value),
            Err(error) => answer matches Err(mapped) && mapped@ == server_error_of(error@),
        },
{
    match outcome {
        Ok(value) => Ok(value),
        Err(error) => Err(ServerError::from(error)),
    }
}

/// The endpoint of the index: it answers with every recipe's identifier and
/// title, and never with "not found".
pub fn recipe_listing(db: &Catalogue) -> (answer: Result<Vec<RecipeListing>, ServerError>)
    ensures
        answer matches Ok(listings) && listings_view(listings@) == db.recipes@.map_values(
            |row: RecipeRow| listing_of(row),
        ),
{
    Ok(all_recipe_titles(db))
}

/// The endpoint of one recipe: it answers with the recipe, with "not found"
/// where the catalogue has no such recipe, and with an internal error where
/// the recipe cannot be read.
pub fn recipe_by_id(db: &Catalogue, recipe_id: i64) -> (answer: Result<Recipe, ServerError>)
    ensures
        recipe_answer_view(answer) == answer_of(recipe_of(*db, recipe_id as int)),
{
    answer(recipe(db, recipe_id))
}

/// The answer to a request that no endpoint is there for: status 404 and no
/// body.
pub fn handler_404() -> (response: Response)
    ensures
        response.status == 404,
        response.body@.len() == 0,
{
    Response { status: 404, body: String::new() }
}

} // verus!
