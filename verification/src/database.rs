//! The data-access layer: the index of recipes and one recipe with all that
//! belongs to it, read from the catalogue.

use crate::catalogue::{
    gives_ingredient, header_of, ingredients_of, instructions_of, joined_ingredient,
    lemma_steps_of, listing_of, rows_of_recipe, step_before, steps_of, Catalogue, HeaderRow,
    HeaderRowView, InstructionRow, RecipeIngredientRow, RecipeRow,
};
pub use crate::config::{configure_connect_options, from_env};
use crate::date::{parse_iso, Date};
use crate::error::{QueryError, QueryErrorView};
use crate::models::{
    ingredients_view, listings_view, texts_view, Ingredient, IngredientView, Recipe,
    RecipeListing, RecipeView,
};
use crate::table::{has_id, ids_increasing, row_with_id};
use vstd::prelude::*;

verus! {

/// The query for the index: identifier and title of every recipe.
pub const LISTING_QUERY: &'static str = "SELECT id, title FROM recipe";

/// The query for the header of one recipe: the recipe with its source and its
/// meal type.
pub const HEADER_QUERY: &'static str = "SELECT r.title, r.description, s.name AS source_name, s.url AS source_url, mt.type_name AS meal_type, r.creation_date FROM recipe AS r JOIN source AS s ON r.source_id = s.id JOIN meal_type AS mt ON r.meal_type_id = mt.id WHERE r.id = ?";

/// The query for the ingredients of one recipe.
pub const INGREDIENTS_QUERY: &'static str = "SELECT ri.quantity, m.unit, i.name FROM recipe_ingredient AS ri JOIN measurement AS m ON ri.measurement_id = m.id JOIN ingredient AS i ON ri.ingredient_id = i.id WHERE ri.recipe_id = ? ORDER BY ri.id";

/// The query for the instructions of one recipe.
pub const INSTRUCTIONS_QUERY: &'static str = "SELECT i.description FROM instruction AS i WHERE i.recipe_id = ? ORDER BY i.step_number";

/// What the outcome of a read of one recipe is.
pub open spec fn recipe_result_view(result: Result<Recipe, QueryError>) -> Result<
    RecipeView,
    QueryErrorView,
> {
    match result {
        Ok(recipe) => Ok(recipe@),
        Err(error) => Err(error@),
    }
}

/// The recipe that a header row, a list of ingredients and a list of
/// instructions make: the stored date must read as a date, else the recipe
/// cannot be decoded.
pub open spec fn assembled(
    header: HeaderRowView,
    ingredients: Seq<IngredientView>,
    instructions: Seq<Seq<char>>,
) -> Result<RecipeView, QueryErrorView> {
    match parse_iso(header.creation_date) {
        Err(error) => Err(QueryErrorView::Decode(error)),
        Ok(date) => Ok(
            RecipeView {
                title: header.title,
                description: header.description,
                meal_type: header.meal_type,
                source_name: header.source_name,
                source_url: header.source_url,
                ingredients,
                instructions,
                creation_date: date,
            },
        ),
    }
}

/// What reading the recipe `id` from the catalogue gives.
pub open spec fn recipe_of(db: Catalogue, id: int) -> Result<RecipeView, QueryErrorView> {
    match header_of(db, id) {
        None => Err(QueryErrorView::RowNotFound),
        Some(header) => assembled(header, ingredients_of(db, id), instructions_of(db, id)),
    }
}

/// Puts a recipe together from its header row, its ingredients and its
/// instructions.
pub fn assemble_recipe(
    header: HeaderRow,
    ingredients: Vec<Ingredient>,
    instructions: Vec<String>,
) -> (result: Result<Recipe, QueryError>)
    ensures
        recipe_result_view(result) == assembled(
            header@,
            ingredients_view(ingredients@),
            texts_view(instructions@),
        ),
{
    match Date::parse(header.creation_date.as_str()) {
        Err(error) => Err(QueryError::Decode(error)),
        Ok(date) => Ok(
            Recipe {
                title: header.title,
                description: header.description,
                meal_type: header.meal_type,
                source_name: header.source_name,
                source_url: header.source_url,
                ingredients,
                instructions,
                creation_date: date,
            },
        ),
    }
}

/// The index of recipes: identifier and title of every recipe, in the order
/// of the identifiers.
pub fn all_recipe_titles(db: &Catalogue) -> (listings: Vec<RecipeListing>)
    ensures
        listings_view(listings@) == db.recipes@.map_values(|row: RecipeRow| listing_of(row)),
{
    db.listing()
}

/// Reads the recipe `id` with its ingredients and instructions.
pub fn recipe(db: &Catalogue, id: i64) -> (result: Result<Recipe, QueryError>)
    ensures
        recipe_result_view(result) == recipe_of(*db, id as int),
{
    let header = match db.header(id) {
        Some(header) => header,
        None => {
            return Err(QueryError::RowNotFound);
        },
    };
    let ingredients = db.ingredients(id);
    let instructions = db.instructions(id);
    assemble_recipe(header, ingredients, instructions)
}

/// A recipe whose identifier the catalogue does not hold is not found,
/// whatever else the catalogue holds.
pub proof fn lemma_unknown_recipe_not_found(db: Catalogue, id: int)
    requires
        !has_id(db.recipes@, id),
    ensures
        recipe_of(db, id) == Err::<RecipeView, QueryErrorView>(QueryErrorView::RowNotFound),
{
}

/// A recipe whose source or meal type is missing is not found: no part of it
/// is handed out.
pub proof fn lemma_dangling_recipe_not_found(db: Catalogue, id: int)
    requires
        row_with_id(db.recipes@, id) matches Some(row) && (!has_id(
            db.sources@,
            row.source_id as int,
        ) || !has_id(db.meal_types@, row.meal_type_id as int)),
    ensures
        recipe_of(db, id) == Err::<RecipeView, QueryErrorView>(QueryErrorView::RowNotFound),
{
}

/// The rows of `recipe_ingredient` that belong to the recipe `id`, in the
/// order of the table.
pub open spec fn ingredient_rows_of(db: Catalogue, id: int) -> Seq<RecipeIngredientRow> {
    db.recipe_ingredients@.filter(|row: RecipeIngredientRow| row.recipe_id == id)
}

/// Filters that agree on every row of a table keep the same rows.
proof fn lemma_filter_agree<A>(rows: Seq<A>, p: spec_fn(A) -> bool, q: spec_fn(A) -> bool)
    requires
        forall|i: int| 0 <= i < rows.len() ==> p(#[trigger] rows[i]) == q(rows[i]),
    ensures
        rows.filter(p) == rows.filter(q),
    decreases rows.len(),
{
    reveal(Seq::filter);
    if rows.len() > 0 {
        let front = rows.drop_last();
        assert forall|i: int| 0 <= i < front.len() implies p(#[trigger] front[i]) == q(front[i]) by {
            assert(front[i] == rows[i]);
        }
        lemma_filter_agree(front, p, q);
        assert(p(rows[rows.len() - 1]) == q(rows[rows.len() - 1]));
    }
}

/// Where every ingredient row of a recipe names a measurement and an
/// ingredient that are there, the recipe has one ingredient for each of its
/// rows, in the order of the rows.
pub proof fn lemma_recipe_has_all_ingredients(db: Catalogue, id: int, recipe: RecipeView)
    requires
        recipe_of(db, id) == Ok::<RecipeView, QueryErrorView>(recipe),
        forall|j: int|
            0 <= j < db.recipe_ingredients@.len() && (#[trigger] db.recipe_ingredients@[j]).recipe_id
                == id ==> joined_ingredient(db, db.recipe_ingredients@[j]) is Some,
    ensures
        recipe.ingredients.len() == ingredient_rows_of(db, id).len(),
        forall|k: int|
            0 <= k < recipe.ingredients.len() ==> Some(#[trigger] recipe.ingredients[k])
                == joined_ingredient(db, ingredient_rows_of(db, id)[k]),
{
    let rows = db.recipe_ingredients@;
    let gives = |row: RecipeIngredientRow| gives_ingredient(db, id, row);
    let own = |row: RecipeIngredientRow| row.recipe_id == id;
    lemma_filter_agree(rows, gives, own);
    assert(recipe.ingredients == ingredients_of(db, id));
    assert forall|k: int| 0 <= k < recipe.ingredients.len() implies Some(
        #[trigger] recipe.ingredients[k],
    ) == joined_ingredient(db, ingredient_rows_of(db, id)[k]) by {
        rows.lemma_filter_pred(gives, k);
    }
}

/// Numbers that grow from each to the next, all from 1 to their count, are 1,
/// 2, 3 and so on.
proof fn lemma_numbered_from_one(numbers: Seq<int>, k: int)
    requires
        forall|i: int, j: int| 0 <= i < j < numbers.len() ==> numbers[i] < numbers[j],
        forall|i: int| 0 <= i < numbers.len() ==> 1 <= #[trigger] numbers[i] <= numbers.len(),
        0 <= k < numbers.len(),
    ensures
        numbers[k] == k + 1,
{
    lemma_at_least(numbers, k);
    lemma_at_most(numbers, k);
}

/// Growing numbers that start at 1 or more: the one at place `k` is at least
/// `k + 1`.
proof fn lemma_at_least(numbers: Seq<int>, k: int)
    requires
        forall|i: int, j: int| 0 <= i < j < numbers.len() ==> numbers[i] < numbers[j],
        forall|i: int| 0 <= i < numbers.len() ==> 1 <= #[trigger] numbers[i] <= numbers.len(),
        0 <= k < numbers.len(),
    ensures
        numbers[k] >= k + 1,
    decreases k,
{
    if k > 0 {
        lemma_at_least(numbers, k - 1);
        assert(numbers[k - 1] < numbers[k]);
    }
}

/// Growing numbers that end at their count or less: the one at place `k` is at
/// most `k + 1`.
proof fn lemma_at_most(numbers: Seq<int>, k: int)
    requires
        forall|i: int, j: int| 0 <= i < j < numbers.len() ==> numbers[i] < numbers[j],
        forall|i: int| 0 <= i < numbers.len() ==> 1 <= #[trigger] numbers[i] <= numbers.len(),
        0 <= k < numbers.len(),
    ensures
        numbers[k] <= k + 1,
    decreases numbers.len() - k,
{
    if k < numbers.len() - 1 {
        lemma_at_most(numbers, k + 1);
        assert(numbers[k] < numbers[k + 1]);
    }
}

/// Where the instruction rows of a recipe are numbered 1, 2, 3 and so on, each
/// number once, the recipe has one instruction for each row, and the row with
/// the step number `n` gives the `n`th of them.
pub proof fn lemma_recipe_has_all_instructions(db: Catalogue, id: int, recipe: RecipeView)
    requires
        ids_increasing(db.instructions@),
        recipe_of(db, id) == Ok::<RecipeView, QueryErrorView>(recipe),
        forall|k: int|
            0 <= k < rows_of_recipe(db.instructions@, id).len() ==> 1 <= (#[trigger] rows_of_recipe(
                db.instructions@,
                id,
            )[k]).step_number <= rows_of_recipe(db.instructions@, id).len(),
        forall|k: int, l: int|
            0 <= k < l < rows_of_recipe(db.instructions@, id).len() ==> (#[trigger] rows_of_recipe(
                db.instructions@,
                id,
            )[k]).step_number != (#[trigger] rows_of_recipe(db.instructions@, id)[l]).step_number,
    ensures
        recipe.instructions.len() == rows_of_recipe(db.instructions@, id).len(),
        forall|k: int|
            0 <= k < recipe.instructions.len() ==> steps_of(db, id)[k].step_number == k + 1
                && #[trigger] recipe.instructions[k] == steps_of(db, id)[k].description@,
        forall|k: int|
            0 <= k < rows_of_recipe(db.instructions@, id).len() ==> recipe.instructions[(
            #[trigger] rows_of_recipe(db.instructions@, id)[k]).step_number - 1]
                == rows_of_recipe(db.instructions@, id)[k].description@,
{
    let rows = db.instructions@;
    let own = rows_of_recipe(rows, id);
    let of_recipe = |row: InstructionRow| row.recipe_id == id;
    let steps = steps_of(db, id);
    lemma_steps_of(db, id);
    assert(recipe.instructions == instructions_of(db, id));
    let numbers = steps.map_values(|row: InstructionRow| row.step_number as int);
    // Each step is one of the recipe's rows, so its number is from 1 to the count.
    assert forall|x: int| 0 <= x < steps.len() implies own.contains(#[trigger] steps[x]) by {
        assert(rows.contains(steps[x]));
        let j = choose|j: int| 0 <= j < rows.len() && rows[j] == steps[x];
        rows.lemma_filter_contains(of_recipe, j);
    }
    assert forall|x: int| 0 <= x < numbers.len() implies 1 <= #[trigger] numbers[x]
        <= numbers.len() by {
        assert(own.contains(steps[x]));
        let k = choose|k: int| 0 <= k < own.len() && own[k] == steps[x];
        assert(1 <= own[k].step_number <= own.len());
    }
    assert forall|x: int, y: int| 0 <= x < y < numbers.len() implies numbers[x] < numbers[y] by {
        assert(step_before(steps[x], steps[y]));
        assert(own.contains(steps[x]));
        assert(own.contains(steps[y]));
        let k = choose|k: int| 0 <= k < own.len() && own[k] == steps[x];
        let l = choose|l: int| 0 <= l < own.len() && own[l] == steps[y];
        if k < l {
            assert(own[k].step_number != own[l].step_number);
        } else if l < k {
            assert(own[l].step_number != own[k].step_number);
        }
    }
    assert forall|k: int| 0 <= k < recipe.instructions.len() implies steps_of(db, id)[k].step_number
        == k + 1 && #[trigger] recipe.instructions[k] == steps_of(db, id)[k].description@ by {
        lemma_numbered_from_one(numbers, k);
    }
    assert forall|k: int| 0 <= k < own.len() implies recipe.instructions[(#[trigger] own[k]).step_number
        - 1] == own[k].description@ by {
        rows.lemma_filter_pred(of_recipe, k);
        assert(own.contains(own[k]));
        rows.lemma_filter_contains_rev(of_recipe, own[k]);
        let j = choose|j: int| 0 <= j < rows.len() && rows[j] == own[k];
        assert(steps.contains(rows[j]));
        let x = choose|x: int| 0 <= x < steps.len() && steps[x] == own[k];
        lemma_numbered_from_one(numbers, x);
    }
}

} // verus!
