//! The stored catalogue: its seven tables, and the three reads that the
//! data-access layer makes of them.

use crate::models::{
    ingredients_view, listings_view, texts_view, Ingredient, IngredientView, RecipeListing,
    RecipeListingView, text_option_view,
};
use crate::table::{ids_increasing, row_with_id, Row, Table};
use vstd::prelude::*;

verus! {

/// A row of the table `recipe`.
#[derive(Debug, Clone)]
pub struct RecipeRow {
    pub id: i64,
    pub title: String,
    pub description: String,
    pub source_id: i64,
    pub meal_type_id: i64,
    pub creation_date: String,
}

/// A row of the table `source`.
#[derive(Debug, Clone)]
pub struct SourceRow {
    pub id: i64,
    pub name: String,
    pub url: Option<String>,
}

/// A row of the table `meal_type`.
#[derive(Debug, Clone)]
pub struct MealTypeRow {
    pub id: i64,
    pub name: String,
}

/// A row of the table `ingredient`.
#[derive(Debug, Clone)]
pub struct IngredientRow {
    pub id: i64,
    pub name: String,
}

/// A row of the table `measurement`.
#[derive(Debug, Clone)]
pub struct MeasurementRow {
    pub id: i64,
    pub unit: String,
}

/// A row of the table `recipe_ingredient`.
#[derive(Debug, Clone)]
pub struct RecipeIngredientRow {
    pub id: i64,
    pub recipe_id: i64,
    pub ingredient_id: i64,
    pub measurement_id: i64,
    /// The amount, as the bits of an IEEE 754 double.
    pub quantity_bits: u64,
}

/// A row of the table `instruction`.
#[derive(Debug, Clone)]
pub struct InstructionRow {
    pub id: i64,
    pub recipe_id: i64,
    pub step_number: i64,
    pub description: String,
}

impl Row for RecipeRow {
    open spec fn spec_id(&self) -> i64 {
        self.id
    }

    fn id(&self) -> i64 {
        self.id
    }
}

impl Row for SourceRow {
    open spec fn spec_id(&self) -> i64 {
        self.id
    }

    fn id(&self) -> i64 {
        self.id
    }
}

impl Row for MealTypeRow {
    open spec fn spec_id(&self) -> i64 {
        self.id
    }

    fn id(&self) -> i64 {
        self.id
    }
}

impl Row for IngredientRow {
    open spec fn spec_id(&self) -> i64 {
        self.id
    }

    fn id(&self) -> i64 {
        self.id
    }
}

impl Row for MeasurementRow {
    open spec fn spec_id(&self) -> i64 {
        self.id
    }

    fn id(&self) -> i64 {
        self.id
    }
}

impl Row for RecipeIngredientRow {
    open spec fn spec_id(&self) -> i64 {
        self.id
    }

    fn id(&self) -> i64 {
        self.id
    }
}

impl Row for InstructionRow {
    open spec fn spec_id(&self) -> i64 {
        self.id
    }

    fn id(&self) -> i64 {
        self.id
    }
}

/// The row that heads a recipe: the recipe joined with its source and its
/// meal type.
#[derive(Debug, Clone)]
pub struct HeaderRow {
    pub title: String,
    pub description: String,
    pub source_name: String,
    pub source_url: Option<String>,
    pub meal_type: String,
    pub creation_date: String,
}

/// What a header row is.
pub struct HeaderRowView {
    pub title: Seq<char>,
    pub description: Seq<char>,
    pub source_name: Seq<char>,
    pub source_url: Option<Seq<char>>,
    pub meal_type: Seq<char>,
    pub creation_date: Seq<char>,
}

impl View for HeaderRow {
    type V = HeaderRowView;

    open spec fn view(&self) -> HeaderRowView {
        HeaderRowView {
            title: self.title@,
            description: self.description@,
            source_name: self.source_name@,
            source_url: text_option_view(self.source_url),
            meal_type: self.meal_type@,
            creation_date: self.creation_date@,
        }
    }
}

/// The stored catalogue. A row may name a row of another table that is not
/// there: the reads below leave such a row out.
#[derive(Debug)]
pub struct Catalogue {
    pub recipes: Table<RecipeRow>,
    pub sources: Table<SourceRow>,
    pub meal_types: Table<MealTypeRow>,
    pub ingredients: Table<IngredientRow>,
    pub measurements: Table<MeasurementRow>,
    pub recipe_ingredients: Table<RecipeIngredientRow>,
    pub instructions: Table<InstructionRow>,
}

/// The index entry of a recipe row.
pub open spec fn listing_of(row: RecipeRow) -> RecipeListingView {
    RecipeListingView { id: row.id as int, title: row.title@ }
}

/// The header of the recipe `id`: its row joined with the rows of its source
/// and of its meal type. There is none where one of the three is missing.
pub open spec fn header_of(db: Catalogue, id: int) -> Option<HeaderRowView> {
    match row_with_id(db.recipes@, id) {
        None => None,
        Some(recipe) => match (
            row_with_id(db.sources@, recipe.source_id as int),
            row_with_id(db.meal_types@, recipe.meal_type_id as int),
        ) {
            (Some(source), Some(meal_type)) => Some(
                HeaderRowView {
                    title: recipe.title@,
                    description: recipe.description@,
                    source_name: source.name@,
                    source_url: text_option_view(source.url),
                    meal_type: meal_type.name@,
                    creation_date: recipe.creation_date@,
                },
            ),
            _ => None,
        },
    }
}

/// The ingredient that a row of `recipe_ingredient` stands for: the row
/// joined with its measurement and its ingredient. There is none where one
/// of the two is missing.
pub open spec fn joined_ingredient(db: Catalogue, row: RecipeIngredientRow) -> Option<
    IngredientView,
> {
    match (
        row_with_id(db.measurements@, row.measurement_id as int),
        row_with_id(db.ingredients@, row.ingredient_id as int),
    ) {
        (Some(measurement), Some(ingredient)) => Some(
            IngredientView {
                quantity_bits: row.quantity_bits,
                unit: measurement.unit@,
                name: ingredient.name@,
            },
        ),
        _ => None,
    }
}

/// Whether a row of `recipe_ingredient` gives an ingredient of the recipe `id`.
pub open spec fn gives_ingredient(db: Catalogue, id: int, row: RecipeIngredientRow) -> bool {
    row.recipe_id == id && joined_ingredient(db, row) is Some
}

/// The ingredients that `rows` give to the recipe `id`, in the order of the rows.
pub open spec fn ingredients_from(db: Catalogue, id: int, rows: Seq<RecipeIngredientRow>) -> Seq<
    IngredientView,
> {
    rows.filter(|row: RecipeIngredientRow| gives_ingredient(db, id, row)).map_values(
        |row: RecipeIngredientRow| joined_ingredient(db, row).unwrap(),
    )
}

/// The ingredients of the recipe `id`, in the order of the identifiers of
/// their rows in `recipe_ingredient`.
pub open spec fn ingredients_of(db: Catalogue, id: int) -> Seq<IngredientView> {
    ingredients_from(db, id, db.recipe_ingredients@)
}

/// Whether `a` comes before `b` when instructions are put in order: by step
/// number, and by identifier where two rows have the same step number.
pub open spec fn step_before(a: InstructionRow, b: InstructionRow) -> bool {
    a.step_number < b.step_number || (a.step_number == b.step_number && a.id < b.id)
}

/// Whether each row of `steps` comes before the rows after it.
pub open spec fn in_step_order(steps: Seq<InstructionRow>) -> bool {
    forall|i: int, j: int|
        0 <= i < j < steps.len() ==> step_before(#[trigger] steps[i], #[trigger] steps[j])
}

/// The rows of `rows` that belong to the recipe `id`, in the order of `rows`.
pub open spec fn rows_of_recipe(rows: Seq<InstructionRow>, id: int) -> Seq<InstructionRow> {
    rows.filter(|row: InstructionRow| row.recipe_id == id)
}

/// Whether `steps` holds the rows of `rows` that belong to the recipe `id`,
/// all of them and nothing else.
pub open spec fn holds_steps_of(steps: Seq<InstructionRow>, rows: Seq<InstructionRow>, id: int) -> bool {
    &&& steps.len() == rows_of_recipe(rows, id).len()
    &&& forall|k: int|
        0 <= k < steps.len() ==> (#[trigger] steps[k]).recipe_id == id && rows.contains(steps[k])
    &&& forall|j: int|
        0 <= j < rows.len() && (#[trigger] rows[j]).recipe_id == id ==> steps.contains(rows[j])
}

/// Whether `steps` is the rows of `rows` that belong to the recipe `id`, put
/// in order.
pub open spec fn is_steps_of(steps: Seq<InstructionRow>, rows: Seq<InstructionRow>, id: int) -> bool {
    in_step_order(steps) && holds_steps_of(steps, rows, id)
}

/// The instruction rows of the recipe `id`, in order.
pub open spec fn steps_of(db: Catalogue, id: int) -> Seq<InstructionRow> {
    choose|steps: Seq<InstructionRow>| is_steps_of(steps, db.instructions@, id)
}

/// The instructions of the recipe `id`: the texts of its steps, in order.
pub open spec fn instructions_of(db: Catalogue, id: int) -> Seq<Seq<char>> {
    steps_of(db, id).map_values(|row: InstructionRow| row.description@)
}

/// Two lists in step order that hold the same rows are the same list.
pub proof fn lemma_step_order_unique(a: Seq<InstructionRow>, b: Seq<InstructionRow>)
    requires
        in_step_order(a),
        in_step_order(b),
        forall|k: int| 0 <= k < a.len() ==> b.contains(#[trigger] a[k]),
        forall|k: int| 0 <= k < b.len() ==> a.contains(#[trigger] b[k]),
    ensures
        a == b,
    decreases a.len(),
{
    if a.len() == 0 {
        if b.len() > 0 {
            assert(a.contains(b[0]));
        }
        assert(a =~= b);
    } else {
        assert(b.contains(a[0]));
        let m = choose|m: int| 0 <= m < b.len() && b[m] == a[0];
        assert(a.contains(b[0]));
        let n = choose|n: int| 0 <= n < a.len() && a[n] == b[0];
        if n > 0 {
            assert(step_before(a[0], a[n]));
        }
        if m > 0 {
            assert(step_before(b[0], b[m]));
        }
        assert(n == 0 && m == 0);
        let a1 = a.drop_first();
        let b1 = b.drop_first();
        assert forall|i: int, j: int| 0 <= i < j < a1.len() implies step_before(
            #[trigger] a1[i],
            #[trigger] a1[j],
        ) by {
            assert(a1[i] == a[i + 1] && a1[j] == a[j + 1]);
        }
        assert forall|i: int, j: int| 0 <= i < j < b1.len() implies step_before(
            #[trigger] b1[i],
            #[trigger] b1[j],
        ) by {
            assert(b1[i] == b[i + 1] && b1[j] == b[j + 1]);
        }
        assert forall|k: int| 0 <= k < a1.len() implies b1.contains(#[trigger] a1[k]) by {
            assert(a1[k] == a[k + 1]);
            assert(step_before(a[0], a[k + 1]));
            assert(b.contains(a[k + 1]));
            let q = choose|q: int| 0 <= q < b.len() && b[q] == a[k + 1];
            assert(q > 0);
            assert(b1[q - 1] == a1[k]);
        }
        assert forall|k: int| 0 <= k < b1.len() implies a1.contains(#[trigger] b1[k]) by {
            assert(b1[k] == b[k + 1]);
            assert(step_before(b[0], b[k + 1]));
            assert(a.contains(b[k + 1]));
            let q = choose|q: int| 0 <= q < a.len() && a[q] == b[k + 1];
            assert(q > 0);
            assert(a1[q - 1] == b1[k]);
        }
        lemma_step_order_unique(a1, b1);
        assert(a =~= seq![a[0]] + a1);
        assert(b =~= seq![b[0]] + b1);
    }
}

/// There is one way only to put the steps of a recipe in order.
pub proof fn lemma_steps_unique(
    a: Seq<InstructionRow>,
    b: Seq<InstructionRow>,
    rows: Seq<InstructionRow>,
    id: int,
)
    requires
        is_steps_of(a, rows, id),
        is_steps_of(b, rows, id),
    ensures
        a == b,
{
    assert forall|k: int| 0 <= k < a.len() implies b.contains(#[trigger] a[k]) by {
        assert(rows.contains(a[k]));
        let j = choose|j: int| 0 <= j < rows.len() && rows[j] == a[k];
        assert(b.contains(rows[j]));
    }
    assert forall|k: int| 0 <= k < b.len() implies a.contains(#[trigger] b[k]) by {
        assert(rows.contains(b[k]));
        let j = choose|j: int| 0 <= j < rows.len() && rows[j] == b[k];
        assert(a.contains(rows[j]));
    }
    lemma_step_order_unique(a, b);
}

/// A row of the recipe, with a larger identifier than the rows before it, goes
/// into the steps behind those whose step number is no larger than its own.
pub proof fn lemma_step_put_in(
    steps: Seq<InstructionRow>,
    rows: Seq<InstructionRow>,
    row: InstructionRow,
    p: int,
    id: int,
)
    requires
        is_steps_of(steps, rows, id),
        row.recipe_id == id,
        forall|j: int| 0 <= j < rows.len() ==> (#[trigger] rows[j]).id < row.id,
        0 <= p <= steps.len(),
        forall|k: int| 0 <= k < p ==> (#[trigger] steps[k]).step_number <= row.step_number,
        p < steps.len() ==> steps[p].step_number > row.step_number,
    ensures
        is_steps_of(steps.insert(p, row), rows.push(row), id),
{
    let after = rows.push(row);
    let new_steps = steps.insert(p, row);
    rows.lemma_filter_push(row, |r: InstructionRow| r.recipe_id == id);
    assert forall|k: int| 0 <= k < steps.len() implies (#[trigger] steps[k]).id < row.id by {
        assert(rows.contains(steps[k]));
    }
    assert forall|k: int| p <= k < steps.len() implies (#[trigger] steps[k]).step_number
        > row.step_number by {
        if k > p {
            assert(step_before(steps[p], steps[k]));
        }
    }
    assert forall|x: int, y: int| 0 <= x < y < new_steps.len() implies step_before(
        #[trigger] new_steps[x],
        #[trigger] new_steps[y],
    ) by {
        if y < p {
            assert(new_steps[x] == steps[x] && new_steps[y] == steps[y]);
        } else if y == p {
            assert(new_steps[x] == steps[x]);
            assert(steps[x].step_number <= row.step_number);
        } else if x < p {
            assert(new_steps[x] == steps[x] && new_steps[y] == steps[y - 1]);
        } else if x == p {
            assert(new_steps[y] == steps[y - 1]);
        } else {
            assert(new_steps[x] == steps[x - 1] && new_steps[y] == steps[y - 1]);
        }
    }
    assert forall|k: int| 0 <= k < new_steps.len() implies (#[trigger] new_steps[k]).recipe_id == id
        && after.contains(new_steps[k]) by {
        if k == p {
            assert(after[rows.len() as int] == row);
        } else {
            let o = if k < p {
                k
            } else {
                k - 1
            };
            assert(new_steps[k] == steps[o]);
            assert(rows.contains(steps[o]));
            let j = choose|j: int| 0 <= j < rows.len() && rows[j] == steps[o];
            assert(after[j] == steps[o]);
        }
    }
    assert forall|j: int| 0 <= j < after.len() && (#[trigger] after[j]).recipe_id
        == id implies new_steps.contains(after[j]) by {
        if j == rows.len() {
            assert(new_steps[p] == row);
        } else {
            assert(after[j] == rows[j]);
            assert(steps.contains(rows[j]));
            let k = choose|k: int| 0 <= k < steps.len() && steps[k] == rows[j];
            if k < p {
                assert(new_steps[k] == steps[k]);
            } else {
                assert(new_steps[k + 1] == steps[k]);
            }
        }
    }
}

/// A row of another recipe changes nothing in the steps.
pub proof fn lemma_step_left_out(
    steps: Seq<InstructionRow>,
    rows: Seq<InstructionRow>,
    row: InstructionRow,
    id: int,
)
    requires
        is_steps_of(steps, rows, id),
        row.recipe_id != id,
    ensures
        is_steps_of(steps, rows.push(row), id),
{
    let after = rows.push(row);
    rows.lemma_filter_push(row, |r: InstructionRow| r.recipe_id == id);
    assert forall|k: int| 0 <= k < steps.len() implies after.contains(#[trigger] steps[k]) by {
        assert(rows.contains(steps[k]));
        let j = choose|j: int| 0 <= j < rows.len() && rows[j] == steps[k];
        assert(after[j] == steps[k]);
    }
    assert forall|j: int| 0 <= j < after.len() && (#[trigger] after[j]).recipe_id
        == id implies steps.contains(after[j]) by {
        assert(after[j] == rows[j]);
    }
}

/// Where a row with the step number `number` goes in steps that are in order:
/// behind the steps whose number is no larger.
pub open spec fn place_of_step(steps: Seq<InstructionRow>, number: int) -> int
    decreases steps.len(),
{
    if steps.len() == 0 || steps.last().step_number <= number {
        steps.len() as int
    } else {
        place_of_step(steps.drop_last(), number)
    }
}

/// The place of a step parts the steps in order: before it the step numbers
/// are no larger, from it on they are larger.
proof fn lemma_place_of_step(steps: Seq<InstructionRow>, number: int)
    requires
        in_step_order(steps),
    ensures
        0 <= place_of_step(steps, number) <= steps.len(),
        forall|k: int|
            0 <= k < place_of_step(steps, number) ==> (#[trigger] steps[k]).step_number <= number,
        place_of_step(steps, number) < steps.len() ==> steps[place_of_step(
            steps,
            number,
        )].step_number > number,
    decreases steps.len(),
{
    if steps.len() == 0 {
    } else if steps.last().step_number <= number {
        assert forall|k: int| 0 <= k < steps.len() implies (#[trigger] steps[k]).step_number
            <= number by {
            if k < steps.len() - 1 {
                assert(step_before(steps[k], steps[steps.len() - 1]));
            }
        }
    } else {
        let front = steps.drop_last();
        assert forall|i: int, j: int| 0 <= i < j < front.len() implies step_before(
            #[trigger] front[i],
            #[trigger] front[j],
        ) by {
            assert(front[i] == steps[i] && front[j] == steps[j]);
        }
        lemma_place_of_step(front, number);
        let p = place_of_step(front, number);
        assert forall|k: int| 0 <= k < p implies (#[trigger] steps[k]).step_number <= number by {
            assert(steps[k] == front[k]);
        }
        if p < front.len() {
            assert(steps[p] == front[p]);
        }
    }
}

/// The steps of a recipe can be put in order, whatever the table holds.
pub proof fn lemma_steps_exist(rows: Seq<InstructionRow>, id: int) -> (steps: Seq<InstructionRow>)
    requires
        ids_increasing(rows),
    ensures
        is_steps_of(steps, rows, id),
    decreases rows.len(),
{
    if rows.len() == 0 {
        let steps = Seq::<InstructionRow>::empty();
        assert(rows_of_recipe(rows, id).len() == 0);
        steps
    } else {
        let front = rows.drop_last();
        let row = rows.last();
        assert forall|i: int, j: int| 0 <= i < j < front.len() implies (#[trigger] front[i]).spec_id()
            < (#[trigger] front[j]).spec_id() by {
            assert(front[i] == rows[i] && front[j] == rows[j]);
        }
        let before = lemma_steps_exist(front, id);
        assert(rows =~= front.push(row));
        if row.recipe_id == id {
            assert forall|j: int| 0 <= j < front.len() implies (#[trigger] front[j]).id < row.id by {
                assert(front[j] == rows[j]);
                assert(rows[j].spec_id() < rows[rows.len() - 1].spec_id());
            }
            lemma_place_of_step(before, row.step_number as int);
            let p = place_of_step(before, row.step_number as int);
            lemma_step_put_in(before, front, row, p, id);
            before.insert(p, row)
        } else {
            lemma_step_left_out(before, front, row, id);
            before
        }
    }
}

/// The steps of a recipe are its instruction rows, in order.
pub proof fn lemma_steps_of(db: Catalogue, id: int)
    requires
        ids_increasing(db.instructions@),
    ensures
        is_steps_of(steps_of(db, id), db.instructions@, id),
{
    let steps = lemma_steps_exist(db.instructions@, id);
}

/// One more row gives one more ingredient, or none.
proof fn lemma_ingredients_from_next(db: Catalogue, id: int, rows: Seq<RecipeIngredientRow>, i: int)
    requires
        0 <= i < rows.len(),
    ensures
        ingredients_from(db, id, rows.take(i + 1)) == if gives_ingredient(db, id, rows[i]) {
            ingredients_from(db, id, rows.take(i)).push(joined_ingredient(db, rows[i]).unwrap())
        } else {
            ingredients_from(db, id, rows.take(i))
        },
{
    let gives = |row: RecipeIngredientRow| gives_ingredient(db, id, row);
    let joined = |row: RecipeIngredientRow| joined_ingredient(db, row).unwrap();
    let before = rows.take(i);
    assert(rows.take(i + 1) =~= before.push(rows[i]));
    before.lemma_filter_push(rows[i], gives);
    if gives_ingredient(db, id, rows[i]) {
        assert(before.filter(gives).push(rows[i]).map_values(joined) =~= before.filter(
            gives,
        ).map_values(joined).push(joined(rows[i])));
    }
}

impl Catalogue {
    /// A catalogue without rows.
    pub fn new() -> (db: Catalogue)
        ensures
            db.recipes@.len() == 0,
            db.sources@.len() == 0,
            db.meal_types@.len() == 0,
            db.ingredients@.len() == 0,
            db.measurements@.len() == 0,
            db.recipe_ingredients@.len() == 0,
            db.instructions@.len() == 0,
    {
        Catalogue {
            recipes: Table::new(),
            sources: Table::new(),
            meal_types: Table::new(),
            ingredients: Table::new(),
            measurements: Table::new(),
            recipe_ingredients: Table::new(),
            instructions: Table::new(),
        }
    }

    /// The index: identifier and title of every recipe, in the order of the
    /// identifiers.
    pub fn listing(&self) -> (listings: Vec<RecipeListing>)
        ensures
            listings_view(listings@) == self.recipes@.map_values(|row: RecipeRow| listing_of(row)),
    {
        let rows = self.recipes.rows();
        let mut listings: Vec<RecipeListing> = Vec::new();
        let mut i: usize = 0;
        while i < rows.len()
            invariant
                i <= rows@.len(),
                rows@ == self.recipes@,
                listings_view(listings@) == rows@.take(i as int).map_values(
                    |row: RecipeRow| listing_of(row),
                ),
            decreases rows@.len() - i,
        {
            let ghost before = listings@;
            let entry = RecipeListing { id: rows[i].id, title: rows[i].title.clone() };
            listings.push(entry);
            proof {
                assert(listings_view(listings@) =~= listings_view(before).push(entry@));
                assert(rows@.take(i + 1).map_values(|row: RecipeRow| listing_of(row)) =~= rows@.take(
                    i as int,
                ).map_values(|row: RecipeRow| listing_of(row)).push(listing_of(rows@[i as int])));
            }
            i += 1;
        }
        proof {
            assert(rows@.take(i as int) =~= rows@);
        }
        listings
    }

    /// The header of the recipe `id`, if the recipe, its source and its meal
    /// type are all there.
    pub fn header(&self, id: i64) -> (header: Option<HeaderRow>)
        ensures
            header is Some <==> header_of(*self, id as int) is Some,
            header matches Some(row) ==> Some(row@) == header_of(*self, id as int),
    {
        let recipe = match self.recipes.get(id) {
            Some(recipe) => recipe,
            None => {
                return None;
            },
        };
        let source = match self.sources.get(recipe.source_id) {
            Some(source) => source,
            None => {
                return None;
            },
        };
        let meal_type = match self.meal_types.get(recipe.meal_type_id) {
            Some(meal_type) => meal_type,
            None => {
                return None;
            },
        };
        Some(
            HeaderRow {
                title: recipe.title.clone(),
                description: recipe.description.clone(),
                source_name: source.name.clone(),
                source_url: source.url.clone(),
                meal_type: meal_type.name.clone(),
                creation_date: recipe.creation_date.clone(),
            },
        )
    }

    /// The ingredients of the recipe `id`, in the order of the identifiers of
    /// their rows. A row whose measurement or ingredient is missing gives none.
    pub fn ingredients(&self, id: i64) -> (ingredients: Vec<Ingredient>)
        ensures
            ingredients_view(ingredients@) == ingredients_of(*self, id as int),
    {
        let rows = self.recipe_ingredients.rows();
        let mut ingredients: Vec<Ingredient> = Vec::new();
        let mut i: usize = 0;
        proof {
            assert(ingredients_view(ingredients@) =~= ingredients_from(
                *self,
                id as int,
                rows@.take(0),
            ));
        }
        while i < rows.len()
            invariant
                i <= rows@.len(),
                rows@ == self.recipe_ingredients@,
                ingredients_view(ingredients@) == ingredients_from(
                    *self,
                    id as int,
                    rows@.take(i as int),
                ),
            decreases rows@.len() - i,
        {
            proof {
                lemma_ingredients_from_next(*self, id as int, rows@, i as int);
            }
            let row = &rows[i];
            if row.recipe_id == id {
                let measurement = self.measurements.get(row.measurement_id);
                let ingredient = self.ingredients.get(row.ingredient_id);
                match (measurement, ingredient) {
                    (Some(m), Some(g)) => {
                        let ghost before = ingredients@;
                        let joined = Ingredient {
                            quantity_bits: row.quantity_bits,
                            unit: m.unit.clone(),
                            name: g.name.clone(),
                        };
                        ingredients.push(joined);
                        proof {
                            assert(ingredients_view(ingredients@) =~= ingredients_view(before).push(
                                joined@,
                            ));
                        }
                    },
                    _ => {},
                }
            }
            i += 1;
        }
        proof {
            assert(rows@.take(i as int) =~= rows@);
        }
        ingredients
    }

    /// The instructions of the recipe `id`, in the order of their step
    /// numbers; steps with the same number in the order of the identifiers of
    /// their rows.
    pub fn instructions(&self, id: i64) -> (instructions: Vec<String>)
        ensures
            is_steps_of(steps_of(*self, id as int), self.instructions@, id as int),
            texts_view(instructions@) == instructions_of(*self, id as int),
    {
        let rows = self.instructions.rows();
        let mut numbers: Vec<i64> = Vec::new();
        let mut texts: Vec<String> = Vec::new();
        let ghost mut steps: Seq<InstructionRow> = Seq::empty();
        let mut i: usize = 0;
        while i < rows.len()
            invariant
                i <= rows@.len(),
                rows@ == self.instructions@,
                ids_increasing(rows@),
                numbers@.len() == steps.len(),
                texts@.len() == steps.len(),
                forall|k: int|
                    0 <= k < steps.len() ==> numbers@[k] == (#[trigger] steps[k]).step_number
                        && texts@[k]@ == steps[k].description@,
                in_step_order(steps),
                is_steps_of(steps, rows@.take(i as int), id as int),
            decreases rows@.len() - i,
        {
            let row = &rows[i];
            let ghost before = rows@.take(i as int);
            let ghost after = rows@.take(i + 1);
            proof {
                assert(after =~= before.push(*row));
                assert forall|j: int| 0 <= j < before.len() implies (#[trigger] before[j]).id
                    < row.id by {
                    assert(before[j] == rows@[j]);
                    assert(rows@[j].spec_id() < rows@[i as int].spec_id());
                }
            }
            if row.recipe_id == id {
                let mut p: usize = 0;
                while p < numbers.len() && numbers[p] <= row.step_number
                    invariant
                        p <= numbers@.len(),
                        numbers@.len() == steps.len(),
                        forall|k: int|
                            0 <= k < steps.len() ==> numbers@[k] == (
                            #[trigger] steps[k]).step_number,
                        forall|k: int| 0 <= k < p ==> numbers@[k] <= row.step_number,
                    decreases numbers@.len() - p,
                {
                    p += 1;
                }
                let ghost old_steps = steps;
                numbers.insert(p, row.step_number);
                texts.insert(p, row.description.clone());
                proof {
                    steps = old_steps.insert(p as int, *row);
                    lemma_step_put_in(old_steps, before, *row, p as int, id as int);
                    assert forall|k: int| 0 <= k < steps.len() implies numbers@[k] == (
                    #[trigger] steps[k]).step_number && texts@[k]@ == steps[k].description@ by {
                        if k < p {
                            assert(steps[k] == old_steps[k]);
                        } else if k > p {
                            assert(steps[k] == old_steps[k - 1]);
                        }
                    }
                }
            } else {
                proof {
                    lemma_step_left_out(steps, before, *row, id as int);
                }
            }
            i += 1;
        }
        proof {
            assert(rows@.take(i as int) =~= rows@);
            let chosen = steps_of(*self, id as int);
            lemma_steps_unique(steps, chosen, self.instructions@, id as int);
            assert(texts_view(texts@) =~= steps.map_values(|row: InstructionRow| row.description@));
        }
        texts
    }
}

} // verus!
