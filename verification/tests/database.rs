use food::catalogue::{
    Catalogue, IngredientRow, InstructionRow, MealTypeRow, MeasurementRow, RecipeIngredientRow,
    RecipeRow, SourceRow,
};
use food::database;
use food::date::DateError;
use food::error::QueryError;

fn text(s: &str) -> String {
    s.to_string()
}

fn glass_of_water_catalogue() -> Catalogue {
    let mut db = Catalogue::new();
    assert_eq!(
        db.sources.insert(SourceRow { id: 1, name: text("Cool source"), url: None }),
        Some(0)
    );
    assert_eq!(db.meal_types.insert(MealTypeRow { id: 1, name: text("Drink") }), Some(0));
    assert_eq!(
        db.ingredients.insert(IngredientRow { id: 1, name: text("any drinking glass") }),
        Some(0)
    );
    assert_eq!(db.ingredients.insert(IngredientRow { id: 2, name: text("water") }), Some(1));
    assert_eq!(db.measurements.insert(MeasurementRow { id: 1, unit: text("piece") }), Some(0));
    assert_eq!(db.measurements.insert(MeasurementRow { id: 2, unit: text("dl") }), Some(1));
    assert_eq!(
        db.recipes.insert(RecipeRow {
            id: 1,
            title: text("Glass of water"),
            description: text("Refreshing, isn't it?"),
            source_id: 1,
            meal_type_id: 1,
            creation_date: text("2025-01-19"),
        }),
        Some(0)
    );
    assert_eq!(
        db.recipe_ingredients.insert(RecipeIngredientRow {
            id: 1,
            recipe_id: 1,
            ingredient_id: 1,
            measurement_id: 1,
            quantity_bits: 1.0f64.to_bits(),
        }),
        Some(0)
    );
    assert_eq!(
        db.recipe_ingredients.insert(RecipeIngredientRow {
            id: 2,
            recipe_id: 1,
            ingredient_id: 2,
            measurement_id: 2,
            quantity_bits: 2.5f64.to_bits(),
        }),
        Some(1)
    );
    assert_eq!(
        db.instructions.insert(InstructionRow {
            id: 1,
            recipe_id: 1,
            step_number: 1,
            description: text("Pour the water into the glass."),
        }),
        Some(0)
    );
    assert_eq!(
        db.instructions.insert(InstructionRow {
            id: 2,
            recipe_id: 1,
            step_number: 2,
            description: text("Enjoy the nice water."),
        }),
        Some(1)
    );
    db
}

#[test]
fn glass_of_water() {
    let db = glass_of_water_catalogue();

    let all_titles = database::all_recipe_titles(&db);
    let id = all_titles
        .iter()
        .find_map(|recipe_listing| {
            if recipe_listing.title == "Glass of water" {
                Some(recipe_listing.id)
            } else {
                None
            }
        })
        .unwrap();

    let r = database::recipe(&db, id).unwrap();

    assert_eq!(r.title, "Glass of water");
    assert_eq!(r.description, "Refreshing, isn't it?");
    assert_eq!(r.meal_type, "Drink");
    assert_eq!(r.source_name, "Cool source");
    assert_eq!(r.source_url, None);
    assert_eq!(f64::from_bits(r.ingredients[0].quantity_bits), 1.0);
    assert_eq!(r.ingredients[0].unit, "piece");
    assert_eq!(r.ingredients[0].name, "any drinking glass");
    assert_eq!(f64::from_bits(r.ingredients[1].quantity_bits), 2.5);
    assert_eq!(r.ingredients[1].unit, "dl");
    assert_eq!(r.ingredients[1].name, "water");
    assert_eq!(r.instructions[0], "Pour the water into the glass.");
    assert_eq!(r.instructions[1], "Enjoy the nice water.");
    let expected = chrono::NaiveDate::from_ymd_opt(2025, 1, 19).unwrap();
    let got = chrono::NaiveDate::from_ymd_opt(
        i32::from(r.creation_date.year()),
        u32::from(r.creation_date.month()),
        u32::from(r.creation_date.day()),
    )
    .unwrap();
    assert_eq!(got, expected);
}

#[test]
fn glass_of_water_has_exactly_two_ingredients_and_two_instructions() {
    let db = glass_of_water_catalogue();
    let r = database::recipe(&db, 1).unwrap();
    assert_eq!(r.ingredients.len(), 2);
    assert_eq!(r.instructions.len(), 2);
}

#[test]
fn listing_of_an_empty_catalogue_is_empty() {
    let db = Catalogue::new();
    assert!(database::all_recipe_titles(&db).is_empty());
}

#[test]
fn listing_is_in_identifier_order() {
    let mut db = Catalogue::new();
    for (id, title) in [(7, "Soup"), (2, "Bread"), (5, "Tea")] {
        db.recipes.insert(RecipeRow {
            id,
            title: text(title),
            description: text(""),
            source_id: 1,
            meal_type_id: 1,
            creation_date: text("2025-01-19"),
        });
    }
    let listing = database::all_recipe_titles(&db);
    let ids: Vec<i64> = listing.iter().map(|l| l.id).collect();
    let titles: Vec<&str> = listing.iter().map(|l| l.title.as_str()).collect();
    assert_eq!(ids, vec![2, 5, 7]);
    assert_eq!(titles, vec!["Bread", "Tea", "Soup"]);
}

#[test]
fn unknown_recipe_is_row_not_found() {
    let db = glass_of_water_catalogue();
    assert!(matches!(database::recipe(&db, 2), Err(QueryError::RowNotFound)));
    assert!(matches!(database::recipe(&db, -1), Err(QueryError::RowNotFound)));
    assert!(matches!(database::recipe(&Catalogue::new(), 1), Err(QueryError::RowNotFound)));
}

#[test]
fn unknown_recipe_with_a_bad_date_elsewhere_is_still_row_not_found() {
    let mut db = glass_of_water_catalogue();
    db.recipes.insert(RecipeRow {
        id: 2,
        title: text("Broken"),
        description: text(""),
        source_id: 1,
        meal_type_id: 1,
        creation_date: text("yesterday"),
    });
    assert!(matches!(database::recipe(&db, 3), Err(QueryError::RowNotFound)));
}

#[test]
fn recipe_with_a_missing_source_is_row_not_found() {
    let mut db = glass_of_water_catalogue();
    db.recipes.insert(RecipeRow {
        id: 2,
        title: text("Orphan"),
        description: text(""),
        source_id: 9,
        meal_type_id: 1,
        creation_date: text("2025-01-19"),
    });
    assert!(matches!(database::recipe(&db, 2), Err(QueryError::RowNotFound)));
    // It is still listed: the index reads the recipe table alone.
    assert_eq!(database::all_recipe_titles(&db).len(), 2);
}

#[test]
fn recipe_with_a_missing_meal_type_is_row_not_found() {
    let mut db = glass_of_water_catalogue();
    db.recipes.insert(RecipeRow {
        id: 2,
        title: text("Orphan"),
        description: text(""),
        source_id: 1,
        meal_type_id: 9,
        creation_date: text("not a date"),
    });
    assert!(matches!(database::recipe(&db, 2), Err(QueryError::RowNotFound)));
}

#[test]
fn malformed_stored_date_is_a_decode_error() {
    let mut db = glass_of_water_catalogue();
    db.recipes.insert(RecipeRow {
        id: 2,
        title: text("Undated"),
        description: text(""),
        source_id: 1,
        meal_type_id: 1,
        creation_date: text("19.01.2025"),
    });
    assert!(matches!(
        database::recipe(&db, 2),
        Err(QueryError::Decode(DateError::Malformed))
    ));
}

#[test]
fn impossible_stored_date_is_a_decode_error() {
    let mut db = glass_of_water_catalogue();
    db.recipes.insert(RecipeRow {
        id: 2,
        title: text("Undated"),
        description: text(""),
        source_id: 1,
        meal_type_id: 1,
        creation_date: text("2025-02-29"),
    });
    assert!(matches!(
        database::recipe(&db, 2),
        Err(QueryError::Decode(DateError::OutOfRange))
    ));
}

#[test]
fn recipe_without_ingredients_or_instructions_has_empty_lists() {
    let mut db = Catalogue::new();
    db.sources.insert(SourceRow { id: 1, name: text("Book"), url: Some(text("")) });
    db.meal_types.insert(MealTypeRow { id: 1, name: text("Snack") });
    db.recipes.insert(RecipeRow {
        id: 4,
        title: text("Nothing"),
        description: text("Nothing at all"),
        source_id: 1,
        meal_type_id: 1,
        creation_date: text("2024-02-29"),
    });
    let r = database::recipe(&db, 4).unwrap();
    assert!(r.ingredients.is_empty());
    assert!(r.instructions.is_empty());
    // An empty address is not the same as none.
    assert_eq!(r.source_url, Some(String::new()));
    assert_eq!((r.creation_date.year(), r.creation_date.month(), r.creation_date.day()), (2024, 2, 29));
}

#[test]
fn source_url_is_handed_out_as_stored() {
    let mut db = Catalogue::new();
    db.sources.insert(SourceRow { id: 1, name: text("Site"), url: Some(text("https://example.org/r")) });
    db.meal_types.insert(MealTypeRow { id: 1, name: text("Snack") });
    db.recipes.insert(RecipeRow {
        id: 1,
        title: text("Toast"),
        description: text(""),
        source_id: 1,
        meal_type_id: 1,
        creation_date: text("2025-01-19"),
    });
    let r = database::recipe(&db, 1).unwrap();
    assert_eq!(r.source_url.as_deref(), Some("https://example.org/r"));
    assert_eq!(r.source_name, "Site");
}

#[test]
fn instructions_come_in_step_order_whatever_order_they_were_stored_in() {
    let mut db = glass_of_water_catalogue();
    db.recipes.insert(RecipeRow {
        id: 2,
        title: text("Tea"),
        description: text(""),
        source_id: 1,
        meal_type_id: 1,
        creation_date: text("2025-01-20"),
    });
    let stored = [
        (10, 2, 3, "Pour."),
        (11, 1, 3, "Not of this recipe."),
        (12, 2, 1, "Boil water."),
        (13, 2, 4, "Drink."),
        (14, 2, 2, "Add leaves."),
    ];
    for (id, recipe_id, step_number, description) in stored {
        db.instructions.insert(InstructionRow {
            id,
            recipe_id,
            step_number,
            description: text(description),
        });
    }
    let r = database::recipe(&db, 2).unwrap();
    assert_eq!(r.instructions, vec!["Boil water.", "Add leaves.", "Pour.", "Drink."]);
    let first = database::recipe(&db, 1).unwrap();
    assert_eq!(
        first.instructions,
        vec!["Pour the water into the glass.", "Enjoy the nice water.", "Not of this recipe."]
    );
}

#[test]
fn steps_with_the_same_number_come_in_row_order() {
    let mut db = glass_of_water_catalogue();
    for (id, step_number, description) in [(30, 2, "b"), (20, 2, "a"), (40, 0, "first")] {
        db.instructions.insert(InstructionRow {
            id,
            recipe_id: 1,
            step_number,
            description: text(description),
        });
    }
    let r = database::recipe(&db, 1).unwrap();
    assert_eq!(
        r.instructions,
        vec![
            "first",
            "Pour the water into the glass.",
            "Enjoy the nice water.",
            "a",
            "b"
        ]
    );
}

#[test]
fn ingredients_come_in_row_order_and_dangling_rows_are_left_out() {
    let mut db = glass_of_water_catalogue();
    // A row that names a measurement that is not there, one of another
    // recipe, and one that was stored with a smaller identifier.
    for (id, recipe_id, ingredient_id, measurement_id, quantity) in
        [(5, 1, 2, 9, 3.0f64), (6, 2, 2, 2, 4.0), (0, 1, 2, 1, 0.5), (7, 1, 9, 1, 1.0)]
    {
        db.recipe_ingredients.insert(RecipeIngredientRow {
            id,
            recipe_id,
            ingredient_id,
            measurement_id,
            quantity_bits: quantity.to_bits(),
        });
    }
    let r = database::recipe(&db, 1).unwrap();
    let got: Vec<(f64, &str, &str)> = r
        .ingredients
        .iter()
        .map(|i| (f64::from_bits(i.quantity_bits), i.unit.as_str(), i.name.as_str()))
        .collect();
    assert_eq!(
        got,
        vec![(0.5, "piece", "water"), (1.0, "piece", "any drinking glass"), (2.5, "dl", "water")]
    );
}

#[test]
fn assemble_recipe_reads_the_date_and_keeps_the_rest() {
    let header = food::catalogue::HeaderRow {
        title: text("T"),
        description: text("D"),
        source_name: text("S"),
        source_url: None,
        meal_type: text("M"),
        creation_date: text("1999-12-31"),
    };
    let ingredients = vec![food::models::Ingredient {
        quantity_bits: 0.25f64.to_bits(),
        unit: text("l"),
        name: text("milk"),
    }];
    let r = database::assemble_recipe(header, ingredients.clone(), vec![text("Drink it.")]).unwrap();
    assert_eq!(r.title, "T");
    assert_eq!(r.description, "D");
    assert_eq!(r.source_name, "S");
    assert_eq!(r.meal_type, "M");
    assert_eq!(r.source_url, None);
    assert_eq!(r.ingredients, ingredients);
    assert_eq!(r.instructions, vec!["Drink it."]);
    assert_eq!((r.creation_date.year(), r.creation_date.month(), r.creation_date.day()), (1999, 12, 31));
}

#[test]
fn table_keeps_rows_in_identifier_order_and_refuses_a_second_row_with_one_identifier() {
    let mut db = Catalogue::new();
    assert_eq!(db.meal_types.insert(MealTypeRow { id: 5, name: text("five") }), Some(0));
    assert_eq!(db.meal_types.insert(MealTypeRow { id: 1, name: text("one") }), Some(0));
    assert_eq!(db.meal_types.insert(MealTypeRow { id: 3, name: text("three") }), Some(1));
    assert_eq!(db.meal_types.insert(MealTypeRow { id: 9, name: text("nine") }), Some(3));
    assert_eq!(db.meal_types.insert(MealTypeRow { id: 3, name: text("again") }), None);
    assert_eq!(db.meal_types.len(), 4);
    let names: Vec<&str> = db.meal_types.rows().iter().map(|r| r.name.as_str()).collect();
    assert_eq!(names, vec!["one", "three", "five", "nine"]);
    assert_eq!(db.meal_types.get(3).map(|r| r.name.as_str()), Some("three"));
    assert!(db.meal_types.get(4).is_none());
}

/// A small generator of numbers, the same on every run.
fn next(state: &mut u64) -> u64 {
    *state = state.wrapping_mul(6364136223846793005).wrapping_add(1442695040888963407);
    *state >> 33
}

#[test]
fn reads_agree_with_a_plain_filter_and_sort_on_many_catalogues() {
    let mut state = 2025_01_19u64;
    for _ in 0..200 {
        let mut db = Catalogue::new();
        for id in 0..3 {
            if next(&mut state) % 4 != 0 {
                db.sources.insert(SourceRow { id, name: format!("s{id}"), url: None });
            }
            if next(&mut state) % 4 != 0 {
                db.meal_types.insert(MealTypeRow { id, name: format!("m{id}") });
            }
            if next(&mut state) % 4 != 0 {
                db.ingredients.insert(IngredientRow { id, name: format!("i{id}") });
            }
            if next(&mut state) % 4 != 0 {
                db.measurements.insert(MeasurementRow { id, unit: format!("u{id}") });
            }
        }
        let mut recipes = Vec::new();
        for _ in 0..3 {
            let row = RecipeRow {
                id: (next(&mut state) % 4) as i64,
                title: format!("t{}", next(&mut state) % 10),
                description: String::new(),
                source_id: (next(&mut state) % 3) as i64,
                meal_type_id: (next(&mut state) % 3) as i64,
                creation_date: if next(&mut state) % 5 == 0 { text("2025-02-30") } else { text("2025-02-03") },
            };
            if db.recipes.insert(row.clone()).is_some() {
                recipes.push(row);
            }
        }
        let mut links = Vec::new();
        let mut steps = Vec::new();
        for _ in 0..12 {
            let link = RecipeIngredientRow {
                id: (next(&mut state) % 40) as i64,
                recipe_id: (next(&mut state) % 4) as i64,
                ingredient_id: (next(&mut state) % 3) as i64,
                measurement_id: (next(&mut state) % 3) as i64,
                quantity_bits: next(&mut state),
            };
            if db.recipe_ingredients.insert(link.clone()).is_some() {
                links.push(link);
            }
            let step = InstructionRow {
                id: (next(&mut state) % 40) as i64,
                recipe_id: (next(&mut state) % 4) as i64,
                step_number: (next(&mut state) % 5) as i64 - 1,
                description: format!("d{}", next(&mut state) % 100),
            };
            if db.instructions.insert(step.clone()).is_some() {
                steps.push(step);
            }
        }
        links.sort_by_key(|link| link.id);
        steps.sort_by_key(|step| (step.step_number, step.id));
        recipes.sort_by_key(|recipe| recipe.id);

        let listed: Vec<(i64, String)> =
            database::all_recipe_titles(&db).into_iter().map(|l| (l.id, l.title)).collect();
        let expected: Vec<(i64, String)> =
            recipes.iter().map(|r| (r.id, r.title.clone())).collect();
        assert_eq!(listed, expected);

        for id in 0..5 {
            let got = database::recipe(&db, id);
            let row = recipes.iter().find(|r| r.id == id);
            let joined = row.filter(|r| {
                db.sources.get(r.source_id).is_some() && db.meal_types.get(r.meal_type_id).is_some()
            });
            match joined {
                None => assert!(matches!(got, Err(QueryError::RowNotFound))),
                Some(row) if row.creation_date == "2025-02-30" => {
                    assert!(matches!(got, Err(QueryError::Decode(DateError::OutOfRange))))
                }
                Some(row) => {
                    let got = got.unwrap();
                    assert_eq!(got.title, row.title);
                    assert_eq!(got.source_name, format!("s{}", row.source_id));
                    assert_eq!(got.meal_type, format!("m{}", row.meal_type_id));
                    let ingredients: Vec<(u64, String, String)> = links
                        .iter()
                        .filter(|l| l.recipe_id == id)
                        .filter(|l| {
                            db.measurements.get(l.measurement_id).is_some()
                                && db.ingredients.get(l.ingredient_id).is_some()
                        })
                        .map(|l| {
                            (
                                l.quantity_bits,
                                format!("u{}", l.measurement_id),
                                format!("i{}", l.ingredient_id),
                            )
                        })
                        .collect();
                    let got_ingredients: Vec<(u64, String, String)> = got
                        .ingredients
                        .into_iter()
                        .map(|i| (i.quantity_bits, i.unit, i.name))
                        .collect();
                    assert_eq!(got_ingredients, ingredients);
                    let instructions: Vec<String> = steps
                        .iter()
                        .filter(|s| s.recipe_id == id)
                        .map(|s| s.description.clone())
                        .collect();
                    assert_eq!(got.instructions, instructions);
                }
            }
        }
    }
}

#[test]
fn steps_numbered_from_one_give_the_instruction_at_their_number() {
    let mut db = glass_of_water_catalogue();
    db.recipes.insert(RecipeRow {
        id: 2,
        title: text("Five steps"),
        description: text(""),
        source_id: 1,
        meal_type_id: 1,
        creation_date: text("2025-01-19"),
    });
    let numbers = [4i64, 1, 5, 3, 2];
    for (at, number) in numbers.iter().enumerate() {
        db.instructions.insert(InstructionRow {
            id: 100 + at as i64,
            recipe_id: 2,
            step_number: *number,
            description: format!("step {number}"),
        });
    }
    let r = database::recipe(&db, 2).unwrap();
    assert_eq!(r.instructions.len(), 5);
    for number in 1..=5usize {
        assert_eq!(r.instructions[number - 1], format!("step {number}"));
    }
}
