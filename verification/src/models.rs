//! The values that the catalogue hands out: a listing entry, a recipe and its
//! ingredients.

use crate::date::{Date, DateView};
use vstd::prelude::*;

verus! {

/// One entry of the index of recipes.
#[derive(Debug, Clone, PartialEq, Eq)]
pub struct RecipeListing {
    pub id: i64,
    pub title: String,
}

/// What a listing entry is.
pub struct RecipeListingView {
    pub id: int,
    pub title: Seq<char>,
}

impl View for RecipeListing {
    type V = RecipeListingView;

    open spec fn view(&self) -> RecipeListingView {
        RecipeListingView { id: self.id as int, title: self.title@ }
    }
}

/// An amount of something that goes into a recipe.
#[derive(Debug, Clone, PartialEq, Eq)]
pub struct Ingredient {
    /// The amount, as the bits of an IEEE 754 double.
    pub quantity_bits: u64,
    pub unit: String,
    pub name: String,
}

/// What an ingredient is.
pub struct IngredientView {
    pub quantity_bits: u64,
    pub unit: Seq<char>,
    pub name: Seq<char>,
}

impl View for Ingredient {
    type V = IngredientView;

    open spec fn view(&self) -> IngredientView {
        IngredientView { quantity_bits: self.quantity_bits, unit: self.unit@, name: self.name@ }
    }
}

/// A recipe with all that belongs to it.
#[derive(Debug, Clone, PartialEq, Eq)]
pub struct Recipe {
    pub title: String,
    pub description: String,
    pub meal_type: String,
    pub source_name: String,
    pub source_url: Option<String>,
    pub ingredients: Vec<Ingredient>,
    pub instructions: Vec<String>,
    pub creation_date: Date,
}

/// What a recipe is.
pub struct RecipeView {
    pub title: Seq<char>,
    pub description: Seq<char>,
    pub meal_type: Seq<char>,
    pub source_name: Seq<char>,
    pub source_url: Option<Seq<char>>,
    pub ingredients: Seq<IngredientView>,
    pub instructions: Seq<Seq<char>>,
    pub creation_date: DateView,
}

/// What an optional text is.
pub open spec fn text_option_view(text: Option<String>) -> Option<Seq<char>> {
    match text {
        Some(t) => Some(t@),
        None => None,
    }
}

/// What a list of ingredients is.
pub open spec fn ingredients_view(ingredients: Seq<Ingredient>) -> Seq<IngredientView> {
    ingredients.map_values(|i: Ingredient| i@)
}

/// What a list of texts is.
pub open spec fn texts_view(texts: Seq<String>) -> Seq<Seq<char>> {
    texts.map_values(|t: String| t@)
}

/// What a list of listing entries is.
pub open spec fn listings_view(listings: Seq<RecipeListing>) -> Seq<RecipeListingView> {
    listings.map_values(|l: RecipeListing| l@)
}

impl View for Recipe {
    type V = RecipeView;

    open spec fn view(&self) -> RecipeView {
        RecipeView {
            title: self.title@,
            description: self.description@,
            meal_type: self.meal_type@,
            source_name: self.source_name@,
            source_url: text_option_view(self.source_url),
            ingredients: ingredients_view(self.ingredients@),
            instructions: texts_view(self.instructions@),
            creation_date: self.creation_date@,
        }
    }
}

} // verus!
