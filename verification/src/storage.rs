//! How recipes are kept in the rows of the recipe table: the name as it is,
//! every other part as a JSON text.
use vstd::prelude::*;
use crate::outside::{
    JsonResult, json_text_of_names, json_text_of_pairs, json_text_of_string, json_names_of_text,
    json_pairs_of_text, json_string_of_text, names_to_json, pairs_to_json, string_to_json,
    names_from_json, pairs_from_json, string_from_json, json_error_message,
};
use crate::recipe::{
    Recipe, RecipeLight, RecipeLightModel, JsonRecipe, JsonRecipeModel, JsonRecipeTags,
    JsonRecipeIngredients, JsonRecipeInstructions, JsonRecipeNotes, DbRowRecipe, DbRowRecipeLight,
    recipe_of_json,
};

verus! {

/// The stored columns of a recipe, without its id.
#[derive(Debug, PartialEq, Eq)]
pub struct RecipeColumns {
    pub name: String,
    pub tags: String,
    pub ingredients: String,
    pub instructions: String,
    pub notes: String,
}

/// The columns of a recipe as plain values.
pub struct RecipeColumnsModel {
    pub name: Seq<char>,
    pub tags: Seq<char>,
    pub ingredients: Seq<char>,
    pub instructions: Seq<char>,
    pub notes: Seq<char>,
}

impl View for RecipeColumns {
    type V = RecipeColumnsModel;

    open spec fn view(&self) -> RecipeColumnsModel {
        RecipeColumnsModel {
            name: self.name@,
            tags: self.tags@,
            ingredients: self.ingredients@,
            instructions: self.instructions@,
            notes: self.notes@,
        }
    }
}

/// The columns that store a JSON recipe.
pub open spec fn columns_of(j: JsonRecipeModel) -> RecipeColumnsModel {
    RecipeColumnsModel {
        name: j.name,
        tags: json_text_of_names(j.tags),
        ingredients: json_text_of_pairs(j.ingredients),
        instructions: json_text_of_string(j.instructions),
        notes: json_text_of_names(j.notes),
    }
}

/// The columns of a full recipe row.
pub open spec fn row_columns(row: DbRowRecipe) -> RecipeColumnsModel {
    RecipeColumnsModel {
        name: row.recipe_name@,
        tags: row.recipe_tags@,
        ingredients: row.recipe_ingredients@,
        instructions: row.recipe_instructions@,
        notes: row.recipe_notes@,
    }
}

/// The JSON recipe that columns hold, when each JSON column reads.
pub open spec fn json_of_columns(c: RecipeColumnsModel) -> Option<JsonRecipeModel> {
    match (
        json_names_of_text(c.tags),
        json_pairs_of_text(c.ingredients),
        json_string_of_text(c.instructions),
        json_names_of_text(c.notes),
    ) {
        (Some(t), Some(i), Some(s), Some(n)) => Some(
            JsonRecipeModel { name: c.name, tags: t, ingredients: i, instructions: s, notes: n },
        ),
        _ => None,
    }
}

fn json_text_or_empty(r: JsonResult<String>) -> (res: String)
    ensures
        r matches Ok(t) ==> res == t,
{
    match r {
        Ok(t) => t,
        Err(_) => String::new(),
    }
}

/// The columns that store a JSON recipe: each part but the name is written
/// as JSON.
pub fn columns_of_json_recipe(j: JsonRecipe) -> (res: RecipeColumns)
    ensures
        res@ == columns_of(j@),
{
    let tags = json_text_or_empty(names_to_json(&j.tags.0));
    let ingredients = json_text_or_empty(pairs_to_json(&j.ingredients.0));
    let instructions = json_text_or_empty(string_to_json(&j.instructions.0));
    let notes = json_text_or_empty(names_to_json(&j.notes.0));
    RecipeColumns { name: j.name, tags, ingredients, instructions, notes }
}

/// Reads the JSON columns of a recipe, in the order tags, ingredients,
/// instructions, notes; the first column that does not read gives the error.
/// Columns written for a JSON recipe read back as that recipe.
pub fn json_recipe_from_columns(
    name: String,
    tags: &str,
    ingredients: &str,
    instructions: &str,
    notes: &str,
) -> (res: Result<JsonRecipe, String>)
    ensures
        ({
            let c = RecipeColumnsModel {
                name: name@,
                tags: tags@,
                ingredients: ingredients@,
                instructions: instructions@,
                notes: notes@,
            };
            &&& (res is Ok <==> json_of_columns(c) is Some)
            &&& (res matches Ok(j) ==> json_of_columns(c) == Some(j@))
            &&& forall|j: JsonRecipeModel| #[trigger] columns_of(j) == c ==> (res matches Ok(r) && r@ == j)
        }),
{
    let t = match names_from_json(tags) {
        Ok(v) => v,
        Err(e) => {
            return Err(json_error_message(e));
        },
    };
    let i = match pairs_from_json(ingredients) {
        Ok(v) => v,
        Err(e) => {
            return Err(json_error_message(e));
        },
    };
    let s = match string_from_json(instructions) {
        Ok(v) => v,
        Err(e) => {
            return Err(json_error_message(e));
        },
    };
    let n = match names_from_json(notes) {
        Ok(v) => v,
        Err(e) => {
            return Err(json_error_message(e));
        },
    };
    Ok(JsonRecipe {
        name,
        tags: JsonRecipeTags(t),
        ingredients: JsonRecipeIngredients(i),
        instructions: JsonRecipeInstructions(s),
        notes: JsonRecipeNotes(n),
    })
}

/// The JSON recipe of a full row.
pub fn json_recipe_from_db_row(row: DbRowRecipe) -> (res: Result<JsonRecipe, String>)
    ensures
        res is Ok <==> json_of_columns(row_columns(row)) is Some,
        res matches Ok(j) ==> json_of_columns(row_columns(row)) == Some(j@),
        forall|j: JsonRecipeModel| #[trigger] columns_of(j) == row_columns(row) ==> (res matches Ok(r) && r@ == j),
{
    json_recipe_from_columns(
        row.recipe_name,
        row.recipe_tags.as_str(),
        row.recipe_ingredients.as_str(),
        row.recipe_instructions.as_str(),
        row.recipe_notes.as_str(),
    )
}

/// The recipe of a full row, with the row's id. A row written for a recipe
/// reads back as that recipe.
pub fn recipe_from_db_row(row: DbRowRecipe) -> (res: Result<Recipe, String>)
    ensures
        res is Ok <==> json_of_columns(row_columns(row)) is Some,
        res matches Ok(r) ==> r@ == recipe_of_json(json_of_columns(row_columns(row)).unwrap(), row.id),
        forall|j: JsonRecipeModel| #[trigger] columns_of(j) == row_columns(row) ==> (res matches Ok(r) && r@ == recipe_of_json(j, row.id)),
{
    let id = row.id;
    match json_recipe_from_db_row(row) {
        Ok(j) => Ok(j.to_recipe(id)),
        Err(e) => Err(e),
    }
}

/// The light recipe that a light row holds, when its tags and ingredients
/// columns read.
pub open spec fn light_of_row(row: DbRowRecipeLight) -> Option<RecipeLightModel> {
    match (json_names_of_text(row.recipe_tags@), json_pairs_of_text(row.recipe_ingredients@)) {
        (Some(t), Some(i)) => Some(
            RecipeLightModel { id: row.id, name: row.recipe_name@, tags: t, ingredients: i },
        ),
        _ => None,
    }
}

/// The light recipe of a light row: its tags column is read first, then its
/// ingredients column.
pub fn recipe_light_from_db_row(row: DbRowRecipeLight) -> (res: Result<RecipeLight, String>)
    ensures
        res is Ok <==> light_of_row(row) is Some,
        res matches Ok(r) ==> light_of_row(row) == Some(r@),
        forall|t: Option<Seq<Seq<char>>>, i: Option<Seq<(Seq<char>, Seq<char>)>>|
            #![trigger json_text_of_names(t), json_text_of_pairs(i)]
            row.recipe_tags@ == json_text_of_names(t) && row.recipe_ingredients@ == json_text_of_pairs(i)
                ==> (res matches Ok(r) && r@ == (RecipeLightModel { id: row.id, name: row.recipe_name@, tags: t, ingredients: i })),
{
    let t = match names_from_json(row.recipe_tags.as_str()) {
        Ok(v) => v,
        Err(e) => {
            return Err(json_error_message(e));
        },
    };
    let i = match pairs_from_json(row.recipe_ingredients.as_str()) {
        Ok(v) => v,
        Err(e) => {
            return Err(json_error_message(e));
        },
    };
    Ok(RecipeLight {
        id: row.id,
        name: row.recipe_name,
        tags: JsonRecipeTags(t).to_recipe_tags(),
        ingredients: JsonRecipeIngredients(i).to_recipe_ingredients(),
    })
}

} // verus!
