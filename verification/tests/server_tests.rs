use home_cook_book::recipe::{
    DbRowRecipe, DbRowRecipeLight, JsonRecipe, JsonRecipeCollection, JsonRecipeIngredients, JsonRecipeInstructions,
    JsonRecipeNotes, JsonRecipeTags, Recipe, RecipeActionDescriptor, RecipeIngredient, RecipeInstruction, RecipeLight,
    RecipeNote, RecipeTag,
};
use home_cook_book::server::{
    apply_json_save_commands, json_collection_from_rows, recipe_action_command, recipe_name_is_searchable,
    recipes_light_from_rows, sort_json_recipes, sort_recipes_light, RecipeDbCommand,
};
use home_cook_book::storage::{
    columns_of_json_recipe, json_recipe_from_columns, recipe_from_db_row, recipe_light_from_db_row, RecipeColumns,
};

fn s(x: &str) -> String {
    x.to_string()
}

fn json(name: &str) -> JsonRecipe {
    JsonRecipe {
        name: s(name),
        tags: JsonRecipeTags(Some(vec![s("t")])),
        ingredients: JsonRecipeIngredients(None),
        instructions: JsonRecipeInstructions(s("do")),
        notes: JsonRecipeNotes(Some(vec![])),
    }
}

#[test]
fn action_commands() {
    let r = Recipe { id: None, name: s("A"), ..Recipe::default() };
    assert_eq!(
        recipe_action_command(RecipeActionDescriptor::Add(r)),
        Ok(RecipeDbCommand::Insert(RecipeColumns {
            name: s("A"),
            tags: s("null"),
            ingredients: s("null"),
            instructions: s("\"\""),
            notes: s("null"),
        }))
    );
    let no_id = Recipe { id: None, name: s("A"), ..Recipe::default() };
    assert_eq!(recipe_action_command(RecipeActionDescriptor::Save(no_id)), Err(s("No Recipe ID for recipe save")));
    let with_id = Recipe { id: Some(4), name: s("B"), ..Recipe::default() };
    match recipe_action_command(RecipeActionDescriptor::Save(with_id)) {
        Ok(RecipeDbCommand::Update(4, c)) => assert_eq!(c.name, "B"),
        other => panic!("unexpected {:?}", other),
    }
    assert_eq!(recipe_action_command(RecipeActionDescriptor::Delete(3)), Ok(RecipeDbCommand::Delete(3)));
    assert_eq!(recipe_action_command(RecipeActionDescriptor::Duplicate(3)), Ok(RecipeDbCommand::Duplicate(3)));
    assert!(RecipeDbCommand::Delete(1).sql().starts_with("DELETE FROM recipes WHERE id"));
    assert_eq!(RecipeDbCommand::DeleteAll.sql(), "DELETE FROM recipes;");
    let empty = || columns_of_json_recipe(json("z"));
    assert!(RecipeDbCommand::RestoreInsert(empty()).sql().ends_with("VALUES ($1, $2, $3, $4, $5);"));
    assert!(RecipeDbCommand::Insert(empty()).sql().ends_with("VALUES ($1, $2, $3, $4, $5)"));
}

#[test]
fn backup_restore_commands() {
    let cmds = apply_json_save_commands(JsonRecipeCollection(vec![json("x"), json("y")]));
    assert_eq!(
        cmds,
        vec![
            RecipeDbCommand::DeleteAll,
            RecipeDbCommand::RestoreInsert(columns_of_json_recipe(json("x"))),
            RecipeDbCommand::RestoreInsert(columns_of_json_recipe(json("y"))),
        ]
    );
    assert_eq!(apply_json_save_commands(JsonRecipeCollection(vec![])), vec![RecipeDbCommand::DeleteAll]);
}

#[test]
fn light_recipe_of_row() {
    let row = DbRowRecipeLight { id: 5, recipe_name: s("Pie"), recipe_tags: s("[\"a\"]"), recipe_ingredients: s("null") };
    assert_eq!(
        recipe_light_from_db_row(row),
        Ok(RecipeLight { id: 5, name: s("Pie"), tags: Some(vec![RecipeTag { name: s("a") }]), ingredients: None })
    );
    let bad = DbRowRecipeLight { id: 5, recipe_name: s("Pie"), recipe_tags: s("[1]"), recipe_ingredients: s("null") };
    assert!(recipe_light_from_db_row(bad).is_err());
}

#[test]
fn columns_are_json_texts() {
    let c = columns_of_json_recipe(JsonRecipe {
        name: s("Soup"),
        tags: JsonRecipeTags(Some(vec![s("hot"), s("a\"b")])),
        ingredients: JsonRecipeIngredients(Some(vec![(s("2 l"), s("water"))])),
        instructions: JsonRecipeInstructions(s("boil\nserve")),
        notes: JsonRecipeNotes(None),
    });
    assert_eq!(c.name, "Soup");
    assert_eq!(c.tags, "[\"hot\",\"a\\\"b\"]");
    assert_eq!(c.ingredients, "[[\"2 l\",\"water\"]]");
    assert_eq!(c.instructions, "\"boil\\nserve\"");
    assert_eq!(c.notes, "null");
}

#[test]
fn stored_recipe_reads_back() {
    let recipe = Recipe {
        id: Some(9),
        name: s("Crêpes"),
        tags: Some(vec![RecipeTag { name: s("sweet") }]),
        ingredients: Some(vec![RecipeIngredient { qty_unit: s("250 g"), content: s("flour") }]),
        instructions: RecipeInstruction { content: s("mix \"well\"") },
        notes: Some(vec![RecipeNote { content: s("rest 1h") }]),
    };
    let expected = Recipe {
        id: Some(9),
        name: s("Crêpes"),
        tags: Some(vec![RecipeTag { name: s("sweet") }]),
        ingredients: Some(vec![RecipeIngredient { qty_unit: s("250 g"), content: s("flour") }]),
        instructions: RecipeInstruction { content: s("mix \"well\"") },
        notes: Some(vec![RecipeNote { content: s("rest 1h") }]),
    };
    let cols = match recipe_action_command(RecipeActionDescriptor::Save(recipe)) {
        Ok(RecipeDbCommand::Update(9, c)) => c,
        other => panic!("unexpected {:?}", other),
    };
    let row = DbRowRecipe {
        id: 9,
        recipe_name: cols.name,
        recipe_tags: cols.tags,
        recipe_ingredients: cols.ingredients,
        recipe_instructions: cols.instructions,
        recipe_notes: cols.notes,
    };
    assert_eq!(recipe_from_db_row(row), Ok(expected));
}

#[test]
fn unreadable_columns_are_refused() {
    let r = json_recipe_from_columns(s("X"), "null", "{}", "\"\"", "null");
    assert!(r.is_err());
    let r = json_recipe_from_columns(s("X"), "null", "null", "3", "null");
    assert!(r.is_err());
    let ok = json_recipe_from_columns(s("X"), "[]", "null", "\"go\"", "[\"n\"]");
    assert_eq!(
        ok,
        Ok(JsonRecipe {
            name: s("X"),
            tags: JsonRecipeTags(Some(vec![])),
            ingredients: JsonRecipeIngredients(None),
            instructions: JsonRecipeInstructions(s("go")),
            notes: JsonRecipeNotes(Some(vec![s("n")])),
        })
    );
}

fn light_row(id: u16, name: &str) -> DbRowRecipeLight {
    DbRowRecipeLight { id, recipe_name: s(name), recipe_tags: s("null"), recipe_ingredients: s("null") }
}

#[test]
fn light_rows_are_read_and_sorted() {
    let v = recipes_light_from_rows(vec![light_row(1, "b"), light_row(2, "A"), light_row(3, "a")]).unwrap();
    assert_eq!(v.iter().map(|r| r.id).collect::<Vec<_>>(), vec![2, 3, 1]);
    let mut bad = light_row(4, "c");
    bad.recipe_ingredients = s("oops");
    assert!(recipes_light_from_rows(vec![light_row(1, "b"), bad]).is_err());
    assert_eq!(recipes_light_from_rows(vec![]), Ok(vec![]));
}

#[test]
fn full_rows_make_a_sorted_backup() {
    let row = |id: u16, name: &str| DbRowRecipe {
        id,
        recipe_name: s(name),
        recipe_tags: s("null"),
        recipe_ingredients: s("null"),
        recipe_instructions: s("\"\""),
        recipe_notes: s("null"),
    };
    let c = json_collection_from_rows(vec![row(1, "zeta"), row(2, "Alpha")]).unwrap();
    assert_eq!(c.0.iter().map(|r| r.name.clone()).collect::<Vec<_>>(), vec![s("Alpha"), s("zeta")]);
    let mut bad = row(3, "x");
    bad.recipe_notes = s("");
    assert!(json_collection_from_rows(vec![bad]).is_err());
}

fn light(id: u16, name: &str) -> RecipeLight {
    RecipeLight { id, name: s(name), tags: None, ingredients: None }
}

#[test]
fn recipes_are_sorted_ignoring_case_and_stably() {
    let sorted = sort_recipes_light(vec![light(1, "banana"), light(2, "Apple"), light(3, "apple"), light(4, "Cherry")]);
    assert_eq!(sorted.iter().map(|r| r.id).collect::<Vec<_>>(), vec![2, 3, 1, 4]);
    let js = sort_json_recipes(JsonRecipeCollection(vec![json("b"), json("A"), json("a")]));
    assert_eq!(js.0.iter().map(|r| r.name.clone()).collect::<Vec<_>>(), vec![s("A"), s("a"), s("b")]);
}

#[test]
fn names_for_id_lookup() {
    assert!(!recipe_name_is_searchable(""));
    assert!(recipe_name_is_searchable("x"));
}

#[test]
fn restored_backup_exports_the_same_recipes() {
    let make = || {
        JsonRecipeCollection(vec![
            JsonRecipe {
                name: s("apple pie"),
                tags: JsonRecipeTags(Some(vec![s("sweet")])),
                ingredients: JsonRecipeIngredients(Some(vec![(s("3"), s("apples"))])),
                instructions: JsonRecipeInstructions(s("bake")),
                notes: JsonRecipeNotes(None),
            },
            json("Bread"),
            json("crêpe"),
        ])
    };
    let cmds = apply_json_save_commands(make());
    assert_eq!(cmds[0], RecipeDbCommand::DeleteAll);
    let mut rows = Vec::new();
    let mut id: u16 = 40;
    for cmd in cmds.into_iter().skip(1) {
        match cmd {
            RecipeDbCommand::RestoreInsert(c) => {
                rows.push(DbRowRecipe {
                    id,
                    recipe_name: c.name,
                    recipe_tags: c.tags,
                    recipe_ingredients: c.ingredients,
                    recipe_instructions: c.instructions,
                    recipe_notes: c.notes,
                });
                id += 1;
            }
            other => panic!("unexpected {:?}", other),
        }
    }
    let exported = json_collection_from_rows(rows).unwrap();
    assert_eq!(exported, make());
}
