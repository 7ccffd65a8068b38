use home_cook_book::recipe::{
    JsonRecipe, JsonRecipeIngredients, JsonRecipeInstructions, JsonRecipeNotes, JsonRecipeTags, Recipe,
    RecipeEntry, RecipeEntryType, RecipeIngredient, RecipeInstruction, RecipeLight, RecipeNote, RecipeTag,
};

fn s(x: &str) -> String {
    x.to_string()
}

fn sample_json() -> JsonRecipe {
    JsonRecipe {
        name: s("Soup"),
        tags: JsonRecipeTags(Some(vec![s("Dinner"), s("Easy")])),
        ingredients: JsonRecipeIngredients(Some(vec![(s("2 kg"), s("Tomato")), (s(""), s("Salt"))])),
        instructions: JsonRecipeInstructions(s("Boil.")),
        notes: JsonRecipeNotes(None),
    }
}

#[test]
fn to_recipe_keeps_every_part() {
    let r = sample_json().to_recipe(7);
    assert_eq!(r.id, Some(7));
    assert_eq!(r.name, "Soup");
    assert_eq!(r.tags, Some(vec![RecipeTag { name: s("Dinner") }, RecipeTag { name: s("Easy") }]));
    assert_eq!(
        r.ingredients,
        Some(vec![
            RecipeIngredient { qty_unit: s("2 kg"), content: s("Tomato") },
            RecipeIngredient { qty_unit: s(""), content: s("Salt") },
        ])
    );
    assert_eq!(r.instructions, RecipeInstruction { content: s("Boil.") });
    assert_eq!(r.notes, None);
}

#[test]
fn json_round_trip_gives_back_the_stored_recipe() {
    let back = JsonRecipe::from_recipe(sample_json().to_recipe(3));
    assert_eq!(back, sample_json());
}

#[test]
fn recipe_round_trip_gives_back_the_recipe() {
    let r = Recipe {
        id: Some(12),
        name: s("Cake"),
        tags: None,
        ingredients: Some(vec![]),
        instructions: RecipeInstruction { content: s("") },
        notes: Some(vec![RecipeNote { content: s("Hot oven") }]),
    };
    let again = JsonRecipe::from_recipe(Recipe {
        id: Some(12),
        name: s("Cake"),
        tags: None,
        ingredients: Some(vec![]),
        instructions: RecipeInstruction { content: s("") },
        notes: Some(vec![RecipeNote { content: s("Hot oven") }]),
    })
    .to_recipe(12);
    assert_eq!(again, r);
}

#[test]
fn from_recipe_drops_the_id() {
    let j = JsonRecipe::from_recipe(Recipe {
        id: Some(1),
        name: s("A"),
        tags: Some(vec![RecipeTag { name: s("t") }]),
        ingredients: None,
        instructions: RecipeInstruction { content: s("x") },
        notes: None,
    });
    assert_eq!(j.tags, JsonRecipeTags(Some(vec![s("t")])));
    assert_eq!(j.ingredients, JsonRecipeIngredients(None));
    assert_eq!(j.instructions, JsonRecipeInstructions(s("x")));
}

#[test]
fn valid_for_save_needs_a_name() {
    let mut r = Recipe::default();
    assert_eq!(r.valid_for_save(), Err(s("Recipe has no name")));
    r.name = s("Bread");
    assert_eq!(r.valid_for_save(), Ok(()));
}

fn light(tags: Option<Vec<&str>>) -> RecipeLight {
    RecipeLight {
        id: 1,
        name: s("Pasta"),
        tags: tags.map(|v| v.into_iter().map(|t| RecipeTag { name: s(t) }).collect()),
        ingredients: None,
    }
}

#[test]
fn has_tags_with_no_tag_to_check_keeps_every_recipe() {
    assert!(light(None).has_tags(&vec![]));
    assert!(light(Some(vec!["x"])).has_tags(&vec![]));
}

#[test]
fn has_tags_needs_one_common_tag() {
    let r = light(Some(vec!["Dinner", "Quick"]));
    assert!(r.has_tags(&vec![s("Quick")]));
    assert!(r.has_tags(&vec![s("Nope"), s("Dinner")]));
    assert!(!r.has_tags(&vec![s("dinner")]));
    assert!(!light(None).has_tags(&vec![s("Dinner")]));
}

#[test]
fn title_and_class_of_each_entry_type() {
    assert_eq!(RecipeEntryType::Tag.title_and_class(), (s("Tags"), s("tags")));
    assert_eq!(RecipeEntryType::Ingredients.title_and_class(), (s("Ingredients"), s("ingredients")));
    assert_eq!(RecipeEntryType::Instructions.title_and_class(), (s("Instructions"), s("instructions")));
    assert_eq!(RecipeEntryType::Notes.title_and_class(), (s("Notes"), s("notes")));
}

#[test]
fn ingredient_fields() {
    let mut i = RecipeIngredient::default_entry();
    assert!(i.is_empty());
    i.update_field_from_string_input(Some(0), s("3 g"));
    i.update_field_from_string_input(Some(1), s("Sugar"));
    i.update_field_from_string_input(Some(5), s("ignored"));
    i.update_field_from_string_input(None, s("ignored"));
    assert_eq!(i, RecipeIngredient { qty_unit: s("3 g"), content: s("Sugar") });
    assert_eq!(i.get_string_from_field(Some(0)), "3 g");
    assert_eq!(i.get_string_from_field(Some(1)), "Sugar");
    assert!(!i.is_empty());
    assert_eq!(RecipeIngredient::get_entry_type(), RecipeEntryType::Ingredients);
    assert_eq!(RecipeIngredient::get_css_class_name(), "ingredients");
}

#[test]
fn single_field_entries_ignore_the_field_id() {
    let mut t = RecipeTag::default_entry();
    t.update_field_from_string_input(Some(9), s("Vegan"));
    assert_eq!(t.get_string_from_field(None), "Vegan");
    assert_eq!(RecipeTag::get_css_class_name(), "tags");
    let mut n = RecipeNote::default_entry();
    n.update_field_from_string_input(None, s("Tip"));
    assert_eq!(n.get_string_from_field(Some(1)), "Tip");
    assert_eq!(RecipeNote::get_entry_type(), RecipeEntryType::Notes);
    let mut ins = RecipeInstruction::default_entry();
    assert!(ins.is_empty());
    ins.update_field_from_string_input(Some(0), s("Mix"));
    assert_eq!(ins.get_string_from_field(Some(0)), "Mix");
    assert_eq!(RecipeInstruction::get_css_class_name(), "instructions");
}
