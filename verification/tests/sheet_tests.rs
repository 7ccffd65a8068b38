use home_cook_book::pages::{
    logged_in_after_logout, login_check_outcome, new_recipe_button_shown, recipe_card_click, redirect_after_id_fetch,
    upload_form_shown, added_recipe_name, fetch_id_after_add, recipe_card_options, recipe_list_cards, recipe_menu_options, sheet_sections,
    suggestion_source, RecipePageMode, RoundMenuButton, SheetSections, SuggestionSource,
};
use home_cook_book::quantity::{quantity_parts_from_groups, scaled_quantity_text, split_quantity};
use home_cook_book::recipe::{
    Recipe, RecipeActionDescriptor, RecipeEntryType, RecipeInstruction, RecipeLight, RecipeNote, RecipeTag,
};
use home_cook_book::theme::ThemeColor;

fn s(x: &str) -> String {
    x.to_string()
}

fn parts(p: &str, n: &str, x: &str) -> Option<(String, String, String)> {
    Some((s(p), s(n), s(x)))
}

#[test]
fn quantities_split_around_their_number() {
    assert_eq!(split_quantity("250 g"), parts("", "250", " g"));
    assert_eq!(split_quantity("1,5 kg"), parts("", "1.5", " kg"));
    assert_eq!(split_quantity("about 2.25 cups"), parts("about ", "2.25", " cups"));
    assert_eq!(split_quantity("3"), parts("", "3", ""));
    assert_eq!(split_quantity("salt"), None);
    assert_eq!(split_quantity(".5 l"), None);
    assert_eq!(split_quantity(""), None);
}

#[test]
fn quantity_parts_of_match_groups() {
    assert_eq!(quantity_parts_from_groups(None), None);
    assert_eq!(
        quantity_parts_from_groups(Some(vec![Some(s("x2,5y")), Some(s("x")), Some(s("2,5")), Some(s("y"))])),
        parts("x", "2.5", "y")
    );
    assert_eq!(quantity_parts_from_groups(Some(vec![Some(s("7")), None, Some(s("7")), None])), parts("", "7", ""));
    assert_eq!(quantity_parts_from_groups(Some(vec![Some(s("a")), Some(s("a")), None])), None);
    assert_eq!(quantity_parts_from_groups(Some(vec![Some(s("a"))])), None);
}

#[test]
fn scaled_quantities_drop_trailing_zeros() {
    assert_eq!(scaled_quantity_text("", "500.00", " g"), "500 g");
    assert_eq!(scaled_quantity_text("about ", "1.50", " l"), "about 1.5 l");
    assert_eq!(scaled_quantity_text("", "0.25", ""), "0.25");
    assert_eq!(scaled_quantity_text("", "10.00", ""), "10");
    assert_eq!(scaled_quantity_text("", "0.00", " g"), "0 g");
}

#[test]
fn sheet_parts_follow_the_recipe() {
    let r = Recipe {
        id: Some(1),
        name: s("Tea"),
        tags: Some(vec![]),
        ingredients: None,
        instructions: RecipeInstruction { content: s("") },
        notes: Some(vec![RecipeNote { content: s("hot") }]),
    };
    assert_eq!(sheet_sections(&r), SheetSections { ingredients: false, instructions: false, notes: true, tags: true });
    let r2 = Recipe { instructions: RecipeInstruction { content: s("brew") }, tags: None, ..r };
    assert_eq!(sheet_sections(&r2), SheetSections { ingredients: false, instructions: true, notes: true, tags: false });
}

fn light(id: u16, name: &str, tags: &[&str]) -> RecipeLight {
    RecipeLight {
        id,
        name: s(name),
        tags: if tags.is_empty() { None } else { Some(tags.iter().map(|t| RecipeTag { name: s(t) }).collect()) },
        ingredients: None,
    }
}

#[test]
fn main_page_cards() {
    assert_eq!(recipe_list_cards(vec![], &vec![], &vec![], &vec![ThemeColor::Color1]), None);
    let recipes = vec![light(1, "Soup", &["hot"]), light(2, "Salad", &["cold"]), light(3, "Stew", &["hot"])];
    let colors = vec![ThemeColor::Color1, ThemeColor::Color2];
    let cards = recipe_list_cards(recipes, &vec![s("hot")], &vec![], &colors).unwrap();
    assert_eq!(
        cards,
        vec![(light(1, "Soup", &["hot"]), ThemeColor::Color1), (light(3, "Stew", &["hot"]), ThemeColor::Undefined)]
    );
    let all = recipe_list_cards(vec![light(5, "A", &[])], &vec![], &vec![], &colors).unwrap();
    assert_eq!(all, vec![(light(5, "A", &[]), ThemeColor::Color1)]);
    let none = recipe_list_cards(vec![light(5, "A", &[])], &vec![s("x")], &vec![], &colors).unwrap();
    assert!(none.is_empty());
}

#[test]
fn new_recipe_follow_up() {
    let r = Recipe { name: s("Pie"), ..Recipe::default() };
    assert_eq!(added_recipe_name(&RecipeActionDescriptor::Add(r)), Some(s("Pie")));
    assert_eq!(added_recipe_name(&RecipeActionDescriptor::Delete(3)), None);
    assert!(fetch_id_after_add(true, "Pie"));
    assert!(!fetch_id_after_add(true, ""));
    assert!(!fetch_id_after_add(false, "Pie"));
}

#[test]
fn page_modes_guard_editing() {
    assert!(RecipePageMode::Editable.needs_login());
    assert!(!RecipePageMode::Display.needs_login());
    assert!(!RecipePageMode::Print.needs_login());
    assert!(RecipePageMode::Editable.guards_unload(true));
    assert!(!RecipePageMode::Editable.guards_unload(false));
    assert!(!RecipePageMode::Display.guards_unload(true));
}

#[test]
fn menu_options_follow_the_login() {
    let (edit, print, delete, dup) =
        (RoundMenuButton::Edit, RoundMenuButton::Print, RoundMenuButton::Delete, RoundMenuButton::Duplicate);
    assert_eq!(recipe_menu_options(true), vec![edit, print, delete]);
    assert_eq!(recipe_menu_options(false), vec![print]);
    assert_eq!(recipe_card_options(true), vec![edit, dup, print]);
    assert_eq!(recipe_card_options(false), vec![print]);
}

#[test]
fn suggestions_by_entry_type() {
    assert_eq!(suggestion_source(RecipeEntryType::Tag), Some(SuggestionSource::AllTags));
    assert_eq!(suggestion_source(RecipeEntryType::Ingredients), Some(SuggestionSource::AllIngredients));
    assert_eq!(suggestion_source(RecipeEntryType::Notes), None);
    assert_eq!(suggestion_source(RecipeEntryType::Instructions), None);
}

#[test]
fn small_page_decisions() {
    assert_eq!(login_check_outcome(false, Ok(true)), (true, true));
    assert_eq!(login_check_outcome(true, Ok(false)), (false, false));
    assert_eq!(login_check_outcome(true, Err(s("down"))), (true, false));
    assert!(!logged_in_after_logout(true, true));
    assert!(logged_in_after_logout(true, false));
    assert_eq!(recipe_card_click(7, ThemeColor::Color3), (ThemeColor::Color3, s("/recipe/7/display")));
    assert!(new_recipe_button_shown(Some(true)));
    assert!(!new_recipe_button_shown(Some(false)));
    assert!(!new_recipe_button_shown(None));
    assert_eq!(redirect_after_id_fetch(Some(12)), Some(s("/recipe/12/editable")));
    assert_eq!(redirect_after_id_fetch(None), None);
    assert!(upload_form_shown(true, false));
    assert!(!upload_form_shown(false, false));
    assert!(!upload_form_shown(true, true));
}
