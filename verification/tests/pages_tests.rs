use home_cook_book::pages::{
    backup_download_href, clear_tags, delete_popup_confirm, initial_editable_recipe, is_backup_path, is_print_mode,
    recipe_page_path, recipe_save_action, round_menu_click, tag_input_width_style, tag_states, toggle_tag,
    DeletePopupInfo, PageAction, RecipePageMode, RoundMenuButton, ParseRecipePageModeError, page_mode_from_lowercase,
};
use home_cook_book::recipe::{Recipe, RecipeActionDescriptor, RecipeIngredient, RecipeInstruction};

fn s(x: &str) -> String {
    x.to_string()
}

#[test]
fn recipe_paths() {
    assert_eq!(recipe_page_path(0, RecipePageMode::Display), "/recipe/0/display");
    assert_eq!(recipe_page_path(42, RecipePageMode::Editable), "/recipe/42/editable");
    assert_eq!(recipe_page_path(65535, RecipePageMode::Print), "/recipe/65535/print");
    assert_eq!(recipe_page_path(100, RecipePageMode::Display), "/recipe/100/display");
}

#[test]
fn page_mode_parsing_ignores_case() {
    assert_eq!(RecipePageMode::from_str("display"), Ok(RecipePageMode::Display));
    assert_eq!(RecipePageMode::from_str("EDITABLE"), Ok(RecipePageMode::Editable));
    assert_eq!(RecipePageMode::from_str("Print"), Ok(RecipePageMode::Print));
    assert_eq!(RecipePageMode::from_str("edit"), Err(ParseRecipePageModeError));
    assert_eq!(page_mode_from_lowercase("Print"), None);
    assert_eq!(ParseRecipePageModeError.message(), "invalid input for RecipePageMode");
}

#[test]
fn page_titles() {
    assert_eq!(RecipePageMode::Display.page_title(), "Display Recipe");
    assert_eq!(RecipePageMode::Editable.page_title(), "Edit Recipe");
    assert_eq!(RecipePageMode::Print.page_title(), "Print Recipe");
}

#[test]
fn print_mode_and_backup_path() {
    assert!(is_print_mode(Some("print")));
    assert!(!is_print_mode(Some("Print")));
    assert!(!is_print_mode(None));
    assert!(is_backup_path("/backup"));
    assert!(is_backup_path("backup"));
    assert!(!is_backup_path("/backup/"));
    assert!(!is_backup_path("/recipe/1/display"));
    assert!(!is_backup_path(""));
}

#[test]
fn round_menu_buttons() {
    assert!(RoundMenuButton::Display.is_visible(Some(1), false));
    assert!(!RoundMenuButton::Display.is_visible(None, true));
    assert!(RoundMenuButton::New.is_visible(None, true));
    assert!(!RoundMenuButton::Edit.is_visible(Some(1), false));
    assert!(RoundMenuButton::Duplicate.is_visible(Some(1), true));
    assert!(RoundMenuButton::Delete.is_visible(Some(2), true));
    assert!(!RoundMenuButton::Delete.is_visible(Some(2), false));
    assert_eq!(RoundMenuButton::Print.class(0), "round-menu-first-button rm-button print");
    assert_eq!(RoundMenuButton::Delete.class(3), "round-menu-button rm-button delete");
    assert_eq!(round_menu_click(RoundMenuButton::New, None), PageAction::Navigate(s("/new-recipe")));
    assert_eq!(round_menu_click(RoundMenuButton::Edit, Some(5)), PageAction::Navigate(s("/recipe/5/editable")));
    assert_eq!(round_menu_click(RoundMenuButton::Print, Some(5)), PageAction::OpenWindow(s("/recipe/5/print")));
    assert_eq!(
        round_menu_click(RoundMenuButton::Duplicate, Some(5)),
        PageAction::Dispatch(RecipeActionDescriptor::Duplicate(5))
    );
    assert_eq!(round_menu_click(RoundMenuButton::Delete, Some(5)), PageAction::AskDelete(DeletePopupInfo(5)));
}

#[test]
fn delete_popup() {
    assert_eq!(delete_popup_confirm(Some(DeletePopupInfo(3))), Some(RecipeActionDescriptor::Delete(3)));
    assert_eq!(delete_popup_confirm(None), None);
}

fn named(id: Option<u16>, name: &str) -> Recipe {
    Recipe { id, name: s(name), ..Recipe::default() }
}

#[test]
fn save_actions() {
    assert_eq!(recipe_save_action(named(Some(1), ""), false), Err(s("Recipe has no name")));
    assert_eq!(recipe_save_action(named(None, "N"), true), Ok((RecipeActionDescriptor::Add(named(None, "N")), None)));
    assert_eq!(
        recipe_save_action(named(Some(9), "N"), false),
        Ok((RecipeActionDescriptor::Save(named(Some(9), "N")), Some(s("/recipe/9/display"))))
    );
    assert_eq!(recipe_save_action(named(None, "N"), false), Ok((RecipeActionDescriptor::Save(named(None, "N")), None)));
}

#[test]
fn editable_recipe_start() {
    let r = initial_editable_recipe(None, true);
    assert_eq!(r.ingredients, Some(vec![RecipeIngredient { qty_unit: s(""), content: s("") }]));
    assert_eq!(r.name, "");
    let r2 = initial_editable_recipe(Some(named(Some(2), "X")), false);
    assert_eq!(r2, named(Some(2), "X"));
    assert_eq!(initial_editable_recipe(None, false), Recipe::default());
    assert_eq!(Recipe::default().instructions, RecipeInstruction { content: s("") });
}

#[test]
fn tag_buttons() {
    let all = vec![s("a"), s("b"), s("c")];
    let mut selected = vec![s("b")];
    let mut states = tag_states(&all, &selected);
    assert_eq!(states, vec![(false, s("a")), (true, s("b")), (false, s("c"))]);
    toggle_tag(&mut states[0], &mut selected);
    assert_eq!(selected, vec![s("b"), s("a")]);
    assert!(states[0].0);
    toggle_tag(&mut states[0], &mut selected);
    assert_eq!(selected, vec![s("b")]);
    assert!(!states[0].0);
    clear_tags(&mut states, &mut selected);
    assert!(selected.is_empty());
    assert_eq!(states, vec![(false, s("a")), (false, s("b")), (false, s("c"))]);
}

#[test]
fn tag_width() {
    assert_eq!(tag_input_width_style("abc", true), "width: 3ch");
    assert_eq!(tag_input_width_style("é", true), "width: 2ch");
    assert_eq!(tag_input_width_style("abcdefghijklmnopqrstuvwxyz", true), "width: 20ch");
    assert_eq!(tag_input_width_style("abc", false), "");
}

#[test]
fn download_href_is_percent_encoded() {
    assert_eq!(backup_download_href("a b"), "data:text/plain;charset=utf-8,a%20b");
    assert_eq!(backup_download_href("{\"x\":\"é\"}"), "data:text/plain;charset=utf-8,%7B%22x%22%3A%22%C3%A9%22%7D");
    assert_eq!(backup_download_href("A-z_0.~"), "data:text/plain;charset=utf-8,A-z_0.~");
}
