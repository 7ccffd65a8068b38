use home_cook_book::recipe::{RecipeIngredient, RecipeLight, RecipeTag};
use home_cook_book::search::{
    collect_all_ingredients, collect_all_tags, filter_recipes, get_search_words_from_input_value, search_words_match,
};

fn s(x: &str) -> String {
    x.to_string()
}

fn recipe(id: u16, name: &str, tags: &[&str], ingrs: &[&str]) -> RecipeLight {
    RecipeLight {
        id,
        name: s(name),
        tags: if tags.is_empty() { None } else { Some(tags.iter().map(|t| RecipeTag { name: s(t) }).collect()) },
        ingredients: if ingrs.is_empty() {
            None
        } else {
            Some(ingrs.iter().map(|c| RecipeIngredient { qty_unit: s("1"), content: s(c) }).collect())
        },
    }
}

#[test]
fn search_words_are_lowercase_words() {
    assert_eq!(get_search_words_from_input_value(s("Tomato, SOUP!")), vec![s("tomato"), s("soup")]);
    assert_eq!(get_search_words_from_input_value(s("  ")), Vec::<String>::new());
    assert_eq!(get_search_words_from_input_value(s("crème brûlée")), vec![s("crème"), s("brûlée")]);
}

#[test]
fn search_matches_parts_of_words_both_ways() {
    let words = vec![s("tomato"), s("soup")];
    assert!(search_words_match(&words, &[s("tom")]));
    assert!(search_words_match(&words, &[s("soups")]));
    assert!(!search_words_match(&words, &[s("bread")]));
    assert!(!search_words_match(&words, &[]));
    assert!(!search_words_match(&vec![], &[s("x")]));
}

#[test]
fn is_in_search_looks_at_name_tags_and_ingredients() {
    let r = recipe(1, "Tomato Soup", &["Dinner"], &["Basil leaves"]);
    assert!(r.is_in_search(&[s("soup")]));
    assert!(r.is_in_search(&[s("dinn")]));
    assert!(r.is_in_search(&[s("basil")]));
    assert!(r.is_in_search(&[s("xyz"), s("leaf")]) == false);
    assert!(r.is_in_search(&[s("leaves")]));
    // the recipe text is lowercased, the searched words are not
    assert!(!r.is_in_search(&[s("Soup")]));
}

#[test]
fn filter_keeps_positions_and_applies_both_filters() {
    let rs = vec![
        recipe(10, "Tomato Soup", &["Dinner"], &["Tomato"]),
        recipe(11, "Apple Pie", &["Dessert"], &["Apple"]),
        recipe(12, "Pea Soup", &["Dinner"], &[]),
    ];
    let out = filter_recipes(rs, &vec![s("Dinner")], &vec![s("pea")]);
    assert_eq!(out.len(), 1);
    assert_eq!(out[0].0, 2);
    assert_eq!(out[0].1.id, 12);
}

#[test]
fn filter_without_selection_keeps_every_recipe() {
    let rs = vec![recipe(1, "A", &[], &[]), recipe(2, "B", &["t"], &[])];
    let out = filter_recipes(rs, &vec![], &vec![]);
    assert_eq!(out.iter().map(|p| (p.0, p.1.id)).collect::<Vec<_>>(), vec![(0, 1), (1, 2)]);
}

#[test]
fn filter_by_tag_only() {
    let rs = vec![recipe(1, "A", &["x"], &[]), recipe(2, "B", &[], &[]), recipe(3, "C", &["y", "x"], &[])];
    let out = filter_recipes(rs, &vec![s("x")], &vec![]);
    assert_eq!(out.iter().map(|p| p.0).collect::<Vec<_>>(), vec![0, 2]);
}

#[test]
fn all_tags_are_unique_and_sorted_ignoring_case() {
    let rs = vec![
        recipe(1, "A", &["dinner", "Easy"], &[]),
        recipe(2, "B", &["apero", "dinner"], &[]),
        recipe(3, "C", &[], &[]),
        recipe(4, "D", &["Zest", "easy"], &[]),
    ];
    assert_eq!(collect_all_tags(&rs), vec![s("apero"), s("dinner"), s("Easy"), s("easy"), s("Zest")]);
}

#[test]
fn all_ingredients_are_unique_and_sorted_ignoring_case() {
    let rs = vec![recipe(1, "A", &[], &["salt", "Pepper"]), recipe(2, "B", &[], &["salt", "butter"])];
    assert_eq!(collect_all_ingredients(&rs), vec![s("butter"), s("Pepper"), s("salt")]);
    assert_eq!(collect_all_ingredients(&vec![]), Vec::<String>::new());
}
