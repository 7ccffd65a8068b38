use home_cook_book::theme::{recipe_card_button_style, recipe_card_color, recipe_card_style, PopupColor, ThemeColor};

#[test]
fn theme_colors() {
    assert_eq!(ThemeColor::Color2.main_color(), "var(--theme-color-2)");
    assert_eq!(ThemeColor::Undefined.alt_color(), "var(--theme-color-undefined-alt)");
    assert_eq!(ThemeColor::Color1.as_bg_main_color(), "background-color: var(--theme-color-1);");
    assert_eq!(ThemeColor::Color4.as_bg_alt_color(), "background-color: var(--theme-color-4-alt);");
    assert_eq!(ThemeColor::Color3.as_main_color(), "color: var(--theme-color-3);");
    assert_eq!(ThemeColor::Color3.as_alt_color(), "color: var(--theme-color-3-alt);");
    assert_eq!(ThemeColor::Color1.as_border_main_color(), "border-color: var(--theme-color-1);");
    assert_eq!(ThemeColor::Color2.as_border_alt_color(), "border-color: var(--theme-color-2-alt);");
}

#[test]
fn visible_colors() {
    assert_eq!(ThemeColor::Color1.as_visible_color(), "color: var(--theme-color-1);");
    assert_eq!(ThemeColor::Color2.as_visible_color(), "color: var(--theme-color-2);");
    assert_eq!(ThemeColor::Color3.as_visible_color(), "color: var(--theme-color-3-alt);");
    assert_eq!(ThemeColor::Color4.as_visible_color(), "color: var(--theme-color-4-alt);");
    assert_eq!(ThemeColor::Undefined.as_visible_color(), "color: var(--theme-color-undefined);");
}

#[test]
fn random_colors_are_defined() {
    for _ in 0..200 {
        assert_ne!(ThemeColor::random(), ThemeColor::Undefined);
        let _ = PopupColor::random();
    }
    assert_eq!(ThemeColor::from_draw(2), ThemeColor::Color3);
    assert_eq!(PopupColor::from_draw(0), PopupColor::Color1);
}

#[test]
fn popup_styles() {
    assert_eq!(PopupColor::Color1.window_background_color(), "background-color: var(--theme-color-4);");
    assert_eq!(PopupColor::Color3.window_background_color(), "background-color: var(--theme-color-bg);");
    assert_eq!(
        PopupColor::Color2.button_right_style(),
        "color: var(--theme-color-bg); background-color: var(--theme-color-menu);"
    );
    assert_eq!(PopupColor::Color2.button_left_style(), "color: black; background-color: var(--theme-color-bg);");
    assert_eq!(
        PopupColor::Color3.button_left_style(),
        "color: var(--theme-color-4-alt); background-color: var(--theme-color-4);"
    );
}

#[test]
fn card_colors_and_styles() {
    let map = vec![ThemeColor::Color2, ThemeColor::Color4];
    assert_eq!(recipe_card_color(&map, 1), ThemeColor::Color4);
    assert_eq!(recipe_card_color(&map, 2), ThemeColor::Undefined);
    assert_eq!(
        recipe_card_style(ThemeColor::Color1, true),
        "background-color: var(--theme-color-bg);border-color: var(--theme-color-1);"
    );
    assert_eq!(
        recipe_card_style(ThemeColor::Color1, false),
        "background-color: var(--theme-color-1);color: var(--theme-color-1-alt);"
    );
    assert_eq!(recipe_card_button_style(ThemeColor::Color2, true), "background-color: var(--theme-color-2);");
    assert_eq!(recipe_card_button_style(ThemeColor::Color2, false), "background-color: var(--theme-color-bg);");
}
