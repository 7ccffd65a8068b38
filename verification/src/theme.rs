//! Colour themes of the pages, the cards and the popups.
use vstd::prelude::*;
use crate::outside::random_below;

verus! {

/// The colour themes of a page or a recipe card.
#[derive(Clone, Copy, PartialEq, Eq, Debug, Structural)]
pub enum ThemeColor {
    Color1,
    Color2,
    Color3,
    Color4,
    Undefined,
}

fn concat3(a: &str, b: &str, c: &str) -> (res: String)
    ensures
        res@ == a@ + b@ + c@,
{
    let mut out = a.to_owned();
    out.append(b);
    out.append(c);
    out
}

impl ThemeColor {
    pub open spec fn main_color_spec(self) -> Seq<char> {
        match self {
            ThemeColor::Color1 => "var(--theme-color-1)"@,
            ThemeColor::Color2 => "var(--theme-color-2)"@,
            ThemeColor::Color3 => "var(--theme-color-3)"@,
            ThemeColor::Color4 => "var(--theme-color-4)"@,
            ThemeColor::Undefined => "var(--theme-color-undefined)"@,
        }
    }

    pub open spec fn alt_color_spec(self) -> Seq<char> {
        match self {
            ThemeColor::Color1 => "var(--theme-color-1-alt)"@,
            ThemeColor::Color2 => "var(--theme-color-2-alt)"@,
            ThemeColor::Color3 => "var(--theme-color-3-alt)"@,
            ThemeColor::Color4 => "var(--theme-color-4-alt)"@,
            ThemeColor::Undefined => "var(--theme-color-undefined-alt)"@,
        }
    }

    /// The colour that reads well on the page background: the main colour
    /// of the first two themes and of the undefined one, the alternative
    /// colour of the others.
    pub open spec fn visible_color_spec(self) -> Seq<char> {
        match self {
            ThemeColor::Color3 | ThemeColor::Color4 => self.alt_color_spec(),
            _ => self.main_color_spec(),
        }
    }

    /// The CSS value of the main colour.
    pub fn main_color(&self) -> (res: String)
        ensures
            res@ == self.main_color_spec(),
    {
        match self {
            ThemeColor::Color1 => "var(--theme-color-1)",
            ThemeColor::Color2 => "var(--theme-color-2)",
            ThemeColor::Color3 => "var(--theme-color-3)",
            ThemeColor::Color4 => "var(--theme-color-4)",
            ThemeColor::Undefined => "var(--theme-color-undefined)",
        }.to_owned()
    }

    /// The CSS value of the alternative colour.
    pub fn alt_color(&self) -> (res: String)
        ensures
            res@ == self.alt_color_spec(),
    {
        match self {
            ThemeColor::Color1 => "var(--theme-color-1-alt)",
            ThemeColor::Color2 => "var(--theme-color-2-alt)",
            ThemeColor::Color3 => "var(--theme-color-3-alt)",
            ThemeColor::Color4 => "var(--theme-color-4-alt)",
            ThemeColor::Undefined => "var(--theme-color-undefined-alt)",
        }.to_owned()
    }

    pub fn as_bg_main_color(&self) -> (res: String)
        ensures
            res@ == "background-color: "@ + self.main_color_spec() + ";"@,
    {
        concat3("background-color: ", self.main_color().as_str(), ";")
    }

    pub fn as_bg_alt_color(&self) -> (res: String)
        ensures
            res@ == "background-color: "@ + self.alt_color_spec() + ";"@,
    {
        concat3("background-color: ", self.alt_color().as_str(), ";")
    }

    pub fn as_main_color(&self) -> (res: String)
        ensures
            res@ == "color: "@ + self.main_color_spec() + ";"@,
    {
        concat3("color: ", self.main_color().as_str(), ";")
    }

    pub fn as_alt_color(&self) -> (res: String)
        ensures
            res@ == "color: "@ + self.alt_color_spec() + ";"@,
    {
        concat3("color: ", self.alt_color().as_str(), ";")
    }

    pub fn as_border_main_color(&self) -> (res: String)
        ensures
            res@ == "border-color: "@ + self.main_color_spec() + ";"@,
    {
        concat3("border-color: ", self.main_color().as_str(), ";")
    }

    pub fn as_border_alt_color(&self) -> (res: String)
        ensures
            res@ == "border-color: "@ + self.alt_color_spec() + ";"@,
    {
        concat3("border-color: ", self.alt_color().as_str(), ";")
    }

    /// Text colour style that reads well on the page background.
    pub fn as_visible_color(&self) -> (res: String)
        ensures
            res@ == "color: "@ + self.visible_color_spec() + ";"@,
    {
        let col = match self {
            ThemeColor::Color3 | ThemeColor::Color4 => self.alt_color(),
            _ => self.main_color(),
        };
        concat3("color: ", col.as_str(), ";")
    }

    /// The theme of a draw among the four defined themes.
    pub open spec fn from_draw_spec(i: usize) -> ThemeColor {
        if i == 0 {
            ThemeColor::Color1
        } else if i == 1 {
            ThemeColor::Color2
        } else if i == 2 {
            ThemeColor::Color3
        } else {
            ThemeColor::Color4
        }
    }

    /// The theme drawn as `i` among the four defined themes.
    pub fn from_draw(i: usize) -> (res: ThemeColor)
        requires
            i < 4,
        ensures
            res == Self::from_draw_spec(i),
    {
        match i {
            0 => ThemeColor::Color1,
            1 => ThemeColor::Color2,
            2 => ThemeColor::Color3,
            _ => ThemeColor::Color4,
        }
    }

    /// A theme drawn at random among the four defined themes; never `Undefined`.
    pub fn random() -> (res: ThemeColor)
        ensures
            res != ThemeColor::Undefined,
            exists|i: usize| i < 4 && res == Self::from_draw_spec(i),
    {
        let i = random_below(4);
        Self::from_draw(i)
    }
}

/// The colour of the card at position `local_id` of the recipe list: its
/// entry of the colour map, or `Undefined` past its end.
pub fn recipe_card_color(color_map: &Vec<ThemeColor>, local_id: usize) -> (res: ThemeColor)
    ensures
        local_id < color_map@.len() ==> res == color_map@[local_id as int],
        local_id >= color_map@.len() ==> res == ThemeColor::Undefined,
{
    if local_id < color_map.len() {
        color_map[local_id]
    } else {
        ThemeColor::Undefined
    }
}

/// The style of a recipe card: on the page background with a coloured
/// border while its menu is open, in its colours otherwise.
pub fn recipe_card_style(color: ThemeColor, is_menu_open: bool) -> (res: String)
    ensures
        is_menu_open ==> res@ == "background-color: var(--theme-color-bg);"@ + ("border-color: "@ + color.main_color_spec() + ";"@),
        !is_menu_open ==> res@ == ("background-color: "@ + color.main_color_spec() + ";"@) + ("color: "@ + color.alt_color_spec() + ";"@),
{
    if is_menu_open {
        let mut s = "background-color: var(--theme-color-bg);".to_owned();
        s.append(color.as_border_main_color().as_str());
        s
    } else {
        let mut s = color.as_bg_main_color();
        s.append(color.as_alt_color().as_str());
        s
    }
}

/// The style of the menu button of a recipe card.
pub fn recipe_card_button_style(color: ThemeColor, is_menu_open: bool) -> (res: String)
    ensures
        is_menu_open ==> res@ == "background-color: "@ + color.main_color_spec() + ";"@,
        !is_menu_open ==> res@ == "background-color: var(--theme-color-bg);"@,
{
    if is_menu_open {
        color.as_bg_main_color()
    } else {
        "background-color: var(--theme-color-bg);".to_owned()
    }
}

/// The colour schemes of the popups.
#[derive(Clone, Copy, PartialEq, Eq, Debug, Structural)]
pub enum PopupColor {
    Color1,
    Color2,
    Color3,
}

impl PopupColor {
    pub open spec fn window_background_spec(self) -> Seq<char> {
        match self {
            PopupColor::Color1 => "background-color: var(--theme-color-4);"@,
            PopupColor::Color2 => "background-color: var(--theme-color-3);"@,
            PopupColor::Color3 => "background-color: var(--theme-color-bg);"@,
        }
    }

    pub open spec fn button_right_spec(self) -> Seq<char> {
        match self {
            PopupColor::Color1 => "color: var(--theme-color-bg); background-color: var(--theme-color-popup-1);"@,
            PopupColor::Color2 => "color: var(--theme-color-bg); background-color: var(--theme-color-menu);"@,
            PopupColor::Color3 => "color: var(--theme-color-bg); background-color: var(--theme-color-popup-2);"@,
        }
    }

    pub open spec fn button_left_spec(self) -> Seq<char> {
        match self {
            PopupColor::Color1 => "color: black; background-color: var(--theme-color-bg);"@,
            PopupColor::Color2 => "color: black; background-color: var(--theme-color-bg);"@,
            PopupColor::Color3 => "color: var(--theme-color-4-alt); background-color: var(--theme-color-4);"@,
        }
    }

    pub fn window_background_color(&self) -> (res: String)
        ensures
            res@ == self.window_background_spec(),
    {
        match self {
            PopupColor::Color1 => "background-color: var(--theme-color-4);",
            PopupColor::Color2 => "background-color: var(--theme-color-3);",
            PopupColor::Color3 => "background-color: var(--theme-color-bg);",
        }.to_owned()
    }

    pub fn button_right_style(&self) -> (res: String)
        ensures
            res@ == self.button_right_spec(),
    {
        match self {
            PopupColor::Color1 => "color: var(--theme-color-bg); background-color: var(--theme-color-popup-1);",
            PopupColor::Color2 => "color: var(--theme-color-bg); background-color: var(--theme-color-menu);",
            PopupColor::Color3 => "color: var(--theme-color-bg); background-color: var(--theme-color-popup-2);",
        }.to_owned()
    }

    pub fn button_left_style(&self) -> (res: String)
        ensures
            res@ == self.button_left_spec(),
    {
        match self {
            PopupColor::Color1 => "color: black; background-color: var(--theme-color-bg);",
            PopupColor::Color2 => "color: black; background-color: var(--theme-color-bg);",
            PopupColor::Color3 => "color: var(--theme-color-4-alt); background-color: var(--theme-color-4);",
        }.to_owned()
    }

    /// The popup colour of a draw among the three schemes.
    pub open spec fn from_draw_spec(i: usize) -> PopupColor {
        if i == 0 {
            PopupColor::Color1
        } else if i == 1 {
            PopupColor::Color2
        } else {
            PopupColor::Color3
        }
    }

    /// The popup colour drawn as `i` among the three schemes.
    pub fn from_draw(i: usize) -> (res: PopupColor)
        requires
            i < 3,
        ensures
            res == Self::from_draw_spec(i),
    {
        match i {
            0 => PopupColor::Color1,
            1 => PopupColor::Color2,
            _ => PopupColor::Color3,
        }
    }

    /// A popup colour drawn at random.
    pub fn random() -> (res: PopupColor)
        ensures
            exists|i: usize| i < 3 && res == Self::from_draw_spec(i),
    {
        let i = random_below(3);
        Self::from_draw(i)
    }
}

} // verus!
