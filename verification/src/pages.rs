//! Decisions of the pages: page modes and paths, the round menu, the tag
//! list, the settings menu, saving and deleting recipes.
use vstd::prelude::*;
use vstd::utf8::encode_utf8;
use crate::outside::{lowercase, to_lowercase, url_encode, percent_encode};
use crate::text::{decimal, push_decimal, to_chars};
use crate::recipe::{Recipe, RecipeModel, RecipeIngredient, RecipeLight, RecipeActionDescriptor, RecipeEntryType};
use crate::sorting::lemma_filter_all;
use crate::search::{filter_recipes, enumerated, kept_pred};
use crate::theme::{ThemeColor, recipe_card_color};

verus! {

/// How a recipe page shows its recipe.
#[derive(Clone, Copy, PartialEq, Eq, Debug, Structural)]
pub enum RecipePageMode {
    Display,
    Editable,
    Print,
}

/// The page mode of a path segment is none of `display`, `editable`, `print`.
#[derive(Clone, Copy, PartialEq, Eq, Debug, Structural)]
pub struct ParseRecipePageModeError;

impl ParseRecipePageModeError {
    /// The text of the error.
    pub fn message(&self) -> (res: String)
        ensures
            res@ == "invalid input for RecipePageMode"@,
    {
        "invalid input for RecipePageMode".to_owned()
    }
}

/// The mode named by an already lowercase path segment.
pub open spec fn page_mode_of(s: Seq<char>) -> Option<RecipePageMode> {
    if s == "display"@ {
        Some(RecipePageMode::Display)
    } else if s == "editable"@ {
        Some(RecipePageMode::Editable)
    } else if s == "print"@ {
        Some(RecipePageMode::Print)
    } else {
        None
    }
}

/// The mode named by a lowercase path segment.
pub fn page_mode_from_lowercase(s: &str) -> (res: Option<RecipePageMode>)
    ensures
        res == page_mode_of(s@),
{
    let owned = s.to_owned();
    if owned == "display".to_owned() {
        Some(RecipePageMode::Display)
    } else if owned == "editable".to_owned() {
        Some(RecipePageMode::Editable)
    } else if owned == "print".to_owned() {
        Some(RecipePageMode::Print)
    } else {
        None
    }
}

impl RecipePageMode {
    /// Reads the mode of a recipe page path, whatever its letter case.
    pub fn from_str(s: &str) -> (res: Result<RecipePageMode, ParseRecipePageModeError>)
        ensures
            match page_mode_of(lowercase(s@)) {
                Some(m) => res == Ok::<RecipePageMode, ParseRecipePageModeError>(m),
                None => res is Err,
            },
    {
        let lower = to_lowercase(s);
        match page_mode_from_lowercase(lower.as_str()) {
            Some(m) => Ok(m),
            None => Err(ParseRecipePageModeError),
        }
    }

    pub open spec fn segment_spec(self) -> Seq<char> {
        match self {
            RecipePageMode::Display => "display"@,
            RecipePageMode::Editable => "editable"@,
            RecipePageMode::Print => "print"@,
        }
    }

    pub open spec fn page_title_spec(self) -> Seq<char> {
        match self {
            RecipePageMode::Display => "Display Recipe"@,
            RecipePageMode::Editable => "Edit Recipe"@,
            RecipePageMode::Print => "Print Recipe"@,
        }
    }

    /// The path segment that names the mode.
    pub fn segment(&self) -> (res: &'static str)
        ensures
            res@ == self.segment_spec(),
    {
        match self {
            RecipePageMode::Display => "display",
            RecipePageMode::Editable => "editable",
            RecipePageMode::Print => "print",
        }
    }

    /// Only the editing page asks for a login.
    pub fn needs_login(&self) -> (res: bool)
        ensures
            res == (*self == RecipePageMode::Editable),
    {
        match self {
            RecipePageMode::Editable => true,
            _ => false,
        }
    }

    /// The page asks before it is left: it is the editing page and holds
    /// unsaved changes.
    pub fn guards_unload(&self, is_page_dirty: bool) -> (res: bool)
        ensures
            res == (*self == RecipePageMode::Editable && is_page_dirty),
    {
        match self {
            RecipePageMode::Editable => is_page_dirty,
            _ => false,
        }
    }

    /// The page name shown for the mode.
    pub fn page_title(&self) -> (res: String)
        ensures
            res@ == self.page_title_spec(),
    {
        match self {
            RecipePageMode::Display => "Display Recipe",
            RecipePageMode::Editable => "Edit Recipe",
            RecipePageMode::Print => "Print Recipe",
        }.to_owned()
    }
}

/// Law: the segment of every mode names that mode.
pub proof fn lemma_segment_names_mode(m: RecipePageMode)
    ensures
        page_mode_of(m.segment_spec()) == Some(m),
{
    reveal_strlit("display");
    reveal_strlit("editable");
    reveal_strlit("print");
    assert("display"@.len() == 7);
    assert("editable"@.len() == 8);
    assert("print"@.len() == 5);
}

/// The path of the page of recipe `id` in mode `mode`.
pub open spec fn recipe_path_spec(id: u16, mode: RecipePageMode) -> Seq<char> {
    "/recipe/"@ + decimal(id as nat) + "/"@ + mode.segment_spec()
}

/// `/recipe/<id>/<mode>`: the path of the page of a recipe.
pub fn recipe_page_path(id: u16, mode: RecipePageMode) -> (res: String)
    ensures
        res@ == recipe_path_spec(id, mode),
{
    let mut p = "/recipe/".to_owned();
    push_decimal(&mut p, id);
    p.append("/");
    p.append(mode.segment());
    p
}

/// The route parameter `mode` asks for print mode.
pub fn is_print_mode(mode: Option<&str>) -> (res: bool)
    ensures
        res == (mode matches Some(m) && m@ == "print"@),
{
    match mode {
        Some(m) => m.to_owned() == "print".to_owned(),
        None => false,
    }
}

/// The text after the last `/`, or the whole text when there is none.
pub open spec fn last_segment(s: Seq<char>) -> Seq<char>
    decreases s.len(),
{
    if s.len() == 0 {
        s
    } else if s.last() == '/' {
        Seq::empty()
    } else {
        last_segment(s.drop_last()).push(s.last())
    }
}

fn chars_equal(a: &Vec<char>, b: &Vec<char>) -> (res: bool)
    ensures
        res == (a@ == b@),
{
    if a.len() != b.len() {
        return false;
    }
    let mut i: usize = 0;
    while i < a.len()
        invariant
            a@.len() == b@.len(),
            i <= a@.len(),
            forall|j: int| 0 <= j < i ==> a@[j] == b@[j],
        decreases a.len() - i,
    {
        if a[i] != b[i] {
            return false;
        }
        i += 1;
    }
    assert(a@ =~= b@);
    true
}

/// Whether the last segment of a path is `backup`: the settings menu hides
/// its backup button on the backup page.
pub fn is_backup_path(path: &str) -> (res: bool)
    ensures
        res == (last_segment(path@) == "backup"@),
{
    let chars = to_chars(path);
    let mut seg: Vec<char> = Vec::new();
    let mut i: usize = 0;
    assert(chars@.take(0) =~= Seq::<char>::empty());
    while i < chars.len()
        invariant
            i <= chars@.len(),
            seg@ == last_segment(chars@.take(i as int)),
        decreases chars.len() - i,
    {
        assert(chars@.take(i + 1).drop_last() =~= chars@.take(i as int));
        assert(chars@.take(i + 1).last() == chars@[i as int]);
        if chars[i] == '/' {
            seg = Vec::new();
            assert(seg@ =~= Seq::<char>::empty());
        } else {
            seg.push(chars[i]);
        }
        i += 1;
    }
    assert(chars@.take(i as int) =~= path@);
    let backup = to_chars("backup");
    chars_equal(&seg, &backup)
}

/// The buttons of the round menu.
#[derive(Clone, Copy, PartialEq, Eq, Debug, Structural)]
pub enum RoundMenuButton {
    Display,
    New,
    Edit,
    Duplicate,
    Print,
    Delete,
}

/// What the round menu shows.
#[derive(Clone, Debug, PartialEq, Eq, Default)]
pub struct RoundMenuInfo {
    pub buttons: Option<Vec<RoundMenuButton>>,
    pub recipe_id: Option<u16>,
    pub hide_return_button: bool,
}

/// Whether a round menu button shows: the recipe buttons need a recipe, and
/// the buttons that change recipes need a login.
pub open spec fn button_visible_spec(b: RoundMenuButton, recipe_id: Option<u16>, is_logged_in: bool) -> bool {
    match b {
        RoundMenuButton::Display => recipe_id.is_some(),
        RoundMenuButton::New => is_logged_in,
        RoundMenuButton::Edit => recipe_id.is_some() && is_logged_in,
        RoundMenuButton::Duplicate => recipe_id.is_some() && is_logged_in,
        RoundMenuButton::Print => recipe_id.is_some(),
        RoundMenuButton::Delete => is_logged_in,
    }
}

impl RoundMenuButton {
    pub open spec fn suffix_spec(self) -> Seq<char> {
        match self {
            RoundMenuButton::Display => " display"@,
            RoundMenuButton::New => " new"@,
            RoundMenuButton::Edit => " edit"@,
            RoundMenuButton::Duplicate => " duplicate"@,
            RoundMenuButton::Print => " print"@,
            RoundMenuButton::Delete => " delete"@,
        }
    }

    /// Whether the button shows. A delete button is built with the recipe id,
    /// so it needs one.
    pub fn is_visible(&self, recipe_id: Option<u16>, is_logged_in: bool) -> (res: bool)
        requires
            *self == RoundMenuButton::Delete ==> recipe_id.is_some(),
        ensures
            res == button_visible_spec(*self, recipe_id, is_logged_in),
    {
        match self {
            RoundMenuButton::Display => recipe_id.is_some(),
            RoundMenuButton::New => is_logged_in,
            RoundMenuButton::Edit => recipe_id.is_some() && is_logged_in,
            RoundMenuButton::Duplicate => recipe_id.is_some() && is_logged_in,
            RoundMenuButton::Print => recipe_id.is_some(),
            RoundMenuButton::Delete => is_logged_in,
        }
    }

    /// The CSS class of the button at position `index` of the menu; the first
    /// button is styled apart.
    pub fn class(&self, index: usize) -> (res: String)
        ensures
            index == 0 ==> res@ == "round-menu-first-button rm-button"@ + self.suffix_spec(),
            index != 0 ==> res@ == "round-menu-button rm-button"@ + self.suffix_spec(),
    {
        let mut c = if index == 0 {
            "round-menu-first-button rm-button".to_owned()
        } else {
            "round-menu-button rm-button".to_owned()
        };
        let suffix = match self {
            RoundMenuButton::Display => " display",
            RoundMenuButton::New => " new",
            RoundMenuButton::Edit => " edit",
            RoundMenuButton::Duplicate => " duplicate",
            RoundMenuButton::Print => " print",
            RoundMenuButton::Delete => " delete",
        };
        c.append(suffix);
        c
    }
}

/// Which recipe the delete popup is about.
#[derive(Clone, Copy, Debug, PartialEq, Eq, Structural)]
pub struct DeletePopupInfo(pub u16);

/// What a page does next.
#[derive(Debug, PartialEq, Eq)]
pub enum PageAction {
    /// Go to a path of the site.
    Navigate(String),
    /// Open a path in a new window.
    OpenWindow(String),
    /// Send a change of the recipes to the server.
    Dispatch(RecipeActionDescriptor),
    /// Ask for confirmation before deleting a recipe.
    AskDelete(DeletePopupInfo),
}

/// What a click on a round menu button does. The buttons about a recipe
/// need its id.
pub fn round_menu_click(button: RoundMenuButton, recipe_id: Option<u16>) -> (res: PageAction)
    requires
        button != RoundMenuButton::New ==> recipe_id.is_some(),
    ensures
        button == RoundMenuButton::New ==> (res matches PageAction::Navigate(p) && p@ == "/new-recipe"@),
        button == RoundMenuButton::Display ==> (res matches PageAction::Navigate(p) && p@ == recipe_path_spec(recipe_id.unwrap(), RecipePageMode::Display)),
        button == RoundMenuButton::Edit ==> (res matches PageAction::Navigate(p) && p@ == recipe_path_spec(recipe_id.unwrap(), RecipePageMode::Editable)),
        button == RoundMenuButton::Print ==> (res matches PageAction::OpenWindow(p) && p@ == recipe_path_spec(recipe_id.unwrap(), RecipePageMode::Print)),
        button == RoundMenuButton::Duplicate ==> res == PageAction::Dispatch(RecipeActionDescriptor::Duplicate(recipe_id.unwrap())),
        button == RoundMenuButton::Delete ==> res == PageAction::AskDelete(DeletePopupInfo(recipe_id.unwrap())),
{
    match button {
        RoundMenuButton::New => PageAction::Navigate("/new-recipe".to_owned()),
        RoundMenuButton::Display => PageAction::Navigate(recipe_page_path(recipe_id.unwrap(), RecipePageMode::Display)),
        RoundMenuButton::Edit => PageAction::Navigate(recipe_page_path(recipe_id.unwrap(), RecipePageMode::Editable)),
        RoundMenuButton::Print => PageAction::OpenWindow(recipe_page_path(recipe_id.unwrap(), RecipePageMode::Print)),
        RoundMenuButton::Duplicate => PageAction::Dispatch(RecipeActionDescriptor::Duplicate(recipe_id.unwrap())),
        RoundMenuButton::Delete => PageAction::AskDelete(DeletePopupInfo(recipe_id.unwrap())),
    }
}

/// The answer "yes" of the delete popup: delete the recipe it is about, or
/// nothing when the popup is about no recipe.
pub fn delete_popup_confirm(info: Option<DeletePopupInfo>) -> (res: Option<RecipeActionDescriptor>)
    ensures
        match info {
            Some(DeletePopupInfo(id)) => res == Some(RecipeActionDescriptor::Delete(id)),
            None => res is None,
        },
{
    match info {
        Some(DeletePopupInfo(id)) => Some(RecipeActionDescriptor::Delete(id)),
        None => None,
    }
}

/// What the save button of the editing page does with the gathered recipe:
/// a recipe without a name is refused; a new recipe is added; an existing
/// one is saved, and the page goes on to its display when it has an id.
pub fn recipe_save_action(recipe: Recipe, is_new_recipe: bool) -> (res: Result<(RecipeActionDescriptor, Option<String>), String>)
    ensures
        recipe@.name.len() == 0 ==> (res matches Err(m) && m@ == "Recipe has no name"@),
        recipe@.name.len() > 0 && is_new_recipe ==> (res matches Ok((RecipeActionDescriptor::Add(r), None)) && r@ == recipe@),
        recipe@.name.len() > 0 && !is_new_recipe ==> (res matches Ok((RecipeActionDescriptor::Save(r), nav)) && r@ == recipe@
            && (match recipe@.id {
                Some(id) => nav matches Some(p) && p@ == recipe_path_spec(id, RecipePageMode::Display),
                None => nav is None,
            })),
{
    match recipe.valid_for_save() {
        Err(e) => Err(e),
        Ok(()) => {
            if is_new_recipe {
                Ok((RecipeActionDescriptor::Add(recipe), None))
            } else {
                let nav = match recipe.id {
                    Some(id) => Some(recipe_page_path(id, RecipePageMode::Display)),
                    None => None,
                };
                Ok((RecipeActionDescriptor::Save(recipe), nav))
            }
        },
    }
}

/// The recipe that the editing page starts from: the given one or an empty
/// one; a new recipe starts with a single empty ingredient.
pub fn initial_editable_recipe(recipe: Option<Recipe>, is_new_recipe: bool) -> (res: Recipe)
    ensures
        ({
            let base = match recipe {
                Some(r) => r@,
                None => RecipeModel {
                    id: None,
                    name: Seq::empty(),
                    tags: None,
                    ingredients: None,
                    instructions: Seq::empty(),
                    notes: None,
                },
            };
            res@ == if is_new_recipe {
                RecipeModel { ingredients: Some(seq![(Seq::<char>::empty(), Seq::<char>::empty())]), ..base }
            } else {
                base
            }
        }),
{
    let mut r = match recipe {
        Some(r) => r,
        None => Recipe::default(),
    };
    if is_new_recipe {
        let mut ingrs: Vec<RecipeIngredient> = Vec::new();
        ingrs.push(RecipeIngredient { qty_unit: String::new(), content: String::new() });
        r.ingredients = Some(ingrs);
        assert(r.ingredients.deep_view() =~= Some(seq![(Seq::<char>::empty(), Seq::<char>::empty())]));
    }
    r
}

/// The width style of a tag input: as many character cells as the input has
/// bytes, at most 20; other entries get no style.
pub fn tag_input_width_style(input: &str, is_tag: bool) -> (res: String)
    ensures
        is_tag ==> res@ == "width: "@ + decimal(
            if (encode_utf8(input@).len() as usize) < 20 { (encode_utf8(input@).len() as usize) as nat } else { 20 },
        ) + "ch"@,
        !is_tag ==> res@ == Seq::<char>::empty(),
{
    if is_tag {
        let len = input.len();
        let width: u16 = if len < 20 { len as u16 } else { 20 };
        let mut s = "width: ".to_owned();
        push_decimal(&mut s, width);
        s.append("ch");
        s
    } else {
        String::new()
    }
}

/// The link of the "Download All" button: the backup text as a data URL.
pub fn backup_download_href(data: &str) -> (res: String)
    ensures
        res@ == "data:text/plain;charset=utf-8,"@ + percent_encode(encode_utf8(data@)),
{
    let mut href = "data:text/plain;charset=utf-8,".to_owned();
    let encoded = url_encode(data);
    href.append(encoded.as_str());
    href
}

/// The state of each tag button of the tag list: whether the tag is
/// selected, and the tag.
pub fn tag_states(all_tags: &Vec<String>, selected: &Vec<String>) -> (res: Vec<(bool, String)>)
    ensures
        res@.len() == all_tags@.len(),
        forall|i: int| 0 <= i < all_tags@.len() ==> (#[trigger] res@[i]).1@ == all_tags@[i]@
            && res@[i].0 == selected.deep_view().contains(all_tags@[i]@),
{
    let mut res: Vec<(bool, String)> = Vec::new();
    let mut i: usize = 0;
    while i < all_tags.len()
        invariant
            i <= all_tags.len(),
            res@.len() == i,
            forall|k: int| 0 <= k < i ==> (#[trigger] res@[k]).1@ == all_tags@[k]@
                && res@[k].0 == selected.deep_view().contains(all_tags@[k]@),
        decreases all_tags.len() - i,
    {
        let mut found = false;
        let mut j: usize = 0;
        while j < selected.len()
            invariant
                i < all_tags.len(),
                j <= selected.len(),
                found == exists|t: int| 0 <= t < j && selected@[t]@ == all_tags@[i as int]@,
            decreases selected.len() - j,
        {
            if selected[j] == all_tags[i] {
                found = true;
            }
            j += 1;
        }
        proof {
            if found {
                let t = choose|t: int| 0 <= t < selected@.len() && selected@[t]@ == all_tags@[i as int]@;
                assert(selected.deep_view()[t] == selected@[t]@);
            } else {
                assert forall|t: int| 0 <= t < selected.deep_view().len() implies selected.deep_view()[t] != all_tags@[i as int]@ by {
                    assert(selected.deep_view()[t] == selected@[t]@);
                }
            }
        }
        res.push((found, all_tags[i].clone()));
        i += 1;
    }
    res
}

/// The text differs from `name`.
pub open spec fn other_tag(name: Seq<char>) -> spec_fn(Seq<char>) -> bool {
    |t: Seq<char>| t != name
}

fn remove_tag(selected: &mut Vec<String>, name: &String)
    ensures
        final(selected).deep_view() == old(selected).deep_view().filter(other_tag(name@)),
{
    let ghost orig = old(selected).deep_view();
    let ghost pred = other_tag(name@);
    let mut rest: Vec<String> = Vec::new();
    std::mem::swap(selected, &mut rest);
    let ghost rest0 = rest@;
    let n = rest.len();
    let mut i: usize = 0;
    assert(orig.take(0) =~= Seq::<Seq<char>>::empty());
    assert(rest@.skip(0) =~= rest@);
    assert(selected.deep_view() =~= orig.take(0).filter(pred));
    while i < n
        invariant
            n == orig.len(),
            rest0.len() == n,
            forall|t: int| 0 <= t < n ==> #[trigger] orig[t] == rest0[t]@,
            pred == other_tag(name@),
            i <= n,
            rest@ == rest0.skip(i as int),
            selected.deep_view() == orig.take(i as int).filter(pred),
        decreases n - i,
    {
        let t = rest.remove(0);
        proof {
            assert(t == rest0[i as int]);
            assert(rest@ =~= rest0.skip(i + 1));
            assert(orig.take(i + 1) =~= orig.take(i as int).push(orig[i as int]));
            orig.take(i as int).lemma_filter_push(orig[i as int], pred);
        }
        if !(t == *name) {
            let ghost before = selected.deep_view();
            selected.push(t);
            assert(selected.deep_view() =~= before.push(orig[i as int]));
        }
        i += 1;
    }
    assert(orig.take(n as int) =~= orig);
}

/// A click on a tag button: an unselected tag is added to the selection,
/// a selected one is removed from it (every copy), and the button flips.
pub fn toggle_tag(state: &mut (bool, String), selected: &mut Vec<String>)
    ensures
        final(state).0 == !old(state).0,
        final(state).1 == old(state).1,
        !old(state).0 ==> final(selected).deep_view() == old(selected).deep_view().push(old(state).1@),
        old(state).0 ==> final(selected).deep_view() == old(selected).deep_view().filter(other_tag(old(state).1@)),
{
    if state.0 {
        remove_tag(selected, &state.1);
        state.0 = false;
    } else {
        let ghost before = selected.deep_view();
        selected.push(state.1.clone());
        assert(selected.deep_view() =~= before.push(state.1@));
        state.0 = true;
    }
}

/// The "Clear" button of the tag list: no tag stays selected.
pub fn clear_tags(states: &mut Vec<(bool, String)>, selected: &mut Vec<String>)
    ensures
        final(selected)@.len() == 0,
        final(states)@.len() == old(states)@.len(),
        forall|i: int| 0 <= i < old(states)@.len() ==> !(#[trigger] final(states)@[i]).0 && final(states)@[i].1 == old(states)@[i].1,
{
    *selected = Vec::new();
    let mut rest: Vec<(bool, String)> = Vec::new();
    std::mem::swap(states, &mut rest);
    let ghost rest0 = rest@;
    let n = rest.len();
    let mut i: usize = 0;
    assert(rest@.skip(0) =~= rest@);
    while i < n
        invariant
            rest0.len() == n,
            i <= n,
            rest@ == rest0.skip(i as int),
            states@.len() == i,
            forall|k: int| 0 <= k < i ==> !(#[trigger] states@[k]).0 && states@[k].1 == rest0[k].1,
        decreases n - i,
    {
        let (_, name) = rest.remove(0);
        proof {
            assert(rest@ =~= rest0.skip(i + 1));
        }
        states.push((false, name));
        i += 1;
    }
}

/// Law: selecting a tag that was not selected and unselecting it again gives
/// the selection back.
pub proof fn lemma_toggle_twice(selected: Seq<Seq<char>>, name: Seq<char>)
    requires
        !selected.contains(name),
    ensures
        selected.push(name).filter(other_tag(name)) == selected,
{
    selected.lemma_filter_push(name, other_tag(name));
    assert forall|i: int| 0 <= i < selected.len() implies #[trigger] other_tag(name)(selected[i]) by {
        if selected[i] == name {
            assert(selected.contains(name));
        }
    }
    lemma_filter_all(selected, other_tag(name));
}

/// Law: after unselecting a tag, it is no longer selected.
pub proof fn lemma_unselected_is_gone(selected: Seq<Seq<char>>, name: Seq<char>)
    ensures
        !selected.filter(other_tag(name)).contains(name),
{
    if selected.filter(other_tag(name)).contains(name) {
        selected.lemma_filter_contains_rev(other_tag(name), name);
    }
}

/// The parts that a recipe sheet shows.
#[derive(Clone, Copy, Debug, PartialEq, Eq, Structural)]
pub struct SheetSections {
    pub ingredients: bool,
    pub instructions: bool,
    pub notes: bool,
    pub tags: bool,
}

/// A list part of a recipe shows when the recipe has the list, even an
/// empty one; the instructions show when they are not empty. The print
/// sheet uses the same rules and has no tags part.
pub fn sheet_sections(recipe: &Recipe) -> (res: SheetSections)
    ensures
        res.ingredients == recipe@.ingredients.is_some(),
        res.instructions == (recipe@.instructions.len() > 0),
        res.notes == recipe@.notes.is_some(),
        res.tags == recipe@.tags.is_some(),
{
    SheetSections {
        ingredients: recipe.ingredients.is_some(),
        instructions: !recipe.instructions.content.as_str().is_empty(),
        notes: recipe.notes.is_some(),
        tags: recipe.tags.is_some(),
    }
}

/// The colour of the card at `local_id`: its entry of the colour map, or
/// `Undefined` past its end.
pub open spec fn card_color(color_map: Seq<ThemeColor>, local_id: usize) -> ThemeColor {
    if local_id < color_map.len() {
        color_map[local_id as int]
    } else {
        ThemeColor::Undefined
    }
}

/// What the recipe list of the main page shows: `None`, the "No recipes
/// were found." notice, when there are no recipes at all; otherwise a card
/// for each recipe that the selected tags and the searched words keep, in
/// order, coloured by the recipe's position in the full list. An empty list
/// of cards is the "No results..." case, where the page offers to cancel the
/// search.
pub fn recipe_list_cards(
    recipes: Vec<RecipeLight>,
    selected_tags: &Vec<String>,
    search_input: &Vec<String>,
    color_map: &Vec<ThemeColor>,
) -> (res: Option<Vec<(RecipeLight, ThemeColor)>>)
    ensures
        recipes@.len() == 0 ==> res is None,
        recipes@.len() > 0 ==> ({
            let kept = enumerated(recipes.deep_view()).filter(kept_pred(selected_tags.deep_view(), search_input.deep_view()));
            &&& res matches Some(cards)
            &&& cards@.len() == kept.len()
            &&& forall|i: int| 0 <= i < kept.len() ==> (#[trigger] cards@[i]).0@ == kept[i].1
                && cards@[i].1 == card_color(color_map@, kept[i].0)
        }),
{
    if recipes.len() == 0 {
        return None;
    }
    let kept = filter_recipes(recipes, selected_tags, search_input);
    let ghost kv = kept.deep_view();
    let mut rest = kept;
    let n = rest.len();
    let mut cards: Vec<(RecipeLight, ThemeColor)> = Vec::new();
    let mut i: usize = 0;
    assert(kv.skip(0) =~= kv);
    while i < n
        invariant
            n == kv.len(),
            i <= n,
            rest.deep_view() == kv.skip(i as int),
            rest@.len() == n - i,
            cards@.len() == i,
            forall|k: int| 0 <= k < i ==> (#[trigger] cards@[k]).0@ == kv[k].1 && cards@[k].1 == card_color(color_map@, kv[k].0),
        decreases n - i,
    {
        let ghost before = rest.deep_view();
        let ghost before_rest = rest@;
        let (local_id, recipe) = rest.remove(0);
        proof {
            assert(before[0] == (before_rest[0].0, before_rest[0].1@));
            assert(before[0] == (local_id, recipe@));
            assert forall|t: int| 0 <= t < rest@.len() implies rest.deep_view()[t] == before.skip(1)[t] by {
                assert(rest@[t] == before_rest[t + 1]);
                assert(before[t + 1] == (before_rest[t + 1].0, before_rest[t + 1].1@));
            }
            assert(rest.deep_view() =~= before.skip(1));
            assert(before.skip(1) =~= kv.skip(i + 1));
        }
        let color = recipe_card_color(color_map, local_id);
        cards.push((recipe, color));
        i += 1;
    }
    Some(cards)
}

/// The name of the recipe that an action adds, which the new recipe page
/// keeps to find the recipe's id once it is stored.
pub fn added_recipe_name(desc: &RecipeActionDescriptor) -> (res: Option<String>)
    ensures
        match desc {
            RecipeActionDescriptor::Add(r) => res matches Some(n) && n@ == r.name@,
            _ => res is None,
        },
{
    match desc {
        RecipeActionDescriptor::Add(r) => Some(r.name.clone()),
        _ => None,
    }
}

/// Once the server has answered the addition of a new recipe, the page looks
/// up the recipe's id by its name (to go to its edit page) when the
/// addition succeeded and the name is not empty.
pub fn fetch_id_after_add(action_succeeded: bool, submitted_name: &str) -> (res: bool)
    ensures
        res == (action_succeeded && submitted_name@.len() > 0),
{
    action_succeeded && !submitted_name.is_empty()
}

/// The options of the menu of a recipe page in display mode: editing and
/// deleting need a login, printing does not.
pub fn recipe_menu_options(is_logged_in: bool) -> (res: Vec<RoundMenuButton>)
    ensures
        is_logged_in ==> res@ == seq![RoundMenuButton::Edit, RoundMenuButton::Print, RoundMenuButton::Delete],
        !is_logged_in ==> res@ == seq![RoundMenuButton::Print],
{
    let mut v: Vec<RoundMenuButton> = Vec::new();
    if is_logged_in {
        v.push(RoundMenuButton::Edit);
    }
    v.push(RoundMenuButton::Print);
    if is_logged_in {
        v.push(RoundMenuButton::Delete);
    }
    v
}

/// The options of the menu of a recipe card: editing and duplicating need a
/// confirmed login, printing does not.
pub fn recipe_card_options(is_logged_in: bool) -> (res: Vec<RoundMenuButton>)
    ensures
        is_logged_in ==> res@ == seq![RoundMenuButton::Edit, RoundMenuButton::Duplicate, RoundMenuButton::Print],
        !is_logged_in ==> res@ == seq![RoundMenuButton::Print],
{
    let mut v: Vec<RoundMenuButton> = Vec::new();
    if is_logged_in {
        v.push(RoundMenuButton::Edit);
        v.push(RoundMenuButton::Duplicate);
    }
    v.push(RoundMenuButton::Print);
    v
}

/// The list that an entry input offers suggestions from.
#[derive(Clone, Copy, Debug, PartialEq, Eq, Structural)]
pub enum SuggestionSource {
    AllTags,
    AllIngredients,
}

/// Tag inputs suggest the known tags, ingredient inputs the known
/// ingredients; the other inputs suggest nothing.
pub fn suggestion_source(entry_type: RecipeEntryType) -> (res: Option<SuggestionSource>)
    ensures
        entry_type == RecipeEntryType::Tag ==> res == Some(SuggestionSource::AllTags),
        entry_type == RecipeEntryType::Ingredients ==> res == Some(SuggestionSource::AllIngredients),
        entry_type == RecipeEntryType::Instructions || entry_type == RecipeEntryType::Notes ==> res is None,
{
    match entry_type {
        RecipeEntryType::Tag => Some(SuggestionSource::AllTags),
        RecipeEntryType::Ingredients => Some(SuggestionSource::AllIngredients),
        _ => None,
    }
}

/// What the app keeps of a login check: a successful answer becomes the
/// login flag and the value of the check; a failed one leaves the flag as it
/// was and counts as not logged in.
pub fn login_check_outcome(is_logged_in: bool, check: Result<bool, String>) -> (res: (bool, bool))
    ensures
        match check {
            Ok(b) => res == (b, b),
            Err(_) => res == (is_logged_in, false),
        },
{
    match check {
        Ok(b) => (b, b),
        Err(_) => (is_logged_in, false),
    }
}

/// The login flag after the logout button: cleared when the server logged
/// out, kept when it failed.
pub fn logged_in_after_logout(is_logged_in: bool, logout_succeeded: bool) -> (res: bool)
    ensures
        res == (is_logged_in && !logout_succeeded),
{
    if logout_succeeded {
        false
    } else {
        is_logged_in
    }
}

/// A click on a recipe card: the page takes the card's colour, then goes to
/// the recipe's display page.
pub fn recipe_card_click(recipe_id: u16, color: ThemeColor) -> (res: (ThemeColor, String))
    ensures
        res.0 == color,
        res.1@ == recipe_path_spec(recipe_id, RecipePageMode::Display),
{
    (color, recipe_page_path(recipe_id, RecipePageMode::Display))
}

/// The new-recipe button of the main page shows once the login check has
/// answered that the user is logged in.
pub fn new_recipe_button_shown(login_check: Option<bool>) -> (res: bool)
    ensures
        res == (login_check == Some(true)),
{
    match login_check {
        Some(b) => b,
        None => false,
    }
}

/// Where the new recipe page goes once the id of the added recipe is
/// found: the recipe's edit page; nowhere when no id was found.
pub fn redirect_after_id_fetch(id: Option<u16>) -> (res: Option<String>)
    ensures
        match id {
            Some(i) => res matches Some(p) && p@ == recipe_path_spec(i, RecipePageMode::Editable),
            None => res is None,
        },
{
    match id {
        Some(i) => Some(recipe_page_path(i, RecipePageMode::Editable)),
        None => None,
    }
}

/// The upload form of the backup page shows once everything was downloaded
/// and until a backup has been applied.
pub fn upload_form_shown(has_been_backed_up: bool, save_done: bool) -> (res: bool)
    ensures
        res == (has_been_backed_up && !save_done),
{
    has_been_backed_up && !save_done
}

} // verus!
