//! Recipes and their parts, the JSON column formats, and the entry trait
//! shared by tags, ingredients, instructions and notes.
use vstd::prelude::*;

verus! {

/// A tag of a recipe.
#[derive(Debug, PartialEq, Eq)]
pub struct RecipeTag {
    pub name: String,
}

/// An ingredient line: quantity with unit, and what it is.
#[derive(Debug, PartialEq, Eq)]
pub struct RecipeIngredient {
    pub qty_unit: String,
    pub content: String,
}

/// The instructions of a recipe.
#[derive(Debug, PartialEq, Eq)]
pub struct RecipeInstruction {
    pub content: String,
}

/// A note on a recipe.
#[derive(Debug, PartialEq, Eq)]
pub struct RecipeNote {
    pub content: String,
}

impl DeepView for RecipeTag {
    type V = Seq<char>;

    open spec fn deep_view(&self) -> Seq<char> {
        self.name@
    }
}

impl DeepView for RecipeIngredient {
    type V = (Seq<char>, Seq<char>);

    open spec fn deep_view(&self) -> (Seq<char>, Seq<char>) {
        (self.qty_unit@, self.content@)
    }
}

impl DeepView for RecipeInstruction {
    type V = Seq<char>;

    open spec fn deep_view(&self) -> Seq<char> {
        self.content@
    }
}

impl DeepView for RecipeNote {
    type V = Seq<char>;

    open spec fn deep_view(&self) -> Seq<char> {
        self.content@
    }
}

impl Clone for RecipeTag {
    fn clone(&self) -> (res: Self)
        ensures
            res == *self,
    {
        RecipeTag { name: self.name.clone() }
    }
}

impl Clone for RecipeIngredient {
    fn clone(&self) -> (res: Self)
        ensures
            res == *self,
    {
        RecipeIngredient { qty_unit: self.qty_unit.clone(), content: self.content.clone() }
    }
}

impl Clone for RecipeInstruction {
    fn clone(&self) -> (res: Self)
        ensures
            res == *self,
    {
        RecipeInstruction { content: self.content.clone() }
    }
}

impl Clone for RecipeNote {
    fn clone(&self) -> (res: Self)
        ensures
            res == *self,
    {
        RecipeNote { content: self.content.clone() }
    }
}

impl Default for RecipeTag {
    fn default() -> (res: Self)
        ensures
            res.name@ == Seq::<char>::empty(),
    {
        RecipeTag { name: String::new() }
    }
}

impl Default for RecipeIngredient {
    fn default() -> (res: Self)
        ensures
            res.qty_unit@ == Seq::<char>::empty(),
            res.content@ == Seq::<char>::empty(),
    {
        RecipeIngredient { qty_unit: String::new(), content: String::new() }
    }
}

impl Default for RecipeInstruction {
    fn default() -> (res: Self)
        ensures
            res.content@ == Seq::<char>::empty(),
    {
        RecipeInstruction { content: String::new() }
    }
}

impl Default for RecipeNote {
    fn default() -> (res: Self)
        ensures
            res.content@ == Seq::<char>::empty(),
    {
        RecipeNote { content: String::new() }
    }
}

/// Main recipe format.
#[derive(Debug, PartialEq, Eq)]
pub struct Recipe {
    /// The primary key as it is stored in the database.
    pub id: Option<u16>,
    pub name: String,
    pub tags: Option<Vec<RecipeTag>>,
    pub ingredients: Option<Vec<RecipeIngredient>>,
    pub instructions: RecipeInstruction,
    pub notes: Option<Vec<RecipeNote>>,
}

/// A recipe as plain values.
pub struct RecipeModel {
    pub id: Option<u16>,
    pub name: Seq<char>,
    pub tags: Option<Seq<Seq<char>>>,
    pub ingredients: Option<Seq<(Seq<char>, Seq<char>)>>,
    pub instructions: Seq<char>,
    pub notes: Option<Seq<Seq<char>>>,
}

impl View for Recipe {
    type V = RecipeModel;

    open spec fn view(&self) -> RecipeModel {
        RecipeModel {
            id: self.id,
            name: self.name@,
            tags: self.tags.deep_view(),
            ingredients: self.ingredients.deep_view(),
            instructions: self.instructions.content@,
            notes: self.notes.deep_view(),
        }
    }
}

impl Default for Recipe {
    fn default() -> (res: Self)
        ensures
            res@ == (RecipeModel {
                id: None,
                name: Seq::empty(),
                tags: None,
                ingredients: None,
                instructions: Seq::empty(),
                notes: None,
            }),
    {
        Recipe {
            id: None,
            name: String::new(),
            tags: None,
            ingredients: None,
            instructions: RecipeInstruction::default(),
            notes: None,
        }
    }
}

impl Recipe {
    /// Checks that the recipe can be added or saved: it needs a name.
    pub fn valid_for_save(&self) -> (res: Result<(), String>)
        ensures
            res is Ok <==> self.name@.len() > 0,
            res matches Err(e) ==> e@ == "Recipe has no name"@,
    {
        if self.name.as_str().is_empty() {
            Err("Recipe has no name".to_owned())
        } else {
            Ok(())
        }
    }
}

/// Lightweight recipe format, as listed on the main page.
#[derive(Debug, PartialEq, Eq)]
pub struct RecipeLight {
    pub id: u16,
    pub name: String,
    pub tags: Option<Vec<RecipeTag>>,
    pub ingredients: Option<Vec<RecipeIngredient>>,
}

/// A light recipe as plain values.
pub struct RecipeLightModel {
    pub id: u16,
    pub name: Seq<char>,
    pub tags: Option<Seq<Seq<char>>>,
    pub ingredients: Option<Seq<(Seq<char>, Seq<char>)>>,
}

impl View for RecipeLight {
    type V = RecipeLightModel;

    open spec fn view(&self) -> RecipeLightModel {
        RecipeLightModel {
            id: self.id,
            name: self.name@,
            tags: self.tags.deep_view(),
            ingredients: self.ingredients.deep_view(),
        }
    }
}

impl DeepView for RecipeLight {
    type V = RecipeLightModel;

    open spec fn deep_view(&self) -> RecipeLightModel {
        self@
    }
}

/// One of the tags `t` is in `check`.
pub open spec fn some_tag_checked(t: Seq<Seq<char>>, check: Seq<Seq<char>>) -> bool {
    exists|i: int| 0 <= i < t.len() && check.contains(#[trigger] t[i])
}

/// A recipe has one of the tags to check, or there are no tags to check.
pub open spec fn has_tags_spec(tags: Option<Seq<Seq<char>>>, check: Seq<Seq<char>>) -> bool {
    if check.len() == 0 {
        true
    } else {
        match tags {
            Some(t) => some_tag_checked(t, check),
            None => false,
        }
    }
}

fn contains_string(v: &Vec<String>, s: &String) -> (res: bool)
    ensures
        res == v.deep_view().contains(s@),
{
    let mut i: usize = 0;
    while i < v.len()
        invariant
            i <= v.len(),
            forall|j: int| 0 <= j < i ==> v@[j]@ != s@,
        decreases v.len() - i,
    {
        if v[i] == *s {
            assert(v.deep_view()[i as int] == s@);
            return true;
        }
        i += 1;
    }
    assert forall|j: int| 0 <= j < v.deep_view().len() implies v.deep_view()[j] != s@ by {
        assert(v.deep_view()[j] == v@[j]@);
    }
    false
}

impl RecipeLight {
    /// Whether the recipe has a tag of the given list; every recipe passes
    /// when the list is empty.
    pub fn has_tags(&self, tags_to_check: &Vec<String>) -> (res: bool)
        ensures
            res == has_tags_spec(self@.tags, tags_to_check.deep_view()),
    {
        if tags_to_check.is_empty() {
            return true;
        }
        match &self.tags {
            None => false,
            Some(tags) => {
                let mut i: usize = 0;
                while i < tags.len()
                    invariant
                        i <= tags.len(),
                        self.tags == Some(*tags),
                        forall|j: int| 0 <= j < i ==> !tags_to_check.deep_view().contains(#[trigger] tags.deep_view()[j]),
                    decreases tags.len() - i,
                {
                    if contains_string(tags_to_check, &tags[i].name) {
                        assert(tags.deep_view()[i as int] == tags@[i as int].name@);
                        return true;
                    }
                    assert(tags.deep_view()[i as int] == tags@[i as int].name@);
                    i += 1;
                }
                false
            },
        }
    }
}

/// The recipe collection of a JSON backup.
#[derive(Debug, PartialEq, Eq)]
pub struct JsonRecipeCollection(pub Vec<JsonRecipe>);

/// The recipe format without its id, as stored in the JSON columns and backups.
#[derive(Debug, PartialEq, Eq)]
pub struct JsonRecipe {
    pub name: String,
    pub tags: JsonRecipeTags,
    pub ingredients: JsonRecipeIngredients,
    pub instructions: JsonRecipeInstructions,
    pub notes: JsonRecipeNotes,
}

/// Tag names, or none.
#[derive(Debug, PartialEq, Eq)]
pub struct JsonRecipeTags(pub Option<Vec<String>>);

/// Ingredients as (quantity with unit, content) pairs, or none.
#[derive(Debug, PartialEq, Eq)]
pub struct JsonRecipeIngredients(pub Option<Vec<(String, String)>>);

/// The instruction text.
#[derive(Debug, PartialEq, Eq)]
pub struct JsonRecipeInstructions(pub String);

/// Note texts, or none.
#[derive(Debug, PartialEq, Eq)]
pub struct JsonRecipeNotes(pub Option<Vec<String>>);

/// A JSON recipe as plain values.
pub struct JsonRecipeModel {
    pub name: Seq<char>,
    pub tags: Option<Seq<Seq<char>>>,
    pub ingredients: Option<Seq<(Seq<char>, Seq<char>)>>,
    pub instructions: Seq<char>,
    pub notes: Option<Seq<Seq<char>>>,
}

impl View for JsonRecipe {
    type V = JsonRecipeModel;

    open spec fn view(&self) -> JsonRecipeModel {
        JsonRecipeModel {
            name: self.name@,
            tags: self.tags.0.deep_view(),
            ingredients: self.ingredients.0.deep_view(),
            instructions: self.instructions.0@,
            notes: self.notes.0.deep_view(),
        }
    }
}

impl DeepView for JsonRecipe {
    type V = JsonRecipeModel;

    open spec fn deep_view(&self) -> JsonRecipeModel {
        self@
    }
}

/// The recipe that a JSON recipe stored under `id` stands for.
pub open spec fn recipe_of_json(j: JsonRecipeModel, id: u16) -> RecipeModel {
    RecipeModel {
        id: Some(id),
        name: j.name,
        tags: j.tags,
        ingredients: j.ingredients,
        instructions: j.instructions,
        notes: j.notes,
    }
}

/// The JSON recipe that stores a recipe (its id is left out).
pub open spec fn json_of_recipe(r: RecipeModel) -> JsonRecipeModel {
    JsonRecipeModel {
        name: r.name,
        tags: r.tags,
        ingredients: r.ingredients,
        instructions: r.instructions,
        notes: r.notes,
    }
}

fn tags_from_names(names: Vec<String>) -> (res: Vec<RecipeTag>)
    ensures
        res.deep_view() == names.deep_view(),
{
    let mut res: Vec<RecipeTag> = Vec::new();
    let mut i: usize = 0;
    while i < names.len()
        invariant
            i <= names.len(),
            res.deep_view() == names.deep_view().take(i as int),
        decreases names.len() - i,
    {
        let ghost prev = res.deep_view();
        let ghost item = names.deep_view()[i as int];
        res.push(RecipeTag { name: names[i].clone() });
        assert(res.deep_view() =~= prev.push(item));
        assert(names.deep_view().take(i + 1) =~= names.deep_view().take(i as int).push(item));
        i += 1;
    }
    assert(names.deep_view().take(i as int) =~= names.deep_view());
    res
}

fn names_from_tags(tags: Vec<RecipeTag>) -> (res: Vec<String>)
    ensures
        res.deep_view() == tags.deep_view(),
{
    let mut res: Vec<String> = Vec::new();
    let mut i: usize = 0;
    while i < tags.len()
        invariant
            i <= tags.len(),
            res.deep_view() == tags.deep_view().take(i as int),
        decreases tags.len() - i,
    {
        let ghost prev = res.deep_view();
        let ghost item = tags.deep_view()[i as int];
        res.push(tags[i].name.clone());
        assert(res.deep_view() =~= prev.push(item));
        assert(tags.deep_view().take(i + 1) =~= tags.deep_view().take(i as int).push(item));
        i += 1;
    }
    assert(tags.deep_view().take(i as int) =~= tags.deep_view());
    res
}

fn notes_from_texts(texts: Vec<String>) -> (res: Vec<RecipeNote>)
    ensures
        res.deep_view() == texts.deep_view(),
{
    let mut res: Vec<RecipeNote> = Vec::new();
    let mut i: usize = 0;
    while i < texts.len()
        invariant
            i <= texts.len(),
            res.deep_view() == texts.deep_view().take(i as int),
        decreases texts.len() - i,
    {
        let ghost prev = res.deep_view();
        let ghost item = texts.deep_view()[i as int];
        res.push(RecipeNote { content: texts[i].clone() });
        assert(res.deep_view() =~= prev.push(item));
        assert(texts.deep_view().take(i + 1) =~= texts.deep_view().take(i as int).push(item));
        i += 1;
    }
    assert(texts.deep_view().take(i as int) =~= texts.deep_view());
    res
}

fn texts_from_notes(notes: Vec<RecipeNote>) -> (res: Vec<String>)
    ensures
        res.deep_view() == notes.deep_view(),
{
    let mut res: Vec<String> = Vec::new();
    let mut i: usize = 0;
    while i < notes.len()
        invariant
            i <= notes.len(),
            res.deep_view() == notes.deep_view().take(i as int),
        decreases notes.len() - i,
    {
        let ghost prev = res.deep_view();
        let ghost item = notes.deep_view()[i as int];
        res.push(notes[i].content.clone());
        assert(res.deep_view() =~= prev.push(item));
        assert(notes.deep_view().take(i + 1) =~= notes.deep_view().take(i as int).push(item));
        i += 1;
    }
    assert(notes.deep_view().take(i as int) =~= notes.deep_view());
    res
}

fn ingredients_from_pairs(pairs: Vec<(String, String)>) -> (res: Vec<RecipeIngredient>)
    ensures
        res.deep_view() == pairs.deep_view(),
{
    let mut res: Vec<RecipeIngredient> = Vec::new();
    let mut i: usize = 0;
    while i < pairs.len()
        invariant
            i <= pairs.len(),
            res.deep_view() == pairs.deep_view().take(i as int),
        decreases pairs.len() - i,
    {
        let ghost prev = res.deep_view();
        let ghost item = pairs.deep_view()[i as int];
        res.push(RecipeIngredient { qty_unit: pairs[i].0.clone(), content: pairs[i].1.clone() });
        assert(res.deep_view() =~= prev.push(item));
        assert(pairs.deep_view().take(i + 1) =~= pairs.deep_view().take(i as int).push(item));
        i += 1;
    }
    assert(pairs.deep_view().take(i as int) =~= pairs.deep_view());
    res
}

fn pairs_from_ingredients(ingrs: Vec<RecipeIngredient>) -> (res: Vec<(String, String)>)
    ensures
        res.deep_view() == ingrs.deep_view(),
{
    let mut res: Vec<(String, String)> = Vec::new();
    let mut i: usize = 0;
    while i < ingrs.len()
        invariant
            i <= ingrs.len(),
            res.deep_view() == ingrs.deep_view().take(i as int),
        decreases ingrs.len() - i,
    {
        let ghost prev = res.deep_view();
        let ghost item = ingrs.deep_view()[i as int];
        res.push((ingrs[i].qty_unit.clone(), ingrs[i].content.clone()));
        assert(res.deep_view() =~= prev.push(item));
        assert(ingrs.deep_view().take(i + 1) =~= ingrs.deep_view().take(i as int).push(item));
        i += 1;
    }
    assert(ingrs.deep_view().take(i as int) =~= ingrs.deep_view());
    res
}

impl JsonRecipeTags {
    pub fn to_recipe_tags(self) -> (res: Option<Vec<RecipeTag>>)
        ensures
            res.deep_view() == self.0.deep_view(),
    {
        match self.0 {
            Some(names) => Some(tags_from_names(names)),
            None => None,
        }
    }

    pub fn from_recipe_tags(recipe_tags: Option<Vec<RecipeTag>>) -> (res: Self)
        ensures
            res.0.deep_view() == recipe_tags.deep_view(),
    {
        match recipe_tags {
            Some(tags) => JsonRecipeTags(Some(names_from_tags(tags))),
            None => JsonRecipeTags(None),
        }
    }
}

impl JsonRecipeIngredients {
    pub fn to_recipe_ingredients(self) -> (res: Option<Vec<RecipeIngredient>>)
        ensures
            res.deep_view() == self.0.deep_view(),
    {
        match self.0 {
            Some(pairs) => Some(ingredients_from_pairs(pairs)),
            None => None,
        }
    }

    pub fn from_recipe_ingredients(recipe_ingrs: Option<Vec<RecipeIngredient>>) -> (res: Self)
        ensures
            res.0.deep_view() == recipe_ingrs.deep_view(),
    {
        match recipe_ingrs {
            Some(ingrs) => JsonRecipeIngredients(Some(pairs_from_ingredients(ingrs))),
            None => JsonRecipeIngredients(None),
        }
    }
}

impl JsonRecipeInstructions {
    pub fn to_recipe_instructions(self) -> (res: RecipeInstruction)
        ensures
            res.content@ == self.0@,
    {
        RecipeInstruction { content: self.0 }
    }

    pub fn from_recipe_instructions(recipe_instrs: RecipeInstruction) -> (res: Self)
        ensures
            res.0@ == recipe_instrs.content@,
    {
        JsonRecipeInstructions(recipe_instrs.content)
    }
}

impl JsonRecipeNotes {
    pub fn to_recipe_notes(self) -> (res: Option<Vec<RecipeNote>>)
        ensures
            res.deep_view() == self.0.deep_view(),
    {
        match self.0 {
            Some(texts) => Some(notes_from_texts(texts)),
            None => None,
        }
    }

    pub fn from_recipe_notes(recipe_notes: Option<Vec<RecipeNote>>) -> (res: Self)
        ensures
            res.0.deep_view() == recipe_notes.deep_view(),
    {
        match recipe_notes {
            Some(notes) => JsonRecipeNotes(Some(texts_from_notes(notes))),
            None => JsonRecipeNotes(None),
        }
    }
}

impl JsonRecipe {
    /// The recipe stored under `id`.
    pub fn to_recipe(self, id: u16) -> (res: Recipe)
        ensures
            res@ == recipe_of_json(self@, id),
    {
        Recipe {
            id: Some(id),
            name: self.name,
            tags: self.tags.to_recipe_tags(),
            ingredients: self.ingredients.to_recipe_ingredients(),
            instructions: self.instructions.to_recipe_instructions(),
            notes: self.notes.to_recipe_notes(),
        }
    }

    /// The stored form of a recipe; its id is dropped.
    pub fn from_recipe(recipe: Recipe) -> (res: JsonRecipe)
        ensures
            res@ == json_of_recipe(recipe@),
    {
        JsonRecipe {
            name: recipe.name,
            tags: JsonRecipeTags::from_recipe_tags(recipe.tags),
            ingredients: JsonRecipeIngredients::from_recipe_ingredients(recipe.ingredients),
            instructions: JsonRecipeInstructions::from_recipe_instructions(recipe.instructions),
            notes: JsonRecipeNotes::from_recipe_notes(recipe.notes),
        }
    }
}

/// Law: storing a loaded recipe gives back the stored JSON recipe.
pub proof fn lemma_json_recipe_round_trip(j: JsonRecipeModel, id: u16)
    ensures
        json_of_recipe(recipe_of_json(j, id)) == j,
{
}

/// Law: loading a stored recipe under its own id gives the recipe back.
pub proof fn lemma_recipe_json_round_trip(r: RecipeModel, id: u16)
    requires
        r.id == Some(id),
    ensures
        recipe_of_json(json_of_recipe(r), id) == r,
{
}

/// Recipe row of the database: every part but the name is a JSON text.
#[derive(Debug, PartialEq, Eq)]
pub struct DbRowRecipe {
    pub id: u16,
    pub recipe_name: String,
    pub recipe_tags: String,
    pub recipe_ingredients: String,
    pub recipe_instructions: String,
    pub recipe_notes: String,
}

/// The columns that the main page needs.
#[derive(Debug, PartialEq, Eq)]
pub struct DbRowRecipeLight {
    pub id: u16,
    pub recipe_name: String,
    pub recipe_tags: String,
    pub recipe_ingredients: String,
}

/// Only the id of a recipe row.
#[derive(Debug, PartialEq, Eq)]
pub struct DbRowRecipeID {
    pub id: u16,
}

/// The kinds of entries of a recipe.
#[derive(Debug, PartialEq, Eq, Structural, Clone, Copy)]
pub enum RecipeEntryType {
    Tag,
    Ingredients,
    Instructions,
    Notes,
}

impl RecipeEntryType {
    pub open spec fn title_spec(self) -> Seq<char> {
        match self {
            RecipeEntryType::Tag => "Tags"@,
            RecipeEntryType::Ingredients => "Ingredients"@,
            RecipeEntryType::Instructions => "Instructions"@,
            RecipeEntryType::Notes => "Notes"@,
        }
    }

    pub open spec fn class_spec(self) -> Seq<char> {
        match self {
            RecipeEntryType::Tag => "tags"@,
            RecipeEntryType::Ingredients => "ingredients"@,
            RecipeEntryType::Instructions => "instructions"@,
            RecipeEntryType::Notes => "notes"@,
        }
    }

    /// The section title and the CSS class of this kind of entry.
    pub fn title_and_class(&self) -> (res: (String, String))
        ensures
            res.0@ == self.title_spec(),
            res.1@ == self.class_spec(),
    {
        match self {
            RecipeEntryType::Tag => ("Tags".to_owned(), "tags".to_owned()),
            RecipeEntryType::Ingredients => ("Ingredients".to_owned(), "ingredients".to_owned()),
            RecipeEntryType::Instructions => ("Instructions".to_owned(), "instructions".to_owned()),
            RecipeEntryType::Notes => ("Notes".to_owned(), "notes".to_owned()),
        }
    }
}

/// The parts of a recipe.
#[derive(Debug, PartialEq, Eq, Structural, Clone, Copy)]
pub enum RecipeContentType {
    Tags,
    Ingredients,
    Instructions,
    Notes,
}

/// A change to the stored recipes.
#[derive(Debug, PartialEq, Eq)]
pub enum RecipeActionDescriptor {
    Add(Recipe),
    Save(Recipe),
    /// With the recipe id.
    Delete(u16),
    /// With the recipe id.
    Duplicate(u16),
}

/// Behaviour shared by the entries that a recipe page edits.
pub trait RecipeEntry: Sized {
    /// The kind of entry.
    spec fn entry_type_spec() -> RecipeEntryType;

    /// The CSS class of the entry.
    spec fn css_class_spec() -> Seq<char>;

    /// The field ids that `get_string_from_field` accepts.
    spec fn valid_field(field_id: Option<usize>) -> bool;

    /// The text held in a field.
    spec fn field_text(&self, field_id: Option<usize>) -> Seq<char>;

    /// The entry holds no text at all.
    spec fn empty_spec(&self) -> bool;

    fn get_entry_type() -> (t: RecipeEntryType)
        ensures
            t == Self::entry_type_spec(),
    ;

    fn get_css_class_name() -> (s: String)
        ensures
            s@ == Self::css_class_spec(),
    ;

    /// Writes the input into a field: a valid field then holds the input.
    fn update_field_from_string_input(&mut self, field_id: Option<usize>, input: String)
        ensures
            Self::valid_field(field_id) ==> final(self).field_text(field_id) == input@,
    ;

    fn get_string_from_field(&self, field_id: Option<usize>) -> (s: String)
        requires
            Self::valid_field(field_id),
        ensures
            s@ == self.field_text(field_id),
    ;

    fn is_empty(&self) -> (b: bool)
        ensures
            b == self.empty_spec(),
    ;

    /// The entry that a newly added row starts with: it holds no text.
    fn default_entry() -> (e: Self)
        ensures
            e.empty_spec(),
    ;
}

impl RecipeEntry for RecipeIngredient {
    open spec fn entry_type_spec() -> RecipeEntryType {
        RecipeEntryType::Ingredients
    }

    open spec fn css_class_spec() -> Seq<char> {
        "ingredients"@
    }

    /// Field 0 is the quantity with its unit, field 1 the content.
    open spec fn valid_field(field_id: Option<usize>) -> bool {
        field_id == Some(0usize) || field_id == Some(1usize)
    }

    open spec fn field_text(&self, field_id: Option<usize>) -> Seq<char> {
        if field_id == Some(0usize) {
            self.qty_unit@
        } else {
            self.content@
        }
    }

    open spec fn empty_spec(&self) -> bool {
        self.qty_unit@.len() == 0 && self.content@.len() == 0
    }


    fn get_entry_type() -> (t: RecipeEntryType) {
        RecipeEntryType::Ingredients
    }

    fn get_css_class_name() -> (s: String) {
        "ingredients".to_owned()
    }

    /// Field 0 sets the quantity, field 1 the content; any other id changes nothing.
    fn update_field_from_string_input(&mut self, field_id: Option<usize>, input: String)
        ensures
            field_id == Some(0usize) ==> *final(self) == (RecipeIngredient { qty_unit: input, content: old(self).content }),
            field_id == Some(1usize) ==> *final(self) == (RecipeIngredient { qty_unit: old(self).qty_unit, content: input }),
            !Self::valid_field(field_id) ==> *final(self) == *old(self),
    {
        match field_id {
            Some(0) => self.qty_unit = input,
            Some(1) => self.content = input,
            _ => {},
        }
    }

    fn get_string_from_field(&self, field_id: Option<usize>) -> (s: String) {
        match field_id {
            Some(0) => self.qty_unit.clone(),
            _ => self.content.clone(),
        }
    }

    fn is_empty(&self) -> (b: bool) {
        self.qty_unit.as_str().is_empty() && self.content.as_str().is_empty()
    }

    fn default_entry() -> (e: Self) {
        RecipeIngredient { qty_unit: String::new(), content: String::new() }
    }
}

impl RecipeEntry for RecipeInstruction {
    open spec fn entry_type_spec() -> RecipeEntryType {
        RecipeEntryType::Instructions
    }

    open spec fn css_class_spec() -> Seq<char> {
        "instructions"@
    }

    open spec fn valid_field(field_id: Option<usize>) -> bool {
        true
    }

    open spec fn field_text(&self, field_id: Option<usize>) -> Seq<char> {
        self.content@
    }

    open spec fn empty_spec(&self) -> bool {
        self.content@.len() == 0
    }


    fn get_entry_type() -> (t: RecipeEntryType) {
        RecipeEntryType::Instructions
    }

    fn get_css_class_name() -> (s: String) {
        "instructions".to_owned()
    }

    /// The field id is ignored: the input becomes the content.
    fn update_field_from_string_input(&mut self, field_id: Option<usize>, input: String)
        ensures
            *final(self) == (RecipeInstruction { content: input }),
    {
        self.content = input;
    }

    fn get_string_from_field(&self, field_id: Option<usize>) -> (s: String) {
        self.content.clone()
    }

    fn is_empty(&self) -> (b: bool) {
        self.content.as_str().is_empty()
    }

    fn default_entry() -> (e: Self) {
        RecipeInstruction { content: String::new() }
    }
}

impl RecipeEntry for RecipeNote {
    open spec fn entry_type_spec() -> RecipeEntryType {
        RecipeEntryType::Notes
    }

    open spec fn css_class_spec() -> Seq<char> {
        "notes"@
    }

    open spec fn valid_field(field_id: Option<usize>) -> bool {
        true
    }

    open spec fn field_text(&self, field_id: Option<usize>) -> Seq<char> {
        self.content@
    }

    open spec fn empty_spec(&self) -> bool {
        self.content@.len() == 0
    }


    fn get_entry_type() -> (t: RecipeEntryType) {
        RecipeEntryType::Notes
    }

    fn get_css_class_name() -> (s: String) {
        "notes".to_owned()
    }

    /// The field id is ignored: the input becomes the content.
    fn update_field_from_string_input(&mut self, field_id: Option<usize>, input: String)
        ensures
            *final(self) == (RecipeNote { content: input }),
    {
        self.content = input;
    }

    fn get_string_from_field(&self, field_id: Option<usize>) -> (s: String) {
        self.content.clone()
    }

    fn is_empty(&self) -> (b: bool) {
        self.content.as_str().is_empty()
    }

    fn default_entry() -> (e: Self) {
        RecipeNote { content: String::new() }
    }
}

impl RecipeEntry for RecipeTag {
    open spec fn entry_type_spec() -> RecipeEntryType {
        RecipeEntryType::Tag
    }

    open spec fn css_class_spec() -> Seq<char> {
        "tags"@
    }

    open spec fn valid_field(field_id: Option<usize>) -> bool {
        true
    }

    open spec fn field_text(&self, field_id: Option<usize>) -> Seq<char> {
        self.name@
    }

    open spec fn empty_spec(&self) -> bool {
        self.name@.len() == 0
    }


    fn get_entry_type() -> (t: RecipeEntryType) {
        RecipeEntryType::Tag
    }

    fn get_css_class_name() -> (s: String) {
        "tags".to_owned()
    }

    /// The field id is ignored: the input becomes the name.
    fn update_field_from_string_input(&mut self, field_id: Option<usize>, input: String)
        ensures
            *final(self) == (RecipeTag { name: input }),
    {
        self.name = input;
    }

    fn get_string_from_field(&self, field_id: Option<usize>) -> (s: String) {
        self.name.clone()
    }

    fn is_empty(&self) -> (b: bool) {
        self.name.as_str().is_empty()
    }

    fn default_entry() -> (e: Self) {
        RecipeTag { name: String::new() }
    }
}

} // verus!
