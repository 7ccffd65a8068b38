//! What the server does with the stored recipes: the database command of
//! each recipe action, the commands that restore a backup, and the order of
//! the recipe lists.
use vstd::prelude::*;
use crate::recipe::{
    RecipeLight, RecipeLightModel, RecipeActionDescriptor, JsonRecipe, JsonRecipeModel,
    JsonRecipeCollection, JsonRecipeTags, JsonRecipeIngredients, JsonRecipeInstructions,
    JsonRecipeNotes, DbRowRecipe, DbRowRecipeLight, json_of_recipe,
};
use crate::sorting::{
    sort_by_lowercase, sorted_by_key, lower_keyed, values_of, keys_ordered, lemma_sorted_by_key_ordered,
    lemma_sorted_by_key_permutes, lemma_sorted_by_key_of_ordered,
};
use crate::outside::lowercase;
use crate::storage::{
    RecipeColumns, columns_of, columns_of_json_recipe, json_of_columns, row_columns, light_of_row,
    recipe_light_from_db_row, json_recipe_from_db_row,
};

verus! {

/// Inserts a row; parameters: name, tags, ingredients, instructions, notes.
pub const INSERT_SQL: &'static str = "INSERT INTO recipes (recipe_name, recipe_tags, recipe_ingredients, recipe_instructions, recipe_notes) VALUES ($1, $2, $3, $4, $5)";

/// Inserts a row of a restored backup; parameters: name, tags, ingredients,
/// instructions, notes.
pub const RESTORE_INSERT_SQL: &'static str = "INSERT INTO recipes (recipe_name, recipe_tags, recipe_ingredients, recipe_instructions, recipe_notes) VALUES ($1, $2, $3, $4, $5);";

/// Replaces the columns of a row; parameters: the five columns, then the id.
pub const UPDATE_SQL: &'static str = "UPDATE recipes SET recipe_name = $1, recipe_tags = $2, recipe_ingredients = $3, recipe_instructions = $4, recipe_notes = $5 WHERE id = $6;";

/// Deletes a row; parameter: the id.
pub const DELETE_SQL: &'static str = "DELETE FROM recipes WHERE id = $1";

/// Inserts a copy of the columns of a row; parameter: the id.
pub const DUPLICATE_SQL: &'static str = "INSERT INTO recipes (recipe_name, recipe_tags, recipe_ingredients, recipe_instructions, recipe_notes) SELECT recipe_name, recipe_tags, recipe_ingredients, recipe_instructions, recipe_notes FROM recipes WHERE id = $1;";

/// Deletes every row.
pub const DELETE_ALL_SQL: &'static str = "DELETE FROM recipes;";

/// A change of the recipe table.
#[derive(Debug, PartialEq, Eq)]
pub enum RecipeDbCommand {
    /// Insert a row with these columns; the database picks the id.
    Insert(RecipeColumns),
    /// Insert a row of a restored backup with these columns; the database
    /// picks the id.
    RestoreInsert(RecipeColumns),
    /// Replace the columns of row `id`.
    Update(u16, RecipeColumns),
    /// Delete row `id`.
    Delete(u16),
    /// Insert a copy of the columns of row `id`.
    Duplicate(u16),
    /// Delete every row.
    DeleteAll,
}

impl RecipeDbCommand {
    /// The SQL statement of the command; its parameters are, in order, the
    /// name, tags, ingredients, instructions and notes columns, then the id.
    pub fn sql(&self) -> (res: &'static str)
        ensures
            res@ == self.sql_spec(),
    {
        match self {
            RecipeDbCommand::Insert(_) => INSERT_SQL,
            RecipeDbCommand::RestoreInsert(_) => RESTORE_INSERT_SQL,
            RecipeDbCommand::Update(_, _) => UPDATE_SQL,
            RecipeDbCommand::Delete(_) => DELETE_SQL,
            RecipeDbCommand::Duplicate(_) => DUPLICATE_SQL,
            RecipeDbCommand::DeleteAll => DELETE_ALL_SQL,
        }
    }

    pub open spec fn sql_spec(&self) -> Seq<char> {
        match self {
            RecipeDbCommand::Insert(_) => INSERT_SQL@,
            RecipeDbCommand::RestoreInsert(_) => RESTORE_INSERT_SQL@,
            RecipeDbCommand::Update(_, _) => UPDATE_SQL@,
            RecipeDbCommand::Delete(_) => DELETE_SQL@,
            RecipeDbCommand::Duplicate(_) => DUPLICATE_SQL@,
            RecipeDbCommand::DeleteAll => DELETE_ALL_SQL@,
        }
    }
}

/// The database command of a recipe action: an added recipe is inserted, a
/// saved one updates its row (it needs an id), a deleted one is removed and a
/// duplicated one copied. The columns hold the recipe without its id.
pub fn recipe_action_command(desc: RecipeActionDescriptor) -> (res: Result<RecipeDbCommand, String>)
    ensures
        match desc {
            RecipeActionDescriptor::Add(r) => res matches Ok(RecipeDbCommand::Insert(c)) && c@ == columns_of(json_of_recipe(r@)),
            RecipeActionDescriptor::Save(r) => match r.id {
                Some(id) => res matches Ok(RecipeDbCommand::Update(i, c)) && i == id && c@ == columns_of(json_of_recipe(r@)),
                None => res matches Err(m) && m@ == "No Recipe ID for recipe save"@,
            },
            RecipeActionDescriptor::Delete(id) => res == Ok::<RecipeDbCommand, String>(RecipeDbCommand::Delete(id)),
            RecipeActionDescriptor::Duplicate(id) => res == Ok::<RecipeDbCommand, String>(RecipeDbCommand::Duplicate(id)),
        },
{
    match desc {
        RecipeActionDescriptor::Add(recipe) => Ok(RecipeDbCommand::Insert(columns_of_json_recipe(JsonRecipe::from_recipe(recipe)))),
        RecipeActionDescriptor::Save(recipe) => {
            match recipe.id {
                Some(id) => Ok(RecipeDbCommand::Update(id, columns_of_json_recipe(JsonRecipe::from_recipe(recipe)))),
                None => Err("No Recipe ID for recipe save".to_owned()),
            }
        },
        RecipeActionDescriptor::Delete(id) => Ok(RecipeDbCommand::Delete(id)),
        RecipeActionDescriptor::Duplicate(id) => Ok(RecipeDbCommand::Duplicate(id)),
    }
}

/// The command of one recipe of a backup: its parts pass through the recipe
/// format and back before its columns are inserted.
fn backup_insert(recipe: JsonRecipe) -> (res: RecipeDbCommand)
    ensures
        res matches RecipeDbCommand::RestoreInsert(c) && c@ == columns_of(recipe@),
{
    let JsonRecipe { name, tags, ingredients, instructions, notes } = recipe;
    RecipeDbCommand::RestoreInsert(columns_of_json_recipe(JsonRecipe {
        name,
        tags: JsonRecipeTags::from_recipe_tags(tags.to_recipe_tags()),
        ingredients: JsonRecipeIngredients::from_recipe_ingredients(ingredients.to_recipe_ingredients()),
        instructions: JsonRecipeInstructions::from_recipe_instructions(instructions.to_recipe_instructions()),
        notes: JsonRecipeNotes::from_recipe_notes(notes.to_recipe_notes()),
    }))
}

/// The commands that restore the backup `save`: every row is deleted, then
/// the columns of each recipe of the backup are inserted, in order.
pub open spec fn restore_commands(cmds: Seq<RecipeDbCommand>, save: Seq<JsonRecipeModel>) -> bool {
    &&& cmds.len() == save.len() + 1
    &&& cmds[0] == RecipeDbCommand::DeleteAll
    &&& forall|i: int| 0 <= i < save.len() ==> (#[trigger] cmds[i + 1] matches RecipeDbCommand::RestoreInsert(c) && c@ == columns_of(save[i]))
}

/// The commands that restore a backup: every row is deleted, then each
/// recipe of the backup is inserted, in order.
pub fn apply_json_save_commands(save: JsonRecipeCollection) -> (res: Vec<RecipeDbCommand>)
    ensures
        res@.len() == save.0@.len() + 1,
        res@[0] == RecipeDbCommand::DeleteAll,
        forall|i: int| 0 <= i < save.0@.len() ==> (#[trigger] res@[i + 1] matches RecipeDbCommand::RestoreInsert(c) && c@ == columns_of(save.0@[i]@)),
        restore_commands(res@, save.0.deep_view()),
{
    let ghost orig = save.0@;
    let mut rest = save.0;
    let mut out: Vec<RecipeDbCommand> = Vec::new();
    out.push(RecipeDbCommand::DeleteAll);
    let n = rest.len();
    let mut i: usize = 0;
    while i < n
        invariant
            n == orig.len(),
            i <= n,
            rest@ == orig.skip(i as int),
            out@.len() == i + 1,
            out@[0] == RecipeDbCommand::DeleteAll,
            forall|k: int| 0 <= k < i ==> (#[trigger] out@[k + 1] matches RecipeDbCommand::RestoreInsert(c) && c@ == columns_of(orig[k]@)),
        decreases n - i,
    {
        let r = rest.remove(0);
        proof {
            assert(r == orig[i as int]);
            assert(rest@ =~= orig.skip(i + 1));
        }
        let cmd = backup_insert(r);
        let ghost prev = out@;
        out.push(cmd);
        proof {
            assert forall|k: int| 0 <= k < i + 1 implies (#[trigger] out@[k + 1] matches RecipeDbCommand::RestoreInsert(c) && c@ == columns_of(orig[k]@)) by {
                if k < i {
                    assert(out@[k + 1] == prev[k + 1]);
                }
            }
        }
        i += 1;
    }
    proof {
        assert forall|k: int| 0 <= k < orig.len() implies (#[trigger] out@[k + 1] matches RecipeDbCommand::RestoreInsert(c) && c@ == columns_of(save.0.deep_view()[k])) by {
            assert(save.0.deep_view()[k] == orig[k]@);
        }
    }
    out
}

/// The names of light recipes.
pub open spec fn light_names(rs: Seq<RecipeLightModel>) -> Seq<Seq<char>> {
    rs.map_values(|r: RecipeLightModel| r.name)
}

/// The names of JSON recipes.
pub open spec fn json_names(rs: Seq<JsonRecipeModel>) -> Seq<Seq<char>> {
    rs.map_values(|r: JsonRecipeModel| r.name)
}

/// Sorts the recipe list alphabetically, ignoring case; recipes with the
/// same lowercase name keep their order.
pub fn sort_recipes_light(recipes: Vec<RecipeLight>) -> (res: Vec<RecipeLight>)
    ensures
        res.deep_view() == values_of(sorted_by_key(lower_keyed(light_names(recipes.deep_view()), recipes.deep_view()))),
{
    let mut keys: Vec<String> = Vec::new();
    let mut i: usize = 0;
    while i < recipes.len()
        invariant
            i <= recipes.len(),
            keys.deep_view() == light_names(recipes.deep_view()).take(i as int),
        decreases recipes.len() - i,
    {
        let ghost prev = keys.deep_view();
        keys.push(recipes[i].name.clone());
        assert(keys.deep_view() =~= prev.push(recipes@[i as int].name@));
        assert(light_names(recipes.deep_view()).take(i + 1) =~= prev.push(recipes@[i as int].name@));
        i += 1;
    }
    assert(light_names(recipes.deep_view()).take(i as int) =~= light_names(recipes.deep_view()));
    sort_by_lowercase(recipes, &keys)
}

/// Sorts the recipes of a backup alphabetically, ignoring case; recipes with
/// the same lowercase name keep their order.
pub fn sort_json_recipes(recipes: JsonRecipeCollection) -> (res: JsonRecipeCollection)
    ensures
        res.0.deep_view() == values_of(sorted_by_key(lower_keyed(json_names(recipes.0.deep_view()), recipes.0.deep_view()))),
{
    let v = recipes.0;
    let mut keys: Vec<String> = Vec::new();
    let mut i: usize = 0;
    while i < v.len()
        invariant
            i <= v.len(),
            keys.deep_view() == json_names(v.deep_view()).take(i as int),
        decreases v.len() - i,
    {
        let ghost prev = keys.deep_view();
        keys.push(v[i].name.clone());
        assert(keys.deep_view() =~= prev.push(v@[i as int].name@));
        assert(json_names(v.deep_view()).take(i + 1) =~= prev.push(v@[i as int].name@));
        i += 1;
    }
    assert(json_names(v.deep_view()).take(i as int) =~= json_names(v.deep_view()));
    JsonRecipeCollection(sort_by_lowercase(v, &keys))
}

/// A recipe id is only looked up by a non-empty name.
pub fn recipe_name_is_searchable(name: &str) -> (res: bool)
    ensures
        res == (name@.len() > 0),
{
    !name.is_empty()
}

/// Every light row reads.
pub open spec fn every_light_row_reads(rows: Seq<DbRowRecipeLight>) -> bool {
    forall|i: int| 0 <= i < rows.len() ==> (#[trigger] light_of_row(rows[i])) is Some
}

/// The light recipes of light rows that all read.
pub open spec fn lights_of_rows(rows: Seq<DbRowRecipeLight>) -> Seq<RecipeLightModel> {
    Seq::new(rows.len(), |i: int| light_of_row(rows[i]).unwrap())
}

/// The recipe list of the main page from the light rows of the table: each
/// row is read in turn, the first that does not read gives the error, and
/// the list is sorted by name, ignoring case.
pub fn recipes_light_from_rows(rows: Vec<DbRowRecipeLight>) -> (res: Result<Vec<RecipeLight>, String>)
    ensures
        res is Ok <==> every_light_row_reads(rows@),
        res matches Ok(v) ==> v.deep_view() == values_of(sorted_by_key(lower_keyed(
            light_names(lights_of_rows(rows@)),
            lights_of_rows(rows@),
        ))),
{
    let ghost orig = rows@;
    let n = rows.len();
    let mut rest = rows;
    let mut out: Vec<RecipeLight> = Vec::new();
    let mut i: usize = 0;
    assert(orig.skip(0) =~= orig);
    while i < n
        invariant
            orig == rows@,
            n == orig.len(),
            i <= n,
            rest@ == orig.skip(i as int),
            forall|k: int| 0 <= k < i ==> (#[trigger] light_of_row(orig[k])) is Some,
            out.deep_view() == lights_of_rows(orig).take(i as int),
        decreases n - i,
    {
        let row = rest.remove(0);
        proof {
            assert(row == orig[i as int]);
            assert(rest@ =~= orig.skip(i + 1));
        }
        let ghost this_row = orig[i as int];
        match recipe_light_from_db_row(row) {
            Ok(r) => {
                let ghost prev = out.deep_view();
                out.push(r);
                proof {
                    assert(out.deep_view() =~= prev.push(r@));
                    assert(lights_of_rows(orig).take(i + 1) =~= lights_of_rows(orig).take(i as int).push(r@));
                }
            },
            Err(e) => {
                assert(light_of_row(this_row) is None);
                assert(!every_light_row_reads(orig));
                return Err(e);
            },
        }
        i += 1;
    }
    assert(lights_of_rows(orig).take(n as int) =~= lights_of_rows(orig));
    Ok(sort_recipes_light(out))
}

/// Every full row reads.
pub open spec fn every_row_reads(rows: Seq<DbRowRecipe>) -> bool {
    forall|i: int| 0 <= i < rows.len() ==> (#[trigger] json_of_columns(row_columns(rows[i]))) is Some
}

/// The JSON recipes of full rows that all read.
pub open spec fn jsons_of_rows(rows: Seq<DbRowRecipe>) -> Seq<JsonRecipeModel> {
    Seq::new(rows.len(), |i: int| json_of_columns(row_columns(rows[i])).unwrap())
}

/// JSON recipes sorted by name, ignoring case, as a backup lists them.
pub open spec fn sorted_jsons(x: Seq<JsonRecipeModel>) -> Seq<JsonRecipeModel> {
    values_of(sorted_by_key(lower_keyed(json_names(x), x)))
}

/// The rows hold the columns of the recipes of `save`, in order.
pub open spec fn rows_hold(rows: Seq<DbRowRecipe>, save: Seq<JsonRecipeModel>) -> bool {
    &&& rows.len() == save.len()
    &&& forall|i: int| 0 <= i < rows.len() ==> #[trigger] row_columns(rows[i]) == columns_of(save[i])
}

/// The rows of a table on which `cmds` were run, in insertion order: the
/// first command empties the table and each later one inserts the next row
/// (whatever id the database gives it).
pub open spec fn rows_after_restore(rows: Seq<DbRowRecipe>, cmds: Seq<RecipeDbCommand>) -> bool {
    &&& cmds.len() == rows.len() + 1
    &&& cmds[0] == RecipeDbCommand::DeleteAll
    &&& forall|i: int| 0 <= i < rows.len() ==> (#[trigger] cmds[i + 1] matches RecipeDbCommand::RestoreInsert(c) && row_columns(rows[i]) == c@)
}

/// Law: the table left by the restore commands of a backup holds the
/// columns of the backup's recipes, in order.
pub proof fn lemma_restore_rows_hold_backup(save: Seq<JsonRecipeModel>, cmds: Seq<RecipeDbCommand>, rows: Seq<DbRowRecipe>)
    requires
        restore_commands(cmds, save),
        rows_after_restore(rows, cmds),
    ensures
        rows_hold(rows, save),
{
    assert forall|i: int| 0 <= i < rows.len() implies #[trigger] row_columns(rows[i]) == columns_of(save[i]) by {
        assert(cmds[i + 1] matches RecipeDbCommand::RestoreInsert(c) && c@ == columns_of(save[i]));
    }
}

/// Law: a backup that lists its recipes by name, as every backup of the
/// table does, is listed the same way again: sorting it changes nothing.
pub proof fn lemma_sorted_jsons_idempotent(x: Seq<JsonRecipeModel>)
    ensures
        sorted_jsons(sorted_jsons(x)) == sorted_jsons(x),
{
    broadcast use vstd::seq_lib::group_to_multiset_ensures;
    let lk = lower_keyed(json_names(x), x);
    let t = sorted_by_key(lk);
    let b = values_of(t);
    lemma_sorted_by_key_permutes(lk);
    lemma_sorted_by_key_ordered(lk);
    assert(t.len() == lk.len()) by {
        assert(t.to_multiset().len() == lk.to_multiset().len());
    }
    assert forall|i: int| 0 <= i < t.len() implies #[trigger] t[i] == (lowercase(t[i].1.name), t[i].1) by {
        assert(t.contains(t[i]));
        assert(t.to_multiset().count(t[i]) > 0);
        assert(lk.to_multiset().count(t[i]) > 0);
        assert(lk.contains(t[i]));
        let k = choose|k: int| 0 <= k < lk.len() && lk[k] == t[i];
        assert(lk[k] == (lowercase(json_names(x)[k]), x[k]));
    }
    assert(lower_keyed(json_names(b), b) =~= t);
    lemma_sorted_by_key_of_ordered(t);
}

/// The backup of the whole table: each row is read in turn, the first that
/// does not read gives the error, and the recipes are sorted by name,
/// ignoring case.
///
/// Rows that hold the columns written for the recipes of a backup read back
/// as that backup, sorted; a backup that is already sorted, as every backup
/// of the table is, reads back as itself.
pub fn json_collection_from_rows(rows: Vec<DbRowRecipe>) -> (res: Result<JsonRecipeCollection, String>)
    ensures
        res is Ok <==> every_row_reads(rows@),
        res matches Ok(c) ==> c.0.deep_view() == sorted_jsons(jsons_of_rows(rows@)),
        forall|save: Seq<JsonRecipeModel>| #[trigger] rows_hold(rows@, save) ==> (res matches Ok(c) && c.0.deep_view() == sorted_jsons(save)),
        forall|save: Seq<JsonRecipeModel>| #[trigger] rows_hold(rows@, save) && sorted_jsons(save) == save ==> (res matches Ok(c) && c.0.deep_view() == save),
{
    let ghost orig = rows@;
    let n = rows.len();
    let mut rest = rows;
    let mut out: Vec<JsonRecipe> = Vec::new();
    let mut i: usize = 0;
    assert(orig.skip(0) =~= orig);
    while i < n
        invariant
            orig == rows@,
            n == orig.len(),
            i <= n,
            rest@ == orig.skip(i as int),
            forall|k: int| 0 <= k < i ==> (#[trigger] json_of_columns(row_columns(orig[k]))) is Some,
            forall|k: int, j: JsonRecipeModel| #![trigger columns_of(j), orig[k]]
                0 <= k < i && columns_of(j) == row_columns(orig[k]) ==> json_of_columns(row_columns(orig[k])) == Some(j),
            out.deep_view() == jsons_of_rows(orig).take(i as int),
        decreases n - i,
    {
        let row = rest.remove(0);
        proof {
            assert(row == orig[i as int]);
            assert(rest@ =~= orig.skip(i + 1));
        }
        let ghost this_row = orig[i as int];
        match json_recipe_from_db_row(row) {
            Ok(j) => {
                let ghost prev = out.deep_view();
                out.push(j);
                proof {
                    assert(out.deep_view() =~= prev.push(j@));
                    assert(jsons_of_rows(orig).take(i + 1) =~= jsons_of_rows(orig).take(i as int).push(j@));
                    assert forall|k: int, jm: JsonRecipeModel| #![trigger columns_of(jm), orig[k]]
                        0 <= k < i + 1 && columns_of(jm) == row_columns(orig[k]) implies json_of_columns(row_columns(orig[k])) == Some(jm) by {
                        if k == i {
                            assert(columns_of(jm) == row_columns(this_row));
                        }
                    }
                }
            },
            Err(e) => {
                assert(json_of_columns(row_columns(this_row)) is None);
                assert(!every_row_reads(orig));
                assert forall|save: Seq<JsonRecipeModel>| !rows_hold(orig, save) by {
                    if rows_hold(orig, save) {
                        assert(row_columns(orig[i as int]) == columns_of(save[i as int]));
                        assert(columns_of(save[i as int]) == row_columns(this_row));
                    }
                }
                return Err(e);
            },
        }
        i += 1;
    }
    assert(jsons_of_rows(orig).take(n as int) =~= jsons_of_rows(orig));
    proof {
        assert forall|save: Seq<JsonRecipeModel>| #[trigger] rows_hold(orig, save) implies jsons_of_rows(orig) == save by {
            assert forall|k: int| 0 <= k < n implies jsons_of_rows(orig)[k] == save[k] by {
                assert(row_columns(orig[k]) == columns_of(save[k]));
                assert(json_of_columns(row_columns(orig[k])) == Some(save[k]));
            }
            assert(jsons_of_rows(orig) =~= save);
        }
    }
    Ok(sort_json_recipes(JsonRecipeCollection(out)))
}

} // verus!
