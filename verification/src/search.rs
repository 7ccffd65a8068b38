//! Searching and filtering the recipe list, and the tag and ingredient
//! lists offered on the pages.
use vstd::prelude::*;
use crate::outside::{lowercase, to_lowercase, regex_find_all, find_all_matches};
use crate::text::{to_chars, contains_chars, contains_seq, seq_less};
use crate::recipe::{RecipeLight, RecipeLightModel, has_tags_spec};
use crate::sorting::{
    dedup, dedup_strings, sort_by_lowercase, sorted_by_key, lower_keyed, values_of, lemma_filter_all,
    lemma_sorted_by_key_permutes, lemma_sorted_by_key_ordered, lemma_dedup_no_duplicates, lemma_dedup_same_elements,
};

verus! {

/// The regular expression that splits a text into words.
pub const WORD_PATTERN: &'static str = "\\b\\w+\\b";

/// Each part preceded by a space.
pub open spec fn spaced(parts: Seq<Seq<char>>) -> Seq<char>
    decreases parts.len(),
{
    if parts.len() == 0 {
        Seq::empty()
    } else {
        spaced(parts.drop_last()) + seq![' '] + parts.last()
    }
}

/// The content of each ingredient.
pub open spec fn ingredient_contents(ingrs: Seq<(Seq<char>, Seq<char>)>) -> Seq<Seq<char>> {
    ingrs.map_values(|p: (Seq<char>, Seq<char>)| p.1)
}

/// The sequence, or the empty one.
pub open spec fn opt_or_empty<A>(o: Option<Seq<A>>) -> Seq<A> {
    match o {
        Some(s) => s,
        None => Seq::empty(),
    }
}

/// The text that a search looks into: the name, then each tag and each
/// ingredient content preceded by a space.
pub open spec fn recipe_text(r: RecipeLightModel) -> Seq<char> {
    r.name + spaced(opt_or_empty(r.tags)) + spaced(ingredient_contents(opt_or_empty(r.ingredients)))
}

/// A recipe word and a searched word match when either contains the other.
pub open spec fn word_pair_matches(word: Seq<char>, item: Seq<char>) -> bool {
    contains_seq(word, item) || contains_seq(item, word)
}

/// Some searched word matches some recipe word.
pub open spec fn words_match(words: Seq<Seq<char>>, search: Seq<Seq<char>>) -> bool {
    exists|i: int, j: int|
        0 <= i < search.len() && 0 <= j < words.len() && #[trigger] word_pair_matches(words[j], search[i])
}

/// The recipe is found by the searched words: its lowercase text is split
/// into words with `WORD_PATTERN`, and some searched word matches one of them.
pub open spec fn in_search(r: RecipeLightModel, search: Seq<Seq<char>>) -> bool {
    match regex_find_all(WORD_PATTERN@, lowercase(recipe_text(r))) {
        Some(ws) => words_match(ws, search),
        None => false,
    }
}

fn append_spaced(text: &mut String, part: &str)
    ensures
        final(text)@ == old(text)@ + seq![' '] + part@,
{
    text.append(" ");
    text.append(part);
    proof {
        reveal_strlit(" ");
    }
    assert(final(text)@ =~= old(text)@ + seq![' '] + part@) by {
        reveal_strlit(" ");
    }
}

proof fn lemma_spaced_step(parts: Seq<Seq<char>>, i: int, base: Seq<char>)
    requires
        0 <= i < parts.len(),
    ensures
        base + spaced(parts.take(i)) + seq![' '] + parts[i] == base + spaced(parts.take(i + 1)),
{
    assert(parts.take(i + 1).drop_last() =~= parts.take(i));
    assert(base + spaced(parts.take(i)) + seq![' '] + parts[i] =~= base + (spaced(parts.take(i)) + seq![' '] + parts[i]));
}

/// The text that a search looks into, as `recipe_text` describes it.
fn recipe_text_exec(r: &RecipeLight) -> (t: String)
    ensures
        t@ == recipe_text(r@),
{
    let mut t = r.name.clone();
    let ghost tags = opt_or_empty(r@.tags);
    match &r.tags {
        Some(tv) => {
            let mut i: usize = 0;
            assert(tv.deep_view().take(0) =~= Seq::<Seq<char>>::empty());
            assert(t@ =~= r.name@ + spaced(tv.deep_view().take(0)));
            while i < tv.len()
                invariant
                    i <= tv.len(),
                    t@ == r.name@ + spaced(tv.deep_view().take(i as int)),
                decreases tv.len() - i,
            {
                append_spaced(&mut t, tv[i].name.as_str());
                proof {
                    assert(tv.deep_view()[i as int] == tv@[i as int].name@);
                    lemma_spaced_step(tv.deep_view(), i as int, r.name@);
                }
                i += 1;
            }
            assert(tv.deep_view().take(i as int) =~= tv.deep_view());
        },
        None => {
            assert(t@ =~= r.name@ + spaced(Seq::<Seq<char>>::empty()));
        },
    }
    let ghost head = t@;
    assert(head == r.name@ + spaced(tags));
    match &r.ingredients {
        Some(iv) => {
            let ghost contents = ingredient_contents(iv.deep_view());
            let mut i: usize = 0;
            assert(contents.take(0) =~= Seq::<Seq<char>>::empty());
            assert(t@ =~= head + spaced(contents.take(0)));
            while i < iv.len()
                invariant
                    i <= iv.len(),
                    contents == ingredient_contents(iv.deep_view()),
                    t@ == head + spaced(contents.take(i as int)),
                decreases iv.len() - i,
            {
                append_spaced(&mut t, iv[i].content.as_str());
                proof {
                    assert(contents[i as int] == iv@[i as int].content@);
                    lemma_spaced_step(contents, i as int, head);
                }
                i += 1;
            }
            assert(contents.take(i as int) =~= contents);
        },
        None => {
            assert(t@ =~= head + spaced(ingredient_contents(Seq::<(Seq<char>, Seq<char>)>::empty())));
        },
    }
    t
}

/// Whether some searched word matches some recipe word: either contains the other.
pub fn search_words_match(recipe_words: &Vec<String>, search_words: &[String]) -> (res: bool)
    ensures
        res == words_match(recipe_words.deep_view(), search_words.deep_view()),
{
    let mut word_chars: Vec<Vec<char>> = Vec::new();
    let mut k: usize = 0;
    while k < recipe_words.len()
        invariant
            k <= recipe_words.len(),
            word_chars@.len() == k,
            forall|t: int| 0 <= t < k ==> (#[trigger] word_chars@[t])@ == recipe_words@[t]@,
        decreases recipe_words.len() - k,
    {
        word_chars.push(to_chars(recipe_words[k].as_str()));
        k += 1;
    }
    let ghost words = recipe_words.deep_view();
    let ghost search = search_words.deep_view();
    let mut i: usize = 0;
    while i < search_words.len()
        invariant
            i <= search_words@.len(),
            search == search_words.deep_view(),
            words == recipe_words.deep_view(),
            word_chars@.len() == recipe_words@.len(),
            forall|t: int| 0 <= t < word_chars@.len() ==> (#[trigger] word_chars@[t])@ == recipe_words@[t]@,
            forall|a: int, b: int| 0 <= a < i && 0 <= b < words.len() ==> !(#[trigger] word_pair_matches(words[b], search[a])),
        decreases search_words.len() - i,
    {
        let item = to_chars(search_words[i].as_str());
        let mut j: usize = 0;
        while j < word_chars.len()
            invariant
                i < search_words@.len(),
                j <= word_chars@.len(),
                item@ == search_words@[i as int]@,
                search == search_words.deep_view(),
                words == recipe_words.deep_view(),
                word_chars@.len() == recipe_words@.len(),
                forall|t: int| 0 <= t < word_chars@.len() ==> (#[trigger] word_chars@[t])@ == recipe_words@[t]@,
                forall|b: int| 0 <= b < j ==> !(#[trigger] word_pair_matches(words[b], search[i as int])),
            decreases word_chars.len() - j,
        {
            assert(words[j as int] == recipe_words@[j as int]@);
            assert(search[i as int] == search_words@[i as int]@);
            if contains_chars(&word_chars[j], &item) || contains_chars(&item, &word_chars[j]) {
                assert(word_pair_matches(words[j as int], search[i as int]));
                return true;
            }
            j += 1;
        }
        i += 1;
    }
    false
}

impl RecipeLight {
    /// Whether the recipe is found by the searched words (see `in_search`).
    pub fn is_in_search(&self, search_words: &[String]) -> (res: bool)
        ensures
            res == in_search(self@, search_words.deep_view()),
    {
        let text = recipe_text_exec(self);
        let lower = to_lowercase(text.as_str());
        match find_all_matches(WORD_PATTERN, lower.as_str()) {
            Some(words) => search_words_match(&words, search_words),
            None => false,
        }
    }
}

/// Splits a search input into lowercase words with `WORD_PATTERN`; no word
/// comes out when the pattern is refused.
pub fn get_search_words_from_input_value(input_value: String) -> (res: Vec<String>)
    ensures
        match regex_find_all(WORD_PATTERN@, lowercase(input_value@)) {
            Some(ws) => res.deep_view() == ws,
            None => res@.len() == 0,
        },
{
    let value = to_lowercase(input_value.as_str());
    match find_all_matches(WORD_PATTERN, value.as_str()) {
        Some(words) => words,
        None => Vec::new(),
    }
}

/// A recipe stays in the list: it has one of the selected tags (when tags are
/// selected) and is found by the searched words (when words are searched).
pub open spec fn recipe_kept(r: RecipeLightModel, sel: Seq<Seq<char>>, search: Seq<Seq<char>>) -> bool {
    (sel.len() == 0 || has_tags_spec(r.tags, sel)) && (search.len() == 0 || in_search(r, search))
}

/// `recipe_kept` on a numbered recipe.
pub open spec fn kept_pred(sel: Seq<Seq<char>>, search: Seq<Seq<char>>) -> spec_fn((usize, RecipeLightModel)) -> bool {
    |p: (usize, RecipeLightModel)| recipe_kept(p.1, sel, search)
}

/// Each recipe paired with its position in the list.
pub open spec fn enumerated(s: Seq<RecipeLightModel>) -> Seq<(usize, RecipeLightModel)> {
    Seq::new(s.len(), |i: int| (i as usize, s[i]))
}

/// The recipes of the main page that the selected tags and the searched
/// words let through, each with its position in the full list (which picks
/// its colour).
pub fn filter_recipes(recipes: Vec<RecipeLight>, selected_tags: &Vec<String>, search_input: &Vec<String>) -> (res: Vec<(usize, RecipeLight)>)
    ensures
        res.deep_view() == enumerated(recipes.deep_view()).filter(kept_pred(selected_tags.deep_view(), search_input.deep_view())),
{
    let ghost all = enumerated(recipes.deep_view());
    let ghost pred = kept_pred(selected_tags.deep_view(), search_input.deep_view());
    let ghost orig = recipes@;
    let n = recipes.len();
    let mut rest = recipes;
    let mut out: Vec<(usize, RecipeLight)> = Vec::new();
    let mut i: usize = 0;
    assert(orig.skip(0) =~= orig);
    assert(all.take(0) =~= Seq::<(usize, RecipeLightModel)>::empty());
    assert forall|t: int| 0 <= t < n implies #[trigger] all[t] == (t as usize, orig[t]@) by {
        assert(recipes.deep_view()[t] == orig[t]@);
    }
    assert(out.deep_view() =~= all.take(0).filter(pred));
    while i < n
        invariant
            n == orig.len(),
            all.len() == n,
            forall|t: int| 0 <= t < n ==> #[trigger] all[t] == (t as usize, orig[t]@),
            pred == kept_pred(selected_tags.deep_view(), search_input.deep_view()),
            i <= n,
            rest@ == orig.skip(i as int),
            out.deep_view() == all.take(i as int).filter(pred),
        decreases n - i,
    {
        let r = rest.remove(0);
        proof {
            assert(r == orig[i as int]);
            assert(rest@ =~= orig.skip(i + 1));
            assert(all[i as int] == (i, r@));
            assert(all.take(i + 1) =~= all.take(i as int).push(all[i as int]));
            all.take(i as int).lemma_filter_push(all[i as int], pred);
        }
        let keep_tags = selected_tags.len() == 0 || r.has_tags(selected_tags);
        let keep = keep_tags && (search_input.len() == 0 || r.is_in_search(search_input.as_slice()));
        if keep {
            let ghost prev = out.deep_view();
            out.push((i, r));
            proof {
                assert(out.deep_view() =~= prev.push(all[i as int]));
            }
        }
        i += 1;
    }
    assert(all.take(n as int) =~= all);
    out
}

/// The tag names of all recipes, recipe after recipe.
pub open spec fn tag_names_of(rs: Seq<RecipeLightModel>) -> Seq<Seq<char>>
    decreases rs.len(),
{
    if rs.len() == 0 {
        Seq::empty()
    } else {
        tag_names_of(rs.drop_last()) + opt_or_empty(rs.last().tags)
    }
}

/// The ingredient contents of all recipes, recipe after recipe.
pub open spec fn ingredient_names_of(rs: Seq<RecipeLightModel>) -> Seq<Seq<char>>
    decreases rs.len(),
{
    if rs.len() == 0 {
        Seq::empty()
    } else {
        ingredient_names_of(rs.drop_last()) + ingredient_contents(opt_or_empty(rs.last().ingredients))
    }
}

/// Texts sorted stably by their lowercase forms.
pub open spec fn sorted_case_insensitive(s: Seq<Seq<char>>) -> Seq<Seq<char>> {
    values_of(sorted_by_key(lower_keyed(s, s)))
}

fn copy_strings(v: &Vec<String>) -> (res: Vec<String>)
    ensures
        res.deep_view() == v.deep_view(),
{
    let mut res: Vec<String> = Vec::new();
    let mut i: usize = 0;
    while i < v.len()
        invariant
            i <= v.len(),
            res.deep_view() == v.deep_view().take(i as int),
        decreases v.len() - i,
    {
        let ghost prev = res.deep_view();
        res.push(v[i].clone());
        assert(res.deep_view() =~= prev.push(v.deep_view()[i as int]));
        assert(v.deep_view().take(i + 1) =~= v.deep_view().take(i as int).push(v.deep_view()[i as int]));
        i += 1;
    }
    assert(v.deep_view().take(i as int) =~= v.deep_view());
    res
}

fn sorted_unique(all: Vec<String>) -> (res: Vec<String>)
    ensures
        res.deep_view() == sorted_case_insensitive(dedup(all.deep_view())),
{
    let unique = dedup_strings(all);
    let keys = copy_strings(&unique);
    sort_by_lowercase(unique, &keys)
}

/// Every tag name used by the recipes, each once, sorted case-insensitively.
pub fn collect_all_tags(recipes: &Vec<RecipeLight>) -> (res: Vec<String>)
    ensures
        res.deep_view() == sorted_case_insensitive(dedup(tag_names_of(recipes.deep_view()))),
{
    let mut all: Vec<String> = Vec::new();
    let mut i: usize = 0;
    assert(recipes.deep_view().take(0) =~= Seq::<RecipeLightModel>::empty());
    while i < recipes.len()
        invariant
            i <= recipes.len(),
            all.deep_view() == tag_names_of(recipes.deep_view().take(i as int)),
        decreases recipes.len() - i,
    {
        let ghost before = all.deep_view();
        match &recipes[i].tags {
            Some(tags) => {
                let mut j: usize = 0;
                assert(before + tags.deep_view().take(0) =~= before);
                while j < tags.len()
                    invariant
                        j <= tags.len(),
                        all.deep_view() == before + tags.deep_view().take(j as int),
                    decreases tags.len() - j,
                {
                    let ghost prev = all.deep_view();
                    all.push(tags[j].name.clone());
                    assert(all.deep_view() =~= prev.push(tags.deep_view()[j as int]));
                    assert(before + tags.deep_view().take(j + 1) =~= (before + tags.deep_view().take(j as int)).push(tags.deep_view()[j as int]));
                    j += 1;
                }
                assert(tags.deep_view().take(j as int) =~= tags.deep_view());
            },
            None => {
                assert(before + Seq::<Seq<char>>::empty() =~= before);
            },
        }
        proof {
            let rs = recipes.deep_view();
            assert(rs.take(i + 1).drop_last() =~= rs.take(i as int));
            assert(rs.take(i + 1).last() == recipes@[i as int]@);
        }
        i += 1;
    }
    assert(recipes.deep_view().take(i as int) =~= recipes.deep_view());
    sorted_unique(all)
}

/// Every ingredient content used by the recipes, each once, sorted case-insensitively.
pub fn collect_all_ingredients(recipes: &Vec<RecipeLight>) -> (res: Vec<String>)
    ensures
        res.deep_view() == sorted_case_insensitive(dedup(ingredient_names_of(recipes.deep_view()))),
{
    let mut all: Vec<String> = Vec::new();
    let mut i: usize = 0;
    assert(recipes.deep_view().take(0) =~= Seq::<RecipeLightModel>::empty());
    while i < recipes.len()
        invariant
            i <= recipes.len(),
            all.deep_view() == ingredient_names_of(recipes.deep_view().take(i as int)),
        decreases recipes.len() - i,
    {
        let ghost before = all.deep_view();
        match &recipes[i].ingredients {
            Some(ingrs) => {
                let ghost contents = ingredient_contents(ingrs.deep_view());
                let mut j: usize = 0;
                assert(before + contents.take(0) =~= before);
                while j < ingrs.len()
                    invariant
                        j <= ingrs.len(),
                        contents == ingredient_contents(ingrs.deep_view()),
                        all.deep_view() == before + contents.take(j as int),
                    decreases ingrs.len() - j,
                {
                    let ghost prev = all.deep_view();
                    all.push(ingrs[j].content.clone());
                    assert(contents[j as int] == ingrs@[j as int].content@);
                    assert(all.deep_view() =~= prev.push(contents[j as int]));
                    assert(before + contents.take(j + 1) =~= (before + contents.take(j as int)).push(contents[j as int]));
                    j += 1;
                }
                assert(contents.take(j as int) =~= contents);
            },
            None => {
                assert(before + ingredient_contents(Seq::<(Seq<char>, Seq<char>)>::empty()) =~= before);
            },
        }
        proof {
            let rs = recipes.deep_view();
            assert(rs.take(i + 1).drop_last() =~= rs.take(i as int));
            assert(rs.take(i + 1).last() == recipes@[i as int]@);
        }
        i += 1;
    }
    assert(recipes.deep_view().take(i as int) =~= recipes.deep_view());
    sorted_unique(all)
}

/// Law: a recipe's words match the search exactly when some searched word,
/// whichever its place in the search, is contained in some recipe word or
/// contains one.
pub proof fn lemma_words_match_any_searched_word(words: Seq<Seq<char>>, search: Seq<Seq<char>>)
    ensures
        words_match(words, search) <==> exists|i: int, j: int|
            #![trigger search[i], words[j]]
            0 <= i < search.len() && 0 <= j < words.len()
                && (contains_seq(words[j], search[i]) || contains_seq(search[i], words[j])),
{
    if words_match(words, search) {
        let (i, j) = choose|i: int, j: int|
            0 <= i < search.len() && 0 <= j < words.len() && #[trigger] word_pair_matches(words[j], search[i]);
        assert(contains_seq(words[j], search[i]) || contains_seq(search[i], words[j]));
    }
    if exists|i: int, j: int|
        #![trigger search[i], words[j]]
        0 <= i < search.len() && 0 <= j < words.len()
            && (contains_seq(words[j], search[i]) || contains_seq(search[i], words[j])) {
        let (i, j) = choose|i: int, j: int|
            #![trigger search[i], words[j]]
            0 <= i < search.len() && 0 <= j < words.len()
                && (contains_seq(words[j], search[i]) || contains_seq(search[i], words[j]));
        assert(word_pair_matches(words[j], search[i]));
    }
}

/// Law: searching for two lists of words at once matches exactly when
/// searching for either list matches, so no searched word is ignored
/// whatever its place.
pub proof fn lemma_words_match_concat(words: Seq<Seq<char>>, s1: Seq<Seq<char>>, s2: Seq<Seq<char>>)
    ensures
        words_match(words, s1 + s2) == (words_match(words, s1) || words_match(words, s2)),
{
    let s = s1 + s2;
    if words_match(words, s) {
        let (i, j) = choose|i: int, j: int|
            0 <= i < s.len() && 0 <= j < words.len() && #[trigger] word_pair_matches(words[j], s[i]);
        if i < s1.len() {
            assert(s[i] == s1[i]);
            assert(word_pair_matches(words[j], s1[i]));
        } else {
            assert(s[i] == s2[i - s1.len()]);
            assert(word_pair_matches(words[j], s2[i - s1.len()]));
        }
    }
    if words_match(words, s1) {
        let (i, j) = choose|i: int, j: int|
            0 <= i < s1.len() && 0 <= j < words.len() && #[trigger] word_pair_matches(words[j], s1[i]);
        assert(s[i] == s1[i]);
        assert(word_pair_matches(words[j], s[i]));
    }
    if words_match(words, s2) {
        let (i, j) = choose|i: int, j: int|
            0 <= i < s2.len() && 0 <= j < words.len() && #[trigger] word_pair_matches(words[j], s2[i]);
        assert(s[i + s1.len()] == s2[i]);
        assert(word_pair_matches(words[j], s[i + s1.len()]));
    }
}

/// Law: the filtered list holds exactly the recipes, with their positions,
/// that carry one of the selected tags (when tags are selected) and are
/// found by the searched words (when words are searched): every listed
/// recipe passes both filters, and every recipe passing both is listed.
pub proof fn lemma_filter_is_both_filters(rs: Seq<RecipeLightModel>, sel: Seq<Seq<char>>, search: Seq<Seq<char>>)
    requires
        rs.len() <= usize::MAX,
    ensures
        ({
            let res = enumerated(rs).filter(kept_pred(sel, search));
            &&& forall|k: int| 0 <= k < res.len() ==> {
                &&& (#[trigger] res[k]).0 < rs.len()
                &&& res[k].1 == rs[res[k].0 as int]
                &&& (sel.len() > 0 ==> has_tags_spec(res[k].1.tags, sel))
                &&& (search.len() > 0 ==> in_search(res[k].1, search))
            }
            &&& forall|i: int| 0 <= i < rs.len()
                && (sel.len() == 0 || has_tags_spec(rs[i].tags, sel))
                && (search.len() == 0 || in_search(rs[i], search))
                ==> res.contains((i as usize, #[trigger] rs[i]))
        }),
{
    let e = enumerated(rs);
    let p = kept_pred(sel, search);
    let res = e.filter(p);
    assert forall|k: int| 0 <= k < res.len() implies {
        &&& (#[trigger] res[k]).0 < rs.len()
        &&& res[k].1 == rs[res[k].0 as int]
        &&& (sel.len() > 0 ==> has_tags_spec(res[k].1.tags, sel))
        &&& (search.len() > 0 ==> in_search(res[k].1, search))
    } by {
        e.lemma_filter_pred(p, k);
        assert(res.contains(res[k]));
        e.lemma_filter_contains_rev(p, res[k]);
        let idx = choose|idx: int| 0 <= idx < e.len() && e[idx] == res[k];
        assert(e[idx] == (idx as usize, rs[idx]));
    }
    assert forall|i: int| 0 <= i < rs.len()
        && (sel.len() == 0 || has_tags_spec(rs[i].tags, sel))
        && (search.len() == 0 || in_search(rs[i], search))
        implies res.contains((i as usize, #[trigger] rs[i])) by {
        assert(e[i] == (i as usize, rs[i]));
        assert(p(e[i]));
        e.lemma_filter_contains(p, i);
    }
}

/// Law: with no tag selected and no word searched, every recipe is listed,
/// in order, with its position.
pub proof fn lemma_no_filter_keeps_all(rs: Seq<RecipeLightModel>)
    ensures
        enumerated(rs).filter(kept_pred(Seq::empty(), Seq::empty())) == enumerated(rs),
{
    lemma_filter_all(enumerated(rs), kept_pred(Seq::empty(), Seq::empty()));
}

/// Law: a sorted list of distinct texts names each text once, holds exactly
/// the given texts, and orders them by their lowercase forms.
pub proof fn lemma_sorted_case_insensitive(d: Seq<Seq<char>>)
    requires
        d.no_duplicates(),
    ensures
        sorted_case_insensitive(d).no_duplicates(),
        forall|x: Seq<char>| #[trigger] sorted_case_insensitive(d).contains(x) == d.contains(x),
        forall|i: int, j: int| 0 <= i < j < sorted_case_insensitive(d).len()
            ==> !seq_less(lowercase(#[trigger] sorted_case_insensitive(d)[j]), lowercase(#[trigger] sorted_case_insensitive(d)[i])),
{
    broadcast use vstd::seq_lib::group_to_multiset_ensures;

    let lk = lower_keyed(d, d);
    let st = sorted_by_key(lk);
    let r = values_of(st);
    lemma_sorted_by_key_permutes(lk);
    lemma_sorted_by_key_ordered(lk);
    assert(r.len() == st.len());
    // every sorted pair comes from the keyed list
    assert forall|i: int| 0 <= i < st.len() implies #[trigger] st[i].0 == lowercase(st[i].1) && d.contains(st[i].1) by {
        assert(st.contains(st[i]));
        assert(st.to_multiset().count(st[i]) > 0);
        assert(lk.contains(st[i]));
        let k = choose|k: int| 0 <= k < lk.len() && lk[k] == st[i];
        assert(d[k] == st[i].1);
    }
    // the same texts
    assert forall|x: Seq<char>| #[trigger] r.contains(x) == d.contains(x) by {
        if r.contains(x) {
            let i = choose|i: int| 0 <= i < r.len() && r[i] == x;
            assert(r[i] == st[i].1);
            assert(st[i].0 == lowercase(st[i].1) && d.contains(st[i].1));
        }
        if d.contains(x) {
            let k = choose|k: int| 0 <= k < d.len() && d[k] == x;
            assert(lk[k] == (lowercase(x), x));
            assert(lk.contains(lk[k]));
            assert(lk.to_multiset().count(lk[k]) > 0);
            assert(st.contains(lk[k]));
            let i = choose|i: int| 0 <= i < st.len() && st[i] == lk[k];
            assert(r[i] == x);
        }
    }
    // no text twice
    assert(lk.no_duplicates()) by {
        assert forall|a: int, b: int| 0 <= a < lk.len() && 0 <= b < lk.len() && a != b implies lk[a] != lk[b] by {
            assert(d[a] != d[b]);
        }
    }
    lk.lemma_multiset_has_no_duplicates();
    st.lemma_multiset_has_no_duplicates_conv();
    assert forall|a: int, b: int| 0 <= a < r.len() && 0 <= b < r.len() && a != b implies r[a] != r[b] by {
        assert(r[a] == st[a].1);
        assert(r[b] == st[b].1);
        if st[a].1 == st[b].1 {
            assert(st[a] == st[b]);
        }
    }
    // ordered by lowercase forms
    assert forall|i: int, j: int| 0 <= i < j < r.len() implies !seq_less(lowercase(#[trigger] r[j]), lowercase(#[trigger] r[i])) by {
        assert(r[i] == st[i].1);
        assert(r[j] == st[j].1);
        assert(!seq_less(st[j].0, st[i].0));
    }
}

/// Law: the tag list offered on the pages names each tag of the recipes once,
/// no other text, ordered by lowercase form.
pub proof fn lemma_all_tags_list(rs: Seq<RecipeLightModel>)
    ensures
        sorted_case_insensitive(dedup(tag_names_of(rs))).no_duplicates(),
        forall|x: Seq<char>| #[trigger] sorted_case_insensitive(dedup(tag_names_of(rs))).contains(x) == tag_names_of(rs).contains(x),
        forall|i: int, j: int| 0 <= i < j < sorted_case_insensitive(dedup(tag_names_of(rs))).len()
            ==> !seq_less(
                lowercase(#[trigger] sorted_case_insensitive(dedup(tag_names_of(rs)))[j]),
                lowercase(#[trigger] sorted_case_insensitive(dedup(tag_names_of(rs)))[i]),
            ),
{
    let names = tag_names_of(rs);
    lemma_dedup_no_duplicates(names);
    lemma_sorted_case_insensitive(dedup(names));
    assert forall|x: Seq<char>| #[trigger] sorted_case_insensitive(dedup(names)).contains(x) == names.contains(x) by {
        lemma_dedup_same_elements(names, x);
    }
}

/// Law: the ingredient list offered on the pages names each ingredient of the
/// recipes once, no other text, ordered by lowercase form.
pub proof fn lemma_all_ingredients_list(rs: Seq<RecipeLightModel>)
    ensures
        sorted_case_insensitive(dedup(ingredient_names_of(rs))).no_duplicates(),
        forall|x: Seq<char>| #[trigger] sorted_case_insensitive(dedup(ingredient_names_of(rs))).contains(x) == ingredient_names_of(rs).contains(x),
        forall|i: int, j: int| 0 <= i < j < sorted_case_insensitive(dedup(ingredient_names_of(rs))).len()
            ==> !seq_less(
                lowercase(#[trigger] sorted_case_insensitive(dedup(ingredient_names_of(rs)))[j]),
                lowercase(#[trigger] sorted_case_insensitive(dedup(ingredient_names_of(rs)))[i]),
            ),
{
    let names = ingredient_names_of(rs);
    lemma_dedup_no_duplicates(names);
    lemma_sorted_case_insensitive(dedup(names));
    assert forall|x: Seq<char>| #[trigger] sorted_case_insensitive(dedup(names)).contains(x) == names.contains(x) by {
        lemma_dedup_same_elements(names, x);
    }
}

} // verus!
