//! Recipe reducers: store recipes and their ingredients, and accept a recipe,
//! deducting its required ingredients from the pantry.
use vstd::prelude::*;
use crate::events::{log_event, outcome};
use crate::items::{clamp_i64, saturating_sub_i64};
use crate::seqs::{find_first, first_match};
use crate::tables::{Database, DbView, Item, ItemView, Recipe, RecipeIngredient, RecipeIngredientView, RecipeView, rows};
use crate::text::{concat_text, decimal_text, join_strings, join_text, lowercase, lowercase_text, milli_string, milli_text, texts, u64_text};
use crate::types::{ItemStatus, ReducerContext, Timestamp};

verus! {

/// The row has the given recipe id.
pub open spec fn recipe_has_id(recipe_id: u64) -> spec_fn(RecipeView) -> bool {
    |r: RecipeView| r.recipe_id == recipe_id
}

/// Position of the first recipe with the given id.
pub fn find_recipe(recipes: &Vec<Recipe>, recipe_id: u64) -> (r: Option<usize>)
    ensures
        first_match(rows(recipes@), recipe_has_id(recipe_id)) == match r {
            Some(i) => Some(i as int),
            None => None,
        },
{
    find_first(
        recipes,
        |r: &Recipe| -> (b: bool) ensures b == (r.recipe_id == recipe_id) { r.recipe_id == recipe_id },
        Ghost(recipe_has_id(recipe_id)),
    )
}

/// The effect of `add_recipe`: a new recipe row at the next recipe id.
pub open spec fn add_recipe_spec(
    pre: DbView,
    ctx: ReducerContext,
    name: Seq<char>,
    servings: u8,
    instructions: Seq<char>,
    source_url: Seq<char>,
) -> DbView {
    DbView {
        recipe: pre.recipe.push(
            RecipeView {
                recipe_id: pre.next_recipe_id,
                name,
                servings,
                instructions,
                source_url,
                added_by: ctx.sender,
                created_at: ctx.timestamp,
            },
        ),
        next_recipe_id: (pre.next_recipe_id + 1) as u64,
        ..pre
    }
}

/// Stores a recipe.
pub fn add_recipe(
    ctx: &ReducerContext,
    db: &mut Database,
    name: String,
    servings: u8,
    instructions: String,
    source_url: String,
) -> (r: Result<(), String>)
    requires
        old(db).next_recipe_id < u64::MAX,
    ensures
        r is Ok,
        final(db)@ == add_recipe_spec(old(db)@, *ctx, name@, servings, instructions@, source_url@),
{
    let ghost pre = db@;
    let recipe = Recipe {
        recipe_id: db.next_recipe_id,
        name,
        servings,
        instructions,
        source_url,
        added_by: ctx.sender,
        created_at: ctx.timestamp,
    };
    let ghost rv = recipe@;
    db.recipe.push(recipe);
    db.next_recipe_id = db.next_recipe_id + 1;
    proof {
        assert(rows(db.recipe@) =~= pre.recipe.push(rv));
    }
    Ok(())
}

/// The effect and result of `add_recipe_ingredient`.
pub open spec fn add_recipe_ingredient_spec(
    pre: DbView,
    ctx: ReducerContext,
    recipe_id: u64,
    ingredient_name: Seq<char>,
    quantity: i64,
    unit: Seq<char>,
    is_optional: bool,
    substitute: Seq<char>,
) -> (DbView, Result<(), Seq<char>>) {
    if first_match(pre.recipe, recipe_has_id(recipe_id)) is None {
        (pre, Err("Recipe "@ + decimal_text(recipe_id as nat) + " not found"@))
    } else {
        (
            DbView {
                recipe_ingredient: pre.recipe_ingredient.push(
                    RecipeIngredientView {
                        recipe_ingredient_id: pre.next_recipe_ingredient_id,
                        recipe_id,
                        ingredient_name,
                        quantity,
                        unit,
                        is_optional,
                        substitute,
                    },
                ),
                next_recipe_ingredient_id: (pre.next_recipe_ingredient_id + 1) as u64,
                ..pre
            },
            Ok(()),
        )
    }
}

/// Whether `add_recipe_ingredient` has the key room it needs: an ingredient
/// id when the recipe exists.
pub fn add_recipe_ingredient_has_room(db: &Database, recipe_id: u64) -> (r: bool)
    ensures
        r == (first_match(db@.recipe, recipe_has_id(recipe_id)) is Some ==> db.next_recipe_ingredient_id < u64::MAX),
{
    find_recipe(&db.recipe, recipe_id).is_none() || db.next_recipe_ingredient_id < u64::MAX
}

/// Whether `accept_recipe` has the key room it needs: an event id when the
/// recipe exists.
pub fn accept_recipe_has_room(db: &Database, recipe_id: u64) -> (r: bool)
    ensures
        r == (first_match(db@.recipe, recipe_has_id(recipe_id)) is Some ==> db.next_event_id < u64::MAX),
{
    find_recipe(&db.recipe, recipe_id).is_none() || db.next_event_id < u64::MAX
}

/// Adds an ingredient (quantity in thousandths) to an existing recipe.
pub fn add_recipe_ingredient(
    ctx: &ReducerContext,
    db: &mut Database,
    recipe_id: u64,
    ingredient_name: String,
    quantity: i64,
    unit: String,
    is_optional: bool,
    substitute: String,
) -> (r: Result<(), String>)
    requires
        first_match(old(db)@.recipe, recipe_has_id(recipe_id)) is Some ==> old(db).next_recipe_ingredient_id < u64::MAX,
    ensures
        final(db)@ == add_recipe_ingredient_spec(
            old(db)@, *ctx, recipe_id, ingredient_name@, quantity, unit@, is_optional, substitute@,
        ).0,
        outcome(r) == add_recipe_ingredient_spec(
            old(db)@, *ctx, recipe_id, ingredient_name@, quantity, unit@, is_optional, substitute@,
        ).1,
{
    let ghost pre = db@;
    if find_recipe(&db.recipe, recipe_id).is_none() {
        let digits = u64_text(recipe_id);
        let head = concat_text("Recipe ", digits.as_str());
        return Err(concat_text(head.as_str(), " not found"));
    }
    let ing = RecipeIngredient {
        recipe_ingredient_id: db.next_recipe_ingredient_id,
        recipe_id,
        ingredient_name,
        quantity,
        unit,
        is_optional,
        substitute,
    };
    let ghost iv = ing@;
    db.recipe_ingredient.push(ing);
    db.next_recipe_ingredient_id = db.next_recipe_ingredient_id + 1;
    proof {
        assert(rows(db.recipe_ingredient@) =~= pre.recipe_ingredient.push(iv));
    }
    Ok(())
}

/// The ingredient belongs to the recipe and is required (not optional).
pub open spec fn ingredient_required(ing: RecipeIngredientView, recipe_id: u64) -> bool {
    ing.recipe_id == recipe_id && !ing.is_optional
}

/// The item has the given normalised name, is in stock, and holds at least
/// `quantity`.
pub open spec fn item_can_supply(name: Seq<char>, quantity: i64) -> spec_fn(ItemView) -> bool {
    |r: ItemView| r.name == name && r.status != ItemStatus::Depleted && r.quantity >= quantity
}

/// The item after `quantity` is taken from it: what remains, or depleted at
/// zero when nothing remains.
pub open spec fn deducted_item(it: ItemView, quantity: i64, ts: Timestamp) -> ItemView {
    let rest = clamp_i64(it.quantity - quantity);
    if rest <= 0 {
        ItemView { quantity: 0, status: ItemStatus::Depleted, updated_at: ts, ..it }
    } else {
        ItemView { quantity: rest, updated_at: ts, ..it }
    }
}

/// How an ingredient that was deducted is reported: "name (quantity)".
pub open spec fn deducted_entry(ing: RecipeIngredientView) -> Seq<char> {
    ing.ingredient_name + " ("@ + milli_text(ing.quantity as int) + ")"@
}

/// The pantry's items while a recipe is accepted, with the names of the
/// required ingredients found missing and the entries of those deducted.
#[verifier::ext_equal]
pub struct AcceptState {
    pub items: Seq<ItemView>,
    pub missing: Seq<Seq<char>>,
    pub deducted: Seq<Seq<char>>,
}

/// One ingredient's step: a required ingredient is taken from the first
/// in-stock item of its lowercased name that holds enough, or else noted
/// missing; other ingredients change nothing.
pub open spec fn accept_step(st: AcceptState, ing: RecipeIngredientView, recipe_id: u64, ts: Timestamp) -> AcceptState {
    if !ingredient_required(ing, recipe_id) {
        st
    } else {
        match first_match(st.items, item_can_supply(lowercase(ing.ingredient_name), ing.quantity)) {
            Some(i) => AcceptState {
                items: st.items.update(i, deducted_item(st.items[i], ing.quantity, ts)),
                deducted: st.deducted.push(deducted_entry(ing)),
                ..st
            },
            None => AcceptState { missing: st.missing.push(ing.ingredient_name), ..st },
        }
    }
}

/// The steps of all ingredients, in table order, starting from `items`.
pub open spec fn accept_fold(
    items: Seq<ItemView>,
    ings: Seq<RecipeIngredientView>,
    recipe_id: u64,
    ts: Timestamp,
) -> AcceptState
    decreases ings.len(),
{
    if ings.len() == 0 {
        AcceptState { items, missing: Seq::empty(), deducted: Seq::empty() }
    } else {
        accept_step(accept_fold(items, ings.drop_last(), recipe_id, ts), ings.last(), recipe_id, ts)
    }
}

/// The audit text of an accepted recipe: the missing ingredients when there
/// are any, otherwise the deducted ones.
pub open spec fn accept_description(name: Seq<char>, fin: AcceptState) -> Seq<char> {
    if fin.missing.len() > 0 {
        "Recipe '"@ + name + "' accepted. Missing: "@ + join_text(fin.missing, ", "@)
    } else {
        "Recipe '"@ + name + "' accepted. Deducted: "@ + join_text(fin.deducted, ", "@)
    }
}

/// The effect and result of `accept_recipe`.
pub open spec fn accept_recipe_spec(pre: DbView, ctx: ReducerContext, recipe_id: u64) -> (DbView, Result<(), Seq<char>>) {
    match first_match(pre.recipe, recipe_has_id(recipe_id)) {
        None => (pre, Err("Recipe not found"@)),
        Some(r) => {
            let fin = accept_fold(pre.item, pre.recipe_ingredient, recipe_id, ctx.timestamp);
            (
                DbView { item: fin.items, ..pre }.with_event(
                    ctx,
                    "recipe_accepted"@,
                    recipe_id,
                    accept_description(pre.recipe[r].name, fin),
                ),
                Ok(()),
            )
        },
    }
}

/// Position of the first item that can supply `quantity` of `name`.
fn find_supply(items: &Vec<Item>, name: &String, quantity: i64) -> (r: Option<usize>)
    ensures
        first_match(rows(items@), item_can_supply(name@, quantity)) == match r {
            Some(i) => Some(i as int),
            None => None,
        },
{
    find_first(
        items,
        |it: &Item| -> (b: bool) ensures b == (it.name@ == name@ && it.status != ItemStatus::Depleted && it.quantity >= quantity) { it.name == *name && it.status != ItemStatus::Depleted && it.quantity >= quantity },
        Ghost(item_can_supply(name@, quantity)),
    )
}

/// Accepts a recipe: deducts each required (non-optional) ingredient from
/// the pantry and logs the missing ones, or, when none is missing, the
/// deducted ones.
pub fn accept_recipe(ctx: &ReducerContext, db: &mut Database, recipe_id: u64) -> (r: Result<(), String>)
    requires
        first_match(old(db)@.recipe, recipe_has_id(recipe_id)) is Some ==> old(db).next_event_id < u64::MAX,
    ensures
        final(db)@ == accept_recipe_spec(old(db)@, *ctx, recipe_id).0,
        outcome(r) == accept_recipe_spec(old(db)@, *ctx, recipe_id).1,
{
    let ghost pre = db@;
    let r = match find_recipe(&db.recipe, recipe_id) {
        None => {
            return Err(String::from_str("Recipe not found"));
        },
        Some(r) => r,
    };
    let recipe_name = db.recipe[r].name.clone();
    let ghost ts = ctx.timestamp;
    let mut missing: Vec<String> = Vec::new();
    let mut deducted: Vec<String> = Vec::new();
    let mut k: usize = 0;
    proof {
        assert(pre.recipe_ingredient.take(0) =~= Seq::<RecipeIngredientView>::empty());
    }
    while k < db.recipe_ingredient.len()
        invariant
            0 <= k <= pre.recipe_ingredient.len(),
            db@ == (DbView { item: rows(db.item@), ..pre }),
            (AcceptState { items: rows(db.item@), missing: texts(missing@), deducted: texts(deducted@) })
                == accept_fold(pre.item, pre.recipe_ingredient.take(k as int), recipe_id, ts),
            ts == ctx.timestamp,
            db.next_event_id == pre.next_event_id,
        decreases pre.recipe_ingredient.len() - k,
    {
        let ghost before = AcceptState { items: rows(db.item@), missing: texts(missing@), deducted: texts(deducted@) };
        let ghost ing = pre.recipe_ingredient[k as int];
        proof {
            assert(pre.recipe_ingredient.take(k + 1).drop_last() =~= pre.recipe_ingredient.take(k as int));
            assert(pre.recipe_ingredient.take(k + 1).last() == ing);
            assert(db.recipe_ingredient@[k as int]@ == ing);
        }
        let required = db.recipe_ingredient[k].recipe_id == recipe_id && !db.recipe_ingredient[k].is_optional;
        if required {
            let normalized = lowercase_text(db.recipe_ingredient[k].ingredient_name.as_str());
            let quantity = db.recipe_ingredient[k].quantity;
            match find_supply(&db.item, &normalized, quantity) {
                Some(i) => {
                    let ghost it = rows(db.item@)[i as int];
                    let rest = saturating_sub_i64(db.item[i].quantity, quantity);
                    db.item[i].quantity = rest;
                    db.item[i].updated_at = ctx.timestamp;
                    if rest <= 0 {
                        db.item[i].status = ItemStatus::Depleted;
                        db.item[i].quantity = 0;
                    }
                    let head = concat_text(db.recipe_ingredient[k].ingredient_name.as_str(), " (");
                    let amount = milli_string(quantity);
                    let head = concat_text(head.as_str(), amount.as_str());
                    let entry = concat_text(head.as_str(), ")");
                    let ghost ev = entry@;
                    deducted.push(entry);
                    proof {
                        assert(rows(db.item@) =~= before.items.update(i as int, deducted_item(it, quantity, ts)));
                        assert(texts(deducted@) =~= before.deducted.push(ev));
                        assert(ev == deducted_entry(ing));
                    }
                },
                None => {
                    let name = db.recipe_ingredient[k].ingredient_name.clone();
                    let ghost nv = name@;
                    missing.push(name);
                    proof {
                        assert(texts(missing@) =~= before.missing.push(nv));
                    }
                },
            }
        }
        k = k + 1;
    }
    proof {
        assert(pre.recipe_ingredient.take(pre.recipe_ingredient.len() as int) =~= pre.recipe_ingredient);
    }
    let head = concat_text("Recipe '", recipe_name.as_str());
    let description = if missing.len() > 0 {
        let head = concat_text(head.as_str(), "' accepted. Missing: ");
        let list = join_strings(&missing, ", ");
        concat_text(head.as_str(), list.as_str())
    } else {
        let head = concat_text(head.as_str(), "' accepted. Deducted: ");
        let list = join_strings(&deducted, ", ");
        concat_text(head.as_str(), list.as_str())
    };
    log_event(ctx, db, "recipe_accepted", recipe_id, description);
    Ok(())
}

} // verus!
