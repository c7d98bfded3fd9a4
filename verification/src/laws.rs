//! Properties of the pantry as a whole: what every reducer keeps, and how
//! reducers behave when called again.
use vstd::prelude::*;
use crate::digest::{subscribe_digest_fits, subscribe_digest_spec, subscription_at, subscription_has_id, unsubscribe_digest_spec};
use crate::expiry::{
    init_spec, sweep_timer, lemma_promoted_count_monotonic, lemma_sweep_fold_shape, promoted_count, promotes, sweep_event_count,
    sweep_fold, sweep_spec,
};
use crate::items::{
    add_item_fits, item_event_fits,
    add_item_spec, clamp_i64, deplete_item_spec, item_has_id, item_in_stock_named, merged_item,
    remove_item_spec, update_item_location_spec, update_item_quantity_spec,
};
use crate::receipts::{add_receipt_item_spec, add_receipt_spec, match_receipt_item_spec, receipt_has_id, receipt_item_has_id};
use crate::recipes::{
    accept_fold, accept_recipe_spec, accept_step, add_recipe_ingredient_spec, add_recipe_spec,
    item_can_supply, recipe_has_id, AcceptState,
};
use crate::seqs::{first_match, lemma_first_match_spec};
use crate::shopping::{add_shopping_item_fits, add_shopping_item_spec, remove_shopping_item_spec, shopping_item_has_id};
use crate::tables::{
    endpoints_unique, in_stock_names_unique, item_stock_ok, same_endpoint, DbView, ItemView, RecipeIngredientView,
};
use crate::text::{lowercase, milli_text, trimmed};
use crate::events::unix_seconds;
use crate::types::{ItemStatus, Location, ReducerContext, Timestamp};
use crate::users::{client_connected_fits, client_connected_spec, set_user_name_spec, user_has_identity};

verus! {

proof fn lemma_with_event_wf(d: DbView, ctx: ReducerContext, t: Seq<char>, id: u64, desc: Seq<char>)
    requires
        d.wf(),
        d.next_event_id < u64::MAX,
    ensures
        d.with_event(ctx, t, id, desc).wf(),
{
}

proof fn lemma_init_wf(pre: DbView, ctx: ReducerContext)
    requires
        pre.wf(),
    ensures
        init_spec(pre, ctx).wf(),
{
}

proof fn lemma_client_connected_wf(pre: DbView, ctx: ReducerContext)
    requires
        pre.wf(),
        client_connected_fits(pre, ctx),
    ensures
        client_connected_spec(pre, ctx).wf(),
{
    lemma_first_match_spec(pre.user, user_has_identity(ctx.sender));
    if first_match(pre.user, user_has_identity(ctx.sender)) is None {
        let mid = DbView {
            user: pre.user.push(crate::tables::UserView { identity: ctx.sender, name: "Anonymous"@, is_active: true }),
            ..pre
        };
        assert(mid.wf());
        lemma_with_event_wf(mid, ctx, "user_joined"@, 0, "New user connected"@);
    }
}

proof fn lemma_set_user_name_wf(pre: DbView, ctx: ReducerContext, name: Seq<char>)
    requires
        pre.wf(),
    ensures
        set_user_name_spec(pre, ctx, name).0.wf(),
{
    lemma_first_match_spec(pre.user, user_has_identity(ctx.sender));
}

proof fn lemma_add_item_wf(
    pre: DbView,
    ctx: ReducerContext,
    name: Seq<char>,
    display_name: Seq<char>,
    quantity: i64,
    unit: Seq<char>,
    location: Location,
    est_expiry_ts: i64,
    unopened_days: i32,
    opened_days: i32,
    price: i64,
    currency: Seq<char>,
    barcode: Seq<char>,
    source_receipt_id: u64,
)
    requires
        pre.wf(),
        add_item_fits(pre, name, quantity),
    ensures
        add_item_spec(
            pre, ctx, name, display_name, quantity, unit, location, est_expiry_ts, unopened_days,
            opened_days, price, currency, barcode, source_receipt_id,
        ).0.wf(),
{
    let n = lowercase(trimmed(name));
    lemma_first_match_spec(pre.item, item_in_stock_named(n));
    if n.len() > 0 && quantity > 0 {
        match first_match(pre.item, item_in_stock_named(n)) {
            Some(i) => {
                let it = pre.item[i];
                assert(item_stock_ok(it));
                assert(it.quantity > 0);
                let m = merged_item(it, ctx, quantity, est_expiry_ts, price, currency, barcode, source_receipt_id);
                assert(m.quantity > 0);
                let post = DbView { item: pre.item.update(i, m), ..pre };
                assert forall|j: int| 0 <= j < post.item.len() implies item_stock_ok(#[trigger] post.item[j]) by {
                    if j != i {
                        assert(item_stock_ok(pre.item[j]));
                    }
                }
                assert(post.wf());
                lemma_with_event_wf(post, ctx, "item_added"@, m.item_id, "Merged item '"@ + n + "' qty to "@ + milli_text(m.quantity as int));
            },
            None => {
                let post = add_item_spec(
                    pre, ctx, name, display_name, quantity, unit, location, est_expiry_ts, unopened_days,
                    opened_days, price, currency, barcode, source_receipt_id,
                ).0;
                let mid = DbView { pantry_event: pre.pantry_event, next_event_id: pre.next_event_id, ..post };
                assert(mid.wf());
                lemma_with_event_wf(mid, ctx, "item_added"@, pre.next_item_id, "Added item '"@ + n + "' qty "@ + milli_text(quantity as int));
            },
        }
    }
}

proof fn lemma_deplete_item_wf(pre: DbView, ctx: ReducerContext, item_id: u64)
    requires
        pre.wf(),
        item_event_fits(pre, item_id),
    ensures
        deplete_item_spec(pre, ctx, item_id).0.wf(),
{
    lemma_first_match_spec(pre.item, item_has_id(item_id));
    match first_match(pre.item, item_has_id(item_id)) {
        None => {},
        Some(i) => {
            let mid = DbView {
                item: pre.item.update(
                    i,
                    ItemView { quantity: 0, status: ItemStatus::Depleted, updated_at: ctx.timestamp, ..pre.item[i] },
                ),
                ..pre
            };
            assert(mid.wf());
            lemma_with_event_wf(mid, ctx, "item_depleted"@, item_id, "Depleted '"@ + pre.item[i].display_name + "'"@);
        },
    }
}

proof fn lemma_remove_item_wf(pre: DbView, ctx: ReducerContext, item_id: u64)
    requires
        pre.wf(),
        item_event_fits(pre, item_id),
    ensures
        remove_item_spec(pre, ctx, item_id).0.wf(),
{
    match first_match(pre.item, item_has_id(item_id)) {
        None => {},
        Some(i) => {
            lemma_first_match_spec(pre.item, item_has_id(item_id));
            let mid = DbView { item: pre.item.remove(i), ..pre };
            assert(mid.wf());
            lemma_with_event_wf(mid, ctx, "item_removed"@, item_id, "Removed '"@ + pre.item[i].display_name + "'"@);
        },
    }
}

proof fn lemma_update_item_quantity_wf(pre: DbView, ctx: ReducerContext, item_id: u64, new_quantity: i64)
    requires
        pre.wf(),
        new_quantity >= 0 ==> item_event_fits(pre, item_id),
    ensures
        update_item_quantity_spec(pre, ctx, item_id, new_quantity).0.wf(),
{
    lemma_first_match_spec(pre.item, item_has_id(item_id));
    let r = update_item_quantity_spec(pre, ctx, item_id, new_quantity);
    if r.1 is Ok {
        let i = first_match(pre.item, item_has_id(item_id))->Some_0;
        let it = pre.item[i];
        let mid = DbView {
            item: pre.item.update(
                i,
                ItemView {
                    quantity: new_quantity,
                    status: crate::items::status_after_quantity(it, new_quantity),
                    updated_at: ctx.timestamp,
                    ..it
                },
            ),
            ..pre
        };
        assert(mid.wf());
        lemma_with_event_wf(
            mid,
            ctx,
            "item_quantity_changed"@,
            item_id,
            "Updated '"@ + it.display_name + "' to "@ + crate::text::milli_text(new_quantity as int),
        );
    }
}

proof fn lemma_update_item_location_wf(pre: DbView, ctx: ReducerContext, item_id: u64, location: Location)
    requires
        pre.wf(),
    ensures
        update_item_location_spec(pre, ctx, item_id, location).0.wf(),
{
    lemma_first_match_spec(pre.item, item_has_id(item_id));
}

proof fn lemma_add_receipt_wf(
    pre: DbView,
    ctx: ReducerContext,
    store_name: Seq<char>,
    purchased_at: i64,
    total: i64,
    tax: i64,
    currency: Seq<char>,
    raw_ocr_text: Seq<char>,
    image_url: Seq<char>,
)
    requires
        pre.wf(),
        pre.next_receipt_id < u64::MAX,
        pre.next_event_id < u64::MAX,
    ensures
        add_receipt_spec(pre, ctx, store_name, purchased_at, total, tax, currency, raw_ocr_text, image_url).wf(),
{
    let mid = DbView {
        receipt: pre.receipt.push(
            crate::tables::ReceiptView {
                receipt_id: pre.next_receipt_id,
                store_name,
                purchased_at,
                total,
                tax,
                currency,
                raw_ocr_text,
                image_url,
                added_by: ctx.sender,
                created_at: ctx.timestamp,
            },
        ),
        next_receipt_id: (pre.next_receipt_id + 1) as u64,
        ..pre
    };
    assert(mid.wf());
    lemma_with_event_wf(mid, ctx, "receipt_ingested"@, pre.next_receipt_id, "Ingested receipt from "@ + store_name);
}

proof fn lemma_add_receipt_item_wf(
    pre: DbView,
    ctx: ReducerContext,
    receipt_id: u64,
    product_name: Seq<char>,
    quantity: i64,
    unit: Seq<char>,
    price: i64,
    currency: Seq<char>,
)
    requires
        pre.wf(),
        first_match(pre.receipt, receipt_has_id(receipt_id)) is Some ==> pre.next_receipt_item_id < u64::MAX,
    ensures
        add_receipt_item_spec(pre, ctx, receipt_id, product_name, quantity, unit, price, currency).0.wf(),
{
}

proof fn lemma_match_receipt_item_wf(pre: DbView, ctx: ReducerContext, receipt_item_id: u64, item_id: u64)
    requires
        pre.wf(),
    ensures
        match_receipt_item_spec(pre, ctx, receipt_item_id, item_id).0.wf(),
{
    lemma_first_match_spec(pre.receipt_item, receipt_item_has_id(receipt_item_id));
}

proof fn lemma_add_recipe_wf(
    pre: DbView,
    ctx: ReducerContext,
    name: Seq<char>,
    servings: u8,
    instructions: Seq<char>,
    source_url: Seq<char>,
)
    requires
        pre.wf(),
        pre.next_recipe_id < u64::MAX,
    ensures
        add_recipe_spec(pre, ctx, name, servings, instructions, source_url).wf(),
{
}

proof fn lemma_add_recipe_ingredient_wf(
    pre: DbView,
    ctx: ReducerContext,
    recipe_id: u64,
    ingredient_name: Seq<char>,
    quantity: i64,
    unit: Seq<char>,
    is_optional: bool,
    substitute: Seq<char>,
)
    requires
        pre.wf(),
        first_match(pre.recipe, recipe_has_id(recipe_id)) is Some ==> pre.next_recipe_ingredient_id < u64::MAX,
    ensures
        add_recipe_ingredient_spec(pre, ctx, recipe_id, ingredient_name, quantity, unit, is_optional, substitute).0.wf(),
{
}

/// Accepting a recipe changes items only in quantity, status and update
/// time: the rows, their order and their ids stay, and stock stays valid.
pub proof fn lemma_accept_fold_items(
    items: Seq<ItemView>,
    ings: Seq<RecipeIngredientView>,
    recipe_id: u64,
    ts: Timestamp,
)
    ensures
        ({
            let fin = accept_fold(items, ings, recipe_id, ts);
            &&& fin.items.len() == items.len()
            &&& forall|j: int| 0 <= j < items.len() ==> (#[trigger] fin.items[j]).item_id == items[j].item_id
            &&& (forall|j: int| 0 <= j < items.len() ==> item_stock_ok(#[trigger] items[j]))
                ==> (forall|j: int| 0 <= j < items.len() ==> item_stock_ok(#[trigger] fin.items[j]))
        }),
    decreases ings.len(),
{
    if ings.len() > 0 {
        lemma_accept_fold_items(items, ings.drop_last(), recipe_id, ts);
        let st = accept_fold(items, ings.drop_last(), recipe_id, ts);
        let ing = ings.last();
        let p = item_can_supply(lowercase(ing.ingredient_name), ing.quantity);
        lemma_first_match_spec(st.items, p);
        let fin = accept_fold(items, ings, recipe_id, ts);
        assert(fin == accept_step(st, ing, recipe_id, ts));
        if (forall|j: int| 0 <= j < items.len() ==> item_stock_ok(#[trigger] items[j])) {
            assert forall|j: int| 0 <= j < items.len() implies item_stock_ok(#[trigger] fin.items[j]) by {
                assert(item_stock_ok(st.items[j]));
            }
        }
    }
}

proof fn lemma_accept_recipe_wf(pre: DbView, ctx: ReducerContext, recipe_id: u64)
    requires
        pre.wf(),
        first_match(pre.recipe, recipe_has_id(recipe_id)) is Some ==> pre.next_event_id < u64::MAX,
    ensures
        accept_recipe_spec(pre, ctx, recipe_id).0.wf(),
{
    match first_match(pre.recipe, recipe_has_id(recipe_id)) {
        None => {},
        Some(r) => {
            let fin = accept_fold(pre.item, pre.recipe_ingredient, recipe_id, ctx.timestamp);
            lemma_accept_fold_items(pre.item, pre.recipe_ingredient, recipe_id, ctx.timestamp);
            let mid = DbView { item: fin.items, ..pre };
            assert(forall|j: int| 0 <= j < pre.item.len() ==> item_stock_ok(#[trigger] pre.item[j]));
            assert(mid.wf());
            lemma_with_event_wf(
                mid,
                ctx,
                "recipe_accepted"@,
                recipe_id,
                crate::recipes::accept_description(pre.recipe[r].name, fin),
            );
        },
    }
}

proof fn lemma_add_shopping_item_wf(
    pre: DbView,
    ctx: ReducerContext,
    name: Seq<char>,
    quantity: i64,
    unit: Seq<char>,
    is_staple: bool,
    reason: Seq<char>,
)
    requires
        pre.wf(),
        add_shopping_item_fits(pre, name),
    ensures
        add_shopping_item_spec(pre, ctx, name, quantity, unit, is_staple, reason).0.wf(),
{
    let n = lowercase(trimmed(name));
    if n.len() > 0 {
        let post = add_shopping_item_spec(pre, ctx, name, quantity, unit, is_staple, reason).0;
        let mid = DbView { pantry_event: pre.pantry_event, next_event_id: pre.next_event_id, ..post };
        assert(mid.wf());
        lemma_with_event_wf(
            mid,
            ctx,
            "shopping_list_updated"@,
            pre.next_shopping_item_id,
            "Added '"@ + n + "' to shopping list"@,
        );
    }
}

proof fn lemma_remove_shopping_item_wf(pre: DbView, ctx: ReducerContext, shopping_item_id: u64)
    requires
        pre.wf(),
        first_match(pre.shopping_list_item, shopping_item_has_id(shopping_item_id)) is Some ==> pre.next_event_id < u64::MAX,
    ensures
        remove_shopping_item_spec(pre, ctx, shopping_item_id).0.wf(),
{
    match first_match(pre.shopping_list_item, shopping_item_has_id(shopping_item_id)) {
        None => {},
        Some(i) => {
            lemma_first_match_spec(pre.shopping_list_item, shopping_item_has_id(shopping_item_id));
            let mid = DbView { shopping_list_item: pre.shopping_list_item.remove(i), ..pre };
            assert(mid.wf());
            lemma_with_event_wf(
                mid,
                ctx,
                "shopping_list_updated"@,
                shopping_item_id,
                "Removed '"@ + pre.shopping_list_item[i].name + "' from shopping list"@,
            );
        },
    }
}

proof fn lemma_subscribe_digest_wf(pre: DbView, ctx: ReducerContext, channel: Seq<char>, handle: Seq<char>)
    requires
        pre.wf(),
        subscribe_digest_fits(pre, ctx, channel, handle),
    ensures
        subscribe_digest_spec(pre, ctx, channel, handle).0.wf(),
{
    lemma_first_match_spec(pre.digest_subscription, subscription_at(ctx.sender, channel, handle));
}

proof fn lemma_unsubscribe_digest_wf(pre: DbView, ctx: ReducerContext, subscription_id: u64)
    requires
        pre.wf(),
    ensures
        unsubscribe_digest_spec(pre, ctx, subscription_id).0.wf(),
{
    lemma_first_match_spec(pre.digest_subscription, subscription_has_id(subscription_id));
}

proof fn lemma_sweep_fold_wf(pre: DbView, ctx: ReducerContext, now: int, k: int)
    requires
        pre.wf(),
        0 <= k <= pre.item.len(),
        pre.next_event_id + promoted_count(pre.item, now, pre.item.len() as int) <= u64::MAX,
    ensures
        sweep_fold(pre, ctx, now, k).wf(),
    decreases k,
{
    if k > 0 {
        lemma_sweep_fold_wf(pre, ctx, now, k - 1);
        lemma_sweep_fold_shape(pre, ctx, now, k - 1);
        lemma_promoted_count_monotonic(pre.item, now, k, pre.item.len() as int);
        let st = sweep_fold(pre, ctx, now, k - 1);
        let it = pre.item[k - 1];
        if promotes(it, now) {
            let mid = DbView {
                item: st.item.update(k - 1, ItemView { status: ItemStatus::ExpiringSoon, updated_at: ctx.timestamp, ..it }),
                ..st
            };
            assert(mid.wf());
            lemma_with_event_wf(mid, ctx, "item_expiring_soon"@, it.item_id, crate::expiry::expiry_notice(it, now));
        }
    }
}

/// A call of one of the pantry's reducers, with its arguments (texts as
/// character sequences).
pub enum Call {
    Init,
    ClientConnected,
    SetUserName { name: Seq<char> },
    AddItem {
        name: Seq<char>,
        display_name: Seq<char>,
        quantity: i64,
        unit: Seq<char>,
        location: Location,
        est_expiry_ts: i64,
        unopened_days: i32,
        opened_days: i32,
        price: i64,
        currency: Seq<char>,
        barcode: Seq<char>,
        source_receipt_id: u64,
    },
    RemoveItem { item_id: u64 },
    DepleteItem { item_id: u64 },
    UpdateItemQuantity { item_id: u64, new_quantity: i64 },
    UpdateItemLocation { item_id: u64, location: Location },
    AddReceipt {
        store_name: Seq<char>,
        purchased_at: i64,
        total: i64,
        tax: i64,
        currency: Seq<char>,
        raw_ocr_text: Seq<char>,
        image_url: Seq<char>,
    },
    AddReceiptItem {
        receipt_id: u64,
        product_name: Seq<char>,
        quantity: i64,
        unit: Seq<char>,
        price: i64,
        currency: Seq<char>,
    },
    MatchReceiptItem { receipt_item_id: u64, item_id: u64 },
    AddRecipe { name: Seq<char>, servings: u8, instructions: Seq<char>, source_url: Seq<char> },
    AddRecipeIngredient {
        recipe_id: u64,
        ingredient_name: Seq<char>,
        quantity: i64,
        unit: Seq<char>,
        is_optional: bool,
        substitute: Seq<char>,
    },
    AcceptRecipe { recipe_id: u64 },
    AddShoppingItem { name: Seq<char>, quantity: i64, unit: Seq<char>, is_staple: bool, reason: Seq<char> },
    RemoveShoppingItem { shopping_item_id: u64 },
    SubscribeDigest { channel: Seq<char>, handle: Seq<char> },
    UnsubscribeDigest { subscription_id: u64 },
    SweepExpiringItems,
}

/// The key sequences that the call draws from have room left (what each
/// reducer requires).
pub open spec fn fits(pre: DbView, ctx: ReducerContext, call: Call) -> bool {
    match call {
        Call::Init => true,
        Call::ClientConnected => client_connected_fits(pre, ctx),
        Call::SetUserName { .. } => true,
        Call::AddItem { name, quantity, .. } => add_item_fits(pre, name, quantity),
        Call::RemoveItem { item_id } => item_event_fits(pre, item_id),
        Call::DepleteItem { item_id } => item_event_fits(pre, item_id),
        Call::UpdateItemQuantity { item_id, new_quantity } => new_quantity >= 0 ==> item_event_fits(pre, item_id),
        Call::UpdateItemLocation { .. } => true,
        Call::AddReceipt { .. } => pre.next_receipt_id < u64::MAX && pre.next_event_id < u64::MAX,
        Call::AddReceiptItem { receipt_id, .. } =>
            first_match(pre.receipt, receipt_has_id(receipt_id)) is Some ==> pre.next_receipt_item_id < u64::MAX,
        Call::MatchReceiptItem { .. } => true,
        Call::AddRecipe { .. } => pre.next_recipe_id < u64::MAX,
        Call::AddRecipeIngredient { recipe_id, .. } =>
            first_match(pre.recipe, recipe_has_id(recipe_id)) is Some ==> pre.next_recipe_ingredient_id < u64::MAX,
        Call::AcceptRecipe { recipe_id } =>
            first_match(pre.recipe, recipe_has_id(recipe_id)) is Some ==> pre.next_event_id < u64::MAX,
        Call::AddShoppingItem { name, .. } => add_shopping_item_fits(pre, name),
        Call::RemoveShoppingItem { shopping_item_id } =>
            first_match(pre.shopping_list_item, shopping_item_has_id(shopping_item_id)) is Some ==> pre.next_event_id < u64::MAX,
        Call::SubscribeDigest { channel, handle } => subscribe_digest_fits(pre, ctx, channel, handle),
        Call::UnsubscribeDigest { .. } => true,
        Call::SweepExpiringItems => pre.next_event_id + sweep_event_count(pre, ctx) <= u64::MAX,
    }
}

/// The state after the call and its result, as each reducer's contract
/// states it (reducers without a result succeed).
pub open spec fn step(pre: DbView, ctx: ReducerContext, call: Call) -> (DbView, Result<(), Seq<char>>) {
    match call {
        Call::Init => (init_spec(pre, ctx), Ok(())),
        Call::ClientConnected => (client_connected_spec(pre, ctx), Ok(())),
        Call::SetUserName { name } => set_user_name_spec(pre, ctx, name),
        Call::AddItem {
            name,
            display_name,
            quantity,
            unit,
            location,
            est_expiry_ts,
            unopened_days,
            opened_days,
            price,
            currency,
            barcode,
            source_receipt_id,
        } => add_item_spec(
            pre, ctx, name, display_name, quantity, unit, location, est_expiry_ts, unopened_days,
            opened_days, price, currency, barcode, source_receipt_id,
        ),
        Call::RemoveItem { item_id } => remove_item_spec(pre, ctx, item_id),
        Call::DepleteItem { item_id } => deplete_item_spec(pre, ctx, item_id),
        Call::UpdateItemQuantity { item_id, new_quantity } => update_item_quantity_spec(pre, ctx, item_id, new_quantity),
        Call::UpdateItemLocation { item_id, location } => update_item_location_spec(pre, ctx, item_id, location),
        Call::AddReceipt { store_name, purchased_at, total, tax, currency, raw_ocr_text, image_url } => (
            add_receipt_spec(pre, ctx, store_name, purchased_at, total, tax, currency, raw_ocr_text, image_url),
            Ok(()),
        ),
        Call::AddReceiptItem { receipt_id, product_name, quantity, unit, price, currency } =>
            add_receipt_item_spec(pre, ctx, receipt_id, product_name, quantity, unit, price, currency),
        Call::MatchReceiptItem { receipt_item_id, item_id } => match_receipt_item_spec(pre, ctx, receipt_item_id, item_id),
        Call::AddRecipe { name, servings, instructions, source_url } => (
            add_recipe_spec(pre, ctx, name, servings, instructions, source_url),
            Ok(()),
        ),
        Call::AddRecipeIngredient { recipe_id, ingredient_name, quantity, unit, is_optional, substitute } =>
            add_recipe_ingredient_spec(pre, ctx, recipe_id, ingredient_name, quantity, unit, is_optional, substitute),
        Call::AcceptRecipe { recipe_id } => accept_recipe_spec(pre, ctx, recipe_id),
        Call::AddShoppingItem { name, quantity, unit, is_staple, reason } =>
            add_shopping_item_spec(pre, ctx, name, quantity, unit, is_staple, reason),
        Call::RemoveShoppingItem { shopping_item_id } => remove_shopping_item_spec(pre, ctx, shopping_item_id),
        Call::SubscribeDigest { channel, handle } => subscribe_digest_spec(pre, ctx, channel, handle),
        Call::UnsubscribeDigest { subscription_id } => unsubscribe_digest_spec(pre, ctx, subscription_id),
        Call::SweepExpiringItems => (sweep_spec(pre, ctx), Ok(())),
    }
}

/// Every reducer keeps the database's invariant: primary keys stay unique
/// and below their sequences, users stay unique by identity, subscriptions
/// stay unique by (user, channel, handle), no item's quantity goes negative,
/// an item with nothing left is depleted, and at most one sweep timer is
/// armed.
pub proof fn lemma_every_reducer_keeps_wf(pre: DbView, ctx: ReducerContext, call: Call)
    requires
        pre.wf(),
        fits(pre, ctx, call),
    ensures
        step(pre, ctx, call).0.wf(),
{
    match call {
        Call::Init => lemma_init_wf(pre, ctx),
        Call::ClientConnected => lemma_client_connected_wf(pre, ctx),
        Call::SetUserName { name } => lemma_set_user_name_wf(pre, ctx, name),
        Call::AddItem {
            name,
            display_name,
            quantity,
            unit,
            location,
            est_expiry_ts,
            unopened_days,
            opened_days,
            price,
            currency,
            barcode,
            source_receipt_id,
        } => lemma_add_item_wf(
            pre, ctx, name, display_name, quantity, unit, location, est_expiry_ts, unopened_days,
            opened_days, price, currency, barcode, source_receipt_id,
        ),
        Call::RemoveItem { item_id } => lemma_remove_item_wf(pre, ctx, item_id),
        Call::DepleteItem { item_id } => lemma_deplete_item_wf(pre, ctx, item_id),
        Call::UpdateItemQuantity { item_id, new_quantity } => lemma_update_item_quantity_wf(pre, ctx, item_id, new_quantity),
        Call::UpdateItemLocation { item_id, location } => lemma_update_item_location_wf(pre, ctx, item_id, location),
        Call::AddReceipt { store_name, purchased_at, total, tax, currency, raw_ocr_text, image_url } =>
            lemma_add_receipt_wf(pre, ctx, store_name, purchased_at, total, tax, currency, raw_ocr_text, image_url),
        Call::AddReceiptItem { receipt_id, product_name, quantity, unit, price, currency } =>
            lemma_add_receipt_item_wf(pre, ctx, receipt_id, product_name, quantity, unit, price, currency),
        Call::MatchReceiptItem { receipt_item_id, item_id } => lemma_match_receipt_item_wf(pre, ctx, receipt_item_id, item_id),
        Call::AddRecipe { name, servings, instructions, source_url } =>
            lemma_add_recipe_wf(pre, ctx, name, servings, instructions, source_url),
        Call::AddRecipeIngredient { recipe_id, ingredient_name, quantity, unit, is_optional, substitute } =>
            lemma_add_recipe_ingredient_wf(pre, ctx, recipe_id, ingredient_name, quantity, unit, is_optional, substitute),
        Call::AcceptRecipe { recipe_id } => lemma_accept_recipe_wf(pre, ctx, recipe_id),
        Call::AddShoppingItem { name, quantity, unit, is_staple, reason } =>
            lemma_add_shopping_item_wf(pre, ctx, name, quantity, unit, is_staple, reason),
        Call::RemoveShoppingItem { shopping_item_id } => lemma_remove_shopping_item_wf(pre, ctx, shopping_item_id),
        Call::SubscribeDigest { channel, handle } => lemma_subscribe_digest_wf(pre, ctx, channel, handle),
        Call::UnsubscribeDigest { subscription_id } => lemma_unsubscribe_digest_wf(pre, ctx, subscription_id),
        Call::SweepExpiringItems => lemma_sweep_fold_wf(pre, ctx, unix_seconds(ctx.timestamp), pre.item.len() as int),
    }
}

/// A reducer that fails leaves the database exactly as it was.
pub proof fn lemma_failed_reducer_changes_nothing(pre: DbView, ctx: ReducerContext, call: Call)
    ensures
        step(pre, ctx, call).1 is Err ==> step(pre, ctx, call).0 == pre,
{
}

proof fn lemma_sweep_fold_log_grows(pre: DbView, ctx: ReducerContext, now: int, k: int)
    requires
        0 <= k <= pre.item.len(),
    ensures
        pre.pantry_event.is_prefix_of(sweep_fold(pre, ctx, now, k).pantry_event),
    decreases k,
{
    if k > 0 {
        lemma_sweep_fold_log_grows(pre, ctx, now, k - 1);
        let st = sweep_fold(pre, ctx, now, k - 1);
        let post = sweep_fold(pre, ctx, now, k);
        assert(post.pantry_event.len() >= st.pantry_event.len());
        assert(pre.pantry_event =~= post.pantry_event.subrange(0, pre.pantry_event.len() as int));
    }
}

/// The audit log is append-only: every reducer keeps the existing events,
/// in order, at the front of the log.
proof fn lemma_log_prefix(pre: DbView, post: DbView)
    requires
        post.pantry_event == pre.pantry_event || post.pantry_event == pre.pantry_event.push(post.pantry_event.last()),
    ensures
        pre.pantry_event.is_prefix_of(post.pantry_event),
{
    assert(pre.pantry_event =~= post.pantry_event.subrange(0, pre.pantry_event.len() as int));
}

/// The audit log is append-only: every reducer keeps the existing events,
/// in order, at the front of the log.
pub proof fn lemma_every_reducer_appends_to_log(pre: DbView, ctx: ReducerContext, call: Call)
    ensures
        pre.pantry_event.is_prefix_of(step(pre, ctx, call).0.pantry_event),
{
    let post = step(pre, ctx, call).0;
    match call {
        Call::SweepExpiringItems => {
            lemma_sweep_fold_log_grows(pre, ctx, unix_seconds(ctx.timestamp), pre.item.len() as int);
        },
        Call::ClientConnected => lemma_log_prefix(pre, client_connected_spec(pre, ctx)),
        Call::AddItem {
            name,
            display_name,
            quantity,
            unit,
            location,
            est_expiry_ts,
            unopened_days,
            opened_days,
            price,
            currency,
            barcode,
            source_receipt_id,
        } => lemma_log_prefix(
            pre,
            add_item_spec(
                pre, ctx, name, display_name, quantity, unit, location, est_expiry_ts, unopened_days,
                opened_days, price, currency, barcode, source_receipt_id,
            ).0,
        ),
        Call::AddShoppingItem { name, quantity, unit, is_staple, reason } =>
            lemma_log_prefix(pre, add_shopping_item_spec(pre, ctx, name, quantity, unit, is_staple, reason).0),
        Call::RemoveItem { item_id } => lemma_log_prefix(pre, remove_item_spec(pre, ctx, item_id).0),
        Call::DepleteItem { item_id } => lemma_log_prefix(pre, deplete_item_spec(pre, ctx, item_id).0),
        Call::UpdateItemQuantity { item_id, new_quantity } =>
            lemma_log_prefix(pre, update_item_quantity_spec(pre, ctx, item_id, new_quantity).0),
        Call::AddReceipt { store_name, purchased_at, total, tax, currency, raw_ocr_text, image_url } =>
            lemma_log_prefix(pre, add_receipt_spec(pre, ctx, store_name, purchased_at, total, tax, currency, raw_ocr_text, image_url)),
        Call::AcceptRecipe { recipe_id } => lemma_log_prefix(pre, accept_recipe_spec(pre, ctx, recipe_id).0),
        Call::RemoveShoppingItem { shopping_item_id } =>
            lemma_log_prefix(pre, remove_shopping_item_spec(pre, ctx, shopping_item_id).0),
        _ => {
            assert(post.pantry_event == pre.pantry_event);
            lemma_log_prefix(pre, post);
        },
    }
}
/// Running `init` again never arms a second sweep timer: after `init` there is
/// exactly one timer, and a further `init` changes nothing. On an empty timer
/// table the timer armed is the repeating one, with id 0.
pub proof fn lemma_init_arms_once(pre: DbView, c1: ReducerContext, c2: ReducerContext)
    requires
        pre.schedule_ok(),
    ensures
        init_spec(pre, c1).expiry_sweep_schedule.len() == 1,
        init_spec(init_spec(pre, c1), c2) == init_spec(pre, c1),
        pre.expiry_sweep_schedule.len() == 0 ==> init_spec(pre, c1).expiry_sweep_schedule[0] == sweep_timer(),
        pre.expiry_sweep_schedule.len() == 0 ==> init_spec(pre, c1).expiry_sweep_schedule[0].scheduled_id == 0,
{
}

/// Once a timer is armed, `init` leaves the whole database unchanged.
pub proof fn lemma_init_leaves_armed_db_unchanged(pre: DbView, ctx: ReducerContext)
    requires
        pre.expiry_sweep_schedule.len() > 0,
    ensures
        init_spec(pre, ctx) == pre,
{
}

/// What the sweep makes of one item at time `now`.
pub open spec fn swept_item(it: ItemView, ctx: ReducerContext, now: int) -> ItemView {
    if promotes(it, now) {
        ItemView { status: ItemStatus::ExpiringSoon, updated_at: ctx.timestamp, ..it }
    } else {
        it
    }
}

/// After visiting the first `k` items, the sweep has changed each of them as
/// `swept_item` says and left the others as they were.
pub proof fn lemma_sweep_fold_items(pre: DbView, ctx: ReducerContext, now: int, k: int)
    requires
        0 <= k <= pre.item.len(),
    ensures
        sweep_fold(pre, ctx, now, k).item.len() == pre.item.len(),
        forall|j: int| 0 <= j < k ==> #[trigger] sweep_fold(pre, ctx, now, k).item[j] == swept_item(pre.item[j], ctx, now),
        forall|j: int| k <= j < pre.item.len() ==> #[trigger] sweep_fold(pre, ctx, now, k).item[j] == pre.item[j],
    decreases k,
{
    if k > 0 {
        lemma_sweep_fold_items(pre, ctx, now, k - 1);
    }
}

proof fn lemma_sweep_fold_idle(pre: DbView, ctx: ReducerContext, now: int, k: int)
    requires
        0 <= k <= pre.item.len(),
        forall|j: int| 0 <= j < pre.item.len() ==> !promotes(#[trigger] pre.item[j], now),
    ensures
        sweep_fold(pre, ctx, now, k) == pre,
    decreases k,
{
    if k > 0 {
        lemma_sweep_fold_idle(pre, ctx, now, k - 1);
    }
}

/// The sweep is idempotent: once it has run, running it again at the same
/// time (or earlier) promotes nothing and logs nothing, because promoted
/// items are `ExpiringSoon` and the others are still outside the window.
pub proof fn lemma_sweep_idempotent(pre: DbView, c1: ReducerContext, c2: ReducerContext)
    requires
        unix_seconds(c2.timestamp) <= unix_seconds(c1.timestamp),
    ensures
        sweep_event_count(sweep_spec(pre, c1), c2) == 0,
        sweep_spec(sweep_spec(pre, c1), c2) == sweep_spec(pre, c1),
{
    let now1 = unix_seconds(c1.timestamp);
    let now2 = unix_seconds(c2.timestamp);
    let d1 = sweep_spec(pre, c1);
    lemma_sweep_fold_items(pre, c1, now1, pre.item.len() as int);
    assert forall|j: int| 0 <= j < d1.item.len() implies !promotes(#[trigger] d1.item[j], now2) by {
        assert(d1.item[j] == swept_item(pre.item[j], c1, now1));
    }
    lemma_sweep_fold_idle(d1, c2, now2, d1.item.len() as int);
    lemma_promoted_count_none(d1.item, now2, d1.item.len() as int);
}

proof fn lemma_promoted_count_none(items: Seq<ItemView>, now: int, k: int)
    requires
        0 <= k <= items.len(),
        forall|j: int| 0 <= j < items.len() ==> !promotes(#[trigger] items[j], now),
    ensures
        promoted_count(items, now, k) == 0,
    decreases k,
{
    if k > 0 {
        lemma_promoted_count_none(items, now, k - 1);
    }
}

/// The sweep never touches a depleted item, nor one already flagged.
pub proof fn lemma_sweep_skips_depleted_and_flagged(pre: DbView, ctx: ReducerContext, j: int)
    requires
        0 <= j < pre.item.len(),
        pre.item[j].status == ItemStatus::Depleted || pre.item[j].status == ItemStatus::ExpiringSoon,
    ensures
        sweep_spec(pre, ctx).item[j] == pre.item[j],
{
    lemma_sweep_fold_items(pre, ctx, unix_seconds(ctx.timestamp), pre.item.len() as int);
}

/// `status < ExpiringSoon` in the declaration order holds exactly for
/// unopened and opened items.
pub proof fn lemma_status_before_expiring_soon(s: ItemStatus)
    ensures
        s.rank() < ItemStatus::ExpiringSoon.rank() <==> (s == ItemStatus::Unopened || s == ItemStatus::Opened),
{
}

/// Subscribing never duplicates an endpoint: afterwards the caller holds
/// exactly one row for (channel, handle), and it is active.
pub proof fn lemma_subscribe_leaves_one_active_row(pre: DbView, ctx: ReducerContext, channel: Seq<char>, handle: Seq<char>)
    requires
        pre.wf(),
        subscribe_digest_fits(pre, ctx, channel, handle),
        channel.len() > 0,
        handle.len() > 0,
    ensures
        ({
            let post = subscribe_digest_spec(pre, ctx, channel, handle).0;
            let p = subscription_at(ctx.sender, channel, handle);
            exists|i: int|
                0 <= i < post.digest_subscription.len() && p(#[trigger] post.digest_subscription[i])
                    && post.digest_subscription[i].is_active
                    && forall|j: int| 0 <= j < post.digest_subscription.len() && p(#[trigger] post.digest_subscription[j]) ==> j == i
        }),
{
    let post = subscribe_digest_spec(pre, ctx, channel, handle).0;
    let p = subscription_at(ctx.sender, channel, handle);
    lemma_subscribe_digest_wf(pre, ctx, channel, handle);
    lemma_first_match_spec(pre.digest_subscription, p);
    let i = match first_match(pre.digest_subscription, p) {
        Some(i) => i,
        None => pre.digest_subscription.len() as int,
    };
    assert(p(post.digest_subscription[i]));
    assert forall|j: int| 0 <= j < post.digest_subscription.len() && p(#[trigger] post.digest_subscription[j]) implies j == i by {
        if j != i {
            assert(crate::tables::same_endpoint(post.digest_subscription[i], post.digest_subscription[j]));
        }
    }
}

/// Subscribing again to the same endpoint refreshes the row and adds none.
pub proof fn lemma_resubscribe_adds_no_row(
    pre: DbView,
    c1: ReducerContext,
    c2: ReducerContext,
    channel: Seq<char>,
    handle: Seq<char>,
)
    requires
        c1.sender == c2.sender,
    ensures
        ({
            let once = subscribe_digest_spec(pre, c1, channel, handle);
            let twice = subscribe_digest_spec(once.0, c2, channel, handle);
            &&& twice.1 == once.1
            &&& twice.0.digest_subscription.len() == once.0.digest_subscription.len()
            &&& twice.0.next_subscription_id == once.0.next_subscription_id
        }),
{
    let p = subscription_at(c1.sender, channel, handle);
    let once = subscribe_digest_spec(pre, c1, channel, handle);
    lemma_first_match_spec(pre.digest_subscription, p);
    lemma_first_match_spec(once.0.digest_subscription, p);
    if channel.len() > 0 && handle.len() > 0 {
        let i = match first_match(pre.digest_subscription, p) {
            Some(i) => i,
            None => pre.digest_subscription.len() as int,
        };
        assert(p(once.0.digest_subscription[i]));
    }
}

/// After connecting, the caller is a registered, active user; connecting
/// again adds no user row.
pub proof fn lemma_connect_registers_once(pre: DbView, c1: ReducerContext, c2: ReducerContext)
    requires
        c1.sender == c2.sender,
    ensures
        ({
            let once = client_connected_spec(pre, c1);
            &&& exists|i: int| 0 <= i < once.user.len() && (#[trigger] once.user[i]).identity == c1.sender && once.user[i].is_active
            &&& client_connected_spec(once, c2).user.len() == once.user.len()
        }),
{
    let p = user_has_identity(c1.sender);
    let once = client_connected_spec(pre, c1);
    lemma_first_match_spec(pre.user, p);
    lemma_first_match_spec(once.user, p);
    let i = match first_match(pre.user, p) {
        Some(i) => i,
        None => pre.user.len() as int,
    };
    assert(once.user[i].identity == c1.sender && once.user[i].is_active);
}

/// Buying more of a product that is in stock merges into its row: no row is
/// added, quantities add, and the earlier known expiry is kept.
pub proof fn lemma_add_item_merges(
    pre: DbView,
    ctx: ReducerContext,
    name: Seq<char>,
    display_name: Seq<char>,
    quantity: i64,
    unit: Seq<char>,
    location: Location,
    est_expiry_ts: i64,
    unopened_days: i32,
    opened_days: i32,
    price: i64,
    currency: Seq<char>,
    barcode: Seq<char>,
    source_receipt_id: u64,
    i: int,
)
    requires
        quantity > 0,
        lowercase(trimmed(name)).len() > 0,
        first_match(pre.item, item_in_stock_named(lowercase(trimmed(name)))) == Some(i),
    ensures
        ({
            let r = add_item_spec(
                pre, ctx, name, display_name, quantity, unit, location, est_expiry_ts, unopened_days,
                opened_days, price, currency, barcode, source_receipt_id,
            );
            &&& r.1 is Ok
            &&& r.0.item.len() == pre.item.len()
            &&& r.0.item[i].item_id == pre.item[i].item_id
            &&& r.0.item[i].quantity == clamp_i64(pre.item[i].quantity + quantity)
            &&& r.0.item[i].est_expiry_ts == crate::items::merged_expiry(est_expiry_ts, pre.item[i].est_expiry_ts)
        }),
{
    lemma_first_match_spec(pre.item, item_in_stock_named(lowercase(trimmed(name))));
}

/// The merged expiry is the earliest known one; an unknown expiry (0) never
/// replaces a known one.
pub proof fn lemma_merged_expiry_is_earliest(incoming: i64, existing: i64)
    ensures
        incoming > 0 && existing > 0 ==> crate::items::merged_expiry(incoming, existing)
            == (if incoming <= existing { incoming } else { existing }),
        incoming > 0 && existing == 0 ==> crate::items::merged_expiry(incoming, existing) == incoming,
        incoming == 0 && existing > 0 ==> crate::items::merged_expiry(incoming, existing) == existing,
        incoming == 0 && existing == 0 ==> crate::items::merged_expiry(incoming, existing) == 0,
{
}

/// Removing an item is a hard delete: afterwards no row has its id.
pub proof fn lemma_removed_item_is_gone(pre: DbView, ctx: ReducerContext, item_id: u64)
    requires
        pre.wf(),
        remove_item_spec(pre, ctx, item_id).1 is Ok,
    ensures
        forall|j: int| 0 <= j < remove_item_spec(pre, ctx, item_id).0.item.len()
            ==> (#[trigger] remove_item_spec(pre, ctx, item_id).0.item[j]).item_id != item_id,
{
    lemma_first_match_spec(pre.item, item_has_id(item_id));
    let i = first_match(pre.item, item_has_id(item_id))->Some_0;
    let post = remove_item_spec(pre, ctx, item_id).0;
    assert forall|j: int| 0 <= j < post.item.len() implies (#[trigger] post.item[j]).item_id != item_id by {
        if j < i {
            assert(post.item[j] == pre.item[j]);
        } else {
            assert(post.item[j] == pre.item[j + 1]);
        }
    }
}

/// Depleting an item leaves it in the pantry with quantity 0 and status
/// depleted.
pub proof fn lemma_depleted_item_is_empty(pre: DbView, ctx: ReducerContext, item_id: u64)
    requires
        deplete_item_spec(pre, ctx, item_id).1 is Ok,
    ensures
        exists|j: int| 0 <= j < deplete_item_spec(pre, ctx, item_id).0.item.len()
            && (#[trigger] deplete_item_spec(pre, ctx, item_id).0.item[j]).item_id == item_id
            && deplete_item_spec(pre, ctx, item_id).0.item[j].quantity == 0
            && deplete_item_spec(pre, ctx, item_id).0.item[j].status == ItemStatus::Depleted,
{
    lemma_first_match_spec(pre.item, item_has_id(item_id));
    let i = first_match(pre.item, item_has_id(item_id))->Some_0;
    assert(deplete_item_spec(pre, ctx, item_id).0.item[i].item_id == item_id);
}

/// Optional ingredients never touch the pantry: when a recipe has no
/// required ingredient, accepting it changes no item and reports nothing
/// missing or deducted.
pub proof fn lemma_accept_without_required_ingredients(
    items: Seq<ItemView>,
    ings: Seq<RecipeIngredientView>,
    recipe_id: u64,
    ts: Timestamp,
)
    requires
        forall|k: int| 0 <= k < ings.len() ==> !crate::recipes::ingredient_required(#[trigger] ings[k], recipe_id),
    ensures
        accept_fold(items, ings, recipe_id, ts) == (AcceptState { items, missing: Seq::empty(), deducted: Seq::empty() }),
    decreases ings.len(),
{
    if ings.len() > 0 {
        lemma_accept_without_required_ingredients(items, ings.drop_last(), recipe_id, ts);
        assert(!crate::recipes::ingredient_required(ings[ings.len() - 1], recipe_id));
    }
}

/// Each outbox row is taken up at most once: a row that was processed is
/// skipped when it shows up again, and a delivered row is never processed.
pub proof fn lemma_outbox_row_processed_once(
    seen: Seq<u64>,
    outbox_id: u64,
    d1: bool,
    d2: bool,
    live1: bool,
    live2: bool,
)
    ensures
        ({
            let first = crate::poller::outbox_decision(seen, outbox_id, d1, live1);
            let second = crate::poller::outbox_decision(first.0, outbox_id, d2, live2);
            &&& first.1 is Process ==> second.1 is Skip
            &&& d1 ==> first.1 is Skip
        }),
{
    let first = crate::poller::outbox_decision(seen, outbox_id, d1, live1);
    if first.1 is Process {
        assert(first.0[first.0.len() - 1] == outbox_id);
        assert(first.0.contains(outbox_id));
    }
}

/// A new, empty database satisfies the invariant.
pub proof fn lemma_empty_database_wf()
    ensures
        DbView::empty().wf(),
{
}

/// Unsubscribing is a soft disable: the row stays, inactive, and no row is
/// added or removed.
pub proof fn lemma_unsubscribe_keeps_row(pre: DbView, ctx: ReducerContext, subscription_id: u64)
    requires
        unsubscribe_digest_spec(pre, ctx, subscription_id).1 is Ok,
    ensures
        ({
            let post = unsubscribe_digest_spec(pre, ctx, subscription_id).0;
            &&& post.digest_subscription.len() == pre.digest_subscription.len()
            &&& exists|i: int| 0 <= i < post.digest_subscription.len()
                && (#[trigger] post.digest_subscription[i]).subscription_id == subscription_id
                && !post.digest_subscription[i].is_active
        }),
{
    lemma_first_match_spec(pre.digest_subscription, subscription_has_id(subscription_id));
    let i = first_match(pre.digest_subscription, subscription_has_id(subscription_id))->Some_0;
    assert(unsubscribe_digest_spec(pre, ctx, subscription_id).0.digest_subscription[i].subscription_id == subscription_id);
}

/// Changing one item without renaming it, and without bringing a depleted
/// item back into stock, keeps in-stock names unique.
proof fn lemma_item_update_keeps_names(items: Seq<ItemView>, i: int, new: ItemView)
    requires
        in_stock_names_unique(items),
        0 <= i < items.len(),
        new.name == items[i].name,
        new.status != ItemStatus::Depleted ==> items[i].status != ItemStatus::Depleted,
    ensures
        in_stock_names_unique(items.update(i, new)),
{
    let post = items.update(i, new);
    assert forall|a: int, b: int|
        0 <= a < post.len() && 0 <= b < post.len() && a != b && post[a].status != ItemStatus::Depleted
            && post[b].status != ItemStatus::Depleted implies #[trigger] post[a].name != #[trigger] post[b].name by {
        assert(items[a].status != ItemStatus::Depleted && items[b].status != ItemStatus::Depleted);
        assert(items[a].name != items[b].name);
    }
}

proof fn lemma_add_item_keeps_names(
    pre: DbView,
    ctx: ReducerContext,
    name: Seq<char>,
    display_name: Seq<char>,
    quantity: i64,
    unit: Seq<char>,
    location: Location,
    est_expiry_ts: i64,
    unopened_days: i32,
    opened_days: i32,
    price: i64,
    currency: Seq<char>,
    barcode: Seq<char>,
    source_receipt_id: u64,
)
    requires
        in_stock_names_unique(pre.item),
    ensures
        in_stock_names_unique(
            add_item_spec(
                pre, ctx, name, display_name, quantity, unit, location, est_expiry_ts, unopened_days,
                opened_days, price, currency, barcode, source_receipt_id,
            ).0.item,
        ),
{
    let n = lowercase(trimmed(name));
    lemma_first_match_spec(pre.item, item_in_stock_named(n));
    if n.len() > 0 && quantity > 0 {
        match first_match(pre.item, item_in_stock_named(n)) {
            Some(i) => {
                let m = merged_item(pre.item[i], ctx, quantity, est_expiry_ts, price, currency, barcode, source_receipt_id);
                lemma_item_update_keeps_names(pre.item, i, m);
            },
            None => {
                let post = add_item_spec(
                    pre, ctx, name, display_name, quantity, unit, location, est_expiry_ts, unopened_days,
                    opened_days, price, currency, barcode, source_receipt_id,
                ).0.item;
                assert forall|a: int, b: int|
                    0 <= a < post.len() && 0 <= b < post.len() && a != b && post[a].status != ItemStatus::Depleted
                        && post[b].status != ItemStatus::Depleted implies #[trigger] post[a].name != #[trigger] post[b].name by {
                    if a == pre.item.len() {
                        assert(!item_in_stock_named(n)(pre.item[b]));
                    } else if b == pre.item.len() {
                        assert(!item_in_stock_named(n)(pre.item[a]));
                    }
                }
            },
        }
    }
}

proof fn lemma_accept_fold_keeps_names(items: Seq<ItemView>, ings: Seq<RecipeIngredientView>, recipe_id: u64, ts: Timestamp)
    requires
        in_stock_names_unique(items),
    ensures
        in_stock_names_unique(accept_fold(items, ings, recipe_id, ts).items),
    decreases ings.len(),
{
    if ings.len() > 0 {
        lemma_accept_fold_keeps_names(items, ings.drop_last(), recipe_id, ts);
        let st = accept_fold(items, ings.drop_last(), recipe_id, ts);
        let ing = ings.last();
        let p = item_can_supply(lowercase(ing.ingredient_name), ing.quantity);
        lemma_first_match_spec(st.items, p);
        if crate::recipes::ingredient_required(ing, recipe_id) {
            match first_match(st.items, p) {
                Some(i) => lemma_item_update_keeps_names(
                    st.items,
                    i,
                    crate::recipes::deducted_item(st.items[i], ing.quantity, ts),
                ),
                None => {},
            }
        }
    }
}

proof fn lemma_sweep_keeps_names(pre: DbView, ctx: ReducerContext)
    requires
        in_stock_names_unique(pre.item),
    ensures
        in_stock_names_unique(sweep_spec(pre, ctx).item),
{
    let now = unix_seconds(ctx.timestamp);
    lemma_sweep_fold_items(pre, ctx, now, pre.item.len() as int);
    let post = sweep_spec(pre, ctx).item;
    assert forall|a: int, b: int|
        0 <= a < post.len() && 0 <= b < post.len() && a != b && post[a].status != ItemStatus::Depleted
            && post[b].status != ItemStatus::Depleted implies #[trigger] post[a].name != #[trigger] post[b].name by {
        assert(post[a] == swept_item(pre.item[a], ctx, now));
        assert(post[b] == swept_item(pre.item[b], ctx, now));
        assert(pre.item[a].name != pre.item[b].name);
    }
}

proof fn lemma_item_by_id_keeps_names(pre: DbView, item_id: u64, f: spec_fn(ItemView) -> ItemView)
    requires
        in_stock_names_unique(pre.item),
        forall|it: ItemView| #![trigger f(it)] f(it).name == it.name
            && (f(it).status != ItemStatus::Depleted ==> it.status != ItemStatus::Depleted),
    ensures
        match first_match(pre.item, item_has_id(item_id)) {
            Some(i) => in_stock_names_unique(pre.item.update(i, f(pre.item[i]))),
            None => true,
        },
{
    lemma_first_match_spec(pre.item, item_has_id(item_id));
    match first_match(pre.item, item_has_id(item_id)) {
        Some(i) => lemma_item_update_keeps_names(pre.item, i, f(pre.item[i])),
        None => {},
    }
}

/// Setting a quantity would bring a depleted item back into stock while
/// another in-stock item has its name.
pub open spec fn restock_collides(pre: DbView, item_id: u64, new_quantity: i64) -> bool {
    match first_match(pre.item, item_has_id(item_id)) {
        Some(i) => new_quantity > 0 && pre.item[i].status == ItemStatus::Depleted && exists|j: int|
            0 <= j < pre.item.len() && j != i && (#[trigger] pre.item[j]).status != ItemStatus::Depleted
                && pre.item[j].name == pre.item[i].name,
        None => false,
    }
}

proof fn lemma_update_item_quantity_keeps_names(pre: DbView, ctx: ReducerContext, item_id: u64, new_quantity: i64)
    requires
        in_stock_names_unique(pre.item),
        !restock_collides(pre, item_id, new_quantity),
    ensures
        in_stock_names_unique(update_item_quantity_spec(pre, ctx, item_id, new_quantity).0.item),
{
    lemma_first_match_spec(pre.item, item_has_id(item_id));
    if let Some(i) = first_match(pre.item, item_has_id(item_id)) {
        if new_quantity >= 0 {
            let it = pre.item[i];
            let nv = ItemView {
                quantity: new_quantity,
                status: crate::items::status_after_quantity(it, new_quantity),
                updated_at: ctx.timestamp,
                ..it
            };
            let post = pre.item.update(i, nv);
            assert(update_item_quantity_spec(pre, ctx, item_id, new_quantity).0.item =~= post);
            assert forall|a: int, b: int|
                0 <= a < post.len() && 0 <= b < post.len() && a != b && post[a].status != ItemStatus::Depleted
                    && post[b].status != ItemStatus::Depleted implies #[trigger] post[a].name != #[trigger] post[b].name by {
                if a == i && it.status == ItemStatus::Depleted {
                    assert(pre.item[b].status != ItemStatus::Depleted);
                } else if b == i && it.status == ItemStatus::Depleted {
                    assert(pre.item[a].status != ItemStatus::Depleted);
                } else {
                    assert(pre.item[a].status != ItemStatus::Depleted && pre.item[b].status != ItemStatus::Depleted);
                }
            }
        }
    }
}

/// The only call that could break [`in_stock_names_unique`]: restocking a
/// depleted item by setting its quantity while another in-stock item has its
/// name.
pub open spec fn call_restocks_a_duplicate(pre: DbView, call: Call) -> bool {
    match call {
        Call::UpdateItemQuantity { item_id, new_quantity } => restock_collides(pre, item_id, new_quantity),
        _ => false,
    }
}

/// Each product name has at most one in-stock row: buying more merges into
/// it, no reducer renames an item, and only setting a depleted item's
/// quantity brings it back into stock (excluded when another in-stock item
/// already has its name).
pub proof fn lemma_every_reducer_keeps_one_in_stock_row_per_name(pre: DbView, ctx: ReducerContext, call: Call)
    requires
        in_stock_names_unique(pre.item),
        !call_restocks_a_duplicate(pre, call),
    ensures
        in_stock_names_unique(step(pre, ctx, call).0.item),
{
    let post = step(pre, ctx, call).0;
    match call {
        Call::AddItem {
            name,
            display_name,
            quantity,
            unit,
            location,
            est_expiry_ts,
            unopened_days,
            opened_days,
            price,
            currency,
            barcode,
            source_receipt_id,
        } => lemma_add_item_keeps_names(
            pre, ctx, name, display_name, quantity, unit, location, est_expiry_ts, unopened_days,
            opened_days, price, currency, barcode, source_receipt_id,
        ),
        Call::RemoveItem { item_id } => {
            lemma_first_match_spec(pre.item, item_has_id(item_id));
            if let Some(i) = first_match(pre.item, item_has_id(item_id)) {
                let r = remove_item_spec(pre, ctx, item_id).0.item;
                assert forall|a: int, b: int|
                    0 <= a < r.len() && 0 <= b < r.len() && a != b && r[a].status != ItemStatus::Depleted
                        && r[b].status != ItemStatus::Depleted implies #[trigger] r[a].name != #[trigger] r[b].name by {
                    let pa = if a < i { a } else { a + 1 };
                    let pb = if b < i { b } else { b + 1 };
                    assert(r[a] == pre.item[pa] && r[b] == pre.item[pb]);
                }
            }
        },
        Call::DepleteItem { item_id } => {
            let f = |it: ItemView| ItemView { quantity: 0, status: ItemStatus::Depleted, updated_at: ctx.timestamp, ..it };
            lemma_item_by_id_keeps_names(pre, item_id, f);
            if let Some(i) = first_match(pre.item, item_has_id(item_id)) {
                assert(deplete_item_spec(pre, ctx, item_id).0.item =~= pre.item.update(i, f(pre.item[i])));
            }
        },
        Call::UpdateItemQuantity { item_id, new_quantity } => {
            lemma_update_item_quantity_keeps_names(pre, ctx, item_id, new_quantity);
        },
        Call::UpdateItemLocation { item_id, location } => {
            let f = |it: ItemView| ItemView { location, updated_at: ctx.timestamp, ..it };
            lemma_item_by_id_keeps_names(pre, item_id, f);
            if let Some(i) = first_match(pre.item, item_has_id(item_id)) {
                assert(update_item_location_spec(pre, ctx, item_id, location).0.item =~= pre.item.update(i, f(pre.item[i])));
            }
        },
        Call::AcceptRecipe { recipe_id } => {
            lemma_accept_fold_keeps_names(pre.item, pre.recipe_ingredient, recipe_id, ctx.timestamp);
        },
        Call::SweepExpiringItems => lemma_sweep_keeps_names(pre, ctx),
        _ => {
            assert(post.item == pre.item);
        },
    }
}

/// Subscribing keeps endpoints unique on its own (without the rest of the
/// invariant), and leaves every row of another endpoint as it was.
pub proof fn lemma_subscribe_keeps_endpoints_unique(pre: DbView, ctx: ReducerContext, channel: Seq<char>, handle: Seq<char>)
    requires
        endpoints_unique(pre.digest_subscription),
    ensures
        ({
            let post = subscribe_digest_spec(pre, ctx, channel, handle).0.digest_subscription;
            &&& endpoints_unique(post)
            &&& forall|j: int| 0 <= j < post.len() && !subscription_at(ctx.sender, channel, handle)(#[trigger] post[j])
                ==> j < pre.digest_subscription.len() && post[j] == pre.digest_subscription[j]
        }),
{
    lemma_first_match_spec(pre.digest_subscription, subscription_at(ctx.sender, channel, handle));
}

/// Unsubscribing keeps endpoints unique and changes no endpoint.
pub proof fn lemma_unsubscribe_keeps_endpoints_unique(pre: DbView, ctx: ReducerContext, subscription_id: u64)
    requires
        endpoints_unique(pre.digest_subscription),
    ensures
        ({
            let post = unsubscribe_digest_spec(pre, ctx, subscription_id).0.digest_subscription;
            &&& endpoints_unique(post)
            &&& post.len() == pre.digest_subscription.len()
            &&& forall|j: int| 0 <= j < post.len() ==> same_endpoint(#[trigger] post[j], pre.digest_subscription[j])
        }),
{
    lemma_first_match_spec(pre.digest_subscription, subscription_has_id(subscription_id));
}

/// Unsubscribing and then subscribing again to the same endpoint reactivates
/// the same row: the call succeeds, the row is active again, and no row is
/// added.
pub proof fn lemma_unsubscribe_then_resubscribe(
    pre: DbView,
    c1: ReducerContext,
    c2: ReducerContext,
    channel: Seq<char>,
    handle: Seq<char>,
    i: int,
)
    requires
        c1.sender == c2.sender,
        channel.len() > 0,
        handle.len() > 0,
        0 <= i < pre.digest_subscription.len(),
        subscription_at(c1.sender, channel, handle)(pre.digest_subscription[i]),
        forall|j: int| 0 <= j < pre.digest_subscription.len() && j != i
            ==> !subscription_at(c1.sender, channel, handle)(#[trigger] pre.digest_subscription[j]),
        unsubscribe_digest_spec(pre, c1, pre.digest_subscription[i].subscription_id).1 is Ok,
    ensures
        ({
            let mid = unsubscribe_digest_spec(pre, c1, pre.digest_subscription[i].subscription_id).0;
            let post = subscribe_digest_spec(mid, c2, channel, handle);
            &&& post.1 is Ok
            &&& post.0.digest_subscription.len() == pre.digest_subscription.len()
            &&& post.0.digest_subscription[i].subscription_id == pre.digest_subscription[i].subscription_id
            &&& post.0.digest_subscription[i].is_active
        }),
{
    let p = subscription_at(c1.sender, channel, handle);
    let id = pre.digest_subscription[i].subscription_id;
    let mid = unsubscribe_digest_spec(pre, c1, id).0;
    lemma_first_match_spec(pre.digest_subscription, subscription_has_id(id));
    assert(mid.digest_subscription.len() == pre.digest_subscription.len());
    assert forall|j: int| 0 <= j < mid.digest_subscription.len()
        implies same_endpoint(#[trigger] mid.digest_subscription[j], pre.digest_subscription[j]) by {}
    assert(p(mid.digest_subscription[i]));
    assert forall|j: int| 0 <= j < i implies !p(#[trigger] mid.digest_subscription[j]) by {
        assert(same_endpoint(mid.digest_subscription[j], pre.digest_subscription[j]));
        assert(!p(pre.digest_subscription[j]));
    }
    crate::seqs::lemma_first_match_found(mid.digest_subscription, p, i);
}

} // verus!
