//! What each reducer does to the rows it is not about, and the state changes
//! its documentation promises, stated over inputs and results.
use vstd::prelude::*;
use crate::digest::{subscribe_digest_spec, subscription_at, unsubscribe_digest_spec};
use crate::events::unix_seconds;
use crate::expiry::{expiry_notice, promotes, sweep_fold, sweep_spec};
use crate::items::{
    add_item_spec, clamp_i64, deplete_item_spec, item_has_id, item_in_stock_named, remove_item_spec,
    update_item_location_spec, update_item_quantity_spec,
};
use crate::laws::{lemma_accept_without_required_ingredients, lemma_sweep_fold_items};
use crate::receipts::{add_receipt_item_spec, match_receipt_item_spec, receipt_has_id, receipt_item_has_id};
use crate::recipes::{
    accept_fold, accept_recipe_spec, accept_step, add_recipe_ingredient_spec, ingredient_required, item_can_supply,
    recipe_has_id, AcceptState,
};
use crate::seqs::{first_match, is_first, lemma_first_match_found, lemma_first_match_spec};
use crate::shopping::{add_shopping_item_spec, remove_shopping_item_spec, shopping_item_has_id};
use crate::tables::{
    DbView, DigestSubscriptionView, ItemView, PantryEventView, ReceiptItemView, RecipeIngredientView,
    ShoppingListItemView, UserView,
};
use crate::text::{decimal_text, join_text, lowercase, milli_text, trimmed};
use crate::types::{ItemStatus, Location, ReducerContext, Timestamp};
use crate::users::{client_connected_spec, set_user_name_spec, user_has_identity};

verus! {

/// An item that the sweep is to flag at time `now` (Unix seconds): in stock,
/// unopened or opened, with a known expiry at most three days away, or past.
pub open spec fn near_expiry(it: ItemView, now: int) -> bool {
    &&& it.quantity > 0
    &&& it.est_expiry_ts > 0
    &&& it.status == ItemStatus::Unopened || it.status == ItemStatus::Opened
    &&& it.est_expiry_ts - now <= 3 * 86_400
}

/// The notice logged for a flagged item: the whole days left, or that the
/// expiry has passed.
pub open spec fn expiry_notice_text(it: ItemView, now: int) -> Seq<char> {
    if it.est_expiry_ts - now <= 0 {
        "'"@ + it.display_name + "' has passed its estimated expiry"@
    } else {
        "'"@ + it.display_name + "' expires in ~"@ + decimal_text(((it.est_expiry_ts - now) / 86_400) as nat) + " day(s)"@
    }
}

/// Accepting a recipe deducts only that recipe's required ingredients: when
/// every ingredient row of the recipe is optional (or it has none), no item
/// changes, whatever ingredients other recipes list.
pub proof fn lemma_accept_recipe_uses_only_its_ingredients(pre: DbView, ctx: ReducerContext, recipe_id: u64)
    requires
        forall|k: int| 0 <= k < pre.recipe_ingredient.len()
            ==> (#[trigger] pre.recipe_ingredient[k]).recipe_id != recipe_id || pre.recipe_ingredient[k].is_optional,
    ensures
        accept_recipe_spec(pre, ctx, recipe_id).0.item == pre.item,
{
    if first_match(pre.recipe, recipe_has_id(recipe_id)) is Some {
        lemma_accept_without_required_ingredients(pre.item, pre.recipe_ingredient, recipe_id, ctx.timestamp);
    }
}

/// The sweep flags exactly the items near expiry (in stock, unopened or
/// opened, with a known expiry at most three days away, or past): each
/// becomes `ExpiringSoon` with nothing else changed but its update time;
/// every other item is left as it was.
pub proof fn lemma_sweep_flags_items_near_expiry(pre: DbView, ctx: ReducerContext, j: int)
    requires
        0 <= j < pre.item.len(),
    ensures
        ({
            let it = pre.item[j];
            let out = sweep_spec(pre, ctx).item[j];
            let near = near_expiry(it, unix_seconds(ctx.timestamp));
            &&& sweep_spec(pre, ctx).item.len() == pre.item.len()
            &&& near ==> out == (ItemView { status: ItemStatus::ExpiringSoon, updated_at: ctx.timestamp, ..it })
            &&& !near ==> out == it
        }),
{
    lemma_sweep_fold_items(pre, ctx, unix_seconds(ctx.timestamp), pre.item.len() as int);
}

/// Setting an item's quantity changes only that item, and only its quantity
/// (to the new one), its status and its update time. The status is
/// depleted exactly at quantity 0; otherwise a depleted item becomes
/// unopened, an unopened item with a known opened shelf life becomes opened,
/// and any other status (opened, expiring soon, unopened without an opened
/// shelf life) is kept. A negative quantity is refused and changes nothing.
pub proof fn lemma_update_item_quantity_transitions(pre: DbView, ctx: ReducerContext, item_id: u64, new_quantity: i64, i: int)
    requires
        0 <= i < pre.item.len(),
        pre.item[i].item_id == item_id,
        forall|j: int| 0 <= j < i ==> (#[trigger] pre.item[j]).item_id != item_id,
    ensures
        ({
            let r = update_item_quantity_spec(pre, ctx, item_id, new_quantity);
            let o = pre.item[i];
            let n = r.0.item[i];
            &&& new_quantity < 0 ==> r.1 is Err && r.0 == pre
            &&& new_quantity >= 0 ==> {
                &&& r.1 is Ok
                &&& r.0.item.len() == pre.item.len()
                &&& forall|j: int| 0 <= j < pre.item.len() && j != i ==> r.0.item[j] == #[trigger] pre.item[j]
                &&& n == (ItemView { quantity: new_quantity, status: n.status, updated_at: ctx.timestamp, ..o })
                &&& (n.status == ItemStatus::Depleted <==> new_quantity == 0)
                &&& new_quantity > 0 && o.status == ItemStatus::Depleted ==> n.status == ItemStatus::Unopened
                &&& new_quantity > 0 && o.status == ItemStatus::Unopened && o.opened_days > 0 ==> n.status == ItemStatus::Opened
                &&& new_quantity > 0 && o.status == ItemStatus::Unopened && o.opened_days <= 0 ==> n.status == ItemStatus::Unopened
                &&& new_quantity > 0 && o.status != ItemStatus::Unopened && o.status != ItemStatus::Depleted ==> n.status == o.status
            }
        }),
{
    assert(crate::seqs::is_first(pre.item, item_has_id(item_id), i));
    lemma_first_match_found(pre.item, item_has_id(item_id), i);
}

/// Unsubscribing deactivates the subscription with the given id and changes
/// nothing else: no row is added or removed, every row with another id is
/// kept as it was, and only the `is_active` flag of any row can change. It
/// succeeds exactly when a row has that id.
pub proof fn lemma_unsubscribe_changes_only_that_row(pre: DbView, ctx: ReducerContext, subscription_id: u64)
    ensures
        ({
            let r = unsubscribe_digest_spec(pre, ctx, subscription_id);
            let post = r.0.digest_subscription;
            &&& r.0 == (DbView { digest_subscription: post, ..pre })
            &&& post.len() == pre.digest_subscription.len()
            &&& forall|j: int| 0 <= j < post.len() && (#[trigger] pre.digest_subscription[j]).subscription_id != subscription_id
                ==> post[j] == pre.digest_subscription[j]
            &&& forall|j: int| 0 <= j < post.len()
                ==> #[trigger] post[j] == (DigestSubscriptionView { is_active: post[j].is_active, ..pre.digest_subscription[j] })
            &&& (r.1 is Ok <==> exists|j: int| 0 <= j < post.len() && (#[trigger] pre.digest_subscription[j]).subscription_id == subscription_id)
            &&& r.1 is Ok ==> exists|j: int| 0 <= j < post.len()
                && (#[trigger] pre.digest_subscription[j]).subscription_id == subscription_id && !post[j].is_active
        }),
{
    let p = crate::digest::subscription_has_id(subscription_id);
    lemma_first_match_spec(pre.digest_subscription, p);
    let r = unsubscribe_digest_spec(pre, ctx, subscription_id);
    if let Some(i) = first_match(pre.digest_subscription, p) {
        assert(pre.digest_subscription[i].subscription_id == subscription_id);
        assert(!r.0.digest_subscription[i].is_active);
    } else {
        assert forall|j: int| 0 <= j < pre.digest_subscription.len()
            implies (#[trigger] pre.digest_subscription[j]).subscription_id != subscription_id by {
            assert(!p(pre.digest_subscription[j]));
        }
    }
}

/// A known user connecting again only has its rows marked active: no row is
/// added, no name changes, rows of other users are kept, and nothing is
/// logged.
pub proof fn lemma_reconnect_only_marks_active(pre: DbView, ctx: ReducerContext)
    requires
        exists|j: int| 0 <= j < pre.user.len() && (#[trigger] pre.user[j]).identity == ctx.sender,
    ensures
        ({
            let post = client_connected_spec(pre, ctx);
            &&& post == (DbView { user: post.user, ..pre })
            &&& post.user.len() == pre.user.len()
            &&& forall|j: int| 0 <= j < post.user.len()
                ==> #[trigger] post.user[j] == (UserView { is_active: post.user[j].is_active, ..pre.user[j] })
            &&& forall|j: int| 0 <= j < post.user.len() && (#[trigger] pre.user[j]).identity != ctx.sender
                ==> post.user[j] == pre.user[j]
            &&& exists|j: int| 0 <= j < post.user.len() && (#[trigger] post.user[j]).identity == ctx.sender && post.user[j].is_active
        }),
{
    let p = user_has_identity(ctx.sender);
    lemma_first_match_spec(pre.user, p);
    let j0 = choose|j: int| 0 <= j < pre.user.len() && (#[trigger] pre.user[j]).identity == ctx.sender;
    assert(p(pre.user[j0]));
    let i = first_match(pre.user, p)->Some_0;
    let post = client_connected_spec(pre, ctx);
    assert(post.user[i].identity == ctx.sender && post.user[i].is_active);
}

/// A name set by the user survives reconnecting: after `set_user_name`
/// succeeds and the same user connects again, the user holds the trimmed
/// name and is active.
pub proof fn lemma_name_survives_reconnect(pre: DbView, c1: ReducerContext, c2: ReducerContext, name: Seq<char>)
    requires
        c1.sender == c2.sender,
        set_user_name_spec(pre, c1, name).1 is Ok,
    ensures
        ({
            let post = client_connected_spec(set_user_name_spec(pre, c1, name).0, c2);
            exists|j: int| 0 <= j < post.user.len() && (#[trigger] post.user[j]).identity == c1.sender
                && post.user[j].name == trimmed(name) && post.user[j].is_active
        }),
{
    let p = user_has_identity(c1.sender);
    lemma_first_match_spec(pre.user, p);
    let i = first_match(pre.user, p)->Some_0;
    let mid = set_user_name_spec(pre, c1, name).0;
    assert(mid.user[i].identity == c1.sender && mid.user[i].name == trimmed(name));
    assert forall|j: int| 0 <= j < i implies !p(#[trigger] mid.user[j]) by {
        assert(mid.user[j] == pre.user[j]);
    }
    assert(crate::seqs::is_first(mid.user, p, i));
    lemma_first_match_found(mid.user, p, i);
    let post = client_connected_spec(mid, c2);
    assert(post.user[i].identity == c1.sender && post.user[i].name == trimmed(name) && post.user[i].is_active);
}

/// Removing an item deletes exactly its row: the rows before it and after it
/// stay, in order; no other table changes; one `item_removed` event naming
/// the item is logged.
pub proof fn lemma_remove_item_deletes_only_that_row(pre: DbView, ctx: ReducerContext, item_id: u64, i: int)
    requires
        pre.wf(),
        0 <= i < pre.item.len(),
        pre.item[i].item_id == item_id,
    ensures
        ({
            let r = remove_item_spec(pre, ctx, item_id);
            let post = r.0;
            &&& r.1 is Ok
            &&& post.item == pre.item.subrange(0, i) + pre.item.subrange(i + 1, pre.item.len() as int)
            &&& post == (DbView { item: post.item, pantry_event: post.pantry_event, next_event_id: post.next_event_id, ..pre })
            &&& post.pantry_event == pre.pantry_event.push(PantryEventView {
                event_id: pre.next_event_id,
                event_type: "item_removed"@,
                item_id,
                description: "Removed '"@ + pre.item[i].display_name + "'"@,
                actor: ctx.sender,
                created_at: ctx.timestamp,
            })
        }),
{
    let p = item_has_id(item_id);
    assert forall|j: int| 0 <= j < i implies !p(#[trigger] pre.item[j]) by {
        assert(pre.item[j].item_id != pre.item[i].item_id);
    }
    assert(is_first(pre.item, p, i));
    lemma_first_match_found(pre.item, p, i);
    let post = remove_item_spec(pre, ctx, item_id).0;
    assert(post.item =~= pre.item.subrange(0, i) + pre.item.subrange(i + 1, pre.item.len() as int));
}

/// Depleting an item empties exactly its row: quantity 0, status depleted,
/// update time now, every other field and every other row as they were; no
/// other table changes; one `item_depleted` event naming the item is logged.
pub proof fn lemma_deplete_item_changes_only_that_row(pre: DbView, ctx: ReducerContext, item_id: u64, i: int)
    requires
        pre.wf(),
        0 <= i < pre.item.len(),
        pre.item[i].item_id == item_id,
    ensures
        ({
            let r = deplete_item_spec(pre, ctx, item_id);
            let post = r.0;
            &&& r.1 is Ok
            &&& post.item == pre.item.update(
                i,
                ItemView { quantity: 0, status: ItemStatus::Depleted, updated_at: ctx.timestamp, ..pre.item[i] },
            )
            &&& post == (DbView { item: post.item, pantry_event: post.pantry_event, next_event_id: post.next_event_id, ..pre })
            &&& post.pantry_event == pre.pantry_event.push(PantryEventView {
                event_id: pre.next_event_id,
                event_type: "item_depleted"@,
                item_id,
                description: "Depleted '"@ + pre.item[i].display_name + "'"@,
                actor: ctx.sender,
                created_at: ctx.timestamp,
            })
        }),
{
    let p = item_has_id(item_id);
    assert forall|j: int| 0 <= j < i implies !p(#[trigger] pre.item[j]) by {
        assert(pre.item[j].item_id != pre.item[i].item_id);
    }
    assert(is_first(pre.item, p, i));
    lemma_first_match_found(pre.item, p, i);
}

/// Moving an item changes only its location and update time: every other
/// field and row, and every other table, stay as they were; nothing is
/// logged.
pub proof fn lemma_update_item_location_changes_only_that_row(
    pre: DbView,
    ctx: ReducerContext,
    item_id: u64,
    location: Location,
    i: int,
)
    requires
        pre.wf(),
        0 <= i < pre.item.len(),
        pre.item[i].item_id == item_id,
    ensures
        ({
            let r = update_item_location_spec(pre, ctx, item_id, location);
            &&& r.1 is Ok
            &&& r.0 == (DbView {
                item: pre.item.update(i, ItemView { location, updated_at: ctx.timestamp, ..pre.item[i] }),
                ..pre
            })
        }),
{
    let p = item_has_id(item_id);
    assert forall|j: int| 0 <= j < i implies !p(#[trigger] pre.item[j]) by {
        assert(pre.item[j].item_id != pre.item[i].item_id);
    }
    assert(is_first(pre.item, p, i));
    lemma_first_match_found(pre.item, p, i);
}

/// Naming oneself changes only the caller's name, to the trimmed text: the
/// caller's other fields, other users and other tables stay; a name that is
/// blank once trimmed is refused and changes nothing.
pub proof fn lemma_set_user_name_changes_only_callers_name(pre: DbView, ctx: ReducerContext, name: Seq<char>, i: int)
    requires
        pre.wf(),
        0 <= i < pre.user.len(),
        pre.user[i].identity == ctx.sender,
    ensures
        ({
            let r = set_user_name_spec(pre, ctx, name);
            &&& trimmed(name).len() == 0 ==> r.1 is Err && r.0 == pre
            &&& trimmed(name).len() > 0 ==> r.1 is Ok
                && r.0 == (DbView { user: pre.user.update(i, UserView { name: trimmed(name), ..pre.user[i] }), ..pre })
        }),
{
    let p = user_has_identity(ctx.sender);
    assert forall|j: int| 0 <= j < i implies !p(#[trigger] pre.user[j]) by {
        assert(pre.user[j].identity != pre.user[i].identity);
    }
    assert(is_first(pre.user, p, i));
    lemma_first_match_found(pre.user, p, i);
}

/// Matching a receipt line records the item on that line only: every other
/// field and line, and every other table, stay as they were.
pub proof fn lemma_match_receipt_item_changes_only_that_line(
    pre: DbView,
    ctx: ReducerContext,
    receipt_item_id: u64,
    item_id: u64,
    i: int,
)
    requires
        pre.wf(),
        0 <= i < pre.receipt_item.len(),
        pre.receipt_item[i].receipt_item_id == receipt_item_id,
    ensures
        ({
            let r = match_receipt_item_spec(pre, ctx, receipt_item_id, item_id);
            &&& r.1 is Ok
            &&& r.0 == (DbView {
                receipt_item: pre.receipt_item.update(i, ReceiptItemView { matched_item_id: item_id, ..pre.receipt_item[i] }),
                ..pre
            })
        }),
{
    let p = receipt_item_has_id(receipt_item_id);
    assert forall|j: int| 0 <= j < i implies !p(#[trigger] pre.receipt_item[j]) by {
        assert(pre.receipt_item[j].receipt_item_id != pre.receipt_item[i].receipt_item_id);
    }
    assert(is_first(pre.receipt_item, p, i));
    lemma_first_match_found(pre.receipt_item, p, i);
}

/// Removing a shopping-list entry deletes exactly its row, keeps the others
/// in order, changes no other table, and logs one `shopping_list_updated`
/// event naming the entry.
pub proof fn lemma_remove_shopping_item_deletes_only_that_row(
    pre: DbView,
    ctx: ReducerContext,
    shopping_item_id: u64,
    i: int,
)
    requires
        pre.wf(),
        0 <= i < pre.shopping_list_item.len(),
        pre.shopping_list_item[i].shopping_item_id == shopping_item_id,
    ensures
        ({
            let r = remove_shopping_item_spec(pre, ctx, shopping_item_id);
            let post = r.0;
            let n = pre.shopping_list_item.len() as int;
            &&& r.1 is Ok
            &&& post.shopping_list_item == pre.shopping_list_item.subrange(0, i) + pre.shopping_list_item.subrange(i + 1, n)
            &&& post == (DbView {
                shopping_list_item: post.shopping_list_item,
                pantry_event: post.pantry_event,
                next_event_id: post.next_event_id,
                ..pre
            })
            &&& post.pantry_event == pre.pantry_event.push(PantryEventView {
                event_id: pre.next_event_id,
                event_type: "shopping_list_updated"@,
                item_id: shopping_item_id,
                description: "Removed '"@ + pre.shopping_list_item[i].name + "' from shopping list"@,
                actor: ctx.sender,
                created_at: ctx.timestamp,
            })
        }),
{
    let p = shopping_item_has_id(shopping_item_id);
    assert forall|j: int| 0 <= j < i implies !p(#[trigger] pre.shopping_list_item[j]) by {
        assert(pre.shopping_list_item[j].shopping_item_id != pre.shopping_list_item[i].shopping_item_id);
    }
    assert(is_first(pre.shopping_list_item, p, i));
    lemma_first_match_found(pre.shopping_list_item, p, i);
    let post = remove_shopping_item_spec(pre, ctx, shopping_item_id).0;
    assert(post.shopping_list_item =~= pre.shopping_list_item.subrange(0, i)
        + pre.shopping_list_item.subrange(i + 1, pre.shopping_list_item.len() as int));
}

/// What the fold over a recipe's ingredients can do to one item: only its
/// quantity, status and update time change; it changes only if it was in
/// stock and some required ingredient of the recipe bears its name
/// (lowercased) and, when the amounts are not negative, asks no more than
/// the item held; its status either stays or becomes depleted; and with
/// non-negative amounts its quantity never grows.
proof fn lemma_accept_fold_touches_only_supplying_items(
    items: Seq<ItemView>,
    ings: Seq<RecipeIngredientView>,
    recipe_id: u64,
    ts: Timestamp,
    j: int,
)
    requires
        0 <= j < items.len(),
    ensures
        ({
            let out = accept_fold(items, ings, recipe_id, ts).items[j];
            let it = items[j];
            let amounts_ok = forall|k: int| 0 <= k < ings.len() && ingredient_required(#[trigger] ings[k], recipe_id)
                ==> ings[k].quantity >= 0;
            &&& accept_fold(items, ings, recipe_id, ts).items.len() == items.len()
            &&& out == (ItemView { quantity: out.quantity, status: out.status, updated_at: out.updated_at, ..it })
            &&& out.status == it.status || out.status == ItemStatus::Depleted
            &&& out != it ==> it.status != ItemStatus::Depleted && exists|k: int| 0 <= k < ings.len()
                && ingredient_required(#[trigger] ings[k], recipe_id)
                && lowercase(ings[k].ingredient_name) == it.name
                && (amounts_ok ==> it.quantity >= ings[k].quantity)
            &&& amounts_ok ==> out.quantity <= it.quantity
        }),
    decreases ings.len(),
{
    if ings.len() > 0 {
        let init = ings.drop_last();
        lemma_accept_fold_touches_only_supplying_items(items, init, recipe_id, ts, j);
        let st = accept_fold(items, init, recipe_id, ts);
        let ing = ings.last();
        let p = item_can_supply(lowercase(ing.ingredient_name), ing.quantity);
        lemma_first_match_spec(st.items, p);
        let last = ings.len() - 1;
        assert(ings[last] == ing);
        assert forall|k: int| 0 <= k < init.len() implies #[trigger] init[k] == ings[k] by {}
        let fin = accept_fold(items, ings, recipe_id, ts);
        assert(fin == accept_step(st, ing, recipe_id, ts));
        let amounts_ok = forall|k: int| 0 <= k < ings.len() && ingredient_required(#[trigger] ings[k], recipe_id)
            ==> ings[k].quantity >= 0;
        let init_ok = forall|k: int| 0 <= k < init.len() && ingredient_required(#[trigger] init[k], recipe_id)
            ==> init[k].quantity >= 0;
        if amounts_ok {
            assert forall|k: int| 0 <= k < init.len() && ingredient_required(#[trigger] init[k], recipe_id)
                implies init[k].quantity >= 0 by {
                assert(ingredient_required(ings[k], recipe_id));
            }
            assert(init_ok);
        }
        if st.items[j] != items[j] {
            let k0 = choose|k: int| 0 <= k < init.len()
                && ingredient_required(#[trigger] init[k], recipe_id)
                && lowercase(init[k].ingredient_name) == items[j].name
                && (init_ok ==> items[j].quantity >= init[k].quantity);
            assert(ings[k0] == init[k0]);
            assert(ingredient_required(ings[k0], recipe_id));
        }
        if ingredient_required(ing, recipe_id) {
            if let Some(i) = first_match(st.items, p) {
                if i == j && st.items[j] == items[j] {
                    assert(ingredient_required(ings[last], recipe_id));
                }
            }
        }
    }
}

/// Accepting a recipe touches an item only where that recipe asks for it:
/// only the quantity, status and update time of an item can change, and an
/// item changes only if it was in stock and a required ingredient of this
/// recipe (not of any other) bears its name, lowercased, asking (when no
/// amount is negative) no more than the item held. A status either stays or
/// becomes depleted, and with non-negative amounts no quantity grows. The
/// rows themselves, and every table but the items and the log, stay.
pub proof fn lemma_accept_recipe_touches_only_its_ingredients(pre: DbView, ctx: ReducerContext, recipe_id: u64, j: int)
    requires
        0 <= j < pre.item.len(),
    ensures
        ({
            let post = accept_recipe_spec(pre, ctx, recipe_id).0;
            let out = post.item[j];
            let it = pre.item[j];
            let ings = pre.recipe_ingredient;
            let amounts_ok = forall|k: int| 0 <= k < ings.len() && (#[trigger] ings[k]).recipe_id == recipe_id
                && !ings[k].is_optional ==> ings[k].quantity >= 0;
            &&& post == (DbView { item: post.item, pantry_event: post.pantry_event, next_event_id: post.next_event_id, ..pre })
            &&& post.item.len() == pre.item.len()
            &&& out == (ItemView { quantity: out.quantity, status: out.status, updated_at: out.updated_at, ..it })
            &&& out.status == it.status || out.status == ItemStatus::Depleted
            &&& out != it ==> it.status != ItemStatus::Depleted && exists|k: int| 0 <= k < ings.len()
                && (#[trigger] ings[k]).recipe_id == recipe_id && !ings[k].is_optional
                && lowercase(ings[k].ingredient_name) == it.name
                && (amounts_ok ==> it.quantity >= ings[k].quantity)
            &&& amounts_ok ==> out.quantity <= it.quantity
        }),
{
    if first_match(pre.recipe, recipe_has_id(recipe_id)) is Some {
        lemma_accept_fold_touches_only_supplying_items(pre.item, pre.recipe_ingredient, recipe_id, ctx.timestamp, j);
    }
}

/// With one required ingredient (at `k`) the fold is that ingredient's step
/// alone.
proof fn lemma_accept_fold_single_required(
    items: Seq<ItemView>,
    ings: Seq<RecipeIngredientView>,
    recipe_id: u64,
    ts: Timestamp,
    k: int,
)
    requires
        0 <= k < ings.len(),
        forall|m: int| 0 <= m < ings.len() && m != k ==> !ingredient_required(#[trigger] ings[m], recipe_id),
    ensures
        accept_fold(items, ings, recipe_id, ts)
            == accept_step(AcceptState { items, missing: Seq::empty(), deducted: Seq::empty() }, ings[k], recipe_id, ts),
    decreases ings.len(),
{
    let init = ings.drop_last();
    assert forall|m: int| 0 <= m < init.len() implies #[trigger] init[m] == ings[m] by {}
    if k == ings.len() - 1 {
        assert forall|m: int| 0 <= m < init.len() implies !ingredient_required(#[trigger] init[m], recipe_id) by {
            assert(!ingredient_required(ings[m], recipe_id));
        }
        lemma_accept_without_required_ingredients(items, init, recipe_id, ts);
    } else {
        assert forall|m: int| 0 <= m < init.len() && m != k implies !ingredient_required(#[trigger] init[m], recipe_id) by {
            assert(!ingredient_required(ings[m], recipe_id));
        }
        lemma_accept_fold_single_required(items, init, recipe_id, ts, k);
        assert(!ingredient_required(ings[ings.len() - 1], recipe_id));
    }
}

/// A recipe whose only required ingredient is at `k` takes that
/// ingredient's amount from the first item, in table order, that is in
/// stock, bears the ingredient's name lowercased and holds at least the
/// amount: that item keeps what remains, or is depleted with quantity 0 when
/// nothing remains; no other item changes; the log reads
/// "Recipe '<name>' accepted. Deducted: <ingredient> (<amount>)".
pub proof fn lemma_accept_recipe_deducts_from_first_supplier(
    pre: DbView,
    ctx: ReducerContext,
    recipe_id: u64,
    r: int,
    k: int,
    i: int,
)
    requires
        pre.wf(),
        0 <= r < pre.recipe.len(),
        pre.recipe[r].recipe_id == recipe_id,
        0 <= k < pre.recipe_ingredient.len(),
        pre.recipe_ingredient[k].recipe_id == recipe_id,
        !pre.recipe_ingredient[k].is_optional,
        forall|m: int| 0 <= m < pre.recipe_ingredient.len() && m != k
            ==> (#[trigger] pre.recipe_ingredient[m]).recipe_id != recipe_id || pre.recipe_ingredient[m].is_optional,
        0 <= i < pre.item.len(),
        pre.item[i].status != ItemStatus::Depleted,
        pre.item[i].name == lowercase(pre.recipe_ingredient[k].ingredient_name),
        pre.item[i].quantity >= pre.recipe_ingredient[k].quantity,
        forall|j: int| 0 <= j < i ==> !((#[trigger] pre.item[j]).status != ItemStatus::Depleted
            && pre.item[j].name == lowercase(pre.recipe_ingredient[k].ingredient_name)
            && pre.item[j].quantity >= pre.recipe_ingredient[k].quantity),
    ensures
        ({
            let res = accept_recipe_spec(pre, ctx, recipe_id);
            let post = res.0;
            let ing = pre.recipe_ingredient[k];
            let rest = clamp_i64(pre.item[i].quantity - ing.quantity);
            &&& res.1 is Ok
            &&& rest <= 0 ==> post.item == pre.item.update(
                i,
                ItemView { quantity: 0, status: ItemStatus::Depleted, updated_at: ctx.timestamp, ..pre.item[i] },
            )
            &&& rest > 0 ==> post.item == pre.item.update(
                i,
                ItemView { quantity: rest, updated_at: ctx.timestamp, ..pre.item[i] },
            )
            &&& post.pantry_event.last().description == "Recipe '"@ + pre.recipe[r].name + "' accepted. Deducted: "@
                + ing.ingredient_name + " ("@ + milli_text(ing.quantity as int) + ")"@
        }),
{
    let pr = recipe_has_id(recipe_id);
    assert forall|j: int| 0 <= j < r implies !pr(#[trigger] pre.recipe[j]) by {
        assert(pre.recipe[j].recipe_id != pre.recipe[r].recipe_id);
    }
    assert(is_first(pre.recipe, pr, r));
    lemma_first_match_found(pre.recipe, pr, r);
    let ings = pre.recipe_ingredient;
    assert forall|m: int| 0 <= m < ings.len() && m != k implies !ingredient_required(#[trigger] ings[m], recipe_id) by {}
    lemma_accept_fold_single_required(pre.item, ings, recipe_id, ctx.timestamp, k);
    let ing = ings[k];
    let p = item_can_supply(lowercase(ing.ingredient_name), ing.quantity);
    assert forall|j: int| 0 <= j < i implies !p(#[trigger] pre.item[j]) by {}
    assert(is_first(pre.item, p, i));
    lemma_first_match_found(pre.item, p, i);
    let fin = accept_fold(pre.item, ings, recipe_id, ctx.timestamp);
    assert(fin.missing.len() == 0);
    assert(fin.deducted =~= seq![crate::recipes::deducted_entry(ing)]);
    assert(join_text(fin.deducted, ", "@) == crate::recipes::deducted_entry(ing));
}

/// A recipe whose only required ingredient is at `k`, when no item in stock
/// bears the ingredient's name lowercased and holds the amount, changes no
/// item and logs "Recipe '<name>' accepted. Missing: <ingredient>".
pub proof fn lemma_accept_recipe_reports_missing(pre: DbView, ctx: ReducerContext, recipe_id: u64, r: int, k: int)
    requires
        pre.wf(),
        0 <= r < pre.recipe.len(),
        pre.recipe[r].recipe_id == recipe_id,
        0 <= k < pre.recipe_ingredient.len(),
        pre.recipe_ingredient[k].recipe_id == recipe_id,
        !pre.recipe_ingredient[k].is_optional,
        forall|m: int| 0 <= m < pre.recipe_ingredient.len() && m != k
            ==> (#[trigger] pre.recipe_ingredient[m]).recipe_id != recipe_id || pre.recipe_ingredient[m].is_optional,
        forall|j: int| 0 <= j < pre.item.len() ==> !((#[trigger] pre.item[j]).status != ItemStatus::Depleted
            && pre.item[j].name == lowercase(pre.recipe_ingredient[k].ingredient_name)
            && pre.item[j].quantity >= pre.recipe_ingredient[k].quantity),
    ensures
        ({
            let res = accept_recipe_spec(pre, ctx, recipe_id);
            &&& res.1 is Ok
            &&& res.0.item == pre.item
            &&& res.0.pantry_event.last().description == "Recipe '"@ + pre.recipe[r].name + "' accepted. Missing: "@
                + pre.recipe_ingredient[k].ingredient_name
        }),
{
    let pr = recipe_has_id(recipe_id);
    assert forall|j: int| 0 <= j < r implies !pr(#[trigger] pre.recipe[j]) by {
        assert(pre.recipe[j].recipe_id != pre.recipe[r].recipe_id);
    }
    assert(is_first(pre.recipe, pr, r));
    lemma_first_match_found(pre.recipe, pr, r);
    let ings = pre.recipe_ingredient;
    assert forall|m: int| 0 <= m < ings.len() && m != k implies !ingredient_required(#[trigger] ings[m], recipe_id) by {}
    lemma_accept_fold_single_required(pre.item, ings, recipe_id, ctx.timestamp, k);
    let ing = ings[k];
    let p = item_can_supply(lowercase(ing.ingredient_name), ing.quantity);
    assert forall|j: int| 0 <= j < pre.item.len() implies !p(#[trigger] pre.item[j]) by {}
    crate::seqs::lemma_first_match_none(pre.item, p);
    let fin = accept_fold(pre.item, ings, recipe_id, ctx.timestamp);
    assert(fin.missing =~= seq![ing.ingredient_name]);
    assert(join_text(fin.missing, ", "@) == ing.ingredient_name);
}

/// Buying more of a product in stock changes only its row, and in that row
/// only the purchase data: the id, names, unit, location, status, shelf
/// lives, buyer and creation time stay. A non-empty barcode replaces the old
/// one, a positive price replaces the price and its currency, a non-zero
/// receipt replaces the old one; otherwise the old values stay. One
/// `item_added` event for that row reports the new total.
pub proof fn lemma_add_item_merge_changes_only_that_row(
    pre: DbView,
    ctx: ReducerContext,
    name: Seq<char>,
    display_name: Seq<char>,
    quantity: i64,
    unit: Seq<char>,
    location: Location,
    est_expiry_ts: i64,
    unopened_days: i32,
    opened_days: i32,
    price: i64,
    currency: Seq<char>,
    barcode: Seq<char>,
    source_receipt_id: u64,
    i: int,
)
    requires
        quantity > 0,
        lowercase(trimmed(name)).len() > 0,
        0 <= i < pre.item.len(),
        pre.item[i].status != ItemStatus::Depleted,
        pre.item[i].name == lowercase(trimmed(name)),
        forall|j: int| 0 <= j < i ==> !((#[trigger] pre.item[j]).status != ItemStatus::Depleted
            && pre.item[j].name == lowercase(trimmed(name))),
    ensures
        ({
            let r = add_item_spec(
                pre, ctx, name, display_name, quantity, unit, location, est_expiry_ts, unopened_days,
                opened_days, price, currency, barcode, source_receipt_id,
            );
            let post = r.0;
            let o = pre.item[i];
            let m = post.item[i];
            &&& r.1 is Ok
            &&& post == (DbView { item: post.item, pantry_event: post.pantry_event, next_event_id: post.next_event_id, ..pre })
            &&& post.item == pre.item.update(i, m)
            &&& m == (ItemView {
                quantity: m.quantity,
                est_expiry_ts: m.est_expiry_ts,
                updated_at: ctx.timestamp,
                barcode: if barcode.len() > 0 { barcode } else { o.barcode },
                price: if price > 0 { price } else { o.price },
                currency: if price > 0 { currency } else { o.currency },
                source_receipt_id: if source_receipt_id > 0 { source_receipt_id } else { o.source_receipt_id },
                ..o
            })
            &&& post.pantry_event == pre.pantry_event.push(PantryEventView {
                event_id: pre.next_event_id,
                event_type: "item_added"@,
                item_id: o.item_id,
                description: "Merged item '"@ + o.name + "' qty to "@ + milli_text(m.quantity as int),
                actor: ctx.sender,
                created_at: ctx.timestamp,
            })
        }),
{
    let p = item_in_stock_named(lowercase(trimmed(name)));
    assert forall|j: int| 0 <= j < i implies !p(#[trigger] pre.item[j]) by {}
    assert(is_first(pre.item, p, i));
    lemma_first_match_found(pre.item, p, i);
}

/// Buying a product with no in-stock row adds one row at the end, at the
/// next item id, under the trimmed, lowercased name, unopened, with the
/// purchase's data, bought by the caller now; the existing rows stay. One
/// `item_added` event for the new row reports the quantity.
pub proof fn lemma_add_item_new_product_appends_a_row(
    pre: DbView,
    ctx: ReducerContext,
    name: Seq<char>,
    display_name: Seq<char>,
    quantity: i64,
    unit: Seq<char>,
    location: Location,
    est_expiry_ts: i64,
    unopened_days: i32,
    opened_days: i32,
    price: i64,
    currency: Seq<char>,
    barcode: Seq<char>,
    source_receipt_id: u64,
)
    requires
        quantity > 0,
        lowercase(trimmed(name)).len() > 0,
        pre.next_item_id < u64::MAX,
        forall|j: int| 0 <= j < pre.item.len() ==> !((#[trigger] pre.item[j]).status != ItemStatus::Depleted
            && pre.item[j].name == lowercase(trimmed(name))),
    ensures
        ({
            let r = add_item_spec(
                pre, ctx, name, display_name, quantity, unit, location, est_expiry_ts, unopened_days,
                opened_days, price, currency, barcode, source_receipt_id,
            );
            let post = r.0;
            let n = lowercase(trimmed(name));
            &&& r.1 is Ok
            &&& post == (DbView {
                item: post.item,
                next_item_id: post.next_item_id,
                pantry_event: post.pantry_event,
                next_event_id: post.next_event_id,
                ..pre
            })
            &&& post.next_item_id == pre.next_item_id + 1
            &&& post.item == pre.item.push(ItemView {
                item_id: pre.next_item_id,
                name: n,
                display_name,
                barcode,
                quantity,
                unit,
                location,
                status: ItemStatus::Unopened,
                est_expiry_ts,
                unopened_days,
                opened_days,
                price,
                currency,
                source_receipt_id,
                added_by: ctx.sender,
                created_at: ctx.timestamp,
                updated_at: ctx.timestamp,
            })
            &&& post.pantry_event == pre.pantry_event.push(PantryEventView {
                event_id: pre.next_event_id,
                event_type: "item_added"@,
                item_id: pre.next_item_id,
                description: "Added item '"@ + n + "' qty "@ + milli_text(quantity as int),
                actor: ctx.sender,
                created_at: ctx.timestamp,
            })
        }),
{
    let p = item_in_stock_named(lowercase(trimmed(name)));
    assert forall|j: int| 0 <= j < pre.item.len() implies !p(#[trigger] pre.item[j]) by {}
    crate::seqs::lemma_first_match_none(pre.item, p);
}

/// After visiting the first `k` items, the sweep has kept the earlier log
/// and appended, for exactly the promoted items among them, an
/// `item_expiring_soon` event with the item's id and notice.
proof fn lemma_sweep_fold_events(pre: DbView, ctx: ReducerContext, now: int, k: int)
    requires
        0 <= k <= pre.item.len(),
    ensures
        ({
            let ev = sweep_fold(pre, ctx, now, k).pantry_event;
            let n0 = pre.pantry_event.len();
            &&& n0 <= ev.len()
            &&& ev.subrange(0, n0 as int) == pre.pantry_event
            &&& forall|e: int| n0 <= e < ev.len() ==> (#[trigger] ev[e]).event_type == "item_expiring_soon"@
                && exists|j: int| 0 <= j < k && promotes(#[trigger] pre.item[j], now)
                    && ev[e].item_id == pre.item[j].item_id && ev[e].description == expiry_notice(pre.item[j], now)
            &&& forall|j: int| 0 <= j < k && promotes(#[trigger] pre.item[j], now) ==> exists|e: int| n0 <= e < ev.len()
                && (#[trigger] ev[e]).event_type == "item_expiring_soon"@ && ev[e].item_id == pre.item[j].item_id
                && ev[e].description == expiry_notice(pre.item[j], now)
        }),
    decreases k,
{
    if k > 0 {
        lemma_sweep_fold_events(pre, ctx, now, k - 1);
        let st = sweep_fold(pre, ctx, now, k - 1);
        let ev0 = st.pantry_event;
        let ev = sweep_fold(pre, ctx, now, k).pantry_event;
        let n0 = pre.pantry_event.len();
        let it = pre.item[k - 1];
        if promotes(it, now) {
            assert(ev == ev0.push(ev[ev0.len() as int]));
            assert(ev.subrange(0, n0 as int) =~= ev0.subrange(0, n0 as int));
            assert forall|e: int| n0 <= e < ev.len() implies (#[trigger] ev[e]).event_type == "item_expiring_soon"@
                && exists|j: int| 0 <= j < k && promotes(#[trigger] pre.item[j], now)
                    && ev[e].item_id == pre.item[j].item_id && ev[e].description == expiry_notice(pre.item[j], now) by {
                if e < ev0.len() {
                    assert(ev[e] == ev0[e]);
                } else {
                    assert(promotes(pre.item[k - 1], now));
                }
            }
            assert forall|j: int| 0 <= j < k && promotes(#[trigger] pre.item[j], now) implies exists|e: int| n0 <= e < ev.len()
                && (#[trigger] ev[e]).event_type == "item_expiring_soon"@ && ev[e].item_id == pre.item[j].item_id
                && ev[e].description == expiry_notice(pre.item[j], now) by {
                if j < k - 1 {
                    let e0 = choose|e: int| n0 <= e < ev0.len()
                        && (#[trigger] ev0[e]).event_type == "item_expiring_soon"@ && ev0[e].item_id == pre.item[j].item_id
                        && ev0[e].description == expiry_notice(pre.item[j], now);
                    assert(ev[e0] == ev0[e0]);
                } else {
                    let e1 = ev0.len() as int;
                    assert(ev[e1].item_id == pre.item[j].item_id);
                }
            }
        } else {
            assert(ev == ev0);
        }
    }
}

/// The sweep logs exactly the items it flags: it keeps the earlier log and
/// appends only `item_expiring_soon` events, each for an item near expiry,
/// and every item near expiry gets one, with its notice.
pub proof fn lemma_sweep_logs_each_flagged_item(pre: DbView, ctx: ReducerContext)
    ensures
        ({
            let now = unix_seconds(ctx.timestamp);
            let ev = sweep_spec(pre, ctx).pantry_event;
            let n0 = pre.pantry_event.len();
            &&& n0 <= ev.len()
            &&& ev.subrange(0, n0 as int) == pre.pantry_event
            &&& forall|e: int| n0 <= e < ev.len() ==> (#[trigger] ev[e]).event_type == "item_expiring_soon"@
                && exists|j: int| 0 <= j < pre.item.len() && near_expiry(#[trigger] pre.item[j], now)
                    && ev[e].item_id == pre.item[j].item_id && ev[e].description == expiry_notice_text(pre.item[j], now)
            &&& forall|j: int| 0 <= j < pre.item.len() && near_expiry(#[trigger] pre.item[j], now)
                ==> exists|e: int| n0 <= e < ev.len()
                && (#[trigger] ev[e]).event_type == "item_expiring_soon"@ && ev[e].item_id == pre.item[j].item_id
                && ev[e].description == expiry_notice_text(pre.item[j], now)
        }),
{
    let now = unix_seconds(ctx.timestamp);
    lemma_sweep_fold_events(pre, ctx, now, pre.item.len() as int);
    let ev = sweep_spec(pre, ctx).pantry_event;
    let n0 = pre.pantry_event.len();
    assert forall|e: int| n0 <= e < ev.len() implies (#[trigger] ev[e]).event_type == "item_expiring_soon"@
        && exists|j: int| 0 <= j < pre.item.len() && near_expiry(#[trigger] pre.item[j], now)
            && ev[e].item_id == pre.item[j].item_id && ev[e].description == expiry_notice_text(pre.item[j], now) by {
        let j = choose|j: int| 0 <= j < pre.item.len() && promotes(#[trigger] pre.item[j], now)
            && ev[e].item_id == pre.item[j].item_id && ev[e].description == expiry_notice(pre.item[j], now);
        assert(near_expiry(pre.item[j], now));
    }
    assert forall|j: int| 0 <= j < pre.item.len() && near_expiry(#[trigger] pre.item[j], now)
        implies exists|e: int| n0 <= e < ev.len()
        && (#[trigger] ev[e]).event_type == "item_expiring_soon"@ && ev[e].item_id == pre.item[j].item_id
        && ev[e].description == expiry_notice_text(pre.item[j], now) by {
        assert(promotes(pre.item[j], now));
    }
}

/// A caller not yet known is registered once: one active user row named
/// "Anonymous" is added for it at the end, the other users and tables stay,
/// and one `user_joined` event is logged.
pub proof fn lemma_connect_registers_new_user(pre: DbView, ctx: ReducerContext)
    requires
        forall|j: int| 0 <= j < pre.user.len() ==> (#[trigger] pre.user[j]).identity != ctx.sender,
    ensures
        ({
            let post = client_connected_spec(pre, ctx);
            &&& post == (DbView { user: post.user, pantry_event: post.pantry_event, next_event_id: post.next_event_id, ..pre })
            &&& post.user == pre.user.push(UserView { identity: ctx.sender, name: "Anonymous"@, is_active: true })
            &&& post.pantry_event == pre.pantry_event.push(PantryEventView {
                event_id: pre.next_event_id,
                event_type: "user_joined"@,
                item_id: 0,
                description: "New user connected"@,
                actor: ctx.sender,
                created_at: ctx.timestamp,
            })
        }),
{
    let p = user_has_identity(ctx.sender);
    assert forall|j: int| 0 <= j < pre.user.len() implies !p(#[trigger] pre.user[j]) by {}
    crate::seqs::lemma_first_match_none(pre.user, p);
}

/// Subscribing to an endpoint the caller already has reactivates and
/// re-dates that row only: its id, owner and endpoint stay, every other row
/// and table stays, and no row is added.
pub proof fn lemma_resubscribe_refreshes_only_that_row(
    pre: DbView,
    ctx: ReducerContext,
    channel: Seq<char>,
    handle: Seq<char>,
    i: int,
)
    requires
        pre.wf(),
        channel.len() > 0,
        handle.len() > 0,
        0 <= i < pre.digest_subscription.len(),
        pre.digest_subscription[i].identity == ctx.sender,
        pre.digest_subscription[i].channel == channel,
        pre.digest_subscription[i].handle == handle,
    ensures
        ({
            let r = subscribe_digest_spec(pre, ctx, channel, handle);
            &&& r.1 is Ok
            &&& r.0 == (DbView {
                digest_subscription: pre.digest_subscription.update(
                    i,
                    DigestSubscriptionView {
                        is_active: true,
                        subscribed_at: unix_seconds(ctx.timestamp) as i64,
                        ..pre.digest_subscription[i]
                    },
                ),
                ..pre
            })
        }),
{
    let p = subscription_at(ctx.sender, channel, handle);
    assert forall|j: int| 0 <= j < i implies !p(#[trigger] pre.digest_subscription[j]) by {
        if p(pre.digest_subscription[j]) {
            assert(crate::tables::same_endpoint(pre.digest_subscription[j], pre.digest_subscription[i]));
        }
    }
    assert(is_first(pre.digest_subscription, p, i));
    lemma_first_match_found(pre.digest_subscription, p, i);
}

/// Subscribing to a new endpoint adds one active row at the end, at the
/// next subscription id, for the caller and that endpoint, dated now; the
/// other rows and tables stay. A blank channel or handle is refused and
/// changes nothing.
pub proof fn lemma_subscribe_new_endpoint_appends_row(
    pre: DbView,
    ctx: ReducerContext,
    channel: Seq<char>,
    handle: Seq<char>,
)
    requires
        pre.next_subscription_id < u64::MAX,
        forall|j: int| 0 <= j < pre.digest_subscription.len() ==> !((#[trigger] pre.digest_subscription[j]).identity
            == ctx.sender && pre.digest_subscription[j].channel == channel && pre.digest_subscription[j].handle == handle),
    ensures
        ({
            let r = subscribe_digest_spec(pre, ctx, channel, handle);
            &&& channel.len() == 0 || handle.len() == 0 ==> r.1 is Err && r.0 == pre
            &&& channel.len() > 0 && handle.len() > 0 ==> r.1 is Ok && r.0 == (DbView {
                digest_subscription: pre.digest_subscription.push(DigestSubscriptionView {
                    subscription_id: pre.next_subscription_id,
                    identity: ctx.sender,
                    channel,
                    handle,
                    is_active: true,
                    subscribed_at: unix_seconds(ctx.timestamp) as i64,
                }),
                next_subscription_id: (pre.next_subscription_id + 1) as u64,
                ..pre
            })
        }),
{
    let p = subscription_at(ctx.sender, channel, handle);
    assert forall|j: int| 0 <= j < pre.digest_subscription.len() implies !p(#[trigger] pre.digest_subscription[j]) by {}
    crate::seqs::lemma_first_match_none(pre.digest_subscription, p);
}

/// Adding to the shopping list appends one entry under the trimmed,
/// lowercased name, at the next entry id, by the caller now; the other
/// entries and tables stay; one `shopping_list_updated` event is logged. A
/// name that normalises to nothing is refused and changes nothing.
pub proof fn lemma_add_shopping_item_appends_entry(
    pre: DbView,
    ctx: ReducerContext,
    name: Seq<char>,
    quantity: i64,
    unit: Seq<char>,
    is_staple: bool,
    reason: Seq<char>,
)
    requires
        pre.next_shopping_item_id < u64::MAX,
    ensures
        ({
            let r = add_shopping_item_spec(pre, ctx, name, quantity, unit, is_staple, reason);
            let post = r.0;
            let n = lowercase(trimmed(name));
            &&& n.len() == 0 ==> r.1 is Err && post == pre
            &&& n.len() > 0 ==> {
                &&& r.1 is Ok
                &&& post == (DbView {
                    shopping_list_item: post.shopping_list_item,
                    next_shopping_item_id: (pre.next_shopping_item_id + 1) as u64,
                    pantry_event: post.pantry_event,
                    next_event_id: post.next_event_id,
                    ..pre
                })
                &&& post.shopping_list_item == pre.shopping_list_item.push(ShoppingListItemView {
                    shopping_item_id: pre.next_shopping_item_id,
                    name: n,
                    quantity,
                    unit,
                    is_staple,
                    reason,
                    added_by: ctx.sender,
                    created_at: ctx.timestamp,
                })
                &&& post.pantry_event == pre.pantry_event.push(PantryEventView {
                    event_id: pre.next_event_id,
                    event_type: "shopping_list_updated"@,
                    item_id: pre.next_shopping_item_id,
                    description: "Added '"@ + n + "' to shopping list"@,
                    actor: ctx.sender,
                    created_at: ctx.timestamp,
                })
            }
        }),
{
}

/// A receipt line is added only to an existing receipt: it is appended at
/// the next line id, not yet matched to any item (item id 0), and nothing
/// else changes; for a receipt id that no receipt has, the call is refused
/// and changes nothing.
pub proof fn lemma_add_receipt_item_appends_unmatched_line(
    pre: DbView,
    ctx: ReducerContext,
    receipt_id: u64,
    product_name: Seq<char>,
    quantity: i64,
    unit: Seq<char>,
    price: i64,
    currency: Seq<char>,
)
    requires
        pre.next_receipt_item_id < u64::MAX,
    ensures
        ({
            let r = add_receipt_item_spec(pre, ctx, receipt_id, product_name, quantity, unit, price, currency);
            let known = exists|j: int| 0 <= j < pre.receipt.len() && (#[trigger] pre.receipt[j]).receipt_id == receipt_id;
            &&& !known ==> r.1 is Err && r.0 == pre
            &&& known ==> r.1 is Ok && r.0 == (DbView {
                receipt_item: pre.receipt_item.push(ReceiptItemView {
                    receipt_item_id: pre.next_receipt_item_id,
                    receipt_id,
                    product_name,
                    quantity,
                    unit,
                    price,
                    currency,
                    matched_item_id: 0,
                }),
                next_receipt_item_id: (pre.next_receipt_item_id + 1) as u64,
                ..pre
            })
        }),
{
    let p = receipt_has_id(receipt_id);
    lemma_first_match_spec(pre.receipt, p);
    if let Some(i) = first_match(pre.receipt, p) {
        assert(pre.receipt[i].receipt_id == receipt_id);
    } else {
        assert forall|j: int| 0 <= j < pre.receipt.len() implies (#[trigger] pre.receipt[j]).receipt_id != receipt_id by {
            assert(!p(pre.receipt[j]));
        }
    }
}

/// An ingredient is added only to an existing recipe: it is appended at the
/// next ingredient id with the given data, and nothing else changes; for a
/// recipe id that no recipe has, the call is refused and changes nothing.
pub proof fn lemma_add_recipe_ingredient_appends_row(
    pre: DbView,
    ctx: ReducerContext,
    recipe_id: u64,
    ingredient_name: Seq<char>,
    quantity: i64,
    unit: Seq<char>,
    is_optional: bool,
    substitute: Seq<char>,
)
    requires
        pre.next_recipe_ingredient_id < u64::MAX,
    ensures
        ({
            let r = add_recipe_ingredient_spec(pre, ctx, recipe_id, ingredient_name, quantity, unit, is_optional, substitute);
            let known = exists|j: int| 0 <= j < pre.recipe.len() && (#[trigger] pre.recipe[j]).recipe_id == recipe_id;
            &&& !known ==> r.1 is Err && r.0 == pre
            &&& known ==> r.1 is Ok && r.0 == (DbView {
                recipe_ingredient: pre.recipe_ingredient.push(RecipeIngredientView {
                    recipe_ingredient_id: pre.next_recipe_ingredient_id,
                    recipe_id,
                    ingredient_name,
                    quantity,
                    unit,
                    is_optional,
                    substitute,
                }),
                next_recipe_ingredient_id: (pre.next_recipe_ingredient_id + 1) as u64,
                ..pre
            })
        }),
{
    let p = recipe_has_id(recipe_id);
    lemma_first_match_spec(pre.recipe, p);
    if let Some(i) = first_match(pre.recipe, p) {
        assert(pre.recipe[i].recipe_id == recipe_id);
    } else {
        assert forall|j: int| 0 <= j < pre.recipe.len() implies (#[trigger] pre.recipe[j]).recipe_id != recipe_id by {
            assert(!p(pre.recipe[j]));
        }
    }
}

} // verus!
