//! Shopping list reducers.
use vstd::prelude::*;
use crate::events::{log_event, outcome};
use crate::seqs::{find_first, first_match};
use crate::tables::{Database, DbView, ShoppingListItem, ShoppingListItemView, rows};
use crate::text::{concat_text, lowercase, normalize_name, trimmed};
use crate::types::ReducerContext;

verus! {

/// The row has the given shopping item id.
pub open spec fn shopping_item_has_id(shopping_item_id: u64) -> spec_fn(ShoppingListItemView) -> bool {
    |r: ShoppingListItemView| r.shopping_item_id == shopping_item_id
}

/// Position of the first shopping list row with the given id.
pub fn find_shopping_item(rows_: &Vec<ShoppingListItem>, shopping_item_id: u64) -> (r: Option<usize>)
    ensures
        first_match(rows(rows_@), shopping_item_has_id(shopping_item_id)) == match r {
            Some(i) => Some(i as int),
            None => None,
        },
{
    find_first(
        rows_,
        |r: &ShoppingListItem| -> (b: bool) ensures b == (r.shopping_item_id == shopping_item_id) { r.shopping_item_id == shopping_item_id },
        Ghost(shopping_item_has_id(shopping_item_id)),
    )
}

/// The effect and result of `add_shopping_item`.
pub open spec fn add_shopping_item_spec(
    pre: DbView,
    ctx: ReducerContext,
    name: Seq<char>,
    quantity: i64,
    unit: Seq<char>,
    is_staple: bool,
    reason: Seq<char>,
) -> (DbView, Result<(), Seq<char>>) {
    let n = lowercase(trimmed(name));
    if n.len() == 0 {
        (pre, Err("Shopping item name cannot be empty"@))
    } else {
        (
            DbView {
                shopping_list_item: pre.shopping_list_item.push(
                    ShoppingListItemView {
                        shopping_item_id: pre.next_shopping_item_id,
                        name: n,
                        quantity,
                        unit,
                        is_staple,
                        reason,
                        added_by: ctx.sender,
                        created_at: ctx.timestamp,
                    },
                ),
                next_shopping_item_id: (pre.next_shopping_item_id + 1) as u64,
                ..pre
            }.with_event(
                ctx,
                "shopping_list_updated"@,
                pre.next_shopping_item_id,
                "Added '"@ + n + "' to shopping list"@,
            ),
            Ok(()),
        )
    }
}

/// The key sequences have room for what `add_shopping_item` draws when the
/// name is accepted: an entry id and an event id.
pub open spec fn add_shopping_item_fits(pre: DbView, name: Seq<char>) -> bool {
    lowercase(trimmed(name)).len() > 0 ==> pre.next_shopping_item_id < u64::MAX && pre.next_event_id < u64::MAX
}

/// Whether `add_shopping_item` has the key room it needs.
pub fn add_shopping_item_has_room(db: &Database, name: &String) -> (r: bool)
    ensures
        r == add_shopping_item_fits(db@, name@),
{
    let n = normalize_name(name.as_str());
    n.as_str().unicode_len() == 0 || (db.next_shopping_item_id < u64::MAX && db.next_event_id < u64::MAX)
}

/// Whether `remove_shopping_item` has the key room it needs: an event id
/// when the entry exists.
pub fn remove_shopping_item_has_room(db: &Database, shopping_item_id: u64) -> (r: bool)
    ensures
        r == (first_match(db@.shopping_list_item, shopping_item_has_id(shopping_item_id)) is Some
            ==> db.next_event_id < u64::MAX),
{
    find_shopping_item(&db.shopping_list_item, shopping_item_id).is_none() || db.next_event_id < u64::MAX
}

/// Adds an entry (normalised name, quantity in thousandths) to the shopping
/// list and logs it.
pub fn add_shopping_item(
    ctx: &ReducerContext,
    db: &mut Database,
    name: String,
    quantity: i64,
    unit: String,
    is_staple: bool,
    reason: String,
) -> (r: Result<(), String>)
    requires
        add_shopping_item_fits(old(db)@, name@),
    ensures
        final(db)@ == add_shopping_item_spec(old(db)@, *ctx, name@, quantity, unit@, is_staple, reason@).0,
        outcome(r) == add_shopping_item_spec(old(db)@, *ctx, name@, quantity, unit@, is_staple, reason@).1,
        outcome(r) == Err::<(), Seq<char>>("Shopping item name cannot be empty"@) <==> trimmed(name@).len() == 0,
{
    let ghost pre = db@;
    let name = normalize_name(name.as_str());
    if name.as_str().unicode_len() == 0 {
        return Err(String::from_str("Shopping item name cannot be empty"));
    }
    let head = concat_text("Added '", name.as_str());
    let description = concat_text(head.as_str(), "' to shopping list");
    let shopping_item_id = db.next_shopping_item_id;
    let entry = ShoppingListItem {
        shopping_item_id: db.next_shopping_item_id,
        name,
        quantity,
        unit,
        is_staple,
        reason,
        added_by: ctx.sender,
        created_at: ctx.timestamp,
    };
    let ghost ev = entry@;
    db.shopping_list_item.push(entry);
    db.next_shopping_item_id = db.next_shopping_item_id + 1;
    proof {
        assert(rows(db.shopping_list_item@) =~= pre.shopping_list_item.push(ev));
    }
    log_event(ctx, db, "shopping_list_updated", shopping_item_id, description);
    Ok(())
}

/// The effect and result of `remove_shopping_item`.
pub open spec fn remove_shopping_item_spec(
    pre: DbView,
    ctx: ReducerContext,
    shopping_item_id: u64,
) -> (DbView, Result<(), Seq<char>>) {
    match first_match(pre.shopping_list_item, shopping_item_has_id(shopping_item_id)) {
        None => (pre, Err("Shopping item not found"@)),
        Some(i) => (
            DbView { shopping_list_item: pre.shopping_list_item.remove(i), ..pre }.with_event(
                ctx,
                "shopping_list_updated"@,
                shopping_item_id,
                "Removed '"@ + pre.shopping_list_item[i].name + "' from shopping list"@,
            ),
            Ok(()),
        ),
    }
}

/// Removes an entry from the shopping list and logs it.
pub fn remove_shopping_item(
    ctx: &ReducerContext,
    db: &mut Database,
    shopping_item_id: u64,
) -> (r: Result<(), String>)
    requires
        first_match(old(db)@.shopping_list_item, shopping_item_has_id(shopping_item_id)) is Some
            ==> old(db).next_event_id < u64::MAX,
    ensures
        final(db)@ == remove_shopping_item_spec(old(db)@, *ctx, shopping_item_id).0,
        outcome(r) == remove_shopping_item_spec(old(db)@, *ctx, shopping_item_id).1,
{
    let ghost pre = db@;
    match find_shopping_item(&db.shopping_list_item, shopping_item_id) {
        None => Err(String::from_str("Shopping item not found")),
        Some(i) => {
            let entry = db.shopping_list_item.remove(i);
            proof {
                assert(rows(db.shopping_list_item@) =~= pre.shopping_list_item.remove(i as int));
            }
            let head = concat_text("Removed '", entry.name.as_str());
            let description = concat_text(head.as_str(), "' from shopping list");
            log_event(ctx, db, "shopping_list_updated", entry.shopping_item_id, description);
            Ok(())
        },
    }
}

} // verus!
