//! Item reducers: add (merging into an in-stock row of the same name),
//! remove, deplete, change quantity, and move.
use vstd::prelude::*;
use crate::events::{log_event, outcome};
use crate::seqs::{find_first, first_match};
use crate::tables::{Database, DbView, Item, ItemView, rows};
use crate::text::{concat_text, lowercase, milli_string, milli_text, normalize_name, trimmed};
use crate::types::{ItemStatus, Location, ReducerContext};

verus! {

/// The row has the given item id.
pub open spec fn item_has_id(item_id: u64) -> spec_fn(ItemView) -> bool {
    |r: ItemView| r.item_id == item_id
}

/// The row is an in-stock (not depleted) item of the given normalised name.
pub open spec fn item_in_stock_named(name: Seq<char>) -> spec_fn(ItemView) -> bool {
    |r: ItemView| r.name == name && r.status != ItemStatus::Depleted
}

/// `v` clamped to the range of `i64`.
pub open spec fn clamp_i64(v: int) -> i64 {
    if v > i64::MAX {
        i64::MAX
    } else if v < i64::MIN {
        i64::MIN
    } else {
        v as i64
    }
}

/// `a + b`, saturating at the bounds of `i64`.
pub fn saturating_add_i64(a: i64, b: i64) -> (r: i64)
    ensures
        r == clamp_i64(a + b),
{
    let s: i128 = a as i128 + b as i128;
    if s > i64::MAX as i128 {
        i64::MAX
    } else if s < i64::MIN as i128 {
        i64::MIN
    } else {
        s as i64
    }
}

/// `a - b`, saturating at the bounds of `i64`.
pub fn saturating_sub_i64(a: i64, b: i64) -> (r: i64)
    ensures
        r == clamp_i64(a - b),
{
    let s: i128 = a as i128 - b as i128;
    if s > i64::MAX as i128 {
        i64::MAX
    } else if s < i64::MIN as i128 {
        i64::MIN
    } else {
        s as i64
    }
}

/// The expiry kept when merging a purchase into an existing row: the earlier
/// of the two known expiries (0 = unknown).
pub open spec fn merged_expiry(incoming: i64, existing: i64) -> i64 {
    if incoming > 0 && existing == 0 {
        incoming
    } else if existing > 0 && incoming == 0 {
        existing
    } else if incoming > 0 && existing > 0 {
        if incoming <= existing { incoming } else { existing }
    } else {
        0
    }
}

fn merge_expiry(incoming: i64, existing: i64) -> (r: i64)
    ensures
        r == merged_expiry(incoming, existing),
{
    if incoming > 0 && existing == 0 {
        incoming
    } else if existing > 0 && incoming == 0 {
        existing
    } else if incoming > 0 && existing > 0 {
        if incoming <= existing { incoming } else { existing }
    } else {
        0
    }
}

/// Position of the first row with the given id.
pub fn find_item(items: &Vec<Item>, item_id: u64) -> (r: Option<usize>)
    ensures
        first_match(rows(items@), item_has_id(item_id)) == match r {
            Some(i) => Some(i as int),
            None => None,
        },
{
    find_first(items, |it: &Item| -> (b: bool) ensures b == (it.item_id == item_id) { it.item_id == item_id }, Ghost(item_has_id(item_id)))
}

/// Position of the first in-stock row with the given normalised name.
pub fn find_in_stock(items: &Vec<Item>, name: &String) -> (r: Option<usize>)
    ensures
        first_match(rows(items@), item_in_stock_named(name@)) == match r {
            Some(i) => Some(i as int),
            None => None,
        },
{
    find_first(
        items,
        |it: &Item| -> (b: bool) ensures b == (it.name@ == name@ && it.status != ItemStatus::Depleted) { it.name == *name && it.status != ItemStatus::Depleted },
        Ghost(item_in_stock_named(name@)),
    )
}

/// The row that a purchase merges into an existing in-stock row `it`:
/// quantities add (saturating), the earlier known expiry wins, and a
/// non-empty barcode, a positive price (with its currency) and a non-zero
/// receipt replace the old ones.
pub open spec fn merged_item(
    it: ItemView,
    ctx: ReducerContext,
    quantity: i64,
    est_expiry_ts: i64,
    price: i64,
    currency: Seq<char>,
    barcode: Seq<char>,
    source_receipt_id: u64,
) -> ItemView {
    ItemView {
        quantity: clamp_i64(it.quantity + quantity),
        est_expiry_ts: merged_expiry(est_expiry_ts, it.est_expiry_ts),
        updated_at: ctx.timestamp,
        barcode: if barcode.len() > 0 { barcode } else { it.barcode },
        price: if price > 0 { price } else { it.price },
        currency: if price > 0 { currency } else { it.currency },
        source_receipt_id: if source_receipt_id > 0 { source_receipt_id } else { it.source_receipt_id },
        ..it
    }
}

/// The effect and result of `add_item`.
pub open spec fn add_item_spec(
    pre: DbView,
    ctx: ReducerContext,
    name: Seq<char>,
    display_name: Seq<char>,
    quantity: i64,
    unit: Seq<char>,
    location: Location,
    est_expiry_ts: i64,
    unopened_days: i32,
    opened_days: i32,
    price: i64,
    currency: Seq<char>,
    barcode: Seq<char>,
    source_receipt_id: u64,
) -> (DbView, Result<(), Seq<char>>) {
    let n = lowercase(trimmed(name));
    if n.len() == 0 {
        (pre, Err("Item name cannot be empty"@))
    } else if quantity <= 0 {
        (pre, Err("Quantity must be > 0"@))
    } else {
        match first_match(pre.item, item_in_stock_named(n)) {
            Some(i) => {
                let m = merged_item(pre.item[i], ctx, quantity, est_expiry_ts, price, currency, barcode, source_receipt_id);
                (
                    DbView { item: pre.item.update(i, m), ..pre }.with_event(
                        ctx,
                        "item_added"@,
                        m.item_id,
                        "Merged item '"@ + n + "' qty to "@ + milli_text(m.quantity as int),
                    ),
                    Ok(()),
                )
            },
            None => (
                DbView {
                    item: pre.item.push(
                        ItemView {
                            item_id: pre.next_item_id,
                            name: n,
                            display_name,
                            barcode,
                            quantity,
                            unit,
                            location,
                            status: ItemStatus::Unopened,
                            est_expiry_ts,
                            unopened_days,
                            opened_days,
                            price,
                            currency,
                            source_receipt_id,
                            added_by: ctx.sender,
                            created_at: ctx.timestamp,
                            updated_at: ctx.timestamp,
                        },
                    ),
                    next_item_id: (pre.next_item_id + 1) as u64,
                    ..pre
                }.with_event(
                    ctx,
                    "item_added"@,
                    pre.next_item_id,
                    "Added item '"@ + n + "' qty "@ + milli_text(quantity as int),
                ),
                Ok(()),
            ),
        }
    }
}

/// The key sequences have room for what `add_item` draws: an event id for
/// any accepted purchase, and an item id when it creates a row.
pub open spec fn add_item_fits(pre: DbView, name: Seq<char>, quantity: i64) -> bool {
    let n = lowercase(trimmed(name));
    n.len() > 0 && quantity > 0 ==> {
        &&& pre.next_event_id < u64::MAX
        &&& first_match(pre.item, item_in_stock_named(n)) is None ==> pre.next_item_id < u64::MAX
    }
}

/// Whether `add_item` has the key room it needs (see [`add_item_fits`]).
pub fn add_item_has_room(db: &Database, name: &String, quantity: i64) -> (r: bool)
    ensures
        r == add_item_fits(db@, name@, quantity),
{
    let n = normalize_name(name.as_str());
    if n.as_str().unicode_len() == 0 || quantity <= 0 {
        return true;
    }
    db.next_event_id < u64::MAX && (find_in_stock(&db.item, &n).is_some() || db.next_item_id < u64::MAX)
}

/// Adds a purchase to the pantry. The name is normalised (trimmed, then
/// lowercased); if an in-stock item of that name exists the purchase merges
/// into it, otherwise a new unopened item is created. Either way an
/// `item_added` event is logged.
pub fn add_item(
    ctx: &ReducerContext,
    db: &mut Database,
    name: String,
    display_name: String,
    quantity: i64,
    unit: String,
    location: Location,
    est_expiry_ts: i64,
    unopened_days: i32,
    opened_days: i32,
    price: i64,
    currency: String,
    barcode: String,
    source_receipt_id: u64,
) -> (r: Result<(), String>)
    requires
        add_item_fits(old(db)@, name@, quantity),
    ensures
        final(db)@ == add_item_spec(
            old(db)@, *ctx, name@, display_name@, quantity, unit@, location, est_expiry_ts,
            unopened_days, opened_days, price, currency@, barcode@, source_receipt_id,
        ).0,
        outcome(r) == add_item_spec(
            old(db)@, *ctx, name@, display_name@, quantity, unit@, location, est_expiry_ts,
            unopened_days, opened_days, price, currency@, barcode@, source_receipt_id,
        ).1,
        outcome(r) == Err::<(), Seq<char>>("Item name cannot be empty"@) <==> trimmed(name@).len() == 0,
{
    let ghost pre = db@;
    let name = normalize_name(name.as_str());
    if name.as_str().unicode_len() == 0 {
        return Err(String::from_str("Item name cannot be empty"));
    }
    if quantity <= 0 {
        proof {
            reveal_strlit("Quantity must be > 0");
            reveal_strlit("Item name cannot be empty");
            assert("Quantity must be > 0"@.len() != "Item name cannot be empty"@.len());
        }
        return Err(String::from_str("Quantity must be > 0"));
    }
    match find_in_stock(&db.item, &name) {
        Some(i) => {
            let ghost it = pre.item[i as int];
            let ghost merged = merged_item(
                it, *ctx, quantity, est_expiry_ts, price, currency@, barcode@, source_receipt_id,
            );
            let new_qty = saturating_add_i64(db.item[i].quantity, quantity);
            let new_expiry = merge_expiry(est_expiry_ts, db.item[i].est_expiry_ts);
            db.item[i].quantity = new_qty;
            db.item[i].est_expiry_ts = new_expiry;
            db.item[i].updated_at = ctx.timestamp;
            if barcode.as_str().unicode_len() > 0 {
                db.item[i].barcode = barcode;
            }
            if price > 0 {
                db.item[i].price = price;
                db.item[i].currency = currency;
            }
            if source_receipt_id > 0 {
                db.item[i].source_receipt_id = source_receipt_id;
            }
            proof {
                assert(db.item@[i as int]@ == merged);
                assert(rows(db.item@) =~= pre.item.update(i as int, merged));
                assert(db@ =~= DbView { item: pre.item.update(i as int, merged), ..pre });
            }
            let item_id = db.item[i].item_id;
            let head = concat_text("Merged item '", name.as_str());
            let head = concat_text(head.as_str(), "' qty to ");
            let amount = milli_string(new_qty);
            let description = concat_text(head.as_str(), amount.as_str());
            log_event(ctx, db, "item_added", item_id, description);
        },
        None => {
            let ghost n = name@;
            let head = concat_text("Added item '", name.as_str());
            let head = concat_text(head.as_str(), "' qty ");
            let amount = milli_string(quantity);
            let description = concat_text(head.as_str(), amount.as_str());
            let item_id = db.next_item_id;
            let item = Item {
                item_id: db.next_item_id,
                name,
                display_name,
                barcode,
                quantity,
                unit,
                location,
                status: ItemStatus::Unopened,
                est_expiry_ts,
                unopened_days,
                opened_days,
                price,
                currency,
                source_receipt_id,
                added_by: ctx.sender,
                created_at: ctx.timestamp,
                updated_at: ctx.timestamp,
            };
            let ghost iv = item@;
            db.item.push(item);
            db.next_item_id = db.next_item_id + 1;
            proof {
                assert(rows(db.item@) =~= pre.item.push(iv));
            }
            log_event(ctx, db, "item_added", item_id, description);
        },
    }
    Ok(())
}

/// The effect and result of `remove_item`.
pub open spec fn remove_item_spec(pre: DbView, ctx: ReducerContext, item_id: u64) -> (DbView, Result<(), Seq<char>>) {
    match first_match(pre.item, item_has_id(item_id)) {
        None => (pre, Err("Item not found"@)),
        Some(i) => (
            DbView { item: pre.item.remove(i), ..pre }.with_event(
                ctx,
                "item_removed"@,
                item_id,
                "Removed '"@ + pre.item[i].display_name + "'"@,
            ),
            Ok(()),
        ),
    }
}

/// The event sequence has room whenever the item exists (an event is then
/// logged); removing, depleting and updating an item all draw on it so.
pub open spec fn item_event_fits(pre: DbView, item_id: u64) -> bool {
    first_match(pre.item, item_has_id(item_id)) is Some ==> pre.next_event_id < u64::MAX
}

/// Whether an item reducer that logs on success has the key room it needs
/// (see [`item_event_fits`]).
pub fn item_event_has_room(db: &Database, item_id: u64) -> (r: bool)
    ensures
        r == item_event_fits(db@, item_id),
{
    find_item(&db.item, item_id).is_none() || db.next_event_id < u64::MAX
}

/// Deletes an item and logs its removal.
pub fn remove_item(ctx: &ReducerContext, db: &mut Database, item_id: u64) -> (r: Result<(), String>)
    requires
        item_event_fits(old(db)@, item_id),
    ensures
        final(db)@ == remove_item_spec(old(db)@, *ctx, item_id).0,
        outcome(r) == remove_item_spec(old(db)@, *ctx, item_id).1,
{
    let ghost pre = db@;
    match find_item(&db.item, item_id) {
        None => Err(String::from_str("Item not found")),
        Some(i) => {
            let item = db.item.remove(i);
            proof {
                assert(rows(db.item@) =~= pre.item.remove(i as int));
            }
            let head = concat_text("Removed '", item.display_name.as_str());
            let description = concat_text(head.as_str(), "'");
            log_event(ctx, db, "item_removed", item_id, description);
            Ok(())
        },
    }
}

/// The effect and result of `deplete_item`.
pub open spec fn deplete_item_spec(pre: DbView, ctx: ReducerContext, item_id: u64) -> (DbView, Result<(), Seq<char>>) {
    match first_match(pre.item, item_has_id(item_id)) {
        None => (pre, Err("Item not found"@)),
        Some(i) => (
            DbView {
                item: pre.item.update(
                    i,
                    ItemView { quantity: 0, status: ItemStatus::Depleted, updated_at: ctx.timestamp, ..pre.item[i] },
                ),
                ..pre
            }.with_event(ctx, "item_depleted"@, item_id, "Depleted '"@ + pre.item[i].display_name + "'"@),
            Ok(()),
        ),
    }
}

/// Marks an item as used up: quantity 0, status depleted; logs it.
pub fn deplete_item(ctx: &ReducerContext, db: &mut Database, item_id: u64) -> (r: Result<(), String>)
    requires
        item_event_fits(old(db)@, item_id),
    ensures
        final(db)@ == deplete_item_spec(old(db)@, *ctx, item_id).0,
        outcome(r) == deplete_item_spec(old(db)@, *ctx, item_id).1,
{
    let ghost pre = db@;
    match find_item(&db.item, item_id) {
        None => Err(String::from_str("Item not found")),
        Some(i) => {
            let head = concat_text("Depleted '", db.item[i].display_name.as_str());
            let description = concat_text(head.as_str(), "'");
            db.item[i].quantity = 0;
            db.item[i].status = ItemStatus::Depleted;
            db.item[i].updated_at = ctx.timestamp;
            proof {
                let nv = ItemView {
                    quantity: 0,
                    status: ItemStatus::Depleted,
                    updated_at: ctx.timestamp,
                    ..pre.item[i as int]
                };
                assert(rows(db.item@) =~= pre.item.update(i as int, nv));
            }
            log_event(ctx, db, "item_depleted", item_id, description);
            Ok(())
        },
    }
}

/// The status an item takes when its quantity is set to `new_quantity`:
/// depleted exactly at 0; a depleted item given a quantity is back in stock,
/// unopened; an unopened item with a known opened shelf life is opened on
/// first use; otherwise unchanged.
pub open spec fn status_after_quantity(it: ItemView, new_quantity: i64) -> ItemStatus {
    if new_quantity == 0 {
        ItemStatus::Depleted
    } else if it.status == ItemStatus::Depleted {
        ItemStatus::Unopened
    } else if it.status == ItemStatus::Unopened && it.opened_days > 0 {
        ItemStatus::Opened
    } else {
        it.status
    }
}

/// The effect and result of `update_item_quantity`.
pub open spec fn update_item_quantity_spec(
    pre: DbView,
    ctx: ReducerContext,
    item_id: u64,
    new_quantity: i64,
) -> (DbView, Result<(), Seq<char>>) {
    match first_match(pre.item, item_has_id(item_id)) {
        None => (pre, Err("Item not found"@)),
        Some(i) => if new_quantity < 0 {
            (pre, Err("Quantity cannot be negative"@))
        } else {
            let it = pre.item[i];
            (
                DbView {
                    item: pre.item.update(
                        i,
                        ItemView {
                            quantity: new_quantity,
                            status: status_after_quantity(it, new_quantity),
                            updated_at: ctx.timestamp,
                            ..it
                        },
                    ),
                    ..pre
                }.with_event(
                    ctx,
                    "item_quantity_changed"@,
                    item_id,
                    "Updated '"@ + it.display_name + "' to "@ + milli_text(new_quantity as int),
                ),
                Ok(()),
            )
        },
    }
}

/// Sets an item's quantity (in thousandths), adjusting its status, and logs
/// it. A negative quantity is refused and draws no event id.
pub fn update_item_quantity(
    ctx: &ReducerContext,
    db: &mut Database,
    item_id: u64,
    new_quantity: i64,
) -> (r: Result<(), String>)
    requires
        new_quantity >= 0 ==> item_event_fits(old(db)@, item_id),
    ensures
        final(db)@ == update_item_quantity_spec(old(db)@, *ctx, item_id, new_quantity).0,
        outcome(r) == update_item_quantity_spec(old(db)@, *ctx, item_id, new_quantity).1,
{
    let ghost pre = db@;
    match find_item(&db.item, item_id) {
        None => Err(String::from_str("Item not found")),
        Some(i) => {
            if new_quantity < 0 {
                return Err(String::from_str("Quantity cannot be negative"));
            }
            let new_status = if new_quantity == 0 {
                ItemStatus::Depleted
            } else if db.item[i].status == ItemStatus::Depleted {
                ItemStatus::Unopened
            } else if db.item[i].status == ItemStatus::Unopened && db.item[i].opened_days > 0 {
                ItemStatus::Opened
            } else {
                db.item[i].status
            };
            let head = concat_text("Updated '", db.item[i].display_name.as_str());
            let head = concat_text(head.as_str(), "' to ");
            let amount = milli_string(new_quantity);
            let description = concat_text(head.as_str(), amount.as_str());
            db.item[i].quantity = new_quantity;
            db.item[i].status = new_status;
            db.item[i].updated_at = ctx.timestamp;
            proof {
                let it = pre.item[i as int];
                let nv = ItemView {
                    quantity: new_quantity,
                    status: status_after_quantity(it, new_quantity),
                    updated_at: ctx.timestamp,
                    ..it
                };
                assert(rows(db.item@) =~= pre.item.update(i as int, nv));
            }
            log_event(ctx, db, "item_quantity_changed", item_id, description);
            Ok(())
        },
    }
}

/// The effect and result of `update_item_location`.
pub open spec fn update_item_location_spec(
    pre: DbView,
    ctx: ReducerContext,
    item_id: u64,
    location: Location,
) -> (DbView, Result<(), Seq<char>>) {
    match first_match(pre.item, item_has_id(item_id)) {
        None => (pre, Err("Item not found"@)),
        Some(i) => (
            DbView {
                item: pre.item.update(i, ItemView { location, updated_at: ctx.timestamp, ..pre.item[i] }),
                ..pre
            },
            Ok(()),
        ),
    }
}

/// Moves an item to another storage location.
pub fn update_item_location(
    ctx: &ReducerContext,
    db: &mut Database,
    item_id: u64,
    location: Location,
) -> (r: Result<(), String>)
    ensures
        final(db)@ == update_item_location_spec(old(db)@, *ctx, item_id, location).0,
        outcome(r) == update_item_location_spec(old(db)@, *ctx, item_id, location).1,
{
    let ghost pre = db@;
    match find_item(&db.item, item_id) {
        None => Err(String::from_str("Item not found")),
        Some(i) => {
            db.item[i].location = location;
            db.item[i].updated_at = ctx.timestamp;
            proof {
                let nv = ItemView { location, updated_at: ctx.timestamp, ..pre.item[i as int] };
                assert(rows(db.item@) =~= pre.item.update(i as int, nv));
            }
            Ok(())
        },
    }
}

} // verus!
