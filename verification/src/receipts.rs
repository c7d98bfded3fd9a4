//! Receipt reducers: ingest a receipt, add its lines, match a line to an item.
use vstd::prelude::*;
use crate::events::{log_event, outcome};
use crate::seqs::{find_first, first_match};
use crate::tables::{Database, DbView, Receipt, ReceiptItem, ReceiptItemView, ReceiptView, rows};
use crate::text::{concat_text, decimal_text, u64_text};
use crate::types::ReducerContext;

verus! {

/// The row has the given receipt id.
pub open spec fn receipt_has_id(receipt_id: u64) -> spec_fn(ReceiptView) -> bool {
    |r: ReceiptView| r.receipt_id == receipt_id
}

/// The row has the given receipt line id.
pub open spec fn receipt_item_has_id(receipt_item_id: u64) -> spec_fn(ReceiptItemView) -> bool {
    |r: ReceiptItemView| r.receipt_item_id == receipt_item_id
}

/// Position of the first receipt with the given id.
pub fn find_receipt(receipts: &Vec<Receipt>, receipt_id: u64) -> (r: Option<usize>)
    ensures
        first_match(rows(receipts@), receipt_has_id(receipt_id)) == match r {
            Some(i) => Some(i as int),
            None => None,
        },
{
    find_first(
        receipts,
        |r: &Receipt| -> (b: bool) ensures b == (r.receipt_id == receipt_id) { r.receipt_id == receipt_id },
        Ghost(receipt_has_id(receipt_id)),
    )
}

/// Position of the first receipt line with the given id.
pub fn find_receipt_item(lines: &Vec<ReceiptItem>, receipt_item_id: u64) -> (r: Option<usize>)
    ensures
        first_match(rows(lines@), receipt_item_has_id(receipt_item_id)) == match r {
            Some(i) => Some(i as int),
            None => None,
        },
{
    find_first(
        lines,
        |r: &ReceiptItem| -> (b: bool) ensures b == (r.receipt_item_id == receipt_item_id) { r.receipt_item_id == receipt_item_id },
        Ghost(receipt_item_has_id(receipt_item_id)),
    )
}

/// The effect of `add_receipt`: a new receipt row at the next receipt id,
/// and an audit event naming the store.
pub open spec fn add_receipt_spec(
    pre: DbView,
    ctx: ReducerContext,
    store_name: Seq<char>,
    purchased_at: i64,
    total: i64,
    tax: i64,
    currency: Seq<char>,
    raw_ocr_text: Seq<char>,
    image_url: Seq<char>,
) -> DbView {
    DbView {
        receipt: pre.receipt.push(
            ReceiptView {
                receipt_id: pre.next_receipt_id,
                store_name,
                purchased_at,
                total,
                tax,
                currency,
                raw_ocr_text,
                image_url,
                added_by: ctx.sender,
                created_at: ctx.timestamp,
            },
        ),
        next_receipt_id: (pre.next_receipt_id + 1) as u64,
        ..pre
    }.with_event(ctx, "receipt_ingested"@, pre.next_receipt_id, "Ingested receipt from "@ + store_name)
}

/// Stores a parsed receipt (amounts in thousandths) and logs its ingestion.
pub fn add_receipt(
    ctx: &ReducerContext,
    db: &mut Database,
    store_name: String,
    purchased_at: i64,
    total: i64,
    tax: i64,
    currency: String,
    raw_ocr_text: String,
    image_url: String,
) -> (r: Result<(), String>)
    requires
        old(db).next_receipt_id < u64::MAX,
        old(db).next_event_id < u64::MAX,
    ensures
        r is Ok,
        final(db)@ == add_receipt_spec(
            old(db)@, *ctx, store_name@, purchased_at, total, tax, currency@, raw_ocr_text@, image_url@,
        ),
{
    let ghost pre = db@;
    let receipt_id = db.next_receipt_id;
    let description = concat_text("Ingested receipt from ", store_name.as_str());
    let receipt = Receipt {
        receipt_id,
        store_name,
        purchased_at,
        total,
        tax,
        currency,
        raw_ocr_text,
        image_url,
        added_by: ctx.sender,
        created_at: ctx.timestamp,
    };
    let ghost rv = receipt@;
    db.receipt.push(receipt);
    db.next_receipt_id = db.next_receipt_id + 1;
    proof {
        assert(rows(db.receipt@) =~= pre.receipt.push(rv));
    }
    log_event(ctx, db, "receipt_ingested", receipt_id, description);
    Ok(())
}

/// The effect and result of `add_receipt_item`.
pub open spec fn add_receipt_item_spec(
    pre: DbView,
    ctx: ReducerContext,
    receipt_id: u64,
    product_name: Seq<char>,
    quantity: i64,
    unit: Seq<char>,
    price: i64,
    currency: Seq<char>,
) -> (DbView, Result<(), Seq<char>>) {
    if first_match(pre.receipt, receipt_has_id(receipt_id)) is None {
        (pre, Err("Receipt "@ + decimal_text(receipt_id as nat) + " not found"@))
    } else {
        (
            DbView {
                receipt_item: pre.receipt_item.push(
                    ReceiptItemView {
                        receipt_item_id: pre.next_receipt_item_id,
                        receipt_id,
                        product_name,
                        quantity,
                        unit,
                        price,
                        currency,
                        matched_item_id: 0,
                    },
                ),
                next_receipt_item_id: (pre.next_receipt_item_id + 1) as u64,
                ..pre
            },
            Ok(()),
        )
    }
}

/// Whether `add_receipt_item` has the key room it needs: a line id when the
/// receipt exists.
pub fn add_receipt_item_has_room(db: &Database, receipt_id: u64) -> (r: bool)
    ensures
        r == (first_match(db@.receipt, receipt_has_id(receipt_id)) is Some ==> db.next_receipt_item_id < u64::MAX),
{
    find_receipt(&db.receipt, receipt_id).is_none() || db.next_receipt_item_id < u64::MAX
}

/// Adds an unmatched line to an existing receipt.
pub fn add_receipt_item(
    ctx: &ReducerContext,
    db: &mut Database,
    receipt_id: u64,
    product_name: String,
    quantity: i64,
    unit: String,
    price: i64,
    currency: String,
) -> (r: Result<(), String>)
    requires
        first_match(old(db)@.receipt, receipt_has_id(receipt_id)) is Some ==> old(db).next_receipt_item_id < u64::MAX,
    ensures
        final(db)@ == add_receipt_item_spec(old(db)@, *ctx, receipt_id, product_name@, quantity, unit@, price, currency@).0,
        outcome(r) == add_receipt_item_spec(old(db)@, *ctx, receipt_id, product_name@, quantity, unit@, price, currency@).1,
{
    let ghost pre = db@;
    if find_receipt(&db.receipt, receipt_id).is_none() {
        let digits = u64_text(receipt_id);
        let head = concat_text("Receipt ", digits.as_str());
        return Err(concat_text(head.as_str(), " not found"));
    }
    let line = ReceiptItem {
        receipt_item_id: db.next_receipt_item_id,
        receipt_id,
        product_name,
        quantity,
        unit,
        price,
        currency,
        matched_item_id: 0,
    };
    let ghost lv = line@;
    db.receipt_item.push(line);
    db.next_receipt_item_id = db.next_receipt_item_id + 1;
    proof {
        assert(rows(db.receipt_item@) =~= pre.receipt_item.push(lv));
    }
    Ok(())
}

/// The effect and result of `match_receipt_item`.
pub open spec fn match_receipt_item_spec(
    pre: DbView,
    ctx: ReducerContext,
    receipt_item_id: u64,
    item_id: u64,
) -> (DbView, Result<(), Seq<char>>) {
    match first_match(pre.receipt_item, receipt_item_has_id(receipt_item_id)) {
        None => (pre, Err("Receipt item not found"@)),
        Some(i) => (
            DbView {
                receipt_item: pre.receipt_item.update(
                    i,
                    ReceiptItemView { matched_item_id: item_id, ..pre.receipt_item[i] },
                ),
                ..pre
            },
            Ok(()),
        ),
    }
}

/// Links a receipt line to the item it was matched to.
pub fn match_receipt_item(
    ctx: &ReducerContext,
    db: &mut Database,
    receipt_item_id: u64,
    item_id: u64,
) -> (r: Result<(), String>)
    ensures
        final(db)@ == match_receipt_item_spec(old(db)@, *ctx, receipt_item_id, item_id).0,
        outcome(r) == match_receipt_item_spec(old(db)@, *ctx, receipt_item_id, item_id).1,
{
    let ghost pre = db@;
    match find_receipt_item(&db.receipt_item, receipt_item_id) {
        None => Err(String::from_str("Receipt item not found")),
        Some(i) => {
            db.receipt_item[i].matched_item_id = item_id;
            proof {
                assert(rows(db.receipt_item@) =~= pre.receipt_item.update(
                    i as int,
                    ReceiptItemView { matched_item_id: item_id, ..pre.receipt_item[i as int] },
                ));
            }
            Ok(())
        },
    }
}

} // verus!
