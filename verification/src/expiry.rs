//! The expiry sweep: arming its repeating timer, and promoting items that are
//! about to expire (or have expired) to `ExpiringSoon`.
use vstd::prelude::*;
use crate::events::{log_event, now_ts, unix_seconds};
use crate::tables::{Database, DbView, ExpirySweepSchedule, ItemView, rows};
use crate::text::{concat_text, decimal_text, u64_text};
use crate::types::{ItemStatus, ReducerContext, ScheduleAt, TimeDuration};

verus! {

/// How far ahead of expiry an item is flagged "expiring soon": three days,
/// in seconds.
pub const EXPIRY_WARN_SECS: i64 = 259_200;

/// The sweep interval armed by `init`: thirty minutes, in microseconds.
pub const SWEEP_INTERVAL_MICROS: i64 = 1_800_000_000;

/// The id of the repeating interval timer; non-zero ids are one-shot timers.
pub const REPEATING_TIMER_ID: u64 = 0;

/// The repeating timer that `init` arms when none is armed.
pub open spec fn sweep_timer() -> ExpirySweepSchedule {
    ExpirySweepSchedule {
        scheduled_id: REPEATING_TIMER_ID,
        scheduled_at: ScheduleAt::Interval(TimeDuration { micros: SWEEP_INTERVAL_MICROS }),
    }
}

/// The effect of `init`: arm the repeating sweep timer (id 0) unless a timer
/// is armed already.
pub open spec fn init_spec(pre: DbView, ctx: ReducerContext) -> DbView {
    if pre.expiry_sweep_schedule.len() == 0 {
        DbView { expiry_sweep_schedule: seq![sweep_timer()], ..pre }
    } else {
        pre
    }
}

/// Module start-up: arms the thirty-minute expiry sweep, once.
pub fn init(ctx: &ReducerContext, db: &mut Database)
    ensures
        final(db)@ == init_spec(old(db)@, *ctx),
{
    let ghost pre = db@;
    if db.expiry_sweep_schedule.len() == 0 {
        let timer = ExpirySweepSchedule {
            scheduled_id: REPEATING_TIMER_ID,
            scheduled_at: ScheduleAt::Interval(TimeDuration { micros: SWEEP_INTERVAL_MICROS }),
        };
        db.expiry_sweep_schedule.push(timer);
        proof {
            assert(rows(db.expiry_sweep_schedule@) =~= seq![sweep_timer()]);
        }
    }
}

/// The sweep promotes the item at time `now` (Unix seconds): it is in stock,
/// has a known expiry, is unopened or opened, and expires within the warning
/// window (or already has).
pub open spec fn promotes(it: ItemView, now: int) -> bool {
    &&& it.quantity > 0
    &&& it.est_expiry_ts > 0
    &&& it.status.rank() < ItemStatus::ExpiringSoon.rank()
    &&& it.est_expiry_ts - now <= EXPIRY_WARN_SECS
}

/// The audit text of a promotion.
pub open spec fn expiry_notice(it: ItemView, now: int) -> Seq<char> {
    let secs = it.est_expiry_ts - now;
    if secs <= 0 {
        "'"@ + it.display_name + "' has passed its estimated expiry"@
    } else {
        "'"@ + it.display_name + "' expires in ~"@ + decimal_text((secs / 86_400) as nat) + " day(s)"@
    }
}

/// The state after the sweep has visited the first `k` items.
pub open spec fn sweep_fold(pre: DbView, ctx: ReducerContext, now: int, k: int) -> DbView
    decreases k,
{
    if k <= 0 {
        pre
    } else {
        let st = sweep_fold(pre, ctx, now, k - 1);
        let it = pre.item[k - 1];
        if promotes(it, now) {
            DbView {
                item: st.item.update(k - 1, ItemView { status: ItemStatus::ExpiringSoon, updated_at: ctx.timestamp, ..it }),
                ..st
            }.with_event(ctx, "item_expiring_soon"@, it.item_id, expiry_notice(it, now))
        } else {
            st
        }
    }
}

/// The effect of `sweep_expiring_items`: every item is visited once, in
/// table order.
pub open spec fn sweep_spec(pre: DbView, ctx: ReducerContext) -> DbView {
    sweep_fold(pre, ctx, unix_seconds(ctx.timestamp), pre.item.len() as int)
}

/// How many of the first `k` items the sweep promotes at time `now`.
pub open spec fn promoted_count(items: Seq<ItemView>, now: int, k: int) -> nat
    decreases k,
{
    if k <= 0 {
        0
    } else {
        promoted_count(items, now, k - 1) + if promotes(items[k - 1], now) { 1nat } else { 0nat }
    }
}

/// How many audit events a sweep at the context's time logs.
pub open spec fn sweep_event_count(pre: DbView, ctx: ReducerContext) -> nat {
    promoted_count(pre.item, unix_seconds(ctx.timestamp), pre.item.len() as int)
}

/// More items never means fewer promotions.
pub proof fn lemma_promoted_count_monotonic(items: Seq<ItemView>, now: int, j: int, k: int)
    requires
        j <= k,
    ensures
        promoted_count(items, now, j) <= promoted_count(items, now, k),
    decreases k - j,
{
    if j < k {
        lemma_promoted_count_monotonic(items, now, j, k - 1);
    }
}

/// The shape of the sweep's state after `k` items: only item statuses and
/// timestamps and the audit log change, unvisited items are untouched, and
/// one event is logged per promotion.
pub proof fn lemma_sweep_fold_shape(pre: DbView, ctx: ReducerContext, now: int, k: int)
    requires
        0 <= k <= pre.item.len(),
        pre.next_event_id + promoted_count(pre.item, now, pre.item.len() as int) <= u64::MAX,
    ensures
        ({
            let st = sweep_fold(pre, ctx, now, k);
            &&& st.item.len() == pre.item.len()
            &&& forall|j: int| k <= j < pre.item.len() ==> st.item[j] == pre.item[j]
            &&& st.next_event_id == pre.next_event_id + promoted_count(pre.item, now, k)
            &&& st == (DbView { item: st.item, pantry_event: st.pantry_event, next_event_id: st.next_event_id, ..pre })
        }),
    decreases k,
{
    lemma_promoted_count_monotonic(pre.item, now, k, pre.item.len() as int);
    if k > 0 {
        lemma_sweep_fold_shape(pre, ctx, now, k - 1);
    }
}

/// Whether the event sequence has room for every event a sweep at the
/// context's time would log.
pub fn sweep_has_room(ctx: &ReducerContext, db: &Database) -> (r: bool)
    ensures
        r == (db@.next_event_id + sweep_event_count(db@, *ctx) <= u64::MAX),
{
    let ghost pre = db@;
    let now = now_ts(ctx);
    let ghost n = now as int;
    let mut count: u64 = 0;
    let mut k: usize = 0;
    while k < db.item.len()
        invariant
            0 <= k <= pre.item.len(),
            pre == db@,
            n == unix_seconds(ctx.timestamp),
            now == n,
            count == promoted_count(pre.item, n, k as int),
            db.next_event_id + count <= u64::MAX,
        decreases pre.item.len() - k,
    {
        assert(db.item@[k as int]@ == pre.item[k as int]);
        let expiry = db.item[k].est_expiry_ts;
        if db.item[k].quantity > 0 && expiry > 0 && db.item[k].status.precedes(&ItemStatus::ExpiringSoon)
            && (expiry as i128 - now as i128) <= EXPIRY_WARN_SECS as i128
        {
            if count == u64::MAX - db.next_event_id {
                proof {
                    lemma_promoted_count_monotonic(pre.item, n, k + 1, pre.item.len() as int);
                }
                return false;
            }
            count = count + 1;
        }
        k = k + 1;
    }
    true
}

/// Promotes every in-stock item within the warning window of its expiry to
/// `ExpiringSoon`, logging each promotion. Items already flagged or depleted
/// are left alone, so sweeping again changes nothing.
pub fn sweep_expiring_items(ctx: &ReducerContext, db: &mut Database, _arg: ExpirySweepSchedule)
    requires
        old(db).next_event_id + sweep_event_count(old(db)@, *ctx) <= u64::MAX,
    ensures
        final(db)@ == sweep_spec(old(db)@, *ctx),
{
    let ghost pre = db@;
    let now = now_ts(ctx);
    let ghost n = now as int;
    let mut k: usize = 0;
    while k < db.item.len()
        invariant
            0 <= k <= pre.item.len(),
            pre.next_event_id + promoted_count(pre.item, n, pre.item.len() as int) <= u64::MAX,
            n == unix_seconds(ctx.timestamp),
            now == n,
            db@ == sweep_fold(pre, *ctx, n, k as int),
        decreases pre.item.len() - k,
    {
        proof {
            lemma_sweep_fold_shape(pre, *ctx, n, k as int);
            lemma_sweep_fold_shape(pre, *ctx, n, k + 1);
        }
        let ghost st = db@;
        let ghost it = pre.item[k as int];
        assert(db.item@[k as int]@ == it);
        let expiry = db.item[k].est_expiry_ts;
        if db.item[k].quantity > 0 && expiry > 0 && db.item[k].status.precedes(&ItemStatus::ExpiringSoon) {
            let secs_to_expiry: i128 = expiry as i128 - now as i128;
            if secs_to_expiry <= EXPIRY_WARN_SECS as i128 {
                let item_id = db.item[k].item_id;
                let head = concat_text("'", db.item[k].display_name.as_str());
                let description = if secs_to_expiry <= 0 {
                    concat_text(head.as_str(), "' has passed its estimated expiry")
                } else {
                    let days_left: u64 = (secs_to_expiry / 86_400) as u64;
                    let head = concat_text(head.as_str(), "' expires in ~");
                    let days = u64_text(days_left);
                    let head = concat_text(head.as_str(), days.as_str());
                    concat_text(head.as_str(), " day(s)")
                };
                db.item[k].status = ItemStatus::ExpiringSoon;
                db.item[k].updated_at = ctx.timestamp;
                proof {
                    assert(rows(db.item@) =~= st.item.update(
                        k as int,
                        ItemView { status: ItemStatus::ExpiringSoon, updated_at: ctx.timestamp, ..it },
                    ));
                    assert(description@ == expiry_notice(it, n));
                }
                log_event(ctx, db, "item_expiring_soon", item_id, description);
            }
        }
        k = k + 1;
    }
    proof {
        lemma_sweep_fold_shape(pre, *ctx, n, k as int);
    }
}

} // verus!
