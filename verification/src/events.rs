//! The audit log helper, the clock helper, and how a reducer's result reads.
use vstd::prelude::*;
use crate::tables::{Database, DbView, PantryEvent, PantryEventView, rows};
use crate::types::{ReducerContext, Timestamp};

verus! {

/// What a reducer's result says: success, or the text of its error.
pub open spec fn outcome(r: Result<(), String>) -> Result<(), Seq<char>> {
    match r {
        Ok(()) => Ok(()),
        Err(e) => Err(e@),
    }
}

/// Whole seconds since the Unix epoch, truncated toward zero.
pub open spec fn unix_seconds(ts: Timestamp) -> int {
    let m = ts.micros_since_unix_epoch as int;
    if m >= 0 {
        m / 1_000_000
    } else {
        -((-m) / 1_000_000)
    }
}

/// The current Unix time in seconds, from the reducer context.
pub fn now_ts(ctx: &ReducerContext) -> (r: i64)
    ensures
        r == unix_seconds(ctx.timestamp),
{
    ctx.timestamp.to_micros_since_unix_epoch() / 1_000_000
}

/// Appends an audit event at the next event id, attributed to the caller.
pub fn log_event(
    ctx: &ReducerContext,
    db: &mut Database,
    event_type: &str,
    item_id: u64,
    description: String,
)
    requires
        old(db).next_event_id < u64::MAX,
    ensures
        final(db)@ == old(db)@.with_event(*ctx, event_type@, item_id, description@),
{
    let ghost desc = description@;
    let event = PantryEvent {
        event_id: db.next_event_id,
        event_type: String::from_str(event_type),
        item_id,
        description,
        actor: ctx.sender,
        created_at: ctx.timestamp,
    };
    let ghost ev: PantryEventView = event@;
    db.pantry_event.push(event);
    db.next_event_id = db.next_event_id + 1;
    proof {
        assert(rows(db.pantry_event@) =~= rows(old(db).pantry_event@).push(ev));
        assert(db@ =~= old(db)@.with_event(*ctx, event_type@, item_id, desc));
    }
}

} // verus!
