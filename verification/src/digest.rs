//! Digest subscription reducers: one row per (user, channel, handle).
use vstd::prelude::*;
use crate::events::{now_ts, outcome, unix_seconds};
use crate::seqs::{find_first, first_match};
use crate::tables::{Database, DbView, DigestSubscription, DigestSubscriptionView, rows};
use crate::types::{Identity, ReducerContext};

verus! {

/// The row has the given subscription id.
pub open spec fn subscription_has_id(subscription_id: u64) -> spec_fn(DigestSubscriptionView) -> bool {
    |r: DigestSubscriptionView| r.subscription_id == subscription_id
}

/// The row is the given user's subscription on the given endpoint.
pub open spec fn subscription_at(
    identity: Identity,
    channel: Seq<char>,
    handle: Seq<char>,
) -> spec_fn(DigestSubscriptionView) -> bool {
    |r: DigestSubscriptionView| r.identity == identity && r.channel == channel && r.handle == handle
}

/// Position of the first subscription with the given id.
pub fn find_subscription(subs: &Vec<DigestSubscription>, subscription_id: u64) -> (r: Option<usize>)
    ensures
        first_match(rows(subs@), subscription_has_id(subscription_id)) == match r {
            Some(i) => Some(i as int),
            None => None,
        },
{
    find_first(
        subs,
        |r: &DigestSubscription| -> (b: bool) ensures b == (r.subscription_id == subscription_id) { r.subscription_id == subscription_id },
        Ghost(subscription_has_id(subscription_id)),
    )
}

/// Position of the first subscription of `identity` on (channel, handle).
fn find_endpoint(
    subs: &Vec<DigestSubscription>,
    identity: Identity,
    channel: &String,
    handle: &String,
) -> (r: Option<usize>)
    ensures
        first_match(rows(subs@), subscription_at(identity, channel@, handle@)) == match r {
            Some(i) => Some(i as int),
            None => None,
        },
{
    find_first(
        subs,
        |r: &DigestSubscription| -> (b: bool) ensures b == (r.identity == identity && r.channel@ == channel@ && r.handle@ == handle@) { r.identity == identity && r.channel == *channel && r.handle == *handle },
        Ghost(subscription_at(identity, channel@, handle@)),
    )
}

/// The effect and result of `subscribe_digest`: the caller's row for the
/// endpoint is refreshed (active, re-dated) if it exists, else created.
pub open spec fn subscribe_digest_spec(
    pre: DbView,
    ctx: ReducerContext,
    channel: Seq<char>,
    handle: Seq<char>,
) -> (DbView, Result<(), Seq<char>>) {
    if channel.len() == 0 || handle.len() == 0 {
        (pre, Err("Channel and handle are required"@))
    } else {
        let ts = unix_seconds(ctx.timestamp) as i64;
        match first_match(pre.digest_subscription, subscription_at(ctx.sender, channel, handle)) {
            Some(i) => (
                DbView {
                    digest_subscription: pre.digest_subscription.update(
                        i,
                        DigestSubscriptionView { is_active: true, subscribed_at: ts, ..pre.digest_subscription[i] },
                    ),
                    ..pre
                },
                Ok(()),
            ),
            None => (
                DbView {
                    digest_subscription: pre.digest_subscription.push(
                        DigestSubscriptionView {
                            subscription_id: pre.next_subscription_id,
                            identity: ctx.sender,
                            channel,
                            handle,
                            is_active: true,
                            subscribed_at: ts,
                        },
                    ),
                    next_subscription_id: (pre.next_subscription_id + 1) as u64,
                    ..pre
                },
                Ok(()),
            ),
        }
    }
}

/// The subscription sequence has room when a new row would be created.
pub open spec fn subscribe_digest_fits(pre: DbView, ctx: ReducerContext, channel: Seq<char>, handle: Seq<char>) -> bool {
    channel.len() > 0 && handle.len() > 0 && first_match(pre.digest_subscription, subscription_at(ctx.sender, channel, handle)) is None
        ==> pre.next_subscription_id < u64::MAX
}

/// Whether `subscribe_digest` has the key room it needs.
pub fn subscribe_digest_has_room(ctx: &ReducerContext, db: &Database, channel: &String, handle: &String) -> (r: bool)
    ensures
        r == subscribe_digest_fits(db@, *ctx, channel@, handle@),
{
    channel.as_str().unicode_len() == 0 || handle.as_str().unicode_len() == 0
        || find_endpoint(&db.digest_subscription, ctx.sender(), channel, handle).is_some()
        || db.next_subscription_id < u64::MAX
}

/// Subscribes (or re-subscribes) the caller to the digest on an endpoint.
pub fn subscribe_digest(
    ctx: &ReducerContext,
    db: &mut Database,
    channel: String,
    handle: String,
) -> (r: Result<(), String>)
    requires
        subscribe_digest_fits(old(db)@, *ctx, channel@, handle@),
    ensures
        final(db)@ == subscribe_digest_spec(old(db)@, *ctx, channel@, handle@).0,
        outcome(r) == subscribe_digest_spec(old(db)@, *ctx, channel@, handle@).1,
{
    let ghost pre = db@;
    if channel.as_str().unicode_len() == 0 || handle.as_str().unicode_len() == 0 {
        return Err(String::from_str("Channel and handle are required"));
    }
    let identity = ctx.sender();
    let ts = now_ts(ctx);
    match find_endpoint(&db.digest_subscription, identity, &channel, &handle) {
        Some(i) => {
            db.digest_subscription[i].is_active = true;
            db.digest_subscription[i].subscribed_at = ts;
            proof {
                assert(rows(db.digest_subscription@) =~= pre.digest_subscription.update(
                    i as int,
                    DigestSubscriptionView { is_active: true, subscribed_at: ts, ..pre.digest_subscription[i as int] },
                ));
            }
        },
        None => {
            let sub = DigestSubscription {
                subscription_id: db.next_subscription_id,
                identity,
                channel,
                handle,
                is_active: true,
                subscribed_at: ts,
            };
            let ghost sv = sub@;
            db.digest_subscription.push(sub);
            db.next_subscription_id = db.next_subscription_id + 1;
            proof {
                assert(rows(db.digest_subscription@) =~= pre.digest_subscription.push(sv));
            }
        },
    }
    Ok(())
}

/// The effect and result of `unsubscribe_digest`: the row is kept but
/// deactivated.
pub open spec fn unsubscribe_digest_spec(
    pre: DbView,
    ctx: ReducerContext,
    subscription_id: u64,
) -> (DbView, Result<(), Seq<char>>) {
    match first_match(pre.digest_subscription, subscription_has_id(subscription_id)) {
        None => (pre, Err("Subscription not found"@)),
        Some(i) => (
            DbView {
                digest_subscription: pre.digest_subscription.update(
                    i,
                    DigestSubscriptionView { is_active: false, ..pre.digest_subscription[i] },
                ),
                ..pre
            },
            Ok(()),
        ),
    }
}

/// Deactivates a subscription (a soft disable: the row stays).
pub fn unsubscribe_digest(
    ctx: &ReducerContext,
    db: &mut Database,
    subscription_id: u64,
) -> (r: Result<(), String>)
    ensures
        final(db)@ == unsubscribe_digest_spec(old(db)@, *ctx, subscription_id).0,
        outcome(r) == unsubscribe_digest_spec(old(db)@, *ctx, subscription_id).1,
{
    let ghost pre = db@;
    match find_subscription(&db.digest_subscription, subscription_id) {
        None => Err(String::from_str("Subscription not found")),
        Some(i) => {
            db.digest_subscription[i].is_active = false;
            proof {
                assert(rows(db.digest_subscription@) =~= pre.digest_subscription.update(
                    i as int,
                    DigestSubscriptionView { is_active: false, ..pre.digest_subscription[i as int] },
                ));
            }
            Ok(())
        },
    }
}

} // verus!
