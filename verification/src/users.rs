//! User reducers: registration on connect and renaming.
use vstd::prelude::*;
use crate::events::{log_event, outcome};
use crate::seqs::{find_first, first_match};
use crate::tables::{Database, DbView, User, UserView, rows};
use crate::text::{trim_text, trimmed};
use crate::types::{Identity, ReducerContext};

verus! {

/// The row belongs to the given identity.
pub open spec fn user_has_identity(identity: Identity) -> spec_fn(UserView) -> bool {
    |u: UserView| u.identity == identity
}

/// Position of the first user row with the given identity.
pub fn find_user(users: &Vec<User>, identity: Identity) -> (r: Option<usize>)
    ensures
        first_match(rows(users@), user_has_identity(identity)) == match r {
            Some(i) => Some(i as int),
            None => None,
        },
{
    find_first(
        users,
        |u: &User| -> (b: bool) ensures b == (u.identity == identity) { u.identity == identity },
        Ghost(user_has_identity(identity)),
    )
}

/// The effect of `client_connected`: a known caller is marked active; an
/// unknown one is registered as an active user named "Anonymous".
pub open spec fn client_connected_spec(pre: DbView, ctx: ReducerContext) -> DbView {
    match first_match(pre.user, user_has_identity(ctx.sender)) {
        Some(i) => DbView { user: pre.user.update(i, UserView { is_active: true, ..pre.user[i] }), ..pre },
        None => DbView {
            user: pre.user.push(UserView { identity: ctx.sender, name: "Anonymous"@, is_active: true }),
            ..pre
        }.with_event(ctx, "user_joined"@, 0, "New user connected"@),
    }
}

/// The event sequence has room when the caller is new (a `user_joined`
/// event is then logged).
pub open spec fn client_connected_fits(pre: DbView, ctx: ReducerContext) -> bool {
    first_match(pre.user, user_has_identity(ctx.sender)) is None ==> pre.next_event_id < u64::MAX
}

/// Whether `client_connected` has the key room it needs.
pub fn client_connected_has_room(ctx: &ReducerContext, db: &Database) -> (r: bool)
    ensures
        r == client_connected_fits(db@, *ctx),
{
    find_user(&db.user, ctx.sender()).is_some() || db.next_event_id < u64::MAX
}

/// Registers the caller on connect (logging `user_joined`), or marks a
/// returning caller active.
pub fn client_connected(ctx: &ReducerContext, db: &mut Database)
    requires
        client_connected_fits(old(db)@, *ctx),
    ensures
        final(db)@ == client_connected_spec(old(db)@, *ctx),
{
    let ghost pre = db@;
    let identity = ctx.sender();
    match find_user(&db.user, identity) {
        Some(i) => {
            db.user[i].is_active = true;
            proof {
                assert(rows(db.user@) =~= pre.user.update(i as int, UserView { is_active: true, ..pre.user[i as int] }));
            }
        },
        None => {
            let user = User { identity, name: String::from_str("Anonymous"), is_active: true };
            let ghost uv = user@;
            db.user.push(user);
            proof {
                assert(rows(db.user@) =~= pre.user.push(uv));
            }
            log_event(ctx, db, "user_joined", 0, String::from_str("New user connected"));
        },
    }
}

/// The effect and result of `set_user_name`.
pub open spec fn set_user_name_spec(pre: DbView, ctx: ReducerContext, name: Seq<char>) -> (DbView, Result<(), Seq<char>>) {
    let n = trimmed(name);
    if n.len() == 0 {
        (pre, Err("Name cannot be empty"@))
    } else {
        match first_match(pre.user, user_has_identity(ctx.sender)) {
            None => (pre, Err("User not found"@)),
            Some(i) => (DbView { user: pre.user.update(i, UserView { name: n, ..pre.user[i] }), ..pre }, Ok(())),
        }
    }
}

/// Sets the caller's display name (trimmed; it must not be empty).
pub fn set_user_name(ctx: &ReducerContext, db: &mut Database, name: String) -> (r: Result<(), String>)
    ensures
        final(db)@ == set_user_name_spec(old(db)@, *ctx, name@).0,
        outcome(r) == set_user_name_spec(old(db)@, *ctx, name@).1,
{
    let ghost pre = db@;
    let name = trim_text(name.as_str());
    if name.as_str().unicode_len() == 0 {
        return Err(String::from_str("Name cannot be empty"));
    }
    let identity = ctx.sender();
    match find_user(&db.user, identity) {
        None => Err(String::from_str("User not found")),
        Some(i) => {
            let ghost n = name@;
            db.user[i].name = name;
            proof {
                assert(rows(db.user@) =~= pre.user.update(i as int, UserView { name: n, ..pre.user[i as int] }));
            }
            Ok(())
        },
    }
}

} // verus!
