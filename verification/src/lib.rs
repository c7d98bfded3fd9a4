//! A household pantry: items, receipts, recipes, a shopping list, digest
//! subscriptions and an audit log, kept as tables and changed only by
//! reducers whose every effect is stated in their contracts.
//!
//! Quantities and money amounts are fixed-point numbers counted in
//! thousandths (`1500` is one and a half units).

pub mod types;
pub mod text;
pub mod seqs;
pub mod tables;
pub mod events;
pub mod items;
pub mod users;
pub mod receipts;
pub mod recipes;
pub mod shopping;
pub mod digest;
pub mod expiry;
pub mod poller;
pub mod laws;
pub mod reducer_laws;

pub use digest::{subscribe_digest, unsubscribe_digest};
pub use expiry::{init, sweep_expiring_items};
pub use items::{add_item, deplete_item, remove_item, update_item_location, update_item_quantity};
pub use receipts::{add_receipt, add_receipt_item, match_receipt_item};
pub use recipes::{accept_recipe, add_recipe, add_recipe_ingredient};
pub use shopping::{add_shopping_item, remove_shopping_item};
pub use tables::{
    Database, DigestSubscription, ExpirySweepSchedule, Item, PantryEvent, Receipt, ReceiptItem, Recipe,
    RecipeIngredient, ShoppingListItem, User,
};
pub use types::{ItemStatus, Location, ReducerContext};
pub use users::{client_connected, set_user_name};
