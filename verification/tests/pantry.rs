use digital_pantry::digest::{subscribe_digest, unsubscribe_digest};
use digital_pantry::events::now_ts;
use digital_pantry::expiry::{init, sweep_expiring_items, sweep_has_room, EXPIRY_WARN_SECS};
use digital_pantry::items::{add_item, deplete_item, remove_item, update_item_location, update_item_quantity};
use digital_pantry::receipts::{add_receipt, add_receipt_item, match_receipt_item};
use digital_pantry::recipes::{accept_recipe, add_recipe, add_recipe_ingredient};
use digital_pantry::shopping::{add_shopping_item, remove_shopping_item};
use digital_pantry::tables::{Database, ExpirySweepSchedule};
use digital_pantry::types::{Identity, ItemStatus, Location, ReducerContext, ScheduleAt, TimeDuration, Timestamp};
use digital_pantry::users::{client_connected, set_user_name};

const DAY: i64 = 86_400;
const NOW: i64 = 1_700_000_000;

fn ctx_at(who: u128, secs: i64) -> ReducerContext {
    ReducerContext {
        sender: Identity { hi: 0, lo: who },
        timestamp: Timestamp { micros_since_unix_epoch: secs * 1_000_000 },
    }
}

fn ctx() -> ReducerContext {
    ctx_at(1, NOW)
}

fn s(t: &str) -> String {
    t.to_string()
}

fn add(db: &mut Database, c: &ReducerContext, name: &str, display: &str, qty: i64, expiry: i64) -> Result<(), String> {
    add_item(c, db, s(name), s(display), qty, s("pcs"), Location::Fridge, expiry, 7, 3, 0, s(""), s(""), 0)
}

fn timer() -> ExpirySweepSchedule {
    ExpirySweepSchedule { scheduled_id: 0, scheduled_at: ScheduleAt::Interval(TimeDuration { micros: 1_800_000_000 }) }
}

#[test]
fn init_arms_the_sweep_once() {
    let mut db = Database::new();
    init(&ctx(), &mut db);
    assert_eq!(db.expiry_sweep_schedule.len(), 1);
    assert_eq!(db.expiry_sweep_schedule[0], timer());
    init(&ctx(), &mut db);
    assert_eq!(db.expiry_sweep_schedule.len(), 1);
    assert_eq!(db.expiry_sweep_schedule[0].scheduled_id, 0);
    assert_eq!(db.next_scheduled_id, 1);
}

#[test]
fn init_keeps_an_armed_timer() {
    let mut db = Database::new();
    let one_shot = ExpirySweepSchedule {
        scheduled_id: 5,
        scheduled_at: ScheduleAt::Time(Timestamp { micros_since_unix_epoch: 7 }),
    };
    db.expiry_sweep_schedule.push(one_shot);
    init(&ctx(), &mut db);
    assert_eq!(db.expiry_sweep_schedule, vec![one_shot]);
}

#[test]
fn connect_registers_then_reactivates() {
    let mut db = Database::new();
    client_connected(&ctx(), &mut db);
    assert_eq!(db.user.len(), 1);
    assert_eq!(db.pantry_event.len(), 1);
    assert_eq!(db.pantry_event[0].event_type, "user_joined");
    assert_eq!(db.pantry_event[0].item_id, 0);
    assert_eq!(db.pantry_event[0].description, "New user connected");
    assert_eq!(db.user[0].name, "Anonymous");
    assert!(db.user[0].is_active);
    db.user[0].is_active = false;
    client_connected(&ctx(), &mut db);
    assert_eq!(db.user.len(), 1);
    assert!(db.user[0].is_active);
    assert_eq!(db.pantry_event.len(), 1);
    client_connected(&ctx_at(2, NOW), &mut db);
    assert_eq!(db.user.len(), 2);
}

#[test]
fn set_user_name_trims_and_checks() {
    let mut db = Database::new();
    assert_eq!(set_user_name(&ctx(), &mut db, s("Ann")), Err(s("User not found")));
    client_connected(&ctx(), &mut db);
    assert_eq!(set_user_name(&ctx(), &mut db, s(" \t\n")), Err(s("Name cannot be empty")));
    assert_eq!(db.user[0].name, "Anonymous");
    assert_eq!(set_user_name(&ctx(), &mut db, s("  Ann Lee \u{3000}")), Ok(()));
    assert_eq!(db.user[0].name, "Ann Lee");
}

#[test]
fn add_item_normalises_and_creates() {
    let mut db = Database::new();
    assert_eq!(add(&mut db, &ctx(), "  Whole MILK ", "Whole Milk 1L", 1000, 0), Ok(()));
    assert_eq!(db.item.len(), 1);
    let it = &db.item[0];
    assert_eq!(it.item_id, 1);
    assert_eq!(it.name, "whole milk");
    assert_eq!(it.display_name, "Whole Milk 1L");
    assert_eq!(it.status, ItemStatus::Unopened);
    assert_eq!(it.location, Location::Fridge);
    assert_eq!(it.added_by, Identity { hi: 0, lo: 1 });
    assert_eq!(db.next_item_id, 2);
    assert_eq!(db.pantry_event.len(), 1);
    assert_eq!(db.pantry_event[0].event_type, "item_added");
    assert_eq!(db.pantry_event[0].item_id, 1);
    assert_eq!(db.pantry_event[0].description, "Added item 'whole milk' qty 1");
}

#[test]
fn add_item_lowercases_unicode() {
    let mut db = Database::new();
    assert_eq!(add(&mut db, &ctx(), " ÉCLAIR ", "Éclair", 2000, 0), Ok(()));
    assert_eq!(db.item[0].name, "éclair");
}

#[test]
fn add_item_merges_into_stock() {
    let mut db = Database::new();
    add(&mut db, &ctx(), "eggs", "Eggs", 12000, NOW + 10 * DAY).unwrap();
    let later = ctx_at(2, NOW + 60);
    let r = add_item(&later, &mut db, s("EGGS"), s("Eggs 6"), 6000, s("pcs"), Location::Counter,
        NOW + 5 * DAY, 1, 1, 2990, s("EUR"), s("123"), 9);
    assert_eq!(r, Ok(()));
    assert_eq!(db.item.len(), 1);
    let it = &db.item[0];
    assert_eq!(it.quantity, 18000);
    assert_eq!(it.est_expiry_ts, NOW + 5 * DAY);
    assert_eq!(it.barcode, "123");
    assert_eq!(it.price, 2990);
    assert_eq!(it.currency, "EUR");
    assert_eq!(it.source_receipt_id, 9);
    assert_eq!(it.display_name, "Eggs");
    assert_eq!(it.location, Location::Fridge);
    assert_eq!(it.updated_at, later.timestamp);
    assert_eq!(db.next_item_id, 2);
}

#[test]
fn merge_keeps_known_expiry_and_old_extras() {
    let mut db = Database::new();
    add(&mut db, &ctx(), "rice", "Rice", 1000, NOW + 100 * DAY).unwrap();
    add(&mut db, &ctx(), "rice", "Rice", 500, 0).unwrap();
    assert_eq!(db.item[0].est_expiry_ts, NOW + 100 * DAY);
    assert_eq!(db.item[0].quantity, 1500);
    let mut db = Database::new();
    add(&mut db, &ctx(), "rice", "Rice", 1000, 0).unwrap();
    add(&mut db, &ctx(), "rice", "Rice", 500, NOW + 3 * DAY).unwrap();
    assert_eq!(db.item[0].est_expiry_ts, NOW + 3 * DAY);
    add(&mut db, &ctx(), "rice", "Rice", 500, NOW + 9 * DAY).unwrap();
    assert_eq!(db.item[0].est_expiry_ts, NOW + 3 * DAY);
}

#[test]
fn merge_saturates_quantity() {
    let mut db = Database::new();
    add(&mut db, &ctx(), "salt", "Salt", i64::MAX - 1, 0).unwrap();
    add(&mut db, &ctx(), "salt", "Salt", 10, 0).unwrap();
    assert_eq!(db.item[0].quantity, i64::MAX);
}

#[test]
fn add_item_errors() {
    let mut db = Database::new();
    assert_eq!(add(&mut db, &ctx(), "   ", "x", 1, 0), Err(s("Item name cannot be empty")));
    assert_eq!(add(&mut db, &ctx(), "tea", "Tea", 0, 0), Err(s("Quantity must be > 0")));
    assert_eq!(add(&mut db, &ctx(), "tea", "Tea", -5, 0), Err(s("Quantity must be > 0")));
    assert!(db.item.is_empty());
}

#[test]
fn depleted_item_is_not_merged_into() {
    let mut db = Database::new();
    add(&mut db, &ctx(), "milk", "Milk", 1000, 0).unwrap();
    deplete_item(&ctx(), &mut db, 1).unwrap();
    add(&mut db, &ctx(), "milk", "Milk", 2000, 0).unwrap();
    assert_eq!(db.item.len(), 2);
    assert_eq!(db.item[1].item_id, 2);
    assert_eq!(db.item[1].quantity, 2000);
}

#[test]
fn remove_item_deletes_and_logs() {
    let mut db = Database::new();
    add(&mut db, &ctx(), "milk", "Whole Milk 1L", 1000, 0).unwrap();
    add(&mut db, &ctx(), "bread", "Bread", 1000, 0).unwrap();
    assert_eq!(remove_item(&ctx(), &mut db, 1), Ok(()));
    assert_eq!(db.item.len(), 1);
    assert_eq!(db.item[0].item_id, 2);
    let ev = &db.pantry_event[2];
    assert_eq!(ev.event_id, 3);
    assert_eq!(ev.event_type, "item_removed");
    assert_eq!(ev.item_id, 1);
    assert_eq!(ev.description, "Removed 'Whole Milk 1L'");
    assert_eq!(ev.actor, Identity { hi: 0, lo: 1 });
    assert_eq!(remove_item(&ctx(), &mut db, 1), Err(s("Item not found")));
    assert_eq!(db.pantry_event.len(), 3);
}

#[test]
fn deplete_item_empties_and_logs() {
    let mut db = Database::new();
    add(&mut db, &ctx(), "milk", "Milk", 1000, 0).unwrap();
    assert_eq!(deplete_item(&ctx(), &mut db, 1), Ok(()));
    assert_eq!(db.item[0].quantity, 0);
    assert_eq!(db.item[0].status, ItemStatus::Depleted);
    assert_eq!(db.pantry_event[1].event_type, "item_depleted");
    assert_eq!(db.pantry_event[1].description, "Depleted 'Milk'");
    assert_eq!(deplete_item(&ctx(), &mut db, 5), Err(s("Item not found")));
}

#[test]
fn update_item_quantity_statuses_and_text() {
    let mut db = Database::new();
    add(&mut db, &ctx(), "milk", "Milk", 2000, 0).unwrap();
    assert_eq!(update_item_quantity(&ctx(), &mut db, 1, 1500), Ok(()));
    assert_eq!(db.item[0].quantity, 1500);
    assert_eq!(db.item[0].status, ItemStatus::Opened);
    assert_eq!(db.pantry_event[1].event_type, "item_quantity_changed");
    assert_eq!(db.pantry_event[1].description, "Updated 'Milk' to 1.5");
    assert_eq!(update_item_quantity(&ctx(), &mut db, 1, 0), Ok(()));
    assert_eq!(db.item[0].status, ItemStatus::Depleted);
    assert_eq!(db.pantry_event[2].description, "Updated 'Milk' to 0");
    assert_eq!(update_item_quantity(&ctx(), &mut db, 1, -1), Err(s("Quantity cannot be negative")));
    assert_eq!(update_item_quantity(&ctx(), &mut db, 9, -1), Err(s("Item not found")));
    assert_eq!(db.pantry_event.len(), 3);
}

#[test]
fn unopened_without_opened_shelf_life_stays_unopened() {
    let mut db = Database::new();
    add_item(&ctx(), &mut db, s("jam"), s("Jam"), 1000, s("jar"), Location::Pantry, 0, 0, 0, 0, s(""), s(""), 0).unwrap();
    update_item_quantity(&ctx(), &mut db, 1, 250).unwrap();
    assert_eq!(db.item[0].status, ItemStatus::Unopened);
    assert_eq!(db.pantry_event[1].description, "Updated 'Jam' to 0.25");
}

#[test]
fn update_item_location_moves() {
    let mut db = Database::new();
    add(&mut db, &ctx(), "peas", "Peas", 1000, 0).unwrap();
    assert_eq!(update_item_location(&ctx_at(1, NOW + 5), &mut db, 1, Location::Freezer), Ok(()));
    assert_eq!(db.item[0].location, Location::Freezer);
    assert_eq!(db.item[0].updated_at.micros_since_unix_epoch, (NOW + 5) * 1_000_000);
    assert_eq!(update_item_location(&ctx(), &mut db, 2, Location::Other), Err(s("Item not found")));
    assert_eq!(db.pantry_event.len(), 1);
}

#[test]
fn receipts_and_lines() {
    let mut db = Database::new();
    assert_eq!(add_receipt_item(&ctx(), &mut db, 42, s("Milk"), 1000, s("L"), 990, s("USD")), Err(s("Receipt 42 not found")));
    assert_eq!(add_receipt(&ctx(), &mut db, s("Kroger"), NOW, 12500, 800, s("USD"), s("MILK 0.99"), s("")), Ok(()));
    assert_eq!(db.receipt[0].receipt_id, 1);
    assert_eq!(db.pantry_event[0].event_type, "receipt_ingested");
    assert_eq!(db.pantry_event[0].item_id, 1);
    assert_eq!(db.pantry_event[0].description, "Ingested receipt from Kroger");
    assert_eq!(add_receipt_item(&ctx(), &mut db, 1, s("Milk"), 1000, s("L"), 990, s("USD")), Ok(()));
    assert_eq!(db.receipt_item[0].matched_item_id, 0);
    assert_eq!(match_receipt_item(&ctx(), &mut db, 1, 77), Ok(()));
    assert_eq!(db.receipt_item[0].matched_item_id, 77);
    assert_eq!(match_receipt_item(&ctx(), &mut db, 2, 77), Err(s("Receipt item not found")));
}

#[test]
fn accept_recipe_deducts_required_ingredients() {
    let mut db = Database::new();
    add(&mut db, &ctx(), "flour", "Flour", 1000, 0).unwrap();
    add(&mut db, &ctx(), "eggs", "Eggs", 2000, 0).unwrap();
    add(&mut db, &ctx(), "parsley", "Parsley", 1000, 0).unwrap();
    add_recipe(&ctx(), &mut db, s("Pancakes"), 4, s(""), s("")).unwrap();
    assert_eq!(add_recipe_ingredient(&ctx(), &mut db, 7, s("Milk"), 1, s("L"), false, s("")), Err(s("Recipe 7 not found")));
    add_recipe_ingredient(&ctx(), &mut db, 1, s("Flour"), 250, s("kg"), false, s("")).unwrap();
    add_recipe_ingredient(&ctx(), &mut db, 1, s("EGGS"), 2000, s("pcs"), false, s("")).unwrap();
    add_recipe_ingredient(&ctx(), &mut db, 1, s("Parsley"), 500, s("g"), true, s("")).unwrap();
    assert_eq!(accept_recipe(&ctx(), &mut db, 1), Ok(()));
    assert_eq!(db.item[0].quantity, 750);
    assert_eq!(db.item[0].status, ItemStatus::Unopened);
    assert_eq!(db.item[1].quantity, 0);
    assert_eq!(db.item[1].status, ItemStatus::Depleted);
    assert_eq!(db.item[2].quantity, 1000);
    let ev = &db.pantry_event[3];
    assert_eq!(ev.event_type, "recipe_accepted");
    assert_eq!(ev.item_id, 1);
    assert_eq!(ev.description, "Recipe 'Pancakes' accepted. Deducted: Flour (0.25), EGGS (2)");
}

#[test]
fn accept_recipe_reports_missing() {
    let mut db = Database::new();
    add(&mut db, &ctx(), "flour", "Flour", 100, 0).unwrap();
    add_recipe(&ctx(), &mut db, s("Bread"), 1, s(""), s("")).unwrap();
    add_recipe_ingredient(&ctx(), &mut db, 1, s("flour"), 500, s("g"), false, s("")).unwrap();
    add_recipe_ingredient(&ctx(), &mut db, 1, s("Yeast"), 10, s("g"), false, s("")).unwrap();
    assert_eq!(accept_recipe(&ctx(), &mut db, 1), Ok(()));
    assert_eq!(db.item[0].quantity, 100);
    assert_eq!(db.pantry_event[1].description, "Recipe 'Bread' accepted. Missing: flour, Yeast");
    assert_eq!(accept_recipe(&ctx(), &mut db, 2), Err(s("Recipe not found")));
    assert_eq!(db.pantry_event.len(), 2);
}

#[test]
fn accept_recipe_with_only_optional_ingredients() {
    let mut db = Database::new();
    add(&mut db, &ctx(), "basil", "Basil", 100, 0).unwrap();
    add_recipe(&ctx(), &mut db, s("Salad"), 2, s(""), s("")).unwrap();
    add_recipe_ingredient(&ctx(), &mut db, 1, s("basil"), 100, s("g"), true, s("")).unwrap();
    accept_recipe(&ctx(), &mut db, 1).unwrap();
    assert_eq!(db.item[0].quantity, 100);
    assert_eq!(db.pantry_event[1].description, "Recipe 'Salad' accepted. Deducted: ");
}

#[test]
fn shopping_list_add_and_remove() {
    let mut db = Database::new();
    assert_eq!(add_shopping_item(&ctx(), &mut db, s("  "), 1000, s("pcs"), false, s("")), Err(s("Shopping item name cannot be empty")));
    assert_eq!(add_shopping_item(&ctx(), &mut db, s(" Oat Milk "), 2000, s("L"), true, s("staple")), Ok(()));
    assert_eq!(db.shopping_list_item[0].name, "oat milk");
    assert_eq!(db.shopping_list_item[0].shopping_item_id, 1);
    assert_eq!(db.pantry_event[0].event_type, "shopping_list_updated");
    assert_eq!(db.pantry_event[0].item_id, 1);
    assert_eq!(db.pantry_event[0].description, "Added 'oat milk' to shopping list");
    assert_eq!(remove_shopping_item(&ctx(), &mut db, 1), Ok(()));
    assert!(db.shopping_list_item.is_empty());
    assert_eq!(db.pantry_event[1].event_type, "shopping_list_updated");
    assert_eq!(db.pantry_event[1].description, "Removed 'oat milk' from shopping list");
    assert_eq!(remove_shopping_item(&ctx(), &mut db, 1), Err(s("Shopping item not found")));
}

#[test]
fn subscribe_dedups_per_endpoint() {
    let mut db = Database::new();
    assert_eq!(subscribe_digest(&ctx(), &mut db, s(""), s("h")), Err(s("Channel and handle are required")));
    assert_eq!(subscribe_digest(&ctx(), &mut db, s("discord"), s("")), Err(s("Channel and handle are required")));
    subscribe_digest(&ctx(), &mut db, s("discord"), s("https://hook/1")).unwrap();
    subscribe_digest(&ctx(), &mut db, s("telegram"), s("12345")).unwrap();
    assert_eq!(db.digest_subscription.len(), 2);
    assert_eq!(unsubscribe_digest(&ctx(), &mut db, 1), Ok(()));
    assert!(!db.digest_subscription[0].is_active);
    subscribe_digest(&ctx_at(1, NOW + 100), &mut db, s("discord"), s("https://hook/1")).unwrap();
    assert_eq!(db.digest_subscription.len(), 2);
    assert!(db.digest_subscription[0].is_active);
    assert_eq!(db.digest_subscription[0].subscribed_at, NOW + 100);
    subscribe_digest(&ctx_at(2, NOW), &mut db, s("discord"), s("https://hook/1")).unwrap();
    assert_eq!(db.digest_subscription.len(), 3);
    assert_eq!(unsubscribe_digest(&ctx(), &mut db, 9), Err(s("Subscription not found")));
}

#[test]
fn sweep_promotes_items_near_expiry() {
    let mut db = Database::new();
    add(&mut db, &ctx(), "milk", "Milk", 1000, NOW + 2 * DAY + 5).unwrap();
    add(&mut db, &ctx(), "fish", "Fish", 1000, NOW - 10).unwrap();
    add(&mut db, &ctx(), "rice", "Rice", 1000, NOW + EXPIRY_WARN_SECS + 1).unwrap();
    add(&mut db, &ctx(), "salt", "Salt", 1000, 0).unwrap();
    add(&mut db, &ctx(), "ham", "Ham", 1000, NOW + DAY).unwrap();
    deplete_item(&ctx(), &mut db, 5).unwrap();
    sweep_expiring_items(&ctx(), &mut db, timer());
    assert_eq!(db.item[0].status, ItemStatus::ExpiringSoon);
    assert_eq!(db.item[1].status, ItemStatus::ExpiringSoon);
    assert_eq!(db.item[2].status, ItemStatus::Unopened);
    assert_eq!(db.item[3].status, ItemStatus::Unopened);
    assert_eq!(db.item[4].status, ItemStatus::Depleted);
    assert_eq!(db.pantry_event.len(), 8);
    assert_eq!(db.pantry_event[6].event_type, "item_expiring_soon");
    assert_eq!(db.pantry_event[6].item_id, 1);
    assert_eq!(db.pantry_event[6].description, "'Milk' expires in ~2 day(s)");
    assert_eq!(db.pantry_event[7].description, "'Fish' has passed its estimated expiry");
    sweep_expiring_items(&ctx(), &mut db, timer());
    assert_eq!(db.pantry_event.len(), 8);
}

#[test]
fn sweep_window_edge_is_inclusive() {
    let mut db = Database::new();
    add(&mut db, &ctx(), "milk", "Milk", 1000, NOW + EXPIRY_WARN_SECS).unwrap();
    sweep_expiring_items(&ctx(), &mut db, timer());
    assert_eq!(db.item[0].status, ItemStatus::ExpiringSoon);
    assert_eq!(db.pantry_event[1].description, "'Milk' expires in ~3 day(s)");
}

#[test]
fn now_ts_truncates_toward_zero() {
    let c = ReducerContext { sender: Identity { hi: 0, lo: 0 }, timestamp: Timestamp { micros_since_unix_epoch: 1_999_999 } };
    assert_eq!(now_ts(&c), 1);
    let c = ReducerContext { sender: Identity { hi: 0, lo: 0 }, timestamp: Timestamp { micros_since_unix_epoch: -1_500_000 } };
    assert_eq!(now_ts(&c), -1);
}

#[test]
fn defaults() {
    assert_eq!(Location::default(), Location::Pantry);
    assert_eq!(ItemStatus::default(), ItemStatus::Unopened);
    assert!(ItemStatus::Opened.precedes(&ItemStatus::ExpiringSoon));
    assert!(!ItemStatus::Depleted.precedes(&ItemStatus::ExpiringSoon));
}

#[test]
fn sweep_room_counts_promotions_only() {
    let mut db = Database::new();
    add(&mut db, &ctx(), "milk", "Milk", 1000, NOW + DAY).unwrap();
    add(&mut db, &ctx(), "rice", "Rice", 1000, NOW + 100 * DAY).unwrap();
    db.next_event_id = u64::MAX - 1;
    assert!(sweep_has_room(&ctx(), &db));
    db.next_event_id = u64::MAX;
    assert!(!sweep_has_room(&ctx(), &db));
    db.next_event_id = u64::MAX - 1;
    sweep_expiring_items(&ctx(), &mut db, timer());
    assert_eq!(db.next_event_id, u64::MAX);
    assert!(sweep_has_room(&ctx(), &db));
    sweep_expiring_items(&ctx(), &mut db, timer());
    assert_eq!(db.pantry_event.len(), 3);
}

#[test]
fn one_in_stock_row_per_name() {
    let mut db = Database::new();
    add(&mut db, &ctx(), "milk", "Milk", 1000, 0).unwrap();
    add(&mut db, &ctx(), " MILK", "Milk", 1000, 0).unwrap();
    assert_eq!(db.item.len(), 1);
    update_item_quantity(&ctx(), &mut db, 1, 0).unwrap();
    add(&mut db, &ctx(), "milk", "Milk", 500, 0).unwrap();
    assert_eq!(db.item.len(), 2);
    let in_stock = db.item.iter().filter(|i| i.name == "milk" && i.status != ItemStatus::Depleted).count();
    assert_eq!(in_stock, 1);
    // Restocking the depleted row by quantity brings it back into stock even
    // though the newer row is in stock: the one input the law leaves out.
    update_item_quantity(&ctx(), &mut db, 1, 700).unwrap();
    let in_stock = db.item.iter().filter(|i| i.name == "milk" && i.status != ItemStatus::Depleted).count();
    assert_eq!(in_stock, 2);
}

#[test]
fn unsubscribe_then_resubscribe_reactivates() {
    let mut db = Database::new();
    subscribe_digest(&ctx(), &mut db, s("discord"), s("h")).unwrap();
    unsubscribe_digest(&ctx(), &mut db, 1).unwrap();
    assert!(!db.digest_subscription[0].is_active);
    assert_eq!(subscribe_digest(&ctx(), &mut db, s("discord"), s("h")), Ok(()));
    assert_eq!(db.digest_subscription.len(), 1);
    assert_eq!(db.digest_subscription[0].subscription_id, 1);
    assert!(db.digest_subscription[0].is_active);
}

#[test]
fn merge_logs_item_added_with_new_total() {
    let mut db = Database::new();
    add(&mut db, &ctx(), "eggs", "Eggs", 12000, 0).unwrap();
    add(&mut db, &ctx(), "Eggs", "Eggs", 500, 0).unwrap();
    assert_eq!(db.pantry_event.len(), 2);
    assert_eq!(db.pantry_event[1].event_type, "item_added");
    assert_eq!(db.pantry_event[1].item_id, 1);
    assert_eq!(db.pantry_event[1].description, "Merged item 'eggs' qty to 12.5");
    assert_eq!(add(&mut db, &ctx(), "  ", "x", 1, 0), Err(s("Item name cannot be empty")));
    assert_eq!(db.pantry_event.len(), 2);
}

#[test]
fn restocked_item_leaves_depleted() {
    let mut db = Database::new();
    add(&mut db, &ctx(), "flour", "Flour", 1000, 0).unwrap();
    deplete_item(&ctx(), &mut db, 1).unwrap();
    assert_eq!(db.item[0].status, ItemStatus::Depleted);
    assert_eq!(update_item_quantity(&ctx(), &mut db, 1, 2000), Ok(()));
    assert_eq!(db.item[0].quantity, 2000);
    assert_eq!(db.item[0].status, ItemStatus::Unopened);
}
