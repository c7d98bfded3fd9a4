//! The pantry's tables: one row type per table, its view with texts as
//! character sequences, and the database that holds them all.
use vstd::prelude::*;
use crate::types::{Identity, ItemStatus, Location, ReducerContext, ScheduleAt, Timestamp};

verus! {

/// A registered household member. Created automatically on first connect.
pub struct User {
    pub identity: Identity,
    /// Display name shown in the web UI and digests.
    pub name: String,
    /// Whether this user has ever connected (drives onboarding UI).
    pub is_active: bool,
}

pub struct UserView {
    pub identity: Identity,
    pub name: Seq<char>,
    pub is_active: bool,
}

impl View for User {
    type V = UserView;

    open spec fn view(&self) -> UserView {
        UserView { identity: self.identity, name: self.name@, is_active: self.is_active }
    }
}

/// A single unit of food in the pantry. One row is one trackable physical
/// unit: a 24-pack of eggs is one row with a quantity of 24.
pub struct Item {
    pub item_id: u64,
    /// Normalised, lowercase name used for matching ("whole milk").
    pub name: String,
    /// Human-friendly name as entered ("Whole Milk 1L").
    pub display_name: String,
    /// Barcode if known, else empty.
    pub barcode: String,
    /// Current quantity in thousandths of `unit`. 0 = depleted.
    pub quantity: i64,
    /// Unit string: "pcs", "g", "ml", "L", "loaf", ...
    pub unit: String,
    pub location: Location,
    pub status: ItemStatus,
    /// Unix time (seconds) when the item is expected to expire. 0 = unknown.
    pub est_expiry_ts: i64,
    /// Estimated shelf life in days (unopened). 0 = unknown.
    pub unopened_days: i32,
    /// Estimated shelf life in days once opened. 0 = unknown.
    pub opened_days: i32,
    /// Price paid, in thousandths of the currency unit. 0 = unknown.
    pub price: i64,
    /// Currency code, e.g. "USD". Empty = household default.
    pub currency: String,
    /// The receipt this item came from, 0 = manual entry.
    pub source_receipt_id: u64,
    /// The user who added this item.
    pub added_by: Identity,
    pub created_at: Timestamp,
    pub updated_at: Timestamp,
}

pub struct ItemView {
    pub item_id: u64,
    pub name: Seq<char>,
    pub display_name: Seq<char>,
    pub barcode: Seq<char>,
    pub quantity: i64,
    pub unit: Seq<char>,
    pub location: Location,
    pub status: ItemStatus,
    pub est_expiry_ts: i64,
    pub unopened_days: i32,
    pub opened_days: i32,
    pub price: i64,
    pub currency: Seq<char>,
    pub source_receipt_id: u64,
    pub added_by: Identity,
    pub created_at: Timestamp,
    pub updated_at: Timestamp,
}

impl View for Item {
    type V = ItemView;

    open spec fn view(&self) -> ItemView {
        ItemView {
            item_id: self.item_id,
            name: self.name@,
            display_name: self.display_name@,
            barcode: self.barcode@,
            quantity: self.quantity,
            unit: self.unit@,
            location: self.location,
            status: self.status,
            est_expiry_ts: self.est_expiry_ts,
            unopened_days: self.unopened_days,
            opened_days: self.opened_days,
            price: self.price,
            currency: self.currency@,
            source_receipt_id: self.source_receipt_id,
            added_by: self.added_by,
            created_at: self.created_at,
            updated_at: self.updated_at,
        }
    }
}

/// A parsed grocery receipt.
pub struct Receipt {
    pub receipt_id: u64,
    /// Store name as read from the receipt.
    pub store_name: String,
    /// Purchase date as Unix time (seconds). 0 = unknown.
    pub purchased_at: i64,
    /// Total amount before tax, in thousandths.
    pub total: i64,
    /// Tax amount, in thousandths.
    pub tax: i64,
    pub currency: String,
    /// Raw OCR text, kept for re-parsing.
    pub raw_ocr_text: String,
    /// URL of the stored receipt image, if uploaded.
    pub image_url: String,
    pub added_by: Identity,
    pub created_at: Timestamp,
}

pub struct ReceiptView {
    pub receipt_id: u64,
    pub store_name: Seq<char>,
    pub purchased_at: i64,
    pub total: i64,
    pub tax: i64,
    pub currency: Seq<char>,
    pub raw_ocr_text: Seq<char>,
    pub image_url: Seq<char>,
    pub added_by: Identity,
    pub created_at: Timestamp,
}

impl View for Receipt {
    type V = ReceiptView;

    open spec fn view(&self) -> ReceiptView {
        ReceiptView {
            receipt_id: self.receipt_id,
            store_name: self.store_name@,
            purchased_at: self.purchased_at,
            total: self.total,
            tax: self.tax,
            currency: self.currency@,
            raw_ocr_text: self.raw_ocr_text@,
            image_url: self.image_url@,
            added_by: self.added_by,
            created_at: self.created_at,
        }
    }
}

/// A line item on a receipt.
pub struct ReceiptItem {
    pub receipt_item_id: u64,
    /// The receipt this line belongs to.
    pub receipt_id: u64,
    pub product_name: String,
    /// Parsed quantity in thousandths. 0 = a single item.
    pub quantity: i64,
    pub unit: String,
    /// Line price before tax, in thousandths.
    pub price: i64,
    pub currency: String,
    /// The item this line was matched to, 0 = not yet matched.
    pub matched_item_id: u64,
}

pub struct ReceiptItemView {
    pub receipt_item_id: u64,
    pub receipt_id: u64,
    pub product_name: Seq<char>,
    pub quantity: i64,
    pub unit: Seq<char>,
    pub price: i64,
    pub currency: Seq<char>,
    pub matched_item_id: u64,
}

impl View for ReceiptItem {
    type V = ReceiptItemView;

    open spec fn view(&self) -> ReceiptItemView {
        ReceiptItemView {
            receipt_item_id: self.receipt_item_id,
            receipt_id: self.receipt_id,
            product_name: self.product_name@,
            quantity: self.quantity,
            unit: self.unit@,
            price: self.price,
            currency: self.currency@,
            matched_item_id: self.matched_item_id,
        }
    }
}

/// A recipe stored in the pantry.
pub struct Recipe {
    pub recipe_id: u64,
    pub name: String,
    /// Number of servings this recipe makes.
    pub servings: u8,
    pub instructions: String,
    pub source_url: String,
    pub added_by: Identity,
    pub created_at: Timestamp,
}

pub struct RecipeView {
    pub recipe_id: u64,
    pub name: Seq<char>,
    pub servings: u8,
    pub instructions: Seq<char>,
    pub source_url: Seq<char>,
    pub added_by: Identity,
    pub created_at: Timestamp,
}

impl View for Recipe {
    type V = RecipeView;

    open spec fn view(&self) -> RecipeView {
        RecipeView {
            recipe_id: self.recipe_id,
            name: self.name@,
            servings: self.servings,
            instructions: self.instructions@,
            source_url: self.source_url@,
            added_by: self.added_by,
            created_at: self.created_at,
        }
    }
}

/// An ingredient in a recipe.
pub struct RecipeIngredient {
    pub recipe_ingredient_id: u64,
    /// The recipe this ingredient belongs to.
    pub recipe_id: u64,
    /// Ingredient name, matched against item names.
    pub ingredient_name: String,
    /// Amount needed, in thousandths.
    pub quantity: i64,
    pub unit: String,
    /// Optional ingredients are never deducted.
    pub is_optional: bool,
    /// Suggested substitute ingredient name (empty = none).
    pub substitute: String,
}

pub struct RecipeIngredientView {
    pub recipe_ingredient_id: u64,
    pub recipe_id: u64,
    pub ingredient_name: Seq<char>,
    pub quantity: i64,
    pub unit: Seq<char>,
    pub is_optional: bool,
    pub substitute: Seq<char>,
}

impl View for RecipeIngredient {
    type V = RecipeIngredientView;

    open spec fn view(&self) -> RecipeIngredientView {
        RecipeIngredientView {
            recipe_ingredient_id: self.recipe_ingredient_id,
            recipe_id: self.recipe_id,
            ingredient_name: self.ingredient_name@,
            quantity: self.quantity,
            unit: self.unit@,
            is_optional: self.is_optional,
            substitute: self.substitute@,
        }
    }
}

/// A shopping list entry.
pub struct ShoppingListItem {
    pub shopping_item_id: u64,
    /// Normalised product name.
    pub name: String,
    /// Quantity to buy, in thousandths.
    pub quantity: i64,
    pub unit: String,
    /// A staple reappears after purchase.
    pub is_staple: bool,
    /// Why this item was added.
    pub reason: String,
    pub added_by: Identity,
    pub created_at: Timestamp,
}

pub struct ShoppingListItemView {
    pub shopping_item_id: u64,
    pub name: Seq<char>,
    pub quantity: i64,
    pub unit: Seq<char>,
    pub is_staple: bool,
    pub reason: Seq<char>,
    pub added_by: Identity,
    pub created_at: Timestamp,
}

impl View for ShoppingListItem {
    type V = ShoppingListItemView;

    open spec fn view(&self) -> ShoppingListItemView {
        ShoppingListItemView {
            shopping_item_id: self.shopping_item_id,
            name: self.name@,
            quantity: self.quantity,
            unit: self.unit@,
            is_staple: self.is_staple,
            reason: self.reason@,
            added_by: self.added_by,
            created_at: self.created_at,
        }
    }
}

/// A subscription to the weekly expiration digest on one endpoint. A user
/// may hold several, one per (channel, handle).
pub struct DigestSubscription {
    pub subscription_id: u64,
    /// The user who created this subscription.
    pub identity: Identity,
    /// Delivery channel: "discord" | "telegram" | "whatsapp".
    pub channel: String,
    /// Channel-specific handle.
    pub handle: String,
    pub is_active: bool,
    /// Unix time (seconds) of the latest (re)subscription.
    pub subscribed_at: i64,
}

pub struct DigestSubscriptionView {
    pub subscription_id: u64,
    pub identity: Identity,
    pub channel: Seq<char>,
    pub handle: Seq<char>,
    pub is_active: bool,
    pub subscribed_at: i64,
}

impl View for DigestSubscription {
    type V = DigestSubscriptionView;

    open spec fn view(&self) -> DigestSubscriptionView {
        DigestSubscriptionView {
            subscription_id: self.subscription_id,
            identity: self.identity,
            channel: self.channel@,
            handle: self.handle@,
            is_active: self.is_active,
            subscribed_at: self.subscribed_at,
        }
    }
}

/// An entry of the append-only audit log.
pub struct PantryEvent {
    pub event_id: u64,
    /// "item_removed" | "item_depleted" | "item_quantity_changed" | ...
    pub event_type: String,
    /// The item (or other row) concerned, 0 = none.
    pub item_id: u64,
    /// Human-readable description.
    pub description: String,
    /// The user who triggered this event.
    pub actor: Identity,
    pub created_at: Timestamp,
}

pub struct PantryEventView {
    pub event_id: u64,
    pub event_type: Seq<char>,
    pub item_id: u64,
    pub description: Seq<char>,
    pub actor: Identity,
    pub created_at: Timestamp,
}

impl View for PantryEvent {
    type V = PantryEventView;

    open spec fn view(&self) -> PantryEventView {
        PantryEventView {
            event_id: self.event_id,
            event_type: self.event_type@,
            item_id: self.item_id,
            description: self.description@,
            actor: self.actor,
            created_at: self.created_at,
        }
    }
}

/// A timer row for the "expiring soon" sweep: an `Interval` row fires
/// repeatedly, a `Time` row fires once.
#[derive(Clone, Copy, Debug, PartialEq, Eq, Structural)]
pub struct ExpirySweepSchedule {
    pub scheduled_id: u64,
    pub scheduled_at: ScheduleAt,
}

impl View for ExpirySweepSchedule {
    type V = ExpirySweepSchedule;

    open spec fn view(&self) -> ExpirySweepSchedule {
        *self
    }
}

/// The views of a table's rows, in table order.
pub open spec fn rows<T: View>(v: Seq<T>) -> Seq<T::V> {
    v.map_values(|x: T| x@)
}

/// The household database: every table, in row order, and the next value of
/// each auto-increment key.
pub struct Database {
    pub user: Vec<User>,
    pub item: Vec<Item>,
    pub receipt: Vec<Receipt>,
    pub receipt_item: Vec<ReceiptItem>,
    pub recipe: Vec<Recipe>,
    pub recipe_ingredient: Vec<RecipeIngredient>,
    pub shopping_list_item: Vec<ShoppingListItem>,
    pub digest_subscription: Vec<DigestSubscription>,
    pub pantry_event: Vec<PantryEvent>,
    pub expiry_sweep_schedule: Vec<ExpirySweepSchedule>,
    pub next_item_id: u64,
    pub next_receipt_id: u64,
    pub next_receipt_item_id: u64,
    pub next_recipe_id: u64,
    pub next_recipe_ingredient_id: u64,
    pub next_shopping_item_id: u64,
    pub next_subscription_id: u64,
    pub next_event_id: u64,
    pub next_scheduled_id: u64,
}

/// The mathematical state of the database.
#[verifier::ext_equal]
pub struct DbView {
    pub user: Seq<UserView>,
    pub item: Seq<ItemView>,
    pub receipt: Seq<ReceiptView>,
    pub receipt_item: Seq<ReceiptItemView>,
    pub recipe: Seq<RecipeView>,
    pub recipe_ingredient: Seq<RecipeIngredientView>,
    pub shopping_list_item: Seq<ShoppingListItemView>,
    pub digest_subscription: Seq<DigestSubscriptionView>,
    pub pantry_event: Seq<PantryEventView>,
    pub expiry_sweep_schedule: Seq<ExpirySweepSchedule>,
    pub next_item_id: u64,
    pub next_receipt_id: u64,
    pub next_receipt_item_id: u64,
    pub next_recipe_id: u64,
    pub next_recipe_ingredient_id: u64,
    pub next_shopping_item_id: u64,
    pub next_subscription_id: u64,
    pub next_event_id: u64,
    pub next_scheduled_id: u64,
}

impl View for Database {
    type V = DbView;

    open spec fn view(&self) -> DbView {
        DbView {
            user: rows(self.user@),
            item: rows(self.item@),
            receipt: rows(self.receipt@),
            receipt_item: rows(self.receipt_item@),
            recipe: rows(self.recipe@),
            recipe_ingredient: rows(self.recipe_ingredient@),
            shopping_list_item: rows(self.shopping_list_item@),
            digest_subscription: rows(self.digest_subscription@),
            pantry_event: rows(self.pantry_event@),
            expiry_sweep_schedule: rows(self.expiry_sweep_schedule@),
            next_item_id: self.next_item_id,
            next_receipt_id: self.next_receipt_id,
            next_receipt_item_id: self.next_receipt_item_id,
            next_recipe_id: self.next_recipe_id,
            next_recipe_ingredient_id: self.next_recipe_ingredient_id,
            next_shopping_item_id: self.next_shopping_item_id,
            next_subscription_id: self.next_subscription_id,
            next_event_id: self.next_event_id,
            next_scheduled_id: self.next_scheduled_id,
        }
    }
}

impl DbView {
    /// The empty database: no rows, every key sequence starting at 1.
    pub open spec fn empty() -> DbView {
        DbView {
            user: Seq::empty(),
            item: Seq::empty(),
            receipt: Seq::empty(),
            receipt_item: Seq::empty(),
            recipe: Seq::empty(),
            recipe_ingredient: Seq::empty(),
            shopping_list_item: Seq::empty(),
            digest_subscription: Seq::empty(),
            pantry_event: Seq::empty(),
            expiry_sweep_schedule: Seq::empty(),
            next_item_id: 1,
            next_receipt_id: 1,
            next_receipt_item_id: 1,
            next_recipe_id: 1,
            next_recipe_ingredient_id: 1,
            next_shopping_item_id: 1,
            next_subscription_id: 1,
            next_event_id: 1,
            next_scheduled_id: 1,
        }
    }

    /// The state after appending an audit event at the next event id.
    pub open spec fn with_event(
        self,
        ctx: ReducerContext,
        event_type: Seq<char>,
        item_id: u64,
        description: Seq<char>,
    ) -> DbView {
        DbView {
            pantry_event: self.pantry_event.push(
                PantryEventView {
                    event_id: self.next_event_id,
                    event_type,
                    item_id,
                    description,
                    actor: ctx.sender,
                    created_at: ctx.timestamp,
                },
            ),
            next_event_id: (self.next_event_id + 1) as u64,
            ..self
        }
    }

    /// Primary keys are unique and below their table's next key, users are
    /// unique by identity, and subscriptions are unique by endpoint.
    pub open spec fn keys_ok(self) -> bool {
        &&& forall|i: int, j: int|
            0 <= i < self.user.len() && 0 <= j < self.user.len() && i != j
                ==> #[trigger] self.user[i].identity != #[trigger] self.user[j].identity
        &&& forall|i: int, j: int|
            0 <= i < self.item.len() && 0 <= j < self.item.len() && i != j
                ==> #[trigger] self.item[i].item_id != #[trigger] self.item[j].item_id
        &&& forall|i: int| 0 <= i < self.item.len() ==> #[trigger] self.item[i].item_id < self.next_item_id
        &&& forall|i: int, j: int|
            0 <= i < self.receipt.len() && 0 <= j < self.receipt.len() && i != j
                ==> #[trigger] self.receipt[i].receipt_id != #[trigger] self.receipt[j].receipt_id
        &&& forall|i: int| 0 <= i < self.receipt.len() ==> #[trigger] self.receipt[i].receipt_id < self.next_receipt_id
        &&& forall|i: int, j: int|
            0 <= i < self.receipt_item.len() && 0 <= j < self.receipt_item.len() && i != j
                ==> #[trigger] self.receipt_item[i].receipt_item_id != #[trigger] self.receipt_item[j].receipt_item_id
        &&& forall|i: int| 0 <= i < self.receipt_item.len() ==> #[trigger] self.receipt_item[i].receipt_item_id < self.next_receipt_item_id
        &&& forall|i: int, j: int|
            0 <= i < self.recipe.len() && 0 <= j < self.recipe.len() && i != j
                ==> #[trigger] self.recipe[i].recipe_id != #[trigger] self.recipe[j].recipe_id
        &&& forall|i: int| 0 <= i < self.recipe.len() ==> #[trigger] self.recipe[i].recipe_id < self.next_recipe_id
        &&& forall|i: int, j: int|
            0 <= i < self.recipe_ingredient.len() && 0 <= j < self.recipe_ingredient.len() && i != j
                ==> #[trigger] self.recipe_ingredient[i].recipe_ingredient_id != #[trigger] self.recipe_ingredient[j].recipe_ingredient_id
        &&& forall|i: int| 0 <= i < self.recipe_ingredient.len() ==> #[trigger] self.recipe_ingredient[i].recipe_ingredient_id < self.next_recipe_ingredient_id
        &&& forall|i: int, j: int|
            0 <= i < self.shopping_list_item.len() && 0 <= j < self.shopping_list_item.len() && i != j
                ==> #[trigger] self.shopping_list_item[i].shopping_item_id != #[trigger] self.shopping_list_item[j].shopping_item_id
        &&& forall|i: int| 0 <= i < self.shopping_list_item.len() ==> #[trigger] self.shopping_list_item[i].shopping_item_id < self.next_shopping_item_id
        &&& forall|i: int, j: int|
            0 <= i < self.digest_subscription.len() && 0 <= j < self.digest_subscription.len() && i != j
                ==> #[trigger] self.digest_subscription[i].subscription_id != #[trigger] self.digest_subscription[j].subscription_id
        &&& forall|i: int| 0 <= i < self.digest_subscription.len() ==> #[trigger] self.digest_subscription[i].subscription_id < self.next_subscription_id
        &&& endpoints_unique(self.digest_subscription)
        &&& forall|i: int, j: int|
            0 <= i < self.pantry_event.len() && 0 <= j < self.pantry_event.len() && i != j
                ==> #[trigger] self.pantry_event[i].event_id != #[trigger] self.pantry_event[j].event_id
        &&& forall|i: int| 0 <= i < self.pantry_event.len() ==> #[trigger] self.pantry_event[i].event_id < self.next_event_id
        &&& forall|i: int, j: int|
            0 <= i < self.expiry_sweep_schedule.len() && 0 <= j < self.expiry_sweep_schedule.len() && i != j
                ==> #[trigger] self.expiry_sweep_schedule[i].scheduled_id != #[trigger] self.expiry_sweep_schedule[j].scheduled_id
        &&& forall|i: int| 0 <= i < self.expiry_sweep_schedule.len()
            ==> #[trigger] self.expiry_sweep_schedule[i].scheduled_id == 0
                || self.expiry_sweep_schedule[i].scheduled_id < self.next_scheduled_id
    }

    /// No item has a negative quantity, and an item is depleted exactly when
    /// none of it is left.
    pub open spec fn stock_ok(self) -> bool {
        forall|i: int| 0 <= i < self.item.len() ==> item_stock_ok(#[trigger] self.item[i])
    }

    /// At most one sweep timer is armed.
    pub open spec fn schedule_ok(self) -> bool {
        self.expiry_sweep_schedule.len() <= 1
    }

    /// The database's invariant.
    pub open spec fn wf(self) -> bool {
        &&& self.keys_ok()
        &&& self.stock_ok()
        &&& self.schedule_ok()
    }
}

/// No two subscriptions address the same endpoint for the same user.
pub open spec fn endpoints_unique(subs: Seq<DigestSubscriptionView>) -> bool {
    forall|i: int, j: int|
        0 <= i < subs.len() && 0 <= j < subs.len() && i != j
            ==> !same_endpoint(#[trigger] subs[i], #[trigger] subs[j])
}

/// No two in-stock (not depleted) items share a name.
pub open spec fn in_stock_names_unique(items: Seq<ItemView>) -> bool {
    forall|i: int, j: int|
        0 <= i < items.len() && 0 <= j < items.len() && i != j && items[i].status != ItemStatus::Depleted
            && items[j].status != ItemStatus::Depleted
            ==> #[trigger] items[i].name != #[trigger] items[j].name
}

/// Two subscriptions address the same endpoint for the same user.
pub open spec fn same_endpoint(a: DigestSubscriptionView, b: DigestSubscriptionView) -> bool {
    a.identity == b.identity && a.channel == b.channel && a.handle == b.handle
}

/// The item's quantity is not negative, and it is depleted exactly when none
/// is left.
pub open spec fn item_stock_ok(it: ItemView) -> bool {
    it.quantity >= 0 && (it.quantity == 0 <==> it.status == ItemStatus::Depleted)
}

impl Database {
    /// An empty database.
    pub fn new() -> (db: Database)
        ensures
            db@ == DbView::empty(),
            db@.wf(),
    {
        let db = Database {
            user: Vec::new(),
            item: Vec::new(),
            receipt: Vec::new(),
            receipt_item: Vec::new(),
            recipe: Vec::new(),
            recipe_ingredient: Vec::new(),
            shopping_list_item: Vec::new(),
            digest_subscription: Vec::new(),
            pantry_event: Vec::new(),
            expiry_sweep_schedule: Vec::new(),
            next_item_id: 1,
            next_receipt_id: 1,
            next_receipt_item_id: 1,
            next_recipe_id: 1,
            next_recipe_ingredient_id: 1,
            next_shopping_item_id: 1,
            next_subscription_id: 1,
            next_event_id: 1,
            next_scheduled_id: 1,
        };
        assert(db@ =~= DbView::empty());
        db
    }
}

} // verus!
