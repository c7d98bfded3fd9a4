use digital_pantry::poller::{
    digest_text, is_live, should_ack, DeliveryOutcome, on_outbox_insert, poller_mode, setting_or_default, webhook_field, webhook_post,
    DeliveredIds, OutboxAction, OutboxRow, WebhookField,
};
use std::sync::{Arc, Mutex};

type Delivered = Mutex<DeliveredIds>;

fn row(id: u64, delivered: bool) -> OutboxRow {
    OutboxRow {
        outbox_id: id,
        channel: "discord".to_string(),
        handle: "https://hook".to_string(),
        message: "Milk expires soon".to_string(),
        item_count: 3,
        is_delivered: delivered,
    }
}

#[test]
fn dedup_tracks_ids() {
    let d: Arc<Delivered> = Arc::new(Mutex::new(DeliveredIds::new()));
    {
        let mut g = d.lock().unwrap();
        assert!(!g.contains(42));
        g.push(42);
    }
    {
        let g = d.lock().unwrap();
        assert!(g.contains(42));
    }
}

#[test]
fn dry_run_mode_defaults() {
    let v = poller_mode(None);
    assert_eq!(v, "dry-run");
    assert!(!is_live(&v));
    assert!(is_live(&poller_mode(Some("live".to_string()))));
    assert!(!is_live(&poller_mode(Some("LIVE".to_string()))));
}

#[test]
fn settings_default() {
    assert_eq!(setting_or_default(None, "digital-pantry"), "digital-pantry");
    assert_eq!(setting_or_default(Some("other".to_string()), "digital-pantry"), "other");
}

#[test]
fn outbox_rows_processed_once() {
    let mut d = DeliveredIds::new();
    assert_eq!(on_outbox_insert(&mut d, &row(7, true), true), OutboxAction::Skip);
    assert!(!d.contains(7));
    assert_eq!(on_outbox_insert(&mut d, &row(7, false), true), OutboxAction::Process { send: true, ack_id: 7 });
    assert_eq!(on_outbox_insert(&mut d, &row(7, false), true), OutboxAction::Skip);
    assert_eq!(on_outbox_insert(&mut d, &row(8, false), false), OutboxAction::Process { send: false, ack_id: 8 });
}

#[test]
fn webhook_fields_and_text() {
    assert_eq!(webhook_field(&"discord".to_string()), Some(WebhookField::Content));
    assert_eq!(webhook_field(&"telegram".to_string()), Some(WebhookField::Text));
    assert_eq!(webhook_field(&"whatsapp".to_string()), Some(WebhookField::Body));
    assert_eq!(webhook_field(&"email".to_string()), None);
    assert_eq!(WebhookField::Content.key(), "content");
    assert_eq!(WebhookField::Text.key(), "text");
    assert_eq!(WebhookField::Body.key(), "body");
    assert_eq!(digest_text("Milk expires soon", 3), "Milk expires soon (3 items)");
    let r = row(1, false);
    let p = webhook_post(&r.channel, &r.handle, &r.message, r.item_count).unwrap();
    assert_eq!(p.url, "https://hook");
    assert_eq!(p.field, WebhookField::Content);
    assert_eq!(p.text, "Milk expires soon (3 items)");
    assert!(webhook_post(&"sms".to_string(), &r.handle, &r.message, 1).is_none());
}

#[test]
fn failed_delivery_is_not_acked() {
    assert!(should_ack(DeliveryOutcome::Delivered));
    assert!(should_ack(DeliveryOutcome::DryRun));
    assert!(!should_ack(DeliveryOutcome::Failed));
}
