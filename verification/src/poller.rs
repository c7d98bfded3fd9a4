//! The digest poller's decisions: which outbox rows to deliver and ack (each
//! id once), which webhook a channel takes, and the text that is posted.
//! Connecting, waiting for rows and sending requests are left to the caller.
use vstd::prelude::*;
use crate::text::{concat_text, decimal_text, u64_text};

verus! {

/// The outbox ids this process has already taken up.
pub struct DeliveredIds {
    ids: Vec<u64>,
}

impl View for DeliveredIds {
    type V = Seq<u64>;

    closed spec fn view(&self) -> Seq<u64> {
        self.ids@
    }
}

impl DeliveredIds {
    /// No id taken up yet.
    pub fn new() -> (d: DeliveredIds)
        ensures
            d@ == Seq::<u64>::empty(),
    {
        DeliveredIds { ids: Vec::new() }
    }

    /// Whether `id` has been taken up.
    pub fn contains(&self, id: u64) -> (r: bool)
        ensures
            r == self@.contains(id),
    {
        let mut k: usize = 0;
        while k < self.ids.len()
            invariant
                0 <= k <= self.ids@.len(),
                forall|j: int| 0 <= j < k ==> self.ids@[j] != id,
            decreases self.ids@.len() - k,
        {
            if self.ids[k] == id {
                assert(self.ids@[k as int] == id);
                return true;
            }
            k = k + 1;
        }
        false
    }

    /// Records `id` as taken up.
    pub fn push(&mut self, id: u64)
        ensures
            final(self)@ == old(self)@.push(id),
    {
        self.ids.push(id);
    }
}

/// A row of the digest outbox: a message waiting to be posted to an endpoint.
pub struct OutboxRow {
    pub outbox_id: u64,
    pub channel: String,
    pub handle: String,
    pub message: String,
    pub item_count: u32,
    pub is_delivered: bool,
}

/// What to do with an outbox row that has just appeared.
#[derive(Clone, Copy, Debug, PartialEq, Eq, Structural)]
pub enum OutboxAction {
    /// Already delivered, or already taken up by this process.
    Skip,
    /// Post it (only when `send` holds; otherwise a dry run), then ack
    /// `ack_id` as [`should_ack`] decides.
    Process { send: bool, ack_id: u64 },
}

/// How the attempt to post a digest went.
#[derive(Clone, Copy, Debug, PartialEq, Eq, Structural)]
pub enum DeliveryOutcome {
    /// Not posted: the poller runs in dry-run mode.
    DryRun,
    /// Posted to the webhook.
    Delivered,
    /// The webhook request failed.
    Failed,
}

/// Whether a processed row is acked: a dry run or a delivery is acked; a
/// failed delivery is not, so the row stays pending on the server.
pub fn should_ack(outcome: DeliveryOutcome) -> (r: bool)
    ensures
        r == !(outcome is Failed),
{
    match outcome {
        DeliveryOutcome::Failed => false,
        _ => true,
    }
}

/// The decision for a row, and the ids taken up afterwards.
pub open spec fn outbox_decision(seen: Seq<u64>, outbox_id: u64, is_delivered: bool, live: bool) -> (Seq<u64>, OutboxAction) {
    if is_delivered || seen.contains(outbox_id) {
        (seen, OutboxAction::Skip)
    } else {
        (seen.push(outbox_id), OutboxAction::Process { send: live, ack_id: outbox_id })
    }
}

/// Decides what to do with a newly inserted outbox row: rows already
/// delivered, and ids already taken up, are skipped; any other row is taken
/// up, posted when `live` holds, and acked.
pub fn on_outbox_insert(delivered: &mut DeliveredIds, row: &OutboxRow, live: bool) -> (a: OutboxAction)
    ensures
        final(delivered)@ == outbox_decision(old(delivered)@, row.outbox_id, row.is_delivered, live).0,
        a == outbox_decision(old(delivered)@, row.outbox_id, row.is_delivered, live).1,
{
    if row.is_delivered {
        return OutboxAction::Skip;
    }
    if delivered.contains(row.outbox_id) {
        return OutboxAction::Skip;
    }
    delivered.push(row.outbox_id);
    OutboxAction::Process { send: live, ack_id: row.outbox_id }
}

/// The JSON field that carries the text for a channel's webhook.
#[derive(Clone, Copy, Debug, PartialEq, Eq, Structural)]
pub enum WebhookField {
    /// Discord: `{"content": ..}`.
    Content,
    /// Telegram: `{"text": ..}`.
    Text,
    /// WhatsApp: `{"body": ..}`.
    Body,
}

impl WebhookField {
    /// The field's name in the JSON body.
    pub open spec fn key_text(self) -> Seq<char> {
        match self {
            WebhookField::Content => "content"@,
            WebhookField::Text => "text"@,
            WebhookField::Body => "body"@,
        }
    }

    /// The field's name in the JSON body.
    pub fn key(&self) -> (r: &'static str)
        ensures
            r@ == self.key_text(),
    {
        match self {
            WebhookField::Content => "content",
            WebhookField::Text => "text",
            WebhookField::Body => "body",
        }
    }
}

/// The webhook field of a channel; unknown channels have none.
pub open spec fn channel_field(channel: Seq<char>) -> Option<WebhookField> {
    if channel == "discord"@ {
        Some(WebhookField::Content)
    } else if channel == "telegram"@ {
        Some(WebhookField::Text)
    } else if channel == "whatsapp"@ {
        Some(WebhookField::Body)
    } else {
        None
    }
}

/// The webhook field of a channel; unknown channels have none.
pub fn webhook_field(channel: &String) -> (r: Option<WebhookField>)
    ensures
        r == channel_field(channel@),
{
    if *channel == String::from_str("discord") {
        Some(WebhookField::Content)
    } else if *channel == String::from_str("telegram") {
        Some(WebhookField::Text)
    } else if *channel == String::from_str("whatsapp") {
        Some(WebhookField::Body)
    } else {
        None
    }
}

/// The posted text: "message (N items)".
pub open spec fn digest_text_spec(message: Seq<char>, item_count: u32) -> Seq<char> {
    message + " ("@ + decimal_text(item_count as nat) + " items)"@
}

/// The posted text: "message (N items)".
pub fn digest_text(message: &str, item_count: u32) -> (r: String)
    ensures
        r@ == digest_text_spec(message@, item_count),
{
    let head = concat_text(message, " (");
    let count = u64_text(item_count as u64);
    let head = concat_text(head.as_str(), count.as_str());
    concat_text(head.as_str(), " items)")
}

/// A webhook request: POST to `url` a JSON object whose `field` holds `text`.
pub struct WebhookPost {
    pub url: String,
    pub field: WebhookField,
    pub text: String,
}

/// The request that delivers a digest to its endpoint (the handle is the
/// webhook URL), or none for an unknown channel.
pub fn webhook_post(channel: &String, handle: &String, message: &String, item_count: u32) -> (r: Option<WebhookPost>)
    ensures
        match r {
            Some(p) => channel_field(channel@) == Some(p.field) && p.url@ == handle@
                && p.text@ == digest_text_spec(message@, item_count),
            None => channel_field(channel@) is None,
        },
{
    match webhook_field(channel) {
        Some(field) => Some(WebhookPost {
            url: handle.clone(),
            field,
            text: digest_text(message.as_str(), item_count),
        }),
        None => None,
    }
}

/// A setting's value, or `default` when it is unset.
pub fn setting_or_default(value: Option<String>, default: &str) -> (r: String)
    ensures
        r@ == match value {
            Some(v) => v@,
            None => default@,
        },
{
    match value {
        Some(v) => v,
        None => String::from_str(default),
    }
}

/// The poller's mode: `DIGEST_POLLER_MODE`, defaulting to "dry-run".
pub fn poller_mode(value: Option<String>) -> (r: String)
    ensures
        r@ == match value {
            Some(v) => v@,
            None => "dry-run"@,
        },
{
    setting_or_default(value, "dry-run")
}

/// Only the mode "live" posts to real webhooks.
pub fn is_live(mode: &String) -> (r: bool)
    ensures
        r == (mode@ == "live"@),
{
    *mode == String::from_str("live")
}

} // verus!
