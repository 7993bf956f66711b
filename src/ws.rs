use vstd::prelude::*;
use crate::types::SlotInfo;

verus! {

/// A message of the account stream: a subscription reply or a notification.
#[derive(Debug, Clone)]
pub struct WebSocketResponse<P> {
    pub method: Option<String>,
    pub params: Option<P>,
    pub result: Option<u64>,
    pub id: Option<u64>,
}

/// A message of a stream that also carries slot notifications.
#[derive(Debug, Clone)]
pub struct OrcaWebSocketResponse<P> {
    pub base: WebSocketResponse<P>,
    pub slot: Option<SlotInfo>,
}

/// The parameters of a notification.
#[derive(Debug, Clone)]
pub struct NotificationParams<T> {
    pub result: T,
    pub subscription: u64,
}

/// The slot a notification was produced at.
#[derive(Debug, Clone, Copy, PartialEq, Eq, Structural)]
pub struct Context {
    pub slot: u64,
}

/// An account as notified: its data is a pair of the encoded blob and the encoding tag.
#[derive(Debug)]
pub struct DataNotification {
    pub data: (String, String),
    pub executable: bool,
    pub lamports: u64,
    pub owner: String,
    pub rent_epoch: u64,
    pub space: Option<u64>,
}

/// A program notification: the account's address (base58) and its contents.
#[derive(Debug)]
pub struct ProgramNotification {
    pub pubkey: String,
    pub account: DataNotification,
}

/// A message that may confirm a subscription.
pub trait HasSubscriptionFields {
    spec fn spec_valid_subscription(&self) -> bool;

    /// Whether the message confirms a subscription: it carries a result and an
    /// id, and names no method.
    fn has_valid_subscription(&self) -> (r: bool)
        ensures
            r == self.spec_valid_subscription(),
    ;
}

impl<P> HasSubscriptionFields for WebSocketResponse<P> {
    open spec fn spec_valid_subscription(&self) -> bool {
        self.result is Some && self.id is Some && self.method is None
    }

    fn has_valid_subscription(&self) -> (r: bool) {
        self.result.is_some() && self.id.is_some() && self.method.is_none()
    }
}

impl<P> HasSubscriptionFields for OrcaWebSocketResponse<P> {
    open spec fn spec_valid_subscription(&self) -> bool {
        self.base.result is Some && self.base.id is Some && self.base.method is None
    }

    fn has_valid_subscription(&self) -> (r: bool) {
        self.base.result.is_some() && self.base.id.is_some() && self.base.method.is_none()
    }
}

/// Whether the message confirms a subscription.
pub fn is_subscription_success<T: HasSubscriptionFields>(response: &T) -> (r: bool)
    ensures
        r == response.spec_valid_subscription(),
{
    response.has_valid_subscription()
}

} // verus!
