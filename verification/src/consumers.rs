//! How the basket and catalog services react to order-created events. The
//! services receive and decode the messages; these steps decide what each
//! delivery leads to.
use crate::ordering::OrderCreatedItem;
use vstd::prelude::*;

verus! {

/// Consumer group of the basket service.
pub const BASKET_CONSUMER_GROUP: &'static str = "basket-service";

/// Consumer group of the catalog service.
pub const CATALOG_CONSUMER_GROUP: &'static str = "catalog-service";

/// One attempt to take a message from the topic.
pub enum Delivery<T> {
    /// Receiving failed; the client's description.
    ReceiveFailed(String),
    /// A message without a payload.
    NoPayload,
    /// A payload that does not decode; the decoder's description.
    Undecodable(String),
    /// A decoded event.
    Decoded(T),
}

/// What the basket service reads from an order-created event.
#[derive(Clone, Copy, Debug, PartialEq, Eq, Structural)]
pub struct OrderPlaced {
    pub order_id: i32,
    pub user_id: i32,
}

/// What a consumer does with a delivery.
pub enum ConsumerAction {
    /// Log the receive error and go on.
    ReportReceiveError(String),
    /// Ignore the message.
    Skip,
    /// Log the decode error and go on.
    ReportDecodeError(String),
    /// Empty the basket of the user who placed the order.
    ClearBasket { order_id: i32, user_id: i32 },
    /// Take each line's quantity off the product's stock, in order.
    DecrementStock(Vec<OrderCreatedItem>),
}

/// The basket service's reaction: once an order is placed, the user's
/// basket is emptied.
pub fn basket_consumer_step(d: Delivery<OrderPlaced>) -> (a: ConsumerAction)
    ensures
        match d {
            Delivery::ReceiveFailed(e) => a == ConsumerAction::ReportReceiveError(e),
            Delivery::NoPayload => a == ConsumerAction::Skip,
            Delivery::Undecodable(e) => a == ConsumerAction::ReportDecodeError(e),
            Delivery::Decoded(ev) => a == (ConsumerAction::ClearBasket {
                order_id: ev.order_id,
                user_id: ev.user_id,
            }),
        },
{
    match d {
        Delivery::ReceiveFailed(e) => ConsumerAction::ReportReceiveError(e),
        Delivery::NoPayload => ConsumerAction::Skip,
        Delivery::Undecodable(e) => ConsumerAction::ReportDecodeError(e),
        Delivery::Decoded(ev) => ConsumerAction::ClearBasket {
            order_id: ev.order_id,
            user_id: ev.user_id,
        },
    }
}

/// The catalog service's reaction: once an order is placed, each ordered
/// quantity is taken off its product's stock.
pub fn catalog_consumer_step(d: Delivery<Vec<OrderCreatedItem>>) -> (a: ConsumerAction)
    ensures
        match d {
            Delivery::ReceiveFailed(e) => a == ConsumerAction::ReportReceiveError(e),
            Delivery::NoPayload => a == ConsumerAction::Skip,
            Delivery::Undecodable(e) => a == ConsumerAction::ReportDecodeError(e),
            Delivery::Decoded(items) => a == ConsumerAction::DecrementStock(items),
        },
{
    match d {
        Delivery::ReceiveFailed(e) => ConsumerAction::ReportReceiveError(e),
        Delivery::NoPayload => ConsumerAction::Skip,
        Delivery::Undecodable(e) => ConsumerAction::ReportDecodeError(e),
        Delivery::Decoded(items) => ConsumerAction::DecrementStock(items),
    }
}

} // verus!
