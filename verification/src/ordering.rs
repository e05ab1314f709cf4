//! Orders: the checks on a new order, prices taken from the catalog, the
//! order total, the order-created event and the status transition rule.
use crate::http::{BAD_GATEWAY, BAD_REQUEST, INTERNAL_SERVER_ERROR, NOT_FOUND, UNPROCESSABLE_ENTITY};
use crate::money::{
    checked_sum_of_lines, exact_sum_at, max_line_scale, opt_pair, represents, round_half_even,
    round_to_cents, sum_of_lines, sums_exactly, Amount,
};
use crate::text::{decimal_chars, decimal_string};
use vstd::prelude::*;

verus! {

/// The topic on which order creation is announced.
pub const ORDER_CREATED_TOPIC: &'static str = "order-created";

/// Where an order stands.
#[derive(Clone, Copy, Debug, PartialEq, Eq, Structural)]
pub enum OrderStatus {
    Pending,
    Confirmed,
    Cancelled,
}

/// Position of a status along an order's life.
pub open spec fn status_rank(s: OrderStatus) -> int {
    match s {
        OrderStatus::Pending => 0,
        OrderStatus::Confirmed => 1,
        OrderStatus::Cancelled => 2,
    }
}

impl OrderStatus {
    /// The allowed transitions: Pending → Confirmed, Pending → Cancelled,
    /// Confirmed → Cancelled.
    pub open spec fn may_become(self, next: OrderStatus) -> bool {
        ||| self == OrderStatus::Pending && next == OrderStatus::Confirmed
        ||| self == OrderStatus::Pending && next == OrderStatus::Cancelled
        ||| self == OrderStatus::Confirmed && next == OrderStatus::Cancelled
    }

    /// Whether an order in this status may move to `next`.
    pub fn can_transition_to(&self, next: OrderStatus) -> (ok: bool)
        ensures
            ok == self.may_become(next),
    {
        match (*self, next) {
            (OrderStatus::Pending, OrderStatus::Confirmed) => true,
            (OrderStatus::Pending, OrderStatus::Cancelled) => true,
            (OrderStatus::Confirmed, OrderStatus::Cancelled) => true,
            _ => false,
        }
    }
}

/// A cancelled order stays cancelled: no transition leaves Cancelled.
pub proof fn lemma_cancelled_is_final(next: OrderStatus)
    ensures
        !OrderStatus::Cancelled.may_become(next),
{
}

/// Every transition moves forward along Pending, Confirmed, Cancelled; so no
/// status moves to itself and no sequence of transitions returns to a status
/// it left.
pub proof fn lemma_transitions_move_forward(from: OrderStatus, to: OrderStatus)
    requires
        from.may_become(to),
    ensures
        status_rank(from) < status_rank(to),
        from != to,
{
}

/// Every other status can be reached from Pending in one transition.
pub proof fn lemma_pending_reaches_all(s: OrderStatus)
    requires
        s != OrderStatus::Pending,
    ensures
        OrderStatus::Pending.may_become(s),
{
}

/// Why an order operation failed.
#[derive(Debug)]
pub enum OrderError {
    /// The order store failed; the store's description.
    Database(String),
    /// A call to the catalog failed; the client's description.
    Http(String),
    /// The catalog has no product with this id.
    ProductNotFound(i32),
    /// No such order.
    NotFound,
    /// The requested status may not follow the current one.
    InvalidStatusTransition,
}

/// The text of an order error.
pub open spec fn order_error_text(e: OrderError) -> Seq<char> {
    match e {
        OrderError::Database(d) => "Database error: "@ + d@,
        OrderError::Http(h) => "HTTP error: "@ + h@,
        OrderError::ProductNotFound(id) => "Product "@ + decimal_chars(id as int)
            + " not found in catalog"@,
        OrderError::NotFound => "Order not found"@,
        OrderError::InvalidStatusTransition => "Invalid status transition"@,
    }
}

impl OrderError {
    /// The error's text.
    pub fn message(&self) -> (m: String)
        ensures
            m@ == order_error_text(*self),
    {
        match self {
            OrderError::Database(d) => {
                let mut m = String::from_str("Database error: ");
                m.append(d.as_str());
                m
            },
            OrderError::Http(h) => {
                let mut m = String::from_str("HTTP error: ");
                m.append(h.as_str());
                m
            },
            OrderError::ProductNotFound(id) => {
                let mut m = String::from_str("Product ");
                let digits = decimal_string(*id);
                m.append(digits.as_str());
                m.append(" not found in catalog");
                m
            },
            OrderError::NotFound => String::from_str("Order not found"),
            OrderError::InvalidStatusTransition => String::from_str("Invalid status transition"),
        }
    }
}

/// A request to move an order to another status.
#[derive(Debug)]
pub struct UpdateStatusRequest {
    pub status: OrderStatus,
}

/// The outcome of a status update on an order whose current status is
/// `current` (`None`: no such order).
pub open spec fn status_update_outcome(current: Option<OrderStatus>, next: OrderStatus) -> Result<
    OrderStatus,
    OrderError,
> {
    match current {
        None => Err(OrderError::NotFound),
        Some(c) => if c.may_become(next) {
            Ok(next)
        } else {
            Err(OrderError::InvalidStatusTransition)
        },
    }
}

/// The transition table: Pending may become Confirmed or Cancelled,
/// Confirmed may become Cancelled, and nothing else is allowed.
pub proof fn lemma_transition_table(from: OrderStatus, to: OrderStatus)
    ensures
        from.may_become(to) <==> ((from == OrderStatus::Pending && to == OrderStatus::Confirmed)
            || (from == OrderStatus::Pending && to == OrderStatus::Cancelled) || (from
            == OrderStatus::Confirmed && to == OrderStatus::Cancelled)),
{
}

/// A status update: for a missing order it is refused as not found; for an
/// existing order it is accepted, giving the requested status, exactly for
/// Pending → Confirmed, Pending → Cancelled and Confirmed → Cancelled, and
/// refused as an invalid transition otherwise.
pub proof fn lemma_status_update_rule(current: Option<OrderStatus>, next: OrderStatus)
    ensures
        current is None ==> status_update_outcome(current, next) == Err::<
            OrderStatus,
            OrderError,
        >(OrderError::NotFound),
        (current == Some(OrderStatus::Pending) && next == OrderStatus::Confirmed) ==> status_update_outcome(
            current,
            next,
        ) == Ok::<OrderStatus, OrderError>(OrderStatus::Confirmed),
        (current == Some(OrderStatus::Pending) && next == OrderStatus::Cancelled) ==> status_update_outcome(
            current,
            next,
        ) == Ok::<OrderStatus, OrderError>(OrderStatus::Cancelled),
        (current == Some(OrderStatus::Confirmed) && next == OrderStatus::Cancelled) ==> status_update_outcome(
            current,
            next,
        ) == Ok::<OrderStatus, OrderError>(OrderStatus::Cancelled),
        (current is Some && !(current == Some(OrderStatus::Pending) && next == OrderStatus::Confirmed)
            && !(current == Some(OrderStatus::Pending) && next == OrderStatus::Cancelled) && !(current
            == Some(OrderStatus::Confirmed) && next == OrderStatus::Cancelled)) ==> status_update_outcome(
            current,
            next,
        ) == Err::<OrderStatus, OrderError>(OrderError::InvalidStatusTransition),
{
}

/// Decides a status update: the new status, or why it is refused.
pub fn apply_status_update(current: Option<OrderStatus>, req: &UpdateStatusRequest) -> (r: Result<
    OrderStatus,
    OrderError,
>)
    ensures
        r == status_update_outcome(current, req.status),
{
    match current {
        None => Err(OrderError::NotFound),
        Some(c) => {
            if c.can_transition_to(req.status) {
                Ok(req.status)
            } else {
                Err(OrderError::InvalidStatusTransition)
            }
        },
    }
}

/// The answer to a failed status update: 404 for a missing order, 422 for
/// a refused transition, 500 otherwise.
pub fn update_failure_status(e: &OrderError) -> (s: u16)
    ensures
        s == match *e {
            OrderError::NotFound => NOT_FOUND,
            OrderError::InvalidStatusTransition => UNPROCESSABLE_ENTITY,
            _ => INTERNAL_SERVER_ERROR,
        },
{
    match e {
        OrderError::NotFound => NOT_FOUND,
        OrderError::InvalidStatusTransition => UNPROCESSABLE_ENTITY,
        _ => INTERNAL_SERVER_ERROR,
    }
}

/// One line of a new order as the client sends it: no price.
#[derive(Clone, Copy, Debug, PartialEq, Eq, Structural)]
pub struct OrderItemRequest {
    pub product_id: i32,
    pub quantity: i32,
}

/// A new order as the client sends it.
#[derive(Debug)]
pub struct CreateOrderRequest {
    pub user_id: i32,
    pub items: Vec<OrderItemRequest>,
}

/// What the catalog says of a product: id, name, current price and units
/// in stock.
#[derive(Debug)]
pub struct CatalogProduct {
    pub id: i32,
    pub name: String,
    pub price: Amount,
    pub stock: i32,
}

/// An order line after its price was taken from the catalog.
#[derive(Debug)]
pub struct VerifiedItem {
    pub product_id: i32,
    pub name: String,
    pub price: Amount,
    pub quantity: i32,
}

/// The answer to a new order before any price is looked up: 422 for an
/// order without lines, 400 for a line whose quantity is not positive.
pub open spec fn order_request_verdict(items: Seq<OrderItemRequest>) -> Result<(), u16> {
    if items.len() == 0 {
        Err(UNPROCESSABLE_ENTITY)
    } else if exists|i: int| 0 <= i < items.len() && (#[trigger] items[i]).quantity <= 0 {
        Err(BAD_REQUEST)
    } else {
        Ok(())
    }
}

/// Checking a new order: an order without lines is refused with 422; a
/// non-empty order with a line whose quantity is zero or negative, at any
/// position, is refused with 400; an order is accepted exactly when it has
/// lines and every quantity is positive.
pub proof fn lemma_order_request_rule(items: Seq<OrderItemRequest>, i: int)
    ensures
        items.len() == 0 ==> order_request_verdict(items) == Err::<(), u16>(422),
        (items.len() > 0 && 0 <= i < items.len() && items[i].quantity <= 0) ==> order_request_verdict(
            items,
        ) == Err::<(), u16>(400),
        order_request_verdict(items) == Ok::<(), u16>(()) <==> (items.len() > 0 && forall|j: int|
            0 <= j < items.len() ==> (#[trigger] items[j]).quantity > 0),
{
    if items.len() > 0 && 0 <= i < items.len() && items[i].quantity <= 0 {
        assert(items[i].quantity <= 0);
    }
    if !(forall|j: int| 0 <= j < items.len() ==> (#[trigger] items[j]).quantity > 0) {
        let j = choose|j: int| !(0 <= j < items.len() ==> (#[trigger] items[j]).quantity > 0);
        assert(items[j].quantity <= 0);
    }
}

/// Checks a new order before prices are looked up.
pub fn check_order_request(req: &CreateOrderRequest) -> (r: Result<(), u16>)
    ensures
        r == order_request_verdict(req.items@),
{
    if req.items.len() == 0 {
        return Err(UNPROCESSABLE_ENTITY);
    }
    let mut i: usize = 0;
    while i < req.items.len()
        invariant
            i <= req.items.len(),
            forall|j: int| 0 <= j < i ==> (#[trigger] req.items@[j]).quantity > 0,
        decreases req.items.len() - i,
    {
        if req.items[i].quantity <= 0 {
            return Err(BAD_REQUEST);
        }
        i = i + 1;
    }
    Ok(())
}

/// The answer when looking a product up in the catalog failed: 422 when
/// the catalog has no such product, 502 for any other failure.
pub fn catalog_failure_status(e: &OrderError) -> (s: u16)
    ensures
        s == match *e {
            OrderError::ProductNotFound(_) => UNPROCESSABLE_ENTITY,
            _ => BAD_GATEWAY,
        },
{
    match e {
        OrderError::ProductNotFound(_) => UNPROCESSABLE_ENTITY,
        _ => BAD_GATEWAY,
    }
}

/// The catalog's answer status for a product lookup: 404 means the product
/// does not exist; any other status is left to the HTTP client.
pub fn check_catalog_status(status: u16, product_id: i32) -> (r: Result<(), OrderError>)
    ensures
        status == NOT_FOUND ==> r == Err::<(), OrderError>(OrderError::ProductNotFound(product_id)),
        status != NOT_FOUND ==> r is Ok,
{
    if status == NOT_FOUND {
        Err(OrderError::ProductNotFound(product_id))
    } else {
        Ok(())
    }
}

/// The address of a product in the catalog: `<base>/api/products/<id>`.
pub fn product_url(base: &str, product_id: i32) -> (u: String)
    ensures
        u@ == base@ + "/api/products/"@ + decimal_chars(product_id as int),
{
    let mut u = String::from_str(base);
    u.append("/api/products/");
    let digits = decimal_string(product_id);
    u.append(digits.as_str());
    u
}

/// An order line checked against the catalog: refused with 422 when the
/// catalog holds fewer units than ordered; otherwise priced from the
/// catalog, with the catalog's id, name and price rounded to cents (half to
/// even), and the requested quantity.
pub fn verify_item(item: &OrderItemRequest, product: CatalogProduct) -> (r: Result<
    VerifiedItem,
    u16,
>)
    requires
        product.price.valid(),
    ensures
        item.quantity > product.stock ==> r == Err::<VerifiedItem, u16>(UNPROCESSABLE_ENTITY),
        item.quantity <= product.stock ==> (r matches Ok(v) && v.product_id == product.id && v.name
            == product.name && v.price.pair() == round_half_even(product.price.pair(), 2)
            && v.price.valid() && v.quantity == item.quantity),
{
    if item.quantity > product.stock {
        return Err(UNPROCESSABLE_ENTITY);
    }
    Ok(
        VerifiedItem {
            product_id: product.id,
            name: product.name,
            price: round_to_cents(product.price),
            quantity: item.quantity,
        },
    )
}

/// The (price, quantity) lines of an order.
pub open spec fn order_lines(items: Seq<VerifiedItem>) -> Seq<(Amount, i32)> {
    items.map_values(|it: VerifiedItem| (it.price, it.quantity))
}

/// The lines an order's total is taken over are all its lines, one per
/// item and in order: the item's price and quantity.
pub proof fn lemma_order_lines_are_all_items(items: Seq<VerifiedItem>)
    ensures
        order_lines(items).len() == items.len(),
        forall|i: int|
            0 <= i < items.len() ==> #[trigger] order_lines(items)[i] == (items[i].price, items[i].quantity),
{
}

/// The order total `Σ price × quantity` over the priced lines, as
/// `rust_decimal` computes it; `None` where that arithmetic overflows.
pub fn order_total(items: &Vec<VerifiedItem>) -> (t: Option<Amount>)
    requires
        forall|i: int| 0 <= i < items@.len() ==> (#[trigger] items@[i]).price.valid(),
    ensures
        opt_pair(t) == sum_of_lines(order_lines(items@)),
        t matches Some(x) ==> x.valid(),
        sums_exactly(order_lines(items@)) ==> (t matches Some(x) && represents(
            x,
            exact_sum_at(order_lines(items@), max_line_scale(order_lines(items@))),
            max_line_scale(order_lines(items@)),
        )),
{
    let mut lines: Vec<(Amount, i32)> = Vec::new();
    let mut i: usize = 0;
    while i < items.len()
        invariant
            i <= items.len(),
            forall|j: int| 0 <= j < items@.len() ==> (#[trigger] items@[j]).price.valid(),
            lines@ == order_lines(items@.take(i as int)),
        decreases items.len() - i,
    {
        lines.push((items[i].price, items[i].quantity));
        proof {
            assert(order_lines(items@.take(i + 1)) =~= order_lines(items@.take(i as int)).push(
                (items@[i as int].price, items@[i as int].quantity),
            ));
        }
        i = i + 1;
    }
    proof {
        assert(items@.take(i as int) =~= items@);
        assert forall|j: int| 0 <= j < lines@.len() implies (#[trigger] lines@[j]).0.valid() by {
            assert(lines@[j].0 == items@[j].price);
        }
    }
    checked_sum_of_lines(&lines)
}

/// One line of the order-created event: which product, how many.
#[derive(Clone, Copy, Debug, PartialEq, Eq, Structural)]
pub struct OrderCreatedItem {
    pub product_id: i32,
    pub quantity: i32,
}

/// The event announced once an order is stored.
#[derive(Debug)]
pub struct OrderCreatedEvent {
    pub order_id: i32,
    pub user_id: i32,
    pub items: Vec<OrderCreatedItem>,
}

/// The event for a stored order: its id, its user, and each line's product
/// and quantity in order.
pub fn order_created_event(order_id: i32, user_id: i32, items: &Vec<VerifiedItem>) -> (e:
    OrderCreatedEvent)
    ensures
        e.order_id == order_id,
        e.user_id == user_id,
        e.items@.len() == items@.len(),
        forall|i: int|
            0 <= i < items@.len() ==> (#[trigger] e.items@[i]) == (OrderCreatedItem {
                product_id: items@[i].product_id,
                quantity: items@[i].quantity,
            }),
{
    let mut lines: Vec<OrderCreatedItem> = Vec::new();
    let mut i: usize = 0;
    while i < items.len()
        invariant
            i <= items.len(),
            lines@.len() == i,
            forall|j: int|
                0 <= j < i ==> (#[trigger] lines@[j]) == (OrderCreatedItem {
                    product_id: items@[j].product_id,
                    quantity: items@[j].quantity,
                }),
        decreases items.len() - i,
    {
        lines.push(OrderCreatedItem { product_id: items[i].product_id, quantity: items[i].quantity });
        i = i + 1;
    }
    OrderCreatedEvent { order_id, user_id, items: lines }
}

/// The message key of an order-created event: the order id in decimal.
pub fn event_key(e: &OrderCreatedEvent) -> (k: String)
    ensures
        k@ == decimal_chars(e.order_id as int),
{
    decimal_string(e.order_id)
}

} // verus!
