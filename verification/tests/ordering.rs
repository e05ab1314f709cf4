use eshop::money::Amount;
use eshop::ordering::OrderStatus::{Cancelled, Confirmed, Pending};
use eshop::ordering::{
    apply_status_update, catalog_failure_status, check_catalog_status, check_order_request,
    event_key, order_created_event, order_total, product_url, update_failure_status, verify_item,
    CatalogProduct, CreateOrderRequest, OrderCreatedItem, OrderError, OrderItemRequest,
    OrderStatus, UpdateStatusRequest, VerifiedItem, ORDER_CREATED_TOPIC,
};

fn a(mantissa: i128, scale: u32) -> Amount {
    Amount { mantissa, scale }
}

fn line(product_id: i32, quantity: i32) -> OrderItemRequest {
    OrderItemRequest { product_id, quantity }
}

#[test]
fn allowed_transitions() {
    assert!(Pending.can_transition_to(Confirmed));
    assert!(Pending.can_transition_to(Cancelled));
    assert!(Confirmed.can_transition_to(Cancelled));
    assert!(!Confirmed.can_transition_to(Pending));
    assert!(!Cancelled.can_transition_to(Pending));
    assert!(!Cancelled.can_transition_to(Confirmed));
    for s in [Pending, Confirmed, Cancelled] {
        assert!(!s.can_transition_to(s));
        assert!(!Cancelled.can_transition_to(s));
    }
}

#[test]
fn status_update_outcomes() {
    let confirm = UpdateStatusRequest { status: OrderStatus::Confirmed };
    assert!(matches!(apply_status_update(None, &confirm), Err(OrderError::NotFound)));
    assert!(matches!(
        apply_status_update(Some(OrderStatus::Pending), &confirm),
        Ok(OrderStatus::Confirmed)
    ));
    assert!(matches!(
        apply_status_update(Some(OrderStatus::Cancelled), &confirm),
        Err(OrderError::InvalidStatusTransition)
    ));
}

#[test]
fn update_failure_statuses() {
    assert_eq!(update_failure_status(&OrderError::NotFound), 404);
    assert_eq!(update_failure_status(&OrderError::InvalidStatusTransition), 422);
    assert_eq!(update_failure_status(&OrderError::Database("down".into())), 500);
    assert_eq!(update_failure_status(&OrderError::ProductNotFound(3)), 500);
}

#[test]
fn order_request_checks() {
    let empty = CreateOrderRequest { user_id: 1, items: vec![] };
    assert_eq!(check_order_request(&empty), Err(422));
    let zero = CreateOrderRequest { user_id: 1, items: vec![line(1, 2), line(2, 0)] };
    assert_eq!(check_order_request(&zero), Err(400));
    let negative = CreateOrderRequest { user_id: 1, items: vec![line(1, -1)] };
    assert_eq!(check_order_request(&negative), Err(400));
    let fine = CreateOrderRequest { user_id: 1, items: vec![line(1, 2), line(2, 1)] };
    assert_eq!(check_order_request(&fine), Ok(()));
}

#[test]
fn catalog_failures() {
    assert_eq!(catalog_failure_status(&OrderError::ProductNotFound(5)), 422);
    assert_eq!(catalog_failure_status(&OrderError::Http("timeout".into())), 502);
    assert!(matches!(check_catalog_status(404, 5), Err(OrderError::ProductNotFound(5))));
    assert!(check_catalog_status(200, 5).is_ok());
    assert!(check_catalog_status(500, 5).is_ok());
}

#[test]
fn product_address() {
    assert_eq!(product_url("http://catalog:3000", 17), "http://catalog:3000/api/products/17");
}

#[test]
fn verified_item_takes_catalog_data_and_rounds_price() {
    let p = CatalogProduct { id: 7, name: "lamp".into(), price: a(12345, 3), stock: 3 };
    let v = verify_item(&line(7, 3), p).unwrap();
    assert_eq!(v.product_id, 7);
    assert_eq!(v.name, "lamp");
    assert_eq!(v.price, a(1234, 2));
    assert_eq!(v.quantity, 3);
}

#[test]
fn order_total_sums_lines() {
    let items = vec![
        VerifiedItem { product_id: 1, name: "a".into(), price: a(1050, 2), quantity: 2 },
        VerifiedItem { product_id: 2, name: "b".into(), price: a(199, 2), quantity: 3 },
    ];
    // 10.50 * 2 + 1.99 * 3 = 26.97
    assert_eq!(order_total(&items), Some(a(2697, 2)));
}

#[test]
fn created_event_lists_lines_in_order() {
    let items = vec![
        VerifiedItem { product_id: 4, name: "a".into(), price: a(1, 0), quantity: 2 },
        VerifiedItem { product_id: 9, name: "b".into(), price: a(1, 0), quantity: 5 },
    ];
    let e = order_created_event(31, 8, &items);
    assert_eq!(e.order_id, 31);
    assert_eq!(e.user_id, 8);
    assert_eq!(
        e.items,
        vec![
            OrderCreatedItem { product_id: 4, quantity: 2 },
            OrderCreatedItem { product_id: 9, quantity: 5 }
        ]
    );
    assert_eq!(event_key(&e), "31");
    assert_eq!(ORDER_CREATED_TOPIC, "order-created");
}

#[test]
fn order_error_texts() {
    assert_eq!(OrderError::Database("x".into()).message(), "Database error: x");
    assert_eq!(OrderError::Http("y".into()).message(), "HTTP error: y");
    assert_eq!(OrderError::ProductNotFound(12).message(), "Product 12 not found in catalog");
    assert_eq!(OrderError::NotFound.message(), "Order not found");
    assert_eq!(OrderError::InvalidStatusTransition.message(), "Invalid status transition");
}

#[test]
fn line_beyond_stock_is_refused() {
    let p = CatalogProduct { id: 7, name: "lamp".into(), price: a(100, 2), stock: 2 };
    assert_eq!(verify_item(&line(7, 3), p).err(), Some(422));
    let empty = CatalogProduct { id: 8, name: "mug".into(), price: a(100, 2), stock: 0 };
    assert_eq!(verify_item(&line(8, 1), empty).err(), Some(422));
}
