use eshop::consumers::{basket_consumer_step, catalog_consumer_step, ConsumerAction, Delivery, OrderPlaced};
use eshop::http::{delete_status, found_or, Fetched};
use eshop::ordering::OrderCreatedItem;
use eshop::text::decimal_string;

#[test]
fn decimal_rendering() {
    assert_eq!(decimal_string(0), "0");
    assert_eq!(decimal_string(9), "9");
    assert_eq!(decimal_string(10), "10");
    assert_eq!(decimal_string(-305), "-305");
    assert_eq!(decimal_string(i32::MAX), i32::MAX.to_string());
    assert_eq!(decimal_string(i32::MIN), i32::MIN.to_string());
}

#[test]
fn lookups_to_statuses() {
    assert_eq!(found_or::<i32>(Fetched::Failed, 404), Err(500));
    assert_eq!(found_or::<i32>(Fetched::Absent, 404), Err(404));
    assert_eq!(found_or(Fetched::Present(3), 404), Ok(3));
    assert_eq!(delete_status(None), 500);
    assert_eq!(delete_status(Some(0)), 404);
    assert_eq!(delete_status(Some(2)), 204);
}

#[test]
fn basket_consumer_clears_the_ordering_users_basket() {
    match basket_consumer_step(Delivery::Decoded(OrderPlaced { order_id: 3, user_id: 11 })) {
        ConsumerAction::ClearBasket { order_id, user_id } => assert_eq!((order_id, user_id), (3, 11)),
        _ => panic!("expected ClearBasket"),
    }
    assert!(matches!(basket_consumer_step(Delivery::NoPayload), ConsumerAction::Skip));
    assert!(matches!(basket_consumer_step(Delivery::ReceiveFailed("e".into())), ConsumerAction::ReportReceiveError(m) if m == "e"));
    assert!(matches!(basket_consumer_step(Delivery::Undecodable("d".into())), ConsumerAction::ReportDecodeError(m) if m == "d"));
}

#[test]
fn catalog_consumer_decrements_each_line() {
    let items = vec![OrderCreatedItem { product_id: 1, quantity: 2 }, OrderCreatedItem { product_id: 5, quantity: 1 }];
    match catalog_consumer_step(Delivery::Decoded(items.clone())) {
        ConsumerAction::DecrementStock(got) => assert_eq!(got, items),
        _ => panic!("expected DecrementStock"),
    }
    assert!(matches!(catalog_consumer_step(Delivery::NoPayload), ConsumerAction::Skip));
}
