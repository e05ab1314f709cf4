use eshop::basket::{basket_key, AddItemRequest, Basket, BasketItem, BASKET_TTL_SECONDS};
use eshop::money::Amount;

fn price(mantissa: i128, scale: u32) -> Amount {
    Amount { mantissa, scale }
}

fn req(product_id: i32, name: &str, p: Amount, quantity: i32) -> AddItemRequest {
    AddItemRequest { product_id, name: name.to_string(), price: p, quantity }
}

fn ids(b: &Basket) -> Vec<(i32, i32)> {
    b.items.iter().map(|i| (i.product_id, i.quantity)).collect()
}

#[test]
fn key_has_user_id() {
    assert_eq!(basket_key(42), "basket:42");
    assert_eq!(basket_key(-7), "basket:-7");
    assert_eq!(basket_key(0), "basket:0");
}

#[test]
fn ttl_is_one_week() {
    assert_eq!(BASKET_TTL_SECONDS, 60 * 60 * 24 * 7);
}

#[test]
fn new_basket_is_empty_with_zero_total() {
    let b = Basket::new(3);
    assert_eq!(b.user_id, 3);
    assert!(b.items.is_empty());
    assert_eq!(b.total(), Some(price(0, 0)));
}

#[test]
fn stored_basket_is_kept_and_missing_one_is_new() {
    let mut stored = Basket::new(9);
    stored.add_item(req(1, "pen", price(150, 2), 2));
    let b = Basket::stored_or_new(9, Some(stored));
    assert_eq!(ids(&b), vec![(1, 2)]);
    let e = Basket::stored_or_new(5, None);
    assert_eq!(e.user_id, 5);
    assert!(e.items.is_empty());
}

#[test]
fn adding_same_product_accumulates_quantity() {
    let mut b = Basket::new(1);
    b.add_item(req(10, "book", price(1999, 2), 2));
    b.add_item(req(20, "mug", price(500, 2), 1));
    b.add_item(req(10, "book again", price(1, 0), 3));
    assert_eq!(ids(&b), vec![(10, 5), (20, 1)]);
    // the existing line keeps its name and price
    assert_eq!(b.items[0].name, "book");
    assert_eq!(b.items[0].price, price(1999, 2));
}

#[test]
fn removing_drops_all_lines_of_product_and_keeps_order() {
    let mut b = Basket::new(1);
    b.items = vec![
        BasketItem { product_id: 1, name: "a".into(), price: price(1, 0), quantity: 1 },
        BasketItem { product_id: 2, name: "b".into(), price: price(1, 0), quantity: 2 },
        BasketItem { product_id: 1, name: "c".into(), price: price(1, 0), quantity: 3 },
        BasketItem { product_id: 3, name: "d".into(), price: price(1, 0), quantity: 4 },
    ];
    b.remove_item(1);
    assert_eq!(ids(&b), vec![(2, 2), (3, 4)]);
    b.remove_item(99);
    assert_eq!(ids(&b), vec![(2, 2), (3, 4)]);
}

#[test]
fn remove_undoes_add_of_absent_product() {
    let mut b = Basket::new(1);
    b.add_item(req(1, "a", price(100, 2), 1));
    b.add_item(req(2, "b", price(200, 2), 2));
    let before = ids(&b);
    b.add_item(req(3, "c", price(300, 2), 3));
    b.remove_item(3);
    assert_eq!(ids(&b), before);
}

#[test]
fn removing_twice_is_removing_once() {
    let mut b = Basket::new(1);
    b.add_item(req(1, "a", price(100, 2), 1));
    b.add_item(req(2, "b", price(200, 2), 2));
    b.remove_item(1);
    let once = ids(&b);
    b.remove_item(1);
    assert_eq!(ids(&b), once);
}

#[test]
fn total_is_sum_of_price_times_quantity() {
    let mut b = Basket::new(1);
    b.add_item(req(1, "book", price(1999, 2), 2));
    b.add_item(req(2, "pen", price(5, 0), 1));
    // 19.99 * 2 + 5 = 44.98
    assert_eq!(b.total(), Some(price(4498, 2)));
}

#[test]
fn total_with_mixed_scales() {
    let mut b = Basket::new(1);
    b.add_item(req(1, "a", price(125, 3), 4)); // 0.125 * 4 = 0.500
    b.add_item(req(2, "b", price(3, 1), 1)); // 0.3
    assert_eq!(b.total(), Some(price(800, 3)));
}

#[test]
fn total_of_zero_quantity_line_is_zero() {
    let mut b = Basket::new(1);
    b.add_item(req(1, "a", price(1999, 2), 0));
    assert_eq!(b.total(), Some(price(0, 0)));
}

#[test]
fn total_overflow_is_reported() {
    let mut b = Basket::new(1);
    let max = 79228162514264337593543950335i128;
    b.add_item(req(1, "a", price(max, 0), 2));
    assert_eq!(b.total(), None);
}

#[test]
fn quantity_overflow_is_detected_before_adding() {
    let mut b = Basket::new(1);
    b.add_item(req(1, "a", price(1, 0), i32::MAX));
    assert!(!b.can_add_item(&req(1, "a", price(1, 0), 1)));
    assert!(b.can_add_item(&req(1, "a", price(1, 0), -5)));
    assert!(b.can_add_item(&req(2, "b", price(1, 0), i32::MAX)));
}

#[test]
fn added_units_count_at_the_price_already_on_the_line() {
    let mut b = Basket::new(1);
    b.add_item(req(1, "book", price(1000, 2), 1));
    b.add_item(req(1, "book", price(1, 2), 2));
    // 10.00 * 3, not 10.00 + 0.01 * 2
    assert_eq!(b.total(), Some(price(3000, 2)));
}

#[test]
fn removing_lowers_total_by_the_removed_lines() {
    let mut b = Basket::new(1);
    b.add_item(req(1, "a", price(250, 2), 2));
    b.add_item(req(2, "b", price(100, 2), 1));
    assert_eq!(b.total(), Some(price(600, 2)));
    b.remove_item(1);
    assert_eq!(b.total(), Some(price(100, 2)));
}
