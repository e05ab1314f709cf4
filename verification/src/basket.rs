//! Shopping baskets: one per user, a list of priced lines keyed by product.
use crate::money::{
    checked_sum_of_lines, decimal_checked_add, exact_sum_at, line_product, max_line_scale, opt_pair,
    pow10, represents, sum_of_lines, sums_exactly, Amount,
};
use crate::text::{decimal_chars, decimal_string};
use vstd::prelude::*;

verus! {

/// How long a stored basket lives after its last change: one week.
pub const BASKET_TTL_SECONDS: u64 = 604800;

/// One line of a basket.
#[derive(Debug)]
pub struct BasketItem {
    pub product_id: i32,
    pub name: String,
    pub price: Amount,
    pub quantity: i32,
}

impl Clone for BasketItem {
    fn clone(&self) -> (r: Self)
        ensures
            r == *self,
    {
        BasketItem {
            product_id: self.product_id,
            name: self.name.clone(),
            price: self.price,
            quantity: self.quantity,
        }
    }
}

/// A user's basket.
#[derive(Debug)]
pub struct Basket {
    pub user_id: i32,
    pub items: Vec<BasketItem>,
}

/// What a client asks to put into a basket.
#[derive(Debug)]
pub struct AddItemRequest {
    pub product_id: i32,
    pub name: String,
    pub price: Amount,
    pub quantity: i32,
}

/// The store key under which a user's basket is kept: `basket:<user_id>`.
pub open spec fn basket_key_chars(user_id: int) -> Seq<char> {
    seq!['b', 'a', 's', 'k', 'e', 't', ':'] + decimal_chars(user_id)
}

/// The store key of a user's basket.
pub fn basket_key(user_id: i32) -> (k: String)
    ensures
        k@ == basket_key_chars(user_id as int),
{
    proof {
        reveal_strlit("basket:");
    }
    let mut k = String::from_str("basket:");
    let digits = decimal_string(user_id);
    k.append(digits.as_str());
    k
}

/// Some line of `items` is for product `pid`.
pub open spec fn holds_product(items: Seq<BasketItem>, pid: i32) -> bool {
    exists|j: int| 0 <= j < items.len() && (#[trigger] items[j]).product_id == pid
}

/// `k` is the first line of `items` for product `pid`.
pub open spec fn is_first_with(items: Seq<BasketItem>, pid: i32, k: int) -> bool {
    &&& 0 <= k < items.len()
    &&& items[k].product_id == pid
    &&& forall|j: int| 0 <= j < k ==> (#[trigger] items[j]).product_id != pid
}

/// The first line of `items` for product `pid` (meaningful where
/// `holds_product` holds).
pub open spec fn first_with(items: Seq<BasketItem>, pid: i32) -> int {
    choose|k: int| is_first_with(items, pid, k)
}

/// The line that a request adds when its product is not in the basket yet.
pub open spec fn item_from(req: AddItemRequest) -> BasketItem {
    BasketItem {
        product_id: req.product_id,
        name: req.name,
        price: req.price,
        quantity: req.quantity,
    }
}

/// Adding to a basket that has no room for the added quantity: the line of
/// that product would leave the `i32` range.
pub open spec fn add_fits(items: Seq<BasketItem>, req: AddItemRequest) -> bool {
    holds_product(items, req.product_id) ==> {
        let q = items[first_with(items, req.product_id)].quantity + req.quantity;
        i32::MIN <= q <= i32::MAX
    }
}

/// The lines after adding: the first line of the product gets the added
/// quantity; without such a line, a new line goes at the end.
pub open spec fn after_add(items: Seq<BasketItem>, req: AddItemRequest) -> Seq<BasketItem> {
    if holds_product(items, req.product_id) {
        let k = first_with(items, req.product_id);
        items.update(
            k,
            BasketItem { quantity: (items[k].quantity + req.quantity) as i32, ..items[k] },
        )
    } else {
        items.push(item_from(req))
    }
}

pub open spec fn keeps_line(pid: i32) -> spec_fn(BasketItem) -> bool {
    |it: BasketItem| it.product_id != pid
}

/// The lines after removing a product: every line of it goes, the others
/// stay in order.
pub open spec fn after_remove(items: Seq<BasketItem>, pid: i32) -> Seq<BasketItem> {
    items.filter(keeps_line(pid))
}

/// No product has two lines.
pub open spec fn distinct_products(items: Seq<BasketItem>) -> bool {
    forall|i: int, j: int|
        0 <= i < j < items.len() ==> (#[trigger] items[i]).product_id != (#[trigger] items[j]).product_id
}

/// The (price, quantity) lines of a basket.
pub open spec fn basket_lines(items: Seq<BasketItem>) -> Seq<(Amount, i32)> {
    items.map_values(|it: BasketItem| (it.price, it.quantity))
}

/// All prices are representable decimals.
pub open spec fn prices_valid(items: Seq<BasketItem>) -> bool {
    forall|i: int| 0 <= i < items.len() ==> (#[trigger] items[i]).price.valid()
}

proof fn lemma_first_unique(items: Seq<BasketItem>, pid: i32, k: int)
    requires
        is_first_with(items, pid, k),
    ensures
        holds_product(items, pid),
        first_with(items, pid) == k,
{
    assert(items[k].product_id == pid);
    let c = first_with(items, pid);
    assert(is_first_with(items, pid, c));
    if c < k {
        assert(items[c].product_id != pid);
    }
    if k < c {
        assert(items[k].product_id != pid);
    }
}


/// The lines a basket's total is taken over are all its lines, one per item
/// and in order: the item's price and quantity.
pub proof fn lemma_basket_lines_are_all_items(items: Seq<BasketItem>)
    ensures
        basket_lines(items).len() == items.len(),
        forall|i: int|
            0 <= i < items.len() ==> #[trigger] basket_lines(items)[i] == (items[i].price, items[i].quantity),
{
}

/// When adding fits: always for a product the basket does not hold; for a
/// held product, exactly when its first line's quantity plus the added
/// quantity stays within `i32`.
pub proof fn lemma_add_fits_rule(items: Seq<BasketItem>, req: AddItemRequest, k: int)
    ensures
        (forall|j: int| 0 <= j < items.len() ==> (#[trigger] items[j]).product_id != req.product_id)
            ==> add_fits(items, req),
        (0 <= k < items.len() && items[k].product_id == req.product_id && forall|j: int|
            0 <= j < k ==> (#[trigger] items[j]).product_id != req.product_id) ==> (add_fits(items, req)
            <==> i32::MIN <= items[k].quantity + req.quantity <= i32::MAX),
{
    if 0 <= k < items.len() && items[k].product_id == req.product_id && forall|j: int|
        0 <= j < k ==> (#[trigger] items[j]).product_id != req.product_id {
        assert(is_first_with(items, req.product_id, k));
        lemma_first_unique(items, req.product_id, k);
    }
}

/// Adding, line by line. When no line has the product, a line with the
/// request's product, name, price and quantity is appended and the others
/// stay. When line `k` is the first with the product, every line stays but
/// line `k`, whose quantity grows by the requested quantity, its product,
/// name and price unchanged.
pub proof fn lemma_add_line_by_line(items: Seq<BasketItem>, req: AddItemRequest, k: int)
    requires
        add_fits(items, req),
    ensures
        (forall|j: int| 0 <= j < items.len() ==> (#[trigger] items[j]).product_id != req.product_id)
            ==> {
            let r = after_add(items, req);
            &&& r.len() == items.len() + 1
            &&& forall|j: int| 0 <= j < items.len() ==> #[trigger] r[j] == items[j]
            &&& r[items.len() as int].product_id == req.product_id
            &&& r[items.len() as int].name == req.name
            &&& r[items.len() as int].price == req.price
            &&& r[items.len() as int].quantity == req.quantity
        },
        (0 <= k < items.len() && items[k].product_id == req.product_id && forall|j: int|
            0 <= j < k ==> (#[trigger] items[j]).product_id != req.product_id) ==> {
            let r = after_add(items, req);
            &&& r.len() == items.len()
            &&& forall|j: int| 0 <= j < items.len() && j != k ==> #[trigger] r[j] == items[j]
            &&& r[k].product_id == items[k].product_id
            &&& r[k].name == items[k].name
            &&& r[k].price == items[k].price
            &&& r[k].quantity == items[k].quantity + req.quantity
        },
{
    if forall|j: int| 0 <= j < items.len() ==> (#[trigger] items[j]).product_id != req.product_id {
        assert(!holds_product(items, req.product_id));
    }
    if 0 <= k < items.len() && items[k].product_id == req.product_id && forall|j: int|
        0 <= j < k ==> (#[trigger] items[j]).product_id != req.product_id {
        assert(is_first_with(items, req.product_id, k));
        lemma_first_unique(items, req.product_id, k);
        assert(i32::MIN <= items[k].quantity + req.quantity <= i32::MAX);
    }
}

/// Removing, line by line: a line remains exactly when it was in the basket
/// and is for another product; the remaining lines keep their order (from
/// an empty basket nothing remains, and a line at the end remains at the
/// end exactly when it is for another product).
pub proof fn lemma_remove_line_by_line(items: Seq<BasketItem>, pid: i32, last: BasketItem)
    ensures
        after_remove(Seq::<BasketItem>::empty(), pid).len() == 0,
        after_remove(items.push(last), pid) == if last.product_id != pid {
            after_remove(items, pid).push(last)
        } else {
            after_remove(items, pid)
        },
        forall|x: BasketItem|
            after_remove(items, pid).contains(x) <==> (items.contains(x) && x.product_id != pid),
        after_remove(items, pid).len() <= items.len(),
{
    broadcast use vstd::seq_lib::group_filter_ensures;

    reveal(Seq::filter);
    items.lemma_filter_push(last, keeps_line(pid));
    let f = after_remove(items, pid);
    assert forall|x: BasketItem| f.contains(x) <==> (items.contains(x) && x.product_id != pid) by {
        if f.contains(x) {
            items.lemma_filter_contains_rev(keeps_line(pid), x);
            let w = choose|w: int| 0 <= w < f.len() && f[w] == x;
            items.lemma_filter_pred(keeps_line(pid), w);
        }
        if items.contains(x) && x.product_id != pid {
            let w = choose|w: int| 0 <= w < items.len() && items[w] == x;
            items.lemma_filter_contains(keeps_line(pid), w);
        }
    }
}

/// How many units of product `pid` the basket holds: the quantity on its
/// first line, or zero.
pub open spec fn quantity_of(items: Seq<BasketItem>, pid: i32) -> int {
    if holds_product(items, pid) {
        items[first_with(items, pid)].quantity as int
    } else {
        0
    }
}

/// Adding `q` units of a product raises the basket's quantity of that
/// product by `q` and leaves every other product's quantity as it was.
pub proof fn lemma_add_raises_quantity(items: Seq<BasketItem>, req: AddItemRequest, other: i32)
    requires
        add_fits(items, req),
    ensures
        quantity_of(after_add(items, req), req.product_id) == quantity_of(items, req.product_id)
            + req.quantity,
        other != req.product_id ==> quantity_of(after_add(items, req), other) == quantity_of(
            items,
            other,
        ),
{
    let new = after_add(items, req);
    let pid = req.product_id;
    if holds_product(items, pid) {
        lemma_first_exists(items, pid);
        let k = first_with(items, pid);
        assert(is_first_with(new, pid, k));
        lemma_first_unique(new, pid, k);
    } else {
        let k = items.len() as int;
        assert forall|j: int| 0 <= j < k implies (#[trigger] new[j]).product_id != pid by {
            assert(new[j] == items[j]);
        }
        assert(is_first_with(new, pid, k));
        lemma_first_unique(new, pid, k);
    }
    if other != pid {
        if holds_product(items, other) {
            lemma_first_exists(items, other);
            let c = first_with(items, other);
            assert forall|j: int| 0 <= j < c implies (#[trigger] new[j]).product_id != other by {
                assert(items[j].product_id != other);
            }
            assert(is_first_with(new, other, c));
            lemma_first_unique(new, other, c);
        } else {
            if holds_product(new, other) {
                let j = choose|j: int| 0 <= j < new.len() && (#[trigger] new[j]).product_id == other;
                if j < items.len() {
                    assert(items[j].product_id == other);
                }
            }
        }
    }
}

/// Adding keeps a basket free of duplicate product lines.
pub proof fn lemma_add_keeps_products_distinct(items: Seq<BasketItem>, req: AddItemRequest)
    requires
        distinct_products(items),
    ensures
        distinct_products(after_add(items, req)),
{
    let new = after_add(items, req);
    if holds_product(items, req.product_id) {
        lemma_first_exists(items, req.product_id);
        assert forall|i: int, j: int| 0 <= i < j < new.len() implies (#[trigger] new[i]).product_id
            != (#[trigger] new[j]).product_id by {
            assert(new[i].product_id == items[i].product_id);
            assert(new[j].product_id == items[j].product_id);
        }
    } else {
        assert forall|i: int, j: int| 0 <= i < j < new.len() implies (#[trigger] new[i]).product_id
            != (#[trigger] new[j]).product_id by {
            assert(new[i] == items[i]);
            if j < items.len() {
                assert(new[j] == items[j]);
            }
        }
    }
}

proof fn lemma_filter_sub(items: Seq<BasketItem>, p: spec_fn(BasketItem) -> bool, x: BasketItem)
    requires
        items.filter(p).contains(x),
    ensures
        items.contains(x),
{
    broadcast use vstd::seq_lib::group_filter_ensures;
    items.lemma_filter_contains_rev(p, x);
}

/// Removing keeps a basket free of duplicate product lines.
pub proof fn lemma_remove_keeps_products_distinct(items: Seq<BasketItem>, pid: i32)
    requires
        distinct_products(items),
    ensures
        distinct_products(after_remove(items, pid)),
    decreases items.len(),
{
    reveal(Seq::filter);
    if items.len() > 0 {
        let rest = items.drop_last();
        assert(distinct_products(rest));
        lemma_remove_keeps_products_distinct(rest, pid);
        let fr = after_remove(rest, pid);
        let f = after_remove(items, pid);
        if keeps_line(pid)(items.last()) {
            assert(f == fr.push(items.last()));
            assert forall|i: int, j: int| 0 <= i < j < f.len() implies (#[trigger] f[i]).product_id
                != (#[trigger] f[j]).product_id by {
                if j == f.len() - 1 {
                    assert(f[i] == fr[i]);
                    assert(fr.contains(fr[i]));
                    lemma_filter_sub(rest, keeps_line(pid), fr[i]);
                    let k = choose|k: int| 0 <= k < rest.len() && rest[k] == fr[i];
                    assert(items[k] == rest[k]);
                    assert(items[items.len() - 1] == items.last());
                } else {
                    assert(f[i] == fr[i]);
                    assert(f[j] == fr[j]);
                }
            }
        }
    }
}

/// After removing a product, the basket holds no line of it.
pub proof fn lemma_remove_drops_product(items: Seq<BasketItem>, pid: i32)
    ensures
        !holds_product(after_remove(items, pid), pid),
{
    broadcast use vstd::seq_lib::group_filter_ensures;
    let f = after_remove(items, pid);
    if holds_product(f, pid) {
        let j = choose|j: int| 0 <= j < f.len() && (#[trigger] f[j]).product_id == pid;
        items.lemma_filter_pred(keeps_line(pid), j);
    }
}

proof fn lemma_filter_all_kept(items: Seq<BasketItem>, pid: i32)
    requires
        !holds_product(items, pid),
    ensures
        after_remove(items, pid) == items,
    decreases items.len(),
{
    reveal(Seq::filter);
    if items.len() > 0 {
        let rest = items.drop_last();
        assert forall|j: int| 0 <= j < rest.len() implies (#[trigger] rest[j]).product_id != pid by {
            assert(rest[j] == items[j]);
        }
        lemma_filter_all_kept(rest, pid);
        assert(items.last() == items[items.len() - 1]);
        assert(rest.push(items.last()) =~= items);
    }
}

/// Removing a product undoes adding it to a basket that did not hold it.
pub proof fn lemma_remove_undoes_add(items: Seq<BasketItem>, req: AddItemRequest)
    requires
        !holds_product(items, req.product_id),
    ensures
        after_remove(after_add(items, req), req.product_id) == items,
{
    items.lemma_filter_push(item_from(req), keeps_line(req.product_id));
    lemma_filter_all_kept(items, req.product_id);
}

/// Removing the same product twice is the same as removing it once.
pub proof fn lemma_remove_idempotent(items: Seq<BasketItem>, pid: i32)
    ensures
        after_remove(after_remove(items, pid), pid) == after_remove(items, pid),
{
    lemma_remove_drops_product(items, pid);
    lemma_filter_all_kept(after_remove(items, pid), pid);
}

/// Adding a product that the basket does not hold adds its line's product
/// to the total, as one more decimal addition at the end of the sum.
pub proof fn lemma_total_after_adding_new_product(items: Seq<BasketItem>, req: AddItemRequest)
    requires
        !holds_product(items, req.product_id),
    ensures
        sum_of_lines(basket_lines(after_add(items, req))) == match sum_of_lines(basket_lines(items)) {
            None => None,
            Some(acc) => match line_product((req.price, req.quantity)) {
                None => None,
                Some(p) => decimal_checked_add(acc, p),
            },
        },
{
    let new_lines = basket_lines(after_add(items, req));
    assert(new_lines.drop_last() =~= basket_lines(items));
    assert(new_lines.last() == (req.price, req.quantity));
}

/// The price at which an added quantity counts: the price already on the
/// product's line, or the request's price for a new line.
pub open spec fn price_counted(items: Seq<BasketItem>, req: AddItemRequest) -> Amount {
    if holds_product(items, req.product_id) {
        items[first_with(items, req.product_id)].price
    } else {
        req.price
    }
}

/// One line's exact value in units of `10^-s`.
pub open spec fn line_value_at(l: (Amount, i32), s: nat) -> int {
    l.0.mantissa * l.1 * pow10((s - l.0.scale) as nat)
}

proof fn lemma_exact_sum_update(lines: Seq<(Amount, i32)>, k: int, x: (Amount, i32), s: nat)
    requires
        0 <= k < lines.len(),
    ensures
        exact_sum_at(lines.update(k, x), s) == exact_sum_at(lines, s) - line_value_at(lines[k], s)
            + line_value_at(x, s),
    decreases lines.len(),
{
    let u = lines.update(k, x);
    if k == lines.len() - 1 {
        assert(u.drop_last() =~= lines.drop_last());
    } else {
        assert(u.drop_last() =~= lines.drop_last().update(k, x));
        lemma_exact_sum_update(lines.drop_last(), k, x, s);
        assert(u.last() == lines.last());
    }
}

/// Adding `q` units of a product raises the exact value of the basket by
/// `q` times the price counted for them: the price already on the
/// product's line (the request's price is then not used), or the
/// request's price for a new line.
pub proof fn lemma_add_raises_exact_value(items: Seq<BasketItem>, req: AddItemRequest, s: nat)
    requires
        add_fits(items, req),
    ensures
        exact_sum_at(basket_lines(after_add(items, req)), s) == exact_sum_at(basket_lines(items), s)
            + line_value_at((price_counted(items, req), req.quantity), s),
{
    let lines = basket_lines(items);
    if holds_product(items, req.product_id) {
        lemma_first_exists(items, req.product_id);
        let k = first_with(items, req.product_id);
        let old = items[k];
        let new_line = BasketItem { quantity: (old.quantity + req.quantity) as i32, ..old };
        assert(basket_lines(items.update(k, new_line)) =~= lines.update(
            k,
            (new_line.price, new_line.quantity),
        ));
        lemma_exact_sum_update(lines, k, (new_line.price, new_line.quantity), s);
        let m = old.price.mantissa as int;
        let p = pow10((s - old.price.scale) as nat);
        assert(m * (old.quantity + req.quantity) * p == m * old.quantity * p + m * req.quantity * p)
            by (nonlinear_arith);
    } else {
        let after = basket_lines(after_add(items, req));
        assert(after.drop_last() =~= lines);
        assert(after.last() == (req.price, req.quantity));
    }
}

/// The lines of one product.
pub open spec fn lines_of(items: Seq<BasketItem>, pid: i32) -> Seq<BasketItem> {
    items.filter(|it: BasketItem| it.product_id == pid)
}

/// Removing a product lowers the exact value of the basket by the value of
/// that product's lines.
pub proof fn lemma_remove_lowers_exact_value(items: Seq<BasketItem>, pid: i32, s: nat)
    ensures
        exact_sum_at(basket_lines(after_remove(items, pid)), s) == exact_sum_at(basket_lines(items), s)
            - exact_sum_at(basket_lines(lines_of(items, pid)), s),
    decreases items.len(),
{
    reveal(Seq::filter);
    if items.len() > 0 {
        let rest = items.drop_last();
        lemma_remove_lowers_exact_value(rest, pid, s);
        let last = items.last();
        assert(basket_lines(items).drop_last() =~= basket_lines(rest));
        assert(basket_lines(items).last() == (last.price, last.quantity));
        if last.product_id == pid {
            let l = lines_of(items, pid);
            assert(l == lines_of(rest, pid).push(last));
            assert(basket_lines(l).drop_last() =~= basket_lines(lines_of(rest, pid)));
            assert(after_remove(items, pid) == after_remove(rest, pid));
        } else {
            let f = after_remove(items, pid);
            assert(f == after_remove(rest, pid).push(last));
            assert(basket_lines(f).drop_last() =~= basket_lines(after_remove(rest, pid)));
            assert(lines_of(items, pid) == lines_of(rest, pid));
        }
    } else {
        assert(after_remove(items, pid) =~= items);
        assert(lines_of(items, pid) =~= items);
    }
}

/// Removing a product that the basket does not hold changes nothing.
pub proof fn lemma_remove_absent_is_noop(items: Seq<BasketItem>, pid: i32)
    requires
        !holds_product(items, pid),
    ensures
        after_remove(items, pid) == items,
{
    lemma_filter_all_kept(items, pid);
}

proof fn lemma_first_exists(items: Seq<BasketItem>, pid: i32)
    requires
        holds_product(items, pid),
    ensures
        is_first_with(items, pid, first_with(items, pid)),
    decreases items.len(),
{
    let rest = items.drop_last();
    if holds_product(rest, pid) {
        lemma_first_exists(rest, pid);
        let k = first_with(rest, pid);
        assert forall|j: int| 0 <= j < k implies (#[trigger] items[j]).product_id != pid by {
            assert(items[j] == rest[j]);
        }
        assert(is_first_with(items, pid, k));
    } else {
        let k = items.len() - 1;
        let w = choose|j: int| 0 <= j < items.len() && (#[trigger] items[j]).product_id == pid;
        if w < k {
            assert(rest[w] == items[w]);
        }
        assert forall|j: int| 0 <= j < k implies (#[trigger] items[j]).product_id != pid by {
            assert(items[j] == rest[j]);
        }
        assert(is_first_with(items, pid, k));
    }
}

impl Basket {
    /// An empty basket for the user.
    pub fn new(user_id: i32) -> (b: Basket)
        ensures
            b.user_id == user_id,
            b.items@.len() == 0,
            sum_of_lines(basket_lines(b.items@)) == Some((0int, 0int)),
    {
        Basket { user_id, items: Vec::new() }
    }

    /// The stored basket when there is one, else an empty basket for the
    /// user.
    pub fn stored_or_new(user_id: i32, stored: Option<Basket>) -> (b: Basket)
        ensures
            stored matches Some(s) ==> b == s,
            stored is None ==> b.user_id == user_id && b.items@.len() == 0,
    {
        match stored {
            Some(s) => s,
            None => Basket::new(user_id),
        }
    }

    /// Whether adding `req` keeps the product's quantity in range; where it
    /// does not, `add_item` is not to be called (the arithmetic would
    /// overflow).
    pub fn can_add_item(&self, req: &AddItemRequest) -> (ok: bool)
        ensures
            ok == add_fits(self.items@, *req),
    {
        let mut i: usize = 0;
        while i < self.items.len()
            invariant
                i <= self.items.len(),
                forall|j: int| 0 <= j < i ==> (#[trigger] self.items@[j]).product_id != req.product_id,
            decreases self.items.len() - i,
        {
            if self.items[i].product_id == req.product_id {
                proof {
                    lemma_first_unique(self.items@, req.product_id, i as int);
                }
                let q: i64 = self.items[i].quantity as i64 + req.quantity as i64;
                return i32::MIN as i64 <= q && q <= i32::MAX as i64;
            }
            i = i + 1;
        }
        true
    }

    /// Adds a request to the basket: the product's first line gets the
    /// added quantity, or a new line is appended.
    pub fn add_item(&mut self, req: AddItemRequest)
        requires
            add_fits(old(self).items@, req),
        ensures
            final(self).user_id == old(self).user_id,
            final(self).items@ == after_add(old(self).items@, req),
            distinct_products(old(self).items@) ==> distinct_products(final(self).items@),
    {
        proof {
            if distinct_products(old(self).items@) {
                lemma_add_keeps_products_distinct(old(self).items@, req);
            }
        }
        let mut i: usize = 0;
        while i < self.items.len()
            invariant
                i <= self.items.len(),
                self.items@ == old(self).items@,
                self.user_id == old(self).user_id,
                add_fits(self.items@, req),
                forall|j: int| 0 <= j < i ==> (#[trigger] self.items@[j]).product_id != req.product_id,
            decreases self.items.len() - i,
        {
            if self.items[i].product_id == req.product_id {
                proof {
                    lemma_first_unique(self.items@, req.product_id, i as int);
                }
                let mut line = self.items[i].clone();
                line.quantity = line.quantity + req.quantity;
                self.items.set(i, line);
                return;
            }
            i = i + 1;
        }
        self.items.push(
            BasketItem {
                product_id: req.product_id,
                name: req.name,
                price: req.price,
                quantity: req.quantity,
            },
        );
    }

    /// Removes every line of the product; the other lines keep their order.
    pub fn remove_item(&mut self, product_id: i32)
        ensures
            final(self).user_id == old(self).user_id,
            final(self).items@ == after_remove(old(self).items@, product_id),
            distinct_products(old(self).items@) ==> distinct_products(final(self).items@),
            !holds_product(final(self).items@, product_id),
    {
        proof {
            if distinct_products(old(self).items@) {
                lemma_remove_keeps_products_distinct(old(self).items@, product_id);
            }
            lemma_remove_drops_product(old(self).items@, product_id);
        }
        let ghost keep = keeps_line(product_id);
        let mut kept: Vec<BasketItem> = Vec::new();
        let mut i: usize = 0;
        while i < self.items.len()
            invariant
                i <= self.items.len(),
                self.items@ == old(self).items@,
                self.user_id == old(self).user_id,
                keep == keeps_line(product_id),
                kept@ == self.items@.take(i as int).filter(keep),
            decreases self.items.len() - i,
        {
            proof {
                self.items@.take(i as int).lemma_filter_push(self.items@[i as int], keep);
                assert(self.items@.take(i as int).push(self.items@[i as int]) =~= self.items@.take(i + 1));
            }
            if self.items[i].product_id != product_id {
                kept.push(self.items[i].clone());
            }
            i = i + 1;
        }
        proof {
            assert(self.items@.take(i as int) =~= self.items@);
        }
        self.items = kept;
    }

    /// The basket total `Σ price × quantity`, computed as `rust_decimal`
    /// computes it; `None` where that arithmetic overflows (where the
    /// decimal operators would panic).
    pub fn total(&self) -> (t: Option<Amount>)
        requires
            prices_valid(self.items@),
        ensures
            opt_pair(t) == sum_of_lines(basket_lines(self.items@)),
            t matches Some(x) ==> x.valid(),
            sums_exactly(basket_lines(self.items@)) ==> (t matches Some(x) && represents(
                x,
                exact_sum_at(basket_lines(self.items@), max_line_scale(basket_lines(self.items@))),
                max_line_scale(basket_lines(self.items@)),
            )),
    {
        let mut lines: Vec<(Amount, i32)> = Vec::new();
        let mut i: usize = 0;
        while i < self.items.len()
            invariant
                i <= self.items.len(),
                prices_valid(self.items@),
                lines@ == basket_lines(self.items@.take(i as int)),
            decreases self.items.len() - i,
        {
            lines.push((self.items[i].price, self.items[i].quantity));
            proof {
                assert(basket_lines(self.items@.take(i + 1)) =~= basket_lines(self.items@.take(i as int)).push(
                    (self.items@[i as int].price, self.items@[i as int].quantity),
                ));
            }
            i = i + 1;
        }
        proof {
            assert(self.items@.take(i as int) =~= self.items@);
            assert forall|j: int| 0 <= j < lines@.len() implies (#[trigger] lines@[j]).0.valid() by {
                assert(lines@[j].0 == self.items@[j].price);
            }
        }
        checked_sum_of_lines(&lines)
    }
}

} // verus!
