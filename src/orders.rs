//! Totals over orders whose details come from a (simulated) database.
use vstd::prelude::*;

verus! {

/// Why an order could not be looked up.
#[derive(Debug, Clone, Copy, PartialEq, Eq, Structural)]
pub enum OrderError {
    /// The database could not be reached.
    DatabaseUnavailable,
}

impl OrderError {
    pub fn message(&self) -> (r: &'static str)
        ensures
            r@ == "Failed to talk to the database"@,
    {
        "Failed to talk to the database"
    }
}

pub struct OrderDetails {
    pub order_number: u64,
    pub price: u64,
}

/// Whether looking up `order_number` fails.
pub open spec fn lookup_fails(order_number: u64) -> bool {
    order_number % 4 == 0
}

/// The price of `order_number`.
pub open spec fn price_of(order_number: u64) -> u64 {
    seq![999u64, 1089u64, 1029u64][(order_number % 3) as int]
}

/// The sum of the prices of `orders`.
pub open spec fn total_price(orders: Seq<u64>) -> nat
    decreases orders.len(),
{
    if orders.len() == 0 {
        0
    } else {
        (total_price(orders.drop_last()) + price_of(orders.last())) as nat
    }
}

/// The details of `order_number`, as a database query would give them.
pub fn get_order_details(order_number: u64) -> (r: Result<OrderDetails, OrderError>)
    ensures
        r is Err <==> lookup_fails(order_number),
        r is Err ==> r->Err_0 == OrderError::DatabaseUnavailable,
        r is Ok ==> r->Ok_0.order_number == order_number && r->Ok_0.price == price_of(
            order_number,
        ),
{
    if order_number % 4 == 0 {
        Err(OrderError::DatabaseUnavailable)
    } else {
        let prices: Vec<u64> = vec![999, 1089, 1029];
        let index = (order_number % 3) as usize;
        Ok(OrderDetails { order_number, price: prices[index] })
    }
}

/// The price of a prefix of the orders is at most the price of them all.
proof fn lemma_total_price_prefix(orders: Seq<u64>, k: int)
    requires
        0 <= k <= orders.len(),
    ensures
        total_price(orders.take(k)) <= total_price(orders),
    decreases orders.len() - k,
{
    if k < orders.len() {
        lemma_total_price_prefix(orders, k + 1);
        assert(orders.take(k + 1).drop_last() =~= orders.take(k));
    } else {
        assert(orders.take(k) =~= orders);
    }
}

/// No order costs more than 1089.
proof fn lemma_total_price_bound(orders: Seq<u64>)
    ensures
        total_price(orders) <= orders.len() * 1089,
    decreases orders.len(),
{
    if orders.len() > 0 {
        lemma_total_price_bound(orders.drop_last());
        let n = orders.len() as int;
        assert((n - 1) * 1089 + 1089 == n * 1089) by (nonlinear_arith);
    }
}

/// The total price of `order_numbers`; fails as soon as one of them cannot be looked up.
pub fn get_total(order_numbers: &[u64]) -> (r: Result<u64, OrderError>)
    requires
        order_numbers@.len() * 1089 <= u64::MAX,
    ensures
        r is Err <==> exists|i: int|
            0 <= i < order_numbers@.len() && #[trigger] lookup_fails(order_numbers@[i]),
        r is Err ==> r->Err_0 == OrderError::DatabaseUnavailable,
        r is Ok ==> r->Ok_0 == total_price(order_numbers@),
{
    proof {
        lemma_total_price_bound(order_numbers@);
    }
    let mut total: u64 = 0;
    let mut i: usize = 0;
    while i < order_numbers.len()
        invariant
            i <= order_numbers@.len(),
            total == total_price(order_numbers@.take(i as int)),
            total_price(order_numbers@) <= u64::MAX,
            forall|j: int| 0 <= j < i ==> !#[trigger] lookup_fails(order_numbers@[j]),
        decreases order_numbers@.len() - i,
    {
        let order_details = match get_order_details(order_numbers[i]) {
            Ok(d) => d,
            Err(e) => {
                return Err(e);
            },
        };
        proof {
            assert(order_numbers@.take(i + 1).drop_last() =~= order_numbers@.take(i as int));
            lemma_total_price_prefix(order_numbers@, i + 1);
        }
        total = total + order_details.price;
        i = i + 1;
    }
    assert(order_numbers@.take(i as int) =~= order_numbers@);
    Ok(total)
}

} // verus!
