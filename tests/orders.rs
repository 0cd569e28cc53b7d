use telemetry_helpers::orders::{get_order_details, get_total, OrderError};

#[test]
fn total_of_available_orders() {
    let order_numbers = vec![1, 2, 3];
    let total = get_total(&order_numbers).unwrap();
    assert_eq!(total, 3117);
}

#[test]
fn total_fails_on_unavailable_order() {
    let order_numbers = vec![3, 4, 5];
    assert_eq!(get_total(&order_numbers), Err(OrderError::DatabaseUnavailable));
    assert_eq!(
        get_total(&order_numbers).unwrap_err().message(),
        "Failed to talk to the database"
    );
}

#[test]
fn total_of_no_orders_is_zero() {
    assert_eq!(get_total(&[]), Ok(0));
}

#[test]
fn order_details_by_number() {
    let d = get_order_details(5).unwrap();
    assert_eq!(d.order_number, 5);
    assert_eq!(d.price, 1029);
    assert_eq!(get_order_details(3).unwrap().price, 999);
    assert_eq!(get_order_details(1).unwrap().price, 1089);
    assert!(get_order_details(0).is_err());
    assert!(get_order_details(8).is_err());
}
