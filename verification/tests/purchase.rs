use marketplace::inventory::InventoryManager;
use marketplace::purchase::{BulkOrderItem, PurchaseManager};
use marketplace::reservation::{ReservationError, ReservationManager};
use marketplace::types::Product;

fn product(id: &str, stock: u32, reserved: u32) -> Product {
    Product {
        id: id.to_string(),
        name: id.to_string(),
        description: String::new(),
        price_bits: 0,
        seller_id: "seller".to_string(),
        stock,
        reserved,
    }
}

fn inventory_with(products: Vec<Product>) -> InventoryManager {
    let mut inv = InventoryManager::new();
    for p in products {
        assert!(inv.insert_product(p));
    }
    inv
}

fn line(id: &str, quantity: u32) -> BulkOrderItem {
    BulkOrderItem { product_id: id.to_string(), quantity }
}

fn is_v4(s: &str) -> bool {
    let c: Vec<char> = s.chars().collect();
    c.len() == 36
        && c.iter().enumerate().all(|(i, ch)| {
            if [8, 13, 18, 23].contains(&i) {
                *ch == '-'
            } else {
                ch.is_ascii_digit() || ('a'..='f').contains(ch)
            }
        })
        && c[14] == '4'
        && ['8', '9', 'a', 'b'].contains(&c[19])
}

#[test]
fn reservation_manager_times_out_after_fifteen_minutes() {
    assert_eq!(ReservationManager::new().timeout_secs, 900);
}

#[test]
fn create_reservation_returns_fresh_uuid() {
    let rm = ReservationManager::new();
    let mut inv = inventory_with(vec![product("p", 3, 0)]);
    let a = rm.create_reservation(&mut inv, "p".to_string(), 1).unwrap();
    let b = rm.create_reservation(&mut inv, "p".to_string(), 1).unwrap();
    assert!(is_v4(&a));
    assert!(is_v4(&b));
    assert_ne!(a, b);
    assert_eq!(inv.get_product("p").unwrap().reserved, 2);
}

#[test]
fn create_reservation_error_when_unavailable() {
    let rm = ReservationManager::new();
    let mut inv = inventory_with(vec![product("p", 3, 3)]);
    let e = rm.create_reservation(&mut inv, "p".to_string(), 1).unwrap_err();
    assert_eq!(e, ReservationError::UnableToReserve);
    assert_eq!(e.message(), "Unable to reserve product");
}

#[test]
fn bulk_purchase_buys_everything_when_all_fit() {
    let pm = PurchaseManager { reservation_manager: ReservationManager::new() };
    let mut inv = inventory_with(vec![product("a", 10, 2), product("b", 4, 0)]);
    let out = pm.process_bulk_purchase(&mut inv, vec![line("a", 3), line("b", 4), line("a", 5)]);
    assert_eq!(out.result.successful_orders, vec![line("a", 3), line("b", 4), line("a", 5)]);
    assert!(out.result.failed_orders.is_empty());
    assert_eq!(out.reservations.len(), 3);
    assert!(out.reservations.iter().all(|r| is_v4(&r.reservation_id)));
    let a = inv.get_product("a").unwrap();
    let b = inv.get_product("b").unwrap();
    assert_eq!((a.stock, a.reserved), (2, 2));
    assert_eq!((b.stock, b.reserved), (0, 0));
    // three reservations then three purchases were announced
    let ups = inv.take_updates();
    let stocks: Vec<u32> = ups.iter().map(|u| u.new_stock).collect();
    assert_eq!(stocks, vec![10, 4, 10, 7, 0, 2]);
}

#[test]
fn bulk_purchase_changes_nothing_when_a_line_fails() {
    let pm = PurchaseManager { reservation_manager: ReservationManager::new() };
    let mut inv = inventory_with(vec![product("a", 10, 2), product("b", 4, 0)]);
    let before_a = inv.get_product("a").unwrap();
    let before_b = inv.get_product("b").unwrap();
    let out = pm.process_bulk_purchase(&mut inv, vec![line("a", 3), line("b", 5), line("missing", 1), line("b", 2)]);
    assert!(out.result.successful_orders.is_empty());
    assert_eq!(out.result.failed_orders, vec![line("b", 5), line("missing", 1)]);
    let reserved: Vec<(String, u32)> = out.reservations.iter().map(|r| (r.product_id.clone(), r.quantity)).collect();
    assert_eq!(reserved, vec![("a".to_string(), 3), ("b".to_string(), 2)]);
    assert_eq!(inv.get_product("a").unwrap(), before_a);
    assert_eq!(inv.get_product("b").unwrap(), before_b);
    // two reservations then their two releases were announced
    assert_eq!(inv.take_updates().len(), 4);
}

#[test]
fn bulk_purchase_counts_lines_of_one_product_together() {
    let pm = PurchaseManager { reservation_manager: ReservationManager::new() };
    let mut inv = inventory_with(vec![product("a", 5, 0)]);
    let out = pm.process_bulk_purchase(&mut inv, vec![line("a", 3), line("a", 3)]);
    assert_eq!(out.result.failed_orders, vec![line("a", 3)]);
    assert!(out.result.successful_orders.is_empty());
    assert_eq!(inv.get_product("a").unwrap().reserved, 0);
    assert_eq!(inv.get_product("a").unwrap().stock, 5);
}

#[test]
fn empty_bulk_purchase_does_nothing() {
    let pm = PurchaseManager { reservation_manager: ReservationManager::new() };
    let mut inv = inventory_with(vec![product("a", 5, 1)]);
    let out = pm.process_bulk_purchase(&mut inv, vec![]);
    assert!(out.result.successful_orders.is_empty());
    assert!(out.result.failed_orders.is_empty());
    assert!(out.reservations.is_empty());
    assert!(inv.take_updates().is_empty());
}
