use marketplace::inventory::{broadcast_update, InventoryManager};
use marketplace::types::{InventoryOperation, Product};

fn product(id: &str, seller: &str, stock: u32, reserved: u32) -> Product {
    Product {
        id: id.to_string(),
        name: format!("{} name", id),
        description: format!("{} description", id),
        price_bits: 12.5f64.to_bits(),
        seller_id: seller.to_string(),
        stock,
        reserved,
    }
}

fn inventory_with(products: Vec<Product>) -> InventoryManager {
    let mut inv = InventoryManager::new();
    for p in products {
        assert!(inv.insert_product(p));
    }
    inv
}

#[test]
fn reserve_succeeds_when_units_are_available() {
    let mut inv = inventory_with(vec![product("p1", "s1", 5, 2)]);
    assert!(inv.reserve_product("p1", 3));
    let p = inv.get_product("p1").unwrap();
    assert_eq!(p.stock, 5);
    assert_eq!(p.reserved, 5);
    let updates = inv.take_updates();
    assert_eq!(updates.len(), 1);
    assert_eq!(updates[0].product_id, "p1");
    assert_eq!(updates[0].new_stock, 5);
    assert_eq!(updates[0].operation, InventoryOperation::StockUpdate);
    assert!(inv.take_updates().is_empty());
}

#[test]
fn reserve_refuses_more_than_available() {
    let mut inv = inventory_with(vec![product("p1", "s1", 5, 2)]);
    assert!(!inv.reserve_product("p1", 4));
    assert_eq!(inv.get_product("p1").unwrap().reserved, 2);
    assert!(inv.take_updates().is_empty());
}

#[test]
fn reserve_refuses_unknown_product() {
    let mut inv = inventory_with(vec![product("p1", "s1", 5, 0)]);
    assert!(!inv.reserve_product("nope", 0));
    assert!(inv.take_updates().is_empty());
}

#[test]
fn purchase_takes_units_from_stock_and_reserved() {
    let mut inv = inventory_with(vec![product("p1", "s1", 10, 4)]);
    assert!(inv.purchase_product("p1", 3));
    let p = inv.get_product("p1").unwrap();
    assert_eq!((p.stock, p.reserved), (7, 1));
    let updates = inv.take_updates();
    assert_eq!(updates.len(), 1);
    assert_eq!(updates[0].new_stock, 7);
}

#[test]
fn purchase_refuses_unreserved_units() {
    let mut inv = inventory_with(vec![product("p1", "s1", 10, 2)]);
    assert!(!inv.purchase_product("p1", 3));
    let p = inv.get_product("p1").unwrap();
    assert_eq!((p.stock, p.reserved), (10, 2));
}

#[test]
fn release_gives_units_back() {
    let mut inv = inventory_with(vec![product("p1", "s1", 10, 4)]);
    inv.release_reservation("p1", 3);
    assert_eq!(inv.get_product("p1").unwrap().reserved, 1);
    assert_eq!(inv.take_updates().len(), 1);
    inv.release_reservation("p1", 3);
    assert_eq!(inv.get_product("p1").unwrap().reserved, 1);
    assert!(inv.take_updates().is_empty());
}

#[test]
fn reserve_then_release_restores_the_product() {
    let mut inv = inventory_with(vec![product("p1", "s1", 8, 3), product("p2", "s1", 1, 0)]);
    let before = inv.get_product("p1").unwrap();
    assert!(inv.reserve_product("p1", 5));
    inv.release_reservation("p1", 5);
    assert_eq!(inv.get_product("p1").unwrap(), before);
    assert_eq!(inv.get_product("p2").unwrap(), product("p2", "s1", 1, 0));
}

#[test]
fn reserve_then_purchase_moves_units_out_of_stock() {
    let mut inv = inventory_with(vec![product("p1", "s1", 8, 3)]);
    assert!(inv.reserve_product("p1", 5));
    assert!(inv.purchase_product("p1", 5));
    let p = inv.get_product("p1").unwrap();
    assert_eq!((p.stock, p.reserved), (3, 3));
}

#[test]
fn insert_replaces_and_refuses_overreserved() {
    let mut inv = InventoryManager::new();
    assert!(inv.insert_product(product("p1", "s1", 1, 0)));
    assert!(inv.insert_product(product("p1", "s1", 9, 1)));
    assert_eq!(inv.get_product("p1").unwrap().stock, 9);
    assert!(!inv.insert_product(product("p2", "s1", 1, 2)));
    assert!(inv.get_product("p2").is_none());
}

#[test]
fn seller_products_in_catalogue_order() {
    let inv = inventory_with(vec![
        product("a", "s1", 1, 0),
        product("b", "s2", 1, 0),
        product("c", "s1", 1, 0),
    ]);
    let ids: Vec<String> = inv.get_seller_products("s1").into_iter().map(|p| p.id).collect();
    assert_eq!(ids, vec!["a".to_string(), "c".to_string()]);
    assert!(inv.get_seller_products("s3").is_empty());
}

#[test]
fn handle_update_sets_stock_when_it_covers_reservations() {
    let mut inv = inventory_with(vec![product("p1", "s1", 5, 3)]);
    let upd = broadcast_update("p1", &product("p1", "s1", 7, 0));
    assert!(inv.handle_update(upd));
    assert_eq!(inv.get_product("p1").unwrap().stock, 7);
    let too_low = broadcast_update("p1", &product("p1", "s1", 2, 0));
    assert!(!inv.handle_update(too_low));
    assert_eq!(inv.get_product("p1").unwrap().stock, 7);
}

#[test]
fn broadcast_update_reports_stock() {
    let u = broadcast_update("xyz", &product("other", "s", 42, 1));
    assert_eq!(u.product_id, "xyz");
    assert_eq!(u.new_stock, 42);
    assert_eq!(u.operation, InventoryOperation::StockUpdate);
}

#[test]
fn product_clone_keeps_every_field() {
    let p = product("p1", "s1", 3, 1);
    assert_eq!(p.clone(), p);
    assert_eq!(f64::from_bits(p.clone().price_bits), 12.5);
}
