use marketplace::inventory::broadcast_update;
use marketplace::notification::{NotificationManager, NotificationPreferences, Seller};
use marketplace::server::{handle_message, sellers_fetched, ServerAction, WebSocketMessage};
use marketplace::types::Product;
use std::sync::Arc;

#[test]
fn inventory_updates_are_applied() {
    let p = Product {
        id: "p".to_string(),
        name: String::new(),
        description: String::new(),
        price_bits: 0,
        seller_id: String::new(),
        stock: 3,
        reserved: 0,
    };
    let u = broadcast_update("p", &p);
    let a = handle_message(WebSocketMessage::InventoryUpdate(broadcast_update("p", &p)));
    assert_eq!(a, ServerAction::ApplyInventoryUpdate(u));
}

#[test]
fn seller_requests_fetch_sellers() {
    let a = handle_message(WebSocketMessage::GetSellers { request_id: "r1".to_string() });
    assert_eq!(a, ServerAction::FetchSellers { request_id: "r1".to_string() });
}

#[test]
fn other_messages_are_ignored() {
    let seller = Seller {
        id: "s".to_string(),
        name: "n".to_string(),
        email: "e".to_string(),
        notification_preferences: NotificationPreferences {
            low_stock_alerts: true,
            payment_notifications: false,
            order_updates: true,
        },
    };
    assert_eq!(seller.clone(), seller);
    let a = handle_message(WebSocketMessage::SellersResponse { request_id: "r".to_string(), sellers: vec![seller] });
    assert_eq!(a, ServerAction::Ignore);
    let b = handle_message(WebSocketMessage::Broadcast { message: "x".to_string() });
    assert_eq!(b, ServerAction::Ignore);
}

#[test]
fn broadcast_after_seller_lookup() {
    assert_eq!(
        sellers_fetched(true),
        Some(WebSocketMessage::Broadcast { message: "Test broadcast message".to_string() })
    );
    assert_eq!(sellers_fetched(false), None);
}

#[test]
fn notification_manager_keeps_its_pool() {
    let pool = Arc::new(7u8);
    let m = NotificationManager::new(pool.clone());
    assert!(Arc::ptr_eq(&m.db_pool, &pool));
}
