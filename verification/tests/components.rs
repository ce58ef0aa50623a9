use marketplace::components::{
    add_to_cart_label, available, cart, chat, product_card, seller_store, sign_in, ChatEvent,
    ChatState, ProductCardAction, ProductCardEvent, ProductCardState,
};
use marketplace::inventory::{broadcast_update, InventoryManager};
use marketplace::purchase::BulkOrderItem;
use marketplace::types::{ChatMessage, Product};

fn product(id: &str, stock: u32, reserved: u32) -> Product {
    Product {
        id: id.to_string(),
        name: id.to_string(),
        description: String::new(),
        price_bits: 0,
        seller_id: "seller".to_string(),
        stock,
        reserved,
    }
}

fn line(id: &str, quantity: u32) -> BulkOrderItem {
    BulkOrderItem { product_id: id.to_string(), quantity }
}

#[test]
fn chat_typing_and_submitting() {
    let mut state = ChatState::new();
    state.messages.push(ChatMessage {
        user_id: "u".to_string(),
        username: "ann".to_string(),
        message: "hi".to_string(),
        timestamp: 1,
    });
    let state = chat(state, ChatEvent::InputChanged("hello".to_string()));
    assert_eq!(state.message_input, "hello");
    assert_eq!(state.messages.len(), 1);
    let state = chat(state, ChatEvent::Submitted);
    assert_eq!(state.message_input, "");
    assert_eq!(state.messages[0].message, "hi");
}

#[test]
fn product_card_reserves_only_when_available() {
    let state = ProductCardState { product: product("p", 2, 1), in_cart: 0 };
    let (state, action) = product_card(state, ProductCardEvent::AddToCartClicked);
    assert_eq!(action, ProductCardAction::ReserveOne { product_id: "p".to_string() });
    let (state, action) = product_card(state, ProductCardEvent::ReservationAnswered(true));
    assert_eq!(action, ProductCardAction::Nothing);
    assert_eq!(state.in_cart, 1);
    let (state, _) = product_card(state, ProductCardEvent::ReservationAnswered(false));
    assert_eq!(state.in_cart, 1);
    let sold_out = ProductCardState { product: product("p", 1, 1), in_cart: 0 };
    let (_, action) = product_card(sold_out, ProductCardEvent::AddToCartClicked);
    assert_eq!(action, ProductCardAction::Nothing);
}

#[test]
fn product_card_follows_updates_of_its_product_only() {
    let state = ProductCardState { product: product("p", 2, 1), in_cart: 3 };
    let (state, _) = product_card(state, ProductCardEvent::InventoryUpdated(broadcast_update("q", &product("q", 9, 0))));
    assert_eq!(state.product.stock, 2);
    let (state, action) = product_card(state, ProductCardEvent::InventoryUpdated(broadcast_update("p", &product("p", 9, 0))));
    assert_eq!(action, ProductCardAction::Nothing);
    assert_eq!((state.product.stock, state.product.reserved, state.in_cart), (9, 1, 3));
}

#[test]
fn product_card_labels() {
    assert_eq!(available(&product("p", 5, 2)), 3);
    assert_eq!(add_to_cart_label(&product("p", 5, 2)), "Add to Cart");
    assert_eq!(add_to_cart_label(&product("p", 5, 5)), "Out of Stock");
}

#[test]
fn pages_start_empty() {
    assert!(seller_store().products.is_empty());
    let page = sign_in();
    assert_eq!(page.title, "Sign In");
    assert!(page.products.is_empty());
}

fn inventory_with(products: Vec<Product>) -> InventoryManager {
    let mut inv = InventoryManager::new();
    for p in products {
        assert!(inv.insert_product(p));
    }
    inv
}

#[test]
fn cart_checkout_of_reserved_items() {
    let mut inv = inventory_with(vec![product("a", 10, 4), product("b", 3, 3)]);
    assert!(cart(&mut inv, &vec![line("a", 4), line("b", 3)]));
    let a = inv.get_product("a").unwrap();
    let b = inv.get_product("b").unwrap();
    assert_eq!((a.stock, a.reserved), (6, 0));
    assert_eq!((b.stock, b.reserved), (0, 0));
    assert_eq!(inv.take_updates().len(), 2);
}

#[test]
fn cart_checkout_stops_and_releases_every_line() {
    let mut inv = inventory_with(vec![product("a", 10, 6), product("b", 3, 1), product("c", 5, 5)]);
    // "a" is bought, "b" is refused, "c" is never tried; then all three are released
    assert!(!cart(&mut inv, &vec![line("a", 2), line("b", 2), line("c", 1)]));
    let a = inv.get_product("a").unwrap();
    let b = inv.get_product("b").unwrap();
    let c = inv.get_product("c").unwrap();
    assert_eq!((a.stock, a.reserved), (8, 2));
    assert_eq!((b.stock, b.reserved), (3, 1));
    assert_eq!((c.stock, c.reserved), (5, 4));
}
