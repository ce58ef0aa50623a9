use vstd::prelude::*;

verus! {

/// A registered user of the marketplace.
#[derive(Debug, PartialEq, Eq)]
pub struct User {
    pub id: String,
    pub name: String,
    pub email: String,
    pub is_seller: bool,
}

/// A product offered by a seller.
///
/// `price_bits` is the IEEE-754 bit pattern of the price (an `f64`); the
/// library carries it unchanged and never reads it as a number.
/// `reserved` counts the units that sit in shopping carts.
#[derive(Debug, PartialEq, Eq)]
pub struct Product {
    pub id: String,
    pub name: String,
    pub description: String,
    pub price_bits: u64,
    pub seller_id: String,
    pub stock: u32,
    pub reserved: u32,
}

impl Clone for Product {
    fn clone(&self) -> (r: Self)
        ensures
            r == *self,
    {
        Product {
            id: self.id.clone(),
            name: self.name.clone(),
            description: self.description.clone(),
            price_bits: self.price_bits,
            seller_id: self.seller_id.clone(),
            stock: self.stock,
            reserved: self.reserved,
        }
    }
}

/// What kind of inventory change an [`InventoryUpdate`] reports.
#[derive(Debug, Clone, Copy, PartialEq, Eq, Structural)]
pub enum InventoryOperation {
    StockUpdate,
    Reserve,
    Purchase,
    ReleaseReservation,
}

/// A change of a product's stock, as sent to the connected clients.
#[derive(Debug, PartialEq, Eq)]
pub struct InventoryUpdate {
    pub product_id: String,
    pub new_stock: u32,
    pub operation: InventoryOperation,
}

/// The content of an [`InventoryUpdate`] as plain values.
pub struct InventoryUpdateView {
    pub product_id: Seq<char>,
    pub new_stock: u32,
    pub operation: InventoryOperation,
}

impl View for InventoryUpdate {
    type V = InventoryUpdateView;

    open spec fn view(&self) -> InventoryUpdateView {
        InventoryUpdateView {
            product_id: self.product_id@,
            new_stock: self.new_stock,
            operation: self.operation,
        }
    }
}

impl Clone for InventoryUpdate {
    fn clone(&self) -> (r: Self)
        ensures
            r == *self,
    {
        InventoryUpdate {
            product_id: self.product_id.clone(),
            new_stock: self.new_stock,
            operation: self.operation,
        }
    }
}

/// A message of the live chat of a seller's store.
#[derive(Debug, PartialEq, Eq)]
pub struct ChatMessage {
    pub user_id: String,
    pub username: String,
    pub message: String,
    pub timestamp: i64,
}

impl Clone for ChatMessage {
    fn clone(&self) -> (r: Self)
        ensures
            r == *self,
    {
        ChatMessage {
            user_id: self.user_id.clone(),
            username: self.username.clone(),
            message: self.message.clone(),
            timestamp: self.timestamp,
        }
    }
}

} // verus!
