//! Inventory, reservation and purchase logic of a live-selling marketplace,
//! with the decisions of its web components and its WebSocket server.

pub mod seq_facts;
pub mod types;
pub mod inventory;
pub mod reservation;
pub mod purchase;
pub mod analytics;
pub mod notification;
pub mod server;
pub mod components;
