use vstd::prelude::*;

use crate::notification::Seller;
use crate::types::InventoryUpdate;

verus! {

/// The messages exchanged with the WebSocket clients.
#[derive(Debug, PartialEq, Eq)]
pub enum WebSocketMessage {
    InventoryUpdate(InventoryUpdate),
    GetSellers { request_id: String },
    SellersResponse { request_id: String, sellers: Vec<Seller> },
    Broadcast { message: String },
}

/// What the server does with a message received from a client.
#[derive(Debug, PartialEq, Eq)]
pub enum ServerAction {
    /// Apply the stock update to the inventory.
    ApplyInventoryUpdate(InventoryUpdate),
    /// Look the sellers up; once they are found, announce it to every
    /// client (see [`sellers_fetched`]).
    FetchSellers { request_id: String },
    /// Nothing to do.
    Ignore,
}

/// Decides what to do with a message received from a client.
pub fn handle_message(message: WebSocketMessage) -> (a: ServerAction)
    ensures
        match message {
            WebSocketMessage::InventoryUpdate(u) => a == ServerAction::ApplyInventoryUpdate(u),
            WebSocketMessage::GetSellers { request_id } => a == (ServerAction::FetchSellers { request_id }),
            _ => a == ServerAction::Ignore,
        },
{
    match message {
        WebSocketMessage::InventoryUpdate(update) => ServerAction::ApplyInventoryUpdate(update),
        WebSocketMessage::GetSellers { request_id } => ServerAction::FetchSellers { request_id },
        _ => ServerAction::Ignore,
    }
}

/// The message to broadcast to every client once a seller lookup has
/// answered: a test broadcast when the lookup succeeded, nothing when it
/// failed.
pub fn sellers_fetched(succeeded: bool) -> (r: Option<WebSocketMessage>)
    ensures
        r is Some <==> succeeded,
        r matches Some(m) ==> m matches WebSocketMessage::Broadcast { message } && message@ == "Test broadcast message"@,
{
    if succeeded {
        let message = "Test broadcast message".to_string();
        proof {
            broadcast use vstd::string::group_string_axioms;
        }
        Some(WebSocketMessage::Broadcast { message })
    } else {
        None
    }
}

} // verus!
