use vstd::prelude::*;

use crate::inventory::{can_reserve, product_named, spec_reserve, stock_update_of, InventoryManager};

verus! {

/// `s` is a random (version 4) UUID in hyphenated lower-case form, such as
/// `67e55044-10b1-426f-9247-bb680e5fe0c8`.
pub open spec fn is_hyphenated_v4(s: Seq<char>) -> bool {
    &&& s.len() == 36
    &&& forall|i: int| #![trigger s[i]]
        0 <= i < 36 ==> if i == 8 || i == 13 || i == 18 || i == 23 {
            s[i] == '-'
        } else {
            ('0' <= s[i] <= '9') || ('a' <= s[i] <= 'f')
        }
    &&& s[14] == '4'
    &&& s[19] == '8' || s[19] == '9' || s[19] == 'a' || s[19] == 'b'
}

/// A fresh reservation id: `uuid::Uuid::new_v4()` formatted with
/// `to_string`. The value is random; the contract claims only its shape,
/// as the uuid crate writes it (hyphenated lower-case hex, version nibble
/// `4`, variant nibble one of `8`, `9`, `a`, `b`).
#[verifier::external_body]
fn new_v4_string() -> (s: String)
    ensures
        is_hyphenated_v4(s@),
{
    uuid::Uuid::new_v4().to_string()
}

/// Why a reservation could not be made.
#[derive(Debug, Clone, Copy, PartialEq, Eq, Structural)]
pub enum ReservationError {
    /// The product does not exist or has too few units available.
    UnableToReserve,
}

impl ReservationError {
    /// The error's text.
    pub fn message(&self) -> (r: &'static str)
        ensures
            r@ == "Unable to reserve product"@,
    {
        "Unable to reserve product"
    }
}

/// Hands out reservations of inventory units; a reservation lapses after
/// `timeout_secs` seconds.
pub struct ReservationManager {
    pub timeout_secs: u64,
}

impl ReservationManager {
    /// A manager whose reservations lapse after 15 minutes.
    pub fn new() -> (r: Self)
        ensures
            r.timeout_secs == 15 * 60,
    {
        ReservationManager { timeout_secs: 15 * 60 }
    }

    /// Reserves `quantity` units of `product_id` in `inventory` under a fresh
    /// reservation id. The caller is to release the reservation once
    /// `timeout_secs` have passed.
    pub fn create_reservation(&self, inventory: &mut InventoryManager, product_id: String, quantity: u32) -> (r: Result<String, ReservationError>)
        requires
            old(inventory).wf(),
        ensures
            final(inventory).wf(),
            r is Ok <==> can_reserve(old(inventory).catalog(), product_id@, quantity),
            r matches Ok(id) ==> is_hyphenated_v4(id@),
            r matches Err(e) ==> e == ReservationError::UnableToReserve,
            final(inventory).catalog() == spec_reserve(old(inventory).catalog(), product_id@, quantity),
            final(inventory).pending_updates() == (if r is Ok {
                old(inventory).pending_updates().push(
                    stock_update_of(product_named(final(inventory).catalog(), product_id@)))
            } else {
                old(inventory).pending_updates()
            }),
    {
        let reservation_id = new_v4_string();
        if inventory.reserve_product(product_id.as_str(), quantity) {
            Ok(reservation_id)
        } else {
            Err(ReservationError::UnableToReserve)
        }
    }
}

} // verus!
