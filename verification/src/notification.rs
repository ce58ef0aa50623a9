use vstd::prelude::*;

use std::sync::Arc;

verus! {

/// Which notifications a seller wants to receive.
#[derive(Debug, Clone, Copy, PartialEq, Eq, Structural)]
pub struct NotificationPreferences {
    pub low_stock_alerts: bool,
    pub payment_notifications: bool,
    pub order_updates: bool,
}

/// A seller of the marketplace.
#[derive(Debug, PartialEq, Eq)]
pub struct Seller {
    pub id: String,
    pub name: String,
    pub email: String,
    pub notification_preferences: NotificationPreferences,
}

impl Clone for Seller {
    fn clone(&self) -> (r: Self)
        ensures
            r == *self,
    {
        Seller {
            id: self.id.clone(),
            name: self.name.clone(),
            email: self.email.clone(),
            notification_preferences: self.notification_preferences,
        }
    }
}

/// Sends notifications to sellers, who are looked up in the database that
/// the shared connection pool `db_pool` reaches.
pub struct NotificationManager<Pool> {
    pub db_pool: Arc<Pool>,
}

impl<Pool> NotificationManager<Pool> {
    /// A manager that looks sellers up through `db_pool`.
    pub fn new(db_pool: Arc<Pool>) -> (r: Self)
        ensures
            r.db_pool == db_pool,
    {
        NotificationManager { db_pool }
    }
}

} // verus!
