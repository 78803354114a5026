//! A transactional store of users' billing subscriptions.
//!
//! Every write happens inside an explicit transaction scope that commits all
//! of its inserts or none of them; reads see the committed table.
pub mod model;
pub mod store;
pub mod laws;

pub use model::{
    BillingSubscription, BillingSubscriptionId, CreateBillingSubscriptionParams, DbError,
    StripeSubscriptionStatus, UserId,
};
pub use store::{Database, Transaction, FIRST_ID, ID_END};
