//! The billing subscription record, the values it is made of, and errors.
use vstd::prelude::*;

verus! {

/// Identifier of a user; users are owned elsewhere.
#[derive(Clone, Copy, Debug, PartialEq, Eq, Structural, Hash)]
pub struct UserId(pub i32);

/// Store-assigned identifier of a billing subscription.
#[derive(Clone, Copy, Debug, PartialEq, Eq, Structural, Hash)]
pub struct BillingSubscriptionId(pub i32);

/// Status of a subscription as reported by the payment provider.
#[derive(Clone, Copy, Debug, PartialEq, Eq, Structural, Hash)]
pub enum StripeSubscriptionStatus {
    Incomplete,
    IncompleteExpired,
    Trialing,
    Active,
    PastDue,
    Canceled,
    Unpaid,
    Paused,
}

/// One row of the billing subscription table.
#[derive(Debug)]
pub struct BillingSubscription {
    pub id: BillingSubscriptionId,
    pub user_id: UserId,
    pub stripe_customer_id: String,
    pub stripe_subscription_id: String,
    pub stripe_subscription_status: StripeSubscriptionStatus,
}

/// What a caller supplies to create a subscription; the store assigns the id.
#[derive(Debug)]
pub struct CreateBillingSubscriptionParams {
    pub user_id: UserId,
    pub stripe_customer_id: String,
    pub stripe_subscription_id: String,
    pub stripe_subscription_status: StripeSubscriptionStatus,
}

/// Why an operation failed. Absence of a record is not an error.
#[derive(Clone, Copy, Debug, PartialEq, Eq, Structural)]
pub enum DbError {
    /// The parameters are malformed; nothing was issued to the store.
    InvalidInput,
    /// The store rejected the insert: it has no identifier left to assign.
    ConstraintViolation,
    /// The transaction scope failed and was rolled back; the call may be retried.
    TransactionFailure,
}

/// Whether a record's status grants access: exactly the `Active` status does.
pub open spec fn is_active(s: BillingSubscription) -> bool {
    s.stripe_subscription_status == StripeSubscriptionStatus::Active
}

impl CreateBillingSubscriptionParams {
    /// Both provider identifiers are non-empty.
    pub open spec fn spec_is_valid(&self) -> bool {
        self.stripe_customer_id@.len() > 0 && self.stripe_subscription_id@.len() > 0
    }

    /// The row these parameters become under the identifier `id`.
    pub open spec fn row_with_id(&self, id: int) -> BillingSubscription {
        BillingSubscription {
            id: BillingSubscriptionId(id as i32),
            user_id: self.user_id,
            stripe_customer_id: self.stripe_customer_id,
            stripe_subscription_id: self.stripe_subscription_id,
            stripe_subscription_status: self.stripe_subscription_status,
        }
    }

    /// Checks the parameters before any statement is issued.
    pub fn is_valid(&self) -> (r: bool)
        ensures
            r == self.spec_is_valid(),
    {
        !self.stripe_customer_id.as_str().is_empty() && !self.stripe_subscription_id.as_str().is_empty()
    }

    /// A copy of the parameters.
    pub fn duplicate(&self) -> (r: Self)
        ensures
            r == *self,
    {
        CreateBillingSubscriptionParams {
            user_id: self.user_id,
            stripe_customer_id: self.stripe_customer_id.clone(),
            stripe_subscription_id: self.stripe_subscription_id.clone(),
            stripe_subscription_status: self.stripe_subscription_status,
        }
    }

    /// The row these parameters become under the identifier `id`.
    pub fn to_row(&self, id: BillingSubscriptionId) -> (r: BillingSubscription)
        ensures
            r == self.row_with_id(id.0 as int),
    {
        BillingSubscription {
            id,
            user_id: self.user_id,
            stripe_customer_id: self.stripe_customer_id.clone(),
            stripe_subscription_id: self.stripe_subscription_id.clone(),
            stripe_subscription_status: self.stripe_subscription_status,
        }
    }
}

impl BillingSubscription {
    /// A copy of the record.
    pub fn duplicate(&self) -> (r: Self)
        ensures
            r == *self,
    {
        BillingSubscription {
            id: self.id,
            user_id: self.user_id,
            stripe_customer_id: self.stripe_customer_id.clone(),
            stripe_subscription_id: self.stripe_subscription_id.clone(),
            stripe_subscription_status: self.stripe_subscription_status,
        }
    }

    /// Whether the record grants access.
    pub fn is_active(&self) -> (r: bool)
        ensures
            r == is_active(*self),
    {
        self.stripe_subscription_status == StripeSubscriptionStatus::Active
    }
}

} // verus!
