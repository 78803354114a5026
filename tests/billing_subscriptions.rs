use billing_subscriptions::{
    BillingSubscription, BillingSubscriptionId, CreateBillingSubscriptionParams, Database, DbError,
    StripeSubscriptionStatus, UserId, ID_END,
};

fn params(user: i32, customer: &str, sub: &str, status: StripeSubscriptionStatus) -> CreateBillingSubscriptionParams {
    CreateBillingSubscriptionParams {
        user_id: UserId(user),
        stripe_customer_id: customer.to_string(),
        stripe_subscription_id: sub.to_string(),
        stripe_subscription_status: status,
    }
}

fn matches_params(row: &BillingSubscription, p: &CreateBillingSubscriptionParams) -> bool {
    row.user_id == p.user_id
        && row.stripe_customer_id == p.stripe_customer_id
        && row.stripe_subscription_id == p.stripe_subscription_id
        && row.stripe_subscription_status == p.stripe_subscription_status
}

fn ids(rows: &[BillingSubscription]) -> Vec<i32> {
    rows.iter().map(|r| r.id.0).collect()
}

#[test]
fn create_then_list_round_trip() {
    let mut db = Database::new();
    let p = params(7, "cus_1", "sub_1", StripeSubscriptionStatus::Active);
    assert_eq!(db.create_billing_subscription(&p), Ok(()));
    let rows = db.get_billing_subscriptions(UserId(7)).unwrap();
    assert_eq!(rows.len(), 1);
    assert!(matches_params(&rows[0], &p));
    assert_eq!(rows[0].id, BillingSubscriptionId(1));
}

#[test]
fn list_comes_in_creation_order() {
    let mut db = Database::new();
    let subs = ["sub_a", "sub_b", "sub_c", "sub_d"];
    for (k, s) in subs.iter().enumerate() {
        db.create_billing_subscription(&params(1, "cus", s, StripeSubscriptionStatus::Active)).unwrap();
        if k == 1 {
            db.create_billing_subscription(&params(2, "cus_other", "sub_x", StripeSubscriptionStatus::Active)).unwrap();
        }
    }
    let rows = db.get_billing_subscriptions(UserId(1)).unwrap();
    assert_eq!(ids(&rows), vec![1, 2, 4, 5]);
    let names: Vec<&str> = rows.iter().map(|r| r.stripe_subscription_id.as_str()).collect();
    assert_eq!(names, vec!["sub_a", "sub_b", "sub_c", "sub_d"]);
}

#[test]
fn active_filter_keeps_only_active() {
    let mut db = Database::new();
    db.create_billing_subscription(&params(5, "cus", "sub_1", StripeSubscriptionStatus::Active)).unwrap();
    db.create_billing_subscription(&params(5, "cus", "sub_2", StripeSubscriptionStatus::Canceled)).unwrap();
    db.create_billing_subscription(&params(5, "cus", "sub_3", StripeSubscriptionStatus::Active)).unwrap();
    let active = db.get_active_billing_subscriptions(UserId(5)).unwrap();
    assert_eq!(ids(&active), vec![1, 3]);
    assert_eq!(active[0].stripe_subscription_id, "sub_1");
    assert_eq!(active[1].stripe_subscription_id, "sub_3");
    let all = db.get_billing_subscriptions(UserId(5)).unwrap();
    assert_eq!(ids(&all), vec![1, 2, 3]);
}

#[test]
fn near_active_statuses_are_not_active() {
    let mut db = Database::new();
    db.create_billing_subscription(&params(9, "cus", "sub_t", StripeSubscriptionStatus::Trialing)).unwrap();
    db.create_billing_subscription(&params(9, "cus", "sub_p", StripeSubscriptionStatus::PastDue)).unwrap();
    db.create_billing_subscription(&params(9, "cus", "sub_i", StripeSubscriptionStatus::Incomplete)).unwrap();
    assert!(db.get_active_billing_subscriptions(UserId(9)).unwrap().is_empty());
    assert_eq!(db.get_billing_subscriptions(UserId(9)).unwrap().len(), 3);
}

#[test]
fn empty_user_has_empty_lists() {
    let mut db = Database::new();
    assert!(db.get_billing_subscriptions(UserId(1)).unwrap().is_empty());
    assert!(db.get_active_billing_subscriptions(UserId(1)).unwrap().is_empty());
    db.create_billing_subscription(&params(2, "cus", "sub", StripeSubscriptionStatus::Active)).unwrap();
    assert_eq!(db.get_billing_subscriptions(UserId(1)).map(|v| v.len()), Ok(0));
    assert_eq!(db.get_active_billing_subscriptions(UserId(1)).map(|v| v.len()), Ok(0));
}

#[test]
fn lookup_miss_is_none() {
    let mut db = Database::new();
    assert!(matches!(db.get_billing_subscription_by_id(BillingSubscriptionId(1)), Ok(None)));
    db.create_billing_subscription(&params(1, "cus", "sub", StripeSubscriptionStatus::Active)).unwrap();
    assert!(matches!(db.get_billing_subscription_by_id(BillingSubscriptionId(2)), Ok(None)));
    assert!(matches!(db.get_billing_subscription_by_id(BillingSubscriptionId(0)), Ok(None)));
}

#[test]
fn lookup_hit_returns_record() {
    let mut db = Database::new();
    let a = params(1, "cus_a", "sub_a", StripeSubscriptionStatus::Active);
    let b = params(2, "cus_b", "sub_b", StripeSubscriptionStatus::Paused);
    db.create_billing_subscription(&a).unwrap();
    db.create_billing_subscription(&b).unwrap();
    let found = db.get_billing_subscription_by_id(BillingSubscriptionId(2)).unwrap().unwrap();
    assert_eq!(found.id, BillingSubscriptionId(2));
    assert!(matches_params(&found, &b));
}

#[test]
fn failed_scope_commits_nothing() {
    let mut db = Database::new();
    let mut tx = db.begin();
    assert_eq!(tx.insert(&params(4, "cus", "sub_1", StripeSubscriptionStatus::Active)), Ok(()));
    tx.mark_failed();
    assert!(tx.has_failed());
    assert_eq!(tx.insert(&params(4, "cus", "sub_2", StripeSubscriptionStatus::Active)), Err(DbError::TransactionFailure));
    assert_eq!(db.commit(tx), Err(DbError::TransactionFailure));
    assert!(db.get_billing_subscriptions(UserId(4)).unwrap().is_empty());
    assert!(matches!(db.get_billing_subscription_by_id(BillingSubscriptionId(1)), Ok(None)));
}

#[test]
fn dropped_scope_commits_nothing() {
    let db = Database::new();
    let mut tx = db.begin();
    tx.insert(&params(4, "cus", "sub_1", StripeSubscriptionStatus::Active)).unwrap();
    drop(tx);
    assert!(db.get_billing_subscriptions(UserId(4)).unwrap().is_empty());
}

#[test]
fn scope_commits_all_inserts_together() {
    let mut db = Database::new();
    let mut tx = db.begin();
    tx.insert(&params(3, "cus", "sub_1", StripeSubscriptionStatus::Active)).unwrap();
    tx.insert(&params(3, "cus", "sub_2", StripeSubscriptionStatus::Unpaid)).unwrap();
    assert!(db.get_billing_subscriptions(UserId(3)).unwrap().is_empty());
    assert_eq!(db.commit(tx), Ok(()));
    assert_eq!(ids(&db.get_billing_subscriptions(UserId(3)).unwrap()), vec![1, 2]);
}

#[test]
fn concurrent_scopes_same_user_both_commit() {
    let mut db = Database::new();
    db.create_billing_subscription(&params(6, "cus", "sub_old", StripeSubscriptionStatus::Canceled)).unwrap();
    let mut t1 = db.begin();
    let mut t2 = db.begin();
    t1.insert(&params(6, "cus", "sub_one", StripeSubscriptionStatus::Active)).unwrap();
    t2.insert(&params(6, "cus", "sub_two", StripeSubscriptionStatus::Active)).unwrap();
    assert_eq!(db.commit(t1), Ok(()));
    assert_eq!(db.commit(t2), Ok(()));
    let rows = db.get_billing_subscriptions(UserId(6)).unwrap();
    let names: Vec<&str> = rows.iter().map(|r| r.stripe_subscription_id.as_str()).collect();
    assert_eq!(names, vec!["sub_old", "sub_one", "sub_two"]);
    assert_eq!(ids(&rows), vec![1, 2, 3]);
}

#[test]
fn empty_customer_id_is_invalid() {
    let mut db = Database::new();
    let r = db.create_billing_subscription(&params(1, "", "sub", StripeSubscriptionStatus::Active));
    assert_eq!(r, Err(DbError::InvalidInput));
    assert!(db.get_billing_subscriptions(UserId(1)).unwrap().is_empty());
}

#[test]
fn empty_subscription_id_is_invalid() {
    let mut db = Database::new();
    let r = db.create_billing_subscription(&params(1, "cus", "", StripeSubscriptionStatus::Active));
    assert_eq!(r, Err(DbError::InvalidInput));
    let mut tx = db.begin();
    assert_eq!(tx.insert(&params(1, "cus", "", StripeSubscriptionStatus::Active)), Err(DbError::InvalidInput));
    assert_eq!(db.commit(tx), Ok(()));
    assert!(db.get_billing_subscriptions(UserId(1)).unwrap().is_empty());
}

#[test]
fn duplicate_pairs_are_permitted() {
    let mut db = Database::new();
    let p = params(8, "cus", "sub_same", StripeSubscriptionStatus::Active);
    assert_eq!(db.create_billing_subscription(&p), Ok(()));
    assert_eq!(db.create_billing_subscription(&p), Ok(()));
    assert_eq!(ids(&db.get_active_billing_subscriptions(UserId(8)).unwrap()), vec![1, 2]);
}

#[test]
fn exhausted_identifiers_are_a_constraint_violation() {
    let mut db = Database::with_first_id(ID_END - 1);
    assert_eq!(db.create_billing_subscription(&params(1, "cus", "sub_1", StripeSubscriptionStatus::Active)), Ok(()));
    let rows = db.get_billing_subscriptions(UserId(1)).unwrap();
    assert_eq!(rows[0].id, BillingSubscriptionId(i32::MAX));
    let r = db.create_billing_subscription(&params(1, "cus", "sub_2", StripeSubscriptionStatus::Active));
    assert_eq!(r, Err(DbError::ConstraintViolation));
    assert_eq!(db.get_billing_subscriptions(UserId(1)).unwrap().len(), 1);
}

#[test]
fn scope_too_large_for_remaining_ids_commits_nothing() {
    let mut db = Database::with_first_id(ID_END - 1);
    let mut tx = db.begin();
    tx.insert(&params(1, "cus", "sub_1", StripeSubscriptionStatus::Active)).unwrap();
    tx.insert(&params(1, "cus", "sub_2", StripeSubscriptionStatus::Active)).unwrap();
    assert_eq!(db.commit(tx), Err(DbError::ConstraintViolation));
    assert!(db.get_billing_subscriptions(UserId(1)).unwrap().is_empty());
}

#[test]
fn params_validity_and_record_activity() {
    assert!(params(1, "c", "s", StripeSubscriptionStatus::Canceled).is_valid());
    assert!(!params(1, "", "s", StripeSubscriptionStatus::Canceled).is_valid());
    let p = params(1, "c", "s", StripeSubscriptionStatus::Active);
    let copy = p.duplicate();
    assert!(matches_params(&p.to_row(BillingSubscriptionId(4)), &copy));
    assert!(p.to_row(BillingSubscriptionId(4)).is_active());
    assert!(!params(1, "c", "s", StripeSubscriptionStatus::IncompleteExpired).to_row(BillingSubscriptionId(4)).is_active());
    let row = p.to_row(BillingSubscriptionId(4));
    assert_eq!(row.duplicate().stripe_customer_id, "c");
}
