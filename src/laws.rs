//! Properties that hold across the store's operations.
use vstd::prelude::*;
use crate::model::{
    is_active, BillingSubscription, BillingSubscriptionId, CreateBillingSubscriptionParams, DbError,
    UserId,
};
use crate::store::{
    active_rows_of_user, commit_outcome, find_row, fresh_rows, ids_ascending,
    lemma_filter_keeps_ascending, rows_of_user, state_after_commit, ScopeView, StoreView,
};

verus! {

/// After a successful create, the user's list is the earlier list followed by
/// exactly one new record: it carries the supplied fields under a freshly
/// assigned identifier that no earlier row has.
pub proof fn lemma_create_round_trip(store: StoreView, params: CreateBillingSubscriptionParams)
    requires
        store.well_formed(),
        store.has_room_for(1),
    ensures
        ({
            let after = rows_of_user(store.with_inserts(seq![params]).rows, params.user_id);
            let fresh = params.row_with_id(store.next_id);
            &&& after == rows_of_user(store.rows, params.user_id).push(fresh)
            &&& fresh.user_id == params.user_id
            &&& fresh.stripe_customer_id == params.stripe_customer_id
            &&& fresh.stripe_subscription_id == params.stripe_subscription_id
            &&& fresh.stripe_subscription_status == params.stripe_subscription_status
            &&& forall|i: int| 0 <= i < store.rows.len() ==> store.rows[i].id != fresh.id
            &&& forall|i: int|
                0 <= i < after.len() && after[i].id == fresh.id ==> i == after.len() - 1
        }),
{
    let fresh = params.row_with_id(store.next_id);
    assert(fresh_rows(seq![params], store.next_id) =~= seq![fresh]);
    assert(store.rows + seq![fresh] =~= store.rows.push(fresh));
    let pred = |s: BillingSubscription| s.user_id == params.user_id;
    store.rows.lemma_filter_push(fresh, pred);
    let before = rows_of_user(store.rows, params.user_id);
    assert forall|i: int| 0 <= i < before.len() implies before[i].id != fresh.id by {
        store.rows.lemma_filter_contains_rev(pred, before[i]);
        let m = choose|m: int| 0 <= m < store.rows.len() && store.rows[m] == before[i];
        assert(store.rows[m].id.0 < store.next_id);
    }
    assert forall|i: int| 0 <= i < store.rows.len() implies store.rows[i].id != fresh.id by {
        assert(store.rows[i].id.0 < store.next_id);
    }
    let after = before.push(fresh);
    assert forall|i: int| 0 <= i < after.len() && after[i].id == fresh.id implies i == after.len()
        - 1 by {
        if i < before.len() {
            assert(after[i] == before[i]);
        }
    }
}

/// The rows of a well-formed store that belong to one user come in strictly
/// ascending identifier order.
pub proof fn lemma_user_rows_ascending(store: StoreView, user: UserId)
    requires
        store.well_formed(),
    ensures
        ids_ascending(rows_of_user(store.rows, user)),
        ids_ascending(active_rows_of_user(store.rows, user)),
{
    lemma_filter_keeps_ascending(store.rows, |s: BillingSubscription| s.user_id == user);
    lemma_filter_keeps_ascending(
        store.rows,
        |s: BillingSubscription| s.user_id == user && is_active(s),
    );
}

/// Creating in sequence is the same as creating all at once, in that order.
pub proof fn lemma_creates_compose(
    store: StoreView,
    first: Seq<CreateBillingSubscriptionParams>,
    second: Seq<CreateBillingSubscriptionParams>,
)
    ensures
        store.with_inserts(first).with_inserts(second) == store.with_inserts(first + second),
{
    let n = store.next_id;
    assert(fresh_rows(first, n) + fresh_rows(second, n + first.len()) =~= fresh_rows(
        first + second,
        n,
    ));
    assert(store.rows + fresh_rows(first, n) + fresh_rows(second, n + first.len()) =~= store.rows
        + fresh_rows(first + second, n));
}

/// Records created in sequence keep the store well formed and appear in a
/// user's list after the earlier ones, in creation order, with identifiers
/// still ascending.
pub proof fn lemma_creation_order(
    store: StoreView,
    inserts: Seq<CreateBillingSubscriptionParams>,
    user: UserId,
)
    requires
        store.well_formed(),
        store.has_room_for(inserts.len() as int),
    ensures
        store.with_inserts(inserts).well_formed(),
        rows_of_user(store.with_inserts(inserts).rows, user) == rows_of_user(store.rows, user)
            + rows_of_user(fresh_rows(inserts, store.next_id), user),
        ids_ascending(rows_of_user(store.with_inserts(inserts).rows, user)),
{
    let after = store.with_inserts(inserts);
    assert(after.well_formed());
    Seq::filter_distributes_over_add(
        store.rows,
        fresh_rows(inserts, store.next_id),
        |s: BillingSubscription| s.user_id == user,
    );
    lemma_user_rows_ascending(after, user);
}

/// The active records of a user are exactly that user's records whose status
/// is `Active`, in the same order.
pub proof fn lemma_active_filter(rows: Seq<BillingSubscription>, user: UserId)
    ensures
        active_rows_of_user(rows, user) == rows_of_user(rows, user).filter(
            |s: BillingSubscription| is_active(s),
        ),
    decreases rows.len(),
{
    let own = |s: BillingSubscription| s.user_id == user;
    let act = |s: BillingSubscription| is_active(s);
    let both = |s: BillingSubscription| s.user_id == user && is_active(s);
    if rows.len() == 0 {
        reveal(Seq::filter);
    } else {
        let init = rows.drop_last();
        let last = rows.last();
        lemma_active_filter(init, user);
        assert(rows =~= init.push(last));
        init.lemma_filter_push(last, both);
        init.lemma_filter_push(last, own);
        init.filter(own).lemma_filter_push(last, act);
    }
}

/// A user without records has an empty list and an empty active list.
pub proof fn lemma_empty_user(rows: Seq<BillingSubscription>, user: UserId)
    requires
        forall|i: int| 0 <= i < rows.len() ==> rows[i].user_id != user,
    ensures
        rows_of_user(rows, user) == Seq::<BillingSubscription>::empty(),
        active_rows_of_user(rows, user) == Seq::<BillingSubscription>::empty(),
    decreases rows.len(),
{
    reveal(Seq::filter);
    if rows.len() > 0 {
        lemma_empty_user(rows.drop_last(), user);
    }
}

/// Looking up an identifier that no row has finds nothing.
pub proof fn lemma_lookup_miss(rows: Seq<BillingSubscription>, id: BillingSubscriptionId)
    requires
        forall|i: int| 0 <= i < rows.len() ==> rows[i].id != id,
    ensures
        find_row(rows, id) == None::<BillingSubscription>,
{
}

/// A scope that failed part-way commits nothing: the commit reports a
/// transaction failure and every user's list is as it was.
pub proof fn lemma_failed_scope_commits_nothing(store: StoreView, scope: ScopeView, user: UserId)
    requires
        scope.failed,
    ensures
        commit_outcome(store, scope) == Err::<StoreView, DbError>(DbError::TransactionFailure),
        state_after_commit(store, scope) == store,
        rows_of_user(state_after_commit(store, scope).rows, user) == rows_of_user(store.rows, user),
{
}

/// Two scopes opened side by side, each creating a record for the same user
/// with different provider subscription identifiers, both commit, and the
/// user's list then holds both new records after the earlier ones.
pub proof fn lemma_concurrent_creates(
    store: StoreView,
    p1: CreateBillingSubscriptionParams,
    p2: CreateBillingSubscriptionParams,
)
    requires
        store.well_formed(),
        store.has_room_for(2),
        p1.user_id == p2.user_id,
        p1.stripe_subscription_id@ != p2.stripe_subscription_id@,
    ensures
        ({
            let s1 = ScopeView { inserts: seq![p1], failed: false };
            let s2 = ScopeView { inserts: seq![p2], failed: false };
            let mid = state_after_commit(store, s1);
            let end = state_after_commit(mid, s2);
            &&& commit_outcome(store, s1) is Ok
            &&& commit_outcome(mid, s2) is Ok
            &&& rows_of_user(end.rows, p1.user_id) == rows_of_user(store.rows, p1.user_id).push(
                p1.row_with_id(store.next_id),
            ).push(p2.row_with_id(store.next_id + 1))
        }),
{
    let mid = store.with_inserts(seq![p1]);
    lemma_create_round_trip(store, p1);
    lemma_creation_order(store, seq![p1], p1.user_id);
    lemma_create_round_trip(mid, p2);
}

} // verus!
