//! The table of billing subscriptions and the transaction scopes that write it.
use vstd::prelude::*;
use crate::model::{
    is_active, BillingSubscription, BillingSubscriptionId, CreateBillingSubscriptionParams,
    DbError, UserId,
};

verus! {

/// The first identifier the store assigns.
pub const FIRST_ID: i64 = 1;

/// One past the largest identifier the store can assign.
pub const ID_END: i64 = 2147483648;

/// The committed state of the store: its rows in table order and the next identifier.
pub struct StoreView {
    pub rows: Seq<BillingSubscription>,
    pub next_id: int,
}

/// The state of an open scope: its pending inserts and whether it has failed.
pub struct ScopeView {
    pub inserts: Seq<CreateBillingSubscriptionParams>,
    pub failed: bool,
}

/// Identifiers strictly increase along `rows`.
pub open spec fn ids_ascending(rows: Seq<BillingSubscription>) -> bool {
    forall|i: int, j: int| 0 <= i < j < rows.len() ==> rows[i].id.0 < rows[j].id.0
}

impl StoreView {
    /// Identifiers lie in `[FIRST_ID, next_id)`, increase in table order (so are
    /// unique), and `next_id` is at most `ID_END`.
    pub open spec fn well_formed(self) -> bool {
        &&& FIRST_ID <= self.next_id <= ID_END
        &&& ids_ascending(self.rows)
        &&& forall|i: int|
            0 <= i < self.rows.len() ==> FIRST_ID <= #[trigger] self.rows[i].id.0 < self.next_id
    }

    /// The state after appending `inserts`, numbered from `next_id` on.
    pub open spec fn with_inserts(self, inserts: Seq<CreateBillingSubscriptionParams>) -> StoreView {
        StoreView {
            rows: self.rows + fresh_rows(inserts, self.next_id),
            next_id: self.next_id + inserts.len(),
        }
    }

    /// Whether `n` more identifiers can still be assigned.
    pub open spec fn has_room_for(self, n: int) -> bool {
        self.next_id + n <= ID_END
    }
}

/// The rows that `inserts` become when numbered from `first` on.
pub open spec fn fresh_rows(inserts: Seq<CreateBillingSubscriptionParams>, first: int) -> Seq<
    BillingSubscription,
> {
    Seq::new(inserts.len(), |i: int| inserts[i].row_with_id(first + i))
}

/// The rows owned by `user`, in table order.
pub open spec fn rows_of_user(rows: Seq<BillingSubscription>, user: UserId) -> Seq<
    BillingSubscription,
> {
    rows.filter(|s: BillingSubscription| s.user_id == user)
}

/// The rows owned by `user` whose status is `Active`, in table order.
pub open spec fn active_rows_of_user(rows: Seq<BillingSubscription>, user: UserId) -> Seq<
    BillingSubscription,
> {
    rows.filter(|s: BillingSubscription| s.user_id == user && is_active(s))
}

/// The row with identifier `id`, if any.
pub open spec fn find_row(rows: Seq<BillingSubscription>, id: BillingSubscriptionId) -> Option<
    BillingSubscription,
> {
    if exists|i: int| 0 <= i < rows.len() && rows[i].id == id {
        Some(rows[choose|i: int| 0 <= i < rows.len() && rows[i].id == id])
    } else {
        None
    }
}

/// What committing `scope` against `store` yields: the new state, or the error
/// on which the scope is rolled back and the state stays `store`.
pub open spec fn commit_outcome(store: StoreView, scope: ScopeView) -> Result<StoreView, DbError> {
    if scope.failed {
        Err(DbError::TransactionFailure)
    } else if !store.has_room_for(scope.inserts.len() as int) {
        Err(DbError::ConstraintViolation)
    } else {
        Ok(store.with_inserts(scope.inserts))
    }
}

/// The committed state once `scope` has been committed against `store`:
/// unchanged when the commit fails.
pub open spec fn state_after_commit(store: StoreView, scope: ScopeView) -> StoreView {
    match commit_outcome(store, scope) {
        Ok(v) => v,
        Err(_) => store,
    }
}

/// A transaction scope: the inserts it will commit together, or none of them.
pub struct Transaction {
    inserts: Vec<CreateBillingSubscriptionParams>,
    failed: bool,
}

impl View for Transaction {
    type V = ScopeView;

    closed spec fn view(&self) -> ScopeView {
        ScopeView { inserts: self.inserts@, failed: self.failed }
    }
}

impl Transaction {
    /// Stages one insert. A malformed row is refused with `InvalidInput` and a
    /// failed scope with `TransactionFailure`; either way the scope is unchanged.
    pub fn insert(&mut self, params: &CreateBillingSubscriptionParams) -> (r: Result<(), DbError>)
        ensures
            old(self)@.failed ==> r == Err::<(), DbError>(DbError::TransactionFailure),
            !old(self)@.failed && !params.spec_is_valid() ==> r == Err::<(), DbError>(
                DbError::InvalidInput,
            ),
            r is Ok <==> !old(self)@.failed && params.spec_is_valid(),
            r is Ok ==> final(self)@ == (ScopeView {
                inserts: old(self)@.inserts.push(*params),
                failed: false,
            }),
            r is Err ==> final(self)@ == old(self)@,
    {
        if self.failed {
            return Err(DbError::TransactionFailure);
        }
        if !params.is_valid() {
            return Err(DbError::InvalidInput);
        }
        self.inserts.push(params.duplicate());
        Ok(())
    }

    /// Records a fault inside the scope (a lost connection, a failed
    /// statement): the scope can no longer commit.
    pub fn mark_failed(&mut self)
        ensures
            final(self)@ == (ScopeView { inserts: old(self)@.inserts, failed: true }),
    {
        self.failed = true;
    }

    /// Whether the scope has failed.
    pub fn has_failed(&self) -> (r: bool)
        ensures
            r == self@.failed,
    {
        self.failed
    }
}

/// The billing subscription table.
pub struct Database {
    rows: Vec<BillingSubscription>,
    next_id: i64,
}

impl View for Database {
    type V = StoreView;

    closed spec fn view(&self) -> StoreView {
        StoreView { rows: self.rows@, next_id: self.next_id as int }
    }
}

impl Database {
    /// An empty table.
    pub fn new() -> (r: Self)
        ensures
            r@ == (StoreView { rows: Seq::empty(), next_id: FIRST_ID as int }),
            r@.well_formed(),
    {
        Database { rows: Vec::new(), next_id: FIRST_ID }
    }

    /// An empty table whose identifier sequence starts at `first`.
    pub fn with_first_id(first: i64) -> (r: Self)
        requires
            FIRST_ID <= first <= ID_END,
        ensures
            r@ == (StoreView { rows: Seq::empty(), next_id: first as int }),
            r@.well_formed(),
    {
        Database { rows: Vec::new(), next_id: first }
    }

    /// Opens a transaction scope with nothing staged.
    pub fn begin(&self) -> (r: Transaction)
        ensures
            r@ == (ScopeView { inserts: Seq::empty(), failed: false }),
    {
        Transaction { inserts: Vec::new(), failed: false }
    }

    /// Commits `tx`: all of its inserts become rows with fresh ascending
    /// identifiers, or, on error, the table is left as it was.
    pub fn commit(&mut self, tx: Transaction) -> (r: Result<(), DbError>)
        requires
            old(self)@.well_formed(),
        ensures
            final(self)@.well_formed(),
            final(self)@ == state_after_commit(old(self)@, tx@),
            match commit_outcome(old(self)@, tx@) {
                Ok(_) => r is Ok,
                Err(e) => r == Err::<(), DbError>(e),
            },
    {
        if tx.failed {
            return Err(DbError::TransactionFailure);
        }
        let n = tx.inserts.len();
        if n as u64 > (ID_END - self.next_id) as u64 {
            return Err(DbError::ConstraintViolation);
        }
        let ghost start = self@;
        let mut i: usize = 0;
        while i < n
            invariant
                n == tx.inserts@.len(),
                0 <= i <= n,
                start.well_formed(),
                start.next_id + n <= ID_END,
                self.rows@ == start.rows + fresh_rows(tx.inserts@.take(i as int), start.next_id),
                self.next_id == start.next_id + i,
            decreases n - i,
        {
            let id = BillingSubscriptionId(self.next_id as i32);
            let row = tx.inserts[i].to_row(id);
            self.rows.push(row);
            self.next_id = self.next_id + 1;
            i = i + 1;
            proof {
                assert(fresh_rows(tx.inserts@.take(i as int), start.next_id) =~= fresh_rows(
                    tx.inserts@.take(i - 1),
                    start.next_id,
                ).push(row));
                assert(self.rows@ =~= start.rows + fresh_rows(
                    tx.inserts@.take(i as int),
                    start.next_id,
                ));
            }
        }
        proof {
            assert(tx.inserts@.take(n as int) =~= tx.inserts@);
            let v = start.with_inserts(tx@.inserts);
            assert(self@ =~= v);
            assert(v.well_formed());
        }
        Ok(())
    }
}


/// Filtering keeps identifiers ascending.
pub proof fn lemma_filter_keeps_ascending(
    rows: Seq<BillingSubscription>,
    pred: spec_fn(BillingSubscription) -> bool,
)
    requires
        ids_ascending(rows),
    ensures
        ids_ascending(rows.filter(pred)),
    decreases rows.len(),
{
    if rows.len() > 0 {
        let init = rows.drop_last();
        let last = rows.last();
        lemma_filter_keeps_ascending(init, pred);
        assert(rows =~= init.push(last));
        init.lemma_filter_push(last, pred);
        if pred(last) {
            let f = init.filter(pred);
            assert forall|k: int| 0 <= k < f.len() implies f[k].id.0 < last.id.0 by {
                init.lemma_filter_contains_rev(pred, f[k]);
                let m = choose|m: int| 0 <= m < init.len() && init[m] == f[k];
                assert(rows[m] == init[m]);
            }
        }
    }
}

/// With ascending identifiers, the row at `i` is the one that `find_row` picks.
proof fn lemma_find_row_at(rows: Seq<BillingSubscription>, i: int)
    requires
        ids_ascending(rows),
        0 <= i < rows.len(),
    ensures
        find_row(rows, rows[i].id) == Some(rows[i]),
{
    let id = rows[i].id;
    assert(0 <= i < rows.len() && rows[i].id == id);
    let j = choose|j: int| 0 <= j < rows.len() && rows[j].id == id;
    assert(i == j);
}

impl Database {
    /// Creates a subscription in a scope of its own. Malformed parameters are
    /// refused with `InvalidInput` before any statement; when no identifier is
    /// left the store refuses with `ConstraintViolation`; otherwise one row is
    /// appended under the next identifier.
    pub fn create_billing_subscription(&mut self, params: &CreateBillingSubscriptionParams) -> (r:
        Result<(), DbError>)
        requires
            old(self)@.well_formed(),
        ensures
            final(self)@.well_formed(),
            !params.spec_is_valid() ==> r == Err::<(), DbError>(DbError::InvalidInput),
            params.spec_is_valid() && !old(self)@.has_room_for(1) ==> r == Err::<(), DbError>(
                DbError::ConstraintViolation,
            ),
            r is Ok <==> params.spec_is_valid() && old(self)@.has_room_for(1),
            r is Ok ==> final(self)@ == old(self)@.with_inserts(seq![*params]),
            r is Err ==> final(self)@ == old(self)@,
    {
        if !params.is_valid() {
            return Err(DbError::InvalidInput);
        }
        let mut tx = self.begin();
        let staged = tx.insert(params);
        if staged.is_err() {
            return staged;
        }
        proof {
            assert(tx@.inserts =~= seq![*params]);
        }
        self.commit(tx)
    }

    /// The subscription with identifier `id`, or `None` when there is none.
    pub fn get_billing_subscription_by_id(&self, id: BillingSubscriptionId) -> (r: Result<
        Option<BillingSubscription>,
        DbError,
    >)
        requires
            self@.well_formed(),
        ensures
            r == Ok::<Option<BillingSubscription>, DbError>(find_row(self@.rows, id)),
    {
        let n = self.rows.len();
        let mut i: usize = 0;
        while i < n
            invariant
                n == self.rows@.len(),
                0 <= i <= n,
                ids_ascending(self.rows@),
                forall|k: int| 0 <= k < i ==> self.rows@[k].id != id,
            decreases n - i,
        {
            if self.rows[i].id == id {
                proof {
                    lemma_find_row_at(self.rows@, i as int);
                }
                return Ok(Some(self.rows[i].duplicate()));
            }
            i = i + 1;
        }
        Ok(None)
    }

    /// Every subscription of `user_id`, whatever its status, in ascending
    /// identifier order (creation order).
    pub fn get_billing_subscriptions(&self, user_id: UserId) -> (r: Result<
        Vec<BillingSubscription>,
        DbError,
    >)
        requires
            self@.well_formed(),
        ensures
            match r {
                Ok(v) => v@ == rows_of_user(self@.rows, user_id) && ids_ascending(v@),
                Err(_) => false,
            },
    {
        let n = self.rows.len();
        let mut out: Vec<BillingSubscription> = Vec::new();
        let mut i: usize = 0;
        while i < n
            invariant
                n == self.rows@.len(),
                0 <= i <= n,
                out@ == rows_of_user(self.rows@.take(i as int), user_id),
            decreases n - i,
        {
            let ghost prefix = self.rows@.take(i as int);
            if self.rows[i].user_id == user_id {
                out.push(self.rows[i].duplicate());
            }
            proof {
                assert(self.rows@.take(i + 1) =~= prefix.push(self.rows@[i as int]));
                prefix.lemma_filter_push(
                    self.rows@[i as int],
                    |s: BillingSubscription| s.user_id == user_id,
                );
            }
            i = i + 1;
        }
        proof {
            assert(self.rows@.take(n as int) =~= self.rows@);
            lemma_filter_keeps_ascending(self.rows@, |s: BillingSubscription| s.user_id == user_id);
        }
        Ok(out)
    }

    /// The subscriptions of `user_id` whose status is exactly `Active`, in
    /// ascending identifier order; this is the query that gates access.
    pub fn get_active_billing_subscriptions(&self, user_id: UserId) -> (r: Result<
        Vec<BillingSubscription>,
        DbError,
    >)
        requires
            self@.well_formed(),
        ensures
            match r {
                Ok(v) => v@ == active_rows_of_user(self@.rows, user_id) && ids_ascending(v@),
                Err(_) => false,
            },
    {
        let n = self.rows.len();
        let mut out: Vec<BillingSubscription> = Vec::new();
        let mut i: usize = 0;
        while i < n
            invariant
                n == self.rows@.len(),
                0 <= i <= n,
                out@ == active_rows_of_user(self.rows@.take(i as int), user_id),
            decreases n - i,
        {
            let ghost prefix = self.rows@.take(i as int);
            if self.rows[i].user_id == user_id && self.rows[i].is_active() {
                out.push(self.rows[i].duplicate());
            }
            proof {
                assert(self.rows@.take(i + 1) =~= prefix.push(self.rows@[i as int]));
                prefix.lemma_filter_push(
                    self.rows@[i as int],
                    |s: BillingSubscription| s.user_id == user_id && is_active(s),
                );
            }
            i = i + 1;
        }
        proof {
            assert(self.rows@.take(n as int) =~= self.rows@);
            lemma_filter_keeps_ascending(
                self.rows@,
                |s: BillingSubscription| s.user_id == user_id && is_active(s),
            );
        }
        Ok(out)
    }
}

} // verus!
