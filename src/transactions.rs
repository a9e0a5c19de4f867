use vstd::prelude::*;

use crate::calendar::Date;
use crate::error::ApiError;
use crate::ledger::{Ledger, LedgerView};
use crate::models::{copy_text, BaseModel, Timestamp, Transaction, TransactionDetail, UserModel};
use crate::money::{splits_valid, validate_splits, SplitInput};
use crate::tables::{
    ids_fresh, lemma_ids_deleted, lemma_ids_grow, lemma_ids_push, lemma_ids_update,
    find_live, first_live_row, has_live_row, latest_first, list_live, live_rows, soft_delete,
    sort_latest_first, with_deleted, Chronological,
};

verus! {

/// A transaction as a client submits it for creation or replacement.
#[derive(Debug, Clone)]
pub struct TransactionInput {
    pub budget_id: u64,
    pub account_id: u64,
    pub date: Date,
    pub payee: Option<String>,
    pub memo: Option<String>,
    pub splits: Vec<SplitInput>,
}

/// A transaction with its live splits.
#[derive(Debug, Clone)]
pub struct TransactionWithSplits {
    pub transaction: Transaction,
    pub splits: Vec<TransactionDetail>,
}

impl Chronological for Transaction {
    open spec fn spec_order_key(&self) -> (int, int) {
        (self.date.key(), self.created_at as int)
    }

    fn order_key(&self) -> (r: (i64, i64)) {
        (self.date.sort_key(), self.created_at)
    }
}

/// The live account `account` of `user` belongs to `budget`.
pub open spec fn account_in_budget(l: LedgerView, user: u64, account: u64, budget: u64) -> bool {
    exists|k: int|
        #![trigger l.accounts[k]]
        first_live_row(l.accounts, user, account, k) && l.accounts[k].budget_pillid == budget
}

/// The live category `category` of `user` belongs to `budget`.
pub open spec fn category_in_budget(l: LedgerView, user: u64, category: u64, budget: u64) -> bool {
    exists|k: int|
        #![trigger l.categories[k]]
        first_live_row(l.categories, user, category, k) && l.categories[k].budget_pillid == budget
}

/// Every row a transaction refers to is a live row of `user` in its budget.
pub open spec fn transaction_refs_ok(l: LedgerView, user: u64, input: TransactionInput) -> bool {
    &&& has_live_row(l.budgets, user, input.budget_id)
    &&& account_in_budget(l, user, input.account_id, input.budget_id)
    &&& forall|i: int|
        0 <= i < input.splits@.len() ==> #[trigger] category_in_budget(
            l,
            user,
            input.splits@[i].category_id,
            input.budget_id,
        )
}

/// The split rows written for `splits`, numbered from `first_id`.
pub open spec fn new_splits(
    user: u64,
    tx: u64,
    budget: u64,
    splits: Seq<SplitInput>,
    first_id: u64,
    now: Timestamp,
) -> Seq<TransactionDetail> {
    Seq::new(
        splits.len(),
        |i: int|
            TransactionDetail {
                pillid: (first_id + i) as u64,
                user_pillid: user,
                transaction_pillid: tx,
                budget_pillid: budget,
                category_pillid: splits[i].category_id,
                memo: splits[i].memo,
                inflow: splits[i].inflow,
                outflow: splits[i].outflow,
                created_at: now,
                updated_at: now,
                deleted_at: None,
            },
    )
}

/// A live split of transaction `tx` of `user`.
pub open spec fn is_split_of(s: TransactionDetail, user: u64, tx: u64) -> bool {
    s.user_pillid == user && s.transaction_pillid == tx && s.deleted_at is None
}

/// The live splits of transaction `tx` of `user`, in stored order.
pub open spec fn splits_of(splits: Seq<TransactionDetail>, user: u64, tx: u64) -> Seq<TransactionDetail> {
    splits.filter(|s: TransactionDetail| is_split_of(s, user, tx))
}

/// The splits after soft-deleting those of transaction `tx` of `user`.
pub open spec fn with_splits_retired(splits: Seq<TransactionDetail>, user: u64, tx: u64, now: Timestamp) -> Seq<TransactionDetail> {
    splits.map_values(
        |s: TransactionDetail| if is_split_of(s, user, tx) { s.spec_deleted(now) } else { s },
    )
}

/// The transactions of a list, without their splits.
pub open spec fn transactions_of(r: Seq<TransactionWithSplits>) -> Seq<Transaction> {
    r.map_values(|p: TransactionWithSplits| p.transaction)
}

/// Appending the split rows numbered from `first` keeps identifiers fresh.
proof fn lemma_ids_new_splits(
    rows: Seq<TransactionDetail>,
    user: u64,
    tx: u64,
    budget: u64,
    splits: Seq<SplitInput>,
    first: u64,
    now: Timestamp,
)
    requires
        ids_fresh(rows, first),
        first + splits.len() <= u64::MAX,
    ensures
        ids_fresh(rows + new_splits(user, tx, budget, splits, first, now), (first + splits.len()) as u64),
{
    let t = rows + new_splits(user, tx, budget, splits, first, now);
    let n = rows.len() as int;
    assert forall|i: int| 0 <= i < t.len() implies (i < n ==> t[i] == rows[i]) && (i >= n ==> t[i].pillid == first + (i - n)) by {}
    assert forall|i: int, j: int| 0 <= i < j < t.len() implies (#[trigger] t[i]).spec_pillid() != (#[trigger] t[j]).spec_pillid() by {
        if j < n {
            assert(t[i] == rows[i] && t[j] == rows[j]);
        } else if i < n {
            assert(t[i] == rows[i]);
        }
    }
    assert forall|i: int| 0 <= i < t.len() implies (#[trigger] t[i]).spec_pillid() < first + splits.len() by {
        if i < n {
            assert(t[i] == rows[i]);
        }
    }
}

/// Retiring splits keeps identifiers fresh.
proof fn lemma_ids_retired(rows: Seq<TransactionDetail>, user: u64, tx: u64, now: Timestamp, next: u64)
    requires
        ids_fresh(rows, next),
    ensures
        ids_fresh(with_splits_retired(rows, user, tx, now), next),
{
    let u = with_splits_retired(rows, user, tx, now);
    assert forall|i: int| 0 <= i < u.len() implies u[i].pillid == rows[i].pillid by {}
    assert forall|i: int, j: int| 0 <= i < j < u.len() implies (#[trigger] u[i]).spec_pillid() != (#[trigger] u[j]).spec_pillid() by {
        assert(u[i].pillid == rows[i].pillid && u[j].pillid == rows[j].pillid);
    }
}

impl Ledger {
    fn account_fits(&self, user: u64, account: u64, budget: u64) -> (r: bool)
        ensures
            r == account_in_budget(self@, user, account, budget),
    {
        match find_live(&self.accounts, user, account) {
            Some(k) => self.accounts[k].budget_pillid == budget,
            None => false,
        }
    }

    pub(crate) fn category_fits(&self, user: u64, category: u64, budget: u64) -> (r: bool)
        ensures
            r == category_in_budget(self@, user, category, budget),
    {
        match find_live(&self.categories, user, category) {
            Some(k) => self.categories[k].budget_pillid == budget,
            None => false,
        }
    }

    fn refs_fit(&self, user: u64, input: &TransactionInput) -> (r: bool)
        ensures
            r == transaction_refs_ok(self@, user, *input),
    {
        if find_live(&self.budgets, user, input.budget_id).is_none() {
            return false;
        }
        if !self.account_fits(user, input.account_id, input.budget_id) {
            return false;
        }
        let mut i: usize = 0;
        while i < input.splits.len()
            invariant
                0 <= i <= input.splits@.len(),
                forall|j: int|
                    0 <= j < i ==> #[trigger] category_in_budget(
                        self@,
                        user,
                        input.splits@[j].category_id,
                        input.budget_id,
                    ),
            decreases input.splits.len() - i,
        {
            if !self.category_fits(user, input.splits[i].category_id, input.budget_id) {
                return false;
            }
            i = i + 1;
        }
        true
    }

    /// Appends the split rows of transaction `tx`.
    fn push_splits(&mut self, user: u64, tx: u64, budget: u64, splits: &Vec<SplitInput>, now: Timestamp)
        requires
            old(self).next_id + splits@.len() <= u64::MAX,
        ensures
            final(self)@ == (LedgerView {
                next_id: (old(self).next_id + splits@.len()) as u64,
                splits: old(self)@.splits + new_splits(user, tx, budget, splits@, old(self).next_id, now),
                ..old(self)@
            }),
    {
        let ghost l0 = self@;
        let mut i: usize = 0;
        while i < splits.len()
            invariant
                0 <= i <= splits@.len(),
                l0.next_id + splits@.len() <= u64::MAX,
                self@ == (LedgerView {
                    next_id: (l0.next_id + i) as u64,
                    splits: l0.splits + new_splits(user, tx, budget, splits@.take(i as int), l0.next_id, now),
                    ..l0
                }),
            decreases splits.len() - i,
        {
            let s = &splits[i];
            self.splits.push(TransactionDetail {
                pillid: self.next_id,
                user_pillid: user,
                transaction_pillid: tx,
                budget_pillid: budget,
                category_pillid: s.category_id,
                memo: copy_text(&s.memo),
                inflow: s.inflow,
                outflow: s.outflow,
                created_at: now,
                updated_at: now,
                deleted_at: None,
            });
            self.next_id = self.next_id + 1;
            i = i + 1;
            assert(self@.splits =~= l0.splits + new_splits(user, tx, budget, splits@.take(i as int), l0.next_id, now));
        }
        assert(splits@.take(i as int) =~= splits@);
    }

    /// Soft-deletes the live splits of transaction `tx` of `user`.
    fn retire_splits(&mut self, user: u64, tx: u64, now: Timestamp)
        ensures
            final(self)@ == (LedgerView {
                splits: with_splits_retired(old(self)@.splits, user, tx, now),
                ..old(self)@
            }),
    {
        let ghost before = self@.splits;
        let mut i: usize = 0;
        while i < self.splits.len()
            invariant
                0 <= i <= self.splits@.len(),
                self.splits@.len() == before.len(),
                self@ == (LedgerView { splits: self.splits@, ..old(self)@ }),
                forall|j: int| 0 <= j < i ==> self.splits@[j] == (if is_split_of(before[j], user, tx) {
                    before[j].spec_deleted(now)
                } else {
                    before[j]
                }),
                forall|j: int| i <= j < self.splits@.len() ==> self.splits@[j] == before[j],
            decreases self.splits.len() - i,
        {
            let s = &self.splits[i];
            if s.user_pillid == user && s.transaction_pillid == tx && s.deleted_at.is_none() {
                let row = s.duplicate();
                self.splits.set(i, row.soft_deleted(now));
            }
            i = i + 1;
        }
        assert(self.splits@ =~= with_splits_retired(before, user, tx, now));
    }

    /// The live splits of transaction `tx` of `user`.
    fn live_splits_of(&self, user: u64, tx: u64) -> (r: Vec<TransactionDetail>)
        ensures
            r@ == splits_of(self@.splits, user, tx),
    {
        let mut out: Vec<TransactionDetail> = Vec::new();
        let mut i: usize = 0;
        while i < self.splits.len()
            invariant
                0 <= i <= self.splits@.len(),
                out@ == splits_of(self.splits@.take(i as int), user, tx),
            decreases self.splits.len() - i,
        {
            let s = &self.splits[i];
            proof {
                assert(self.splits@.take(i as int + 1) =~= self.splits@.take(i as int).push(self.splits@[i as int]));
                self.splits@.take(i as int).lemma_filter_push(self.splits@[i as int], |s: TransactionDetail| is_split_of(s, user, tx));
            }
            if s.user_pillid == user && s.transaction_pillid == tx && s.deleted_at.is_none() {
                out.push(s.duplicate());
            }
            i = i + 1;
        }
        assert(self.splits@.take(i as int) =~= self.splits@);
        out
    }

    /// The live transactions of `user`, latest date first and, within a
    /// date, latest created first, each with its live splits.
    pub fn list_transactions(&self, user: u64) -> (r: Vec<TransactionWithSplits>)
        ensures
            transactions_of(r@).to_multiset() == live_rows(self@.transactions, user).to_multiset(),
            latest_first(transactions_of(r@)),
            forall|i: int|
                0 <= i < r@.len() ==> (#[trigger] r@[i]).splits@ == splits_of(
                    self@.splits,
                    user,
                    r@[i].transaction.pillid,
                ),
    {
        let sorted = sort_latest_first(list_live(&self.transactions, user));
        let mut out: Vec<TransactionWithSplits> = Vec::new();
        let mut i: usize = 0;
        while i < sorted.len()
            invariant
                0 <= i <= sorted@.len(),
                transactions_of(out@) == sorted@.take(i as int),
                forall|j: int|
                    0 <= j < out@.len() ==> (#[trigger] out@[j]).splits@ == splits_of(
                        self@.splits,
                        user,
                        out@[j].transaction.pillid,
                    ),
            decreases sorted.len() - i,
        {
            let t = sorted[i].duplicate();
            let splits = self.live_splits_of(user, t.pillid);
            let ghost prev = out@;
            assert(transactions_of(prev).len() == prev.len());
            assert(sorted@.take(i as int).len() == i);
            out.push(TransactionWithSplits { transaction: t, splits });
            assert forall|j: int| 0 <= j < i implies transactions_of(out@)[j] == sorted@.take(i as int + 1)[j] by {
                assert(out@[j] == prev[j]);
                assert(transactions_of(prev)[j] == sorted@.take(i as int)[j]);
            }
            i = i + 1;
            assert(transactions_of(out@) =~= sorted@.take(i as int));
        }
        assert(sorted@.take(i as int) =~= sorted@);
        out
    }

    /// Records a transaction with its splits. The splits are checked first;
    /// then the budget, the account (of that budget) and every split's
    /// category (of that budget) must be live rows of `user`. Nothing is
    /// written unless everything is accepted.
    pub fn create_transaction(&mut self, user: u64, input: TransactionInput, now: Timestamp) -> (r: Result<Transaction, ApiError>)
        ensures
            !splits_valid(input.splits@) ==> r == Err::<Transaction, ApiError>(ApiError::Validation),
            splits_valid(input.splits@) && !transaction_refs_ok(old(self)@, user, input) ==> r
                == Err::<Transaction, ApiError>(ApiError::InvalidReference),
            splits_valid(input.splits@) && transaction_refs_ok(old(self)@, user, input) ==> (r is Ok
                <==> old(self).next_id + 1 + input.splits@.len() <= u64::MAX),
            match r {
                Ok(t) => {
                    &&& t == (Transaction {
                        pillid: old(self).next_id,
                        user_pillid: user,
                        budget_pillid: input.budget_id,
                        account_pillid: input.account_id,
                        date: input.date,
                        payee: input.payee,
                        memo: input.memo,
                        created_at: now,
                        updated_at: now,
                        deleted_at: None,
                    })
                    &&& final(self)@ == LedgerView {
                        next_id: (old(self).next_id + 1 + input.splits@.len()) as u64,
                        transactions: old(self)@.transactions.push(t),
                        splits: old(self)@.splits + new_splits(
                            user,
                            t.pillid,
                            input.budget_id,
                            input.splits@,
                            (old(self).next_id + 1) as u64,
                            now,
                        ),
                        ..old(self)@
                    }
                },
                Err(_) => final(self)@ == old(self)@,
            },
            old(self)@.wf() ==> final(self)@.wf(),
    {
        validate_splits(input.splits.as_slice())?;
        if !self.refs_fit(user, &input) {
            return Err(ApiError::InvalidReference);
        }
        if self.next_id >= u64::MAX - input.splits.len() as u64 {
            return Err(ApiError::Internal);
        }
        let ghost l0 = self@;
        let TransactionInput { budget_id, account_id, date, payee, memo, splits } = input;
        let t = Transaction {
            pillid: self.next_id,
            user_pillid: user,
            budget_pillid: budget_id,
            account_pillid: account_id,
            date,
            payee,
            memo,
            created_at: now,
            updated_at: now,
            deleted_at: None,
        };
        self.transactions.push(t.duplicate());
        self.next_id = self.next_id + 1;
        self.push_splits(user, t.pillid, budget_id, &splits, now);
        proof {
            if l0.wf() {
                lemma_ids_push(l0.transactions, t, l0.next_id);
                lemma_ids_grow(l0.transactions.push(t), (l0.next_id + 1) as u64, self.next_id);
                lemma_ids_grow(l0.splits, l0.next_id, (l0.next_id + 1) as u64);
                lemma_ids_new_splits(l0.splits, user, t.pillid, budget_id, splits@, (l0.next_id + 1) as u64, now);
            }
        }
        Ok(t)
    }

    /// Replaces a live transaction of `user`: its fields are overwritten, all
    /// its live splits are soft-deleted and the new splits are written, under
    /// the same checks as creation. Nothing is written unless everything is
    /// accepted.
    pub fn update_transaction(&mut self, user: u64, id: u64, input: TransactionInput, now: Timestamp) -> (r: Result<Transaction, ApiError>)
        ensures
            !splits_valid(input.splits@) ==> r == Err::<Transaction, ApiError>(ApiError::Validation),
            splits_valid(input.splits@) && !(has_live_row(old(self)@.transactions, user, id)
                && transaction_refs_ok(old(self)@, user, input)) ==> r == Err::<Transaction, ApiError>(
                ApiError::InvalidReference,
            ),
            splits_valid(input.splits@) && has_live_row(old(self)@.transactions, user, id)
                && transaction_refs_ok(old(self)@, user, input) ==> (r is Ok <==> old(self).next_id
                + input.splits@.len() <= u64::MAX),
            match r {
                Ok(t) => exists|k: int|
                    #![trigger old(self)@.transactions[k]]
                    {
                        &&& first_live_row(old(self)@.transactions, user, id, k)
                        &&& t == (Transaction {
                            budget_pillid: input.budget_id,
                            account_pillid: input.account_id,
                            date: input.date,
                            payee: input.payee,
                            memo: input.memo,
                            updated_at: now,
                            ..old(self)@.transactions[k]
                        })
                        &&& final(self)@ == LedgerView {
                            next_id: (old(self).next_id + input.splits@.len()) as u64,
                            transactions: old(self)@.transactions.update(k, t),
                            splits: with_splits_retired(old(self)@.splits, user, id, now) + new_splits(
                                user,
                                id,
                                input.budget_id,
                                input.splits@,
                                old(self).next_id,
                                now,
                            ),
                            ..old(self)@
                        }
                    },
                Err(_) => final(self)@ == old(self)@,
            },
            old(self)@.wf() ==> final(self)@.wf(),
    {
        validate_splits(input.splits.as_slice())?;
        let k = match find_live(&self.transactions, user, id) {
            Some(k) => k,
            None => return Err(ApiError::InvalidReference),
        };
        if !self.refs_fit(user, &input) {
            return Err(ApiError::InvalidReference);
        }
        if self.next_id > u64::MAX - input.splits.len() as u64 {
            return Err(ApiError::Internal);
        }
        let ghost l0 = self@;
        let TransactionInput { budget_id, account_id, date, payee, memo, splits } = input;
        let old_row = self.transactions[k].duplicate();
        let t = Transaction {
            budget_pillid: budget_id,
            account_pillid: account_id,
            date,
            payee,
            memo,
            updated_at: now,
            ..old_row
        };
        self.transactions.set(k, t.duplicate());
        assert(l0.transactions[k as int] == old_row);
        assert(self@.transactions =~= l0.transactions.update(k as int, t));
        self.retire_splits(user, id, now);
        self.push_splits(user, id, budget_id, &splits, now);
        proof {
            if l0.wf() {
                lemma_ids_update(l0.transactions, k as int, t, l0.next_id);
                lemma_ids_grow(l0.transactions.update(k as int, t), l0.next_id, self.next_id);
                lemma_ids_retired(l0.splits, user, id, now, l0.next_id);
                lemma_ids_new_splits(with_splits_retired(l0.splits, user, id, now), user, id, budget_id, splits@, l0.next_id, now);
            }
        }
        Ok(t)
    }

    /// Soft-deletes a live transaction of `user`; anything else is left alone.
    pub fn delete_transaction(&mut self, user: u64, id: u64, now: Timestamp)
        ensures
            final(self)@ == (LedgerView {
                transactions: with_deleted(old(self)@.transactions, user, id, now),
                ..old(self)@
            }),
            old(self)@.wf() ==> final(self)@.wf(),
    {
        soft_delete(&mut self.transactions, user, id, now);
        proof {
            if old(self)@.wf() {
                lemma_ids_deleted(old(self)@.transactions, user, id, now, old(self).next_id);
            }
        }
    }
}

} // verus!
