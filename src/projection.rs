use vstd::prelude::*;

use crate::calendar::{month_of, parse_projection_month, Date};
use crate::error::ApiError;
use crate::ledger::{Ledger, LedgerView};
use crate::models::{CategoryAssignment, Transaction, TransactionDetail};
use crate::money::project_available;
use crate::tables::{list_live, live_rows};

verus! {

/// A bound that every stored table meets: a vector cannot hold more than
/// `isize::MAX` bytes, and every row takes more than one byte.
pub open spec fn table_len_ok(n: nat) -> bool {
    n <= 0x7fff_ffff_ffff_ffff
}

/// The sum of `f` over `s`.
pub open spec fn sum_of<T>(s: Seq<T>, f: spec_fn(T) -> int) -> int
    decreases s.len(),
{
    if s.len() == 0 {
        0
    } else {
        sum_of(s.drop_last(), f) + f(s.last())
    }
}

pub open spec fn fits_i64(x: int) -> bool {
    i64::MIN <= x <= i64::MAX
}

/// A month's figures for one category.
#[derive(Debug, Clone, Copy, PartialEq, Eq, Structural)]
pub struct CategoryProjection {
    pub category_id: u64,
    pub assigned: i64,
    pub activity: i64,
    pub available: i64,
}

/// All-time totals over the live splits of live transactions.
#[derive(Debug, Clone, Copy, PartialEq, Eq, Structural)]
pub struct Dashboard {
    pub inflow: i64,
    pub outflow: i64,
    pub available: i64,
}

/// A live transaction `tx` of `user`, dated in `month` when one is given.
pub open spec fn tx_matches(t: Transaction, user: u64, tx: u64, month: Option<Date>) -> bool {
    &&& t.pillid == tx
    &&& t.user_pillid == user
    &&& t.deleted_at is None
    &&& month matches Some(m) ==> t.date.same_month(m)
}

pub open spec fn has_tx_match(txs: Seq<Transaction>, user: u64, tx: u64, month: Option<Date>) -> bool {
    exists|i: int| 0 <= i < txs.len() && #[trigger] tx_matches(txs[i], user, tx, month)
}

/// An assignment row that counts toward `category` of `user` in `month`.
pub open spec fn assignment_counts(a: CategoryAssignment, user: u64, category: u64, month: Date) -> bool {
    a.user_pillid == user && a.category_pillid == category && a.deleted_at is None && a.month.same_month(month)
}

/// What one assignment row adds to `category` of `user` in `month`.
pub open spec fn assigned_term(user: u64, category: u64, month: Date) -> spec_fn(CategoryAssignment) -> int {
    |a: CategoryAssignment| if assignment_counts(a, user, category, month) { a.amount as int } else { 0 }
}

/// Money assigned to `category` for `month`: the sum over its live assignments.
pub open spec fn assigned_in(l: LedgerView, user: u64, category: u64, month: Date) -> int {
    sum_of(l.assignments, assigned_term(user, category, month))
}

/// A split that counts toward `category` of `user` in `month`: live, of that
/// category, and of a live transaction dated in the month.
pub open spec fn split_counts(l: LedgerView, s: TransactionDetail, user: u64, category: u64, month: Date) -> bool {
    &&& s.user_pillid == user
    &&& s.category_pillid == category
    &&& s.deleted_at is None
    &&& has_tx_match(l.transactions, user, s.transaction_pillid, Some(month))
}

/// Net spending from `category` in `month`: outflow minus inflow over the
/// splits that count.
pub open spec fn activity_in(l: LedgerView, user: u64, category: u64, month: Date) -> int {
    sum_of(l.splits, activity_term(l, user, category, month))
}

/// What one split adds to the activity of `category` of `user` in `month`.
pub open spec fn activity_term(l: LedgerView, user: u64, category: u64, month: Date) -> spec_fn(TransactionDetail) -> int {
    |s: TransactionDetail| if split_counts(l, s, user, category, month) { s.outflow - s.inflow } else { 0 }
}

/// The three figures of `category` for `month` fit in `i64`.
pub open spec fn category_projects(l: LedgerView, user: u64, category: u64, month: Date) -> bool {
    &&& fits_i64(assigned_in(l, user, category, month))
    &&& fits_i64(activity_in(l, user, category, month))
    &&& fits_i64(assigned_in(l, user, category, month) - activity_in(l, user, category, month))
}

/// The projection row of `category` for `month`.
pub open spec fn projection_row(l: LedgerView, user: u64, category: u64, month: Date) -> CategoryProjection {
    CategoryProjection {
        category_id: category,
        assigned: assigned_in(l, user, category, month) as i64,
        activity: activity_in(l, user, category, month) as i64,
        available: (assigned_in(l, user, category, month) - activity_in(l, user, category, month)) as i64,
    }
}

/// A split of a live transaction of `user`, itself live.
pub open spec fn split_is_live(l: LedgerView, s: TransactionDetail, user: u64) -> bool {
    s.deleted_at is None && has_tx_match(l.transactions, user, s.transaction_pillid, None)
}

/// What one split adds to the inflow (or the outflow) total of `user`.
pub open spec fn flow_term(l: LedgerView, user: u64, outflow: bool) -> spec_fn(TransactionDetail) -> int {
    |s: TransactionDetail|
        if split_is_live(l, s, user) {
            if outflow { s.outflow as int } else { s.inflow as int }
        } else {
            0
        }
}

pub open spec fn inflow_total(l: LedgerView, user: u64) -> int {
    sum_of(l.splits, flow_term(l, user, false))
}

pub open spec fn outflow_total(l: LedgerView, user: u64) -> int {
    sum_of(l.splits, flow_term(l, user, true))
}

/// Every live category of `user` has figures for `month` that fit in `i64`.
pub open spec fn all_project(l: LedgerView, user: u64, month: Date) -> bool {
    forall|i: int|
        0 <= i < live_rows(l.categories, user).len() ==> #[trigger] category_projects(
            l,
            user,
            live_rows(l.categories, user)[i].pillid,
            month,
        )
}

/// What `month_projection` returns for the month text `month`.
pub open spec fn projection_post(
    l: LedgerView,
    user: u64,
    month: Seq<char>,
    r: Result<Vec<CategoryProjection>, ApiError>,
) -> bool {
    match month_of(month) {
        Err(_) => r == Err::<Vec<CategoryProjection>, ApiError>(ApiError::Validation),
        Ok(d) => match r {
            Ok(rows) => {
                &&& all_project(l, user, d)
                &&& rows@.len() == live_rows(l.categories, user).len()
                &&& forall|i: int|
                    0 <= i < rows@.len() ==> #[trigger] rows@[i] == projection_row(
                        l,
                        user,
                        live_rows(l.categories, user)[i].pillid,
                        d,
                    )
            },
            Err(e) => e == ApiError::Internal && !all_project(l, user, d),
        },
    }
}

proof fn lemma_sum_take<T>(s: Seq<T>, f: spec_fn(T) -> int, i: int)
    requires
        0 <= i < s.len(),
    ensures
        sum_of(s.take(i + 1), f) == sum_of(s.take(i), f) + f(s[i]),
{
    assert(s.take(i + 1).drop_last() =~= s.take(i));
}

impl Ledger {
    /// Whether the tables that projections sum over meet `table_len_ok`.
    pub fn tables_summable(&self) -> (r: bool)
        ensures
            r == (table_len_ok(self@.assignments.len()) && table_len_ok(self@.splits.len())),
    {
        self.assignments.len() as u64 <= 0x7fff_ffff_ffff_ffff && self.splits.len() as u64 <= 0x7fff_ffff_ffff_ffff
    }

    /// Whether a transaction matching `tx_matches` is stored.
    fn has_transaction(&self, user: u64, tx: u64, month: Option<Date>) -> (r: bool)
        ensures
            r == has_tx_match(self@.transactions, user, tx, month),
    {
        let mut i: usize = 0;
        while i < self.transactions.len()
            invariant
                0 <= i <= self.transactions@.len(),
                forall|j: int| 0 <= j < i ==> !#[trigger] tx_matches(self.transactions@[j], user, tx, month),
            decreases self.transactions.len() - i,
        {
            let t = &self.transactions[i];
            let in_month = match month {
                Some(m) => t.date.is_same_month(&m),
                None => true,
            };
            if t.pillid == tx && t.user_pillid == user && t.deleted_at.is_none() && in_month {
                assert(tx_matches(self.transactions@[i as int], user, tx, month));
                return true;
            }
            i = i + 1;
        }
        false
    }

    fn assigned_sum(&self, user: u64, category: u64, month: &Date) -> (r: i128)
        requires
            table_len_ok(self@.assignments.len()),
        ensures
            r == assigned_in(self@, user, category, *month),
    {
        let ghost f = assigned_term(user, category, *month);
        let mut acc: i128 = 0;
        let mut i: usize = 0;
        while i < self.assignments.len()
            invariant
                0 <= i <= self.assignments@.len(),
                table_len_ok(self@.assignments.len()),
                f == assigned_term(user, category, *month),
                acc == sum_of(self@.assignments.take(i as int), f),
                -(i as int) * 0x8000_0000_0000_0000 <= acc <= (i as int) * 0x8000_0000_0000_0000,
            decreases self.assignments.len() - i,
        {
            let a = &self.assignments[i];
            proof {
                lemma_sum_take(self@.assignments, f, i as int);
                assert(f(self@.assignments[i as int]) == if assignment_counts(self@.assignments[i as int], user, category, *month) {
                    self@.assignments[i as int].amount as int
                } else {
                    0
                });
            }
            if a.user_pillid == user && a.category_pillid == category && a.deleted_at.is_none()
                && a.month.is_same_month(month) {
                acc = acc + a.amount as i128;
            }
            i = i + 1;
        }
        assert(self@.assignments.take(i as int) =~= self@.assignments);
        acc
    }

    fn activity_sum(&self, user: u64, category: u64, month: &Date) -> (r: i128)
        requires
            table_len_ok(self@.splits.len()),
        ensures
            r == activity_in(self@, user, category, *month),
    {
        let ghost l = self@;
        let ghost f = activity_term(l, user, category, *month);
        let mut acc: i128 = 0;
        let mut i: usize = 0;
        while i < self.splits.len()
            invariant
                0 <= i <= self.splits@.len(),
                l == self@,
                f == activity_term(l, user, category, *month),
                table_len_ok(self@.splits.len()),
                acc == sum_of(self@.splits.take(i as int), f),
                -(i as int) * 0x1_0000_0000_0000_0000 <= acc <= (i as int) * 0x1_0000_0000_0000_0000,
            decreases self.splits.len() - i,
        {
            let s = &self.splits[i];
            proof {
                lemma_sum_take(self@.splits, f, i as int);
                assert(f(self@.splits[i as int]) == if split_counts(l, self@.splits[i as int], user, category, *month) {
                    self@.splits[i as int].outflow - self@.splits[i as int].inflow
                } else {
                    0
                });
            }
            if s.user_pillid == user && s.category_pillid == category && s.deleted_at.is_none()
                && self.has_transaction(user, s.transaction_pillid, Some(*month)) {
                acc = acc + (s.outflow as i128 - s.inflow as i128);
            }
            i = i + 1;
        }
        assert(self@.splits.take(i as int) =~= self@.splits);
        acc
    }

    /// The envelope projection of `user` for a month written `YYYY-MM`: one
    /// row per live category, in the category list's order, with the money
    /// assigned, the activity and what is available. A category with no
    /// assignment and no activity gets a row of zeros.
    pub fn month_projection(&self, user: u64, month: &str) -> (r: Result<Vec<CategoryProjection>, ApiError>)
        requires
            table_len_ok(self@.assignments.len()),
            table_len_ok(self@.splits.len()),
        ensures
            projection_post(self@, user, month@, r),
    {
        let period = parse_projection_month(month)?;
        let cats = list_live(&self.categories, user);
        let mut rows: Vec<CategoryProjection> = Vec::new();
        let mut i: usize = 0;
        while i < cats.len()
            invariant
                0 <= i <= cats@.len(),
                cats@ == live_rows(self@.categories, user),
                month_of(month@) == Ok::<Date, ApiError>(period),
                table_len_ok(self@.assignments.len()),
                table_len_ok(self@.splits.len()),
                rows@.len() == i,
                forall|j: int| 0 <= j < i ==> #[trigger] category_projects(self@, user, cats@[j].pillid, period),
                forall|j: int| 0 <= j < i ==> #[trigger] rows@[j] == projection_row(self@, user, cats@[j].pillid, period),
            decreases cats.len() - i,
        {
            let c = cats[i].pillid;
            let assigned = self.assigned_sum(user, c, &period);
            let activity = self.activity_sum(user, c, &period);
            if assigned < i64::MIN as i128 || assigned > i64::MAX as i128 || activity < i64::MIN as i128
                || activity > i64::MAX as i128 {
                assert(!category_projects(self@, user, live_rows(self@.categories, user)[i as int].pillid, period));

                return Err(ApiError::Internal);
            }
            let available = assigned - activity;
            if available < i64::MIN as i128 || available > i64::MAX as i128 {
                assert(!category_projects(self@, user, live_rows(self@.categories, user)[i as int].pillid, period));

                return Err(ApiError::Internal);
            }
            rows.push(CategoryProjection {
                category_id: c,
                assigned: assigned as i64,
                activity: activity as i64,
                available: available as i64,
            });
            i = i + 1;
        }
        Ok(rows)
    }

    /// Sum of `inflow` (or of `outflow`) over the live splits of live
    /// transactions of `user`.
    fn flow_total(&self, user: u64, outflow: bool) -> (r: i128)
        requires
            table_len_ok(self@.splits.len()),
        ensures
            r == if outflow { outflow_total(self@, user) } else { inflow_total(self@, user) },
    {
        let ghost l = self@;
        let ghost f = flow_term(l, user, outflow);
        let mut acc: i128 = 0;
        let mut i: usize = 0;
        while i < self.splits.len()
            invariant
                0 <= i <= self.splits@.len(),
                l == self@,
                f == flow_term(l, user, outflow),
                table_len_ok(self@.splits.len()),
                acc == sum_of(self@.splits.take(i as int), f),
                -(i as int) * 0x8000_0000_0000_0000 <= acc <= (i as int) * 0x8000_0000_0000_0000,
            decreases self.splits.len() - i,
        {
            let s = &self.splits[i];
            proof {
                lemma_sum_take(self@.splits, f, i as int);
                assert(f(self@.splits[i as int]) == if split_is_live(l, self@.splits[i as int], user) {
                    if outflow { self@.splits[i as int].outflow as int } else { self@.splits[i as int].inflow as int }
                } else {
                    0
                });
            }
            if s.deleted_at.is_none() && self.has_transaction(user, s.transaction_pillid, None) {
                acc = acc + if outflow { s.outflow as i128 } else { s.inflow as i128 };
            }
            i = i + 1;
        }
        assert(self@.splits.take(i as int) =~= self@.splits);
        acc
    }

    /// The all-time summary of `user`: total inflow, total outflow, and
    /// their difference.
    pub fn compute_dashboard_projection(&self, user: u64) -> (r: Result<Dashboard, ApiError>)
        requires
            table_len_ok(self@.splits.len()),
        ensures
            r is Ok <==> fits_i64(inflow_total(self@, user)) && fits_i64(outflow_total(self@, user))
                && fits_i64(inflow_total(self@, user) - outflow_total(self@, user)),
            match r {
                Ok(d) => {
                    &&& d.inflow == inflow_total(self@, user)
                    &&& d.outflow == outflow_total(self@, user)
                    &&& d.available == inflow_total(self@, user) - outflow_total(self@, user)
                },
                Err(e) => e == ApiError::Internal,
            },
    {
        let inflow = self.flow_total(user, false);
        let outflow = self.flow_total(user, true);
        if inflow < i64::MIN as i128 || inflow > i64::MAX as i128 || outflow < i64::MIN as i128
            || outflow > i64::MAX as i128 {
            return Err(ApiError::Internal);
        }
        let inflow = inflow as i64;
        let outflow = outflow as i64;
        if (inflow as i128) - (outflow as i128) < i64::MIN as i128 || (inflow as i128) - (outflow as i128) > i64::MAX as i128 {
            return Err(ApiError::Internal);
        }
        Ok(Dashboard { inflow, outflow, available: project_available(inflow, outflow) })
    }
}

} // verus!
