use vstd::prelude::*;

use crate::calendar::{month_of, parse_projection_month};
use crate::error::ApiError;
use crate::ledger::{Ledger, LedgerView};
use crate::models::{CategoryAssignment, Timestamp, UserModel};
use crate::tables::{lemma_ids_push, find_live, has_live_row, latest_first, list_live, live_rows, sort_latest_first, Chronological};
use crate::transactions::category_in_budget;

verus! {

impl Chronological for CategoryAssignment {
    open spec fn spec_order_key(&self) -> (int, int) {
        (self.month.key(), self.created_at as int)
    }

    fn order_key(&self) -> (r: (i64, i64)) {
        (self.month.sort_key(), self.created_at)
    }
}

impl Ledger {
    /// Assignments are invisible while switched off: every assignment
    /// operation answers `FeatureDisabled` before looking at the caller.
    pub fn assignments_gate(&self) -> (r: Result<(), ApiError>)
        ensures
            r == if self.flags.assignments {
                Ok::<(), ApiError>(())
            } else {
                Err::<(), ApiError>(ApiError::FeatureDisabled)
            },
    {
        if self.flags.assignments {
            Ok(())
        } else {
            Err(ApiError::FeatureDisabled)
        }
    }

    /// The live assignments of `user`, latest month first and, within a
    /// month, latest created first. Hidden when assignments are switched off.
    pub fn list_category_assignments(&self, user: u64) -> (r: Result<Vec<CategoryAssignment>, ApiError>)
        ensures
            !self.flags.assignments ==> r == Err::<Vec<CategoryAssignment>, ApiError>(ApiError::FeatureDisabled),
            self.flags.assignments ==> r is Ok,
            r matches Ok(rows) ==> {
                &&& rows@.to_multiset() == live_rows(self@.assignments, user).to_multiset()
                &&& latest_first(rows@)
            },
    {
        if !self.flags.assignments {
            return Err(ApiError::FeatureDisabled);
        }
        Ok(sort_latest_first(list_live(&self.assignments, user)))
    }

    /// Assigns `amount` to a category for a month written `YYYY-MM`. The
    /// budget and the category must be live rows of `user`, the category of
    /// that budget. Assignments add up: an existing one for the same month is
    /// kept. Hidden when assignments are switched off.
    pub fn create_category_assignment(
        &mut self,
        user: u64,
        budget: u64,
        category: u64,
        month: &str,
        amount: i64,
        now: Timestamp,
    ) -> (r: Result<CategoryAssignment, ApiError>)
        ensures
            !old(self).flags.assignments ==> r == Err::<CategoryAssignment, ApiError>(ApiError::FeatureDisabled),
            old(self).flags.assignments && month_of(month@) is Err ==> r == Err::<CategoryAssignment, ApiError>(
                ApiError::Validation,
            ),
            old(self).flags.assignments && month_of(month@) is Ok && !(has_live_row(old(self)@.budgets, user, budget)
                && category_in_budget(old(self)@, user, category, budget)) ==> r == Err::<CategoryAssignment, ApiError>(
                ApiError::InvalidReference,
            ),
            old(self).flags.assignments && month_of(month@) is Ok && has_live_row(old(self)@.budgets, user, budget)
                && category_in_budget(old(self)@, user, category, budget) ==> (r is Ok <==> old(self).next_id < u64::MAX),
            match r {
                Ok(a) => {
                    &&& month_of(month@) == Ok::<_, ApiError>(a.month)
                    &&& a == (CategoryAssignment {
                        pillid: old(self).next_id,
                        user_pillid: user,
                        budget_pillid: budget,
                        category_pillid: category,
                        month: a.month,
                        amount: amount,
                        created_at: now,
                        updated_at: now,
                        deleted_at: None,
                    })
                    &&& final(self)@ == LedgerView {
                        next_id: (old(self).next_id + 1) as u64,
                        assignments: old(self)@.assignments.push(a),
                        ..old(self)@
                    }
                },
                Err(_) => final(self)@ == old(self)@,
            },
            old(self)@.wf() ==> final(self)@.wf(),
    {
        if !self.flags.assignments {
            return Err(ApiError::FeatureDisabled);
        }
        let period = parse_projection_month(month)?;
        if find_live(&self.budgets, user, budget).is_none() || !self.category_fits(user, category, budget) {
            return Err(ApiError::InvalidReference);
        }
        if self.next_id == u64::MAX {
            return Err(ApiError::Internal);
        }
        let a = CategoryAssignment {
            pillid: self.next_id,
            user_pillid: user,
            budget_pillid: budget,
            category_pillid: category,
            month: period,
            amount,
            created_at: now,
            updated_at: now,
            deleted_at: None,
        };
        self.assignments.push(a.duplicate());
        self.next_id = self.next_id + 1;
        proof {
            if old(self)@.wf() {
                lemma_ids_push(old(self)@.assignments, a, old(self).next_id);
            }
        }
        Ok(a)
    }
}

} // verus!
