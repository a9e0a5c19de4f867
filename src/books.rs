use vstd::prelude::*;

use crate::error::ApiError;
use crate::ledger::{Ledger, LedgerView};
use crate::models::{Account, Budget, Category, Supercategory, Timestamp, UserModel};
use crate::tables::{lemma_ids_deleted, lemma_ids_push, lemma_ids_update, find_live, first_live_row, has_live_row, list_live, live_rows, soft_delete, with_deleted};

verus! {

/// `user` already has a budget (deleted or not).
pub open spec fn has_any_budget(budgets: Seq<Budget>, user: u64) -> bool {
    exists|i: int| 0 <= i < budgets.len() && (#[trigger] budgets[i]).user_pillid == user
}

/// The live supercategory `id` of `user` belongs to `budget`.
pub open spec fn supercategory_in_budget(l: LedgerView, user: u64, id: u64, budget: u64) -> bool {
    exists|k: int|
        #![trigger l.supercategories[k]]
        first_live_row(l.supercategories, user, id, k) && l.supercategories[k].budget_pillid == budget
}

/// A category may be written under `budget` and `supercategory`: both are
/// live rows of `user`, and the supercategory belongs to the budget.
pub open spec fn category_parents_ok(l: LedgerView, user: u64, budget: u64, supercategory: u64) -> bool {
    has_live_row(l.budgets, user, budget) && supercategory_in_budget(l, user, supercategory, budget)
}

impl Ledger {
    /// Whether `user` has a budget row, deleted or not.
    fn user_has_budget(&self, user: u64) -> (r: bool)
        ensures
            r == has_any_budget(self@.budgets, user),
    {
        let mut i: usize = 0;
        while i < self.budgets.len()
            invariant
                0 <= i <= self.budgets@.len(),
                forall|j: int| 0 <= j < i ==> (#[trigger] self.budgets@[j]).user_pillid != user,
            decreases self.budgets.len() - i,
        {
            if self.budgets[i].user_pillid == user {
                return true;
            }
            i = i + 1;
        }
        false
    }

    /// The live budgets of `user`, oldest first.
    pub fn list_budgets(&self, user: u64) -> (r: Vec<Budget>)
        ensures
            r@ == live_rows(self@.budgets, user),
    {
        list_live(&self.budgets, user)
    }

    /// Creates a budget (currency `USD` unless given). Without multi-budget
    /// mode a user who already has a budget gets a conflict.
    pub fn create_budget(
        &mut self,
        user: u64,
        name: String,
        currency_code: Option<String>,
        now: Timestamp,
    ) -> (r: Result<Budget, ApiError>)
        ensures
            !old(self).flags.multi_budget && has_any_budget(old(self)@.budgets, user) ==> r
                == Err::<Budget, ApiError>(ApiError::Conflict),
            (old(self).flags.multi_budget || !has_any_budget(old(self)@.budgets, user)) ==> (
            r is Ok <==> old(self).next_id < u64::MAX),
            match r {
                Ok(b) => {
                    &&& b.pillid == old(self).next_id
                    &&& b.user_pillid == user
                    &&& b.name == name
                    &&& b.currency_code@ == match currency_code {
                        Some(c) => c@,
                        None => "USD"@,
                    }
                    &&& !b.is_default
                    &&& b.created_at == now && b.updated_at == now && b.deleted_at is None
                    &&& final(self)@ == LedgerView {
                        next_id: (old(self).next_id + 1) as u64,
                        budgets: old(self)@.budgets.push(b),
                        ..old(self)@
                    }
                },
                Err(e) => (e == ApiError::Conflict || e == ApiError::Internal) && final(self)@ == old(self)@,
            },
            old(self)@.wf() ==> final(self)@.wf(),
    {
        if !self.flags.multi_budget && self.user_has_budget(user) {
            return Err(ApiError::Conflict);
        }
        if self.next_id == u64::MAX {
            return Err(ApiError::Internal);
        }
        let currency_code = match currency_code {
            Some(c) => c,
            None => "USD".to_owned(),
        };
        let b = Budget {
            pillid: self.next_id,
            user_pillid: user,
            name,
            currency_code,
            is_default: false,
            created_at: now,
            updated_at: now,
            deleted_at: None,
        };
        self.budgets.push(b.duplicate());
        self.next_id = self.next_id + 1;
        proof {
            if old(self)@.wf() {
                lemma_ids_push(old(self)@.budgets, b, old(self).next_id);
            }
        }
        Ok(b)
    }

    /// The live accounts of `user`, oldest first.
    pub fn list_accounts(&self, user: u64) -> (r: Vec<Account>)
        ensures
            r@ == live_rows(self@.accounts, user),
    {
        list_live(&self.accounts, user)
    }

    /// Creates an account in a live budget of `user`.
    pub fn create_account(&mut self, user: u64, budget: u64, name: String, now: Timestamp) -> (r: Result<Account, ApiError>)
        ensures
            !has_live_row(old(self)@.budgets, user, budget) ==> r == Err::<Account, ApiError>(ApiError::InvalidReference),
            has_live_row(old(self)@.budgets, user, budget) ==> (r is Ok <==> old(self).next_id < u64::MAX),
            match r {
                Ok(a) => {
                    &&& a == (Account {
                        pillid: old(self).next_id,
                        user_pillid: user,
                        budget_pillid: budget,
                        name: name,
                        created_at: now,
                        updated_at: now,
                        deleted_at: None,
                    })
                    &&& final(self)@ == LedgerView {
                        next_id: (old(self).next_id + 1) as u64,
                        accounts: old(self)@.accounts.push(a),
                        ..old(self)@
                    }
                },
                Err(e) => (e == ApiError::InvalidReference || e == ApiError::Internal) && final(self)@ == old(self)@,
            },
            old(self)@.wf() ==> final(self)@.wf(),
    {
        if find_live(&self.budgets, user, budget).is_none() {
            return Err(ApiError::InvalidReference);
        }
        if self.next_id == u64::MAX {
            return Err(ApiError::Internal);
        }
        let a = Account {
            pillid: self.next_id,
            user_pillid: user,
            budget_pillid: budget,
            name,
            created_at: now,
            updated_at: now,
            deleted_at: None,
        };
        self.accounts.push(a.duplicate());
        self.next_id = self.next_id + 1;
        proof {
            if old(self)@.wf() {
                lemma_ids_push(old(self)@.accounts, a, old(self).next_id);
            }
        }
        Ok(a)
    }

    /// Moves and renames a live account of `user`; the new budget must be a
    /// live budget of `user`.
    pub fn update_account(&mut self, user: u64, id: u64, budget: u64, name: String, now: Timestamp) -> (r: Result<Account, ApiError>)
        ensures
            r is Ok <==> has_live_row(old(self)@.accounts, user, id) && has_live_row(old(self)@.budgets, user, budget),
            match r {
                Ok(a) => exists|k: int|
                    #![trigger old(self)@.accounts[k]]
                    {
                        &&& first_live_row(old(self)@.accounts, user, id, k)
                        &&& a == (Account { budget_pillid: budget, name: name, updated_at: now, ..old(self)@.accounts[k] })
                        &&& final(self)@ == LedgerView { accounts: old(self)@.accounts.update(k, a), ..old(self)@ }
                    },
                Err(e) => e == ApiError::InvalidReference && final(self)@ == old(self)@,
            },
            old(self)@.wf() ==> final(self)@.wf(),
    {
        let k = match find_live(&self.accounts, user, id) {
            Some(k) => k,
            None => return Err(ApiError::InvalidReference),
        };
        if find_live(&self.budgets, user, budget).is_none() {
            return Err(ApiError::InvalidReference);
        }
        let old_row = self.accounts[k].duplicate();
        let a = Account { budget_pillid: budget, name, updated_at: now, ..old_row };
        self.accounts.set(k, a.duplicate());
        assert(old(self)@.accounts[k as int] == old_row);
        assert(self@.accounts =~= old(self)@.accounts.update(k as int, a));
        proof {
            if old(self)@.wf() {
                lemma_ids_update(old(self)@.accounts, k as int, a, old(self).next_id);
            }
        }
        Ok(a)
    }

    /// Soft-deletes a live account of `user`; anything else is left alone.
    pub fn delete_account(&mut self, user: u64, id: u64, now: Timestamp)
        ensures
            final(self)@ == (LedgerView {
                accounts: with_deleted(old(self)@.accounts, user, id, now),
                ..old(self)@
            }),
            old(self)@.wf() ==> final(self)@.wf(),
    {
        soft_delete(&mut self.accounts, user, id, now);
        proof {
            if old(self)@.wf() {
                lemma_ids_deleted(old(self)@.accounts, user, id, now, old(self).next_id);
            }
        }
    }

    /// The live supercategories of `user`, oldest first.
    pub fn list_supercategories(&self, user: u64) -> (r: Vec<Supercategory>)
        ensures
            r@ == live_rows(self@.supercategories, user),
    {
        list_live(&self.supercategories, user)
    }

    /// Creates a supercategory in a live budget of `user`.
    pub fn create_supercategory(&mut self, user: u64, budget: u64, name: String, now: Timestamp) -> (r: Result<Supercategory, ApiError>)
        ensures
            !has_live_row(old(self)@.budgets, user, budget) ==> r == Err::<Supercategory, ApiError>(ApiError::InvalidReference),
            has_live_row(old(self)@.budgets, user, budget) ==> (r is Ok <==> old(self).next_id < u64::MAX),
            match r {
                Ok(s) => {
                    &&& s == (Supercategory {
                        pillid: old(self).next_id,
                        user_pillid: user,
                        budget_pillid: budget,
                        name: name,
                        created_at: now,
                        updated_at: now,
                        deleted_at: None,
                    })
                    &&& final(self)@ == LedgerView {
                        next_id: (old(self).next_id + 1) as u64,
                        supercategories: old(self)@.supercategories.push(s),
                        ..old(self)@
                    }
                },
                Err(e) => (e == ApiError::InvalidReference || e == ApiError::Internal) && final(self)@ == old(self)@,
            },
            old(self)@.wf() ==> final(self)@.wf(),
    {
        if find_live(&self.budgets, user, budget).is_none() {
            return Err(ApiError::InvalidReference);
        }
        if self.next_id == u64::MAX {
            return Err(ApiError::Internal);
        }
        let s = Supercategory {
            pillid: self.next_id,
            user_pillid: user,
            budget_pillid: budget,
            name,
            created_at: now,
            updated_at: now,
            deleted_at: None,
        };
        self.supercategories.push(s.duplicate());
        self.next_id = self.next_id + 1;
        proof {
            if old(self)@.wf() {
                lemma_ids_push(old(self)@.supercategories, s, old(self).next_id);
            }
        }
        Ok(s)
    }

    /// Moves and renames a live supercategory of `user`; the new budget must
    /// be a live budget of `user`.
    pub fn update_supercategory(&mut self, user: u64, id: u64, budget: u64, name: String, now: Timestamp) -> (r: Result<Supercategory, ApiError>)
        ensures
            r is Ok <==> has_live_row(old(self)@.supercategories, user, id) && has_live_row(old(self)@.budgets, user, budget),
            match r {
                Ok(s) => exists|k: int|
                    #![trigger old(self)@.supercategories[k]]
                    {
                        &&& first_live_row(old(self)@.supercategories, user, id, k)
                        &&& s == (Supercategory { budget_pillid: budget, name: name, updated_at: now, ..old(self)@.supercategories[k] })
                        &&& final(self)@ == LedgerView { supercategories: old(self)@.supercategories.update(k, s), ..old(self)@ }
                    },
                Err(e) => e == ApiError::InvalidReference && final(self)@ == old(self)@,
            },
            old(self)@.wf() ==> final(self)@.wf(),
    {
        let k = match find_live(&self.supercategories, user, id) {
            Some(k) => k,
            None => return Err(ApiError::InvalidReference),
        };
        if find_live(&self.budgets, user, budget).is_none() {
            return Err(ApiError::InvalidReference);
        }
        let old_row = self.supercategories[k].duplicate();
        let s = Supercategory { budget_pillid: budget, name, updated_at: now, ..old_row };
        self.supercategories.set(k, s.duplicate());
        assert(old(self)@.supercategories[k as int] == old_row);
        assert(self@.supercategories =~= old(self)@.supercategories.update(k as int, s));
        proof {
            if old(self)@.wf() {
                lemma_ids_update(old(self)@.supercategories, k as int, s, old(self).next_id);
            }
        }
        Ok(s)
    }

    /// Soft-deletes a live supercategory of `user`; anything else is left alone.
    pub fn delete_supercategory(&mut self, user: u64, id: u64, now: Timestamp)
        ensures
            final(self)@ == (LedgerView {
                supercategories: with_deleted(old(self)@.supercategories, user, id, now),
                ..old(self)@
            }),
            old(self)@.wf() ==> final(self)@.wf(),
    {
        soft_delete(&mut self.supercategories, user, id, now);
        proof {
            if old(self)@.wf() {
                lemma_ids_deleted(old(self)@.supercategories, user, id, now, old(self).next_id);
            }
        }
    }

    /// Whether the live supercategory `id` of `user` belongs to `budget`.
    fn supercategory_fits(&self, user: u64, id: u64, budget: u64) -> (r: bool)
        ensures
            r == supercategory_in_budget(self@, user, id, budget),
    {
        match find_live(&self.supercategories, user, id) {
            Some(k) => self.supercategories[k].budget_pillid == budget,
            None => false,
        }
    }

    /// The live categories of `user`, oldest first.
    pub fn list_categories(&self, user: u64) -> (r: Vec<Category>)
        ensures
            r@ == live_rows(self@.categories, user),
    {
        list_live(&self.categories, user)
    }

    /// Creates a category under a live budget and a live supercategory of
    /// `user`; the supercategory must belong to that budget.
    pub fn create_category(
        &mut self,
        user: u64,
        budget: u64,
        supercategory: u64,
        name: String,
        now: Timestamp,
    ) -> (r: Result<Category, ApiError>)
        ensures
            !category_parents_ok(old(self)@, user, budget, supercategory) ==> r == Err::<Category, ApiError>(ApiError::InvalidReference),
            category_parents_ok(old(self)@, user, budget, supercategory) ==> (r is Ok <==> old(self).next_id < u64::MAX),
            match r {
                Ok(c) => {
                    &&& c == (Category {
                        pillid: old(self).next_id,
                        user_pillid: user,
                        budget_pillid: budget,
                        supercategory_pillid: supercategory,
                        name: name,
                        created_at: now,
                        updated_at: now,
                        deleted_at: None,
                    })
                    &&& final(self)@ == LedgerView {
                        next_id: (old(self).next_id + 1) as u64,
                        categories: old(self)@.categories.push(c),
                        ..old(self)@
                    }
                },
                Err(e) => (e == ApiError::InvalidReference || e == ApiError::Internal) && final(self)@ == old(self)@,
            },
            old(self)@.wf() ==> final(self)@.wf(),
    {
        if find_live(&self.budgets, user, budget).is_none() || !self.supercategory_fits(user, supercategory, budget) {
            return Err(ApiError::InvalidReference);
        }
        if self.next_id == u64::MAX {
            return Err(ApiError::Internal);
        }
        let c = Category {
            pillid: self.next_id,
            user_pillid: user,
            budget_pillid: budget,
            supercategory_pillid: supercategory,
            name,
            created_at: now,
            updated_at: now,
            deleted_at: None,
        };
        self.categories.push(c.duplicate());
        self.next_id = self.next_id + 1;
        proof {
            if old(self)@.wf() {
                lemma_ids_push(old(self)@.categories, c, old(self).next_id);
            }
        }
        Ok(c)
    }

    /// Moves and renames a live category of `user`, under the same rules as
    /// creation.
    pub fn update_category(
        &mut self,
        user: u64,
        id: u64,
        budget: u64,
        supercategory: u64,
        name: String,
        now: Timestamp,
    ) -> (r: Result<Category, ApiError>)
        ensures
            r is Ok <==> has_live_row(old(self)@.categories, user, id) && category_parents_ok(old(self)@, user, budget, supercategory),
            match r {
                Ok(c) => exists|k: int|
                    #![trigger old(self)@.categories[k]]
                    {
                        &&& first_live_row(old(self)@.categories, user, id, k)
                        &&& c == (Category {
                            budget_pillid: budget,
                            supercategory_pillid: supercategory,
                            name: name,
                            updated_at: now,
                            ..old(self)@.categories[k]
                        })
                        &&& final(self)@ == LedgerView { categories: old(self)@.categories.update(k, c), ..old(self)@ }
                    },
                Err(e) => e == ApiError::InvalidReference && final(self)@ == old(self)@,
            },
            old(self)@.wf() ==> final(self)@.wf(),
    {
        let k = match find_live(&self.categories, user, id) {
            Some(k) => k,
            None => return Err(ApiError::InvalidReference),
        };
        if find_live(&self.budgets, user, budget).is_none() || !self.supercategory_fits(user, supercategory, budget) {
            return Err(ApiError::InvalidReference);
        }
        let old_row = self.categories[k].duplicate();
        let c = Category { budget_pillid: budget, supercategory_pillid: supercategory, name, updated_at: now, ..old_row };
        self.categories.set(k, c.duplicate());
        assert(old(self)@.categories[k as int] == old_row);
        assert(self@.categories =~= old(self)@.categories.update(k as int, c));
        proof {
            if old(self)@.wf() {
                lemma_ids_update(old(self)@.categories, k as int, c, old(self).next_id);
            }
        }
        Ok(c)
    }

    /// Soft-deletes a live category of `user`; anything else is left alone.
    pub fn delete_category(&mut self, user: u64, id: u64, now: Timestamp)
        ensures
            final(self)@ == (LedgerView {
                categories: with_deleted(old(self)@.categories, user, id, now),
                ..old(self)@
            }),
            old(self)@.wf() ==> final(self)@.wf(),
    {
        soft_delete(&mut self.categories, user, id, now);
        proof {
            if old(self)@.wf() {
                lemma_ids_deleted(old(self)@.categories, user, id, now, old(self).next_id);
            }
        }
    }
}

} // verus!
