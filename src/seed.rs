use vstd::prelude::*;

use crate::error::ApiError;
use crate::ledger::{first_user_with_email, has_user_with_email, Ledger, LedgerView};
use crate::models::{Account, AuthMethod, Budget, Timestamp, User};
use crate::tables::lemma_ids_push;

verus! {

/// The address of the development user.
pub open spec fn seed_email() -> Seq<char> {
    "seed@envelopezero.local"@
}

/// A live default budget of `user`.
pub open spec fn is_live_default(b: Budget, user: u64) -> bool {
    b.user_pillid == user && b.is_default && b.deleted_at is None
}

pub open spec fn has_live_default(budgets: Seq<Budget>, user: u64) -> bool {
    exists|i: int| 0 <= i < budgets.len() && #[trigger] is_live_default(budgets[i], user)
}

pub open spec fn first_live_default(budgets: Seq<Budget>, user: u64, k: int) -> bool {
    &&& 0 <= k < budgets.len()
    &&& is_live_default(budgets[k], user)
    &&& forall|j: int| 0 <= j < k ==> !#[trigger] is_live_default(budgets[j], user)
}

/// A live account named `Checking` of `user` in `budget`.
pub open spec fn is_checking(a: Account, user: u64, budget: u64) -> bool {
    a.user_pillid == user && a.budget_pillid == budget && a.deleted_at is None && a.name@ == "Checking"@
}

pub open spec fn has_checking(accounts: Seq<Account>, user: u64, budget: u64) -> bool {
    exists|i: int| 0 <= i < accounts.len() && #[trigger] is_checking(accounts[i], user, budget)
}

/// The development user's identifier after seeding `l`: the first user with
/// the seed address, or the next identifier.
pub open spec fn seed_user_id(l: LedgerView) -> u64 {
    if has_user_with_email(l.users, seed_email()) {
        l.users[choose|k: int| first_user_with_email(l.users, seed_email(), k)].pillid
    } else {
        l.next_id
    }
}

/// Step one of seeding: the development user exists.
pub open spec fn seeded_user(l0: LedgerView, l1: LedgerView, now: Timestamp) -> bool {
    if has_user_with_email(l0.users, seed_email()) {
        l1 == l0
    } else {
        &&& l1.users.len() == l0.users.len() + 1
        &&& l1.users.drop_last() == l0.users
        &&& l1.users.last().pillid == l0.next_id
        &&& l1.users.last().email@ == seed_email()
        &&& l1.users.last().created_at == now
        &&& l1.users.last().deleted_at is None
        &&& l1.auth_methods.len() == l0.auth_methods.len() + 1
        &&& l1.auth_methods.drop_last() == l0.auth_methods
        &&& l1.auth_methods.last().user_pillid == l0.next_id
        &&& l1.auth_methods.last().label@ == seed_email()
        &&& l1 == LedgerView {
            next_id: (l0.next_id + 1) as u64,
            users: l1.users,
            auth_methods: l1.auth_methods,
            ..l0
        }
    }
}

/// Step two of seeding: `user` has a live default budget.
pub open spec fn seeded_budget(l0: LedgerView, l1: LedgerView, user: u64, now: Timestamp) -> bool {
    if has_live_default(l0.budgets, user) {
        l1 == l0
    } else {
        &&& l1.budgets.len() == l0.budgets.len() + 1
        &&& l1.budgets.drop_last() == l0.budgets
        &&& l1.budgets.last().pillid == l0.next_id
        &&& l1.budgets.last().user_pillid == user
        &&& l1.budgets.last().name@ == "Seed Budget"@
        &&& l1.budgets.last().currency_code@ == "USD"@
        &&& l1.budgets.last().is_default
        &&& l1.budgets.last().created_at == now
        &&& l1.budgets.last().deleted_at is None
        &&& l1 == LedgerView { next_id: (l0.next_id + 1) as u64, budgets: l1.budgets, ..l0 }
    }
}

/// The identifier of the first live default budget of `user`.
pub open spec fn default_budget_id(l: LedgerView, user: u64) -> u64 {
    l.budgets[choose|k: int| first_live_default(l.budgets, user, k)].pillid
}

/// Step three of seeding: the default budget has a `Checking` account.
pub open spec fn seeded_account(l0: LedgerView, l1: LedgerView, user: u64, budget: u64, now: Timestamp) -> bool {
    if has_checking(l0.accounts, user, budget) {
        l1 == l0
    } else {
        &&& l1.accounts == l0.accounts.push(
            Account {
                pillid: l0.next_id,
                user_pillid: user,
                budget_pillid: budget,
                name: l1.accounts.last().name,
                created_at: now,
                updated_at: now,
                deleted_at: None,
            },
        )
        &&& l1.accounts.last().name@ == "Checking"@
        &&& l1 == LedgerView { next_id: (l0.next_id + 1) as u64, accounts: l1.accounts, ..l0 }
    }
}

/// What `seed_dev_data` does: each step runs only where its row is missing.
pub open spec fn seed_post(l0: LedgerView, l3: LedgerView, now: Timestamp, r: Result<(), ApiError>) -> bool {
    match r {
        Err(e) => e == ApiError::Internal && l0.next_id > u64::MAX - 3 && l3 == l0,
        Ok(()) => {
            &&& l0.next_id <= u64::MAX - 3
            &&& exists|l1: LedgerView, l2: LedgerView|
                #![trigger seeded_user(l0, l1, now), seeded_budget(l1, l2, seed_user_id(l0), now)]
                {
                    &&& seeded_user(l0, l1, now)
                    &&& seeded_budget(l1, l2, seed_user_id(l0), now)
                    &&& seeded_account(l2, l3, seed_user_id(l0), default_budget_id(l2, seed_user_id(l0)), now)
                }
        },
    }
}

impl Ledger {
    fn live_default_budget(&self, user: u64) -> (r: Option<usize>)
        ensures
            match r {
                Some(k) => first_live_default(self@.budgets, user, k as int),
                None => !has_live_default(self@.budgets, user),
            },
    {
        let mut i: usize = 0;
        while i < self.budgets.len()
            invariant
                0 <= i <= self.budgets@.len(),
                forall|j: int| 0 <= j < i ==> !#[trigger] is_live_default(self.budgets@[j], user),
            decreases self.budgets.len() - i,
        {
            let b = &self.budgets[i];
            if b.user_pillid == user && b.is_default && b.deleted_at.is_none() {
                return Some(i);
            }
            i = i + 1;
        }
        None
    }

    fn has_checking_account(&self, user: u64, budget: u64, checking: &String) -> (r: bool)
        requires
            checking@ == "Checking"@,
        ensures
            r == has_checking(self@.accounts, user, budget),
    {
        let mut i: usize = 0;
        while i < self.accounts.len()
            invariant
                0 <= i <= self.accounts@.len(),
                checking@ == "Checking"@,
                forall|j: int| 0 <= j < i ==> !#[trigger] is_checking(self.accounts@[j], user, budget),
            decreases self.accounts.len() - i,
        {
            let a = &self.accounts[i];
            if a.user_pillid == user && a.budget_pillid == budget && a.deleted_at.is_none() && a.name == *checking {
                assert(is_checking(self.accounts@[i as int], user, budget));
                return true;
            }
            i = i + 1;
        }
        false
    }
}

/// Makes sure the development user exists, with a default budget holding a
/// `Checking` account. Running it again adds nothing.
pub fn seed_dev_data(ledger: &mut Ledger, now: Timestamp) -> (r: Result<(), ApiError>)
    ensures
        seed_post(old(ledger)@, final(ledger)@, now, r),
        old(ledger)@.wf() ==> final(ledger)@.wf(),
{
    if ledger.next_id > u64::MAX - 3 {
        return Err(ApiError::Internal);
    }
    let ghost l0 = ledger@;
    let email = "seed@envelopezero.local".to_owned();
    let user = match ledger.user_by_email(&email) {
        Some(k) => ledger.users[k].pillid,
        None => {
            let uid = ledger.next_id;
            ledger.users.push(User { pillid: uid, email: email.clone(), created_at: now, updated_at: now, deleted_at: None });
            ledger.auth_methods.push(AuthMethod { user_pillid: uid, label: email.clone() });
            ledger.next_id = uid + 1;
            assert(ledger@.users.drop_last() =~= l0.users);
            assert(ledger@.auth_methods.drop_last() =~= l0.auth_methods);
            proof {
                if l0.wf() {
                    assert(ledger@.users =~= l0.users.push(ledger@.users.last()));
                    lemma_ids_push(l0.users, ledger@.users.last(), l0.next_id);
                }
            }
            uid
        },
    };
    let ghost l1 = ledger@;
    assert(seeded_user(l0, l1, now));
    assert(user == seed_user_id(l0));
    let budget = match ledger.live_default_budget(user) {
        Some(k) => ledger.budgets[k].pillid,
        None => {
            let bid = ledger.next_id;
            ledger.budgets.push(Budget {
                pillid: bid,
                user_pillid: user,
                name: "Seed Budget".to_owned(),
                currency_code: "USD".to_owned(),
                is_default: true,
                created_at: now,
                updated_at: now,
                deleted_at: None,
            });
            ledger.next_id = bid + 1;
            assert(ledger@.budgets.drop_last() =~= l1.budgets);
            proof {
                if l1.wf() {
                    assert(ledger@.budgets =~= l1.budgets.push(ledger@.budgets.last()));
                    lemma_ids_push(l1.budgets, ledger@.budgets.last(), l1.next_id);
                }
            }
            proof {
                let n = l1.budgets.len() as int;
                assert(is_live_default(ledger@.budgets[n], user));
                assert forall|j: int| 0 <= j < n implies !#[trigger] is_live_default(ledger@.budgets[j], user) by {
                    assert(ledger@.budgets[j] == l1.budgets[j]);
                }
                assert(first_live_default(ledger@.budgets, user, n));
            }
            bid
        },
    };
    let ghost l2 = ledger@;
    assert(seeded_budget(l1, l2, user, now));
    assert(budget == default_budget_id(l2, user));
    let checking = "Checking".to_owned();
    if !ledger.has_checking_account(user, budget, &checking) {
        let aid = ledger.next_id;
        ledger.accounts.push(Account {
            pillid: aid,
            user_pillid: user,
            budget_pillid: budget,
            name: checking,
            created_at: now,
            updated_at: now,
            deleted_at: None,
        });
        ledger.next_id = aid + 1;
        proof {
            if l2.wf() {
                assert(ledger@.accounts =~= l2.accounts.push(ledger@.accounts.last()));
                lemma_ids_push(l2.accounts, ledger@.accounts.last(), l2.next_id);
            }
        }
    }
    assert(seeded_account(l2, ledger@, user, budget, now));
    Ok(())
}

} // verus!
