use vstd::prelude::*;

use crate::auth::sha256_hex_of;
use crate::error::ApiError;
use crate::ledger::{
    has_pending_link, has_user_with_email, latest_pending, later, link_pending, redeemed,
    request_link_post, session_authenticates, session_valid, verify_link_post, LedgerView,
    MAGIC_LINK_TTL,
};
use crate::seed::{
    default_budget_id, has_live_default, is_live_default, seed_email, seed_post,
    seed_user_id, seeded_account, seeded_budget, seeded_user,
};
use crate::ledger::first_user_with_email;
use crate::models::{live_for, BaseModel, CategoryAssignment, Timestamp, TransactionDetail, User, UserModel};
use crate::transactions::with_splits_retired;
use crate::projection::{
    assigned_in, assigned_term, activity_in, activity_term, assignment_counts, projection_post,
    split_counts, sum_of, CategoryProjection,
};
use crate::calendar::{month_of, Date};
use crate::tables::{first_live_row, lemma_live_ids_fresh, live_rows, with_deleted};

verus! {

/// No magic link of the store was ever issued for the digest `h`.
pub open spec fn never_issued(l: LedgerView, h: Seq<char>) -> bool {
    forall|i: int| 0 <= i < l.magic_links.len() ==> (#[trigger] l.magic_links[i]).token_hash@ != h
}

/// Magic-link round trip. Requesting a link adds exactly one outbox message and
/// one pending link. Redeeming the returned token before it expires succeeds
/// (unless the server runs out of randomness or identifiers), creates the user
/// of an unregistered address, and yields a session that authenticates that
/// user; redeeming the same token again fails.
pub proof fn lemma_magic_link_round_trip(
    l0: LedgerView,
    l1: LedgerView,
    l2: LedgerView,
    l3: LedgerView,
    email: Seq<char>,
    token: String,
    t0: Timestamp,
    t1: Timestamp,
    t2: Timestamp,
    r2: Result<(String, u64), ApiError>,
    r3: Result<(String, u64), ApiError>,
)
    requires
        never_issued(l0, sha256_hex_of(token@)),
        request_link_post(l0, l1, email, t0, Ok(token)),
        t1 < later(t0, MAGIC_LINK_TTL),
        verify_link_post(l1, l2, token@, t1, r2),
        verify_link_post(l2, l3, token@, t2, r3),
    ensures
        l1.outbox.len() == l0.outbox.len() + 1,
        l1.magic_links.len() == l0.magic_links.len() + 1,
        has_pending_link(l1.magic_links, sha256_hex_of(token@), t1),
        r2 is Ok || r2 == Err::<(String, u64), ApiError>(ApiError::Internal),
        r2 matches Ok((s, u)) ==> session_authenticates(l2.sessions, sha256_hex_of(s@), t1, u),
        r2 is Ok && !has_user_with_email(l0.users, l1.magic_links.last().email@)
            ==> l2.users.len() == l1.users.len() + 1,
        r2 is Ok ==> r3 == Err::<(String, u64), ApiError>(ApiError::Unauthorized),
{
    let h = sha256_hex_of(token@);
    let n = l0.magic_links.len() as int;
    assert(l1.magic_links[n] == l1.magic_links.last());
    assert(link_pending(l1.magic_links[n], h, t1));
    assert forall|j: int| 0 <= j < n implies l1.magic_links[j] == l0.magic_links[j] by {
        assert(l1.magic_links.drop_last()[j] == l1.magic_links[j]);
    }
    if let Ok((s, u)) = r2 {
        let k = choose|k: int|
            #![trigger l1.magic_links[k]]
            latest_pending(l1.magic_links, h, t1, k) && redeemed(l1, l2, k, t1, s@, u);
        if k < n {
            assert(l1.magic_links[k] == l0.magic_links[k]);
        }
        assert(k == n);
        let m = l2.sessions.len() - 1;
        assert(session_valid(l2.sessions[m], sha256_hex_of(s@), t1));
        if r3 is Ok {
            let (s3, u3) = r3->Ok_0;
            let k3 = choose|k: int|
                #![trigger l2.magic_links[k]]
                latest_pending(l2.magic_links, h, t2, k) && redeemed(l2, l3, k, t2, s3@, u3);
            if k3 < n {
                assert(l1.magic_links[k3] == l0.magic_links[k3]);
            }
        }
        assert forall|j: int| 0 <= j < l2.magic_links.len() implies !#[trigger] link_pending(l2.magic_links[j], h, t2) by {
            if j < n {
                assert(l1.magic_links[j] == l0.magic_links[j]);
            }
        }
    }
}

/// A token that was never issued, or whose every link has expired or been
/// consumed, redeems nothing and leaves the store as it was.
pub proof fn lemma_stale_link_fails(
    l0: LedgerView,
    l1: LedgerView,
    token: Seq<char>,
    now: Timestamp,
    r: Result<(String, u64), ApiError>,
)
    requires
        forall|i: int|
            0 <= i < l0.magic_links.len() && (#[trigger] l0.magic_links[i]).token_hash@ == sha256_hex_of(token)
                ==> l0.magic_links[i].expires_at <= now || l0.magic_links[i].consumed_at is Some,
        verify_link_post(l0, l1, token, now, r),
    ensures
        r == Err::<(String, u64), ApiError>(ApiError::Unauthorized),
        l1 == l0,
{
    let h = sha256_hex_of(token);
    assert(!has_pending_link(l0.magic_links, h, now));
    if r is Ok {
        let (s, u) = r->Ok_0;
        let k = choose|k: int|
            #![trigger l0.magic_links[k]]
            latest_pending(l0.magic_links, h, now, k) && redeemed(l0, l1, k, now, s@, u);
    }
}

/// No two users share the address `e`.
pub open spec fn at_most_one_user(users: Seq<User>, e: Seq<char>) -> bool {
    forall|i: int, j: int|
        0 <= i < users.len() && 0 <= j < users.len() && (#[trigger] users[i]).email@ == e && (#[trigger] users[j]).email@ == e
            ==> i == j
}

/// `user` has at most one live default budget.
pub open spec fn at_most_one_default(l: LedgerView, user: u64) -> bool {
    forall|i: int, j: int|
        0 <= i < l.budgets.len() && 0 <= j < l.budgets.len() && #[trigger] is_live_default(l.budgets[i], user)
            && #[trigger] is_live_default(l.budgets[j], user) ==> i == j
}

/// Every user, and every budget's owner, has an identifier that was
/// already handed out.
pub open spec fn owners_allocated(l: LedgerView) -> bool {
    &&& forall|i: int| 0 <= i < l.users.len() ==> (#[trigger] l.users[i]).pillid < l.next_id
    &&& forall|i: int| 0 <= i < l.budgets.len() ==> (#[trigger] l.budgets[i]).user_pillid < l.next_id
}

/// One run of seeding leaves exactly one development user, with exactly
/// one live default budget.
pub proof fn lemma_seed_once(l0: LedgerView, l3: LedgerView, now: Timestamp)
    requires
        seed_post(l0, l3, now, Ok(())),
        at_most_one_user(l0.users, seed_email()),
        at_most_one_default(l0, seed_user_id(l0)),
        owners_allocated(l0),
    ensures
        has_user_with_email(l3.users, seed_email()),
        at_most_one_user(l3.users, seed_email()),
        seed_user_id(l3) == seed_user_id(l0),
        has_live_default(l3.budgets, seed_user_id(l3)),
        at_most_one_default(l3, seed_user_id(l3)),
        owners_allocated(l3),
{
    let e = seed_email();
    let u = seed_user_id(l0);
    let (l1, l2) = choose|l1: LedgerView, l2: LedgerView|
        #![trigger seeded_user(l0, l1, now), seeded_budget(l1, l2, seed_user_id(l0), now)]
        {
            &&& seeded_user(l0, l1, now)
            &&& seeded_budget(l1, l2, seed_user_id(l0), now)
            &&& seeded_account(l2, l3, seed_user_id(l0), default_budget_id(l2, seed_user_id(l0)), now)
        };
    // The development user.
    if has_user_with_email(l0.users, e) {
        assert(l1 == l0);
    } else {
        let n = l0.users.len() as int;
        assert forall|j: int| 0 <= j < n implies l1.users[j] == l0.users[j] by {
            assert(l1.users.drop_last()[j] == l1.users[j]);
        }
        assert(l1.users[n].email@ == e);
        assert(first_user_with_email(l1.users, e, n));
        assert(at_most_one_user(l1.users, e));
        assert forall|i: int| 0 <= i < l1.budgets.len() implies (#[trigger] l1.budgets[i]).user_pillid < l1.next_id by {
            assert(l1.budgets == l0.budgets);
        }
        assert forall|i: int| 0 <= i < l1.budgets.len() implies !#[trigger] is_live_default(l1.budgets[i], u) by {
            assert(l1.budgets[i] == l0.budgets[i]);
        }
    }
    assert(has_user_with_email(l1.users, e));
    assert(at_most_one_user(l1.users, e));
    let k = choose|k: int| 0 <= k < l1.users.len() && (#[trigger] l1.users[k]).email@ == e;
    assert(first_user_with_email(l1.users, e, k));
    assert(owners_allocated(l1)) by {
        if !has_user_with_email(l0.users, e) {
            assert forall|i: int| 0 <= i < l1.users.len() implies (#[trigger] l1.users[i]).pillid < l1.next_id by {
                if i < l0.users.len() {
                    assert(l1.users.drop_last()[i] == l1.users[i]);
                }
            }
        }
    }
    assert(l1.users[k].pillid == u);
    assert(at_most_one_default(l1, u));
    // Its default budget.
    if !has_live_default(l1.budgets, u) {
        let n = l1.budgets.len() as int;
        assert forall|j: int| 0 <= j < n implies l2.budgets[j] == l1.budgets[j] by {
            assert(l2.budgets.drop_last()[j] == l2.budgets[j]);
        }
        assert(is_live_default(l2.budgets[n], u));
        assert(at_most_one_default(l2, u));
        assert forall|i: int| 0 <= i < l2.budgets.len() implies (#[trigger] l2.budgets[i]).user_pillid < l2.next_id by {
            if i < n {
                assert(l2.budgets[i] == l1.budgets[i]);
            }
        }
        assert(l2.users == l1.users);
    } else {
        assert(l2 == l1);
    }
    assert(l3.users == l2.users && l3.budgets == l2.budgets);
    assert(l3.users == l1.users);
    assert(first_user_with_email(l3.users, e, k));
    assert(seed_user_id(l3) == u);
}

/// Seeding twice leaves exactly one user with the development address and
/// exactly one live default budget for that user; the second run adds no
/// user and no budget.
pub proof fn lemma_seed_idempotent(
    l0: LedgerView,
    l1: LedgerView,
    l2: LedgerView,
    now1: Timestamp,
    now2: Timestamp,
)
    requires
        at_most_one_user(l0.users, seed_email()),
        at_most_one_default(l0, seed_user_id(l0)),
        owners_allocated(l0),
        seed_post(l0, l1, now1, Ok(())),
        seed_post(l1, l2, now2, Ok(())),
    ensures
        has_user_with_email(l2.users, seed_email()),
        at_most_one_user(l2.users, seed_email()),
        has_live_default(l2.budgets, seed_user_id(l2)),
        at_most_one_default(l2, seed_user_id(l2)),
        l2.users == l1.users,
        l2.budgets == l1.budgets,
{
    lemma_seed_once(l0, l1, now1);
    lemma_seed_once(l1, l2, now2);
    let (m1, m2) = choose|m1: LedgerView, m2: LedgerView|
        #![trigger seeded_user(l1, m1, now2), seeded_budget(m1, m2, seed_user_id(l1), now2)]
        {
            &&& seeded_user(l1, m1, now2)
            &&& seeded_budget(m1, m2, seed_user_id(l1), now2)
            &&& seeded_account(m2, l2, seed_user_id(l1), default_budget_id(m2, seed_user_id(l1)), now2)
        };
    assert(m1 == l1);
    assert(m2 == m1);
}

/// Available money is defined for every pair of non-negative amounts: their
/// difference always fits in `i64`, so `project_available` answers exactly
/// `inflow - outflow` on all of them.
pub proof fn lemma_available_defined(inflow: i64, outflow: i64)
    requires
        inflow >= 0,
        outflow >= 0,
    ensures
        i64::MIN <= inflow - outflow <= i64::MAX,
{
}

/// A sum whose every term is zero is zero.
pub proof fn lemma_sum_of_zeros<T>(s: Seq<T>, f: spec_fn(T) -> int)
    requires
        forall|i: int| 0 <= i < s.len() ==> f(#[trigger] s[i]) == 0,
    ensures
        sum_of(s, f) == 0,
    decreases s.len(),
{
    if s.len() > 0 {
        assert forall|i: int| 0 <= i < s.drop_last().len() implies f(#[trigger] s.drop_last()[i]) == 0 by {
            assert(s.drop_last()[i] == s[i]);
        }
        lemma_sum_of_zeros(s.drop_last(), f);
        assert(f(s[s.len() - 1]) == 0);
    }
}

/// Projection completeness: a live category with no assignment for the
/// month and no split counting toward it in the month still has its row in
/// the projection, at its place in the category list, with assigned,
/// activity and available all zero.
pub proof fn lemma_idle_category_in_projection(
    l: LedgerView,
    user: u64,
    month: Seq<char>,
    r: Result<Vec<CategoryProjection>, ApiError>,
    i: int,
)
    requires
        projection_post(l, user, month, r),
        r is Ok,
        0 <= i < live_rows(l.categories, user).len(),
        month_of(month) matches Ok(d) ==> {
            let c = live_rows(l.categories, user)[i].pillid;
            &&& forall|j: int| 0 <= j < l.assignments.len() ==> !#[trigger] assignment_counts(l.assignments[j], user, c, d)
            &&& forall|j: int| 0 <= j < l.splits.len() ==> !#[trigger] split_counts(l, l.splits[j], user, c, d)
        },
    ensures
        r->Ok_0@[i] == (CategoryProjection {
            category_id: live_rows(l.categories, user)[i].pillid,
            assigned: 0,
            activity: 0,
            available: 0,
        }),
{
    let d = month_of(month)->Ok_0;
    let c = live_rows(l.categories, user)[i].pillid;
    assert forall|j: int| 0 <= j < l.assignments.len() implies assigned_term(user, c, d)(#[trigger] l.assignments[j]) == 0 by {
        assert(!assignment_counts(l.assignments[j], user, c, d));
    }
    lemma_sum_of_zeros(l.assignments, assigned_term(user, c, d));
    assert forall|j: int| 0 <= j < l.splits.len() implies activity_term(l, user, c, d)(#[trigger] l.splits[j]) == 0 by {
        assert(!split_counts(l, l.splits[j], user, c, d));
    }
    lemma_sum_of_zeros(l.splits, activity_term(l, user, c, d));
    assert(assigned_in(l, user, c, d) == 0);
    assert(activity_in(l, user, c, d) == 0);
}

/// Ownership isolation, for every table: what `user` lists holds only their
/// rows; the row an update of `user` rewrites is theirs; and a soft delete by
/// `user` leaves every row of another owner exactly as it was.
pub proof fn lemma_ownership_isolation<T: UserModel>(rows: Seq<T>, user: u64, id: u64, now: Timestamp)
    ensures
        forall|j: int|
            0 <= j < live_rows(rows, user).len() ==> (#[trigger] live_rows(rows, user)[j]).spec_user_pillid() == user,
        forall|k: int| #[trigger] first_live_row(rows, user, id, k) ==> rows[k].spec_user_pillid() == user,
        forall|j: int|
            0 <= j < rows.len() && (#[trigger] rows[j]).spec_user_pillid() != user ==> with_deleted(rows, user, id, now)[j]
                == rows[j],
{
    assert forall|j: int| 0 <= j < live_rows(rows, user).len() implies (#[trigger] live_rows(rows, user)[j]).spec_user_pillid() == user by {
        rows.lemma_filter_pred(|r: T| live_for(r, user), j);
    }
}

/// Replacing the splits of a transaction of `user` soft-deletes only splits
/// of `user`: every split of another owner stays as it was.
pub proof fn lemma_split_replacement_isolated(splits: Seq<TransactionDetail>, user: u64, tx: u64, now: Timestamp)
    ensures
        forall|j: int|
            0 <= j < splits.len() && (#[trigger] splits[j]).user_pillid != user ==> with_splits_retired(
                splits,
                user,
                tx,
                now,
            )[j] == splits[j],
{
}

/// In a well-formed store the month projection has exactly one row for each
/// live category of the user: row `i` is that of the `i`-th live category,
/// and no two rows name the same category.
pub proof fn lemma_projection_one_row_per_category(
    l: LedgerView,
    user: u64,
    month: Seq<char>,
    r: Result<Vec<CategoryProjection>, ApiError>,
)
    requires
        l.wf(),
        projection_post(l, user, month, r),
        r is Ok,
    ensures
        r->Ok_0@.len() == live_rows(l.categories, user).len(),
        forall|i: int|
            0 <= i < r->Ok_0@.len() ==> (#[trigger] r->Ok_0@[i]).category_id == live_rows(l.categories, user)[i].pillid,
        forall|i: int, j: int|
            0 <= i < j < r->Ok_0@.len() ==> (#[trigger] r->Ok_0@[i]).category_id != (#[trigger] r->Ok_0@[j]).category_id,
{
    lemma_live_ids_fresh(l.categories, user, l.next_id);
    let rows = r->Ok_0@;
    let cats = live_rows(l.categories, user);
    assert forall|i: int, j: int| 0 <= i < j < rows.len() implies (#[trigger] rows[i]).category_id != (#[trigger] rows[j]).category_id by {
        assert(cats[i].spec_pillid() != cats[j].spec_pillid());
    }
}

/// Assignments add up: recording one more assignment row raises the money
/// assigned to its category for its month by exactly its amount, and leaves
/// every other category and month as it was.
pub proof fn lemma_assignments_are_additive(l: LedgerView, a: CategoryAssignment, user: u64, category: u64, month: Date)
    ensures
        assigned_in(LedgerView { assignments: l.assignments.push(a), ..l }, user, category, month) == assigned_in(
            l,
            user,
            category,
            month,
        ) + if assignment_counts(a, user, category, month) {
            a.amount as int
        } else {
            0
        },
{
    let s = l.assignments.push(a);
    assert(s.drop_last() =~= l.assignments);
}

} // verus!
