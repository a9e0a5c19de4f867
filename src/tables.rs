use vstd::prelude::*;

use crate::models::{live_for, BaseModel, Timestamp, UserModel};
use vstd::multiset::Multiset;

verus! {

/// The rows of `user` that are not deleted, in their stored order.
pub open spec fn live_rows<T: UserModel>(rows: Seq<T>, user: u64) -> Seq<T> {
    rows.filter(|r: T| live_for(r, user))
}

/// Row `r` is the live row `id` of `user`.
pub open spec fn is_live_row<T: UserModel>(r: T, user: u64, id: u64) -> bool {
    live_for(r, user) && r.spec_pillid() == id
}

pub open spec fn has_live_row<T: UserModel>(rows: Seq<T>, user: u64, id: u64) -> bool {
    exists|i: int| 0 <= i < rows.len() && #[trigger] is_live_row(rows[i], user, id)
}

/// Position `k` holds the first live row `id` of `user`.
pub open spec fn first_live_row<T: UserModel>(rows: Seq<T>, user: u64, id: u64, k: int) -> bool {
    &&& 0 <= k < rows.len()
    &&& is_live_row(rows[k], user, id)
    &&& forall|j: int| 0 <= j < k ==> !#[trigger] is_live_row(rows[j], user, id)
}

/// The rows after soft-deleting the live row `id` of `user` at `now`; the
/// rows of every other user stay as they were.
pub open spec fn with_deleted<T: UserModel>(rows: Seq<T>, user: u64, id: u64, now: Timestamp) -> Seq<T> {
    rows.map_values(|r: T| if is_live_row(r, user, id) { r.spec_deleted(now) } else { r })
}

/// Every row's identifier was handed out before `next`, and no two rows
/// share one.
pub open spec fn ids_fresh<T: BaseModel>(rows: Seq<T>, next: u64) -> bool {
    &&& forall|i: int| 0 <= i < rows.len() ==> (#[trigger] rows[i]).spec_pillid() < next
    &&& forall|i: int, j: int|
        0 <= i < j < rows.len() ==> (#[trigger] rows[i]).spec_pillid() != (#[trigger] rows[j]).spec_pillid()
}

/// Appending a row that takes the next identifier keeps identifiers fresh.
pub proof fn lemma_ids_push<T: BaseModel>(rows: Seq<T>, row: T, next: u64)
    requires
        ids_fresh(rows, next),
        row.spec_pillid() == next,
        next < u64::MAX,
    ensures
        ids_fresh(rows.push(row), (next + 1) as u64),
{
    assert forall|i: int| 0 <= i < rows.len() implies rows.push(row)[i] == rows[i] by {}
}

/// Rewriting a row without changing its identifier keeps identifiers fresh.
pub proof fn lemma_ids_update<T: BaseModel>(rows: Seq<T>, k: int, row: T, next: u64)
    requires
        ids_fresh(rows, next),
        0 <= k < rows.len(),
        row.spec_pillid() == rows[k].spec_pillid(),
    ensures
        ids_fresh(rows.update(k, row), next),
{
    let u = rows.update(k, row);
    assert forall|i: int| 0 <= i < u.len() implies u[i].spec_pillid() == rows[i].spec_pillid() by {}
    assert forall|i: int, j: int| 0 <= i < j < u.len() implies (#[trigger] u[i]).spec_pillid() != (#[trigger] u[j]).spec_pillid() by {
        assert(u[i].spec_pillid() == rows[i].spec_pillid());
        assert(u[j].spec_pillid() == rows[j].spec_pillid());
    }
}

/// Fresh identifiers stay fresh as `next` grows.
pub proof fn lemma_ids_grow<T: BaseModel>(rows: Seq<T>, next: u64, later: u64)
    requires
        ids_fresh(rows, next),
        next <= later,
    ensures
        ids_fresh(rows, later),
{
}

/// The live rows of a user share no identifier either.
pub proof fn lemma_live_ids_fresh<T: UserModel>(rows: Seq<T>, user: u64, next: u64)
    requires
        ids_fresh(rows, next),
    ensures
        ids_fresh(live_rows(rows, user), next),
    decreases rows.len(),
{
    if rows.len() > 0 {
        let n = rows.len() - 1;
        let init = rows.drop_last();
        let last = rows[n];
        assert forall|i: int| 0 <= i < init.len() implies init[i] == rows[i] by {}
        lemma_live_ids_fresh(init, user, next);
        assert(rows =~= init.push(last));
        init.lemma_filter_push(last, |r: T| live_for(r, user));
        let f = live_rows(init, user);
        assert forall|i: int| 0 <= i < f.len() implies (#[trigger] f[i]).spec_pillid() != last.spec_pillid() by {
            assert(f.contains(f[i]));
            init.lemma_filter_contains_rev(|r: T| live_for(r, user), f[i]);
            let j = choose|j: int| 0 <= j < init.len() && init[j] == f[i];
            assert(rows[j] == f[i]);
        }
        if live_for(last, user) {
            let g = f.push(last);
            assert forall|i: int, j: int| 0 <= i < j < g.len() implies (#[trigger] g[i]).spec_pillid() != (#[trigger] g[j]).spec_pillid() by {
                if j == f.len() {
                    assert(g[i] == f[i]);
                } else {
                    assert(g[i] == f[i] && g[j] == f[j]);
                }
            }
            assert forall|i: int| 0 <= i < g.len() implies (#[trigger] g[i]).spec_pillid() < next by {
                if i < f.len() {
                    assert(g[i] == f[i]);
                }
            }
        }
    }
}

/// Soft deletes keep identifiers fresh.
pub proof fn lemma_ids_deleted<T: UserModel>(rows: Seq<T>, user: u64, id: u64, now: Timestamp, next: u64)
    requires
        ids_fresh(rows, next),
    ensures
        ids_fresh(with_deleted(rows, user, id, now), next),
{
    let u = with_deleted(rows, user, id, now);
    assert forall|i: int| 0 <= i < u.len() implies u[i].spec_pillid() == rows[i].spec_pillid() by {
        rows[i].lemma_deleted_keeps_ids(now);
    }
    assert forall|i: int, j: int| 0 <= i < j < u.len() implies (#[trigger] u[i]).spec_pillid() != (#[trigger] u[j]).spec_pillid() by {
        rows[i].lemma_deleted_keeps_ids(now);
        rows[j].lemma_deleted_keeps_ids(now);
    }
    assert forall|i: int| 0 <= i < u.len() implies (#[trigger] u[i]).spec_pillid() < next by {
        rows[i].lemma_deleted_keeps_ids(now);
    }
}

/// Copies the live rows of `user`.
pub fn list_live<T: UserModel>(rows: &Vec<T>, user: u64) -> (r: Vec<T>)
    ensures
        r@ == live_rows(rows@, user),
{
    let mut out: Vec<T> = Vec::new();
    let mut i: usize = 0;
    while i < rows.len()
        invariant
            0 <= i <= rows@.len(),
            out@ == live_rows(rows@.take(i as int), user),
        decreases rows.len() - i,
    {
        let row = &rows[i];
        proof {
            assert(rows@.take(i as int + 1) =~= rows@.take(i as int).push(rows@[i as int]));
            rows@.take(i as int).lemma_filter_push(rows@[i as int], |r: T| live_for(r, user));
        }
        if row.user_pillid() == user && row.deleted_at().is_none() {
            out.push(row.duplicate());
        }
        i = i + 1;
    }
    assert(rows@.take(rows@.len() as int) =~= rows@);
    out
}

/// Finds the first live row `id` of `user`.
pub fn find_live<T: UserModel>(rows: &Vec<T>, user: u64, id: u64) -> (r: Option<usize>)
    ensures
        match r {
            Some(k) => first_live_row(rows@, user, id, k as int),
            None => !has_live_row(rows@, user, id),
        },
{
    let mut i: usize = 0;
    while i < rows.len()
        invariant
            0 <= i <= rows@.len(),
            forall|j: int| 0 <= j < i ==> !#[trigger] is_live_row(rows@[j], user, id),
        decreases rows.len() - i,
    {
        let row = &rows[i];
        if row.user_pillid() == user && row.deleted_at().is_none() && row.pillid() == id {
            return Some(i);
        }
        i = i + 1;
    }
    None
}

/// Soft-deletes the live row `id` of `user`; a row that is missing, already
/// deleted or owned by someone else is left alone.
pub fn soft_delete<T: UserModel>(rows: &mut Vec<T>, user: u64, id: u64, now: Timestamp)
    ensures
        final(rows)@ == with_deleted(old(rows)@, user, id, now),
{
    let ghost before = rows@;
    let mut i: usize = 0;
    while i < rows.len()
        invariant
            0 <= i <= rows@.len(),
            rows@.len() == before.len(),
            forall|j: int| 0 <= j < i ==> rows@[j] == (if is_live_row(before[j], user, id) {
                before[j].spec_deleted(now)
            } else {
                before[j]
            }),
            forall|j: int| i <= j < rows@.len() ==> rows@[j] == before[j],
        decreases rows.len() - i,
    {
        let hit = rows[i].user_pillid() == user && rows[i].deleted_at().is_none() && rows[i].pillid() == id;
        if hit {
            let row = rows[i].duplicate();
            rows.set(i, row.soft_deleted(now));
        }
        i = i + 1;
    }
    assert(rows@ =~= with_deleted(before, user, id, now));
}

/// Rows that list newest first: by a date, then by creation time.
pub trait Chronological: Sized {
    /// The ordering key: a day number that orders valid dates, then the
    /// creation time.
    spec fn spec_order_key(&self) -> (int, int);

    fn order_key(&self) -> (r: (i64, i64))
        ensures
            r.0 == self.spec_order_key().0,
            r.1 == self.spec_order_key().1,
    ;
}

/// Key `a` does not come before key `b`.
pub open spec fn not_before(a: (int, int), b: (int, int)) -> bool {
    a.0 > b.0 || (a.0 == b.0 && a.1 >= b.1)
}

/// The rows go from the latest to the earliest.
pub open spec fn latest_first<T: Chronological>(s: Seq<T>) -> bool {
    forall|i: int, j: int|
        0 <= i < j < s.len() ==> not_before(#[trigger] s[i].spec_order_key(), #[trigger] s[j].spec_order_key())
}

/// Reorders rows latest first.
pub fn sort_latest_first<T: Chronological>(rows: Vec<T>) -> (r: Vec<T>)
    ensures
        r@.to_multiset() == rows@.to_multiset(),
        latest_first(r@),
{
    broadcast use vstd::seq_lib::group_to_multiset_ensures, vstd::multiset::group_multiset_axioms;

    let ghost all = rows@.to_multiset();
    let mut rest = rows;
    let mut out: Vec<T> = Vec::new();
    assert(out@.to_multiset() =~= Multiset::<T>::empty());
    while rest.len() > 0
        invariant
            out@.to_multiset().add(rest@.to_multiset()) == all,
            latest_first(out@),
        decreases rest.len(),
    {
        let ghost before = rest@;
        let x = rest.pop().unwrap();
        assert(before =~= rest@.push(x));
        let key = x.order_key();
        let mut p: usize = 0;
        while p < out.len()
            invariant
                0 <= p <= out@.len(),
                key.0 == x.spec_order_key().0 && key.1 == x.spec_order_key().1,
                forall|i: int| 0 <= i < p ==> not_before(#[trigger] out@[i].spec_order_key(), x.spec_order_key()),
            ensures
                0 <= p <= out@.len(),
                forall|i: int| 0 <= i < p ==> not_before(#[trigger] out@[i].spec_order_key(), x.spec_order_key()),
                p < out@.len() ==> !not_before(out@[p as int].spec_order_key(), x.spec_order_key()),
            decreases out.len() - p,
        {
            let k = out[p].order_key();
            if !(k.0 > key.0 || (k.0 == key.0 && k.1 >= key.1)) {
                break;
            }
            p = p + 1;
        }
        let ghost prev = out@;
        out.insert(p, x);
        assert(out@ == prev.insert(p as int, x));
        assert forall|i: int, j: int|
            0 <= i < j < out@.len() implies not_before(#[trigger] out@[i].spec_order_key(), #[trigger] out@[j].spec_order_key()) by {
            if j < p {
                assert(out@[i] == prev[i] && out@[j] == prev[j]);
            } else if j == p {
                assert(out@[i] == prev[i]);
            } else if i < p {
                assert(out@[i] == prev[i] && out@[j] == prev[j - 1]);
            } else if i == p {
                assert(out@[j] == prev[j - 1]);
                assert(!not_before(prev[p as int].spec_order_key(), x.spec_order_key()));
                assert(not_before(prev[p as int].spec_order_key(), prev[j - 1].spec_order_key()) || p == j - 1);
            } else {
                assert(out@[i] == prev[i - 1] && out@[j] == prev[j - 1]);
            }
        }
        proof {
            vstd::seq_lib::to_multiset_insert(prev, p as int, x);
            vstd::seq_lib::to_multiset_build(rest@, x);
        }
        assert(out@.to_multiset() == prev.to_multiset().insert(x));
        assert(before.to_multiset() == rest@.to_multiset().insert(x));
        assert(out@.to_multiset().add(rest@.to_multiset()) =~= prev.to_multiset().add(before.to_multiset()));
    }
    assert(rest@.to_multiset() =~= Multiset::<T>::empty());
    assert(out@.to_multiset().add(rest@.to_multiset()) =~= out@.to_multiset());
    out
}

} // verus!
