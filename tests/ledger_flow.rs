use envelopezero_api::calendar::Date;
use envelopezero_api::error::ApiError;
use envelopezero_api::ledger::{FeatureFlags, Ledger};
use envelopezero_api::money::SplitInput;
use envelopezero_api::projection::CategoryProjection;
use envelopezero_api::seed::seed_dev_data;
use envelopezero_api::transactions::TransactionInput;
use sha2::Digest;

const NOW: i64 = 1_771_000_000;

fn flags() -> FeatureFlags {
    FeatureFlags { passkeys: false, multi_budget: false, assignments: true }
}

fn sign_in(l: &mut Ledger, email: &str) -> (String, u64) {
    let token = l.request_magic_link(email, NOW).unwrap();
    l.verify_magic_link(&token, NOW + 1).unwrap()
}

fn header(token: &str) -> String {
    format!("Bearer {token}")
}

struct Graph {
    user: u64,
    budget: u64,
    account: u64,
    category: u64,
}

fn graph(l: &mut Ledger, email: &str) -> Graph {
    let (_, user) = sign_in(l, email);
    let budget = l.list_budgets(user)[0].pillid;
    let account = l.create_account(user, budget, "Checking".to_string(), NOW).unwrap().pillid;
    let sc = l.create_supercategory(user, budget, "Needs".to_string(), NOW).unwrap().pillid;
    let category = l.create_category(user, budget, sc, "Groceries".to_string(), NOW).unwrap().pillid;
    Graph { user, budget, account, category }
}

fn tx(g: &Graph, date: Date, splits: Vec<SplitInput>) -> TransactionInput {
    TransactionInput {
        budget_id: g.budget,
        account_id: g.account,
        date,
        payee: Some("Shop".to_string()),
        memo: None,
        splits,
    }
}

fn split(category: u64, inflow: i64, outflow: i64) -> SplitInput {
    SplitInput { category_id: category, memo: None, inflow, outflow }
}

fn day(year: i32, month: u32, day: u32) -> Date {
    Date { year, month, day }
}

#[test]
fn magic_link_request_writes_outbox() {
    let mut l = Ledger::new(flags());
    let token = l.request_magic_link("test@example.com", NOW);
    assert!(token.is_ok());
    assert_eq!(l.outbox.len(), 1);
}

#[test]
fn magic_link_stores_only_the_digest() {
    let mut l = Ledger::new(flags());
    let token = l.request_magic_link("  Test@Example.com", NOW).unwrap();
    assert_eq!(token.len(), 43);
    let link = &l.magic_links[0];
    assert_eq!(link.email, "test@example.com");
    assert_eq!(link.expires_at, NOW + 900);
    assert_ne!(link.token_hash, token);
    let expected = format!("{:x}", sha2::Sha256::digest(token.as_bytes()));
    assert_eq!(link.token_hash, expected);
    assert_eq!(l.outbox[0].to_email, "test@example.com");
    assert_eq!(l.outbox[0].link_token, token);
}

#[test]
fn magic_link_rejects_bad_addresses() {
    let mut l = Ledger::new(flags());
    assert_eq!(l.request_magic_link("", NOW), Err(ApiError::Validation));
    assert_eq!(l.request_magic_link("nobody", NOW), Err(ApiError::Validation));
    assert!(l.outbox.is_empty() && l.magic_links.is_empty());
}

#[test]
fn magic_link_round_trip_is_single_use() {
    let mut l = Ledger::new(flags());
    let token = l.request_magic_link("new@example.com", NOW).unwrap();
    let (session, user) = l.verify_magic_link(&token, NOW + 60).unwrap();
    assert_eq!(session.len(), 64);
    assert_eq!(l.users.len(), 1);
    assert_eq!(l.users[0].pillid, user);
    assert_eq!(l.budgets.len(), 1);
    assert!(l.budgets[0].is_default);
    assert_eq!(l.budgets[0].name, "My Budget");
    assert_eq!(l.sessions[0].expires_at, NOW + 60 + 2_592_000);
    assert_eq!(l.authenticate(Some(&header(&session)), NOW + 61), Ok(user));
    assert_eq!(l.verify_magic_link(&token, NOW + 61), Err(ApiError::Unauthorized));
}

#[test]
fn magic_link_expired_or_unknown_fails() {
    let mut l = Ledger::new(flags());
    let token = l.request_magic_link("late@example.com", NOW).unwrap();
    assert_eq!(l.verify_magic_link(&token, NOW + 900), Err(ApiError::Unauthorized));
    assert_eq!(l.verify_magic_link("never-issued", NOW), Err(ApiError::Unauthorized));
    assert!(l.users.is_empty() && l.sessions.is_empty());
}

#[test]
fn returning_user_keeps_identity() {
    let mut l = Ledger::new(flags());
    let (_, first) = sign_in(&mut l, "me@example.com");
    let (_, second) = sign_in(&mut l, "ME@example.com ");
    assert_eq!(first, second);
    assert_eq!(l.users.len(), 1);
    assert_eq!(l.budgets.len(), 1);
    assert_eq!(l.sessions.len(), 2);
    assert_eq!(l.me(first).unwrap().email, "me@example.com");
}

#[test]
fn authenticate_rejects_bad_headers() {
    let mut l = Ledger::new(flags());
    let (session, _) = sign_in(&mut l, "a@example.com");
    assert_eq!(l.authenticate(None, NOW), Err(ApiError::Unauthorized));
    assert_eq!(l.authenticate(Some(&session), NOW), Err(ApiError::Unauthorized));
    assert_eq!(l.authenticate(Some("Bearer wrong"), NOW), Err(ApiError::Unauthorized));
    assert_eq!(l.authenticate(Some(&header(&session)), NOW + 2_592_001 + 1), Err(ApiError::Unauthorized));
}

#[test]
fn seed_dev_data_is_idempotent() {
    let mut l = Ledger::new(flags());
    seed_dev_data(&mut l, NOW).unwrap();
    seed_dev_data(&mut l, NOW + 1).unwrap();
    let users = l.users.iter().filter(|u| u.email == "seed@envelopezero.local").count();
    assert_eq!(users, 1);
    let defaults = l.budgets.iter().filter(|b| b.is_default).count();
    assert_eq!(defaults, 1);
    assert_eq!(l.accounts.len(), 1);
    assert_eq!(l.accounts[0].name, "Checking");
}

#[test]
fn transaction_rejects_invalid_split_shapes() {
    let mut l = Ledger::new(flags());
    let g = graph(&mut l, "nosplits@example.com");
    for splits in [
        vec![],
        vec![split(g.category, -1, 0)],
        vec![split(g.category, 1, 1)],
        vec![split(g.category, 0, 0)],
    ] {
        let r = l.create_transaction(g.user, tx(&g, day(2026, 2, 19), splits), NOW);
        assert_eq!(r.err(), Some(ApiError::Validation));
    }
    assert!(l.transactions.is_empty() && l.splits.is_empty());
}

#[test]
fn transaction_rejects_foreign_references_atomically() {
    let mut l = Ledger::new(flags());
    let g = graph(&mut l, "one@example.com");
    let other = graph(&mut l, "two@example.com");
    let bad = tx(&g, day(2026, 2, 3), vec![split(g.category, 0, 10), split(other.category, 0, 5)]);
    assert_eq!(l.create_transaction(g.user, bad, NOW).err(), Some(ApiError::InvalidReference));
    let foreign_account = TransactionInput { account_id: other.account, ..tx(&g, day(2026, 2, 3), vec![split(g.category, 0, 1)]) };
    assert_eq!(l.create_transaction(g.user, foreign_account, NOW).err(), Some(ApiError::InvalidReference));
    assert!(l.transactions.is_empty() && l.splits.is_empty());
}

#[test]
fn second_budget_conflicts_without_multi_budget() {
    let mut l = Ledger::new(flags());
    let (_, user) = sign_in(&mut l, "b@example.com");
    assert_eq!(l.create_budget(user, "Second".to_string(), None, NOW).err(), Some(ApiError::Conflict));
    let mut m = Ledger::new(FeatureFlags { multi_budget: true, ..flags() });
    let (_, user) = sign_in(&mut m, "b@example.com");
    let b = m.create_budget(user, "Second".to_string(), None, NOW).unwrap();
    assert_eq!(b.currency_code, "USD");
    assert!(!b.is_default);
    let c = m.create_budget(user, "Euro".to_string(), Some("EUR".to_string()), NOW).unwrap();
    assert_eq!(c.currency_code, "EUR");
    assert_eq!(m.list_budgets(user).len(), 3);
}

#[test]
fn category_needs_supercategory_of_same_budget() {
    let mut l = Ledger::new(FeatureFlags { multi_budget: true, ..flags() });
    let g = graph(&mut l, "c@example.com");
    let other_budget = l.create_budget(g.user, "Other".to_string(), None, NOW).unwrap().pillid;
    let sc = l.list_supercategories(g.user)[0].pillid;
    assert_eq!(l.create_category(g.user, other_budget, sc, "X".to_string(), NOW).err(), Some(ApiError::InvalidReference));
    assert_eq!(l.update_category(g.user, g.category, other_budget, sc, "X".to_string(), NOW).err(), Some(ApiError::InvalidReference));
    let renamed = l.update_category(g.user, g.category, g.budget, sc, "Food".to_string(), NOW + 5).unwrap();
    assert_eq!(renamed.name, "Food");
    assert_eq!(renamed.updated_at, NOW + 5);
    assert_eq!(l.list_categories(g.user)[0].name, "Food");
}

#[test]
fn ownership_isolation_between_users() {
    let mut l = Ledger::new(flags());
    let a = graph(&mut l, "a@example.com");
    let b = graph(&mut l, "b@example.com");
    assert_eq!(l.list_accounts(a.user).len(), 1);
    assert_eq!(l.list_accounts(a.user)[0].pillid, a.account);
    assert_eq!(l.update_account(a.user, b.account, a.budget, "Mine".to_string(), NOW).err(), Some(ApiError::InvalidReference));
    l.delete_account(a.user, b.account, NOW);
    l.delete_category(a.user, b.category, NOW);
    assert_eq!(l.list_accounts(b.user).len(), 1);
    assert_eq!(l.list_categories(b.user).len(), 1);
    l.delete_account(a.user, a.account, NOW + 3);
    assert!(l.list_accounts(a.user).is_empty());
    assert_eq!(l.update_account(a.user, a.account, a.budget, "Back".to_string(), NOW).err(), Some(ApiError::InvalidReference));
}

#[test]
fn delete_is_idempotent() {
    let mut l = Ledger::new(flags());
    let g = graph(&mut l, "d@example.com");
    l.delete_supercategory(g.user, 9_999, NOW);
    let sc = l.list_supercategories(g.user)[0].pillid;
    l.delete_supercategory(g.user, sc, NOW + 1);
    l.delete_supercategory(g.user, sc, NOW + 2);
    let row = l.supercategories.iter().find(|s| s.pillid == sc).unwrap();
    assert_eq!(row.deleted_at, Some(NOW + 1));
}

#[test]
fn update_transaction_replaces_splits() {
    let mut l = Ledger::new(flags());
    let g = graph(&mut l, "t@example.com");
    let t = l.create_transaction(g.user, tx(&g, day(2026, 2, 10), vec![split(g.category, 0, 300), split(g.category, 50, 0)]), NOW).unwrap();
    let listed = l.list_transactions(g.user);
    assert_eq!(listed.len(), 1);
    assert_eq!(listed[0].splits.len(), 2);
    let u = l.update_transaction(g.user, t.pillid, tx(&g, day(2026, 3, 1), vec![split(g.category, 0, 70)]), NOW + 9).unwrap();
    assert_eq!(u.date, day(2026, 3, 1));
    let listed = l.list_transactions(g.user);
    assert_eq!(listed[0].splits.len(), 1);
    assert_eq!(listed[0].splits[0].outflow, 70);
    assert_eq!(l.splits.len(), 3);
    l.delete_transaction(g.user, t.pillid, NOW + 10);
    assert!(l.list_transactions(g.user).is_empty());
}

#[test]
fn transactions_list_latest_first() {
    let mut l = Ledger::new(flags());
    let g = graph(&mut l, "o@example.com");
    let s = || vec![split(g.category, 0, 1)];
    let early = l.create_transaction(g.user, tx(&g, day(2026, 1, 5), s()), NOW).unwrap().pillid;
    let late = l.create_transaction(g.user, tx(&g, day(2026, 2, 1), s()), NOW).unwrap().pillid;
    let late_newer = l.create_transaction(g.user, tx(&g, day(2026, 2, 1), s()), NOW + 1).unwrap().pillid;
    let order: Vec<u64> = l.list_transactions(g.user).iter().map(|t| t.transaction.pillid).collect();
    assert_eq!(order, vec![late_newer, late, early]);
}

#[test]
fn projection_sums_assignments_and_activity() {
    let mut l = Ledger::new(flags());
    let g = graph(&mut l, "p@example.com");
    let sc = l.list_supercategories(g.user)[0].pillid;
    let idle = l.create_category(g.user, g.budget, sc, "Idle".to_string(), NOW).unwrap().pillid;
    l.create_category_assignment(g.user, g.budget, g.category, "2026-02", 5_000, NOW).unwrap();
    l.create_category_assignment(g.user, g.budget, g.category, "2026-02", 1_000, NOW).unwrap();
    l.create_category_assignment(g.user, g.budget, g.category, "2026-03", 777, NOW).unwrap();
    l.create_transaction(g.user, tx(&g, day(2026, 2, 14), vec![split(g.category, 0, 1_200), split(g.category, 200, 0)]), NOW).unwrap();
    l.create_transaction(g.user, tx(&g, day(2026, 3, 1), vec![split(g.category, 0, 99)]), NOW).unwrap();
    let rows = l.month_projection(g.user, "2026-02").unwrap();
    assert_eq!(
        rows,
        vec![
            CategoryProjection { category_id: g.category, assigned: 6_000, activity: 1_000, available: 5_000 },
            CategoryProjection { category_id: idle, assigned: 0, activity: 0, available: 0 },
        ]
    );
    assert_eq!(l.month_projection(g.user, "2026/02"), Err(ApiError::Validation));
}

#[test]
fn projection_ignores_deleted_rows() {
    let mut l = Ledger::new(flags());
    let g = graph(&mut l, "q@example.com");
    let t = l.create_transaction(g.user, tx(&g, day(2026, 2, 14), vec![split(g.category, 0, 400)]), NOW).unwrap();
    l.delete_transaction(g.user, t.pillid, NOW);
    let rows = l.month_projection(g.user, "2026-02").unwrap();
    assert_eq!(rows[0].activity, 0);
}

#[test]
fn dashboard_totals_all_time() {
    let mut l = Ledger::new(flags());
    let g = graph(&mut l, "s@example.com");
    l.create_transaction(g.user, tx(&g, day(2025, 12, 1), vec![split(g.category, 4_500, 0)]), NOW).unwrap();
    l.create_transaction(g.user, tx(&g, day(2026, 2, 1), vec![split(g.category, 0, 1_200)]), NOW).unwrap();
    let d = l.compute_dashboard_projection(g.user).unwrap();
    assert_eq!((d.inflow, d.outflow, d.available), (4_500, 1_200, 3_300));
    let empty = l.compute_dashboard_projection(g.user + 1_000).unwrap();
    assert_eq!((empty.inflow, empty.outflow, empty.available), (0, 0, 0));
}

#[test]
fn assignments_hidden_when_disabled() {
    let mut l = Ledger::new(FeatureFlags { assignments: false, ..flags() });
    let g = graph(&mut l, "h@example.com");
    assert_eq!(l.list_category_assignments(g.user).err(), Some(ApiError::FeatureDisabled));
    assert_eq!(l.create_category_assignment(g.user, g.budget, g.category, "2026-02", 1, NOW).err(), Some(ApiError::FeatureDisabled));
    assert_eq!(l.passkey_disabled(), Err(ApiError::FeatureDisabled));
}

#[test]
fn assignments_validate_and_list_latest_month_first() {
    let mut l = Ledger::new(flags());
    let g = graph(&mut l, "m@example.com");
    assert_eq!(l.create_category_assignment(g.user, g.budget, g.category, "2026/02", 1, NOW).err(), Some(ApiError::Validation));
    assert_eq!(l.create_category_assignment(g.user, g.budget, 9_999, "2026-02", 1, NOW).err(), Some(ApiError::InvalidReference));
    let feb = l.create_category_assignment(g.user, g.budget, g.category, "2026-02", 10, NOW).unwrap();
    assert_eq!(feb.month, day(2026, 2, 1));
    let mar = l.create_category_assignment(g.user, g.budget, g.category, "2026-03", 20, NOW).unwrap();
    let order: Vec<u64> = l.list_category_assignments(g.user).unwrap().iter().map(|a| a.pillid).collect();
    assert_eq!(order, vec![mar.pillid, feb.pillid]);
}

#[test]
fn issue_magic_link_stores_given_token() {
    let mut l = Ledger::new(flags());
    let r = l.issue_magic_link("x@example.com".to_string(), "tok".to_string(), NOW);
    assert_eq!(r, Ok("tok".to_string()));
    let expected = format!("{:x}", sha2::Sha256::digest(b"tok"));
    assert_eq!(l.magic_links[0].token_hash, expected);
    assert_eq!(l.magic_links[0].consumed_at, None);
    assert_eq!(l.outbox[0].link_token, "tok");
    assert!(l.users.is_empty());
    l.next_id = u64::MAX;
    assert_eq!(l.issue_magic_link("x@example.com".to_string(), "t2".to_string(), NOW), Err(ApiError::Internal));
    assert_eq!(l.magic_links.len(), 1);
}

#[test]
fn redeem_link_issues_given_session() {
    let mut l = Ledger::new(flags());
    l.issue_magic_link("y@example.com".to_string(), "tok".to_string(), NOW).unwrap();
    let (session, user) = l.redeem_link(0, "sess".to_string(), NOW + 1).unwrap();
    assert_eq!(session, "sess");
    assert_eq!(l.users[0].pillid, user);
    assert_eq!(l.sessions[0].token_hash, format!("{:x}", sha2::Sha256::digest(b"sess")));
    assert_eq!(l.magic_links[0].consumed_at, Some(NOW + 1));
    assert_eq!(l.authenticate(Some("Bearer sess"), NOW + 2), Ok(user));
}

#[test]
fn returning_user_needs_only_one_identifier() {
    let mut l = Ledger::new(flags());
    let (_, user) = sign_in(&mut l, "r@example.com");
    let token = l.request_magic_link("r@example.com", NOW).unwrap();
    l.next_id = u64::MAX - 1;
    let (_, again) = l.verify_magic_link(&token, NOW + 1).unwrap();
    assert_eq!(again, user);
    assert_eq!(l.next_id, u64::MAX);
}

#[test]
fn new_user_needs_three_identifiers() {
    let mut l = Ledger::new(flags());
    let token = l.request_magic_link("n@example.com", NOW).unwrap();
    l.next_id = u64::MAX - 2;
    assert_eq!(l.verify_magic_link(&token, NOW + 1), Err(ApiError::Internal));
    assert!(l.users.is_empty() && l.sessions.is_empty());
    assert_eq!(l.magic_links[0].consumed_at, None);
}
