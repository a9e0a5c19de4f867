use axum::http::header::AUTHORIZATION;
use axum::http::HeaderMap;
use envelopezero_api::auth::{extract_bearer_token, normalize_email, random_token};
use envelopezero_api::calendar::{parse_iso_date, parse_projection_month, Date};
use envelopezero_api::error::ApiError;
use envelopezero_api::ledger::{FeatureFlags, Ledger};
use envelopezero_api::models::AccessToken;
use envelopezero_api::money::{project_available, validate_splits, SplitInput};

fn split(inflow: i64, outflow: i64) -> SplitInput {
    SplitInput { category_id: 1, memo: None, inflow, outflow }
}

fn session_store(user: u64, hash: &str) -> Ledger {
    let mut l = Ledger::new(FeatureFlags { passkeys: false, multi_budget: false, assignments: true });
    l.sessions.push(AccessToken {
        pillid: 1,
        user_pillid: user,
        token_hash: hash.to_string(),
        expires_at: 1_000,
        revoked_at: None,
        created_at: 0,
        updated_at: 0,
        deleted_at: None,
    });
    l
}

#[test]
fn di_lookup_returns_user() {
    let uid = 42;
    let lookup = session_store(uid, "abc");
    let got = lookup.user_from_token_hash("abc", 10).expect("user should be found");
    assert_eq!(got, uid);
}

#[test]
fn di_lookup_missing_is_unauthorized() {
    let lookup = Ledger::new(FeatureFlags { passkeys: false, multi_budget: false, assignments: true });
    let err = lookup.user_from_token_hash("abc", 10).expect_err("missing session should fail");
    assert_eq!(err, ApiError::Unauthorized);
}

#[test]
fn session_lookup_rejects_expired_and_revoked() {
    let mut l = session_store(7, "abc");
    assert_eq!(l.user_from_token_hash("abc", 1_000), Err(ApiError::Unauthorized));
    l.sessions[0].revoked_at = Some(5);
    assert_eq!(l.user_from_token_hash("abc", 10), Err(ApiError::Unauthorized));
}

#[test]
fn bearer_parsing_works() {
    let mut headers = HeaderMap::new();
    headers.insert(AUTHORIZATION, "Bearer testtoken".parse().unwrap());
    let value = headers.get(AUTHORIZATION).and_then(|v| v.to_str().ok());
    let token = extract_bearer_token(value).expect("token parsed");
    assert_eq!(token, "testtoken");
}

#[test]
fn bearer_parsing_rejects_missing_or_other_schemes() {
    assert_eq!(extract_bearer_token(None), Err(ApiError::Unauthorized));
    assert_eq!(extract_bearer_token(Some("Basic abc")), Err(ApiError::Unauthorized));
    assert_eq!(extract_bearer_token(Some("bearer abc")), Err(ApiError::Unauthorized));
    assert_eq!(extract_bearer_token(Some("Bearer ")), Ok(""));
}

#[test]
fn dashboard_projection_is_deterministic() {
    assert_eq!(project_available(4_500, 1_200), 3_300);
    assert_eq!(project_available(4_500, 1_200), 3_300);
}

#[test]
fn available_can_go_negative_and_reach_extremes() {
    assert_eq!(project_available(0, 0), 0);
    assert_eq!(project_available(100, 250), -150);
    assert_eq!(project_available(i64::MAX, 0), i64::MAX);
    assert_eq!(project_available(0, i64::MAX), -i64::MAX);
}

#[test]
fn split_validation_rejects_invalid_cases() {
    assert!(validate_splits(&[]).is_err());
    assert!(validate_splits(&[SplitInput { category_id: 1, memo: None, inflow: -1, outflow: 0 }]).is_err());
    assert!(validate_splits(&[SplitInput { category_id: 1, memo: None, inflow: 1, outflow: 1 }]).is_err());
    assert!(validate_splits(&[SplitInput { category_id: 1, memo: None, inflow: 0, outflow: 0 }]).is_err());
}

#[test]
fn split_validation_accepts_one_sided_splits() {
    assert_eq!(validate_splits(&[split(1, 0)]), Ok(()));
    assert_eq!(validate_splits(&[split(0, 5), split(7, 0)]), Ok(()));
    assert_eq!(validate_splits(&[split(0, 5), split(0, -1)]), Err(ApiError::Validation));
}

#[test]
fn month_parse_accepts_iso_yyyy_mm() {
    let d = parse_projection_month("2026-02").unwrap();
    let as_chrono = chrono::NaiveDate::from_ymd_opt(d.year, d.month, d.day).unwrap();
    assert_eq!(as_chrono.format("%Y-%m-%d").to_string(), "2026-02-01");
    assert!(parse_projection_month("2026/02").is_err());
}

#[test]
fn month_parse_rejects_other_shapes() {
    assert_eq!(parse_projection_month("2026-13"), Err(ApiError::Validation));
    assert_eq!(parse_projection_month(""), Err(ApiError::Validation));
    assert_eq!(parse_projection_month("2026-02-01"), Err(ApiError::Validation));
    let d = parse_projection_month("1999-12").unwrap();
    assert_eq!((d.year, d.month, d.day), (1999, 12, 1));
}

#[test]
fn email_is_trimmed_lowercased_and_checked() {
    assert_eq!(normalize_email("  Test@Example.COM \n").unwrap(), "test@example.com");
    assert_eq!(normalize_email("   "), Err(ApiError::Validation));
    assert_eq!(normalize_email("no-at-sign"), Err(ApiError::Validation));
}

#[test]
fn random_tokens_are_url_safe_and_distinct() {
    let a = random_token(32).unwrap();
    let b = random_token(32).unwrap();
    assert_eq!(a.len(), 43);
    assert_ne!(a, b);
    assert!(a.chars().all(|c| c.is_ascii_alphanumeric() || c == '-' || c == '_'));
    assert_eq!(random_token(48).unwrap().len(), 64);
}

#[test]
fn iso_dates_parse_to_calendar_dates() {
    assert_eq!(parse_iso_date("2026-02-19"), Ok(Date { year: 2026, month: 2, day: 19 }));
    assert_eq!(parse_iso_date("2026-02-30"), Err(ApiError::Validation));
    assert_eq!(parse_iso_date("19/02/2026"), Err(ApiError::Validation));
}
