use vstd::prelude::*;

use crate::calendar::Date;

verus! {

/// Seconds since the Unix epoch.
pub type Timestamp = i64;

/// A registered person, identified by the email address they signed in with.
#[derive(Debug, Clone)]
pub struct User {
    pub pillid: u64,
    pub email: String,
    pub created_at: Timestamp,
    pub updated_at: Timestamp,
    pub deleted_at: Option<Timestamp>,
}

/// A way a user may sign in; every user created by a magic link gets one for
/// their email address.
#[derive(Debug, Clone)]
pub struct AuthMethod {
    pub user_pillid: u64,
    pub label: String,
}

/// A single-use sign-in token, kept only as its digest.
#[derive(Debug, Clone)]
pub struct MagicLinkToken {
    pub pillid: u64,
    pub email: String,
    pub token_hash: String,
    pub expires_at: Timestamp,
    pub consumed_at: Option<Timestamp>,
    pub created_at: Timestamp,
}

/// A session: the digest of a bearer token bound to a user.
#[derive(Debug, Clone)]
pub struct AccessToken {
    pub pillid: u64,
    pub user_pillid: u64,
    pub token_hash: String,
    pub expires_at: Timestamp,
    pub revoked_at: Option<Timestamp>,
    pub created_at: Timestamp,
    pub updated_at: Timestamp,
    pub deleted_at: Option<Timestamp>,
}

/// A sign-in message waiting to be delivered; it carries the raw link token.
#[derive(Debug, Clone)]
pub struct OutboxEmail {
    pub to_email: String,
    pub link_token: String,
}

/// A named container of accounts and categories.
#[derive(Debug, Clone)]
pub struct Budget {
    pub pillid: u64,
    pub user_pillid: u64,
    pub name: String,
    pub currency_code: String,
    pub is_default: bool,
    pub created_at: Timestamp,
    pub updated_at: Timestamp,
    pub deleted_at: Option<Timestamp>,
}

/// An account of a budget.
#[derive(Debug, Clone)]
pub struct Account {
    pub pillid: u64,
    pub user_pillid: u64,
    pub budget_pillid: u64,
    pub name: String,
    pub created_at: Timestamp,
    pub updated_at: Timestamp,
    pub deleted_at: Option<Timestamp>,
}

/// A named group of categories within a budget.
#[derive(Debug, Clone)]
pub struct Supercategory {
    pub pillid: u64,
    pub user_pillid: u64,
    pub budget_pillid: u64,
    pub name: String,
    pub created_at: Timestamp,
    pub updated_at: Timestamp,
    pub deleted_at: Option<Timestamp>,
}

/// An envelope: a category of a budget, under one supercategory of the same
/// budget.
#[derive(Debug, Clone)]
pub struct Category {
    pub pillid: u64,
    pub user_pillid: u64,
    pub budget_pillid: u64,
    pub supercategory_pillid: u64,
    pub name: String,
    pub created_at: Timestamp,
    pub updated_at: Timestamp,
    pub deleted_at: Option<Timestamp>,
}

/// A transaction of an account; its amounts live in its splits.
#[derive(Debug, Clone)]
pub struct Transaction {
    pub pillid: u64,
    pub user_pillid: u64,
    pub budget_pillid: u64,
    pub account_pillid: u64,
    pub date: Date,
    pub payee: Option<String>,
    pub memo: Option<String>,
    pub created_at: Timestamp,
    pub updated_at: Timestamp,
    pub deleted_at: Option<Timestamp>,
}

/// A split of a transaction: money in or out of one category.
#[derive(Debug, Clone)]
pub struct TransactionDetail {
    pub pillid: u64,
    pub user_pillid: u64,
    pub transaction_pillid: u64,
    pub budget_pillid: u64,
    pub category_pillid: u64,
    pub memo: Option<String>,
    pub inflow: i64,
    pub outflow: i64,
    pub created_at: Timestamp,
    pub updated_at: Timestamp,
    pub deleted_at: Option<Timestamp>,
}

/// Money assigned to a category for a month (the month's first day).
#[derive(Debug, Clone)]
pub struct CategoryAssignment {
    pub pillid: u64,
    pub user_pillid: u64,
    pub budget_pillid: u64,
    pub category_pillid: u64,
    pub month: Date,
    pub amount: i64,
    pub created_at: Timestamp,
    pub updated_at: Timestamp,
    pub deleted_at: Option<Timestamp>,
}

/// Copies an optional text field.
pub fn copy_text(t: &Option<String>) -> (r: Option<String>)
    ensures
        r == *t,
{
    match t {
        Some(s) => Some(s.clone()),
        None => None,
    }
}

/// The columns that every stored row carries.
pub trait BaseModel: Sized {
    spec fn spec_pillid(&self) -> u64;

    spec fn spec_created_at(&self) -> Timestamp;

    spec fn spec_updated_at(&self) -> Timestamp;

    spec fn spec_deleted_at(&self) -> Option<Timestamp>;

    fn pillid(&self) -> (r: u64)
        ensures
            r == self.spec_pillid(),
    ;

    fn created_at(&self) -> (r: Timestamp)
        ensures
            r == self.spec_created_at(),
    ;

    fn updated_at(&self) -> (r: Timestamp)
        ensures
            r == self.spec_updated_at(),
    ;

    fn deleted_at(&self) -> (r: Option<Timestamp>)
        ensures
            r == self.spec_deleted_at(),
    ;
}

/// A row owned by one user.
pub trait UserModel: BaseModel {
    spec fn spec_user_pillid(&self) -> u64;

    fn user_pillid(&self) -> (r: u64)
        ensures
            r == self.spec_user_pillid(),
    ;

    /// The row marked deleted at `now`.
    spec fn spec_deleted(self, now: Timestamp) -> Self;

    /// Marking a row deleted keeps its identifier and its owner.
    proof fn lemma_deleted_keeps_ids(self, now: Timestamp)
        ensures
            self.spec_deleted(now).spec_pillid() == self.spec_pillid(),
            self.spec_deleted(now).spec_user_pillid() == self.spec_user_pillid(),
    ;

    fn duplicate(&self) -> (r: Self)
        ensures
            r == *self,
    ;

    fn soft_deleted(self, now: Timestamp) -> (r: Self)
        ensures
            r == self.spec_deleted(now),
            r.spec_pillid() == self.spec_pillid(),
            r.spec_user_pillid() == self.spec_user_pillid(),
            r.spec_deleted_at() == Some(now),
    ;
}

/// A row owned by `user` and not deleted.
pub open spec fn live_for<T: UserModel>(row: T, user: u64) -> bool {
    row.spec_user_pillid() == user && row.spec_deleted_at() is None
}

impl BaseModel for Budget {
    open spec fn spec_pillid(&self) -> u64 {
        self.pillid
    }

    open spec fn spec_created_at(&self) -> Timestamp {
        self.created_at
    }

    open spec fn spec_updated_at(&self) -> Timestamp {
        self.updated_at
    }

    open spec fn spec_deleted_at(&self) -> Option<Timestamp> {
        self.deleted_at
    }

    fn pillid(&self) -> (r: u64) {
        self.pillid
    }

    fn created_at(&self) -> (r: Timestamp) {
        self.created_at
    }

    fn updated_at(&self) -> (r: Timestamp) {
        self.updated_at
    }

    fn deleted_at(&self) -> (r: Option<Timestamp>) {
        self.deleted_at
    }
}

impl UserModel for Budget {
    open spec fn spec_user_pillid(&self) -> u64 {
        self.user_pillid
    }

    fn user_pillid(&self) -> (r: u64) {
        self.user_pillid
    }

    open spec fn spec_deleted(self, now: Timestamp) -> Self {
        Budget { deleted_at: Some(now), ..self }
    }

    proof fn lemma_deleted_keeps_ids(self, now: Timestamp) {
    }

    fn duplicate(&self) -> (r: Self) {
        Budget {
            pillid: self.pillid,
            user_pillid: self.user_pillid,
            name: self.name.clone(),
            currency_code: self.currency_code.clone(),
            is_default: self.is_default,
            created_at: self.created_at,
            updated_at: self.updated_at,
            deleted_at: self.deleted_at,
        }
    }

    fn soft_deleted(self, now: Timestamp) -> (r: Self) {
        Budget { deleted_at: Some(now), ..self }
    }
}

impl BaseModel for Account {
    open spec fn spec_pillid(&self) -> u64 {
        self.pillid
    }

    open spec fn spec_created_at(&self) -> Timestamp {
        self.created_at
    }

    open spec fn spec_updated_at(&self) -> Timestamp {
        self.updated_at
    }

    open spec fn spec_deleted_at(&self) -> Option<Timestamp> {
        self.deleted_at
    }

    fn pillid(&self) -> (r: u64) {
        self.pillid
    }

    fn created_at(&self) -> (r: Timestamp) {
        self.created_at
    }

    fn updated_at(&self) -> (r: Timestamp) {
        self.updated_at
    }

    fn deleted_at(&self) -> (r: Option<Timestamp>) {
        self.deleted_at
    }
}

impl UserModel for Account {
    open spec fn spec_user_pillid(&self) -> u64 {
        self.user_pillid
    }

    fn user_pillid(&self) -> (r: u64) {
        self.user_pillid
    }

    open spec fn spec_deleted(self, now: Timestamp) -> Self {
        Account { deleted_at: Some(now), ..self }
    }

    proof fn lemma_deleted_keeps_ids(self, now: Timestamp) {
    }

    fn duplicate(&self) -> (r: Self) {
        Account {
            pillid: self.pillid,
            user_pillid: self.user_pillid,
            budget_pillid: self.budget_pillid,
            name: self.name.clone(),
            created_at: self.created_at,
            updated_at: self.updated_at,
            deleted_at: self.deleted_at,
        }
    }

    fn soft_deleted(self, now: Timestamp) -> (r: Self) {
        Account { deleted_at: Some(now), ..self }
    }
}

impl BaseModel for Supercategory {
    open spec fn spec_pillid(&self) -> u64 {
        self.pillid
    }

    open spec fn spec_created_at(&self) -> Timestamp {
        self.created_at
    }

    open spec fn spec_updated_at(&self) -> Timestamp {
        self.updated_at
    }

    open spec fn spec_deleted_at(&self) -> Option<Timestamp> {
        self.deleted_at
    }

    fn pillid(&self) -> (r: u64) {
        self.pillid
    }

    fn created_at(&self) -> (r: Timestamp) {
        self.created_at
    }

    fn updated_at(&self) -> (r: Timestamp) {
        self.updated_at
    }

    fn deleted_at(&self) -> (r: Option<Timestamp>) {
        self.deleted_at
    }
}

impl UserModel for Supercategory {
    open spec fn spec_user_pillid(&self) -> u64 {
        self.user_pillid
    }

    fn user_pillid(&self) -> (r: u64) {
        self.user_pillid
    }

    open spec fn spec_deleted(self, now: Timestamp) -> Self {
        Supercategory { deleted_at: Some(now), ..self }
    }

    proof fn lemma_deleted_keeps_ids(self, now: Timestamp) {
    }

    fn duplicate(&self) -> (r: Self) {
        Supercategory {
            pillid: self.pillid,
            user_pillid: self.user_pillid,
            budget_pillid: self.budget_pillid,
            name: self.name.clone(),
            created_at: self.created_at,
            updated_at: self.updated_at,
            deleted_at: self.deleted_at,
        }
    }

    fn soft_deleted(self, now: Timestamp) -> (r: Self) {
        Supercategory { deleted_at: Some(now), ..self }
    }
}

impl BaseModel for Category {
    open spec fn spec_pillid(&self) -> u64 {
        self.pillid
    }

    open spec fn spec_created_at(&self) -> Timestamp {
        self.created_at
    }

    open spec fn spec_updated_at(&self) -> Timestamp {
        self.updated_at
    }

    open spec fn spec_deleted_at(&self) -> Option<Timestamp> {
        self.deleted_at
    }

    fn pillid(&self) -> (r: u64) {
        self.pillid
    }

    fn created_at(&self) -> (r: Timestamp) {
        self.created_at
    }

    fn updated_at(&self) -> (r: Timestamp) {
        self.updated_at
    }

    fn deleted_at(&self) -> (r: Option<Timestamp>) {
        self.deleted_at
    }
}

impl UserModel for Category {
    open spec fn spec_user_pillid(&self) -> u64 {
        self.user_pillid
    }

    fn user_pillid(&self) -> (r: u64) {
        self.user_pillid
    }

    open spec fn spec_deleted(self, now: Timestamp) -> Self {
        Category { deleted_at: Some(now), ..self }
    }

    proof fn lemma_deleted_keeps_ids(self, now: Timestamp) {
    }

    fn duplicate(&self) -> (r: Self) {
        Category {
            pillid: self.pillid,
            user_pillid: self.user_pillid,
            budget_pillid: self.budget_pillid,
            supercategory_pillid: self.supercategory_pillid,
            name: self.name.clone(),
            created_at: self.created_at,
            updated_at: self.updated_at,
            deleted_at: self.deleted_at,
        }
    }

    fn soft_deleted(self, now: Timestamp) -> (r: Self) {
        Category { deleted_at: Some(now), ..self }
    }
}

impl BaseModel for Transaction {
    open spec fn spec_pillid(&self) -> u64 {
        self.pillid
    }

    open spec fn spec_created_at(&self) -> Timestamp {
        self.created_at
    }

    open spec fn spec_updated_at(&self) -> Timestamp {
        self.updated_at
    }

    open spec fn spec_deleted_at(&self) -> Option<Timestamp> {
        self.deleted_at
    }

    fn pillid(&self) -> (r: u64) {
        self.pillid
    }

    fn created_at(&self) -> (r: Timestamp) {
        self.created_at
    }

    fn updated_at(&self) -> (r: Timestamp) {
        self.updated_at
    }

    fn deleted_at(&self) -> (r: Option<Timestamp>) {
        self.deleted_at
    }
}

impl UserModel for Transaction {
    open spec fn spec_user_pillid(&self) -> u64 {
        self.user_pillid
    }

    fn user_pillid(&self) -> (r: u64) {
        self.user_pillid
    }

    open spec fn spec_deleted(self, now: Timestamp) -> Self {
        Transaction { deleted_at: Some(now), ..self }
    }

    proof fn lemma_deleted_keeps_ids(self, now: Timestamp) {
    }

    fn duplicate(&self) -> (r: Self) {
        Transaction {
            pillid: self.pillid,
            user_pillid: self.user_pillid,
            budget_pillid: self.budget_pillid,
            account_pillid: self.account_pillid,
            date: self.date,
            payee: copy_text(&self.payee),
            memo: copy_text(&self.memo),
            created_at: self.created_at,
            updated_at: self.updated_at,
            deleted_at: self.deleted_at,
        }
    }

    fn soft_deleted(self, now: Timestamp) -> (r: Self) {
        Transaction { deleted_at: Some(now), ..self }
    }
}

impl BaseModel for TransactionDetail {
    open spec fn spec_pillid(&self) -> u64 {
        self.pillid
    }

    open spec fn spec_created_at(&self) -> Timestamp {
        self.created_at
    }

    open spec fn spec_updated_at(&self) -> Timestamp {
        self.updated_at
    }

    open spec fn spec_deleted_at(&self) -> Option<Timestamp> {
        self.deleted_at
    }

    fn pillid(&self) -> (r: u64) {
        self.pillid
    }

    fn created_at(&self) -> (r: Timestamp) {
        self.created_at
    }

    fn updated_at(&self) -> (r: Timestamp) {
        self.updated_at
    }

    fn deleted_at(&self) -> (r: Option<Timestamp>) {
        self.deleted_at
    }
}

impl UserModel for TransactionDetail {
    open spec fn spec_user_pillid(&self) -> u64 {
        self.user_pillid
    }

    fn user_pillid(&self) -> (r: u64) {
        self.user_pillid
    }

    open spec fn spec_deleted(self, now: Timestamp) -> Self {
        TransactionDetail { deleted_at: Some(now), ..self }
    }

    proof fn lemma_deleted_keeps_ids(self, now: Timestamp) {
    }

    fn duplicate(&self) -> (r: Self) {
        TransactionDetail {
            pillid: self.pillid,
            user_pillid: self.user_pillid,
            transaction_pillid: self.transaction_pillid,
            budget_pillid: self.budget_pillid,
            category_pillid: self.category_pillid,
            memo: copy_text(&self.memo),
            inflow: self.inflow,
            outflow: self.outflow,
            created_at: self.created_at,
            updated_at: self.updated_at,
            deleted_at: self.deleted_at,
        }
    }

    fn soft_deleted(self, now: Timestamp) -> (r: Self) {
        TransactionDetail { deleted_at: Some(now), ..self }
    }
}

impl BaseModel for CategoryAssignment {
    open spec fn spec_pillid(&self) -> u64 {
        self.pillid
    }

    open spec fn spec_created_at(&self) -> Timestamp {
        self.created_at
    }

    open spec fn spec_updated_at(&self) -> Timestamp {
        self.updated_at
    }

    open spec fn spec_deleted_at(&self) -> Option<Timestamp> {
        self.deleted_at
    }

    fn pillid(&self) -> (r: u64) {
        self.pillid
    }

    fn created_at(&self) -> (r: Timestamp) {
        self.created_at
    }

    fn updated_at(&self) -> (r: Timestamp) {
        self.updated_at
    }

    fn deleted_at(&self) -> (r: Option<Timestamp>) {
        self.deleted_at
    }
}

impl UserModel for CategoryAssignment {
    open spec fn spec_user_pillid(&self) -> u64 {
        self.user_pillid
    }

    fn user_pillid(&self) -> (r: u64) {
        self.user_pillid
    }

    open spec fn spec_deleted(self, now: Timestamp) -> Self {
        CategoryAssignment { deleted_at: Some(now), ..self }
    }

    proof fn lemma_deleted_keeps_ids(self, now: Timestamp) {
    }

    fn duplicate(&self) -> (r: Self) {
        CategoryAssignment {
            pillid: self.pillid,
            user_pillid: self.user_pillid,
            budget_pillid: self.budget_pillid,
            category_pillid: self.category_pillid,
            month: self.month,
            amount: self.amount,
            created_at: self.created_at,
            updated_at: self.updated_at,
            deleted_at: self.deleted_at,
        }
    }

    fn soft_deleted(self, now: Timestamp) -> (r: Self) {
        CategoryAssignment { deleted_at: Some(now), ..self }
    }
}

impl BaseModel for AccessToken {
    open spec fn spec_pillid(&self) -> u64 {
        self.pillid
    }

    open spec fn spec_created_at(&self) -> Timestamp {
        self.created_at
    }

    open spec fn spec_updated_at(&self) -> Timestamp {
        self.updated_at
    }

    open spec fn spec_deleted_at(&self) -> Option<Timestamp> {
        self.deleted_at
    }

    fn pillid(&self) -> (r: u64) {
        self.pillid
    }

    fn created_at(&self) -> (r: Timestamp) {
        self.created_at
    }

    fn updated_at(&self) -> (r: Timestamp) {
        self.updated_at
    }

    fn deleted_at(&self) -> (r: Option<Timestamp>) {
        self.deleted_at
    }
}

impl UserModel for AccessToken {
    open spec fn spec_user_pillid(&self) -> u64 {
        self.user_pillid
    }

    fn user_pillid(&self) -> (r: u64) {
        self.user_pillid
    }

    open spec fn spec_deleted(self, now: Timestamp) -> Self {
        AccessToken { deleted_at: Some(now), ..self }
    }

    proof fn lemma_deleted_keeps_ids(self, now: Timestamp) {
    }

    fn duplicate(&self) -> (r: Self) {
        AccessToken {
            pillid: self.pillid,
            user_pillid: self.user_pillid,
            token_hash: self.token_hash.clone(),
            expires_at: self.expires_at,
            revoked_at: self.revoked_at,
            created_at: self.created_at,
            updated_at: self.updated_at,
            deleted_at: self.deleted_at,
        }
    }

    fn soft_deleted(self, now: Timestamp) -> (r: Self) {
        AccessToken { deleted_at: Some(now), ..self }
    }
}

impl BaseModel for User {
    open spec fn spec_pillid(&self) -> u64 {
        self.pillid
    }

    open spec fn spec_created_at(&self) -> Timestamp {
        self.created_at
    }

    open spec fn spec_updated_at(&self) -> Timestamp {
        self.updated_at
    }

    open spec fn spec_deleted_at(&self) -> Option<Timestamp> {
        self.deleted_at
    }

    fn pillid(&self) -> (r: u64) {
        self.pillid
    }

    fn created_at(&self) -> (r: Timestamp) {
        self.created_at
    }

    fn updated_at(&self) -> (r: Timestamp) {
        self.updated_at
    }

    fn deleted_at(&self) -> (r: Option<Timestamp>) {
        self.deleted_at
    }
}

} // verus!
