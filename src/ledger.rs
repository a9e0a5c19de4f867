use vstd::prelude::*;

use crate::auth::{
    base64_url_of, bearer_token_of, email_result, extract_bearer_token, normal_email,
    normalize_email, random_token, sha256_hex, sha256_hex_of,
};
use crate::error::ApiError;
use crate::tables::{ids_fresh, lemma_ids_push, lemma_ids_update};
use crate::models::{
    Account, AccessToken, AuthMethod, Budget, Category, CategoryAssignment, MagicLinkToken,
    OutboxEmail, Supercategory, Timestamp, Transaction, TransactionDetail, User,
};

verus! {

/// How long a magic link stays redeemable, in seconds.
pub const MAGIC_LINK_TTL: i64 = 900;

/// How long a session stays valid, in seconds (thirty days).
pub const SESSION_TTL: i64 = 2592000;

/// Random bytes in a magic-link token.
pub const MAGIC_LINK_BYTES: usize = 32;

/// Random bytes in a session token.
pub const SESSION_BYTES: usize = 48;

/// Switches for the optional parts of the system.
#[derive(Debug, Clone, Copy, PartialEq, Eq, Structural)]
pub struct FeatureFlags {
    pub passkeys: bool,
    pub multi_budget: bool,
    pub assignments: bool,
}

/// The whole store: every table, in insertion order, which is creation order.
/// Rows are never removed; deletion sets `deleted_at`.
pub struct Ledger {
    pub flags: FeatureFlags,
    /// The identifier the next created row receives.
    pub next_id: u64,
    pub users: Vec<User>,
    pub auth_methods: Vec<AuthMethod>,
    pub magic_links: Vec<MagicLinkToken>,
    pub sessions: Vec<AccessToken>,
    pub outbox: Vec<OutboxEmail>,
    pub budgets: Vec<Budget>,
    pub accounts: Vec<Account>,
    pub supercategories: Vec<Supercategory>,
    pub categories: Vec<Category>,
    pub transactions: Vec<Transaction>,
    pub splits: Vec<TransactionDetail>,
    pub assignments: Vec<CategoryAssignment>,
}

/// The store as a mathematical value.
pub struct LedgerView {
    pub flags: FeatureFlags,
    pub next_id: u64,
    pub users: Seq<User>,
    pub auth_methods: Seq<AuthMethod>,
    pub magic_links: Seq<MagicLinkToken>,
    pub sessions: Seq<AccessToken>,
    pub outbox: Seq<OutboxEmail>,
    pub budgets: Seq<Budget>,
    pub accounts: Seq<Account>,
    pub supercategories: Seq<Supercategory>,
    pub categories: Seq<Category>,
    pub transactions: Seq<Transaction>,
    pub splits: Seq<TransactionDetail>,
    pub assignments: Seq<CategoryAssignment>,
}

/// Every magic link's identifier was handed out before `next`, and no two
/// links share one.
pub open spec fn link_ids_fresh(links: Seq<MagicLinkToken>, next: u64) -> bool {
    &&& forall|i: int| 0 <= i < links.len() ==> (#[trigger] links[i]).pillid < next
    &&& forall|i: int, j: int| 0 <= i < j < links.len() ==> (#[trigger] links[i]).pillid != (#[trigger] links[j]).pillid
}

impl LedgerView {
    /// A well-formed store: every identifier was handed out once, from
    /// `next_id`, so identifiers are unique within each table.
    pub open spec fn wf(self) -> bool {
        &&& ids_fresh(self.users, self.next_id)
        &&& link_ids_fresh(self.magic_links, self.next_id)
        &&& ids_fresh(self.sessions, self.next_id)
        &&& ids_fresh(self.budgets, self.next_id)
        &&& ids_fresh(self.accounts, self.next_id)
        &&& ids_fresh(self.supercategories, self.next_id)
        &&& ids_fresh(self.categories, self.next_id)
        &&& ids_fresh(self.transactions, self.next_id)
        &&& ids_fresh(self.splits, self.next_id)
        &&& ids_fresh(self.assignments, self.next_id)
    }
}

impl View for Ledger {
    type V = LedgerView;

    open spec fn view(&self) -> LedgerView {
        LedgerView {
            flags: self.flags,
            next_id: self.next_id,
            users: self.users@,
            auth_methods: self.auth_methods@,
            magic_links: self.magic_links@,
            sessions: self.sessions@,
            outbox: self.outbox@,
            budgets: self.budgets@,
            accounts: self.accounts@,
            supercategories: self.supercategories@,
            categories: self.categories@,
            transactions: self.transactions@,
            splits: self.splits@,
            assignments: self.assignments@,
        }
    }
}

/// `t + secs`, held at the largest timestamp.
pub open spec fn later(t: Timestamp, secs: i64) -> Timestamp {
    if t + secs > i64::MAX {
        i64::MAX
    } else {
        (t + secs) as i64
    }
}

pub fn add_seconds(t: Timestamp, secs: i64) -> (r: Timestamp)
    requires
        secs >= 0,
    ensures
        r == later(t, secs),
{
    if t > i64::MAX - secs {
        i64::MAX
    } else {
        t + secs
    }
}

/// A session row that authenticates `hash` at `now`.
pub open spec fn session_valid(s: AccessToken, hash: Seq<char>, now: Timestamp) -> bool {
    s.token_hash@ == hash && s.revoked_at is None && s.deleted_at is None && s.expires_at > now
}

/// The users that the session digest `hash` authenticates at `now`.
pub open spec fn session_authenticates(
    sessions: Seq<AccessToken>,
    hash: Seq<char>,
    now: Timestamp,
    user: u64,
) -> bool {
    exists|i: int|
        0 <= i < sessions.len() && #[trigger] session_valid(sessions[i], hash, now)
            && sessions[i].user_pillid == user
}

pub open spec fn has_valid_session(sessions: Seq<AccessToken>, hash: Seq<char>, now: Timestamp) -> bool {
    exists|i: int| 0 <= i < sessions.len() && #[trigger] session_valid(sessions[i], hash, now)
}

/// A magic-link row that can still be redeemed with `hash` at `now`.
pub open spec fn link_pending(t: MagicLinkToken, hash: Seq<char>, now: Timestamp) -> bool {
    t.token_hash@ == hash && t.consumed_at is None && t.expires_at > now
}

pub open spec fn has_pending_link(links: Seq<MagicLinkToken>, hash: Seq<char>, now: Timestamp) -> bool {
    exists|k: int| 0 <= k < links.len() && #[trigger] link_pending(links[k], hash, now)
}

/// Row `k` is the most recent redeemable link for `hash` at `now`.
pub open spec fn latest_pending(links: Seq<MagicLinkToken>, hash: Seq<char>, now: Timestamp, k: int) -> bool {
    &&& 0 <= k < links.len()
    &&& link_pending(links[k], hash, now)
    &&& forall|j: int| k < j < links.len() ==> !#[trigger] link_pending(links[j], hash, now)
}

/// Row `k` is the first user registered with `email`.
pub open spec fn first_user_with_email(users: Seq<User>, email: Seq<char>, k: int) -> bool {
    &&& 0 <= k < users.len()
    &&& users[k].email@ == email
    &&& forall|j: int| 0 <= j < k ==> (#[trigger] users[j]).email@ != email
}

pub open spec fn has_user_with_email(users: Seq<User>, email: Seq<char>) -> bool {
    exists|k: int| 0 <= k < users.len() && (#[trigger] users[k]).email@ == email
}

/// A token is some `n` random bytes in URL-safe base64.
pub open spec fn is_random_token(t: Seq<char>, n: nat) -> bool {
    exists|b: Seq<u8>| b.len() == n && t == base64_url_of(b)
}

/// The store after issuing a link for `email` whose raw token is `token`:
/// one more pending link holding the token's digest and one more outbox
/// message carrying the token; the users and everything else are untouched.
pub open spec fn issued_link(l0: LedgerView, l1: LedgerView, email: Seq<char>, token: Seq<char>, now: Timestamp) -> bool {
    &&& l0.next_id < u64::MAX
    &&& l1.magic_links.len() == l0.magic_links.len() + 1
    &&& l1.magic_links.drop_last() == l0.magic_links
    &&& l1.magic_links.last().pillid == l0.next_id
    &&& l1.magic_links.last().email@ == email
    &&& l1.magic_links.last().token_hash@ == sha256_hex_of(token)
    &&& l1.magic_links.last().expires_at == later(now, MAGIC_LINK_TTL)
    &&& l1.magic_links.last().consumed_at is None
    &&& l1.magic_links.last().created_at == now
    &&& l1.outbox.len() == l0.outbox.len() + 1
    &&& l1.outbox.drop_last() == l0.outbox
    &&& l1.outbox.last().to_email@ == email
    &&& l1.outbox.last().link_token@ == token
    &&& l1 == LedgerView {
        next_id: (l0.next_id + 1) as u64,
        magic_links: l1.magic_links,
        outbox: l1.outbox,
        ..l0
    }
}

/// What `request_magic_link` does to the store and returns. Whether the
/// address is registered plays no part: the users are never read.
pub open spec fn request_link_post(
    l0: LedgerView,
    l1: LedgerView,
    email: Seq<char>,
    now: Timestamp,
    r: Result<String, ApiError>,
) -> bool {
    match r {
        Ok(token) => {
            &&& email_result(normal_email(email)) is Ok
            &&& is_random_token(token@, MAGIC_LINK_BYTES as nat)
            &&& issued_link(l0, l1, normal_email(email), token@, now)
        },
        Err(e) => {
            &&& l1 == l0
            &&& e == ApiError::Validation <==> email_result(normal_email(email)) is Err
            &&& e == ApiError::Validation || e == ApiError::Internal
        },

    }
}

/// What `verify_magic_link` does to the store and returns.
pub open spec fn verify_link_post(
    l0: LedgerView,
    l1: LedgerView,
    token: Seq<char>,
    now: Timestamp,
    r: Result<(String, u64), ApiError>,
) -> bool {
    let h = sha256_hex_of(token);
    match r {
        Err(e) => {
            &&& l1 == l0
            &&& e == ApiError::Unauthorized <==> !has_pending_link(l0.magic_links, h, now)
            &&& e == ApiError::Unauthorized || e == ApiError::Internal
        },
        Ok((session, u)) => {
            &&& is_random_token(session@, SESSION_BYTES as nat)
            &&& exists|k: int|
                #![trigger l0.magic_links[k]]
                latest_pending(l0.magic_links, h, now, k) && redeemed(l0, l1, k, now, session@, u)
        },
    }
}

/// The identifiers that redeeming link row `k` takes: the session's, plus a
/// new user's and their default budget's where the address is unregistered.
pub open spec fn ids_needed(l: LedgerView, k: int) -> nat {
    if has_user_with_email(l.users, l.magic_links[k].email@) {
        1
    } else {
        3
    }
}

/// The store after redeeming link row `k` at `now` for `user`, with a new
/// session whose raw token is `session`.
pub open spec fn redeemed(l0: LedgerView, l1: LedgerView, k: int, now: Timestamp, session: Seq<char>, user: u64) -> bool {
    let email = l0.magic_links[k].email@;
    let ids = ids_needed(l0, k);
    &&& l0.next_id + ids <= u64::MAX
    &&& l1.magic_links == l0.magic_links.update(
        k,
        MagicLinkToken { consumed_at: Some(now), ..l0.magic_links[k] },
    )
    &&& if has_user_with_email(l0.users, email) {
        &&& exists|j: int| first_user_with_email(l0.users, email, j) && #[trigger] l0.users[j].pillid == user
        &&& l1.users == l0.users
        &&& l1.auth_methods == l0.auth_methods
        &&& l1.budgets == l0.budgets
    } else {
        &&& user == l0.next_id
        &&& l1.users.len() == l0.users.len() + 1
        &&& l1.users.drop_last() == l0.users
        &&& l1.users.last().pillid == user
        &&& l1.users.last().email@ == email
        &&& l1.users.last().deleted_at is None
        &&& l1.auth_methods.len() == l0.auth_methods.len() + 1
        &&& l1.auth_methods.drop_last() == l0.auth_methods
        &&& l1.auth_methods.last().user_pillid == user
        &&& l1.auth_methods.last().label@ == email
        &&& l1.budgets.len() == l0.budgets.len() + 1
        &&& l1.budgets.drop_last() == l0.budgets
        &&& l1.budgets.last().pillid == l0.next_id + 1
        &&& l1.budgets.last().user_pillid == user
        &&& l1.budgets.last().name@ == "My Budget"@
        &&& l1.budgets.last().currency_code@ == "USD"@
        &&& l1.budgets.last().is_default
        &&& l1.budgets.last().deleted_at is None
    }
    &&& l1.sessions.len() == l0.sessions.len() + 1
    &&& l1.sessions.drop_last() == l0.sessions
    &&& l1.sessions.last().pillid == l0.next_id + ids - 1
    &&& l1.sessions.last().user_pillid == user
    &&& l1.sessions.last().token_hash@ == sha256_hex_of(session)
    &&& l1.sessions.last().expires_at == later(now, SESSION_TTL)
    &&& l1.sessions.last().revoked_at is None
    &&& l1.sessions.last().deleted_at is None
    &&& l1 == LedgerView {
        next_id: (l0.next_id + ids) as u64,
        users: l1.users,
        auth_methods: l1.auth_methods,
        magic_links: l1.magic_links,
        sessions: l1.sessions,
        budgets: l1.budgets,
        ..l0
    }
}

impl Ledger {
    /// An empty store with the given feature switches.
    pub fn new(flags: FeatureFlags) -> (r: Ledger)
        ensures
            r@ == (LedgerView {
                flags: flags,
                next_id: 1,
                users: Seq::empty(),
                auth_methods: Seq::empty(),
                magic_links: Seq::empty(),
                sessions: Seq::empty(),
                outbox: Seq::empty(),
                budgets: Seq::empty(),
                accounts: Seq::empty(),
                supercategories: Seq::empty(),
                categories: Seq::empty(),
                transactions: Seq::empty(),
                splits: Seq::empty(),
                assignments: Seq::empty(),
            }),
            r@.wf(),
    {
        let r = Ledger {
            flags,
            next_id: 1,
            users: Vec::new(),
            auth_methods: Vec::new(),
            magic_links: Vec::new(),
            sessions: Vec::new(),
            outbox: Vec::new(),
            budgets: Vec::new(),
            accounts: Vec::new(),
            supercategories: Vec::new(),
            categories: Vec::new(),
            transactions: Vec::new(),
            splits: Vec::new(),
            assignments: Vec::new(),
        };
        assert(r@.users =~= Seq::<User>::empty());
        r
    }

    /// Resolves a session digest to the user it belongs to; only an
    /// unexpired, unrevoked session authenticates.
    pub fn user_from_token_hash(&self, token_hash: &str, now: Timestamp) -> (r: Result<u64, ApiError>)
        ensures
            match r {
                Ok(u) => session_authenticates(self@.sessions, token_hash@, now, u),
                Err(e) => e == ApiError::Unauthorized && !has_valid_session(
                    self@.sessions,
                    token_hash@,
                    now,
                ),
            },
    {
        let hash = token_hash.to_owned();
        let mut i: usize = 0;
        while i < self.sessions.len()
            invariant
                0 <= i <= self.sessions@.len(),
                hash@ == token_hash@,
                forall|j: int| 0 <= j < i ==> !#[trigger] session_valid(self.sessions@[j], token_hash@, now),
            decreases self.sessions.len() - i,
        {
            let s = &self.sessions[i];
                        if s.token_hash == hash && s.revoked_at.is_none() && s.deleted_at.is_none()
                && s.expires_at > now {
                assert(session_valid(self.sessions@[i as int], token_hash@, now));
                return Ok(s.user_pillid);
            }
            i = i + 1;
        }
        Err(ApiError::Unauthorized)
    }

    /// Resolves an `Authorization` header value to the caller: the bearer
    /// token is hashed and looked up among the valid sessions.
    pub fn authenticate(&self, authorization: Option<&str>, now: Timestamp) -> (r: Result<u64, ApiError>)
        ensures
            match bearer_token_of(
                match authorization {
                    Some(h) => Some(h@),
                    None => None,
                },
            ) {
                None => r == Err::<u64, ApiError>(ApiError::Unauthorized),
                Some(t) => match r {
                    Ok(u) => session_authenticates(self@.sessions, sha256_hex_of(t), now, u),
                    Err(e) => e == ApiError::Unauthorized && !has_valid_session(
                        self@.sessions,
                        sha256_hex_of(t),
                        now,
                    ),
                },
            },
    {
        let token = extract_bearer_token(authorization)?;
        let hash = sha256_hex(token);
        self.user_from_token_hash(hash.as_str(), now)
    }

    /// Sends a sign-in link: the address is normalised and checked, a fresh
    /// token is drawn, its digest is stored with a fifteen-minute expiry, and
    /// a message carrying the raw token is queued. The answer never tells
    /// whether the address is registered; the raw token is returned for
    /// callers that may show it (development and tests).
    pub fn request_magic_link(&mut self, email: &str, now: Timestamp) -> (r: Result<String, ApiError>)
        ensures
            request_link_post(old(self)@, final(self)@, email@, now, r),
            old(self)@.wf() ==> final(self)@.wf(),
    {
        let email = normalize_email(email)?;
        if self.next_id == u64::MAX {
            return Err(ApiError::Internal);
        }
        let token = random_token(MAGIC_LINK_BYTES)?;
        self.issue_magic_link(email, token, now)
    }

    /// Stores a link for the checked address `email` whose raw token is
    /// `token` (only its digest is kept, with a fifteen-minute expiry) and
    /// queues the message carrying it. Fails only when identifiers run out.
    pub fn issue_magic_link(&mut self, email: String, token: String, now: Timestamp) -> (r: Result<String, ApiError>)
        requires
            email_result(email@) is Ok,
        ensures
            r is Ok <==> old(self).next_id < u64::MAX,
            match r {
                Ok(t) => t == token && issued_link(old(self)@, final(self)@, email@, token@, now),
                Err(e) => e == ApiError::Internal && final(self)@ == old(self)@,
            },
            old(self)@.wf() ==> final(self)@.wf(),
    {
        if self.next_id == u64::MAX {
            return Err(ApiError::Internal);
        }
        let token_hash = sha256_hex(token.as_str());
        let link = MagicLinkToken {
            pillid: self.next_id,
            email: email.clone(),
            token_hash,
            expires_at: add_seconds(now, MAGIC_LINK_TTL),
            consumed_at: None,
            created_at: now,
        };
        self.magic_links.push(link);
        self.outbox.push(OutboxEmail { to_email: email, link_token: token.clone() });
        self.next_id = self.next_id + 1;
        assert(self@.magic_links.drop_last() =~= old(self)@.magic_links);
        assert(self@.outbox.drop_last() =~= old(self)@.outbox);
        proof {
            let l = self@.magic_links;
            assert forall|i: int| 0 <= i < l.len() - 1 implies l[i] == old(self)@.magic_links[i] by {
                assert(l.drop_last()[i] == l[i]);
            }
        }
        Ok(token)
    }

    /// The most recent magic link that `hash` can redeem at `now`.
    fn latest_pending_link(&self, hash: &String, now: Timestamp) -> (r: Option<usize>)
        ensures
            match r {
                Some(k) => latest_pending(self@.magic_links, hash@, now, k as int),
                None => !has_pending_link(self@.magic_links, hash@, now),
            },
    {
        let mut found: Option<usize> = None;
        let mut i: usize = 0;
        while i < self.magic_links.len()
            invariant
                0 <= i <= self.magic_links@.len(),
                match found {
                    Some(k) => k < i && latest_pending(self.magic_links@.take(i as int), hash@, now, k as int),
                    None => forall|j: int| 0 <= j < i ==> !#[trigger] link_pending(self.magic_links@[j], hash@, now),
                },
            decreases self.magic_links.len() - i,
        {
            let t = &self.magic_links[i];
            if t.token_hash == *hash && t.consumed_at.is_none() && t.expires_at > now {
                found = Some(i);
            }
            i = i + 1;
            proof {
                let s = self.magic_links@;
                if let Some(k) = found {
                    assert forall|j: int| k < j < s.take(i as int).len() implies !#[trigger] link_pending(s.take(i as int)[j], hash@, now) by {
                        assert(s.take(i as int)[j] == s[j]);
                        assert(s.take(i as int - 1)[j] == s[j] || j == i - 1);
                    }
                }
            }
        }
        proof {
            assert(self.magic_links@.take(i as int) =~= self.magic_links@);
        }
        found
    }

    /// The first user registered with `email`.
    pub(crate) fn user_by_email(&self, email: &String) -> (r: Option<usize>)
        ensures
            match r {
                Some(k) => first_user_with_email(self@.users, email@, k as int),
                None => !has_user_with_email(self@.users, email@),
            },
    {
        let mut i: usize = 0;
        while i < self.users.len()
            invariant
                0 <= i <= self.users@.len(),
                forall|j: int| 0 <= j < i ==> (#[trigger] self.users@[j]).email@ != email@,
            decreases self.users.len() - i,
        {
            if self.users[i].email == *email {
                return Some(i);
            }
            i = i + 1;
        }
        None
    }

    /// Redeems a sign-in link: the most recent unconsumed, unexpired link for
    /// the token's digest is consumed; the user with its address is found or
    /// created (with a default budget and a magic-link sign-in method); and a
    /// new thirty-day session is issued. All of it happens or none of it.
    /// Returns the raw session token, which is never stored, and the user.
    pub fn verify_magic_link(&mut self, token: &str, now: Timestamp) -> (r: Result<(String, u64), ApiError>)
        ensures
            verify_link_post(old(self)@, final(self)@, token@, now, r),
            old(self)@.wf() ==> final(self)@.wf(),
    {
        let hash = sha256_hex(token);
        let k = match self.latest_pending_link(&hash, now) {
            Some(k) => k,
            None => return Err(ApiError::Unauthorized),
        };
        let email = self.magic_links[k].email.clone();
        let ids: u64 = if self.user_by_email(&email).is_some() { 1 } else { 3 };
        if self.next_id > u64::MAX - ids {
            return Err(ApiError::Internal);
        }
        let session = random_token(SESSION_BYTES)?;
        self.redeem_link(k, session, now)
    }

    /// Consumes the pending link row `k` at `now`: the user with its address
    /// is found or created (with a default budget and a magic-link sign-in
    /// method), and a thirty-day session whose raw token is `session` is
    /// issued, keeping only the token's digest. Fails only when identifiers
    /// run out, and then changes nothing.
    pub fn redeem_link(&mut self, k: usize, session: String, now: Timestamp) -> (r: Result<(String, u64), ApiError>)
        requires
            k < old(self)@.magic_links.len(),
            link_pending(old(self)@.magic_links[k as int], old(self)@.magic_links[k as int].token_hash@, now),
        ensures
            r is Ok <==> old(self).next_id + ids_needed(old(self)@, k as int) <= u64::MAX,
            match r {
                Ok((s, u)) => s == session && redeemed(old(self)@, final(self)@, k as int, now, session@, u),
                Err(e) => e == ApiError::Internal && final(self)@ == old(self)@,
            },
            old(self)@.wf() ==> final(self)@.wf(),
    {
        let email = self.magic_links[k].email.clone();
        let ghost l0 = self@;
        let found = self.user_by_email(&email);
        let ids: u64 = if found.is_some() { 1 } else { 3 };
        if self.next_id > u64::MAX - ids {
            return Err(ApiError::Internal);
        }
        let user = match found {
            Some(j) => self.users[j].pillid,
            None => {
                let uid = self.next_id;
                self.users.push(User {
                    pillid: uid,
                    email: email.clone(),
                    created_at: now,
                    updated_at: now,
                    deleted_at: None,
                });
                self.auth_methods.push(AuthMethod { user_pillid: uid, label: email.clone() });
                self.budgets.push(Budget {
                    pillid: uid + 1,
                    user_pillid: uid,
                    name: "My Budget".to_owned(),
                    currency_code: "USD".to_owned(),
                    is_default: true,
                    created_at: now,
                    updated_at: now,
                    deleted_at: None,
                });
                self.next_id = uid + 2;
                assert(self@.users.drop_last() =~= l0.users);
                assert(self@.auth_methods.drop_last() =~= l0.auth_methods);
                assert(self@.budgets.drop_last() =~= l0.budgets);
                uid
            },
        };
        self.magic_links[k].consumed_at = Some(now);
        let sid = self.next_id;
        self.sessions.push(AccessToken {
            pillid: sid,
            user_pillid: user,
            token_hash: sha256_hex(session.as_str()),
            expires_at: add_seconds(now, SESSION_TTL),
            revoked_at: None,
            created_at: now,
            updated_at: now,
            deleted_at: None,
        });
        self.next_id = sid + 1;
        assert(self@.sessions.drop_last() =~= l0.sessions);
        assert(self@.magic_links =~= l0.magic_links.update(
            k as int,
            MagicLinkToken { consumed_at: Some(now), ..l0.magic_links[k as int] },
        ));
        proof {
            if l0.wf() {
                if found.is_none() {
                    lemma_ids_push(l0.users, self@.users.last(), l0.next_id);
                    assert(self@.users =~= l0.users.push(self@.users.last()));
                    lemma_ids_push(l0.budgets, self@.budgets.last(), (l0.next_id + 1) as u64);
                    assert(self@.budgets =~= l0.budgets.push(self@.budgets.last()));
                }
                lemma_ids_push(l0.sessions, self@.sessions.last(), (self@.next_id - 1) as u64);
                assert(self@.sessions =~= l0.sessions.push(self@.sessions.last()));
            }
        }
        Ok((session, user))
    }

    /// The signed-in user's identity: the first user row with identifier
    /// `user`.
    pub fn me(&self, user: u64) -> (r: Result<User, ApiError>)
        ensures
            match r {
                Ok(u) => exists|k: int|
                    0 <= k < self@.users.len() && self@.users[k] == u && u.pillid == user && forall|j: int|
                        0 <= j < k ==> (#[trigger] self@.users[j]).pillid != user,
                Err(e) => e == ApiError::Internal && forall|j: int|
                    0 <= j < self@.users.len() ==> (#[trigger] self@.users[j]).pillid != user,
            },
    {
        let mut i: usize = 0;
        while i < self.users.len()
            invariant
                0 <= i <= self.users@.len(),
                forall|j: int| 0 <= j < i ==> (#[trigger] self.users@[j]).pillid != user,
            decreases self.users.len() - i,
        {
            let u = &self.users[i];
            if u.pillid == user {
                return Ok(User {
                    pillid: u.pillid,
                    email: u.email.clone(),
                    created_at: u.created_at,
                    updated_at: u.updated_at,
                    deleted_at: u.deleted_at,
                });
            }
            i = i + 1;
        }
        Err(ApiError::Internal)
    }

    /// Passkey registration: invisible (`FeatureDisabled`) while the feature
    /// is off; with it on, `Ok` says that the ceremony is not implemented.
    pub fn passkey_disabled(&self) -> (r: Result<(), ApiError>)
        ensures
            r == if self.flags.passkeys {
                Ok::<(), ApiError>(())
            } else {
                Err::<(), ApiError>(ApiError::FeatureDisabled)
            },
    {
        if self.flags.passkeys {
            Ok(())
        } else {
            Err(ApiError::FeatureDisabled)
        }
    }
}

} // verus!
