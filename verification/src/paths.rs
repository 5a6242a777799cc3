//! The two request paths. Both operate on the token cache; the calls into
//! durable storage are I/O, so each path takes the store's answer as an
//! argument and states exactly what it does for every possible answer.
//!
//! Redirect path: serve from the cache, recording a hit; on a miss,
//! resolve against the durable store and populate the cache. Registration
//! path: draw a token, detect a collision, and publish the mapping into
//! the cache only after it was durably persisted.

use vstd::prelude::*;
use crate::cache::Entry;
use crate::cache::EntryModel;
use crate::cache::TokenCache;
use crate::cache::hit_state;
use crate::cache::register_state;
use crate::errors::ServiceError;
use crate::token::TOKEN_LEN;
use crate::token::generate_token;
use crate::token::is_token_char;

verus! {

/// A registration request: the target URL a new token should redirect to.
pub struct Registration {
    pub target: String,
}

/// What a successful registration reports back: the fresh token and the
/// target it now redirects to.
pub struct RegistrationResponse {
    pub token: String,
    pub target: String,
}

impl From<Registration> for Entry {
    /// A freshly registered entry starts with a counter of zero.
    fn from(reg: Registration) -> (e: Entry) {
        Entry { target: reg.target, hits: 0 }
    }
}

impl vstd::std_specs::convert::FromSpecImpl<Registration> for Entry {
    open spec fn obeys_from_spec() -> bool {
        true
    }

    open spec fn from_spec(reg: Registration) -> Entry {
        Entry { target: reg.target, hits: 0 }
    }
}

/// What the durable store answered to a point lookup of a token. The
/// lookup itself is I/O and happens outside the library; the redirect
/// path takes the answer as an argument.
pub enum LookupResult {
    /// The mapping table holds the token, with this target.
    Found(String),
    /// The mapping table has no row for the token.
    Absent,
    /// The store call failed or timed out.
    Failed,
}

/// What the durable store answered to the conditional insert of a fresh
/// mapping under the token's uniqueness constraint.
#[derive(Clone, Copy, Debug, PartialEq, Eq, Structural)]
pub enum StoreWrite {
    /// The row is durably stored.
    Persisted,
    /// The insert was rejected or the store failed.
    Failed,
}

/// The outcome of the redirect path, one variant per answer the HTTP
/// layer can give.
pub enum RedirectOutcome {
    /// Send the client on to this target with a temporary redirect.
    TemporaryRedirect(String),
    /// The token exists neither in the cache nor in durable storage.
    NotFound,
    /// The durable store failed; nothing can be said about the token.
    InternalError,
}

impl RedirectOutcome {
    /// The HTTP status code of each outcome.
    pub open spec fn spec_status(self) -> u16 {
        match self {
            RedirectOutcome::TemporaryRedirect(_) => 307,
            RedirectOutcome::NotFound => 404,
            RedirectOutcome::InternalError => 500,
        }
    }

    /// Maps the outcome to its HTTP status code: 307 carrying the target
    /// as the redirect location, 404 for an unknown token, 500 for a
    /// storage failure.
    pub fn status(&self) -> (code: u16)
        ensures
            code == self.spec_status(),
    {
        match self {
            RedirectOutcome::TemporaryRedirect(_) => 307,
            RedirectOutcome::NotFound => 404,
            RedirectOutcome::InternalError => 500,
        }
    }
}

/// Redirect path, cache side: a hit records one hit on the counter and
/// answers with the stored target at once; a miss changes nothing and
/// hands the decision back to the caller, because absence in the cache is
/// not authoritative — the durable store must be consulted first.
pub fn redirect_cached(cache: &mut TokenCache, token: &String) -> (r: Option<RedirectOutcome>)
    requires
        old(cache).wf(),
    ensures
        final(cache).wf(),
        final(cache).keys() == old(cache).keys(),
        final(cache)@ == hit_state(old(cache)@, token@),
        old(cache)@.contains_key(token@) ==> (r matches Some(
            RedirectOutcome::TemporaryRedirect(t),
        ) && t@ == old(cache)@[token@].target),
        !old(cache)@.contains_key(token@) ==> r is None && *final(cache) == *old(cache),
{
    match cache.hit(token) {
        Some(t) => Some(RedirectOutcome::TemporaryRedirect(t)),
        None => None,
    }
}

/// Redirect path, store side, after a cache miss: folds the durable
/// store's answer into the cache and the response. A row found in the
/// store populates the cache with a counter of one — the resolving lookup
/// itself counts as the first hit — and redirects; an absent row answers
/// "not found" and caches nothing, so absence is never cached; a failed
/// store call answers with an internal error and mutates nothing.
pub fn redirect_resolve(cache: &mut TokenCache, token: &String, lookup: LookupResult) -> (r:
    RedirectOutcome)
    requires
        old(cache).wf(),
    ensures
        final(cache).wf(),
        lookup matches LookupResult::Found(t) ==> {
            &&& r matches RedirectOutcome::TemporaryRedirect(rt) && rt@ == t@
            &&& final(cache)@ == old(cache)@.insert(
                token@,
                (EntryModel { target: t@, hits: 1 }),
            )
        },
        lookup is Found && old(cache)@.contains_key(token@) ==> final(cache).keys() == old(
            cache,
        ).keys(),
        lookup is Found && !old(cache)@.contains_key(token@) ==> final(cache).keys() == old(
            cache,
        ).keys().push(token@),
        lookup !is Found ==> final(cache).keys() == old(cache).keys(),
        lookup is Absent ==> r is NotFound && *final(cache) == *old(cache),
        lookup is Failed ==> r is InternalError && *final(cache) == *old(cache),
{
    match lookup {
        LookupResult::Found(target) => {
            let location = target.clone();
            cache.put(token.clone(), target, 1);
            RedirectOutcome::TemporaryRedirect(location)
        },
        LookupResult::Absent => RedirectOutcome::NotFound,
        LookupResult::Failed => RedirectOutcome::InternalError,
    }
}

/// Registration path, collision check: a candidate token passes exactly
/// when it is not cached yet, and a collision fails the operation with a
/// conflict — the path does not retry with a new token.
pub fn check_token(cache: &TokenCache, token: &String) -> (r: Result<(), ServiceError>)
    requires
        cache.wf(),
    ensures
        r is Ok <==> !cache@.contains_key(token@),
        r matches Err(e) ==> e == ServiceError::Conflict,
{
    if cache.contains(token) {
        Err(ServiceError::Conflict)
    } else {
        Ok(())
    }
}

/// Registration path, first step: draw a fresh token and hold it against
/// the cache. The draw is random, so success cannot be promised of every
/// call; but a conflict can only come from a cached token of exactly the
/// drawn shape, so a cache holding no well-formed token — eight lowercase
/// alphanumeric characters — forces success. Whatever token came out is
/// returned exactly when it is not yet cached, well-formed, and a
/// collision surfaces as a conflict — the path does not retry.
pub fn register_prepare(cache: &TokenCache) -> (r: Result<String, ServiceError>)
    requires
        cache.wf(),
    ensures
        r matches Ok(tok) ==> {
            &&& tok@.len() == TOKEN_LEN as int
            &&& forall|i: int| 0 <= i < tok@.len() ==> is_token_char(tok@[i])
            &&& !cache@.contains_key(tok@)
        },
        r matches Err(e) ==> e == ServiceError::Conflict,
        r is Err ==> exists|t: Seq<char>|
            cache@.contains_key(t) && t.len() == TOKEN_LEN as int && (forall|i: int|
                0 <= i < t.len() ==> is_token_char(t[i])),
{
    let token = generate_token();
    match check_token(cache, &token) {
        Ok(()) => Ok(token),
        Err(e) => {
            proof {
                assert(cache@.contains_key(token@) && token@.len() == TOKEN_LEN as int && (
                forall|i: int| 0 <= i < token@.len() ==> is_token_char(token@[i])));
            }
            Err(e)
        },
    }
}

/// Registration path, final step, after the durable write was attempted:
/// only a persisted row publishes the entry — counter zero — into the
/// cache, so a crash between the two steps can never leave the cache
/// holding a token that durable storage lacks; the response then carries
/// the token and its target. A rejected or failed write publishes nothing
/// and surfaces as a storage failure.
pub fn register_finish(
    cache: &mut TokenCache,
    token: String,
    target: String,
    store: StoreWrite,
) -> (r: Result<RegistrationResponse, ServiceError>)
    requires
        old(cache).wf(),
    ensures
        final(cache).wf(),
        store is Persisted ==> {
            &&& r matches Ok(resp) && resp.token@ == token@ && resp.target@ == target@
            &&& final(cache)@ == register_state(old(cache)@, token@, target@)
        },
        store is Persisted && old(cache)@.contains_key(token@) ==> final(cache).keys() == old(
            cache,
        ).keys(),
        store is Persisted && !old(cache)@.contains_key(token@) ==> final(cache).keys() == old(
            cache,
        ).keys().push(token@),
        store is Failed ==> {
            &&& r matches Err(e) && e == ServiceError::StorageFailure
            &&& *final(cache) == *old(cache)
        },
{
    match store {
        StoreWrite::Persisted => {
            let response = RegistrationResponse { token: token.clone(), target: target.clone() };
            let entry = Entry::from(Registration { target });
            cache.put_entry(token, entry);
            Ok(response)
        },
        StoreWrite::Failed => Err(ServiceError::StorageFailure),
    }
}

/// The HTTP status under which a registration outcome is reported: 201
/// for a created mapping, otherwise the error's own status.
pub fn registration_status(r: &Result<RegistrationResponse, ServiceError>) -> (code: u16)
    ensures
        r is Ok ==> code == 201,
        r matches Err(e) ==> code == e.spec_status(),
{
    match r {
        Ok(_) => 201,
        Err(e) => e.status(),
    }
}

} // verus!
