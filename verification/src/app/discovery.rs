//! Session discovery: the decisions around probing the browsers.
//!
//! The probing itself awaits each browser in turn; what the library keeps
//! is what is decided between the awaits. A [`SessionCache`] answers a
//! lookup from what an earlier discovery left behind (a session is kept
//! for good, a failure for five minutes), and a [`Probe`] folds the
//! browsers' answers into the outcome of one discovery.

use vstd::prelude::*;

use crate::domain::model::SessionV;
use crate::domain::{BrowserKind, DomainError, DomainResult, Session, SessionAuth};

verus! {

/// How long a failed discovery is remembered, in nanoseconds (300 s).
pub const NEGATIVE_TTL_NANOS: u64 = 300_000_000_000;

/// The user agent presented with a manually configured token.
pub const DEFAULT_USER_AGENT: &'static str = "Mozilla/5.0 (Windows NT 10.0; Win64; x64) AppleWebKit/537.36 (KHTML, like Gecko) Chrome/131.0.0.0 Safari/537.36";

/// The user agent presented with a manually configured token.
pub fn default_user_agent() -> (r: String)
    ensures
        r@ == DEFAULT_USER_AGENT@,
{
    String::from_str(DEFAULT_USER_AGENT)
}

/// A copy of a session, equal to it.
pub fn copy_session(s: &Session) -> (r: Session)
    ensures
        r == *s,
{
    let auth = match &s.auth {
        SessionAuth::Cookie { name, value } => SessionAuth::Cookie { name: name.clone(), value: value.clone() },
        SessionAuth::UrlToken(t) => SessionAuth::UrlToken(t.clone()),
    };
    Session { auth, user_agent: s.user_agent.clone(), source: s.source }
}

/// A copy of an error, equal to it.
pub fn copy_error(e: &DomainError) -> (r: DomainError)
    ensures
        r == *e,
{
    match e {
        DomainError::NoSessionFound => DomainError::NoSessionFound,
        DomainError::SessionRejected(m) => DomainError::SessionRejected(m.clone()),
        DomainError::CookieStoreUnavailable(m) => DomainError::CookieStoreUnavailable(m.clone()),
        DomainError::CookieDecryptionBlocked => DomainError::CookieDecryptionBlocked,
        DomainError::NetworkError(m) => DomainError::NetworkError(m.clone()),
        DomainError::ParseError(m) => DomainError::ParseError(m.clone()),
        DomainError::InvalidQuery(m) => DomainError::InvalidQuery(m.clone()),
    }
}

/// The session a manually configured token stands for: the token in the
/// URL, the default user agent, reported as coming from Chrome.
pub open spec fn manual_session_spec(token: Seq<char>) -> SessionV {
    SessionV {
        auth: crate::domain::model::SessionAuthV::UrlToken(token),
        user_agent: DEFAULT_USER_AGENT@,
        source: BrowserKind::Chrome,
    }
}

/// The session a manually configured token stands for.
pub fn manual_session(token: &String) -> (s: Session)
    ensures
        s@ == manual_session_spec(token@),
{
    Session { auth: SessionAuth::UrlToken(token.clone()), user_agent: default_user_agent(), source: BrowserKind::Chrome }
}

/// The session discovery starts from: a manually configured token wins
/// over every browser, which is then not probed.
pub fn manual_override(token: &Option<String>) -> (r: Option<Session>)
    ensures
        match token {
            Some(t) => r matches Some(s) && s@ == manual_session_spec(t@),
            None => r is None,
        },
{
    match token {
        Some(t) => Some(manual_session(t)),
        None => None,
    }
}

/// What discovery remembers between calls.
pub enum CacheEntry {
    /// Nothing was discovered yet.
    Empty,
    /// A session was found; it is kept for good.
    Found(Session),
    /// Discovery failed at the given instant (in nanoseconds on the
    /// caller's monotonic clock), with the given error.
    Failed { at: u64, error: DomainError },
}

/// The answer of a cache lookup.
pub enum CacheLookup {
    /// A session is at hand.
    Hit(Session),
    /// A recent discovery failed; the call fails without probing again.
    Refused(DomainError),
    /// The browsers have to be probed.
    Miss,
}

/// What a lookup at instant `now` answers for a cache entry: the kept
/// session; a refusal with the very error of a failure less than five
/// minutes old; otherwise a miss.
pub open spec fn lookup_spec(entry: CacheEntry, now: u64) -> CacheLookup {
    match entry {
        CacheEntry::Empty => CacheLookup::Miss,
        CacheEntry::Found(s) => CacheLookup::Hit(s),
        CacheEntry::Failed { at, error } => if elapsed(at, now) < NEGATIVE_TTL_NANOS {
            CacheLookup::Refused(error)
        } else {
            CacheLookup::Miss
        },
    }
}

/// The time from `at` to `now`, zero where `now` comes first.
pub open spec fn elapsed(at: u64, now: u64) -> int {
    if now >= at {
        now - at
    } else {
        0
    }
}

/// The memory of session discovery.
pub struct SessionCache {
    pub entry: CacheEntry,
}

impl SessionCache {
    /// A cache that remembers nothing.
    pub fn new() -> (c: Self)
        ensures
            c.entry is Empty,
    {
        SessionCache { entry: CacheEntry::Empty }
    }

    /// What to do at instant `now`: use the kept session, fail with the
    /// recent failure, or probe.
    pub fn lookup(&self, now: u64) -> (r: CacheLookup)
        ensures
            r == lookup_spec(self.entry, now),
    {
        match &self.entry {
            CacheEntry::Empty => CacheLookup::Miss,
            CacheEntry::Found(s) => CacheLookup::Hit(copy_session(s)),
            CacheEntry::Failed { at, error } => {
                let el: u64 = if now >= *at {
                    now - *at
                } else {
                    0
                };
                if el < NEGATIVE_TTL_NANOS {
                    CacheLookup::Refused(copy_error(error))
                } else {
                    CacheLookup::Miss
                }
            },
        }
    }

    /// Remembers the outcome of a discovery made at instant `now`, and
    /// hands the outcome back.
    pub fn record(&mut self, outcome: DomainResult<Session>, now: u64) -> (r: DomainResult<Session>)
        ensures
            r == outcome,
            match outcome {
                Ok(s) => final(self).entry == CacheEntry::Found(s),
                Err(e) => final(self).entry == (CacheEntry::Failed { at: now, error: e }),
            },
    {
        match outcome {
            Ok(s) => {
                self.entry = CacheEntry::Found(copy_session(&s));
                Ok(s)
            },
            Err(e) => {
                self.entry = CacheEntry::Failed { at: now, error: copy_error(&e) };
                Err(e)
            },
        }
    }
}

/// Whether an answer of a browser holds a session.
pub open spec fn is_found(r: DomainResult<Option<Session>>) -> bool {
    r matches Ok(Some(_))
}

/// The last error among the browsers' answers, if any.
pub open spec fn last_error(outs: Seq<DomainResult<Option<Session>>>) -> Option<DomainError>
    decreases outs.len(),
{
    if outs.len() == 0 {
        None
    } else {
        match outs.last() {
            Err(e) => Some(e),
            _ => last_error(outs.drop_last()),
        }
    }
}

/// The outcome of probing browsers that answered `outs`, in order, where
/// none held a session: the last error, or that no session was found.
pub open spec fn probe_failure(outs: Seq<DomainResult<Option<Session>>>) -> DomainError {
    match last_error(outs) {
        Some(e) => e,
        None => DomainError::NoSessionFound,
    }
}

/// A discovery in progress over the available browsers.
pub struct Probe {
    last_err: Option<DomainError>,
    seen: Ghost<Seq<DomainResult<Option<Session>>>>,
}

impl Probe {
    /// Whether the probe's state matches the answers it saw.
    pub closed spec fn wf(&self) -> bool {
        &&& forall|i: int| 0 <= i < self.seen@.len() ==> !is_found(#[trigger] self.seen@[i])
        &&& self.last_err == last_error(self.seen@)
    }

    /// The answers seen so far, none holding a session.
    pub closed spec fn answers(&self) -> Seq<DomainResult<Option<Session>>> {
        self.seen@
    }

    /// A probe that saw nothing yet.
    pub fn new() -> (p: Self)
        ensures
            p.wf(),
            p.answers() == Seq::<DomainResult<Option<Session>>>::empty(),
    {
        Probe { last_err: None, seen: Ghost(Seq::empty()) }
    }

    /// Takes the answer of the next available browser. A session ends the
    /// discovery and is handed back; otherwise the probe goes on, keeping
    /// the answer.
    pub fn on_answer(&mut self, r: DomainResult<Option<Session>>) -> (found: Option<Session>)
        requires
            old(self).wf(),
        ensures
            match found {
                Some(s) => r == DomainResult::<Option<Session>>::Ok(Some(s)) && *final(self) == *old(self),
                None => !is_found(r) && final(self).wf() && final(self).answers() == old(self).answers().push(r),
            },
    {
        let ghost old_seen = self.seen@;
        match r {
            Ok(Some(s)) => Some(s),
            Ok(None) => {
                proof {
                    let ns = old_seen.push(r);
                    assert(ns.drop_last() =~= old_seen);
                }
                self.seen = Ghost(old_seen.push(r));
                None
            },
            Err(e) => {
                let ghost rr = r;
                proof {
                    let ns = old_seen.push(rr);
                    assert(ns.last() == rr);
                }
                self.last_err = Some(e);
                self.seen = Ghost(old_seen.push(rr));
                None
            },
        }
    }

    /// The failure of a discovery in which no browser held a session: the
    /// last error seen, or that no session was found.
    pub fn finish(self) -> (e: DomainError)
        requires
            self.wf(),
        ensures
            e == probe_failure(self.answers()),
    {
        match self.last_err {
            Some(e) => e,
            None => DomainError::NoSessionFound,
        }
    }
}

/// A discovered session is kept for good: after `record` of a success,
/// every later lookup answers that session, however much time passed.
pub proof fn law_session_kept(s: Session, now: u64)
    ensures
        lookup_spec(CacheEntry::Found(s), now) == CacheLookup::Hit(s),
{
}

/// A failed discovery recorded at `at` makes every lookup less than five
/// minutes later fail with that same error, unchanged, without probing;
/// from five minutes on, lookups probe again.
pub proof fn law_failure_remembered(at: u64, error: DomainError, now: u64)
    ensures
        now < at + NEGATIVE_TTL_NANOS ==> lookup_spec(CacheEntry::Failed { at, error }, now)
            == CacheLookup::Refused(error),
        now >= at + NEGATIVE_TTL_NANOS ==> lookup_spec(CacheEntry::Failed { at, error }, now)
            == CacheLookup::Miss,
{
}

} // verus!
