//! The expiring session store.
//!
//! A [`Session`] pairs a caller-supplied payload with an absolute expiration
//! instant fixed at creation; it is never renewed.  A [`SessionManager`] maps
//! 128-bit random secrets to shared session handles, generating fresh secrets
//! on creation and lazily evicting expired sessions on lookup.
//!
//! The current time never enters this module on its own: every operation that
//! depends on it takes the instant (seconds since some fixed epoch) as an
//! argument, so its whole behaviour is stated in the contracts.

use vstd::prelude::*;

use std::collections::HashMap;
use std::sync::Arc;

use crate::cookie_codec::SessionCookieDisplay;

verus! {

broadcast use vstd::std_specs::hash::group_hash_axioms;

/// Fixed session lifetime in seconds: approximately four months.
pub const SESSION_TTL_SECS: u64 = 60 * 60 * 24 * 30 * 4;

/// A payload together with the instant (seconds) at which it stops being valid.
pub struct Session<T> {
    data: T,
    expires: u64,
}

impl<T> Session<T> {
    /// The payload held by this session.
    pub closed spec fn spec_data(&self) -> T {
        self.data
    }

    /// The expiration instant, in seconds, fixed at creation.
    pub closed spec fn spec_expires(&self) -> u64 {
        self.expires
    }

    /// Makes a session expiring a fixed lifetime after `now`.
    pub fn new(data: T, now: u64) -> (r: Self)
        requires
            now + SESSION_TTL_SECS <= u64::MAX,
        ensures
            r.spec_data() == data,
            r.spec_expires() == now + SESSION_TTL_SECS,
    {
        let expires = now + SESSION_TTL_SECS;
        Self { data, expires }
    }

    /// The payload.  An expired session still hands its payload out: the
    /// caller may already hold the reference past the expiration instant, so
    /// checking here would not achieve anything.
    #[inline]
    pub fn data(&self) -> (r: &T)
        ensures
            *r == self.spec_data(),
    {
        &self.data
    }

    /// Whether the session has expired at the instant `now`.
    pub fn expired(&self, now: u64) -> (r: bool)
        ensures
            r == (now >= self.spec_expires()),
    {
        now >= self.expires
    }

    /// The expiration instant.
    pub fn expires(&self) -> (r: u64)
        ensures
            r == self.spec_expires(),
    {
        self.expires
    }
}

/// An opaque 128-bit session secret.  It carries no `Debug` impl on purpose:
/// a secret must never appear in any rendered output except the cookie value.
#[derive(Copy, Clone, PartialEq, Eq, Structural, Hash)]
pub struct SessionSecret(u128);

impl SessionSecret {
    /// The raw value; the map key and the cookie value.
    pub closed spec fn spec_value(&self) -> u128 {
        self.0
    }

    pub fn new(val: u128) -> (r: Self)
        ensures
            r.spec_value() == val,
    {
        Self(val)
    }

    pub(crate) fn value(&self) -> (r: u128)
        ensures
            r == self.spec_value(),
    {
        self.0
    }

    /// Returns an object that renders the cookie value and attributes,
    /// excluding the cookie name (the `cookie_name=` component).
    pub fn as_cookie(&self, secure_attr: bool, expire: Option<u64>) -> (r: SessionCookieDisplay)
        ensures
            r.spec_secret() == self.spec_value(),
            r.spec_secure_attr() == secure_attr,
            r.spec_expire() == expire,
    {
        SessionCookieDisplay::new(self.0, secure_attr, expire)
    }
}

/// Relies on `alloc::sync::Arc`'s `Clone` impl: a cloned `Arc` is a handle to
/// the very same value.
#[verifier::external_body]
fn arc_clone<T>(a: &Arc<T>) -> (r: Arc<T>)
    ensures
        r == *a,
{
    Arc::clone(a)
}

/// Relies on `rand::random`, backed by `rand`'s thread-local CSPRNG.  Nothing
/// can be promised of a random value, so it has no `ensures`; the secret
/// generation loop below handles every outcome.
pub assume_specification<T>[ rand::random::<T> ]() -> (r: T)
    where
        rand::distributions::Standard: rand::distributions::Distribution<T>,
;

/// The map from raw secret values to shared sessions.
///
/// Exclusive access is expressed through `&mut` here; the surrounding
/// application keeps the manager behind its own reader/writer lock and holds
/// the writer side only across these pure in-memory operations.
pub struct SessionManager<T> {
    sessions: HashMap<u128, Arc<Session<T>>>,
}

impl<T> SessionManager<T> {
    /// The association of secrets with sessions that the manager holds.
    pub closed spec fn spec_sessions(&self) -> Map<u128, Arc<Session<T>>> {
        self.sessions@
    }

    /// The store holds finitely many sessions: its model is a finite map,
    /// so evicting one really shrinks it (see
    /// [`lemma_expired_lookup_shrinks`]).
    pub proof fn lemma_sessions_finite(&self)
        ensures
            self.spec_sessions().dom().finite(),
    {
    }

    /// Looks a session up under shared access, touching nothing.  Many of
    /// these may run at once behind a reader lock; only the `Expired`
    /// outcome asks the caller to take exclusive access and evict through
    /// [`Self::session`].
    pub fn peek_session(&self, secret: SessionSecret, now: u64) -> (r: SessionPeek<T>)
        ensures
            self.spec_sessions().contains_key(secret.spec_value()) && now < self.spec_sessions()[
                secret.spec_value()
            ].spec_expires() ==> {
                &&& r matches SessionPeek::Live(s)
                &&& s == self.spec_sessions()[secret.spec_value()]
            },
            self.spec_sessions().contains_key(secret.spec_value()) && now
                >= self.spec_sessions()[secret.spec_value()].spec_expires() ==> r is Expired,
            !self.spec_sessions().contains_key(secret.spec_value()) ==> r is Absent,
    {
        match self.sessions.get(&secret.value()) {
            None => SessionPeek::Absent,
            Some(session) => {
                if session.expired(now) {
                    SessionPeek::Expired
                } else {
                    SessionPeek::Live(arc_clone(session))
                }
            },
        }
    }

    /// Looks a session up at the instant `now`.  A hit on an expired session
    /// evicts it and reports a miss: an expired session is never returned.
    /// A session that is merely absent leaves the map unchanged.
    pub fn session(&mut self, secret: SessionSecret, now: u64) -> (r: Option<Arc<Session<T>>>)
        ensures
            old(self).spec_sessions().contains_key(secret.spec_value())
                && now < old(self).spec_sessions()[secret.spec_value()].spec_expires() ==> {
                &&& r == Some(old(self).spec_sessions()[secret.spec_value()])
                &&& final(self).spec_sessions() == old(self).spec_sessions()
            },
            old(self).spec_sessions().contains_key(secret.spec_value())
                && now >= old(self).spec_sessions()[secret.spec_value()].spec_expires() ==> {
                &&& r is None
                &&& final(self).spec_sessions() == old(self).spec_sessions().remove(
                    secret.spec_value(),
                )
            },
            !old(self).spec_sessions().contains_key(secret.spec_value()) ==> {
                &&& r is None
                &&& final(self).spec_sessions() == old(self).spec_sessions()
            },
    {
        let key = secret.value();
        let found = match self.sessions.get(&key) {
            Some(session) => Some(arc_clone(session)),
            None => None,
        };

        // if the session has expired, remove it and don't return a session
        if let Some(session) = found {
            if session.expired(now) {
                self.sessions.remove(&key);
                None
            } else {
                Some(session)
            }
        } else {
            None
        }
    }

    /// Inserts a session under a freshly drawn random secret, drawing again as
    /// long as the draw collides with a secret already in the map.  The
    /// returned secret is therefore never one that the map already held.
    ///
    /// The chance of a collision among 128-bit random values is negligible,
    /// but no number of random draws is *known* to end the retry loop, so
    /// after a bounded number of draws this falls back to a scan that
    /// provably finds a free value, moving upward from the last draw.  The
    /// fallback is unreachable in practice.
    pub fn new_session(&mut self, session: Session<T>) -> (r: SessionSecret)
        ensures
            !old(self).spec_sessions().contains_key(r.spec_value()),
            final(self).spec_sessions() == old(self).spec_sessions().insert(
                r.spec_value(),
                Arc::new(session),
            ),
    {
        let handle = Arc::new(session);

        let mut secret_val: u128 = rand::random();
        let mut tries: usize = 0;
        while tries < 64 && self.sessions.contains_key(&secret_val)
            invariant
                self.spec_sessions() == old(self).spec_sessions(),
                tries <= 64,
            decreases 64 - tries,
        {
            secret_val = rand::random();
            tries = tries + 1;
        }

        if self.sessions.contains_key(&secret_val) {
            secret_val = first_free_key(&self.sessions, secret_val);
        }

        self.sessions.insert(secret_val, handle);

        SessionSecret::new(secret_val)
    }

    /// Unconditional removal, used by logout.  Returns the removed session.
    pub fn remove_session(&mut self, secret: SessionSecret) -> (r: Option<Arc<Session<T>>>)
        ensures
            final(self).spec_sessions() == old(self).spec_sessions().remove(secret.spec_value()),
            old(self).spec_sessions().contains_key(secret.spec_value()) ==> r == Some(
                old(self).spec_sessions()[secret.spec_value()],
            ),
            !old(self).spec_sessions().contains_key(secret.spec_value()) ==> r is None,
    {
        self.sessions.remove(&secret.value())
    }
}

/// What a shared-access lookup saw.
pub enum SessionPeek<T> {
    /// The session, present and not expired.
    Live(Arc<Session<T>>),
    /// A session is present but expired: it must be evicted under
    /// exclusive access, and the lookup is a miss.
    Expired,
    /// No session is stored under the secret.
    Absent,
}

/// The `i`-th candidate of the fallback scan: `start` moved upward by `i`,
/// wrapping around the top of the key space.
spec fn wrap_candidate(start: u128, i: int) -> u128 {
    vstd::wrapping::u128_specs::wrapping_add(start, i as u128)
}

/// Consecutive candidates are distinct as long as fewer than the whole key
/// space is scanned.
proof fn lemma_wrap_candidate_injective(start: u128, i: int, j: int)
    requires
        0 <= i < j <= u128::MAX,
    ensures
        wrap_candidate(start, i) != wrap_candidate(start, j),
{
}

/// The set of the first `k` candidates of the scan.
spec fn candidate_set(start: u128, k: int) -> Set<u128> {
    Set::new(
        |x: u128| exists|i: int| 0 <= i < k && x == #[trigger] wrap_candidate(start, i),
    )
}

/// The first `k` candidates are `k` distinct values.
proof fn lemma_candidate_set_card(start: u128, k: nat)
    requires
        k <= u128::MAX as nat + 1,
    ensures
        candidate_set(start, k as int).finite(),
        candidate_set(start, k as int).len() == k,
    decreases k,
{
    if k == 0 {
        assert(candidate_set(start, 0) =~= Set::empty());
    } else {
        lemma_candidate_set_card(start, (k - 1) as nat);
        let prev = candidate_set(start, k - 1);
        let last = wrap_candidate(start, k - 1);
        assert(candidate_set(start, k as int) =~= prev.insert(last)) by {
            assert(wrap_candidate(start, k - 1) == last);
        }
        assert(!prev.contains(last)) by {
            if prev.contains(last) {
                let i = choose|i: int|
                    0 <= i < k - 1 && last == #[trigger] wrap_candidate(start, i);
                lemma_wrap_candidate_injective(start, i, k - 1);
            }
        }
    }
}

/// Finds a value that the map does not hold, scanning upward — wrapping —
/// from `start`: among `len + 1` consecutive candidates one must be free,
/// because the map holds only `len` keys.
fn first_free_key<T>(m: &HashMap<u128, Arc<Session<T>>>, start: u128) -> (r: u128)
    ensures
        !m@.contains_key(r),
{
    let n = m.len();
    let mut j: usize = 0;
    while j < n
        invariant
            n == m@.len(),
            forall|k: int|
                0 <= k < j ==> m@.contains_key(#[trigger] wrap_candidate(start, k)),
        decreases n - j,
    {
        let candidate = start.wrapping_add(j as u128);
        if !m.contains_key(&candidate) {
            return candidate;
        }
        j = j + 1;
    }
    let candidate = start.wrapping_add(n as u128);
    if !m.contains_key(&candidate) {
        return candidate;
    }
    proof {
        // all n + 1 candidates turned out to be keys: n + 1 distinct keys
        // in a map of n entries, which is impossible
        let cands = candidate_set(start, n as int + 1);
        lemma_candidate_set_card(start, n as nat + 1);
        assert forall|x: u128| cands.contains(x) implies m@.dom().contains(x) by {
            let i = choose|i: int|
                0 <= i < n + 1 && x == #[trigger] wrap_candidate(start, i);
            assert(m@.contains_key(wrap_candidate(start, i)));
        }
        assert(cands.subset_of(m@.dom()));
        vstd::set_lib::lemma_len_subset(cands, m@.dom());
    }
    0
}

impl<T> Default for SessionManager<T> {
    /// An empty store.
    fn default() -> (r: Self)
        ensures
            r.spec_sessions() == Map::<u128, Arc<Session<T>>>::empty(),
    {
        Self { sessions: HashMap::new() }
    }
}

/// One creation step of the store: the drawn secret was free, and the map
/// grew by exactly that binding.  This is the shape `new_session` ensures.
pub open spec fn creation_step<V>(
    before: Map<u128, V>,
    secret: u128,
    value: V,
    after: Map<u128, V>,
) -> bool {
    &&& !before.contains_key(secret)
    &&& after == before.insert(secret, value)
}

/// Secret uniqueness: over any sequence of session creations, each a
/// `creation_step` from the previous map, no two returned secrets are equal.
pub proof fn lemma_secret_uniqueness<V>(
    maps: Seq<Map<u128, V>>,
    secrets: Seq<u128>,
    values: Seq<V>,
)
    requires
        maps.len() == secrets.len() + 1,
        values.len() == secrets.len(),
        forall|i: int|
            0 <= i < secrets.len() ==> creation_step(
                #[trigger] maps[i],
                secrets[i],
                values[i],
                maps[i + 1],
            ),
    ensures
        forall|i: int, j: int|
            0 <= i < j < secrets.len() ==> secrets[i] != secrets[j],
    decreases secrets.len(),
{
    if secrets.len() > 0 {
        let n = secrets.len() - 1;
        lemma_secret_uniqueness(maps.drop_last(), secrets.drop_last(), values.drop_last());
        // every earlier secret is still a key of the last map, which the
        // final draw avoided
        assert forall|i: int| 0 <= i < n implies maps[n].contains_key(secrets[i]) by {
            lemma_secret_still_present(maps, secrets, values, i, n);
        }
        assert forall|i: int, j: int| 0 <= i < j < secrets.len() implies secrets[i]
            != secrets[j] by {
            if j == n {
                assert(creation_step(maps[n], secrets[n], values[n], maps[n + 1]));
            } else {
                assert(secrets.drop_last()[i] == secrets[i]);
                assert(secrets.drop_last()[j] == secrets[j]);
            }
        }
    }
}

/// A secret inserted at step `i` is still a key of every later map in the
/// chain: creation only ever adds bindings.
proof fn lemma_secret_still_present<V>(
    maps: Seq<Map<u128, V>>,
    secrets: Seq<u128>,
    values: Seq<V>,
    i: int,
    j: int,
)
    requires
        maps.len() == secrets.len() + 1,
        values.len() == secrets.len(),
        forall|k: int|
            0 <= k < secrets.len() ==> creation_step(
                #[trigger] maps[k],
                secrets[k],
                values[k],
                maps[k + 1],
            ),
        0 <= i < j <= secrets.len(),
    ensures
        maps[j].contains_key(secrets[i]),
    decreases j - i,
{
    assert(creation_step(maps[i], secrets[i], values[i], maps[i + 1]));
    if j > i + 1 {
        lemma_secret_still_present(maps, secrets, values, i, j - 1);
        assert(creation_step(maps[j - 1], secrets[j - 1], values[j - 1], maps[j]));
    }
}

/// Lazy eviction shrinks the store: after a lookup of an expired session the
/// map has exactly lost that one binding, so a store-size check sees it gone.
pub proof fn lemma_expired_lookup_shrinks<V>(before: Map<u128, V>, secret: u128)
    requires
        before.contains_key(secret),
        before.dom().finite(),
    ensures
        before.remove(secret).dom().len() == before.dom().len() - 1,
        !before.remove(secret).contains_key(secret),
{
    assert(before.remove(secret).dom() =~= before.dom().remove(secret));
}

} // verus!
