//! Sessions: per-client key/value data that expires after a period without
//! activity, and a manager that creates, finds and discards them.
//!
//! Times are whole nanoseconds on the monotonic clock, counted from a
//! reference instant: the session's own for a session made alone, the
//! manager's for the sessions it creates.
use std::time::Instant;
use vstd::prelude::*;

use crate::clock::{nanos_since, reference_now};
use crate::string_map::StringMap;
use crate::text::string_of;
use crate::TimeSpan;

verus! {

/// A session.
#[derive(Debug)]
pub struct Session {
    pub id: String,
    pub data: StringMap<String>,
    /// The instant from which `created_at` and `last_activity` are counted.
    pub origin: Instant,
    /// Nanoseconds from `origin` to the creation of the session.
    pub created_at: u128,
    /// Nanoseconds from `origin` to the last activity.
    pub last_activity: u128,
    pub ttl: TimeSpan,
}

/// The time from `earlier` to `later`, zero when `later` comes first (as
/// `Instant::duration_since` gives it).
pub open spec fn elapsed_between(earlier: u128, later: u128) -> nat {
    if later >= earlier {
        (later - earlier) as nat
    } else {
        0
    }
}

/// A session whose last activity was at `last` and whose lifetime is `ttl`
/// has expired at `now` when more than `ttl` has passed since.
pub open spec fn expired_at(last: u128, ttl: TimeSpan, now: u128) -> bool {
    elapsed_between(last, now) > ttl.nanos
}

impl Clone for Session {
    fn clone(&self) -> (r: Self)
        ensures
            r.id == self.id,
            r.data@ == self.data@,
            self.data.wf() ==> r.data.wf(),
            r.origin == self.origin,
            r.created_at == self.created_at,
            r.last_activity == self.last_activity,
            r.ttl == self.ttl,
    {
        let data = self.data.clone();
        proof {
            assert forall|i: int| 0 <= i < data.val_seq().len() implies data.val_seq()[i] == self.data.val_seq()[i] by {
                assert(cloned::<String>(self.data.val_seq()[i], data.val_seq()[i]));
            }
            assert(data.val_seq() =~= self.data.val_seq());
            assert(data@ =~= self.data@);
        }
        Session {
            id: self.id.clone(),
            data,
            origin: self.origin,
            created_at: self.created_at,
            last_activity: self.last_activity,
            ttl: self.ttl,
        }
    }
}

/// The sessions of `m` that have not expired at `now`.
pub open spec fn live_at(m: Map<Seq<char>, Session>, now: u128) -> Map<Seq<char>, Session> {
    m.restrict(m.dom().filter(|k: Seq<char>| !expired_at(m[k].last_activity, m[k].ttl, now)))
}

impl Session {
    /// The data map is well formed.
    pub open spec fn wf(&self) -> bool {
        self.data.wf()
    }

    /// A session `id` with no data and lifetime `ttl`, active now.
    pub fn new(id: &str, ttl: TimeSpan) -> (s: Self)
        ensures
            s.wf(),
            s.id@ == id@,
            s.data@ == Map::<Seq<char>, String>::empty(),
            s.created_at == 0,
            s.last_activity == 0,
            s.ttl == ttl,
    {
        let origin = reference_now();
        Session::starting_at(id, ttl, origin, 0)
    }

    /// A session `id` with no data and lifetime `ttl`, created at `now`
    /// nanoseconds after `origin`.
    pub fn starting_at(id: &str, ttl: TimeSpan, origin: Instant, now: u128) -> (s: Self)
        ensures
            s.wf(),
            s.id@ == id@,
            s.data@ == Map::<Seq<char>, String>::empty(),
            s.origin == origin,
            s.created_at == now,
            s.last_activity == now,
            s.ttl == ttl,
    {
        Session {
            id: string_of(id),
            data: StringMap::new(),
            origin,
            created_at: now,
            last_activity: now,
            ttl,
        }
    }

    /// The value stored under `key`.
    pub fn get(&self, key: &str) -> (r: Option<&String>)
        ensures
            r.is_some() == self.data@.contains_key(key@),
            r matches Some(v) ==> *v == self.data@[key@],
    {
        self.data.get(key)
    }

    /// Stores `value` under `key` and marks activity now.
    pub fn set(&mut self, key: &str, value: &str)
        ensures
            final(self).wf(),
            final(self).data@.dom() == old(self).data@.dom().insert(key@),
            final(self).data@[key@]@ == value@,
            forall|k: Seq<char>| k != key@ && #[trigger] old(self).data@.contains_key(k) ==> final(self).data@[k] == old(self).data@[k],
            final(self).id == old(self).id,
            final(self).origin == old(self).origin,
            final(self).created_at == old(self).created_at,
            final(self).ttl == old(self).ttl,
    {
        self.data.insert(string_of(key), string_of(value));
        self.touch();
        proof {
            use_type_invariant(&self.data);
        }
    }

    /// Removes the value under `key`, gives it back, and marks activity now.
    pub fn remove(&mut self, key: &str) -> (r: Option<String>)
        ensures
            final(self).wf(),
            final(self).data@ == old(self).data@.remove(key@),
            r.is_some() == old(self).data@.contains_key(key@),
            r matches Some(v) ==> v == old(self).data@[key@],
            final(self).id == old(self).id,
            final(self).origin == old(self).origin,
            final(self).created_at == old(self).created_at,
            final(self).ttl == old(self).ttl,
    {
        let r = self.data.remove(key);
        self.touch();
        proof {
            use_type_invariant(&self.data);
        }
        r
    }

    /// Marks activity now.
    pub fn touch(&mut self)
        ensures
            *final(self) == (Session { last_activity: final(self).last_activity, ..*old(self) }),
    {
        let now = nanos_since(&self.origin);
        self.touch_at(now);
    }

    /// Marks activity at `now` nanoseconds after the origin.
    pub fn touch_at(&mut self, now: u128)
        ensures
            *final(self) == (Session { last_activity: now, ..*old(self) }),
    {
        self.last_activity = now;
    }

    /// Whether the session has expired now: more than its lifetime has
    /// passed since its last activity.
    pub fn is_expired(&self) -> (b: bool)
        ensures
            exists|t: u128| b == #[trigger] expired_at(self.last_activity, self.ttl, t),
    {
        let now = nanos_since(&self.origin);
        let b = self.is_expired_at(now);
        assert(b == expired_at(self.last_activity, self.ttl, now));
        b
    }

    /// Whether the session has expired at `now` nanoseconds after the origin.
    pub fn is_expired_at(&self, now: u128) -> (b: bool)
        ensures
            b == expired_at(self.last_activity, self.ttl, now),
    {
        let elapsed: u128 = if now >= self.last_activity {
            now - self.last_activity
        } else {
            0
        };
        elapsed > self.ttl.nanos
    }
}

/// The session manager: sessions by id, each with the default lifetime.
pub struct SessionManager {
    sessions: StringMap<Session>,
    default_ttl: TimeSpan,
    origin: Instant,
}

/// The characters that session ids are drawn from.
pub open spec fn id_charset() -> Seq<char> {
    "abcdefghijklmnopqrstuvwxyzABCDEFGHIJKLMNOPQRSTUVWXYZ0123456789"@
}

/// A session id: 32 characters drawn from `id_charset`.
pub open spec fn is_session_id(s: Seq<char>) -> bool {
    s.len() == 32 && forall|i: int| 0 <= i < 32 ==> id_charset().contains(#[trigger] s[i])
}

/// Calls `rand::Rng::gen_range` on the thread-local generator of `rand`
/// with the range `0..bound`. States that the result lies in the range; which
/// number comes is chance.
#[verifier::external_body]
fn random_below(bound: usize) -> (r: usize)
    requires
        bound > 0,
    ensures
        r < bound,
{
    rand::Rng::gen_range(&mut rand::thread_rng(), 0..bound)
}

/// The session id that 32 draws from `0..62` pick: the character of
/// `id_charset` at each draw, in order.
pub fn session_id_from_draws(draws: &Vec<usize>) -> (id: String)
    requires
        draws@.len() == 32,
        forall|j: int| 0 <= j < 32 ==> #[trigger] draws@[j] < 62,
    ensures
        id@.len() == 32,
        forall|j: int| 0 <= j < 32 ==> #[trigger] id@[j] == id_charset()[draws@[j] as int],
{
    let charset = crate::text::chars_of("abcdefghijklmnopqrstuvwxyzABCDEFGHIJKLMNOPQRSTUVWXYZ0123456789");
    proof {
        reveal_strlit("abcdefghijklmnopqrstuvwxyzABCDEFGHIJKLMNOPQRSTUVWXYZ0123456789");
    }
    let mut id = String::new();
    let mut i: usize = 0;
    while i < 32
        invariant
            charset@ == id_charset(),
            charset@.len() == 62,
            draws@.len() == 32,
            forall|j: int| 0 <= j < 32 ==> #[trigger] draws@[j] < 62,
            id@.len() == i,
            i <= 32,
            forall|j: int| 0 <= j < i ==> #[trigger] id@[j] == id_charset()[draws@[j] as int],
        decreases 32 - i,
    {
        let c = charset[draws[i]];
        let ghost before = id@;
        id.push(c);
        proof {
            assert forall|j: int| 0 <= j < i + 1 implies #[trigger] id@[j] == id_charset()[draws@[j] as int] by {
                if j < i {
                    assert(id@[j] == before[j]);
                }
            }
        }
        i = i + 1;
    }
    id
}

impl SessionManager {
    /// The sessions are well formed, each filed under its own id and timed
    /// from the manager's origin.
    pub closed spec fn wf(&self) -> bool {
        &&& self.sessions.wf()
        &&& forall|k: Seq<char>| #[trigger] self.sessions@.contains_key(k) ==> {
            &&& self.sessions@[k].wf()
            &&& self.sessions@[k].id@ == k
            &&& self.sessions@[k].origin == self.origin
        }
    }

    /// The sessions by id.
    pub closed spec fn session_map(&self) -> Map<Seq<char>, Session> {
        self.sessions@
    }

    /// The lifetime given to new sessions.
    pub closed spec fn lifetime(&self) -> TimeSpan {
        self.default_ttl
    }

    /// The instant from which the manager's sessions are timed.
    pub closed spec fn reference(&self) -> Instant {
        self.origin
    }

    /// No sessions; new ones live `default_ttl` after their last activity.
    pub fn new(default_ttl: TimeSpan) -> (m: Self)
        ensures
            m.wf(),
            m.session_map() == Map::<Seq<char>, Session>::empty(),
            m.lifetime() == default_ttl,
    {
        SessionManager { sessions: StringMap::new(), default_ttl, origin: reference_now() }
    }

    /// A fresh random session id.
    fn generate_id(&self) -> (id: String)
        ensures
            is_session_id(id@),
    {
        let mut draws: Vec<usize> = Vec::new();
        let mut i: usize = 0;
        while i < 32
            invariant
                draws@.len() == i,
                i <= 32,
                forall|j: int| 0 <= j < i ==> #[trigger] draws@[j] < 62,
            decreases 32 - i,
        {
            let k = random_below(62);
            draws.push(k);
            i = i + 1;
        }
        let id = session_id_from_draws(&draws);
        proof {
            reveal_strlit("abcdefghijklmnopqrstuvwxyzABCDEFGHIJKLMNOPQRSTUVWXYZ0123456789");
            assert(id_charset().len() == 62);
            assert forall|j: int| 0 <= j < 32 implies id_charset().contains(#[trigger] id@[j]) by {
                assert(id_charset()[draws@[j] as int] == id@[j]);
            }
        }
        id
    }

    /// Creates a session with a fresh random id and the default lifetime,
    /// active now, and gives back its id.
    pub fn create(&mut self) -> (id: String)
        requires
            old(self).wf(),
        ensures
            final(self).wf(),
            is_session_id(id@),
            final(self).lifetime() == old(self).lifetime(),
            final(self).reference() == old(self).reference(),
            final(self).session_map().dom() == old(self).session_map().dom().insert(id@),
            forall|k: Seq<char>| k != id@ && #[trigger] old(self).session_map().contains_key(k)
                ==> final(self).session_map()[k] == old(self).session_map()[k],
            final(self).session_map()[id@].id@ == id@,
            final(self).session_map()[id@].data@ == Map::<Seq<char>, String>::empty(),
            final(self).session_map()[id@].ttl == old(self).lifetime(),
            final(self).session_map()[id@].created_at == final(self).session_map()[id@].last_activity,
    {
        let id = self.generate_id();
        let now = nanos_since(&self.origin);
        let session = Session::starting_at(id.as_str(), self.default_ttl, self.origin, now);
        let key = id.clone();
        self.sessions.insert(key, session);
        id
    }

    /// The session `id` as it stands at `now` nanoseconds after the
    /// manager's origin: an expired one is discarded and gives `None`; a live
    /// one is marked active at `now` and lent out.
    pub fn get_at(&mut self, id: &str, now: u128) -> (r: Option<&mut Session>)
        requires
            old(self).wf(),
        ensures
            !old(self).session_map().contains_key(id@) ==> r is None && final(self).session_map()
                == old(self).session_map(),
            old(self).session_map().contains_key(id@) && expired_at(
                old(self).session_map()[id@].last_activity,
                old(self).session_map()[id@].ttl,
                now,
            ) ==> r is None && final(self).session_map() == old(self).session_map().remove(id@),
            old(self).session_map().contains_key(id@) && !expired_at(
                old(self).session_map()[id@].last_activity,
                old(self).session_map()[id@].ttl,
                now,
            ) ==> (r matches Some(s) && *s == (Session {
                last_activity: now,
                ..old(self).session_map()[id@]
            }) && final(self).session_map() == old(self).session_map().insert(id@, *final(s))
                && (final(s).wf() && final(s).id@ == id@ && final(s).origin == old(self).reference() ==> final(self).wf())),
            r is None ==> final(self).wf(),
            final(self).lifetime() == old(self).lifetime(),
            final(self).reference() == old(self).reference(),
    {
        let expired = match self.sessions.get(id) {
            Some(s) => s.is_expired_at(now),
            None => false,
        };
        if expired {
            self.sessions.remove(id);
            return None;
        }
        match self.sessions.get_mut(id) {
            Some(s) => {
                s.touch_at(now);
                Some(s)
            },
            None => None,
        }
    }

    /// The session `id` as it stands now: an expired one is discarded and
    /// gives `None`; a live one is marked active and lent out.
    pub fn get(&mut self, id: &str) -> (r: Option<&mut Session>)
        requires
            old(self).wf(),
        ensures
            !old(self).session_map().contains_key(id@) ==> r is None && final(self).session_map()
                == old(self).session_map(),
            old(self).session_map().contains_key(id@) && r is None ==> final(self).session_map()
                == old(self).session_map().remove(id@),
            r matches Some(s) ==> old(self).session_map().contains_key(id@) && *s == (Session {
                last_activity: s.last_activity,
                ..old(self).session_map()[id@]
            }) && final(self).session_map() == old(self).session_map().insert(id@, *final(s))
                && (final(s).wf() && final(s).id@ == id@ && final(s).origin == old(self).reference() ==> final(self).wf()),
            r is None ==> final(self).wf(),
            old(self).session_map().contains_key(id@) ==> exists|t: u128|
                (r is None <==> #[trigger] expired_at(
                    old(self).session_map()[id@].last_activity,
                    old(self).session_map()[id@].ttl,
                    t,
                )) && (r matches Some(s) ==> s.last_activity == t),
            final(self).lifetime() == old(self).lifetime(),
            final(self).reference() == old(self).reference(),
    {
        let now = nanos_since(&self.origin);
        let r = self.get_at(id, now);
        proof {
            if old(self).session_map().contains_key(id@) {
                assert(r is None <==> expired_at(
                    old(self).session_map()[id@].last_activity,
                    old(self).session_map()[id@].ttl,
                    now,
                ));
            }
        }
        r
    }

    /// Discards the session `id`.
    pub fn destroy(&mut self, id: &str)
        requires
            old(self).wf(),
        ensures
            final(self).wf(),
            final(self).session_map() == old(self).session_map().remove(id@),
            final(self).lifetime() == old(self).lifetime(),
            final(self).reference() == old(self).reference(),
    {
        self.sessions.remove(id);
    }

    /// Discards every session that has expired at `now` nanoseconds after the
    /// manager's origin; the others stay as they are.
    pub fn cleanup_at(&mut self, now: u128)
        requires
            old(self).wf(),
        ensures
            final(self).wf(),
            final(self).session_map() == live_at(old(self).session_map(), now),
            final(self).lifetime() == old(self).lifetime(),
            final(self).reference() == old(self).reference(),
    {
        let ghost old_map = self.sessions@;
        let n = self.sessions.len();
        let mut expired: Vec<String> = Vec::new();
        let mut i: usize = 0;
        proof {
            self.sessions.lemma_wf_facts();
        }
        while i < n
            invariant
                self.sessions.wf(),
                self.sessions@ == old_map,
                *self == *old(self),
                n == self.sessions.spec_len(),
                0 <= i <= n,
                forall|j: int| 0 <= j < expired@.len() ==> #[trigger] old_map.contains_key(expired@[j]@)
                    && expired_at(old_map[expired@[j]@].last_activity, old_map[expired@[j]@].ttl, now),
                forall|j: int| 0 <= j < i ==> expired_at(
                    old_map[#[trigger] self.sessions.key_seq()[j]].last_activity,
                    old_map[self.sessions.key_seq()[j]].ttl,
                    now,
                ) ==> exists|q: int| 0 <= q < expired@.len() && expired@[q]@ == self.sessions.key_seq()[j],
            decreases n - i,
        {
            proof {
                self.sessions.lemma_wf_facts();
            }
            let s = self.sessions.value_at(i);
            if s.is_expired_at(now) {
                let k = self.sessions.key_at(i).clone();
                let ghost before = expired@;
                expired.push(k);
                proof {
                    assert(expired@[before.len() as int]@ == self.sessions.key_seq()[i as int]);
                    assert forall|j: int| 0 <= j < i && expired_at(
                        old_map[#[trigger] self.sessions.key_seq()[j]].last_activity,
                        old_map[self.sessions.key_seq()[j]].ttl,
                        now,
                    ) implies exists|q: int| 0 <= q < expired@.len() && expired@[q]@ == self.sessions.key_seq()[j] by {
                        let q = choose|q: int| 0 <= q < before.len() && before[q]@ == self.sessions.key_seq()[j];
                        assert(expired@[q] == before[q]);
                    }
                }
            }
            i = i + 1;
        }
        let ghost keep = old_map.dom().filter(
            |k: Seq<char>| !expired_at(old_map[k].last_activity, old_map[k].ttl, now),
        );
        let mut j: usize = 0;
        while j < expired.len()
            invariant
                self.sessions.wf(),
                self.origin == old(self).origin,
                self.default_ttl == old(self).default_ttl,
                old(self).wf(),
                old_map == old(self).sessions@,
                0 <= j <= expired@.len(),
                forall|q: int| 0 <= q < expired@.len() ==> #[trigger] old_map.contains_key(expired@[q]@)
                    && expired_at(old_map[expired@[q]@].last_activity, old_map[expired@[q]@].ttl, now),
                self.sessions@.dom().subset_of(old_map.dom()),
                keep == old_map.dom().filter(
                    |k: Seq<char>| !expired_at(old_map[k].last_activity, old_map[k].ttl, now),
                ),
                keep.subset_of(self.sessions@.dom()),
                forall|k: Seq<char>| #[trigger] self.sessions@.contains_key(k) ==> self.sessions@[k] == old_map[k],
                forall|q: int| 0 <= q < j ==> !self.sessions@.contains_key(#[trigger] expired@[q]@),
                forall|x: int| 0 <= x < n ==> expired_at(
                    old_map[#[trigger] old(self).sessions.key_seq()[x]].last_activity,
                    old_map[old(self).sessions.key_seq()[x]].ttl,
                    now,
                ) ==> exists|q: int| 0 <= q < expired@.len() && expired@[q]@ == old(self).sessions.key_seq()[x],
                n == old(self).sessions.spec_len(),
            decreases expired@.len() - j,
        {
            let ghost before = self.sessions@;
            self.sessions.remove(expired[j].as_str());
            proof {
                let k = expired@[j as int]@;
                assert(old_map.contains_key(k));
                assert(!keep.contains(k));
                assert forall|x: Seq<char>| keep.contains(x) implies self.sessions@.contains_key(x) by {
                    assert(before.contains_key(x));
                }
            }
            j = j + 1;
        }
        proof {
            assert forall|k: Seq<char>| self.sessions@.contains_key(k) <==> keep.contains(k) by {
                if self.sessions@.contains_key(k) && !keep.contains(k) {
                    let idx = old(self).sessions.key_seq().index_of(k);
                    old(self).sessions.lemma_wf_facts();
                    assert(old(self).sessions.key_seq()[idx] == k);
                    let q = choose|q: int| 0 <= q < expired@.len() && expired@[q]@ == old(self).sessions.key_seq()[idx];
                    assert(!self.sessions@.contains_key(expired@[q]@));
                }
            }
            assert(self.sessions@ =~= old_map.restrict(keep));
            assert(keep == old_map.dom().filter(|k: Seq<char>| !expired_at(old_map[k].last_activity, old_map[k].ttl, now)));
        }
    }

    /// Discards every session that has expired now; the others stay as they
    /// are.
    pub fn cleanup(&mut self)
        requires
            old(self).wf(),
        ensures
            final(self).wf(),
            exists|t: u128| final(self).session_map() == #[trigger] live_at(old(self).session_map(), t),
            final(self).lifetime() == old(self).lifetime(),
            final(self).reference() == old(self).reference(),
    {
        let now = nanos_since(&self.origin);
        self.cleanup_at(now);
    }

    /// The number of active sessions: those not expired now.
    pub fn count(&self) -> (n: usize)
        requires
            self.wf(),
        ensures
            exists|t: u128| n == #[trigger] live_at(self.session_map(), t).len(),
    {
        let now = nanos_since(&self.origin);
        self.count_at(now)
    }

    /// The number of sessions not expired at `now` nanoseconds after the
    /// manager's origin.
    pub fn count_at(&self, now: u128) -> (n: usize)
        requires
            self.wf(),
        ensures
            n == live_at(self.session_map(), now).len(),
    {
        proof {
            self.sessions.lemma_wf_facts();
        }
        let ghost m = self.sessions@;
        let ghost ks = self.sessions.key_seq();
        let ghost mut found: Set<Seq<char>> = Set::empty();
        let total = self.sessions.len();
        let mut n: usize = 0;
        let mut i: usize = 0;
        while i < total
            invariant
                self.sessions.wf(),
                m == self.sessions@,
                ks == self.sessions.key_seq(),
                ks.no_duplicates(),
                total == ks.len(),
                0 <= i <= total,
                n <= i,
                found.finite(),
                found.len() == n,
                forall|k: Seq<char>| #[trigger] found.contains(k) <==> (ks.take(i as int).contains(k)
                    && !expired_at(m[k].last_activity, m[k].ttl, now)),
            decreases total - i,
        {
            proof {
                self.sessions.lemma_wf_facts();
            }
            let ghost old_found = found;
            let ghost key = ks[i as int];
            let s = self.sessions.value_at(i);
            let expired = s.is_expired_at(now);
            proof {
                assert(*s == m[key]);
                assert(expired == expired_at(m[key].last_activity, m[key].ttl, now));
                assert(!ks.take(i as int).contains(key)) by {
                    if ks.take(i as int).contains(key) {
                        let j = choose|j: int| 0 <= j < i && #[trigger] ks.take(i as int)[j] == key;
                        assert(ks[j] == key);
                    }
                }
            }
            if !expired {
                proof {
                    found = found.insert(key);
                }
                n = n + 1;
            }
            proof {
                assert forall|k: Seq<char>| #[trigger] found.contains(k) <==> (ks.take(i + 1).contains(k)
                    && !expired_at(m[k].last_activity, m[k].ttl, now)) by {
                    assert(ks.take(i + 1) =~= ks.take(i as int).push(key));
                    if k != key {
                        assert(ks.take(i + 1).contains(k) == ks.take(i as int).contains(k)) by {
                            if ks.take(i + 1).contains(k) {
                                let j = choose|j: int| 0 <= j < i + 1 && #[trigger] ks.take(i + 1)[j] == k;
                                assert(ks.take(i as int)[j] == k);
                            }
                            if ks.take(i as int).contains(k) {
                                let j = choose|j: int| 0 <= j < i && #[trigger] ks.take(i as int)[j] == k;
                                assert(ks.take(i + 1)[j] == k);
                            }
                        }
                    } else {
                        assert(ks.take(i + 1)[i as int] == k);
                    }
                }
            }
            i = i + 1;
        }
        proof {
            assert(ks.take(total as int) =~= ks);
            let d = live_at(m, now).dom();
            assert forall|k: Seq<char>| d.contains(k) <==> found.contains(k) by {
                if found.contains(k) {
                    assert(m.contains_key(k));
                }
            }
            assert(d =~= found);
        }
        n
    }

    /// The sessions held are finitely many.
    pub proof fn lemma_finite(&self)
        requires
            self.wf(),
        ensures
            self.session_map().dom().finite(),
    {
        self.sessions.lemma_wf_facts();
    }
}

/// Destroying a session takes one session out of the count of those held
/// when it was there, and none otherwise.
pub proof fn law_destroy_count(before: SessionManager, after: SessionManager, id: Seq<char>)
    requires
        before.wf(),
        after.session_map() == before.session_map().remove(id),
    ensures
        before.session_map().contains_key(id) ==> after.session_map().len() == before.session_map().len() - 1,
        !before.session_map().contains_key(id) ==> after.session_map().len() == before.session_map().len(),
{
    before.lemma_finite();
    if !before.session_map().contains_key(id) {
        assert(after.session_map() =~= before.session_map());
    }
}

/// A session is live at the moment of its last activity, whatever its
/// lifetime; and once it has expired it stays expired as time goes on, until
/// it is touched again.
pub proof fn law_expiry_is_lasting(last: u128, ttl: TimeSpan, t1: u128, t2: u128)
    ensures
        !expired_at(last, ttl, last),
        t1 <= t2 && expired_at(last, ttl, t1) ==> expired_at(last, ttl, t2),
{
}

/// After a clean-up at `now`, no session that remains has expired at `now`,
/// and every session that had not expired remains.
pub proof fn law_cleanup_leaves_only_live(before: SessionManager, after: SessionManager, now: u128)
    requires
        after.session_map() == live_at(before.session_map(), now),
    ensures
        forall|k: Seq<char>| #[trigger] after.session_map().contains_key(k) ==> !expired_at(
            after.session_map()[k].last_activity,
            after.session_map()[k].ttl,
            now,
        ),
        forall|k: Seq<char>| #[trigger] before.session_map().contains_key(k) && !expired_at(
            before.session_map()[k].last_activity,
            before.session_map()[k].ttl,
            now,
        ) ==> after.session_map().contains_key(k),
{
}

/// Creating a session adds one to the count unless its random id was
/// already in use.
pub proof fn law_create_count(before: SessionManager, after: SessionManager, id: Seq<char>)
    requires
        before.wf(),
        after.wf(),
        after.session_map().dom() == before.session_map().dom().insert(id),
    ensures
        !before.session_map().contains_key(id) ==> after.session_map().len() == before.session_map().len() + 1,
{
    before.sessions.lemma_wf_facts();
    after.sessions.lemma_wf_facts();
}

} // verus!
