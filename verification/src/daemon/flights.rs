//! The per-user authentication flight registry: at most one broadcast per
//! user at a time, shared by the PAM channel and the fprintd bridge.
//!
//! A PAM request during a PAM flight is a duplicate only within one second
//! of that flight's start; any other overlap (PAM during fprintd, fprintd
//! during anything) is always a duplicate. Flights that were never finished
//! are purged after five minutes. Times are milliseconds on a monotonic
//! clock supplied by the caller.
use crate::string_map::StringMap;
use vstd::prelude::*;

verus! {

/// Which channel started a broadcast.
#[derive(Debug, Clone, Copy, PartialEq, Eq)]
pub enum FlightChannel {
    Pam,
    Fprintd,
}

/// An authentication broadcast in flight.
#[derive(Debug, Clone, Copy, PartialEq, Eq)]
pub struct AuthFlight {
    pub channel: FlightChannel,
    pub started_ms: u64,
}

impl View for AuthFlight {
    type V = AuthFlight;

    open spec fn view(&self) -> AuthFlight {
        *self
    }
}

/// Longest life of an unfinished flight, in milliseconds.
pub const MAX_FLIGHT_MS: u64 = 300_000;

/// The PAM-during-PAM deduplication window, in milliseconds.
pub const PAM_DEDUP_WINDOW_MS: u64 = 1000;

/// Milliseconds from `started` to `now` (zero if `now` is earlier).
pub open spec fn spec_age(started: u64, now: u64) -> nat {
    if now >= started {
        (now - started) as nat
    } else {
        0
    }
}

/// Whether a flight is young enough to be kept.
pub open spec fn spec_fresh(f: AuthFlight, now: u64) -> bool {
    spec_age(f.started_ms, now) < MAX_FLIGHT_MS
}

/// The registry without its stale flights.
pub open spec fn spec_purged(m: Map<Seq<char>, AuthFlight>, now: u64) -> Map<Seq<char>, AuthFlight> {
    Map::new(|k: Seq<char>| m.contains_key(k) && spec_fresh(m[k], now), |k: Seq<char>| m[k])
}

/// Whether a request on `incoming` for `user` is a latecomer to the user's
/// flight in `m`.
pub open spec fn spec_is_duplicate(
    m: Map<Seq<char>, AuthFlight>,
    user: Seq<char>,
    incoming: FlightChannel,
    now: u64,
) -> bool {
    m.contains_key(user) && match (m[user].channel, incoming) {
        (FlightChannel::Pam, FlightChannel::Pam) => spec_age(m[user].started_ms, now)
            < PAM_DEDUP_WINDOW_MS,
        _ => true,
    }
}

/// The flights in progress, by user name.
pub struct AuthFlights {
    flights: StringMap<AuthFlight>,
}

impl View for AuthFlights {
    type V = Map<Seq<char>, AuthFlight>;

    closed spec fn view(&self) -> Map<Seq<char>, AuthFlight> {
        self.flights@
    }
}

fn age(started: u64, now: u64) -> (r: u64)
    ensures
        r == spec_age(started, now),
{
    if now >= started {
        now - started
    } else {
        0
    }
}

impl AuthFlights {
    /// No flights.
    pub fn new() -> (r: Self)
        ensures
            r@ == Map::<Seq<char>, AuthFlight>::empty(),
    {
        AuthFlights { flights: StringMap::new() }
    }

    /// Drops the flights that started too long ago without being finished.
    pub fn purge_stale_flights(&mut self, now_ms: u64)
        ensures
            final(self)@ == spec_purged(old(self)@, now_ms),
    {
        let ghost old_view = self@;
        let mut kept: StringMap<AuthFlight> = StringMap::new();
        let entries = self.flights.entries();
        let mut i: usize = 0;
        while i < entries.len()
            invariant
                i <= entries@.len(),
                entries@.len() == old_view.len(),
                old_view == self.flights@,
                forall|j: int|
                    0 <= j < entries@.len() ==> old_view.contains_key(#[trigger] entries@[j].0@)
                        && old_view[entries@[j].0@] == entries@[j].1@,
                forall|k: Seq<char>| #[trigger] old_view.contains_key(k) ==> entry_ids_of(entries@).contains(k),
                entry_ids_of(entries@).no_duplicates(),
                kept@ == spec_purged_among(old_view, now_ms, entry_ids_of(entries@.take(i as int))),
            decreases entries@.len() - i,
        {
            let ghost before = kept@;
            let (name, flight) = &entries[i];
            let ghost key = name@;
            proof {
                assert(entry_ids_of(entries@.take(i + 1)) =~= entry_ids_of(entries@.take(i as int)).push(key));
                assert(old_view.contains_key(entries@[i as int].0@));
                assert(old_view[key] == *flight);
            }
            if age(flight.started_ms, now_ms) < MAX_FLIGHT_MS {
                kept.insert(name.clone(), *flight);
            }
            proof {
                let ids = entry_ids_of(entries@.take(i as int));
                assert forall|k: Seq<char>| #[trigger] ids.push(key).contains(k) <==> (ids.contains(k)
                    || k == key) by {
                    lemma_push_contains(ids, key, k);
                }
                assert(kept@ =~= spec_purged_among(old_view, now_ms, entry_ids_of(entries@.take(i + 1))));
            }
            i = i + 1;
        }
        proof {
            assert(entries@.take(entries@.len() as int) =~= entries@);
            assert(kept@ =~= spec_purged(old_view, now_ms));
        }
        self.flights = kept;
    }

    /// Whether a request for `username` on `incoming` is a latecomer to an
    /// active flight for that user; purges stale flights first.
    pub fn auth_flight_is_duplicate(&mut self, username: &str, incoming: FlightChannel, now_ms: u64) -> (r: bool)
        ensures
            final(self)@ == spec_purged(old(self)@, now_ms),
            r == spec_is_duplicate(spec_purged(old(self)@, now_ms), username@, incoming, now_ms),
    {
        self.purge_stale_flights(now_ms);
        match self.flights.get(username) {
            Some(flight) => match (flight.channel, incoming) {
                (FlightChannel::Pam, FlightChannel::Pam) => age(flight.started_ms, now_ms)
                    < PAM_DEDUP_WINDOW_MS,
                _ => true,
            },
            None => false,
        }
    }

    /// Records the start of a broadcast for `username`.
    pub fn auth_flight_start(&mut self, username: &str, channel: FlightChannel, now_ms: u64)
        ensures
            final(self)@ == old(self)@.insert(
                username@,
                AuthFlight { channel, started_ms: now_ms },
            ),
    {
        self.flights.insert(username.to_owned(), AuthFlight { channel, started_ms: now_ms });
    }

    /// Marks the authentication for `username` as finished, whatever its
    /// outcome, freeing the user's slot.
    pub fn auth_flight_finish(&mut self, username: &str)
        ensures
            final(self)@ == old(self)@.remove(username@),
    {
        let _ = self.flights.remove(username);
    }
}

/// The fresh flights of `m` whose users are among `users`.
pub open spec fn spec_purged_among(m: Map<Seq<char>, AuthFlight>, now: u64, users: Seq<Seq<char>>) -> Map<Seq<char>, AuthFlight> {
    Map::new(|k: Seq<char>| m.contains_key(k) && spec_fresh(m[k], now) && users.contains(k), |k: Seq<char>| m[k])
}

proof fn lemma_push_contains<A>(s: Seq<A>, x: A, y: A)
    ensures
        s.push(x).contains(y) <==> (s.contains(y) || y == x),
{
    if s.contains(y) {
        let i = choose|i: int| 0 <= i < s.len() && s[i] == y;
        assert(s.push(x)[i] == y);
    }
    if y == x {
        assert(s.push(x)[s.len() as int] == x);
    }
    if s.push(x).contains(y) {
        let i = choose|i: int| 0 <= i < s.push(x).len() && s.push(x)[i] == y;
        if i < s.len() {
            assert(s[i] == y);
        }
    }
}

/// The keys of a list of flight entries.
pub open spec fn entry_ids_of(entries: Seq<(String, AuthFlight)>) -> Seq<Seq<char>> {
    crate::string_map::entry_ids(entries)
}

/// A finished flight never makes a later request a duplicate, on either
/// channel.
pub proof fn lemma_finish_frees_slot(m: Map<Seq<char>, AuthFlight>, user: Seq<char>, incoming: FlightChannel, now: u64)
    ensures
        !spec_is_duplicate(spec_purged(m.remove(user), now), user, incoming, now),
{
}

/// Flights of other users do not affect whether a request is a duplicate.
pub proof fn lemma_users_independent(
    m: Map<Seq<char>, AuthFlight>,
    other: Seq<char>,
    f: AuthFlight,
    user: Seq<char>,
    incoming: FlightChannel,
    now: u64,
)
    requires
        other != user,
    ensures
        spec_is_duplicate(spec_purged(m.insert(other, f), now), user, incoming, now)
            == spec_is_duplicate(spec_purged(m, now), user, incoming, now),
{
}

/// A fresh fprintd flight makes every request a duplicate, and any fresh
/// flight makes an fprintd request a duplicate, whatever their ages.
pub proof fn lemma_fprintd_always_exclusive(
    m: Map<Seq<char>, AuthFlight>,
    user: Seq<char>,
    incoming: FlightChannel,
    now: u64,
)
    requires
        m.contains_key(user),
        spec_fresh(m[user], now),
        m[user].channel == FlightChannel::Fprintd || incoming == FlightChannel::Fprintd,
    ensures
        spec_is_duplicate(spec_purged(m, now), user, incoming, now),
{
}

/// A PAM request during a fresh PAM flight is a duplicate exactly within
/// the deduplication window.
pub proof fn lemma_pam_window(m: Map<Seq<char>, AuthFlight>, user: Seq<char>, now: u64)
    requires
        m.contains_key(user),
        spec_fresh(m[user], now),
        m[user].channel == FlightChannel::Pam,
    ensures
        spec_is_duplicate(spec_purged(m, now), user, FlightChannel::Pam, now) == (spec_age(
            m[user].started_ms,
            now,
        ) < PAM_DEDUP_WINDOW_MS),
{
}

/// A flight left unfinished for the full lifetime is purged and blocks
/// nothing.
pub proof fn lemma_stale_flight_purged(m: Map<Seq<char>, AuthFlight>, user: Seq<char>, incoming: FlightChannel, now: u64)
    requires
        m.contains_key(user),
        !spec_fresh(m[user], now),
    ensures
        !spec_is_duplicate(spec_purged(m, now), user, incoming, now),
{
}

} // verus!
