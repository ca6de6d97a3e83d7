//! The status that the balancer reports of itself: the number of players
//! is asked of the servers once in a while and not for every client, and a
//! status that was written out once is kept and served again.

use crate::protocol::{Players, StatusResponse, Version};
use vstd::prelude::*;

verus! {

/// The seconds for which a count of players is served before the servers
/// are asked again.
pub const REFRESH_INTERVAL_SECS: u64 = 15;

/// The name under which the balancer reports its version.
pub const SERVER_NAME: &'static str = "Loadbalancer";

/// The number of players that the balancer reports as its limit.
pub const MAX_PLAYERS: u32 = 1000;

/// What a status is kept under: the message of the day, the protocol
/// version of the client, and the count of players.
pub type StatusKey = (Seq<char>, u32, u32);

/// One status that was written out.
#[derive(Debug)]
struct CacheEntry {
    motd: String,
    protocol: u32,
    count: u32,
    payload: String,
}

/// The statuses that were written out, and the count of players that the
/// next one is written with.
#[derive(Debug)]
pub struct StatusCache {
    count: u32,
    last_updated: Option<u64>,
    cache: Vec<CacheEntry>,
}

/// What a [`StatusCache`] holds.
pub struct StatusCacheView {
    /// The count of players that was recorded last.
    pub count: u32,
    /// The time at which it was recorded, in seconds of the caller's clock;
    /// `None` where none was recorded yet.
    pub last_updated: Option<u64>,
    /// The statuses that were stored, each under its key.
    pub entries: Map<StatusKey, Seq<char>>,
}

/// What the caller is to do for the status of a client.
#[derive(Debug)]
pub enum StatusStep {
    /// The count of players is too old: the servers are to be asked, their
    /// sum recorded, and the status asked for again.
    Refresh,
    /// This is the status, as it was stored.
    Ready(String),
    /// No status is stored for the client: this one is to be written out,
    /// stored and served.
    Render(StatusResponse),
}

/// Whether a count that was recorded at `last_updated` is too old at `now`:
/// none was recorded, or more than fifteen seconds have passed.
pub open spec fn is_stale_at(last_updated: Option<u64>, now: u64) -> bool {
    match last_updated {
        None => true,
        Some(then) => now - then > REFRESH_INTERVAL_SECS,
    }
}

/// The status that is written out for a client: the name of the balancer
/// and the protocol version of the client, the limit and the count of
/// players, the message of the day, no icon, and no demand for signed chat.
pub open spec fn is_status_of(
    response: StatusResponse,
    motd: Seq<char>,
    protocol: u32,
    player_count: u32,
) -> bool {
    &&& response.version matches Some(version) && version.name@ == SERVER_NAME@ && version.protocol
        == protocol
    &&& response.players matches Some(players) && players.max == MAX_PLAYERS && players.online
        == player_count
    &&& response.description@ == motd
    &&& response.favicon is None
    &&& !response.enforce_secure_chat
}

/// Whether `entries[i]` is the first entry under `key`.
spec fn is_first_under(entries: Seq<CacheEntry>, key: StatusKey, i: int) -> bool {
    &&& 0 <= i < entries.len()
    &&& key_of(entries[i]) == key
    &&& forall|j: int| 0 <= j < i ==> key_of(#[trigger] entries[j]) != key
}

/// The key of an entry.
spec fn key_of(entry: CacheEntry) -> StatusKey {
    (entry.motd@, entry.protocol, entry.count)
}

/// Whether an entry stands under `key`.
spec fn has_key(entries: Seq<CacheEntry>, key: StatusKey) -> bool {
    exists|i: int| 0 <= i < entries.len() && key_of(#[trigger] entries[i]) == key
}

/// The place of the first entry under `key`.
spec fn first_under(entries: Seq<CacheEntry>, key: StatusKey) -> int {
    choose|i: int| is_first_under(entries, key, i)
}

/// The statuses of `entries`, each under its key; of several under one key
/// the first.
spec fn stored(entries: Seq<CacheEntry>) -> Map<StatusKey, Seq<char>> {
    Map::new(
        |key: StatusKey| has_key(entries, key),
        |key: StatusKey| entries[first_under(entries, key)].payload@,
    )
}

/// An entry before which none stands under its key is the first under it.
proof fn lemma_first_under(entries: Seq<CacheEntry>, key: StatusKey, i: int)
    requires
        is_first_under(entries, key, i),
    ensures
        has_key(entries, key),
        first_under(entries, key) == i,
{
    let p = first_under(entries, key);
    assert(is_first_under(entries, key, p));
    if p < i {
        assert(key_of(entries[p]) != key);
    } else if i < p {
        assert(key_of(entries[i]) != key);
    }
}

/// Where an entry stands under a key, one is the first under it.
proof fn lemma_has_first(entries: Seq<CacheEntry>, key: StatusKey, i: int)
    requires
        0 <= i < entries.len(),
        key_of(entries[i]) == key,
    ensures
        is_first_under(entries, key, first_under(entries, key)),
        first_under(entries, key) <= i,
    decreases i,
{
    if exists|j: int| 0 <= j < i && key_of(#[trigger] entries[j]) == key {
        let j = choose|j: int| 0 <= j < i && key_of(#[trigger] entries[j]) == key;
        lemma_has_first(entries, key, j);
    } else {
        assert(is_first_under(entries, key, i));
        lemma_first_under(entries, key, i);
    }
}

/// An entry added at the end is found under its key where no entry stood
/// under it, and changes nothing under any other key.
proof fn lemma_stored_push(entries: Seq<CacheEntry>, entry: CacheEntry)
    requires
        !has_key(entries, key_of(entry)),
    ensures
        stored(entries.push(entry)) == stored(entries).insert(key_of(entry), entry.payload@),
{
    let after = entries.push(entry);
    let key = key_of(entry);
    assert forall|k: StatusKey| has_key(after, k) == (has_key(entries, k) || k == key) by {
        if has_key(entries, k) {
            let i = choose|i: int| 0 <= i < entries.len() && key_of(#[trigger] entries[i]) == k;
            assert(key_of(after[i]) == k);
        }
        if k == key {
            assert(key_of(after[entries.len() as int]) == k);
        }
        if has_key(after, k) {
            let i = choose|i: int| 0 <= i < after.len() && key_of(#[trigger] after[i]) == k;
            if i < entries.len() {
                assert(key_of(entries[i]) == k);
            }
        }
    }
    assert forall|k: StatusKey| has_key(after, k) implies #[trigger] stored(after)[k] == stored(
        entries,
    ).insert(key, entry.payload@)[k] by {
        let witness = choose|i: int| 0 <= i < after.len() && key_of(#[trigger] after[i]) == k;
        lemma_has_first(after, k, witness);
        let p = first_under(after, k);
        if p < entries.len() {
            assert(entries[p] == after[p]);
            assert(key_of(entries[p]) == k);
            assert forall|j: int| 0 <= j < p implies key_of(#[trigger] entries[j]) != k by {
                assert(entries[j] == after[j]);
            }
            lemma_first_under(entries, k, p);
        }
    }
    assert(stored(after) =~= stored(entries).insert(key, entry.payload@));
}

impl View for StatusCache {
    type V = StatusCacheView;

    closed spec fn view(&self) -> StatusCacheView {
        StatusCacheView {
            count: self.count,
            last_updated: self.last_updated,
            entries: stored(self.cache@),
        }
    }
}

impl StatusCacheView {
    /// The key under which the status of a client is kept now.
    pub open spec fn key(self, motd: Seq<char>, protocol: u32) -> StatusKey {
        (motd, protocol, self.count)
    }

    /// The cache after `payload` was stored for a client: a status that is
    /// kept stays as it is, and `payload` is kept where none was.
    pub open spec fn store(self, motd: Seq<char>, protocol: u32, payload: Seq<char>) -> StatusCacheView {
        if self.entries.dom().contains(self.key(motd, protocol)) {
            self
        } else {
            StatusCacheView {
                entries: self.entries.insert(self.key(motd, protocol), payload),
                ..self
            }
        }
    }

    /// The cache after the count `count` was recorded at `now`.
    pub open spec fn record(self, count: u32, now: u64) -> StatusCacheView {
        StatusCacheView { count, last_updated: Some(now), ..self }
    }
}

/// A count that was recorded is served for fifteen seconds: at no time
/// within them are the servers asked again.
pub proof fn lemma_fresh_within_interval(cache: StatusCacheView, count: u32, then: u64, now: u64)
    requires
        now <= then + REFRESH_INTERVAL_SECS,
    ensures
        !is_stale_at(cache.record(count, then).last_updated, now),
{
}

/// After more than fifteen seconds the servers are asked again, and once
/// their answer is recorded, they are not asked a second time at that time.
pub proof fn lemma_one_refresh_when_stale(cache: StatusCacheView, count: u32, then: u64, now: u64)
    requires
        cache.last_updated == Some(then),
        now > then + REFRESH_INTERVAL_SECS,
    ensures
        is_stale_at(cache.last_updated, now),
        !is_stale_at(cache.record(count, now).last_updated, now),
{
}

/// A status that was stored for a client is the status that is kept for
/// it, whatever is stored for it or for others afterwards, as long as the
/// count of players is the same.
pub proof fn lemma_stored_status_stays(
    cache: StatusCacheView,
    motd: Seq<char>,
    protocol: u32,
    payload: Seq<char>,
    other_motd: Seq<char>,
    other_protocol: u32,
    other_payload: Seq<char>,
)
    ensures
        ({
            let kept = cache.store(motd, protocol, payload);
            let later = kept.store(other_motd, other_protocol, other_payload);
            &&& kept.entries.dom().contains(kept.key(motd, protocol))
            &&& later.entries.dom().contains(kept.key(motd, protocol))
            &&& later.entries[kept.key(motd, protocol)] == kept.entries[kept.key(motd, protocol)]
            &&& !cache.entries.dom().contains(cache.key(motd, protocol)) ==> kept.entries[kept.key(
                motd,
                protocol,
            )] == payload
        }),
{
}

impl Default for StatusCache {
    fn default() -> (cache: StatusCache)
        ensures
            cache@.count == 0,
            cache@.last_updated is None,
            cache@.entries == Map::<StatusKey, Seq<char>>::empty(),
    {
        StatusCache::new()
    }
}

impl StatusCache {
    /// A cache that holds no status and no count: the first status that is
    /// asked of it has the servers asked.
    pub fn new() -> (cache: StatusCache)
        ensures
            cache@.count == 0,
            cache@.last_updated is None,
            cache@.entries == Map::<StatusKey, Seq<char>>::empty(),
    {
        let cache = StatusCache { count: 0, last_updated: None, cache: Vec::new() };
        assert(cache@.entries =~= Map::<StatusKey, Seq<char>>::empty());
        cache
    }

    /// The count of players that was recorded last.
    pub fn count(&self) -> (count: u32)
        ensures
            count == self@.count,
    {
        self.count
    }

    /// Whether the count of players is too old at `now`.
    pub fn is_stale(&self, now: u64) -> (stale: bool)
        ensures
            stale == is_stale_at(self@.last_updated, now),
    {
        match self.last_updated {
            None => true,
            Some(then) => now > then && now - then > REFRESH_INTERVAL_SECS,
        }
    }

    /// Records the count of players that the servers gave at `now`.
    pub fn record_count(&mut self, count: u32, now: u64)
        ensures
            final(self)@ == old(self)@.record(count, now),
    {
        self.count = count;
        self.last_updated = Some(now);
    }

    /// The status that is written out for a client.
    pub fn build_status_response(motd: String, protocol: u32, player_count: u32) -> (response:
        StatusResponse)
        ensures
            is_status_of(response, motd@, protocol, player_count),
    {
        StatusResponse {
            version: Some(Version { name: SERVER_NAME.to_owned(), protocol }),
            players: Some(Players { max: MAX_PLAYERS, online: player_count }),
            description: motd,
            favicon: None,
            enforce_secure_chat: false,
        }
    }

    /// The place of the entry under the key of a client.
    fn position(&self, motd: &str, protocol: u32) -> (found: Option<usize>)
        ensures
            match found {
                Some(i) => is_first_under(self.cache@, (motd@, protocol, self.count), i as int),
                None => !has_key(self.cache@, (motd@, protocol, self.count)),
            },
    {
        let wanted = motd.to_owned();
        let mut i: usize = 0;
        while i < self.cache.len()
            invariant
                i <= self.cache.len(),
                wanted@ == motd@,
                forall|j: int|
                    0 <= j < i ==> key_of(#[trigger] self.cache@[j]) != (
                        motd@,
                        protocol,
                        self.count,
                    ),
            decreases self.cache.len() - i,
        {
            let entry = &self.cache[i];
            if entry.protocol == protocol && entry.count == self.count && entry.motd == wanted {
                return Some(i);
            }
            i += 1;
        }
        None
    }

    /// What the caller is to do for the status of a client at `now`: have
    /// the servers asked where the count is too old, else serve the status
    /// that is kept for the client, else write one out with the count that
    /// was recorded.
    pub fn get_status_response(&self, motd: &str, protocol: u32, now: u64) -> (step: StatusStep)
        ensures
            match step {
                StatusStep::Refresh => is_stale_at(self@.last_updated, now),
                StatusStep::Ready(payload) => !is_stale_at(self@.last_updated, now)
                    && self@.entries.dom().contains(self@.key(motd@, protocol)) && payload@
                    == self@.entries[self@.key(motd@, protocol)],
                StatusStep::Render(response) => !is_stale_at(self@.last_updated, now)
                    && !self@.entries.dom().contains(self@.key(motd@, protocol)) && is_status_of(
                    response,
                    motd@,
                    protocol,
                    self@.count,
                ),
            },
    {
        if self.is_stale(now) {
            return StatusStep::Refresh;
        }
        match self.position(motd, protocol) {
            Some(i) => {
                proof {
                    lemma_first_under(self.cache@, (motd@, protocol, self.count), i as int);
                }
                StatusStep::Ready(self.cache[i].payload.clone())
            },
            None => StatusStep::Render(
                StatusCache::build_status_response(motd.to_owned(), protocol, self.count),
            ),
        }
    }

    /// Keeps `payload` as the status of a client, for the count that was
    /// recorded last. A status that is kept for the client already stays.
    pub fn store(&mut self, motd: String, protocol: u32, payload: String)
        ensures
            final(self)@ == old(self)@.store(motd@, protocol, payload@),
    {
        match self.position(motd.as_str(), protocol) {
            Some(i) => {
                proof {
                    lemma_first_under(self.cache@, (motd@, protocol, self.count), i as int);
                }
            },
            None => {
                let entry = CacheEntry { motd, protocol, count: self.count, payload };
                proof {
                    lemma_stored_push(self.cache@, entry);
                }
                self.cache.push(entry);
            },
        }
    }
}

} // verus!
