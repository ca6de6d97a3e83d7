//! The choice of a server for a new session: in turn from a fixed list, by
//! the lowest number of players, or by the region of the client. What the
//! choice needs from outside, the counts that the servers report or the
//! location of the client, is gathered by the caller and handed in.

use crate::backend::MinecraftServer;
use crate::config::{Algorithm, Config, GeoConfig, Mode, StaticConfig};
use crate::geo_api::IpInfo;
use crate::region_table::{
    distinct_codes, has_code, lemma_add, lemma_replace, position_of, table_of, RegionTable,
};
use vstd::prelude::*;

verus! {

/// How many servers of a fixed list are asked for their count at a time.
pub const STATIC_PROBE_WINDOW: usize = 5;

/// How many servers of the regions are asked for their count at a time.
pub const GEO_PROBE_WINDOW: usize = 8;

/// The seconds that a server has to report its count.
pub const PROBE_TIMEOUT_SECS: u64 = 5;

/// Why no server was found.
#[derive(Debug, Clone, Copy, PartialEq, Eq, Structural)]
pub enum FinderError {
    /// There is no server to choose from.
    NoServers,
    /// The mode is `static` and the settings have no section for it.
    MissingStaticSection,
    /// The mode is `geo` and the settings have no section for it.
    MissingGeoSection,
    /// The mode is `http`, which no finder serves.
    HttpUnsupported,
}

/// The servers to ask for their count, and how to ask them.
#[derive(Debug)]
pub struct ProbePlan {
    /// The servers, in the order in which their answers are expected.
    pub targets: Vec<MinecraftServer>,
    /// How many of them are asked at a time, at most.
    pub window: usize,
    /// The seconds after which a server counts as silent.
    pub timeout_secs: u64,
}

/// The players that one answer adds to the sum: the count of a server that
/// answered, nothing for one that did not.
pub open spec fn counted(result: Option<u32>) -> nat {
    match result {
        Some(count) => count as nat,
        None => 0,
    }
}

/// The counts of the servers that answered, added up.
pub open spec fn sum_counts(results: Seq<Option<u32>>) -> nat
    decreases results.len(),
{
    if results.len() == 0 {
        0
    } else {
        sum_counts(results.drop_last()) + counted(results.last())
    }
}

/// The sum of the first answers is no more than the sum of all.
pub proof fn lemma_sum_counts_grows(results: Seq<Option<u32>>, k: int)
    requires
        0 <= k <= results.len(),
    ensures
        sum_counts(results.take(k)) <= sum_counts(results),
    decreases results.len() - k,
{
    if k < results.len() {
        assert(results.take(k + 1).drop_last() == results.take(k));
        lemma_sum_counts_grows(results, k + 1);
    } else {
        assert(results.take(k) == results);
    }
}

/// Adds up the counts of the servers that answered. A server that did not
/// answer adds nothing. There is no result where the sum is more than a
/// count can hold.
pub fn total_player_count(results: &Vec<Option<u32>>) -> (total: Option<u32>)
    ensures
        total == if sum_counts(results@) <= u32::MAX {
            Some(sum_counts(results@) as u32)
        } else {
            None
        },
{
    let mut sum: u64 = 0;
    let mut i: usize = 0;
    while i < results.len()
        invariant
            i <= results.len(),
            sum == sum_counts(results@.take(i as int)),
            sum <= u32::MAX,
        decreases results.len() - i,
    {
        proof {
            assert(results@.take(i + 1).drop_last() == results@.take(i as int));
        }
        match results[i] {
            Some(count) => {
                sum = sum + count as u64;
            },
            None => {},
        }
        if sum > 0xffff_ffff {
            proof {
                lemma_sum_counts_grows(results@, i + 1);
            }
            return None;
        }
        i += 1;
    }
    assert(results@.take(i as int) == results@);
    Some(sum as u32)
}

/// The score of server `i`: the count it reported, or the worst count
/// there is where it reported none.
pub open spec fn score(results: Seq<Option<u32>>, i: int) -> u32 {
    if 0 <= i < results.len() {
        match results[i] {
            Some(count) => count,
            None => u32::MAX,
        }
    } else {
        u32::MAX
    }
}

/// Whether server `i` is the choice among the first `n` servers: none of
/// them has a lower score, and each one before it has a higher one.
pub open spec fn is_lowest(results: Seq<Option<u32>>, n: int, i: int) -> bool {
    &&& 0 <= i < n
    &&& forall|j: int| 0 <= j < n ==> score(results, i) <= #[trigger] score(results, j)
    &&& forall|j: int| 0 <= j < i ==> score(results, i) < #[trigger] score(results, j)
}

/// Only one server is the choice.
pub proof fn lemma_lowest_unique(results: Seq<Option<u32>>, n: int, i: int, j: int)
    requires
        is_lowest(results, n, i),
        is_lowest(results, n, j),
    ensures
        i == j,
{
    if i < j {
        assert(score(results, j) < score(results, i));
        assert(score(results, i) <= score(results, j));
    } else if j < i {
        assert(score(results, i) < score(results, j));
        assert(score(results, j) <= score(results, i));
    }
}

/// The position of the choice among the first `n` servers.
pub open spec fn lowest_position(results: Seq<Option<u32>>, n: int) -> int {
    choose|i: int| is_lowest(results, n, i)
}

/// The score of server `i`.
fn score_at(results: &Vec<Option<u32>>, i: usize) -> (s: u32)
    ensures
        s == score(results@, i as int),
{
    if i < results.len() {
        match results[i] {
            Some(count) => count,
            None => u32::MAX,
        }
    } else {
        u32::MAX
    }
}

/// The position of the server with the lowest score among the first `n`;
/// of several with that score, the first.
pub fn lowest_index(results: &Vec<Option<u32>>, n: usize) -> (best: usize)
    requires
        n > 0,
    ensures
        is_lowest(results@, n as int, best as int),
        best == lowest_position(results@, n as int),
{
    let mut best: usize = 0;
    let mut best_score: u32 = score_at(results, 0);
    let mut i: usize = 1;
    while i < n
        invariant
            1 <= i <= n,
            best < i,
            best_score == score(results@, best as int),
            forall|j: int| 0 <= j < i ==> best_score <= #[trigger] score(results@, j),
            forall|j: int| 0 <= j < best ==> best_score < #[trigger] score(results@, j),
        decreases n - i,
    {
        let s = score_at(results, i);
        if s < best_score {
            best = i;
            best_score = s;
        }
        i += 1;
    }
    proof {
        lemma_lowest_unique(results@, n as int, best as int, lowest_position(results@, n as int));
    }
    best
}

/// The cursor after one call: one further, and back to the first server
/// after the last.
pub open spec fn next_cursor(cursor: int, n: int) -> int {
    if cursor + 1 >= n {
        0
    } else {
        cursor + 1
    }
}

/// The cursor after `calls` calls.
pub open spec fn cursor_after(cursor: int, n: int, calls: nat) -> int
    decreases calls,
{
    if calls == 0 {
        cursor
    } else {
        next_cursor(cursor_after(cursor, n, (calls - 1) as nat), n)
    }
}

/// Whether one of the next `n` calls chooses `server`.
pub open spec fn is_visited(cursor: int, n: int, server: int) -> bool {
    exists|calls: nat| 1 <= calls <= n && #[trigger] cursor_after(cursor, n, calls) == server
}

/// Within one round the cursor walks on from where it stood and wraps once.
pub proof fn lemma_cursor_within_round(cursor: int, n: int, calls: nat)
    requires
        0 <= cursor < n,
        calls <= n,
    ensures
        cursor_after(cursor, n, calls) == if cursor + calls < n {
            cursor + calls
        } else {
            cursor + calls - n
        },
    decreases calls,
{
    if calls > 0 {
        lemma_cursor_within_round(cursor, n, (calls - 1) as nat);
    }
}

/// Calls made one after the other add up.
pub proof fn lemma_cursor_after_sum(cursor: int, n: int, first: nat, then: nat)
    ensures
        cursor_after(cursor, n, first + then) == cursor_after(
            cursor_after(cursor, n, first),
            n,
            then,
        ),
    decreases then,
{
    if then > 0 {
        lemma_cursor_after_sum(cursor, n, first, (then - 1) as nat);
        assert((first + then - 1) as nat == first + (then - 1) as nat);
    }
}

/// Choosing in turn visits every server once in every round of as many
/// calls as there are servers: no server is chosen twice in a round, every
/// server is chosen in it, the next round starts where this one did and so
/// repeats its order, and with more than one server no call repeats the
/// choice of the call before.
pub proof fn lemma_round_robin_cycle(cursor: int, n: int)
    requires
        0 <= cursor < n,
    ensures
        forall|a: nat, b: nat|
            1 <= a < b <= n ==> #[trigger] cursor_after(cursor, n, a) != #[trigger] cursor_after(
                cursor,
                n,
                b,
            ),
        forall|server: int| 0 <= server < n ==> #[trigger] is_visited(cursor, n, server),
        forall|calls: nat| 0 <= #[trigger] cursor_after(cursor, n, calls) < n,
        forall|calls: nat| #[trigger]
            cursor_after(cursor, n, calls + n as nat) == cursor_after(cursor, n, calls),
        n > 1 ==> forall|calls: nat| #[trigger]
            cursor_after(cursor, n, calls + 1) != cursor_after(cursor, n, calls),
{
    assert forall|a: nat, b: nat| 1 <= a < b <= n implies #[trigger] cursor_after(cursor, n, a)
        != #[trigger] cursor_after(cursor, n, b) by {
        lemma_cursor_within_round(cursor, n, a);
        lemma_cursor_within_round(cursor, n, b);
    }
    assert forall|server: int| 0 <= server < n implies #[trigger] is_visited(
        cursor,
        n,
        server,
    ) by {
        let calls: nat = if server > cursor {
            (server - cursor) as nat
        } else {
            (server - cursor + n) as nat
        };
        lemma_cursor_within_round(cursor, n, calls);
        assert(1 <= calls <= n && cursor_after(cursor, n, calls) == server);
    }
    assert forall|calls: nat| 0 <= #[trigger] cursor_after(cursor, n, calls) < n by {
        lemma_cursor_in_range(cursor, n, calls);
    }
    assert forall|calls: nat| #[trigger]
        cursor_after(cursor, n, calls + n as nat) == cursor_after(cursor, n, calls) by {
        lemma_cursor_in_range(cursor, n, calls);
        lemma_cursor_after_sum(cursor, n, calls, n as nat);
        lemma_cursor_within_round(cursor_after(cursor, n, calls), n, n as nat);
    }
    if n > 1 {
        assert forall|calls: nat| #[trigger]
            cursor_after(cursor, n, calls + 1) != cursor_after(cursor, n, calls) by {
            lemma_cursor_in_range(cursor, n, calls);
        }
    }
}

/// With one server, choosing in turn always chooses that server.
pub proof fn lemma_single_server(calls: nat)
    ensures
        cursor_after(0, 1, calls) == 0,
{
    lemma_cursor_in_range(0, 1, calls);
}

/// The cursor stays among the servers.
pub proof fn lemma_cursor_in_range(cursor: int, n: int, calls: nat)
    requires
        0 <= cursor < n,
    ensures
        0 <= cursor_after(cursor, n, calls) < n,
    decreases calls,
{
    if calls > 0 {
        lemma_cursor_in_range(cursor, n, (calls - 1) as nat);
    }
}

/// A copy of `servers`.
fn copy_servers(servers: &Vec<MinecraftServer>) -> (copy: Vec<MinecraftServer>)
    ensures
        copy@ == servers@,
{
    let mut copy: Vec<MinecraftServer> = Vec::new();
    let mut i: usize = 0;
    while i < servers.len()
        invariant
            i <= servers.len(),
            copy@ == servers@.take(i as int),
        decreases servers.len() - i,
    {
        copy.push(servers[i].clone());
        assert(copy@ == servers@.take(i + 1));
        i += 1;
    }
    assert(servers@.take(i as int) == servers@);
    copy
}

/// Chooses among the servers of a fixed list.
#[derive(Debug)]
pub struct StaticServerFiner {
    servers: Vec<MinecraftServer>,
    mode: Algorithm,
    last_index: usize,
}

/// What a [`StaticServerFiner`] holds.
pub struct StaticFinderView {
    /// The servers, in the order of the settings.
    pub pool: Seq<MinecraftServer>,
    pub algorithm: Algorithm,
    /// The position of the server that choosing in turn chose last.
    pub cursor: int,
}

impl View for StaticServerFiner {
    type V = StaticFinderView;

    closed spec fn view(&self) -> StaticFinderView {
        StaticFinderView {
            pool: self.servers@,
            algorithm: self.mode,
            cursor: self.last_index as int,
        }
    }
}

/// The servers that the settings list: each with the address of its line,
/// still to be resolved.
pub open spec fn is_pool_of(pool: Seq<MinecraftServer>, config: StaticConfig) -> bool {
    &&& pool.len() == config.servers.len()
    &&& forall|i: int|
        0 <= i < pool.len() ==> (#[trigger] pool[i]).address == config.servers[i].address
            && pool[i].port is None
}

impl StaticServerFiner {
    /// The cursor stands on a server, or at the start where there is none.
    #[verifier::type_invariant]
    spec fn cursor_on_a_server(self) -> bool {
        self.last_index < self.servers.len() || self.last_index == 0
    }

    /// A finder for the servers of the settings. The cursor stands on the
    /// first of them, so that choosing in turn starts with the second.
    pub fn new(config: StaticConfig) -> (finder: StaticServerFiner)
        ensures
            is_pool_of(finder@.pool, config),
            finder@.algorithm == config.algorithm,
            finder@.cursor == 0,
    {
        let mut servers: Vec<MinecraftServer> = Vec::new();
        let mut i: usize = 0;
        while i < config.servers.len()
            invariant
                i <= config.servers.len(),
                servers.len() == i,
                forall|j: int|
                    0 <= j < i ==> (#[trigger] servers[j]).address == config.servers[j].address
                        && servers[j].port is None,
            decreases config.servers.len() - i,
        {
            servers.push(MinecraftServer { address: config.servers[i].address.clone(), port: None });
            i += 1;
        }
        StaticServerFiner { servers, mode: config.algorithm, last_index: 0 }
    }

    /// Whether a choice reads the counts of the servers.
    pub fn needs_probes(&self) -> (needed: bool)
        ensures
            needed == (self@.algorithm == Algorithm::LowestPlayerCount),
    {
        self.mode == Algorithm::LowestPlayerCount
    }

    /// The servers to ask for their count: all, in their order, five at a
    /// time, each with five seconds to answer.
    pub fn probe_plan(&self) -> (plan: ProbePlan)
        ensures
            plan.targets@ == self@.pool,
            plan.window == STATIC_PROBE_WINDOW,
            plan.timeout_secs == PROBE_TIMEOUT_SECS,
    {
        ProbePlan {
            targets: copy_servers(&self.servers),
            window: STATIC_PROBE_WINDOW,
            timeout_secs: PROBE_TIMEOUT_SECS,
        }
    }

    /// The players on all servers together, from the answers to the plan.
    pub fn get_player_count(&self, results: &Vec<Option<u32>>) -> (total: Option<u32>)
        ensures
            total == if sum_counts(results@) <= u32::MAX {
                Some(sum_counts(results@) as u32)
            } else {
                None
            },
    {
        total_player_count(results)
    }

    /// Chooses a server. In turn: the cursor moves on by one server, from
    /// the last to the first, and the server it comes to stand on is chosen.
    /// By count: the server with the lowest score is chosen, of several the
    /// first; `results` holds the answers of the servers in their order, and
    /// a server without an answer has the worst score. There is no choice
    /// only where there is no server.
    pub fn find_server(&mut self, results: &Vec<Option<u32>>) -> (chosen: Result<
        MinecraftServer,
        FinderError,
    >)
        ensures
            final(self)@.pool == old(self)@.pool,
            final(self)@.algorithm == old(self)@.algorithm,
            old(self)@.pool.len() == 0 ==> chosen == Err::<MinecraftServer, FinderError>(
                FinderError::NoServers,
            ) && final(self)@.cursor == old(self)@.cursor,
            old(self)@.pool.len() > 0 ==> 0 <= old(self)@.cursor < old(self)@.pool.len(),
            old(self)@.pool.len() > 0 ==> match old(self)@.algorithm {
                Algorithm::RoundRobin => final(self)@.cursor == next_cursor(
                    old(self)@.cursor,
                    old(self)@.pool.len() as int,
                ) && chosen == Ok::<MinecraftServer, FinderError>(
                    old(self)@.pool[final(self)@.cursor],
                ),
                Algorithm::LowestPlayerCount => final(self)@.cursor == old(self)@.cursor
                    && is_lowest(
                    results@,
                    old(self)@.pool.len() as int,
                    lowest_position(results@, old(self)@.pool.len() as int),
                ) && chosen == Ok::<MinecraftServer, FinderError>(
                    old(self)@.pool[lowest_position(results@, old(self)@.pool.len() as int)],
                ),
            },
    {
        proof {
            use_type_invariant(&*self);
        }
        let n = self.servers.len();
        if n == 0 {
            return Err(FinderError::NoServers);
        }
        match self.mode {
            Algorithm::RoundRobin => {
                let index = if self.last_index + 1 >= n {
                    0
                } else {
                    self.last_index + 1
                };
                self.last_index = index;
                Ok(self.servers[index].clone())
            },
            Algorithm::LowestPlayerCount => {
                let best = lowest_index(results, n);
                Ok(self.servers[best].clone())
            },
        }
    }
}

/// Chooses the server of the region that the client is in.
#[derive(Debug)]
pub struct GeoServerFinder {
    regions: RegionTable,
    fallback: MinecraftServer,
    token: String,
}

/// What a [`GeoServerFinder`] holds.
pub struct GeoFinderView {
    /// The lines of the table of the regions, code and server, in the order
    /// in which the codes came in. No code stands twice.
    pub entries: Seq<(Seq<char>, MinecraftServer)>,
    /// The server for clients of no listed region.
    pub fallback: MinecraftServer,
    /// The token of the service that locates addresses.
    pub token: Seq<char>,
}

impl GeoFinderView {
    /// The server of each region, by the code of the region.
    pub open spec fn regions(self) -> Map<Seq<char>, MinecraftServer> {
        table_of(self.entries)
    }

    /// The servers of the regions, in the order of the lines.
    pub open spec fn servers(self) -> Seq<MinecraftServer> {
        Seq::new(self.entries.len(), |i: int| self.entries[i].1)
    }
}

impl View for GeoServerFinder {
    type V = GeoFinderView;

    closed spec fn view(&self) -> GeoFinderView {
        GeoFinderView {
            entries: self.regions.entries(),
            fallback: self.fallback,
            token: self.token@,
        }
    }
}

/// The server that the settings give a region: one of the address of the
/// line, still to be resolved.
pub open spec fn region_server(config: GeoConfig, i: int) -> MinecraftServer {
    MinecraftServer { address: config.regions[i].server.address, port: None }
}

/// The lines that the first `k` regions of the settings write: a code that
/// comes again keeps its line and takes the later server.
pub open spec fn entries_of(config: GeoConfig, k: int) -> Seq<(Seq<char>, MinecraftServer)>
    decreases k,
{
    if k <= 0 {
        Seq::empty()
    } else {
        let before = entries_of(config, k - 1);
        let code = config.regions[k - 1].code@;
        if has_code(before, code) {
            before.update(position_of(before, code), (code, region_server(config, k - 1)))
        } else {
            before.push((code, region_server(config, k - 1)))
        }
    }
}

/// The table that the first `k` regions of the settings write: each code
/// with the server of its last line.
pub open spec fn regions_of(config: GeoConfig, k: int) -> Map<Seq<char>, MinecraftServer>
    decreases k,
{
    if k <= 0 {
        Map::empty()
    } else {
        regions_of(config, k - 1).insert(config.regions[k - 1].code@, region_server(config, k - 1))
    }
}

/// The lines that the settings write hold no code twice, and give each
/// code the server of its last line in the settings.
pub proof fn lemma_entries_of_settings(config: GeoConfig, k: int)
    requires
        0 <= k <= config.regions.len(),
    ensures
        distinct_codes(entries_of(config, k)),
        table_of(entries_of(config, k)) == regions_of(config, k),
    decreases k,
{
    if k > 0 {
        lemma_entries_of_settings(config, k - 1);
        let before = entries_of(config, k - 1);
        let code = config.regions[k - 1].code@;
        let server = region_server(config, k - 1);
        if has_code(before, code) {
            let at = position_of(before, code);
            assert(before[at].0 == code);
            lemma_replace(before, at, server);
        } else {
            lemma_add(before, code, server);
        }
    } else {
        assert(table_of(entries_of(config, k)) =~= regions_of(config, k));
    }
}

/// The server that a client at `location` is sent to: that of its
/// continent, else that of its country, else the fallback. A client whose
/// location is not known is sent to the fallback.
pub open spec fn region_choice(finder: GeoFinderView, location: Option<IpInfo>) -> MinecraftServer {
    match location {
        None => finder.fallback,
        Some(info) => if finder.regions().dom().contains(info.continent_code@) {
            finder.regions()[info.continent_code@]
        } else if finder.regions().dom().contains(info.country_code@) {
            finder.regions()[info.country_code@]
        } else {
            finder.fallback
        },
    }
}

impl GeoServerFinder {
    /// No code stands twice in the table of the regions.
    #[verifier::type_invariant]
    spec fn regions_distinct(self) -> bool {
        self.regions.wf()
    }

    /// A finder for the regions of the settings.
    pub fn new(config: GeoConfig) -> (finder: GeoServerFinder)
        ensures
            finder@.entries == entries_of(config, config.regions.len() as int),
            finder@.fallback == (MinecraftServer { address: config.fallback.address, port: None }),
            finder@.token == config.token@,
    {
        let mut regions = RegionTable::new();
        let mut i: usize = 0;
        while i < config.regions.len()
            invariant
                i <= config.regions.len(),
                regions.wf(),
                regions.entries() == entries_of(config, i as int),
            decreases config.regions.len() - i,
        {
            regions.insert(
                config.regions[i].code.clone(),
                MinecraftServer { address: config.regions[i].server.address.clone(), port: None },
            );
            i += 1;
        }
        GeoServerFinder {
            regions,
            fallback: MinecraftServer { address: config.fallback.address.clone(), port: None },
            token: config.token.clone(),
        }
    }

    /// The token of the service that locates addresses.
    pub fn token(&self) -> (token: &str)
        ensures
            token@ == self@.token,
    {
        self.token.as_str()
    }

    /// The servers to ask for their count: those of the regions and then
    /// the fallback, eight at a time, each with five seconds to answer.
    pub fn probe_plan(&self) -> (plan: ProbePlan)
        ensures
            plan.targets@ == self@.servers().push(self@.fallback),
            plan.window == GEO_PROBE_WINDOW,
            plan.timeout_secs == PROBE_TIMEOUT_SECS,
    {
        let mut targets: Vec<MinecraftServer> = Vec::new();
        let mut i: usize = 0;
        while i < self.regions.len()
            invariant
                i <= self.regions.entries().len(),
                targets@ == self.regions.servers().take(i as int),
            decreases self.regions.entries().len() - i,
        {
            targets.push(self.regions.server_at(i).clone());
            assert(targets@ == self.regions.servers().take(i + 1));
            i += 1;
        }
        assert(self.regions.servers().take(i as int) == self.regions.servers());
        targets.push(self.fallback.clone());
        ProbePlan { targets, window: GEO_PROBE_WINDOW, timeout_secs: PROBE_TIMEOUT_SECS }
    }

    /// The players on all servers together, from the answers to the plan.
    pub fn get_player_count(&self, results: &Vec<Option<u32>>) -> (total: Option<u32>)
        ensures
            total == if sum_counts(results@) <= u32::MAX {
                Some(sum_counts(results@) as u32)
            } else {
                None
            },
    {
        total_player_count(results)
    }

    /// Chooses the server for a client at `location`; `None` stands for a
    /// location that could not be had. There is always a choice.
    pub fn find_server(&self, location: Option<&IpInfo>) -> (chosen: MinecraftServer)
        ensures
            chosen == region_choice(
                self@,
                match location {
                    Some(info) => Some(*info),
                    None => None,
                },
            ),
    {
        proof {
            use_type_invariant(self);
        }
        match location {
            None => self.fallback.clone(),
            Some(info) => {
                match self.regions.get(info.continent_code.as_str()) {
                    Some(server) => server.clone(),
                    None => match self.regions.get(info.country_code.as_str()) {
                        Some(server) => server.clone(),
                        None => self.fallback.clone(),
                    },
                }
            },
        }
    }
}

/// What a finder needs from outside before it can choose.
#[derive(Debug, Clone, Copy, PartialEq, Eq, Structural)]
pub enum Need {
    Nothing,
    /// The answers to its plan.
    Probes,
    /// The location of the client.
    Location,
}

/// What the caller gathered for a choice.
#[derive(Debug)]
pub enum Evidence {
    Nothing,
    /// The answers of the servers of the plan, in the order of the plan;
    /// `None` for a server that did not answer in time.
    Probes(Vec<Option<u32>>),
    /// The location of the client; `None` where it could not be had.
    Location(Option<IpInfo>),
}

impl Evidence {
    /// The answers that the evidence holds: none where it holds something else.
    pub open spec fn probes(&self) -> Seq<Option<u32>> {
        match *self {
            Evidence::Probes(results) => results@,
            _ => Seq::empty(),
        }
    }

    /// The location that the evidence holds: none where it holds something else.
    pub open spec fn location(&self) -> Option<IpInfo> {
        match *self {
            Evidence::Location(location) => location,
            _ => None,
        }
    }
}

/// A finder of one of the kinds.
#[derive(Debug)]
pub enum ServerFinder {
    Static(StaticServerFiner),
    Geo(GeoServerFinder),
}

impl ServerFinder {
    /// What the finder needs from outside before it can choose.
    pub fn need(&self) -> (need: Need)
        ensures
            need == match *self {
                ServerFinder::Static(finder) => if finder@.algorithm
                    == Algorithm::LowestPlayerCount {
                    Need::Probes
                } else {
                    Need::Nothing
                },
                ServerFinder::Geo(_) => Need::Location,
            },
    {
        match self {
            ServerFinder::Static(finder) => if finder.needs_probes() {
                Need::Probes
            } else {
                Need::Nothing
            },
            ServerFinder::Geo(_) => Need::Location,
        }
    }

    /// The servers to ask for their count, and how to ask them.
    pub fn probe_plan(&self) -> (plan: ProbePlan)
        ensures
            match *self {
                ServerFinder::Static(finder) => plan.targets@ == finder@.pool && plan.window
                    == STATIC_PROBE_WINDOW,
                ServerFinder::Geo(finder) => plan.targets@ == finder@.servers().push(
                    finder@.fallback,
                ) && plan.window == GEO_PROBE_WINDOW,
            },
            plan.timeout_secs == PROBE_TIMEOUT_SECS,
    {
        match self {
            ServerFinder::Static(finder) => finder.probe_plan(),
            ServerFinder::Geo(finder) => finder.probe_plan(),
        }
    }

    /// The players on all servers together, from the answers to the plan.
    pub fn get_player_count(&self, results: &Vec<Option<u32>>) -> (total: Option<u32>)
        ensures
            total == if sum_counts(results@) <= u32::MAX {
                Some(sum_counts(results@) as u32)
            } else {
                None
            },
    {
        total_player_count(results)
    }

    /// Chooses a server on the evidence of the caller. Evidence of another
    /// kind than the finder needs counts as none: as no answer of any
    /// server, or as a location that could not be had.
    pub fn find_server(&mut self, evidence: &Evidence) -> (chosen: Result<
        MinecraftServer,
        FinderError,
    >)
        ensures
            match (*old(self), *final(self)) {
                (ServerFinder::Static(before), ServerFinder::Static(after)) => {
                    &&& after@.pool == before@.pool
                    &&& after@.algorithm == before@.algorithm
                    &&& before@.pool.len() == 0 ==> chosen == Err::<MinecraftServer, FinderError>(
                        FinderError::NoServers,
                    ) && after@.cursor == before@.cursor
                    &&& before@.pool.len() > 0 ==> match before@.algorithm {
                        Algorithm::RoundRobin => after@.cursor == next_cursor(
                            before@.cursor,
                            before@.pool.len() as int,
                        ) && chosen == Ok::<MinecraftServer, FinderError>(
                            before@.pool[after@.cursor],
                        ),
                        Algorithm::LowestPlayerCount => after@.cursor == before@.cursor
                            && is_lowest(
                            evidence.probes(),
                            before@.pool.len() as int,
                            lowest_position(evidence.probes(), before@.pool.len() as int),
                        ) && chosen == Ok::<MinecraftServer, FinderError>(
                            before@.pool[lowest_position(
                                evidence.probes(),
                                before@.pool.len() as int,
                            )],
                        ),
                    }
                },
                (ServerFinder::Geo(before), ServerFinder::Geo(after)) => after == before && chosen
                    == Ok::<MinecraftServer, FinderError>(
                    region_choice(before@, evidence.location()),
                ),
                _ => false,
            },
    {
        match self {
            ServerFinder::Static(finder) => {
                match evidence {
                    Evidence::Probes(results) => finder.find_server(results),
                    _ => {
                        let none: Vec<Option<u32>> = Vec::new();
                        finder.find_server(&none)
                    },
                }
            },
            ServerFinder::Geo(finder) => {
                match evidence {
                    Evidence::Location(Some(info)) => Ok(finder.find_server(Some(info))),
                    _ => Ok(finder.find_server(None)),
                }
            },
        }
    }
}

/// The finder that the settings ask for.
pub fn get_server_finder(config: Config) -> (finder: Result<ServerFinder, FinderError>)
    ensures
        match config.mode {
            Mode::Static => match config.static_cfg {
                None => finder == Err::<ServerFinder, FinderError>(
                    FinderError::MissingStaticSection,
                ),
                Some(section) => finder matches Ok(ServerFinder::Static(found)) && is_pool_of(
                    found@.pool,
                    section,
                ) && found@.algorithm == section.algorithm && found@.cursor == 0,
            },
            Mode::Geo => match config.geo {
                None => finder == Err::<ServerFinder, FinderError>(FinderError::MissingGeoSection),
                Some(section) => finder matches Ok(ServerFinder::Geo(found)) && found@.entries
                    == entries_of(section, section.regions.len() as int) && found@.fallback == (
                MinecraftServer { address: section.fallback.address, port: None })
                    && found@.token == section.token@,
            },
            Mode::Http => finder == Err::<ServerFinder, FinderError>(FinderError::HttpUnsupported),
        },
{
    match config.mode {
        Mode::Static => match config.static_cfg {
            None => Err(FinderError::MissingStaticSection),
            Some(section) => Ok(ServerFinder::Static(StaticServerFiner::new(section))),
        },
        Mode::Geo => match config.geo {
            None => Err(FinderError::MissingGeoSection),
            Some(section) => Ok(ServerFinder::Geo(GeoServerFinder::new(section))),
        },
        Mode::Http => Err(FinderError::HttpUnsupported),
    }
}

} // verus!
