use crate::table::{has_key, list_contains, lookup, put, texts_of, AddressTable};
use crate::clock::unix_now;
use vstd::prelude::*;

verus! {

/// Highest and lowest peer reputation.
pub const MAX_REPUTATION: i32 = 100;
pub const MIN_REPUTATION: i32 = -100;

/// Limits on peers. Peers are identified by the text of their network address.
#[derive(Debug, Clone, Copy)]
pub struct NetworkSecurityConfig {
    pub max_connections_per_ip: usize,
    pub max_requests_per_sec: u32,
    /// Length of a ban, in seconds.
    pub ban_duration: u64,
    pub max_failed_attempts: u32,
    pub enable_whitelist: bool,
    pub enable_blacklist: bool,
    pub max_peer_connections: usize,
    pub min_peer_reputation: i32,
}

impl NetworkSecurityConfig {
    /// Ten connections and a thousand requests per second per address, hour
    /// long bans after five failures, blacklist on, whitelist off, a hundred
    /// peers, and a reputation floor of -10.
    pub fn new() -> (r: Self)
        ensures
            r.max_connections_per_ip == 10,
            r.max_requests_per_sec == 1000,
            r.ban_duration == 3600,
            r.max_failed_attempts == 5,
            !r.enable_whitelist,
            r.enable_blacklist,
            r.max_peer_connections == 100,
            r.min_peer_reputation == -10,
    {
        NetworkSecurityConfig {
            max_connections_per_ip: 10,
            max_requests_per_sec: 1000,
            ban_duration: 3600,
            max_failed_attempts: 5,
            enable_whitelist: false,
            enable_blacklist: true,
            max_peer_connections: 100,
            min_peer_reputation: -10,
        }
    }
}

impl Default for NetworkSecurityConfig {
    fn default() -> (r: Self)
        ensures
            r.max_connections_per_ip == 10,
            r.max_requests_per_sec == 1000,
            r.max_failed_attempts == 5,
    {
        NetworkSecurityConfig::new()
    }
}

/// What is tracked of one peer.
#[derive(Debug, Clone, Copy, PartialEq, Eq, Structural)]
pub struct PeerInfo {
    pub reputation: i32,
    pub connection_count: usize,
    pub request_count: u32,
    pub last_request: u64,
    pub failed_attempts: u32,
    pub banned_until: Option<u64>,
}

/// Peer admission: allow and deny lists, connection and request limits,
/// bans and reputation.
#[derive(Debug)]
pub struct NetworkSecurity {
    pub config: NetworkSecurityConfig,
    pub peers: AddressTable<PeerInfo>,
    pub whitelist: Vec<String>,
    pub blacklist: Vec<String>,
}

/// Counts describing the peers.
#[derive(Debug, Clone, Copy, PartialEq, Eq, Structural)]
pub struct NetworkStats {
    pub total_peers: usize,
    pub active_peers: usize,
    pub banned_peers: usize,
    pub whitelisted_ips: usize,
    pub blacklisted_ips: usize,
}

/// Why a peer was turned away.
#[derive(Debug, Clone, Copy, PartialEq, Eq, Structural)]
pub enum NetworkSecurityError {
    NotWhitelisted,
    Blacklisted,
    Banned,
    TooManyConnections,
    RateLimitExceeded,
    LowReputation,
}

impl NetworkSecurityError {
    /// A human-readable description of the error.
    pub fn message(&self) -> (r: String)
        ensures
            r@ == (match *self {
                NetworkSecurityError::NotWhitelisted => "IP not whitelisted"@,
                NetworkSecurityError::Blacklisted => "IP is blacklisted"@,
                NetworkSecurityError::Banned => "IP is banned"@,
                NetworkSecurityError::TooManyConnections => "Too many connections from IP"@,
                NetworkSecurityError::RateLimitExceeded => "Rate limit exceeded"@,
                NetworkSecurityError::LowReputation => "Peer reputation too low"@,
            }),
    {
        match self {
            NetworkSecurityError::NotWhitelisted => "IP not whitelisted".to_string(),
            NetworkSecurityError::Blacklisted => "IP is blacklisted".to_string(),
            NetworkSecurityError::Banned => "IP is banned".to_string(),
            NetworkSecurityError::TooManyConnections => "Too many connections from IP".to_string(),
            NetworkSecurityError::RateLimitExceeded => "Rate limit exceeded".to_string(),
            NetworkSecurityError::LowReputation => "Peer reputation too low".to_string(),
        }
    }
}

/// A peer not seen before.
pub open spec fn fresh_peer() -> PeerInfo {
    PeerInfo {
        reputation: 0,
        connection_count: 0,
        request_count: 0,
        last_request: 0,
        failed_attempts: 0,
        banned_until: None,
    }
}

/// The record of `ip`, or a fresh one.
pub open spec fn peer_of(t: Seq<(Seq<char>, PeerInfo)>, ip: Seq<char>) -> PeerInfo {
    match lookup(t, ip) {
        Some(p) => p,
        None => fresh_peer(),
    }
}

/// Whether a peer is banned at `now`.
pub open spec fn banned_at(p: PeerInfo, now: u64) -> bool {
    match p.banned_until {
        Some(t) => now < t,
        None => false,
    }
}

/// The end of a ban starting at `now`, saturated at the largest time.
pub open spec fn ban_end(now: u64, duration: u64) -> u64 {
    if now + duration <= u64::MAX { (now + duration) as u64 } else { u64::MAX }
}

/// The peer after `delta` is added to its reputation, clamped to [-100, 100].
pub open spec fn with_reputation(p: PeerInfo, delta: i32) -> PeerInfo {
    let r = p.reputation + delta;
    PeerInfo {
        reputation: if r > MAX_REPUTATION { MAX_REPUTATION } else if r < MIN_REPUTATION { MIN_REPUTATION } else { r as i32 },
        ..p
    }
}

/// Number of peers with an open connection.
pub open spec fn active_count(t: Seq<(Seq<char>, PeerInfo)>) -> nat
    decreases t.len(),
{
    if t.len() == 0 {
        0
    } else {
        active_count(t.drop_last()) + if t.last().1.connection_count > 0 { 1nat } else { 0nat }
    }
}

/// Number of peers banned at `now`.
pub open spec fn banned_count(t: Seq<(Seq<char>, PeerInfo)>, now: u64) -> nat
    decreases t.len(),
{
    if t.len() == 0 {
        0
    } else {
        banned_count(t.drop_last(), now) + if banned_at(t.last().1, now) { 1nat } else { 0nat }
    }
}

/// Whether a peer is kept by a sweep at `now`: connected or banned.
pub open spec fn kept_peer(now: u64) -> spec_fn((Seq<char>, PeerInfo)) -> bool {
    |e: (Seq<char>, PeerInfo)| e.1.connection_count > 0 || banned_at(e.1, now)
}

/// A kept peer after a sweep at `now`: an expired ban is lifted and its
/// failures forgotten.
pub open spec fn lift_expired(now: u64) -> spec_fn((Seq<char>, PeerInfo)) -> (Seq<char>, PeerInfo) {
    |e: (Seq<char>, PeerInfo)| match e.1.banned_until {
        Some(t) => if now >= t { (e.0, PeerInfo { banned_until: None, failed_attempts: 0, ..e.1 }) } else { e },
        None => e,
    }
}

fn add_to_list(list: &mut Vec<String>, ip: &str)
    ensures
        texts_of(*old(list)).contains(ip@) ==> final(list)@ == old(list)@,
        !texts_of(*old(list)).contains(ip@) ==> texts_of(*final(list)) == texts_of(*old(list)).push(ip@),
{
    let s = ip.to_owned();
    if !list_contains(list, &s) {
        let ghost before = *list;
        list.push(s);
        assert(texts_of(*list) =~= texts_of(before).push(ip@));
    }
}

fn remove_from_list(list: &mut Vec<String>, ip: &str)
    ensures
        texts_of(*final(list)) == texts_of(*old(list)).filter(|x: Seq<char>| x != ip@),
{
    let ghost pred = |x: Seq<char>| x != ip@;
    let s = ip.to_owned();
    let mut kept: Vec<String> = Vec::new();
    let mut i: usize = 0;
    while i < list.len()
        invariant
            0 <= i <= list@.len(),
            s@ == ip@,
            pred == (|x: Seq<char>| x != ip@),
            texts_of(kept) == texts_of(*list).subrange(0, i as int).filter(pred),
        decreases list@.len() - i,
    {
        proof {
            assert(texts_of(*list).subrange(0, i + 1) =~= texts_of(*list).subrange(0, i as int).push(texts_of(*list)[i as int]));
            texts_of(*list).subrange(0, i as int).lemma_filter_push(texts_of(*list)[i as int], pred);
        }
        if list[i] != s {
            let ghost prev = kept;
            kept.push(list[i].clone());
            assert(texts_of(kept) =~= texts_of(prev).push(texts_of(*list)[i as int]));
        }
        i += 1;
    }
    assert(texts_of(*list).subrange(0, i as int) =~= texts_of(*list));
    *list = kept;
}

impl NetworkSecurity {
    /// No peers and empty lists.
    pub fn new(config: NetworkSecurityConfig) -> (r: Self)
        ensures
            r.config == config,
            r.peers.model().len() == 0,
            r.whitelist@.len() == 0,
            r.blacklist@.len() == 0,
    {
        NetworkSecurity { config, peers: AddressTable::new(), whitelist: Vec::new(), blacklist: Vec::new() }
    }

    fn peer(&self, ip: &str) -> (r: PeerInfo)
        ensures
            r == peer_of(self.peers.model(), ip@),
    {
        match self.peers.get(ip) {
            Some(p) => *p,
            None => PeerInfo {
                reputation: 0,
                connection_count: 0,
                request_count: 0,
                last_request: 0,
                failed_attempts: 0,
                banned_until: None,
            },
        }
    }

    /// Admits a connection from `ip` at time `now`. It is refused when the
    /// whitelist is on and lacks `ip`, when the blacklist is on and holds
    /// it, and, for a peer then tracked, when it is banned, at its
    /// connection limit, or under the reputation floor; else its connection
    /// count goes up by one.
    pub fn allow_connection_at(&mut self, ip: &str, now: u64) -> (r: Result<(), NetworkSecurityError>)
        ensures
            final(self).config == old(self).config,
            final(self).whitelist == old(self).whitelist,
            final(self).blacklist == old(self).blacklist,
            ({
                let c = old(self).config;
                let p = peer_of(old(self).peers.model(), ip@);
                if c.enable_whitelist && !texts_of(old(self).whitelist).contains(ip@) {
                    r == Err::<(), NetworkSecurityError>(NetworkSecurityError::NotWhitelisted) && final(self).peers.model() == old(self).peers.model()
                } else if c.enable_blacklist && texts_of(old(self).blacklist).contains(ip@) {
                    r == Err::<(), NetworkSecurityError>(NetworkSecurityError::Blacklisted) && final(self).peers.model() == old(self).peers.model()
                } else if banned_at(p, now) {
                    r == Err::<(), NetworkSecurityError>(NetworkSecurityError::Banned) && final(self).peers.model() == put(old(self).peers.model(), ip@, p)
                } else if p.connection_count >= c.max_connections_per_ip {
                    r == Err::<(), NetworkSecurityError>(NetworkSecurityError::TooManyConnections) && final(self).peers.model() == put(old(self).peers.model(), ip@, p)
                } else if p.reputation < c.min_peer_reputation {
                    r == Err::<(), NetworkSecurityError>(NetworkSecurityError::LowReputation) && final(self).peers.model() == put(old(self).peers.model(), ip@, p)
                } else {
                    r is Ok && final(self).peers.model() == put(old(self).peers.model(), ip@,
                        PeerInfo { connection_count: (p.connection_count + 1) as usize, ..p })
                }
            }),
    {
        let key = ip.to_owned();
        if self.config.enable_whitelist && !list_contains(&self.whitelist, &key) {
            return Err(NetworkSecurityError::NotWhitelisted);
        }
        if self.config.enable_blacklist && list_contains(&self.blacklist, &key) {
            return Err(NetworkSecurityError::Blacklisted);
        }
        let p = self.peer(ip);
        let banned = match p.banned_until {
            Some(t) => now < t,
            None => false,
        };
        if banned {
            self.peers.insert(key, p);
            return Err(NetworkSecurityError::Banned);
        }
        if p.connection_count >= self.config.max_connections_per_ip {
            self.peers.insert(key, p);
            return Err(NetworkSecurityError::TooManyConnections);
        }
        if p.reputation < self.config.min_peer_reputation {
            self.peers.insert(key, p);
            return Err(NetworkSecurityError::LowReputation);
        }
        self.peers.insert(key, PeerInfo { connection_count: p.connection_count + 1, ..p });
        Ok(())
    }

    /// `allow_connection_at` at the current time.
    pub fn allow_connection(&mut self, ip: &str) -> (r: Result<(), NetworkSecurityError>)
        ensures
            final(self).config == old(self).config,
    {
        let now = unix_now();
        self.allow_connection_at(ip, now)
    }

    /// Counts a request from `ip` at `now` in its one-second window. A
    /// banned peer is refused; a peer over the request limit is refused and
    /// banned for `ban_duration`.
    pub fn allow_request_at(&mut self, ip: &str, now: u64) -> (r: Result<(), NetworkSecurityError>)
        ensures
            final(self).config == old(self).config,
            final(self).whitelist == old(self).whitelist,
            final(self).blacklist == old(self).blacklist,
            ({
                let c = old(self).config;
                let p = peer_of(old(self).peers.model(), ip@);
                let q = if now >= p.last_request && now - p.last_request >= 1 {
                    PeerInfo { request_count: 0, last_request: now, ..p }
                } else {
                    p
                };
                if banned_at(p, now) {
                    r == Err::<(), NetworkSecurityError>(NetworkSecurityError::Banned) && final(self).peers.model() == put(old(self).peers.model(), ip@, p)
                } else if q.request_count >= c.max_requests_per_sec {
                    r == Err::<(), NetworkSecurityError>(NetworkSecurityError::RateLimitExceeded) && final(self).peers.model() == put(old(self).peers.model(), ip@,
                        PeerInfo { banned_until: Some(ban_end(now, c.ban_duration)), ..q })
                } else {
                    r is Ok && final(self).peers.model() == put(old(self).peers.model(), ip@,
                        PeerInfo { request_count: (q.request_count + 1) as u32, ..q })
                }
            }),
    {
        let key = ip.to_owned();
        let p = self.peer(ip);
        let banned = match p.banned_until {
            Some(t) => now < t,
            None => false,
        };
        if banned {
            self.peers.insert(key, p);
            return Err(NetworkSecurityError::Banned);
        }
        let q = if now >= p.last_request && now - p.last_request >= 1 {
            PeerInfo { request_count: 0, last_request: now, ..p }
        } else {
            p
        };
        if q.request_count >= self.config.max_requests_per_sec {
            let until = now.saturating_add(self.config.ban_duration);
            self.peers.insert(key, PeerInfo { banned_until: Some(until), ..q });
            return Err(NetworkSecurityError::RateLimitExceeded);
        }
        self.peers.insert(key, PeerInfo { request_count: q.request_count + 1, ..q });
        Ok(())
    }

    /// `allow_request_at` at the current time.
    pub fn allow_request(&mut self, ip: &str) -> (r: Result<(), NetworkSecurityError>)
        ensures
            final(self).config == old(self).config,
    {
        let now = unix_now();
        self.allow_request_at(ip, now)
    }

    /// Records a failed attempt from `ip` at `now`: one more failure (up to
    /// the largest count), a ban once failures reach the limit, and one
    /// point of reputation less (down to the lowest value).
    pub fn record_failed_attempt_at(&mut self, ip: &str, now: u64)
        ensures
            final(self).config == old(self).config,
            final(self).whitelist == old(self).whitelist,
            final(self).blacklist == old(self).blacklist,
            ({
                let p = peer_of(old(self).peers.model(), ip@);
                let failed = if p.failed_attempts < u32::MAX { (p.failed_attempts + 1) as u32 } else { p.failed_attempts };
                let banned_until = if failed >= old(self).config.max_failed_attempts {
                    Some(ban_end(now, old(self).config.ban_duration))
                } else {
                    p.banned_until
                };
                let reputation = if p.reputation > i32::MIN { (p.reputation - 1) as i32 } else { p.reputation };
                final(self).peers.model() == put(old(self).peers.model(), ip@,
                    PeerInfo { failed_attempts: failed, banned_until, reputation, ..p })
            }),
    {
        let p = self.peer(ip);
        let failed = p.failed_attempts.saturating_add(1);
        let banned_until = if failed >= self.config.max_failed_attempts {
            Some(now.saturating_add(self.config.ban_duration))
        } else {
            p.banned_until
        };
        let reputation = if p.reputation > i32::MIN { p.reputation - 1 } else { p.reputation };
        self.peers.insert(ip.to_owned(), PeerInfo { failed_attempts: failed, banned_until, reputation, ..p });
    }

    /// `record_failed_attempt_at` at the current time.
    pub fn record_failed_attempt(&mut self, ip: &str)
        ensures
            final(self).config == old(self).config,
    {
        let now = unix_now();
        self.record_failed_attempt_at(ip, now);
    }

    /// Records a success from `ip`: failures are forgotten and reputation
    /// rises by one, up to the highest value.
    pub fn record_success(&mut self, ip: &str)
        ensures
            final(self).config == old(self).config,
            ({
                let p = peer_of(old(self).peers.model(), ip@);
                final(self).peers.model() == put(old(self).peers.model(), ip@, PeerInfo {
                    failed_attempts: 0,
                    reputation: if p.reputation < MAX_REPUTATION { (p.reputation + 1) as i32 } else { p.reputation },
                    ..p
                })
            }),
    {
        let p = self.peer(ip);
        let reputation = if p.reputation < MAX_REPUTATION { p.reputation + 1 } else { p.reputation };
        self.peers.insert(ip.to_owned(), PeerInfo { failed_attempts: 0, reputation, ..p });
    }

    /// Bans `ip` from `now` for `ban_duration` seconds. The reason is for
    /// the caller's log.
    pub fn ban_peer_at(&mut self, ip: &str, _reason: &str, now: u64)
        ensures
            final(self).config == old(self).config,
            final(self).peers.model() == put(old(self).peers.model(), ip@, PeerInfo {
                banned_until: Some(ban_end(now, old(self).config.ban_duration)),
                ..peer_of(old(self).peers.model(), ip@)
            }),
    {
        let p = self.peer(ip);
        self.peers.insert(ip.to_owned(), PeerInfo { banned_until: Some(now.saturating_add(self.config.ban_duration)), ..p });
    }

    /// `ban_peer_at` at the current time.
    pub fn ban_peer(&mut self, ip: &str, reason: &str)
        ensures
            final(self).config == old(self).config,
    {
        let now = unix_now();
        self.ban_peer_at(ip, reason, now);
    }

    /// Lifts any ban on a tracked peer and forgets its failures.
    pub fn unban_peer(&mut self, ip: &str)
        ensures
            final(self).config == old(self).config,
            has_key(old(self).peers.model(), ip@) ==> final(self).peers.model() == put(old(self).peers.model(), ip@,
                PeerInfo { banned_until: None, failed_attempts: 0, ..peer_of(old(self).peers.model(), ip@) }),
            !has_key(old(self).peers.model(), ip@) ==> final(self).peers.model() == old(self).peers.model(),
    {
        if self.peers.contains_key(ip) {
            let p = self.peer(ip);
            self.peers.insert(ip.to_owned(), PeerInfo { banned_until: None, failed_attempts: 0, ..p });
        }
    }

    /// Adds `ip` to the whitelist unless it is there.
    pub fn add_to_whitelist(&mut self, ip: &str)
        ensures
            texts_of(old(self).whitelist).contains(ip@) ==> final(self).whitelist@ == old(self).whitelist@,
            !texts_of(old(self).whitelist).contains(ip@) ==> texts_of(final(self).whitelist) == texts_of(old(self).whitelist).push(ip@),
    {
        add_to_list(&mut self.whitelist, ip);
    }

    /// Adds `ip` to the blacklist unless it is there.
    pub fn add_to_blacklist(&mut self, ip: &str)
        ensures
            texts_of(old(self).blacklist).contains(ip@) ==> final(self).blacklist@ == old(self).blacklist@,
            !texts_of(old(self).blacklist).contains(ip@) ==> texts_of(final(self).blacklist) == texts_of(old(self).blacklist).push(ip@),
    {
        add_to_list(&mut self.blacklist, ip);
    }

    /// Removes `ip` from the whitelist.
    pub fn remove_from_whitelist(&mut self, ip: &str)
        ensures
            texts_of(final(self).whitelist) == texts_of(old(self).whitelist).filter(|x: Seq<char>| x != ip@),
    {
        remove_from_list(&mut self.whitelist, ip);
    }

    /// Removes `ip` from the blacklist.
    pub fn remove_from_blacklist(&mut self, ip: &str)
        ensures
            texts_of(final(self).blacklist) == texts_of(old(self).blacklist).filter(|x: Seq<char>| x != ip@),
    {
        remove_from_list(&mut self.blacklist, ip);
    }

    /// Closes one connection of a tracked peer.
    pub fn disconnect_peer(&mut self, ip: &str)
        ensures
            final(self).config == old(self).config,
            ({
                let p = peer_of(old(self).peers.model(), ip@);
                if has_key(old(self).peers.model(), ip@) && p.connection_count > 0 {
                    final(self).peers.model() == put(old(self).peers.model(), ip@,
                        PeerInfo { connection_count: (p.connection_count - 1) as usize, ..p })
                } else {
                    final(self).peers.model() == old(self).peers.model()
                }
            }),
    {
        if self.peers.contains_key(ip) {
            let p = self.peer(ip);
            if p.connection_count > 0 {
                self.peers.insert(ip.to_owned(), PeerInfo { connection_count: p.connection_count - 1, ..p });
            }
        }
    }

    /// Reputation of `ip`; zero for an unknown peer.
    pub fn get_reputation(&self, ip: &str) -> (r: i32)
        ensures
            r == peer_of(self.peers.model(), ip@).reputation,
    {
        self.peer(ip).reputation
    }

    /// Adds `delta` to the reputation of `ip`, clamped to [-100, 100].
    pub fn update_reputation(&mut self, ip: &str, delta: i32)
        ensures
            final(self).config == old(self).config,
            final(self).peers.model() == put(old(self).peers.model(), ip@, with_reputation(peer_of(old(self).peers.model(), ip@), delta)),
    {
        let p = self.peer(ip);
        let r = p.reputation as i64 + delta as i64;
        let reputation: i32 = if r > MAX_REPUTATION as i64 {
            MAX_REPUTATION
        } else if r < MIN_REPUTATION as i64 {
            MIN_REPUTATION
        } else {
            r as i32
        };
        self.peers.insert(ip.to_owned(), PeerInfo { reputation, ..p });
    }

    /// Number of peers with an open connection.
    pub fn active_peer_count(&self) -> (r: usize)
        ensures
            r == active_count(self.peers.model()),
    {
        let mut n: usize = 0;
        let mut i: usize = 0;
        while i < self.peers.entries.len()
            invariant
                0 <= i <= self.peers.entries@.len(),
                n == active_count(self.peers.model().subrange(0, i as int)),
                n <= i,
            decreases self.peers.entries@.len() - i,
        {
            assert(self.peers.model().subrange(0, i + 1).drop_last() =~= self.peers.model().subrange(0, i as int));
            if self.peers.entries[i].1.connection_count > 0 {
                n = n + 1;
            }
            i += 1;
        }
        assert(self.peers.model().subrange(0, i as int) =~= self.peers.model());
        n
    }

    /// Number of peers banned at `now`.
    pub fn banned_peer_count_at(&self, now: u64) -> (r: usize)
        ensures
            r == banned_count(self.peers.model(), now),
    {
        let mut n: usize = 0;
        let mut i: usize = 0;
        while i < self.peers.entries.len()
            invariant
                0 <= i <= self.peers.entries@.len(),
                n == banned_count(self.peers.model().subrange(0, i as int), now),
                n <= i,
            decreases self.peers.entries@.len() - i,
        {
            assert(self.peers.model().subrange(0, i + 1).drop_last() =~= self.peers.model().subrange(0, i as int));
            let banned = match self.peers.entries[i].1.banned_until {
                Some(t) => now < t,
                None => false,
            };
            if banned {
                n = n + 1;
            }
            i += 1;
        }
        assert(self.peers.model().subrange(0, i as int) =~= self.peers.model());
        n
    }

    /// `banned_peer_count_at` at the current time.
    pub fn banned_peer_count(&self) -> (r: usize)
        ensures
            exists|now: u64| r == #[trigger] banned_count(self.peers.model(), now),
    {
        let now = unix_now();
        self.banned_peer_count_at(now)
    }

    /// Sweeps at `now`: drops peers neither connected nor banned, and lifts
    /// the expired bans of those kept.
    pub fn cleanup_at(&mut self, now: u64)
        ensures
            final(self).config == old(self).config,
            final(self).whitelist == old(self).whitelist,
            final(self).blacklist == old(self).blacklist,
            final(self).peers.model() == old(self).peers.model().filter(kept_peer(now)).map_values(lift_expired(now)),
    {
        let ghost pred = kept_peer(now);
        let ghost lift = lift_expired(now);
        let mut kept: Vec<(String, PeerInfo)> = Vec::new();
        let mut i: usize = 0;
        while i < self.peers.entries.len()
            invariant
                0 <= i <= self.peers.entries@.len(),
                pred == kept_peer(now),
                lift == lift_expired(now),
                crate::table::entries_model(kept@) == self.peers.model().subrange(0, i as int).filter(pred).map_values(lift),
            decreases self.peers.entries@.len() - i,
        {
            let ghost pre = self.peers.model().subrange(0, i as int);
            let ghost x = self.peers.model()[i as int];
            proof {
                assert(self.peers.model().subrange(0, i + 1) =~= pre.push(x));
                pre.lemma_filter_push(x, pred);
            }
            let p = self.peers.entries[i].1;
            let banned = match p.banned_until {
                Some(t) => now < t,
                None => false,
            };
            if p.connection_count > 0 || banned {
                let q = match p.banned_until {
                    Some(t) => if now >= t { PeerInfo { banned_until: None, failed_attempts: 0, ..p } } else { p },
                    None => p,
                };
                let ghost prev = kept@;
                kept.push((self.peers.entries[i].0.clone(), q));
                assert(crate::table::entries_model(kept@) =~= crate::table::entries_model(prev).push(lift(x)));
                assert(pre.filter(pred).push(x).map_values(lift) =~= pre.filter(pred).map_values(lift).push(lift(x)));
            }
            i += 1;
        }
        assert(self.peers.model().subrange(0, i as int) =~= self.peers.model());
        self.peers = AddressTable { entries: kept };
    }

    /// `cleanup_at` at the current time.
    pub fn cleanup(&mut self)
        ensures
            final(self).config == old(self).config,
            exists|now: u64| final(self).peers.model() == #[trigger] old(self).peers.model().filter(kept_peer(now)).map_values(lift_expired(now)),
    {
        let now = unix_now();
        self.cleanup_at(now);
    }

    /// Peer counts at `now`.
    pub fn get_stats_at(&self, now: u64) -> (r: NetworkStats)
        ensures
            r.total_peers == self.peers.model().len(),
            r.active_peers == active_count(self.peers.model()),
            r.banned_peers == banned_count(self.peers.model(), now),
            r.whitelisted_ips == self.whitelist@.len(),
            r.blacklisted_ips == self.blacklist@.len(),
    {
        NetworkStats {
            total_peers: self.peers.len(),
            active_peers: self.active_peer_count(),
            banned_peers: self.banned_peer_count_at(now),
            whitelisted_ips: self.whitelist.len(),
            blacklisted_ips: self.blacklist.len(),
        }
    }

    /// `get_stats_at` at the current time.
    pub fn get_stats(&self) -> (r: NetworkStats)
        ensures
            r.total_peers == self.peers.model().len(),
            r.active_peers == active_count(self.peers.model()),
    {
        let now = unix_now();
        self.get_stats_at(now)
    }
}

} // verus!
