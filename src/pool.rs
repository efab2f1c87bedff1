//! The registry of named connection pools: availability, fallback lookup,
//! health-check transitions and the settings each pool is built with.
use crate::text::str_eq;
use vstd::prelude::*;

verus! {

/// One pool's identity and availability; the driver's pool that it stands
/// for sits at the same position in the caller's list.
pub struct ConnectionPool {
    name: String,
    database: String,
    available: bool,
}

impl ConnectionPool {
    pub closed spec fn name_view(&self) -> Seq<char> {
        self.name@
    }

    pub closed spec fn database_view(&self) -> Seq<char> {
        self.database@
    }

    pub closed spec fn available_view(&self) -> bool {
        self.available
    }

    /// A pool that starts out available: connections are made on first use.
    pub fn new(name: &str, database: &str) -> (r: ConnectionPool)
        ensures
            r.name_view() == name@,
            r.database_view() == database@,
            r.available_view(),
    {
        ConnectionPool { name: name.to_owned(), database: database.to_owned(), available: true }
    }

    /// Whether the pool is available.
    pub fn is_available(&self) -> (r: bool)
        ensures
            r == self.available_view(),
    {
        self.available
    }

    /// Records the availability of the pool.
    pub fn store_availability(&mut self, available: bool)
        ensures
            final(self).available_view() == available,
            final(self).name_view() == old(self).name_view(),
            final(self).database_view() == old(self).database_view(),
    {
        self.available = available;
    }

    /// The pool's name.
    pub fn name(&self) -> (r: &str)
        ensures
            r@ == self.name_view(),
    {
        self.name.as_str()
    }

    /// The pool's database.
    pub fn database(&self) -> (r: &str)
        ensures
            r@ == self.database_view(),
    {
        self.database.as_str()
    }
}

/// The first available pool named `name` among the first `n`, if any.
pub open spec fn first_available(pools: Seq<ConnectionPool>, name: Seq<char>, n: int) -> Option<int>
    decreases n,
{
    if n <= 0 || n > pools.len() {
        None
    } else {
        match first_available(pools, name, n - 1) {
            Some(i) => Some(i),
            None => if pools[n - 1].name_view() == name && pools[n - 1].available_view() {
                Some(n - 1)
            } else {
                None
            },
        }
    }
}

/// The last pool named `name` among the first `n`, if any.
pub open spec fn last_named(pools: Seq<ConnectionPool>, name: Seq<char>, n: int) -> Option<int>
    decreases n,
{
    if n <= 0 || n > pools.len() {
        None
    } else if pools[n - 1].name_view() == name {
        Some(n - 1)
    } else {
        last_named(pools, name, n - 1)
    }
}

/// The pool that a lookup by name picks: the first available one, else the
/// last one of that name.
pub open spec fn pool_choice(pools: Seq<ConnectionPool>, name: Seq<char>) -> Option<int> {
    match first_available(pools, name, pools.len() as int) {
        Some(i) => Some(i),
        None => last_named(pools, name, pools.len() as int),
    }
}

/// The connection pools, in configuration order. Several may share a name.
pub struct ConnectionPools {
    pools: Vec<ConnectionPool>,
}

impl ConnectionPools {
    pub closed spec fn view_pools(&self) -> Seq<ConnectionPool> {
        self.pools@
    }

    /// The registry of the given pools.
    pub fn new(pools: Vec<ConnectionPool>) -> (r: ConnectionPools)
        ensures
            r.view_pools() == pools@,
    {
        ConnectionPools { pools }
    }

    /// The number of pools.
    pub fn len(&self) -> (r: usize)
        ensures
            r == self.view_pools().len(),
    {
        self.pools.len()
    }

    /// The position of the pool that a lookup by `name` picks: the first
    /// available pool of that name, else the last one of that name, and
    /// `None` only where no pool has that name.
    pub fn pool_index(&self, name: &str) -> (r: Option<usize>)
        ensures
            match r {
                Some(i) => pool_choice(self.view_pools(), name@) == Some(i as int),
                None => pool_choice(self.view_pools(), name@) is None,
            },
    {
        let mut fallback: Option<usize> = None;
        let mut i: usize = 0;
        while i < self.pools.len()
            invariant
                i <= self.pools@.len(),
                first_available(self.pools@, name@, i as int) is None,
                match fallback {
                    Some(j) => last_named(self.pools@, name@, i as int) == Some(j as int),
                    None => last_named(self.pools@, name@, i as int) is None,
                },
            decreases self.pools.len() - i,
        {
            if str_eq(self.pools[i].name.as_str(), name) {
                if self.pools[i].available {
                    proof {
                        lemma_first_available_stays(self.pools@, name@, i as int + 1, i as int);
                    }
                    return Some(i);
                }
                fallback = Some(i);
            }
            i = i + 1;
        }
        fallback
    }

    /// The pool that a lookup by `name` picks.
    pub fn get_pool(&self, name: &str) -> (r: Option<&ConnectionPool>)
        ensures
            match r {
                Some(p) => exists|i: int|
                    pool_choice(self.view_pools(), name@) == Some(i) && 0 <= i < self.view_pools().len()
                        && *p == self.view_pools()[i],
                None => pool_choice(self.view_pools(), name@) is None,
            },
    {
        match self.pool_index(name) {
            Some(i) => {
                proof {
                    lemma_choice_in_range(self.pools@, name@);
                }
                Some(&self.pools[i])
            },
            None => None,
        }
    }

    /// Records the outcome of a health check on a connection of the pool at
    /// `index`: a failed ping marks that pool unavailable and refuses the
    /// connection; a successful one marks it available only where it still
    /// has idle connections. Returns whether the connection may be handed
    /// out. An index past the end changes nothing.
    pub fn record_ping(&mut self, index: usize, ping_ok: bool, num_idle: u32) -> (r: bool)
        ensures
            r == ping_ok,
            final(self).view_pools().len() == old(self).view_pools().len(),
            index < old(self).view_pools().len() ==> {
                &&& forall|j: int|
                    0 <= j < old(self).view_pools().len() && j != index ==> final(self).view_pools()[j]
                        == old(self).view_pools()[j]
                &&& final(self).view_pools()[index as int].available_view() == (ping_ok && num_idle > 0)
                &&& final(self).view_pools()[index as int].name_view() == old(self).view_pools()[index as int].name_view()
                &&& final(self).view_pools()[index as int].database_view()
                    == old(self).view_pools()[index as int].database_view()
            },
            index >= old(self).view_pools().len() ==> final(self).view_pools() == old(self).view_pools(),
    {
        if index < self.pools.len() {
            let ghost before = self.pools@;
            let mut p = self.pools.remove(index);
            p.available = ping_ok && num_idle > 0;
            self.pools.insert(index, p);
            assert forall|j: int| 0 <= j < before.len() && j != index implies self.pools@[j] == before[j] by {
            }
        }
        ping_ok
    }
}

/// Whether a connection idle for `idle_secs` must be pinged before it is
/// handed out.
pub fn needs_ping(idle_secs: u64, health_check_interval: u64) -> (r: bool)
    ensures
        r == (idle_secs > health_check_interval),
{
    idle_secs > health_check_interval
}

proof fn lemma_first_available_stays(pools: Seq<ConnectionPool>, name: Seq<char>, n: int, k: int)
    requires
        0 < n <= pools.len(),
        first_available(pools, name, n) == Some(k),
    ensures
        first_available(pools, name, pools.len() as int) == Some(k),
    decreases pools.len() - n,
{
    if n < pools.len() {
        lemma_first_available_stays(pools, name, n + 1, k);
    }
}

proof fn lemma_first_available_none(pools: Seq<ConnectionPool>, name: Seq<char>, n: int)
    ensures
        match first_available(pools, name, n) {
            Some(i) => 0 <= i < n && i < pools.len(),
            None => true,
        },
    decreases n,
{
    if n > 0 && n <= pools.len() {
        lemma_first_available_none(pools, name, n - 1);
    }
}

proof fn lemma_last_named_range(pools: Seq<ConnectionPool>, name: Seq<char>, n: int)
    ensures
        match last_named(pools, name, n) {
            Some(i) => 0 <= i < n && i < pools.len() && pools[i].name_view() == name,
            None => true,
        },
    decreases n,
{
    if n > 0 && n <= pools.len() {
        lemma_last_named_range(pools, name, n - 1);
    }
}

proof fn lemma_choice_in_range(pools: Seq<ConnectionPool>, name: Seq<char>)
    ensures
        match pool_choice(pools, name) {
            Some(i) => 0 <= i < pools.len(),
            None => true,
        },
{
    lemma_first_available_none(pools, name, pools.len() as int);
    lemma_last_named_range(pools, name, pools.len() as int);
}

proof fn lemma_first_available_finds(pools: Seq<ConnectionPool>, name: Seq<char>, n: int, i: int)
    requires
        0 <= i < n <= pools.len(),
        pools[i].name_view() == name,
        pools[i].available_view(),
    ensures
        first_available(pools, name, n) is Some,
    decreases n,
{
    if i < n - 1 {
        lemma_first_available_finds(pools, name, n - 1, i);
    }
}

proof fn lemma_first_available_sound(pools: Seq<ConnectionPool>, name: Seq<char>, n: int)
    ensures
        match first_available(pools, name, n) {
            Some(k) => 0 <= k < pools.len() && pools[k].name_view() == name && pools[k].available_view(),
            None => true,
        },
    decreases n,
{
    if n > 0 && n <= pools.len() {
        lemma_first_available_sound(pools, name, n - 1);
    }
}

proof fn lemma_last_named_finds(pools: Seq<ConnectionPool>, name: Seq<char>, n: int, i: int)
    requires
        0 <= i < n <= pools.len(),
        pools[i].name_view() == name,
    ensures
        last_named(pools, name, n) is Some,
    decreases n,
{
    if i < n - 1 && pools[n - 1].name_view() != name {
        lemma_last_named_finds(pools, name, n - 1, i);
    }
}

/// A lookup by name picks an available pool of that name whenever there is
/// one, and picks some pool of that name whenever there is one at all.
pub proof fn lemma_pool_fallback(pools: Seq<ConnectionPool>, name: Seq<char>, i: int)
    requires
        0 <= i < pools.len(),
        pools[i].name_view() == name,
    ensures
        pool_choice(pools, name) is Some,
        ({
            let k = pool_choice(pools, name)->0;
            &&& 0 <= k < pools.len()
            &&& pools[k].name_view() == name
            &&& pools[i].available_view() ==> pools[k].available_view()
        }),
{
    lemma_first_available_sound(pools, name, pools.len() as int);
    lemma_last_named_range(pools, name, pools.len() as int);
    lemma_last_named_finds(pools, name, pools.len() as int, i);
    if pools[i].available_view() {
        lemma_first_available_finds(pools, name, pools.len() as int, i);
    }
}

/// What the configuration gives for one pool; absent entries take defaults.
pub struct PoolConfig {
    pub name: Option<String>,
    pub database: Option<String>,
    pub username: Option<String>,
    pub password: Option<String>,
    pub host: Option<String>,
    pub port: Option<u16>,
    pub statement_cache_capacity: Option<usize>,
    pub max_connections: Option<u32>,
    pub min_connections: Option<u32>,
    pub max_lifetime: Option<u64>,
    pub idle_timeout: Option<u64>,
    pub acquire_timeout: Option<u64>,
    pub health_check_interval: Option<u64>,
}

/// The settings a pool is built with. Durations are in seconds.
pub struct PoolSettings {
    pub name: String,
    pub database: String,
    pub username: String,
    pub password: String,
    pub host: Option<String>,
    pub port: Option<u16>,
    pub statement_cache_capacity: Option<usize>,
    pub max_connections: u32,
    pub min_connections: u32,
    pub max_lifetime: u64,
    pub idle_timeout: u64,
    pub acquire_timeout: u64,
    pub health_check_interval: u64,
}

/// A required configuration entry that is missing.
#[derive(Clone, Copy, Debug, PartialEq, Eq, Structural)]
pub enum ConfigError {
    MissingDatabase,
    MissingUsername,
    MissingPassword,
}

fn take_or(v: Option<u64>, default: u64) -> (r: u64)
    ensures
        r == match v {
            Some(x) => x,
            None => default,
        },
{
    match v {
        Some(x) => x,
        None => default,
    }
}

fn take_or_u32(v: Option<u32>, default: u32) -> (r: u32)
    ensures
        r == match v {
            Some(x) => x,
            None => default,
        },
{
    match v {
        Some(x) => x,
        None => default,
    }
}

impl PoolConfig {
    /// Resolves the settings: the database, username and password are
    /// required; the name defaults to `main`, the pool to at most 16 and at
    /// least 2 connections, a lifetime of an hour, an idle timeout of ten
    /// minutes, an acquire timeout of 30 s and a health check after 60 s idle.
    pub fn resolve(self) -> (r: Result<PoolSettings, ConfigError>)
        ensures
            self.database is None ==> r == Err::<PoolSettings, ConfigError>(ConfigError::MissingDatabase),
            self.database is Some && self.username is None ==> r == Err::<PoolSettings, ConfigError>(
                ConfigError::MissingUsername,
            ),
            self.database is Some && self.username is Some && self.password is None ==> r == Err::<
                PoolSettings,
                ConfigError,
            >(ConfigError::MissingPassword),
            r is Ok <==> (self.database is Some && self.username is Some && self.password is Some),
            r matches Ok(s) ==> {
                &&& s.name@ == match self.name {
                    Some(n) => n@,
                    None => "main"@,
                }
                &&& s.database@ == self.database->0@
                &&& s.username@ == self.username->0@
                &&& s.password@ == self.password->0@
                &&& s.host == self.host
                &&& s.port == self.port
                &&& s.statement_cache_capacity == self.statement_cache_capacity
                &&& s.max_connections == match self.max_connections {
                    Some(x) => x,
                    None => 16,
                }
                &&& s.min_connections == match self.min_connections {
                    Some(x) => x,
                    None => 2,
                }
                &&& s.max_lifetime == match self.max_lifetime {
                    Some(x) => x,
                    None => 3600,
                }
                &&& s.idle_timeout == match self.idle_timeout {
                    Some(x) => x,
                    None => 600,
                }
                &&& s.acquire_timeout == match self.acquire_timeout {
                    Some(x) => x,
                    None => 30,
                }
                &&& s.health_check_interval == match self.health_check_interval {
                    Some(x) => x,
                    None => 60,
                }
            },
    {
        let database = match self.database {
            Some(d) => d,
            None => return Err(ConfigError::MissingDatabase),
        };
        let username = match self.username {
            Some(u) => u,
            None => return Err(ConfigError::MissingUsername),
        };
        let password = match self.password {
            Some(p) => p,
            None => return Err(ConfigError::MissingPassword),
        };
        let name = match self.name {
            Some(n) => n,
            None => "main".to_owned(),
        };
        Ok(PoolSettings {
            name,
            database,
            username,
            password,
            host: self.host,
            port: self.port,
            statement_cache_capacity: self.statement_cache_capacity,
            max_connections: take_or_u32(self.max_connections, 16),
            min_connections: take_or_u32(self.min_connections, 2),
            max_lifetime: take_or(self.max_lifetime, 3600),
            idle_timeout: take_or(self.idle_timeout, 600),
            acquire_timeout: take_or(self.acquire_timeout, 30),
            health_check_interval: take_or(self.health_check_interval, 60),
        })
    }
}

} // verus!
