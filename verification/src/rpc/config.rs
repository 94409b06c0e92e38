//! CORS and rate limit settings of the RPC server.

use vstd::prelude::*;

verus! {

/// The texts of a list of strings.
pub open spec fn texts(v: Seq<String>) -> Seq<Seq<char>> {
    v.map_values(|s: String| s@)
}

/// CORS configuration for the RPC server.
#[derive(Clone, Debug)]
pub struct CorsConfig {
    /// Allowed origins. Empty means no CORS headers are sent; `["*"]` allows
    /// all origins (not recommended for production).
    pub allowed_origins: Vec<String>,
    /// Allowed methods.
    pub allowed_methods: Vec<String>,
    /// Allowed headers.
    pub allowed_headers: Vec<String>,
    /// Max age for preflight cache (seconds).
    pub max_age: u64,
}

fn strings1(a: &str) -> (v: Vec<String>)
    ensures
        texts(v@) == seq![a@],
{
    let mut v: Vec<String> = Vec::new();
    v.push(String::from_str(a));
    assert(texts(v@) =~= seq![a@]);
    v
}

fn strings3(a: &str, b: &str, c: &str) -> (v: Vec<String>)
    ensures
        texts(v@) == seq![a@, b@, c@],
{
    let mut v: Vec<String> = Vec::new();
    v.push(String::from_str(a));
    v.push(String::from_str(b));
    v.push(String::from_str(c));
    assert(texts(v@) =~= seq![a@, b@, c@]);
    v
}

fn strings5(a: &str, b: &str, c: &str, d: &str, e: &str) -> (v: Vec<String>)
    ensures
        texts(v@) == seq![a@, b@, c@, d@, e@],
{
    let mut v: Vec<String> = Vec::new();
    v.push(String::from_str(a));
    v.push(String::from_str(b));
    v.push(String::from_str(c));
    v.push(String::from_str(d));
    v.push(String::from_str(e));
    assert(texts(v@) =~= seq![a@, b@, c@, d@, e@]);
    v
}

impl Default for CorsConfig {
    /// Allows the local development origin with GET, POST and OPTIONS.
    fn default() -> (c: Self)
        ensures
            texts(c.allowed_origins@) == seq!["http://localhost:3000"@],
            texts(c.allowed_methods@) == seq!["GET"@, "POST"@, "OPTIONS"@],
            texts(c.allowed_headers@) == seq!["Content-Type"@],
            c.max_age == 3600,
    {
        CorsConfig {
            allowed_origins: strings1("http://localhost:3000"),
            allowed_methods: strings3("GET", "POST", "OPTIONS"),
            allowed_headers: strings1("Content-Type"),
            max_age: 3600,
        }
    }
}

impl CorsConfig {
    /// Create a restrictive CORS config that allows no origins.
    pub fn none() -> (c: Self)
        ensures
            c.allowed_origins@.len() == 0,
            c.allowed_methods@.len() == 0,
            c.allowed_headers@.len() == 0,
            c.max_age == 0,
    {
        CorsConfig {
            allowed_origins: Vec::new(),
            allowed_methods: Vec::new(),
            allowed_headers: Vec::new(),
            max_age: 0,
        }
    }

    /// Create a permissive CORS config for development. Do not use in
    /// production.
    pub fn permissive() -> (c: Self)
        ensures
            texts(c.allowed_origins@) == seq!["*"@],
            texts(c.allowed_methods@) == seq!["GET"@, "POST"@, "PUT"@, "DELETE"@, "OPTIONS"@],
            texts(c.allowed_headers@) == seq!["*"@],
            c.max_age == 86400,
    {
        CorsConfig {
            allowed_origins: strings1("*"),
            allowed_methods: strings5("GET", "POST", "PUT", "DELETE", "OPTIONS"),
            allowed_headers: strings1("*"),
            max_age: 86400,
        }
    }
}

/// Rate limiting configuration.
#[derive(Clone, Copy, Debug, PartialEq, Eq)]
pub struct RateLimitConfig {
    /// Maximum requests per second per client.
    pub requests_per_second: u64,
    /// Burst size for rate limiting.
    pub burst_size: u64,
}

impl Default for RateLimitConfig {
    /// 100 requests per second with bursts of 200.
    fn default() -> (c: Self)
        ensures
            c.requests_per_second == 100,
            c.burst_size == 200,
    {
        RateLimitConfig { requests_per_second: 100, burst_size: 200 }
    }
}

impl RateLimitConfig {
    /// Disable rate limiting.
    pub fn disabled() -> (c: Self)
        ensures
            c.requests_per_second == u64::MAX,
            c.burst_size == u64::MAX,
    {
        RateLimitConfig { requests_per_second: u64::MAX, burst_size: u64::MAX }
    }
}

/// What a CORS setting allows: anything, or the listed values (those that
/// parse as such are used).
#[derive(Debug, Clone)]
pub enum Allowed {
    /// Any value.
    Any,
    /// The listed values.
    List(Vec<String>),
}

/// The CORS layer a configuration asks for; an empty origin list asks for a
/// layer that sends no CORS headers.
#[derive(Debug, Clone)]
pub struct CorsPlan {
    /// Allowed origins.
    pub origins: Allowed,
    /// Allowed methods.
    pub methods: Allowed,
    /// Allowed headers.
    pub headers: Allowed,
    /// Max age for preflight cache (seconds).
    pub max_age: u64,
}

/// Whether a list holds `*`.
pub open spec fn has_wildcard(v: Seq<Seq<char>>) -> bool {
    exists|i: int| 0 <= i < v.len() && v[i] == "*"@
}

/// The model of an allowance.
pub open spec fn allowed_view(a: Allowed) -> Option<Seq<Seq<char>>> {
    match a {
        Allowed::Any => None,
        Allowed::List(v) => Some(texts(v@)),
    }
}

fn copy_strings(v: &Vec<String>) -> (r: Vec<String>)
    ensures
        texts(r@) == texts(v@),
{
    let mut r: Vec<String> = Vec::new();
    let mut i: usize = 0;
    while i < v.len()
        invariant
            0 <= i <= v.len(),
            texts(r@) == texts(v@).take(i as int),
        decreases v.len() - i,
    {
        let ghost r0 = r@;
        r.push(v[i].clone());
        proof {
            assert(texts(r@) =~= texts(r0).push(v@[i as int]@));
            assert(texts(v@).take(i + 1) =~= texts(v@).take(i as int).push(v@[i as int]@));
        }
        i = i + 1;
    }
    assert(texts(v@).take(v.len() as int) =~= texts(v@));
    r
}

fn is_star(s: &String) -> (r: bool)
    ensures
        r == (s@ == "*"@),
{
    proof {
        reveal_strlit("*");
    }
    let t = s.as_str();
    if t.unicode_len() == 1 && t.get_char(0) == '*' {
        assert(s@ =~= "*"@);
        true
    } else {
        assert(s@ == "*"@ ==> s@.len() == 1 && s@[0] == '*');
        false
    }
}

fn contains_wildcard(v: &Vec<String>) -> (r: bool)
    ensures
        r == has_wildcard(texts(v@)),
{
    let mut i: usize = 0;
    while i < v.len()
        invariant
            0 <= i <= v.len(),
            forall|k: int| 0 <= k < i ==> texts(v@)[k] != "*"@,
        decreases v.len() - i,
    {
        if is_star(&v[i]) {
            assert(texts(v@)[i as int] == "*"@);
            return true;
        }
        assert(texts(v@)[i as int] == v@[i as int]@);
        i = i + 1;
    }
    false
}

fn allowance(v: &Vec<String>) -> (a: Allowed)
    ensures
        allowed_view(a) == if has_wildcard(texts(v@)) {
            None
        } else {
            Some(texts(v@))
        },
{
    if contains_wildcard(v) {
        Allowed::Any
    } else {
        Allowed::List(copy_strings(v))
    }
}

impl CorsConfig {
    /// The CORS layer this configuration asks for: none for an empty origin
    /// list; any origin for exactly `["*"]`; any method or header where the
    /// list holds `*`; otherwise the listed values.
    pub fn cors_plan(&self) -> (p: Option<CorsPlan>)
        ensures
            self.allowed_origins@.len() == 0 ==> p is None,
            self.allowed_origins@.len() > 0 ==> (p matches Some(plan) && {
                &&& allowed_view(plan.origins) == if texts(self.allowed_origins@) == seq!["*"@] {
                    None
                } else {
                    Some(texts(self.allowed_origins@))
                }
                &&& allowed_view(plan.methods) == if has_wildcard(texts(self.allowed_methods@)) {
                    None
                } else {
                    Some(texts(self.allowed_methods@))
                }
                &&& allowed_view(plan.headers) == if has_wildcard(texts(self.allowed_headers@)) {
                    None
                } else {
                    Some(texts(self.allowed_headers@))
                }
                &&& plan.max_age == self.max_age
            }),
    {
        if self.allowed_origins.len() == 0 {
            return None;
        }
        let only_wildcard = self.allowed_origins.len() == 1 && is_star(&self.allowed_origins[0]);
        proof {
            if only_wildcard {
                assert(texts(self.allowed_origins@) =~= seq!["*"@]);
            }
            if texts(self.allowed_origins@) =~= seq!["*"@] {
                assert(texts(self.allowed_origins@).len() == self.allowed_origins@.len());
                assert(texts(self.allowed_origins@)[0] == self.allowed_origins@[0]@);
                assert(only_wildcard);
            }
        }
        let origins = if only_wildcard {
            Allowed::Any
        } else {
            Allowed::List(copy_strings(&self.allowed_origins))
        };
        Some(
            CorsPlan {
                origins,
                methods: allowance(&self.allowed_methods),
                headers: allowance(&self.allowed_headers),
                max_age: self.max_age,
            },
        )
    }
}

/// Whether a CORS setting is the default one: the local development origin
/// with GET, POST and OPTIONS, `Content-Type`, an hour's cache.
pub open spec fn is_default_cors(c: CorsConfig) -> bool {
    &&& texts(c.allowed_origins@) == seq!["http://localhost:3000"@]
    &&& texts(c.allowed_methods@) == seq!["GET"@, "POST"@, "OPTIONS"@]
    &&& texts(c.allowed_headers@) == seq!["Content-Type"@]
    &&& c.max_age == 3600
}

/// Configuration for the RPC server (addresses as `IP:port` text).
#[derive(Clone, Debug)]
pub struct RpcServerConfig {
    /// Address for the HTTP status endpoints.
    pub http_addr: String,
    /// Address for the JSON-RPC server.
    pub jsonrpc_addr: String,
    /// Chain ID for the Ethereum API.
    pub chain_id: u64,
    /// CORS configuration.
    pub cors: CorsConfig,
    /// Rate limiting configuration.
    pub rate_limit: RateLimitConfig,
    /// Maximum number of concurrent connections.
    pub max_connections: u32,
}

impl RpcServerConfig {
    /// Create a new RPC configuration with default CORS and rate limiting
    /// and at most 100 connections.
    pub fn new(http_addr: String, jsonrpc_addr: String, chain_id: u64) -> (c: Self)
        ensures
            c.http_addr@ == http_addr@,
            c.jsonrpc_addr@ == jsonrpc_addr@,
            c.chain_id == chain_id,
            is_default_cors(c.cors),
            c.rate_limit.requests_per_second == 100 && c.rate_limit.burst_size == 200,
            c.max_connections == 100,
    {
        RpcServerConfig {
            http_addr,
            jsonrpc_addr,
            chain_id,
            cors: CorsConfig::default(),
            rate_limit: RateLimitConfig::default(),
            max_connections: 100,
        }
    }

    /// Create a configuration with the same address for both HTTP and
    /// JSON-RPC.
    pub fn single_addr(addr: String, chain_id: u64) -> (c: Self)
        ensures
            c.http_addr@ == addr@,
            c.jsonrpc_addr@ == addr@,
            c.chain_id == chain_id,
            is_default_cors(c.cors),
            c.rate_limit.requests_per_second == 100 && c.rate_limit.burst_size == 200,
            c.max_connections == 100,
    {
        let other = addr.clone();
        Self::new(addr, other, chain_id)
    }

    /// Set CORS allowed origins.
    pub fn with_cors_origins(self, origins: Vec<String>) -> (c: Self)
        ensures
            c.cors.allowed_origins@ == origins@,
            c.cors.allowed_methods@ == self.cors.allowed_methods@,
            c.cors.allowed_headers@ == self.cors.allowed_headers@,
            c.cors.max_age == self.cors.max_age,
            c.http_addr@ == self.http_addr@ && c.jsonrpc_addr@ == self.jsonrpc_addr@,
            c.chain_id == self.chain_id,
            c.rate_limit == self.rate_limit,
            c.max_connections == self.max_connections,
    {
        let mut c = self;
        c.cors.allowed_origins = origins;
        c
    }

    /// Set the rate limit, in requests per second.
    pub fn with_rate_limit(self, requests_per_second: u64) -> (c: Self)
        ensures
            c.rate_limit.requests_per_second == requests_per_second,
            c.rate_limit.burst_size == self.rate_limit.burst_size,
            c.cors == self.cors,
            c.http_addr@ == self.http_addr@ && c.jsonrpc_addr@ == self.jsonrpc_addr@,
            c.chain_id == self.chain_id,
            c.max_connections == self.max_connections,
    {
        let mut c = self;
        c.rate_limit.requests_per_second = requests_per_second;
        c
    }

    /// Set the maximum number of connections.
    pub fn with_max_connections(self, max_connections: u32) -> (c: Self)
        ensures
            c.max_connections == max_connections,
            c.rate_limit == self.rate_limit,
            c.cors == self.cors,
            c.http_addr@ == self.http_addr@ && c.jsonrpc_addr@ == self.jsonrpc_addr@,
            c.chain_id == self.chain_id,
    {
        let mut c = self;
        c.max_connections = max_connections;
        c
    }
}

impl Default for RpcServerConfig {
    /// Both servers on `127.0.0.1:8545`, chain 1, defaults otherwise.
    fn default() -> (c: Self)
        ensures
            c.http_addr@ == "127.0.0.1:8545"@,
            c.jsonrpc_addr@ == "127.0.0.1:8545"@,
            c.chain_id == 1,
            is_default_cors(c.cors),
            c.rate_limit.requests_per_second == 100 && c.rate_limit.burst_size == 200,
            c.max_connections == 100,
    {
        Self::new(String::from_str("127.0.0.1:8545"), String::from_str("127.0.0.1:8545"), 1)
    }
}

} // verus!
