//! REST API: server settings, the response records, and how a request is
//! routed to an endpoint.
//!
//! | Method | Path                    | Endpoint            |
//! |--------|-------------------------|---------------------|
//! | GET    | `/api/v1/info`          | node information    |
//! | POST   | `/api/v1/entries`       | create an entry     |
//! | GET    | `/api/v1/entries/:hash` | get an entry        |
//! | GET    | `/api/v1/peers`         | connected peers     |
//! | GET    | `/api/v1/stats`         | node statistics     |

use crate::text::{append_decimal, append_str, decimal, is_prefix, starts_with, str_eq};
use std::time::Instant;
use vstd::prelude::*;
use vstd::string::StrSliceExecFns;

verus! {

/// Settings of the REST API server.
#[derive(Debug, Clone)]
pub struct RestConfig {
    /// Address to bind the server to.
    pub bind_addr: String,
    /// Port to listen on.
    pub port: u16,
    /// Send CORS headers for browser access.
    pub enable_cors: bool,
}

impl RestConfig {
    /// The default settings with another port.
    pub fn with_port(port: u16) -> (c: Self)
        ensures
            c.bind_addr@ == "0.0.0.0"@,
            c.port == port,
            c.enable_cors,
    {
        RestConfig { bind_addr: "0.0.0.0".to_owned(), port, enable_cors: true }
    }

    /// The address to bind, `ip:port`.
    pub fn bind_address(&self) -> (a: String)
        ensures
            a@ == self.bind_addr@ + ":"@ + decimal(self.port as nat),
    {
        let mut a = String::new();
        append_str(&mut a, self.bind_addr.as_str());
        append_str(&mut a, ":");
        append_decimal(&mut a, self.port as u64);
        proof {
            assert(a@ =~= self.bind_addr@ + ":"@ + decimal(self.port as nat));
        }
        a
    }
}

impl Default for RestConfig {
    /// All interfaces, port 8080, CORS on.
    fn default() -> (c: Self)
        ensures
            c.bind_addr@ == "0.0.0.0"@,
            c.port == 8080,
            c.enable_cors,
    {
        RestConfig { bind_addr: "0.0.0.0".to_owned(), port: 8080, enable_cors: true }
    }
}

/// Response of `GET /api/v1/info`.
#[derive(Debug, Clone)]
pub struct NodeInfoResponse {
    pub node_id: String,
    pub version: String,
    pub uptime_secs: u64,
    pub entries_count: u64,
    pub peers_count: usize,
    pub storage_backend: String,
    pub features: Vec<String>,
}

/// Response of `POST /api/v1/entries`.
#[derive(Debug, Clone)]
pub struct CreateEntryResponse {
    pub hash: String,
    pub seq: u32,
    pub timestamp: u64,
}

/// One entry of the response of `GET /api/v1/peers`.
#[derive(Debug, Clone)]
pub struct PeerResponse {
    pub addr: String,
    pub quality: u8,
    pub latest_seq: u32,
    pub last_seen_secs: u64,
}

/// Response of `GET /api/v1/stats`.
#[derive(Debug, Clone)]
pub struct StatsResponse {
    pub entries_count: u64,
    pub actions_count: u64,
    pub storage_used: usize,
    pub peer_count: usize,
    pub uptime_secs: u64,
    pub gossip_rounds: u64,
    pub sync_success: u64,
    pub sync_failed: u64,
}

/// The envelope of every API answer: whether the request succeeded, with
/// its data or its error message.
#[derive(Debug, Clone)]
pub struct ApiResponse<T> {
    pub success: bool,
    pub data: Option<T>,
    pub error: Option<String>,
}

impl<T> ApiResponse<T> {
    /// A successful answer carrying `data`.
    pub fn success(data: T) -> (r: Self)
        ensures
            r.success,
            r.data == Some(data),
            r.error is None,
    {
        ApiResponse { success: true, data: Some(data), error: None }
    }

    /// A failed answer carrying the message `msg` and no data.
    pub fn error(msg: &str) -> (r: ApiResponse<()>)
        ensures
            !r.success,
            r.data is None,
            r.error matches Some(e) && e@ == msg@,
    {
        ApiResponse { success: false, data: None, error: Some(msg.to_owned()) }
    }
}

/// What the server knows of the node when it runs without access to it.
pub struct SharedNodeState {
    pub node_id: String,
    pub version: String,
    pub start_time: Instant,
}

/// The HTTP methods the server tells apart.
#[derive(Debug, Clone, Copy, PartialEq, Eq, Structural)]
pub enum HttpMethod {
    Get,
    Post,
    Options,
    /// Any other method.
    Other,
}

/// The endpoint that answers a request.
#[derive(Debug, Clone, PartialEq, Eq)]
pub enum RestRoute {
    /// `GET /api/v1/info`.
    Info,
    /// `POST /api/v1/entries`.
    CreateEntry,
    /// `GET /api/v1/entries/:hash`, with the hash as given in the path.
    GetEntry(String),
    /// `GET /api/v1/peers`.
    Peers,
    /// `GET /api/v1/stats`.
    Stats,
    /// CORS preflight: any `OPTIONS` request, answered 204 with no body.
    Preflight,
    /// `GET /health` or `GET /`.
    Health,
    /// Anything else, answered 404.
    NotFound,
    /// In static mode, anything but info, preflight and health: answered 503.
    Unavailable,
}

/// The path prefix of the entry endpoint.
pub open spec fn entries_prefix() -> Seq<char> {
    "/api/v1/entries/"@
}

/// Whether `r` is the route of a request when the server has access to the
/// node; the cases are tried in this order. A `GET` whose path starts with
/// `/api/v1/entries/` asks for the entry whose hash is the rest of the path.
pub open spec fn routes_to(method: HttpMethod, url: Seq<char>, r: RestRoute) -> bool {
    if method == HttpMethod::Get && url == "/api/v1/info"@ {
        r == RestRoute::Info
    } else if method == HttpMethod::Post && url == "/api/v1/entries"@ {
        r == RestRoute::CreateEntry
    } else if method == HttpMethod::Get && is_prefix(entries_prefix(), url) {
        r matches RestRoute::GetEntry(h) && h@ == url.subrange(16, url.len() as int)
    } else if method == HttpMethod::Get && url == "/api/v1/peers"@ {
        r == RestRoute::Peers
    } else if method == HttpMethod::Get && url == "/api/v1/stats"@ {
        r == RestRoute::Stats
    } else if method == HttpMethod::Options {
        r == RestRoute::Preflight
    } else if method == HttpMethod::Get && (url == "/health"@ || url == "/"@) {
        r == RestRoute::Health
    } else {
        r == RestRoute::NotFound
    }
}

/// Routes a request of a server with access to the node.
pub fn route_request(method: HttpMethod, url: &str) -> (r: RestRoute)
    ensures
        routes_to(method, url@, r),
{
    proof {
        reveal_strlit("/api/v1/entries/");
        reveal_strlit("/api/v1/info");
    }
    let is_get = method == HttpMethod::Get;
    if is_get && str_eq(url, "/api/v1/info") {
        RestRoute::Info
    } else if method == HttpMethod::Post && str_eq(url, "/api/v1/entries") {
        RestRoute::CreateEntry
    } else if is_get && starts_with(url, "/api/v1/entries/") {
        let n = url.unicode_len();
        let hash = url.substring_char(16, n);
        RestRoute::GetEntry(hash.to_owned())
    } else if is_get && str_eq(url, "/api/v1/peers") {
        RestRoute::Peers
    } else if is_get && str_eq(url, "/api/v1/stats") {
        RestRoute::Stats
    } else if method == HttpMethod::Options {
        RestRoute::Preflight
    } else if is_get && (str_eq(url, "/health") || str_eq(url, "/")) {
        RestRoute::Health
    } else {
        RestRoute::NotFound
    }
}

/// Every documented endpoint is reached by its own method and path, and by
/// nothing else: `GET /health` and `GET /` give the health check, `GET
/// /api/v1/info` the node info, `POST /api/v1/entries` entry creation, `GET
/// /api/v1/entries/<hash>` the entry with that hash, `GET /api/v1/peers`
/// and `GET /api/v1/stats` the peers and statistics, and any `OPTIONS`
/// request the CORS preflight; with access to the node nothing is
/// unavailable.
pub proof fn lemma_routes(method: HttpMethod, url: Seq<char>, r: RestRoute)
    requires
        routes_to(method, url, r),
    ensures
        (r == RestRoute::Health) <==> (method == HttpMethod::Get && (url == "/health"@ || url == "/"@)),
        (r == RestRoute::Info) <==> (method == HttpMethod::Get && url == "/api/v1/info"@),
        (r == RestRoute::CreateEntry) <==> (method == HttpMethod::Post && url == "/api/v1/entries"@),
        (r == RestRoute::Peers) <==> (method == HttpMethod::Get && url == "/api/v1/peers"@),
        (r == RestRoute::Stats) <==> (method == HttpMethod::Get && url == "/api/v1/stats"@),
        (r == RestRoute::Preflight) <==> method == HttpMethod::Options,
        (r is GetEntry) <==> (method == HttpMethod::Get && is_prefix("/api/v1/entries/"@, url)),
        r matches RestRoute::GetEntry(h) ==> "/api/v1/entries/"@ + h@ == url,
        r != RestRoute::Unavailable,
{
    reveal_strlit("/health");
    reveal_strlit("/");
    reveal_strlit("/api/v1/info");
    reveal_strlit("/api/v1/entries");
    reveal_strlit("/api/v1/entries/");
    reveal_strlit("/api/v1/peers");
    reveal_strlit("/api/v1/stats");
    let p = "/api/v1/entries/"@;
    if is_prefix(p, url) {
        assert(url.subrange(0, 16) == p);
        assert(url != "/health"@ && url != "/"@ && url != "/api/v1/info"@ && url != "/api/v1/peers"@
            && url != "/api/v1/stats"@ && url != "/api/v1/entries"@);
        assert(p + url.subrange(16, url.len() as int) =~= url);
    }
    assert(!is_prefix(p, "/health"@));
    assert(!is_prefix(p, "/"@));
    assert(!is_prefix(p, "/api/v1/peers"@));
    assert(!is_prefix(p, "/api/v1/stats"@));
    assert(!is_prefix(p, "/api/v1/info"@));
    assert("/health"@ != "/"@);
    assert("/api/v1/peers"@[8] != "/api/v1/stats"@[8]);
    assert("/api/v1/info"@ != "/api/v1/peers"@);
    assert("/api/v1/info"@ != "/api/v1/stats"@);
}

/// A server without the node answers the health check, the node info and
/// the preflight exactly as a server with it does.
pub proof fn lemma_static_agrees(method: HttpMethod, url: Seq<char>, r: RestRoute)
    requires
        routes_to(method, url, r),
        static_route_spec(method, url) != RestRoute::Unavailable,
    ensures
        r == static_route_spec(method, url),
{
    reveal_strlit("/health");
    reveal_strlit("/");
    reveal_strlit("/api/v1/info");
    reveal_strlit("/api/v1/entries/");
    reveal_strlit("/api/v1/entries");
    reveal_strlit("/api/v1/peers");
    reveal_strlit("/api/v1/stats");
    let p = "/api/v1/entries/"@;
    assert(!is_prefix(p, "/health"@));
    assert(!is_prefix(p, "/"@));
    assert(!is_prefix(p, "/api/v1/info"@));
    assert(!is_prefix(p, "/api/v1/peers"@));
    assert(!is_prefix(p, "/api/v1/stats"@));
    assert("/health"@.len() != "/api/v1/info"@.len());
    assert("/"@.len() != "/api/v1/info"@.len());
    assert("/health"@.len() != "/api/v1/peers"@.len());
    assert("/"@.len() != "/api/v1/peers"@.len());
    assert("/health"@.len() != "/api/v1/stats"@.len());
    assert("/"@.len() != "/api/v1/stats"@.len());
    assert("/api/v1/info"@.len() != "/api/v1/peers"@.len());
    assert("/api/v1/info"@.len() != "/api/v1/stats"@.len());
}

/// The route of a request when the server runs without the node: only the
/// info, preflight and health endpoints answer.
pub open spec fn static_route_spec(method: HttpMethod, url: Seq<char>) -> RestRoute {
    if method == HttpMethod::Get && url == "/api/v1/info"@ {
        RestRoute::Info
    } else if method == HttpMethod::Options {
        RestRoute::Preflight
    } else if method == HttpMethod::Get && (url == "/health"@ || url == "/"@) {
        RestRoute::Health
    } else {
        RestRoute::Unavailable
    }
}

/// Routes a request of a server that runs without the node.
pub fn route_static_request(method: HttpMethod, url: &str) -> (r: RestRoute)
    ensures
        r == static_route_spec(method, url@),
{
    let is_get = method == HttpMethod::Get;
    if is_get && str_eq(url, "/api/v1/info") {
        RestRoute::Info
    } else if method == HttpMethod::Options {
        RestRoute::Preflight
    } else if is_get && (str_eq(url, "/health") || str_eq(url, "/")) {
        RestRoute::Health
    } else {
        RestRoute::Unavailable
    }
}

/// The HTTP status with which a route is answered when its handler succeeds.
pub fn status_of(route: &RestRoute) -> (code: u16)
    ensures
        code == match route {
            RestRoute::Preflight => 204u16,
            RestRoute::NotFound => 404u16,
            RestRoute::Unavailable => 503u16,
            _ => 200u16,
        },
{
    match route {
        RestRoute::Preflight => 204,
        RestRoute::NotFound => 404,
        RestRoute::Unavailable => 503,
        _ => 200,
    }
}

} // verus!
