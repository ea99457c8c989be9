//! A node's settings, the credential gate in front of its API, and the
//! reading of the coordination store's health reply. The caller reads the
//! environment and the request headers and hands in what it found.
use vstd::prelude::*;
use crate::text::{owned, parse_u16, parsed_u16, same_text};

verus! {

/// The settings of a running node.
#[derive(Debug)]
pub struct AppState {
    /// Where the node keeps its buckets, one directory each.
    pub root_dir: String,
    /// The credential every request must carry, when there is one.
    pub api_key: Option<String>,
    /// How to reach the coordination store, when one is configured.
    pub redis_url: Option<String>,
    /// The host name other nodes and clients reach this node by.
    pub public_host: String,
}

pub open spec fn text_or(v: Option<String>, default: Seq<char>) -> Seq<char> {
    match v {
        Some(s) => s@,
        None => default,
    }
}

fn string_or(v: Option<String>, default: &str) -> (r: String)
    ensures
        r@ == text_or(v, default@),
{
    match v {
        Some(s) => s,
        None => owned(default),
    }
}

/// The settings from the configured values: the storage root (default
/// `./storage`), the credential (an empty one counts as none), the store's
/// address, and the advertised host (default `localhost`).
pub fn build_state(root_dir: Option<String>, api_key: Option<String>, redis_url: Option<String>, public_host: Option<String>) -> (r: AppState)
    ensures
        r.root_dir@ == text_or(root_dir, "./storage"@),
        r.api_key == (match api_key {
            Some(k) => if k@.len() == 0 { None::<String> } else { Some(k) },
            None => None,
        }),
        r.redis_url == redis_url,
        r.public_host@ == text_or(public_host, "localhost"@),
{
    let api_key = match api_key {
        Some(k) => if k.as_str().unicode_len() == 0 { None } else { Some(k) },
        None => None,
    };
    AppState {
        root_dir: string_or(root_dir, "./storage"),
        api_key,
        redis_url,
        public_host: string_or(public_host, "localhost"),
    }
}

/// The address of the coordination store, `redis://[:password@]host:port/`.
pub open spec fn redis_url_text(host: Seq<char>, port: Seq<char>, password: Option<Seq<char>>) -> Seq<char> {
    match password {
        Some(p) => if p.len() > 0 {
            "redis://:"@ + p + "@"@ + host + ":"@ + port + "/"@
        } else {
            "redis://"@ + host + ":"@ + port + "/"@
        },
        None => "redis://"@ + host + ":"@ + port + "/"@,
    }
}

/// The address of the coordination store from its configured host (default
/// `localhost`), port (default `6379`) and password (an empty one counts as
/// none). There is always one.
pub fn build_redis_url(host: Option<String>, port: Option<String>, password: Option<String>) -> (r: Option<String>)
    ensures
        r matches Some(u) && u@ == redis_url_text(
            text_or(host, "localhost"@),
            text_or(port, "6379"@),
            match password {
                Some(p) => Some(p@),
                None => None,
            },
        ),
{
    let h = string_or(host, "localhost");
    let p = string_or(port, "6379");
    let mut out = String::new();
    match password {
        Some(pass) => {
            if pass.as_str().unicode_len() > 0 {
                out.append("redis://:");
                out.append(pass.as_str());
                out.append("@");
            } else {
                out.append("redis://");
            }
        },
        None => {
            out.append("redis://");
        },
    }
    out.append(h.as_str());
    out.append(":");
    out.append(p.as_str());
    out.append("/");
    Some(out)
}

/// The port a node listens on, from its configured value: that value when it
/// reads as a port number, else 3001.
pub fn port_from_env(value: Option<&str>) -> (r: u16)
    ensures
        r == match value {
            Some(v) => match parsed_u16(v@) {
                Some(p) => p,
                None => 3001u16,
            },
            None => 3001u16,
        },
{
    match value {
        Some(v) => match parse_u16(v) {
            Some(p) => p,
            None => 3001,
        },
        None => 3001,
    }
}

/// Whether a request may pass the credential gate: always when no credential
/// (or an empty one) is configured, otherwise only when it presents exactly
/// the configured one.
pub open spec fn admits(expected: Option<Seq<char>>, presented: Option<Seq<char>>) -> bool {
    match expected {
        Some(e) => e.len() == 0 || presented == Some(e),
        None => true,
    }
}

/// The credential gate. `presented` is the request's credential header, or
/// `None` when it has none or one that is not text.
pub fn authorized(expected: Option<&str>, presented: Option<&str>) -> (r: bool)
    ensures
        r == admits(
            match expected {
                Some(e) => Some(e@),
                None => None,
            },
            match presented {
                Some(p) => Some(p@),
                None => None,
            },
        ),
{
    match expected {
        Some(e) => {
            if e.unicode_len() == 0 {
                true
            } else {
                match presented {
                    Some(p) => same_text(p, e),
                    None => false,
                }
            }
        },
        None => true,
    }
}

/// The upper-case form that `str::to_uppercase` gives.
pub uninterp spec fn uppercase_of(s: Seq<char>) -> Seq<char>;

/// Relies on `str::to_uppercase`: the upper-case form of `s`, which depends
/// on its characters alone.
#[verifier::external_body]
fn to_upper(s: &str) -> (r: String)
    ensures
        r@ == uppercase_of(s@),
{
    s.to_uppercase()
}

/// Whether an upper-cased health reply is the store's `PONG`.
pub fn is_pong(upper: &str) -> (r: bool)
    ensures
        r == (upper@ == "PONG"@),
{
    same_text(upper, "PONG")
}

/// Whether the coordination store's reply to a ping says it is alive: the
/// reply is `PONG` in any letter case.
pub fn ping_succeeded(reply: &str) -> (r: bool)
    ensures
        r == (uppercase_of(reply@) == "PONG"@),
{
    let upper = to_upper(reply);
    is_pong(upper.as_str())
}

} // verus!
