//! The redirect resolver: what a node does with a read or stat of an object.
//! It looks on its own disk first; on a miss it asks the location directory
//! once, and either redirects the client to the owning node or answers that
//! the object is not found. It never chases a second redirect, never fetches
//! the bytes itself, and never checks that the owner still has the object.
use vstd::prelude::*;
use crate::descriptor::{json_text_field, json_text_member, json_u64_field, json_u64_member};
use crate::directory::{location_key, location_key_text};
use crate::text::{decimal, push_decimal};

verus! {

/// Which object endpoint a request came to.
#[derive(Debug, Clone, Copy, PartialEq, Eq, Structural)]
pub enum Endpoint {
    /// `GET /api/buckets/{bucket}/files/{key}`: the object's bytes.
    Download,
    /// `GET /api/buckets/{bucket}/files/{key}/info`: the object's metadata.
    Info,
}

/// The next thing a node does for a read.
#[derive(Debug)]
pub enum ReadStep {
    /// The object is on this node's disk: serve it from there.
    ServeLocal,
    /// Not on disk: ask the location directory for this key.
    QueryDirectory(String),
    /// Send the client to this URL on the owning node.
    Redirect(String),
    /// Answer that the object does not exist.
    NotFound,
}

/// What a read step says.
pub ghost enum StepModel {
    ServeLocal,
    QueryDirectory(Seq<char>),
    Redirect(Seq<char>),
    NotFound,
}

impl View for ReadStep {
    type V = StepModel;

    open spec fn view(&self) -> StepModel {
        match self {
            ReadStep::ServeLocal => StepModel::ServeLocal,
            ReadStep::QueryDirectory(k) => StepModel::QueryDirectory(k@),
            ReadStep::Redirect(u) => StepModel::Redirect(u@),
            ReadStep::NotFound => StepModel::NotFound,
        }
    }
}

/// The URL of the same endpoint on the node at `host` and `port`.
pub open spec fn redirect_text(host: Seq<char>, port: nat, bucket: Seq<char>, key: Seq<char>, endpoint: Endpoint) -> Seq<char> {
    "http://"@ + host + ":"@ + decimal(port) + "/api/buckets/"@ + bucket + "/files/"@ + key
        + match endpoint {
        Endpoint::Download => Seq::<char>::empty(),
        Endpoint::Info => "/info"@,
    }
}

/// Builds the URL of the same endpoint on the node at `host` and `port`.
pub fn redirect_url(host: &str, port: u64, bucket: &str, key: &str, endpoint: Endpoint) -> (r: String)
    ensures
        r@ == redirect_text(host@, port as nat, bucket@, key@, endpoint),
{
    let mut out = String::new();
    out.append("http://");
    out.append(host);
    out.append(":");
    push_decimal(&mut out, port);
    out.append("/api/buckets/");
    out.append(bucket);
    out.append("/files/");
    out.append(key);
    if endpoint == Endpoint::Info {
        out.append("/info");
    }
    proof {
        if endpoint == Endpoint::Download {
            assert(out@ + Seq::<char>::empty() =~= out@);
        }
    }
    out
}

/// The first step of a read of object `key` in `bucket`, given whether this
/// node has it on disk.
pub open spec fn probe_outcome(bucket: Seq<char>, key: Seq<char>, present: bool) -> StepModel {
    if present {
        StepModel::ServeLocal
    } else {
        StepModel::QueryDirectory(location_key_text(bucket, key))
    }
}

/// The first step of a read of object `key` in `bucket`: serve it when it is
/// on this node's disk, otherwise look up its owner.
pub fn after_local_probe(bucket: &str, key: &str, present: bool) -> (r: ReadStep)
    ensures
        r@ == probe_outcome(bucket@, key@, present),
{
    if present {
        ReadStep::ServeLocal
    } else {
        ReadStep::QueryDirectory(location_key(bucket, key))
    }
}

/// The step after the directory answered a lookup for object `key` in
/// `bucket`. `reply` is the stored owner record, or `None` when there is
/// none or the directory could not be reached.
pub open spec fn reply_outcome(bucket: Seq<char>, key: Seq<char>, endpoint: Endpoint, reply: Option<Seq<char>>) -> StepModel {
    match reply {
        Some(doc) => match (json_text_member(doc, "host"@), json_u64_member(doc, "port"@)) {
            (Some(host), Some(port)) => StepModel::Redirect(redirect_text(host, port as nat, bucket, key, endpoint)),
            _ => StepModel::NotFound,
        },
        None => StepModel::NotFound,
    }
}

/// The last step of a read that missed on this node: redirect to the owner
/// that the directory named, or not found when it named none (or a record
/// without a host and port). A directory that cannot be reached counts as
/// naming none, so the read still ends, as not found.
pub fn after_directory_reply(bucket: &str, key: &str, endpoint: Endpoint, reply: Option<String>) -> (r: ReadStep)
    ensures
        r@ == reply_outcome(bucket@, key@, endpoint, match reply {
            Some(d) => Some(d@),
            None => None,
        }),
        !(r is QueryDirectory),
        !(r is ServeLocal),
{
    match reply {
        Some(doc) => {
            let host = json_text_field(doc.as_str(), "host");
            let port = json_u64_field(doc.as_str(), "port");
            match (host, port) {
                (Some(h), Some(p)) => ReadStep::Redirect(redirect_url(h.as_str(), p, bucket, key, endpoint)),
                _ => ReadStep::NotFound,
            }
        },
        None => ReadStep::NotFound,
    }
}

} // verus!
