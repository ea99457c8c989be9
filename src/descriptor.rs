//! Node descriptors: who a gateway node is and where it listens, and the
//! JSON text under which the shared directory and registry store them,
//! `{"host":...,"id":...,"port":...}`.
use vstd::prelude::*;
use crate::api::NodeRegisterReq;
use crate::text::{decimal, digit_char, push_decimal};

verus! {

/// One running gateway node.
#[derive(Debug)]
pub struct NodeDescriptor {
    pub id: String,
    pub host: String,
    pub port: u16,
}

/// What a node descriptor says.
pub ghost struct NodeModel {
    pub id: Seq<char>,
    pub host: Seq<char>,
    pub port: u16,
}

impl View for NodeDescriptor {
    type V = NodeModel;

    open spec fn view(&self) -> NodeModel {
        NodeModel { id: self.id@, host: self.host@, port: self.port }
    }
}

impl NodeDescriptor {
    /// A copy with the same contents.
    pub fn duplicate(&self) -> (r: NodeDescriptor)
        ensures
            r@ == self@,
    {
        NodeDescriptor { id: self.id.clone(), host: self.host.clone(), port: self.port }
    }
}

pub open spec fn opt_text(o: Option<String>) -> Option<Seq<char>> {
    match o {
        Some(s) => Some(s@),
        None => None,
    }
}

/// A lowercase hexadecimal digit.
pub open spec fn hex_digit(d: nat) -> char {
    if d < 10 {
        digit_char(d)
    } else if d == 10 {
        'a'
    } else if d == 11 {
        'b'
    } else if d == 12 {
        'c'
    } else if d == 13 {
        'd'
    } else if d == 14 {
        'e'
    } else {
        'f'
    }
}

/// How one character stands inside a JSON string as `serde_json` writes it:
/// a quote and a backslash take a backslash before them, five control
/// characters have short escapes, the other control characters are written
/// `\u00XX`, and every other character stands as it is.
pub open spec fn json_escaped_char(c: char) -> Seq<char> {
    if c == '"' {
        seq!['\\', '"']
    } else if c == '\\' {
        seq!['\\', '\\']
    } else if c == '\u{8}' {
        seq!['\\', 'b']
    } else if c == '\t' {
        seq!['\\', 't']
    } else if c == '\n' {
        seq!['\\', 'n']
    } else if c == '\u{c}' {
        seq!['\\', 'f']
    } else if c == '\r' {
        seq!['\\', 'r']
    } else if (c as nat) < 32 {
        seq!['\\', 'u', '0', '0', hex_digit(c as nat / 16), hex_digit(c as nat % 16)]
    } else {
        seq![c]
    }
}

/// The characters of `s` escaped for a JSON string.
pub open spec fn json_escaped(s: Seq<char>) -> Seq<char>
    decreases s.len(),
{
    if s.len() == 0 {
        Seq::empty()
    } else {
        json_escaped(s.drop_last()) + json_escaped_char(s.last())
    }
}

/// The JSON string literal for `s`: its escaped characters between quotes.
pub open spec fn json_string_literal(s: Seq<char>) -> Seq<char> {
    seq!['"'] + json_escaped(s) + seq!['"']
}

/// The string held by member `field` of the JSON object `doc`, as
/// `serde_json` reads it; `None` where `doc` is not JSON, not an object, or
/// lacks that member, or the member is not a string.
pub uninterp spec fn json_text_member(doc: Seq<char>, field: Seq<char>) -> Option<Seq<char>>;

/// The unsigned integer held by member `field` of the JSON object `doc`, as
/// `serde_json` reads it; `None` where there is no such member or it is not
/// a number that fits in a `u64`.
pub uninterp spec fn json_u64_member(doc: Seq<char>, field: Seq<char>) -> Option<u64>;

/// Relies on `serde_json::to_string` for a `str`: the JSON string literal of
/// `s`, escaped by serde_json's table of escapes. Writing into memory cannot
/// fail, so the default is never taken.
#[verifier::external_body]
fn json_quote(s: &str) -> (r: String)
    ensures
        r@ == json_string_literal(s@),
{
    serde_json::to_string(s).unwrap_or_default()
}

/// Relies on `serde_json::from_str` into a `serde_json::Value`, then
/// `Value::get` and `Value::as_str`: the string member `field` of `doc`.
#[verifier::external_body]
pub(crate) fn json_text_field(doc: &str, field: &str) -> (r: Option<String>)
    ensures
        opt_text(r) == json_text_member(doc@, field@),
{
    let v: serde_json::Value = serde_json::from_str(doc).ok()?;
    let s = v.get(field)?.as_str()?;
    Some(s.to_string())
}

/// Relies on `serde_json::from_str` into a `serde_json::Value`, then
/// `Value::get` and `Value::as_u64`: the unsigned integer member `field` of
/// `doc`.
#[verifier::external_body]
pub(crate) fn json_u64_field(doc: &str, field: &str) -> (r: Option<u64>)
    ensures
        r == json_u64_member(doc@, field@),
{
    let v: serde_json::Value = serde_json::from_str(doc).ok()?;
    v.get(field)?.as_u64()
}

/// The stored form of a descriptor: a JSON object with its members in the
/// order `host`, `id`, `port`.
pub open spec fn descriptor_json(n: NodeModel) -> Seq<char> {
    "{\"host\":"@ + json_string_literal(n.host) + ",\"id\":"@ + json_string_literal(n.id)
        + ",\"port\":"@ + decimal(n.port as nat) + "}"@
}

/// The descriptor that a stored text stands for: one whose `id` and `host`
/// are strings and whose `port` is an integer that fits a port number.
pub open spec fn descriptor_of(doc: Seq<char>) -> Option<NodeModel> {
    match (json_text_member(doc, "id"@), json_text_member(doc, "host"@), json_u64_member(doc, "port"@)) {
        (Some(id), Some(host), Some(port)) => if port <= 65535 {
            Some(NodeModel { id, host, port: port as u16 })
        } else {
            None
        },
        _ => None,
    }
}

/// Writes a descriptor in its stored form.
pub fn encode_descriptor(node: &NodeDescriptor) -> (r: String)
    ensures
        r@ == descriptor_json(node@),
{
    let mut out = String::new();
    out.append("{\"host\":");
    let host = json_quote(node.host.as_str());
    out.append(host.as_str());
    out.append(",\"id\":");
    let id = json_quote(node.id.as_str());
    out.append(id.as_str());
    out.append(",\"port\":");
    push_decimal(&mut out, node.port as u64);
    out.append("}");
    out
}

/// Reads a stored descriptor back; `None` where the text does not hold one.
pub fn decode_descriptor(doc: &str) -> (r: Option<NodeDescriptor>)
    ensures
        match r {
            Some(n) => descriptor_of(doc@) == Some(n@),
            None => descriptor_of(doc@) is None,
        },
{
    let id = json_text_field(doc, "id");
    let host = json_text_field(doc, "host");
    let port = json_u64_field(doc, "port");
    match (id, host, port) {
        (Some(id), Some(host), Some(port)) => {
            if port <= 65535 {
                Some(NodeDescriptor { id, host, port: port as u16 })
            } else {
                None
            }
        },
        _ => None,
    }
}

/// The identity a node gives itself: `server-` and its process id.
pub open spec fn node_id_text(pid: u32) -> Seq<char> {
    "server-"@ + decimal(pid as nat)
}

/// The identity of the node running as process `pid`.
pub fn node_id(pid: u32) -> (r: String)
    ensures
        r@ == node_id_text(pid),
{
    let mut out = String::new();
    out.append("server-");
    push_decimal(&mut out, pid as u64);
    out
}

/// The descriptor that a registration request stands for: each member the
/// request gives, and the receiving node's own value for each it leaves out.
pub open spec fn registered_model(req: Option<NodeRegisterReq>, own: NodeModel) -> NodeModel {
    match req {
        Some(q) => NodeModel {
            id: match q.id { Some(v) => v@, None => own.id },
            host: match q.host { Some(v) => v@, None => own.host },
            port: match q.port { Some(v) => v, None => own.port },
        },
        None => own,
    }
}

/// Fills in a registration request; `own` is the receiving node's own
/// descriptor.
pub fn registration_descriptor(req: Option<NodeRegisterReq>, own: NodeDescriptor) -> (r: NodeDescriptor)
    ensures
        r@ == registered_model(req, own@),
{
    match req {
        Some(q) => NodeDescriptor {
            id: match q.id { Some(v) => v, None => own.id },
            host: match q.host { Some(v) => v, None => own.host },
            port: match q.port { Some(v) => v, None => own.port },
        },
        None => own,
    }
}

/// The descriptors among stored texts, in order, skipping each text that
/// does not hold one.
pub open spec fn decoded_nodes(docs: Seq<Seq<char>>) -> Seq<NodeModel>
    decreases docs.len(),
{
    if docs.len() == 0 {
        Seq::empty()
    } else {
        let rest = decoded_nodes(docs.drop_last());
        match descriptor_of(docs.last()) {
            Some(n) => rest.push(n),
            None => rest,
        }
    }
}

pub open spec fn texts(v: Seq<String>) -> Seq<Seq<char>> {
    v.map_values(|s: String| s@)
}

pub open spec fn models(v: Seq<NodeDescriptor>) -> Seq<NodeModel> {
    v.map_values(|n: NodeDescriptor| n@)
}

/// Reads the registry's members back as descriptors; a member that does not
/// parse is skipped rather than failing the whole listing.
pub fn decode_nodes(members: &Vec<String>) -> (r: Vec<NodeDescriptor>)
    ensures
        models(r@) == decoded_nodes(texts(members@)),
{
    let mut out: Vec<NodeDescriptor> = Vec::new();
    let mut i: usize = 0;
    while i < members.len()
        invariant
            i <= members@.len(),
            models(out@) == decoded_nodes(texts(members@.subrange(0, i as int))),
        decreases members@.len() - i,
    {
        let ghost before = out@;
        assert(texts(members@.subrange(0, i + 1)).drop_last() =~= texts(members@.subrange(0, i as int)));
        assert(texts(members@.subrange(0, i + 1)).last() == members@[i as int]@);
        match decode_descriptor(members[i].as_str()) {
            Some(n) => {
                out.push(n);
                assert(models(out@) =~= models(before).push(n@));
            },
            None => {},
        }
        i = i + 1;
    }
    assert(members@.subrange(0, i as int) =~= members@);
    out
}

} // verus!
