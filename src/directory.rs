//! The shared coordination store: a key-value map that serves as the
//! location directory, and a set of member texts that serves as the node
//! registry. Every node of a deployment talks to the same store; this module
//! gives the keys and values the gateway puts there, and an in-memory store
//! with the same operations.
use vstd::prelude::*;
use crate::descriptor::{
    decode_nodes, descriptor_json, decoded_nodes, encode_descriptor, models, opt_text, texts, NodeDescriptor, NodeModel,
};
use crate::local_store::StoreError;

verus! {

/// The directory key of object `key` in `bucket`: `bucket:key`.
pub open spec fn location_key_text(bucket: Seq<char>, key: Seq<char>) -> Seq<char> {
    bucket + ":"@ + key
}

/// The directory key under which the owner of object `key` in `bucket` is
/// recorded.
pub fn location_key(bucket: &str, key: &str) -> (r: String)
    ensures
        r@ == location_key_text(bucket@, key@),
{
    let mut out = String::new();
    out.append(bucket);
    out.append(":");
    out.append(key);
    out
}

/// Decides a delete request for object `key` in `bucket`, given whether it is
/// on this node's disk. `Ok` holds the directory key that the caller clears
/// once the file is gone; a missing object is refused and nothing changes.
pub fn plan_object_delete(bucket: &str, key: &str, exists: bool) -> (r: Result<String, StoreError>)
    ensures
        exists ==> (r matches Ok(k) && k@ == location_key_text(bucket@, key@)),
        !exists ==> r matches Err(StoreError::NotFound),
{
    if exists {
        Ok(location_key(bucket, key))
    } else {
        Err(StoreError::NotFound)
    }
}

/// The registry's members after adding `member`: unchanged when it is
/// already there, otherwise with `member` at the end.
pub open spec fn with_member(members: Seq<Seq<char>>, member: Seq<char>) -> Seq<Seq<char>> {
    if members.contains(member) {
        members
    } else {
        members.push(member)
    }
}

/// Each key has one entry, and the entries are exactly the map `model`.
spec fn entries_wf(entries: Seq<(String, String)>, model: Map<Seq<char>, Seq<char>>) -> bool {
    &&& forall|i: int, j: int|
        0 <= i < entries.len() && 0 <= j < entries.len() && i != j
            ==> #[trigger] entries[i].0@ != #[trigger] entries[j].0@
    &&& forall|i: int| 0 <= i < entries.len()
        ==> model.contains_key(#[trigger] entries[i].0@) && model[entries[i].0@] == entries[i].1@
    &&& forall|k: Seq<char>| #[trigger] model.contains_key(k)
        ==> exists|i: int| 0 <= i < entries.len() && entries[i].0@ == k
}

/// No member is held twice.
spec fn members_wf(members: Seq<String>) -> bool {
    forall|i: int, j: int|
        0 <= i < members.len() && 0 <= j < members.len() && i != j
            ==> #[trigger] members[i]@ != #[trigger] members[j]@
}

/// Members held once each have views held once each.
proof fn lemma_members_distinct(members: Seq<String>)
    requires
        members_wf(members),
    ensures
        texts(members).no_duplicates(),
{
    assert forall|i: int, j: int|
        0 <= i < texts(members).len() && 0 <= j < texts(members).len() && i != j
            implies texts(members)[i] != texts(members)[j] by {
        assert(texts(members)[i] == members[i]@);
        assert(texts(members)[j] == members[j]@);
    }
}

/// A coordination store held in memory: what every node of a deployment
/// shares, for a deployment that runs in one process.
pub struct MemoryStore {
    entries: Vec<(String, String)>,
    members: Vec<String>,
    model: Ghost<Map<Seq<char>, Seq<char>>>,
}

impl MemoryStore {
    /// The key-value contents.
    pub closed spec fn values(&self) -> Map<Seq<char>, Seq<char>> {
        self.model@
    }

    /// The registry's members, in the order they were first added.
    pub closed spec fn members(&self) -> Seq<Seq<char>> {
        texts(self.members@)
    }

    pub closed spec fn wf(&self) -> bool {
        &&& entries_wf(self.entries@, self.model@)
        &&& members_wf(self.members@)
    }

    /// An empty store.
    pub fn new() -> (r: MemoryStore)
        ensures
            r.wf(),
            r.values() == Map::<Seq<char>, Seq<char>>::empty(),
            r.members() == Seq::<Seq<char>>::empty(),
            r.members().no_duplicates(),
    {
        let r = MemoryStore { entries: Vec::new(), members: Vec::new(), model: Ghost(Map::empty()) };
        assert(r.members() =~= Seq::<Seq<char>>::empty());
        r
    }

    /// The index of the entry for `key`, if there is one.
    fn find(&self, key: &str) -> (r: Option<usize>)
        requires
            self.wf(),
        ensures
            match r {
                Some(i) => i < self.entries@.len() && self.entries@[i as int].0@ == key@,
                None => !self.values().contains_key(key@),
            },
    {
        let mut i: usize = 0;
        while i < self.entries.len()
            invariant
                i <= self.entries@.len(),
                forall|j: int| 0 <= j < i ==> self.entries@[j].0@ != key@,
            decreases self.entries@.len() - i,
        {
            if crate::text::same_text(self.entries[i].0.as_str(), key) {
                return Some(i);
            }
            i = i + 1;
        }
        None
    }

    /// Sets `key` to `value`, replacing what was there: the last writer wins.
    pub fn set_key(&mut self, key: &str, value: &str)
        requires
            old(self).wf(),
        ensures
            final(self).wf(),
            final(self).values() == old(self).values().insert(key@, value@),
            final(self).members() == old(self).members(),
    {
        let ghost before = self.entries@;
        let entry = (crate::text::owned(key), crate::text::owned(value));
        let found = self.find(key);
        let ghost at: int = match found {
            Some(i) => i as int,
            None => before.len() as int,
        };
        match found {
            Some(i) => {
                self.entries.set(i, entry);
            },
            None => {
                self.entries.push(entry);
            },
        }
        assert(self.entries@[at].0@ == key@);
        self.model = Ghost(self.model@.insert(key@, value@));
        assert forall|k: Seq<char>| #[trigger] self.model@.contains_key(k)
            implies exists|i: int| 0 <= i < self.entries@.len() && self.entries@[i].0@ == k by {
            if k != key@ {
                let j = choose|j: int| 0 <= j < before.len() && before[j].0@ == k;
                assert(self.entries@[j].0@ == k);
            } else {
                assert(0 <= at < self.entries@.len());
                assert(self.entries@[at].0@ == k);
            }
        }
    }

    /// The value of `key`, if it has one.
    pub fn get_key(&self, key: &str) -> (r: Option<String>)
        requires
            self.wf(),
        ensures
            match r {
                Some(v) => self.values().contains_key(key@) && self.values()[key@] == v@,
                None => !self.values().contains_key(key@),
            },
    {
        match self.find(key) {
            Some(i) => Some(self.entries[i].1.clone()),
            None => None,
        }
    }

    /// Removes `key` and its value; a key that is absent leaves the store as
    /// it was.
    pub fn del_key(&mut self, key: &str)
        requires
            old(self).wf(),
        ensures
            final(self).wf(),
            final(self).values() == old(self).values().remove(key@),
            final(self).members() == old(self).members(),
    {
        match self.find(key) {
            Some(i) => {
                let ghost before = self.entries@;
                self.entries.remove(i);
                let ghost after = self.entries@;
                assert(forall|j: int| 0 <= j < i ==> after[j] == before[j]);
                assert(forall|j: int| i <= j < after.len() ==> after[j] == before[j + 1]);
                self.model = Ghost(self.model@.remove(key@));
                assert forall|k: Seq<char>| #[trigger] self.model@.contains_key(k)
                    implies exists|j: int| 0 <= j < self.entries@.len() && self.entries@[j].0@ == k by {
                    let j = choose|j: int| 0 <= j < before.len() && before[j].0@ == k;
                    if j < i {
                        assert(self.entries@[j].0@ == k);
                    } else {
                        assert(j != i);
                        assert(self.entries@[j - 1].0@ == k);
                    }
                }
                assert forall|a: int, b: int|
                    0 <= a < after.len() && 0 <= b < after.len() && a != b
                        implies #[trigger] after[a].0@ != #[trigger] after[b].0@ by {
                    let a0 = if a < i { a } else { a + 1 };
                    let b0 = if b < i { b } else { b + 1 };
                    assert(after[a] == before[a0]);
                    assert(after[b] == before[b0]);
                }
                assert forall|j: int| 0 <= j < after.len()
                    implies self.model@.contains_key(#[trigger] after[j].0@)
                        && self.model@[after[j].0@] == after[j].1@ by {
                    let j0 = if j < i { j } else { j + 1 };
                    assert(after[j] == before[j0]);
                    assert(j0 != i);
                }
            },
            None => {
                assert(self.model@.remove(key@) =~= self.model@);
            },
        }
    }

    /// Adds `member` to the registry; adding one that is already there
    /// changes nothing.
    pub fn register_node(&mut self, member: &str)
        requires
            old(self).wf(),
        ensures
            final(self).wf(),
            final(self).members() == with_member(old(self).members(), member@),
            final(self).members().no_duplicates(),
            final(self).values() == old(self).values(),
    {
        let mut i: usize = 0;
        while i < self.members.len()
            invariant
                self.wf(),
                i <= self.members@.len(),
                forall|j: int| 0 <= j < i ==> self.members@[j]@ != member@,
            decreases self.members@.len() - i,
        {
            if crate::text::same_text(self.members[i].as_str(), member) {
                assert(self.members()[i as int] == member@);
                proof {
                    lemma_members_distinct(self.members@);
                }
                return;
            }
            i = i + 1;
        }
        let ghost before = self.members@;
        assert(!self.members().contains(member@)) by {
            if self.members().contains(member@) {
                let j = choose|j: int| 0 <= j < before.len() && self.members()[j] == member@;
                assert(before[j]@ == member@);
            }
        }
        self.members.push(crate::text::owned(member));
        assert(self.members() =~= texts(before).push(member@));
        assert forall|a: int, b: int|
            0 <= a < self.members@.len() && 0 <= b < self.members@.len() && a != b
                implies #[trigger] self.members@[a]@ != #[trigger] self.members@[b]@ by {
            if a < before.len() && b < before.len() {
                assert(self.members@[a] == before[a]);
                assert(self.members@[b] == before[b]);
            } else if a < before.len() {
                assert(self.members@[a] == before[a]);
            } else {
                assert(self.members@[b] == before[b]);
            }
        }
        proof {
            lemma_members_distinct(self.members@);
        }
    }

    /// The registry's members.
    pub fn list_nodes(&self) -> (r: Vec<String>)
        requires
            self.wf(),
        ensures
            texts(r@) == self.members(),
    {
        let mut out: Vec<String> = Vec::new();
        let mut i: usize = 0;
        while i < self.members.len()
            invariant
                i <= self.members@.len(),
                out@.len() == i,
                forall|j: int| 0 <= j < i ==> out@[j]@ == self.members@[j]@,
            decreases self.members@.len() - i,
        {
            out.push(self.members[i].clone());
            i = i + 1;
        }
        assert(texts(out@) =~= texts(self.members@));
        out
    }
}

impl MemoryStore {
    /// Records `owner` as the node that holds object `key` of `bucket`,
    /// replacing any earlier record.
    pub fn record(&mut self, bucket: &str, key: &str, owner: &NodeDescriptor)
        requires
            old(self).wf(),
        ensures
            final(self).wf(),
            final(self).values() == old(self).values().insert(location_key_text(bucket@, key@), descriptor_json(owner@)),
            final(self).members() == old(self).members(),
    {
        let k = location_key(bucket, key);
        let v = encode_descriptor(owner);
        self.set_key(k.as_str(), v.as_str());
    }

    /// The owner record of object `key` of `bucket`, if there is one.
    pub fn lookup(&self, bucket: &str, key: &str) -> (r: Option<String>)
        requires
            self.wf(),
        ensures
            opt_text(r) == (if self.values().contains_key(location_key_text(bucket@, key@)) {
                Some(self.values()[location_key_text(bucket@, key@)])
            } else {
                None
            }),
    {
        let k = location_key(bucket, key);
        self.get_key(k.as_str())
    }

    /// Clears the owner record of object `key` of `bucket`.
    pub fn forget(&mut self, bucket: &str, key: &str)
        requires
            old(self).wf(),
        ensures
            final(self).wf(),
            final(self).values() == old(self).values().remove(location_key_text(bucket@, key@)),
            final(self).members() == old(self).members(),
    {
        let k = location_key(bucket, key);
        self.del_key(k.as_str());
    }

    /// Adds `node` to the registry; a node already there by equal value is
    /// not added again.
    pub fn register(&mut self, node: &NodeDescriptor)
        requires
            old(self).wf(),
        ensures
            final(self).wf(),
            final(self).members() == with_member(old(self).members(), descriptor_json(node@)),
            final(self).members().no_duplicates(),
            final(self).values() == old(self).values(),
    {
        let m = encode_descriptor(node);
        self.register_node(m.as_str());
    }

    /// The registered nodes, skipping any member that does not read as a
    /// descriptor.
    pub fn nodes(&self) -> (r: Vec<NodeDescriptor>)
        requires
            self.wf(),
        ensures
            models(r@) == decoded_nodes(self.members()),
    {
        let members = self.list_nodes();
        decode_nodes(&members)
    }
}

/// Registering the same node twice leaves the registry as registering it
/// once did, so the listing and its size do not change.
pub proof fn lemma_register_twice(members: Seq<Seq<char>>, node: NodeModel)
    ensures
        with_member(with_member(members, descriptor_json(node)), descriptor_json(node))
            == with_member(members, descriptor_json(node)),
        decoded_nodes(with_member(with_member(members, descriptor_json(node)), descriptor_json(node)))
            == decoded_nodes(with_member(members, descriptor_json(node))),
{
    let once = with_member(members, descriptor_json(node));
    assert(once.contains(descriptor_json(node))) by {
        if !members.contains(descriptor_json(node)) {
            assert(once[members.len() as int] == descriptor_json(node));
        }
    }
}

/// Two objects of one bucket under different keys have different directory
/// keys, so clearing the record of one leaves the record of the other.
pub proof fn lemma_forget_keeps_other_objects(
    values: Map<Seq<char>, Seq<char>>,
    bucket: Seq<char>,
    key1: Seq<char>,
    key2: Seq<char>,
)
    requires
        key1 != key2,
    ensures
        location_key_text(bucket, key1) != location_key_text(bucket, key2),
        values.remove(location_key_text(bucket, key1)).contains_key(location_key_text(bucket, key2))
            == values.contains_key(location_key_text(bucket, key2)),
        values.remove(location_key_text(bucket, key1))[location_key_text(bucket, key2)]
            == values[location_key_text(bucket, key2)],
{
    let l1 = location_key_text(bucket, key1);
    let l2 = location_key_text(bucket, key2);
    let p = bucket + ":"@;
    if l1 == l2 {
        assert(l1.len() == l2.len());
        assert(key1 =~= l1.subrange(p.len() as int, l1.len() as int));
        assert(key2 =~= l2.subrange(p.len() as int, l2.len() as int));
    }
}

/// Clearing a directory key that holds nothing leaves the directory as it
/// was.
pub proof fn lemma_forget_absent(values: Map<Seq<char>, Seq<char>>, key: Seq<char>)
    requires
        !values.contains_key(key),
    ensures
        values.remove(key) == values,
{
    assert(values.remove(key) =~= values);
}

} // verus!
