use vstd::prelude::*;

use crate::time::Timestamp;

verus! {

/// A stored short link.
pub struct ShortLink {
    pub id: i64,
    pub hash: String,
    pub url: String,
    pub expire_at: Timestamp,
}

/// A short link about to be stored.
pub struct NewShortlink {
    pub hash: String,
    pub url: String,
    pub expire_at: Timestamp,
}

/// What the store keeps for one code: its target URL and when it expires.
pub type LinkEntry = (Seq<char>, Timestamp);

/// An in-memory store of short links, keyed by code; no two links share a code.
pub struct ShortlinkStore {
    records: Vec<ShortLink>,
    links: Ghost<Map<Seq<char>, LinkEntry>>,
}

impl View for ShortlinkStore {
    type V = Map<Seq<char>, LinkEntry>;

    closed spec fn view(&self) -> Map<Seq<char>, LinkEntry> {
        self.links@
    }
}

impl ShortlinkStore {
    /// The records agree with the map of links, one record per code.
    pub closed spec fn wf(&self) -> bool {
        &&& self.records@.len() == self.links@.len()
        &&& self.links@.dom().finite()
        &&& forall|i: int|
            0 <= i < self.records@.len() ==> #[trigger] self.links@.contains_key(
                self.records@[i].hash@,
            ) && self.links@[self.records@[i].hash@] == (
                self.records@[i].url@,
                self.records@[i].expire_at,
            )
        &&& forall|i: int, j: int|
            0 <= i < j < self.records@.len() ==> #[trigger] self.records@[i].hash@
                != #[trigger] self.records@[j].hash@
        &&& forall|c: Seq<char>|
            #[trigger] self.links@.contains_key(c) ==> exists|i: int|
                0 <= i < self.records@.len() && #[trigger] self.records@[i].hash@ == c
    }

    /// An empty store.
    pub fn new() -> (r: ShortlinkStore)
        ensures
            r.wf(),
            r@ == Map::<Seq<char>, LinkEntry>::empty(),
    {
        ShortlinkStore { records: Vec::new(), links: Ghost(Map::empty()) }
    }

    /// The number of stored links.
    pub fn len(&self) -> (r: usize)
        requires
            self.wf(),
        ensures
            r == self@.len(),
    {
        self.records.len()
    }

    /// The position of the record for `hash`, if one is stored.
    fn position(&self, hash: &str) -> (r: Option<usize>)
        requires
            self.wf(),
        ensures
            r is None <==> !self@.contains_key(hash@),
            r matches Some(i) ==> i < self.records@.len() && self.records@[i as int].hash@
                == hash@,
    {
        let key = hash.to_owned();
        let mut i: usize = 0;
        while i < self.records.len()
            invariant
                self.wf(),
                key@ == hash@,
                i <= self.records@.len(),
                forall|j: int| 0 <= j < i ==> #[trigger] self.records@[j].hash@ != hash@,
            decreases self.records@.len() - i,
        {
            if self.records[i].hash == key {
                return Some(i);
            }
            i = i + 1;
        }
        proof {
            if self@.contains_key(hash@) {
                let k = choose|k: int|
                    0 <= k < self.records@.len() && #[trigger] self.records@[k].hash@ == hash@;
                assert(self.records@[k].hash@ != hash@);
            }
        }
        None
    }

    /// Whether a link with code `hash` is stored.
    pub fn contains(&self, hash: &str) -> (r: bool)
        requires
            self.wf(),
        ensures
            r == self@.contains_key(hash@),
    {
        self.position(hash).is_some()
    }

    /// The stored link with code `hash`, if any.
    pub fn find(&self, hash: &str) -> (r: Option<&ShortLink>)
        requires
            self.wf(),
        ensures
            r is None <==> !self@.contains_key(hash@),
            r matches Some(l) ==> l.hash@ == hash@ && self@[hash@] == (l.url@, l.expire_at),
    {
        match self.position(hash) {
            Some(i) => Some(&self.records[i]),
            None => None,
        }
    }

    /// Stores a link under a code that is not stored yet.
    pub fn insert(&mut self, link: NewShortlink) -> (r: &ShortLink)
        requires
            old(self).wf(),
            !old(self)@.contains_key(link.hash@),
        ensures
            final(self).wf(),
            final(self)@ == old(self)@.insert(link.hash@, (link.url@, link.expire_at)),
            r.hash@ == link.hash@,
            r.url@ == link.url@,
            r.expire_at == link.expire_at,
    {
        let ghost old_records = self.records@;
        let ghost old_links = self.links@;
        let id = self.records.len() as i64;
        let ghost key = link.hash@;
        let ghost entry = (link.url@, link.expire_at);
        self.records.push(ShortLink { id, hash: link.hash, url: link.url, expire_at: link.expire_at });
        self.links = Ghost(old_links.insert(key, entry));
        proof {
            let n = old_records.len() as int;
            assert forall|i: int| 0 <= i < self.records@.len() implies #[trigger]
                self.links@.contains_key(self.records@[i].hash@) && self.links@[self.records@[i].hash@]
                    == (self.records@[i].url@, self.records@[i].expire_at) by {
                if i < n {
                    assert(self.records@[i] == old_records[i]);
                    assert(old_links.contains_key(old_records[i].hash@));
                }
            }
            assert forall|c: Seq<char>| #[trigger] self.links@.contains_key(c) implies exists|i: int|
                0 <= i < self.records@.len() && #[trigger] self.records@[i].hash@ == c by {
                if c == key {
                    assert(self.records@[n].hash@ == c);
                } else {
                    let k = choose|k: int| 0 <= k < old_records.len() && #[trigger] old_records[k].hash@ == c;
                    assert(self.records@[k] == old_records[k]);
                }
            }
            assert forall|i: int, j: int| 0 <= i < j < self.records@.len() implies #[trigger]
                self.records@[i].hash@ != #[trigger] self.records@[j].hash@ by {
                if j == n {
                    assert(self.records@[i] == old_records[i]);
                    assert(old_links.contains_key(old_records[i].hash@));
                } else {
                    assert(self.records@[i] == old_records[i]);
                    assert(self.records@[j] == old_records[j]);
                }
            }
            assert(!old_links.contains_key(key));
            assert(self.links@.len() == old_links.len() + 1);
        }
        let last = self.records.len() - 1;
        &self.records[last]
    }
}

} // verus!
