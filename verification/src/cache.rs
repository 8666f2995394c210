//! The shared cache: one logical key's state ([`NodeData`]) and the mapping
//! from key to record ([`Cache`]), modeled as a `Map` from key to record.

use vstd::prelude::*;
use vstd::string::StringExecFns;

verus! {

/// The mathematical content of one cached record.
pub ghost struct Rec {
    pub key: Seq<char>,
    pub value: Seq<char>,
    pub created_index: u64,
    pub modified_index: u64,
}

/// One logical key's cached state. Immutable once constructed: a key's
/// record is replaced whole, never mutated in place.
pub struct NodeData {
    key: String,
    value: String,
    created_index: u64,
    modified_index: u64,
}

impl View for NodeData {
    type V = Rec;

    closed spec fn view(&self) -> Rec {
        Rec {
            key: self.key@,
            value: self.value@,
            created_index: self.created_index,
            modified_index: self.modified_index,
        }
    }
}

impl NodeData {
    pub fn new(key: String, value: String, created_index: u64, modified_index: u64) -> (r:
        NodeData)
        ensures
            r@ == (Rec { key: key@, value: value@, created_index, modified_index }),
    {
        NodeData { key, value, created_index, modified_index }
    }

    pub fn key(&self) -> (r: &str)
        ensures
            r@ == self@.key,
    {
        self.key.as_str()
    }

    pub fn value(&self) -> (r: &str)
        ensures
            r@ == self@.value,
    {
        self.value.as_str()
    }

}

/// All keys in the sequence are distinct.
pub open spec fn entries_wf(s: Seq<Rec>) -> bool {
    forall|i: int, j: int|
        #![trigger s[i].key, s[j].key]
        0 <= i < j < s.len() ==> s[i].key != s[j].key
}

/// The mapping that a sequence of records stands for; a later record with
/// the same key overrides an earlier one.
pub open spec fn map_of(s: Seq<Rec>) -> Map<Seq<char>, Rec>
    decreases s.len(),
{
    if s.len() == 0 {
        Map::empty()
    } else {
        map_of(s.drop_last()).insert(s.last().key, s.last())
    }
}

proof fn lemma_map_of_contains(s: Seq<Rec>, k: Seq<char>)
    ensures
        map_of(s).contains_key(k) <==> exists|i: int| 0 <= i < s.len() && s[i].key == k,
    decreases s.len(),
{
    if s.len() > 0 {
        lemma_map_of_contains(s.drop_last(), k);
        if map_of(s).contains_key(k) {
            if k == s.last().key {
                assert(s[s.len() - 1].key == k);
            } else {
                let i = choose|i: int|
                    0 <= i < s.drop_last().len() && s.drop_last()[i].key == k;
                assert(s[i].key == k);
            }
        }
        if exists|i: int| 0 <= i < s.len() && s[i].key == k {
            let i = choose|i: int| 0 <= i < s.len() && s[i].key == k;
            if i < s.len() - 1 {
                assert(s.drop_last()[i].key == k);
            }
        }
    }
}

proof fn lemma_entries_wf_drop_last(s: Seq<Rec>)
    requires
        entries_wf(s),
        s.len() > 0,
    ensures
        entries_wf(s.drop_last()),
{
    assert forall|i: int, j: int|
        #![trigger s.drop_last()[i].key, s.drop_last()[j].key]
        0 <= i < j < s.drop_last().len() implies s.drop_last()[i].key
        != s.drop_last()[j].key by {
        assert(s[i].key != s[j].key);
    }
}

proof fn lemma_map_of_index(s: Seq<Rec>, i: int)
    requires
        entries_wf(s),
        0 <= i < s.len(),
    ensures
        map_of(s).contains_key(s[i].key),
        map_of(s)[s[i].key] == s[i],
    decreases s.len(),
{
    if i < s.len() - 1 {
        lemma_entries_wf_drop_last(s);
        lemma_map_of_index(s.drop_last(), i);
        assert(s[s.len() - 1].key != s[i].key);
    }
}

proof fn lemma_map_of_update(s: Seq<Rec>, i: int, r: Rec)
    requires
        entries_wf(s),
        0 <= i < s.len(),
        r.key == s[i].key,
    ensures
        map_of(s.update(i, r)) == map_of(s).insert(r.key, r),
    decreases s.len(),
{
    let t = s.update(i, r);
    if i == s.len() - 1 {
        assert(t.drop_last() =~= s.drop_last());
        assert(map_of(t) =~= map_of(s).insert(r.key, r));
    } else {
        lemma_entries_wf_drop_last(s);
        lemma_map_of_update(s.drop_last(), i, r);
        assert(t.drop_last() =~= s.drop_last().update(i, r));
        assert(t.last() == s.last());
        assert(s[s.len() - 1].key != s[i].key);
        assert(map_of(t) =~= map_of(s).insert(r.key, r));
    }
}

proof fn lemma_map_of_remove(s: Seq<Rec>, i: int)
    requires
        entries_wf(s),
        0 <= i < s.len(),
    ensures
        map_of(s.remove(i)) == map_of(s).remove(s[i].key),
    decreases s.len(),
{
    let t = s.remove(i);
    if i == s.len() - 1 {
        assert(t =~= s.drop_last());
        lemma_entries_wf_drop_last(s);
        lemma_map_of_contains(s.drop_last(), s[i].key);
        assert(!map_of(s.drop_last()).contains_key(s[i].key));
        assert(map_of(t) =~= map_of(s).remove(s[i].key));
    } else {
        lemma_entries_wf_drop_last(s);
        lemma_map_of_remove(s.drop_last(), i);
        assert(t.drop_last() =~= s.drop_last().remove(i));
        assert(t.last() == s.last());
        assert(s[s.len() - 1].key != s[i].key);
        assert(map_of(t) =~= map_of(s).remove(s[i].key));
    }
}

/// A record that the resource listing reports: key of the shape
/// `/resource/<name>/data`.
pub open spec fn rec_is_resource(r: Rec) -> bool {
    crate::strutil::is_prefix("/resource/"@, r.key) && crate::strutil::is_suffix(
        "/data"@,
        r.key,
    )
}

/// The values of the resource records, in entry order.
pub open spec fn resources_of(s: Seq<Rec>) -> Seq<Seq<char>>
    decreases s.len(),
{
    if s.len() == 0 {
        Seq::empty()
    } else {
        resources_of(s.drop_last()) + if rec_is_resource(s.last()) {
            seq![s.last().value]
        } else {
            Seq::empty()
        }
    }
}

/// The shared cache: a mapping from logical key to record, together with
/// the last revision the sync engine has fully applied.
pub struct Cache {
    entries: Vec<NodeData>,
    watch_revision: u64,
}

impl View for Cache {
    type V = Map<Seq<char>, Rec>;

    closed spec fn view(&self) -> Map<Seq<char>, Rec> {
        map_of(self.entry_recs())
    }
}

impl Cache {
    /// The cached records as a sequence, in enumeration order.
    pub closed spec fn entry_recs(&self) -> Seq<Rec> {
        self.entries@.map_values(|e: NodeData| e@)
    }

    /// The last revision fully applied.
    pub closed spec fn revision(&self) -> u64 {
        self.watch_revision
    }

    /// Every key is cached at most once, and each record carries the key it
    /// is filed under.
    pub closed spec fn wf(&self) -> bool {
        entries_wf(self.entry_recs())
    }

    /// A fresh, empty cache at revision zero.
    pub fn empty() -> (r: Cache)
        ensures
            r@ == Map::<Seq<char>, Rec>::empty(),
            r.revision() == 0,
            r.wf(),
    {
        let c = Cache { entries: Vec::new(), watch_revision: 0 };
        proof {
            assert(c.entry_recs() =~= Seq::<Rec>::empty());
        }
        c
    }

    fn find_index(&self, key: &str) -> (r: Option<usize>)
        ensures
            r is Some ==> 0 <= r->0 < self.entry_recs().len() && self.entry_recs()[
                r->0 as int
            ].key == key@,
            r is None ==> forall|i: int|
                0 <= i < self.entry_recs().len() ==> (#[trigger] self.entry_recs()[i]).key
                    != key@,
    {
        let ghost recs = self.entry_recs();
        let mut i: usize = 0;
        while i < self.entries.len()
            invariant
                0 <= i <= self.entries.len(),
                recs == self.entry_recs(),
                recs.len() == self.entries@.len(),
                forall|j: int| 0 <= j < i ==> (#[trigger] recs[j]).key != key@,
            decreases self.entries.len() - i,
        {
            proof {
                assert(recs[i as int] == self.entries@[i as int]@);
            }
            if crate::strutil::str_eq(self.entries[i].key(), key) {
                return Some(i);
            }
            i += 1;
        }
        None
    }

    /// Exact lookup of a logical key.
    pub fn lookup(&self, key: &str) -> (r: Option<&NodeData>)
        requires
            self.wf(),
        ensures
            r is Some <==> self@.contains_key(key@),
            r is Some ==> r->0@ == self@[key@],
    {
        proof {
            lemma_map_of_contains(self.entry_recs(), key@);
        }
        match self.find_index(key) {
            Some(i) => {
                proof {
                    lemma_map_of_index(self.entry_recs(), i as int);
                    assert(self.entry_recs()[i as int] == self.entries@[i as int]@);
                }
                Some(&self.entries[i])
            },
            None => None,
        }
    }

    /// Inserts or overwrites the record for its key. Used only by the sync
    /// engine.
    pub fn insert_record(&mut self, rec: NodeData)
        requires
            old(self).wf(),
        ensures
            final(self).wf(),
            final(self)@ == old(self)@.insert(rec@.key, rec@),
            final(self).revision() == old(self).revision(),
    {
        let ghost recs = self.entry_recs();
        match self.find_index(rec.key()) {
            Some(i) => {
                proof {
                    lemma_map_of_update(recs, i as int, rec@);
                }
                self.entries[i] = rec;
                proof {
                    assert(self.entry_recs() =~= recs.update(i as int, rec@));
                    assert forall|a: int, b: int|
                        #![trigger self.entry_recs()[a].key, self.entry_recs()[b].key]
                        0 <= a < b < self.entry_recs().len() implies self.entry_recs()[a].key
                        != self.entry_recs()[b].key by {
                        assert(recs[a].key != recs[b].key);
                    }
                }
            },
            None => {
                self.entries.push(rec);
                proof {
                    assert(self.entry_recs().drop_last() =~= recs);
                    assert(self.entry_recs().last() == rec@);
                    assert forall|a: int, b: int|
                        #![trigger self.entry_recs()[a].key, self.entry_recs()[b].key]
                        0 <= a < b < self.entry_recs().len() implies self.entry_recs()[a].key
                        != self.entry_recs()[b].key by {
                        if b < self.entry_recs().len() - 1 {
                            assert(recs[a].key != recs[b].key);
                        } else {
                            assert(recs[a].key != rec@.key);
                        }
                    }
                }
            },
        }
    }

    /// Removes the record for a key; a no-op when the key is absent. Used
    /// only by the sync engine.
    pub fn remove_record(&mut self, key: &str)
        requires
            old(self).wf(),
        ensures
            final(self).wf(),
            final(self)@ == old(self)@.remove(key@),
            final(self).revision() == old(self).revision(),
    {
        let ghost recs = self.entry_recs();
        match self.find_index(key) {
            Some(i) => {
                proof {
                    lemma_map_of_remove(recs, i as int);
                }
                self.entries.remove(i);
                proof {
                    assert(self.entry_recs() =~= recs.remove(i as int));
                    assert forall|a: int, b: int|
                        #![trigger self.entry_recs()[a].key, self.entry_recs()[b].key]
                        0 <= a < b < self.entry_recs().len() implies self.entry_recs()[a].key
                        != self.entry_recs()[b].key by {
                        let a0 = if a < i as int { a } else { a + 1 };
                        let b0 = if b < i as int { b } else { b + 1 };
                        assert(recs[a0].key != recs[b0].key);
                    }
                }
            },
            None => {
                proof {
                    lemma_map_of_contains(recs, key@);
                    assert(!self@.contains_key(key@));
                    assert(self@.remove(key@) =~= self@);
                }
            },
        }
    }

    /// How many records are cached.
    pub fn len(&self) -> (r: usize)
        ensures
            r == self.entry_recs().len(),
    {
        self.entries.len()
    }

    /// The current watch revision.
    pub fn watch_revision(&self) -> (r: u64)
        ensures
            r == self.revision(),
    {
        self.watch_revision
    }

    pub(crate) fn set_watch_revision(&mut self, r: u64)
        ensures
            final(self)@ == old(self)@,
            final(self).wf() == old(self).wf(),
            final(self).entry_recs() == old(self).entry_recs(),
            final(self).revision() == r,
    {
        self.watch_revision = r;
    }

    /// The values of every cached record whose key has the shape
    /// `/resource/<name>/data`, in enumeration order.
    pub fn resource_values(&self) -> (r: Vec<String>)
        ensures
            r.deep_view() == resources_of(self.entry_recs()),
    {
        let ghost recs = self.entry_recs();
        let mut out: Vec<String> = Vec::new();
        let mut i: usize = 0;
        while i < self.entries.len()
            invariant
                0 <= i <= self.entries.len(),
                recs == self.entry_recs(),
                recs.len() == self.entries@.len(),
                out.deep_view() == resources_of(recs.subrange(0, i as int)),
            decreases self.entries.len() - i,
        {
            proof {
                assert(recs[i as int] == self.entries@[i as int]@);
                assert(recs.subrange(0, i as int + 1).drop_last() =~= recs.subrange(
                    0,
                    i as int,
                ));
                assert(recs.subrange(0, i as int + 1).last() == recs[i as int]);
            }
            let e = &self.entries[i];
            if crate::strutil::str_starts_with(e.key(), "/resource/") && crate::strutil::str_ends_with(
                e.key(),
                "/data",
            ) {
                let v = String::from_str(e.value());
                out.push(v);
                proof {
                    assert(out.deep_view() =~= resources_of(recs.subrange(0, i as int + 1)));
                }
            } else {
                proof {
                    assert(out.deep_view() =~= resources_of(recs.subrange(0, i as int + 1)));
                }
            }
            i += 1;
        }
        proof {
            assert(recs.subrange(0, self.entries@.len() as int) =~= recs);
        }
        out
    }
}

} // verus!
