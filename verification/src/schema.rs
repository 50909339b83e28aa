//! The schema cache: resolves space and index names to numeric ids without
//! a round trip on a hit, and is cleared wholesale the moment a decoded
//! frame carries a schema version other than the cached one, so no lookup
//! ever returns an id across a detected schema change.

use vstd::prelude::*;

verus! {

/// The mathematical state of a schema cache.
pub ghost struct SchemaView {
    pub version: u64,
    pub spaces: Seq<(Seq<u8>, u32)>,
    pub indexes: Seq<(u32, Seq<u8>, u32)>,
}

pub open spec fn lookup_space_in(s: Seq<(Seq<u8>, u32)>, name: Seq<u8>) -> Option<u32>
    decreases s.len(),
{
    if s.len() == 0 {
        None
    } else if s[0].0 == name {
        Some(s[0].1)
    } else {
        lookup_space_in(s.skip(1), name)
    }
}

pub open spec fn lookup_index_in(
    s: Seq<(u32, Seq<u8>, u32)>,
    space_id: u32,
    name: Seq<u8>,
) -> Option<u32>
    decreases s.len(),
{
    if s.len() == 0 {
        None
    } else if s[0].0 == space_id && s[0].1 == name {
        Some(s[0].2)
    } else {
        lookup_index_in(s.skip(1), space_id, name)
    }
}

impl SchemaView {
    /// Compares an incoming schema version against the cached one: a change
    /// empties the whole cache before the counter moves.
    pub open spec fn observe(self, v: u64) -> SchemaView {
        if v == self.version {
            self
        } else {
            SchemaView { version: v, spaces: Seq::empty(), indexes: Seq::empty() }
        }
    }

    pub open spec fn store_space(self, name: Seq<u8>, id: u32) -> SchemaView {
        SchemaView { spaces: self.spaces.push((name, id)), ..self }
    }

    pub open spec fn store_index(self, space_id: u32, name: Seq<u8>, id: u32) -> SchemaView {
        SchemaView { indexes: self.indexes.push((space_id, name, id)), ..self }
    }
}

pub struct SchemaCache {
    pub version: u64,
    pub spaces: Vec<(Vec<u8>, u32)>,
    pub indexes: Vec<(u32, Vec<u8>, u32)>,
}

impl View for SchemaCache {
    type V = SchemaView;

    open spec fn view(&self) -> SchemaView {
        SchemaView {
            version: self.version,
            spaces: self.spaces@.map_values(|e: (Vec<u8>, u32)| (e.0@, e.1)),
            indexes: self.indexes@.map_values(|e: (u32, Vec<u8>, u32)| (e.0, e.1@, e.2)),
        }
    }
}

pub fn bytes_eq(a: &Vec<u8>, b: &Vec<u8>) -> (r: bool)
    ensures
        r == (a@ == b@),
{
    if a.len() != b.len() {
        return false;
    }
    let mut i: usize = 0;
    while i < a.len()
        invariant
            i <= a.len(),
            a@.len() == b@.len(),
            forall|j: int| 0 <= j < i ==> a@[j] == b@[j],
        decreases a.len() - i,
    {
        if a[i] != b[i] {
            return false;
        }
        i = i + 1;
    }
    proof {
        assert(a@ =~= b@);
    }
    true
}

impl SchemaCache {
    pub fn new() -> (c: SchemaCache)
        ensures
            c@.version == 0,
            c@.spaces == Seq::<(Seq<u8>, u32)>::empty(),
            c@.indexes == Seq::<(u32, Seq<u8>, u32)>::empty(),
    {
        let c = SchemaCache { version: 0, spaces: Vec::new(), indexes: Vec::new() };
        proof {
            assert(c@.spaces =~= Seq::<(Seq<u8>, u32)>::empty());
            assert(c@.indexes =~= Seq::<(u32, Seq<u8>, u32)>::empty());
        }
        c
    }

    /// A cache-only lookup: a hit answers synchronously, a miss reports
    /// `None` and it is the connection's part to fetch and store.
    pub fn lookup_space(&self, name: &Vec<u8>) -> (r: Option<u32>)
        ensures
            r == lookup_space_in(self@.spaces, name@),
    {
        let ghost s = self@.spaces;
        let mut i: usize = 0;
        proof {
            assert(s.skip(0) =~= s);
        }
        while i < self.spaces.len()
            invariant
                i <= self.spaces.len(),
                s == self@.spaces,
                s.len() == self.spaces@.len(),
                forall|j: int| 0 <= j < s.len() ==> #[trigger] s[j]
                    == (self.spaces@[j].0@, self.spaces@[j].1),
                lookup_space_in(s.skip(i as int), name@) == lookup_space_in(s, name@),
            decreases self.spaces.len() - i,
        {
            proof {
                assert(s.skip(i as int)[0] == s[i as int]);
                assert(s.skip(i as int).skip(1) =~= s.skip(i as int + 1));
            }
            if bytes_eq(&self.spaces[i].0, name) {
                return Some(self.spaces[i].1);
            }
            i = i + 1;
        }
        proof {
            assert(s.skip(s.len() as int) =~= Seq::<(Seq<u8>, u32)>::empty());
        }
        None
    }

    pub fn lookup_index(&self, space_id: u32, name: &Vec<u8>) -> (r: Option<u32>)
        ensures
            r == lookup_index_in(self@.indexes, space_id, name@),
    {
        let ghost s = self@.indexes;
        let mut i: usize = 0;
        proof {
            assert(s.skip(0) =~= s);
        }
        while i < self.indexes.len()
            invariant
                i <= self.indexes.len(),
                s == self@.indexes,
                s.len() == self.indexes@.len(),
                forall|j: int| 0 <= j < s.len() ==> #[trigger] s[j]
                    == (self.indexes@[j].0, self.indexes@[j].1@, self.indexes@[j].2),
                lookup_index_in(s.skip(i as int), space_id, name@) == lookup_index_in(
                    s,
                    space_id,
                    name@,
                ),
            decreases self.indexes.len() - i,
        {
            proof {
                assert(s.skip(i as int)[0] == s[i as int]);
                assert(s.skip(i as int).skip(1) =~= s.skip(i as int + 1));
            }
            if self.indexes[i].0 == space_id {
                if bytes_eq(&self.indexes[i].1, name) {
                    return Some(self.indexes[i].2);
                }
            }
            i = i + 1;
        }
        proof {
            assert(s.skip(s.len() as int) =~= Seq::<(u32, Seq<u8>, u32)>::empty());
        }
        None
    }

    pub fn store_space(&mut self, name: Vec<u8>, id: u32)
        ensures
            final(self)@ == old(self)@.store_space(name@, id),
    {
        let ghost n = name@;
        self.spaces.push((name, id));
        proof {
            assert(self@.spaces =~= old(self)@.spaces.push((n, id)));
        }
    }

    pub fn store_index(&mut self, space_id: u32, name: Vec<u8>, id: u32)
        ensures
            final(self)@ == old(self)@.store_index(space_id, name@, id),
    {
        let ghost n = name@;
        self.indexes.push((space_id, name, id));
        proof {
            assert(self@.indexes =~= old(self)@.indexes.push((space_id, n, id)));
        }
    }

    /// Empties the cache without touching the version: used when a
    /// reconnected session must not trust ids resolved before the break.
    pub fn invalidate(&mut self)
        ensures
            final(self)@ == (SchemaView {
                version: old(self)@.version,
                spaces: Seq::empty(),
                indexes: Seq::empty(),
            }),
    {
        self.spaces = Vec::new();
        self.indexes = Vec::new();
        proof {
            assert(self@.spaces =~= Seq::<(Seq<u8>, u32)>::empty());
            assert(self@.indexes =~= Seq::<(u32, Seq<u8>, u32)>::empty());
        }
    }

    /// Applies the schema version carried by a decoded frame.
    pub fn observe_version(&mut self, v: u64)
        ensures
            final(self)@ == old(self)@.observe(v),
    {
        if v != self.version {
            self.version = v;
            self.spaces = Vec::new();
            self.indexes = Vec::new();
            proof {
                assert(self@.spaces =~= Seq::<(Seq<u8>, u32)>::empty());
                assert(self@.indexes =~= Seq::<(u32, Seq<u8>, u32)>::empty());
            }
        }
    }
}

// ---------------------------------------------------------------------------
// Laws

/// Schema invalidation: a version bump empties the cache, so the next lookup
/// of any name misses — forcing one fresh resolution — and once that single
/// re-resolution is stored, the same lookup hits without another fetch.
pub proof fn lemma_schema_invalidation(c: SchemaView, v: u64, name: Seq<u8>, id: u32)
    requires
        v != c.version,
    ensures
        lookup_space_in(c.observe(v).spaces, name) is None,
        lookup_space_in(c.observe(v).store_space(name, id).spaces, name) == Some(id),
        c.observe(v).observe(v) == c.observe(v),
{
    let c2 = c.observe(v);
    let c3 = c2.store_space(name, id);
    assert(c3.spaces.len() == 1);
    assert(c3.spaces[0] == (name, id));
    assert(c3.spaces.skip(1).len() == 0);
}

/// The same, for index entries keyed by space id and name.
pub proof fn lemma_schema_invalidation_index(
    c: SchemaView,
    v: u64,
    space_id: u32,
    name: Seq<u8>,
    id: u32,
)
    requires
        v != c.version,
    ensures
        lookup_index_in(c.observe(v).indexes, space_id, name) is None,
        lookup_index_in(c.observe(v).store_index(space_id, name, id).indexes, space_id, name)
            == Some(id),
{
    let c3 = c.observe(v).store_index(space_id, name, id);
    assert(c3.indexes.len() == 1);
    assert(c3.indexes[0] == (space_id, name, id));
    assert(c3.indexes.skip(1).len() == 0);
}

} // verus!
