//! The record store: durable CRUD and full-scan over todo records keyed
//! by identifier.
//!
//! The underlying keyspace is a sled database, seen by the contracts as a
//! map from key bytes to value bytes ([`store_map`]). Every record is kept
//! under the 16 little-endian bytes of its identifier, encoded by the
//! record codec, and every mutation flushes before returning.

use vstd::prelude::*;
use vstd::seq_lib::group_to_multiset_ensures;

use crate::codec::{decode_todo, encode_todo, le_bytes, push_le, spec_decode, spec_encode};
use crate::model::{Todo, TodoView};

verus! {

#[verifier::external_type_specification]
#[verifier::external_body]
pub struct ExDb(sled::Db);

#[verifier::external_type_specification]
#[verifier::external_body]
pub struct ExSledError(sled::Error);

/// The abstract contents of a sled keyspace: the map from key bytes to
/// value bytes it holds.
pub uninterp spec fn store_map(db: sled::Db) -> Map<Seq<u8>, Seq<u8>>;

/// The uniform storage-layer error: a human-readable description of what
/// failed.
#[derive(Debug, Clone, PartialEq)]
pub struct StoreError {
    pub message: String,
}

impl StoreError {
    /// Wraps a description in a storage error.
    pub fn new(message: &str) -> (r: StoreError)
        ensures
            r.message@ == message@,
    {
        StoreError { message: message.to_owned() }
    }
}

/// The 16 little-endian key bytes of an identifier.
pub open spec fn spec_key(id: u128) -> Seq<u8> {
    le_bytes(id as nat, 16)
}

/// The contents of a store holding nothing.
pub open spec fn empty_store() -> Map<Seq<u8>, Seq<u8>> {
    Map::empty()
}

/// Builds the key bytes of an identifier.
fn key_bytes(id: u128) -> (r: Vec<u8>)
    ensures
        r@ == spec_key(id),
{
    let mut out: Vec<u8> = Vec::new();
    push_le(&mut out, id, 16);
    out
}

/// Relies on sled's `open`: a handle on the database in the directory at
/// `path`, created when missing, holding finitely many entries.
#[verifier::external_body]
fn sled_open(path: &str) -> (r: Result<sled::Db, sled::Error>)
    ensures
        r matches Ok(db) ==> store_map(db).dom().finite(),
{
    sled::open(path)
}

/// Durable key-value storage of todo records, keyed by identifier.
pub struct TodoDb {
    db: sled::Db,
}

impl View for TodoDb {
    type V = Map<Seq<u8>, Seq<u8>>;

    closed spec fn view(&self) -> Map<Seq<u8>, Seq<u8>> {
        store_map(self.db)
    }
}

impl TodoDb {
    /// Relies on sled's `Tree::insert`: on success the keyspace maps the
    /// key to the value and is otherwise unchanged.
    #[verifier::external_body]
    fn raw_put(&mut self, key: &Vec<u8>, value: &Vec<u8>) -> (r: Result<(), sled::Error>)
        ensures
            r is Ok ==> store_map(final(self).db) == store_map(old(self).db).insert(key@, value@),
    {
        self.db.insert(key.as_slice(), value.as_slice()).map(|_| ())
    }

    /// Relies on sled's `Tree::get`: on success, exactly the value the
    /// keyspace holds for the key, when it holds one.
    #[verifier::external_body]
    fn raw_get(&self, key: &Vec<u8>) -> (r: Result<Option<Vec<u8>>, sled::Error>)
        ensures
            r matches Ok(Some(v)) ==> store_map(self.db).contains_key(key@) && store_map(self.db)[key@]
                == v@,
            r matches Ok(None) ==> !store_map(self.db).contains_key(key@),
    {
        match self.db.get(key.as_slice()) {
            Ok(o) => Ok(o.map(|iv| iv.to_vec())),
            Err(e) => Err(e),
        }
    }

    /// Relies on sled's `Tree::remove`: on success the key is gone and the
    /// prior value, if any, is handed back.
    #[verifier::external_body]
    fn raw_remove(&mut self, key: &Vec<u8>) -> (r: Result<Option<Vec<u8>>, sled::Error>)
        ensures
            r matches Ok(prior) ==> {
                &&& store_map(final(self).db) == store_map(old(self).db).remove(key@)
                &&& (prior is Some <==> store_map(old(self).db).contains_key(key@))
            },
    {
        match self.db.remove(key.as_slice()) {
            Ok(o) => Ok(o.map(|iv| iv.to_vec())),
            Err(e) => Err(e),
        }
    }

    /// Relies on sled's `Tree::clear`: on success the keyspace is empty.
    #[verifier::external_body]
    fn raw_clear(&mut self) -> (r: Result<(), sled::Error>)
        ensures
            r is Ok ==> store_map(final(self).db) == empty_store(),
    {
        self.db.clear()
    }

    /// Relies on sled's `Tree::flush`: durability only; the keyspace
    /// contents are left as they are.
    #[verifier::external_body]
    fn raw_flush(&self) -> (r: Result<(), sled::Error>)
    {
        self.db.flush().map(|_| ())
    }

    /// Relies on sled's `Tree::iter`: on success, every entry of the
    /// keyspace exactly once, as key and value bytes.
    #[verifier::external_body]
    fn raw_scan(&self) -> (r: Result<Vec<(Vec<u8>, Vec<u8>)>, sled::Error>)
        ensures
            r matches Ok(es) ==> {
                &&& store_map(self.db).dom().finite()
                &&& es@.len() == store_map(self.db).dom().len()
                &&& (forall|i: int|
                    #![trigger es@[i]]
                    0 <= i < es@.len() ==> store_map(self.db).contains_key(es@[i].0@) && store_map(
                        self.db,
                    )[es@[i].0@] == es@[i].1@)
                &&& (forall|i: int, j: int|
                    #![trigger es@[i], es@[j]]
                    0 <= i < j < es@.len() ==> es@[i].0@ != es@[j].0@)
                &&& (forall|k: Seq<u8>|
                    store_map(self.db).contains_key(k) ==> exists|i: int|
                        0 <= i < es@.len() && (#[trigger] es@[i]).0@ == k)
            },
    {
        let mut out: Vec<(Vec<u8>, Vec<u8>)> = Vec::new();
        for item in self.db.iter() {
            match item {
                Ok((k, v)) => out.push((k.to_vec(), v.to_vec())),
                Err(e) => return Err(e),
            }
        }
        Ok(out)
    }

    /// Opens the durable store in the directory at `path`, creating it
    /// when missing.
    pub fn new(path: &str) -> (r: Result<TodoDb, StoreError>)
        ensures
            r matches Ok(db) ==> db@.dom().finite(),
            r matches Err(e) ==> e.message@ == "Failed to open sled database"@,
    {
        match sled_open(path) {
            Ok(db) => Ok(TodoDb { db }),
            Err(_) => Err(StoreError::new("Failed to open sled database")),
        }
    }

    /// Writes a record under its identifier key, overwriting any existing
    /// value there, and flushes before returning.
    fn upsert(&mut self, todo: &Todo, context: &str) -> (r: Result<(), StoreError>)
        ensures
            r is Ok ==> final(self)@ == old(self)@.insert(spec_key(todo@.id), spec_encode(todo@)),
            r matches Err(e) ==> e.message@ == context@ || e.message@ == "Failed to flush database"@,
    {
        let key = key_bytes(todo.id);
        let value = encode_todo(todo);
        match self.raw_put(&key, &value) {
            Err(_) => Err(StoreError::new(context)),
            Ok(_) => match self.raw_flush() {
                Err(_) => Err(StoreError::new("Failed to flush database")),
                Ok(_) => Ok(()),
            },
        }
    }

    /// Inserts a record: an upsert under its identifier key, durable
    /// before returning.
    pub fn insert(&mut self, todo: &Todo) -> (r: Result<(), StoreError>)
        ensures
            r is Ok ==> final(self)@ == old(self)@.insert(spec_key(todo@.id), spec_encode(todo@)),
            r matches Err(e) ==> e.message@ == "Failed to insert todo"@ || e.message@
                == "Failed to flush database"@,
    {
        self.upsert(todo, "Failed to insert todo")
    }

    /// Overwrites the record for an existing identifier: the same upsert
    /// as [`TodoDb::insert`], durable before returning.
    pub fn update(&mut self, todo: &Todo) -> (r: Result<(), StoreError>)
        ensures
            r is Ok ==> final(self)@ == old(self)@.insert(spec_key(todo@.id), spec_encode(todo@)),
            r matches Err(e) ==> e.message@ == "Failed to update todo"@ || e.message@
                == "Failed to flush database"@,
    {
        self.upsert(todo, "Failed to update todo")
    }

    /// Returns the record for `id`, `None` when the store holds nothing
    /// under that identifier, and an error when the stored bytes cannot be
    /// read or decoded.
    pub fn get(&self, id: u128) -> (r: Result<Option<Todo>, StoreError>)
        ensures
            r matches Ok(Some(t)) ==> self@.contains_key(spec_key(id)) && spec_decode(
                self@[spec_key(id)],
            ) == Some(t@),
            r matches Ok(None) ==> !self@.contains_key(spec_key(id)),
            r matches Err(e) ==> e.message@ == "Failed to get todo"@ || e.message@
                == "Failed to deserialize todo"@,
    {
        let key = key_bytes(id);
        match self.raw_get(&key) {
            Err(_) => Err(StoreError::new("Failed to get todo")),
            Ok(None) => Ok(None),
            Ok(Some(bytes)) => match decode_todo(&bytes) {
                None => Err(StoreError::new("Failed to deserialize todo")),
                Some(t) => Ok(Some(t)),
            },
        }
    }

    /// Removes the record for `id` if present, durable before returning;
    /// says whether a record existed. Deleting an absent identifier is not
    /// an error.
    pub fn delete(&mut self, id: u128) -> (r: Result<bool, StoreError>)
        ensures
            r matches Ok(b) ==> final(self)@ == old(self)@.remove(spec_key(id)) && (b <==> old(
                self,
            )@.contains_key(spec_key(id))),
            r matches Err(e) ==> e.message@ == "Failed to delete todo"@ || e.message@
                == "Failed to flush database"@,
    {
        let key = key_bytes(id);
        match self.raw_remove(&key) {
            Err(_) => Err(StoreError::new("Failed to delete todo")),
            Ok(prior) => match self.raw_flush() {
                Err(_) => Err(StoreError::new("Failed to flush database")),
                Ok(_) => Ok(prior.is_some()),
            },
        }
    }

    /// Removes every record, durable before returning.
    pub fn clear_all(&mut self) -> (r: Result<(), StoreError>)
        ensures
            r is Ok ==> final(self)@ == empty_store(),
            r matches Err(e) ==> e.message@ == "Failed to clear database"@ || e.message@
                == "Failed to flush database"@,
    {
        match self.raw_clear() {
            Err(_) => Err(StoreError::new("Failed to clear database")),
            Ok(_) => match self.raw_flush() {
                Err(_) => Err(StoreError::new("Failed to flush database")),
                Ok(_) => Ok(()),
            },
        }
    }

    /// Returns every stored record, newest first by creation time; fails
    /// whole when any single record cannot be read or decoded.
    pub fn get_all(&self) -> (r: Result<Vec<Todo>, StoreError>)
        ensures
            r matches Ok(ts) ==> {
                &&& sorted_desc(views_of(ts@))
                &&& ts@.len() == self@.dom().len()
                &&& listing_covered(self@, views_of(ts@))
                &&& listing_complete(self@, views_of(ts@))
            },
            r matches Err(e) ==> e.message@ == "Failed to iterate over todos"@ || e.message@
                == "Failed to deserialize todo"@,
    {
        let entries = match self.raw_scan() {
            Err(_) => {
                return Err(StoreError::new("Failed to iterate over todos"));
            },
            Ok(es) => es,
        };
        let mut todos: Vec<Todo> = Vec::new();
        let mut i: usize = 0;
        while i < entries.len()
            invariant
                0 <= i <= entries@.len(),
                todos@.len() == i,
                forall|j: int|
                    #![trigger todos@[j]]
                    0 <= j < i ==> spec_decode(entries@[j].1@) == Some(todos@[j]@),
            decreases entries@.len() - i,
        {
            match decode_todo(&entries[i].1) {
                None => {
                    return Err(StoreError::new("Failed to deserialize todo"));
                },
                Some(t) => {
                    todos.push(t);
                },
            }
            i = i + 1;
        }
        let ghost tv = views_of(todos@);
        let sorted = sort_by_created_desc(todos);
        proof {
            broadcast use group_to_multiset_ensures;

            let sv = views_of(sorted@);
            assert forall|i2: int| #![trigger sv[i2]] 0 <= i2 < sv.len() implies stored_record(
                self@,
                sv[i2],
            ) by {
                assert(sv.contains(sv[i2]));
                assert(sv.to_multiset().count(sv[i2]) > 0);
                assert(tv.to_multiset().count(sv[i2]) > 0);
                assert(tv.contains(sv[i2]));
                let j = choose|j: int| 0 <= j < tv.len() && tv[j] == sv[i2];
                assert(tv[j] == todos@[j]@);
                assert(spec_decode(entries@[j].1@) == Some(todos@[j]@));
                assert(self@.contains_key(entries@[j].0@));
                assert(self@[entries@[j].0@] == entries@[j].1@);
                assert(spec_decode(self@[entries@[j].0@]) == Some(sv[i2]));
            }
            assert(listing_covered(self@, sv));
            assert forall|k: Seq<u8>| #[trigger] self@.contains_key(k) implies exists|i2: int|
                0 <= i2 < sv.len() && spec_decode(self@[k]) == Some(#[trigger] sv[i2]) by {
                let j = choose|j: int| 0 <= j < entries@.len() && entries@[j].0@ == k;
                assert(self@[k] == entries@[j].1@);
                assert(spec_decode(entries@[j].1@) == Some(todos@[j]@));
                assert(tv[j] == todos@[j]@);
                assert(tv.contains(tv[j]));
                assert(tv.to_multiset().count(tv[j]) > 0);
                assert(sv.to_multiset().count(tv[j]) > 0);
                assert(sv.contains(tv[j]));
                let i2 = choose|i2: int| 0 <= i2 < sv.len() && sv[i2] == tv[j];
                assert(spec_decode(self@[k]) == Some(sv[i2]));
            }
            assert(listing_complete(self@, sv));
        }
        Ok(sorted)
    }
}

/// Some stored entry decodes to exactly this record.
pub open spec fn stored_record(m: Map<Seq<u8>, Seq<u8>>, t: TodoView) -> bool {
    exists|k: Seq<u8>| #[trigger] m.contains_key(k) && spec_decode(m[k]) == Some(t)
}

/// Every listed record is the decoding of some stored entry.
pub open spec fn listing_covered(m: Map<Seq<u8>, Seq<u8>>, ts: Seq<TodoView>) -> bool {
    forall|i: int| #![trigger ts[i]] 0 <= i < ts.len() ==> stored_record(m, ts[i])
}

/// Every stored entry decodes to some listed record.
pub open spec fn listing_complete(m: Map<Seq<u8>, Seq<u8>>, ts: Seq<TodoView>) -> bool {
    forall|k: Seq<u8>|
        #[trigger] m.contains_key(k) ==> exists|i: int|
            0 <= i < ts.len() && spec_decode(m[k]) == Some(#[trigger] ts[i])
}

/// A sequence of todos, as their mathematical values.
pub open spec fn views_of(s: Seq<Todo>) -> Seq<TodoView> {
    s.map_values(|t: Todo| t@)
}

/// Newest first: creation times never increase along the sequence.
pub open spec fn sorted_desc(s: Seq<TodoView>) -> bool {
    forall|i: int, j: int| 0 <= i <= j < s.len() ==> s[i].created_at >= s[j].created_at
}

/// Sorts todos by creation time, newest first, keeping exactly the same
/// records.
fn sort_by_created_desc(v: Vec<Todo>) -> (r: Vec<Todo>)
    ensures
        sorted_desc(views_of(r@)),
        views_of(r@).to_multiset() == views_of(v@).to_multiset(),
        r@.len() == v@.len(),
{
    proof {
        broadcast use group_to_multiset_ensures;

    }
    let mut src = v;
    let mut out: Vec<Todo> = Vec::new();
    while src.len() > 0
        invariant
            sorted_desc(views_of(out@)),
            views_of(out@).to_multiset().add(views_of(src@).to_multiset()) == views_of(
                v@,
            ).to_multiset(),
            out@.len() + src@.len() == v@.len(),
        decreases src@.len(),
    {
        let ghost src0 = src@;
        let ghost out0 = out@;
        let t = src.pop().unwrap();
        proof {
            broadcast use group_to_multiset_ensures;

            assert(src0 =~= src@.push(t));
            assert(views_of(src0) =~= views_of(src@).push(t@));
        }
        let mut k: usize = 0;
        while k < out.len() && out[k].created_at >= t.created_at
            invariant
                0 <= k <= out@.len(),
                out@ == out0,
                forall|x: int| 0 <= x < k ==> (#[trigger] out@[x])@.created_at >= t@.created_at,
            decreases out@.len() - k,
        {
            k = k + 1;
        }
        proof {
            broadcast use {group_to_multiset_ensures, vstd::seq_lib::to_multiset_insert};

            assert(views_of(out0.insert(k as int, t)) =~= views_of(out0).insert(k as int, t@));
            assert(views_of(out0).insert(k as int, t@).to_multiset() == views_of(
                out0,
            ).to_multiset().insert(t@));
            assert forall|a: TodoView|
                views_of(out0).to_multiset().insert(t@).add(views_of(src@).to_multiset()).count(a)
                    == views_of(out0).to_multiset().add(
                    views_of(src@).to_multiset().insert(t@),
                ).count(a) by {}
            assert(views_of(out0).to_multiset().insert(t@).add(views_of(src@).to_multiset()) =~= views_of(
                out0,
            ).to_multiset().add(views_of(src@).to_multiset().insert(t@)));
        }
        out.insert(k, t);
        proof {
            assert(out@ =~= out0.subrange(0, k as int).push(t) + out0.subrange(
                k as int,
                out0.len() as int,
            ));
            assert forall|a: int, b: int| 0 <= a <= b < out@.len() implies (#[trigger] views_of(
                out@,
            )[a]).created_at >= (#[trigger] views_of(out@)[b]).created_at by {
                assert(views_of(out@)[a] == out@[a]@);
                assert(views_of(out@)[b] == out@[b]@);
                let ki = k as int;
                if a < ki {
                    assert(out@[a] == out0[a]);
                    assert(out0[a]@.created_at >= t@.created_at);
                } else if a == ki {
                    assert(out@[a] == t);
                } else {
                    assert(out@[a] == out0[a - 1]);
                }
                if b < ki {
                    assert(out@[b] == out0[b]);
                } else if b == ki {
                    assert(out@[b] == t);
                } else {
                    assert(out@[b] == out0[b - 1]);
                    assert(views_of(out0)[b - 1] == out0[b - 1]@);
                    if ki < out0.len() {
                        assert(views_of(out0)[ki] == out0[ki]@);
                        assert(out0[b - 1]@.created_at <= out0[ki]@.created_at);
                        assert(out0[ki]@.created_at < t@.created_at);
                    }
                }
                if a < ki && b > ki {
                    assert(views_of(out0)[a] == out0[a]@);
                    assert(out0[a]@.created_at >= out0[b - 1]@.created_at);
                }
            }
        }
    }
    proof {
        assert(views_of(src@) =~= Seq::<TodoView>::empty());
        assert(views_of(out@).to_multiset().add(views_of(src@).to_multiset()) =~= views_of(
            out@,
        ).to_multiset());
    }
    out
}

} // verus!