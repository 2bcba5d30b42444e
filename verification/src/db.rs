//! The key-value store beneath the chain's persistence: an in-memory
//! connection, a disk-backed connection, and the connection switch.
//!
//! The store is modelled as a map from key strings to byte values. The
//! disk connection keeps the same verified in-memory state; writing it
//! durably to its path is the application shell's concern.

use vstd::prelude::*;

verus! {

/// Which backing a database uses.
#[derive(Clone, Copy, Debug, PartialEq, Eq, Structural)]
pub enum DbType {
    /// Values live in memory only.
    Memory,
    /// Values live in memory and are flushed to a file path.
    Disk,
}

/// A database failure.
#[derive(Clone, Debug, PartialEq, Eq)]
pub enum DbError {
    /// The query is not one the store understands.
    QueryError,
    /// The connection cannot serve the request.
    ConnectionError,
    /// The backing file could not be read or written.
    IOError,
}

/// One result row: a sequence of byte-valued columns.
pub struct Row {
    pub columns: Vec<Vec<u8>>,
}

/// The map a sequence of key-value entries spells, later entries winning.
pub open spec fn kv_map(entries: Seq<(String, Vec<u8>)>) -> Map<Seq<char>, Seq<u8>>
    decreases entries.len(),
{
    if entries.len() == 0 {
        Map::empty()
    } else {
        kv_map(entries.drop_last()).insert(entries.last().0@, entries.last().1@)
    }
}

/// Membership in the map is existence of an entry with the key.
proof fn lemma_kv_map_contains(entries: Seq<(String, Vec<u8>)>, k: Seq<char>)
    ensures
        kv_map(entries).contains_key(k) <==> exists|i: int|
            0 <= i < entries.len() && (#[trigger] entries[i]).0@ == k,
    decreases entries.len(),
{
    if entries.len() > 0 {
        lemma_kv_map_contains(entries.drop_last(), k);
        if entries.last().0@ == k {
            assert(entries[entries.len() - 1].0@ == k);
        } else {
            if kv_map(entries).contains_key(k) {
                let i = choose|i: int|
                    0 <= i < entries.drop_last().len() && (#[trigger] entries.drop_last()[i]).0@
                        == k;
                assert(entries[i].0@ == k);
            }
            if exists|i: int| 0 <= i < entries.len() && (#[trigger] entries[i]).0@ == k {
                let i = choose|i: int| 0 <= i < entries.len() && (#[trigger] entries[i]).0@ == k;
                assert(entries.drop_last()[i].0@ == k);
            }
        }
    }
}

/// Under unique keys, the entry holding a key gives the map's value at it.
proof fn lemma_kv_map_value(entries: Seq<(String, Vec<u8>)>, i: int)
    requires
        0 <= i < entries.len(),
        forall|p: int, q: int|
            0 <= p < q < entries.len() ==> (#[trigger] entries[p]).0@ != (
            #[trigger] entries[q]).0@,
    ensures
        kv_map(entries).contains_key(entries[i].0@),
        kv_map(entries)[entries[i].0@] == entries[i].1@,
    decreases entries.len(),
{
    if i == entries.len() - 1 {
    } else {
        lemma_kv_map_value(entries.drop_last(), i);
        assert(entries.drop_last()[i] == entries[i]);
        assert(entries.last().0@ != entries[i].0@);
    }
}

/// The in-memory connection: entries with unique keys.
pub struct MemoryConnection {
    data: Vec<(String, Vec<u8>)>,
}

impl MemoryConnection {
    /// The stored entries, oldest first.
    pub closed spec fn entries(self) -> Seq<(String, Vec<u8>)> {
        self.data@
    }

    /// The store as a map from key to value.
    pub open spec fn as_map(self) -> Map<Seq<char>, Seq<u8>> {
        kv_map(self.entries())
    }

    #[verifier::type_invariant]
    spec fn inv(self) -> bool {
        forall|p: int, q: int|
            0 <= p < q < self.data@.len() ==> (#[trigger] self.data@[p]).0@ != (
            #[trigger] self.data@[q]).0@
    }

    /// An empty store.
    pub fn new() -> (c: MemoryConnection)
        ensures
            c.as_map() == Map::<Seq<char>, Seq<u8>>::empty(),
    {
        let c = MemoryConnection { data: Vec::new() };
        proof {
            assert(c.data@ =~= Seq::<(String, Vec<u8>)>::empty());
        }
        c
    }

    /// The position of `key` among the entries, if it is stored.
    fn find(&self, key: &str) -> (r: Option<usize>)
        ensures
            match r {
                Some(i) => i < self.entries().len() && self.entries()[i as int].0@ == key@,
                None => forall|i: int|
                    0 <= i < self.entries().len() ==> (#[trigger] self.entries()[i]).0@ != key@,
            },
    {
        let k: String = key.to_owned();
        for i in 0..self.data.len()
            invariant
                forall|j: int| 0 <= j < i ==> (#[trigger] self.data@[j]).0@ != key@,
                k@ == key@,
        {
            if self.data[i].0 == k {
                return Some(i);
            }
        }
        None
    }

    /// The value stored at `key`, if any; the connection cannot fail.
    pub fn get(&self, key: &str) -> (r: Result<Option<Vec<u8>>, DbError>)
        ensures
            match r {
                Ok(Some(v)) => self.as_map().contains_key(key@) && v@ == self.as_map()[key@],
                Ok(None) => !self.as_map().contains_key(key@),
                Err(_) => false,
            },
    {
        proof {
            use_type_invariant(self);
            lemma_kv_map_contains(self.entries(), key@);
        }
        match self.find(key) {
            Some(i) => {
                proof {
                    lemma_kv_map_value(self.entries(), i as int);
                }
                let mut v: Vec<u8> = Vec::new();
                v.extend_from_slice(self.data[i].1.as_slice());
                proof {
                    assert(v@ =~= self.data@[i as int].1@);
                }
                Ok(Some(v))
            },
            None => Ok(None),
        }
    }

    /// Stores `value` at `key`, overwriting any earlier value.
    pub fn put(&mut self, key: &str, value: Vec<u8>) -> (r: Result<(), DbError>)
        ensures
            r is Ok,
            final(self).as_map() == old(self).as_map().insert(key@, value@),
    {
        proof {
            use_type_invariant(&*self);
        }
        let ghost entries0 = self.entries();
        let k: String = key.to_owned();
        let found = self.find(key);
        let mut data: Vec<(String, Vec<u8>)> = Vec::new();
        core::mem::swap(&mut data, &mut self.data);
        match found {
            Some(i) => {
                data.set(i, (k, value));
                proof {
                    lemma_kv_map_update(entries0, data@, i as int, key@, value@);
                }
                self.data = data;
            },
            None => {
                data.push((k, value));
                proof {
                    assert(data@.drop_last() =~= entries0);
                    assert(data@[data@.len() - 1].0@ == key@);
                    assert forall|p: int, q: int|
                        0 <= p < q < data@.len() implies (#[trigger] data@[p]).0@ != (
                    #[trigger] data@[q]).0@ by {
                        if q == data@.len() - 1 {
                            assert(data@[p] == entries0[p]);
                        } else {
                            assert(data@[p] == entries0[p] && data@[q] == entries0[q]);
                        }
                    };
                }
                self.data = data;
            },
        }
        Ok(())
    }

    /// Removes `key`, if stored; removing an absent key changes nothing.
    pub fn delete(&mut self, key: &str) -> (r: Result<(), DbError>)
        ensures
            r is Ok,
            final(self).as_map() == old(self).as_map().remove(key@),
    {
        proof {
            use_type_invariant(&*self);
        }
        let ghost entries0 = self.entries();
        let found = self.find(key);
        let mut data: Vec<(String, Vec<u8>)> = Vec::new();
        core::mem::swap(&mut data, &mut self.data);
        match found {
            Some(i) => {
                data.remove(i);
                proof {
                    lemma_kv_map_remove(entries0, i as int, key@);
                    assert(data@ =~= entries0.remove(i as int));
                }
                self.data = data;
            },
            None => {
                proof {
                    lemma_kv_map_contains(entries0, key@);
                    assert(kv_map(entries0) =~= kv_map(entries0).remove(key@));
                }
                self.data = data;
            },
        }
        Ok(())
    }

    /// Runs a read-only query. The one understood shape is `GET <key>`:
    /// one row holding the value when the key is stored, no rows when it
    /// is not. Anything else is a query error.
    pub fn execute(&self, query: &str) -> (r: Result<Vec<Row>, DbError>)
        ensures
            ({
                let q = query@;
                if q.len() >= 4 && q.take(4) == seq!['G', 'E', 'T', ' '] {
                    match r {
                        Ok(rows) => {
                            if self.as_map().contains_key(q.skip(4)) {
                                rows@.len() == 1 && rows@[0].columns@.len() == 1
                                    && rows@[0].columns@[0]@ == self.as_map()[q.skip(4)]
                            } else {
                                rows@.len() == 0
                            }
                        },
                        Err(_) => false,
                    }
                } else {
                    r == Err::<Vec<Row>, DbError>(DbError::QueryError)
                }
            }),
    {
        let chars = chars_of(query);
        if chars.len() < 4 || !(chars[0] == 'G' && chars[1] == 'E' && chars[2] == 'T' && chars[3]
            == ' ') {
            proof {
                if query@.len() >= 4 && query@.take(4) == seq!['G', 'E', 'T', ' '] {
                    assert(query@.take(4)[0] == 'G' && query@.take(4)[1] == 'E' && query@.take(
                        4,
                    )[2] == 'T' && query@.take(4)[3] == ' ');
                    assert(query@[0] == 'G' && query@[1] == 'E' && query@[2] == 'T' && query@[3]
                        == ' ');
                }
            }
            return Err(DbError::QueryError);
        }
        proof {
            use_type_invariant(self);
            assert(query@.take(4) =~= seq!['G', 'E', 'T', ' ']);
        }
        let ghost key = query@.skip(4);
        let n = self.data.len();
        for j in 0..n
            invariant
                n == self.data@.len(),
                chars@ == query@,
                chars@.len() >= 4,
                key == query@.skip(4),
                query@.len() >= 4 && query@.take(4) == seq!['G', 'E', 'T', ' '],
                forall|p: int| 0 <= p < j ==> (#[trigger] self.data@[p]).0@ != key,
                forall|p: int, q: int|
                    0 <= p < q < self.data@.len() ==> (#[trigger] self.data@[p]).0@ != (
                    #[trigger] self.data@[q]).0@,
        {
            let kc = chars_of(self.data[j].0.as_str());
            if chars_eq_from(&kc, &chars, 4) {
                proof {
                    lemma_kv_map_value(self.data@, j as int);
                }
                let mut v: Vec<u8> = Vec::new();
                v.extend_from_slice(self.data[j].1.as_slice());
                proof {
                    assert(v@ =~= self.data@[j as int].1@);
                }
                let mut columns: Vec<Vec<u8>> = Vec::new();
                columns.push(v);
                let mut rows: Vec<Row> = Vec::new();
                rows.push(Row { columns });
                return Ok(rows);
            }
        }
        proof {
            lemma_kv_map_contains(self.data@, key);
        }
        Ok(Vec::new())
    }
}

/// Whether `a` spells exactly the characters of `b` from `from` on.
fn chars_eq_from(a: &Vec<char>, b: &Vec<char>, from: usize) -> (r: bool)
    requires
        from <= b@.len(),
    ensures
        r == (a@ == b@.skip(from as int)),
{
    let blen = b.len();
    if a.len() != blen - from {
        return false;
    }
    for i in 0..a.len()
        invariant
            from + a@.len() == b@.len(),
            from + a@.len() <= usize::MAX,
            forall|j: int| 0 <= j < i ==> a@[j] == b@[from + j],
    {
        proof {
            assert(from + i < b@.len());
        }
        if !(a[i] == b[from + i]) {
            proof {
                assert(a@[i as int] != b@.skip(from as int)[i as int]);
            }
            return false;
        }
    }
    proof {
        assert(a@ =~= b@.skip(from as int));
    }
    true
}

/// Updating the entry at `i` with one carrying the same key turns the map
/// into an insert, and keeps keys unique.
proof fn lemma_kv_map_update(
    entries0: Seq<(String, Vec<u8>)>,
    entries1: Seq<(String, Vec<u8>)>,
    i: int,
    k: Seq<char>,
    v: Seq<u8>,
)
    requires
        0 <= i < entries0.len(),
        entries1.len() == entries0.len(),
        entries0[i].0@ == k,
        entries1[i].0@ == k,
        entries1[i].1@ == v,
        forall|j: int| 0 <= j < entries0.len() && j != i ==> entries1[j] == entries0[j],
        forall|p: int, q: int|
            0 <= p < q < entries0.len() ==> (#[trigger] entries0[p]).0@ != (
            #[trigger] entries0[q]).0@,
    ensures
        kv_map(entries1) == kv_map(entries0).insert(k, v),
        forall|p: int, q: int|
            0 <= p < q < entries1.len() ==> (#[trigger] entries1[p]).0@ != (
            #[trigger] entries1[q]).0@,
    decreases entries0.len(),
{
    assert forall|p: int, q: int|
        0 <= p < q < entries1.len() implies (#[trigger] entries1[p]).0@ != (
    #[trigger] entries1[q]).0@ by {
        assert(entries0[p].0@ == entries1[p].0@ && entries0[q].0@ == entries1[q].0@);
    };
    if i == entries0.len() - 1 {
        assert(entries1.drop_last() =~= entries0.drop_last());
        assert(kv_map(entries1) == kv_map(entries0.drop_last()).insert(k, v));
        assert(kv_map(entries0.drop_last()).insert(k, v) =~= kv_map(entries0).insert(k, v));
    } else {
        lemma_kv_map_update(entries0.drop_last(), entries1.drop_last(), i, k, v);
        assert(entries1.last() == entries0.last());
        assert(entries0.last().0@ != k) by {
            assert(entries0[i].0@ == k);
            assert(entries0[entries0.len() - 1].0@ != entries0[i].0@);
        }
        assert(kv_map(entries1) == kv_map(entries0.drop_last()).insert(k, v).insert(
            entries0.last().0@,
            entries0.last().1@,
        ));
        assert(kv_map(entries0.drop_last()).insert(k, v).insert(
            entries0.last().0@,
            entries0.last().1@,
        ) =~= kv_map(entries0).insert(k, v));
    }
}

/// Removing the entry at `i` turns the map into a remove, under unique
/// keys.
proof fn lemma_kv_map_remove(entries: Seq<(String, Vec<u8>)>, i: int, k: Seq<char>)
    requires
        0 <= i < entries.len(),
        entries[i].0@ == k,
        forall|p: int, q: int|
            0 <= p < q < entries.len() ==> (#[trigger] entries[p]).0@ != (
            #[trigger] entries[q]).0@,
    ensures
        kv_map(entries.remove(i)) == kv_map(entries).remove(k),
    decreases entries.len(),
{
    lemma_kv_map_contains(entries, k);
    if i == entries.len() - 1 {
        assert(entries.remove(i) =~= entries.drop_last());
        assert(!kv_map(entries.drop_last()).contains_key(k)) by {
            lemma_kv_map_contains(entries.drop_last(), k);
            if exists|j: int|
                0 <= j < entries.drop_last().len() && (#[trigger] entries.drop_last()[j]).0@ == k {
                let j = choose|j: int|
                    0 <= j < entries.drop_last().len() && (#[trigger] entries.drop_last()[j]).0@
                        == k;
                assert(entries[j].0@ == entries[i].0@);
            }
        }
        assert(kv_map(entries.drop_last()) =~= kv_map(entries).remove(k));
    } else {
        lemma_kv_map_remove(entries.drop_last(), i, k);
        assert(entries.remove(i).drop_last() =~= entries.drop_last().remove(i));
        assert(entries.remove(i).last() == entries.last());
        assert(entries.last().0@ != k) by {
            assert(entries[entries.len() - 1].0@ != entries[i].0@);
        }
        assert(kv_map(entries.remove(i)) == kv_map(entries.drop_last()).remove(k).insert(
            entries.last().0@,
            entries.last().1@,
        ));
        assert(kv_map(entries.drop_last()).remove(k).insert(
            entries.last().0@,
            entries.last().1@,
        ) =~= kv_map(entries).remove(k));
    }
}

/// The characters of a string, in order.
fn chars_of(s: &str) -> (r: Vec<char>)
    ensures
        r@ == s@,
{
    let mut r: Vec<char> = Vec::new();
    for c in it: s.chars()
        invariant
            r@.len() == it.index(),
            forall|j: int| 0 <= j < r@.len() ==> r@[j] == it.seq()[j],
            it.seq() == s@,
    {
        r.push(c);
    }
    proof {
        assert(r@ =~= s@);
    }
    r
}

/// The disk connection: the same verified in-memory state, bound to the
/// file path the application shell flushes it to.
pub struct DiskConnection {
    path: String,
    store: MemoryConnection,
}

impl DiskConnection {
    /// The store as a map from key to value.
    pub closed spec fn as_map(self) -> Map<Seq<char>, Seq<u8>> {
        self.store.as_map()
    }

    /// The file path the state is flushed to.
    pub closed spec fn spec_path(self) -> Seq<char> {
        self.path@
    }

    /// An empty store bound to the default database path.
    pub fn new() -> (c: DiskConnection)
        ensures
            c.as_map() == Map::<Seq<char>, Seq<u8>>::empty(),
    {
        DiskConnection { path: String::new(), store: MemoryConnection::new() }
    }

    /// An empty store bound to `path`.
    pub fn at_path(path: String) -> (c: DiskConnection)
        ensures
            c.as_map() == Map::<Seq<char>, Seq<u8>>::empty(),
            c.spec_path() == path@,
    {
        DiskConnection { path, store: MemoryConnection::new() }
    }

    /// The file path the state is flushed to.
    pub fn path(&self) -> (r: &String)
        ensures
            r@ == self.spec_path(),
    {
        &self.path
    }

    /// The stored entries, for the application shell to flush durably.
    pub fn snapshot(&self) -> (r: &MemoryConnection)
        ensures
            r.as_map() == self.as_map(),
    {
        &self.store
    }

    /// Runs a read-only query; see [`MemoryConnection::execute`].
    pub fn execute(&self, query: &str) -> (r: Result<Vec<Row>, DbError>)
        ensures
            ({
                let q = query@;
                if q.len() >= 4 && q.take(4) == seq!['G', 'E', 'T', ' '] {
                    match r {
                        Ok(rows) => {
                            if self.as_map().contains_key(q.skip(4)) {
                                rows@.len() == 1 && rows@[0].columns@.len() == 1
                                    && rows@[0].columns@[0]@ == self.as_map()[q.skip(4)]
                            } else {
                                rows@.len() == 0
                            }
                        },
                        Err(_) => false,
                    }
                } else {
                    r == Err::<Vec<Row>, DbError>(DbError::QueryError)
                }
            }),
    {
        self.store.execute(query)
    }

    /// The value stored at `key`, if any.
    pub fn get(&self, key: &str) -> (r: Result<Option<Vec<u8>>, DbError>)
        ensures
            match r {
                Ok(Some(v)) => self.as_map().contains_key(key@) && v@ == self.as_map()[key@],
                Ok(None) => !self.as_map().contains_key(key@),
                Err(_) => false,
            },
    {
        self.store.get(key)
    }

    /// Stores `value` at `key`, overwriting any earlier value.
    pub fn put(&mut self, key: &str, value: Vec<u8>) -> (r: Result<(), DbError>)
        ensures
            r is Ok,
            final(self).as_map() == old(self).as_map().insert(key@, value@),
            final(self).spec_path() == old(self).spec_path(),
    {
        self.store.put(key, value)
    }

    /// Removes `key`, if stored.
    pub fn delete(&mut self, key: &str) -> (r: Result<(), DbError>)
        ensures
            r is Ok,
            final(self).as_map() == old(self).as_map().remove(key@),
            final(self).spec_path() == old(self).spec_path(),
    {
        self.store.delete(key)
    }
}

/// A connection of either kind.
pub enum Connection {
    Memory(MemoryConnection),
    Disk(DiskConnection),
}

impl Connection {
    /// The store as a map from key to value.
    pub open spec fn as_map(self) -> Map<Seq<char>, Seq<u8>> {
        match self {
            Connection::Memory(c) => c.as_map(),
            Connection::Disk(c) => c.as_map(),
        }
    }

    /// Runs a read-only query; see [`MemoryConnection::execute`].
    pub fn execute(&self, query: &str) -> (r: Result<Vec<Row>, DbError>)
        ensures
            ({
                let q = query@;
                if q.len() >= 4 && q.take(4) == seq!['G', 'E', 'T', ' '] {
                    match r {
                        Ok(rows) => {
                            if self.as_map().contains_key(q.skip(4)) {
                                rows@.len() == 1 && rows@[0].columns@.len() == 1
                                    && rows@[0].columns@[0]@ == self.as_map()[q.skip(4)]
                            } else {
                                rows@.len() == 0
                            }
                        },
                        Err(_) => false,
                    }
                } else {
                    r == Err::<Vec<Row>, DbError>(DbError::QueryError)
                }
            }),
    {
        match self {
            Connection::Memory(c) => c.execute(query),
            Connection::Disk(c) => c.execute(query),
        }
    }

    /// The value stored at `key`, if any.
    pub fn get(&self, key: &str) -> (r: Result<Option<Vec<u8>>, DbError>)
        ensures
            match r {
                Ok(Some(v)) => self.as_map().contains_key(key@) && v@ == self.as_map()[key@],
                Ok(None) => !self.as_map().contains_key(key@),
                Err(_) => false,
            },
    {
        match self {
            Connection::Memory(c) => c.get(key),
            Connection::Disk(c) => c.get(key),
        }
    }

    /// Stores `value` at `key`, overwriting any earlier value.
    pub fn put(&mut self, key: &str, value: Vec<u8>) -> (r: Result<(), DbError>)
        ensures
            r is Ok,
            final(self).as_map() == old(self).as_map().insert(key@, value@),
            (*final(self)) is Memory <==> (*old(self)) is Memory,
    {
        match self {
            Connection::Memory(c) => c.put(key, value),
            Connection::Disk(c) => c.put(key, value),
        }
    }

    /// Removes `key`, if stored.
    pub fn delete(&mut self, key: &str) -> (r: Result<(), DbError>)
        ensures
            r is Ok,
            final(self).as_map() == old(self).as_map().remove(key@),
            (*final(self)) is Memory <==> (*old(self)) is Memory,
    {
        match self {
            Connection::Memory(c) => c.delete(key),
            Connection::Disk(c) => c.delete(key),
        }
    }
}

/// A database: a connection of the configured kind.
pub struct Db {
    pub db_type: DbType,
    pub connection: Connection,
}

impl Db {
    /// The store as a map from key to value.
    pub open spec fn as_map(self) -> Map<Seq<char>, Seq<u8>> {
        self.connection.as_map()
    }

    /// An empty database of the given kind.
    pub fn new(db_type: DbType) -> (d: Db)
        ensures
            d.as_map() == Map::<Seq<char>, Seq<u8>>::empty(),
            d.db_type == db_type,
    {
        match db_type {
            DbType::Memory => Db {
                db_type,
                connection: Connection::Memory(MemoryConnection::new()),
            },
            DbType::Disk => Db { db_type, connection: Connection::Disk(DiskConnection::new()) },
        }
    }

    /// Runs a read-only query; see [`MemoryConnection::execute`].
    pub fn execute(&self, query: &str) -> (r: Result<Vec<Row>, DbError>)
        ensures
            ({
                let q = query@;
                if q.len() >= 4 && q.take(4) == seq!['G', 'E', 'T', ' '] {
                    match r {
                        Ok(rows) => {
                            if self.as_map().contains_key(q.skip(4)) {
                                rows@.len() == 1 && rows@[0].columns@.len() == 1
                                    && rows@[0].columns@[0]@ == self.as_map()[q.skip(4)]
                            } else {
                                rows@.len() == 0
                            }
                        },
                        Err(_) => false,
                    }
                } else {
                    r == Err::<Vec<Row>, DbError>(DbError::QueryError)
                }
            }),
    {
        self.connection.execute(query)
    }

    /// The value stored at `key`, if any.
    pub fn get(&self, key: &str) -> (r: Result<Option<Vec<u8>>, DbError>)
        ensures
            match r {
                Ok(Some(v)) => self.as_map().contains_key(key@) && v@ == self.as_map()[key@],
                Ok(None) => !self.as_map().contains_key(key@),
                Err(_) => false,
            },
    {
        self.connection.get(key)
    }

    /// Stores `value` at `key`, overwriting any earlier value.
    pub fn put(&mut self, key: &str, value: Vec<u8>) -> (r: Result<(), DbError>)
        ensures
            r is Ok,
            final(self).as_map() == old(self).as_map().insert(key@, value@),
            final(self).db_type == old(self).db_type,
    {
        self.connection.put(key, value)
    }

    /// Removes `key`, if stored.
    pub fn delete(&mut self, key: &str) -> (r: Result<(), DbError>)
        ensures
            r is Ok,
            final(self).as_map() == old(self).as_map().remove(key@),
            final(self).db_type == old(self).db_type,
    {
        self.connection.delete(key)
    }
}

} // verus!
