//! The embedded store adapter: one on-disk key-value database, split into
//! named partitions, holding raw bytes under string keys.
//!
//! The database itself is redb's; this module holds the handle, names its
//! contents as a map from (partition name, key) to bytes, and gives the two
//! raw operations exact contracts over that map. Everything above this
//! module is verified against those contracts.

use vstd::prelude::*;

use redb::ReadableDatabase;

verus! {

#[verifier::external_type_specification]
#[verifier::external_body]
pub struct ExDatabase(redb::Database);

/// What the database holds: for each pair of a partition name and a key,
/// the bytes stored under that key in that partition.
pub uninterp spec fn store_contents(db: redb::Database) -> Map<(Seq<char>, Seq<char>), Seq<u8>>;

/// The store could not be opened: the path is inaccessible or the file is
/// not a usable database.
#[derive(Debug, Clone, Copy, PartialEq, Eq, Structural)]
pub struct StoreOpenError;

/// A write transaction failed: an I/O error, a full disk, or an oversized
/// entry. The attempted write may or may not have become durable.
#[derive(Debug, Clone, Copy, PartialEq, Eq, Structural)]
pub struct StoreWriteError;

/// A read transaction failed. Absence of a key is not an error.
#[derive(Debug, Clone, Copy, PartialEq, Eq, Structural)]
pub struct StoreReadError;

// ---------------------------------------------------------------------------
// Partitions
// ---------------------------------------------------------------------------

/// The named partitions of the store. Keys are unique within a partition;
/// partitions are independent namespaces.
#[derive(Clone, Copy, Debug, PartialEq, Eq, Structural)]
pub enum Partition {
    /// Profile metadata, keyed by public-key hex.
    Profiles,
    /// Relay lists, keyed by public-key hex.
    RelayLists,
    /// Followed public keys, keyed by the follower's public-key hex.
    Followed,
    /// Timeline snapshots, keyed by public-key hex or query key.
    Timelines,
    /// Zap receipts, keyed by public-key hex.
    ZapHistory,
    /// Raw image bytes, keyed by source URL; no envelope, no expiry.
    Images,
}

impl Partition {
    pub open spec fn name_spec(self) -> Seq<char> {
        match self {
            Partition::Profiles => "profile_metadata"@,
            Partition::RelayLists => "relay_lists"@,
            Partition::Followed => "followed"@,
            Partition::Timelines => "timelines"@,
            Partition::ZapHistory => "zaps"@,
            Partition::Images => "images"@,
        }
    }

    pub fn table_name(self) -> (r: &'static str)
        ensures
            r@ == self.name_spec(),
            r@.len() > 0,
    {
        proof {
            reveal_strlit("profile_metadata");
            reveal_strlit("relay_lists");
            reveal_strlit("followed");
            reveal_strlit("timelines");
            reveal_strlit("zaps");
            reveal_strlit("images");
        }
        match self {
            Partition::Profiles => "profile_metadata",
            Partition::RelayLists => "relay_lists",
            Partition::Followed => "followed",
            Partition::Timelines => "timelines",
            Partition::ZapHistory => "zaps",
            Partition::Images => "images",
        }
    }
}

/// Distinct partitions have distinct names, so an entry of one partition
/// never collides with an entry of another.
pub proof fn lemma_partition_names_injective(p1: Partition, p2: Partition)
    ensures
        p1 != p2 ==> p1.name_spec() != p2.name_spec(),
{
    reveal_strlit("profile_metadata");
    reveal_strlit("relay_lists");
    reveal_strlit("followed");
    reveal_strlit("timelines");
    reveal_strlit("zaps");
    reveal_strlit("images");
    assert(("profile_metadata"@).len() == 16);
    assert(("relay_lists"@).len() == 11);
    assert(("followed"@).len() == 8);
    assert(("timelines"@).len() == 9);
    assert(("zaps"@).len() == 4);
    assert(("images"@).len() == 6);
}

// ---------------------------------------------------------------------------
// The store handle
// ---------------------------------------------------------------------------

/// A handle to one open on-disk store. All cache operations go through a
/// value of this type; writes take it exclusively, so reads through it see
/// every write made through it, in order.
pub struct CacheDb {
    db: redb::Database,
}

impl CacheDb {
    /// The store's current contents as a map from (partition name, key)
    /// pairs to the stored bytes.
    pub closed spec fn contents(&self) -> Map<(Seq<char>, Seq<char>), Seq<u8>> {
        store_contents(self.db)
    }

    /// Relies on redb's `Database::create`: opens the database file at
    /// `path`, creating it if absent, and fails if the path is inaccessible
    /// or the file is not a usable database.
    #[verifier::external_body]
    pub fn open(path: &str) -> (r: Result<CacheDb, StoreOpenError>) {
        match redb::Database::create(path) {
            Ok(db) => Ok(CacheDb { db }),
            Err(_) => Err(StoreOpenError),
        }
    }

    /// Relies on redb's read path (`begin_read`, `open_table`, `get`): a
    /// read transaction sees a consistent snapshot, and `get` returns the
    /// bytes stored under the key, or nothing if the key (or the whole
    /// partition) is absent. Read failures go to `Err`, never to `Ok(None)`.
    /// The table name must not be empty: redb refuses an empty name by
    /// panicking, so that input is excluded here.
    #[verifier::external_body]
    fn raw_get(&self, table: &str, key: &str) -> (r: Result<Option<Vec<u8>>, StoreReadError>)
        requires
            table@.len() > 0,
        ensures
            match r {
                Ok(Some(v)) => store_contents(self.db).contains_pair((table@, key@), v@),
                Ok(None) => !store_contents(self.db).dom().contains((table@, key@)),
                Err(_) => true,
            },
    {
        let td: redb::TableDefinition<&str, &[u8]> = redb::TableDefinition::new(table);
        let txn = self.db.begin_read().map_err(|_| StoreReadError)?;
        let t = match txn.open_table(td) {
            Ok(t) => t,
            Err(redb::TableError::TableDoesNotExist(_)) => return Ok(None),
            Err(_) => return Err(StoreReadError),
        };
        match t.get(key) {
            Ok(Some(guard)) => Ok(Some(guard.value().to_vec())),
            Ok(None) => Ok(None),
            Err(_) => Err(StoreReadError),
        }
    }

    /// Relies on redb's write path (`begin_write`, `open_table`, `insert`,
    /// `commit`): a committed write replaces the value under the key and
    /// changes nothing else; a failed write is applied atomically or not at
    /// all, but a failed commit may still have become durable. The table
    /// name must not be empty: redb refuses an empty name by panicking, so
    /// that input is excluded here.
    #[verifier::external_body]
    fn raw_put(&mut self, table: &str, key: &str, value: &[u8]) -> (r: Result<
        (),
        StoreWriteError,
    >)
        requires
            table@.len() > 0,
        ensures
            r is Ok ==> store_contents(final(self).db) == store_contents(old(self).db).insert(
                (table@, key@),
                value@,
            ),
            r is Err ==> store_contents(final(self).db) == store_contents(old(self).db)
                || store_contents(final(self).db) == store_contents(old(self).db).insert(
                (table@, key@),
                value@,
            ),
    {
        let td: redb::TableDefinition<&str, &[u8]> = redb::TableDefinition::new(table);
        let txn = self.db.begin_write().map_err(|_| StoreWriteError)?;
        {
            let mut t = txn.open_table(td).map_err(|_| StoreWriteError)?;
            t.insert(key, value).map_err(|_| StoreWriteError)?;
        }
        txn.commit().map_err(|_| StoreWriteError)
    }

    /// One read transaction: the bytes under `key` in `partition`, or
    /// nothing when the key is absent. A failed read degrades to a miss;
    /// absence itself is never an error.
    pub fn get_bytes(&self, partition: Partition, key: &str) -> (r: Option<Vec<u8>>)
        ensures
            r matches Some(v) ==> self.contents().contains_pair(
                (partition.name_spec(), key@),
                v@,
            ),
            !self.contents().dom().contains((partition.name_spec(), key@)) ==> r is None,
    {
        match self.raw_get(partition.table_name(), key) {
            Ok(o) => o,
            Err(_) => None,
        }
    }

    /// One write transaction: stores `value` under `key` in `partition`,
    /// replacing any previous value unconditionally and touching no other
    /// entry.
    pub fn put_bytes(&mut self, partition: Partition, key: &str, value: &[u8]) -> (r: Result<
        (),
        StoreWriteError,
    >)
        ensures
            r is Ok ==> final(self).contents() == old(self).contents().insert(
                (partition.name_spec(), key@),
                value@,
            ),
            r is Err ==> final(self).contents() == old(self).contents() || final(self).contents()
                == old(self).contents().insert((partition.name_spec(), key@), value@),
    {
        self.raw_put(partition.table_name(), key, value)
    }

    /// The exact read: like `get_bytes`, but a failed read transaction is
    /// reported instead of degrading to a miss.
    pub fn try_get_bytes(&self, partition: Partition, key: &str) -> (r: Result<
        Option<Vec<u8>>,
        StoreReadError,
    >)
        ensures
            match r {
                Ok(Some(v)) => self.contents().contains_pair((partition.name_spec(), key@), v@),
                Ok(None) => !self.contents().dom().contains((partition.name_spec(), key@)),
                Err(_) => true,
            },
    {
        self.raw_get(partition.table_name(), key)
    }
}

} // verus!
