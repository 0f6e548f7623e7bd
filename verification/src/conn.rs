//! The trusted boundary to the SQLite substrate.
//!
//! The one shared connection is held in an opaque wrapper; everything the
//! verified code knows about it is stated here, over two names: `db_model`,
//! the current (possibly uncommitted) contents of the store's tables, and
//! `db_saved`, the snapshot an open transaction would roll back to.  Each
//! wrapper executes one fixed SQL statement or batch and states, over those
//! names, exactly what the statement does according to SQLite's documented
//! semantics.  Wrappers return the substrate's error rendered as a message;
//! verified callers map it into the library's own error type.
//!
//! Read wrappers promise their result only at the schema version whose
//! tables they touch; at any other version the statement fails on the
//! missing table or column and the wrapper returns an error.

use rusqlite::OptionalExtension;
use vstd::prelude::*;

use crate::model::StoreModel;
use crate::value::{RawRow, TypeSet, ValueRow};

verus! {

/// A parameter value of the substrate, carried through opaquely.
#[verifier::external_type_specification]
#[verifier::external_body]
pub struct ExSqlValue(rusqlite::types::Value);

/// The one shared connection to the relational substrate.  The contracts
/// below describe the store as seen through this connection alone: the
/// design has exactly one connection per store, and a second connection on
/// the same file, or an outside writer, is outside the model.
#[verifier::external_body]
pub struct Conn {
    inner: rusqlite::Connection,
}

/// The current contents of the store behind a connection: its tables and
/// its recorded schema version, including uncommitted changes.  A modelled
/// value-table cell holds the stored value where the cell is of its
/// column's kind, and reads as NULL where the cell is NULL or of another
/// kind — decode failures are per-cell and non-fatal.
pub uninterp spec fn db_model(c: Conn) -> StoreModel;

/// The snapshot that the open transaction on the connection, if any, would
/// roll back to; `None` when the connection is in autocommit mode.
pub uninterp spec fn db_saved(c: Conn) -> Option<StoreModel>;

impl Conn {
    /// Relies on `rusqlite::Connection::open_in_memory`: a fresh in-memory
    /// database holds no tables and records schema version 0.
    #[verifier::external_body]
    pub fn open_in_memory() -> (r: Result<Conn, String>)
        ensures
            r is Ok ==> db_model(r->Ok_0) == StoreModel::fresh() && db_saved(r->Ok_0) is None,
    {
        match rusqlite::Connection::open_in_memory() {
            Ok(inner) => Ok(Conn { inner }),
            Err(e) => Err(e.to_string()),
        }
    }

    /// Relies on `rusqlite::Connection::open`: opens the database file at
    /// `path` (creating it when absent) in autocommit mode; the contents
    /// found there are whatever the file holds.
    #[verifier::external_body]
    pub fn open(path: &str) -> (r: Result<Conn, String>)
        ensures
            r is Ok ==> db_saved(r->Ok_0) is None,
    {
        match rusqlite::Connection::open(path) {
            Ok(inner) => Ok(Conn { inner }),
            Err(e) => Err(e.to_string()),
        }
    }

    /// Relies on `Connection::execute_batch` running `BEGIN`: opens a
    /// transaction whose rollback point is the current contents.
    #[verifier::external_body]
    pub fn begin(&mut self) -> (r: Result<(), String>)
        requires
            db_saved(*old(self)) is None,
        ensures
            db_model(*final(self)) == db_model(*old(self)),
            r is Ok ==> db_saved(*final(self)) == Some(db_model(*old(self))),
            r is Err ==> db_saved(*final(self)) is None,
    {
        self.inner.execute_batch("BEGIN;").map_err(|e| e.to_string())
    }

    /// Relies on `Connection::execute_batch` running `COMMIT`: makes the
    /// transaction's changes durable.  On failure SQLite either keeps the
    /// transaction open or has rolled it back.
    #[verifier::external_body]
    pub fn commit(&mut self) -> (r: Result<(), String>)
        requires
            db_saved(*old(self)) is Some,
        ensures
            r is Ok ==> db_model(*final(self)) == db_model(*old(self)) && db_saved(*final(self)) is None,
            r is Err ==> (db_model(*final(self)) == db_model(*old(self)) && db_saved(*final(self)) == db_saved(
                *old(self),
            )) || (db_model(*final(self)) == db_saved(*old(self))->0 && db_saved(*final(self)) is None),
    {
        self.inner.execute_batch("COMMIT;").map_err(|e| e.to_string())
    }

    /// Relies on `Connection::execute_batch` running `ROLLBACK`: discards
    /// the open transaction's changes, restoring the contents the
    /// transaction began with.  While a transaction is open, SQLite always
    /// carries a rollback out (an error can only report that the
    /// transaction was already gone).
    #[verifier::external_body]
    pub fn rollback(&mut self)
        requires
            db_saved(*old(self)) is Some,
        ensures
            db_model(*final(self)) == db_saved(*old(self))->0,
            db_saved(*final(self)) is None,
    {
        let _ = self.inner.execute_batch("ROLLBACK;");
    }

    /// Whether a transaction is open.  Relies on
    /// `Connection::is_autocommit`: autocommit mode means no open
    /// transaction.
    #[verifier::external_body]
    pub fn in_transaction(&self) -> (r: bool)
        ensures
            r == (db_saved(*self) is Some),
    {
        !self.inner.is_autocommit()
    }

    /// Relies on `Connection::query_row` reading `pragma_user_version`: the
    /// recorded schema version.
    #[verifier::external_body]
    pub fn read_version(&self) -> (r: Result<i32, String>)
        ensures
            r is Ok ==> r->Ok_0 as int == db_model(*self).version,
    {
        self.inner.query_row("SELECT user_version FROM pragma_user_version();", [], |row| row.get(0))
            .map_err(|e| e.to_string())
    }

    /// Relies on `Connection::execute` running the whole-row upsert on the
    /// current value table: inserts the row under the identifier blob, or on
    /// conflict overwrites every primitive column of the existing row (the
    /// unsupported float columns are reset to NULL); last write wins for the
    /// whole row.
    #[verifier::external_body]
    pub fn upsert_value_row(&mut self, id: &Vec<u8>, row: &ValueRow) -> (r: Result<(), String>)
        ensures
            db_saved(*final(self)) == db_saved(*old(self)),
            r is Ok && db_model(*old(self)).version == 2 ==> db_model(*final(self)) == (StoreModel {
                values: db_model(*old(self)).values.insert(id@, row@),
                ..db_model(*old(self))
            }),
            r is Err ==> db_model(*final(self)) == db_model(*old(self)),
    {
        self.inner.prepare_cached(
            "INSERT INTO `values` (`uuid`,`bool`,`u8`,`i8`,`u16`,`i16`,`u32`,`i32`,`u64`,`i64`,`str`,`bytes`) VALUES (?,?,?,?,?,?,?,?,?,?,?,?) ON CONFLICT(`uuid`) DO UPDATE SET `bool`=excluded.`bool`,`u8`=excluded.`u8`,`i8`=excluded.`i8`,`u16`=excluded.`u16`,`i16`=excluded.`i16`,`u32`=excluded.`u32`,`i32`=excluded.`i32`,`u64`=excluded.`u64`,`i64`=excluded.`i64`,`f32`=NULL,`f64`=NULL,`str`=excluded.`str`,`bytes`=excluded.`bytes`;",
        ).and_then(|mut s| s.execute((
            id.as_slice(), row.c_bool, row.c_u8, row.c_i8, row.c_u16, row.c_i16, row.c_u32,
            row.c_i32, row.c_u64, row.c_i64, row.c_text.as_deref(), row.c_bytes.as_deref(),
        ))).map(|_| ()).map_err(|e| e.to_string())
    }

    /// Relies on `Connection::execute` inserting one keyed link row;
    /// insertion is append-only and never deduplicates.
    #[verifier::external_body]
    pub fn insert_link_keyed(&mut self, src: &Vec<u8>, key: &Vec<u8>, tgt: &Vec<u8>) -> (r: Result<
        (),
        String,
    >)
        ensures
            db_saved(*final(self)) == db_saved(*old(self)),
            r is Ok && db_model(*old(self)).version == 2 ==> db_model(*final(self)) == (StoreModel {
                links: db_model(*old(self)).links.push((src@, Some(key@), tgt@)),
                ..db_model(*old(self))
            }),
            r is Err ==> db_model(*final(self)) == db_model(*old(self)),
    {
        self.inner.prepare_cached(
            "INSERT INTO `links` (`source_uuid`,`target_uuid`,`key_uuid`) VALUES (?,?,?);",
        ).and_then(|mut s| s.execute((src.as_slice(), tgt.as_slice(), key.as_slice())))
            .map(|_| ()).map_err(|e| e.to_string())
    }

    /// Relies on `Connection::execute` inserting one unkeyed link row (its
    /// key column is NULL); insertion is append-only and never deduplicates.
    #[verifier::external_body]
    pub fn insert_link_unkeyed(&mut self, src: &Vec<u8>, tgt: &Vec<u8>) -> (r: Result<(), String>)
        ensures
            db_saved(*final(self)) == db_saved(*old(self)),
            r is Ok && db_model(*old(self)).version == 2 ==> db_model(*final(self)) == (StoreModel {
                links: db_model(*old(self)).links.push((src@, None, tgt@)),
                ..db_model(*old(self))
            }),
            r is Err ==> db_model(*final(self)) == db_model(*old(self)),
    {
        self.inner.prepare_cached(
            "INSERT INTO `links` (`source_uuid`,`target_uuid`) VALUES (?,?);",
        ).and_then(|mut s| s.execute((src.as_slice(), tgt.as_slice())))
            .map(|_| ()).map_err(|e| e.to_string())
    }

    /// Relies on `Statement::query_row` running a projection query over the
    /// one value row stored under the identifier blob, if any.  When the
    /// query text is exactly the minimal projection for `want`, the row
    /// comes back with the requested columns' decodable values and every
    /// other column NULL: columns are read by name, so a column outside the
    /// projection reads as NULL, and a cell that does not decode as its
    /// column's kind is skipped (non-fatal), also reading as NULL.
    #[verifier::external_body]
    pub fn read_value_projection(&self, sql: &str, id: &[u8], want: &TypeSet) -> (r: Result<
        Option<RawRow>,
        String,
    >)
        ensures
            r is Ok && db_model(*self).version == 2 && sql@ == crate::value::projection_sql(*want)
                ==> match r->Ok_0 {
                Option::None => !db_model(*self).values.contains_key(id@),
                Option::Some(t) => db_model(*self).values.contains_key(id@)
                    && crate::value::raw_row_v(t) == crate::value::masked(
                    db_model(*self).values[id@],
                    *want,
                ),
            },
    {
        self.inner.prepare_cached(sql).and_then(|mut s| s.query_row((id,), |w| Ok((
            (w.get("bool").unwrap_or(None), w.get("u8").unwrap_or(None),
            w.get("i8").unwrap_or(None), w.get("u16").unwrap_or(None),
            w.get("i16").unwrap_or(None), w.get("u32").unwrap_or(None)),
            (w.get("i32").unwrap_or(None), w.get("u64").unwrap_or(None),
            w.get("i64").unwrap_or(None), w.get("str").unwrap_or(None),
            w.get("bytes").unwrap_or(None)),
        ))).optional()).map_err(|e| e.to_string())
    }

    /// Relies on `Statement::query_map` selecting the `(key, target)` blobs
    /// of every link row with the given source, ordered by rowid; the
    /// library never deletes link rows, so rowid order is insertion order.
    #[verifier::external_body]
    pub fn read_links_from(&self, src: &Vec<u8>) -> (r: Result<
        Vec<(Option<Vec<u8>>, Vec<u8>)>,
        String,
    >)
        ensures
            r is Ok && db_model(*self).version == 2 ==> r->Ok_0@.len() == crate::model::links_from(
                db_model(*self).links,
                src@,
            ).len() && (forall|i: int|
                0 <= i < r->Ok_0@.len() ==> crate::model::link_pair_matches(
                    #[trigger] r->Ok_0@[i],
                    crate::model::links_from(db_model(*self).links, src@)[i],
                )),
    {
        self.inner.prepare_cached(
            "SELECT `key_uuid`,`target_uuid` FROM `links` WHERE `source_uuid` = ? ORDER BY rowid;",
        ).and_then(|mut s| {
            s.query_map((src.as_slice(),), |w| Ok((w.get(0)?, w.get(1)?)))?.collect()
        }).map_err(|e| e.to_string())
    }

    /// Relies on `Statement::query_map` running a compiled link query with
    /// its bound parameters; each result row projects the `(key, target)`
    /// columns the compiler put first.  Nothing is assumed about which rows
    /// the query selects.
    #[verifier::external_body]
    pub fn query_link_rows(&self, sql: &str, params: &Vec<rusqlite::types::Value>) -> (r: Result<
        Vec<(Option<Vec<u8>>, Vec<u8>)>,
        String,
    >)
    {
        self.inner.prepare_cached(sql).and_then(|mut s| {
            s.query_map(rusqlite::params_from_iter(params.iter()), |w| Ok((w.get(0)?, w.get(1)?)))?
                .collect()
        }).map_err(|e| e.to_string())
    }

    /// Relies on `Statement::query_map` selecting, with a UNION query, the
    /// identifier blob of every value row and of every link source: each
    /// distinct identifier appears exactly once, in unspecified order.
    #[verifier::external_body]
    pub fn select_all_ids(&self) -> (r: Result<Vec<Vec<u8>>, String>)
        ensures
            r is Ok && db_model(*self).version == 2 ==> (forall|i: int|
                0 <= i < r->Ok_0@.len() ==> crate::model::all_id_blobs(db_model(*self)).contains(
                    #[trigger] r->Ok_0@[i]@,
                )) && (forall|b: Seq<u8>| #[trigger]
                crate::model::all_id_blobs(db_model(*self)).contains(b) ==> exists|i: int|
                    0 <= i < r->Ok_0@.len() && #[trigger] r->Ok_0@[i]@ == b) && (forall|
                i: int,
                j: int,
            |
                0 <= i < j < r->Ok_0@.len() ==> #[trigger] r->Ok_0@[i]@ != #[trigger] r->Ok_0@[j]@),
    {
        self.inner.prepare(
            "SELECT `uuid` AS `uuid` FROM `values` UNION SELECT `source_uuid` AS `uuid` FROM `links`;",
        ).and_then(|mut s| s.query_map([], |w| w.get(0))?.collect()).map_err(|e| e.to_string())
    }

    /// Relies on `Connection::execute_batch` creating the version-1 schema
    /// on an empty store: the value table keyed by decimal identifier text,
    /// the link table, and recorded version 1.
    #[verifier::external_body]
    pub fn exec_migration_v1(&mut self) -> (r: Result<(), String>)
        ensures
            db_saved(*final(self)) == db_saved(*old(self)),
            r is Ok && db_model(*old(self)).version == 0 ==> db_model(*final(self)) == (StoreModel {
                version: 1,
                ..StoreModel::fresh()
            }),
    {
        self.inner.execute_batch(
            "CREATE TABLE `values` (`id` TEXT PRIMARY KEY NOT NULL, `bool` INTEGER, `u8` INTEGER, `i8` INTEGER, `u16` INTEGER, `i16` INTEGER, `u32` INTEGER, `i32` INTEGER, `u64` INTEGER, `i64` INTEGER, `f32` REAL, `f64` REAL, `str` TEXT, `bytes` BLOB); CREATE TABLE `links` (`source_id` TEXT NOT NULL, `key_id` TEXT, `target_id` TEXT NOT NULL); PRAGMA user_version = 1;",
        ).map_err(|e| e.to_string())
    }

    /// Relies on `Connection::execute_batch` adding the nullable identifier
    /// blob columns that the re-encoding step fills in: `uuid` on the value
    /// table and the three `*_uuid` columns on the link table.
    #[verifier::external_body]
    pub fn exec_migration_v2_prepare(&mut self) -> (r: Result<(), String>)
        ensures
            db_saved(*final(self)) == db_saved(*old(self)),
            r is Ok && db_model(*old(self)).version == 1 ==> db_model(*final(self)) == (StoreModel {
                v1_value_uuids: Map::empty(),
                v1_link_uuids: Map::empty(),
                ..db_model(*old(self))
            }),
    {
        self.inner.execute_batch(
            "ALTER TABLE `values` ADD COLUMN `uuid` BLOB; ALTER TABLE `links` ADD COLUMN `source_uuid` BLOB; ALTER TABLE `links` ADD COLUMN `key_uuid` BLOB; ALTER TABLE `links` ADD COLUMN `target_uuid` BLOB;",
        ).map_err(|e| e.to_string())
    }

    /// Relies on `Statement::query_map` selecting the decimal identifier of
    /// every version-1 value row; identifiers are the table's primary key,
    /// so each appears exactly once.
    #[verifier::external_body]
    pub fn select_v1_value_ids(&self) -> (r: Result<Vec<String>, String>)
        ensures
            r is Ok && db_model(*self).version == 1 ==> (forall|i: int|
                0 <= i < r->Ok_0@.len() ==> db_model(*self).v1_values.contains_key(
                    #[trigger] r->Ok_0@[i]@,
                )) && (forall|id: Seq<char>| #[trigger]
                db_model(*self).v1_values.contains_key(id) ==> exists|i: int|
                    0 <= i < r->Ok_0@.len() && #[trigger] r->Ok_0@[i]@ == id) && (forall|
                i: int,
                j: int,
            |
                0 <= i < j < r->Ok_0@.len() ==> #[trigger] r->Ok_0@[i]@ != #[trigger] r->Ok_0@[j]@),
    {
        self.inner.prepare("SELECT `id` FROM `values` ORDER BY rowid;").and_then(|mut s| {
            s.query_map([], |w| w.get(0))?.collect()
        }).map_err(|e| e.to_string())
    }

    /// Relies on `Connection::execute` recording the re-encoded identifier
    /// blob on the version-1 value row with the given decimal identifier;
    /// rows with any other identifier are untouched.
    #[verifier::external_body]
    pub fn set_v1_value_uuid(&mut self, id: &str, uuid: &Vec<u8>) -> (r: Result<(), String>)
        ensures
            db_saved(*final(self)) == db_saved(*old(self)),
            r is Ok && db_model(*old(self)).version == 1 ==> db_model(*final(self)) == (StoreModel {
                v1_value_uuids: if db_model(*old(self)).v1_values.contains_key(id@) {
                    db_model(*old(self)).v1_value_uuids.insert(id@, uuid@)
                } else {
                    db_model(*old(self)).v1_value_uuids
                },
                ..db_model(*old(self))
            }),
            r is Err ==> db_model(*final(self)) == db_model(*old(self)),
    {
        self.inner.prepare_cached("UPDATE `values` SET `uuid` = ? WHERE `id` = ?;")
            .and_then(|mut s| s.execute((uuid.as_slice(), id)))
            .map(|_| ()).map_err(|e| e.to_string())
    }

    /// Relies on `Statement::query_map` selecting the decimal identifier
    /// triple of every version-1 link row, in insertion (rowid) order.
    #[verifier::external_body]
    pub fn select_v1_link_rows(&self) -> (r: Result<
        Vec<(String, Option<String>, String)>,
        String,
    >)
        ensures
            r is Ok && db_model(*self).version == 1 ==> r->Ok_0@.len() == db_model(
                *self,
            ).v1_links.len() && (forall|i: int|
                0 <= i < r->Ok_0@.len() ==> crate::model::v1_link_pair_matches(
                    #[trigger] r->Ok_0@[i],
                    db_model(*self).v1_links[i],
                )),
    {
        self.inner.prepare("SELECT `source_id`,`key_id`,`target_id` FROM `links` ORDER BY rowid;")
            .and_then(|mut s| {
                s.query_map([], |w| Ok((w.get(0)?, w.get(1)?, w.get(2)?)))?.collect()
            }).map_err(|e| e.to_string())
    }

    /// Relies on `Connection::execute` recording the re-encoded identifier
    /// triple on every version-1 link row that holds exactly this keyed
    /// decimal triple; other rows are untouched.
    #[verifier::external_body]
    pub fn set_v1_link_uuids_keyed(
        &mut self,
        s: &str,
        k: &str,
        t: &str,
        su: &Vec<u8>,
        ku: &Vec<u8>,
        tu: &Vec<u8>,
    ) -> (r: Result<(), String>)
        ensures
            db_saved(*final(self)) == db_saved(*old(self)),
            r is Ok && db_model(*old(self)).version == 1 ==> db_model(*final(self)) == (StoreModel {
                v1_link_uuids: if db_model(*old(self)).v1_links.contains((s@, Some(k@), t@)) {
                    db_model(*old(self)).v1_link_uuids.insert(
                        (s@, Some(k@), t@),
                        (su@, Some(ku@), tu@),
                    )
                } else {
                    db_model(*old(self)).v1_link_uuids
                },
                ..db_model(*old(self))
            }),
            r is Err ==> db_model(*final(self)) == db_model(*old(self)),
    {
        self.inner.prepare_cached(
            "UPDATE `links` SET `source_uuid` = ?, `key_uuid` = ?, `target_uuid` = ? WHERE `source_id` IS ? AND `key_id` IS ? AND `target_id` IS ?;",
        ).and_then(|mut q| q.execute((su.as_slice(), ku.as_slice(), tu.as_slice(), s, k, t)))
            .map(|_| ()).map_err(|e| e.to_string())
    }

    /// Relies on `Connection::execute` recording the re-encoded identifier
    /// pair on every version-1 link row that holds exactly this unkeyed
    /// decimal pair (its key is NULL); other rows are untouched.
    #[verifier::external_body]
    pub fn set_v1_link_uuids_unkeyed(
        &mut self,
        s: &str,
        t: &str,
        su: &Vec<u8>,
        tu: &Vec<u8>,
    ) -> (r: Result<(), String>)
        ensures
            db_saved(*final(self)) == db_saved(*old(self)),
            r is Ok && db_model(*old(self)).version == 1 ==> db_model(*final(self)) == (StoreModel {
                v1_link_uuids: if db_model(*old(self)).v1_links.contains((s@, None, t@)) {
                    db_model(*old(self)).v1_link_uuids.insert(
                        (s@, None, t@),
                        (su@, None, tu@),
                    )
                } else {
                    db_model(*old(self)).v1_link_uuids
                },
                ..db_model(*old(self))
            }),
            r is Err ==> db_model(*final(self)) == db_model(*old(self)),
    {
        self.inner.prepare_cached(
            "UPDATE `links` SET `source_uuid` = ?, `target_uuid` = ? WHERE `source_id` IS ? AND `key_id` IS NULL AND `target_id` IS ?;",
        ).and_then(|mut q| q.execute((su.as_slice(), tu.as_slice(), s, t)))
            .map(|_| ()).map_err(|e| e.to_string())
    }

    /// Relies on `Connection::execute_batch` rebuilding both tables from
    /// their re-encoded identifier columns and recording version 2: the new
    /// value table is keyed by the assigned `uuid` blob (NOT NULL and
    /// PRIMARY KEY, so the step fails if any row was left unassigned or two
    /// rows were assigned the same blob), the new link table takes the three
    /// assigned `*_uuid` columns in rowid order, the version-1 tables are
    /// dropped, and the recorded version becomes 2.
    #[verifier::external_body]
    pub fn exec_migration_v2_finish(&mut self) -> (r: Result<(), String>)
        ensures
            db_saved(*final(self)) == db_saved(*old(self)),
            r is Ok && db_model(*old(self)).version == 1 ==> crate::model::store_migrated(
                db_model(*old(self)),
                db_model(*final(self)),
            ),
    {
        self.inner.execute_batch(
            "CREATE TABLE `values_new` (`uuid` BLOB PRIMARY KEY NOT NULL, `bool` INTEGER, `u8` INTEGER, `i8` INTEGER, `u16` INTEGER, `i16` INTEGER, `u32` INTEGER, `i32` INTEGER, `u64` INTEGER, `i64` INTEGER, `f32` REAL, `f64` REAL, `str` TEXT, `bytes` BLOB); INSERT INTO `values_new` SELECT `uuid`,`bool`,`u8`,`i8`,`u16`,`i16`,`u32`,`i32`,`u64`,`i64`,`f32`,`f64`,`str`,`bytes` FROM `values` ORDER BY rowid; DROP TABLE `values`; ALTER TABLE `values_new` RENAME TO `values`; CREATE TABLE `links_new` (`source_uuid` BLOB NOT NULL, `key_uuid` BLOB, `target_uuid` BLOB NOT NULL); INSERT INTO `links_new` SELECT `source_uuid`,`key_uuid`,`target_uuid` FROM `links` ORDER BY rowid; DROP TABLE `links`; ALTER TABLE `links_new` RENAME TO `links`; PRAGMA user_version = 2;",
        ).map_err(|e| e.to_string())
    }

    /// Relies on `Connection::execute` inserting one version-1 value row
    /// under a decimal identifier; the identifier is the primary key, so
    /// inserting a duplicate fails.
    #[verifier::external_body]
    pub fn insert_v1_value_row(&mut self, id: &str, row: &ValueRow) -> (r: Result<(), String>)
        ensures
            db_saved(*final(self)) == db_saved(*old(self)),
            r is Ok && db_model(*old(self)).version == 1 ==> db_model(*final(self)) == (StoreModel {
                v1_values: db_model(*old(self)).v1_values.insert(id@, row@),
                ..db_model(*old(self))
            }),
            r is Err ==> db_model(*final(self)) == db_model(*old(self)),
    {
        self.inner.prepare_cached(
            "INSERT INTO `values` (`id`,`bool`,`u8`,`i8`,`u16`,`i16`,`u32`,`i32`,`u64`,`i64`,`str`,`bytes`) VALUES (?,?,?,?,?,?,?,?,?,?,?,?);",
        ).and_then(|mut s| s.execute((
            id, row.c_bool, row.c_u8, row.c_i8, row.c_u16, row.c_i16, row.c_u32,
            row.c_i32, row.c_u64, row.c_i64, row.c_text.as_deref(), row.c_bytes.as_deref(),
        ))).map(|_| ()).map_err(|e| e.to_string())
    }

    /// Relies on `Connection::execute` inserting one keyed version-1 link
    /// row of decimal identifiers.
    #[verifier::external_body]
    pub fn insert_v1_link_keyed(&mut self, s: &str, k: &str, t: &str) -> (r: Result<(), String>)
        ensures
            db_saved(*final(self)) == db_saved(*old(self)),
            r is Ok && db_model(*old(self)).version == 1 ==> db_model(*final(self)) == (StoreModel {
                v1_links: db_model(*old(self)).v1_links.push((s@, Some(k@), t@)),
                ..db_model(*old(self))
            }),
            r is Err ==> db_model(*final(self)) == db_model(*old(self)),
    {
        self.inner.prepare_cached(
            "INSERT INTO `links` (`source_id`,`key_id`,`target_id`) VALUES (?,?,?);",
        ).and_then(|mut q| q.execute((s, k, t))).map(|_| ()).map_err(|e| e.to_string())
    }

    /// Relies on `Connection::execute` inserting one unkeyed version-1 link
    /// row of decimal identifiers (its key column is NULL).
    #[verifier::external_body]
    pub fn insert_v1_link_unkeyed(&mut self, s: &str, t: &str) -> (r: Result<(), String>)
        ensures
            db_saved(*final(self)) == db_saved(*old(self)),
            r is Ok && db_model(*old(self)).version == 1 ==> db_model(*final(self)) == (StoreModel {
                v1_links: db_model(*old(self)).v1_links.push((s@, None, t@)),
                ..db_model(*old(self))
            }),
            r is Err ==> db_model(*final(self)) == db_model(*old(self)),
    {
        self.inner.prepare_cached(
            "INSERT INTO `links` (`source_id`,`target_id`) VALUES (?,?);",
        ).and_then(|mut q| q.execute((s, t))).map(|_| ()).map_err(|e| e.to_string())
    }
}

/// The BLOB parameter value holding the given bytes: what
/// `rusqlite::types::Value::Blob` builds, a function of the bytes alone.
pub uninterp spec fn blob_value(b: Seq<u8>) -> rusqlite::types::Value;

/// The TEXT parameter value holding the given text: what
/// `rusqlite::types::Value::Text` builds, a function of the text alone.
pub uninterp spec fn text_value(s: Seq<char>) -> rusqlite::types::Value;

/// Relies on `rusqlite::types::Value::Blob`: wraps bytes as a BLOB
/// parameter for a compiled query.
#[verifier::external_body]
pub fn blob_param(b: &Vec<u8>) -> (r: rusqlite::types::Value)
    ensures
        r == blob_value(b@),
{
    rusqlite::types::Value::Blob(b.clone())
}

/// Relies on `rusqlite::types::Value::Text`: wraps text as a TEXT
/// parameter for a compiled query.
#[verifier::external_body]
pub fn text_param(s: &str) -> (r: rusqlite::types::Value)
    ensures
        r == text_value(s@),
{
    rusqlite::types::Value::Text(s.to_owned())
}

} // verus!
