//! The storage engine: the one shared connection, open and initialize,
//! schema-version introspection, and the atomic write path.
//!
//! `store` persists an entity graph inside a single transaction: the
//! entity's own value row is upserted, every linked key and target entity
//! is persisted recursively the same way, and one link row is appended per
//! link.  On any failure the whole transaction rolls back, so partial
//! graphs are never observable.

use vstd::prelude::*;

use crate::conn::{db_model, db_saved, Conn};
use crate::entity::{
    entity_blob, entity_complete, entity_effect, link_complete, link_effect, link_row, link_v,
    links_effect, links_v, lemma_entity_effect_frame, lemma_links_effect_frame,
    lemma_links_effect_push, lemma_links_v, upserted, Entity, Link, LinkV,
};
use crate::error::Error;
use crate::id::SqlID;
use crate::model::StoreModel;
use crate::storeddata::StoredData;
use crate::value::{opt_scalar_v, row_of, scalar_row};

verus! {

broadcast use vstd::std_specs::vec::group_vec_axioms, vstd::seq::group_seq_axioms;

/// The schema version this build of the library writes and expects.
pub const SCHEMA_VERSION: i32 = 2;

/// The storage engine: owns the one shared connection to the relational
/// substrate.
pub struct Database {
    pub conn: Conn,
}

impl Database {
    /// Wraps an already opened connection.
    pub fn new(conn: Conn) -> (r: Database)
        ensures
            r.conn == conn,
    {
        Database { conn }
    }

    /// Opens a fresh private in-memory store, at schema version 0 and
    /// entirely empty.
    pub fn open_in_memory() -> (r: Result<Database, Error>)
        ensures
            r is Ok ==> db_model(r->Ok_0.conn) == StoreModel::fresh() && db_saved(r->Ok_0.conn)
                is None,
    {
        match Conn::open_in_memory() {
            Ok(conn) => Ok(Database { conn }),
            Err(m) => Err(Error::Sql(m)),
        }
    }

    /// Opens the store at a filesystem path, creating the file if absent.
    pub fn open(path: &str) -> (r: Result<Database, Error>)
        ensures
            r is Ok ==> db_saved(r->Ok_0.conn) is None,
    {
        match Conn::open(path) {
            Ok(conn) => Ok(Database { conn }),
            Err(m) => Err(Error::Sql(m)),
        }
    }

    /// The schema version currently recorded in the store's metadata.
    pub fn schema_version(&self) -> (r: Result<i32, Error>)
        ensures
            r is Ok ==> r->Ok_0 as int == db_model(self.conn).version,
            r is Err ==> r->Err_0 is Sql,
    {
        match self.conn.read_version() {
            Ok(v) => Ok(v),
            Err(m) => Err(Error::Sql(m)),
        }
    }

    /// Whether the store is at the version this build expects.
    fn is_ready(&self) -> (r: bool)
        ensures
            r ==> db_model(self.conn).version == SCHEMA_VERSION as int,
    {
        match self.conn.read_version() {
            Ok(v) => v == SCHEMA_VERSION,
            Err(_) => false,
        }
    }

    /// Brings the store's schema to the version this build expects by
    /// running every pending migration step, each in its own transaction.
    /// A store whose recorded version cannot be read or is negative is
    /// treated as uninitialized.
    pub fn migrate(&mut self) -> (r: Result<(), Error>)
        requires
            db_saved(old(self).conn) is None,
        ensures
            db_saved(final(self).conn) is None,
            r is Ok ==> db_model(final(self).conn).version >= SCHEMA_VERSION as int || db_model(
                old(self).conn,
            ).version < 0,
            db_model(old(self).conn).version >= 0 ==> crate::migration::migration_reach(
                db_model(old(self).conn),
                db_model(final(self).conn),
            ),
            db_model(old(self).conn).version >= 0 && r is Err && r->Err_0 is InvalidID
                ==> db_model(old(self).conn).version == 1 && !crate::migration::v1_ids_canonical(
                db_model(old(self).conn),
            ),
            db_model(old(self).conn).version == 1 && r is Ok
                ==> crate::migration::v1_ids_canonical(db_model(old(self).conn)),
    {
        let v: i32 = match self.schema_version() {
            Ok(x) => x,
            Err(e) => { return Err(e); },
        };
        let mig = crate::migration::Migrations { version: if v < 0 { 0 } else { v } };
        mig.run_all(self)
    }

    /// Ensures the schema is at the latest version before the store is
    /// used: a no-op on a ready store, a full migration run otherwise.
    pub fn init(&mut self) -> (r: Result<(), Error>)
        requires
            db_saved(old(self).conn) is None,
        ensures
            db_saved(final(self).conn) is None,
            r is Ok ==> db_model(final(self).conn).version >= SCHEMA_VERSION as int || db_model(
                old(self).conn,
            ).version < 0,
            db_model(old(self).conn).version >= 0 ==> crate::migration::migration_reach(
                db_model(old(self).conn),
                db_model(final(self).conn),
            ),
            db_model(old(self).conn).version >= 0 && r is Err && r->Err_0 is InvalidID
                ==> db_model(old(self).conn).version == 1 && !crate::migration::v1_ids_canonical(
                db_model(old(self).conn),
            ),
            db_model(old(self).conn).version == 1 && r is Ok
                ==> crate::migration::v1_ids_canonical(db_model(old(self).conn)),
    {
        if self.is_ready() {
            return Ok(());
        }
        self.migrate()
    }

    /// Persists an entity graph atomically: upserts the entity's value row,
    /// recursively persists every linked key and target entity, and appends
    /// one link row per link, all in one transaction.  Re-storing an entity
    /// rewrites its value row (idempotent) but appends its link rows again
    /// (append-only, by design).  On failure nothing changes.
    ///
    /// Calling `store` before the store is initialized is a programming
    /// error: in practice every statement then fails on the missing tables
    /// and the call returns the substrate's error.  The recorded version is
    /// metadata, though — it does not causally gate the statements — so no
    /// clause ties success to it, and the effect is stated at the version
    /// this build writes.
    pub fn store(&mut self, e: &Entity) -> (r: Result<StoredData, Error>)
        requires
            entity_complete(e@),
            db_saved(old(self).conn) is None,
        ensures
            db_saved(final(self).conn) is None,
            r is Ok ==> r->Ok_0.id@ == e@.id->0,
            r is Ok && db_model(old(self).conn).version == SCHEMA_VERSION as int ==> db_model(
                final(self).conn,
            ) == entity_effect(db_model(old(self).conn), e@),
            r is Err ==> db_model(final(self).conn) == db_model(old(self).conn),
    {
        match self.conn.begin() {
            Err(m) => { return Err(Error::Sql(m)); },
            Ok(_) => {},
        }
        match store_entity(&mut self.conn, e) {
            Err(err) => {
                self.conn.rollback();
                return Err(err);
            },
            Ok(_) => {},
        }
        match self.conn.commit() {
            Err(m) => {
                if self.conn.in_transaction() {
                    self.conn.rollback();
                }
                return Err(Error::Sql(m));
            },
            Ok(_) => {},
        }
        let id: SqlID = match &e.id {
            Some(i) => *i,
            None => vstd::pervasive::unreached(),
        };
        Ok(StoredData { id })
    }

    /// Inserts one value row into a store still at schema version 1, under
    /// a decimal text identifier: populates a pre-migration store, as
    /// migration scenarios need.
    pub fn seed_v1_value(&mut self, id: &str, value: &Option<crate::value::Scalar>) -> (r: Result<
        (),
        Error,
    >)
        ensures
            db_saved(final(self).conn) == db_saved(old(self).conn),
            r is Ok && db_model(old(self).conn).version == 1 ==> db_model(final(self).conn) == (
            StoreModel {
                v1_values: db_model(old(self).conn).v1_values.insert(
                    id@,
                    row_of(opt_scalar_v(*value)),
                ),
                ..db_model(old(self).conn)
            }),
            r is Err ==> db_model(final(self).conn) == db_model(old(self).conn),
    {
        let row = scalar_row(value);
        match self.conn.insert_v1_value_row(id, &row) {
            Ok(_) => Ok(()),
            Err(m) => Err(Error::Sql(m)),
        }
    }

    /// Inserts one link row into a store still at schema version 1, with
    /// decimal text identifiers and an optional key.
    pub fn seed_v1_link(&mut self, source: &str, key: Option<&str>, target: &str) -> (r: Result<
        (),
        Error,
    >)
        ensures
            db_saved(final(self).conn) == db_saved(old(self).conn),
            r is Ok && db_model(old(self).conn).version == 1 ==> db_model(final(self).conn) == (
            StoreModel {
                v1_links: db_model(old(self).conn).v1_links.push(
                    (source@, match key {
                        Option::Some(k) => Option::Some(k@),
                        Option::None => Option::None,
                    }, target@),
                ),
                ..db_model(old(self).conn)
            }),
            r is Err ==> db_model(final(self).conn) == db_model(old(self).conn),
    {
        let r = match key {
            Some(k) => self.conn.insert_v1_link_keyed(source, k, target),
            None => self.conn.insert_v1_link_unkeyed(source, target),
        };
        match r {
            Ok(_) => Ok(()),
            Err(m) => Err(Error::Sql(m)),
        }
    }

    /// Every identifier the store holds — the identifier of every value
    /// row and of every link source — each exactly once, in unspecified
    /// order.  `InvalidID` comes back only when the store holds a
    /// malformed identifier blob, and success means it holds none.
    pub fn all_ids(&self) -> (r: Result<Vec<SqlID>, Error>)
        ensures
            r is Ok && db_model(self.conn).version == 2 ==> crate::model::ids_cover(
                r->Ok_0@,
                db_model(self.conn),
            ) && (forall|b: Seq<u8>| #[trigger]
                crate::model::all_id_blobs(db_model(self.conn)).contains(b)
                    ==> crate::id::blob_decodes(b)),
            r is Err ==> r->Err_0 is Sql || r->Err_0 is InvalidID,
            r is Err && r->Err_0 is InvalidID && db_model(self.conn).version == 2 ==> exists|
                b: Seq<u8>,
            |
                #[trigger] crate::model::all_id_blobs(db_model(self.conn)).contains(b)
                    && !crate::id::blob_decodes(b),
    {
        let raw = match self.conn.select_all_ids() {
            Err(m) => { return Err(Error::Sql(m)); },
            Ok(v) => v,
        };
        let mut out: Vec<SqlID> = Vec::new();
        let mut i: usize = 0;
        while i < raw.len()
            invariant
                0 <= i <= raw@.len(),
                out@.len() == i,
                forall|j: int|
                    0 <= j < i ==> crate::id::id_bytes(#[trigger] out@[j]@) == raw@[j]@
                        && crate::id::blob_decodes(raw@[j]@),
                db_model(self.conn).version == 2 ==> forall|j: int|
                    0 <= j < raw@.len() ==> crate::model::all_id_blobs(
                        db_model(self.conn),
                    ).contains(#[trigger] raw@[j]@),
            decreases raw@.len() - i,
        {
            let id: SqlID = match SqlID::from_bytes(&raw[i]) {
                Err(e) => {
                    proof {
                        if db_model(self.conn).version == 2 {
                            assert(crate::model::all_id_blobs(db_model(self.conn)).contains(
                                raw@[i as int]@,
                            ));
                            assert(!crate::id::blob_decodes(raw@[i as int]@));
                        }
                    }
                    return Err(e);
                },
                Ok(x) => x,
            };
            proof {
                crate::id::lemma_be_bytes_be_val(raw@[i as int]@);
                assert(crate::id::blob_decodes(raw@[i as int]@));
            }
            let ghost pre_out = out@;
            out.push(id);
            proof {
                assert forall|j: int|
                    0 <= j < pre_out.len() + 1 implies crate::id::id_bytes(#[trigger] out@[j]@)
                    == raw@[j]@ && crate::id::blob_decodes(raw@[j]@) by {
                    if j < pre_out.len() {
                        assert(out@[j] == pre_out[j]);
                    } else {
                        assert(out@[j] == id);
                    }
                }
            }
            i += 1;
        }
        proof {
            if db_model(self.conn).version == 2 {
                assert forall|i: int|
                    0 <= i < out@.len() implies crate::model::all_id_blobs(
                    db_model(self.conn),
                ).contains(crate::id::id_bytes(#[trigger] out@[i]@)) by {
                    assert(crate::id::id_bytes(out@[i]@) == raw@[i]@);
                    assert(crate::model::all_id_blobs(db_model(self.conn)).contains(raw@[i]@));
                }
                assert forall|b: Seq<u8>| #[trigger]
                    crate::model::all_id_blobs(db_model(self.conn)).contains(b) implies exists|
                    i: int,
                |
                    0 <= i < out@.len() && crate::id::id_bytes(#[trigger] out@[i]@) == b by {
                    let i = choose|i: int| 0 <= i < raw@.len() && #[trigger] raw@[i]@ == b;
                    assert(crate::id::id_bytes(out@[i]@) == raw@[i]@);
                    assert(0 <= i < out@.len() && crate::id::id_bytes(out@[i]@) == b);
                }
                assert forall|i: int, j: int|
                    0 <= i < j < out@.len() implies #[trigger] out@[i]@ != #[trigger] out@[j]@ by {
                    assert(crate::id::id_bytes(out@[i]@) == raw@[i]@);
                    assert(crate::id::id_bytes(out@[j]@) == raw@[j]@);
                    assert(raw@[i]@ != raw@[j]@);
                }
                assert(crate::model::ids_cover(out@, db_model(self.conn)));
                assert forall|b: Seq<u8>| #[trigger]
                    crate::model::all_id_blobs(db_model(self.conn)).contains(
                        b,
                    ) implies crate::id::blob_decodes(b) by {
                    let i = choose|i: int| 0 <= i < raw@.len() && #[trigger] raw@[i]@ == b;
                    assert(crate::id::blob_decodes(raw@[i]@));
                }
            }
        }
        Ok(out)
    }

    /// Hands out a handle to the entity stored under `id`.  This performs
    /// no reads; every extraction through the handle re-reads the store.
    pub fn get(&self, id: SqlID) -> (r: StoredData)
        ensures
            r.id == id,
    {
        StoredData { id }
    }
}

/// The recursive write path, inside the caller's open transaction: upsert
/// the value row, then persist each link's key and target and append the
/// link row, in link order.
fn store_entity(c: &mut Conn, e: &Entity) -> (r: Result<(), Error>)
    requires
        entity_complete(e@),
    ensures
        db_saved(*final(c)) == db_saved(*old(c)),
        r is Ok && db_model(*old(c)).version == 2 ==> db_model(*final(c)) == entity_effect(
            db_model(*old(c)),
            e@,
        ),
    decreases *e,
{
    let ghost m0 = db_model(*c);
    let id: SqlID = match &e.id {
        Some(i) => *i,
        None => vstd::pervasive::unreached(),
    };
    let blob: Vec<u8> = id.to_bytes();
    let row = scalar_row(&e.value);
    match c.upsert_value_row(&blob, &row) {
        Err(m) => { return Err(Error::Sql(m)); },
        Ok(_) => {},
    }
    let ghost src = entity_blob(e@);
    let ghost up0 = upserted(m0, src, row_of(e@.value));
    proof {
        assert(e@.value == opt_scalar_v(e.value));
        assert(blob@ == src);
        assert(e@.links.subrange(0, 0) =~= Seq::<LinkV>::empty());
        assert(links_effect(up0, src, Seq::<LinkV>::empty()) == up0);
        if m0.version == 2 {
            assert(db_model(*c) == up0);
        }
    }
    let mut i: usize = 0;
    while i < e.links.len()
        invariant
            0 <= i <= e.links@.len(),
            entity_complete(e@),
            e@.links == links_v(e.links@),
            db_saved(*c) == db_saved(*old(c)),
            m0 == db_model(*old(c)),
            src == entity_blob(e@),
            blob@ == src,
            up0 == upserted(m0, src, row_of(e@.value)),
            m0.version == 2 ==> db_model(*c) == links_effect(up0, src, e@.links.subrange(0, i as int)),
        decreases e.links@.len() - i,
    {
        proof {
            lemma_links_v(e.links@);
            assert(decreases_to!(*e => e.links));
            assert(decreases_to!(e.links => e.links@[i as int]));
            assert(e@.links[i as int] == link_v(e.links@[i as int]));
            assert(link_complete(e@.links[i as int]));
            if m0.version == 2 {
                lemma_links_effect_frame(up0, src, e@.links.subrange(0, i as int));
            }
        }
        let l: &Link = &e.links[i];
        let ghost lv = e@.links[i as int];
        let ghost mpre = db_model(*c);
        let key_blob: Option<Vec<u8>> = match &l.key {
            Some(k) => {
                match store_entity(c, k) {
                    Err(err) => { return Err(err); },
                    Ok(_) => {},
                }
                let kid: SqlID = match &k.id {
                    Some(x) => *x,
                    None => vstd::pervasive::unreached(),
                };
                let kb: Vec<u8> = kid.to_bytes();
                proof {
                    assert(lv.key->0 == k@);
                    assert(kid@ == k@.id->0);
                    assert(kb@ == entity_blob(lv.key->0));
                }
                Some(kb)
            },
            None => None,
        };
        let ghost m1 = if lv.key is Some {
            entity_effect(mpre, lv.key->0)
        } else {
            mpre
        };
        proof {
            if m0.version == 2 {
                assert(db_model(*c) == m1);
                if lv.key is Some {
                    lemma_entity_effect_frame(mpre, lv.key->0);
                }
            }
        }
        match store_entity(c, &l.target) {
            Err(err) => { return Err(err); },
            Ok(_) => {},
        }
        let ghost m2 = entity_effect(m1, lv.target);
        proof {
            if m0.version == 2 {
                assert(db_model(*c) == m2);
                lemma_entity_effect_frame(m1, lv.target);
            }
        }
        let tid: SqlID = match &l.target.id {
            Some(x) => *x,
            None => vstd::pervasive::unreached(),
        };
        let tblob: Vec<u8> = tid.to_bytes();
        let res: Result<(), String> = match &key_blob {
            Some(kb) => c.insert_link_keyed(&blob, kb, &tblob),
            None => c.insert_link_unkeyed(&blob, &tblob),
        };
        match res {
            Err(m) => { return Err(Error::Sql(m)); },
            Ok(_) => {},
        }
        proof {
            assert(lv.target == l.target@);
            assert(tid@ == lv.target.id->0);
            assert(tblob@ == entity_blob(lv.target));
            assert(key_blob is Some <==> lv.key is Some);
            if m0.version == 2 {
                assert(db_model(*c) == crate::entity::appended(m2, link_row(src, lv)));
                assert(db_model(*c) == link_effect(mpre, src, lv));
                assert(e@.links.subrange(0, i as int + 1) =~= e@.links.subrange(0, i as int).push(
                    lv,
                ));
                lemma_links_effect_push(up0, src, e@.links.subrange(0, i as int), lv);
            }
        }
        i += 1;
    }
    proof {
        lemma_links_v(e.links@);
        assert(e@.links.len() == e.links@.len());
        assert(e@.links.subrange(0, e@.links.len() as int) =~= e@.links);
        if m0.version == 2 {
            assert(db_model(*c) == links_effect(up0, src, e@.links));
            assert(entity_effect(m0, e@) == links_effect(up0, src, e@.links));
        }
    }
    Ok(())
}

} // verus!
