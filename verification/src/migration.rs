//! The schema migration engine: a forward-only, step-at-a-time state
//! machine over the store's recorded version.
//!
//! Step 1 creates the version-1 schema, which keyed rows by decimal
//! identifier text.  Step 2 re-encodes every stored identifier into its
//! fixed-width binary form: it adds blob columns, parses the decimal text
//! of every value row and every link endpoint, records the re-encoded
//! blobs, and rebuilds both tables — all inside one transaction, with no
//! data loss (`reencoded` states exactly what survives).  Each step commits
//! on its own, so any prefix of steps is a safe stopping point.

use vstd::prelude::*;

use crate::conn::{db_model, db_saved, Conn};
use crate::database::{Database, SCHEMA_VERSION};
use crate::error::Error;
use crate::id::{dec_val, id_bytes, is_canonical_dec, SqlID};
use crate::model::{LinkRowV, StoreModel, V1LinkRowV};

verus! {

/// Whether every identifier in a version-1 link row is canonical decimal
/// text.
pub open spec fn link_row_parses(t: V1LinkRowV) -> bool {
    &&& is_canonical_dec(t.0)
    &&& (t.1 is Some ==> is_canonical_dec(t.1->0))
    &&& is_canonical_dec(t.2)
}

/// Whether every identifier the version-1 store holds — every value row's
/// identifier and every link endpoint — is canonical decimal text, so the
/// re-encoding step can parse them all.
pub open spec fn v1_ids_canonical(m: StoreModel) -> bool {
    &&& forall|id: Seq<char>| #[trigger] m.v1_values.contains_key(id) ==> is_canonical_dec(id)
    &&& forall|i: int| 0 <= i < m.v1_links.len() ==> link_row_parses(#[trigger] m.v1_links[i])
}

/// The binary re-encoding of a version-1 link row.
pub open spec fn link_row_reencoded(t: V1LinkRowV) -> LinkRowV {
    (
        id_bytes(dec_val(t.0) as u128),
        match t.1 {
            Option::Some(k) => Option::Some(id_bytes(dec_val(k) as u128)),
            Option::None => Option::None,
        },
        id_bytes(dec_val(t.2) as u128),
    )
}

/// Zero data loss across the re-encoding step: every version-1 value row
/// survives under the binary encoding of its decimal identifier with its
/// row contents intact and nothing else appears, and every link row
/// survives in order with each of its endpoints re-encoded.
pub open spec fn reencoded(m: StoreModel, f: StoreModel) -> bool {
    &&& f.version == 2
    &&& forall|id: Seq<char>| #[trigger]
        m.v1_values.contains_key(id) ==> is_canonical_dec(id) && f.values.contains_key(
            id_bytes(dec_val(id) as u128),
        ) && f.values[id_bytes(dec_val(id) as u128)] == m.v1_values[id]
    &&& forall|k: Seq<u8>| #[trigger]
        f.values.contains_key(k) ==> exists|id: Seq<char>|
            m.v1_values.contains_key(id) && id_bytes(dec_val(id) as u128) == k
    &&& f.links.len() == m.v1_links.len()
    &&& forall|i: int|
        0 <= i < m.v1_links.len() ==> link_row_parses(#[trigger] m.v1_links[i]) && f.links[i]
            == link_row_reencoded(m.v1_links[i])
}

/// The model of a store that has just completed step 1: version-1 schema,
/// entirely empty.
pub open spec fn v1_fresh() -> StoreModel {
    StoreModel { version: 1, ..StoreModel::fresh() }
}

/// Where a run of migration steps can leave a store that began at `m`:
/// untouched, or after any prefix of completed steps.
pub open spec fn migration_reach(m: StoreModel, f: StoreModel) -> bool {
    ||| f == m
    ||| m.version == 0 && f == v1_fresh()
    ||| m.version == 0 && reencoded(v1_fresh(), f)
    ||| m.version == 1 && reencoded(m, f)
}

/// The migration state machine: tracks the version the store was last
/// observed at and applies one step at a time.
#[derive(Debug, Clone, Copy, PartialEq, Eq, Structural)]
pub struct Migrations {
    /// The version the store is believed to be at; `run_one` advances it in
    /// step with the store.
    pub version: i32,
}

impl Migrations {
    /// Starts a migration run from the store's recorded version; a store
    /// whose version cannot be read (or is negative) is treated as
    /// uninitialized.
    pub fn new(db: &Database) -> (r: Migrations)
        ensures
            0 <= r.version,
            r.version as int == db_model(db.conn).version || r.version == 0,
    {
        match db.schema_version() {
            Ok(v) => if v >= 0 {
                Migrations { version: v }
            } else {
                Migrations { version: 0 }
            },
            Err(_) => Migrations { version: 0 },
        }
    }

    /// Applies exactly the next pending step inside its own transaction,
    /// advancing the recorded version by one; returns `None` once the
    /// target version is reached.  A failed step rolls back and changes
    /// nothing.
    pub fn run_one(&mut self, db: &mut Database) -> (r: Option<Result<i32, Error>>)
        requires
            0 <= old(self).version,
            db_saved(old(db).conn) is None,
        ensures
            db_saved(final(db).conn) is None,
            r is None <==> old(self).version >= SCHEMA_VERSION,
            r is None ==> *final(self) == *old(self) && db_model(final(db).conn) == db_model(
                old(db).conn,
            ),
            r is Some && r->0 is Ok ==> final(self).version == old(self).version + 1
                && r->0->Ok_0 == final(self).version,
            r is Some && r->0 is Err ==> *final(self) == *old(self) && db_model(final(db).conn)
                == db_model(old(db).conn),
            r is Some && r->0 is Err ==> r->0->Err_0 is Sql || r->0->Err_0 is InvalidID,
            r is Some && r->0 is Err && old(self).version == 0 ==> r->0->Err_0 is Sql,
            old(self).version as int == db_model(old(db).conn).version ==> {
                &&& (r is Some && r->0 is Ok && old(self).version == 0 ==> db_model(
                    final(db).conn,
                ) == v1_fresh())
                &&& (r is Some && r->0 is Ok && old(self).version == 1 ==> reencoded(
                    db_model(old(db).conn),
                    db_model(final(db).conn),
                ) && v1_ids_canonical(db_model(old(db).conn)))
                &&& (r is Some && r->0 is Err && r->0->Err_0 is InvalidID && old(self).version == 1
                    ==> !v1_ids_canonical(db_model(old(db).conn)))
            },
    {
        if self.version >= SCHEMA_VERSION {
            return None;
        }
        match db.conn.begin() {
            Err(m) => { return Some(Err(Error::Sql(m))); },
            Ok(_) => {},
        }
        let step: Result<(), Error> = if self.version == 0 {
            match db.conn.exec_migration_v1() {
                Err(m) => Err(Error::Sql(m)),
                Ok(_) => Ok(()),
            }
        } else {
            migrate_step_2(&mut db.conn)
        };
        match step {
            Err(e) => {
                db.conn.rollback();
                return Some(Err(e));
            },
            Ok(_) => {},
        }
        match db.conn.commit() {
            Err(m) => {
                if db.conn.in_transaction() {
                    db.conn.rollback();
                }
                return Some(Err(Error::Sql(m)));
            },
            Ok(_) => {},
        }
        self.version = self.version + 1;
        Some(Ok(self.version))
    }

    /// Drains all pending steps, surfacing the first failure.  Since every
    /// completed step has committed, a failed run leaves the store at a
    /// consistent intermediate version from which a later run can resume.
    pub fn run_all(self, db: &mut Database) -> (r: Result<(), Error>)
        requires
            0 <= self.version,
            db_saved(old(db).conn) is None,
        ensures
            db_saved(final(db).conn) is None,
            r is Err ==> r->Err_0 is Sql || r->Err_0 is InvalidID,
            self.version as int == db_model(old(db).conn).version ==> migration_reach(
                db_model(old(db).conn),
                db_model(final(db).conn),
            ) && (r is Ok ==> db_model(final(db).conn).version >= SCHEMA_VERSION as int) && (r
                is Err && r->Err_0 is InvalidID ==> self.version == 1 && !v1_ids_canonical(
                db_model(old(db).conn),
            )) && (r is Ok && self.version == 1 ==> v1_ids_canonical(db_model(old(db).conn))),
    {
        let ghost m0 = db_model(old(db).conn);
        let ghost v0 = self.version as int;
        let mut cur = self;
        loop
            invariant
                0 <= cur.version,
                db_saved(db.conn) is None,
                m0 == db_model(old(db).conn),
                v0 == self.version as int,
                v0 == m0.version ==> {
                    &&& migration_reach(m0, db_model(db.conn))
                    &&& cur.version as int == db_model(db.conn).version || (v0 >= SCHEMA_VERSION
                        as int && cur.version as int == v0)
                    &&& (v0 == 1 && db_model(db.conn).version == 2 ==> v1_ids_canonical(m0))
                },
            decreases (if cur.version >= SCHEMA_VERSION {
                0int
            } else {
                SCHEMA_VERSION as int - cur.version as int
            }),
        {
            let ghost pre = db_model(db.conn);
            let ghost vpre: int = cur.version as int;
            match cur.run_one(db) {
                None => { return Ok(()); },
                Some(Err(e)) => {
                    proof {
                        if v0 == m0.version && e is InvalidID {
                            // the failing step can only be the re-encoding
                            // step, and a fresh step-1 store parses trivially
                            assert(vpre == 1);
                            assert(v1_ids_canonical(v1_fresh()));
                            assert(pre == m0);
                            assert(v0 == 1 && !v1_ids_canonical(m0));
                        }
                    }
                    return Err(e);
                },
                Some(Ok(_)) => {},
            }
        }
    }
}

/// Starts a migration run over the store, from its recorded version.
pub fn migrate(db: &Database) -> (r: Migrations)
    ensures
        0 <= r.version,
        r.version as int == db_model(db.conn).version || r.version == 0,
{
    Migrations::new(db)
}

/// The re-encoding step: parse the decimal identifier text of every value
/// row and every link endpoint, record the binary encodings, and rebuild
/// both tables, inside the caller's open transaction.
fn migrate_step_2(c: &mut Conn) -> (r: Result<(), Error>)
    ensures
        db_saved(*final(c)) == db_saved(*old(c)),
        r is Ok && db_model(*old(c)).version == 1 ==> reencoded(
            db_model(*old(c)),
            db_model(*final(c)),
        ) && v1_ids_canonical(db_model(*old(c))),
        r is Err ==> r->Err_0 is InvalidID || r->Err_0 is Sql,
        r is Err && r->Err_0 is InvalidID && db_model(*old(c)).version == 1 ==> !v1_ids_canonical(
            db_model(*old(c)),
        ),
{
    let ghost m0 = db_model(*c);
    match c.exec_migration_v2_prepare() {
        Err(m) => { return Err(Error::Sql(m)); },
        Ok(_) => {},
    }
    let ghost m1 = StoreModel { v1_value_uuids: Map::empty(), v1_link_uuids: Map::empty(), ..m0 };
    let ids: Vec<String> = match c.select_v1_value_ids() {
        Err(m) => { return Err(Error::Sql(m)); },
        Ok(v) => v,
    };
    let mut i: usize = 0;
    while i < ids.len()
        invariant
            0 <= i <= ids@.len(),
            db_saved(*c) == db_saved(*old(c)),
            m0 == db_model(*old(c)),
            m1 == (StoreModel { v1_value_uuids: Map::empty(), v1_link_uuids: Map::empty(), ..m0 }),
            m0.version == 1 ==> {
                &&& db_model(*c) == (StoreModel {
                    v1_value_uuids: db_model(*c).v1_value_uuids,
                    ..m1
                })
                &&& (forall|id: Seq<char>| #[trigger]
                    db_model(*c).v1_value_uuids.contains_key(id) ==> m0.v1_values.contains_key(id)
                        && is_canonical_dec(id) && db_model(*c).v1_value_uuids[id] == id_bytes(
                        dec_val(id) as u128,
                    ))
                &&& (forall|j: int|
                    0 <= j < i ==> db_model(*c).v1_value_uuids.contains_key(
                        #[trigger] ids@[j]@,
                    ))
                &&& (forall|j: int|
                    0 <= j < ids@.len() ==> m0.v1_values.contains_key(#[trigger] ids@[j]@))
                &&& (forall|id: Seq<char>| #[trigger]
                    m0.v1_values.contains_key(id) ==> exists|j: int|
                        0 <= j < ids@.len() && #[trigger] ids@[j]@ == id)
            },
        decreases ids@.len() - i,
    {
        let sid: SqlID = match SqlID::parse(ids[i].as_str()) {
            Err(e) => {
                proof {
                    if m0.version == 1 {
                        assert(m0.v1_values.contains_key(ids@[i as int]@));
                        assert(!v1_ids_canonical(m0));
                    }
                }
                return Err(e);
            },
            Ok(x) => x,
        };
        let blob: Vec<u8> = sid.to_bytes();
        match c.set_v1_value_uuid(ids[i].as_str(), &blob) {
            Err(m) => { return Err(Error::Sql(m)); },
            Ok(_) => {},
        }
        proof {
            assert(sid@ as int == dec_val(ids@[i as int]@));
            assert(blob@ == id_bytes(dec_val(ids@[i as int]@) as u128));
        }
        i += 1;
    }
    proof {
        if m0.version == 1 {
            assert forall|id: Seq<char>| #[trigger]
                m0.v1_values.contains_key(id) implies db_model(*c).v1_value_uuids.contains_key(
                id,
            ) by {
                let jj = choose|jj: int| 0 <= jj < ids@.len() && #[trigger] ids@[jj]@ == id;
                assert(db_model(*c).v1_value_uuids.contains_key(ids@[jj]@));
            }
        }
    }
    let rows: Vec<(String, Option<String>, String)> = match c.select_v1_link_rows() {
        Err(m) => { return Err(Error::Sql(m)); },
        Ok(v) => v,
    };
    let ghost mv = db_model(*c);
    let mut j: usize = 0;
    while j < rows.len()
        invariant
            0 <= j <= rows@.len(),
            db_saved(*c) == db_saved(*old(c)),
            m0 == db_model(*old(c)),
            m1 == (StoreModel { v1_value_uuids: Map::empty(), v1_link_uuids: Map::empty(), ..m0 }),
            m0.version == 1 ==> {
                &&& mv == (StoreModel { v1_value_uuids: mv.v1_value_uuids, ..m1 })
                &&& db_model(*c) == (StoreModel { v1_link_uuids: db_model(*c).v1_link_uuids, ..mv })
                &&& (forall|id: Seq<char>| #[trigger]
                    mv.v1_value_uuids.contains_key(id) ==> m0.v1_values.contains_key(id)
                        && is_canonical_dec(id) && mv.v1_value_uuids[id] == id_bytes(
                        dec_val(id) as u128,
                    ))
                &&& (forall|id: Seq<char>| #[trigger]
                    m0.v1_values.contains_key(id) ==> mv.v1_value_uuids.contains_key(id))
                &&& (forall|t: V1LinkRowV| #[trigger]
                    db_model(*c).v1_link_uuids.contains_key(t) ==> m0.v1_links.contains(t)
                        && link_row_parses(t) && db_model(*c).v1_link_uuids[t]
                        == link_row_reencoded(t))
                &&& rows@.len() == m0.v1_links.len()
                &&& (forall|q: int|
                    0 <= q < rows@.len() ==> crate::model::v1_link_pair_matches(
                        #[trigger] rows@[q],
                        m0.v1_links[q],
                    ))
                &&& (forall|q: int|
                    0 <= q < j ==> db_model(*c).v1_link_uuids.contains_key(
                        #[trigger] m0.v1_links[q],
                    ))
            },
        decreases rows@.len() - j,
    {
        let ghost t = m0.v1_links[j as int];
        let sid: SqlID = match SqlID::parse(rows[j].0.as_str()) {
            Err(e) => {
                proof {
                    if m0.version == 1 {
                        assert(rows@[j as int].0@ == t.0);
                        assert(!link_row_parses(m0.v1_links[j as int]));
                        assert(!v1_ids_canonical(m0));
                    }
                }
                return Err(e);
            },
            Ok(x) => x,
        };
        let sb: Vec<u8> = sid.to_bytes();
        let tid: SqlID = match SqlID::parse(rows[j].2.as_str()) {
            Err(e) => {
                proof {
                    if m0.version == 1 {
                        assert(rows@[j as int].2@ == t.2);
                        assert(!link_row_parses(m0.v1_links[j as int]));
                        assert(!v1_ids_canonical(m0));
                    }
                }
                return Err(e);
            },
            Ok(x) => x,
        };
        let tb: Vec<u8> = tid.to_bytes();
        let res: Result<(), String> = match &rows[j].1 {
            Some(ks) => {
                let kid: SqlID = match SqlID::parse(ks.as_str()) {
                    Err(e) => {
                        proof {
                            if m0.version == 1 {
                                assert(rows@[j as int].1->0@ == t.1->0);
                                assert(!link_row_parses(m0.v1_links[j as int]));
                                assert(!v1_ids_canonical(m0));
                            }
                        }
                        return Err(e);
                    },
                    Ok(x) => x,
                };
                let kb: Vec<u8> = kid.to_bytes();
                c.set_v1_link_uuids_keyed(
                    rows[j].0.as_str(),
                    ks.as_str(),
                    rows[j].2.as_str(),
                    &sb,
                    &kb,
                    &tb,
                )
            },
            None => c.set_v1_link_uuids_unkeyed(rows[j].0.as_str(), rows[j].2.as_str(), &sb, &tb),
        };
        match res {
            Err(m) => { return Err(Error::Sql(m)); },
            Ok(_) => {},
        }
        proof {
            if m0.version == 1 {
                assert(crate::model::v1_link_pair_matches(rows@[j as int], t));
                assert(t == (rows@[j as int].0@, match rows@[j as int].1 {
                    Option::Some(k) => Option::Some(k@),
                    Option::None => Option::None,
                }, rows@[j as int].2@));
                assert(m0.v1_links.contains(t)) by {
                    assert(m0.v1_links[j as int] == t);
                }
                assert(link_row_parses(t));
                assert(db_model(*c).v1_link_uuids.contains_key(t));
                assert(db_model(*c).v1_link_uuids[t] == link_row_reencoded(t));
            }
        }
        j += 1;
    }
    let ghost mpre = db_model(*c);
    match c.exec_migration_v2_finish() {
        Err(m) => { return Err(Error::Sql(m)); },
        Ok(_) => {},
    }
    proof {
        if m0.version == 1 {
            let f = db_model(*c);
            assert(crate::model::store_migrated(mpre, f));
            assert(mpre.v1_values == m0.v1_values);
            assert(mpre.v1_links == m0.v1_links);
            assert forall|id: Seq<char>| #[trigger]
                m0.v1_values.contains_key(id) implies is_canonical_dec(id)
                && f.values.contains_key(id_bytes(dec_val(id) as u128)) && f.values[id_bytes(
                dec_val(id) as u128,
            )] == m0.v1_values[id] by {
                assert(mpre.v1_values.contains_key(id));
                assert(mpre.v1_value_uuids.contains_key(id));
                assert(mpre.v1_value_uuids[id] == id_bytes(dec_val(id) as u128));
                assert(f.values.contains_key(mpre.v1_value_uuids[id]));
                assert(f.values[mpre.v1_value_uuids[id]] == mpre.v1_values[id]);
            }
            assert forall|k: Seq<u8>| #[trigger] f.values.contains_key(k) implies exists|
                id: Seq<char>,
            |
                m0.v1_values.contains_key(id) && id_bytes(dec_val(id) as u128) == k by {
                let id = choose|id: Seq<char>|
                    mpre.v1_values.contains_key(id) && #[trigger] mpre.v1_value_uuids[id] == k;
                assert(m0.v1_values.contains_key(id));
                assert(mpre.v1_value_uuids[id] == id_bytes(dec_val(id) as u128));
                assert(id_bytes(dec_val(id) as u128) == k);
            }
            assert forall|q: int| 0 <= q < m0.v1_links.len() implies link_row_parses(
                #[trigger] m0.v1_links[q],
            ) && f.links[q] == link_row_reencoded(m0.v1_links[q]) by {
                assert(mpre.v1_link_uuids.contains_key(m0.v1_links[q]));
                assert(mpre.v1_link_uuids[m0.v1_links[q]] == link_row_reencoded(m0.v1_links[q]));
                assert(f.links[q] == mpre.v1_link_uuids[mpre.v1_links[q]]);
            }
            assert(reencoded(m0, f));
            assert forall|id: Seq<char>| #[trigger]
                m0.v1_values.contains_key(id) implies is_canonical_dec(id) by {
                assert(mpre.v1_value_uuids.contains_key(id));
            }
            assert forall|q: int| 0 <= q < m0.v1_links.len() implies link_row_parses(
                #[trigger] m0.v1_links[q],
            ) by {
                assert(mpre.v1_link_uuids.contains_key(m0.v1_links[q]));
            }
            assert(v1_ids_canonical(m0));
        }
    }
    Ok(())
}

} // verus!
