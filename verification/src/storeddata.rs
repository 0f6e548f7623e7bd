//! Handles to stored entities and the extraction protocol's read path.
//!
//! A handle is a pure reference: just the identifier.  It caches nothing
//! and is never closed; every extraction re-reads from the store.

use vstd::prelude::*;

use crate::conn::db_model;
use crate::database::Database;
use crate::error::Error;
use crate::id::{id_bytes, SqlID};
use crate::model::{link_pair_matches, links_from};
use crate::value::{requested, scalars_v, project_row, Scalar, TypeSet};

verus! {

/// A handle to a stored entity: a pure `(engine, identifier)` reference,
/// cheap to copy, carrying no cached data.
#[derive(Debug, Clone, Copy, PartialEq, Eq, Structural)]
pub struct StoredData {
    pub id: SqlID,
}

impl StoredData {
    /// The identifier of the stored entity this handle refers to.
    pub fn id(&self) -> (r: SqlID)
        ensures
            r == self.id,
    {
        self.id
    }

    /// The identifier, in the optional form the entity model uses.
    pub fn get_id(&self) -> (r: Option<SqlID>)
        ensures
            r == Some(self.id),
    {
        Some(self.id)
    }

    /// The scalar extraction side of the protocol: issues one minimal
    /// projection query over the handle's value row — only the requested
    /// columns — and hands back exactly the values of the kinds in `want`,
    /// in the fixed kind order, never a value of a kind the consumer did
    /// not declare.  A cell that does not decode as its column's kind is
    /// skipped without aborting the extraction.  If `want` is empty, no
    /// value query is issued at all.
    pub fn query_primitives(&self, db: &Database, want: &TypeSet) -> (r: Result<Vec<Scalar>, Error>)
        ensures
            r is Ok && db_model(db.conn).version == 2 ==> scalars_v(r->Ok_0@) == (
            if db_model(db.conn).values.contains_key(id_bytes(self.id@)) {
                requested(db_model(db.conn).values[id_bytes(self.id@)], *want)
            } else {
                Seq::empty()
            }),
    {
        if want.is_empty() {
            let r: Vec<Scalar> = Vec::new();
            proof {
                assert(scalars_v(r@) =~= Seq::<crate::value::ScalarV>::empty());
                crate::value::lemma_requested_empty(*want);
            }
            return Ok(r);
        }
        let sql = crate::value::projection_query(want);
        let blob = self.id.to_bytes();
        match db.conn.read_value_projection(sql.as_str(), blob.as_slice(), want) {
            Err(m) => Err(Error::Sql(m)),
            Ok(None) => {
                let r: Vec<Scalar> = Vec::new();
                proof {
                    assert(scalars_v(r@) =~= Seq::<crate::value::ScalarV>::empty());
                }
                Ok(r)
            },
            Ok(Some(t)) => {
                let row = crate::value::row_from_raw(t);
                proof {
                    if db_model(db.conn).version == 2 {
                        crate::value::lemma_requested_masked(
                            db_model(db.conn).values[id_bytes(self.id@)],
                            *want,
                        );
                    }
                }
                Ok(project_row(&row, want))
            },
        }
    }

    /// The link extraction side of the protocol: reads every link row whose
    /// source is this handle's entity, in insertion order, and resolves key
    /// and target into handles.  Rows whose identifier blobs do not decode
    /// are rejected with `InvalidID`.
    pub fn query_links(&self, db: &Database) -> (r: Result<Vec<(Option<StoredData>, StoredData)>, Error>)
        ensures
            r is Ok && db_model(db.conn).version == 2 ==> links_resolved(
                r->Ok_0@,
                links_from(db_model(db.conn).links, id_bytes(self.id@)),
            ),
    {
        let blob = self.id.to_bytes();
        let raw = match db.conn.read_links_from(&blob) {
            Err(m) => { return Err(Error::Sql(m)); },
            Ok(v) => v,
        };
        let ghost expect = links_from(db_model(db.conn).links, id_bytes(self.id@));
        let mut out: Vec<(Option<StoredData>, StoredData)> = Vec::new();
        let mut i: usize = 0;
        while i < raw.len()
            invariant
                0 <= i <= raw@.len(),
                out@.len() == i,
                db_model(db.conn).version == 2 ==> raw@.len() == expect.len() && (forall|j: int|
                    0 <= j < raw@.len() ==> link_pair_matches(#[trigger] raw@[j], expect[j]))
                    && expect == links_from(db_model(db.conn).links, id_bytes(self.id@)),
                forall|j: int|
                    0 <= j < i ==> pair_resolved(#[trigger] raw@[j], out@[j]),
            decreases raw@.len() - i,
        {
            let key: Option<StoredData> = match &raw[i].0 {
                Some(kb) => match SqlID::from_bytes(kb) {
                    Ok(kid) => {
                        proof {
                            crate::id::lemma_be_bytes_be_val(kb@);
                        }
                        Some(StoredData { id: kid })
                    },
                    Err(e) => { return Err(e); },
                },
                None => None,
            };
            let target: StoredData = match SqlID::from_bytes(&raw[i].1) {
                Ok(tid) => {
                    proof {
                        crate::id::lemma_be_bytes_be_val(raw@[i as int].1@);
                    }
                    StoredData { id: tid }
                },
                Err(e) => { return Err(e); },
            };
            out.push((key, target));
            i += 1;
        }
        proof {
            if db_model(db.conn).version == 2 {
                assert forall|j: int|
                    0 <= j < expect.len() implies (#[trigger] out@[j].0 is Some <==> expect[j].0
                    is Some) && (out@[j].0 is Some ==> id_bytes(out@[j].0->0.id@)
                    == expect[j].0->0) && id_bytes(out@[j].1.id@) == expect[j].1 by {
                    assert(pair_resolved(raw@[j], out@[j]));
                    assert(link_pair_matches(raw@[j], expect[j]));
                }
            }
        }
        Ok(out)
    }

    /// One extraction call covering both sides of the protocol: the
    /// requested scalar kinds and the outgoing links.
    pub fn query(&self, db: &Database, want: &TypeSet) -> (r: Result<
        (Vec<Scalar>, Vec<(Option<StoredData>, StoredData)>),
        Error,
    >)
        ensures
            r is Ok && db_model(db.conn).version == 2 ==> scalars_v(r->Ok_0.0@) == (
            if db_model(db.conn).values.contains_key(id_bytes(self.id@)) {
                requested(db_model(db.conn).values[id_bytes(self.id@)], *want)
            } else {
                Seq::empty()
            }) && links_resolved(
                r->Ok_0.1@,
                links_from(db_model(db.conn).links, id_bytes(self.id@)),
            ),
    {
        let values = match self.query_primitives(db, want) {
            Ok(v) => v,
            Err(e) => { return Err(e); },
        };
        let links = match self.query_links(db) {
            Ok(l) => l,
            Err(e) => { return Err(e); },
        };
        Ok((values, links))
    }
}

/// How one raw `(key, target)` blob pair resolves into a pair of handles:
/// the decoded identifiers re-encode to exactly the stored blobs.
pub open spec fn pair_resolved(p: (Option<Vec<u8>>, Vec<u8>), h: (
    Option<StoredData>,
    StoredData,
)) -> bool {
    &&& (p.0 is Some <==> h.0 is Some)
    &&& (p.0 is Some ==> id_bytes(h.0->0.id@) == p.0->0@)
    &&& id_bytes(h.1.id@) == p.1@
}

/// The resolved handle list corresponds row by row to the `(key, target)`
/// pairs of the link query.
pub open spec fn links_resolved(h: Seq<(Option<StoredData>, StoredData)>, q: Seq<
    (Option<Seq<u8>>, Seq<u8>),
>) -> bool {
    &&& h.len() == q.len()
    &&& forall|i: int|
        0 <= i < q.len() ==> (#[trigger] h[i].0 is Some <==> q[i].0 is Some) && (h[i].0 is Some
            ==> id_bytes(h[i].0->0.id@) == q[i].0->0) && id_bytes(h[i].1.id@) == q[i].1
}

} // verus!
