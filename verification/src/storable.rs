//! A convenience trait for values that can be persisted into the store.

use vstd::prelude::*;

use crate::conn::{db_model, db_saved};
use crate::database::{Database, SCHEMA_VERSION};
use crate::entity::{entity_complete, entity_effect, identified, identify, Entity, EntityV};
use crate::error::Error;
use crate::storeddata::StoredData;

verus! {

/// Anything that can be persisted into the store, receiving a handle to
/// its stored form.  On success the store reflects exactly one store call
/// on some identified completion of the value: the value itself with
/// fresh random identifiers filled in wherever it had none.
pub trait Storable: View<V = EntityV> {
    /// Persists the value, assigning fresh identifiers to any anonymous
    /// entities in its graph.
    fn store(&self, db: &mut Database) -> (r: Result<StoredData, Error>)
        requires
            db_saved(old(db).conn) is None,
        ensures
            db_saved(final(db).conn) is None,
            r is Err ==> db_model(final(db).conn) == db_model(old(db).conn),
            r is Ok ==> exists|ev: EntityV|
                #[trigger] identified(self@, ev) && entity_complete(ev) && r->Ok_0.id@ == ev.id->0
                    && (db_model(old(db).conn).version == SCHEMA_VERSION as int ==> db_model(
                    final(db).conn,
                ) == entity_effect(db_model(old(db).conn), ev)),
    ;

    /// Consumes the value and persists it.
    fn into_stored(self, db: &mut Database) -> (r: Result<StoredData, Error>) where Self: Sized
        requires
            db_saved(old(db).conn) is None,
        ensures
            db_saved(final(db).conn) is None,
            r is Err ==> db_model(final(db).conn) == db_model(old(db).conn),
            r is Ok ==> exists|ev: EntityV|
                #[trigger] identified(self@, ev) && entity_complete(ev) && r->Ok_0.id@ == ev.id->0
                    && (db_model(old(db).conn).version == SCHEMA_VERSION as int ==> db_model(
                    final(db).conn,
                ) == entity_effect(db_model(old(db).conn), ev)),
    ;
}

impl Storable for Entity {
    fn store(&self, db: &mut Database) -> (r: Result<StoredData, Error>) {
        let e = identify(self);
        let r = db.store(&e);
        proof {
            if r is Ok {
                assert(identified(self@, e@) && entity_complete(e@) && r->Ok_0.id@ == e@.id->0 && (
                db_model(old(db).conn).version == SCHEMA_VERSION as int ==> db_model(db.conn)
                    == entity_effect(db_model(old(db).conn), e@)));
            }
        }
        r
    }

    fn into_stored(self, db: &mut Database) -> (r: Result<StoredData, Error>) {
        let e = identify(&self);
        let r = db.store(&e);
        proof {
            if r is Ok {
                assert(identified(self@, e@) && entity_complete(e@) && r->Ok_0.id@ == e@.id->0 && (
                db_model(old(db).conn).version == SCHEMA_VERSION as int ==> db_model(db.conn)
                    == entity_effect(db_model(old(db).conn), e@)));
            }
        }
        r
    }
}

} // verus!
