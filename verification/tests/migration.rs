//! Migration scenarios: draining all steps, stepping one at a time, and
//! zero data loss across the identifier re-encoding step.

use datalink_sqlite::database::{Database, SCHEMA_VERSION};
use datalink_sqlite::id::SqlID;
use datalink_sqlite::migration::migrate;
use datalink_sqlite::value::{Scalar, TypeSet};

#[test]
fn all() {
    let mut db = Database::open_in_memory().unwrap();
    let migrations = migrate(&db);
    migrations.run_all(&mut db).unwrap();

    assert_eq!(db.schema_version().unwrap(), SCHEMA_VERSION);
}

#[test]
fn step_by_step() {
    let mut db = Database::open_in_memory().unwrap();
    let mut migrations = migrate(&db);

    for v in 0..SCHEMA_VERSION {
        let res = migrations.run_one(&mut db).unwrap();
        assert_eq!(res.unwrap(), v + 1);
        assert_eq!(db.schema_version().unwrap(), v + 1);
    }

    assert!(migrations.run_one(&mut db).is_none());

    assert_eq!(db.schema_version().unwrap(), SCHEMA_VERSION);
}

#[test]
fn no_data_loss() {
    let mut db = Database::open_in_memory().unwrap();
    let mut migrations = migrate(&db);

    // Migrate only to version 1
    let v = migrations.run_one(&mut db).unwrap().unwrap();
    assert_eq!(v, 1);

    // Populate the pre-migration store: three value rows, one keyed link
    // and the same link without a key.
    db.seed_v1_value("1", &None).unwrap();
    db.seed_v1_value("2", &Some(Scalar::Bool(true))).unwrap();
    db.seed_v1_value("3", &Some(Scalar::Text("key".to_string()))).unwrap();
    db.seed_v1_link("1", Some("3"), "2").unwrap();
    db.seed_v1_link("1", None, "2").unwrap();

    // Migrate to the current version
    migrations.run_all(&mut db).unwrap();

    let data = db.get(SqlID::new(1).unwrap());
    assert_eq!(data.get_id(), Some(SqlID::new(1).unwrap()));

    let links = data.query_links(&db).unwrap();
    assert_eq!(links.len(), 2);

    let items: Vec<_> = links.iter().filter(|(k, _)| k.is_some()).collect();
    assert_eq!(items.len(), 1);
    let key = items[0].0.unwrap();
    assert_eq!(key.get_id(), Some(SqlID::new(3).unwrap()));
    assert_eq!(
        key.query_primitives(&db, &TypeSet::all()).unwrap(),
        vec![Scalar::Text("key".to_string())]
    );
    assert_eq!(items[0].1.get_id(), Some(SqlID::new(2).unwrap()));
    assert_eq!(
        items[0].1.query_primitives(&db, &TypeSet::all()).unwrap(),
        vec![Scalar::Bool(true)]
    );

    let list: Vec<_> = links.iter().filter(|(k, _)| k.is_none()).collect();
    assert_eq!(list.len(), 1);
    assert_eq!(list[0].1.get_id(), Some(SqlID::new(2).unwrap()));
    assert_eq!(
        list[0].1.query_primitives(&db, &TypeSet::all()).unwrap(),
        vec![Scalar::Bool(true)]
    );
}

#[test]
fn migration_rejects_bad_identifier_text() {
    let mut db = Database::open_in_memory().unwrap();
    let mut migrations = migrate(&db);
    migrations.run_one(&mut db).unwrap().unwrap();

    db.seed_v1_value("not-a-number", &Some(Scalar::Bool(true))).unwrap();

    let err = migrations.run_one(&mut db).unwrap().unwrap_err();
    assert!(matches!(err, datalink_sqlite::error::Error::InvalidID));
    // the failed step rolled back: still at version 1
    assert_eq!(db.schema_version().unwrap(), 1);
}

#[test]
fn init_is_idempotent() {
    let mut db = Database::open_in_memory().unwrap();
    db.init().unwrap();
    assert_eq!(db.schema_version().unwrap(), SCHEMA_VERSION);
    db.init().unwrap();
    assert_eq!(db.schema_version().unwrap(), SCHEMA_VERSION);
}
