//! Round-trip scenarios through a real in-memory store: scalar storage,
//! link storage, idempotence of value rows and append-only link rows.

use datalink_sqlite::database::Database;
use datalink_sqlite::entity::{identify, Entity, Link};
use datalink_sqlite::id::SqlID;
use datalink_sqlite::storable::Storable;
use datalink_sqlite::value::{Scalar, TypeSet};

fn test_db() -> Database {
    let mut db = Database::open_in_memory().unwrap();
    db.init().unwrap();
    db
}

fn value_entity(v: Scalar) -> Entity {
    Entity { id: None, value: Some(v), links: vec![] }
}

#[test]
fn in_out_bool() {
    let mut db = test_db();

    let data = identify(&value_entity(Scalar::Bool(true)));
    let stored = db.store(&data).unwrap();

    let vals = stored.query_primitives(&db, &TypeSet::all()).unwrap();
    assert_eq!(vals, vec![Scalar::Bool(true)]);
}

#[test]
fn in_out_vec() {
    let mut db = test_db();

    let data = identify(&Entity {
        id: None,
        value: None,
        links: vec![
            Link { key: None, target: value_entity(Scalar::I32(1)) },
            Link { key: None, target: value_entity(Scalar::I32(2)) },
            Link { key: None, target: value_entity(Scalar::I32(3)) },
        ],
    });
    let stored = db.store(&data).unwrap();

    let list = stored.query_links(&db).unwrap();
    assert_eq!(list.len(), 3);

    // the targets carry the original scalar values, in some consistent order
    let mut seen: Vec<i32> = Vec::new();
    for (key, target) in &list {
        assert!(key.is_none());
        let vals = target.query_primitives(&db, &TypeSet::all()).unwrap();
        assert_eq!(vals.len(), 1);
        match &vals[0] {
            Scalar::I32(x) => seen.push(*x),
            other => panic!("unexpected scalar {:?}", other),
        }
    }
    seen.sort();
    assert_eq!(seen, vec![1, 2, 3]);
}

#[test]
fn insert_unique() {
    let mut db = test_db();

    let data = identify(&value_entity(Scalar::Bool(true)));

    db.store(&data).unwrap();
    let stored = db.store(&data).unwrap();

    let vals = stored.query_primitives(&db, &TypeSet::all()).unwrap();
    assert_eq!(vals, vec![Scalar::Bool(true)]);
}

#[test]
#[should_panic]
fn uninitialized() {
    let mut db = Database::open_in_memory().unwrap();
    db.store(&identify(&value_entity(Scalar::Bool(true)))).unwrap();
}

#[test]
fn test_storable() {
    let mut db = test_db();
    let data = identify(&value_entity(Scalar::Bool(true)));
    let stored = data.store(&mut db).unwrap();
    let vals = stored.query_primitives(&db, &TypeSet::all()).unwrap();
    assert_eq!(vals, vec![Scalar::Bool(true)]);
}

#[test]
fn in_out() {
    let mut db = Database::open_in_memory().unwrap();
    db.migrate().unwrap();
    let data_in = identify(&value_entity(Scalar::Text("Hello, World!".to_string())));

    let data_out = db.store(&data_in).unwrap();

    let vals = data_out.query_primitives(&db, &TypeSet::all()).unwrap();
    assert_eq!(vals, vec![Scalar::Text("Hello, World!".to_string())]);
    assert_eq!(data_in.id.unwrap(), data_out.id());
    assert_eq!(data_in.id, data_out.get_id());
}

#[test]
fn every_scalar_kind_round_trips() {
    let mut db = test_db();
    let cases = vec![
        Scalar::Bool(true),
        Scalar::U8(250),
        Scalar::I8(-100),
        Scalar::U16(65000),
        Scalar::I16(-32000),
        Scalar::U32(4000000000),
        Scalar::I32(-2000000000),
        Scalar::U64(1u64 << 62),
        Scalar::I64(-9000000000000000000),
        Scalar::Text("héllo".to_string()),
        Scalar::Bytes(vec![0, 1, 254, 255]),
    ];
    for v in cases {
        let data = identify(&value_entity(v.clone()));
        let stored = db.store(&data).unwrap();
        let vals = stored.query_primitives(&db, &TypeSet::all()).unwrap();
        assert_eq!(vals, vec![v]);
    }
}

#[test]
fn no_value_under_another_kind() {
    let mut db = test_db();
    let data = identify(&value_entity(Scalar::Text("x".to_string())));
    let stored = db.store(&data).unwrap();

    let mut want = TypeSet::empty();
    want.want_bool = true;
    want.want_i64 = true;
    let vals = stored.query_primitives(&db, &want).unwrap();
    assert_eq!(vals, vec![]);

    let mut want_text = TypeSet::empty();
    want_text.want_text = true;
    let vals = stored.query_primitives(&db, &want_text).unwrap();
    assert_eq!(vals, vec![Scalar::Text("x".to_string())]);
}

#[test]
fn empty_request_reads_nothing() {
    let mut db = test_db();
    let data = identify(&value_entity(Scalar::Bool(true)));
    let stored = db.store(&data).unwrap();
    let vals = stored.query_primitives(&db, &TypeSet::empty()).unwrap();
    assert_eq!(vals, vec![]);
}

#[test]
fn unkeyed_link_round_trip() {
    let mut db = test_db();
    let target = identify(&value_entity(Scalar::I64(7)));
    let tid = target.id.unwrap();
    let e = identify(&Entity { id: None, value: None, links: vec![Link { key: None, target }] });
    let stored = db.store(&e).unwrap();

    let links = stored.query_links(&db).unwrap();
    assert_eq!(links.len(), 1);
    assert!(links[0].0.is_none());
    assert_eq!(links[0].1.id(), tid);
}

#[test]
fn keyed_link_round_trip() {
    let mut db = test_db();
    let key = identify(&value_entity(Scalar::Text("name".to_string())));
    let target = identify(&value_entity(Scalar::Text("value".to_string())));
    let kid = key.id.unwrap();
    let tid = target.id.unwrap();
    let e = identify(&Entity {
        id: None,
        value: None,
        links: vec![Link { key: Some(key), target }],
    });
    let stored = db.store(&e).unwrap();

    let links = stored.query_links(&db).unwrap();
    assert_eq!(links.len(), 1);
    assert_eq!(links[0].0.as_ref().unwrap().id(), kid);
    assert_eq!(links[0].1.id(), tid);

    // both endpoints are independently retrievable
    let k = db.get(kid).query_primitives(&db, &TypeSet::all()).unwrap();
    assert_eq!(k, vec![Scalar::Text("name".to_string())]);
    let t = db.get(tid).query_primitives(&db, &TypeSet::all()).unwrap();
    assert_eq!(t, vec![Scalar::Text("value".to_string())]);
}

#[test]
fn link_storage_appends() {
    let mut db = test_db();
    let target = identify(&value_entity(Scalar::I32(1)));
    let e = identify(&Entity { id: None, value: None, links: vec![Link { key: None, target }] });

    let stored = db.store(&e).unwrap();
    assert_eq!(stored.query_links(&db).unwrap().len(), 1);

    // re-storing the same entity appends its link rows again
    let stored = db.store(&e).unwrap();
    assert_eq!(stored.query_links(&db).unwrap().len(), 2);
}

#[test]
fn identify_keeps_existing_ids() {
    let id = SqlID::new(42).unwrap();
    let e = Entity { id: Some(id), value: Some(Scalar::Bool(false)), links: vec![] };
    let r = identify(&e);
    assert_eq!(r.id, Some(id));
}

#[test]
fn all_ids_enumerates_the_store() {
    let mut db = test_db();
    let target = Entity {
        id: Some(SqlID::new(2).unwrap()),
        value: Some(Scalar::Bool(true)),
        links: vec![],
    };
    let e = identify(&Entity {
        id: Some(SqlID::new(1).unwrap()),
        value: None,
        links: vec![Link { key: None, target }],
    });
    db.store(&e).unwrap();

    let mut ids = db.all_ids().unwrap();
    ids.sort();
    assert_eq!(ids, vec![SqlID::new(1).unwrap(), SqlID::new(2).unwrap()]);
}
