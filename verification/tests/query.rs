//! Filter compiler scenarios: the shape of compiled SQL, parameter/
//! placeholder agreement, and the semantics of compiled queries against a
//! real store.

use datalink_sqlite::database::Database;
use datalink_sqlite::entity::{identify, Entity, Link};
use datalink_sqlite::error::Error;
use datalink_sqlite::id::SqlID;
use datalink_sqlite::query::{
    DataFilter, LinkFilter, Query, QueryContext, SQLBuilder, TextFilter,
};
use datalink_sqlite::value::Scalar;

#[test]
fn complex() {
    let query = Query::new(LinkFilter::And(vec![
        LinkFilter::Key(DataFilter::Text(TextFilter { pattern: "foo".to_string() })),
        LinkFilter::Target(DataFilter::And(vec![
            DataFilter::Text(TextFilter { pattern: "%".to_string() }),
            DataFilter::Linked(Box::new(LinkFilter::Key(DataFilter::Text(TextFilter {
                pattern: "created_at".to_string(),
            })))),
        ])),
    ]));

    let mut sql = SQLBuilder::new_conjunct(QueryContext {
        table: "links".to_string(),
        key_col: "key_uuid".to_string(),
        target_col: "target_uuid".to_string(),
    });
    query.build_sql(&mut sql).unwrap();

    let text = sql.render();
    assert!(text.starts_with(
        "SELECT `links`.`key_uuid` as `links_k`, `links`.`target_uuid` as `links_t` FROM `links` WHERE "
    ));
    // three text filters, three bound patterns, placeholders in step
    assert_eq!(sql.params().len(), 3);
    assert_eq!(text.matches('?').count(), 3);
    assert!(text.contains("EXISTS ("));
    // the text subquery correlates on the qualified key column
    assert!(text.contains("`links_key_uuid_v`.`uuid` == `links`.`key_uuid`"));
    // the nested link subquery correlates on the qualified target column
    assert!(text.contains("`links_target_uuid_l`.`source_uuid` == `links`.`target_uuid`"));
}

#[test]
fn render_empty_builder() {
    let sql: SQLBuilder<(), datalink_sqlite::query::Conjunction> = SQLBuilder::new_conjunct(());
    assert_eq!(sql.render(), "SELECT 1");
}

fn setup() -> (Database, SqlID, SqlID, SqlID) {
    let mut db = Database::open_in_memory().unwrap();
    db.init().unwrap();
    let t1 = Entity {
        id: Some(SqlID::new(11).unwrap()),
        value: Some(Scalar::I32(1)),
        links: vec![],
    };
    let t2 = Entity {
        id: Some(SqlID::new(12).unwrap()),
        value: Some(Scalar::I32(2)),
        links: vec![],
    };
    let e = identify(&Entity {
        id: Some(SqlID::new(10).unwrap()),
        value: None,
        links: vec![Link { key: None, target: t1 }, Link { key: None, target: t2 }],
    });
    db.store(&e).unwrap();
    (db, SqlID::new(10).unwrap(), SqlID::new(11).unwrap(), SqlID::new(12).unwrap())
}

#[test]
fn filter_any_returns_all_links() {
    let (db, _e, _t1, _t2) = setup();
    let rows = Query::new(LinkFilter::Any).execute(&db).unwrap();
    assert_eq!(rows.len(), 2);
}

#[test]
fn filter_none_returns_nothing() {
    let (db, _e, _t1, _t2) = setup();
    let rows = Query::new(LinkFilter::Never).execute(&db).unwrap();
    assert_eq!(rows.len(), 0);
}

#[test]
fn filter_or_matches_either() {
    let (db, _e, t1, t2) = setup();
    let rows = Query::new(LinkFilter::Or(vec![
        LinkFilter::Target(DataFilter::Id(t1)),
        LinkFilter::Target(DataFilter::Id(t2)),
    ]))
    .execute(&db)
    .unwrap();
    assert_eq!(rows.len(), 2);

    let rows = Query::new(LinkFilter::Target(DataFilter::Id(t1))).execute(&db).unwrap();
    assert_eq!(rows.len(), 1);
    assert_eq!(rows[0].1, t1);
}

#[test]
fn filter_not_excludes_identifier() {
    let (db, _e, t1, t2) = setup();
    let rows = Query::new(LinkFilter::Target(DataFilter::Not(Box::new(DataFilter::Id(t1)))))
        .execute(&db)
        .unwrap();
    assert_eq!(rows.len(), 1);
    assert_eq!(rows[0].1, t2);
}

#[test]
fn filter_linked_reaches_one_hop() {
    let (mut db, e, t1, _t2) = setup();
    // a second entity linking to `e`, which in turn links to t1 and t2
    let e2 = identify(&Entity {
        id: Some(SqlID::new(20).unwrap()),
        value: None,
        links: vec![Link {
            key: None,
            target: Entity { id: Some(e), value: None, links: vec![] },
        }],
    });
    db.store(&e2).unwrap();

    // links whose target itself links to t1: exactly the e2 -> e row
    let rows = Query::new(LinkFilter::Target(DataFilter::Linked(Box::new(
        LinkFilter::Target(DataFilter::Id(t1)),
    ))))
    .execute(&db)
    .unwrap();
    assert_eq!(rows.len(), 1);
    assert_eq!(rows[0].1, e);
}

#[test]
fn filter_unique_accepts_everything() {
    let (db, _e, _t1, _t2) = setup();
    let rows = Query::new(LinkFilter::Target(DataFilter::Unique)).execute(&db).unwrap();
    assert_eq!(rows.len(), 2);
}

#[test]
fn text_filter_matches_stored_text() {
    let mut db = Database::open_in_memory().unwrap();
    db.init().unwrap();
    let target = Entity {
        id: Some(SqlID::new(31).unwrap()),
        value: Some(Scalar::Text("hello world".to_string())),
        links: vec![],
    };
    let e = identify(&Entity {
        id: Some(SqlID::new(30).unwrap()),
        value: None,
        links: vec![Link { key: None, target }],
    });
    db.store(&e).unwrap();

    let rows = Query::new(LinkFilter::Target(DataFilter::Text(TextFilter {
        pattern: "hello%".to_string(),
    })))
    .execute(&db)
    .unwrap();
    assert_eq!(rows.len(), 1);
    assert_eq!(rows[0].1, SqlID::new(31).unwrap());

    let rows = Query::new(LinkFilter::Target(DataFilter::Text(TextFilter {
        pattern: "nothing%".to_string(),
    })))
    .execute(&db)
    .unwrap();
    assert_eq!(rows.len(), 0);
}

#[test]
fn reserved_filter_is_invalid_query() {
    let (db, _e, _t1, _t2) = setup();
    let err = Query::new(LinkFilter::Reserved).execute(&db).unwrap_err();
    assert!(matches!(err, Error::InvalidQuery));

    let err = Query::new(LinkFilter::Target(DataFilter::Reserved)).execute(&db).unwrap_err();
    assert!(matches!(err, Error::InvalidQuery));
}
