//! The in-memory entity model and the mathematical semantics of persisting
//! an entity graph.
//!
//! An entity carries an optional identifier, an optional scalar and a
//! sequence of outgoing links; a link carries a target entity and an
//! optional key entity, both persisted recursively.  `entity_effect` is the
//! exact effect of one `store` call on the store's contents, against which
//! the write path is verified.

use vstd::prelude::*;

use crate::id::{id_bytes, SqlID};
use crate::model::{LinkRowV, StoreModel};
use crate::value::{opt_scalar_v, row_of, Scalar, ScalarV};

verus! {

broadcast use vstd::std_specs::vec::group_vec_axioms, vstd::seq::group_seq_axioms;

/// An in-memory entity: an optional identifier, an optional scalar value,
/// and an ordered multiset of outgoing links.  Entities without an
/// identifier are assigned a random one when they are first persisted.
#[derive(Debug)]
pub struct Entity {
    pub id: Option<SqlID>,
    pub value: Option<Scalar>,
    pub links: Vec<Link>,
}

/// A directed edge from its owning entity to `target`, optionally
/// qualified by a `key` entity.
#[derive(Debug)]
pub struct Link {
    pub key: Option<Entity>,
    pub target: Entity,
}

/// The mathematical value of an entity.
pub struct EntityV {
    pub id: Option<u128>,
    pub value: Option<ScalarV>,
    pub links: Seq<LinkV>,
}

/// The mathematical value of a link.
pub struct LinkV {
    pub key: Option<EntityV>,
    pub target: EntityV,
}

/// The mathematical value of an entity.
pub open spec fn entity_v(e: Entity) -> EntityV
    decreases e, 1int,
{
    EntityV {
        id: match e.id {
            Option::Some(i) => Option::Some(i@),
            Option::None => Option::None,
        },
        value: opt_scalar_v(e.value),
        links: links_v(e.links@),
    }
}

/// The mathematical value of a link sequence.
pub open spec fn links_v(ls: Seq<Link>) -> Seq<LinkV>
    decreases ls, 0int,
{
    if ls.len() == 0 {
        Seq::empty()
    } else {
        seq![link_v(ls[0])] + links_v(ls.drop_first())
    }
}

/// The mathematical value of a link.
pub open spec fn link_v(l: Link) -> LinkV
    decreases l, 1int,
{
    LinkV {
        key: match l.key {
            Option::Some(k) => Option::Some(entity_v(k)),
            Option::None => Option::None,
        },
        target: entity_v(l.target),
    }
}

/// `links_v` maps the sequence element by element.
pub proof fn lemma_links_v(ls: Seq<Link>)
    ensures
        links_v(ls).len() == ls.len(),
        forall|i: int| 0 <= i < ls.len() ==> links_v(ls)[i] == link_v(#[trigger] ls[i]),
    decreases ls.len(),
{
    if ls.len() > 0 {
        lemma_links_v(ls.drop_first());
        assert forall|i: int| 0 <= i < ls.len() implies links_v(ls)[i] == link_v(ls[i]) by {
            if i > 0 {
                assert(ls.drop_first()[i - 1] == ls[i]);
                assert(links_v(ls)[i] == links_v(ls.drop_first())[i - 1]);
            }
        }
    }
}

impl View for Entity {
    type V = EntityV;

    open spec fn view(&self) -> EntityV {
        entity_v(*self)
    }
}

impl View for Link {
    type V = LinkV;

    open spec fn view(&self) -> LinkV {
        link_v(*self)
    }
}

/// Whether every entity in the graph, root included, carries an identifier.
/// `store` requires a complete graph; `identify` produces one.
pub open spec fn entity_complete(e: EntityV) -> bool
    decreases e,
{
    &&& e.id is Some
    &&& e.id->0 != 0
    &&& forall|i: int| 0 <= i < e.links.len() ==> link_complete(#[trigger] e.links[i])
}

pub open spec fn link_complete(l: LinkV) -> bool
    decreases l,
{
    &&& (l.key is Some ==> entity_complete(l.key->0))
    &&& entity_complete(l.target)
}

/// Whether `b` is `a` with identifiers filled in: same scalar, same link
/// structure, every identifier present, and identifiers that `a` already
/// had are kept.
pub open spec fn identified(a: EntityV, b: EntityV) -> bool
    decreases a,
{
    &&& b.id is Some
    &&& (a.id is Some ==> b.id == a.id)
    &&& b.value == a.value
    &&& b.links.len() == a.links.len()
    &&& forall|i: int|
        0 <= i < a.links.len() ==> link_identified(#[trigger] a.links[i], b.links[i])
}

pub open spec fn link_identified(a: LinkV, b: LinkV) -> bool
    decreases a,
{
    &&& (a.key is Some <==> b.key is Some)
    &&& (a.key is Some ==> identified(a.key->0, b.key->0))
    &&& identified(a.target, b.target)
}

/// The identifier blob under which an entity's value row is stored.
pub open spec fn entity_blob(e: EntityV) -> Seq<u8> {
    id_bytes(e.id->0)
}

/// The link row that persisting `l` under source `src` appends.
pub open spec fn link_row(src: Seq<u8>, l: LinkV) -> LinkRowV {
    (
        src,
        match l.key {
            Option::Some(k) => Option::Some(entity_blob(k)),
            Option::None => Option::None,
        },
        entity_blob(l.target),
    )
}

/// Upserting one value row: last write wins for the whole row.
pub open spec fn upserted(m: StoreModel, k: Seq<u8>, row: crate::value::RowV) -> StoreModel {
    StoreModel { values: m.values.insert(k, row), ..m }
}

/// Appending one link row; link insertion never deduplicates.
pub open spec fn appended(m: StoreModel, row: LinkRowV) -> StoreModel {
    StoreModel { links: m.links.push(row), ..m }
}

/// The exact effect of persisting entity `e` on the store's contents:
/// upsert the entity's own value row, then persist every link in order
/// (key first, then target, then the link row itself).
pub open spec fn entity_effect(m: StoreModel, e: EntityV) -> StoreModel
    decreases e, 1int,
{
    links_effect(upserted(m, entity_blob(e), row_of(e.value)), entity_blob(e), e.links)
}

pub open spec fn links_effect(m: StoreModel, src: Seq<u8>, ls: Seq<LinkV>) -> StoreModel
    decreases ls, 0int,
{
    if ls.len() == 0 {
        m
    } else {
        links_effect(link_effect(m, src, ls[0]), src, ls.drop_first())
    }
}

pub open spec fn link_effect(m: StoreModel, src: Seq<u8>, l: LinkV) -> StoreModel
    decreases l, 1int,
{
    let m1 = if l.key is Some {
        entity_effect(m, l.key->0)
    } else {
        m
    };
    let m2 = entity_effect(m1, l.target);
    appended(m2, link_row(src, l))
}

/// Persisting one more link after a batch is the same as persisting the
/// extended batch.
pub proof fn lemma_links_effect_push(m: StoreModel, src: Seq<u8>, ls: Seq<LinkV>, l: LinkV)
    ensures
        links_effect(m, src, ls.push(l)) == link_effect(links_effect(m, src, ls), src, l),
    decreases ls.len(),
{
    let p = ls.push(l);
    if ls.len() == 0 {
        assert(p[0] == l);
        assert(p.drop_first() =~= Seq::<LinkV>::empty());
        assert(links_effect(m, src, p) == links_effect(link_effect(m, src, l), src, p.drop_first()));
        assert(links_effect(link_effect(m, src, l), src, p.drop_first()) == link_effect(m, src, l));
        assert(links_effect(m, src, ls) == m);
    } else {
        assert(p[0] == ls[0]);
        assert(p.drop_first() =~= ls.drop_first().push(l));
        assert(links_effect(m, src, p) == links_effect(link_effect(m, src, ls[0]), src, p.drop_first()));
        lemma_links_effect_push(link_effect(m, src, ls[0]), src, ls.drop_first(), l);
        assert(links_effect(m, src, ls) == links_effect(link_effect(m, src, ls[0]), src, ls.drop_first()));
    }
}

/// Persisting an entity touches only the value and link tables: the
/// recorded version and the version-1 tables are untouched.
pub proof fn lemma_entity_effect_frame(m: StoreModel, e: EntityV)
    ensures
        entity_effect(m, e).version == m.version,
        entity_effect(m, e).v1_values == m.v1_values,
        entity_effect(m, e).v1_links == m.v1_links,
        entity_effect(m, e).v1_value_uuids == m.v1_value_uuids,
        entity_effect(m, e).v1_link_uuids == m.v1_link_uuids,
    decreases e, 1int,
{
    lemma_links_effect_frame(
        upserted(m, entity_blob(e), row_of(e.value)),
        entity_blob(e),
        e.links,
    );
}

pub proof fn lemma_links_effect_frame(m: StoreModel, src: Seq<u8>, ls: Seq<LinkV>)
    ensures
        links_effect(m, src, ls).version == m.version,
        links_effect(m, src, ls).v1_values == m.v1_values,
        links_effect(m, src, ls).v1_links == m.v1_links,
        links_effect(m, src, ls).v1_value_uuids == m.v1_value_uuids,
        links_effect(m, src, ls).v1_link_uuids == m.v1_link_uuids,
    decreases ls, 0int,
{
    if ls.len() > 0 {
        lemma_link_effect_frame(m, src, ls[0]);
        lemma_links_effect_frame(link_effect(m, src, ls[0]), src, ls.drop_first());
    }
}

pub proof fn lemma_link_effect_frame(m: StoreModel, src: Seq<u8>, l: LinkV)
    ensures
        link_effect(m, src, l).version == m.version,
        link_effect(m, src, l).v1_values == m.v1_values,
        link_effect(m, src, l).v1_links == m.v1_links,
        link_effect(m, src, l).v1_value_uuids == m.v1_value_uuids,
        link_effect(m, src, l).v1_link_uuids == m.v1_link_uuids,
    decreases l, 1int,
{
    let m1 = if l.key is Some {
        entity_effect(m, l.key->0)
    } else {
        m
    };
    if l.key is Some {
        lemma_entity_effect_frame(m, l.key->0);
    }
    lemma_entity_effect_frame(m1, l.target);
}

/// Duplicates a scalar.
pub fn clone_scalar(s: &Scalar) -> (r: Scalar)
    ensures
        r@ == s@,
{
    match s {
        Scalar::Bool(x) => Scalar::Bool(*x),
        Scalar::U8(x) => Scalar::U8(*x),
        Scalar::I8(x) => Scalar::I8(*x),
        Scalar::U16(x) => Scalar::U16(*x),
        Scalar::I16(x) => Scalar::I16(*x),
        Scalar::U32(x) => Scalar::U32(*x),
        Scalar::I32(x) => Scalar::I32(*x),
        Scalar::U64(x) => Scalar::U64(*x),
        Scalar::I64(x) => Scalar::I64(*x),
        Scalar::Text(x) => Scalar::Text(x.clone()),
        Scalar::Bytes(x) => {
            let mut out: Vec<u8> = Vec::new();
            let mut i: usize = 0;
            while i < x.len()
                invariant
                    0 <= i <= x@.len(),
                    out@ == x@.subrange(0, i as int),
                decreases x@.len() - i,
            {
                out.push(x[i]);
                proof {
                    assert(out@ =~= x@.subrange(0, i as int + 1));
                }
                i += 1;
            }
            proof {
                assert(out@ =~= x@);
            }
            Scalar::Bytes(out)
        },
    }
}

/// Fills in every missing identifier in the graph with a fresh random one,
/// leaving identifiers already present, the scalar values and the link
/// structure untouched.  Anonymous sub-entities are made unique this way
/// at persistence time.
pub fn identify(e: &Entity) -> (r: Entity)
    ensures
        entity_complete(r@),
        identified(e@, r@),
    decreases *e,
{
    let id: SqlID = match &e.id {
        Some(i) => *i,
        None => SqlID::new_random(),
    };
    let value: Option<Scalar> = match &e.value {
        Some(s) => Some(clone_scalar(s)),
        None => None,
    };
    let mut links: Vec<Link> = Vec::new();
    let mut i: usize = 0;
    while i < e.links.len()
        invariant
            0 <= i <= e.links@.len(),
            links@.len() == i,
            forall|j: int|
                0 <= j < i ==> link_complete(link_v(#[trigger] links@[j])) && link_identified(
                    link_v(e.links@[j]),
                    link_v(links@[j]),
                ),
        decreases e.links@.len() - i,
    {
        let l: &Link = &e.links[i];
        proof {
            assert(decreases_to!(*e => e.links));
            assert(decreases_to!(e.links => e.links@[i as int]));
        }
        let key: Option<Entity> = match &l.key {
            Some(k) => Some(identify(k)),
            None => None,
        };
        let target: Entity = identify(&l.target);
        links.push(Link { key, target });
        i += 1;
    }
    let ghost lv = links@;
    let r = Entity { id: Some(id), value, links };
    proof {
        lemma_links_v(lv);
        lemma_links_v(e.links@);
        assert(r.links@ == lv);
        assert(r@.links.len() == e@.links.len());
        assert forall|j: int|
            0 <= j < e@.links.len() implies link_complete(#[trigger] r@.links[j])
            && link_identified(e@.links[j], r@.links[j]) by {
            assert(r@.links[j] == link_v(lv[j]));
            assert(e@.links[j] == link_v(e.links@[j]));
        }
        use_type_invariant(&id);
        id.lemma_wf_nonzero();
    }
    r
}

} // verus!
