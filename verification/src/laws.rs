//! The library's laws: what a store call does to the value and link
//! tables, stated and proved once over the mathematical store model.
//!
//! `entity_effect` is decomposed into a flat list of value-row upserts and
//! a flat list of appended link rows; the laws about idempotent value
//! storage, append-only link storage, and exact extraction after a store
//! all follow from that decomposition.

use vstd::prelude::*;

use crate::entity::{
    appended, entity_blob, entity_effect, link_effect, link_row, links_effect, upserted, EntityV,
    LinkV,
};
use crate::model::{links_from, LinkRowV, StoreModel};
use crate::value::{requested, row_of, scalar_wanted, RowV, ScalarV, TypeSet};

verus! {

/// The flat list of `(identifier blob, row)` upserts a store call performs,
/// in execution order: the entity's own row first, then its links' rows.
pub open spec fn entity_upserts(e: EntityV) -> Seq<(Seq<u8>, RowV)>
    decreases e, 1int,
{
    seq![(entity_blob(e), row_of(e.value))] + links_upserts(e.links)
}

pub open spec fn links_upserts(ls: Seq<LinkV>) -> Seq<(Seq<u8>, RowV)>
    decreases ls, 0int,
{
    if ls.len() == 0 {
        Seq::empty()
    } else {
        link_upserts(ls[0]) + links_upserts(ls.drop_first())
    }
}

pub open spec fn link_upserts(l: LinkV) -> Seq<(Seq<u8>, RowV)>
    decreases l, 1int,
{
    (if l.key is Some {
        entity_upserts(l.key->0)
    } else {
        Seq::empty()
    }) + entity_upserts(l.target)
}

/// The flat list of link rows a store call appends, in execution order.
pub open spec fn entity_rows(e: EntityV) -> Seq<LinkRowV>
    decreases e, 1int,
{
    links_rows(entity_blob(e), e.links)
}

pub open spec fn links_rows(src: Seq<u8>, ls: Seq<LinkV>) -> Seq<LinkRowV>
    decreases ls, 0int,
{
    if ls.len() == 0 {
        Seq::empty()
    } else {
        one_link_rows(src, ls[0]) + links_rows(src, ls.drop_first())
    }
}

pub open spec fn one_link_rows(src: Seq<u8>, l: LinkV) -> Seq<LinkRowV>
    decreases l, 1int,
{
    (if l.key is Some {
        entity_rows(l.key->0)
    } else {
        Seq::empty()
    }) + entity_rows(l.target) + seq![link_row(src, l)]
}

/// Applying a list of upserts to the value table, first to last; a later
/// upsert of the same identifier wins.
pub open spec fn apply_upserts(vs: Map<Seq<u8>, RowV>, ups: Seq<(Seq<u8>, RowV)>) -> Map<
    Seq<u8>,
    RowV,
>
    decreases ups.len(),
{
    if ups.len() == 0 {
        vs
    } else {
        apply_upserts(vs.insert(ups[0].0, ups[0].1), ups.drop_first())
    }
}

pub proof fn lemma_apply_upserts_append(vs: Map<Seq<u8>, RowV>, a: Seq<(Seq<u8>, RowV)>, b: Seq<
    (Seq<u8>, RowV),
>)
    ensures
        apply_upserts(vs, a + b) == apply_upserts(apply_upserts(vs, a), b),
    decreases a.len(),
{
    if a.len() == 0 {
        assert(a + b =~= b);
    } else {
        assert((a + b)[0] == a[0]);
        assert((a + b).drop_first() =~= a.drop_first() + b);
        lemma_apply_upserts_append(vs.insert(a[0].0, a[0].1), a.drop_first(), b);
    }
}

/// The row the last upsert of `k` in the list carries, if any.
pub open spec fn last_upsert(ups: Seq<(Seq<u8>, RowV)>, k: Seq<u8>) -> Option<RowV>
    decreases ups.len(),
{
    if ups.len() == 0 {
        Option::None
    } else {
        match last_upsert(ups.drop_first(), k) {
            Option::Some(r) => Option::Some(r),
            Option::None => if ups[0].0 == k {
                Option::Some(ups[0].1)
            } else {
                Option::None
            },
        }
    }
}

/// What the value table holds at `k` after a list of upserts: the last
/// upsert of `k` if there is one, the previous contents otherwise.
pub proof fn lemma_apply_upserts_lookup(vs: Map<Seq<u8>, RowV>, ups: Seq<(Seq<u8>, RowV)>, k: Seq<
    u8,
>)
    ensures
        match last_upsert(ups, k) {
            Option::Some(r) => apply_upserts(vs, ups).contains_key(k) && apply_upserts(vs, ups)[k]
                == r,
            Option::None => apply_upserts(vs, ups).contains_key(k) == vs.contains_key(k) && (
            vs.contains_key(k) ==> apply_upserts(vs, ups)[k] == vs[k]),
        },
    decreases ups.len(),
{
    if ups.len() > 0 {
        lemma_apply_upserts_lookup(vs.insert(ups[0].0, ups[0].1), ups.drop_first(), k);
    }
}

/// The last upsert of `k` in a concatenation comes from the second part if
/// it has one, else from the first.
pub proof fn lemma_last_upsert_append(a: Seq<(Seq<u8>, RowV)>, b: Seq<(Seq<u8>, RowV)>, k: Seq<u8>)
    ensures
        last_upsert(a + b, k) == (match last_upsert(b, k) {
            Option::Some(r) => Option::Some(r),
            Option::None => last_upsert(a, k),
        }),
    decreases a.len(),
{
    if a.len() == 0 {
        assert(a + b =~= b);
    } else {
        assert((a + b)[0] == a[0]);
        assert((a + b).drop_first() =~= a.drop_first() + b);
        lemma_last_upsert_append(a.drop_first(), b, k);
    }
}

/// A store call is exactly: apply the entity's upsert list to the value
/// table and append its link-row list to the link table.
pub proof fn lemma_entity_effect_decompose(m: StoreModel, e: EntityV)
    ensures
        entity_effect(m, e) == (StoreModel {
            values: apply_upserts(m.values, entity_upserts(e)),
            links: m.links + entity_rows(e),
            ..m
        }),
    decreases e, 1int,
{
    let up = upserted(m, entity_blob(e), row_of(e.value));
    lemma_links_effect_decompose(up, entity_blob(e), e.links);
    let root = (entity_blob(e), row_of(e.value));
    assert(entity_upserts(e)[0] == root);
    assert(entity_upserts(e).drop_first() =~= links_upserts(e.links));
    assert(apply_upserts(m.values, entity_upserts(e)) == apply_upserts(
        m.values.insert(root.0, root.1),
        links_upserts(e.links),
    ));
}

pub proof fn lemma_links_effect_decompose(m: StoreModel, src: Seq<u8>, ls: Seq<LinkV>)
    ensures
        links_effect(m, src, ls) == (StoreModel {
            values: apply_upserts(m.values, links_upserts(ls)),
            links: m.links + links_rows(src, ls),
            ..m
        }),
    decreases ls, 0int,
{
    if ls.len() == 0 {
        assert(m.links + links_rows(src, ls) =~= m.links);
    } else {
        lemma_link_effect_decompose(m, src, ls[0]);
        lemma_links_effect_decompose(link_effect(m, src, ls[0]), src, ls.drop_first());
        lemma_apply_upserts_append(m.values, link_upserts(ls[0]), links_upserts(ls.drop_first()));
        assert((m.links + one_link_rows(src, ls[0])) + links_rows(src, ls.drop_first()) =~= m.links
            + (one_link_rows(src, ls[0]) + links_rows(src, ls.drop_first())));
    }
}

pub proof fn lemma_link_effect_decompose(m: StoreModel, src: Seq<u8>, l: LinkV)
    ensures
        link_effect(m, src, l) == (StoreModel {
            values: apply_upserts(m.values, link_upserts(l)),
            links: m.links + one_link_rows(src, l),
            ..m
        }),
    decreases l, 1int,
{
    let kups = if l.key is Some {
        entity_upserts(l.key->0)
    } else {
        Seq::<(Seq<u8>, RowV)>::empty()
    };
    let krows = if l.key is Some {
        entity_rows(l.key->0)
    } else {
        Seq::<LinkRowV>::empty()
    };
    let m1 = if l.key is Some {
        entity_effect(m, l.key->0)
    } else {
        m
    };
    if l.key is Some {
        lemma_entity_effect_decompose(m, l.key->0);
    } else {
        assert(apply_upserts(m.values, kups) == m.values);
        assert(m.links + krows =~= m.links);
    }
    lemma_entity_effect_decompose(m1, l.target);
    lemma_apply_upserts_append(m.values, kups, entity_upserts(l.target));
    assert(link_upserts(l) == kups + entity_upserts(l.target));
    let m2 = entity_effect(m1, l.target);
    assert(link_effect(m, src, l) == appended(m2, link_row(src, l)));
    assert(appended(m2, link_row(src, l)).links == m2.links.push(link_row(src, l)));
    assert(m2.links == (m.links + krows) + entity_rows(l.target));
    assert(m2.values == apply_upserts(m.values, link_upserts(l)));
    assert(m2.links.push(link_row(src, l)) =~= m.links + (krows + entity_rows(l.target) + seq![
        link_row(src, l),
    ]));
    assert(one_link_rows(src, l) == krows + entity_rows(l.target) + seq![link_row(src, l)]);
}

/// Idempotence of scalar storage: storing the same entity twice leaves the
/// value table exactly as one store leaves it — one row per identifier,
/// holding the latest scalar content.
pub proof fn lemma_store_values_idempotent(m: StoreModel, e: EntityV)
    ensures
        entity_effect(entity_effect(m, e), e).values == entity_effect(m, e).values,
{
    let ups = entity_upserts(e);
    lemma_entity_effect_decompose(m, e);
    lemma_entity_effect_decompose(entity_effect(m, e), e);
    let once = apply_upserts(m.values, ups);
    let twice = apply_upserts(once, ups);
    lemma_apply_upserts_append(m.values, ups, ups);
    assert(twice == apply_upserts(m.values, ups + ups));
    assert forall|k: Seq<u8>| #[trigger]
        twice.dom().contains(k) <==> once.dom().contains(k) by {
        lemma_apply_upserts_lookup(m.values, ups, k);
        lemma_apply_upserts_lookup(m.values, ups + ups, k);
        lemma_last_upsert_append(ups, ups, k);
    }
    assert forall|k: Seq<u8>| once.dom().contains(k) implies #[trigger] twice[k] == once[k] by {
        lemma_apply_upserts_lookup(m.values, ups, k);
        lemma_apply_upserts_lookup(m.values, ups + ups, k);
        lemma_last_upsert_append(ups, ups, k);
    }
    assert(twice.dom() =~= once.dom());
    assert(twice =~= once);
}

/// Non-idempotence of link storage (by design): storing an entity appends
/// its link rows, and storing it twice appends them twice — no
/// deduplication ever happens.
pub proof fn lemma_store_links_append(m: StoreModel, e: EntityV)
    ensures
        entity_effect(m, e).links == m.links + entity_rows(e),
        entity_effect(entity_effect(m, e), e).links == m.links + entity_rows(e) + entity_rows(e),
        entity_effect(entity_effect(m, e), e).links.len() == m.links.len() + 2 * entity_rows(
            e,
        ).len(),
{
    lemma_entity_effect_decompose(m, e);
    lemma_entity_effect_decompose(entity_effect(m, e), e);
}

/// No upsert in the list touches the identifier blob `k`.
pub open spec fn upserts_avoid(ups: Seq<(Seq<u8>, RowV)>, k: Seq<u8>) -> bool {
    forall|j: int| 0 <= j < ups.len() ==> (#[trigger] ups[j]).0 != k
}

pub proof fn lemma_last_upsert_avoid(ups: Seq<(Seq<u8>, RowV)>, k: Seq<u8>)
    requires
        upserts_avoid(ups, k),
    ensures
        last_upsert(ups, k) is None,
    decreases ups.len(),
{
    if ups.len() > 0 {
        assert(upserts_avoid(ups.drop_first(), k)) by {
            assert(forall|j: int|
                0 <= j < ups.len() - 1 ==> #[trigger] ups.drop_first()[j] == ups[j + 1]);
        }
        lemma_last_upsert_avoid(ups.drop_first(), k);
    }
}

pub proof fn lemma_last_upsert_hit(ups: Seq<(Seq<u8>, RowV)>, k: Seq<u8>)
    requires
        exists|j: int| 0 <= j < ups.len() && (#[trigger] ups[j]).0 == k,
    ensures
        last_upsert(ups, k) is Some,
    decreases ups.len(),
{
    let j = choose|j: int| 0 <= j < ups.len() && (#[trigger] ups[j]).0 == k;
    if j > 0 {
        assert(ups.drop_first()[j - 1] == ups[j]);
        lemma_last_upsert_hit(ups.drop_first(), k);
    }
}

/// For every entity with scalar value `v` (or none): after a store, the
/// value row under the entity's own identifier holds exactly the encoding
/// of `v`, and extraction yields `v` exactly when its kind was requested,
/// and never a value of any other kind.  The entity's links must not
/// re-store another entity under the same identifier, which would
/// overwrite the row.
pub proof fn lemma_store_extracts_exactly(m: StoreModel, e: EntityV, want: TypeSet)
    requires
        upserts_avoid(links_upserts(e.links), entity_blob(e)),
    ensures
        entity_effect(m, e).values.contains_key(entity_blob(e)),
        entity_effect(m, e).values[entity_blob(e)] == row_of(e.value),
        requested(entity_effect(m, e).values[entity_blob(e)], want) == (match e.value {
            Option::Some(v) => if scalar_wanted(v, want) {
                seq![v]
            } else {
                Seq::<ScalarV>::empty()
            },
            Option::None => Seq::<ScalarV>::empty(),
        }),
{
    lemma_entity_effect_decompose(m, e);
    let ups = entity_upserts(e);
    let root = (entity_blob(e), row_of(e.value));
    let rest = links_upserts(e.links);
    assert(ups == seq![root] + rest);
    lemma_last_upsert_avoid(rest, entity_blob(e));
    lemma_last_upsert_append(seq![root], rest, entity_blob(e));
    assert(seq![root].drop_first() =~= Seq::<(Seq<u8>, RowV)>::empty());
    assert(last_upsert(Seq::<(Seq<u8>, RowV)>::empty(), entity_blob(e)) is None);
    assert(last_upsert(seq![root].drop_first(), entity_blob(e)) is None);
    assert(seq![root][0] == root);
    assert(last_upsert(seq![root], entity_blob(e)) == Option::Some(root.1));
    lemma_apply_upserts_lookup(m.values, ups, entity_blob(e));
    match e.value {
        Option::Some(v) => {
            crate::value::lemma_row_projection_exact(v, want);
        },
        Option::None => {
            crate::value::lemma_row_projection_none(want);
        },
    }
}

/// No link row in the list has source `src`.
pub open spec fn rows_avoid(rows: Seq<LinkRowV>, src: Seq<u8>) -> bool {
    forall|j: int| 0 <= j < rows.len() ==> (#[trigger] rows[j]).0 != src
}

pub proof fn lemma_filter_src_empty(rows: Seq<LinkRowV>, src: Seq<u8>)
    requires
        rows_avoid(rows, src),
    ensures
        rows.filter(crate::model::src_pred(src)) == Seq::<LinkRowV>::empty(),
    decreases rows.len(),
{
    reveal(Seq::filter);
    if rows.len() > 0 {
        assert(rows_avoid(rows.drop_last(), src)) by {
            assert(forall|j: int|
                0 <= j < rows.len() - 1 ==> #[trigger] rows.drop_last()[j] == rows[j]);
        }
        lemma_filter_src_empty(rows.drop_last(), src);
        assert(!(crate::model::src_pred(src)(rows.last())));
    }
    assert(rows.filter(crate::model::src_pred(src)) =~= Seq::<LinkRowV>::empty());
}

pub proof fn lemma_filter_src_single(row: LinkRowV, src: Seq<u8>)
    ensures
        seq![row].filter(crate::model::src_pred(src)) == (if row.0 == src {
            seq![row]
        } else {
            Seq::<LinkRowV>::empty()
        }),
{
    reveal(Seq::filter);
    let s = seq![row];
    assert(s.drop_last() =~= Seq::<LinkRowV>::empty());
    assert(Seq::<LinkRowV>::empty().filter(crate::model::src_pred(src)) =~= Seq::<
        LinkRowV,
    >::empty());
    assert(s.drop_last().filter(crate::model::src_pred(src)) =~= Seq::<LinkRowV>::empty());
    assert(s.last() == row);
    if row.0 == src {
        assert(s.filter(crate::model::src_pred(src)) =~= seq![row]);
    } else {
        assert(s.filter(crate::model::src_pred(src)) =~= Seq::<LinkRowV>::empty());
    }
}

pub proof fn lemma_links_from_append(a: Seq<LinkRowV>, b: Seq<LinkRowV>, src: Seq<u8>)
    ensures
        links_from(a + b, src) == links_from(a, src) + links_from(b, src),
{
    Seq::filter_distributes_over_add(a, b, crate::model::src_pred(src));
    assert((a.filter(crate::model::src_pred(src)) + b.filter(crate::model::src_pred(src)))
        .map_values(crate::model::kt_fn()) =~= a.filter(crate::model::src_pred(src)).map_values(
        crate::model::kt_fn(),
    ) + b.filter(crate::model::src_pred(src)).map_values(crate::model::kt_fn()));
}

pub proof fn lemma_links_from_avoid(rows: Seq<LinkRowV>, src: Seq<u8>)
    requires
        rows_avoid(rows, src),
    ensures
        links_from(rows, src) == Seq::<(Option<Seq<u8>>, Seq<u8>)>::empty(),
{
    lemma_filter_src_empty(rows, src);
    assert(links_from(rows, src) =~= Seq::<(Option<Seq<u8>>, Seq<u8>)>::empty());
}

/// For an entity whose links are exactly one unkeyed link to target `t`:
/// after a store on a state holding no links from this entity, link
/// extraction yields exactly one row, `(no key, t.id)`.  `t`'s own graph
/// must not emit link rows sourced at the storing entity's identifier.
pub proof fn lemma_single_unkeyed_link(m: StoreModel, e: EntityV, t: EntityV)
    requires
        e.links == seq![(LinkV { key: Option::None, target: t })],
        links_from(m.links, entity_blob(e)).len() == 0,
        rows_avoid(entity_rows(t), entity_blob(e)),
    ensures
        links_from(entity_effect(m, e).links, entity_blob(e)) == seq![
            (Option::<Seq<u8>>::None, entity_blob(t)),
        ],
{
    lemma_entity_effect_decompose(m, e);
    let src = entity_blob(e);
    let l = LinkV { key: Option::None, target: t };
    assert(e.links[0] == l);
    assert(e.links.drop_first() =~= Seq::<LinkV>::empty());
    assert(links_rows(src, Seq::<LinkV>::empty()) == Seq::<LinkRowV>::empty());
    assert(entity_rows(e) == one_link_rows(src, l) + Seq::<LinkRowV>::empty());
    let row = link_row(src, l);
    assert(one_link_rows(src, l) == Seq::<LinkRowV>::empty() + entity_rows(t) + seq![row]);
    lemma_links_from_append(m.links, entity_rows(e), src);
    assert(links_from(m.links, src) =~= Seq::<(Option<Seq<u8>>, Seq<u8>)>::empty());
    assert(entity_rows(e) =~= entity_rows(t) + seq![row]);
    lemma_links_from_append(entity_rows(t), seq![row], src);
    lemma_links_from_avoid(entity_rows(t), src);
    lemma_filter_src_single(row, src);
    assert(row.0 == src);
    assert(seq![row].map_values(crate::model::kt_fn()) =~= seq![(row.1, row.2)]);
    assert(links_from(seq![row], src) == seq![(Option::<Seq<u8>>::None, entity_blob(t))]);
    assert(links_from(entity_effect(m, e).links, src) =~= seq![
        (Option::<Seq<u8>>::None, entity_blob(t)),
    ]);
}

/// For an entity whose links are exactly one keyed link `(k, t)`: after a
/// store on a state holding no links from this entity, link extraction
/// yields exactly `(k.id, t.id)`, and both `k` and `t` have value rows of
/// their own — independently retrievable by identifier.  Neither `k`'s nor
/// `t`'s graph may emit link rows sourced at the storing entity.
pub proof fn lemma_single_keyed_link(m: StoreModel, e: EntityV, k: EntityV, t: EntityV)
    requires
        e.links == seq![(LinkV { key: Option::Some(k), target: t })],
        links_from(m.links, entity_blob(e)).len() == 0,
        rows_avoid(entity_rows(k), entity_blob(e)),
        rows_avoid(entity_rows(t), entity_blob(e)),
    ensures
        links_from(entity_effect(m, e).links, entity_blob(e)) == seq![
            (Option::Some(entity_blob(k)), entity_blob(t)),
        ],
        entity_effect(m, e).values.contains_key(entity_blob(k)),
        entity_effect(m, e).values.contains_key(entity_blob(t)),
{
    lemma_entity_effect_decompose(m, e);
    let src = entity_blob(e);
    let l = LinkV { key: Option::Some(k), target: t };
    assert(e.links[0] == l);
    assert(e.links.drop_first() =~= Seq::<LinkV>::empty());
    assert(links_rows(src, Seq::<LinkV>::empty()) == Seq::<LinkRowV>::empty());
    assert(entity_rows(e) == one_link_rows(src, l) + Seq::<LinkRowV>::empty());
    let row = link_row(src, l);
    assert(one_link_rows(src, l) == entity_rows(k) + entity_rows(t) + seq![row]);
    lemma_links_from_append(m.links, entity_rows(e), src);
    assert(links_from(m.links, src) =~= Seq::<(Option<Seq<u8>>, Seq<u8>)>::empty());
    assert(entity_rows(e) =~= (entity_rows(k) + entity_rows(t)) + seq![row]);
    lemma_links_from_append(entity_rows(k), entity_rows(t), src);
    lemma_links_from_append(entity_rows(k) + entity_rows(t), seq![row], src);
    lemma_links_from_avoid(entity_rows(k), src);
    lemma_links_from_avoid(entity_rows(t), src);
    lemma_filter_src_single(row, src);
    assert(row.0 == src);
    assert(seq![row].map_values(crate::model::kt_fn()) =~= seq![(row.1, row.2)]);
    assert(links_from(entity_effect(m, e).links, src) =~= seq![
        (Option::Some(entity_blob(k)), entity_blob(t)),
    ]);
    // both endpoints were upserted, so their rows exist afterwards
    let ups = entity_upserts(e);
    let ku = entity_upserts(k);
    let tu = entity_upserts(t);
    assert(links_upserts(e.links) == link_upserts(l) + Seq::<(Seq<u8>, RowV)>::empty());
    assert(link_upserts(l) == ku + tu);
    assert(ups == seq![(entity_blob(e), row_of(e.value))] + (link_upserts(l) + Seq::<(
        Seq<u8>,
        RowV,
    )>::empty()));
    assert(ku[0] == (entity_blob(k), row_of(k.value)));
    assert(tu[0] == (entity_blob(t), row_of(t.value)));
    assert(ups[1] == ku[0]) by {
        assert(ups[1] == (link_upserts(l) + Seq::<(Seq<u8>, RowV)>::empty())[0]);
        assert((link_upserts(l) + Seq::<(Seq<u8>, RowV)>::empty())[0] == link_upserts(l)[0]);
        assert(link_upserts(l)[0] == (ku + tu)[0]);
    }
    let ki: int = ku.len() as int;
    assert(ups[1 + ki] == tu[0]) by {
        assert(ups[1 + ki] == (link_upserts(l) + Seq::<(Seq<u8>, RowV)>::empty())[ki]);
        assert((link_upserts(l) + Seq::<(Seq<u8>, RowV)>::empty())[ki] == link_upserts(l)[ki]);
        assert(link_upserts(l)[ki] == (ku + tu)[ki]);
    }
    assert(ups[1].0 == entity_blob(k));
    assert(ups[1 + ki].0 == entity_blob(t));
    lemma_last_upsert_hit(ups, entity_blob(k));
    lemma_last_upsert_hit(ups, entity_blob(t));
    lemma_apply_upserts_lookup(m.values, ups, entity_blob(k));
    lemma_apply_upserts_lookup(m.values, ups, entity_blob(t));
}

/// After storing an entity with one keyed link `(k, t)`, the key and the
/// target each hold their own scalar content under their own identifiers,
/// independently retrievable — provided neither sub-graph re-stores an
/// entity under `k`'s or `t`'s identifier (the spec's identifier
/// uniqueness; a graph where `t` reuses `k`'s identifier with another
/// scalar would overwrite the key's row).
pub proof fn lemma_keyed_link_contents(m: StoreModel, e: EntityV, k: EntityV, t: EntityV)
    requires
        e.links == seq![(LinkV { key: Option::Some(k), target: t })],
        upserts_avoid(links_upserts(k.links), entity_blob(k)),
        upserts_avoid(entity_upserts(t), entity_blob(k)),
        upserts_avoid(links_upserts(t.links), entity_blob(t)),
    ensures
        entity_effect(m, e).values.contains_key(entity_blob(k)),
        entity_effect(m, e).values[entity_blob(k)] == row_of(k.value),
        entity_effect(m, e).values.contains_key(entity_blob(t)),
        entity_effect(m, e).values[entity_blob(t)] == row_of(t.value),
{
    lemma_entity_effect_decompose(m, e);
    let l = LinkV { key: Option::Some(k), target: t };
    let ku = entity_upserts(k);
    let tu = entity_upserts(t);
    let kroot = (entity_blob(k), row_of(k.value));
    let troot = (entity_blob(t), row_of(t.value));
    let ups = entity_upserts(e);
    assert(e.links[0] == l);
    assert(e.links.drop_first() =~= Seq::<LinkV>::empty());
    assert(links_upserts(Seq::<LinkV>::empty()) == Seq::<(Seq<u8>, RowV)>::empty());
    assert(links_upserts(e.links) == link_upserts(l) + Seq::<(Seq<u8>, RowV)>::empty());
    assert(link_upserts(l) == ku + tu);
    assert(links_upserts(e.links) =~= ku + tu);
    assert(ups == seq![(entity_blob(e), row_of(e.value))] + links_upserts(e.links));
    // the key's own row is the last upsert of its identifier
    assert(ku == seq![kroot] + links_upserts(k.links));
    assert(seq![kroot].drop_first() =~= Seq::<(Seq<u8>, RowV)>::empty());
    assert(last_upsert(Seq::<(Seq<u8>, RowV)>::empty(), entity_blob(k)) is None);
    assert(last_upsert(seq![kroot].drop_first(), entity_blob(k)) is None);
    assert(seq![kroot][0] == kroot);
    assert(last_upsert(seq![kroot], entity_blob(k)) == Option::Some(kroot.1));
    lemma_last_upsert_avoid(links_upserts(k.links), entity_blob(k));
    lemma_last_upsert_append(seq![kroot], links_upserts(k.links), entity_blob(k));
    assert(last_upsert(ku, entity_blob(k)) == Option::Some(row_of(k.value)));
    lemma_last_upsert_avoid(tu, entity_blob(k));
    lemma_last_upsert_append(ku, tu, entity_blob(k));
    lemma_last_upsert_append(seq![(entity_blob(e), row_of(e.value))], ku + tu, entity_blob(k));
    assert(last_upsert(ups, entity_blob(k)) == Option::Some(row_of(k.value)));
    lemma_apply_upserts_lookup(m.values, ups, entity_blob(k));
    // the target's own row is the last upsert of its identifier
    assert(tu == seq![troot] + links_upserts(t.links));
    assert(seq![troot].drop_first() =~= Seq::<(Seq<u8>, RowV)>::empty());
    assert(last_upsert(Seq::<(Seq<u8>, RowV)>::empty(), entity_blob(t)) is None);
    assert(last_upsert(seq![troot].drop_first(), entity_blob(t)) is None);
    assert(seq![troot][0] == troot);
    assert(last_upsert(seq![troot], entity_blob(t)) == Option::Some(troot.1));
    lemma_last_upsert_avoid(links_upserts(t.links), entity_blob(t));
    lemma_last_upsert_append(seq![troot], links_upserts(t.links), entity_blob(t));
    assert(last_upsert(tu, entity_blob(t)) == Option::Some(row_of(t.value)));
    lemma_last_upsert_append(ku, tu, entity_blob(t));
    lemma_last_upsert_append(seq![(entity_blob(e), row_of(e.value))], ku + tu, entity_blob(t));
    assert(last_upsert(ups, entity_blob(t)) == Option::Some(row_of(t.value)));
    lemma_apply_upserts_lookup(m.values, ups, entity_blob(t));
}

} // verus!
