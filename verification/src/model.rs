//! The mathematical model of the relational store.
//!
//! The substrate is modelled by exactly what its tables hold: the value
//! table keyed by the 16-byte identifier blob, the link table as the
//! sequence of its rows in insertion order, the recorded schema version,
//! and — while the store is still at version 1 — the legacy tables keyed
//! by decimal identifier text together with the re-encoded identifiers the
//! migration has assigned so far.

use vstd::prelude::*;

use crate::value::RowV;

verus! {

/// One row of the link table: `(source, key, target)` identifier blobs;
/// the key is NULL for unkeyed links.
pub type LinkRowV = (Seq<u8>, Option<Seq<u8>>, Seq<u8>);

/// One row of the version-1 link table: decimal identifier text.
pub type V1LinkRowV = (Seq<char>, Option<Seq<char>>, Seq<char>);

/// The full contents of the store.
pub struct StoreModel {
    /// The recorded schema version.
    pub version: int,
    /// The value table of the current schema, keyed by identifier blob.
    pub values: Map<Seq<u8>, RowV>,
    /// The link table of the current schema, in insertion order.
    pub links: Seq<LinkRowV>,
    /// The version-1 value table, keyed by decimal identifier text.
    pub v1_values: Map<Seq<char>, RowV>,
    /// The version-1 link table, in insertion order.
    pub v1_links: Seq<V1LinkRowV>,
    /// The re-encoded identifier blob assigned to each version-1 value row
    /// so far by the running migration.
    pub v1_value_uuids: Map<Seq<char>, Seq<u8>>,
    /// The re-encoded identifier triple assigned to each distinct version-1
    /// link row so far by the running migration.
    pub v1_link_uuids: Map<V1LinkRowV, LinkRowV>,
}

impl StoreModel {
    /// The model of a freshly created, uninitialized store.
    pub open spec fn fresh() -> StoreModel {
        StoreModel {
            version: 0,
            values: Map::empty(),
            links: Seq::empty(),
            v1_values: Map::empty(),
            v1_links: Seq::empty(),
            v1_value_uuids: Map::empty(),
            v1_link_uuids: Map::empty(),
        }
    }
}

/// The predicate selecting link rows with the given source.
pub open spec fn src_pred(src: Seq<u8>) -> spec_fn(LinkRowV) -> bool {
    |l: LinkRowV| l.0 == src
}

/// The projection of a link row onto its `(key, target)` pair.
pub open spec fn kt_fn() -> spec_fn(LinkRowV) -> (Option<Seq<u8>>, Seq<u8>) {
    |l: LinkRowV| (l.1, l.2)
}

/// The link rows with the given source, in order, as `(key, target)` pairs:
/// what a link query for that source returns.
pub open spec fn links_from(links: Seq<LinkRowV>, src: Seq<u8>) -> Seq<(Option<Seq<u8>>, Seq<u8>)> {
    links.filter(src_pred(src)).map_values(kt_fn())
}

/// The source blob of a link row.
pub open spec fn src_of_fn() -> spec_fn(LinkRowV) -> Seq<u8> {
    |l: LinkRowV| l.0
}

/// Every identifier the store holds: the key of every value row and the
/// source of every link row.
pub open spec fn all_id_blobs(m: StoreModel) -> Set<Seq<u8>> {
    m.values.dom().union(m.links.map_values(src_of_fn()).to_set())
}

/// A decoded identifier list covers exactly the store's identifiers, each
/// exactly once: every entry re-encodes to a held identifier blob, every
/// held blob is the encoding of some entry, and no identifier repeats.
pub open spec fn ids_cover(v: Seq<crate::id::SqlID>, m: StoreModel) -> bool {
    &&& forall|i: int|
        0 <= i < v.len() ==> all_id_blobs(m).contains(crate::id::id_bytes(#[trigger] v[i]@))
    &&& forall|b: Seq<u8>| #[trigger]
        all_id_blobs(m).contains(b) ==> exists|i: int|
            0 <= i < v.len() && crate::id::id_bytes(#[trigger] v[i]@) == b
    &&& forall|i: int, j: int| 0 <= i < j < v.len() ==> #[trigger] v[i]@ != #[trigger] v[j]@
}

/// Every version-1 value row survives into the final value table under the
/// identifier blob the migration assigned to it, and nothing else appears
/// there.
pub open spec fn values_migrated(m: StoreModel, f: StoreModel) -> bool {
    &&& forall|id: Seq<char>| #[trigger]
        m.v1_values.contains_key(id) ==> m.v1_value_uuids.contains_key(id)
            && f.values.contains_key(m.v1_value_uuids[id]) && f.values[m.v1_value_uuids[id]]
            == m.v1_values[id]
    &&& forall|k: Seq<u8>| #[trigger]
        f.values.contains_key(k) ==> exists|id: Seq<char>|
            m.v1_values.contains_key(id) && #[trigger] m.v1_value_uuids[id] == k
}

/// Every version-1 link row survives into the final link table, in order,
/// as the identifier triple the migration assigned to it.
pub open spec fn links_migrated(m: StoreModel, f: StoreModel) -> bool {
    &&& f.links.len() == m.v1_links.len()
    &&& forall|i: int|
        0 <= i < m.v1_links.len() ==> m.v1_link_uuids.contains_key(#[trigger] m.v1_links[i])
            && f.links[i] == m.v1_link_uuids[m.v1_links[i]]
}

/// The full effect of the final migration step: the re-encoded tables
/// replace the version-1 tables, with no data loss, and the recorded
/// version advances to 2.
pub open spec fn store_migrated(m: StoreModel, f: StoreModel) -> bool {
    &&& f.version == 2
    &&& values_migrated(m, f)
    &&& links_migrated(m, f)
    &&& f.v1_values == Map::<Seq<char>, RowV>::empty()
    &&& f.v1_links == Seq::<V1LinkRowV>::empty()
    &&& f.v1_value_uuids == Map::<Seq<char>, Seq<u8>>::empty()
    &&& f.v1_link_uuids == Map::<V1LinkRowV, LinkRowV>::empty()
}

/// How one raw link-query row corresponds to a modelled link row.
pub open spec fn link_pair_matches(p: (Option<Vec<u8>>, Vec<u8>), q: (
    Option<Seq<u8>>,
    Seq<u8>,
)) -> bool {
    &&& p.1@ == q.1
    &&& (p.0 is Some <==> q.0 is Some)
    &&& (p.0 is Some ==> p.0->0@ == q.0->0)
}

/// How one raw version-1 link row corresponds to a modelled one.
pub open spec fn v1_link_pair_matches(p: (String, Option<String>, String), q: V1LinkRowV) -> bool {
    &&& p.0@ == q.0
    &&& (p.1 is Some <==> q.1 is Some)
    &&& (p.1 is Some ==> p.1->0@ == q.1->0)
    &&& p.2@ == q.2
}

} // verus!
