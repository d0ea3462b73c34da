//! The pool of component schemas: an insertion-ordered hash map from the
//! `indexmap` crate, seen through the map from names to schemas that it
//! holds.

use vstd::prelude::*;
use indexmap::IndexMap;
use std::hash::RandomState;
use crate::schema::Schema;

verus! {

/// `IndexMap` of the `indexmap` crate: a hash map that keeps its entries in
/// the order in which they were inserted. Nothing is known of a value of this
/// type but what the functions below say.
#[verifier::external_type_specification]
#[verifier::external_body]
#[verifier::reject_recursive_types(K)]
#[verifier::reject_recursive_types(V)]
#[verifier::reject_recursive_types(S)]
pub struct ExIndexMap<K, V, S>(IndexMap<K, V, S>);

/// The component schemas of a document, by name.
pub type SchemaPool = IndexMap<String, Schema, RandomState>;

/// The schemas that a pool holds, each under its name.
pub uninterp spec fn pool_schemas(pool: IndexMap<String, Schema, RandomState>) -> Map<Seq<char>, Schema>;

/// Whether a pool holds `count` schemas, one under each of `count` names.
pub open spec fn holds(pool: Map<Seq<char>, Schema>, count: nat) -> bool {
    pool.dom().finite() && pool.dom().len() == count
}

/// `IndexMap::len`: the number of entries. The pool holds that many
/// schemas, each under a name of its own.
#[verifier::external_body]
pub(crate) fn pool_len(pool: &SchemaPool) -> (count: usize)
    ensures
        holds(pool_schemas(*pool), count as nat),
{
    pool.len()
}

/// `IndexMap::get`: the schema stored under `name`, if there is one.
#[verifier::external_body]
pub(crate) fn pool_get<'a>(pool: &'a SchemaPool, name: &str) -> (r: Option<&'a Schema>)
    ensures
        match r {
            Some(s) => pool_schemas(*pool).contains_key(name@) && pool_schemas(*pool)[name@] == *s,
            None => !pool_schemas(*pool).contains_key(name@),
        },
{
    pool.get(name)
}

/// `IndexMap::swap_remove`: takes the schema stored under `name` out of the
/// pool and returns it; `None`, and the pool as it was, if there is none.
/// Every other name keeps its schema, and what is left is a finite map.
#[verifier::external_body]
pub(crate) fn pool_swap_remove(pool: &mut SchemaPool, name: &str) -> (r: Option<Schema>)
    ensures
        pool_schemas(*final(pool)) == pool_schemas(*old(pool)).remove(name@),
        pool_schemas(*final(pool)).dom().finite(),
        match r {
            Some(s) => pool_schemas(*old(pool)).contains_key(name@) && pool_schemas(*old(pool))[name@]
                == s,
            None => !pool_schemas(*old(pool)).contains_key(name@),
        },
{
    pool.swap_remove(name)
}

/// A schema of the pool with its name.
pub struct PoolEntry {
    pub name: String,
    pub schema: Schema,
}

/// Whether `entries` are the schemas of `pool`, each once, under its name.
pub open spec fn lists(entries: Seq<PoolEntry>, pool: Map<Seq<char>, Schema>) -> bool {
    &&& forall|i: int|
        0 <= i < entries.len() ==> pool.contains_key(#[trigger] entries[i].name@) && pool[entries[i].name@]
            == entries[i].schema
    &&& forall|i: int, j: int|
        0 <= i < j < entries.len() ==> #[trigger] entries[i].name@ != #[trigger] entries[j].name@
    &&& forall|k: Seq<char>| #[trigger]
        pool.contains_key(k) ==> exists|i: int| 0 <= i < entries.len() && #[trigger] entries[i].name@ == k
}

/// A pool without schemas.
pub open spec fn no_schemas() -> Map<Seq<char>, Schema> {
    Map::empty()
}

/// `IndexMap::drain` over the full range: takes every schema out of the
/// pool and returns them with their names, each once.
#[verifier::external_body]
pub(crate) fn pool_drain(pool: &mut SchemaPool) -> (entries: Vec<PoolEntry>)
    ensures
        pool_schemas(*final(pool)) == no_schemas(),
        lists(entries@, pool_schemas(*old(pool))),
{
    pool.drain(..).map(|(name, schema)| PoolEntry { name, schema }).collect()
}

/// `IndexMap::insert`: puts `schema` under `name` and returns the schema
/// that was there before, if there was one. Every other name keeps its
/// schema.
#[verifier::external_body]
pub(crate) fn pool_insert(pool: &mut SchemaPool, name: String, schema: Schema) -> (r: Option<Schema>)
    ensures
        pool_schemas(*final(pool)) == pool_schemas(*old(pool)).insert(name@, schema),
        match r {
            Some(s) => pool_schemas(*old(pool)).contains_key(name@) && pool_schemas(*old(pool))[name@]
                == s,
            None => !pool_schemas(*old(pool)).contains_key(name@),
        },
{
    pool.insert(name, schema)
}

} // verus!
