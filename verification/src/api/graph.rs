//! The closure of the named types: from a set of seed names, every schema
//! that can be reached through references, each resolved once.

use vstd::prelude::*;
use crate::api::error::SchemaError;
use crate::api::ir::{Type, TypeView};
use crate::api::refs::type_refs;
use crate::api::types::type_of;
use crate::api::{is_placeholder, placeholder, placeholder_name};
use crate::name_map::{
    ascending, entries_map, has_key, index_of_key, lemma_ascending_unique, lemma_entry_in_map, NameMap, NameSet,
};
use crate::pool::{pool_len, pool_schemas, pool_swap_remove, SchemaPool};
use crate::schema::Schema;
use crate::text::str_eq;

verus! {

/// Why a name that was reached has no type.
#[derive(Debug, PartialEq, Eq, Clone, Copy)]
pub enum SkipReason {
    /// The pool holds no schema of that name.
    NotFound,
    /// The schema of that name is `true` or `false`.
    BoolSchema,
    /// The schema of that name is outside the supported subset.
    Unsupported(SchemaError),
}

/// The named types reached from the seeds, and the names that were reached
/// but gave no type.
pub struct TypeGraph {
    pub types: NameMap<Type>,
    pub skipped: NameMap<SkipReason>,
}

/// What the schema stored under `name` resolves to.
#[verifier::opaque]
pub open spec fn resolution(pool: Map<Seq<char>, Schema>, name: Seq<char>) -> Result<TypeView, SkipReason> {
    if !pool.contains_key(name) {
        Err(SkipReason::NotFound)
    } else {
        match pool[name] {
            Schema::Bool(_) => Err(SkipReason::BoolSchema),
            Schema::Object(o) => match type_of(name, o) {
                Ok(t) => Ok(t),
                Err(e) => Err(SkipReason::Unsupported(e)),
            },
        }
    }
}

/// Whether the type that `a` resolves to refers to `b`, and `b` is a name
/// to follow.
pub open spec fn leads_to(pool: Map<Seq<char>, Schema>, a: Seq<char>, b: Seq<char>) -> bool {
    resolution(pool, a) is Ok && type_refs(resolution(pool, a)->Ok_0).contains(b) && b != placeholder_name()
}

/// Whether `path` starts at a seed and goes from each name to the next by a
/// reference.
pub open spec fn is_path(pool: Map<Seq<char>, Schema>, seeds: Set<Seq<char>>, path: Seq<Seq<char>>) -> bool {
    &&& path.len() > 0
    &&& seeds.contains(path[0])
    &&& forall|i: int| 0 <= i < path.len() - 1 ==> #[trigger] leads_to(pool, path[i], path[i + 1])
}

/// Whether `name` is a seed or can be reached from one through references.
pub open spec fn reachable(pool: Map<Seq<char>, Schema>, seeds: Set<Seq<char>>, name: Seq<char>) -> bool {
    exists|path: Seq<Seq<char>>| #[trigger] is_path(pool, seeds, path) && path.last() == name
}

/// The names that can be reached from the seeds.
pub open spec fn reachable_names(pool: Map<Seq<char>, Schema>, seeds: Set<Seq<char>>) -> Set<Seq<char>> {
    Set::new(|n: Seq<char>| reachable(pool, seeds, n))
}

/// The types of the closure: one for each reachable name that resolves.
pub open spec fn closure_types(pool: Map<Seq<char>, Schema>, seeds: Set<Seq<char>>) -> Map<Seq<char>, TypeView> {
    Map::new(
        |n: Seq<char>| reachable(pool, seeds, n) && resolution(pool, n) is Ok,
        |n: Seq<char>| resolution(pool, n)->Ok_0,
    )
}

/// The reachable names that do not resolve, each with the reason.
pub open spec fn closure_skipped(pool: Map<Seq<char>, Schema>, seeds: Set<Seq<char>>) -> Map<
    Seq<char>,
    SkipReason,
> {
    Map::new(
        |n: Seq<char>| reachable(pool, seeds, n) && resolution(pool, n) is Err,
        |n: Seq<char>| resolution(pool, n)->Err_0,
    )
}

/// The models of the types of a map.
pub open spec fn types_view(types: Map<Seq<char>, Type>) -> Map<Seq<char>, TypeView> {
    types.map_values(|t: Type| t@)
}

/// Every seed is reachable.
pub proof fn lemma_seed_reachable(pool: Map<Seq<char>, Schema>, seeds: Set<Seq<char>>, name: Seq<char>)
    requires
        seeds.contains(name),
    ensures
        reachable(pool, seeds, name),
{
    let path = seq![name];
    assert(is_path(pool, seeds, path));
    assert(path.last() == name);
}

/// What a reachable name refers to is reachable.
pub proof fn lemma_reach_step(pool: Map<Seq<char>, Schema>, seeds: Set<Seq<char>>, a: Seq<char>, b: Seq<char>)
    requires
        reachable(pool, seeds, a),
        leads_to(pool, a, b),
    ensures
        reachable(pool, seeds, b),
{
    let p = choose|path: Seq<Seq<char>>| #[trigger] is_path(pool, seeds, path) && path.last() == a;
    let q = p.push(b);
    assert forall|i: int| 0 <= i < q.len() - 1 implies #[trigger] leads_to(pool, q[i], q[i + 1]) by {
        if i < p.len() - 1 {
            assert(q[i] == p[i] && q[i + 1] == p[i + 1]);
            assert(leads_to(pool, p[i], p[i + 1]));
        }
    }
    assert(is_path(pool, seeds, q));
    assert(q.last() == b);
}

/// Whether a set holds every seed and, with a name, what the name refers to.
pub open spec fn closed_under_references(
    pool: Map<Seq<char>, Schema>,
    seeds: Set<Seq<char>>,
    names: Set<Seq<char>>,
) -> bool {
    &&& forall|s: Seq<char>| seeds.contains(s) ==> names.contains(s)
    &&& forall|a: Seq<char>, b: Seq<char>| names.contains(a) && #[trigger] leads_to(pool, a, b) ==> names.contains(b)
}

proof fn lemma_closed_holds_path(
    pool: Map<Seq<char>, Schema>,
    seeds: Set<Seq<char>>,
    names: Set<Seq<char>>,
    path: Seq<Seq<char>>,
    i: int,
)
    requires
        closed_under_references(pool, seeds, names),
        is_path(pool, seeds, path),
        0 <= i < path.len(),
    ensures
        names.contains(path[i]),
    decreases i,
{
    if i > 0 {
        lemma_closed_holds_path(pool, seeds, names, path, i - 1);
        assert(leads_to(pool, path[i - 1], path[i - 1 + 1]));
    }
}

/// A set that is closed under references holds every reachable name.
pub proof fn lemma_closed_holds_reachable(
    pool: Map<Seq<char>, Schema>,
    seeds: Set<Seq<char>>,
    names: Set<Seq<char>>,
    name: Seq<char>,
)
    requires
        closed_under_references(pool, seeds, names),
        reachable(pool, seeds, name),
    ensures
        names.contains(name),
{
    let p = choose|path: Seq<Seq<char>>| #[trigger] is_path(pool, seeds, path) && path.last() == name;
    lemma_closed_holds_path(pool, seeds, names, p, p.len() - 1);
}

/// Adds to the frontier the names of `refs` that are neither `name`, nor the
/// name of a type, nor the placeholder.
fn add_pending(frontier: &mut NameSet, refs: &NameSet, name: &str, types: &NameMap<Type>)
    ensures
        forall|m: Seq<char>| #[trigger]
            final(frontier).names().contains(m) <==> (old(frontier).names().contains(m) || (
            refs.names().contains(m) && m != name@ && m != placeholder_name() && !types.map().contains_key(
                m,
            ))),
{
    let count = refs.len();
    let mut j: usize = 0;
    proof {
        refs.lemma_ordered_names();
    }
    while j < count
        invariant
            j <= count,
            count == refs.ordered_names().len(),
            forall|i: int|
                0 <= i < refs.ordered_names().len() ==> refs.names().contains(
                    #[trigger] refs.ordered_names()[i],
                ),
            forall|m: Seq<char>| #[trigger]
                frontier.names().contains(m) <==> (old(frontier).names().contains(m) || (exists|i: int|
                    0 <= i < j && #[trigger] refs.ordered_names()[i] == m) && m != name@ && m
                    != placeholder_name() && !types.map().contains_key(m)),
        decreases count - j,
    {
        let m = refs.name_at(j);
        let ghost before = frontier.names();
        if !str_eq(m, name) && !is_placeholder(m) && !types.contains_key(m) {
            frontier.insert(m.to_owned());
        }
        proof {
            assert forall|q: Seq<char>| #[trigger]
                frontier.names().contains(q) <==> (old(frontier).names().contains(q) || (exists|i: int|
                    0 <= i < j + 1 && #[trigger] refs.ordered_names()[i] == q) && q != name@ && q
                    != placeholder_name() && !types.map().contains_key(q)) by {
                if exists|i: int| 0 <= i < j + 1 && #[trigger] refs.ordered_names()[i] == q {
                    let i = choose|i: int| 0 <= i < j + 1 && #[trigger] refs.ordered_names()[i] == q;
                    if i < j {
                        assert(before.contains(q) <==> (old(frontier).names().contains(q) || q != name@ && q
                            != placeholder_name() && !types.map().contains_key(q)));
                    }
                }
                if before.contains(q) && !old(frontier).names().contains(q) {
                    let i = choose|i: int| 0 <= i < j && #[trigger] refs.ordered_names()[i] == q;
                    assert(0 <= i < j + 1);
                }
            }
        }
        j += 1;
    }
    proof {
        assert forall|m: Seq<char>| #[trigger]
            frontier.names().contains(m) <==> (old(frontier).names().contains(m) || (
            refs.names().contains(m) && m != name@ && m != placeholder_name() && !types.map().contains_key(
                m,
            ))) by {
            if refs.names().contains(m) {
                let i = choose|i: int| 0 <= i < refs.ordered_names().len() && #[trigger] refs.ordered_names()[i] == m;
                assert(0 <= i < j);
            }
        }
    }
}

/// What holds between the pool at the start, the seeds, and the state of
/// the traversal.
pub open spec fn traversal_inv(
    pool0: Map<Seq<char>, Schema>,
    seeds: Set<Seq<char>>,
    pool: Map<Seq<char>, Schema>,
    frontier: Set<Seq<char>>,
    types: Map<Seq<char>, Type>,
    skipped: Map<Seq<char>, SkipReason>,
) -> bool {
    &&& pool == pool0.remove_keys(types.dom().union(skipped.dom()))
    &&& forall|n: Seq<char>| #[trigger] frontier.contains(n) ==> reachable(pool0, seeds, n)
    &&& forall|n: Seq<char>| #[trigger]
        types.contains_key(n) ==> reachable(pool0, seeds, n) && resolution(pool0, n) == Ok::<
            TypeView,
            SkipReason,
        >(types[n]@)
    &&& forall|n: Seq<char>| #[trigger]
        skipped.contains_key(n) ==> reachable(pool0, seeds, n) && resolution(pool0, n) == Err::<
            TypeView,
            SkipReason,
        >(skipped[n])
    &&& forall|n: Seq<char>| #[trigger]
        seeds.contains(n) ==> frontier.contains(n) || types.contains_key(n) || skipped.contains_key(n)
    &&& forall|n: Seq<char>, m: Seq<char>|
        types.contains_key(n) && #[trigger] type_refs(types[n]@).contains(m) && m != placeholder_name()
            ==> frontier.contains(m) || types.contains_key(m) || skipped.contains_key(m)
}

/// Once the frontier is empty, the traversal has found the closure.
pub proof fn lemma_traversal_done(
    pool0: Map<Seq<char>, Schema>,
    seeds: Set<Seq<char>>,
    pool: Map<Seq<char>, Schema>,
    types: Map<Seq<char>, Type>,
    skipped: Map<Seq<char>, SkipReason>,
)
    requires
        traversal_inv(pool0, seeds, pool, Set::empty(), types, skipped),
    ensures
        types_view(types) == closure_types(pool0, seeds),
        skipped == closure_skipped(pool0, seeds),
        pool == pool0.remove_keys(reachable_names(pool0, seeds)),
{
    let done = types.dom().union(skipped.dom());
    assert(closed_under_references(pool0, seeds, done)) by {
        assert forall|a: Seq<char>, b: Seq<char>|
            done.contains(a) && #[trigger] leads_to(pool0, a, b) implies done.contains(b) by {
            if types.contains_key(a) {
                assert(type_refs(types[a]@).contains(b));
            }
        }
    }
    assert forall|n: Seq<char>| reachable(pool0, seeds, n) implies done.contains(n) by {
        lemma_closed_holds_reachable(pool0, seeds, done, n);
    }
    assert(done =~= reachable_names(pool0, seeds));
    let ct = closure_types(pool0, seeds);
    let cs = closure_skipped(pool0, seeds);
    assert forall|n: Seq<char>| ct.contains_key(n) implies types.contains_key(n) by {
        assert(done.contains(n));
        if skipped.contains_key(n) {
            assert(resolution(pool0, n) is Err);
        }
    }
    assert forall|n: Seq<char>| types.contains_key(n) implies ct.contains_key(n) && types_view(types)[n]
        == ct[n] by {
        assert(resolution(pool0, n) == Ok::<TypeView, SkipReason>(types[n]@));
    }
    assert(types_view(types).dom() =~= ct.dom());
    assert(types_view(types) =~= ct);
    assert forall|n: Seq<char>| cs.contains_key(n) implies skipped.contains_key(n) by {
        assert(done.contains(n));
        if types.contains_key(n) {
            assert(resolution(pool0, n) is Ok);
        }
    }
    assert forall|n: Seq<char>| skipped.contains_key(n) implies cs.contains_key(n) && skipped[n] == cs[n] by {
        assert(resolution(pool0, n) == Err::<TypeView, SkipReason>(skipped[n]));
    }
    assert(skipped.dom() =~= cs.dom());
    assert(skipped =~= cs);
}

impl TypeGraph {
    /// Resolves every schema that can be reached from `seeds`, the
    /// placeholder aside, taking each out of the pool as it is resolved.
    /// The names are taken in ascending order, so that two runs on the same
    /// pool and seeds do the same work in the same order.
    pub fn close_over(schemas: &mut SchemaPool, seeds: NameSet) -> (r: TypeGraph)
        ensures
            types_view(r.types.map()) == closure_types(
                pool_schemas(*old(schemas)),
                seeds.names().remove(placeholder_name()),
            ),
            r.skipped.map() == closure_skipped(
                pool_schemas(*old(schemas)),
                seeds.names().remove(placeholder_name()),
            ),
            pool_schemas(*final(schemas)) == pool_schemas(*old(schemas)).remove_keys(
                reachable_names(pool_schemas(*old(schemas)), seeds.names().remove(placeholder_name())),
            ),
            ascending(r.types.entries()),
            ascending(r.skipped.entries()),
            r.types.entries().len() == closure_types(
                pool_schemas(*old(schemas)),
                seeds.names().remove(placeholder_name()),
            ).dom().len(),
            pool_schemas(*old(schemas)).dom().finite(),
            pool_schemas(*final(schemas)).dom().finite(),
            r.types.entries().len() + pool_schemas(*final(schemas)).dom().len() <= pool_schemas(
                *old(schemas),
            ).dom().len(),
    {
        let ghost pool0 = pool_schemas(*schemas);
        let ghost seed_names = seeds.names().remove(placeholder_name());
        // The pool holds finitely many schemas, and each is taken at most once.
        let _ = pool_len(schemas);
        let mut frontier = seeds;
        frontier.remove(placeholder());
        let mut types: NameMap<Type> = NameMap::new();
        let mut skipped: NameMap<SkipReason> = NameMap::new();
        let mut pending = frontier.len();
        proof {
            assert(pool0.remove_keys(types.map().dom().union(skipped.map().dom())) =~= pool0);
            assert forall|n: Seq<char>| #[trigger] frontier.names().contains(n) implies reachable(
                pool0,
                seed_names,
                n,
            ) by {
                lemma_seed_reachable(pool0, seed_names, n);
            }
        }
        while pending > 0
            invariant
                pool0.dom().finite(),
                frontier.names().finite(),
                pending == frontier.names().len(),
                traversal_inv(
                    pool0,
                    seed_names,
                    pool_schemas(*schemas),
                    frontier.names(),
                    types.map(),
                    skipped.map(),
                ),
            decreases pool_schemas(*schemas).dom().len(), pending,
        {
            let ghost pool_before = pool_schemas(*schemas);
            let ghost frontier_before = frontier.names();
            let ghost types_before = types.map();
            let ghost skipped_before = skipped.map();
            let ghost done_before = types_before.dom().union(skipped_before.dom());
            let name = match frontier.pop_first() {
                Some(name) => name,
                None => {
                    proof {
                        assert(frontier_before.len() == 0);
                    }
                    return TypeGraph { types, skipped };
                },
            };
            let ghost n0 = name@;
            assert(reachable(pool0, seed_names, n0));
            proof {
                reveal(resolution);
            }
            if types.contains_key(name.as_str()) || skipped.contains_key(name.as_str()) {
                // already settled: nothing to do
            } else {
                assert(!done_before.contains(n0));
                assert(pool_before.contains_key(n0) == pool0.contains_key(n0));
                let found = pool_swap_remove(schemas, name.as_str());
                proof {
                    assert(pool_schemas(*schemas) =~= pool0.remove_keys(done_before.insert(n0)));
                    if found is Some {
                        assert(pool_before.dom() =~= pool_schemas(*schemas).dom().insert(n0));
                    } else {
                        assert(pool_schemas(*schemas) =~= pool_before);
                    }
                }
                match found {
                    None => {
                        skipped.insert(name, SkipReason::NotFound);
                        proof {
                            assert(types.map().dom().union(skipped.map().dom()) =~= done_before.insert(n0));
                        }
                    },
                    Some(Schema::Bool(_)) => {
                        skipped.insert(name, SkipReason::BoolSchema);
                        proof {
                            assert(types.map().dom().union(skipped.map().dom()) =~= done_before.insert(n0));
                        }
                    },
                    Some(Schema::Object(obj)) => {
                        match Type::from_schema(name.clone(), &obj) {
                            Err(e) => {
                                skipped.insert(name, SkipReason::Unsupported(e));
                                proof {
                                    assert(types.map().dom().union(skipped.map().dom()) =~= done_before.insert(
                                        n0,
                                    ));
                                }
                            },
                            Ok(ty) => {
                                let refs = ty.referenced_components();
                                add_pending(&mut frontier, &refs, name.as_str(), &types);
                                proof {
                                    assert forall|m: Seq<char>| #[trigger]
                                        frontier.names().contains(m) implies reachable(pool0, seed_names, m) by {
                                        if !frontier_before.remove(n0).contains(m) {
                                            assert(leads_to(pool0, n0, m));
                                            lemma_reach_step(pool0, seed_names, n0, m);
                                        }
                                    }
                                }
                                types.insert(name, ty);
                                proof {
                                    assert(types.map().dom().union(skipped.map().dom()) =~= done_before.insert(
                                        n0,
                                    ));
                                }
                            },
                        }
                    },
                }
            }
            pending = frontier.len();
        }
        let count = types.len();
        let skipped_count = skipped.len();
        proof {
            assert(frontier.names() =~= Set::<Seq<char>>::empty());
            let taken = types.map().dom();
            let left = pool_schemas(*schemas).dom();
            assert(taken.union(left).subset_of(pool0.dom())) by {
                reveal(resolution);
            }
            assert(taken.disjoint(left));
            vstd::set_lib::lemma_len_subset(left, pool0.dom());
            vstd::set_lib::lemma_len_subset(taken.union(left), pool0.dom());
            vstd::set_lib::lemma_set_disjoint_lens(taken, left);
            lemma_traversal_done(pool0, seed_names, pool_schemas(*schemas), types.map(), skipped.map());
            assert(types_view(types.map()).dom() =~= types.map().dom());
        }
        TypeGraph { types, skipped }
    }
}

/// The entries of a map of types, each type by its model.
pub open spec fn type_entries_view(entries: Seq<(Seq<char>, Type)>) -> Seq<(Seq<char>, TypeView)> {
    Seq::new(entries.len(), |i: int| (entries[i].0, entries[i].1@))
}

/// The closure is a function of the pool and the seeds: two runs that start
/// from the same pool and the same seeds hold the same types under the same
/// names, in the same order.
pub proof fn lemma_closure_deterministic(
    pool: Map<Seq<char>, Schema>,
    seeds: Set<Seq<char>>,
    first: Seq<(Seq<char>, Type)>,
    second: Seq<(Seq<char>, Type)>,
)
    requires
        ascending(first),
        ascending(second),
        types_view(entries_map(first)) == closure_types(pool, seeds),
        types_view(entries_map(second)) == closure_types(pool, seeds),
    ensures
        type_entries_view(first) == type_entries_view(second),
{
    let a = type_entries_view(first);
    let b = type_entries_view(second);
    lemma_entries_view_map(first);
    lemma_entries_view_map(second);
    lemma_ascending_unique(a, b);
}

/// The map of the entries' models is the model of the entries' map.
pub proof fn lemma_entries_view_map(entries: Seq<(Seq<char>, Type)>)
    requires
        ascending(entries),
    ensures
        ascending(type_entries_view(entries)),
        entries_map(type_entries_view(entries)) == types_view(entries_map(entries)),
{
    let v = type_entries_view(entries);
    assert forall|i: int, j: int| 0 <= i < j < v.len() implies crate::text::lex_lt(
        #[trigger] v[i].0,
        #[trigger] v[j].0,
    ) by {
        assert(v[i].0 == entries[i].0 && v[j].0 == entries[j].0);
    }
    assert forall|k: Seq<char>| has_key(v, k) <==> has_key(entries, k) by {
        if has_key(v, k) {
            let i = index_of_key(v, k);
            assert(entries[i].0 == k);
        }
        if has_key(entries, k) {
            let i = index_of_key(entries, k);
            assert(v[i].0 == k);
        }
    }
    assert forall|k: Seq<char>| has_key(v, k) implies entries_map(v)[k] == types_view(entries_map(entries))[k] by {
        let i = index_of_key(v, k);
        lemma_entry_in_map(v, i);
        assert(entries[i].0 == k);
        lemma_entry_in_map(entries, i);
    }
    assert(entries_map(v) =~= types_view(entries_map(entries)));
}

/// A seed that the pool does not hold gives no type: the closure from it is
/// empty, and the seed is reported as not found.
pub proof fn lemma_missing_seed(pool: Map<Seq<char>, Schema>, name: Seq<char>)
    requires
        !pool.contains_key(name),
    ensures
        closure_types(pool, Set::empty().insert(name)) == Map::<Seq<char>, TypeView>::empty(),
        closure_skipped(pool, Set::empty().insert(name)) == Map::<Seq<char>, SkipReason>::empty().insert(
            name,
            SkipReason::NotFound,
        ),
{
    let seeds = Set::<Seq<char>>::empty().insert(name);
    reveal(resolution);
    assert(resolution(pool, name) == Err::<TypeView, SkipReason>(SkipReason::NotFound));
    assert(closed_under_references(pool, seeds, seeds));
    assert forall|n: Seq<char>| reachable(pool, seeds, n) implies n == name by {
        lemma_closed_holds_reachable(pool, seeds, seeds, n);
    }
    lemma_seed_reachable(pool, seeds, name);
    assert(closure_types(pool, seeds) =~= Map::<Seq<char>, TypeView>::empty());
    assert(closure_skipped(pool, seeds) =~= Map::<Seq<char>, SkipReason>::empty().insert(
        name,
        SkipReason::NotFound,
    ));
}

/// Every schema that is reachable and resolves has its type once among the
/// types of the closure, and every type of the closure is that of a
/// reachable schema.
pub proof fn lemma_each_type_once(
    pool: Map<Seq<char>, Schema>,
    seeds: Set<Seq<char>>,
    entries: Seq<(Seq<char>, Type)>,
)
    requires
        ascending(entries),
        types_view(entries_map(entries)) == closure_types(pool, seeds),
    ensures
        forall|n: Seq<char>|
            reachable(pool, seeds, n) && #[trigger] resolution(pool, n) is Ok ==> exists|i: int|
                {
                    &&& 0 <= i < entries.len()
                    &&& #[trigger] entries[i].0 == n
                    &&& entries[i].1@ == resolution(pool, n)->Ok_0
                    &&& forall|j: int| 0 <= j < entries.len() && #[trigger] entries[j].0 == n ==> j == i
                },
        forall|i: int|
            0 <= i < entries.len() ==> reachable(pool, seeds, #[trigger] entries[i].0) && resolution(
                pool,
                entries[i].0,
            ) is Ok,
{
    let types = entries_map(entries);
    assert forall|n: Seq<char>| reachable(pool, seeds, n) && #[trigger] resolution(pool, n) is Ok implies exists|
        i: int,
    |
        {
            &&& 0 <= i < entries.len()
            &&& #[trigger] entries[i].0 == n
            &&& entries[i].1@ == resolution(pool, n)->Ok_0
            &&& forall|j: int| 0 <= j < entries.len() && #[trigger] entries[j].0 == n ==> j == i
        } by {
        assert(closure_types(pool, seeds).contains_key(n));
        assert(types_view(types).contains_key(n));
        assert(types.contains_key(n));
        let i = index_of_key(entries, n);
        lemma_entry_in_map(entries, i);
        assert(types_view(types)[n] == types[n]@);
        assert forall|j: int| 0 <= j < entries.len() && #[trigger] entries[j].0 == n implies j == i by {
            crate::name_map::lemma_ascending_distinct(entries, i, j);
        }
    }
    assert forall|i: int| 0 <= i < entries.len() implies reachable(pool, seeds, #[trigger] entries[i].0)
        && resolution(pool, entries[i].0) is Ok by {
        lemma_entry_in_map(entries, i);
        assert(types_view(types).contains_key(entries[i].0));
        assert(closure_types(pool, seeds).contains_key(entries[i].0));
    }
}

/// Every type of the closure is what the schema of its name in the pool
/// resolves to, under that name, and that schema is among those that leave
/// the pool; what is left in the pool is as it was.
pub proof fn lemma_closure_takes_from_pool(pool: Map<Seq<char>, Schema>, seeds: Set<Seq<char>>)
    ensures
        forall|k: Seq<char>| #[trigger]
            closure_types(pool, seeds).contains_key(k) ==> {
                &&& pool.contains_key(k)
                &&& pool[k] matches Schema::Object(o)
                &&& type_of(k, o) == Ok::<TypeView, SchemaError>(closure_types(pool, seeds)[k])
                &&& closure_types(pool, seeds)[k].name == k
                &&& !pool.remove_keys(reachable_names(pool, seeds)).contains_key(k)
            },
        forall|k: Seq<char>| #[trigger]
            pool.remove_keys(reachable_names(pool, seeds)).contains_key(k) ==> pool.contains_key(k)
                && pool.remove_keys(reachable_names(pool, seeds))[k] == pool[k],
{
    reveal(resolution);
    assert forall|k: Seq<char>| #[trigger] closure_types(pool, seeds).contains_key(k) implies {
        &&& pool.contains_key(k)
        &&& pool[k] matches Schema::Object(o)
        &&& type_of(k, o) == Ok::<TypeView, SchemaError>(closure_types(pool, seeds)[k])
        &&& closure_types(pool, seeds)[k].name == k
        &&& !pool.remove_keys(reachable_names(pool, seeds)).contains_key(k)
    } by {
        assert(reachable(pool, seeds, k) && resolution(pool, k) is Ok);
        assert(reachable_names(pool, seeds).contains(k));
    }
}

} // verus!
