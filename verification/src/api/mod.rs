//! The API a client is generated for: resources, operations and named types.

pub mod error;
pub mod graph;
pub mod ir;
pub mod operation;
pub mod refs;
pub mod resources;
pub mod struct_enum;
pub mod typenames;
pub mod types;

use vstd::prelude::*;
use crate::api::graph::{closure_skipped, closure_types, reachable_names, types_view, SkipReason, TypeGraph};
use crate::api::ir::Type;
use crate::api::operation::IncludeMode;
use crate::api::resources::{
    from_openapi, level_well_named, lemma_well_named_trees_mergeable, merge_resources, merged_trees,
    resources_of, skipped_view, tree_refs, DraftView, MalformedSpec, MalformedSpecView, ResourceView,
    Resources, SkippedOperation,
};
use crate::name_map::{ascending, NameMap, NameSet};
use crate::openapi::Paths;
use crate::pool::{pool_schemas, SchemaPool};
use crate::text::{strip_prefix, texts};

verus! {

/// The schema name that stands for an untyped payload. It is no reference
/// to a schema: it is never resolved, no reference to it is followed, and
/// each target language has its own name for what it stands for.
pub open spec fn placeholder_name() -> Seq<char> {
    "Data"@
}

/// The schema name that stands for an untyped payload.
pub fn placeholder() -> (r: &'static str)
    ensures
        r@ == placeholder_name(),
{
    "Data"
}

/// Whether `name` is the name that stands for an untyped payload.
pub fn is_placeholder(name: &str) -> (r: bool)
    ensures
        r == (name@ == placeholder_name()),
{
    crate::text::str_eq(name, placeholder())
}

/// The prefix of a `$ref` that points at a component schema.
pub open spec fn schema_ref_prefix() -> Seq<char> {
    "#/components/schemas/"@
}

/// The schema name a `$ref` points at: what follows the component-schema
/// prefix, where the reference begins with it.
pub open spec fn schema_name_of(reference: Option<Seq<char>>) -> Option<Seq<char>> {
    match reference {
        Some(r) => if schema_ref_prefix().is_prefix_of(r) {
            Some(r.skip(schema_ref_prefix().len() as int))
        } else {
            None
        },
        None => None,
    }
}

/// The name of the component schema that `maybe_ref` points at.
pub fn get_schema_name(maybe_ref: Option<&str>) -> (r: Option<String>)
    ensures
        crate::json::opt_text(r) == schema_name_of(
            match maybe_ref {
                Some(s) => Some(s@),
                None => None,
            },
        ),
{
    match maybe_ref {
        Some(r) => match strip_prefix(r, "#/components/schemas/") {
            Some(name) => Some(name.to_owned()),
            None => None,
        },
        None => None,
    }
}

/// The API a client is generated for: the tree of its resources and the
/// named types that its operations reach.
pub struct Api {
    pub resources: Resources,
    pub types: NameMap<Type>,
}

/// What was met on the way and left out.
pub struct Report {
    pub skipped_operations: Vec<SkippedOperation>,
    pub skipped_schemas: NameMap<SkipReason>,
}

/// The names from which the closure of the types starts: what the
/// operations of the tree refer to, and, unless only specified operations
/// are taken, the payload schemas of the webhooks.
pub open spec fn seeds_of(tree: Map<Seq<char>, ResourceView>, webhooks: Seq<Seq<char>>, mode: IncludeMode) -> Set<
    Seq<char>,
> {
    match mode {
        IncludeMode::OnlySpecified => tree_refs(tree),
        _ => Set::new(|n: Seq<char>| webhooks.contains(n)).union(tree_refs(tree)),
    }
}

/// The named types that the operations of `res` reach, taken out of the
/// pool of component schemas.
pub fn from_referenced_components(
    res: &Resources,
    schemas: &mut SchemaPool,
    webhooks: &Vec<String>,
    include_mode: IncludeMode,
) -> (r: TypeGraph)
    ensures
        types_view(r.types.map()) == closure_types(
            pool_schemas(*old(schemas)),
            seeds_of(res.model(), texts(webhooks@), include_mode).remove(placeholder_name()),
        ),
        r.skipped.map() == closure_skipped(
            pool_schemas(*old(schemas)),
            seeds_of(res.model(), texts(webhooks@), include_mode).remove(placeholder_name()),
        ),
        pool_schemas(*final(schemas)) == pool_schemas(*old(schemas)).remove_keys(
            reachable_names(
                pool_schemas(*old(schemas)),
                seeds_of(res.model(), texts(webhooks@), include_mode).remove(placeholder_name()),
            ),
        ),
        ascending(r.types.entries()),
        ascending(r.skipped.entries()),
        r.types.entries().len() == closure_types(
            pool_schemas(*old(schemas)),
            seeds_of(res.model(), texts(webhooks@), include_mode).remove(placeholder_name()),
        ).dom().len(),
        pool_schemas(*old(schemas)).dom().finite(),
        pool_schemas(*final(schemas)).dom().finite(),
        r.types.entries().len() + pool_schemas(*final(schemas)).dom().len() <= pool_schemas(
            *old(schemas),
        ).dom().len(),
{
    let mut seeds = NameSet::new();
    let with_webhooks = match include_mode {
        IncludeMode::OnlySpecified => false,
        _ => true,
    };
    let ghost hooks = texts(webhooks@);
    if with_webhooks {
        let mut i: usize = 0;
        while i < webhooks.len()
            invariant
                i <= webhooks.len(),
                hooks == texts(webhooks@),
                forall|n: Seq<char>| #[trigger]
                    seeds.names().contains(n) <==> exists|j: int| 0 <= j < i && #[trigger] hooks[j] == n,
            decreases webhooks.len() - i,
        {
            let ghost before = seeds.names();
            seeds.insert(webhooks[i].clone());
            proof {
                assert(hooks[i as int] == webhooks@[i as int]@);
                assert forall|n: Seq<char>| #[trigger]
                    seeds.names().contains(n) <==> exists|j: int| 0 <= j < i + 1 && #[trigger] hooks[j] == n by {
                    if exists|j: int| 0 <= j < i + 1 && #[trigger] hooks[j] == n {
                        let j = choose|j: int| 0 <= j < i + 1 && #[trigger] hooks[j] == n;
                        if j < i {
                            assert(before.contains(n));
                        }
                    }
                    if before.contains(n) {
                        let j = choose|j: int| 0 <= j < i && #[trigger] hooks[j] == n;
                        assert(0 <= j < i + 1);
                    }
                }
            }
            i += 1;
        }
        proof {
            assert(seeds.names() =~= Set::new(|n: Seq<char>| hooks.contains(n))) by {
                assert forall|n: Seq<char>| hooks.contains(n) implies seeds.names().contains(n) by {
                    let j = choose|j: int| 0 <= j < hooks.len() && hooks[j] == n;
                    assert(hooks[j] == n);
                }
            }
        }
    }
    res.referenced_components(&mut seeds);
    proof {
        assert(seeds.names() =~= seeds_of(res.model(), hooks, include_mode));
    }
    TypeGraph::close_over(schemas, seeds)
}

impl Api {
    /// The API of a document: the operations of its paths that are taken
    /// in, and the named types that they reach. The schemas of those types
    /// are taken out of `components`.
    pub fn new(
        paths: &Paths,
        components: &mut SchemaPool,
        webhooks: &Vec<String>,
        include_mode: IncludeMode,
        excluded_operations: &NameSet,
        specified_operations: &NameSet,
    ) -> (r: Result<(Api, Report), MalformedSpec>)
        ensures
            match r {
                Ok((api, report)) => {
                    let pool = pool_schemas(*old(components));
                    let seeds = seeds_of(api.resources.model(), texts(webhooks@), include_mode).remove(
                        placeholder_name(),
                    );
                    &&& resources_of(
                        *paths,
                        pool,
                        include_mode,
                        excluded_operations.names(),
                        specified_operations.names(),
                    ) == Ok::<DraftView, MalformedSpecView>(
                        DraftView {
                            tree: api.resources.model(),
                            skipped: skipped_view(report.skipped_operations@),
                        },
                    )
                    &&& level_well_named(api.resources.model(), None)
                    &&& types_view(api.types.map()) == closure_types(pool, seeds)
                    &&& report.skipped_schemas.map() == closure_skipped(pool, seeds)
                    &&& pool_schemas(*final(components)) == pool.remove_keys(reachable_names(pool, seeds))
                    &&& ascending(api.types.entries())
                    &&& api.types.entries().len() + pool_schemas(*final(components)).dom().len()
                        <= pool.dom().len()
                },
                Err(e) => {
                    &&& resources_of(
                        *paths,
                        pool_schemas(*old(components)),
                        include_mode,
                        excluded_operations.names(),
                        specified_operations.names(),
                    ) == Err::<DraftView, MalformedSpecView>(e@)
                    &&& pool_schemas(*final(components)) == pool_schemas(*old(components))
                },
            },
    {
        let draft = match from_openapi(
            paths,
            components,
            include_mode,
            excluded_operations,
            specified_operations,
        ) {
            Ok(draft) => draft,
            Err(e) => {
                return Err(e);
            },
        };
        let graph = from_referenced_components(&draft.resources, components, webhooks, include_mode);
        let TypeGraph { types, skipped } = graph;
        let crate::api::resources::Draft { resources, skipped: skipped_operations } = draft;
        Ok((Api { resources, types }, Report { skipped_operations, skipped_schemas: skipped }))
    }

    /// The resources of the first `n` of `items`, merged.
    pub open spec fn resources_upto(items: Seq<Api>, n: nat) -> Map<Seq<char>, ResourceView>
        decreases n,
    {
        if n == 0 {
            Map::empty()
        } else {
            merged_trees(Api::resources_upto(items, (n - 1) as nat), items[n - 1].resources.model())
        }
    }

    /// The types of the first `n` of `items`; where two have a name, the
    /// type of the later one stays.
    pub open spec fn types_upto(items: Seq<Api>, n: nat) -> Map<Seq<char>, Type>
        decreases n,
    {
        if n == 0 {
            Map::empty()
        } else {
            Api::types_upto(items, (n - 1) as nat).union_prefer_right(items[n - 1].types.map())
        }
    }

    /// Several partial APIs as one: their resources merged, and their
    /// types together.
    pub fn from_iter(items: Vec<Api>) -> (r: Api)
        requires
            forall|i: int| 0 <= i < items@.len() ==> level_well_named(#[trigger] items@[i].resources.model(), None),
        ensures
            r.resources.model() == Api::resources_upto(items@, items@.len()),
            r.types.map() == Api::types_upto(items@, items@.len()),
            level_well_named(r.resources.model(), None),
    {
        let mut api = Api { resources: Resources::new(), types: NameMap::new() };
        let mut rest = items;
        let mut done: usize = 0;
        let total = rest.len();
        while done < total
            invariant
                done <= total,
                total == items@.len(),
                rest@ == items@.skip(done as int),
                forall|i: int| 0 <= i < items@.len() ==> level_well_named(
                    #[trigger] items@[i].resources.model(),
                    None,
                ),
                api.resources.model() == Api::resources_upto(items@, done as nat),
                api.types.map() == Api::types_upto(items@, done as nat),
                level_well_named(api.resources.model(), None),
            decreases total - done,
        {
            let item = rest.remove(0);
            proof {
                assert(item == items@[done as int]);
                assert(rest@ =~= items@.skip(done + 1));
                lemma_well_named_trees_mergeable(api.resources.model(), item.resources.model(), None);
            }
            let Api { resources, types } = item;
            merge_resources(&mut api.resources, resources);
            api.types.extend(types);
            done += 1;
        }
        api
    }
}

} // verus!
