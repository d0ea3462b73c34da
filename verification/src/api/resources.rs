//! The tree of resources that the operations of an API are grouped into.

use vstd::prelude::*;
use crate::api::operation::{
    operation_of, operations_view, IncludeMode, MalformedKind, Operation, OperationView, Outcome, SkipCause,
};
use crate::api::refs::referenced_schema_of;
use crate::json::{duplicate_opt_string, opt_text};
use crate::name_map::NameSet;
use crate::openapi;
use crate::openapi::{method_name, PathEntry, PathItem, Paths, ReferenceOr};
use crate::pool::{pool_schemas, SchemaPool};
use crate::schema::Schema;
use crate::name_map::{
    ascending, entries_map, entries_of, has_key, index_of_key, insert_entry, lemma_entries_map_len,
    lemma_entry_in_map, position, take_entry_at,
};
use crate::text::{joined_upto, str_eq, texts};

verus! {

/// A named group of operations, with the groups below it.
pub struct Resource {
    pub name: String,
    pub operations: Vec<Operation>,
    pub subresources: Resources,
}

/// Resources by the last segment of their path, in ascending order.
pub struct Resources {
    held: Vec<(String, Resource)>,
}

/// The model of a resource: the resources below it by their keys.
pub struct ResourceView {
    pub name: Seq<char>,
    pub operations: Seq<OperationView>,
    pub subresources: Map<Seq<char>, ResourceView>,
}

/// A resource with no operation and nothing below it.
pub open spec fn empty_resource(name: Seq<char>) -> ResourceView {
    ResourceView { name, operations: Seq::empty(), subresources: Map::empty() }
}

impl Resources {
    #[verifier::type_invariant]
    spec fn ordered(&self) -> bool {
        ascending(entries_of(self.held@))
    }

    /// The entries in ascending order of their keys.
    pub closed spec fn entries(&self) -> Seq<(Seq<char>, Resource)> {
        entries_of(self.held@)
    }

    /// The resource under each key.
    pub open spec fn map(&self) -> Map<Seq<char>, Resource> {
        entries_map(self.entries())
    }

    /// The model of the resource under each key.
    pub open spec fn model(&self) -> Map<Seq<char>, ResourceView> {
        tree_model(self.map())
    }

    /// A resource of the map is a part of the map.
    pub proof fn lemma_value_decreases(&self, key: Seq<char>)
        requires
            self.map().contains_key(key),
        ensures
            decreases_to!(*self => self.map()[key]),
    {
        let i = index_of_key(self.entries(), key);
        assert(has_key(self.entries(), key));
        assert(self.map()[key] == self.held@[i].1);
        assert(decreases_to!(self.held => self.held@[i]));
    }
}

impl Resource {
    /// The resource with the models of its operations and of the resources
    /// below it.
    pub open spec fn model(&self) -> ResourceView
        decreases self,
    {
        ResourceView {
            name: self.name@,
            operations: operations_view(self.operations@),
            subresources: Map::new(
                |k: Seq<char>| self.subresources.map().contains_key(k),
                |k: Seq<char>|
                    if self.subresources.map().contains_key(k) {
                        proof {
                            self.subresources.lemma_value_decreases(k);
                        }
                        self.subresources.map()[k].model()
                    } else {
                        empty_resource(Seq::empty())
                    },
            ),
        }
    }
}

impl View for Resource {
    type V = ResourceView;

    open spec fn view(&self) -> ResourceView {
        self.model()
    }
}

/// The models of the resources of a map.
pub open spec fn tree_model(resources: Map<Seq<char>, Resource>) -> Map<Seq<char>, ResourceView> {
    Map::new(|k: Seq<char>| resources.contains_key(k), |k: Seq<char>| resources[k]@)
}

/// The model of a resource holds the models of the resources below it.
pub proof fn lemma_resource_model(r: Resource)
    ensures
        r@.name == r.name@,
        r@.operations == operations_view(r.operations@),
        r@.subresources == r.subresources.model(),
{
    assert(r@.subresources =~= r.subresources.model());
}

/// Putting a resource under a key puts its model under the key.
pub proof fn lemma_tree_model_insert(resources: Map<Seq<char>, Resource>, key: Seq<char>, value: Resource)
    ensures
        tree_model(resources.insert(key, value)) == tree_model(resources).insert(key, value@),
{
    assert(tree_model(resources.insert(key, value)) =~= tree_model(resources).insert(key, value@));
}

/// Taking the resource under a key out takes its model out.
pub proof fn lemma_tree_model_remove(resources: Map<Seq<char>, Resource>, key: Seq<char>)
    ensures
        tree_model(resources.remove(key)) == tree_model(resources).remove(key),
{
    assert(tree_model(resources.remove(key)) =~= tree_model(resources).remove(key));
}

impl Resources {
    /// No resources.
    pub fn new() -> (r: Resources)
        ensures
            r.map() == Map::<Seq<char>, Resource>::empty(),
            r.model() == Map::<Seq<char>, ResourceView>::empty(),
    {
        let r = Resources { held: Vec::new() };
        assert(r.map() =~= Map::<Seq<char>, Resource>::empty());
        assert(r.model() =~= Map::<Seq<char>, ResourceView>::empty());
        r
    }

    /// The number of resources at this level.
    pub fn len(&self) -> (n: usize)
        ensures
            n == self.entries().len(),
            ascending(self.entries()),
            self.map().dom().finite(),
            n == self.map().dom().len(),
    {
        proof {
            use_type_invariant(self);
            lemma_entries_map_len(self.entries());
        }
        self.held.len()
    }

    /// The key of the resource at position `i`.
    pub fn key_at(&self, i: usize) -> (k: &str)
        requires
            i < self.entries().len(),
        ensures
            k@ == self.entries()[i as int].0,
            self.map().contains_key(k@),
    {
        proof {
            use_type_invariant(self);
            lemma_entry_in_map(self.entries(), i as int);
        }
        self.held[i].0.as_str()
    }

    /// The resource at position `i`.
    pub fn value_at(&self, i: usize) -> (v: &Resource)
        requires
            i < self.entries().len(),
        ensures
            *v == self.entries()[i as int].1,
            self.map().contains_key(self.entries()[i as int].0),
            self.map()[self.entries()[i as int].0] == *v,
    {
        proof {
            use_type_invariant(self);
            lemma_entry_in_map(self.entries(), i as int);
        }
        &self.held[i].1
    }

    /// The resource under `key`.
    pub fn get(&self, key: &str) -> (r: Option<&Resource>)
        ensures
            match r {
                Some(v) => self.map().contains_key(key@) && self.map()[key@] == *v,
                None => !self.map().contains_key(key@),
            },
    {
        proof {
            use_type_invariant(self);
        }
        let (i, found) = position(&self.held, key);
        if found {
            Some(&self.held[i].1)
        } else {
            None
        }
    }

    /// Puts `value` under `key` and hands back what was there before.
    pub fn insert(&mut self, key: String, value: Resource) -> (r: Option<Resource>)
        ensures
            final(self).map() == old(self).map().insert(key@, value),
            final(self).model() == old(self).model().insert(key@, value@),
            match r {
                Some(v) => old(self).map().contains_key(key@) && old(self).map()[key@] == v,
                None => !old(self).map().contains_key(key@),
            },
    {
        proof {
            use_type_invariant(&*self);
            lemma_tree_model_insert(self.map(), key@, value);
        }
        let mut held: Vec<(String, Resource)> = Vec::new();
        std::mem::swap(&mut self.held, &mut held);
        let r = insert_entry(&mut held, key, value);
        std::mem::swap(&mut self.held, &mut held);
        r
    }

    /// Takes the resource under `key` out.
    pub fn remove(&mut self, key: &str) -> (r: Option<Resource>)
        ensures
            final(self).map() == old(self).map().remove(key@),
            final(self).model() == old(self).model().remove(key@),
            match r {
                Some(v) => old(self).map().contains_key(key@) && old(self).map()[key@] == v,
                None => !old(self).map().contains_key(key@),
            },
    {
        proof {
            use_type_invariant(&*self);
            lemma_tree_model_remove(self.map(), key@);
        }
        let (i, found) = position(&self.held, key);
        if found {
            let mut held: Vec<(String, Resource)> = Vec::new();
            std::mem::swap(&mut self.held, &mut held);
            let (_, value) = take_entry_at(&mut held, i);
            std::mem::swap(&mut self.held, &mut held);
            Some(value)
        } else {
            assert(self.map().remove(key@) =~= self.map());
            None
        }
    }

    /// Takes the resource with the least key out.
    pub fn pop_first(&mut self) -> (r: Option<(String, Resource)>)
        ensures
            match r {
                Some(entry) => {
                    &&& old(self).map().contains_key(entry.0@)
                    &&& old(self).map()[entry.0@] == entry.1
                    &&& final(self).map() == old(self).map().remove(entry.0@)
                    &&& final(self).model() == old(self).model().remove(entry.0@)
                    &&& final(self).entries().len() + 1 == old(self).entries().len()
                },
                None => old(self).entries().len() == 0 && old(self).map() == Map::<
                    Seq<char>,
                    Resource,
                >::empty() && final(self).map() == old(self).map(),
            },
    {
        proof {
            use_type_invariant(&*self);
        }
        if self.held.len() == 0 {
            assert(self.map() =~= Map::<Seq<char>, Resource>::empty());
            None
        } else {
            let mut held: Vec<(String, Resource)> = Vec::new();
            std::mem::swap(&mut self.held, &mut held);
            let entry = take_entry_at(&mut held, 0);
            std::mem::swap(&mut self.held, &mut held);
            proof {
                lemma_tree_model_remove(old(self).map(), entry.0@);
            }
            Some(entry)
        }
    }
}

impl Resource {
    /// A resource with no operation and nothing below it.
    pub fn new(name: String) -> (r: Resource)
        ensures
            r@ == empty_resource(name@),
    {
        let r = Resource { name, operations: Vec::new(), subresources: Resources::new() };
        proof {
            lemma_resource_model(r);
            assert(r@.operations =~= Seq::<OperationView>::empty());
        }
        r
    }
}

/// The separator between the segments of a resource's name.
pub open spec fn name_separator() -> Seq<char> {
    "-"@
}

/// The tree once `op` has been added at the resource path `path`, of which
/// the first `depth` segments lead to `tree`: every resource on the way is
/// created if it is missing, named by the segments up to it joined by
/// dashes, and the operation is appended to the last one.
pub open spec fn with_operation(
    tree: Map<Seq<char>, ResourceView>,
    path: Seq<Seq<char>>,
    depth: nat,
    op: OperationView,
) -> Map<Seq<char>, ResourceView>
    decreases path.len() - depth,
{
    if depth >= path.len() {
        tree
    } else {
        let segment = path[depth as int];
        let node = if tree.contains_key(segment) {
            tree[segment]
        } else {
            empty_resource(joined_upto(path, name_separator(), depth + 1))
        };
        let changed = if depth + 1 == path.len() {
            ResourceView {
                name: node.name,
                operations: node.operations.push(op),
                subresources: node.subresources,
            }
        } else {
            ResourceView {
                name: node.name,
                operations: node.operations,
                subresources: with_operation(node.subresources, path, depth + 1, op),
            }
        };
        tree.insert(segment, changed)
    }
}

impl Resources {
    /// Adds `op` at the resource path `path`: every resource on the way is
    /// created if it is missing, named by the segments up to it joined by
    /// dashes, and the operation is appended to the last one.
    pub fn insert_operation(&mut self, path: &Vec<String>, op: Operation)
        requires
            path@.len() > 0,
        ensures
            final(self).model() == with_operation(old(self).model(), texts(path@), 0, op@),
    {
        let top = String::new();
        self.add_operation(path, 0, top.as_str(), op);
    }

    /// Adds `op` at the resource path `path`, of which the first `depth`
    /// segments lead to this level; `parent` is the name of the resource
    /// that holds this level.
    fn add_operation(&mut self, path: &Vec<String>, depth: usize, parent: &str, op: Operation)
        requires
            depth < path@.len(),
            parent@ == joined_upto(texts(path@), name_separator(), depth as nat),
        ensures
            final(self).model() == with_operation(old(self).model(), texts(path@), depth as nat, op@),
        decreases path@.len() - depth,
    {
        let count = path.len();
        let segment = path[depth].as_str();
        let ghost names = texts(path@);
        assert(names[depth as int] == segment@);
        let mut here = parent.to_owned();
        if depth > 0 {
            here.append("-");
        }
        here.append(segment);
        proof {
            if depth == 0 {
                assert(Seq::<char>::empty() + segment@ =~= segment@);
            }
            assert(here@ == joined_upto(names, name_separator(), (depth + 1) as nat));
        }
        let mut node = match self.remove(segment) {
            Some(node) => node,
            None => Resource::new(here.clone()),
        };
        proof {
            lemma_resource_model(node);
        }
        let ghost before = node@;
        if depth + 1 == count {
            node.operations.push(op);
            proof {
                lemma_resource_model(node);
                assert(node@.operations =~= before.operations.push(op@));
            }
        } else {
            let Resource { name, operations, subresources } = node;
            let mut below = subresources;
            below.add_operation(path, depth + 1, here.as_str(), op);
            node = Resource { name, operations, subresources: below };
            proof {
                lemma_resource_model(node);
            }
        }
        let ghost removed = self.model();
        self.insert(segment.to_owned(), node);
        proof {
            assert(removed.insert(segment@, node@) =~= old(self).model().insert(segment@, node@));
        }
    }
}

/// The name of the resource under `key` at a level whose holder is named
/// `parent`; at the top level the key itself.
pub open spec fn child_name(parent: Option<Seq<char>>, key: Seq<char>) -> Seq<char> {
    match parent {
        None => key,
        Some(p) => p + name_separator() + key,
    }
}

/// Whether `r` and every resource below it is named by its path: the
/// segments from the root, joined by dashes.
pub open spec fn well_named(r: ResourceView, name: Seq<char>) -> bool
    decreases r,
{
    &&& r.name == name
    &&& forall|k: Seq<char>| #[trigger]
        r.subresources.contains_key(k) ==> well_named(r.subresources[k], child_name(Some(name), k))
}

/// Whether every resource of a level, and every resource below, is named by
/// its path.
pub open spec fn level_well_named(tree: Map<Seq<char>, ResourceView>, parent: Option<Seq<char>>) -> bool {
    forall|k: Seq<char>| #[trigger] tree.contains_key(k) ==> well_named(tree[k], child_name(parent, k))
}

/// The name of the holder of the level that the first `depth` segments of
/// `path` lead to.
pub open spec fn holder_name(path: Seq<Seq<char>>, depth: nat) -> Option<Seq<char>> {
    if depth == 0 {
        None
    } else {
        Some(joined_upto(path, name_separator(), depth))
    }
}

/// Adding an operation keeps every resource named by its path.
pub proof fn lemma_with_operation_well_named(
    tree: Map<Seq<char>, ResourceView>,
    path: Seq<Seq<char>>,
    depth: nat,
    op: OperationView,
)
    requires
        level_well_named(tree, holder_name(path, depth)),
    ensures
        level_well_named(with_operation(tree, path, depth, op), holder_name(path, depth)),
    decreases path.len() - depth,
{
    if depth < path.len() {
        let segment = path[depth as int];
        let parent = holder_name(path, depth);
        let name = joined_upto(path, name_separator(), depth + 1);
        assert(child_name(parent, segment) == name) by {
            if depth == 0 {
            } else {
                assert(joined_upto(path, name_separator(), depth + 1) == joined_upto(
                    path,
                    name_separator(),
                    depth,
                ) + name_separator() + path[depth as int]);
            }
        }
        let node = if tree.contains_key(segment) {
            tree[segment]
        } else {
            empty_resource(name)
        };
        assert(well_named(node, name));
        assert(holder_name(path, depth + 1) == Some(name));
        if depth + 1 < path.len() {
            lemma_with_operation_well_named(node.subresources, path, depth + 1, op);
        }
        let after = with_operation(tree, path, depth, op);
        assert forall|k: Seq<char>| #[trigger] after.contains_key(k) implies well_named(
            after[k],
            child_name(parent, k),
        ) by {
            if k != segment {
                assert(tree.contains_key(k));
            }
        }
    }
}

/// The schema names that an operation refers to: in its query parameters,
/// its request body and its response body.
pub open spec fn operation_refs(op: OperationView) -> Set<Seq<char>> {
    Set::new(
        |n: Seq<char>|
            (exists|i: int|
                0 <= i < op.query_params.len() && #[trigger] referenced_schema_of(op.query_params[i].ty)
                    == Some(n)) || op.request_body_schema_name == Some(n) || op.response_body_schema_name
                == Some(n),
    )
}

/// The schema names that the operations refer to.
pub open spec fn operations_refs(ops: Seq<OperationView>) -> Set<Seq<char>> {
    Set::new(|n: Seq<char>| exists|i: int| 0 <= i < ops.len() && #[trigger] operation_refs(ops[i]).contains(n))
}

/// The schema names that the operations of a resource, and of every
/// resource below it, refer to.
pub open spec fn resource_refs(r: ResourceView) -> Set<Seq<char>>
    decreases r,
{
    Set::new(
        |n: Seq<char>|
            operations_refs(r.operations).contains(n) || exists|k: Seq<char>| #[trigger]
                r.subresources.contains_key(k) && resource_refs(r.subresources[k]).contains(n),
    )
}

/// The schema names that the resources of a level refer to.
pub open spec fn tree_refs(tree: Map<Seq<char>, ResourceView>) -> Set<Seq<char>> {
    Set::new(
        |n: Seq<char>| exists|k: Seq<char>| #[trigger] tree.contains_key(k) && resource_refs(tree[k]).contains(n),
    )
}

impl Operation {
    /// Adds to `into` the schema names that the operation refers to.
    pub fn referenced_components(&self, into: &mut NameSet)
        ensures
            final(into).names() == old(into).names().union(operation_refs(self@)),
    {
        let mut i: usize = 0;
        let ghost qv = self@.query_params;
        while i < self.query_params.len()
            invariant
                i <= self.query_params.len(),
                qv == self@.query_params,
                forall|n: Seq<char>| #[trigger]
                    into.names().contains(n) <==> (old(into).names().contains(n) || exists|j: int|
                        0 <= j < i && #[trigger] referenced_schema_of(qv[j].ty) == Some(n)),
            decreases self.query_params.len() - i,
        {
            let ghost before = into.names();
            match self.query_params[i].ty.referenced_schema() {
                Some(n) => {
                    into.insert(n.to_owned());
                    proof {
                        assert(referenced_schema_of(qv[i as int].ty) == Some(n@));
                    }
                },
                None => {},
            }
            proof {
                assert forall|n: Seq<char>| #[trigger]
                    into.names().contains(n) <==> (old(into).names().contains(n) || exists|j: int|
                        0 <= j < i + 1 && #[trigger] referenced_schema_of(qv[j].ty) == Some(n)) by {
                    if exists|j: int| 0 <= j < i + 1 && #[trigger] referenced_schema_of(qv[j].ty) == Some(n) {
                        let j = choose|j: int| 0 <= j < i + 1 && #[trigger] referenced_schema_of(qv[j].ty) == Some(n);
                        if j < i {
                            assert(before.contains(n));
                        }
                    }
                    if before.contains(n) && !old(into).names().contains(n) {
                        let j = choose|j: int| 0 <= j < i && #[trigger] referenced_schema_of(qv[j].ty) == Some(n);
                        assert(0 <= j < i + 1);
                    }
                }
            }
            i += 1;
        }
        if let Some(name) = &self.request_body_schema_name {
            into.insert(name.clone());
        }
        if let Some(name) = &self.response_body_schema_name {
            into.insert(name.clone());
        }
        assert(into.names() =~= old(into).names().union(operation_refs(self@)));
    }
}

/// Adds to `into` the schema names that the operations refer to.
pub fn operations_referenced_components(ops: &Vec<Operation>, into: &mut NameSet)
    ensures
        final(into).names() == old(into).names().union(operations_refs(operations_view(ops@))),
{
    let mut i: usize = 0;
    let ghost ov = operations_view(ops@);
    while i < ops.len()
        invariant
            i <= ops.len(),
            ov == operations_view(ops@),
            forall|n: Seq<char>| #[trigger]
                into.names().contains(n) <==> (old(into).names().contains(n) || exists|j: int|
                    0 <= j < i && #[trigger] operation_refs(ov[j]).contains(n)),
        decreases ops.len() - i,
    {
        let ghost before = into.names();
        ops[i].referenced_components(into);
        proof {
            assert(ov[i as int] == ops@[i as int]@);
            assert(into.names() == before.union(operation_refs(ov[i as int])));
            assert forall|n: Seq<char>| #[trigger]
                into.names().contains(n) <==> (old(into).names().contains(n) || exists|j: int|
                    0 <= j < i + 1 && #[trigger] operation_refs(ov[j]).contains(n)) by {
                if exists|j: int| 0 <= j < i + 1 && #[trigger] operation_refs(ov[j]).contains(n) {
                    let j = choose|j: int| 0 <= j < i + 1 && #[trigger] operation_refs(ov[j]).contains(n);
                    if j < i {
                        assert(before.contains(n));
                    }
                }
                if before.contains(n) && !old(into).names().contains(n) {
                    let j = choose|j: int| 0 <= j < i && #[trigger] operation_refs(ov[j]).contains(n);
                    assert(0 <= j < i + 1);
                }
            }
        }
        i += 1;
    }
    assert(into.names() =~= old(into).names().union(operations_refs(ov)));
}

impl Resources {
    /// Adds to `into` the schema names that the resources of this level,
    /// and of every level below, refer to.
    pub fn referenced_components(&self, into: &mut NameSet)
        ensures
            final(into).names() == old(into).names().union(tree_refs(self.model())),
        decreases self,
    {
        let count = self.len();
        let mut i: usize = 0;
        let ghost es = self.entries();
        while i < count
            invariant
                i <= count,
                count == self.entries().len(),
                es == self.entries(),
                ascending(es),
                forall|n: Seq<char>| #[trigger]
                    into.names().contains(n) <==> (old(into).names().contains(n) || exists|j: int|
                        0 <= j < i && #[trigger] resource_refs(es[j].1@).contains(n)),
            decreases count - i,
        {
            let ghost before = into.names();
            let child = self.value_at(i);
            proof {
                self.lemma_value_decreases(es[i as int].0);
            }
            child.referenced_components(into);
            proof {
                assert(into.names() == before.union(resource_refs(es[i as int].1@)));
                assert forall|n: Seq<char>| #[trigger]
                    into.names().contains(n) <==> (old(into).names().contains(n) || exists|j: int|
                        0 <= j < i + 1 && #[trigger] resource_refs(es[j].1@).contains(n)) by {
                    if exists|j: int| 0 <= j < i + 1 && #[trigger] resource_refs(es[j].1@).contains(n) {
                        let j = choose|j: int| 0 <= j < i + 1 && #[trigger] resource_refs(es[j].1@).contains(n);
                        if j < i {
                            assert(before.contains(n));
                        }
                    }
                    if before.contains(n) && !old(into).names().contains(n) {
                        let j = choose|j: int| 0 <= j < i && #[trigger] resource_refs(es[j].1@).contains(n);
                        assert(0 <= j < i + 1);
                    }
                }
            }
            i += 1;
        }
        proof {
            let tree = self.model();
            assert forall|n: Seq<char>| tree_refs(tree).contains(n) <==> (exists|j: int|
                0 <= j < es.len() && #[trigger] resource_refs(es[j].1@).contains(n)) by {
                if tree_refs(tree).contains(n) {
                    let k = choose|k: Seq<char>| #[trigger]
                        tree.contains_key(k) && resource_refs(tree[k]).contains(n);
                    let j = index_of_key(es, k);
                    lemma_entry_in_map(es, j);
                    assert(resource_refs(es[j].1@).contains(n));
                }
                if exists|j: int| 0 <= j < es.len() && #[trigger] resource_refs(es[j].1@).contains(n) {
                    let j = choose|j: int| 0 <= j < es.len() && #[trigger] resource_refs(es[j].1@).contains(n);
                    lemma_entry_in_map(es, j);
                    assert(tree.contains_key(es[j].0));
                    assert(resource_refs(tree[es[j].0]).contains(n));
                }
            }
            assert(into.names() =~= old(into).names().union(tree_refs(tree)));
        }
    }
}

impl Resource {
    /// Adds to `into` the schema names that the operations of this resource,
    /// and of every resource below it, refer to.
    pub fn referenced_components(&self, into: &mut NameSet)
        ensures
            final(into).names() == old(into).names().union(resource_refs(self@)),
        decreases self,
    {
        proof {
            lemma_resource_model(*self);
        }
        operations_referenced_components(&self.operations, into);
        self.subresources.referenced_components(into);
        proof {
            let r = self@;
            reveal_with_fuel(resource_refs, 2);
            assert forall|n: Seq<char>| resource_refs(r).contains(n) <==> (operations_refs(r.operations).contains(
                n,
            ) || tree_refs(r.subresources).contains(n)) by {
                if resource_refs(r).contains(n) && !operations_refs(r.operations).contains(n) {
                    let k = choose|k: Seq<char>| #[trigger]
                        r.subresources.contains_key(k) && resource_refs(r.subresources[k]).contains(n);
                    assert(tree_refs(r.subresources).contains(n));
                }
                if tree_refs(r.subresources).contains(n) {
                    let k = choose|k: Seq<char>| #[trigger]
                        r.subresources.contains_key(k) && resource_refs(r.subresources[k]).contains(n);
                    assert(resource_refs(r).contains(n));
                }
            }
            assert(into.names() =~= old(into).names().union(resource_refs(self@)));
        }
    }
}

/// An operation, or a whole path, that was left out, and why.
#[derive(Debug, PartialEq)]
pub struct SkippedOperation {
    pub path: String,
    /// The method, or nothing where the whole path was left out.
    pub method: String,
    pub operation_id: Option<String>,
    pub cause: SkipCause,
}

/// The model of a skipped operation.
pub struct SkippedOperationView {
    pub path: Seq<char>,
    pub method: Seq<char>,
    pub operation_id: Option<Seq<char>>,
    pub cause: SkipCause,
}

impl View for SkippedOperation {
    type V = SkippedOperationView;

    open spec fn view(&self) -> SkippedOperationView {
        SkippedOperationView {
            path: self.path@,
            method: self.method@,
            operation_id: opt_text(self.operation_id),
            cause: self.cause,
        }
    }
}

/// The models of a list of skipped operations.
pub open spec fn skipped_view(skipped: Seq<SkippedOperation>) -> Seq<SkippedOperationView> {
    Seq::new(skipped.len(), |i: int| skipped[i]@)
}

/// A document that breaks the conventions, with where it does.
#[derive(Debug, PartialEq)]
pub struct MalformedSpec {
    pub kind: MalformedKind,
    pub path: String,
    /// The method, or nothing where the path itself is at fault.
    pub method: String,
    pub operation_id: Option<String>,
}

/// The model of a report on a malformed document.
pub struct MalformedSpecView {
    pub kind: MalformedKind,
    pub path: Seq<char>,
    pub method: Seq<char>,
    pub operation_id: Option<Seq<char>>,
}

impl View for MalformedSpec {
    type V = MalformedSpecView;

    open spec fn view(&self) -> MalformedSpecView {
        MalformedSpecView {
            kind: self.kind,
            path: self.path@,
            method: self.method@,
            operation_id: opt_text(self.operation_id),
        }
    }
}

/// The resources read off the paths of a document, and what was left out.
pub struct Draft {
    pub resources: Resources,
    pub skipped: Vec<SkippedOperation>,
}

/// The model of a draft.
pub struct DraftView {
    pub tree: Map<Seq<char>, ResourceView>,
    pub skipped: Seq<SkippedOperationView>,
}

impl View for Draft {
    type V = DraftView;

    open spec fn view(&self) -> DraftView {
        DraftView { tree: self.resources.model(), skipped: skipped_view(self.skipped@) }
    }
}

/// The draft once the operation in slot `i` of a path item has been read.
pub open spec fn with_slot(
    draft: DraftView,
    path: Seq<char>,
    item: PathItem,
    i: int,
    pool: Map<Seq<char>, Schema>,
    mode: IncludeMode,
    excluded: Set<Seq<char>>,
    specified: Set<Seq<char>>,
) -> Result<DraftView, MalformedSpecView> {
    match item.slot(i) {
        None => Ok(draft),
        Some(op) => match operation_of(path, method_name(i), op, pool, mode, excluded, specified) {
            Outcome::Found((res_path, operation)) => Ok(
                DraftView { tree: with_operation(draft.tree, res_path, 0, operation), skipped: draft.skipped },
            ),
            Outcome::Skip(cause) => Ok(
                DraftView {
                    tree: draft.tree,
                    skipped: draft.skipped.push(
                        SkippedOperationView {
                            path,
                            method: method_name(i),
                            operation_id: opt_text(op.operation_id),
                            cause,
                        },
                    ),
                },
            ),
            Outcome::Malformed(kind) => Err(
                MalformedSpecView {
                    kind,
                    path,
                    method: method_name(i),
                    operation_id: opt_text(op.operation_id),
                },
            ),
        },
    }
}

/// The draft once the first `n` slots of a path item have been read.
pub open spec fn slots_upto(
    draft: DraftView,
    path: Seq<char>,
    item: PathItem,
    n: nat,
    pool: Map<Seq<char>, Schema>,
    mode: IncludeMode,
    excluded: Set<Seq<char>>,
    specified: Set<Seq<char>>,
) -> Result<DraftView, MalformedSpecView>
    decreases n,
{
    if n == 0 {
        Ok(draft)
    } else {
        match slots_upto(draft, path, item, (n - 1) as nat, pool, mode, excluded, specified) {
            Err(e) => Err(e),
            Ok(so_far) => with_slot(so_far, path, item, n - 1, pool, mode, excluded, specified),
        }
    }
}

/// The draft once one more path has been read.
pub open spec fn with_path(
    draft: DraftView,
    entry: PathEntry,
    pool: Map<Seq<char>, Schema>,
    mode: IncludeMode,
    excluded: Set<Seq<char>>,
    specified: Set<Seq<char>>,
) -> Result<DraftView, MalformedSpecView> {
    match entry.item {
        ReferenceOr::Reference { .. } => Err(
            MalformedSpecView {
                kind: MalformedKind::RefPath,
                path: entry.path@,
                method: Seq::empty(),
                operation_id: None,
            },
        ),
        ReferenceOr::Item(item) => if item.parameters@.len() != 0 {
            Ok(
                DraftView {
                    tree: draft.tree,
                    skipped: draft.skipped.push(
                        SkippedOperationView {
                            path: entry.path@,
                            method: Seq::empty(),
                            operation_id: None,
                            cause: SkipCause::SharedParameters,
                        },
                    ),
                },
            )
        } else {
            slots_upto(draft, entry.path@, item, 8, pool, mode, excluded, specified)
        },
    }
}

/// The draft once the first `n` paths have been read.
pub open spec fn paths_upto(
    paths: Seq<PathEntry>,
    n: nat,
    pool: Map<Seq<char>, Schema>,
    mode: IncludeMode,
    excluded: Set<Seq<char>>,
    specified: Set<Seq<char>>,
) -> Result<DraftView, MalformedSpecView>
    decreases n,
{
    if n == 0 {
        Ok(DraftView { tree: Map::empty(), skipped: Seq::empty() })
    } else {
        match paths_upto(paths, (n - 1) as nat, pool, mode, excluded, specified) {
            Err(e) => Err(e),
            Ok(so_far) => with_path(so_far, paths[n - 1], pool, mode, excluded, specified),
        }
    }
}

/// The resource tree of a document: every operation that is taken in, at
/// the resource path that its ID names, in the order of the paths and, for
/// each path, of the methods.
pub open spec fn resources_of(
    paths: Paths,
    pool: Map<Seq<char>, Schema>,
    mode: IncludeMode,
    excluded: Set<Seq<char>>,
    specified: Set<Seq<char>>,
) -> Result<DraftView, MalformedSpecView> {
    paths_upto(paths.paths@, paths.paths@.len(), pool, mode, excluded, specified)
}

/// Once an operation has failed, reading more slots changes nothing.
pub proof fn lemma_slots_error_stays(
    draft: DraftView,
    path: Seq<char>,
    item: PathItem,
    n: nat,
    m: nat,
    pool: Map<Seq<char>, Schema>,
    mode: IncludeMode,
    excluded: Set<Seq<char>>,
    specified: Set<Seq<char>>,
)
    requires
        n <= m,
    ensures
        slots_upto(draft, path, item, n, pool, mode, excluded, specified) is Err ==> slots_upto(
            draft,
            path,
            item,
            m,
            pool,
            mode,
            excluded,
            specified,
        ) == slots_upto(draft, path, item, n, pool, mode, excluded, specified),
    decreases m - n,
{
    if n < m && slots_upto(draft, path, item, n, pool, mode, excluded, specified) is Err {
        lemma_slots_error_stays(draft, path, item, n, (m - 1) as nat, pool, mode, excluded, specified);
    }
}

/// Once a path has failed, reading more paths changes nothing.
pub proof fn lemma_paths_error_stays(
    paths: Seq<PathEntry>,
    n: nat,
    m: nat,
    pool: Map<Seq<char>, Schema>,
    mode: IncludeMode,
    excluded: Set<Seq<char>>,
    specified: Set<Seq<char>>,
)
    requires
        n <= m,
    ensures
        paths_upto(paths, n, pool, mode, excluded, specified) is Err ==> paths_upto(
            paths,
            m,
            pool,
            mode,
            excluded,
            specified,
        ) == paths_upto(paths, n, pool, mode, excluded, specified),
    decreases m - n,
{
    if n < m && paths_upto(paths, n, pool, mode, excluded, specified) is Err {
        lemma_paths_error_stays(paths, n, (m - 1) as nat, pool, mode, excluded, specified);
    }
}

/// Reads the operations of one path item into the draft.
fn add_path_item(
    draft: &mut Draft,
    path: &str,
    item: &PathItem,
    component_schemas: &SchemaPool,
    include_mode: IncludeMode,
    excluded_operations: &NameSet,
    specified_operations: &NameSet,
) -> (r: Result<(), MalformedSpec>)
    requires
        level_well_named(old(draft)@.tree, None),
    ensures
        match r {
            Ok(_) => slots_upto(
                old(draft)@,
                path@,
                *item,
                8,
                pool_schemas(*component_schemas),
                include_mode,
                excluded_operations.names(),
                specified_operations.names(),
            ) == Ok::<DraftView, MalformedSpecView>(final(draft)@) && level_well_named(final(draft)@.tree, None),
            Err(e) => slots_upto(
                old(draft)@,
                path@,
                *item,
                8,
                pool_schemas(*component_schemas),
                include_mode,
                excluded_operations.names(),
                specified_operations.names(),
            ) == Err::<DraftView, MalformedSpecView>(e@),
        },
{
    let ghost pool = pool_schemas(*component_schemas);
    let ghost ex = excluded_operations.names();
    let ghost sp = specified_operations.names();
    let ghost start = draft@;
    let mut i: usize = 0;
    while i < 8
        invariant
            i <= 8,
            start == old(draft)@,
            pool == pool_schemas(*component_schemas),
            ex == excluded_operations.names(),
            sp == specified_operations.names(),
            slots_upto(start, path@, *item, i as nat, pool, include_mode, ex, sp) == Ok::<
                DraftView,
                MalformedSpecView,
            >(draft@),
            level_well_named(draft@.tree, None),
        decreases 8 - i,
    {
        proof {
            lemma_slots_error_stays(start, path@, *item, (i + 1) as nat, 8, pool, include_mode, ex, sp);
        }
        let (method, slot) = item.operation_at(i);
        if let Some(op) = slot {
            match Operation::from_openapi(
                path,
                method,
                op,
                component_schemas,
                include_mode,
                excluded_operations,
                specified_operations,
            ) {
                Outcome::Found((res_path, operation)) => {
                    proof {
                        lemma_with_operation_well_named(draft@.tree, texts(res_path@), 0, operation@);
                    }
                    draft.resources.insert_operation(&res_path, operation);
                },
                Outcome::Skip(cause) => {
                    let skipped = SkippedOperation {
                        path: path.to_owned(),
                        method: method.to_owned(),
                        operation_id: duplicate_opt_string(&op.operation_id),
                        cause,
                    };
                    proof {
                        assert(skipped_view(draft.skipped@.push(skipped)) =~= skipped_view(draft.skipped@).push(
                            skipped@,
                        ));
                    }
                    draft.skipped.push(skipped);
                },
                Outcome::Malformed(kind) => {
                    return Err(
                        MalformedSpec {
                            kind,
                            path: path.to_owned(),
                            method: method.to_owned(),
                            operation_id: duplicate_opt_string(&op.operation_id),
                        },
                    );
                },
            }
        }
        i += 1;
    }
    Ok(())
}

/// The resource tree of a document, with what was left out.
pub fn from_openapi(
    paths: &Paths,
    component_schemas: &SchemaPool,
    include_mode: IncludeMode,
    excluded_operations: &NameSet,
    specified_operations: &NameSet,
) -> (r: Result<Draft, MalformedSpec>)
    ensures
        match r {
            Ok(draft) => resources_of(
                *paths,
                pool_schemas(*component_schemas),
                include_mode,
                excluded_operations.names(),
                specified_operations.names(),
            ) == Ok::<DraftView, MalformedSpecView>(draft@) && level_well_named(draft@.tree, None),
            Err(e) => resources_of(
                *paths,
                pool_schemas(*component_schemas),
                include_mode,
                excluded_operations.names(),
                specified_operations.names(),
            ) == Err::<DraftView, MalformedSpecView>(e@),
        },
{
    let ghost pool = pool_schemas(*component_schemas);
    let ghost ex = excluded_operations.names();
    let ghost sp = specified_operations.names();
    let mut draft = Draft { resources: Resources::new(), skipped: Vec::new() };
    proof {
        assert(draft@.skipped =~= Seq::<SkippedOperationView>::empty());
    }
    let mut i: usize = 0;
    while i < paths.paths.len()
        invariant
            i <= paths.paths.len(),
            pool == pool_schemas(*component_schemas),
            ex == excluded_operations.names(),
            sp == specified_operations.names(),
            paths_upto(paths.paths@, i as nat, pool, include_mode, ex, sp) == Ok::<
                DraftView,
                MalformedSpecView,
            >(draft@),
            level_well_named(draft@.tree, None),
        decreases paths.paths.len() - i,
    {
        proof {
            lemma_paths_error_stays(paths.paths@, (i + 1) as nat, paths.paths@.len(), pool, include_mode, ex, sp);
        }
        let entry = &paths.paths[i];
        match &entry.item {
            ReferenceOr::Reference { .. } => {
                return Err(
                    MalformedSpec {
                        kind: MalformedKind::RefPath,
                        path: entry.path.clone(),
                        method: String::new(),
                        operation_id: None,
                    },
                );
            },
            ReferenceOr::Item(item) => {
                if item.parameters.len() != 0 {
                    let skipped = SkippedOperation {
                        path: entry.path.clone(),
                        method: String::new(),
                        operation_id: None,
                        cause: SkipCause::SharedParameters,
                    };
                    proof {
                        assert(skipped_view(draft.skipped@.push(skipped)) =~= skipped_view(draft.skipped@).push(
                            skipped@,
                        ));
                    }
                    draft.skipped.push(skipped);
                } else {
                    match add_path_item(
                        &mut draft,
                        entry.path.as_str(),
                        item,
                        component_schemas,
                        include_mode,
                        excluded_operations,
                        specified_operations,
                    ) {
                        Ok(_) => {},
                        Err(e) => {
                            return Err(e);
                        },
                    }
                }
            },
        }
        i += 1;
    }
    Ok(draft)
}

/// Whether two resources can be merged: they have the same name, and so
/// have the resources below them that share a key.
pub open spec fn mergeable(a: ResourceView, b: ResourceView) -> bool
    decreases a,
{
    &&& a.name == b.name
    &&& forall|k: Seq<char>| #[trigger]
        a.subresources.contains_key(k) && b.subresources.contains_key(k) ==> mergeable(
            a.subresources[k],
            b.subresources[k],
        )
}

/// Whether two levels can be merged.
pub open spec fn trees_mergeable(a: Map<Seq<char>, ResourceView>, b: Map<Seq<char>, ResourceView>) -> bool {
    forall|k: Seq<char>| #[trigger] a.contains_key(k) && b.contains_key(k) ==> mergeable(a[k], b[k])
}

/// Two resources merged: the operations of the first, then those of the
/// second, over the merged levels below.
pub open spec fn merged(a: ResourceView, b: ResourceView) -> ResourceView
    decreases a,
{
    ResourceView {
        name: a.name,
        operations: a.operations + b.operations,
        subresources: Map::new(
            |k: Seq<char>| a.subresources.contains_key(k) || b.subresources.contains_key(k),
            |k: Seq<char>|
                if a.subresources.contains_key(k) {
                    if b.subresources.contains_key(k) {
                        merged(a.subresources[k], b.subresources[k])
                    } else {
                        a.subresources[k]
                    }
                } else {
                    b.subresources[k]
                },
        ),
    }
}

/// Two levels merged: what only one has stays, and what both have is merged.
pub open spec fn merged_trees(a: Map<Seq<char>, ResourceView>, b: Map<Seq<char>, ResourceView>) -> Map<
    Seq<char>,
    ResourceView,
> {
    Map::new(
        |k: Seq<char>| a.contains_key(k) || b.contains_key(k),
        |k: Seq<char>|
            if a.contains_key(k) {
                if b.contains_key(k) {
                    merged(a[k], b[k])
                } else {
                    a[k]
                }
            } else {
                b[k]
            },
    )
}

/// What is below two merged resources is the two levels merged.
pub proof fn lemma_merged_subresources(a: ResourceView, b: ResourceView)
    ensures
        merged(a, b).name == a.name,
        merged(a, b).operations == a.operations + b.operations,
        merged(a, b).subresources == merged_trees(a.subresources, b.subresources),
{
    reveal_with_fuel(merged, 2);
    assert(merged(a, b).subresources =~= merged_trees(a.subresources, b.subresources));
}

/// Resources that are named by the same path can be merged.
pub proof fn lemma_well_named_mergeable(a: ResourceView, b: ResourceView, name: Seq<char>)
    requires
        well_named(a, name),
        well_named(b, name),
    ensures
        mergeable(a, b),
        well_named(merged(a, b), name),
    decreases a,
{
    lemma_merged_subresources(a, b);
    assert forall|k: Seq<char>| #[trigger]
        a.subresources.contains_key(k) && b.subresources.contains_key(k) implies mergeable(
        a.subresources[k],
        b.subresources[k],
    ) by {
        lemma_well_named_mergeable(a.subresources[k], b.subresources[k], child_name(Some(name), k));
    }
    let m = merged(a, b);
    assert forall|k: Seq<char>| #[trigger] m.subresources.contains_key(k) implies well_named(
        m.subresources[k],
        child_name(Some(name), k),
    ) by {
        if a.subresources.contains_key(k) && b.subresources.contains_key(k) {
            lemma_well_named_mergeable(a.subresources[k], b.subresources[k], child_name(Some(name), k));
        }
    }
}

/// Levels whose resources are named by their paths can be merged, and the
/// merged level is named by its paths too.
pub proof fn lemma_well_named_trees_mergeable(
    a: Map<Seq<char>, ResourceView>,
    b: Map<Seq<char>, ResourceView>,
    parent: Option<Seq<char>>,
)
    requires
        level_well_named(a, parent),
        level_well_named(b, parent),
    ensures
        trees_mergeable(a, b),
        level_well_named(merged_trees(a, b), parent),
{
    assert forall|k: Seq<char>| #[trigger] a.contains_key(k) && b.contains_key(k) implies mergeable(
        a[k],
        b[k],
    ) by {
        lemma_well_named_mergeable(a[k], b[k], child_name(parent, k));
    }
    let m = merged_trees(a, b);
    assert forall|k: Seq<char>| #[trigger] m.contains_key(k) implies well_named(m[k], child_name(parent, k)) by {
        if a.contains_key(k) && b.contains_key(k) {
            lemma_well_named_mergeable(a[k], b[k], child_name(parent, k));
        }
    }
}

/// Appends the operations of `more` to `ops`.
fn append_operations(ops: &mut Vec<Operation>, more: Vec<Operation>)
    ensures
        operations_view(final(ops)@) == operations_view(old(ops)@) + operations_view(more@),
{
    let mut more = more;
    let ghost added = more@;
    ops.append(&mut more);
    assert(operations_view(ops@) =~= operations_view(old(ops)@) + operations_view(added));
}

/// Merges the resources of `src` into `dst`: a resource that only `src` has
/// is moved over; one that both have gets the operations of `src` appended,
/// and so on below it.
pub fn merge_resources(dst: &mut Resources, src: Resources)
    requires
        trees_mergeable(old(dst).model(), src.model()),
    ensures
        final(dst).model() == merged_trees(old(dst).model(), src.model()),
    decreases src,
{
    let mut rest = src;
    let mut left = rest.len();
    let ghost target = merged_trees(dst.model(), src.model());
    while left > 0
        invariant
            left == rest.entries().len(),
            target == merged_trees(old(dst).model(), src.model()),
            merged_trees(dst.model(), rest.model()) == target,
            trees_mergeable(dst.model(), rest.model()),
            forall|k: Seq<char>| #[trigger]
                rest.map().contains_key(k) ==> src.map().contains_key(k) && src.map()[k] == rest.map()[k],
        decreases left,
    {
        let ghost dst_before = dst.model();
        let ghost rest_before = rest.model();
        let ghost rest_map_before = rest.map();
        let (key, value) = match rest.pop_first() {
            Some(entry) => entry,
            None => {
                return ;
            },
        };
        let ghost k = key@;
        proof {
            src.lemma_value_decreases(k);
            lemma_resource_model(value);
            assert(rest_before.contains_key(k) && rest_before[k] == value@);
        }
        let ghost incoming = value@;
        match dst.remove(key.as_str()) {
            None => {
                dst.insert(key, value);
            },
            Some(existing) => {
                proof {
                    lemma_resource_model(existing);
                    assert(dst_before.contains_key(k) && dst_before[k] == existing@);
                    assert(mergeable(existing@, incoming));
                    lemma_merged_subresources(existing@, incoming);
                }
                let ghost here = existing@;
                let Resource { name, operations, subresources } = value;
                let Resource { name: kept_name, operations: kept_operations, subresources: kept_below } = existing;
                let mut ops = kept_operations;
                append_operations(&mut ops, operations);
                let mut below = kept_below;
                merge_resources(&mut below, subresources);
                let combined = Resource { name: kept_name, operations: ops, subresources: below };
                proof {
                    lemma_resource_model(combined);
                    assert(combined@ == merged(here, incoming));
                }
                dst.insert(key, combined);
            },
        }
        proof {
            assert(merged_trees(dst.model(), rest.model()) =~= merged_trees(dst_before, rest_before));
            assert forall|q: Seq<char>| #[trigger]
                dst.model().contains_key(q) && rest.model().contains_key(q) implies mergeable(
                dst.model()[q],
                rest.model()[q],
            ) by {
                assert(dst_before.contains_key(q) && rest_before.contains_key(q));
            }
        }
        left = rest.len();
    }
    proof {
        assert(rest.model() =~= Map::<Seq<char>, ResourceView>::empty());
        assert(merged_trees(dst.model(), rest.model()) =~= dst.model());
    }
}

/// A resource met on a walk through the tree, with the keys that lead to it
/// from the root, its own key last.
pub struct Visit<'a> {
    pub parents: Vec<String>,
    pub resource: &'a Resource,
}

impl<'a> View for Visit<'a> {
    type V = (Seq<Seq<char>>, Resource);

    open spec fn view(&self) -> (Seq<Seq<char>>, Resource) {
        (texts(self.parents@), *self.resource)
    }
}

/// The views of the visits of a walk.
pub open spec fn visits_view(visits: Seq<Visit>) -> Seq<(Seq<Seq<char>>, Resource)> {
    Seq::new(visits.len(), |i: int| visits[i]@)
}

impl Resources {
    /// A resource of the level is a part of the level.
    pub proof fn lemma_entry_decreases(&self, i: int)
        requires
            0 <= i < self.entries().len(),
        ensures
            decreases_to!(*self => self.entries()[i].1),
    {
        assert(self.entries()[i].1 == self.held@[i].1);
        assert(decreases_to!(self.held => self.held@[i]));
    }

    /// The resources of the first `n` entries of this level and of every
    /// level below them, each before the resources below it, the entries in
    /// ascending order of their keys; with each resource the keys that lead
    /// to it, after `parents`.
    pub open spec fn walked_upto(&self, parents: Seq<Seq<char>>, n: nat) -> Seq<(Seq<Seq<char>>, Resource)>
        decreases self, n,
    {
        if n == 0 || n > self.entries().len() {
            Seq::empty()
        } else {
            let entry = self.entries()[n - 1];
            let here = parents.push(entry.0);
            self.walked_upto(parents, (n - 1) as nat) + seq![(here, entry.1)] + {
                proof {
                    self.lemma_entry_decreases(n - 1);
                }
                entry.1.subresources.walked(here)
            }
        }
    }

    /// The resources of this level and of every level below it.
    pub open spec fn walked(&self, parents: Seq<Seq<char>>) -> Seq<(Seq<Seq<char>>, Resource)>
        decreases self, self.entries().len() + 1,
    {
        self.walked_upto(parents, self.entries().len())
    }

    /// The resources of this level and of every level below it, each before
    /// the resources below it, in ascending order of the keys.
    pub fn walk(&self, parents: &Vec<String>) -> (r: Vec<Visit<'_>>)
        ensures
            visits_view(r@) == self.walked(texts(parents@)),
        decreases self,
    {
        let count = self.len();
        let mut out: Vec<Visit<'_>> = Vec::new();
        let mut i: usize = 0;
        assert(visits_view(out@) =~= Seq::<(Seq<Seq<char>>, Resource)>::empty());
        while i < count
            invariant
                i <= count,
                count == self.entries().len(),
                visits_view(out@) == self.walked_upto(texts(parents@), i as nat),
            decreases count - i,
        {
            let key = self.key_at(i);
            let resource = self.value_at(i);
            let mut here: Vec<String> = Vec::new();
            let mut j: usize = 0;
            while j < parents.len()
                invariant
                    j <= parents.len(),
                    here@.len() == j,
                    forall|k: int| 0 <= k < j ==> here@[k]@ == parents@[k]@,
                decreases parents.len() - j,
            {
                here.push(parents[j].clone());
                j += 1;
            }
            here.push(key.to_owned());
            proof {
                assert(texts(here@) =~= texts(parents@).push(key@));
                self.lemma_entry_decreases(i as int);
            }
            let mut below = resource.subresources.walk(&here);
            let visit = Visit { parents: here, resource };
            let ghost before = out@;
            let ghost below_view = visits_view(below@);
            out.push(visit);
            out.append(&mut below);
            proof {
                assert(visits_view(out@) =~= visits_view(before) + seq![visit@] + below_view);
            }
            i += 1;
        }
        out
    }

    /// The resources of a list, each under its name.
    pub open spec fn listed_upto(list: Seq<Resource>, n: nat) -> Map<Seq<char>, Resource>
        decreases n,
    {
        if n == 0 || n > list.len() {
            Map::empty()
        } else {
            Resources::listed_upto(list, (n - 1) as nat).insert(list[n - 1].name@, list[n - 1])
        }
    }

    /// A level of resources that holds each resource of `list` under its
    /// name; of two with the same name, the later one.
    pub fn from_list(list: Vec<Resource>) -> (r: Resources)
        ensures
            r.map() == Resources::listed_upto(list@, list@.len()),
    {
        let mut out = Resources::new();
        let mut rest = list;
        let total = rest.len();
        let mut done: usize = 0;
        while done < total
            invariant
                done <= total,
                total == list@.len(),
                rest@ == list@.skip(done as int),
                out.map() == Resources::listed_upto(list@, done as nat),
            decreases total - done,
        {
            let resource = rest.remove(0);
            proof {
                assert(resource == list@[done as int]);
                assert(rest@ =~= list@.skip(done + 1));
            }
            let key = resource.name.clone();
            out.insert(key, resource);
            done += 1;
        }
        out
    }
}

impl Resources {
    /// Whether every resource of this level, and every resource below, is
    /// named by its path; `parent` is the name of the resource that holds
    /// this level, if one does.
    pub fn well_named(&self, parent: Option<&str>) -> (r: bool)
        ensures
            r == level_well_named(
                self.model(),
                match parent {
                    Some(p) => Some(p@),
                    None => None,
                },
            ),
        decreases self,
    {
        let count = self.len();
        let ghost es = self.entries();
        let ghost above = match parent {
            Some(p) => Some(p@),
            None => None,
        };
        let mut i: usize = 0;
        while i < count
            invariant
                i <= count,
                count == self.entries().len(),
                es == self.entries(),
                ascending(es),
                above == match parent {
                    Some(p) => Some(p@),
                    None => None,
                },
                forall|j: int| 0 <= j < i ==> well_named(#[trigger] es[j].1@, child_name(above, es[j].0)),
            decreases count - i,
        {
            let key = self.key_at(i);
            let child = self.value_at(i);
            let expected = match parent {
                None => key.to_owned(),
                Some(p) => {
                    let mut name = p.to_owned();
                    name.append("-");
                    name.append(key);
                    name
                },
            };
            proof {
                self.lemma_entry_decreases(i as int);
                lemma_entry_in_map(es, i as int);
            }
            if !child.named(expected.as_str()) {
                proof {
                    assert(self.model().contains_key(es[i as int].0));
                    assert(self.model()[es[i as int].0] == es[i as int].1@);
                }
                return false;
            }
            i += 1;
        }
        proof {
            let tree = self.model();
            assert forall|k: Seq<char>| #[trigger] tree.contains_key(k) implies well_named(
                tree[k],
                child_name(above, k),
            ) by {
                let j = index_of_key(es, k);
                lemma_entry_in_map(es, j);
                assert(well_named(es[j].1@, child_name(above, es[j].0)));
            }
        }
        true
    }
}

impl Resource {
    /// Whether this resource and every resource below it is named by its
    /// path, if this one has the path that `name` is made of.
    pub fn named(&self, name: &str) -> (r: bool)
        ensures
            r == well_named(self@, name@),
        decreases self,
    {
        proof {
            lemma_resource_model(*self);
        }
        str_eq(self.name.as_str(), name) && self.subresources.well_named(Some(name))
    }
}

} // verus!
