//! Workflow definitions: a directed graph of nodes, each depending on other nodes, and
//! its validation (every dependency exists and the dependency graph has no cycle).

use std::collections::HashMap;
use vstd::prelude::*;

use crate::lion_core::id::{uuid_bits_text, uuid_text, NodeId, WorkflowId};

verus! {

broadcast use vstd::std_specs::hash::group_hash_axioms;

/// A workflow definition.
#[derive(Debug, Clone, PartialEq, Eq)]
pub struct Workflow {
    /// Unique identifier for this workflow.
    pub id: WorkflowId,
    /// Human-readable name.
    pub name: String,
    /// Description of the workflow.
    pub description: String,
    /// The nodes in this workflow.
    pub nodes: Vec<WorkflowNode>,
}

/// A node in a workflow.
#[derive(Debug, Clone, PartialEq, Eq)]
pub struct WorkflowNode {
    /// Unique identifier for this node.
    pub id: NodeId,
    /// Human-readable name.
    pub name: String,
    /// Type of this node.
    pub node_type: NodeType,
    /// Dependencies that must complete before this node can execute.
    pub dependencies: Vec<NodeId>,
    /// Error handling policy.
    pub error_policy: ErrorPolicy,
}

/// Type of workflow node.
#[derive(Debug, Clone, PartialEq, Eq)]
pub enum NodeType {
    /// Call a function in a plugin.
    PluginCall {
        /// ID of the plugin to call.
        plugin_id: String,
        /// Name of the function to call.
        function: String,
    },
    /// Map a function over a collection of items.
    MapOver {
        /// ID of the plugin to call.
        plugin_id: String,
        /// Name of the function to call.
        function: String,
    },
    /// Merge the results of multiple nodes.
    Merge {
        /// Strategy to use when merging results.
        strategy: MergeStrategy,
    },
    /// Conditional branching based on a condition.
    Condition {
        /// ID of the plugin to call for the condition.
        plugin_id: String,
        /// Name of the function to call for the condition.
        function: String,
        /// Node to execute if the condition is true.
        true_branch: Box<NodeId>,
        /// Node to execute if the condition is false.
        false_branch: Box<NodeId>,
    },
    /// Custom node type, handled by a plugin.
    Custom {
        /// ID of the plugin handling this node.
        plugin_id: String,
        /// Type identifier for the custom node.
        type_id: String,
        /// Custom configuration for this node.
        config: serde_json::Value,
    },
}

/// Strategy for merging results from multiple nodes.
#[derive(Debug, Clone, PartialEq, Eq)]
pub enum MergeStrategy {
    /// Concatenate the results.
    Concat,
    /// Merge JSON objects.
    JsonMerge,
    /// Use a custom merge function.
    Custom {
        /// ID of the plugin to call.
        plugin_id: String,
        /// Name of the function to call.
        function: String,
    },
}

/// Error handling policy for workflow nodes.
#[derive(Debug, Clone, PartialEq, Eq)]
pub enum ErrorPolicy {
    /// Fail the workflow immediately.
    Fail,
    /// Retry the node a specified number of times.
    Retry {
        /// Maximum number of retry attempts.
        max_attempts: u32,
    },
    /// Skip the node and continue with the workflow.
    Skip,
    /// Use a custom error handler.
    Custom {
        /// ID of the plugin to call.
        plugin_id: String,
        /// Name of the function to call.
        function: String,
    },
}

/// Status of a workflow execution.
#[derive(Debug, Clone, Copy, PartialEq, Eq)]
pub enum ExecutionStatus {
    /// The execution is pending (not yet started).
    Pending,
    /// The execution is running.
    Running,
    /// The execution has completed successfully.
    Completed,
    /// The execution has failed.
    Failed,
    /// The execution has been cancelled.
    Cancelled,
    /// The execution is paused.
    Paused,
}

/// Status of a workflow node.
#[derive(Debug, Clone, Copy, PartialEq, Eq)]
pub enum NodeStatus {
    /// The node is pending (not yet started).
    Pending,
    /// The node is waiting for dependencies to complete.
    Waiting,
    /// The node is running.
    Running,
    /// The node has completed successfully.
    Completed,
    /// The node has failed.
    Failed,
    /// The node has been skipped.
    Skipped,
    /// The node is being retried after a failure.
    Retrying,
}

/// Options for workflow execution.
#[derive(Debug, Clone, PartialEq, Eq)]
pub struct ExecutionOptions {
    /// Initial input data for the workflow.
    pub input: Option<serde_json::Value>,
    /// Maximum execution time in milliseconds.
    pub timeout_ms: Option<u64>,
    /// Maximum number of concurrent nodes to execute.
    pub max_concurrency: Option<usize>,
    /// Whether to enable checkpointing for this execution.
    pub enable_checkpointing: bool,
    /// Custom tags for this execution.
    pub tags: HashMap<String, String>,
    /// Callback URL to notify when the execution completes.
    pub callback_url: Option<String>,
}

impl Default for ExecutionOptions {
    /// No input, a timeout of five minutes, at most four nodes at once, no checkpointing,
    /// no tags and no callback.
    fn default() -> (r: Self)
        ensures
            r.input is None,
            r.timeout_ms == Some(300_000u64),
            r.max_concurrency == Some(4usize),
            !r.enable_checkpointing,
            r.tags@ == Map::<String, String>::empty(),
            r.callback_url is None,
    {
        Self {
            input: None,
            timeout_ms: Some(300_000),
            max_concurrency: Some(4),
            enable_checkpointing: false,
            tags: HashMap::new(),
            callback_url: None,
        }
    }
}

/// The identifiers that a list of identifiers holds, as values.
pub open spec fn id_values(ids: Seq<NodeId>) -> Seq<u128> {
    ids.map_values(|id: NodeId| id@)
}

/// `i` is the index of the first node with identifier `x`.
pub open spec fn is_first_with(nodes: Seq<WorkflowNode>, x: u128, i: int) -> bool {
    &&& 0 <= i < nodes.len()
    &&& nodes[i].id@ == x
    &&& forall|j: int| 0 <= j < i ==> nodes[j].id@ != x
}

/// Some node has identifier `x`.
pub open spec fn has_id(nodes: Seq<WorkflowNode>, x: u128) -> bool {
    exists|i: int| 0 <= i < nodes.len() && #[trigger] nodes[i].id@ == x
}

/// The index of the first node with identifier `x` (meaningful where there is one).
pub open spec fn node_index(nodes: Seq<WorkflowNode>, x: u128) -> int {
    choose|i: int| is_first_with(nodes, x, i)
}

/// The dependencies of the first node with identifier `x`.
pub open spec fn deps_of(nodes: Seq<WorkflowNode>, x: u128) -> Seq<u128> {
    id_values(nodes[node_index(nodes, x)].dependencies@)
}

/// An edge of the dependency graph: `a` names a node, whose first occurrence depends on `b`.
pub open spec fn edge(nodes: Seq<WorkflowNode>, a: u128, b: u128) -> bool {
    has_id(nodes, a) && deps_of(nodes, a).contains(b)
}

/// The `j`-th dependency of the `i`-th node names no node of the workflow.
pub open spec fn dangling_at(nodes: Seq<WorkflowNode>, i: int, j: int) -> bool {
    &&& 0 <= i < nodes.len()
    &&& 0 <= j < nodes[i].dependencies@.len()
    &&& !has_id(nodes, nodes[i].dependencies@[j]@)
}

/// Some dependency names no node of the workflow.
pub open spec fn dangling(nodes: Seq<WorkflowNode>) -> bool {
    exists|i: int, j: int| dangling_at(nodes, i, j)
}

/// `c` is a closed walk of at least one edge in the dependency graph.
pub open spec fn is_cycle(nodes: Seq<WorkflowNode>, c: Seq<u128>) -> bool {
    &&& c.len() >= 2
    &&& c[0] == c.last()
    &&& forall|k: int| 0 <= k < c.len() - 1 ==> edge(nodes, #[trigger] c[k], c[k + 1])
}

/// The dependency graph has a cycle.
pub open spec fn has_cycle(nodes: Seq<WorkflowNode>) -> bool {
    exists|c: Seq<u128>| is_cycle(nodes, c)
}

/// A workflow is valid when every dependency exists and there is no cycle.
pub open spec fn valid_workflow(nodes: Seq<WorkflowNode>) -> bool {
    !dangling(nodes) && !has_cycle(nodes)
}

/// The message for a dependency on a node that does not exist.
pub open spec fn dangling_message(node: u128, dep: u128) -> Seq<char> {
    "Node "@ + uuid_text(node) + " depends on non-existent node "@ + uuid_text(dep)
}

/// The identifiers of a path, joined by ` -> `.
pub open spec fn join_path(c: Seq<u128>) -> Seq<char>
    decreases c.len(),
{
    if c.len() == 0 {
        Seq::empty()
    } else if c.len() == 1 {
        uuid_text(c[0])
    } else {
        join_path(c.drop_last()) + " -> "@ + uuid_text(c.last())
    }
}

/// The message for a cycle.
pub open spec fn cycle_message(c: Seq<u128>) -> Seq<char> {
    "Cycle detected in workflow: "@ + join_path(c)
}

/// The cycle that a dependency on `d`, a node of the current path, closes: the path from the
/// first occurrence of `d` on, then `d` again.
pub open spec fn closed_cycle(path: Seq<u128>, d: u128) -> Seq<u128> {
    let p = choose|p: int| 0 <= p < path.len() && path[p] == d && forall|k: int| 0 <= k < p ==> path[k] != d;
    path.subrange(p, path.len() as int).push(d)
}

/// The depth-first search from the unvisited node `x`, with at most `fuel` nested visits:
/// `visited` maps each visited node to whether it is on the current `path`. It gives the
/// visited map after the search and the first cycle it closes, if any. The dependencies of a
/// node are searched in order; a dependency on a node of the path closes a cycle.
pub open spec fn dfs_visit(
    nodes: Seq<WorkflowNode>,
    fuel: nat,
    visited: Map<u128, bool>,
    path: Seq<u128>,
    x: u128,
) -> (Map<u128, bool>, Option<Seq<u128>>)
    decreases fuel, 1int, 0int,
{
    dfs_deps(nodes, fuel, visited.insert(x, true), path.push(x), x, 0)
}

/// The search from the `j`-th dependency of `x` on, `x` being the last node of the path.
pub open spec fn dfs_deps(
    nodes: Seq<WorkflowNode>,
    fuel: nat,
    visited: Map<u128, bool>,
    path: Seq<u128>,
    x: u128,
    j: int,
) -> (Map<u128, bool>, Option<Seq<u128>>)
    decreases fuel, 0int, deps_of(nodes, x).len() - j,
{
    let ds = deps_of(nodes, x);
    if j < 0 || j >= ds.len() {
        (visited.insert(x, false), None)
    } else {
        let d = ds[j];
        if !visited.contains_key(d) {
            if fuel == 0 {
                (visited, None)
            } else {
                let (v2, r) = dfs_visit(nodes, (fuel - 1) as nat, visited, path, d);
                if r is Some {
                    (v2, r)
                } else {
                    dfs_deps(nodes, fuel, v2, path, x, j + 1)
                }
            }
        } else if visited[d] {
            (visited, Some(closed_cycle(path, d)))
        } else {
            dfs_deps(nodes, fuel, visited, path, x, j + 1)
        }
    }
}

/// The search from the `i`-th node on: each node not yet visited is searched from in turn,
/// until a search closes a cycle.
pub open spec fn dfs_from(
    nodes: Seq<WorkflowNode>,
    fuel: nat,
    visited: Map<u128, bool>,
    i: int,
) -> Option<Seq<u128>>
    decreases nodes.len() - i,
{
    if i < 0 || i >= nodes.len() {
        None
    } else {
        let x = nodes[i].id@;
        if visited.contains_key(x) {
            dfs_from(nodes, fuel, visited, i + 1)
        } else {
            let (v2, r) = dfs_visit(nodes, fuel, visited, Seq::empty(), x);
            if r is Some {
                r
            } else {
                dfs_from(nodes, fuel, v2, i + 1)
            }
        }
    }
}

/// The first cycle that a depth-first search from each node in turn closes, if any.
pub open spec fn first_cycle(nodes: Seq<WorkflowNode>) -> Option<Seq<u128>> {
    dfs_from(nodes, (id_set(nodes).len() + 1) as nat, Map::empty(), 0)
}

/// The cycle closed at `d` starts at the first occurrence of `d` on the path.
proof fn lemma_closed_cycle(path: Seq<u128>, d: u128, p: int)
    requires
        0 <= p < path.len(),
        path[p] == d,
        forall|k: int| 0 <= k < p ==> path[k] != d,
    ensures
        closed_cycle(path, d) == path.subrange(p, path.len() as int).push(d),
{
    let c = choose|c: int| 0 <= c < path.len() && path[c] == d && forall|k: int| 0 <= k < c ==> path[k] != d;
    assert(0 <= c < path.len() && path[c] == d && forall|k: int| 0 <= k < c ==> path[k] != d);
    if c < p {
        assert(path[c] != d);
    } else if p < c {
        assert(path[p] != d);
    }
}

/// The state of the depth-first search for cycles: `visited` maps each visited node to
/// whether it is still on the current path; nodes off the path ("finished") have a rank
/// below `counter` that is larger than the rank of each of their dependencies, all of which
/// are finished.
#[verifier::opaque]
spec fn dfs_inv(
    nodes: Seq<WorkflowNode>,
    visited: Map<u128, bool>,
    path: Seq<u128>,
    rank: Map<u128, nat>,
    counter: nat,
) -> bool {
    &&& forall|x: u128| #[trigger] visited.contains_key(x) ==> has_id(nodes, x)
    &&& forall|x: u128|
        #[trigger] visited.contains_key(x) && visited[x] ==> path.contains(x)
    &&& forall|i: int|
        0 <= i < path.len() ==> visited.contains_key(#[trigger] path[i]) && visited[path[i]]
    &&& forall|i: int| 0 <= i < path.len() - 1 ==> edge(nodes, #[trigger] path[i], path[i + 1])
    &&& forall|x: u128|
        #[trigger] visited.contains_key(x) && !visited[x] ==> finished_ok(nodes, visited, rank, counter, x)
}

/// A finished node: ranked below `counter`, its dependencies all finished with lower rank.
spec fn finished_ok(
    nodes: Seq<WorkflowNode>,
    visited: Map<u128, bool>,
    rank: Map<u128, nat>,
    counter: nat,
    x: u128,
) -> bool {
    &&& rank.contains_key(x)
    &&& rank[x] < counter
    &&& forall|d: u128|
        #[trigger] deps_of(nodes, x).contains(d) ==> visited.contains_key(d) && !visited[d]
            && rank.contains_key(d) && rank[d] < rank[x]
}

/// The new search state extends the old: every visited node keeps its mark, and finished
/// nodes keep their rank.
spec fn dfs_extends(
    old_visited: Map<u128, bool>,
    visited: Map<u128, bool>,
    old_rank: Map<u128, nat>,
    rank: Map<u128, nat>,
    old_counter: nat,
    counter: nat,
) -> bool {
    &&& forall|x: u128|
        #[trigger] old_visited.contains_key(x) ==> visited.contains_key(x) && visited[x]
            == old_visited[x]
    &&& forall|x: u128|
        #[trigger] old_visited.contains_key(x) && !old_visited[x] ==> rank.contains_key(x)
            && rank[x] == old_rank[x]
    &&& old_counter <= counter
}

/// The set of node identifiers.
pub open spec fn id_set(nodes: Seq<WorkflowNode>) -> Set<u128> {
    nodes.map_values(|n: WorkflowNode| n.id@).to_set()
}

impl WorkflowNode {
    /// Create a new workflow node of the given type, with no dependencies and the `Fail`
    /// error policy.
    pub fn new(name: &str, node_type: NodeType) -> (r: Self)
        ensures
            r.name@ == name@,
            r.node_type == node_type,
            r.dependencies@.len() == 0,
            r.error_policy == ErrorPolicy::Fail,
    {
        Self {
            id: NodeId::new(),
            name: String::from_str(name),
            node_type,
            dependencies: Vec::new(),
            error_policy: ErrorPolicy::Fail,
        }
    }

    /// Create a new plugin call node.
    pub fn new_plugin_call(name: &str, plugin_id: &str, function: &str) -> (r: Self)
        ensures
            r.name@ == name@,
            r.node_type matches NodeType::PluginCall { plugin_id: p, function: f } && p@
                == plugin_id@ && f@ == function@,
            r.dependencies@.len() == 0,
            r.error_policy == ErrorPolicy::Fail,
    {
        Self::new(
            name,
            NodeType::PluginCall {
                plugin_id: String::from_str(plugin_id),
                function: String::from_str(function),
            },
        )
    }

    /// Create a new map node.
    pub fn new_map(name: &str, plugin_id: &str, function: &str) -> (r: Self)
        ensures
            r.name@ == name@,
            r.node_type matches NodeType::MapOver { plugin_id: p, function: f } && p@ == plugin_id@
                && f@ == function@,
            r.dependencies@.len() == 0,
            r.error_policy == ErrorPolicy::Fail,
    {
        Self::new(
            name,
            NodeType::MapOver {
                plugin_id: String::from_str(plugin_id),
                function: String::from_str(function),
            },
        )
    }

    /// Add a dependency to this node, unless it is already there.
    pub fn add_dependency(&mut self, dependency: NodeId)
        ensures
            final(self).id == old(self).id,
            final(self).name == old(self).name,
            final(self).node_type == old(self).node_type,
            final(self).error_policy == old(self).error_policy,
            if id_values(old(self).dependencies@).contains(dependency@) {
                final(self).dependencies@ == old(self).dependencies@
            } else {
                final(self).dependencies@ == old(self).dependencies@.push(dependency)
            },
    {
        let mut i: usize = 0;
        while i < self.dependencies.len()
            invariant
                i <= self.dependencies@.len(),
                forall|k: int| 0 <= k < i ==> self.dependencies@[k]@ != dependency@,
            decreases self.dependencies@.len() - i,
        {
            if self.dependencies[i].bits() == dependency.bits() {
                assert(id_values(self.dependencies@)[i as int] == dependency@);
                return;
            }
            i = i + 1;
        }
        assert(!id_values(self.dependencies@).contains(dependency@)) by {
            if id_values(self.dependencies@).contains(dependency@) {
                let k = choose|k: int|
                    0 <= k < id_values(self.dependencies@).len() && id_values(
                        self.dependencies@,
                    )[k] == dependency@;
                assert(self.dependencies@[k]@ == dependency@);
            }
        }
        self.dependencies.push(dependency);
    }

    /// Set the error policy for this node.
    pub fn set_error_policy(&mut self, policy: ErrorPolicy)
        ensures
            final(self).error_policy == policy,
            final(self).id == old(self).id,
            final(self).name == old(self).name,
            final(self).node_type == old(self).node_type,
            final(self).dependencies == old(self).dependencies,
    {
        self.error_policy = policy;
    }
}

/// The index of the first node with the given identifier, if any.
fn find_node_index(nodes: &Vec<WorkflowNode>, id: u128) -> (r: Option<usize>)
    ensures
        match r {
            Some(i) => is_first_with(nodes@, id, i as int),
            None => !has_id(nodes@, id),
        },
{
    let mut i: usize = 0;
    while i < nodes.len()
        invariant
            i <= nodes@.len(),
            forall|j: int| 0 <= j < i ==> nodes@[j].id@ != id,
        decreases nodes@.len() - i,
    {
        if nodes[i].id.bits() == id {
            return Some(i);
        }
        i = i + 1;
    }
    None
}

/// The first node with a given identifier is unique.
proof fn lemma_first_with_unique(nodes: Seq<WorkflowNode>, x: u128, i: int)
    requires
        is_first_with(nodes, x, i),
    ensures
        node_index(nodes, x) == i,
{
    let k = node_index(nodes, x);
    assert(is_first_with(nodes, x, k));
    if k < i {
        assert(nodes[k].id@ != x);
    } else if i < k {
        assert(nodes[i].id@ != x);
    }
}

/// A node with a given identifier has a first occurrence.
proof fn lemma_has_id_first(nodes: Seq<WorkflowNode>, x: u128) -> (i: int)
    requires
        has_id(nodes, x),
    ensures
        is_first_with(nodes, x, i),
    decreases nodes.len(),
{
    if nodes[0].id@ == x {
        0
    } else {
        let k = choose|k: int| 0 <= k < nodes.len() && #[trigger] nodes[k].id@ == x;
        assert(nodes.drop_first()[k - 1].id@ == x);
        let j = lemma_has_id_first(nodes.drop_first(), x);
        assert forall|m: int| 0 <= m < j + 1 implies nodes[m].id@ != x by {
            if m > 0 {
                assert(nodes[m] == nodes.drop_first()[m - 1]);
            }
        }
        j + 1
    }
}

impl Workflow {
    /// Create a new workflow with a random identifier and no nodes.
    pub fn new(name: &str, description: &str) -> (r: Self)
        ensures
            r.name@ == name@,
            r.description@ == description@,
            r.nodes@.len() == 0,
    {
        Self {
            id: WorkflowId::new(),
            name: String::from_str(name),
            description: String::from_str(description),
            nodes: Vec::new(),
        }
    }

    /// Add a node to the workflow; the result is the node as added.
    pub fn add_node(&mut self, node: WorkflowNode) -> (r: &WorkflowNode)
        ensures
            final(self).nodes@ == old(self).nodes@.push(node),
            final(self).id == old(self).id,
            final(self).name == old(self).name,
            final(self).description == old(self).description,
            *r == node,
    {
        self.nodes.push(node);
        let last = self.nodes.len() - 1;
        &self.nodes[last]
    }

    /// The first node with the given identifier, if any.
    pub fn get_node(&self, id: &NodeId) -> (r: Option<&WorkflowNode>)
        ensures
            match r {
                Some(n) => has_id(self.nodes@, id@) && *n == self.nodes@[node_index(
                    self.nodes@,
                    id@,
                )],
                None => !has_id(self.nodes@, id@),
            },
    {
        match find_node_index(&self.nodes, id.bits()) {
            Some(i) => {
                proof {
                    lemma_first_with_unique(self.nodes@, id@, i as int);
                }
                Some(&self.nodes[i])
            },
            None => None,
        }
    }

    /// A mutable reference to the first node with the given identifier, if any.
    pub fn get_node_mut(&mut self, id: &NodeId) -> (r: Option<&mut WorkflowNode>)
        ensures
            match r {
                Some(n) => {
                    &&& has_id(old(self).nodes@, id@)
                    &&& *n == old(self).nodes@[node_index(old(self).nodes@, id@)]
                    &&& final(self).nodes@ == old(self).nodes@.update(
                        node_index(old(self).nodes@, id@),
                        *final(n),
                    )
                    &&& final(self).id == old(self).id
                    &&& final(self).name == old(self).name
                    &&& final(self).description == old(self).description
                },
                None => !has_id(old(self).nodes@, id@) && *final(self) == *old(self),
            },
    {
        match find_node_index(&self.nodes, id.bits()) {
            Some(i) => {
                proof {
                    lemma_first_with_unique(self.nodes@, id@, i as int);
                }
                Some(&mut self.nodes[i])
            },
            None => None,
        }
    }

    /// Remove the first node with the given identifier, returning it.
    pub fn remove_node(&mut self, id: &NodeId) -> (r: Option<WorkflowNode>)
        ensures
            match r {
                Some(n) => {
                    &&& has_id(old(self).nodes@, id@)
                    &&& n == old(self).nodes@[node_index(old(self).nodes@, id@)]
                    &&& final(self).nodes@ == old(self).nodes@.remove(
                        node_index(old(self).nodes@, id@),
                    )
                },
                None => !has_id(old(self).nodes@, id@) && final(self).nodes@ == old(self).nodes@,
            },
            final(self).id == old(self).id,
            final(self).name == old(self).name,
            final(self).description == old(self).description,
    {
        match find_node_index(&self.nodes, id.bits()) {
            Some(i) => {
                proof {
                    lemma_first_with_unique(self.nodes@, id@, i as int);
                }
                Some(self.nodes.remove(i))
            },
            None => None,
        }
    }

    /// The nodes with no dependencies, in order.
    pub fn entry_nodes(&self) -> (r: Vec<&WorkflowNode>)
        ensures
            r@.map_values(|n: &WorkflowNode| *n) == self.nodes@.filter(
                |n: WorkflowNode| n.dependencies@.len() == 0,
            ),
    {
        let mut r: Vec<&WorkflowNode> = Vec::new();
        let mut i: usize = 0;
        while i < self.nodes.len()
            invariant
                i <= self.nodes@.len(),
                r@.map_values(|n: &WorkflowNode| *n) == self.nodes@.take(i as int).filter(
                    |n: WorkflowNode| n.dependencies@.len() == 0,
                ),
            decreases self.nodes@.len() - i,
        {
            let ghost old_r = r@;
            let n = &self.nodes[i];
            proof {
                reveal_with_fuel(Seq::<_>::filter, 1);
                let t = self.nodes@.take(i + 1);
                assert(t.drop_last() =~= self.nodes@.take(i as int));
                assert(t.last() == *n);
            }
            if n.dependencies.len() == 0 {
                r.push(n);
                proof {
                    assert(r@.map_values(|n: &WorkflowNode| *n) =~= old_r.map_values(
                        |n: &WorkflowNode| *n,
                    ).push(*n));
                }
            }
            i = i + 1;
        }
        assert(self.nodes@.take(i as int) =~= self.nodes@);
        r
    }

    /// The nodes that depend on the given node, in order.
    pub fn get_dependents(&self, id: &NodeId) -> (r: Vec<&WorkflowNode>)
        ensures
            r@.map_values(|n: &WorkflowNode| *n) == self.nodes@.filter(
                |n: WorkflowNode| id_values(n.dependencies@).contains(id@),
            ),
    {
        let mut r: Vec<&WorkflowNode> = Vec::new();
        let mut i: usize = 0;
        while i < self.nodes.len()
            invariant
                i <= self.nodes@.len(),
                r@.map_values(|n: &WorkflowNode| *n) == self.nodes@.take(i as int).filter(
                    |n: WorkflowNode| id_values(n.dependencies@).contains(id@),
                ),
            decreases self.nodes@.len() - i,
        {
            let ghost old_r = r@;
            let n = &self.nodes[i];
            proof {
                reveal_with_fuel(Seq::<_>::filter, 1);
                let t = self.nodes@.take(i + 1);
                assert(t.drop_last() =~= self.nodes@.take(i as int));
                assert(t.last() == *n);
            }
            if depends_on(&n.dependencies, id) {
                r.push(n);
                proof {
                    assert(r@.map_values(|n: &WorkflowNode| *n) =~= old_r.map_values(
                        |n: &WorkflowNode| *n,
                    ).push(*n));
                }
            }
            i = i + 1;
        }
        assert(self.nodes@.take(i as int) =~= self.nodes@);
        r
    }
}

/// Whether the list holds the given identifier.
fn depends_on(deps: &Vec<NodeId>, id: &NodeId) -> (r: bool)
    ensures
        r == id_values(deps@).contains(id@),
{
    let mut i: usize = 0;
    while i < deps.len()
        invariant
            i <= deps@.len(),
            forall|k: int| 0 <= k < i ==> deps@[k]@ != id@,
        decreases deps@.len() - i,
    {
        if deps[i].bits() == id.bits() {
            assert(id_values(deps@)[i as int] == id@);
            return true;
        }
        i = i + 1;
    }
    assert(!id_values(deps@).contains(id@)) by {
        if id_values(deps@).contains(id@) {
            let k = choose|k: int| 0 <= k < id_values(deps@).len() && id_values(deps@)[k] == id@;
            assert(deps@[k]@ == id@);
        }
    }
    false
}


/// `(i, j)` is the first dangling dependency, in order of nodes and then of dependencies.
pub open spec fn first_dangling(nodes: Seq<WorkflowNode>, i: int, j: int) -> bool {
    &&& dangling_at(nodes, i, j)
    &&& forall|i2: int, j2: int|
        #[trigger] dangling_at(nodes, i2, j2) ==> i < i2 || (i == i2 && j <= j2)
}

/// The first dangling dependency, if any.
fn find_dangling(nodes: &Vec<WorkflowNode>) -> (r: Option<(usize, usize)>)
    ensures
        match r {
            Some((i, j)) => first_dangling(nodes@, i as int, j as int),
            None => !dangling(nodes@),
        },
{
    let mut i: usize = 0;
    while i < nodes.len()
        invariant
            i <= nodes@.len(),
            forall|i2: int, j2: int| 0 <= i2 < i ==> !#[trigger] dangling_at(nodes@, i2, j2),
        decreases nodes@.len() - i,
    {
        let deps = &nodes[i].dependencies;
        let mut j: usize = 0;
        while j < deps.len()
            invariant
                i < nodes@.len(),
                deps@ == nodes@[i as int].dependencies@,
                j <= deps@.len(),
                forall|i2: int, j2: int| 0 <= i2 < i ==> !#[trigger] dangling_at(nodes@, i2, j2),
                forall|j2: int| 0 <= j2 < j ==> !#[trigger] dangling_at(nodes@, i as int, j2),
            decreases deps@.len() - j,
        {
            if find_node_index(nodes, deps[j].bits()).is_none() {
                assert(dangling_at(nodes@, i as int, j as int));
                return Some((i, j));
            }
            j = j + 1;
        }
        i = i + 1;
    }
    None
}

/// A later search state extends an earlier one through an intermediate one.
proof fn lemma_extends_trans(
    v0: Map<u128, bool>,
    v1: Map<u128, bool>,
    v2: Map<u128, bool>,
    r0: Map<u128, nat>,
    r1: Map<u128, nat>,
    r2: Map<u128, nat>,
    c0: nat,
    c1: nat,
    c2: nat,
)
    requires
        dfs_extends(v0, v1, r0, r1, c0, c1),
        dfs_extends(v1, v2, r1, r2, c1, c2),
    ensures
        dfs_extends(v0, v2, r0, r2, c0, c2),
{
    assert forall|x: u128| #[trigger] v0.contains_key(x) && !v0[x] implies r2.contains_key(x)
        && r2[x] == r0[x] by {
        assert(v1.contains_key(x) && !v1[x]);
    }
}

/// The visited nodes are among the node identifiers, so there are no more of them.
proof fn lemma_visited_bound(
    nodes: Seq<WorkflowNode>,
    visited: Map<u128, bool>,
    path: Seq<u128>,
    rank: Map<u128, nat>,
    counter: nat,
)
    requires
        visited.dom().finite(),
        dfs_inv(nodes, visited, path, rank, counter),
    ensures
        visited.dom().subset_of(id_set(nodes)),
        visited.dom().len() <= id_set(nodes).len(),
        id_set(nodes).finite(),
{
    reveal(dfs_inv);
    assert forall|x: u128| visited.dom().contains(x) implies id_set(nodes).contains(x) by {
        assert(visited.contains_key(x));
        let k = choose|k: int| 0 <= k < nodes.len() && #[trigger] nodes[k].id@ == x;
        assert(nodes.map_values(|n: WorkflowNode| n.id@)[k] == x);
    }
    vstd::seq_lib::seq_to_set_is_finite(nodes.map_values(|n: WorkflowNode| n.id@));
    vstd::set_lib::lemma_len_subset(visited.dom(), id_set(nodes));
}

/// A node marked as on the path is on the path.
proof fn lemma_grey_on_path(
    nodes: Seq<WorkflowNode>,
    visited: Map<u128, bool>,
    path: Seq<u128>,
    rank: Map<u128, nat>,
    counter: nat,
    d: u128,
)
    requires
        dfs_inv(nodes, visited, path, rank, counter),
        visited.contains_key(d),
        visited[d],
    ensures
        path.contains(d),
{
    reveal(dfs_inv);
}

/// Entering an unvisited node: mark it as on the path and push it.
proof fn lemma_dfs_push(
    nodes: Seq<WorkflowNode>,
    v0: Map<u128, bool>,
    p0: Seq<u128>,
    rank: Map<u128, nat>,
    counter: nat,
    x: u128,
)
    requires
        dfs_inv(nodes, v0, p0, rank, counter),
        has_id(nodes, x),
        !v0.contains_key(x),
        p0.len() > 0 ==> edge(nodes, p0.last(), x),
    ensures
        dfs_inv(nodes, v0.insert(x, true), p0.push(x), rank, counter),
        dfs_extends(v0, v0.insert(x, true), rank, rank, counter, counter),
        forall|k: int| 0 <= k < p0.len() ==> p0[k] != x,
{
    reveal(dfs_inv);
    assert forall|k: int| 0 <= k < p0.len() implies p0[k] != x by {
        assert(v0.contains_key(p0[k]));
    }
    let v1 = v0.insert(x, true);
    let p1 = p0.push(x);
    assert forall|y: u128| #[trigger] v1.contains_key(y) && v1[y] implies p1.contains(y) by {
        if y == x {
            assert(p1[p1.len() - 1] == x);
        } else {
            assert(p0.contains(y));
            let k = choose|k: int| 0 <= k < p0.len() && p0[k] == y;
            assert(p1[k] == y);
        }
    }
    assert forall|k: int| 0 <= k < p1.len() implies v1.contains_key(#[trigger] p1[k])
        && v1[p1[k]] by {
        if k < p0.len() {
            assert(p1[k] == p0[k]);
        }
    }
    assert forall|k: int| 0 <= k < p1.len() - 1 implies edge(
        nodes,
        #[trigger] p1[k],
        p1[k + 1],
    ) by {
        assert(p1[k] == p0[k]);
        if k < p0.len() - 1 {
            assert(p1[k + 1] == p0[k + 1]);
        }
    }
    assert forall|y: u128| #[trigger] v1.contains_key(y) && !v1[y] implies finished_ok(
        nodes,
        v1,
        rank,
        counter,
        y,
    ) by {
        assert(finished_ok(nodes, v0, rank, counter, y));
    }
}

/// Leaving a node whose dependencies are all finished: mark it finished with the next
/// rank and pop it from the path.
proof fn lemma_dfs_pop(
    nodes: Seq<WorkflowNode>,
    v0: Map<u128, bool>,
    p0: Seq<u128>,
    rank: Map<u128, nat>,
    counter: nat,
    v2: Map<u128, bool>,
    rk: Map<u128, nat>,
    ct: nat,
    x: u128,
)
    requires
        dfs_inv(nodes, v2, p0.push(x), rk, ct),
        dfs_extends(v0, v2, rank, rk, counter, ct),
        v2.contains_key(x),
        v2[x],
        !v0.contains_key(x),
        forall|k: int| 0 <= k < p0.len() ==> p0[k] != x,
        forall|e: u128|
            #[trigger] deps_of(nodes, x).contains(e) ==> v2.contains_key(e) && !v2[e],
    ensures
        dfs_inv(nodes, v2.insert(x, false), p0, rk.insert(x, ct), ct + 1),
        dfs_extends(v0, v2.insert(x, false), rank, rk.insert(x, ct), counter, ct + 1),
{
    reveal(dfs_inv);
    let v3 = v2.insert(x, false);
    let rk_new = rk.insert(x, ct);
    let ct_new = ct + 1;
    let p1 = p0.push(x);
    assert forall|y: u128| #[trigger] v3.contains_key(y) && v3[y] implies p0.contains(y) by {
        assert(v2.contains_key(y) && v2[y]);
        assert(p1.contains(y));
        let k = choose|k: int| 0 <= k < p1.len() && p1[k] == y;
        assert(p0[k] == y);
    }
    assert forall|k: int| 0 <= k < p0.len() implies v3.contains_key(#[trigger] p0[k])
        && v3[p0[k]] by {
        assert(p1[k] == p0[k]);
    }
    assert forall|k: int| 0 <= k < p0.len() - 1 implies edge(
        nodes,
        #[trigger] p0[k],
        p0[k + 1],
    ) by {
        assert(p1[k] == p0[k]);
        assert(p1[k + 1] == p0[k + 1]);
    }
    assert forall|y: u128| #[trigger] v3.contains_key(y) && !v3[y] implies finished_ok(
        nodes,
        v3,
        rk_new,
        ct_new,
        y,
    ) by {
        if y == x {
            assert forall|e: u128| #[trigger] deps_of(nodes, y).contains(e) implies v3.contains_key(
                e,
            ) && !v3[e] && rk_new.contains_key(e) && rk_new[e] < rk_new[y] by {
                assert(finished_ok(nodes, v2, rk, ct, e));
            }
        } else {
            assert(finished_ok(nodes, v2, rk, ct, y));
            assert forall|e: u128| #[trigger] deps_of(nodes, y).contains(e) implies v3.contains_key(
                e,
            ) && !v3[e] && rk_new.contains_key(e) && rk_new[e] < rk_new[y] by {
                assert(v2.contains_key(e) && !v2[e]);
            }
        }
    }
    assert forall|y: u128| #[trigger] v0.contains_key(y) implies v3.contains_key(y) && v3[y]
        == v0[y] by {
        assert(v2.contains_key(y));
    }
    assert forall|y: u128| #[trigger] v0.contains_key(y) && !v0[y] implies rk_new.contains_key(y)
        && rk_new[y] == rank[y] by {
        assert(v2.contains_key(y));
    }
}

/// A dependency on a node of the current path closes a cycle: the path from that node on,
/// and the node again.
proof fn lemma_dfs_cycle(
    nodes: Seq<WorkflowNode>,
    visited: Map<u128, bool>,
    path: Seq<u128>,
    rank: Map<u128, nat>,
    counter: nat,
    d: u128,
    p: int,
)
    requires
        dfs_inv(nodes, visited, path, rank, counter),
        path.len() > 0,
        edge(nodes, path.last(), d),
        0 <= p < path.len(),
        path[p] == d,
    ensures
        is_cycle(nodes, path.subrange(p, path.len() as int).push(d)),
{
    reveal(dfs_inv);
    let c = path.subrange(p, path.len() as int).push(d);
    assert(c[0] == path[p]);
    assert forall|m: int| 0 <= m < c.len() - 1 implies edge(nodes, #[trigger] c[m], c[m + 1]) by {
        if m < c.len() - 2 {
            assert(c[m] == path[p + m]);
            assert(c[m + 1] == path[p + m + 1]);
            assert(edge(nodes, path[p + m], path[p + m + 1]));
        } else {
            assert(c[m] == path.last());
        }
    }
}

/// With the search over and every node finished, the ranks strictly decrease along any
/// walk, so no walk comes back to where it started.
proof fn lemma_ranked_walk(
    nodes: Seq<WorkflowNode>,
    visited: Map<u128, bool>,
    rank: Map<u128, nat>,
    counter: nat,
    c: Seq<u128>,
    k: int,
)
    requires
        dfs_inv(nodes, visited, Seq::empty(), rank, counter),
        visited.contains_key(c[0]),
        0 <= k < c.len(),
        forall|m: int| 0 <= m < c.len() - 1 ==> edge(nodes, #[trigger] c[m], c[m + 1]),
    ensures
        visited.contains_key(c[k]) && !visited[c[k]],
        rank[c[k]] + k <= rank[c[0]],
    decreases k,
{
    reveal(dfs_inv);
    if visited[c[0]] {
        assert(Seq::<u128>::empty().contains(c[0]));
    }
    if k > 0 {
        lemma_ranked_walk(nodes, visited, rank, counter, c, k - 1);
        assert(edge(nodes, c[k - 1], c[k]));
        assert(finished_ok(nodes, visited, rank, counter, c[k - 1]));
        assert(deps_of(nodes, c[k - 1]).contains(c[k]));
    }
}

/// With the search over and every node visited, there is no cycle.
proof fn lemma_no_cycle(
    nodes: Seq<WorkflowNode>,
    visited: Map<u128, bool>,
    rank: Map<u128, nat>,
    counter: nat,
)
    requires
        dfs_inv(nodes, visited, Seq::empty(), rank, counter),
        forall|i: int| 0 <= i < nodes.len() ==> visited.contains_key(#[trigger] nodes[i].id@),
    ensures
        !has_cycle(nodes),
{
    if has_cycle(nodes) {
        let c = choose|c: Seq<u128>| is_cycle(nodes, c);
        assert(edge(nodes, c[0], c[1]));
        let i = choose|i: int| 0 <= i < nodes.len() && #[trigger] nodes[i].id@ == c[0];
        assert(visited.contains_key(nodes[i].id@));
        lemma_ranked_walk(nodes, visited, rank, counter, c, c.len() - 1);
    }
}

/// The empty search state.
proof fn lemma_dfs_empty(nodes: Seq<WorkflowNode>)
    ensures
        dfs_inv(nodes, Map::empty(), Seq::empty(), Map::empty(), 0),
{
    reveal(dfs_inv);
}

/// The position of the first occurrence of `x` in `path`.
fn position_of(path: &Vec<u128>, x: u128) -> (r: usize)
    requires
        path@.contains(x),
    ensures
        r < path@.len(),
        path@[r as int] == x,
        forall|k: int| 0 <= k < r ==> path@[k] != x,
{
    let mut i: usize = 0;
    while i < path.len()
        invariant
            i <= path@.len(),
            path@.contains(x),
            forall|k: int| 0 <= k < i ==> path@[k] != x,
        decreases path@.len() - i,
    {
        if path[i] == x {
            return i;
        }
        i = i + 1;
    }
    assert(false);
    0
}

/// The elements of `v` from position `p` on.
fn tail_from(v: &Vec<u128>, p: usize) -> (r: Vec<u128>)
    requires
        p <= v@.len(),
    ensures
        r@ == v@.subrange(p as int, v@.len() as int),
{
    let mut r: Vec<u128> = Vec::new();
    let mut k: usize = p;
    while k < v.len()
        invariant
            p <= k <= v@.len(),
            r@ == v@.subrange(p as int, k as int),
        decreases v@.len() - k,
    {
        r.push(v[k]);
        k = k + 1;
        assert(r@ =~= v@.subrange(p as int, k as int));
    }
    r
}

/// Depth-first search for a cycle from the unvisited node `x`. `visited` marks each visited
/// node as on the current `path` (`true`) or finished (`false`). The ghost ranks order the
/// finished nodes; the updated ranks and counter come back with the result.
fn check_cycle(
    nodes: &Vec<WorkflowNode>,
    x: u128,
    visited: &mut HashMap<u128, bool>,
    path: &mut Vec<u128>,
    Ghost(rank): Ghost<Map<u128, nat>>,
    Ghost(counter): Ghost<nat>,
) -> (r: (Result<(), Vec<u128>>, Ghost<Map<u128, nat>>, Ghost<nat>))
    requires
        !dangling(nodes@),
        has_id(nodes@, x),
        !old(visited)@.contains_key(x),
        dfs_inv(nodes@, old(visited)@, old(path)@, rank, counter),
        old(path)@.len() > 0 ==> edge(nodes@, old(path)@.last(), x),
    ensures
        match r.0 {
            Ok(()) => {
                &&& final(path)@ == old(path)@
                &&& dfs_inv(nodes@, final(visited)@, final(path)@, r.1@, r.2@)
                &&& dfs_extends(old(visited)@, final(visited)@, rank, r.1@, counter, r.2@)
                &&& final(visited)@.contains_key(x)
                &&& !final(visited)@[x]
            },
            Err(c) => is_cycle(nodes@, c@),
        },
        forall|fuel: nat|
            fuel > id_set(nodes@).len() - old(visited)@.dom().len() ==> {
                let sr = #[trigger] dfs_visit(nodes@, fuel, old(visited)@, old(path)@, x);
                &&& sr.1 == match r.0 {
                    Ok(()) => None,
                    Err(c) => Some(c@),
                }
                &&& r.0 is Ok ==> sr.0 == final(visited)@
            },
    decreases id_set(nodes@).len() - old(visited)@.dom().len(),
{
    let ghost v0 = visited@;
    let ghost p0 = path@;
    proof {
        lemma_visited_bound(nodes@, v0, p0, rank, counter);
        lemma_dfs_push(nodes@, v0, p0, rank, counter, x);
    }
    visited.insert(x, true);
    path.push(x);
    let i = find_node_index(nodes, x).unwrap();
    proof {
        lemma_first_with_unique(nodes@, x, i as int);
    }
    let deps = &nodes[i].dependencies;
    let ghost mut rk = rank;
    let ghost mut ct = counter;
    let mut j: usize = 0;
    proof {
        assert forall|fuel: nat| fuel > id_set(nodes@).len() - v0.dom().len() implies #[trigger] dfs_visit(
            nodes@,
            fuel,
            v0,
            p0,
            x,
        ) == dfs_deps(nodes@, fuel, visited@, path@, x, 0) by {}
        assert(v0.dom().insert(x).subset_of(visited@.dom()));
    }
    while j < deps.len()
        invariant
            deps@ == nodes@[i as int].dependencies@,
            is_first_with(nodes@, x, i as int),
            node_index(nodes@, x) == i,
            j <= deps@.len(),
            !dangling(nodes@),
            has_id(nodes@, x),
            !v0.contains_key(x),
            v0 == old(visited)@,
            p0 == old(path)@,
            v0.dom().len() <= id_set(nodes@).len(),
            path@ == p0.push(x),
            visited@.contains_key(x),
            visited@[x],
            dfs_inv(nodes@, visited@, path@, rk, ct),
            dfs_extends(v0, visited@, rank, rk, counter, ct),
            forall|k: int|
                0 <= k < j ==> visited@.contains_key(#[trigger] deps@[k]@) && !visited@[deps@[k]@],
            deps_of(nodes@, x) == id_values(deps@),
            v0.dom().insert(x).subset_of(visited@.dom()),
            forall|fuel: nat|
                fuel > id_set(nodes@).len() - v0.dom().len() ==> #[trigger] dfs_visit(
                    nodes@,
                    fuel,
                    v0,
                    p0,
                    x,
                ) == dfs_deps(nodes@, fuel, visited@, path@, x, j as int),
        decreases deps@.len() - j,
    {
        let d = deps[j].bits();
        let ghost v1 = visited@;
        let ghost pa = path@;
        proof {
            assert forall|fuel: nat| fuel > id_set(nodes@).len() - v0.dom().len() implies #[trigger] dfs_visit(
                nodes@,
                fuel,
                v0,
                p0,
                x,
            ) == dfs_deps(nodes@, fuel, v1, pa, x, j as int) by {}
            assert(!dangling_at(nodes@, i as int, j as int));
            assert(id_values(deps@)[j as int] == d);
            assert(edge(nodes@, x, d));
            assert(path@.last() == x);
        }
        if !visited.contains_key(&d) {
            proof {
                lemma_visited_bound(nodes@, v1, path@, rk, ct);
                assert(v0.dom().insert(x).subset_of(v1.dom()));
                vstd::set_lib::lemma_len_subset(v0.dom().insert(x), v1.dom());
            }
            let (res, Ghost(rk2), Ghost(ct2)) = check_cycle(
                nodes,
                d,
                visited,
                path,
                Ghost(rk),
                Ghost(ct),
            );
            proof {
                assert(v1.dom().len() >= v0.dom().len() + 1);
            }
            match res {
                Err(c) => {
                    proof {
                        assert forall|fuel: nat| fuel > id_set(nodes@).len() - v0.dom().len() implies (
                        #[trigger] dfs_visit(nodes@, fuel, v0, p0, x)).1 == Some(c@) by {
                            assert(dfs_visit(nodes@, fuel, v0, p0, x) == dfs_deps(
                                nodes@,
                                fuel,
                                v1,
                                pa,
                                x,
                                j as int,
                            ));
                            let fc = (fuel - 1) as nat;
                            assert(dfs_visit(nodes@, fc, v1, pa, d).1 == Some(c@));
                        }
                    }
                    return (Err(c), Ghost(rk2), Ghost(ct2));
                },
                Ok(()) => {},
            }
            proof {
                assert forall|fuel: nat| fuel > id_set(nodes@).len() - v0.dom().len() implies #[trigger] dfs_visit(
                    nodes@,
                    fuel,
                    v0,
                    p0,
                    x,
                ) == dfs_deps(nodes@, fuel, visited@, path@, x, j + 1) by {
                    assert(dfs_visit(nodes@, fuel, v0, p0, x) == dfs_deps(
                        nodes@,
                        fuel,
                        v1,
                        path@,
                        x,
                        j as int,
                    ));
                    let fc = (fuel - 1) as nat;
                    assert(dfs_visit(nodes@, fc, v1, path@, d).1 is None);
                    assert(dfs_visit(nodes@, fc, v1, path@, d).0 == visited@);
                }
                lemma_extends_trans(v0, v1, visited@, rank, rk, rk2, counter, ct, ct2);
                assert forall|k: int| 0 <= k < j + 1 implies visited@.contains_key(
                    #[trigger] deps@[k]@,
                ) && !visited@[deps@[k]@] by {
                    if k < j {
                        assert(v1.contains_key(deps@[k]@));
                    }
                }
                rk = rk2;
                ct = ct2;
            }
        } else if *visited.get(&d).unwrap() {
            proof {
                lemma_grey_on_path(nodes@, visited@, path@, rk, ct, d);
            }
            let p = position_of(path, d);
            let mut cycle = tail_from(path, p);
            cycle.push(d);
            proof {
                lemma_dfs_cycle(nodes@, visited@, path@, rk, ct, d, p as int);
                lemma_closed_cycle(path@, d, p as int);
                assert forall|fuel: nat| fuel > id_set(nodes@).len() - v0.dom().len() implies (
                #[trigger] dfs_visit(nodes@, fuel, v0, p0, x)).1 == Some(cycle@) by {
                    assert(dfs_visit(nodes@, fuel, v0, p0, x) == dfs_deps(
                        nodes@,
                        fuel,
                        visited@,
                        path@,
                        x,
                        j as int,
                    ));
                }
            }
            return (Err(cycle), Ghost(rk), Ghost(ct));
        }
        j = j + 1;
    }
    proof {
        assert forall|fuel: nat| fuel > id_set(nodes@).len() - v0.dom().len() implies #[trigger] dfs_visit(
            nodes@,
            fuel,
            v0,
            p0,
            x,
        ) == (visited@.insert(x, false), None::<Seq<u128>>) by {
            assert(dfs_visit(nodes@, fuel, v0, p0, x) == dfs_deps(
                nodes@,
                fuel,
                visited@,
                path@,
                x,
                j as int,
            ));
        }
        assert forall|e: u128| #[trigger] deps_of(nodes@, x).contains(e) implies visited@.contains_key(
            e,
        ) && !visited@[e] by {
            let k = choose|k: int| 0 <= k < id_values(deps@).len() && id_values(deps@)[k] == e;
            assert(deps@[k]@ == e);
        }
        lemma_dfs_pop(nodes@, v0, p0, rank, counter, visited@, rk, ct, x);
    }
    visited.insert(x, false);
    path.pop();
    proof {
        assert(path@ =~= p0);
    }
    (Ok(()), Ghost(rk.insert(x, ct)), Ghost(ct + 1))
}

/// The text of a path: the identifiers joined by ` -> `.
fn path_text(c: &Vec<u128>) -> (r: String)
    ensures
        r@ == join_path(c@),
{
    let mut r = String::new();
    let mut i: usize = 0;
    while i < c.len()
        invariant
            i <= c@.len(),
            r@ == join_path(c@.take(i as int)),
        decreases c@.len() - i,
    {
        let ghost prefix = c@.take(i as int);
        if i > 0 {
            r.append(" -> ");
        }
        let t = uuid_bits_text(c[i]);
        r.append(t.as_str());
        proof {
            reveal_strlit(" -> ");
            let next = c@.take(i + 1);
            assert(next.drop_last() =~= prefix);
            assert(next.last() == c@[i as int]);
            if i == 0 {
                assert(r@ =~= uuid_text(c@[0]));
            } else {
                assert(r@ =~= join_path(prefix) + " -> "@ + uuid_text(c@[i as int]));
            }
        }
        i = i + 1;
    }
    assert(c@.take(i as int) =~= c@);
    r
}

/// The message for a dependency on a node that does not exist.
fn dangling_error(node: u128, dep: u128) -> (s: String)
    ensures
        s@ == dangling_message(node, dep),
{
    let mut s = String::from_str("Node ");
    let a = uuid_bits_text(node);
    s.append(a.as_str());
    s.append(" depends on non-existent node ");
    let b = uuid_bits_text(dep);
    s.append(b.as_str());
    proof {
        reveal_strlit("Node ");
        reveal_strlit(" depends on non-existent node ");
        assert(s@ =~= dangling_message(node, dep));
    }
    s
}

/// The message for a cycle.
fn cycle_error(c: &Vec<u128>) -> (s: String)
    ensures
        s@ == cycle_message(c@),
{
    let t = path_text(c);
    let mut s = String::from_str("Cycle detected in workflow: ");
    s.append(t.as_str());
    proof {
        reveal_strlit("Cycle detected in workflow: ");
        assert(s@ =~= cycle_message(c@));
    }
    s
}

impl Workflow {
    /// Check the workflow: every dependency must name a node of the workflow, and the
    /// dependency graph must have no cycle. The first dangling dependency (in order of nodes,
    /// then of dependencies) is reported first; otherwise the first cycle that a depth-first
    /// search from each node in turn closes (`first_cycle`) is reported as the path that
    /// closes it.
    pub fn validate(&self) -> (r: Result<(), String>)
        ensures
            r is Ok <==> valid_workflow(self.nodes@),
            match r {
                Ok(()) => true,
                Err(s) => if dangling(self.nodes@) {
                    exists|i: int, j: int|
                        first_dangling(self.nodes@, i, j) && s@ == dangling_message(
                            self.nodes@[i].id@,
                            self.nodes@[i].dependencies@[j]@,
                        )
                } else {
                    first_cycle(self.nodes@) matches Some(c) && is_cycle(self.nodes@, c) && s@
                        == cycle_message(c)
                },
            },
    {
        let nodes = &self.nodes;
        match find_dangling(nodes) {
            Some((i, j)) => {
                proof {
                    assert(dangling(nodes@));
                }
                return Err(dangling_error(nodes[i].id.bits(), nodes[i].dependencies[j].bits()));
            },
            None => {},
        }
        let mut visited: HashMap<u128, bool> = HashMap::new();
        let ghost mut rank: Map<u128, nat> = Map::empty();
        let ghost mut counter: nat = 0;
        proof {
            lemma_dfs_empty(nodes@);
            assert(visited@ =~= Map::<u128, bool>::empty());
        }
        let mut i: usize = 0;
        while i < nodes.len()
            invariant
                nodes@ == self.nodes@,
                i <= nodes@.len(),
                !dangling(nodes@),
                dfs_inv(nodes@, visited@, Seq::empty(), rank, counter),
                forall|k: int| 0 <= k < i ==> visited@.contains_key(#[trigger] nodes@[k].id@),
                first_cycle(nodes@) == dfs_from(
                    nodes@,
                    (id_set(nodes@).len() + 1) as nat,
                    visited@,
                    i as int,
                ),
            decreases nodes@.len() - i,
        {
            let x = nodes[i].id.bits();
            let ghost fuel = (id_set(nodes@).len() + 1) as nat;
            let ghost v0 = visited@;
            proof {
                lemma_visited_bound(nodes@, visited@, Seq::empty(), rank, counter);
                assert(fuel > id_set(nodes@).len() - v0.dom().len());
            }
            if !visited.contains_key(&x) {
                let mut path: Vec<u128> = Vec::new();
                proof {
                    assert(has_id(nodes@, nodes@[i as int].id@));
                    assert(path@ =~= Seq::<u128>::empty());
                }
                let ghost v1 = visited@;
                let (res, Ghost(rk2), Ghost(ct2)) = check_cycle(
                    nodes,
                    x,
                    &mut visited,
                    &mut path,
                    Ghost(rank),
                    Ghost(counter),
                );
                proof {
                    assert(dfs_visit(nodes@, fuel, v0, Seq::empty(), x).1 == match res {
                        Ok(()) => None,
                        Err(c) => Some(c@),
                    });
                }
                match res {
                    Err(c) => {
                        let s = cycle_error(&c);
                        proof {
                            assert(has_cycle(nodes@));
                            assert(first_cycle(nodes@) == Some(c@));
                        }
                        return Err(s);
                    },
                    Ok(()) => {},
                }
                proof {
                    assert(dfs_visit(nodes@, fuel, v0, Seq::empty(), x).0 == visited@);
                    assert(first_cycle(nodes@) == dfs_from(nodes@, fuel, visited@, i + 1));
                }
                proof {
                    assert(path@ =~= Seq::<u128>::empty());
                    assert forall|k: int| 0 <= k < i + 1 implies visited@.contains_key(
                        #[trigger] nodes@[k].id@,
                    ) by {
                        if k < i {
                            assert(v1.contains_key(nodes@[k].id@));
                        }
                    }
                    rank = rk2;
                    counter = ct2;
                }
            }
            i = i + 1;
        }
        proof {
            lemma_no_cycle(nodes@, visited@, rank, counter);
        }
        Ok(())
    }
}

} // verus!
