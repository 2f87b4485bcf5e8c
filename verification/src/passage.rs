//! Passages and the passage graph.
use vstd::prelude::*;
use crate::content::ContentNode;
use crate::text::{copy_string, string_eq_str};

verus! {

/// A single passage (narrative node) in the story graph.
#[derive(Debug)]
pub struct PassageNode {
    pub id: String,
    pub tags: Vec<String>,
    /// Parsed content tree.
    pub body: Vec<ContentNode>,
    /// Inline scripts (fenced code blocks within the passage).
    pub scripts: Vec<PassageScript>,
    /// Hooks declared in this passage via `@hook:` directives.
    pub hooks: Vec<HookDeclaration>,
}

/// A script block extracted from a passage, with its language tag.
#[derive(Debug)]
pub struct PassageScript {
    pub lang: String,
    pub code: String,
}

/// A hook declared in a passage body.
#[derive(Debug)]
pub struct HookDeclaration {
    pub event: String,
    pub script: PassageScript,
}

/// An edge in the passage graph.
#[derive(Debug)]
pub struct PassageEdge {
    pub from: String,
    pub to: String,
    pub kind: EdgeKind,
}

/// What made an edge.
#[derive(Debug, Clone, Copy, PartialEq, Eq, Structural)]
pub enum EdgeKind {
    Link,
    Display,
    Script,
}

/// The directed graph of all passages.
#[derive(Debug)]
pub struct PassageGraph {
    pub nodes: Vec<PassageNode>,
    pub edges: Vec<PassageEdge>,
}

/// An edge by its content: source, target and kind.
pub open spec fn edge_model(e: PassageEdge) -> (Seq<char>, Seq<char>, EdgeKind) {
    (e.from@, e.to@, e.kind)
}

/// `i` is the first node with id `id`.
pub open spec fn node_first(nodes: Seq<PassageNode>, id: Seq<char>, i: int) -> bool {
    &&& 0 <= i < nodes.len()
    &&& nodes[i].id@ == id
    &&& forall|j: int| 0 <= j < i ==> nodes[j].id@ != id
}

/// Index of the node that `PassageGraph::get` finds.
pub open spec fn node_index(nodes: Seq<PassageNode>, id: Seq<char>) -> Option<int> {
    if exists|i: int| node_first(nodes, id, i) {
        Some(choose|i: int| node_first(nodes, id, i))
    } else {
        None
    }
}

pub proof fn lemma_node_index_at(nodes: Seq<PassageNode>, id: Seq<char>, i: int)
    requires
        node_first(nodes, id, i),
    ensures
        node_index(nodes, id) == Some(i),
{
    let m = choose|m: int| node_first(nodes, id, m);
    assert(node_first(nodes, id, m));
    if m < i {
        assert(nodes[m].id@ != id);
    }
    if i < m {
        assert(nodes[i].id@ != id);
    }
}

/// Edges that the links and displays of a body make, in order, those
/// inside the branches of a conditional included (then before else).
pub open spec fn body_edges(id: Seq<char>, body: Seq<ContentNode>) -> Seq<
    (Seq<char>, Seq<char>, EdgeKind),
>
    decreases body,
{
    if body.len() == 0 {
        Seq::empty()
    } else {
        body_edges(id, body.drop_last()) + node_edges(id, body.last())
    }
}

/// Edges that one content node makes.
pub open spec fn node_edges(id: Seq<char>, node: ContentNode) -> Seq<
    (Seq<char>, Seq<char>, EdgeKind),
>
    decreases node,
{
    match node {
        ContentNode::Link { target, .. } => seq![(id, target@, EdgeKind::Link)],
        ContentNode::Display { passage } => seq![(id, passage@, EdgeKind::Display)],
        ContentNode::Conditional { then_branch, else_branch, .. } => body_edges(id, then_branch@)
            + body_edges(id, else_branch@),
        _ => Seq::empty(),
    }
}

/// Edges of all nodes, in node order.
pub open spec fn graph_edges(nodes: Seq<PassageNode>) -> Seq<(Seq<char>, Seq<char>, EdgeKind)>
    decreases nodes.len(),
{
    if nodes.len() == 0 {
        Seq::empty()
    } else {
        graph_edges(nodes.drop_last()) + body_edges(nodes.last().id@, nodes.last().body@)
    }
}

/// Edges leaving `from`, in order.
pub open spec fn outbound_edges(edges: Seq<PassageEdge>, from: Seq<char>) -> Seq<PassageEdge>
    decreases edges.len(),
{
    if edges.len() == 0 {
        Seq::empty()
    } else if edges.last().from@ == from {
        outbound_edges(edges.drop_last(), from).push(edges.last())
    } else {
        outbound_edges(edges.drop_last(), from)
    }
}

impl PassageScript {
    pub fn copy(&self) -> (r: PassageScript)
        ensures
            r.lang@ == self.lang@,
            r.code@ == self.code@,
    {
        PassageScript { lang: copy_string(&self.lang), code: copy_string(&self.code) }
    }
}

impl HookDeclaration {
    pub fn copy(&self) -> (r: HookDeclaration)
        ensures
            r.event@ == self.event@,
            r.script.lang@ == self.script.lang@,
            r.script.code@ == self.script.code@,
    {
        HookDeclaration { event: copy_string(&self.event), script: self.script.copy() }
    }
}

impl PassageGraph {
    /// An empty graph.
    pub fn new() -> (r: PassageGraph)
        ensures
            r.nodes@.len() == 0,
            r.edges@.len() == 0,
    {
        PassageGraph { nodes: Vec::new(), edges: Vec::new() }
    }

    /// Index of the first passage with the given ID.
    pub fn index_of(&self, id: &str) -> (r: Option<usize>)
        ensures
            r matches Some(i) ==> node_index(self.nodes@, id@) == Some(i as int),
            r is None ==> node_index(self.nodes@, id@) is None,
    {
        let mut i: usize = 0;
        while i < self.nodes.len()
            invariant
                i <= self.nodes.len(),
                forall|j: int| 0 <= j < i ==> self.nodes@[j].id@ != id@,
            decreases self.nodes.len() - i,
        {
            if string_eq_str(&self.nodes[i].id, id) {
                proof {
                    lemma_node_index_at(self.nodes@, id@, i as int);
                }
                return Some(i);
            }
            i = i + 1;
        }
        None
    }

    /// Find a passage node by ID.
    pub fn get(&self, id: &str) -> (r: Option<&PassageNode>)
        ensures
            r matches Some(n) ==> node_index(self.nodes@, id@) matches Some(i) && *n
                == self.nodes@[i],
            r is None ==> node_index(self.nodes@, id@) is None,
    {
        match self.index_of(id) {
            Some(i) => Some(&self.nodes[i]),
            None => None,
        }
    }

    /// Collect outbound edges from this passage.
    pub fn outbound(&self, from: &str) -> (r: Vec<&PassageEdge>)
        ensures
            r@.map_values(|e: &PassageEdge| *e) == outbound_edges(self.edges@, from@),
    {
        let mut r: Vec<&PassageEdge> = Vec::new();
        let mut i: usize = 0;
        while i < self.edges.len()
            invariant
                i <= self.edges.len(),
                r@.map_values(|e: &PassageEdge| *e) == outbound_edges(
                    self.edges@.take(i as int),
                    from@,
                ),
            decreases self.edges.len() - i,
        {
            let ghost t = self.edges@.take(i + 1);
            assert(t.drop_last() =~= self.edges@.take(i as int));
            let ghost before = r@;
            if string_eq_str(&self.edges[i].from, from) {
                r.push(&self.edges[i]);
                assert(r@.map_values(|e: &PassageEdge| *e) =~= before.map_values(
                    |e: &PassageEdge| *e,
                ).push(self.edges@[i as int]));
            }
            i = i + 1;
        }
        assert(self.edges@.take(self.edges.len() as int) =~= self.edges@);
        r
    }

    /// Build edges from the links and displays in the passage bodies,
    /// conditional branches included.
    pub fn rebuild_edges(&mut self)
        ensures
            final(self).nodes == old(self).nodes,
            final(self).edges@.map_values(|e: PassageEdge| edge_model(e)) == graph_edges(
                old(self).nodes@,
            ),
    {
        let mut edges: Vec<PassageEdge> = Vec::new();
        let mut n: usize = 0;
        while n < self.nodes.len()
            invariant
                n <= self.nodes.len(),
                edges_model(edges@) == graph_edges(self.nodes@.take(n as int)),
            decreases self.nodes.len() - n,
        {
            let node = &self.nodes[n];
            push_body_edges(&node.id, &node.body, &mut edges);
            let ghost t = self.nodes@.take(n + 1);
            assert(t.drop_last() =~= self.nodes@.take(n as int));
            n = n + 1;
        }
        assert(self.nodes@.take(self.nodes.len() as int) =~= self.nodes@);
        self.edges = edges;
    }
}

pub open spec fn edges_model(v: Seq<PassageEdge>) -> Seq<(Seq<char>, Seq<char>, EdgeKind)> {
    v.map_values(|e: PassageEdge| edge_model(e))
}

/// Append the edges that `body` makes from passage `id`.
fn push_body_edges(id: &String, body: &Vec<ContentNode>, edges: &mut Vec<PassageEdge>)
    ensures
        edges_model(final(edges)@) == edges_model(old(edges)@) + body_edges(id@, body@),
    decreases body@,
{
    let ghost base = edges_model(edges@);
    let mut k: usize = 0;
    while k < body.len()
        invariant
            k <= body.len(),
            edges_model(edges@) == base + body_edges(id@, body@.take(k as int)),
        decreases body.len() - k,
    {
        let ghost t = body@.take(k + 1);
        assert(t.drop_last() =~= body@.take(k as int));
        proof {
            assert(decreases_to!(body@ => body@[k as int]));
        }
        push_node_edges(id, &body[k], edges);
        assert(edges_model(edges@) =~= base + body_edges(id@, t));
        k = k + 1;
    }
    assert(body@.take(body.len() as int) =~= body@);
}

/// Append the edges that one node makes from passage `id`.
fn push_node_edges(id: &String, node: &ContentNode, edges: &mut Vec<PassageEdge>)
    ensures
        edges_model(final(edges)@) == edges_model(old(edges)@) + node_edges(id@, *node),
    decreases *node,
{
    let ghost before = edges@;
    match node {
        ContentNode::Link { target, .. } => {
            edges.push(PassageEdge { from: copy_string(id), to: copy_string(target), kind: EdgeKind::Link });
            assert(edges_model(edges@) =~= edges_model(before) + node_edges(id@, *node));
        },
        ContentNode::Display { passage } => {
            edges.push(
                PassageEdge { from: copy_string(id), to: copy_string(passage), kind: EdgeKind::Display },
            );
            assert(edges_model(edges@) =~= edges_model(before) + node_edges(id@, *node));
        },
        ContentNode::Conditional { then_branch, else_branch, .. } => {
            push_body_edges(id, then_branch, edges);
            push_body_edges(id, else_branch, edges);
            assert(edges_model(edges@) =~= edges_model(before) + node_edges(id@, *node));
        },
        _ => {
            assert(edges_model(edges@) =~= edges_model(before) + node_edges(id@, *node));
        },
    }
}

} // verus!
