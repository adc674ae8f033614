//! The bookkeeping of a render graph walk: the outputs that executed nodes publish, and the
//! resolution of a node's inputs from the outputs of the nodes its edges come from.
use vstd::prelude::*;

verus! {

/// Where an input slot takes its value from: an output slot of another node.
#[derive(Clone, Copy, Debug, PartialEq, Eq, Structural)]
pub struct SlotEdge {
    pub output_node: u64,
    pub output_index: usize,
}

/// Why a node's inputs cannot be resolved.
#[derive(Clone, Copy, Debug, PartialEq, Eq, Structural)]
pub enum GraphError {
    /// An input slot has no edge into it.
    NoEdge,
    /// The node an edge comes from has not run yet.
    NodeInputsNotSet,
    /// The output slot an edge comes from holds no resource.
    OutputNotSet,
}

/// The outputs each node published, the latest publication of a node replacing earlier ones.
pub open spec fn outputs_map(e: Seq<(u64, Seq<Option<u64>>)>) -> Map<u64, Seq<Option<u64>>>
    decreases e.len(),
{
    if e.len() == 0 {
        Map::empty()
    } else {
        outputs_map(e.drop_last()).insert(e.last().0, e.last().1)
    }
}

/// The outputs published by the nodes that ran so far in a frame.
pub struct NodeOutputs {
    entries: Vec<(u64, Vec<Option<u64>>)>,
}

impl NodeOutputs {
    pub closed spec fn published(&self) -> Seq<(u64, Seq<Option<u64>>)> {
        self.entries@.map_values(|p: (u64, Vec<Option<u64>>)| (p.0, p.1@))
    }

    /// The output slots of each node that ran.
    pub open spec fn view(&self) -> Map<u64, Seq<Option<u64>>> {
        outputs_map(self.published())
    }

    pub fn new() -> (r: NodeOutputs)
        ensures
            r@ == Map::<u64, Seq<Option<u64>>>::empty(),
    {
        let r = NodeOutputs { entries: Vec::new() };
        assert(r.published() =~= Seq::<(u64, Seq<Option<u64>>)>::empty());
        r
    }

    /// Publishes the output slots of node `node`.
    pub fn publish(&mut self, node: u64, slots: Vec<Option<u64>>)
        ensures
            final(self)@ == old(self)@.insert(node, slots@),
    {
        let ghost p0 = self.published();
        let ghost s = slots@;
        self.entries.push((node, slots));
        assert(self.published() =~= p0.push((node, s)));
        assert(self.published().drop_last() =~= p0);
    }

    /// The output slots node `node` published.
    pub fn get(&self, node: u64) -> (r: Option<&Vec<Option<u64>>>)
        ensures
            match r {
                Some(v) => self@.contains_key(node) && self@[node] == v@,
                None => !self@.contains_key(node),
            },
    {
        let mut i: usize = self.entries.len();
        while i > 0
            invariant
                i <= self.entries@.len(),
                forall|j: int| i <= j < self.entries@.len() ==> (#[trigger] self.entries@[j]).0 != node,
            decreases i,
        {
            if self.entries[i - 1].0 == node {
                proof {
                    lemma_latest(self.published(), node, i as int);
                    assert(self.published().take(i as int).last() == self.published()[i - 1]);
                }
                return Some(&self.entries[i - 1].1);
            }
            i -= 1;
        }
        proof {
            lemma_latest(self.published(), node, 0);
            assert(outputs_map(self.published().take(0)) =~= Map::<u64, Seq<Option<u64>>>::empty());
        }
        None
    }
}

proof fn lemma_latest(e: Seq<(u64, Seq<Option<u64>>)>, k: u64, t: int)
    requires
        0 <= t <= e.len(),
        forall|j: int| t <= j < e.len() ==> (#[trigger] e[j]).0 != k,
    ensures
        outputs_map(e).contains_key(k) == outputs_map(e.take(t)).contains_key(k),
        outputs_map(e).contains_key(k) ==> outputs_map(e)[k] == outputs_map(e.take(t))[k],
    decreases e.len(),
{
    if t == e.len() {
        assert(e.take(t) =~= e);
    } else {
        let d = e.drop_last();
        assert(d.take(t) =~= e.take(t));
        assert forall|j: int| t <= j < d.len() implies (#[trigger] d[j]).0 != k by {
            assert(d[j] == e[j]);
        }
        lemma_latest(d, k, t);
        assert(e.last() == e[e.len() - 1]);
    }
}

/// The resource an input slot takes over its edge, or why it cannot.
pub open spec fn resolve_one(m: Map<u64, Seq<Option<u64>>>, edge: Option<SlotEdge>) -> Result<
    u64,
    GraphError,
> {
    match edge {
        None => Err(GraphError::NoEdge),
        Some(e) => if !m.contains_key(e.output_node) {
            Err(GraphError::NodeInputsNotSet)
        } else if e.output_index < m[e.output_node].len() && m[e.output_node][e.output_index as int] is Some {
            Ok(m[e.output_node][e.output_index as int].unwrap())
        } else {
            Err(GraphError::OutputNotSet)
        },
    }
}

/// The resources of a node's input slots, in order, or the first input that cannot be
/// resolved.
pub open spec fn resolve_spec(m: Map<u64, Seq<Option<u64>>>, edges: Seq<Option<SlotEdge>>) -> Result<
    Seq<u64>,
    GraphError,
>
    decreases edges.len(),
{
    if edges.len() == 0 {
        Ok(Seq::empty())
    } else {
        match resolve_spec(m, edges.drop_last()) {
            Err(e) => Err(e),
            Ok(s) => match resolve_one(m, edges.last()) {
                Ok(x) => Ok(s.push(x)),
                Err(e) => Err(e),
            },
        }
    }
}

proof fn lemma_resolve_prefix_err(m: Map<u64, Seq<Option<u64>>>, edges: Seq<Option<SlotEdge>>, k: int)
    requires
        0 <= k <= edges.len(),
        resolve_spec(m, edges.take(k)) is Err,
    ensures
        resolve_spec(m, edges) == resolve_spec(m, edges.take(k)),
    decreases edges.len(),
{
    if k < edges.len() {
        let d = edges.drop_last();
        assert(d.take(k) =~= edges.take(k));
        lemma_resolve_prefix_err(m, d, k);
    } else {
        assert(edges.take(k) =~= edges);
    }
}

/// Resolves the input slots of a node whose input edges are `edges` (one per slot, `None`
/// where no edge comes in) against the outputs published so far.
pub fn resolve_inputs(outputs: &NodeOutputs, edges: &Vec<Option<SlotEdge>>) -> (r: Result<
    Vec<u64>,
    GraphError,
>)
    ensures
        match r {
            Ok(v) => resolve_spec(outputs@, edges@) == Ok::<Seq<u64>, GraphError>(v@),
            Err(e) => resolve_spec(outputs@, edges@) == Err::<Seq<u64>, GraphError>(e),
        },
{
    let mut v: Vec<u64> = Vec::new();
    let mut i: usize = 0;
    while i < edges.len()
        invariant
            i <= edges@.len(),
            resolve_spec(outputs@, edges@.take(i as int)) == Ok::<Seq<u64>, GraphError>(v@),
        decreases edges@.len() - i,
    {
        proof {
            assert(edges@.take(i + 1).drop_last() =~= edges@.take(i as int));
            assert(edges@.take(i + 1).last() == edges@[i as int]);
        }
        let step: Result<u64, GraphError> = match edges[i] {
            None => Err(GraphError::NoEdge),
            Some(e) => match outputs.get(e.output_node) {
                None => Err(GraphError::NodeInputsNotSet),
                Some(slots) => if e.output_index < slots.len() {
                    match slots[e.output_index] {
                        Some(x) => Ok(x),
                        None => Err(GraphError::OutputNotSet),
                    }
                } else {
                    Err(GraphError::OutputNotSet)
                },
            },
        };
        match step {
            Ok(x) => {
                v.push(x);
            },
            Err(err) => {
                proof {
                    lemma_resolve_prefix_err(outputs@, edges@, i + 1);
                }
                return Err(err);
            },
        }
        i += 1;
    }
    assert(edges@.take(i as int) =~= edges@);
    Ok(v)
}

} // verus!
