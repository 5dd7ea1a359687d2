//! The graph model: nodes holding operators and output facts, connected by
//! edges from a producer's outlet to a consumer's inlet.
//!
//! An outlet may feed any number of inlets; an inlet accepts exactly one
//! outlet. Node creation never validates in-degree completeness: whole-graph
//! validity is checked once, by [`Graph::validate`], before a graph is
//! translated.

use vstd::prelude::*;
use crate::fact::{Fact, FactView};
use crate::ops::{facts_view, Op, OpView};

verus! {

/// Identifies (node, output slot): the producing end of an edge.
#[derive(Clone, Copy, Debug, PartialEq, Eq, Structural)]
pub struct OutletId {
    pub node: usize,
    pub slot: usize,
}

impl OutletId {
    pub fn new(node: usize, slot: usize) -> (r: OutletId)
        ensures
            r == (OutletId { node, slot }),
    {
        OutletId { node, slot }
    }
}

/// Identifies (node, input slot): the consuming end of an edge.
#[derive(Clone, Copy, Debug, PartialEq, Eq, Structural)]
pub struct InletId {
    pub node: usize,
    pub slot: usize,
}

impl InletId {
    pub fn new(node: usize, slot: usize) -> (r: InletId)
        ensures
            r == (InletId { node, slot }),
    {
        InletId { node, slot }
    }
}

/// Every failure is terminal for the pass in progress: a translation either
/// fully succeeds or the partially built target graph is discarded.
#[derive(Debug, PartialEq, Eq)]
pub enum ModelError {
    /// An edge endpoint's node or outlet does not exist, or a graph handed to
    /// a translation pass is structurally incomplete (an unbound inlet, an
    /// in-degree its operator does not accept, nodes out of dependency
    /// order).
    DanglingReference,
    /// The inlet already has a source.
    InletAlreadyBound,
    /// An outlet index out of range.
    UnknownOutlet,
    /// An operator cannot express its semantics with the requested streaming
    /// axis placement.
    UnsupportedStreamingLayout,
    /// No translator is registered for the operator kind of the named node.
    NoPulsifierForOperator(String),
    /// An interchange-format load against an unregistered name.
    UnknownOperatorName(String),
    /// An interchange-format load of the named operator whose parameter
    /// bindings do not fit the registered template; never silently defaulted.
    InvalidParameters(String),
}

/// Mathematical model of a [`Node`].
#[verifier::ext_equal]
pub struct NodeView {
    pub name: Seq<char>,
    pub op: OpView,
    pub outputs: Seq<FactView>,
    pub inputs: Seq<Option<OutletId>>,
}

/// A graph node: a name, an operator, one output fact per outlet, and the
/// outlet bound to each of its inlets.
#[derive(Debug)]
pub struct Node {
    pub name: String,
    pub op: Op,
    pub outputs: Vec<Fact>,
    pub inputs: Vec<Option<OutletId>>,
}

impl View for Node {
    type V = NodeView;

    open spec fn view(&self) -> NodeView {
        NodeView {
            name: self.name@,
            op: self.op@,
            outputs: facts_view(self.outputs@),
            inputs: self.inputs@,
        }
    }
}

/// Mathematical model of a [`Graph`].
#[verifier::ext_equal]
pub struct GraphView {
    pub nodes: Seq<NodeView>,
    pub outputs: Seq<OutletId>,
    pub properties: Seq<(Seq<char>, Seq<u64>)>,
}

/// A directed graph of operator nodes, its designated external outputs, and
/// named integer-sequence properties.
#[derive(Debug)]
pub struct Graph {
    pub nodes: Vec<Node>,
    pub outputs: Vec<OutletId>,
    pub properties: Vec<(String, Vec<u64>)>,
}

impl View for Graph {
    type V = GraphView;

    open spec fn view(&self) -> GraphView {
        GraphView {
            nodes: self.nodes@.map_values(|n: Node| n@),
            outputs: self.outputs@,
            properties: self.properties@.map_values(|p: (String, Vec<u64>)| (p.0@, p.1@)),
        }
    }
}

/// The inlet list of a node after binding `slot` to `o`: existing slots are
/// kept, missing slots up to `slot` appear unbound.
pub open spec fn bind_slot(
    inputs: Seq<Option<OutletId>>,
    slot: usize,
    o: OutletId,
) -> Seq<Option<OutletId>> {
    Seq::new(
        if slot + 1 > inputs.len() {
            (slot + 1) as nat
        } else {
            inputs.len()
        },
        |j: int|
            if j == slot {
                Option::Some(o)
            } else if j < inputs.len() {
                inputs[j]
            } else {
                Option::None
            },
    )
}

impl GraphView {
    /// Whether `o` names an existing output slot of an existing node.
    pub open spec fn outlet_ok(self, o: OutletId) -> bool {
        o.node < self.nodes.len() && o.slot < self.nodes[o.node as int].outputs.len()
    }

    /// The fact attached to outlet `o`.
    pub open spec fn fact(self, o: OutletId) -> FactView {
        self.nodes[o.node as int].outputs[o.slot as int]
    }

    /// The facts on the outlets feeding node `n`, in inlet order.
    pub open spec fn input_facts(self, n: int) -> Seq<FactView> {
        Seq::new(
            self.nodes[n].inputs.len(),
            |j: int| self.fact(self.nodes[n].inputs[j]->Some_0),
        )
    }

    /// Node `n` is complete and in dependency position: every inlet is bound,
    /// only to outlets of earlier nodes, its in-degree suits its operator and
    /// its outlet count is the operator's.
    pub open spec fn node_wf(self, n: int) -> bool {
        let node = self.nodes[n];
        &&& node.op.in_arity_ok(node.inputs.len())
        &&& node.outputs.len() == node.op.out_arity()
        &&& forall|j: int|
            0 <= j < node.inputs.len() ==> node.inputs[j] is Some && (node.inputs[j]->Some_0).node
                < n && self.outlet_ok(node.inputs[j]->Some_0)
    }

    /// Whole-graph validity for translation or execution: every node is
    /// well-formed (in particular, every inlet is bound to exactly one
    /// outlet, and edges only flow forward, so the edge relation is a DAG),
    /// and the declared outputs exist.
    pub open spec fn translation_ready(self) -> bool {
        &&& forall|n: int| 0 <= n < self.nodes.len() ==> self.node_wf(n)
        &&& forall|k: int| 0 <= k < self.outputs.len() ==> self.outlet_ok(self.outputs[k])
    }

    /// There is an edge from some outlet of node `a` to some inlet of node
    /// `b`.
    pub open spec fn edge(self, a: int, b: int) -> bool {
        &&& 0 <= b < self.nodes.len()
        &&& exists|j: int|
            0 <= j < self.nodes[b].inputs.len() && self.nodes[b].inputs[j] is Some && (
            self.nodes[b].inputs[j]->Some_0).node == a
    }

    /// `p` lists nodes connected by consecutive edges.
    pub open spec fn is_path(self, p: Seq<int>) -> bool {
        forall|i: int| 0 <= i < p.len() - 1 ==> self.edge(#[trigger] p[i], p[i + 1])
    }

    /// Every node's output facts agree with its operator's streaming fact
    /// propagation over the facts feeding it. Graphs grown exclusively
    /// through [`Graph::wire_node`] (and sources added with their own fact)
    /// satisfy this.
    pub open spec fn facts_consistent(self) -> bool {
        forall|n: int|
            0 <= n < self.nodes.len() ==> #[trigger] self.nodes[n].op.streaming_output_facts(
                self.input_facts(n),
            ) == Option::Some(self.nodes[n].outputs)
    }
}

/// In a translation-ready graph every edge flows from a lower to a higher
/// node index, so no path returns to its starting node: the edge relation is
/// acyclic.
pub proof fn lemma_translation_ready_acyclic(g: GraphView, p: Seq<int>)
    requires
        g.translation_ready(),
        g.is_path(p),
        p.len() >= 2,
    ensures
        p.first() < p.last(),
    decreases p.len(),
{
    let b = p[1];
    assert(g.edge(p[0], b));
    let j = choose|j: int|
        0 <= j < g.nodes[b].inputs.len() && g.nodes[b].inputs[j] is Some && (
        g.nodes[b].inputs[j]->Some_0).node == p[0];
    assert(g.node_wf(b));
    assert(p[0] < b);
    if p.len() == 2 {
    } else {
        let q = p.drop_first();
        assert(g.is_path(q)) by {
            assert(forall|i: int| 0 <= i < q.len() - 1 ==> g.edge(#[trigger] q[i], q[i + 1]))
                by {
                assert(forall|i: int|
                    0 <= i < q.len() - 1 ==> #[trigger] q[i] == p[i + 1] && q[i + 1] == p[i + 2]);
            }
        }
        lemma_translation_ready_acyclic(g, q);
        assert(q.first() == p[1] && q.last() == p.last());
    }
}

impl Graph {
    /// An empty graph.
    pub fn empty() -> (r: Graph)
        ensures
            r@ == (GraphView {
                nodes: Seq::<NodeView>::empty(),
                outputs: Seq::<OutletId>::empty(),
                properties: Seq::<(Seq<char>, Seq<u64>)>::empty(),
            }),
    {
        let r = Graph { nodes: Vec::new(), outputs: Vec::new(), properties: Vec::new() };
        proof {
            assert(r@ =~= GraphView {
                nodes: Seq::<NodeView>::empty(),
                outputs: Seq::<OutletId>::empty(),
                properties: Seq::<(Seq<char>, Seq<u64>)>::empty(),
            });
        }
        r
    }

    pub fn node_count(&self) -> (r: usize)
        ensures
            r == self@.nodes.len(),
    {
        self.nodes.len()
    }

    /// Appends a node with the given output facts and no bound inlets, and
    /// returns its id. In-degree completeness is never validated here.
    pub fn add_node(&mut self, name: String, op: Op, output_facts: Vec<Fact>) -> (r: usize)
        ensures
            final(self)@.nodes == old(self)@.nodes.push(
                NodeView {
                    name: name@,
                    op: op@,
                    outputs: facts_view(output_facts@),
                    inputs: Seq::empty(),
                },
            ),
            final(self)@.outputs == old(self)@.outputs,
            final(self)@.properties == old(self)@.properties,
            r == old(self)@.nodes.len(),
    {
        let id = self.nodes.len();
        let node = Node { name, op, outputs: output_facts, inputs: Vec::new() };
        self.nodes.push(node);
        proof {
            assert(self@.nodes =~= old(self)@.nodes.push(self.nodes@.last()@));
        }
        id
    }

    /// Connects `outlet` to `inlet`. Fails with `DanglingReference` when
    /// either endpoint's node (or the outlet's slot) does not exist, and with
    /// `InletAlreadyBound` when the inlet already has a source.
    pub fn add_edge(&mut self, outlet: OutletId, inlet: InletId) -> (r: Result<(), ModelError>)
        ensures
            (r == Result::<(), ModelError>::Err(ModelError::DanglingReference) <==> !(old(
                self,
            )@.outlet_ok(outlet) && inlet.node < old(self)@.nodes.len())),
            old(self)@.outlet_ok(outlet) && inlet.node < old(self)@.nodes.len() ==> (r
                == Result::<(), ModelError>::Err(ModelError::InletAlreadyBound) <==> inlet.slot
                < old(self)@.nodes[inlet.node as int].inputs.len() && old(
                self,
            )@.nodes[inlet.node as int].inputs[inlet.slot as int] is Some),
            r is Err ==> final(self)@ == old(self)@,
            r is Ok ==> final(self)@ == (GraphView {
                nodes: old(self)@.nodes.update(
                    inlet.node as int,
                    NodeView {
                        inputs: bind_slot(
                            old(self)@.nodes[inlet.node as int].inputs,
                            inlet.slot,
                            outlet,
                        ),
                        ..old(self)@.nodes[inlet.node as int]
                    },
                ),
                ..old(self)@
            }),
    {
        if outlet.node >= self.nodes.len() || inlet.node >= self.nodes.len() {
            return Result::Err(ModelError::DanglingReference);
        }
        if outlet.slot >= self.nodes[outlet.node].outputs.len() {
            return Result::Err(ModelError::DanglingReference);
        }
        let cur_len = self.nodes[inlet.node].inputs.len();
        if inlet.slot < cur_len && self.nodes[inlet.node].inputs[inlet.slot].is_some() {
            return Result::Err(ModelError::InletAlreadyBound);
        }
        let mut new_inputs: Vec<Option<OutletId>> = Vec::new();
        let mut j: usize = 0;
        while j < cur_len
            invariant
                j <= cur_len,
                cur_len == self.nodes@[inlet.node as int].inputs@.len(),
                inlet.node < self.nodes@.len(),
                new_inputs@.len() == j,
                forall|k: int|
                    0 <= k < j ==> new_inputs@[k] == self.nodes@[inlet.node as int].inputs@[k],
                *self == *old(self),
            decreases cur_len - j,
        {
            new_inputs.push(self.nodes[inlet.node].inputs[j]);
            j += 1;
        }
        if inlet.slot < new_inputs.len() {
            new_inputs[inlet.slot] = Option::Some(outlet);
        } else {
            while new_inputs.len() < inlet.slot
                invariant
                    new_inputs@.len() <= inlet.slot,
                    new_inputs@.len() >= cur_len,
                    forall|k: int|
                        0 <= k < cur_len ==> new_inputs@[k] == old(self)@.nodes[inlet.node as int]
                            .inputs[k],
                    forall|k: int| cur_len <= k < new_inputs@.len() ==> new_inputs@[k] is None,
                    *self == *old(self),
                decreases inlet.slot - new_inputs@.len(),
            {
                new_inputs.push(Option::None);
            }
            new_inputs.push(Option::Some(outlet));
        }
        proof {
            assert(new_inputs@ =~= bind_slot(
                old(self)@.nodes[inlet.node as int].inputs,
                inlet.slot,
                outlet,
            ));
        }
        let node_ref = &mut self.nodes[inlet.node];
        node_ref.inputs = new_inputs;
        proof {
            assert(self@ =~~= GraphView {
                nodes: old(self)@.nodes.update(
                    inlet.node as int,
                    NodeView {
                        inputs: bind_slot(
                            old(self)@.nodes[inlet.node as int].inputs,
                            inlet.slot,
                            outlet,
                        ),
                        ..old(self)@.nodes[inlet.node as int]
                    },
                ),
                ..old(self)@
            });
        }
        Result::Ok(())
    }

    /// The fact attached to `outlet`; fails with `UnknownOutlet` when the
    /// outlet is out of range.
    pub fn outlet_fact(&self, outlet: OutletId) -> (r: Result<&Fact, ModelError>)
        ensures
            match r {
                Result::Ok(f) => self@.outlet_ok(outlet) && f@ == self@.fact(outlet),
                Result::Err(e) => !self@.outlet_ok(outlet) && e == ModelError::UnknownOutlet,
            },
    {
        if outlet.node >= self.nodes.len() {
            return Result::Err(ModelError::UnknownOutlet);
        }
        if outlet.slot >= self.nodes[outlet.node].outputs.len() {
            return Result::Err(ModelError::UnknownOutlet);
        }
        Result::Ok(&self.nodes[outlet.node].outputs[outlet.slot])
    }

    /// The graph's designated external outputs.
    pub fn output_outlets(&self) -> (r: &Vec<OutletId>)
        ensures
            r@ == self@.outputs,
    {
        &self.outputs
    }

    /// Declares the graph's external outputs, set separately from node
    /// creation.
    pub fn set_output_outlets(&mut self, outlets: Vec<OutletId>)
        ensures
            final(self)@ == (GraphView { outputs: outlets@, ..old(self)@ }),
    {
        self.outputs = outlets;
        proof {
            assert(self@ =~~= GraphView { outputs: self.outputs@, ..old(self)@ });
        }
    }

    /// Whether `op` is the synthetic marker for the point where a value
    /// enters the graph.
    pub fn is_source(op: &Op) -> (r: bool)
        ensures
            r == op@.is_source(),
    {
        match op {
            Op::Source { .. } => true,
            _ => false,
        }
    }

    /// The source operator emitting `fact`.
    pub fn create_source(&self, fact: Fact) -> (r: Op)
        ensures
            r@ == (OpView::Source { fact: fact@ }),
    {
        Op::Source { fact }
    }

    /// The structurally valid no-op placeholder.
    pub fn create_dummy(&self) -> (r: Op)
        ensures
            r@ == OpView::Dummy,
    {
        Op::Dummy
    }

    fn outlet_in_range(&self, o: OutletId) -> (r: bool)
        ensures
            r == self@.outlet_ok(o),
    {
        o.node < self.nodes.len() && o.slot < self.nodes[o.node].outputs.len()
    }

    fn node_wf_exec(&self, n: usize) -> (r: bool)
        requires
            n < self@.nodes.len(),
        ensures
            r == self@.node_wf(n as int),
    {
        let in_count = self.nodes[n].inputs.len();
        let arity_ok = match &self.nodes[n].op {
            Op::Source { .. } => in_count == 0,
            Op::Dummy => in_count == 0,
            Op::ElementWise { .. } => in_count >= 1,
            Op::Buffering { .. } => in_count == 1,
            Op::Reduce { .. } => in_count == 1,
        };
        if !arity_ok {
            return false;
        }
        let out_expected: usize = match &self.nodes[n].op {
            Op::Dummy => 0,
            _ => 1,
        };
        if self.nodes[n].outputs.len() != out_expected {
            return false;
        }
        let mut j: usize = 0;
        while j < self.nodes[n].inputs.len()
            invariant
                n < self@.nodes.len(),
                j <= self@.nodes[n as int].inputs.len(),
                forall|k: int|
                    0 <= k < j ==> self@.nodes[n as int].inputs[k] is Some && (self@.nodes[
                        n as int
                    ].inputs[k]->Some_0).node < n && self@.outlet_ok(
                        self@.nodes[n as int].inputs[k]->Some_0,
                    ),
            decreases self@.nodes[n as int].inputs.len() - j,
        {
            match self.nodes[n].inputs[j] {
                Option::Some(o) => {
                    if o.node >= n || !self.outlet_in_range(o) {
                        return false;
                    }
                },
                Option::None => {
                    return false;
                },
            }
            j += 1;
        }
        true
    }

    /// Checks whole-graph validity: every inlet bound, edges in dependency
    /// order, in-degrees and outlet counts matching each node's operator, and
    /// the declared outputs existing.
    pub fn validate(&self) -> (r: bool)
        ensures
            r == self@.translation_ready(),
    {
        let mut n: usize = 0;
        while n < self.nodes.len()
            invariant
                n <= self@.nodes.len(),
                forall|m: int| 0 <= m < n ==> self@.node_wf(m),
            decreases self@.nodes.len() - n,
        {
            if !self.node_wf_exec(n) {
                return false;
            }
            n += 1;
        }
        let mut k: usize = 0;
        while k < self.outputs.len()
            invariant
                k <= self@.outputs.len(),
                forall|m: int| 0 <= m < self@.nodes.len() ==> self@.node_wf(m),
                forall|m: int| 0 <= m < k ==> self@.outlet_ok(self@.outputs[m]),
            decreases self@.outputs.len() - k,
        {
            if !self.outlet_in_range(self.outputs[k]) {
                return false;
            }
            k += 1;
        }
        true
    }

    /// Wires a new node into the graph: asks `op` for its output facts from
    /// the facts on `inputs`, creates the node, connects each input outlet to
    /// the corresponding inlet, and returns the new node's outlets. The graph
    /// is unchanged on failure.
    pub fn wire_node(&mut self, name: String, op: Op, inputs: &Vec<OutletId>) -> (r: Result<
        Vec<OutletId>,
        ModelError,
    >)
        requires
            op@.in_arity_ok(inputs@.len()),
        ensures
            match r {
                Result::Ok(outs) => {
                    let ins = Seq::new(inputs@.len(), |j: int| old(self)@.fact(inputs@[j]));
                    &&& forall|j: int| 0 <= j < inputs@.len() ==> old(self)@.outlet_ok(inputs@[j])
                    &&& op@.streaming_output_facts(ins) is Some
                    &&& final(self)@ == (GraphView {
                        nodes: old(self)@.nodes.push(
                            NodeView {
                                name: name@,
                                op: op@,
                                outputs: op@.streaming_output_facts(ins)->Some_0,
                                inputs: inputs@.map_values(|o: OutletId| Option::Some(o)),
                            },
                        ),
                        ..old(self)@
                    })
                    &&& outs@.len() == op@.out_arity()
                    &&& forall|k: int|
                        0 <= k < outs@.len() ==> outs@[k] == (OutletId {
                            node: old(self)@.nodes.len() as usize,
                            slot: k as usize,
                        })
                },
                Result::Err(e) => {
                    &&& final(self)@ == old(self)@
                    &&& (e == ModelError::UnknownOutlet || e
                        == ModelError::UnsupportedStreamingLayout)
                    &&& (e == ModelError::UnknownOutlet <==> exists|j: int|
                        0 <= j < inputs@.len() && !old(self)@.outlet_ok(inputs@[j]))
                    &&& e == ModelError::UnsupportedStreamingLayout ==> op@.streaming_output_facts(
                        Seq::new(inputs@.len(), |j: int| old(self)@.fact(inputs@[j])),
                    ) is None
                },
            },
    {
        let ghost ins = Seq::new(inputs@.len(), |j: int| self@.fact(inputs@[j]));
        let mut in_facts: Vec<Fact> = Vec::new();
        let mut j: usize = 0;
        while j < inputs.len()
            invariant
                j <= inputs@.len(),
                *self == *old(self),
                ins == Seq::new(inputs@.len(), |j: int| self@.fact(inputs@[j])),
                in_facts@.len() == j,
                forall|k: int| 0 <= k < j ==> self@.outlet_ok(inputs@[k]),
                forall|k: int| 0 <= k < j ==> in_facts@[k]@ == ins[k],
                op@.in_arity_ok(inputs@.len()),
            decreases inputs@.len() - j,
        {
            let copied = match self.outlet_fact(inputs[j]) {
                Result::Ok(f) => f.duplicate(),
                Result::Err(e) => {
                    return Result::Err(e);
                },
            };
            in_facts.push(copied);
            j += 1;
        }
        proof {
            assert(facts_view(in_facts@) =~= ins);
        }
        let output_facts = match op.propagate_streaming_facts(&in_facts) {
            Result::Ok(fs) => fs,
            Result::Err(e) => {
                return Result::Err(e);
            },
        };
        proof {
            let gfs = op@.streaming_output_facts(ins)->Some_0;
            assert(facts_view(output_facts@) == gfs);
            assert(ins.len() == inputs@.len());
            match op@ {
                OpView::Source { .. } => assert(gfs.len() == 1),
                OpView::Dummy => assert(gfs.len() == 0),
                OpView::ElementWise { .. } => assert(gfs.len() == 1),
                OpView::Buffering { .. } => assert(gfs.len() == 1),
                OpView::Reduce { .. } => assert(gfs.len() == 1),
            }
            assert(output_facts@.len() == gfs.len());
        }
        let id = self.nodes.len();
        let mut bound: Vec<Option<OutletId>> = Vec::new();
        let mut k: usize = 0;
        while k < inputs.len()
            invariant
                k <= inputs@.len(),
                bound@.len() == k,
                forall|m: int| 0 <= m < k ==> bound@[m] == Option::Some(inputs@[m]),
            decreases inputs@.len() - k,
        {
            bound.push(Option::Some(inputs[k]));
            k += 1;
        }
        proof {
            assert(bound@ =~= inputs@.map_values(|o: OutletId| Option::Some(o)));
        }
        let out_count = output_facts.len();
        let node = Node { name, op, outputs: output_facts, inputs: bound };
        self.nodes.push(node);
        proof {
            assert(self@ =~~= GraphView {
                nodes: old(self)@.nodes.push(self.nodes@.last()@),
                ..old(self)@
            });
        }
        let mut outs: Vec<OutletId> = Vec::new();
        let mut s: usize = 0;
        while s < out_count
            invariant
                s <= out_count,
                outs@.len() == s,
                forall|m: int| 0 <= m < s ==> outs@[m] == (OutletId { node: id, slot: m as usize }),
            decreases out_count - s,
        {
            outs.push(OutletId { node: id, slot: s });
            s += 1;
        }
        Result::Ok(outs)
    }
}

} // verus!
