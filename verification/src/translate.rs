//! The translation engine and its pulsed specialization.
//!
//! Pulsification walks a whole-tensor ("static") graph in dependency order,
//! translates each node through the pulsifier table — an extensible,
//! append-only collection of per-operator-kind translators assembled before
//! any translation begins — and keeps an outlet-to-outlet mapping from the
//! source graph to the streaming graph under construction. The inverse pass,
//! [`PulsedModelExt::into_typed`], folds a streaming graph back into a static
//! one and records each declared output's final delay under the `pulse.delay`
//! property.

use vstd::prelude::*;
use crate::fact::{Dim, Fact, FactView};
use crate::graph::{Graph, GraphView, ModelError, NodeView, OutletId};
use crate::ops::{Op, OpKind, OpView};

verus! {

broadcast use vstd::string::to_string_from_display_ensures_for_str;

/// How a registered translator rewrites one node into streaming form.
#[derive(Clone, Copy, Debug, PartialEq, Eq, Structural)]
pub enum PulseRule {
    /// Replaces a source by a pulsed source: its static fact is cut along its
    /// streaming axis into pulse-sized windows with no initial delay.
    PulseSource,
    /// Re-wires the node unchanged; its output facts follow the operator's
    /// streaming fact propagation.
    Passthrough,
}

/// One pulsifier-table entry: an operator kind and its translator.
#[derive(Clone, Copy, Debug, PartialEq, Eq, Structural)]
pub struct OpPulsifier {
    pub kind: OpKind,
    pub func: PulseRule,
}

/// The collection of streaming translators: each module defining a
/// streaming-capable operator kind contributes its entry before any
/// translation runs; translations only ever read it.
#[derive(Debug)]
pub struct PulsifierTable {
    pub entries: Vec<OpPulsifier>,
}

impl View for PulsifierTable {
    type V = Seq<OpPulsifier>;

    open spec fn view(&self) -> Seq<OpPulsifier> {
        self.entries@
    }
}

/// The first entry registered for `kind`, if any: dispatch scans the
/// collection in registration order.
pub open spec fn table_find(t: Seq<OpPulsifier>, kind: OpKind) -> Option<PulseRule>
    decreases t.len(),
{
    if t.len() == 0 {
        Option::None
    } else if t.first().kind == kind {
        Option::Some(t.first().func)
    } else {
        table_find(t.drop_first(), kind)
    }
}

impl PulsifierTable {
    /// An empty table.
    pub fn new() -> (r: PulsifierTable)
        ensures
            r@ == Seq::<OpPulsifier>::empty(),
    {
        PulsifierTable { entries: Vec::new() }
    }

    /// Appends a translator for an operator kind. Registration is
    /// append-only; dispatch picks the first matching entry.
    pub fn register(&mut self, kind: OpKind, func: PulseRule)
        ensures
            final(self)@ == old(self)@.push(OpPulsifier { kind, func }),
    {
        self.entries.push(OpPulsifier { kind, func });
    }

    /// The first translator registered for `kind`.
    pub fn find(&self, kind: OpKind) -> (r: Option<PulseRule>)
        ensures
            r == table_find(self@, kind),
    {
        let mut i: usize = 0;
        proof {
            assert(self@.skip(0) =~= self@);
        }
        while i < self.entries.len()
            invariant
                i <= self@.len(),
                table_find(self@, kind) == table_find(self@.skip(i as int), kind),
            decreases self@.len() - i,
        {
            proof {
                assert(self@.skip(i as int).first() == self@[i as int]);
                assert(self@.skip(i as int).drop_first() =~= self@.skip(i + 1));
            }
            if self.entries[i].kind == kind {
                return Option::Some(self.entries[i].func);
            }
            i += 1;
        }
        proof {
            assert(self@.skip(self@.len() as int) =~= Seq::<OpPulsifier>::empty());
        }
        Option::None
    }
}

/// A static shape can stream exactly when one axis is the streaming axis and
/// every other axis is concrete.
pub open spec fn pulsable(dims: Seq<Dim>) -> bool {
    exists|i: int|
        0 <= i < dims.len() && dims[i] is Stream && (forall|j: int|
            0 <= j < dims.len() && j != i ==> dims[j] is Fixed)
}

/// The streaming axis of a pulsable shape.
pub open spec fn stream_axis_of(dims: Seq<Dim>) -> int {
    choose|i: int| 0 <= i < dims.len() && dims[i] is Stream
}

/// What the source translator makes of a source operator: its static fact cut
/// along the streaming axis into `pulse`-sized windows, with no delay. `None`
/// when the fact cannot stream.
pub open spec fn source_op_pulsed(op: OpView, pulse: u64) -> Option<OpView> {
    match op {
        OpView::Source { fact } => match fact {
            FactView::Static { dt, dims } => if pulsable(dims) {
                Option::Some(
                    OpView::Source {
                        fact: fact.pulsed(stream_axis_of(dims) as usize, pulse, 0),
                    },
                )
            } else {
                Option::None
            },
            FactView::Pulsed { .. } => Option::None,
        },
        _ => Option::None,
    }
}

/// Node `n` of the target is the translation of node `n` of the source:
/// same name, same wiring, and its operator and output facts are what the
/// dispatched translator produces.
pub open spec fn node_translated(
    s: GraphView,
    t: GraphView,
    table: Seq<OpPulsifier>,
    pulse: u64,
    n: int,
) -> bool {
    let sn = s.nodes[n];
    let tn = t.nodes[n];
    &&& tn.name == sn.name
    &&& tn.inputs == sn.inputs
    &&& match table_find(table, sn.op.kind()) {
        Option::Some(PulseRule::PulseSource) => {
            &&& source_op_pulsed(sn.op, pulse) is Some
            &&& tn.op == source_op_pulsed(sn.op, pulse)->Some_0
            &&& tn.outputs == seq![tn.op->Source_fact]
        },
        Option::Some(PulseRule::Passthrough) => {
            &&& tn.op == sn.op
            &&& Option::Some(tn.outputs) == sn.op.streaming_output_facts(t.input_facts(n))
        },
        Option::None => false,
    }
}

/// Some source node's operator kind has no registered translator.
pub open spec fn missing_translator(s: GraphView, table: Seq<OpPulsifier>) -> bool {
    exists|n: int|
        0 <= n < s.nodes.len() && table_find(table, #[trigger] s.nodes[n].op.kind()) is None
}

/// The outlet mapping sends source outlet (n, k) of each of the first
/// `upto` nodes to target outlet (n, k).
pub open spec fn identity_mapping_upto(s: GraphView, m: Seq<Seq<OutletId>>, upto: int) -> bool {
    &&& m.len() == upto
    &&& forall|n: int| 0 <= n < upto ==> (#[trigger] m[n]).len() == s.nodes[n].outputs.len()
    &&& forall|n: int, k: int|
        0 <= n < upto && 0 <= k < m[n].len() ==> #[trigger] m[n][k] == (OutletId {
            node: n as usize,
            slot: k as usize,
        })
}

/// Mapping completeness: every source outlet has an entry.
pub open spec fn identity_mapping(s: GraphView, m: Seq<Seq<OutletId>>) -> bool {
    identity_mapping_upto(s, m, s.nodes.len() as int)
}

/// The successfully pulsified counterpart of `s`: node for node translated,
/// same declared outputs, translation-ready (in particular every inlet bound
/// and the edge relation acyclic) and with facts agreeing with streaming
/// propagation.
pub open spec fn pulsify_spec(
    s: GraphView,
    table: Seq<OpPulsifier>,
    pulse: u64,
    t: GraphView,
) -> bool {
    &&& t.nodes.len() == s.nodes.len()
    &&& forall|n: int| 0 <= n < s.nodes.len() ==> node_translated(s, t, table, pulse, n)
    &&& t.outputs == s.outputs
    &&& t.properties == Seq::<(Seq<char>, Seq<u64>)>::empty()
    &&& t.translation_ready()
    &&& t.facts_consistent()
}

/// The dispatched translator for node `n` cannot stream the node with the
/// facts the target graph gives its inputs.
pub open spec fn translation_blocked(
    s: GraphView,
    t: GraphView,
    table: Seq<OpPulsifier>,
    pulse: u64,
    n: int,
) -> bool {
    match table_find(table, s.nodes[n].op.kind()) {
        Option::Some(PulseRule::PulseSource) => source_op_pulsed(s.nodes[n].op, pulse) is None,
        Option::Some(PulseRule::Passthrough) => s.nodes[n].op.streaming_output_facts(
            Seq::new(
                s.nodes[n].inputs.len(),
                |j: int| t.fact(s.nodes[n].inputs[j]->Some_0),
            ),
        ) is None,
        Option::None => false,
    }
}

/// The node the engine builds for source node `m`, from the target nodes
/// already built (meaningful when a translator is registered and succeeds).
pub open spec fn translated_node_at(
    s: GraphView,
    prefix: Seq<NodeView>,
    table: Seq<OpPulsifier>,
    pulse: u64,
    m: int,
) -> NodeView {
    let sn = s.nodes[m];
    let t = GraphView { nodes: prefix, outputs: Seq::empty(), properties: Seq::empty() };
    match table_find(table, sn.op.kind()) {
        Option::Some(PulseRule::PulseSource) => {
            let op = source_op_pulsed(sn.op, pulse)->Some_0;
            NodeView { name: sn.name, op, outputs: seq![op->Source_fact], inputs: sn.inputs }
        },
        Option::Some(PulseRule::Passthrough) => {
            let ins = Seq::new(sn.inputs.len(), |j: int| t.fact(sn.inputs[j]->Some_0));
            NodeView {
                name: sn.name,
                op: sn.op,
                outputs: sn.op.streaming_output_facts(ins)->Some_0,
                inputs: sn.inputs,
            }
        },
        Option::None => sn,
    }
}

/// The target nodes after translating the first `n` source nodes, in
/// dependency order.
pub open spec fn translated_prefix(
    s: GraphView,
    table: Seq<OpPulsifier>,
    pulse: u64,
    n: int,
) -> Seq<NodeView>
    decreases n,
{
    if n <= 0 {
        Seq::empty()
    } else {
        let p = translated_prefix(s, table, pulse, n - 1);
        p.push(translated_node_at(s, p, table, pulse, n - 1))
    }
}

/// The dispatched translator cannot stream node `n`, on the facts the
/// translated prefix gives its inputs. Translation of a ready, fully
/// registered graph fails exactly when some node is blocked.
pub open spec fn blocked_at(s: GraphView, table: Seq<OpPulsifier>, pulse: u64, n: int) -> bool {
    translation_blocked(
        s,
        GraphView {
            nodes: translated_prefix(s, table, pulse, n),
            outputs: Seq::empty(),
            properties: Seq::empty(),
        },
        table,
        pulse,
        n,
    )
}

/// Sufficient conditions for pulsification to succeed: a translation-ready
/// graph whose sources carry pulsable static facts and are registered with
/// the source translator, and whose remaining operators are element-wise,
/// buffering or dummy nodes registered as passthrough.
pub open spec fn pulse_ready(s: GraphView, table: Seq<OpPulsifier>) -> bool {
    &&& s.translation_ready()
    &&& forall|n: int|
        0 <= n < s.nodes.len() ==> match #[trigger] s.nodes[n].op {
            OpView::Source { fact } => table_find(table, OpKind::Source) == Option::Some(
                PulseRule::PulseSource,
            ) && fact is Static && pulsable(fact->Static_dims),
            OpView::Dummy => table_find(table, OpKind::Dummy) == Option::Some(
                PulseRule::Passthrough,
            ),
            OpView::ElementWise { kind, .. } => table_find(table, OpKind::Registered(kind))
                == Option::Some(PulseRule::Passthrough),
            OpView::Buffering { kind, .. } => table_find(table, OpKind::Registered(kind))
                == Option::Some(PulseRule::Passthrough),
            OpView::Reduce { .. } => false,
        }
}

/// The running outlet-to-outlet mapping from source graph to target graph:
/// entry `n` lists, in slot order, the target outlets standing for the
/// outlets of source node `n`.
#[derive(Debug)]
pub struct OutletMap {
    pub entries: Vec<Vec<OutletId>>,
}

impl View for OutletMap {
    type V = Seq<Seq<OutletId>>;

    open spec fn view(&self) -> Seq<Seq<OutletId>> {
        self.entries@.map_values(|v: Vec<OutletId>| v@)
    }
}

/// The mapping's entry for source outlet `o`, if present.
pub open spec fn map_get(m: Seq<Seq<OutletId>>, o: OutletId) -> Option<OutletId> {
    if o.node < m.len() && o.slot < m[o.node as int].len() {
        Option::Some(m[o.node as int][o.slot as int])
    } else {
        Option::None
    }
}

impl OutletMap {
    /// An empty mapping.
    pub fn new() -> (r: OutletMap)
        ensures
            r@ == Seq::<Seq<OutletId>>::empty(),
    {
        let r = OutletMap { entries: Vec::new() };
        proof {
            assert(r@ =~= Seq::<Seq<OutletId>>::empty());
        }
        r
    }

    /// Appends the target outlets of the next translated source node.
    pub fn append(&mut self, outs: Vec<OutletId>)
        ensures
            final(self)@ == old(self)@.push(outs@),
    {
        self.entries.push(outs);
        proof {
            assert(self@ =~= old(self)@.push(self.entries@.last()@));
        }
    }

    /// The target outlet standing for source outlet `o`, if translated.
    pub fn get(&self, o: OutletId) -> (r: Option<OutletId>)
        ensures
            r == map_get(self@, o),
    {
        if o.node < self.entries.len() && o.slot < self.entries[o.node].len() {
            Option::Some(self.entries[o.node][o.slot])
        } else {
            Option::None
        }
    }
}

/// The streaming axis of a static shape, when the shape can stream: the one
/// [`Dim::Stream`] axis, every other axis concrete.
pub fn find_stream_axis(dims: &Vec<Dim>) -> (r: Option<usize>)
    ensures
        match r {
            Option::Some(a) => pulsable(dims@) && a == stream_axis_of(dims@) && a < dims@.len()
                && dims@[a as int] is Stream,
            Option::None => !pulsable(dims@),
        },
{
    let mut found: Option<usize> = Option::None;
    let mut i: usize = 0;
    while i < dims.len()
        invariant
            i <= dims@.len(),
            match found {
                Option::Some(a) => a < i && dims@[a as int] is Stream && forall|j: int|
                    0 <= j < i && j != a ==> dims@[j] is Fixed,
                Option::None => forall|j: int| 0 <= j < i ==> dims@[j] is Fixed,
            },
        decreases dims@.len() - i,
    {
        match dims[i] {
            Dim::Stream => {
                match found {
                    Option::Some(_) => {
                        proof {
                            assert(forall|k: int|
                                0 <= k < dims@.len() && #[trigger] dims@[k] is Stream ==> !(
                                forall|j: int|
                                    0 <= j < dims@.len() && j != k ==> dims@[j] is Fixed));
                        }
                        return Option::None;
                    },
                    Option::None => {
                        found = Option::Some(i);
                    },
                }
            },
            Dim::Fixed(_) => {},
        }
        i += 1;
    }
    match found {
        Option::Some(a) => {
            proof {
                assert(pulsable(dims@));
                let w = stream_axis_of(dims@);
                assert(0 <= w < dims@.len() && dims@[w] is Stream);
                assert(w == a);
            }
            Option::Some(a)
        },
        Option::None => Option::None,
    }
}

/// The pulsed specialization of the translation engine, carrying the pulse
/// (window) size.
#[derive(Clone, Copy, Debug)]
pub struct Pulsifier(pub u64);

impl Pulsifier {
    /// Translates one source node into the target graph: dispatches on the
    /// node's operator kind through the pulsifier table, resolves the node's
    /// already-translated input outlets through the running mapping, and
    /// returns the target outlets standing for the node's outlets. Fails with
    /// `NoPulsifierForOperator` when no translator is registered for the
    /// kind, and with `UnsupportedStreamingLayout` when the dispatched
    /// translator cannot stream the node.
    pub fn translate_node(
        &self,
        table: &PulsifierTable,
        source: &Graph,
        n: usize,
        target: &mut Graph,
        mapping: &OutletMap,
    ) -> (r: Result<Vec<OutletId>, ModelError>)
        requires
            source@.translation_ready(),
            n < source@.nodes.len(),
            old(target)@.nodes.len() == n,
            identity_mapping_upto(source@, mapping@, n as int),
            forall|m: int|
                0 <= m < n ==> node_translated(source@, old(target)@, table@, self.0, m),
        ensures
            match r {
                Result::Ok(outs) => {
                    &&& final(target)@.nodes.len() == n + 1
                    &&& forall|m: int|
                        0 <= m < n ==> final(target)@.nodes[m] == old(target)@.nodes[m]
                    &&& final(target)@.outputs == old(target)@.outputs
                    &&& final(target)@.properties == old(target)@.properties
                    &&& node_translated(source@, final(target)@, table@, self.0, n as int)
                    &&& outs@.len() == final(target)@.nodes[n as int].outputs.len()
                    &&& forall|k: int|
                        0 <= k < outs@.len() ==> outs@[k] == (OutletId { node: n, slot: k as usize })
                },
                Result::Err(e) => {
                    &&& final(target)@ == old(target)@
                    &&& (e is NoPulsifierForOperator <==> table_find(
                        table@,
                        source@.nodes[n as int].op.kind(),
                    ) is None)
                    &&& match e {
                        ModelError::NoPulsifierForOperator(nm) => nm@ == source@.nodes[
                            n as int
                        ].name,
                        _ => true,
                    }
                    &&& !(e is NoPulsifierForOperator) ==> e
                        == ModelError::UnsupportedStreamingLayout && translation_blocked(
                        source@,
                        old(target)@,
                        table@,
                        self.0,
                        n as int,
                    )
                },
            },
    {
        let rule = match table.find(source.nodes[n].op.kind_identity()) {
            Option::Some(rule) => rule,
            Option::None => {
                return Result::Err(
                    ModelError::NoPulsifierForOperator(source.nodes[n].name.clone()),
                );
            },
        };
        proof {
            assert(source@.node_wf(n as int));
        }
        match rule {
            PulseRule::PulseSource => {
                match &source.nodes[n].op {
                    Op::Source { fact } => {
                        match fact {
                            Fact::Static { dt: _, dims } => {
                                match find_stream_axis(dims) {
                                    Option::Some(axis) => {
                                        let pf = fact.pulsed_fact(axis, self.0, 0);
                                        let mut out_facts: Vec<Fact> = Vec::new();
                                        out_facts.push(pf.duplicate());
                                        let new_op = Op::Source { fact: pf };
                                        let ghost op_before = new_op@;
                                        let id = target.add_node(
                                            source.nodes[n].name.clone(),
                                            new_op,
                                            out_facts,
                                        );
                                        let mut outs: Vec<OutletId> = Vec::new();
                                        outs.push(OutletId { node: id, slot: 0 });
                                        proof {
                                            let sn = source@.nodes[n as int];
                                            let tn = target@.nodes[n as int];
                                            assert(source_op_pulsed(sn.op, self.0)
                                                == Option::Some(op_before));
                                            assert(tn.outputs =~= seq![tn.op->Source_fact]);
                                            assert(tn.inputs =~= sn.inputs) by {
                                                assert(sn.inputs.len() == 0);
                                            }
                                            assert(node_translated(
                                                source@,
                                                target@,
                                                table@,
                                                self.0,
                                                n as int,
                                            ));
                                        }
                                        Result::Ok(outs)
                                    },
                                    Option::None => Result::Err(
                                        ModelError::UnsupportedStreamingLayout,
                                    ),
                                }
                            },
                            Fact::Pulsed { .. } => Result::Err(
                                ModelError::UnsupportedStreamingLayout,
                            ),
                        }
                    },
                    _ => Result::Err(ModelError::UnsupportedStreamingLayout),
                }
            },
            PulseRule::Passthrough => {
                let in_count = source.nodes[n].inputs.len();
                let mut ins: Vec<OutletId> = Vec::new();
                let mut j: usize = 0;
                while j < in_count
                    invariant
                        j <= in_count,
                        n < source@.nodes.len(),
                        source@.node_wf(n as int),
                        in_count == source@.nodes[n as int].inputs.len(),
                        identity_mapping_upto(source@, mapping@, n as int),
                        ins@.len() == j,
                        forall|k: int|
                            0 <= k < j ==> ins@[k] == (source@.nodes[n as int].inputs[k]->Some_0),
                        *target == *old(target),
                    decreases in_count - j,
                {
                    let o = match source.nodes[n].inputs[j] {
                        Option::Some(o) => o,
                        Option::None => {
                            proof {
                                assert(false);
                            }
                            return Result::Err(ModelError::DanglingReference);
                        },
                    };
                    let mapped = match mapping.get(o) {
                        Option::Some(m) => m,
                        Option::None => {
                            proof {
                                assert(source@.outlet_ok(o));
                                assert(false);
                            }
                            return Result::Err(ModelError::DanglingReference);
                        },
                    };
                    ins.push(mapped);
                    j += 1;
                }
                let ghost sn = source@.nodes[n as int];
                proof {
                    assert(forall|k: int| 0 <= k < ins@.len() ==> ins@[k] == sn.inputs[k]->Some_0);
                    // every resolved outlet exists in the target built so far
                    assert forall|k: int| 0 <= k < ins@.len() implies old(target)@.outlet_ok(
                        ins@[k],
                    ) by {
                        let o = sn.inputs[k]->Some_0;
                        assert(source@.outlet_ok(o) && o.node < n);
                        lemma_translated_out_len(
                            source@,
                            old(target)@,
                            table@,
                            self.0,
                            o.node as int,
                        );
                    }
                }
                let r = target.wire_node(
                    source.nodes[n].name.clone(),
                    source.nodes[n].op.duplicate(),
                    &ins,
                );
                match r {
                    Result::Ok(outs) => {
                        proof {
                            let tn = target@.nodes[n as int];
                            assert(tn.inputs =~= sn.inputs) by {
                                assert(ins@.map_values(|o: OutletId| Option::Some(o)).len()
                                    == sn.inputs.len());
                                assert(forall|k: int|
                                    0 <= k < sn.inputs.len() ==> sn.inputs[k] is Some);
                            }
                            let ins_facts = Seq::new(
                                ins@.len(),
                                |j: int| old(target)@.fact(ins@[j]),
                            );
                            assert(target@.input_facts(n as int) =~= ins_facts);
                            assert(node_translated(source@, target@, table@, self.0, n as int));
                        }
                        Result::Ok(outs)
                    },
                    Result::Err(e) => {
                        proof {
                            assert(e != ModelError::UnknownOutlet);
                            let ins_facts = Seq::new(
                                ins@.len(),
                                |j: int| old(target)@.fact(ins@[j]),
                            );
                            assert(Seq::new(
                                sn.inputs.len(),
                                |j: int| old(target)@.fact(sn.inputs[j]->Some_0),
                            ) =~= ins_facts);
                        }
                        Result::Err(e)
                    },
                }
            },
        }
    }
}

/// A translated node is determined: any node satisfying `node_translated` is
/// the one `translated_node_at` builds from the target prefix before it.
pub proof fn lemma_translated_node_determined(
    s: GraphView,
    t: GraphView,
    table: Seq<OpPulsifier>,
    pulse: u64,
    n: int,
)
    requires
        0 <= n < s.nodes.len(),
        s.node_wf(n),
        t.nodes.len() == n + 1,
        node_translated(s, t, table, pulse, n),
    ensures
        t.nodes[n] == translated_node_at(s, t.nodes.take(n), table, pulse, n),
{
    let sn = s.nodes[n];
    let tn = t.nodes[n];
    let built = translated_node_at(s, t.nodes.take(n), table, pulse, n);
    match table_find(table, sn.op.kind()) {
        Option::Some(PulseRule::PulseSource) => {
            assert(tn =~~= built);
        },
        Option::Some(PulseRule::Passthrough) => {
            let p = GraphView {
                nodes: t.nodes.take(n),
                outputs: Seq::empty(),
                properties: Seq::empty(),
            };
            let ins_p = Seq::new(sn.inputs.len(), |j: int| p.fact(sn.inputs[j]->Some_0));
            assert(t.input_facts(n) =~= ins_p) by {
                assert forall|j: int| 0 <= j < sn.inputs.len() implies t.fact(
                    (#[trigger] sn.inputs[j])->Some_0,
                ) == p.fact(sn.inputs[j]->Some_0) by {
                    assert((sn.inputs[j]->Some_0).node < n);
                }
            }
            assert(tn =~~= built);
        },
        Option::None => {},
    }
}

/// `node_translated` is stable under growing the target graph: it only reads
/// node `m` and the facts of earlier nodes.
pub proof fn lemma_node_translated_stable(
    s: GraphView,
    t1: GraphView,
    t2: GraphView,
    table: Seq<OpPulsifier>,
    pulse: u64,
    m: int,
)
    requires
        0 <= m < s.nodes.len(),
        s.node_wf(m),
        m < t1.nodes.len(),
        t1.nodes.len() <= t2.nodes.len(),
        forall|k: int| 0 <= k < t1.nodes.len() ==> t2.nodes[k] == t1.nodes[k],
        node_translated(s, t1, table, pulse, m),
    ensures
        node_translated(s, t2, table, pulse, m),
{
    assert(t2.nodes[m] == t1.nodes[m]);
    assert(t2.input_facts(m) =~= t1.input_facts(m)) by {
        let inputs = t1.nodes[m].inputs;
        assert(inputs == s.nodes[m].inputs);
        assert forall|j: int| 0 <= j < inputs.len() implies t2.fact(#[trigger] inputs[j]->Some_0)
            == t1.fact(inputs[j]->Some_0) by {
            assert((inputs[j]->Some_0).node < m);
        }
    }
}

/// In a translated prefix, target node `m` has as many outlets as source
/// node `m`.
pub proof fn lemma_translated_out_len(
    s: GraphView,
    t: GraphView,
    table: Seq<OpPulsifier>,
    pulse: u64,
    m: int,
)
    requires
        0 <= m < s.nodes.len(),
        m < t.nodes.len(),
        s.node_wf(m),
        node_translated(s, t, table, pulse, m),
    ensures
        t.nodes[m].outputs.len() == s.nodes[m].outputs.len(),
{
    let sn = s.nodes[m];
    let tn = t.nodes[m];
    match table_find(table, sn.op.kind()) {
        Option::Some(PulseRule::PulseSource) => {
            assert(sn.op is Source);
        },
        Option::Some(PulseRule::Passthrough) => {
            assert(t.input_facts(m).len() == sn.inputs.len());
            crate::ops::lemma_streaming_output_len(sn.op, t.input_facts(m));
        },
        Option::None => {},
    }
}

impl Pulsifier {
    /// The full pulsification pass: checks whole-graph validity, refuses any
    /// node whose operator kind has no registered translator, walks the
    /// source graph in dependency order translating node by node while
    /// extending the outlet mapping, and finally remaps the declared outputs
    /// through the mapping. On success the mapping has an entry for every
    /// source outlet.
    pub fn translate_model_with_mappings(&self, table: &PulsifierTable, source: &Graph) -> (r:
        Result<(Graph, OutletMap), ModelError>)
        ensures
            match r {
                Result::Ok(p) => source@.translation_ready() && !missing_translator(
                    source@,
                    table@,
                ) && (forall|n: int|
                    0 <= n < source@.nodes.len() ==> !blocked_at(source@, table@, self.0, n))
                    && pulsify_spec(source@, table@, self.0, p.0@) && identity_mapping(
                    source@,
                    p.1@,
                ),
                Result::Err(e) => {
                    &&& (e == ModelError::DanglingReference <==> !source@.translation_ready())
                    &&& (e is NoPulsifierForOperator <==> source@.translation_ready()
                        && missing_translator(source@, table@))
                    &&& match e {
                        ModelError::NoPulsifierForOperator(nm) => exists|n: int|
                            0 <= n < source@.nodes.len() && table_find(
                                table@,
                                #[trigger] source@.nodes[n].op.kind(),
                            ) is None && nm@ == source@.nodes[n].name && (forall|m: int|
                                0 <= m < n ==> table_find(
                                    table@,
                                    #[trigger] source@.nodes[m].op.kind(),
                                ) is Some),
                        _ => true,
                    }
                    &&& (e == ModelError::UnsupportedStreamingLayout <==> source@.translation_ready()
                        && !missing_translator(source@, table@) && exists|n: int|
                        0 <= n < source@.nodes.len() && blocked_at(source@, table@, self.0, n))
                    &&& (e == ModelError::DanglingReference || e is NoPulsifierForOperator || e
                        == ModelError::UnsupportedStreamingLayout)
                },
            },
            pulse_ready(source@, table@) ==> r is Ok,
    {
        if !source.validate() {
            return Result::Err(ModelError::DanglingReference);
        }
        let count = source.node_count();
        let mut scan: usize = 0;
        while scan < count
            invariant
                count == source@.nodes.len(),
                scan <= count,
                source@.translation_ready(),
                forall|m: int|
                    0 <= m < scan ==> table_find(
                        table@,
                        #[trigger] source@.nodes[m].op.kind(),
                    ) is Some,
            decreases count - scan,
        {
            if table.find(source.nodes[scan].op.kind_identity()).is_none() {
                proof {
                    assert(source@.nodes[scan as int].op == source.nodes@[scan as int].op@);
                    assert(table_find(
                        table@,
                        #[trigger] source@.nodes[scan as int].op.kind(),
                    ) is None);
                    assert(missing_translator(source@, table@));
                    if pulse_ready(source@, table@) {
                        let sn = source@.nodes[scan as int];
                        match sn.op {
                            OpView::Source { .. } => assert(sn.op.kind() == OpKind::Source),
                            OpView::Dummy => assert(sn.op.kind() == OpKind::Dummy),
                            OpView::ElementWise { kind, .. } => assert(sn.op.kind()
                                == OpKind::Registered(kind)),
                            OpView::Buffering { kind, .. } => assert(sn.op.kind()
                                == OpKind::Registered(kind)),
                            OpView::Reduce { .. } => {},
                        }
                        assert(false);
                    }
                }
                return Result::Err(
                    ModelError::NoPulsifierForOperator(source.nodes[scan].name.clone()),
                );
            }
            scan += 1;
        }
        let mut target = Graph::empty();
        let mut mapping = OutletMap::new();
        let mut i: usize = 0;
        proof {
            assert(target@.nodes =~= translated_prefix(source@, table@, self.0, 0));
        }
        while i < count
            invariant
                count == source@.nodes.len(),
                i <= count,
                source@.translation_ready(),
                forall|m: int|
                    0 <= m < count ==> table_find(
                        table@,
                        #[trigger] source@.nodes[m].op.kind(),
                    ) is Some,
                target@.nodes.len() == i,
                target@.nodes == translated_prefix(source@, table@, self.0, i as int),
                target@.outputs == Seq::<OutletId>::empty(),
                target@.properties == Seq::<(Seq<char>, Seq<u64>)>::empty(),
                identity_mapping_upto(source@, mapping@, i as int),
                forall|m: int| 0 <= m < i ==> node_translated(source@, target@, table@, self.0, m),
                forall|m: int| 0 <= m < i ==> !blocked_at(source@, table@, self.0, m),
            decreases count - i,
        {
            let ghost t_before = target@;
            proof {
                assert(t_before =~~= GraphView {
                    nodes: translated_prefix(source@, table@, self.0, i as int),
                    outputs: Seq::<OutletId>::empty(),
                    properties: Seq::<(Seq<char>, Seq<u64>)>::empty(),
                });
            }
            match self.translate_node(table, source, i, &mut target, &mapping) {
                Result::Ok(outs) => {
                    proof {
                        assert forall|m: int| 0 <= m < i implies node_translated(
                            source@,
                            target@,
                            table@,
                            self.0,
                            m,
                        ) by {
                            lemma_node_translated_stable(
                                source@,
                                t_before,
                                target@,
                                table@,
                                self.0,
                                m,
                            );
                        }
                        lemma_translated_out_len(source@, target@, table@, self.0, i as int);
                        assert(outs@.len() == source@.nodes[i as int].outputs.len());
                        // the built node is the one the spec-level prefix holds
                        lemma_translated_node_determined(source@, target@, table@, self.0, i as int);
                        assert(target@.nodes.take(i as int) =~= t_before.nodes);
                        assert(target@.nodes =~= translated_prefix(
                            source@,
                            table@,
                            self.0,
                            i + 1,
                        ));
                        // and this node is not blocked: its translator produced facts
                        assert(!blocked_at(source@, table@, self.0, i as int)) by {
                            let sn = source@.nodes[i as int];
                            assert(node_translated(source@, target@, table@, self.0, i as int));
                            match table_find(table@, sn.op.kind()) {
                                Option::Some(PulseRule::PulseSource) => {},
                                Option::Some(PulseRule::Passthrough) => {
                                    let ins_b = Seq::new(
                                        sn.inputs.len(),
                                        |j: int| t_before.fact(sn.inputs[j]->Some_0),
                                    );
                                    assert(target@.input_facts(i as int) =~= ins_b) by {
                                        assert forall|j: int|
                                            0 <= j < sn.inputs.len() implies target@.fact(
                                            (#[trigger] sn.inputs[j])->Some_0,
                                        ) == t_before.fact(sn.inputs[j]->Some_0) by {
                                            assert(source@.node_wf(i as int));
                                            assert((sn.inputs[j]->Some_0).node < i);
                                        }
                                    }
                                },
                                Option::None => {},
                            }
                        }
                    }
                    mapping.append(outs);
                },
                Result::Err(e) => {
                    proof {
                        assert(!(e is NoPulsifierForOperator));
                        assert(e == ModelError::UnsupportedStreamingLayout);
                        assert(blocked_at(source@, table@, self.0, i as int));
                        if pulse_ready(source@, table@) {
                            let sn = source@.nodes[i as int];
                            assert(translation_blocked(source@, t_before, table@, self.0, i as int));
                            match sn.op {
                                OpView::Source { fact } => {
                                    assert(source_op_pulsed(sn.op, self.0) is Some);
                                },
                                OpView::Dummy => {},
                                OpView::ElementWise { .. } => {
                                    assert(sn.inputs.len() >= 1);
                                },
                                OpView::Buffering { .. } => {},
                                OpView::Reduce { .. } => {},
                            }
                            assert(false);
                        }
                    }
                    return Result::Err(e);
                },
            }
            i += 1;
        }
        let out_count = source.outputs.len();
        let mut new_outs: Vec<OutletId> = Vec::new();
        let mut k: usize = 0;
        while k < out_count
            invariant
                count == source@.nodes.len(),
                out_count == source@.outputs.len(),
                k <= out_count,
                source@.translation_ready(),
                identity_mapping_upto(source@, mapping@, count as int),
                new_outs@.len() == k,
                forall|m: int| 0 <= m < k ==> new_outs@[m] == source@.outputs[m],
            decreases out_count - k,
        {
            let o = source.outputs[k];
            match mapping.get(o) {
                Option::Some(mapped) => {
                    proof {
                        assert(source@.outlet_ok(o));
                        assert(mapped == o);
                    }
                    new_outs.push(mapped);
                },
                Option::None => {
                    proof {
                        assert(source@.outlet_ok(o));
                        assert(false);
                    }
                    return Result::Err(ModelError::DanglingReference);
                },
            }
            k += 1;
        }
        let ghost t_done = target@;
        target.set_output_outlets(new_outs);
        proof {
            assert(target@.outputs =~= source@.outputs);
            assert(target@.nodes == t_done.nodes);
            assert forall|n: int| 0 <= n < count implies node_translated(
                source@,
                target@,
                table@,
                self.0,
                n,
            ) by {
                assert(source@.node_wf(n));
                lemma_node_translated_stable(source@, t_done, target@, table@, self.0, n);
            }
            assert forall|n: int| 0 <= n < count implies target@.node_wf(n) by {
                lemma_translated_node_wf(source@, target@, table@, self.0, n);
            }
            assert(target@.translation_ready()) by {
                assert forall|m: int| 0 <= m < target@.outputs.len() implies target@.outlet_ok(
                    target@.outputs[m],
                ) by {
                    let o = target@.outputs[m];
                    assert(source@.outlet_ok(o));
                    lemma_translated_out_len(source@, target@, table@, self.0, o.node as int);
                }
            }
            assert(target@.facts_consistent()) by {
                assert forall|n: int| 0 <= n < target@.nodes.len() implies #[trigger] target@.nodes[n].op.streaming_output_facts(target@.input_facts(n)) == Option::Some(
                    target@.nodes[n].outputs,
                ) by {
                    lemma_translated_consistent(source@, target@, table@, self.0, n);
                }
            }
        }
        Result::Ok((target, mapping))
    }
}

/// A translated node is well-formed in the target.
pub proof fn lemma_translated_node_wf(
    s: GraphView,
    t: GraphView,
    table: Seq<OpPulsifier>,
    pulse: u64,
    n: int,
)
    requires
        s.translation_ready(),
        t.nodes.len() == s.nodes.len(),
        0 <= n < s.nodes.len(),
        forall|m: int| 0 <= m < s.nodes.len() ==> node_translated(s, t, table, pulse, m),
    ensures
        t.node_wf(n),
{
    let sn = s.nodes[n];
    let tn = t.nodes[n];
    assert(s.node_wf(n));
    assert(node_translated(s, t, table, pulse, n));
    match table_find(table, sn.op.kind()) {
        Option::Some(PulseRule::PulseSource) => {
            assert(sn.op is Source);
            assert(tn.op is Source);
            assert(tn.inputs.len() == 0);
            assert(tn.outputs.len() == 1);
        },
        Option::Some(PulseRule::Passthrough) => {
            assert(tn.op == sn.op);
            assert(t.input_facts(n).len() == sn.inputs.len());
            crate::ops::lemma_streaming_output_len(sn.op, t.input_facts(n));
        },
        Option::None => {},
    }
    assert forall|j: int| 0 <= j < tn.inputs.len() implies tn.inputs[j] is Some && (
    tn.inputs[j]->Some_0).node < n && t.outlet_ok(tn.inputs[j]->Some_0) by {
        assert(tn.inputs == sn.inputs);
        let o = sn.inputs[j]->Some_0;
        assert(s.outlet_ok(o) && o.node < n);
        lemma_translated_out_len(s, t, table, pulse, o.node as int);
    }
}

/// The operator of the back-translated node: a source keeps its marker with
/// its fact re-interpreted statically; every other operator passes through.
pub open spec fn fold_op(op: OpView) -> OpView {
    match op {
        OpView::Source { fact } => OpView::Source { fact: fact.as_static() },
        _ => op,
    }
}

/// Node `n` of the static graph is the structural re-interpretation of node
/// `n` of the pulsed graph: same name and wiring, folded operator, and
/// output facts from the static fact-propagation contract.
pub open spec fn node_folded(p: GraphView, u: GraphView, n: int) -> bool {
    let pn = p.nodes[n];
    let un = u.nodes[n];
    &&& un.name == pn.name
    &&& un.inputs == pn.inputs
    &&& un.op == fold_op(pn.op)
    &&& un.outputs == fold_op(pn.op).static_output_facts(u.input_facts(n))
}

/// The delays of the pulsed graph's declared outputs, in declaration order.
pub open spec fn delays_of(p: GraphView) -> Seq<u64> {
    Seq::new(p.outputs.len(), |k: int| p.fact(p.outputs[k]).delay())
}

/// The back-translated counterpart of `p`: node for node folded, same
/// declared outputs, and the output delays recorded as the `pulse.delay`
/// property — the only externally observable artifact of the delay
/// bookkeeping once the model is static again.
pub open spec fn folded_spec(p: GraphView, u: GraphView) -> bool {
    &&& u.nodes.len() == p.nodes.len()
    &&& forall|n: int| 0 <= n < p.nodes.len() ==> node_folded(p, u, n)
    &&& u.outputs == p.outputs
    &&& u.properties == seq![("pulse.delay"@, delays_of(p))]
    &&& u.translation_ready()
}

/// Every fact in the graph is static.
pub open spec fn all_facts_static(g: GraphView) -> bool {
    forall|n: int, k: int|
        0 <= n < g.nodes.len() && 0 <= k < g.nodes[n].outputs.len()
            ==> #[trigger] g.nodes[n].outputs[k] is Static
}

/// A folded node has as many outlets as its pulsed original.
pub proof fn lemma_folded_out_len(p: GraphView, u: GraphView, m: int)
    requires
        0 <= m < p.nodes.len(),
        m < u.nodes.len(),
        p.node_wf(m),
        node_folded(p, u, m),
    ensures
        u.nodes[m].outputs.len() == p.nodes[m].outputs.len(),
{
    let pn = p.nodes[m];
    assert(u.input_facts(m).len() == pn.inputs.len());
    match pn.op {
        OpView::Source { .. } => {
            crate::ops::lemma_static_output_len(fold_op(pn.op), u.input_facts(m));
        },
        _ => {
            assert(fold_op(pn.op) == pn.op);
            crate::ops::lemma_static_output_len(pn.op, u.input_facts(m));
        },
    }
}

/// `node_folded` is stable under growing the static graph: it only reads
/// node `m` and the facts of earlier nodes.
pub proof fn lemma_node_folded_stable(p: GraphView, u1: GraphView, u2: GraphView, m: int)
    requires
        0 <= m < p.nodes.len(),
        p.node_wf(m),
        m < u1.nodes.len(),
        u1.nodes.len() <= u2.nodes.len(),
        forall|k: int| 0 <= k < u1.nodes.len() ==> u2.nodes[k] == u1.nodes[k],
        node_folded(p, u1, m),
    ensures
        node_folded(p, u2, m),
{
    assert(u2.nodes[m] == u1.nodes[m]);
    assert(u2.input_facts(m) =~= u1.input_facts(m)) by {
        let inputs = u1.nodes[m].inputs;
        assert(inputs == p.nodes[m].inputs);
        assert forall|j: int| 0 <= j < inputs.len() implies u2.fact(#[trigger] inputs[j]->Some_0)
            == u1.fact(inputs[j]->Some_0) by {
            assert((inputs[j]->Some_0).node < m);
        }
    }
}

/// A fully translated graph's facts agree with streaming propagation.
pub proof fn lemma_translated_consistent(
    s: GraphView,
    t: GraphView,
    table: Seq<OpPulsifier>,
    pulse: u64,
    n: int,
)
    requires
        s.translation_ready(),
        t.nodes.len() == s.nodes.len(),
        0 <= n < s.nodes.len(),
        forall|m: int| 0 <= m < s.nodes.len() ==> node_translated(s, t, table, pulse, m),
    ensures
        t.nodes[n].op.streaming_output_facts(t.input_facts(n)) == Option::Some(
            t.nodes[n].outputs,
        ),
{
    let sn = s.nodes[n];
    let tn = t.nodes[n];
    assert(s.node_wf(n));
    assert(node_translated(s, t, table, pulse, n));
    match table_find(table, sn.op.kind()) {
        Option::Some(PulseRule::PulseSource) => {
            let pf = tn.op->Source_fact;
            assert(tn.outputs == seq![pf]);
            assert(tn.op.streaming_output_facts(t.input_facts(n)) == Option::Some(seq![pf]));
        },
        Option::Some(PulseRule::Passthrough) => {},
        Option::None => {},
    }
}

/// A graph in streaming form: every fact pulsed, built by pulsification.
pub type PulsedModel = Graph;

/// A node of a streaming graph.
pub type PulsedNode = crate::graph::Node;

/// The pulsed entry points of the translation engine: building a streaming
/// model from a static one, and folding a streaming model back.
pub trait PulsedModelExt: Sized + View<V = GraphView> {
    /// Pulsifies `source` with window size `pulse`, dispatching each node
    /// through `table`. The outcome agrees, case for case, with
    /// [`PulsedModelExt::new_with_mapping`]'s graph.
    fn new(source: &Graph, table: &PulsifierTable, pulse: u64) -> (r: Result<Graph, ModelError>)
        ensures
            match r {
                Result::Ok(t) => source@.translation_ready() && !missing_translator(
                    source@,
                    table@,
                ) && (forall|n: int|
                    0 <= n < source@.nodes.len() ==> !blocked_at(source@, table@, pulse, n))
                    && pulsify_spec(source@, table@, pulse, t@),
                Result::Err(e) => {
                    &&& (e == ModelError::DanglingReference <==> !source@.translation_ready())
                    &&& (e is NoPulsifierForOperator <==> source@.translation_ready()
                        && missing_translator(source@, table@))
                    &&& match e {
                        ModelError::NoPulsifierForOperator(nm) => exists|n: int|
                            0 <= n < source@.nodes.len() && table_find(
                                table@,
                                #[trigger] source@.nodes[n].op.kind(),
                            ) is None && nm@ == source@.nodes[n].name && (forall|m: int|
                                0 <= m < n ==> table_find(
                                    table@,
                                    #[trigger] source@.nodes[m].op.kind(),
                                ) is Some),
                        _ => true,
                    }
                    &&& (e == ModelError::UnsupportedStreamingLayout <==> source@.translation_ready()
                        && !missing_translator(source@, table@) && exists|n: int|
                        0 <= n < source@.nodes.len() && blocked_at(source@, table@, pulse, n))
                    &&& (e == ModelError::DanglingReference || e is NoPulsifierForOperator || e
                        == ModelError::UnsupportedStreamingLayout)
                },
            },
            pulse_ready(source@, table@) ==> r is Ok,
    ;

    /// As [`PulsedModelExt::new`], also returning the outlet-to-outlet
    /// mapping from source to streaming graph; on success it has an entry
    /// for every source outlet.
    fn new_with_mapping(source: &Graph, table: &PulsifierTable, pulse: u64) -> (r: Result<
        (Graph, OutletMap),
        ModelError,
    >)
        ensures
            match r {
                Result::Ok(p) => source@.translation_ready() && !missing_translator(
                    source@,
                    table@,
                ) && (forall|n: int|
                    0 <= n < source@.nodes.len() ==> !blocked_at(source@, table@, pulse, n))
                    && pulsify_spec(source@, table@, pulse, p.0@) && identity_mapping(
                    source@,
                    p.1@,
                ),
                Result::Err(e) => {
                    &&& (e == ModelError::DanglingReference <==> !source@.translation_ready())
                    &&& (e is NoPulsifierForOperator <==> source@.translation_ready()
                        && missing_translator(source@, table@))
                    &&& match e {
                        ModelError::NoPulsifierForOperator(nm) => exists|n: int|
                            0 <= n < source@.nodes.len() && table_find(
                                table@,
                                #[trigger] source@.nodes[n].op.kind(),
                            ) is None && nm@ == source@.nodes[n].name && (forall|m: int|
                                0 <= m < n ==> table_find(
                                    table@,
                                    #[trigger] source@.nodes[m].op.kind(),
                                ) is Some),
                        _ => true,
                    }
                    &&& (e == ModelError::UnsupportedStreamingLayout <==> source@.translation_ready()
                        && !missing_translator(source@, table@) && exists|n: int|
                        0 <= n < source@.nodes.len() && blocked_at(source@, table@, pulse, n))
                    &&& (e == ModelError::DanglingReference || e is NoPulsifierForOperator || e
                        == ModelError::UnsupportedStreamingLayout)
                },
            },
            pulse_ready(source@, table@) ==> r is Ok,
    ;

    /// Folds a streaming graph back into a static one: each node's facts are
    /// re-interpreted through the static fact-propagation contract, and the
    /// delays of the declared outputs are recorded, in order, as the
    /// `pulse.delay` property of the static graph.
    fn into_typed(self) -> (r: Result<Graph, ModelError>)
        ensures
            (r is Ok <==> self@.translation_ready()),
            match r {
                Result::Ok(u) => folded_spec(self@, u@),
                Result::Err(e) => e == ModelError::DanglingReference,
            },
    ;
}

impl PulsedModelExt for Graph {
    fn new(source: &Graph, table: &PulsifierTable, pulse: u64) -> (r: Result<Graph, ModelError>) {
        match <Graph as PulsedModelExt>::new_with_mapping(source, table, pulse) {
            Result::Ok(p) => Result::Ok(p.0),
            Result::Err(e) => Result::Err(e),
        }
    }

    fn new_with_mapping(source: &Graph, table: &PulsifierTable, pulse: u64) -> (r: Result<
        (Graph, OutletMap),
        ModelError,
    >) {
        Pulsifier(pulse).translate_model_with_mappings(table, source)
    }

    fn into_typed(self) -> (r: Result<Graph, ModelError>) {
        if !self.validate() {
            return Result::Err(ModelError::DanglingReference);
        }
        let count = self.node_count();
        let mut u = Graph::empty();
        let mut n: usize = 0;
        while n < count
            invariant
                self@.translation_ready(),
                count == self@.nodes.len(),
                n <= count,
                u@.nodes.len() == n,
                u@.outputs == Seq::<OutletId>::empty(),
                u@.properties == Seq::<(Seq<char>, Seq<u64>)>::empty(),
                forall|m: int| 0 <= m < n ==> node_folded(self@, u@, m),
                all_facts_static(u@),
            decreases count - n,
        {
            proof {
                assert(self@.node_wf(n as int));
            }
            let in_count = self.nodes[n].inputs.len();
            let mut ins: Vec<OutletId> = Vec::new();
            let mut j: usize = 0;
            while j < in_count
                invariant
                    j <= in_count,
                    n < count,
                    count == self@.nodes.len(),
                    self@.translation_ready(),
                    in_count == self@.nodes[n as int].inputs.len(),
                    ins@.len() == j,
                    forall|k: int|
                        0 <= k < j ==> ins@[k] == (self@.nodes[n as int].inputs[k]->Some_0),
                decreases in_count - j,
            {
                match self.nodes[n].inputs[j] {
                    Option::Some(o) => {
                        ins.push(o);
                    },
                    Option::None => {
                        proof {
                            assert(self@.node_wf(n as int));
                            assert(false);
                        }
                        return Result::Err(ModelError::DanglingReference);
                    },
                }
                j += 1;
            }
            let fop = match &self.nodes[n].op {
                Op::Source { fact } => Op::Source { fact: fact.into_static() },
                other => other.duplicate(),
            };
            let ghost ins_facts = Seq::new(ins@.len(), |k: int| u@.fact(ins@[k]));
            proof {
                let pn = self@.nodes[n as int];
                assert(fop@ == fold_op(pn.op));
                match pn.op {
                    OpView::Source { .. } => assert(fop@.in_arity_ok(ins@.len() as nat)),
                    OpView::Dummy => assert(fop@.in_arity_ok(ins@.len() as nat)),
                    OpView::ElementWise { .. } => assert(fop@.in_arity_ok(ins@.len() as nat)),
                    OpView::Buffering { .. } => assert(fop@.in_arity_ok(ins@.len() as nat)),
                    OpView::Reduce { .. } => assert(fop@.in_arity_ok(ins@.len() as nat)),
                }
                assert forall|k: int| 0 <= k < ins@.len() implies u@.outlet_ok(#[trigger] ins@[k])
                    by {
                    let o = pn.inputs[k]->Some_0;
                    assert(self@.outlet_ok(o) && o.node < n);
                    lemma_folded_out_len(self@, u@, o.node as int);
                }
                assert forall|k: int|
                    0 <= k < ins_facts.len() implies #[trigger] ins_facts[k] is Static by {
                    assert(u@.outlet_ok(ins@[k]));
                }
                crate::ops::lemma_static_streaming_agree(fop@, ins_facts);
                crate::ops::lemma_static_outputs_static(fop@, ins_facts);
            }
            let ghost u_before = u@;
            let r = u.wire_node(self.nodes[n].name.clone(), fop, &ins);
            match r {
                Result::Ok(_) => {
                    proof {
                        let pn = self@.nodes[n as int];
                        let un = u@.nodes[n as int];
                        assert(un.inputs =~= pn.inputs) by {
                            assert(forall|k: int|
                                0 <= k < pn.inputs.len() ==> pn.inputs[k] is Some);
                        }
                        assert(u@.input_facts(n as int) =~= ins_facts);
                        assert(un.outputs == fold_op(pn.op).static_output_facts(
                            u@.input_facts(n as int),
                        ));
                        assert(node_folded(self@, u@, n as int));
                        assert forall|m: int| 0 <= m < n implies node_folded(self@, u@, m) by {
                            lemma_node_folded_stable(self@, u_before, u@, m);
                        }
                        assert forall|n2: int, k2: int|
                            0 <= n2 < u@.nodes.len() && 0 <= k2 < u@.nodes[n2].outputs.len()
                                implies #[trigger] u@.nodes[n2].outputs[k2] is Static by {
                            if n2 < n {
                                assert(u@.nodes[n2] == u_before.nodes[n2]);
                            }
                        }
                    }
                },
                Result::Err(e) => {
                    proof {
                        assert(false);
                    }
                    return Result::Err(e);
                },
            }
            n += 1;
        }
        let out_count = self.outputs.len();
        let mut delays: Vec<u64> = Vec::new();
        let mut k: usize = 0;
        while k < out_count
            invariant
                self@.translation_ready(),
                out_count == self@.outputs.len(),
                k <= out_count,
                delays@.len() == k,
                forall|m: int| 0 <= m < k ==> delays@[m] == self@.fact(self@.outputs[m]).delay(),
            decreases out_count - k,
        {
            let o = self.outputs[k];
            match self.outlet_fact(o) {
                Result::Ok(f) => {
                    let d = f.delay();
                    delays.push(d);
                },
                Result::Err(_) => {
                    proof {
                        assert(self@.outlet_ok(self@.outputs[k as int]));
                        assert(false);
                    }
                    return Result::Err(ModelError::DanglingReference);
                },
            }
            k += 1;
        }
        proof {
            assert(delays@ =~= delays_of(self@));
        }
        let label: String = "pulse.delay".to_string();
        let ghost u_wired = u@;
        u.properties.push((label, delays));
        proof {
            assert(u@.nodes == u_wired.nodes);
            assert(u@.outputs == u_wired.outputs);
            assert(u@.properties =~= seq![("pulse.delay"@, delays_of(self@))]);
        }
        let mut new_outs: Vec<OutletId> = Vec::new();
        let mut m: usize = 0;
        while m < out_count
            invariant
                out_count == self@.outputs.len(),
                m <= out_count,
                new_outs@.len() == m,
                forall|q: int| 0 <= q < m ==> new_outs@[q] == self@.outputs[q],
            decreases out_count - m,
        {
            new_outs.push(self.outputs[m]);
            m += 1;
        }
        let ghost u_props = u@;
        u.set_output_outlets(new_outs);
        proof {
            assert(u@.outputs =~= self@.outputs);
            assert(u@.nodes == u_props.nodes);
            assert(u@.properties == u_props.properties);
            assert(u@.nodes == u_wired.nodes);
            assert forall|q: int| 0 <= q < count implies node_folded(self@, u@, q) by {
                assert(self@.node_wf(q));
                lemma_node_folded_stable(self@, u_wired, u@, q);
            }
            assert forall|q: int| 0 <= q < count implies u@.node_wf(q) by {
                let pn = self@.nodes[q];
                let un = u@.nodes[q];
                assert(self@.node_wf(q));
                assert(node_folded(self@, u@, q));
                assert(u@.input_facts(q).len() == pn.inputs.len());
                crate::ops::lemma_static_output_len(fold_op(pn.op), u@.input_facts(q));
                assert forall|j2: int| 0 <= j2 < un.inputs.len() implies un.inputs[j2] is Some
                    && (un.inputs[j2]->Some_0).node < q && u@.outlet_ok(
                    un.inputs[j2]->Some_0,
                ) by {
                    let o = pn.inputs[j2]->Some_0;
                    assert(self@.outlet_ok(o) && o.node < q);
                    lemma_folded_out_len(self@, u@, o.node as int);
                }
            }
            assert(u@.translation_ready()) by {
                assert forall|q: int| 0 <= q < u@.outputs.len() implies u@.outlet_ok(
                    u@.outputs[q],
                ) by {
                    let o = u@.outputs[q];
                    assert(self@.outlet_ok(o));
                    lemma_folded_out_len(self@, u@, o.node as int);
                }
            }
            assert(folded_spec(self@, u@));
        }
        Result::Ok(u)
    }
}

} // verus!
