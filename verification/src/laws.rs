//! Laws of the delay bookkeeping and of the pulse round trip, proved against
//! the contracts of the translation engine.

use vstd::prelude::*;
use crate::fact::{Dim, FactView};
use crate::graph::{GraphView, OutletId};
use crate::ops::{max_delay, OpKind, OpView};
use crate::translate::{
    all_facts_static, delays_of, folded_spec, node_folded, node_translated, pulsify_spec,
    source_op_pulsed, stream_axis_of, table_find, OpPulsifier, PulseRule,
};

verus! {

/// Every operator kind of the graph is routed to its translator: sources to
/// the source rule, every other kind to passthrough.
pub open spec fn routed(s: GraphView, table: Seq<OpPulsifier>) -> bool {
    forall|n: int|
        0 <= n < s.nodes.len() ==> match #[trigger] s.nodes[n].op {
            OpView::Source { .. } => table_find(table, OpKind::Source) == Option::Some(
                PulseRule::PulseSource,
            ),
            OpView::Dummy => table_find(table, OpKind::Dummy) == Option::Some(
                PulseRule::Passthrough,
            ),
            OpView::ElementWise { kind, .. } => table_find(table, OpKind::Registered(kind))
                == Option::Some(PulseRule::Passthrough),
            OpView::Buffering { kind, .. } => table_find(table, OpKind::Registered(kind))
                == Option::Some(PulseRule::Passthrough),
            OpView::Reduce { kind, .. } => table_find(table, OpKind::Registered(kind))
                == Option::Some(PulseRule::Passthrough),
        }
}

/// The delay a linear chain accumulates up to node `i`: the source fact's
/// own delay plus every operator's buffering contribution along the way.
pub open spec fn chain_delay_sum(g: GraphView, i: int) -> int
    decreases i,
{
    if i <= 0 {
        g.nodes[0].outputs[0].delay() as int
    } else {
        chain_delay_sum(g, i - 1) + g.nodes[i].op.delay_contribution()
    }
}

/// `g` is a linear chain: node 0 a source, node `i` fed exactly by node
/// `i - 1`'s single outlet, every later operator element-wise or buffering.
pub open spec fn linear_chain(g: GraphView) -> bool {
    &&& g.nodes.len() >= 1
    &&& g.nodes[0].op is Source
    &&& forall|i: int|
        1 <= i < g.nodes.len() ==> (#[trigger] g.nodes[i].inputs) == seq![
            Option::Some(OutletId { node: (i - 1) as usize, slot: 0 }),
        ]
    &&& forall|i: int|
        1 <= i < g.nodes.len() ==> ((#[trigger] g.nodes[i].op) is ElementWise || g.nodes[
            i
        ].op is Buffering)
}

/// Delay composition along a chain: in a fact-consistent pulsed linear chain
/// whose delay sum stays in range, the delay recorded at node `i` is exactly
/// the sum of the buffering contributions of the operators up to `i`, on top
/// of the source fact's delay.
pub proof fn lemma_chain_delay_composes(g: GraphView, i: int)
    requires
        g.nodes.len() <= usize::MAX,
        g.translation_ready(),
        g.facts_consistent(),
        linear_chain(g),
        g.nodes[0].outputs[0] is Pulsed,
        0 <= i < g.nodes.len(),
        chain_delay_sum(g, i) <= u64::MAX,
    ensures
        g.nodes[i].outputs[0] is Pulsed,
        g.nodes[i].outputs[0].delay() == chain_delay_sum(g, i),
    decreases i,
{
    assert(g.node_wf(i));
    assert(g.nodes[i].op.streaming_output_facts(g.input_facts(i)) == Option::Some(
        g.nodes[i].outputs,
    ));
    if i == 0 {
        assert(g.nodes[0].op.in_arity_ok(0));
    } else {
        assert(chain_delay_sum(g, i - 1) <= chain_delay_sum(g, i));
        lemma_chain_delay_composes(g, i - 1);
        let ins = g.input_facts(i);
        assert(g.nodes[i].inputs == seq![
            Option::Some(OutletId { node: (i - 1) as usize, slot: 0 }),
        ]);
        assert(g.nodes[i].inputs[0]->Some_0 == (OutletId { node: (i - 1) as usize, slot: 0 }));
        assert(ins =~= seq![g.nodes[i - 1].outputs[0]]);
        let f = ins[0];
        match g.nodes[i].op {
            OpView::ElementWise { .. } => {
                assert(max_delay(ins) == f.delay()) by {
                    assert(ins.drop_last() =~= Seq::<FactView>::empty());
                    assert(max_delay(Seq::<FactView>::empty()) == 0);
                }
                assert(g.nodes[i].outputs == seq![f.with_delay(max_delay(ins))]);
            },
            OpView::Buffering { delay, .. } => {
                assert(g.nodes[i].outputs == seq![
                    f.with_delay(f.delay().saturating_add(delay)),
                ]);
                assert(f.delay() + delay <= u64::MAX);
            },
            _ => {
                assert(false);
            },
        }
    }
}

/// Delay join policy at fan-in: an element-wise node joining several pulsed
/// streams records the maximum of its input delays, never their sum.
pub proof fn lemma_fan_in_delay_is_max(g: GraphView, n: int)
    requires
        g.translation_ready(),
        g.facts_consistent(),
        0 <= n < g.nodes.len(),
        g.nodes[n].op is ElementWise,
        g.input_facts(n)[0] is Pulsed,
    ensures
        g.nodes[n].outputs.len() == 1,
        g.nodes[n].outputs[0].delay() == max_delay(g.input_facts(n)),
{
    assert(g.node_wf(n));
    let ins = g.input_facts(n);
    assert(g.nodes[n].op.streaming_output_facts(ins) == Option::Some(g.nodes[n].outputs));
    assert(g.nodes[n].outputs == seq![ins[0].with_delay(max_delay(ins))]);
}

/// The buffering contributions of the operators along a chain up to node
/// `i`, summed.
pub open spec fn contributions_sum(g: GraphView, i: int) -> int
    decreases i,
{
    if i <= 0 {
        0
    } else {
        contributions_sum(g, i - 1) + g.nodes[i].op.delay_contribution()
    }
}

proof fn lemma_chain_sums_agree(s: GraphView, t: GraphView, i: int)
    requires
        s.nodes.len() == t.nodes.len(),
        0 <= i < s.nodes.len(),
        t.nodes[0].outputs[0].delay() == 0,
        forall|m: int| 1 <= m < s.nodes.len() ==> #[trigger] t.nodes[m].op == s.nodes[m].op,
    ensures
        chain_delay_sum(t, i) == contributions_sum(s, i),
    decreases i,
{
    if i > 0 {
        lemma_chain_sums_agree(s, t, i - 1);
    }
}

/// Delay composition, end to end: pulsifying a linear chain of streaming
/// operators and folding the result back records, as the one entry of the
/// `pulse.delay` property, exactly the sum of the buffering contributions
/// along the chain.
pub proof fn lemma_recorded_chain_delay(
    s: GraphView,
    t: GraphView,
    u: GraphView,
    table: Seq<OpPulsifier>,
    pulse: u64,
)
    requires
        s.nodes.len() <= usize::MAX,
        linear_chain(s),
        s.translation_ready(),
        routed(s, table),
        pulsify_spec(s, table, pulse, t),
        folded_spec(t, u),
        s.outputs == seq![OutletId { node: (s.nodes.len() - 1) as usize, slot: 0 }],
        contributions_sum(s, s.nodes.len() - 1) <= u64::MAX,
    ensures
        u.properties == seq![
            ("pulse.delay"@, seq![contributions_sum(s, s.nodes.len() - 1) as u64]),
        ],
{
    let last = s.nodes.len() - 1;
    assert(s.node_wf(0));
    assert(node_translated(s, t, table, pulse, 0));
    assert(table_find(table, s.nodes[0].op.kind()) == Option::Some(PulseRule::PulseSource));
    let pf = t.nodes[0].op->Source_fact;
    assert(t.nodes[0].outputs == seq![pf]);
    assert(pf.delay() == 0 && pf is Pulsed) by {
        let fact = s.nodes[0].op->Source_fact;
        let dims = fact->Static_dims;
        assert(pf == fact.pulsed(stream_axis_of(dims) as usize, pulse, 0));
    }
    assert(linear_chain(t)) by {
        assert(t.nodes[0].op is Source);
        assert forall|i: int| 1 <= i < t.nodes.len() implies (#[trigger] t.nodes[i].inputs)
            == seq![Option::Some(OutletId { node: (i - 1) as usize, slot: 0 })] by {
            assert(node_translated(s, t, table, pulse, i));
            assert(table_find(table, s.nodes[i].op.kind()) == Option::Some(
                PulseRule::Passthrough,
            ));
        }
        assert forall|i: int| 1 <= i < t.nodes.len() implies ((#[trigger] t.nodes[
            i
        ].op) is ElementWise || t.nodes[i].op is Buffering) by {
            assert(node_translated(s, t, table, pulse, i));
            assert(table_find(table, s.nodes[i].op.kind()) == Option::Some(
                PulseRule::Passthrough,
            ));
        }
    }
    assert forall|m: int| 1 <= m < s.nodes.len() implies #[trigger] t.nodes[m].op == s.nodes[
        m
    ].op by {
        assert(node_translated(s, t, table, pulse, m));
        assert(table_find(table, s.nodes[m].op.kind()) == Option::Some(PulseRule::Passthrough));
    }
    lemma_chain_sums_agree(s, t, last);
    lemma_chain_delay_composes(t, last);
    assert(delays_of(t) =~= seq![contributions_sum(s, last) as u64]) by {
        assert(t.outputs == s.outputs);
        assert(t.outputs[0] == (OutletId { node: last as usize, slot: 0 }));
        assert(t.fact(t.outputs[0]) == t.nodes[last].outputs[0]);
    }
    assert(u.properties =~= seq![
        ("pulse.delay"@, seq![contributions_sum(s, last) as u64]),
    ]);
}

/// The static shape once the stream is cut to `pulse`-sized windows: every
/// concrete axis kept, the streaming axis at the pulse size.
pub open spec fn dims_concrete(dims: Seq<Dim>, pulse: u64) -> Seq<Dim> {
    dims.map_values(|d: Dim| Dim::Fixed(d.concrete(pulse)))
}

/// The fact a round trip leaves behind for an original static fact.
pub open spec fn fact_folded(f: FactView, pulse: u64) -> FactView {
    match f {
        FactView::Static { dt, dims } => FactView::Static { dt, dims: dims_concrete(dims, pulse) },
        _ => f,
    }
}

/// Cutting an axis to extent one commutes with the static re-interpretation.
proof fn lemma_with_axis_one_as_static(f: FactView, axis: usize)
    ensures
        f.with_axis_one(axis).as_static() == f.as_static().with_axis_one(axis),
{
    match f {
        FactView::Static { .. } => {},
        FactView::Pulsed { dt, shape, .. } => {
            if axis < shape.len() {
                assert(f.with_axis_one(axis).as_static()->Static_dims =~= f.as_static()
                    .with_axis_one(axis)->Static_dims);
                assert(f.with_axis_one(axis).as_static() =~~= f.as_static().with_axis_one(axis));
            }
        },
    }
}

/// Cutting an axis to extent one commutes with folding a static fact.
proof fn lemma_fact_folded_axis_one(f: FactView, pulse: u64, axis: usize)
    requires
        f is Static,
    ensures
        fact_folded(f.with_axis_one(axis), pulse) == fact_folded(f, pulse).with_axis_one(axis),
{
    let dims = f->Static_dims;
    if axis < dims.len() {
        assert(fact_folded(f.with_axis_one(axis), pulse)->Static_dims =~= fact_folded(
            f,
            pulse,
        ).with_axis_one(axis)->Static_dims);
        assert(fact_folded(f.with_axis_one(axis), pulse) =~~= fact_folded(f, pulse).with_axis_one(
            axis,
        ));
    }
}

/// Inner induction of the round-trip law: up to node `n`, the pulsed facts
/// fold back to the original static facts with the streaming axis made
/// concrete, and the back-translated facts are exactly those folded facts.
proof fn lemma_round_trip_upto(
    s: GraphView,
    t: GraphView,
    u: GraphView,
    table: Seq<OpPulsifier>,
    pulse: u64,
    n: int,
)
    requires
        s.translation_ready(),
        s.facts_consistent(),
        all_facts_static(s),
        routed(s, table),
        pulsify_spec(s, table, pulse, t),
        folded_spec(t, u),
        0 <= n <= s.nodes.len(),
    ensures
        forall|m: int, k: int|
            0 <= m < n && 0 <= k < s.nodes[m].outputs.len()
                ==> (#[trigger] t.nodes[m].outputs[k]).as_static() == fact_folded(
                s.nodes[m].outputs[k],
                pulse,
            ) && u.nodes[m].outputs[k] == t.nodes[m].outputs[k].as_static(),
    decreases n,
{
    if n > 0 {
        lemma_round_trip_upto(s, t, u, table, pulse, n - 1);
        let m = n - 1;
        let sn = s.nodes[m];
        let tn = t.nodes[m];
        let un = u.nodes[m];
        assert(s.node_wf(m));
        assert(node_translated(s, t, table, pulse, m));
        assert(node_folded(t, u, m));
        assert(sn.op.streaming_output_facts(s.input_facts(m)) == Option::Some(sn.outputs));
        // the facts feeding node m agree across the three graphs
        assert(tn.inputs == sn.inputs);
        assert(un.inputs == sn.inputs);
        assert forall|j: int| 0 <= j < sn.inputs.len() implies {
            let o = (#[trigger] sn.inputs[j])->Some_0;
            t.fact(o).as_static() == fact_folded(s.fact(o), pulse) && u.fact(o) == t.fact(
                o,
            ).as_static() && s.fact(o) is Static
        } by {
            let o = sn.inputs[j]->Some_0;
            assert(s.outlet_ok(o) && o.node < m);
        }
        match sn.op {
            OpView::Source { fact } => {
                assert(table_find(table, sn.op.kind()) == Option::Some(PulseRule::PulseSource));
                assert(sn.outputs == seq![fact]);
                let pf = source_op_pulsed(sn.op, pulse)->Some_0->Source_fact;
                assert(tn.op == (OpView::Source { fact: pf }));
                assert(tn.outputs == seq![pf]);
                let dims = fact->Static_dims;
                let ax = stream_axis_of(dims) as usize;
                assert(pf == fact.pulsed(ax, pulse, 0));
                assert(pf.as_static() == fact_folded(fact, pulse)) by {
                    assert(pf->Pulsed_shape =~= Seq::new(
                        dims.len(),
                        |i: int| dims[i].concrete(pulse),
                    ));
                    assert(pf.as_static()->Static_dims =~= dims_concrete(dims, pulse));
                }
                assert(un.op == (OpView::Source { fact: pf.as_static() }));
                assert(un.outputs == seq![pf.as_static().as_static()]);
                assert(pf.as_static().as_static() == pf.as_static());
                assert(un.outputs[0] == tn.outputs[0].as_static());
            },
            OpView::Dummy => {
                assert(sn.outputs.len() == 0);
            },
            OpView::ElementWise { .. } => {
                assert(table_find(table, sn.op.kind()) == Option::Some(PulseRule::Passthrough));
                assert(tn.op == sn.op);
                let s_ins = s.input_facts(m);
                let t_ins = t.input_facts(m);
                let u_ins = u.input_facts(m);
                assert(s_ins.len() >= 1);
                assert(s_ins[0] == s.fact(sn.inputs[0]->Some_0));
                assert(t_ins[0] == t.fact(sn.inputs[0]->Some_0));
                assert(u_ins[0] == u.fact(sn.inputs[0]->Some_0));
                assert(sn.outputs == seq![s_ins[0].with_delay(max_delay(s_ins))]);
                assert(s_ins[0].with_delay(max_delay(s_ins)) == s_ins[0]);
                assert(tn.outputs == seq![t_ins[0].with_delay(max_delay(t_ins))]);
                assert(tn.outputs[0].as_static() == t_ins[0].as_static());
                assert(un.outputs == seq![u_ins[0]]);
                assert(un.outputs[0] == tn.outputs[0].as_static());
            },
            OpView::Buffering { delay, .. } => {
                assert(table_find(table, sn.op.kind()) == Option::Some(PulseRule::Passthrough));
                assert(tn.op == sn.op);
                let s_ins = s.input_facts(m);
                let t_ins = t.input_facts(m);
                let u_ins = u.input_facts(m);
                assert(s_ins[0] == s.fact(sn.inputs[0]->Some_0));
                assert(t_ins[0] == t.fact(sn.inputs[0]->Some_0));
                assert(u_ins[0] == u.fact(sn.inputs[0]->Some_0));
                assert(sn.outputs == seq![
                    s_ins[0].with_delay(s_ins[0].delay().saturating_add(delay)),
                ]);
                assert(s_ins[0].with_delay(s_ins[0].delay().saturating_add(delay)) == s_ins[0]);
                assert(tn.outputs == seq![
                    t_ins[0].with_delay(t_ins[0].delay().saturating_add(delay)),
                ]);
                assert(tn.outputs[0].as_static() == t_ins[0].as_static());
                assert(un.outputs == seq![u_ins[0]]);
                assert(un.outputs[0] == tn.outputs[0].as_static());
            },
            OpView::Reduce { axis, .. } => {
                assert(table_find(table, sn.op.kind()) == Option::Some(PulseRule::Passthrough));
                assert(tn.op == sn.op);
                let s_ins = s.input_facts(m);
                let t_ins = t.input_facts(m);
                let u_ins = u.input_facts(m);
                assert(s_ins[0] == s.fact(sn.inputs[0]->Some_0));
                assert(t_ins[0] == t.fact(sn.inputs[0]->Some_0));
                assert(u_ins[0] == u.fact(sn.inputs[0]->Some_0));
                assert(s_ins[0].stream_axis() is None);
                assert(sn.outputs == seq![s_ins[0].with_axis_one(axis)]);
                // the pulsed reduction succeeded, so it runs off the
                // streaming axis
                assert(sn.op.streaming_output_facts(t_ins) is Some);
                assert(tn.outputs == seq![t_ins[0].with_axis_one(axis)]);
                assert(un.outputs == seq![u_ins[0].with_axis_one(axis)]);
                lemma_with_axis_one_as_static(t_ins[0], axis);
                lemma_fact_folded_axis_one(s_ins[0], pulse, axis);
                assert(tn.outputs[0].as_static() == fact_folded(sn.outputs[0], pulse));
                assert(un.outputs[0] == tn.outputs[0].as_static());
            },
        }
    }
}

/// Idempotent round trip: pulsifying a static graph and folding the result
/// back yields a graph isomorphic to the original — same node names,
/// operator kinds, wiring and declared outputs — whose facts equal the
/// original facts with the streaming axis's symbolic extent replaced by the
/// pulse size (the `pulse.delay` property being the one further artifact).
pub proof fn lemma_pulse_round_trip(
    s: GraphView,
    t: GraphView,
    u: GraphView,
    table: Seq<OpPulsifier>,
    pulse: u64,
)
    requires
        s.translation_ready(),
        s.facts_consistent(),
        all_facts_static(s),
        routed(s, table),
        pulsify_spec(s, table, pulse, t),
        folded_spec(t, u),
    ensures
        u.nodes.len() == s.nodes.len(),
        u.outputs == s.outputs,
        forall|n: int|
            0 <= n < s.nodes.len() ==> {
                &&& (#[trigger] u.nodes[n]).name == s.nodes[n].name
                &&& u.nodes[n].inputs == s.nodes[n].inputs
                &&& u.nodes[n].op.kind() == s.nodes[n].op.kind()
                &&& u.nodes[n].outputs.len() == s.nodes[n].outputs.len()
                &&& forall|k: int|
                    0 <= k < s.nodes[n].outputs.len() ==> #[trigger] u.nodes[n].outputs[k]
                        == fact_folded(s.nodes[n].outputs[k], pulse)
            },
{
    lemma_round_trip_upto(s, t, u, table, pulse, s.nodes.len() as int);
    assert forall|n: int| 0 <= n < s.nodes.len() implies {
        &&& (#[trigger] u.nodes[n]).name == s.nodes[n].name
        &&& u.nodes[n].inputs == s.nodes[n].inputs
        &&& u.nodes[n].op.kind() == s.nodes[n].op.kind()
        &&& u.nodes[n].outputs.len() == s.nodes[n].outputs.len()
        &&& forall|k: int|
            0 <= k < s.nodes[n].outputs.len() ==> #[trigger] u.nodes[n].outputs[k] == fact_folded(
                s.nodes[n].outputs[k],
                pulse,
            )
    } by {
        assert(s.node_wf(n));
        assert(t.node_wf(n));
        assert(node_translated(s, t, table, pulse, n));
        assert(node_folded(t, u, n));
        crate::translate::lemma_translated_out_len(s, t, table, pulse, n);
        crate::translate::lemma_folded_out_len(t, u, n);
        match s.nodes[n].op {
            OpView::Source { .. } => {
                assert(table_find(table, s.nodes[n].op.kind()) == Option::Some(
                    PulseRule::PulseSource,
                ));
                assert(t.nodes[n].op is Source);
                assert(u.nodes[n].op is Source);
                assert(u.nodes[n].op.kind() == s.nodes[n].op.kind());
            },
            _ => {
                assert(table_find(table, s.nodes[n].op.kind()) == Option::Some(
                    PulseRule::Passthrough,
                ));
                assert(t.nodes[n].op == s.nodes[n].op);
                assert(u.nodes[n].op == t.nodes[n].op);
            },
        }
        assert forall|k: int|
            0 <= k < s.nodes[n].outputs.len() implies #[trigger] u.nodes[n].outputs[k]
            == fact_folded(s.nodes[n].outputs[k], pulse) by {
            assert(t.nodes[n].outputs[k].as_static() == fact_folded(s.nodes[n].outputs[k], pulse));
            assert(u.nodes[n].outputs[k] == t.nodes[n].outputs[k].as_static());
        }
    }
}

} // verus!
