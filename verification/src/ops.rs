//! Operators and their fact-propagation contracts.
//!
//! An operator kind is identified by an [`OpKind`] token, the key of the
//! registry and of the pulsifier table. The capability contract every kind
//! satisfies is: identity ([`Op::kind_identity`]), static fact propagation
//! ([`Op::propagate_facts`]) and, for streaming execution, streaming fact
//! propagation ([`Op::propagate_streaming_facts`]), which also fixes the delay
//! policy: an operator's output delay is the maximum of its input delays plus
//! the operator's own buffering contribution.

use vstd::prelude::*;
use crate::fact::{Fact, FactView};
use crate::graph::ModelError;

verus! {

/// Process-wide identity token of an operator kind, independent of any node
/// instance. The synthetic source and dummy markers have their own tokens;
/// every other kind picks a numeric tag at operator-definition time.
#[derive(Clone, Copy, Debug, PartialEq, Eq, Structural)]
pub enum OpKind {
    Source,
    Dummy,
    Registered(u64),
}

/// Mathematical model of an [`Op`].
#[verifier::ext_equal]
pub enum OpView {
    Source { fact: FactView },
    Dummy,
    ElementWise { kind: u64, params: Seq<i64> },
    Buffering { kind: u64, delay: u64 },
    Reduce { kind: u64, axis: usize },
}

/// An operator attached to a graph node.
#[derive(Debug, PartialEq, Eq)]
pub enum Op {
    /// The point where a value enters the graph; it carries the fact it
    /// emits. Recognized by the graph machinery as the stream entry.
    Source { fact: Fact },
    /// A structurally valid no-op standing in for an operator a pass
    /// intentionally erases.
    Dummy,
    /// Applies one scalar function to every element of any number of
    /// same-shaped inputs; contributes no delay.
    ElementWise { kind: u64, params: Vec<i64> },
    /// A windowed operator over the streaming axis: shape-preserving, but its
    /// output lags its input by `delay` stream positions.
    Buffering { kind: u64, delay: u64 },
    /// Reduces axis `axis` to extent one. It cannot express its semantics
    /// when asked to stream exactly along that axis.
    Reduce { kind: u64, axis: usize },
}

impl View for Op {
    type V = OpView;

    open spec fn view(&self) -> OpView {
        match self {
            Op::Source { fact } => OpView::Source { fact: fact@ },
            Op::Dummy => OpView::Dummy,
            Op::ElementWise { kind, params } => OpView::ElementWise { kind: *kind, params: params@ },
            Op::Buffering { kind, delay } => OpView::Buffering { kind: *kind, delay: *delay },
            Op::Reduce { kind, axis } => OpView::Reduce { kind: *kind, axis: *axis },
        }
    }
}

/// The views of a sequence of facts.
pub open spec fn facts_view(s: Seq<Fact>) -> Seq<FactView> {
    s.map_values(|f: Fact| f@)
}

/// The largest delay among `facts` (zero when there is none): the join policy
/// for delays at fan-in nodes.
pub open spec fn max_delay(facts: Seq<FactView>) -> u64
    decreases facts.len(),
{
    if facts.len() == 0 {
        0
    } else {
        let rest = max_delay(facts.drop_last());
        if facts.last().delay() > rest {
            facts.last().delay()
        } else {
            rest
        }
    }
}

impl OpView {
    /// The registry / pulsifier-table key of this operator's kind.
    pub open spec fn kind(self) -> OpKind {
        match self {
            OpView::Source { .. } => OpKind::Source,
            OpView::Dummy => OpKind::Dummy,
            OpView::ElementWise { kind, .. } => OpKind::Registered(kind),
            OpView::Buffering { kind, .. } => OpKind::Registered(kind),
            OpView::Reduce { kind, .. } => OpKind::Registered(kind),
        }
    }

    pub open spec fn is_source(self) -> bool {
        self is Source
    }

    /// Whether a node of this operator may have `n` bound inlets.
    pub open spec fn in_arity_ok(self, n: nat) -> bool {
        match self {
            OpView::Source { .. } => n == 0,
            OpView::Dummy => n == 0,
            OpView::ElementWise { .. } => n >= 1,
            OpView::Buffering { .. } => n == 1,
            OpView::Reduce { .. } => n == 1,
        }
    }

    /// How many outlets a node of this operator exposes.
    pub open spec fn out_arity(self) -> nat {
        match self {
            OpView::Dummy => 0,
            _ => 1,
        }
    }

    /// How many stream positions of latency this operator adds on top of its
    /// inputs' accumulated delay.
    pub open spec fn delay_contribution(self) -> u64 {
        match self {
            OpView::Buffering { delay, .. } => delay,
            _ => 0,
        }
    }

    /// Static fact propagation: the output facts of a node of this operator,
    /// from its input facts, ignoring all streaming metadata.
    pub open spec fn static_output_facts(self, ins: Seq<FactView>) -> Seq<FactView>
        recommends
            self.in_arity_ok(ins.len()),
    {
        match self {
            OpView::Source { fact } => seq![fact.as_static()],
            OpView::Dummy => Seq::empty(),
            OpView::ElementWise { .. } => if ins.len() >= 1 {
                seq![ins[0]]
            } else {
                Seq::empty()
            },
            OpView::Buffering { .. } => if ins.len() >= 1 {
                seq![ins[0]]
            } else {
                Seq::empty()
            },
            OpView::Reduce { axis, .. } => if ins.len() >= 1 {
                seq![ins[0].with_axis_one(axis)]
            } else {
                Seq::empty()
            },
        }
    }

    /// Streaming fact propagation: `None` when the operator cannot express
    /// its semantics with the streaming axis where the inputs place it.
    pub open spec fn streaming_output_facts(self, ins: Seq<FactView>) -> Option<Seq<FactView>>
        recommends
            self.in_arity_ok(ins.len()),
    {
        match self {
            OpView::Source { fact } => Option::Some(seq![fact]),
            OpView::Dummy => Option::Some(Seq::empty()),
            OpView::ElementWise { .. } => Option::Some(
                if ins.len() >= 1 {
                    seq![ins[0].with_delay(max_delay(ins))]
                } else {
                    Seq::empty()
                },
            ),
            OpView::Buffering { delay, .. } => Option::Some(
                if ins.len() >= 1 {
                    seq![ins[0].with_delay(ins[0].delay().saturating_add(delay))]
                } else {
                    Seq::empty()
                },
            ),
            OpView::Reduce { axis, .. } => if ins.len() >= 1 && ins[0].stream_axis()
                == Option::Some(axis) {
                Option::None
            } else {
                Option::Some(
                    if ins.len() >= 1 {
                        seq![ins[0].with_axis_one(axis)]
                    } else {
                        Seq::empty()
                    },
                )
            },
        }
    }
}

impl Op {
    /// The identity token of this operator's kind.
    pub fn kind_identity(&self) -> (r: OpKind)
        ensures
            r == self@.kind(),
    {
        match self {
            Op::Source { .. } => OpKind::Source,
            Op::Dummy => OpKind::Dummy,
            Op::ElementWise { kind, .. } => OpKind::Registered(*kind),
            Op::Buffering { kind, .. } => OpKind::Registered(*kind),
            Op::Reduce { kind, .. } => OpKind::Registered(*kind),
        }
    }

    /// A structural copy of this operator.
    pub fn duplicate(&self) -> (r: Op)
        ensures
            r@ == self@,
    {
        match self {
            Op::Source { fact } => Op::Source { fact: fact.duplicate() },
            Op::Dummy => Op::Dummy,
            Op::ElementWise { kind, params } => {
                let mut copy: Vec<i64> = Vec::new();
                let mut i: usize = 0;
                while i < params.len()
                    invariant
                        i <= params.len(),
                        copy@.len() == i,
                        forall|j: int| 0 <= j < i ==> copy@[j] == params@[j],
                    decreases params.len() - i,
                {
                    copy.push(params[i]);
                    i += 1;
                }
                proof {
                    assert(copy@ =~= params@);
                }
                Op::ElementWise { kind: *kind, params: copy }
            },
            Op::Buffering { kind, delay } => Op::Buffering { kind: *kind, delay: *delay },
            Op::Reduce { kind, axis } => Op::Reduce { kind: *kind, axis: *axis },
        }
    }

    /// Static fact propagation for a node holding this operator.
    pub fn propagate_facts(&self, ins: &Vec<Fact>) -> (r: Vec<Fact>)
        requires
            self@.in_arity_ok(ins@.len()),
        ensures
            facts_view(r@) == self@.static_output_facts(facts_view(ins@)),
    {
        let r = match self {
            Op::Source { fact } => {
                let mut out: Vec<Fact> = Vec::new();
                out.push(fact.into_static());
                out
            },
            Op::Dummy => Vec::new(),
            Op::ElementWise { .. } => {
                let mut out: Vec<Fact> = Vec::new();
                out.push(ins[0].duplicate());
                out
            },
            Op::Buffering { .. } => {
                let mut out: Vec<Fact> = Vec::new();
                out.push(ins[0].duplicate());
                out
            },
            Op::Reduce { axis, .. } => {
                let mut out: Vec<Fact> = Vec::new();
                out.push(ins[0].with_axis_one(*axis));
                out
            },
        };
        proof {
            assert(facts_view(r@) =~= self@.static_output_facts(facts_view(ins@)));
        }
        r
    }

    /// Streaming fact propagation for a node holding this operator; fails
    /// when the operator cannot express its semantics with the streaming axis
    /// where the inputs place it.
    pub fn propagate_streaming_facts(&self, ins: &Vec<Fact>) -> (r: Result<Vec<Fact>, ModelError>)
        requires
            self@.in_arity_ok(ins@.len()),
        ensures
            match self@.streaming_output_facts(facts_view(ins@)) {
                Option::Some(fs) => r is Ok && facts_view(r->Ok_0@) == fs,
                Option::None => r == Result::<Vec<Fact>, ModelError>::Err(
                    ModelError::UnsupportedStreamingLayout,
                ),
            },
    {
        match self {
            Op::Source { fact } => {
                let mut out: Vec<Fact> = Vec::new();
                out.push(fact.duplicate());
                proof {
                    assert(facts_view(out@) =~= seq![fact@]);
                }
                Result::Ok(out)
            },
            Op::Dummy => {
                proof {
                    assert(facts_view(Seq::<Fact>::empty()) =~= Seq::<FactView>::empty());
                }
                Result::Ok(Vec::new())
            },
            Op::ElementWise { .. } => {
                let m = max_input_delay(ins);
                let mut out: Vec<Fact> = Vec::new();
                out.push(ins[0].with_delay_value(m));
                proof {
                    assert(facts_view(out@) =~= seq![ins@[0]@.with_delay(m)]);
                }
                Result::Ok(out)
            },
            Op::Buffering { delay, .. } => {
                let d = ins[0].delay().saturating_add(*delay);
                let mut out: Vec<Fact> = Vec::new();
                out.push(ins[0].with_delay_value(d));
                proof {
                    assert(facts_view(out@) =~= seq![ins@[0]@.with_delay(d)]);
                }
                Result::Ok(out)
            },
            Op::Reduce { axis, .. } => {
                let conflict = match ins[0].stream_axis_value() {
                    Option::Some(a) => a == *axis,
                    Option::None => false,
                };
                if conflict {
                    Result::Err(ModelError::UnsupportedStreamingLayout)
                } else {
                    let mut out: Vec<Fact> = Vec::new();
                    out.push(ins[0].with_axis_one(*axis));
                    proof {
                        assert(facts_view(out@) =~= seq![ins@[0]@.with_axis_one(*axis)]);
                    }
                    Result::Ok(out)
                }
            },
        }
    }
}

/// When streaming propagation succeeds it yields one fact per outlet of the
/// operator.
pub proof fn lemma_streaming_output_len(op: OpView, ins: Seq<FactView>)
    requires
        op.in_arity_ok(ins.len()),
        op.streaming_output_facts(ins) is Some,
    ensures
        op.streaming_output_facts(ins)->Some_0.len() == op.out_arity(),
{
    match op {
        OpView::Source { .. } => {},
        OpView::Dummy => {},
        OpView::ElementWise { .. } => {},
        OpView::Buffering { .. } => {},
        OpView::Reduce { .. } => {},
    }
}

/// Static propagation yields one fact per outlet of the operator.
pub proof fn lemma_static_output_len(op: OpView, ins: Seq<FactView>)
    requires
        op.in_arity_ok(ins.len()),
    ensures
        op.static_output_facts(ins).len() == op.out_arity(),
{
    match op {
        OpView::Source { .. } => {},
        OpView::Dummy => {},
        OpView::ElementWise { .. } => {},
        OpView::Buffering { .. } => {},
        OpView::Reduce { .. } => {},
    }
}

/// On static facts, streaming propagation never fails and agrees with static
/// propagation, provided a source operator already carries a static fact.
pub proof fn lemma_static_streaming_agree(op: OpView, ins: Seq<FactView>)
    requires
        op.in_arity_ok(ins.len()),
        forall|k: int| 0 <= k < ins.len() ==> ins[k] is Static,
        op is Source ==> op->Source_fact is Static,
    ensures
        op.streaming_output_facts(ins) == Option::Some(op.static_output_facts(ins)),
{
    match op {
        OpView::Source { fact } => {
            assert(seq![fact] =~= seq![fact.as_static()]);
        },
        OpView::Dummy => {},
        OpView::ElementWise { .. } => {
            assert(ins[0].with_delay(max_delay(ins)) == ins[0]);
            assert(seq![ins[0].with_delay(max_delay(ins))] =~= seq![ins[0]]);
        },
        OpView::Buffering { delay, .. } => {
            assert(seq![ins[0].with_delay(ins[0].delay().saturating_add(delay))] =~= seq![
                ins[0],
            ]);
        },
        OpView::Reduce { axis, .. } => {
            assert(ins[0].stream_axis() is None);
        },
    }
}

/// Static propagation of static facts yields static facts.
pub proof fn lemma_static_outputs_static(op: OpView, ins: Seq<FactView>)
    requires
        forall|k: int| 0 <= k < ins.len() ==> ins[k] is Static,
    ensures
        forall|k: int|
            0 <= k < op.static_output_facts(ins).len() ==> #[trigger] op.static_output_facts(
                ins,
            )[k] is Static,
{
    match op {
        OpView::Source { fact } => {
            assert(fact.as_static() is Static);
        },
        OpView::Dummy => {},
        OpView::ElementWise { .. } => {},
        OpView::Buffering { .. } => {},
        OpView::Reduce { axis, .. } => {
            if ins.len() >= 1 {
                assert(ins[0].with_axis_one(axis) is Static);
            }
        },
    }
}

/// The largest delay among the given input facts, the fan-in join policy.
pub fn max_input_delay(ins: &Vec<Fact>) -> (r: u64)
    ensures
        r == max_delay(facts_view(ins@)),
{
    let mut m: u64 = 0;
    let mut i: usize = 0;
    while i < ins.len()
        invariant
            i <= ins.len(),
            m == max_delay(facts_view(ins@).take(i as int)),
        decreases ins.len() - i,
    {
        let d = ins[i].delay();
        proof {
            let s = facts_view(ins@);
            assert(s.take(i + 1).drop_last() =~= s.take(i as int));
            assert(s.take(i + 1).last() == s[i as int]);
        }
        if d > m {
            m = d;
        }
        i += 1;
    }
    proof {
        assert(facts_view(ins@).take(ins@.len() as int) =~= facts_view(ins@));
    }
    m
}

} // verus!
