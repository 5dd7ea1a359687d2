use pulse_core::fact::{Dim, ElemType, Fact};
use pulse_core::graph::{Graph, InletId, ModelError, OutletId};
use pulse_core::ops::{Op, OpKind};
use pulse_core::registry::{
    onnx_opl_registry, Framework, OpTemplate, Registry, WithOnnx, ERF_KIND, IS_INF_KIND,
    IS_NAN_KIND, LRN_KIND, ONE_HOT_KIND,
};
use pulse_core::translate::{PulseRule, PulsedModelExt, PulsifierTable};

fn streaming_source_fact() -> Fact {
    Fact::static_fact(ElemType::Float32, vec![Dim::Stream, Dim::Fixed(10)])
}

fn standard_table(kinds: &[u64]) -> PulsifierTable {
    let mut table = PulsifierTable::new();
    table.register(OpKind::Source, PulseRule::PulseSource);
    table.register(OpKind::Dummy, PulseRule::Passthrough);
    for k in kinds {
        table.register(OpKind::Registered(*k), PulseRule::Passthrough);
    }
    table
}

fn unit_op(kind: u64) -> Op {
    Op::ElementWise { kind, params: Vec::new() }
}

#[test]
fn static_fact_construction() {
    let f = Fact::static_fact(ElemType::Int64, vec![Dim::Fixed(3), Dim::Fixed(4)]);
    match f {
        Fact::Static { dt, dims } => {
            assert_eq!(dt, ElemType::Int64);
            assert_eq!(dims, vec![Dim::Fixed(3), Dim::Fixed(4)]);
        }
        _ => panic!("expected a static fact"),
    }
}

#[test]
fn pulsed_fact_and_into_static() {
    let f = streaming_source_fact();
    let p = f.pulsed_fact(0, 4, 7);
    assert_eq!(
        p,
        Fact::Pulsed { dt: ElemType::Float32, shape: vec![4, 10], axis: 0, pulse: 4, delay: 7 }
    );
    let back = p.into_static();
    assert_eq!(
        back,
        Fact::Static { dt: ElemType::Float32, dims: vec![Dim::Fixed(4), Dim::Fixed(10)] }
    );
}

#[test]
fn add_edge_rejects_dangling_and_double_binding() {
    let mut g = Graph::empty();
    let f = streaming_source_fact();
    let src = g.add_node("source".to_string(), Op::Source { fact: f.duplicate() }, vec![f]);
    let sink = g.add_node(
        "sink".to_string(),
        unit_op(1),
        vec![Fact::static_fact(ElemType::Float32, vec![Dim::Fixed(1)])],
    );
    assert_eq!(
        g.add_edge(OutletId::new(7, 0), InletId::new(sink, 0)),
        Err(ModelError::DanglingReference)
    );
    assert_eq!(
        g.add_edge(OutletId::new(src, 3), InletId::new(sink, 0)),
        Err(ModelError::DanglingReference)
    );
    assert_eq!(g.add_edge(OutletId::new(src, 0), InletId::new(sink, 0)), Ok(()));
    assert_eq!(
        g.add_edge(OutletId::new(src, 0), InletId::new(sink, 0)),
        Err(ModelError::InletAlreadyBound)
    );
}

#[test]
fn outlet_fact_rejects_unknown_outlet() {
    let mut g = Graph::empty();
    let f = streaming_source_fact();
    let src = g.add_node("source".to_string(), Op::Source { fact: f.duplicate() }, vec![f]);
    assert!(g.outlet_fact(OutletId::new(src, 0)).is_ok());
    assert_eq!(
        g.outlet_fact(OutletId::new(src, 1)).unwrap_err(),
        ModelError::UnknownOutlet
    );
    assert_eq!(
        g.outlet_fact(OutletId::new(9, 0)).unwrap_err(),
        ModelError::UnknownOutlet
    );
}

/// A single streaming source feeding one unit element-wise operator, pulse
/// size 1 on axis 0: the pulsed source fact streams on axis 0 with pulse 1
/// and delay 0, the output fact also carries delay 0, and back-translation
/// records pulse.delay = [0].
#[test]
fn unit_element_wise_pulse_scenario() {
    let mut g = Graph::empty();
    let f = streaming_source_fact();
    let src = g.add_node("source".to_string(), Op::Source { fact: f.duplicate() }, vec![f]);
    let outs = g
        .wire_node("erf".to_string(), unit_op(ERF_KIND), &vec![OutletId::new(src, 0)])
        .unwrap();
    g.set_output_outlets(outs);
    assert!(g.validate());

    let table = standard_table(&[ERF_KIND]);
    let (pulsed, mapping) = Graph::new_with_mapping(&g, &table, 1).unwrap();
    // the translated graph is structurally valid: every inlet bound, edges
    // in dependency order
    assert!(pulsed.validate());
    // the mapping covers every source outlet
    assert_eq!(mapping.get(OutletId::new(0, 0)), Some(OutletId::new(0, 0)));
    assert_eq!(pulsed.nodes.len(), 2);
    let source_fact = pulsed.outlet_fact(OutletId::new(0, 0)).unwrap();
    assert_eq!(
        *source_fact,
        Fact::Pulsed { dt: ElemType::Float32, shape: vec![1, 10], axis: 0, pulse: 1, delay: 0 }
    );
    let out_fact = pulsed.outlet_fact(OutletId::new(1, 0)).unwrap();
    assert_eq!(out_fact.delay(), 0);
    assert_eq!(mapping.get(OutletId::new(1, 0)), Some(OutletId::new(1, 0)));

    let typed = pulsed.into_typed().unwrap();
    assert_eq!(typed.properties.len(), 1);
    assert_eq!(typed.properties[0].0, "pulse.delay".to_string());
    assert_eq!(typed.properties[0].1, vec![0]);
    assert_eq!(typed.nodes.len(), 2);
    assert_eq!(typed.outputs, g.outputs);
}

/// A chain of buffering operators composes delays by summation.
#[test]
fn chain_delay_sums() {
    let mut g = Graph::empty();
    let f = streaming_source_fact();
    let src = g.add_node("source".to_string(), Op::Source { fact: f.duplicate() }, vec![f]);
    let b1 = g
        .wire_node(
            "window_a".to_string(),
            Op::Buffering { kind: 11, delay: 2 },
            &vec![OutletId::new(src, 0)],
        )
        .unwrap();
    let b2 = g
        .wire_node("window_b".to_string(), Op::Buffering { kind: 12, delay: 3 }, &vec![b1[0]])
        .unwrap();
    g.set_output_outlets(b2);
    let table = standard_table(&[11, 12]);
    let pulsed = Graph::new(&g, &table, 4).unwrap();
    let out_fact = pulsed.outlet_fact(pulsed.output_outlets()[0]).unwrap();
    assert_eq!(out_fact.delay(), 5);
    let typed = pulsed.into_typed().unwrap();
    assert_eq!(typed.properties[0].1, vec![5]);
}

/// At a fan-in node the recorded delay is the maximum over the incoming
/// paths, not their sum.
#[test]
fn fan_in_delay_is_max() {
    let mut g = Graph::empty();
    let f1 = streaming_source_fact();
    let s1 = g.add_node("left".to_string(), Op::Source { fact: f1.duplicate() }, vec![f1]);
    let b1 = g
        .wire_node(
            "left_window".to_string(),
            Op::Buffering { kind: 21, delay: 2 },
            &vec![OutletId::new(s1, 0)],
        )
        .unwrap();
    let f2 = streaming_source_fact();
    let s2 = g.add_node("right".to_string(), Op::Source { fact: f2.duplicate() }, vec![f2]);
    let b2 = g
        .wire_node(
            "right_window".to_string(),
            Op::Buffering { kind: 22, delay: 7 },
            &vec![OutletId::new(s2, 0)],
        )
        .unwrap();
    let join = g
        .wire_node(
            "join".to_string(),
            Op::ElementWise { kind: 23, params: Vec::new() },
            &vec![b1[0], b2[0]],
        )
        .unwrap();
    g.set_output_outlets(join);
    let table = standard_table(&[21, 22, 23]);
    let pulsed = Graph::new(&g, &table, 1).unwrap();
    let out_fact = pulsed.outlet_fact(pulsed.output_outlets()[0]).unwrap();
    assert_eq!(out_fact.delay(), 7);
}

/// Pulsifying a graph holding an unregistered operator kind fails with
/// NoPulsifierForOperator; registering a passthrough translator for the kind
/// makes the same graph pulsify.
#[test]
fn dispatch_completeness() {
    let mut g = Graph::empty();
    let f = streaming_source_fact();
    let src = g.add_node("source".to_string(), Op::Source { fact: f.duplicate() }, vec![f]);
    let outs = g
        .wire_node("mystery".to_string(), unit_op(99), &vec![OutletId::new(src, 0)])
        .unwrap();
    g.set_output_outlets(outs);
    let table = standard_table(&[]);
    match Graph::new(&g, &table, 1) {
        Err(ModelError::NoPulsifierForOperator(name)) => assert_eq!(name, "mystery".to_string()),
        other => panic!("expected a missing-pulsifier failure, got {:?}", other),
    }
    let mut table = table;
    table.register(OpKind::Registered(99), PulseRule::Passthrough);
    assert!(Graph::new(&g, &table, 1).is_ok());
}

/// A source whose fact has no streaming axis cannot be pulsified.
#[test]
fn source_without_stream_axis_is_unsupported() {
    let mut g = Graph::empty();
    let f = Fact::static_fact(ElemType::Float32, vec![Dim::Fixed(2), Dim::Fixed(3)]);
    let src = g.add_node("source".to_string(), Op::Source { fact: f.duplicate() }, vec![f]);
    g.set_output_outlets(vec![OutletId::new(src, 0)]);
    let table = standard_table(&[]);
    assert_eq!(
        Graph::new(&g, &table, 1).unwrap_err(),
        ModelError::UnsupportedStreamingLayout
    );
}

/// Reduction exactly along the streaming axis is refused.
#[test]
fn reduce_on_stream_axis_is_unsupported() {
    let mut g = Graph::empty();
    let f = streaming_source_fact();
    let src = g.add_node("source".to_string(), Op::Source { fact: f.duplicate() }, vec![f]);
    let outs = g
        .wire_node(
            "sum".to_string(),
            Op::Reduce { kind: 31, axis: 0 },
            &vec![OutletId::new(src, 0)],
        )
        .unwrap();
    g.set_output_outlets(outs);
    let table = standard_table(&[31]);
    assert_eq!(
        Graph::new(&g, &table, 1).unwrap_err(),
        ModelError::UnsupportedStreamingLayout
    );
    // the same reduction off the streaming axis streams fine
    let mut g2 = Graph::empty();
    let f2 = streaming_source_fact();
    let src2 = g2.add_node("source".to_string(), Op::Source { fact: f2.duplicate() }, vec![f2]);
    let outs2 = g2
        .wire_node(
            "sum".to_string(),
            Op::Reduce { kind: 31, axis: 1 },
            &vec![OutletId::new(src2, 0)],
        )
        .unwrap();
    g2.set_output_outlets(outs2);
    let pulsed = Graph::new(&g2, &table, 2).unwrap();
    let out_fact = pulsed.outlet_fact(pulsed.output_outlets()[0]).unwrap();
    assert_eq!(
        *out_fact,
        Fact::Pulsed { dt: ElemType::Float32, shape: vec![2, 1], axis: 0, pulse: 2, delay: 0 }
    );
}

/// An incomplete graph (an unbound inlet) is refused before translation.
#[test]
fn unbound_inlet_is_dangling() {
    let mut g = Graph::empty();
    let f = streaming_source_fact();
    g.add_node("source".to_string(), Op::Source { fact: f.duplicate() }, vec![f]);
    g.add_node(
        "floating".to_string(),
        unit_op(5),
        vec![Fact::static_fact(ElemType::Float32, vec![Dim::Fixed(1)])],
    );
    assert!(!g.validate());
    let table = standard_table(&[5]);
    assert_eq!(
        Graph::new(&g, &table, 1).unwrap_err(),
        ModelError::DanglingReference
    );
}

#[test]
fn source_and_dummy_markers() {
    let g = Graph::empty();
    let f = streaming_source_fact();
    let source = g.create_source(f);
    assert!(Graph::is_source(&source));
    let dummy = g.create_dummy();
    assert!(!Graph::is_source(&dummy));
    assert_eq!(dummy.kind_identity(), OpKind::Dummy);
    assert_eq!(source.kind_identity(), OpKind::Source);
}

/// Dumping a node registered as unit element-wise and reloading it by name
/// yields the same operator value: same kind identity, same behavior.
#[test]
fn registry_unit_element_wise_round_trip() {
    let mut registry = Registry::new("test_ns".to_string());
    let op = unit_op(77);
    registry.register_unit_element_wise("my_unit".to_string(), op.duplicate());
    let (name, params) = registry.dump(&op).unwrap();
    assert_eq!(name, "my_unit".to_string());
    assert_eq!(params, Vec::<i64>::new());
    let reloaded = registry.load(&name, params).unwrap();
    assert_eq!(reloaded, op);
    assert_eq!(reloaded.kind_identity(), op.kind_identity());
}

#[test]
fn registry_load_unknown_name_fails() {
    let registry = Registry::new("test_ns".to_string());
    match registry.load(&"nobody".to_string(), vec![]) {
        Err(ModelError::UnknownOperatorName(name)) => assert_eq!(name, "nobody".to_string()),
        other => panic!("expected an unknown-name failure, got {:?}", other),
    }
}

#[test]
fn registry_dump_miss_is_none() {
    let registry = Registry::new("test_ns".to_string());
    assert!(registry.dump(&unit_op(123)).is_none());
}

#[test]
fn registry_last_dumper_wins() {
    let mut registry = Registry::new("test_ns".to_string());
    registry.register_dumper(OpKind::Registered(8), "first".to_string());
    registry.register_dumper(OpKind::Registered(8), "second".to_string());
    let (name, _) = registry.dump(&unit_op(8)).unwrap();
    assert_eq!(name, "second".to_string());
}

#[test]
fn onnx_registry_entries() {
    let registry = onnx_opl_registry();
    assert_eq!(registry.namespace, "tract_onnx".to_string());
    let (name, params) = registry.dump(&unit_op(ERF_KIND)).unwrap();
    assert_eq!(name, "tract_onnx_erf".to_string());
    assert_eq!(params, Vec::<i64>::new());
    let erf = registry.load(&"tract_onnx_erf".to_string(), vec![]).unwrap();
    assert_eq!(erf, unit_op(ERF_KIND));
    let lrn = registry.load(&"tract_onnx_lrn".to_string(), vec![3]).unwrap();
    assert_eq!(lrn, Op::Buffering { kind: LRN_KIND, delay: 3 });
    assert!(registry
        .load(&"tract_onnx_missing".to_string(), vec![])
        .is_err());
}

/// A windowed template refuses malformed parameter bindings instead of
/// defaulting the delay.
#[test]
fn registry_load_rejects_malformed_parameters() {
    let registry = onnx_opl_registry();
    match registry.load(&"tract_onnx_lrn".to_string(), vec![]) {
        Err(ModelError::InvalidParameters(name)) => {
            assert_eq!(name, "tract_onnx_lrn".to_string())
        }
        other => panic!("expected an invalid-parameters failure, got {:?}", other),
    }
    match registry.load(&"tract_onnx_lrn".to_string(), vec![-2]) {
        Err(ModelError::InvalidParameters(name)) => {
            assert_eq!(name, "tract_onnx_lrn".to_string())
        }
        other => panic!("expected an invalid-parameters failure, got {:?}", other),
    }
}

/// Both unit element-wise registrations of the extension registry round-trip
/// through dump and load.
#[test]
fn onnx_unit_element_wise_round_trips() {
    let registry = onnx_opl_registry();
    for op in [unit_op(ERF_KIND), unit_op(IS_NAN_KIND)] {
        let (name, params) = registry.dump(&op).unwrap();
        let reloaded = registry.load(&name, params).unwrap();
        assert_eq!(reloaded, op);
    }
    let (nan_name, _) = registry.dump(&unit_op(IS_NAN_KIND)).unwrap();
    assert_eq!(nan_name, "tract_onnx_is_nan".to_string());
}

/// A loaded element-wise operator carries its parameters and preserves the
/// input shape when propagating facts.
#[test]
fn onnx_isinf_loads_element_wise() {
    let registry = onnx_opl_registry();
    let op = registry
        .load(&"tract_onnx_isinf".to_string(), vec![1, 0])
        .unwrap();
    assert_eq!(op, Op::ElementWise { kind: IS_INF_KIND, params: vec![1, 0] });
    let input = Fact::static_fact(ElemType::Float32, vec![Dim::Fixed(2), Dim::Fixed(3)]);
    let outs = op.propagate_facts(&vec![input.duplicate()]);
    assert_eq!(outs, vec![input]);
    let one_hot = registry
        .load(&"tract_onnx_one_hot".to_string(), vec![1, 4])
        .unwrap();
    assert_eq!(
        one_hot.kind_identity(),
        Op::ElementWise { kind: ONE_HOT_KIND, params: vec![] }.kind_identity()
    );
}

#[test]
fn framework_with_onnx_appends_registry() {
    let framework = Framework::empty().with_onnx();
    assert_eq!(framework.registries.len(), 1);
    assert_eq!(framework.registries[0].namespace, "tract_onnx".to_string());
}

#[test]
fn register_primitive_and_dumper_pair() {
    let mut registry = Registry::new("test_ns".to_string());
    registry.register_dumper(OpKind::Registered(40), "windowed".to_string());
    registry.register_primitive(
        "windowed".to_string(),
        vec!["size".to_string()],
        OpTemplate::Buffering { kind: 40 },
    );
    let op = registry.load(&"windowed".to_string(), vec![6]).unwrap();
    assert_eq!(op, Op::Buffering { kind: 40, delay: 6 });
    let (name, params) = registry.dump(&op).unwrap();
    assert_eq!(name, "windowed".to_string());
    assert_eq!(params, vec![6]);
}

/// Streaming propagation: a buffering operator adds its delay on top of the
/// input's accumulated delay.
#[test]
fn streaming_propagation_adds_delay() {
    let op = Op::Buffering { kind: 50, delay: 4 };
    let input = Fact::Pulsed {
        dt: ElemType::Float32,
        shape: vec![1, 10],
        axis: 0,
        pulse: 1,
        delay: 3,
    };
    let outs = op.propagate_streaming_facts(&vec![input]).unwrap();
    assert_eq!(outs.len(), 1);
    assert_eq!(outs[0].delay(), 7);
}

#[test]
fn streaming_propagation_rejects_reduce_on_stream_axis() {
    let op = Op::Reduce { kind: 51, axis: 1 };
    let input = Fact::Pulsed {
        dt: ElemType::Float32,
        shape: vec![2, 8],
        axis: 1,
        pulse: 8,
        delay: 0,
    };
    assert_eq!(
        op.propagate_streaming_facts(&vec![input]).unwrap_err(),
        ModelError::UnsupportedStreamingLayout
    );
}

/// An outlet may feed several inlets; the recorded pulse.delay sequence has
/// one entry per declared output.
#[test]
fn fan_out_records_one_delay_per_output() {
    let mut g = Graph::empty();
    let f = streaming_source_fact();
    let src = g.add_node("source".to_string(), Op::Source { fact: f.duplicate() }, vec![f]);
    let left = g
        .wire_node("plain".to_string(), unit_op(71), &vec![OutletId::new(src, 0)])
        .unwrap();
    let right = g
        .wire_node(
            "windowed".to_string(),
            Op::Buffering { kind: 72, delay: 4 },
            &vec![OutletId::new(src, 0)],
        )
        .unwrap();
    g.set_output_outlets(vec![left[0], right[0]]);
    let table = standard_table(&[71, 72]);
    let pulsed = Graph::new(&g, &table, 1).unwrap();
    let typed = pulsed.into_typed().unwrap();
    assert_eq!(typed.properties.len(), 1);
    assert_eq!(typed.properties[0].1, vec![0, 4]);
}

/// Translating a static graph to pulsed form and back (ignoring pulse.delay)
/// preserves names, operator kinds, wiring and the non-streaming fact
/// attributes; the streaming axis's symbolic extent becomes the pulse size.
#[test]
fn pulse_round_trip_is_isomorphic() {
    let mut g = Graph::empty();
    let f = streaming_source_fact();
    let src = g.add_node("source".to_string(), Op::Source { fact: f.duplicate() }, vec![f]);
    let e1 = g
        .wire_node("square".to_string(), unit_op(61), &vec![OutletId::new(src, 0)])
        .unwrap();
    let e2 = g
        .wire_node("offset".to_string(), unit_op(62), &vec![e1[0]])
        .unwrap();
    g.set_output_outlets(e2);
    let table = standard_table(&[61, 62]);
    let pulsed = Graph::new(&g, &table, 3).unwrap();
    let typed = pulsed.into_typed().unwrap();
    assert_eq!(typed.nodes.len(), g.nodes.len());
    for (orig, back) in g.nodes.iter().zip(typed.nodes.iter()) {
        assert_eq!(orig.name, back.name);
        assert_eq!(orig.inputs, back.inputs);
        assert_eq!(orig.op.kind_identity(), back.op.kind_identity());
    }
    assert_eq!(typed.outputs, g.outputs);
    // off the streaming axis every dimension survives; the streaming axis
    // carries the pulse size
    let back_fact = typed.outlet_fact(OutletId::new(2, 0)).unwrap();
    assert_eq!(
        *back_fact,
        Fact::Static { dt: ElemType::Float32, dims: vec![Dim::Fixed(3), Dim::Fixed(10)] }
    );
}
