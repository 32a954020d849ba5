use janu_flow::{
    consume_tokens, default_input_rule, default_output_rule, Clock, Dataflow, DataflowInstance,
    InputDescriptor, Message, NodeRunner, OutputDescriptor, PortDescriptor, RuntimeContext, Table,
    ZFError,
};
use std::sync::Arc;

// Data Type

#[derive(Debug, Clone, PartialEq)]
pub struct ZFUsize(pub usize);

static SOURCE: &str = "Counter";
static DESTINATION: &str = "Counter";

fn port(id: &str, ty: &str) -> PortDescriptor {
    PortDescriptor {
        port_id: id.into(),
        port_type: ty.into(),
    }
}

fn counter_flow() -> Dataflow {
    let ctx = RuntimeContext {
        runtime_name: "test-runtime".into(),
        runtime_uuid: 0x1111,
    };
    let mut dataflow = Dataflow::new(ctx, "test".into(), None);

    dataflow
        .try_add_static_source("counter-source".into(), None, port(SOURCE, "int"))
        .unwrap();

    dataflow
        .try_add_static_sink("generic-sink".into(), port(SOURCE, "int"))
        .unwrap();

    dataflow
        .try_add_static_operator(
            "noop".into(),
            vec![port(SOURCE, "int")],
            vec![port(DESTINATION, "int")],
            None,
        )
        .unwrap();

    dataflow
        .try_add_link(
            OutputDescriptor {
                node: "counter-source".into(),
                output: SOURCE.into(),
            },
            InputDescriptor {
                node: "noop".into(),
                input: SOURCE.into(),
            },
            None,
            None,
            None,
        )
        .unwrap();

    dataflow
        .try_add_link(
            OutputDescriptor {
                node: "noop".into(),
                output: DESTINATION.into(),
            },
            InputDescriptor {
                node: "generic-sink".into(),
                input: SOURCE.into(),
            },
            None,
            None,
            None,
        )
        .unwrap();
    dataflow
}

// Run dataflow in single runtime
fn single_runtime() {
    let mut clock = Clock::new();
    let mut counter: usize = 0;

    let mut instance = DataflowInstance::<ZFUsize>::try_instantiate(counter_flow()).unwrap();

    let ids = instance.get_nodes();
    assert_eq!(ids, vec!["counter-source", "noop", "generic-sink"]);
    for id in &ids {
        instance.start_node(id).unwrap();
    }
    for id in &ids {
        assert_eq!(instance.is_node_running(id), Ok(true));
    }

    let source_id: String = "counter-source".into();
    let operator_id: String = "noop".into();
    let sink_id: String = "generic-sink".into();

    let mut tokens = match instance.runner(&operator_id).unwrap() {
        NodeRunner::Operator(operator) => {
            assert_eq!(operator.get_inputs(), vec![port(SOURCE, "int")]);
            operator.tokens()
        }
        _ => panic!("the operator has the runner of an operator"),
    };
    assert_eq!(tokens.len(), 1);
    assert_eq!(tokens.key(0), SOURCE);

    // Each loop owns the receiving ends of its node.
    let operator_inputs = instance
        .runner_mut(&operator_id)
        .unwrap()
        .take_input_links();
    let sink_inputs = instance.runner_mut(&sink_id).unwrap().take_input_links();
    assert_eq!(operator_inputs.len(), 1);
    assert_eq!(sink_inputs.len(), 1);

    let mut seen: Vec<usize> = Vec::new();
    for _ in 0..5 {
        // The source is triggered.
        counter += 1;
        match instance.runner(&source_id).unwrap() {
            NodeRunner::Source(source) => {
                let emission = source
                    .iteration(&mut clock, Arc::new(ZFUsize(counter)))
                    .unwrap();
                assert_eq!(emission.record_to, None);
                assert_eq!(source.send(&emission.message), Ok(1));
            }
            _ => panic!("the source has the runner of a source"),
        }

        // The operator forwards.
        match instance.runner(&operator_id).unwrap() {
            NodeRunner::Operator(operator) => {
                assert_eq!(default_input_rule(&tokens), Ok(false));
                let (port_id, message) = operator_inputs[0].recv().unwrap();
                assert_eq!(port_id, SOURCE);
                operator
                    .accept(&mut clock, &mut tokens, &port_id, &message)
                    .unwrap();
                assert_eq!(default_input_rule(&tokens), Ok(true));
                let inputs = consume_tokens(&mut tokens);
                let carried = operator.carry(&inputs);

                let data = inputs
                    .get(&SOURCE.to_string())
                    .ok_or_else(|| ZFError::InvalidData("No data".to_string()))
                    .unwrap()
                    .get_inner_data()
                    .clone();
                assert_eq!(data.0, counter);
                let mut results = Table::new();
                results.insert(DESTINATION.to_string(), data);

                let deadline_miss =
                    operator.local_deadline_miss(janu_flow::Duration::from_millis(0));
                assert!(
                    deadline_miss.is_none(),
                    "Expected `deadline_miss` to be `None`."
                );
                let routed = default_output_rule(results).unwrap();
                let outgoing = operator
                    .prepare_outputs(&mut clock, &carried, &routed)
                    .unwrap();
                assert_eq!(outgoing.len(), 1);
                for out in &outgoing {
                    assert_eq!(operator.send(&out.port_id, &out.message), Ok(1));
                }
            }
            _ => panic!("the operator has the runner of an operator"),
        }

        // The sink receives.
        match instance.runner(&sink_id).unwrap() {
            NodeRunner::Sink(sink) => {
                let (port_id, message) = sink_inputs[0].recv().unwrap();
                let input = sink.iteration(&mut clock, &port_id, &message).unwrap();
                let data = input.message.get_inner_data();
                assert_eq!(data.0, counter);
                assert!(input.clock_updated);
                match message.as_ref() {
                    Message::Data(sent) => assert!(input.now.time > sent.timestamp.time),
                    Message::Control(_) => panic!("data was sent"),
                }
                seen.push(data.0);
            }
            _ => panic!("the sink has the runner of a sink"),
        }
    }
    assert_eq!(seen, vec![1, 2, 3, 4, 5]);

    for id in &instance.get_sources() {
        instance.stop_node(id).unwrap()
    }

    for id in &instance.get_operators() {
        instance.stop_node(id).unwrap()
    }

    for id in &instance.get_sinks() {
        instance.stop_node(id).unwrap()
    }

    for id in &ids {
        assert_eq!(instance.is_node_running(id), Ok(false));
    }
}

#[test]
fn run_single_runtime() {
    single_runtime()
}

#[test]
fn nodes_are_listed_by_kind() {
    let instance = DataflowInstance::<ZFUsize>::try_instantiate(counter_flow()).unwrap();
    assert_eq!(instance.get_sources(), vec!["counter-source"]);
    assert_eq!(instance.get_operators(), vec!["noop"]);
    assert_eq!(instance.get_sinks(), vec!["generic-sink"]);
    assert_eq!(instance.get_connectors(), Vec::<String>::new());
    assert_eq!(
        instance.get_nodes(),
        vec!["counter-source", "noop", "generic-sink"]
    );
    assert_eq!(instance.get_flow(), "test");
    let context = instance.get_instance_context();
    assert_eq!(context.flow_id, "test");
    assert_eq!(context.instance_id, instance.get_uuid());
    assert_eq!(context.runtime.runtime_name, "test-runtime");
    assert_eq!(context.runtime.runtime_uuid, 0x1111);
}

#[test]
fn a_flow_takes_each_name_once() {
    let mut dataflow = counter_flow();
    assert!(dataflow.contains_node(&"noop".to_string()));
    assert!(!dataflow.contains_node(&"nope".to_string()));
    assert_eq!(
        dataflow.try_add_static_source("noop".into(), None, port("o", "int")),
        Err(ZFError::DuplicatedNodeId("noop".into()))
    );
    assert_eq!(
        dataflow.try_add_static_sink("counter-source".into(), port("i", "int")),
        Err(ZFError::DuplicatedNodeId("counter-source".into()))
    );
    assert_eq!(
        dataflow.try_add_static_operator("generic-sink".into(), vec![], vec![], None),
        Err(ZFError::DuplicatedNodeId("generic-sink".into()))
    );
    assert_eq!(
        dataflow.try_add_connector(janu_flow::ZFConnectorRecord {
            kind: janu_flow::ZFConnectorKind::Sender,
            id: "noop".into(),
            resource: "r".into(),
            link_id: port("p", "int"),
        }),
        Err(ZFError::DuplicatedNodeId("noop".into()))
    );
}

#[test]
fn a_link_joins_ports_of_one_type() {
    let mut dataflow = counter_flow();
    dataflow
        .try_add_static_sink("text-sink".into(), port("in", "string"))
        .unwrap();
    let from = |node: &str, output: &str| OutputDescriptor {
        node: node.into(),
        output: output.into(),
    };
    let to = |node: &str, input: &str| InputDescriptor {
        node: node.into(),
        input: input.into(),
    };
    assert_eq!(
        dataflow.try_add_link(
            from("counter-source", SOURCE),
            to("text-sink", "in"),
            None,
            None,
            None
        ),
        Err(ZFError::PortTypeNotMatching((
            "int".into(),
            "string".into()
        )))
    );
    assert_eq!(
        dataflow.try_add_link(from("nobody", "out"), to("text-sink", "in"), None, None, None),
        Err(ZFError::NodeNotFound("nobody".into()))
    );
    assert_eq!(
        dataflow.try_add_link(
            from("counter-source", "other"),
            to("text-sink", "in"),
            None,
            None,
            None
        ),
        Err(ZFError::PortNotFound((
            "counter-source".into(),
            "other".into()
        )))
    );
    assert_eq!(
        dataflow.try_add_link(
            from("counter-source", SOURCE),
            to("nobody", "in"),
            None,
            None,
            None
        ),
        Err(ZFError::NodeNotFound("nobody".into()))
    );
    assert_eq!(
        dataflow.try_add_link(
            from("counter-source", SOURCE),
            to("generic-sink", "other"),
            None,
            None,
            None
        ),
        Err(ZFError::PortNotFound((
            "generic-sink".into(),
            "other".into()
        )))
    );
    // A sink has no output, a source no input.
    assert_eq!(
        dataflow.try_add_link(
            from("generic-sink", SOURCE),
            to("noop", SOURCE),
            None,
            None,
            None
        ),
        Err(ZFError::PortNotFound((
            "generic-sink".into(),
            SOURCE.into()
        )))
    );
    assert_eq!(
        dataflow.try_add_link(
            from("noop", DESTINATION),
            to("counter-source", SOURCE),
            None,
            None,
            None
        ),
        Err(ZFError::PortNotFound((
            "counter-source".into(),
            SOURCE.into()
        )))
    );
    assert_eq!(
        dataflow.get_output_type(&"noop".to_string(), &DESTINATION.to_string()),
        Ok("int".to_string())
    );
    assert_eq!(
        dataflow.get_input_type(&"text-sink".to_string(), &"in".to_string()),
        Ok("string".to_string())
    );
}
