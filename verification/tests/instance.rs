use janu_flow::{
    Clock, Dataflow, DataflowInstance, Duration, InputDescriptor, Message, NodeRunner,
    OutputDescriptor, PortDescriptor, RunnerKind, RuntimeContext, ZFConnectorKind,
    ZFConnectorRecord, ZFError,
};
use std::sync::Arc;

fn port(id: &str, ty: &str) -> PortDescriptor {
    PortDescriptor {
        port_id: id.into(),
        port_type: ty.into(),
    }
}

fn from(node: &str, output: &str) -> OutputDescriptor {
    OutputDescriptor {
        node: node.into(),
        output: output.into(),
    }
}

fn to(node: &str, input: &str) -> InputDescriptor {
    InputDescriptor {
        node: node.into(),
        input: input.into(),
    }
}

fn empty_flow() -> Dataflow {
    Dataflow::new(
        RuntimeContext {
            runtime_name: "rt".into(),
            runtime_uuid: 9,
        },
        "flow".into(),
        Some(0x936DA01F_9ABD_4D9D_80C7_02AF85C822A8),
    )
}

fn pipeline() -> Dataflow {
    let mut flow = empty_flow();
    flow.try_add_static_source("src".into(), None, port("out", "int"))
        .unwrap();
    flow.try_add_static_operator(
        "op".into(),
        vec![port("in", "int")],
        vec![port("out", "int")],
        None,
    )
    .unwrap();
    flow.try_add_static_sink("sink".into(), port("in", "int"))
        .unwrap();
    flow.try_add_link(from("src", "out"), to("op", "in"), None, None, None)
        .unwrap();
    flow.try_add_link(from("op", "out"), to("sink", "in"), None, None, None)
        .unwrap();
    flow
}

#[test]
fn a_runtime_hosts_the_nodes_placed_on_it() {
    let runtime = RuntimeContext {
        runtime_name: "rt".into(),
        runtime_uuid: 9,
    };
    assert!(runtime.hosts(&"rt".to_string()));
    assert!(!runtime.hosts(&"rt2".to_string()));
    assert!(!runtime.hosts(&"".to_string()));
    assert_eq!(runtime.clone(), runtime);
}

#[test]
fn an_instance_is_made_idle() {
    let instance = DataflowInstance::<u8>::try_instantiate(pipeline()).unwrap();
    assert_eq!(instance.get_uuid(), 0x936DA01F_9ABD_4D9D_80C7_02AF85C822A8);
    assert_eq!(instance.get_flow(), "flow");
    assert_eq!(instance.get_nodes(), vec!["src", "op", "sink"]);
    for id in instance.get_nodes() {
        assert_eq!(instance.is_node_running(&id), Ok(false));
        let runner = instance.runner(&id).unwrap();
        assert_eq!(runner.get_id(), id);
        assert!(!runner.is_running());
    }
    assert_eq!(
        instance.runner(&"src".to_string()).unwrap().get_kind(),
        RunnerKind::Source
    );
    assert_eq!(
        instance.runner(&"op".to_string()).unwrap().get_kind(),
        RunnerKind::Operator
    );
    assert_eq!(
        instance.runner(&"sink".to_string()).unwrap().get_kind(),
        RunnerKind::Sink
    );
    assert!(instance.runner(&"nobody".to_string()).is_none());
}

#[test]
fn nodes_are_started_and_stopped_by_name() {
    let mut instance = DataflowInstance::<u8>::try_instantiate(pipeline()).unwrap();
    let unknown: String = "nobody".into();
    let src: String = "src".into();
    assert_eq!(
        instance.start_node(&unknown),
        Err(ZFError::NodeNotFound("nobody".into()))
    );
    assert_eq!(
        instance.stop_node(&unknown),
        Err(ZFError::NodeNotFound("nobody".into()))
    );
    assert_eq!(
        instance.is_node_running(&unknown),
        Err(ZFError::NodeNotFound("nobody".into()))
    );
    // A node that was not started cannot be stopped.
    assert_eq!(
        instance.stop_node(&src),
        Err(ZFError::NodeNotFound("src".into()))
    );
    assert_eq!(instance.start_node(&src), Ok(()));
    assert_eq!(instance.is_node_running(&src), Ok(true));
    assert_eq!(instance.is_node_running(&"op".to_string()), Ok(false));
    assert_eq!(instance.stop_node(&src), Ok(()));
    assert_eq!(instance.is_node_running(&src), Ok(false));
    assert_eq!(
        instance.stop_node(&src),
        Err(ZFError::NodeNotFound("src".into()))
    );
    // Once stopped it can be started again.
    assert_eq!(instance.start_node(&src), Ok(()));
    assert_eq!(instance.is_node_running(&src), Ok(true));
}

#[test]
fn a_started_node_is_not_started_once_more() {
    let mut instance = DataflowInstance::<u8>::try_instantiate(pipeline()).unwrap();
    let src: String = "src".into();
    let op: String = "op".into();
    assert_eq!(instance.start_node(&src), Ok(()));
    assert_eq!(instance.start_node(&src), Err(ZFError::InvalidState));
    assert_eq!(instance.start_node(&src), Err(ZFError::InvalidState));
    // The refusal leaves the node as it was, and the others too.
    assert_eq!(instance.is_node_running(&src), Ok(true));
    assert_eq!(instance.is_node_running(&op), Ok(false));
    assert_eq!(instance.get_nodes(), vec!["src", "op", "sink"]);
    assert_eq!(instance.start_node(&op), Ok(()));
    assert_eq!(instance.start_node(&op), Err(ZFError::InvalidState));
    // One stop is enough, however often the start was asked for.
    assert_eq!(instance.stop_node(&src), Ok(()));
    assert_eq!(instance.is_node_running(&src), Ok(false));
    assert_eq!(
        instance.stop_node(&src),
        Err(ZFError::NodeNotFound("src".into()))
    );
    assert_eq!(instance.is_node_running(&op), Ok(true));
    assert_eq!(instance.start_node(&src), Ok(()));
    assert_eq!(instance.start_node(&src), Err(ZFError::InvalidState));
}

#[test]
fn bulk_operations_are_not_provided() {
    let mut instance = DataflowInstance::<u8>::try_instantiate(pipeline()).unwrap();
    assert_eq!(instance.start_sources(), Err(ZFError::Unimplemented));
    assert_eq!(instance.start_nodes(), Err(ZFError::Unimplemented));
    assert_eq!(instance.stop_sources(), Err(ZFError::Unimplemented));
    assert_eq!(instance.stop_nodes(), Err(ZFError::Unimplemented));
}

#[test]
fn teardown_stops_every_node() {
    let mut instance = DataflowInstance::<u8>::try_instantiate(pipeline()).unwrap();
    for id in instance.get_nodes() {
        instance.start_node(&id).unwrap();
    }
    for id in instance.get_sources() {
        instance.stop_node(&id).unwrap();
    }
    for id in instance.get_operators() {
        instance.stop_node(&id).unwrap();
    }
    for id in instance.get_sinks() {
        instance.stop_node(&id).unwrap();
    }
    for id in instance.get_nodes() {
        assert_eq!(instance.is_node_running(&id), Ok(false));
        assert_eq!(
            instance.stop_node(&id),
            Err(ZFError::NodeNotFound(id.clone()))
        );
    }
}

#[test]
fn stopped_nodes_stay_down_in_whatever_order() {
    let mut instance = DataflowInstance::<u8>::try_instantiate(pipeline()).unwrap();
    for id in instance.get_nodes() {
        instance.start_node(&id).unwrap();
    }
    let order = ["sink", "src", "op"];
    for (done, id) in order.iter().enumerate() {
        assert_eq!(instance.stop_node(&id.to_string()), Ok(()));
        for (i, other) in order.iter().enumerate() {
            assert_eq!(instance.is_node_running(&other.to_string()), Ok(i > done));
        }
        assert_eq!(instance.get_nodes(), vec!["src", "op", "sink"]);
    }
    // A node that was never started is untouched by the stops of the others.
    let mut instance = DataflowInstance::<u8>::try_instantiate(pipeline()).unwrap();
    instance.start_node(&"src".to_string()).unwrap();
    instance.start_node(&"sink".to_string()).unwrap();
    assert_eq!(instance.stop_node(&"src".to_string()), Ok(()));
    assert_eq!(instance.is_node_running(&"op".to_string()), Ok(false));
    assert_eq!(instance.is_node_running(&"sink".to_string()), Ok(true));
    assert_eq!(instance.stop_node(&"sink".to_string()), Ok(()));
    for id in instance.get_nodes() {
        assert_eq!(instance.is_node_running(&id), Ok(false));
    }
}

#[test]
fn a_node_without_links_cannot_be_instantiated() {
    let mut flow = pipeline();
    flow.try_add_static_sink("lonely".into(), port("in", "int"))
        .unwrap();
    assert_eq!(
        DataflowInstance::<u8>::try_instantiate(flow).err(),
        Some(ZFError::IOError(
            "Links for Sink < lonely > were not created.".into()
        ))
    );

    let mut flow = empty_flow();
    flow.try_add_static_source("src".into(), None, port("out", "int"))
        .unwrap();
    assert_eq!(
        DataflowInstance::<u8>::try_instantiate(flow).err(),
        Some(ZFError::IOError(
            "Links for Source < src > were not created.".into()
        ))
    );

    let mut flow = empty_flow();
    flow.try_add_static_operator("op".into(), vec![], vec![], None)
        .unwrap();
    assert_eq!(
        DataflowInstance::<u8>::try_instantiate(flow).err(),
        Some(ZFError::IOError(
            "Links for Operator < op > were not created.".into()
        ))
    );

    let mut flow = empty_flow();
    flow.try_add_connector(ZFConnectorRecord {
        kind: ZFConnectorKind::Sender,
        id: "conn".into(),
        resource: "r".into(),
        link_id: port("p", "int"),
    })
    .unwrap();
    assert_eq!(
        DataflowInstance::<u8>::try_instantiate(flow).err(),
        Some(ZFError::IOError(
            "Links for Connector < conn > were not created.".into()
        ))
    );

    // A flow without nodes has an instance without runners.
    let instance = DataflowInstance::<u8>::try_instantiate(empty_flow()).unwrap();
    assert_eq!(instance.get_nodes(), Vec::<String>::new());
}

#[test]
fn a_port_without_a_link_cannot_be_instantiated() {
    // The operator feeds the sink, but nothing feeds from the second source's output: the
    // source is touched by no link at all. Give it a link that arrives nowhere local.
    let mut flow = empty_flow();
    flow.try_add_static_operator(
        "op".into(),
        vec![port("in", "int")],
        vec![port("out", "int"), port("loop", "int")],
        None,
    )
    .unwrap();
    flow.try_add_static_sink("sink".into(), port("in", "int"))
        .unwrap();
    // The sink is touched by no link to its input, only the operator feeds itself.
    flow.try_add_link(from("op", "loop"), to("op", "in"), None, None, None)
        .unwrap();
    assert_eq!(
        DataflowInstance::<u8>::try_instantiate(flow).err(),
        Some(ZFError::IOError(
            "Links for Sink < sink > were not created.".into()
        ))
    );
}

#[test]
fn an_input_fed_twice_cannot_be_instantiated() {
    let mut flow = pipeline();
    flow.try_add_static_source("src2".into(), None, port("out", "int"))
        .unwrap();
    flow.try_add_link(from("src2", "out"), to("op", "in"), None, None, None)
        .unwrap();
    assert_eq!(
        DataflowInstance::<u8>::try_instantiate(flow).err(),
        Some(ZFError::DuplicatedPort(("in".into(), "in".into())))
    );
}

#[test]
fn connectors_are_instantiated_by_their_half() {
    let mut flow = empty_flow();
    flow.try_add_static_source("src".into(), None, port("out", "int"))
        .unwrap();
    flow.try_add_static_sink("sink".into(), port("in", "int"))
        .unwrap();
    flow.try_add_connector(ZFConnectorRecord {
        kind: ZFConnectorKind::Sender,
        id: "to-far".into(),
        resource: "/flow/inst/a".into(),
        link_id: port("in", "int"),
    })
    .unwrap();
    flow.try_add_connector(ZFConnectorRecord {
        kind: ZFConnectorKind::Receiver,
        id: "from-far".into(),
        resource: "/flow/inst/b".into(),
        link_id: port("out", "int"),
    })
    .unwrap();
    flow.try_add_link(from("src", "out"), to("to-far", "in"), None, None, None)
        .unwrap();
    flow.try_add_link(from("from-far", "out"), to("sink", "in"), None, None, None)
        .unwrap();
    // A sending connector has no output, a receiving one no input.
    assert_eq!(
        flow.try_add_link(from("to-far", "in"), to("sink", "in"), None, None, None),
        Err(ZFError::PortNotFound(("to-far".into(), "in".into())))
    );
    assert_eq!(
        flow.try_add_link(from("src", "out"), to("from-far", "out"), None, None, None),
        Err(ZFError::PortNotFound(("from-far".into(), "out".into())))
    );
    let instance = DataflowInstance::<u8>::try_instantiate(flow).unwrap();
    assert_eq!(instance.get_connectors(), vec!["to-far", "from-far"]);
    assert_eq!(
        instance.get_nodes(),
        vec!["src", "sink", "to-far", "from-far"]
    );
    assert!(matches!(
        instance.runner(&"to-far".to_string()).unwrap(),
        NodeRunner::Sender(_)
    ));
    assert!(matches!(
        instance.runner(&"from-far".to_string()).unwrap(),
        NodeRunner::Receiver(_)
    ));
}

#[test]
fn recordings_are_started_through_the_instance() {
    let mut instance = DataflowInstance::<u8>::try_instantiate(pipeline()).unwrap();
    let mut clock = Clock::new();
    let src: String = "src".into();
    let op: String = "op".into();
    let sink: String = "sink".into();
    // Only started nodes record.
    assert_eq!(
        instance.start_recording(&src, &mut clock),
        Err(ZFError::NodeNotFound("src".into()))
    );
    assert_eq!(
        instance.stop_recording(&src),
        Err(ZFError::NodeNotFound("src".into()))
    );
    for id in instance.get_nodes() {
        instance.start_node(&id).unwrap();
    }
    assert_eq!(instance.stop_recording(&src), Err(ZFError::NotRecoding));
    let name = instance.start_recording(&src, &mut clock).unwrap();
    assert_eq!(
        name,
        format!(
            "record-flow-936da01f-9abd-4d9d-80c7-02af85c822a8-src-out-{}",
            clock.last_time()
        )
    );
    assert_eq!(
        instance.start_recording(&src, &mut clock),
        Err(ZFError::AlreadyRecording)
    );
    assert_eq!(instance.stop_recording(&src), Ok(name));
    assert_eq!(
        instance.start_recording(&sink, &mut clock),
        Err(ZFError::Unsupported)
    );
    assert_eq!(instance.stop_recording(&sink), Err(ZFError::Unsupported));
    assert_eq!(
        instance.start_recording(&op, &mut clock),
        Err(ZFError::Unsupported)
    );
}

#[test]
fn a_replay_takes_the_place_of_a_source() {
    let mut instance = DataflowInstance::<u8>::try_instantiate(pipeline()).unwrap();
    let src: String = "src".into();
    assert_eq!(
        instance.start_replay(&"nobody".to_string(), "record-1".into()),
        Err(ZFError::NodeNotFound("nobody".into()))
    );
    // A sink has no output to replay.
    assert_eq!(
        instance.start_replay(&"sink".to_string(), "record-1".into()),
        Err(ZFError::NodeNotFound("sink".into()))
    );

    let operator_inputs = instance
        .runner_mut(&"op".to_string())
        .unwrap()
        .take_input_links();

    let replay_id = instance.start_replay(&src, "record-1".into()).unwrap();
    assert_eq!(
        replay_id,
        "replay-flow-936da01f-9abd-4d9d-80c7-02af85c822a8-src-out"
    );
    assert_eq!(instance.get_nodes(), vec!["src", "op", "sink", replay_id.as_str()]);
    assert_eq!(instance.get_sources(), vec!["src"]);
    assert_eq!(instance.is_node_running(&replay_id), Ok(true));
    assert_eq!(instance.is_node_running(&src), Ok(false));

    // What the replay sends arrives where the source's output leads.
    match instance.runner_mut(&replay_id).unwrap() {
        NodeRunner::Replay(replay) => {
            assert_eq!(replay.resource(), "record-1");
            let recorded = Message::Data(janu_flow::DataMessage::new(
                Arc::new(8u8),
                janu_flow::Timestamp {
                    time: 5u64 << 32,
                    id: vec![1],
                },
                vec![],
            ));
            let step = replay.iteration(recorded.clone());
            assert_eq!(step.wait, Duration::from_millis(0));
            assert_eq!(replay.send(step.message.as_ref().unwrap()), Ok(1));
            assert_eq!(
                operator_inputs[0].try_recv(),
                Ok(("in".to_string(), Arc::new(recorded)))
            );
        }
        _ => panic!("the replay has the runner of a replay"),
    }

    // Another replay of the same output takes the place of the one that is there.
    assert_eq!(
        instance.start_replay(&src, "record-2".into()),
        Ok(replay_id.clone())
    );
    assert_eq!(instance.get_nodes(), vec!["src", "op", "sink", replay_id.as_str()]);
    assert_eq!(instance.get_sources(), vec!["src"]);
    assert_eq!(instance.is_node_running(&replay_id), Ok(true));
    match instance.runner_mut(&replay_id).unwrap() {
        NodeRunner::Replay(replay) => {
            assert_eq!(replay.resource(), "record-2");
            // The new replay starts from the beginning and feeds the same links.
            let recorded = Message::Data(janu_flow::DataMessage::new(
                Arc::new(9u8),
                janu_flow::Timestamp {
                    time: 7u64 << 32,
                    id: vec![1],
                },
                vec![],
            ));
            let step = replay.iteration(recorded.clone());
            assert_eq!(step.wait, Duration::from_millis(0));
            assert_eq!(replay.send(step.message.as_ref().unwrap()), Ok(1));
            assert_eq!(
                operator_inputs[0].try_recv(),
                Ok(("in".to_string(), Arc::new(recorded)))
            );
        }
        _ => panic!("the replay has the runner of a replay"),
    }

    assert_eq!(
        instance.stop_replay(&"nobody".to_string()),
        Err(ZFError::NodeNotFound("nobody".into()))
    );
    assert_eq!(instance.stop_replay(&replay_id), Ok(()));
    assert_eq!(instance.get_nodes(), vec!["src", "op", "sink"]);
    assert_eq!(
        instance.stop_replay(&replay_id),
        Err(ZFError::NodeNotFound(replay_id.clone()))
    );
    assert_eq!(
        instance.is_node_running(&replay_id),
        Err(ZFError::NodeNotFound(replay_id.clone()))
    );
    // Once stopped, the replay can be started again.
    assert_eq!(
        instance.start_replay(&src, "record-2".into()),
        Ok(replay_id.clone())
    );
    assert_eq!(instance.is_node_running(&replay_id), Ok(true));
}

#[test]
fn an_instance_without_an_identifier_draws_one() {
    let context = RuntimeContext {
        runtime_name: "rt".into(),
        runtime_uuid: 9,
    };
    let first =
        DataflowInstance::<u8>::try_instantiate(Dataflow::new(context.clone(), "f".into(), None))
            .unwrap();
    let second =
        DataflowInstance::<u8>::try_instantiate(Dataflow::new(context, "f".into(), None)).unwrap();
    assert!(first.get_uuid() != second.get_uuid());
    // The identifiers are of the random kind.
    assert_eq!((first.get_uuid() >> 76) & 0xf, 4);
}

#[test]
fn a_deadline_cannot_start_at_a_connector() {
    let mut flow = pipeline();
    flow.try_add_connector(ZFConnectorRecord {
        kind: ZFConnectorKind::Receiver,
        id: "from-far".into(),
        resource: "/flow/inst/b".into(),
        link_id: port("out", "int"),
    })
    .unwrap();
    assert_eq!(
        flow.try_add_deadline(from("from-far", "out"), to("sink", "in"), Duration::from_millis(1)),
        Err(ZFError::Unsupported)
    );
}

#[test]
fn deadlines_are_declared_on_the_flow() {
    let mut flow = pipeline();
    assert_eq!(
        flow.try_add_deadline(from("src", "out"), to("sink", "in"), Duration::from_millis(100)),
        Ok(())
    );
    assert_eq!(
        flow.try_add_deadline(from("op", "out"), to("sink", "in"), Duration::from_millis(200)),
        Ok(())
    );
    assert_eq!(
        flow.try_add_deadline(from("nobody", "out"), to("sink", "in"), Duration::from_millis(1)),
        Err(ZFError::NodeNotFound("nobody".into()))
    );
    assert_eq!(
        flow.try_add_deadline(from("src", "nope"), to("sink", "in"), Duration::from_millis(1)),
        Err(ZFError::PortNotFound(("src".into(), "nope".into())))
    );
    assert_eq!(
        flow.try_add_deadline(from("src", "out"), to("nobody", "in"), Duration::from_millis(1)),
        Err(ZFError::NodeNotFound("nobody".into()))
    );
    assert_eq!(
        flow.try_add_deadline(from("src", "out"), to("sink", "nope"), Duration::from_millis(1)),
        Err(ZFError::PortNotFound(("sink".into(), "nope".into())))
    );

    // What the source emits carries its deadline; it has not run out at once.
    let mut instance = DataflowInstance::<u8>::try_instantiate(flow).unwrap();
    let mut clock = Clock::new();
    let operator_inputs = instance
        .runner_mut(&"op".to_string())
        .unwrap()
        .take_input_links();
    match instance.runner(&"src".to_string()).unwrap() {
        NodeRunner::Source(source) => {
            let out = source.iteration(&mut clock, Arc::new(1)).unwrap();
            source.send(&out.message).unwrap();
        }
        _ => panic!("the source has the runner of a source"),
    }
    let (_, message) = operator_inputs[0].recv().unwrap();
    match message.as_ref() {
        Message::Data(data) => {
            assert_eq!(data.end_to_end_deadlines.len(), 1);
            assert_eq!(data.end_to_end_deadlines[0].duration, Duration::from_millis(100));
            assert_eq!(data.end_to_end_deadlines[0].to, to("sink", "in"));
            assert!(data.missed_end_to_end_deadlines.is_empty());
        }
        Message::Control(_) => panic!("a source emits data"),
    }
}
