use janu_flow::runners::sink::SinkLoaded;
use janu_flow::{
    broadcast, broadcast_result, carry_over, consume_tokens, default_input_rule,
    default_output_rule, link, receive_data, senders_for, Carried, Clock, ControlMessage,
    DataMessage, Duration, E2EDeadline, E2EDeadlineMiss, E2EDeadlineRecord, InputDescriptor,
    InstanceContext, JanuReceiver, JanuReplay, JanuSender, LinkSender, Message, NodeOutput,
    NodeRunner, OperatorIO, OperatorLoaded, OperatorRunner, OutputDescriptor, PortDescriptor,
    Replayed, RunnerKind, RuntimeContext, SinkRunner, SourceLoaded, SourceRunner, Table,
    Timestamp, Token, ZFConnectorKind, ZFConnectorRecord, ZFError,
};
use std::sync::Arc;

fn context() -> InstanceContext {
    InstanceContext {
        flow_id: "flow".into(),
        instance_id: 0x936DA01F_9ABD_4D9D_80C7_02AF85C822A8,
        runtime: RuntimeContext {
            runtime_name: "rt".into(),
            runtime_uuid: 1,
        },
    }
}

fn port(id: &str) -> PortDescriptor {
    PortDescriptor {
        port_id: id.into(),
        port_type: "int".into(),
    }
}

fn record(from: (&str, &str), to: (&str, &str), millis: u64) -> E2EDeadlineRecord {
    E2EDeadlineRecord::new(
        OutputDescriptor {
            node: from.0.into(),
            output: from.1.into(),
        },
        InputDescriptor {
            node: to.0.into(),
            input: to.1.into(),
        },
        Duration::from_millis(millis),
    )
}

fn sink_with_link() -> (SinkRunner<u8>, LinkSender<Message<u8>>) {
    let (tx, rx) = link::<Message<u8>>(None, "out".into(), "in".into());
    let mut io = OperatorIO::new();
    io.try_add_input(rx).unwrap();
    let sink = SinkRunner::try_new(
        context(),
        SinkLoaded {
            id: "sink".into(),
            input: port("in"),
            end_to_end_deadlines: vec![],
        },
        io,
    )
    .unwrap();
    (sink, tx)
}

fn source_with_links(n: usize) -> (SourceRunner<u8>, Vec<janu_flow::LinkReceiver<Message<u8>>>) {
    let mut io = OperatorIO::new();
    let mut receivers = Vec::new();
    for _ in 0..n {
        let (tx, rx) = link::<Message<u8>>(None, "out".into(), "in".into());
        io.add_output(tx);
        receivers.push(rx);
    }
    let source = SourceRunner::try_new(
        context(),
        SourceLoaded {
            id: "source".into(),
            output: port("out"),
            period: Some(Duration::from_millis(10)),
            end_to_end_deadlines: vec![],
        },
        io,
    )
    .unwrap();
    (source, receivers)
}

#[test]
fn a_sink_needs_the_link_of_its_input() {
    let io = OperatorIO::<u8>::new();
    let r = SinkRunner::try_new(
        context(),
        SinkLoaded {
            id: "sink".into(),
            input: port("in"),
            end_to_end_deadlines: vec![],
        },
        io,
    );
    assert_eq!(
        r.err(),
        Some(ZFError::MissingOutput(
            "Missing link for port < in > for Sink: < sink >.".into()
        ))
    );

    // A link for another port does not help.
    let (_tx, rx) = link::<Message<u8>>(None, "out".into(), "other".into());
    let mut io = OperatorIO::new();
    io.try_add_input(rx).unwrap();
    let r = SinkRunner::try_new(
        context(),
        SinkLoaded {
            id: "sink".into(),
            input: port("in"),
            end_to_end_deadlines: vec![],
        },
        io,
    );
    assert!(r.is_err());
}

#[test]
fn a_sink_has_inputs_only() {
    let (mut sink, tx) = sink_with_link();
    assert_eq!(sink.get_id(), "sink");
    assert_eq!(sink.get_kind(), RunnerKind::Sink);
    assert_eq!(sink.get_inputs(), vec![port("in")]);
    assert_eq!(sink.get_outputs(), vec![]);
    assert_eq!(sink.get_outputs_links().len(), 0);
    assert_eq!(sink.add_output(tx), Err(ZFError::SinkDoNotHaveOutputs));
    assert_eq!(sink.start_recording(), Err(ZFError::Unsupported));
    assert_eq!(sink.stop_recording(), Err(ZFError::Unsupported));
    assert!(!sink.is_recording());

    assert!(!sink.is_running());
    sink.start();
    assert!(sink.is_running());
    sink.stop();
    assert!(!sink.is_running());

    let taken = sink.take_input_links();
    assert_eq!(taken.len(), 1);
    assert_eq!(taken[0].id, "in");
    assert_eq!(sink.take_input_links().len(), 0);
    let (_tx, rx) = link::<Message<u8>>(None, "out".into(), "in".into());
    assert_eq!(sink.add_input(rx), Ok(()));
    assert_eq!(sink.take_input_links().len(), 1);
}

#[test]
fn a_sink_takes_data_in_and_refuses_control() {
    let (mut sink, _tx) = sink_with_link();
    let mut clock = Clock::new();
    let mut other = Clock::new();
    let stamp = other.new_timestamp().unwrap();
    let input: String = "in".into();

    let control = Message::Control(ControlMessage::RecordingStop(stamp.clone()));
    let before = clock.last_time();
    assert_eq!(
        sink.iteration(&mut clock, &input, &control).err(),
        Some(ZFError::Unimplemented)
    );
    assert_eq!(clock.last_time(), before);

    // Two deadlines end at the sink: one has run out, one has not. A third ends elsewhere.
    let old = Timestamp {
        time: stamp.time - (2u64 << 32),
        id: stamp.id.clone(),
    };
    let deadlines = vec![
        E2EDeadline::new(&record(("a", "o"), ("sink", "in"), 1000), &old),
        E2EDeadline::new(&record(("a", "o"), ("sink", "in"), 3_600_000), &old),
        E2EDeadline::new(&record(("a", "o"), ("else", "in"), 1000), &old),
    ];
    let carried = E2EDeadlineMiss {
        record: record(("x", "o"), ("y", "in"), 5),
        elapsed: Duration::from_millis(6),
    };
    let mut data = DataMessage::new(Arc::new(42u8), stamp.clone(), deadlines.clone());
    data.missed_end_to_end_deadlines.push(carried.clone());
    let got = sink
        .iteration(&mut clock, &input, &Message::Data(data))
        .unwrap();
    assert!(got.clock_updated);
    assert!(got.now.time > stamp.time);
    assert_eq!(clock.last_time(), got.now.time);
    assert_eq!(*got.message.data, 42);
    assert_eq!(got.message.timestamp, stamp);
    assert_eq!(got.message.end_to_end_deadlines, deadlines);
    assert_eq!(got.message.missed_end_to_end_deadlines.len(), 2);
    assert_eq!(got.message.missed_end_to_end_deadlines[0], carried);
    assert_eq!(
        got.message.missed_end_to_end_deadlines[1].record,
        record(("a", "o"), ("sink", "in"), 1000)
    );
    assert!(got.message.missed_end_to_end_deadlines[1]
        .elapsed
        .at_least(&Duration::from_secs(2)));

    // A failed pass stops the sink, a good one leaves it running.
    sink.start();
    assert_eq!(sink.after_iteration(Ok(1)), Ok(1));
    assert!(sink.is_running());
    assert_eq!(
        sink.after_iteration::<u8>(Err(ZFError::Unimplemented)),
        Err(ZFError::Unimplemented)
    );
    assert!(!sink.is_running());
}

#[test]
fn receiving_goes_on_when_the_clock_refuses_the_timestamp() {
    let mut clock = Clock::new();
    let first = clock.new_timestamp().unwrap();
    let far = Timestamp {
        time: first.time + (3600u64 << 32),
        id: vec![5],
    };
    let node: String = "n".into();
    let input: String = "in".into();
    let data = DataMessage::new(
        Arc::new(1u8),
        far.clone(),
        vec![E2EDeadline::new(&record(("a", "o"), ("n", "in"), 0), &far)],
    );
    let got = receive_data(&mut clock, &node, &input, &data).unwrap();
    assert!(!got.clock_updated);
    assert!(got.now.time < far.time);
    // The arrival lies before the emission: nothing can have run out.
    assert!(got.message.missed_end_to_end_deadlines.is_empty());
}

#[test]
fn an_arrival_is_noted_with_the_misses_it_finds() {
    let node: String = "n".into();
    let input: String = "in".into();
    let start = Timestamp {
        time: 10u64 << 32,
        id: vec![1],
    };
    let now = Timestamp {
        time: (10u64 << 32) + (1u64 << 31),
        id: vec![2],
    };
    let deadlines = vec![
        E2EDeadline::new(&record(("a", "o"), ("n", "in"), 500), &start),
        E2EDeadline::new(&record(("a", "o"), ("n", "in"), 501), &start),
        E2EDeadline::new(&record(("a", "o"), ("n", "other"), 1), &start),
        E2EDeadline::new(&record(("a", "o"), ("m", "in"), 1), &start),
    ];
    let data = DataMessage::new(Arc::new(7u8), start.clone(), deadlines.clone());
    let got = janu_flow::arrive(&node, &input, &data, now.clone(), false);
    assert_eq!(got.now, now);
    assert!(!got.clock_updated);
    assert_eq!(
        got.message,
        DataMessage {
            data: Arc::new(7u8),
            timestamp: start.clone(),
            end_to_end_deadlines: deadlines,
            missed_end_to_end_deadlines: vec![E2EDeadlineMiss {
                record: record(("a", "o"), ("n", "in"), 500),
                elapsed: Duration::from_millis(500),
            }],
        }
    );
}

#[test]
fn a_source_stamps_what_it_emits() {
    let mut io = OperatorIO::new();
    let (tx, _rx) = link::<Message<u8>>(None, "out".into(), "in".into());
    io.add_output(tx);
    let declared = vec![
        record(("source", "out"), ("sink", "in"), 100),
        record(("source", "out"), ("sink2", "in"), 200),
    ];
    let source = SourceRunner::try_new(
        context(),
        SourceLoaded {
            id: "source".into(),
            output: port("out"),
            period: None,
            end_to_end_deadlines: declared.clone(),
        },
        io,
    )
    .unwrap();
    assert_eq!(source.get_period(), None);
    let stamp = Timestamp {
        time: 99,
        id: vec![4, 2],
    };
    let out = source.emit(Arc::new(5u8), stamp.clone());
    assert_eq!(out.record_to, None);
    assert_eq!(
        *out.message,
        Message::Data(DataMessage {
            data: Arc::new(5u8),
            timestamp: stamp.clone(),
            end_to_end_deadlines: vec![
                E2EDeadline::new(&declared[0], &stamp),
                E2EDeadline::new(&declared[1], &stamp),
            ],
            missed_end_to_end_deadlines: vec![],
        })
    );
}

#[test]
fn a_source_needs_a_link_for_its_output() {
    let io = OperatorIO::<u8>::new();
    let r = SourceRunner::try_new(
        context(),
        SourceLoaded {
            id: "source".into(),
            output: port("out"),
            period: None,
            end_to_end_deadlines: vec![],
        },
        io,
    );
    assert_eq!(
        r.err(),
        Some(ZFError::MissingOutput(
            "Missing links for port < out > for Source: < source >.".into()
        ))
    );
}

#[test]
fn a_source_has_outputs_only() {
    let (mut source, receivers) = source_with_links(2);
    assert_eq!(source.get_id(), "source");
    assert_eq!(source.get_kind(), RunnerKind::Source);
    assert_eq!(source.get_inputs(), vec![]);
    assert_eq!(source.get_outputs(), vec![port("out")]);
    assert_eq!(source.get_outputs_links().len(), 2);
    assert_eq!(source.take_input_links().len(), 0);
    let (tx, rx) = link::<Message<u8>>(None, "out".into(), "in".into());
    assert_eq!(source.add_input(rx), Err(ZFError::SourceDoNotHaveInputs));
    assert_eq!(source.add_output(tx), Ok(()));
    assert_eq!(source.get_outputs_links().len(), 3);
    drop(receivers);
}

#[test]
fn a_source_goes_on_until_every_link_is_gone() {
    let (source, mut receivers) = source_with_links(3);
    let mut clock = Clock::new();
    let out = source.iteration(&mut clock, Arc::new(1)).unwrap();
    assert_eq!(source.send(&out.message), Ok(3));
    for rx in &receivers {
        assert_eq!(rx.recv(), Ok(("in".to_string(), out.message.clone())));
    }
    receivers.pop();
    assert_eq!(source.send(&out.message), Ok(2));
    receivers.pop();
    assert_eq!(source.send(&out.message), Ok(1));
    receivers.pop();
    assert_eq!(source.send(&out.message), Err(ZFError::Disconnected));
}

#[test]
fn rounds_of_sends_are_counted() {
    assert_eq!(broadcast_result(&vec![]), Ok(0));
    assert_eq!(broadcast_result(&vec![true]), Ok(1));
    assert_eq!(broadcast_result(&vec![false]), Err(ZFError::Disconnected));
    assert_eq!(broadcast_result(&vec![false, true, false]), Ok(1));
    assert_eq!(broadcast_result(&vec![true, true, true]), Ok(3));
    assert_eq!(
        broadcast_result(&vec![false, false, false]),
        Err(ZFError::Disconnected)
    );
}

fn a_tx_probe(
    links: &Vec<LinkSender<Message<u8>>>,
    envelope: &Arc<Message<u8>>,
    rx: &janu_flow::LinkReceiver<Message<u8>>,
) {
    assert_eq!(broadcast(links, &"a".to_string(), envelope), Ok(2));
    let (_, got) = rx.try_recv().unwrap();
    assert!(Arc::ptr_eq(&got, envelope));
}

#[test]
fn a_round_goes_to_the_links_of_one_port() {
    let (a_tx, a_rx) = link::<Message<u8>>(None, "a".into(), "in".into());
    let (b_tx, b_rx) = link::<Message<u8>>(None, "b".into(), "in".into());
    let (a2_tx, a2_rx) = link::<Message<u8>>(None, "a".into(), "in2".into());
    let links = vec![a_tx, b_tx, a2_tx];
    let envelope = Arc::new(Message::Data(DataMessage::new(
        Arc::new(9u8),
        Timestamp {
            time: 1,
            id: vec![1],
        },
        vec![],
    )));
    assert_eq!(broadcast(&links, &"a".to_string(), &envelope), Ok(2));
    assert_eq!(broadcast(&links, &"c".to_string(), &envelope), Ok(0));
    assert_eq!(a_rx.try_recv(), Ok(("in".to_string(), envelope.clone())));
    assert_eq!(a2_rx.try_recv(), Ok(("in2".to_string(), envelope.clone())));
    assert_eq!(b_rx.try_recv(), Err(ZFError::Empty));
    // The envelope is shared, not copied.
    a_tx_probe(&links, &envelope, &a_rx);

    assert_eq!(a2_rx.try_recv(), Ok(("in2".to_string(), envelope.clone())));

    let picked = senders_for(links, &"a".to_string());
    assert_eq!(picked.len(), 2);
    assert_eq!(picked[0].id, "a");
    picked[1].send(envelope.clone()).unwrap();
    assert_eq!(a2_rx.try_recv(), Ok(("in2".to_string(), envelope.clone())));
    assert_eq!(a_rx.try_recv(), Err(ZFError::Empty));
}

#[test]
fn a_recording_of_a_source_has_a_name_of_its_own() {
    let (mut source, _receivers) = source_with_links(1);
    let mut clock = Clock::new();
    assert!(!source.is_recording());
    assert_eq!(source.stop_recording(), Err(ZFError::NotRecoding));

    let name = source.start_recording(&mut clock).unwrap();
    assert_eq!(
        name,
        format!(
            "record-flow-936da01f-9abd-4d9d-80c7-02af85c822a8-source-out-{}",
            clock.last_time()
        )
    );
    assert!(source.is_recording());
    assert_eq!(
        source.start_recording(&mut clock),
        Err(ZFError::AlreadyRecording)
    );

    // What is emitted during the recording is due to it.
    let out = source.iteration(&mut clock, Arc::new(3)).unwrap();
    assert_eq!(out.record_to, Some(name.clone()));

    assert_eq!(source.stop_recording(), Ok(name.clone()));
    assert!(!source.is_recording());
    let out = source.iteration(&mut clock, Arc::new(3)).unwrap();
    assert_eq!(out.record_to, None);

    let second = source.start_recording(&mut clock).unwrap();
    assert!(second != name);
}

fn operator() -> (
    OperatorRunner<u8>,
    Vec<LinkSender<Message<u8>>>,
    Vec<janu_flow::LinkReceiver<Message<u8>>>,
) {
    let (left_tx, left_rx) = link::<Message<u8>>(None, "o".into(), "left".into());
    let (right_tx, right_rx) = link::<Message<u8>>(None, "o".into(), "right".into());
    let (sum_tx, sum_rx) = link::<Message<u8>>(None, "sum".into(), "in".into());
    let (sum2_tx, sum2_rx) = link::<Message<u8>>(None, "sum".into(), "in".into());
    let mut io = OperatorIO::new();
    io.try_add_input(left_rx).unwrap();
    io.try_add_input(right_rx).unwrap();
    io.add_output(sum_tx);
    io.add_output(sum2_tx);
    let operator = OperatorRunner::try_new(
        context(),
        OperatorLoaded {
            id: "op".into(),
            inputs: vec![port("left"), port("right")],
            outputs: vec![port("sum"), port("ctl")],
            local_deadline: Some(Duration::from_millis(500)),
            end_to_end_deadlines: vec![
                record(("op", "sum"), ("sink", "in"), 100),
                record(("op", "ctl"), ("sink", "in"), 100),
            ],
        },
        io,
    )
    .unwrap();
    (operator, vec![left_tx, right_tx], vec![sum_rx, sum2_rx])
}

#[test]
fn an_operator_fires_when_every_input_is_ready() {
    let (operator, _feeds, outputs) = operator();
    let mut clock = Clock::new();
    let mut upstream = Clock::new();
    assert_eq!(operator.get_kind(), RunnerKind::Operator);

    let mut tokens = operator.tokens();
    assert_eq!(tokens.len(), 2);
    assert_eq!(default_input_rule(&tokens), Ok(false));

    let stamp = upstream.new_timestamp().unwrap();
    let here = E2EDeadline::new(&record(("a", "o"), ("op", "left"), 0), &stamp);
    let beyond = E2EDeadline::new(&record(("a", "o"), ("sink", "in"), 100), &stamp);
    let miss_beyond = E2EDeadlineMiss {
        record: record(("z", "o"), ("sink", "in"), 1),
        elapsed: Duration::from_millis(2),
    };
    let mut left = DataMessage::new(
        Arc::new(1u8),
        stamp.clone(),
        vec![here.clone(), beyond.clone()],
    );
    left.missed_end_to_end_deadlines.push(miss_beyond.clone());
    let right = DataMessage::new(Arc::new(2u8), stamp.clone(), vec![]);

    let start = clock.last_time();
    operator
        .accept(
            &mut clock,
            &mut tokens,
            &"left".to_string(),
            &Message::Data(left),
        )
        .unwrap();
    assert_eq!(default_input_rule(&tokens), Ok(false));
    assert!(clock.last_time() > start);

    // What is not data, or comes for no input of the operator, is refused.
    let middle = clock.last_time();
    assert_eq!(
        operator.accept(
            &mut clock,
            &mut tokens,
            &"right".to_string(),
            &Message::Control(ControlMessage::RecordingStart(stamp.clone())),
        ),
        Err(ZFError::Unimplemented)
    );
    assert_eq!(
        operator.accept(
            &mut clock,
            &mut tokens,
            &"middle".to_string(),
            &Message::Data(DataMessage::new(Arc::new(0u8), stamp.clone(), vec![])),
        ),
        Err(ZFError::PortNotFound(("op".into(), "middle".into())))
    );
    assert_eq!(clock.last_time(), middle);
    assert_eq!(default_input_rule(&tokens), Ok(false));

    operator
        .accept(
            &mut clock,
            &mut tokens,
            &"right".to_string(),
            &Message::Data(right),
        )
        .unwrap();
    assert_eq!(default_input_rule(&tokens), Ok(true));

    let inputs = consume_tokens(&mut tokens);
    assert_eq!(default_input_rule(&tokens), Ok(false));
    assert_eq!(tokens.len(), 2);
    assert!(matches!(tokens.value(0), Token::NotReady));
    assert_eq!(inputs.len(), 2);
    let left = inputs.get(&"left".to_string()).unwrap();
    // The deadline that ends at the left input has run out on arrival.
    assert_eq!(left.missed_end_to_end_deadlines.len(), 2);
    assert_eq!(left.missed_end_to_end_deadlines[0], miss_beyond);
    assert_eq!(
        left.missed_end_to_end_deadlines[1].record,
        record(("a", "o"), ("op", "left"), 0)
    );

    // What goes on beyond the operator is carried over; what ended here is not.
    let carried = operator.carry(&inputs);
    assert_eq!(carried.deadlines, vec![beyond.clone()]);
    assert_eq!(carried.missed, vec![miss_beyond.clone()]);
    assert_eq!(
        carry_over(&inputs, &"op".to_string()),
        Carried {
            deadlines: vec![beyond.clone()],
            missed: vec![miss_beyond.clone()],
        }
    );

    // The computation adds up, on time.
    assert_eq!(
        operator.local_deadline_miss(Duration::from_millis(499)),
        None
    );
    assert!(operator
        .local_deadline_miss(Duration::from_millis(500))
        .is_some());
    let mut results = Table::new();
    results.insert("sum".to_string(), Arc::new(3u8));
    let mut routed = default_output_rule(results).unwrap();
    assert_eq!(routed.len(), 1);
    assert!(matches!(routed.value(0), NodeOutput::Data(_)));
    routed.insert(
        "ctl".to_string(),
        NodeOutput::Control(ControlMessage::RecordingStop(stamp.clone())),
    );

    let before = clock.last_time();
    let outgoing = operator
        .prepare_outputs(&mut clock, &carried, &routed)
        .unwrap();
    assert_eq!(outgoing.len(), 2);
    assert_eq!(outgoing[0].port_id, "sum");
    assert_eq!(outgoing[0].record_to, None);
    match outgoing[0].message.as_ref() {
        Message::Data(sum) => {
            assert_eq!(*sum.data, 3);
            assert!(sum.timestamp.time > before);
            assert_eq!(sum.timestamp.time, clock.last_time());
            assert_eq!(
                sum.end_to_end_deadlines,
                vec![
                    beyond.clone(),
                    E2EDeadline::new(&record(("op", "sum"), ("sink", "in"), 100), &sum.timestamp),
                ]
            );
            assert_eq!(sum.missed_end_to_end_deadlines, vec![miss_beyond.clone()]);
        }
        Message::Control(_) => panic!("the sum is data"),
    }
    assert_eq!(outgoing[1].port_id, "ctl");
    assert_eq!(
        *outgoing[1].message,
        Message::Control(ControlMessage::RecordingStop(stamp.clone()))
    );

    // The same envelope, made for a given timestamp.
    let given = Timestamp {
        time: 1234,
        id: vec![9],
    };
    assert_eq!(
        operator.make_output(&"sum".to_string(), &Arc::new(3u8), given.clone(), &carried),
        DataMessage {
            data: Arc::new(3u8),
            timestamp: given.clone(),
            end_to_end_deadlines: vec![
                beyond.clone(),
                E2EDeadline::new(&record(("op", "sum"), ("sink", "in"), 100), &given),
            ],
            missed_end_to_end_deadlines: vec![miss_beyond.clone()],
        }
    );

    // The sum goes to both links of its port, the control message to none.
    assert_eq!(operator.send(&outgoing[0].port_id, &outgoing[0].message), Ok(2));
    assert_eq!(operator.send(&outgoing[1].port_id, &outgoing[1].message), Ok(0));
    assert_eq!(
        outputs[0].try_recv(),
        Ok(("in".to_string(), outgoing[0].message.clone()))
    );
    assert_eq!(
        outputs[1].try_recv(),
        Ok(("in".to_string(), outgoing[0].message.clone()))
    );
    drop(outputs);
    assert_eq!(
        operator.send(&outgoing[0].port_id, &outgoing[0].message),
        Err(ZFError::Disconnected)
    );
}

#[test]
fn outputs_without_data_do_not_ask_the_clock() {
    let (operator, _feeds, _outputs) = operator();
    let mut clock = Clock::new();
    let carried = Carried {
        deadlines: vec![],
        missed: vec![],
    };
    let stamp = clock.new_timestamp().unwrap();
    let before = clock.last_time();

    // Nothing to send: nothing is made, and nothing fails.
    let none: Table<NodeOutput<u8>> = Table::new();
    assert_eq!(
        operator.prepare_outputs(&mut clock, &carried, &none),
        Ok(vec![])
    );
    assert_eq!(clock.last_time(), before);

    // Control messages go out as they are.
    let mut routed: Table<NodeOutput<u8>> = Table::new();
    routed.insert(
        "sum".to_string(),
        NodeOutput::Control(ControlMessage::RecordingStop(stamp.clone())),
    );
    routed.insert(
        "ctl".to_string(),
        NodeOutput::Control(ControlMessage::RecordingStop(stamp.clone())),
    );
    let outgoing = operator
        .prepare_outputs(&mut clock, &carried, &routed)
        .unwrap();
    assert_eq!(outgoing.len(), 2);
    assert_eq!(outgoing[0].port_id, "sum");
    assert_eq!(outgoing[1].port_id, "ctl");
    for out in &outgoing {
        assert_eq!(
            *out.message,
            Message::Control(ControlMessage::RecordingStop(stamp.clone()))
        );
    }
    assert_eq!(clock.last_time(), before);

    // Data for two ports: both go out, the second stamped after the first.
    let mut routed: Table<NodeOutput<u8>> = Table::new();
    routed.insert("sum".to_string(), NodeOutput::Data(Arc::new(1u8)));
    routed.insert("ctl".to_string(), NodeOutput::Data(Arc::new(2u8)));
    let outgoing = operator
        .prepare_outputs(&mut clock, &carried, &routed)
        .unwrap();
    match (outgoing[0].message.as_ref(), outgoing[1].message.as_ref()) {
        (Message::Data(first), Message::Data(second)) => {
            assert_eq!((*first.data, *second.data), (1, 2));
            assert!(before < first.timestamp.time);
            assert!(first.timestamp.time < second.timestamp.time);
            assert_eq!(second.timestamp.time, clock.last_time());
        }
        _ => panic!("data goes out as data"),
    }
}

#[test]
fn an_operator_records_by_output_port() {
    let (mut operator, _feeds, _outputs) = operator();
    let mut clock = Clock::new();
    assert_eq!(operator.start_recording(), Err(ZFError::Unsupported));
    assert_eq!(operator.stop_recording(), Err(ZFError::Unsupported));
    assert!(!operator.is_recording());
    assert_eq!(
        operator.start_recording_on(&"nope".to_string(), &mut clock),
        Err(ZFError::PortNotFound(("op".into(), "nope".into())))
    );
    assert_eq!(
        operator.stop_recording_on(&"sum".to_string()),
        Err(ZFError::NotRecoding)
    );
    let name = operator
        .start_recording_on(&"sum".to_string(), &mut clock)
        .unwrap();
    assert_eq!(
        name,
        format!(
            "record-flow-936da01f-9abd-4d9d-80c7-02af85c822a8-op-sum-{}",
            clock.last_time()
        )
    );
    assert!(operator.is_recording());
    assert_eq!(
        operator.start_recording_on(&"sum".to_string(), &mut clock),
        Err(ZFError::AlreadyRecording)
    );

    let mut routed = Table::new();
    routed.insert("sum".to_string(), NodeOutput::Data(Arc::new(1u8)));
    routed.insert("ctl".to_string(), NodeOutput::Data(Arc::new(2u8)));
    let carried = Carried {
        deadlines: vec![],
        missed: vec![],
    };
    let outgoing = operator
        .prepare_outputs(&mut clock, &carried, &routed)
        .unwrap();
    assert_eq!(outgoing[0].record_to, Some(name.clone()));
    assert_eq!(outgoing[1].record_to, None);
    // Each envelope has a timestamp of its own, later than the one before.
    match (outgoing[0].message.as_ref(), outgoing[1].message.as_ref()) {
        (Message::Data(first), Message::Data(second)) => {
            assert!(first.timestamp.time < second.timestamp.time)
        }
        _ => panic!("both are data"),
    }

    assert_eq!(operator.stop_recording_on(&"sum".to_string()), Ok(name));
    assert!(!operator.is_recording());
}

#[test]
fn an_operator_has_inputs_and_outputs() {
    let (mut operator, _feeds, _outputs) = operator();
    assert_eq!(operator.get_id(), "op");
    assert_eq!(operator.get_inputs(), vec![port("left"), port("right")]);
    assert_eq!(operator.get_outputs(), vec![port("sum"), port("ctl")]);
    assert_eq!(operator.get_outputs_links().len(), 2);
    let (tx, rx) = link::<Message<u8>>(None, "ctl".into(), "left".into());
    assert_eq!(operator.add_output(tx), Ok(()));
    assert_eq!(operator.get_outputs_links().len(), 3);
    // A second link for an input takes the place of the first.
    assert_eq!(operator.add_input(rx), Ok(()));
    let taken = operator.take_input_links();
    assert_eq!(taken.len(), 2);
    assert_eq!(taken[0].id, "left");
    assert_eq!(taken[1].id, "right");
    assert_eq!(operator.take_input_links().len(), 0);
    assert_eq!(operator.tokens().len(), 0);
    operator.start();
    assert!(operator.is_running());
    assert_eq!(
        operator.after_iteration::<()>(Err(ZFError::GenericError)),
        Err(ZFError::GenericError)
    );
    assert!(!operator.is_running());
}

fn connector(kind: ZFConnectorKind) -> ZFConnectorRecord {
    ZFConnectorRecord {
        kind,
        id: "conn".into(),
        resource: "/flow/inst/link".into(),
        link_id: port("p"),
    }
}

#[test]
fn a_sending_connector_has_one_input() {
    let r = JanuSender::<u8>::try_new(
        context(),
        connector(ZFConnectorKind::Sender),
        OperatorIO::new(),
    );
    assert_eq!(
        r.err(),
        Some(ZFError::MissingInput(
            "Missing link for port < p > for Connector: < conn >.".into()
        ))
    );
    let (tx, rx) = link::<Message<u8>>(None, "o".into(), "p".into());
    let mut io = OperatorIO::new();
    io.try_add_input(rx).unwrap();
    let mut sender =
        JanuSender::try_new(context(), connector(ZFConnectorKind::Sender), io).unwrap();
    assert_eq!(sender.get_id(), "conn");
    assert_eq!(sender.get_kind(), RunnerKind::Connector);
    assert_eq!(sender.resource(), "/flow/inst/link");
    assert_eq!(sender.get_inputs(), vec![port("p")]);
    assert_eq!(sender.get_outputs(), vec![]);
    assert_eq!(sender.get_outputs_links().len(), 0);
    assert_eq!(sender.add_output(tx), Err(ZFError::SenderDoNotHaveOutputs));
    assert_eq!(sender.start_recording(), Err(ZFError::Unsupported));
    assert_eq!(sender.stop_recording(), Err(ZFError::Unsupported));
    assert!(!sender.is_recording());
    assert_eq!(sender.take_input_links().len(), 1);
    assert_eq!(sender.take_input_links().len(), 0);
    sender.start();
    assert!(sender.is_running());
    sender.stop();
    assert!(!sender.is_running());
}

#[test]
fn a_receiving_connector_feeds_its_links_and_drops_what_it_cannot_read() {
    let r = JanuReceiver::<u8>::try_new(
        context(),
        connector(ZFConnectorKind::Receiver),
        OperatorIO::new(),
    );
    assert_eq!(
        r.err(),
        Some(ZFError::MissingOutput(
            "Missing link for port < p > for Connector: < conn >.".into()
        ))
    );
    let (tx, rx) = link::<Message<u8>>(None, "p".into(), "in".into());
    let mut io = OperatorIO::new();
    io.add_output(tx);
    let mut receiver =
        JanuReceiver::try_new(context(), connector(ZFConnectorKind::Receiver), io).unwrap();
    assert_eq!(receiver.get_kind(), RunnerKind::Connector);
    assert_eq!(receiver.get_inputs(), vec![]);
    assert_eq!(receiver.get_outputs(), vec![port("p")]);
    let (_tx2, rx2) = link::<Message<u8>>(None, "p".into(), "in".into());
    assert_eq!(
        receiver.add_input(rx2),
        Err(ZFError::ReceiverDoNotHaveInputs)
    );
    assert_eq!(receiver.start_recording(), Err(ZFError::Unsupported));

    assert_eq!(
        receiver.iteration(Err(ZFError::DeseralizationError)),
        Ok(None)
    );
    assert_eq!(rx.try_recv(), Err(ZFError::Empty));

    let message = Message::Data(DataMessage::new(
        Arc::new(5u8),
        Timestamp {
            time: 3,
            id: vec![1],
        },
        vec![],
    ));
    assert_eq!(receiver.iteration(Ok(message.clone())), Ok(Some(1)));
    assert_eq!(rx.try_recv(), Ok(("in".to_string(), Arc::new(message.clone()))));
    drop(rx);
    assert_eq!(
        receiver.iteration(Ok(message)),
        Err(ZFError::Disconnected)
    );
}

#[test]
fn a_replay_keeps_the_gaps_of_the_recording() {
    let (tx, rx) = link::<Message<u8>>(None, "out".into(), "in".into());
    let mut replay = JanuReplay::try_new(
        "replay".into(),
        context(),
        "source".into(),
        "out".into(),
        "int".into(),
        vec![tx],
        "record-1".into(),
    )
    .unwrap();
    assert_eq!(replay.get_id(), "replay");
    assert_eq!(replay.get_kind(), RunnerKind::Replay);
    assert_eq!(replay.resource(), "record-1");
    assert_eq!(replay.get_outputs(), vec![port("out")]);
    assert_eq!(replay.get_inputs(), vec![]);
    assert_eq!(replay.start_recording(), Err(ZFError::Unsupported));

    let at = |secs: u64, half: u64| Timestamp {
        time: (secs << 32) + (half << 31),
        id: vec![1],
    };
    let data =
        |value: u8, t: Timestamp| Message::Data(DataMessage::new(Arc::new(value), t, vec![]));
    let none: Replayed<u8> = Replayed {
        wait: Duration::from_millis(0),
        message: None,
    };

    // The mark at the beginning sets the time the first envelope is measured from.
    assert_eq!(
        replay.iteration(Message::Control(ControlMessage::RecordingStart(at(10, 0)))),
        none
    );
    let first = replay.iteration(data(1, at(10, 1)));
    assert_eq!(first.wait, Duration::from_millis(500));
    assert_eq!(first.message, Some(Arc::new(data(1, at(10, 1)))));
    assert_eq!(replay.send(first.message.as_ref().unwrap()), Ok(1));
    assert_eq!(rx.try_recv(), Ok(("in".to_string(), Arc::new(data(1, at(10, 1))))));

    let second = replay.iteration(data(2, at(12, 0)));
    assert_eq!(second.wait, Duration::from_millis(1500));
    let third = replay.iteration(data(3, at(12, 0)));
    assert_eq!(third.wait, Duration::from_millis(0));
    let end = replay.iteration(Message::Control(ControlMessage::RecordingStop(at(13, 0))));
    assert_eq!(end.wait, Duration::from_secs(1));
    assert_eq!(end.message, None);
}

#[test]
fn a_replay_without_a_mark_starts_at_once() {
    let mut replay = JanuReplay::<u8>::try_new(
        "replay".into(),
        context(),
        "source".into(),
        "out".into(),
        "int".into(),
        vec![],
        "record-1".into(),
    )
    .unwrap();
    let stamp = Timestamp {
        time: 77u64 << 32,
        id: vec![1],
    };
    let first = replay.iteration(Message::Data(DataMessage::new(
        Arc::new(1u8),
        stamp,
        vec![],
    )));
    assert_eq!(first.wait, Duration::from_millis(0));
    assert!(first.message.is_some());
}

#[test]
fn runners_answer_to_their_kind() {
    let (sink, tx) = sink_with_link();
    let mut node = NodeRunner::Sink(sink);
    assert_eq!(node.get_id(), "sink");
    assert_eq!(node.get_kind(), RunnerKind::Sink);
    assert_eq!(node.add_output(tx), Err(ZFError::SinkDoNotHaveOutputs));
    let mut clock = Clock::new();
    assert_eq!(node.start_recording(&mut clock), Err(ZFError::Unsupported));
    assert_eq!(node.stop_recording(), Err(ZFError::Unsupported));
    assert_eq!(clock.last_time(), 0);
    assert!(!node.is_recording());

    let (source, _receivers) = source_with_links(1);
    let mut node = NodeRunner::Source(source);
    let (_tx, rx) = link::<Message<u8>>(None, "out".into(), "in".into());
    assert_eq!(node.add_input(rx), Err(ZFError::SourceDoNotHaveInputs));
    assert_eq!(node.get_outputs(), vec![port("out")]);
    assert_eq!(node.get_inputs(), vec![]);
    let name = node.start_recording(&mut clock).unwrap();
    assert!(node.is_recording());
    assert_eq!(node.stop_recording(), Ok(name));

    // A manager starts its runner once.
    let mut manager = node.start();
    let name = manager.start_recording(&mut node, &mut clock).unwrap();
    assert_eq!(
        manager.start_recording(&mut node, &mut clock),
        Err(ZFError::AlreadyRecording)
    );
    assert_eq!(manager.stop_recording(&mut node), Ok(name));
    assert_eq!(manager.stop_recording(&mut node), Err(ZFError::NotRecoding));
    assert!(node.is_running());
    assert_eq!(manager.get_id(), "source");
    assert_eq!(manager.get_kind(), RunnerKind::Source);
    assert_eq!(manager.start(&mut node), Err(ZFError::InvalidState));
    assert_eq!(manager.kill(&mut node), Ok(()));
    assert!(!node.is_running());
    assert_eq!(manager.start(&mut node), Err(ZFError::InvalidState));
    assert!(!node.is_running());
}
