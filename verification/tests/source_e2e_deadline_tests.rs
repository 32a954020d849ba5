use janu_flow::{
    link, Clock, Duration, E2EDeadlineRecord, InputDescriptor, InstanceContext, LinkReceiver,
    Message, NodeRunner, OperatorIO, OutputDescriptor, PortDescriptor, RuntimeContext,
    SourceLoaded, SourceRunner,
};
use std::sync::Arc;

// ZFUsize is the payload.
#[derive(Debug, Clone, PartialEq)]
pub struct ZFUsize(pub usize);

// -------------------------------------------------------------------------------------------------
// Scenarios tested:
//
// 1) the Source is at the "start" of an E2EDeadline, it is propagated.
// -------------------------------------------------------------------------------------------------

#[test]
fn source_e2e_deadline() {
    let mut clock = Clock::new();
    let runtime_context = RuntimeContext {
        runtime_name: "runtime--source-e2e-deadline-tests".into(),
        runtime_uuid: 0xabcdef,
    };
    let instance_context = InstanceContext {
        flow_id: "flow--source-e2e-deadline-tests".into(),
        instance_id: 0x123456,
        runtime: runtime_context,
    };

    let output: String = "OUTPUT".into();
    let (sender_output, receiver_output) =
        link::<Message<ZFUsize>>(None, output.clone(), output.clone());
    let receiver_output: LinkReceiver<Message<ZFUsize>> = receiver_output;

    let source_id: String = "source".into();

    let e2e_deadline_1 = E2EDeadlineRecord {
        from: OutputDescriptor {
            node: source_id.clone(),
            output: output.clone(),
        },
        to: InputDescriptor {
            node: "future".into(),
            input: "future-input".into(),
        },
        duration: Duration::from_millis(100),
    };

    let e2e_deadline_2 = E2EDeadlineRecord {
        from: OutputDescriptor {
            node: source_id.clone(),
            output: output.clone(),
        },
        to: InputDescriptor {
            node: "future2".into(),
            input: "future2-input".into(),
        },
        duration: Duration::from_millis(200),
    };

    let mut io = OperatorIO::new();
    io.add_output(sender_output);
    let source_runner = SourceRunner::try_new(
        instance_context.clone(),
        SourceLoaded {
            id: source_id,
            output: PortDescriptor {
                port_id: output,
                port_type: "ZFUsize".into(),
            },
            period: None,
            end_to_end_deadlines: vec![e2e_deadline_1.clone(), e2e_deadline_2.clone()],
        },
        io,
    )
    .unwrap();

    let mut runner = NodeRunner::Source(source_runner);
    let mut runner_manager = runner.start();
    assert!(runner_manager.is_running(&runner));

    // One pass of the source's loop: the user's code pushes "1".
    let before = clock.last_time();
    match &runner {
        NodeRunner::Source(source) => {
            let emission = source.iteration(&mut clock, Arc::new(ZFUsize(1))).unwrap();
            assert_eq!(source.send(&emission.message), Ok(1));
        }
        _ => panic!("the source has the runner of a source"),
    }

    let (_, message) = receiver_output.recv().unwrap();
    if let Message::Data(data_message) = message.as_ref() {
        assert_eq!(data_message.end_to_end_deadlines.len(), 2);
        assert!(data_message
            .end_to_end_deadlines
            .iter()
            .any(|e2e_deadline| e2e_deadline.is_record(&e2e_deadline_1)));
        assert!(data_message
            .end_to_end_deadlines
            .iter()
            .any(|e2e_deadline| e2e_deadline.is_record(&e2e_deadline_2)));
        assert!(data_message.missed_end_to_end_deadlines.is_empty());
        assert!(data_message.timestamp.time > before);
        assert!(data_message
            .end_to_end_deadlines
            .iter()
            .all(|e2e_deadline| e2e_deadline.start == data_message.timestamp));
        assert_eq!(data_message.get_inner_data().0, 1);
    } else {
        panic!("a source emits data");
    }

    runner_manager.kill(&mut runner).unwrap();
    assert!(!runner_manager.is_running(&runner));
    // Killing twice is killing once.
    runner_manager.kill(&mut runner).unwrap();
    assert!(!runner_manager.is_running(&runner));
}
