use janu_flow::resources::{
    decode_first_reply, decode_replies, deserialize_data, flow_selector_by_flow,
    flow_selector_by_instance, get_flow_instance_runtimes, key_piece, poll_next,
    reg_graph_selector, rt_configuration_path, rt_flow_path, rt_flow_selector_all,
    rt_flow_selector_by_flow, rt_flow_selector_by_instance, rt_info_path, rt_status_path,
    runtime_ids, serialize_data, Encoding, Polled, Reply, Sample, SampleKind, APP_OCTET_STREAM,
    ROOT_PLUGIN_RUNTIME_PREFIX, ROOT_PLUGIN_RUNTIME_SUFFIX, ROOT_STANDALONE,
};
use janu_flow::{ZFError, ZFResult};

fn octets() -> Encoding {
    Encoding::app_octet_stream()
}

fn text() -> Encoding {
    Encoding {
        prefix: 2,
        suffix: String::new(),
    }
}

fn reply(key: &str, encoding: Encoding, payload: &[u8]) -> Reply {
    Reply {
        key: key.to_string(),
        encoding,
        payload: payload.to_vec(),
    }
}

fn first_byte(bytes: &Vec<u8>) -> ZFResult<u8> {
    match bytes.first() {
        Some(b) => Ok(*b),
        None => Err(ZFError::DeseralizationError),
    }
}

fn even_byte(bytes: &Vec<u8>) -> ZFResult<u8> {
    match bytes.first() {
        Some(b) if b % 2 == 0 => Ok(*b),
        _ => Err(ZFError::InvalidData("odd".into())),
    }
}

#[test]
fn keys_are_pieces_joined_by_slashes() {
    assert_eq!(ROOT_STANDALONE, "/janu-flow");
    assert_eq!(ROOT_PLUGIN_RUNTIME_PREFIX, "/@/router/");
    assert_eq!(ROOT_PLUGIN_RUNTIME_SUFFIX, "/plugin/janu-flow");
    assert_eq!(
        rt_info_path(ROOT_STANDALONE, "rt"),
        "/janu-flow/runtimes/rt/info"
    );
    assert_eq!(
        rt_status_path(ROOT_STANDALONE, "rt"),
        "/janu-flow/runtimes/rt/status"
    );
    assert_eq!(
        rt_configuration_path(ROOT_STANDALONE, "rt"),
        "/janu-flow/runtimes/rt/configuration"
    );
    assert_eq!(
        rt_flow_path(ROOT_STANDALONE, "rt", "flow", "inst"),
        "/janu-flow/runtimes/rt/flows/flow/inst"
    );
    assert_eq!(
        rt_flow_selector_by_instance(ROOT_STANDALONE, "rt", "inst"),
        "/janu-flow/runtimes/rt/flows/*/inst"
    );
    assert_eq!(
        rt_flow_selector_by_flow(ROOT_STANDALONE, "rt", "flow"),
        "/janu-flow/runtimes/rt/flows/flow/*"
    );
    assert_eq!(
        rt_flow_selector_all(ROOT_STANDALONE, "rt"),
        "/janu-flow/runtimes/rt/flows/*/*"
    );
    assert_eq!(
        flow_selector_by_instance(ROOT_STANDALONE, "inst"),
        "/janu-flow/runtimes/*/flows/*/inst"
    );
    assert_eq!(
        flow_selector_by_flow(ROOT_STANDALONE, "flow"),
        "/janu-flow/runtimes/*/flows/flow/*"
    );
    assert_eq!(
        reg_graph_selector(ROOT_STANDALONE, "flow"),
        "/janu-flow/registry/graphs/flow"
    );
    assert_eq!(rt_info_path("", "*"), "/runtimes/*/info");
}

#[test]
fn encodings_are_told_by_kind_and_suffix() {
    assert_eq!(APP_OCTET_STREAM, 1);
    assert_eq!(octets().prefix, 1);
    assert_eq!(octets().suffix, "");
    assert!(octets().is_octet_stream());
    assert!(!text().is_octet_stream());
    let with_suffix = Encoding {
        prefix: 1,
        suffix: "gzip".into(),
    };
    assert!(with_suffix.is_octet_stream());
    assert!(with_suffix.starts_with(&octets()));
    assert!(!octets().starts_with(&with_suffix));
    assert!(with_suffix.starts_with(&Encoding {
        prefix: 1,
        suffix: "gz".into()
    }));
    assert!(!with_suffix.starts_with(&Encoding {
        prefix: 1,
        suffix: "zip".into()
    }));
    assert!(!with_suffix.starts_with(&Encoding {
        prefix: 2,
        suffix: "gz".into()
    }));
    assert!(with_suffix.starts_with(&with_suffix));
}

#[test]
fn the_first_reply_counts_for_a_single_value() {
    let none: Vec<Reply> = vec![];
    assert_eq!(decode_first_reply(&none, first_byte), Err(ZFError::Empty));

    let good = vec![reply("k", octets(), &[5]), reply("k2", text(), &[6])];
    assert_eq!(decode_first_reply(&good, first_byte), Ok(5));

    let wrong = vec![reply("k", text(), &[5]), reply("k2", octets(), &[6])];
    assert_eq!(
        decode_first_reply(&wrong, first_byte),
        Err(ZFError::DeseralizationError)
    );

    let refused = vec![reply("k", octets(), &[5])];
    assert_eq!(
        decode_first_reply(&refused, even_byte),
        Err(ZFError::InvalidData("odd".into()))
    );
}

#[test]
fn all_replies_count_for_many_values() {
    let none: Vec<Reply> = vec![];
    assert_eq!(decode_replies(&none, first_byte), Ok(vec![]));

    let good = vec![
        reply("a", octets(), &[2]),
        reply("b", octets(), &[4]),
        reply("c", octets(), &[6]),
    ];
    assert_eq!(decode_replies(&good, even_byte), Ok(vec![2, 4, 6]));

    // The first reply that is out of order decides.
    let mixed = vec![
        reply("a", octets(), &[2]),
        reply("b", octets(), &[3]),
        reply("c", text(), &[6]),
    ];
    assert_eq!(
        decode_replies(&mixed, even_byte),
        Err(ZFError::InvalidData("odd".into()))
    );
    let mixed = vec![
        reply("a", octets(), &[2]),
        reply("b", text(), &[4]),
        reply("c", octets(), &[5]),
    ];
    assert_eq!(
        decode_replies(&mixed, even_byte),
        Err(ZFError::DeseralizationError)
    );
}

#[test]
fn a_stream_of_configurations_passes_over_what_it_cannot_use() {
    let put = Sample {
        kind: SampleKind::Put,
        encoding: octets(),
        payload: vec![8],
    };
    let patch = Sample {
        kind: SampleKind::Patch,
        encoding: octets(),
        payload: vec![10],
    };
    let delete = Sample {
        kind: SampleKind::Delete,
        encoding: octets(),
        payload: vec![8],
    };
    let odd = Sample {
        kind: SampleKind::Put,
        encoding: octets(),
        payload: vec![9],
    };
    let wrong = Sample {
        kind: SampleKind::Put,
        encoding: text(),
        payload: vec![8],
    };
    assert_eq!(
        poll_next(Polled::Ready(Some(&put)), even_byte),
        Polled::Ready(Some(8))
    );
    assert_eq!(
        poll_next(Polled::Ready(Some(&patch)), even_byte),
        Polled::Ready(Some(10))
    );
    assert_eq!(
        poll_next(Polled::Ready(Some(&delete)), even_byte),
        Polled::Pending
    );
    assert_eq!(
        poll_next(Polled::Ready(Some(&odd)), even_byte),
        Polled::Pending
    );
    assert_eq!(
        poll_next(Polled::Ready(Some(&wrong)), even_byte),
        Polled::Pending
    );
    assert_eq!(
        poll_next(Polled::Ready(None), even_byte),
        Polled::Ready(None)
    );
    assert_eq!(poll_next(Polled::Pending, even_byte), Polled::Pending);
}

#[test]
fn keys_fall_into_pieces_at_the_slashes() {
    let key = "/janu-flow/runtimes/rt/flows/flow/inst";
    assert_eq!(key_piece(key, 0), Some(""));
    assert_eq!(key_piece(key, 1), Some("janu-flow"));
    assert_eq!(key_piece(key, 2), Some("runtimes"));
    assert_eq!(key_piece(key, 3), Some("rt"));
    assert_eq!(key_piece(key, 6), Some("inst"));
    assert_eq!(key_piece(key, 7), None);
    assert_eq!(key_piece("", 0), Some(""));
    assert_eq!(key_piece("", 1), None);
    assert_eq!(key_piece("a/", 1), Some(""));
    assert_eq!(key_piece("a//b", 1), Some(""));
    assert_eq!(key_piece("a//b", 2), Some("b"));
    assert_eq!(key_piece("plain", 0), Some("plain"));
    assert_eq!(key_piece("é/ü", 1), Some("ü"));
}

#[test]
fn runtimes_are_read_from_the_keys_of_an_instance() {
    let first = "936da01f-9abd-4d9d-80c7-02af85c822a8";
    let second = "00000000-0000-0000-0000-000000000002";
    let data = vec![
        reply(
            &rt_flow_path(ROOT_STANDALONE, first, "flow", "inst"),
            octets(),
            &[],
        ),
        reply(
            &rt_flow_path(ROOT_STANDALONE, second, "flow", "inst"),
            text(),
            &[],
        ),
    ];
    assert_eq!(
        get_flow_instance_runtimes(&data),
        Ok(vec![0x936DA01F_9ABD_4D9D_80C7_02AF85C822A8, 2])
    );

    // The simple notation is read as well.
    let simple = vec![reply("/a/b/936da01f9abd4d9d80c702af85c822a8", octets(), &[])];
    assert_eq!(
        get_flow_instance_runtimes(&simple),
        Ok(vec![0x936DA01F_9ABD_4D9D_80C7_02AF85C822A8])
    );

    let broken = vec![
        reply(
            &rt_flow_path(ROOT_STANDALONE, first, "flow", "inst"),
            octets(),
            &[],
        ),
        reply("/janu-flow/runtimes/not-a-runtime/flows/f/i", octets(), &[]),
    ];
    assert_eq!(
        get_flow_instance_runtimes(&broken),
        Err(ZFError::DeseralizationError)
    );
    assert_eq!(get_flow_instance_runtimes(&vec![]), Ok(vec![]));
}

#[test]
fn a_key_without_a_runtime_is_not_read() {
    let good = "/janu-flow/runtimes/936da01f-9abd-4d9d-80c7-02af85c822a8/flows/f/i";
    for short in ["", "/", "/a/b", "a/b/c", "/janu-flow/runtimes"] {
        assert_eq!(key_piece(short, 3), None);
        assert_eq!(
            get_flow_instance_runtimes(&vec![reply(short, octets(), &[])]),
            Err(ZFError::DeseralizationError)
        );
        assert_eq!(
            get_flow_instance_runtimes(&vec![
                reply(good, octets(), &[]),
                reply(short, octets(), &[]),
            ]),
            Err(ZFError::DeseralizationError)
        );
        assert_eq!(
            get_flow_instance_runtimes(&vec![
                reply(short, octets(), &[]),
                reply(good, octets(), &[]),
            ]),
            Err(ZFError::DeseralizationError)
        );
    }
    // The fourth piece is there, and empty: no identifier either.
    assert_eq!(key_piece("/a/b/", 3), Some(""));
    assert_eq!(
        get_flow_instance_runtimes(&vec![reply("/a/b/", octets(), &[])]),
        Err(ZFError::DeseralizationError)
    );
}

#[test]
fn identifiers_are_all_read_or_none() {
    assert_eq!(runtime_ids(&vec![]), Ok(vec![]));
    assert_eq!(runtime_ids(&vec![Some(1), Some(2)]), Ok(vec![1, 2]));
    assert_eq!(
        runtime_ids(&vec![Some(1), None, Some(3)]),
        Err(ZFError::DeseralizationError)
    );
}

#[test]
fn frames_are_utf8() {
    assert_eq!(
        serialize_data("{\"a\":1}"),
        Ok(vec![b'{', b'"', b'a', b'"', b':', b'1', b'}'])
    );
    assert_eq!(serialize_data("é"), Ok(vec![0xc3, 0xa9]));
    assert_eq!(deserialize_data(&[0xc3, 0xa9]), Ok("é"));
    assert_eq!(deserialize_data(b"{\"a\":1}"), Ok("{\"a\":1}"));
    assert_eq!(deserialize_data(&[]), Ok(""));
    assert_eq!(
        deserialize_data(&[0xff, 0xfe]),
        Err(ZFError::SerializationError)
    );
    assert_eq!(deserialize_data(&[0xc3]), Err(ZFError::SerializationError));
    let framed = serialize_data("round trip ✓").unwrap();
    assert_eq!(deserialize_data(&framed), Ok("round trip ✓"));
}
