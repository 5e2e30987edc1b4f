//! Tests of the mailbox stream protocol and its canonical codec.

use ockam::mailbox::{StreamMessage, StreamProtocol};

#[test]
fn stream_protocol() {
    let d = StreamProtocol::CreateStreamRequest {
        stream_name: Some("MyStream".to_string()),
    };

    let erray = vec![
        13, 115, 116, 114, 101, 97, 109, 95, 99, 114, 101, 97, 116, 101, 10,
    ];

    let estr = std::str::from_utf8(&erray).unwrap();
    println!(">>> {} <<<", estr);

    let data = d.encode();
    println!("{:?}", data);
}

#[test]
fn codec_round_trips_every_variant() {
    let variants = vec![
        StreamProtocol::CreateStreamRequest { stream_name: None },
        StreamProtocol::CreateStreamRequest {
            stream_name: Some("MyStream".to_string()),
        },
        StreamProtocol::Init {
            stream_name: "settled".to_string(),
        },
        StreamProtocol::PushRequest {
            request_id: 7,
            data: b"hello mailbox".to_vec(),
        },
        StreamProtocol::PushConfirm {
            request_id: 7,
            status: Some(()),
        },
        StreamProtocol::PushConfirm {
            request_id: 8,
            status: None,
        },
        StreamProtocol::PullRequest {
            request_id: 9,
            index: 4,
            limit: 16,
        },
        StreamProtocol::PullResponse {
            request_id: 9,
            messages: vec![],
        },
        StreamProtocol::PullResponse {
            request_id: 10,
            messages: vec![
                StreamMessage {
                    index: 0,
                    data: b"first".to_vec(),
                },
                StreamMessage {
                    index: 1,
                    data: b"second".to_vec(),
                },
            ],
        },
    ];
    for v in variants {
        let encoded = v.encode();
        let parsed = StreamProtocol::parse(&encoded).unwrap();
        assert_eq!(parsed, v);
        // And re-encoding what was parsed gives back the same bytes.
        assert_eq!(parsed.encode(), encoded);
    }
}

#[test]
fn parse_rejects_malformed_buffers() {
    // Empty buffer.
    assert!(StreamProtocol::parse(&vec![]).is_err());
    // Unknown tag.
    assert!(StreamProtocol::parse(&vec![99]).is_err());
    // A push request cut short.
    let mut push = StreamProtocol::PushRequest {
        request_id: 7,
        data: b"hello".to_vec(),
    }
    .encode();
    push.pop();
    assert!(StreamProtocol::parse(&push).is_err());
    // Trailing garbage.
    let mut init = StreamProtocol::Init {
        stream_name: "s".to_string(),
    }
    .encode();
    init.push(0);
    assert!(StreamProtocol::parse(&init).is_err());
    // A confirmation status byte that is neither present nor absent.
    let mut confirm = StreamProtocol::PushConfirm {
        request_id: 1,
        status: None,
    }
    .encode();
    let last = confirm.len() - 1;
    confirm[last] = 2;
    assert!(StreamProtocol::parse(&confirm).is_err());
    // A string that is not UTF-8.
    let mut named = StreamProtocol::Init {
        stream_name: "ab".to_string(),
    }
    .encode();
    let last = named.len() - 1;
    named[last] = 0xff;
    assert!(StreamProtocol::parse(&named).is_err());
}

#[test]
fn encoding_layout_is_stable() {
    // Tag, presence byte: the smallest message.
    let encoded = StreamProtocol::CreateStreamRequest { stream_name: None }.encode();
    assert_eq!(encoded, vec![0, 0]);

    // Tag, request id (8 bytes little-endian), length-prefixed data.
    let encoded = StreamProtocol::PushRequest {
        request_id: 2,
        data: b"ab".to_vec(),
    }
    .encode();
    assert_eq!(
        encoded,
        vec![
            2, // tag
            2, 0, 0, 0, 0, 0, 0, 0, // request id
            2, 0, 0, 0, 0, 0, 0, 0, // data length
            b'a', b'b',
        ]
    );
}
