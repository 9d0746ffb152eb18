use vsg::codec::{
    decode_length, encode_length, error_record, frame, split_frames, success_record, FramingError,
};
use vsg::connection::{Action, CloseReason, Connection, Event, Phase, Profile};
use vsg::messages::{Color, Command, Coordinates, Shape};
use vsg::proto::{self, root_message, DecodeError, RootMessage};

fn bits(v: f32) -> u32 {
    v.to_bits()
}

fn circle(radius: f32, x: f32, y: f32) -> Shape {
    Shape::Circle { radius: bits(radius), ctr: Coordinates { x: bits(x), y: bits(y) } }
}

#[test]
fn messages_a() {
    let square = Command::Draw(Shape::Square {
        size: bits(0.2),
        ctr: Coordinates { x: bits(0.0), y: bits(0.0) },
    });
    let msg = square.clone().into_message();
    assert_eq!(msg.into_command(), Ok(square));

    let bg = Command::SetBackground(Color { r: bits(0.1), g: bits(0.2), b: bits(0.3), a: bits(1.0) });
    let msg = bg.clone().into_message();
    assert_eq!(msg.into_command(), Ok(bg));
}

#[test]
fn round_trip_every_command() {
    let commands = vec![
        Command::Draw(Shape::Square { size: bits(10.0), ctr: Coordinates { x: bits(0.0), y: bits(0.0) } }),
        Command::Draw(circle(0.2, 0.7, 0.7)),
        Command::Draw(Shape::Cross {
            size: bits(0.5),
            line_width: bits(-0.05),
            ctr: Coordinates { x: bits(-0.25), y: bits(0.25) },
        }),
        Command::SetBackground(Color { r: bits(0.1), g: bits(0.2), b: bits(0.3), a: bits(1.0) }),
        Command::LoadTexture(3, vec![0x89, 0x50, 0x4e, 0x47, 0, 1, 2]),
    ];
    for c in commands {
        assert_eq!(c.clone().into_message().into_command(), Ok(c));
    }
}

#[test]
fn header_is_big_endian() {
    assert_eq!(encode_length(0x0102_0304), [1, 2, 3, 4]);
    assert_eq!(encode_length(19), [0, 0, 0, 19]);
    assert_eq!(decode_length(&[0, 0, 1, 2]), 258);
    assert_eq!(decode_length(&[0xff, 0xff, 0xff, 0xff]), u32::MAX);
    assert_eq!(decode_length(&encode_length(123_456_789)), 123_456_789);
}

#[test]
fn frame_puts_header_first() {
    assert_eq!(frame(b"abc"), vec![0, 0, 0, 3, b'a', b'b', b'c']);
    assert_eq!(frame(&[]), vec![0, 0, 0, 0]);
}

#[test]
fn split_frames_gives_payloads_back() {
    let mut stream = frame(b"first");
    stream.extend(frame(&[]));
    stream.extend(frame(b"third one"));
    assert_eq!(
        split_frames(&stream),
        Ok(vec![b"first".to_vec(), vec![], b"third one".to_vec()])
    );
    assert_eq!(split_frames(&[]), Ok(vec![]));
}

#[test]
fn split_frames_rejects_cut_streams() {
    assert_eq!(split_frames(&[0, 0]), Err(FramingError::ShortHeader));
    assert_eq!(split_frames(&[0, 0, 0, 5, 1, 2]), Err(FramingError::ShortPayload));
    let mut stream = frame(b"ok");
    stream.extend([0, 0, 0]);
    assert_eq!(split_frames(&stream), Err(FramingError::ShortHeader));
}

#[test]
fn reply_records() {
    assert_eq!(success_record(), b"{\"type\": \"success\"}".to_vec());
    assert_eq!(
        error_record(DecodeError::Malformed),
        b"{\"type\": \"error\", \"reason\": \"malformed\"}".to_vec()
    );
    assert_eq!(
        error_record(DecodeError::UnknownCommand),
        b"{\"type\": \"error\", \"reason\": \"unknown_command\"}".to_vec()
    );
    assert_eq!(
        error_record(DecodeError::MissingChannels),
        b"{\"type\": \"error\", \"reason\": \"missing_channels\"}".to_vec()
    );
}

#[test]
fn classification_errors() {
    let none = RootMessage { command: None };
    assert_eq!(none.into_command(), Err(DecodeError::UnknownCommand));

    let no_shape = RootMessage {
        command: Some(root_message::Command::SetShape(proto::Shape { shape: None })),
    };
    assert_eq!(no_shape.into_command(), Err(DecodeError::MissingShape));

    let no_center = RootMessage {
        command: Some(root_message::Command::SetShape(proto::Shape {
            shape: Some(proto::shape::Shape::Circle(proto::Circle { radius: bits(0.2), ctr: None })),
        })),
    };
    assert_eq!(no_center.into_command(), Err(DecodeError::MissingCenter));

    let three = RootMessage {
        command: Some(root_message::Command::SetBgColor(proto::BgColor {
            color: vec![bits(0.1), bits(0.2), bits(0.3)],
        })),
    };
    assert_eq!(three.into_command(), Err(DecodeError::MissingChannels));
}

#[test]
fn extra_channels_are_ignored() {
    let five = RootMessage {
        command: Some(root_message::Command::SetBgColor(proto::BgColor {
            color: vec![bits(0.1), bits(0.2), bits(0.3), bits(1.0), bits(9.0)],
        })),
    };
    assert_eq!(
        five.into_command(),
        Ok(Command::SetBackground(Color { r: bits(0.1), g: bits(0.2), b: bits(0.3), a: bits(1.0) }))
    );
}

fn framed_reply(record: &[u8]) -> Vec<u8> {
    frame(record)
}

#[test]
fn connection_serves_a_request() {
    let (mut conn, first) = Connection::start(Profile::LengthPrefixed);
    assert!(matches!(first, Action::ReadExact(4)));
    let payload = vec![7u8; 300];
    let header = encode_length(300).to_vec();
    assert!(matches!(conn.step(Event::Read(header)), Action::ReadExact(300)));
    match conn.step(Event::Read(payload.clone())) {
        Action::Decode(b) => assert_eq!(b, payload),
        other => panic!("unexpected {:?}", other),
    }
    let msg = Command::Draw(circle(0.2, 0.7, 0.7)).into_message();
    match conn.step(Event::Decoded(Some(msg))) {
        Action::Deliver { command, reply } => {
            assert_eq!(command, Some(Command::Draw(circle(0.2, 0.7, 0.7))));
            assert_eq!(reply, framed_reply(b"{\"type\": \"success\"}"));
        }
        other => panic!("unexpected {:?}", other),
    }
    assert!(matches!(conn.step(Event::Written), Action::ReadExact(4)));
    assert_eq!(conn.phase(), Phase::AwaitHeader);
    assert!(matches!(conn.step(Event::Read(vec![])), Action::Close(CloseReason::PeerClosed)));
    assert!(conn.is_closed());
}

#[test]
fn malformed_request_keeps_connection_open() {
    let (mut conn, _) = Connection::start(Profile::LengthPrefixed);
    conn.step(Event::Read(vec![0, 0, 0, 2]));
    conn.step(Event::Read(vec![0xff, 0xff]));
    match conn.step(Event::Decoded(None)) {
        Action::Deliver { command, reply } => {
            assert_eq!(command, None);
            assert_eq!(reply, framed_reply(b"{\"type\": \"error\", \"reason\": \"malformed\"}"));
        }
        other => panic!("unexpected {:?}", other),
    }
    assert!(matches!(conn.step(Event::Written), Action::ReadExact(4)));
    assert!(!conn.is_closed());
}

#[test]
fn unknown_command_gets_error_reply() {
    let (mut conn, _) = Connection::start(Profile::Stream);
    assert!(matches!(conn.step(Event::Read(vec![1])), Action::Decode(_)));
    match conn.step(Event::Decoded(Some(RootMessage { command: None }))) {
        Action::Deliver { command, reply } => {
            assert_eq!(command, None);
            assert_eq!(reply, b"{\"type\": \"error\", \"reason\": \"unknown_command\"}".to_vec());
        }
        other => panic!("unexpected {:?}", other),
    }
    assert!(matches!(conn.step(Event::Written), Action::ReadChunk));
    assert!(matches!(conn.step(Event::Read(vec![])), Action::Close(CloseReason::PeerClosed)));
}

#[test]
fn short_reads_close_the_connection() {
    let (mut conn, _) = Connection::start(Profile::LengthPrefixed);
    assert!(matches!(conn.step(Event::Read(vec![0, 0])), Action::Close(CloseReason::ShortHeader)));
    assert!(conn.is_closed());

    let (mut conn, _) = Connection::start(Profile::LengthPrefixed);
    conn.step(Event::Read(vec![0, 0, 0, 10]));
    assert!(matches!(conn.step(Event::Read(vec![1, 2, 3])), Action::Close(CloseReason::ShortPayload)));

    let (mut conn, _) = Connection::start(Profile::LengthPrefixed);
    assert!(matches!(conn.step(Event::ReadFailed), Action::Close(CloseReason::ReadFailed)));

    let (mut conn, _) = Connection::start(Profile::Stream);
    conn.step(Event::Read(vec![1]));
    conn.step(Event::Decoded(None));
    assert!(matches!(conn.step(Event::WriteFailed), Action::Close(CloseReason::WriteFailed)));

    let (mut conn, _) = Connection::start(Profile::Stream);
    assert!(matches!(conn.step(Event::Written), Action::Close(CloseReason::OutOfOrder)));
}

#[test]
fn zero_length_payload_is_decoded() {
    let (mut conn, _) = Connection::start(Profile::LengthPrefixed);
    assert!(matches!(conn.step(Event::Read(vec![0, 0, 0, 0])), Action::ReadExact(0)));
    assert!(matches!(conn.step(Event::Read(vec![])), Action::Decode(_)));
}
