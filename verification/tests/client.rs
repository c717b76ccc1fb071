use pulseaudio::client::record_sink::{RecordBuffer, RecordRead};
use pulseaudio::client::{
    classify_incoming, is_command_frame, negotiate_version, next_frame, ChunkAction, Frame, Incoming,
    PlaybackStreamState, SourcePoll,
};
use pulseaudio::protocol::command::auth::AuthReply;
use pulseaudio::protocol::command::stream_events::Request;
use pulseaudio::protocol::command::Command;
use pulseaudio::protocol::error::PulseError;
use pulseaudio::protocol::paths::unix_socket_path;
use pulseaudio::protocol::{
    encode_command_message, write_descriptor, Descriptor, DescriptorFlags, DESCRIPTOR_SIZE,
    MAX_VERSION, PROTOCOL_VERSION,
};

fn message(command: &Command, seq: u32) -> Vec<u8> {
    let mut buf = Vec::new();
    encode_command_message(command, seq, &mut buf, PROTOCOL_VERSION).unwrap();
    buf
}

#[test]
fn frames_are_split_at_their_length() {
    let mut buf = message(&Command::Stat, 1);
    let whole = buf.len();
    assert_eq!(next_frame(&buf[..10]), Frame::Partial);
    assert_eq!(next_frame(&buf[..whole - 1]), Frame::Partial);
    buf.extend_from_slice(&[1, 2, 3]);
    match next_frame(&buf) {
        Frame::Complete(desc, len) => {
            assert_eq!(len, whole);
            assert!(is_command_frame(&desc));
        }
        Frame::Partial => panic!("expected a whole frame"),
    }
}

#[test]
fn stream_data_frames_are_not_commands() {
    let mut buf = Vec::new();
    write_descriptor(
        &mut buf,
        &Descriptor {
            length: 2,
            channel: 3,
            offset: 0,
            flags: DescriptorFlags::empty(),
        },
    )
    .unwrap();
    buf.extend_from_slice(&[9, 9]);
    match next_frame(&buf) {
        Frame::Complete(desc, len) => {
            assert_eq!(len, DESCRIPTOR_SIZE + 2);
            assert!(!is_command_frame(&desc));
        }
        Frame::Partial => panic!("expected a whole frame"),
    }
}

#[test]
fn incoming_commands_are_classified() {
    let req = Request {
        channel: 4,
        length: 4096,
    };
    let buf = message(&Command::Request(req), 0xffff_ffff);
    assert_eq!(
        classify_incoming(&buf[DESCRIPTOR_SIZE..], PROTOCOL_VERSION),
        Incoming::Request(req)
    );
    let buf = message(&Command::Started(4), 0xffff_ffff);
    assert_eq!(
        classify_incoming(&buf[DESCRIPTOR_SIZE..], PROTOCOL_VERSION),
        Incoming::Started(4)
    );
    let buf = message(&Command::Reply, 12);
    assert_eq!(
        classify_incoming(&buf[DESCRIPTOR_SIZE..], PROTOCOL_VERSION),
        Incoming::Reply(12)
    );
    // An error reply goes to the handler of the command it answers.
    let buf = message(&Command::Error(PulseError::Killed), 12);
    assert_eq!(
        classify_incoming(&buf[DESCRIPTOR_SIZE..], PROTOCOL_VERSION),
        Incoming::Error(12, PulseError::Killed)
    );
    assert_eq!(classify_incoming(&[1, 2], PROTOCOL_VERSION), Incoming::Ignored);
}

#[test]
fn version_is_negotiated_down() {
    let reply = AuthReply {
        version: 35,
        use_memfd: false,
        use_shm: false,
    };
    assert_eq!(negotiate_version(&reply), MAX_VERSION);
    let reply = AuthReply {
        version: 20,
        use_memfd: false,
        use_shm: false,
    };
    assert_eq!(negotiate_version(&reply), 20);
}

#[test]
fn playback_chunks_follow_requests() {
    let mut stream = PlaybackStreamState::new(7);
    assert!(!stream.wants_data());
    stream.request(100);
    assert!(stream.wants_data());
    assert_eq!(stream.next_chunk(SourcePoll::Pending), ChunkAction::Wait);
    match stream.next_chunk(SourcePoll::Ready(60)) {
        ChunkAction::Send(desc) => {
            assert_eq!(desc.length, 60);
            assert_eq!(desc.channel, 7);
        }
        other => panic!("unexpected {other:?}"),
    }
    assert_eq!(stream.requested_bytes, 40);
    match stream.next_chunk(SourcePoll::Ready(1000)) {
        ChunkAction::Send(desc) => assert_eq!(desc.length, 40),
        other => panic!("unexpected {other:?}"),
    }
    assert!(!stream.wants_data());
    stream.request(10);
    assert_eq!(stream.next_chunk(SourcePoll::Ready(0)), ChunkAction::Eof);
    assert!(stream.done);
    assert!(!stream.wants_data());
}

#[test]
fn unix_server_addresses() {
    assert_eq!(unix_socket_path(b"unix:/run/pulse/native"), Some(b"/run/pulse/native".to_vec()));
    assert_eq!(unix_socket_path(b"tcp:host:4713"), None);
    assert_eq!(unix_socket_path(b"unix"), None);
}

#[test]
fn record_buffer_asyncread() {
    let mut buffer = RecordBuffer::new(10);

    buffer.write(&[1, 2, 3, 4, 5]);

    match buffer.read(3) {
        RecordRead::Ready(v) => {
            assert_eq!(v.len(), 3);
            assert_eq!(&v[..], &[1, 2, 3]);
        }
        _ => panic!("expected ready"),
    }

    match buffer.read(3) {
        RecordRead::Ready(v) => {
            assert_eq!(v.len(), 2);
            assert_eq!(&v[..], &[4, 5]);
        }
        _ => panic!("expected ready"),
    }

    match buffer.read(3) {
        RecordRead::Pending => (),
        _ => panic!("expected pending"),
    }

    buffer.close();

    match buffer.read(3) {
        RecordRead::Ready(v) => {
            assert_eq!(v.len(), 0);
        }
        _ => panic!("expected ready"),
    }
}

#[test]
fn record_buffer_write() {
    let mut buffer = RecordBuffer::new(10);

    buffer.write(&[1, 2, 3, 4, 5]);
    assert_eq!(buffer.len(), 5);

    buffer.write(&[6, 7, 8, 9, 10]);
    assert_eq!(buffer.len(), 10);
    assert_eq!(buffer.contents(), vec![1, 2, 3, 4, 5, 6, 7, 8, 9, 10]);

    buffer.write(&[11, 12, 13]);
    assert_eq!(buffer.len(), 10);
    assert_eq!(buffer.contents(), vec![4, 5, 6, 7, 8, 9, 10, 11, 12, 13]);
}

#[test]
fn record_buffer_drops_as_much_as_arrives() {
    let mut buffer = RecordBuffer::new(10);
    buffer.write(&[1, 2, 3, 4, 5, 6, 7, 8]);
    buffer.write(&[9, 10, 11]);
    assert_eq!(buffer.contents(), vec![4, 5, 6, 7, 8, 9, 10, 11]);
    buffer.write(&[]);
    assert_eq!(buffer.contents(), vec![4, 5, 6, 7, 8, 9, 10, 11]);
}

#[test]
fn record_buffer_oversized_write_keeps_its_start() {
    let mut buffer = RecordBuffer::new(4);
    buffer.write(&[1, 2]);
    buffer.write(&[3, 4, 5, 6, 7, 8]);
    assert_eq!(buffer.contents(), vec![3, 4, 5, 6]);
}

#[test]
fn record_buffer_end_hides_held_bytes() {
    let mut buffer = RecordBuffer::new(4);
    buffer.write(&[1, 2, 3]);
    buffer.close();
    assert_eq!(buffer.read(8), RecordRead::Ready(Vec::new()));
    assert_eq!(buffer.len(), 3);
}
