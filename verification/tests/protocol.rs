use pulseaudio::client::{roundtrip_blocking, ClientError};
use pulseaudio::protocol::command::auth::AuthParams;
use pulseaudio::protocol::command::lookup::LookupReply;
use pulseaudio::protocol::command::set_client_name::SetClientNameReply;
use pulseaudio::protocol::command::stat::StatInfo;
use pulseaudio::protocol::command::subscribe::{
    SubscriptionEvent, SubscriptionEventFacility, SubscriptionEventType, SubscriptionMask,
};
use pulseaudio::protocol::command::playback_stream::PlaybackStreamParams;
use pulseaudio::protocol::command::record_stream::RecordStreamParams;
use pulseaudio::protocol::command::{Command, CommandTag};
use pulseaudio::protocol::serde::channel_map::ChannelMap;
use pulseaudio::protocol::serde::sample_spec::{SampleFormat, SampleSpec};
use pulseaudio::protocol::serde::volume::ChannelVolume;
use pulseaudio::protocol::stream::{BufferAttr, StreamFlags};
use pulseaudio::protocol::error::{IoErrorKind, ProtocolError, PulseError};
use pulseaudio::protocol::serde::cstr::CString;
use pulseaudio::protocol::serde::props::{Prop, Props};
use pulseaudio::protocol::serde::{TagStructWrite, TagStructWriter};
use pulseaudio::protocol::{
    encode_command_message, read_ack_message, read_descriptor, read_reply_message,
    read_subscription_event, write_descriptor, Descriptor, DescriptorFlags, DESCRIPTOR_SIZE,
    MAX_VERSION, PROTOCOL_VERSION,
};

fn message(command: &Command, seq: u32) -> Vec<u8> {
    let mut buf = Vec::new();
    let n = encode_command_message(command, seq, &mut buf, PROTOCOL_VERSION).unwrap();
    assert_eq!(n, buf.len());
    buf
}

/// A reply message: the reply tag, the sequence number, then the payload.
fn reply_message<T: TagStructWrite>(seq: u32, payload: &T) -> Vec<u8> {
    let mut w = TagStructWriter::new(Vec::new(), PROTOCOL_VERSION);
    w.write_u32(CommandTag::Reply.to_u32()).unwrap();
    w.write_u32(seq).unwrap();
    w.write(payload).unwrap();
    let body = w.into_inner();
    let mut buf = Vec::new();
    write_descriptor(
        &mut buf,
        &Descriptor {
            length: body.len() as u32,
            channel: u32::MAX,
            offset: 0,
            flags: DescriptorFlags::empty(),
        },
    )
    .unwrap();
    buf.extend_from_slice(&body);
    buf
}

#[test]
fn descriptor_roundtrip() {
    let d = Descriptor {
        length: 0x01020304,
        channel: 7,
        offset: 0x1122334455667788,
        flags: DescriptorFlags::from_bits_truncate(0xffff_ffff),
    };
    assert_eq!(d.flags.bits(), DescriptorFlags::FLAG_SHMREVOKE);
    let mut buf = Vec::new();
    write_descriptor(&mut buf, &d).unwrap();
    assert_eq!(buf.len(), DESCRIPTOR_SIZE);
    assert_eq!(&buf[..4], &[1, 2, 3, 4]);
    buf.push(0xAA);
    assert_eq!(read_descriptor(&buf).unwrap(), d);
    assert_eq!(
        read_descriptor(&buf[..19]),
        Err(ProtocolError::Io(IoErrorKind::UnexpectedEof))
    );
}

#[test]
fn descriptor_drops_unknown_flags() {
    let mut buf = vec![0u8; 16];
    buf.extend_from_slice(&[0x7f, 0xff, 0xff, 0xff]);
    assert_eq!(read_descriptor(&buf).unwrap().flags.bits(), DescriptorFlags::FLAG_SHMRELEASE);
}

#[test]
fn command_message_bytes() {
    let buf = message(&Command::GetSinkInfoList, 3);
    assert_eq!(
        buf,
        vec![
            0, 0, 0, 10, 0xff, 0xff, 0xff, 0xff, 0, 0, 0, 0, 0, 0, 0, 0, 0, 0, 0, 0, 0x4C, 0, 0, 0,
            22, 0x4C, 0, 0, 0, 3
        ]
    );
}

#[test]
fn command_roundtrip() {
    let mut props = Props::new();
    props.set(Prop::ApplicationName, &CString::new(b"test").unwrap());
    let commands = vec![
        Command::Auth(AuthParams {
            version: 32,
            supports_shm: false,
            supports_memfd: true,
            cookie: vec![0; 256],
        }),
        Command::SetClientName(props),
        Command::DeletePlaybackStream(4),
        Command::LookupSink(CString::new(b"sink").unwrap()),
        Command::Subscribe(SubscriptionMask::all()),
        Command::Stat,
        Command::Reply,
        Command::Exit,
    ];
    for (seq, c) in commands.into_iter().enumerate() {
        let buf = message(&c, seq as u32);
        let desc = read_descriptor(&buf).unwrap();
        assert_eq!(desc.length as usize, buf.len() - DESCRIPTOR_SIZE);
        let (seq2, c2) = Command::read_tag_prefixed(&buf[DESCRIPTOR_SIZE..], PROTOCOL_VERSION).unwrap();
        assert_eq!(seq2, seq as u32);
        assert_eq!(c2, c);
        assert_eq!(c2.tag(), c.tag());
    }
}

#[test]
fn error_and_timeout_are_read_as_errors() {
    let buf = message(&Command::Error(PulseError::NoEntity), 9);
    assert_eq!(
        Command::read_tag_prefixed(&buf[DESCRIPTOR_SIZE..], PROTOCOL_VERSION),
        Err(ProtocolError::ServerError(PulseError::NoEntity))
    );
    assert_eq!(read_ack_message(&buf), Err(ProtocolError::ServerError(PulseError::NoEntity)));

    let buf = message(&Command::Timeout, 9);
    assert_eq!(
        Command::read_tag_prefixed(&buf[DESCRIPTOR_SIZE..], PROTOCOL_VERSION),
        Err(ProtocolError::Timeout)
    );
}

#[test]
fn unimplemented_commands_are_refused() {
    let mut w = TagStructWriter::new(Vec::new(), PROTOCOL_VERSION);
    w.write_u32(CommandTag::EnableSrbchannel.to_u32()).unwrap();
    w.write_u32(1).unwrap();
    let buf = w.into_inner();
    assert_eq!(
        Command::read_tag_prefixed(&buf, PROTOCOL_VERSION),
        Err(ProtocolError::Unimplemented(1, CommandTag::EnableSrbchannel))
    );
}

#[test]
fn unknown_command_tag_is_refused() {
    let mut w = TagStructWriter::new(Vec::new(), PROTOCOL_VERSION);
    w.write_u32(53).unwrap();
    w.write_u32(1).unwrap();
    let buf = w.into_inner();
    assert!(matches!(
        Command::read_tag_prefixed(&buf, PROTOCOL_VERSION),
        Err(ProtocolError::Invalid(_))
    ));
    assert_eq!(CommandTag::from_u32(52), Some(CommandTag::UnloadModule));
    assert_eq!(CommandTag::from_u32(53), None);
    assert_eq!(CommandTag::SendObjectMessage.to_u32(), 104);
}

#[test]
fn reply_messages() {
    let info = StatInfo {
        memblock_total: 1,
        memblock_total_size: 2,
        memblock_allocated: 3,
        memblock_allocated_size: 4,
        sample_cache_size: 5,
    };
    let buf = reply_message(7, &info);
    assert_eq!(read_reply_message::<StatInfo>(&buf).unwrap(), (7, info));
    assert_eq!(read_ack_message(&buf).unwrap(), 7);

    // A request is no reply.
    let buf = message(&Command::Stat, 7);
    assert!(matches!(read_ack_message(&buf), Err(ProtocolError::Invalid(_))));
    assert!(matches!(
        read_reply_message::<LookupReply>(&buf),
        Err(ProtocolError::Invalid(_))
    ));
}

#[test]
fn subscription_event_message() {
    let ev = SubscriptionEvent {
        event_facility: SubscriptionEventFacility::SinkInput,
        event_type: SubscriptionEventType::Changed,
        index: Some(12),
    };
    let buf = message(&Command::SubscribeEvent(ev), 0xffff_ffff);
    assert_eq!(read_subscription_event(&buf).unwrap(), (0xffff_ffff, ev));
    let buf = message(&Command::Stat, 1);
    assert!(matches!(read_subscription_event(&buf), Err(ProtocolError::Invalid(_))));
}

#[test]
fn roundtrip_blocking_checks_the_sequence_number() {
    let buf = reply_message(5, &SetClientNameReply { client_id: 42 });
    assert_eq!(
        roundtrip_blocking::<SetClientNameReply>(&buf, 5).unwrap(),
        SetClientNameReply { client_id: 42 }
    );
    assert_eq!(
        roundtrip_blocking::<SetClientNameReply>(&buf, 6),
        Err(ClientError::UnexpectedSequenceNumber)
    );
    let err = message(&Command::Error(PulseError::AccessDenied), 5);
    assert_eq!(
        roundtrip_blocking::<SetClientNameReply>(&err, 5),
        Err(ClientError::Protocol(ProtocolError::ServerError(PulseError::AccessDenied)))
    );
}

#[test]
fn truncated_payload_is_refused() {
    let buf = message(&Command::DeletePlaybackStream(4), 1);
    // Cut the last byte of the payload.
    let cut = &buf[..buf.len() - 1];
    assert_eq!(
        Command::read_tag_prefixed(&cut[DESCRIPTOR_SIZE..], MAX_VERSION),
        Err(ProtocolError::Io(IoErrorKind::UnexpectedEof))
    );
}

#[test]
fn malformed_headers_are_invalid() {
    assert!(matches!(
        Command::read_tag_prefixed(&[0x4C, 0, 0, 0, 53, 0x4C, 0, 0, 0, 1], PROTOCOL_VERSION),
        Err(ProtocolError::Invalid(_))
    ));
    assert!(matches!(
        Command::read_tag_prefixed(&[0x42, 0, 0, 0, 2], PROTOCOL_VERSION),
        Err(ProtocolError::Invalid(_))
    ));
    assert_eq!(
        Command::read_tag_prefixed(&[], PROTOCOL_VERSION),
        Err(ProtocolError::Io(IoErrorKind::UnexpectedEof))
    );
}

#[test]
fn reply_header_leaves_the_payload_unread() {
    let buf = [0x4C, 0, 0, 0, 2, 0x4C, 0, 0, 0, 5, 0x4C, 0, 0, 0, 9];
    let mut ts = pulseaudio::protocol::serde::TagStructReader::new(&buf, PROTOCOL_VERSION);
    assert_eq!(Command::read_tag_prefixed_from(&mut ts), Ok((5, Command::Reply)));
    assert_eq!(ts.remaining(), 5);
    assert_eq!(ts.read_u32(), Ok(9));

    let buf = [0x4C, 0, 0, 0, 49, 0x4C, 0, 0, 0, 7, 0x4C, 0, 0, 0, 42];
    let mut ts = pulseaudio::protocol::serde::TagStructReader::new(&buf, PROTOCOL_VERSION);
    assert_eq!(Command::read_tag_prefixed_from(&mut ts), Ok((7, Command::KillSinkInput(42))));
    assert_eq!(ts.remaining(), 0);
}

#[test]
fn create_stream_commands_roundtrip() {
    let spec = SampleSpec {
        format: SampleFormat::S16Le,
        sample_rate: 44100,
        channels: 2,
    };
    let commands = vec![
        Command::CreatePlaybackStream(PlaybackStreamParams {
            sample_spec: spec,
            channel_map: ChannelMap::stereo(),
            sink_index: None,
            sink_name: Some(CString::new(b"@DEFAULT_SINK@").unwrap()),
            buffer_attr: BufferAttr::default(),
            sync_id: 0,
            cvolume: Some(ChannelVolume::default()),
            props: Props::new(),
            formats: Vec::new(),
            flags: StreamFlags {
                start_corked: true,
                start_muted: Some(true),
                ..StreamFlags::default()
            },
        }),
        Command::CreateRecordStream(RecordStreamParams {
            sample_spec: spec,
            channel_map: ChannelMap::stereo(),
            source_index: Some(0),
            source_name: None,
            buffer_attr: BufferAttr::default(),
            flags: StreamFlags::default(),
            direct_on_input: false,
            cvolume: None,
            props: Props::new(),
            formats: Vec::new(),
        }),
    ];
    for (seq, c) in commands.into_iter().enumerate() {
        let buf = message(&c, seq as u32);
        let (seq2, c2) = Command::read_tag_prefixed(&buf[DESCRIPTOR_SIZE..], PROTOCOL_VERSION).unwrap();
        assert_eq!(seq2, seq as u32);
        assert_eq!(c2, c);
    }
    assert_eq!(
        Command::CreatePlaybackStream(PlaybackStreamParams {
            sample_spec: spec,
            channel_map: ChannelMap::stereo(),
            sink_index: None,
            sink_name: None,
            buffer_attr: BufferAttr::default(),
            sync_id: 0,
            cvolume: None,
            props: Props::new(),
            formats: Vec::new(),
            flags: StreamFlags::default(),
        })
        .tag(),
        CommandTag::CreatePlaybackStream
    );
}

#[test]
fn a_command_read_stops_at_its_end() {
    let buf = [
        0x4C, 0, 0, 0, 49, 0x4C, 0, 0, 0, 7, 0x4C, 0, 0, 0, 42, 0x4C, 0, 0, 0, 1,
    ];
    let mut ts = pulseaudio::protocol::serde::TagStructReader::new(&buf, PROTOCOL_VERSION);
    assert_eq!(Command::read_tag_prefixed_from(&mut ts), Ok((7, Command::KillSinkInput(42))));
    assert_eq!(ts.remaining(), 5);
    assert_eq!(ts.read_u32(), Ok(1));
}
