//! Requests about objects that do not exist, answered the way a server
//! answers them. The server's side of each exchange is given as bytes.

use pulseaudio::protocol::command::module_info::{ModuleInfo, ModuleInfoList};
use pulseaudio::protocol::command::move_stream::MoveStreamParams;
use pulseaudio::protocol::command::suspend::SuspendParams;
use pulseaudio::protocol::command::upload_stream::{CreateUploadStreamReply, UploadStreamParams};
use pulseaudio::protocol::serde::channel_map::ChannelMap;
use pulseaudio::protocol::serde::sample_spec::{SampleFormat, SampleSpec};
use pulseaudio::protocol::command::update_stream::{UpdatePropsParams, UpdateSampleRateParams};
use pulseaudio::protocol::command::volume::{
    SetDeviceMuteParams, SetDeviceVolumeParams, SetStreamMuteParams, SetStreamVolumeParams,
};
use pulseaudio::protocol::command::{Command, CommandTag};
use pulseaudio::protocol::error::{ProtocolError, PulseError};
use pulseaudio::protocol::serde::cstr::CString;
use pulseaudio::protocol::serde::props::{Props, PropsUpdateMode};
use pulseaudio::protocol::serde::volume::ChannelVolume;
use pulseaudio::protocol::serde::{TagStructWrite, TagStructWriter};
use pulseaudio::protocol::{
    encode_command_message, read_ack_message, read_reply_message, write_descriptor, Descriptor,
    DescriptorFlags, DESCRIPTOR_SIZE, PROTOCOL_VERSION,
};

/// Encodes a request and checks that it reads back as the same command.
fn send(command: &Command, seq: u32) {
    let mut buf = Vec::new();
    let n = encode_command_message(command, seq, &mut buf, PROTOCOL_VERSION).unwrap();
    assert_eq!(n, buf.len());
    let (seq2, back) = Command::read_tag_prefixed(&buf[DESCRIPTOR_SIZE..], PROTOCOL_VERSION).unwrap();
    assert_eq!(seq2, seq);
    assert_eq!(&back, command);
}

/// The server's error answer to the request with sequence number `seq`.
fn server_error(seq: u32, error: PulseError) -> Vec<u8> {
    let mut buf = Vec::new();
    encode_command_message(&Command::Error(error), seq, &mut buf, PROTOCOL_VERSION).unwrap();
    buf
}

/// The server's reply, carrying `payload`, to the request with sequence
/// number `seq`.
fn server_reply<T: TagStructWrite>(seq: u32, payload: &T) -> Vec<u8> {
    let mut w = TagStructWriter::new(Vec::new(), PROTOCOL_VERSION);
    w.write_u32(CommandTag::Reply.to_u32()).unwrap();
    w.write_u32(seq).unwrap();
    w.write(payload).unwrap();
    let body = w.into_inner();
    let mut buf = Vec::new();
    write_descriptor(
        &mut buf,
        &Descriptor {
            length: body.len() as u32,
            channel: u32::MAX,
            offset: 0,
            flags: DescriptorFlags::empty(),
        },
    )
    .unwrap();
    buf.extend_from_slice(&body);
    buf
}

fn expect_no_entity(command: Command) {
    send(&command, 0);
    let resp = read_ack_message(&server_error(0, PulseError::NoEntity));
    assert!(matches!(resp, Err(ProtocolError::ServerError(PulseError::NoEntity))));
}

#[test]
fn test_move_stream() {
    expect_no_entity(Command::MoveSinkInput(MoveStreamParams {
        index: Some(999),
        device_index: Some(999),
        device_name: None,
    }));
}

#[test]
fn test_suspend() {
    expect_no_entity(Command::SuspendSink(SuspendParams {
        device_index: Some(999),
        device_name: None,
        suspend: true,
    }));
}

#[test]
fn test_update_stream_props() {
    expect_no_entity(Command::UpdatePlaybackStreamProplist(UpdatePropsParams {
        index: 999,
        mode: PropsUpdateMode::SetAll,
        props: Props::new(),
    }));
}

#[test]
fn test_update_stream_sample_rate() {
    expect_no_entity(Command::UpdatePlaybackStreamSampleRate(UpdateSampleRateParams {
        index: 999,
        sample_rate: 44100,
    }));
}

#[test]
fn test_set_device_volume() {
    expect_no_entity(Command::SetSinkVolume(SetDeviceVolumeParams {
        device_index: Some(999),
        device_name: None,
        volume: ChannelVolume::default(),
    }));
}

#[test]
fn test_set_stream_volume() {
    expect_no_entity(Command::SetSinkInputVolume(SetStreamVolumeParams {
        index: 999,
        volume: ChannelVolume::default(),
    }));
}

#[test]
fn test_set_device_mute() {
    expect_no_entity(Command::SetSinkMute(SetDeviceMuteParams {
        device_index: Some(999),
        device_name: None,
        mute: false,
    }));
}

#[test]
fn test_set_stream_mute() {
    expect_no_entity(Command::SetSinkInputMute(SetStreamMuteParams {
        index: 999,
        mute: false,
    }));
}

#[test]
fn module_info_list_modules() {
    let module = ModuleInfo {
        index: 4,
        name: CString::new(b"module-native-protocol-unix").unwrap(),
        argument: None,
        n_used: None,
        auto_unload: false,
        props: Props::new(),
    };
    let listed: ModuleInfoList = vec![module.clone()];

    send(&Command::GetModuleInfoList, 0);
    let (seq, info_list) = read_reply_message::<ModuleInfoList>(&server_reply(0, &listed)).unwrap();
    assert_eq!(seq, 0);
    assert!(!info_list.is_empty());

    send(&Command::GetModuleInfo(info_list[0].index), 1);
    let (seq, info) = read_reply_message::<ModuleInfo>(&server_reply(1, &module)).unwrap();
    assert_eq!(seq, 1);
    assert_eq!(info, info_list[0]);
}

#[test]
fn create_upload_stream() {
    send(
        &Command::CreateUploadStream(UploadStreamParams {
            media_name: Some(CString::new(b"media_name").unwrap()),
            sample_spec: SampleSpec {
                format: SampleFormat::S16Le,
                sample_rate: 44100,
                channels: 2,
            },
            channel_map: ChannelMap::stereo(),
            length: 1024,
            props: Props::new(),
        }),
        0,
    );
    let reply = CreateUploadStreamReply {
        channel: 0,
        length: 1024,
    };
    let (_, reply) = read_reply_message::<CreateUploadStreamReply>(&server_reply(0, &reply)).unwrap();
    assert_eq!(reply.length, 1024);
}
