use std::fmt::Debug;

use pulseaudio::protocol::command::auth::{AuthParams, AuthReply};
use pulseaudio::protocol::command::client_event::ClientEvent;
use pulseaudio::protocol::command::client_info::{ClientInfo, ClientInfoList};
use pulseaudio::protocol::command::module_info::ModuleInfo;
use pulseaudio::protocol::command::extension::ExtensionParams;
use pulseaudio::protocol::command::load_module::LoadModuleParams;
use pulseaudio::protocol::command::lookup::LookupReply;
use pulseaudio::protocol::command::move_stream::MoveStreamParams;
use pulseaudio::protocol::command::sample::PlaySampleParams;
use pulseaudio::protocol::command::set_card_profile::SetCardProfileParams;
use pulseaudio::protocol::command::set_client_name::SetClientNameReply;
use pulseaudio::protocol::command::set_port::SetPortParams;
use pulseaudio::protocol::command::set_port_latency_offset::SetPortLatencyOffsetParams;
use pulseaudio::protocol::command::stat::StatInfo;
use pulseaudio::protocol::command::stream_events::{
    GenericStreamEvent, PlaybackBufferAttrChanged, PlaybackStreamMovedParams,
    RecordBufferAttrChanged, RecordStreamMovedParams, Request, StreamSuspendedParams, Underflow,
};
use pulseaudio::protocol::command::subscribe::{
    SubscriptionEvent, SubscriptionEventFacility, SubscriptionEventType, SubscriptionMask,
};
use pulseaudio::protocol::command::suspend::SuspendParams;
use pulseaudio::protocol::command::timing_info::{PlaybackLatency, RecordLatency};
use pulseaudio::protocol::command::update_client::UpdateClientProplistParams;
use pulseaudio::protocol::command::update_stream::{
    SetPlaybackStreamBufferAttrParams, SetStreamNameParams, UpdatePropsParams,
    UpdateSampleRateParams,
};
use pulseaudio::protocol::command::upload_stream::{CreateUploadStreamReply, UploadStreamParams};
use pulseaudio::protocol::command::playback_stream::{CreatePlaybackStreamReply, PlaybackStreamParams};
use pulseaudio::protocol::command::record_stream::{CreateRecordStreamReply, RecordStreamParams};
use pulseaudio::protocol::command::sample_info::{SampleInfo, SampleInfoList};
use pulseaudio::protocol::command::server_info::ServerInfo;
use pulseaudio::protocol::command::sink_input_info::{SinkInputInfo, SinkInputInfoList};
use pulseaudio::protocol::command::source_output_info::{SourceOutputInfo, SourceOutputInfoList};
use pulseaudio::protocol::serde::channel_map::{ChannelMap, ChannelPosition};
use pulseaudio::protocol::serde::sample_spec::{SampleFormat, SampleSpec};
use pulseaudio::protocol::serde::format_info::{FormatEncoding, FormatInfo};
use pulseaudio::protocol::command::volume::{
    SetDeviceMuteParams, SetDeviceVolumeParams, SetStreamMuteParams, SetStreamVolumeParams,
};
use pulseaudio::protocol::error::ProtocolError;
use pulseaudio::protocol::serde::cstr::CString;
use pulseaudio::protocol::serde::props::{Prop, Props, PropsUpdateMode};
use pulseaudio::protocol::serde::volume::ChannelVolume;
use pulseaudio::protocol::serde::{TagStructRead, TagStructReader, TagStructWrite, TagStructWriter, Timestamp};
use pulseaudio::protocol::stream::{BufferAttr, StreamFlags};
use pulseaudio::protocol::{MAX_VERSION, MIN_VERSION};

/// Tests that a given version of the protocol can roundtrip the given tagstruct.
fn test_serde_version<T>(v: &T, version: u16) -> Result<(), ProtocolError>
where
    T: TagStructRead + TagStructWrite + PartialEq + Debug,
{
    let mut ts = TagStructWriter::new(Vec::new(), version);
    ts.write(v)?;
    let buf = ts.into_inner();

    let mut ts = TagStructReader::new(&buf, version);
    let v2 = T::read(&mut ts, version)?;

    assert_eq!(v, &v2, "roundtrip failed for protocol version {}", version);
    Ok(())
}

/// Tests that each version of the protocol can roundtrip the given tagstruct.
fn test_serde<T>(v: &T) -> Result<(), ProtocolError>
where
    T: TagStructRead + TagStructWrite + PartialEq + Debug,
{
    for version in MIN_VERSION..MAX_VERSION {
        test_serde_version(v, version)?;
    }
    Ok(())
}

fn cstr(s: &str) -> CString {
    CString::new(s.as_bytes()).unwrap()
}

#[test]
fn auth_serde() {
    let auth = AuthParams {
        version: 13,
        supports_shm: true,
        supports_memfd: false,
        cookie: vec![1, 2, 3, 4],
    };

    test_serde(&auth).expect("roundtrip auth");
}

#[test]
fn test_load_module_params_serde() -> Result<(), ProtocolError> {
    let params = LoadModuleParams {
        name: cstr("name"),
        arguments: Some(cstr("args")),
    };

    test_serde(&params)
}

#[test]
fn test_lookup_reply_serde() -> Result<(), ProtocolError> {
    let reply = LookupReply(0);
    test_serde(&reply)
}

#[test]
fn test_move_stream_params_serde() -> Result<(), ProtocolError> {
    let params = MoveStreamParams {
        index: Some(0),
        device_index: Some(1),
        device_name: Some(cstr("device")),
    };

    test_serde(&params)
}

#[test]
fn playback_stream_events_request_serde() -> Result<(), ProtocolError> {
    let ev = Request {
        channel: 1,
        length: 2,
    };

    test_serde_version(&ev, MAX_VERSION)
}

#[test]
fn playback_stream_events_underflow_serde() -> Result<(), ProtocolError> {
    let ev = Underflow {
        channel: 1,
        offset: 0,
    };

    test_serde(&ev)
}

#[test]
fn playback_stream_events_playback_buffer_attr_changed_serde() -> Result<(), ProtocolError> {
    let ev = PlaybackBufferAttrChanged {
        stream_index: 1,
        buffer_attr: Default::default(),
        sink_input_latency: 2,
    };

    test_serde_version(&ev, MAX_VERSION)
}

#[test]
fn test_set_client_name_reply_serde() -> Result<(), ProtocolError> {
    let reply = SetClientNameReply { client_id: 0 };
    test_serde(&reply)
}

#[test]
fn stat_serde() -> Result<(), ProtocolError> {
    let info = StatInfo {
        memblock_total: 1,
        memblock_total_size: 2,
        memblock_allocated: 3,
        memblock_allocated_size: 4,
        sample_cache_size: 5,
    };

    test_serde(&info)
}

#[test]
fn stream_events_request_serde() -> Result<(), ProtocolError> {
    let ev = Request {
        channel: 1,
        length: 2,
    };

    test_serde_version(&ev, MAX_VERSION)
}

#[test]
fn stream_events_underflow_serde() -> Result<(), ProtocolError> {
    let ev = Underflow {
        channel: 1,
        offset: 0,
    };

    test_serde(&ev)
}

#[test]
fn stream_events_playback_buffer_attr_changed_serde() -> Result<(), ProtocolError> {
    let ev = PlaybackBufferAttrChanged {
        stream_index: 1,
        buffer_attr: Default::default(),
        sink_input_latency: 2,
    };

    test_serde_version(&ev, MAX_VERSION)
}

#[test]
fn record_buffer_attr_changed_serde() -> Result<(), ProtocolError> {
    let ev = RecordBufferAttrChanged {
        stream_index: 1,
        buffer_attr: Default::default(),
        source_output_latency: 2,
    };

    test_serde_version(&ev, MAX_VERSION)
}

#[test]
fn playback_stream_moved_params_serde() -> Result<(), ProtocolError> {
    let ev = PlaybackStreamMovedParams {
        stream_index: 1,
        device_index: 2,
        device_name: cstr("foo"),
        device_suspended: false,
        buffer_attr: Default::default(),
        configured_sink_latency: 3000,
    };

    test_serde_version(&ev, MAX_VERSION)
}

#[test]
fn record_stream_moved_params_serde() -> Result<(), ProtocolError> {
    let ev = RecordStreamMovedParams {
        stream_index: 1,
        device_index: 2,
        device_name: cstr("foo"),
        device_suspended: false,
        buffer_attr: Default::default(),
        configured_source_latency: 3000,
    };

    test_serde_version(&ev, MAX_VERSION)
}

#[test]
fn test_stream_suspended_params_serde() -> Result<(), ProtocolError> {
    let params = StreamSuspendedParams {
        stream_index: 0,
        suspended: true,
    };

    test_serde(&params)
}

#[test]
fn test_generic_stream_event_serde() -> Result<(), ProtocolError> {
    let params = GenericStreamEvent {
        stream_index: 0,
        event_name: cstr("event"),
        event_properties: Props::new(),
    };

    test_serde(&params)
}

#[test]
fn subscription_mask_serde() -> Result<(), ProtocolError> {
    let mask = SubscriptionMask::from_bits_truncate(SubscriptionMask::SINK | SubscriptionMask::SOURCE);
    test_serde_version(&mask, MAX_VERSION)
}

#[test]
fn subscription_event_serde() -> Result<(), ProtocolError> {
    let event = SubscriptionEvent {
        event_facility: SubscriptionEventFacility::Sink,
        event_type: SubscriptionEventType::New,
        index: Some(1),
    };

    test_serde_version(&event, MAX_VERSION)
}

#[test]
fn playback_timing_info_serde() -> Result<(), ProtocolError> {
    let timing_info = PlaybackLatency {
        sink_usec: 1,
        source_usec: 2,
        playing: true,
        local_time: Timestamp::unix_epoch(),
        remote_time: Timestamp::unix_epoch(),
        write_offset: 3,
        read_offset: 4,
        underrun_for: 5,
        playing_for: 6,
    };

    test_serde_version(&timing_info, MAX_VERSION)
}

#[test]
fn record_timing_info_serde() -> Result<(), ProtocolError> {
    let timing_info = RecordLatency {
        sink_usec: 1,
        source_usec: 2,
        playing: true,
        local_time: Timestamp::unix_epoch(),
        remote_time: Timestamp::unix_epoch(),
        write_offset: 3,
        read_offset: 4,
    };

    test_serde_version(&timing_info, MAX_VERSION)
}

#[test]
fn test_update_client_props_params_serde() -> Result<(), ProtocolError> {
    let params = UpdateClientProplistParams {
        mode: PropsUpdateMode::Merge,
        props: Props::new(),
    };

    test_serde(&params)
}

#[test]
fn test_set_stream_name_params_serde() -> Result<(), ProtocolError> {
    let params = SetStreamNameParams {
        index: 0,
        name: cstr("name"),
    };

    test_serde(&params)
}

#[test]
fn test_update_props_params_serde() -> Result<(), ProtocolError> {
    let params = UpdatePropsParams {
        index: 0,
        mode: PropsUpdateMode::SetAll,
        props: Props::new(),
    };

    test_serde(&params)
}

#[test]
fn test_update_sample_rate_params_serde() -> Result<(), ProtocolError> {
    let params = UpdateSampleRateParams {
        index: 0,
        sample_rate: 1234,
    };

    test_serde(&params)
}

#[test]
fn upload_stream_reply_serde() -> Result<(), ProtocolError> {
    let reply = CreateUploadStreamReply {
        channel: 0,
        length: 1024,
    };

    test_serde(&reply)
}

#[test]
fn test_set_device_volume_params_serde() -> Result<(), ProtocolError> {
    let params = SetDeviceVolumeParams {
        device_index: None,
        device_name: Some(cstr("device")),
        volume: ChannelVolume::default(),
    };

    test_serde(&params)
}

#[test]
fn test_set_volume_params_serde() -> Result<(), ProtocolError> {
    let params = SetStreamVolumeParams {
        index: 1,
        volume: ChannelVolume::default(),
    };

    test_serde(&params)
}

#[test]
fn test_set_device_mute_params_serde() -> Result<(), ProtocolError> {
    let params = SetDeviceMuteParams {
        device_index: None,
        device_name: Some(cstr("device")),
        mute: false,
    };

    test_serde(&params)
}

#[test]
fn test_set_mute_params_serde() -> Result<(), ProtocolError> {
    let params = SetStreamMuteParams {
        index: 1,
        mute: false,
    };

    test_serde(&params)
}

#[test]
fn test_set_port_params_serde() -> Result<(), ProtocolError> {
    let params = SetPortParams {
        index: None,
        name: Some(cstr("device")),
        port_name: cstr("port"),
    };

    test_serde(&params)
}

#[test]
fn test_set_card_profile_params_serde() -> Result<(), ProtocolError> {
    let params = SetCardProfileParams {
        card_index: None,
        card_name: Some(cstr("card")),
        profile_name: cstr("profile"),
    };

    test_serde(&params)
}

#[test]
fn test_suspend_params_serde() -> Result<(), ProtocolError> {
    let params = SuspendParams {
        device_index: None,
        device_name: Some(cstr("device")),
        suspend: true,
    };

    test_serde(&params)
}

#[test]
fn test_set_port_latency_offset_params_serde() -> Result<(), ProtocolError> {
    let params = SetPortLatencyOffsetParams {
        index: None,
        name: Some(cstr("name")),
        port_name: cstr("port"),
        offset: 0,
    };

    test_serde(&params)
}

#[test]
fn test_extension_params_serde() -> Result<(), ProtocolError> {
    let params = ExtensionParams {
        index: None,
        name: Some(cstr("name")),
    };

    test_serde(&params)
}

#[test]
fn test_play_sample_params_serde() -> Result<(), ProtocolError> {
    let params = PlaySampleParams {
        sink_index: None,
        sink_name: Some(cstr("sink")),
        volume: 0,
        name: cstr("name"),
        props: Props::new(),
    };

    test_serde(&params)
}

// ---------------------------------------------------------------------------

#[test]
fn auth_reply_serde_and_bits() {
    let reply = AuthReply {
        version: 32,
        use_memfd: true,
        use_shm: false,
    };
    test_serde(&reply).unwrap();

    let mut w = TagStructWriter::new(Vec::new(), MAX_VERSION);
    w.write(&reply).unwrap();
    // 'L' and the big-endian word: version 32 with the memfd bit.
    assert_eq!(w.into_inner(), vec![0x4C, 0x40, 0x00, 0x00, 0x20]);
}

#[test]
fn auth_params_ignore_unknown_bits() {
    // A word with a stray bit (0x00010000) beside version 13 and the shm bit.
    let buf = vec![0x4C, 0x80, 0x01, 0x00, 0x0D, 0x78, 0, 0, 0, 1, 9];
    let mut r = TagStructReader::new(&buf, MAX_VERSION);
    let auth = AuthParams::read(&mut r, MAX_VERSION).unwrap();
    assert_eq!(
        auth,
        AuthParams {
            version: 13,
            supports_shm: true,
            supports_memfd: false,
            cookie: vec![9],
        }
    );
}

#[test]
fn underflow_offset_depends_on_version() {
    let ev = Underflow {
        channel: 7,
        offset: -5,
    };
    let mut w = TagStructWriter::new(Vec::new(), 22);
    w.write(&ev).unwrap();
    assert_eq!(w.len(), 5);
    let mut w = TagStructWriter::new(Vec::new(), 23);
    w.write(&ev).unwrap();
    assert_eq!(w.len(), 14);
    test_serde_version(&ev, 23).unwrap();

    let buf = vec![0x4C, 0, 0, 0, 7];
    let mut r = TagStructReader::new(&buf, 22);
    assert_eq!(
        Underflow::read(&mut r, 22).unwrap(),
        Underflow {
            channel: 7,
            offset: 0
        }
    );
}

#[test]
fn early_requests_roundtrip_from_version_14() {
    let params = SetPlaybackStreamBufferAttrParams {
        index: 3,
        buffer_attr: BufferAttr {
            max_length: 1,
            target_length: 2,
            pre_buffering: 3,
            minimum_request_length: 4,
            fragment_size: 0,
        },
        adjust_latency: true,
        early_requests: true,
    };
    test_serde_version(&params, 14).unwrap();
    test_serde_version(&params, MAX_VERSION).unwrap();
}

#[test]
fn invalid_stream_index_is_refused() {
    // PA_INVALID_INDEX where a stream index is required.
    let buf = vec![0x4C, 0xff, 0xff, 0xff, 0xff, 0x31];
    let mut r = TagStructReader::new(&buf, MAX_VERSION);
    let res = StreamSuspendedParams::read(&mut r, MAX_VERSION);
    assert!(matches!(res, Err(ProtocolError::Invalid(_))));
}

#[test]
fn invalid_subscription_event_is_refused() {
    // Facility 10 does not exist.
    let buf = vec![0x4C, 0, 0, 0, 0x0A, 0x4C, 0, 0, 0, 1];
    let mut r = TagStructReader::new(&buf, MAX_VERSION);
    assert!(matches!(
        SubscriptionEvent::read(&mut r, MAX_VERSION),
        Err(ProtocolError::Invalid(_))
    ));
    // Event type 0x10 does not exist.
    let buf = vec![0x4C, 0, 0, 0, 0x12, 0x4C, 0, 0, 0, 1];
    let mut r = TagStructReader::new(&buf, MAX_VERSION);
    assert!(matches!(
        SubscriptionEvent::read(&mut r, MAX_VERSION),
        Err(ProtocolError::Invalid(_))
    ));
    // Removed card 5, with stray high bits.
    let buf = vec![0x4C, 0x10, 0, 0, 0x39, 0x4C, 0, 0, 0, 5];
    let mut r = TagStructReader::new(&buf, MAX_VERSION);
    assert_eq!(
        SubscriptionEvent::read(&mut r, MAX_VERSION).unwrap(),
        SubscriptionEvent {
            event_facility: SubscriptionEventFacility::Card,
            event_type: SubscriptionEventType::Removed,
            index: Some(5),
        }
    );
}

#[test]
fn subscription_mask_drops_unknown_bits() {
    let mask = SubscriptionMask::from_bits_truncate(0xffff_ffff);
    assert_eq!(mask.bits(), SubscriptionMask::ALL);
    assert!(mask.contains(SubscriptionMask::from_bits_truncate(SubscriptionMask::CARD)));
    let buf = vec![0x4C, 0xff, 0xff, 0xff, 0xff];
    let mut r = TagStructReader::new(&buf, MAX_VERSION);
    assert_eq!(SubscriptionMask::read(&mut r, MAX_VERSION).unwrap(), SubscriptionMask::all());
}

#[test]
fn client_event_with_props_roundtrip() {
    let mut props = Props::new();
    props.set_raw(cstr("event.id"), vec![1, 2, 3]);
    let ev = ClientEvent {
        name: cstr("bell"),
        props,
    };
    test_serde(&ev).unwrap();
}

#[test]
fn set_device_volume_with_channels_roundtrip() {
    let params = SetDeviceVolumeParams {
        device_index: Some(4),
        device_name: None,
        volume: ChannelVolume::norm(2),
    };
    test_serde(&params).unwrap();
}

#[test]
fn client_info_serde() -> Result<(), ProtocolError> {
    let client_info = ClientInfo {
        index: 0,
        name: cstr("test"),
        owner_module_index: None,
        driver: None,
        props: Props::new(),
    };

    test_serde(&client_info)
}

#[test]
fn module_info_list_serde() -> Result<(), ProtocolError> {
    let modules = vec![
        ModuleInfo {
            index: 0,
            name: cstr("test"),
            argument: None,
            n_used: None,
            auto_unload: false,
            props: Props::new(),
        },
        ModuleInfo {
            index: 1,
            name: cstr("test2"),
            argument: None,
            n_used: None,
            auto_unload: false,
            props: Props::new(),
        },
    ];

    test_serde(&modules)
}

#[test]
fn module_info_auto_unload_before_version_15() {
    let module = ModuleInfo {
        index: 2,
        name: cstr("module-null-sink"),
        argument: Some(cstr("sink_name=x")),
        n_used: Some(1),
        auto_unload: true,
        props: Props::new(),
    };
    test_serde_version(&module, 14).unwrap();
    let mut w = TagStructWriter::new(Vec::new(), 15);
    w.write(&module).unwrap();
    let buf = w.into_inner();
    let mut r = TagStructReader::new(&buf, 15);
    let read = ModuleInfo::read(&mut r, 15).unwrap();
    assert!(!read.auto_unload);
}

#[test]
fn empty_list_reads_as_empty() {
    let buf: Vec<u8> = Vec::new();
    let mut r = TagStructReader::new(&buf, MAX_VERSION);
    assert_eq!(ClientInfoList::read(&mut r, MAX_VERSION).unwrap(), Vec::new());
}

#[test]
fn subscription_event_unknown_facility_is_invalid() {
    let buf = [0x4C, 0, 0, 0, 0x0A, 0x4C, 0, 0, 0, 1];
    let mut r = TagStructReader::new(&buf, MAX_VERSION);
    assert!(matches!(
        SubscriptionEvent::read(&mut r, MAX_VERSION),
        Err(ProtocolError::Invalid(_))
    ));
}

#[test]
fn upload_stream_params_serde() {
    let params = UploadStreamParams {
        media_name: Some(cstr("media_name")),
        sample_spec: SampleSpec {
            format: SampleFormat::S16Le,
            sample_rate: 44100,
            channels: 2,
        },
        channel_map: ChannelMap::stereo(),
        length: 1024,
        props: Props::new(),
    };

    test_serde(&params).unwrap();
}

#[test]
fn sample_spec_and_channel_map_bytes() {
    let mut w = TagStructWriter::new(Vec::new(), MAX_VERSION);
    w.write(&SampleSpec {
        format: SampleFormat::S16Le,
        channels: 2,
        sample_rate: 44100,
    })
    .unwrap();
    w.write(&ChannelMap::stereo()).unwrap();
    let buf = w.into_inner();
    assert_eq!(buf, vec![0x61, 3, 2, 0, 0, 0xAC, 0x44, 0x6D, 2, 1, 2]);

    let mut map = ChannelMap::new();
    assert!(map.push(ChannelPosition::Lfe));
    assert_eq!(map.get(0), Some(ChannelPosition::Lfe));
    assert_eq!(map.len(), 1);

    // A format code that names no format, and a position code that names
    // no position, are refused.
    let mut r = TagStructReader::new(&[0x61, 13, 2, 0, 0, 0xAC, 0x44], MAX_VERSION);
    assert!(matches!(SampleSpec::read(&mut r, MAX_VERSION), Err(ProtocolError::Invalid(_))));
    let mut r = TagStructReader::new(&[0x6D, 1, 51], MAX_VERSION);
    assert!(matches!(ChannelMap::read(&mut r, MAX_VERSION), Err(ProtocolError::Invalid(_))));
}

#[test]
fn format_info_serde() {
    let mut format = FormatInfo::new(FormatEncoding::Pcm);
    format.props.set(Prop::MediaName, &cstr("x"));
    test_serde(&format).unwrap();

    let mut w = TagStructWriter::new(Vec::new(), MAX_VERSION);
    w.write(&FormatInfo::new(FormatEncoding::Ac3Iec61937)).unwrap();
    assert_eq!(w.into_inner(), vec![0x66, 0x42, 2, 0x50, 0x4E]);

    let mut r = TagStructReader::new(&[0x66, 0x42, 9, 0x50, 0x4E], MAX_VERSION);
    assert!(matches!(FormatInfo::read(&mut r, MAX_VERSION), Err(ProtocolError::Invalid(_))));
}

fn default_spec() -> SampleSpec {
    SampleSpec {
        format: SampleFormat::S16Le,
        channels: 2,
        sample_rate: 44100,
    }
}

#[test]
fn playback_stream_reply_serde() {
    let reply = CreatePlaybackStreamReply {
        channel: 0,
        stream_index: 1,
        requested_bytes: 0,
        buffer_attr: BufferAttr::default(),
        sample_spec: default_spec(),
        channel_map: ChannelMap::stereo(),
        sink_index: 2,
        sink_name: None,
        suspended: false,
        stream_latency: 0,
        format: FormatInfo::new(FormatEncoding::Any),
    };

    test_serde(&reply).unwrap();
}

#[test]
fn record_stream_reply_serde() {
    let reply = CreateRecordStreamReply {
        channel_index: 0,
        stream_index: 1,
        buffer_attr: BufferAttr::default(),
        sample_spec: default_spec(),
        channel_map: ChannelMap::stereo(),
        sink_index: 2,
        sink_name: None,
        suspended: false,
        stream_latency: 0,
        format: FormatInfo::new(FormatEncoding::Any),
    };

    test_serde(&reply).unwrap();
}

#[test]
fn stream_reply_format_follows_the_version() {
    let reply = CreateRecordStreamReply {
        channel_index: 3,
        stream_index: 4,
        buffer_attr: BufferAttr::default(),
        sample_spec: default_spec(),
        channel_map: ChannelMap::mono(),
        sink_index: 5,
        sink_name: Some(cstr("source")),
        suspended: true,
        stream_latency: 1000,
        format: FormatInfo::new(FormatEncoding::Pcm),
    };
    let mut w = TagStructWriter::new(Vec::new(), 20);
    w.write(&reply).unwrap();
    let old = w.into_inner();
    let mut w = TagStructWriter::new(Vec::new(), 21);
    w.write(&reply).unwrap();
    let new = w.into_inner();
    assert_eq!(new.len(), old.len() + 5);
    let mut r = TagStructReader::new(&old, 20);
    let back = CreateRecordStreamReply::read(&mut r, 20).unwrap();
    assert_eq!(back.format, FormatInfo::new(FormatEncoding::Any));
    assert_eq!(back.stream_latency, 1000);
}

fn stereo_s16() -> SampleSpec {
    SampleSpec {
        format: SampleFormat::S16Le,
        sample_rate: 44100,
        channels: 2,
    }
}

#[test]
fn playback_stream_params_serde() -> Result<(), ProtocolError> {
    let params = PlaybackStreamParams {
        sample_spec: stereo_s16(),
        channel_map: ChannelMap::stereo(),
        cvolume: Some(ChannelVolume::default()),
        flags: StreamFlags {
            start_corked: true,
            start_muted: Some(true),
            ..StreamFlags::default()
        },
        sink_index: None,
        sink_name: None,
        buffer_attr: BufferAttr::default(),
        sync_id: 0,
        props: Props::new(),
        formats: Vec::new(),
    };

    test_serde(&params)
}

#[test]
fn record_stream_params_serde() -> Result<(), ProtocolError> {
    let params = RecordStreamParams {
        sample_spec: stereo_s16(),
        channel_map: ChannelMap::stereo(),
        source_index: None,
        source_name: None,
        buffer_attr: BufferAttr::default(),
        flags: StreamFlags::default(),
        direct_on_input: false,
        cvolume: None,
        props: Props::new(),
        formats: Vec::new(),
    };

    test_serde(&params)
}

#[test]
fn playback_stream_params_keep_flags_sink_and_formats() -> Result<(), ProtocolError> {
    let mut props = Props::new();
    props.set(Prop::MediaName, &cstr("music"));
    let params = PlaybackStreamParams {
        sample_spec: stereo_s16(),
        channel_map: ChannelMap::stereo(),
        cvolume: None,
        flags: StreamFlags {
            no_move: true,
            early_requests: true,
            fail_on_suspend: true,
            start_muted: Some(false),
            ..StreamFlags::default()
        },
        sink_index: Some(3),
        sink_name: Some(cstr("@DEFAULT_SINK@")),
        buffer_attr: BufferAttr::default(),
        sync_id: 7,
        props,
        formats: vec![FormatInfo {
            encoding: FormatEncoding::Pcm,
            props: Props::new(),
        }],
    };

    test_serde_version(&params, MAX_VERSION)
}

#[test]
fn record_stream_params_keep_volume_and_direct_input() -> Result<(), ProtocolError> {
    let params = RecordStreamParams {
        sample_spec: stereo_s16(),
        channel_map: ChannelMap::stereo(),
        source_index: Some(1),
        source_name: Some(cstr("source0")),
        buffer_attr: BufferAttr::default(),
        flags: StreamFlags {
            adjust_latency: true,
            start_muted: Some(true),
            ..StreamFlags::default()
        },
        direct_on_input: true,
        cvolume: Some(ChannelVolume::default()),
        props: Props::new(),
        formats: Vec::new(),
    };

    test_serde_version(&params, MAX_VERSION)
}

#[test]
fn server_info_serde() -> Result<(), ProtocolError> {
    let info = ServerInfo {
        server_name: Some(cstr("foo")),
        server_version: Some(cstr("bar")),
        user_name: Some(cstr("baz")),
        host_name: None,
        sample_spec: stereo_s16(),
        default_sink_name: Some(cstr("sink0")),
        default_source_name: Some(cstr("source0")),
        cookie: 0xdeadbeef,
        channel_map: ChannelMap::new(),
    };

    test_serde(&info)
}

#[test]
fn server_info_reads_the_channel_map_from_version_15() -> Result<(), ProtocolError> {
    let info = ServerInfo {
        server_name: Some(cstr("pulseaudio")),
        server_version: None,
        user_name: None,
        host_name: Some(cstr("host")),
        sample_spec: stereo_s16(),
        default_sink_name: None,
        default_source_name: None,
        cookie: 1,
        channel_map: ChannelMap::stereo(),
    };
    test_serde_version(&info, 15)?;

    let mut w = TagStructWriter::new(Vec::new(), 14);
    w.write(&info)?;
    let buf = w.into_inner();
    let mut r = TagStructReader::new(&buf, 14);
    let read = ServerInfo::read(&mut r, 14)?;
    assert_eq!(read.cookie, 1);
    assert_eq!(read.channel_map, ChannelMap::new());
    Ok(())
}

fn sample_entry(index: u32, name: &str) -> SampleInfo {
    SampleInfo {
        index,
        name: cstr(name),
        cvolume: ChannelVolume::default(),
        sample_spec: SampleSpec {
            format: SampleFormat::U8,
            sample_rate: 44100,
            channels: 1,
        },
        channel_map: ChannelMap::new(),
        duration: 0,
        length: 0,
        lazy: None,
        props: Props::new(),
    }
}

#[test]
fn sample_info_list_serde() -> Result<(), ProtocolError> {
    let samples: SampleInfoList = vec![sample_entry(0, "test1"), sample_entry(1, "test2")];

    test_serde(&samples)
}

#[test]
fn sample_info_lazy_file_roundtrip() -> Result<(), ProtocolError> {
    let mut info = sample_entry(4, "bell");
    info.lazy = Some(cstr("/usr/share/sounds/bell.wav"));
    info.duration = 250_000;
    info.length = 4096;
    test_serde(&info)
}

#[test]
fn sample_info_drops_a_file_name_without_the_lazy_flag() -> Result<(), ProtocolError> {
    let mut w = TagStructWriter::new(Vec::new(), MAX_VERSION);
    w.write_u32(2)?;
    w.write_string(Some(&cstr("click")))?;
    w.write_cvolume(&ChannelVolume::default())?;
    w.write_usec(10)?;
    w.write_sample_spec(SampleSpec {
        format: SampleFormat::U8,
        sample_rate: 8000,
        channels: 1,
    })?;
    w.write_channel_map(&ChannelMap::mono())?;
    w.write_u32(80)?;
    w.write_bool(false)?;
    w.write_string(Some(&cstr("ignored.wav")))?;
    w.write_props(&Props::new())?;
    let buf = w.into_inner();
    let mut r = TagStructReader::new(&buf, MAX_VERSION);
    let info = SampleInfo::read(&mut r, MAX_VERSION)?;
    assert_eq!(info.lazy, None);
    assert_eq!(info.length, 80);
    assert_eq!(info.channel_map, ChannelMap::mono());
    Ok(())
}

#[test]
fn sample_info_without_a_name_is_invalid() -> Result<(), ProtocolError> {
    let mut w = TagStructWriter::new(Vec::new(), MAX_VERSION);
    w.write_u32(2)?;
    w.write_string(None)?;
    let buf = w.into_inner();
    let mut r = TagStructReader::new(&buf, MAX_VERSION);
    assert!(matches!(SampleInfo::read(&mut r, MAX_VERSION), Err(ProtocolError::Invalid(_))));
    Ok(())
}

fn sink_input(index: u32, name: &str) -> SinkInputInfo {
    SinkInputInfo {
        index,
        name: cstr(name),
        owner_module_index: None,
        client_index: None,
        sink_index: 0,
        sample_spec: SampleSpec {
            format: SampleFormat::U8,
            sample_rate: 44100,
            channels: 1,
        },
        channel_map: ChannelMap::new(),
        cvolume: ChannelVolume::default(),
        buffer_latency: 0,
        sink_latency: 0,
        resample_method: None,
        driver: None,
        props: Props::new(),
        muted: false,
        corked: false,
        has_volume: false,
        volume_writable: false,
        format: FormatInfo::new(FormatEncoding::Any),
    }
}

#[test]
fn sink_input_info_list_serde() -> Result<(), ProtocolError> {
    let inputs: SinkInputInfoList = vec![sink_input(1, "input 1"), sink_input(5, "input 2")];

    test_serde(&inputs)
}

#[test]
fn sink_input_info_keeps_versioned_fields() -> Result<(), ProtocolError> {
    let mut input = sink_input(2, "music");
    input.owner_module_index = Some(7);
    input.client_index = Some(3);
    input.corked = true;
    input.has_volume = true;
    input.volume_writable = true;
    input.format = FormatInfo::new(FormatEncoding::Pcm);
    input.driver = Some(cstr("protocol-native.c"));
    test_serde_version(&input, MAX_VERSION)?;

    let mut w = TagStructWriter::new(Vec::new(), 19);
    w.write(&input)?;
    let buf = w.into_inner();
    let mut r = TagStructReader::new(&buf, 19);
    let read = SinkInputInfo::read(&mut r, 19)?;
    assert!(read.corked);
    assert!(!read.has_volume);
    assert_eq!(read.format, FormatInfo::new(FormatEncoding::Any));
    Ok(())
}

fn source_output(index: u32, name: &str) -> SourceOutputInfo {
    SourceOutputInfo {
        index,
        name: cstr(name),
        owner_module_index: None,
        client_index: None,
        source_index: 0,
        sample_spec: SampleSpec {
            format: SampleFormat::U8,
            sample_rate: 44100,
            channels: 1,
        },
        channel_map: ChannelMap::new(),
        cvolume: ChannelVolume::default(),
        buffer_latency: 0,
        source_latency: 0,
        resample_method: None,
        driver: None,
        props: Props::new(),
        muted: false,
        corked: false,
        has_volume: false,
        volume_writable: false,
        format: FormatInfo::new(FormatEncoding::Any),
    }
}

#[test]
fn source_output_info_list_serde() -> Result<(), ProtocolError> {
    let outputs: SourceOutputInfoList = vec![source_output(1, "output 1"), source_output(5, "output 2")];

    test_serde(&outputs)
}

#[test]
fn source_output_info_volume_from_version_22() -> Result<(), ProtocolError> {
    let mut output = source_output(4, "recorder");
    output.muted = true;
    output.has_volume = true;
    output.corked = true;
    test_serde_version(&output, 22)?;

    let mut w = TagStructWriter::new(Vec::new(), 21);
    w.write(&output)?;
    let buf = w.into_inner();
    let mut r = TagStructReader::new(&buf, 21);
    let read = SourceOutputInfo::read(&mut r, 21)?;
    assert!(read.corked);
    assert!(!read.muted);
    assert!(!read.has_volume);
    Ok(())
}
