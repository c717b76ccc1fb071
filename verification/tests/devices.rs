use std::fmt::Debug;

use pulseaudio::protocol::command::card_info::{CardInfo, CardPortInfo, CardProfileInfo};
use pulseaudio::protocol::command::sink_info::{SinkFlags, SinkInfo, SinkInfoList, SinkState};
use pulseaudio::protocol::command::source_info::{SourceFlags, SourceInfo, SourceState};
use pulseaudio::protocol::error::ProtocolError;
use pulseaudio::protocol::serde::channel_map::ChannelMap;
use pulseaudio::protocol::serde::cstr::CString;
use pulseaudio::protocol::serde::format_info::{FormatEncoding, FormatInfo};
use pulseaudio::protocol::serde::port_info::{find_port, PortAvailable, PortDirection, PortInfo, PortType};
use pulseaudio::protocol::serde::props::{Prop, Props};
use pulseaudio::protocol::serde::sample_spec::{SampleFormat, SampleSpec};
use pulseaudio::protocol::serde::volume::{ChannelVolume, Volume};
use pulseaudio::protocol::serde::{TagStructRead, TagStructReader, TagStructWrite, TagStructWriter};
use pulseaudio::protocol::{MAX_VERSION, MIN_VERSION};

fn roundtrip_version<T>(v: &T, version: u16) -> Result<T, ProtocolError>
where
    T: TagStructRead + TagStructWrite,
{
    let mut w = TagStructWriter::new(Vec::new(), version);
    w.write(v)?;
    let buf = w.into_inner();
    let mut r = TagStructReader::new(&buf, version);
    T::read(&mut r, version)
}

fn test_serde_version<T>(v: &T, version: u16) -> Result<(), ProtocolError>
where
    T: TagStructRead + TagStructWrite + PartialEq + Debug,
{
    let v2 = roundtrip_version(v, version)?;
    assert_eq!(v, &v2, "roundtrip failed for protocol version {}", version);
    Ok(())
}

fn test_serde<T>(v: &T) -> Result<(), ProtocolError>
where
    T: TagStructRead + TagStructWrite + PartialEq + Debug,
{
    for version in MIN_VERSION..MAX_VERSION {
        test_serde_version(v, version)?;
    }
    Ok(())
}

fn cstr(s: &str) -> CString {
    CString::new(s.as_bytes()).unwrap()
}

fn s16_stereo() -> SampleSpec {
    SampleSpec {
        format: SampleFormat::S16Le,
        channels: 2,
        sample_rate: 44100,
    }
}

fn sink(index: u32, name: &str, props: Props) -> SinkInfo {
    SinkInfo {
        index,
        name: cstr(name),
        description: None,
        props,
        state: SinkState::Suspended,
        sample_spec: s16_stereo(),
        channel_map: ChannelMap::new(),
        owner_module_index: None,
        cvolume: ChannelVolume::default(),
        muted: false,
        monitor_source_index: None,
        monitor_source_name: None,
        flags: SinkFlags::empty(),
        actual_latency: 0,
        configured_latency: 0,
        driver: None,
        base_volume: Volume::norm(),
        volume_steps: None,
        card_index: None,
        ports: Vec::new(),
        active_port: 0,
        formats: Vec::new(),
    }
}

fn source(index: u32, name: &str) -> SourceInfo {
    SourceInfo {
        index,
        name: cstr(name),
        description: None,
        props: Props::new(),
        state: SourceState::Suspended,
        sample_spec: s16_stereo(),
        channel_map: ChannelMap::new(),
        owner_module_index: None,
        cvolume: ChannelVolume::default(),
        base_volume: Volume::norm(),
        volume_steps: None,
        muted: false,
        monitor_of_sink_index: None,
        monitor_of_sink_name: None,
        flags: SourceFlags::empty(),
        actual_latency: 0,
        configured_latency: 0,
        driver: None,
        card_index: None,
        ports: Vec::new(),
        active_port: 0,
        formats: Vec::new(),
    }
}

fn port(name: &str, dir: PortDirection) -> PortInfo {
    PortInfo {
        name: cstr(name),
        description: None,
        dir,
        priority: 0,
        available: PortAvailable::Unknown,
        availability_group: None,
        port_type: PortType::Unknown,
    }
}

#[test]
fn sink_info_list_serde() {
    let mut props1 = Props::new();
    props1.set(Prop::DeviceString, &cstr("foo"));

    let mut props2 = Props::new();
    props2.set(Prop::ApplicationName, &cstr("bar"));

    let sinks: SinkInfoList = vec![sink(0, "sink0", props1), sink(1, "sink1", props2)];

    test_serde(&sinks).expect("SinkInfoList roundtrip")
}

#[test]
fn source_info_serde() -> Result<(), ProtocolError> {
    let source = source(0, "test");

    test_serde(&source)
}

#[test]
fn test_card_info_serde() -> Result<(), ProtocolError> {
    let info = CardInfo {
        index: 0,
        name: cstr("name"),
        props: Props::new(),
        owner_module_index: None,
        driver: None,
        ports: vec![
            CardPortInfo {
                name: cstr("name"),
                description: None,
                priority: 0,
                available: PortAvailable::Unknown,
                dir: PortDirection::Input,
                props: Props::new(),
                profiles: Vec::new(),
                port_type: PortType::Unknown,
                availability_group: None,
                latency_offset: 0,
            },
            CardPortInfo {
                name: cstr("name"),
                description: None,
                priority: 0,
                available: PortAvailable::Unknown,
                dir: PortDirection::Output,
                props: Props::new(),
                profiles: vec![cstr("profile1")],
                port_type: PortType::Unknown,
                availability_group: None,
                latency_offset: 0,
            },
        ],
        profiles: vec![CardProfileInfo {
            name: cstr("profile1"),
            description: None,
            priority: 123,
            available: 0,
            num_sinks: 1,
            num_sources: 1,
        }],
        active_profile: Some(cstr("profile1")),
    };

    test_serde_version(&info, MAX_VERSION)
}

#[test]
fn sink_info_with_ports_and_formats_roundtrip() -> Result<(), ProtocolError> {
    let mut s = sink(3, "alsa_output", Props::new());
    s.state = SinkState::Running;
    s.volume_steps = Some(65537);
    s.card_index = Some(1);
    s.flags = SinkFlags::from_bits_truncate(SinkFlags::HARDWARE | SinkFlags::LATENCY);
    let mut headphones = port("headphones", PortDirection::Input);
    headphones.available = PortAvailable::Yes;
    headphones.port_type = PortType::Headphones;
    headphones.availability_group = Some(cstr("jack"));
    s.ports = vec![port("speaker", PortDirection::Input), headphones];
    s.active_port = 1;
    s.formats = vec![FormatInfo::new(FormatEncoding::Pcm)];
    test_serde_version(&s, 35)
}

#[test]
fn active_port_is_the_first_with_the_name() {
    let ports = vec![
        port("a", PortDirection::Input),
        port("b", PortDirection::Input),
        port("b", PortDirection::Input),
    ];
    assert_eq!(find_port(&ports, &cstr("b")), 1);
    assert_eq!(find_port(&ports, &cstr("zzz")), 0);
}

#[test]
fn active_port_of_a_later_duplicate_reads_back_as_the_first() -> Result<(), ProtocolError> {
    let mut s = sink(0, "sink", Props::new());
    s.ports = vec![port("a", PortDirection::Input), port("a", PortDirection::Input)];
    s.active_port = 1;
    let read = roundtrip_version(&s, MAX_VERSION)?;
    assert_eq!(read.active_port, 0);
    Ok(())
}

#[test]
fn sink_flags_drop_unknown_bits() -> Result<(), ProtocolError> {
    assert_eq!(SinkFlags::from_bits_truncate(0xffff_ffff).bits(), 0x1ff);
    assert_eq!(SourceFlags::from_bits_truncate(0xffff_ffff).bits(), 0xff);
    let mut w = TagStructWriter::new(Vec::new(), MAX_VERSION);
    w.write_u32(0x8000_0004)?;
    let buf = w.into_inner();
    let mut r = TagStructReader::new(&buf, MAX_VERSION);
    assert_eq!(SinkFlags::read(&mut r, MAX_VERSION)?.bits(), 4);
    Ok(())
}

#[test]
fn volume_steps_of_zero_read_as_none() -> Result<(), ProtocolError> {
    let mut s = sink(0, "sink", Props::new());
    s.volume_steps = None;
    let read = roundtrip_version(&s, MAX_VERSION)?;
    assert_eq!(read.volume_steps, None);
    s.volume_steps = Some(7);
    let read = roundtrip_version(&s, MAX_VERSION)?;
    assert_eq!(read.volume_steps, Some(7));
    Ok(())
}

#[test]
fn sink_with_invalid_index_is_invalid() -> Result<(), ProtocolError> {
    let mut w = TagStructWriter::new(Vec::new(), MAX_VERSION);
    w.write_u32(0xffff_ffff)?;
    w.write_string(Some(&cstr("sink")))?;
    let buf = w.into_inner();
    let mut r = TagStructReader::new(&buf, MAX_VERSION);
    assert!(matches!(SinkInfo::read(&mut r, MAX_VERSION), Err(ProtocolError::Invalid(_))));
    let mut r = TagStructReader::new(&buf, MAX_VERSION);
    assert!(matches!(CardInfo::read(&mut r, MAX_VERSION), Err(ProtocolError::Invalid(_))));
    Ok(())
}

#[test]
fn source_with_null_name_is_invalid() -> Result<(), ProtocolError> {
    let mut w = TagStructWriter::new(Vec::new(), MAX_VERSION);
    w.write_u32(1)?;
    w.write_string(None)?;
    let buf = w.into_inner();
    let mut r = TagStructReader::new(&buf, MAX_VERSION);
    assert!(matches!(SourceInfo::read(&mut r, MAX_VERSION), Err(ProtocolError::Invalid(_))));
    Ok(())
}

#[test]
fn source_ports_before_version_16_are_not_sent() -> Result<(), ProtocolError> {
    let mut s = source(2, "mic");
    s.ports = vec![port("analog-input", PortDirection::Output)];
    let read = roundtrip_version(&s, 15)?;
    assert!(read.ports.is_empty());
    assert_eq!(read.active_port, 0);
    test_serde_version(&s, MAX_VERSION)
}

#[test]
fn dummy_sink() {
    let d = SinkInfo::new_dummy(9);
    assert_eq!(d.index, 9);
    assert_eq!(d.name, cstr("Dummy Sink"));
    assert_eq!(d.state, SinkState::Idle);
    assert_eq!(d.sample_spec.sample_rate, 48000);
    assert_eq!(d.channel_map, ChannelMap::stereo());
    assert_eq!(d.ports.len(), 1);
    assert_eq!(d.ports[0].name, cstr("Stereo Output"));
    assert_eq!(d.ports[0].available, PortAvailable::Yes);
    assert_eq!(d.formats, vec![FormatInfo::new(FormatEncoding::Pcm)]);
    let read = roundtrip_version(&d, MAX_VERSION).unwrap();
    assert_eq!(read, d);
}

fn card_port_bytes(direction: u8, latency: i64) -> Result<Vec<u8>, ProtocolError> {
    let mut w = TagStructWriter::new(Vec::new(), MAX_VERSION);
    w.write_string(Some(&cstr("port")))?;
    w.write_string(None)?;
    w.write_u32(10)?;
    w.write_u32(2)?;
    w.write_u8(direction)?;
    w.write_props(&Props::new())?;
    w.write_u32(0)?;
    w.write_i64(latency)?;
    Ok(w.into_inner())
}

#[test]
fn card_port_direction_and_latency_are_checked() -> Result<(), ProtocolError> {
    let buf = card_port_bytes(1, 5)?;
    let mut r = TagStructReader::new(&buf, MAX_VERSION);
    let p = CardPortInfo::read(&mut r, MAX_VERSION)?;
    assert_eq!(p.dir, PortDirection::Output);
    assert_eq!(p.latency_offset, 5);
    assert_eq!(p.available, PortAvailable::Yes);

    let buf = card_port_bytes(7, 5)?;
    let mut r = TagStructReader::new(&buf, MAX_VERSION);
    assert!(matches!(CardPortInfo::read(&mut r, MAX_VERSION), Err(ProtocolError::Invalid(_))));

    let buf = card_port_bytes(2, -1)?;
    let mut r = TagStructReader::new(&buf, MAX_VERSION);
    assert!(matches!(CardPortInfo::read(&mut r, MAX_VERSION), Err(ProtocolError::Invalid(_))));
    Ok(())
}
