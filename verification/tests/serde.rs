use pulseaudio::protocol::MAX_VERSION;
use pulseaudio::protocol::error::{IoErrorKind, ProtocolError, PulseError};
use pulseaudio::protocol::serde::cstr::{CString, NulError};
use pulseaudio::protocol::serde::props::{Prop, Props, PropsUpdateMode};
use pulseaudio::protocol::serde::volume::{ChannelVolume, Volume, VOLUME_MAX, VOLUME_NORM};
use pulseaudio::protocol::serde::{Tag, TagStructRead, TagStructReader, TagStructWrite, TagStructWriter, Timestamp};

#[test]
fn usec_serde() {
    let usec = 1234567890;
    let mut w = TagStructWriter::new(Vec::new(), 0);
    w.write_usec(usec).unwrap();
    let buf = w.into_inner();

    let mut r = TagStructReader::new(&buf, 0);
    let usec2 = r.read_usec().unwrap();

    assert_eq!(usec, usec2);
}

#[test]
fn timeval_serde() {
    // Has to be truncated to micros.
    let t1 = Timestamp::from_secs_nanos(1234567890, 123000).unwrap();

    let mut w = TagStructWriter::new(Vec::new(), 0);
    w.write_timeval(t1).unwrap();
    let buf = w.into_inner();

    let mut r = TagStructReader::new(&buf, 0);
    let t2 = r.read_timeval().unwrap();

    assert_eq!(t1, t2);
}

#[test]
fn timeval_bytes_are_seconds_then_micros() {
    let t = Timestamp::from_secs_nanos(2, 5_999).unwrap();
    assert_eq!(t.micros, 2_000_005);
    let mut w = TagStructWriter::new(Vec::new(), 0);
    w.write_timeval(t).unwrap();
    assert_eq!(w.into_inner(), vec![0x54, 0, 0, 0, 2, 0, 0, 0, 5]);
    assert_eq!(Timestamp::from_secs_nanos(u64::MAX, 0), None);
}

#[test]
fn scalar_encodings() {
    let mut w = TagStructWriter::new(Vec::new(), 0);
    w.write_u32(0x01020304).unwrap();
    w.write_u8(7).unwrap();
    w.write_bool(true).unwrap();
    w.write_bool(false).unwrap();
    w.write_u64(0x0102030405060708).unwrap();
    w.write_i64(-1).unwrap();
    w.write_index(None).unwrap();
    w.write_null_string().unwrap();
    assert_eq!(
        w.into_inner(),
        vec![
            0x4C, 1, 2, 3, 4, 0x42, 7, 0x31, 0x30, 0x52, 1, 2, 3, 4, 5, 6, 7, 8, 0x72, 0xff, 0xff,
            0xff, 0xff, 0xff, 0xff, 0xff, 0xff, 0x4C, 0xff, 0xff, 0xff, 0xff, 0x4E
        ]
    );
}

#[test]
fn scalar_roundtrip() {
    let name = CString::new(b"sink").unwrap();
    let mut w = TagStructWriter::new(Vec::new(), 0);
    w.write_u32(42).unwrap();
    w.write_u8(255).unwrap();
    w.write_bool(true).unwrap();
    w.write_u64(u64::MAX).unwrap();
    w.write_i64(i64::MIN).unwrap();
    w.write_index(Some(3)).unwrap();
    w.write_index(None).unwrap();
    w.write_string(Some(&name)).unwrap();
    w.write_string(None).unwrap();
    w.write_arbitrary(&[1, 2, 3]).unwrap();
    let buf = w.into_inner();

    let mut r = TagStructReader::new(&buf, 0);
    assert_eq!(r.read_u32().unwrap(), 42);
    assert_eq!(r.read_u8().unwrap(), 255);
    assert!(r.read_bool().unwrap());
    assert_eq!(r.read_u64().unwrap(), u64::MAX);
    assert_eq!(r.read_i64().unwrap(), i64::MIN);
    assert_eq!(r.read_index().unwrap(), Some(3));
    assert_eq!(r.read_index().unwrap(), None);
    assert_eq!(r.read_string().unwrap(), Some(name));
    assert_eq!(r.read_string().unwrap(), None);
    assert_eq!(r.read_arbitrary().unwrap(), vec![1, 2, 3]);
    assert!(!r.has_data_left().unwrap());
}

#[test]
fn read_errors() {
    let empty: Vec<u8> = Vec::new();
    let mut r = TagStructReader::new(&empty, 0);
    assert_eq!(r.read_u32(), Err(ProtocolError::Io(IoErrorKind::UnexpectedEof)));

    // The tag is right but the value is cut short.
    let short = vec![0x4C, 0, 0];
    let mut r = TagStructReader::new(&short, 0);
    assert_eq!(r.read_u32(), Err(ProtocolError::Io(IoErrorKind::UnexpectedEof)));

    // Another tag stands where a u32 is expected.
    let other = vec![0x42, 0];
    let mut r = TagStructReader::new(&other, 0);
    assert!(matches!(r.read_u32(), Err(ProtocolError::Invalid(_))));

    // A byte that is no tag at all.
    let bad = vec![0x00];
    let mut r = TagStructReader::new(&bad, 0);
    assert!(matches!(r.read_tag(), Err(ProtocolError::Invalid(_))));

    // A string without its terminating nul.
    let unterminated = vec![0x74, b'a', b'b'];
    let mut r = TagStructReader::new(&unterminated, 0);
    assert!(matches!(r.read_string(), Err(ProtocolError::Invalid(_))));
}

#[test]
fn tags_and_bytes() {
    assert_eq!(Tag::U32.to_u8(), b'L');
    assert_eq!(Tag::PropList.to_u8(), b'P');
    assert_eq!(Tag::from_u8(b'x'), Some(Tag::Arbitrary));
    assert_eq!(Tag::from_u8(b'?'), None);
    let buf = vec![b'V'];
    let mut r = TagStructReader::new(&buf, 0);
    assert_eq!(r.read_tag().unwrap(), Tag::Volume);
}

#[test]
fn arbitrary_unprefixed() {
    let buf = vec![0x78, 9, 8, 7];
    let mut r = TagStructReader::new(&buf, 0);
    assert_eq!(r.read_arbitrary_unprefixed(2).unwrap(), vec![9, 8]);
    assert!(r.has_data_left().unwrap());
}

#[test]
fn cstring_refuses_nul() {
    assert_eq!(CString::new(b"a\0b").unwrap_err(), NulError(1));
    let c = CString::new(b"abc").unwrap();
    assert_eq!(c.as_bytes(), b"abc");
    assert_eq!(c.to_bytes_with_nul(), b"abc\0".to_vec());
}

#[test]
fn props_set_get_and_replace() {
    let mut props = Props::new();
    props.set(Prop::ApplicationName, &CString::new(b"test").unwrap());
    assert_eq!(props.get(Prop::ApplicationName), Some(&b"test\0"[..]));
    assert_eq!(props.get_raw(b"application.name"), Some(&b"test\0"[..]));
    assert_eq!(props.get(Prop::MediaName), None);

    props.set_raw(CString::new(b"media.name").unwrap(), vec![1]);
    props.set(Prop::ApplicationName, &CString::new(b"other").unwrap());
    assert_eq!(props.len(), 2);
    assert_eq!(props.get(Prop::ApplicationName), Some(&b"other\0"[..]));
}

#[test]
fn props_roundtrip_and_bytes() {
    let mut props = Props::new();
    props.set_raw(CString::new(b"k").unwrap(), vec![5]);
    let mut w = TagStructWriter::new(Vec::new(), 0);
    w.write(&props).unwrap();
    let buf = w.into_inner();
    assert_eq!(
        buf,
        vec![0x50, 0x74, b'k', 0, 0x4C, 0, 0, 0, 1, 0x78, 0, 0, 0, 1, 5, 0x4E]
    );
    let mut r = TagStructReader::new(&buf, 0);
    assert_eq!(Props::read(&mut r, 0).unwrap(), props);
}

#[test]
fn props_later_duplicate_key_replaces_value() {
    // The same key twice: the second value wins, in the first place.
    let buf = vec![
        0x50, 0x74, b'k', 0, 0x4C, 0, 0, 0, 1, 0x78, 0, 0, 0, 1, 5, 0x74, b'k', 0, 0x4C, 0, 0, 0, 1,
        0x78, 0, 0, 0, 1, 6, 0x4E,
    ];
    let mut r = TagStructReader::new(&buf, 0);
    let props = Props::read(&mut r, 0).unwrap();
    assert_eq!(props.len(), 1);
    assert_eq!(props.get_raw(b"k"), Some(&[6u8][..]));
}

#[test]
fn props_length_mismatch_is_refused() {
    let buf = vec![0x50, 0x74, b'k', 0, 0x4C, 0, 0, 0, 2, 0x78, 0, 0, 0, 1, 5, 0x4E];
    let mut r = TagStructReader::new(&buf, 0);
    assert!(matches!(Props::read(&mut r, 0), Err(ProtocolError::Invalid(_))));
}

#[test]
fn update_mode_codes() {
    assert_eq!(PropsUpdateMode::SetAll.to_u32(), 0);
    assert_eq!(PropsUpdateMode::from_u32(2), Some(PropsUpdateMode::Replace));
    assert_eq!(PropsUpdateMode::from_u32(3), None);
}

#[test]
fn volumes() {
    assert_eq!(Volume::from_u32_clamped(u32::MAX).as_u32(), VOLUME_MAX);
    assert!(Volume::muted().is_muted());
    let mut cv = ChannelVolume::empty();
    assert!(cv.push(Volume::norm()));
    assert_eq!(cv.len(), 1);
    assert_eq!(cv.get(0).unwrap().as_u32(), VOLUME_NORM);
    assert_eq!(cv.get(1), None);
    let mut full = ChannelVolume::norm(32);
    assert!(!full.push(Volume::muted()));

    let mut w = TagStructWriter::new(Vec::new(), 0);
    w.write(&ChannelVolume::uniform(2, Volume::from_u32_clamped(0x10000))).unwrap();
    assert_eq!(
        w.into_inner(),
        vec![0x76, 2, 0, 1, 0, 0, 0, 1, 0, 0]
    );
}

#[test]
fn too_many_channels_is_refused() {
    let buf = vec![0x76, 33];
    let mut r = TagStructReader::new(&buf, 0);
    assert!(matches!(ChannelVolume::read(&mut r, 0), Err(ProtocolError::Invalid(_))));
}

#[test]
fn pulse_error_codes() {
    assert_eq!(PulseError::NoEntity.to_u32(), 5);
    assert_eq!(PulseError::from_u32(1), Some(PulseError::AccessDenied));
    assert_eq!(PulseError::from_u32(0), None);
}

#[test]
fn read_tag_and_read_bool_consume_one_byte() {
    let buf = [0x4C, 0x00];
    let mut ts = TagStructReader::new(&buf, MAX_VERSION);
    assert_eq!(ts.read_tag(), Ok(Tag::U32));
    assert!(matches!(ts.read_tag(), Err(ProtocolError::Invalid(_))));
    assert!(matches!(ts.read_tag(), Err(ProtocolError::Io(_))));

    let buf = [0x31, 0x30, 0x42];
    let mut ts = TagStructReader::new(&buf, MAX_VERSION);
    assert_eq!(ts.read_bool(), Ok(true));
    assert_eq!(ts.read_bool(), Ok(false));
    assert!(matches!(ts.read_bool(), Err(ProtocolError::Invalid(_))));
    assert_eq!(ts.remaining(), 0);
}
