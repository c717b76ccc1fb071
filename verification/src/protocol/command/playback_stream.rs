//! Creating playback streams.

use vstd::prelude::*;

use crate::protocol::error::ProtocolError;
use crate::protocol::serde::channel_map::ChannelMap;
use crate::protocol::serde::cstr::CString;
use crate::protocol::serde::format_info::FormatInfo;
use crate::protocol::serde::sample_spec::SampleSpec;
use crate::protocol::serde::wire::{TagValue, lemma_values_bytes_concat, values_bytes};
use crate::protocol::serde::{TagStructRead, TagStructReader, TagStructWrite, TagStructWriter};
use crate::protocol::stream::BufferAttr;
use crate::protocol::serde::fields::{
    lemma_values_bytes_1, lemma_values_bytes_2, lemma_values_bytes_3, lemma_values_bytes_4,
    lemma_values_bytes_6,
};
use crate::protocol::serde::channel_map::lemma_channel_map_valid;
use crate::protocol::serde::props::Props;
use crate::protocol::serde::sample_spec::{lemma_sample_format_roundtrip, sample_spec_value};
use crate::protocol::serde::volume::{ChannelVolume, VOLUME_MUTED};
use crate::protocol::serde::wire::{CHANNELS_MAX, lemma_parse_values_bytes, values_wf};
use crate::protocol::serde::{index_encodable, index_value, opt_cstr_view, string_value};
use crate::protocol::stream::{BUFFER_ATTR_DEFAULT, StreamFlags};
use super::stream_params::{
    Bools1, Bools2, Bools3, Bools4, CVol1, PlayFlagsProps, StreamHead, U32s4, channels_of,
    formats_parse, formats_values, gated, gated_parse, lemma_formats_roundtrip, lemma_seg_bytes,
    lemma_append_values, lemma_values_wf_concat, read_gated_bool, read_gated_bools2, read_gated_bools3, read_gated_formats,
    start_muted_value, write_formats,
};
use super::CommandReply;
use super::stream_reply::{PlaybackReplyHead, StreamReplyTail};

verus! {

/// The server reply to creating a playback stream.
#[derive(Debug, Clone, PartialEq, Eq)]
pub struct CreatePlaybackStreamReply {
    /// The channel of the stream, which other commands and the stream's data
    /// refer to. Unlike the stream index, it is scoped to the connection.
    pub channel: u32,

    /// The index of the stream on the server.
    pub stream_index: u32,

    /// The number of bytes that can be written to the playback buffer.
    pub requested_bytes: u32,

    /// The attributes of the created buffer; the fragment size is not
    /// sent.
    pub buffer_attr: BufferAttr,

    /// The final sample format.
    pub sample_spec: SampleSpec,

    /// The final channel map.
    pub channel_map: ChannelMap,

    /// The index of the device the stream is connected to.
    pub sink_index: u32,

    /// The name of the device the stream is connected to.
    pub sink_name: Option<CString>,

    /// Whether the stream is suspended.
    pub suspended: bool,

    /// The latency of the stream, in microseconds.
    pub stream_latency: u64,

    /// The final format of the stream; sent from protocol version 21 on.
    pub format: FormatInfo,
}

impl CreatePlaybackStreamReply {
    /// The fields that the reply sends up to the channel map.
    pub closed spec fn head(&self) -> PlaybackReplyHead {
        PlaybackReplyHead { channel: self.channel, stream_index: self.stream_index, requested_bytes: self.requested_bytes, buffer_attr: self.buffer_attr, sample_spec: self.sample_spec, channel_map: self.channel_map }
    }

    /// The fields that the reply sends after the channel map.
    pub closed spec fn tail(&self) -> StreamReplyTail {
        StreamReplyTail { sink_index: self.sink_index, sink_name: self.sink_name, suspended: self.suspended, stream_latency: self.stream_latency, format: self.format }
    }
}

impl TagStructWrite for CreatePlaybackStreamReply {
    open spec fn spec_values(&self, protocol_version: u16) -> Seq<TagValue> {
        self.head().spec_values(protocol_version) + self.tail().spec_values(protocol_version)
    }

    open spec fn spec_writable(&self) -> bool {
        true
    }

    fn write(&self, w: &mut TagStructWriter, protocol_version: u16) -> (r: Result<(), ProtocolError>) {
        let h = PlaybackReplyHead { channel: self.channel, stream_index: self.stream_index, requested_bytes: self.requested_bytes, buffer_attr: self.buffer_attr, sample_spec: self.sample_spec, channel_map: self.channel_map.clone() };
        let sink_name = match &self.sink_name {
            Some(n) => Some(n.duplicate()),
            None => None,
        };
        let format = FormatInfo { encoding: self.format.encoding, props: self.format.props.clone() };
        let t = StreamReplyTail {
            sink_index: self.sink_index,
            sink_name,
            suspended: self.suspended,
            stream_latency: self.stream_latency,
            format,
        };
        assert(h.spec_values(protocol_version) == self.head().spec_values(protocol_version));
        assert(t.spec_values(protocol_version) == self.tail().spec_values(protocol_version));
        h.write(w, protocol_version)?;
        t.write(w, protocol_version)?;
        proof {
            lemma_values_bytes_concat(
                self.head().spec_values(protocol_version),
                self.tail().spec_values(protocol_version),
            );
        }
        assert(w.bytes() =~= old(w).bytes() + values_bytes(self.spec_values(protocol_version)));
        Ok(())
    }
}

impl TagStructRead for CreatePlaybackStreamReply {
    open spec fn spec_parse(s: Seq<u8>, protocol_version: u16) -> Option<(Seq<TagValue>, int)> {
        match PlaybackReplyHead::spec_parse(s, protocol_version) {
            Some((v1, n1)) => match StreamReplyTail::spec_parse(s.skip(n1), protocol_version) {
                Some((v2, n2)) => Some((v1 + v2, n1 + n2)),
                None => None,
            },
            None => None,
        }
    }

    open spec fn spec_canonical(&self, protocol_version: u16) -> bool {
        self.head().spec_canonical(protocol_version) && self.tail().spec_canonical(protocol_version)
    }

    open spec fn spec_encodable(&self, protocol_version: u16) -> bool {
        self.head().spec_encodable(protocol_version) && self.tail().spec_encodable(protocol_version)
    }

    fn read(ts: &mut TagStructReader, protocol_version: u16) -> (r: Result<Self, ProtocolError>) {
        let ghost s = ts.rest();
        let h = PlaybackReplyHead::read(ts, protocol_version)?;
        let ghost s1 = ts.rest();
        let t = StreamReplyTail::read(ts, protocol_version)?;
        proof {
            if let Some((v1, n1)) = PlaybackReplyHead::spec_parse(s, protocol_version) {
                if let Some((v2, n2)) = StreamReplyTail::spec_parse(s1, protocol_version) {
                    assert(s.skip(n1).skip(n2) =~= s.skip(n1 + n2));
                }
            }
        }
        let r = CreatePlaybackStreamReply { channel: h.channel, stream_index: h.stream_index, requested_bytes: h.requested_bytes, buffer_attr: h.buffer_attr, sample_spec: h.sample_spec, channel_map: h.channel_map, sink_index: t.sink_index, sink_name: t.sink_name, suspended: t.suspended, stream_latency: t.stream_latency, format: t.format };
        assert(r.head() == h);
        assert(r.tail() == t);
        Ok(r)
    }

    proof fn lemma_roundtrip(&self, protocol_version: u16, rest: Seq<u8>) {
        let hv = self.head().spec_values(protocol_version);
        let tv = self.tail().spec_values(protocol_version);
        lemma_values_bytes_concat(hv, tv);
        assert(values_bytes(hv + tv) + rest =~= values_bytes(hv) + (values_bytes(tv) + rest));
        self.head().lemma_roundtrip(protocol_version, values_bytes(tv) + rest);
        assert((values_bytes(hv) + (values_bytes(tv) + rest)).skip(values_bytes(hv).len() as int)
            =~= values_bytes(tv) + rest);
        self.tail().lemma_roundtrip(protocol_version, rest);
    }
}

impl CommandReply for CreatePlaybackStreamReply {}

/// Parameters for creating a playback stream.
#[derive(Debug, Clone, PartialEq, Eq)]
pub struct PlaybackStreamParams {
    /// The format of the samples of the stream.
    pub sample_spec: SampleSpec,

    /// The positions of the channels of the stream; their number should
    /// match that of the sample spec.
    pub channel_map: ChannelMap,

    /// The index of the sink to connect to.
    pub sink_index: Option<u32>,

    /// The name of the sink to connect to; ignored if the index is set.
    pub sink_name: Option<CString>,

    /// The buffer attributes of the stream; the fragment size is not sent.
    pub buffer_attr: BufferAttr,

    /// The sync id of the stream.
    pub sync_id: u32,

    /// The volume of the stream; `None` leaves it to the server. Its number
    /// of channels should match that of the sample spec.
    pub cvolume: Option<ChannelVolume>,

    /// Properties of the stream.
    pub props: Props,

    /// The formats the client offers; sent from protocol version 21 on.
    pub formats: Vec<FormatInfo>,

    /// The flags of the stream; peak detection is not sent.
    pub flags: StreamFlags,
}

/// The volume sent for a playback stream: the one it has, or a muted one
/// for each channel when it has none.
pub open spec fn playback_cvolume_view(p: PlaybackStreamParams) -> Seq<u32> {
    match p.cvolume {
        Some(v) => v@,
        None => Seq::new(p.sample_spec.channels as nat, |i: int| VOLUME_MUTED),
    }
}

/// The values of playback stream parameters up to the maximum length and
/// the corked flag.
pub open spec fn play_seg1(p: PlaybackStreamParams) -> Seq<TagValue> {
    seq![
        sample_spec_value(p.sample_spec),
        TagValue::ChannelMap(p.channel_map@),
        index_value(p.sink_index),
        string_value(opt_cstr_view(p.sink_name)),
        TagValue::U32(p.buffer_attr.max_length),
        TagValue::Bool(p.flags.start_corked),
    ]
}

/// The values of the remaining buffer attributes and the sync id.
pub open spec fn play_seg2(p: PlaybackStreamParams) -> Seq<TagValue> {
    seq![
        TagValue::U32(p.buffer_attr.target_length),
        TagValue::U32(p.buffer_attr.pre_buffering),
        TagValue::U32(p.buffer_attr.minimum_request_length),
        TagValue::U32(p.sync_id),
    ]
}

/// The value of the volume.
pub open spec fn play_seg3(p: PlaybackStreamParams) -> Seq<TagValue> {
    seq![TagValue::CVolume(playback_cvolume_view(p))]
}

/// The values of the first four channel flags.
pub open spec fn play_seg4(p: PlaybackStreamParams) -> Seq<TagValue> {
    seq![
        TagValue::Bool(p.flags.no_remap_channels),
        TagValue::Bool(p.flags.no_remix_channels),
        TagValue::Bool(p.flags.fix_format),
        TagValue::Bool(p.flags.fix_rate),
    ]
}

/// The values of the other three channel flags.
pub open spec fn play_seg5(p: PlaybackStreamParams) -> Seq<TagValue> {
    seq![
        TagValue::Bool(p.flags.fix_channels),
        TagValue::Bool(p.flags.no_move),
        TagValue::Bool(p.flags.variable_rate),
    ]
}

/// The values of the muting, the latency flag and the properties.
pub open spec fn play_seg6(p: PlaybackStreamParams) -> Seq<TagValue> {
    seq![
        TagValue::Bool(start_muted_value(p.flags)),
        TagValue::Bool(p.flags.adjust_latency),
        TagValue::PropList(p.props@),
    ]
}

/// The values sent from protocol version 14 on.
pub open spec fn play_seg7(p: PlaybackStreamParams) -> Seq<TagValue> {
    seq![TagValue::Bool(p.cvolume is Some), TagValue::Bool(p.flags.early_requests)]
}

/// The values sent from protocol version 15 on.
pub open spec fn play_seg8(p: PlaybackStreamParams) -> Seq<TagValue> {
    seq![
        TagValue::Bool(p.flags.start_muted is Some),
        TagValue::Bool(p.flags.no_inhibit_auto_suspend),
        TagValue::Bool(p.flags.fail_on_suspend),
    ]
}

/// The value sent from protocol version 17 on.
pub open spec fn play_seg9(p: PlaybackStreamParams) -> Seq<TagValue> {
    seq![TagValue::Bool(p.flags.relative_volume)]
}

/// The value sent from protocol version 18 on.
pub open spec fn play_seg10(p: PlaybackStreamParams) -> Seq<TagValue> {
    seq![TagValue::Bool(p.flags.passthrough)]
}

/// The values read for playback stream parameters, part by part, with the
/// values that a read leaves out put back in their written form: the
/// volume of a stream that sets none, and the muting of a stream that
/// leaves it to the server.
pub open spec fn play_normalize(
    v1: Seq<TagValue>,
    v2: Seq<TagValue>,
    v3: Seq<TagValue>,
    v4: Seq<TagValue>,
    v5: Seq<TagValue>,
    v6: Seq<TagValue>,
    v7: Seq<TagValue>,
    v8: Seq<TagValue>,
    v9: Seq<TagValue>,
    v10: Seq<TagValue>,
    v11: Seq<TagValue>,
    protocol_version: u16,
) -> Seq<TagValue> {
    let cv = if protocol_version >= 14 && v7[0] == TagValue::Bool(false) {
        seq![TagValue::CVolume(Seq::new(channels_of(v1[0]) as nat, |i: int| VOLUME_MUTED))]
    } else {
        v3
    };
    let v6n = if protocol_version >= 15 && v8[0] == TagValue::Bool(false) {
        v6.update(0, TagValue::Bool(false))
    } else {
        v6
    };
    (v1 + v2) + (cv + v4 + v5 + v6n) + (v7 + v8 + v9 + v10 + v11)
}

impl TagStructWrite for PlaybackStreamParams {
    open spec fn spec_values(&self, protocol_version: u16) -> Seq<TagValue> {
        play_front(*self) + play_middle(*self) + play_back(*self, protocol_version)
    }

    /// A stream without a volume has at most [`CHANNELS_MAX`] channels, and
    /// the number of formats fits a byte.
    open spec fn spec_writable(&self) -> bool {
        &&& self.cvolume is None ==> self.sample_spec.channels <= CHANNELS_MAX
        &&& self.formats@.len() <= 255
    }

    #[verifier::rlimit(100)]
    fn write(&self, w: &mut TagStructWriter, protocol_version: u16) -> (r: Result<(), ProtocolError>) {
        self.write_front(w)?;
        self.write_middle(w)?;
        self.write_back(w, protocol_version)?;
        proof {
            let p = *self;
            lemma_values_bytes_concat(play_front(p), play_middle(p));
            lemma_values_bytes_concat(play_front(p) + play_middle(p), play_back(p, protocol_version));
        }
        assert(w.bytes() =~= old(w).bytes() + values_bytes(self.spec_values(protocol_version)));
        Ok(())
    }
}

/// The values of the first two parts of playback stream parameters.
pub open spec fn play_front(p: PlaybackStreamParams) -> Seq<TagValue> {
    play_seg1(p) + play_seg2(p)
}

/// The values of the volume, the flags and the properties.
pub open spec fn play_middle(p: PlaybackStreamParams) -> Seq<TagValue> {
    play_seg3(p) + play_seg4(p) + play_seg5(p) + play_seg6(p)
}

/// The values that depend on the protocol version.
pub open spec fn play_back(p: PlaybackStreamParams, pv: u16) -> Seq<TagValue> {
    gated(pv >= 14, play_seg7(p)) + gated(pv >= 15, play_seg8(p)) + gated(pv >= 17, play_seg9(p))
        + gated(pv >= 18, play_seg10(p)) + gated(pv >= 21, formats_values(p.formats@, pv))
}

impl PlaybackStreamParams {
    /// Writes the first two parts.
    fn write_front(&self, w: &mut TagStructWriter) -> (r: Result<(), ProtocolError>)
        ensures
            r == Ok::<(), ProtocolError>(()),
            final(w).bytes() == old(w).bytes() + values_bytes(play_front(*self)),
            final(w).version() == old(w).version(),
    {
        w.write_sample_spec(self.sample_spec)?;
        w.write_channel_map(&self.channel_map)?;
        w.write_index(self.sink_index)?;
        w.write_string(self.sink_name.as_ref())?;
        w.write_u32(self.buffer_attr.max_length)?;
        w.write_bool(self.flags.start_corked)?;
        w.write_u32(self.buffer_attr.target_length)?;
        w.write_u32(self.buffer_attr.pre_buffering)?;
        w.write_u32(self.buffer_attr.minimum_request_length)?;
        w.write_u32(self.sync_id)?;
        proof {
            let p = *self;
            lemma_values_bytes_6(
                sample_spec_value(p.sample_spec),
                TagValue::ChannelMap(p.channel_map@),
                index_value(p.sink_index),
                string_value(opt_cstr_view(p.sink_name)),
                TagValue::U32(p.buffer_attr.max_length),
                TagValue::Bool(p.flags.start_corked),
            );
            lemma_values_bytes_4(
                TagValue::U32(p.buffer_attr.target_length),
                TagValue::U32(p.buffer_attr.pre_buffering),
                TagValue::U32(p.buffer_attr.minimum_request_length),
                TagValue::U32(p.sync_id),
            );
            lemma_values_bytes_concat(play_seg1(p), play_seg2(p));
        }
        assert(w.bytes() =~= old(w).bytes() + values_bytes(play_front(*self)));
        Ok(())
    }

    /// Writes the volume, the flags and the properties.
    fn write_middle(&self, w: &mut TagStructWriter) -> (r: Result<(), ProtocolError>)
        requires
            self.spec_writable(),
        ensures
            r == Ok::<(), ProtocolError>(()),
            final(w).bytes() == old(w).bytes() + values_bytes(play_middle(*self)),
            final(w).version() == old(w).version(),
    {
        let pv = w.protocol_version();
        let cvolume = match &self.cvolume {
            Some(v) => *v,
            None => ChannelVolume::muted(self.sample_spec.channels),
        };
        assert(cvolume@ =~= playback_cvolume_view(*self));
        let c = CVol1 { cvolume };
        let f4 = Bools4 {
            b0: self.flags.no_remap_channels,
            b1: self.flags.no_remix_channels,
            b2: self.flags.fix_format,
            b3: self.flags.fix_rate,
        };
        let f3 = Bools3 { b0: self.flags.fix_channels, b1: self.flags.no_move, b2: self.flags.variable_rate };
        let muted = match self.flags.start_muted {
            Some(b) => b,
            None => false,
        };
        let fp = PlayFlagsProps { b0: muted, b1: self.flags.adjust_latency, props: self.props.clone() };
        let ghost b0 = w.bytes();
        let ghost p = *self;
        proof {
            assert(c.spec_values(pv) == play_seg3(p));
            assert(f4.spec_values(pv) == play_seg4(p));
            assert(f3.spec_values(pv) == play_seg5(p));
            assert(fp.spec_values(pv) == play_seg6(p));
        }
        c.write(w, pv)?;
        f4.write(w, pv)?;
        proof {
            lemma_append_values(b0, play_seg3(p), play_seg4(p));
        }
        f3.write(w, pv)?;
        proof {
            lemma_append_values(b0, play_seg3(p) + play_seg4(p), play_seg5(p));
        }
        fp.write(w, pv)?;
        proof {
            lemma_append_values(b0, play_seg3(p) + play_seg4(p) + play_seg5(p), play_seg6(p));
        }
        Ok(())
    }

    /// Writes the values that depend on the protocol version.
    fn write_back(&self, w: &mut TagStructWriter, pv: u16) -> (r: Result<(), ProtocolError>)
        requires
            self.spec_writable(),
        ensures
            r == Ok::<(), ProtocolError>(()),
            final(w).bytes() == old(w).bytes() + values_bytes(play_back(*self, pv)),
            final(w).version() == old(w).version(),
    {
        let ghost p = *self;
        let g7 = Bools2 { b0: self.cvolume.is_some(), b1: self.flags.early_requests };
        let g8 = Bools3 {
            b0: self.flags.start_muted.is_some(),
            b1: self.flags.no_inhibit_auto_suspend,
            b2: self.flags.fail_on_suspend,
        };
        let g9 = Bools1 { b0: self.flags.relative_volume };
        let g10 = Bools1 { b0: self.flags.passthrough };
        let ghost b0 = w.bytes();
        let ghost a7 = gated(pv >= 14, play_seg7(p));
        let ghost a8 = gated(pv >= 15, play_seg8(p));
        let ghost a9 = gated(pv >= 17, play_seg9(p));
        let ghost a10 = gated(pv >= 18, play_seg10(p));
        let ghost a11 = gated(pv >= 21, formats_values(p.formats@, pv));
        proof {
            assert(g7.spec_values(pv) == play_seg7(p));
            assert(g8.spec_values(pv) == play_seg8(p));
            assert(g9.spec_values(pv) == play_seg9(p));
            assert(g10.spec_values(pv) == play_seg10(p));
            lemma_append_values(b0, Seq::empty(), a7);
            assert(values_bytes(Seq::<TagValue>::empty()) =~= Seq::<u8>::empty());
            assert(b0 + Seq::<u8>::empty() =~= b0);
            assert(Seq::<TagValue>::empty() + a7 =~= a7);
        }
        if pv >= 14 {
            g7.write(w, pv)?;
        }
        proof {
            lemma_append_values(b0, a7, a8);
        }
        if pv >= 15 {
            g8.write(w, pv)?;
        }
        proof {
            lemma_append_values(b0, a7 + a8, a9);
        }
        if pv >= 17 {
            g9.write(w, pv)?;
        }
        proof {
            lemma_append_values(b0, a7 + a8 + a9, a10);
        }
        if pv >= 18 {
            g10.write(w, pv)?;
        }
        proof {
            lemma_append_values(b0, a7 + a8 + a9 + a10, a11);
        }
        if pv >= 21 {
            write_formats(w, &self.formats, pv)?;
        }
        Ok(())
    }
}

impl TagStructRead for PlaybackStreamParams {
    open spec fn spec_parse(s: Seq<u8>, protocol_version: u16) -> Option<(Seq<TagValue>, int)> {
        play_p1(s, protocol_version)
    }

    open spec fn spec_canonical(&self, protocol_version: u16) -> bool {
        &&& self.buffer_attr.fragment_size == BUFFER_ATTR_DEFAULT
        &&& !self.flags.peak_detect
        &&& protocol_version < 14 ==> self.cvolume is Some && !self.flags.early_requests
        &&& protocol_version < 15 ==> self.flags.start_muted is Some && !self.flags.no_inhibit_auto_suspend
            && !self.flags.fail_on_suspend
        &&& protocol_version < 17 ==> !self.flags.relative_volume
        &&& protocol_version < 18 ==> !self.flags.passthrough
        &&& protocol_version < 21 ==> self.formats@.len() == 0
    }

    open spec fn spec_encodable(&self, protocol_version: u16) -> bool {
        &&& values_wf(self.spec_values(protocol_version))
        &&& index_encodable(self.sink_index)
        &&& self.formats@.len() <= 255
        &&& forall|i: int| 0 <= i < self.formats@.len() ==> (#[trigger] self.formats@[i]).spec_encodable(protocol_version)
        &&& self.spec_canonical(protocol_version)
    }

    #[verifier::rlimit(100)]
    #[verifier::spinoff_prover]
    fn read(ts: &mut TagStructReader, protocol_version: u16) -> (r: Result<Self, ProtocolError>) {
        let pv = protocol_version;
        let ghost s = ts.rest();
        let head = StreamHead::read(ts, pv)?;
        let ghost s1 = ts.rest();
        let attr = U32s4::read(ts, pv)?;
        let ghost s2 = ts.rest();
        let cvol = CVol1::read(ts, pv)?;
        let ghost s3 = ts.rest();
        let b4 = Bools4::read(ts, pv)?;
        let ghost s4 = ts.rest();
        let b3 = Bools3::read(ts, pv)?;
        let ghost s5 = ts.rest();
        let fp = PlayFlagsProps::read(ts, pv)?;
        let ghost s6 = ts.rest();
        let ghost n6: int = s.len() - s6.len();
        proof {
            let (v1, n1) = StreamHead::spec_parse(s, pv).unwrap();
            let (v2, n2) = U32s4::spec_parse(s1, pv).unwrap();
            let (v3, n3) = CVol1::spec_parse(s2, pv).unwrap();
            let (v4, n4) = Bools4::spec_parse(s3, pv).unwrap();
            let (v5, n5) = Bools3::spec_parse(s4, pv).unwrap();
            let (v6, n6x) = PlayFlagsProps::spec_parse(s5, pv).unwrap();
            assert(s6 =~= s.skip(n1 + n2 + n3 + n4 + n5 + n6x));
            assert(n6 == n1 + n2 + n3 + n4 + n5 + n6x);
            assert(Self::spec_parse(s, pv) == play_parse_rest(
                s6,
                pv,
                head.spec_values(pv),
                attr.spec_values(pv),
                cvol.spec_values(pv),
                b4.spec_values(pv),
                b3.spec_values(pv),
                fp.spec_values(pv),
                n6,
            ));
        }
        let r = read_play_rest(ts, pv, head, attr, cvol, b4, b3, fp, Ghost(n6));
        proof {
            if r is Ok {
                assert(ts.rest() =~= s.skip(s.len() - ts.rest().len()));
            }
        }
        r
    }

    proof fn lemma_roundtrip(&self, protocol_version: u16, rest: Seq<u8>) {
        lemma_play_roundtrip(*self, protocol_version, rest);
    }
}

/// The parse of playback stream parameters: part by part, then the values
/// put together.
pub open spec fn play_p1(t: Seq<u8>, pv: u16) -> Option<(Seq<TagValue>, int)> {
    match StreamHead::spec_parse(t, pv) {
        None => None,
        Some((v1, n1)) => play_p2(t.skip(n1), pv, v1, n1),
    }
}

/// The parse of playback stream parameters from part 2 on, given the values
/// of the parts before it and the number `n` of bytes they take.
pub open spec fn play_p2(t: Seq<u8>, pv: u16, v1: Seq<TagValue>, n: int) -> Option<(Seq<TagValue>, int)> {
    match U32s4::spec_parse(t, pv) {
        None => None,
        Some((v2, n2)) => play_p3(t.skip(n2), pv, v1, v2, n + n2),
    }
}

/// The parse of playback stream parameters from part 3 on, given the values
/// of the parts before it and the number `n` of bytes they take.
pub open spec fn play_p3(t: Seq<u8>, pv: u16, v1: Seq<TagValue>, v2: Seq<TagValue>, n: int) -> Option<(Seq<TagValue>, int)> {
    match CVol1::spec_parse(t, pv) {
        None => None,
        Some((v3, n3)) => play_p4(t.skip(n3), pv, v1, v2, v3, n + n3),
    }
}

/// The parse of playback stream parameters from part 4 on, given the values
/// of the parts before it and the number `n` of bytes they take.
pub open spec fn play_p4(t: Seq<u8>, pv: u16, v1: Seq<TagValue>, v2: Seq<TagValue>, v3: Seq<TagValue>, n: int) -> Option<(Seq<TagValue>, int)> {
    match Bools4::spec_parse(t, pv) {
        None => None,
        Some((v4, n4)) => play_p5(t.skip(n4), pv, v1, v2, v3, v4, n + n4),
    }
}

/// The parse of playback stream parameters from part 5 on, given the values
/// of the parts before it and the number `n` of bytes they take.
pub open spec fn play_p5(t: Seq<u8>, pv: u16, v1: Seq<TagValue>, v2: Seq<TagValue>, v3: Seq<TagValue>, v4: Seq<TagValue>, n: int) -> Option<(Seq<TagValue>, int)> {
    match Bools3::spec_parse(t, pv) {
        None => None,
        Some((v5, n5)) => play_p6(t.skip(n5), pv, v1, v2, v3, v4, v5, n + n5),
    }
}

/// The parse of playback stream parameters from part 6 on, given the values
/// of the parts before it and the number `n` of bytes they take.
pub open spec fn play_p6(t: Seq<u8>, pv: u16, v1: Seq<TagValue>, v2: Seq<TagValue>, v3: Seq<TagValue>, v4: Seq<TagValue>, v5: Seq<TagValue>, n: int) -> Option<(Seq<TagValue>, int)> {
    match PlayFlagsProps::spec_parse(t, pv) {
        None => None,
        Some((v6, n6)) => play_parse_rest(t.skip(n6), pv, v1, v2, v3, v4, v5, v6, n + n6),
    }
}

/// The parse of playback stream parameters from part 7 on, given the values
/// of the parts before it and the number `n` of bytes they take.
pub open spec fn play_parse_rest(t: Seq<u8>, pv: u16, v1: Seq<TagValue>, v2: Seq<TagValue>, v3: Seq<TagValue>, v4: Seq<TagValue>, v5: Seq<TagValue>, v6: Seq<TagValue>, n: int) -> Option<(Seq<TagValue>, int)> {
    match gated_parse(pv >= 14, Bools2::spec_parse(t, pv)) {
        None => None,
        Some((v7, n7)) => play_r8(t.skip(n7), pv, v1, v2, v3, v4, v5, v6, v7, n + n7),
    }
}

/// The parse of playback stream parameters from part 8 on, given the values
/// of the parts before it and the number `n` of bytes they take.
pub open spec fn play_r8(t: Seq<u8>, pv: u16, v1: Seq<TagValue>, v2: Seq<TagValue>, v3: Seq<TagValue>, v4: Seq<TagValue>, v5: Seq<TagValue>, v6: Seq<TagValue>, v7: Seq<TagValue>, n: int) -> Option<(Seq<TagValue>, int)> {
    match gated_parse(pv >= 15, Bools3::spec_parse(t, pv)) {
        None => None,
        Some((v8, n8)) => play_r9(t.skip(n8), pv, v1, v2, v3, v4, v5, v6, v7, v8, n + n8),
    }
}

/// The parse of playback stream parameters from part 9 on, given the values
/// of the parts before it and the number `n` of bytes they take.
pub open spec fn play_r9(t: Seq<u8>, pv: u16, v1: Seq<TagValue>, v2: Seq<TagValue>, v3: Seq<TagValue>, v4: Seq<TagValue>, v5: Seq<TagValue>, v6: Seq<TagValue>, v7: Seq<TagValue>, v8: Seq<TagValue>, n: int) -> Option<(Seq<TagValue>, int)> {
    match gated_parse(pv >= 17, Bools1::spec_parse(t, pv)) {
        None => None,
        Some((v9, n9)) => play_r10(t.skip(n9), pv, v1, v2, v3, v4, v5, v6, v7, v8, v9, n + n9),
    }
}

/// The parse of playback stream parameters from part 10 on, given the values
/// of the parts before it and the number `n` of bytes they take.
pub open spec fn play_r10(t: Seq<u8>, pv: u16, v1: Seq<TagValue>, v2: Seq<TagValue>, v3: Seq<TagValue>, v4: Seq<TagValue>, v5: Seq<TagValue>, v6: Seq<TagValue>, v7: Seq<TagValue>, v8: Seq<TagValue>, v9: Seq<TagValue>, n: int) -> Option<(Seq<TagValue>, int)> {
    match gated_parse(pv >= 18, Bools1::spec_parse(t, pv)) {
        None => None,
        Some((v10, n10)) => play_r11(t.skip(n10), pv, v1, v2, v3, v4, v5, v6, v7, v8, v9, v10, n + n10),
    }
}

/// The parse of playback stream parameters from part 11 on, given the values
/// of the parts before it and the number `n` of bytes they take.
pub open spec fn play_r11(t: Seq<u8>, pv: u16, v1: Seq<TagValue>, v2: Seq<TagValue>, v3: Seq<TagValue>, v4: Seq<TagValue>, v5: Seq<TagValue>, v6: Seq<TagValue>, v7: Seq<TagValue>, v8: Seq<TagValue>, v9: Seq<TagValue>, v10: Seq<TagValue>, n: int) -> Option<(Seq<TagValue>, int)> {
    match gated_parse(pv >= 21, formats_parse(t, pv)) {
        None => None,
        Some((v11, n11)) => Some((play_normalize(v1, v2, v3, v4, v5, v6, v7, v8, v9, v10, v11, pv), n + n11)),
    }
}

/// Reads the parts of playback stream parameters after the properties,
/// and puts the parameters together.
#[verifier::rlimit(100)]
#[verifier::spinoff_prover]
fn read_play_rest(
    ts: &mut TagStructReader,
    pv: u16,
    head: StreamHead,
    attr: U32s4,
    cvol: CVol1,
    b4: Bools4,
    b3: Bools3,
    fp: PlayFlagsProps,
    Ghost(n): Ghost<int>,
) -> (r: Result<PlaybackStreamParams, ProtocolError>)
    ensures
        final(ts).version() == old(ts).version(),
        match play_parse_rest(
            old(ts).rest(),
            pv,
            head.spec_values(pv),
            attr.spec_values(pv),
            cvol.spec_values(pv),
            b4.spec_values(pv),
            b3.spec_values(pv),
            fp.spec_values(pv),
            n,
        ) {
            Some((vs, m)) => (r matches Ok(v) && v.spec_values(pv) == vs && v.spec_canonical(pv)) && n <= m
                <= n + old(ts).rest().len() && final(ts).rest() == old(ts).rest().skip(m - n),
            None => r is Err,
        },
{
    let ghost s6 = ts.rest();
    let (cvolume_set, early_requests) = read_gated_bools2(ts, pv >= 14, pv, true, false)?;
    let ghost s7 = ts.rest();
    let (start_muted_set, no_inhibit_auto_suspend, fail_on_suspend) = read_gated_bools3(
        ts,
        pv >= 15,
        pv,
        true,
        false,
        false,
    )?;
    let ghost s8 = ts.rest();
    let relative_volume = read_gated_bool(ts, pv >= 17, pv)?;
    let ghost s9 = ts.rest();
    let passthrough = read_gated_bool(ts, pv >= 18, pv)?;
    let ghost s10 = ts.rest();
    let formats = read_gated_formats(ts, pv >= 21, pv)?;
    let p = build_play(
        head,
        attr,
        cvol,
        b4,
        b3,
        fp,
        cvolume_set,
        start_muted_set,
        early_requests,
        no_inhibit_auto_suspend,
        fail_on_suspend,
        relative_volume,
        passthrough,
        formats,
    );
    proof {
        let (v7, n7) = gated_parse(pv >= 14, Bools2::spec_parse(s6, pv)).unwrap();
        let (v8, n8) = gated_parse(pv >= 15, Bools3::spec_parse(s7, pv)).unwrap();
        let (v9, n9) = gated_parse(pv >= 17, Bools1::spec_parse(s8, pv)).unwrap();
        let (v10, n10) = gated_parse(pv >= 18, Bools1::spec_parse(s9, pv)).unwrap();
        let (v11, n11) = gated_parse(pv >= 21, formats_parse(s10, pv)).unwrap();
        assert(s10 =~= s6.skip(n7 + n8 + n9 + n10));
        assert(ts.rest() =~= s6.skip(n7 + n8 + n9 + n10 + n11));
        lemma_play_build(p, head, attr, cvol, b4, b3, fp, cvolume_set, start_muted_set, v7, v8, v9, v10, v11, pv);
    }
    Ok(p)
}

/// Puts playback stream parameters together from the parts read.
fn build_play(
    head: StreamHead,
    attr: U32s4,
    cvol: CVol1,
    b4: Bools4,
    b3: Bools3,
    fp: PlayFlagsProps,
    cvolume_set: bool,
    start_muted_set: bool,
    early_requests: bool,
    no_inhibit_auto_suspend: bool,
    fail_on_suspend: bool,
    relative_volume: bool,
    passthrough: bool,
    formats: Vec<FormatInfo>,
) -> (p: PlaybackStreamParams)
    ensures
        p.sample_spec == head.sample_spec,
        p.channel_map == head.channel_map,
        p.sink_index == head.device_index,
        p.sink_name == head.device_name,
        p.buffer_attr == (BufferAttr {
            max_length: head.max_length,
            target_length: attr.u0,
            pre_buffering: attr.u1,
            minimum_request_length: attr.u2,
            fragment_size: BUFFER_ATTR_DEFAULT,
        }),
        p.sync_id == attr.u3,
        p.cvolume == (if cvolume_set { Some(cvol.cvolume) } else { None::<ChannelVolume> }),
        p.props == fp.props,
        p.flags.start_corked == head.start_corked,
        p.flags.no_remap_channels == b4.b0,
        p.flags.no_remix_channels == b4.b1,
        p.flags.fix_format == b4.b2,
        p.flags.fix_rate == b4.b3,
        p.flags.fix_channels == b3.b0,
        p.flags.no_move == b3.b1,
        p.flags.variable_rate == b3.b2,
        !p.flags.peak_detect,
        p.flags.start_muted == (if start_muted_set { Some(fp.b0) } else { None::<bool> }),
        p.flags.adjust_latency == fp.b1,
        p.flags.early_requests == early_requests,
        p.flags.no_inhibit_auto_suspend == no_inhibit_auto_suspend,
        p.flags.fail_on_suspend == fail_on_suspend,
        p.flags.relative_volume == relative_volume,
        p.flags.passthrough == passthrough,
        p.formats@ == formats@,
{
    let flags = StreamFlags {
        start_corked: head.start_corked,
        no_remap_channels: b4.b0,
        no_remix_channels: b4.b1,
        fix_format: b4.b2,
        fix_rate: b4.b3,
        fix_channels: b3.b0,
        no_move: b3.b1,
        variable_rate: b3.b2,
        peak_detect: false,
        start_muted: if start_muted_set {
            Some(fp.b0)
        } else {
            None
        },
        adjust_latency: fp.b1,
        early_requests,
        no_inhibit_auto_suspend,
        fail_on_suspend,
        relative_volume,
        passthrough,
    };
    PlaybackStreamParams {
        sample_spec: head.sample_spec,
        channel_map: head.channel_map,
        sink_index: head.device_index,
        sink_name: head.device_name,
        buffer_attr: BufferAttr {
            max_length: head.max_length,
            target_length: attr.u0,
            pre_buffering: attr.u1,
            minimum_request_length: attr.u2,
            fragment_size: BUFFER_ATTR_DEFAULT,
        },
        sync_id: attr.u3,
        cvolume: if cvolume_set {
            Some(cvol.cvolume)
        } else {
            None
        },
        props: fp.props,
        formats,
        flags,
    }
}

/// The values of parameters put together from the parts read are the
/// values read, with what a read leaves out in its written form.
#[verifier::rlimit(100)]
proof fn lemma_play_build(
    p: PlaybackStreamParams,
    head: StreamHead,
    attr: U32s4,
    cvol: CVol1,
    b4: Bools4,
    b3: Bools3,
    fp: PlayFlagsProps,
    cvolume_set: bool,
    start_muted_set: bool,
    v7: Seq<TagValue>,
    v8: Seq<TagValue>,
    v9: Seq<TagValue>,
    v10: Seq<TagValue>,
    v11: Seq<TagValue>,
    pv: u16,
)
    requires
        p.sample_spec == head.sample_spec,
        p.channel_map == head.channel_map,
        p.sink_index == head.device_index,
        p.sink_name == head.device_name,
        p.buffer_attr == (BufferAttr {
            max_length: head.max_length,
            target_length: attr.u0,
            pre_buffering: attr.u1,
            minimum_request_length: attr.u2,
            fragment_size: BUFFER_ATTR_DEFAULT,
        }),
        p.sync_id == attr.u3,
        p.cvolume == (if cvolume_set { Some(cvol.cvolume) } else { None::<ChannelVolume> }),
        p.props == fp.props,
        p.flags.start_corked == head.start_corked,
        p.flags.no_remap_channels == b4.b0,
        p.flags.no_remix_channels == b4.b1,
        p.flags.fix_format == b4.b2,
        p.flags.fix_rate == b4.b3,
        p.flags.fix_channels == b3.b0,
        p.flags.no_move == b3.b1,
        p.flags.variable_rate == b3.b2,
        !p.flags.peak_detect,
        p.flags.start_muted == (if start_muted_set { Some(fp.b0) } else { None::<bool> }),
        p.flags.adjust_latency == fp.b1,
        v7 == gated(pv >= 14, seq![TagValue::Bool(cvolume_set), TagValue::Bool(p.flags.early_requests)]),
        pv < 14 ==> cvolume_set && !p.flags.early_requests,
        v8 == gated(
            pv >= 15,
            seq![
                TagValue::Bool(start_muted_set),
                TagValue::Bool(p.flags.no_inhibit_auto_suspend),
                TagValue::Bool(p.flags.fail_on_suspend),
            ],
        ),
        pv < 15 ==> start_muted_set && !p.flags.no_inhibit_auto_suspend && !p.flags.fail_on_suspend,
        v9 == gated(pv >= 17, seq![TagValue::Bool(p.flags.relative_volume)]),
        pv < 17 ==> !p.flags.relative_volume,
        v10 == gated(pv >= 18, seq![TagValue::Bool(p.flags.passthrough)]),
        pv < 18 ==> !p.flags.passthrough,
        v11 == gated(pv >= 21, formats_values(p.formats@, pv)),
        pv < 21 ==> p.formats@.len() == 0,
    ensures
        p.spec_values(pv) == play_normalize(
            head.spec_values(pv),
            attr.spec_values(pv),
            cvol.spec_values(pv),
            b4.spec_values(pv),
            b3.spec_values(pv),
            fp.spec_values(pv),
            v7,
            v8,
            v9,
            v10,
            v11,
            pv,
        ),
        p.spec_canonical(pv),
{
    assert(play_seg1(p) == head.spec_values(pv));
    assert(play_seg2(p) == attr.spec_values(pv));
    assert(play_seg4(p) == b4.spec_values(pv));
    assert(play_seg5(p) == b3.spec_values(pv));
    assert(gated(pv >= 14, play_seg7(p)) == v7);
    assert(gated(pv >= 15, play_seg8(p)) == v8);
    assert(gated(pv >= 17, play_seg9(p)) == v9);
    assert(gated(pv >= 18, play_seg10(p)) == v10);
    if pv >= 14 && !cvolume_set {
        assert(v7[0] == TagValue::Bool(false));
        assert(channels_of(head.spec_values(pv)[0]) == p.sample_spec.channels);
    } else {
        assert(play_seg3(p) == cvol.spec_values(pv));
    }
    if pv >= 15 && !start_muted_set {
        assert(v8[0] == TagValue::Bool(false));
        assert(fp.spec_values(pv).update(0, TagValue::Bool(false)) =~= play_seg6(p));
    } else {
        assert(play_seg6(p) == fp.spec_values(pv));
    }
    assert(p.spec_values(pv) == play_normalize(
        head.spec_values(pv),
        attr.spec_values(pv),
        cvol.spec_values(pv),
        b4.spec_values(pv),
        b3.spec_values(pv),
        fp.spec_values(pv),
        v7,
        v8,
        v9,
        v10,
        v11,
        pv,
    ));
}

/// The bytes of playback stream parameters parse, part by part, to their
/// values up to the properties, and leave the rest to the parts that depend
/// on the protocol version.
#[verifier::rlimit(100)]
proof fn lemma_play_front_roundtrip(p: PlaybackStreamParams, pv: u16, rest: Seq<u8>)
    requires
        p.spec_encodable(pv),
    ensures
        play_p1(values_bytes(p.spec_values(pv)) + rest, pv) == play_parse_rest(
            values_bytes(play_back(p, pv)) + rest,
            pv,
            play_seg1(p),
            play_seg2(p),
            play_seg3(p),
            play_seg4(p),
            play_seg5(p),
            play_seg6(p),
            values_bytes(play_front(p) + play_middle(p)).len() as int,
        ),
{
    let a1 = play_seg1(p);
    let a2 = play_seg2(p);
    let a3 = play_seg3(p);
    let a4 = play_seg4(p);
    let a5 = play_seg5(p);
    let a6 = play_seg6(p);
    let back = play_back(p, pv);
    let t6 = a6 + back;
    let t5 = a5 + t6;
    let t4 = a4 + t5;
    let t3 = a3 + t4;
    let t2 = a2 + t3;
    let t1 = a1 + t2;
    assert(t1 =~= p.spec_values(pv));
    lemma_values_wf_concat(a1, t2);
    lemma_values_wf_concat(a2, t3);
    lemma_values_wf_concat(a3, t4);
    lemma_values_wf_concat(a4, t5);
    lemma_values_wf_concat(a5, t6);
    lemma_values_wf_concat(a6, back);
    lemma_sample_format_roundtrip(p.sample_spec.format);
    lemma_channel_map_valid(p.channel_map);
    lemma_seg_bytes(a1, t2, rest);
    lemma_parse_values_bytes(a1, values_bytes(t2) + rest);
    lemma_seg_bytes(a2, t3, rest);
    lemma_parse_values_bytes(a2, values_bytes(t3) + rest);
    lemma_seg_bytes(a3, t4, rest);
    lemma_parse_values_bytes(a3, values_bytes(t4) + rest);
    lemma_seg_bytes(a4, t5, rest);
    lemma_parse_values_bytes(a4, values_bytes(t5) + rest);
    lemma_seg_bytes(a5, t6, rest);
    lemma_parse_values_bytes(a5, values_bytes(t6) + rest);
    lemma_seg_bytes(a6, back, rest);
    lemma_parse_values_bytes(a6, values_bytes(back) + rest);
    lemma_values_bytes_concat(a1, a2);
    lemma_values_bytes_concat(a3, a4);
    lemma_values_bytes_concat(a3 + a4, a5);
    lemma_values_bytes_concat(a3 + a4 + a5, a6);
    lemma_values_bytes_concat(a1 + a2, a3 + a4 + a5 + a6);
    assert(play_front(p) + play_middle(p) =~= a1 + a2 + (a3 + a4 + a5 + a6));
}

/// The bytes of the last two parts of playback stream parameters that
/// depend on the protocol version parse back to them.
#[verifier::rlimit(100)]
proof fn lemma_play_last_roundtrip(
    p: PlaybackStreamParams,
    pv: u16,
    rest: Seq<u8>,
    v1: Seq<TagValue>,
    v2: Seq<TagValue>,
    v3: Seq<TagValue>,
    v4: Seq<TagValue>,
    v5: Seq<TagValue>,
    v6: Seq<TagValue>,
    v7: Seq<TagValue>,
    v8: Seq<TagValue>,
    v9: Seq<TagValue>,
    n: int,
)
    requires
        values_wf(gated(pv >= 18, play_seg10(p))),
        p.formats@.len() <= 255,
        forall|i: int| 0 <= i < p.formats@.len() ==> (#[trigger] p.formats@[i]).spec_encodable(pv),
        pv < 21 ==> p.formats@.len() == 0,
    ensures
        play_r10(
            values_bytes(gated(pv >= 18, play_seg10(p)) + gated(pv >= 21, formats_values(p.formats@, pv))) + rest,
            pv,
            v1,
            v2,
            v3,
            v4,
            v5,
            v6,
            v7,
            v8,
            v9,
            n,
        ) == Some(
            (
                play_normalize(
                    v1,
                    v2,
                    v3,
                    v4,
                    v5,
                    v6,
                    v7,
                    v8,
                    v9,
                    gated(pv >= 18, play_seg10(p)),
                    gated(pv >= 21, formats_values(p.formats@, pv)),
                    pv,
                ),
                n + values_bytes(gated(pv >= 18, play_seg10(p)) + gated(pv >= 21, formats_values(p.formats@, pv))).len(),
            ),
        ),
{
    let a10 = gated(pv >= 18, play_seg10(p));
    let a11 = gated(pv >= 21, formats_values(p.formats@, pv));
    lemma_seg_bytes(a10, a11, rest);
    lemma_parse_values_bytes(a10, values_bytes(a11) + rest);
    if pv >= 21 {
        lemma_formats_roundtrip(p.formats@, pv, rest);
    }
    assert(values_bytes(Seq::<TagValue>::empty()) =~= Seq::<u8>::empty());
    assert(Seq::<u8>::empty() + rest =~= rest);
    assert(rest.skip(0) =~= rest);
    lemma_values_bytes_concat(a10, a11);
}

/// The bytes of the parts of playback stream parameters that depend on the
/// protocol version parse back to them.
#[verifier::rlimit(100)]
#[verifier::spinoff_prover]
proof fn lemma_play_back_roundtrip(
    p: PlaybackStreamParams,
    pv: u16,
    rest: Seq<u8>,
    v1: Seq<TagValue>,
    v2: Seq<TagValue>,
    v3: Seq<TagValue>,
    v4: Seq<TagValue>,
    v5: Seq<TagValue>,
    v6: Seq<TagValue>,
    n: int,
)
    requires
        p.spec_encodable(pv),
    ensures
        play_parse_rest(values_bytes(play_back(p, pv)) + rest, pv, v1, v2, v3, v4, v5, v6, n) == Some(
            (
                play_normalize(
                    v1,
                    v2,
                    v3,
                    v4,
                    v5,
                    v6,
                    gated(pv >= 14, play_seg7(p)),
                    gated(pv >= 15, play_seg8(p)),
                    gated(pv >= 17, play_seg9(p)),
                    gated(pv >= 18, play_seg10(p)),
                    gated(pv >= 21, formats_values(p.formats@, pv)),
                    pv,
                ),
                n + values_bytes(play_back(p, pv)).len(),
            ),
        ),
{
    let a7 = gated(pv >= 14, play_seg7(p));
    let a8 = gated(pv >= 15, play_seg8(p));
    let a9 = gated(pv >= 17, play_seg9(p));
    let a10 = gated(pv >= 18, play_seg10(p));
    let a11 = gated(pv >= 21, formats_values(p.formats@, pv));
    let t10 = a10 + a11;
    let t9 = a9 + t10;
    let t8 = a8 + t9;
    let t7 = a7 + t8;
    assert(t7 =~= play_back(p, pv));
    lemma_values_wf_concat(play_front(p) + play_middle(p), play_back(p, pv));
    lemma_values_wf_concat(a7, t8);
    lemma_values_wf_concat(a8, t9);
    lemma_values_wf_concat(a9, t10);
    lemma_values_wf_concat(a10, a11);
    lemma_seg_bytes(a7, t8, rest);
    lemma_parse_values_bytes(a7, values_bytes(t8) + rest);
    lemma_seg_bytes(a8, t9, rest);
    lemma_parse_values_bytes(a8, values_bytes(t9) + rest);
    lemma_seg_bytes(a9, t10, rest);
    lemma_parse_values_bytes(a9, values_bytes(t10) + rest);
    let n7 = values_bytes(a7).len() as int;
    let n8 = values_bytes(a8).len() as int;
    let n9 = values_bytes(a9).len() as int;
    lemma_play_last_roundtrip(p, pv, rest, v1, v2, v3, v4, v5, v6, a7, a8, a9, n + n7 + n8 + n9);
    assert(values_bytes(Seq::<TagValue>::empty()) =~= Seq::<u8>::empty());
    assert(rest.skip(0) =~= rest);
    lemma_values_bytes_concat(a7, t8);
    lemma_values_bytes_concat(a8, t9);
    lemma_values_bytes_concat(a9, t10);
}

/// Playback stream parameters are read back from their bytes.
#[verifier::rlimit(100)]
proof fn lemma_play_roundtrip(p: PlaybackStreamParams, pv: u16, rest: Seq<u8>)
    requires
        p.spec_encodable(pv),
    ensures
        p.spec_canonical(pv),
        PlaybackStreamParams::spec_parse(values_bytes(p.spec_values(pv)) + rest, pv) == Some(
            (p.spec_values(pv), values_bytes(p.spec_values(pv)).len() as int),
        ),
{
    let a1 = play_seg1(p);
    let a3 = play_seg3(p);
    let a6 = play_seg6(p);
    let a7 = gated(pv >= 14, play_seg7(p));
    let a8 = gated(pv >= 15, play_seg8(p));
    lemma_play_front_roundtrip(p, pv, rest);
    let n = values_bytes(play_front(p) + play_middle(p)).len() as int;
    lemma_play_back_roundtrip(p, pv, rest, a1, play_seg2(p), a3, play_seg4(p), play_seg5(p), a6, n);
    lemma_values_bytes_concat(play_front(p) + play_middle(p), play_back(p, pv));
    if pv >= 14 && p.cvolume is None {
        assert(a7[0] == TagValue::Bool(false));
        assert(a3 =~= seq![TagValue::CVolume(Seq::new(channels_of(a1[0]) as nat, |i: int| VOLUME_MUTED))]);
    }
    if pv >= 15 && p.flags.start_muted is None {
        assert(a8[0] == TagValue::Bool(false));
        assert(a6.update(0, TagValue::Bool(false)) =~= a6);
    }
    assert(play_normalize(
        a1,
        play_seg2(p),
        a3,
        play_seg4(p),
        play_seg5(p),
        a6,
        a7,
        a8,
        gated(pv >= 17, play_seg9(p)),
        gated(pv >= 18, play_seg10(p)),
        gated(pv >= 21, formats_values(p.formats@, pv)),
        pv,
    ) == p.spec_values(pv));
}


/// The values [`PlaybackStreamParams`] are sent as, position by position, at
/// a protocol version.
#[verifier::rlimit(100)]
pub proof fn lemma_playback_stream_params_layout(q: PlaybackStreamParams, vs: Seq<TagValue>, protocol_version: u16)
    requires
        q.spec_values(protocol_version) == vs,
    ensures
        vs =~= seq![
            sample_spec_value(q.sample_spec),
            TagValue::ChannelMap(q.channel_map@),
            index_value(q.sink_index),
            string_value(opt_cstr_view(q.sink_name)),
            TagValue::U32(q.buffer_attr.max_length),
            TagValue::Bool(q.flags.start_corked),
            TagValue::U32(q.buffer_attr.target_length),
            TagValue::U32(q.buffer_attr.pre_buffering),
            TagValue::U32(q.buffer_attr.minimum_request_length),
            TagValue::U32(q.sync_id),
            TagValue::CVolume(playback_cvolume_view(q)),
            TagValue::Bool(q.flags.no_remap_channels),
            TagValue::Bool(q.flags.no_remix_channels),
            TagValue::Bool(q.flags.fix_format),
            TagValue::Bool(q.flags.fix_rate),
            TagValue::Bool(q.flags.fix_channels),
            TagValue::Bool(q.flags.no_move),
            TagValue::Bool(q.flags.variable_rate),
            TagValue::Bool(start_muted_value(q.flags)),
            TagValue::Bool(q.flags.adjust_latency),
            TagValue::PropList(q.props@),
        ] + (if protocol_version >= 14 { seq![TagValue::Bool(q.cvolume is Some), TagValue::Bool(q.flags.early_requests)] } else { Seq::empty() }) + (if protocol_version >= 15 { seq![TagValue::Bool(q.flags.start_muted is Some), TagValue::Bool(q.flags.no_inhibit_auto_suspend), TagValue::Bool(q.flags.fail_on_suspend)] } else { Seq::empty() }) + (if protocol_version >= 17 { seq![TagValue::Bool(q.flags.relative_volume)] } else { Seq::empty() }) + (if protocol_version >= 18 { seq![TagValue::Bool(q.flags.passthrough)] } else { Seq::empty() })
            + (if protocol_version >= 21 { formats_values(q.formats@, protocol_version) } else { Seq::empty() }),
{
}


/// The values a [`CreatePlaybackStreamReply`] is sent as, position by
/// position, at a protocol version.
pub proof fn lemma_create_playback_stream_reply_layout(q: CreatePlaybackStreamReply, vs: Seq<TagValue>, protocol_version: u16)
    requires
        q.spec_values(protocol_version) == vs,
    ensures
        vs =~= seq![
            TagValue::U32(q.channel),
            TagValue::U32(q.stream_index),
            TagValue::U32(q.requested_bytes),
            TagValue::U32(q.buffer_attr.max_length),
            TagValue::U32(q.buffer_attr.target_length),
            TagValue::U32(q.buffer_attr.pre_buffering),
            TagValue::U32(q.buffer_attr.minimum_request_length),
            sample_spec_value(q.sample_spec),
            TagValue::ChannelMap(q.channel_map@),
        ] + seq![
            TagValue::U32(q.sink_index),
            string_value(opt_cstr_view(q.sink_name)),
            TagValue::Bool(q.suspended),
            TagValue::Usec(q.stream_latency),
        ] + (if protocol_version >= 21 { seq![crate::protocol::serde::format_info::format_info_value(q.format)] } else { Seq::empty() }),
{
}

} // verus!
