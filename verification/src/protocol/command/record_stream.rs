//! Creating record streams.

use vstd::prelude::*;

use crate::protocol::error::ProtocolError;
use crate::protocol::serde::channel_map::ChannelMap;
use crate::protocol::serde::cstr::CString;
use crate::protocol::serde::format_info::FormatInfo;
use crate::protocol::serde::sample_spec::SampleSpec;
use crate::protocol::serde::wire::{TagValue, lemma_values_bytes_concat, values_bytes};
use crate::protocol::serde::{TagStructRead, TagStructReader, TagStructWrite, TagStructWriter};
use crate::protocol::stream::BufferAttr;
use crate::protocol::serde::fields::{lemma_values_bytes_1, lemma_values_bytes_6};
use crate::protocol::serde::channel_map::lemma_channel_map_valid;
use crate::protocol::serde::props::Props;
use crate::protocol::serde::sample_spec::{lemma_sample_format_roundtrip, sample_spec_value};
use crate::protocol::serde::volume::ChannelVolume;
use crate::protocol::serde::wire::{lemma_parse_values_bytes, values_wf};
use crate::protocol::serde::{index_encodable, index_value, opt_cstr_view, string_value};
use crate::protocol::stream::{BUFFER_ATTR_DEFAULT, StreamFlags};
use super::stream_params::{
    Bools1, Bools2, Bools3, Bools4, RecFlagsProps, RecTail, StreamHead, U32s1, formats_parse,
    formats_values, gated, gated_parse, lemma_append_values, lemma_formats_roundtrip, lemma_seg_bytes,
    lemma_values_wf_concat, read_gated_bool, read_gated_bools2, read_gated_formats, read_gated_rec_tail,
    start_muted_value, write_formats,
};
use super::CommandReply;
use super::stream_reply::{RecordReplyHead, StreamReplyTail};

verus! {

/// The server reply to creating a record stream.
#[derive(Debug, Clone, PartialEq, Eq)]
pub struct CreateRecordStreamReply {
    /// The channel of the stream, which other commands and the stream's data
    /// refer to.
    pub channel_index: u32,

    /// The index of the stream on the server.
    pub stream_index: u32,

    /// The attributes of the created buffer; only the maximum length and
    /// the fragment size are sent.
    pub buffer_attr: BufferAttr,

    /// The final sample format.
    pub sample_spec: SampleSpec,

    /// The final channel map.
    pub channel_map: ChannelMap,

    /// The index of the device the stream is connected to.
    pub sink_index: u32,

    /// The name of the device the stream is connected to.
    pub sink_name: Option<CString>,

    /// Whether the stream is suspended.
    pub suspended: bool,

    /// The latency of the stream, in microseconds.
    pub stream_latency: u64,

    /// The final format of the stream; sent from protocol version 21 on.
    pub format: FormatInfo,
}

impl CreateRecordStreamReply {
    /// The fields that the reply sends up to the channel map.
    pub closed spec fn head(&self) -> RecordReplyHead {
        RecordReplyHead { channel_index: self.channel_index, stream_index: self.stream_index, buffer_attr: self.buffer_attr, sample_spec: self.sample_spec, channel_map: self.channel_map }
    }

    /// The fields that the reply sends after the channel map.
    pub closed spec fn tail(&self) -> StreamReplyTail {
        StreamReplyTail { sink_index: self.sink_index, sink_name: self.sink_name, suspended: self.suspended, stream_latency: self.stream_latency, format: self.format }
    }
}

impl TagStructWrite for CreateRecordStreamReply {
    open spec fn spec_values(&self, protocol_version: u16) -> Seq<TagValue> {
        self.head().spec_values(protocol_version) + self.tail().spec_values(protocol_version)
    }

    open spec fn spec_writable(&self) -> bool {
        true
    }

    fn write(&self, w: &mut TagStructWriter, protocol_version: u16) -> (r: Result<(), ProtocolError>) {
        let h = RecordReplyHead { channel_index: self.channel_index, stream_index: self.stream_index, buffer_attr: self.buffer_attr, sample_spec: self.sample_spec, channel_map: self.channel_map.clone() };
        let sink_name = match &self.sink_name {
            Some(n) => Some(n.duplicate()),
            None => None,
        };
        let format = FormatInfo { encoding: self.format.encoding, props: self.format.props.clone() };
        let t = StreamReplyTail {
            sink_index: self.sink_index,
            sink_name,
            suspended: self.suspended,
            stream_latency: self.stream_latency,
            format,
        };
        assert(h.spec_values(protocol_version) == self.head().spec_values(protocol_version));
        assert(t.spec_values(protocol_version) == self.tail().spec_values(protocol_version));
        h.write(w, protocol_version)?;
        t.write(w, protocol_version)?;
        proof {
            lemma_values_bytes_concat(
                self.head().spec_values(protocol_version),
                self.tail().spec_values(protocol_version),
            );
        }
        assert(w.bytes() =~= old(w).bytes() + values_bytes(self.spec_values(protocol_version)));
        Ok(())
    }
}

impl TagStructRead for CreateRecordStreamReply {
    open spec fn spec_parse(s: Seq<u8>, protocol_version: u16) -> Option<(Seq<TagValue>, int)> {
        match RecordReplyHead::spec_parse(s, protocol_version) {
            Some((v1, n1)) => match StreamReplyTail::spec_parse(s.skip(n1), protocol_version) {
                Some((v2, n2)) => Some((v1 + v2, n1 + n2)),
                None => None,
            },
            None => None,
        }
    }

    open spec fn spec_canonical(&self, protocol_version: u16) -> bool {
        self.head().spec_canonical(protocol_version) && self.tail().spec_canonical(protocol_version)
    }

    open spec fn spec_encodable(&self, protocol_version: u16) -> bool {
        self.head().spec_encodable(protocol_version) && self.tail().spec_encodable(protocol_version)
    }

    fn read(ts: &mut TagStructReader, protocol_version: u16) -> (r: Result<Self, ProtocolError>) {
        let ghost s = ts.rest();
        let h = RecordReplyHead::read(ts, protocol_version)?;
        let ghost s1 = ts.rest();
        let t = StreamReplyTail::read(ts, protocol_version)?;
        proof {
            if let Some((v1, n1)) = RecordReplyHead::spec_parse(s, protocol_version) {
                if let Some((v2, n2)) = StreamReplyTail::spec_parse(s1, protocol_version) {
                    assert(s.skip(n1).skip(n2) =~= s.skip(n1 + n2));
                }
            }
        }
        let r = CreateRecordStreamReply { channel_index: h.channel_index, stream_index: h.stream_index, buffer_attr: h.buffer_attr, sample_spec: h.sample_spec, channel_map: h.channel_map, sink_index: t.sink_index, sink_name: t.sink_name, suspended: t.suspended, stream_latency: t.stream_latency, format: t.format };
        assert(r.head() == h);
        assert(r.tail() == t);
        Ok(r)
    }

    proof fn lemma_roundtrip(&self, protocol_version: u16, rest: Seq<u8>) {
        let hv = self.head().spec_values(protocol_version);
        let tv = self.tail().spec_values(protocol_version);
        lemma_values_bytes_concat(hv, tv);
        assert(values_bytes(hv + tv) + rest =~= values_bytes(hv) + (values_bytes(tv) + rest));
        self.head().lemma_roundtrip(protocol_version, values_bytes(tv) + rest);
        assert((values_bytes(hv) + (values_bytes(tv) + rest)).skip(values_bytes(hv).len() as int)
            =~= values_bytes(tv) + rest);
        self.tail().lemma_roundtrip(protocol_version, rest);
    }
}

impl CommandReply for CreateRecordStreamReply {}


/// Parameters for creating a record stream.
#[derive(Debug, Clone, PartialEq, Eq)]
pub struct RecordStreamParams {
    /// The format of the samples of the stream.
    pub sample_spec: SampleSpec,

    /// The positions of the channels of the stream.
    pub channel_map: ChannelMap,

    /// The index of the source to connect to.
    pub source_index: Option<u32>,

    /// The name of the source to connect to; ignored if the index is set.
    pub source_name: Option<CString>,

    /// The buffer attributes of the stream; only the maximum length and the
    /// fragment size are sent.
    pub buffer_attr: BufferAttr,

    /// The flags of the stream.
    pub flags: StreamFlags,

    /// Whether the stream records directly from a sink input.
    pub direct_on_input: bool,

    /// The volume of the stream; `None` leaves it to the server. Sent from
    /// protocol version 22 on.
    pub cvolume: Option<ChannelVolume>,

    /// Properties of the stream.
    pub props: Props,

    /// The formats the client offers; sent from protocol version 22 on.
    pub formats: Vec<FormatInfo>,
}

/// The volume sent for a record stream: the one it has, or a volume of no
/// channels when it has none.
pub open spec fn record_cvolume_view(p: RecordStreamParams) -> Seq<u32> {
    match p.cvolume {
        Some(v) => v@,
        None => Seq::empty(),
    }
}

/// The values of record stream parameters up to the maximum length and the
/// corked flag.
pub open spec fn rec_seg1(p: RecordStreamParams) -> Seq<TagValue> {
    seq![
        sample_spec_value(p.sample_spec),
        TagValue::ChannelMap(p.channel_map@),
        index_value(p.source_index),
        string_value(opt_cstr_view(p.source_name)),
        TagValue::U32(p.buffer_attr.max_length),
        TagValue::Bool(p.flags.start_corked),
    ]
}

/// The value of the fragment size.
pub open spec fn rec_seg2(p: RecordStreamParams) -> Seq<TagValue> {
    seq![TagValue::U32(p.buffer_attr.fragment_size)]
}

/// The values of the first four channel flags.
pub open spec fn rec_seg3(p: RecordStreamParams) -> Seq<TagValue> {
    seq![
        TagValue::Bool(p.flags.no_remap_channels),
        TagValue::Bool(p.flags.no_remix_channels),
        TagValue::Bool(p.flags.fix_format),
        TagValue::Bool(p.flags.fix_rate),
    ]
}

/// The values of the other three channel flags.
pub open spec fn rec_seg4(p: RecordStreamParams) -> Seq<TagValue> {
    seq![
        TagValue::Bool(p.flags.fix_channels),
        TagValue::Bool(p.flags.no_move),
        TagValue::Bool(p.flags.variable_rate),
    ]
}

/// The values of the peak and latency flags, the properties, and the
/// direct-on-input flag.
pub open spec fn rec_seg5(p: RecordStreamParams) -> Seq<TagValue> {
    seq![
        TagValue::Bool(p.flags.peak_detect),
        TagValue::Bool(p.flags.adjust_latency),
        TagValue::PropList(p.props@),
        TagValue::Bool(p.direct_on_input),
    ]
}

/// The value sent from protocol version 14 on.
pub open spec fn rec_seg6(p: RecordStreamParams) -> Seq<TagValue> {
    seq![TagValue::Bool(p.flags.early_requests)]
}

/// The values sent from protocol version 15 on.
pub open spec fn rec_seg7(p: RecordStreamParams) -> Seq<TagValue> {
    seq![TagValue::Bool(p.flags.no_inhibit_auto_suspend), TagValue::Bool(p.flags.fail_on_suspend)]
}

/// The values sent after the formats from protocol version 22 on.
pub open spec fn rec_seg9(p: RecordStreamParams) -> Seq<TagValue> {
    seq![
        TagValue::CVolume(record_cvolume_view(p)),
        TagValue::Bool(start_muted_value(p.flags)),
        TagValue::Bool(p.cvolume is Some),
        TagValue::Bool(p.flags.start_muted is Some),
        TagValue::Bool(p.flags.relative_volume),
        TagValue::Bool(p.flags.passthrough),
    ]
}

/// The values of the first two parts.
pub open spec fn rec_front(p: RecordStreamParams) -> Seq<TagValue> {
    rec_seg1(p) + rec_seg2(p)
}

/// The values of the flags, the properties and the direct-on-input flag.
pub open spec fn rec_middle(p: RecordStreamParams) -> Seq<TagValue> {
    rec_seg3(p) + rec_seg4(p) + rec_seg5(p)
}

/// The values that depend on the protocol version.
pub open spec fn rec_back(p: RecordStreamParams, pv: u16) -> Seq<TagValue> {
    gated(pv >= 14, rec_seg6(p)) + gated(pv >= 15, rec_seg7(p)) + gated(pv >= 22, formats_values(p.formats@, pv))
        + gated(pv >= 22, rec_seg9(p))
}

/// The values after the formats as read, with what a read leaves out put
/// back in its written form: the volume of a stream that sets none, and
/// the muting of a stream that leaves it to the server.
pub open spec fn rec_tail_normalize(t: Seq<TagValue>) -> Seq<TagValue> {
    if t.len() == 6 {
        seq![
            if t[2] == TagValue::Bool(false) { TagValue::CVolume(Seq::empty()) } else { t[0] },
            if t[3] == TagValue::Bool(false) { TagValue::Bool(false) } else { t[1] },
            t[2],
            t[3],
            t[4],
            t[5],
        ]
    } else {
        t
    }
}

/// The values read for record stream parameters, part by part, with what
/// a read leaves out in its written form.
pub open spec fn rec_normalize(
    v1: Seq<TagValue>,
    v2: Seq<TagValue>,
    v3: Seq<TagValue>,
    v4: Seq<TagValue>,
    v5: Seq<TagValue>,
    v6: Seq<TagValue>,
    v7: Seq<TagValue>,
    v8: Seq<TagValue>,
    v9: Seq<TagValue>,
) -> Seq<TagValue> {
    (v1 + v2) + (v3 + v4 + v5) + (v6 + v7 + v8 + rec_tail_normalize(v9))
}

impl TagStructWrite for RecordStreamParams {
    open spec fn spec_values(&self, protocol_version: u16) -> Seq<TagValue> {
        rec_front(*self) + rec_middle(*self) + rec_back(*self, protocol_version)
    }

    /// The number of formats fits a byte.
    open spec fn spec_writable(&self) -> bool {
        self.formats@.len() <= 255
    }

    #[verifier::rlimit(100)]
    fn write(&self, w: &mut TagStructWriter, protocol_version: u16) -> (r: Result<(), ProtocolError>) {
        let ghost b0 = w.bytes();
        self.write_front(w)?;
        self.write_middle(w)?;
        proof {
            lemma_append_values(b0, rec_front(*self), rec_middle(*self));
        }
        self.write_back(w, protocol_version)?;
        proof {
            lemma_append_values(b0, rec_front(*self) + rec_middle(*self), rec_back(*self, protocol_version));
        }
        Ok(())
    }
}

impl RecordStreamParams {
    /// Writes the first two parts.
    fn write_front(&self, w: &mut TagStructWriter) -> (r: Result<(), ProtocolError>)
        ensures
            r == Ok::<(), ProtocolError>(()),
            final(w).bytes() == old(w).bytes() + values_bytes(rec_front(*self)),
            final(w).version() == old(w).version(),
    {
        let ghost b0 = w.bytes();
        let ghost p = *self;
        w.write_sample_spec(self.sample_spec)?;
        w.write_channel_map(&self.channel_map)?;
        w.write_index(self.source_index)?;
        w.write_string(self.source_name.as_ref())?;
        w.write_u32(self.buffer_attr.max_length)?;
        w.write_bool(self.flags.start_corked)?;
        proof {
            lemma_values_bytes_6(
                sample_spec_value(p.sample_spec),
                TagValue::ChannelMap(p.channel_map@),
                index_value(p.source_index),
                string_value(opt_cstr_view(p.source_name)),
                TagValue::U32(p.buffer_attr.max_length),
                TagValue::Bool(p.flags.start_corked),
            );
            assert(w.bytes() =~= b0 + values_bytes(rec_seg1(p)));
        }
        w.write_u32(self.buffer_attr.fragment_size)?;
        proof {
            lemma_values_bytes_1(TagValue::U32(p.buffer_attr.fragment_size));
            lemma_append_values(b0, rec_seg1(p), rec_seg2(p));
        }
        Ok(())
    }

    /// Writes the flags, the properties and the direct-on-input flag.
    fn write_middle(&self, w: &mut TagStructWriter) -> (r: Result<(), ProtocolError>)
        ensures
            r == Ok::<(), ProtocolError>(()),
            final(w).bytes() == old(w).bytes() + values_bytes(rec_middle(*self)),
            final(w).version() == old(w).version(),
    {
        let pv = w.protocol_version();
        let ghost p = *self;
        let f4 = Bools4 {
            b0: self.flags.no_remap_channels,
            b1: self.flags.no_remix_channels,
            b2: self.flags.fix_format,
            b3: self.flags.fix_rate,
        };
        let f3 = Bools3 { b0: self.flags.fix_channels, b1: self.flags.no_move, b2: self.flags.variable_rate };
        let fp = RecFlagsProps {
            b0: self.flags.peak_detect,
            b1: self.flags.adjust_latency,
            props: self.props.clone(),
            b2: self.direct_on_input,
        };
        let ghost b0 = w.bytes();
        proof {
            assert(f4.spec_values(pv) == rec_seg3(p));
            assert(f3.spec_values(pv) == rec_seg4(p));
            assert(fp.spec_values(pv) == rec_seg5(p));
        }
        f4.write(w, pv)?;
        f3.write(w, pv)?;
        proof {
            lemma_append_values(b0, rec_seg3(p), rec_seg4(p));
        }
        fp.write(w, pv)?;
        proof {
            lemma_append_values(b0, rec_seg3(p) + rec_seg4(p), rec_seg5(p));
        }
        Ok(())
    }

    /// Writes the values that depend on the protocol version.
    fn write_back(&self, w: &mut TagStructWriter, pv: u16) -> (r: Result<(), ProtocolError>)
        requires
            self.spec_writable(),
        ensures
            r == Ok::<(), ProtocolError>(()),
            final(w).bytes() == old(w).bytes() + values_bytes(rec_back(*self, pv)),
            final(w).version() == old(w).version(),
    {
        let ghost p = *self;
        let g6 = Bools1 { b0: self.flags.early_requests };
        let g7 = Bools2 { b0: self.flags.no_inhibit_auto_suspend, b1: self.flags.fail_on_suspend };
        let cvolume = match &self.cvolume {
            Some(v) => *v,
            None => ChannelVolume::empty(),
        };
        let muted = match self.flags.start_muted {
            Some(b) => b,
            None => false,
        };
        let t = RecTail {
            cvolume,
            start_muted: muted,
            cvolume_set: self.cvolume.is_some(),
            start_muted_set: self.flags.start_muted.is_some(),
            relative_volume: self.flags.relative_volume,
            passthrough: self.flags.passthrough,
        };
        let ghost b0 = w.bytes();
        let ghost a6 = gated(pv >= 14, rec_seg6(p));
        let ghost a7 = gated(pv >= 15, rec_seg7(p));
        let ghost a8 = gated(pv >= 22, formats_values(p.formats@, pv));
        let ghost a9 = gated(pv >= 22, rec_seg9(p));
        proof {
            assert(g6.spec_values(pv) == rec_seg6(p));
            assert(g7.spec_values(pv) == rec_seg7(p));
            assert(cvolume@ =~= record_cvolume_view(p));
            assert(t.spec_values(pv) == rec_seg9(p));
            lemma_append_values(b0, Seq::empty(), a6);
            assert(values_bytes(Seq::<TagValue>::empty()) =~= Seq::<u8>::empty());
            assert(b0 + Seq::<u8>::empty() =~= b0);
            assert(Seq::<TagValue>::empty() + a6 =~= a6);
        }
        if pv >= 14 {
            g6.write(w, pv)?;
        }
        proof {
            lemma_append_values(b0, a6, a7);
        }
        if pv >= 15 {
            g7.write(w, pv)?;
        }
        proof {
            lemma_append_values(b0, a6 + a7, a8);
        }
        if pv >= 22 {
            write_formats(w, &self.formats, pv)?;
        }
        proof {
            lemma_append_values(b0, a6 + a7 + a8, a9);
        }
        if pv >= 22 {
            t.write(w, pv)?;
        }
        Ok(())
    }
}

/// The parse of record stream parameters from part `k` on is spelled out in
/// the functions below, part by part, then the values put together.
pub open spec fn rec_p1(t: Seq<u8>, pv: u16) -> Option<(Seq<TagValue>, int)> {
    match StreamHead::spec_parse(t, pv) {
        None => None,
        Some((v1, n1)) => rec_p2(t.skip(n1), pv, v1, n1),
    }
}

/// The parse of record stream parameters from the fragment size on.
pub open spec fn rec_p2(t: Seq<u8>, pv: u16, v1: Seq<TagValue>, n: int) -> Option<(Seq<TagValue>, int)> {
    match U32s1::spec_parse(t, pv) {
        None => None,
        Some((v2, n2)) => rec_p3(t.skip(n2), pv, v1, v2, n + n2),
    }
}

/// The parse of record stream parameters from the channel flags on.
pub open spec fn rec_p3(t: Seq<u8>, pv: u16, v1: Seq<TagValue>, v2: Seq<TagValue>, n: int) -> Option<(Seq<TagValue>, int)> {
    match Bools4::spec_parse(t, pv) {
        None => None,
        Some((v3, n3)) => rec_p4(t.skip(n3), pv, v1, v2, v3, n + n3),
    }
}

/// The parse of record stream parameters from the fifth channel flag on.
pub open spec fn rec_p4(
    t: Seq<u8>,
    pv: u16,
    v1: Seq<TagValue>,
    v2: Seq<TagValue>,
    v3: Seq<TagValue>,
    n: int,
) -> Option<(Seq<TagValue>, int)> {
    match Bools3::spec_parse(t, pv) {
        None => None,
        Some((v4, n4)) => rec_p5(t.skip(n4), pv, v1, v2, v3, v4, n + n4),
    }
}

/// The parse of record stream parameters from the peak flag on.
pub open spec fn rec_p5(
    t: Seq<u8>,
    pv: u16,
    v1: Seq<TagValue>,
    v2: Seq<TagValue>,
    v3: Seq<TagValue>,
    v4: Seq<TagValue>,
    n: int,
) -> Option<(Seq<TagValue>, int)> {
    match RecFlagsProps::spec_parse(t, pv) {
        None => None,
        Some((v5, n5)) => rec_parse_rest(t.skip(n5), pv, v1, v2, v3, v4, v5, n + n5),
    }
}

/// The parse of record stream parameters after the direct-on-input flag,
/// given the values of the parts before it and the number `n` of bytes
/// they take.
pub open spec fn rec_parse_rest(
    t: Seq<u8>,
    pv: u16,
    v1: Seq<TagValue>,
    v2: Seq<TagValue>,
    v3: Seq<TagValue>,
    v4: Seq<TagValue>,
    v5: Seq<TagValue>,
    n: int,
) -> Option<(Seq<TagValue>, int)> {
    match gated_parse(pv >= 14, Bools1::spec_parse(t, pv)) {
        None => None,
        Some((v6, n6)) => rec_r7(t.skip(n6), pv, v1, v2, v3, v4, v5, v6, n + n6),
    }
}

/// The parse of record stream parameters from the values of protocol
/// version 15 on.
pub open spec fn rec_r7(
    t: Seq<u8>,
    pv: u16,
    v1: Seq<TagValue>,
    v2: Seq<TagValue>,
    v3: Seq<TagValue>,
    v4: Seq<TagValue>,
    v5: Seq<TagValue>,
    v6: Seq<TagValue>,
    n: int,
) -> Option<(Seq<TagValue>, int)> {
    match gated_parse(pv >= 15, Bools2::spec_parse(t, pv)) {
        None => None,
        Some((v7, n7)) => rec_r8(t.skip(n7), pv, v1, v2, v3, v4, v5, v6, v7, n + n7),
    }
}

/// The parse of record stream parameters from the formats on.
pub open spec fn rec_r8(
    t: Seq<u8>,
    pv: u16,
    v1: Seq<TagValue>,
    v2: Seq<TagValue>,
    v3: Seq<TagValue>,
    v4: Seq<TagValue>,
    v5: Seq<TagValue>,
    v6: Seq<TagValue>,
    v7: Seq<TagValue>,
    n: int,
) -> Option<(Seq<TagValue>, int)> {
    match gated_parse(pv >= 22, formats_parse(t, pv)) {
        None => None,
        Some((v8, n8)) => rec_r9(t.skip(n8), pv, v1, v2, v3, v4, v5, v6, v7, v8, n + n8),
    }
}

/// The parse of record stream parameters after the formats.
pub open spec fn rec_r9(
    t: Seq<u8>,
    pv: u16,
    v1: Seq<TagValue>,
    v2: Seq<TagValue>,
    v3: Seq<TagValue>,
    v4: Seq<TagValue>,
    v5: Seq<TagValue>,
    v6: Seq<TagValue>,
    v7: Seq<TagValue>,
    v8: Seq<TagValue>,
    n: int,
) -> Option<(Seq<TagValue>, int)> {
    match gated_parse(pv >= 22, RecTail::spec_parse(t, pv)) {
        None => None,
        Some((v9, n9)) => Some((rec_normalize(v1, v2, v3, v4, v5, v6, v7, v8, v9), n + n9)),
    }
}

impl TagStructRead for RecordStreamParams {
    open spec fn spec_parse(s: Seq<u8>, protocol_version: u16) -> Option<(Seq<TagValue>, int)> {
        rec_p1(s, protocol_version)
    }

    open spec fn spec_canonical(&self, protocol_version: u16) -> bool {
        &&& self.buffer_attr.target_length == BUFFER_ATTR_DEFAULT
        &&& self.buffer_attr.pre_buffering == BUFFER_ATTR_DEFAULT
        &&& self.buffer_attr.minimum_request_length == BUFFER_ATTR_DEFAULT
        &&& protocol_version < 14 ==> !self.flags.early_requests
        &&& protocol_version < 15 ==> !self.flags.no_inhibit_auto_suspend && !self.flags.fail_on_suspend
        &&& protocol_version < 22 ==> self.formats@.len() == 0 && self.cvolume is None && self.flags.start_muted is None
            && !self.flags.relative_volume && !self.flags.passthrough
    }

    open spec fn spec_encodable(&self, protocol_version: u16) -> bool {
        &&& values_wf(self.spec_values(protocol_version))
        &&& index_encodable(self.source_index)
        &&& self.formats@.len() <= 255
        &&& forall|i: int| 0 <= i < self.formats@.len() ==> (#[trigger] self.formats@[i]).spec_encodable(protocol_version)
        &&& self.spec_canonical(protocol_version)
    }

    #[verifier::rlimit(100)]
    #[verifier::spinoff_prover]
    fn read(ts: &mut TagStructReader, protocol_version: u16) -> (r: Result<Self, ProtocolError>) {
        let pv = protocol_version;
        let ghost s = ts.rest();
        let head = StreamHead::read(ts, pv)?;
        let ghost s1 = ts.rest();
        let frag = U32s1::read(ts, pv)?;
        let ghost s2 = ts.rest();
        let b4 = Bools4::read(ts, pv)?;
        let ghost s3 = ts.rest();
        let b3 = Bools3::read(ts, pv)?;
        let ghost s4 = ts.rest();
        let fp = RecFlagsProps::read(ts, pv)?;
        let ghost s5 = ts.rest();
        let ghost n5: int = s.len() - s5.len();
        proof {
            let (v1, n1) = StreamHead::spec_parse(s, pv).unwrap();
            let (v2, n2) = U32s1::spec_parse(s1, pv).unwrap();
            let (v3, n3) = Bools4::spec_parse(s2, pv).unwrap();
            let (v4, n4) = Bools3::spec_parse(s3, pv).unwrap();
            let (v5, n5x) = RecFlagsProps::spec_parse(s4, pv).unwrap();
            assert(s5 =~= s.skip(n1 + n2 + n3 + n4 + n5x));
            assert(n5 == n1 + n2 + n3 + n4 + n5x);
            assert(Self::spec_parse(s, pv) == rec_parse_rest(
                s5,
                pv,
                head.spec_values(pv),
                frag.spec_values(pv),
                b4.spec_values(pv),
                b3.spec_values(pv),
                fp.spec_values(pv),
                n5,
            ));
        }
        let r = read_rec_rest(ts, pv, head, frag, b4, b3, fp, Ghost(n5));
        proof {
            if r is Ok {
                assert(ts.rest() =~= s.skip(s.len() - ts.rest().len()));
            }
        }
        r
    }

    proof fn lemma_roundtrip(&self, protocol_version: u16, rest: Seq<u8>) {
        lemma_rec_roundtrip(*self, protocol_version, rest);
    }
}

/// Reads the parts of record stream parameters after the direct-on-input
/// flag, and puts the parameters together.
#[verifier::rlimit(100)]
#[verifier::spinoff_prover]
fn read_rec_rest(
    ts: &mut TagStructReader,
    pv: u16,
    head: StreamHead,
    frag: U32s1,
    b4: Bools4,
    b3: Bools3,
    fp: RecFlagsProps,
    Ghost(n): Ghost<int>,
) -> (r: Result<RecordStreamParams, ProtocolError>)
    ensures
        final(ts).version() == old(ts).version(),
        match rec_parse_rest(
            old(ts).rest(),
            pv,
            head.spec_values(pv),
            frag.spec_values(pv),
            b4.spec_values(pv),
            b3.spec_values(pv),
            fp.spec_values(pv),
            n,
        ) {
            Some((vs, m)) => (r matches Ok(v) && v.spec_values(pv) == vs && v.spec_canonical(pv)) && n <= m
                <= n + old(ts).rest().len() && final(ts).rest() == old(ts).rest().skip(m - n),
            None => r is Err,
        },
{
    let ghost s5 = ts.rest();
    let early_requests = read_gated_bool(ts, pv >= 14, pv)?;
    let ghost s6 = ts.rest();
    let (no_inhibit_auto_suspend, fail_on_suspend) = read_gated_bools2(ts, pv >= 15, pv, false, false)?;
    let ghost s7 = ts.rest();
    let formats = read_gated_formats(ts, pv >= 22, pv)?;
    let ghost s8 = ts.rest();
    let tail = read_gated_rec_tail(ts, pv >= 22, pv)?;
    let ghost tv = tail.spec_values(pv);
    let ghost cvolume_set = tail.cvolume_set;
    let ghost tail_v = tail;
    let p = build_rec(head, frag, b4, b3, fp, early_requests, no_inhibit_auto_suspend, fail_on_suspend, formats, tail);
    proof {
        let tail = tail_v;
        let (v6, n6) = gated_parse(pv >= 14, Bools1::spec_parse(s5, pv)).unwrap();
        let (v7, n7) = gated_parse(pv >= 15, Bools2::spec_parse(s6, pv)).unwrap();
        let (v8, n8) = gated_parse(pv >= 22, formats_parse(s7, pv)).unwrap();
        let (v9, n9) = gated_parse(pv >= 22, RecTail::spec_parse(s8, pv)).unwrap();
        assert(ts.rest() =~= s5.skip(n6 + n7 + n8 + n9));
        lemma_rec_build(p, head, frag, b4, b3, fp, tail, v6, v7, v8, v9, pv);
    }
    Ok(p)
}

/// Puts record stream parameters together from the parts read.
fn build_rec(
    head: StreamHead,
    frag: U32s1,
    b4: Bools4,
    b3: Bools3,
    fp: RecFlagsProps,
    early_requests: bool,
    no_inhibit_auto_suspend: bool,
    fail_on_suspend: bool,
    formats: Vec<FormatInfo>,
    tail: RecTail,
) -> (p: RecordStreamParams)
    ensures
        p.sample_spec == head.sample_spec,
        p.channel_map == head.channel_map,
        p.source_index == head.device_index,
        p.source_name == head.device_name,
        p.buffer_attr == (BufferAttr {
            max_length: head.max_length,
            target_length: BUFFER_ATTR_DEFAULT,
            pre_buffering: BUFFER_ATTR_DEFAULT,
            minimum_request_length: BUFFER_ATTR_DEFAULT,
            fragment_size: frag.u0,
        }),
        p.direct_on_input == fp.b2,
        p.cvolume == (if tail.cvolume_set { Some(tail.cvolume) } else { None::<ChannelVolume> }),
        p.props == fp.props,
        p.flags.start_corked == head.start_corked,
        p.flags.no_remap_channels == b4.b0,
        p.flags.no_remix_channels == b4.b1,
        p.flags.fix_format == b4.b2,
        p.flags.fix_rate == b4.b3,
        p.flags.fix_channels == b3.b0,
        p.flags.no_move == b3.b1,
        p.flags.variable_rate == b3.b2,
        p.flags.peak_detect == fp.b0,
        p.flags.start_muted == (if tail.start_muted_set { Some(tail.start_muted) } else { None::<bool> }),
        p.flags.adjust_latency == fp.b1,
        p.flags.relative_volume == tail.relative_volume,
        p.flags.passthrough == tail.passthrough,
        p.flags.early_requests == early_requests,
        p.flags.no_inhibit_auto_suspend == no_inhibit_auto_suspend,
        p.flags.fail_on_suspend == fail_on_suspend,
        p.formats@ == formats@,
{
    let flags = StreamFlags {
        start_corked: head.start_corked,
        no_remap_channels: b4.b0,
        no_remix_channels: b4.b1,
        fix_format: b4.b2,
        fix_rate: b4.b3,
        fix_channels: b3.b0,
        no_move: b3.b1,
        variable_rate: b3.b2,
        peak_detect: fp.b0,
        start_muted: if tail.start_muted_set {
            Some(tail.start_muted)
        } else {
            None
        },
        adjust_latency: fp.b1,
        early_requests,
        no_inhibit_auto_suspend,
        fail_on_suspend,
        relative_volume: tail.relative_volume,
        passthrough: tail.passthrough,
    };
    RecordStreamParams {
        sample_spec: head.sample_spec,
        channel_map: head.channel_map,
        source_index: head.device_index,
        source_name: head.device_name,
        buffer_attr: BufferAttr {
            max_length: head.max_length,
            target_length: BUFFER_ATTR_DEFAULT,
            pre_buffering: BUFFER_ATTR_DEFAULT,
            minimum_request_length: BUFFER_ATTR_DEFAULT,
            fragment_size: frag.u0,
        },
        flags,
        direct_on_input: fp.b2,
        cvolume: if tail.cvolume_set {
            Some(tail.cvolume)
        } else {
            None
        },
        props: fp.props,
        formats,
    }
}

/// The values of record stream parameters put together from the parts
/// read are the values read, with what a read leaves out in its written
/// form.
#[verifier::rlimit(100)]
proof fn lemma_rec_build(
    p: RecordStreamParams,
    head: StreamHead,
    frag: U32s1,
    b4: Bools4,
    b3: Bools3,
    fp: RecFlagsProps,
    tail: RecTail,
    v6: Seq<TagValue>,
    v7: Seq<TagValue>,
    v8: Seq<TagValue>,
    v9: Seq<TagValue>,
    pv: u16,
)
    requires
        p.sample_spec == head.sample_spec,
        p.channel_map == head.channel_map,
        p.source_index == head.device_index,
        p.source_name == head.device_name,
        p.buffer_attr == (BufferAttr {
            max_length: head.max_length,
            target_length: BUFFER_ATTR_DEFAULT,
            pre_buffering: BUFFER_ATTR_DEFAULT,
            minimum_request_length: BUFFER_ATTR_DEFAULT,
            fragment_size: frag.u0,
        }),
        p.direct_on_input == fp.b2,
        p.cvolume == (if tail.cvolume_set { Some(tail.cvolume) } else { None::<ChannelVolume> }),
        p.props == fp.props,
        p.flags.start_corked == head.start_corked,
        p.flags.no_remap_channels == b4.b0,
        p.flags.no_remix_channels == b4.b1,
        p.flags.fix_format == b4.b2,
        p.flags.fix_rate == b4.b3,
        p.flags.fix_channels == b3.b0,
        p.flags.no_move == b3.b1,
        p.flags.variable_rate == b3.b2,
        p.flags.peak_detect == fp.b0,
        p.flags.start_muted == (if tail.start_muted_set { Some(tail.start_muted) } else { None::<bool> }),
        p.flags.adjust_latency == fp.b1,
        p.flags.relative_volume == tail.relative_volume,
        p.flags.passthrough == tail.passthrough,
        v6 == gated(pv >= 14, seq![TagValue::Bool(p.flags.early_requests)]),
        pv < 14 ==> !p.flags.early_requests,
        v7 == gated(pv >= 15, seq![TagValue::Bool(p.flags.no_inhibit_auto_suspend), TagValue::Bool(p.flags.fail_on_suspend)]),
        pv < 15 ==> !p.flags.no_inhibit_auto_suspend && !p.flags.fail_on_suspend,
        v8 == gated(pv >= 22, formats_values(p.formats@, pv)),
        pv < 22 ==> p.formats@.len() == 0,
        v9 == gated(pv >= 22, tail.spec_values(pv)),
        pv < 22 ==> tail.cvolume@.len() == 0 && !tail.start_muted && !tail.cvolume_set && !tail.start_muted_set
            && !tail.relative_volume && !tail.passthrough,
    ensures
        p.spec_values(pv) == rec_normalize(
            head.spec_values(pv),
            frag.spec_values(pv),
            b4.spec_values(pv),
            b3.spec_values(pv),
            fp.spec_values(pv),
            v6,
            v7,
            v8,
            v9,
        ),
        p.spec_canonical(pv),
{
    assert(rec_seg1(p) == head.spec_values(pv));
    assert(rec_seg2(p) == frag.spec_values(pv));
    assert(rec_seg3(p) == b4.spec_values(pv));
    assert(rec_seg4(p) == b3.spec_values(pv));
    assert(rec_seg5(p) == fp.spec_values(pv));
    assert(gated(pv >= 14, rec_seg6(p)) == v6);
    assert(gated(pv >= 15, rec_seg7(p)) == v7);
    if pv >= 22 {
        if !tail.cvolume_set {
            assert(record_cvolume_view(p) =~= Seq::<u32>::empty());
        }
        assert(rec_tail_normalize(v9) =~= rec_seg9(p));
    } else {
        assert(v9 =~= Seq::<TagValue>::empty());
        assert(rec_tail_normalize(v9) == gated(pv >= 22, rec_seg9(p)));
    }
}

/// The bytes of record stream parameters parse, part by part, to their
/// values up to the direct-on-input flag, and leave the rest to the parts
/// that depend on the protocol version.
#[verifier::rlimit(100)]
proof fn lemma_rec_front_roundtrip(p: RecordStreamParams, pv: u16, rest: Seq<u8>)
    requires
        p.spec_encodable(pv),
    ensures
        rec_p1(values_bytes(p.spec_values(pv)) + rest, pv) == rec_parse_rest(
            values_bytes(rec_back(p, pv)) + rest,
            pv,
            rec_seg1(p),
            rec_seg2(p),
            rec_seg3(p),
            rec_seg4(p),
            rec_seg5(p),
            values_bytes(rec_front(p) + rec_middle(p)).len() as int,
        ),
{
    let a1 = rec_seg1(p);
    let a2 = rec_seg2(p);
    let a3 = rec_seg3(p);
    let a4 = rec_seg4(p);
    let a5 = rec_seg5(p);
    let back = rec_back(p, pv);
    let t5 = a5 + back;
    let t4 = a4 + t5;
    let t3 = a3 + t4;
    let t2 = a2 + t3;
    let t1 = a1 + t2;
    assert(t1 =~= p.spec_values(pv));
    lemma_values_wf_concat(a1, t2);
    lemma_values_wf_concat(a2, t3);
    lemma_values_wf_concat(a3, t4);
    lemma_values_wf_concat(a4, t5);
    lemma_values_wf_concat(a5, back);
    lemma_sample_format_roundtrip(p.sample_spec.format);
    lemma_channel_map_valid(p.channel_map);
    lemma_seg_bytes(a1, t2, rest);
    lemma_parse_values_bytes(a1, values_bytes(t2) + rest);
    lemma_seg_bytes(a2, t3, rest);
    lemma_parse_values_bytes(a2, values_bytes(t3) + rest);
    lemma_seg_bytes(a3, t4, rest);
    lemma_parse_values_bytes(a3, values_bytes(t4) + rest);
    lemma_seg_bytes(a4, t5, rest);
    lemma_parse_values_bytes(a4, values_bytes(t5) + rest);
    lemma_seg_bytes(a5, back, rest);
    lemma_parse_values_bytes(a5, values_bytes(back) + rest);
    lemma_values_bytes_concat(a1, a2);
    lemma_values_bytes_concat(a3, a4);
    lemma_values_bytes_concat(a3 + a4, a5);
    lemma_values_bytes_concat(a1 + a2, a3 + a4 + a5);
    assert(rec_front(p) + rec_middle(p) =~= a1 + a2 + (a3 + a4 + a5));
}

/// The bytes of the parts of record stream parameters that depend on the
/// protocol version parse back to them.
#[verifier::rlimit(100)]
#[verifier::spinoff_prover]
proof fn lemma_rec_back_roundtrip(
    p: RecordStreamParams,
    pv: u16,
    rest: Seq<u8>,
    v1: Seq<TagValue>,
    v2: Seq<TagValue>,
    v3: Seq<TagValue>,
    v4: Seq<TagValue>,
    v5: Seq<TagValue>,
    n: int,
)
    requires
        p.spec_encodable(pv),
    ensures
        rec_parse_rest(values_bytes(rec_back(p, pv)) + rest, pv, v1, v2, v3, v4, v5, n) == Some(
            (
                rec_normalize(
                    v1,
                    v2,
                    v3,
                    v4,
                    v5,
                    gated(pv >= 14, rec_seg6(p)),
                    gated(pv >= 15, rec_seg7(p)),
                    gated(pv >= 22, formats_values(p.formats@, pv)),
                    gated(pv >= 22, rec_seg9(p)),
                ),
                n + values_bytes(rec_back(p, pv)).len(),
            ),
        ),
{
    let a6 = gated(pv >= 14, rec_seg6(p));
    let a7 = gated(pv >= 15, rec_seg7(p));
    let a8 = gated(pv >= 22, formats_values(p.formats@, pv));
    let a9 = gated(pv >= 22, rec_seg9(p));
    let t8 = a8 + a9;
    let t7 = a7 + t8;
    let t6 = a6 + t7;
    assert(t6 =~= rec_back(p, pv));
    lemma_values_wf_concat(rec_front(p) + rec_middle(p), rec_back(p, pv));
    lemma_values_wf_concat(a6, t7);
    lemma_values_wf_concat(a7, t8);
    lemma_values_wf_concat(a8, a9);
    lemma_seg_bytes(a6, t7, rest);
    lemma_parse_values_bytes(a6, values_bytes(t7) + rest);
    lemma_seg_bytes(a7, t8, rest);
    lemma_parse_values_bytes(a7, values_bytes(t8) + rest);
    lemma_seg_bytes(a8, a9, rest);
    if pv >= 22 {
        lemma_formats_roundtrip(p.formats@, pv, values_bytes(a9) + rest);
    }
    lemma_parse_values_bytes(a9, rest);
    assert(values_bytes(Seq::<TagValue>::empty()) =~= Seq::<u8>::empty());
    assert(Seq::<u8>::empty() + rest =~= rest);
    assert(rest.skip(0) =~= rest);
    assert(values_bytes(a9) + rest == values_bytes(a9 + Seq::<TagValue>::empty()) + rest) by {
        assert(a9 + Seq::<TagValue>::empty() =~= a9);
    }
    lemma_values_bytes_concat(a6, a7);
}

/// Record stream parameters are read back from their bytes.
#[verifier::rlimit(100)]
proof fn lemma_rec_roundtrip(p: RecordStreamParams, pv: u16, rest: Seq<u8>)
    requires
        p.spec_encodable(pv),
    ensures
        p.spec_canonical(pv),
        RecordStreamParams::spec_parse(values_bytes(p.spec_values(pv)) + rest, pv) == Some(
            (p.spec_values(pv), values_bytes(p.spec_values(pv)).len() as int),
        ),
{
    lemma_rec_front_roundtrip(p, pv, rest);
    let n = values_bytes(rec_front(p) + rec_middle(p)).len() as int;
    lemma_rec_back_roundtrip(p, pv, rest, rec_seg1(p), rec_seg2(p), rec_seg3(p), rec_seg4(p), rec_seg5(p), n);
    lemma_values_bytes_concat(rec_front(p) + rec_middle(p), rec_back(p, pv));
    let a9 = gated(pv >= 22, rec_seg9(p));
    if pv >= 22 {
        assert(rec_tail_normalize(a9) =~= a9);
    }
    assert(rec_normalize(
        rec_seg1(p),
        rec_seg2(p),
        rec_seg3(p),
        rec_seg4(p),
        rec_seg5(p),
        gated(pv >= 14, rec_seg6(p)),
        gated(pv >= 15, rec_seg7(p)),
        gated(pv >= 22, formats_values(p.formats@, pv)),
        a9,
    ) == p.spec_values(pv));
}


/// The values [`RecordStreamParams`] are sent as, position by position, at a
/// protocol version.
#[verifier::rlimit(100)]
pub proof fn lemma_record_stream_params_layout(q: RecordStreamParams, vs: Seq<TagValue>, protocol_version: u16)
    requires
        q.spec_values(protocol_version) == vs,
    ensures
        vs =~= seq![
            sample_spec_value(q.sample_spec),
            TagValue::ChannelMap(q.channel_map@),
            index_value(q.source_index),
            string_value(opt_cstr_view(q.source_name)),
            TagValue::U32(q.buffer_attr.max_length),
            TagValue::Bool(q.flags.start_corked),
            TagValue::U32(q.buffer_attr.fragment_size),
            TagValue::Bool(q.flags.no_remap_channels),
            TagValue::Bool(q.flags.no_remix_channels),
            TagValue::Bool(q.flags.fix_format),
            TagValue::Bool(q.flags.fix_rate),
            TagValue::Bool(q.flags.fix_channels),
            TagValue::Bool(q.flags.no_move),
            TagValue::Bool(q.flags.variable_rate),
            TagValue::Bool(q.flags.peak_detect),
            TagValue::Bool(q.flags.adjust_latency),
            TagValue::PropList(q.props@),
            TagValue::Bool(q.direct_on_input),
        ] + (if protocol_version >= 14 { seq![TagValue::Bool(q.flags.early_requests)] } else { Seq::empty() }) + (if protocol_version >= 15 { seq![TagValue::Bool(q.flags.no_inhibit_auto_suspend), TagValue::Bool(q.flags.fail_on_suspend)] } else { Seq::empty() })
            + (if protocol_version >= 22 { formats_values(q.formats@, protocol_version) } else { Seq::empty() }) + (if protocol_version >= 22 { seq![TagValue::CVolume(record_cvolume_view(q)), TagValue::Bool(start_muted_value(q.flags)), TagValue::Bool(q.cvolume is Some), TagValue::Bool(q.flags.start_muted is Some), TagValue::Bool(q.flags.relative_volume), TagValue::Bool(q.flags.passthrough)] } else { Seq::empty() }),
{
}


/// The values a [`CreateRecordStreamReply`] is sent as, position by
/// position, at a protocol version.
pub proof fn lemma_create_record_stream_reply_layout(q: CreateRecordStreamReply, vs: Seq<TagValue>, protocol_version: u16)
    requires
        q.spec_values(protocol_version) == vs,
    ensures
        vs =~= seq![
            TagValue::U32(q.channel_index),
            TagValue::U32(q.stream_index),
            TagValue::U32(q.buffer_attr.max_length),
            TagValue::U32(q.buffer_attr.fragment_size),
            sample_spec_value(q.sample_spec),
            TagValue::ChannelMap(q.channel_map@),
        ] + seq![
            TagValue::U32(q.sink_index),
            string_value(opt_cstr_view(q.sink_name)),
            TagValue::Bool(q.suspended),
            TagValue::Usec(q.stream_latency),
        ] + (if protocol_version >= 21 { seq![crate::protocol::serde::format_info::format_info_value(q.format)] } else { Seq::empty() }),
{
}

} // verus!
