//! Parts of the replies to creating streams.

use vstd::prelude::*;

use crate::protocol::error::ProtocolError;
use crate::protocol::serde::fields::{
    lemma_values_bytes_4, lemma_values_bytes_5, lemma_values_bytes_6, lemma_values_bytes_9,
};
use crate::protocol::serde::wire::{
    TagValue, lemma_parse_values_bytes, lemma_parse_values_done, lemma_parse_values_next,
    lemma_parse_values_start, parse_values, parse_values_after, values_bytes, values_wf,
};
use crate::protocol::serde::{
    INVALID_INDEX, TagStructRead, TagStructReader, TagStructWrite, TagStructWriter, opt_cstr_view,
    string_value,
};
use crate::protocol::serde::channel_map::{ChannelMap, lemma_channel_map_valid, positions_valid};
use crate::protocol::serde::cstr::CString;
use crate::protocol::serde::format_info::{FormatEncoding, FormatInfo, encoding_of_code, format_info_value, lemma_encoding_roundtrip};
use crate::protocol::serde::sample_spec::{SampleSpec, lemma_sample_format_roundtrip, sample_format_of_code, sample_spec_value};
use crate::protocol::stream::{BUFFER_ATTR_DEFAULT, BufferAttr};

verus! {

/// The part of a record stream reply up to the channel map.
#[derive(Debug, Clone, PartialEq, Eq)]
pub struct RecordReplyHead {
    /// The channel of the stream.
    pub channel_index: u32,

    /// The index of the stream.
    pub stream_index: u32,

    /// The buffer attributes.
    pub buffer_attr: BufferAttr,

    /// The sample format.
    pub sample_spec: SampleSpec,

    /// The channel map.
    pub channel_map: ChannelMap,
}

impl TagStructWrite for RecordReplyHead {
    open spec fn spec_values(&self, protocol_version: u16) -> Seq<TagValue> {
        seq![
            TagValue::U32(self.channel_index),
            TagValue::U32(self.stream_index),
            TagValue::U32(self.buffer_attr.max_length),
            TagValue::U32(self.buffer_attr.fragment_size),
            sample_spec_value(self.sample_spec),
            TagValue::ChannelMap(self.channel_map@),
        ]
    }

    open spec fn spec_writable(&self) -> bool {
        true
    }

    fn write(&self, w: &mut TagStructWriter, _protocol_version: u16) -> (r: Result<(), ProtocolError>) {
        w.write_index(Some(self.channel_index))?;
        w.write_index(Some(self.stream_index))?;
        w.write_u32(self.buffer_attr.max_length)?;
        w.write_u32(self.buffer_attr.fragment_size)?;
        w.write_sample_spec(self.sample_spec)?;
        w.write_channel_map(&self.channel_map)?;
        proof {
            lemma_values_bytes_6(
                TagValue::U32(self.channel_index),
                TagValue::U32(self.stream_index),
                TagValue::U32(self.buffer_attr.max_length),
                TagValue::U32(self.buffer_attr.fragment_size),
                sample_spec_value(self.sample_spec),
                TagValue::ChannelMap(self.channel_map@),
            );
        }
        assert(w.bytes() =~= old(w).bytes() + values_bytes(self.spec_values(_protocol_version)));
        Ok(())
    }
}

impl TagStructRead for RecordReplyHead {
    open spec fn spec_parse(s: Seq<u8>, protocol_version: u16) -> Option<(Seq<TagValue>, int)> {
        match parse_values(s, 6) {
            Some((vs, n)) => if (vs[0] matches TagValue::U32(x) && x != INVALID_INDEX)
                && (vs[1] matches TagValue::U32(x) && x != INVALID_INDEX)
                && vs[2] is U32
                && vs[3] is U32
                && (vs[4] matches TagValue::SampleSpec(f, _, _) && sample_format_of_code(f) is Some)
                && (vs[5] matches TagValue::ChannelMap(c) && positions_valid(c))
            {
                Some((vs, n))
            } else {
                None
            },
            None => None,
        }
    }

    open spec fn spec_canonical(&self, protocol_version: u16) -> bool {
        self.buffer_attr.target_length == BUFFER_ATTR_DEFAULT
        && self.buffer_attr.pre_buffering == BUFFER_ATTR_DEFAULT
        && self.buffer_attr.minimum_request_length == BUFFER_ATTR_DEFAULT
    }

    open spec fn spec_encodable(&self, protocol_version: u16) -> bool {
        &&& values_wf(self.spec_values(protocol_version))
        &&& self.channel_index != INVALID_INDEX
        &&& self.stream_index != INVALID_INDEX
        &&& self.spec_canonical(protocol_version)
    }

    #[verifier::rlimit(40)]
    fn read(ts: &mut TagStructReader, _protocol_version: u16) -> (r: Result<Self, ProtocolError>) {
        let ghost s = ts.rest();
        let ghost total: int = 6;
        proof {
            lemma_parse_values_start(s, total);
            lemma_parse_values_next(s, Seq::empty(), ts.rest(), total - 1);
        }
        let channel_index = match ts.read_index()? {
            Some(i) => i,
            None => {
                return Err(ProtocolError::Invalid("invalid channel index".to_owned()));
            },
        };
        proof {
            assert(parse_values(s, total as nat) == parse_values_after(
                seq![TagValue::U32(channel_index)],
                s.len() - ts.rest().len(),
                ts.rest(),
                total - 1,
            ));
            lemma_parse_values_next(s, seq![TagValue::U32(channel_index)], ts.rest(), total - 2);
        }
        let stream_index = match ts.read_index()? {
            Some(i) => i,
            None => {
                return Err(ProtocolError::Invalid("invalid stream index".to_owned()));
            },
        };
        proof {
            assert(parse_values(s, total as nat) == parse_values_after(
                seq![TagValue::U32(channel_index), TagValue::U32(stream_index)],
                s.len() - ts.rest().len(),
                ts.rest(),
                total - 2,
            ));
            lemma_parse_values_next(
                s,
                seq![TagValue::U32(channel_index), TagValue::U32(stream_index)],
                ts.rest(),
                total - 3,
            );
        }
        let max_length = ts.read_u32()?;
        proof {
            assert(parse_values(s, total as nat) == parse_values_after(
                seq![
                    TagValue::U32(channel_index),
                    TagValue::U32(stream_index),
                    TagValue::U32(max_length),
                ],
                s.len() - ts.rest().len(),
                ts.rest(),
                total - 3,
            ));
            lemma_parse_values_next(
                s,
                seq![
                    TagValue::U32(channel_index),
                    TagValue::U32(stream_index),
                    TagValue::U32(max_length),
                ],
                ts.rest(),
                total - 4,
            );
        }
        let fragment_size = ts.read_u32()?;
        proof {
            assert(parse_values(s, total as nat) == parse_values_after(
                seq![
                    TagValue::U32(channel_index),
                    TagValue::U32(stream_index),
                    TagValue::U32(max_length),
                    TagValue::U32(fragment_size),
                ],
                s.len() - ts.rest().len(),
                ts.rest(),
                total - 4,
            ));
            lemma_parse_values_next(
                s,
                seq![
                    TagValue::U32(channel_index),
                    TagValue::U32(stream_index),
                    TagValue::U32(max_length),
                    TagValue::U32(fragment_size),
                ],
                ts.rest(),
                total - 5,
            );
        }
        let sample_spec = ts.read_sample_spec()?;
        proof {
            assert(parse_values(s, total as nat) == parse_values_after(
                seq![
                    TagValue::U32(channel_index),
                    TagValue::U32(stream_index),
                    TagValue::U32(max_length),
                    TagValue::U32(fragment_size),
                    sample_spec_value(sample_spec),
                ],
                s.len() - ts.rest().len(),
                ts.rest(),
                total - 5,
            ));
            lemma_parse_values_next(
                s,
                seq![
                    TagValue::U32(channel_index),
                    TagValue::U32(stream_index),
                    TagValue::U32(max_length),
                    TagValue::U32(fragment_size),
                    sample_spec_value(sample_spec),
                ],
                ts.rest(),
                total - 6,
            );
        }
        let channel_map = ts.read_channel_map()?;
        proof {
            assert(parse_values(s, total as nat) == parse_values_after(
                seq![
                    TagValue::U32(channel_index),
                    TagValue::U32(stream_index),
                    TagValue::U32(max_length),
                    TagValue::U32(fragment_size),
                    sample_spec_value(sample_spec),
                    TagValue::ChannelMap(channel_map@),
                ],
                s.len() - ts.rest().len(),
                ts.rest(),
                total - 6,
            ));
            lemma_parse_values_done(
                seq![
                    TagValue::U32(channel_index),
                    TagValue::U32(stream_index),
                    TagValue::U32(max_length),
                    TagValue::U32(fragment_size),
                    sample_spec_value(sample_spec),
                    TagValue::ChannelMap(channel_map@),
                ],
                s.len() - ts.rest().len(),
                ts.rest(),
            );
        }
        Ok(RecordReplyHead {
            channel_index,
            stream_index,
            buffer_attr: BufferAttr {
                max_length,
                target_length: BUFFER_ATTR_DEFAULT,
                pre_buffering: BUFFER_ATTR_DEFAULT,
                minimum_request_length: BUFFER_ATTR_DEFAULT,
                fragment_size,
            },
            sample_spec,
            channel_map,
        })
    }

    proof fn lemma_roundtrip(&self, protocol_version: u16, rest: Seq<u8>) {
        lemma_sample_format_roundtrip(self.sample_spec.format);
        lemma_channel_map_valid(self.channel_map);
        lemma_parse_values_bytes(self.spec_values(protocol_version), rest);
    }
}

/// The part of a playback stream reply up to the channel map.
#[derive(Debug, Clone, PartialEq, Eq)]
pub struct PlaybackReplyHead {
    /// The channel of the stream.
    pub channel: u32,

    /// The index of the stream.
    pub stream_index: u32,

    /// The bytes requested.
    pub requested_bytes: u32,

    /// The buffer attributes.
    pub buffer_attr: BufferAttr,

    /// The sample format.
    pub sample_spec: SampleSpec,

    /// The channel map.
    pub channel_map: ChannelMap,
}

impl TagStructWrite for PlaybackReplyHead {
    open spec fn spec_values(&self, protocol_version: u16) -> Seq<TagValue> {
        seq![
            TagValue::U32(self.channel),
            TagValue::U32(self.stream_index),
            TagValue::U32(self.requested_bytes),
            TagValue::U32(self.buffer_attr.max_length),
            TagValue::U32(self.buffer_attr.target_length),
            TagValue::U32(self.buffer_attr.pre_buffering),
            TagValue::U32(self.buffer_attr.minimum_request_length),
            sample_spec_value(self.sample_spec),
            TagValue::ChannelMap(self.channel_map@),
        ]
    }

    open spec fn spec_writable(&self) -> bool {
        true
    }

    fn write(&self, w: &mut TagStructWriter, _protocol_version: u16) -> (r: Result<(), ProtocolError>) {
        w.write_index(Some(self.channel))?;
        w.write_index(Some(self.stream_index))?;
        w.write_u32(self.requested_bytes)?;
        w.write_u32(self.buffer_attr.max_length)?;
        w.write_u32(self.buffer_attr.target_length)?;
        w.write_u32(self.buffer_attr.pre_buffering)?;
        w.write_u32(self.buffer_attr.minimum_request_length)?;
        w.write_sample_spec(self.sample_spec)?;
        w.write_channel_map(&self.channel_map)?;
        proof {
            lemma_values_bytes_9(
                TagValue::U32(self.channel),
                TagValue::U32(self.stream_index),
                TagValue::U32(self.requested_bytes),
                TagValue::U32(self.buffer_attr.max_length),
                TagValue::U32(self.buffer_attr.target_length),
                TagValue::U32(self.buffer_attr.pre_buffering),
                TagValue::U32(self.buffer_attr.minimum_request_length),
                sample_spec_value(self.sample_spec),
                TagValue::ChannelMap(self.channel_map@),
            );
        }
        assert(w.bytes() =~= old(w).bytes() + values_bytes(self.spec_values(_protocol_version)));
        Ok(())
    }
}

impl TagStructRead for PlaybackReplyHead {
    open spec fn spec_parse(s: Seq<u8>, protocol_version: u16) -> Option<(Seq<TagValue>, int)> {
        match parse_values(s, 9) {
            Some((vs, n)) => if (vs[0] matches TagValue::U32(x) && x != INVALID_INDEX)
                && (vs[1] matches TagValue::U32(x) && x != INVALID_INDEX)
                && vs[2] is U32
                && vs[3] is U32
                && vs[4] is U32
                && vs[5] is U32
                && vs[6] is U32
                && (vs[7] matches TagValue::SampleSpec(f, _, _) && sample_format_of_code(f) is Some)
                && (vs[8] matches TagValue::ChannelMap(c) && positions_valid(c))
            {
                Some((vs, n))
            } else {
                None
            },
            None => None,
        }
    }

    open spec fn spec_canonical(&self, protocol_version: u16) -> bool {
        self.buffer_attr.fragment_size == BUFFER_ATTR_DEFAULT
    }

    open spec fn spec_encodable(&self, protocol_version: u16) -> bool {
        &&& values_wf(self.spec_values(protocol_version))
        &&& self.channel != INVALID_INDEX
        &&& self.stream_index != INVALID_INDEX
        &&& self.spec_canonical(protocol_version)
    }

    #[verifier::rlimit(100)]
    fn read(ts: &mut TagStructReader, _protocol_version: u16) -> (r: Result<Self, ProtocolError>) {
        let ghost s = ts.rest();
        let ghost total: int = 9;
        proof {
            lemma_parse_values_start(s, total);
            lemma_parse_values_next(s, Seq::empty(), ts.rest(), total - 1);
        }
        let channel = match ts.read_index()? {
            Some(i) => i,
            None => {
                return Err(ProtocolError::Invalid("invalid channel index".to_owned()));
            },
        };
        proof {
            assert(parse_values(s, total as nat) == parse_values_after(
                seq![TagValue::U32(channel)],
                s.len() - ts.rest().len(),
                ts.rest(),
                total - 1,
            ));
            lemma_parse_values_next(s, seq![TagValue::U32(channel)], ts.rest(), total - 2);
        }
        let stream_index = match ts.read_index()? {
            Some(i) => i,
            None => {
                return Err(ProtocolError::Invalid("invalid stream index".to_owned()));
            },
        };
        proof {
            assert(parse_values(s, total as nat) == parse_values_after(
                seq![TagValue::U32(channel), TagValue::U32(stream_index)],
                s.len() - ts.rest().len(),
                ts.rest(),
                total - 2,
            ));
            lemma_parse_values_next(
                s,
                seq![TagValue::U32(channel), TagValue::U32(stream_index)],
                ts.rest(),
                total - 3,
            );
        }
        let requested_bytes = ts.read_u32()?;
        proof {
            assert(parse_values(s, total as nat) == parse_values_after(
                seq![
                    TagValue::U32(channel),
                    TagValue::U32(stream_index),
                    TagValue::U32(requested_bytes),
                ],
                s.len() - ts.rest().len(),
                ts.rest(),
                total - 3,
            ));
            lemma_parse_values_next(
                s,
                seq![
                    TagValue::U32(channel),
                    TagValue::U32(stream_index),
                    TagValue::U32(requested_bytes),
                ],
                ts.rest(),
                total - 4,
            );
        }
        let max_length = ts.read_u32()?;
        proof {
            assert(parse_values(s, total as nat) == parse_values_after(
                seq![
                    TagValue::U32(channel),
                    TagValue::U32(stream_index),
                    TagValue::U32(requested_bytes),
                    TagValue::U32(max_length),
                ],
                s.len() - ts.rest().len(),
                ts.rest(),
                total - 4,
            ));
            lemma_parse_values_next(
                s,
                seq![
                    TagValue::U32(channel),
                    TagValue::U32(stream_index),
                    TagValue::U32(requested_bytes),
                    TagValue::U32(max_length),
                ],
                ts.rest(),
                total - 5,
            );
        }
        let target_length = ts.read_u32()?;
        proof {
            assert(parse_values(s, total as nat) == parse_values_after(
                seq![
                    TagValue::U32(channel),
                    TagValue::U32(stream_index),
                    TagValue::U32(requested_bytes),
                    TagValue::U32(max_length),
                    TagValue::U32(target_length),
                ],
                s.len() - ts.rest().len(),
                ts.rest(),
                total - 5,
            ));
            lemma_parse_values_next(
                s,
                seq![
                    TagValue::U32(channel),
                    TagValue::U32(stream_index),
                    TagValue::U32(requested_bytes),
                    TagValue::U32(max_length),
                    TagValue::U32(target_length),
                ],
                ts.rest(),
                total - 6,
            );
        }
        let pre_buffering = ts.read_u32()?;
        proof {
            assert(parse_values(s, total as nat) == parse_values_after(
                seq![
                    TagValue::U32(channel),
                    TagValue::U32(stream_index),
                    TagValue::U32(requested_bytes),
                    TagValue::U32(max_length),
                    TagValue::U32(target_length),
                    TagValue::U32(pre_buffering),
                ],
                s.len() - ts.rest().len(),
                ts.rest(),
                total - 6,
            ));
            lemma_parse_values_next(
                s,
                seq![
                    TagValue::U32(channel),
                    TagValue::U32(stream_index),
                    TagValue::U32(requested_bytes),
                    TagValue::U32(max_length),
                    TagValue::U32(target_length),
                    TagValue::U32(pre_buffering),
                ],
                ts.rest(),
                total - 7,
            );
        }
        let minimum_request_length = ts.read_u32()?;
        proof {
            assert(parse_values(s, total as nat) == parse_values_after(
                seq![
                    TagValue::U32(channel),
                    TagValue::U32(stream_index),
                    TagValue::U32(requested_bytes),
                    TagValue::U32(max_length),
                    TagValue::U32(target_length),
                    TagValue::U32(pre_buffering),
                    TagValue::U32(minimum_request_length),
                ],
                s.len() - ts.rest().len(),
                ts.rest(),
                total - 7,
            ));
            lemma_parse_values_next(
                s,
                seq![
                    TagValue::U32(channel),
                    TagValue::U32(stream_index),
                    TagValue::U32(requested_bytes),
                    TagValue::U32(max_length),
                    TagValue::U32(target_length),
                    TagValue::U32(pre_buffering),
                    TagValue::U32(minimum_request_length),
                ],
                ts.rest(),
                total - 8,
            );
        }
        let sample_spec = ts.read_sample_spec()?;
        proof {
            assert(parse_values(s, total as nat) == parse_values_after(
                seq![
                    TagValue::U32(channel),
                    TagValue::U32(stream_index),
                    TagValue::U32(requested_bytes),
                    TagValue::U32(max_length),
                    TagValue::U32(target_length),
                    TagValue::U32(pre_buffering),
                    TagValue::U32(minimum_request_length),
                    sample_spec_value(sample_spec),
                ],
                s.len() - ts.rest().len(),
                ts.rest(),
                total - 8,
            ));
            lemma_parse_values_next(
                s,
                seq![
                    TagValue::U32(channel),
                    TagValue::U32(stream_index),
                    TagValue::U32(requested_bytes),
                    TagValue::U32(max_length),
                    TagValue::U32(target_length),
                    TagValue::U32(pre_buffering),
                    TagValue::U32(minimum_request_length),
                    sample_spec_value(sample_spec),
                ],
                ts.rest(),
                total - 9,
            );
        }
        let channel_map = ts.read_channel_map()?;
        proof {
            assert(parse_values(s, total as nat) == parse_values_after(
                seq![
                    TagValue::U32(channel),
                    TagValue::U32(stream_index),
                    TagValue::U32(requested_bytes),
                    TagValue::U32(max_length),
                    TagValue::U32(target_length),
                    TagValue::U32(pre_buffering),
                    TagValue::U32(minimum_request_length),
                    sample_spec_value(sample_spec),
                    TagValue::ChannelMap(channel_map@),
                ],
                s.len() - ts.rest().len(),
                ts.rest(),
                total - 9,
            ));
            lemma_parse_values_done(
                seq![
                    TagValue::U32(channel),
                    TagValue::U32(stream_index),
                    TagValue::U32(requested_bytes),
                    TagValue::U32(max_length),
                    TagValue::U32(target_length),
                    TagValue::U32(pre_buffering),
                    TagValue::U32(minimum_request_length),
                    sample_spec_value(sample_spec),
                    TagValue::ChannelMap(channel_map@),
                ],
                s.len() - ts.rest().len(),
                ts.rest(),
            );
        }
        Ok(PlaybackReplyHead {
            channel,
            stream_index,
            requested_bytes,
            buffer_attr: BufferAttr {
                max_length,
                target_length,
                pre_buffering,
                minimum_request_length,
                fragment_size: BUFFER_ATTR_DEFAULT,
            },
            sample_spec,
            channel_map,
        })
    }

    proof fn lemma_roundtrip(&self, protocol_version: u16, rest: Seq<u8>) {
        lemma_sample_format_roundtrip(self.sample_spec.format);
        lemma_channel_map_valid(self.channel_map);
        lemma_parse_values_bytes(self.spec_values(protocol_version), rest);
    }
}

/// The part of a stream reply after the channel map.
#[derive(Debug, Clone, PartialEq, Eq)]
pub struct StreamReplyTail {
    /// The index of the device.
    pub sink_index: u32,

    /// The name of the device.
    pub sink_name: Option<CString>,

    /// Whether the stream is suspended.
    pub suspended: bool,

    /// The latency of the stream.
    pub stream_latency: u64,

    /// The format of the stream.
    pub format: FormatInfo,
}

impl TagStructWrite for StreamReplyTail {
    open spec fn spec_values(&self, protocol_version: u16) -> Seq<TagValue> {
        if protocol_version >= 21 {
            seq![
                TagValue::U32(self.sink_index),
                string_value(opt_cstr_view(self.sink_name)),
                TagValue::Bool(self.suspended),
                TagValue::Usec(self.stream_latency),
                format_info_value(self.format),
            ]
        } else {
            seq![
                TagValue::U32(self.sink_index),
                string_value(opt_cstr_view(self.sink_name)),
                TagValue::Bool(self.suspended),
                TagValue::Usec(self.stream_latency),
            ]
        }
    }

    open spec fn spec_writable(&self) -> bool {
        true
    }

    fn write(&self, w: &mut TagStructWriter, protocol_version: u16) -> (r: Result<(), ProtocolError>) {
        w.write_index(Some(self.sink_index))?;
        w.write_string(self.sink_name.as_ref())?;
        w.write_bool(self.suspended)?;
        w.write_usec(self.stream_latency)?;
        if protocol_version >= 21 {
            w.write_format_info(&self.format)?;
            proof {
                lemma_values_bytes_5(
                    TagValue::U32(self.sink_index),
                    string_value(opt_cstr_view(self.sink_name)),
                    TagValue::Bool(self.suspended),
                    TagValue::Usec(self.stream_latency),
                    format_info_value(self.format),
                );
            }
        } else {
            proof {
                lemma_values_bytes_4(
                    TagValue::U32(self.sink_index),
                    string_value(opt_cstr_view(self.sink_name)),
                    TagValue::Bool(self.suspended),
                    TagValue::Usec(self.stream_latency),
                );
            }
        }
        assert(w.bytes() =~= old(w).bytes() + values_bytes(self.spec_values(protocol_version)));
        Ok(())
    }
}

impl TagStructRead for StreamReplyTail {
    open spec fn spec_parse(s: Seq<u8>, protocol_version: u16) -> Option<(Seq<TagValue>, int)> {
        if protocol_version >= 21 {
            match parse_values(s, 5) {
                Some((vs, n)) => if (vs[0] matches TagValue::U32(x) && x != INVALID_INDEX)
                    && (vs[1] is Str || vs[1] is NullStr)
                    && vs[2] is Bool
                    && vs[3] is Usec
                    && (vs[4] matches TagValue::FormatInfo(e, _) && encoding_of_code(e) is Some)
                {
                    Some((vs, n))
                } else {
                    None
                },
                None => None,
            }
        } else {
            match parse_values(s, 4) {
                Some((vs, n)) => if (vs[0] matches TagValue::U32(x) && x != INVALID_INDEX)
                    && (vs[1] is Str || vs[1] is NullStr)
                    && vs[2] is Bool
                    && vs[3] is Usec
                {
                    Some((vs, n))
                } else {
                    None
                },
                None => None,
            }
        }
    }

    open spec fn spec_canonical(&self, protocol_version: u16) -> bool {
        (protocol_version < 21 ==> (self.format.encoding == FormatEncoding::Any && self.format.props@.len() == 0))
    }

    open spec fn spec_encodable(&self, protocol_version: u16) -> bool {
        &&& values_wf(self.spec_values(protocol_version))
        &&& self.sink_index != INVALID_INDEX
        &&& self.spec_canonical(protocol_version)
    }

    fn read(ts: &mut TagStructReader, protocol_version: u16) -> (r: Result<Self, ProtocolError>) {
        let ghost s = ts.rest();
        let ghost total: int = if protocol_version >= 21 { 5 } else { 4 };
        proof {
            lemma_parse_values_start(s, total);
            lemma_parse_values_next(s, Seq::empty(), ts.rest(), total - 1);
        }
        let sink_index = match ts.read_index()? {
            Some(i) => i,
            None => {
                return Err(ProtocolError::Invalid("invalid sink index".to_owned()));
            },
        };
        proof {
            assert(parse_values(s, total as nat) == parse_values_after(
                seq![TagValue::U32(sink_index)],
                s.len() - ts.rest().len(),
                ts.rest(),
                total - 1,
            ));
            lemma_parse_values_next(s, seq![TagValue::U32(sink_index)], ts.rest(), total - 2);
        }
        let sink_name = ts.read_string()?;
        proof {
            assert(parse_values(s, total as nat) == parse_values_after(
                seq![TagValue::U32(sink_index), string_value(opt_cstr_view(sink_name))],
                s.len() - ts.rest().len(),
                ts.rest(),
                total - 2,
            ));
            lemma_parse_values_next(
                s,
                seq![TagValue::U32(sink_index), string_value(opt_cstr_view(sink_name))],
                ts.rest(),
                total - 3,
            );
        }
        let suspended = ts.read_bool()?;
        proof {
            assert(parse_values(s, total as nat) == parse_values_after(
                seq![
                    TagValue::U32(sink_index),
                    string_value(opt_cstr_view(sink_name)),
                    TagValue::Bool(suspended),
                ],
                s.len() - ts.rest().len(),
                ts.rest(),
                total - 3,
            ));
            lemma_parse_values_next(
                s,
                seq![
                    TagValue::U32(sink_index),
                    string_value(opt_cstr_view(sink_name)),
                    TagValue::Bool(suspended),
                ],
                ts.rest(),
                total - 4,
            );
        }
        let stream_latency = ts.read_usec()?;
        proof {
            assert(parse_values(s, total as nat) == parse_values_after(
                seq![
                    TagValue::U32(sink_index),
                    string_value(opt_cstr_view(sink_name)),
                    TagValue::Bool(suspended),
                    TagValue::Usec(stream_latency),
                ],
                s.len() - ts.rest().len(),
                ts.rest(),
                total - 4,
            ));
        }
        let format = if protocol_version >= 21 {
            proof {
                lemma_parse_values_next(
                    s,
                    seq![
                        TagValue::U32(sink_index),
                        string_value(opt_cstr_view(sink_name)),
                        TagValue::Bool(suspended),
                        TagValue::Usec(stream_latency),
                    ],
                    ts.rest(),
                    total - 5,
                );
            }
            let format = ts.read_format_info()?;
            proof {
                assert(parse_values(s, total as nat) == parse_values_after(
                    seq![
                        TagValue::U32(sink_index),
                        string_value(opt_cstr_view(sink_name)),
                        TagValue::Bool(suspended),
                        TagValue::Usec(stream_latency),
                        format_info_value(format),
                    ],
                    s.len() - ts.rest().len(),
                    ts.rest(),
                    total - 5,
                ));
                lemma_parse_values_done(
                    seq![
                        TagValue::U32(sink_index),
                        string_value(opt_cstr_view(sink_name)),
                        TagValue::Bool(suspended),
                        TagValue::Usec(stream_latency),
                        format_info_value(format),
                    ],
                    s.len() - ts.rest().len(),
                    ts.rest(),
                );
            }
            format
        } else {
            proof {
                lemma_parse_values_done(
                    seq![
                        TagValue::U32(sink_index),
                        string_value(opt_cstr_view(sink_name)),
                        TagValue::Bool(suspended),
                        TagValue::Usec(stream_latency),
                    ],
                    s.len() - ts.rest().len(),
                    ts.rest(),
                );
            }
            FormatInfo::new(FormatEncoding::Any)
        };
        Ok(StreamReplyTail {
            sink_index,
            sink_name,
            suspended,
            stream_latency,
            format,
        })
    }

    proof fn lemma_roundtrip(&self, protocol_version: u16, rest: Seq<u8>) {
        lemma_encoding_roundtrip(self.format.encoding);
        lemma_parse_values_bytes(self.spec_values(protocol_version), rest);
    }
}


/// The values a [`RecordReplyHead`] is sent as, position by position: whatever a read
/// gives from the values `vs` holds each field from its own position.
pub proof fn lemma_record_reply_head_layout(q: RecordReplyHead, vs: Seq<TagValue>, protocol_version: u16)
    requires
        q.spec_values(protocol_version) == vs,
    ensures
        vs == (
            seq![
                    TagValue::U32(q.channel_index),
                    TagValue::U32(q.stream_index),
                    TagValue::U32(q.buffer_attr.max_length),
                    TagValue::U32(q.buffer_attr.fragment_size),
                    sample_spec_value(q.sample_spec),
                    TagValue::ChannelMap(q.channel_map@),
                ]
        ),
{
}

/// The values a [`PlaybackReplyHead`] is sent as, position by position: whatever a read
/// gives from the values `vs` holds each field from its own position.
pub proof fn lemma_playback_reply_head_layout(q: PlaybackReplyHead, vs: Seq<TagValue>, protocol_version: u16)
    requires
        q.spec_values(protocol_version) == vs,
    ensures
        vs == (
            seq![
                    TagValue::U32(q.channel),
                    TagValue::U32(q.stream_index),
                    TagValue::U32(q.requested_bytes),
                    TagValue::U32(q.buffer_attr.max_length),
                    TagValue::U32(q.buffer_attr.target_length),
                    TagValue::U32(q.buffer_attr.pre_buffering),
                    TagValue::U32(q.buffer_attr.minimum_request_length),
                    sample_spec_value(q.sample_spec),
                    TagValue::ChannelMap(q.channel_map@),
                ]
        ),
{
}

/// The values a [`StreamReplyTail`] is sent as, position by position: whatever a read
/// gives from the values `vs` holds each field from its own position.
pub proof fn lemma_stream_reply_tail_layout(q: StreamReplyTail, vs: Seq<TagValue>, protocol_version: u16)
    requires
        q.spec_values(protocol_version) == vs,
    ensures
        vs == (
            if protocol_version >= 21 {
                    seq![
                        TagValue::U32(q.sink_index),
                        string_value(opt_cstr_view(q.sink_name)),
                        TagValue::Bool(q.suspended),
                        TagValue::Usec(q.stream_latency),
                        format_info_value(q.format),
                    ]
                } else {
                    seq![
                        TagValue::U32(q.sink_index),
                        string_value(opt_cstr_view(q.sink_name)),
                        TagValue::Bool(q.suspended),
                        TagValue::Usec(q.stream_latency),
                    ]
                }
        ),
{
}

} // verus!
