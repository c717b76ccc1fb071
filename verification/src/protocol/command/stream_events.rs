//! Events the server sends about streams.

use vstd::prelude::*;

use crate::protocol::error::ProtocolError;
use crate::protocol::serde::fields::{
    lemma_values_bytes_1, lemma_values_bytes_2, lemma_values_bytes_3, lemma_values_bytes_4,
    lemma_values_bytes_6, lemma_values_bytes_7, lemma_values_bytes_9,
};
use crate::protocol::serde::wire::{
    TagValue, lemma_parse_values_bytes, lemma_parse_values_done, lemma_parse_values_next,
    lemma_parse_values_start, parse_values, parse_values_after, values_bytes, values_wf,
};
use crate::protocol::serde::{
    INVALID_INDEX, TagStructRead, TagStructReader, TagStructWrite, TagStructWriter,
};
use crate::protocol::serde::cstr::CString;
use crate::protocol::serde::props::Props;
use crate::protocol::stream::{BUFFER_ATTR_DEFAULT, BufferAttr};

verus! {

/// Sent by the server to request a chunk from a playback stream.
#[derive(Default, Debug, Clone, Copy, PartialEq, Eq)]
pub struct Request {
    /// The channel ID.
    pub channel: u32,

    /// The number of bytes requested.
    pub length: u32,
}

impl TagStructWrite for Request {
    open spec fn spec_values(&self, protocol_version: u16) -> Seq<TagValue> {
        seq![TagValue::U32(self.channel), TagValue::U32(self.length)]
    }

    open spec fn spec_writable(&self) -> bool {
        true
    }

    fn write(&self, w: &mut TagStructWriter, _protocol_version: u16) -> (r: Result<(), ProtocolError>) {
        w.write_u32(self.channel)?;
        w.write_u32(self.length)?;
        proof {
            lemma_values_bytes_2(TagValue::U32(self.channel), TagValue::U32(self.length));
        }
        assert(w.bytes() =~= old(w).bytes() + values_bytes(self.spec_values(_protocol_version)));
        Ok(())
    }
}

impl TagStructRead for Request {
    open spec fn spec_parse(s: Seq<u8>, protocol_version: u16) -> Option<(Seq<TagValue>, int)> {
        match parse_values(s, 2) {
            Some((vs, n)) => if vs[0] is U32 && vs[1] is U32 {
                Some((vs, n))
            } else {
                None
            },
            None => None,
        }
    }

    open spec fn spec_canonical(&self, protocol_version: u16) -> bool {
        true
    }

    open spec fn spec_encodable(&self, protocol_version: u16) -> bool {
        &&& values_wf(self.spec_values(protocol_version))
        &&& self.spec_canonical(protocol_version)
    }

    fn read(ts: &mut TagStructReader, _protocol_version: u16) -> (r: Result<Self, ProtocolError>) {
        let ghost s = ts.rest();
        let ghost total: int = 2;
        proof {
            lemma_parse_values_start(s, total);
            lemma_parse_values_next(s, Seq::empty(), ts.rest(), total - 1);
        }
        let channel = ts.read_u32()?;
        proof {
            assert(parse_values(s, total as nat) == parse_values_after(
                seq![TagValue::U32(channel)],
                s.len() - ts.rest().len(),
                ts.rest(),
                total - 1,
            ));
            lemma_parse_values_next(s, seq![TagValue::U32(channel)], ts.rest(), total - 2);
        }
        let length = ts.read_u32()?;
        proof {
            assert(parse_values(s, total as nat) == parse_values_after(
                seq![TagValue::U32(channel), TagValue::U32(length)],
                s.len() - ts.rest().len(),
                ts.rest(),
                total - 2,
            ));
            lemma_parse_values_done(
                seq![TagValue::U32(channel), TagValue::U32(length)],
                s.len() - ts.rest().len(),
                ts.rest(),
            );
        }
        Ok(Request { channel, length })
    }

    proof fn lemma_roundtrip(&self, protocol_version: u16, rest: Seq<u8>) {
        lemma_parse_values_bytes(self.spec_values(protocol_version), rest);
    }
}

/// Sent by the server when a playback stream runs out of data.
#[derive(Default, Debug, Clone, Copy, PartialEq, Eq)]
pub struct Underflow {
    /// The channel ID.
    pub channel: u32,

    /// The offset in the stream at which the underflow happened; sent
    /// from protocol version 23 on.
    pub offset: i64,
}

impl TagStructWrite for Underflow {
    open spec fn spec_values(&self, protocol_version: u16) -> Seq<TagValue> {
        if protocol_version >= 23 {
            seq![TagValue::U32(self.channel), TagValue::S64(self.offset)]
        } else {
            seq![TagValue::U32(self.channel)]
        }
    }

    open spec fn spec_writable(&self) -> bool {
        true
    }

    fn write(&self, w: &mut TagStructWriter, protocol_version: u16) -> (r: Result<(), ProtocolError>) {
        w.write_u32(self.channel)?;
        if protocol_version >= 23 {
            w.write_i64(self.offset)?;
            proof {
                lemma_values_bytes_2(TagValue::U32(self.channel), TagValue::S64(self.offset));
            }
        } else {
            proof {
                lemma_values_bytes_1(TagValue::U32(self.channel));
            }
        }
        assert(w.bytes() =~= old(w).bytes() + values_bytes(self.spec_values(protocol_version)));
        Ok(())
    }
}

impl TagStructRead for Underflow {
    open spec fn spec_parse(s: Seq<u8>, protocol_version: u16) -> Option<(Seq<TagValue>, int)> {
        if protocol_version >= 23 {
            match parse_values(s, 2) {
                Some((vs, n)) => if vs[0] is U32 && vs[1] is S64 {
                    Some((vs, n))
                } else {
                    None
                },
                None => None,
            }
        } else {
            match parse_values(s, 1) {
                Some((vs, n)) => if vs[0] is U32 {
                    Some((vs, n))
                } else {
                    None
                },
                None => None,
            }
        }
    }

    open spec fn spec_canonical(&self, protocol_version: u16) -> bool {
        (protocol_version < 23 ==> self.offset == 0)
    }

    open spec fn spec_encodable(&self, protocol_version: u16) -> bool {
        &&& values_wf(self.spec_values(protocol_version))
        &&& self.spec_canonical(protocol_version)
    }

    fn read(ts: &mut TagStructReader, protocol_version: u16) -> (r: Result<Self, ProtocolError>) {
        let ghost s = ts.rest();
        let ghost total: int = if protocol_version >= 23 { 2 } else { 1 };
        proof {
            lemma_parse_values_start(s, total);
            lemma_parse_values_next(s, Seq::empty(), ts.rest(), total - 1);
        }
        let channel = ts.read_u32()?;
        proof {
            assert(parse_values(s, total as nat) == parse_values_after(
                seq![TagValue::U32(channel)],
                s.len() - ts.rest().len(),
                ts.rest(),
                total - 1,
            ));
        }
        let offset = if protocol_version >= 23 {
            proof {
                lemma_parse_values_next(s, seq![TagValue::U32(channel)], ts.rest(), total - 2);
            }
            let offset = ts.read_i64()?;
            proof {
                assert(parse_values(s, total as nat) == parse_values_after(
                    seq![TagValue::U32(channel), TagValue::S64(offset)],
                    s.len() - ts.rest().len(),
                    ts.rest(),
                    total - 2,
                ));
                lemma_parse_values_done(
                    seq![TagValue::U32(channel), TagValue::S64(offset)],
                    s.len() - ts.rest().len(),
                    ts.rest(),
                );
            }
            offset
        } else {
            proof {
                lemma_parse_values_done(seq![
                    TagValue::U32(channel),
                ], s.len() - ts.rest().len(), ts.rest());
            }
            0
        };
        Ok(Underflow { channel, offset })
    }

    proof fn lemma_roundtrip(&self, protocol_version: u16, rest: Seq<u8>) {
        lemma_parse_values_bytes(self.spec_values(protocol_version), rest);
    }
}

/// Sent by the server when the buffer attributes of a playback stream change.
#[derive(Default, Debug, Clone, Copy, PartialEq, Eq)]
pub struct PlaybackBufferAttrChanged {
    /// The index of the stream.
    pub stream_index: u32,

    /// The new buffer attributes; the fragment size is not sent.
    pub buffer_attr: BufferAttr,

    /// The configured latency of the sink input, in microseconds.
    pub sink_input_latency: u64,
}

impl TagStructWrite for PlaybackBufferAttrChanged {
    open spec fn spec_values(&self, protocol_version: u16) -> Seq<TagValue> {
        seq![
            TagValue::U32(self.stream_index),
            TagValue::U32(self.buffer_attr.max_length),
            TagValue::U32(self.buffer_attr.target_length),
            TagValue::U32(self.buffer_attr.pre_buffering),
            TagValue::U32(self.buffer_attr.minimum_request_length),
            TagValue::Usec(self.sink_input_latency),
        ]
    }

    open spec fn spec_writable(&self) -> bool {
        true
    }

    fn write(&self, w: &mut TagStructWriter, _protocol_version: u16) -> (r: Result<(), ProtocolError>) {
        w.write_u32(self.stream_index)?;
        w.write_u32(self.buffer_attr.max_length)?;
        w.write_u32(self.buffer_attr.target_length)?;
        w.write_u32(self.buffer_attr.pre_buffering)?;
        w.write_u32(self.buffer_attr.minimum_request_length)?;
        w.write_usec(self.sink_input_latency)?;
        proof {
            lemma_values_bytes_6(
                TagValue::U32(self.stream_index),
                TagValue::U32(self.buffer_attr.max_length),
                TagValue::U32(self.buffer_attr.target_length),
                TagValue::U32(self.buffer_attr.pre_buffering),
                TagValue::U32(self.buffer_attr.minimum_request_length),
                TagValue::Usec(self.sink_input_latency),
            );
        }
        assert(w.bytes() =~= old(w).bytes() + values_bytes(self.spec_values(_protocol_version)));
        Ok(())
    }
}

impl TagStructRead for PlaybackBufferAttrChanged {
    open spec fn spec_parse(s: Seq<u8>, protocol_version: u16) -> Option<(Seq<TagValue>, int)> {
        match parse_values(s, 6) {
            Some((vs, n)) => if vs[0] is U32
                && vs[1] is U32
                && vs[2] is U32
                && vs[3] is U32
                && vs[4] is U32
                && vs[5] is Usec
            {
                Some((vs, n))
            } else {
                None
            },
            None => None,
        }
    }

    open spec fn spec_canonical(&self, protocol_version: u16) -> bool {
        self.buffer_attr.fragment_size == BUFFER_ATTR_DEFAULT
    }

    open spec fn spec_encodable(&self, protocol_version: u16) -> bool {
        &&& values_wf(self.spec_values(protocol_version))
        &&& self.spec_canonical(protocol_version)
    }

    #[verifier::rlimit(40)]
    fn read(ts: &mut TagStructReader, _protocol_version: u16) -> (r: Result<Self, ProtocolError>) {
        let ghost s = ts.rest();
        let ghost total: int = 6;
        proof {
            lemma_parse_values_start(s, total);
            lemma_parse_values_next(s, Seq::empty(), ts.rest(), total - 1);
        }
        let stream_index = ts.read_u32()?;
        proof {
            assert(parse_values(s, total as nat) == parse_values_after(
                seq![TagValue::U32(stream_index)],
                s.len() - ts.rest().len(),
                ts.rest(),
                total - 1,
            ));
            lemma_parse_values_next(s, seq![TagValue::U32(stream_index)], ts.rest(), total - 2);
        }
        let max_length = ts.read_u32()?;
        proof {
            assert(parse_values(s, total as nat) == parse_values_after(
                seq![TagValue::U32(stream_index), TagValue::U32(max_length)],
                s.len() - ts.rest().len(),
                ts.rest(),
                total - 2,
            ));
            lemma_parse_values_next(
                s,
                seq![TagValue::U32(stream_index), TagValue::U32(max_length)],
                ts.rest(),
                total - 3,
            );
        }
        let target_length = ts.read_u32()?;
        proof {
            assert(parse_values(s, total as nat) == parse_values_after(
                seq![
                    TagValue::U32(stream_index),
                    TagValue::U32(max_length),
                    TagValue::U32(target_length),
                ],
                s.len() - ts.rest().len(),
                ts.rest(),
                total - 3,
            ));
            lemma_parse_values_next(
                s,
                seq![
                    TagValue::U32(stream_index),
                    TagValue::U32(max_length),
                    TagValue::U32(target_length),
                ],
                ts.rest(),
                total - 4,
            );
        }
        let pre_buffering = ts.read_u32()?;
        proof {
            assert(parse_values(s, total as nat) == parse_values_after(
                seq![
                    TagValue::U32(stream_index),
                    TagValue::U32(max_length),
                    TagValue::U32(target_length),
                    TagValue::U32(pre_buffering),
                ],
                s.len() - ts.rest().len(),
                ts.rest(),
                total - 4,
            ));
            lemma_parse_values_next(
                s,
                seq![
                    TagValue::U32(stream_index),
                    TagValue::U32(max_length),
                    TagValue::U32(target_length),
                    TagValue::U32(pre_buffering),
                ],
                ts.rest(),
                total - 5,
            );
        }
        let minimum_request_length = ts.read_u32()?;
        proof {
            assert(parse_values(s, total as nat) == parse_values_after(
                seq![
                    TagValue::U32(stream_index),
                    TagValue::U32(max_length),
                    TagValue::U32(target_length),
                    TagValue::U32(pre_buffering),
                    TagValue::U32(minimum_request_length),
                ],
                s.len() - ts.rest().len(),
                ts.rest(),
                total - 5,
            ));
            lemma_parse_values_next(
                s,
                seq![
                    TagValue::U32(stream_index),
                    TagValue::U32(max_length),
                    TagValue::U32(target_length),
                    TagValue::U32(pre_buffering),
                    TagValue::U32(minimum_request_length),
                ],
                ts.rest(),
                total - 6,
            );
        }
        let sink_input_latency = ts.read_usec()?;
        proof {
            assert(parse_values(s, total as nat) == parse_values_after(
                seq![
                    TagValue::U32(stream_index),
                    TagValue::U32(max_length),
                    TagValue::U32(target_length),
                    TagValue::U32(pre_buffering),
                    TagValue::U32(minimum_request_length),
                    TagValue::Usec(sink_input_latency),
                ],
                s.len() - ts.rest().len(),
                ts.rest(),
                total - 6,
            ));
            lemma_parse_values_done(
                seq![
                    TagValue::U32(stream_index),
                    TagValue::U32(max_length),
                    TagValue::U32(target_length),
                    TagValue::U32(pre_buffering),
                    TagValue::U32(minimum_request_length),
                    TagValue::Usec(sink_input_latency),
                ],
                s.len() - ts.rest().len(),
                ts.rest(),
            );
        }
        Ok(PlaybackBufferAttrChanged {
            stream_index,
            buffer_attr: BufferAttr {
                max_length,
                target_length,
                pre_buffering,
                minimum_request_length,
                fragment_size: BUFFER_ATTR_DEFAULT,
            },
            sink_input_latency,
        })
    }

    proof fn lemma_roundtrip(&self, protocol_version: u16, rest: Seq<u8>) {
        lemma_parse_values_bytes(self.spec_values(protocol_version), rest);
    }
}

/// Sent by the server when the buffer attributes of a record stream change.
#[derive(Default, Debug, Clone, Copy, PartialEq, Eq)]
pub struct RecordBufferAttrChanged {
    /// The index of the stream.
    pub stream_index: u32,

    /// The new buffer attributes; only the maximum length and the
    /// fragment size are sent.
    pub buffer_attr: BufferAttr,

    /// The configured latency of the source output, in microseconds.
    pub source_output_latency: u64,
}

impl TagStructWrite for RecordBufferAttrChanged {
    open spec fn spec_values(&self, protocol_version: u16) -> Seq<TagValue> {
        seq![
            TagValue::U32(self.stream_index),
            TagValue::U32(self.buffer_attr.max_length),
            TagValue::U32(self.buffer_attr.fragment_size),
            TagValue::Usec(self.source_output_latency),
        ]
    }

    open spec fn spec_writable(&self) -> bool {
        true
    }

    fn write(&self, w: &mut TagStructWriter, _protocol_version: u16) -> (r: Result<(), ProtocolError>) {
        w.write_u32(self.stream_index)?;
        w.write_u32(self.buffer_attr.max_length)?;
        w.write_u32(self.buffer_attr.fragment_size)?;
        w.write_usec(self.source_output_latency)?;
        proof {
            lemma_values_bytes_4(
                TagValue::U32(self.stream_index),
                TagValue::U32(self.buffer_attr.max_length),
                TagValue::U32(self.buffer_attr.fragment_size),
                TagValue::Usec(self.source_output_latency),
            );
        }
        assert(w.bytes() =~= old(w).bytes() + values_bytes(self.spec_values(_protocol_version)));
        Ok(())
    }
}

impl TagStructRead for RecordBufferAttrChanged {
    open spec fn spec_parse(s: Seq<u8>, protocol_version: u16) -> Option<(Seq<TagValue>, int)> {
        match parse_values(s, 4) {
            Some((vs, n)) => if vs[0] is U32 && vs[1] is U32 && vs[2] is U32 && vs[3] is Usec {
                Some((vs, n))
            } else {
                None
            },
            None => None,
        }
    }

    open spec fn spec_canonical(&self, protocol_version: u16) -> bool {
        self.buffer_attr.target_length == BUFFER_ATTR_DEFAULT
        && self.buffer_attr.pre_buffering == BUFFER_ATTR_DEFAULT
        && self.buffer_attr.minimum_request_length == BUFFER_ATTR_DEFAULT
    }

    open spec fn spec_encodable(&self, protocol_version: u16) -> bool {
        &&& values_wf(self.spec_values(protocol_version))
        &&& self.spec_canonical(protocol_version)
    }

    fn read(ts: &mut TagStructReader, _protocol_version: u16) -> (r: Result<Self, ProtocolError>) {
        let ghost s = ts.rest();
        let ghost total: int = 4;
        proof {
            lemma_parse_values_start(s, total);
            lemma_parse_values_next(s, Seq::empty(), ts.rest(), total - 1);
        }
        let stream_index = ts.read_u32()?;
        proof {
            assert(parse_values(s, total as nat) == parse_values_after(
                seq![TagValue::U32(stream_index)],
                s.len() - ts.rest().len(),
                ts.rest(),
                total - 1,
            ));
            lemma_parse_values_next(s, seq![TagValue::U32(stream_index)], ts.rest(), total - 2);
        }
        let max_length = ts.read_u32()?;
        proof {
            assert(parse_values(s, total as nat) == parse_values_after(
                seq![TagValue::U32(stream_index), TagValue::U32(max_length)],
                s.len() - ts.rest().len(),
                ts.rest(),
                total - 2,
            ));
            lemma_parse_values_next(
                s,
                seq![TagValue::U32(stream_index), TagValue::U32(max_length)],
                ts.rest(),
                total - 3,
            );
        }
        let fragment_size = ts.read_u32()?;
        proof {
            assert(parse_values(s, total as nat) == parse_values_after(
                seq![
                    TagValue::U32(stream_index),
                    TagValue::U32(max_length),
                    TagValue::U32(fragment_size),
                ],
                s.len() - ts.rest().len(),
                ts.rest(),
                total - 3,
            ));
            lemma_parse_values_next(
                s,
                seq![
                    TagValue::U32(stream_index),
                    TagValue::U32(max_length),
                    TagValue::U32(fragment_size),
                ],
                ts.rest(),
                total - 4,
            );
        }
        let source_output_latency = ts.read_usec()?;
        proof {
            assert(parse_values(s, total as nat) == parse_values_after(
                seq![
                    TagValue::U32(stream_index),
                    TagValue::U32(max_length),
                    TagValue::U32(fragment_size),
                    TagValue::Usec(source_output_latency),
                ],
                s.len() - ts.rest().len(),
                ts.rest(),
                total - 4,
            ));
            lemma_parse_values_done(
                seq![
                    TagValue::U32(stream_index),
                    TagValue::U32(max_length),
                    TagValue::U32(fragment_size),
                    TagValue::Usec(source_output_latency),
                ],
                s.len() - ts.rest().len(),
                ts.rest(),
            );
        }
        Ok(RecordBufferAttrChanged {
            stream_index,
            buffer_attr: BufferAttr {
                max_length,
                target_length: BUFFER_ATTR_DEFAULT,
                pre_buffering: BUFFER_ATTR_DEFAULT,
                minimum_request_length: BUFFER_ATTR_DEFAULT,
                fragment_size,
            },
            source_output_latency,
        })
    }

    proof fn lemma_roundtrip(&self, protocol_version: u16, rest: Seq<u8>) {
        lemma_parse_values_bytes(self.spec_values(protocol_version), rest);
    }
}

/// Sent by the server when a playback stream moves to another sink.
#[derive(Debug, Clone, PartialEq, Eq)]
pub struct PlaybackStreamMovedParams {
    /// The index of the stream.
    pub stream_index: u32,

    /// The index of the new sink.
    pub device_index: u32,

    /// The name of the new sink.
    pub device_name: CString,

    /// Whether the new sink is suspended.
    pub device_suspended: bool,

    /// The new buffer attributes; the fragment size is not sent.
    pub buffer_attr: BufferAttr,

    /// The configured latency of the sink, in microseconds.
    pub configured_sink_latency: u64,
}

impl TagStructWrite for PlaybackStreamMovedParams {
    open spec fn spec_values(&self, protocol_version: u16) -> Seq<TagValue> {
        seq![
            TagValue::U32(self.stream_index),
            TagValue::U32(self.device_index),
            TagValue::Str(self.device_name@),
            TagValue::Bool(self.device_suspended),
            TagValue::U32(self.buffer_attr.max_length),
            TagValue::U32(self.buffer_attr.target_length),
            TagValue::U32(self.buffer_attr.pre_buffering),
            TagValue::U32(self.buffer_attr.minimum_request_length),
            TagValue::Usec(self.configured_sink_latency),
        ]
    }

    open spec fn spec_writable(&self) -> bool {
        true
    }

    fn write(&self, w: &mut TagStructWriter, _protocol_version: u16) -> (r: Result<(), ProtocolError>) {
        w.write_index(Some(self.stream_index))?;
        w.write_index(Some(self.device_index))?;
        w.write_string(Some(&self.device_name))?;
        w.write_bool(self.device_suspended)?;
        w.write_u32(self.buffer_attr.max_length)?;
        w.write_u32(self.buffer_attr.target_length)?;
        w.write_u32(self.buffer_attr.pre_buffering)?;
        w.write_u32(self.buffer_attr.minimum_request_length)?;
        w.write_usec(self.configured_sink_latency)?;
        proof {
            lemma_values_bytes_9(
                TagValue::U32(self.stream_index),
                TagValue::U32(self.device_index),
                TagValue::Str(self.device_name@),
                TagValue::Bool(self.device_suspended),
                TagValue::U32(self.buffer_attr.max_length),
                TagValue::U32(self.buffer_attr.target_length),
                TagValue::U32(self.buffer_attr.pre_buffering),
                TagValue::U32(self.buffer_attr.minimum_request_length),
                TagValue::Usec(self.configured_sink_latency),
            );
        }
        assert(w.bytes() =~= old(w).bytes() + values_bytes(self.spec_values(_protocol_version)));
        Ok(())
    }
}

impl TagStructRead for PlaybackStreamMovedParams {
    open spec fn spec_parse(s: Seq<u8>, protocol_version: u16) -> Option<(Seq<TagValue>, int)> {
        match parse_values(s, 9) {
            Some((vs, n)) => if (vs[0] matches TagValue::U32(x) && x != INVALID_INDEX)
                && (vs[1] matches TagValue::U32(x) && x != INVALID_INDEX)
                && vs[2] is Str
                && vs[3] is Bool
                && vs[4] is U32
                && vs[5] is U32
                && vs[6] is U32
                && vs[7] is U32
                && vs[8] is Usec
            {
                Some((vs, n))
            } else {
                None
            },
            None => None,
        }
    }

    open spec fn spec_canonical(&self, protocol_version: u16) -> bool {
        self.buffer_attr.fragment_size == BUFFER_ATTR_DEFAULT
    }

    open spec fn spec_encodable(&self, protocol_version: u16) -> bool {
        &&& values_wf(self.spec_values(protocol_version))
        &&& self.stream_index != INVALID_INDEX
        &&& self.device_index != INVALID_INDEX
        &&& self.spec_canonical(protocol_version)
    }

    #[verifier::spinoff_prover]
    #[verifier::rlimit(100)]
    fn read(ts: &mut TagStructReader, _protocol_version: u16) -> (r: Result<Self, ProtocolError>) {
        let ghost s = ts.rest();
        let ghost total: int = 9;
        proof {
            lemma_parse_values_start(s, total);
            lemma_parse_values_next(s, Seq::empty(), ts.rest(), total - 1);
        }
        let stream_index = match ts.read_index()? {
            Some(i) => i,
            None => {
                return Err(ProtocolError::Invalid("invalid stream index".to_owned()));
            },
        };
        proof {
            assert(parse_values(s, total as nat) == parse_values_after(
                seq![TagValue::U32(stream_index)],
                s.len() - ts.rest().len(),
                ts.rest(),
                total - 1,
            ));
            lemma_parse_values_next(s, seq![TagValue::U32(stream_index)], ts.rest(), total - 2);
        }
        let device_index = match ts.read_index()? {
            Some(i) => i,
            None => {
                return Err(ProtocolError::Invalid("invalid device index".to_owned()));
            },
        };
        proof {
            assert(parse_values(s, total as nat) == parse_values_after(
                seq![TagValue::U32(stream_index), TagValue::U32(device_index)],
                s.len() - ts.rest().len(),
                ts.rest(),
                total - 2,
            ));
            lemma_parse_values_next(
                s,
                seq![TagValue::U32(stream_index), TagValue::U32(device_index)],
                ts.rest(),
                total - 3,
            );
        }
        let device_name = ts.read_string_non_null()?;
        proof {
            assert(parse_values(s, total as nat) == parse_values_after(
                seq![
                    TagValue::U32(stream_index),
                    TagValue::U32(device_index),
                    TagValue::Str(device_name@),
                ],
                s.len() - ts.rest().len(),
                ts.rest(),
                total - 3,
            ));
            lemma_parse_values_next(
                s,
                seq![
                    TagValue::U32(stream_index),
                    TagValue::U32(device_index),
                    TagValue::Str(device_name@),
                ],
                ts.rest(),
                total - 4,
            );
        }
        let device_suspended = ts.read_bool()?;
        proof {
            assert(parse_values(s, total as nat) == parse_values_after(
                seq![
                    TagValue::U32(stream_index),
                    TagValue::U32(device_index),
                    TagValue::Str(device_name@),
                    TagValue::Bool(device_suspended),
                ],
                s.len() - ts.rest().len(),
                ts.rest(),
                total - 4,
            ));
            lemma_parse_values_next(
                s,
                seq![
                    TagValue::U32(stream_index),
                    TagValue::U32(device_index),
                    TagValue::Str(device_name@),
                    TagValue::Bool(device_suspended),
                ],
                ts.rest(),
                total - 5,
            );
        }
        let max_length = ts.read_u32()?;
        proof {
            assert(parse_values(s, total as nat) == parse_values_after(
                seq![
                    TagValue::U32(stream_index),
                    TagValue::U32(device_index),
                    TagValue::Str(device_name@),
                    TagValue::Bool(device_suspended),
                    TagValue::U32(max_length),
                ],
                s.len() - ts.rest().len(),
                ts.rest(),
                total - 5,
            ));
            lemma_parse_values_next(
                s,
                seq![
                    TagValue::U32(stream_index),
                    TagValue::U32(device_index),
                    TagValue::Str(device_name@),
                    TagValue::Bool(device_suspended),
                    TagValue::U32(max_length),
                ],
                ts.rest(),
                total - 6,
            );
        }
        let target_length = ts.read_u32()?;
        proof {
            assert(parse_values(s, total as nat) == parse_values_after(
                seq![
                    TagValue::U32(stream_index),
                    TagValue::U32(device_index),
                    TagValue::Str(device_name@),
                    TagValue::Bool(device_suspended),
                    TagValue::U32(max_length),
                    TagValue::U32(target_length),
                ],
                s.len() - ts.rest().len(),
                ts.rest(),
                total - 6,
            ));
            lemma_parse_values_next(
                s,
                seq![
                    TagValue::U32(stream_index),
                    TagValue::U32(device_index),
                    TagValue::Str(device_name@),
                    TagValue::Bool(device_suspended),
                    TagValue::U32(max_length),
                    TagValue::U32(target_length),
                ],
                ts.rest(),
                total - 7,
            );
        }
        let pre_buffering = ts.read_u32()?;
        proof {
            assert(parse_values(s, total as nat) == parse_values_after(
                seq![
                    TagValue::U32(stream_index),
                    TagValue::U32(device_index),
                    TagValue::Str(device_name@),
                    TagValue::Bool(device_suspended),
                    TagValue::U32(max_length),
                    TagValue::U32(target_length),
                    TagValue::U32(pre_buffering),
                ],
                s.len() - ts.rest().len(),
                ts.rest(),
                total - 7,
            ));
            lemma_parse_values_next(
                s,
                seq![
                    TagValue::U32(stream_index),
                    TagValue::U32(device_index),
                    TagValue::Str(device_name@),
                    TagValue::Bool(device_suspended),
                    TagValue::U32(max_length),
                    TagValue::U32(target_length),
                    TagValue::U32(pre_buffering),
                ],
                ts.rest(),
                total - 8,
            );
        }
        let minimum_request_length = ts.read_u32()?;
        proof {
            assert(parse_values(s, total as nat) == parse_values_after(
                seq![
                    TagValue::U32(stream_index),
                    TagValue::U32(device_index),
                    TagValue::Str(device_name@),
                    TagValue::Bool(device_suspended),
                    TagValue::U32(max_length),
                    TagValue::U32(target_length),
                    TagValue::U32(pre_buffering),
                    TagValue::U32(minimum_request_length),
                ],
                s.len() - ts.rest().len(),
                ts.rest(),
                total - 8,
            ));
            lemma_parse_values_next(
                s,
                seq![
                    TagValue::U32(stream_index),
                    TagValue::U32(device_index),
                    TagValue::Str(device_name@),
                    TagValue::Bool(device_suspended),
                    TagValue::U32(max_length),
                    TagValue::U32(target_length),
                    TagValue::U32(pre_buffering),
                    TagValue::U32(minimum_request_length),
                ],
                ts.rest(),
                total - 9,
            );
        }
        let configured_sink_latency = ts.read_usec()?;
        proof {
            assert(parse_values(s, total as nat) == parse_values_after(
                seq![
                    TagValue::U32(stream_index),
                    TagValue::U32(device_index),
                    TagValue::Str(device_name@),
                    TagValue::Bool(device_suspended),
                    TagValue::U32(max_length),
                    TagValue::U32(target_length),
                    TagValue::U32(pre_buffering),
                    TagValue::U32(minimum_request_length),
                    TagValue::Usec(configured_sink_latency),
                ],
                s.len() - ts.rest().len(),
                ts.rest(),
                total - 9,
            ));
            lemma_parse_values_done(
                seq![
                    TagValue::U32(stream_index),
                    TagValue::U32(device_index),
                    TagValue::Str(device_name@),
                    TagValue::Bool(device_suspended),
                    TagValue::U32(max_length),
                    TagValue::U32(target_length),
                    TagValue::U32(pre_buffering),
                    TagValue::U32(minimum_request_length),
                    TagValue::Usec(configured_sink_latency),
                ],
                s.len() - ts.rest().len(),
                ts.rest(),
            );
        }
        Ok(PlaybackStreamMovedParams {
            stream_index,
            device_index,
            device_name,
            device_suspended,
            buffer_attr: BufferAttr {
                max_length,
                target_length,
                pre_buffering,
                minimum_request_length,
                fragment_size: BUFFER_ATTR_DEFAULT,
            },
            configured_sink_latency,
        })
    }

    proof fn lemma_roundtrip(&self, protocol_version: u16, rest: Seq<u8>) {
        lemma_parse_values_bytes(self.spec_values(protocol_version), rest);
    }
}

/// Sent by the server when a record stream moves to another source.
#[derive(Debug, Clone, PartialEq, Eq)]
pub struct RecordStreamMovedParams {
    /// The index of the stream.
    pub stream_index: u32,

    /// The index of the new source.
    pub device_index: u32,

    /// The name of the new source.
    pub device_name: CString,

    /// Whether the new source is suspended.
    pub device_suspended: bool,

    /// The new buffer attributes; only the maximum length and the
    /// fragment size are sent.
    pub buffer_attr: BufferAttr,

    /// The configured latency of the source, in microseconds.
    pub configured_source_latency: u64,
}

impl TagStructWrite for RecordStreamMovedParams {
    open spec fn spec_values(&self, protocol_version: u16) -> Seq<TagValue> {
        seq![
            TagValue::U32(self.stream_index),
            TagValue::U32(self.device_index),
            TagValue::Str(self.device_name@),
            TagValue::Bool(self.device_suspended),
            TagValue::U32(self.buffer_attr.max_length),
            TagValue::U32(self.buffer_attr.fragment_size),
            TagValue::Usec(self.configured_source_latency),
        ]
    }

    open spec fn spec_writable(&self) -> bool {
        true
    }

    fn write(&self, w: &mut TagStructWriter, _protocol_version: u16) -> (r: Result<(), ProtocolError>) {
        w.write_index(Some(self.stream_index))?;
        w.write_index(Some(self.device_index))?;
        w.write_string(Some(&self.device_name))?;
        w.write_bool(self.device_suspended)?;
        w.write_u32(self.buffer_attr.max_length)?;
        w.write_u32(self.buffer_attr.fragment_size)?;
        w.write_usec(self.configured_source_latency)?;
        proof {
            lemma_values_bytes_7(
                TagValue::U32(self.stream_index),
                TagValue::U32(self.device_index),
                TagValue::Str(self.device_name@),
                TagValue::Bool(self.device_suspended),
                TagValue::U32(self.buffer_attr.max_length),
                TagValue::U32(self.buffer_attr.fragment_size),
                TagValue::Usec(self.configured_source_latency),
            );
        }
        assert(w.bytes() =~= old(w).bytes() + values_bytes(self.spec_values(_protocol_version)));
        Ok(())
    }
}

impl TagStructRead for RecordStreamMovedParams {
    open spec fn spec_parse(s: Seq<u8>, protocol_version: u16) -> Option<(Seq<TagValue>, int)> {
        match parse_values(s, 7) {
            Some((vs, n)) => if (vs[0] matches TagValue::U32(x) && x != INVALID_INDEX)
                && (vs[1] matches TagValue::U32(x) && x != INVALID_INDEX)
                && vs[2] is Str
                && vs[3] is Bool
                && vs[4] is U32
                && vs[5] is U32
                && vs[6] is Usec
            {
                Some((vs, n))
            } else {
                None
            },
            None => None,
        }
    }

    open spec fn spec_canonical(&self, protocol_version: u16) -> bool {
        self.buffer_attr.target_length == BUFFER_ATTR_DEFAULT
        && self.buffer_attr.pre_buffering == BUFFER_ATTR_DEFAULT
        && self.buffer_attr.minimum_request_length == BUFFER_ATTR_DEFAULT
    }

    open spec fn spec_encodable(&self, protocol_version: u16) -> bool {
        &&& values_wf(self.spec_values(protocol_version))
        &&& self.stream_index != INVALID_INDEX
        &&& self.device_index != INVALID_INDEX
        &&& self.spec_canonical(protocol_version)
    }

    #[verifier::rlimit(40)]
    fn read(ts: &mut TagStructReader, _protocol_version: u16) -> (r: Result<Self, ProtocolError>) {
        let ghost s = ts.rest();
        let ghost total: int = 7;
        proof {
            lemma_parse_values_start(s, total);
            lemma_parse_values_next(s, Seq::empty(), ts.rest(), total - 1);
        }
        let stream_index = match ts.read_index()? {
            Some(i) => i,
            None => {
                return Err(ProtocolError::Invalid("invalid stream index".to_owned()));
            },
        };
        proof {
            assert(parse_values(s, total as nat) == parse_values_after(
                seq![TagValue::U32(stream_index)],
                s.len() - ts.rest().len(),
                ts.rest(),
                total - 1,
            ));
            lemma_parse_values_next(s, seq![TagValue::U32(stream_index)], ts.rest(), total - 2);
        }
        let device_index = match ts.read_index()? {
            Some(i) => i,
            None => {
                return Err(ProtocolError::Invalid("invalid device index".to_owned()));
            },
        };
        proof {
            assert(parse_values(s, total as nat) == parse_values_after(
                seq![TagValue::U32(stream_index), TagValue::U32(device_index)],
                s.len() - ts.rest().len(),
                ts.rest(),
                total - 2,
            ));
            lemma_parse_values_next(
                s,
                seq![TagValue::U32(stream_index), TagValue::U32(device_index)],
                ts.rest(),
                total - 3,
            );
        }
        let device_name = ts.read_string_non_null()?;
        proof {
            assert(parse_values(s, total as nat) == parse_values_after(
                seq![
                    TagValue::U32(stream_index),
                    TagValue::U32(device_index),
                    TagValue::Str(device_name@),
                ],
                s.len() - ts.rest().len(),
                ts.rest(),
                total - 3,
            ));
            lemma_parse_values_next(
                s,
                seq![
                    TagValue::U32(stream_index),
                    TagValue::U32(device_index),
                    TagValue::Str(device_name@),
                ],
                ts.rest(),
                total - 4,
            );
        }
        let device_suspended = ts.read_bool()?;
        proof {
            assert(parse_values(s, total as nat) == parse_values_after(
                seq![
                    TagValue::U32(stream_index),
                    TagValue::U32(device_index),
                    TagValue::Str(device_name@),
                    TagValue::Bool(device_suspended),
                ],
                s.len() - ts.rest().len(),
                ts.rest(),
                total - 4,
            ));
            lemma_parse_values_next(
                s,
                seq![
                    TagValue::U32(stream_index),
                    TagValue::U32(device_index),
                    TagValue::Str(device_name@),
                    TagValue::Bool(device_suspended),
                ],
                ts.rest(),
                total - 5,
            );
        }
        let max_length = ts.read_u32()?;
        proof {
            assert(parse_values(s, total as nat) == parse_values_after(
                seq![
                    TagValue::U32(stream_index),
                    TagValue::U32(device_index),
                    TagValue::Str(device_name@),
                    TagValue::Bool(device_suspended),
                    TagValue::U32(max_length),
                ],
                s.len() - ts.rest().len(),
                ts.rest(),
                total - 5,
            ));
            lemma_parse_values_next(
                s,
                seq![
                    TagValue::U32(stream_index),
                    TagValue::U32(device_index),
                    TagValue::Str(device_name@),
                    TagValue::Bool(device_suspended),
                    TagValue::U32(max_length),
                ],
                ts.rest(),
                total - 6,
            );
        }
        let fragment_size = ts.read_u32()?;
        proof {
            assert(parse_values(s, total as nat) == parse_values_after(
                seq![
                    TagValue::U32(stream_index),
                    TagValue::U32(device_index),
                    TagValue::Str(device_name@),
                    TagValue::Bool(device_suspended),
                    TagValue::U32(max_length),
                    TagValue::U32(fragment_size),
                ],
                s.len() - ts.rest().len(),
                ts.rest(),
                total - 6,
            ));
            lemma_parse_values_next(
                s,
                seq![
                    TagValue::U32(stream_index),
                    TagValue::U32(device_index),
                    TagValue::Str(device_name@),
                    TagValue::Bool(device_suspended),
                    TagValue::U32(max_length),
                    TagValue::U32(fragment_size),
                ],
                ts.rest(),
                total - 7,
            );
        }
        let configured_source_latency = ts.read_usec()?;
        proof {
            assert(parse_values(s, total as nat) == parse_values_after(
                seq![
                    TagValue::U32(stream_index),
                    TagValue::U32(device_index),
                    TagValue::Str(device_name@),
                    TagValue::Bool(device_suspended),
                    TagValue::U32(max_length),
                    TagValue::U32(fragment_size),
                    TagValue::Usec(configured_source_latency),
                ],
                s.len() - ts.rest().len(),
                ts.rest(),
                total - 7,
            ));
            lemma_parse_values_done(
                seq![
                    TagValue::U32(stream_index),
                    TagValue::U32(device_index),
                    TagValue::Str(device_name@),
                    TagValue::Bool(device_suspended),
                    TagValue::U32(max_length),
                    TagValue::U32(fragment_size),
                    TagValue::Usec(configured_source_latency),
                ],
                s.len() - ts.rest().len(),
                ts.rest(),
            );
        }
        Ok(RecordStreamMovedParams {
            stream_index,
            device_index,
            device_name,
            device_suspended,
            buffer_attr: BufferAttr {
                max_length,
                target_length: BUFFER_ATTR_DEFAULT,
                pre_buffering: BUFFER_ATTR_DEFAULT,
                minimum_request_length: BUFFER_ATTR_DEFAULT,
                fragment_size,
            },
            configured_source_latency,
        })
    }

    proof fn lemma_roundtrip(&self, protocol_version: u16, rest: Seq<u8>) {
        lemma_parse_values_bytes(self.spec_values(protocol_version), rest);
    }
}

/// Sent by the server when the device of a stream is suspended or resumed.
#[derive(Debug, Copy, Clone, PartialEq, Eq)]
pub struct StreamSuspendedParams {
    /// The index of the stream.
    pub stream_index: u32,

    /// Whether the device is now suspended.
    pub suspended: bool,
}

impl TagStructWrite for StreamSuspendedParams {
    open spec fn spec_values(&self, protocol_version: u16) -> Seq<TagValue> {
        seq![TagValue::U32(self.stream_index), TagValue::Bool(self.suspended)]
    }

    open spec fn spec_writable(&self) -> bool {
        true
    }

    fn write(&self, w: &mut TagStructWriter, _protocol_version: u16) -> (r: Result<(), ProtocolError>) {
        w.write_index(Some(self.stream_index))?;
        w.write_bool(self.suspended)?;
        proof {
            lemma_values_bytes_2(TagValue::U32(self.stream_index), TagValue::Bool(self.suspended));
        }
        assert(w.bytes() =~= old(w).bytes() + values_bytes(self.spec_values(_protocol_version)));
        Ok(())
    }
}

impl TagStructRead for StreamSuspendedParams {
    open spec fn spec_parse(s: Seq<u8>, protocol_version: u16) -> Option<(Seq<TagValue>, int)> {
        match parse_values(s, 2) {
            Some((vs, n)) => if (vs[0] matches TagValue::U32(x) && x != INVALID_INDEX)
                && vs[1] is Bool
            {
                Some((vs, n))
            } else {
                None
            },
            None => None,
        }
    }

    open spec fn spec_canonical(&self, protocol_version: u16) -> bool {
        true
    }

    open spec fn spec_encodable(&self, protocol_version: u16) -> bool {
        &&& values_wf(self.spec_values(protocol_version))
        &&& self.stream_index != INVALID_INDEX
        &&& self.spec_canonical(protocol_version)
    }

    fn read(ts: &mut TagStructReader, _protocol_version: u16) -> (r: Result<Self, ProtocolError>) {
        let ghost s = ts.rest();
        let ghost total: int = 2;
        proof {
            lemma_parse_values_start(s, total);
            lemma_parse_values_next(s, Seq::empty(), ts.rest(), total - 1);
        }
        let stream_index = match ts.read_index()? {
            Some(i) => i,
            None => {
                return Err(ProtocolError::Invalid("invalid stream index".to_owned()));
            },
        };
        proof {
            assert(parse_values(s, total as nat) == parse_values_after(
                seq![TagValue::U32(stream_index)],
                s.len() - ts.rest().len(),
                ts.rest(),
                total - 1,
            ));
            lemma_parse_values_next(s, seq![TagValue::U32(stream_index)], ts.rest(), total - 2);
        }
        let suspended = ts.read_bool()?;
        proof {
            assert(parse_values(s, total as nat) == parse_values_after(
                seq![TagValue::U32(stream_index), TagValue::Bool(suspended)],
                s.len() - ts.rest().len(),
                ts.rest(),
                total - 2,
            ));
            lemma_parse_values_done(
                seq![TagValue::U32(stream_index), TagValue::Bool(suspended)],
                s.len() - ts.rest().len(),
                ts.rest(),
            );
        }
        Ok(StreamSuspendedParams { stream_index, suspended })
    }

    proof fn lemma_roundtrip(&self, protocol_version: u16, rest: Seq<u8>) {
        lemma_parse_values_bytes(self.spec_values(protocol_version), rest);
    }
}

/// A named event about a stream, with properties.
#[derive(Debug, Clone, PartialEq, Eq)]
pub struct GenericStreamEvent {
    /// The index of the stream.
    pub stream_index: u32,

    /// The name of the event.
    pub event_name: CString,

    /// Properties of the event.
    pub event_properties: Props,
}

impl TagStructWrite for GenericStreamEvent {
    open spec fn spec_values(&self, protocol_version: u16) -> Seq<TagValue> {
        seq![
            TagValue::U32(self.stream_index),
            TagValue::Str(self.event_name@),
            TagValue::PropList(self.event_properties@),
        ]
    }

    open spec fn spec_writable(&self) -> bool {
        true
    }

    fn write(&self, w: &mut TagStructWriter, _protocol_version: u16) -> (r: Result<(), ProtocolError>) {
        w.write_index(Some(self.stream_index))?;
        w.write_string(Some(&self.event_name))?;
        w.write_props(&self.event_properties)?;
        proof {
            lemma_values_bytes_3(
                TagValue::U32(self.stream_index),
                TagValue::Str(self.event_name@),
                TagValue::PropList(self.event_properties@),
            );
        }
        assert(w.bytes() =~= old(w).bytes() + values_bytes(self.spec_values(_protocol_version)));
        Ok(())
    }
}

impl TagStructRead for GenericStreamEvent {
    open spec fn spec_parse(s: Seq<u8>, protocol_version: u16) -> Option<(Seq<TagValue>, int)> {
        match parse_values(s, 3) {
            Some((vs, n)) => if (vs[0] matches TagValue::U32(x) && x != INVALID_INDEX)
                && vs[1] is Str
                && vs[2] is PropList
            {
                Some((vs, n))
            } else {
                None
            },
            None => None,
        }
    }

    open spec fn spec_canonical(&self, protocol_version: u16) -> bool {
        true
    }

    open spec fn spec_encodable(&self, protocol_version: u16) -> bool {
        &&& values_wf(self.spec_values(protocol_version))
        &&& self.stream_index != INVALID_INDEX
        &&& self.spec_canonical(protocol_version)
    }

    fn read(ts: &mut TagStructReader, _protocol_version: u16) -> (r: Result<Self, ProtocolError>) {
        let ghost s = ts.rest();
        let ghost total: int = 3;
        proof {
            lemma_parse_values_start(s, total);
            lemma_parse_values_next(s, Seq::empty(), ts.rest(), total - 1);
        }
        let stream_index = match ts.read_index()? {
            Some(i) => i,
            None => {
                return Err(ProtocolError::Invalid("invalid stream index".to_owned()));
            },
        };
        proof {
            assert(parse_values(s, total as nat) == parse_values_after(
                seq![TagValue::U32(stream_index)],
                s.len() - ts.rest().len(),
                ts.rest(),
                total - 1,
            ));
            lemma_parse_values_next(s, seq![TagValue::U32(stream_index)], ts.rest(), total - 2);
        }
        let event_name = ts.read_string_non_null()?;
        proof {
            assert(parse_values(s, total as nat) == parse_values_after(
                seq![TagValue::U32(stream_index), TagValue::Str(event_name@)],
                s.len() - ts.rest().len(),
                ts.rest(),
                total - 2,
            ));
            lemma_parse_values_next(
                s,
                seq![TagValue::U32(stream_index), TagValue::Str(event_name@)],
                ts.rest(),
                total - 3,
            );
        }
        let event_properties = ts.read_props()?;
        proof {
            assert(parse_values(s, total as nat) == parse_values_after(
                seq![
                    TagValue::U32(stream_index),
                    TagValue::Str(event_name@),
                    TagValue::PropList(event_properties@),
                ],
                s.len() - ts.rest().len(),
                ts.rest(),
                total - 3,
            ));
            lemma_parse_values_done(
                seq![
                    TagValue::U32(stream_index),
                    TagValue::Str(event_name@),
                    TagValue::PropList(event_properties@),
                ],
                s.len() - ts.rest().len(),
                ts.rest(),
            );
        }
        Ok(GenericStreamEvent { stream_index, event_name, event_properties })
    }

    proof fn lemma_roundtrip(&self, protocol_version: u16, rest: Seq<u8>) {
        lemma_parse_values_bytes(self.spec_values(protocol_version), rest);
    }
}


/// The values a [`Request`] is sent as, position by position: whatever a read
/// gives from the values `vs` holds each field from its own position.
pub proof fn lemma_request_layout(q: Request, vs: Seq<TagValue>, protocol_version: u16)
    requires
        q.spec_values(protocol_version) == vs,
    ensures
        vs == (
            seq![TagValue::U32(q.channel), TagValue::U32(q.length)]
        ),
{
}

/// The values an [`Underflow`] is sent as, position by position: whatever a read
/// gives from the values `vs` holds each field from its own position.
pub proof fn lemma_underflow_layout(q: Underflow, vs: Seq<TagValue>, protocol_version: u16)
    requires
        q.spec_values(protocol_version) == vs,
    ensures
        vs == (
            if protocol_version >= 23 {
                    seq![TagValue::U32(q.channel), TagValue::S64(q.offset)]
                } else {
                    seq![TagValue::U32(q.channel)]
                }
        ),
{
}

/// The values a [`PlaybackBufferAttrChanged`] is sent as, position by position: whatever a read
/// gives from the values `vs` holds each field from its own position.
pub proof fn lemma_playback_buffer_attr_changed_layout(q: PlaybackBufferAttrChanged, vs: Seq<TagValue>, protocol_version: u16)
    requires
        q.spec_values(protocol_version) == vs,
    ensures
        vs == (
            seq![
                    TagValue::U32(q.stream_index),
                    TagValue::U32(q.buffer_attr.max_length),
                    TagValue::U32(q.buffer_attr.target_length),
                    TagValue::U32(q.buffer_attr.pre_buffering),
                    TagValue::U32(q.buffer_attr.minimum_request_length),
                    TagValue::Usec(q.sink_input_latency),
                ]
        ),
{
}

/// The values a [`RecordBufferAttrChanged`] is sent as, position by position: whatever a read
/// gives from the values `vs` holds each field from its own position.
pub proof fn lemma_record_buffer_attr_changed_layout(q: RecordBufferAttrChanged, vs: Seq<TagValue>, protocol_version: u16)
    requires
        q.spec_values(protocol_version) == vs,
    ensures
        vs == (
            seq![
                    TagValue::U32(q.stream_index),
                    TagValue::U32(q.buffer_attr.max_length),
                    TagValue::U32(q.buffer_attr.fragment_size),
                    TagValue::Usec(q.source_output_latency),
                ]
        ),
{
}

/// The values a [`PlaybackStreamMovedParams`] is sent as, position by position: whatever a read
/// gives from the values `vs` holds each field from its own position.
pub proof fn lemma_playback_stream_moved_params_layout(q: PlaybackStreamMovedParams, vs: Seq<TagValue>, protocol_version: u16)
    requires
        q.spec_values(protocol_version) == vs,
    ensures
        vs == (
            seq![
                    TagValue::U32(q.stream_index),
                    TagValue::U32(q.device_index),
                    TagValue::Str(q.device_name@),
                    TagValue::Bool(q.device_suspended),
                    TagValue::U32(q.buffer_attr.max_length),
                    TagValue::U32(q.buffer_attr.target_length),
                    TagValue::U32(q.buffer_attr.pre_buffering),
                    TagValue::U32(q.buffer_attr.minimum_request_length),
                    TagValue::Usec(q.configured_sink_latency),
                ]
        ),
{
}

/// The values a [`RecordStreamMovedParams`] is sent as, position by position: whatever a read
/// gives from the values `vs` holds each field from its own position.
pub proof fn lemma_record_stream_moved_params_layout(q: RecordStreamMovedParams, vs: Seq<TagValue>, protocol_version: u16)
    requires
        q.spec_values(protocol_version) == vs,
    ensures
        vs == (
            seq![
                    TagValue::U32(q.stream_index),
                    TagValue::U32(q.device_index),
                    TagValue::Str(q.device_name@),
                    TagValue::Bool(q.device_suspended),
                    TagValue::U32(q.buffer_attr.max_length),
                    TagValue::U32(q.buffer_attr.fragment_size),
                    TagValue::Usec(q.configured_source_latency),
                ]
        ),
{
}

/// The values a [`StreamSuspendedParams`] is sent as, position by position: whatever a read
/// gives from the values `vs` holds each field from its own position.
pub proof fn lemma_stream_suspended_params_layout(q: StreamSuspendedParams, vs: Seq<TagValue>, protocol_version: u16)
    requires
        q.spec_values(protocol_version) == vs,
    ensures
        vs == (
            seq![TagValue::U32(q.stream_index), TagValue::Bool(q.suspended)]
        ),
{
}

/// The values a [`GenericStreamEvent`] is sent as, position by position: whatever a read
/// gives from the values `vs` holds each field from its own position.
pub proof fn lemma_generic_stream_event_layout(q: GenericStreamEvent, vs: Seq<TagValue>, protocol_version: u16)
    requires
        q.spec_values(protocol_version) == vs,
    ensures
        vs == (
            seq![
                    TagValue::U32(q.stream_index),
                    TagValue::Str(q.event_name@),
                    TagValue::PropList(q.event_properties@),
                ]
        ),
{
}

} // verus!
