//! Updating the name, buffer attributes, properties or sample rate of a
//! stream.

use vstd::prelude::*;

use crate::protocol::error::ProtocolError;
use crate::protocol::serde::fields::{
    lemma_values_bytes_2, lemma_values_bytes_3, lemma_values_bytes_4, lemma_values_bytes_5,
    lemma_values_bytes_6, lemma_values_bytes_7,
};
use crate::protocol::serde::wire::{
    TagValue, lemma_parse_values_bytes, lemma_parse_values_done, lemma_parse_values_next,
    lemma_parse_values_start, parse_values, parse_values_after, values_bytes, values_wf,
};
use crate::protocol::serde::{
    INVALID_INDEX, TagStructRead, TagStructReader, TagStructWrite, TagStructWriter,
};
use crate::protocol::serde::cstr::CString;
use crate::protocol::serde::props::{Props, PropsUpdateMode, lemma_update_mode_roundtrip, update_mode_code, update_mode_of_code};
use crate::protocol::stream::BufferAttr;
use super::CommandReply;

verus! {

/// Parameters for renaming a stream.
#[derive(Debug, Clone, PartialEq, Eq)]
pub struct SetStreamNameParams {
    /// The index of the stream.
    pub index: u32,

    /// The new name.
    pub name: CString,
}

impl TagStructWrite for SetStreamNameParams {
    open spec fn spec_values(&self, protocol_version: u16) -> Seq<TagValue> {
        seq![TagValue::U32(self.index), TagValue::Str(self.name@)]
    }

    open spec fn spec_writable(&self) -> bool {
        true
    }

    fn write(&self, w: &mut TagStructWriter, _protocol_version: u16) -> (r: Result<(), ProtocolError>) {
        w.write_u32(self.index)?;
        w.write_string(Some(&self.name))?;
        proof {
            lemma_values_bytes_2(TagValue::U32(self.index), TagValue::Str(self.name@));
        }
        assert(w.bytes() =~= old(w).bytes() + values_bytes(self.spec_values(_protocol_version)));
        Ok(())
    }
}

impl TagStructRead for SetStreamNameParams {
    open spec fn spec_parse(s: Seq<u8>, protocol_version: u16) -> Option<(Seq<TagValue>, int)> {
        match parse_values(s, 2) {
            Some((vs, n)) => if vs[0] is U32 && vs[1] is Str {
                Some((vs, n))
            } else {
                None
            },
            None => None,
        }
    }

    open spec fn spec_canonical(&self, protocol_version: u16) -> bool {
        true
    }

    open spec fn spec_encodable(&self, protocol_version: u16) -> bool {
        &&& values_wf(self.spec_values(protocol_version))
        &&& self.spec_canonical(protocol_version)
    }

    fn read(ts: &mut TagStructReader, _protocol_version: u16) -> (r: Result<Self, ProtocolError>) {
        let ghost s = ts.rest();
        let ghost total: int = 2;
        proof {
            lemma_parse_values_start(s, total);
            lemma_parse_values_next(s, Seq::empty(), ts.rest(), total - 1);
        }
        let index = ts.read_u32()?;
        proof {
            assert(parse_values(s, total as nat) == parse_values_after(
                seq![TagValue::U32(index)],
                s.len() - ts.rest().len(),
                ts.rest(),
                total - 1,
            ));
            lemma_parse_values_next(s, seq![TagValue::U32(index)], ts.rest(), total - 2);
        }
        let name = ts.read_string_non_null()?;
        proof {
            assert(parse_values(s, total as nat) == parse_values_after(
                seq![TagValue::U32(index), TagValue::Str(name@)],
                s.len() - ts.rest().len(),
                ts.rest(),
                total - 2,
            ));
            lemma_parse_values_done(
                seq![TagValue::U32(index), TagValue::Str(name@)],
                s.len() - ts.rest().len(),
                ts.rest(),
            );
        }
        Ok(SetStreamNameParams { index, name })
    }

    proof fn lemma_roundtrip(&self, protocol_version: u16, rest: Seq<u8>) {
        lemma_parse_values_bytes(self.spec_values(protocol_version), rest);
    }
}

/// Parameters for changing the buffer attributes of a playback stream.
#[derive(Debug, Copy, Clone, PartialEq, Eq)]
pub struct SetPlaybackStreamBufferAttrParams {
    /// The index of the stream.
    pub index: u32,

    /// The new buffer attributes; the fragment size is not sent.
    pub buffer_attr: BufferAttr,

    /// Whether the server should adjust the latency.
    pub adjust_latency: bool,

    /// Whether the server should request data early; sent from protocol
    /// version 14 on.
    pub early_requests: bool,
}

impl TagStructWrite for SetPlaybackStreamBufferAttrParams {
    open spec fn spec_values(&self, protocol_version: u16) -> Seq<TagValue> {
        if protocol_version >= 14 {
            seq![
                TagValue::U32(self.index),
                TagValue::U32(self.buffer_attr.max_length),
                TagValue::U32(self.buffer_attr.target_length),
                TagValue::U32(self.buffer_attr.pre_buffering),
                TagValue::U32(self.buffer_attr.minimum_request_length),
                TagValue::Bool(self.adjust_latency),
                TagValue::Bool(self.early_requests),
            ]
        } else {
            seq![
                TagValue::U32(self.index),
                TagValue::U32(self.buffer_attr.max_length),
                TagValue::U32(self.buffer_attr.target_length),
                TagValue::U32(self.buffer_attr.pre_buffering),
                TagValue::U32(self.buffer_attr.minimum_request_length),
                TagValue::Bool(self.adjust_latency),
            ]
        }
    }

    open spec fn spec_writable(&self) -> bool {
        true
    }

    fn write(&self, w: &mut TagStructWriter, protocol_version: u16) -> (r: Result<(), ProtocolError>) {
        w.write_index(Some(self.index))?;
        w.write_u32(self.buffer_attr.max_length)?;
        w.write_u32(self.buffer_attr.target_length)?;
        w.write_u32(self.buffer_attr.pre_buffering)?;
        w.write_u32(self.buffer_attr.minimum_request_length)?;
        w.write_bool(self.adjust_latency)?;
        if protocol_version >= 14 {
            w.write_bool(self.early_requests)?;
            proof {
                lemma_values_bytes_7(
                    TagValue::U32(self.index),
                    TagValue::U32(self.buffer_attr.max_length),
                    TagValue::U32(self.buffer_attr.target_length),
                    TagValue::U32(self.buffer_attr.pre_buffering),
                    TagValue::U32(self.buffer_attr.minimum_request_length),
                    TagValue::Bool(self.adjust_latency),
                    TagValue::Bool(self.early_requests),
                );
            }
        } else {
            proof {
                lemma_values_bytes_6(
                    TagValue::U32(self.index),
                    TagValue::U32(self.buffer_attr.max_length),
                    TagValue::U32(self.buffer_attr.target_length),
                    TagValue::U32(self.buffer_attr.pre_buffering),
                    TagValue::U32(self.buffer_attr.minimum_request_length),
                    TagValue::Bool(self.adjust_latency),
                );
            }
        }
        assert(w.bytes() =~= old(w).bytes() + values_bytes(self.spec_values(protocol_version)));
        Ok(())
    }
}

impl TagStructRead for SetPlaybackStreamBufferAttrParams {
    open spec fn spec_parse(s: Seq<u8>, protocol_version: u16) -> Option<(Seq<TagValue>, int)> {
        if protocol_version >= 14 {
            match parse_values(s, 7) {
                Some((vs, n)) => if (vs[0] matches TagValue::U32(x) && x != INVALID_INDEX)
                    && vs[1] is U32
                    && vs[2] is U32
                    && vs[3] is U32
                    && vs[4] is U32
                    && vs[5] is Bool
                    && vs[6] is Bool
                {
                    Some((vs, n))
                } else {
                    None
                },
                None => None,
            }
        } else {
            match parse_values(s, 6) {
                Some((vs, n)) => if (vs[0] matches TagValue::U32(x) && x != INVALID_INDEX)
                    && vs[1] is U32
                    && vs[2] is U32
                    && vs[3] is U32
                    && vs[4] is U32
                    && vs[5] is Bool
                {
                    Some((vs, n))
                } else {
                    None
                },
                None => None,
            }
        }
    }

    open spec fn spec_canonical(&self, protocol_version: u16) -> bool {
        self.buffer_attr.fragment_size == 0
        && (protocol_version < 14 ==> self.early_requests == false)
    }

    open spec fn spec_encodable(&self, protocol_version: u16) -> bool {
        &&& values_wf(self.spec_values(protocol_version))
        &&& self.index != INVALID_INDEX
        &&& self.spec_canonical(protocol_version)
    }

    #[verifier::rlimit(80)]
    fn read(ts: &mut TagStructReader, protocol_version: u16) -> (r: Result<Self, ProtocolError>) {
        let ghost s = ts.rest();
        let ghost total: int = if protocol_version >= 14 { 7 } else { 6 };
        proof {
            lemma_parse_values_start(s, total);
            lemma_parse_values_next(s, Seq::empty(), ts.rest(), total - 1);
        }
        let index = match ts.read_index()? {
            Some(i) => i,
            None => {
                return Err(ProtocolError::Invalid("invalid index".to_owned()));
            },
        };
        proof {
            assert(parse_values(s, total as nat) == parse_values_after(
                seq![TagValue::U32(index)],
                s.len() - ts.rest().len(),
                ts.rest(),
                total - 1,
            ));
            lemma_parse_values_next(s, seq![TagValue::U32(index)], ts.rest(), total - 2);
        }
        let max_length = ts.read_u32()?;
        proof {
            assert(parse_values(s, total as nat) == parse_values_after(
                seq![TagValue::U32(index), TagValue::U32(max_length)],
                s.len() - ts.rest().len(),
                ts.rest(),
                total - 2,
            ));
            lemma_parse_values_next(
                s,
                seq![TagValue::U32(index), TagValue::U32(max_length)],
                ts.rest(),
                total - 3,
            );
        }
        let target_length = ts.read_u32()?;
        proof {
            assert(parse_values(s, total as nat) == parse_values_after(
                seq![TagValue::U32(index), TagValue::U32(max_length), TagValue::U32(target_length)],
                s.len() - ts.rest().len(),
                ts.rest(),
                total - 3,
            ));
            lemma_parse_values_next(
                s,
                seq![TagValue::U32(index), TagValue::U32(max_length), TagValue::U32(target_length)],
                ts.rest(),
                total - 4,
            );
        }
        let pre_buffering = ts.read_u32()?;
        proof {
            assert(parse_values(s, total as nat) == parse_values_after(
                seq![
                    TagValue::U32(index),
                    TagValue::U32(max_length),
                    TagValue::U32(target_length),
                    TagValue::U32(pre_buffering),
                ],
                s.len() - ts.rest().len(),
                ts.rest(),
                total - 4,
            ));
            lemma_parse_values_next(
                s,
                seq![
                    TagValue::U32(index),
                    TagValue::U32(max_length),
                    TagValue::U32(target_length),
                    TagValue::U32(pre_buffering),
                ],
                ts.rest(),
                total - 5,
            );
        }
        let minimum_request_length = ts.read_u32()?;
        proof {
            assert(parse_values(s, total as nat) == parse_values_after(
                seq![
                    TagValue::U32(index),
                    TagValue::U32(max_length),
                    TagValue::U32(target_length),
                    TagValue::U32(pre_buffering),
                    TagValue::U32(minimum_request_length),
                ],
                s.len() - ts.rest().len(),
                ts.rest(),
                total - 5,
            ));
            lemma_parse_values_next(
                s,
                seq![
                    TagValue::U32(index),
                    TagValue::U32(max_length),
                    TagValue::U32(target_length),
                    TagValue::U32(pre_buffering),
                    TagValue::U32(minimum_request_length),
                ],
                ts.rest(),
                total - 6,
            );
        }
        let adjust_latency = ts.read_bool()?;
        proof {
            assert(parse_values(s, total as nat) == parse_values_after(
                seq![
                    TagValue::U32(index),
                    TagValue::U32(max_length),
                    TagValue::U32(target_length),
                    TagValue::U32(pre_buffering),
                    TagValue::U32(minimum_request_length),
                    TagValue::Bool(adjust_latency),
                ],
                s.len() - ts.rest().len(),
                ts.rest(),
                total - 6,
            ));
        }
        let early_requests = if protocol_version >= 14 {
            proof {
                lemma_parse_values_next(
                    s,
                    seq![
                        TagValue::U32(index),
                        TagValue::U32(max_length),
                        TagValue::U32(target_length),
                        TagValue::U32(pre_buffering),
                        TagValue::U32(minimum_request_length),
                        TagValue::Bool(adjust_latency),
                    ],
                    ts.rest(),
                    total - 7,
                );
            }
            let early_requests = ts.read_bool()?;
            proof {
                assert(parse_values(s, total as nat) == parse_values_after(
                    seq![
                        TagValue::U32(index),
                        TagValue::U32(max_length),
                        TagValue::U32(target_length),
                        TagValue::U32(pre_buffering),
                        TagValue::U32(minimum_request_length),
                        TagValue::Bool(adjust_latency),
                        TagValue::Bool(early_requests),
                    ],
                    s.len() - ts.rest().len(),
                    ts.rest(),
                    total - 7,
                ));
                lemma_parse_values_done(
                    seq![
                        TagValue::U32(index),
                        TagValue::U32(max_length),
                        TagValue::U32(target_length),
                        TagValue::U32(pre_buffering),
                        TagValue::U32(minimum_request_length),
                        TagValue::Bool(adjust_latency),
                        TagValue::Bool(early_requests),
                    ],
                    s.len() - ts.rest().len(),
                    ts.rest(),
                );
            }
            early_requests
        } else {
            proof {
                lemma_parse_values_done(
                    seq![
                        TagValue::U32(index),
                        TagValue::U32(max_length),
                        TagValue::U32(target_length),
                        TagValue::U32(pre_buffering),
                        TagValue::U32(minimum_request_length),
                        TagValue::Bool(adjust_latency),
                    ],
                    s.len() - ts.rest().len(),
                    ts.rest(),
                );
            }
            false
        };
        Ok(SetPlaybackStreamBufferAttrParams {
            index,
            buffer_attr: BufferAttr {
                max_length,
                target_length,
                pre_buffering,
                minimum_request_length,
                fragment_size: 0,
            },
            adjust_latency,
            early_requests,
        })
    }

    proof fn lemma_roundtrip(&self, protocol_version: u16, rest: Seq<u8>) {
        lemma_parse_values_bytes(self.spec_values(protocol_version), rest);
    }
}

/// The reply to changing the buffer attributes of a playback stream.
#[derive(Debug, Copy, Clone, PartialEq, Eq)]
pub struct SetPlaybackStreamBufferAttrReply {
    /// The buffer attributes in effect; the fragment size is not sent.
    pub buffer_attr: BufferAttr,

    /// The configured latency of the sink, in microseconds.
    pub configured_sink_latency: u64,
}

impl TagStructWrite for SetPlaybackStreamBufferAttrReply {
    open spec fn spec_values(&self, protocol_version: u16) -> Seq<TagValue> {
        seq![
            TagValue::U32(self.buffer_attr.max_length),
            TagValue::U32(self.buffer_attr.target_length),
            TagValue::U32(self.buffer_attr.pre_buffering),
            TagValue::U32(self.buffer_attr.minimum_request_length),
            TagValue::Usec(self.configured_sink_latency),
        ]
    }

    open spec fn spec_writable(&self) -> bool {
        true
    }

    fn write(&self, w: &mut TagStructWriter, _protocol_version: u16) -> (r: Result<(), ProtocolError>) {
        w.write_u32(self.buffer_attr.max_length)?;
        w.write_u32(self.buffer_attr.target_length)?;
        w.write_u32(self.buffer_attr.pre_buffering)?;
        w.write_u32(self.buffer_attr.minimum_request_length)?;
        w.write_usec(self.configured_sink_latency)?;
        proof {
            lemma_values_bytes_5(
                TagValue::U32(self.buffer_attr.max_length),
                TagValue::U32(self.buffer_attr.target_length),
                TagValue::U32(self.buffer_attr.pre_buffering),
                TagValue::U32(self.buffer_attr.minimum_request_length),
                TagValue::Usec(self.configured_sink_latency),
            );
        }
        assert(w.bytes() =~= old(w).bytes() + values_bytes(self.spec_values(_protocol_version)));
        Ok(())
    }
}

impl TagStructRead for SetPlaybackStreamBufferAttrReply {
    open spec fn spec_parse(s: Seq<u8>, protocol_version: u16) -> Option<(Seq<TagValue>, int)> {
        match parse_values(s, 5) {
            Some((vs, n)) => if vs[0] is U32
                && vs[1] is U32
                && vs[2] is U32
                && vs[3] is U32
                && vs[4] is Usec
            {
                Some((vs, n))
            } else {
                None
            },
            None => None,
        }
    }

    open spec fn spec_canonical(&self, protocol_version: u16) -> bool {
        self.buffer_attr.fragment_size == 0
    }

    open spec fn spec_encodable(&self, protocol_version: u16) -> bool {
        &&& values_wf(self.spec_values(protocol_version))
        &&& self.spec_canonical(protocol_version)
    }

    fn read(ts: &mut TagStructReader, _protocol_version: u16) -> (r: Result<Self, ProtocolError>) {
        let ghost s = ts.rest();
        let ghost total: int = 5;
        proof {
            lemma_parse_values_start(s, total);
            lemma_parse_values_next(s, Seq::empty(), ts.rest(), total - 1);
        }
        let max_length = ts.read_u32()?;
        proof {
            assert(parse_values(s, total as nat) == parse_values_after(
                seq![TagValue::U32(max_length)],
                s.len() - ts.rest().len(),
                ts.rest(),
                total - 1,
            ));
            lemma_parse_values_next(s, seq![TagValue::U32(max_length)], ts.rest(), total - 2);
        }
        let target_length = ts.read_u32()?;
        proof {
            assert(parse_values(s, total as nat) == parse_values_after(
                seq![TagValue::U32(max_length), TagValue::U32(target_length)],
                s.len() - ts.rest().len(),
                ts.rest(),
                total - 2,
            ));
            lemma_parse_values_next(
                s,
                seq![TagValue::U32(max_length), TagValue::U32(target_length)],
                ts.rest(),
                total - 3,
            );
        }
        let pre_buffering = ts.read_u32()?;
        proof {
            assert(parse_values(s, total as nat) == parse_values_after(
                seq![
                    TagValue::U32(max_length),
                    TagValue::U32(target_length),
                    TagValue::U32(pre_buffering),
                ],
                s.len() - ts.rest().len(),
                ts.rest(),
                total - 3,
            ));
            lemma_parse_values_next(
                s,
                seq![
                    TagValue::U32(max_length),
                    TagValue::U32(target_length),
                    TagValue::U32(pre_buffering),
                ],
                ts.rest(),
                total - 4,
            );
        }
        let minimum_request_length = ts.read_u32()?;
        proof {
            assert(parse_values(s, total as nat) == parse_values_after(
                seq![
                    TagValue::U32(max_length),
                    TagValue::U32(target_length),
                    TagValue::U32(pre_buffering),
                    TagValue::U32(minimum_request_length),
                ],
                s.len() - ts.rest().len(),
                ts.rest(),
                total - 4,
            ));
            lemma_parse_values_next(
                s,
                seq![
                    TagValue::U32(max_length),
                    TagValue::U32(target_length),
                    TagValue::U32(pre_buffering),
                    TagValue::U32(minimum_request_length),
                ],
                ts.rest(),
                total - 5,
            );
        }
        let configured_sink_latency = ts.read_usec()?;
        proof {
            assert(parse_values(s, total as nat) == parse_values_after(
                seq![
                    TagValue::U32(max_length),
                    TagValue::U32(target_length),
                    TagValue::U32(pre_buffering),
                    TagValue::U32(minimum_request_length),
                    TagValue::Usec(configured_sink_latency),
                ],
                s.len() - ts.rest().len(),
                ts.rest(),
                total - 5,
            ));
            lemma_parse_values_done(
                seq![
                    TagValue::U32(max_length),
                    TagValue::U32(target_length),
                    TagValue::U32(pre_buffering),
                    TagValue::U32(minimum_request_length),
                    TagValue::Usec(configured_sink_latency),
                ],
                s.len() - ts.rest().len(),
                ts.rest(),
            );
        }
        Ok(SetPlaybackStreamBufferAttrReply {
            buffer_attr: BufferAttr {
                max_length,
                target_length,
                pre_buffering,
                minimum_request_length,
                fragment_size: 0,
            },
            configured_sink_latency,
        })
    }

    proof fn lemma_roundtrip(&self, protocol_version: u16, rest: Seq<u8>) {
        lemma_parse_values_bytes(self.spec_values(protocol_version), rest);
    }
}

impl CommandReply for SetPlaybackStreamBufferAttrReply {}

/// Parameters for changing the buffer attributes of a record stream.
#[derive(Debug, Copy, Clone, PartialEq, Eq)]
pub struct SetRecordStreamBufferAttrParams {
    /// The index of the stream.
    pub index: u32,

    /// The new buffer attributes; only the maximum length and the
    /// fragment size are sent.
    pub buffer_attr: BufferAttr,

    /// Whether the server should adjust the latency.
    pub adjust_latency: bool,

    /// Whether the server should send data early; sent from protocol
    /// version 14 on.
    pub early_requests: bool,
}

impl TagStructWrite for SetRecordStreamBufferAttrParams {
    open spec fn spec_values(&self, protocol_version: u16) -> Seq<TagValue> {
        if protocol_version >= 14 {
            seq![
                TagValue::U32(self.index),
                TagValue::U32(self.buffer_attr.max_length),
                TagValue::U32(self.buffer_attr.fragment_size),
                TagValue::Bool(self.adjust_latency),
                TagValue::Bool(self.early_requests),
            ]
        } else {
            seq![
                TagValue::U32(self.index),
                TagValue::U32(self.buffer_attr.max_length),
                TagValue::U32(self.buffer_attr.fragment_size),
                TagValue::Bool(self.adjust_latency),
            ]
        }
    }

    open spec fn spec_writable(&self) -> bool {
        true
    }

    fn write(&self, w: &mut TagStructWriter, protocol_version: u16) -> (r: Result<(), ProtocolError>) {
        w.write_index(Some(self.index))?;
        w.write_u32(self.buffer_attr.max_length)?;
        w.write_u32(self.buffer_attr.fragment_size)?;
        w.write_bool(self.adjust_latency)?;
        if protocol_version >= 14 {
            w.write_bool(self.early_requests)?;
            proof {
                lemma_values_bytes_5(
                    TagValue::U32(self.index),
                    TagValue::U32(self.buffer_attr.max_length),
                    TagValue::U32(self.buffer_attr.fragment_size),
                    TagValue::Bool(self.adjust_latency),
                    TagValue::Bool(self.early_requests),
                );
            }
        } else {
            proof {
                lemma_values_bytes_4(
                    TagValue::U32(self.index),
                    TagValue::U32(self.buffer_attr.max_length),
                    TagValue::U32(self.buffer_attr.fragment_size),
                    TagValue::Bool(self.adjust_latency),
                );
            }
        }
        assert(w.bytes() =~= old(w).bytes() + values_bytes(self.spec_values(protocol_version)));
        Ok(())
    }
}

impl TagStructRead for SetRecordStreamBufferAttrParams {
    open spec fn spec_parse(s: Seq<u8>, protocol_version: u16) -> Option<(Seq<TagValue>, int)> {
        if protocol_version >= 14 {
            match parse_values(s, 5) {
                Some((vs, n)) => if (vs[0] matches TagValue::U32(x) && x != INVALID_INDEX)
                    && vs[1] is U32
                    && vs[2] is U32
                    && vs[3] is Bool
                    && vs[4] is Bool
                {
                    Some((vs, n))
                } else {
                    None
                },
                None => None,
            }
        } else {
            match parse_values(s, 4) {
                Some((vs, n)) => if (vs[0] matches TagValue::U32(x) && x != INVALID_INDEX)
                    && vs[1] is U32
                    && vs[2] is U32
                    && vs[3] is Bool
                {
                    Some((vs, n))
                } else {
                    None
                },
                None => None,
            }
        }
    }

    open spec fn spec_canonical(&self, protocol_version: u16) -> bool {
        self.buffer_attr.target_length == 0
        && self.buffer_attr.pre_buffering == 0
        && self.buffer_attr.minimum_request_length == 0
        && (protocol_version < 14 ==> self.early_requests == false)
    }

    open spec fn spec_encodable(&self, protocol_version: u16) -> bool {
        &&& values_wf(self.spec_values(protocol_version))
        &&& self.index != INVALID_INDEX
        &&& self.spec_canonical(protocol_version)
    }

    fn read(ts: &mut TagStructReader, protocol_version: u16) -> (r: Result<Self, ProtocolError>) {
        let ghost s = ts.rest();
        let ghost total: int = if protocol_version >= 14 { 5 } else { 4 };
        proof {
            lemma_parse_values_start(s, total);
            lemma_parse_values_next(s, Seq::empty(), ts.rest(), total - 1);
        }
        let index = match ts.read_index()? {
            Some(i) => i,
            None => {
                return Err(ProtocolError::Invalid("invalid index".to_owned()));
            },
        };
        proof {
            assert(parse_values(s, total as nat) == parse_values_after(
                seq![TagValue::U32(index)],
                s.len() - ts.rest().len(),
                ts.rest(),
                total - 1,
            ));
            lemma_parse_values_next(s, seq![TagValue::U32(index)], ts.rest(), total - 2);
        }
        let max_length = ts.read_u32()?;
        proof {
            assert(parse_values(s, total as nat) == parse_values_after(
                seq![TagValue::U32(index), TagValue::U32(max_length)],
                s.len() - ts.rest().len(),
                ts.rest(),
                total - 2,
            ));
            lemma_parse_values_next(
                s,
                seq![TagValue::U32(index), TagValue::U32(max_length)],
                ts.rest(),
                total - 3,
            );
        }
        let fragment_size = ts.read_u32()?;
        proof {
            assert(parse_values(s, total as nat) == parse_values_after(
                seq![TagValue::U32(index), TagValue::U32(max_length), TagValue::U32(fragment_size)],
                s.len() - ts.rest().len(),
                ts.rest(),
                total - 3,
            ));
            lemma_parse_values_next(
                s,
                seq![TagValue::U32(index), TagValue::U32(max_length), TagValue::U32(fragment_size)],
                ts.rest(),
                total - 4,
            );
        }
        let adjust_latency = ts.read_bool()?;
        proof {
            assert(parse_values(s, total as nat) == parse_values_after(
                seq![
                    TagValue::U32(index),
                    TagValue::U32(max_length),
                    TagValue::U32(fragment_size),
                    TagValue::Bool(adjust_latency),
                ],
                s.len() - ts.rest().len(),
                ts.rest(),
                total - 4,
            ));
        }
        let early_requests = if protocol_version >= 14 {
            proof {
                lemma_parse_values_next(
                    s,
                    seq![
                        TagValue::U32(index),
                        TagValue::U32(max_length),
                        TagValue::U32(fragment_size),
                        TagValue::Bool(adjust_latency),
                    ],
                    ts.rest(),
                    total - 5,
                );
            }
            let early_requests = ts.read_bool()?;
            proof {
                assert(parse_values(s, total as nat) == parse_values_after(
                    seq![
                        TagValue::U32(index),
                        TagValue::U32(max_length),
                        TagValue::U32(fragment_size),
                        TagValue::Bool(adjust_latency),
                        TagValue::Bool(early_requests),
                    ],
                    s.len() - ts.rest().len(),
                    ts.rest(),
                    total - 5,
                ));
                lemma_parse_values_done(
                    seq![
                        TagValue::U32(index),
                        TagValue::U32(max_length),
                        TagValue::U32(fragment_size),
                        TagValue::Bool(adjust_latency),
                        TagValue::Bool(early_requests),
                    ],
                    s.len() - ts.rest().len(),
                    ts.rest(),
                );
            }
            early_requests
        } else {
            proof {
                lemma_parse_values_done(
                    seq![
                        TagValue::U32(index),
                        TagValue::U32(max_length),
                        TagValue::U32(fragment_size),
                        TagValue::Bool(adjust_latency),
                    ],
                    s.len() - ts.rest().len(),
                    ts.rest(),
                );
            }
            false
        };
        Ok(SetRecordStreamBufferAttrParams {
            index,
            buffer_attr: BufferAttr {
                max_length,
                target_length: 0,
                pre_buffering: 0,
                minimum_request_length: 0,
                fragment_size,
            },
            adjust_latency,
            early_requests,
        })
    }

    proof fn lemma_roundtrip(&self, protocol_version: u16, rest: Seq<u8>) {
        lemma_parse_values_bytes(self.spec_values(protocol_version), rest);
    }
}

/// The reply to changing the buffer attributes of a record stream.
#[derive(Debug, Copy, Clone, PartialEq, Eq)]
pub struct SetRecordStreamBufferAttrReply {
    /// The buffer attributes in effect; only the maximum length and the
    /// fragment size are sent.
    pub buffer_attr: BufferAttr,

    /// The configured latency of the source, in microseconds.
    pub configured_source_latency: u64,
}

impl TagStructWrite for SetRecordStreamBufferAttrReply {
    open spec fn spec_values(&self, protocol_version: u16) -> Seq<TagValue> {
        seq![
            TagValue::U32(self.buffer_attr.max_length),
            TagValue::U32(self.buffer_attr.fragment_size),
            TagValue::Usec(self.configured_source_latency),
        ]
    }

    open spec fn spec_writable(&self) -> bool {
        true
    }

    fn write(&self, w: &mut TagStructWriter, _protocol_version: u16) -> (r: Result<(), ProtocolError>) {
        w.write_u32(self.buffer_attr.max_length)?;
        w.write_u32(self.buffer_attr.fragment_size)?;
        w.write_usec(self.configured_source_latency)?;
        proof {
            lemma_values_bytes_3(
                TagValue::U32(self.buffer_attr.max_length),
                TagValue::U32(self.buffer_attr.fragment_size),
                TagValue::Usec(self.configured_source_latency),
            );
        }
        assert(w.bytes() =~= old(w).bytes() + values_bytes(self.spec_values(_protocol_version)));
        Ok(())
    }
}

impl TagStructRead for SetRecordStreamBufferAttrReply {
    open spec fn spec_parse(s: Seq<u8>, protocol_version: u16) -> Option<(Seq<TagValue>, int)> {
        match parse_values(s, 3) {
            Some((vs, n)) => if vs[0] is U32 && vs[1] is U32 && vs[2] is Usec {
                Some((vs, n))
            } else {
                None
            },
            None => None,
        }
    }

    open spec fn spec_canonical(&self, protocol_version: u16) -> bool {
        self.buffer_attr.target_length == 0
        && self.buffer_attr.pre_buffering == 0
        && self.buffer_attr.minimum_request_length == 0
    }

    open spec fn spec_encodable(&self, protocol_version: u16) -> bool {
        &&& values_wf(self.spec_values(protocol_version))
        &&& self.spec_canonical(protocol_version)
    }

    fn read(ts: &mut TagStructReader, _protocol_version: u16) -> (r: Result<Self, ProtocolError>) {
        let ghost s = ts.rest();
        let ghost total: int = 3;
        proof {
            lemma_parse_values_start(s, total);
            lemma_parse_values_next(s, Seq::empty(), ts.rest(), total - 1);
        }
        let max_length = ts.read_u32()?;
        proof {
            assert(parse_values(s, total as nat) == parse_values_after(
                seq![TagValue::U32(max_length)],
                s.len() - ts.rest().len(),
                ts.rest(),
                total - 1,
            ));
            lemma_parse_values_next(s, seq![TagValue::U32(max_length)], ts.rest(), total - 2);
        }
        let fragment_size = ts.read_u32()?;
        proof {
            assert(parse_values(s, total as nat) == parse_values_after(
                seq![TagValue::U32(max_length), TagValue::U32(fragment_size)],
                s.len() - ts.rest().len(),
                ts.rest(),
                total - 2,
            ));
            lemma_parse_values_next(
                s,
                seq![TagValue::U32(max_length), TagValue::U32(fragment_size)],
                ts.rest(),
                total - 3,
            );
        }
        let configured_source_latency = ts.read_usec()?;
        proof {
            assert(parse_values(s, total as nat) == parse_values_after(
                seq![
                    TagValue::U32(max_length),
                    TagValue::U32(fragment_size),
                    TagValue::Usec(configured_source_latency),
                ],
                s.len() - ts.rest().len(),
                ts.rest(),
                total - 3,
            ));
            lemma_parse_values_done(
                seq![
                    TagValue::U32(max_length),
                    TagValue::U32(fragment_size),
                    TagValue::Usec(configured_source_latency),
                ],
                s.len() - ts.rest().len(),
                ts.rest(),
            );
        }
        Ok(SetRecordStreamBufferAttrReply {
            buffer_attr: BufferAttr {
                max_length,
                target_length: 0,
                pre_buffering: 0,
                minimum_request_length: 0,
                fragment_size,
            },
            configured_source_latency,
        })
    }

    proof fn lemma_roundtrip(&self, protocol_version: u16, rest: Seq<u8>) {
        lemma_parse_values_bytes(self.spec_values(protocol_version), rest);
    }
}

impl CommandReply for SetRecordStreamBufferAttrReply {}

/// Parameters for updating the properties of a stream.
#[derive(Debug, Clone, PartialEq, Eq)]
pub struct UpdatePropsParams {
    /// The index of the stream.
    pub index: u32,

    /// How the new properties combine with the old.
    pub mode: PropsUpdateMode,

    /// The new properties.
    pub props: Props,
}

impl TagStructWrite for UpdatePropsParams {
    open spec fn spec_values(&self, protocol_version: u16) -> Seq<TagValue> {
        seq![
            TagValue::U32(self.index),
            TagValue::U32(update_mode_code(self.mode)),
            TagValue::PropList(self.props@),
        ]
    }

    open spec fn spec_writable(&self) -> bool {
        true
    }

    fn write(&self, w: &mut TagStructWriter, _protocol_version: u16) -> (r: Result<(), ProtocolError>) {
        w.write_u32(self.index)?;
        w.write_u32(self.mode.to_u32())?;
        w.write_props(&self.props)?;
        proof {
            lemma_values_bytes_3(
                TagValue::U32(self.index),
                TagValue::U32(update_mode_code(self.mode)),
                TagValue::PropList(self.props@),
            );
        }
        assert(w.bytes() =~= old(w).bytes() + values_bytes(self.spec_values(_protocol_version)));
        Ok(())
    }
}

impl TagStructRead for UpdatePropsParams {
    open spec fn spec_parse(s: Seq<u8>, protocol_version: u16) -> Option<(Seq<TagValue>, int)> {
        match parse_values(s, 3) {
            Some((vs, n)) => if vs[0] is U32
                && (vs[1] matches TagValue::U32(x) && update_mode_of_code(x) is Some)
                && vs[2] is PropList
            {
                Some((vs, n))
            } else {
                None
            },
            None => None,
        }
    }

    open spec fn spec_canonical(&self, protocol_version: u16) -> bool {
        true
    }

    open spec fn spec_encodable(&self, protocol_version: u16) -> bool {
        &&& values_wf(self.spec_values(protocol_version))
        &&& self.spec_canonical(protocol_version)
    }

    fn read(ts: &mut TagStructReader, _protocol_version: u16) -> (r: Result<Self, ProtocolError>) {
        let ghost s = ts.rest();
        let ghost total: int = 3;
        proof {
            lemma_parse_values_start(s, total);
            lemma_parse_values_next(s, Seq::empty(), ts.rest(), total - 1);
        }
        let index = ts.read_u32()?;
        proof {
            assert(parse_values(s, total as nat) == parse_values_after(
                seq![TagValue::U32(index)],
                s.len() - ts.rest().len(),
                ts.rest(),
                total - 1,
            ));
            lemma_parse_values_next(s, seq![TagValue::U32(index)], ts.rest(), total - 2);
        }
        let mode = match PropsUpdateMode::from_u32(ts.read_u32()?) {
            Some(m) => m,
            None => {
                return Err(ProtocolError::Invalid("invalid update mode".to_owned()));
            },
        };
        proof {
            assert(parse_values(s, total as nat) == parse_values_after(
                seq![TagValue::U32(index), TagValue::U32(update_mode_code(mode))],
                s.len() - ts.rest().len(),
                ts.rest(),
                total - 2,
            ));
            lemma_parse_values_next(
                s,
                seq![TagValue::U32(index), TagValue::U32(update_mode_code(mode))],
                ts.rest(),
                total - 3,
            );
        }
        let props = ts.read_props()?;
        proof {
            assert(parse_values(s, total as nat) == parse_values_after(
                seq![
                    TagValue::U32(index),
                    TagValue::U32(update_mode_code(mode)),
                    TagValue::PropList(props@),
                ],
                s.len() - ts.rest().len(),
                ts.rest(),
                total - 3,
            ));
            lemma_parse_values_done(
                seq![
                    TagValue::U32(index),
                    TagValue::U32(update_mode_code(mode)),
                    TagValue::PropList(props@),
                ],
                s.len() - ts.rest().len(),
                ts.rest(),
            );
        }
        Ok(UpdatePropsParams { index, mode, props })
    }

    proof fn lemma_roundtrip(&self, protocol_version: u16, rest: Seq<u8>) {
        lemma_update_mode_roundtrip(self.mode);
        lemma_parse_values_bytes(self.spec_values(protocol_version), rest);
    }
}

/// Parameters for changing the sample rate of a stream.
#[derive(Debug, Copy, Clone, PartialEq, Eq)]
pub struct UpdateSampleRateParams {
    /// The index of the stream.
    pub index: u32,

    /// The new sample rate.
    pub sample_rate: u32,
}

impl TagStructWrite for UpdateSampleRateParams {
    open spec fn spec_values(&self, protocol_version: u16) -> Seq<TagValue> {
        seq![TagValue::U32(self.index), TagValue::U32(self.sample_rate)]
    }

    open spec fn spec_writable(&self) -> bool {
        true
    }

    fn write(&self, w: &mut TagStructWriter, _protocol_version: u16) -> (r: Result<(), ProtocolError>) {
        w.write_index(Some(self.index))?;
        w.write_u32(self.sample_rate)?;
        proof {
            lemma_values_bytes_2(TagValue::U32(self.index), TagValue::U32(self.sample_rate));
        }
        assert(w.bytes() =~= old(w).bytes() + values_bytes(self.spec_values(_protocol_version)));
        Ok(())
    }
}

impl TagStructRead for UpdateSampleRateParams {
    open spec fn spec_parse(s: Seq<u8>, protocol_version: u16) -> Option<(Seq<TagValue>, int)> {
        match parse_values(s, 2) {
            Some((vs, n)) => if (vs[0] matches TagValue::U32(x) && x != INVALID_INDEX)
                && vs[1] is U32
            {
                Some((vs, n))
            } else {
                None
            },
            None => None,
        }
    }

    open spec fn spec_canonical(&self, protocol_version: u16) -> bool {
        true
    }

    open spec fn spec_encodable(&self, protocol_version: u16) -> bool {
        &&& values_wf(self.spec_values(protocol_version))
        &&& self.index != INVALID_INDEX
        &&& self.spec_canonical(protocol_version)
    }

    fn read(ts: &mut TagStructReader, _protocol_version: u16) -> (r: Result<Self, ProtocolError>) {
        let ghost s = ts.rest();
        let ghost total: int = 2;
        proof {
            lemma_parse_values_start(s, total);
            lemma_parse_values_next(s, Seq::empty(), ts.rest(), total - 1);
        }
        let index = match ts.read_index()? {
            Some(i) => i,
            None => {
                return Err(ProtocolError::Invalid("invalid index".to_owned()));
            },
        };
        proof {
            assert(parse_values(s, total as nat) == parse_values_after(
                seq![TagValue::U32(index)],
                s.len() - ts.rest().len(),
                ts.rest(),
                total - 1,
            ));
            lemma_parse_values_next(s, seq![TagValue::U32(index)], ts.rest(), total - 2);
        }
        let sample_rate = ts.read_u32()?;
        proof {
            assert(parse_values(s, total as nat) == parse_values_after(
                seq![TagValue::U32(index), TagValue::U32(sample_rate)],
                s.len() - ts.rest().len(),
                ts.rest(),
                total - 2,
            ));
            lemma_parse_values_done(
                seq![TagValue::U32(index), TagValue::U32(sample_rate)],
                s.len() - ts.rest().len(),
                ts.rest(),
            );
        }
        Ok(UpdateSampleRateParams { index, sample_rate })
    }

    proof fn lemma_roundtrip(&self, protocol_version: u16, rest: Seq<u8>) {
        lemma_parse_values_bytes(self.spec_values(protocol_version), rest);
    }
}


/// The values a [`SetStreamNameParams`] is sent as, position by position: whatever a read
/// gives from the values `vs` holds each field from its own position.
pub proof fn lemma_set_stream_name_params_layout(q: SetStreamNameParams, vs: Seq<TagValue>, protocol_version: u16)
    requires
        q.spec_values(protocol_version) == vs,
    ensures
        vs == (
            seq![TagValue::U32(q.index), TagValue::Str(q.name@)]
        ),
{
}

/// The values a [`SetPlaybackStreamBufferAttrParams`] is sent as, position by position: whatever a read
/// gives from the values `vs` holds each field from its own position.
pub proof fn lemma_set_playback_stream_buffer_attr_params_layout(q: SetPlaybackStreamBufferAttrParams, vs: Seq<TagValue>, protocol_version: u16)
    requires
        q.spec_values(protocol_version) == vs,
    ensures
        vs == (
            if protocol_version >= 14 {
                    seq![
                        TagValue::U32(q.index),
                        TagValue::U32(q.buffer_attr.max_length),
                        TagValue::U32(q.buffer_attr.target_length),
                        TagValue::U32(q.buffer_attr.pre_buffering),
                        TagValue::U32(q.buffer_attr.minimum_request_length),
                        TagValue::Bool(q.adjust_latency),
                        TagValue::Bool(q.early_requests),
                    ]
                } else {
                    seq![
                        TagValue::U32(q.index),
                        TagValue::U32(q.buffer_attr.max_length),
                        TagValue::U32(q.buffer_attr.target_length),
                        TagValue::U32(q.buffer_attr.pre_buffering),
                        TagValue::U32(q.buffer_attr.minimum_request_length),
                        TagValue::Bool(q.adjust_latency),
                    ]
                }
        ),
{
}

/// The values a [`SetPlaybackStreamBufferAttrReply`] is sent as, position by position: whatever a read
/// gives from the values `vs` holds each field from its own position.
pub proof fn lemma_set_playback_stream_buffer_attr_reply_layout(q: SetPlaybackStreamBufferAttrReply, vs: Seq<TagValue>, protocol_version: u16)
    requires
        q.spec_values(protocol_version) == vs,
    ensures
        vs == (
            seq![
                    TagValue::U32(q.buffer_attr.max_length),
                    TagValue::U32(q.buffer_attr.target_length),
                    TagValue::U32(q.buffer_attr.pre_buffering),
                    TagValue::U32(q.buffer_attr.minimum_request_length),
                    TagValue::Usec(q.configured_sink_latency),
                ]
        ),
{
}

/// The values a [`SetRecordStreamBufferAttrParams`] is sent as, position by position: whatever a read
/// gives from the values `vs` holds each field from its own position.
pub proof fn lemma_set_record_stream_buffer_attr_params_layout(q: SetRecordStreamBufferAttrParams, vs: Seq<TagValue>, protocol_version: u16)
    requires
        q.spec_values(protocol_version) == vs,
    ensures
        vs == (
            if protocol_version >= 14 {
                    seq![
                        TagValue::U32(q.index),
                        TagValue::U32(q.buffer_attr.max_length),
                        TagValue::U32(q.buffer_attr.fragment_size),
                        TagValue::Bool(q.adjust_latency),
                        TagValue::Bool(q.early_requests),
                    ]
                } else {
                    seq![
                        TagValue::U32(q.index),
                        TagValue::U32(q.buffer_attr.max_length),
                        TagValue::U32(q.buffer_attr.fragment_size),
                        TagValue::Bool(q.adjust_latency),
                    ]
                }
        ),
{
}

/// The values a [`SetRecordStreamBufferAttrReply`] is sent as, position by position: whatever a read
/// gives from the values `vs` holds each field from its own position.
pub proof fn lemma_set_record_stream_buffer_attr_reply_layout(q: SetRecordStreamBufferAttrReply, vs: Seq<TagValue>, protocol_version: u16)
    requires
        q.spec_values(protocol_version) == vs,
    ensures
        vs == (
            seq![
                    TagValue::U32(q.buffer_attr.max_length),
                    TagValue::U32(q.buffer_attr.fragment_size),
                    TagValue::Usec(q.configured_source_latency),
                ]
        ),
{
}

/// The values an [`UpdatePropsParams`] is sent as, position by position: whatever a read
/// gives from the values `vs` holds each field from its own position.
pub proof fn lemma_update_props_params_layout(q: UpdatePropsParams, vs: Seq<TagValue>, protocol_version: u16)
    requires
        q.spec_values(protocol_version) == vs,
    ensures
        vs == (
            seq![
                    TagValue::U32(q.index),
                    TagValue::U32(update_mode_code(q.mode)),
                    TagValue::PropList(q.props@),
                ]
        ),
{
}

/// The values an [`UpdateSampleRateParams`] is sent as, position by position: whatever a read
/// gives from the values `vs` holds each field from its own position.
pub proof fn lemma_update_sample_rate_params_layout(q: UpdateSampleRateParams, vs: Seq<TagValue>, protocol_version: u16)
    requires
        q.spec_values(protocol_version) == vs,
    ensures
        vs == (
            seq![TagValue::U32(q.index), TagValue::U32(q.sample_rate)]
        ),
{
}

} // verus!
