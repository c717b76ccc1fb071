//! Uploading samples to the sample cache.

use vstd::prelude::*;

use crate::protocol::error::ProtocolError;
use crate::protocol::serde::fields::{lemma_values_bytes_2, lemma_values_bytes_5};
use crate::protocol::serde::wire::{
    TagValue, lemma_parse_values_bytes, lemma_parse_values_done, lemma_parse_values_next,
    lemma_parse_values_start, parse_values, parse_values_after, values_bytes, values_wf,
};
use crate::protocol::serde::{
    TagStructRead, TagStructReader, TagStructWrite, TagStructWriter, opt_cstr_view, string_value,
};
use crate::protocol::serde::channel_map::{ChannelMap, lemma_channel_map_valid, positions_valid};
use crate::protocol::serde::cstr::CString;
use crate::protocol::serde::props::Props;
use crate::protocol::serde::sample_spec::{SampleSpec, lemma_sample_format_roundtrip, sample_format_of_code, sample_spec_value};
use super::CommandReply;

verus! {

/// Parameters for creating an upload stream, which fills a sample of the sample cache.
#[derive(Debug, Clone, PartialEq, Eq)]
pub struct UploadStreamParams {
    /// The name of the sample.
    pub media_name: Option<CString>,

    /// The format of the samples.
    pub sample_spec: SampleSpec,

    /// The positions of the channels.
    pub channel_map: ChannelMap,

    /// The length of the sample, in bytes.
    pub length: u32,

    /// Properties of the stream.
    pub props: Props,
}

impl TagStructWrite for UploadStreamParams {
    open spec fn spec_values(&self, protocol_version: u16) -> Seq<TagValue> {
        seq![
            string_value(opt_cstr_view(self.media_name)),
            sample_spec_value(self.sample_spec),
            TagValue::ChannelMap(self.channel_map@),
            TagValue::U32(self.length),
            TagValue::PropList(self.props@),
        ]
    }

    open spec fn spec_writable(&self) -> bool {
        true
    }

    fn write(&self, w: &mut TagStructWriter, _protocol_version: u16) -> (r: Result<(), ProtocolError>) {
        w.write_string(self.media_name.as_ref())?;
        w.write_sample_spec(self.sample_spec)?;
        w.write_channel_map(&self.channel_map)?;
        w.write_u32(self.length)?;
        w.write_props(&self.props)?;
        proof {
            lemma_values_bytes_5(
                string_value(opt_cstr_view(self.media_name)),
                sample_spec_value(self.sample_spec),
                TagValue::ChannelMap(self.channel_map@),
                TagValue::U32(self.length),
                TagValue::PropList(self.props@),
            );
        }
        assert(w.bytes() =~= old(w).bytes() + values_bytes(self.spec_values(_protocol_version)));
        Ok(())
    }
}

impl TagStructRead for UploadStreamParams {
    open spec fn spec_parse(s: Seq<u8>, protocol_version: u16) -> Option<(Seq<TagValue>, int)> {
        match parse_values(s, 5) {
            Some((vs, n)) => if (vs[0] is Str || vs[0] is NullStr)
                && (vs[1] matches TagValue::SampleSpec(f, _, _) && sample_format_of_code(f) is Some)
                && (vs[2] matches TagValue::ChannelMap(c) && positions_valid(c))
                && vs[3] is U32
                && vs[4] is PropList
            {
                Some((vs, n))
            } else {
                None
            },
            None => None,
        }
    }

    open spec fn spec_canonical(&self, protocol_version: u16) -> bool {
        true
    }

    open spec fn spec_encodable(&self, protocol_version: u16) -> bool {
        &&& values_wf(self.spec_values(protocol_version))
        &&& self.spec_canonical(protocol_version)
    }

    fn read(ts: &mut TagStructReader, _protocol_version: u16) -> (r: Result<Self, ProtocolError>) {
        let ghost s = ts.rest();
        let ghost total: int = 5;
        proof {
            lemma_parse_values_start(s, total);
            lemma_parse_values_next(s, Seq::empty(), ts.rest(), total - 1);
        }
        let media_name = ts.read_string()?;
        proof {
            assert(parse_values(s, total as nat) == parse_values_after(
                seq![string_value(opt_cstr_view(media_name))],
                s.len() - ts.rest().len(),
                ts.rest(),
                total - 1,
            ));
            lemma_parse_values_next(
                s,
                seq![string_value(opt_cstr_view(media_name))],
                ts.rest(),
                total - 2,
            );
        }
        let sample_spec = ts.read_sample_spec()?;
        proof {
            assert(parse_values(s, total as nat) == parse_values_after(
                seq![string_value(opt_cstr_view(media_name)), sample_spec_value(sample_spec)],
                s.len() - ts.rest().len(),
                ts.rest(),
                total - 2,
            ));
            lemma_parse_values_next(
                s,
                seq![string_value(opt_cstr_view(media_name)), sample_spec_value(sample_spec)],
                ts.rest(),
                total - 3,
            );
        }
        let channel_map = ts.read_channel_map()?;
        proof {
            assert(parse_values(s, total as nat) == parse_values_after(
                seq![
                    string_value(opt_cstr_view(media_name)),
                    sample_spec_value(sample_spec),
                    TagValue::ChannelMap(channel_map@),
                ],
                s.len() - ts.rest().len(),
                ts.rest(),
                total - 3,
            ));
            lemma_parse_values_next(
                s,
                seq![
                    string_value(opt_cstr_view(media_name)),
                    sample_spec_value(sample_spec),
                    TagValue::ChannelMap(channel_map@),
                ],
                ts.rest(),
                total - 4,
            );
        }
        let length = ts.read_u32()?;
        proof {
            assert(parse_values(s, total as nat) == parse_values_after(
                seq![
                    string_value(opt_cstr_view(media_name)),
                    sample_spec_value(sample_spec),
                    TagValue::ChannelMap(channel_map@),
                    TagValue::U32(length),
                ],
                s.len() - ts.rest().len(),
                ts.rest(),
                total - 4,
            ));
            lemma_parse_values_next(
                s,
                seq![
                    string_value(opt_cstr_view(media_name)),
                    sample_spec_value(sample_spec),
                    TagValue::ChannelMap(channel_map@),
                    TagValue::U32(length),
                ],
                ts.rest(),
                total - 5,
            );
        }
        let props = ts.read_props()?;
        proof {
            assert(parse_values(s, total as nat) == parse_values_after(
                seq![
                    string_value(opt_cstr_view(media_name)),
                    sample_spec_value(sample_spec),
                    TagValue::ChannelMap(channel_map@),
                    TagValue::U32(length),
                    TagValue::PropList(props@),
                ],
                s.len() - ts.rest().len(),
                ts.rest(),
                total - 5,
            ));
            lemma_parse_values_done(
                seq![
                    string_value(opt_cstr_view(media_name)),
                    sample_spec_value(sample_spec),
                    TagValue::ChannelMap(channel_map@),
                    TagValue::U32(length),
                    TagValue::PropList(props@),
                ],
                s.len() - ts.rest().len(),
                ts.rest(),
            );
        }
        Ok(UploadStreamParams { media_name, sample_spec, channel_map, length, props })
    }

    proof fn lemma_roundtrip(&self, protocol_version: u16, rest: Seq<u8>) {
        lemma_sample_format_roundtrip(self.sample_spec.format);
        lemma_channel_map_valid(self.channel_map);
        lemma_parse_values_bytes(self.spec_values(protocol_version), rest);
    }
}

/// The reply to creating an upload stream.
#[derive(Default, Debug, Copy, Clone, PartialEq, Eq)]
pub struct CreateUploadStreamReply {
    /// The channel of the new stream.
    pub channel: u32,

    /// The number of bytes the server expects.
    pub length: u32,
}

impl TagStructWrite for CreateUploadStreamReply {
    open spec fn spec_values(&self, protocol_version: u16) -> Seq<TagValue> {
        seq![TagValue::U32(self.channel), TagValue::U32(self.length)]
    }

    open spec fn spec_writable(&self) -> bool {
        true
    }

    fn write(&self, w: &mut TagStructWriter, _protocol_version: u16) -> (r: Result<(), ProtocolError>) {
        w.write_u32(self.channel)?;
        w.write_u32(self.length)?;
        proof {
            lemma_values_bytes_2(TagValue::U32(self.channel), TagValue::U32(self.length));
        }
        assert(w.bytes() =~= old(w).bytes() + values_bytes(self.spec_values(_protocol_version)));
        Ok(())
    }
}

impl TagStructRead for CreateUploadStreamReply {
    open spec fn spec_parse(s: Seq<u8>, protocol_version: u16) -> Option<(Seq<TagValue>, int)> {
        match parse_values(s, 2) {
            Some((vs, n)) => if vs[0] is U32 && vs[1] is U32 {
                Some((vs, n))
            } else {
                None
            },
            None => None,
        }
    }

    open spec fn spec_canonical(&self, protocol_version: u16) -> bool {
        true
    }

    open spec fn spec_encodable(&self, protocol_version: u16) -> bool {
        &&& values_wf(self.spec_values(protocol_version))
        &&& self.spec_canonical(protocol_version)
    }

    fn read(ts: &mut TagStructReader, _protocol_version: u16) -> (r: Result<Self, ProtocolError>) {
        let ghost s = ts.rest();
        let ghost total: int = 2;
        proof {
            lemma_parse_values_start(s, total);
            lemma_parse_values_next(s, Seq::empty(), ts.rest(), total - 1);
        }
        let channel = ts.read_u32()?;
        proof {
            assert(parse_values(s, total as nat) == parse_values_after(
                seq![TagValue::U32(channel)],
                s.len() - ts.rest().len(),
                ts.rest(),
                total - 1,
            ));
            lemma_parse_values_next(s, seq![TagValue::U32(channel)], ts.rest(), total - 2);
        }
        let length = ts.read_u32()?;
        proof {
            assert(parse_values(s, total as nat) == parse_values_after(
                seq![TagValue::U32(channel), TagValue::U32(length)],
                s.len() - ts.rest().len(),
                ts.rest(),
                total - 2,
            ));
            lemma_parse_values_done(
                seq![TagValue::U32(channel), TagValue::U32(length)],
                s.len() - ts.rest().len(),
                ts.rest(),
            );
        }
        Ok(CreateUploadStreamReply { channel, length })
    }

    proof fn lemma_roundtrip(&self, protocol_version: u16, rest: Seq<u8>) {
        lemma_parse_values_bytes(self.spec_values(protocol_version), rest);
    }
}

impl CommandReply for CreateUploadStreamReply {}


/// The values an [`UploadStreamParams`] is sent as, position by position: whatever a read
/// gives from the values `vs` holds each field from its own position.
pub proof fn lemma_upload_stream_params_layout(q: UploadStreamParams, vs: Seq<TagValue>, protocol_version: u16)
    requires
        q.spec_values(protocol_version) == vs,
    ensures
        vs == (
            seq![
                    string_value(opt_cstr_view(q.media_name)),
                    sample_spec_value(q.sample_spec),
                    TagValue::ChannelMap(q.channel_map@),
                    TagValue::U32(q.length),
                    TagValue::PropList(q.props@),
                ]
        ),
{
}

/// The values a [`CreateUploadStreamReply`] is sent as, position by position: whatever a read
/// gives from the values `vs` holds each field from its own position.
pub proof fn lemma_create_upload_stream_reply_layout(q: CreateUploadStreamReply, vs: Seq<TagValue>, protocol_version: u16)
    requires
        q.spec_values(protocol_version) == vs,
    ensures
        vs == (
            seq![TagValue::U32(q.channel), TagValue::U32(q.length)]
        ),
{
}

} // verus!
