//! The values of the parameters of stream creation, in the parts they
//! are read in.

use vstd::prelude::*;

use crate::protocol::error::ProtocolError;
use crate::protocol::serde::fields::{
    lemma_values_bytes_1, lemma_values_bytes_2, lemma_values_bytes_3, lemma_values_bytes_4,
    lemma_values_bytes_6,
};
use crate::protocol::serde::wire::{
    TagValue, lemma_parse_values_bytes, lemma_parse_values_done, lemma_parse_values_next,
    lemma_parse_values_start, parse_values, parse_values_after, values_bytes, values_wf,
};
use crate::protocol::serde::{
    TagStructRead, TagStructReader, TagStructWrite, TagStructWriter, index_encodable, index_value,
    opt_cstr_view, string_value,
};
use crate::protocol::serde::channel_map::{ChannelMap, lemma_channel_map_valid, positions_valid};
use crate::protocol::serde::cstr::CString;
use crate::protocol::serde::props::Props;
use crate::protocol::serde::sample_spec::{SampleSpec, lemma_sample_format_roundtrip, sample_format_of_code, sample_spec_value};
use crate::protocol::serde::volume::ChannelVolume;

use crate::protocol::serde::fields::lemma_parse_value_len;
use crate::protocol::serde::wire::wf_value;
use crate::protocol::stream::StreamFlags;
use crate::protocol::serde::format_info::FormatInfo;
use crate::protocol::serde::list::{
    lemma_parse_counted_bytes, list_values, parse_counted, read_counted,
};
use crate::protocol::serde::wire::{lemma_parse_value_bytes, lemma_values_bytes_concat, parse_value, value_bytes};

verus! {

/// The first values of the parameters of a new playback or record stream.
#[derive(Debug, Clone, PartialEq, Eq)]
pub struct StreamHead {
    /// A value of the part.
    pub sample_spec: SampleSpec,

    /// A value of the part.
    pub channel_map: ChannelMap,

    /// A value of the part.
    pub device_index: Option<u32>,

    /// A value of the part.
    pub device_name: Option<CString>,

    /// A value of the part.
    pub max_length: u32,

    /// A value of the part.
    pub start_corked: bool,
}

impl TagStructWrite for StreamHead {
    open spec fn spec_values(&self, protocol_version: u16) -> Seq<TagValue> {
        seq![
            sample_spec_value(self.sample_spec),
            TagValue::ChannelMap(self.channel_map@),
            index_value(self.device_index),
            string_value(opt_cstr_view(self.device_name)),
            TagValue::U32(self.max_length),
            TagValue::Bool(self.start_corked),
        ]
    }

    open spec fn spec_writable(&self) -> bool {
        true
    }

    fn write(&self, w: &mut TagStructWriter, _protocol_version: u16) -> (r: Result<(), ProtocolError>) {
        w.write_sample_spec(self.sample_spec)?;
        w.write_channel_map(&self.channel_map)?;
        w.write_index(self.device_index)?;
        w.write_string(self.device_name.as_ref())?;
        w.write_u32(self.max_length)?;
        w.write_bool(self.start_corked)?;
        proof {
            lemma_values_bytes_6(
                sample_spec_value(self.sample_spec),
                TagValue::ChannelMap(self.channel_map@),
                index_value(self.device_index),
                string_value(opt_cstr_view(self.device_name)),
                TagValue::U32(self.max_length),
                TagValue::Bool(self.start_corked),
            );
        }
        assert(w.bytes() =~= old(w).bytes() + values_bytes(self.spec_values(_protocol_version)));
        Ok(())
    }
}

impl TagStructRead for StreamHead {
    open spec fn spec_parse(s: Seq<u8>, protocol_version: u16) -> Option<(Seq<TagValue>, int)> {
        match parse_values(s, 6) {
            Some((vs, n)) => if (vs[0] matches TagValue::SampleSpec(f, _, _) && sample_format_of_code(f) is Some)
                && (vs[1] matches TagValue::ChannelMap(c) && positions_valid(c))
                && vs[2] is U32
                && (vs[3] is Str || vs[3] is NullStr)
                && vs[4] is U32
                && vs[5] is Bool
            {
                Some((vs, n))
            } else {
                None
            },
            None => None,
        }
    }

    open spec fn spec_canonical(&self, protocol_version: u16) -> bool {
        true
    }

    open spec fn spec_encodable(&self, protocol_version: u16) -> bool {
        &&& values_wf(self.spec_values(protocol_version))
        &&& index_encodable(self.device_index)
        &&& self.spec_canonical(protocol_version)
    }

    #[verifier::rlimit(40)]
    fn read(ts: &mut TagStructReader, _protocol_version: u16) -> (r: Result<Self, ProtocolError>) {
        let ghost s = ts.rest();
        let ghost total: int = 6;
        proof {
            lemma_parse_values_start(s, total);
            lemma_parse_values_next(s, Seq::empty(), ts.rest(), total - 1);
        }
        let sample_spec = ts.read_sample_spec()?;
        proof {
            assert(parse_values(s, total as nat) == parse_values_after(
                seq![sample_spec_value(sample_spec)],
                s.len() - ts.rest().len(),
                ts.rest(),
                total - 1,
            ));
            lemma_parse_values_next(s, seq![sample_spec_value(sample_spec)], ts.rest(), total - 2);
        }
        let channel_map = ts.read_channel_map()?;
        proof {
            assert(parse_values(s, total as nat) == parse_values_after(
                seq![sample_spec_value(sample_spec), TagValue::ChannelMap(channel_map@)],
                s.len() - ts.rest().len(),
                ts.rest(),
                total - 2,
            ));
            lemma_parse_values_next(
                s,
                seq![sample_spec_value(sample_spec), TagValue::ChannelMap(channel_map@)],
                ts.rest(),
                total - 3,
            );
        }
        let device_index = ts.read_index()?;
        proof {
            assert(parse_values(s, total as nat) == parse_values_after(
                seq![
                    sample_spec_value(sample_spec),
                    TagValue::ChannelMap(channel_map@),
                    index_value(device_index),
                ],
                s.len() - ts.rest().len(),
                ts.rest(),
                total - 3,
            ));
            lemma_parse_values_next(
                s,
                seq![
                    sample_spec_value(sample_spec),
                    TagValue::ChannelMap(channel_map@),
                    index_value(device_index),
                ],
                ts.rest(),
                total - 4,
            );
        }
        let device_name = ts.read_string()?;
        proof {
            assert(parse_values(s, total as nat) == parse_values_after(
                seq![
                    sample_spec_value(sample_spec),
                    TagValue::ChannelMap(channel_map@),
                    index_value(device_index),
                    string_value(opt_cstr_view(device_name)),
                ],
                s.len() - ts.rest().len(),
                ts.rest(),
                total - 4,
            ));
            lemma_parse_values_next(
                s,
                seq![
                    sample_spec_value(sample_spec),
                    TagValue::ChannelMap(channel_map@),
                    index_value(device_index),
                    string_value(opt_cstr_view(device_name)),
                ],
                ts.rest(),
                total - 5,
            );
        }
        let max_length = ts.read_u32()?;
        proof {
            assert(parse_values(s, total as nat) == parse_values_after(
                seq![
                    sample_spec_value(sample_spec),
                    TagValue::ChannelMap(channel_map@),
                    index_value(device_index),
                    string_value(opt_cstr_view(device_name)),
                    TagValue::U32(max_length),
                ],
                s.len() - ts.rest().len(),
                ts.rest(),
                total - 5,
            ));
            lemma_parse_values_next(
                s,
                seq![
                    sample_spec_value(sample_spec),
                    TagValue::ChannelMap(channel_map@),
                    index_value(device_index),
                    string_value(opt_cstr_view(device_name)),
                    TagValue::U32(max_length),
                ],
                ts.rest(),
                total - 6,
            );
        }
        let start_corked = ts.read_bool()?;
        proof {
            assert(parse_values(s, total as nat) == parse_values_after(
                seq![
                    sample_spec_value(sample_spec),
                    TagValue::ChannelMap(channel_map@),
                    index_value(device_index),
                    string_value(opt_cstr_view(device_name)),
                    TagValue::U32(max_length),
                    TagValue::Bool(start_corked),
                ],
                s.len() - ts.rest().len(),
                ts.rest(),
                total - 6,
            ));
            lemma_parse_values_done(
                seq![
                    sample_spec_value(sample_spec),
                    TagValue::ChannelMap(channel_map@),
                    index_value(device_index),
                    string_value(opt_cstr_view(device_name)),
                    TagValue::U32(max_length),
                    TagValue::Bool(start_corked),
                ],
                s.len() - ts.rest().len(),
                ts.rest(),
            );
        }
        Ok(StreamHead { sample_spec, channel_map, device_index, device_name, max_length, start_corked })
    }

    proof fn lemma_roundtrip(&self, protocol_version: u16, rest: Seq<u8>) {
        lemma_sample_format_roundtrip(self.sample_spec.format);
        lemma_channel_map_valid(self.channel_map);
        lemma_parse_values_bytes(self.spec_values(protocol_version), rest);
    }
}

/// One u32 value.
#[derive(Debug, Clone, PartialEq, Eq)]
pub struct U32s1 {
    /// A value of the part.
    pub u0: u32,
}

impl TagStructWrite for U32s1 {
    open spec fn spec_values(&self, protocol_version: u16) -> Seq<TagValue> {
        seq![TagValue::U32(self.u0)]
    }

    open spec fn spec_writable(&self) -> bool {
        true
    }

    fn write(&self, w: &mut TagStructWriter, _protocol_version: u16) -> (r: Result<(), ProtocolError>) {
        w.write_u32(self.u0)?;
        proof {
            lemma_values_bytes_1(TagValue::U32(self.u0));
        }
        assert(w.bytes() =~= old(w).bytes() + values_bytes(self.spec_values(_protocol_version)));
        Ok(())
    }
}

impl TagStructRead for U32s1 {
    open spec fn spec_parse(s: Seq<u8>, protocol_version: u16) -> Option<(Seq<TagValue>, int)> {
        match parse_values(s, 1) {
            Some((vs, n)) => if vs[0] is U32 {
                Some((vs, n))
            } else {
                None
            },
            None => None,
        }
    }

    open spec fn spec_canonical(&self, protocol_version: u16) -> bool {
        true
    }

    open spec fn spec_encodable(&self, protocol_version: u16) -> bool {
        &&& values_wf(self.spec_values(protocol_version))
        &&& self.spec_canonical(protocol_version)
    }

    fn read(ts: &mut TagStructReader, _protocol_version: u16) -> (r: Result<Self, ProtocolError>) {
        let ghost s = ts.rest();
        let ghost total: int = 1;
        proof {
            lemma_parse_values_start(s, total);
            lemma_parse_values_next(s, Seq::empty(), ts.rest(), total - 1);
        }
        let u0 = ts.read_u32()?;
        proof {
            assert(parse_values(s, total as nat) == parse_values_after(
                seq![TagValue::U32(u0)],
                s.len() - ts.rest().len(),
                ts.rest(),
                total - 1,
            ));
            lemma_parse_values_done(seq![TagValue::U32(u0)], s.len() - ts.rest().len(), ts.rest());
        }
        Ok(U32s1 { u0 })
    }

    proof fn lemma_roundtrip(&self, protocol_version: u16, rest: Seq<u8>) {
        lemma_parse_values_bytes(self.spec_values(protocol_version), rest);
    }
}

/// Four u32 values.
#[derive(Debug, Clone, PartialEq, Eq)]
pub struct U32s4 {
    /// A value of the part.
    pub u0: u32,

    /// A value of the part.
    pub u1: u32,

    /// A value of the part.
    pub u2: u32,

    /// A value of the part.
    pub u3: u32,
}

impl TagStructWrite for U32s4 {
    open spec fn spec_values(&self, protocol_version: u16) -> Seq<TagValue> {
        seq![
            TagValue::U32(self.u0),
            TagValue::U32(self.u1),
            TagValue::U32(self.u2),
            TagValue::U32(self.u3),
        ]
    }

    open spec fn spec_writable(&self) -> bool {
        true
    }

    fn write(&self, w: &mut TagStructWriter, _protocol_version: u16) -> (r: Result<(), ProtocolError>) {
        w.write_u32(self.u0)?;
        w.write_u32(self.u1)?;
        w.write_u32(self.u2)?;
        w.write_u32(self.u3)?;
        proof {
            lemma_values_bytes_4(
                TagValue::U32(self.u0),
                TagValue::U32(self.u1),
                TagValue::U32(self.u2),
                TagValue::U32(self.u3),
            );
        }
        assert(w.bytes() =~= old(w).bytes() + values_bytes(self.spec_values(_protocol_version)));
        Ok(())
    }
}

impl TagStructRead for U32s4 {
    open spec fn spec_parse(s: Seq<u8>, protocol_version: u16) -> Option<(Seq<TagValue>, int)> {
        match parse_values(s, 4) {
            Some((vs, n)) => if vs[0] is U32 && vs[1] is U32 && vs[2] is U32 && vs[3] is U32 {
                Some((vs, n))
            } else {
                None
            },
            None => None,
        }
    }

    open spec fn spec_canonical(&self, protocol_version: u16) -> bool {
        true
    }

    open spec fn spec_encodable(&self, protocol_version: u16) -> bool {
        &&& values_wf(self.spec_values(protocol_version))
        &&& self.spec_canonical(protocol_version)
    }

    fn read(ts: &mut TagStructReader, _protocol_version: u16) -> (r: Result<Self, ProtocolError>) {
        let ghost s = ts.rest();
        let ghost total: int = 4;
        proof {
            lemma_parse_values_start(s, total);
            lemma_parse_values_next(s, Seq::empty(), ts.rest(), total - 1);
        }
        let u0 = ts.read_u32()?;
        proof {
            assert(parse_values(s, total as nat) == parse_values_after(
                seq![TagValue::U32(u0)],
                s.len() - ts.rest().len(),
                ts.rest(),
                total - 1,
            ));
            lemma_parse_values_next(s, seq![TagValue::U32(u0)], ts.rest(), total - 2);
        }
        let u1 = ts.read_u32()?;
        proof {
            assert(parse_values(s, total as nat) == parse_values_after(
                seq![TagValue::U32(u0), TagValue::U32(u1)],
                s.len() - ts.rest().len(),
                ts.rest(),
                total - 2,
            ));
            lemma_parse_values_next(
                s,
                seq![TagValue::U32(u0), TagValue::U32(u1)],
                ts.rest(),
                total - 3,
            );
        }
        let u2 = ts.read_u32()?;
        proof {
            assert(parse_values(s, total as nat) == parse_values_after(
                seq![TagValue::U32(u0), TagValue::U32(u1), TagValue::U32(u2)],
                s.len() - ts.rest().len(),
                ts.rest(),
                total - 3,
            ));
            lemma_parse_values_next(
                s,
                seq![TagValue::U32(u0), TagValue::U32(u1), TagValue::U32(u2)],
                ts.rest(),
                total - 4,
            );
        }
        let u3 = ts.read_u32()?;
        proof {
            assert(parse_values(s, total as nat) == parse_values_after(
                seq![TagValue::U32(u0), TagValue::U32(u1), TagValue::U32(u2), TagValue::U32(u3)],
                s.len() - ts.rest().len(),
                ts.rest(),
                total - 4,
            ));
            lemma_parse_values_done(
                seq![TagValue::U32(u0), TagValue::U32(u1), TagValue::U32(u2), TagValue::U32(u3)],
                s.len() - ts.rest().len(),
                ts.rest(),
            );
        }
        Ok(U32s4 { u0, u1, u2, u3 })
    }

    proof fn lemma_roundtrip(&self, protocol_version: u16, rest: Seq<u8>) {
        lemma_parse_values_bytes(self.spec_values(protocol_version), rest);
    }
}

/// A per-channel volume.
#[derive(Debug, Clone, PartialEq, Eq)]
pub struct CVol1 {
    /// A value of the part.
    pub cvolume: ChannelVolume,
}

impl TagStructWrite for CVol1 {
    open spec fn spec_values(&self, protocol_version: u16) -> Seq<TagValue> {
        seq![TagValue::CVolume(self.cvolume@)]
    }

    open spec fn spec_writable(&self) -> bool {
        true
    }

    fn write(&self, w: &mut TagStructWriter, _protocol_version: u16) -> (r: Result<(), ProtocolError>) {
        w.write_cvolume(&self.cvolume)?;
        proof {
            lemma_values_bytes_1(TagValue::CVolume(self.cvolume@));
        }
        assert(w.bytes() =~= old(w).bytes() + values_bytes(self.spec_values(_protocol_version)));
        Ok(())
    }
}

impl TagStructRead for CVol1 {
    open spec fn spec_parse(s: Seq<u8>, protocol_version: u16) -> Option<(Seq<TagValue>, int)> {
        match parse_values(s, 1) {
            Some((vs, n)) => if vs[0] is CVolume {
                Some((vs, n))
            } else {
                None
            },
            None => None,
        }
    }

    open spec fn spec_canonical(&self, protocol_version: u16) -> bool {
        true
    }

    open spec fn spec_encodable(&self, protocol_version: u16) -> bool {
        &&& values_wf(self.spec_values(protocol_version))
        &&& self.spec_canonical(protocol_version)
    }

    fn read(ts: &mut TagStructReader, _protocol_version: u16) -> (r: Result<Self, ProtocolError>) {
        let ghost s = ts.rest();
        let ghost total: int = 1;
        proof {
            lemma_parse_values_start(s, total);
            lemma_parse_values_next(s, Seq::empty(), ts.rest(), total - 1);
        }
        let cvolume = ts.read_cvolume()?;
        proof {
            assert(parse_values(s, total as nat) == parse_values_after(
                seq![TagValue::CVolume(cvolume@)],
                s.len() - ts.rest().len(),
                ts.rest(),
                total - 1,
            ));
            lemma_parse_values_done(seq![
                TagValue::CVolume(cvolume@),
            ], s.len() - ts.rest().len(), ts.rest());
        }
        Ok(CVol1 { cvolume })
    }

    proof fn lemma_roundtrip(&self, protocol_version: u16, rest: Seq<u8>) {
        lemma_parse_values_bytes(self.spec_values(protocol_version), rest);
    }
}

/// Four boolean values.
#[derive(Debug, Clone, PartialEq, Eq)]
pub struct Bools4 {
    /// A value of the part.
    pub b0: bool,

    /// A value of the part.
    pub b1: bool,

    /// A value of the part.
    pub b2: bool,

    /// A value of the part.
    pub b3: bool,
}

impl TagStructWrite for Bools4 {
    open spec fn spec_values(&self, protocol_version: u16) -> Seq<TagValue> {
        seq![
            TagValue::Bool(self.b0),
            TagValue::Bool(self.b1),
            TagValue::Bool(self.b2),
            TagValue::Bool(self.b3),
        ]
    }

    open spec fn spec_writable(&self) -> bool {
        true
    }

    fn write(&self, w: &mut TagStructWriter, _protocol_version: u16) -> (r: Result<(), ProtocolError>) {
        w.write_bool(self.b0)?;
        w.write_bool(self.b1)?;
        w.write_bool(self.b2)?;
        w.write_bool(self.b3)?;
        proof {
            lemma_values_bytes_4(
                TagValue::Bool(self.b0),
                TagValue::Bool(self.b1),
                TagValue::Bool(self.b2),
                TagValue::Bool(self.b3),
            );
        }
        assert(w.bytes() =~= old(w).bytes() + values_bytes(self.spec_values(_protocol_version)));
        Ok(())
    }
}

impl TagStructRead for Bools4 {
    open spec fn spec_parse(s: Seq<u8>, protocol_version: u16) -> Option<(Seq<TagValue>, int)> {
        match parse_values(s, 4) {
            Some((vs, n)) => if vs[0] is Bool && vs[1] is Bool && vs[2] is Bool && vs[3] is Bool {
                Some((vs, n))
            } else {
                None
            },
            None => None,
        }
    }

    open spec fn spec_canonical(&self, protocol_version: u16) -> bool {
        true
    }

    open spec fn spec_encodable(&self, protocol_version: u16) -> bool {
        &&& values_wf(self.spec_values(protocol_version))
        &&& self.spec_canonical(protocol_version)
    }

    fn read(ts: &mut TagStructReader, _protocol_version: u16) -> (r: Result<Self, ProtocolError>) {
        let ghost s = ts.rest();
        let ghost total: int = 4;
        proof {
            lemma_parse_values_start(s, total);
            lemma_parse_values_next(s, Seq::empty(), ts.rest(), total - 1);
        }
        let b0 = ts.read_bool()?;
        proof {
            assert(parse_values(s, total as nat) == parse_values_after(
                seq![TagValue::Bool(b0)],
                s.len() - ts.rest().len(),
                ts.rest(),
                total - 1,
            ));
            lemma_parse_values_next(s, seq![TagValue::Bool(b0)], ts.rest(), total - 2);
        }
        let b1 = ts.read_bool()?;
        proof {
            assert(parse_values(s, total as nat) == parse_values_after(
                seq![TagValue::Bool(b0), TagValue::Bool(b1)],
                s.len() - ts.rest().len(),
                ts.rest(),
                total - 2,
            ));
            lemma_parse_values_next(
                s,
                seq![TagValue::Bool(b0), TagValue::Bool(b1)],
                ts.rest(),
                total - 3,
            );
        }
        let b2 = ts.read_bool()?;
        proof {
            assert(parse_values(s, total as nat) == parse_values_after(
                seq![TagValue::Bool(b0), TagValue::Bool(b1), TagValue::Bool(b2)],
                s.len() - ts.rest().len(),
                ts.rest(),
                total - 3,
            ));
            lemma_parse_values_next(
                s,
                seq![TagValue::Bool(b0), TagValue::Bool(b1), TagValue::Bool(b2)],
                ts.rest(),
                total - 4,
            );
        }
        let b3 = ts.read_bool()?;
        proof {
            assert(parse_values(s, total as nat) == parse_values_after(
                seq![
                    TagValue::Bool(b0),
                    TagValue::Bool(b1),
                    TagValue::Bool(b2),
                    TagValue::Bool(b3),
                ],
                s.len() - ts.rest().len(),
                ts.rest(),
                total - 4,
            ));
            lemma_parse_values_done(
                seq![
                    TagValue::Bool(b0),
                    TagValue::Bool(b1),
                    TagValue::Bool(b2),
                    TagValue::Bool(b3),
                ],
                s.len() - ts.rest().len(),
                ts.rest(),
            );
        }
        Ok(Bools4 { b0, b1, b2, b3 })
    }

    proof fn lemma_roundtrip(&self, protocol_version: u16, rest: Seq<u8>) {
        lemma_parse_values_bytes(self.spec_values(protocol_version), rest);
    }
}

/// Two boolean values, then properties.
#[derive(Debug, Clone, PartialEq, Eq)]
pub struct PlayFlagsProps {
    /// A value of the part.
    pub b0: bool,

    /// A value of the part.
    pub b1: bool,

    /// A value of the part.
    pub props: Props,
}

impl TagStructWrite for PlayFlagsProps {
    open spec fn spec_values(&self, protocol_version: u16) -> Seq<TagValue> {
        seq![TagValue::Bool(self.b0), TagValue::Bool(self.b1), TagValue::PropList(self.props@)]
    }

    open spec fn spec_writable(&self) -> bool {
        true
    }

    fn write(&self, w: &mut TagStructWriter, _protocol_version: u16) -> (r: Result<(), ProtocolError>) {
        w.write_bool(self.b0)?;
        w.write_bool(self.b1)?;
        w.write_props(&self.props)?;
        proof {
            lemma_values_bytes_3(
                TagValue::Bool(self.b0),
                TagValue::Bool(self.b1),
                TagValue::PropList(self.props@),
            );
        }
        assert(w.bytes() =~= old(w).bytes() + values_bytes(self.spec_values(_protocol_version)));
        Ok(())
    }
}

impl TagStructRead for PlayFlagsProps {
    open spec fn spec_parse(s: Seq<u8>, protocol_version: u16) -> Option<(Seq<TagValue>, int)> {
        match parse_values(s, 3) {
            Some((vs, n)) => if vs[0] is Bool && vs[1] is Bool && vs[2] is PropList {
                Some((vs, n))
            } else {
                None
            },
            None => None,
        }
    }

    open spec fn spec_canonical(&self, protocol_version: u16) -> bool {
        true
    }

    open spec fn spec_encodable(&self, protocol_version: u16) -> bool {
        &&& values_wf(self.spec_values(protocol_version))
        &&& self.spec_canonical(protocol_version)
    }

    fn read(ts: &mut TagStructReader, _protocol_version: u16) -> (r: Result<Self, ProtocolError>) {
        let ghost s = ts.rest();
        let ghost total: int = 3;
        proof {
            lemma_parse_values_start(s, total);
            lemma_parse_values_next(s, Seq::empty(), ts.rest(), total - 1);
        }
        let b0 = ts.read_bool()?;
        proof {
            assert(parse_values(s, total as nat) == parse_values_after(
                seq![TagValue::Bool(b0)],
                s.len() - ts.rest().len(),
                ts.rest(),
                total - 1,
            ));
            lemma_parse_values_next(s, seq![TagValue::Bool(b0)], ts.rest(), total - 2);
        }
        let b1 = ts.read_bool()?;
        proof {
            assert(parse_values(s, total as nat) == parse_values_after(
                seq![TagValue::Bool(b0), TagValue::Bool(b1)],
                s.len() - ts.rest().len(),
                ts.rest(),
                total - 2,
            ));
            lemma_parse_values_next(
                s,
                seq![TagValue::Bool(b0), TagValue::Bool(b1)],
                ts.rest(),
                total - 3,
            );
        }
        let props = ts.read_props()?;
        proof {
            assert(parse_values(s, total as nat) == parse_values_after(
                seq![TagValue::Bool(b0), TagValue::Bool(b1), TagValue::PropList(props@)],
                s.len() - ts.rest().len(),
                ts.rest(),
                total - 3,
            ));
            lemma_parse_values_done(
                seq![TagValue::Bool(b0), TagValue::Bool(b1), TagValue::PropList(props@)],
                s.len() - ts.rest().len(),
                ts.rest(),
            );
        }
        Ok(PlayFlagsProps { b0, b1, props })
    }

    proof fn lemma_roundtrip(&self, protocol_version: u16, rest: Seq<u8>) {
        lemma_parse_values_bytes(self.spec_values(protocol_version), rest);
    }
}

/// Two boolean values, properties, then one more boolean value.
#[derive(Debug, Clone, PartialEq, Eq)]
pub struct RecFlagsProps {
    /// A value of the part.
    pub b0: bool,

    /// A value of the part.
    pub b1: bool,

    /// A value of the part.
    pub props: Props,

    /// A value of the part.
    pub b2: bool,
}

impl TagStructWrite for RecFlagsProps {
    open spec fn spec_values(&self, protocol_version: u16) -> Seq<TagValue> {
        seq![
            TagValue::Bool(self.b0),
            TagValue::Bool(self.b1),
            TagValue::PropList(self.props@),
            TagValue::Bool(self.b2),
        ]
    }

    open spec fn spec_writable(&self) -> bool {
        true
    }

    fn write(&self, w: &mut TagStructWriter, _protocol_version: u16) -> (r: Result<(), ProtocolError>) {
        w.write_bool(self.b0)?;
        w.write_bool(self.b1)?;
        w.write_props(&self.props)?;
        w.write_bool(self.b2)?;
        proof {
            lemma_values_bytes_4(
                TagValue::Bool(self.b0),
                TagValue::Bool(self.b1),
                TagValue::PropList(self.props@),
                TagValue::Bool(self.b2),
            );
        }
        assert(w.bytes() =~= old(w).bytes() + values_bytes(self.spec_values(_protocol_version)));
        Ok(())
    }
}

impl TagStructRead for RecFlagsProps {
    open spec fn spec_parse(s: Seq<u8>, protocol_version: u16) -> Option<(Seq<TagValue>, int)> {
        match parse_values(s, 4) {
            Some((vs, n)) => if vs[0] is Bool
                && vs[1] is Bool
                && vs[2] is PropList
                && vs[3] is Bool
            {
                Some((vs, n))
            } else {
                None
            },
            None => None,
        }
    }

    open spec fn spec_canonical(&self, protocol_version: u16) -> bool {
        true
    }

    open spec fn spec_encodable(&self, protocol_version: u16) -> bool {
        &&& values_wf(self.spec_values(protocol_version))
        &&& self.spec_canonical(protocol_version)
    }

    fn read(ts: &mut TagStructReader, _protocol_version: u16) -> (r: Result<Self, ProtocolError>) {
        let ghost s = ts.rest();
        let ghost total: int = 4;
        proof {
            lemma_parse_values_start(s, total);
            lemma_parse_values_next(s, Seq::empty(), ts.rest(), total - 1);
        }
        let b0 = ts.read_bool()?;
        proof {
            assert(parse_values(s, total as nat) == parse_values_after(
                seq![TagValue::Bool(b0)],
                s.len() - ts.rest().len(),
                ts.rest(),
                total - 1,
            ));
            lemma_parse_values_next(s, seq![TagValue::Bool(b0)], ts.rest(), total - 2);
        }
        let b1 = ts.read_bool()?;
        proof {
            assert(parse_values(s, total as nat) == parse_values_after(
                seq![TagValue::Bool(b0), TagValue::Bool(b1)],
                s.len() - ts.rest().len(),
                ts.rest(),
                total - 2,
            ));
            lemma_parse_values_next(
                s,
                seq![TagValue::Bool(b0), TagValue::Bool(b1)],
                ts.rest(),
                total - 3,
            );
        }
        let props = ts.read_props()?;
        proof {
            assert(parse_values(s, total as nat) == parse_values_after(
                seq![TagValue::Bool(b0), TagValue::Bool(b1), TagValue::PropList(props@)],
                s.len() - ts.rest().len(),
                ts.rest(),
                total - 3,
            ));
            lemma_parse_values_next(
                s,
                seq![TagValue::Bool(b0), TagValue::Bool(b1), TagValue::PropList(props@)],
                ts.rest(),
                total - 4,
            );
        }
        let b2 = ts.read_bool()?;
        proof {
            assert(parse_values(s, total as nat) == parse_values_after(
                seq![
                    TagValue::Bool(b0),
                    TagValue::Bool(b1),
                    TagValue::PropList(props@),
                    TagValue::Bool(b2),
                ],
                s.len() - ts.rest().len(),
                ts.rest(),
                total - 4,
            ));
            lemma_parse_values_done(
                seq![
                    TagValue::Bool(b0),
                    TagValue::Bool(b1),
                    TagValue::PropList(props@),
                    TagValue::Bool(b2),
                ],
                s.len() - ts.rest().len(),
                ts.rest(),
            );
        }
        Ok(RecFlagsProps { b0, b1, props, b2 })
    }

    proof fn lemma_roundtrip(&self, protocol_version: u16, rest: Seq<u8>) {
        lemma_parse_values_bytes(self.spec_values(protocol_version), rest);
    }
}

/// The values of record stream parameters after the formats.
#[derive(Debug, Clone, PartialEq, Eq)]
pub struct RecTail {
    /// A value of the part.
    pub cvolume: ChannelVolume,

    /// A value of the part.
    pub start_muted: bool,

    /// A value of the part.
    pub cvolume_set: bool,

    /// A value of the part.
    pub start_muted_set: bool,

    /// A value of the part.
    pub relative_volume: bool,

    /// A value of the part.
    pub passthrough: bool,
}

impl TagStructWrite for RecTail {
    open spec fn spec_values(&self, protocol_version: u16) -> Seq<TagValue> {
        seq![
            TagValue::CVolume(self.cvolume@),
            TagValue::Bool(self.start_muted),
            TagValue::Bool(self.cvolume_set),
            TagValue::Bool(self.start_muted_set),
            TagValue::Bool(self.relative_volume),
            TagValue::Bool(self.passthrough),
        ]
    }

    open spec fn spec_writable(&self) -> bool {
        true
    }

    fn write(&self, w: &mut TagStructWriter, _protocol_version: u16) -> (r: Result<(), ProtocolError>) {
        w.write_cvolume(&self.cvolume)?;
        w.write_bool(self.start_muted)?;
        w.write_bool(self.cvolume_set)?;
        w.write_bool(self.start_muted_set)?;
        w.write_bool(self.relative_volume)?;
        w.write_bool(self.passthrough)?;
        proof {
            lemma_values_bytes_6(
                TagValue::CVolume(self.cvolume@),
                TagValue::Bool(self.start_muted),
                TagValue::Bool(self.cvolume_set),
                TagValue::Bool(self.start_muted_set),
                TagValue::Bool(self.relative_volume),
                TagValue::Bool(self.passthrough),
            );
        }
        assert(w.bytes() =~= old(w).bytes() + values_bytes(self.spec_values(_protocol_version)));
        Ok(())
    }
}

impl TagStructRead for RecTail {
    open spec fn spec_parse(s: Seq<u8>, protocol_version: u16) -> Option<(Seq<TagValue>, int)> {
        match parse_values(s, 6) {
            Some((vs, n)) => if vs[0] is CVolume
                && vs[1] is Bool
                && vs[2] is Bool
                && vs[3] is Bool
                && vs[4] is Bool
                && vs[5] is Bool
            {
                Some((vs, n))
            } else {
                None
            },
            None => None,
        }
    }

    open spec fn spec_canonical(&self, protocol_version: u16) -> bool {
        true
    }

    open spec fn spec_encodable(&self, protocol_version: u16) -> bool {
        &&& values_wf(self.spec_values(protocol_version))
        &&& self.spec_canonical(protocol_version)
    }

    #[verifier::rlimit(40)]
    fn read(ts: &mut TagStructReader, _protocol_version: u16) -> (r: Result<Self, ProtocolError>) {
        let ghost s = ts.rest();
        let ghost total: int = 6;
        proof {
            lemma_parse_values_start(s, total);
            lemma_parse_values_next(s, Seq::empty(), ts.rest(), total - 1);
        }
        let cvolume = ts.read_cvolume()?;
        proof {
            assert(parse_values(s, total as nat) == parse_values_after(
                seq![TagValue::CVolume(cvolume@)],
                s.len() - ts.rest().len(),
                ts.rest(),
                total - 1,
            ));
            lemma_parse_values_next(s, seq![TagValue::CVolume(cvolume@)], ts.rest(), total - 2);
        }
        let start_muted = ts.read_bool()?;
        proof {
            assert(parse_values(s, total as nat) == parse_values_after(
                seq![TagValue::CVolume(cvolume@), TagValue::Bool(start_muted)],
                s.len() - ts.rest().len(),
                ts.rest(),
                total - 2,
            ));
            lemma_parse_values_next(
                s,
                seq![TagValue::CVolume(cvolume@), TagValue::Bool(start_muted)],
                ts.rest(),
                total - 3,
            );
        }
        let cvolume_set = ts.read_bool()?;
        proof {
            assert(parse_values(s, total as nat) == parse_values_after(
                seq![
                    TagValue::CVolume(cvolume@),
                    TagValue::Bool(start_muted),
                    TagValue::Bool(cvolume_set),
                ],
                s.len() - ts.rest().len(),
                ts.rest(),
                total - 3,
            ));
            lemma_parse_values_next(
                s,
                seq![
                    TagValue::CVolume(cvolume@),
                    TagValue::Bool(start_muted),
                    TagValue::Bool(cvolume_set),
                ],
                ts.rest(),
                total - 4,
            );
        }
        let start_muted_set = ts.read_bool()?;
        proof {
            assert(parse_values(s, total as nat) == parse_values_after(
                seq![
                    TagValue::CVolume(cvolume@),
                    TagValue::Bool(start_muted),
                    TagValue::Bool(cvolume_set),
                    TagValue::Bool(start_muted_set),
                ],
                s.len() - ts.rest().len(),
                ts.rest(),
                total - 4,
            ));
            lemma_parse_values_next(
                s,
                seq![
                    TagValue::CVolume(cvolume@),
                    TagValue::Bool(start_muted),
                    TagValue::Bool(cvolume_set),
                    TagValue::Bool(start_muted_set),
                ],
                ts.rest(),
                total - 5,
            );
        }
        let relative_volume = ts.read_bool()?;
        proof {
            assert(parse_values(s, total as nat) == parse_values_after(
                seq![
                    TagValue::CVolume(cvolume@),
                    TagValue::Bool(start_muted),
                    TagValue::Bool(cvolume_set),
                    TagValue::Bool(start_muted_set),
                    TagValue::Bool(relative_volume),
                ],
                s.len() - ts.rest().len(),
                ts.rest(),
                total - 5,
            ));
            lemma_parse_values_next(
                s,
                seq![
                    TagValue::CVolume(cvolume@),
                    TagValue::Bool(start_muted),
                    TagValue::Bool(cvolume_set),
                    TagValue::Bool(start_muted_set),
                    TagValue::Bool(relative_volume),
                ],
                ts.rest(),
                total - 6,
            );
        }
        let passthrough = ts.read_bool()?;
        proof {
            assert(parse_values(s, total as nat) == parse_values_after(
                seq![
                    TagValue::CVolume(cvolume@),
                    TagValue::Bool(start_muted),
                    TagValue::Bool(cvolume_set),
                    TagValue::Bool(start_muted_set),
                    TagValue::Bool(relative_volume),
                    TagValue::Bool(passthrough),
                ],
                s.len() - ts.rest().len(),
                ts.rest(),
                total - 6,
            ));
            lemma_parse_values_done(
                seq![
                    TagValue::CVolume(cvolume@),
                    TagValue::Bool(start_muted),
                    TagValue::Bool(cvolume_set),
                    TagValue::Bool(start_muted_set),
                    TagValue::Bool(relative_volume),
                    TagValue::Bool(passthrough),
                ],
                s.len() - ts.rest().len(),
                ts.rest(),
            );
        }
        Ok(RecTail { cvolume, start_muted, cvolume_set, start_muted_set, relative_volume, passthrough })
    }

    proof fn lemma_roundtrip(&self, protocol_version: u16, rest: Seq<u8>) {
        lemma_parse_values_bytes(self.spec_values(protocol_version), rest);
    }
}

/// One boolean value.
#[derive(Debug, Clone, PartialEq, Eq)]
pub struct Bools1 {
    /// A value of the part.
    pub b0: bool,
}

impl TagStructWrite for Bools1 {
    open spec fn spec_values(&self, protocol_version: u16) -> Seq<TagValue> {
        seq![TagValue::Bool(self.b0)]
    }

    open spec fn spec_writable(&self) -> bool {
        true
    }

    fn write(&self, w: &mut TagStructWriter, _protocol_version: u16) -> (r: Result<(), ProtocolError>) {
        w.write_bool(self.b0)?;
        proof {
            lemma_values_bytes_1(TagValue::Bool(self.b0));
        }
        assert(w.bytes() =~= old(w).bytes() + values_bytes(self.spec_values(_protocol_version)));
        Ok(())
    }
}

impl TagStructRead for Bools1 {
    open spec fn spec_parse(s: Seq<u8>, protocol_version: u16) -> Option<(Seq<TagValue>, int)> {
        match parse_values(s, 1) {
            Some((vs, n)) => if vs[0] is Bool {
                Some((vs, n))
            } else {
                None
            },
            None => None,
        }
    }

    open spec fn spec_canonical(&self, protocol_version: u16) -> bool {
        true
    }

    open spec fn spec_encodable(&self, protocol_version: u16) -> bool {
        &&& values_wf(self.spec_values(protocol_version))
        &&& self.spec_canonical(protocol_version)
    }

    fn read(ts: &mut TagStructReader, _protocol_version: u16) -> (r: Result<Self, ProtocolError>) {
        let ghost s = ts.rest();
        let ghost total: int = 1;
        proof {
            lemma_parse_values_start(s, total);
            lemma_parse_values_next(s, Seq::empty(), ts.rest(), total - 1);
        }
        let b0 = ts.read_bool()?;
        proof {
            assert(parse_values(s, total as nat) == parse_values_after(
                seq![TagValue::Bool(b0)],
                s.len() - ts.rest().len(),
                ts.rest(),
                total - 1,
            ));
            lemma_parse_values_done(seq![TagValue::Bool(b0)], s.len() - ts.rest().len(), ts.rest());
        }
        Ok(Bools1 { b0 })
    }

    proof fn lemma_roundtrip(&self, protocol_version: u16, rest: Seq<u8>) {
        lemma_parse_values_bytes(self.spec_values(protocol_version), rest);
    }
}

/// Two boolean values.
#[derive(Debug, Clone, PartialEq, Eq)]
pub struct Bools2 {
    /// A value of the part.
    pub b0: bool,

    /// A value of the part.
    pub b1: bool,
}

impl TagStructWrite for Bools2 {
    open spec fn spec_values(&self, protocol_version: u16) -> Seq<TagValue> {
        seq![TagValue::Bool(self.b0), TagValue::Bool(self.b1)]
    }

    open spec fn spec_writable(&self) -> bool {
        true
    }

    fn write(&self, w: &mut TagStructWriter, _protocol_version: u16) -> (r: Result<(), ProtocolError>) {
        w.write_bool(self.b0)?;
        w.write_bool(self.b1)?;
        proof {
            lemma_values_bytes_2(TagValue::Bool(self.b0), TagValue::Bool(self.b1));
        }
        assert(w.bytes() =~= old(w).bytes() + values_bytes(self.spec_values(_protocol_version)));
        Ok(())
    }
}

impl TagStructRead for Bools2 {
    open spec fn spec_parse(s: Seq<u8>, protocol_version: u16) -> Option<(Seq<TagValue>, int)> {
        match parse_values(s, 2) {
            Some((vs, n)) => if vs[0] is Bool && vs[1] is Bool {
                Some((vs, n))
            } else {
                None
            },
            None => None,
        }
    }

    open spec fn spec_canonical(&self, protocol_version: u16) -> bool {
        true
    }

    open spec fn spec_encodable(&self, protocol_version: u16) -> bool {
        &&& values_wf(self.spec_values(protocol_version))
        &&& self.spec_canonical(protocol_version)
    }

    fn read(ts: &mut TagStructReader, _protocol_version: u16) -> (r: Result<Self, ProtocolError>) {
        let ghost s = ts.rest();
        let ghost total: int = 2;
        proof {
            lemma_parse_values_start(s, total);
            lemma_parse_values_next(s, Seq::empty(), ts.rest(), total - 1);
        }
        let b0 = ts.read_bool()?;
        proof {
            assert(parse_values(s, total as nat) == parse_values_after(
                seq![TagValue::Bool(b0)],
                s.len() - ts.rest().len(),
                ts.rest(),
                total - 1,
            ));
            lemma_parse_values_next(s, seq![TagValue::Bool(b0)], ts.rest(), total - 2);
        }
        let b1 = ts.read_bool()?;
        proof {
            assert(parse_values(s, total as nat) == parse_values_after(
                seq![TagValue::Bool(b0), TagValue::Bool(b1)],
                s.len() - ts.rest().len(),
                ts.rest(),
                total - 2,
            ));
            lemma_parse_values_done(
                seq![TagValue::Bool(b0), TagValue::Bool(b1)],
                s.len() - ts.rest().len(),
                ts.rest(),
            );
        }
        Ok(Bools2 { b0, b1 })
    }

    proof fn lemma_roundtrip(&self, protocol_version: u16, rest: Seq<u8>) {
        lemma_parse_values_bytes(self.spec_values(protocol_version), rest);
    }
}

/// Three boolean values.
#[derive(Debug, Clone, PartialEq, Eq)]
pub struct Bools3 {
    /// A value of the part.
    pub b0: bool,

    /// A value of the part.
    pub b1: bool,

    /// A value of the part.
    pub b2: bool,
}

impl TagStructWrite for Bools3 {
    open spec fn spec_values(&self, protocol_version: u16) -> Seq<TagValue> {
        seq![TagValue::Bool(self.b0), TagValue::Bool(self.b1), TagValue::Bool(self.b2)]
    }

    open spec fn spec_writable(&self) -> bool {
        true
    }

    fn write(&self, w: &mut TagStructWriter, _protocol_version: u16) -> (r: Result<(), ProtocolError>) {
        w.write_bool(self.b0)?;
        w.write_bool(self.b1)?;
        w.write_bool(self.b2)?;
        proof {
            lemma_values_bytes_3(
                TagValue::Bool(self.b0),
                TagValue::Bool(self.b1),
                TagValue::Bool(self.b2),
            );
        }
        assert(w.bytes() =~= old(w).bytes() + values_bytes(self.spec_values(_protocol_version)));
        Ok(())
    }
}

impl TagStructRead for Bools3 {
    open spec fn spec_parse(s: Seq<u8>, protocol_version: u16) -> Option<(Seq<TagValue>, int)> {
        match parse_values(s, 3) {
            Some((vs, n)) => if vs[0] is Bool && vs[1] is Bool && vs[2] is Bool {
                Some((vs, n))
            } else {
                None
            },
            None => None,
        }
    }

    open spec fn spec_canonical(&self, protocol_version: u16) -> bool {
        true
    }

    open spec fn spec_encodable(&self, protocol_version: u16) -> bool {
        &&& values_wf(self.spec_values(protocol_version))
        &&& self.spec_canonical(protocol_version)
    }

    fn read(ts: &mut TagStructReader, _protocol_version: u16) -> (r: Result<Self, ProtocolError>) {
        let ghost s = ts.rest();
        let ghost total: int = 3;
        proof {
            lemma_parse_values_start(s, total);
            lemma_parse_values_next(s, Seq::empty(), ts.rest(), total - 1);
        }
        let b0 = ts.read_bool()?;
        proof {
            assert(parse_values(s, total as nat) == parse_values_after(
                seq![TagValue::Bool(b0)],
                s.len() - ts.rest().len(),
                ts.rest(),
                total - 1,
            ));
            lemma_parse_values_next(s, seq![TagValue::Bool(b0)], ts.rest(), total - 2);
        }
        let b1 = ts.read_bool()?;
        proof {
            assert(parse_values(s, total as nat) == parse_values_after(
                seq![TagValue::Bool(b0), TagValue::Bool(b1)],
                s.len() - ts.rest().len(),
                ts.rest(),
                total - 2,
            ));
            lemma_parse_values_next(
                s,
                seq![TagValue::Bool(b0), TagValue::Bool(b1)],
                ts.rest(),
                total - 3,
            );
        }
        let b2 = ts.read_bool()?;
        proof {
            assert(parse_values(s, total as nat) == parse_values_after(
                seq![TagValue::Bool(b0), TagValue::Bool(b1), TagValue::Bool(b2)],
                s.len() - ts.rest().len(),
                ts.rest(),
                total - 3,
            ));
            lemma_parse_values_done(
                seq![TagValue::Bool(b0), TagValue::Bool(b1), TagValue::Bool(b2)],
                s.len() - ts.rest().len(),
                ts.rest(),
            );
        }
        Ok(Bools3 { b0, b1, b2 })
    }

    proof fn lemma_roundtrip(&self, protocol_version: u16, rest: Seq<u8>) {
        lemma_parse_values_bytes(self.spec_values(protocol_version), rest);
    }
}

/// `vs` where `cond` holds, and no values otherwise.
pub open spec fn gated(cond: bool, vs: Seq<TagValue>) -> Seq<TagValue> {
    if cond {
        vs
    } else {
        Seq::empty()
    }
}

/// The parse `p` where `cond` holds, and nothing read otherwise.
pub open spec fn gated_parse(cond: bool, p: Option<(Seq<TagValue>, int)>) -> Option<(Seq<TagValue>, int)> {
    if cond {
        p
    } else {
        Some((Seq::empty(), 0))
    }
}

/// The number of channels of a sample spec value.
pub open spec fn channels_of(v: TagValue) -> u8 {
    match v {
        TagValue::SampleSpec(_, c, _) => c,
        _ => 0,
    }
}

/// The formats that `s` starts with: their number as a byte, then each
/// format.
pub open spec fn formats_parse(s: Seq<u8>, protocol_version: u16) -> Option<(Seq<TagValue>, int)> {
    match parse_value(s) {
        Some((TagValue::U8(c), k)) => if 0 <= k <= s.len() {
            match parse_counted::<FormatInfo>(s.skip(k), c as nat, protocol_version, Seq::empty()) {
                Some((fv, m)) => Some((seq![TagValue::U8(c)] + fv, k + m)),
                None => None,
            }
        } else {
            None
        },
        _ => None,
    }
}

/// The values of a list of formats: their number as a byte, then each
/// format.
pub open spec fn formats_values(formats: Seq<FormatInfo>, protocol_version: u16) -> Seq<TagValue> {
    seq![TagValue::U8(formats.len() as u8)] + list_values(formats, protocol_version)
}

/// Reads a list of formats: their number as a byte, then each format.
pub fn read_formats(ts: &mut TagStructReader, protocol_version: u16) -> (r: Result<Vec<FormatInfo>, ProtocolError>)
    ensures
        final(ts).version() == old(ts).version(),
        match formats_parse(old(ts).rest(), protocol_version) {
            Some((vs, n)) => (r matches Ok(f) && formats_values(f@, protocol_version) == vs
                && f@.len() <= 255) && 0 <= n <= old(ts).rest().len()
                && final(ts).rest() == old(ts).rest().skip(n),
            None => r is Err,
        },
{
    let ghost s = ts.rest();
    proof {
        lemma_parse_value_len(s);
    }
    let c = ts.read_u8()?;
    let ghost s1 = ts.rest();
    let formats = read_counted::<FormatInfo>(ts, c as u32, protocol_version)?;
    proof {
        if let Some((TagValue::U8(_), k)) = parse_value(s) {
            if let Some((_, m)) = parse_counted::<FormatInfo>(s1, c as nat, protocol_version, Seq::empty()) {
                assert(s.skip(k).skip(m) =~= s.skip(k + m));
            }
        }
    }
    Ok(formats)
}

/// Writing a list of formats appends their values.
pub fn write_formats(w: &mut TagStructWriter, formats: &Vec<FormatInfo>, protocol_version: u16) -> (r: Result<(), ProtocolError>)
    requires
        formats@.len() <= 255,
    ensures
        r == Ok::<(), ProtocolError>(()),
        final(w).bytes() == old(w).bytes() + values_bytes(formats_values(formats@, protocol_version)),
        final(w).version() == old(w).version(),
{
    w.write_u8(formats.len() as u8)?;
    let ghost b1 = w.bytes();
    let mut i: usize = 0;
    assert(formats@.take(0) =~= Seq::<FormatInfo>::empty());
    assert(w.bytes() =~= b1 + values_bytes(list_values(formats@.take(0), protocol_version)));
    while i < formats.len()
        invariant
            i <= formats@.len(),
            w.version() == old(w).version(),
            w.bytes() == b1 + values_bytes(list_values(formats@.take(i as int), protocol_version)),
        decreases formats@.len() - i,
    {
        w.write_format_info(&formats[i])?;
        proof {
            lemma_values_bytes_1(crate::protocol::serde::format_info::format_info_value(formats@[i as int]));
            crate::protocol::serde::list::lemma_list_values_push(formats@.take(i as int), formats@[i as int], protocol_version);
            assert(formats@.take(i as int).push(formats@[i as int]) =~= formats@.take(i + 1));
            lemma_values_bytes_concat(
                list_values(formats@.take(i as int), protocol_version),
                formats@[i as int].spec_values(protocol_version),
            );
        }
        i = i + 1;
        assert(w.bytes() =~= b1 + values_bytes(list_values(formats@.take(i as int), protocol_version)));
    }
    assert(formats@.take(i as int) =~= formats@);
    proof {
        lemma_values_bytes_1(TagValue::U8(formats@.len() as u8));
        lemma_values_bytes_concat(
            seq![TagValue::U8(formats@.len() as u8)],
            list_values(formats@, protocol_version),
        );
    }
    assert(w.bytes() =~= old(w).bytes() + values_bytes(formats_values(formats@, protocol_version)));
    Ok(())
}

/// Parsing the bytes of a list of formats gives back their values.
pub proof fn lemma_formats_roundtrip(formats: Seq<FormatInfo>, protocol_version: u16, rest: Seq<u8>)
    requires
        formats.len() <= 255,
        forall|i: int| 0 <= i < formats.len() ==> (#[trigger] formats[i]).spec_encodable(protocol_version),
    ensures
        formats_parse(values_bytes(formats_values(formats, protocol_version)) + rest, protocol_version)
            == Some((formats_values(formats, protocol_version), values_bytes(formats_values(formats, protocol_version)).len() as int)),
{
    let c = formats.len() as u8;
    let lv = list_values(formats, protocol_version);
    lemma_values_bytes_1(TagValue::U8(c));
    lemma_values_bytes_concat(seq![TagValue::U8(c)], lv);
    let s = values_bytes(formats_values(formats, protocol_version)) + rest;
    assert(s =~= value_bytes(TagValue::U8(c)) + (values_bytes(lv) + rest));
    lemma_parse_value_bytes(TagValue::U8(c), values_bytes(lv) + rest);
    assert(s.skip(2) =~= values_bytes(lv) + rest);
    lemma_parse_counted_bytes(formats, protocol_version, Seq::empty(), rest);
    assert(Seq::<TagValue>::empty() + lv =~= lv);
}

/// Both parts of a concatenation of values are well formed where the
/// whole is.
pub proof fn lemma_values_wf_concat(a: Seq<TagValue>, b: Seq<TagValue>)
    requires
        values_wf(a + b),
    ensures
        values_wf(a),
        values_wf(b),
{
    assert forall|i: int| 0 <= i < a.len() implies wf_value(#[trigger] a[i]) by {
        assert((a + b)[i] == a[i]);
    }
    assert forall|i: int| 0 <= i < b.len() implies wf_value(#[trigger] b[i]) by {
        assert((a + b)[a.len() + i] == b[i]);
    }
}

/// Whether a stream starts muted, as the boolean sent for it.
pub open spec fn start_muted_value(f: StreamFlags) -> bool {
    match f.start_muted {
        Some(b) => b,
        None => false,
    }
}

/// The bytes of a part followed by the rest are the part's bytes, then
/// the rest's; taking them off leaves the rest.
pub proof fn lemma_seg_bytes(a: Seq<TagValue>, t: Seq<TagValue>, rest: Seq<u8>)
    ensures
        values_bytes(a + t) + rest == values_bytes(a) + (values_bytes(t) + rest),
        (values_bytes(a) + (values_bytes(t) + rest)).skip(values_bytes(a).len() as int) == values_bytes(t) + rest,
{
    lemma_values_bytes_concat(a, t);
    assert(values_bytes(a + t) + rest =~= values_bytes(a) + (values_bytes(t) + rest));
    assert((values_bytes(a) + (values_bytes(t) + rest)).skip(values_bytes(a).len() as int) =~= values_bytes(t) + rest);
}

/// Reads two boolean values where `cond` holds; gives `d0` and `d1`
/// otherwise.
pub fn read_gated_bools2(ts: &mut TagStructReader, cond: bool, pv: u16, d0: bool, d1: bool) -> (r: Result<(bool, bool), ProtocolError>)
    ensures
        final(ts).version() == old(ts).version(),
        match gated_parse(cond, Bools2::spec_parse(old(ts).rest(), pv)) {
            Some((v, k)) => (r matches Ok((a, b)) && v == gated(cond, seq![TagValue::Bool(a), TagValue::Bool(b)])
                && (!cond ==> a == d0 && b == d1)) && 0 <= k <= old(ts).rest().len()
                && final(ts).rest() == old(ts).rest().skip(k),
            None => r is Err,
        },
{
    if cond {
        let g = Bools2::read(ts, pv)?;
        Ok((g.b0, g.b1))
    } else {
        assert(old(ts).rest().skip(0) =~= old(ts).rest());
        Ok((d0, d1))
    }
}

/// Reads three boolean values where `cond` holds; gives `d0`, `d1` and
/// `d2` otherwise.
pub fn read_gated_bools3(ts: &mut TagStructReader, cond: bool, pv: u16, d0: bool, d1: bool, d2: bool) -> (r: Result<
    (bool, bool, bool),
    ProtocolError,
>)
    ensures
        final(ts).version() == old(ts).version(),
        match gated_parse(cond, Bools3::spec_parse(old(ts).rest(), pv)) {
            Some((v, k)) => (r matches Ok((a, b, c)) && v == gated(
                cond,
                seq![TagValue::Bool(a), TagValue::Bool(b), TagValue::Bool(c)],
            ) && (!cond ==> a == d0 && b == d1 && c == d2)) && 0 <= k <= old(ts).rest().len()
                && final(ts).rest() == old(ts).rest().skip(k),
            None => r is Err,
        },
{
    if cond {
        let g = Bools3::read(ts, pv)?;
        Ok((g.b0, g.b1, g.b2))
    } else {
        assert(old(ts).rest().skip(0) =~= old(ts).rest());
        Ok((d0, d1, d2))
    }
}

/// Reads one boolean value where `cond` holds; gives `false` otherwise.
pub fn read_gated_bool(ts: &mut TagStructReader, cond: bool, pv: u16) -> (r: Result<bool, ProtocolError>)
    ensures
        final(ts).version() == old(ts).version(),
        match gated_parse(cond, Bools1::spec_parse(old(ts).rest(), pv)) {
            Some((v, k)) => (r matches Ok(a) && v == gated(cond, seq![TagValue::Bool(a)]) && (!cond ==> !a))
                && 0 <= k <= old(ts).rest().len() && final(ts).rest() == old(ts).rest().skip(k),
            None => r is Err,
        },
{
    if cond {
        let g = Bools1::read(ts, pv)?;
        Ok(g.b0)
    } else {
        assert(old(ts).rest().skip(0) =~= old(ts).rest());
        Ok(false)
    }
}

/// Reads a list of formats where `cond` holds; gives none otherwise.
pub fn read_gated_formats(ts: &mut TagStructReader, cond: bool, pv: u16) -> (r: Result<Vec<FormatInfo>, ProtocolError>)
    ensures
        final(ts).version() == old(ts).version(),
        match gated_parse(cond, formats_parse(old(ts).rest(), pv)) {
            Some((v, k)) => (r matches Ok(f) && v == gated(cond, formats_values(f@, pv)) && f@.len() <= 255
                && (!cond ==> f@.len() == 0)) && 0 <= k <= old(ts).rest().len()
                && final(ts).rest() == old(ts).rest().skip(k),
            None => r is Err,
        },
{
    if cond {
        read_formats(ts, pv)
    } else {
        assert(old(ts).rest().skip(0) =~= old(ts).rest());
        Ok(Vec::new())
    }
}

/// Appending the bytes of more values to the bytes of values appends the
/// values.
pub proof fn lemma_append_values(b: Seq<u8>, acc: Seq<TagValue>, v: Seq<TagValue>)
    ensures
        b + values_bytes(acc) + values_bytes(v) == b + values_bytes(acc + v),
        values_bytes(acc + Seq::<TagValue>::empty()) == values_bytes(acc),
        b + values_bytes(acc) + values_bytes(Seq::<TagValue>::empty()) == b + values_bytes(acc),
{
    lemma_values_bytes_concat(acc, v);
    vstd::seq_lib::lemma_concat_associative(b, values_bytes(acc), values_bytes(v));
    assert(acc + Seq::<TagValue>::empty() =~= acc);
    assert(values_bytes(Seq::<TagValue>::empty()) =~= Seq::<u8>::empty());
    assert(b + values_bytes(acc) + Seq::<u8>::empty() =~= b + values_bytes(acc));
}

/// Reads the values of record stream parameters after the formats where
/// `cond` holds; gives an empty volume and no flags otherwise.
pub fn read_gated_rec_tail(ts: &mut TagStructReader, cond: bool, pv: u16) -> (r: Result<RecTail, ProtocolError>)
    ensures
        final(ts).version() == old(ts).version(),
        match gated_parse(cond, RecTail::spec_parse(old(ts).rest(), pv)) {
            Some((v, k)) => (r matches Ok(t) && v == gated(cond, t.spec_values(pv)) && (!cond ==> t.cvolume@.len()
                == 0 && !t.start_muted && !t.cvolume_set && !t.start_muted_set && !t.relative_volume
                && !t.passthrough)) && 0 <= k <= old(ts).rest().len() && final(ts).rest()
                == old(ts).rest().skip(k),
            None => r is Err,
        },
{
    if cond {
        RecTail::read(ts, pv)
    } else {
        assert(old(ts).rest().skip(0) =~= old(ts).rest());
        Ok(
            RecTail {
                cvolume: ChannelVolume::empty(),
                start_muted: false,
                cvolume_set: false,
                start_muted_set: false,
                relative_volume: false,
                passthrough: false,
            },
        )
    }
}


/// Formats as the information about a device carries them: their number as
/// a byte, then each format.
#[derive(Debug, Clone, PartialEq, Eq)]
pub struct FormatList {
    /// The formats.
    pub formats: Vec<FormatInfo>,
}

impl TagStructWrite for FormatList {
    open spec fn spec_values(&self, protocol_version: u16) -> Seq<TagValue> {
        formats_values(self.formats@, protocol_version)
    }

    open spec fn spec_writable(&self) -> bool {
        self.formats@.len() <= 255
    }

    fn write(&self, w: &mut TagStructWriter, protocol_version: u16) -> (r: Result<(), ProtocolError>) {
        write_formats(w, &self.formats, protocol_version)
    }
}

impl TagStructRead for FormatList {
    open spec fn spec_parse(s: Seq<u8>, protocol_version: u16) -> Option<(Seq<TagValue>, int)> {
        formats_parse(s, protocol_version)
    }

    open spec fn spec_canonical(&self, protocol_version: u16) -> bool {
        true
    }

    open spec fn spec_encodable(&self, protocol_version: u16) -> bool {
        &&& self.formats@.len() <= 255
        &&& forall|i: int| 0 <= i < self.formats@.len() ==> (#[trigger] self.formats@[i]).spec_encodable(protocol_version)
    }

    fn read(ts: &mut TagStructReader, protocol_version: u16) -> (r: Result<Self, ProtocolError>) {
        let formats = read_formats(ts, protocol_version)?;
        Ok(FormatList { formats })
    }

    proof fn lemma_roundtrip(&self, protocol_version: u16, rest: Seq<u8>) {
        lemma_formats_roundtrip(self.formats@, protocol_version, rest);
    }
}


/// The values a [`StreamHead`] is sent as, position by position: whatever a read
/// gives from the values `vs` holds each field from its own position.
pub proof fn lemma_stream_head_layout(q: StreamHead, vs: Seq<TagValue>, protocol_version: u16)
    requires
        q.spec_values(protocol_version) == vs,
    ensures
        vs == (
            seq![
                    sample_spec_value(q.sample_spec),
                    TagValue::ChannelMap(q.channel_map@),
                    index_value(q.device_index),
                    string_value(opt_cstr_view(q.device_name)),
                    TagValue::U32(q.max_length),
                    TagValue::Bool(q.start_corked),
                ]
        ),
{
}

/// The values an [`U32s1`] is sent as, position by position: whatever a read
/// gives from the values `vs` holds each field from its own position.
pub proof fn lemma_u32s1_layout(q: U32s1, vs: Seq<TagValue>, protocol_version: u16)
    requires
        q.spec_values(protocol_version) == vs,
    ensures
        vs == (
            seq![TagValue::U32(q.u0)]
        ),
{
}

/// The values an [`U32s4`] is sent as, position by position: whatever a read
/// gives from the values `vs` holds each field from its own position.
pub proof fn lemma_u32s4_layout(q: U32s4, vs: Seq<TagValue>, protocol_version: u16)
    requires
        q.spec_values(protocol_version) == vs,
    ensures
        vs == (
            seq![
                    TagValue::U32(q.u0),
                    TagValue::U32(q.u1),
                    TagValue::U32(q.u2),
                    TagValue::U32(q.u3),
                ]
        ),
{
}

/// The values a [`CVol1`] is sent as, position by position: whatever a read
/// gives from the values `vs` holds each field from its own position.
pub proof fn lemma_c_vol1_layout(q: CVol1, vs: Seq<TagValue>, protocol_version: u16)
    requires
        q.spec_values(protocol_version) == vs,
    ensures
        vs == (
            seq![TagValue::CVolume(q.cvolume@)]
        ),
{
}

/// The values a [`Bools4`] is sent as, position by position: whatever a read
/// gives from the values `vs` holds each field from its own position.
pub proof fn lemma_bools4_layout(q: Bools4, vs: Seq<TagValue>, protocol_version: u16)
    requires
        q.spec_values(protocol_version) == vs,
    ensures
        vs == (
            seq![
                    TagValue::Bool(q.b0),
                    TagValue::Bool(q.b1),
                    TagValue::Bool(q.b2),
                    TagValue::Bool(q.b3),
                ]
        ),
{
}

/// The values a [`PlayFlagsProps`] is sent as, position by position: whatever a read
/// gives from the values `vs` holds each field from its own position.
pub proof fn lemma_play_flags_props_layout(q: PlayFlagsProps, vs: Seq<TagValue>, protocol_version: u16)
    requires
        q.spec_values(protocol_version) == vs,
    ensures
        vs == (
            seq![TagValue::Bool(q.b0), TagValue::Bool(q.b1), TagValue::PropList(q.props@)]
        ),
{
}

/// The values a [`RecFlagsProps`] is sent as, position by position: whatever a read
/// gives from the values `vs` holds each field from its own position.
pub proof fn lemma_rec_flags_props_layout(q: RecFlagsProps, vs: Seq<TagValue>, protocol_version: u16)
    requires
        q.spec_values(protocol_version) == vs,
    ensures
        vs == (
            seq![
                    TagValue::Bool(q.b0),
                    TagValue::Bool(q.b1),
                    TagValue::PropList(q.props@),
                    TagValue::Bool(q.b2),
                ]
        ),
{
}

/// The values a [`RecTail`] is sent as, position by position: whatever a read
/// gives from the values `vs` holds each field from its own position.
pub proof fn lemma_rec_tail_layout(q: RecTail, vs: Seq<TagValue>, protocol_version: u16)
    requires
        q.spec_values(protocol_version) == vs,
    ensures
        vs == (
            seq![
                    TagValue::CVolume(q.cvolume@),
                    TagValue::Bool(q.start_muted),
                    TagValue::Bool(q.cvolume_set),
                    TagValue::Bool(q.start_muted_set),
                    TagValue::Bool(q.relative_volume),
                    TagValue::Bool(q.passthrough),
                ]
        ),
{
}

/// The values a [`Bools1`] is sent as, position by position: whatever a read
/// gives from the values `vs` holds each field from its own position.
pub proof fn lemma_bools1_layout(q: Bools1, vs: Seq<TagValue>, protocol_version: u16)
    requires
        q.spec_values(protocol_version) == vs,
    ensures
        vs == (
            seq![TagValue::Bool(q.b0)]
        ),
{
}

/// The values a [`Bools2`] is sent as, position by position: whatever a read
/// gives from the values `vs` holds each field from its own position.
pub proof fn lemma_bools2_layout(q: Bools2, vs: Seq<TagValue>, protocol_version: u16)
    requires
        q.spec_values(protocol_version) == vs,
    ensures
        vs == (
            seq![TagValue::Bool(q.b0), TagValue::Bool(q.b1)]
        ),
{
}

/// The values a [`Bools3`] is sent as, position by position: whatever a read
/// gives from the values `vs` holds each field from its own position.
pub proof fn lemma_bools3_layout(q: Bools3, vs: Seq<TagValue>, protocol_version: u16)
    requires
        q.spec_values(protocol_version) == vs,
    ensures
        vs == (
            seq![TagValue::Bool(q.b0), TagValue::Bool(q.b1), TagValue::Bool(q.b2)]
        ),
{
}

} // verus!
