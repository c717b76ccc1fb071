//! Information about the source outputs of the server.

use vstd::prelude::*;

use crate::protocol::error::ProtocolError;
use super::CommandReply;
use super::stream_params::{Bools1, gated, gated_parse};
use crate::protocol::serde::wire::{lemma_values_bytes_concat, lemma_values_bytes_push};
use crate::protocol::serde::fields::{lemma_values_bytes_5, lemma_values_bytes_7};
use crate::protocol::serde::wire::{
    TagValue, lemma_parse_values_bytes, lemma_parse_values_done, lemma_parse_values_next,
    lemma_parse_values_start, parse_values, parse_values_after, values_bytes, values_wf,
};
use crate::protocol::serde::{
    TagStructRead, TagStructReader, TagStructWrite, TagStructWriter, index_encodable, index_value,
    opt_cstr_view, string_value,
};
use crate::protocol::serde::channel_map::{ChannelMap, lemma_channel_map_valid, positions_valid};
use crate::protocol::serde::cstr::CString;
use crate::protocol::serde::format_info::{FormatEncoding, FormatInfo, encoding_of_code, format_info_value, lemma_encoding_roundtrip};
use crate::protocol::serde::props::Props;
use crate::protocol::serde::sample_spec::{SampleSpec, lemma_sample_format_roundtrip, sample_format_of_code, sample_spec_value};
use crate::protocol::serde::volume::ChannelVolume;

verus! {

/// The state of a source output, in reply to
/// [`super::Command::GetSourceOutputInfo`].
#[derive(Debug, Clone, PartialEq, Eq)]
pub struct SourceOutputInfo {
    /// The ID of the source output.
    pub index: u32,

    /// The name of the source output.
    pub name: CString,

    /// The ID of the owning module.
    pub owner_module_index: Option<u32>,

    /// The ID of the owning client.
    pub client_index: Option<u32>,

    /// The ID of the source the output is connected to.
    pub source_index: u32,

    /// The format of the samples that the output expects.
    pub sample_spec: SampleSpec,

    /// The positions of the channels that the output expects.
    pub channel_map: ChannelMap,

    /// The volume of the output; sent from protocol version 22 on, and
    /// empty before.
    pub cvolume: ChannelVolume,

    /// The latency due to buffering, in microseconds.
    pub buffer_latency: u64,

    /// The latency of the source device, in microseconds.
    pub source_latency: u64,

    /// The resampling method used, if any.
    pub resample_method: Option<CString>,

    /// The name of the driver this output belongs to.
    pub driver: Option<CString>,

    /// The properties of the output.
    pub props: Props,

    /// Whether the output is muted; sent from protocol version 22 on.
    pub muted: bool,

    /// Whether the output is corked; sent from protocol version 19 on.
    pub corked: bool,

    /// Whether the volume information is valid; sent from protocol version 22
    /// on.
    pub has_volume: bool,

    /// Whether the client can set the volume; sent from protocol version 22
    /// on.
    pub volume_writable: bool,

    /// The format that the output expects; sent from protocol version 22 on,
    /// and of any encoding before.
    pub format: FormatInfo,
}

/// The part of a [`SourceOutputInfo`] up to its channel map.
pub open spec fn source_output_head(i: SourceOutputInfo) -> SourceOutputHead {
    SourceOutputHead {
        index: i.index,
        name: i.name,
        owner_module_index: i.owner_module_index,
        client_index: i.client_index,
        source_index: i.source_index,
        sample_spec: i.sample_spec,
        channel_map: i.channel_map,
    }
}

/// The part of a [`SourceOutputInfo`] from its latencies to its properties.
pub open spec fn source_output_mid(i: SourceOutputInfo) -> SourceOutputMid {
    SourceOutputMid {
        buffer_latency: i.buffer_latency,
        source_latency: i.source_latency,
        resample_method: i.resample_method,
        driver: i.driver,
        props: i.props,
    }
}

/// The corked flag of a [`SourceOutputInfo`].
pub open spec fn source_output_corked(i: SourceOutputInfo) -> Bools1 {
    Bools1 { b0: i.corked }
}

/// The part of a [`SourceOutputInfo`] sent from protocol version 22 on.
pub open spec fn source_output_tail(i: SourceOutputInfo) -> SourceOutputTail {
    SourceOutputTail {
        cvolume: i.cvolume,
        muted: i.muted,
        has_volume: i.has_volume,
        volume_writable: i.volume_writable,
        format: i.format,
    }
}

/// Writes the part of a [`SourceOutputInfo`] up to its channel map.
fn write_source_output_head(i: &SourceOutputInfo, w: &mut TagStructWriter, protocol_version: u16) -> (r: Result<(), ProtocolError>)
    ensures
        r == Ok::<(), ProtocolError>(()),
        final(w).bytes() == old(w).bytes() + values_bytes(source_output_head(*i).spec_values(protocol_version)),
        final(w).version() == old(w).version(),
{
    let ghost b0 = w.bytes();
    let ghost mut acc: Seq<TagValue> = Seq::empty();
    assert(w.bytes() =~= b0 + values_bytes(acc));
    w.write_u32(i.index)?;
    proof {
        lemma_values_bytes_push(acc, TagValue::U32(i.index));
        assert(w.bytes() =~= b0 + values_bytes(acc.push(TagValue::U32(i.index))));
        acc = acc.push(TagValue::U32(i.index));
    }
    w.write_string(Some(&i.name))?;
    proof {
        lemma_values_bytes_push(acc, TagValue::Str(i.name@));
        assert(w.bytes() =~= b0 + values_bytes(acc.push(TagValue::Str(i.name@))));
        acc = acc.push(TagValue::Str(i.name@));
    }
    w.write_index(i.owner_module_index)?;
    proof {
        lemma_values_bytes_push(acc, index_value(i.owner_module_index));
        assert(w.bytes() =~= b0 + values_bytes(acc.push(index_value(i.owner_module_index))));
        acc = acc.push(index_value(i.owner_module_index));
    }
    w.write_index(i.client_index)?;
    proof {
        lemma_values_bytes_push(acc, index_value(i.client_index));
        assert(w.bytes() =~= b0 + values_bytes(acc.push(index_value(i.client_index))));
        acc = acc.push(index_value(i.client_index));
    }
    w.write_u32(i.source_index)?;
    proof {
        lemma_values_bytes_push(acc, TagValue::U32(i.source_index));
        assert(w.bytes() =~= b0 + values_bytes(acc.push(TagValue::U32(i.source_index))));
        acc = acc.push(TagValue::U32(i.source_index));
    }
    w.write_sample_spec(i.sample_spec)?;
    proof {
        lemma_values_bytes_push(acc, sample_spec_value(i.sample_spec));
        assert(w.bytes() =~= b0 + values_bytes(acc.push(sample_spec_value(i.sample_spec))));
        acc = acc.push(sample_spec_value(i.sample_spec));
    }
    w.write_channel_map(&i.channel_map)?;
    proof {
        lemma_values_bytes_push(acc, TagValue::ChannelMap(i.channel_map@));
        assert(w.bytes() =~= b0 + values_bytes(acc.push(TagValue::ChannelMap(i.channel_map@))));
        acc = acc.push(TagValue::ChannelMap(i.channel_map@));
    }
    assert(acc =~= source_output_head(*i).spec_values(protocol_version));
    Ok(())
}

/// Writes the part of a [`SourceOutputInfo`] from its latencies to its properties.
fn write_source_output_mid(i: &SourceOutputInfo, w: &mut TagStructWriter, protocol_version: u16) -> (r: Result<(), ProtocolError>)
    ensures
        r == Ok::<(), ProtocolError>(()),
        final(w).bytes() == old(w).bytes() + values_bytes(source_output_mid(*i).spec_values(protocol_version)),
        final(w).version() == old(w).version(),
{
    let ghost b0 = w.bytes();
    let ghost mut acc: Seq<TagValue> = Seq::empty();
    assert(w.bytes() =~= b0 + values_bytes(acc));
    w.write_usec(i.buffer_latency)?;
    proof {
        lemma_values_bytes_push(acc, TagValue::Usec(i.buffer_latency));
        assert(w.bytes() =~= b0 + values_bytes(acc.push(TagValue::Usec(i.buffer_latency))));
        acc = acc.push(TagValue::Usec(i.buffer_latency));
    }
    w.write_usec(i.source_latency)?;
    proof {
        lemma_values_bytes_push(acc, TagValue::Usec(i.source_latency));
        assert(w.bytes() =~= b0 + values_bytes(acc.push(TagValue::Usec(i.source_latency))));
        acc = acc.push(TagValue::Usec(i.source_latency));
    }
    w.write_string(i.resample_method.as_ref())?;
    proof {
        lemma_values_bytes_push(acc, string_value(opt_cstr_view(i.resample_method)));
        assert(w.bytes() =~= b0 + values_bytes(acc.push(string_value(opt_cstr_view(i.resample_method)))));
        acc = acc.push(string_value(opt_cstr_view(i.resample_method)));
    }
    w.write_string(i.driver.as_ref())?;
    proof {
        lemma_values_bytes_push(acc, string_value(opt_cstr_view(i.driver)));
        assert(w.bytes() =~= b0 + values_bytes(acc.push(string_value(opt_cstr_view(i.driver)))));
        acc = acc.push(string_value(opt_cstr_view(i.driver)));
    }
    w.write_props(&i.props)?;
    proof {
        lemma_values_bytes_push(acc, TagValue::PropList(i.props@));
        assert(w.bytes() =~= b0 + values_bytes(acc.push(TagValue::PropList(i.props@))));
        acc = acc.push(TagValue::PropList(i.props@));
    }
    assert(acc =~= source_output_mid(*i).spec_values(protocol_version));
    Ok(())
}

/// Writes the corked flag of a [`SourceOutputInfo`].
fn write_source_output_corked(i: &SourceOutputInfo, w: &mut TagStructWriter, protocol_version: u16) -> (r: Result<(), ProtocolError>)
    ensures
        r == Ok::<(), ProtocolError>(()),
        final(w).bytes() == old(w).bytes() + values_bytes(source_output_corked(*i).spec_values(protocol_version)),
        final(w).version() == old(w).version(),
{
    let ghost b0 = w.bytes();
    let ghost mut acc: Seq<TagValue> = Seq::empty();
    assert(w.bytes() =~= b0 + values_bytes(acc));
    w.write_bool(i.corked)?;
    proof {
        lemma_values_bytes_push(acc, TagValue::Bool(i.corked));
        assert(w.bytes() =~= b0 + values_bytes(acc.push(TagValue::Bool(i.corked))));
        acc = acc.push(TagValue::Bool(i.corked));
    }
    assert(acc =~= source_output_corked(*i).spec_values(protocol_version));
    Ok(())
}

/// Writes the part of a [`SourceOutputInfo`] sent from protocol version 22 on.
fn write_source_output_tail(i: &SourceOutputInfo, w: &mut TagStructWriter, protocol_version: u16) -> (r: Result<(), ProtocolError>)
    ensures
        r == Ok::<(), ProtocolError>(()),
        final(w).bytes() == old(w).bytes() + values_bytes(source_output_tail(*i).spec_values(protocol_version)),
        final(w).version() == old(w).version(),
{
    let ghost b0 = w.bytes();
    let ghost mut acc: Seq<TagValue> = Seq::empty();
    assert(w.bytes() =~= b0 + values_bytes(acc));
    w.write_cvolume(&i.cvolume)?;
    proof {
        lemma_values_bytes_push(acc, TagValue::CVolume(i.cvolume@));
        assert(w.bytes() =~= b0 + values_bytes(acc.push(TagValue::CVolume(i.cvolume@))));
        acc = acc.push(TagValue::CVolume(i.cvolume@));
    }
    w.write_bool(i.muted)?;
    proof {
        lemma_values_bytes_push(acc, TagValue::Bool(i.muted));
        assert(w.bytes() =~= b0 + values_bytes(acc.push(TagValue::Bool(i.muted))));
        acc = acc.push(TagValue::Bool(i.muted));
    }
    w.write_bool(i.has_volume)?;
    proof {
        lemma_values_bytes_push(acc, TagValue::Bool(i.has_volume));
        assert(w.bytes() =~= b0 + values_bytes(acc.push(TagValue::Bool(i.has_volume))));
        acc = acc.push(TagValue::Bool(i.has_volume));
    }
    w.write_bool(i.volume_writable)?;
    proof {
        lemma_values_bytes_push(acc, TagValue::Bool(i.volume_writable));
        assert(w.bytes() =~= b0 + values_bytes(acc.push(TagValue::Bool(i.volume_writable))));
        acc = acc.push(TagValue::Bool(i.volume_writable));
    }
    w.write_format_info(&i.format)?;
    proof {
        lemma_values_bytes_push(acc, format_info_value(i.format));
        assert(w.bytes() =~= b0 + values_bytes(acc.push(format_info_value(i.format))));
        acc = acc.push(format_info_value(i.format));
    }
    assert(acc =~= source_output_tail(*i).spec_values(protocol_version));
    Ok(())
}

impl TagStructWrite for SourceOutputInfo {
    open spec fn spec_values(&self, protocol_version: u16) -> Seq<TagValue> {
        source_output_head(*self).spec_values(protocol_version)
            + source_output_mid(*self).spec_values(protocol_version)
            + gated(protocol_version >= 19, source_output_corked(*self).spec_values(protocol_version))
            + gated(protocol_version >= 22, source_output_tail(*self).spec_values(protocol_version))
    }

    open spec fn spec_writable(&self) -> bool {
        true
    }

    #[verifier::rlimit(100)]
    #[verifier::spinoff_prover]
    fn write(&self, w: &mut TagStructWriter, protocol_version: u16) -> (r: Result<(), ProtocolError>) {
        let ghost b0 = w.bytes();
        let ghost mut acc: Seq<TagValue> = Seq::empty();
        assert(w.bytes() =~= b0 + values_bytes(acc));
        let ghost pvs = source_output_head(*self).spec_values(protocol_version);
        write_source_output_head(self, w, protocol_version)?;
        proof {
            lemma_values_bytes_concat(acc, pvs);
            assert(w.bytes() =~= b0 + values_bytes(acc + pvs));
            acc = acc + pvs;
        }
        let ghost pvs = source_output_mid(*self).spec_values(protocol_version);
        write_source_output_mid(self, w, protocol_version)?;
        proof {
            lemma_values_bytes_concat(acc, pvs);
            assert(w.bytes() =~= b0 + values_bytes(acc + pvs));
            acc = acc + pvs;
        }
        if protocol_version >= 19 {
            let ghost pvs = source_output_corked(*self).spec_values(protocol_version);
            write_source_output_corked(self, w, protocol_version)?;
            proof {
                lemma_values_bytes_concat(acc, pvs);
                assert(w.bytes() =~= b0 + values_bytes(acc + pvs));
                acc = acc + pvs;
            }
        }
        if protocol_version >= 22 {
            let ghost pvs = source_output_tail(*self).spec_values(protocol_version);
            write_source_output_tail(self, w, protocol_version)?;
            proof {
                lemma_values_bytes_concat(acc, pvs);
                assert(w.bytes() =~= b0 + values_bytes(acc + pvs));
                acc = acc + pvs;
            }
        }
        assert(acc =~= self.spec_values(protocol_version));
        assert(w.bytes() =~= old(w).bytes() + values_bytes(self.spec_values(protocol_version)));
        Ok(())
    }
}

impl TagStructRead for SourceOutputInfo {
    open spec fn spec_parse(s: Seq<u8>, protocol_version: u16) -> Option<(Seq<TagValue>, int)> {
        match SourceOutputHead::spec_parse(s.skip(0), protocol_version) {
            Some((v0, n0)) => 
                match SourceOutputMid::spec_parse(s.skip(n0), protocol_version) {
                    Some((v1, n1)) => 
                        match gated_parse(protocol_version >= 19, Bools1::spec_parse(s.skip(n0 + n1), protocol_version)) {
                            Some((v2, n2)) => 
                                match gated_parse(protocol_version >= 22, SourceOutputTail::spec_parse(s.skip(n0 + n1 + n2), protocol_version)) {
                                    Some((v3, n3)) => 
                                        Some((v0 + v1 + v2 + v3, n0 + n1 + n2 + n3)),
                                    None => None,
                                },
                            None => None,
                        },
                    None => None,
                },
            None => None,
        }
    }

    open spec fn spec_canonical(&self, protocol_version: u16) -> bool {
        (!(protocol_version >= 19) ==> !self.corked)
        && (!(protocol_version >= 22) ==> self.cvolume@.len() == 0 && !self.muted && !self.has_volume && !self.volume_writable
            && self.format.encoding == FormatEncoding::Any && self.format.props@.len() == 0)
    }

    open spec fn spec_encodable(&self, protocol_version: u16) -> bool {
        &&& source_output_head(*self).spec_encodable(protocol_version)
        &&& source_output_mid(*self).spec_encodable(protocol_version)
        &&& (protocol_version >= 19 ==> source_output_corked(*self).spec_encodable(protocol_version))
        &&& (protocol_version >= 22 ==> source_output_tail(*self).spec_encodable(protocol_version))
        &&& self.spec_canonical(protocol_version)
    }

    #[verifier::rlimit(100)]
    #[verifier::spinoff_prover]
    fn read(ts: &mut TagStructReader, protocol_version: u16) -> (r: Result<Self, ProtocolError>) {
        let ghost s = ts.rest();
        proof {
            assert(s.skip(0) =~= s);
        }
        let ghost s0 = ts.rest();
        let p0 = SourceOutputHead::read(ts, protocol_version)?;
        proof {
            assert(ts.rest() =~= s.skip(s.len() - ts.rest().len()));
        }
        let ghost g0 = p0;
        let ghost s1 = ts.rest();
        let p1 = SourceOutputMid::read(ts, protocol_version)?;
        proof {
            assert(ts.rest() =~= s.skip(s.len() - ts.rest().len()));
        }
        let ghost g1 = p1;
        let ghost s2 = ts.rest();
        let p2 = if protocol_version >= 19 {
            Bools1::read(ts, protocol_version)?
        } else {
            proof {
                assert(s2.skip(0) =~= s2);
            }
            Bools1 { b0: false }
        };
        proof {
            assert(ts.rest() =~= s.skip(s.len() - ts.rest().len()));
        }
        let ghost g2 = p2;
        proof {
            assert(ts.rest() =~= s.skip(s.len() - ts.rest().len()));
        }
        let ghost g2 = p2;
        let ghost s3 = ts.rest();
        let p3 = if protocol_version >= 22 {
            SourceOutputTail::read(ts, protocol_version)?
        } else {
            proof {
                assert(s3.skip(0) =~= s3);
            }
            SourceOutputTail {
                cvolume: ChannelVolume::default(),
                muted: false,
                has_volume: false,
                volume_writable: false,
                format: FormatInfo::new(FormatEncoding::Any),
            }
        };
        proof {
            assert(ts.rest() =~= s.skip(s.len() - ts.rest().len()));
        }
        let ghost g3 = p3;
        proof {
            assert(ts.rest() =~= s.skip(s.len() - ts.rest().len()));
        }
        let ghost g3 = p3;
        let info = SourceOutputInfo {
            index: p0.index,
            name: p0.name,
            owner_module_index: p0.owner_module_index,
            client_index: p0.client_index,
            source_index: p0.source_index,
            sample_spec: p0.sample_spec,
            channel_map: p0.channel_map,
            cvolume: p3.cvolume,
            buffer_latency: p1.buffer_latency,
            source_latency: p1.source_latency,
            resample_method: p1.resample_method,
            driver: p1.driver,
            props: p1.props,
            muted: p3.muted,
            corked: p2.b0,
            has_volume: p3.has_volume,
            volume_writable: p3.volume_writable,
            format: p3.format,
        };
        proof {
            assert(s.skip(0) =~= s);
            assert(source_output_head(info) == g0);
            assert(source_output_mid(info) == g1);
            assert(source_output_corked(info) == g2);
            assert(source_output_tail(info) == g3);
            let ghost_n = s.len() - ts.rest().len();
            assert(s1 =~= s.skip(s.len() - s1.len()));
            assert(s2 =~= s.skip(s.len() - s2.len()));
            assert(s3 =~= s.skip(s.len() - s3.len()));
            assert(ts.rest() =~= s.skip(ghost_n));
        }
        Ok(info)
    }

    #[verifier::rlimit(100)]
    #[verifier::spinoff_prover]
    proof fn lemma_roundtrip(&self, protocol_version: u16, rest: Seq<u8>) {
        let q0 = source_output_head(*self);
        let v0 = q0.spec_values(protocol_version);
        let q1 = source_output_mid(*self);
        let v1 = q1.spec_values(protocol_version);
        let q2 = source_output_corked(*self);
        let v2 = gated(protocol_version >= 19, q2.spec_values(protocol_version));
        let q3 = source_output_tail(*self);
        let v3 = gated(protocol_version >= 22, q3.spec_values(protocol_version));
        assert(self.spec_values(protocol_version) == v0 + v1 + v2 + v3);
        let t3 = values_bytes(v3) + rest;
        let t2 = values_bytes(v2) + t3;
        let t1 = values_bytes(v1) + t2;
        let t0 = values_bytes(v0) + t1;
        lemma_values_bytes_concat(v0, v1);
        lemma_values_bytes_concat(v0 + v1, v2);
        lemma_values_bytes_concat(v0 + v1 + v2, v3);
        assert(values_bytes(self.spec_values(protocol_version)) + rest =~= t0);
        let o0: int = 0;
        assert(t0.skip(o0) =~= t0);
        q0.lemma_roundtrip(protocol_version, t1);
        let o1: int = o0 + values_bytes(v0).len();
        assert(t0.skip(o1) =~= t1);
        q1.lemma_roundtrip(protocol_version, t2);
        let o2: int = o1 + values_bytes(v1).len();
        assert(t0.skip(o2) =~= t2);
        if protocol_version >= 19 {
            q2.lemma_roundtrip(protocol_version, t3);
        }
        let o3: int = o2 + values_bytes(v2).len();
        assert(t0.skip(o3) =~= t3);
        if protocol_version >= 22 {
            q3.lemma_roundtrip(protocol_version, rest);
        }
        let o4: int = o3 + values_bytes(v3).len();
        assert(t0.skip(o4) =~= rest);
    }
}

impl CommandReply for SourceOutputInfo {}

/// The reply to [`super::Command::GetSourceOutputInfoList`]: every source
/// output, read up to the end of the reply.
pub type SourceOutputInfoList = Vec<SourceOutputInfo>;

impl CommandReply for SourceOutputInfoList {}

/// The values of a [`SourceOutputInfo`] up to its channel map.
#[derive(Debug, Clone, PartialEq, Eq)]
pub struct SourceOutputHead {
    /// The ID of the source output.
    pub index: u32,

    /// The name of the source output.
    pub name: CString,

    /// The ID of the owning module.
    pub owner_module_index: Option<u32>,

    /// The ID of the owning client.
    pub client_index: Option<u32>,

    /// The ID of the source.
    pub source_index: u32,

    /// The sample format.
    pub sample_spec: SampleSpec,

    /// The channel map.
    pub channel_map: ChannelMap,
}

impl TagStructWrite for SourceOutputHead {
    open spec fn spec_values(&self, protocol_version: u16) -> Seq<TagValue> {
        seq![
            TagValue::U32(self.index),
            TagValue::Str(self.name@),
            index_value(self.owner_module_index),
            index_value(self.client_index),
            TagValue::U32(self.source_index),
            sample_spec_value(self.sample_spec),
            TagValue::ChannelMap(self.channel_map@),
        ]
    }

    open spec fn spec_writable(&self) -> bool {
        true
    }

    fn write(&self, w: &mut TagStructWriter, _protocol_version: u16) -> (r: Result<(), ProtocolError>) {
        w.write_u32(self.index)?;
        w.write_string(Some(&self.name))?;
        w.write_index(self.owner_module_index)?;
        w.write_index(self.client_index)?;
        w.write_u32(self.source_index)?;
        w.write_sample_spec(self.sample_spec)?;
        w.write_channel_map(&self.channel_map)?;
        proof {
            lemma_values_bytes_7(
                TagValue::U32(self.index),
                TagValue::Str(self.name@),
                index_value(self.owner_module_index),
                index_value(self.client_index),
                TagValue::U32(self.source_index),
                sample_spec_value(self.sample_spec),
                TagValue::ChannelMap(self.channel_map@),
            );
        }
        assert(w.bytes() =~= old(w).bytes() + values_bytes(self.spec_values(_protocol_version)));
        Ok(())
    }
}

impl TagStructRead for SourceOutputHead {
    open spec fn spec_parse(s: Seq<u8>, protocol_version: u16) -> Option<(Seq<TagValue>, int)> {
        match parse_values(s, 7) {
            Some((vs, n)) => if vs[0] is U32
                && vs[1] is Str
                && vs[2] is U32
                && vs[3] is U32
                && vs[4] is U32
                && (vs[5] matches TagValue::SampleSpec(f, _, _) && sample_format_of_code(f) is Some)
                && (vs[6] matches TagValue::ChannelMap(c) && positions_valid(c))
            {
                Some((vs, n))
            } else {
                None
            },
            None => None,
        }
    }

    open spec fn spec_canonical(&self, protocol_version: u16) -> bool {
        true
    }

    open spec fn spec_encodable(&self, protocol_version: u16) -> bool {
        &&& values_wf(self.spec_values(protocol_version))
        &&& index_encodable(self.owner_module_index)
        &&& index_encodable(self.client_index)
        &&& self.spec_canonical(protocol_version)
    }

    #[verifier::rlimit(100)]
    #[verifier::spinoff_prover]
    fn read(ts: &mut TagStructReader, _protocol_version: u16) -> (r: Result<Self, ProtocolError>) {
        let ghost s = ts.rest();
        let ghost total: int = 7;
        proof {
            lemma_parse_values_start(s, total);
            lemma_parse_values_next(s, Seq::empty(), ts.rest(), total - 1);
        }
        let index = ts.read_u32()?;
        proof {
            assert(parse_values(s, total as nat) == parse_values_after(
                seq![TagValue::U32(index)],
                s.len() - ts.rest().len(),
                ts.rest(),
                total - 1,
            ));
            lemma_parse_values_next(s, seq![TagValue::U32(index)], ts.rest(), total - 2);
        }
        let name = match ts.read_string()? {
            Some(c) => c,
            None => {
                return Err(ProtocolError::Invalid("invalid source output name".to_owned()));
            },
        };
        proof {
            assert(parse_values(s, total as nat) == parse_values_after(
                seq![TagValue::U32(index), TagValue::Str(name@)],
                s.len() - ts.rest().len(),
                ts.rest(),
                total - 2,
            ));
            lemma_parse_values_next(
                s,
                seq![TagValue::U32(index), TagValue::Str(name@)],
                ts.rest(),
                total - 3,
            );
        }
        let owner_module_index = ts.read_index()?;
        proof {
            assert(parse_values(s, total as nat) == parse_values_after(
                seq![TagValue::U32(index), TagValue::Str(name@), index_value(owner_module_index)],
                s.len() - ts.rest().len(),
                ts.rest(),
                total - 3,
            ));
            lemma_parse_values_next(
                s,
                seq![TagValue::U32(index), TagValue::Str(name@), index_value(owner_module_index)],
                ts.rest(),
                total - 4,
            );
        }
        let client_index = ts.read_index()?;
        proof {
            assert(parse_values(s, total as nat) == parse_values_after(
                seq![
                    TagValue::U32(index),
                    TagValue::Str(name@),
                    index_value(owner_module_index),
                    index_value(client_index),
                ],
                s.len() - ts.rest().len(),
                ts.rest(),
                total - 4,
            ));
            lemma_parse_values_next(
                s,
                seq![
                    TagValue::U32(index),
                    TagValue::Str(name@),
                    index_value(owner_module_index),
                    index_value(client_index),
                ],
                ts.rest(),
                total - 5,
            );
        }
        let source_index = ts.read_u32()?;
        proof {
            assert(parse_values(s, total as nat) == parse_values_after(
                seq![
                    TagValue::U32(index),
                    TagValue::Str(name@),
                    index_value(owner_module_index),
                    index_value(client_index),
                    TagValue::U32(source_index),
                ],
                s.len() - ts.rest().len(),
                ts.rest(),
                total - 5,
            ));
            lemma_parse_values_next(
                s,
                seq![
                    TagValue::U32(index),
                    TagValue::Str(name@),
                    index_value(owner_module_index),
                    index_value(client_index),
                    TagValue::U32(source_index),
                ],
                ts.rest(),
                total - 6,
            );
        }
        let sample_spec = ts.read_sample_spec()?;
        proof {
            assert(parse_values(s, total as nat) == parse_values_after(
                seq![
                    TagValue::U32(index),
                    TagValue::Str(name@),
                    index_value(owner_module_index),
                    index_value(client_index),
                    TagValue::U32(source_index),
                    sample_spec_value(sample_spec),
                ],
                s.len() - ts.rest().len(),
                ts.rest(),
                total - 6,
            ));
            lemma_parse_values_next(
                s,
                seq![
                    TagValue::U32(index),
                    TagValue::Str(name@),
                    index_value(owner_module_index),
                    index_value(client_index),
                    TagValue::U32(source_index),
                    sample_spec_value(sample_spec),
                ],
                ts.rest(),
                total - 7,
            );
        }
        let channel_map = ts.read_channel_map()?;
        proof {
            assert(parse_values(s, total as nat) == parse_values_after(
                seq![
                    TagValue::U32(index),
                    TagValue::Str(name@),
                    index_value(owner_module_index),
                    index_value(client_index),
                    TagValue::U32(source_index),
                    sample_spec_value(sample_spec),
                    TagValue::ChannelMap(channel_map@),
                ],
                s.len() - ts.rest().len(),
                ts.rest(),
                total - 7,
            ));
            lemma_parse_values_done(
                seq![
                    TagValue::U32(index),
                    TagValue::Str(name@),
                    index_value(owner_module_index),
                    index_value(client_index),
                    TagValue::U32(source_index),
                    sample_spec_value(sample_spec),
                    TagValue::ChannelMap(channel_map@),
                ],
                s.len() - ts.rest().len(),
                ts.rest(),
            );
        }
        Ok(SourceOutputHead {
            index,
            name,
            owner_module_index,
            client_index,
            source_index,
            sample_spec,
            channel_map,
        })
    }

    proof fn lemma_roundtrip(&self, protocol_version: u16, rest: Seq<u8>) {
        lemma_sample_format_roundtrip(self.sample_spec.format);
        lemma_channel_map_valid(self.channel_map);
        lemma_parse_values_bytes(self.spec_values(protocol_version), rest);
    }
}

/// The values of a [`SourceOutputInfo`] from its latencies to its
/// properties.
#[derive(Debug, Clone, PartialEq, Eq)]
pub struct SourceOutputMid {
    /// The latency due to buffering, in microseconds.
    pub buffer_latency: u64,

    /// The latency of the source, in microseconds.
    pub source_latency: u64,

    /// The resampling method.
    pub resample_method: Option<CString>,

    /// The driver.
    pub driver: Option<CString>,

    /// The properties.
    pub props: Props,
}

impl TagStructWrite for SourceOutputMid {
    open spec fn spec_values(&self, protocol_version: u16) -> Seq<TagValue> {
        seq![
            TagValue::Usec(self.buffer_latency),
            TagValue::Usec(self.source_latency),
            string_value(opt_cstr_view(self.resample_method)),
            string_value(opt_cstr_view(self.driver)),
            TagValue::PropList(self.props@),
        ]
    }

    open spec fn spec_writable(&self) -> bool {
        true
    }

    fn write(&self, w: &mut TagStructWriter, _protocol_version: u16) -> (r: Result<(), ProtocolError>) {
        w.write_usec(self.buffer_latency)?;
        w.write_usec(self.source_latency)?;
        w.write_string(self.resample_method.as_ref())?;
        w.write_string(self.driver.as_ref())?;
        w.write_props(&self.props)?;
        proof {
            lemma_values_bytes_5(
                TagValue::Usec(self.buffer_latency),
                TagValue::Usec(self.source_latency),
                string_value(opt_cstr_view(self.resample_method)),
                string_value(opt_cstr_view(self.driver)),
                TagValue::PropList(self.props@),
            );
        }
        assert(w.bytes() =~= old(w).bytes() + values_bytes(self.spec_values(_protocol_version)));
        Ok(())
    }
}

impl TagStructRead for SourceOutputMid {
    open spec fn spec_parse(s: Seq<u8>, protocol_version: u16) -> Option<(Seq<TagValue>, int)> {
        match parse_values(s, 5) {
            Some((vs, n)) => if vs[0] is Usec
                && vs[1] is Usec
                && (vs[2] is Str || vs[2] is NullStr)
                && (vs[3] is Str || vs[3] is NullStr)
                && vs[4] is PropList
            {
                Some((vs, n))
            } else {
                None
            },
            None => None,
        }
    }

    open spec fn spec_canonical(&self, protocol_version: u16) -> bool {
        true
    }

    open spec fn spec_encodable(&self, protocol_version: u16) -> bool {
        &&& values_wf(self.spec_values(protocol_version))
        &&& self.spec_canonical(protocol_version)
    }

    fn read(ts: &mut TagStructReader, _protocol_version: u16) -> (r: Result<Self, ProtocolError>) {
        let ghost s = ts.rest();
        let ghost total: int = 5;
        proof {
            lemma_parse_values_start(s, total);
            lemma_parse_values_next(s, Seq::empty(), ts.rest(), total - 1);
        }
        let buffer_latency = ts.read_usec()?;
        proof {
            assert(parse_values(s, total as nat) == parse_values_after(
                seq![TagValue::Usec(buffer_latency)],
                s.len() - ts.rest().len(),
                ts.rest(),
                total - 1,
            ));
            lemma_parse_values_next(s, seq![TagValue::Usec(buffer_latency)], ts.rest(), total - 2);
        }
        let source_latency = ts.read_usec()?;
        proof {
            assert(parse_values(s, total as nat) == parse_values_after(
                seq![TagValue::Usec(buffer_latency), TagValue::Usec(source_latency)],
                s.len() - ts.rest().len(),
                ts.rest(),
                total - 2,
            ));
            lemma_parse_values_next(
                s,
                seq![TagValue::Usec(buffer_latency), TagValue::Usec(source_latency)],
                ts.rest(),
                total - 3,
            );
        }
        let resample_method = ts.read_string()?;
        proof {
            assert(parse_values(s, total as nat) == parse_values_after(
                seq![
                    TagValue::Usec(buffer_latency),
                    TagValue::Usec(source_latency),
                    string_value(opt_cstr_view(resample_method)),
                ],
                s.len() - ts.rest().len(),
                ts.rest(),
                total - 3,
            ));
            lemma_parse_values_next(
                s,
                seq![
                    TagValue::Usec(buffer_latency),
                    TagValue::Usec(source_latency),
                    string_value(opt_cstr_view(resample_method)),
                ],
                ts.rest(),
                total - 4,
            );
        }
        let driver = ts.read_string()?;
        proof {
            assert(parse_values(s, total as nat) == parse_values_after(
                seq![
                    TagValue::Usec(buffer_latency),
                    TagValue::Usec(source_latency),
                    string_value(opt_cstr_view(resample_method)),
                    string_value(opt_cstr_view(driver)),
                ],
                s.len() - ts.rest().len(),
                ts.rest(),
                total - 4,
            ));
            lemma_parse_values_next(
                s,
                seq![
                    TagValue::Usec(buffer_latency),
                    TagValue::Usec(source_latency),
                    string_value(opt_cstr_view(resample_method)),
                    string_value(opt_cstr_view(driver)),
                ],
                ts.rest(),
                total - 5,
            );
        }
        let props = ts.read_props()?;
        proof {
            assert(parse_values(s, total as nat) == parse_values_after(
                seq![
                    TagValue::Usec(buffer_latency),
                    TagValue::Usec(source_latency),
                    string_value(opt_cstr_view(resample_method)),
                    string_value(opt_cstr_view(driver)),
                    TagValue::PropList(props@),
                ],
                s.len() - ts.rest().len(),
                ts.rest(),
                total - 5,
            ));
            lemma_parse_values_done(
                seq![
                    TagValue::Usec(buffer_latency),
                    TagValue::Usec(source_latency),
                    string_value(opt_cstr_view(resample_method)),
                    string_value(opt_cstr_view(driver)),
                    TagValue::PropList(props@),
                ],
                s.len() - ts.rest().len(),
                ts.rest(),
            );
        }
        Ok(SourceOutputMid {
            buffer_latency,
            source_latency,
            resample_method,
            driver,
            props,
        })
    }

    proof fn lemma_roundtrip(&self, protocol_version: u16, rest: Seq<u8>) {
        lemma_parse_values_bytes(self.spec_values(protocol_version), rest);
    }
}

/// The values of a [`SourceOutputInfo`] sent from protocol version 22 on.
#[derive(Debug, Clone, PartialEq, Eq)]
pub struct SourceOutputTail {
    /// The volume.
    pub cvolume: ChannelVolume,

    /// Whether the output is muted.
    pub muted: bool,

    /// Whether the volume information is valid.
    pub has_volume: bool,

    /// Whether the client can set the volume.
    pub volume_writable: bool,

    /// The format.
    pub format: FormatInfo,
}

impl TagStructWrite for SourceOutputTail {
    open spec fn spec_values(&self, protocol_version: u16) -> Seq<TagValue> {
        seq![
            TagValue::CVolume(self.cvolume@),
            TagValue::Bool(self.muted),
            TagValue::Bool(self.has_volume),
            TagValue::Bool(self.volume_writable),
            format_info_value(self.format),
        ]
    }

    open spec fn spec_writable(&self) -> bool {
        true
    }

    fn write(&self, w: &mut TagStructWriter, _protocol_version: u16) -> (r: Result<(), ProtocolError>) {
        w.write_cvolume(&self.cvolume)?;
        w.write_bool(self.muted)?;
        w.write_bool(self.has_volume)?;
        w.write_bool(self.volume_writable)?;
        w.write_format_info(&self.format)?;
        proof {
            lemma_values_bytes_5(
                TagValue::CVolume(self.cvolume@),
                TagValue::Bool(self.muted),
                TagValue::Bool(self.has_volume),
                TagValue::Bool(self.volume_writable),
                format_info_value(self.format),
            );
        }
        assert(w.bytes() =~= old(w).bytes() + values_bytes(self.spec_values(_protocol_version)));
        Ok(())
    }
}

impl TagStructRead for SourceOutputTail {
    open spec fn spec_parse(s: Seq<u8>, protocol_version: u16) -> Option<(Seq<TagValue>, int)> {
        match parse_values(s, 5) {
            Some((vs, n)) => if vs[0] is CVolume
                && vs[1] is Bool
                && vs[2] is Bool
                && vs[3] is Bool
                && (vs[4] matches TagValue::FormatInfo(e, _) && encoding_of_code(e) is Some)
            {
                Some((vs, n))
            } else {
                None
            },
            None => None,
        }
    }

    open spec fn spec_canonical(&self, protocol_version: u16) -> bool {
        true
    }

    open spec fn spec_encodable(&self, protocol_version: u16) -> bool {
        &&& values_wf(self.spec_values(protocol_version))
        &&& self.spec_canonical(protocol_version)
    }

    fn read(ts: &mut TagStructReader, _protocol_version: u16) -> (r: Result<Self, ProtocolError>) {
        let ghost s = ts.rest();
        let ghost total: int = 5;
        proof {
            lemma_parse_values_start(s, total);
            lemma_parse_values_next(s, Seq::empty(), ts.rest(), total - 1);
        }
        let cvolume = ts.read_cvolume()?;
        proof {
            assert(parse_values(s, total as nat) == parse_values_after(
                seq![TagValue::CVolume(cvolume@)],
                s.len() - ts.rest().len(),
                ts.rest(),
                total - 1,
            ));
            lemma_parse_values_next(s, seq![TagValue::CVolume(cvolume@)], ts.rest(), total - 2);
        }
        let muted = ts.read_bool()?;
        proof {
            assert(parse_values(s, total as nat) == parse_values_after(
                seq![TagValue::CVolume(cvolume@), TagValue::Bool(muted)],
                s.len() - ts.rest().len(),
                ts.rest(),
                total - 2,
            ));
            lemma_parse_values_next(
                s,
                seq![TagValue::CVolume(cvolume@), TagValue::Bool(muted)],
                ts.rest(),
                total - 3,
            );
        }
        let has_volume = ts.read_bool()?;
        proof {
            assert(parse_values(s, total as nat) == parse_values_after(
                seq![
                    TagValue::CVolume(cvolume@),
                    TagValue::Bool(muted),
                    TagValue::Bool(has_volume),
                ],
                s.len() - ts.rest().len(),
                ts.rest(),
                total - 3,
            ));
            lemma_parse_values_next(
                s,
                seq![
                    TagValue::CVolume(cvolume@),
                    TagValue::Bool(muted),
                    TagValue::Bool(has_volume),
                ],
                ts.rest(),
                total - 4,
            );
        }
        let volume_writable = ts.read_bool()?;
        proof {
            assert(parse_values(s, total as nat) == parse_values_after(
                seq![
                    TagValue::CVolume(cvolume@),
                    TagValue::Bool(muted),
                    TagValue::Bool(has_volume),
                    TagValue::Bool(volume_writable),
                ],
                s.len() - ts.rest().len(),
                ts.rest(),
                total - 4,
            ));
            lemma_parse_values_next(
                s,
                seq![
                    TagValue::CVolume(cvolume@),
                    TagValue::Bool(muted),
                    TagValue::Bool(has_volume),
                    TagValue::Bool(volume_writable),
                ],
                ts.rest(),
                total - 5,
            );
        }
        let format = ts.read_format_info()?;
        proof {
            assert(parse_values(s, total as nat) == parse_values_after(
                seq![
                    TagValue::CVolume(cvolume@),
                    TagValue::Bool(muted),
                    TagValue::Bool(has_volume),
                    TagValue::Bool(volume_writable),
                    format_info_value(format),
                ],
                s.len() - ts.rest().len(),
                ts.rest(),
                total - 5,
            ));
            lemma_parse_values_done(
                seq![
                    TagValue::CVolume(cvolume@),
                    TagValue::Bool(muted),
                    TagValue::Bool(has_volume),
                    TagValue::Bool(volume_writable),
                    format_info_value(format),
                ],
                s.len() - ts.rest().len(),
                ts.rest(),
            );
        }
        Ok(SourceOutputTail {
            cvolume,
            muted,
            has_volume,
            volume_writable,
            format,
        })
    }

    proof fn lemma_roundtrip(&self, protocol_version: u16, rest: Seq<u8>) {
        lemma_encoding_roundtrip(self.format.encoding);
        lemma_parse_values_bytes(self.spec_values(protocol_version), rest);
    }
}


/// The values a [`SourceOutputHead`] is sent as, position by position: whatever a read
/// gives from the values `vs` holds each field from its own position.
pub proof fn lemma_source_output_head_layout(q: SourceOutputHead, vs: Seq<TagValue>, protocol_version: u16)
    requires
        q.spec_values(protocol_version) == vs,
    ensures
        vs == (
            seq![
                    TagValue::U32(q.index),
                    TagValue::Str(q.name@),
                    index_value(q.owner_module_index),
                    index_value(q.client_index),
                    TagValue::U32(q.source_index),
                    sample_spec_value(q.sample_spec),
                    TagValue::ChannelMap(q.channel_map@),
                ]
        ),
{
}

/// The values a [`SourceOutputMid`] is sent as, position by position: whatever a read
/// gives from the values `vs` holds each field from its own position.
pub proof fn lemma_source_output_mid_layout(q: SourceOutputMid, vs: Seq<TagValue>, protocol_version: u16)
    requires
        q.spec_values(protocol_version) == vs,
    ensures
        vs == (
            seq![
                    TagValue::Usec(q.buffer_latency),
                    TagValue::Usec(q.source_latency),
                    string_value(opt_cstr_view(q.resample_method)),
                    string_value(opt_cstr_view(q.driver)),
                    TagValue::PropList(q.props@),
                ]
        ),
{
}

/// The values a [`SourceOutputTail`] is sent as, position by position: whatever a read
/// gives from the values `vs` holds each field from its own position.
pub proof fn lemma_source_output_tail_layout(q: SourceOutputTail, vs: Seq<TagValue>, protocol_version: u16)
    requires
        q.spec_values(protocol_version) == vs,
    ensures
        vs == (
            seq![
                    TagValue::CVolume(q.cvolume@),
                    TagValue::Bool(q.muted),
                    TagValue::Bool(q.has_volume),
                    TagValue::Bool(q.volume_writable),
                    format_info_value(q.format),
                ]
        ),
{
}


/// The values a [`SourceOutputInfo`] is sent as, position by position, at a
/// protocol version.
#[verifier::rlimit(100)]
pub proof fn lemma_source_output_info_layout(q: SourceOutputInfo, vs: Seq<TagValue>, protocol_version: u16)
    requires
        q.spec_values(protocol_version) == vs,
    ensures
        vs =~= seq![
            TagValue::U32(q.index),
            TagValue::Str(q.name@),
            index_value(q.owner_module_index),
            index_value(q.client_index),
            TagValue::U32(q.source_index),
            sample_spec_value(q.sample_spec),
            TagValue::ChannelMap(q.channel_map@),
            TagValue::Usec(q.buffer_latency),
            TagValue::Usec(q.source_latency),
            string_value(opt_cstr_view(q.resample_method)),
            string_value(opt_cstr_view(q.driver)),
            TagValue::PropList(q.props@),
        ] + (if protocol_version >= 19 { seq![TagValue::Bool(q.corked)] } else { Seq::empty() }) + (if protocol_version >= 22 { seq![TagValue::CVolume(q.cvolume@), TagValue::Bool(q.muted), TagValue::Bool(q.has_volume), TagValue::Bool(q.volume_writable), format_info_value(q.format)] } else { Seq::empty() }),
{
}

} // verus!
