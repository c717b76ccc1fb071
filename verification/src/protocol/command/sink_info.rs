//! The sinks of the server: their state, flags, ports and the information
//! the server gives about them.

use vstd::prelude::*;

use crate::protocol::error::ProtocolError;
use crate::protocol::serde::fields::{
    lemma_values_bytes_2, lemma_values_bytes_4, lemma_values_bytes_5, lemma_values_bytes_7,
};
use crate::protocol::serde::wire::{
    TagValue, lemma_parse_values_bytes, lemma_parse_values_done, lemma_parse_values_next,
    lemma_parse_values_start, parse_values, parse_values_after, values_bytes, values_wf,
};
use crate::protocol::serde::{
    INVALID_INDEX, TagStructRead, TagStructReader, TagStructWrite, TagStructWriter, index_encodable,
    index_value, opt_cstr_view, string_value,
};
use crate::protocol::serde::channel_map::{ChannelMap, lemma_channel_map_valid, positions_valid};
use crate::protocol::serde::cstr::CString;
use crate::protocol::serde::props::Props;
use crate::protocol::serde::sample_spec::{SampleFormat, SampleSpec, lemma_sample_format_roundtrip, sample_format_of_code, sample_spec_value};
use crate::protocol::serde::volume::{ChannelVolume, Volume};

use super::CommandReply;
use super::stream_params::{FormatList, formats_values, gated, gated_parse, write_formats};
use crate::protocol::serde::fields::{lemma_parse_value_len, lemma_parse_values_1, lemma_values_bytes_1};
use crate::protocol::serde::format_info::{FormatEncoding, FormatInfo};
use crate::protocol::serde::port_info::{PortAvailable, PortDirection, PortType, SinkPorts, PortInfo, port_list_values, write_port_list};
use crate::protocol::serde::volume::VOLUME_NORM;
use crate::protocol::serde::wire::{lemma_values_bytes_concat, lemma_values_bytes_push, parse_value};

verus! {


/// The state of a sink.
#[derive(Debug, Copy, Clone, PartialEq, Eq, Structural)]
pub enum SinkState {
    /// Sink is playing samples: the sink is used by at least one non-paused input.
    Running,
    /// Sink is playing but has no connected inputs that send samples.
    Idle,
    /// Sink is not currently playing and can be closed.
    Suspended,
}

/// The number that stands for a sink state on the wire.
pub open spec fn sink_state_code(s: SinkState) -> u32 {
    match s {
        SinkState::Running => 0,
        SinkState::Idle => 1,
        SinkState::Suspended => 2,
    }
}

/// The sink state a number stands for, if any.
pub open spec fn sink_state_of_code(v: u32) -> Option<SinkState> {
    if v == 0 {
        Some(SinkState::Running)
    } else if v == 1 {
        Some(SinkState::Idle)
    } else if v == 2 {
        Some(SinkState::Suspended)
    } else {
        None
    }
}

impl SinkState {
    /// The number that stands for the state on the wire.
    pub fn to_u32(self) -> (r: u32)
        ensures
            r == sink_state_code(self),
    {
        match self {
            SinkState::Running => 0,
            SinkState::Idle => 1,
            SinkState::Suspended => 2,
        }
    }

    /// The state a number stands for, or `None` for a number that stands for
    /// none.
    pub fn from_u32(v: u32) -> (r: Option<SinkState>)
        ensures
            r == sink_state_of_code(v),
    {
        if v == 0 {
            Some(SinkState::Running)
        } else if v == 1 {
            Some(SinkState::Idle)
        } else if v == 2 {
            Some(SinkState::Suspended)
        } else {
            None
        }
    }
}

impl Default for SinkState {
    fn default() -> (r: Self)
        ensures
            r == SinkState::Suspended,
    {
        SinkState::Suspended
    }
}

/// Every sink state is read back from its own number.
pub proof fn lemma_sink_state_roundtrip(s: SinkState)
    ensures
        sink_state_of_code(sink_state_code(s)) == Some(s),
{
}


/// The number that stands for a number of volume steps on the wire: the
/// number itself, or 0 for none.
pub open spec fn volume_steps_code(steps: Option<u32>) -> u32 {
    match steps {
        Some(n) => n,
        None => 0,
    }
}

/// Every flag a sink can have.
pub const SINK_FLAGS_ALL: u32 = 0x01ff;

/// The flags a sink is configured with, as a bit mask.
#[derive(Debug, Copy, Clone, PartialEq, Eq)]
pub struct SinkFlags {
    bits: u32,
}

impl View for SinkFlags {
    type V = u32;

    closed spec fn view(&self) -> u32 {
        self.bits
    }
}

impl SinkFlags {
    /// The sink supports hardware volume control.
    pub const HW_VOLUME_CTRL: u32 = 0x0001;
    /// The sink supports latency querying.
    pub const LATENCY: u32 = 0x0002;
    /// The sink is a hardware sink, not a virtual or software one.
    pub const HARDWARE: u32 = 0x0004;
    /// The sink is a networked sink.
    pub const NETWORK: u32 = 0x0008;
    /// The sink supports hardware mute control.
    pub const HW_MUTE_CTRL: u32 = 0x0010;
    /// The volume can be translated to decibels.
    pub const DECIBEL_VOLUME: u32 = 0x0020;
    /// The sink is in "flat volume" mode: its volume is the maximum of
    /// those of its inputs.
    pub const FLAT_VOLUME: u32 = 0x0040;
    /// The latency of the sink can be adjusted dynamically.
    pub const DYNAMIC_LATENCY: u32 = 0x0080;
    /// The sink allows its supported formats to be set.
    pub const SET_FORMATS: u32 = 0x0100;

    /// The known flags among `bits`; unknown bits are dropped.
    pub fn from_bits_truncate(bits: u32) -> (r: SinkFlags)
        ensures
            r@ == bits & SINK_FLAGS_ALL,
    {
        SinkFlags { bits: bits & SINK_FLAGS_ALL }
    }

    /// No flags.
    pub fn empty() -> (r: SinkFlags)
        ensures
            r@ == 0,
    {
        SinkFlags { bits: 0 }
    }

    /// The bits of the mask.
    pub fn bits(&self) -> (r: u32)
        ensures
            r == self@,
    {
        self.bits
    }
}

impl TagStructWrite for SinkFlags {
    open spec fn spec_values(&self, protocol_version: u16) -> Seq<TagValue> {
        seq![TagValue::U32(self@)]
    }

    open spec fn spec_writable(&self) -> bool {
        true
    }

    fn write(&self, w: &mut TagStructWriter, _protocol_version: u16) -> (r: Result<(), ProtocolError>) {
        w.write_u32(self.bits)?;
        proof {
            lemma_values_bytes_1(TagValue::U32(self@));
        }
        Ok(())
    }
}

impl TagStructRead for SinkFlags {
    /// Unknown flags are dropped.
    open spec fn spec_parse(s: Seq<u8>, protocol_version: u16) -> Option<(Seq<TagValue>, int)> {
        match parse_values(s, 1) {
            Some((vs, n)) => match vs[0] {
                TagValue::U32(x) => Some((seq![TagValue::U32(x & SINK_FLAGS_ALL)], n)),
                _ => None,
            },
            None => None,
        }
    }

    open spec fn spec_canonical(&self, protocol_version: u16) -> bool {
        self@ & SINK_FLAGS_ALL == self@
    }

    open spec fn spec_encodable(&self, protocol_version: u16) -> bool {
        self@ & SINK_FLAGS_ALL == self@
    }

    fn read(ts: &mut TagStructReader, _protocol_version: u16) -> (r: Result<Self, ProtocolError>) {
        proof {
            lemma_parse_values_1(ts.rest());
            lemma_parse_value_len(ts.rest());
        }
        let x = ts.read_u32()?;
        let f = SinkFlags::from_bits_truncate(x);
        assert((x & SINK_FLAGS_ALL) & SINK_FLAGS_ALL == x & SINK_FLAGS_ALL) by (bit_vector);
        Ok(f)
    }

    proof fn lemma_roundtrip(&self, protocol_version: u16, rest: Seq<u8>) {
        lemma_parse_values_bytes(self.spec_values(protocol_version), rest);
    }
}

/// A sink of the server, in reply to [`super::Command::GetSinkInfo`].
#[derive(Debug, Clone, PartialEq, Eq)]
pub struct SinkInfo {
    /// The index of the sink.
    pub index: u32,

    /// The name of the sink.
    pub name: CString,

    /// A description of the sink.
    pub description: Option<CString>,

    /// Properties of the sink.
    pub props: Props,

    /// The state of the sink; sent from protocol version 15 on.
    pub state: SinkState,

    /// The format of the samples of the sink.
    pub sample_spec: SampleSpec,

    /// The positions of the channels of the sink.
    pub channel_map: ChannelMap,

    /// The index of the module that owns the sink.
    pub owner_module_index: Option<u32>,

    /// The volume of the sink.
    pub cvolume: ChannelVolume,

    /// Whether the sink is muted.
    pub muted: bool,

    /// The index of the monitor source of the sink.
    pub monitor_source_index: Option<u32>,

    /// The name of the monitor source of the sink.
    pub monitor_source_name: Option<CString>,

    /// The flags the sink is configured with.
    pub flags: SinkFlags,

    /// The latency of the sink, in microseconds.
    pub actual_latency: u64,

    /// The configured latency of the sink, in microseconds.
    pub configured_latency: u64,

    /// The name of the driver of the sink.
    pub driver: Option<CString>,

    /// The base volume of the sink; sent from protocol version 15 on, and
    /// normal before.
    pub base_volume: Volume,

    /// The number of volume steps of a sink without arbitrary volumes; sent
    /// from protocol version 15 on, as 0 for none.
    pub volume_steps: Option<u32>,

    /// The index of the card the sink belongs to; sent from protocol version
    /// 15 on.
    pub card_index: Option<u32>,

    /// The ports of the sink; sent from protocol version 16 on.
    pub ports: Vec<PortInfo>,

    /// The index of the active port.
    pub active_port: usize,

    /// The formats the sink supports; sent from protocol version 21 on.
    pub formats: Vec<FormatInfo>,
}

/// The part of a [`SinkInfo`] up to its volume.
pub open spec fn sink_info_head(i: SinkInfo) -> SinkHead {
    SinkHead {
        index: i.index,
        name: i.name,
        description: i.description,
        sample_spec: i.sample_spec,
        channel_map: i.channel_map,
        owner_module_index: i.owner_module_index,
        cvolume: i.cvolume,
    }
}

/// The part of a [`SinkInfo`] from its mute flag to its driver.
pub open spec fn sink_info_mid(i: SinkInfo) -> SinkMid {
    SinkMid {
        muted: i.muted,
        monitor_source_index: i.monitor_source_index,
        monitor_source_name: i.monitor_source_name,
        actual_latency: i.actual_latency,
        driver: i.driver,
    }
}

/// The flags of a [`SinkInfo`].
pub open spec fn sink_info_flags(i: SinkInfo) -> SinkFlags {
    i.flags
}

/// The properties and configured latency of a [`SinkInfo`].
pub open spec fn sink_info_props(i: SinkInfo) -> SinkProps {
    SinkProps {
        props: i.props,
        configured_latency: i.configured_latency,
    }
}

/// The part of a [`SinkInfo`] sent from protocol version 15 on.
pub open spec fn sink_info_tail15(i: SinkInfo) -> SinkTail15 {
    SinkTail15 {
        base_volume: i.base_volume,
        state: i.state,
        volume_steps: i.volume_steps,
        card_index: i.card_index,
    }
}

/// The ports of a [`SinkInfo`].
pub open spec fn sink_info_ports(i: SinkInfo) -> SinkPorts {
    SinkPorts { ports: i.ports, active_port: i.active_port }
}

/// The formats of a [`SinkInfo`].
pub open spec fn sink_info_formats(i: SinkInfo) -> FormatList {
    FormatList { formats: i.formats }
}

/// Writes the part of a [`SinkInfo`] up to its volume.
fn write_sink_info_head(i: &SinkInfo, w: &mut TagStructWriter, protocol_version: u16) -> (r: Result<(), ProtocolError>)
    requires
        i.ports@.len() <= u32::MAX && i.formats@.len() <= 255,
    ensures
        r == Ok::<(), ProtocolError>(()),
        final(w).bytes() == old(w).bytes() + values_bytes(sink_info_head(*i).spec_values(protocol_version)),
        final(w).version() == old(w).version(),
{
    let ghost b0 = w.bytes();
    let ghost mut acc: Seq<TagValue> = Seq::empty();
    assert(w.bytes() =~= b0 + values_bytes(acc));
    w.write_index(Some(i.index))?;
    proof {
        lemma_values_bytes_push(acc, TagValue::U32(i.index));
        assert(w.bytes() =~= b0 + values_bytes(acc.push(TagValue::U32(i.index))));
        acc = acc.push(TagValue::U32(i.index));
    }
    w.write_string(Some(&i.name))?;
    proof {
        lemma_values_bytes_push(acc, TagValue::Str(i.name@));
        assert(w.bytes() =~= b0 + values_bytes(acc.push(TagValue::Str(i.name@))));
        acc = acc.push(TagValue::Str(i.name@));
    }
    w.write_string(i.description.as_ref())?;
    proof {
        lemma_values_bytes_push(acc, string_value(opt_cstr_view(i.description)));
        assert(w.bytes() =~= b0 + values_bytes(acc.push(string_value(opt_cstr_view(i.description)))));
        acc = acc.push(string_value(opt_cstr_view(i.description)));
    }
    w.write_sample_spec(i.sample_spec)?;
    proof {
        lemma_values_bytes_push(acc, sample_spec_value(i.sample_spec));
        assert(w.bytes() =~= b0 + values_bytes(acc.push(sample_spec_value(i.sample_spec))));
        acc = acc.push(sample_spec_value(i.sample_spec));
    }
    w.write_channel_map(&i.channel_map)?;
    proof {
        lemma_values_bytes_push(acc, TagValue::ChannelMap(i.channel_map@));
        assert(w.bytes() =~= b0 + values_bytes(acc.push(TagValue::ChannelMap(i.channel_map@))));
        acc = acc.push(TagValue::ChannelMap(i.channel_map@));
    }
    w.write_index(i.owner_module_index)?;
    proof {
        lemma_values_bytes_push(acc, index_value(i.owner_module_index));
        assert(w.bytes() =~= b0 + values_bytes(acc.push(index_value(i.owner_module_index))));
        acc = acc.push(index_value(i.owner_module_index));
    }
    w.write_cvolume(&i.cvolume)?;
    proof {
        lemma_values_bytes_push(acc, TagValue::CVolume(i.cvolume@));
        assert(w.bytes() =~= b0 + values_bytes(acc.push(TagValue::CVolume(i.cvolume@))));
        acc = acc.push(TagValue::CVolume(i.cvolume@));
    }
    assert(acc =~= sink_info_head(*i).spec_values(protocol_version));
    Ok(())
}

/// Writes the part of a [`SinkInfo`] from its mute flag to its driver.
fn write_sink_info_mid(i: &SinkInfo, w: &mut TagStructWriter, protocol_version: u16) -> (r: Result<(), ProtocolError>)
    requires
        i.ports@.len() <= u32::MAX && i.formats@.len() <= 255,
    ensures
        r == Ok::<(), ProtocolError>(()),
        final(w).bytes() == old(w).bytes() + values_bytes(sink_info_mid(*i).spec_values(protocol_version)),
        final(w).version() == old(w).version(),
{
    let ghost b0 = w.bytes();
    let ghost mut acc: Seq<TagValue> = Seq::empty();
    assert(w.bytes() =~= b0 + values_bytes(acc));
    w.write_bool(i.muted)?;
    proof {
        lemma_values_bytes_push(acc, TagValue::Bool(i.muted));
        assert(w.bytes() =~= b0 + values_bytes(acc.push(TagValue::Bool(i.muted))));
        acc = acc.push(TagValue::Bool(i.muted));
    }
    w.write_index(i.monitor_source_index)?;
    proof {
        lemma_values_bytes_push(acc, index_value(i.monitor_source_index));
        assert(w.bytes() =~= b0 + values_bytes(acc.push(index_value(i.monitor_source_index))));
        acc = acc.push(index_value(i.monitor_source_index));
    }
    w.write_string(i.monitor_source_name.as_ref())?;
    proof {
        lemma_values_bytes_push(acc, string_value(opt_cstr_view(i.monitor_source_name)));
        assert(w.bytes() =~= b0 + values_bytes(acc.push(string_value(opt_cstr_view(i.monitor_source_name)))));
        acc = acc.push(string_value(opt_cstr_view(i.monitor_source_name)));
    }
    w.write_usec(i.actual_latency)?;
    proof {
        lemma_values_bytes_push(acc, TagValue::Usec(i.actual_latency));
        assert(w.bytes() =~= b0 + values_bytes(acc.push(TagValue::Usec(i.actual_latency))));
        acc = acc.push(TagValue::Usec(i.actual_latency));
    }
    w.write_string(i.driver.as_ref())?;
    proof {
        lemma_values_bytes_push(acc, string_value(opt_cstr_view(i.driver)));
        assert(w.bytes() =~= b0 + values_bytes(acc.push(string_value(opt_cstr_view(i.driver)))));
        acc = acc.push(string_value(opt_cstr_view(i.driver)));
    }
    assert(acc =~= sink_info_mid(*i).spec_values(protocol_version));
    Ok(())
}

/// Writes the flags of a [`SinkInfo`].
fn write_sink_info_flags(i: &SinkInfo, w: &mut TagStructWriter, protocol_version: u16) -> (r: Result<(), ProtocolError>)
    requires
        i.ports@.len() <= u32::MAX && i.formats@.len() <= 255,
    ensures
        r == Ok::<(), ProtocolError>(()),
        final(w).bytes() == old(w).bytes() + values_bytes(sink_info_flags(*i).spec_values(protocol_version)),
        final(w).version() == old(w).version(),
{
    let ghost b0 = w.bytes();
    let ghost mut acc: Seq<TagValue> = Seq::empty();
    assert(w.bytes() =~= b0 + values_bytes(acc));
    w.write_u32(i.flags.bits())?;
    proof {
        lemma_values_bytes_push(acc, TagValue::U32(i.flags@));
        assert(w.bytes() =~= b0 + values_bytes(acc.push(TagValue::U32(i.flags@))));
        acc = acc.push(TagValue::U32(i.flags@));
    }
    assert(acc =~= sink_info_flags(*i).spec_values(protocol_version));
    Ok(())
}

/// Writes the properties and configured latency of a [`SinkInfo`].
fn write_sink_info_props(i: &SinkInfo, w: &mut TagStructWriter, protocol_version: u16) -> (r: Result<(), ProtocolError>)
    requires
        i.ports@.len() <= u32::MAX && i.formats@.len() <= 255,
    ensures
        r == Ok::<(), ProtocolError>(()),
        final(w).bytes() == old(w).bytes() + values_bytes(sink_info_props(*i).spec_values(protocol_version)),
        final(w).version() == old(w).version(),
{
    let ghost b0 = w.bytes();
    let ghost mut acc: Seq<TagValue> = Seq::empty();
    assert(w.bytes() =~= b0 + values_bytes(acc));
    w.write_props(&i.props)?;
    proof {
        lemma_values_bytes_push(acc, TagValue::PropList(i.props@));
        assert(w.bytes() =~= b0 + values_bytes(acc.push(TagValue::PropList(i.props@))));
        acc = acc.push(TagValue::PropList(i.props@));
    }
    w.write_usec(i.configured_latency)?;
    proof {
        lemma_values_bytes_push(acc, TagValue::Usec(i.configured_latency));
        assert(w.bytes() =~= b0 + values_bytes(acc.push(TagValue::Usec(i.configured_latency))));
        acc = acc.push(TagValue::Usec(i.configured_latency));
    }
    assert(acc =~= sink_info_props(*i).spec_values(protocol_version));
    Ok(())
}

/// Writes the part of a [`SinkInfo`] sent from protocol version 15 on.
fn write_sink_info_tail15(i: &SinkInfo, w: &mut TagStructWriter, protocol_version: u16) -> (r: Result<(), ProtocolError>)
    requires
        i.ports@.len() <= u32::MAX && i.formats@.len() <= 255,
    ensures
        r == Ok::<(), ProtocolError>(()),
        final(w).bytes() == old(w).bytes() + values_bytes(sink_info_tail15(*i).spec_values(protocol_version)),
        final(w).version() == old(w).version(),
{
    let ghost b0 = w.bytes();
    let ghost mut acc: Seq<TagValue> = Seq::empty();
    assert(w.bytes() =~= b0 + values_bytes(acc));
    w.write_volume(i.base_volume)?;
    proof {
        lemma_values_bytes_push(acc, TagValue::Volume(i.base_volume@));
        assert(w.bytes() =~= b0 + values_bytes(acc.push(TagValue::Volume(i.base_volume@))));
        acc = acc.push(TagValue::Volume(i.base_volume@));
    }
    w.write_u32(i.state.to_u32())?;
    proof {
        lemma_values_bytes_push(acc, TagValue::U32(sink_state_code(i.state)));
        assert(w.bytes() =~= b0 + values_bytes(acc.push(TagValue::U32(sink_state_code(i.state)))));
        acc = acc.push(TagValue::U32(sink_state_code(i.state)));
    }
    w.write_u32(match i.volume_steps {
    Some(n) => n,
    None => 0,
})?;
    proof {
        lemma_values_bytes_push(acc, TagValue::U32(volume_steps_code(i.volume_steps)));
        assert(w.bytes() =~= b0 + values_bytes(acc.push(TagValue::U32(volume_steps_code(i.volume_steps)))));
        acc = acc.push(TagValue::U32(volume_steps_code(i.volume_steps)));
    }
    w.write_index(i.card_index)?;
    proof {
        lemma_values_bytes_push(acc, index_value(i.card_index));
        assert(w.bytes() =~= b0 + values_bytes(acc.push(index_value(i.card_index))));
        acc = acc.push(index_value(i.card_index));
    }
    assert(acc =~= sink_info_tail15(*i).spec_values(protocol_version));
    Ok(())
}

/// Writes the ports of a [`SinkInfo`].
fn write_sink_info_ports(i: &SinkInfo, w: &mut TagStructWriter, protocol_version: u16) -> (r: Result<(), ProtocolError>)
    requires
        i.ports@.len() <= u32::MAX && i.formats@.len() <= 255,
    ensures
        r == Ok::<(), ProtocolError>(()),
        final(w).bytes() == old(w).bytes() + values_bytes(sink_info_ports(*i).spec_values(protocol_version)),
        final(w).version() == old(w).version(),
{
    let ghost b0 = w.bytes();
    let ghost mut acc: Seq<TagValue> = Seq::empty();
    assert(w.bytes() =~= b0 + values_bytes(acc));
    write_port_list(w, &i.ports, i.active_port, protocol_version, true)?;
    proof {
        lemma_values_bytes_concat(acc, port_list_values(i.ports@, i.active_port, protocol_version, true));
        assert(w.bytes() =~= b0 + values_bytes(acc + port_list_values(i.ports@, i.active_port, protocol_version, true)));
        acc = acc + port_list_values(i.ports@, i.active_port, protocol_version, true);
    }
    assert(acc =~= sink_info_ports(*i).spec_values(protocol_version));
    Ok(())
}

/// Writes the formats of a [`SinkInfo`].
fn write_sink_info_formats(i: &SinkInfo, w: &mut TagStructWriter, protocol_version: u16) -> (r: Result<(), ProtocolError>)
    requires
        i.ports@.len() <= u32::MAX && i.formats@.len() <= 255,
    ensures
        r == Ok::<(), ProtocolError>(()),
        final(w).bytes() == old(w).bytes() + values_bytes(sink_info_formats(*i).spec_values(protocol_version)),
        final(w).version() == old(w).version(),
{
    let ghost b0 = w.bytes();
    let ghost mut acc: Seq<TagValue> = Seq::empty();
    assert(w.bytes() =~= b0 + values_bytes(acc));
    write_formats(w, &i.formats, protocol_version)?;
    proof {
        lemma_values_bytes_concat(acc, formats_values(i.formats@, protocol_version));
        assert(w.bytes() =~= b0 + values_bytes(acc + formats_values(i.formats@, protocol_version)));
        acc = acc + formats_values(i.formats@, protocol_version);
    }
    assert(acc =~= sink_info_formats(*i).spec_values(protocol_version));
    Ok(())
}

/// The values of a [`SinkInfo`] from its part 4 on.
pub open spec fn sink_info_values_rest(i: SinkInfo, protocol_version: u16) -> Seq<TagValue> {
    gated(protocol_version >= 15, sink_info_tail15(i).spec_values(protocol_version))
        + gated(protocol_version >= 16, sink_info_ports(i).spec_values(protocol_version))
        + gated(protocol_version >= 21, sink_info_formats(i).spec_values(protocol_version))
}

/// The values of a [`SinkInfo`] from its part 4 on that `s` starts with, as a
/// read gives them back, and the number of bytes they take.
pub open spec fn sink_info_parse_rest(s: Seq<u8>, protocol_version: u16) -> Option<(Seq<TagValue>, int)> {
    match gated_parse(protocol_version >= 15, SinkTail15::spec_parse(s.skip(0), protocol_version)) {
        Some((v0, n0)) =>
            match gated_parse(protocol_version >= 16, SinkPorts::spec_parse(s.skip(n0), protocol_version)) {
                Some((v1, n1)) =>
                    match gated_parse(protocol_version >= 21, FormatList::spec_parse(s.skip(n0 + n1), protocol_version)) {
                        Some((v2, n2)) =>
                            Some((v0 + v1 + v2, n0 + n1 + n2)),
                        None => None,
                    },
                None => None,
            },
        None => None,
    }
}

impl TagStructWrite for SinkInfo {
    open spec fn spec_values(&self, protocol_version: u16) -> Seq<TagValue> {
        sink_info_head(*self).spec_values(protocol_version)
            + sink_info_mid(*self).spec_values(protocol_version)
            + sink_info_flags(*self).spec_values(protocol_version)
            + sink_info_props(*self).spec_values(protocol_version)
            + sink_info_values_rest(*self, protocol_version)
    }

    open spec fn spec_writable(&self) -> bool {
        self.ports@.len() <= u32::MAX && self.formats@.len() <= 255
    }

    #[verifier::rlimit(100)]
    #[verifier::spinoff_prover]
    fn write(&self, w: &mut TagStructWriter, protocol_version: u16) -> (r: Result<(), ProtocolError>) {
        let ghost b0 = w.bytes();
        let ghost mut acc: Seq<TagValue> = Seq::empty();
        assert(w.bytes() =~= b0 + values_bytes(acc));
        let ghost pvs = sink_info_head(*self).spec_values(protocol_version);
        write_sink_info_head(self, w, protocol_version)?;
        proof {
            lemma_values_bytes_concat(acc, pvs);
            assert(w.bytes() =~= b0 + values_bytes(acc + pvs));
            acc = acc + pvs;
        }
        let ghost pvs = sink_info_mid(*self).spec_values(protocol_version);
        write_sink_info_mid(self, w, protocol_version)?;
        proof {
            lemma_values_bytes_concat(acc, pvs);
            assert(w.bytes() =~= b0 + values_bytes(acc + pvs));
            acc = acc + pvs;
        }
        let ghost pvs = sink_info_flags(*self).spec_values(protocol_version);
        write_sink_info_flags(self, w, protocol_version)?;
        proof {
            lemma_values_bytes_concat(acc, pvs);
            assert(w.bytes() =~= b0 + values_bytes(acc + pvs));
            acc = acc + pvs;
        }
        let ghost pvs = sink_info_props(*self).spec_values(protocol_version);
        write_sink_info_props(self, w, protocol_version)?;
        proof {
            lemma_values_bytes_concat(acc, pvs);
            assert(w.bytes() =~= b0 + values_bytes(acc + pvs));
            acc = acc + pvs;
        }
        if protocol_version >= 15 {
            let ghost pvs = sink_info_tail15(*self).spec_values(protocol_version);
            write_sink_info_tail15(self, w, protocol_version)?;
            proof {
                lemma_values_bytes_concat(acc, pvs);
                assert(w.bytes() =~= b0 + values_bytes(acc + pvs));
                acc = acc + pvs;
            }
        }
        if protocol_version >= 16 {
            let ghost pvs = sink_info_ports(*self).spec_values(protocol_version);
            write_sink_info_ports(self, w, protocol_version)?;
            proof {
                lemma_values_bytes_concat(acc, pvs);
                assert(w.bytes() =~= b0 + values_bytes(acc + pvs));
                acc = acc + pvs;
            }
        }
        if protocol_version >= 21 {
            let ghost pvs = sink_info_formats(*self).spec_values(protocol_version);
            write_sink_info_formats(self, w, protocol_version)?;
            proof {
                lemma_values_bytes_concat(acc, pvs);
                assert(w.bytes() =~= b0 + values_bytes(acc + pvs));
                acc = acc + pvs;
            }
        }
        assert(acc =~= self.spec_values(protocol_version));
        assert(w.bytes() =~= old(w).bytes() + values_bytes(self.spec_values(protocol_version)));
        Ok(())
    }
}

impl TagStructRead for SinkInfo {
    open spec fn spec_parse(s: Seq<u8>, protocol_version: u16) -> Option<(Seq<TagValue>, int)> {
        match SinkHead::spec_parse(s.skip(0), protocol_version) {
            Some((v0, n0)) =>
                match SinkMid::spec_parse(s.skip(n0), protocol_version) {
                    Some((v1, n1)) =>
                        match SinkFlags::spec_parse(s.skip(n0 + n1), protocol_version) {
                            Some((v2, n2)) =>
                                match SinkProps::spec_parse(s.skip(n0 + n1 + n2), protocol_version) {
                                    Some((v3, n3)) =>
                                        match sink_info_parse_rest(s.skip(n0 + n1 + n2 + n3), protocol_version) {
                                            Some((vr, nr)) => Some((v0 + v1 + v2 + v3 + vr, n0 + n1 + n2 + n3 + nr)),
                                            None => None,
                                        },
                                    None => None,
                                },
                            None => None,
                        },
                    None => None,
                },
            None => None,
        }
    }

    open spec fn spec_canonical(&self, protocol_version: u16) -> bool {
        (!(protocol_version >= 15) ==> self.base_volume@ == VOLUME_NORM && self.state == SinkState::Suspended && self.volume_steps is None
            && self.card_index is None)
        && (!(protocol_version >= 16) ==> self.ports@.len() == 0 && self.active_port == 0)
        && (!(protocol_version >= 21) ==> self.formats@.len() == 0)
    }

    open spec fn spec_encodable(&self, protocol_version: u16) -> bool {
        &&& sink_info_head(*self).spec_encodable(protocol_version)
        &&& sink_info_mid(*self).spec_encodable(protocol_version)
        &&& sink_info_flags(*self).spec_encodable(protocol_version)
        &&& sink_info_props(*self).spec_encodable(protocol_version)
        &&& (protocol_version >= 15 ==> sink_info_tail15(*self).spec_encodable(protocol_version))
        &&& (protocol_version >= 16 ==> sink_info_ports(*self).spec_encodable(protocol_version))
        &&& (protocol_version >= 21 ==> sink_info_formats(*self).spec_encodable(protocol_version))
        &&& self.spec_canonical(protocol_version)
    }

    #[verifier::rlimit(100)]
    #[verifier::spinoff_prover]
    fn read(ts: &mut TagStructReader, protocol_version: u16) -> (r: Result<Self, ProtocolError>)
        ensures
            parse_value(old(ts).rest()) matches Some((TagValue::U32(x), _)) && x == INVALID_INDEX ==> (r matches Err(e) && e.is_invalid()),
    {
        let ghost s = ts.rest();
        proof {
            assert(s.skip(0) =~= s);
        }
        let ghost s0 = ts.rest();
        let p0 = SinkHead::read(ts, protocol_version)?;
        proof {
            assert(ts.rest() =~= s.skip(s.len() - ts.rest().len()));
        }
        let ghost g0 = p0;
        let ghost s1 = ts.rest();
        let p1 = SinkMid::read(ts, protocol_version)?;
        proof {
            assert(ts.rest() =~= s.skip(s.len() - ts.rest().len()));
        }
        let ghost g1 = p1;
        let ghost s2 = ts.rest();
        let p2 = SinkFlags::read(ts, protocol_version)?;
        proof {
            assert(ts.rest() =~= s.skip(s.len() - ts.rest().len()));
        }
        let ghost g2 = p2;
        let ghost s3 = ts.rest();
        let p3 = SinkProps::read(ts, protocol_version)?;
        proof {
            assert(ts.rest() =~= s.skip(s.len() - ts.rest().len()));
        }
        let ghost g3 = p3;
        let ghost s4 = ts.rest();
        proof {
            assert(s4.skip(0) =~= s4);
        }
        let p4 = if protocol_version >= 15 {
            SinkTail15::read(ts, protocol_version)?
        } else {
            proof {
                assert(s4.skip(0) =~= s4);
            }
            SinkTail15 {
                base_volume: Volume::norm(),
                state: SinkState::Suspended,
                volume_steps: None,
                card_index: None,
            }
        };
        proof {
            assert(ts.rest() =~= s.skip(s.len() - ts.rest().len()));
            assert(ts.rest() =~= s4.skip(s4.len() - ts.rest().len()));
        }
        let ghost g4 = p4;
        let ghost s5 = ts.rest();
        let p5 = if protocol_version >= 16 {
            SinkPorts::read(ts, protocol_version)?
        } else {
            proof {
                assert(s5.skip(0) =~= s5);
            }
            SinkPorts { ports: Vec::new(), active_port: 0 }
        };
        proof {
            assert(ts.rest() =~= s.skip(s.len() - ts.rest().len()));
            assert(ts.rest() =~= s4.skip(s4.len() - ts.rest().len()));
        }
        let ghost g5 = p5;
        let ghost s6 = ts.rest();
        let p6 = if protocol_version >= 21 {
            FormatList::read(ts, protocol_version)?
        } else {
            proof {
                assert(s6.skip(0) =~= s6);
            }
            FormatList { formats: Vec::new() }
        };
        proof {
            assert(ts.rest() =~= s.skip(s.len() - ts.rest().len()));
            assert(ts.rest() =~= s4.skip(s4.len() - ts.rest().len()));
        }
        let ghost g6 = p6;
        let info = SinkInfo {
            index: p0.index,
            name: p0.name,
            description: p0.description,
            props: p3.props,
            state: p4.state,
            sample_spec: p0.sample_spec,
            channel_map: p0.channel_map,
            owner_module_index: p0.owner_module_index,
            cvolume: p0.cvolume,
            muted: p1.muted,
            monitor_source_index: p1.monitor_source_index,
            monitor_source_name: p1.monitor_source_name,
            flags: p2,
            actual_latency: p1.actual_latency,
            configured_latency: p3.configured_latency,
            driver: p1.driver,
            base_volume: p4.base_volume,
            volume_steps: p4.volume_steps,
            card_index: p4.card_index,
            ports: p5.ports,
            active_port: p5.active_port,
            formats: p6.formats,
        };
        proof {
            assert(s.skip(0) =~= s);
            assert(sink_info_head(info) == g0);
            assert(sink_info_mid(info) == g1);
            assert(sink_info_flags(info) == g2);
            assert(sink_info_props(info) == g3);
            assert(sink_info_tail15(info) == g4);
            assert(sink_info_ports(info) == g5);
            assert(sink_info_formats(info) == g6);
            let ghost_n = s.len() - ts.rest().len();
            assert(s1 =~= s.skip(s.len() - s1.len()));
            assert(s2 =~= s.skip(s.len() - s2.len()));
            assert(s3 =~= s.skip(s.len() - s3.len()));
            assert(s4 =~= s.skip(s.len() - s4.len()));
            assert(s5 =~= s.skip(s.len() - s5.len()));
            assert(s6 =~= s.skip(s.len() - s6.len()));
            assert(ts.rest() =~= s.skip(ghost_n));
            assert(s5 =~= s4.skip(s4.len() - s5.len()));
            assert(s6 =~= s4.skip(s4.len() - s6.len()));
            assert(ts.rest() =~= s4.skip(s4.len() - ts.rest().len()));
        }
        Ok(info)
    }

    #[verifier::rlimit(100)]
    #[verifier::spinoff_prover]
    proof fn lemma_roundtrip(&self, protocol_version: u16, rest: Seq<u8>) {
        let tail = values_bytes(sink_info_values_rest(*self, protocol_version)) + rest;
        lemma_sink_info_rest(*self, protocol_version, rest);
        let q0 = sink_info_head(*self);
        let v0 = q0.spec_values(protocol_version);
        let q1 = sink_info_mid(*self);
        let v1 = q1.spec_values(protocol_version);
        let q2 = sink_info_flags(*self);
        let v2 = q2.spec_values(protocol_version);
        let q3 = sink_info_props(*self);
        let v3 = q3.spec_values(protocol_version);
        let w3 = v3;
        let w2 = v2 + w3;
        let w1 = v1 + w2;
        let w0 = v0 + w1;
        lemma_values_bytes_concat(v0, w1);
        lemma_values_bytes_concat(v1, w2);
        lemma_values_bytes_concat(v2, w3);
        let t0 = values_bytes(w0) + tail;
        let t1 = values_bytes(w1) + tail;
        let t2 = values_bytes(w2) + tail;
        let t3 = values_bytes(w3) + tail;
        let t4 = tail;
        let o0: int = 0;
        assert(t0.skip(o0) =~= t0);
        assert(t0 =~= values_bytes(v0) + t1);
        q0.lemma_roundtrip(protocol_version, t1);
        let o1: int = o0 + values_bytes(v0).len();
        assert(t0.skip(values_bytes(v0).len() as int) =~= t1);
        assert(t0.skip(o1) =~= t1);
        assert(t1 =~= values_bytes(v1) + t2);
        q1.lemma_roundtrip(protocol_version, t2);
        let o2: int = o1 + values_bytes(v1).len();
        assert(t1.skip(values_bytes(v1).len() as int) =~= t2);
        assert(t0.skip(o2) =~= t2);
        assert(t2 =~= values_bytes(v2) + t3);
        q2.lemma_roundtrip(protocol_version, t3);
        let o3: int = o2 + values_bytes(v2).len();
        assert(t2.skip(values_bytes(v2).len() as int) =~= t3);
        assert(t0.skip(o3) =~= t3);
        assert(t3 =~= values_bytes(v3) + t4);
        q3.lemma_roundtrip(protocol_version, t4);
        let o4: int = o3 + values_bytes(v3).len();
        assert(t3.skip(values_bytes(v3).len() as int) =~= t4);
        assert(t0.skip(o4) =~= t4);
        let r = sink_info_values_rest(*self, protocol_version);
        assert(self.spec_values(protocol_version) =~= w0 + r);
        lemma_values_bytes_concat(w0, r);
        assert(values_bytes(self.spec_values(protocol_version)) + rest =~= values_bytes(w0) + tail);
        assert((values_bytes(w0) + tail).skip(o4) =~= tail);
    }
}

/// Reading back the bytes of the values of a [`SinkInfo`] from its part 4 on
/// gives them back.
#[verifier::rlimit(100)]
#[verifier::spinoff_prover]
proof fn lemma_sink_info_rest(i: SinkInfo, protocol_version: u16, rest: Seq<u8>)
    requires
        i.spec_encodable(protocol_version),
    ensures
        sink_info_parse_rest(values_bytes(sink_info_values_rest(i, protocol_version)) + rest, protocol_version) == Some(
            (sink_info_values_rest(i, protocol_version), values_bytes(sink_info_values_rest(i, protocol_version)).len() as int),
        ),
{
    let q0 = sink_info_tail15(i);
    let v0 = gated(protocol_version >= 15, q0.spec_values(protocol_version));
    let q1 = sink_info_ports(i);
    let v1 = gated(protocol_version >= 16, q1.spec_values(protocol_version));
    let q2 = sink_info_formats(i);
    let v2 = gated(protocol_version >= 21, q2.spec_values(protocol_version));
    let w2 = v2;
    let w1 = v1 + w2;
    let w0 = v0 + w1;
    lemma_values_bytes_concat(v0, w1);
    lemma_values_bytes_concat(v1, w2);
    let t0 = values_bytes(w0) + rest;
    let t1 = values_bytes(w1) + rest;
    let t2 = values_bytes(w2) + rest;
    let t3 = rest;
    let o0: int = 0;
    assert(t0.skip(o0) =~= t0);
    assert(t0 =~= values_bytes(v0) + t1);
    if protocol_version >= 15 {
        q0.lemma_roundtrip(protocol_version, t1);
    }
    let o1: int = o0 + values_bytes(v0).len();
    assert(t0.skip(values_bytes(v0).len() as int) =~= t1);
    assert(t0.skip(o1) =~= t1);
    assert(t1 =~= values_bytes(v1) + t2);
    if protocol_version >= 16 {
        q1.lemma_roundtrip(protocol_version, t2);
    }
    let o2: int = o1 + values_bytes(v1).len();
    assert(t1.skip(values_bytes(v1).len() as int) =~= t2);
    assert(t0.skip(o2) =~= t2);
    assert(t2 =~= values_bytes(v2) + t3);
    if protocol_version >= 21 {
        q2.lemma_roundtrip(protocol_version, t3);
    }
    let o3: int = o2 + values_bytes(v2).len();
    assert(t2.skip(values_bytes(v2).len() as int) =~= t3);
    assert(t0.skip(o3) =~= t3);
    assert(sink_info_values_rest(i, protocol_version) =~= w0);
    assert(values_bytes(w0) + rest == t0);
}

/// The bytes of the name of the dummy sink, "Dummy Sink".
pub open spec fn dummy_sink_name() -> Seq<u8> {
    seq![68u8, 117u8, 109u8, 109u8, 121u8, 32u8, 83u8, 105u8, 110u8, 107u8]
}

/// The bytes of the name of the port of the dummy sink, "Stereo Output".
pub open spec fn dummy_port_name() -> Seq<u8> {
    seq![83u8, 116u8, 101u8, 114u8, 101u8, 111u8, 32u8, 79u8, 117u8, 116u8, 112u8, 117u8, 116u8]
}

impl SinkInfo {
    /// The "dummy" sink that a server reports when it has no sinks: a stereo
    /// sink with one port, idle, at normal volume, that plays PCM.
    pub fn new_dummy(index: u32) -> (r: SinkInfo)
        ensures
            r.index == index,
            r.name@ == dummy_sink_name(),
            r.description is None,
            r.props@.len() == 0,
            r.state == SinkState::Idle,
            r.sample_spec == (SampleSpec { format: SampleFormat::S16Le, channels: 2, sample_rate: 48000 }),
            r.channel_map@ == seq![1u8, 2u8],
            r.owner_module_index is None,
            r.cvolume@ == seq![VOLUME_NORM, VOLUME_NORM],
            !r.muted,
            r.monitor_source_index is None,
            r.monitor_source_name is None,
            r.flags@ == 0,
            r.actual_latency == 0,
            r.configured_latency == 0,
            r.driver is None,
            r.base_volume@ == VOLUME_NORM,
            r.volume_steps is None,
            r.card_index is None,
            r.ports@.len() == 1,
            r.ports@[0].name@ == dummy_port_name(),
            r.ports@[0].description is None,
            r.ports@[0].dir == PortDirection::Input,
            r.ports@[0].priority == 0,
            r.ports@[0].available == PortAvailable::Yes,
            r.ports@[0].availability_group is None,
            r.ports@[0].port_type == PortType::Unknown,
            r.active_port == 0,
            r.formats@.len() == 1,
            r.formats@[0].encoding == FormatEncoding::Pcm,
            r.formats@[0].props@.len() == 0,
    {
        let port = PortInfo {
            name: CString::from_vec_unchecked(vec![83u8, 116, 101, 114, 101, 111, 32, 79, 117, 116, 112, 117, 116]),
            description: None,
            dir: PortDirection::Input,
            priority: 0,
            available: PortAvailable::Yes,
            availability_group: None,
            port_type: PortType::Unknown,
        };
        let cvolume = ChannelVolume::norm(2);
        assert(cvolume@ =~= seq![VOLUME_NORM, VOLUME_NORM]);
        SinkInfo {
            index,
            name: CString::from_vec_unchecked(vec![68u8, 117, 109, 109, 121, 32, 83, 105, 110, 107]),
            description: None,
            props: Props::new(),
            state: SinkState::Idle,
            sample_spec: SampleSpec { format: SampleFormat::S16Le, channels: 2, sample_rate: 48000 },
            channel_map: ChannelMap::stereo(),
            owner_module_index: None,
            cvolume,
            muted: false,
            monitor_source_index: None,
            monitor_source_name: None,
            flags: SinkFlags::empty(),
            actual_latency: 0,
            configured_latency: 0,
            driver: None,
            base_volume: Volume::norm(),
            volume_steps: None,
            card_index: None,
            ports: vec![port],
            active_port: 0,
            formats: vec![FormatInfo::new(FormatEncoding::Pcm)],
        }
    }
}

impl CommandReply for SinkInfo {}

/// The reply to [`super::Command::GetSinkInfoList`]: every sink, read up to
/// the end of the reply.
pub type SinkInfoList = Vec<SinkInfo>;

impl CommandReply for SinkInfoList {}



/// The values of a [`SinkInfo`] up to its volume.
#[derive(Debug, Clone, PartialEq, Eq)]
pub struct SinkHead {
    /// A value of the part.
    pub index: u32,

    /// A value of the part.
    pub name: CString,

    /// A value of the part.
    pub description: Option<CString>,

    /// A value of the part.
    pub sample_spec: SampleSpec,

    /// A value of the part.
    pub channel_map: ChannelMap,

    /// A value of the part.
    pub owner_module_index: Option<u32>,

    /// A value of the part.
    pub cvolume: ChannelVolume,
}

impl TagStructWrite for SinkHead {
    open spec fn spec_values(&self, protocol_version: u16) -> Seq<TagValue> {
        seq![
            TagValue::U32(self.index),
            TagValue::Str(self.name@),
            string_value(opt_cstr_view(self.description)),
            sample_spec_value(self.sample_spec),
            TagValue::ChannelMap(self.channel_map@),
            index_value(self.owner_module_index),
            TagValue::CVolume(self.cvolume@),
        ]
    }

    open spec fn spec_writable(&self) -> bool {
        true
    }

    fn write(&self, w: &mut TagStructWriter, _protocol_version: u16) -> (r: Result<(), ProtocolError>) {
        w.write_index(Some(self.index))?;
        w.write_string(Some(&self.name))?;
        w.write_string(self.description.as_ref())?;
        w.write_sample_spec(self.sample_spec)?;
        w.write_channel_map(&self.channel_map)?;
        w.write_index(self.owner_module_index)?;
        w.write_cvolume(&self.cvolume)?;
        proof {
            lemma_values_bytes_7(
                TagValue::U32(self.index),
                TagValue::Str(self.name@),
                string_value(opt_cstr_view(self.description)),
                sample_spec_value(self.sample_spec),
                TagValue::ChannelMap(self.channel_map@),
                index_value(self.owner_module_index),
                TagValue::CVolume(self.cvolume@),
            );
        }
        assert(w.bytes() =~= old(w).bytes() + values_bytes(self.spec_values(_protocol_version)));
        Ok(())
    }
}

impl TagStructRead for SinkHead {
    open spec fn spec_parse(s: Seq<u8>, protocol_version: u16) -> Option<(Seq<TagValue>, int)> {
        match parse_values(s, 7) {
            Some((vs, n)) => if (vs[0] matches TagValue::U32(x) && x != INVALID_INDEX)
                && vs[1] is Str
                && (vs[2] is Str || vs[2] is NullStr)
                && (vs[3] matches TagValue::SampleSpec(f, _, _) && sample_format_of_code(f) is Some)
                && (vs[4] matches TagValue::ChannelMap(c) && positions_valid(c))
                && vs[5] is U32
                && vs[6] is CVolume
            {
                Some((vs, n))
            } else {
                None
            },
            None => None,
        }
    }

    open spec fn spec_canonical(&self, protocol_version: u16) -> bool {
        true
    }

    open spec fn spec_encodable(&self, protocol_version: u16) -> bool {
        &&& values_wf(self.spec_values(protocol_version))
        &&& self.index != INVALID_INDEX
        &&& index_encodable(self.owner_module_index)
        &&& self.spec_canonical(protocol_version)
    }

    #[verifier::rlimit(100)]
    #[verifier::spinoff_prover]
    fn read(ts: &mut TagStructReader, _protocol_version: u16) -> (r: Result<Self, ProtocolError>)
        ensures
            parse_value(old(ts).rest()) matches Some((TagValue::U32(x), _)) && x == INVALID_INDEX ==> (r matches Err(e)
                && e.is_invalid()),
    {
        let ghost s = ts.rest();
        let ghost total: int = 7;
        proof {
            lemma_parse_values_start(s, total);
            lemma_parse_values_next(s, Seq::empty(), ts.rest(), total - 1);
        }
        let index = match ts.read_index()? {
            Some(i) => i,
            None => {
                return Err(ProtocolError::Invalid("invalid sink index".to_owned()));
            },
        };
        proof {
            assert(parse_values(s, total as nat) == parse_values_after(
                seq![TagValue::U32(index)],
                s.len() - ts.rest().len(),
                ts.rest(),
                total - 1,
            ));
            lemma_parse_values_next(s, seq![TagValue::U32(index)], ts.rest(), total - 2);
        }
        let name = ts.read_string_non_null()?;
        proof {
            assert(parse_values(s, total as nat) == parse_values_after(
                seq![TagValue::U32(index), TagValue::Str(name@)],
                s.len() - ts.rest().len(),
                ts.rest(),
                total - 2,
            ));
            lemma_parse_values_next(
                s,
                seq![TagValue::U32(index), TagValue::Str(name@)],
                ts.rest(),
                total - 3,
            );
        }
        let description = ts.read_string()?;
        proof {
            assert(parse_values(s, total as nat) == parse_values_after(
                seq![
                    TagValue::U32(index),
                    TagValue::Str(name@),
                    string_value(opt_cstr_view(description)),
                ],
                s.len() - ts.rest().len(),
                ts.rest(),
                total - 3,
            ));
            lemma_parse_values_next(
                s,
                seq![
                    TagValue::U32(index),
                    TagValue::Str(name@),
                    string_value(opt_cstr_view(description)),
                ],
                ts.rest(),
                total - 4,
            );
        }
        let sample_spec = ts.read_sample_spec()?;
        proof {
            assert(parse_values(s, total as nat) == parse_values_after(
                seq![
                    TagValue::U32(index),
                    TagValue::Str(name@),
                    string_value(opt_cstr_view(description)),
                    sample_spec_value(sample_spec),
                ],
                s.len() - ts.rest().len(),
                ts.rest(),
                total - 4,
            ));
            lemma_parse_values_next(
                s,
                seq![
                    TagValue::U32(index),
                    TagValue::Str(name@),
                    string_value(opt_cstr_view(description)),
                    sample_spec_value(sample_spec),
                ],
                ts.rest(),
                total - 5,
            );
        }
        let channel_map = ts.read_channel_map()?;
        proof {
            assert(parse_values(s, total as nat) == parse_values_after(
                seq![
                    TagValue::U32(index),
                    TagValue::Str(name@),
                    string_value(opt_cstr_view(description)),
                    sample_spec_value(sample_spec),
                    TagValue::ChannelMap(channel_map@),
                ],
                s.len() - ts.rest().len(),
                ts.rest(),
                total - 5,
            ));
            lemma_parse_values_next(
                s,
                seq![
                    TagValue::U32(index),
                    TagValue::Str(name@),
                    string_value(opt_cstr_view(description)),
                    sample_spec_value(sample_spec),
                    TagValue::ChannelMap(channel_map@),
                ],
                ts.rest(),
                total - 6,
            );
        }
        let owner_module_index = ts.read_index()?;
        proof {
            assert(parse_values(s, total as nat) == parse_values_after(
                seq![
                    TagValue::U32(index),
                    TagValue::Str(name@),
                    string_value(opt_cstr_view(description)),
                    sample_spec_value(sample_spec),
                    TagValue::ChannelMap(channel_map@),
                    index_value(owner_module_index),
                ],
                s.len() - ts.rest().len(),
                ts.rest(),
                total - 6,
            ));
            lemma_parse_values_next(
                s,
                seq![
                    TagValue::U32(index),
                    TagValue::Str(name@),
                    string_value(opt_cstr_view(description)),
                    sample_spec_value(sample_spec),
                    TagValue::ChannelMap(channel_map@),
                    index_value(owner_module_index),
                ],
                ts.rest(),
                total - 7,
            );
        }
        let cvolume = ts.read_cvolume()?;
        proof {
            assert(parse_values(s, total as nat) == parse_values_after(
                seq![
                    TagValue::U32(index),
                    TagValue::Str(name@),
                    string_value(opt_cstr_view(description)),
                    sample_spec_value(sample_spec),
                    TagValue::ChannelMap(channel_map@),
                    index_value(owner_module_index),
                    TagValue::CVolume(cvolume@),
                ],
                s.len() - ts.rest().len(),
                ts.rest(),
                total - 7,
            ));
            lemma_parse_values_done(
                seq![
                    TagValue::U32(index),
                    TagValue::Str(name@),
                    string_value(opt_cstr_view(description)),
                    sample_spec_value(sample_spec),
                    TagValue::ChannelMap(channel_map@),
                    index_value(owner_module_index),
                    TagValue::CVolume(cvolume@),
                ],
                s.len() - ts.rest().len(),
                ts.rest(),
            );
        }
        Ok(SinkHead {
            index,
            name,
            description,
            sample_spec,
            channel_map,
            owner_module_index,
            cvolume,
        })
    }

    proof fn lemma_roundtrip(&self, protocol_version: u16, rest: Seq<u8>) {
        lemma_sample_format_roundtrip(self.sample_spec.format);
        lemma_channel_map_valid(self.channel_map);
        lemma_parse_values_bytes(self.spec_values(protocol_version), rest);
    }
}

/// The values of a [`SinkInfo`] from its mute flag to its driver.
#[derive(Debug, Clone, PartialEq, Eq)]
pub struct SinkMid {
    /// A value of the part.
    pub muted: bool,

    /// A value of the part.
    pub monitor_source_index: Option<u32>,

    /// A value of the part.
    pub monitor_source_name: Option<CString>,

    /// A value of the part.
    pub actual_latency: u64,

    /// A value of the part.
    pub driver: Option<CString>,
}

impl TagStructWrite for SinkMid {
    open spec fn spec_values(&self, protocol_version: u16) -> Seq<TagValue> {
        seq![
            TagValue::Bool(self.muted),
            index_value(self.monitor_source_index),
            string_value(opt_cstr_view(self.monitor_source_name)),
            TagValue::Usec(self.actual_latency),
            string_value(opt_cstr_view(self.driver)),
        ]
    }

    open spec fn spec_writable(&self) -> bool {
        true
    }

    fn write(&self, w: &mut TagStructWriter, _protocol_version: u16) -> (r: Result<(), ProtocolError>) {
        w.write_bool(self.muted)?;
        w.write_index(self.monitor_source_index)?;
        w.write_string(self.monitor_source_name.as_ref())?;
        w.write_usec(self.actual_latency)?;
        w.write_string(self.driver.as_ref())?;
        proof {
            lemma_values_bytes_5(
                TagValue::Bool(self.muted),
                index_value(self.monitor_source_index),
                string_value(opt_cstr_view(self.monitor_source_name)),
                TagValue::Usec(self.actual_latency),
                string_value(opt_cstr_view(self.driver)),
            );
        }
        assert(w.bytes() =~= old(w).bytes() + values_bytes(self.spec_values(_protocol_version)));
        Ok(())
    }
}

impl TagStructRead for SinkMid {
    open spec fn spec_parse(s: Seq<u8>, protocol_version: u16) -> Option<(Seq<TagValue>, int)> {
        match parse_values(s, 5) {
            Some((vs, n)) => if vs[0] is Bool
                && vs[1] is U32
                && (vs[2] is Str || vs[2] is NullStr)
                && vs[3] is Usec
                && (vs[4] is Str || vs[4] is NullStr)
            {
                Some((vs, n))
            } else {
                None
            },
            None => None,
        }
    }

    open spec fn spec_canonical(&self, protocol_version: u16) -> bool {
        true
    }

    open spec fn spec_encodable(&self, protocol_version: u16) -> bool {
        &&& values_wf(self.spec_values(protocol_version))
        &&& index_encodable(self.monitor_source_index)
        &&& self.spec_canonical(protocol_version)
    }

    fn read(ts: &mut TagStructReader, _protocol_version: u16) -> (r: Result<Self, ProtocolError>) {
        let ghost s = ts.rest();
        let ghost total: int = 5;
        proof {
            lemma_parse_values_start(s, total);
            lemma_parse_values_next(s, Seq::empty(), ts.rest(), total - 1);
        }
        let muted = ts.read_bool()?;
        proof {
            assert(parse_values(s, total as nat) == parse_values_after(
                seq![TagValue::Bool(muted)],
                s.len() - ts.rest().len(),
                ts.rest(),
                total - 1,
            ));
            lemma_parse_values_next(s, seq![TagValue::Bool(muted)], ts.rest(), total - 2);
        }
        let monitor_source_index = ts.read_index()?;
        proof {
            assert(parse_values(s, total as nat) == parse_values_after(
                seq![TagValue::Bool(muted), index_value(monitor_source_index)],
                s.len() - ts.rest().len(),
                ts.rest(),
                total - 2,
            ));
            lemma_parse_values_next(
                s,
                seq![TagValue::Bool(muted), index_value(monitor_source_index)],
                ts.rest(),
                total - 3,
            );
        }
        let monitor_source_name = ts.read_string()?;
        proof {
            assert(parse_values(s, total as nat) == parse_values_after(
                seq![
                    TagValue::Bool(muted),
                    index_value(monitor_source_index),
                    string_value(opt_cstr_view(monitor_source_name)),
                ],
                s.len() - ts.rest().len(),
                ts.rest(),
                total - 3,
            ));
            lemma_parse_values_next(
                s,
                seq![
                    TagValue::Bool(muted),
                    index_value(monitor_source_index),
                    string_value(opt_cstr_view(monitor_source_name)),
                ],
                ts.rest(),
                total - 4,
            );
        }
        let actual_latency = ts.read_usec()?;
        proof {
            assert(parse_values(s, total as nat) == parse_values_after(
                seq![
                    TagValue::Bool(muted),
                    index_value(monitor_source_index),
                    string_value(opt_cstr_view(monitor_source_name)),
                    TagValue::Usec(actual_latency),
                ],
                s.len() - ts.rest().len(),
                ts.rest(),
                total - 4,
            ));
            lemma_parse_values_next(
                s,
                seq![
                    TagValue::Bool(muted),
                    index_value(monitor_source_index),
                    string_value(opt_cstr_view(monitor_source_name)),
                    TagValue::Usec(actual_latency),
                ],
                ts.rest(),
                total - 5,
            );
        }
        let driver = ts.read_string()?;
        proof {
            assert(parse_values(s, total as nat) == parse_values_after(
                seq![
                    TagValue::Bool(muted),
                    index_value(monitor_source_index),
                    string_value(opt_cstr_view(monitor_source_name)),
                    TagValue::Usec(actual_latency),
                    string_value(opt_cstr_view(driver)),
                ],
                s.len() - ts.rest().len(),
                ts.rest(),
                total - 5,
            ));
            lemma_parse_values_done(
                seq![
                    TagValue::Bool(muted),
                    index_value(monitor_source_index),
                    string_value(opt_cstr_view(monitor_source_name)),
                    TagValue::Usec(actual_latency),
                    string_value(opt_cstr_view(driver)),
                ],
                s.len() - ts.rest().len(),
                ts.rest(),
            );
        }
        Ok(SinkMid {
            muted,
            monitor_source_index,
            monitor_source_name,
            actual_latency,
            driver,
        })
    }

    proof fn lemma_roundtrip(&self, protocol_version: u16, rest: Seq<u8>) {
        lemma_parse_values_bytes(self.spec_values(protocol_version), rest);
    }
}

/// The properties and the configured latency of a [`SinkInfo`].
#[derive(Debug, Clone, PartialEq, Eq)]
pub struct SinkProps {
    /// A value of the part.
    pub props: Props,

    /// A value of the part.
    pub configured_latency: u64,
}

impl TagStructWrite for SinkProps {
    open spec fn spec_values(&self, protocol_version: u16) -> Seq<TagValue> {
        seq![TagValue::PropList(self.props@), TagValue::Usec(self.configured_latency)]
    }

    open spec fn spec_writable(&self) -> bool {
        true
    }

    fn write(&self, w: &mut TagStructWriter, _protocol_version: u16) -> (r: Result<(), ProtocolError>) {
        w.write_props(&self.props)?;
        w.write_usec(self.configured_latency)?;
        proof {
            lemma_values_bytes_2(
                TagValue::PropList(self.props@),
                TagValue::Usec(self.configured_latency),
            );
        }
        assert(w.bytes() =~= old(w).bytes() + values_bytes(self.spec_values(_protocol_version)));
        Ok(())
    }
}

impl TagStructRead for SinkProps {
    open spec fn spec_parse(s: Seq<u8>, protocol_version: u16) -> Option<(Seq<TagValue>, int)> {
        match parse_values(s, 2) {
            Some((vs, n)) => if vs[0] is PropList && vs[1] is Usec {
                Some((vs, n))
            } else {
                None
            },
            None => None,
        }
    }

    open spec fn spec_canonical(&self, protocol_version: u16) -> bool {
        true
    }

    open spec fn spec_encodable(&self, protocol_version: u16) -> bool {
        &&& values_wf(self.spec_values(protocol_version))
        &&& self.spec_canonical(protocol_version)
    }

    fn read(ts: &mut TagStructReader, _protocol_version: u16) -> (r: Result<Self, ProtocolError>) {
        let ghost s = ts.rest();
        let ghost total: int = 2;
        proof {
            lemma_parse_values_start(s, total);
            lemma_parse_values_next(s, Seq::empty(), ts.rest(), total - 1);
        }
        let props = ts.read_props()?;
        proof {
            assert(parse_values(s, total as nat) == parse_values_after(
                seq![TagValue::PropList(props@)],
                s.len() - ts.rest().len(),
                ts.rest(),
                total - 1,
            ));
            lemma_parse_values_next(s, seq![TagValue::PropList(props@)], ts.rest(), total - 2);
        }
        let configured_latency = ts.read_usec()?;
        proof {
            assert(parse_values(s, total as nat) == parse_values_after(
                seq![TagValue::PropList(props@), TagValue::Usec(configured_latency)],
                s.len() - ts.rest().len(),
                ts.rest(),
                total - 2,
            ));
            lemma_parse_values_done(
                seq![TagValue::PropList(props@), TagValue::Usec(configured_latency)],
                s.len() - ts.rest().len(),
                ts.rest(),
            );
        }
        Ok(SinkProps {
            props,
            configured_latency,
        })
    }

    proof fn lemma_roundtrip(&self, protocol_version: u16, rest: Seq<u8>) {
        lemma_parse_values_bytes(self.spec_values(protocol_version), rest);
    }
}

/// The values of a [`SinkInfo`] sent from protocol version 15 on.
#[derive(Debug, Clone, PartialEq, Eq)]
pub struct SinkTail15 {
    /// A value of the part.
    pub base_volume: Volume,

    /// A value of the part.
    pub state: SinkState,

    /// A value of the part.
    pub volume_steps: Option<u32>,

    /// A value of the part.
    pub card_index: Option<u32>,
}

impl TagStructWrite for SinkTail15 {
    open spec fn spec_values(&self, protocol_version: u16) -> Seq<TagValue> {
        seq![
            TagValue::Volume(self.base_volume@),
            TagValue::U32(sink_state_code(self.state)),
            TagValue::U32(volume_steps_code(self.volume_steps)),
            index_value(self.card_index),
        ]
    }

    open spec fn spec_writable(&self) -> bool {
        true
    }

    fn write(&self, w: &mut TagStructWriter, _protocol_version: u16) -> (r: Result<(), ProtocolError>) {
        w.write_volume(self.base_volume)?;
        w.write_u32(self.state.to_u32())?;
        w.write_u32(match self.volume_steps {
            Some(n) => n,
            None => 0,
        })?;
        w.write_index(self.card_index)?;
        proof {
            lemma_values_bytes_4(
                TagValue::Volume(self.base_volume@),
                TagValue::U32(sink_state_code(self.state)),
                TagValue::U32(volume_steps_code(self.volume_steps)),
                index_value(self.card_index),
            );
        }
        assert(w.bytes() =~= old(w).bytes() + values_bytes(self.spec_values(_protocol_version)));
        Ok(())
    }
}

impl TagStructRead for SinkTail15 {
    open spec fn spec_parse(s: Seq<u8>, protocol_version: u16) -> Option<(Seq<TagValue>, int)> {
        match parse_values(s, 4) {
            Some((vs, n)) => if vs[0] is Volume
                && (vs[1] matches TagValue::U32(x) && sink_state_of_code(x) is Some)
                && vs[2] is U32
                && vs[3] is U32
            {
                Some((vs, n))
            } else {
                None
            },
            None => None,
        }
    }

    open spec fn spec_canonical(&self, protocol_version: u16) -> bool {
        self.volume_steps != Some(0u32)
    }

    open spec fn spec_encodable(&self, protocol_version: u16) -> bool {
        &&& values_wf(self.spec_values(protocol_version))
        &&& index_encodable(self.card_index)
        &&& self.spec_canonical(protocol_version)
    }

    fn read(ts: &mut TagStructReader, _protocol_version: u16) -> (r: Result<Self, ProtocolError>) {
        let ghost s = ts.rest();
        let ghost total: int = 4;
        proof {
            lemma_parse_values_start(s, total);
            lemma_parse_values_next(s, Seq::empty(), ts.rest(), total - 1);
        }
        let base_volume = ts.read_volume()?;
        proof {
            assert(parse_values(s, total as nat) == parse_values_after(
                seq![TagValue::Volume(base_volume@)],
                s.len() - ts.rest().len(),
                ts.rest(),
                total - 1,
            ));
            lemma_parse_values_next(s, seq![TagValue::Volume(base_volume@)], ts.rest(), total - 2);
        }
        let state = match SinkState::from_u32(ts.read_u32()?) {
            Some(st) => st,
            None => {
                return Err(ProtocolError::Invalid("invalid sink state".to_owned()));
            },
        };
        proof {
            assert(parse_values(s, total as nat) == parse_values_after(
                seq![TagValue::Volume(base_volume@), TagValue::U32(sink_state_code(state))],
                s.len() - ts.rest().len(),
                ts.rest(),
                total - 2,
            ));
            lemma_parse_values_next(
                s,
                seq![TagValue::Volume(base_volume@), TagValue::U32(sink_state_code(state))],
                ts.rest(),
                total - 3,
            );
        }
        let volume_steps = {
            let n = ts.read_u32()?;
            if n == 0 {
                None
            } else {
                Some(n)
            }
        };
        proof {
            assert(parse_values(s, total as nat) == parse_values_after(
                seq![
                    TagValue::Volume(base_volume@),
                    TagValue::U32(sink_state_code(state)),
                    TagValue::U32(volume_steps_code(volume_steps)),
                ],
                s.len() - ts.rest().len(),
                ts.rest(),
                total - 3,
            ));
            lemma_parse_values_next(
                s,
                seq![
                    TagValue::Volume(base_volume@),
                    TagValue::U32(sink_state_code(state)),
                    TagValue::U32(volume_steps_code(volume_steps)),
                ],
                ts.rest(),
                total - 4,
            );
        }
        let card_index = ts.read_index()?;
        proof {
            assert(parse_values(s, total as nat) == parse_values_after(
                seq![
                    TagValue::Volume(base_volume@),
                    TagValue::U32(sink_state_code(state)),
                    TagValue::U32(volume_steps_code(volume_steps)),
                    index_value(card_index),
                ],
                s.len() - ts.rest().len(),
                ts.rest(),
                total - 4,
            ));
            lemma_parse_values_done(
                seq![
                    TagValue::Volume(base_volume@),
                    TagValue::U32(sink_state_code(state)),
                    TagValue::U32(volume_steps_code(volume_steps)),
                    index_value(card_index),
                ],
                s.len() - ts.rest().len(),
                ts.rest(),
            );
        }
        Ok(SinkTail15 {
            base_volume,
            state,
            volume_steps,
            card_index,
        })
    }

    proof fn lemma_roundtrip(&self, protocol_version: u16, rest: Seq<u8>) {
        lemma_sink_state_roundtrip(self.state);
        lemma_parse_values_bytes(self.spec_values(protocol_version), rest);
    }
}


/// The numbers that stand for the sink states on the wire, as the PulseAudio protocol
/// assigns them, in both directions.
pub proof fn lemma_sink_state_table()
    ensures
        sink_state_code(SinkState::Running) == 0,
        sink_state_code(SinkState::Idle) == 1,
        sink_state_code(SinkState::Suspended) == 2,
        sink_state_of_code(0) == Some(SinkState::Running),
        sink_state_of_code(1) == Some(SinkState::Idle),
        sink_state_of_code(2) == Some(SinkState::Suspended),
{
}


/// The values a [`SinkFlags`] is sent as, position by position: whatever a read
/// gives from the values `vs` holds each field from its own position.
pub proof fn lemma_sink_flags_layout(q: SinkFlags, vs: Seq<TagValue>, protocol_version: u16)
    requires
        q.spec_values(protocol_version) == vs,
    ensures
        vs == (
            seq![TagValue::U32(q@)]
        ),
{
}

/// The values a [`SinkHead`] is sent as, position by position: whatever a read
/// gives from the values `vs` holds each field from its own position.
pub proof fn lemma_sink_head_layout(q: SinkHead, vs: Seq<TagValue>, protocol_version: u16)
    requires
        q.spec_values(protocol_version) == vs,
    ensures
        vs == (
            seq![
                    TagValue::U32(q.index),
                    TagValue::Str(q.name@),
                    string_value(opt_cstr_view(q.description)),
                    sample_spec_value(q.sample_spec),
                    TagValue::ChannelMap(q.channel_map@),
                    index_value(q.owner_module_index),
                    TagValue::CVolume(q.cvolume@),
                ]
        ),
{
}

/// The values a [`SinkMid`] is sent as, position by position: whatever a read
/// gives from the values `vs` holds each field from its own position.
pub proof fn lemma_sink_mid_layout(q: SinkMid, vs: Seq<TagValue>, protocol_version: u16)
    requires
        q.spec_values(protocol_version) == vs,
    ensures
        vs == (
            seq![
                    TagValue::Bool(q.muted),
                    index_value(q.monitor_source_index),
                    string_value(opt_cstr_view(q.monitor_source_name)),
                    TagValue::Usec(q.actual_latency),
                    string_value(opt_cstr_view(q.driver)),
                ]
        ),
{
}

/// The values a [`SinkProps`] is sent as, position by position: whatever a read
/// gives from the values `vs` holds each field from its own position.
pub proof fn lemma_sink_props_layout(q: SinkProps, vs: Seq<TagValue>, protocol_version: u16)
    requires
        q.spec_values(protocol_version) == vs,
    ensures
        vs == (
            seq![TagValue::PropList(q.props@), TagValue::Usec(q.configured_latency)]
        ),
{
}

/// The values a [`SinkTail15`] is sent as, position by position: whatever a read
/// gives from the values `vs` holds each field from its own position.
pub proof fn lemma_sink_tail15_layout(q: SinkTail15, vs: Seq<TagValue>, protocol_version: u16)
    requires
        q.spec_values(protocol_version) == vs,
    ensures
        vs == (
            seq![
                    TagValue::Volume(q.base_volume@),
                    TagValue::U32(sink_state_code(q.state)),
                    TagValue::U32(volume_steps_code(q.volume_steps)),
                    index_value(q.card_index),
                ]
        ),
{
}


/// The values a [`SinkInfo`] is sent as, position by position, at a protocol
/// version.
#[verifier::rlimit(100)]
pub proof fn lemma_sink_info_layout(q: SinkInfo, vs: Seq<TagValue>, protocol_version: u16)
    requires
        q.spec_values(protocol_version) == vs,
    ensures
        vs =~= seq![
            TagValue::U32(q.index),
            TagValue::Str(q.name@),
            string_value(opt_cstr_view(q.description)),
            sample_spec_value(q.sample_spec),
            TagValue::ChannelMap(q.channel_map@),
            index_value(q.owner_module_index),
            TagValue::CVolume(q.cvolume@),
            TagValue::Bool(q.muted),
            index_value(q.monitor_source_index),
            string_value(opt_cstr_view(q.monitor_source_name)),
            TagValue::Usec(q.actual_latency),
            string_value(opt_cstr_view(q.driver)),
            TagValue::U32(q.flags@),
        ] + seq![TagValue::PropList(q.props@), TagValue::Usec(q.configured_latency)] + (if protocol_version >= 15 { seq![TagValue::Volume(q.base_volume@), TagValue::U32(sink_state_code(q.state)), TagValue::U32(volume_steps_code(q.volume_steps)), index_value(q.card_index)] } else { Seq::empty() })
            + (if protocol_version >= 16 { port_list_values(q.ports@, q.active_port, protocol_version, true) } else { Seq::empty() })
            + (if protocol_version >= 21 { formats_values(q.formats@, protocol_version) } else { Seq::empty() }),
{
}

} // verus!
