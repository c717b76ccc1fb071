//! The sources of the server: their state, flags, ports and the information
//! the server gives about them.

use vstd::prelude::*;

use crate::protocol::error::ProtocolError;
use crate::protocol::serde::fields::{
    lemma_values_bytes_2, lemma_values_bytes_4, lemma_values_bytes_5, lemma_values_bytes_7,
};
use crate::protocol::serde::wire::{
    TagValue, lemma_parse_values_bytes, lemma_parse_values_done, lemma_parse_values_next,
    lemma_parse_values_start, parse_values, parse_values_after, values_bytes, values_wf,
};
use crate::protocol::serde::{
    INVALID_INDEX, TagStructRead, TagStructReader, TagStructWrite, TagStructWriter, index_encodable,
    index_value, opt_cstr_view, string_value,
};
use crate::protocol::serde::channel_map::{ChannelMap, lemma_channel_map_valid, positions_valid};
use crate::protocol::serde::cstr::CString;
use crate::protocol::serde::props::Props;
use crate::protocol::serde::sample_spec::{SampleSpec, lemma_sample_format_roundtrip, sample_format_of_code, sample_spec_value};
use crate::protocol::serde::volume::{ChannelVolume, Volume};

use super::CommandReply;
use super::stream_params::{FormatList, formats_values, gated, gated_parse, write_formats};
use crate::protocol::serde::fields::{lemma_parse_value_len, lemma_parse_values_1, lemma_values_bytes_1};
use crate::protocol::serde::format_info::FormatInfo;
use crate::protocol::serde::port_info::{SourcePorts, PortInfo, port_list_values, write_port_list};
use crate::protocol::serde::volume::VOLUME_NORM;
use crate::protocol::serde::wire::{lemma_values_bytes_concat, lemma_values_bytes_push, parse_value};
use super::sink_info::volume_steps_code;

verus! {


/// The state of a source.
#[derive(Debug, Copy, Clone, PartialEq, Eq, Structural)]
pub enum SourceState {
    /// The source is recording and used by at least one non-corked source output.
    Running,
    /// The source is still recording, but there is no non-corked source output.
    Idle,
    /// The source is suspended and not recording.
    Suspended,
}

/// The number that stands for a source state on the wire.
pub open spec fn source_state_code(s: SourceState) -> u32 {
    match s {
        SourceState::Running => 0,
        SourceState::Idle => 1,
        SourceState::Suspended => 2,
    }
}

/// The source state a number stands for, if any.
pub open spec fn source_state_of_code(v: u32) -> Option<SourceState> {
    if v == 0 {
        Some(SourceState::Running)
    } else if v == 1 {
        Some(SourceState::Idle)
    } else if v == 2 {
        Some(SourceState::Suspended)
    } else {
        None
    }
}

impl SourceState {
    /// The number that stands for the state on the wire.
    pub fn to_u32(self) -> (r: u32)
        ensures
            r == source_state_code(self),
    {
        match self {
            SourceState::Running => 0,
            SourceState::Idle => 1,
            SourceState::Suspended => 2,
        }
    }

    /// The state a number stands for, or `None` for a number that stands for
    /// none.
    pub fn from_u32(v: u32) -> (r: Option<SourceState>)
        ensures
            r == source_state_of_code(v),
    {
        if v == 0 {
            Some(SourceState::Running)
        } else if v == 1 {
            Some(SourceState::Idle)
        } else if v == 2 {
            Some(SourceState::Suspended)
        } else {
            None
        }
    }
}

impl Default for SourceState {
    fn default() -> (r: Self)
        ensures
            r == SourceState::Suspended,
    {
        SourceState::Suspended
    }
}

/// Every source state is read back from its own number.
pub proof fn lemma_source_state_roundtrip(s: SourceState)
    ensures
        source_state_of_code(source_state_code(s)) == Some(s),
{
}


/// Whether `s` starts with a valid index followed by a null string: a
/// source with no name.
pub open spec fn index_then_null_name(s: Seq<u8>) -> bool {
    match parse_value(s) {
        Some((TagValue::U32(x), k)) => x != INVALID_INDEX && match parse_value(s.skip(k)) {
            Some((TagValue::NullStr, _)) => true,
            _ => false,
        },
        _ => false,
    }
}

/// Every flag a source can have.
pub const SOURCE_FLAGS_ALL: u32 = 0x00ff;

/// The flags a source is configured with, as a bit mask.
#[derive(Debug, Copy, Clone, PartialEq, Eq)]
pub struct SourceFlags {
    bits: u32,
}

impl View for SourceFlags {
    type V = u32;

    closed spec fn view(&self) -> u32 {
        self.bits
    }
}

impl SourceFlags {
    /// The source supports hardware volume control.
    pub const HW_VOLUME_CTRL: u32 = 0x0001;
    /// The source supports latency querying.
    pub const LATENCY: u32 = 0x0002;
    /// The source is a hardware source, not a virtual or software one.
    pub const HARDWARE: u32 = 0x0004;
    /// The source is a networked source.
    pub const NETWORK: u32 = 0x0008;
    /// The source supports hardware mute control.
    pub const HW_MUTE_CTRL: u32 = 0x0010;
    /// The volume can be translated to decibels.
    pub const DECIBEL_VOLUME: u32 = 0x0020;
    /// The latency of the source can be adjusted dynamically.
    pub const DYNAMIC_LATENCY: u32 = 0x0040;
    /// The source is in "flat volume" mode: its volume is the maximum of
    /// those of its outputs.
    pub const FLAT_VOLUME: u32 = 0x0080;

    /// The known flags among `bits`; unknown bits are dropped.
    pub fn from_bits_truncate(bits: u32) -> (r: SourceFlags)
        ensures
            r@ == bits & SOURCE_FLAGS_ALL,
    {
        SourceFlags { bits: bits & SOURCE_FLAGS_ALL }
    }

    /// No flags.
    pub fn empty() -> (r: SourceFlags)
        ensures
            r@ == 0,
    {
        SourceFlags { bits: 0 }
    }

    /// The bits of the mask.
    pub fn bits(&self) -> (r: u32)
        ensures
            r == self@,
    {
        self.bits
    }
}

impl TagStructWrite for SourceFlags {
    open spec fn spec_values(&self, protocol_version: u16) -> Seq<TagValue> {
        seq![TagValue::U32(self@)]
    }

    open spec fn spec_writable(&self) -> bool {
        true
    }

    fn write(&self, w: &mut TagStructWriter, _protocol_version: u16) -> (r: Result<(), ProtocolError>) {
        w.write_u32(self.bits)?;
        proof {
            lemma_values_bytes_1(TagValue::U32(self@));
        }
        Ok(())
    }
}

impl TagStructRead for SourceFlags {
    /// Unknown flags are dropped.
    open spec fn spec_parse(s: Seq<u8>, protocol_version: u16) -> Option<(Seq<TagValue>, int)> {
        match parse_values(s, 1) {
            Some((vs, n)) => match vs[0] {
                TagValue::U32(x) => Some((seq![TagValue::U32(x & SOURCE_FLAGS_ALL)], n)),
                _ => None,
            },
            None => None,
        }
    }

    open spec fn spec_canonical(&self, protocol_version: u16) -> bool {
        self@ & SOURCE_FLAGS_ALL == self@
    }

    open spec fn spec_encodable(&self, protocol_version: u16) -> bool {
        self@ & SOURCE_FLAGS_ALL == self@
    }

    fn read(ts: &mut TagStructReader, _protocol_version: u16) -> (r: Result<Self, ProtocolError>) {
        proof {
            lemma_parse_values_1(ts.rest());
            lemma_parse_value_len(ts.rest());
        }
        let x = ts.read_u32()?;
        let f = SourceFlags::from_bits_truncate(x);
        assert((x & SOURCE_FLAGS_ALL) & SOURCE_FLAGS_ALL == x & SOURCE_FLAGS_ALL) by (bit_vector);
        Ok(f)
    }

    proof fn lemma_roundtrip(&self, protocol_version: u16, rest: Seq<u8>) {
        lemma_parse_values_bytes(self.spec_values(protocol_version), rest);
    }
}

/// A source of the server, in reply to [`super::Command::GetSourceInfo`].
#[derive(Debug, Clone, PartialEq, Eq)]
pub struct SourceInfo {
    /// The index of the source.
    pub index: u32,

    /// The name of the source.
    pub name: CString,

    /// A description of the source.
    pub description: Option<CString>,

    /// Properties of the source; sent from protocol version 13 on.
    pub props: Props,

    /// The state of the source; sent from protocol version 15 on.
    pub state: SourceState,

    /// The format of the samples of the source.
    pub sample_spec: SampleSpec,

    /// The positions of the channels of the source.
    pub channel_map: ChannelMap,

    /// The index of the module that owns the source.
    pub owner_module_index: Option<u32>,

    /// The volume of the source.
    pub cvolume: ChannelVolume,

    /// The base volume of the source; sent from protocol version 15 on, and
    /// normal before.
    pub base_volume: Volume,

    /// The number of volume steps of a source without arbitrary volumes; sent
    /// from protocol version 15 on, as 0 for none.
    pub volume_steps: Option<u32>,

    /// Whether the source is muted.
    pub muted: bool,

    /// The index of the sink this source monitors, if it is a monitor source.
    pub monitor_of_sink_index: Option<u32>,

    /// The name of the sink this source monitors, if it is a monitor
    /// source.
    pub monitor_of_sink_name: Option<CString>,

    /// The flags the source is configured with.
    pub flags: SourceFlags,

    /// The latency of the source, in microseconds.
    pub actual_latency: u64,

    /// The configured latency of the source, in microseconds; sent from
    /// protocol version 13 on.
    pub configured_latency: u64,

    /// The name of the driver of the source.
    pub driver: Option<CString>,

    /// The index of the card the source belongs to; sent from protocol version
    /// 15 on.
    pub card_index: Option<u32>,

    /// The ports of the source; sent from protocol version 16 on.
    pub ports: Vec<PortInfo>,

    /// The index of the active port.
    pub active_port: usize,

    /// The formats the source supports; sent from protocol version 21 on.
    pub formats: Vec<FormatInfo>,
}

/// The part of a [`SourceInfo`] up to its volume.
pub open spec fn source_info_head(i: SourceInfo) -> SourceHead {
    SourceHead {
        index: i.index,
        name: i.name,
        description: i.description,
        sample_spec: i.sample_spec,
        channel_map: i.channel_map,
        owner_module_index: i.owner_module_index,
        cvolume: i.cvolume,
    }
}

/// The part of a [`SourceInfo`] from its mute flag to its driver.
pub open spec fn source_info_mid(i: SourceInfo) -> SourceMid {
    SourceMid {
        muted: i.muted,
        monitor_of_sink_index: i.monitor_of_sink_index,
        monitor_of_sink_name: i.monitor_of_sink_name,
        actual_latency: i.actual_latency,
        driver: i.driver,
    }
}

/// The flags of a [`SourceInfo`].
pub open spec fn source_info_flags(i: SourceInfo) -> SourceFlags {
    i.flags
}

/// The properties and configured latency of a [`SourceInfo`].
pub open spec fn source_info_props(i: SourceInfo) -> SourceProps {
    SourceProps {
        props: i.props,
        configured_latency: i.configured_latency,
    }
}

/// The part of a [`SourceInfo`] sent from protocol version 15 on.
pub open spec fn source_info_tail15(i: SourceInfo) -> SourceTail15 {
    SourceTail15 {
        base_volume: i.base_volume,
        state: i.state,
        volume_steps: i.volume_steps,
        card_index: i.card_index,
    }
}

/// The ports of a [`SourceInfo`].
pub open spec fn source_info_ports(i: SourceInfo) -> SourcePorts {
    SourcePorts { ports: i.ports, active_port: i.active_port }
}

/// The formats of a [`SourceInfo`].
pub open spec fn source_info_formats(i: SourceInfo) -> FormatList {
    FormatList { formats: i.formats }
}

/// Writes the part of a [`SourceInfo`] up to its volume.
fn write_source_info_head(i: &SourceInfo, w: &mut TagStructWriter, protocol_version: u16) -> (r: Result<(), ProtocolError>)
    requires
        i.ports@.len() <= u32::MAX && i.formats@.len() <= 255,
    ensures
        r == Ok::<(), ProtocolError>(()),
        final(w).bytes() == old(w).bytes() + values_bytes(source_info_head(*i).spec_values(protocol_version)),
        final(w).version() == old(w).version(),
{
    let ghost b0 = w.bytes();
    let ghost mut acc: Seq<TagValue> = Seq::empty();
    assert(w.bytes() =~= b0 + values_bytes(acc));
    w.write_index(Some(i.index))?;
    proof {
        lemma_values_bytes_push(acc, TagValue::U32(i.index));
        assert(w.bytes() =~= b0 + values_bytes(acc.push(TagValue::U32(i.index))));
        acc = acc.push(TagValue::U32(i.index));
    }
    w.write_string(Some(&i.name))?;
    proof {
        lemma_values_bytes_push(acc, TagValue::Str(i.name@));
        assert(w.bytes() =~= b0 + values_bytes(acc.push(TagValue::Str(i.name@))));
        acc = acc.push(TagValue::Str(i.name@));
    }
    w.write_string(i.description.as_ref())?;
    proof {
        lemma_values_bytes_push(acc, string_value(opt_cstr_view(i.description)));
        assert(w.bytes() =~= b0 + values_bytes(acc.push(string_value(opt_cstr_view(i.description)))));
        acc = acc.push(string_value(opt_cstr_view(i.description)));
    }
    w.write_sample_spec(i.sample_spec)?;
    proof {
        lemma_values_bytes_push(acc, sample_spec_value(i.sample_spec));
        assert(w.bytes() =~= b0 + values_bytes(acc.push(sample_spec_value(i.sample_spec))));
        acc = acc.push(sample_spec_value(i.sample_spec));
    }
    w.write_channel_map(&i.channel_map)?;
    proof {
        lemma_values_bytes_push(acc, TagValue::ChannelMap(i.channel_map@));
        assert(w.bytes() =~= b0 + values_bytes(acc.push(TagValue::ChannelMap(i.channel_map@))));
        acc = acc.push(TagValue::ChannelMap(i.channel_map@));
    }
    w.write_index(i.owner_module_index)?;
    proof {
        lemma_values_bytes_push(acc, index_value(i.owner_module_index));
        assert(w.bytes() =~= b0 + values_bytes(acc.push(index_value(i.owner_module_index))));
        acc = acc.push(index_value(i.owner_module_index));
    }
    w.write_cvolume(&i.cvolume)?;
    proof {
        lemma_values_bytes_push(acc, TagValue::CVolume(i.cvolume@));
        assert(w.bytes() =~= b0 + values_bytes(acc.push(TagValue::CVolume(i.cvolume@))));
        acc = acc.push(TagValue::CVolume(i.cvolume@));
    }
    assert(acc =~= source_info_head(*i).spec_values(protocol_version));
    Ok(())
}

/// Writes the part of a [`SourceInfo`] from its mute flag to its driver.
fn write_source_info_mid(i: &SourceInfo, w: &mut TagStructWriter, protocol_version: u16) -> (r: Result<(), ProtocolError>)
    requires
        i.ports@.len() <= u32::MAX && i.formats@.len() <= 255,
    ensures
        r == Ok::<(), ProtocolError>(()),
        final(w).bytes() == old(w).bytes() + values_bytes(source_info_mid(*i).spec_values(protocol_version)),
        final(w).version() == old(w).version(),
{
    let ghost b0 = w.bytes();
    let ghost mut acc: Seq<TagValue> = Seq::empty();
    assert(w.bytes() =~= b0 + values_bytes(acc));
    w.write_bool(i.muted)?;
    proof {
        lemma_values_bytes_push(acc, TagValue::Bool(i.muted));
        assert(w.bytes() =~= b0 + values_bytes(acc.push(TagValue::Bool(i.muted))));
        acc = acc.push(TagValue::Bool(i.muted));
    }
    w.write_index(i.monitor_of_sink_index)?;
    proof {
        lemma_values_bytes_push(acc, index_value(i.monitor_of_sink_index));
        assert(w.bytes() =~= b0 + values_bytes(acc.push(index_value(i.monitor_of_sink_index))));
        acc = acc.push(index_value(i.monitor_of_sink_index));
    }
    w.write_string(i.monitor_of_sink_name.as_ref())?;
    proof {
        lemma_values_bytes_push(acc, string_value(opt_cstr_view(i.monitor_of_sink_name)));
        assert(w.bytes() =~= b0 + values_bytes(acc.push(string_value(opt_cstr_view(i.monitor_of_sink_name)))));
        acc = acc.push(string_value(opt_cstr_view(i.monitor_of_sink_name)));
    }
    w.write_usec(i.actual_latency)?;
    proof {
        lemma_values_bytes_push(acc, TagValue::Usec(i.actual_latency));
        assert(w.bytes() =~= b0 + values_bytes(acc.push(TagValue::Usec(i.actual_latency))));
        acc = acc.push(TagValue::Usec(i.actual_latency));
    }
    w.write_string(i.driver.as_ref())?;
    proof {
        lemma_values_bytes_push(acc, string_value(opt_cstr_view(i.driver)));
        assert(w.bytes() =~= b0 + values_bytes(acc.push(string_value(opt_cstr_view(i.driver)))));
        acc = acc.push(string_value(opt_cstr_view(i.driver)));
    }
    assert(acc =~= source_info_mid(*i).spec_values(protocol_version));
    Ok(())
}

/// Writes the flags of a [`SourceInfo`].
fn write_source_info_flags(i: &SourceInfo, w: &mut TagStructWriter, protocol_version: u16) -> (r: Result<(), ProtocolError>)
    requires
        i.ports@.len() <= u32::MAX && i.formats@.len() <= 255,
    ensures
        r == Ok::<(), ProtocolError>(()),
        final(w).bytes() == old(w).bytes() + values_bytes(source_info_flags(*i).spec_values(protocol_version)),
        final(w).version() == old(w).version(),
{
    let ghost b0 = w.bytes();
    let ghost mut acc: Seq<TagValue> = Seq::empty();
    assert(w.bytes() =~= b0 + values_bytes(acc));
    w.write_u32(i.flags.bits())?;
    proof {
        lemma_values_bytes_push(acc, TagValue::U32(i.flags@));
        assert(w.bytes() =~= b0 + values_bytes(acc.push(TagValue::U32(i.flags@))));
        acc = acc.push(TagValue::U32(i.flags@));
    }
    assert(acc =~= source_info_flags(*i).spec_values(protocol_version));
    Ok(())
}

/// Writes the properties and configured latency of a [`SourceInfo`].
fn write_source_info_props(i: &SourceInfo, w: &mut TagStructWriter, protocol_version: u16) -> (r: Result<(), ProtocolError>)
    requires
        i.ports@.len() <= u32::MAX && i.formats@.len() <= 255,
    ensures
        r == Ok::<(), ProtocolError>(()),
        final(w).bytes() == old(w).bytes() + values_bytes(source_info_props(*i).spec_values(protocol_version)),
        final(w).version() == old(w).version(),
{
    let ghost b0 = w.bytes();
    let ghost mut acc: Seq<TagValue> = Seq::empty();
    assert(w.bytes() =~= b0 + values_bytes(acc));
    w.write_props(&i.props)?;
    proof {
        lemma_values_bytes_push(acc, TagValue::PropList(i.props@));
        assert(w.bytes() =~= b0 + values_bytes(acc.push(TagValue::PropList(i.props@))));
        acc = acc.push(TagValue::PropList(i.props@));
    }
    w.write_usec(i.configured_latency)?;
    proof {
        lemma_values_bytes_push(acc, TagValue::Usec(i.configured_latency));
        assert(w.bytes() =~= b0 + values_bytes(acc.push(TagValue::Usec(i.configured_latency))));
        acc = acc.push(TagValue::Usec(i.configured_latency));
    }
    assert(acc =~= source_info_props(*i).spec_values(protocol_version));
    Ok(())
}

/// Writes the part of a [`SourceInfo`] sent from protocol version 15 on.
fn write_source_info_tail15(i: &SourceInfo, w: &mut TagStructWriter, protocol_version: u16) -> (r: Result<(), ProtocolError>)
    requires
        i.ports@.len() <= u32::MAX && i.formats@.len() <= 255,
    ensures
        r == Ok::<(), ProtocolError>(()),
        final(w).bytes() == old(w).bytes() + values_bytes(source_info_tail15(*i).spec_values(protocol_version)),
        final(w).version() == old(w).version(),
{
    let ghost b0 = w.bytes();
    let ghost mut acc: Seq<TagValue> = Seq::empty();
    assert(w.bytes() =~= b0 + values_bytes(acc));
    w.write_volume(i.base_volume)?;
    proof {
        lemma_values_bytes_push(acc, TagValue::Volume(i.base_volume@));
        assert(w.bytes() =~= b0 + values_bytes(acc.push(TagValue::Volume(i.base_volume@))));
        acc = acc.push(TagValue::Volume(i.base_volume@));
    }
    w.write_u32(i.state.to_u32())?;
    proof {
        lemma_values_bytes_push(acc, TagValue::U32(source_state_code(i.state)));
        assert(w.bytes() =~= b0 + values_bytes(acc.push(TagValue::U32(source_state_code(i.state)))));
        acc = acc.push(TagValue::U32(source_state_code(i.state)));
    }
    w.write_u32(match i.volume_steps {
    Some(n) => n,
    None => 0,
})?;
    proof {
        lemma_values_bytes_push(acc, TagValue::U32(volume_steps_code(i.volume_steps)));
        assert(w.bytes() =~= b0 + values_bytes(acc.push(TagValue::U32(volume_steps_code(i.volume_steps)))));
        acc = acc.push(TagValue::U32(volume_steps_code(i.volume_steps)));
    }
    w.write_index(i.card_index)?;
    proof {
        lemma_values_bytes_push(acc, index_value(i.card_index));
        assert(w.bytes() =~= b0 + values_bytes(acc.push(index_value(i.card_index))));
        acc = acc.push(index_value(i.card_index));
    }
    assert(acc =~= source_info_tail15(*i).spec_values(protocol_version));
    Ok(())
}

/// Writes the ports of a [`SourceInfo`].
fn write_source_info_ports(i: &SourceInfo, w: &mut TagStructWriter, protocol_version: u16) -> (r: Result<(), ProtocolError>)
    requires
        i.ports@.len() <= u32::MAX && i.formats@.len() <= 255,
    ensures
        r == Ok::<(), ProtocolError>(()),
        final(w).bytes() == old(w).bytes() + values_bytes(source_info_ports(*i).spec_values(protocol_version)),
        final(w).version() == old(w).version(),
{
    let ghost b0 = w.bytes();
    let ghost mut acc: Seq<TagValue> = Seq::empty();
    assert(w.bytes() =~= b0 + values_bytes(acc));
    write_port_list(w, &i.ports, i.active_port, protocol_version, false)?;
    proof {
        lemma_values_bytes_concat(acc, port_list_values(i.ports@, i.active_port, protocol_version, false));
        assert(w.bytes() =~= b0 + values_bytes(acc + port_list_values(i.ports@, i.active_port, protocol_version, false)));
        acc = acc + port_list_values(i.ports@, i.active_port, protocol_version, false);
    }
    assert(acc =~= source_info_ports(*i).spec_values(protocol_version));
    Ok(())
}

/// Writes the formats of a [`SourceInfo`].
fn write_source_info_formats(i: &SourceInfo, w: &mut TagStructWriter, protocol_version: u16) -> (r: Result<(), ProtocolError>)
    requires
        i.ports@.len() <= u32::MAX && i.formats@.len() <= 255,
    ensures
        r == Ok::<(), ProtocolError>(()),
        final(w).bytes() == old(w).bytes() + values_bytes(source_info_formats(*i).spec_values(protocol_version)),
        final(w).version() == old(w).version(),
{
    let ghost b0 = w.bytes();
    let ghost mut acc: Seq<TagValue> = Seq::empty();
    assert(w.bytes() =~= b0 + values_bytes(acc));
    write_formats(w, &i.formats, protocol_version)?;
    proof {
        lemma_values_bytes_concat(acc, formats_values(i.formats@, protocol_version));
        assert(w.bytes() =~= b0 + values_bytes(acc + formats_values(i.formats@, protocol_version)));
        acc = acc + formats_values(i.formats@, protocol_version);
    }
    assert(acc =~= source_info_formats(*i).spec_values(protocol_version));
    Ok(())
}

/// The values of a [`SourceInfo`] from its part 4 on.
pub open spec fn source_info_values_rest(i: SourceInfo, protocol_version: u16) -> Seq<TagValue> {
    gated(protocol_version >= 15, source_info_tail15(i).spec_values(protocol_version))
        + gated(protocol_version >= 16, source_info_ports(i).spec_values(protocol_version))
        + gated(protocol_version >= 21, source_info_formats(i).spec_values(protocol_version))
}

/// The values of a [`SourceInfo`] from its part 4 on that `s` starts with, as a
/// read gives them back, and the number of bytes they take.
pub open spec fn source_info_parse_rest(s: Seq<u8>, protocol_version: u16) -> Option<(Seq<TagValue>, int)> {
    match gated_parse(protocol_version >= 15, SourceTail15::spec_parse(s.skip(0), protocol_version)) {
        Some((v0, n0)) =>
            match gated_parse(protocol_version >= 16, SourcePorts::spec_parse(s.skip(n0), protocol_version)) {
                Some((v1, n1)) =>
                    match gated_parse(protocol_version >= 21, FormatList::spec_parse(s.skip(n0 + n1), protocol_version)) {
                        Some((v2, n2)) =>
                            Some((v0 + v1 + v2, n0 + n1 + n2)),
                        None => None,
                    },
                None => None,
            },
        None => None,
    }
}

impl TagStructWrite for SourceInfo {
    open spec fn spec_values(&self, protocol_version: u16) -> Seq<TagValue> {
        source_info_head(*self).spec_values(protocol_version)
            + source_info_mid(*self).spec_values(protocol_version)
            + source_info_flags(*self).spec_values(protocol_version)
            + gated(protocol_version >= 13, source_info_props(*self).spec_values(protocol_version))
            + source_info_values_rest(*self, protocol_version)
    }

    open spec fn spec_writable(&self) -> bool {
        self.ports@.len() <= u32::MAX && self.formats@.len() <= 255
    }

    #[verifier::rlimit(100)]
    #[verifier::spinoff_prover]
    fn write(&self, w: &mut TagStructWriter, protocol_version: u16) -> (r: Result<(), ProtocolError>) {
        let ghost b0 = w.bytes();
        let ghost mut acc: Seq<TagValue> = Seq::empty();
        assert(w.bytes() =~= b0 + values_bytes(acc));
        let ghost pvs = source_info_head(*self).spec_values(protocol_version);
        write_source_info_head(self, w, protocol_version)?;
        proof {
            lemma_values_bytes_concat(acc, pvs);
            assert(w.bytes() =~= b0 + values_bytes(acc + pvs));
            acc = acc + pvs;
        }
        let ghost pvs = source_info_mid(*self).spec_values(protocol_version);
        write_source_info_mid(self, w, protocol_version)?;
        proof {
            lemma_values_bytes_concat(acc, pvs);
            assert(w.bytes() =~= b0 + values_bytes(acc + pvs));
            acc = acc + pvs;
        }
        let ghost pvs = source_info_flags(*self).spec_values(protocol_version);
        write_source_info_flags(self, w, protocol_version)?;
        proof {
            lemma_values_bytes_concat(acc, pvs);
            assert(w.bytes() =~= b0 + values_bytes(acc + pvs));
            acc = acc + pvs;
        }
        if protocol_version >= 13 {
            let ghost pvs = source_info_props(*self).spec_values(protocol_version);
            write_source_info_props(self, w, protocol_version)?;
            proof {
                lemma_values_bytes_concat(acc, pvs);
                assert(w.bytes() =~= b0 + values_bytes(acc + pvs));
                acc = acc + pvs;
            }
        }
        if protocol_version >= 15 {
            let ghost pvs = source_info_tail15(*self).spec_values(protocol_version);
            write_source_info_tail15(self, w, protocol_version)?;
            proof {
                lemma_values_bytes_concat(acc, pvs);
                assert(w.bytes() =~= b0 + values_bytes(acc + pvs));
                acc = acc + pvs;
            }
        }
        if protocol_version >= 16 {
            let ghost pvs = source_info_ports(*self).spec_values(protocol_version);
            write_source_info_ports(self, w, protocol_version)?;
            proof {
                lemma_values_bytes_concat(acc, pvs);
                assert(w.bytes() =~= b0 + values_bytes(acc + pvs));
                acc = acc + pvs;
            }
        }
        if protocol_version >= 21 {
            let ghost pvs = source_info_formats(*self).spec_values(protocol_version);
            write_source_info_formats(self, w, protocol_version)?;
            proof {
                lemma_values_bytes_concat(acc, pvs);
                assert(w.bytes() =~= b0 + values_bytes(acc + pvs));
                acc = acc + pvs;
            }
        }
        assert(acc =~= self.spec_values(protocol_version));
        assert(w.bytes() =~= old(w).bytes() + values_bytes(self.spec_values(protocol_version)));
        Ok(())
    }
}

impl TagStructRead for SourceInfo {
    open spec fn spec_parse(s: Seq<u8>, protocol_version: u16) -> Option<(Seq<TagValue>, int)> {
        match SourceHead::spec_parse(s.skip(0), protocol_version) {
            Some((v0, n0)) =>
                match SourceMid::spec_parse(s.skip(n0), protocol_version) {
                    Some((v1, n1)) =>
                        match SourceFlags::spec_parse(s.skip(n0 + n1), protocol_version) {
                            Some((v2, n2)) =>
                                match gated_parse(protocol_version >= 13, SourceProps::spec_parse(s.skip(n0 + n1 + n2), protocol_version)) {
                                    Some((v3, n3)) =>
                                        match source_info_parse_rest(s.skip(n0 + n1 + n2 + n3), protocol_version) {
                                            Some((vr, nr)) => Some((v0 + v1 + v2 + v3 + vr, n0 + n1 + n2 + n3 + nr)),
                                            None => None,
                                        },
                                    None => None,
                                },
                            None => None,
                        },
                    None => None,
                },
            None => None,
        }
    }

    open spec fn spec_canonical(&self, protocol_version: u16) -> bool {
        (!(protocol_version >= 13) ==> self.props@.len() == 0 && self.configured_latency == 0)
        && (!(protocol_version >= 15) ==> self.base_volume@ == VOLUME_NORM && self.state == SourceState::Suspended && self.volume_steps is None
            && self.card_index is None)
        && (!(protocol_version >= 16) ==> self.ports@.len() == 0 && self.active_port == 0)
        && (!(protocol_version >= 21) ==> self.formats@.len() == 0)
    }

    open spec fn spec_encodable(&self, protocol_version: u16) -> bool {
        &&& source_info_head(*self).spec_encodable(protocol_version)
        &&& source_info_mid(*self).spec_encodable(protocol_version)
        &&& source_info_flags(*self).spec_encodable(protocol_version)
        &&& (protocol_version >= 13 ==> source_info_props(*self).spec_encodable(protocol_version))
        &&& (protocol_version >= 15 ==> source_info_tail15(*self).spec_encodable(protocol_version))
        &&& (protocol_version >= 16 ==> source_info_ports(*self).spec_encodable(protocol_version))
        &&& (protocol_version >= 21 ==> source_info_formats(*self).spec_encodable(protocol_version))
        &&& self.spec_canonical(protocol_version)
    }

    #[verifier::rlimit(100)]
    #[verifier::spinoff_prover]
    fn read(ts: &mut TagStructReader, protocol_version: u16) -> (r: Result<Self, ProtocolError>)
        ensures
            parse_value(old(ts).rest()) matches Some((TagValue::U32(x), _)) && x == INVALID_INDEX ==> (r matches Err(e) && e.is_invalid()),
            index_then_null_name(old(ts).rest()) ==> (r matches Err(e) && e.is_invalid()),
    {
        let ghost s = ts.rest();
        proof {
            assert(s.skip(0) =~= s);
        }
        let ghost s0 = ts.rest();
        let p0 = SourceHead::read(ts, protocol_version)?;
        proof {
            assert(ts.rest() =~= s.skip(s.len() - ts.rest().len()));
        }
        let ghost g0 = p0;
        let ghost s1 = ts.rest();
        let p1 = SourceMid::read(ts, protocol_version)?;
        proof {
            assert(ts.rest() =~= s.skip(s.len() - ts.rest().len()));
        }
        let ghost g1 = p1;
        let ghost s2 = ts.rest();
        let p2 = SourceFlags::read(ts, protocol_version)?;
        proof {
            assert(ts.rest() =~= s.skip(s.len() - ts.rest().len()));
        }
        let ghost g2 = p2;
        let ghost s3 = ts.rest();
        let p3 = if protocol_version >= 13 {
            SourceProps::read(ts, protocol_version)?
        } else {
            proof {
                assert(s3.skip(0) =~= s3);
            }
            SourceProps { props: Props::new(), configured_latency: 0 }
        };
        proof {
            assert(ts.rest() =~= s.skip(s.len() - ts.rest().len()));
        }
        let ghost g3 = p3;
        let ghost s4 = ts.rest();
        proof {
            assert(s4.skip(0) =~= s4);
        }
        let p4 = if protocol_version >= 15 {
            SourceTail15::read(ts, protocol_version)?
        } else {
            proof {
                assert(s4.skip(0) =~= s4);
            }
            SourceTail15 {
                base_volume: Volume::norm(),
                state: SourceState::Suspended,
                volume_steps: None,
                card_index: None,
            }
        };
        proof {
            assert(ts.rest() =~= s.skip(s.len() - ts.rest().len()));
            assert(ts.rest() =~= s4.skip(s4.len() - ts.rest().len()));
        }
        let ghost g4 = p4;
        let ghost s5 = ts.rest();
        let p5 = if protocol_version >= 16 {
            SourcePorts::read(ts, protocol_version)?
        } else {
            proof {
                assert(s5.skip(0) =~= s5);
            }
            SourcePorts { ports: Vec::new(), active_port: 0 }
        };
        proof {
            assert(ts.rest() =~= s.skip(s.len() - ts.rest().len()));
            assert(ts.rest() =~= s4.skip(s4.len() - ts.rest().len()));
        }
        let ghost g5 = p5;
        let ghost s6 = ts.rest();
        let p6 = if protocol_version >= 21 {
            FormatList::read(ts, protocol_version)?
        } else {
            proof {
                assert(s6.skip(0) =~= s6);
            }
            FormatList { formats: Vec::new() }
        };
        proof {
            assert(ts.rest() =~= s.skip(s.len() - ts.rest().len()));
            assert(ts.rest() =~= s4.skip(s4.len() - ts.rest().len()));
        }
        let ghost g6 = p6;
        let info = SourceInfo {
            index: p0.index,
            name: p0.name,
            description: p0.description,
            props: p3.props,
            state: p4.state,
            sample_spec: p0.sample_spec,
            channel_map: p0.channel_map,
            owner_module_index: p0.owner_module_index,
            cvolume: p0.cvolume,
            base_volume: p4.base_volume,
            volume_steps: p4.volume_steps,
            muted: p1.muted,
            monitor_of_sink_index: p1.monitor_of_sink_index,
            monitor_of_sink_name: p1.monitor_of_sink_name,
            flags: p2,
            actual_latency: p1.actual_latency,
            configured_latency: p3.configured_latency,
            driver: p1.driver,
            card_index: p4.card_index,
            ports: p5.ports,
            active_port: p5.active_port,
            formats: p6.formats,
        };
        proof {
            assert(s.skip(0) =~= s);
            assert(source_info_head(info) == g0);
            assert(source_info_mid(info) == g1);
            assert(source_info_flags(info) == g2);
            assert(source_info_props(info) == g3);
            assert(source_info_tail15(info) == g4);
            assert(source_info_ports(info) == g5);
            assert(source_info_formats(info) == g6);
            let ghost_n = s.len() - ts.rest().len();
            assert(s1 =~= s.skip(s.len() - s1.len()));
            assert(s2 =~= s.skip(s.len() - s2.len()));
            assert(s3 =~= s.skip(s.len() - s3.len()));
            assert(s4 =~= s.skip(s.len() - s4.len()));
            assert(s5 =~= s.skip(s.len() - s5.len()));
            assert(s6 =~= s.skip(s.len() - s6.len()));
            assert(ts.rest() =~= s.skip(ghost_n));
            assert(s5 =~= s4.skip(s4.len() - s5.len()));
            assert(s6 =~= s4.skip(s4.len() - s6.len()));
            assert(ts.rest() =~= s4.skip(s4.len() - ts.rest().len()));
        }
        Ok(info)
    }

    #[verifier::rlimit(100)]
    #[verifier::spinoff_prover]
    proof fn lemma_roundtrip(&self, protocol_version: u16, rest: Seq<u8>) {
        let tail = values_bytes(source_info_values_rest(*self, protocol_version)) + rest;
        lemma_source_info_rest(*self, protocol_version, rest);
        let q0 = source_info_head(*self);
        let v0 = q0.spec_values(protocol_version);
        let q1 = source_info_mid(*self);
        let v1 = q1.spec_values(protocol_version);
        let q2 = source_info_flags(*self);
        let v2 = q2.spec_values(protocol_version);
        let q3 = source_info_props(*self);
        let v3 = gated(protocol_version >= 13, q3.spec_values(protocol_version));
        let w3 = v3;
        let w2 = v2 + w3;
        let w1 = v1 + w2;
        let w0 = v0 + w1;
        lemma_values_bytes_concat(v0, w1);
        lemma_values_bytes_concat(v1, w2);
        lemma_values_bytes_concat(v2, w3);
        let t0 = values_bytes(w0) + tail;
        let t1 = values_bytes(w1) + tail;
        let t2 = values_bytes(w2) + tail;
        let t3 = values_bytes(w3) + tail;
        let t4 = tail;
        let o0: int = 0;
        assert(t0.skip(o0) =~= t0);
        assert(t0 =~= values_bytes(v0) + t1);
        q0.lemma_roundtrip(protocol_version, t1);
        let o1: int = o0 + values_bytes(v0).len();
        assert(t0.skip(values_bytes(v0).len() as int) =~= t1);
        assert(t0.skip(o1) =~= t1);
        assert(t1 =~= values_bytes(v1) + t2);
        q1.lemma_roundtrip(protocol_version, t2);
        let o2: int = o1 + values_bytes(v1).len();
        assert(t1.skip(values_bytes(v1).len() as int) =~= t2);
        assert(t0.skip(o2) =~= t2);
        assert(t2 =~= values_bytes(v2) + t3);
        q2.lemma_roundtrip(protocol_version, t3);
        let o3: int = o2 + values_bytes(v2).len();
        assert(t2.skip(values_bytes(v2).len() as int) =~= t3);
        assert(t0.skip(o3) =~= t3);
        assert(t3 =~= values_bytes(v3) + t4);
        if protocol_version >= 13 {
            q3.lemma_roundtrip(protocol_version, t4);
        }
        let o4: int = o3 + values_bytes(v3).len();
        assert(t3.skip(values_bytes(v3).len() as int) =~= t4);
        assert(t0.skip(o4) =~= t4);
        let r = source_info_values_rest(*self, protocol_version);
        assert(self.spec_values(protocol_version) =~= w0 + r);
        lemma_values_bytes_concat(w0, r);
        assert(values_bytes(self.spec_values(protocol_version)) + rest =~= values_bytes(w0) + tail);
        assert((values_bytes(w0) + tail).skip(o4) =~= tail);
    }
}

/// Reading back the bytes of the values of a [`SourceInfo`] from its part 4 on
/// gives them back.
#[verifier::rlimit(100)]
#[verifier::spinoff_prover]
proof fn lemma_source_info_rest(i: SourceInfo, protocol_version: u16, rest: Seq<u8>)
    requires
        i.spec_encodable(protocol_version),
    ensures
        source_info_parse_rest(values_bytes(source_info_values_rest(i, protocol_version)) + rest, protocol_version) == Some(
            (source_info_values_rest(i, protocol_version), values_bytes(source_info_values_rest(i, protocol_version)).len() as int),
        ),
{
    let q0 = source_info_tail15(i);
    let v0 = gated(protocol_version >= 15, q0.spec_values(protocol_version));
    let q1 = source_info_ports(i);
    let v1 = gated(protocol_version >= 16, q1.spec_values(protocol_version));
    let q2 = source_info_formats(i);
    let v2 = gated(protocol_version >= 21, q2.spec_values(protocol_version));
    let w2 = v2;
    let w1 = v1 + w2;
    let w0 = v0 + w1;
    lemma_values_bytes_concat(v0, w1);
    lemma_values_bytes_concat(v1, w2);
    let t0 = values_bytes(w0) + rest;
    let t1 = values_bytes(w1) + rest;
    let t2 = values_bytes(w2) + rest;
    let t3 = rest;
    let o0: int = 0;
    assert(t0.skip(o0) =~= t0);
    assert(t0 =~= values_bytes(v0) + t1);
    if protocol_version >= 15 {
        q0.lemma_roundtrip(protocol_version, t1);
    }
    let o1: int = o0 + values_bytes(v0).len();
    assert(t0.skip(values_bytes(v0).len() as int) =~= t1);
    assert(t0.skip(o1) =~= t1);
    assert(t1 =~= values_bytes(v1) + t2);
    if protocol_version >= 16 {
        q1.lemma_roundtrip(protocol_version, t2);
    }
    let o2: int = o1 + values_bytes(v1).len();
    assert(t1.skip(values_bytes(v1).len() as int) =~= t2);
    assert(t0.skip(o2) =~= t2);
    assert(t2 =~= values_bytes(v2) + t3);
    if protocol_version >= 21 {
        q2.lemma_roundtrip(protocol_version, t3);
    }
    let o3: int = o2 + values_bytes(v2).len();
    assert(t2.skip(values_bytes(v2).len() as int) =~= t3);
    assert(t0.skip(o3) =~= t3);
    assert(source_info_values_rest(i, protocol_version) =~= w0);
    assert(values_bytes(w0) + rest == t0);
}

impl CommandReply for SourceInfo {}

/// The reply to [`super::Command::GetSourceInfoList`]: every source, read up to
/// the end of the reply.
pub type SourceInfoList = Vec<SourceInfo>;

impl CommandReply for SourceInfoList {}



/// The values of a [`SourceInfo`] up to its volume.
#[derive(Debug, Clone, PartialEq, Eq)]
pub struct SourceHead {
    /// A value of the part.
    pub index: u32,

    /// A value of the part.
    pub name: CString,

    /// A value of the part.
    pub description: Option<CString>,

    /// A value of the part.
    pub sample_spec: SampleSpec,

    /// A value of the part.
    pub channel_map: ChannelMap,

    /// A value of the part.
    pub owner_module_index: Option<u32>,

    /// A value of the part.
    pub cvolume: ChannelVolume,
}

impl TagStructWrite for SourceHead {
    open spec fn spec_values(&self, protocol_version: u16) -> Seq<TagValue> {
        seq![
            TagValue::U32(self.index),
            TagValue::Str(self.name@),
            string_value(opt_cstr_view(self.description)),
            sample_spec_value(self.sample_spec),
            TagValue::ChannelMap(self.channel_map@),
            index_value(self.owner_module_index),
            TagValue::CVolume(self.cvolume@),
        ]
    }

    open spec fn spec_writable(&self) -> bool {
        true
    }

    fn write(&self, w: &mut TagStructWriter, _protocol_version: u16) -> (r: Result<(), ProtocolError>) {
        w.write_index(Some(self.index))?;
        w.write_string(Some(&self.name))?;
        w.write_string(self.description.as_ref())?;
        w.write_sample_spec(self.sample_spec)?;
        w.write_channel_map(&self.channel_map)?;
        w.write_index(self.owner_module_index)?;
        w.write_cvolume(&self.cvolume)?;
        proof {
            lemma_values_bytes_7(
                TagValue::U32(self.index),
                TagValue::Str(self.name@),
                string_value(opt_cstr_view(self.description)),
                sample_spec_value(self.sample_spec),
                TagValue::ChannelMap(self.channel_map@),
                index_value(self.owner_module_index),
                TagValue::CVolume(self.cvolume@),
            );
        }
        assert(w.bytes() =~= old(w).bytes() + values_bytes(self.spec_values(_protocol_version)));
        Ok(())
    }
}

impl TagStructRead for SourceHead {
    open spec fn spec_parse(s: Seq<u8>, protocol_version: u16) -> Option<(Seq<TagValue>, int)> {
        match parse_values(s, 7) {
            Some((vs, n)) => if (vs[0] matches TagValue::U32(x) && x != INVALID_INDEX)
                && vs[1] is Str
                && (vs[2] is Str || vs[2] is NullStr)
                && (vs[3] matches TagValue::SampleSpec(f, _, _) && sample_format_of_code(f) is Some)
                && (vs[4] matches TagValue::ChannelMap(c) && positions_valid(c))
                && vs[5] is U32
                && vs[6] is CVolume
            {
                Some((vs, n))
            } else {
                None
            },
            None => None,
        }
    }

    open spec fn spec_canonical(&self, protocol_version: u16) -> bool {
        true
    }

    open spec fn spec_encodable(&self, protocol_version: u16) -> bool {
        &&& values_wf(self.spec_values(protocol_version))
        &&& self.index != INVALID_INDEX
        &&& index_encodable(self.owner_module_index)
        &&& self.spec_canonical(protocol_version)
    }

    #[verifier::rlimit(100)]
    #[verifier::spinoff_prover]
    fn read(ts: &mut TagStructReader, _protocol_version: u16) -> (r: Result<Self, ProtocolError>)
        ensures
            parse_value(old(ts).rest()) matches Some((TagValue::U32(x), _)) && x == INVALID_INDEX ==> (r matches Err(e)
                && e.is_invalid()),
            index_then_null_name(old(ts).rest()) ==> (r matches Err(e) && e.is_invalid()),
    {
        let ghost s = ts.rest();
        let ghost total: int = 7;
        proof {
            lemma_parse_values_start(s, total);
            lemma_parse_values_next(s, Seq::empty(), ts.rest(), total - 1);
        }
        let index = match ts.read_index()? {
            Some(i) => i,
            None => {
                return Err(ProtocolError::Invalid("invalid source index".to_owned()));
            },
        };
        proof {
            assert(parse_values(s, total as nat) == parse_values_after(
                seq![TagValue::U32(index)],
                s.len() - ts.rest().len(),
                ts.rest(),
                total - 1,
            ));
            lemma_parse_values_next(s, seq![TagValue::U32(index)], ts.rest(), total - 2);
        }
        let name = match ts.read_string()? {
            Some(c) => c,
            None => {
                return Err(ProtocolError::Invalid("invalid source name".to_owned()));
            },
        };
        proof {
            assert(parse_values(s, total as nat) == parse_values_after(
                seq![TagValue::U32(index), TagValue::Str(name@)],
                s.len() - ts.rest().len(),
                ts.rest(),
                total - 2,
            ));
            lemma_parse_values_next(
                s,
                seq![TagValue::U32(index), TagValue::Str(name@)],
                ts.rest(),
                total - 3,
            );
        }
        let description = ts.read_string()?;
        proof {
            assert(parse_values(s, total as nat) == parse_values_after(
                seq![
                    TagValue::U32(index),
                    TagValue::Str(name@),
                    string_value(opt_cstr_view(description)),
                ],
                s.len() - ts.rest().len(),
                ts.rest(),
                total - 3,
            ));
            lemma_parse_values_next(
                s,
                seq![
                    TagValue::U32(index),
                    TagValue::Str(name@),
                    string_value(opt_cstr_view(description)),
                ],
                ts.rest(),
                total - 4,
            );
        }
        let sample_spec = ts.read_sample_spec()?;
        proof {
            assert(parse_values(s, total as nat) == parse_values_after(
                seq![
                    TagValue::U32(index),
                    TagValue::Str(name@),
                    string_value(opt_cstr_view(description)),
                    sample_spec_value(sample_spec),
                ],
                s.len() - ts.rest().len(),
                ts.rest(),
                total - 4,
            ));
            lemma_parse_values_next(
                s,
                seq![
                    TagValue::U32(index),
                    TagValue::Str(name@),
                    string_value(opt_cstr_view(description)),
                    sample_spec_value(sample_spec),
                ],
                ts.rest(),
                total - 5,
            );
        }
        let channel_map = ts.read_channel_map()?;
        proof {
            assert(parse_values(s, total as nat) == parse_values_after(
                seq![
                    TagValue::U32(index),
                    TagValue::Str(name@),
                    string_value(opt_cstr_view(description)),
                    sample_spec_value(sample_spec),
                    TagValue::ChannelMap(channel_map@),
                ],
                s.len() - ts.rest().len(),
                ts.rest(),
                total - 5,
            ));
            lemma_parse_values_next(
                s,
                seq![
                    TagValue::U32(index),
                    TagValue::Str(name@),
                    string_value(opt_cstr_view(description)),
                    sample_spec_value(sample_spec),
                    TagValue::ChannelMap(channel_map@),
                ],
                ts.rest(),
                total - 6,
            );
        }
        let owner_module_index = ts.read_index()?;
        proof {
            assert(parse_values(s, total as nat) == parse_values_after(
                seq![
                    TagValue::U32(index),
                    TagValue::Str(name@),
                    string_value(opt_cstr_view(description)),
                    sample_spec_value(sample_spec),
                    TagValue::ChannelMap(channel_map@),
                    index_value(owner_module_index),
                ],
                s.len() - ts.rest().len(),
                ts.rest(),
                total - 6,
            ));
            lemma_parse_values_next(
                s,
                seq![
                    TagValue::U32(index),
                    TagValue::Str(name@),
                    string_value(opt_cstr_view(description)),
                    sample_spec_value(sample_spec),
                    TagValue::ChannelMap(channel_map@),
                    index_value(owner_module_index),
                ],
                ts.rest(),
                total - 7,
            );
        }
        let cvolume = ts.read_cvolume()?;
        proof {
            assert(parse_values(s, total as nat) == parse_values_after(
                seq![
                    TagValue::U32(index),
                    TagValue::Str(name@),
                    string_value(opt_cstr_view(description)),
                    sample_spec_value(sample_spec),
                    TagValue::ChannelMap(channel_map@),
                    index_value(owner_module_index),
                    TagValue::CVolume(cvolume@),
                ],
                s.len() - ts.rest().len(),
                ts.rest(),
                total - 7,
            ));
            lemma_parse_values_done(
                seq![
                    TagValue::U32(index),
                    TagValue::Str(name@),
                    string_value(opt_cstr_view(description)),
                    sample_spec_value(sample_spec),
                    TagValue::ChannelMap(channel_map@),
                    index_value(owner_module_index),
                    TagValue::CVolume(cvolume@),
                ],
                s.len() - ts.rest().len(),
                ts.rest(),
            );
        }
        Ok(SourceHead {
            index,
            name,
            description,
            sample_spec,
            channel_map,
            owner_module_index,
            cvolume,
        })
    }

    proof fn lemma_roundtrip(&self, protocol_version: u16, rest: Seq<u8>) {
        lemma_sample_format_roundtrip(self.sample_spec.format);
        lemma_channel_map_valid(self.channel_map);
        lemma_parse_values_bytes(self.spec_values(protocol_version), rest);
    }
}

/// The values of a [`SourceInfo`] from its mute flag to its driver.
#[derive(Debug, Clone, PartialEq, Eq)]
pub struct SourceMid {
    /// A value of the part.
    pub muted: bool,

    /// A value of the part.
    pub monitor_of_sink_index: Option<u32>,

    /// A value of the part.
    pub monitor_of_sink_name: Option<CString>,

    /// A value of the part.
    pub actual_latency: u64,

    /// A value of the part.
    pub driver: Option<CString>,
}

impl TagStructWrite for SourceMid {
    open spec fn spec_values(&self, protocol_version: u16) -> Seq<TagValue> {
        seq![
            TagValue::Bool(self.muted),
            index_value(self.monitor_of_sink_index),
            string_value(opt_cstr_view(self.monitor_of_sink_name)),
            TagValue::Usec(self.actual_latency),
            string_value(opt_cstr_view(self.driver)),
        ]
    }

    open spec fn spec_writable(&self) -> bool {
        true
    }

    fn write(&self, w: &mut TagStructWriter, _protocol_version: u16) -> (r: Result<(), ProtocolError>) {
        w.write_bool(self.muted)?;
        w.write_index(self.monitor_of_sink_index)?;
        w.write_string(self.monitor_of_sink_name.as_ref())?;
        w.write_usec(self.actual_latency)?;
        w.write_string(self.driver.as_ref())?;
        proof {
            lemma_values_bytes_5(
                TagValue::Bool(self.muted),
                index_value(self.monitor_of_sink_index),
                string_value(opt_cstr_view(self.monitor_of_sink_name)),
                TagValue::Usec(self.actual_latency),
                string_value(opt_cstr_view(self.driver)),
            );
        }
        assert(w.bytes() =~= old(w).bytes() + values_bytes(self.spec_values(_protocol_version)));
        Ok(())
    }
}

impl TagStructRead for SourceMid {
    open spec fn spec_parse(s: Seq<u8>, protocol_version: u16) -> Option<(Seq<TagValue>, int)> {
        match parse_values(s, 5) {
            Some((vs, n)) => if vs[0] is Bool
                && vs[1] is U32
                && (vs[2] is Str || vs[2] is NullStr)
                && vs[3] is Usec
                && (vs[4] is Str || vs[4] is NullStr)
            {
                Some((vs, n))
            } else {
                None
            },
            None => None,
        }
    }

    open spec fn spec_canonical(&self, protocol_version: u16) -> bool {
        true
    }

    open spec fn spec_encodable(&self, protocol_version: u16) -> bool {
        &&& values_wf(self.spec_values(protocol_version))
        &&& index_encodable(self.monitor_of_sink_index)
        &&& self.spec_canonical(protocol_version)
    }

    fn read(ts: &mut TagStructReader, _protocol_version: u16) -> (r: Result<Self, ProtocolError>) {
        let ghost s = ts.rest();
        let ghost total: int = 5;
        proof {
            lemma_parse_values_start(s, total);
            lemma_parse_values_next(s, Seq::empty(), ts.rest(), total - 1);
        }
        let muted = ts.read_bool()?;
        proof {
            assert(parse_values(s, total as nat) == parse_values_after(
                seq![TagValue::Bool(muted)],
                s.len() - ts.rest().len(),
                ts.rest(),
                total - 1,
            ));
            lemma_parse_values_next(s, seq![TagValue::Bool(muted)], ts.rest(), total - 2);
        }
        let monitor_of_sink_index = ts.read_index()?;
        proof {
            assert(parse_values(s, total as nat) == parse_values_after(
                seq![TagValue::Bool(muted), index_value(monitor_of_sink_index)],
                s.len() - ts.rest().len(),
                ts.rest(),
                total - 2,
            ));
            lemma_parse_values_next(
                s,
                seq![TagValue::Bool(muted), index_value(monitor_of_sink_index)],
                ts.rest(),
                total - 3,
            );
        }
        let monitor_of_sink_name = ts.read_string()?;
        proof {
            assert(parse_values(s, total as nat) == parse_values_after(
                seq![
                    TagValue::Bool(muted),
                    index_value(monitor_of_sink_index),
                    string_value(opt_cstr_view(monitor_of_sink_name)),
                ],
                s.len() - ts.rest().len(),
                ts.rest(),
                total - 3,
            ));
            lemma_parse_values_next(
                s,
                seq![
                    TagValue::Bool(muted),
                    index_value(monitor_of_sink_index),
                    string_value(opt_cstr_view(monitor_of_sink_name)),
                ],
                ts.rest(),
                total - 4,
            );
        }
        let actual_latency = ts.read_usec()?;
        proof {
            assert(parse_values(s, total as nat) == parse_values_after(
                seq![
                    TagValue::Bool(muted),
                    index_value(monitor_of_sink_index),
                    string_value(opt_cstr_view(monitor_of_sink_name)),
                    TagValue::Usec(actual_latency),
                ],
                s.len() - ts.rest().len(),
                ts.rest(),
                total - 4,
            ));
            lemma_parse_values_next(
                s,
                seq![
                    TagValue::Bool(muted),
                    index_value(monitor_of_sink_index),
                    string_value(opt_cstr_view(monitor_of_sink_name)),
                    TagValue::Usec(actual_latency),
                ],
                ts.rest(),
                total - 5,
            );
        }
        let driver = ts.read_string()?;
        proof {
            assert(parse_values(s, total as nat) == parse_values_after(
                seq![
                    TagValue::Bool(muted),
                    index_value(monitor_of_sink_index),
                    string_value(opt_cstr_view(monitor_of_sink_name)),
                    TagValue::Usec(actual_latency),
                    string_value(opt_cstr_view(driver)),
                ],
                s.len() - ts.rest().len(),
                ts.rest(),
                total - 5,
            ));
            lemma_parse_values_done(
                seq![
                    TagValue::Bool(muted),
                    index_value(monitor_of_sink_index),
                    string_value(opt_cstr_view(monitor_of_sink_name)),
                    TagValue::Usec(actual_latency),
                    string_value(opt_cstr_view(driver)),
                ],
                s.len() - ts.rest().len(),
                ts.rest(),
            );
        }
        Ok(SourceMid {
            muted,
            monitor_of_sink_index,
            monitor_of_sink_name,
            actual_latency,
            driver,
        })
    }

    proof fn lemma_roundtrip(&self, protocol_version: u16, rest: Seq<u8>) {
        lemma_parse_values_bytes(self.spec_values(protocol_version), rest);
    }
}

/// The properties and the configured latency of a [`SourceInfo`].
#[derive(Debug, Clone, PartialEq, Eq)]
pub struct SourceProps {
    /// A value of the part.
    pub props: Props,

    /// A value of the part.
    pub configured_latency: u64,
}

impl TagStructWrite for SourceProps {
    open spec fn spec_values(&self, protocol_version: u16) -> Seq<TagValue> {
        seq![TagValue::PropList(self.props@), TagValue::Usec(self.configured_latency)]
    }

    open spec fn spec_writable(&self) -> bool {
        true
    }

    fn write(&self, w: &mut TagStructWriter, _protocol_version: u16) -> (r: Result<(), ProtocolError>) {
        w.write_props(&self.props)?;
        w.write_usec(self.configured_latency)?;
        proof {
            lemma_values_bytes_2(
                TagValue::PropList(self.props@),
                TagValue::Usec(self.configured_latency),
            );
        }
        assert(w.bytes() =~= old(w).bytes() + values_bytes(self.spec_values(_protocol_version)));
        Ok(())
    }
}

impl TagStructRead for SourceProps {
    open spec fn spec_parse(s: Seq<u8>, protocol_version: u16) -> Option<(Seq<TagValue>, int)> {
        match parse_values(s, 2) {
            Some((vs, n)) => if vs[0] is PropList && vs[1] is Usec {
                Some((vs, n))
            } else {
                None
            },
            None => None,
        }
    }

    open spec fn spec_canonical(&self, protocol_version: u16) -> bool {
        true
    }

    open spec fn spec_encodable(&self, protocol_version: u16) -> bool {
        &&& values_wf(self.spec_values(protocol_version))
        &&& self.spec_canonical(protocol_version)
    }

    fn read(ts: &mut TagStructReader, _protocol_version: u16) -> (r: Result<Self, ProtocolError>) {
        let ghost s = ts.rest();
        let ghost total: int = 2;
        proof {
            lemma_parse_values_start(s, total);
            lemma_parse_values_next(s, Seq::empty(), ts.rest(), total - 1);
        }
        let props = ts.read_props()?;
        proof {
            assert(parse_values(s, total as nat) == parse_values_after(
                seq![TagValue::PropList(props@)],
                s.len() - ts.rest().len(),
                ts.rest(),
                total - 1,
            ));
            lemma_parse_values_next(s, seq![TagValue::PropList(props@)], ts.rest(), total - 2);
        }
        let configured_latency = ts.read_usec()?;
        proof {
            assert(parse_values(s, total as nat) == parse_values_after(
                seq![TagValue::PropList(props@), TagValue::Usec(configured_latency)],
                s.len() - ts.rest().len(),
                ts.rest(),
                total - 2,
            ));
            lemma_parse_values_done(
                seq![TagValue::PropList(props@), TagValue::Usec(configured_latency)],
                s.len() - ts.rest().len(),
                ts.rest(),
            );
        }
        Ok(SourceProps {
            props,
            configured_latency,
        })
    }

    proof fn lemma_roundtrip(&self, protocol_version: u16, rest: Seq<u8>) {
        lemma_parse_values_bytes(self.spec_values(protocol_version), rest);
    }
}

/// The values of a [`SourceInfo`] sent from protocol version 15 on.
#[derive(Debug, Clone, PartialEq, Eq)]
pub struct SourceTail15 {
    /// A value of the part.
    pub base_volume: Volume,

    /// A value of the part.
    pub state: SourceState,

    /// A value of the part.
    pub volume_steps: Option<u32>,

    /// A value of the part.
    pub card_index: Option<u32>,
}

impl TagStructWrite for SourceTail15 {
    open spec fn spec_values(&self, protocol_version: u16) -> Seq<TagValue> {
        seq![
            TagValue::Volume(self.base_volume@),
            TagValue::U32(source_state_code(self.state)),
            TagValue::U32(volume_steps_code(self.volume_steps)),
            index_value(self.card_index),
        ]
    }

    open spec fn spec_writable(&self) -> bool {
        true
    }

    fn write(&self, w: &mut TagStructWriter, _protocol_version: u16) -> (r: Result<(), ProtocolError>) {
        w.write_volume(self.base_volume)?;
        w.write_u32(self.state.to_u32())?;
        w.write_u32(match self.volume_steps {
            Some(n) => n,
            None => 0,
        })?;
        w.write_index(self.card_index)?;
        proof {
            lemma_values_bytes_4(
                TagValue::Volume(self.base_volume@),
                TagValue::U32(source_state_code(self.state)),
                TagValue::U32(volume_steps_code(self.volume_steps)),
                index_value(self.card_index),
            );
        }
        assert(w.bytes() =~= old(w).bytes() + values_bytes(self.spec_values(_protocol_version)));
        Ok(())
    }
}

impl TagStructRead for SourceTail15 {
    open spec fn spec_parse(s: Seq<u8>, protocol_version: u16) -> Option<(Seq<TagValue>, int)> {
        match parse_values(s, 4) {
            Some((vs, n)) => if vs[0] is Volume
                && (vs[1] matches TagValue::U32(x) && source_state_of_code(x) is Some)
                && vs[2] is U32
                && vs[3] is U32
            {
                Some((vs, n))
            } else {
                None
            },
            None => None,
        }
    }

    open spec fn spec_canonical(&self, protocol_version: u16) -> bool {
        self.volume_steps != Some(0u32)
    }

    open spec fn spec_encodable(&self, protocol_version: u16) -> bool {
        &&& values_wf(self.spec_values(protocol_version))
        &&& index_encodable(self.card_index)
        &&& self.spec_canonical(protocol_version)
    }

    fn read(ts: &mut TagStructReader, _protocol_version: u16) -> (r: Result<Self, ProtocolError>) {
        let ghost s = ts.rest();
        let ghost total: int = 4;
        proof {
            lemma_parse_values_start(s, total);
            lemma_parse_values_next(s, Seq::empty(), ts.rest(), total - 1);
        }
        let base_volume = ts.read_volume()?;
        proof {
            assert(parse_values(s, total as nat) == parse_values_after(
                seq![TagValue::Volume(base_volume@)],
                s.len() - ts.rest().len(),
                ts.rest(),
                total - 1,
            ));
            lemma_parse_values_next(s, seq![TagValue::Volume(base_volume@)], ts.rest(), total - 2);
        }
        let state = match SourceState::from_u32(ts.read_u32()?) {
            Some(st) => st,
            None => {
                return Err(ProtocolError::Invalid("invalid source state".to_owned()));
            },
        };
        proof {
            assert(parse_values(s, total as nat) == parse_values_after(
                seq![TagValue::Volume(base_volume@), TagValue::U32(source_state_code(state))],
                s.len() - ts.rest().len(),
                ts.rest(),
                total - 2,
            ));
            lemma_parse_values_next(
                s,
                seq![TagValue::Volume(base_volume@), TagValue::U32(source_state_code(state))],
                ts.rest(),
                total - 3,
            );
        }
        let volume_steps = {
            let n = ts.read_u32()?;
            if n == 0 {
                None
            } else {
                Some(n)
            }
        };
        proof {
            assert(parse_values(s, total as nat) == parse_values_after(
                seq![
                    TagValue::Volume(base_volume@),
                    TagValue::U32(source_state_code(state)),
                    TagValue::U32(volume_steps_code(volume_steps)),
                ],
                s.len() - ts.rest().len(),
                ts.rest(),
                total - 3,
            ));
            lemma_parse_values_next(
                s,
                seq![
                    TagValue::Volume(base_volume@),
                    TagValue::U32(source_state_code(state)),
                    TagValue::U32(volume_steps_code(volume_steps)),
                ],
                ts.rest(),
                total - 4,
            );
        }
        let card_index = ts.read_index()?;
        proof {
            assert(parse_values(s, total as nat) == parse_values_after(
                seq![
                    TagValue::Volume(base_volume@),
                    TagValue::U32(source_state_code(state)),
                    TagValue::U32(volume_steps_code(volume_steps)),
                    index_value(card_index),
                ],
                s.len() - ts.rest().len(),
                ts.rest(),
                total - 4,
            ));
            lemma_parse_values_done(
                seq![
                    TagValue::Volume(base_volume@),
                    TagValue::U32(source_state_code(state)),
                    TagValue::U32(volume_steps_code(volume_steps)),
                    index_value(card_index),
                ],
                s.len() - ts.rest().len(),
                ts.rest(),
            );
        }
        Ok(SourceTail15 {
            base_volume,
            state,
            volume_steps,
            card_index,
        })
    }

    proof fn lemma_roundtrip(&self, protocol_version: u16, rest: Seq<u8>) {
        lemma_source_state_roundtrip(self.state);
        lemma_parse_values_bytes(self.spec_values(protocol_version), rest);
    }
}


/// The numbers that stand for the source states on the wire, as the PulseAudio protocol
/// assigns them, in both directions.
pub proof fn lemma_source_state_table()
    ensures
        source_state_code(SourceState::Running) == 0,
        source_state_code(SourceState::Idle) == 1,
        source_state_code(SourceState::Suspended) == 2,
        source_state_of_code(0) == Some(SourceState::Running),
        source_state_of_code(1) == Some(SourceState::Idle),
        source_state_of_code(2) == Some(SourceState::Suspended),
{
}


/// The values a [`SourceFlags`] is sent as, position by position: whatever a read
/// gives from the values `vs` holds each field from its own position.
pub proof fn lemma_source_flags_layout(q: SourceFlags, vs: Seq<TagValue>, protocol_version: u16)
    requires
        q.spec_values(protocol_version) == vs,
    ensures
        vs == (
            seq![TagValue::U32(q@)]
        ),
{
}

/// The values a [`SourceHead`] is sent as, position by position: whatever a read
/// gives from the values `vs` holds each field from its own position.
pub proof fn lemma_source_head_layout(q: SourceHead, vs: Seq<TagValue>, protocol_version: u16)
    requires
        q.spec_values(protocol_version) == vs,
    ensures
        vs == (
            seq![
                    TagValue::U32(q.index),
                    TagValue::Str(q.name@),
                    string_value(opt_cstr_view(q.description)),
                    sample_spec_value(q.sample_spec),
                    TagValue::ChannelMap(q.channel_map@),
                    index_value(q.owner_module_index),
                    TagValue::CVolume(q.cvolume@),
                ]
        ),
{
}

/// The values a [`SourceMid`] is sent as, position by position: whatever a read
/// gives from the values `vs` holds each field from its own position.
pub proof fn lemma_source_mid_layout(q: SourceMid, vs: Seq<TagValue>, protocol_version: u16)
    requires
        q.spec_values(protocol_version) == vs,
    ensures
        vs == (
            seq![
                    TagValue::Bool(q.muted),
                    index_value(q.monitor_of_sink_index),
                    string_value(opt_cstr_view(q.monitor_of_sink_name)),
                    TagValue::Usec(q.actual_latency),
                    string_value(opt_cstr_view(q.driver)),
                ]
        ),
{
}

/// The values a [`SourceProps`] is sent as, position by position: whatever a read
/// gives from the values `vs` holds each field from its own position.
pub proof fn lemma_source_props_layout(q: SourceProps, vs: Seq<TagValue>, protocol_version: u16)
    requires
        q.spec_values(protocol_version) == vs,
    ensures
        vs == (
            seq![TagValue::PropList(q.props@), TagValue::Usec(q.configured_latency)]
        ),
{
}

/// The values a [`SourceTail15`] is sent as, position by position: whatever a read
/// gives from the values `vs` holds each field from its own position.
pub proof fn lemma_source_tail15_layout(q: SourceTail15, vs: Seq<TagValue>, protocol_version: u16)
    requires
        q.spec_values(protocol_version) == vs,
    ensures
        vs == (
            seq![
                    TagValue::Volume(q.base_volume@),
                    TagValue::U32(source_state_code(q.state)),
                    TagValue::U32(volume_steps_code(q.volume_steps)),
                    index_value(q.card_index),
                ]
        ),
{
}


/// The values a [`SourceInfo`] is sent as, position by position, at a protocol
/// version.
#[verifier::rlimit(100)]
pub proof fn lemma_source_info_layout(q: SourceInfo, vs: Seq<TagValue>, protocol_version: u16)
    requires
        q.spec_values(protocol_version) == vs,
    ensures
        vs =~= seq![
            TagValue::U32(q.index),
            TagValue::Str(q.name@),
            string_value(opt_cstr_view(q.description)),
            sample_spec_value(q.sample_spec),
            TagValue::ChannelMap(q.channel_map@),
            index_value(q.owner_module_index),
            TagValue::CVolume(q.cvolume@),
            TagValue::Bool(q.muted),
            index_value(q.monitor_of_sink_index),
            string_value(opt_cstr_view(q.monitor_of_sink_name)),
            TagValue::Usec(q.actual_latency),
            string_value(opt_cstr_view(q.driver)),
            TagValue::U32(q.flags@),
        ] + (if protocol_version >= 13 { seq![TagValue::PropList(q.props@), TagValue::Usec(q.configured_latency)] } else { Seq::empty() }) + (if protocol_version >= 15 { seq![TagValue::Volume(q.base_volume@), TagValue::U32(source_state_code(q.state)), TagValue::U32(volume_steps_code(q.volume_steps)), index_value(q.card_index)] } else { Seq::empty() })
            + (if protocol_version >= 16 { port_list_values(q.ports@, q.active_port, protocol_version, false) } else { Seq::empty() })
            + (if protocol_version >= 21 { formats_values(q.formats@, protocol_version) } else { Seq::empty() }),
{
}

} // verus!
