//! Subscribing to events about the objects of the server.

use vstd::prelude::*;

use crate::protocol::error::ProtocolError;
use crate::protocol::serde::fields::{lemma_values_bytes_1, lemma_values_bytes_2};
use crate::protocol::serde::wire::{
    parse_value,
    TagValue, lemma_parse_values_bytes, lemma_parse_values_done, lemma_parse_values_next,
    lemma_parse_values_start, parse_values, values_bytes,
};
use crate::protocol::serde::{
    TagStructRead, TagStructReader, TagStructWrite, TagStructWriter, index_encodable, index_value,
};

verus! {

/// The bits of a subscription mask that stand for a kind of object.
pub const SUBSCRIPTION_MASK_ALL: u32 = 0x02ff;

/// A set of kinds of objects to hear about, as a bit mask.
#[derive(Default, Debug, Copy, Clone, PartialEq, Eq)]
pub struct SubscriptionMask {
    bits: u32,
}

impl View for SubscriptionMask {
    type V = u32;

    closed spec fn view(&self) -> u32 {
        self.bits
    }
}

impl SubscriptionMask {
    /// Sinks.
    pub const SINK: u32 = 0x0001;
    /// Sources.
    pub const SOURCE: u32 = 0x0002;
    /// Sink inputs.
    pub const SINK_INPUT: u32 = 0x0004;
    /// Source outputs.
    pub const SOURCE_OUTPUT: u32 = 0x0008;
    /// Modules.
    pub const MODULE: u32 = 0x0010;
    /// Clients.
    pub const CLIENT: u32 = 0x0020;
    /// The sample cache.
    pub const SAMPLE_CACHE: u32 = 0x0040;
    /// The server itself.
    pub const SERVER: u32 = 0x0080;
    /// Autoload entries, which servers no longer have.
    pub const AUTOLOAD: u32 = 0x0100;
    /// Cards.
    pub const CARD: u32 = 0x0200;
    /// Every kind of object.
    pub const ALL: u32 = 0x02ff;

    /// The mask of the known kinds among `bits`; unknown bits are dropped.
    pub fn from_bits_truncate(bits: u32) -> (r: SubscriptionMask)
        ensures
            r@ == bits & SUBSCRIPTION_MASK_ALL,
    {
        SubscriptionMask { bits: bits & SUBSCRIPTION_MASK_ALL }
    }

    /// The empty mask.
    pub fn empty() -> (r: SubscriptionMask)
        ensures
            r@ == 0,
    {
        SubscriptionMask { bits: 0 }
    }

    /// The mask of every kind of object.
    pub fn all() -> (r: SubscriptionMask)
        ensures
            r@ == SUBSCRIPTION_MASK_ALL,
    {
        SubscriptionMask { bits: SUBSCRIPTION_MASK_ALL }
    }

    /// The bits of the mask.
    pub fn bits(&self) -> (r: u32)
        ensures
            r == self@,
    {
        self.bits
    }

    /// The kinds in either mask.
    pub fn union(self, other: SubscriptionMask) -> (r: SubscriptionMask)
        ensures
            r@ == self@ | other@,
    {
        SubscriptionMask { bits: self.bits | other.bits }
    }

    /// Whether every kind of `other` is in the mask.
    pub fn contains(&self, other: SubscriptionMask) -> (r: bool)
        ensures
            r == (self@ & other@ == other@),
    {
        self.bits & other.bits == other.bits
    }
}

impl TagStructWrite for SubscriptionMask {
    open spec fn spec_values(&self, protocol_version: u16) -> Seq<TagValue> {
        seq![TagValue::U32(self@)]
    }

    open spec fn spec_writable(&self) -> bool {
        true
    }

    fn write(&self, w: &mut TagStructWriter, _protocol_version: u16) -> (r: Result<(), ProtocolError>) {
        w.write_u32(self.bits)?;
        proof {
            lemma_values_bytes_1(TagValue::U32(self@));
        }
        Ok(())
    }
}

impl TagStructRead for SubscriptionMask {
    /// The mask read from `s`, with unknown bits dropped.
    open spec fn spec_parse(s: Seq<u8>, protocol_version: u16) -> Option<(Seq<TagValue>, int)> {
        match parse_values(s, 1) {
            Some((vs, n)) => match vs[0] {
                TagValue::U32(raw) => Some((seq![TagValue::U32(raw & SUBSCRIPTION_MASK_ALL)], n)),
                _ => None,
            },
            None => None,
        }
    }

    open spec fn spec_canonical(&self, protocol_version: u16) -> bool {
        true
    }

    open spec fn spec_encodable(&self, protocol_version: u16) -> bool {
        self@ & SUBSCRIPTION_MASK_ALL == self@
    }

    fn read(ts: &mut TagStructReader, _protocol_version: u16) -> (r: Result<Self, ProtocolError>) {
        let ghost s = ts.rest();
        proof {
            lemma_parse_values_start(s, 1);
            lemma_parse_values_next(s, Seq::empty(), ts.rest(), 0);
        }
        let raw = ts.read_u32()?;
        proof {
            lemma_parse_values_done(seq![TagValue::U32(raw)], s.len() - ts.rest().len(), ts.rest());
        }
        Ok(SubscriptionMask::from_bits_truncate(raw))
    }

    proof fn lemma_roundtrip(&self, protocol_version: u16, rest: Seq<u8>) {
        lemma_parse_values_bytes(self.spec_values(protocol_version), rest);
    }
}

/// The kind of object that an event is about.
#[allow(missing_docs)]
#[derive(Debug, Copy, Clone, PartialEq, Eq, Structural)]
pub enum SubscriptionEventFacility {
    Sink,
    Source,
    SinkInput,
    SourceOutput,
    Module,
    Client,
    SampleCache,
    Server,
    Autoload,
    Card,
}

/// The number that stands for a facility in an event.
pub open spec fn facility_code(f: SubscriptionEventFacility) -> u32 {
    match f {
        SubscriptionEventFacility::Sink => 0,
        SubscriptionEventFacility::Source => 1,
        SubscriptionEventFacility::SinkInput => 2,
        SubscriptionEventFacility::SourceOutput => 3,
        SubscriptionEventFacility::Module => 4,
        SubscriptionEventFacility::Client => 5,
        SubscriptionEventFacility::SampleCache => 6,
        SubscriptionEventFacility::Server => 7,
        SubscriptionEventFacility::Autoload => 8,
        SubscriptionEventFacility::Card => 9,
    }
}

/// The facility a number stands for, if any.
pub open spec fn facility_of_code(v: u32) -> Option<SubscriptionEventFacility> {
    if v == 0 {
        Some(SubscriptionEventFacility::Sink)
    } else if v == 1 {
        Some(SubscriptionEventFacility::Source)
    } else if v == 2 {
        Some(SubscriptionEventFacility::SinkInput)
    } else if v == 3 {
        Some(SubscriptionEventFacility::SourceOutput)
    } else if v == 4 {
        Some(SubscriptionEventFacility::Module)
    } else if v == 5 {
        Some(SubscriptionEventFacility::Client)
    } else if v == 6 {
        Some(SubscriptionEventFacility::SampleCache)
    } else if v == 7 {
        Some(SubscriptionEventFacility::Server)
    } else if v == 8 {
        Some(SubscriptionEventFacility::Autoload)
    } else if v == 9 {
        Some(SubscriptionEventFacility::Card)
    } else {
        None
    }
}

impl SubscriptionEventFacility {
    /// The number that stands for the facility.
    pub fn to_u32(self) -> (r: u32)
        ensures
            r == facility_code(self),
    {
        match self {
            SubscriptionEventFacility::Sink => 0,
            SubscriptionEventFacility::Source => 1,
            SubscriptionEventFacility::SinkInput => 2,
            SubscriptionEventFacility::SourceOutput => 3,
            SubscriptionEventFacility::Module => 4,
            SubscriptionEventFacility::Client => 5,
            SubscriptionEventFacility::SampleCache => 6,
            SubscriptionEventFacility::Server => 7,
            SubscriptionEventFacility::Autoload => 8,
            SubscriptionEventFacility::Card => 9,
        }
    }

    /// The facility a number stands for, or `None`.
    pub fn from_u32(v: u32) -> (r: Option<SubscriptionEventFacility>)
        ensures
            r == facility_of_code(v),
    {
        if v == 0 {
            Some(SubscriptionEventFacility::Sink)
        } else if v == 1 {
            Some(SubscriptionEventFacility::Source)
        } else if v == 2 {
            Some(SubscriptionEventFacility::SinkInput)
        } else if v == 3 {
            Some(SubscriptionEventFacility::SourceOutput)
        } else if v == 4 {
            Some(SubscriptionEventFacility::Module)
        } else if v == 5 {
            Some(SubscriptionEventFacility::Client)
        } else if v == 6 {
            Some(SubscriptionEventFacility::SampleCache)
        } else if v == 7 {
            Some(SubscriptionEventFacility::Server)
        } else if v == 8 {
            Some(SubscriptionEventFacility::Autoload)
        } else if v == 9 {
            Some(SubscriptionEventFacility::Card)
        } else {
            None
        }
    }
}

/// What happened to the object that an event is about.
#[allow(missing_docs)]
#[derive(Debug, Copy, Clone, PartialEq, Eq, Structural)]
pub enum SubscriptionEventType {
    New,
    Changed,
    Removed,
}

/// The number that stands for an event type in an event.
pub open spec fn event_type_code(t: SubscriptionEventType) -> u32 {
    match t {
        SubscriptionEventType::New => 0x00,
        SubscriptionEventType::Changed => 0x20,
        SubscriptionEventType::Removed => 0x30,
    }
}

/// The event type a number stands for, if any.
pub open spec fn event_type_of_code(v: u32) -> Option<SubscriptionEventType> {
    if v == 0x00 {
        Some(SubscriptionEventType::New)
    } else if v == 0x20 {
        Some(SubscriptionEventType::Changed)
    } else if v == 0x30 {
        Some(SubscriptionEventType::Removed)
    } else {
        None
    }
}

impl SubscriptionEventType {
    /// The number that stands for the event type.
    pub fn to_u32(self) -> (r: u32)
        ensures
            r == event_type_code(self),
    {
        match self {
            SubscriptionEventType::New => 0x00,
            SubscriptionEventType::Changed => 0x20,
            SubscriptionEventType::Removed => 0x30,
        }
    }

    /// The event type a number stands for, or `None`.
    pub fn from_u32(v: u32) -> (r: Option<SubscriptionEventType>)
        ensures
            r == event_type_of_code(v),
    {
        if v == 0x00 {
            Some(SubscriptionEventType::New)
        } else if v == 0x20 {
            Some(SubscriptionEventType::Changed)
        } else if v == 0x30 {
            Some(SubscriptionEventType::Removed)
        } else {
            None
        }
    }
}

/// The bits of an event word that hold the facility.
pub const FACILITY_MASK: u32 = 0x0F;

/// The bits of an event word that hold the event type.
pub const EVENT_TYPE_MASK: u32 = 0x30;

/// The event word for a facility and an event type.
pub open spec fn event_word(f: SubscriptionEventFacility, t: SubscriptionEventType) -> u32 {
    facility_code(f) | event_type_code(t)
}

/// The facility and the event type are read back from the event word.
proof fn lemma_event_word(f: SubscriptionEventFacility, t: SubscriptionEventType)
    ensures
        event_word(f, t) & FACILITY_MASK == facility_code(f),
        event_word(f, t) & EVENT_TYPE_MASK == event_type_code(t),
        facility_of_code(facility_code(f)) == Some(f),
        event_type_of_code(event_type_code(t)) == Some(t),
{
    let a = facility_code(f);
    let b = event_type_code(t);
    assert((a | b) & 0x0F == a && (a | b) & 0x30 == b) by (bit_vector)
        requires
            a <= 9,
            b == 0 || b == 0x20 || b == 0x30,
    ;
}

/// A subscription event: something happened to an object of the server.
#[derive(Debug, Clone, Copy, PartialEq, Eq)]
pub struct SubscriptionEvent {
    /// The kind of object.
    pub event_facility: SubscriptionEventFacility,

    /// What happened.
    pub event_type: SubscriptionEventType,

    /// The index of the object.
    pub index: Option<u32>,
}

impl TagStructWrite for SubscriptionEvent {
    open spec fn spec_values(&self, protocol_version: u16) -> Seq<TagValue> {
        seq![TagValue::U32(event_word(self.event_facility, self.event_type)), index_value(self.index)]
    }

    open spec fn spec_writable(&self) -> bool {
        true
    }

    fn write(&self, w: &mut TagStructWriter, _protocol_version: u16) -> (r: Result<(), ProtocolError>) {
        let raw = self.event_facility.to_u32() | self.event_type.to_u32();
        w.write_u32(raw)?;
        w.write_index(self.index)?;
        proof {
            lemma_values_bytes_2(TagValue::U32(raw), index_value(self.index));
        }
        assert(w.bytes() =~= old(w).bytes() + values_bytes(self.spec_values(_protocol_version)));
        Ok(())
    }
}

impl TagStructRead for SubscriptionEvent {
    /// The event read from `s`: its word must name a facility and an event
    /// type; the other bits of the word are dropped.
    open spec fn spec_parse(s: Seq<u8>, protocol_version: u16) -> Option<(Seq<TagValue>, int)> {
        match parse_values(s, 2) {
            Some((vs, n)) => match (vs[0], vs[1]) {
                (TagValue::U32(raw), TagValue::U32(index)) => {
                    if facility_of_code(raw & FACILITY_MASK) is Some && event_type_of_code(
                        raw & EVENT_TYPE_MASK,
                    ) is Some {
                        Some(
                            (
                                seq![
                                    TagValue::U32((raw & FACILITY_MASK) | (raw & EVENT_TYPE_MASK)),
                                    TagValue::U32(index),
                                ],
                                n,
                            ),
                        )
                    } else {
                        None
                    }
                },
                _ => None,
            },
            None => None,
        }
    }

    open spec fn spec_canonical(&self, protocol_version: u16) -> bool {
        true
    }

    open spec fn spec_encodable(&self, protocol_version: u16) -> bool {
        index_encodable(self.index)
    }

    /// A first value that names no known facility or event type is
    /// refused as invalid.
    fn read(ts: &mut TagStructReader, _protocol_version: u16) -> (r: Result<Self, ProtocolError>)
        ensures
            match parse_value(old(ts).rest()) {
                Some((TagValue::U32(raw), _)) => (facility_of_code(raw & FACILITY_MASK) is None
                    || event_type_of_code(raw & EVENT_TYPE_MASK) is None) ==> (r matches Err(e)
                    && e.is_invalid()),
                _ => true,
            },
    {
        let ghost s = ts.rest();
        proof {
            lemma_parse_values_start(s, 2);
            lemma_parse_values_next(s, Seq::empty(), ts.rest(), 1);
        }
        let raw = ts.read_u32()?;
        let event_facility = match SubscriptionEventFacility::from_u32(raw & FACILITY_MASK) {
            Some(f) => f,
            None => {
                return Err(ProtocolError::Invalid("invalid event facility".to_owned()));
            },
        };
        let event_type = match SubscriptionEventType::from_u32(raw & EVENT_TYPE_MASK) {
            Some(t) => t,
            None => {
                return Err(ProtocolError::Invalid("invalid event type".to_owned()));
            },
        };
        proof {
            lemma_parse_values_next(s, seq![TagValue::U32(raw)], ts.rest(), 0);
        }
        let index = ts.read_index()?;
        proof {
            lemma_parse_values_done(
                seq![TagValue::U32(raw), index_value(index)],
                s.len() - ts.rest().len(),
                ts.rest(),
            );
            lemma_event_word(event_facility, event_type);
        }
        Ok(SubscriptionEvent { event_facility, event_type, index })
    }

    proof fn lemma_roundtrip(&self, protocol_version: u16, rest: Seq<u8>) {
        lemma_event_word(self.event_facility, self.event_type);
        lemma_parse_values_bytes(self.spec_values(protocol_version), rest);
    }
}


/// The numbers that stand for the subscription event facilities on the wire, as the PulseAudio protocol
/// assigns them, in both directions.
pub proof fn lemma_facility_table()
    ensures
        facility_code(SubscriptionEventFacility::Sink) == 0,
        facility_code(SubscriptionEventFacility::Source) == 1,
        facility_code(SubscriptionEventFacility::SinkInput) == 2,
        facility_code(SubscriptionEventFacility::SourceOutput) == 3,
        facility_code(SubscriptionEventFacility::Module) == 4,
        facility_code(SubscriptionEventFacility::Client) == 5,
        facility_code(SubscriptionEventFacility::SampleCache) == 6,
        facility_code(SubscriptionEventFacility::Server) == 7,
        facility_code(SubscriptionEventFacility::Autoload) == 8,
        facility_code(SubscriptionEventFacility::Card) == 9,
        facility_of_code(0) == Some(SubscriptionEventFacility::Sink),
        facility_of_code(1) == Some(SubscriptionEventFacility::Source),
        facility_of_code(2) == Some(SubscriptionEventFacility::SinkInput),
        facility_of_code(3) == Some(SubscriptionEventFacility::SourceOutput),
        facility_of_code(4) == Some(SubscriptionEventFacility::Module),
        facility_of_code(5) == Some(SubscriptionEventFacility::Client),
        facility_of_code(6) == Some(SubscriptionEventFacility::SampleCache),
        facility_of_code(7) == Some(SubscriptionEventFacility::Server),
        facility_of_code(8) == Some(SubscriptionEventFacility::Autoload),
        facility_of_code(9) == Some(SubscriptionEventFacility::Card),
{
}

/// The numbers that stand for the subscription event types on the wire, as the PulseAudio protocol
/// assigns them, in both directions.
pub proof fn lemma_event_type_table()
    ensures
        event_type_code(SubscriptionEventType::New) == 0,
        event_type_code(SubscriptionEventType::Changed) == 32,
        event_type_code(SubscriptionEventType::Removed) == 48,
        event_type_of_code(0) == Some(SubscriptionEventType::New),
        event_type_of_code(32) == Some(SubscriptionEventType::Changed),
        event_type_of_code(48) == Some(SubscriptionEventType::Removed),
{
}


/// The values a [`SubscriptionMask`] is sent as, position by position: whatever a read
/// gives from the values `vs` holds each field from its own position.
pub proof fn lemma_subscription_mask_layout(q: SubscriptionMask, vs: Seq<TagValue>, protocol_version: u16)
    requires
        q.spec_values(protocol_version) == vs,
    ensures
        vs == (
            seq![TagValue::U32(q@)]
        ),
{
}

/// The values a [`SubscriptionEvent`] is sent as, position by position: whatever a read
/// gives from the values `vs` holds each field from its own position.
pub proof fn lemma_subscription_event_layout(q: SubscriptionEvent, vs: Seq<TagValue>, protocol_version: u16)
    requires
        q.spec_values(protocol_version) == vs,
    ensures
        vs == (
            seq![TagValue::U32(event_word(q.event_facility, q.event_type)), index_value(q.index)]
        ),
{
}

} // verus!
