//! The ports of sinks, sources and cards, and the lists of ports that the
//! information about a sink or a source carries.

use vstd::prelude::*;

use super::super::error::ProtocolError;
use super::cstr::CString;
use super::wire::{
    TagValue, lemma_parse_values_bytes, lemma_parse_values_done, lemma_parse_values_next,
    lemma_parse_values_start, lemma_values_bytes_concat, lemma_values_bytes_push, parse_value,
    parse_values, parse_values_after, values_bytes, values_wf, wf_value,
};
use super::{TagStructRead, TagStructReader, TagStructWrite, TagStructWriter, opt_cstr_view, string_value};

verus! {

/// The kind of device a port connects to.
#[derive(Debug, Copy, Clone, PartialEq, Eq, Structural)]
pub enum PortType {
    /// The type is not known.
    Unknown,
    /// An auxiliary port.
    Aux,
    /// A speaker.
    Speaker,
    /// Headphones.
    Headphones,
    /// A line level port.
    Line,
    /// A microphone.
    Mic,
    /// A headset.
    Headset,
    /// A handset.
    Handset,
    /// An earpiece.
    Earpiece,
    /// An S/PDIF port.
    Spdif,
    /// An HDMI port.
    Hdmi,
    /// A TV.
    Tv,
    /// A radio.
    Radio,
    /// A video port.
    Video,
    /// A USB port.
    Usb,
    /// A Bluetooth port.
    Bluetooth,
    /// A portable device.
    Portable,
    /// A hands-free device.
    Handsfree,
    /// A car.
    Car,
    /// A hi-fi device.
    Hifi,
    /// A phone.
    Phone,
    /// A network port.
    Network,
    /// An analog port.
    Analog,
}

/// The number that stands for port type on the wire.
pub open spec fn port_type_code(v: PortType) -> u32 {
    match v {
        PortType::Unknown => 0,
        PortType::Aux => 1,
        PortType::Speaker => 2,
        PortType::Headphones => 3,
        PortType::Line => 4,
        PortType::Mic => 5,
        PortType::Headset => 6,
        PortType::Handset => 7,
        PortType::Earpiece => 8,
        PortType::Spdif => 9,
        PortType::Hdmi => 10,
        PortType::Tv => 11,
        PortType::Radio => 12,
        PortType::Video => 13,
        PortType::Usb => 14,
        PortType::Bluetooth => 15,
        PortType::Portable => 16,
        PortType::Handsfree => 17,
        PortType::Car => 18,
        PortType::Hifi => 19,
        PortType::Phone => 20,
        PortType::Network => 21,
        PortType::Analog => 22,
    }
}

/// The port type a number stands for, if any.
pub open spec fn port_type_of_code(c: u32) -> Option<PortType> {
    if c == 0 {
        Some(PortType::Unknown)
    } else if c == 1 {
        Some(PortType::Aux)
    } else if c == 2 {
        Some(PortType::Speaker)
    } else if c == 3 {
        Some(PortType::Headphones)
    } else if c == 4 {
        Some(PortType::Line)
    } else if c == 5 {
        Some(PortType::Mic)
    } else if c == 6 {
        Some(PortType::Headset)
    } else if c == 7 {
        Some(PortType::Handset)
    } else if c == 8 {
        Some(PortType::Earpiece)
    } else if c == 9 {
        Some(PortType::Spdif)
    } else if c == 10 {
        Some(PortType::Hdmi)
    } else if c == 11 {
        Some(PortType::Tv)
    } else if c == 12 {
        Some(PortType::Radio)
    } else if c == 13 {
        Some(PortType::Video)
    } else if c == 14 {
        Some(PortType::Usb)
    } else if c == 15 {
        Some(PortType::Bluetooth)
    } else if c == 16 {
        Some(PortType::Portable)
    } else if c == 17 {
        Some(PortType::Handsfree)
    } else if c == 18 {
        Some(PortType::Car)
    } else if c == 19 {
        Some(PortType::Hifi)
    } else if c == 20 {
        Some(PortType::Phone)
    } else if c == 21 {
        Some(PortType::Network)
    } else if c == 22 {
        Some(PortType::Analog)
    } else {
        None
    }
}

impl PortType {
    /// The number that stands for the value on the wire.
    pub fn to_u32(self) -> (r: u32)
        ensures
            r == port_type_code(self),
    {
        match self {
            PortType::Unknown => 0,
            PortType::Aux => 1,
            PortType::Speaker => 2,
            PortType::Headphones => 3,
            PortType::Line => 4,
            PortType::Mic => 5,
            PortType::Headset => 6,
            PortType::Handset => 7,
            PortType::Earpiece => 8,
            PortType::Spdif => 9,
            PortType::Hdmi => 10,
            PortType::Tv => 11,
            PortType::Radio => 12,
            PortType::Video => 13,
            PortType::Usb => 14,
            PortType::Bluetooth => 15,
            PortType::Portable => 16,
            PortType::Handsfree => 17,
            PortType::Car => 18,
            PortType::Hifi => 19,
            PortType::Phone => 20,
            PortType::Network => 21,
            PortType::Analog => 22,
        }
    }

    /// The value a number stands for, or `None` for a number that stands
    /// for none.
    pub fn from_u32(c: u32) -> (r: Option<PortType>)
        ensures
            r == port_type_of_code(c),
    {
        if c == 0 {
            Some(PortType::Unknown)
        } else if c == 1 {
            Some(PortType::Aux)
        } else if c == 2 {
            Some(PortType::Speaker)
        } else if c == 3 {
            Some(PortType::Headphones)
        } else if c == 4 {
            Some(PortType::Line)
        } else if c == 5 {
            Some(PortType::Mic)
        } else if c == 6 {
            Some(PortType::Headset)
        } else if c == 7 {
            Some(PortType::Handset)
        } else if c == 8 {
            Some(PortType::Earpiece)
        } else if c == 9 {
            Some(PortType::Spdif)
        } else if c == 10 {
            Some(PortType::Hdmi)
        } else if c == 11 {
            Some(PortType::Tv)
        } else if c == 12 {
            Some(PortType::Radio)
        } else if c == 13 {
            Some(PortType::Video)
        } else if c == 14 {
            Some(PortType::Usb)
        } else if c == 15 {
            Some(PortType::Bluetooth)
        } else if c == 16 {
            Some(PortType::Portable)
        } else if c == 17 {
            Some(PortType::Handsfree)
        } else if c == 18 {
            Some(PortType::Car)
        } else if c == 19 {
            Some(PortType::Hifi)
        } else if c == 20 {
            Some(PortType::Phone)
        } else if c == 21 {
            Some(PortType::Network)
        } else if c == 22 {
            Some(PortType::Analog)
        } else {
            None
        }
    }
}

impl Default for PortType {
    fn default() -> (r: Self)
        ensures
            r == PortType::Unknown,
    {
        PortType::Unknown
    }
}

/// Every port type is read back from its own number.
pub proof fn lemma_port_type_roundtrip(v: PortType)
    ensures
        port_type_of_code(port_type_code(v)) == Some(v),
{
}
/// Whether something is plugged into a port.
#[derive(Debug, Copy, Clone, PartialEq, Eq, Structural)]
pub enum PortAvailable {
    /// Availability is not known.
    Unknown,
    /// Nothing is plugged in.
    No,
    /// Something is plugged in.
    Yes,
}

/// The number that stands for port availability on the wire.
pub open spec fn port_available_code(v: PortAvailable) -> u32 {
    match v {
        PortAvailable::Unknown => 0,
        PortAvailable::No => 1,
        PortAvailable::Yes => 2,
    }
}

/// The port availability a number stands for, if any.
pub open spec fn port_available_of_code(c: u32) -> Option<PortAvailable> {
    if c == 0 {
        Some(PortAvailable::Unknown)
    } else if c == 1 {
        Some(PortAvailable::No)
    } else if c == 2 {
        Some(PortAvailable::Yes)
    } else {
        None
    }
}

impl PortAvailable {
    /// The number that stands for the value on the wire.
    pub fn to_u32(self) -> (r: u32)
        ensures
            r == port_available_code(self),
    {
        match self {
            PortAvailable::Unknown => 0,
            PortAvailable::No => 1,
            PortAvailable::Yes => 2,
        }
    }

    /// The value a number stands for, or `None` for a number that stands
    /// for none.
    pub fn from_u32(c: u32) -> (r: Option<PortAvailable>)
        ensures
            r == port_available_of_code(c),
    {
        if c == 0 {
            Some(PortAvailable::Unknown)
        } else if c == 1 {
            Some(PortAvailable::No)
        } else if c == 2 {
            Some(PortAvailable::Yes)
        } else {
            None
        }
    }
}

impl Default for PortAvailable {
    fn default() -> (r: Self)
        ensures
            r == PortAvailable::Unknown,
    {
        PortAvailable::Unknown
    }
}

/// Every port availability is read back from its own number.
pub proof fn lemma_port_available_roundtrip(v: PortAvailable)
    ensures
        port_available_of_code(port_available_code(v)) == Some(v),
{
}
/// The direction of a port.
#[derive(Debug, Copy, Clone, PartialEq, Eq, Structural)]
pub enum PortDirection {
    /// An output port, such as that of a sink.
    Output,
    /// An input port, such as that of a source.
    Input,
}

/// The number that stands for port direction on the wire.
pub open spec fn port_direction_code(v: PortDirection) -> u8 {
    match v {
        PortDirection::Output => 1,
        PortDirection::Input => 2,
    }
}

/// The port direction a number stands for, if any.
pub open spec fn port_direction_of_code(c: u8) -> Option<PortDirection> {
    if c == 1 {
        Some(PortDirection::Output)
    } else if c == 2 {
        Some(PortDirection::Input)
    } else {
        None
    }
}

impl PortDirection {
    /// The number that stands for the value on the wire.
    pub fn to_u8(self) -> (r: u8)
        ensures
            r == port_direction_code(self),
    {
        match self {
            PortDirection::Output => 1,
            PortDirection::Input => 2,
        }
    }

    /// The value a number stands for, or `None` for a number that stands
    /// for none.
    pub fn from_u8(c: u8) -> (r: Option<PortDirection>)
        ensures
            r == port_direction_of_code(c),
    {
        if c == 1 {
            Some(PortDirection::Output)
        } else if c == 2 {
            Some(PortDirection::Input)
        } else {
            None
        }
    }
}

/// Every port direction is read back from its own number.
pub proof fn lemma_port_direction_roundtrip(v: PortDirection)
    ensures
        port_direction_of_code(port_direction_code(v)) == Some(v),
{
}

/// A port of a sink or a source: a place a plug can be plugged into.
#[derive(Debug, Clone, PartialEq, Eq)]
pub struct PortInfo {
    /// The name of the port.
    pub name: CString,

    /// A description of the port.
    pub description: Option<CString>,

    /// The direction of the port; it is not sent, but follows from the
    /// device the port belongs to.
    pub dir: PortDirection,

    /// The priority of the port.
    pub priority: u32,

    /// Whether something is plugged into the port; sent from protocol
    /// version 24 on.
    pub available: PortAvailable,

    /// The group of ports that share availability with this one; sent for
    /// the ports of sinks from protocol version 34 on.
    pub availability_group: Option<CString>,

    /// The kind of device the port connects to; sent for the ports of sinks
    /// from protocol version 34 on.
    pub port_type: PortType,
}

/// The number of values of a port: the availability group and the type are
/// sent only for the ports of sinks (`full`), from protocol version 34 on.
pub open spec fn port_value_count(pv: u16, full: bool) -> nat {
    3 + (if pv >= 24 { 1nat } else { 0nat }) + (if full && pv >= 34 { 2nat } else { 0nat })
}

/// The values of a port of a sink (`full`) or of a source.
pub open spec fn port_values(p: PortInfo, pv: u16, full: bool) -> Seq<TagValue> {
    seq![TagValue::Str(p.name@), string_value(opt_cstr_view(p.description)), TagValue::U32(p.priority)]
        + (if pv >= 24 { seq![TagValue::U32(port_available_code(p.available))] } else { Seq::empty() })
        + (if full && pv >= 34 {
        seq![string_value(opt_cstr_view(p.availability_group)), TagValue::U32(port_type_code(p.port_type))]
    } else {
        Seq::empty()
    })
}

/// The direction of the ports of a sink (`full`) or of a source.
pub open spec fn port_dir(full: bool) -> PortDirection {
    if full {
        PortDirection::Input
    } else {
        PortDirection::Output
    }
}

/// Whether a port holds, in the fields that are not sent, what a read gives
/// them.
pub open spec fn port_canonical(p: PortInfo, pv: u16, full: bool) -> bool {
    &&& p.dir == port_dir(full)
    &&& pv < 24 ==> p.available == PortAvailable::Unknown
    &&& !(full && pv >= 34) ==> p.availability_group is None && p.port_type == PortType::Unknown
}

/// A port name that is sent as a null string is read as an empty name.
pub open spec fn port_name_normalize(vs: Seq<TagValue>) -> Seq<TagValue> {
    if vs[0] is NullStr {
        vs.update(0, TagValue::Str(Seq::empty()))
    } else {
        vs
    }
}

/// The values of the port of a sink (`full`) or of a source that `s` starts
/// with, as a read gives them back, and the number of bytes they take.
pub open spec fn port_parse(s: Seq<u8>, pv: u16, full: bool) -> Option<(Seq<TagValue>, int)> {
    match parse_values(s, port_value_count(pv, full)) {
        Some((vs, n)) => if (vs[0] is Str || vs[0] is NullStr) && (vs[1] is Str || vs[1] is NullStr) && vs[2] is U32
            && (pv >= 24 ==> (vs[3] matches TagValue::U32(x) && port_available_of_code(x) is Some))
            && (full && pv >= 34 ==> (vs[4] is Str || vs[4] is NullStr) && (vs[5] matches TagValue::U32(x)
            && port_type_of_code(x) is Some)) {
            Some((port_name_normalize(vs), n))
        } else {
            None
        },
        None => None,
    }
}

/// Reads a port of a sink (`full`) or of a source.
#[verifier::rlimit(100)]
pub fn read_port(ts: &mut TagStructReader, pv: u16, full: bool) -> (r: Result<PortInfo, ProtocolError>)
    ensures
        final(ts).version() == old(ts).version(),
        match port_parse(old(ts).rest(), pv, full) {
            Some((vs, n)) => (r matches Ok(p) && port_values(p, pv, full) == vs && port_canonical(p, pv, full))
                && 0 <= n <= old(ts).rest().len() && final(ts).rest() == old(ts).rest().skip(n),
            None => r is Err,
        },
{
    let ghost s = ts.rest();
    let ghost total: int = port_value_count(pv, full) as int;
    let ghost mut acc: Seq<TagValue> = Seq::empty();
    proof {
        lemma_parse_values_start(s, total);
        lemma_parse_values_next(s, acc, ts.rest(), total - 1);
    }
    let name_opt = ts.read_string()?;
    proof {
        acc = acc.push(string_value(opt_cstr_view(name_opt)));
        lemma_parse_values_next(s, acc, ts.rest(), total - 2);
    }
    let description = ts.read_string()?;
    proof {
        acc = acc.push(string_value(opt_cstr_view(description)));
        lemma_parse_values_next(s, acc, ts.rest(), total - 3);
    }
    let priority = ts.read_u32()?;
    proof {
        acc = acc.push(TagValue::U32(priority));
    }
    let available = if pv >= 24 {
        proof {
            lemma_parse_values_next(s, acc, ts.rest(), total - 4);
        }
        let c = ts.read_u32()?;
        proof {
            acc = acc.push(TagValue::U32(c));
        }
        match PortAvailable::from_u32(c) {
            Some(a) => a,
            None => {
                return Err(ProtocolError::Invalid("invalid port availability".to_owned()));
            },
        }
    } else {
        PortAvailable::Unknown
    };
    let (availability_group, port_type) = if full && pv >= 34 {
        proof {
            lemma_parse_values_next(s, acc, ts.rest(), total - 5);
        }
        let g = ts.read_string()?;
        proof {
            acc = acc.push(string_value(opt_cstr_view(g)));
            lemma_parse_values_next(s, acc, ts.rest(), total - 6);
        }
        let c = ts.read_u32()?;
        proof {
            acc = acc.push(TagValue::U32(c));
        }
        match PortType::from_u32(c) {
            Some(t) => (g, t),
            None => {
                return Err(ProtocolError::Invalid("invalid port type".to_owned()));
            },
        }
    } else {
        (None, PortType::Unknown)
    };
    proof {
        lemma_parse_values_done(acc, s.len() - ts.rest().len(), ts.rest());
    }
    let name = match name_opt {
        Some(c) => c,
        None => CString::from_vec_unchecked(Vec::new()),
    };
    let dir = if full {
        PortDirection::Input
    } else {
        PortDirection::Output
    };
    let p = PortInfo { name, description, dir, priority, available, availability_group, port_type };
    proof {
        assert(port_values(p, pv, full) =~= port_name_normalize(acc));
    }
    Ok(p)
}

/// Writes a port of a sink (`full`) or of a source.
pub fn write_port(w: &mut TagStructWriter, p: &PortInfo, pv: u16, full: bool) -> (r: Result<(), ProtocolError>)
    ensures
        r == Ok::<(), ProtocolError>(()),
        final(w).bytes() == old(w).bytes() + values_bytes(port_values(*p, pv, full)),
        final(w).version() == old(w).version(),
{
    let ghost b0 = w.bytes();
    let ghost mut acc: Seq<TagValue> = Seq::empty();
    assert(w.bytes() =~= b0 + values_bytes(acc));
    w.write_string(Some(&p.name))?;
    proof {
        lemma_values_bytes_push(acc, TagValue::Str(p.name@));
        assert(w.bytes() =~= b0 + values_bytes(acc.push(TagValue::Str(p.name@))));
        acc = acc.push(TagValue::Str(p.name@));
    }
    w.write_string(p.description.as_ref())?;
    proof {
        let v = string_value(opt_cstr_view(p.description));
        lemma_values_bytes_push(acc, v);
        assert(w.bytes() =~= b0 + values_bytes(acc.push(v)));
        acc = acc.push(v);
    }
    w.write_u32(p.priority)?;
    proof {
        let v = TagValue::U32(p.priority);
        lemma_values_bytes_push(acc, v);
        assert(w.bytes() =~= b0 + values_bytes(acc.push(v)));
        acc = acc.push(v);
    }
    if pv >= 24 {
        w.write_u32(p.available.to_u32())?;
        proof {
            let v = TagValue::U32(port_available_code(p.available));
            lemma_values_bytes_push(acc, v);
            assert(w.bytes() =~= b0 + values_bytes(acc.push(v)));
            acc = acc.push(v);
        }
    }
    if full && pv >= 34 {
        w.write_string(p.availability_group.as_ref())?;
        proof {
            let v = string_value(opt_cstr_view(p.availability_group));
            lemma_values_bytes_push(acc, v);
            assert(w.bytes() =~= b0 + values_bytes(acc.push(v)));
            acc = acc.push(v);
        }
        w.write_u32(p.port_type.to_u32())?;
        proof {
            let v = TagValue::U32(port_type_code(p.port_type));
            lemma_values_bytes_push(acc, v);
            assert(w.bytes() =~= b0 + values_bytes(acc.push(v)));
            acc = acc.push(v);
        }
    }
    assert(acc =~= port_values(*p, pv, full));
    Ok(())
}

/// Reading back the bytes of a canonical port gives its values.
pub proof fn lemma_port_roundtrip(p: PortInfo, pv: u16, full: bool, rest: Seq<u8>)
    requires
        values_wf(port_values(p, pv, full)),
    ensures
        port_parse(values_bytes(port_values(p, pv, full)) + rest, pv, full) == Some(
            (port_values(p, pv, full), values_bytes(port_values(p, pv, full)).len() as int),
        ),
{
    let vs = port_values(p, pv, full);
    assert(vs.len() == port_value_count(pv, full));
    lemma_parse_values_bytes(vs, rest);
    lemma_port_available_roundtrip(p.available);
    lemma_port_type_roundtrip(p.port_type);
    if pv >= 24 {
        assert(vs[3] == TagValue::U32(port_available_code(p.available)));
    }
    if full && pv >= 34 {
        assert(vs[4] == string_value(opt_cstr_view(p.availability_group)));
        assert(vs[5] == TagValue::U32(port_type_code(p.port_type)));
    }
}

/// The values of ports, one after the other.
pub open spec fn ports_values(ports: Seq<PortInfo>, pv: u16, full: bool) -> Seq<TagValue>
    decreases ports.len(),
{
    if ports.len() == 0 {
        Seq::empty()
    } else {
        port_values(ports[0], pv, full) + ports_values(ports.drop_first(), pv, full)
    }
}

/// The names of ports.
pub open spec fn port_names(ports: Seq<PortInfo>) -> Seq<Seq<u8>> {
    ports.map_values(|p: PortInfo| p.name@)
}

/// The name a port value stands for.
pub open spec fn port_value_name(v: TagValue) -> Seq<u8> {
    match v {
        TagValue::Str(b) => b,
        _ => Seq::empty(),
    }
}

/// Parses `count` ports, appending their values to `acc` and their names
/// to `names`: all the values, all the names and the number of bytes they
/// take, or `None` when some port is malformed.
pub open spec fn parse_ports(s: Seq<u8>, count: nat, pv: u16, full: bool, acc: Seq<TagValue>, names: Seq<Seq<u8>>) -> Option<
    (Seq<TagValue>, Seq<Seq<u8>>, int),
>
    decreases count,
{
    if count == 0 {
        Some((acc, names, 0))
    } else {
        match port_parse(s, pv, full) {
            Some((vs, n)) => if 0 <= n <= s.len() {
                match parse_ports(s.skip(n), (count - 1) as nat, pv, full, acc + vs, names.push(port_value_name(vs[0]))) {
                    Some((all, nm, m)) => Some((all, nm, n + m)),
                    None => None,
                }
            } else {
                None
            },
            None => None,
        }
    }
}

/// Appending a port appends its values.
pub proof fn lemma_ports_values_push(ports: Seq<PortInfo>, p: PortInfo, pv: u16, full: bool)
    ensures
        ports_values(ports.push(p), pv, full) == ports_values(ports, pv, full) + port_values(p, pv, full),
    decreases ports.len(),
{
    if ports.len() == 0 {
        assert(ports.push(p).drop_first() =~= Seq::<PortInfo>::empty());
        assert(ports.push(p)[0] == p);
        assert(ports_values(Seq::<PortInfo>::empty(), pv, full) == Seq::<TagValue>::empty());
        assert(ports_values(ports.push(p), pv, full) =~= port_values(p, pv, full) + Seq::<TagValue>::empty());
        assert(ports_values(ports, pv, full) + port_values(p, pv, full) =~= port_values(p, pv, full));
    } else {
        assert(ports.push(p).drop_first() =~= ports.drop_first().push(p));
        lemma_ports_values_push(ports.drop_first(), p, pv, full);
        assert(ports_values(ports.push(p), pv, full) =~= ports_values(ports, pv, full) + port_values(p, pv, full));
    }
}

/// Whether every port of a sequence is sent and read back unchanged.
pub open spec fn ports_encodable(ports: Seq<PortInfo>, pv: u16, full: bool) -> bool {
    forall|i: int| 0 <= i < ports.len() ==> values_wf(port_values(#[trigger] ports[i], pv, full))
        && port_canonical(ports[i], pv, full)
}

/// Parsing the bytes of ports gives back their values and their names.
pub proof fn lemma_parse_ports_bytes(
    ports: Seq<PortInfo>,
    pv: u16,
    full: bool,
    acc: Seq<TagValue>,
    names: Seq<Seq<u8>>,
    rest: Seq<u8>,
)
    requires
        ports_encodable(ports, pv, full),
    ensures
        parse_ports(values_bytes(ports_values(ports, pv, full)) + rest, ports.len(), pv, full, acc, names) == Some(
            (
                acc + ports_values(ports, pv, full),
                names + port_names(ports),
                values_bytes(ports_values(ports, pv, full)).len() as int,
            ),
        ),
    decreases ports.len(),
{
    let lv = ports_values(ports, pv, full);
    if ports.len() == 0 {
        assert(values_bytes(lv) =~= Seq::<u8>::empty());
        assert(acc + lv =~= acc);
        assert(names + port_names(ports) =~= names);
    } else {
        let head = ports[0];
        let tail = ports.drop_first();
        let hv = port_values(head, pv, full);
        let tv = ports_values(tail, pv, full);
        let s = values_bytes(lv) + rest;
        lemma_values_bytes_concat(hv, tv);
        assert(s =~= values_bytes(hv) + (values_bytes(tv) + rest));
        lemma_port_roundtrip(head, pv, full, values_bytes(tv) + rest);
        assert(hv[0] == TagValue::Str(head.name@));
        assert forall|i: int| 0 <= i < tail.len() implies values_wf(port_values(#[trigger] tail[i], pv, full))
            && port_canonical(tail[i], pv, full) by {
            assert(tail[i] == ports[i + 1]);
        }
        lemma_parse_ports_bytes(tail, pv, full, acc + hv, names.push(head.name@), rest);
        assert(s.skip(values_bytes(hv).len() as int) =~= values_bytes(tv) + rest);
        assert(acc + hv + tv =~= acc + lv);
        assert(names.push(head.name@) + port_names(tail) =~= names + port_names(ports));
    }
}

/// Reads `count` ports of a sink (`full`) or of a source.
pub fn read_ports(ts: &mut TagStructReader, count: u32, pv: u16, full: bool) -> (r: Result<Vec<PortInfo>, ProtocolError>)
    ensures
        final(ts).version() == old(ts).version(),
        match parse_ports(old(ts).rest(), count as nat, pv, full, Seq::empty(), Seq::empty()) {
            Some((vs, names, n)) => (r matches Ok(ports) && ports_values(ports@, pv, full) == vs
                && port_names(ports@) == names && ports@.len() == count
                && forall|i: int| 0 <= i < ports@.len() ==> port_canonical(#[trigger] ports@[i], pv, full))
                && 0 <= n <= old(ts).rest().len() && final(ts).rest() == old(ts).rest().skip(n),
            None => r is Err,
        },
{
    let ghost s = ts.rest();
    let mut ports: Vec<PortInfo> = Vec::new();
    let ghost mut acc: Seq<TagValue> = Seq::empty();
    let ghost mut names: Seq<Seq<u8>> = Seq::empty();
    let mut i: u32 = 0;
    assert(s.skip(0) =~= s);
    assert(port_names(ports@) =~= names);
    while i < count
        invariant
            s == old(ts).rest(),
            ts.version() == old(ts).version(),
            i <= count,
            ports@.len() == i,
            ts.rest().len() <= s.len(),
            ts.rest() == s.skip(s.len() - ts.rest().len()),
            acc == ports_values(ports@, pv, full),
            names == port_names(ports@),
            forall|j: int| 0 <= j < ports@.len() ==> port_canonical(#[trigger] ports@[j], pv, full),
            parse_ports(s, count as nat, pv, full, Seq::empty(), Seq::empty()) == match parse_ports(
                ts.rest(),
                (count - i) as nat,
                pv,
                full,
                acc,
                names,
            ) {
                Some((all, nm, m)) => Some((all, nm, m + (s.len() - ts.rest().len()))),
                None => None,
            },
        decreases count - i,
    {
        let ghost t = ts.rest();
        let port = read_port(ts, pv, full)?;
        proof {
            lemma_ports_values_push(ports@, port, pv, full);
            let (vs, n) = port_parse(t, pv, full).unwrap();
            assert(port_value_name(vs[0]) == port.name@);
            acc = acc + port_values(port, pv, full);
            names = names.push(port.name@);
            assert(ts.rest() =~= s.skip(s.len() - ts.rest().len()));
        }
        ports.push(port);
        i = i + 1;
        proof {
            assert(port_names(ports@) =~= names);
        }
    }
    Ok(ports)
}

/// The first index from `i` on at which `names` holds `name`, or -1.
pub open spec fn first_named(names: Seq<Seq<u8>>, name: Seq<u8>, i: int) -> int
    decreases names.len() - i,
{
    if i < 0 || i >= names.len() {
        -1
    } else if names[i] == name {
        i
    } else {
        first_named(names, name, i + 1)
    }
}

/// `first_named` finds the first match from `i` on, if there is one.
pub proof fn lemma_first_named(names: Seq<Seq<u8>>, name: Seq<u8>, i: int)
    requires
        0 <= i,
    ensures
        first_named(names, name, i) >= 0 ==> i <= first_named(names, name, i) < names.len()
            && names[first_named(names, name, i)] == name
            && forall|k: int| i <= k < first_named(names, name, i) ==> names[k] != name,
        first_named(names, name, i) < 0 ==> first_named(names, name, i) == -1
            && forall|k: int| i <= k < names.len() ==> names[k] != name,
    decreases names.len() - i,
{
    if i < names.len() && names[i] != name {
        lemma_first_named(names, name, i + 1);
    }
}

/// The index of the active port that a read gives for the active-port
/// value: the first port with that name, or 0 when there is none.
pub open spec fn active_index(names: Seq<Seq<u8>>, active: TagValue) -> int {
    match active {
        TagValue::Str(x) => if first_named(names, x, 0) >= 0 {
            first_named(names, x, 0)
        } else {
            0
        },
        _ => 0,
    }
}

/// The active-port value that is written for an index: the name of that
/// port, or a null string when there is no such port.
pub open spec fn active_value(names: Seq<Seq<u8>>, idx: int) -> TagValue {
    if 0 <= idx < names.len() {
        TagValue::Str(names[idx])
    } else {
        TagValue::NullStr
    }
}

/// Whether the active port is read back as itself: it is the first port
/// with its name, or 0 when there are no ports.
pub open spec fn active_canonical(ports: Seq<PortInfo>, active: usize) -> bool {
    active as int == active_index(port_names(ports), active_value(port_names(ports), active as int))
}

/// The index of the first port named `name`, or 0 when none is.
pub fn find_port(ports: &Vec<PortInfo>, name: &CString) -> (r: usize)
    ensures
        r as int == active_index(port_names(ports@), TagValue::Str(name@)),
{
    let ghost names = port_names(ports@);
    let mut i: usize = 0;
    while i < ports.len()
        invariant
            i <= ports@.len(),
            names == port_names(ports@),
            first_named(names, name@, 0) == first_named(names, name@, i as int),
        decreases ports@.len() - i,
    {
        if ports[i].name.bytes_eq(name.as_bytes()) {
            assert(names[i as int] == name@);
            return i;
        }
        assert(names[i as int] != name@);
        i = i + 1;
    }
    0
}

/// What a read gives back from the active-port value `a` is read back as
/// itself.
pub proof fn lemma_active_index_stable(names: Seq<Seq<u8>>, a: TagValue)
    ensures
        0 <= active_index(names, a),
        active_index(names, active_value(names, active_index(names, a))) == active_index(names, a),
{
    let j = active_index(names, a);
    if let TagValue::Str(x) = a {
        lemma_first_named(names, x, 0);
    }
    if 0 <= j < names.len() {
        lemma_first_named(names, names[j], 0);
        if j > 0 {
            if let TagValue::Str(x) = a {
                lemma_first_named(names, x, 0);
            }
        }
    }
}

/// The values of the ports of a sink (`full`) or of a source: their number,
/// the ports, then the name of the active port.
pub open spec fn port_list_values(ports: Seq<PortInfo>, active: usize, pv: u16, full: bool) -> Seq<TagValue> {
    seq![TagValue::U32(ports.len() as u32)] + ports_values(ports, pv, full) + seq![
        active_value(port_names(ports), active as int),
    ]
}

/// The values of the ports of a sink (`full`) or of a source that `s` starts
/// with, as a read gives them back, and the number of bytes they take. A
/// read makes the first port with the name sent active, or the first port
/// when no port has that name.
pub open spec fn port_list_parse(s: Seq<u8>, pv: u16, full: bool) -> Option<(Seq<TagValue>, int)> {
    match parse_value(s) {
        Some((TagValue::U32(c), k0)) => if 0 <= k0 <= s.len() {
            match parse_ports(s.skip(k0), c as nat, pv, full, Seq::empty(), Seq::empty()) {
                Some((pvs, names, k1)) => if 0 <= k1 <= s.len() - k0 {
                    match parse_value(s.skip(k0 + k1)) {
                        Some((a, k2)) => if a is Str || a is NullStr {
                            Some(
                                (
                                    seq![TagValue::U32(c)] + pvs + seq![active_value(names, active_index(names, a))],
                                    k0 + k1 + k2,
                                ),
                            )
                        } else {
                            None
                        },
                        None => None,
                    }
                } else {
                    None
                },
                None => None,
            }
        } else {
            None
        },
        _ => None,
    }
}

/// Reads the ports of a sink (`full`) or of a source and the index of the
/// active one.
#[verifier::rlimit(100)]
pub fn read_port_list(ts: &mut TagStructReader, pv: u16, full: bool) -> (r: Result<(Vec<PortInfo>, usize), ProtocolError>)
    ensures
        final(ts).version() == old(ts).version(),
        match port_list_parse(old(ts).rest(), pv, full) {
            Some((vs, n)) => (r matches Ok((ports, a)) && port_list_values(ports@, a, pv, full) == vs
                && active_canonical(ports@, a)
                && forall|i: int| 0 <= i < ports@.len() ==> port_canonical(#[trigger] ports@[i], pv, full))
                && 0 <= n <= old(ts).rest().len() && final(ts).rest() == old(ts).rest().skip(n),
            None => r is Err,
        },
{
    let ghost s = ts.rest();
    proof {
        crate::protocol::serde::fields::lemma_parse_value_len(s);
    }
    let count = ts.read_u32()?;
    let ghost s1 = ts.rest();
    let ports = read_ports(ts, count, pv, full)?;
    let ghost s2 = ts.rest();
    proof {
        crate::protocol::serde::fields::lemma_parse_value_len(s2);
        let k0 = s.len() - s1.len();
        let k1 = s1.len() - s2.len();
        assert(s1 =~= s.skip(k0));
        assert(s2 =~= s.skip(k0 + k1));
    }
    let name = ts.read_string()?;
    let active = match name {
        Some(n) => find_port(&ports, &n),
        None => 0,
    };
    proof {
        let names = port_names(ports@);
        let k0 = s.len() - s1.len();
        let k1 = s1.len() - s2.len();
        assert(s1 =~= s.skip(k0));
        assert(s2 =~= s.skip(k0 + k1));
        let a = string_value(opt_cstr_view(name));
        assert(active as int == active_index(names, a));
        lemma_active_index_stable(names, a);
        assert(ports@.len() as u32 == count);
        assert(ts.rest() =~= s.skip(s.len() - ts.rest().len()));
    }
    Ok((ports, active))
}

/// Writes the ports of a sink (`full`) or of a source and the name of the
/// active one.
pub fn write_port_list(w: &mut TagStructWriter, ports: &Vec<PortInfo>, active: usize, pv: u16, full: bool) -> (r: Result<
    (),
    ProtocolError,
>)
    requires
        ports@.len() <= u32::MAX,
    ensures
        r == Ok::<(), ProtocolError>(()),
        final(w).bytes() == old(w).bytes() + values_bytes(port_list_values(ports@, active, pv, full)),
        final(w).version() == old(w).version(),
{
    let ghost b0 = w.bytes();
    w.write_u32(ports.len() as u32)?;
    let ghost b1 = w.bytes();
    let mut i: usize = 0;
    assert(ports@.take(0) =~= Seq::<PortInfo>::empty());
    assert(w.bytes() =~= b1 + values_bytes(ports_values(ports@.take(0), pv, full)));
    while i < ports.len()
        invariant
            i <= ports@.len(),
            w.version() == old(w).version(),
            w.bytes() == b1 + values_bytes(ports_values(ports@.take(i as int), pv, full)),
        decreases ports@.len() - i,
    {
        let ghost before = ports_values(ports@.take(i as int), pv, full);
        write_port(w, &ports[i], pv, full)?;
        proof {
            assert(ports@.take(i + 1) =~= ports@.take(i as int).push(ports@[i as int]));
            lemma_ports_values_push(ports@.take(i as int), ports@[i as int], pv, full);
            lemma_values_bytes_concat(before, port_values(ports@[i as int], pv, full));
        }
        i = i + 1;
        assert(w.bytes() =~= b1 + values_bytes(ports_values(ports@.take(i as int), pv, full)));
    }
    let ghost b2 = w.bytes();
    if active < ports.len() {
        w.write_string(Some(&ports[active].name))?;
    } else {
        w.write_string(None)?;
    }
    proof {
        assert(ports@.take(ports@.len() as int) =~= ports@);
        let c = TagValue::U32(ports@.len() as u32);
        let pvs = ports_values(ports@, pv, full);
        let av = active_value(port_names(ports@), active as int);
        lemma_values_bytes_concat(seq![c], pvs);
        lemma_values_bytes_concat(seq![c] + pvs, seq![av]);
        crate::protocol::serde::fields::lemma_values_bytes_1(c);
        crate::protocol::serde::fields::lemma_values_bytes_1(av);
        assert(w.bytes() =~= b0 + values_bytes(port_list_values(ports@, active, pv, full)));
    }
    Ok(())
}

/// Reading back the bytes of the ports of a sink (`full`) or of a source
/// gives their values.
pub proof fn lemma_port_list_roundtrip(ports: Seq<PortInfo>, active: usize, pv: u16, full: bool, rest: Seq<u8>)
    requires
        ports.len() <= u32::MAX,
        ports_encodable(ports, pv, full),
        active_canonical(ports, active),
    ensures
        port_list_parse(values_bytes(port_list_values(ports, active, pv, full)) + rest, pv, full) == Some(
            (port_list_values(ports, active, pv, full), values_bytes(port_list_values(ports, active, pv, full)).len() as int),
        ),
{
    let c = TagValue::U32(ports.len() as u32);
    let pvs = ports_values(ports, pv, full);
    let names = port_names(ports);
    let av = active_value(names, active as int);
    let all = port_list_values(ports, active, pv, full);
    lemma_values_bytes_concat(seq![c], pvs);
    lemma_values_bytes_concat(seq![c] + pvs, seq![av]);
    crate::protocol::serde::fields::lemma_values_bytes_1(c);
    crate::protocol::serde::fields::lemma_values_bytes_1(av);
    let s = values_bytes(all) + rest;
    let k0 = values_bytes(seq![c]).len() as int;
    let k1 = values_bytes(pvs).len() as int;
    assert(s =~= values_bytes(seq![c]) + (values_bytes(pvs) + (values_bytes(seq![av]) + rest)));
    super::wire::lemma_parse_value_bytes(c, values_bytes(pvs) + (values_bytes(seq![av]) + rest));
    assert(s.skip(k0) =~= values_bytes(pvs) + (values_bytes(seq![av]) + rest));
    lemma_parse_ports_bytes(ports, pv, full, Seq::empty(), Seq::empty(), values_bytes(seq![av]) + rest);
    assert(Seq::<TagValue>::empty() + pvs =~= pvs);
    assert(Seq::<Seq<u8>>::empty() + names =~= names);
    assert(s.skip(k0 + k1) =~= values_bytes(seq![av]) + rest);
    if 0 <= active < ports.len() {
        assert(names[active as int] == ports[active as int].name@);
        assert(values_wf(port_values(ports[active as int], pv, full)));
        assert(port_values(ports[active as int], pv, full)[0] == TagValue::Str(ports[active as int].name@));
    }
    super::wire::lemma_parse_value_bytes(av, rest);
}

/// The ports of a sink and the index of the active one, as they are sent.
#[derive(Debug, Clone, PartialEq, Eq)]
pub struct SinkPorts {
    /// The ports.
    pub ports: Vec<PortInfo>,

    /// The index of the active port.
    pub active_port: usize,
}

impl TagStructWrite for SinkPorts {
    open spec fn spec_values(&self, protocol_version: u16) -> Seq<TagValue> {
        port_list_values(self.ports@, self.active_port, protocol_version, true)
    }

    open spec fn spec_writable(&self) -> bool {
        self.ports@.len() <= u32::MAX
    }

    fn write(&self, w: &mut TagStructWriter, protocol_version: u16) -> (r: Result<(), ProtocolError>) {
        write_port_list(w, &self.ports, self.active_port, protocol_version, true)
    }
}

impl TagStructRead for SinkPorts {
    open spec fn spec_parse(s: Seq<u8>, protocol_version: u16) -> Option<(Seq<TagValue>, int)> {
        port_list_parse(s, protocol_version, true)
    }

    open spec fn spec_canonical(&self, protocol_version: u16) -> bool {
        &&& active_canonical(self.ports@, self.active_port)
        &&& forall|i: int| 0 <= i < self.ports@.len() ==> port_canonical(#[trigger] self.ports@[i], protocol_version, true)
    }

    open spec fn spec_encodable(&self, protocol_version: u16) -> bool {
        &&& self.ports@.len() <= u32::MAX
        &&& ports_encodable(self.ports@, protocol_version, true)
        &&& active_canonical(self.ports@, self.active_port)
    }

    fn read(ts: &mut TagStructReader, protocol_version: u16) -> (r: Result<Self, ProtocolError>) {
        let (ports, active_port) = read_port_list(ts, protocol_version, true)?;
        Ok(SinkPorts { ports, active_port })
    }

    proof fn lemma_roundtrip(&self, protocol_version: u16, rest: Seq<u8>) {
        lemma_port_list_roundtrip(self.ports@, self.active_port, protocol_version, true, rest);
    }
}

/// The ports of a source and the index of the active one, as they are sent.
#[derive(Debug, Clone, PartialEq, Eq)]
pub struct SourcePorts {
    /// The ports.
    pub ports: Vec<PortInfo>,

    /// The index of the active port.
    pub active_port: usize,
}

impl TagStructWrite for SourcePorts {
    open spec fn spec_values(&self, protocol_version: u16) -> Seq<TagValue> {
        port_list_values(self.ports@, self.active_port, protocol_version, false)
    }

    open spec fn spec_writable(&self) -> bool {
        self.ports@.len() <= u32::MAX
    }

    fn write(&self, w: &mut TagStructWriter, protocol_version: u16) -> (r: Result<(), ProtocolError>) {
        write_port_list(w, &self.ports, self.active_port, protocol_version, false)
    }
}

impl TagStructRead for SourcePorts {
    open spec fn spec_parse(s: Seq<u8>, protocol_version: u16) -> Option<(Seq<TagValue>, int)> {
        port_list_parse(s, protocol_version, false)
    }

    open spec fn spec_canonical(&self, protocol_version: u16) -> bool {
        &&& active_canonical(self.ports@, self.active_port)
        &&& forall|i: int| 0 <= i < self.ports@.len() ==> port_canonical(#[trigger] self.ports@[i], protocol_version, false)
    }

    open spec fn spec_encodable(&self, protocol_version: u16) -> bool {
        &&& self.ports@.len() <= u32::MAX
        &&& ports_encodable(self.ports@, protocol_version, false)
        &&& active_canonical(self.ports@, self.active_port)
    }

    fn read(ts: &mut TagStructReader, protocol_version: u16) -> (r: Result<Self, ProtocolError>) {
        let (ports, active_port) = read_port_list(ts, protocol_version, false)?;
        Ok(SourcePorts { ports, active_port })
    }

    proof fn lemma_roundtrip(&self, protocol_version: u16, rest: Seq<u8>) {
        lemma_port_list_roundtrip(self.ports@, self.active_port, protocol_version, false, rest);
    }
}


/// The numbers that stand for the port types on the wire, as the PulseAudio protocol
/// assigns them, in both directions.
#[verifier::rlimit(100)]
pub proof fn lemma_port_type_table()
    ensures
        port_type_code(PortType::Unknown) == 0,
        port_type_code(PortType::Aux) == 1,
        port_type_code(PortType::Speaker) == 2,
        port_type_code(PortType::Headphones) == 3,
        port_type_code(PortType::Line) == 4,
        port_type_code(PortType::Mic) == 5,
        port_type_code(PortType::Headset) == 6,
        port_type_code(PortType::Handset) == 7,
        port_type_code(PortType::Earpiece) == 8,
        port_type_code(PortType::Spdif) == 9,
        port_type_code(PortType::Hdmi) == 10,
        port_type_code(PortType::Tv) == 11,
        port_type_code(PortType::Radio) == 12,
        port_type_code(PortType::Video) == 13,
        port_type_code(PortType::Usb) == 14,
        port_type_code(PortType::Bluetooth) == 15,
        port_type_code(PortType::Portable) == 16,
        port_type_code(PortType::Handsfree) == 17,
        port_type_code(PortType::Car) == 18,
        port_type_code(PortType::Hifi) == 19,
        port_type_code(PortType::Phone) == 20,
        port_type_code(PortType::Network) == 21,
        port_type_code(PortType::Analog) == 22,
        port_type_of_code(0) == Some(PortType::Unknown),
        port_type_of_code(1) == Some(PortType::Aux),
        port_type_of_code(2) == Some(PortType::Speaker),
        port_type_of_code(3) == Some(PortType::Headphones),
        port_type_of_code(4) == Some(PortType::Line),
        port_type_of_code(5) == Some(PortType::Mic),
        port_type_of_code(6) == Some(PortType::Headset),
        port_type_of_code(7) == Some(PortType::Handset),
        port_type_of_code(8) == Some(PortType::Earpiece),
        port_type_of_code(9) == Some(PortType::Spdif),
        port_type_of_code(10) == Some(PortType::Hdmi),
        port_type_of_code(11) == Some(PortType::Tv),
        port_type_of_code(12) == Some(PortType::Radio),
        port_type_of_code(13) == Some(PortType::Video),
        port_type_of_code(14) == Some(PortType::Usb),
        port_type_of_code(15) == Some(PortType::Bluetooth),
        port_type_of_code(16) == Some(PortType::Portable),
        port_type_of_code(17) == Some(PortType::Handsfree),
        port_type_of_code(18) == Some(PortType::Car),
        port_type_of_code(19) == Some(PortType::Hifi),
        port_type_of_code(20) == Some(PortType::Phone),
        port_type_of_code(21) == Some(PortType::Network),
        port_type_of_code(22) == Some(PortType::Analog),
{
}

/// The numbers that stand for the port availabilities on the wire, as the PulseAudio protocol
/// assigns them, in both directions.
pub proof fn lemma_port_available_table()
    ensures
        port_available_code(PortAvailable::Unknown) == 0,
        port_available_code(PortAvailable::No) == 1,
        port_available_code(PortAvailable::Yes) == 2,
        port_available_of_code(0) == Some(PortAvailable::Unknown),
        port_available_of_code(1) == Some(PortAvailable::No),
        port_available_of_code(2) == Some(PortAvailable::Yes),
{
}

/// The numbers that stand for the port directions on the wire, as the PulseAudio protocol
/// assigns them, in both directions.
pub proof fn lemma_port_direction_table()
    ensures
        port_direction_code(PortDirection::Output) == 1,
        port_direction_code(PortDirection::Input) == 2,
        port_direction_of_code(1) == Some(PortDirection::Output),
        port_direction_of_code(2) == Some(PortDirection::Input),
{
}


/// The values a port is sent as, position by position: its name, its
/// description and its priority, then its availability from protocol
/// version 24 on, then, for the ports of a sink (`full`) from protocol
/// version 34 on, its availability group and its type.
pub proof fn lemma_port_layout(p: PortInfo, pv: u16, full: bool, vs: Seq<TagValue>)
    requires
        port_values(p, pv, full) == vs,
    ensures
        vs =~= seq![TagValue::Str(p.name@), string_value(opt_cstr_view(p.description)), TagValue::U32(p.priority)]
            + (if pv >= 24 { seq![TagValue::U32(port_available_code(p.available))] } else { Seq::empty() })
            + (if full && pv >= 34 {
            seq![string_value(opt_cstr_view(p.availability_group)), TagValue::U32(port_type_code(p.port_type))]
        } else {
            Seq::empty()
        }),
{
}

/// The values the ports of a sink (`full`) or of a source are sent as: their
/// number, each port in order, then the name of the active port, or a null
/// string when the active index names no port.
pub proof fn lemma_port_list_layout(ports: Seq<PortInfo>, active: usize, pv: u16, full: bool, vs: Seq<TagValue>)
    requires
        port_list_values(ports, active, pv, full) == vs,
    ensures
        vs =~= seq![TagValue::U32(ports.len() as u32)] + ports_values(ports, pv, full) + seq![
            if active < ports.len() { TagValue::Str(ports[active as int].name@) } else { TagValue::NullStr },
        ],
{
}

} // verus!
