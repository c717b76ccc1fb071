//! The cards of the server: their profiles and ports, and the information
//! the server gives about them.

use vstd::prelude::*;

use crate::protocol::error::ProtocolError;
use crate::protocol::serde::fields::{
    lemma_values_bytes_1, lemma_values_bytes_2, lemma_values_bytes_4, lemma_values_bytes_5,
    lemma_values_bytes_6,
};
use crate::protocol::serde::wire::{
    TagValue, lemma_parse_values_bytes, lemma_parse_values_done, lemma_parse_values_next,
    lemma_parse_values_start, parse_values, parse_values_after, values_bytes, values_wf,
};
use crate::protocol::serde::{
    INVALID_INDEX, TagStructRead, TagStructReader, TagStructWrite, TagStructWriter, index_encodable,
    index_value, opt_cstr_view, string_value,
};
use crate::protocol::serde::cstr::CString;
use crate::protocol::serde::props::Props;

use super::CommandReply;
use super::stream_params::{gated, gated_parse};
use crate::protocol::serde::counted::{counted_parse, counted_values, lemma_counted_roundtrip, read_counted_list};
use crate::protocol::serde::list::{items_encodable, lemma_list_values_push, list_values};
use crate::protocol::serde::port_info::{
    PortAvailable, PortDirection, PortType, lemma_port_available_roundtrip, lemma_port_direction_roundtrip,
    lemma_port_type_roundtrip, port_available_code, port_available_of_code, port_direction_code,
    port_direction_of_code, port_type_code, port_type_of_code,
};
use crate::protocol::serde::wire::{lemma_values_bytes_concat, lemma_values_bytes_push, parse_value};

verus! {

/// Whether `s` starts with the values of a card port up to its direction,
/// all well formed but the direction, whose byte stands for no direction.
pub open spec fn bad_port_direction(s: Seq<u8>) -> bool {
    match parse_value(s) {
        Some((TagValue::Str(_), k0)) => match parse_value(s.skip(k0)) {
            Some((d, k1)) => (d is Str || d is NullStr) && match parse_value(s.skip(k0 + k1)) {
                Some((TagValue::U32(_), k2)) => match parse_value(s.skip(k0 + k1 + k2)) {
                    Some((TagValue::U32(a), k3)) => port_available_of_code(a) is Some && match parse_value(
                        s.skip(k0 + k1 + k2 + k3),
                    ) {
                        Some((TagValue::U8(x), _)) => port_direction_of_code(x) is None,
                        _ => false,
                    },
                    _ => false,
                },
                _ => false,
            },
            None => false,
        },
        _ => false,
    }
}

/// The names of the profiles a port applies to.
#[derive(Debug, Clone, PartialEq, Eq)]
pub struct PortProfileNames {
    /// The items.
    pub items: Vec<CString>,
}

/// Writes the names of the profiles a port applies to.
pub fn write_profile_names(w: &mut TagStructWriter, items: &Vec<CString>, protocol_version: u16) -> (r: Result<(), ProtocolError>)
    requires
        items@.len() <= u32::MAX,
        forall|i: int| 0 <= i < items@.len() ==> (#[trigger] items@[i]).spec_writable(),
    ensures
        r == Ok::<(), ProtocolError>(()),
        final(w).bytes() == old(w).bytes() + values_bytes(counted_values(items@, protocol_version)),
        final(w).version() == old(w).version(),
{
    w.write_u32(items.len() as u32)?;
    let ghost b1 = w.bytes();
    let mut i: usize = 0;
    assert(items@.take(0) =~= Seq::<CString>::empty());
    assert(w.bytes() =~= b1 + values_bytes(list_values(items@.take(0), protocol_version)));
    while i < items.len()
        invariant
            i <= items@.len(),
            forall|j: int| 0 <= j < items@.len() ==> (#[trigger] items@[j]).spec_writable(),
            w.version() == old(w).version(),
            w.bytes() == b1 + values_bytes(list_values(items@.take(i as int), protocol_version)),
        decreases items@.len() - i,
    {
        items[i].write(w, protocol_version)?;
        proof {
            lemma_list_values_push(items@.take(i as int), items@[i as int], protocol_version);
            assert(items@.take(i as int).push(items@[i as int]) =~= items@.take(i + 1));
            lemma_values_bytes_concat(
                list_values(items@.take(i as int), protocol_version),
                items@[i as int].spec_values(protocol_version),
            );
        }
        i = i + 1;
    }
    assert(items@.take(i as int) =~= items@);
    proof {
        lemma_values_bytes_1(TagValue::U32(items@.len() as u32));
        lemma_values_bytes_concat(seq![TagValue::U32(items@.len() as u32)], list_values(items@, protocol_version));
    }
    assert(w.bytes() =~= old(w).bytes() + values_bytes(counted_values(items@, protocol_version)));
    Ok(())
}

impl TagStructWrite for PortProfileNames {
    open spec fn spec_values(&self, protocol_version: u16) -> Seq<TagValue> {
        counted_values(self.items@, protocol_version)
    }

    open spec fn spec_writable(&self) -> bool {
        &&& self.items@.len() <= u32::MAX
        &&& forall|i: int| 0 <= i < self.items@.len() ==> (#[trigger] self.items@[i]).spec_writable()
    }

    fn write(&self, w: &mut TagStructWriter, protocol_version: u16) -> (r: Result<(), ProtocolError>) {
        write_profile_names(w, &self.items, protocol_version)
    }
}

impl TagStructRead for PortProfileNames {
    open spec fn spec_parse(s: Seq<u8>, protocol_version: u16) -> Option<(Seq<TagValue>, int)> {
        counted_parse::<CString>(s, protocol_version)
    }

    open spec fn spec_canonical(&self, protocol_version: u16) -> bool {
        forall|i: int| 0 <= i < self.items@.len() ==> (#[trigger] self.items@[i]).spec_canonical(protocol_version)
    }

    open spec fn spec_encodable(&self, protocol_version: u16) -> bool {
        self.items@.len() <= u32::MAX && items_encodable(self.items@, protocol_version)
    }

    fn read(ts: &mut TagStructReader, protocol_version: u16) -> (r: Result<Self, ProtocolError>) {
        let items = read_counted_list::<CString>(ts, protocol_version)?;
        Ok(PortProfileNames { items })
    }

    proof fn lemma_roundtrip(&self, protocol_version: u16, rest: Seq<u8>) {
        lemma_counted_roundtrip(self.items@, protocol_version, rest);
    }
}

/// The profiles of a card.
#[derive(Debug, Clone, PartialEq, Eq)]
pub struct CardProfiles {
    /// The items.
    pub items: Vec<CardProfileInfo>,
}

/// Writes the profiles of a card.
pub fn write_card_profiles(w: &mut TagStructWriter, items: &Vec<CardProfileInfo>, protocol_version: u16) -> (r: Result<(), ProtocolError>)
    requires
        items@.len() <= u32::MAX,
        forall|i: int| 0 <= i < items@.len() ==> (#[trigger] items@[i]).spec_writable(),
    ensures
        r == Ok::<(), ProtocolError>(()),
        final(w).bytes() == old(w).bytes() + values_bytes(counted_values(items@, protocol_version)),
        final(w).version() == old(w).version(),
{
    w.write_u32(items.len() as u32)?;
    let ghost b1 = w.bytes();
    let mut i: usize = 0;
    assert(items@.take(0) =~= Seq::<CardProfileInfo>::empty());
    assert(w.bytes() =~= b1 + values_bytes(list_values(items@.take(0), protocol_version)));
    while i < items.len()
        invariant
            i <= items@.len(),
            forall|j: int| 0 <= j < items@.len() ==> (#[trigger] items@[j]).spec_writable(),
            w.version() == old(w).version(),
            w.bytes() == b1 + values_bytes(list_values(items@.take(i as int), protocol_version)),
        decreases items@.len() - i,
    {
        items[i].write(w, protocol_version)?;
        proof {
            lemma_list_values_push(items@.take(i as int), items@[i as int], protocol_version);
            assert(items@.take(i as int).push(items@[i as int]) =~= items@.take(i + 1));
            lemma_values_bytes_concat(
                list_values(items@.take(i as int), protocol_version),
                items@[i as int].spec_values(protocol_version),
            );
        }
        i = i + 1;
    }
    assert(items@.take(i as int) =~= items@);
    proof {
        lemma_values_bytes_1(TagValue::U32(items@.len() as u32));
        lemma_values_bytes_concat(seq![TagValue::U32(items@.len() as u32)], list_values(items@, protocol_version));
    }
    assert(w.bytes() =~= old(w).bytes() + values_bytes(counted_values(items@, protocol_version)));
    Ok(())
}

impl TagStructWrite for CardProfiles {
    open spec fn spec_values(&self, protocol_version: u16) -> Seq<TagValue> {
        counted_values(self.items@, protocol_version)
    }

    open spec fn spec_writable(&self) -> bool {
        &&& self.items@.len() <= u32::MAX
        &&& forall|i: int| 0 <= i < self.items@.len() ==> (#[trigger] self.items@[i]).spec_writable()
    }

    fn write(&self, w: &mut TagStructWriter, protocol_version: u16) -> (r: Result<(), ProtocolError>) {
        write_card_profiles(w, &self.items, protocol_version)
    }
}

impl TagStructRead for CardProfiles {
    open spec fn spec_parse(s: Seq<u8>, protocol_version: u16) -> Option<(Seq<TagValue>, int)> {
        counted_parse::<CardProfileInfo>(s, protocol_version)
    }

    open spec fn spec_canonical(&self, protocol_version: u16) -> bool {
        forall|i: int| 0 <= i < self.items@.len() ==> (#[trigger] self.items@[i]).spec_canonical(protocol_version)
    }

    open spec fn spec_encodable(&self, protocol_version: u16) -> bool {
        self.items@.len() <= u32::MAX && items_encodable(self.items@, protocol_version)
    }

    fn read(ts: &mut TagStructReader, protocol_version: u16) -> (r: Result<Self, ProtocolError>) {
        let items = read_counted_list::<CardProfileInfo>(ts, protocol_version)?;
        Ok(CardProfiles { items })
    }

    proof fn lemma_roundtrip(&self, protocol_version: u16, rest: Seq<u8>) {
        lemma_counted_roundtrip(self.items@, protocol_version, rest);
    }
}

/// The ports of a card.
#[derive(Debug, Clone, PartialEq, Eq)]
pub struct CardPorts {
    /// The items.
    pub items: Vec<CardPortInfo>,
}

/// Writes the ports of a card.
pub fn write_card_ports(w: &mut TagStructWriter, items: &Vec<CardPortInfo>, protocol_version: u16) -> (r: Result<(), ProtocolError>)
    requires
        items@.len() <= u32::MAX,
        forall|i: int| 0 <= i < items@.len() ==> (#[trigger] items@[i]).spec_writable(),
    ensures
        r == Ok::<(), ProtocolError>(()),
        final(w).bytes() == old(w).bytes() + values_bytes(counted_values(items@, protocol_version)),
        final(w).version() == old(w).version(),
{
    w.write_u32(items.len() as u32)?;
    let ghost b1 = w.bytes();
    let mut i: usize = 0;
    assert(items@.take(0) =~= Seq::<CardPortInfo>::empty());
    assert(w.bytes() =~= b1 + values_bytes(list_values(items@.take(0), protocol_version)));
    while i < items.len()
        invariant
            i <= items@.len(),
            forall|j: int| 0 <= j < items@.len() ==> (#[trigger] items@[j]).spec_writable(),
            w.version() == old(w).version(),
            w.bytes() == b1 + values_bytes(list_values(items@.take(i as int), protocol_version)),
        decreases items@.len() - i,
    {
        items[i].write(w, protocol_version)?;
        proof {
            lemma_list_values_push(items@.take(i as int), items@[i as int], protocol_version);
            assert(items@.take(i as int).push(items@[i as int]) =~= items@.take(i + 1));
            lemma_values_bytes_concat(
                list_values(items@.take(i as int), protocol_version),
                items@[i as int].spec_values(protocol_version),
            );
        }
        i = i + 1;
    }
    assert(items@.take(i as int) =~= items@);
    proof {
        lemma_values_bytes_1(TagValue::U32(items@.len() as u32));
        lemma_values_bytes_concat(seq![TagValue::U32(items@.len() as u32)], list_values(items@, protocol_version));
    }
    assert(w.bytes() =~= old(w).bytes() + values_bytes(counted_values(items@, protocol_version)));
    Ok(())
}

impl TagStructWrite for CardPorts {
    open spec fn spec_values(&self, protocol_version: u16) -> Seq<TagValue> {
        counted_values(self.items@, protocol_version)
    }

    open spec fn spec_writable(&self) -> bool {
        &&& self.items@.len() <= u32::MAX
        &&& forall|i: int| 0 <= i < self.items@.len() ==> (#[trigger] self.items@[i]).spec_writable()
    }

    fn write(&self, w: &mut TagStructWriter, protocol_version: u16) -> (r: Result<(), ProtocolError>) {
        write_card_ports(w, &self.items, protocol_version)
    }
}

impl TagStructRead for CardPorts {
    open spec fn spec_parse(s: Seq<u8>, protocol_version: u16) -> Option<(Seq<TagValue>, int)> {
        counted_parse::<CardPortInfo>(s, protocol_version)
    }

    open spec fn spec_canonical(&self, protocol_version: u16) -> bool {
        forall|i: int| 0 <= i < self.items@.len() ==> (#[trigger] self.items@[i]).spec_canonical(protocol_version)
    }

    open spec fn spec_encodable(&self, protocol_version: u16) -> bool {
        self.items@.len() <= u32::MAX && items_encodable(self.items@, protocol_version)
    }

    fn read(ts: &mut TagStructReader, protocol_version: u16) -> (r: Result<Self, ProtocolError>) {
        let items = read_counted_list::<CardPortInfo>(ts, protocol_version)?;
        Ok(CardPorts { items })
    }

    proof fn lemma_roundtrip(&self, protocol_version: u16, rest: Seq<u8>) {
        lemma_counted_roundtrip(self.items@, protocol_version, rest);
    }
}

/// A card of the server, in reply to [`super::Command::GetCardInfo`].
#[derive(Debug, Clone, PartialEq, Eq)]
pub struct CardInfo {
    /// The index of the card.
    pub index: u32,

    /// The name of the card.
    pub name: CString,

    /// The properties of the card.
    pub props: Props,

    /// The index of the module that owns the card.
    pub owner_module_index: Option<u32>,

    /// The name of the driver of the card.
    pub driver: Option<CString>,

    /// The ports of the card; sent from protocol version 26 on.
    pub ports: Vec<CardPortInfo>,

    /// The profiles of the card.
    pub profiles: Vec<CardProfileInfo>,

    /// The name of the active profile.
    pub active_profile: Option<CString>,
}

/// The part of a [`CardInfo`] up to its driver.
pub open spec fn card_info_head(i: CardInfo) -> CardHead {
    CardHead {
        index: i.index,
        name: i.name,
        owner_module_index: i.owner_module_index,
        driver: i.driver,
    }
}

/// The profiles of a [`CardInfo`].
pub open spec fn card_info_profiles(i: CardInfo) -> CardProfiles {
    CardProfiles { items: i.profiles }
}

/// The active profile and the properties of a [`CardInfo`].
pub open spec fn card_info_mid(i: CardInfo) -> CardMid {
    CardMid {
        active_profile: i.active_profile,
        props: i.props,
    }
}

/// The ports of a [`CardInfo`].
pub open spec fn card_info_ports(i: CardInfo) -> CardPorts {
    CardPorts { items: i.ports }
}

/// Writes the part of a [`CardInfo`] up to its driver.
fn write_card_info_head(i: &CardInfo, w: &mut TagStructWriter, protocol_version: u16) -> (r: Result<(), ProtocolError>)
    requires
        i.profiles@.len() <= u32::MAX && i.ports@.len() <= u32::MAX
            && forall|j: int| 0 <= j < i.ports@.len() ==> (#[trigger] i.ports@[j]).spec_writable()
            && forall|j: int| 0 <= j < i.profiles@.len() ==> (#[trigger] i.profiles@[j]).spec_writable(),
    ensures
        r == Ok::<(), ProtocolError>(()),
        final(w).bytes() == old(w).bytes() + values_bytes(card_info_head(*i).spec_values(protocol_version)),
        final(w).version() == old(w).version(),
{
    let ghost b0 = w.bytes();
    let ghost mut acc: Seq<TagValue> = Seq::empty();
    assert(w.bytes() =~= b0 + values_bytes(acc));
    w.write_index(Some(i.index))?;
    proof {
        lemma_values_bytes_push(acc, TagValue::U32(i.index));
        assert(w.bytes() =~= b0 + values_bytes(acc.push(TagValue::U32(i.index))));
        acc = acc.push(TagValue::U32(i.index));
    }
    w.write_string(Some(&i.name))?;
    proof {
        lemma_values_bytes_push(acc, TagValue::Str(i.name@));
        assert(w.bytes() =~= b0 + values_bytes(acc.push(TagValue::Str(i.name@))));
        acc = acc.push(TagValue::Str(i.name@));
    }
    w.write_index(i.owner_module_index)?;
    proof {
        lemma_values_bytes_push(acc, index_value(i.owner_module_index));
        assert(w.bytes() =~= b0 + values_bytes(acc.push(index_value(i.owner_module_index))));
        acc = acc.push(index_value(i.owner_module_index));
    }
    w.write_string(i.driver.as_ref())?;
    proof {
        lemma_values_bytes_push(acc, string_value(opt_cstr_view(i.driver)));
        assert(w.bytes() =~= b0 + values_bytes(acc.push(string_value(opt_cstr_view(i.driver)))));
        acc = acc.push(string_value(opt_cstr_view(i.driver)));
    }
    assert(acc =~= card_info_head(*i).spec_values(protocol_version));
    Ok(())
}

/// Writes the profiles of a [`CardInfo`].
fn write_card_info_profiles(i: &CardInfo, w: &mut TagStructWriter, protocol_version: u16) -> (r: Result<(), ProtocolError>)
    requires
        i.profiles@.len() <= u32::MAX && i.ports@.len() <= u32::MAX
            && forall|j: int| 0 <= j < i.ports@.len() ==> (#[trigger] i.ports@[j]).spec_writable()
            && forall|j: int| 0 <= j < i.profiles@.len() ==> (#[trigger] i.profiles@[j]).spec_writable(),
    ensures
        r == Ok::<(), ProtocolError>(()),
        final(w).bytes() == old(w).bytes() + values_bytes(card_info_profiles(*i).spec_values(protocol_version)),
        final(w).version() == old(w).version(),
{
    let ghost b0 = w.bytes();
    let ghost mut acc: Seq<TagValue> = Seq::empty();
    assert(w.bytes() =~= b0 + values_bytes(acc));
    write_card_profiles(w, &i.profiles, protocol_version)?;
    proof {
        lemma_values_bytes_concat(acc, counted_values(i.profiles@, protocol_version));
        assert(w.bytes() =~= b0 + values_bytes(acc + counted_values(i.profiles@, protocol_version)));
        acc = acc + counted_values(i.profiles@, protocol_version);
    }
    assert(acc =~= card_info_profiles(*i).spec_values(protocol_version));
    Ok(())
}

/// Writes the active profile and the properties of a [`CardInfo`].
fn write_card_info_mid(i: &CardInfo, w: &mut TagStructWriter, protocol_version: u16) -> (r: Result<(), ProtocolError>)
    requires
        i.profiles@.len() <= u32::MAX && i.ports@.len() <= u32::MAX
            && forall|j: int| 0 <= j < i.ports@.len() ==> (#[trigger] i.ports@[j]).spec_writable()
            && forall|j: int| 0 <= j < i.profiles@.len() ==> (#[trigger] i.profiles@[j]).spec_writable(),
    ensures
        r == Ok::<(), ProtocolError>(()),
        final(w).bytes() == old(w).bytes() + values_bytes(card_info_mid(*i).spec_values(protocol_version)),
        final(w).version() == old(w).version(),
{
    let ghost b0 = w.bytes();
    let ghost mut acc: Seq<TagValue> = Seq::empty();
    assert(w.bytes() =~= b0 + values_bytes(acc));
    w.write_string(i.active_profile.as_ref())?;
    proof {
        lemma_values_bytes_push(acc, string_value(opt_cstr_view(i.active_profile)));
        assert(w.bytes() =~= b0 + values_bytes(acc.push(string_value(opt_cstr_view(i.active_profile)))));
        acc = acc.push(string_value(opt_cstr_view(i.active_profile)));
    }
    w.write_props(&i.props)?;
    proof {
        lemma_values_bytes_push(acc, TagValue::PropList(i.props@));
        assert(w.bytes() =~= b0 + values_bytes(acc.push(TagValue::PropList(i.props@))));
        acc = acc.push(TagValue::PropList(i.props@));
    }
    assert(acc =~= card_info_mid(*i).spec_values(protocol_version));
    Ok(())
}

/// Writes the ports of a [`CardInfo`].
fn write_card_info_ports(i: &CardInfo, w: &mut TagStructWriter, protocol_version: u16) -> (r: Result<(), ProtocolError>)
    requires
        i.profiles@.len() <= u32::MAX && i.ports@.len() <= u32::MAX
            && forall|j: int| 0 <= j < i.ports@.len() ==> (#[trigger] i.ports@[j]).spec_writable()
            && forall|j: int| 0 <= j < i.profiles@.len() ==> (#[trigger] i.profiles@[j]).spec_writable(),
    ensures
        r == Ok::<(), ProtocolError>(()),
        final(w).bytes() == old(w).bytes() + values_bytes(card_info_ports(*i).spec_values(protocol_version)),
        final(w).version() == old(w).version(),
{
    let ghost b0 = w.bytes();
    let ghost mut acc: Seq<TagValue> = Seq::empty();
    assert(w.bytes() =~= b0 + values_bytes(acc));
    write_card_ports(w, &i.ports, protocol_version)?;
    proof {
        lemma_values_bytes_concat(acc, counted_values(i.ports@, protocol_version));
        assert(w.bytes() =~= b0 + values_bytes(acc + counted_values(i.ports@, protocol_version)));
        acc = acc + counted_values(i.ports@, protocol_version);
    }
    assert(acc =~= card_info_ports(*i).spec_values(protocol_version));
    Ok(())
}

/// The values of a [`CardInfo`] from its part 2 on.
pub open spec fn card_info_values_rest(i: CardInfo, protocol_version: u16) -> Seq<TagValue> {
    card_info_mid(i).spec_values(protocol_version)
        + gated(protocol_version >= 26, card_info_ports(i).spec_values(protocol_version))
}

/// The values of a [`CardInfo`] from its part 2 on that `s` starts with, as a
/// read gives them back, and the number of bytes they take.
pub open spec fn card_info_parse_rest(s: Seq<u8>, protocol_version: u16) -> Option<(Seq<TagValue>, int)> {
    match CardMid::spec_parse(s.skip(0), protocol_version) {
        Some((v0, n0)) =>
            match gated_parse(protocol_version >= 26, CardPorts::spec_parse(s.skip(n0), protocol_version)) {
                Some((v1, n1)) =>
                    Some((v0 + v1, n0 + n1)),
                None => None,
            },
        None => None,
    }
}

impl TagStructWrite for CardInfo {
    open spec fn spec_values(&self, protocol_version: u16) -> Seq<TagValue> {
        card_info_head(*self).spec_values(protocol_version)
            + card_info_profiles(*self).spec_values(protocol_version)
            + card_info_values_rest(*self, protocol_version)
    }

    open spec fn spec_writable(&self) -> bool {
        self.profiles@.len() <= u32::MAX && self.ports@.len() <= u32::MAX
            && forall|j: int| 0 <= j < self.ports@.len() ==> (#[trigger] self.ports@[j]).spec_writable()
            && forall|j: int| 0 <= j < self.profiles@.len() ==> (#[trigger] self.profiles@[j]).spec_writable()
    }

    #[verifier::rlimit(100)]
    #[verifier::spinoff_prover]
    fn write(&self, w: &mut TagStructWriter, protocol_version: u16) -> (r: Result<(), ProtocolError>) {
        let ghost b0 = w.bytes();
        let ghost mut acc: Seq<TagValue> = Seq::empty();
        assert(w.bytes() =~= b0 + values_bytes(acc));
        let ghost pvs = card_info_head(*self).spec_values(protocol_version);
        write_card_info_head(self, w, protocol_version)?;
        proof {
            lemma_values_bytes_concat(acc, pvs);
            assert(w.bytes() =~= b0 + values_bytes(acc + pvs));
            acc = acc + pvs;
        }
        let ghost pvs = card_info_profiles(*self).spec_values(protocol_version);
        write_card_info_profiles(self, w, protocol_version)?;
        proof {
            lemma_values_bytes_concat(acc, pvs);
            assert(w.bytes() =~= b0 + values_bytes(acc + pvs));
            acc = acc + pvs;
        }
        let ghost pvs = card_info_mid(*self).spec_values(protocol_version);
        write_card_info_mid(self, w, protocol_version)?;
        proof {
            lemma_values_bytes_concat(acc, pvs);
            assert(w.bytes() =~= b0 + values_bytes(acc + pvs));
            acc = acc + pvs;
        }
        if protocol_version >= 26 {
            let ghost pvs = card_info_ports(*self).spec_values(protocol_version);
            write_card_info_ports(self, w, protocol_version)?;
            proof {
                lemma_values_bytes_concat(acc, pvs);
                assert(w.bytes() =~= b0 + values_bytes(acc + pvs));
                acc = acc + pvs;
            }
        }
        assert(acc =~= self.spec_values(protocol_version));
        assert(w.bytes() =~= old(w).bytes() + values_bytes(self.spec_values(protocol_version)));
        Ok(())
    }
}

impl TagStructRead for CardInfo {
    open spec fn spec_parse(s: Seq<u8>, protocol_version: u16) -> Option<(Seq<TagValue>, int)> {
        match CardHead::spec_parse(s.skip(0), protocol_version) {
            Some((v0, n0)) =>
                match CardProfiles::spec_parse(s.skip(n0), protocol_version) {
                    Some((v1, n1)) =>
                        match card_info_parse_rest(s.skip(n0 + n1), protocol_version) {
                            Some((vr, nr)) => Some((v0 + v1 + vr, n0 + n1 + nr)),
                            None => None,
                        },
                    None => None,
                },
            None => None,
        }
    }

    open spec fn spec_canonical(&self, protocol_version: u16) -> bool {
        (!(protocol_version >= 26) ==> self.ports@.len() == 0)
    }

    open spec fn spec_encodable(&self, protocol_version: u16) -> bool {
        &&& card_info_head(*self).spec_encodable(protocol_version)
        &&& card_info_profiles(*self).spec_encodable(protocol_version)
        &&& card_info_mid(*self).spec_encodable(protocol_version)
        &&& (protocol_version >= 26 ==> card_info_ports(*self).spec_encodable(protocol_version))
        &&& self.spec_canonical(protocol_version)
    }

    #[verifier::rlimit(100)]
    #[verifier::spinoff_prover]
    fn read(ts: &mut TagStructReader, protocol_version: u16) -> (r: Result<Self, ProtocolError>)
        ensures
            parse_value(old(ts).rest()) matches Some((TagValue::U32(x), _)) && x == INVALID_INDEX ==> (r matches Err(e) && e.is_invalid()),
    {
        let ghost s = ts.rest();
        proof {
            assert(s.skip(0) =~= s);
        }
        let ghost s0 = ts.rest();
        let p0 = CardHead::read(ts, protocol_version)?;
        proof {
            assert(ts.rest() =~= s.skip(s.len() - ts.rest().len()));
        }
        let ghost g0 = p0;
        let ghost s1 = ts.rest();
        let p1 = CardProfiles::read(ts, protocol_version)?;
        proof {
            assert(ts.rest() =~= s.skip(s.len() - ts.rest().len()));
        }
        let ghost g1 = p1;
        let ghost s2 = ts.rest();
        proof {
            assert(s2.skip(0) =~= s2);
        }
        let p2 = CardMid::read(ts, protocol_version)?;
        proof {
            assert(ts.rest() =~= s.skip(s.len() - ts.rest().len()));
            assert(ts.rest() =~= s2.skip(s2.len() - ts.rest().len()));
        }
        let ghost g2 = p2;
        let ghost s3 = ts.rest();
        let p3 = if protocol_version >= 26 {
            CardPorts::read(ts, protocol_version)?
        } else {
            proof {
                assert(s3.skip(0) =~= s3);
            }
            CardPorts { items: Vec::new() }
        };
        proof {
            assert(ts.rest() =~= s.skip(s.len() - ts.rest().len()));
            assert(ts.rest() =~= s2.skip(s2.len() - ts.rest().len()));
        }
        let ghost g3 = p3;
        let info = CardInfo {
            index: p0.index,
            name: p0.name,
            props: p2.props,
            owner_module_index: p0.owner_module_index,
            driver: p0.driver,
            ports: p3.items,
            profiles: p1.items,
            active_profile: p2.active_profile,
        };
        proof {
            assert(s.skip(0) =~= s);
            assert(card_info_head(info) == g0);
            assert(card_info_profiles(info) == g1);
            assert(card_info_mid(info) == g2);
            assert(card_info_ports(info) == g3);
            let ghost_n = s.len() - ts.rest().len();
            assert(s1 =~= s.skip(s.len() - s1.len()));
            assert(s2 =~= s.skip(s.len() - s2.len()));
            assert(s3 =~= s.skip(s.len() - s3.len()));
            assert(ts.rest() =~= s.skip(ghost_n));
            assert(s3 =~= s2.skip(s2.len() - s3.len()));
            assert(ts.rest() =~= s2.skip(s2.len() - ts.rest().len()));
        }
        Ok(info)
    }

    #[verifier::rlimit(100)]
    #[verifier::spinoff_prover]
    proof fn lemma_roundtrip(&self, protocol_version: u16, rest: Seq<u8>) {
        let tail = values_bytes(card_info_values_rest(*self, protocol_version)) + rest;
        lemma_card_info_rest(*self, protocol_version, rest);
        let q0 = card_info_head(*self);
        let v0 = q0.spec_values(protocol_version);
        let q1 = card_info_profiles(*self);
        let v1 = q1.spec_values(protocol_version);
        let w1 = v1;
        let w0 = v0 + w1;
        lemma_values_bytes_concat(v0, w1);
        let t0 = values_bytes(w0) + tail;
        let t1 = values_bytes(w1) + tail;
        let t2 = tail;
        let o0: int = 0;
        assert(t0.skip(o0) =~= t0);
        assert(t0 =~= values_bytes(v0) + t1);
        q0.lemma_roundtrip(protocol_version, t1);
        let o1: int = o0 + values_bytes(v0).len();
        assert(t0.skip(values_bytes(v0).len() as int) =~= t1);
        assert(t0.skip(o1) =~= t1);
        assert(t1 =~= values_bytes(v1) + t2);
        q1.lemma_roundtrip(protocol_version, t2);
        let o2: int = o1 + values_bytes(v1).len();
        assert(t1.skip(values_bytes(v1).len() as int) =~= t2);
        assert(t0.skip(o2) =~= t2);
        let r = card_info_values_rest(*self, protocol_version);
        assert(self.spec_values(protocol_version) =~= w0 + r);
        lemma_values_bytes_concat(w0, r);
        assert(values_bytes(self.spec_values(protocol_version)) + rest =~= values_bytes(w0) + tail);
        assert((values_bytes(w0) + tail).skip(o2) =~= tail);
    }
}

/// Reading back the bytes of the values of a [`CardInfo`] from its part 2 on
/// gives them back.
#[verifier::rlimit(100)]
#[verifier::spinoff_prover]
proof fn lemma_card_info_rest(i: CardInfo, protocol_version: u16, rest: Seq<u8>)
    requires
        i.spec_encodable(protocol_version),
    ensures
        card_info_parse_rest(values_bytes(card_info_values_rest(i, protocol_version)) + rest, protocol_version) == Some(
            (card_info_values_rest(i, protocol_version), values_bytes(card_info_values_rest(i, protocol_version)).len() as int),
        ),
{
    let q0 = card_info_mid(i);
    let v0 = q0.spec_values(protocol_version);
    let q1 = card_info_ports(i);
    let v1 = gated(protocol_version >= 26, q1.spec_values(protocol_version));
    let w1 = v1;
    let w0 = v0 + w1;
    lemma_values_bytes_concat(v0, w1);
    let t0 = values_bytes(w0) + rest;
    let t1 = values_bytes(w1) + rest;
    let t2 = rest;
    let o0: int = 0;
    assert(t0.skip(o0) =~= t0);
    assert(t0 =~= values_bytes(v0) + t1);
    q0.lemma_roundtrip(protocol_version, t1);
    let o1: int = o0 + values_bytes(v0).len();
    assert(t0.skip(values_bytes(v0).len() as int) =~= t1);
    assert(t0.skip(o1) =~= t1);
    assert(t1 =~= values_bytes(v1) + t2);
    if protocol_version >= 26 {
        q1.lemma_roundtrip(protocol_version, t2);
    }
    let o2: int = o1 + values_bytes(v1).len();
    assert(t1.skip(values_bytes(v1).len() as int) =~= t2);
    assert(t0.skip(o2) =~= t2);
    assert(card_info_values_rest(i, protocol_version) =~= w0);
    assert(values_bytes(w0) + rest == t0);
}

impl CommandReply for CardInfo {}

/// The reply to [`super::Command::GetCardInfoList`]: every card, read up to
/// the end of the reply.
pub type CardInfoList = Vec<CardInfo>;

impl CommandReply for CardInfoList {}

/// A port of a card.
#[derive(Debug, Clone, PartialEq, Eq)]
pub struct CardPortInfo {
    /// The name of the port.
    pub name: CString,

    /// The kind of device the port connects to; sent from protocol version
    /// 34 on.
    pub port_type: PortType,

    /// A description of the port.
    pub description: Option<CString>,

    /// The properties of the port.
    pub props: Props,

    /// The direction of the port.
    pub dir: PortDirection,

    /// The priority of the port.
    pub priority: u32,

    /// Whether something is plugged into the port.
    pub available: PortAvailable,

    /// The group of ports that share availability with this one; sent
    /// from protocol version 34 on.
    pub availability_group: Option<CString>,

    /// The names of the profiles that apply to the port.
    pub profiles: Vec<CString>,

    /// The latency offset of the port, added to that of its sink or
    /// source; sent from protocol version 27 on.
    pub latency_offset: u64,
}

/// The part of a [`CardPortInfo`] up to its properties.
pub open spec fn card_port_head(i: CardPortInfo) -> CardPortHead {
    CardPortHead {
        name: i.name,
        description: i.description,
        priority: i.priority,
        available: i.available,
        dir: i.dir,
        props: i.props,
    }
}

/// The profile names of a [`CardPortInfo`].
pub open spec fn card_port_profiles(i: CardPortInfo) -> PortProfileNames {
    PortProfileNames { items: i.profiles }
}

/// The latency offset of a [`CardPortInfo`].
pub open spec fn card_port_latency(i: CardPortInfo) -> CardPortLatency {
    CardPortLatency { latency_offset: i.latency_offset }
}

/// The availability group and type of a [`CardPortInfo`].
pub open spec fn card_port_group_type(i: CardPortInfo) -> CardPortGroupType {
    CardPortGroupType {
        availability_group: i.availability_group,
        port_type: i.port_type,
    }
}

/// Writes the part of a [`CardPortInfo`] up to its properties.
fn write_card_port_head(i: &CardPortInfo, w: &mut TagStructWriter, protocol_version: u16) -> (r: Result<(), ProtocolError>)
    requires
        i.profiles@.len() <= u32::MAX,
    ensures
        r == Ok::<(), ProtocolError>(()),
        final(w).bytes() == old(w).bytes() + values_bytes(card_port_head(*i).spec_values(protocol_version)),
        final(w).version() == old(w).version(),
{
    let ghost b0 = w.bytes();
    let ghost mut acc: Seq<TagValue> = Seq::empty();
    assert(w.bytes() =~= b0 + values_bytes(acc));
    w.write_string(Some(&i.name))?;
    proof {
        lemma_values_bytes_push(acc, TagValue::Str(i.name@));
        assert(w.bytes() =~= b0 + values_bytes(acc.push(TagValue::Str(i.name@))));
        acc = acc.push(TagValue::Str(i.name@));
    }
    w.write_string(i.description.as_ref())?;
    proof {
        lemma_values_bytes_push(acc, string_value(opt_cstr_view(i.description)));
        assert(w.bytes() =~= b0 + values_bytes(acc.push(string_value(opt_cstr_view(i.description)))));
        acc = acc.push(string_value(opt_cstr_view(i.description)));
    }
    w.write_u32(i.priority)?;
    proof {
        lemma_values_bytes_push(acc, TagValue::U32(i.priority));
        assert(w.bytes() =~= b0 + values_bytes(acc.push(TagValue::U32(i.priority))));
        acc = acc.push(TagValue::U32(i.priority));
    }
    w.write_u32(i.available.to_u32())?;
    proof {
        lemma_values_bytes_push(acc, TagValue::U32(port_available_code(i.available)));
        assert(w.bytes() =~= b0 + values_bytes(acc.push(TagValue::U32(port_available_code(i.available)))));
        acc = acc.push(TagValue::U32(port_available_code(i.available)));
    }
    w.write_u8(i.dir.to_u8())?;
    proof {
        lemma_values_bytes_push(acc, TagValue::U8(port_direction_code(i.dir)));
        assert(w.bytes() =~= b0 + values_bytes(acc.push(TagValue::U8(port_direction_code(i.dir)))));
        acc = acc.push(TagValue::U8(port_direction_code(i.dir)));
    }
    w.write_props(&i.props)?;
    proof {
        lemma_values_bytes_push(acc, TagValue::PropList(i.props@));
        assert(w.bytes() =~= b0 + values_bytes(acc.push(TagValue::PropList(i.props@))));
        acc = acc.push(TagValue::PropList(i.props@));
    }
    assert(acc =~= card_port_head(*i).spec_values(protocol_version));
    Ok(())
}

/// Writes the profile names of a [`CardPortInfo`].
fn write_card_port_profiles(i: &CardPortInfo, w: &mut TagStructWriter, protocol_version: u16) -> (r: Result<(), ProtocolError>)
    requires
        i.profiles@.len() <= u32::MAX,
    ensures
        r == Ok::<(), ProtocolError>(()),
        final(w).bytes() == old(w).bytes() + values_bytes(card_port_profiles(*i).spec_values(protocol_version)),
        final(w).version() == old(w).version(),
{
    let ghost b0 = w.bytes();
    let ghost mut acc: Seq<TagValue> = Seq::empty();
    assert(w.bytes() =~= b0 + values_bytes(acc));
    write_profile_names(w, &i.profiles, protocol_version)?;
    proof {
        lemma_values_bytes_concat(acc, counted_values(i.profiles@, protocol_version));
        assert(w.bytes() =~= b0 + values_bytes(acc + counted_values(i.profiles@, protocol_version)));
        acc = acc + counted_values(i.profiles@, protocol_version);
    }
    assert(acc =~= card_port_profiles(*i).spec_values(protocol_version));
    Ok(())
}

/// Writes the latency offset of a [`CardPortInfo`].
fn write_card_port_latency(i: &CardPortInfo, w: &mut TagStructWriter, protocol_version: u16) -> (r: Result<(), ProtocolError>)
    requires
        i.profiles@.len() <= u32::MAX,
    ensures
        r == Ok::<(), ProtocolError>(()),
        final(w).bytes() == old(w).bytes() + values_bytes(card_port_latency(*i).spec_values(protocol_version)),
        final(w).version() == old(w).version(),
{
    let ghost b0 = w.bytes();
    let ghost mut acc: Seq<TagValue> = Seq::empty();
    assert(w.bytes() =~= b0 + values_bytes(acc));
    w.write_i64(i.latency_offset as i64)?;
    proof {
        lemma_values_bytes_push(acc, TagValue::S64(i.latency_offset as i64));
        assert(w.bytes() =~= b0 + values_bytes(acc.push(TagValue::S64(i.latency_offset as i64))));
        acc = acc.push(TagValue::S64(i.latency_offset as i64));
    }
    assert(acc =~= card_port_latency(*i).spec_values(protocol_version));
    Ok(())
}

/// Writes the availability group and type of a [`CardPortInfo`].
fn write_card_port_group_type(i: &CardPortInfo, w: &mut TagStructWriter, protocol_version: u16) -> (r: Result<(), ProtocolError>)
    requires
        i.profiles@.len() <= u32::MAX,
    ensures
        r == Ok::<(), ProtocolError>(()),
        final(w).bytes() == old(w).bytes() + values_bytes(card_port_group_type(*i).spec_values(protocol_version)),
        final(w).version() == old(w).version(),
{
    let ghost b0 = w.bytes();
    let ghost mut acc: Seq<TagValue> = Seq::empty();
    assert(w.bytes() =~= b0 + values_bytes(acc));
    w.write_string(i.availability_group.as_ref())?;
    proof {
        lemma_values_bytes_push(acc, string_value(opt_cstr_view(i.availability_group)));
        assert(w.bytes() =~= b0 + values_bytes(acc.push(string_value(opt_cstr_view(i.availability_group)))));
        acc = acc.push(string_value(opt_cstr_view(i.availability_group)));
    }
    w.write_u32(i.port_type.to_u32())?;
    proof {
        lemma_values_bytes_push(acc, TagValue::U32(port_type_code(i.port_type)));
        assert(w.bytes() =~= b0 + values_bytes(acc.push(TagValue::U32(port_type_code(i.port_type)))));
        acc = acc.push(TagValue::U32(port_type_code(i.port_type)));
    }
    assert(acc =~= card_port_group_type(*i).spec_values(protocol_version));
    Ok(())
}

/// The values of a [`CardPortInfo`] from its part 2 on.
pub open spec fn card_port_info_values_rest(i: CardPortInfo, protocol_version: u16) -> Seq<TagValue> {
    gated(protocol_version >= 27, card_port_latency(i).spec_values(protocol_version))
        + gated(protocol_version >= 34, card_port_group_type(i).spec_values(protocol_version))
}

/// The values of a [`CardPortInfo`] from its part 2 on that `s` starts with, as a
/// read gives them back, and the number of bytes they take.
pub open spec fn card_port_info_parse_rest(s: Seq<u8>, protocol_version: u16) -> Option<(Seq<TagValue>, int)> {
    match gated_parse(protocol_version >= 27, CardPortLatency::spec_parse(s.skip(0), protocol_version)) {
        Some((v0, n0)) =>
            match gated_parse(protocol_version >= 34, CardPortGroupType::spec_parse(s.skip(n0), protocol_version)) {
                Some((v1, n1)) =>
                    Some((v0 + v1, n0 + n1)),
                None => None,
            },
        None => None,
    }
}

impl TagStructWrite for CardPortInfo {
    open spec fn spec_values(&self, protocol_version: u16) -> Seq<TagValue> {
        card_port_head(*self).spec_values(protocol_version)
            + card_port_profiles(*self).spec_values(protocol_version)
            + card_port_info_values_rest(*self, protocol_version)
    }

    open spec fn spec_writable(&self) -> bool {
        self.profiles@.len() <= u32::MAX
    }

    #[verifier::rlimit(100)]
    #[verifier::spinoff_prover]
    fn write(&self, w: &mut TagStructWriter, protocol_version: u16) -> (r: Result<(), ProtocolError>) {
        let ghost b0 = w.bytes();
        let ghost mut acc: Seq<TagValue> = Seq::empty();
        assert(w.bytes() =~= b0 + values_bytes(acc));
        let ghost pvs = card_port_head(*self).spec_values(protocol_version);
        write_card_port_head(self, w, protocol_version)?;
        proof {
            lemma_values_bytes_concat(acc, pvs);
            assert(w.bytes() =~= b0 + values_bytes(acc + pvs));
            acc = acc + pvs;
        }
        let ghost pvs = card_port_profiles(*self).spec_values(protocol_version);
        write_card_port_profiles(self, w, protocol_version)?;
        proof {
            lemma_values_bytes_concat(acc, pvs);
            assert(w.bytes() =~= b0 + values_bytes(acc + pvs));
            acc = acc + pvs;
        }
        if protocol_version >= 27 {
            let ghost pvs = card_port_latency(*self).spec_values(protocol_version);
            write_card_port_latency(self, w, protocol_version)?;
            proof {
                lemma_values_bytes_concat(acc, pvs);
                assert(w.bytes() =~= b0 + values_bytes(acc + pvs));
                acc = acc + pvs;
            }
        }
        if protocol_version >= 34 {
            let ghost pvs = card_port_group_type(*self).spec_values(protocol_version);
            write_card_port_group_type(self, w, protocol_version)?;
            proof {
                lemma_values_bytes_concat(acc, pvs);
                assert(w.bytes() =~= b0 + values_bytes(acc + pvs));
                acc = acc + pvs;
            }
        }
        assert(acc =~= self.spec_values(protocol_version));
        assert(w.bytes() =~= old(w).bytes() + values_bytes(self.spec_values(protocol_version)));
        Ok(())
    }
}

impl TagStructRead for CardPortInfo {
    open spec fn spec_parse(s: Seq<u8>, protocol_version: u16) -> Option<(Seq<TagValue>, int)> {
        match CardPortHead::spec_parse(s.skip(0), protocol_version) {
            Some((v0, n0)) =>
                match PortProfileNames::spec_parse(s.skip(n0), protocol_version) {
                    Some((v1, n1)) =>
                        match card_port_info_parse_rest(s.skip(n0 + n1), protocol_version) {
                            Some((vr, nr)) => Some((v0 + v1 + vr, n0 + n1 + nr)),
                            None => None,
                        },
                    None => None,
                },
            None => None,
        }
    }

    open spec fn spec_canonical(&self, protocol_version: u16) -> bool {
        (!(protocol_version >= 27) ==> self.latency_offset == 0)
        && (!(protocol_version >= 34) ==> self.availability_group is None && self.port_type == PortType::Unknown)
    }

    open spec fn spec_encodable(&self, protocol_version: u16) -> bool {
        &&& card_port_head(*self).spec_encodable(protocol_version)
        &&& card_port_profiles(*self).spec_encodable(protocol_version)
        &&& (protocol_version >= 27 ==> card_port_latency(*self).spec_encodable(protocol_version))
        &&& (protocol_version >= 34 ==> card_port_group_type(*self).spec_encodable(protocol_version))
        &&& self.spec_canonical(protocol_version)
    }

    #[verifier::rlimit(100)]
    #[verifier::spinoff_prover]
    fn read(ts: &mut TagStructReader, protocol_version: u16) -> (r: Result<Self, ProtocolError>)
        ensures
            bad_port_direction(old(ts).rest()) ==> (r matches Err(e) && e.is_invalid()),
    {
        let ghost s = ts.rest();
        proof {
            assert(s.skip(0) =~= s);
        }
        let ghost s0 = ts.rest();
        let p0 = CardPortHead::read(ts, protocol_version)?;
        proof {
            assert(ts.rest() =~= s.skip(s.len() - ts.rest().len()));
        }
        let ghost g0 = p0;
        let ghost s1 = ts.rest();
        let p1 = PortProfileNames::read(ts, protocol_version)?;
        proof {
            assert(ts.rest() =~= s.skip(s.len() - ts.rest().len()));
        }
        let ghost g1 = p1;
        let ghost s2 = ts.rest();
        proof {
            assert(s2.skip(0) =~= s2);
        }
        let p2 = if protocol_version >= 27 {
            CardPortLatency::read(ts, protocol_version)?
        } else {
            proof {
                assert(s2.skip(0) =~= s2);
            }
            CardPortLatency { latency_offset: 0 }
        };
        proof {
            assert(ts.rest() =~= s.skip(s.len() - ts.rest().len()));
            assert(ts.rest() =~= s2.skip(s2.len() - ts.rest().len()));
        }
        let ghost g2 = p2;
        let ghost s3 = ts.rest();
        let p3 = if protocol_version >= 34 {
            CardPortGroupType::read(ts, protocol_version)?
        } else {
            proof {
                assert(s3.skip(0) =~= s3);
            }
            CardPortGroupType { availability_group: None, port_type: PortType::Unknown }
        };
        proof {
            assert(ts.rest() =~= s.skip(s.len() - ts.rest().len()));
            assert(ts.rest() =~= s2.skip(s2.len() - ts.rest().len()));
        }
        let ghost g3 = p3;
        let info = CardPortInfo {
            name: p0.name,
            port_type: p3.port_type,
            description: p0.description,
            props: p0.props,
            dir: p0.dir,
            priority: p0.priority,
            available: p0.available,
            availability_group: p3.availability_group,
            profiles: p1.items,
            latency_offset: p2.latency_offset,
        };
        proof {
            assert(s.skip(0) =~= s);
            assert(card_port_head(info) == g0);
            assert(card_port_profiles(info) == g1);
            assert(card_port_latency(info) == g2);
            assert(card_port_group_type(info) == g3);
            let ghost_n = s.len() - ts.rest().len();
            assert(s1 =~= s.skip(s.len() - s1.len()));
            assert(s2 =~= s.skip(s.len() - s2.len()));
            assert(s3 =~= s.skip(s.len() - s3.len()));
            assert(ts.rest() =~= s.skip(ghost_n));
            assert(s3 =~= s2.skip(s2.len() - s3.len()));
            assert(ts.rest() =~= s2.skip(s2.len() - ts.rest().len()));
        }
        Ok(info)
    }

    #[verifier::rlimit(100)]
    #[verifier::spinoff_prover]
    proof fn lemma_roundtrip(&self, protocol_version: u16, rest: Seq<u8>) {
        let tail = values_bytes(card_port_info_values_rest(*self, protocol_version)) + rest;
        lemma_card_port_info_rest(*self, protocol_version, rest);
        let q0 = card_port_head(*self);
        let v0 = q0.spec_values(protocol_version);
        let q1 = card_port_profiles(*self);
        let v1 = q1.spec_values(protocol_version);
        let w1 = v1;
        let w0 = v0 + w1;
        lemma_values_bytes_concat(v0, w1);
        let t0 = values_bytes(w0) + tail;
        let t1 = values_bytes(w1) + tail;
        let t2 = tail;
        let o0: int = 0;
        assert(t0.skip(o0) =~= t0);
        assert(t0 =~= values_bytes(v0) + t1);
        q0.lemma_roundtrip(protocol_version, t1);
        let o1: int = o0 + values_bytes(v0).len();
        assert(t0.skip(values_bytes(v0).len() as int) =~= t1);
        assert(t0.skip(o1) =~= t1);
        assert(t1 =~= values_bytes(v1) + t2);
        q1.lemma_roundtrip(protocol_version, t2);
        let o2: int = o1 + values_bytes(v1).len();
        assert(t1.skip(values_bytes(v1).len() as int) =~= t2);
        assert(t0.skip(o2) =~= t2);
        let r = card_port_info_values_rest(*self, protocol_version);
        assert(self.spec_values(protocol_version) =~= w0 + r);
        lemma_values_bytes_concat(w0, r);
        assert(values_bytes(self.spec_values(protocol_version)) + rest =~= values_bytes(w0) + tail);
        assert((values_bytes(w0) + tail).skip(o2) =~= tail);
    }
}

/// Reading back the bytes of the values of a [`CardPortInfo`] from its part 2 on
/// gives them back.
#[verifier::rlimit(100)]
#[verifier::spinoff_prover]
proof fn lemma_card_port_info_rest(i: CardPortInfo, protocol_version: u16, rest: Seq<u8>)
    requires
        i.spec_encodable(protocol_version),
    ensures
        card_port_info_parse_rest(values_bytes(card_port_info_values_rest(i, protocol_version)) + rest, protocol_version) == Some(
            (card_port_info_values_rest(i, protocol_version), values_bytes(card_port_info_values_rest(i, protocol_version)).len() as int),
        ),
{
    let q0 = card_port_latency(i);
    let v0 = gated(protocol_version >= 27, q0.spec_values(protocol_version));
    let q1 = card_port_group_type(i);
    let v1 = gated(protocol_version >= 34, q1.spec_values(protocol_version));
    let w1 = v1;
    let w0 = v0 + w1;
    lemma_values_bytes_concat(v0, w1);
    let t0 = values_bytes(w0) + rest;
    let t1 = values_bytes(w1) + rest;
    let t2 = rest;
    let o0: int = 0;
    assert(t0.skip(o0) =~= t0);
    assert(t0 =~= values_bytes(v0) + t1);
    if protocol_version >= 27 {
        q0.lemma_roundtrip(protocol_version, t1);
    }
    let o1: int = o0 + values_bytes(v0).len();
    assert(t0.skip(values_bytes(v0).len() as int) =~= t1);
    assert(t0.skip(o1) =~= t1);
    assert(t1 =~= values_bytes(v1) + t2);
    if protocol_version >= 34 {
        q1.lemma_roundtrip(protocol_version, t2);
    }
    let o2: int = o1 + values_bytes(v1).len();
    assert(t1.skip(values_bytes(v1).len() as int) =~= t2);
    assert(t0.skip(o2) =~= t2);
    assert(card_port_info_values_rest(i, protocol_version) =~= w0);
    assert(values_bytes(w0) + rest == t0);
}


/// A profile of a card.
#[derive(Debug, Clone, PartialEq, Eq)]
pub struct CardProfileInfo {
    /// The name of the profile.
    pub name: CString,

    /// A description of the profile.
    pub description: Option<CString>,

    /// The priority of the profile.
    pub priority: u32,

    /// Whether the profile is available; sent from protocol version 29 on,
    /// and 0 before.
    pub available: u32,

    /// The number of sinks the profile would create.
    pub num_sinks: u32,

    /// The number of sources the profile would create.
    pub num_sources: u32,
}

impl TagStructWrite for CardProfileInfo {
    open spec fn spec_values(&self, protocol_version: u16) -> Seq<TagValue> {
        if protocol_version >= 29 {
            seq![
                TagValue::Str(self.name@),
                string_value(opt_cstr_view(self.description)),
                TagValue::U32(self.num_sinks),
                TagValue::U32(self.num_sources),
                TagValue::U32(self.priority),
                TagValue::U32(self.available),
            ]
        } else {
            seq![
                TagValue::Str(self.name@),
                string_value(opt_cstr_view(self.description)),
                TagValue::U32(self.num_sinks),
                TagValue::U32(self.num_sources),
                TagValue::U32(self.priority),
            ]
        }
    }

    open spec fn spec_writable(&self) -> bool {
        true
    }

    fn write(&self, w: &mut TagStructWriter, protocol_version: u16) -> (r: Result<(), ProtocolError>) {
        w.write_string(Some(&self.name))?;
        w.write_string(self.description.as_ref())?;
        w.write_u32(self.num_sinks)?;
        w.write_u32(self.num_sources)?;
        w.write_u32(self.priority)?;
        if protocol_version >= 29 {
            w.write_u32(self.available)?;
            proof {
                lemma_values_bytes_6(
                    TagValue::Str(self.name@),
                    string_value(opt_cstr_view(self.description)),
                    TagValue::U32(self.num_sinks),
                    TagValue::U32(self.num_sources),
                    TagValue::U32(self.priority),
                    TagValue::U32(self.available),
                );
            }
        } else {
            proof {
                lemma_values_bytes_5(
                    TagValue::Str(self.name@),
                    string_value(opt_cstr_view(self.description)),
                    TagValue::U32(self.num_sinks),
                    TagValue::U32(self.num_sources),
                    TagValue::U32(self.priority),
                );
            }
        }
        assert(w.bytes() =~= old(w).bytes() + values_bytes(self.spec_values(protocol_version)));
        Ok(())
    }
}

impl TagStructRead for CardProfileInfo {
    open spec fn spec_parse(s: Seq<u8>, protocol_version: u16) -> Option<(Seq<TagValue>, int)> {
        if protocol_version >= 29 {
            match parse_values(s, 6) {
                Some((vs, n)) => if vs[0] is Str
                    && (vs[1] is Str || vs[1] is NullStr)
                    && vs[2] is U32
                    && vs[3] is U32
                    && vs[4] is U32
                    && vs[5] is U32
                {
                    Some((vs, n))
                } else {
                    None
                },
                None => None,
            }
        } else {
            match parse_values(s, 5) {
                Some((vs, n)) => if vs[0] is Str
                    && (vs[1] is Str || vs[1] is NullStr)
                    && vs[2] is U32
                    && vs[3] is U32
                    && vs[4] is U32
                {
                    Some((vs, n))
                } else {
                    None
                },
                None => None,
            }
        }
    }

    open spec fn spec_canonical(&self, protocol_version: u16) -> bool {
        (protocol_version < 29 ==> self.available == 0)
    }

    open spec fn spec_encodable(&self, protocol_version: u16) -> bool {
        &&& values_wf(self.spec_values(protocol_version))
        &&& self.spec_canonical(protocol_version)
    }

    #[verifier::rlimit(100)]
    #[verifier::spinoff_prover]
    fn read(ts: &mut TagStructReader, protocol_version: u16) -> (r: Result<Self, ProtocolError>) {
        let ghost s = ts.rest();
        let ghost total: int = if protocol_version >= 29 { 6 } else { 5 };
        proof {
            lemma_parse_values_start(s, total);
            lemma_parse_values_next(s, Seq::empty(), ts.rest(), total - 1);
        }
        let name = ts.read_string_non_null()?;
        proof {
            assert(parse_values(s, total as nat) == parse_values_after(
                seq![TagValue::Str(name@)],
                s.len() - ts.rest().len(),
                ts.rest(),
                total - 1,
            ));
            lemma_parse_values_next(s, seq![TagValue::Str(name@)], ts.rest(), total - 2);
        }
        let description = ts.read_string()?;
        proof {
            assert(parse_values(s, total as nat) == parse_values_after(
                seq![TagValue::Str(name@), string_value(opt_cstr_view(description))],
                s.len() - ts.rest().len(),
                ts.rest(),
                total - 2,
            ));
            lemma_parse_values_next(
                s,
                seq![TagValue::Str(name@), string_value(opt_cstr_view(description))],
                ts.rest(),
                total - 3,
            );
        }
        let num_sinks = ts.read_u32()?;
        proof {
            assert(parse_values(s, total as nat) == parse_values_after(
                seq![
                    TagValue::Str(name@),
                    string_value(opt_cstr_view(description)),
                    TagValue::U32(num_sinks),
                ],
                s.len() - ts.rest().len(),
                ts.rest(),
                total - 3,
            ));
            lemma_parse_values_next(
                s,
                seq![
                    TagValue::Str(name@),
                    string_value(opt_cstr_view(description)),
                    TagValue::U32(num_sinks),
                ],
                ts.rest(),
                total - 4,
            );
        }
        let num_sources = ts.read_u32()?;
        proof {
            assert(parse_values(s, total as nat) == parse_values_after(
                seq![
                    TagValue::Str(name@),
                    string_value(opt_cstr_view(description)),
                    TagValue::U32(num_sinks),
                    TagValue::U32(num_sources),
                ],
                s.len() - ts.rest().len(),
                ts.rest(),
                total - 4,
            ));
            lemma_parse_values_next(
                s,
                seq![
                    TagValue::Str(name@),
                    string_value(opt_cstr_view(description)),
                    TagValue::U32(num_sinks),
                    TagValue::U32(num_sources),
                ],
                ts.rest(),
                total - 5,
            );
        }
        let priority = ts.read_u32()?;
        proof {
            assert(parse_values(s, total as nat) == parse_values_after(
                seq![
                    TagValue::Str(name@),
                    string_value(opt_cstr_view(description)),
                    TagValue::U32(num_sinks),
                    TagValue::U32(num_sources),
                    TagValue::U32(priority),
                ],
                s.len() - ts.rest().len(),
                ts.rest(),
                total - 5,
            ));
        }
        let available = if protocol_version >= 29 {
            proof {
                lemma_parse_values_next(
                    s,
                    seq![
                        TagValue::Str(name@),
                        string_value(opt_cstr_view(description)),
                        TagValue::U32(num_sinks),
                        TagValue::U32(num_sources),
                        TagValue::U32(priority),
                    ],
                    ts.rest(),
                    total - 6,
                );
            }
            let available = ts.read_u32()?;
            proof {
                assert(parse_values(s, total as nat) == parse_values_after(
                    seq![
                        TagValue::Str(name@),
                        string_value(opt_cstr_view(description)),
                        TagValue::U32(num_sinks),
                        TagValue::U32(num_sources),
                        TagValue::U32(priority),
                        TagValue::U32(available),
                    ],
                    s.len() - ts.rest().len(),
                    ts.rest(),
                    total - 6,
                ));
                lemma_parse_values_done(
                    seq![
                        TagValue::Str(name@),
                        string_value(opt_cstr_view(description)),
                        TagValue::U32(num_sinks),
                        TagValue::U32(num_sources),
                        TagValue::U32(priority),
                        TagValue::U32(available),
                    ],
                    s.len() - ts.rest().len(),
                    ts.rest(),
                );
            }
            available
        } else {
            proof {
                lemma_parse_values_done(
                    seq![
                        TagValue::Str(name@),
                        string_value(opt_cstr_view(description)),
                        TagValue::U32(num_sinks),
                        TagValue::U32(num_sources),
                        TagValue::U32(priority),
                    ],
                    s.len() - ts.rest().len(),
                    ts.rest(),
                );
            }
            0
        };
        Ok(CardProfileInfo {
            name,
            description,
            priority,
            available,
            num_sinks,
            num_sources,
        })
    }

    proof fn lemma_roundtrip(&self, protocol_version: u16, rest: Seq<u8>) {
        lemma_parse_values_bytes(self.spec_values(protocol_version), rest);
    }
}

/// The values of a [`CardPortInfo`] up to its properties.
#[derive(Debug, Clone, PartialEq, Eq)]
pub struct CardPortHead {
    /// A value of the part.
    pub name: CString,

    /// A value of the part.
    pub description: Option<CString>,

    /// A value of the part.
    pub priority: u32,

    /// A value of the part.
    pub available: PortAvailable,

    /// A value of the part.
    pub dir: PortDirection,

    /// A value of the part.
    pub props: Props,
}

impl TagStructWrite for CardPortHead {
    open spec fn spec_values(&self, protocol_version: u16) -> Seq<TagValue> {
        seq![
            TagValue::Str(self.name@),
            string_value(opt_cstr_view(self.description)),
            TagValue::U32(self.priority),
            TagValue::U32(port_available_code(self.available)),
            TagValue::U8(port_direction_code(self.dir)),
            TagValue::PropList(self.props@),
        ]
    }

    open spec fn spec_writable(&self) -> bool {
        true
    }

    fn write(&self, w: &mut TagStructWriter, _protocol_version: u16) -> (r: Result<(), ProtocolError>) {
        w.write_string(Some(&self.name))?;
        w.write_string(self.description.as_ref())?;
        w.write_u32(self.priority)?;
        w.write_u32(self.available.to_u32())?;
        w.write_u8(self.dir.to_u8())?;
        w.write_props(&self.props)?;
        proof {
            lemma_values_bytes_6(
                TagValue::Str(self.name@),
                string_value(opt_cstr_view(self.description)),
                TagValue::U32(self.priority),
                TagValue::U32(port_available_code(self.available)),
                TagValue::U8(port_direction_code(self.dir)),
                TagValue::PropList(self.props@),
            );
        }
        assert(w.bytes() =~= old(w).bytes() + values_bytes(self.spec_values(_protocol_version)));
        Ok(())
    }
}

impl TagStructRead for CardPortHead {
    open spec fn spec_parse(s: Seq<u8>, protocol_version: u16) -> Option<(Seq<TagValue>, int)> {
        match parse_values(s, 6) {
            Some((vs, n)) => if vs[0] is Str
                && (vs[1] is Str || vs[1] is NullStr)
                && vs[2] is U32
                && (vs[3] matches TagValue::U32(x) && port_available_of_code(x) is Some)
                && (vs[4] matches TagValue::U8(x) && port_direction_of_code(x) is Some)
                && vs[5] is PropList
            {
                Some((vs, n))
            } else {
                None
            },
            None => None,
        }
    }

    open spec fn spec_canonical(&self, protocol_version: u16) -> bool {
        true
    }

    open spec fn spec_encodable(&self, protocol_version: u16) -> bool {
        &&& values_wf(self.spec_values(protocol_version))
        &&& self.spec_canonical(protocol_version)
    }

    #[verifier::rlimit(100)]
    #[verifier::spinoff_prover]
    fn read(ts: &mut TagStructReader, _protocol_version: u16) -> (r: Result<Self, ProtocolError>)
        ensures
            bad_port_direction(old(ts).rest()) ==> (r matches Err(e) && e.is_invalid()),
    {
        let ghost s = ts.rest();
        let ghost total: int = 6;
        proof {
            lemma_parse_values_start(s, total);
            lemma_parse_values_next(s, Seq::empty(), ts.rest(), total - 1);
        }
        let name = ts.read_string_non_null()?;
        proof {
            assert(parse_values(s, total as nat) == parse_values_after(
                seq![TagValue::Str(name@)],
                s.len() - ts.rest().len(),
                ts.rest(),
                total - 1,
            ));
            lemma_parse_values_next(s, seq![TagValue::Str(name@)], ts.rest(), total - 2);
        }
        let description = ts.read_string()?;
        proof {
            assert(parse_values(s, total as nat) == parse_values_after(
                seq![TagValue::Str(name@), string_value(opt_cstr_view(description))],
                s.len() - ts.rest().len(),
                ts.rest(),
                total - 2,
            ));
            lemma_parse_values_next(
                s,
                seq![TagValue::Str(name@), string_value(opt_cstr_view(description))],
                ts.rest(),
                total - 3,
            );
        }
        let priority = ts.read_u32()?;
        proof {
            assert(parse_values(s, total as nat) == parse_values_after(
                seq![
                    TagValue::Str(name@),
                    string_value(opt_cstr_view(description)),
                    TagValue::U32(priority),
                ],
                s.len() - ts.rest().len(),
                ts.rest(),
                total - 3,
            ));
            lemma_parse_values_next(
                s,
                seq![
                    TagValue::Str(name@),
                    string_value(opt_cstr_view(description)),
                    TagValue::U32(priority),
                ],
                ts.rest(),
                total - 4,
            );
        }
        let available = match PortAvailable::from_u32(ts.read_u32()?) {
            Some(a) => a,
            None => {
                return Err(ProtocolError::Invalid("invalid port availability".to_owned()));
            },
        };
        proof {
            assert(parse_values(s, total as nat) == parse_values_after(
                seq![
                    TagValue::Str(name@),
                    string_value(opt_cstr_view(description)),
                    TagValue::U32(priority),
                    TagValue::U32(port_available_code(available)),
                ],
                s.len() - ts.rest().len(),
                ts.rest(),
                total - 4,
            ));
            lemma_parse_values_next(
                s,
                seq![
                    TagValue::Str(name@),
                    string_value(opt_cstr_view(description)),
                    TagValue::U32(priority),
                    TagValue::U32(port_available_code(available)),
                ],
                ts.rest(),
                total - 5,
            );
        }
        let dir = match PortDirection::from_u8(ts.read_u8()?) {
            Some(d) => d,
            None => {
                return Err(ProtocolError::Invalid("invalid port direction".to_owned()));
            },
        };
        proof {
            assert(parse_values(s, total as nat) == parse_values_after(
                seq![
                    TagValue::Str(name@),
                    string_value(opt_cstr_view(description)),
                    TagValue::U32(priority),
                    TagValue::U32(port_available_code(available)),
                    TagValue::U8(port_direction_code(dir)),
                ],
                s.len() - ts.rest().len(),
                ts.rest(),
                total - 5,
            ));
            lemma_parse_values_next(
                s,
                seq![
                    TagValue::Str(name@),
                    string_value(opt_cstr_view(description)),
                    TagValue::U32(priority),
                    TagValue::U32(port_available_code(available)),
                    TagValue::U8(port_direction_code(dir)),
                ],
                ts.rest(),
                total - 6,
            );
        }
        let props = ts.read_props()?;
        proof {
            assert(parse_values(s, total as nat) == parse_values_after(
                seq![
                    TagValue::Str(name@),
                    string_value(opt_cstr_view(description)),
                    TagValue::U32(priority),
                    TagValue::U32(port_available_code(available)),
                    TagValue::U8(port_direction_code(dir)),
                    TagValue::PropList(props@),
                ],
                s.len() - ts.rest().len(),
                ts.rest(),
                total - 6,
            ));
            lemma_parse_values_done(
                seq![
                    TagValue::Str(name@),
                    string_value(opt_cstr_view(description)),
                    TagValue::U32(priority),
                    TagValue::U32(port_available_code(available)),
                    TagValue::U8(port_direction_code(dir)),
                    TagValue::PropList(props@),
                ],
                s.len() - ts.rest().len(),
                ts.rest(),
            );
        }
        Ok(CardPortHead {
            name,
            description,
            priority,
            available,
            dir,
            props,
        })
    }

    proof fn lemma_roundtrip(&self, protocol_version: u16, rest: Seq<u8>) {
        lemma_port_available_roundtrip(self.available);
        lemma_port_direction_roundtrip(self.dir);
        lemma_parse_values_bytes(self.spec_values(protocol_version), rest);
    }
}

/// The latency offset of a [`CardPortInfo`], sent from protocol version 27
/// on.
#[derive(Debug, Clone, PartialEq, Eq)]
pub struct CardPortLatency {
    /// A value of the part.
    pub latency_offset: u64,
}

impl TagStructWrite for CardPortLatency {
    open spec fn spec_values(&self, protocol_version: u16) -> Seq<TagValue> {
        seq![TagValue::S64(self.latency_offset as i64)]
    }

    open spec fn spec_writable(&self) -> bool {
        true
    }

    fn write(&self, w: &mut TagStructWriter, _protocol_version: u16) -> (r: Result<(), ProtocolError>) {
        w.write_i64(self.latency_offset as i64)?;
        proof {
            lemma_values_bytes_1(TagValue::S64(self.latency_offset as i64));
        }
        assert(w.bytes() =~= old(w).bytes() + values_bytes(self.spec_values(_protocol_version)));
        Ok(())
    }
}

impl TagStructRead for CardPortLatency {
    open spec fn spec_parse(s: Seq<u8>, protocol_version: u16) -> Option<(Seq<TagValue>, int)> {
        match parse_values(s, 1) {
            Some((vs, n)) => if (vs[0] matches TagValue::S64(x) && x >= 0) {
                Some((vs, n))
            } else {
                None
            },
            None => None,
        }
    }

    open spec fn spec_canonical(&self, protocol_version: u16) -> bool {
        self.latency_offset <= 0x7fff_ffff_ffff_ffffu64
    }

    open spec fn spec_encodable(&self, protocol_version: u16) -> bool {
        &&& values_wf(self.spec_values(protocol_version))
        &&& self.spec_canonical(protocol_version)
    }

    fn read(ts: &mut TagStructReader, _protocol_version: u16) -> (r: Result<Self, ProtocolError>)
        ensures
            parse_value(old(ts).rest()) matches Some((TagValue::S64(x), _)) && x < 0 ==> (r matches Err(e) && e.is_invalid()),
    {
        let ghost s = ts.rest();
        let ghost total: int = 1;
        proof {
            lemma_parse_values_start(s, total);
            lemma_parse_values_next(s, Seq::empty(), ts.rest(), total - 1);
        }
        let latency_offset = {
            let x = ts.read_i64()?;
            if x < 0 {
                return Err(ProtocolError::Invalid("latency offset cannot be negative".to_owned()));
            }
            x as u64
        };
        proof {
            assert(parse_values(s, total as nat) == parse_values_after(
                seq![TagValue::S64(latency_offset as i64)],
                s.len() - ts.rest().len(),
                ts.rest(),
                total - 1,
            ));
            lemma_parse_values_done(
                seq![TagValue::S64(latency_offset as i64)],
                s.len() - ts.rest().len(),
                ts.rest(),
            );
        }
        Ok(CardPortLatency {
            latency_offset,
        })
    }

    proof fn lemma_roundtrip(&self, protocol_version: u16, rest: Seq<u8>) {
        lemma_parse_values_bytes(self.spec_values(protocol_version), rest);
    }
}

/// The availability group and type of a [`CardPortInfo`], sent from protocol
/// version 34 on.
#[derive(Debug, Clone, PartialEq, Eq)]
pub struct CardPortGroupType {
    /// A value of the part.
    pub availability_group: Option<CString>,

    /// A value of the part.
    pub port_type: PortType,
}

impl TagStructWrite for CardPortGroupType {
    open spec fn spec_values(&self, protocol_version: u16) -> Seq<TagValue> {
        seq![
            string_value(opt_cstr_view(self.availability_group)),
            TagValue::U32(port_type_code(self.port_type)),
        ]
    }

    open spec fn spec_writable(&self) -> bool {
        true
    }

    fn write(&self, w: &mut TagStructWriter, _protocol_version: u16) -> (r: Result<(), ProtocolError>) {
        w.write_string(self.availability_group.as_ref())?;
        w.write_u32(self.port_type.to_u32())?;
        proof {
            lemma_values_bytes_2(
                string_value(opt_cstr_view(self.availability_group)),
                TagValue::U32(port_type_code(self.port_type)),
            );
        }
        assert(w.bytes() =~= old(w).bytes() + values_bytes(self.spec_values(_protocol_version)));
        Ok(())
    }
}

impl TagStructRead for CardPortGroupType {
    open spec fn spec_parse(s: Seq<u8>, protocol_version: u16) -> Option<(Seq<TagValue>, int)> {
        match parse_values(s, 2) {
            Some((vs, n)) => if (vs[0] is Str || vs[0] is NullStr)
                && (vs[1] matches TagValue::U32(x) && port_type_of_code(x) is Some)
            {
                Some((vs, n))
            } else {
                None
            },
            None => None,
        }
    }

    open spec fn spec_canonical(&self, protocol_version: u16) -> bool {
        true
    }

    open spec fn spec_encodable(&self, protocol_version: u16) -> bool {
        &&& values_wf(self.spec_values(protocol_version))
        &&& self.spec_canonical(protocol_version)
    }

    fn read(ts: &mut TagStructReader, _protocol_version: u16) -> (r: Result<Self, ProtocolError>) {
        let ghost s = ts.rest();
        let ghost total: int = 2;
        proof {
            lemma_parse_values_start(s, total);
            lemma_parse_values_next(s, Seq::empty(), ts.rest(), total - 1);
        }
        let availability_group = ts.read_string()?;
        proof {
            assert(parse_values(s, total as nat) == parse_values_after(
                seq![string_value(opt_cstr_view(availability_group))],
                s.len() - ts.rest().len(),
                ts.rest(),
                total - 1,
            ));
            lemma_parse_values_next(
                s,
                seq![string_value(opt_cstr_view(availability_group))],
                ts.rest(),
                total - 2,
            );
        }
        let port_type = match PortType::from_u32(ts.read_u32()?) {
            Some(t) => t,
            None => {
                return Err(ProtocolError::Invalid("invalid port type".to_owned()));
            },
        };
        proof {
            assert(parse_values(s, total as nat) == parse_values_after(
                seq![
                    string_value(opt_cstr_view(availability_group)),
                    TagValue::U32(port_type_code(port_type)),
                ],
                s.len() - ts.rest().len(),
                ts.rest(),
                total - 2,
            ));
            lemma_parse_values_done(
                seq![
                    string_value(opt_cstr_view(availability_group)),
                    TagValue::U32(port_type_code(port_type)),
                ],
                s.len() - ts.rest().len(),
                ts.rest(),
            );
        }
        Ok(CardPortGroupType {
            availability_group,
            port_type,
        })
    }

    proof fn lemma_roundtrip(&self, protocol_version: u16, rest: Seq<u8>) {
        lemma_port_type_roundtrip(self.port_type);
        lemma_parse_values_bytes(self.spec_values(protocol_version), rest);
    }
}

/// The values of a [`CardInfo`] up to its driver.
#[derive(Debug, Clone, PartialEq, Eq)]
pub struct CardHead {
    /// A value of the part.
    pub index: u32,

    /// A value of the part.
    pub name: CString,

    /// A value of the part.
    pub owner_module_index: Option<u32>,

    /// A value of the part.
    pub driver: Option<CString>,
}

impl TagStructWrite for CardHead {
    open spec fn spec_values(&self, protocol_version: u16) -> Seq<TagValue> {
        seq![
            TagValue::U32(self.index),
            TagValue::Str(self.name@),
            index_value(self.owner_module_index),
            string_value(opt_cstr_view(self.driver)),
        ]
    }

    open spec fn spec_writable(&self) -> bool {
        true
    }

    fn write(&self, w: &mut TagStructWriter, _protocol_version: u16) -> (r: Result<(), ProtocolError>) {
        w.write_index(Some(self.index))?;
        w.write_string(Some(&self.name))?;
        w.write_index(self.owner_module_index)?;
        w.write_string(self.driver.as_ref())?;
        proof {
            lemma_values_bytes_4(
                TagValue::U32(self.index),
                TagValue::Str(self.name@),
                index_value(self.owner_module_index),
                string_value(opt_cstr_view(self.driver)),
            );
        }
        assert(w.bytes() =~= old(w).bytes() + values_bytes(self.spec_values(_protocol_version)));
        Ok(())
    }
}

impl TagStructRead for CardHead {
    open spec fn spec_parse(s: Seq<u8>, protocol_version: u16) -> Option<(Seq<TagValue>, int)> {
        match parse_values(s, 4) {
            Some((vs, n)) => if (vs[0] matches TagValue::U32(x) && x != INVALID_INDEX)
                && vs[1] is Str
                && vs[2] is U32
                && (vs[3] is Str || vs[3] is NullStr)
            {
                Some((vs, n))
            } else {
                None
            },
            None => None,
        }
    }

    open spec fn spec_canonical(&self, protocol_version: u16) -> bool {
        true
    }

    open spec fn spec_encodable(&self, protocol_version: u16) -> bool {
        &&& values_wf(self.spec_values(protocol_version))
        &&& self.index != INVALID_INDEX
        &&& index_encodable(self.owner_module_index)
        &&& self.spec_canonical(protocol_version)
    }

    fn read(ts: &mut TagStructReader, _protocol_version: u16) -> (r: Result<Self, ProtocolError>)
        ensures
            parse_value(old(ts).rest()) matches Some((TagValue::U32(x), _)) && x == INVALID_INDEX ==> (r matches Err(e)
                && e.is_invalid()),
    {
        let ghost s = ts.rest();
        let ghost total: int = 4;
        proof {
            lemma_parse_values_start(s, total);
            lemma_parse_values_next(s, Seq::empty(), ts.rest(), total - 1);
        }
        let index = match ts.read_index()? {
            Some(i) => i,
            None => {
                return Err(ProtocolError::Invalid("invalid card index".to_owned()));
            },
        };
        proof {
            assert(parse_values(s, total as nat) == parse_values_after(
                seq![TagValue::U32(index)],
                s.len() - ts.rest().len(),
                ts.rest(),
                total - 1,
            ));
            lemma_parse_values_next(s, seq![TagValue::U32(index)], ts.rest(), total - 2);
        }
        let name = ts.read_string_non_null()?;
        proof {
            assert(parse_values(s, total as nat) == parse_values_after(
                seq![TagValue::U32(index), TagValue::Str(name@)],
                s.len() - ts.rest().len(),
                ts.rest(),
                total - 2,
            ));
            lemma_parse_values_next(
                s,
                seq![TagValue::U32(index), TagValue::Str(name@)],
                ts.rest(),
                total - 3,
            );
        }
        let owner_module_index = ts.read_index()?;
        proof {
            assert(parse_values(s, total as nat) == parse_values_after(
                seq![TagValue::U32(index), TagValue::Str(name@), index_value(owner_module_index)],
                s.len() - ts.rest().len(),
                ts.rest(),
                total - 3,
            ));
            lemma_parse_values_next(
                s,
                seq![TagValue::U32(index), TagValue::Str(name@), index_value(owner_module_index)],
                ts.rest(),
                total - 4,
            );
        }
        let driver = ts.read_string()?;
        proof {
            assert(parse_values(s, total as nat) == parse_values_after(
                seq![
                    TagValue::U32(index),
                    TagValue::Str(name@),
                    index_value(owner_module_index),
                    string_value(opt_cstr_view(driver)),
                ],
                s.len() - ts.rest().len(),
                ts.rest(),
                total - 4,
            ));
            lemma_parse_values_done(
                seq![
                    TagValue::U32(index),
                    TagValue::Str(name@),
                    index_value(owner_module_index),
                    string_value(opt_cstr_view(driver)),
                ],
                s.len() - ts.rest().len(),
                ts.rest(),
            );
        }
        Ok(CardHead {
            index,
            name,
            owner_module_index,
            driver,
        })
    }

    proof fn lemma_roundtrip(&self, protocol_version: u16, rest: Seq<u8>) {
        lemma_parse_values_bytes(self.spec_values(protocol_version), rest);
    }
}

/// The active profile and the properties of a [`CardInfo`].
#[derive(Debug, Clone, PartialEq, Eq)]
pub struct CardMid {
    /// A value of the part.
    pub active_profile: Option<CString>,

    /// A value of the part.
    pub props: Props,
}

impl TagStructWrite for CardMid {
    open spec fn spec_values(&self, protocol_version: u16) -> Seq<TagValue> {
        seq![string_value(opt_cstr_view(self.active_profile)), TagValue::PropList(self.props@)]
    }

    open spec fn spec_writable(&self) -> bool {
        true
    }

    fn write(&self, w: &mut TagStructWriter, _protocol_version: u16) -> (r: Result<(), ProtocolError>) {
        w.write_string(self.active_profile.as_ref())?;
        w.write_props(&self.props)?;
        proof {
            lemma_values_bytes_2(
                string_value(opt_cstr_view(self.active_profile)),
                TagValue::PropList(self.props@),
            );
        }
        assert(w.bytes() =~= old(w).bytes() + values_bytes(self.spec_values(_protocol_version)));
        Ok(())
    }
}

impl TagStructRead for CardMid {
    open spec fn spec_parse(s: Seq<u8>, protocol_version: u16) -> Option<(Seq<TagValue>, int)> {
        match parse_values(s, 2) {
            Some((vs, n)) => if (vs[0] is Str || vs[0] is NullStr) && vs[1] is PropList {
                Some((vs, n))
            } else {
                None
            },
            None => None,
        }
    }

    open spec fn spec_canonical(&self, protocol_version: u16) -> bool {
        true
    }

    open spec fn spec_encodable(&self, protocol_version: u16) -> bool {
        &&& values_wf(self.spec_values(protocol_version))
        &&& self.spec_canonical(protocol_version)
    }

    fn read(ts: &mut TagStructReader, _protocol_version: u16) -> (r: Result<Self, ProtocolError>) {
        let ghost s = ts.rest();
        let ghost total: int = 2;
        proof {
            lemma_parse_values_start(s, total);
            lemma_parse_values_next(s, Seq::empty(), ts.rest(), total - 1);
        }
        let active_profile = ts.read_string()?;
        proof {
            assert(parse_values(s, total as nat) == parse_values_after(
                seq![string_value(opt_cstr_view(active_profile))],
                s.len() - ts.rest().len(),
                ts.rest(),
                total - 1,
            ));
            lemma_parse_values_next(
                s,
                seq![string_value(opt_cstr_view(active_profile))],
                ts.rest(),
                total - 2,
            );
        }
        let props = ts.read_props()?;
        proof {
            assert(parse_values(s, total as nat) == parse_values_after(
                seq![string_value(opt_cstr_view(active_profile)), TagValue::PropList(props@)],
                s.len() - ts.rest().len(),
                ts.rest(),
                total - 2,
            ));
            lemma_parse_values_done(
                seq![string_value(opt_cstr_view(active_profile)), TagValue::PropList(props@)],
                s.len() - ts.rest().len(),
                ts.rest(),
            );
        }
        Ok(CardMid {
            active_profile,
            props,
        })
    }

    proof fn lemma_roundtrip(&self, protocol_version: u16, rest: Seq<u8>) {
        lemma_parse_values_bytes(self.spec_values(protocol_version), rest);
    }
}


/// The values a [`CardProfileInfo`] is sent as, position by position: whatever a read
/// gives from the values `vs` holds each field from its own position.
pub proof fn lemma_card_profile_info_layout(q: CardProfileInfo, vs: Seq<TagValue>, protocol_version: u16)
    requires
        q.spec_values(protocol_version) == vs,
    ensures
        vs == (
            if protocol_version >= 29 {
                    seq![
                        TagValue::Str(q.name@),
                        string_value(opt_cstr_view(q.description)),
                        TagValue::U32(q.num_sinks),
                        TagValue::U32(q.num_sources),
                        TagValue::U32(q.priority),
                        TagValue::U32(q.available),
                    ]
                } else {
                    seq![
                        TagValue::Str(q.name@),
                        string_value(opt_cstr_view(q.description)),
                        TagValue::U32(q.num_sinks),
                        TagValue::U32(q.num_sources),
                        TagValue::U32(q.priority),
                    ]
                }
        ),
{
}

/// The values a [`CardPortHead`] is sent as, position by position: whatever a read
/// gives from the values `vs` holds each field from its own position.
pub proof fn lemma_card_port_head_layout(q: CardPortHead, vs: Seq<TagValue>, protocol_version: u16)
    requires
        q.spec_values(protocol_version) == vs,
    ensures
        vs == (
            seq![
                    TagValue::Str(q.name@),
                    string_value(opt_cstr_view(q.description)),
                    TagValue::U32(q.priority),
                    TagValue::U32(port_available_code(q.available)),
                    TagValue::U8(port_direction_code(q.dir)),
                    TagValue::PropList(q.props@),
                ]
        ),
{
}

/// The values a [`CardPortLatency`] is sent as, position by position: whatever a read
/// gives from the values `vs` holds each field from its own position.
pub proof fn lemma_card_port_latency_layout(q: CardPortLatency, vs: Seq<TagValue>, protocol_version: u16)
    requires
        q.spec_values(protocol_version) == vs,
    ensures
        vs == (
            seq![TagValue::S64(q.latency_offset as i64)]
        ),
{
}

/// The values a [`CardPortGroupType`] is sent as, position by position: whatever a read
/// gives from the values `vs` holds each field from its own position.
pub proof fn lemma_card_port_group_type_layout(q: CardPortGroupType, vs: Seq<TagValue>, protocol_version: u16)
    requires
        q.spec_values(protocol_version) == vs,
    ensures
        vs == (
            seq![
                    string_value(opt_cstr_view(q.availability_group)),
                    TagValue::U32(port_type_code(q.port_type)),
                ]
        ),
{
}

/// The values a [`CardHead`] is sent as, position by position: whatever a read
/// gives from the values `vs` holds each field from its own position.
pub proof fn lemma_card_head_layout(q: CardHead, vs: Seq<TagValue>, protocol_version: u16)
    requires
        q.spec_values(protocol_version) == vs,
    ensures
        vs == (
            seq![
                    TagValue::U32(q.index),
                    TagValue::Str(q.name@),
                    index_value(q.owner_module_index),
                    string_value(opt_cstr_view(q.driver)),
                ]
        ),
{
}

/// The values a [`CardMid`] is sent as, position by position: whatever a read
/// gives from the values `vs` holds each field from its own position.
pub proof fn lemma_card_mid_layout(q: CardMid, vs: Seq<TagValue>, protocol_version: u16)
    requires
        q.spec_values(protocol_version) == vs,
    ensures
        vs == (
            seq![string_value(opt_cstr_view(q.active_profile)), TagValue::PropList(q.props@)]
        ),
{
}


/// The values a [`CardInfo`] is sent as, position by position, at a protocol
/// version.
#[verifier::rlimit(100)]
pub proof fn lemma_card_info_layout(q: CardInfo, vs: Seq<TagValue>, protocol_version: u16)
    requires
        q.spec_values(protocol_version) == vs,
    ensures
        vs =~= seq![
            TagValue::U32(q.index),
            TagValue::Str(q.name@),
            index_value(q.owner_module_index),
            string_value(opt_cstr_view(q.driver)),
        ] + counted_values(q.profiles@, protocol_version) + seq![string_value(opt_cstr_view(q.active_profile)), TagValue::PropList(q.props@)]
            + (if protocol_version >= 26 { counted_values(q.ports@, protocol_version) } else { Seq::empty() }),
{
}

/// The values a [`CardPortInfo`] is sent as, position by position, at a
/// protocol version.
#[verifier::rlimit(100)]
pub proof fn lemma_card_port_info_layout(q: CardPortInfo, vs: Seq<TagValue>, protocol_version: u16)
    requires
        q.spec_values(protocol_version) == vs,
    ensures
        vs =~= seq![
            TagValue::Str(q.name@),
            string_value(opt_cstr_view(q.description)),
            TagValue::U32(q.priority),
            TagValue::U32(port_available_code(q.available)),
            TagValue::U8(port_direction_code(q.dir)),
            TagValue::PropList(q.props@),
        ] + counted_values(q.profiles@, protocol_version) + (if protocol_version >= 27 { seq![TagValue::S64(q.latency_offset as i64)] } else { Seq::empty() }) + (if protocol_version >= 34 { seq![string_value(opt_cstr_view(q.availability_group)), TagValue::U32(port_type_code(q.port_type))] } else { Seq::empty() }),
{
}

} // verus!
