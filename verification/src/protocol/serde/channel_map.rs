//! The mapping of the channels of a stream to speaker positions.

use vstd::prelude::*;

use super::super::error::{IoErrorKind, ProtocolError};
use super::fields::{lemma_parse_value_len, lemma_parse_values_1, lemma_values_bytes_1};
use super::wire::{
    CHANNELS_MAX, TAG_CHANNEL_MAP, TagValue, lemma_parse_values_bytes, parse_scalar, parse_value,
    parse_values, value_bytes,
};
use super::{Tag, TagStructRead, TagStructReader, TagStructWrite, TagStructWriter, tagged_read_error};

verus! {

/// The number of channel positions.
pub const CHANNEL_POSITIONS: u8 = 51;

/// The speaker position of a channel.
#[allow(missing_docs)]
#[derive(Debug, Copy, Clone, PartialEq, Eq, Structural)]
pub enum ChannelPosition {
    /// Mono.
    Mono,
    /// Front left.
    FrontLeft,
    /// Front right.
    FrontRight,
    /// Front center.
    FrontCenter,
    /// Rear center.
    RearCenter,
    /// Rear left.
    RearLeft,
    /// Rear right.
    RearRight,
    /// Low-frequency effects.
    Lfe,
    /// Front left of center.
    FrontLeftOfCenter,
    /// Front right of center.
    FrontRightOfCenter,
    /// Side left.
    SideLeft,
    /// Side right.
    SideRight,
    /// Auxiliary channel 0.
    Aux0,
    /// Auxiliary channel 1.
    Aux1,
    /// Auxiliary channel 2.
    Aux2,
    /// Auxiliary channel 3.
    Aux3,
    /// Auxiliary channel 4.
    Aux4,
    /// Auxiliary channel 5.
    Aux5,
    /// Auxiliary channel 6.
    Aux6,
    /// Auxiliary channel 7.
    Aux7,
    /// Auxiliary channel 8.
    Aux8,
    /// Auxiliary channel 9.
    Aux9,
    /// Auxiliary channel 10.
    Aux10,
    /// Auxiliary channel 11.
    Aux11,
    /// Auxiliary channel 12.
    Aux12,
    /// Auxiliary channel 13.
    Aux13,
    /// Auxiliary channel 14.
    Aux14,
    /// Auxiliary channel 15.
    Aux15,
    /// Auxiliary channel 16.
    Aux16,
    /// Auxiliary channel 17.
    Aux17,
    /// Auxiliary channel 18.
    Aux18,
    /// Auxiliary channel 19.
    Aux19,
    /// Auxiliary channel 20.
    Aux20,
    /// Auxiliary channel 21.
    Aux21,
    /// Auxiliary channel 22.
    Aux22,
    /// Auxiliary channel 23.
    Aux23,
    /// Auxiliary channel 24.
    Aux24,
    /// Auxiliary channel 25.
    Aux25,
    /// Auxiliary channel 26.
    Aux26,
    /// Auxiliary channel 27.
    Aux27,
    /// Auxiliary channel 28.
    Aux28,
    /// Auxiliary channel 29.
    Aux29,
    /// Auxiliary channel 30.
    Aux30,
    /// Auxiliary channel 31.
    Aux31,
    /// Top center.
    TopCenter,
    /// Top front left.
    TopFrontLeft,
    /// Top front right.
    TopFrontRight,
    /// Top front center.
    TopFrontCenter,
    /// Top rear left.
    TopRearLeft,
    /// Top rear right.
    TopRearRight,
    /// Top rear center.
    TopRearCenter,
}

/// The number that stands for a channel position on the wire.
pub open spec fn position_code(p: ChannelPosition) -> u8 {
    match p {
        ChannelPosition::Mono => 0,
        ChannelPosition::FrontLeft => 1,
        ChannelPosition::FrontRight => 2,
        ChannelPosition::FrontCenter => 3,
        ChannelPosition::RearCenter => 4,
        ChannelPosition::RearLeft => 5,
        ChannelPosition::RearRight => 6,
        ChannelPosition::Lfe => 7,
        ChannelPosition::FrontLeftOfCenter => 8,
        ChannelPosition::FrontRightOfCenter => 9,
        ChannelPosition::SideLeft => 10,
        ChannelPosition::SideRight => 11,
        ChannelPosition::Aux0 => 12,
        ChannelPosition::Aux1 => 13,
        ChannelPosition::Aux2 => 14,
        ChannelPosition::Aux3 => 15,
        ChannelPosition::Aux4 => 16,
        ChannelPosition::Aux5 => 17,
        ChannelPosition::Aux6 => 18,
        ChannelPosition::Aux7 => 19,
        ChannelPosition::Aux8 => 20,
        ChannelPosition::Aux9 => 21,
        ChannelPosition::Aux10 => 22,
        ChannelPosition::Aux11 => 23,
        ChannelPosition::Aux12 => 24,
        ChannelPosition::Aux13 => 25,
        ChannelPosition::Aux14 => 26,
        ChannelPosition::Aux15 => 27,
        ChannelPosition::Aux16 => 28,
        ChannelPosition::Aux17 => 29,
        ChannelPosition::Aux18 => 30,
        ChannelPosition::Aux19 => 31,
        ChannelPosition::Aux20 => 32,
        ChannelPosition::Aux21 => 33,
        ChannelPosition::Aux22 => 34,
        ChannelPosition::Aux23 => 35,
        ChannelPosition::Aux24 => 36,
        ChannelPosition::Aux25 => 37,
        ChannelPosition::Aux26 => 38,
        ChannelPosition::Aux27 => 39,
        ChannelPosition::Aux28 => 40,
        ChannelPosition::Aux29 => 41,
        ChannelPosition::Aux30 => 42,
        ChannelPosition::Aux31 => 43,
        ChannelPosition::TopCenter => 44,
        ChannelPosition::TopFrontLeft => 45,
        ChannelPosition::TopFrontRight => 46,
        ChannelPosition::TopFrontCenter => 47,
        ChannelPosition::TopRearLeft => 48,
        ChannelPosition::TopRearRight => 49,
        ChannelPosition::TopRearCenter => 50,
    }
}

/// The channel position a number stands for, if any.
pub open spec fn position_of_code(v: u8) -> Option<ChannelPosition> {
    if v == 0 {
        Some(ChannelPosition::Mono)
    } else if v == 1 {
        Some(ChannelPosition::FrontLeft)
    } else if v == 2 {
        Some(ChannelPosition::FrontRight)
    } else if v == 3 {
        Some(ChannelPosition::FrontCenter)
    } else if v == 4 {
        Some(ChannelPosition::RearCenter)
    } else if v == 5 {
        Some(ChannelPosition::RearLeft)
    } else if v == 6 {
        Some(ChannelPosition::RearRight)
    } else if v == 7 {
        Some(ChannelPosition::Lfe)
    } else if v == 8 {
        Some(ChannelPosition::FrontLeftOfCenter)
    } else if v == 9 {
        Some(ChannelPosition::FrontRightOfCenter)
    } else if v == 10 {
        Some(ChannelPosition::SideLeft)
    } else if v == 11 {
        Some(ChannelPosition::SideRight)
    } else if v == 12 {
        Some(ChannelPosition::Aux0)
    } else if v == 13 {
        Some(ChannelPosition::Aux1)
    } else if v == 14 {
        Some(ChannelPosition::Aux2)
    } else if v == 15 {
        Some(ChannelPosition::Aux3)
    } else if v == 16 {
        Some(ChannelPosition::Aux4)
    } else if v == 17 {
        Some(ChannelPosition::Aux5)
    } else if v == 18 {
        Some(ChannelPosition::Aux6)
    } else if v == 19 {
        Some(ChannelPosition::Aux7)
    } else if v == 20 {
        Some(ChannelPosition::Aux8)
    } else if v == 21 {
        Some(ChannelPosition::Aux9)
    } else if v == 22 {
        Some(ChannelPosition::Aux10)
    } else if v == 23 {
        Some(ChannelPosition::Aux11)
    } else if v == 24 {
        Some(ChannelPosition::Aux12)
    } else if v == 25 {
        Some(ChannelPosition::Aux13)
    } else if v == 26 {
        Some(ChannelPosition::Aux14)
    } else if v == 27 {
        Some(ChannelPosition::Aux15)
    } else if v == 28 {
        Some(ChannelPosition::Aux16)
    } else if v == 29 {
        Some(ChannelPosition::Aux17)
    } else if v == 30 {
        Some(ChannelPosition::Aux18)
    } else if v == 31 {
        Some(ChannelPosition::Aux19)
    } else if v == 32 {
        Some(ChannelPosition::Aux20)
    } else if v == 33 {
        Some(ChannelPosition::Aux21)
    } else if v == 34 {
        Some(ChannelPosition::Aux22)
    } else if v == 35 {
        Some(ChannelPosition::Aux23)
    } else if v == 36 {
        Some(ChannelPosition::Aux24)
    } else if v == 37 {
        Some(ChannelPosition::Aux25)
    } else if v == 38 {
        Some(ChannelPosition::Aux26)
    } else if v == 39 {
        Some(ChannelPosition::Aux27)
    } else if v == 40 {
        Some(ChannelPosition::Aux28)
    } else if v == 41 {
        Some(ChannelPosition::Aux29)
    } else if v == 42 {
        Some(ChannelPosition::Aux30)
    } else if v == 43 {
        Some(ChannelPosition::Aux31)
    } else if v == 44 {
        Some(ChannelPosition::TopCenter)
    } else if v == 45 {
        Some(ChannelPosition::TopFrontLeft)
    } else if v == 46 {
        Some(ChannelPosition::TopFrontRight)
    } else if v == 47 {
        Some(ChannelPosition::TopFrontCenter)
    } else if v == 48 {
        Some(ChannelPosition::TopRearLeft)
    } else if v == 49 {
        Some(ChannelPosition::TopRearRight)
    } else if v == 50 {
        Some(ChannelPosition::TopRearCenter)
    } else {
        None
    }
}

/// Each position's number stands for that position, and the numbers below
/// [`CHANNEL_POSITIONS`] are those of positions.
pub proof fn lemma_position_roundtrip(p: ChannelPosition, v: u8)
    ensures
        position_of_code(position_code(p)) == Some(p),
        position_code(p) < CHANNEL_POSITIONS,
        position_of_code(v) is Some <==> v < CHANNEL_POSITIONS,
{
}

/// The numbers of a channel map all stand for positions.
pub proof fn lemma_channel_map_valid(m: ChannelMap)
    ensures
        positions_valid(m@),
{
    assert forall|i: int| 0 <= i < m@.len() implies #[trigger] m@[i] < CHANNEL_POSITIONS by {
        lemma_position_roundtrip(m.positions@[i], 0);
    }
}

impl ChannelPosition {
    /// The number that stands for the position on the wire.
    pub fn to_u8(self) -> (r: u8)
        ensures
            r == position_code(self),
    {
        match self {
            ChannelPosition::Mono => 0,
            ChannelPosition::FrontLeft => 1,
            ChannelPosition::FrontRight => 2,
            ChannelPosition::FrontCenter => 3,
            ChannelPosition::RearCenter => 4,
            ChannelPosition::RearLeft => 5,
            ChannelPosition::RearRight => 6,
            ChannelPosition::Lfe => 7,
            ChannelPosition::FrontLeftOfCenter => 8,
            ChannelPosition::FrontRightOfCenter => 9,
            ChannelPosition::SideLeft => 10,
            ChannelPosition::SideRight => 11,
            ChannelPosition::Aux0 => 12,
            ChannelPosition::Aux1 => 13,
            ChannelPosition::Aux2 => 14,
            ChannelPosition::Aux3 => 15,
            ChannelPosition::Aux4 => 16,
            ChannelPosition::Aux5 => 17,
            ChannelPosition::Aux6 => 18,
            ChannelPosition::Aux7 => 19,
            ChannelPosition::Aux8 => 20,
            ChannelPosition::Aux9 => 21,
            ChannelPosition::Aux10 => 22,
            ChannelPosition::Aux11 => 23,
            ChannelPosition::Aux12 => 24,
            ChannelPosition::Aux13 => 25,
            ChannelPosition::Aux14 => 26,
            ChannelPosition::Aux15 => 27,
            ChannelPosition::Aux16 => 28,
            ChannelPosition::Aux17 => 29,
            ChannelPosition::Aux18 => 30,
            ChannelPosition::Aux19 => 31,
            ChannelPosition::Aux20 => 32,
            ChannelPosition::Aux21 => 33,
            ChannelPosition::Aux22 => 34,
            ChannelPosition::Aux23 => 35,
            ChannelPosition::Aux24 => 36,
            ChannelPosition::Aux25 => 37,
            ChannelPosition::Aux26 => 38,
            ChannelPosition::Aux27 => 39,
            ChannelPosition::Aux28 => 40,
            ChannelPosition::Aux29 => 41,
            ChannelPosition::Aux30 => 42,
            ChannelPosition::Aux31 => 43,
            ChannelPosition::TopCenter => 44,
            ChannelPosition::TopFrontLeft => 45,
            ChannelPosition::TopFrontRight => 46,
            ChannelPosition::TopFrontCenter => 47,
            ChannelPosition::TopRearLeft => 48,
            ChannelPosition::TopRearRight => 49,
            ChannelPosition::TopRearCenter => 50,
        }
    }

    /// The position a number stands for, or `None` for a number that stands
    /// for no position.
    pub fn from_u8(v: u8) -> (r: Option<ChannelPosition>)
        ensures
            r == position_of_code(v),
    {
        if v == 0 {
            Some(ChannelPosition::Mono)
        } else if v == 1 {
            Some(ChannelPosition::FrontLeft)
        } else if v == 2 {
            Some(ChannelPosition::FrontRight)
        } else if v == 3 {
            Some(ChannelPosition::FrontCenter)
        } else if v == 4 {
            Some(ChannelPosition::RearCenter)
        } else if v == 5 {
            Some(ChannelPosition::RearLeft)
        } else if v == 6 {
            Some(ChannelPosition::RearRight)
        } else if v == 7 {
            Some(ChannelPosition::Lfe)
        } else if v == 8 {
            Some(ChannelPosition::FrontLeftOfCenter)
        } else if v == 9 {
            Some(ChannelPosition::FrontRightOfCenter)
        } else if v == 10 {
            Some(ChannelPosition::SideLeft)
        } else if v == 11 {
            Some(ChannelPosition::SideRight)
        } else if v == 12 {
            Some(ChannelPosition::Aux0)
        } else if v == 13 {
            Some(ChannelPosition::Aux1)
        } else if v == 14 {
            Some(ChannelPosition::Aux2)
        } else if v == 15 {
            Some(ChannelPosition::Aux3)
        } else if v == 16 {
            Some(ChannelPosition::Aux4)
        } else if v == 17 {
            Some(ChannelPosition::Aux5)
        } else if v == 18 {
            Some(ChannelPosition::Aux6)
        } else if v == 19 {
            Some(ChannelPosition::Aux7)
        } else if v == 20 {
            Some(ChannelPosition::Aux8)
        } else if v == 21 {
            Some(ChannelPosition::Aux9)
        } else if v == 22 {
            Some(ChannelPosition::Aux10)
        } else if v == 23 {
            Some(ChannelPosition::Aux11)
        } else if v == 24 {
            Some(ChannelPosition::Aux12)
        } else if v == 25 {
            Some(ChannelPosition::Aux13)
        } else if v == 26 {
            Some(ChannelPosition::Aux14)
        } else if v == 27 {
            Some(ChannelPosition::Aux15)
        } else if v == 28 {
            Some(ChannelPosition::Aux16)
        } else if v == 29 {
            Some(ChannelPosition::Aux17)
        } else if v == 30 {
            Some(ChannelPosition::Aux18)
        } else if v == 31 {
            Some(ChannelPosition::Aux19)
        } else if v == 32 {
            Some(ChannelPosition::Aux20)
        } else if v == 33 {
            Some(ChannelPosition::Aux21)
        } else if v == 34 {
            Some(ChannelPosition::Aux22)
        } else if v == 35 {
            Some(ChannelPosition::Aux23)
        } else if v == 36 {
            Some(ChannelPosition::Aux24)
        } else if v == 37 {
            Some(ChannelPosition::Aux25)
        } else if v == 38 {
            Some(ChannelPosition::Aux26)
        } else if v == 39 {
            Some(ChannelPosition::Aux27)
        } else if v == 40 {
            Some(ChannelPosition::Aux28)
        } else if v == 41 {
            Some(ChannelPosition::Aux29)
        } else if v == 42 {
            Some(ChannelPosition::Aux30)
        } else if v == 43 {
            Some(ChannelPosition::Aux31)
        } else if v == 44 {
            Some(ChannelPosition::TopCenter)
        } else if v == 45 {
            Some(ChannelPosition::TopFrontLeft)
        } else if v == 46 {
            Some(ChannelPosition::TopFrontRight)
        } else if v == 47 {
            Some(ChannelPosition::TopFrontCenter)
        } else if v == 48 {
            Some(ChannelPosition::TopRearLeft)
        } else if v == 49 {
            Some(ChannelPosition::TopRearRight)
        } else if v == 50 {
            Some(ChannelPosition::TopRearCenter)
        } else {
            None
        }
    }
}

/// The speaker positions of the channels of a stream, at most
/// [`CHANNELS_MAX`] of them.
#[derive(Debug, PartialEq, Eq)]
pub struct ChannelMap {
    positions: Vec<ChannelPosition>,
}

/// The position numbers of a sequence of positions.
pub open spec fn position_codes(ps: Seq<ChannelPosition>) -> Seq<u8> {
    ps.map_values(|p: ChannelPosition| position_code(p))
}

/// Whether every number of a channel map stands for a position.
pub open spec fn positions_valid(codes: Seq<u8>) -> bool {
    forall|i: int| 0 <= i < codes.len() ==> #[trigger] codes[i] < CHANNEL_POSITIONS
}

impl View for ChannelMap {
    type V = Seq<u8>;

    closed spec fn view(&self) -> Seq<u8> {
        position_codes(self.positions@)
    }
}

impl Clone for ChannelMap {
    fn clone(&self) -> (r: Self)
        ensures
            r@ == self@,
    {
        proof {
            use_type_invariant(self);
        }
        let mut positions: Vec<ChannelPosition> = Vec::new();
        let mut i: usize = 0;
        while i < self.positions.len()
            invariant
                i <= self.positions@.len() <= CHANNELS_MAX,
                positions@ == self.positions@.take(i as int),
            decreases self.positions@.len() - i,
        {
            positions.push(self.positions[i]);
            i = i + 1;
            assert(positions@ =~= self.positions@.take(i as int));
        }
        assert(self.positions@.take(i as int) =~= self.positions@);
        ChannelMap { positions }
    }
}

impl ChannelMap {
    #[verifier::type_invariant]
    spec fn inv(self) -> bool {
        self.positions@.len() <= CHANNELS_MAX
    }

    /// A map of no channels.
    pub fn new() -> (r: ChannelMap)
        ensures
            r@ == Seq::<u8>::empty(),
    {
        let r = ChannelMap { positions: Vec::new() };
        assert(r@ =~= Seq::<u8>::empty());
        r
    }

    /// The map of a single mono channel.
    pub fn mono() -> (r: ChannelMap)
        ensures
            r@ == seq![0u8],
    {
        let mut r = ChannelMap::new();
        r.push(ChannelPosition::Mono);
        r
    }

    /// The map of a stereo stream: front left, then front right.
    pub fn stereo() -> (r: ChannelMap)
        ensures
            r@ == seq![1u8, 2u8],
    {
        let mut r = ChannelMap::new();
        r.push(ChannelPosition::FrontLeft);
        r.push(ChannelPosition::FrontRight);
        r
    }

    /// Adds a channel at the given position. Fails, changing nothing, when
    /// every channel is taken.
    pub fn push(&mut self, position: ChannelPosition) -> (r: bool)
        ensures
            r == (old(self)@.len() < CHANNELS_MAX),
            r ==> final(self)@ == old(self)@.push(position_code(position)),
            !r ==> final(self)@ == old(self)@,
    {
        proof {
            use_type_invariant(&*self);
        }
        if self.positions.len() < CHANNELS_MAX as usize {
            let mut positions: Vec<ChannelPosition> = Vec::new();
            std::mem::swap(&mut positions, &mut self.positions);
            let ghost before = positions@;
            positions.push(position);
            assert(position_codes(positions@) =~= position_codes(before).push(position_code(position)));
            self.positions = positions;
            true
        } else {
            false
        }
    }

    /// The number of channels.
    pub fn len(&self) -> (r: u8)
        ensures
            r == self@.len(),
            r <= CHANNELS_MAX,
    {
        proof {
            use_type_invariant(self);
        }
        self.positions.len() as u8
    }

    /// The position of channel `i`.
    pub fn get(&self, i: u8) -> (r: Option<ChannelPosition>)
        ensures
            r is Some <==> i < self@.len(),
            r matches Some(p) ==> position_code(p) == self@[i as int],
    {
        if (i as usize) < self.positions.len() {
            Some(self.positions[i as usize])
        } else {
            None
        }
    }
}

impl<'a> TagStructReader<'a> {
    /// Reads a channel map. A number that stands for no position is refused.
    pub fn read_channel_map(&mut self) -> (r: Result<ChannelMap, ProtocolError>)
        ensures
            final(self).version() == old(self).version(),
            match parse_value(old(self).rest()) {
                Some((TagValue::ChannelMap(codes), n)) => if positions_valid(codes) {
                    (r matches Ok(m) && m@ == codes) && final(self).rest() == old(self).rest().skip(n)
                } else {
                    r matches Err(e) && e.is_invalid()
                },
                _ => r is Err,
            },
    {
        let ghost s = self.rest();
        proof {
            reveal(parse_scalar);
        }
        self.expect_tag(Tag::ChannelMap)?;
        let n = match self.take_byte() {
            Some(n) => n,
            None => {
                return Err(ProtocolError::Io(IoErrorKind::UnexpectedEof));
            },
        };
        if n > CHANNELS_MAX {
            return Err(ProtocolError::Invalid("too many channels in channel map".to_owned()));
        }
        assert(parse_value(s) is Some ==> parse_value(s) == Some(
            (TagValue::ChannelMap(s.subrange(2, 2 + n as int)), 2 + n as int),
        ));
        let mut positions: Vec<ChannelPosition> = Vec::new();
        let mut i: u8 = 0;
        while i < n
            invariant
                s == old(self).rest(),
                parse_value(s) is Some ==> parse_value(s) == Some(
                    (TagValue::ChannelMap(s.subrange(2, 2 + n as int)), 2 + n as int),
                ),
                parse_value(s) is Some ==> s.len() >= 2 + n,
                i <= n,
                n <= CHANNELS_MAX,
                s.len() >= 2,
                s[0] == TAG_CHANNEL_MAP,
                s[1] == n,
                self.version() == old(self).version(),
                self.rest().len() == s.len() - 2 - i,
                self.rest() == s.skip(2 + i),
                positions@.len() == i,
                forall|j: int| 0 <= j < i ==> position_code(#[trigger] positions@[j]) == s[2 + j],
                forall|j: int| 2 <= j < 2 + i ==> #[trigger] s[j] < CHANNEL_POSITIONS,
            decreases n - i,
        {
            let ghost r0 = self.rest();
            let b = match self.take_byte() {
                Some(b) => b,
                None => {
                    return Err(ProtocolError::Io(IoErrorKind::UnexpectedEof));
                },
            };
            assert(b == s[2 + i]);
            assert(r0.skip(1) =~= s.skip(2 + i + 1));
            match ChannelPosition::from_u8(b) {
                Some(p) => {
                    proof {
                        lemma_position_roundtrip(p, b);
                    }
                    positions.push(p);
                },
                None => {
                    proof {
                        lemma_position_roundtrip(ChannelPosition::Mono, b);
                        if parse_value(s) is Some {
                            assert(s.subrange(2, 2 + n as int)[i as int] == b);
                        }
                    }
                    return Err(ProtocolError::Invalid("invalid channel position".to_owned()));
                },
            }
            i = i + 1;
        }
        let m = ChannelMap { positions };
        assert(m@ =~= s.subrange(2, 2 + n as int));
        Ok(m)
    }
}

impl TagStructWriter {
    /// Writes a channel map.
    pub fn write_channel_map(&mut self, map: &ChannelMap) -> (r: Result<(), ProtocolError>)
        ensures
            r == Ok::<(), ProtocolError>(()),
            final(self).bytes() == old(self).bytes() + value_bytes(TagValue::ChannelMap(map@)),
            final(self).version() == old(self).version(),
    {
        proof {
            use_type_invariant(map);
        }
        let n = map.positions.len();
        self.push_byte(TAG_CHANNEL_MAP);
        self.push_byte(n as u8);
        let mut i: usize = 0;
        while i < n
            invariant
                i <= n,
                n == map.positions@.len(),
                n <= CHANNELS_MAX,
                self.version() == old(self).version(),
                self.bytes() == old(self).bytes() + seq![TAG_CHANNEL_MAP, n as u8] + map@.take(i as int),
            decreases n - i,
        {
            self.push_byte(map.positions[i].to_u8());
            assert(map@.take(i as int).push(position_code(map.positions@[i as int])) =~= map@.take(i + 1));
            i = i + 1;
        }
        assert(map@.take(n as int) =~= map@);
        assert(self.bytes() =~= old(self).bytes() + value_bytes(TagValue::ChannelMap(map@)));
        Ok(())
    }
}

impl TagStructWrite for ChannelMap {
    open spec fn spec_values(&self, protocol_version: u16) -> Seq<TagValue> {
        seq![TagValue::ChannelMap(self@)]
    }

    open spec fn spec_writable(&self) -> bool {
        true
    }

    fn write(&self, w: &mut TagStructWriter, _protocol_version: u16) -> (r: Result<(), ProtocolError>) {
        w.write_channel_map(self)?;
        proof {
            lemma_values_bytes_1(TagValue::ChannelMap(self@));
        }
        Ok(())
    }
}

impl TagStructRead for ChannelMap {
    open spec fn spec_parse(s: Seq<u8>, protocol_version: u16) -> Option<(Seq<TagValue>, int)> {
        match parse_values(s, 1) {
            Some((vs, n)) => match vs[0] {
                TagValue::ChannelMap(codes) => if positions_valid(codes) {
                    Some((vs, n))
                } else {
                    None
                },
                _ => None,
            },
            None => None,
        }
    }

    open spec fn spec_canonical(&self, protocol_version: u16) -> bool {
        true
    }

    open spec fn spec_encodable(&self, protocol_version: u16) -> bool {
        self@.len() <= CHANNELS_MAX
    }

    fn read(ts: &mut TagStructReader, _protocol_version: u16) -> (r: Result<Self, ProtocolError>) {
        proof {
            lemma_parse_values_1(ts.rest());
            lemma_parse_value_len(ts.rest());
        }
        let m = ts.read_channel_map()?;
        Ok(m)
    }

    proof fn lemma_roundtrip(&self, protocol_version: u16, rest: Seq<u8>) {
            assert forall|i: int| 0 <= i < self@.len() implies #[trigger] self@[i] < CHANNEL_POSITIONS by {
            lemma_position_roundtrip(self.positions@[i], 0);
        }
        lemma_parse_values_bytes(self.spec_values(protocol_version), rest);
    }
}


/// The numbers that stand for the channel positions on the wire, as the PulseAudio protocol
/// assigns them, in both directions.
#[verifier::rlimit(100)]
pub proof fn lemma_position_table()
    ensures
        position_code(ChannelPosition::Mono) == 0,
        position_code(ChannelPosition::FrontLeft) == 1,
        position_code(ChannelPosition::FrontRight) == 2,
        position_code(ChannelPosition::FrontCenter) == 3,
        position_code(ChannelPosition::RearCenter) == 4,
        position_code(ChannelPosition::RearLeft) == 5,
        position_code(ChannelPosition::RearRight) == 6,
        position_code(ChannelPosition::Lfe) == 7,
        position_code(ChannelPosition::FrontLeftOfCenter) == 8,
        position_code(ChannelPosition::FrontRightOfCenter) == 9,
        position_code(ChannelPosition::SideLeft) == 10,
        position_code(ChannelPosition::SideRight) == 11,
        position_code(ChannelPosition::Aux0) == 12,
        position_code(ChannelPosition::Aux1) == 13,
        position_code(ChannelPosition::Aux2) == 14,
        position_code(ChannelPosition::Aux3) == 15,
        position_code(ChannelPosition::Aux4) == 16,
        position_code(ChannelPosition::Aux5) == 17,
        position_code(ChannelPosition::Aux6) == 18,
        position_code(ChannelPosition::Aux7) == 19,
        position_code(ChannelPosition::Aux8) == 20,
        position_code(ChannelPosition::Aux9) == 21,
        position_code(ChannelPosition::Aux10) == 22,
        position_code(ChannelPosition::Aux11) == 23,
        position_code(ChannelPosition::Aux12) == 24,
        position_code(ChannelPosition::Aux13) == 25,
        position_code(ChannelPosition::Aux14) == 26,
        position_code(ChannelPosition::Aux15) == 27,
        position_code(ChannelPosition::Aux16) == 28,
        position_code(ChannelPosition::Aux17) == 29,
        position_code(ChannelPosition::Aux18) == 30,
        position_code(ChannelPosition::Aux19) == 31,
        position_code(ChannelPosition::Aux20) == 32,
        position_code(ChannelPosition::Aux21) == 33,
        position_code(ChannelPosition::Aux22) == 34,
        position_code(ChannelPosition::Aux23) == 35,
        position_code(ChannelPosition::Aux24) == 36,
        position_code(ChannelPosition::Aux25) == 37,
        position_code(ChannelPosition::Aux26) == 38,
        position_code(ChannelPosition::Aux27) == 39,
        position_code(ChannelPosition::Aux28) == 40,
        position_code(ChannelPosition::Aux29) == 41,
        position_code(ChannelPosition::Aux30) == 42,
        position_code(ChannelPosition::Aux31) == 43,
        position_code(ChannelPosition::TopCenter) == 44,
        position_code(ChannelPosition::TopFrontLeft) == 45,
        position_code(ChannelPosition::TopFrontRight) == 46,
        position_code(ChannelPosition::TopFrontCenter) == 47,
        position_code(ChannelPosition::TopRearLeft) == 48,
        position_code(ChannelPosition::TopRearRight) == 49,
        position_code(ChannelPosition::TopRearCenter) == 50,
        position_of_code(0) == Some(ChannelPosition::Mono),
        position_of_code(1) == Some(ChannelPosition::FrontLeft),
        position_of_code(2) == Some(ChannelPosition::FrontRight),
        position_of_code(3) == Some(ChannelPosition::FrontCenter),
        position_of_code(4) == Some(ChannelPosition::RearCenter),
        position_of_code(5) == Some(ChannelPosition::RearLeft),
        position_of_code(6) == Some(ChannelPosition::RearRight),
        position_of_code(7) == Some(ChannelPosition::Lfe),
        position_of_code(8) == Some(ChannelPosition::FrontLeftOfCenter),
        position_of_code(9) == Some(ChannelPosition::FrontRightOfCenter),
        position_of_code(10) == Some(ChannelPosition::SideLeft),
        position_of_code(11) == Some(ChannelPosition::SideRight),
        position_of_code(12) == Some(ChannelPosition::Aux0),
        position_of_code(13) == Some(ChannelPosition::Aux1),
        position_of_code(14) == Some(ChannelPosition::Aux2),
        position_of_code(15) == Some(ChannelPosition::Aux3),
        position_of_code(16) == Some(ChannelPosition::Aux4),
        position_of_code(17) == Some(ChannelPosition::Aux5),
        position_of_code(18) == Some(ChannelPosition::Aux6),
        position_of_code(19) == Some(ChannelPosition::Aux7),
        position_of_code(20) == Some(ChannelPosition::Aux8),
        position_of_code(21) == Some(ChannelPosition::Aux9),
        position_of_code(22) == Some(ChannelPosition::Aux10),
        position_of_code(23) == Some(ChannelPosition::Aux11),
        position_of_code(24) == Some(ChannelPosition::Aux12),
        position_of_code(25) == Some(ChannelPosition::Aux13),
        position_of_code(26) == Some(ChannelPosition::Aux14),
        position_of_code(27) == Some(ChannelPosition::Aux15),
        position_of_code(28) == Some(ChannelPosition::Aux16),
        position_of_code(29) == Some(ChannelPosition::Aux17),
        position_of_code(30) == Some(ChannelPosition::Aux18),
        position_of_code(31) == Some(ChannelPosition::Aux19),
        position_of_code(32) == Some(ChannelPosition::Aux20),
        position_of_code(33) == Some(ChannelPosition::Aux21),
        position_of_code(34) == Some(ChannelPosition::Aux22),
        position_of_code(35) == Some(ChannelPosition::Aux23),
        position_of_code(36) == Some(ChannelPosition::Aux24),
        position_of_code(37) == Some(ChannelPosition::Aux25),
        position_of_code(38) == Some(ChannelPosition::Aux26),
        position_of_code(39) == Some(ChannelPosition::Aux27),
        position_of_code(40) == Some(ChannelPosition::Aux28),
        position_of_code(41) == Some(ChannelPosition::Aux29),
        position_of_code(42) == Some(ChannelPosition::Aux30),
        position_of_code(43) == Some(ChannelPosition::Aux31),
        position_of_code(44) == Some(ChannelPosition::TopCenter),
        position_of_code(45) == Some(ChannelPosition::TopFrontLeft),
        position_of_code(46) == Some(ChannelPosition::TopFrontRight),
        position_of_code(47) == Some(ChannelPosition::TopFrontCenter),
        position_of_code(48) == Some(ChannelPosition::TopRearLeft),
        position_of_code(49) == Some(ChannelPosition::TopRearRight),
        position_of_code(50) == Some(ChannelPosition::TopRearCenter),
{
}


/// The values a [`ChannelMap`] is sent as, position by position: whatever a read
/// gives from the values `vs` holds each field from its own position.
pub proof fn lemma_channel_map_layout(q: ChannelMap, vs: Seq<TagValue>, protocol_version: u16)
    requires
        q.spec_values(protocol_version) == vs,
    ensures
        vs == (
            seq![TagValue::ChannelMap(q@)]
        ),
{
}

} // verus!
