//! Provides helpers for converting IPC types to and from raw byte streams.
//!
//! A tagstruct is a sequence of values, each preceded by a one-byte tag that
//! says how the value is laid out. Integers are big-endian. The model of
//! the format is in [`wire`]; the reader and writer here are proved to
//! follow it.

pub mod wire;
pub mod fields;
pub mod cstr;
pub mod props;
pub mod volume;
pub mod list;
pub mod counted;
pub mod sample_spec;
pub mod channel_map;
pub mod format_info;
pub mod port_info;

use vstd::prelude::*;

use super::error::{IoErrorKind, ProtocolError};
use cstr::CString;
use wire::{
    TAG_ARBITRARY, TAG_BOOLEAN_FALSE, TAG_BOOLEAN_TRUE, TAG_CHANNEL_MAP, TAG_CVOLUME,
    TAG_FORMAT_INFO, TAG_PROPLIST, TAG_S64, TAG_SAMPLE_SPEC, TAG_STRING, TAG_STRING_NULL,
    TAG_TIMEVAL, TAG_U32, TAG_U64, TAG_U8, TAG_USEC, TAG_VOLUME, TagValue, be_u32_at, be_u64_at, lemma_first_nul_unique,
    first_nul_from, has_nul_from, is_first_nul, MICROS_PER_SEC, timeval_bytes, no_nul, parse_scalar, parse_value, u32_be, u64_be, value_bytes,
    values_bytes, };

verus! {

/// A tag preceding a value in a tagstruct.
#[allow(missing_docs)]
#[derive(Debug, Copy, Clone, Eq, PartialEq, Structural)]
pub enum Tag {
    String,
    StringNull,
    U32,
    U8,
    U64,
    S64,
    SampleSpec,
    Arbitrary,
    BooleanTrue,
    BooleanFalse,
    TimeVal,
    Usec,
    ChannelMap,
    CVolume,
    PropList,
    Volume,
    FormatInfo,
}

/// The byte that stands for a tag on the wire.
pub open spec fn tag_byte(t: Tag) -> u8 {
    match t {
        Tag::String => TAG_STRING,
        Tag::StringNull => TAG_STRING_NULL,
        Tag::U32 => TAG_U32,
        Tag::U8 => TAG_U8,
        Tag::U64 => TAG_U64,
        Tag::S64 => TAG_S64,
        Tag::SampleSpec => TAG_SAMPLE_SPEC,
        Tag::Arbitrary => TAG_ARBITRARY,
        Tag::BooleanTrue => TAG_BOOLEAN_TRUE,
        Tag::BooleanFalse => TAG_BOOLEAN_FALSE,
        Tag::TimeVal => TAG_TIMEVAL,
        Tag::Usec => TAG_USEC,
        Tag::ChannelMap => TAG_CHANNEL_MAP,
        Tag::CVolume => TAG_CVOLUME,
        Tag::PropList => TAG_PROPLIST,
        Tag::Volume => TAG_VOLUME,
        Tag::FormatInfo => TAG_FORMAT_INFO,
    }
}

/// The tag a byte stands for, if any.
pub open spec fn tag_of_byte(b: u8) -> Option<Tag> {
    if b == TAG_STRING {
        Some(Tag::String)
    } else if b == TAG_STRING_NULL {
        Some(Tag::StringNull)
    } else if b == TAG_U32 {
        Some(Tag::U32)
    } else if b == TAG_U8 {
        Some(Tag::U8)
    } else if b == TAG_U64 {
        Some(Tag::U64)
    } else if b == TAG_S64 {
        Some(Tag::S64)
    } else if b == TAG_SAMPLE_SPEC {
        Some(Tag::SampleSpec)
    } else if b == TAG_ARBITRARY {
        Some(Tag::Arbitrary)
    } else if b == TAG_BOOLEAN_TRUE {
        Some(Tag::BooleanTrue)
    } else if b == TAG_BOOLEAN_FALSE {
        Some(Tag::BooleanFalse)
    } else if b == TAG_TIMEVAL {
        Some(Tag::TimeVal)
    } else if b == TAG_USEC {
        Some(Tag::Usec)
    } else if b == TAG_CHANNEL_MAP {
        Some(Tag::ChannelMap)
    } else if b == TAG_CVOLUME {
        Some(Tag::CVolume)
    } else if b == TAG_PROPLIST {
        Some(Tag::PropList)
    } else if b == TAG_VOLUME {
        Some(Tag::Volume)
    } else if b == TAG_FORMAT_INFO {
        Some(Tag::FormatInfo)
    } else {
        None
    }
}

impl Tag {
    /// The byte that stands for the tag on the wire.
    pub fn to_u8(self) -> (r: u8)
        ensures
            r == tag_byte(self),
    {
        match self {
            Tag::String => TAG_STRING,
            Tag::StringNull => TAG_STRING_NULL,
            Tag::U32 => TAG_U32,
            Tag::U8 => TAG_U8,
            Tag::U64 => TAG_U64,
            Tag::S64 => TAG_S64,
            Tag::SampleSpec => TAG_SAMPLE_SPEC,
            Tag::Arbitrary => TAG_ARBITRARY,
            Tag::BooleanTrue => TAG_BOOLEAN_TRUE,
            Tag::BooleanFalse => TAG_BOOLEAN_FALSE,
            Tag::TimeVal => TAG_TIMEVAL,
            Tag::Usec => TAG_USEC,
            Tag::ChannelMap => TAG_CHANNEL_MAP,
            Tag::CVolume => TAG_CVOLUME,
            Tag::PropList => TAG_PROPLIST,
            Tag::Volume => TAG_VOLUME,
            Tag::FormatInfo => TAG_FORMAT_INFO,
        }
    }

    /// The tag a byte stands for, or `None` for a byte that is no tag.
    pub fn from_u8(b: u8) -> (r: Option<Tag>)
        ensures
            r == tag_of_byte(b),
    {
        if b == TAG_STRING {
            Some(Tag::String)
        } else if b == TAG_STRING_NULL {
            Some(Tag::StringNull)
        } else if b == TAG_U32 {
            Some(Tag::U32)
        } else if b == TAG_U8 {
            Some(Tag::U8)
        } else if b == TAG_U64 {
            Some(Tag::U64)
        } else if b == TAG_S64 {
            Some(Tag::S64)
        } else if b == TAG_SAMPLE_SPEC {
            Some(Tag::SampleSpec)
        } else if b == TAG_ARBITRARY {
            Some(Tag::Arbitrary)
        } else if b == TAG_BOOLEAN_TRUE {
            Some(Tag::BooleanTrue)
        } else if b == TAG_BOOLEAN_FALSE {
            Some(Tag::BooleanFalse)
        } else if b == TAG_TIMEVAL {
            Some(Tag::TimeVal)
        } else if b == TAG_USEC {
            Some(Tag::Usec)
        } else if b == TAG_CHANNEL_MAP {
            Some(Tag::ChannelMap)
        } else if b == TAG_CVOLUME {
            Some(Tag::CVolume)
        } else if b == TAG_PROPLIST {
            Some(Tag::PropList)
        } else if b == TAG_VOLUME {
            Some(Tag::Volume)
        } else if b == TAG_FORMAT_INFO {
            Some(Tag::FormatInfo)
        } else {
            None
        }
    }
}

/// Every tag is read back from its own byte.
pub proof fn lemma_tag_byte_roundtrip(t: Tag)
    ensures
        tag_of_byte(tag_byte(t)) == Some(t),
{
}

/// A point in time with microsecond precision, counted from the Unix epoch.
#[derive(Debug, Clone, Copy, PartialEq, Eq)]
pub struct Timestamp {
    /// Microseconds since the Unix epoch.
    pub micros: u64,
}

/// The timeval sent for a point in time.
pub open spec fn timestamp_timeval(t: Timestamp) -> TagValue {
    TagValue::TimeVal(t.micros)
}

impl Timestamp {
    /// The Unix epoch itself.
    pub fn unix_epoch() -> (r: Timestamp)
        ensures
            r.micros == 0,
    {
        Timestamp { micros: 0 }
    }

    /// A point in time `secs` seconds and `nanos` nanoseconds after the
    /// epoch, truncated to whole microseconds.
    pub fn from_secs_nanos(secs: u64, nanos: u32) -> (r: Option<Timestamp>)
        ensures
            r is Some <==> secs * MICROS_PER_SEC + nanos / 1000 <= u64::MAX,
            r matches Some(t) ==> t.micros == secs * MICROS_PER_SEC + nanos / 1000,
    {
        let sub = (nanos / 1000) as u64;
        match secs.checked_mul(MICROS_PER_SEC) {
            Some(m) => match m.checked_add(sub) {
                Some(micros) => Some(Timestamp { micros }),
                None => None,
            },
            None => None,
        }
    }
}

/// Whether `e` is the error a reader gives for `s` when it expects a value
/// with the tag byte `tag` and does not find a whole one: an unexpected end
/// when the input ends before the tag or, after the right tag, before the
/// value ends; a malformed message when another byte stands in the tag's
/// place.
pub open spec fn tagged_read_error(s: Seq<u8>, tag: u8, e: ProtocolError) -> bool {
    if s.len() == 0 || s[0] == tag {
        e.is_eof()
    } else {
        e.is_invalid()
    }
}

/// A streaming reader for tagstruct-encoded data, over a byte buffer.
pub struct TagStructReader<'a> {
    inner: &'a [u8],
    pos: usize,
    protocol_version: u16,
}

impl<'a> TagStructReader<'a> {
    #[verifier::type_invariant]
    spec fn inv(self) -> bool {
        self.pos <= self.inner@.len()
    }

    /// The bytes that are left to read.
    pub closed spec fn rest(self) -> Seq<u8> {
        self.inner@.subrange(self.pos as int, self.inner@.len() as int)
    }

    /// The protocol version that values are read for.
    pub closed spec fn version(self) -> u16 {
        self.protocol_version
    }

    /// Creates a tagstruct reader over a buffer.
    pub fn new(inner: &'a [u8], protocol_version: u16) -> (r: Self)
        ensures
            r.rest() == inner@,
            r.version() == protocol_version,
    {
        let r = TagStructReader { inner, pos: 0, protocol_version };
        assert(r.rest() =~= inner@);
        r
    }

    /// The protocol version that values are read for.
    pub fn protocol_version(&self) -> (r: u16)
        ensures
            r == self.version(),
    {
        self.protocol_version
    }

    /// Takes the next byte, if there is one.
    pub(crate) fn take_byte(&mut self) -> (r: Option<u8>)
        ensures
            final(self).version() == old(self).version(),
            old(self).rest().len() == 0 ==> r is None && final(self).rest() == old(self).rest(),
            old(self).rest().len() > 0 ==> r == Some(old(self).rest()[0]) && final(self).rest()
                == old(self).rest().skip(1),
    {
        proof {
            use_type_invariant(&*self);
        }
        if self.pos < self.inner.len() {
            let b = self.inner[self.pos];
            self.pos = self.pos + 1;
            assert(self.rest() =~= old(self).rest().skip(1));
            Some(b)
        } else {
            None
        }
    }

    /// Takes the next four bytes as a big-endian `u32`, if there are four.
    pub(crate) fn take_u32(&mut self) -> (r: Option<u32>)
        ensures
            final(self).version() == old(self).version(),
            old(self).rest().len() < 4 ==> r is None,
            old(self).rest().len() >= 4 ==> r == Some(be_u32_at(old(self).rest(), 0))
                && final(self).rest() == old(self).rest().skip(4),
    {
        proof {
            use_type_invariant(&*self);
        }
        if self.inner.len() - self.pos >= 4 {
            let p = self.pos;
            let v = ((self.inner[p] as u32) << 24u32) | ((self.inner[p + 1] as u32) << 16u32) | ((
            self.inner[p + 2] as u32) << 8u32) | (self.inner[p + 3] as u32);
            self.pos = p + 4;
            assert(self.rest() =~= old(self).rest().skip(4));
            Some(v)
        } else {
            None
        }
    }

    /// Takes the next eight bytes as a big-endian `u64`, if there are eight.
    fn take_u64(&mut self) -> (r: Option<u64>)
        ensures
            final(self).version() == old(self).version(),
            old(self).rest().len() < 8 ==> r is None,
            old(self).rest().len() >= 8 ==> r == Some(be_u64_at(old(self).rest(), 0))
                && final(self).rest() == old(self).rest().skip(8),
    {
        proof {
            use_type_invariant(&*self);
        }
        if self.inner.len() - self.pos >= 8 {
            let hi = self.take_u32();
            let lo = self.take_u32();
            match (hi, lo) {
                (Some(hi), Some(lo)) => {
                    assert(old(self).rest().skip(4).skip(4) =~= old(self).rest().skip(8));
                    assert(be_u32_at(old(self).rest().skip(4), 0) == be_u32_at(old(self).rest(), 4));
                    Some(((hi as u64) << 32u64) | (lo as u64))
                },
                _ => None,
            }
        } else {
            None
        }
    }

    /// Takes the next `n` bytes, if there are `n`.
    pub(crate) fn take_bytes(&mut self, n: usize) -> (r: Option<Vec<u8>>)
        ensures
            final(self).version() == old(self).version(),
            old(self).rest().len() < n ==> r is None,
            old(self).rest().len() >= n ==> (r matches Some(b) && b@ == old(self).rest().subrange(
                0,
                n as int,
            ) && final(self).rest() == old(self).rest().skip(n as int)),
    {
        proof {
            use_type_invariant(&*self);
        }
        if self.inner.len() - self.pos >= n {
            let p = self.pos;
            let b = vstd::slice::slice_to_vec(&self.inner[p..p + n]);
            self.pos = p + n;
            assert(self.rest() =~= old(self).rest().skip(n as int));
            assert(b@ =~= old(self).rest().subrange(0, n as int));
            Some(b)
        } else {
            None
        }
    }

    /// Reads a tag from the stream.
    pub fn read_tag(&mut self) -> (r: Result<Tag, ProtocolError>)
        ensures
            final(self).version() == old(self).version(),
            old(self).rest().len() == 0 ==> r == Err::<Tag, ProtocolError>(
                ProtocolError::Io(IoErrorKind::UnexpectedEof),
            ),
            old(self).rest().len() > 0 ==> match tag_of_byte(old(self).rest()[0]) {
                Some(t) => r == Ok::<Tag, ProtocolError>(t) && final(self).rest() == old(self).rest().skip(1),
                None => r matches Err(e) && e.is_invalid(),
            },
            old(self).rest().len() > 0 ==> final(self).rest() == old(self).rest().skip(1),
            old(self).rest().len() == 0 ==> final(self).rest() == old(self).rest(),
    {
        match self.take_byte() {
            None => Err(ProtocolError::Io(IoErrorKind::UnexpectedEof)),
            Some(v) => match Tag::from_u8(v) {
                Some(t) => Ok(t),
                None => Err(ProtocolError::Invalid("invalid tag in tagstruct".to_owned())),
            },
        }
    }

    /// Reads a tag from the stream, and returns an error if it's not equal
    /// to the given tag.
    pub fn expect_tag(&mut self, next: Tag) -> (r: Result<(), ProtocolError>)
        ensures
            final(self).version() == old(self).version(),
            r is Ok <==> old(self).rest().len() > 0 && old(self).rest()[0] == tag_byte(next),
            r is Ok ==> final(self).rest() == old(self).rest().skip(1),
            r matches Err(e) ==> tagged_read_error(old(self).rest(), tag_byte(next), e)
                && e != ProtocolError::Io(IoErrorKind::Other),
    {
        let t = self.read_tag()?;
        if t == next {
            Ok(())
        } else {
            Err(ProtocolError::Invalid("unexpected tag in tagstruct".to_owned()))
        }
    }

    /// Takes the bytes up to the first nul and the nul itself, and returns
    /// them as a string; returns `None` when no nul is left.
    fn take_string_body(&mut self) -> (r: Option<CString>)
        ensures
            final(self).version() == old(self).version(),
            has_nul_from(old(self).rest(), 0) ==> (r matches Some(c) && c@ == old(self).rest().subrange(
                0,
                first_nul_from(old(self).rest(), 0),
            ) && final(self).rest() == old(self).rest().skip(first_nul_from(old(self).rest(), 0) + 1)),
            !has_nul_from(old(self).rest(), 0) ==> r is None,
    {
        proof {
            use_type_invariant(&*self);
        }
        let ghost s = self.rest();
        let start = self.pos;
        let mut q = start;
        while q < self.inner.len() && self.inner[q] != 0
            invariant
                start <= q <= self.inner@.len(),
                start == self.pos,
                s == self.rest(),
                self.pos <= self.inner@.len(),
                forall|k: int| start <= k < q ==> self.inner@[k] != 0,
            decreases self.inner@.len() - q,
        {
            q = q + 1;
        }
        if q < self.inner.len() {
            let j: usize = q - start;
            assert forall|k: int| 0 <= k < j implies s[k] != 0 by {
                assert(s[k] == self.inner@[start + k]);
            }
            assert(is_first_nul(s, 0, j as int));
            proof {
                lemma_first_nul_unique(s, 0, j as int, first_nul_from(s, 0));
            }
            let b = vstd::slice::slice_to_vec(&self.inner[start..q]);
            assert(b@ =~= s.subrange(0, j as int));
            assert(no_nul(b@));
            self.pos = q + 1;
            assert(self.rest() =~= s.skip(j + 1));
            Some(CString::from_vec_unchecked(b))
        } else {
            assert forall|j: int| !is_first_nul(s, 0, j) by {
                if is_first_nul(s, 0, j) {
                    assert(self.inner@[start + j] == s[j]);
                }
            }
            None
        }
    }

    /// Reads a single byte.
    pub fn read_u8(&mut self) -> (r: Result<u8, ProtocolError>)
        ensures
            final(self).version() == old(self).version(),
            match parse_value(old(self).rest()) {
                Some((TagValue::U8(v), n)) => r == Ok::<u8, ProtocolError>(v) && final(self).rest()
                    == old(self).rest().skip(n),
                _ => r matches Err(e) && tagged_read_error(old(self).rest(), TAG_U8, e),
            },
    {
        let ghost s = self.rest();
        proof {
            reveal(parse_scalar);
        }
        self.expect_tag(Tag::U8)?;
        match self.take_byte() {
            Some(b) => {
                assert(s.skip(1).skip(1) =~= s.skip(2));
                Ok(b)
            },
            None => Err(ProtocolError::Io(IoErrorKind::UnexpectedEof)),
        }
    }

    /// Reads an unsigned 32-bit integer.
    pub fn read_u32(&mut self) -> (r: Result<u32, ProtocolError>)
        ensures
            final(self).version() == old(self).version(),
            match parse_value(old(self).rest()) {
                Some((TagValue::U32(v), n)) => r == Ok::<u32, ProtocolError>(v) && final(self).rest()
                    == old(self).rest().skip(n),
                _ => r matches Err(e) && tagged_read_error(old(self).rest(), TAG_U32, e),
            },
    {
        let ghost s = self.rest();
        proof {
            reveal(parse_scalar);
        }
        self.expect_tag(Tag::U32)?;
        match self.take_u32() {
            Some(v) => {
                assert(s.skip(1).skip(4) =~= s.skip(5));
                assert(be_u32_at(s.skip(1), 0) == be_u32_at(s, 1));
                Ok(v)
            },
            None => Err(ProtocolError::Io(IoErrorKind::UnexpectedEof)),
        }
    }

    /// Reads a tag and eight big-endian bytes; the tag must be `t`.
    fn read_tagged_u64(&mut self, t: Tag) -> (r: Result<u64, ProtocolError>)
        ensures
            final(self).version() == old(self).version(),
            (old(self).rest().len() >= 9 && old(self).rest()[0] == tag_byte(t)) ==> r
                == Ok::<u64, ProtocolError>(be_u64_at(old(self).rest(), 1)) && final(self).rest()
                == old(self).rest().skip(9),
            !(old(self).rest().len() >= 9 && old(self).rest()[0] == tag_byte(t)) ==> (r matches Err(
                e,
            ) && tagged_read_error(old(self).rest(), tag_byte(t), e)),
    {
        let ghost s = self.rest();
        self.expect_tag(t)?;
        match self.take_u64() {
            Some(v) => {
                assert(s.skip(1).skip(8) =~= s.skip(9));
                assert(be_u32_at(s.skip(1), 0) == be_u32_at(s, 1));
                assert(be_u32_at(s.skip(1), 4) == be_u32_at(s, 5));
                Ok(v)
            },
            None => Err(ProtocolError::Io(IoErrorKind::UnexpectedEof)),
        }
    }

    /// Reads an unsigned 64-bit integer.
    pub fn read_u64(&mut self) -> (r: Result<u64, ProtocolError>)
        ensures
            final(self).version() == old(self).version(),
            match parse_value(old(self).rest()) {
                Some((TagValue::U64(v), n)) => r == Ok::<u64, ProtocolError>(v) && final(self).rest()
                    == old(self).rest().skip(n),
                _ => r matches Err(e) && tagged_read_error(old(self).rest(), TAG_U64, e),
            },
    {
        proof {
            reveal(parse_scalar);
        }
        self.read_tagged_u64(Tag::U64)
    }

    /// Reads a signed 64-bit integer.
    pub fn read_i64(&mut self) -> (r: Result<i64, ProtocolError>)
        ensures
            final(self).version() == old(self).version(),
            match parse_value(old(self).rest()) {
                Some((TagValue::S64(v), n)) => r == Ok::<i64, ProtocolError>(v) && final(self).rest()
                    == old(self).rest().skip(n),
                _ => r matches Err(e) && tagged_read_error(old(self).rest(), TAG_S64, e),
            },
    {
        proof {
            reveal(parse_scalar);
        }
        let v = self.read_tagged_u64(Tag::S64)?;
        Ok(v as i64)
    }

    /// Reads a "usec" value, which is a 64-bit unsigned integer representing
    /// a number of microseconds.
    pub fn read_usec(&mut self) -> (r: Result<u64, ProtocolError>)
        ensures
            final(self).version() == old(self).version(),
            match parse_value(old(self).rest()) {
                Some((TagValue::Usec(v), n)) => r == Ok::<u64, ProtocolError>(v) && final(self).rest()
                    == old(self).rest().skip(n),
                _ => r matches Err(e) && tagged_read_error(old(self).rest(), TAG_USEC, e),
            },
    {
        proof {
            reveal(parse_scalar);
        }
        self.read_tagged_u64(Tag::Usec)
    }

    /// Reads a boolean value.
    pub fn read_bool(&mut self) -> (r: Result<bool, ProtocolError>)
        ensures
            final(self).version() == old(self).version(),
            match parse_value(old(self).rest()) {
                Some((TagValue::Bool(v), n)) => r == Ok::<bool, ProtocolError>(v) && final(self).rest() == old(self).rest().skip(n),
                _ => r matches Err(e) && if old(self).rest().len() == 0 {
                    e.is_eof()
                } else {
                    e.is_invalid()
                },
            },
            old(self).rest().len() > 0 ==> final(self).rest() == old(self).rest().skip(1),
            old(self).rest().len() == 0 ==> final(self).rest() == old(self).rest(),
    {
        proof {
            reveal(parse_scalar);
        }
        let tag = self.read_tag()?;
        match tag {
            Tag::BooleanTrue => Ok(true),
            Tag::BooleanFalse => Ok(false),
            _ => Err(ProtocolError::Invalid("expected boolean in tagstruct".to_owned())),
        }
    }

    /// Reads a timestamp, or "timeval", with microsecond precision.
    pub fn read_timeval(&mut self) -> (r: Result<Timestamp, ProtocolError>)
        ensures
            final(self).version() == old(self).version(),
            match parse_value(old(self).rest()) {
                Some((TagValue::TimeVal(micros), n)) => r == Ok::<Timestamp, ProtocolError>(
                    Timestamp { micros },
                ) && final(self).rest() == old(self).rest().skip(n),
                _ => r matches Err(e) && tagged_read_error(old(self).rest(), TAG_TIMEVAL, e),
            },
    {
        let ghost s = self.rest();
        proof {
            reveal(parse_scalar);
        }
        self.expect_tag(Tag::TimeVal)?;
        let secs = match self.take_u32() {
            Some(v) => v,
            None => {
                return Err(ProtocolError::Io(IoErrorKind::UnexpectedEof));
            },
        };
        let usecs = match self.take_u32() {
            Some(v) => v,
            None => {
                return Err(ProtocolError::Io(IoErrorKind::UnexpectedEof));
            },
        };
        assert(s.skip(1).skip(4).skip(4) =~= s.skip(9));
        assert(be_u32_at(s.skip(1), 0) == be_u32_at(s, 1));
        assert(be_u32_at(s.skip(1).skip(4), 0) == be_u32_at(s, 5));
        assert(secs as u64 * MICROS_PER_SEC + usecs as u64 <= u64::MAX) by (nonlinear_arith)
            requires
                secs <= u32::MAX,
                usecs <= u32::MAX,
                MICROS_PER_SEC == 1_000_000,
        ;
        Ok(Timestamp { micros: secs as u64 * MICROS_PER_SEC + usecs as u64 })
    }

    /// Reads an "arbitrary", a byte blob preceded by its length.
    pub fn read_arbitrary(&mut self) -> (r: Result<Vec<u8>, ProtocolError>)
        ensures
            final(self).version() == old(self).version(),
            match parse_value(old(self).rest()) {
                Some((TagValue::Arbitrary(b), n)) => (r matches Ok(v) && v@ == b) && final(self).rest() == old(self).rest().skip(n),
                _ => r matches Err(e) && tagged_read_error(old(self).rest(), TAG_ARBITRARY, e),
            },
    {
        let ghost s = self.rest();
        proof {
            reveal(parse_scalar);
        }
        self.expect_tag(Tag::Arbitrary)?;
        let len = match self.take_u32() {
            Some(v) => v,
            None => {
                return Err(ProtocolError::Io(IoErrorKind::UnexpectedEof));
            },
        };
        assert(be_u32_at(s.skip(1), 0) == be_u32_at(s, 1));
        match self.take_bytes(len as usize) {
            Some(b) => {
                assert(s.skip(1).skip(4).skip(len as int) =~= s.skip(5 + len));
                assert(b@ =~= s.subrange(5, 5 + len));
                Ok(b)
            },
            None => Err(ProtocolError::Io(IoErrorKind::UnexpectedEof)),
        }
    }

    /// Reads an "arbitrary" without length prefix: the tag, then `len` bytes.
    pub fn read_arbitrary_unprefixed(&mut self, len: u32) -> (r: Result<Vec<u8>, ProtocolError>)
        ensures
            final(self).version() == old(self).version(),
            (old(self).rest().len() >= 1 + len && old(self).rest()[0] == TAG_ARBITRARY) ==> (
            r matches Ok(v) && v@ == old(self).rest().subrange(1, 1 + len) && final(self).rest()
                == old(self).rest().skip(1 + len)),
            !(old(self).rest().len() >= 1 + len && old(self).rest()[0] == TAG_ARBITRARY) ==> (
            r matches Err(e) && tagged_read_error(old(self).rest(), TAG_ARBITRARY, e)),
    {
        let ghost s = self.rest();
        self.expect_tag(Tag::Arbitrary)?;
        match self.take_bytes(len as usize) {
            Some(b) => {
                assert(s.skip(1).skip(len as int) =~= s.skip(1 + len));
                assert(b@ =~= s.subrange(1, 1 + len));
                Ok(b)
            },
            None => Err(ProtocolError::Io(IoErrorKind::UnexpectedEof)),
        }
    }

    /// Reads a null-terminated string (which may be a special null string tag).
    ///
    /// Note that strings in a tagstruct aren't necessarily encoded in UTF-8.
    pub fn read_string(&mut self) -> (r: Result<Option<CString>, ProtocolError>)
        ensures
            final(self).version() == old(self).version(),
            match parse_value(old(self).rest()) {
                Some((TagValue::Str(b), n)) => (r matches Ok(Some(c)) && c@ == b) && final(self).rest() == old(self).rest().skip(n),
                Some((TagValue::NullStr, n)) => r matches Ok(None) && final(self).rest() == old(self).rest().skip(n),
                _ => r matches Err(e) && if old(self).rest().len() == 0 {
                    e.is_eof()
                } else {
                    e.is_invalid()
                },
            },
    {
        let ghost s = self.rest();
        proof {
            reveal(parse_scalar);
        }
        match self.read_tag()? {
            Tag::String => {
                proof {
                    lemma_first_nul_shift(s);
                }
                match self.take_string_body() {
                    Some(c) => {
                        assert(s.skip(1).subrange(0, first_nul_from(s, 1) - 1) =~= s.subrange(
                            1,
                            first_nul_from(s, 1),
                        ));
                        assert(s.skip(1).skip(first_nul_from(s, 1)) =~= s.skip(
                            first_nul_from(s, 1) + 1,
                        ));
                        Ok(Some(c))
                    },
                    None => Err(ProtocolError::Invalid("unterminated string in tagstruct".to_owned())),
                }
            },
            Tag::StringNull => Ok(None),
            _ => Err(ProtocolError::Invalid("expected string or null string".to_owned())),
        }
    }

    /// Reads a null-terminated string.
    pub fn read_string_non_null(&mut self) -> (r: Result<CString, ProtocolError>)
        ensures
            final(self).version() == old(self).version(),
            match parse_value(old(self).rest()) {
                Some((TagValue::Str(b), n)) => (r matches Ok(c) && c@ == b) && final(self).rest()
                    == old(self).rest().skip(n),
                _ => r matches Err(e) && if old(self).rest().len() == 0 {
                    e.is_eof()
                } else {
                    e.is_invalid()
                },
            },
    {
        let ghost s = self.rest();
        proof {
            reveal(parse_scalar);
        }
        match self.read_tag()? {
            Tag::String => {
                proof {
                    lemma_first_nul_shift(s);
                }
                match self.take_string_body() {
                    Some(c) => {
                        assert(s.skip(1).subrange(0, first_nul_from(s, 1) - 1) =~= s.subrange(
                            1,
                            first_nul_from(s, 1),
                        ));
                        assert(s.skip(1).skip(first_nul_from(s, 1)) =~= s.skip(
                            first_nul_from(s, 1) + 1,
                        ));
                        Ok(c)
                    },
                    None => Err(ProtocolError::Invalid("unterminated string in tagstruct".to_owned())),
                }
            },
            _ => Err(ProtocolError::Invalid("expected string".to_owned())),
        }
    }

    /// Reads a u32, and checks it against PA_INVALID_INDEX (-1).
    pub fn read_index(&mut self) -> (r: Result<Option<u32>, ProtocolError>)
        ensures
            final(self).version() == old(self).version(),
            match parse_value(old(self).rest()) {
                Some((TagValue::U32(v), n)) => r == Ok::<Option<u32>, ProtocolError>(
                    index_of_u32(v),
                ) && final(self).rest() == old(self).rest().skip(n),
                _ => r matches Err(e) && tagged_read_error(old(self).rest(), TAG_U32, e),
            },
    {
        let v = self.read_u32()?;
        if v == INVALID_INDEX {
            Ok(None)
        } else {
            Ok(Some(v))
        }
    }

    /// Reads a value which implements [`TagStructRead`].
    pub fn read<T: TagStructRead>(&mut self) -> (r: Result<T, ProtocolError>)
        ensures
            final(self).version() == old(self).version(),
            match T::spec_parse(old(self).rest(), old(self).version()) {
                Some((vs, n)) => (r matches Ok(v) && v.spec_values(old(self).version()) == vs
                    && v.spec_canonical(old(self).version())) && 0 <= n <= old(self).rest().len()
                    && final(self).rest() == old(self).rest().skip(n),
                None => r is Err,
            },
    {
        let v = self.protocol_version;
        T::read(self, v)
    }

    /// The number of bytes left to read.
    pub fn remaining(&self) -> (r: usize)
        ensures
            r == self.rest().len(),
    {
        proof {
            use_type_invariant(self);
        }
        self.inner.len() - self.pos
    }

    /// Returns whether there is any data left in the input stream.
    pub fn has_data_left(&mut self) -> (r: Result<bool, ProtocolError>)
        ensures
            *final(self) == *old(self),
            r == Ok::<bool, ProtocolError>(old(self).rest().len() > 0),
    {
        proof {
            use_type_invariant(&*self);
        }
        Ok(self.pos < self.inner.len())
    }
}

/// The index PulseAudio uses to mean "no object" (`PA_INVALID_INDEX`).
pub const INVALID_INDEX: u32 = u32::MAX;

/// The index a `u32` on the wire stands for: none for `PA_INVALID_INDEX`.
pub open spec fn index_of_u32(v: u32) -> Option<u32> {
    if v == INVALID_INDEX {
        None
    } else {
        Some(v)
    }
}

/// The `u32` sent for an index: `PA_INVALID_INDEX` for none.
pub open spec fn u32_of_index(i: Option<u32>) -> u32 {
    match i {
        Some(v) => v,
        None => INVALID_INDEX,
    }
}

/// The value sent for an index.
pub open spec fn index_value(i: Option<u32>) -> TagValue {
    TagValue::U32(u32_of_index(i))
}

/// The value sent for a string that may be absent.
pub open spec fn string_value(s: Option<Seq<u8>>) -> TagValue {
    match s {
        Some(b) => TagValue::Str(b),
        None => TagValue::NullStr,
    }
}

/// The view of an optional string.
pub open spec fn opt_cstr_view(s: Option<CString>) -> Option<Seq<u8>> {
    match s {
        Some(c) => Some(c@),
        None => None,
    }
}

/// An index that survives the trip through the wire: any but the one that
/// means "no object".
pub open spec fn index_encodable(i: Option<u32>) -> bool {
    i != Some(INVALID_INDEX)
}

/// After the tag byte, the first nul is one index earlier.
proof fn lemma_first_nul_shift(s: Seq<u8>)
    requires
        s.len() > 0,
    ensures
        has_nul_from(s.skip(1), 0) == has_nul_from(s, 1),
        has_nul_from(s, 1) ==> first_nul_from(s.skip(1), 0) == first_nul_from(s, 1) - 1,
{
    let t = s.skip(1);
    if has_nul_from(s, 1) {
        let j = first_nul_from(s, 1);
        assert(is_first_nul(s, 1, j));
        assert forall|k: int| 0 <= k < j - 1 implies t[k] != 0 by {
            assert(t[k] == s[k + 1]);
        }
        assert(is_first_nul(t, 0, j - 1));
        lemma_first_nul_unique(t, 0, j - 1, first_nul_from(t, 0));
    }
    if has_nul_from(t, 0) {
        let j = first_nul_from(t, 0);
        assert(is_first_nul(t, 0, j));
        assert forall|k: int| 1 <= k < j + 1 implies s[k] != 0 by {
            assert(t[k - 1] == s[k]);
        }
        assert(is_first_nul(s, 1, j + 1));
    }
}


/// A streaming writer for tagstruct-encoded data, which appends to a byte
/// buffer.
pub struct TagStructWriter {
    buf: Vec<u8>,
    protocol_version: u16,
}

impl TagStructWriter {
    /// The bytes written so far, after those the buffer started with.
    pub closed spec fn bytes(self) -> Seq<u8> {
        self.buf@
    }

    /// The protocol version that values are written for.
    pub closed spec fn version(self) -> u16 {
        self.protocol_version
    }

    /// Creates a tagstruct writer that appends to a buffer.
    pub fn new(buf: Vec<u8>, protocol_version: u16) -> (r: Self)
        ensures
            r.bytes() == buf@,
            r.version() == protocol_version,
    {
        TagStructWriter { buf, protocol_version }
    }

    /// Returns the buffer with everything written to it.
    pub fn into_inner(self) -> (r: Vec<u8>)
        ensures
            r@ == self.bytes(),
    {
        self.buf
    }

    /// The number of bytes in the buffer.
    pub fn len(&self) -> (r: usize)
        ensures
            r == self.bytes().len(),
    {
        self.buf.len()
    }

    /// The protocol version that values are written for.
    pub fn protocol_version(&self) -> (r: u16)
        ensures
            r == self.version(),
    {
        self.protocol_version
    }

    /// Appends one raw byte.
    pub(crate) fn push_byte(&mut self, b: u8)
        ensures
            final(self).bytes() == old(self).bytes().push(b),
            final(self).version() == old(self).version(),
    {
        self.buf.push(b);
    }

    /// Appends the four big-endian bytes of `v`.
    pub(crate) fn push_u32(&mut self, v: u32)
        ensures
            final(self).bytes() == old(self).bytes() + u32_be(v),
            final(self).version() == old(self).version(),
    {
        self.buf.push((v >> 24u32) as u8);
        self.buf.push((v >> 16u32) as u8);
        self.buf.push((v >> 8u32) as u8);
        self.buf.push(v as u8);
        assert(self.bytes() =~= old(self).bytes() + u32_be(v));
    }

    /// Appends the eight big-endian bytes of `v`.
    pub(crate) fn push_u64(&mut self, v: u64)
        ensures
            final(self).bytes() == old(self).bytes() + u64_be(v),
            final(self).version() == old(self).version(),
    {
        self.push_u32((v >> 32u64) as u32);
        self.push_u32(v as u32);
        assert(self.bytes() =~= old(self).bytes() + u64_be(v));
    }

    /// Appends raw bytes.
    pub(crate) fn push_bytes(&mut self, b: &[u8])
        ensures
            final(self).bytes() == old(self).bytes() + b@,
            final(self).version() == old(self).version(),
    {
        let mut i: usize = 0;
        while i < b.len()
            invariant
                i <= b@.len(),
                self.bytes() == old(self).bytes() + b@.subrange(0, i as int),
                self.version() == old(self).version(),
            decreases b@.len() - i,
        {
            self.buf.push(b[i]);
            i = i + 1;
            assert(self.bytes() =~= old(self).bytes() + b@.subrange(0, i as int));
        }
        assert(b@.subrange(0, i as int) =~= b@);
    }

    /// Writes a boolean value.
    pub fn write_bool(&mut self, b: bool) -> (r: Result<(), ProtocolError>)
        ensures
            r == Ok::<(), ProtocolError>(()),
            final(self).bytes() == old(self).bytes() + value_bytes(TagValue::Bool(b)),
            final(self).version() == old(self).version(),
    {
        self.push_byte(if b { TAG_BOOLEAN_TRUE } else { TAG_BOOLEAN_FALSE });
        assert(self.bytes() =~= old(self).bytes() + value_bytes(TagValue::Bool(b)));
        Ok(())
    }

    /// Writes a single byte.
    pub fn write_u8(&mut self, value: u8) -> (r: Result<(), ProtocolError>)
        ensures
            r == Ok::<(), ProtocolError>(()),
            final(self).bytes() == old(self).bytes() + value_bytes(TagValue::U8(value)),
            final(self).version() == old(self).version(),
    {
        self.push_byte(TAG_U8);
        self.push_byte(value);
        assert(self.bytes() =~= old(self).bytes() + value_bytes(TagValue::U8(value)));
        Ok(())
    }

    /// Writes an unsigned 32-bit integer.
    pub fn write_u32(&mut self, value: u32) -> (r: Result<(), ProtocolError>)
        ensures
            r == Ok::<(), ProtocolError>(()),
            final(self).bytes() == old(self).bytes() + value_bytes(TagValue::U32(value)),
            final(self).version() == old(self).version(),
    {
        self.push_byte(TAG_U32);
        self.push_u32(value);
        assert(self.bytes() =~= old(self).bytes() + value_bytes(TagValue::U32(value)));
        Ok(())
    }

    /// Writes an unsigned 64-bit integer.
    pub fn write_u64(&mut self, value: u64) -> (r: Result<(), ProtocolError>)
        ensures
            r == Ok::<(), ProtocolError>(()),
            final(self).bytes() == old(self).bytes() + value_bytes(TagValue::U64(value)),
            final(self).version() == old(self).version(),
    {
        self.push_byte(TAG_U64);
        self.push_u64(value);
        assert(self.bytes() =~= old(self).bytes() + value_bytes(TagValue::U64(value)));
        Ok(())
    }

    /// Writes a signed 64-bit integer.
    pub fn write_i64(&mut self, value: i64) -> (r: Result<(), ProtocolError>)
        ensures
            r == Ok::<(), ProtocolError>(()),
            final(self).bytes() == old(self).bytes() + value_bytes(TagValue::S64(value)),
            final(self).version() == old(self).version(),
    {
        self.push_byte(TAG_S64);
        self.push_u64(value as u64);
        assert(self.bytes() =~= old(self).bytes() + value_bytes(TagValue::S64(value)));
        Ok(())
    }

    /// Writes an index as a u32, or PA_INVALID_INDEX (-1) in the case of None.
    pub fn write_index(&mut self, index: Option<u32>) -> (r: Result<(), ProtocolError>)
        ensures
            r == Ok::<(), ProtocolError>(()),
            final(self).bytes() == old(self).bytes() + value_bytes(index_value(index)),
            final(self).version() == old(self).version(),
    {
        match index {
            Some(index) => self.write_u32(index),
            None => self.write_u32(INVALID_INDEX),
        }
    }

    /// Writes a string, or a special "null string" tag.
    pub fn write_string(&mut self, value: Option<&CString>) -> (r: Result<(), ProtocolError>)
        ensures
            r == Ok::<(), ProtocolError>(()),
            final(self).bytes() == old(self).bytes() + value_bytes(
                string_value(
                    match value {
                        Some(c) => Some(c@),
                        None => None,
                    },
                ),
            ),
            final(self).version() == old(self).version(),
    {
        match value {
            Some(value) => {
                self.push_byte(TAG_STRING);
                self.push_bytes(value.as_bytes());
                self.push_byte(0);
                assert(self.bytes() =~= old(self).bytes() + value_bytes(TagValue::Str(value@)));
                Ok(())
            },
            None => self.write_null_string(),
        }
    }

    /// Writes a special "null string" tag.
    pub fn write_null_string(&mut self) -> (r: Result<(), ProtocolError>)
        ensures
            r == Ok::<(), ProtocolError>(()),
            final(self).bytes() == old(self).bytes() + value_bytes(TagValue::NullStr),
            final(self).version() == old(self).version(),
    {
        self.push_byte(TAG_STRING_NULL);
        assert(self.bytes() =~= old(self).bytes() + value_bytes(TagValue::NullStr));
        Ok(())
    }

    /// Writes a "usec" value, which is a 64-bit unsigned integer representing
    /// a number of microseconds.
    pub fn write_usec(&mut self, n: u64) -> (r: Result<(), ProtocolError>)
        ensures
            r == Ok::<(), ProtocolError>(()),
            final(self).bytes() == old(self).bytes() + value_bytes(TagValue::Usec(n)),
            final(self).version() == old(self).version(),
    {
        self.push_byte(TAG_USEC);
        self.push_u64(n);
        assert(self.bytes() =~= old(self).bytes() + value_bytes(TagValue::Usec(n)));
        Ok(())
    }

    /// Writes a timestamp as a "timeval" with microsecond precision. The
    /// seconds are truncated to 32 bits; those of a timestamp that is read
    /// back unchanged fit.
    pub fn write_timeval(&mut self, t: Timestamp) -> (r: Result<(), ProtocolError>)
        ensures
            r == Ok::<(), ProtocolError>(()),
            final(self).bytes() == old(self).bytes() + value_bytes(timestamp_timeval(t)),
            final(self).version() == old(self).version(),
    {
        let secs = (t.micros / MICROS_PER_SEC) as u32;
        let usecs = (t.micros % MICROS_PER_SEC) as u32;
        let r = self.write_timeval_raw(secs, usecs);
        assert(self.bytes() =~= old(self).bytes() + value_bytes(timestamp_timeval(t)));
        r
    }

    /// Writes a "timeval" with microsecond precision.
    pub fn write_timeval_raw(&mut self, secs: u32, usecs: u32) -> (r: Result<(), ProtocolError>)
        ensures
            r == Ok::<(), ProtocolError>(()),
            final(self).bytes() == old(self).bytes() + seq![TAG_TIMEVAL] + timeval_bytes(secs, usecs),
            final(self).version() == old(self).version(),
    {
        self.push_byte(TAG_TIMEVAL);
        self.push_u32(secs);
        self.push_u32(usecs);
        assert(self.bytes() =~= old(self).bytes() + seq![TAG_TIMEVAL] + timeval_bytes(secs, usecs));
        Ok(())
    }

    ///  Write an "arbitrary", a byte blob, with prefix length.
    pub fn write_arbitrary(&mut self, bytes: &[u8]) -> (r: Result<(), ProtocolError>)
        requires
            bytes@.len() <= u32::MAX,
        ensures
            r == Ok::<(), ProtocolError>(()),
            final(self).bytes() == old(self).bytes() + value_bytes(TagValue::Arbitrary(bytes@)),
            final(self).version() == old(self).version(),
    {
        self.push_byte(TAG_ARBITRARY);
        self.push_u32(bytes.len() as u32);
        self.push_bytes(bytes);
        assert(self.bytes() =~= old(self).bytes() + value_bytes(TagValue::Arbitrary(bytes@)));
        Ok(())
    }

    /// Appends a single value to the tagstruct.
    pub fn write<T: TagStructWrite>(&mut self, value: &T) -> (r: Result<(), ProtocolError>)
        requires
            value.spec_writable(),
        ensures
            r == Ok::<(), ProtocolError>(()),
            final(self).bytes() == old(self).bytes() + values_bytes(
                value.spec_values(old(self).version()),
            ),
            final(self).version() == old(self).version(),
    {
        let v = self.protocol_version;
        value.write(self, v)
    }
}

/// Implemented by types that can be serialized into a tagstruct stream.
pub trait TagStructWrite {
    /// The tagged values that stand for `self` at a protocol version.
    spec fn spec_values(&self, protocol_version: u16) -> Seq<TagValue>;

    /// Whether `self` can be written without breaking a limit of the format.
    spec fn spec_writable(&self) -> bool;

    /// Write `self` into a tagstruct.
    fn write(&self, w: &mut TagStructWriter, protocol_version: u16) -> (r: Result<(), ProtocolError>)
        requires
            self.spec_writable(),
        ensures
            r == Ok::<(), ProtocolError>(()),
            final(w).bytes() == old(w).bytes() + values_bytes(self.spec_values(protocol_version)),
            final(w).version() == old(w).version(),
    ;
}

/// Implemented by types that can be deserialized from a tagstruct stream.
///
/// A read is the inverse of a write: it succeeds on the bytes of the values
/// that some `Self` is written as, and gives a `Self` that is written as
/// those values.
pub trait TagStructRead: Sized + TagStructWrite {
    /// The tagged values of a `Self` that `s` starts with, and the number of
    /// bytes they take, or `None` when `s` starts with no `Self`.
    spec fn spec_parse(s: Seq<u8>, protocol_version: u16) -> Option<(Seq<TagValue>, int)>;

    /// Whether the fields that the encoding at this protocol version leaves
    /// out hold what a read gives them.
    spec fn spec_canonical(&self, protocol_version: u16) -> bool;

    /// Whether `self` is read back unchanged after being written at this
    /// protocol version.
    spec fn spec_encodable(&self, protocol_version: u16) -> bool;

    /// Whether a read stops at the end of the bytes of its value, so that
    /// anything may follow them; a list is read up to the end of the input.
    open spec fn spec_delimited() -> bool {
        true
    }

    /// Read an instance of `Self` from a tagstruct.
    fn read(ts: &mut TagStructReader, protocol_version: u16) -> (r: Result<Self, ProtocolError>)
        ensures
            final(ts).version() == old(ts).version(),
            match Self::spec_parse(old(ts).rest(), protocol_version) {
                Some((vs, n)) => (r matches Ok(v) && v.spec_values(protocol_version) == vs
                    && v.spec_canonical(protocol_version)) && 0 <= n <= old(ts).rest().len()
                    && final(ts).rest() == old(ts).rest().skip(n),
                None => r is Err,
            },
    ;

    /// Reading back what a value is written as gives its values, and the
    /// value is canonical: the read is the inverse of the write.
    proof fn lemma_roundtrip(&self, protocol_version: u16, rest: Seq<u8>)
        requires
            self.spec_encodable(protocol_version),
            Self::spec_delimited() || rest.len() == 0,
        ensures
            self.spec_canonical(protocol_version),
            Self::spec_parse(values_bytes(self.spec_values(protocol_version)) + rest, protocol_version)
                == Some(
                (
                    self.spec_values(protocol_version),
                    values_bytes(self.spec_values(protocol_version)).len() as int,
                ),
            ),
    ;
}

} // verus!
