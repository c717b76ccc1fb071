//! The format of the samples of a stream: their encoding, the number of
//! channels, and the rate.

use vstd::prelude::*;

use super::super::error::{IoErrorKind, ProtocolError};
use super::fields::{lemma_parse_value_len, lemma_parse_values_1, lemma_values_bytes_1};
use super::wire::{
    TAG_SAMPLE_SPEC, TagValue, be_u32_at, lemma_parse_values_bytes, parse_scalar, parse_value,
    parse_values, u32_be, value_bytes,
};
use super::{Tag, TagStructRead, TagStructReader, TagStructWrite, TagStructWriter, tagged_read_error};

verus! {

/// The encoding of audio samples.
#[derive(Debug, Copy, Clone, PartialEq, Eq, Structural)]
pub enum SampleFormat {
    /// Unsigned 8-bit samples.
    U8,
    /// 8-bit a-law samples.
    ALaw,
    /// 8-bit mu-law samples.
    ULaw,
    /// Signed 16-bit samples, little endian.
    S16Le,
    /// Signed 16-bit samples, big endian.
    S16Be,
    /// 32-bit IEEE floating point samples, little endian, in the range -1.0 to 1.0.
    Float32Le,
    /// 32-bit IEEE floating point samples, big endian, in the range -1.0 to 1.0.
    Float32Be,
    /// Signed 32-bit samples, little endian.
    S32Le,
    /// Signed 32-bit samples, big endian.
    S32Be,
    /// Signed 24-bit samples packed in 3 bytes, little endian.
    S24Le,
    /// Signed 24-bit samples packed in 3 bytes, big endian.
    S24Be,
    /// Signed 24-bit samples in the low bits of 4 bytes, little endian.
    S24In32Le,
    /// Signed 24-bit samples in the low bits of 4 bytes, big endian.
    S24In32Be,
}

/// The number that stands for a sample format on the wire.
pub open spec fn sample_format_code(f: SampleFormat) -> u8 {
    match f {
        SampleFormat::U8 => 0,
        SampleFormat::ALaw => 1,
        SampleFormat::ULaw => 2,
        SampleFormat::S16Le => 3,
        SampleFormat::S16Be => 4,
        SampleFormat::Float32Le => 5,
        SampleFormat::Float32Be => 6,
        SampleFormat::S32Le => 7,
        SampleFormat::S32Be => 8,
        SampleFormat::S24Le => 9,
        SampleFormat::S24Be => 10,
        SampleFormat::S24In32Le => 11,
        SampleFormat::S24In32Be => 12,
    }
}

/// The sample format a number stands for, if any.
pub open spec fn sample_format_of_code(v: u8) -> Option<SampleFormat> {
    if v == 0 {
        Some(SampleFormat::U8)
    } else if v == 1 {
        Some(SampleFormat::ALaw)
    } else if v == 2 {
        Some(SampleFormat::ULaw)
    } else if v == 3 {
        Some(SampleFormat::S16Le)
    } else if v == 4 {
        Some(SampleFormat::S16Be)
    } else if v == 5 {
        Some(SampleFormat::Float32Le)
    } else if v == 6 {
        Some(SampleFormat::Float32Be)
    } else if v == 7 {
        Some(SampleFormat::S32Le)
    } else if v == 8 {
        Some(SampleFormat::S32Be)
    } else if v == 9 {
        Some(SampleFormat::S24Le)
    } else if v == 10 {
        Some(SampleFormat::S24Be)
    } else if v == 11 {
        Some(SampleFormat::S24In32Le)
    } else if v == 12 {
        Some(SampleFormat::S24In32Be)
    } else {
        None
    }
}

/// Each sample format's number stands for that format.
pub proof fn lemma_sample_format_roundtrip(f: SampleFormat)
    ensures
        sample_format_of_code(sample_format_code(f)) == Some(f),
{
}

impl SampleFormat {
    /// The number that stands for the format on the wire.
    pub fn to_u8(self) -> (r: u8)
        ensures
            r == sample_format_code(self),
    {
        match self {
            SampleFormat::U8 => 0,
            SampleFormat::ALaw => 1,
            SampleFormat::ULaw => 2,
            SampleFormat::S16Le => 3,
            SampleFormat::S16Be => 4,
            SampleFormat::Float32Le => 5,
            SampleFormat::Float32Be => 6,
            SampleFormat::S32Le => 7,
            SampleFormat::S32Be => 8,
            SampleFormat::S24Le => 9,
            SampleFormat::S24Be => 10,
            SampleFormat::S24In32Le => 11,
            SampleFormat::S24In32Be => 12,
        }
    }

    /// The format a number stands for, or `None` for a number that stands
    /// for no format.
    pub fn from_u8(v: u8) -> (r: Option<SampleFormat>)
        ensures
            r == sample_format_of_code(v),
    {
        if v == 0 {
            Some(SampleFormat::U8)
        } else if v == 1 {
            Some(SampleFormat::ALaw)
        } else if v == 2 {
            Some(SampleFormat::ULaw)
        } else if v == 3 {
            Some(SampleFormat::S16Le)
        } else if v == 4 {
            Some(SampleFormat::S16Be)
        } else if v == 5 {
            Some(SampleFormat::Float32Le)
        } else if v == 6 {
            Some(SampleFormat::Float32Be)
        } else if v == 7 {
            Some(SampleFormat::S32Le)
        } else if v == 8 {
            Some(SampleFormat::S32Be)
        } else if v == 9 {
            Some(SampleFormat::S24Le)
        } else if v == 10 {
            Some(SampleFormat::S24Be)
        } else if v == 11 {
            Some(SampleFormat::S24In32Le)
        } else if v == 12 {
            Some(SampleFormat::S24In32Be)
        } else {
            None
        }
    }
}

/// The format of the samples of a stream.
#[derive(Debug, Copy, Clone, PartialEq, Eq, Structural)]
pub struct SampleSpec {
    /// The encoding of each sample.
    pub format: SampleFormat,
    /// The number of channels.
    pub channels: u8,
    /// The number of samples per second and channel.
    pub sample_rate: u32,
}

/// The tagged value that stands for a sample spec.
pub open spec fn sample_spec_value(s: SampleSpec) -> TagValue {
    TagValue::SampleSpec(sample_format_code(s.format), s.channels, s.sample_rate)
}

impl TagStructReader<'_> {
    /// Reads a sample spec. A format code that names no format is refused.
    pub fn read_sample_spec(&mut self) -> (r: Result<SampleSpec, ProtocolError>)
        ensures
            final(self).version() == old(self).version(),
            match parse_value(old(self).rest()) {
                Some((TagValue::SampleSpec(f, c, rate), n)) => match sample_format_of_code(f) {
                    Some(format) => r == Ok::<SampleSpec, ProtocolError>(
                        SampleSpec { format, channels: c, sample_rate: rate },
                    ) && final(self).rest() == old(self).rest().skip(n),
                    None => r matches Err(e) && e.is_invalid(),
                },
                _ => r matches Err(e) && tagged_read_error(old(self).rest(), TAG_SAMPLE_SPEC, e),
            },
    {
        let ghost s = self.rest();
        proof {
            reveal(parse_scalar);
        }
        self.expect_tag(Tag::SampleSpec)?;
        let f = match self.take_byte() {
            Some(b) => b,
            None => {
                return Err(ProtocolError::Io(IoErrorKind::UnexpectedEof));
            },
        };
        let c = match self.take_byte() {
            Some(b) => b,
            None => {
                return Err(ProtocolError::Io(IoErrorKind::UnexpectedEof));
            },
        };
        let rate = match self.take_u32() {
            Some(v) => v,
            None => {
                return Err(ProtocolError::Io(IoErrorKind::UnexpectedEof));
            },
        };
        assert(s.skip(1).skip(1).skip(1) =~= s.skip(3));
        assert(be_u32_at(s.skip(3), 0) == be_u32_at(s, 3));
        assert(s.skip(3).skip(4) =~= s.skip(7));
        match SampleFormat::from_u8(f) {
            Some(format) => Ok(SampleSpec { format, channels: c, sample_rate: rate }),
            None => Err(ProtocolError::Invalid("invalid sample format".to_owned())),
        }
    }
}

impl TagStructWriter {
    /// Writes a sample spec.
    pub fn write_sample_spec(&mut self, spec: SampleSpec) -> (r: Result<(), ProtocolError>)
        ensures
            r == Ok::<(), ProtocolError>(()),
            final(self).bytes() == old(self).bytes() + value_bytes(sample_spec_value(spec)),
            final(self).version() == old(self).version(),
    {
        self.push_byte(TAG_SAMPLE_SPEC);
        self.push_byte(spec.format.to_u8());
        self.push_byte(spec.channels);
        self.push_u32(spec.sample_rate);
        assert(self.bytes() =~= old(self).bytes() + value_bytes(sample_spec_value(spec)));
        Ok(())
    }
}

impl TagStructWrite for SampleSpec {
    open spec fn spec_values(&self, protocol_version: u16) -> Seq<TagValue> {
        seq![sample_spec_value(*self)]
    }

    open spec fn spec_writable(&self) -> bool {
        true
    }

    fn write(&self, w: &mut TagStructWriter, _protocol_version: u16) -> (r: Result<(), ProtocolError>) {
        w.write_sample_spec(*self)?;
        proof {
            lemma_values_bytes_1(sample_spec_value(*self));
        }
        Ok(())
    }
}

impl TagStructRead for SampleSpec {
    open spec fn spec_parse(s: Seq<u8>, protocol_version: u16) -> Option<(Seq<TagValue>, int)> {
        match parse_values(s, 1) {
            Some((vs, n)) => match vs[0] {
                TagValue::SampleSpec(f, _, _) => if sample_format_of_code(f) is Some {
                    Some((vs, n))
                } else {
                    None
                },
                _ => None,
            },
            None => None,
        }
    }

    open spec fn spec_canonical(&self, protocol_version: u16) -> bool {
        true
    }

    open spec fn spec_encodable(&self, protocol_version: u16) -> bool {
        true
    }

    fn read(ts: &mut TagStructReader, _protocol_version: u16) -> (r: Result<Self, ProtocolError>) {
        proof {
            lemma_parse_values_1(ts.rest());
            lemma_parse_value_len(ts.rest());
        }
        let v = ts.read_sample_spec()?;
        Ok(v)
    }

    proof fn lemma_roundtrip(&self, protocol_version: u16, rest: Seq<u8>) {
        lemma_sample_format_roundtrip(self.format);
        lemma_parse_values_bytes(self.spec_values(protocol_version), rest);
    }
}


/// The numbers that stand for the sample formats on the wire, as the PulseAudio protocol
/// assigns them, in both directions.
pub proof fn lemma_sample_format_table()
    ensures
        sample_format_code(SampleFormat::U8) == 0,
        sample_format_code(SampleFormat::ALaw) == 1,
        sample_format_code(SampleFormat::ULaw) == 2,
        sample_format_code(SampleFormat::S16Le) == 3,
        sample_format_code(SampleFormat::S16Be) == 4,
        sample_format_code(SampleFormat::Float32Le) == 5,
        sample_format_code(SampleFormat::Float32Be) == 6,
        sample_format_code(SampleFormat::S32Le) == 7,
        sample_format_code(SampleFormat::S32Be) == 8,
        sample_format_code(SampleFormat::S24Le) == 9,
        sample_format_code(SampleFormat::S24Be) == 10,
        sample_format_code(SampleFormat::S24In32Le) == 11,
        sample_format_code(SampleFormat::S24In32Be) == 12,
        sample_format_of_code(0) == Some(SampleFormat::U8),
        sample_format_of_code(1) == Some(SampleFormat::ALaw),
        sample_format_of_code(2) == Some(SampleFormat::ULaw),
        sample_format_of_code(3) == Some(SampleFormat::S16Le),
        sample_format_of_code(4) == Some(SampleFormat::S16Be),
        sample_format_of_code(5) == Some(SampleFormat::Float32Le),
        sample_format_of_code(6) == Some(SampleFormat::Float32Be),
        sample_format_of_code(7) == Some(SampleFormat::S32Le),
        sample_format_of_code(8) == Some(SampleFormat::S32Be),
        sample_format_of_code(9) == Some(SampleFormat::S24Le),
        sample_format_of_code(10) == Some(SampleFormat::S24Be),
        sample_format_of_code(11) == Some(SampleFormat::S24In32Le),
        sample_format_of_code(12) == Some(SampleFormat::S24In32Be),
{
}


/// The values a [`SampleSpec`] is sent as, position by position: whatever a read
/// gives from the values `vs` holds each field from its own position.
pub proof fn lemma_sample_spec_layout(q: SampleSpec, vs: Seq<TagValue>, protocol_version: u16)
    requires
        q.spec_values(protocol_version) == vs,
    ensures
        vs == (
            seq![sample_spec_value(q)]
        ),
{
}

} // verus!
