//! The format of a stream that may carry compressed audio: its encoding,
//! and properties that describe it further.

use vstd::prelude::*;

use super::super::error::ProtocolError;
use super::fields::{lemma_parse_value_len, lemma_parse_values_1, lemma_values_bytes_1};
use super::props::Props;
use super::wire::{
    TAG_FORMAT_INFO, TAG_U8, TagValue, props_wf, lemma_parse_format_info, lemma_parse_values_bytes,
    parse_value, parse_values, value_bytes,
};
use super::{Tag, TagStructRead, TagStructReader, TagStructWrite, TagStructWriter};

verus! {

/// The encoding of the audio of a stream.
#[derive(Debug, Copy, Clone, PartialEq, Eq, Structural)]
pub enum FormatEncoding {
    /// Any encoding: the format can be anything.
    Any,
    /// Plain PCM samples.
    Pcm,
    /// AC3 data in IEC 61937 frames.
    Ac3Iec61937,
    /// E-AC3 data in IEC 61937 frames.
    Eac3Iec61937,
    /// MPEG-1 or MPEG-2 (Part 3, not AAC) data in IEC 61937 frames.
    MpegIec61937,
    /// DTS data in IEC 61937 frames.
    DtsIec61937,
    /// MPEG-2 AAC data in IEC 61937 frames.
    Mpeg2AacIec61937,
    /// Dolby TrueHD data in IEC 61937 frames.
    TruehdIec61937,
    /// DTS-HD data in IEC 61937 frames.
    DtshdIec61937,
}

/// The number that stands for an encoding on the wire.
pub open spec fn encoding_code(e: FormatEncoding) -> u8 {
    match e {
        FormatEncoding::Any => 0,
        FormatEncoding::Pcm => 1,
        FormatEncoding::Ac3Iec61937 => 2,
        FormatEncoding::Eac3Iec61937 => 3,
        FormatEncoding::MpegIec61937 => 4,
        FormatEncoding::DtsIec61937 => 5,
        FormatEncoding::Mpeg2AacIec61937 => 6,
        FormatEncoding::TruehdIec61937 => 7,
        FormatEncoding::DtshdIec61937 => 8,
    }
}

/// The encoding a number stands for, if any.
pub open spec fn encoding_of_code(v: u8) -> Option<FormatEncoding> {
    if v == 0 {
        Some(FormatEncoding::Any)
    } else if v == 1 {
        Some(FormatEncoding::Pcm)
    } else if v == 2 {
        Some(FormatEncoding::Ac3Iec61937)
    } else if v == 3 {
        Some(FormatEncoding::Eac3Iec61937)
    } else if v == 4 {
        Some(FormatEncoding::MpegIec61937)
    } else if v == 5 {
        Some(FormatEncoding::DtsIec61937)
    } else if v == 6 {
        Some(FormatEncoding::Mpeg2AacIec61937)
    } else if v == 7 {
        Some(FormatEncoding::TruehdIec61937)
    } else if v == 8 {
        Some(FormatEncoding::DtshdIec61937)
    } else {
        None
    }
}

/// Each encoding's number stands for that encoding.
pub proof fn lemma_encoding_roundtrip(e: FormatEncoding)
    ensures
        encoding_of_code(encoding_code(e)) == Some(e),
{
}

impl FormatEncoding {
    /// The number that stands for the encoding on the wire.
    pub fn to_u8(self) -> (r: u8)
        ensures
            r == encoding_code(self),
    {
        match self {
            FormatEncoding::Any => 0,
            FormatEncoding::Pcm => 1,
            FormatEncoding::Ac3Iec61937 => 2,
            FormatEncoding::Eac3Iec61937 => 3,
            FormatEncoding::MpegIec61937 => 4,
            FormatEncoding::DtsIec61937 => 5,
            FormatEncoding::Mpeg2AacIec61937 => 6,
            FormatEncoding::TruehdIec61937 => 7,
            FormatEncoding::DtshdIec61937 => 8,
        }
    }

    /// The encoding a number stands for, or `None` for a number that
    /// stands for no encoding.
    pub fn from_u8(v: u8) -> (r: Option<FormatEncoding>)
        ensures
            r == encoding_of_code(v),
    {
        if v == 0 {
            Some(FormatEncoding::Any)
        } else if v == 1 {
            Some(FormatEncoding::Pcm)
        } else if v == 2 {
            Some(FormatEncoding::Ac3Iec61937)
        } else if v == 3 {
            Some(FormatEncoding::Eac3Iec61937)
        } else if v == 4 {
            Some(FormatEncoding::MpegIec61937)
        } else if v == 5 {
            Some(FormatEncoding::DtsIec61937)
        } else if v == 6 {
            Some(FormatEncoding::Mpeg2AacIec61937)
        } else if v == 7 {
            Some(FormatEncoding::TruehdIec61937)
        } else if v == 8 {
            Some(FormatEncoding::DtshdIec61937)
        } else {
            None
        }
    }
}

/// The format of a stream: an encoding, and properties that describe it.
#[derive(Debug, Clone, PartialEq, Eq)]
pub struct FormatInfo {
    /// The encoding.
    pub encoding: FormatEncoding,
    /// Properties of the format, such as its sample rate or channels.
    pub props: Props,
}

impl FormatInfo {
    /// A format with the given encoding and no properties.
    pub fn new(encoding: FormatEncoding) -> (r: FormatInfo)
        ensures
            r.encoding == encoding,
            r.props@ == Seq::<(Seq<u8>, Seq<u8>)>::empty(),
    {
        FormatInfo { encoding, props: Props::new() }
    }
}

/// The tagged value that stands for a format.
pub open spec fn format_info_value(f: FormatInfo) -> TagValue {
    TagValue::FormatInfo(encoding_code(f.encoding), f.props@)
}

impl TagStructReader<'_> {
    /// Reads a format: its tag, its encoding as a byte, then its properties.
    /// A number that stands for no encoding is refused.
    pub fn read_format_info(&mut self) -> (r: Result<FormatInfo, ProtocolError>)
        ensures
            final(self).version() == old(self).version(),
            match parse_value(old(self).rest()) {
                Some((TagValue::FormatInfo(e, ps), n)) => match encoding_of_code(e) {
                    Some(encoding) => (r matches Ok(f) && f.encoding == encoding && f.props@ == ps)
                        && final(self).rest() == old(self).rest().skip(n),
                    None => r matches Err(err) && err.is_invalid(),
                },
                _ => r is Err,
            },
    {
        let ghost s = self.rest();
        proof {
            lemma_parse_format_info(s);
        }
        self.expect_tag(Tag::FormatInfo)?;
        let e = self.read_u8()?;
        proof {
            assert(self.rest() =~= s.skip(3));
        }
        let props = self.read_props()?;
        proof {
            lemma_parse_value_len(s);
            lemma_parse_value_len(s.skip(3));
            if let Some((TagValue::FormatInfo(_, _), n)) = parse_value(s) {
                assert(s.skip(3).skip(n - 3) =~= s.skip(n));
                assert(self.rest() =~= s.skip(n));
            }
        }
        match FormatEncoding::from_u8(e) {
            Some(encoding) => Ok(FormatInfo { encoding, props }),
            None => Err(ProtocolError::Invalid("invalid format encoding".to_owned())),
        }
    }
}

impl TagStructWriter {
    /// Writes a format.
    pub fn write_format_info(&mut self, f: &FormatInfo) -> (r: Result<(), ProtocolError>)
        ensures
            r == Ok::<(), ProtocolError>(()),
            final(self).bytes() == old(self).bytes() + value_bytes(format_info_value(*f)),
            final(self).version() == old(self).version(),
    {
        self.push_byte(TAG_FORMAT_INFO);
        self.push_byte(TAG_U8);
        self.push_byte(f.encoding.to_u8());
        let ghost mid = self.bytes();
        self.write_props(&f.props)?;
        assert(self.bytes() =~= old(self).bytes() + value_bytes(format_info_value(*f)));
        Ok(())
    }
}

impl TagStructWrite for FormatInfo {
    open spec fn spec_values(&self, protocol_version: u16) -> Seq<TagValue> {
        seq![format_info_value(*self)]
    }

    open spec fn spec_writable(&self) -> bool {
        true
    }

    fn write(&self, w: &mut TagStructWriter, _protocol_version: u16) -> (r: Result<(), ProtocolError>) {
        w.write_format_info(self)?;
        proof {
            lemma_values_bytes_1(format_info_value(*self));
        }
        Ok(())
    }
}

impl TagStructRead for FormatInfo {
    open spec fn spec_parse(s: Seq<u8>, protocol_version: u16) -> Option<(Seq<TagValue>, int)> {
        match parse_values(s, 1) {
            Some((vs, n)) => match vs[0] {
                TagValue::FormatInfo(e, _) => if encoding_of_code(e) is Some {
                    Some((vs, n))
                } else {
                    None
                },
                _ => None,
            },
            None => None,
        }
    }

    open spec fn spec_canonical(&self, protocol_version: u16) -> bool {
        true
    }

    open spec fn spec_encodable(&self, protocol_version: u16) -> bool {
        props_wf(self.props@)
    }

    fn read(ts: &mut TagStructReader, _protocol_version: u16) -> (r: Result<Self, ProtocolError>) {
        proof {
            lemma_parse_values_1(ts.rest());
            lemma_parse_value_len(ts.rest());
        }
        let f = ts.read_format_info()?;
        Ok(f)
    }

    proof fn lemma_roundtrip(&self, protocol_version: u16, rest: Seq<u8>) {
        lemma_encoding_roundtrip(self.encoding);
        lemma_parse_values_bytes(self.spec_values(protocol_version), rest);
    }
}


/// The numbers that stand for the format encodings on the wire, as the PulseAudio protocol
/// assigns them, in both directions.
pub proof fn lemma_encoding_table()
    ensures
        encoding_code(FormatEncoding::Any) == 0,
        encoding_code(FormatEncoding::Pcm) == 1,
        encoding_code(FormatEncoding::Ac3Iec61937) == 2,
        encoding_code(FormatEncoding::Eac3Iec61937) == 3,
        encoding_code(FormatEncoding::MpegIec61937) == 4,
        encoding_code(FormatEncoding::DtsIec61937) == 5,
        encoding_code(FormatEncoding::Mpeg2AacIec61937) == 6,
        encoding_code(FormatEncoding::TruehdIec61937) == 7,
        encoding_code(FormatEncoding::DtshdIec61937) == 8,
        encoding_of_code(0) == Some(FormatEncoding::Any),
        encoding_of_code(1) == Some(FormatEncoding::Pcm),
        encoding_of_code(2) == Some(FormatEncoding::Ac3Iec61937),
        encoding_of_code(3) == Some(FormatEncoding::Eac3Iec61937),
        encoding_of_code(4) == Some(FormatEncoding::MpegIec61937),
        encoding_of_code(5) == Some(FormatEncoding::DtsIec61937),
        encoding_of_code(6) == Some(FormatEncoding::Mpeg2AacIec61937),
        encoding_of_code(7) == Some(FormatEncoding::TruehdIec61937),
        encoding_of_code(8) == Some(FormatEncoding::DtshdIec61937),
{
}


/// The values a [`FormatInfo`] is sent as, position by position: whatever a read
/// gives from the values `vs` holds each field from its own position.
pub proof fn lemma_format_info_layout(q: FormatInfo, vs: Seq<TagValue>, protocol_version: u16)
    requires
        q.spec_values(protocol_version) == vs,
    ensures
        vs == (
            seq![format_info_value(q)]
        ),
{
}

} // verus!
