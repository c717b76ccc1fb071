//! Volumes, for a single channel and for each channel of a stream or device.

use vstd::prelude::*;

use super::super::error::{IoErrorKind, ProtocolError};
use super::fields::{lemma_parse_value_len, lemma_parse_values_1, lemma_values_bytes_1};
use super::wire::{
    CHANNELS_MAX, TAG_CVOLUME, TAG_VOLUME, TagValue, be_u32_at, lemma_parse_values_bytes,
    parse_scalar, parse_value, parse_values, u32s_be, value_bytes,
};
use super::{
    Tag, TagStructRead, TagStructReader, TagStructWrite, TagStructWriter, tagged_read_error,
};

verus! {

/// Volume specification for a single channel, on PulseAudio's scale where
/// [`Volume::NORM`] is 100% and [`Volume::MUTED`] is silence.
#[derive(Debug, Clone, Copy, PartialEq, Eq)]
pub struct Volume(u32);

impl View for Volume {
    type V = u32;

    closed spec fn view(&self) -> u32 {
        self.0
    }
}

/// The raw value of a muted volume.
pub const VOLUME_MUTED: u32 = 0;
/// The raw value of the normal, unamplified volume.
pub const VOLUME_NORM: u32 = 0x10000;
/// The largest raw volume PulseAudio accepts.
pub const VOLUME_MAX: u32 = 0x7fffffff;

impl Volume {
    /// A muted volume.
    pub fn muted() -> (r: Volume)
        ensures
            r@ == VOLUME_MUTED,
    {
        Volume(VOLUME_MUTED)
    }

    /// The normal volume (100%).
    pub fn norm() -> (r: Volume)
        ensures
            r@ == VOLUME_NORM,
    {
        Volume(VOLUME_NORM)
    }

    /// A volume from its raw value, clamped to [`VOLUME_MAX`].
    pub fn from_u32_clamped(v: u32) -> (r: Volume)
        ensures
            r@ == if v > VOLUME_MAX { VOLUME_MAX } else { v },
    {
        if v > VOLUME_MAX {
            Volume(VOLUME_MAX)
        } else {
            Volume(v)
        }
    }

    /// The raw value of the volume.
    pub fn as_u32(&self) -> (r: u32)
        ensures
            r == self@,
    {
        self.0
    }

    /// Whether the volume is muted.
    pub fn is_muted(&self) -> (r: bool)
        ensures
            r == (self@ == VOLUME_MUTED),
    {
        self.0 == VOLUME_MUTED
    }
}

impl<'a> TagStructReader<'a> {
    /// Reads a single volume.
    pub fn read_volume(&mut self) -> (r: Result<Volume, ProtocolError>)
        ensures
            final(self).version() == old(self).version(),
            match parse_value(old(self).rest()) {
                Some((TagValue::Volume(v), n)) => (r matches Ok(x) && x@ == v) && final(self).rest()
                    == old(self).rest().skip(n),
                _ => r matches Err(e) && tagged_read_error(old(self).rest(), TAG_VOLUME, e),
            },
    {
        let ghost s = self.rest();
        proof {
            reveal(parse_scalar);
        }
        self.expect_tag(Tag::Volume)?;
        match self.take_u32() {
            Some(v) => {
                assert(be_u32_at(s.skip(1), 0) == be_u32_at(s, 1));
                assert(s.skip(1).skip(4) =~= s.skip(5));
                Ok(Volume(v))
            },
            None => Err(ProtocolError::Io(IoErrorKind::UnexpectedEof)),
        }
    }
}

impl TagStructWriter {
    /// Writes a single volume.
    pub fn write_volume(&mut self, volume: Volume) -> (r: Result<(), ProtocolError>)
        ensures
            r == Ok::<(), ProtocolError>(()),
            final(self).bytes() == old(self).bytes() + value_bytes(TagValue::Volume(volume@)),
            final(self).version() == old(self).version(),
    {
        self.push_byte(TAG_VOLUME);
        self.push_u32(volume.0);
        assert(self.bytes() =~= old(self).bytes() + value_bytes(TagValue::Volume(volume@)));
        Ok(())
    }
}

impl TagStructWrite for Volume {
    open spec fn spec_values(&self, protocol_version: u16) -> Seq<TagValue> {
        seq![TagValue::Volume(self@)]
    }

    open spec fn spec_writable(&self) -> bool {
        true
    }

    fn write(&self, w: &mut TagStructWriter, _protocol_version: u16) -> (r: Result<(), ProtocolError>) {
        w.write_volume(*self)?;
        proof {
            lemma_values_bytes_1(TagValue::Volume(self@));
        }
        Ok(())
    }
}

impl TagStructRead for Volume {
    open spec fn spec_parse(s: Seq<u8>, protocol_version: u16) -> Option<(Seq<TagValue>, int)> {
        match parse_values(s, 1) {
            Some((vs, n)) => if vs[0] is Volume {
                Some((vs, n))
            } else {
                None
            },
            None => None,
        }
    }

    open spec fn spec_canonical(&self, protocol_version: u16) -> bool {
        true
    }

    open spec fn spec_encodable(&self, protocol_version: u16) -> bool {
        true
    }

    fn read(ts: &mut TagStructReader, _protocol_version: u16) -> (r: Result<Self, ProtocolError>) {
        proof {
            lemma_parse_values_1(ts.rest());
            lemma_parse_value_len(ts.rest());
        }
        let v = ts.read_volume()?;
        Ok(v)
    }

    proof fn lemma_roundtrip(&self, protocol_version: u16, rest: Seq<u8>) {
        lemma_parse_values_bytes(self.spec_values(protocol_version), rest);
    }
}

/// Per-channel volume setting: one volume for each of up to
/// [`CHANNELS_MAX`] channels.
#[derive(Debug, Clone, Copy, PartialEq, Eq)]
pub struct ChannelVolume {
    channels: u8,
    volumes: [Volume; 32],
}

impl View for ChannelVolume {
    type V = Seq<u32>;

    closed spec fn view(&self) -> Seq<u32> {
        Seq::new(self.channels as nat, |i: int| self.volumes@[i]@)
    }
}

impl Default for ChannelVolume {
    fn default() -> (r: Self)
        ensures
            r@ == Seq::<u32>::empty(),
    {
        ChannelVolume::empty()
    }
}

impl ChannelVolume {
    /// At most [`CHANNELS_MAX`] channels, and the slots of absent channels
    /// hold muted volumes, so that equal volumes are equal values.
    #[verifier::type_invariant]
    spec fn inv(self) -> bool {
        &&& self.channels <= CHANNELS_MAX
        &&& forall|i: int| self.channels <= i < CHANNELS_MAX ==> #[trigger] self.volumes@[i]@ == VOLUME_MUTED
    }

    /// A volume for no channels.
    pub fn empty() -> (r: Self)
        ensures
            r@ == Seq::<u32>::empty(),
    {
        let r = ChannelVolume::uniform(0, Volume(VOLUME_MUTED));
        assert(r@ =~= Seq::<u32>::empty());
        r
    }

    /// The same volume for each of `channels` channels.
    pub fn uniform(channels: u8, volume: Volume) -> (r: Self)
        requires
            channels <= CHANNELS_MAX,
        ensures
            r@ == Seq::new(channels as nat, |i: int| volume@),
    {
        let muted = Volume(VOLUME_MUTED);
        let mut volumes: [Volume; 32] = vstd::array::array_fill_for_copy_types(muted);
        proof {
            broadcast use vstd::array::axiom_spec_array_fill_for_copy_type;

            assert(forall|j: int| 0 <= j < CHANNELS_MAX ==> #[trigger] volumes@[j]@ == VOLUME_MUTED);
        }
        let mut i: u8 = 0;
        while i < channels
            invariant
                i <= channels <= CHANNELS_MAX,
                volumes@.len() == CHANNELS_MAX,
                forall|j: int| 0 <= j < i ==> #[trigger] volumes@[j] == volume,
                forall|j: int| i <= j < CHANNELS_MAX ==> #[trigger] volumes@[j]@ == VOLUME_MUTED,
            decreases channels - i,
        {
            volumes[i as usize] = volume;
            i = i + 1;
        }
        let r = ChannelVolume { channels, volumes };
        assert(r@ =~= Seq::new(channels as nat, |i: int| volume@));
        r
    }

    /// The normal volume for each of `channels` channels.
    pub fn norm(channels: u8) -> (r: Self)
        requires
            channels <= CHANNELS_MAX,
        ensures
            r@ == Seq::new(channels as nat, |i: int| VOLUME_NORM),
    {
        Self::uniform(channels, Volume::norm())
    }

    /// A muted volume for each of `channels` channels.
    pub fn muted(channels: u8) -> (r: Self)
        requires
            channels <= CHANNELS_MAX,
        ensures
            r@ == Seq::new(channels as nat, |i: int| VOLUME_MUTED),
    {
        Self::uniform(channels, Volume::muted())
    }

    /// Adds a channel with the given volume. Fails, changing nothing, when
    /// every channel is taken.
    pub fn push(&mut self, volume: Volume) -> (r: bool)
        ensures
            r == (old(self)@.len() < CHANNELS_MAX),
            r ==> final(self)@ == old(self)@.push(volume@),
            !r ==> final(self)@ == old(self)@,
    {
        proof {
            use_type_invariant(&*self);
        }
        if self.channels < CHANNELS_MAX {
            let n = self.channels;
            let mut volumes = self.volumes;
            volumes[n as usize] = volume;
            *self = ChannelVolume { channels: n + 1, volumes };
            assert(self@ =~= old(self)@.push(volume@));
            true
        } else {
            false
        }
    }

    /// The number of channels.
    pub fn len(&self) -> (r: u8)
        ensures
            r == self@.len(),
            r <= CHANNELS_MAX,
    {
        proof {
            use_type_invariant(self);
        }
        self.channels
    }

    /// The volume of channel `i`.
    pub fn get(&self, i: u8) -> (r: Option<Volume>)
        ensures
            r is Some <==> i < self@.len(),
            r matches Some(v) ==> v@ == self@[i as int],
    {
        proof {
            use_type_invariant(self);
        }
        if i < self.channels {
            Some(self.volumes[i as usize])
        } else {
            None
        }
    }
}

impl<'a> TagStructReader<'a> {
    /// Reads a per-channel volume.
    pub fn read_cvolume(&mut self) -> (r: Result<ChannelVolume, ProtocolError>)
        ensures
            final(self).version() == old(self).version(),
            match parse_value(old(self).rest()) {
                Some((TagValue::CVolume(vs), n)) => (r matches Ok(c) && c@ == vs) && final(self).rest()
                    == old(self).rest().skip(n),
                _ => r is Err,
            },
    {
        let ghost s = self.rest();
        proof {
            reveal(parse_scalar);
        }
        self.expect_tag(Tag::CVolume)?;
        let n = match self.take_byte() {
            Some(n) => n,
            None => {
                return Err(ProtocolError::Io(IoErrorKind::UnexpectedEof));
            },
        };
        if n > CHANNELS_MAX {
            return Err(ProtocolError::Invalid("too many channels in volume".to_owned()));
        }
        assert(parse_value(s) is Some ==> s.len() >= 2 + 4 * n);
        let mut cv = ChannelVolume::empty();
        let mut i: u8 = 0;
        while i < n
            invariant
                s == old(self).rest(),
                parse_value(s) is Some ==> s.len() >= 2 + 4 * n,
                i <= n,
                n <= CHANNELS_MAX,
                s.len() >= 2,
                s[0] == TAG_CVOLUME,
                s[1] == n,
                self.version() == old(self).version(),
                self.rest().len() == s.len() - 2 - 4 * i,
                self.rest() == s.skip(2 + 4 * i),
                cv@.len() == i,
                forall|j: int| 0 <= j < i ==> cv@[j] == be_u32_at(s, 2 + 4 * j),
            decreases n - i,
        {
            let ghost r0 = self.rest();
            let v = match self.take_u32() {
                Some(v) => v,
                None => {
                    return Err(ProtocolError::Io(IoErrorKind::UnexpectedEof));
                },
            };
            assert(be_u32_at(r0, 0) == be_u32_at(s, 2 + 4 * i));
            assert(r0.skip(4) =~= s.skip(2 + 4 * (i + 1)));
            cv.push(Volume(v));
            i = i + 1;
        }
        assert(cv@ =~= Seq::new(n as nat, |j: int| be_u32_at(s, 2 + 4 * j)));
        Ok(cv)
    }
}

impl TagStructWriter {
    /// Writes a per-channel volume.
    pub fn write_cvolume(&mut self, cv: &ChannelVolume) -> (r: Result<(), ProtocolError>)
        ensures
            r == Ok::<(), ProtocolError>(()),
            final(self).bytes() == old(self).bytes() + value_bytes(TagValue::CVolume(cv@)),
            final(self).version() == old(self).version(),
    {
        proof {
            use_type_invariant(cv);
        }
        self.push_byte(TAG_CVOLUME);
        self.push_byte(cv.channels);
        let mut i: u8 = 0;
        while i < cv.channels
            invariant
                i <= cv.channels,
                cv.channels <= CHANNELS_MAX,
                self.version() == old(self).version(),
                self.bytes() == old(self).bytes() + seq![TAG_CVOLUME, cv.channels] + u32s_be(
                    cv@.take(i as int),
                ),
            decreases cv.channels - i,
        {
            let v = cv.volumes[i as usize].as_u32();
            self.push_u32(v);
            proof {
                super::wire::lemma_u32s_be_push(cv@.take(i as int), v);
                assert(cv@.take(i as int).push(v) =~= cv@.take(i + 1));
            }
            i = i + 1;
        }
        assert(cv@.take(i as int) =~= cv@);
        assert(self.bytes() =~= old(self).bytes() + value_bytes(TagValue::CVolume(cv@)));
        Ok(())
    }
}

impl TagStructWrite for ChannelVolume {
    open spec fn spec_values(&self, protocol_version: u16) -> Seq<TagValue> {
        seq![TagValue::CVolume(self@)]
    }

    open spec fn spec_writable(&self) -> bool {
        true
    }

    fn write(&self, w: &mut TagStructWriter, _protocol_version: u16) -> (r: Result<(), ProtocolError>) {
        w.write_cvolume(self)?;
        proof {
            lemma_values_bytes_1(TagValue::CVolume(self@));
        }
        Ok(())
    }
}

impl TagStructRead for ChannelVolume {
    open spec fn spec_parse(s: Seq<u8>, protocol_version: u16) -> Option<(Seq<TagValue>, int)> {
        match parse_values(s, 1) {
            Some((vs, n)) => if vs[0] is CVolume {
                Some((vs, n))
            } else {
                None
            },
            None => None,
        }
    }

    open spec fn spec_canonical(&self, protocol_version: u16) -> bool {
        true
    }

    open spec fn spec_encodable(&self, protocol_version: u16) -> bool {
        self@.len() <= CHANNELS_MAX
    }

    fn read(ts: &mut TagStructReader, _protocol_version: u16) -> (r: Result<Self, ProtocolError>) {
        proof {
            lemma_parse_values_1(ts.rest());
            lemma_parse_value_len(ts.rest());
        }
        let cv = ts.read_cvolume()?;
        Ok(cv)
    }

    proof fn lemma_roundtrip(&self, protocol_version: u16, rest: Seq<u8>) {
        lemma_parse_values_bytes(self.spec_values(protocol_version), rest);
    }
}


/// The values a [`Volume`] is sent as, position by position: whatever a read
/// gives from the values `vs` holds each field from its own position.
pub proof fn lemma_volume_layout(q: Volume, vs: Seq<TagValue>, protocol_version: u16)
    requires
        q.spec_values(protocol_version) == vs,
    ensures
        vs == (
            seq![TagValue::Volume(q@)]
        ),
{
}

/// The values a [`ChannelVolume`] is sent as, position by position: whatever a read
/// gives from the values `vs` holds each field from its own position.
pub proof fn lemma_channel_volume_layout(q: ChannelVolume, vs: Seq<TagValue>, protocol_version: u16)
    requires
        q.spec_values(protocol_version) == vs,
    ensures
        vs == (
            seq![TagValue::CVolume(q@)]
        ),
{
}

} // verus!
