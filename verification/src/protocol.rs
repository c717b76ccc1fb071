//! The PulseAudio native protocol: tagstructs, commands, and message framing.
//!
//! A message on the wire is a packet descriptor of five big-endian `u32`
//! words (the payload length, the channel, the offset as two words, and
//! flags), followed by the payload. The payload of a command message is a
//! tagstruct: the command tag, the sequence number, and the command's own
//! values.

pub mod error;
pub mod paths;
pub mod serde;
pub mod stream;
pub mod command;

use vstd::prelude::*;

use command::{
    Command, CommandParse, CommandReply, CommandTag, command_tag_of_code, command_values,
    command_writable, lemma_command_roundtrip, parse_command,
};
use command::subscribe::SubscriptionEvent;
use error::{IoErrorKind, ProtocolError, PulseError, pulse_error_from_code};
use serde::wire::{
    TagValue, be_u32_at, be_u64_at, lemma_be_u32_at, lemma_be_u64_at, lemma_parse_values_done,
    lemma_parse_values_next, lemma_parse_values_start, parse_value, parse_values, u32_be, u64_be,
    values_bytes,
};
use serde::{TagStructRead, TagStructReader, TagStructWrite};

verus! {

/// Minimum protocol version understood by the library.
pub const PROTOCOL_MIN_VERSION: u16 = 13;

/// PulseAudio protocol version implemented by this library.
///
/// This library can still work with clients and servers down to
/// `PROTOCOL_MIN_VERSION` and up to any higher version, but features added by
/// versions higher than this are not supported.
pub const PROTOCOL_VERSION: u16 = 32;

/// The lowest protocol version that values are encoded for.
pub const MIN_VERSION: u16 = PROTOCOL_MIN_VERSION;

/// The highest protocol version that values are encoded for.
pub const MAX_VERSION: u16 = PROTOCOL_VERSION;

/// The size of a packet descriptor in bytes.
pub const DESCRIPTOR_SIZE: usize = 20;

/// The channel of a control packet, such as a command message.
pub const CONTROL_CHANNEL: u32 = u32::MAX;

/// The flag bits that a descriptor keeps.
pub const DESCRIPTOR_FLAGS_MASK: u32 = 0xC0000000;

/// Special message types.
#[derive(Debug, Default, Clone, Copy, PartialEq, Eq)]
pub struct DescriptorFlags {
    /// The flag bits.
    pub bits: u32,
}

impl View for DescriptorFlags {
    type V = u32;

    open spec fn view(&self) -> u32 {
        self.bits
    }
}

impl DescriptorFlags {
    /// Marks a packet that releases a shared memory block.
    pub const FLAG_SHMRELEASE: u32 = 0x40000000;
    /// Marks a packet that revokes a shared memory block.
    pub const FLAG_SHMREVOKE: u32 = 0xC0000000;

    /// No flag.
    pub fn empty() -> (r: DescriptorFlags)
        ensures
            r@ == 0,
    {
        DescriptorFlags { bits: 0 }
    }

    /// The flags among `bits` that a descriptor keeps; the other bits are
    /// dropped.
    pub fn from_bits_truncate(bits: u32) -> (r: DescriptorFlags)
        ensures
            r@ == bits & DESCRIPTOR_FLAGS_MASK,
    {
        DescriptorFlags { bits: bits & DESCRIPTOR_FLAGS_MASK }
    }

    /// The bits of the flags.
    pub fn bits(&self) -> (r: u32)
        ensures
            r == self@,
    {
        self.bits
    }
}

/// Packet descriptor / header.
#[derive(Debug, Clone, Copy, PartialEq, Eq)]
pub struct Descriptor {
    /// Payload length in bytes.
    pub length: u32,
    /// The channel this packet belongs to, or `u32::MAX` for a control
    /// packet.
    pub channel: u32,
    /// Offset into the memblock, in bytes.
    pub offset: u64,
    /// SHMRELEASE or SHMREVOKE to mark packet as such, or, for memblock
    /// packets, the seek mode in the lowest byte.
    pub flags: DescriptorFlags,
}

/// The twenty bytes of a descriptor.
pub open spec fn descriptor_bytes(d: Descriptor) -> Seq<u8> {
    u32_be(d.length) + u32_be(d.channel) + u64_be(d.offset) + u32_be(d.flags@)
}

/// The descriptor that `s` starts with, or `None` when `s` is shorter than a
/// descriptor. Flag bits that a descriptor does not keep are dropped.
pub open spec fn parse_descriptor(s: Seq<u8>) -> Option<Descriptor> {
    if s.len() >= DESCRIPTOR_SIZE {
        Some(
            Descriptor {
                length: be_u32_at(s, 0),
                channel: be_u32_at(s, 4),
                offset: be_u64_at(s, 8),
                flags: DescriptorFlags { bits: be_u32_at(s, 16) & DESCRIPTOR_FLAGS_MASK },
            },
        )
    } else {
        None
    }
}

/// Whether the flags of a descriptor hold only bits that a descriptor keeps.
pub open spec fn descriptor_wf(d: Descriptor) -> bool {
    d.flags@ & DESCRIPTOR_FLAGS_MASK == d.flags@
}

/// Read a message header from the start of a buffer.
pub fn read_descriptor(r: &[u8]) -> (res: Result<Descriptor, ProtocolError>)
    ensures
        match parse_descriptor(r@) {
            Some(d) => res == Ok::<Descriptor, ProtocolError>(d),
            None => res == Err::<Descriptor, ProtocolError>(
                ProtocolError::Io(IoErrorKind::UnexpectedEof),
            ),
        },
{
    let mut ts = TagStructReader::new(r, PROTOCOL_VERSION);
    let ghost s = r@;
    let length = match ts.take_u32() {
        Some(v) => v,
        None => {
            return Err(ProtocolError::Io(IoErrorKind::UnexpectedEof));
        },
    };
    let channel = match ts.take_u32() {
        Some(v) => v,
        None => {
            return Err(ProtocolError::Io(IoErrorKind::UnexpectedEof));
        },
    };
    let hi = match ts.take_u32() {
        Some(v) => v,
        None => {
            return Err(ProtocolError::Io(IoErrorKind::UnexpectedEof));
        },
    };
    let lo = match ts.take_u32() {
        Some(v) => v,
        None => {
            return Err(ProtocolError::Io(IoErrorKind::UnexpectedEof));
        },
    };
    let flags = match ts.take_u32() {
        Some(v) => v,
        None => {
            return Err(ProtocolError::Io(IoErrorKind::UnexpectedEof));
        },
    };
    assert(be_u32_at(s.skip(4), 0) == be_u32_at(s, 4));
    assert(be_u32_at(s.skip(8), 0) == be_u32_at(s, 8));
    assert(be_u32_at(s.skip(12), 0) == be_u32_at(s, 12));
    assert(be_u32_at(s.skip(16), 0) == be_u32_at(s, 16));
    Ok(
        Descriptor {
            length,
            channel,
            offset: ((hi as u64) << 32u64) | (lo as u64),
            flags: DescriptorFlags::from_bits_truncate(flags),
        },
    )
}

/// Write a message header, appending it to a buffer.
pub fn write_descriptor(w: &mut Vec<u8>, desc: &Descriptor) -> (r: Result<(), ProtocolError>)
    ensures
        r == Ok::<(), ProtocolError>(()),
        final(w)@ == old(w)@ + descriptor_bytes(*desc),
{
    let mut buf: Vec<u8> = Vec::new();
    std::mem::swap(&mut buf, w);
    let mut ts = serde::TagStructWriter::new(buf, PROTOCOL_VERSION);
    ts.push_u32(desc.length);
    ts.push_u32(desc.channel);
    ts.push_u64(desc.offset);
    ts.push_u32(desc.flags.bits);
    *w = ts.into_inner();
    assert(w@ =~= old(w)@ + descriptor_bytes(*desc));
    Ok(())
}

/// A descriptor is read back from its bytes, whatever follows them.
pub proof fn lemma_descriptor_roundtrip(d: Descriptor, rest: Seq<u8>)
    requires
        descriptor_wf(d),
    ensures
        parse_descriptor(descriptor_bytes(d) + rest) == Some(d),
{
    let s = descriptor_bytes(d) + rest;
    assert(s.subrange(0, 4) =~= u32_be(d.length));
    assert(s.subrange(4, 8) =~= u32_be(d.channel));
    assert(s.subrange(8, 16) =~= u64_be(d.offset));
    assert(s.subrange(16, 20) =~= u32_be(d.flags@));
    lemma_be_u32_at(s, 0, d.length);
    lemma_be_u32_at(s, 4, d.channel);
    lemma_be_u64_at(s, 8, d.offset);
    lemma_be_u32_at(s, 16, d.flags@);
}

/// The descriptor of a command message whose payload takes `length` bytes.
pub open spec fn command_descriptor(length: u32) -> Descriptor {
    Descriptor { length, channel: CONTROL_CHANNEL, offset: 0, flags: DescriptorFlags { bits: 0 } }
}

/// The bytes of the payload of a packet: those after its descriptor, up to
/// its length or to the end of `s`, whichever comes first.
pub open spec fn frame_payload(s: Seq<u8>, d: Descriptor) -> Seq<u8> {
    let end = if s.len() < DESCRIPTOR_SIZE + d.length {
        s.len() as int
    } else {
        DESCRIPTOR_SIZE + d.length
    };
    s.subrange(DESCRIPTOR_SIZE as int, end)
}

/// The bytes of a command message: its descriptor, then its payload.
pub open spec fn command_message_bytes(c: Command, seq: u32, protocol_version: u16) -> Seq<u8> {
    let payload = values_bytes(command_values(c, seq, protocol_version));
    descriptor_bytes(command_descriptor(payload.len() as u32)) + payload
}

/// Writes a command message, appending it to a buffer, and returns the
/// number of bytes written. Fails, leaving the buffer as it was, when the
/// payload is longer than a descriptor can tell.
pub fn encode_command_message(command: &Command, seq: u32, buf: &mut Vec<u8>, protocol_version: u16) -> (r: Result<usize, ProtocolError>)
    requires
        command_writable(*command),
    ensures
        values_bytes(command_values(*command, seq, protocol_version)).len() <= u32::MAX ==> (r
            == Ok::<usize, ProtocolError>(
            command_message_bytes(*command, seq, protocol_version).len() as usize,
        ) && final(buf)@ == old(buf)@ + command_message_bytes(*command, seq, protocol_version)),
        values_bytes(command_values(*command, seq, protocol_version)).len() > u32::MAX ==> (r matches Err(
            e,
        ) && e is Invalid && final(buf)@ == old(buf)@),
{
    let mut payload: Vec<u8> = Vec::new();
    command.write_tag_prefixed(seq, &mut payload, protocol_version)?;
    if payload.len() > u32::MAX as usize {
        return Err(ProtocolError::Invalid("message payload greater than 4gb".to_owned()));
    }
    let desc = Descriptor {
        length: payload.len() as u32,
        channel: CONTROL_CHANNEL,
        offset: 0,
        flags: DescriptorFlags::empty(),
    };
    let start = buf.len();
    write_descriptor(buf, &desc)?;
    let mut i: usize = 0;
    while i < payload.len()
        invariant
            start == old(buf)@.len(),
            i <= payload@.len(),
            buf@ == old(buf)@ + descriptor_bytes(desc) + payload@.subrange(0, i as int),
        decreases payload@.len() - i,
    {
        buf.push(payload[i]);
        i = i + 1;
        assert(buf@ =~= old(buf)@ + descriptor_bytes(desc) + payload@.subrange(0, i as int));
    }
    assert(payload@.subrange(0, i as int) =~= payload@);
    assert(buf@ =~= old(buf)@ + command_message_bytes(*command, seq, protocol_version));
    Ok(buf.len() - start)
}

/// A command message is read back from its bytes: its descriptor gives the
/// length of its payload, and the payload gives the command. Anything may
/// follow the message.
pub proof fn lemma_message_roundtrip(c: Command, seq: u32, protocol_version: u16, rest: Seq<u8>)
    requires
        command::command_encodable(c, protocol_version),
        !command::command_unimplemented(command::command_tag(c)),
        values_bytes(command_values(c, seq, protocol_version)).len() <= u32::MAX,
    ensures
        parse_descriptor(command_message_bytes(c, seq, protocol_version) + rest) == Some(
            command_descriptor(values_bytes(command_values(c, seq, protocol_version)).len() as u32),
        ),
        parse_command(
            frame_payload(
                command_message_bytes(c, seq, protocol_version) + rest,
                command_descriptor(values_bytes(command_values(c, seq, protocol_version)).len() as u32),
            ),
            protocol_version,
        ) == match c {
            Command::Error(e) => CommandParse::ServerError(seq, e),
            Command::Timeout => CommandParse::Timeout,
            _ => CommandParse::Message(
                seq,
                command::command_tag(c),
                command::command_payload(c, protocol_version),
            ),
        },
{
    let payload = values_bytes(command_values(c, seq, protocol_version));
    let d = command_descriptor(payload.len() as u32);
    let s = command_message_bytes(c, seq, protocol_version) + rest;
    assert(d.flags@ == 0);
    assert(0u32 & DESCRIPTOR_FLAGS_MASK == 0u32) by (bit_vector);
    assert(s =~= descriptor_bytes(d) + (payload + rest));
    lemma_descriptor_roundtrip(d, payload + rest);
    assert(frame_payload(s, d) =~= payload);
    lemma_command_roundtrip(c, seq, protocol_version, Seq::empty());
    assert(payload + Seq::<u8>::empty() =~= payload);
}

/// The bytes of a reply message: a descriptor, then the reply tag, the
/// sequence number of the command replied to, and the values of the reply.
pub open spec fn reply_message_bytes(vs: Seq<TagValue>, seq: u32) -> Seq<u8> {
    let payload = values_bytes(
        seq![TagValue::U32(command::command_tag_code(CommandTag::Reply)), TagValue::U32(seq)] + vs,
    );
    descriptor_bytes(command_descriptor(payload.len() as u32)) + payload
}

/// A reply is read back from the message that carries it: the descriptor
/// frames the payload, the payload starts with the reply tag and the
/// sequence number, and the rest gives the reply's values. Anything may
/// follow the message.
pub proof fn lemma_reply_roundtrip<T: TagStructRead>(v: T, seq: u32, rest: Seq<u8>)
    requires
        v.spec_encodable(PROTOCOL_VERSION),
        values_bytes(
            seq![TagValue::U32(command::command_tag_code(CommandTag::Reply)), TagValue::U32(seq)]
                + v.spec_values(PROTOCOL_VERSION),
        ).len() <= u32::MAX,
    ensures
        ({
            let m = reply_message_bytes(v.spec_values(PROTOCOL_VERSION), seq) + rest;
            &&& parse_descriptor(m) matches Some(d)
            &&& parse_message_header(frame_payload(m, d)) matches Some((tag, q, n))
            &&& tag == CommandTag::Reply
            &&& q == seq
            &&& T::spec_parse(frame_payload(m, d).skip(n), PROTOCOL_VERSION) == Some(
                (
                    v.spec_values(PROTOCOL_VERSION),
                    values_bytes(v.spec_values(PROTOCOL_VERSION)).len() as int,
                ),
            )
        }),
{
    let vs = v.spec_values(PROTOCOL_VERSION);
    let hdr = seq![TagValue::U32(command::command_tag_code(CommandTag::Reply)), TagValue::U32(seq)];
    let payload = values_bytes(hdr + vs);
    let d = command_descriptor(payload.len() as u32);
    let m = reply_message_bytes(vs, seq) + rest;
    assert(d.flags@ == 0);
    assert(0u32 & DESCRIPTOR_FLAGS_MASK == 0u32) by (bit_vector);
    assert(m =~= descriptor_bytes(d) + (payload + rest));
    lemma_descriptor_roundtrip(d, payload + rest);
    assert(frame_payload(m, d) =~= payload);
    serde::wire::lemma_values_bytes_concat(hdr, vs);
    assert(payload =~= values_bytes(hdr) + values_bytes(vs));
    serde::wire::lemma_parse_values_bytes(hdr, values_bytes(vs));
    command::lemma_command_tag_roundtrip(CommandTag::Reply);
    assert(payload.skip(values_bytes(hdr).len() as int) =~= values_bytes(vs));
    v.lemma_roundtrip(PROTOCOL_VERSION, Seq::empty());
    assert(values_bytes(vs) + Seq::<u8>::empty() =~= values_bytes(vs));
}

/// The command tag, the sequence number, and the number of bytes they
/// take, that a command payload starts with.
pub open spec fn parse_message_header(p: Seq<u8>) -> Option<(CommandTag, u32, int)> {
    match parse_values(p, 2) {
        Some((vs, n)) => match (vs[0], vs[1]) {
            (TagValue::U32(code), TagValue::U32(seq)) => match command_tag_of_code(code) {
                Some(tag) => Some((tag, seq, n)),
                None => None,
            },
            _ => None,
        },
        None => None,
    }
}

/// The error code of an error reply that `t` starts with.
pub open spec fn parse_error_code(t: Seq<u8>) -> Option<PulseError> {
    match parse_value(t) {
        Some((TagValue::U32(e), _)) => pulse_error_from_code(e),
        _ => None,
    }
}

/// Reads the descriptor of a message, then the command tag and the sequence
/// number of its payload; returns them, with a reader over the rest of the
/// payload.
fn read_message_header<'a>(r: &'a [u8]) -> (res: Result<(CommandTag, u32, TagStructReader<'a>), ProtocolError>)
    ensures
        match parse_descriptor(r@) {
            None => res is Err,
            Some(d) => match parse_message_header(frame_payload(r@, d)) {
                None => res is Err,
                Some((tag, seq, n)) => res matches Ok((t, q, ts)) && t == tag && q == seq
                    && ts.rest() == frame_payload(r@, d).skip(n) && ts.version() == PROTOCOL_VERSION,
            },
        },
{
    let desc = read_descriptor(r)?;
    let end: usize = if r.len() - DESCRIPTOR_SIZE < desc.length as usize {
        r.len()
    } else {
        DESCRIPTOR_SIZE + desc.length as usize
    };
    let payload = vstd::slice::slice_subrange(r, DESCRIPTOR_SIZE, end);
    assert(payload@ =~= frame_payload(r@, desc));
    let mut ts = TagStructReader::new(payload, PROTOCOL_VERSION);
    let ghost s = ts.rest();
    proof {
        lemma_parse_values_start(s, 2);
        lemma_parse_values_next(s, Seq::empty(), ts.rest(), 1);
    }
    let code = ts.read_u32()?;
    let tag = match CommandTag::from_u32(code) {
        Some(t) => t,
        None => {
            return Err(ProtocolError::Invalid("invalid command tag".to_owned()));
        },
    };
    proof {
        lemma_parse_values_next(s, seq![TagValue::U32(code)], ts.rest(), 0);
    }
    let seq = ts.read_u32()?;
    proof {
        lemma_parse_values_done(
            seq![TagValue::U32(code), TagValue::U32(seq)],
            s.len() - ts.rest().len(),
            ts.rest(),
        );
    }
    Ok((tag, seq, ts))
}

/// Reads the error code of an error reply and returns the server error it
/// stands for.
fn read_server_error(ts: &mut TagStructReader) -> (r: ProtocolError)
    ensures
        match parse_error_code(old(ts).rest()) {
            Some(e) => r == ProtocolError::ServerError(e),
            None => true,
        },
{
    match ts.read_u32() {
        Ok(e) => match PulseError::from_u32(e) {
            Some(pe) => ProtocolError::ServerError(pe),
            None => ProtocolError::Invalid("invalid error code".to_owned()),
        },
        Err(e) => e,
    }
}

/// Read reply data from the server: a whole message, descriptor included.
pub fn read_reply_message<T: CommandReply>(r: &[u8]) -> (res: Result<(u32, T), ProtocolError>)
    ensures
        match parse_descriptor(r@) {
            None => res is Err,
            Some(d) => match parse_message_header(frame_payload(r@, d)) {
                None => res is Err,
                Some((tag, seq, n)) => {
                    let rest = frame_payload(r@, d).skip(n);
                    if tag == CommandTag::Error {
                        match parse_error_code(rest) {
                            Some(e) => res == Err::<(u32, T), ProtocolError>(ProtocolError::ServerError(e)),
                            None => res is Err,
                        }
                    } else if tag == CommandTag::Reply {
                        match T::spec_parse(rest, PROTOCOL_VERSION) {
                            Some((vs, _)) => res matches Ok((q, v)) && q == seq && v.spec_values(
                                PROTOCOL_VERSION,
                            ) == vs && v.spec_canonical(PROTOCOL_VERSION),
                            None => res is Err,
                        }
                    } else {
                        res matches Err(e) && e is Invalid
                    }
                },
            },
        },
{
    let (cmd, seq, mut ts) = read_message_header(r)?;
    match cmd {
        CommandTag::Error => Err(read_server_error(&mut ts)),
        CommandTag::Reply => {
            let v = T::read(&mut ts, PROTOCOL_VERSION)?;
            Ok((seq, v))
        },
        _ => Err(ProtocolError::Invalid("expected reply".to_owned())),
    }
}

/// Read an ack (an empty reply) from the server: a whole message, descriptor
/// included.
pub fn read_ack_message(r: &[u8]) -> (res: Result<u32, ProtocolError>)
    ensures
        match parse_descriptor(r@) {
            None => res is Err,
            Some(d) => match parse_message_header(frame_payload(r@, d)) {
                None => res is Err,
                Some((tag, seq, n)) => {
                    let rest = frame_payload(r@, d).skip(n);
                    if tag == CommandTag::Error {
                        match parse_error_code(rest) {
                            Some(e) => res == Err::<u32, ProtocolError>(ProtocolError::ServerError(e)),
                            None => res is Err,
                        }
                    } else if tag == CommandTag::Reply {
                        res == Ok::<u32, ProtocolError>(seq)
                    } else {
                        res matches Err(e) && e is Invalid
                    }
                },
            },
        },
{
    let (cmd, seq, mut ts) = read_message_header(r)?;
    match cmd {
        CommandTag::Error => Err(read_server_error(&mut ts)),
        CommandTag::Reply => Ok(seq),
        _ => Err(ProtocolError::Invalid("expected reply".to_owned())),
    }
}

/// Read a subscription event from the server: a whole message, descriptor
/// included.
pub fn read_subscription_event(r: &[u8]) -> (res: Result<(u32, SubscriptionEvent), ProtocolError>)
    ensures
        match parse_descriptor(r@) {
            None => res is Err,
            Some(d) => match parse_message_header(frame_payload(r@, d)) {
                None => res is Err,
                Some((tag, seq, n)) => {
                    let rest = frame_payload(r@, d).skip(n);
                    if tag == CommandTag::Error {
                        match parse_error_code(rest) {
                            Some(e) => res == Err::<(u32, SubscriptionEvent), ProtocolError>(
                                ProtocolError::ServerError(e),
                            ),
                            None => res is Err,
                        }
                    } else if tag == CommandTag::SubscribeEvent {
                        match SubscriptionEvent::spec_parse(rest, PROTOCOL_VERSION) {
                            Some((vs, _)) => res matches Ok((q, v)) && q == seq && v.spec_values(
                                PROTOCOL_VERSION,
                            ) == vs,
                            None => res is Err,
                        }
                    } else {
                        res matches Err(e) && e is Invalid
                    }
                },
            },
        },
{
    let (cmd, seq, mut ts) = read_message_header(r)?;
    match cmd {
        CommandTag::Error => Err(read_server_error(&mut ts)),
        CommandTag::SubscribeEvent => {
            let v = ts.read::<SubscriptionEvent>()?;
            Ok((seq, v))
        },
        _ => Err(ProtocolError::Invalid("expected subscription event".to_owned())),
    }
}


/// The four bytes of a `u32` are its base-256 digits, most significant
/// first.
pub proof fn lemma_u32_be_digits(v: u32)
    ensures
        u32_be(v).len() == 4,
        u32_be(v)[0] as int == v as int / 0x100_0000,
        u32_be(v)[1] as int == (v as int / 0x1_0000) % 0x100,
        u32_be(v)[2] as int == (v as int / 0x100) % 0x100,
        u32_be(v)[3] as int == v as int % 0x100,
{
    assert(((v >> 24u32) as u8) as int == v as int / 0x100_0000) by (bit_vector);
    assert(((v >> 16u32) as u8) as int == (v as int / 0x1_0000) % 0x100) by (bit_vector);
    assert(((v >> 8u32) as u8) as int == (v as int / 0x100) % 0x100) by (bit_vector);
    assert((v as u8) as int == v as int % 0x100) by (bit_vector);
}

/// The bytes of a descriptor, field by field: the length, the channel, the
/// offset and the flags, each big-endian.
pub proof fn lemma_descriptor_layout(d: Descriptor)
    ensures
        descriptor_bytes(d).len() == 20,
        descriptor_bytes(d).subrange(0, 4) == u32_be(d.length),
        descriptor_bytes(d).subrange(4, 8) == u32_be(d.channel),
        descriptor_bytes(d).subrange(8, 16) == u64_be(d.offset),
        descriptor_bytes(d).subrange(16, 20) == u32_be(d.flags@),
{
    let b = descriptor_bytes(d);
    assert(b.subrange(0, 4) =~= u32_be(d.length));
    assert(b.subrange(4, 8) =~= u32_be(d.channel));
    assert(b.subrange(8, 16) =~= u64_be(d.offset));
    assert(b.subrange(16, 20) =~= u32_be(d.flags@));
}

} // verus!
