//! The decisions a blocking client makes about the replies it reads. Talking
//! to the server is left to the caller.

use vstd::prelude::*;

use crate::protocol::command::auth::AuthReply;
use crate::protocol::command::stream_events::Request;
use crate::protocol::command::{Command, CommandParse, CommandReply, CommandTag, parse_command};
use crate::protocol::error::{IoErrorKind, ProtocolError, PulseError};
use crate::protocol::serde::wire::{
    TagValue, lemma_parse_values_done, lemma_parse_values_next, lemma_parse_values_start,
};
use crate::protocol::serde::{TagStructRead, TagStructReader, TagStructWrite};
use crate::protocol::{
    CONTROL_CHANNEL, DESCRIPTOR_SIZE, Descriptor, DescriptorFlags, MAX_VERSION, PROTOCOL_VERSION,
    frame_payload,
    parse_descriptor, parse_error_code, parse_message_header, read_descriptor, read_reply_message,
};

pub mod record_sink;

verus! {

/// An error encountered by a client.
#[derive(Debug, Clone, PartialEq, Eq)]
pub enum ClientError {
    /// The PulseAudio server socket couldn't be located.
    ServerUnavailable,
    /// The server sent an invalid sequence number in reply to a command.
    UnexpectedSequenceNumber,
    /// A protocol-level error, like an invalid message.
    Protocol(ProtocolError),
    /// An error message sent by the server in response to a command.
    ServerError(PulseError),
    /// An error occurred reading or writing to the socket.
    Io(IoErrorKind),
    /// The client has disconnected, usually because an error occurred.
    Disconnected,
}

/// Decodes the reply to a command that was sent with sequence number
/// `req_seq`, from the whole reply message, descriptor included. A reply
/// to another command is refused.
pub fn roundtrip_blocking<R: CommandReply>(reply: &[u8], req_seq: u32) -> (r: Result<R, ClientError>)
    ensures
        match parse_descriptor(reply@) {
            None => r matches Err(ClientError::Protocol(_)),
            Some(d) => match parse_message_header(frame_payload(reply@, d)) {
                None => r matches Err(ClientError::Protocol(_)),
                Some((tag, seq, n)) => {
                    let rest = frame_payload(reply@, d).skip(n);
                    if tag == CommandTag::Reply {
                        match R::spec_parse(rest, PROTOCOL_VERSION) {
                            Some((vs, _)) => if seq == req_seq {
                                r matches Ok(v) && v.spec_values(PROTOCOL_VERSION) == vs
                                    && v.spec_canonical(PROTOCOL_VERSION)
                            } else {
                                r == Err::<R, ClientError>(ClientError::UnexpectedSequenceNumber)
                            },
                            None => r matches Err(ClientError::Protocol(_)),
                        }
                    } else if tag == CommandTag::Error {
                        match parse_error_code(rest) {
                            Some(e) => r == Err::<R, ClientError>(
                                ClientError::Protocol(ProtocolError::ServerError(e)),
                            ),
                            None => r matches Err(ClientError::Protocol(_)),
                        }
                    } else {
                        r matches Err(ClientError::Protocol(e)) && e is Invalid
                    }
                },
            },
        },
{
    match read_reply_message::<R>(reply) {
        Ok((reply_seq, v)) => {
            if reply_seq != req_seq {
                Err(ClientError::UnexpectedSequenceNumber)
            } else {
                Ok(v)
            }
        },
        Err(e) => Err(ClientError::Protocol(e)),
    }
}

/// The protocol version a connection uses after the handshake: the lower of
/// the server's and this library's.
pub fn negotiate_version(reply: &AuthReply) -> (r: u16)
    ensures
        r == if reply.version < MAX_VERSION { reply.version } else { MAX_VERSION },
{
    if reply.version < MAX_VERSION {
        reply.version
    } else {
        MAX_VERSION
    }
}

/// What the start of a receive buffer holds.
#[derive(Debug, Clone, Copy, PartialEq, Eq)]
pub enum Frame {
    /// Not yet a whole packet: more bytes must be read.
    Partial,
    /// A whole packet: its descriptor and the number of bytes it takes,
    /// descriptor included.
    Complete(Descriptor, usize),
}

/// Finds the packet that a receive buffer starts with.
pub fn next_frame(buf: &[u8]) -> (r: Frame)
    ensures
        match parse_descriptor(buf@) {
            None => r == Frame::Partial,
            Some(d) => if buf@.len() < DESCRIPTOR_SIZE + d.length {
                r == Frame::Partial
            } else {
                r == Frame::Complete(d, (DESCRIPTOR_SIZE + d.length) as usize)
            },
        },
{
    match read_descriptor(buf) {
        Ok(desc) => {
            if buf.len() - DESCRIPTOR_SIZE < desc.length as usize {
                Frame::Partial
            } else {
                Frame::Complete(desc, DESCRIPTOR_SIZE + desc.length as usize)
            }
        },
        Err(_) => Frame::Partial,
    }
}

/// Whether a packet is a control packet, which carries a command, rather
/// than stream data.
pub fn is_command_frame(desc: &Descriptor) -> (r: bool)
    ensures
        r == (desc.channel == CONTROL_CHANNEL),
{
    desc.channel == CONTROL_CHANNEL
}

/// The state of a playback stream as the writer of its data sees it.
#[derive(Debug, Clone, Copy, PartialEq, Eq)]
pub struct PlaybackStreamState {
    /// The channel of the stream.
    pub channel: u32,
    /// The number of bytes the server has asked for and not yet received.
    pub requested_bytes: usize,
    /// Whether the source of the stream's data has ended.
    pub done: bool,
}

/// What polling the source of a playback stream gave.
#[derive(Debug, Clone, Copy, PartialEq, Eq)]
pub enum SourcePoll {
    /// The source filled this many bytes; none means it has ended.
    Ready(usize),
    /// The source has no data yet.
    Pending,
}

/// What to do after polling the source of a playback stream.
#[derive(Debug, Clone, Copy, PartialEq, Eq)]
pub enum ChunkAction {
    /// The source has ended: tell whoever waits for it, and write nothing
    /// more for the stream.
    Eof,
    /// Wait for the source before writing more.
    Wait,
    /// Send the packet with this descriptor, followed by as many of the
    /// bytes the source filled as the descriptor gives.
    Send(Descriptor),
}

/// The number of bytes to send of `filled` bytes when `requested` are
/// asked for: no more than asked, and no more than a descriptor can tell.
pub open spec fn chunk_len(filled: usize, requested: usize) -> usize {
    let n = if filled < requested { filled } else { requested };
    if n > u32::MAX { u32::MAX as usize } else { n }
}

impl PlaybackStreamState {
    /// A stream that the server has asked nothing of yet.
    pub fn new(channel: u32) -> (r: PlaybackStreamState)
        ensures
            r == (PlaybackStreamState { channel, requested_bytes: 0, done: false }),
    {
        PlaybackStreamState { channel, requested_bytes: 0, done: false }
    }

    /// Whether the server waits for data that the source may still give.
    pub fn wants_data(&self) -> (r: bool)
        ensures
            r == (!self.done && self.requested_bytes > 0),
    {
        !self.done && self.requested_bytes > 0
    }

    /// Records a request of the server for `length` more bytes.
    pub fn request(&mut self, length: u32)
        requires
            old(self).requested_bytes + length <= usize::MAX,
        ensures
            *final(self) == (PlaybackStreamState {
                requested_bytes: (old(self).requested_bytes + length) as usize,
                ..*old(self)
            }),
    {
        self.requested_bytes = self.requested_bytes + length as usize;
    }

    /// Decides what to do after polling the source of the stream, and
    /// records what is sent.
    pub fn next_chunk(&mut self, poll: SourcePoll) -> (r: ChunkAction)
        requires
            old(self).requested_bytes > 0,
        ensures
            match poll {
                SourcePoll::Pending => r == ChunkAction::Wait && *final(self) == *old(self),
                SourcePoll::Ready(n) => if n == 0 {
                    r == ChunkAction::Eof && *final(self) == (PlaybackStreamState {
                        done: true,
                        ..*old(self)
                    })
                } else {
                    r == ChunkAction::Send(
                        Descriptor {
                            length: chunk_len(n, old(self).requested_bytes) as u32,
                            channel: old(self).channel,
                            offset: 0,
                            flags: DescriptorFlags { bits: 0 },
                        },
                    ) && *final(self) == (PlaybackStreamState {
                        requested_bytes: (old(self).requested_bytes - chunk_len(
                            n,
                            old(self).requested_bytes,
                        )) as usize,
                        ..*old(self)
                    })
                },
            },
    {
        match poll {
            SourcePoll::Pending => ChunkAction::Wait,
            SourcePoll::Ready(0) => {
                self.done = true;
                ChunkAction::Eof
            },
            SourcePoll::Ready(n) => {
                let mut len = if n < self.requested_bytes {
                    n
                } else {
                    self.requested_bytes
                };
                if len > u32::MAX as usize {
                    len = u32::MAX as usize;
                }
                self.requested_bytes = self.requested_bytes - len;
                ChunkAction::Send(
                    Descriptor {
                        length: len as u32,
                        channel: self.channel,
                        offset: 0,
                        flags: DescriptorFlags::empty(),
                    },
                )
            },
        }
    }
}

/// What a client does with a command message from the server.
#[derive(Debug, Clone, Copy, PartialEq, Eq)]
pub enum Incoming {
    /// Hand the payload to the handler of the command with this sequence
    /// number.
    Reply(u32),
    /// The server asks for more bytes of a playback stream.
    Request(Request),
    /// A playback stream has started.
    Started(u32),
    /// The server refused the command with this sequence number: hand the
    /// error to its handler.
    Error(u32, PulseError),
    /// Anything else, including a message that cannot be read, is ignored.
    Ignored,
}

/// Decides what to do with the payload of a command message from the
/// server.
pub fn classify_incoming(payload: &[u8], protocol_version: u16) -> (r: Incoming)
    ensures
        match parse_command(payload@, protocol_version) {
            CommandParse::Message(seq, tag, vs) => if tag == CommandTag::Reply {
                r == Incoming::Reply(seq)
            } else if tag == CommandTag::Request {
                r matches Incoming::Request(req) && req.spec_values(protocol_version) == vs
            } else if tag == CommandTag::Started {
                r matches Incoming::Started(channel) && vs == seq![TagValue::U32(channel)]
            } else {
                r == Incoming::Ignored
            },
            CommandParse::ServerError(seq, e) => r == Incoming::Error(seq, e),
            _ => r == Incoming::Ignored,
        },
{
    let mut ts = TagStructReader::new(payload, protocol_version);
    let ghost s = ts.rest();
    proof {
        lemma_parse_values_start(s, 2);
        lemma_parse_values_next(s, Seq::empty(), ts.rest(), 1);
    }
    if let Ok(code) = ts.read_u32() {
        proof {
            lemma_parse_values_next(s, seq![TagValue::U32(code)], ts.rest(), 0);
        }
        if let Ok(seq) = ts.read_u32() {
            proof {
                lemma_parse_values_done(
                    seq![TagValue::U32(code), TagValue::U32(seq)],
                    s.len() - ts.rest().len(),
                    ts.rest(),
                );
            }
            if let Some(CommandTag::Error) = CommandTag::from_u32(code) {
                return match ts.read_u32() {
                    Ok(e) => match PulseError::from_u32(e) {
                        Some(pe) => Incoming::Error(seq, pe),
                        None => Incoming::Ignored,
                    },
                    Err(_) => Incoming::Ignored,
                };
            }
        }
    }
    match Command::read_tag_prefixed(payload, protocol_version) {
        Ok((seq, Command::Reply)) => Incoming::Reply(seq),
        Ok((_, Command::Request(req))) => Incoming::Request(req),
        Ok((_, Command::Started(channel))) => Incoming::Started(channel),
        _ => Incoming::Ignored,
    }
}

} // verus!
