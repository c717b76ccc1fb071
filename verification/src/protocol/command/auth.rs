//! Authentication and the protocol handshake.

use vstd::prelude::*;

use super::CommandReply;
use crate::protocol::error::ProtocolError;
use crate::protocol::serde::fields::{lemma_values_bytes_1, lemma_values_bytes_2};
use crate::protocol::serde::wire::{
    TagValue, lemma_parse_values_bytes, lemma_parse_values_done, lemma_parse_values_next,
    lemma_parse_values_start, parse_values, values_bytes, };
use crate::protocol::serde::{TagStructRead, TagStructReader, TagStructWrite, TagStructWriter};

verus! {

/// The bits of the handshake word that hold the protocol version.
pub const VERSION_MASK: u32 = 0x0000ffff;

/// The bit of the handshake word that offers or accepts POSIX shared memory.
pub const FLAG_SHM: u32 = 0x80000000;

/// The bit of the handshake word that offers or accepts memfd shared memory.
pub const FLAG_MEMFD: u32 = 0x40000000;

/// The handshake word for a protocol version and the two kinds of shared
/// memory.
pub open spec fn handshake_word(version: u16, shm: bool, memfd: bool) -> u32 {
    (version as u32 & VERSION_MASK) | (if shm { FLAG_SHM } else { 0 }) | (if memfd {
        FLAG_MEMFD
    } else {
        0
    })
}

/// The bits of a handshake word that a reader looks at.
pub open spec fn handshake_bits(raw: u32) -> u32 {
    raw & (VERSION_MASK | FLAG_SHM | FLAG_MEMFD)
}

/// The protocol version a handshake word holds.
pub open spec fn handshake_version(raw: u32) -> u16 {
    (raw & VERSION_MASK) as u16
}

/// Decoding a handshake word keeps what the reader looks at, and encoding
/// the decoded fields gives back those bits.
proof fn lemma_handshake_decode(raw: u32)
    ensures
        handshake_word(
            handshake_version(raw),
            raw & FLAG_SHM != 0,
            raw & FLAG_MEMFD != 0,
        ) == handshake_bits(raw),
{
    assert(((((raw & 0xffff) as u16) as u32 & 0xffff) | (if raw & 0x80000000 != 0 {
        0x80000000u32
    } else {
        0u32
    }) | (if raw & 0x40000000 != 0 {
        0x40000000u32
    } else {
        0u32
    })) == raw & (0xffffu32 | 0x80000000u32 | 0x40000000u32)) by (bit_vector);
}

/// A handshake word is read back as the fields it was made from.
proof fn lemma_handshake_encode(version: u16, shm: bool, memfd: bool)
    ensures
        handshake_bits(handshake_word(version, shm, memfd)) == handshake_word(version, shm, memfd),
        handshake_version(handshake_word(version, shm, memfd)) == version,
        (handshake_word(version, shm, memfd) & FLAG_SHM != 0) == shm,
        (handshake_word(version, shm, memfd) & FLAG_MEMFD != 0) == memfd,
{
    let w = handshake_word(version, shm, memfd);
    let a: u32 = if shm { 0x80000000u32 } else { 0u32 };
    let b: u32 = if memfd { 0x40000000u32 } else { 0u32 };
    assert(w == ((version as u32) & 0xffff) | a | b);
    assert({
        let w = ((version as u32) & 0xffff) | a | b;
        &&& w & (0xffffu32 | 0x80000000u32 | 0x40000000u32) == w
        &&& ((w & 0xffff) as u16) == version
        &&& (w & 0x80000000 != 0) == (a != 0)
        &&& (w & 0x40000000 != 0) == (b != 0)
    }) by (bit_vector)
        requires
            a == 0 || a == 0x80000000,
            b == 0 || b == 0x40000000,
    ;
}

/// Parameters for [`super::Command::Auth`]: the client's half of the
/// handshake.
#[derive(Default, Debug, Clone, PartialEq, Eq)]
pub struct AuthParams {
    /// The protocol version the client speaks.
    pub version: u16,

    /// Whether the client can use POSIX shared memory.
    pub supports_shm: bool,

    /// Whether the client can use memfd shared memory.
    pub supports_memfd: bool,

    /// The authentication cookie.
    pub cookie: Vec<u8>,
}

impl TagStructWrite for AuthParams {
    open spec fn spec_values(&self, protocol_version: u16) -> Seq<TagValue> {
        seq![
            TagValue::U32(handshake_word(self.version, self.supports_shm, self.supports_memfd)),
            TagValue::Arbitrary(self.cookie@),
        ]
    }

    open spec fn spec_writable(&self) -> bool {
        self.cookie@.len() <= u32::MAX
    }

    fn write(&self, w: &mut TagStructWriter, _protocol_version: u16) -> (r: Result<(), ProtocolError>) {
        let flags_and_version: u32 = (self.version as u32 & VERSION_MASK) | if self.supports_shm {
            FLAG_SHM
        } else {
            0
        } | if self.supports_memfd {
            FLAG_MEMFD
        } else {
            0
        };
        w.write_u32(flags_and_version)?;
        w.write_arbitrary(self.cookie.as_slice())?;
        proof {
            lemma_values_bytes_2(
                TagValue::U32(flags_and_version),
                TagValue::Arbitrary(self.cookie@),
            );
        }
        assert(w.bytes() =~= old(w).bytes() + values_bytes(self.spec_values(_protocol_version)));
        Ok(())
    }
}

impl TagStructRead for AuthParams {
    /// The values of the handshake read from `s`, with the bits of the word
    /// that the reader ignores cleared.
    open spec fn spec_parse(s: Seq<u8>, protocol_version: u16) -> Option<(Seq<TagValue>, int)> {
        match parse_values(s, 2) {
            Some((vs, n)) => match (vs[0], vs[1]) {
                (TagValue::U32(raw), TagValue::Arbitrary(cookie)) => Some(
                    (seq![TagValue::U32(handshake_bits(raw)), TagValue::Arbitrary(cookie)], n),
                ),
                _ => None,
            },
            None => None,
        }
    }

    open spec fn spec_canonical(&self, protocol_version: u16) -> bool {
        true
    }

    open spec fn spec_encodable(&self, protocol_version: u16) -> bool {
        self.cookie@.len() <= u32::MAX
    }

    fn read(ts: &mut TagStructReader, _protocol_version: u16) -> (r: Result<Self, ProtocolError>) {
        let ghost s = ts.rest();
        proof {
            lemma_parse_values_start(s, 2);
            lemma_parse_values_next(s, Seq::empty(), ts.rest(), 1);
        }
        let flags_and_version = ts.read_u32()?;
        proof {
            lemma_parse_values_next(s, seq![TagValue::U32(flags_and_version)], ts.rest(), 0);
        }
        let cookie = ts.read_arbitrary()?;
        proof {
            lemma_parse_values_done(
                seq![TagValue::U32(flags_and_version), TagValue::Arbitrary(cookie@)],
                s.len() - ts.rest().len(),
                ts.rest(),
            );
            lemma_handshake_decode(flags_and_version);
        }
        Ok(AuthParams {
            version: (flags_and_version & VERSION_MASK) as u16,
            supports_shm: flags_and_version & FLAG_SHM != 0,
            supports_memfd: flags_and_version & FLAG_MEMFD != 0,
            cookie,
        })
    }

    proof fn lemma_roundtrip(&self, protocol_version: u16, rest: Seq<u8>) {
        lemma_handshake_encode(self.version, self.supports_shm, self.supports_memfd);
        lemma_parse_values_bytes(self.spec_values(protocol_version), rest);
    }
}

/// The server's half of the handshake.
#[derive(Default, Debug, Clone, Copy, PartialEq, Eq)]
pub struct AuthReply {
    /// The protocol version the server speaks.
    pub version: u16,

    /// Whether the connection will use memfd shared memory.
    pub use_memfd: bool,

    /// Whether the connection will use POSIX shared memory.
    pub use_shm: bool,
}

impl CommandReply for AuthReply {}

impl TagStructWrite for AuthReply {
    open spec fn spec_values(&self, protocol_version: u16) -> Seq<TagValue> {
        seq![TagValue::U32(handshake_word(self.version, self.use_shm, self.use_memfd))]
    }

    open spec fn spec_writable(&self) -> bool {
        true
    }

    fn write(&self, w: &mut TagStructWriter, _protocol_version: u16) -> (r: Result<(), ProtocolError>) {
        let reply: u32 = self.version as u32 | if self.use_memfd {
            FLAG_MEMFD
        } else {
            0
        } | if self.use_shm {
            FLAG_SHM
        } else {
            0
        };
        proof {
            let v = self.version;
            let a: u32 = if self.use_shm { 0x80000000u32 } else { 0u32 };
            let b: u32 = if self.use_memfd { 0x40000000u32 } else { 0u32 };
            assert((v as u32) | b | a == ((v as u32) & 0xffff) | a | b) by (bit_vector);
        }
        w.write_u32(reply)?;
        proof {
            lemma_values_bytes_1(TagValue::U32(reply));
        }
        assert(w.bytes() =~= old(w).bytes() + values_bytes(self.spec_values(_protocol_version)));
        Ok(())
    }
}

impl TagStructRead for AuthReply {
    /// The handshake word read from `s`, with the bits that the reader
    /// ignores cleared.
    open spec fn spec_parse(s: Seq<u8>, protocol_version: u16) -> Option<(Seq<TagValue>, int)> {
        match parse_values(s, 1) {
            Some((vs, n)) => match vs[0] {
                TagValue::U32(raw) => Some((seq![TagValue::U32(handshake_bits(raw))], n)),
                _ => None,
            },
            None => None,
        }
    }

    open spec fn spec_canonical(&self, protocol_version: u16) -> bool {
        true
    }

    open spec fn spec_encodable(&self, protocol_version: u16) -> bool {
        true
    }

    fn read(ts: &mut TagStructReader, _protocol_version: u16) -> (r: Result<Self, ProtocolError>) {
        let ghost s = ts.rest();
        proof {
            lemma_parse_values_start(s, 1);
            lemma_parse_values_next(s, Seq::empty(), ts.rest(), 0);
        }
        let reply = ts.read_u32()?;
        proof {
            lemma_parse_values_done(seq![TagValue::U32(reply)], s.len() - ts.rest().len(), ts.rest());
            lemma_handshake_decode(reply);
        }
        Ok(AuthReply {
            version: (reply & VERSION_MASK) as u16,
            use_memfd: reply & FLAG_MEMFD != 0,
            use_shm: reply & FLAG_SHM != 0,
        })
    }

    proof fn lemma_roundtrip(&self, protocol_version: u16, rest: Seq<u8>) {
        lemma_handshake_encode(self.version, self.use_shm, self.use_memfd);
        lemma_parse_values_bytes(self.spec_values(protocol_version), rest);
    }
}


/// The values an [`AuthParams`] is sent as, position by position: whatever a read
/// gives from the values `vs` holds each field from its own position.
pub proof fn lemma_auth_params_layout(q: AuthParams, vs: Seq<TagValue>, protocol_version: u16)
    requires
        q.spec_values(protocol_version) == vs,
    ensures
        vs == (
            seq![
                    TagValue::U32(handshake_word(q.version, q.supports_shm, q.supports_memfd)),
                    TagValue::Arbitrary(q.cookie@),
                ]
        ),
{
}

/// The values an [`AuthReply`] is sent as, position by position: whatever a read
/// gives from the values `vs` holds each field from its own position.
pub proof fn lemma_auth_reply_layout(q: AuthReply, vs: Seq<TagValue>, protocol_version: u16)
    requires
        q.spec_values(protocol_version) == vs,
    ensures
        vs == (
            seq![TagValue::U32(handshake_word(q.version, q.use_shm, q.use_memfd))]
        ),
{
}

} // verus!
