//! Pausing and resuming streams.

use vstd::prelude::*;

use crate::protocol::error::ProtocolError;
use crate::protocol::serde::fields::{lemma_values_bytes_2};
use crate::protocol::serde::wire::{
    TagValue, lemma_parse_values_bytes, lemma_parse_values_done, lemma_parse_values_next,
    lemma_parse_values_start, parse_values, parse_values_after, values_bytes, values_wf,
};
use crate::protocol::serde::{TagStructRead, TagStructReader, TagStructWrite, TagStructWriter};

verus! {

/// Parameters for corking (pausing) or uncorking a stream.
#[derive(Debug, Copy, Clone, PartialEq, Eq)]
pub struct CorkStreamParams {
    /// The channel of the stream.
    pub channel: u32,

    /// Whether to cork the stream.
    pub cork: bool,
}

impl TagStructWrite for CorkStreamParams {
    open spec fn spec_values(&self, protocol_version: u16) -> Seq<TagValue> {
        seq![TagValue::U32(self.channel), TagValue::Bool(self.cork)]
    }

    open spec fn spec_writable(&self) -> bool {
        true
    }

    fn write(&self, w: &mut TagStructWriter, _protocol_version: u16) -> (r: Result<(), ProtocolError>) {
        w.write_u32(self.channel)?;
        w.write_bool(self.cork)?;
        proof {
            lemma_values_bytes_2(TagValue::U32(self.channel), TagValue::Bool(self.cork));
        }
        assert(w.bytes() =~= old(w).bytes() + values_bytes(self.spec_values(_protocol_version)));
        Ok(())
    }
}

impl TagStructRead for CorkStreamParams {
    open spec fn spec_parse(s: Seq<u8>, protocol_version: u16) -> Option<(Seq<TagValue>, int)> {
        match parse_values(s, 2) {
            Some((vs, n)) => if vs[0] is U32 && vs[1] is Bool {
                Some((vs, n))
            } else {
                None
            },
            None => None,
        }
    }

    open spec fn spec_canonical(&self, protocol_version: u16) -> bool {
        true
    }

    open spec fn spec_encodable(&self, protocol_version: u16) -> bool {
        &&& values_wf(self.spec_values(protocol_version))
        &&& self.spec_canonical(protocol_version)
    }

    fn read(ts: &mut TagStructReader, _protocol_version: u16) -> (r: Result<Self, ProtocolError>) {
        let ghost s = ts.rest();
        let ghost total: int = 2;
        proof {
            lemma_parse_values_start(s, total);
            lemma_parse_values_next(s, Seq::empty(), ts.rest(), total - 1);
        }
        let channel = ts.read_u32()?;
        proof {
            assert(parse_values(s, total as nat) == parse_values_after(
                seq![TagValue::U32(channel)],
                s.len() - ts.rest().len(),
                ts.rest(),
                total - 1,
            ));
            lemma_parse_values_next(s, seq![TagValue::U32(channel)], ts.rest(), total - 2);
        }
        let cork = ts.read_bool()?;
        proof {
            assert(parse_values(s, total as nat) == parse_values_after(
                seq![TagValue::U32(channel), TagValue::Bool(cork)],
                s.len() - ts.rest().len(),
                ts.rest(),
                total - 2,
            ));
            lemma_parse_values_done(
                seq![TagValue::U32(channel), TagValue::Bool(cork)],
                s.len() - ts.rest().len(),
                ts.rest(),
            );
        }
        Ok(CorkStreamParams { channel, cork })
    }

    proof fn lemma_roundtrip(&self, protocol_version: u16, rest: Seq<u8>) {
        lemma_parse_values_bytes(self.spec_values(protocol_version), rest);
    }
}


/// The values a [`CorkStreamParams`] is sent as, position by position: whatever a read
/// gives from the values `vs` holds each field from its own position.
pub proof fn lemma_cork_stream_params_layout(q: CorkStreamParams, vs: Seq<TagValue>, protocol_version: u16)
    requires
        q.spec_values(protocol_version) == vs,
    ensures
        vs == (
            seq![TagValue::U32(q.channel), TagValue::Bool(q.cork)]
        ),
{
}

} // verus!
