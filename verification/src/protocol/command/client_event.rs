//! An event that the server sends to a client.

use vstd::prelude::*;

use crate::protocol::error::ProtocolError;
use crate::protocol::serde::fields::{lemma_values_bytes_2};
use crate::protocol::serde::wire::{
    TagValue, lemma_parse_values_bytes, lemma_parse_values_done, lemma_parse_values_next,
    lemma_parse_values_start, parse_values, parse_values_after, values_bytes, values_wf,
};
use crate::protocol::serde::{TagStructRead, TagStructReader, TagStructWrite, TagStructWriter};
use crate::protocol::serde::cstr::CString;
use crate::protocol::serde::props::Props;

verus! {

/// A named event sent to a client, with properties.
#[derive(Debug, Clone, PartialEq, Eq)]
pub struct ClientEvent {
    /// The name of the event.
    pub name: CString,

    /// Properties of the event.
    pub props: Props,
}

impl TagStructWrite for ClientEvent {
    open spec fn spec_values(&self, protocol_version: u16) -> Seq<TagValue> {
        seq![TagValue::Str(self.name@), TagValue::PropList(self.props@)]
    }

    open spec fn spec_writable(&self) -> bool {
        true
    }

    fn write(&self, w: &mut TagStructWriter, _protocol_version: u16) -> (r: Result<(), ProtocolError>) {
        w.write_string(Some(&self.name))?;
        w.write_props(&self.props)?;
        proof {
            lemma_values_bytes_2(TagValue::Str(self.name@), TagValue::PropList(self.props@));
        }
        assert(w.bytes() =~= old(w).bytes() + values_bytes(self.spec_values(_protocol_version)));
        Ok(())
    }
}

impl TagStructRead for ClientEvent {
    open spec fn spec_parse(s: Seq<u8>, protocol_version: u16) -> Option<(Seq<TagValue>, int)> {
        match parse_values(s, 2) {
            Some((vs, n)) => if vs[0] is Str && vs[1] is PropList {
                Some((vs, n))
            } else {
                None
            },
            None => None,
        }
    }

    open spec fn spec_canonical(&self, protocol_version: u16) -> bool {
        true
    }

    open spec fn spec_encodable(&self, protocol_version: u16) -> bool {
        &&& values_wf(self.spec_values(protocol_version))
        &&& self.spec_canonical(protocol_version)
    }

    fn read(ts: &mut TagStructReader, _protocol_version: u16) -> (r: Result<Self, ProtocolError>) {
        let ghost s = ts.rest();
        let ghost total: int = 2;
        proof {
            lemma_parse_values_start(s, total);
            lemma_parse_values_next(s, Seq::empty(), ts.rest(), total - 1);
        }
        let name = ts.read_string_non_null()?;
        proof {
            assert(parse_values(s, total as nat) == parse_values_after(
                seq![TagValue::Str(name@)],
                s.len() - ts.rest().len(),
                ts.rest(),
                total - 1,
            ));
            lemma_parse_values_next(s, seq![TagValue::Str(name@)], ts.rest(), total - 2);
        }
        let props = ts.read_props()?;
        proof {
            assert(parse_values(s, total as nat) == parse_values_after(
                seq![TagValue::Str(name@), TagValue::PropList(props@)],
                s.len() - ts.rest().len(),
                ts.rest(),
                total - 2,
            ));
            lemma_parse_values_done(
                seq![TagValue::Str(name@), TagValue::PropList(props@)],
                s.len() - ts.rest().len(),
                ts.rest(),
            );
        }
        Ok(ClientEvent { name, props })
    }

    proof fn lemma_roundtrip(&self, protocol_version: u16, rest: Seq<u8>) {
        lemma_parse_values_bytes(self.spec_values(protocol_version), rest);
    }
}


/// The values a [`ClientEvent`] is sent as, position by position: whatever a read
/// gives from the values `vs` holds each field from its own position.
pub proof fn lemma_client_event_layout(q: ClientEvent, vs: Seq<TagValue>, protocol_version: u16)
    requires
        q.spec_values(protocol_version) == vs,
    ensures
        vs == (
            seq![TagValue::Str(q.name@), TagValue::PropList(q.props@)]
        ),
{
}

} // verus!
