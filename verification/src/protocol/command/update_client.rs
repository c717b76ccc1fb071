//! Updating the properties of a client.

use vstd::prelude::*;

use crate::protocol::error::ProtocolError;
use crate::protocol::serde::fields::{lemma_values_bytes_2};
use crate::protocol::serde::wire::{
    TagValue, lemma_parse_values_bytes, lemma_parse_values_done, lemma_parse_values_next,
    lemma_parse_values_start, parse_values, parse_values_after, values_bytes, values_wf,
};
use crate::protocol::serde::{TagStructRead, TagStructReader, TagStructWrite, TagStructWriter};
use crate::protocol::serde::props::{Props, PropsUpdateMode, lemma_update_mode_roundtrip, update_mode_code, update_mode_of_code};

verus! {

/// Parameters for [`super::Command::UpdateClientProplist`].
#[derive(Debug, Clone, PartialEq, Eq)]
pub struct UpdateClientProplistParams {
    /// How the new properties combine with the old.
    pub mode: PropsUpdateMode,

    /// The new properties.
    pub props: Props,
}

impl TagStructWrite for UpdateClientProplistParams {
    open spec fn spec_values(&self, protocol_version: u16) -> Seq<TagValue> {
        seq![TagValue::U32(update_mode_code(self.mode)), TagValue::PropList(self.props@)]
    }

    open spec fn spec_writable(&self) -> bool {
        true
    }

    fn write(&self, w: &mut TagStructWriter, _protocol_version: u16) -> (r: Result<(), ProtocolError>) {
        w.write_u32(self.mode.to_u32())?;
        w.write_props(&self.props)?;
        proof {
            lemma_values_bytes_2(
                TagValue::U32(update_mode_code(self.mode)),
                TagValue::PropList(self.props@),
            );
        }
        assert(w.bytes() =~= old(w).bytes() + values_bytes(self.spec_values(_protocol_version)));
        Ok(())
    }
}

impl TagStructRead for UpdateClientProplistParams {
    open spec fn spec_parse(s: Seq<u8>, protocol_version: u16) -> Option<(Seq<TagValue>, int)> {
        match parse_values(s, 2) {
            Some((vs, n)) => if (vs[0] matches TagValue::U32(x) && update_mode_of_code(x) is Some)
                && vs[1] is PropList
            {
                Some((vs, n))
            } else {
                None
            },
            None => None,
        }
    }

    open spec fn spec_canonical(&self, protocol_version: u16) -> bool {
        true
    }

    open spec fn spec_encodable(&self, protocol_version: u16) -> bool {
        &&& values_wf(self.spec_values(protocol_version))
        &&& self.spec_canonical(protocol_version)
    }

    fn read(ts: &mut TagStructReader, _protocol_version: u16) -> (r: Result<Self, ProtocolError>) {
        let ghost s = ts.rest();
        let ghost total: int = 2;
        proof {
            lemma_parse_values_start(s, total);
            lemma_parse_values_next(s, Seq::empty(), ts.rest(), total - 1);
        }
        let mode = match PropsUpdateMode::from_u32(ts.read_u32()?) {
            Some(m) => m,
            None => {
                return Err(ProtocolError::Invalid("invalid update mode".to_owned()));
            },
        };
        proof {
            assert(parse_values(s, total as nat) == parse_values_after(
                seq![TagValue::U32(update_mode_code(mode))],
                s.len() - ts.rest().len(),
                ts.rest(),
                total - 1,
            ));
            lemma_parse_values_next(
                s,
                seq![TagValue::U32(update_mode_code(mode))],
                ts.rest(),
                total - 2,
            );
        }
        let props = ts.read_props()?;
        proof {
            assert(parse_values(s, total as nat) == parse_values_after(
                seq![TagValue::U32(update_mode_code(mode)), TagValue::PropList(props@)],
                s.len() - ts.rest().len(),
                ts.rest(),
                total - 2,
            ));
            lemma_parse_values_done(
                seq![TagValue::U32(update_mode_code(mode)), TagValue::PropList(props@)],
                s.len() - ts.rest().len(),
                ts.rest(),
            );
        }
        Ok(UpdateClientProplistParams { mode, props })
    }

    proof fn lemma_roundtrip(&self, protocol_version: u16, rest: Seq<u8>) {
        lemma_update_mode_roundtrip(self.mode);
        lemma_parse_values_bytes(self.spec_values(protocol_version), rest);
    }
}


/// The values an [`UpdateClientProplistParams`] is sent as, position by position: whatever a read
/// gives from the values `vs` holds each field from its own position.
pub proof fn lemma_update_client_proplist_params_layout(q: UpdateClientProplistParams, vs: Seq<TagValue>, protocol_version: u16)
    requires
        q.spec_values(protocol_version) == vs,
    ensures
        vs == (
            seq![TagValue::U32(update_mode_code(q.mode)), TagValue::PropList(q.props@)]
        ),
{
}

} // verus!
