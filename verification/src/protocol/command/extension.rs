//! Messages to server extensions.

use vstd::prelude::*;

use crate::protocol::error::ProtocolError;
use crate::protocol::serde::fields::{lemma_values_bytes_2};
use crate::protocol::serde::wire::{
    TagValue, lemma_parse_values_bytes, lemma_parse_values_done, lemma_parse_values_next,
    lemma_parse_values_start, parse_values, parse_values_after, values_bytes, values_wf,
};
use crate::protocol::serde::{
    TagStructRead, TagStructReader, TagStructWrite, TagStructWriter, index_encodable, index_value,
    opt_cstr_view, string_value,
};
use crate::protocol::serde::cstr::CString;

verus! {

/// Parameters for a message to a module that extends the protocol.
#[derive(Debug, Clone, PartialEq, Eq)]
pub struct ExtensionParams {
    /// The index of the module.
    pub index: Option<u32>,

    /// The name of the module.
    pub name: Option<CString>,
}

impl TagStructWrite for ExtensionParams {
    open spec fn spec_values(&self, protocol_version: u16) -> Seq<TagValue> {
        seq![index_value(self.index), string_value(opt_cstr_view(self.name))]
    }

    open spec fn spec_writable(&self) -> bool {
        true
    }

    fn write(&self, w: &mut TagStructWriter, _protocol_version: u16) -> (r: Result<(), ProtocolError>) {
        w.write_index(self.index)?;
        w.write_string(self.name.as_ref())?;
        proof {
            lemma_values_bytes_2(index_value(self.index), string_value(opt_cstr_view(self.name)));
        }
        assert(w.bytes() =~= old(w).bytes() + values_bytes(self.spec_values(_protocol_version)));
        Ok(())
    }
}

impl TagStructRead for ExtensionParams {
    open spec fn spec_parse(s: Seq<u8>, protocol_version: u16) -> Option<(Seq<TagValue>, int)> {
        match parse_values(s, 2) {
            Some((vs, n)) => if vs[0] is U32 && (vs[1] is Str || vs[1] is NullStr) {
                Some((vs, n))
            } else {
                None
            },
            None => None,
        }
    }

    open spec fn spec_canonical(&self, protocol_version: u16) -> bool {
        true
    }

    open spec fn spec_encodable(&self, protocol_version: u16) -> bool {
        &&& values_wf(self.spec_values(protocol_version))
        &&& index_encodable(self.index)
        &&& self.spec_canonical(protocol_version)
    }

    fn read(ts: &mut TagStructReader, _protocol_version: u16) -> (r: Result<Self, ProtocolError>) {
        let ghost s = ts.rest();
        let ghost total: int = 2;
        proof {
            lemma_parse_values_start(s, total);
            lemma_parse_values_next(s, Seq::empty(), ts.rest(), total - 1);
        }
        let index = ts.read_index()?;
        proof {
            assert(parse_values(s, total as nat) == parse_values_after(
                seq![index_value(index)],
                s.len() - ts.rest().len(),
                ts.rest(),
                total - 1,
            ));
            lemma_parse_values_next(s, seq![index_value(index)], ts.rest(), total - 2);
        }
        let name = ts.read_string()?;
        proof {
            assert(parse_values(s, total as nat) == parse_values_after(
                seq![index_value(index), string_value(opt_cstr_view(name))],
                s.len() - ts.rest().len(),
                ts.rest(),
                total - 2,
            ));
            lemma_parse_values_done(
                seq![index_value(index), string_value(opt_cstr_view(name))],
                s.len() - ts.rest().len(),
                ts.rest(),
            );
        }
        Ok(ExtensionParams { index, name })
    }

    proof fn lemma_roundtrip(&self, protocol_version: u16, rest: Seq<u8>) {
        lemma_parse_values_bytes(self.spec_values(protocol_version), rest);
    }
}


/// The values an [`ExtensionParams`] is sent as, position by position: whatever a read
/// gives from the values `vs` holds each field from its own position.
pub proof fn lemma_extension_params_layout(q: ExtensionParams, vs: Seq<TagValue>, protocol_version: u16)
    requires
        q.spec_values(protocol_version) == vs,
    ensures
        vs == (
            seq![index_value(q.index), string_value(opt_cstr_view(q.name))]
        ),
{
}

} // verus!
