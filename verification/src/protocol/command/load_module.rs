//! Loading a module into the server.

use vstd::prelude::*;

use crate::protocol::error::ProtocolError;
use crate::protocol::serde::fields::{lemma_values_bytes_2};
use crate::protocol::serde::wire::{
    TagValue, lemma_parse_values_bytes, lemma_parse_values_done, lemma_parse_values_next,
    lemma_parse_values_start, parse_values, parse_values_after, values_bytes, values_wf,
};
use crate::protocol::serde::{
    TagStructRead, TagStructReader, TagStructWrite, TagStructWriter, opt_cstr_view, string_value,
};
use crate::protocol::serde::cstr::CString;

verus! {

/// Parameters for [`super::Command::LoadModule`].
#[derive(Debug, Clone, PartialEq, Eq)]
pub struct LoadModuleParams {
    /// The name of the module.
    pub name: CString,

    /// The arguments given to the module.
    pub arguments: Option<CString>,
}

impl TagStructWrite for LoadModuleParams {
    open spec fn spec_values(&self, protocol_version: u16) -> Seq<TagValue> {
        seq![TagValue::Str(self.name@), string_value(opt_cstr_view(self.arguments))]
    }

    open spec fn spec_writable(&self) -> bool {
        true
    }

    fn write(&self, w: &mut TagStructWriter, _protocol_version: u16) -> (r: Result<(), ProtocolError>) {
        w.write_string(Some(&self.name))?;
        w.write_string(self.arguments.as_ref())?;
        proof {
            lemma_values_bytes_2(
                TagValue::Str(self.name@),
                string_value(opt_cstr_view(self.arguments)),
            );
        }
        assert(w.bytes() =~= old(w).bytes() + values_bytes(self.spec_values(_protocol_version)));
        Ok(())
    }
}

impl TagStructRead for LoadModuleParams {
    open spec fn spec_parse(s: Seq<u8>, protocol_version: u16) -> Option<(Seq<TagValue>, int)> {
        match parse_values(s, 2) {
            Some((vs, n)) => if vs[0] is Str && (vs[1] is Str || vs[1] is NullStr) {
                Some((vs, n))
            } else {
                None
            },
            None => None,
        }
    }

    open spec fn spec_canonical(&self, protocol_version: u16) -> bool {
        true
    }

    open spec fn spec_encodable(&self, protocol_version: u16) -> bool {
        &&& values_wf(self.spec_values(protocol_version))
        &&& self.spec_canonical(protocol_version)
    }

    fn read(ts: &mut TagStructReader, _protocol_version: u16) -> (r: Result<Self, ProtocolError>) {
        let ghost s = ts.rest();
        let ghost total: int = 2;
        proof {
            lemma_parse_values_start(s, total);
            lemma_parse_values_next(s, Seq::empty(), ts.rest(), total - 1);
        }
        let name = match ts.read_string()? {
            Some(c) => c,
            None => {
                return Err(ProtocolError::Invalid("invalid module name".to_owned()));
            },
        };
        proof {
            assert(parse_values(s, total as nat) == parse_values_after(
                seq![TagValue::Str(name@)],
                s.len() - ts.rest().len(),
                ts.rest(),
                total - 1,
            ));
            lemma_parse_values_next(s, seq![TagValue::Str(name@)], ts.rest(), total - 2);
        }
        let arguments = ts.read_string()?;
        proof {
            assert(parse_values(s, total as nat) == parse_values_after(
                seq![TagValue::Str(name@), string_value(opt_cstr_view(arguments))],
                s.len() - ts.rest().len(),
                ts.rest(),
                total - 2,
            ));
            lemma_parse_values_done(
                seq![TagValue::Str(name@), string_value(opt_cstr_view(arguments))],
                s.len() - ts.rest().len(),
                ts.rest(),
            );
        }
        Ok(LoadModuleParams { name, arguments })
    }

    proof fn lemma_roundtrip(&self, protocol_version: u16, rest: Seq<u8>) {
        lemma_parse_values_bytes(self.spec_values(protocol_version), rest);
    }
}


/// The values a [`LoadModuleParams`] is sent as, position by position: whatever a read
/// gives from the values `vs` holds each field from its own position.
pub proof fn lemma_load_module_params_layout(q: LoadModuleParams, vs: Seq<TagValue>, protocol_version: u16)
    requires
        q.spec_values(protocol_version) == vs,
    ensures
        vs == (
            seq![TagValue::Str(q.name@), string_value(opt_cstr_view(q.arguments))]
        ),
{
}

} // verus!
