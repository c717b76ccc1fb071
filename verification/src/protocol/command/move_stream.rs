//! Moving a stream to another device.

use vstd::prelude::*;

use crate::protocol::error::ProtocolError;
use crate::protocol::serde::fields::{lemma_values_bytes_3};
use crate::protocol::serde::wire::{
    TagValue, lemma_parse_values_bytes, lemma_parse_values_done, lemma_parse_values_next,
    lemma_parse_values_start, parse_values, parse_values_after, values_bytes, values_wf,
};
use crate::protocol::serde::{
    TagStructRead, TagStructReader, TagStructWrite, TagStructWriter, index_encodable, index_value,
    opt_cstr_view, string_value,
};
use crate::protocol::serde::cstr::CString;

verus! {

/// Parameters for moving a sink input or source output.
#[derive(Debug, Clone, PartialEq, Eq)]
pub struct MoveStreamParams {
    /// The index of the stream.
    pub index: Option<u32>,

    /// The index of the device to move it to.
    pub device_index: Option<u32>,

    /// The name of the device to move it to.
    pub device_name: Option<CString>,
}

impl TagStructWrite for MoveStreamParams {
    open spec fn spec_values(&self, protocol_version: u16) -> Seq<TagValue> {
        seq![
            index_value(self.index),
            index_value(self.device_index),
            string_value(opt_cstr_view(self.device_name)),
        ]
    }

    open spec fn spec_writable(&self) -> bool {
        true
    }

    fn write(&self, w: &mut TagStructWriter, _protocol_version: u16) -> (r: Result<(), ProtocolError>) {
        w.write_index(self.index)?;
        w.write_index(self.device_index)?;
        w.write_string(self.device_name.as_ref())?;
        proof {
            lemma_values_bytes_3(
                index_value(self.index),
                index_value(self.device_index),
                string_value(opt_cstr_view(self.device_name)),
            );
        }
        assert(w.bytes() =~= old(w).bytes() + values_bytes(self.spec_values(_protocol_version)));
        Ok(())
    }
}

impl TagStructRead for MoveStreamParams {
    open spec fn spec_parse(s: Seq<u8>, protocol_version: u16) -> Option<(Seq<TagValue>, int)> {
        match parse_values(s, 3) {
            Some((vs, n)) => if vs[0] is U32 && vs[1] is U32 && (vs[2] is Str || vs[2] is NullStr) {
                Some((vs, n))
            } else {
                None
            },
            None => None,
        }
    }

    open spec fn spec_canonical(&self, protocol_version: u16) -> bool {
        true
    }

    open spec fn spec_encodable(&self, protocol_version: u16) -> bool {
        &&& values_wf(self.spec_values(protocol_version))
        &&& index_encodable(self.index)
        &&& index_encodable(self.device_index)
        &&& self.spec_canonical(protocol_version)
    }

    fn read(ts: &mut TagStructReader, _protocol_version: u16) -> (r: Result<Self, ProtocolError>) {
        let ghost s = ts.rest();
        let ghost total: int = 3;
        proof {
            lemma_parse_values_start(s, total);
            lemma_parse_values_next(s, Seq::empty(), ts.rest(), total - 1);
        }
        let index = ts.read_index()?;
        proof {
            assert(parse_values(s, total as nat) == parse_values_after(
                seq![index_value(index)],
                s.len() - ts.rest().len(),
                ts.rest(),
                total - 1,
            ));
            lemma_parse_values_next(s, seq![index_value(index)], ts.rest(), total - 2);
        }
        let device_index = ts.read_index()?;
        proof {
            assert(parse_values(s, total as nat) == parse_values_after(
                seq![index_value(index), index_value(device_index)],
                s.len() - ts.rest().len(),
                ts.rest(),
                total - 2,
            ));
            lemma_parse_values_next(
                s,
                seq![index_value(index), index_value(device_index)],
                ts.rest(),
                total - 3,
            );
        }
        let device_name = ts.read_string()?;
        proof {
            assert(parse_values(s, total as nat) == parse_values_after(
                seq![
                    index_value(index),
                    index_value(device_index),
                    string_value(opt_cstr_view(device_name)),
                ],
                s.len() - ts.rest().len(),
                ts.rest(),
                total - 3,
            ));
            lemma_parse_values_done(
                seq![
                    index_value(index),
                    index_value(device_index),
                    string_value(opt_cstr_view(device_name)),
                ],
                s.len() - ts.rest().len(),
                ts.rest(),
            );
        }
        Ok(MoveStreamParams { index, device_index, device_name })
    }

    proof fn lemma_roundtrip(&self, protocol_version: u16, rest: Seq<u8>) {
        lemma_parse_values_bytes(self.spec_values(protocol_version), rest);
    }
}


/// The values a [`MoveStreamParams`] is sent as, position by position: whatever a read
/// gives from the values `vs` holds each field from its own position.
pub proof fn lemma_move_stream_params_layout(q: MoveStreamParams, vs: Seq<TagValue>, protocol_version: u16)
    requires
        q.spec_values(protocol_version) == vs,
    ensures
        vs == (
            seq![
                    index_value(q.index),
                    index_value(q.device_index),
                    string_value(opt_cstr_view(q.device_name)),
                ]
        ),
{
}

} // verus!
