//! Playing samples from the sample cache.

use vstd::prelude::*;

use crate::protocol::error::ProtocolError;
use crate::protocol::serde::fields::{lemma_values_bytes_5};
use crate::protocol::serde::wire::{
    TagValue, lemma_parse_values_bytes, lemma_parse_values_done, lemma_parse_values_next,
    lemma_parse_values_start, parse_values, parse_values_after, values_bytes, values_wf,
};
use crate::protocol::serde::{
    TagStructRead, TagStructReader, TagStructWrite, TagStructWriter, index_encodable, index_value,
    opt_cstr_view, string_value,
};
use crate::protocol::serde::cstr::CString;
use crate::protocol::serde::props::Props;

verus! {

/// Parameters for playing a sample from the sample cache.
#[derive(Debug, Clone, PartialEq, Eq)]
pub struct PlaySampleParams {
    /// The index of the sink to play it on.
    pub sink_index: Option<u32>,

    /// The name of the sink to play it on.
    pub sink_name: Option<CString>,

    /// The volume to play it at.
    pub volume: u32,

    /// The name of the sample.
    pub name: CString,

    /// Properties of the playback.
    pub props: Props,
}

impl TagStructWrite for PlaySampleParams {
    open spec fn spec_values(&self, protocol_version: u16) -> Seq<TagValue> {
        seq![
            index_value(self.sink_index),
            string_value(opt_cstr_view(self.sink_name)),
            TagValue::U32(self.volume),
            TagValue::Str(self.name@),
            TagValue::PropList(self.props@),
        ]
    }

    open spec fn spec_writable(&self) -> bool {
        true
    }

    fn write(&self, w: &mut TagStructWriter, _protocol_version: u16) -> (r: Result<(), ProtocolError>) {
        w.write_index(self.sink_index)?;
        w.write_string(self.sink_name.as_ref())?;
        w.write_u32(self.volume)?;
        w.write_string(Some(&self.name))?;
        w.write_props(&self.props)?;
        proof {
            lemma_values_bytes_5(
                index_value(self.sink_index),
                string_value(opt_cstr_view(self.sink_name)),
                TagValue::U32(self.volume),
                TagValue::Str(self.name@),
                TagValue::PropList(self.props@),
            );
        }
        assert(w.bytes() =~= old(w).bytes() + values_bytes(self.spec_values(_protocol_version)));
        Ok(())
    }
}

impl TagStructRead for PlaySampleParams {
    open spec fn spec_parse(s: Seq<u8>, protocol_version: u16) -> Option<(Seq<TagValue>, int)> {
        match parse_values(s, 5) {
            Some((vs, n)) => if vs[0] is U32
                && (vs[1] is Str || vs[1] is NullStr)
                && vs[2] is U32
                && vs[3] is Str
                && vs[4] is PropList
            {
                Some((vs, n))
            } else {
                None
            },
            None => None,
        }
    }

    open spec fn spec_canonical(&self, protocol_version: u16) -> bool {
        true
    }

    open spec fn spec_encodable(&self, protocol_version: u16) -> bool {
        &&& values_wf(self.spec_values(protocol_version))
        &&& index_encodable(self.sink_index)
        &&& self.spec_canonical(protocol_version)
    }

    fn read(ts: &mut TagStructReader, _protocol_version: u16) -> (r: Result<Self, ProtocolError>) {
        let ghost s = ts.rest();
        let ghost total: int = 5;
        proof {
            lemma_parse_values_start(s, total);
            lemma_parse_values_next(s, Seq::empty(), ts.rest(), total - 1);
        }
        let sink_index = ts.read_index()?;
        proof {
            assert(parse_values(s, total as nat) == parse_values_after(
                seq![index_value(sink_index)],
                s.len() - ts.rest().len(),
                ts.rest(),
                total - 1,
            ));
            lemma_parse_values_next(s, seq![index_value(sink_index)], ts.rest(), total - 2);
        }
        let sink_name = ts.read_string()?;
        proof {
            assert(parse_values(s, total as nat) == parse_values_after(
                seq![index_value(sink_index), string_value(opt_cstr_view(sink_name))],
                s.len() - ts.rest().len(),
                ts.rest(),
                total - 2,
            ));
            lemma_parse_values_next(
                s,
                seq![index_value(sink_index), string_value(opt_cstr_view(sink_name))],
                ts.rest(),
                total - 3,
            );
        }
        let volume = ts.read_u32()?;
        proof {
            assert(parse_values(s, total as nat) == parse_values_after(
                seq![
                    index_value(sink_index),
                    string_value(opt_cstr_view(sink_name)),
                    TagValue::U32(volume),
                ],
                s.len() - ts.rest().len(),
                ts.rest(),
                total - 3,
            ));
            lemma_parse_values_next(
                s,
                seq![
                    index_value(sink_index),
                    string_value(opt_cstr_view(sink_name)),
                    TagValue::U32(volume),
                ],
                ts.rest(),
                total - 4,
            );
        }
        let name = ts.read_string_non_null()?;
        proof {
            assert(parse_values(s, total as nat) == parse_values_after(
                seq![
                    index_value(sink_index),
                    string_value(opt_cstr_view(sink_name)),
                    TagValue::U32(volume),
                    TagValue::Str(name@),
                ],
                s.len() - ts.rest().len(),
                ts.rest(),
                total - 4,
            ));
            lemma_parse_values_next(
                s,
                seq![
                    index_value(sink_index),
                    string_value(opt_cstr_view(sink_name)),
                    TagValue::U32(volume),
                    TagValue::Str(name@),
                ],
                ts.rest(),
                total - 5,
            );
        }
        let props = ts.read_props()?;
        proof {
            assert(parse_values(s, total as nat) == parse_values_after(
                seq![
                    index_value(sink_index),
                    string_value(opt_cstr_view(sink_name)),
                    TagValue::U32(volume),
                    TagValue::Str(name@),
                    TagValue::PropList(props@),
                ],
                s.len() - ts.rest().len(),
                ts.rest(),
                total - 5,
            ));
            lemma_parse_values_done(
                seq![
                    index_value(sink_index),
                    string_value(opt_cstr_view(sink_name)),
                    TagValue::U32(volume),
                    TagValue::Str(name@),
                    TagValue::PropList(props@),
                ],
                s.len() - ts.rest().len(),
                ts.rest(),
            );
        }
        Ok(PlaySampleParams { sink_index, sink_name, volume, name, props })
    }

    proof fn lemma_roundtrip(&self, protocol_version: u16, rest: Seq<u8>) {
        lemma_parse_values_bytes(self.spec_values(protocol_version), rest);
    }
}


/// The values a [`PlaySampleParams`] is sent as, position by position: whatever a read
/// gives from the values `vs` holds each field from its own position.
pub proof fn lemma_play_sample_params_layout(q: PlaySampleParams, vs: Seq<TagValue>, protocol_version: u16)
    requires
        q.spec_values(protocol_version) == vs,
    ensures
        vs == (
            seq![
                    index_value(q.sink_index),
                    string_value(opt_cstr_view(q.sink_name)),
                    TagValue::U32(q.volume),
                    TagValue::Str(q.name@),
                    TagValue::PropList(q.props@),
                ]
        ),
{
}

} // verus!
