//! Choosing the profile of a card.

use vstd::prelude::*;

use crate::protocol::error::ProtocolError;
use crate::protocol::serde::fields::{lemma_values_bytes_3};
use crate::protocol::serde::wire::{
    TagValue, lemma_parse_values_bytes, lemma_parse_values_done, lemma_parse_values_next,
    lemma_parse_values_start, parse_values, parse_values_after, values_bytes, values_wf,
};
use crate::protocol::serde::{
    TagStructRead, TagStructReader, TagStructWrite, TagStructWriter, index_encodable, index_value,
    opt_cstr_view, string_value,
};
use crate::protocol::serde::cstr::CString;

verus! {

/// Parameters for setting the profile of a card.
#[derive(Debug, Clone, PartialEq, Eq)]
pub struct SetCardProfileParams {
    /// The index of the card.
    pub card_index: Option<u32>,

    /// The name of the card.
    pub card_name: Option<CString>,

    /// The name of the profile.
    pub profile_name: CString,
}

impl TagStructWrite for SetCardProfileParams {
    open spec fn spec_values(&self, protocol_version: u16) -> Seq<TagValue> {
        seq![
            index_value(self.card_index),
            string_value(opt_cstr_view(self.card_name)),
            TagValue::Str(self.profile_name@),
        ]
    }

    open spec fn spec_writable(&self) -> bool {
        true
    }

    fn write(&self, w: &mut TagStructWriter, _protocol_version: u16) -> (r: Result<(), ProtocolError>) {
        w.write_index(self.card_index)?;
        w.write_string(self.card_name.as_ref())?;
        w.write_string(Some(&self.profile_name))?;
        proof {
            lemma_values_bytes_3(
                index_value(self.card_index),
                string_value(opt_cstr_view(self.card_name)),
                TagValue::Str(self.profile_name@),
            );
        }
        assert(w.bytes() =~= old(w).bytes() + values_bytes(self.spec_values(_protocol_version)));
        Ok(())
    }
}

impl TagStructRead for SetCardProfileParams {
    open spec fn spec_parse(s: Seq<u8>, protocol_version: u16) -> Option<(Seq<TagValue>, int)> {
        match parse_values(s, 3) {
            Some((vs, n)) => if vs[0] is U32 && (vs[1] is Str || vs[1] is NullStr) && vs[2] is Str {
                Some((vs, n))
            } else {
                None
            },
            None => None,
        }
    }

    open spec fn spec_canonical(&self, protocol_version: u16) -> bool {
        true
    }

    open spec fn spec_encodable(&self, protocol_version: u16) -> bool {
        &&& values_wf(self.spec_values(protocol_version))
        &&& index_encodable(self.card_index)
        &&& self.spec_canonical(protocol_version)
    }

    fn read(ts: &mut TagStructReader, _protocol_version: u16) -> (r: Result<Self, ProtocolError>) {
        let ghost s = ts.rest();
        let ghost total: int = 3;
        proof {
            lemma_parse_values_start(s, total);
            lemma_parse_values_next(s, Seq::empty(), ts.rest(), total - 1);
        }
        let card_index = ts.read_index()?;
        proof {
            assert(parse_values(s, total as nat) == parse_values_after(
                seq![index_value(card_index)],
                s.len() - ts.rest().len(),
                ts.rest(),
                total - 1,
            ));
            lemma_parse_values_next(s, seq![index_value(card_index)], ts.rest(), total - 2);
        }
        let card_name = ts.read_string()?;
        proof {
            assert(parse_values(s, total as nat) == parse_values_after(
                seq![index_value(card_index), string_value(opt_cstr_view(card_name))],
                s.len() - ts.rest().len(),
                ts.rest(),
                total - 2,
            ));
            lemma_parse_values_next(
                s,
                seq![index_value(card_index), string_value(opt_cstr_view(card_name))],
                ts.rest(),
                total - 3,
            );
        }
        let profile_name = match ts.read_string()? {
            Some(c) => c,
            None => {
                return Err(ProtocolError::Invalid("invalid profile name".to_owned()));
            },
        };
        proof {
            assert(parse_values(s, total as nat) == parse_values_after(
                seq![
                    index_value(card_index),
                    string_value(opt_cstr_view(card_name)),
                    TagValue::Str(profile_name@),
                ],
                s.len() - ts.rest().len(),
                ts.rest(),
                total - 3,
            ));
            lemma_parse_values_done(
                seq![
                    index_value(card_index),
                    string_value(opt_cstr_view(card_name)),
                    TagValue::Str(profile_name@),
                ],
                s.len() - ts.rest().len(),
                ts.rest(),
            );
        }
        Ok(SetCardProfileParams { card_index, card_name, profile_name })
    }

    proof fn lemma_roundtrip(&self, protocol_version: u16, rest: Seq<u8>) {
        lemma_parse_values_bytes(self.spec_values(protocol_version), rest);
    }
}


/// The values a [`SetCardProfileParams`] is sent as, position by position: whatever a read
/// gives from the values `vs` holds each field from its own position.
pub proof fn lemma_set_card_profile_params_layout(q: SetCardProfileParams, vs: Seq<TagValue>, protocol_version: u16)
    requires
        q.spec_values(protocol_version) == vs,
    ensures
        vs == (
            seq![
                    index_value(q.card_index),
                    string_value(opt_cstr_view(q.card_name)),
                    TagValue::Str(q.profile_name@),
                ]
        ),
{
}

} // verus!
