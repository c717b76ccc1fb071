//! Information about the clients of the server.

use vstd::prelude::*;

use crate::protocol::error::ProtocolError;
use crate::protocol::serde::fields::{lemma_values_bytes_5};
use crate::protocol::serde::wire::{
    TagValue, lemma_parse_values_bytes, lemma_parse_values_done, lemma_parse_values_next,
    lemma_parse_values_start, parse_values, parse_values_after, values_bytes, values_wf,
};
use crate::protocol::serde::{
    TagStructRead, TagStructReader, TagStructWrite, TagStructWriter, index_encodable, index_value,
    opt_cstr_view, string_value,
};
use crate::protocol::serde::cstr::CString;
use crate::protocol::serde::props::Props;
use super::CommandReply;

verus! {

/// A client connected to the server.
#[derive(Debug, Clone, PartialEq, Eq)]
pub struct ClientInfo {
    /// The index of the client.
    pub index: u32,

    /// The name of the client.
    pub name: CString,

    /// The index of the module that owns the client, if any.
    pub owner_module_index: Option<u32>,

    /// The driver of the client.
    pub driver: Option<CString>,

    /// Properties of the client.
    pub props: Props,
}

impl TagStructWrite for ClientInfo {
    open spec fn spec_values(&self, protocol_version: u16) -> Seq<TagValue> {
        seq![
            TagValue::U32(self.index),
            TagValue::Str(self.name@),
            index_value(self.owner_module_index),
            string_value(opt_cstr_view(self.driver)),
            TagValue::PropList(self.props@),
        ]
    }

    open spec fn spec_writable(&self) -> bool {
        true
    }

    fn write(&self, w: &mut TagStructWriter, _protocol_version: u16) -> (r: Result<(), ProtocolError>) {
        w.write_u32(self.index)?;
        w.write_string(Some(&self.name))?;
        w.write_index(self.owner_module_index)?;
        w.write_string(self.driver.as_ref())?;
        w.write_props(&self.props)?;
        proof {
            lemma_values_bytes_5(
                TagValue::U32(self.index),
                TagValue::Str(self.name@),
                index_value(self.owner_module_index),
                string_value(opt_cstr_view(self.driver)),
                TagValue::PropList(self.props@),
            );
        }
        assert(w.bytes() =~= old(w).bytes() + values_bytes(self.spec_values(_protocol_version)));
        Ok(())
    }
}

impl TagStructRead for ClientInfo {
    open spec fn spec_parse(s: Seq<u8>, protocol_version: u16) -> Option<(Seq<TagValue>, int)> {
        match parse_values(s, 5) {
            Some((vs, n)) => if vs[0] is U32
                && vs[1] is Str
                && vs[2] is U32
                && (vs[3] is Str || vs[3] is NullStr)
                && vs[4] is PropList
            {
                Some((vs, n))
            } else {
                None
            },
            None => None,
        }
    }

    open spec fn spec_canonical(&self, protocol_version: u16) -> bool {
        true
    }

    open spec fn spec_encodable(&self, protocol_version: u16) -> bool {
        &&& values_wf(self.spec_values(protocol_version))
        &&& index_encodable(self.owner_module_index)
        &&& self.spec_canonical(protocol_version)
    }

    fn read(ts: &mut TagStructReader, _protocol_version: u16) -> (r: Result<Self, ProtocolError>) {
        let ghost s = ts.rest();
        let ghost total: int = 5;
        proof {
            lemma_parse_values_start(s, total);
            lemma_parse_values_next(s, Seq::empty(), ts.rest(), total - 1);
        }
        let index = ts.read_u32()?;
        proof {
            assert(parse_values(s, total as nat) == parse_values_after(
                seq![TagValue::U32(index)],
                s.len() - ts.rest().len(),
                ts.rest(),
                total - 1,
            ));
            lemma_parse_values_next(s, seq![TagValue::U32(index)], ts.rest(), total - 2);
        }
        let name = match ts.read_string()? {
            Some(c) => c,
            None => {
                return Err(ProtocolError::Invalid("invalid client name".to_owned()));
            },
        };
        proof {
            assert(parse_values(s, total as nat) == parse_values_after(
                seq![TagValue::U32(index), TagValue::Str(name@)],
                s.len() - ts.rest().len(),
                ts.rest(),
                total - 2,
            ));
            lemma_parse_values_next(
                s,
                seq![TagValue::U32(index), TagValue::Str(name@)],
                ts.rest(),
                total - 3,
            );
        }
        let owner_module_index = ts.read_index()?;
        proof {
            assert(parse_values(s, total as nat) == parse_values_after(
                seq![TagValue::U32(index), TagValue::Str(name@), index_value(owner_module_index)],
                s.len() - ts.rest().len(),
                ts.rest(),
                total - 3,
            ));
            lemma_parse_values_next(
                s,
                seq![TagValue::U32(index), TagValue::Str(name@), index_value(owner_module_index)],
                ts.rest(),
                total - 4,
            );
        }
        let driver = ts.read_string()?;
        proof {
            assert(parse_values(s, total as nat) == parse_values_after(
                seq![
                    TagValue::U32(index),
                    TagValue::Str(name@),
                    index_value(owner_module_index),
                    string_value(opt_cstr_view(driver)),
                ],
                s.len() - ts.rest().len(),
                ts.rest(),
                total - 4,
            ));
            lemma_parse_values_next(
                s,
                seq![
                    TagValue::U32(index),
                    TagValue::Str(name@),
                    index_value(owner_module_index),
                    string_value(opt_cstr_view(driver)),
                ],
                ts.rest(),
                total - 5,
            );
        }
        let props = ts.read_props()?;
        proof {
            assert(parse_values(s, total as nat) == parse_values_after(
                seq![
                    TagValue::U32(index),
                    TagValue::Str(name@),
                    index_value(owner_module_index),
                    string_value(opt_cstr_view(driver)),
                    TagValue::PropList(props@),
                ],
                s.len() - ts.rest().len(),
                ts.rest(),
                total - 5,
            ));
            lemma_parse_values_done(
                seq![
                    TagValue::U32(index),
                    TagValue::Str(name@),
                    index_value(owner_module_index),
                    string_value(opt_cstr_view(driver)),
                    TagValue::PropList(props@),
                ],
                s.len() - ts.rest().len(),
                ts.rest(),
            );
        }
        Ok(ClientInfo {
            index,
            name,
            owner_module_index,
            driver,
            props,
        })
    }

    proof fn lemma_roundtrip(&self, protocol_version: u16, rest: Seq<u8>) {
        lemma_parse_values_bytes(self.spec_values(protocol_version), rest);
    }
}

impl CommandReply for ClientInfo {}

/// The reply to [`super::Command::GetClientInfoList`]: every client, in the
/// order the server lists them.
pub type ClientInfoList = Vec<ClientInfo>;

impl CommandReply for ClientInfoList {}


/// The values a [`ClientInfo`] is sent as, position by position: whatever a read
/// gives from the values `vs` holds each field from its own position.
pub proof fn lemma_client_info_layout(q: ClientInfo, vs: Seq<TagValue>, protocol_version: u16)
    requires
        q.spec_values(protocol_version) == vs,
    ensures
        vs == (
            seq![
                    TagValue::U32(q.index),
                    TagValue::Str(q.name@),
                    index_value(q.owner_module_index),
                    string_value(opt_cstr_view(q.driver)),
                    TagValue::PropList(q.props@),
                ]
        ),
{
}

} // verus!
