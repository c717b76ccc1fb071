//! Information about the modules loaded into the server.

use vstd::prelude::*;

use super::CommandReply;
use crate::protocol::error::ProtocolError;
use crate::protocol::serde::cstr::CString;
use crate::protocol::serde::fields::lemma_values_bytes_5;
use crate::protocol::serde::props::Props;
use crate::protocol::serde::wire::{
    TagValue, lemma_parse_values_bytes, lemma_parse_values_done, lemma_parse_values_next,
    lemma_parse_values_start, parse_values, parse_values_after, values_bytes, values_wf,
};
use crate::protocol::serde::{
    TagStructRead, TagStructReader, TagStructWrite, TagStructWriter, index_encodable, index_value,
    opt_cstr_view, string_value,
};

verus! {

/// Server state for a module, in response to [`super::Command::GetModuleInfo`].
#[derive(Debug, Clone, PartialEq, Eq)]
pub struct ModuleInfo {
    /// ID of the module.
    pub index: u32,

    /// The name of the module.
    pub name: CString,

    /// Argument string passed to the module.
    pub argument: Option<CString>,

    /// Usage counter.
    pub n_used: Option<u32>,

    /// Whether the module is automatically unloaded when unused; sent before
    /// protocol version 15 only.
    pub auto_unload: bool,

    /// Module properties; sent from protocol version 15 on.
    pub props: Props,
}

impl CommandReply for ModuleInfo {}

/// The reply to [`super::Command::GetModuleInfoList`].
pub type ModuleInfoList = Vec<ModuleInfo>;

impl CommandReply for ModuleInfoList {}

impl TagStructWrite for ModuleInfo {
    open spec fn spec_values(&self, protocol_version: u16) -> Seq<TagValue> {
        seq![
            TagValue::U32(self.index),
            TagValue::Str(self.name@),
            string_value(opt_cstr_view(self.argument)),
            index_value(self.n_used),
            if protocol_version < 15 {
                TagValue::Bool(self.auto_unload)
            } else {
                TagValue::PropList(self.props@)
            },
        ]
    }

    open spec fn spec_writable(&self) -> bool {
        true
    }

    fn write(&self, w: &mut TagStructWriter, protocol_version: u16) -> (r: Result<(), ProtocolError>) {
        w.write_u32(self.index)?;
        w.write_string(Some(&self.name))?;
        w.write_string(self.argument.as_ref())?;
        w.write_index(self.n_used)?;
        if protocol_version < 15 {
            w.write_bool(self.auto_unload)?;
        } else {
            w.write_props(&self.props)?;
        }
        proof {
            let vs = self.spec_values(protocol_version);
            lemma_values_bytes_5(vs[0], vs[1], vs[2], vs[3], vs[4]);
            assert(vs =~= seq![vs[0], vs[1], vs[2], vs[3], vs[4]]);
        }
        assert(w.bytes() =~= old(w).bytes() + values_bytes(self.spec_values(protocol_version)));
        Ok(())
    }
}

impl TagStructRead for ModuleInfo {
    open spec fn spec_parse(s: Seq<u8>, protocol_version: u16) -> Option<(Seq<TagValue>, int)> {
        match parse_values(s, 5) {
            Some((vs, n)) => if vs[0] is U32 && vs[1] is Str && (vs[2] is Str || vs[2] is NullStr)
                && vs[3] is U32 && (if protocol_version < 15 {
                vs[4] is Bool
            } else {
                vs[4] is PropList
            }) {
                Some((vs, n))
            } else {
                None
            },
            None => None,
        }
    }

    /// The field that the encoding at a protocol version leaves out holds
    /// what a read gives it: no automatic unloading from version 15 on, and
    /// no properties before.
    open spec fn spec_canonical(&self, protocol_version: u16) -> bool {
        &&& protocol_version >= 15 ==> !self.auto_unload
        &&& protocol_version < 15 ==> self.props@.len() == 0
    }

    open spec fn spec_encodable(&self, protocol_version: u16) -> bool {
        &&& values_wf(self.spec_values(protocol_version))
        &&& index_encodable(self.n_used)
        &&& self.spec_canonical(protocol_version)
    }

    fn read(ts: &mut TagStructReader, protocol_version: u16) -> (r: Result<Self, ProtocolError>) {
        let ghost s = ts.rest();
        proof {
            lemma_parse_values_start(s, 5);
            lemma_parse_values_next(s, Seq::empty(), ts.rest(), 4);
        }
        let index = ts.read_u32()?;
        proof {
            lemma_parse_values_next(s, seq![TagValue::U32(index)], ts.rest(), 3);
        }
        let name = ts.read_string_non_null()?;
        let ghost acc2 = seq![TagValue::U32(index), TagValue::Str(name@)];
        proof {
            assert(parse_values(s, 5) == parse_values_after(acc2, s.len() - ts.rest().len(), ts.rest(), 3));
            lemma_parse_values_next(s, acc2, ts.rest(), 2);
        }
        let argument = ts.read_string()?;
        let ghost acc3 = acc2.push(string_value(opt_cstr_view(argument)));
        proof {
            assert(parse_values(s, 5) == parse_values_after(acc3, s.len() - ts.rest().len(), ts.rest(), 2));
            lemma_parse_values_next(s, acc3, ts.rest(), 1);
        }
        let n_used = ts.read_index()?;
        let ghost acc4 = acc3.push(index_value(n_used));
        proof {
            assert(parse_values(s, 5) == parse_values_after(acc4, s.len() - ts.rest().len(), ts.rest(), 1));
            lemma_parse_values_next(s, acc4, ts.rest(), 0);
        }
        let (auto_unload, props) = if protocol_version < 15 {
            let auto_unload = ts.read_bool()?;
            proof {
                lemma_parse_values_done(acc4.push(TagValue::Bool(auto_unload)), s.len() - ts.rest().len(), ts.rest());
            }
            (auto_unload, Props::new())
        } else {
            let props = ts.read_props()?;
            proof {
                lemma_parse_values_done(acc4.push(TagValue::PropList(props@)), s.len() - ts.rest().len(), ts.rest());
            }
            (false, props)
        };
        Ok(ModuleInfo { index, name, argument, n_used, auto_unload, props })
    }

    proof fn lemma_roundtrip(&self, protocol_version: u16, rest: Seq<u8>) {
        lemma_parse_values_bytes(self.spec_values(protocol_version), rest);
    }
}


/// The values a [`ModuleInfo`] is sent as, position by position: whatever a read
/// gives from the values `vs` holds each field from its own position.
pub proof fn lemma_module_info_layout(q: ModuleInfo, vs: Seq<TagValue>, protocol_version: u16)
    requires
        q.spec_values(protocol_version) == vs,
    ensures
        vs == (
            seq![
                    TagValue::U32(q.index),
                    TagValue::Str(q.name@),
                    string_value(opt_cstr_view(q.argument)),
                    index_value(q.n_used),
                    if protocol_version < 15 {
                        TagValue::Bool(q.auto_unload)
                    } else {
                        TagValue::PropList(q.props@)
                    },
                ]
        ),
{
}

} // verus!
