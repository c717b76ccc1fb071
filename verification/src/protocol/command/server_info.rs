//! The state of the server.

use vstd::prelude::*;

use crate::protocol::error::ProtocolError;
use crate::protocol::serde::fields::lemma_values_bytes_1;
use crate::protocol::serde::wire::{
    TagValue, lemma_parse_value_bytes, lemma_parse_values_bytes, lemma_parse_values_done,
    lemma_parse_values_next, lemma_parse_values_start, lemma_values_bytes_concat, parse_value,
    parse_values, parse_values_after, values_bytes, values_wf,
};
use crate::protocol::serde::{
    TagStructRead, TagStructReader, TagStructWrite, TagStructWriter, opt_cstr_view, string_value,
};
use crate::protocol::serde::channel_map::{ChannelMap, lemma_channel_map_valid, positions_valid};
use crate::protocol::serde::cstr::CString;
use super::CommandReply;
use crate::protocol::serde::sample_spec::{SampleSpec, lemma_sample_format_roundtrip, sample_format_of_code, sample_spec_value};

verus! {

/// The state of the server, in reply to [`super::Command::GetServerInfo`].
#[derive(Debug, Clone, PartialEq, Eq)]
pub struct ServerInfo {
    /// The package name of the server (usually "pulseaudio").
    pub server_name: Option<CString>,

    /// The version string of the daemon.
    pub server_version: Option<CString>,

    /// The user name of the daemon process.
    pub user_name: Option<CString>,

    /// The host name the daemon is running on.
    pub host_name: Option<CString>,

    /// The default sample format.
    pub sample_spec: SampleSpec,

    /// The name of the current default sink.
    pub default_sink_name: Option<CString>,

    /// The name of the current default source.
    pub default_source_name: Option<CString>,

    /// A random ID that identifies the server.
    pub cookie: u32,

    /// The channel map of the default sink; read from protocol version 15
    /// on, and empty before.
    pub channel_map: ChannelMap,
}

/// The part of a [`ServerInfo`] that every protocol version sends.
pub open spec fn server_info_head(i: ServerInfo) -> ServerInfoHead {
    ServerInfoHead {
        server_name: i.server_name,
        server_version: i.server_version,
        user_name: i.user_name,
        host_name: i.host_name,
        sample_spec: i.sample_spec,
        default_sink_name: i.default_sink_name,
        default_source_name: i.default_source_name,
        cookie: i.cookie,
    }
}

impl TagStructWrite for ServerInfo {
    /// The channel map is written at every protocol version; a read takes it
    /// from version 15 on.
    open spec fn spec_values(&self, protocol_version: u16) -> Seq<TagValue> {
        server_info_head(*self).spec_values(protocol_version).push(TagValue::ChannelMap(self.channel_map@))
    }

    open spec fn spec_writable(&self) -> bool {
        true
    }

    #[verifier::rlimit(100)]
    #[verifier::spinoff_prover]
    fn write(&self, w: &mut TagStructWriter, _protocol_version: u16) -> (r: Result<(), ProtocolError>) {
        let ghost b0 = w.bytes();
        let ghost mut acc: Seq<TagValue> = Seq::empty();
        assert(w.bytes() =~= b0 + values_bytes(acc));
        w.write_string(self.server_name.as_ref())?;
        proof {
            crate::protocol::serde::wire::lemma_values_bytes_push(acc, string_value(opt_cstr_view(self.server_name)));
            assert(w.bytes() =~= b0 + values_bytes(acc.push(string_value(opt_cstr_view(self.server_name)))));
            acc = acc.push(string_value(opt_cstr_view(self.server_name)));
        }
        w.write_string(self.server_version.as_ref())?;
        proof {
            crate::protocol::serde::wire::lemma_values_bytes_push(acc, string_value(opt_cstr_view(self.server_version)));
            assert(w.bytes() =~= b0 + values_bytes(acc.push(string_value(opt_cstr_view(self.server_version)))));
            acc = acc.push(string_value(opt_cstr_view(self.server_version)));
        }
        w.write_string(self.user_name.as_ref())?;
        proof {
            crate::protocol::serde::wire::lemma_values_bytes_push(acc, string_value(opt_cstr_view(self.user_name)));
            assert(w.bytes() =~= b0 + values_bytes(acc.push(string_value(opt_cstr_view(self.user_name)))));
            acc = acc.push(string_value(opt_cstr_view(self.user_name)));
        }
        w.write_string(self.host_name.as_ref())?;
        proof {
            crate::protocol::serde::wire::lemma_values_bytes_push(acc, string_value(opt_cstr_view(self.host_name)));
            assert(w.bytes() =~= b0 + values_bytes(acc.push(string_value(opt_cstr_view(self.host_name)))));
            acc = acc.push(string_value(opt_cstr_view(self.host_name)));
        }
        w.write_sample_spec(self.sample_spec)?;
        proof {
            crate::protocol::serde::wire::lemma_values_bytes_push(acc, sample_spec_value(self.sample_spec));
            assert(w.bytes() =~= b0 + values_bytes(acc.push(sample_spec_value(self.sample_spec))));
            acc = acc.push(sample_spec_value(self.sample_spec));
        }
        w.write_string(self.default_sink_name.as_ref())?;
        proof {
            crate::protocol::serde::wire::lemma_values_bytes_push(acc, string_value(opt_cstr_view(self.default_sink_name)));
            assert(w.bytes() =~= b0 + values_bytes(acc.push(string_value(opt_cstr_view(self.default_sink_name)))));
            acc = acc.push(string_value(opt_cstr_view(self.default_sink_name)));
        }
        w.write_string(self.default_source_name.as_ref())?;
        proof {
            crate::protocol::serde::wire::lemma_values_bytes_push(acc, string_value(opt_cstr_view(self.default_source_name)));
            assert(w.bytes() =~= b0 + values_bytes(acc.push(string_value(opt_cstr_view(self.default_source_name)))));
            acc = acc.push(string_value(opt_cstr_view(self.default_source_name)));
        }
        w.write_u32(self.cookie)?;
        proof {
            crate::protocol::serde::wire::lemma_values_bytes_push(acc, TagValue::U32(self.cookie));
            assert(w.bytes() =~= b0 + values_bytes(acc.push(TagValue::U32(self.cookie))));
            acc = acc.push(TagValue::U32(self.cookie));
        }
        w.write_channel_map(&self.channel_map)?;
        proof {
            crate::protocol::serde::wire::lemma_values_bytes_push(acc, TagValue::ChannelMap(self.channel_map@));
            assert(w.bytes() =~= b0 + values_bytes(acc.push(TagValue::ChannelMap(self.channel_map@))));
            acc = acc.push(TagValue::ChannelMap(self.channel_map@));
        }
        proof {
            assert(acc =~= self.spec_values(_protocol_version));
        }
        assert(w.bytes() =~= old(w).bytes() + values_bytes(self.spec_values(_protocol_version)));
        Ok(())
    }
}

impl TagStructRead for ServerInfo {
    /// Before protocol version 15 the channel map is not read, and the value
    /// read holds an empty one.
    open spec fn spec_parse(s: Seq<u8>, protocol_version: u16) -> Option<(Seq<TagValue>, int)> {
        match ServerInfoHead::spec_parse(s, protocol_version) {
            Some((vs, n)) => if protocol_version >= 15 {
                match parse_value(s.skip(n)) {
                    Some((TagValue::ChannelMap(c), m)) => if positions_valid(c) {
                        Some((vs.push(TagValue::ChannelMap(c)), n + m))
                    } else {
                        None
                    },
                    _ => None,
                }
            } else {
                Some((vs.push(TagValue::ChannelMap(Seq::empty())), n))
            },
            None => None,
        }
    }

    open spec fn spec_canonical(&self, protocol_version: u16) -> bool {
        protocol_version < 15 ==> self.channel_map@ == Seq::<u8>::empty()
    }

    open spec fn spec_encodable(&self, protocol_version: u16) -> bool {
        &&& values_wf(self.spec_values(protocol_version))
        &&& protocol_version >= 15
    }

    fn read(ts: &mut TagStructReader, protocol_version: u16) -> (r: Result<Self, ProtocolError>) {
        let ghost s = ts.rest();
        let head = ServerInfoHead::read(ts, protocol_version)?;
        let ghost n = s.len() - ts.rest().len();
        let ghost hv = head.spec_values(protocol_version);
        let channel_map = if protocol_version >= 15 {
            ts.read_channel_map()?
        } else {
            ChannelMap::new()
        };
        let info = ServerInfo {
            server_name: head.server_name,
            server_version: head.server_version,
            user_name: head.user_name,
            host_name: head.host_name,
            sample_spec: head.sample_spec,
            default_sink_name: head.default_sink_name,
            default_source_name: head.default_source_name,
            cookie: head.cookie,
            channel_map,
        };
        proof {
            assert(server_info_head(info).spec_values(protocol_version) == hv);
            assert(s.skip(n) =~= s.subrange(n, s.len() as int));
            if protocol_version >= 15 {
                let t = s.skip(n);
                crate::protocol::serde::wire::lemma_parse_value_scalar(t);
                crate::protocol::serde::wire::lemma_parse_scalar_len(t);
                let m = parse_value(t).unwrap().1;
                assert(ts.rest() =~= s.skip(n + m));
            }
        }
        Ok(info)
    }

    proof fn lemma_roundtrip(&self, protocol_version: u16, rest: Seq<u8>) {
        let h = server_info_head(*self);
        let hv = h.spec_values(protocol_version);
        let cm = TagValue::ChannelMap(self.channel_map@);
        assert(self.spec_values(protocol_version) =~= hv + seq![cm]);
        assert(values_wf(hv)) by {
            assert forall|i: int| 0 <= i < hv.len() implies crate::protocol::serde::wire::wf_value(#[trigger] hv[i]) by {
                assert(hv[i] == self.spec_values(protocol_version)[i]);
            }
        }
        assert(crate::protocol::serde::wire::wf_value(cm)) by {
            assert(cm == self.spec_values(protocol_version)[8]);
        }
        lemma_values_bytes_1(cm);
        lemma_values_bytes_concat(hv, seq![cm]);
        let tail = values_bytes(seq![cm]) + rest;
        assert(values_bytes(self.spec_values(protocol_version)) + rest =~= values_bytes(hv) + tail);
        h.lemma_roundtrip(protocol_version, tail);
        let n = values_bytes(hv).len() as int;
        assert((values_bytes(hv) + tail).skip(n) =~= tail);
        lemma_parse_value_bytes(cm, rest);
        lemma_channel_map_valid(self.channel_map);
    }
}

impl CommandReply for ServerInfo {}

/// The values of a [`ServerInfo`] up to the channel map, which every
/// protocol version sends.
#[derive(Debug, Clone, PartialEq, Eq)]
pub struct ServerInfoHead {
    /// The package name of the server.
    pub server_name: Option<CString>,

    /// The version string of the daemon.
    pub server_version: Option<CString>,

    /// The user name of the daemon process.
    pub user_name: Option<CString>,

    /// The host name the daemon is running on.
    pub host_name: Option<CString>,

    /// The default sample format.
    pub sample_spec: SampleSpec,

    /// The name of the current default sink.
    pub default_sink_name: Option<CString>,

    /// The name of the current default source.
    pub default_source_name: Option<CString>,

    /// A random ID that identifies the server.
    pub cookie: u32,
}

impl TagStructWrite for ServerInfoHead {
    open spec fn spec_values(&self, protocol_version: u16) -> Seq<TagValue> {
        seq![
            string_value(opt_cstr_view(self.server_name)),
            string_value(opt_cstr_view(self.server_version)),
            string_value(opt_cstr_view(self.user_name)),
            string_value(opt_cstr_view(self.host_name)),
            sample_spec_value(self.sample_spec),
            string_value(opt_cstr_view(self.default_sink_name)),
            string_value(opt_cstr_view(self.default_source_name)),
            TagValue::U32(self.cookie),
        ]
    }

    open spec fn spec_writable(&self) -> bool {
        true
    }

    #[verifier::rlimit(100)]
    #[verifier::spinoff_prover]
    fn write(&self, w: &mut TagStructWriter, _protocol_version: u16) -> (r: Result<(), ProtocolError>) {
        let ghost b0 = w.bytes();
        let ghost mut acc: Seq<TagValue> = Seq::empty();
        assert(w.bytes() =~= b0 + values_bytes(acc));
        w.write_string(self.server_name.as_ref())?;
        proof {
            crate::protocol::serde::wire::lemma_values_bytes_push(acc, string_value(opt_cstr_view(self.server_name)));
            assert(w.bytes() =~= b0 + values_bytes(acc.push(string_value(opt_cstr_view(self.server_name)))));
            acc = acc.push(string_value(opt_cstr_view(self.server_name)));
        }
        w.write_string(self.server_version.as_ref())?;
        proof {
            crate::protocol::serde::wire::lemma_values_bytes_push(acc, string_value(opt_cstr_view(self.server_version)));
            assert(w.bytes() =~= b0 + values_bytes(acc.push(string_value(opt_cstr_view(self.server_version)))));
            acc = acc.push(string_value(opt_cstr_view(self.server_version)));
        }
        w.write_string(self.user_name.as_ref())?;
        proof {
            crate::protocol::serde::wire::lemma_values_bytes_push(acc, string_value(opt_cstr_view(self.user_name)));
            assert(w.bytes() =~= b0 + values_bytes(acc.push(string_value(opt_cstr_view(self.user_name)))));
            acc = acc.push(string_value(opt_cstr_view(self.user_name)));
        }
        w.write_string(self.host_name.as_ref())?;
        proof {
            crate::protocol::serde::wire::lemma_values_bytes_push(acc, string_value(opt_cstr_view(self.host_name)));
            assert(w.bytes() =~= b0 + values_bytes(acc.push(string_value(opt_cstr_view(self.host_name)))));
            acc = acc.push(string_value(opt_cstr_view(self.host_name)));
        }
        w.write_sample_spec(self.sample_spec)?;
        proof {
            crate::protocol::serde::wire::lemma_values_bytes_push(acc, sample_spec_value(self.sample_spec));
            assert(w.bytes() =~= b0 + values_bytes(acc.push(sample_spec_value(self.sample_spec))));
            acc = acc.push(sample_spec_value(self.sample_spec));
        }
        w.write_string(self.default_sink_name.as_ref())?;
        proof {
            crate::protocol::serde::wire::lemma_values_bytes_push(acc, string_value(opt_cstr_view(self.default_sink_name)));
            assert(w.bytes() =~= b0 + values_bytes(acc.push(string_value(opt_cstr_view(self.default_sink_name)))));
            acc = acc.push(string_value(opt_cstr_view(self.default_sink_name)));
        }
        w.write_string(self.default_source_name.as_ref())?;
        proof {
            crate::protocol::serde::wire::lemma_values_bytes_push(acc, string_value(opt_cstr_view(self.default_source_name)));
            assert(w.bytes() =~= b0 + values_bytes(acc.push(string_value(opt_cstr_view(self.default_source_name)))));
            acc = acc.push(string_value(opt_cstr_view(self.default_source_name)));
        }
        w.write_u32(self.cookie)?;
        proof {
            crate::protocol::serde::wire::lemma_values_bytes_push(acc, TagValue::U32(self.cookie));
            assert(w.bytes() =~= b0 + values_bytes(acc.push(TagValue::U32(self.cookie))));
            acc = acc.push(TagValue::U32(self.cookie));
        }
        proof {
            assert(acc =~= self.spec_values(_protocol_version));
        }
        assert(w.bytes() =~= old(w).bytes() + values_bytes(self.spec_values(_protocol_version)));
        Ok(())
    }
}

impl TagStructRead for ServerInfoHead {
    open spec fn spec_parse(s: Seq<u8>, protocol_version: u16) -> Option<(Seq<TagValue>, int)> {
        match parse_values(s, 8) {
            Some((vs, n)) => if (vs[0] is Str || vs[0] is NullStr)
                && (vs[1] is Str || vs[1] is NullStr)
                && (vs[2] is Str || vs[2] is NullStr)
                && (vs[3] is Str || vs[3] is NullStr)
                && (vs[4] matches TagValue::SampleSpec(f, _, _) && sample_format_of_code(f) is Some)
                && (vs[5] is Str || vs[5] is NullStr)
                && (vs[6] is Str || vs[6] is NullStr)
                && vs[7] is U32
            {
                Some((vs, n))
            } else {
                None
            },
            None => None,
        }
    }

    open spec fn spec_canonical(&self, protocol_version: u16) -> bool {
        true
    }

    open spec fn spec_encodable(&self, protocol_version: u16) -> bool {
        &&& values_wf(self.spec_values(protocol_version))
        &&& self.spec_canonical(protocol_version)
    }

    #[verifier::rlimit(100)]
    #[verifier::spinoff_prover]
    fn read(ts: &mut TagStructReader, _protocol_version: u16) -> (r: Result<Self, ProtocolError>) {
        let ghost s = ts.rest();
        let ghost total: int = 8;
        proof {
            lemma_parse_values_start(s, total);
            lemma_parse_values_next(s, Seq::empty(), ts.rest(), total - 1);
        }
        let server_name = ts.read_string()?;
        proof {
            assert(parse_values(s, total as nat) == parse_values_after(
                seq![string_value(opt_cstr_view(server_name))],
                s.len() - ts.rest().len(),
                ts.rest(),
                total - 1,
            ));
            lemma_parse_values_next(
                s,
                seq![string_value(opt_cstr_view(server_name))],
                ts.rest(),
                total - 2,
            );
        }
        let server_version = ts.read_string()?;
        proof {
            assert(parse_values(s, total as nat) == parse_values_after(
                seq![
                    string_value(opt_cstr_view(server_name)),
                    string_value(opt_cstr_view(server_version)),
                ],
                s.len() - ts.rest().len(),
                ts.rest(),
                total - 2,
            ));
            lemma_parse_values_next(
                s,
                seq![
                    string_value(opt_cstr_view(server_name)),
                    string_value(opt_cstr_view(server_version)),
                ],
                ts.rest(),
                total - 3,
            );
        }
        let user_name = ts.read_string()?;
        proof {
            assert(parse_values(s, total as nat) == parse_values_after(
                seq![
                    string_value(opt_cstr_view(server_name)),
                    string_value(opt_cstr_view(server_version)),
                    string_value(opt_cstr_view(user_name)),
                ],
                s.len() - ts.rest().len(),
                ts.rest(),
                total - 3,
            ));
            lemma_parse_values_next(
                s,
                seq![
                    string_value(opt_cstr_view(server_name)),
                    string_value(opt_cstr_view(server_version)),
                    string_value(opt_cstr_view(user_name)),
                ],
                ts.rest(),
                total - 4,
            );
        }
        let host_name = ts.read_string()?;
        proof {
            assert(parse_values(s, total as nat) == parse_values_after(
                seq![
                    string_value(opt_cstr_view(server_name)),
                    string_value(opt_cstr_view(server_version)),
                    string_value(opt_cstr_view(user_name)),
                    string_value(opt_cstr_view(host_name)),
                ],
                s.len() - ts.rest().len(),
                ts.rest(),
                total - 4,
            ));
            lemma_parse_values_next(
                s,
                seq![
                    string_value(opt_cstr_view(server_name)),
                    string_value(opt_cstr_view(server_version)),
                    string_value(opt_cstr_view(user_name)),
                    string_value(opt_cstr_view(host_name)),
                ],
                ts.rest(),
                total - 5,
            );
        }
        let sample_spec = ts.read_sample_spec()?;
        proof {
            assert(parse_values(s, total as nat) == parse_values_after(
                seq![
                    string_value(opt_cstr_view(server_name)),
                    string_value(opt_cstr_view(server_version)),
                    string_value(opt_cstr_view(user_name)),
                    string_value(opt_cstr_view(host_name)),
                    sample_spec_value(sample_spec),
                ],
                s.len() - ts.rest().len(),
                ts.rest(),
                total - 5,
            ));
            lemma_parse_values_next(
                s,
                seq![
                    string_value(opt_cstr_view(server_name)),
                    string_value(opt_cstr_view(server_version)),
                    string_value(opt_cstr_view(user_name)),
                    string_value(opt_cstr_view(host_name)),
                    sample_spec_value(sample_spec),
                ],
                ts.rest(),
                total - 6,
            );
        }
        let default_sink_name = ts.read_string()?;
        proof {
            assert(parse_values(s, total as nat) == parse_values_after(
                seq![
                    string_value(opt_cstr_view(server_name)),
                    string_value(opt_cstr_view(server_version)),
                    string_value(opt_cstr_view(user_name)),
                    string_value(opt_cstr_view(host_name)),
                    sample_spec_value(sample_spec),
                    string_value(opt_cstr_view(default_sink_name)),
                ],
                s.len() - ts.rest().len(),
                ts.rest(),
                total - 6,
            ));
            lemma_parse_values_next(
                s,
                seq![
                    string_value(opt_cstr_view(server_name)),
                    string_value(opt_cstr_view(server_version)),
                    string_value(opt_cstr_view(user_name)),
                    string_value(opt_cstr_view(host_name)),
                    sample_spec_value(sample_spec),
                    string_value(opt_cstr_view(default_sink_name)),
                ],
                ts.rest(),
                total - 7,
            );
        }
        let default_source_name = ts.read_string()?;
        proof {
            assert(parse_values(s, total as nat) == parse_values_after(
                seq![
                    string_value(opt_cstr_view(server_name)),
                    string_value(opt_cstr_view(server_version)),
                    string_value(opt_cstr_view(user_name)),
                    string_value(opt_cstr_view(host_name)),
                    sample_spec_value(sample_spec),
                    string_value(opt_cstr_view(default_sink_name)),
                    string_value(opt_cstr_view(default_source_name)),
                ],
                s.len() - ts.rest().len(),
                ts.rest(),
                total - 7,
            ));
            lemma_parse_values_next(
                s,
                seq![
                    string_value(opt_cstr_view(server_name)),
                    string_value(opt_cstr_view(server_version)),
                    string_value(opt_cstr_view(user_name)),
                    string_value(opt_cstr_view(host_name)),
                    sample_spec_value(sample_spec),
                    string_value(opt_cstr_view(default_sink_name)),
                    string_value(opt_cstr_view(default_source_name)),
                ],
                ts.rest(),
                total - 8,
            );
        }
        let cookie = ts.read_u32()?;
        proof {
            assert(parse_values(s, total as nat) == parse_values_after(
                seq![
                    string_value(opt_cstr_view(server_name)),
                    string_value(opt_cstr_view(server_version)),
                    string_value(opt_cstr_view(user_name)),
                    string_value(opt_cstr_view(host_name)),
                    sample_spec_value(sample_spec),
                    string_value(opt_cstr_view(default_sink_name)),
                    string_value(opt_cstr_view(default_source_name)),
                    TagValue::U32(cookie),
                ],
                s.len() - ts.rest().len(),
                ts.rest(),
                total - 8,
            ));
            lemma_parse_values_done(
                seq![
                    string_value(opt_cstr_view(server_name)),
                    string_value(opt_cstr_view(server_version)),
                    string_value(opt_cstr_view(user_name)),
                    string_value(opt_cstr_view(host_name)),
                    sample_spec_value(sample_spec),
                    string_value(opt_cstr_view(default_sink_name)),
                    string_value(opt_cstr_view(default_source_name)),
                    TagValue::U32(cookie),
                ],
                s.len() - ts.rest().len(),
                ts.rest(),
            );
        }
        Ok(ServerInfoHead {
            server_name,
            server_version,
            user_name,
            host_name,
            sample_spec,
            default_sink_name,
            default_source_name,
            cookie,
        })
    }

    proof fn lemma_roundtrip(&self, protocol_version: u16, rest: Seq<u8>) {
        lemma_sample_format_roundtrip(self.sample_spec.format);
        lemma_parse_values_bytes(self.spec_values(protocol_version), rest);
    }
}


/// The values a [`ServerInfoHead`] is sent as, position by position: whatever a read
/// gives from the values `vs` holds each field from its own position.
pub proof fn lemma_server_info_head_layout(q: ServerInfoHead, vs: Seq<TagValue>, protocol_version: u16)
    requires
        q.spec_values(protocol_version) == vs,
    ensures
        vs == (
            seq![
                    string_value(opt_cstr_view(q.server_name)),
                    string_value(opt_cstr_view(q.server_version)),
                    string_value(opt_cstr_view(q.user_name)),
                    string_value(opt_cstr_view(q.host_name)),
                    sample_spec_value(q.sample_spec),
                    string_value(opt_cstr_view(q.default_sink_name)),
                    string_value(opt_cstr_view(q.default_source_name)),
                    TagValue::U32(q.cookie),
                ]
        ),
{
}


/// The values a [`ServerInfo`] is sent as, position by position: the package name,
/// the version, the user, the host, the sample format, the default sink, the
/// default source, the cookie and the channel map.
#[verifier::rlimit(100)]
pub proof fn lemma_server_info_layout(q: ServerInfo, vs: Seq<TagValue>, protocol_version: u16)
    requires
        q.spec_values(protocol_version) == vs,
    ensures
        vs =~= seq![
            string_value(opt_cstr_view(q.server_name)),
            string_value(opt_cstr_view(q.server_version)),
            string_value(opt_cstr_view(q.user_name)),
            string_value(opt_cstr_view(q.host_name)),
            sample_spec_value(q.sample_spec),
            string_value(opt_cstr_view(q.default_sink_name)),
            string_value(opt_cstr_view(q.default_source_name)),
            TagValue::U32(q.cookie),
            TagValue::ChannelMap(q.channel_map@),
        ],
{
}

} // verus!
