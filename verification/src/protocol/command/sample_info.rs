//! The entries of the sample cache.

use vstd::prelude::*;

use crate::protocol::error::ProtocolError;
use crate::protocol::serde::fields::{lemma_values_bytes_3, lemma_values_bytes_7};
use super::CommandReply;
use crate::protocol::serde::wire::{
    TagValue, lemma_parse_values_bytes, lemma_parse_values_done, lemma_parse_values_next,
    lemma_parse_values_start, lemma_values_bytes_concat, lemma_values_bytes_push, parse_values,
    parse_values_after, values_bytes, values_wf, wf_value,
};
use crate::protocol::serde::{
    TagStructRead, TagStructReader, TagStructWrite, TagStructWriter, opt_cstr_view, string_value,
};
use crate::protocol::serde::channel_map::{ChannelMap, lemma_channel_map_valid, positions_valid};
use crate::protocol::serde::cstr::CString;
use crate::protocol::serde::props::Props;
use crate::protocol::serde::sample_spec::{SampleSpec, lemma_sample_format_roundtrip, sample_format_of_code, sample_spec_value};
use crate::protocol::serde::volume::ChannelVolume;

verus! {

/// A single entry of the sample cache.
#[derive(Debug, Clone, PartialEq, Eq)]
pub struct SampleInfo {
    /// The ID of the entry.
    pub index: u32,

    /// The name of the entry.
    pub name: CString,

    /// The default volume of the entry.
    pub cvolume: ChannelVolume,

    /// The format of the entry.
    pub sample_spec: SampleSpec,

    /// The positions of the channels of the entry.
    pub channel_map: ChannelMap,

    /// The duration of the sample, in microseconds.
    pub duration: u64,

    /// The length in bytes.
    pub length: u32,

    /// If set, the file that the sound data is loaded from on demand.
    pub lazy: Option<CString>,

    /// Properties of the entry.
    pub props: Props,
}

/// The part of a [`SampleInfo`] before its lazy flag.
pub open spec fn sample_info_head(i: SampleInfo) -> SampleInfoHead {
    SampleInfoHead {
        index: i.index,
        name: i.name,
        cvolume: i.cvolume,
        duration: i.duration,
        sample_spec: i.sample_spec,
        channel_map: i.channel_map,
        length: i.length,
    }
}

/// The values of a sample entry from the lazy flag on: the flag is set
/// exactly when there is a file name.
pub open spec fn sample_info_tail_values(i: SampleInfo) -> Seq<TagValue> {
    seq![
        TagValue::Bool(i.lazy is Some),
        string_value(opt_cstr_view(i.lazy)),
        TagValue::PropList(i.props@),
    ]
}

/// The values from the lazy flag on as a read gives them back: the file
/// name is kept only where the lazy flag is set, and the flag only where a
/// file name is sent.
pub open spec fn lazy_normalize(tv: Seq<TagValue>) -> Seq<TagValue> {
    let lazy = tv[0] == TagValue::Bool(true) && tv[1] is Str;
    seq![TagValue::Bool(lazy), if lazy { tv[1] } else { TagValue::NullStr }, tv[2]]
}

impl TagStructWrite for SampleInfo {
    open spec fn spec_values(&self, protocol_version: u16) -> Seq<TagValue> {
        sample_info_head(*self).spec_values(protocol_version) + sample_info_tail_values(*self)
    }

    open spec fn spec_writable(&self) -> bool {
        true
    }

    #[verifier::rlimit(100)]
    #[verifier::spinoff_prover]
    fn write(&self, w: &mut TagStructWriter, _protocol_version: u16) -> (r: Result<(), ProtocolError>) {
        let ghost b0 = w.bytes();
        let ghost mut acc: Seq<TagValue> = Seq::empty();
        assert(w.bytes() =~= b0 + values_bytes(acc));
        w.write_u32(self.index)?;
        proof {
            lemma_values_bytes_push(acc, TagValue::U32(self.index));
            assert(w.bytes() =~= b0 + values_bytes(acc.push(TagValue::U32(self.index))));
            acc = acc.push(TagValue::U32(self.index));
        }
        w.write_string(Some(&self.name))?;
        proof {
            lemma_values_bytes_push(acc, TagValue::Str(self.name@));
            assert(w.bytes() =~= b0 + values_bytes(acc.push(TagValue::Str(self.name@))));
            acc = acc.push(TagValue::Str(self.name@));
        }
        w.write_cvolume(&self.cvolume)?;
        proof {
            lemma_values_bytes_push(acc, TagValue::CVolume(self.cvolume@));
            assert(w.bytes() =~= b0 + values_bytes(acc.push(TagValue::CVolume(self.cvolume@))));
            acc = acc.push(TagValue::CVolume(self.cvolume@));
        }
        w.write_usec(self.duration)?;
        proof {
            lemma_values_bytes_push(acc, TagValue::Usec(self.duration));
            assert(w.bytes() =~= b0 + values_bytes(acc.push(TagValue::Usec(self.duration))));
            acc = acc.push(TagValue::Usec(self.duration));
        }
        w.write_sample_spec(self.sample_spec)?;
        proof {
            lemma_values_bytes_push(acc, sample_spec_value(self.sample_spec));
            assert(w.bytes() =~= b0 + values_bytes(acc.push(sample_spec_value(self.sample_spec))));
            acc = acc.push(sample_spec_value(self.sample_spec));
        }
        w.write_channel_map(&self.channel_map)?;
        proof {
            lemma_values_bytes_push(acc, TagValue::ChannelMap(self.channel_map@));
            assert(w.bytes() =~= b0 + values_bytes(acc.push(TagValue::ChannelMap(self.channel_map@))));
            acc = acc.push(TagValue::ChannelMap(self.channel_map@));
        }
        w.write_u32(self.length)?;
        proof {
            lemma_values_bytes_push(acc, TagValue::U32(self.length));
            assert(w.bytes() =~= b0 + values_bytes(acc.push(TagValue::U32(self.length))));
            acc = acc.push(TagValue::U32(self.length));
        }
        w.write_bool(self.lazy.is_some())?;
        proof {
            lemma_values_bytes_push(acc, TagValue::Bool(self.lazy is Some));
            assert(w.bytes() =~= b0 + values_bytes(acc.push(TagValue::Bool(self.lazy is Some))));
            acc = acc.push(TagValue::Bool(self.lazy is Some));
        }
        w.write_string(self.lazy.as_ref())?;
        proof {
            lemma_values_bytes_push(acc, string_value(opt_cstr_view(self.lazy)));
            assert(w.bytes() =~= b0 + values_bytes(acc.push(string_value(opt_cstr_view(self.lazy)))));
            acc = acc.push(string_value(opt_cstr_view(self.lazy)));
        }
        w.write_props(&self.props)?;
        proof {
            lemma_values_bytes_push(acc, TagValue::PropList(self.props@));
            assert(w.bytes() =~= b0 + values_bytes(acc.push(TagValue::PropList(self.props@))));
            acc = acc.push(TagValue::PropList(self.props@));
        }
        assert(acc =~= self.spec_values(_protocol_version));
        assert(w.bytes() =~= old(w).bytes() + values_bytes(self.spec_values(_protocol_version)));
        Ok(())
    }
}

impl TagStructRead for SampleInfo {
    open spec fn spec_parse(s: Seq<u8>, protocol_version: u16) -> Option<(Seq<TagValue>, int)> {
        match SampleInfoHead::spec_parse(s, protocol_version) {
            Some((hv, n)) => match SampleInfoTail::spec_parse(s.skip(n), protocol_version) {
                Some((tv, m)) => Some((hv + lazy_normalize(tv), n + m)),
                None => None,
            },
            None => None,
        }
    }

    open spec fn spec_canonical(&self, protocol_version: u16) -> bool {
        true
    }

    open spec fn spec_encodable(&self, protocol_version: u16) -> bool {
        values_wf(self.spec_values(protocol_version))
    }

    fn read(ts: &mut TagStructReader, protocol_version: u16) -> (r: Result<Self, ProtocolError>) {
        let ghost s = ts.rest();
        let head = SampleInfoHead::read(ts, protocol_version)?;
        let ghost n = s.len() - ts.rest().len();
        let ghost hv = head.spec_values(protocol_version);
        let ghost t = ts.rest();
        let tail = SampleInfoTail::read(ts, protocol_version)?;
        let ghost tv = tail.spec_values(protocol_version);
        let lazy = if tail.lazy_flag {
            tail.lazy_name
        } else {
            None
        };
        let info = SampleInfo {
            index: head.index,
            name: head.name,
            cvolume: head.cvolume,
            sample_spec: head.sample_spec,
            channel_map: head.channel_map,
            duration: head.duration,
            length: head.length,
            lazy,
            props: tail.props,
        };
        proof {
            assert(sample_info_head(info).spec_values(protocol_version) == hv);
            assert(sample_info_tail_values(info) =~= lazy_normalize(tv));
            assert(info.spec_values(protocol_version) == hv + lazy_normalize(tv));
            let m = t.len() - ts.rest().len();
            assert(t =~= s.skip(n));
            assert(ts.rest() =~= s.skip(n + m));
        }
        Ok(info)
    }

    proof fn lemma_roundtrip(&self, protocol_version: u16, rest: Seq<u8>) {
        let h = sample_info_head(*self);
        let t = SampleInfoTail { lazy_flag: self.lazy is Some, lazy_name: self.lazy, props: self.props };
        let hv = h.spec_values(protocol_version);
        let tv = t.spec_values(protocol_version);
        let all = self.spec_values(protocol_version);
        assert(tv =~= sample_info_tail_values(*self));
        assert(all == hv + tv);
        assert(values_wf(hv)) by {
            assert forall|i: int| 0 <= i < hv.len() implies wf_value(#[trigger] hv[i]) by {
                assert(hv[i] == all[i]);
            }
        }
        assert(values_wf(tv)) by {
            assert forall|i: int| 0 <= i < tv.len() implies wf_value(#[trigger] tv[i]) by {
                assert(tv[i] == all[hv.len() + i]);
            }
        }
        lemma_values_bytes_concat(hv, tv);
        let after = values_bytes(tv) + rest;
        assert(values_bytes(all) + rest =~= values_bytes(hv) + after);
        h.lemma_roundtrip(protocol_version, after);
        let n = values_bytes(hv).len() as int;
        assert((values_bytes(hv) + after).skip(n) =~= after);
        t.lemma_roundtrip(protocol_version, rest);
        assert(lazy_normalize(tv) =~= tv);
    }
}

impl CommandReply for SampleInfo {}

/// The reply to [`super::Command::GetSampleInfoList`]: every entry of the
/// sample cache, read up to the end of the reply.
pub type SampleInfoList = Vec<SampleInfo>;

impl CommandReply for SampleInfoList {}

/// The values of a [`SampleInfo`] before its lazy-loading file.
#[derive(Debug, Clone, PartialEq, Eq)]
pub struct SampleInfoHead {
    /// The ID of the entry.
    pub index: u32,

    /// The name of the entry.
    pub name: CString,

    /// The default volume of the entry.
    pub cvolume: ChannelVolume,

    /// The duration of the sample, in microseconds.
    pub duration: u64,

    /// The format of the entry.
    pub sample_spec: SampleSpec,

    /// The positions of the channels of the entry.
    pub channel_map: ChannelMap,

    /// The length in bytes.
    pub length: u32,
}

impl TagStructWrite for SampleInfoHead {
    open spec fn spec_values(&self, protocol_version: u16) -> Seq<TagValue> {
        seq![
            TagValue::U32(self.index),
            TagValue::Str(self.name@),
            TagValue::CVolume(self.cvolume@),
            TagValue::Usec(self.duration),
            sample_spec_value(self.sample_spec),
            TagValue::ChannelMap(self.channel_map@),
            TagValue::U32(self.length),
        ]
    }

    open spec fn spec_writable(&self) -> bool {
        true
    }

    #[verifier::rlimit(100)]
    #[verifier::spinoff_prover]
    fn write(&self, w: &mut TagStructWriter, _protocol_version: u16) -> (r: Result<(), ProtocolError>) {
        w.write_u32(self.index)?;
        w.write_string(Some(&self.name))?;
        w.write_cvolume(&self.cvolume)?;
        w.write_usec(self.duration)?;
        w.write_sample_spec(self.sample_spec)?;
        w.write_channel_map(&self.channel_map)?;
        w.write_u32(self.length)?;
        proof {
            lemma_values_bytes_7(
                TagValue::U32(self.index),
                TagValue::Str(self.name@),
                TagValue::CVolume(self.cvolume@),
                TagValue::Usec(self.duration),
                sample_spec_value(self.sample_spec),
                TagValue::ChannelMap(self.channel_map@),
                TagValue::U32(self.length),
            );
        }
        assert(w.bytes() =~= old(w).bytes() + values_bytes(self.spec_values(_protocol_version)));
        Ok(())
    }
}

impl TagStructRead for SampleInfoHead {
    open spec fn spec_parse(s: Seq<u8>, protocol_version: u16) -> Option<(Seq<TagValue>, int)> {
        match parse_values(s, 7) {
            Some((vs, n)) => if vs[0] is U32
                && vs[1] is Str
                && vs[2] is CVolume
                && vs[3] is Usec
                && (vs[4] matches TagValue::SampleSpec(f, _, _) && sample_format_of_code(f) is Some)
                && (vs[5] matches TagValue::ChannelMap(c) && positions_valid(c))
                && vs[6] is U32
            {
                Some((vs, n))
            } else {
                None
            },
            None => None,
        }
    }

    open spec fn spec_canonical(&self, protocol_version: u16) -> bool {
        true
    }

    open spec fn spec_encodable(&self, protocol_version: u16) -> bool {
        &&& values_wf(self.spec_values(protocol_version))
        &&& self.spec_canonical(protocol_version)
    }

    #[verifier::rlimit(100)]
    #[verifier::spinoff_prover]
    fn read(ts: &mut TagStructReader, _protocol_version: u16) -> (r: Result<Self, ProtocolError>) {
        let ghost s = ts.rest();
        let ghost total: int = 7;
        proof {
            lemma_parse_values_start(s, total);
            lemma_parse_values_next(s, Seq::empty(), ts.rest(), total - 1);
        }
        let index = ts.read_u32()?;
        proof {
            assert(parse_values(s, total as nat) == parse_values_after(
                seq![TagValue::U32(index)],
                s.len() - ts.rest().len(),
                ts.rest(),
                total - 1,
            ));
            lemma_parse_values_next(s, seq![TagValue::U32(index)], ts.rest(), total - 2);
        }
        let name = match ts.read_string()? {
            Some(c) => c,
            None => {
                return Err(ProtocolError::Invalid("invalid sample name".to_owned()));
            },
        };
        proof {
            assert(parse_values(s, total as nat) == parse_values_after(
                seq![TagValue::U32(index), TagValue::Str(name@)],
                s.len() - ts.rest().len(),
                ts.rest(),
                total - 2,
            ));
            lemma_parse_values_next(
                s,
                seq![TagValue::U32(index), TagValue::Str(name@)],
                ts.rest(),
                total - 3,
            );
        }
        let cvolume = ts.read_cvolume()?;
        proof {
            assert(parse_values(s, total as nat) == parse_values_after(
                seq![TagValue::U32(index), TagValue::Str(name@), TagValue::CVolume(cvolume@)],
                s.len() - ts.rest().len(),
                ts.rest(),
                total - 3,
            ));
            lemma_parse_values_next(
                s,
                seq![TagValue::U32(index), TagValue::Str(name@), TagValue::CVolume(cvolume@)],
                ts.rest(),
                total - 4,
            );
        }
        let duration = ts.read_usec()?;
        proof {
            assert(parse_values(s, total as nat) == parse_values_after(
                seq![
                    TagValue::U32(index),
                    TagValue::Str(name@),
                    TagValue::CVolume(cvolume@),
                    TagValue::Usec(duration),
                ],
                s.len() - ts.rest().len(),
                ts.rest(),
                total - 4,
            ));
            lemma_parse_values_next(
                s,
                seq![
                    TagValue::U32(index),
                    TagValue::Str(name@),
                    TagValue::CVolume(cvolume@),
                    TagValue::Usec(duration),
                ],
                ts.rest(),
                total - 5,
            );
        }
        let sample_spec = ts.read_sample_spec()?;
        proof {
            assert(parse_values(s, total as nat) == parse_values_after(
                seq![
                    TagValue::U32(index),
                    TagValue::Str(name@),
                    TagValue::CVolume(cvolume@),
                    TagValue::Usec(duration),
                    sample_spec_value(sample_spec),
                ],
                s.len() - ts.rest().len(),
                ts.rest(),
                total - 5,
            ));
            lemma_parse_values_next(
                s,
                seq![
                    TagValue::U32(index),
                    TagValue::Str(name@),
                    TagValue::CVolume(cvolume@),
                    TagValue::Usec(duration),
                    sample_spec_value(sample_spec),
                ],
                ts.rest(),
                total - 6,
            );
        }
        let channel_map = ts.read_channel_map()?;
        proof {
            assert(parse_values(s, total as nat) == parse_values_after(
                seq![
                    TagValue::U32(index),
                    TagValue::Str(name@),
                    TagValue::CVolume(cvolume@),
                    TagValue::Usec(duration),
                    sample_spec_value(sample_spec),
                    TagValue::ChannelMap(channel_map@),
                ],
                s.len() - ts.rest().len(),
                ts.rest(),
                total - 6,
            ));
            lemma_parse_values_next(
                s,
                seq![
                    TagValue::U32(index),
                    TagValue::Str(name@),
                    TagValue::CVolume(cvolume@),
                    TagValue::Usec(duration),
                    sample_spec_value(sample_spec),
                    TagValue::ChannelMap(channel_map@),
                ],
                ts.rest(),
                total - 7,
            );
        }
        let length = ts.read_u32()?;
        proof {
            assert(parse_values(s, total as nat) == parse_values_after(
                seq![
                    TagValue::U32(index),
                    TagValue::Str(name@),
                    TagValue::CVolume(cvolume@),
                    TagValue::Usec(duration),
                    sample_spec_value(sample_spec),
                    TagValue::ChannelMap(channel_map@),
                    TagValue::U32(length),
                ],
                s.len() - ts.rest().len(),
                ts.rest(),
                total - 7,
            ));
            lemma_parse_values_done(
                seq![
                    TagValue::U32(index),
                    TagValue::Str(name@),
                    TagValue::CVolume(cvolume@),
                    TagValue::Usec(duration),
                    sample_spec_value(sample_spec),
                    TagValue::ChannelMap(channel_map@),
                    TagValue::U32(length),
                ],
                s.len() - ts.rest().len(),
                ts.rest(),
            );
        }
        Ok(SampleInfoHead {
            index,
            name,
            cvolume,
            duration,
            sample_spec,
            channel_map,
            length,
        })
    }

    proof fn lemma_roundtrip(&self, protocol_version: u16, rest: Seq<u8>) {
        lemma_sample_format_roundtrip(self.sample_spec.format);
        lemma_channel_map_valid(self.channel_map);
        lemma_parse_values_bytes(self.spec_values(protocol_version), rest);
    }
}

/// The values of a [`SampleInfo`] from its lazy flag on, as they are sent.
#[derive(Debug, Clone, PartialEq, Eq)]
pub struct SampleInfoTail {
    /// Whether the entry is loaded on demand.
    pub lazy_flag: bool,

    /// The file the entry is loaded from.
    pub lazy_name: Option<CString>,

    /// Properties of the entry.
    pub props: Props,
}

impl TagStructWrite for SampleInfoTail {
    open spec fn spec_values(&self, protocol_version: u16) -> Seq<TagValue> {
        seq![
            TagValue::Bool(self.lazy_flag),
            string_value(opt_cstr_view(self.lazy_name)),
            TagValue::PropList(self.props@),
        ]
    }

    open spec fn spec_writable(&self) -> bool {
        true
    }

    #[verifier::rlimit(100)]
    #[verifier::spinoff_prover]
    fn write(&self, w: &mut TagStructWriter, _protocol_version: u16) -> (r: Result<(), ProtocolError>) {
        w.write_bool(self.lazy_flag)?;
        w.write_string(self.lazy_name.as_ref())?;
        w.write_props(&self.props)?;
        proof {
            lemma_values_bytes_3(
                TagValue::Bool(self.lazy_flag),
                string_value(opt_cstr_view(self.lazy_name)),
                TagValue::PropList(self.props@),
            );
        }
        assert(w.bytes() =~= old(w).bytes() + values_bytes(self.spec_values(_protocol_version)));
        Ok(())
    }
}

impl TagStructRead for SampleInfoTail {
    open spec fn spec_parse(s: Seq<u8>, protocol_version: u16) -> Option<(Seq<TagValue>, int)> {
        match parse_values(s, 3) {
            Some((vs, n)) => if vs[0] is Bool
                && (vs[1] is Str || vs[1] is NullStr)
                && vs[2] is PropList
            {
                Some((vs, n))
            } else {
                None
            },
            None => None,
        }
    }

    open spec fn spec_canonical(&self, protocol_version: u16) -> bool {
        true
    }

    open spec fn spec_encodable(&self, protocol_version: u16) -> bool {
        &&& values_wf(self.spec_values(protocol_version))
        &&& self.spec_canonical(protocol_version)
    }

    fn read(ts: &mut TagStructReader, _protocol_version: u16) -> (r: Result<Self, ProtocolError>) {
        let ghost s = ts.rest();
        let ghost total: int = 3;
        proof {
            lemma_parse_values_start(s, total);
            lemma_parse_values_next(s, Seq::empty(), ts.rest(), total - 1);
        }
        let lazy_flag = ts.read_bool()?;
        proof {
            assert(parse_values(s, total as nat) == parse_values_after(
                seq![TagValue::Bool(lazy_flag)],
                s.len() - ts.rest().len(),
                ts.rest(),
                total - 1,
            ));
            lemma_parse_values_next(s, seq![TagValue::Bool(lazy_flag)], ts.rest(), total - 2);
        }
        let lazy_name = ts.read_string()?;
        proof {
            assert(parse_values(s, total as nat) == parse_values_after(
                seq![TagValue::Bool(lazy_flag), string_value(opt_cstr_view(lazy_name))],
                s.len() - ts.rest().len(),
                ts.rest(),
                total - 2,
            ));
            lemma_parse_values_next(
                s,
                seq![TagValue::Bool(lazy_flag), string_value(opt_cstr_view(lazy_name))],
                ts.rest(),
                total - 3,
            );
        }
        let props = ts.read_props()?;
        proof {
            assert(parse_values(s, total as nat) == parse_values_after(
                seq![
                    TagValue::Bool(lazy_flag),
                    string_value(opt_cstr_view(lazy_name)),
                    TagValue::PropList(props@),
                ],
                s.len() - ts.rest().len(),
                ts.rest(),
                total - 3,
            ));
            lemma_parse_values_done(
                seq![
                    TagValue::Bool(lazy_flag),
                    string_value(opt_cstr_view(lazy_name)),
                    TagValue::PropList(props@),
                ],
                s.len() - ts.rest().len(),
                ts.rest(),
            );
        }
        Ok(SampleInfoTail {
            lazy_flag,
            lazy_name,
            props,
        })
    }

    proof fn lemma_roundtrip(&self, protocol_version: u16, rest: Seq<u8>) {
        lemma_parse_values_bytes(self.spec_values(protocol_version), rest);
    }
}


/// The values a [`SampleInfoHead`] is sent as, position by position: whatever a read
/// gives from the values `vs` holds each field from its own position.
pub proof fn lemma_sample_info_head_layout(q: SampleInfoHead, vs: Seq<TagValue>, protocol_version: u16)
    requires
        q.spec_values(protocol_version) == vs,
    ensures
        vs == (
            seq![
                    TagValue::U32(q.index),
                    TagValue::Str(q.name@),
                    TagValue::CVolume(q.cvolume@),
                    TagValue::Usec(q.duration),
                    sample_spec_value(q.sample_spec),
                    TagValue::ChannelMap(q.channel_map@),
                    TagValue::U32(q.length),
                ]
        ),
{
}

/// The values a [`SampleInfoTail`] is sent as, position by position: whatever a read
/// gives from the values `vs` holds each field from its own position.
pub proof fn lemma_sample_info_tail_layout(q: SampleInfoTail, vs: Seq<TagValue>, protocol_version: u16)
    requires
        q.spec_values(protocol_version) == vs,
    ensures
        vs == (
            seq![
                    TagValue::Bool(q.lazy_flag),
                    string_value(opt_cstr_view(q.lazy_name)),
                    TagValue::PropList(q.props@),
                ]
        ),
{
}


/// The values a [`SampleInfo`] is sent as, position by position.
#[verifier::rlimit(100)]
pub proof fn lemma_sample_info_layout(q: SampleInfo, vs: Seq<TagValue>, protocol_version: u16)
    requires
        q.spec_values(protocol_version) == vs,
    ensures
        vs =~= seq![
            TagValue::U32(q.index),
            TagValue::Str(q.name@),
            TagValue::CVolume(q.cvolume@),
            TagValue::Usec(q.duration),
            sample_spec_value(q.sample_spec),
            TagValue::ChannelMap(q.channel_map@),
            TagValue::U32(q.length),
            TagValue::Bool(q.lazy is Some),
            string_value(opt_cstr_view(q.lazy)),
            TagValue::PropList(q.props@),
        ],
{
}

} // verus!
