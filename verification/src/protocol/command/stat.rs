//! Statistics about the server's memory use.

use vstd::prelude::*;

use crate::protocol::error::ProtocolError;
use crate::protocol::serde::fields::{lemma_values_bytes_5};
use crate::protocol::serde::wire::{
    TagValue, lemma_parse_values_bytes, lemma_parse_values_done, lemma_parse_values_next,
    lemma_parse_values_start, parse_values, parse_values_after, values_bytes, values_wf,
};
use crate::protocol::serde::{TagStructRead, TagStructReader, TagStructWrite, TagStructWriter};
use super::CommandReply;

verus! {

/// The reply to [`super::Command::Stat`].
#[derive(Default, Debug, Copy, Clone, PartialEq, Eq)]
pub struct StatInfo {
    /// The number of memory blocks in use.
    pub memblock_total: u32,

    /// The size of the memory blocks in use, in bytes.
    pub memblock_total_size: u32,

    /// The number of memory blocks allocated over the lifetime of the
    /// daemon.
    pub memblock_allocated: u32,

    /// The size of the memory blocks allocated over the lifetime of the
    /// daemon, in bytes.
    pub memblock_allocated_size: u32,

    /// The size of the sample cache, in bytes.
    pub sample_cache_size: u32,
}

impl TagStructWrite for StatInfo {
    open spec fn spec_values(&self, protocol_version: u16) -> Seq<TagValue> {
        seq![
            TagValue::U32(self.memblock_total),
            TagValue::U32(self.memblock_total_size),
            TagValue::U32(self.memblock_allocated),
            TagValue::U32(self.memblock_allocated_size),
            TagValue::U32(self.sample_cache_size),
        ]
    }

    open spec fn spec_writable(&self) -> bool {
        true
    }

    fn write(&self, w: &mut TagStructWriter, _protocol_version: u16) -> (r: Result<(), ProtocolError>) {
        w.write_u32(self.memblock_total)?;
        w.write_u32(self.memblock_total_size)?;
        w.write_u32(self.memblock_allocated)?;
        w.write_u32(self.memblock_allocated_size)?;
        w.write_u32(self.sample_cache_size)?;
        proof {
            lemma_values_bytes_5(
                TagValue::U32(self.memblock_total),
                TagValue::U32(self.memblock_total_size),
                TagValue::U32(self.memblock_allocated),
                TagValue::U32(self.memblock_allocated_size),
                TagValue::U32(self.sample_cache_size),
            );
        }
        assert(w.bytes() =~= old(w).bytes() + values_bytes(self.spec_values(_protocol_version)));
        Ok(())
    }
}

impl TagStructRead for StatInfo {
    open spec fn spec_parse(s: Seq<u8>, protocol_version: u16) -> Option<(Seq<TagValue>, int)> {
        match parse_values(s, 5) {
            Some((vs, n)) => if vs[0] is U32
                && vs[1] is U32
                && vs[2] is U32
                && vs[3] is U32
                && vs[4] is U32
            {
                Some((vs, n))
            } else {
                None
            },
            None => None,
        }
    }

    open spec fn spec_canonical(&self, protocol_version: u16) -> bool {
        true
    }

    open spec fn spec_encodable(&self, protocol_version: u16) -> bool {
        &&& values_wf(self.spec_values(protocol_version))
        &&& self.spec_canonical(protocol_version)
    }

    fn read(ts: &mut TagStructReader, _protocol_version: u16) -> (r: Result<Self, ProtocolError>) {
        let ghost s = ts.rest();
        let ghost total: int = 5;
        proof {
            lemma_parse_values_start(s, total);
            lemma_parse_values_next(s, Seq::empty(), ts.rest(), total - 1);
        }
        let memblock_total = ts.read_u32()?;
        proof {
            assert(parse_values(s, total as nat) == parse_values_after(
                seq![TagValue::U32(memblock_total)],
                s.len() - ts.rest().len(),
                ts.rest(),
                total - 1,
            ));
            lemma_parse_values_next(s, seq![TagValue::U32(memblock_total)], ts.rest(), total - 2);
        }
        let memblock_total_size = ts.read_u32()?;
        proof {
            assert(parse_values(s, total as nat) == parse_values_after(
                seq![TagValue::U32(memblock_total), TagValue::U32(memblock_total_size)],
                s.len() - ts.rest().len(),
                ts.rest(),
                total - 2,
            ));
            lemma_parse_values_next(
                s,
                seq![TagValue::U32(memblock_total), TagValue::U32(memblock_total_size)],
                ts.rest(),
                total - 3,
            );
        }
        let memblock_allocated = ts.read_u32()?;
        proof {
            assert(parse_values(s, total as nat) == parse_values_after(
                seq![
                    TagValue::U32(memblock_total),
                    TagValue::U32(memblock_total_size),
                    TagValue::U32(memblock_allocated),
                ],
                s.len() - ts.rest().len(),
                ts.rest(),
                total - 3,
            ));
            lemma_parse_values_next(
                s,
                seq![
                    TagValue::U32(memblock_total),
                    TagValue::U32(memblock_total_size),
                    TagValue::U32(memblock_allocated),
                ],
                ts.rest(),
                total - 4,
            );
        }
        let memblock_allocated_size = ts.read_u32()?;
        proof {
            assert(parse_values(s, total as nat) == parse_values_after(
                seq![
                    TagValue::U32(memblock_total),
                    TagValue::U32(memblock_total_size),
                    TagValue::U32(memblock_allocated),
                    TagValue::U32(memblock_allocated_size),
                ],
                s.len() - ts.rest().len(),
                ts.rest(),
                total - 4,
            ));
            lemma_parse_values_next(
                s,
                seq![
                    TagValue::U32(memblock_total),
                    TagValue::U32(memblock_total_size),
                    TagValue::U32(memblock_allocated),
                    TagValue::U32(memblock_allocated_size),
                ],
                ts.rest(),
                total - 5,
            );
        }
        let sample_cache_size = ts.read_u32()?;
        proof {
            assert(parse_values(s, total as nat) == parse_values_after(
                seq![
                    TagValue::U32(memblock_total),
                    TagValue::U32(memblock_total_size),
                    TagValue::U32(memblock_allocated),
                    TagValue::U32(memblock_allocated_size),
                    TagValue::U32(sample_cache_size),
                ],
                s.len() - ts.rest().len(),
                ts.rest(),
                total - 5,
            ));
            lemma_parse_values_done(
                seq![
                    TagValue::U32(memblock_total),
                    TagValue::U32(memblock_total_size),
                    TagValue::U32(memblock_allocated),
                    TagValue::U32(memblock_allocated_size),
                    TagValue::U32(sample_cache_size),
                ],
                s.len() - ts.rest().len(),
                ts.rest(),
            );
        }
        Ok(StatInfo {
            memblock_total,
            memblock_total_size,
            memblock_allocated,
            memblock_allocated_size,
            sample_cache_size,
        })
    }

    proof fn lemma_roundtrip(&self, protocol_version: u16, rest: Seq<u8>) {
        lemma_parse_values_bytes(self.spec_values(protocol_version), rest);
    }
}

impl CommandReply for StatInfo {}


/// The values a [`StatInfo`] is sent as, position by position: whatever a read
/// gives from the values `vs` holds each field from its own position.
pub proof fn lemma_stat_info_layout(q: StatInfo, vs: Seq<TagValue>, protocol_version: u16)
    requires
        q.spec_values(protocol_version) == vs,
    ensures
        vs == (
            seq![
                    TagValue::U32(q.memblock_total),
                    TagValue::U32(q.memblock_total_size),
                    TagValue::U32(q.memblock_allocated),
                    TagValue::U32(q.memblock_allocated_size),
                    TagValue::U32(q.sample_cache_size),
                ]
        ),
{
}

} // verus!
