//! Querying the latency of streams.

use vstd::prelude::*;

use crate::protocol::error::ProtocolError;
use crate::protocol::serde::fields::{
    lemma_values_bytes_2, lemma_values_bytes_7, lemma_values_bytes_9,
};
use crate::protocol::serde::wire::{
    TagValue, lemma_parse_values_bytes, lemma_parse_values_done, lemma_parse_values_next,
    lemma_parse_values_start, parse_values, parse_values_after, values_bytes, values_wf,
};
use crate::protocol::serde::{
    TagStructRead, TagStructReader, TagStructWrite, TagStructWriter, Timestamp, timestamp_timeval,
};
use super::CommandReply;

verus! {

/// Parameters for querying the latency of a stream.
#[derive(Debug, Clone, Copy, PartialEq, Eq)]
pub struct LatencyParams {
    /// The channel of the stream.
    pub channel: u32,

    /// The local time of the request.
    pub now: Timestamp,
}

impl TagStructWrite for LatencyParams {
    open spec fn spec_values(&self, protocol_version: u16) -> Seq<TagValue> {
        seq![TagValue::U32(self.channel), timestamp_timeval(self.now)]
    }

    open spec fn spec_writable(&self) -> bool {
        true
    }

    fn write(&self, w: &mut TagStructWriter, _protocol_version: u16) -> (r: Result<(), ProtocolError>) {
        w.write_u32(self.channel)?;
        w.write_timeval(self.now)?;
        proof {
            lemma_values_bytes_2(TagValue::U32(self.channel), timestamp_timeval(self.now));
        }
        assert(w.bytes() =~= old(w).bytes() + values_bytes(self.spec_values(_protocol_version)));
        Ok(())
    }
}

impl TagStructRead for LatencyParams {
    open spec fn spec_parse(s: Seq<u8>, protocol_version: u16) -> Option<(Seq<TagValue>, int)> {
        match parse_values(s, 2) {
            Some((vs, n)) => if vs[0] is U32 && vs[1] is TimeVal {
                Some((vs, n))
            } else {
                None
            },
            None => None,
        }
    }

    open spec fn spec_canonical(&self, protocol_version: u16) -> bool {
        true
    }

    open spec fn spec_encodable(&self, protocol_version: u16) -> bool {
        &&& values_wf(self.spec_values(protocol_version))
        &&& self.spec_canonical(protocol_version)
    }

    fn read(ts: &mut TagStructReader, _protocol_version: u16) -> (r: Result<Self, ProtocolError>) {
        let ghost s = ts.rest();
        let ghost total: int = 2;
        proof {
            lemma_parse_values_start(s, total);
            lemma_parse_values_next(s, Seq::empty(), ts.rest(), total - 1);
        }
        let channel = ts.read_u32()?;
        proof {
            assert(parse_values(s, total as nat) == parse_values_after(
                seq![TagValue::U32(channel)],
                s.len() - ts.rest().len(),
                ts.rest(),
                total - 1,
            ));
            lemma_parse_values_next(s, seq![TagValue::U32(channel)], ts.rest(), total - 2);
        }
        let now = ts.read_timeval()?;
        proof {
            assert(parse_values(s, total as nat) == parse_values_after(
                seq![TagValue::U32(channel), timestamp_timeval(now)],
                s.len() - ts.rest().len(),
                ts.rest(),
                total - 2,
            ));
            lemma_parse_values_done(
                seq![TagValue::U32(channel), timestamp_timeval(now)],
                s.len() - ts.rest().len(),
                ts.rest(),
            );
        }
        Ok(LatencyParams { channel, now })
    }

    proof fn lemma_roundtrip(&self, protocol_version: u16, rest: Seq<u8>) {
        lemma_parse_values_bytes(self.spec_values(protocol_version), rest);
    }
}

/// The latency of a playback stream.
#[derive(Debug, Clone, Copy, PartialEq, Eq)]
pub struct PlaybackLatency {
    /// The latency of the sink, in microseconds.
    pub sink_usec: u64,

    /// The latency of the source, in microseconds.
    pub source_usec: u64,

    /// Whether the stream is playing.
    pub playing: bool,

    /// The local time of the request.
    pub local_time: Timestamp,

    /// The server time of the reply.
    pub remote_time: Timestamp,

    /// The write offset of the buffer.
    pub write_offset: i64,

    /// The read offset of the buffer.
    pub read_offset: i64,

    /// The number of bytes played since the last underrun.
    pub underrun_for: u64,

    /// The number of bytes played since playback began.
    pub playing_for: u64,
}

impl TagStructWrite for PlaybackLatency {
    open spec fn spec_values(&self, protocol_version: u16) -> Seq<TagValue> {
        seq![
            TagValue::Usec(self.sink_usec),
            TagValue::Usec(self.source_usec),
            TagValue::Bool(self.playing),
            timestamp_timeval(self.local_time),
            timestamp_timeval(self.remote_time),
            TagValue::S64(self.write_offset),
            TagValue::S64(self.read_offset),
            TagValue::U64(self.underrun_for),
            TagValue::U64(self.playing_for),
        ]
    }

    open spec fn spec_writable(&self) -> bool {
        true
    }

    fn write(&self, w: &mut TagStructWriter, _protocol_version: u16) -> (r: Result<(), ProtocolError>) {
        w.write_usec(self.sink_usec)?;
        w.write_usec(self.source_usec)?;
        w.write_bool(self.playing)?;
        w.write_timeval(self.local_time)?;
        w.write_timeval(self.remote_time)?;
        w.write_i64(self.write_offset)?;
        w.write_i64(self.read_offset)?;
        w.write_u64(self.underrun_for)?;
        w.write_u64(self.playing_for)?;
        proof {
            lemma_values_bytes_9(
                TagValue::Usec(self.sink_usec),
                TagValue::Usec(self.source_usec),
                TagValue::Bool(self.playing),
                timestamp_timeval(self.local_time),
                timestamp_timeval(self.remote_time),
                TagValue::S64(self.write_offset),
                TagValue::S64(self.read_offset),
                TagValue::U64(self.underrun_for),
                TagValue::U64(self.playing_for),
            );
        }
        assert(w.bytes() =~= old(w).bytes() + values_bytes(self.spec_values(_protocol_version)));
        Ok(())
    }
}

impl TagStructRead for PlaybackLatency {
    open spec fn spec_parse(s: Seq<u8>, protocol_version: u16) -> Option<(Seq<TagValue>, int)> {
        match parse_values(s, 9) {
            Some((vs, n)) => if vs[0] is Usec
                && vs[1] is Usec
                && vs[2] is Bool
                && vs[3] is TimeVal
                && vs[4] is TimeVal
                && vs[5] is S64
                && vs[6] is S64
                && vs[7] is U64
                && vs[8] is U64
            {
                Some((vs, n))
            } else {
                None
            },
            None => None,
        }
    }

    open spec fn spec_canonical(&self, protocol_version: u16) -> bool {
        true
    }

    open spec fn spec_encodable(&self, protocol_version: u16) -> bool {
        &&& values_wf(self.spec_values(protocol_version))
        &&& self.spec_canonical(protocol_version)
    }

    #[verifier::rlimit(100)]
    fn read(ts: &mut TagStructReader, _protocol_version: u16) -> (r: Result<Self, ProtocolError>) {
        let ghost s = ts.rest();
        let ghost total: int = 9;
        proof {
            lemma_parse_values_start(s, total);
            lemma_parse_values_next(s, Seq::empty(), ts.rest(), total - 1);
        }
        let sink_usec = ts.read_usec()?;
        proof {
            assert(parse_values(s, total as nat) == parse_values_after(
                seq![TagValue::Usec(sink_usec)],
                s.len() - ts.rest().len(),
                ts.rest(),
                total - 1,
            ));
            lemma_parse_values_next(s, seq![TagValue::Usec(sink_usec)], ts.rest(), total - 2);
        }
        let source_usec = ts.read_usec()?;
        proof {
            assert(parse_values(s, total as nat) == parse_values_after(
                seq![TagValue::Usec(sink_usec), TagValue::Usec(source_usec)],
                s.len() - ts.rest().len(),
                ts.rest(),
                total - 2,
            ));
            lemma_parse_values_next(
                s,
                seq![TagValue::Usec(sink_usec), TagValue::Usec(source_usec)],
                ts.rest(),
                total - 3,
            );
        }
        let playing = ts.read_bool()?;
        proof {
            assert(parse_values(s, total as nat) == parse_values_after(
                seq![
                    TagValue::Usec(sink_usec),
                    TagValue::Usec(source_usec),
                    TagValue::Bool(playing),
                ],
                s.len() - ts.rest().len(),
                ts.rest(),
                total - 3,
            ));
            lemma_parse_values_next(
                s,
                seq![
                    TagValue::Usec(sink_usec),
                    TagValue::Usec(source_usec),
                    TagValue::Bool(playing),
                ],
                ts.rest(),
                total - 4,
            );
        }
        let local_time = ts.read_timeval()?;
        proof {
            assert(parse_values(s, total as nat) == parse_values_after(
                seq![
                    TagValue::Usec(sink_usec),
                    TagValue::Usec(source_usec),
                    TagValue::Bool(playing),
                    timestamp_timeval(local_time),
                ],
                s.len() - ts.rest().len(),
                ts.rest(),
                total - 4,
            ));
            lemma_parse_values_next(
                s,
                seq![
                    TagValue::Usec(sink_usec),
                    TagValue::Usec(source_usec),
                    TagValue::Bool(playing),
                    timestamp_timeval(local_time),
                ],
                ts.rest(),
                total - 5,
            );
        }
        let remote_time = ts.read_timeval()?;
        proof {
            assert(parse_values(s, total as nat) == parse_values_after(
                seq![
                    TagValue::Usec(sink_usec),
                    TagValue::Usec(source_usec),
                    TagValue::Bool(playing),
                    timestamp_timeval(local_time),
                    timestamp_timeval(remote_time),
                ],
                s.len() - ts.rest().len(),
                ts.rest(),
                total - 5,
            ));
            lemma_parse_values_next(
                s,
                seq![
                    TagValue::Usec(sink_usec),
                    TagValue::Usec(source_usec),
                    TagValue::Bool(playing),
                    timestamp_timeval(local_time),
                    timestamp_timeval(remote_time),
                ],
                ts.rest(),
                total - 6,
            );
        }
        let write_offset = ts.read_i64()?;
        proof {
            assert(parse_values(s, total as nat) == parse_values_after(
                seq![
                    TagValue::Usec(sink_usec),
                    TagValue::Usec(source_usec),
                    TagValue::Bool(playing),
                    timestamp_timeval(local_time),
                    timestamp_timeval(remote_time),
                    TagValue::S64(write_offset),
                ],
                s.len() - ts.rest().len(),
                ts.rest(),
                total - 6,
            ));
            lemma_parse_values_next(
                s,
                seq![
                    TagValue::Usec(sink_usec),
                    TagValue::Usec(source_usec),
                    TagValue::Bool(playing),
                    timestamp_timeval(local_time),
                    timestamp_timeval(remote_time),
                    TagValue::S64(write_offset),
                ],
                ts.rest(),
                total - 7,
            );
        }
        let read_offset = ts.read_i64()?;
        proof {
            assert(parse_values(s, total as nat) == parse_values_after(
                seq![
                    TagValue::Usec(sink_usec),
                    TagValue::Usec(source_usec),
                    TagValue::Bool(playing),
                    timestamp_timeval(local_time),
                    timestamp_timeval(remote_time),
                    TagValue::S64(write_offset),
                    TagValue::S64(read_offset),
                ],
                s.len() - ts.rest().len(),
                ts.rest(),
                total - 7,
            ));
            lemma_parse_values_next(
                s,
                seq![
                    TagValue::Usec(sink_usec),
                    TagValue::Usec(source_usec),
                    TagValue::Bool(playing),
                    timestamp_timeval(local_time),
                    timestamp_timeval(remote_time),
                    TagValue::S64(write_offset),
                    TagValue::S64(read_offset),
                ],
                ts.rest(),
                total - 8,
            );
        }
        let underrun_for = ts.read_u64()?;
        proof {
            assert(parse_values(s, total as nat) == parse_values_after(
                seq![
                    TagValue::Usec(sink_usec),
                    TagValue::Usec(source_usec),
                    TagValue::Bool(playing),
                    timestamp_timeval(local_time),
                    timestamp_timeval(remote_time),
                    TagValue::S64(write_offset),
                    TagValue::S64(read_offset),
                    TagValue::U64(underrun_for),
                ],
                s.len() - ts.rest().len(),
                ts.rest(),
                total - 8,
            ));
            lemma_parse_values_next(
                s,
                seq![
                    TagValue::Usec(sink_usec),
                    TagValue::Usec(source_usec),
                    TagValue::Bool(playing),
                    timestamp_timeval(local_time),
                    timestamp_timeval(remote_time),
                    TagValue::S64(write_offset),
                    TagValue::S64(read_offset),
                    TagValue::U64(underrun_for),
                ],
                ts.rest(),
                total - 9,
            );
        }
        let playing_for = ts.read_u64()?;
        proof {
            assert(parse_values(s, total as nat) == parse_values_after(
                seq![
                    TagValue::Usec(sink_usec),
                    TagValue::Usec(source_usec),
                    TagValue::Bool(playing),
                    timestamp_timeval(local_time),
                    timestamp_timeval(remote_time),
                    TagValue::S64(write_offset),
                    TagValue::S64(read_offset),
                    TagValue::U64(underrun_for),
                    TagValue::U64(playing_for),
                ],
                s.len() - ts.rest().len(),
                ts.rest(),
                total - 9,
            ));
            lemma_parse_values_done(
                seq![
                    TagValue::Usec(sink_usec),
                    TagValue::Usec(source_usec),
                    TagValue::Bool(playing),
                    timestamp_timeval(local_time),
                    timestamp_timeval(remote_time),
                    TagValue::S64(write_offset),
                    TagValue::S64(read_offset),
                    TagValue::U64(underrun_for),
                    TagValue::U64(playing_for),
                ],
                s.len() - ts.rest().len(),
                ts.rest(),
            );
        }
        Ok(PlaybackLatency {
            sink_usec,
            source_usec,
            playing,
            local_time,
            remote_time,
            write_offset,
            read_offset,
            underrun_for,
            playing_for,
        })
    }

    proof fn lemma_roundtrip(&self, protocol_version: u16, rest: Seq<u8>) {
        lemma_parse_values_bytes(self.spec_values(protocol_version), rest);
    }
}

impl CommandReply for PlaybackLatency {}

/// The latency of a record stream.
#[derive(Debug, Clone, Copy, PartialEq, Eq)]
pub struct RecordLatency {
    /// The latency of the sink, in microseconds.
    pub sink_usec: u64,

    /// The latency of the source, in microseconds.
    pub source_usec: u64,

    /// Whether the stream is running.
    pub playing: bool,

    /// The local time of the request.
    pub local_time: Timestamp,

    /// The server time of the reply.
    pub remote_time: Timestamp,

    /// The write offset of the buffer.
    pub write_offset: i64,

    /// The read offset of the buffer.
    pub read_offset: i64,
}

impl TagStructWrite for RecordLatency {
    open spec fn spec_values(&self, protocol_version: u16) -> Seq<TagValue> {
        seq![
            TagValue::Usec(self.sink_usec),
            TagValue::Usec(self.source_usec),
            TagValue::Bool(self.playing),
            timestamp_timeval(self.local_time),
            timestamp_timeval(self.remote_time),
            TagValue::S64(self.write_offset),
            TagValue::S64(self.read_offset),
        ]
    }

    open spec fn spec_writable(&self) -> bool {
        true
    }

    fn write(&self, w: &mut TagStructWriter, _protocol_version: u16) -> (r: Result<(), ProtocolError>) {
        w.write_usec(self.sink_usec)?;
        w.write_usec(self.source_usec)?;
        w.write_bool(self.playing)?;
        w.write_timeval(self.local_time)?;
        w.write_timeval(self.remote_time)?;
        w.write_i64(self.write_offset)?;
        w.write_i64(self.read_offset)?;
        proof {
            lemma_values_bytes_7(
                TagValue::Usec(self.sink_usec),
                TagValue::Usec(self.source_usec),
                TagValue::Bool(self.playing),
                timestamp_timeval(self.local_time),
                timestamp_timeval(self.remote_time),
                TagValue::S64(self.write_offset),
                TagValue::S64(self.read_offset),
            );
        }
        assert(w.bytes() =~= old(w).bytes() + values_bytes(self.spec_values(_protocol_version)));
        Ok(())
    }
}

impl TagStructRead for RecordLatency {
    open spec fn spec_parse(s: Seq<u8>, protocol_version: u16) -> Option<(Seq<TagValue>, int)> {
        match parse_values(s, 7) {
            Some((vs, n)) => if vs[0] is Usec
                && vs[1] is Usec
                && vs[2] is Bool
                && vs[3] is TimeVal
                && vs[4] is TimeVal
                && vs[5] is S64
                && vs[6] is S64
            {
                Some((vs, n))
            } else {
                None
            },
            None => None,
        }
    }

    open spec fn spec_canonical(&self, protocol_version: u16) -> bool {
        true
    }

    open spec fn spec_encodable(&self, protocol_version: u16) -> bool {
        &&& values_wf(self.spec_values(protocol_version))
        &&& self.spec_canonical(protocol_version)
    }

    #[verifier::rlimit(40)]
    fn read(ts: &mut TagStructReader, _protocol_version: u16) -> (r: Result<Self, ProtocolError>) {
        let ghost s = ts.rest();
        let ghost total: int = 7;
        proof {
            lemma_parse_values_start(s, total);
            lemma_parse_values_next(s, Seq::empty(), ts.rest(), total - 1);
        }
        let sink_usec = ts.read_usec()?;
        proof {
            assert(parse_values(s, total as nat) == parse_values_after(
                seq![TagValue::Usec(sink_usec)],
                s.len() - ts.rest().len(),
                ts.rest(),
                total - 1,
            ));
            lemma_parse_values_next(s, seq![TagValue::Usec(sink_usec)], ts.rest(), total - 2);
        }
        let source_usec = ts.read_usec()?;
        proof {
            assert(parse_values(s, total as nat) == parse_values_after(
                seq![TagValue::Usec(sink_usec), TagValue::Usec(source_usec)],
                s.len() - ts.rest().len(),
                ts.rest(),
                total - 2,
            ));
            lemma_parse_values_next(
                s,
                seq![TagValue::Usec(sink_usec), TagValue::Usec(source_usec)],
                ts.rest(),
                total - 3,
            );
        }
        let playing = ts.read_bool()?;
        proof {
            assert(parse_values(s, total as nat) == parse_values_after(
                seq![
                    TagValue::Usec(sink_usec),
                    TagValue::Usec(source_usec),
                    TagValue::Bool(playing),
                ],
                s.len() - ts.rest().len(),
                ts.rest(),
                total - 3,
            ));
            lemma_parse_values_next(
                s,
                seq![
                    TagValue::Usec(sink_usec),
                    TagValue::Usec(source_usec),
                    TagValue::Bool(playing),
                ],
                ts.rest(),
                total - 4,
            );
        }
        let local_time = ts.read_timeval()?;
        proof {
            assert(parse_values(s, total as nat) == parse_values_after(
                seq![
                    TagValue::Usec(sink_usec),
                    TagValue::Usec(source_usec),
                    TagValue::Bool(playing),
                    timestamp_timeval(local_time),
                ],
                s.len() - ts.rest().len(),
                ts.rest(),
                total - 4,
            ));
            lemma_parse_values_next(
                s,
                seq![
                    TagValue::Usec(sink_usec),
                    TagValue::Usec(source_usec),
                    TagValue::Bool(playing),
                    timestamp_timeval(local_time),
                ],
                ts.rest(),
                total - 5,
            );
        }
        let remote_time = ts.read_timeval()?;
        proof {
            assert(parse_values(s, total as nat) == parse_values_after(
                seq![
                    TagValue::Usec(sink_usec),
                    TagValue::Usec(source_usec),
                    TagValue::Bool(playing),
                    timestamp_timeval(local_time),
                    timestamp_timeval(remote_time),
                ],
                s.len() - ts.rest().len(),
                ts.rest(),
                total - 5,
            ));
            lemma_parse_values_next(
                s,
                seq![
                    TagValue::Usec(sink_usec),
                    TagValue::Usec(source_usec),
                    TagValue::Bool(playing),
                    timestamp_timeval(local_time),
                    timestamp_timeval(remote_time),
                ],
                ts.rest(),
                total - 6,
            );
        }
        let write_offset = ts.read_i64()?;
        proof {
            assert(parse_values(s, total as nat) == parse_values_after(
                seq![
                    TagValue::Usec(sink_usec),
                    TagValue::Usec(source_usec),
                    TagValue::Bool(playing),
                    timestamp_timeval(local_time),
                    timestamp_timeval(remote_time),
                    TagValue::S64(write_offset),
                ],
                s.len() - ts.rest().len(),
                ts.rest(),
                total - 6,
            ));
            lemma_parse_values_next(
                s,
                seq![
                    TagValue::Usec(sink_usec),
                    TagValue::Usec(source_usec),
                    TagValue::Bool(playing),
                    timestamp_timeval(local_time),
                    timestamp_timeval(remote_time),
                    TagValue::S64(write_offset),
                ],
                ts.rest(),
                total - 7,
            );
        }
        let read_offset = ts.read_i64()?;
        proof {
            assert(parse_values(s, total as nat) == parse_values_after(
                seq![
                    TagValue::Usec(sink_usec),
                    TagValue::Usec(source_usec),
                    TagValue::Bool(playing),
                    timestamp_timeval(local_time),
                    timestamp_timeval(remote_time),
                    TagValue::S64(write_offset),
                    TagValue::S64(read_offset),
                ],
                s.len() - ts.rest().len(),
                ts.rest(),
                total - 7,
            ));
            lemma_parse_values_done(
                seq![
                    TagValue::Usec(sink_usec),
                    TagValue::Usec(source_usec),
                    TagValue::Bool(playing),
                    timestamp_timeval(local_time),
                    timestamp_timeval(remote_time),
                    TagValue::S64(write_offset),
                    TagValue::S64(read_offset),
                ],
                s.len() - ts.rest().len(),
                ts.rest(),
            );
        }
        Ok(RecordLatency {
            sink_usec,
            source_usec,
            playing,
            local_time,
            remote_time,
            write_offset,
            read_offset,
        })
    }

    proof fn lemma_roundtrip(&self, protocol_version: u16, rest: Seq<u8>) {
        lemma_parse_values_bytes(self.spec_values(protocol_version), rest);
    }
}

impl CommandReply for RecordLatency {}


/// The values a [`LatencyParams`] is sent as, position by position: whatever a read
/// gives from the values `vs` holds each field from its own position.
pub proof fn lemma_latency_params_layout(q: LatencyParams, vs: Seq<TagValue>, protocol_version: u16)
    requires
        q.spec_values(protocol_version) == vs,
    ensures
        vs == (
            seq![TagValue::U32(q.channel), timestamp_timeval(q.now)]
        ),
{
}

/// The values a [`PlaybackLatency`] is sent as, position by position: whatever a read
/// gives from the values `vs` holds each field from its own position.
pub proof fn lemma_playback_latency_layout(q: PlaybackLatency, vs: Seq<TagValue>, protocol_version: u16)
    requires
        q.spec_values(protocol_version) == vs,
    ensures
        vs == (
            seq![
                    TagValue::Usec(q.sink_usec),
                    TagValue::Usec(q.source_usec),
                    TagValue::Bool(q.playing),
                    timestamp_timeval(q.local_time),
                    timestamp_timeval(q.remote_time),
                    TagValue::S64(q.write_offset),
                    TagValue::S64(q.read_offset),
                    TagValue::U64(q.underrun_for),
                    TagValue::U64(q.playing_for),
                ]
        ),
{
}

/// The values a [`RecordLatency`] is sent as, position by position: whatever a read
/// gives from the values `vs` holds each field from its own position.
pub proof fn lemma_record_latency_layout(q: RecordLatency, vs: Seq<TagValue>, protocol_version: u16)
    requires
        q.spec_values(protocol_version) == vs,
    ensures
        vs == (
            seq![
                    TagValue::Usec(q.sink_usec),
                    TagValue::Usec(q.source_usec),
                    TagValue::Bool(q.playing),
                    timestamp_timeval(q.local_time),
                    timestamp_timeval(q.remote_time),
                    TagValue::S64(q.write_offset),
                    TagValue::S64(q.read_offset),
                ]
        ),
{
}

} // verus!
