//! Setting the volume and mute state of devices and streams.

use vstd::prelude::*;

use crate::protocol::error::ProtocolError;
use crate::protocol::serde::fields::{lemma_values_bytes_2, lemma_values_bytes_3};
use crate::protocol::serde::wire::{
    TagValue, lemma_parse_values_bytes, lemma_parse_values_done, lemma_parse_values_next,
    lemma_parse_values_start, parse_values, parse_values_after, values_bytes, values_wf,
};
use crate::protocol::serde::{
    INVALID_INDEX, TagStructRead, TagStructReader, TagStructWrite, TagStructWriter, index_encodable,
    index_value, opt_cstr_view, string_value,
};
use crate::protocol::serde::cstr::CString;
use crate::protocol::serde::volume::ChannelVolume;

verus! {

/// Parameters for setting the volume of a sink or source.
#[derive(Debug, Clone, PartialEq, Eq)]
pub struct SetDeviceVolumeParams {
    /// The index of the device.
    pub device_index: Option<u32>,

    /// The name of the device.
    pub device_name: Option<CString>,

    /// The new volume.
    pub volume: ChannelVolume,
}

impl TagStructWrite for SetDeviceVolumeParams {
    open spec fn spec_values(&self, protocol_version: u16) -> Seq<TagValue> {
        seq![
            index_value(self.device_index),
            string_value(opt_cstr_view(self.device_name)),
            TagValue::CVolume(self.volume@),
        ]
    }

    open spec fn spec_writable(&self) -> bool {
        true
    }

    fn write(&self, w: &mut TagStructWriter, _protocol_version: u16) -> (r: Result<(), ProtocolError>) {
        w.write_index(self.device_index)?;
        w.write_string(self.device_name.as_ref())?;
        w.write_cvolume(&self.volume)?;
        proof {
            lemma_values_bytes_3(
                index_value(self.device_index),
                string_value(opt_cstr_view(self.device_name)),
                TagValue::CVolume(self.volume@),
            );
        }
        assert(w.bytes() =~= old(w).bytes() + values_bytes(self.spec_values(_protocol_version)));
        Ok(())
    }
}

impl TagStructRead for SetDeviceVolumeParams {
    open spec fn spec_parse(s: Seq<u8>, protocol_version: u16) -> Option<(Seq<TagValue>, int)> {
        match parse_values(s, 3) {
            Some((vs, n)) => if vs[0] is U32
                && (vs[1] is Str || vs[1] is NullStr)
                && vs[2] is CVolume
            {
                Some((vs, n))
            } else {
                None
            },
            None => None,
        }
    }

    open spec fn spec_canonical(&self, protocol_version: u16) -> bool {
        true
    }

    open spec fn spec_encodable(&self, protocol_version: u16) -> bool {
        &&& values_wf(self.spec_values(protocol_version))
        &&& index_encodable(self.device_index)
        &&& self.spec_canonical(protocol_version)
    }

    fn read(ts: &mut TagStructReader, _protocol_version: u16) -> (r: Result<Self, ProtocolError>) {
        let ghost s = ts.rest();
        let ghost total: int = 3;
        proof {
            lemma_parse_values_start(s, total);
            lemma_parse_values_next(s, Seq::empty(), ts.rest(), total - 1);
        }
        let device_index = ts.read_index()?;
        proof {
            assert(parse_values(s, total as nat) == parse_values_after(
                seq![index_value(device_index)],
                s.len() - ts.rest().len(),
                ts.rest(),
                total - 1,
            ));
            lemma_parse_values_next(s, seq![index_value(device_index)], ts.rest(), total - 2);
        }
        let device_name = ts.read_string()?;
        proof {
            assert(parse_values(s, total as nat) == parse_values_after(
                seq![index_value(device_index), string_value(opt_cstr_view(device_name))],
                s.len() - ts.rest().len(),
                ts.rest(),
                total - 2,
            ));
            lemma_parse_values_next(
                s,
                seq![index_value(device_index), string_value(opt_cstr_view(device_name))],
                ts.rest(),
                total - 3,
            );
        }
        let volume = ts.read_cvolume()?;
        proof {
            assert(parse_values(s, total as nat) == parse_values_after(
                seq![
                    index_value(device_index),
                    string_value(opt_cstr_view(device_name)),
                    TagValue::CVolume(volume@),
                ],
                s.len() - ts.rest().len(),
                ts.rest(),
                total - 3,
            ));
            lemma_parse_values_done(
                seq![
                    index_value(device_index),
                    string_value(opt_cstr_view(device_name)),
                    TagValue::CVolume(volume@),
                ],
                s.len() - ts.rest().len(),
                ts.rest(),
            );
        }
        Ok(SetDeviceVolumeParams { device_index, device_name, volume })
    }

    proof fn lemma_roundtrip(&self, protocol_version: u16, rest: Seq<u8>) {
        lemma_parse_values_bytes(self.spec_values(protocol_version), rest);
    }
}

/// Parameters for setting the volume of a sink input or source output.
#[derive(Debug, Copy, Clone, PartialEq, Eq)]
pub struct SetStreamVolumeParams {
    /// The index of the stream.
    pub index: u32,

    /// The new volume.
    pub volume: ChannelVolume,
}

impl TagStructWrite for SetStreamVolumeParams {
    open spec fn spec_values(&self, protocol_version: u16) -> Seq<TagValue> {
        seq![TagValue::U32(self.index), TagValue::CVolume(self.volume@)]
    }

    open spec fn spec_writable(&self) -> bool {
        true
    }

    fn write(&self, w: &mut TagStructWriter, _protocol_version: u16) -> (r: Result<(), ProtocolError>) {
        w.write_index(Some(self.index))?;
        w.write_cvolume(&self.volume)?;
        proof {
            lemma_values_bytes_2(TagValue::U32(self.index), TagValue::CVolume(self.volume@));
        }
        assert(w.bytes() =~= old(w).bytes() + values_bytes(self.spec_values(_protocol_version)));
        Ok(())
    }
}

impl TagStructRead for SetStreamVolumeParams {
    open spec fn spec_parse(s: Seq<u8>, protocol_version: u16) -> Option<(Seq<TagValue>, int)> {
        match parse_values(s, 2) {
            Some((vs, n)) => if (vs[0] matches TagValue::U32(x) && x != INVALID_INDEX)
                && vs[1] is CVolume
            {
                Some((vs, n))
            } else {
                None
            },
            None => None,
        }
    }

    open spec fn spec_canonical(&self, protocol_version: u16) -> bool {
        true
    }

    open spec fn spec_encodable(&self, protocol_version: u16) -> bool {
        &&& values_wf(self.spec_values(protocol_version))
        &&& self.index != INVALID_INDEX
        &&& self.spec_canonical(protocol_version)
    }

    fn read(ts: &mut TagStructReader, _protocol_version: u16) -> (r: Result<Self, ProtocolError>) {
        let ghost s = ts.rest();
        let ghost total: int = 2;
        proof {
            lemma_parse_values_start(s, total);
            lemma_parse_values_next(s, Seq::empty(), ts.rest(), total - 1);
        }
        let index = match ts.read_index()? {
            Some(i) => i,
            None => {
                return Err(ProtocolError::Invalid("invalid index".to_owned()));
            },
        };
        proof {
            assert(parse_values(s, total as nat) == parse_values_after(
                seq![TagValue::U32(index)],
                s.len() - ts.rest().len(),
                ts.rest(),
                total - 1,
            ));
            lemma_parse_values_next(s, seq![TagValue::U32(index)], ts.rest(), total - 2);
        }
        let volume = ts.read_cvolume()?;
        proof {
            assert(parse_values(s, total as nat) == parse_values_after(
                seq![TagValue::U32(index), TagValue::CVolume(volume@)],
                s.len() - ts.rest().len(),
                ts.rest(),
                total - 2,
            ));
            lemma_parse_values_done(
                seq![TagValue::U32(index), TagValue::CVolume(volume@)],
                s.len() - ts.rest().len(),
                ts.rest(),
            );
        }
        Ok(SetStreamVolumeParams { index, volume })
    }

    proof fn lemma_roundtrip(&self, protocol_version: u16, rest: Seq<u8>) {
        lemma_parse_values_bytes(self.spec_values(protocol_version), rest);
    }
}

/// Parameters for muting or unmuting a sink or source.
#[derive(Debug, Clone, PartialEq, Eq)]
pub struct SetDeviceMuteParams {
    /// The index of the device.
    pub device_index: Option<u32>,

    /// The name of the device.
    pub device_name: Option<CString>,

    /// Whether to mute the device.
    pub mute: bool,
}

impl TagStructWrite for SetDeviceMuteParams {
    open spec fn spec_values(&self, protocol_version: u16) -> Seq<TagValue> {
        seq![
            index_value(self.device_index),
            string_value(opt_cstr_view(self.device_name)),
            TagValue::Bool(self.mute),
        ]
    }

    open spec fn spec_writable(&self) -> bool {
        true
    }

    fn write(&self, w: &mut TagStructWriter, _protocol_version: u16) -> (r: Result<(), ProtocolError>) {
        w.write_index(self.device_index)?;
        w.write_string(self.device_name.as_ref())?;
        w.write_bool(self.mute)?;
        proof {
            lemma_values_bytes_3(
                index_value(self.device_index),
                string_value(opt_cstr_view(self.device_name)),
                TagValue::Bool(self.mute),
            );
        }
        assert(w.bytes() =~= old(w).bytes() + values_bytes(self.spec_values(_protocol_version)));
        Ok(())
    }
}

impl TagStructRead for SetDeviceMuteParams {
    open spec fn spec_parse(s: Seq<u8>, protocol_version: u16) -> Option<(Seq<TagValue>, int)> {
        match parse_values(s, 3) {
            Some((vs, n)) => if vs[0] is U32
                && (vs[1] is Str || vs[1] is NullStr)
                && vs[2] is Bool
            {
                Some((vs, n))
            } else {
                None
            },
            None => None,
        }
    }

    open spec fn spec_canonical(&self, protocol_version: u16) -> bool {
        true
    }

    open spec fn spec_encodable(&self, protocol_version: u16) -> bool {
        &&& values_wf(self.spec_values(protocol_version))
        &&& index_encodable(self.device_index)
        &&& self.spec_canonical(protocol_version)
    }

    fn read(ts: &mut TagStructReader, _protocol_version: u16) -> (r: Result<Self, ProtocolError>) {
        let ghost s = ts.rest();
        let ghost total: int = 3;
        proof {
            lemma_parse_values_start(s, total);
            lemma_parse_values_next(s, Seq::empty(), ts.rest(), total - 1);
        }
        let device_index = ts.read_index()?;
        proof {
            assert(parse_values(s, total as nat) == parse_values_after(
                seq![index_value(device_index)],
                s.len() - ts.rest().len(),
                ts.rest(),
                total - 1,
            ));
            lemma_parse_values_next(s, seq![index_value(device_index)], ts.rest(), total - 2);
        }
        let device_name = ts.read_string()?;
        proof {
            assert(parse_values(s, total as nat) == parse_values_after(
                seq![index_value(device_index), string_value(opt_cstr_view(device_name))],
                s.len() - ts.rest().len(),
                ts.rest(),
                total - 2,
            ));
            lemma_parse_values_next(
                s,
                seq![index_value(device_index), string_value(opt_cstr_view(device_name))],
                ts.rest(),
                total - 3,
            );
        }
        let mute = ts.read_bool()?;
        proof {
            assert(parse_values(s, total as nat) == parse_values_after(
                seq![
                    index_value(device_index),
                    string_value(opt_cstr_view(device_name)),
                    TagValue::Bool(mute),
                ],
                s.len() - ts.rest().len(),
                ts.rest(),
                total - 3,
            ));
            lemma_parse_values_done(
                seq![
                    index_value(device_index),
                    string_value(opt_cstr_view(device_name)),
                    TagValue::Bool(mute),
                ],
                s.len() - ts.rest().len(),
                ts.rest(),
            );
        }
        Ok(SetDeviceMuteParams { device_index, device_name, mute })
    }

    proof fn lemma_roundtrip(&self, protocol_version: u16, rest: Seq<u8>) {
        lemma_parse_values_bytes(self.spec_values(protocol_version), rest);
    }
}

/// Parameters for muting or unmuting a sink input or source output.
#[derive(Debug, Copy, Clone, PartialEq, Eq)]
pub struct SetStreamMuteParams {
    /// The index of the stream.
    pub index: u32,

    /// Whether to mute the stream.
    pub mute: bool,
}

impl TagStructWrite for SetStreamMuteParams {
    open spec fn spec_values(&self, protocol_version: u16) -> Seq<TagValue> {
        seq![TagValue::U32(self.index), TagValue::Bool(self.mute)]
    }

    open spec fn spec_writable(&self) -> bool {
        true
    }

    fn write(&self, w: &mut TagStructWriter, _protocol_version: u16) -> (r: Result<(), ProtocolError>) {
        w.write_index(Some(self.index))?;
        w.write_bool(self.mute)?;
        proof {
            lemma_values_bytes_2(TagValue::U32(self.index), TagValue::Bool(self.mute));
        }
        assert(w.bytes() =~= old(w).bytes() + values_bytes(self.spec_values(_protocol_version)));
        Ok(())
    }
}

impl TagStructRead for SetStreamMuteParams {
    open spec fn spec_parse(s: Seq<u8>, protocol_version: u16) -> Option<(Seq<TagValue>, int)> {
        match parse_values(s, 2) {
            Some((vs, n)) => if (vs[0] matches TagValue::U32(x) && x != INVALID_INDEX)
                && vs[1] is Bool
            {
                Some((vs, n))
            } else {
                None
            },
            None => None,
        }
    }

    open spec fn spec_canonical(&self, protocol_version: u16) -> bool {
        true
    }

    open spec fn spec_encodable(&self, protocol_version: u16) -> bool {
        &&& values_wf(self.spec_values(protocol_version))
        &&& self.index != INVALID_INDEX
        &&& self.spec_canonical(protocol_version)
    }

    fn read(ts: &mut TagStructReader, _protocol_version: u16) -> (r: Result<Self, ProtocolError>) {
        let ghost s = ts.rest();
        let ghost total: int = 2;
        proof {
            lemma_parse_values_start(s, total);
            lemma_parse_values_next(s, Seq::empty(), ts.rest(), total - 1);
        }
        let index = match ts.read_index()? {
            Some(i) => i,
            None => {
                return Err(ProtocolError::Invalid("invalid index".to_owned()));
            },
        };
        proof {
            assert(parse_values(s, total as nat) == parse_values_after(
                seq![TagValue::U32(index)],
                s.len() - ts.rest().len(),
                ts.rest(),
                total - 1,
            ));
            lemma_parse_values_next(s, seq![TagValue::U32(index)], ts.rest(), total - 2);
        }
        let mute = ts.read_bool()?;
        proof {
            assert(parse_values(s, total as nat) == parse_values_after(
                seq![TagValue::U32(index), TagValue::Bool(mute)],
                s.len() - ts.rest().len(),
                ts.rest(),
                total - 2,
            ));
            lemma_parse_values_done(
                seq![TagValue::U32(index), TagValue::Bool(mute)],
                s.len() - ts.rest().len(),
                ts.rest(),
            );
        }
        Ok(SetStreamMuteParams { index, mute })
    }

    proof fn lemma_roundtrip(&self, protocol_version: u16, rest: Seq<u8>) {
        lemma_parse_values_bytes(self.spec_values(protocol_version), rest);
    }
}


/// The values a [`SetDeviceVolumeParams`] is sent as, position by position: whatever a read
/// gives from the values `vs` holds each field from its own position.
pub proof fn lemma_set_device_volume_params_layout(q: SetDeviceVolumeParams, vs: Seq<TagValue>, protocol_version: u16)
    requires
        q.spec_values(protocol_version) == vs,
    ensures
        vs == (
            seq![
                    index_value(q.device_index),
                    string_value(opt_cstr_view(q.device_name)),
                    TagValue::CVolume(q.volume@),
                ]
        ),
{
}

/// The values a [`SetStreamVolumeParams`] is sent as, position by position: whatever a read
/// gives from the values `vs` holds each field from its own position.
pub proof fn lemma_set_stream_volume_params_layout(q: SetStreamVolumeParams, vs: Seq<TagValue>, protocol_version: u16)
    requires
        q.spec_values(protocol_version) == vs,
    ensures
        vs == (
            seq![TagValue::U32(q.index), TagValue::CVolume(q.volume@)]
        ),
{
}

/// The values a [`SetDeviceMuteParams`] is sent as, position by position: whatever a read
/// gives from the values `vs` holds each field from its own position.
pub proof fn lemma_set_device_mute_params_layout(q: SetDeviceMuteParams, vs: Seq<TagValue>, protocol_version: u16)
    requires
        q.spec_values(protocol_version) == vs,
    ensures
        vs == (
            seq![
                    index_value(q.device_index),
                    string_value(opt_cstr_view(q.device_name)),
                    TagValue::Bool(q.mute),
                ]
        ),
{
}

/// The values a [`SetStreamMuteParams`] is sent as, position by position: whatever a read
/// gives from the values `vs` holds each field from its own position.
pub proof fn lemma_set_stream_mute_params_layout(q: SetStreamMuteParams, vs: Seq<TagValue>, protocol_version: u16)
    requires
        q.spec_values(protocol_version) == vs,
    ensures
        vs == (
            seq![TagValue::U32(q.index), TagValue::Bool(q.mute)]
        ),
{
}

} // verus!
