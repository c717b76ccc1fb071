//! Commands are the top-level IPC structure used in the protocol.


pub mod auth;
pub mod card_info;
pub mod client_event;
pub mod client_info;
pub mod cork_stream;
pub mod extension;
pub mod get_info;
pub mod load_module;
pub mod lookup;
pub mod module_info;
pub mod move_stream;
pub mod playback_stream;
pub mod record_stream;
pub mod register_memfd_shmid;
pub mod sample;
pub mod set_card_profile;
pub mod set_client_name;
pub mod set_port;
pub mod set_port_latency_offset;
pub mod sample_info;
pub mod server_info;
pub mod sink_info;
pub mod sink_input_info;
pub mod source_info;
pub mod source_output_info;
pub mod stat;
pub mod stream_events;
mod stream_params;
mod stream_reply;

pub mod subscribe;
pub mod suspend;
pub mod timing_info;
pub mod update_client;
pub mod update_stream;
pub mod upload_stream;
pub mod volume;

use vstd::prelude::*;

use super::error::{IoErrorKind, ProtocolError, PulseError, pulse_error_code, pulse_error_from_code};
use super::serde::cstr::CString;
use super::serde::fields::lemma_values_bytes_1;
use super::serde::props::Props;
use super::serde::wire::{
    TAG_U32,
    TagValue, lemma_parse_value_bytes, lemma_parse_values_bytes, lemma_parse_values_done,
    lemma_parse_values_next, lemma_parse_values_start, lemma_values_bytes_concat, no_nul,
    parse_value, parse_values, values_bytes, };
use super::serde::{TagStructRead, TagStructReader, TagStructWrite, TagStructWriter};
use auth::AuthParams;
use client_event::ClientEvent;
use cork_stream::CorkStreamParams;
use extension::ExtensionParams;
use get_info::{GetSinkInfo, GetSourceInfo};
use load_module::LoadModuleParams;
use move_stream::MoveStreamParams;
use sample::PlaySampleParams;
use playback_stream::PlaybackStreamParams;
use record_stream::RecordStreamParams;
use upload_stream::UploadStreamParams;
use set_card_profile::SetCardProfileParams;
use set_port::SetPortParams;
use set_port_latency_offset::SetPortLatencyOffsetParams;
use stream_events::{
    GenericStreamEvent, PlaybackBufferAttrChanged, PlaybackStreamMovedParams,
    RecordBufferAttrChanged, RecordStreamMovedParams, Request, StreamSuspendedParams, Underflow,
};
use subscribe::{SubscriptionEvent, SubscriptionMask};
use suspend::SuspendParams;
use timing_info::LatencyParams;
use update_client::UpdateClientProplistParams;
use update_stream::{
    SetPlaybackStreamBufferAttrParams, SetRecordStreamBufferAttrParams, SetStreamNameParams,
    UpdatePropsParams, UpdateSampleRateParams,
};
use volume::{SetDeviceMuteParams, SetDeviceVolumeParams, SetStreamMuteParams, SetStreamVolumeParams};

verus! {

/// A tag describing a command payload.
#[allow(missing_docs)]
#[derive(Debug, Copy, Clone, PartialEq, Eq, Structural)]
pub enum CommandTag {
    Error,
    Timeout,
    Reply,
    CreatePlaybackStream,
    DeletePlaybackStream,
    CreateRecordStream,
    DeleteRecordStream,
    Exit,
    Auth,
    SetClientName,
    LookupSink,
    LookupSource,
    DrainPlaybackStream,
    Stat,
    GetPlaybackLatency,
    CreateUploadStream,
    DeleteUploadStream,
    FinishUploadStream,
    PlaySample,
    RemoveSample,
    GetServerInfo,
    GetSinkInfo,
    GetSinkInfoList,
    GetSourceInfo,
    GetSourceInfoList,
    GetModuleInfo,
    GetModuleInfoList,
    GetClientInfo,
    GetClientInfoList,
    GetSinkInputInfo,
    GetSinkInputInfoList,
    GetSourceOutputInfo,
    GetSourceOutputInfoList,
    GetSampleInfo,
    GetSampleInfoList,
    Subscribe,
    SetSinkVolume,
    SetSinkInputVolume,
    SetSourceVolume,
    SetSinkMute,
    SetSourceMute,
    CorkPlaybackStream,
    FlushPlaybackStream,
    TriggerPlaybackStream,
    SetDefaultSink,
    SetDefaultSource,
    SetPlaybackStreamName,
    SetRecordStreamName,
    KillClient,
    KillSinkInput,
    KillSourceOutput,
    LoadModule,
    UnloadModule,
    GetRecordLatency,
    CorkRecordStream,
    FlushRecordStream,
    PrebufPlaybackStream,
    Request,
    Overflow,
    Underflow,
    PlaybackStreamKilled,
    RecordStreamKilled,
    SubscribeEvent,
    MoveSinkInput,
    MoveSourceOutput,
    SetSinkInputMute,
    SuspendSink,
    SuspendSource,
    SetPlaybackStreamBufferAttr,
    SetRecordStreamBufferAttr,
    UpdatePlaybackStreamSampleRate,
    UpdateRecordStreamSampleRate,
    PlaybackStreamSuspended,
    RecordStreamSuspended,
    PlaybackStreamMoved,
    RecordStreamMoved,
    UpdateRecordStreamProplist,
    UpdatePlaybackStreamProplist,
    UpdateClientProplist,
    RemoveRecordStreamProplist,
    RemovePlaybackStreamProplist,
    RemoveClientProplist,
    Started,
    Extension,
    GetCardInfo,
    GetCardInfoList,
    SetCardProfile,
    ClientEvent,
    PlaybackStreamEvent,
    RecordStreamEvent,
    PlaybackBufferAttrChanged,
    RecordBufferAttrChanged,
    SetSinkPort,
    SetSourcePort,
    SetSourceOutputVolume,
    SetSourceOutputMute,
    SetPortLatencyOffset,
    EnableSrbchannel,
    DisableSrbchannel,
    RegisterMemfdShmid,
    SendObjectMessage,
}

/// The number that stands for a command tag on the wire.
pub open spec fn command_tag_code(t: CommandTag) -> u32 {
    match t {
        CommandTag::Error => 0,
        CommandTag::Timeout => 1,
        CommandTag::Reply => 2,
        CommandTag::CreatePlaybackStream => 3,
        CommandTag::DeletePlaybackStream => 4,
        CommandTag::CreateRecordStream => 5,
        CommandTag::DeleteRecordStream => 6,
        CommandTag::Exit => 7,
        CommandTag::Auth => 8,
        CommandTag::SetClientName => 9,
        CommandTag::LookupSink => 10,
        CommandTag::LookupSource => 11,
        CommandTag::DrainPlaybackStream => 12,
        CommandTag::Stat => 13,
        CommandTag::GetPlaybackLatency => 14,
        CommandTag::CreateUploadStream => 15,
        CommandTag::DeleteUploadStream => 16,
        CommandTag::FinishUploadStream => 17,
        CommandTag::PlaySample => 18,
        CommandTag::RemoveSample => 19,
        CommandTag::GetServerInfo => 20,
        CommandTag::GetSinkInfo => 21,
        CommandTag::GetSinkInfoList => 22,
        CommandTag::GetSourceInfo => 23,
        CommandTag::GetSourceInfoList => 24,
        CommandTag::GetModuleInfo => 25,
        CommandTag::GetModuleInfoList => 26,
        CommandTag::GetClientInfo => 27,
        CommandTag::GetClientInfoList => 28,
        CommandTag::GetSinkInputInfo => 29,
        CommandTag::GetSinkInputInfoList => 30,
        CommandTag::GetSourceOutputInfo => 31,
        CommandTag::GetSourceOutputInfoList => 32,
        CommandTag::GetSampleInfo => 33,
        CommandTag::GetSampleInfoList => 34,
        CommandTag::Subscribe => 35,
        CommandTag::SetSinkVolume => 36,
        CommandTag::SetSinkInputVolume => 37,
        CommandTag::SetSourceVolume => 38,
        CommandTag::SetSinkMute => 39,
        CommandTag::SetSourceMute => 40,
        CommandTag::CorkPlaybackStream => 41,
        CommandTag::FlushPlaybackStream => 42,
        CommandTag::TriggerPlaybackStream => 43,
        CommandTag::SetDefaultSink => 44,
        CommandTag::SetDefaultSource => 45,
        CommandTag::SetPlaybackStreamName => 46,
        CommandTag::SetRecordStreamName => 47,
        CommandTag::KillClient => 48,
        CommandTag::KillSinkInput => 49,
        CommandTag::KillSourceOutput => 50,
        CommandTag::LoadModule => 51,
        CommandTag::UnloadModule => 52,
        CommandTag::GetRecordLatency => 57,
        CommandTag::CorkRecordStream => 58,
        CommandTag::FlushRecordStream => 59,
        CommandTag::PrebufPlaybackStream => 60,
        CommandTag::Request => 61,
        CommandTag::Overflow => 62,
        CommandTag::Underflow => 63,
        CommandTag::PlaybackStreamKilled => 64,
        CommandTag::RecordStreamKilled => 65,
        CommandTag::SubscribeEvent => 66,
        CommandTag::MoveSinkInput => 67,
        CommandTag::MoveSourceOutput => 68,
        CommandTag::SetSinkInputMute => 69,
        CommandTag::SuspendSink => 70,
        CommandTag::SuspendSource => 71,
        CommandTag::SetPlaybackStreamBufferAttr => 72,
        CommandTag::SetRecordStreamBufferAttr => 73,
        CommandTag::UpdatePlaybackStreamSampleRate => 74,
        CommandTag::UpdateRecordStreamSampleRate => 75,
        CommandTag::PlaybackStreamSuspended => 76,
        CommandTag::RecordStreamSuspended => 77,
        CommandTag::PlaybackStreamMoved => 78,
        CommandTag::RecordStreamMoved => 79,
        CommandTag::UpdateRecordStreamProplist => 80,
        CommandTag::UpdatePlaybackStreamProplist => 81,
        CommandTag::UpdateClientProplist => 82,
        CommandTag::RemoveRecordStreamProplist => 83,
        CommandTag::RemovePlaybackStreamProplist => 84,
        CommandTag::RemoveClientProplist => 85,
        CommandTag::Started => 86,
        CommandTag::Extension => 87,
        CommandTag::GetCardInfo => 88,
        CommandTag::GetCardInfoList => 89,
        CommandTag::SetCardProfile => 90,
        CommandTag::ClientEvent => 91,
        CommandTag::PlaybackStreamEvent => 92,
        CommandTag::RecordStreamEvent => 93,
        CommandTag::PlaybackBufferAttrChanged => 94,
        CommandTag::RecordBufferAttrChanged => 95,
        CommandTag::SetSinkPort => 96,
        CommandTag::SetSourcePort => 97,
        CommandTag::SetSourceOutputVolume => 98,
        CommandTag::SetSourceOutputMute => 99,
        CommandTag::SetPortLatencyOffset => 100,
        CommandTag::EnableSrbchannel => 101,
        CommandTag::DisableSrbchannel => 102,
        CommandTag::RegisterMemfdShmid => 103,
        CommandTag::SendObjectMessage => 104,
    }
}

/// The command tag a number stands for, if any.
pub open spec fn command_tag_of_code(v: u32) -> Option<CommandTag> {
    if v == 0 {
        Some(CommandTag::Error)
    } else if v == 1 {
        Some(CommandTag::Timeout)
    } else if v == 2 {
        Some(CommandTag::Reply)
    } else if v == 3 {
        Some(CommandTag::CreatePlaybackStream)
    } else if v == 4 {
        Some(CommandTag::DeletePlaybackStream)
    } else if v == 5 {
        Some(CommandTag::CreateRecordStream)
    } else if v == 6 {
        Some(CommandTag::DeleteRecordStream)
    } else if v == 7 {
        Some(CommandTag::Exit)
    } else if v == 8 {
        Some(CommandTag::Auth)
    } else if v == 9 {
        Some(CommandTag::SetClientName)
    } else if v == 10 {
        Some(CommandTag::LookupSink)
    } else if v == 11 {
        Some(CommandTag::LookupSource)
    } else if v == 12 {
        Some(CommandTag::DrainPlaybackStream)
    } else if v == 13 {
        Some(CommandTag::Stat)
    } else if v == 14 {
        Some(CommandTag::GetPlaybackLatency)
    } else if v == 15 {
        Some(CommandTag::CreateUploadStream)
    } else if v == 16 {
        Some(CommandTag::DeleteUploadStream)
    } else if v == 17 {
        Some(CommandTag::FinishUploadStream)
    } else if v == 18 {
        Some(CommandTag::PlaySample)
    } else if v == 19 {
        Some(CommandTag::RemoveSample)
    } else if v == 20 {
        Some(CommandTag::GetServerInfo)
    } else if v == 21 {
        Some(CommandTag::GetSinkInfo)
    } else if v == 22 {
        Some(CommandTag::GetSinkInfoList)
    } else if v == 23 {
        Some(CommandTag::GetSourceInfo)
    } else if v == 24 {
        Some(CommandTag::GetSourceInfoList)
    } else if v == 25 {
        Some(CommandTag::GetModuleInfo)
    } else if v == 26 {
        Some(CommandTag::GetModuleInfoList)
    } else if v == 27 {
        Some(CommandTag::GetClientInfo)
    } else if v == 28 {
        Some(CommandTag::GetClientInfoList)
    } else if v == 29 {
        Some(CommandTag::GetSinkInputInfo)
    } else if v == 30 {
        Some(CommandTag::GetSinkInputInfoList)
    } else if v == 31 {
        Some(CommandTag::GetSourceOutputInfo)
    } else if v == 32 {
        Some(CommandTag::GetSourceOutputInfoList)
    } else if v == 33 {
        Some(CommandTag::GetSampleInfo)
    } else if v == 34 {
        Some(CommandTag::GetSampleInfoList)
    } else if v == 35 {
        Some(CommandTag::Subscribe)
    } else if v == 36 {
        Some(CommandTag::SetSinkVolume)
    } else if v == 37 {
        Some(CommandTag::SetSinkInputVolume)
    } else if v == 38 {
        Some(CommandTag::SetSourceVolume)
    } else if v == 39 {
        Some(CommandTag::SetSinkMute)
    } else if v == 40 {
        Some(CommandTag::SetSourceMute)
    } else if v == 41 {
        Some(CommandTag::CorkPlaybackStream)
    } else if v == 42 {
        Some(CommandTag::FlushPlaybackStream)
    } else if v == 43 {
        Some(CommandTag::TriggerPlaybackStream)
    } else if v == 44 {
        Some(CommandTag::SetDefaultSink)
    } else if v == 45 {
        Some(CommandTag::SetDefaultSource)
    } else if v == 46 {
        Some(CommandTag::SetPlaybackStreamName)
    } else if v == 47 {
        Some(CommandTag::SetRecordStreamName)
    } else if v == 48 {
        Some(CommandTag::KillClient)
    } else if v == 49 {
        Some(CommandTag::KillSinkInput)
    } else if v == 50 {
        Some(CommandTag::KillSourceOutput)
    } else if v == 51 {
        Some(CommandTag::LoadModule)
    } else if v == 52 {
        Some(CommandTag::UnloadModule)
    } else if v == 57 {
        Some(CommandTag::GetRecordLatency)
    } else if v == 58 {
        Some(CommandTag::CorkRecordStream)
    } else if v == 59 {
        Some(CommandTag::FlushRecordStream)
    } else if v == 60 {
        Some(CommandTag::PrebufPlaybackStream)
    } else if v == 61 {
        Some(CommandTag::Request)
    } else if v == 62 {
        Some(CommandTag::Overflow)
    } else if v == 63 {
        Some(CommandTag::Underflow)
    } else if v == 64 {
        Some(CommandTag::PlaybackStreamKilled)
    } else if v == 65 {
        Some(CommandTag::RecordStreamKilled)
    } else if v == 66 {
        Some(CommandTag::SubscribeEvent)
    } else if v == 67 {
        Some(CommandTag::MoveSinkInput)
    } else if v == 68 {
        Some(CommandTag::MoveSourceOutput)
    } else if v == 69 {
        Some(CommandTag::SetSinkInputMute)
    } else if v == 70 {
        Some(CommandTag::SuspendSink)
    } else if v == 71 {
        Some(CommandTag::SuspendSource)
    } else if v == 72 {
        Some(CommandTag::SetPlaybackStreamBufferAttr)
    } else if v == 73 {
        Some(CommandTag::SetRecordStreamBufferAttr)
    } else if v == 74 {
        Some(CommandTag::UpdatePlaybackStreamSampleRate)
    } else if v == 75 {
        Some(CommandTag::UpdateRecordStreamSampleRate)
    } else if v == 76 {
        Some(CommandTag::PlaybackStreamSuspended)
    } else if v == 77 {
        Some(CommandTag::RecordStreamSuspended)
    } else if v == 78 {
        Some(CommandTag::PlaybackStreamMoved)
    } else if v == 79 {
        Some(CommandTag::RecordStreamMoved)
    } else if v == 80 {
        Some(CommandTag::UpdateRecordStreamProplist)
    } else if v == 81 {
        Some(CommandTag::UpdatePlaybackStreamProplist)
    } else if v == 82 {
        Some(CommandTag::UpdateClientProplist)
    } else if v == 83 {
        Some(CommandTag::RemoveRecordStreamProplist)
    } else if v == 84 {
        Some(CommandTag::RemovePlaybackStreamProplist)
    } else if v == 85 {
        Some(CommandTag::RemoveClientProplist)
    } else if v == 86 {
        Some(CommandTag::Started)
    } else if v == 87 {
        Some(CommandTag::Extension)
    } else if v == 88 {
        Some(CommandTag::GetCardInfo)
    } else if v == 89 {
        Some(CommandTag::GetCardInfoList)
    } else if v == 90 {
        Some(CommandTag::SetCardProfile)
    } else if v == 91 {
        Some(CommandTag::ClientEvent)
    } else if v == 92 {
        Some(CommandTag::PlaybackStreamEvent)
    } else if v == 93 {
        Some(CommandTag::RecordStreamEvent)
    } else if v == 94 {
        Some(CommandTag::PlaybackBufferAttrChanged)
    } else if v == 95 {
        Some(CommandTag::RecordBufferAttrChanged)
    } else if v == 96 {
        Some(CommandTag::SetSinkPort)
    } else if v == 97 {
        Some(CommandTag::SetSourcePort)
    } else if v == 98 {
        Some(CommandTag::SetSourceOutputVolume)
    } else if v == 99 {
        Some(CommandTag::SetSourceOutputMute)
    } else if v == 100 {
        Some(CommandTag::SetPortLatencyOffset)
    } else if v == 101 {
        Some(CommandTag::EnableSrbchannel)
    } else if v == 102 {
        Some(CommandTag::DisableSrbchannel)
    } else if v == 103 {
        Some(CommandTag::RegisterMemfdShmid)
    } else if v == 104 {
        Some(CommandTag::SendObjectMessage)
    } else {
        None
    }
}

impl CommandTag {
    /// The number that stands for the tag on the wire.
    pub fn to_u32(self) -> (r: u32)
        ensures
            r == command_tag_code(self),
    {
        match self {
            CommandTag::Error => 0,
            CommandTag::Timeout => 1,
            CommandTag::Reply => 2,
            CommandTag::CreatePlaybackStream => 3,
            CommandTag::DeletePlaybackStream => 4,
            CommandTag::CreateRecordStream => 5,
            CommandTag::DeleteRecordStream => 6,
            CommandTag::Exit => 7,
            CommandTag::Auth => 8,
            CommandTag::SetClientName => 9,
            CommandTag::LookupSink => 10,
            CommandTag::LookupSource => 11,
            CommandTag::DrainPlaybackStream => 12,
            CommandTag::Stat => 13,
            CommandTag::GetPlaybackLatency => 14,
            CommandTag::CreateUploadStream => 15,
            CommandTag::DeleteUploadStream => 16,
            CommandTag::FinishUploadStream => 17,
            CommandTag::PlaySample => 18,
            CommandTag::RemoveSample => 19,
            CommandTag::GetServerInfo => 20,
            CommandTag::GetSinkInfo => 21,
            CommandTag::GetSinkInfoList => 22,
            CommandTag::GetSourceInfo => 23,
            CommandTag::GetSourceInfoList => 24,
            CommandTag::GetModuleInfo => 25,
            CommandTag::GetModuleInfoList => 26,
            CommandTag::GetClientInfo => 27,
            CommandTag::GetClientInfoList => 28,
            CommandTag::GetSinkInputInfo => 29,
            CommandTag::GetSinkInputInfoList => 30,
            CommandTag::GetSourceOutputInfo => 31,
            CommandTag::GetSourceOutputInfoList => 32,
            CommandTag::GetSampleInfo => 33,
            CommandTag::GetSampleInfoList => 34,
            CommandTag::Subscribe => 35,
            CommandTag::SetSinkVolume => 36,
            CommandTag::SetSinkInputVolume => 37,
            CommandTag::SetSourceVolume => 38,
            CommandTag::SetSinkMute => 39,
            CommandTag::SetSourceMute => 40,
            CommandTag::CorkPlaybackStream => 41,
            CommandTag::FlushPlaybackStream => 42,
            CommandTag::TriggerPlaybackStream => 43,
            CommandTag::SetDefaultSink => 44,
            CommandTag::SetDefaultSource => 45,
            CommandTag::SetPlaybackStreamName => 46,
            CommandTag::SetRecordStreamName => 47,
            CommandTag::KillClient => 48,
            CommandTag::KillSinkInput => 49,
            CommandTag::KillSourceOutput => 50,
            CommandTag::LoadModule => 51,
            CommandTag::UnloadModule => 52,
            CommandTag::GetRecordLatency => 57,
            CommandTag::CorkRecordStream => 58,
            CommandTag::FlushRecordStream => 59,
            CommandTag::PrebufPlaybackStream => 60,
            CommandTag::Request => 61,
            CommandTag::Overflow => 62,
            CommandTag::Underflow => 63,
            CommandTag::PlaybackStreamKilled => 64,
            CommandTag::RecordStreamKilled => 65,
            CommandTag::SubscribeEvent => 66,
            CommandTag::MoveSinkInput => 67,
            CommandTag::MoveSourceOutput => 68,
            CommandTag::SetSinkInputMute => 69,
            CommandTag::SuspendSink => 70,
            CommandTag::SuspendSource => 71,
            CommandTag::SetPlaybackStreamBufferAttr => 72,
            CommandTag::SetRecordStreamBufferAttr => 73,
            CommandTag::UpdatePlaybackStreamSampleRate => 74,
            CommandTag::UpdateRecordStreamSampleRate => 75,
            CommandTag::PlaybackStreamSuspended => 76,
            CommandTag::RecordStreamSuspended => 77,
            CommandTag::PlaybackStreamMoved => 78,
            CommandTag::RecordStreamMoved => 79,
            CommandTag::UpdateRecordStreamProplist => 80,
            CommandTag::UpdatePlaybackStreamProplist => 81,
            CommandTag::UpdateClientProplist => 82,
            CommandTag::RemoveRecordStreamProplist => 83,
            CommandTag::RemovePlaybackStreamProplist => 84,
            CommandTag::RemoveClientProplist => 85,
            CommandTag::Started => 86,
            CommandTag::Extension => 87,
            CommandTag::GetCardInfo => 88,
            CommandTag::GetCardInfoList => 89,
            CommandTag::SetCardProfile => 90,
            CommandTag::ClientEvent => 91,
            CommandTag::PlaybackStreamEvent => 92,
            CommandTag::RecordStreamEvent => 93,
            CommandTag::PlaybackBufferAttrChanged => 94,
            CommandTag::RecordBufferAttrChanged => 95,
            CommandTag::SetSinkPort => 96,
            CommandTag::SetSourcePort => 97,
            CommandTag::SetSourceOutputVolume => 98,
            CommandTag::SetSourceOutputMute => 99,
            CommandTag::SetPortLatencyOffset => 100,
            CommandTag::EnableSrbchannel => 101,
            CommandTag::DisableSrbchannel => 102,
            CommandTag::RegisterMemfdShmid => 103,
            CommandTag::SendObjectMessage => 104,
        }
    }

    /// The tag a number stands for, or `None` for a number that stands for
    /// no command.
    pub fn from_u32(v: u32) -> (r: Option<CommandTag>)
        ensures
            r == command_tag_of_code(v),
    {
        if v == 0 {
            Some(CommandTag::Error)
        } else if v == 1 {
            Some(CommandTag::Timeout)
        } else if v == 2 {
            Some(CommandTag::Reply)
        } else if v == 3 {
            Some(CommandTag::CreatePlaybackStream)
        } else if v == 4 {
            Some(CommandTag::DeletePlaybackStream)
        } else if v == 5 {
            Some(CommandTag::CreateRecordStream)
        } else if v == 6 {
            Some(CommandTag::DeleteRecordStream)
        } else if v == 7 {
            Some(CommandTag::Exit)
        } else if v == 8 {
            Some(CommandTag::Auth)
        } else if v == 9 {
            Some(CommandTag::SetClientName)
        } else if v == 10 {
            Some(CommandTag::LookupSink)
        } else if v == 11 {
            Some(CommandTag::LookupSource)
        } else if v == 12 {
            Some(CommandTag::DrainPlaybackStream)
        } else if v == 13 {
            Some(CommandTag::Stat)
        } else if v == 14 {
            Some(CommandTag::GetPlaybackLatency)
        } else if v == 15 {
            Some(CommandTag::CreateUploadStream)
        } else if v == 16 {
            Some(CommandTag::DeleteUploadStream)
        } else if v == 17 {
            Some(CommandTag::FinishUploadStream)
        } else if v == 18 {
            Some(CommandTag::PlaySample)
        } else if v == 19 {
            Some(CommandTag::RemoveSample)
        } else if v == 20 {
            Some(CommandTag::GetServerInfo)
        } else if v == 21 {
            Some(CommandTag::GetSinkInfo)
        } else if v == 22 {
            Some(CommandTag::GetSinkInfoList)
        } else if v == 23 {
            Some(CommandTag::GetSourceInfo)
        } else if v == 24 {
            Some(CommandTag::GetSourceInfoList)
        } else if v == 25 {
            Some(CommandTag::GetModuleInfo)
        } else if v == 26 {
            Some(CommandTag::GetModuleInfoList)
        } else if v == 27 {
            Some(CommandTag::GetClientInfo)
        } else if v == 28 {
            Some(CommandTag::GetClientInfoList)
        } else if v == 29 {
            Some(CommandTag::GetSinkInputInfo)
        } else if v == 30 {
            Some(CommandTag::GetSinkInputInfoList)
        } else if v == 31 {
            Some(CommandTag::GetSourceOutputInfo)
        } else if v == 32 {
            Some(CommandTag::GetSourceOutputInfoList)
        } else if v == 33 {
            Some(CommandTag::GetSampleInfo)
        } else if v == 34 {
            Some(CommandTag::GetSampleInfoList)
        } else if v == 35 {
            Some(CommandTag::Subscribe)
        } else if v == 36 {
            Some(CommandTag::SetSinkVolume)
        } else if v == 37 {
            Some(CommandTag::SetSinkInputVolume)
        } else if v == 38 {
            Some(CommandTag::SetSourceVolume)
        } else if v == 39 {
            Some(CommandTag::SetSinkMute)
        } else if v == 40 {
            Some(CommandTag::SetSourceMute)
        } else if v == 41 {
            Some(CommandTag::CorkPlaybackStream)
        } else if v == 42 {
            Some(CommandTag::FlushPlaybackStream)
        } else if v == 43 {
            Some(CommandTag::TriggerPlaybackStream)
        } else if v == 44 {
            Some(CommandTag::SetDefaultSink)
        } else if v == 45 {
            Some(CommandTag::SetDefaultSource)
        } else if v == 46 {
            Some(CommandTag::SetPlaybackStreamName)
        } else if v == 47 {
            Some(CommandTag::SetRecordStreamName)
        } else if v == 48 {
            Some(CommandTag::KillClient)
        } else if v == 49 {
            Some(CommandTag::KillSinkInput)
        } else if v == 50 {
            Some(CommandTag::KillSourceOutput)
        } else if v == 51 {
            Some(CommandTag::LoadModule)
        } else if v == 52 {
            Some(CommandTag::UnloadModule)
        } else if v == 57 {
            Some(CommandTag::GetRecordLatency)
        } else if v == 58 {
            Some(CommandTag::CorkRecordStream)
        } else if v == 59 {
            Some(CommandTag::FlushRecordStream)
        } else if v == 60 {
            Some(CommandTag::PrebufPlaybackStream)
        } else if v == 61 {
            Some(CommandTag::Request)
        } else if v == 62 {
            Some(CommandTag::Overflow)
        } else if v == 63 {
            Some(CommandTag::Underflow)
        } else if v == 64 {
            Some(CommandTag::PlaybackStreamKilled)
        } else if v == 65 {
            Some(CommandTag::RecordStreamKilled)
        } else if v == 66 {
            Some(CommandTag::SubscribeEvent)
        } else if v == 67 {
            Some(CommandTag::MoveSinkInput)
        } else if v == 68 {
            Some(CommandTag::MoveSourceOutput)
        } else if v == 69 {
            Some(CommandTag::SetSinkInputMute)
        } else if v == 70 {
            Some(CommandTag::SuspendSink)
        } else if v == 71 {
            Some(CommandTag::SuspendSource)
        } else if v == 72 {
            Some(CommandTag::SetPlaybackStreamBufferAttr)
        } else if v == 73 {
            Some(CommandTag::SetRecordStreamBufferAttr)
        } else if v == 74 {
            Some(CommandTag::UpdatePlaybackStreamSampleRate)
        } else if v == 75 {
            Some(CommandTag::UpdateRecordStreamSampleRate)
        } else if v == 76 {
            Some(CommandTag::PlaybackStreamSuspended)
        } else if v == 77 {
            Some(CommandTag::RecordStreamSuspended)
        } else if v == 78 {
            Some(CommandTag::PlaybackStreamMoved)
        } else if v == 79 {
            Some(CommandTag::RecordStreamMoved)
        } else if v == 80 {
            Some(CommandTag::UpdateRecordStreamProplist)
        } else if v == 81 {
            Some(CommandTag::UpdatePlaybackStreamProplist)
        } else if v == 82 {
            Some(CommandTag::UpdateClientProplist)
        } else if v == 83 {
            Some(CommandTag::RemoveRecordStreamProplist)
        } else if v == 84 {
            Some(CommandTag::RemovePlaybackStreamProplist)
        } else if v == 85 {
            Some(CommandTag::RemoveClientProplist)
        } else if v == 86 {
            Some(CommandTag::Started)
        } else if v == 87 {
            Some(CommandTag::Extension)
        } else if v == 88 {
            Some(CommandTag::GetCardInfo)
        } else if v == 89 {
            Some(CommandTag::GetCardInfoList)
        } else if v == 90 {
            Some(CommandTag::SetCardProfile)
        } else if v == 91 {
            Some(CommandTag::ClientEvent)
        } else if v == 92 {
            Some(CommandTag::PlaybackStreamEvent)
        } else if v == 93 {
            Some(CommandTag::RecordStreamEvent)
        } else if v == 94 {
            Some(CommandTag::PlaybackBufferAttrChanged)
        } else if v == 95 {
            Some(CommandTag::RecordBufferAttrChanged)
        } else if v == 96 {
            Some(CommandTag::SetSinkPort)
        } else if v == 97 {
            Some(CommandTag::SetSourcePort)
        } else if v == 98 {
            Some(CommandTag::SetSourceOutputVolume)
        } else if v == 99 {
            Some(CommandTag::SetSourceOutputMute)
        } else if v == 100 {
            Some(CommandTag::SetPortLatencyOffset)
        } else if v == 101 {
            Some(CommandTag::EnableSrbchannel)
        } else if v == 102 {
            Some(CommandTag::DisableSrbchannel)
        } else if v == 103 {
            Some(CommandTag::RegisterMemfdShmid)
        } else if v == 104 {
            Some(CommandTag::SendObjectMessage)
        } else {
            None
        }
    }
}

/// Every command tag is read back from its own number.
pub proof fn lemma_command_tag_roundtrip(t: CommandTag)
    ensures
        command_tag_of_code(command_tag_code(t)) == Some(t),
{
}

/// A number that stands for a command tag is that tag's number: the two
/// mappings are inverse to each other.
pub proof fn lemma_command_tag_code_inverse(v: u32)
    ensures
        command_tag_of_code(v) matches Some(t) ==> command_tag_code(t) == v,
{
}

/// An error reply to a command.
#[derive(Debug, Clone, Copy, PartialEq, Eq)]
pub struct CommandError {
    /// The error the server reported.
    pub code: PulseError,
}

/// A marker trait for reply data.
pub trait CommandReply: TagStructRead {}


/// A command message: a request, a reply, or an event.
#[allow(missing_docs)]
#[derive(Debug, Clone, PartialEq, Eq)]
pub enum Command {
    /// An error reply to some other command.
    Error(PulseError),
    Timeout,
    Exit,
    /// A reply to some other command. If this is returned by
    /// [`Command::read_tag_prefixed`], the payload has yet to be read.
    Reply,
    Auth(AuthParams),
    SetClientName(Props),
    DeletePlaybackStream(u32),
    DeleteRecordStream(u32),
    DrainPlaybackStream(u32),
    GetPlaybackLatency(LatencyParams),
    GetRecordLatency(LatencyParams),
    DeleteUploadStream(u32),
    FinishUploadStream(u32),
    CorkPlaybackStream(CorkStreamParams),
    CorkRecordStream(CorkStreamParams),
    FlushPlaybackStream(u32),
    FlushRecordStream(u32),
    PrebufPlaybackStream(u32),
    TriggerPlaybackStream(u32),
    SetPlaybackStreamName(SetStreamNameParams),
    SetRecordStreamName(SetStreamNameParams),
    SetPlaybackStreamBufferAttr(SetPlaybackStreamBufferAttrParams),
    SetRecordStreamBufferAttr(SetRecordStreamBufferAttrParams),
    UpdatePlaybackStreamProplist(UpdatePropsParams),
    UpdateRecordStreamProplist(UpdatePropsParams),
    RemovePlaybackStreamProplist(u32),
    RemoveRecordStreamProplist(u32),
    UpdatePlaybackStreamSampleRate(UpdateSampleRateParams),
    UpdateRecordStreamSampleRate(UpdateSampleRateParams),
    Stat,
    GetServerInfo,
    GetCardInfo(u32),
    GetCardInfoList,
    GetSinkInfo(GetSinkInfo),
    GetSinkInfoList,
    GetSourceInfo(GetSourceInfo),
    GetSourceInfoList,
    GetModuleInfo(u32),
    GetModuleInfoList,
    GetClientInfo(u32),
    GetClientInfoList,
    GetSinkInputInfo(u32),
    GetSinkInputInfoList,
    GetSourceOutputInfo(u32),
    GetSourceOutputInfoList,
    GetSampleInfo(u32),
    GetSampleInfoList,
    LookupSink(CString),
    LookupSource(CString),
    Subscribe(SubscriptionMask),
    SetDefaultSink(CString),
    SetDefaultSource(CString),
    SetSinkPort(SetPortParams),
    SetSourcePort(SetPortParams),
    SetCardProfile(SetCardProfileParams),
    KillClient(u32),
    KillSinkInput(u32),
    KillSourceOutput(u32),
    MoveSinkInput(MoveStreamParams),
    MoveSourceOutput(MoveStreamParams),
    SuspendSink(SuspendParams),
    SuspendSource(SuspendParams),
    UpdateClientProplist(UpdateClientProplistParams),
    RemoveClientProplist,
    SetPortLatencyOffset(SetPortLatencyOffsetParams),
    PlaySample(PlaySampleParams),
    CreatePlaybackStream(PlaybackStreamParams),
    CreateRecordStream(RecordStreamParams),
    CreateUploadStream(UploadStreamParams),
    RemoveSample(CString),
    LoadModule(LoadModuleParams),
    UnloadModule(u32),
    Extension(ExtensionParams),
    SetSinkVolume(SetDeviceVolumeParams),
    SetSinkInputVolume(SetStreamVolumeParams),
    SetSourceVolume(SetDeviceVolumeParams),
    SetSourceOutputVolume(SetStreamVolumeParams),
    SetSinkMute(SetDeviceMuteParams),
    SetSinkInputMute(SetStreamMuteParams),
    SetSourceMute(SetDeviceMuteParams),
    SetSourceOutputMute(SetStreamMuteParams),
    Started(u32),
    Request(Request),
    Overflow(u32),
    Underflow(Underflow),
    PlaybackStreamKilled(u32),
    RecordStreamKilled(u32),
    PlaybackStreamSuspended(StreamSuspendedParams),
    RecordStreamSuspended(StreamSuspendedParams),
    PlaybackStreamMoved(PlaybackStreamMovedParams),
    RecordStreamMoved(RecordStreamMovedParams),
    PlaybackBufferAttrChanged(PlaybackBufferAttrChanged),
    RecordBufferAttrChanged(RecordBufferAttrChanged),
    ClientEvent(ClientEvent),
    PlaybackStreamEvent(GenericStreamEvent),
    RecordStreamEvent(GenericStreamEvent),
    SubscribeEvent(SubscriptionEvent),
}

/// The tag of a command.
pub open spec fn command_tag(c: Command) -> CommandTag {
    match c {
        Command::Error(_) => CommandTag::Error,
        Command::Timeout => CommandTag::Timeout,
        Command::Exit => CommandTag::Exit,
        Command::Reply => CommandTag::Reply,
        Command::Auth(_) => CommandTag::Auth,
        Command::SetClientName(_) => CommandTag::SetClientName,
        Command::DeletePlaybackStream(_) => CommandTag::DeletePlaybackStream,
        Command::DeleteRecordStream(_) => CommandTag::DeleteRecordStream,
        Command::DrainPlaybackStream(_) => CommandTag::DrainPlaybackStream,
        Command::GetPlaybackLatency(_) => CommandTag::GetPlaybackLatency,
        Command::GetRecordLatency(_) => CommandTag::GetRecordLatency,
        Command::DeleteUploadStream(_) => CommandTag::DeleteUploadStream,
        Command::FinishUploadStream(_) => CommandTag::FinishUploadStream,
        Command::CorkPlaybackStream(_) => CommandTag::CorkPlaybackStream,
        Command::CorkRecordStream(_) => CommandTag::CorkRecordStream,
        Command::FlushPlaybackStream(_) => CommandTag::FlushPlaybackStream,
        Command::FlushRecordStream(_) => CommandTag::FlushRecordStream,
        Command::PrebufPlaybackStream(_) => CommandTag::PrebufPlaybackStream,
        Command::TriggerPlaybackStream(_) => CommandTag::TriggerPlaybackStream,
        Command::SetPlaybackStreamName(_) => CommandTag::SetPlaybackStreamName,
        Command::SetRecordStreamName(_) => CommandTag::SetRecordStreamName,
        Command::SetPlaybackStreamBufferAttr(_) => CommandTag::SetPlaybackStreamBufferAttr,
        Command::SetRecordStreamBufferAttr(_) => CommandTag::SetRecordStreamBufferAttr,
        Command::UpdatePlaybackStreamProplist(_) => CommandTag::UpdatePlaybackStreamProplist,
        Command::UpdateRecordStreamProplist(_) => CommandTag::UpdateRecordStreamProplist,
        Command::RemovePlaybackStreamProplist(_) => CommandTag::RemovePlaybackStreamProplist,
        Command::RemoveRecordStreamProplist(_) => CommandTag::RemoveRecordStreamProplist,
        Command::UpdatePlaybackStreamSampleRate(_) => CommandTag::UpdatePlaybackStreamSampleRate,
        Command::UpdateRecordStreamSampleRate(_) => CommandTag::UpdateRecordStreamSampleRate,
        Command::Stat => CommandTag::Stat,
        Command::GetServerInfo => CommandTag::GetServerInfo,
        Command::GetCardInfo(_) => CommandTag::GetCardInfo,
        Command::GetCardInfoList => CommandTag::GetCardInfoList,
        Command::GetSinkInfo(_) => CommandTag::GetSinkInfo,
        Command::GetSinkInfoList => CommandTag::GetSinkInfoList,
        Command::GetSourceInfo(_) => CommandTag::GetSourceInfo,
        Command::GetSourceInfoList => CommandTag::GetSourceInfoList,
        Command::GetModuleInfo(_) => CommandTag::GetModuleInfo,
        Command::GetModuleInfoList => CommandTag::GetModuleInfoList,
        Command::GetClientInfo(_) => CommandTag::GetClientInfo,
        Command::GetClientInfoList => CommandTag::GetClientInfoList,
        Command::GetSinkInputInfo(_) => CommandTag::GetSinkInputInfo,
        Command::GetSinkInputInfoList => CommandTag::GetSinkInputInfoList,
        Command::GetSourceOutputInfo(_) => CommandTag::GetSourceOutputInfo,
        Command::GetSourceOutputInfoList => CommandTag::GetSourceOutputInfoList,
        Command::GetSampleInfo(_) => CommandTag::GetSampleInfo,
        Command::GetSampleInfoList => CommandTag::GetSampleInfoList,
        Command::LookupSink(_) => CommandTag::LookupSink,
        Command::LookupSource(_) => CommandTag::LookupSource,
        Command::Subscribe(_) => CommandTag::Subscribe,
        Command::SetDefaultSink(_) => CommandTag::SetDefaultSink,
        Command::SetDefaultSource(_) => CommandTag::SetDefaultSource,
        Command::SetSinkPort(_) => CommandTag::SetSinkPort,
        Command::SetSourcePort(_) => CommandTag::SetSourcePort,
        Command::SetCardProfile(_) => CommandTag::SetCardProfile,
        Command::KillClient(_) => CommandTag::KillClient,
        Command::KillSinkInput(_) => CommandTag::KillSinkInput,
        Command::KillSourceOutput(_) => CommandTag::KillSourceOutput,
        Command::MoveSinkInput(_) => CommandTag::MoveSinkInput,
        Command::MoveSourceOutput(_) => CommandTag::MoveSourceOutput,
        Command::SuspendSink(_) => CommandTag::SuspendSink,
        Command::SuspendSource(_) => CommandTag::SuspendSource,
        Command::UpdateClientProplist(_) => CommandTag::UpdateClientProplist,
        Command::RemoveClientProplist => CommandTag::RemoveClientProplist,
        Command::SetPortLatencyOffset(_) => CommandTag::SetPortLatencyOffset,
        Command::PlaySample(_) => CommandTag::PlaySample,
        Command::CreatePlaybackStream(_) => CommandTag::CreatePlaybackStream,
        Command::CreateRecordStream(_) => CommandTag::CreateRecordStream,
        Command::CreateUploadStream(_) => CommandTag::CreateUploadStream,
        Command::RemoveSample(_) => CommandTag::RemoveSample,
        Command::LoadModule(_) => CommandTag::LoadModule,
        Command::UnloadModule(_) => CommandTag::UnloadModule,
        Command::Extension(_) => CommandTag::Extension,
        Command::SetSinkVolume(_) => CommandTag::SetSinkVolume,
        Command::SetSinkInputVolume(_) => CommandTag::SetSinkInputVolume,
        Command::SetSourceVolume(_) => CommandTag::SetSourceVolume,
        Command::SetSourceOutputVolume(_) => CommandTag::SetSourceOutputVolume,
        Command::SetSinkMute(_) => CommandTag::SetSinkMute,
        Command::SetSinkInputMute(_) => CommandTag::SetSinkInputMute,
        Command::SetSourceMute(_) => CommandTag::SetSourceMute,
        Command::SetSourceOutputMute(_) => CommandTag::SetSourceOutputMute,
        Command::Started(_) => CommandTag::Started,
        Command::Request(_) => CommandTag::Request,
        Command::Overflow(_) => CommandTag::Overflow,
        Command::Underflow(_) => CommandTag::Underflow,
        Command::PlaybackStreamKilled(_) => CommandTag::PlaybackStreamKilled,
        Command::RecordStreamKilled(_) => CommandTag::RecordStreamKilled,
        Command::PlaybackStreamSuspended(_) => CommandTag::PlaybackStreamSuspended,
        Command::RecordStreamSuspended(_) => CommandTag::RecordStreamSuspended,
        Command::PlaybackStreamMoved(_) => CommandTag::PlaybackStreamMoved,
        Command::RecordStreamMoved(_) => CommandTag::RecordStreamMoved,
        Command::PlaybackBufferAttrChanged(_) => CommandTag::PlaybackBufferAttrChanged,
        Command::RecordBufferAttrChanged(_) => CommandTag::RecordBufferAttrChanged,
        Command::ClientEvent(_) => CommandTag::ClientEvent,
        Command::PlaybackStreamEvent(_) => CommandTag::PlaybackStreamEvent,
        Command::RecordStreamEvent(_) => CommandTag::RecordStreamEvent,
        Command::SubscribeEvent(_) => CommandTag::SubscribeEvent,
    }
}

/// The values that follow the tag and the sequence number of a command.
pub open spec fn command_payload(c: Command, protocol_version: u16) -> Seq<TagValue> {
    match c {
        Command::Error(e) => seq![TagValue::U32(pulse_error_code(e))],
        Command::Timeout => Seq::empty(),
        Command::Exit => Seq::empty(),
        Command::Reply => Seq::empty(),
        Command::Auth(p) => p.spec_values(protocol_version),
        Command::SetClientName(p) => p.spec_values(protocol_version),
        Command::DeletePlaybackStream(id) => seq![TagValue::U32(id)],
        Command::DeleteRecordStream(id) => seq![TagValue::U32(id)],
        Command::DrainPlaybackStream(id) => seq![TagValue::U32(id)],
        Command::GetPlaybackLatency(p) => p.spec_values(protocol_version),
        Command::GetRecordLatency(p) => p.spec_values(protocol_version),
        Command::DeleteUploadStream(id) => seq![TagValue::U32(id)],
        Command::FinishUploadStream(id) => seq![TagValue::U32(id)],
        Command::CorkPlaybackStream(p) => p.spec_values(protocol_version),
        Command::CorkRecordStream(p) => p.spec_values(protocol_version),
        Command::FlushPlaybackStream(id) => seq![TagValue::U32(id)],
        Command::FlushRecordStream(id) => seq![TagValue::U32(id)],
        Command::PrebufPlaybackStream(id) => seq![TagValue::U32(id)],
        Command::TriggerPlaybackStream(id) => seq![TagValue::U32(id)],
        Command::SetPlaybackStreamName(p) => p.spec_values(protocol_version),
        Command::SetRecordStreamName(p) => p.spec_values(protocol_version),
        Command::SetPlaybackStreamBufferAttr(p) => p.spec_values(protocol_version),
        Command::SetRecordStreamBufferAttr(p) => p.spec_values(protocol_version),
        Command::UpdatePlaybackStreamProplist(p) => p.spec_values(protocol_version),
        Command::UpdateRecordStreamProplist(p) => p.spec_values(protocol_version),
        Command::RemovePlaybackStreamProplist(id) => seq![TagValue::U32(id)],
        Command::RemoveRecordStreamProplist(id) => seq![TagValue::U32(id)],
        Command::UpdatePlaybackStreamSampleRate(p) => p.spec_values(protocol_version),
        Command::UpdateRecordStreamSampleRate(p) => p.spec_values(protocol_version),
        Command::Stat => Seq::empty(),
        Command::GetServerInfo => Seq::empty(),
        Command::GetCardInfo(id) => seq![TagValue::U32(id)],
        Command::GetCardInfoList => Seq::empty(),
        Command::GetSinkInfo(p) => p.spec_values(protocol_version),
        Command::GetSinkInfoList => Seq::empty(),
        Command::GetSourceInfo(p) => p.spec_values(protocol_version),
        Command::GetSourceInfoList => Seq::empty(),
        Command::GetModuleInfo(id) => seq![TagValue::U32(id)],
        Command::GetModuleInfoList => Seq::empty(),
        Command::GetClientInfo(id) => seq![TagValue::U32(id)],
        Command::GetClientInfoList => Seq::empty(),
        Command::GetSinkInputInfo(id) => seq![TagValue::U32(id)],
        Command::GetSinkInputInfoList => Seq::empty(),
        Command::GetSourceOutputInfo(id) => seq![TagValue::U32(id)],
        Command::GetSourceOutputInfoList => Seq::empty(),
        Command::GetSampleInfo(id) => seq![TagValue::U32(id)],
        Command::GetSampleInfoList => Seq::empty(),
        Command::LookupSink(name) => seq![TagValue::Str(name@)],
        Command::LookupSource(name) => seq![TagValue::Str(name@)],
        Command::Subscribe(p) => p.spec_values(protocol_version),
        Command::SetDefaultSink(name) => seq![TagValue::Str(name@)],
        Command::SetDefaultSource(name) => seq![TagValue::Str(name@)],
        Command::SetSinkPort(p) => p.spec_values(protocol_version),
        Command::SetSourcePort(p) => p.spec_values(protocol_version),
        Command::SetCardProfile(p) => p.spec_values(protocol_version),
        Command::KillClient(id) => seq![TagValue::U32(id)],
        Command::KillSinkInput(id) => seq![TagValue::U32(id)],
        Command::KillSourceOutput(id) => seq![TagValue::U32(id)],
        Command::MoveSinkInput(p) => p.spec_values(protocol_version),
        Command::MoveSourceOutput(p) => p.spec_values(protocol_version),
        Command::SuspendSink(p) => p.spec_values(protocol_version),
        Command::SuspendSource(p) => p.spec_values(protocol_version),
        Command::UpdateClientProplist(p) => p.spec_values(protocol_version),
        Command::RemoveClientProplist => Seq::empty(),
        Command::SetPortLatencyOffset(p) => p.spec_values(protocol_version),
        Command::PlaySample(p) => p.spec_values(protocol_version),
        Command::CreatePlaybackStream(p) => p.spec_values(protocol_version),
        Command::CreateRecordStream(p) => p.spec_values(protocol_version),
        Command::CreateUploadStream(p) => p.spec_values(protocol_version),
        Command::RemoveSample(name) => seq![TagValue::Str(name@)],
        Command::LoadModule(p) => p.spec_values(protocol_version),
        Command::UnloadModule(id) => seq![TagValue::U32(id)],
        Command::Extension(p) => p.spec_values(protocol_version),
        Command::SetSinkVolume(p) => p.spec_values(protocol_version),
        Command::SetSinkInputVolume(p) => p.spec_values(protocol_version),
        Command::SetSourceVolume(p) => p.spec_values(protocol_version),
        Command::SetSourceOutputVolume(p) => p.spec_values(protocol_version),
        Command::SetSinkMute(p) => p.spec_values(protocol_version),
        Command::SetSinkInputMute(p) => p.spec_values(protocol_version),
        Command::SetSourceMute(p) => p.spec_values(protocol_version),
        Command::SetSourceOutputMute(p) => p.spec_values(protocol_version),
        Command::Started(id) => seq![TagValue::U32(id)],
        Command::Request(p) => p.spec_values(protocol_version),
        Command::Overflow(id) => seq![TagValue::U32(id)],
        Command::Underflow(p) => p.spec_values(protocol_version),
        Command::PlaybackStreamKilled(id) => seq![TagValue::U32(id)],
        Command::RecordStreamKilled(id) => seq![TagValue::U32(id)],
        Command::PlaybackStreamSuspended(p) => p.spec_values(protocol_version),
        Command::RecordStreamSuspended(p) => p.spec_values(protocol_version),
        Command::PlaybackStreamMoved(p) => p.spec_values(protocol_version),
        Command::RecordStreamMoved(p) => p.spec_values(protocol_version),
        Command::PlaybackBufferAttrChanged(p) => p.spec_values(protocol_version),
        Command::RecordBufferAttrChanged(p) => p.spec_values(protocol_version),
        Command::ClientEvent(p) => p.spec_values(protocol_version),
        Command::PlaybackStreamEvent(p) => p.spec_values(protocol_version),
        Command::RecordStreamEvent(p) => p.spec_values(protocol_version),
        Command::SubscribeEvent(p) => p.spec_values(protocol_version),
    }
}

/// Whether the payload of a command can be written.
pub open spec fn command_writable(c: Command) -> bool {
    match c {
        Command::Auth(p) => p.spec_writable(),
        Command::SetClientName(p) => p.spec_writable(),
        Command::GetPlaybackLatency(p) => p.spec_writable(),
        Command::GetRecordLatency(p) => p.spec_writable(),
        Command::CorkPlaybackStream(p) => p.spec_writable(),
        Command::CorkRecordStream(p) => p.spec_writable(),
        Command::SetPlaybackStreamName(p) => p.spec_writable(),
        Command::SetRecordStreamName(p) => p.spec_writable(),
        Command::SetPlaybackStreamBufferAttr(p) => p.spec_writable(),
        Command::SetRecordStreamBufferAttr(p) => p.spec_writable(),
        Command::UpdatePlaybackStreamProplist(p) => p.spec_writable(),
        Command::UpdateRecordStreamProplist(p) => p.spec_writable(),
        Command::UpdatePlaybackStreamSampleRate(p) => p.spec_writable(),
        Command::UpdateRecordStreamSampleRate(p) => p.spec_writable(),
        Command::GetSinkInfo(p) => p.spec_writable(),
        Command::GetSourceInfo(p) => p.spec_writable(),
        Command::Subscribe(p) => p.spec_writable(),
        Command::SetSinkPort(p) => p.spec_writable(),
        Command::SetSourcePort(p) => p.spec_writable(),
        Command::SetCardProfile(p) => p.spec_writable(),
        Command::MoveSinkInput(p) => p.spec_writable(),
        Command::MoveSourceOutput(p) => p.spec_writable(),
        Command::SuspendSink(p) => p.spec_writable(),
        Command::SuspendSource(p) => p.spec_writable(),
        Command::UpdateClientProplist(p) => p.spec_writable(),
        Command::SetPortLatencyOffset(p) => p.spec_writable(),
        Command::PlaySample(p) => p.spec_writable(),
        Command::CreatePlaybackStream(p) => p.spec_writable(),
        Command::CreateRecordStream(p) => p.spec_writable(),
        Command::CreateUploadStream(p) => p.spec_writable(),
        Command::LoadModule(p) => p.spec_writable(),
        Command::Extension(p) => p.spec_writable(),
        Command::SetSinkVolume(p) => p.spec_writable(),
        Command::SetSinkInputVolume(p) => p.spec_writable(),
        Command::SetSourceVolume(p) => p.spec_writable(),
        Command::SetSourceOutputVolume(p) => p.spec_writable(),
        Command::SetSinkMute(p) => p.spec_writable(),
        Command::SetSinkInputMute(p) => p.spec_writable(),
        Command::SetSourceMute(p) => p.spec_writable(),
        Command::SetSourceOutputMute(p) => p.spec_writable(),
        Command::Request(p) => p.spec_writable(),
        Command::Underflow(p) => p.spec_writable(),
        Command::PlaybackStreamSuspended(p) => p.spec_writable(),
        Command::RecordStreamSuspended(p) => p.spec_writable(),
        Command::PlaybackStreamMoved(p) => p.spec_writable(),
        Command::RecordStreamMoved(p) => p.spec_writable(),
        Command::PlaybackBufferAttrChanged(p) => p.spec_writable(),
        Command::RecordBufferAttrChanged(p) => p.spec_writable(),
        Command::ClientEvent(p) => p.spec_writable(),
        Command::PlaybackStreamEvent(p) => p.spec_writable(),
        Command::RecordStreamEvent(p) => p.spec_writable(),
        Command::SubscribeEvent(p) => p.spec_writable(),
        _ => true,
    }
}

/// Whether the fields of the payload that the encoding at this protocol
/// version leaves out hold what a read gives them.
pub open spec fn command_canonical(c: Command, protocol_version: u16) -> bool {
    match c {
        Command::Auth(p) => p.spec_canonical(protocol_version),
        Command::SetClientName(p) => p.spec_canonical(protocol_version),
        Command::GetPlaybackLatency(p) => p.spec_canonical(protocol_version),
        Command::GetRecordLatency(p) => p.spec_canonical(protocol_version),
        Command::CorkPlaybackStream(p) => p.spec_canonical(protocol_version),
        Command::CorkRecordStream(p) => p.spec_canonical(protocol_version),
        Command::SetPlaybackStreamName(p) => p.spec_canonical(protocol_version),
        Command::SetRecordStreamName(p) => p.spec_canonical(protocol_version),
        Command::SetPlaybackStreamBufferAttr(p) => p.spec_canonical(protocol_version),
        Command::SetRecordStreamBufferAttr(p) => p.spec_canonical(protocol_version),
        Command::UpdatePlaybackStreamProplist(p) => p.spec_canonical(protocol_version),
        Command::UpdateRecordStreamProplist(p) => p.spec_canonical(protocol_version),
        Command::UpdatePlaybackStreamSampleRate(p) => p.spec_canonical(protocol_version),
        Command::UpdateRecordStreamSampleRate(p) => p.spec_canonical(protocol_version),
        Command::GetSinkInfo(p) => p.spec_canonical(protocol_version),
        Command::GetSourceInfo(p) => p.spec_canonical(protocol_version),
        Command::Subscribe(p) => p.spec_canonical(protocol_version),
        Command::SetSinkPort(p) => p.spec_canonical(protocol_version),
        Command::SetSourcePort(p) => p.spec_canonical(protocol_version),
        Command::SetCardProfile(p) => p.spec_canonical(protocol_version),
        Command::MoveSinkInput(p) => p.spec_canonical(protocol_version),
        Command::MoveSourceOutput(p) => p.spec_canonical(protocol_version),
        Command::SuspendSink(p) => p.spec_canonical(protocol_version),
        Command::SuspendSource(p) => p.spec_canonical(protocol_version),
        Command::UpdateClientProplist(p) => p.spec_canonical(protocol_version),
        Command::SetPortLatencyOffset(p) => p.spec_canonical(protocol_version),
        Command::PlaySample(p) => p.spec_canonical(protocol_version),
        Command::CreatePlaybackStream(p) => p.spec_canonical(protocol_version),
        Command::CreateRecordStream(p) => p.spec_canonical(protocol_version),
        Command::CreateUploadStream(p) => p.spec_canonical(protocol_version),
        Command::LoadModule(p) => p.spec_canonical(protocol_version),
        Command::Extension(p) => p.spec_canonical(protocol_version),
        Command::SetSinkVolume(p) => p.spec_canonical(protocol_version),
        Command::SetSinkInputVolume(p) => p.spec_canonical(protocol_version),
        Command::SetSourceVolume(p) => p.spec_canonical(protocol_version),
        Command::SetSourceOutputVolume(p) => p.spec_canonical(protocol_version),
        Command::SetSinkMute(p) => p.spec_canonical(protocol_version),
        Command::SetSinkInputMute(p) => p.spec_canonical(protocol_version),
        Command::SetSourceMute(p) => p.spec_canonical(protocol_version),
        Command::SetSourceOutputMute(p) => p.spec_canonical(protocol_version),
        Command::Request(p) => p.spec_canonical(protocol_version),
        Command::Underflow(p) => p.spec_canonical(protocol_version),
        Command::PlaybackStreamSuspended(p) => p.spec_canonical(protocol_version),
        Command::RecordStreamSuspended(p) => p.spec_canonical(protocol_version),
        Command::PlaybackStreamMoved(p) => p.spec_canonical(protocol_version),
        Command::RecordStreamMoved(p) => p.spec_canonical(protocol_version),
        Command::PlaybackBufferAttrChanged(p) => p.spec_canonical(protocol_version),
        Command::RecordBufferAttrChanged(p) => p.spec_canonical(protocol_version),
        Command::ClientEvent(p) => p.spec_canonical(protocol_version),
        Command::PlaybackStreamEvent(p) => p.spec_canonical(protocol_version),
        Command::RecordStreamEvent(p) => p.spec_canonical(protocol_version),
        Command::SubscribeEvent(p) => p.spec_canonical(protocol_version),
        _ => true,
    }
}

/// Whether a command is read back unchanged after being written at this
/// protocol version.
pub open spec fn command_encodable(c: Command, protocol_version: u16) -> bool {
    match c {
        Command::Auth(p) => p.spec_encodable(protocol_version),
        Command::SetClientName(p) => p.spec_encodable(protocol_version),
        Command::GetPlaybackLatency(p) => p.spec_encodable(protocol_version),
        Command::GetRecordLatency(p) => p.spec_encodable(protocol_version),
        Command::CorkPlaybackStream(p) => p.spec_encodable(protocol_version),
        Command::CorkRecordStream(p) => p.spec_encodable(protocol_version),
        Command::SetPlaybackStreamName(p) => p.spec_encodable(protocol_version),
        Command::SetRecordStreamName(p) => p.spec_encodable(protocol_version),
        Command::SetPlaybackStreamBufferAttr(p) => p.spec_encodable(protocol_version),
        Command::SetRecordStreamBufferAttr(p) => p.spec_encodable(protocol_version),
        Command::UpdatePlaybackStreamProplist(p) => p.spec_encodable(protocol_version),
        Command::UpdateRecordStreamProplist(p) => p.spec_encodable(protocol_version),
        Command::UpdatePlaybackStreamSampleRate(p) => p.spec_encodable(protocol_version),
        Command::UpdateRecordStreamSampleRate(p) => p.spec_encodable(protocol_version),
        Command::GetSinkInfo(p) => p.spec_encodable(protocol_version),
        Command::GetSourceInfo(p) => p.spec_encodable(protocol_version),
        Command::LookupSink(name) => no_nul(name@),
        Command::LookupSource(name) => no_nul(name@),
        Command::Subscribe(p) => p.spec_encodable(protocol_version),
        Command::SetDefaultSink(name) => no_nul(name@),
        Command::SetDefaultSource(name) => no_nul(name@),
        Command::SetSinkPort(p) => p.spec_encodable(protocol_version),
        Command::SetSourcePort(p) => p.spec_encodable(protocol_version),
        Command::SetCardProfile(p) => p.spec_encodable(protocol_version),
        Command::MoveSinkInput(p) => p.spec_encodable(protocol_version),
        Command::MoveSourceOutput(p) => p.spec_encodable(protocol_version),
        Command::SuspendSink(p) => p.spec_encodable(protocol_version),
        Command::SuspendSource(p) => p.spec_encodable(protocol_version),
        Command::UpdateClientProplist(p) => p.spec_encodable(protocol_version),
        Command::SetPortLatencyOffset(p) => p.spec_encodable(protocol_version),
        Command::PlaySample(p) => p.spec_encodable(protocol_version),
        Command::CreatePlaybackStream(p) => p.spec_encodable(protocol_version),
        Command::CreateRecordStream(p) => p.spec_encodable(protocol_version),
        Command::CreateUploadStream(p) => p.spec_encodable(protocol_version),
        Command::RemoveSample(name) => no_nul(name@),
        Command::LoadModule(p) => p.spec_encodable(protocol_version),
        Command::Extension(p) => p.spec_encodable(protocol_version),
        Command::SetSinkVolume(p) => p.spec_encodable(protocol_version),
        Command::SetSinkInputVolume(p) => p.spec_encodable(protocol_version),
        Command::SetSourceVolume(p) => p.spec_encodable(protocol_version),
        Command::SetSourceOutputVolume(p) => p.spec_encodable(protocol_version),
        Command::SetSinkMute(p) => p.spec_encodable(protocol_version),
        Command::SetSinkInputMute(p) => p.spec_encodable(protocol_version),
        Command::SetSourceMute(p) => p.spec_encodable(protocol_version),
        Command::SetSourceOutputMute(p) => p.spec_encodable(protocol_version),
        Command::Request(p) => p.spec_encodable(protocol_version),
        Command::Underflow(p) => p.spec_encodable(protocol_version),
        Command::PlaybackStreamSuspended(p) => p.spec_encodable(protocol_version),
        Command::RecordStreamSuspended(p) => p.spec_encodable(protocol_version),
        Command::PlaybackStreamMoved(p) => p.spec_encodable(protocol_version),
        Command::RecordStreamMoved(p) => p.spec_encodable(protocol_version),
        Command::PlaybackBufferAttrChanged(p) => p.spec_encodable(protocol_version),
        Command::RecordBufferAttrChanged(p) => p.spec_encodable(protocol_version),
        Command::ClientEvent(p) => p.spec_encodable(protocol_version),
        Command::PlaybackStreamEvent(p) => p.spec_encodable(protocol_version),
        Command::RecordStreamEvent(p) => p.spec_encodable(protocol_version),
        Command::SubscribeEvent(p) => p.spec_encodable(protocol_version),
        _ => true,
    }
}

/// Whether this library reads no payload for a command with the tag.
pub open spec fn command_unimplemented(tag: CommandTag) -> bool {
    ||| tag == CommandTag::EnableSrbchannel
    ||| tag == CommandTag::DisableSrbchannel
    ||| tag == CommandTag::RegisterMemfdShmid
    ||| tag == CommandTag::SendObjectMessage
}

/// The payload of a command with the given tag that `t` starts with, if
/// it starts with one.
pub open spec fn payload_parse(tag: CommandTag, t: Seq<u8>, protocol_version: u16) -> Option<Seq<TagValue>> {
    match tag {
        CommandTag::Exit => Some(Seq::empty()),
        CommandTag::Reply => Some(Seq::empty()),
        CommandTag::Auth => struct_payload(AuthParams::spec_parse(t, protocol_version)),
        CommandTag::SetClientName => struct_payload(Props::spec_parse(t, protocol_version)),
        CommandTag::DeletePlaybackStream => u32_payload(t),
        CommandTag::DeleteRecordStream => u32_payload(t),
        CommandTag::DrainPlaybackStream => u32_payload(t),
        CommandTag::GetPlaybackLatency => struct_payload(LatencyParams::spec_parse(t, protocol_version)),
        CommandTag::GetRecordLatency => struct_payload(LatencyParams::spec_parse(t, protocol_version)),
        CommandTag::DeleteUploadStream => u32_payload(t),
        CommandTag::FinishUploadStream => u32_payload(t),
        CommandTag::CorkPlaybackStream => struct_payload(CorkStreamParams::spec_parse(t, protocol_version)),
        CommandTag::CorkRecordStream => struct_payload(CorkStreamParams::spec_parse(t, protocol_version)),
        CommandTag::FlushPlaybackStream => u32_payload(t),
        CommandTag::FlushRecordStream => u32_payload(t),
        CommandTag::PrebufPlaybackStream => u32_payload(t),
        CommandTag::TriggerPlaybackStream => u32_payload(t),
        CommandTag::SetPlaybackStreamName => struct_payload(SetStreamNameParams::spec_parse(t, protocol_version)),
        CommandTag::SetRecordStreamName => struct_payload(SetStreamNameParams::spec_parse(t, protocol_version)),
        CommandTag::SetPlaybackStreamBufferAttr => struct_payload(SetPlaybackStreamBufferAttrParams::spec_parse(t, protocol_version)),
        CommandTag::SetRecordStreamBufferAttr => struct_payload(SetRecordStreamBufferAttrParams::spec_parse(t, protocol_version)),
        CommandTag::UpdatePlaybackStreamProplist => struct_payload(UpdatePropsParams::spec_parse(t, protocol_version)),
        CommandTag::UpdateRecordStreamProplist => struct_payload(UpdatePropsParams::spec_parse(t, protocol_version)),
        CommandTag::RemovePlaybackStreamProplist => u32_payload(t),
        CommandTag::RemoveRecordStreamProplist => u32_payload(t),
        CommandTag::UpdatePlaybackStreamSampleRate => struct_payload(UpdateSampleRateParams::spec_parse(t, protocol_version)),
        CommandTag::UpdateRecordStreamSampleRate => struct_payload(UpdateSampleRateParams::spec_parse(t, protocol_version)),
        CommandTag::Stat => Some(Seq::empty()),
        CommandTag::GetServerInfo => Some(Seq::empty()),
        CommandTag::GetCardInfo => u32_payload(t),
        CommandTag::GetCardInfoList => Some(Seq::empty()),
        CommandTag::GetSinkInfo => struct_payload(GetSinkInfo::spec_parse(t, protocol_version)),
        CommandTag::GetSinkInfoList => Some(Seq::empty()),
        CommandTag::GetSourceInfo => struct_payload(GetSourceInfo::spec_parse(t, protocol_version)),
        CommandTag::GetSourceInfoList => Some(Seq::empty()),
        CommandTag::GetModuleInfo => u32_payload(t),
        CommandTag::GetModuleInfoList => Some(Seq::empty()),
        CommandTag::GetClientInfo => u32_payload(t),
        CommandTag::GetClientInfoList => Some(Seq::empty()),
        CommandTag::GetSinkInputInfo => u32_payload(t),
        CommandTag::GetSinkInputInfoList => Some(Seq::empty()),
        CommandTag::GetSourceOutputInfo => u32_payload(t),
        CommandTag::GetSourceOutputInfoList => Some(Seq::empty()),
        CommandTag::GetSampleInfo => u32_payload(t),
        CommandTag::GetSampleInfoList => Some(Seq::empty()),
        CommandTag::LookupSink => string_payload(t),
        CommandTag::LookupSource => string_payload(t),
        CommandTag::Subscribe => struct_payload(SubscriptionMask::spec_parse(t, protocol_version)),
        CommandTag::SetDefaultSink => string_payload(t),
        CommandTag::SetDefaultSource => string_payload(t),
        CommandTag::SetSinkPort => struct_payload(SetPortParams::spec_parse(t, protocol_version)),
        CommandTag::SetSourcePort => struct_payload(SetPortParams::spec_parse(t, protocol_version)),
        CommandTag::SetCardProfile => struct_payload(SetCardProfileParams::spec_parse(t, protocol_version)),
        CommandTag::KillClient => u32_payload(t),
        CommandTag::KillSinkInput => u32_payload(t),
        CommandTag::KillSourceOutput => u32_payload(t),
        CommandTag::MoveSinkInput => struct_payload(MoveStreamParams::spec_parse(t, protocol_version)),
        CommandTag::MoveSourceOutput => struct_payload(MoveStreamParams::spec_parse(t, protocol_version)),
        CommandTag::SuspendSink => struct_payload(SuspendParams::spec_parse(t, protocol_version)),
        CommandTag::SuspendSource => struct_payload(SuspendParams::spec_parse(t, protocol_version)),
        CommandTag::UpdateClientProplist => struct_payload(UpdateClientProplistParams::spec_parse(t, protocol_version)),
        CommandTag::RemoveClientProplist => Some(Seq::empty()),
        CommandTag::SetPortLatencyOffset => struct_payload(SetPortLatencyOffsetParams::spec_parse(t, protocol_version)),
        CommandTag::PlaySample => struct_payload(PlaySampleParams::spec_parse(t, protocol_version)),
        CommandTag::CreatePlaybackStream => struct_payload(PlaybackStreamParams::spec_parse(t, protocol_version)),
        CommandTag::CreateRecordStream => struct_payload(RecordStreamParams::spec_parse(t, protocol_version)),
        CommandTag::CreateUploadStream => struct_payload(UploadStreamParams::spec_parse(t, protocol_version)),
        CommandTag::RemoveSample => string_payload(t),
        CommandTag::LoadModule => struct_payload(LoadModuleParams::spec_parse(t, protocol_version)),
        CommandTag::UnloadModule => u32_payload(t),
        CommandTag::Extension => struct_payload(ExtensionParams::spec_parse(t, protocol_version)),
        CommandTag::SetSinkVolume => struct_payload(SetDeviceVolumeParams::spec_parse(t, protocol_version)),
        CommandTag::SetSinkInputVolume => struct_payload(SetStreamVolumeParams::spec_parse(t, protocol_version)),
        CommandTag::SetSourceVolume => struct_payload(SetDeviceVolumeParams::spec_parse(t, protocol_version)),
        CommandTag::SetSourceOutputVolume => struct_payload(SetStreamVolumeParams::spec_parse(t, protocol_version)),
        CommandTag::SetSinkMute => struct_payload(SetDeviceMuteParams::spec_parse(t, protocol_version)),
        CommandTag::SetSinkInputMute => struct_payload(SetStreamMuteParams::spec_parse(t, protocol_version)),
        CommandTag::SetSourceMute => struct_payload(SetDeviceMuteParams::spec_parse(t, protocol_version)),
        CommandTag::SetSourceOutputMute => struct_payload(SetStreamMuteParams::spec_parse(t, protocol_version)),
        CommandTag::Started => u32_payload(t),
        CommandTag::Request => struct_payload(Request::spec_parse(t, protocol_version)),
        CommandTag::Overflow => u32_payload(t),
        CommandTag::Underflow => struct_payload(Underflow::spec_parse(t, protocol_version)),
        CommandTag::PlaybackStreamKilled => u32_payload(t),
        CommandTag::RecordStreamKilled => u32_payload(t),
        CommandTag::PlaybackStreamSuspended => struct_payload(StreamSuspendedParams::spec_parse(t, protocol_version)),
        CommandTag::RecordStreamSuspended => struct_payload(StreamSuspendedParams::spec_parse(t, protocol_version)),
        CommandTag::PlaybackStreamMoved => struct_payload(PlaybackStreamMovedParams::spec_parse(t, protocol_version)),
        CommandTag::RecordStreamMoved => struct_payload(RecordStreamMovedParams::spec_parse(t, protocol_version)),
        CommandTag::PlaybackBufferAttrChanged => struct_payload(PlaybackBufferAttrChanged::spec_parse(t, protocol_version)),
        CommandTag::RecordBufferAttrChanged => struct_payload(RecordBufferAttrChanged::spec_parse(t, protocol_version)),
        CommandTag::ClientEvent => struct_payload(ClientEvent::spec_parse(t, protocol_version)),
        CommandTag::PlaybackStreamEvent => struct_payload(GenericStreamEvent::spec_parse(t, protocol_version)),
        CommandTag::RecordStreamEvent => struct_payload(GenericStreamEvent::spec_parse(t, protocol_version)),
        CommandTag::SubscribeEvent => struct_payload(SubscriptionEvent::spec_parse(t, protocol_version)),
        _ => None,
    }
}

/// The number of bytes the payload of a command with the given tag takes
/// at the start of `t`, where `t` starts with one.
pub open spec fn payload_len(tag: CommandTag, t: Seq<u8>, protocol_version: u16) -> int {
    match tag {
        CommandTag::Exit => 0,
        CommandTag::Reply => 0,
        CommandTag::Auth => struct_payload_len(AuthParams::spec_parse(t, protocol_version)),
        CommandTag::SetClientName => struct_payload_len(Props::spec_parse(t, protocol_version)),
        CommandTag::DeletePlaybackStream => value_len(t),
        CommandTag::DeleteRecordStream => value_len(t),
        CommandTag::DrainPlaybackStream => value_len(t),
        CommandTag::GetPlaybackLatency => struct_payload_len(LatencyParams::spec_parse(t, protocol_version)),
        CommandTag::GetRecordLatency => struct_payload_len(LatencyParams::spec_parse(t, protocol_version)),
        CommandTag::DeleteUploadStream => value_len(t),
        CommandTag::FinishUploadStream => value_len(t),
        CommandTag::CorkPlaybackStream => struct_payload_len(CorkStreamParams::spec_parse(t, protocol_version)),
        CommandTag::CorkRecordStream => struct_payload_len(CorkStreamParams::spec_parse(t, protocol_version)),
        CommandTag::FlushPlaybackStream => value_len(t),
        CommandTag::FlushRecordStream => value_len(t),
        CommandTag::PrebufPlaybackStream => value_len(t),
        CommandTag::TriggerPlaybackStream => value_len(t),
        CommandTag::SetPlaybackStreamName => struct_payload_len(SetStreamNameParams::spec_parse(t, protocol_version)),
        CommandTag::SetRecordStreamName => struct_payload_len(SetStreamNameParams::spec_parse(t, protocol_version)),
        CommandTag::SetPlaybackStreamBufferAttr => struct_payload_len(SetPlaybackStreamBufferAttrParams::spec_parse(t, protocol_version)),
        CommandTag::SetRecordStreamBufferAttr => struct_payload_len(SetRecordStreamBufferAttrParams::spec_parse(t, protocol_version)),
        CommandTag::UpdatePlaybackStreamProplist => struct_payload_len(UpdatePropsParams::spec_parse(t, protocol_version)),
        CommandTag::UpdateRecordStreamProplist => struct_payload_len(UpdatePropsParams::spec_parse(t, protocol_version)),
        CommandTag::RemovePlaybackStreamProplist => value_len(t),
        CommandTag::RemoveRecordStreamProplist => value_len(t),
        CommandTag::UpdatePlaybackStreamSampleRate => struct_payload_len(UpdateSampleRateParams::spec_parse(t, protocol_version)),
        CommandTag::UpdateRecordStreamSampleRate => struct_payload_len(UpdateSampleRateParams::spec_parse(t, protocol_version)),
        CommandTag::Stat => 0,
        CommandTag::GetServerInfo => 0,
        CommandTag::GetCardInfo => value_len(t),
        CommandTag::GetCardInfoList => 0,
        CommandTag::GetSinkInfo => struct_payload_len(GetSinkInfo::spec_parse(t, protocol_version)),
        CommandTag::GetSinkInfoList => 0,
        CommandTag::GetSourceInfo => struct_payload_len(GetSourceInfo::spec_parse(t, protocol_version)),
        CommandTag::GetSourceInfoList => 0,
        CommandTag::GetModuleInfo => value_len(t),
        CommandTag::GetModuleInfoList => 0,
        CommandTag::GetClientInfo => value_len(t),
        CommandTag::GetClientInfoList => 0,
        CommandTag::GetSinkInputInfo => value_len(t),
        CommandTag::GetSinkInputInfoList => 0,
        CommandTag::GetSourceOutputInfo => value_len(t),
        CommandTag::GetSourceOutputInfoList => 0,
        CommandTag::GetSampleInfo => value_len(t),
        CommandTag::GetSampleInfoList => 0,
        CommandTag::LookupSink => value_len(t),
        CommandTag::LookupSource => value_len(t),
        CommandTag::Subscribe => struct_payload_len(SubscriptionMask::spec_parse(t, protocol_version)),
        CommandTag::SetDefaultSink => value_len(t),
        CommandTag::SetDefaultSource => value_len(t),
        CommandTag::SetSinkPort => struct_payload_len(SetPortParams::spec_parse(t, protocol_version)),
        CommandTag::SetSourcePort => struct_payload_len(SetPortParams::spec_parse(t, protocol_version)),
        CommandTag::SetCardProfile => struct_payload_len(SetCardProfileParams::spec_parse(t, protocol_version)),
        CommandTag::KillClient => value_len(t),
        CommandTag::KillSinkInput => value_len(t),
        CommandTag::KillSourceOutput => value_len(t),
        CommandTag::MoveSinkInput => struct_payload_len(MoveStreamParams::spec_parse(t, protocol_version)),
        CommandTag::MoveSourceOutput => struct_payload_len(MoveStreamParams::spec_parse(t, protocol_version)),
        CommandTag::SuspendSink => struct_payload_len(SuspendParams::spec_parse(t, protocol_version)),
        CommandTag::SuspendSource => struct_payload_len(SuspendParams::spec_parse(t, protocol_version)),
        CommandTag::UpdateClientProplist => struct_payload_len(UpdateClientProplistParams::spec_parse(t, protocol_version)),
        CommandTag::RemoveClientProplist => 0,
        CommandTag::SetPortLatencyOffset => struct_payload_len(SetPortLatencyOffsetParams::spec_parse(t, protocol_version)),
        CommandTag::PlaySample => struct_payload_len(PlaySampleParams::spec_parse(t, protocol_version)),
        CommandTag::CreatePlaybackStream => struct_payload_len(PlaybackStreamParams::spec_parse(t, protocol_version)),
        CommandTag::CreateRecordStream => struct_payload_len(RecordStreamParams::spec_parse(t, protocol_version)),
        CommandTag::CreateUploadStream => struct_payload_len(UploadStreamParams::spec_parse(t, protocol_version)),
        CommandTag::RemoveSample => value_len(t),
        CommandTag::LoadModule => struct_payload_len(LoadModuleParams::spec_parse(t, protocol_version)),
        CommandTag::UnloadModule => value_len(t),
        CommandTag::Extension => struct_payload_len(ExtensionParams::spec_parse(t, protocol_version)),
        CommandTag::SetSinkVolume => struct_payload_len(SetDeviceVolumeParams::spec_parse(t, protocol_version)),
        CommandTag::SetSinkInputVolume => struct_payload_len(SetStreamVolumeParams::spec_parse(t, protocol_version)),
        CommandTag::SetSourceVolume => struct_payload_len(SetDeviceVolumeParams::spec_parse(t, protocol_version)),
        CommandTag::SetSourceOutputVolume => struct_payload_len(SetStreamVolumeParams::spec_parse(t, protocol_version)),
        CommandTag::SetSinkMute => struct_payload_len(SetDeviceMuteParams::spec_parse(t, protocol_version)),
        CommandTag::SetSinkInputMute => struct_payload_len(SetStreamMuteParams::spec_parse(t, protocol_version)),
        CommandTag::SetSourceMute => struct_payload_len(SetDeviceMuteParams::spec_parse(t, protocol_version)),
        CommandTag::SetSourceOutputMute => struct_payload_len(SetStreamMuteParams::spec_parse(t, protocol_version)),
        CommandTag::Started => value_len(t),
        CommandTag::Request => struct_payload_len(Request::spec_parse(t, protocol_version)),
        CommandTag::Overflow => value_len(t),
        CommandTag::Underflow => struct_payload_len(Underflow::spec_parse(t, protocol_version)),
        CommandTag::PlaybackStreamKilled => value_len(t),
        CommandTag::RecordStreamKilled => value_len(t),
        CommandTag::PlaybackStreamSuspended => struct_payload_len(StreamSuspendedParams::spec_parse(t, protocol_version)),
        CommandTag::RecordStreamSuspended => struct_payload_len(StreamSuspendedParams::spec_parse(t, protocol_version)),
        CommandTag::PlaybackStreamMoved => struct_payload_len(PlaybackStreamMovedParams::spec_parse(t, protocol_version)),
        CommandTag::RecordStreamMoved => struct_payload_len(RecordStreamMovedParams::spec_parse(t, protocol_version)),
        CommandTag::PlaybackBufferAttrChanged => struct_payload_len(PlaybackBufferAttrChanged::spec_parse(t, protocol_version)),
        CommandTag::RecordBufferAttrChanged => struct_payload_len(RecordBufferAttrChanged::spec_parse(t, protocol_version)),
        CommandTag::ClientEvent => struct_payload_len(ClientEvent::spec_parse(t, protocol_version)),
        CommandTag::PlaybackStreamEvent => struct_payload_len(GenericStreamEvent::spec_parse(t, protocol_version)),
        CommandTag::RecordStreamEvent => struct_payload_len(GenericStreamEvent::spec_parse(t, protocol_version)),
        CommandTag::SubscribeEvent => struct_payload_len(SubscriptionEvent::spec_parse(t, protocol_version)),
        _ => 0,
    }
}

/// The number of bytes of the value `t` starts with.
pub open spec fn value_len(t: Seq<u8>) -> int {
    match parse_value(t) {
        Some((_, k)) => k,
        None => 0,
    }
}

/// The number of bytes of a structured payload.
pub open spec fn struct_payload_len(p: Option<(Seq<TagValue>, int)>) -> int {
    match p {
        Some((_, n)) => n,
        None => 0,
    }
}

/// The number of bytes of the command message that `s` starts with: its
/// tag, its sequence number and its payload.
pub open spec fn message_len(s: Seq<u8>, protocol_version: u16) -> int {
    match parse_values(s, 2) {
        Some((vs, n)) => match vs[0] {
            TagValue::U32(code) => match command_tag_of_code(code) {
                Some(tag) => n + payload_len(tag, s.skip(n), protocol_version),
                None => n,
            },
            _ => n,
        },
        None => 0,
    }
}

impl Command {
    /// The matching tag for this command.
    pub fn tag(&self) -> (r: CommandTag)
        ensures
            r == command_tag(*self),
    {
        match self {
            Command::Error(_) => CommandTag::Error,
            Command::Timeout => CommandTag::Timeout,
            Command::Exit => CommandTag::Exit,
            Command::Reply => CommandTag::Reply,
            Command::Auth(_) => CommandTag::Auth,
            Command::SetClientName(_) => CommandTag::SetClientName,
            Command::DeletePlaybackStream(_) => CommandTag::DeletePlaybackStream,
            Command::DeleteRecordStream(_) => CommandTag::DeleteRecordStream,
            Command::DrainPlaybackStream(_) => CommandTag::DrainPlaybackStream,
            Command::GetPlaybackLatency(_) => CommandTag::GetPlaybackLatency,
            Command::GetRecordLatency(_) => CommandTag::GetRecordLatency,
            Command::DeleteUploadStream(_) => CommandTag::DeleteUploadStream,
            Command::FinishUploadStream(_) => CommandTag::FinishUploadStream,
            Command::CorkPlaybackStream(_) => CommandTag::CorkPlaybackStream,
            Command::CorkRecordStream(_) => CommandTag::CorkRecordStream,
            Command::FlushPlaybackStream(_) => CommandTag::FlushPlaybackStream,
            Command::FlushRecordStream(_) => CommandTag::FlushRecordStream,
            Command::PrebufPlaybackStream(_) => CommandTag::PrebufPlaybackStream,
            Command::TriggerPlaybackStream(_) => CommandTag::TriggerPlaybackStream,
            Command::SetPlaybackStreamName(_) => CommandTag::SetPlaybackStreamName,
            Command::SetRecordStreamName(_) => CommandTag::SetRecordStreamName,
            Command::SetPlaybackStreamBufferAttr(_) => CommandTag::SetPlaybackStreamBufferAttr,
            Command::SetRecordStreamBufferAttr(_) => CommandTag::SetRecordStreamBufferAttr,
            Command::UpdatePlaybackStreamProplist(_) => CommandTag::UpdatePlaybackStreamProplist,
            Command::UpdateRecordStreamProplist(_) => CommandTag::UpdateRecordStreamProplist,
            Command::RemovePlaybackStreamProplist(_) => CommandTag::RemovePlaybackStreamProplist,
            Command::RemoveRecordStreamProplist(_) => CommandTag::RemoveRecordStreamProplist,
            Command::UpdatePlaybackStreamSampleRate(_) => CommandTag::UpdatePlaybackStreamSampleRate,
            Command::UpdateRecordStreamSampleRate(_) => CommandTag::UpdateRecordStreamSampleRate,
            Command::Stat => CommandTag::Stat,
            Command::GetServerInfo => CommandTag::GetServerInfo,
            Command::GetCardInfo(_) => CommandTag::GetCardInfo,
            Command::GetCardInfoList => CommandTag::GetCardInfoList,
            Command::GetSinkInfo(_) => CommandTag::GetSinkInfo,
            Command::GetSinkInfoList => CommandTag::GetSinkInfoList,
            Command::GetSourceInfo(_) => CommandTag::GetSourceInfo,
            Command::GetSourceInfoList => CommandTag::GetSourceInfoList,
            Command::GetModuleInfo(_) => CommandTag::GetModuleInfo,
            Command::GetModuleInfoList => CommandTag::GetModuleInfoList,
            Command::GetClientInfo(_) => CommandTag::GetClientInfo,
            Command::GetClientInfoList => CommandTag::GetClientInfoList,
            Command::GetSinkInputInfo(_) => CommandTag::GetSinkInputInfo,
            Command::GetSinkInputInfoList => CommandTag::GetSinkInputInfoList,
            Command::GetSourceOutputInfo(_) => CommandTag::GetSourceOutputInfo,
            Command::GetSourceOutputInfoList => CommandTag::GetSourceOutputInfoList,
            Command::GetSampleInfo(_) => CommandTag::GetSampleInfo,
            Command::GetSampleInfoList => CommandTag::GetSampleInfoList,
            Command::LookupSink(_) => CommandTag::LookupSink,
            Command::LookupSource(_) => CommandTag::LookupSource,
            Command::Subscribe(_) => CommandTag::Subscribe,
            Command::SetDefaultSink(_) => CommandTag::SetDefaultSink,
            Command::SetDefaultSource(_) => CommandTag::SetDefaultSource,
            Command::SetSinkPort(_) => CommandTag::SetSinkPort,
            Command::SetSourcePort(_) => CommandTag::SetSourcePort,
            Command::SetCardProfile(_) => CommandTag::SetCardProfile,
            Command::KillClient(_) => CommandTag::KillClient,
            Command::KillSinkInput(_) => CommandTag::KillSinkInput,
            Command::KillSourceOutput(_) => CommandTag::KillSourceOutput,
            Command::MoveSinkInput(_) => CommandTag::MoveSinkInput,
            Command::MoveSourceOutput(_) => CommandTag::MoveSourceOutput,
            Command::SuspendSink(_) => CommandTag::SuspendSink,
            Command::SuspendSource(_) => CommandTag::SuspendSource,
            Command::UpdateClientProplist(_) => CommandTag::UpdateClientProplist,
            Command::RemoveClientProplist => CommandTag::RemoveClientProplist,
            Command::SetPortLatencyOffset(_) => CommandTag::SetPortLatencyOffset,
            Command::PlaySample(_) => CommandTag::PlaySample,
            Command::CreatePlaybackStream(_) => CommandTag::CreatePlaybackStream,
            Command::CreateRecordStream(_) => CommandTag::CreateRecordStream,
            Command::CreateUploadStream(_) => CommandTag::CreateUploadStream,
            Command::RemoveSample(_) => CommandTag::RemoveSample,
            Command::LoadModule(_) => CommandTag::LoadModule,
            Command::UnloadModule(_) => CommandTag::UnloadModule,
            Command::Extension(_) => CommandTag::Extension,
            Command::SetSinkVolume(_) => CommandTag::SetSinkVolume,
            Command::SetSinkInputVolume(_) => CommandTag::SetSinkInputVolume,
            Command::SetSourceVolume(_) => CommandTag::SetSourceVolume,
            Command::SetSourceOutputVolume(_) => CommandTag::SetSourceOutputVolume,
            Command::SetSinkMute(_) => CommandTag::SetSinkMute,
            Command::SetSinkInputMute(_) => CommandTag::SetSinkInputMute,
            Command::SetSourceMute(_) => CommandTag::SetSourceMute,
            Command::SetSourceOutputMute(_) => CommandTag::SetSourceOutputMute,
            Command::Started(_) => CommandTag::Started,
            Command::Request(_) => CommandTag::Request,
            Command::Overflow(_) => CommandTag::Overflow,
            Command::Underflow(_) => CommandTag::Underflow,
            Command::PlaybackStreamKilled(_) => CommandTag::PlaybackStreamKilled,
            Command::RecordStreamKilled(_) => CommandTag::RecordStreamKilled,
            Command::PlaybackStreamSuspended(_) => CommandTag::PlaybackStreamSuspended,
            Command::RecordStreamSuspended(_) => CommandTag::RecordStreamSuspended,
            Command::PlaybackStreamMoved(_) => CommandTag::PlaybackStreamMoved,
            Command::RecordStreamMoved(_) => CommandTag::RecordStreamMoved,
            Command::PlaybackBufferAttrChanged(_) => CommandTag::PlaybackBufferAttrChanged,
            Command::RecordBufferAttrChanged(_) => CommandTag::RecordBufferAttrChanged,
            Command::ClientEvent(_) => CommandTag::ClientEvent,
            Command::PlaybackStreamEvent(_) => CommandTag::PlaybackStreamEvent,
            Command::RecordStreamEvent(_) => CommandTag::RecordStreamEvent,
            Command::SubscribeEvent(_) => CommandTag::SubscribeEvent,
        }
    }

    /// Whether the payload of a command with the tag is a structure.
    pub open spec fn has_struct_payload(tag: CommandTag) -> bool {
        ||| tag == CommandTag::Auth
        ||| tag == CommandTag::SetClientName
        ||| tag == CommandTag::GetPlaybackLatency
        ||| tag == CommandTag::GetRecordLatency
        ||| tag == CommandTag::CorkPlaybackStream
        ||| tag == CommandTag::CorkRecordStream
        ||| tag == CommandTag::SetPlaybackStreamName
        ||| tag == CommandTag::SetRecordStreamName
        ||| tag == CommandTag::SetPlaybackStreamBufferAttr
        ||| tag == CommandTag::SetRecordStreamBufferAttr
        ||| tag == CommandTag::UpdatePlaybackStreamProplist
        ||| tag == CommandTag::UpdateRecordStreamProplist
        ||| tag == CommandTag::UpdatePlaybackStreamSampleRate
        ||| tag == CommandTag::UpdateRecordStreamSampleRate
        ||| tag == CommandTag::GetSinkInfo
        ||| tag == CommandTag::GetSourceInfo
        ||| tag == CommandTag::Subscribe
        ||| tag == CommandTag::SetSinkPort
        ||| tag == CommandTag::SetSourcePort
        ||| tag == CommandTag::SetCardProfile
        ||| tag == CommandTag::MoveSinkInput
        ||| tag == CommandTag::MoveSourceOutput
        ||| tag == CommandTag::SuspendSink
        ||| tag == CommandTag::SuspendSource
        ||| tag == CommandTag::UpdateClientProplist
        ||| tag == CommandTag::SetPortLatencyOffset
        ||| tag == CommandTag::PlaySample
        ||| tag == CommandTag::CreatePlaybackStream
        ||| tag == CommandTag::CreateRecordStream
        ||| tag == CommandTag::CreateUploadStream
        ||| tag == CommandTag::LoadModule
        ||| tag == CommandTag::Extension
        ||| tag == CommandTag::SetSinkVolume
        ||| tag == CommandTag::SetSinkInputVolume
        ||| tag == CommandTag::SetSourceVolume
        ||| tag == CommandTag::SetSourceOutputVolume
        ||| tag == CommandTag::SetSinkMute
        ||| tag == CommandTag::SetSinkInputMute
        ||| tag == CommandTag::SetSourceMute
        ||| tag == CommandTag::SetSourceOutputMute
        ||| tag == CommandTag::Request
        ||| tag == CommandTag::Underflow
        ||| tag == CommandTag::PlaybackStreamSuspended
        ||| tag == CommandTag::RecordStreamSuspended
        ||| tag == CommandTag::PlaybackStreamMoved
        ||| tag == CommandTag::RecordStreamMoved
        ||| tag == CommandTag::PlaybackBufferAttrChanged
        ||| tag == CommandTag::RecordBufferAttrChanged
        ||| tag == CommandTag::ClientEvent
        ||| tag == CommandTag::PlaybackStreamEvent
        ||| tag == CommandTag::RecordStreamEvent
        ||| tag == CommandTag::SubscribeEvent
    }

    /// Reads the payload of a command with the given tag, when the payload is
    /// nothing, a `u32` or a string.
    fn read_simple_payload(ts: &mut TagStructReader, tag: CommandTag) -> (r: Result<Command, ProtocolError>)
        requires
            tag != CommandTag::Error,
            tag != CommandTag::Timeout,
            !command_unimplemented(tag),
            !Command::has_struct_payload(tag),
        ensures
            match payload_parse(tag, old(ts).rest(), old(ts).version()) {
                Some(vs) => r matches Ok(c) && command_tag(c) == tag && command_payload(c, old(ts).version()) == vs
                    && command_canonical(c, old(ts).version()),
                None => r is Err,
            },
            tag == CommandTag::Reply ==> final(ts).rest() == old(ts).rest(),
            payload_parse(tag, old(ts).rest(), old(ts).version()) is Some ==> 0 <= payload_len(
                tag,
                old(ts).rest(),
                old(ts).version(),
            ) <= old(ts).rest().len() && final(ts).rest() == old(ts).rest().skip(
                payload_len(tag, old(ts).rest(), old(ts).version()),
            ),
            final(ts).version() == old(ts).version(),
    {
        proof {
            crate::protocol::serde::fields::lemma_parse_value_len(ts.rest());
        }
        let c = match tag {
            CommandTag::Exit => Command::Exit,
            CommandTag::Reply => Command::Reply,
            CommandTag::DeletePlaybackStream => Command::DeletePlaybackStream(ts.read_u32()?),
            CommandTag::DeleteRecordStream => Command::DeleteRecordStream(ts.read_u32()?),
            CommandTag::DrainPlaybackStream => Command::DrainPlaybackStream(ts.read_u32()?),
            CommandTag::DeleteUploadStream => Command::DeleteUploadStream(ts.read_u32()?),
            CommandTag::FinishUploadStream => Command::FinishUploadStream(ts.read_u32()?),
            CommandTag::FlushPlaybackStream => Command::FlushPlaybackStream(ts.read_u32()?),
            CommandTag::FlushRecordStream => Command::FlushRecordStream(ts.read_u32()?),
            CommandTag::PrebufPlaybackStream => Command::PrebufPlaybackStream(ts.read_u32()?),
            CommandTag::TriggerPlaybackStream => Command::TriggerPlaybackStream(ts.read_u32()?),
            CommandTag::RemovePlaybackStreamProplist => Command::RemovePlaybackStreamProplist(ts.read_u32()?),
            CommandTag::RemoveRecordStreamProplist => Command::RemoveRecordStreamProplist(ts.read_u32()?),
            CommandTag::Stat => Command::Stat,
            CommandTag::GetServerInfo => Command::GetServerInfo,
            CommandTag::GetCardInfo => Command::GetCardInfo(ts.read_u32()?),
            CommandTag::GetCardInfoList => Command::GetCardInfoList,
            CommandTag::GetSinkInfoList => Command::GetSinkInfoList,
            CommandTag::GetSourceInfoList => Command::GetSourceInfoList,
            CommandTag::GetModuleInfo => Command::GetModuleInfo(ts.read_u32()?),
            CommandTag::GetModuleInfoList => Command::GetModuleInfoList,
            CommandTag::GetClientInfo => Command::GetClientInfo(ts.read_u32()?),
            CommandTag::GetClientInfoList => Command::GetClientInfoList,
            CommandTag::GetSinkInputInfo => Command::GetSinkInputInfo(ts.read_u32()?),
            CommandTag::GetSinkInputInfoList => Command::GetSinkInputInfoList,
            CommandTag::GetSourceOutputInfo => Command::GetSourceOutputInfo(ts.read_u32()?),
            CommandTag::GetSourceOutputInfoList => Command::GetSourceOutputInfoList,
            CommandTag::GetSampleInfo => Command::GetSampleInfo(ts.read_u32()?),
            CommandTag::GetSampleInfoList => Command::GetSampleInfoList,
            CommandTag::LookupSink => Command::LookupSink(ts.read_string_non_null()?),
            CommandTag::LookupSource => Command::LookupSource(ts.read_string_non_null()?),
            CommandTag::SetDefaultSink => Command::SetDefaultSink(ts.read_string_non_null()?),
            CommandTag::SetDefaultSource => Command::SetDefaultSource(ts.read_string_non_null()?),
            CommandTag::KillClient => Command::KillClient(ts.read_u32()?),
            CommandTag::KillSinkInput => Command::KillSinkInput(ts.read_u32()?),
            CommandTag::KillSourceOutput => Command::KillSourceOutput(ts.read_u32()?),
            CommandTag::RemoveClientProplist => Command::RemoveClientProplist,
            CommandTag::RemoveSample => Command::RemoveSample(ts.read_string_non_null()?),
            CommandTag::UnloadModule => Command::UnloadModule(ts.read_u32()?),
            CommandTag::Started => Command::Started(ts.read_u32()?),
            CommandTag::Overflow => Command::Overflow(ts.read_u32()?),
            CommandTag::PlaybackStreamKilled => Command::PlaybackStreamKilled(ts.read_u32()?),
            CommandTag::RecordStreamKilled => Command::RecordStreamKilled(ts.read_u32()?),
            _ => {
                return Err(ProtocolError::Invalid("command read elsewhere".to_owned()));
            },
        };
        Ok(c)
    }

    /// Reads the payload of a command with the given tag, when the payload is
    /// a structure.
    fn read_struct_payload(ts: &mut TagStructReader, tag: CommandTag) -> (r: Result<Command, ProtocolError>)
        requires
            tag != CommandTag::Error,
            tag != CommandTag::Timeout,
            !command_unimplemented(tag),
            Command::has_struct_payload(tag),
            !Command::is_create_stream_tag(tag),
        ensures
            match payload_parse(tag, old(ts).rest(), old(ts).version()) {
                Some(vs) => r matches Ok(c) && command_tag(c) == tag && command_payload(c, old(ts).version()) == vs
                    && command_canonical(c, old(ts).version()),
                None => r is Err,
            },
            payload_parse(tag, old(ts).rest(), old(ts).version()) is Some ==> 0 <= payload_len(
                tag,
                old(ts).rest(),
                old(ts).version(),
            ) <= old(ts).rest().len() && final(ts).rest() == old(ts).rest().skip(
                payload_len(tag, old(ts).rest(), old(ts).version()),
            ),
            final(ts).version() == old(ts).version(),
    {
        let c = match tag {
            CommandTag::Auth => Command::Auth(ts.read()?),
            CommandTag::SetClientName => Command::SetClientName(ts.read()?),
            CommandTag::GetPlaybackLatency => Command::GetPlaybackLatency(ts.read()?),
            CommandTag::GetRecordLatency => Command::GetRecordLatency(ts.read()?),
            CommandTag::CorkPlaybackStream => Command::CorkPlaybackStream(ts.read()?),
            CommandTag::CorkRecordStream => Command::CorkRecordStream(ts.read()?),
            CommandTag::SetPlaybackStreamName => Command::SetPlaybackStreamName(ts.read()?),
            CommandTag::SetRecordStreamName => Command::SetRecordStreamName(ts.read()?),
            CommandTag::SetPlaybackStreamBufferAttr => Command::SetPlaybackStreamBufferAttr(ts.read()?),
            CommandTag::SetRecordStreamBufferAttr => Command::SetRecordStreamBufferAttr(ts.read()?),
            CommandTag::UpdatePlaybackStreamProplist => Command::UpdatePlaybackStreamProplist(ts.read()?),
            CommandTag::UpdateRecordStreamProplist => Command::UpdateRecordStreamProplist(ts.read()?),
            CommandTag::UpdatePlaybackStreamSampleRate => Command::UpdatePlaybackStreamSampleRate(ts.read()?),
            CommandTag::UpdateRecordStreamSampleRate => Command::UpdateRecordStreamSampleRate(ts.read()?),
            CommandTag::GetSinkInfo => Command::GetSinkInfo(ts.read()?),
            CommandTag::GetSourceInfo => Command::GetSourceInfo(ts.read()?),
            CommandTag::Subscribe => Command::Subscribe(ts.read()?),
            CommandTag::SetSinkPort => Command::SetSinkPort(ts.read()?),
            CommandTag::SetSourcePort => Command::SetSourcePort(ts.read()?),
            CommandTag::SetCardProfile => Command::SetCardProfile(ts.read()?),
            CommandTag::MoveSinkInput => Command::MoveSinkInput(ts.read()?),
            CommandTag::MoveSourceOutput => Command::MoveSourceOutput(ts.read()?),
            CommandTag::SuspendSink => Command::SuspendSink(ts.read()?),
            CommandTag::SuspendSource => Command::SuspendSource(ts.read()?),
            CommandTag::UpdateClientProplist => Command::UpdateClientProplist(ts.read()?),
            CommandTag::SetPortLatencyOffset => Command::SetPortLatencyOffset(ts.read()?),
            CommandTag::PlaySample => Command::PlaySample(ts.read()?),
            CommandTag::LoadModule => Command::LoadModule(ts.read()?),
            CommandTag::Extension => Command::Extension(ts.read()?),
            CommandTag::SetSinkVolume => Command::SetSinkVolume(ts.read()?),
            CommandTag::SetSinkInputVolume => Command::SetSinkInputVolume(ts.read()?),
            CommandTag::SetSourceVolume => Command::SetSourceVolume(ts.read()?),
            CommandTag::SetSourceOutputVolume => Command::SetSourceOutputVolume(ts.read()?),
            CommandTag::SetSinkMute => Command::SetSinkMute(ts.read()?),
            CommandTag::SetSinkInputMute => Command::SetSinkInputMute(ts.read()?),
            CommandTag::SetSourceMute => Command::SetSourceMute(ts.read()?),
            CommandTag::SetSourceOutputMute => Command::SetSourceOutputMute(ts.read()?),
            CommandTag::Request => Command::Request(ts.read()?),
            CommandTag::Underflow => Command::Underflow(ts.read()?),
            CommandTag::PlaybackStreamSuspended => Command::PlaybackStreamSuspended(ts.read()?),
            CommandTag::RecordStreamSuspended => Command::RecordStreamSuspended(ts.read()?),
            CommandTag::PlaybackStreamMoved => Command::PlaybackStreamMoved(ts.read()?),
            CommandTag::RecordStreamMoved => Command::RecordStreamMoved(ts.read()?),
            CommandTag::PlaybackBufferAttrChanged => Command::PlaybackBufferAttrChanged(ts.read()?),
            CommandTag::RecordBufferAttrChanged => Command::RecordBufferAttrChanged(ts.read()?),
            CommandTag::ClientEvent => Command::ClientEvent(ts.read()?),
            CommandTag::PlaybackStreamEvent => Command::PlaybackStreamEvent(ts.read()?),
            CommandTag::RecordStreamEvent => Command::RecordStreamEvent(ts.read()?),
            CommandTag::SubscribeEvent => Command::SubscribeEvent(ts.read()?),
            _ => {
                return Err(ProtocolError::Invalid("command read elsewhere".to_owned()));
            },
        };
        Ok(c)
    }

    /// Reads the payload of a command with the given tag.
    fn read_payload(ts: &mut TagStructReader, tag: CommandTag) -> (r: Result<Command, ProtocolError>)
        requires
            tag != CommandTag::Error,
            tag != CommandTag::Timeout,
            !command_unimplemented(tag),
        ensures
            match payload_parse(tag, old(ts).rest(), old(ts).version()) {
                Some(vs) => r matches Ok(c) && command_tag(c) == tag && command_payload(c, old(ts).version()) == vs
                    && command_canonical(c, old(ts).version()),
                None => r is Err,
            },
            tag == CommandTag::Reply ==> final(ts).rest() == old(ts).rest(),
            payload_parse(tag, old(ts).rest(), old(ts).version()) is Some ==> 0 <= payload_len(
                tag,
                old(ts).rest(),
                old(ts).version(),
            ) <= old(ts).rest().len() && final(ts).rest() == old(ts).rest().skip(
                payload_len(tag, old(ts).rest(), old(ts).version()),
            ),
            final(ts).version() == old(ts).version(),
    {
        if tag == CommandTag::CreatePlaybackStream || tag == CommandTag::CreateRecordStream
            || tag == CommandTag::CreateUploadStream {
            Command::read_create_stream_payload(ts, tag)
        } else if Command::is_struct_tag(tag) {
            Command::read_struct_payload(ts, tag)
        } else {
            Command::read_simple_payload(ts, tag)
        }
    }

    /// Whether the tag is that of a command that creates a stream.
    pub open spec fn is_create_stream_tag(tag: CommandTag) -> bool {
        ||| tag == CommandTag::CreatePlaybackStream
        ||| tag == CommandTag::CreateRecordStream
        ||| tag == CommandTag::CreateUploadStream
    }

    /// Reads the payload of a command that creates a stream.
    fn read_create_stream_payload(ts: &mut TagStructReader, tag: CommandTag) -> (r: Result<Command, ProtocolError>)
        requires
            Command::is_create_stream_tag(tag),
        ensures
            match payload_parse(tag, old(ts).rest(), old(ts).version()) {
                Some(vs) => r matches Ok(c) && command_tag(c) == tag && command_payload(c, old(ts).version()) == vs
                    && command_canonical(c, old(ts).version()),
                None => r is Err,
            },
            payload_parse(tag, old(ts).rest(), old(ts).version()) is Some ==> 0 <= payload_len(
                tag,
                old(ts).rest(),
                old(ts).version(),
            ) <= old(ts).rest().len() && final(ts).rest() == old(ts).rest().skip(
                payload_len(tag, old(ts).rest(), old(ts).version()),
            ),
            final(ts).version() == old(ts).version(),
    {
        let c = match tag {
            CommandTag::CreatePlaybackStream => Command::CreatePlaybackStream(ts.read()?),
            CommandTag::CreateRecordStream => Command::CreateRecordStream(ts.read()?),
            _ => Command::CreateUploadStream(ts.read()?),
        };
        Ok(c)
    }

    /// Whether the payload of a command with the tag is a structure.
    fn is_struct_tag(tag: CommandTag) -> (r: bool)
        ensures
            r == Command::has_struct_payload(tag),
    {
        match tag {
            CommandTag::Auth
            | CommandTag::SetClientName
            | CommandTag::GetPlaybackLatency
            | CommandTag::GetRecordLatency
            | CommandTag::CorkPlaybackStream
            | CommandTag::CorkRecordStream
            | CommandTag::SetPlaybackStreamName
            | CommandTag::SetRecordStreamName
            | CommandTag::SetPlaybackStreamBufferAttr
            | CommandTag::SetRecordStreamBufferAttr
            | CommandTag::UpdatePlaybackStreamProplist
            | CommandTag::UpdateRecordStreamProplist
            | CommandTag::UpdatePlaybackStreamSampleRate
            | CommandTag::UpdateRecordStreamSampleRate
            | CommandTag::GetSinkInfo
            | CommandTag::GetSourceInfo
            | CommandTag::Subscribe
            | CommandTag::SetSinkPort
            | CommandTag::SetSourcePort
            | CommandTag::SetCardProfile
            | CommandTag::MoveSinkInput
            | CommandTag::MoveSourceOutput
            | CommandTag::SuspendSink
            | CommandTag::SuspendSource
            | CommandTag::UpdateClientProplist
            | CommandTag::SetPortLatencyOffset
            | CommandTag::PlaySample
            | CommandTag::CreatePlaybackStream
            | CommandTag::CreateRecordStream
            | CommandTag::CreateUploadStream
            | CommandTag::LoadModule
            | CommandTag::Extension
            | CommandTag::SetSinkVolume
            | CommandTag::SetSinkInputVolume
            | CommandTag::SetSourceVolume
            | CommandTag::SetSourceOutputVolume
            | CommandTag::SetSinkMute
            | CommandTag::SetSinkInputMute
            | CommandTag::SetSourceMute
            | CommandTag::SetSourceOutputMute
            | CommandTag::Request
            | CommandTag::Underflow
            | CommandTag::PlaybackStreamSuspended
            | CommandTag::RecordStreamSuspended
            | CommandTag::PlaybackStreamMoved
            | CommandTag::RecordStreamMoved
            | CommandTag::PlaybackBufferAttrChanged
            | CommandTag::RecordBufferAttrChanged
            | CommandTag::ClientEvent
            | CommandTag::PlaybackStreamEvent
            | CommandTag::RecordStreamEvent
            | CommandTag::SubscribeEvent => true,
            _ => false,
        }
    }
}

impl TagStructWrite for Command {
    open spec fn spec_values(&self, protocol_version: u16) -> Seq<TagValue> {
        command_payload(*self, protocol_version)
    }

    open spec fn spec_writable(&self) -> bool {
        command_writable(*self)
    }

    fn write(&self, w: &mut TagStructWriter, protocol_version: u16) -> (r: Result<(), ProtocolError>) {
        match self {
            Command::Error(e) => {
                w.write_u32(e.to_u32())?;
                proof {
                    lemma_values_bytes_1(TagValue::U32(pulse_error_code(*e)));
                }
            },
            Command::Auth(p) => p.write(w, protocol_version)?,
            Command::SetClientName(p) => p.write(w, protocol_version)?,
            Command::DeletePlaybackStream(id) => {
                w.write_u32(*id)?;
                proof {
                    lemma_values_bytes_1(TagValue::U32(*id));
                }
            },
            Command::DeleteRecordStream(id) => {
                w.write_u32(*id)?;
                proof {
                    lemma_values_bytes_1(TagValue::U32(*id));
                }
            },
            Command::DrainPlaybackStream(id) => {
                w.write_u32(*id)?;
                proof {
                    lemma_values_bytes_1(TagValue::U32(*id));
                }
            },
            Command::GetPlaybackLatency(p) => p.write(w, protocol_version)?,
            Command::GetRecordLatency(p) => p.write(w, protocol_version)?,
            Command::DeleteUploadStream(id) => {
                w.write_u32(*id)?;
                proof {
                    lemma_values_bytes_1(TagValue::U32(*id));
                }
            },
            Command::FinishUploadStream(id) => {
                w.write_u32(*id)?;
                proof {
                    lemma_values_bytes_1(TagValue::U32(*id));
                }
            },
            Command::CorkPlaybackStream(p) => p.write(w, protocol_version)?,
            Command::CorkRecordStream(p) => p.write(w, protocol_version)?,
            Command::FlushPlaybackStream(id) => {
                w.write_u32(*id)?;
                proof {
                    lemma_values_bytes_1(TagValue::U32(*id));
                }
            },
            Command::FlushRecordStream(id) => {
                w.write_u32(*id)?;
                proof {
                    lemma_values_bytes_1(TagValue::U32(*id));
                }
            },
            Command::PrebufPlaybackStream(id) => {
                w.write_u32(*id)?;
                proof {
                    lemma_values_bytes_1(TagValue::U32(*id));
                }
            },
            Command::TriggerPlaybackStream(id) => {
                w.write_u32(*id)?;
                proof {
                    lemma_values_bytes_1(TagValue::U32(*id));
                }
            },
            Command::SetPlaybackStreamName(p) => p.write(w, protocol_version)?,
            Command::SetRecordStreamName(p) => p.write(w, protocol_version)?,
            Command::SetPlaybackStreamBufferAttr(p) => p.write(w, protocol_version)?,
            Command::SetRecordStreamBufferAttr(p) => p.write(w, protocol_version)?,
            Command::UpdatePlaybackStreamProplist(p) => p.write(w, protocol_version)?,
            Command::UpdateRecordStreamProplist(p) => p.write(w, protocol_version)?,
            Command::RemovePlaybackStreamProplist(id) => {
                w.write_u32(*id)?;
                proof {
                    lemma_values_bytes_1(TagValue::U32(*id));
                }
            },
            Command::RemoveRecordStreamProplist(id) => {
                w.write_u32(*id)?;
                proof {
                    lemma_values_bytes_1(TagValue::U32(*id));
                }
            },
            Command::UpdatePlaybackStreamSampleRate(p) => p.write(w, protocol_version)?,
            Command::UpdateRecordStreamSampleRate(p) => p.write(w, protocol_version)?,
            Command::GetCardInfo(id) => {
                w.write_u32(*id)?;
                proof {
                    lemma_values_bytes_1(TagValue::U32(*id));
                }
            },
            Command::GetSinkInfo(p) => p.write(w, protocol_version)?,
            Command::GetSourceInfo(p) => p.write(w, protocol_version)?,
            Command::GetModuleInfo(id) => {
                w.write_u32(*id)?;
                proof {
                    lemma_values_bytes_1(TagValue::U32(*id));
                }
            },
            Command::GetClientInfo(id) => {
                w.write_u32(*id)?;
                proof {
                    lemma_values_bytes_1(TagValue::U32(*id));
                }
            },
            Command::GetSinkInputInfo(id) => {
                w.write_u32(*id)?;
                proof {
                    lemma_values_bytes_1(TagValue::U32(*id));
                }
            },
            Command::GetSourceOutputInfo(id) => {
                w.write_u32(*id)?;
                proof {
                    lemma_values_bytes_1(TagValue::U32(*id));
                }
            },
            Command::GetSampleInfo(id) => {
                w.write_u32(*id)?;
                proof {
                    lemma_values_bytes_1(TagValue::U32(*id));
                }
            },
            Command::LookupSink(name) => {
                w.write_string(Some(name))?;
                proof {
                    lemma_values_bytes_1(TagValue::Str(name@));
                }
            },
            Command::LookupSource(name) => {
                w.write_string(Some(name))?;
                proof {
                    lemma_values_bytes_1(TagValue::Str(name@));
                }
            },
            Command::Subscribe(p) => p.write(w, protocol_version)?,
            Command::SetDefaultSink(name) => {
                w.write_string(Some(name))?;
                proof {
                    lemma_values_bytes_1(TagValue::Str(name@));
                }
            },
            Command::SetDefaultSource(name) => {
                w.write_string(Some(name))?;
                proof {
                    lemma_values_bytes_1(TagValue::Str(name@));
                }
            },
            Command::SetSinkPort(p) => p.write(w, protocol_version)?,
            Command::SetSourcePort(p) => p.write(w, protocol_version)?,
            Command::SetCardProfile(p) => p.write(w, protocol_version)?,
            Command::KillClient(id) => {
                w.write_u32(*id)?;
                proof {
                    lemma_values_bytes_1(TagValue::U32(*id));
                }
            },
            Command::KillSinkInput(id) => {
                w.write_u32(*id)?;
                proof {
                    lemma_values_bytes_1(TagValue::U32(*id));
                }
            },
            Command::KillSourceOutput(id) => {
                w.write_u32(*id)?;
                proof {
                    lemma_values_bytes_1(TagValue::U32(*id));
                }
            },
            Command::MoveSinkInput(p) => p.write(w, protocol_version)?,
            Command::MoveSourceOutput(p) => p.write(w, protocol_version)?,
            Command::SuspendSink(p) => p.write(w, protocol_version)?,
            Command::SuspendSource(p) => p.write(w, protocol_version)?,
            Command::UpdateClientProplist(p) => p.write(w, protocol_version)?,
            Command::SetPortLatencyOffset(p) => p.write(w, protocol_version)?,
            Command::PlaySample(p) => p.write(w, protocol_version)?,
            Command::CreatePlaybackStream(p) => p.write(w, protocol_version)?,
            Command::CreateRecordStream(p) => p.write(w, protocol_version)?,
            Command::CreateUploadStream(p) => p.write(w, protocol_version)?,
            Command::RemoveSample(name) => {
                w.write_string(Some(name))?;
                proof {
                    lemma_values_bytes_1(TagValue::Str(name@));
                }
            },
            Command::LoadModule(p) => p.write(w, protocol_version)?,
            Command::UnloadModule(id) => {
                w.write_u32(*id)?;
                proof {
                    lemma_values_bytes_1(TagValue::U32(*id));
                }
            },
            Command::Extension(p) => p.write(w, protocol_version)?,
            Command::SetSinkVolume(p) => p.write(w, protocol_version)?,
            Command::SetSinkInputVolume(p) => p.write(w, protocol_version)?,
            Command::SetSourceVolume(p) => p.write(w, protocol_version)?,
            Command::SetSourceOutputVolume(p) => p.write(w, protocol_version)?,
            Command::SetSinkMute(p) => p.write(w, protocol_version)?,
            Command::SetSinkInputMute(p) => p.write(w, protocol_version)?,
            Command::SetSourceMute(p) => p.write(w, protocol_version)?,
            Command::SetSourceOutputMute(p) => p.write(w, protocol_version)?,
            Command::Started(id) => {
                w.write_u32(*id)?;
                proof {
                    lemma_values_bytes_1(TagValue::U32(*id));
                }
            },
            Command::Request(p) => p.write(w, protocol_version)?,
            Command::Overflow(id) => {
                w.write_u32(*id)?;
                proof {
                    lemma_values_bytes_1(TagValue::U32(*id));
                }
            },
            Command::Underflow(p) => p.write(w, protocol_version)?,
            Command::PlaybackStreamKilled(id) => {
                w.write_u32(*id)?;
                proof {
                    lemma_values_bytes_1(TagValue::U32(*id));
                }
            },
            Command::RecordStreamKilled(id) => {
                w.write_u32(*id)?;
                proof {
                    lemma_values_bytes_1(TagValue::U32(*id));
                }
            },
            Command::PlaybackStreamSuspended(p) => p.write(w, protocol_version)?,
            Command::RecordStreamSuspended(p) => p.write(w, protocol_version)?,
            Command::PlaybackStreamMoved(p) => p.write(w, protocol_version)?,
            Command::RecordStreamMoved(p) => p.write(w, protocol_version)?,
            Command::PlaybackBufferAttrChanged(p) => p.write(w, protocol_version)?,
            Command::RecordBufferAttrChanged(p) => p.write(w, protocol_version)?,
            Command::ClientEvent(p) => p.write(w, protocol_version)?,
            Command::PlaybackStreamEvent(p) => p.write(w, protocol_version)?,
            Command::RecordStreamEvent(p) => p.write(w, protocol_version)?,
            Command::SubscribeEvent(p) => p.write(w, protocol_version)?,
            _ => {
                assert(values_bytes(Seq::<TagValue>::empty()) =~= Seq::<u8>::empty());
                assert(w.bytes() =~= old(w).bytes() + Seq::<u8>::empty());
            },
        }
        Ok(())
    }
}

/// The payload of a command that is nothing, a `u32` or a string is parsed
/// back from its bytes.
#[verifier::rlimit(100)]
proof fn lemma_simple_payload_roundtrip(c: Command, protocol_version: u16, rest: Seq<u8>)
    requires
        command_encodable(c, protocol_version),
        !(c is Error),
        !(c is Timeout),
        !Command::has_struct_payload(command_tag(c)),
    ensures
        command_canonical(c, protocol_version),
        payload_parse(command_tag(c), values_bytes(command_payload(c, protocol_version)) + rest, protocol_version)
            == Some(command_payload(c, protocol_version)),
{
    match c {
        Command::Exit => {},
        Command::Reply => {},
        Command::DeletePlaybackStream(id) => {
            lemma_values_bytes_1(TagValue::U32(id));
            lemma_parse_value_bytes(TagValue::U32(id), rest);
        },
        Command::DeleteRecordStream(id) => {
            lemma_values_bytes_1(TagValue::U32(id));
            lemma_parse_value_bytes(TagValue::U32(id), rest);
        },
        Command::DrainPlaybackStream(id) => {
            lemma_values_bytes_1(TagValue::U32(id));
            lemma_parse_value_bytes(TagValue::U32(id), rest);
        },
        Command::DeleteUploadStream(id) => {
            lemma_values_bytes_1(TagValue::U32(id));
            lemma_parse_value_bytes(TagValue::U32(id), rest);
        },
        Command::FinishUploadStream(id) => {
            lemma_values_bytes_1(TagValue::U32(id));
            lemma_parse_value_bytes(TagValue::U32(id), rest);
        },
        Command::FlushPlaybackStream(id) => {
            lemma_values_bytes_1(TagValue::U32(id));
            lemma_parse_value_bytes(TagValue::U32(id), rest);
        },
        Command::FlushRecordStream(id) => {
            lemma_values_bytes_1(TagValue::U32(id));
            lemma_parse_value_bytes(TagValue::U32(id), rest);
        },
        Command::PrebufPlaybackStream(id) => {
            lemma_values_bytes_1(TagValue::U32(id));
            lemma_parse_value_bytes(TagValue::U32(id), rest);
        },
        Command::TriggerPlaybackStream(id) => {
            lemma_values_bytes_1(TagValue::U32(id));
            lemma_parse_value_bytes(TagValue::U32(id), rest);
        },
        Command::RemovePlaybackStreamProplist(id) => {
            lemma_values_bytes_1(TagValue::U32(id));
            lemma_parse_value_bytes(TagValue::U32(id), rest);
        },
        Command::RemoveRecordStreamProplist(id) => {
            lemma_values_bytes_1(TagValue::U32(id));
            lemma_parse_value_bytes(TagValue::U32(id), rest);
        },
        Command::Stat => {},
        Command::GetServerInfo => {},
        Command::GetCardInfo(id) => {
            lemma_values_bytes_1(TagValue::U32(id));
            lemma_parse_value_bytes(TagValue::U32(id), rest);
        },
        Command::GetCardInfoList => {},
        Command::GetSinkInfoList => {},
        Command::GetSourceInfoList => {},
        Command::GetModuleInfo(id) => {
            lemma_values_bytes_1(TagValue::U32(id));
            lemma_parse_value_bytes(TagValue::U32(id), rest);
        },
        Command::GetModuleInfoList => {},
        Command::GetClientInfo(id) => {
            lemma_values_bytes_1(TagValue::U32(id));
            lemma_parse_value_bytes(TagValue::U32(id), rest);
        },
        Command::GetClientInfoList => {},
        Command::GetSinkInputInfo(id) => {
            lemma_values_bytes_1(TagValue::U32(id));
            lemma_parse_value_bytes(TagValue::U32(id), rest);
        },
        Command::GetSinkInputInfoList => {},
        Command::GetSourceOutputInfo(id) => {
            lemma_values_bytes_1(TagValue::U32(id));
            lemma_parse_value_bytes(TagValue::U32(id), rest);
        },
        Command::GetSourceOutputInfoList => {},
        Command::GetSampleInfo(id) => {
            lemma_values_bytes_1(TagValue::U32(id));
            lemma_parse_value_bytes(TagValue::U32(id), rest);
        },
        Command::GetSampleInfoList => {},
        Command::LookupSink(name) => {
            lemma_values_bytes_1(TagValue::Str(name@));
            lemma_parse_value_bytes(TagValue::Str(name@), rest);
        },
        Command::LookupSource(name) => {
            lemma_values_bytes_1(TagValue::Str(name@));
            lemma_parse_value_bytes(TagValue::Str(name@), rest);
        },
        Command::SetDefaultSink(name) => {
            lemma_values_bytes_1(TagValue::Str(name@));
            lemma_parse_value_bytes(TagValue::Str(name@), rest);
        },
        Command::SetDefaultSource(name) => {
            lemma_values_bytes_1(TagValue::Str(name@));
            lemma_parse_value_bytes(TagValue::Str(name@), rest);
        },
        Command::KillClient(id) => {
            lemma_values_bytes_1(TagValue::U32(id));
            lemma_parse_value_bytes(TagValue::U32(id), rest);
        },
        Command::KillSinkInput(id) => {
            lemma_values_bytes_1(TagValue::U32(id));
            lemma_parse_value_bytes(TagValue::U32(id), rest);
        },
        Command::KillSourceOutput(id) => {
            lemma_values_bytes_1(TagValue::U32(id));
            lemma_parse_value_bytes(TagValue::U32(id), rest);
        },
        Command::RemoveClientProplist => {},
        Command::RemoveSample(name) => {
            lemma_values_bytes_1(TagValue::Str(name@));
            lemma_parse_value_bytes(TagValue::Str(name@), rest);
        },
        Command::UnloadModule(id) => {
            lemma_values_bytes_1(TagValue::U32(id));
            lemma_parse_value_bytes(TagValue::U32(id), rest);
        },
        Command::Started(id) => {
            lemma_values_bytes_1(TagValue::U32(id));
            lemma_parse_value_bytes(TagValue::U32(id), rest);
        },
        Command::Overflow(id) => {
            lemma_values_bytes_1(TagValue::U32(id));
            lemma_parse_value_bytes(TagValue::U32(id), rest);
        },
        Command::PlaybackStreamKilled(id) => {
            lemma_values_bytes_1(TagValue::U32(id));
            lemma_parse_value_bytes(TagValue::U32(id), rest);
        },
        Command::RecordStreamKilled(id) => {
            lemma_values_bytes_1(TagValue::U32(id));
            lemma_parse_value_bytes(TagValue::U32(id), rest);
        },
        _ => {},
    }
}

/// The structured payload of a command is parsed back from its bytes.
#[verifier::rlimit(100)]
proof fn lemma_struct_payload_roundtrip(c: Command, protocol_version: u16, rest: Seq<u8>)
    requires
        command_encodable(c, protocol_version),
        !(c is Error),
        !(c is Timeout),
        Command::has_struct_payload(command_tag(c)),
    ensures
        command_canonical(c, protocol_version),
        payload_parse(command_tag(c), values_bytes(command_payload(c, protocol_version)) + rest, protocol_version)
            == Some(command_payload(c, protocol_version)),
{
    match c {
        Command::Auth(p) => p.lemma_roundtrip(protocol_version, rest),
        Command::SetClientName(p) => p.lemma_roundtrip(protocol_version, rest),
        Command::GetPlaybackLatency(p) => p.lemma_roundtrip(protocol_version, rest),
        Command::GetRecordLatency(p) => p.lemma_roundtrip(protocol_version, rest),
        Command::CorkPlaybackStream(p) => p.lemma_roundtrip(protocol_version, rest),
        Command::CorkRecordStream(p) => p.lemma_roundtrip(protocol_version, rest),
        Command::SetPlaybackStreamName(p) => p.lemma_roundtrip(protocol_version, rest),
        Command::SetRecordStreamName(p) => p.lemma_roundtrip(protocol_version, rest),
        Command::SetPlaybackStreamBufferAttr(p) => p.lemma_roundtrip(protocol_version, rest),
        Command::SetRecordStreamBufferAttr(p) => p.lemma_roundtrip(protocol_version, rest),
        Command::UpdatePlaybackStreamProplist(p) => p.lemma_roundtrip(protocol_version, rest),
        Command::UpdateRecordStreamProplist(p) => p.lemma_roundtrip(protocol_version, rest),
        Command::UpdatePlaybackStreamSampleRate(p) => p.lemma_roundtrip(protocol_version, rest),
        Command::UpdateRecordStreamSampleRate(p) => p.lemma_roundtrip(protocol_version, rest),
        Command::GetSinkInfo(p) => p.lemma_roundtrip(protocol_version, rest),
        Command::GetSourceInfo(p) => p.lemma_roundtrip(protocol_version, rest),
        Command::Subscribe(p) => p.lemma_roundtrip(protocol_version, rest),
        Command::SetSinkPort(p) => p.lemma_roundtrip(protocol_version, rest),
        Command::SetSourcePort(p) => p.lemma_roundtrip(protocol_version, rest),
        Command::SetCardProfile(p) => p.lemma_roundtrip(protocol_version, rest),
        Command::MoveSinkInput(p) => p.lemma_roundtrip(protocol_version, rest),
        Command::MoveSourceOutput(p) => p.lemma_roundtrip(protocol_version, rest),
        Command::SuspendSink(p) => p.lemma_roundtrip(protocol_version, rest),
        Command::SuspendSource(p) => p.lemma_roundtrip(protocol_version, rest),
        Command::UpdateClientProplist(p) => p.lemma_roundtrip(protocol_version, rest),
        Command::SetPortLatencyOffset(p) => p.lemma_roundtrip(protocol_version, rest),
        Command::PlaySample(p) => p.lemma_roundtrip(protocol_version, rest),
        Command::CreatePlaybackStream(p) => p.lemma_roundtrip(protocol_version, rest),
        Command::CreateRecordStream(p) => p.lemma_roundtrip(protocol_version, rest),
        Command::CreateUploadStream(p) => p.lemma_roundtrip(protocol_version, rest),
        Command::LoadModule(p) => p.lemma_roundtrip(protocol_version, rest),
        Command::Extension(p) => p.lemma_roundtrip(protocol_version, rest),
        Command::SetSinkVolume(p) => p.lemma_roundtrip(protocol_version, rest),
        Command::SetSinkInputVolume(p) => p.lemma_roundtrip(protocol_version, rest),
        Command::SetSourceVolume(p) => p.lemma_roundtrip(protocol_version, rest),
        Command::SetSourceOutputVolume(p) => p.lemma_roundtrip(protocol_version, rest),
        Command::SetSinkMute(p) => p.lemma_roundtrip(protocol_version, rest),
        Command::SetSinkInputMute(p) => p.lemma_roundtrip(protocol_version, rest),
        Command::SetSourceMute(p) => p.lemma_roundtrip(protocol_version, rest),
        Command::SetSourceOutputMute(p) => p.lemma_roundtrip(protocol_version, rest),
        Command::Request(p) => p.lemma_roundtrip(protocol_version, rest),
        Command::Underflow(p) => p.lemma_roundtrip(protocol_version, rest),
        Command::PlaybackStreamSuspended(p) => p.lemma_roundtrip(protocol_version, rest),
        Command::RecordStreamSuspended(p) => p.lemma_roundtrip(protocol_version, rest),
        Command::PlaybackStreamMoved(p) => p.lemma_roundtrip(protocol_version, rest),
        Command::RecordStreamMoved(p) => p.lemma_roundtrip(protocol_version, rest),
        Command::PlaybackBufferAttrChanged(p) => p.lemma_roundtrip(protocol_version, rest),
        Command::RecordBufferAttrChanged(p) => p.lemma_roundtrip(protocol_version, rest),
        Command::ClientEvent(p) => p.lemma_roundtrip(protocol_version, rest),
        Command::PlaybackStreamEvent(p) => p.lemma_roundtrip(protocol_version, rest),
        Command::RecordStreamEvent(p) => p.lemma_roundtrip(protocol_version, rest),
        Command::SubscribeEvent(p) => p.lemma_roundtrip(protocol_version, rest),
        _ => {},
    }
}

/// The payload of a command is parsed back from its bytes.
proof fn lemma_payload_roundtrip(c: Command, protocol_version: u16, rest: Seq<u8>)
    requires
        command_encodable(c, protocol_version),
        !(c is Error),
        !(c is Timeout),
    ensures
        command_canonical(c, protocol_version),
        payload_parse(command_tag(c), values_bytes(command_payload(c, protocol_version)) + rest, protocol_version)
            == Some(command_payload(c, protocol_version)),
{
    if Command::has_struct_payload(command_tag(c)) {
        lemma_struct_payload_roundtrip(c, protocol_version, rest);
    } else {
        lemma_simple_payload_roundtrip(c, protocol_version, rest);
    }
}
/// The payload of a command that is one `u32`.
pub open spec fn u32_payload(t: Seq<u8>) -> Option<Seq<TagValue>> {
    match parse_value(t) {
        Some((TagValue::U32(x), _)) => Some(seq![TagValue::U32(x)]),
        _ => None,
    }
}

/// The payload of a command that is one string.
pub open spec fn string_payload(t: Seq<u8>) -> Option<Seq<TagValue>> {
    match parse_value(t) {
        Some((TagValue::Str(b), _)) => Some(seq![TagValue::Str(b)]),
        _ => None,
    }
}

/// The values of a structured payload, dropping the number of bytes.
pub open spec fn struct_payload(p: Option<(Seq<TagValue>, int)>) -> Option<Seq<TagValue>> {
    match p {
        Some((vs, _)) => Some(vs),
        None => None,
    }
}

/// What reading a command message gives.
pub enum CommandParse {
    /// A command with its sequence number, its tag and the values of its
    /// payload.
    Message(u32, CommandTag, Seq<TagValue>),
    /// An error reply from the server, with the sequence number of the
    /// command it answers.
    ServerError(u32, PulseError),
    /// The timeout pseudo-command.
    Timeout,
    /// A command, with its sequence number, whose payload this library does
    /// not read.
    Unimplemented(u32, CommandTag),
    /// A well-formed header whose command tag, or whose error code, is
    /// unknown.
    UnknownCode,
    /// Bytes that hold no command otherwise.
    Malformed,
}

/// What reading the command message that `s` starts with gives: the tag and
/// the sequence number, then the error code of an error reply, or the
/// payload of any other command.
pub open spec fn parse_command(s: Seq<u8>, protocol_version: u16) -> CommandParse {
    match parse_values(s, 2) {
        Some((vs, n)) => match (vs[0], vs[1]) {
            (TagValue::U32(code), TagValue::U32(seq)) => match command_tag_of_code(code) {
                Some(tag) => if tag == CommandTag::Error {
                    match parse_value(s.skip(n)) {
                        Some((TagValue::U32(e), _)) => match pulse_error_from_code(e) {
                            Some(pe) => CommandParse::ServerError(seq, pe),
                            None => CommandParse::UnknownCode,
                        },
                        _ => CommandParse::Malformed,
                    }
                } else if tag == CommandTag::Timeout {
                    CommandParse::Timeout
                } else if command_unimplemented(tag) {
                    CommandParse::Unimplemented(seq, tag)
                } else {
                    match payload_parse(tag, s.skip(n), protocol_version) {
                        Some(p) => CommandParse::Message(seq, tag, p),
                        None => CommandParse::Malformed,
                    }
                },
                None => CommandParse::UnknownCode,
            },
            _ => CommandParse::Malformed,
        },
        None => CommandParse::Malformed,
    }
}

/// A message whose header takes 10 bytes and whose payload takes
/// `payload_len` bytes after it ends where `message_len` says.
proof fn lemma_message_end(s: Seq<u8>, t: Seq<u8>, r: Seq<u8>, tag: CommandTag, code: u32, protocol_version: u16)
    requires
        s.len() >= 10,
        t == s.skip(10),
        parse_values(s, 2) matches Some((vs, n)) && n == 10 && vs[0] == TagValue::U32(code),
        command_tag_of_code(code) == Some(tag),
        payload_parse(tag, t, protocol_version) is Some ==> 0 <= payload_len(tag, t, protocol_version) <= t.len()
            && r == t.skip(payload_len(tag, t, protocol_version)),
    ensures
        payload_parse(tag, t, protocol_version) is Some ==> r == s.skip(message_len(s, protocol_version)),
{
    if payload_parse(tag, t, protocol_version) is Some {
        let k = payload_len(tag, t, protocol_version);
        assert(message_len(s, protocol_version) == 10 + k);
        assert(t.skip(k) =~= s.skip(10 + k));
    }
}

/// The values of a command message: its tag, its sequence number, and its
/// payload.
pub open spec fn command_values(c: Command, seq: u32, protocol_version: u16) -> Seq<TagValue> {
    seq![TagValue::U32(command_tag_code(command_tag(c))), TagValue::U32(seq)] + command_payload(
        c,
        protocol_version,
    )
}

impl Command {
    /// Read a command message from a tagstruct. A result of [`Command::Reply`]
    /// indicates that the payload has yet to be read.
    pub fn read_tag_prefixed(r: &[u8], protocol_version: u16) -> (res: Result<(u32, Command), ProtocolError>)
        ensures
            match parse_command(r@, protocol_version) {
                CommandParse::Message(seq, tag, vs) => res matches Ok((q, c)) && q == seq
                    && command_tag(c) == tag && command_payload(c, protocol_version) == vs
                    && command_canonical(c, protocol_version),
                CommandParse::ServerError(_, e) => res == Err::<(u32, Command), ProtocolError>(
                    ProtocolError::ServerError(e),
                ),
                CommandParse::Timeout => res == Err::<(u32, Command), ProtocolError>(
                    ProtocolError::Timeout,
                ),
                CommandParse::Unimplemented(seq, tag) => res == Err::<(u32, Command), ProtocolError>(
                    ProtocolError::Unimplemented(seq, tag),
                ),
                CommandParse::UnknownCode => res matches Err(e) && e.is_invalid(),
                CommandParse::Malformed => res is Err,
            },
            r@.len() == 0 ==> res == Err::<(u32, Command), ProtocolError>(
                ProtocolError::Io(IoErrorKind::UnexpectedEof),
            ),
            r@.len() > 0 && r@[0] != TAG_U32 ==> (res matches Err(e) && e.is_invalid()),
    {
        let mut ts = TagStructReader::new(r, protocol_version);
        Command::read_tag_prefixed_from(&mut ts)
    }

    /// Reads a command message from a reader, at the reader's protocol
    /// version. A result of [`Command::Reply`] leaves the reader at the start
    /// of the reply's payload, right after the tag and the sequence number.
    #[verifier::rlimit(100)]
    pub fn read_tag_prefixed_from(ts: &mut TagStructReader) -> (res: Result<(u32, Command), ProtocolError>)
        ensures
            match parse_command(old(ts).rest(), old(ts).version()) {
                CommandParse::Message(seq, tag, vs) => res matches Ok((q, c)) && q == seq
                    && command_tag(c) == tag && command_payload(c, old(ts).version()) == vs
                    && command_canonical(c, old(ts).version()),
                CommandParse::ServerError(_, e) => res == Err::<(u32, Command), ProtocolError>(
                    ProtocolError::ServerError(e),
                ),
                CommandParse::Timeout => res == Err::<(u32, Command), ProtocolError>(
                    ProtocolError::Timeout,
                ),
                CommandParse::Unimplemented(seq, tag) => res == Err::<(u32, Command), ProtocolError>(
                    ProtocolError::Unimplemented(seq, tag),
                ),
                CommandParse::UnknownCode => res matches Err(e) && e.is_invalid(),
                CommandParse::Malformed => res is Err,
            },
            old(ts).rest().len() == 0 ==> res == Err::<(u32, Command), ProtocolError>(
                ProtocolError::Io(IoErrorKind::UnexpectedEof),
            ),
            old(ts).rest().len() > 0 && old(ts).rest()[0] != TAG_U32 ==> (res matches Err(e) && e.is_invalid()),
            final(ts).version() == old(ts).version(),
            res matches Ok((_, Command::Reply)) ==> final(ts).rest() == old(ts).rest().skip(10),
            parse_command(old(ts).rest(), old(ts).version()) is Message ==> final(ts).rest() == old(ts).rest().skip(
                message_len(old(ts).rest(), old(ts).version()),
            ),
    {
        let protocol_version = ts.protocol_version();
        let ghost s = ts.rest();
        proof {
            lemma_parse_values_start(s, 2);
            lemma_parse_values_next(s, Seq::empty(), ts.rest(), 1);
        }
        let code = ts.read_u32()?;
        proof {
            assert(s[0] == TAG_U32 && ts.rest() =~= s.skip(5)) by {
                reveal(crate::protocol::serde::wire::parse_scalar);
            }
            lemma_parse_values_next(s, seq![TagValue::U32(code)], ts.rest(), 0);
        }
        let seq = ts.read_u32()?;
        proof {
            assert(ts.rest() =~= s.skip(10) && s.len() >= 10) by {
                reveal(crate::protocol::serde::wire::parse_scalar);
            }
            lemma_parse_values_done(
                seq![TagValue::U32(code), TagValue::U32(seq)],
                s.len() - ts.rest().len(),
                ts.rest(),
            );
        }
        let tag = match CommandTag::from_u32(code) {
            Some(t) => t,
            None => {
                return Err(ProtocolError::Invalid("invalid command tag".to_owned()));
            },
        };
        match tag {
            CommandTag::Error => {
                let e = ts.read_u32()?;
                match PulseError::from_u32(e) {
                    Some(pe) => Err(ProtocolError::ServerError(pe)),
                    None => Err(ProtocolError::Invalid("invalid error code".to_owned())),
                }
            },
            CommandTag::Timeout => Err(ProtocolError::Timeout),
            CommandTag::EnableSrbchannel
            | CommandTag::DisableSrbchannel | CommandTag::RegisterMemfdShmid
            | CommandTag::SendObjectMessage => Err(ProtocolError::Unimplemented(seq, tag)),
            _ => {
                let ghost t = ts.rest();
                let cmd = Command::read_payload(ts, tag)?;
                proof {
                    lemma_message_end(s, t, ts.rest(), tag, code, protocol_version);
                }
                Ok((seq, cmd))
            },
        }
    }

    /// Write a command message as a tagstruct, appending it to `w`. In the
    /// case of a [`Command::Reply`], the payload must be written separately.
    pub fn write_tag_prefixed(&self, seq: u32, w: &mut Vec<u8>, protocol_version: u16) -> (r: Result<(), ProtocolError>)
        requires
            command_writable(*self),
        ensures
            r == Ok::<(), ProtocolError>(()),
            final(w)@ == old(w)@ + values_bytes(command_values(*self, seq, protocol_version)),
    {
        let mut buf: Vec<u8> = Vec::new();
        std::mem::swap(&mut buf, w);
        let mut ts = TagStructWriter::new(buf, protocol_version);
        ts.write_u32(self.tag().to_u32())?;
        ts.write_u32(seq)?;
        self.write(&mut ts, protocol_version)?;
        *w = ts.into_inner();
        proof {
            let hdr = seq![TagValue::U32(command_tag_code(command_tag(*self))), TagValue::U32(seq)];
            crate::protocol::serde::fields::lemma_values_bytes_2(hdr[0], hdr[1]);
            lemma_values_bytes_concat(hdr, command_payload(*self, protocol_version));
        }
        assert(w@ =~= old(w)@ + values_bytes(command_values(*self, seq, protocol_version)));
        Ok(())
    }
}

/// Reading back the message that a command is written as gives the command:
/// its sequence number, its tag and its payload; an error reply is read back
/// as the server error it carries, and a timeout as a timeout. Anything may
/// follow the message.
pub proof fn lemma_command_roundtrip(c: Command, seq: u32, protocol_version: u16, rest: Seq<u8>)
    requires
        command_encodable(c, protocol_version),
        !command_unimplemented(command_tag(c)),
    ensures
        parse_command(values_bytes(command_values(c, seq, protocol_version)) + rest, protocol_version)
            == match c {
            Command::Error(e) => CommandParse::ServerError(seq, e),
            Command::Timeout => CommandParse::Timeout,
            _ => CommandParse::Message(seq, command_tag(c), command_payload(c, protocol_version)),
        },
        command_canonical(c, protocol_version),
{
    let tag = command_tag(c);
    let hdr = seq![TagValue::U32(command_tag_code(tag)), TagValue::U32(seq)];
    let payload = command_payload(c, protocol_version);
    let pb = values_bytes(payload);
    lemma_values_bytes_concat(hdr, payload);
    let s = values_bytes(command_values(c, seq, protocol_version)) + rest;
    assert(s =~= values_bytes(hdr) + (pb + rest));
    lemma_parse_values_bytes(hdr, pb + rest);
    lemma_command_tag_roundtrip(tag);
    assert(s.skip(values_bytes(hdr).len() as int) =~= pb + rest);
    match c {
        Command::Error(e) => {
            lemma_values_bytes_1(TagValue::U32(pulse_error_code(e)));
            lemma_parse_value_bytes(TagValue::U32(pulse_error_code(e)), rest);
            super::error::lemma_pulse_error_code_roundtrip(e);
        },
        Command::Timeout => {},
        _ => {
            lemma_payload_roundtrip(c, protocol_version, rest);
        },
    }
}


/// The numbers that stand for the command tags on the wire, as the PulseAudio protocol
/// assigns them, in both directions.
#[verifier::rlimit(100)]
pub proof fn lemma_command_tag_table()
    ensures
        command_tag_code(CommandTag::Error) == 0,
        command_tag_code(CommandTag::Timeout) == 1,
        command_tag_code(CommandTag::Reply) == 2,
        command_tag_code(CommandTag::CreatePlaybackStream) == 3,
        command_tag_code(CommandTag::DeletePlaybackStream) == 4,
        command_tag_code(CommandTag::CreateRecordStream) == 5,
        command_tag_code(CommandTag::DeleteRecordStream) == 6,
        command_tag_code(CommandTag::Exit) == 7,
        command_tag_code(CommandTag::Auth) == 8,
        command_tag_code(CommandTag::SetClientName) == 9,
        command_tag_code(CommandTag::LookupSink) == 10,
        command_tag_code(CommandTag::LookupSource) == 11,
        command_tag_code(CommandTag::DrainPlaybackStream) == 12,
        command_tag_code(CommandTag::Stat) == 13,
        command_tag_code(CommandTag::GetPlaybackLatency) == 14,
        command_tag_code(CommandTag::CreateUploadStream) == 15,
        command_tag_code(CommandTag::DeleteUploadStream) == 16,
        command_tag_code(CommandTag::FinishUploadStream) == 17,
        command_tag_code(CommandTag::PlaySample) == 18,
        command_tag_code(CommandTag::RemoveSample) == 19,
        command_tag_code(CommandTag::GetServerInfo) == 20,
        command_tag_code(CommandTag::GetSinkInfo) == 21,
        command_tag_code(CommandTag::GetSinkInfoList) == 22,
        command_tag_code(CommandTag::GetSourceInfo) == 23,
        command_tag_code(CommandTag::GetSourceInfoList) == 24,
        command_tag_code(CommandTag::GetModuleInfo) == 25,
        command_tag_code(CommandTag::GetModuleInfoList) == 26,
        command_tag_code(CommandTag::GetClientInfo) == 27,
        command_tag_code(CommandTag::GetClientInfoList) == 28,
        command_tag_code(CommandTag::GetSinkInputInfo) == 29,
        command_tag_code(CommandTag::GetSinkInputInfoList) == 30,
        command_tag_code(CommandTag::GetSourceOutputInfo) == 31,
        command_tag_code(CommandTag::GetSourceOutputInfoList) == 32,
        command_tag_code(CommandTag::GetSampleInfo) == 33,
        command_tag_code(CommandTag::GetSampleInfoList) == 34,
        command_tag_code(CommandTag::Subscribe) == 35,
        command_tag_code(CommandTag::SetSinkVolume) == 36,
        command_tag_code(CommandTag::SetSinkInputVolume) == 37,
        command_tag_code(CommandTag::SetSourceVolume) == 38,
        command_tag_code(CommandTag::SetSinkMute) == 39,
        command_tag_code(CommandTag::SetSourceMute) == 40,
        command_tag_code(CommandTag::CorkPlaybackStream) == 41,
        command_tag_code(CommandTag::FlushPlaybackStream) == 42,
        command_tag_code(CommandTag::TriggerPlaybackStream) == 43,
        command_tag_code(CommandTag::SetDefaultSink) == 44,
        command_tag_code(CommandTag::SetDefaultSource) == 45,
        command_tag_code(CommandTag::SetPlaybackStreamName) == 46,
        command_tag_code(CommandTag::SetRecordStreamName) == 47,
        command_tag_code(CommandTag::KillClient) == 48,
        command_tag_code(CommandTag::KillSinkInput) == 49,
        command_tag_code(CommandTag::KillSourceOutput) == 50,
        command_tag_code(CommandTag::LoadModule) == 51,
        command_tag_code(CommandTag::UnloadModule) == 52,
        command_tag_code(CommandTag::GetRecordLatency) == 57,
        command_tag_code(CommandTag::CorkRecordStream) == 58,
        command_tag_code(CommandTag::FlushRecordStream) == 59,
        command_tag_code(CommandTag::PrebufPlaybackStream) == 60,
        command_tag_code(CommandTag::Request) == 61,
        command_tag_code(CommandTag::Overflow) == 62,
        command_tag_code(CommandTag::Underflow) == 63,
        command_tag_code(CommandTag::PlaybackStreamKilled) == 64,
        command_tag_code(CommandTag::RecordStreamKilled) == 65,
        command_tag_code(CommandTag::SubscribeEvent) == 66,
        command_tag_code(CommandTag::MoveSinkInput) == 67,
        command_tag_code(CommandTag::MoveSourceOutput) == 68,
        command_tag_code(CommandTag::SetSinkInputMute) == 69,
        command_tag_code(CommandTag::SuspendSink) == 70,
        command_tag_code(CommandTag::SuspendSource) == 71,
        command_tag_code(CommandTag::SetPlaybackStreamBufferAttr) == 72,
        command_tag_code(CommandTag::SetRecordStreamBufferAttr) == 73,
        command_tag_code(CommandTag::UpdatePlaybackStreamSampleRate) == 74,
        command_tag_code(CommandTag::UpdateRecordStreamSampleRate) == 75,
        command_tag_code(CommandTag::PlaybackStreamSuspended) == 76,
        command_tag_code(CommandTag::RecordStreamSuspended) == 77,
        command_tag_code(CommandTag::PlaybackStreamMoved) == 78,
        command_tag_code(CommandTag::RecordStreamMoved) == 79,
        command_tag_code(CommandTag::UpdateRecordStreamProplist) == 80,
        command_tag_code(CommandTag::UpdatePlaybackStreamProplist) == 81,
        command_tag_code(CommandTag::UpdateClientProplist) == 82,
        command_tag_code(CommandTag::RemoveRecordStreamProplist) == 83,
        command_tag_code(CommandTag::RemovePlaybackStreamProplist) == 84,
        command_tag_code(CommandTag::RemoveClientProplist) == 85,
        command_tag_code(CommandTag::Started) == 86,
        command_tag_code(CommandTag::Extension) == 87,
        command_tag_code(CommandTag::GetCardInfo) == 88,
        command_tag_code(CommandTag::GetCardInfoList) == 89,
        command_tag_code(CommandTag::SetCardProfile) == 90,
        command_tag_code(CommandTag::ClientEvent) == 91,
        command_tag_code(CommandTag::PlaybackStreamEvent) == 92,
        command_tag_code(CommandTag::RecordStreamEvent) == 93,
        command_tag_code(CommandTag::PlaybackBufferAttrChanged) == 94,
        command_tag_code(CommandTag::RecordBufferAttrChanged) == 95,
        command_tag_code(CommandTag::SetSinkPort) == 96,
        command_tag_code(CommandTag::SetSourcePort) == 97,
        command_tag_code(CommandTag::SetSourceOutputVolume) == 98,
        command_tag_code(CommandTag::SetSourceOutputMute) == 99,
        command_tag_code(CommandTag::SetPortLatencyOffset) == 100,
        command_tag_code(CommandTag::EnableSrbchannel) == 101,
        command_tag_code(CommandTag::DisableSrbchannel) == 102,
        command_tag_code(CommandTag::RegisterMemfdShmid) == 103,
        command_tag_code(CommandTag::SendObjectMessage) == 104,
        command_tag_of_code(0) == Some(CommandTag::Error),
        command_tag_of_code(1) == Some(CommandTag::Timeout),
        command_tag_of_code(2) == Some(CommandTag::Reply),
        command_tag_of_code(3) == Some(CommandTag::CreatePlaybackStream),
        command_tag_of_code(4) == Some(CommandTag::DeletePlaybackStream),
        command_tag_of_code(5) == Some(CommandTag::CreateRecordStream),
        command_tag_of_code(6) == Some(CommandTag::DeleteRecordStream),
        command_tag_of_code(7) == Some(CommandTag::Exit),
        command_tag_of_code(8) == Some(CommandTag::Auth),
        command_tag_of_code(9) == Some(CommandTag::SetClientName),
        command_tag_of_code(10) == Some(CommandTag::LookupSink),
        command_tag_of_code(11) == Some(CommandTag::LookupSource),
        command_tag_of_code(12) == Some(CommandTag::DrainPlaybackStream),
        command_tag_of_code(13) == Some(CommandTag::Stat),
        command_tag_of_code(14) == Some(CommandTag::GetPlaybackLatency),
        command_tag_of_code(15) == Some(CommandTag::CreateUploadStream),
        command_tag_of_code(16) == Some(CommandTag::DeleteUploadStream),
        command_tag_of_code(17) == Some(CommandTag::FinishUploadStream),
        command_tag_of_code(18) == Some(CommandTag::PlaySample),
        command_tag_of_code(19) == Some(CommandTag::RemoveSample),
        command_tag_of_code(20) == Some(CommandTag::GetServerInfo),
        command_tag_of_code(21) == Some(CommandTag::GetSinkInfo),
        command_tag_of_code(22) == Some(CommandTag::GetSinkInfoList),
        command_tag_of_code(23) == Some(CommandTag::GetSourceInfo),
        command_tag_of_code(24) == Some(CommandTag::GetSourceInfoList),
        command_tag_of_code(25) == Some(CommandTag::GetModuleInfo),
        command_tag_of_code(26) == Some(CommandTag::GetModuleInfoList),
        command_tag_of_code(27) == Some(CommandTag::GetClientInfo),
        command_tag_of_code(28) == Some(CommandTag::GetClientInfoList),
        command_tag_of_code(29) == Some(CommandTag::GetSinkInputInfo),
        command_tag_of_code(30) == Some(CommandTag::GetSinkInputInfoList),
        command_tag_of_code(31) == Some(CommandTag::GetSourceOutputInfo),
        command_tag_of_code(32) == Some(CommandTag::GetSourceOutputInfoList),
        command_tag_of_code(33) == Some(CommandTag::GetSampleInfo),
        command_tag_of_code(34) == Some(CommandTag::GetSampleInfoList),
        command_tag_of_code(35) == Some(CommandTag::Subscribe),
        command_tag_of_code(36) == Some(CommandTag::SetSinkVolume),
        command_tag_of_code(37) == Some(CommandTag::SetSinkInputVolume),
        command_tag_of_code(38) == Some(CommandTag::SetSourceVolume),
        command_tag_of_code(39) == Some(CommandTag::SetSinkMute),
        command_tag_of_code(40) == Some(CommandTag::SetSourceMute),
        command_tag_of_code(41) == Some(CommandTag::CorkPlaybackStream),
        command_tag_of_code(42) == Some(CommandTag::FlushPlaybackStream),
        command_tag_of_code(43) == Some(CommandTag::TriggerPlaybackStream),
        command_tag_of_code(44) == Some(CommandTag::SetDefaultSink),
        command_tag_of_code(45) == Some(CommandTag::SetDefaultSource),
        command_tag_of_code(46) == Some(CommandTag::SetPlaybackStreamName),
        command_tag_of_code(47) == Some(CommandTag::SetRecordStreamName),
        command_tag_of_code(48) == Some(CommandTag::KillClient),
        command_tag_of_code(49) == Some(CommandTag::KillSinkInput),
        command_tag_of_code(50) == Some(CommandTag::KillSourceOutput),
        command_tag_of_code(51) == Some(CommandTag::LoadModule),
        command_tag_of_code(52) == Some(CommandTag::UnloadModule),
        command_tag_of_code(57) == Some(CommandTag::GetRecordLatency),
        command_tag_of_code(58) == Some(CommandTag::CorkRecordStream),
        command_tag_of_code(59) == Some(CommandTag::FlushRecordStream),
        command_tag_of_code(60) == Some(CommandTag::PrebufPlaybackStream),
        command_tag_of_code(61) == Some(CommandTag::Request),
        command_tag_of_code(62) == Some(CommandTag::Overflow),
        command_tag_of_code(63) == Some(CommandTag::Underflow),
        command_tag_of_code(64) == Some(CommandTag::PlaybackStreamKilled),
        command_tag_of_code(65) == Some(CommandTag::RecordStreamKilled),
        command_tag_of_code(66) == Some(CommandTag::SubscribeEvent),
        command_tag_of_code(67) == Some(CommandTag::MoveSinkInput),
        command_tag_of_code(68) == Some(CommandTag::MoveSourceOutput),
        command_tag_of_code(69) == Some(CommandTag::SetSinkInputMute),
        command_tag_of_code(70) == Some(CommandTag::SuspendSink),
        command_tag_of_code(71) == Some(CommandTag::SuspendSource),
        command_tag_of_code(72) == Some(CommandTag::SetPlaybackStreamBufferAttr),
        command_tag_of_code(73) == Some(CommandTag::SetRecordStreamBufferAttr),
        command_tag_of_code(74) == Some(CommandTag::UpdatePlaybackStreamSampleRate),
        command_tag_of_code(75) == Some(CommandTag::UpdateRecordStreamSampleRate),
        command_tag_of_code(76) == Some(CommandTag::PlaybackStreamSuspended),
        command_tag_of_code(77) == Some(CommandTag::RecordStreamSuspended),
        command_tag_of_code(78) == Some(CommandTag::PlaybackStreamMoved),
        command_tag_of_code(79) == Some(CommandTag::RecordStreamMoved),
        command_tag_of_code(80) == Some(CommandTag::UpdateRecordStreamProplist),
        command_tag_of_code(81) == Some(CommandTag::UpdatePlaybackStreamProplist),
        command_tag_of_code(82) == Some(CommandTag::UpdateClientProplist),
        command_tag_of_code(83) == Some(CommandTag::RemoveRecordStreamProplist),
        command_tag_of_code(84) == Some(CommandTag::RemovePlaybackStreamProplist),
        command_tag_of_code(85) == Some(CommandTag::RemoveClientProplist),
        command_tag_of_code(86) == Some(CommandTag::Started),
        command_tag_of_code(87) == Some(CommandTag::Extension),
        command_tag_of_code(88) == Some(CommandTag::GetCardInfo),
        command_tag_of_code(89) == Some(CommandTag::GetCardInfoList),
        command_tag_of_code(90) == Some(CommandTag::SetCardProfile),
        command_tag_of_code(91) == Some(CommandTag::ClientEvent),
        command_tag_of_code(92) == Some(CommandTag::PlaybackStreamEvent),
        command_tag_of_code(93) == Some(CommandTag::RecordStreamEvent),
        command_tag_of_code(94) == Some(CommandTag::PlaybackBufferAttrChanged),
        command_tag_of_code(95) == Some(CommandTag::RecordBufferAttrChanged),
        command_tag_of_code(96) == Some(CommandTag::SetSinkPort),
        command_tag_of_code(97) == Some(CommandTag::SetSourcePort),
        command_tag_of_code(98) == Some(CommandTag::SetSourceOutputVolume),
        command_tag_of_code(99) == Some(CommandTag::SetSourceOutputMute),
        command_tag_of_code(100) == Some(CommandTag::SetPortLatencyOffset),
        command_tag_of_code(101) == Some(CommandTag::EnableSrbchannel),
        command_tag_of_code(102) == Some(CommandTag::DisableSrbchannel),
        command_tag_of_code(103) == Some(CommandTag::RegisterMemfdShmid),
        command_tag_of_code(104) == Some(CommandTag::SendObjectMessage),
{
}

/// Each command is sent under the tag of its own name (part 1 of 5, in tag order).
#[verifier::rlimit(50)]
pub proof fn lemma_command_tag_of_each_command_1()
    ensures
        forall|p: PulseError| #[trigger] command_tag(Command::Error(p)) == CommandTag::Error,
        command_tag(Command::Timeout) == CommandTag::Timeout,
        command_tag(Command::Exit) == CommandTag::Exit,
        command_tag(Command::Reply) == CommandTag::Reply,
        forall|p: AuthParams| #[trigger] command_tag(Command::Auth(p)) == CommandTag::Auth,
        forall|p: Props| #[trigger] command_tag(Command::SetClientName(p)) == CommandTag::SetClientName,
        forall|p: u32| #[trigger] command_tag(Command::DeletePlaybackStream(p)) == CommandTag::DeletePlaybackStream,
        forall|p: u32| #[trigger] command_tag(Command::DeleteRecordStream(p)) == CommandTag::DeleteRecordStream,
        forall|p: u32| #[trigger] command_tag(Command::DrainPlaybackStream(p)) == CommandTag::DrainPlaybackStream,
        forall|p: LatencyParams| #[trigger] command_tag(Command::GetPlaybackLatency(p)) == CommandTag::GetPlaybackLatency,
        forall|p: LatencyParams| #[trigger] command_tag(Command::GetRecordLatency(p)) == CommandTag::GetRecordLatency,
        forall|p: u32| #[trigger] command_tag(Command::DeleteUploadStream(p)) == CommandTag::DeleteUploadStream,
        forall|p: u32| #[trigger] command_tag(Command::FinishUploadStream(p)) == CommandTag::FinishUploadStream,
        forall|p: CorkStreamParams| #[trigger] command_tag(Command::CorkPlaybackStream(p)) == CommandTag::CorkPlaybackStream,
        forall|p: CorkStreamParams| #[trigger] command_tag(Command::CorkRecordStream(p)) == CommandTag::CorkRecordStream,
        forall|p: u32| #[trigger] command_tag(Command::FlushPlaybackStream(p)) == CommandTag::FlushPlaybackStream,
        forall|p: u32| #[trigger] command_tag(Command::FlushRecordStream(p)) == CommandTag::FlushRecordStream,
        forall|p: u32| #[trigger] command_tag(Command::PrebufPlaybackStream(p)) == CommandTag::PrebufPlaybackStream,
        forall|p: u32| #[trigger] command_tag(Command::TriggerPlaybackStream(p)) == CommandTag::TriggerPlaybackStream,
        forall|p: SetStreamNameParams| #[trigger] command_tag(Command::SetPlaybackStreamName(p)) == CommandTag::SetPlaybackStreamName,
{
}

/// Each command is sent under the tag of its own name (part 2 of 5, in tag order).
#[verifier::rlimit(50)]
pub proof fn lemma_command_tag_of_each_command_2()
    ensures
        forall|p: SetStreamNameParams| #[trigger] command_tag(Command::SetRecordStreamName(p)) == CommandTag::SetRecordStreamName,
        forall|p: SetPlaybackStreamBufferAttrParams| #[trigger] command_tag(Command::SetPlaybackStreamBufferAttr(p)) == CommandTag::SetPlaybackStreamBufferAttr,
        forall|p: SetRecordStreamBufferAttrParams| #[trigger] command_tag(Command::SetRecordStreamBufferAttr(p)) == CommandTag::SetRecordStreamBufferAttr,
        forall|p: UpdatePropsParams| #[trigger] command_tag(Command::UpdatePlaybackStreamProplist(p)) == CommandTag::UpdatePlaybackStreamProplist,
        forall|p: UpdatePropsParams| #[trigger] command_tag(Command::UpdateRecordStreamProplist(p)) == CommandTag::UpdateRecordStreamProplist,
        forall|p: u32| #[trigger] command_tag(Command::RemovePlaybackStreamProplist(p)) == CommandTag::RemovePlaybackStreamProplist,
        forall|p: u32| #[trigger] command_tag(Command::RemoveRecordStreamProplist(p)) == CommandTag::RemoveRecordStreamProplist,
        forall|p: UpdateSampleRateParams| #[trigger] command_tag(Command::UpdatePlaybackStreamSampleRate(p)) == CommandTag::UpdatePlaybackStreamSampleRate,
        forall|p: UpdateSampleRateParams| #[trigger] command_tag(Command::UpdateRecordStreamSampleRate(p)) == CommandTag::UpdateRecordStreamSampleRate,
        command_tag(Command::Stat) == CommandTag::Stat,
        command_tag(Command::GetServerInfo) == CommandTag::GetServerInfo,
        forall|p: u32| #[trigger] command_tag(Command::GetCardInfo(p)) == CommandTag::GetCardInfo,
        command_tag(Command::GetCardInfoList) == CommandTag::GetCardInfoList,
        forall|p: GetSinkInfo| #[trigger] command_tag(Command::GetSinkInfo(p)) == CommandTag::GetSinkInfo,
        command_tag(Command::GetSinkInfoList) == CommandTag::GetSinkInfoList,
        forall|p: GetSourceInfo| #[trigger] command_tag(Command::GetSourceInfo(p)) == CommandTag::GetSourceInfo,
        command_tag(Command::GetSourceInfoList) == CommandTag::GetSourceInfoList,
        forall|p: u32| #[trigger] command_tag(Command::GetModuleInfo(p)) == CommandTag::GetModuleInfo,
        command_tag(Command::GetModuleInfoList) == CommandTag::GetModuleInfoList,
        forall|p: u32| #[trigger] command_tag(Command::GetClientInfo(p)) == CommandTag::GetClientInfo,
{
}

/// Each command is sent under the tag of its own name (part 3 of 5, in tag order).
#[verifier::rlimit(50)]
pub proof fn lemma_command_tag_of_each_command_3()
    ensures
        command_tag(Command::GetClientInfoList) == CommandTag::GetClientInfoList,
        forall|p: u32| #[trigger] command_tag(Command::GetSinkInputInfo(p)) == CommandTag::GetSinkInputInfo,
        command_tag(Command::GetSinkInputInfoList) == CommandTag::GetSinkInputInfoList,
        forall|p: u32| #[trigger] command_tag(Command::GetSourceOutputInfo(p)) == CommandTag::GetSourceOutputInfo,
        command_tag(Command::GetSourceOutputInfoList) == CommandTag::GetSourceOutputInfoList,
        forall|p: u32| #[trigger] command_tag(Command::GetSampleInfo(p)) == CommandTag::GetSampleInfo,
        command_tag(Command::GetSampleInfoList) == CommandTag::GetSampleInfoList,
        forall|p: CString| #[trigger] command_tag(Command::LookupSink(p)) == CommandTag::LookupSink,
        forall|p: CString| #[trigger] command_tag(Command::LookupSource(p)) == CommandTag::LookupSource,
        forall|p: SubscriptionMask| #[trigger] command_tag(Command::Subscribe(p)) == CommandTag::Subscribe,
        forall|p: CString| #[trigger] command_tag(Command::SetDefaultSink(p)) == CommandTag::SetDefaultSink,
        forall|p: CString| #[trigger] command_tag(Command::SetDefaultSource(p)) == CommandTag::SetDefaultSource,
        forall|p: SetPortParams| #[trigger] command_tag(Command::SetSinkPort(p)) == CommandTag::SetSinkPort,
        forall|p: SetPortParams| #[trigger] command_tag(Command::SetSourcePort(p)) == CommandTag::SetSourcePort,
        forall|p: SetCardProfileParams| #[trigger] command_tag(Command::SetCardProfile(p)) == CommandTag::SetCardProfile,
        forall|p: u32| #[trigger] command_tag(Command::KillClient(p)) == CommandTag::KillClient,
        forall|p: u32| #[trigger] command_tag(Command::KillSinkInput(p)) == CommandTag::KillSinkInput,
        forall|p: u32| #[trigger] command_tag(Command::KillSourceOutput(p)) == CommandTag::KillSourceOutput,
        forall|p: MoveStreamParams| #[trigger] command_tag(Command::MoveSinkInput(p)) == CommandTag::MoveSinkInput,
        forall|p: MoveStreamParams| #[trigger] command_tag(Command::MoveSourceOutput(p)) == CommandTag::MoveSourceOutput,
{
}

/// Each command is sent under the tag of its own name (part 4 of 5, in tag order).
#[verifier::rlimit(50)]
pub proof fn lemma_command_tag_of_each_command_4()
    ensures
        forall|p: SuspendParams| #[trigger] command_tag(Command::SuspendSink(p)) == CommandTag::SuspendSink,
        forall|p: SuspendParams| #[trigger] command_tag(Command::SuspendSource(p)) == CommandTag::SuspendSource,
        forall|p: UpdateClientProplistParams| #[trigger] command_tag(Command::UpdateClientProplist(p)) == CommandTag::UpdateClientProplist,
        command_tag(Command::RemoveClientProplist) == CommandTag::RemoveClientProplist,
        forall|p: SetPortLatencyOffsetParams| #[trigger] command_tag(Command::SetPortLatencyOffset(p)) == CommandTag::SetPortLatencyOffset,
        forall|p: PlaySampleParams| #[trigger] command_tag(Command::PlaySample(p)) == CommandTag::PlaySample,
        forall|p: PlaybackStreamParams| #[trigger] command_tag(Command::CreatePlaybackStream(p)) == CommandTag::CreatePlaybackStream,
        forall|p: RecordStreamParams| #[trigger] command_tag(Command::CreateRecordStream(p)) == CommandTag::CreateRecordStream,
        forall|p: UploadStreamParams| #[trigger] command_tag(Command::CreateUploadStream(p)) == CommandTag::CreateUploadStream,
        forall|p: CString| #[trigger] command_tag(Command::RemoveSample(p)) == CommandTag::RemoveSample,
        forall|p: LoadModuleParams| #[trigger] command_tag(Command::LoadModule(p)) == CommandTag::LoadModule,
        forall|p: u32| #[trigger] command_tag(Command::UnloadModule(p)) == CommandTag::UnloadModule,
        forall|p: ExtensionParams| #[trigger] command_tag(Command::Extension(p)) == CommandTag::Extension,
        forall|p: SetDeviceVolumeParams| #[trigger] command_tag(Command::SetSinkVolume(p)) == CommandTag::SetSinkVolume,
        forall|p: SetStreamVolumeParams| #[trigger] command_tag(Command::SetSinkInputVolume(p)) == CommandTag::SetSinkInputVolume,
        forall|p: SetDeviceVolumeParams| #[trigger] command_tag(Command::SetSourceVolume(p)) == CommandTag::SetSourceVolume,
        forall|p: SetStreamVolumeParams| #[trigger] command_tag(Command::SetSourceOutputVolume(p)) == CommandTag::SetSourceOutputVolume,
        forall|p: SetDeviceMuteParams| #[trigger] command_tag(Command::SetSinkMute(p)) == CommandTag::SetSinkMute,
        forall|p: SetStreamMuteParams| #[trigger] command_tag(Command::SetSinkInputMute(p)) == CommandTag::SetSinkInputMute,
        forall|p: SetDeviceMuteParams| #[trigger] command_tag(Command::SetSourceMute(p)) == CommandTag::SetSourceMute,
{
}

/// Each command is sent under the tag of its own name (part 5 of 5, in tag order).
#[verifier::rlimit(50)]
pub proof fn lemma_command_tag_of_each_command_5()
    ensures
        forall|p: SetStreamMuteParams| #[trigger] command_tag(Command::SetSourceOutputMute(p)) == CommandTag::SetSourceOutputMute,
        forall|p: u32| #[trigger] command_tag(Command::Started(p)) == CommandTag::Started,
        forall|p: Request| #[trigger] command_tag(Command::Request(p)) == CommandTag::Request,
        forall|p: u32| #[trigger] command_tag(Command::Overflow(p)) == CommandTag::Overflow,
        forall|p: Underflow| #[trigger] command_tag(Command::Underflow(p)) == CommandTag::Underflow,
        forall|p: u32| #[trigger] command_tag(Command::PlaybackStreamKilled(p)) == CommandTag::PlaybackStreamKilled,
        forall|p: u32| #[trigger] command_tag(Command::RecordStreamKilled(p)) == CommandTag::RecordStreamKilled,
        forall|p: StreamSuspendedParams| #[trigger] command_tag(Command::PlaybackStreamSuspended(p)) == CommandTag::PlaybackStreamSuspended,
        forall|p: StreamSuspendedParams| #[trigger] command_tag(Command::RecordStreamSuspended(p)) == CommandTag::RecordStreamSuspended,
        forall|p: PlaybackStreamMovedParams| #[trigger] command_tag(Command::PlaybackStreamMoved(p)) == CommandTag::PlaybackStreamMoved,
        forall|p: RecordStreamMovedParams| #[trigger] command_tag(Command::RecordStreamMoved(p)) == CommandTag::RecordStreamMoved,
        forall|p: PlaybackBufferAttrChanged| #[trigger] command_tag(Command::PlaybackBufferAttrChanged(p)) == CommandTag::PlaybackBufferAttrChanged,
        forall|p: RecordBufferAttrChanged| #[trigger] command_tag(Command::RecordBufferAttrChanged(p)) == CommandTag::RecordBufferAttrChanged,
        forall|p: ClientEvent| #[trigger] command_tag(Command::ClientEvent(p)) == CommandTag::ClientEvent,
        forall|p: GenericStreamEvent| #[trigger] command_tag(Command::PlaybackStreamEvent(p)) == CommandTag::PlaybackStreamEvent,
        forall|p: GenericStreamEvent| #[trigger] command_tag(Command::RecordStreamEvent(p)) == CommandTag::RecordStreamEvent,
        forall|p: SubscriptionEvent| #[trigger] command_tag(Command::SubscribeEvent(p)) == CommandTag::SubscribeEvent,
{
}

} // verus!
