//! Stream parameters shared by several commands.

use vstd::prelude::*;

pub use super::command::cork_stream::CorkStreamParams;

verus! {

/// The value of a buffer attribute that asks the server to pick one.
pub const BUFFER_ATTR_DEFAULT: u32 = u32::MAX;

/// Buffer attributes of a playback or record stream, in bytes. A value of
/// `u32::MAX` lets the server pick.
#[derive(Debug, Copy, Clone, PartialEq, Eq)]
pub struct BufferAttr {
    /// The maximum length of the buffer.
    pub max_length: u32,

    /// The target length of a playback buffer.
    pub target_length: u32,

    /// The amount a playback buffer must hold before playback starts.
    pub pre_buffering: u32,

    /// The smallest request the server makes of a playback stream.
    pub minimum_request_length: u32,

    /// The size of the fragments of a record stream.
    pub fragment_size: u32,
}

impl Default for BufferAttr {
    fn default() -> (r: Self)
        ensures
            r == BufferAttr::spec_default(),
    {
        BufferAttr {
            max_length: BUFFER_ATTR_DEFAULT,
            target_length: BUFFER_ATTR_DEFAULT,
            pre_buffering: BUFFER_ATTR_DEFAULT,
            minimum_request_length: BUFFER_ATTR_DEFAULT,
            fragment_size: BUFFER_ATTR_DEFAULT,
        }
    }
}

impl BufferAttr {
    /// Buffer attributes that leave every choice to the server.
    pub open spec fn spec_default() -> BufferAttr {
        BufferAttr {
            max_length: BUFFER_ATTR_DEFAULT,
            target_length: BUFFER_ATTR_DEFAULT,
            pre_buffering: BUFFER_ATTR_DEFAULT,
            minimum_request_length: BUFFER_ATTR_DEFAULT,
            fragment_size: BUFFER_ATTR_DEFAULT,
        }
    }
}

/// Flags of a playback or record stream.
#[derive(Debug, Copy, Clone, PartialEq, Eq, Structural)]
pub struct StreamFlags {
    /// Create the stream corked, so that it starts paused.
    pub start_corked: bool,

    /// Do not remap channels by their names, but by their index.
    pub no_remap_channels: bool,

    /// Do not upmix or downmix channels.
    pub no_remix_channels: bool,

    /// Use the sample format of the device the stream is connected to.
    pub fix_format: bool,

    /// Use the sample rate of the device the stream is connected to.
    pub fix_rate: bool,

    /// Use the channels of the device the stream is connected to.
    pub fix_channels: bool,

    /// Do not allow the stream to be moved to another device.
    pub no_move: bool,

    /// Allow the sample rate to change while the stream runs.
    pub variable_rate: bool,

    /// Deliver peak values of the source instead of its samples; record
    /// streams only.
    pub peak_detect: bool,

    /// Whether the stream starts muted; `None` leaves it to the server.
    pub start_muted: Option<bool>,

    /// Try to adjust the latency of the device to that of the stream.
    pub adjust_latency: bool,

    /// Ask for data early, as a slow device would.
    pub early_requests: bool,

    /// Do not keep the device from suspending while the stream is idle.
    pub no_inhibit_auto_suspend: bool,

    /// Fail the stream when its device suspends, instead of waiting.
    pub fail_on_suspend: bool,

    /// Treat the volume as relative to that of the device.
    pub relative_volume: bool,

    /// Pass the samples through to the device unchanged, for compressed
    /// formats.
    pub passthrough: bool,
}

impl Default for StreamFlags {
    fn default() -> (r: Self)
        ensures
            r == StreamFlags::spec_default(),
    {
        StreamFlags {
            start_corked: false,
            no_remap_channels: false,
            no_remix_channels: false,
            fix_format: false,
            fix_rate: false,
            fix_channels: false,
            no_move: false,
            variable_rate: false,
            peak_detect: false,
            adjust_latency: false,
            early_requests: false,
            no_inhibit_auto_suspend: false,
            fail_on_suspend: false,
            relative_volume: false,
            passthrough: false,
            start_muted: None,
        }
    }
}

impl StreamFlags {
    /// No flag set, and the muting left to the server.
    pub open spec fn spec_default() -> StreamFlags {
        StreamFlags {
            start_corked: false,
            no_remap_channels: false,
            no_remix_channels: false,
            fix_format: false,
            fix_rate: false,
            fix_channels: false,
            no_move: false,
            variable_rate: false,
            peak_detect: false,
            adjust_latency: false,
            early_requests: false,
            no_inhibit_auto_suspend: false,
            fail_on_suspend: false,
            relative_volume: false,
            passthrough: false,
            start_muted: None,
        }
    }
}

} // verus!
