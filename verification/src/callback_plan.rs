//! The decisions of the audio callback, taken before any sample is mixed:
//! how many frames the device buffer holds, whether the block can be
//! rendered at all, and what happens to the plug-in first.

use vstd::prelude::*;

verus! {

/// What the callback does with the device buffer.
#[derive(Clone, Copy, Debug, PartialEq, Eq, Structural)]
pub enum CallbackAction {
    /// No whole frame to render: the meters drop to zero.
    Idle,
    /// The block is larger than the buffers prepared for the plug-in: an
    /// xrun is counted and the buffer is silenced.
    Overrun,
    /// The plug-in is held elsewhere: the lock miss is counted and the last
    /// output is replayed, fading out.
    Replay,
    /// The plug-in renders the block: the reset batch is sent first when one
    /// is pending, and a new block size is recorded when it changed.
    Render { send_reset: bool, new_block_size: Option<usize> },
}

/// The plan for one callback.
#[derive(Clone, Copy, Debug, PartialEq, Eq, Structural)]
pub struct CallbackPlan {
    /// Whole frames in the device buffer.
    pub frames: usize,
    /// Samples past the last whole frame, silenced.
    pub remainder: usize,
    /// Whether the queued MIDI is drained before rendering.
    pub drain_midi: bool,
    pub action: CallbackAction,
}

/// The plan for a buffer of `data_len` samples over `device_channels`
/// channels, with buffers prepared for `max_frames` frames.
pub open spec fn spec_plan_callback(
    data_len: usize,
    device_channels: usize,
    max_frames: usize,
    plugin_available: bool,
    needs_emergency_reset: bool,
    last_frames: usize,
) -> CallbackPlan {
    if device_channels == 0 {
        CallbackPlan { frames: 0, remainder: 0, drain_midi: false, action: CallbackAction::Idle }
    } else {
        let frames = (data_len / device_channels) as usize;
        let remainder = (data_len % device_channels) as usize;
        if frames == 0 {
            CallbackPlan { frames, remainder, drain_midi: false, action: CallbackAction::Idle }
        } else if frames > max_frames {
            CallbackPlan { frames, remainder, drain_midi: false, action: CallbackAction::Overrun }
        } else if !plugin_available {
            CallbackPlan { frames, remainder, drain_midi: true, action: CallbackAction::Replay }
        } else {
            CallbackPlan {
                frames,
                remainder,
                drain_midi: true,
                action: CallbackAction::Render {
                    send_reset: needs_emergency_reset,
                    new_block_size: if last_frames != frames {
                        Some(frames)
                    } else {
                        None
                    },
                },
            }
        }
    }
}

/// Plans one callback; `plugin_available` says whether the plug-in's lock
/// was taken without waiting.
pub fn plan_callback(
    data_len: usize,
    device_channels: usize,
    max_frames: usize,
    plugin_available: bool,
    needs_emergency_reset: bool,
    last_frames: usize,
) -> (r: CallbackPlan)
    ensures
        r == spec_plan_callback(
            data_len,
            device_channels,
            max_frames,
            plugin_available,
            needs_emergency_reset,
            last_frames,
        ),
{
    if device_channels == 0 {
        return CallbackPlan { frames: 0, remainder: 0, drain_midi: false, action: CallbackAction::Idle };
    }
    let frames = data_len / device_channels;
    let remainder = data_len % device_channels;
    if frames == 0 {
        CallbackPlan { frames, remainder, drain_midi: false, action: CallbackAction::Idle }
    } else if frames > max_frames {
        CallbackPlan { frames, remainder, drain_midi: false, action: CallbackAction::Overrun }
    } else if !plugin_available {
        CallbackPlan { frames, remainder, drain_midi: true, action: CallbackAction::Replay }
    } else {
        CallbackPlan {
            frames,
            remainder,
            drain_midi: true,
            action: CallbackAction::Render {
                send_reset: needs_emergency_reset,
                new_block_size: if last_frames != frames {
                    Some(frames)
                } else {
                    None
                },
            },
        }
    }
}

/// What follows the plug-in's processing.
#[derive(Clone, Copy, Debug, PartialEq, Eq, Structural)]
pub enum AfterRender {
    /// The plug-in failed or panicked: an xrun and an error are counted, and
    /// the last output is replayed.
    Failed,
    /// The plug-in has no output: silence, meters at zero.
    Silent,
    /// The plug-in's output is mixed into the device buffer.
    Mix,
}

/// Decides what is done with the plug-in's result.
pub fn after_render(processed: bool, plugin_outputs: usize) -> (r: AfterRender)
    ensures
        r == (if !processed {
            AfterRender::Failed
        } else if plugin_outputs == 0 {
            AfterRender::Silent
        } else {
            AfterRender::Mix
        }),
{
    if !processed {
        AfterRender::Failed
    } else if plugin_outputs == 0 {
        AfterRender::Silent
    } else {
        AfterRender::Mix
    }
}

/// Law: a rendered block always fits the prepared buffers, and the frames
/// and the remainder account for every sample of the device buffer.
pub proof fn lemma_plan_covers_buffer(
    data_len: usize,
    device_channels: usize,
    max_frames: usize,
    plugin_available: bool,
    needs_emergency_reset: bool,
    last_frames: usize,
)
    requires
        device_channels > 0,
    ensures
        ({
            let p = spec_plan_callback(
                data_len,
                device_channels,
                max_frames,
                plugin_available,
                needs_emergency_reset,
                last_frames,
            );
            &&& p.frames * device_channels + p.remainder == data_len
            &&& p.remainder < device_channels
            &&& (p.action is Render ==> 0 < p.frames <= max_frames)
        }),
{
    let frames = data_len / device_channels;
    let remainder = data_len % device_channels;
    assert(frames * device_channels + remainder == data_len) by (nonlinear_arith)
        requires
            device_channels > 0,
            frames == data_len / device_channels,
            remainder == data_len % device_channels,
    ;
}

} // verus!
