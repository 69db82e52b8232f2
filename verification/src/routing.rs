//! How a host block meets the engine's one-frame-in, one-frame-out
//! interface: which layouts the processor serves, which automation applies
//! before a frame, and where each frame's samples are read and written in
//! the interleaved buffers. A position the buffer does not reach reads as
//! silence and is not written.

use vstd::prelude::*;

verus! {

pub const MAX_INPUT_CHANNELS: u32 = 2;
pub const MAX_OUTPUT_CHANNELS: u32 = 2;

/// An equaliser with nothing coming in has nothing to shape, and one with
/// nowhere to send it has nothing to do; beyond stereo there is no layout
/// it knows.
pub open spec fn serves(input_channels: u32, output_channels: u32) -> bool {
    1 <= input_channels <= MAX_INPUT_CHANNELS && 1 <= output_channels <= MAX_OUTPUT_CHANNELS
}

pub fn serves_layout(input_channels: u32, output_channels: u32) -> (served: bool)
    ensures
        served == serves(input_channels, output_channels),
{
    if input_channels == 0 || input_channels > MAX_INPUT_CHANNELS {
        return false;
    }
    if output_channels == 0 || output_channels > MAX_OUTPUT_CHANNELS {
        return false;
    }
    true
}

/// `position` in a buffer of `len` samples, if the buffer reaches it.
pub open spec fn slot(len: int, position: int) -> Option<usize> {
    if 0 <= position < len {
        Some(position as usize)
    } else {
        None
    }
}

/// Where the left and right input samples of `frame` sit in an interleaved
/// buffer of `len` samples with `channels` channels: nowhere with no
/// channels, the one sample on both sides for mono, the first two of the
/// frame otherwise.
pub open spec fn input_slots(len: int, frame: int, channels: int) -> (Option<usize>, Option<usize>) {
    if channels == 0 {
        (None, None)
    } else if channels == 1 {
        (slot(len, frame), slot(len, frame))
    } else {
        (slot(len, frame * channels), slot(len, frame * channels + 1))
    }
}

fn slot_of(len: usize, position: u128) -> (found: Option<usize>)
    ensures
        found == slot(len as int, position as int),
{
    if position < len as u128 {
        Some(position as usize)
    } else {
        None
    }
}

pub fn input_positions(input_len: usize, frame: usize, channels: usize) -> (positions: (
    Option<usize>,
    Option<usize>,
))
    ensures
        positions == input_slots(input_len as int, frame as int, channels as int),
{
    if channels == 0 {
        (None, None)
    } else if channels == 1 {
        let mono = slot_of(input_len, frame as u128);
        (mono, mono)
    } else {
        proof {
            assert(frame * channels <= 0xFFFF_FFFF_FFFF_FFFF * 0xFFFF_FFFF_FFFF_FFFF) by (nonlinear_arith)
                requires
                    frame <= 0xFFFF_FFFF_FFFF_FFFF,
                    channels <= 0xFFFF_FFFF_FFFF_FFFF,
            ;
        }
        let base = (frame as u128) * (channels as u128);
        (slot_of(input_len, base), slot_of(input_len, base + 1))
    }
}

/// Where a frame of `channels` samples keeps the left and the right input
/// of a stereo pair: the first sample, and the second, or the first again
/// when the frame is mono.
pub fn stereo_positions(channels: usize) -> (positions: (usize, usize))
    requires
        channels >= 1,
    ensures
        positions == (0usize, if channels >= 2 { 1usize } else { 0usize }),
{
    if channels >= 2 {
        (0, 1)
    } else {
        (0, 0)
    }
}

/// Which side of the engine's output a channel carries.
#[derive(Clone, Copy, PartialEq, Eq, Debug)]
pub enum Side {
    Left,
    Right,
}

/// Where output `channel` of `frame` sits in an interleaved buffer of `len`
/// samples with `channels` channels, and which side it carries: the first
/// channel the left, every other the right.
pub open spec fn output_slot(len: int, frame: int, channels: int, channel: int) -> Option<(usize, Side)> {
    match slot(len, frame * channels + channel) {
        Some(position) => Some(
            (
                position,
                if channel == 0 {
                    Side::Left
                } else {
                    Side::Right
                },
            ),
        ),
        None => None,
    }
}

pub fn output_position(output_len: usize, frame: usize, channels: usize, channel: usize) -> (found:
    Option<(usize, Side)>)
    ensures
        found == output_slot(output_len as int, frame as int, channels as int, channel as int),
{
    proof {
        assert(frame * channels <= 0xFFFF_FFFF_FFFF_FFFF * 0xFFFF_FFFF_FFFF_FFFF) by (nonlinear_arith)
            requires
                frame <= 0xFFFF_FFFF_FFFF_FFFF,
                channels <= 0xFFFF_FFFF_FFFF_FFFF,
        ;
    }
    let position = (frame as u128) * (channels as u128) + channel as u128;
    match slot_of(output_len, position) {
        Some(position) => Some((position, if channel == 0 { Side::Left } else { Side::Right })),
        None => None,
    }
}

/// Sample-accurate automation: the events scheduled for `frame`, starting
/// at `from`, end where the returned position is: every event in between is
/// due at this frame, and the one at the end, if any, is not. An event out
/// of order is never due again, and holds back the ones behind it.
pub fn due_events(event_frames: &[u32], from: usize, frame: usize) -> (end: usize)
    requires
        from <= event_frames@.len(),
    ensures
        from <= end <= event_frames@.len(),
        forall|k: int| from <= k < end ==> #[trigger] event_frames@[k] == frame,
        end < event_frames@.len() ==> event_frames@[end as int] != frame,
{
    let mut end = from;
    while end < event_frames.len()
        invariant
            from <= end <= event_frames@.len(),
            forall|k: int| from <= k < end ==> #[trigger] event_frames@[k] == frame,
        decreases event_frames@.len() - end,
    {
        if event_frames[end] as usize != frame {
            return end;
        }
        end = end + 1;
    }
    end
}

} // verus!
