use vstd::prelude::*;
use vstd::string::StringExecFns;

use crate::pipeline::PipelineError;

verus! {

/// Where the decode loop stands.
#[derive(Clone, Copy, Debug, PartialEq, Eq, Structural)]
pub enum DecodePhase {
    /// Reading the next packet of the input.
    ReadingPackets,
    /// A packet of the video stream was sent; taking the frames it gave.
    Decoding,
    /// The input is exhausted and the decoder told so; taking its last frames.
    Draining,
    /// Nothing is left to decode.
    Done,
}

/// What the decode loop learned from its last action.
#[derive(Clone, Copy, Debug, PartialEq, Eq, Structural)]
pub enum DecodeEvent {
    /// A packet was read; `selected` tells whether it belongs to the video stream.
    Packet { selected: bool },
    /// No packet is left in the input.
    InputExhausted,
    /// The decoder handed out a frame.
    FrameReceived,
    /// The decoder has no frame to hand out now.
    NoFrame,
}

/// What the decode loop does next.
#[derive(Clone, Copy, Debug, PartialEq, Eq, Structural)]
pub enum DecodeAction {
    /// Read the next packet.
    ReadPacket,
    /// Send the packet just read to the decoder, then ask for a frame.
    SendPacket,
    /// Put the frame just received through the pipeline, then ask for another.
    ProcessFrame,
    /// Tell the decoder that the input has ended, then ask for a frame.
    SendEof,
    /// Stop.
    Finish,
}

/// The decode loop's rule: every packet of the video stream is sent and all
/// its frames taken before the next packet is read; at the end of the input
/// the decoder is told so and drained.
pub open spec fn decode_step_of(phase: DecodePhase, event: DecodeEvent) -> (DecodePhase, DecodeAction) {
    match phase {
        DecodePhase::ReadingPackets => match event {
            DecodeEvent::Packet { selected } => if selected {
                (DecodePhase::Decoding, DecodeAction::SendPacket)
            } else {
                (DecodePhase::ReadingPackets, DecodeAction::ReadPacket)
            },
            DecodeEvent::InputExhausted => (DecodePhase::Draining, DecodeAction::SendEof),
            _ => (DecodePhase::ReadingPackets, DecodeAction::ReadPacket),
        },
        DecodePhase::Decoding => match event {
            DecodeEvent::FrameReceived => (DecodePhase::Decoding, DecodeAction::ProcessFrame),
            _ => (DecodePhase::ReadingPackets, DecodeAction::ReadPacket),
        },
        DecodePhase::Draining => match event {
            DecodeEvent::FrameReceived => (DecodePhase::Draining, DecodeAction::ProcessFrame),
            _ => (DecodePhase::Done, DecodeAction::Finish),
        },
        DecodePhase::Done => (DecodePhase::Done, DecodeAction::Finish),
    }
}

/// The next phase of the decode loop and the action to take, from the
/// current phase and what the last action brought.
pub fn decode_step(phase: DecodePhase, event: DecodeEvent) -> (r: (DecodePhase, DecodeAction))
    ensures
        r == decode_step_of(phase, event),
{
    match phase {
        DecodePhase::ReadingPackets => match event {
            DecodeEvent::Packet { selected } => if selected {
                (DecodePhase::Decoding, DecodeAction::SendPacket)
            } else {
                (DecodePhase::ReadingPackets, DecodeAction::ReadPacket)
            },
            DecodeEvent::InputExhausted => (DecodePhase::Draining, DecodeAction::SendEof),
            _ => (DecodePhase::ReadingPackets, DecodeAction::ReadPacket),
        },
        DecodePhase::Decoding => match event {
            DecodeEvent::FrameReceived => (DecodePhase::Decoding, DecodeAction::ProcessFrame),
            _ => (DecodePhase::ReadingPackets, DecodeAction::ReadPacket),
        },
        DecodePhase::Draining => match event {
            DecodeEvent::FrameReceived => (DecodePhase::Draining, DecodeAction::ProcessFrame),
            _ => (DecodePhase::Done, DecodeAction::Finish),
        },
        DecodePhase::Done => (DecodePhase::Done, DecodeAction::Finish),
    }
}

/// The arguments of the external encoder: 30 frames per second read from the
/// numbered frames in `frames_dir`, H.264 in `yuv420p`, written over `output`.
pub open spec fn encoder_arguments_of(frames_dir: Seq<char>, output: Seq<char>) -> Seq<Seq<char>> {
    seq![
        "-framerate"@,
        "30"@,
        "-i"@,
        frames_dir + "/frame_%04d.png"@,
        "-c:v"@,
        "libx264"@,
        "-pix_fmt"@,
        "yuv420p"@,
        output,
        "-y"@,
    ]
}

/// The arguments to hand the external encoder.
pub fn encoder_arguments(frames_dir: &str, output: &str) -> (r: Vec<String>)
    ensures
        r@.map_values(|s: String| s@) == encoder_arguments_of(frames_dir@, output@),
{
    let mut pattern = String::from_str(frames_dir);
    pattern.append("/frame_%04d.png");
    let mut args: Vec<String> = Vec::new();
    args.push(String::from_str("-framerate"));
    args.push(String::from_str("30"));
    args.push(String::from_str("-i"));
    args.push(pattern);
    args.push(String::from_str("-c:v"));
    args.push(String::from_str("libx264"));
    args.push(String::from_str("-pix_fmt"));
    args.push(String::from_str("yuv420p"));
    args.push(String::from_str(output));
    args.push(String::from_str("-y"));
    assert(args@.map_values(|s: String| s@) =~= encoder_arguments_of(frames_dir@, output@));
    args
}

/// The outcome of the encode step from the encoder's exit code (`None` where
/// it was ended by a signal): only a zero exit is a success.
pub fn encoder_outcome(exit_code: Option<i32>) -> (r: Result<(), PipelineError>)
    ensures
        exit_code == Some(0i32) ==> r is Ok,
        exit_code != Some(0i32) ==> r == Err::<(), _>(PipelineError::SubprocessError),
{
    match exit_code {
        Some(0) => Ok(()),
        _ => Err(PipelineError::SubprocessError),
    }
}

} // verus!
