//! The beeper's control messages and what its audio stream does on each.
//!
//! The beeper runs its stream on a thread of its own and is driven by
//! messages over a channel; the host runs that loop and performs the
//! actions that `stream_response` decides.

use vstd::prelude::*;

verus! {

/// Messages for the beeper
#[derive(Debug, Clone, Copy, PartialEq, Eq, Structural)]
pub enum Message {
    /// Play the audio
    Play,
    /// Pause the audio
    Pause,
    /// Stop the audio
    Stop,
    /// Update the audio settings
    Update,
}

/// What the beeper does to its stream.
#[derive(Debug, Clone, Copy, PartialEq, Eq, Structural)]
pub enum StreamAction {
    /// Start (or resume) the stream.
    Play,
    /// Pause the stream.
    Pause,
}

/// The beeper's answer to a message: the action on the stream, and whether
/// it keeps listening afterwards. Play plays; pause and update pause; stop
/// pauses and ends the loop.
pub open spec fn response(message: Message) -> (StreamAction, bool) {
    match message {
        Message::Play => (StreamAction::Play, true),
        Message::Pause => (StreamAction::Pause, true),
        Message::Stop => (StreamAction::Pause, false),
        Message::Update => (StreamAction::Pause, true),
    }
}

/// The beeper's answer to a message (see `response`).
pub fn stream_response(message: Message) -> (r: (StreamAction, bool))
    ensures
        r == response(message),
{
    match message {
        Message::Play => (StreamAction::Play, true),
        Message::Pause => (StreamAction::Pause, true),
        Message::Stop => (StreamAction::Pause, false),
        Message::Update => (StreamAction::Pause, true),
    }
}

/// A sound output that the beeper drives.
pub trait SoundDevice {
    /// Start (or resume) the sound.
    fn play(&mut self);
    /// Pause the sound.
    fn pause(&mut self);
}

/// Empty sound device, used where no audio output is available: it
/// ignores every request.
#[derive(Debug)]
pub struct NullAudio;

impl Default for NullAudio {
    fn default() -> (audio: Self)
        ensures
            audio == NullAudio,
    {
        NullAudio
    }
}

impl SoundDevice for NullAudio {
    fn play(&mut self) {
    }

    fn pause(&mut self) {
    }
}

/// Answers one message on `device`: performs the action that `response`
/// decides and returns whether the beeper keeps listening.
pub fn respond<D: SoundDevice>(device: &mut D, message: Message) -> (keep_listening: bool)
    ensures
        keep_listening == response(message).1,
{
    let (action, keep_listening) = stream_response(message);
    match action {
        StreamAction::Play => device.play(),
        StreamAction::Pause => device.pause(),
    }
    keep_listening
}

} // verus!
