//! The device: memory, display, CPU, stack, keypad and quirks, run a frame
//! at a time. Each frame counts the timers down, runs a number of CPU
//! steps, and then acts on the messages the steps produced.
//!
//! The device does not play sound itself: it queues what the sound output
//! should do (`AudioRequest`), and the host takes the queue and plays it.

use vstd::prelude::*;
use crate::cpu::{CPU, reset_cpu};
use crate::display::{Display, DisplayState, default_display};
use crate::fonts::{FontName, FontSize, small_font};
use crate::isa::{Machine, machine_of, step, step_ok};
use crate::keypad::Keypad;
use crate::memory::{Memory, MAX_MEMORY, initial_memory, overwrite};
use crate::message::DeviceMessage;
use crate::quirks::{Quirks, no_quirks};
use crate::PROGRAM_START;

verus! {

/// What the device asks of the sound output.
#[derive(Debug, Clone, Copy, PartialEq, Eq, Structural)]
pub enum AudioRequest {
    /// Play the plain beep.
    PlayBeep,
    /// Play the requested audio pattern at the requested pitch.
    PlayBuffer,
    /// Pause the sound.
    Pause,
    /// Stop the sound.
    Stop,
}

/// What the device holds, as mathematical values.
#[verifier::ext_equal]
pub struct DeviceState {
    pub machine: Machine,
    /// The system font, whose small sprites are at address 0.
    pub font: FontName,
    pub enable_xo: bool,
    pub running: bool,
    pub keys: Seq<u8>,
    pub quirks: Quirks,
    /// Whether the sound output is enabled.
    pub audio_enabled: bool,
    /// Requests for the sound output, oldest first, not yet taken.
    pub requests: Seq<AudioRequest>,
    /// The audio pattern and pitch of the latest `PlayBuffer` request.
    pub buffer: Seq<u8>,
    pub pitch: u8,
    pub temp_enable_audio: bool,
}

impl DeviceState {
    /// The machine is well formed and there are sixteen key states.
    pub open spec fn wf(self) -> bool {
        &&& self.machine.wf()
        &&& self.keys.len() == 16
    }

    /// Length of the small sprites of the system font.
    pub open spec fn font_len(self) -> nat {
        small_font(self.font).len()
    }

    /// The device with `machine` in place of its machine.
    pub open spec fn with_machine(self, machine: Machine) -> DeviceState {
        DeviceState { machine, ..self }
    }

    /// The device with the sound request `r` queued.
    pub open spec fn request(self, r: AudioRequest) -> DeviceState {
        DeviceState { requests: self.requests.push(r), ..self }
    }
}

/// The device at power-on.
pub open spec fn default_device() -> DeviceState {
    DeviceState {
        machine: machine_of(reset_cpu(), initial_memory(), default_display(), Seq::empty()),
        font: FontName::CHIP8,
        enable_xo: false,
        running: false,
        keys: Seq::new(16, |i: int| 0u8),
        quirks: no_quirks(),
        audio_enabled: true,
        requests: Seq::empty(),
        buffer: Seq::empty(),
        pitch: 0,
        temp_enable_audio: true,
    }
}

/// The device after a reset: the sound output is asked to stop, then
/// everything returns to power-on except that the system font is kept
/// (its small sprites are loaded again over the default font) and the
/// sound requests not yet taken are kept.
pub open spec fn reset(s: DeviceState) -> DeviceState {
    let d = default_device();
    DeviceState {
        machine: Machine { memory: overwrite(initial_memory(), 0, small_font(s.font)), ..d.machine },
        font: s.font,
        requests: s.requests.push(AudioRequest::Stop),
        buffer: s.buffer,
        pitch: s.pitch,
        ..d
    }
}

/// The timers at the start of a frame: the delay timer counts down; the
/// sound timer counts down while it runs, asking the sound output to play
/// (the beep, or the audio pattern when there is one) when it is enabled;
/// when it has run out, the audio pattern is dropped and the sound paused.
pub open spec fn tick_timers(s: DeviceState) -> DeviceState {
    let c = s.machine.cpu;
    let delay = if c.delay > 0 { (c.delay - 1) as u8 } else { 0u8 };
    if c.sound > 0 {
        let t = s.with_machine(s.machine.with_cpu(crate::isa::CpuState { delay, sound: (c.sound - 1) as u8, ..c }));
        if !s.audio_enabled {
            t
        } else if c.audio.len() == 0 {
            t.request(AudioRequest::PlayBeep)
        } else {
            DeviceState { buffer: c.audio, pitch: c.pitch, ..t.request(AudioRequest::PlayBuffer) }
        }
    } else {
        s.with_machine(s.machine.with_cpu(crate::isa::CpuState { delay, audio: Seq::empty(), ..c })).request(AudioRequest::Pause)
    }
}

/// The CPU steps of a frame, one per byte of `randoms` (the byte that a
/// `CXNN` step draws). A step that cannot be carried out stops the device:
/// it reports `Fault` with the program counter and no further step runs.
pub open spec fn run(s: DeviceState, randoms: Seq<u8>) -> (DeviceState, Seq<DeviceMessage>)
    decreases randoms.len(),
{
    if randoms.len() == 0 {
        (s, Seq::empty())
    } else {
        let (s1, msgs) = run(s, randoms.drop_last());
        run_step(s1, msgs, randoms.last())
    }
}

/// One CPU step of a frame, after the messages `msgs` (see `run`).
pub open spec fn run_step(s: DeviceState, msgs: Seq<DeviceMessage>, random: u8) -> (DeviceState, Seq<DeviceMessage>) {
    if !s.running {
        (s, msgs)
    } else if !step_ok(s.machine, s.quirks, s.keys) {
        (DeviceState { running: false, ..s }, msgs.push(DeviceMessage::Fault(s.machine.cpu.pc)))
    } else {
        let r = step(s.machine, s.quirks, s.keys, s.font_len(), random);
        (s.with_machine(r.0), msgs + r.1)
    }
}

/// Acting on one message: a resolution change sets the resolution again,
/// clearing the display at that size (so what the frame drew after the
/// change is cleared too), a beep asks for the beep when sound is enabled,
/// an exit resets the device.
pub open spec fn handle(s: DeviceState, msg: DeviceMessage) -> DeviceState {
    match msg {
        DeviceMessage::ChangeResolution(r) => s.with_machine(s.machine.with_display(s.machine.display.with_resolution(r))),
        DeviceMessage::Beep(_) => if s.audio_enabled { s.request(AudioRequest::PlayBeep) } else { s },
        DeviceMessage::Exit => reset(s),
        _ => s,
    }
}

/// Acting on the messages in order.
pub open spec fn handle_all(s: DeviceState, msgs: Seq<DeviceMessage>) -> DeviceState
    decreases msgs.len(),
{
    if msgs.len() == 0 {
        s
    } else {
        handle(handle_all(s, msgs.drop_last()), msgs.last())
    }
}

/// One frame: when the device runs, the timers tick and the CPU takes one
/// step per byte of `randoms`; then the messages are acted on. The
/// messages are the frame's result.
pub open spec fn frame(s: DeviceState, randoms: Seq<u8>) -> (DeviceState, Seq<DeviceMessage>) {
    let (s1, msgs) = if s.running { run(tick_timers(s), randoms) } else { (s, Seq::empty()) };
    (handle_all(s1, msgs), msgs)
}

/// Chip-8 Device
#[derive(Debug)]
pub struct C8 {
    /// The RAM
    memory: Memory,
    /// The display of the device
    display: Display,
    /// Chip-8 CPU
    cpu: CPU,
    /// Stack memory
    stack: Vec<u16>,
    /// Whether the device is running
    is_running: bool,
    /// Keyboard state
    keypad: Keypad,
    /// Quirks
    quirks: Quirks,
    /// Whether the sound output is enabled
    audio_enabled: bool,
    /// Requests for the sound output, oldest first
    audio_requests: Vec<AudioRequest>,
    /// The audio pattern and pitch of the latest `PlayBuffer` request
    requested_buffer: Vec<u8>,
    requested_pitch: u8,
    /// Temporary enable/disable audio flag while controls are being implemented
    pub temp_enable_audio: bool,
}

impl View for C8 {
    type V = DeviceState;

    open spec fn view(&self) -> DeviceState {
        self.state()
    }
}

impl C8 {
    /// The device's state as mathematical values.
    pub closed spec fn state(&self) -> DeviceState {
        DeviceState {
            machine: machine_of(self.cpu@, self.memory.data@, self.display@, self.stack@),
            font: self.memory.system_font,
            enable_xo: self.memory.enable_xo,
            running: self.is_running,
            keys: self.keypad.state(),
            quirks: self.quirks,
            audio_enabled: self.audio_enabled,
            requests: self.audio_requests@,
            buffer: self.requested_buffer@,
            pitch: self.requested_pitch,
            temp_enable_audio: self.temp_enable_audio,
        }
    }
}

impl Default for C8 {
    fn default() -> (c8: Self)
        ensures
            c8@ == default_device(),
            c8@.wf(),
    {
        let c8 = C8 {
            memory: Memory::default(),
            display: Display::default(),
            cpu: CPU::default(),
            stack: Vec::new(),
            is_running: false,
            keypad: Keypad::default(),
            quirks: Quirks::default(),
            audio_enabled: true,
            audio_requests: Vec::new(),
            requested_buffer: Vec::new(),
            requested_pitch: 0,
            temp_enable_audio: true,
        };
        assert(c8@.keys =~= default_device().keys);
        assert(c8@ =~= default_device());
        c8
    }
}


impl C8 {
    /// The parts fit together: 64 KiB of memory, two planes of the
    /// resolution's size, sixteen registers.
    pub open spec fn wf(&self) -> bool {
        self@.wf()
    }

    /// Get the memory of the device
    pub fn get_memory(&self) -> (memory: &Memory)
        ensures
            memory.data@ == self@.machine.memory,
            memory.system_font == self@.font,
            memory.enable_xo == self@.enable_xo,
    {
        &self.memory
    }

    /// Get the memory of the device (mutable)
    pub fn get_memory_mut(&mut self) -> (memory: &mut Memory)
        ensures
            memory.data@ == old(self)@.machine.memory,
            memory.system_font == old(self)@.font,
            memory.enable_xo == old(self)@.enable_xo,
            final(self)@ == (DeviceState {
                machine: old(self)@.machine.with_memory(final(memory).data@),
                font: final(memory).system_font,
                enable_xo: final(memory).enable_xo,
                ..old(self)@
            }),
    {
        &mut self.memory
    }

    /// Get the quirks of the device
    pub fn get_quirks(&self) -> (quirks: &Quirks)
        ensures
            *quirks == self@.quirks,
    {
        &self.quirks
    }

    /// Set the quirks of the device
    pub fn set_quirks(&mut self, quirks: Quirks)
        ensures
            final(self)@ == (DeviceState { quirks, ..old(self)@ }),
    {
        self.quirks = quirks;
    }

    /// Get the display of the device
    pub fn get_display(&self) -> (display: &Display)
        ensures
            display@ == self@.machine.display,
    {
        &self.display
    }

    /// Get the display of the device (mutable)
    pub fn get_display_mut(&mut self) -> (display: &mut Display)
        ensures
            display@ == old(self)@.machine.display,
            final(self)@ == old(self)@.with_machine(old(self)@.machine.with_display(final(display)@)),
    {
        &mut self.display
    }

    /// Get the keypad of the device
    pub fn get_keypad(&self) -> (keypad: &Keypad)
        ensures
            keypad.state() == self@.keys,
    {
        &self.keypad
    }

    /// Get the keypad of the device (mutable)
    pub fn get_keypad_mut(&mut self) -> (keypad: &mut Keypad)
        ensures
            keypad.state() == old(self)@.keys,
            final(self)@ == (DeviceState { keys: final(keypad).state(), ..old(self)@ }),
    {
        &mut self.keypad
    }

    /// Get the CPU of the device
    pub fn get_cpu(&self) -> (cpu: &CPU)
        ensures
            cpu@ == self@.machine.cpu,
    {
        &self.cpu
    }

    /// Get the CPU of the device (mutable)
    pub fn get_cpu_mut(&mut self) -> (cpu: &mut CPU)
        ensures
            cpu@ == old(self)@.machine.cpu,
            final(self)@ == old(self)@.with_machine(old(self)@.machine.with_cpu(final(cpu)@)),
    {
        &mut self.cpu
    }

    /// Get if the device is running
    pub fn get_is_running(&self) -> (running: bool)
        ensures
            running == self@.running,
    {
        self.is_running
    }

    /// Tell the device whether the sound output is enabled.
    pub fn set_audio_enabled(&mut self, enabled: bool)
        ensures
            final(self)@ == (DeviceState { audio_enabled: enabled, ..old(self)@ }),
    {
        self.audio_enabled = enabled;
    }

    /// Take the requests for the sound output, oldest first, leaving none.
    pub fn take_audio_requests(&mut self) -> (requests: Vec<AudioRequest>)
        ensures
            requests@ == old(self)@.requests,
            final(self)@ == (DeviceState { requests: Seq::empty(), ..old(self)@ }),
    {
        let mut requests: Vec<AudioRequest> = Vec::new();
        std::mem::swap(&mut requests, &mut self.audio_requests);
        assert(self@ =~= (DeviceState { requests: Seq::empty(), ..old(self)@ }));
        requests
    }

    /// The audio pattern of the latest `PlayBuffer` request.
    pub fn requested_buffer(&self) -> (buffer: &Vec<u8>)
        ensures
            buffer@ == self@.buffer,
    {
        &self.requested_buffer
    }

    /// The pitch of the latest `PlayBuffer` request.
    pub fn requested_pitch(&self) -> (pitch: u8)
        ensures
            pitch == self@.pitch,
    {
        self.requested_pitch
    }

    /// Resets the device
    pub fn reset_device(&mut self)
        ensures
            final(self)@ == reset(old(self)@),
            final(self)@.wf(),
    {
        let current_font = self.memory.system_font;
        let mut requests: Vec<AudioRequest> = Vec::new();
        std::mem::swap(&mut requests, &mut self.audio_requests);
        requests.push(AudioRequest::Stop);
        let mut buffer: Vec<u8> = Vec::new();
        std::mem::swap(&mut buffer, &mut self.requested_buffer);
        let pitch = self.requested_pitch;
        *self = Self::default();
        self.memory.load_font_name(current_font, FontSize::Small);
        self.audio_requests = requests;
        self.requested_buffer = buffer;
        self.requested_pitch = pitch;
        assert(self@.machine.memory =~= reset(old(self)@).machine.memory);
        assert(self@ =~= reset(old(self)@));
    }

    /// Resets the device, loads ROM and font data into memory, and starts
    /// the device. An empty ROM leaves the memory as the reset left it.
    pub fn load_rom(&mut self, rom: &[u8])
        requires
            PROGRAM_START + rom@.len() <= MAX_MEMORY,
        ensures
            final(self)@ == (DeviceState {
                machine: reset(old(self)@).machine.with_memory(
                    if rom@.len() == 0 {
                        reset(old(self)@).machine.memory
                    } else {
                        overwrite(reset(old(self)@).machine.memory, PROGRAM_START as int, rom@)
                    }),
                running: true,
                ..reset(old(self)@)
            }),
            final(self)@.wf(),
    {
        self.reset_device();
        let data = vstd::slice::slice_to_vec(rom);
        self.memory.load_rom(data);
        self.is_running = true;
        assert(self@ =~= (DeviceState {
            machine: reset(old(self)@).machine.with_memory(
                if rom@.len() == 0 {
                    reset(old(self)@).machine.memory
                } else {
                    overwrite(reset(old(self)@).machine.memory, PROGRAM_START as int, rom@)
                }),
            running: true,
            ..reset(old(self)@)
        }));
    }
}


impl C8 {
    /// Counts the timers down at the start of a frame (see `tick_timers`).
    fn tick_timers(&mut self)
        requires
            old(self)@.wf(),
        ensures
            final(self)@ == tick_timers(old(self)@),
            final(self)@.wf(),
    {
        let delay = self.cpu.delay_timer();
        if delay > 0 {
            self.cpu.set_delay_timer(delay - 1);
        }
        let sound = self.cpu.sound_timer();
        if sound > 0 {
            self.cpu.set_sound_timer(sound - 1);
            if self.audio_enabled {
                if self.cpu.get_audio_buffer().len() == 0 {
                    self.audio_requests.push(AudioRequest::PlayBeep);
                } else {
                    let buffer = self.cpu.get_audio_buffer();
                    let mut copy: Vec<u8> = Vec::with_capacity(buffer.len());
                    let mut i: usize = 0;
                    while i < buffer.len()
                        invariant
                            i <= buffer@.len(),
                            copy@ =~= buffer@.take(i as int),
                        decreases buffer@.len() - i,
                    {
                        copy.push(buffer[i]);
                        i += 1;
                    }
                    assert(copy@ =~= buffer@);
                    self.requested_buffer = copy;
                    self.requested_pitch = self.cpu.get_buffer_pitch();
                    self.audio_requests.push(AudioRequest::PlayBuffer);
                }
            }
        } else {
            self.cpu.clear_audio_buffer();
            self.audio_requests.push(AudioRequest::Pause);
        }
        assert(self@ =~= tick_timers(old(self)@));
    }

    /// One CPU step of a frame (see `run_step`); returns the byte that a
    /// `CXNN` step drew.
    fn run_one(&mut self, messages: &mut Vec<DeviceMessage>) -> (random: Ghost<u8>)
        requires
            old(self)@.wf(),
        ensures
            final(self)@.wf(),
            run_step(old(self)@, old(messages)@, random@) == (final(self)@, final(messages)@),
    {
        let ghost before = self@;
        if self.is_running {
            if self.cpu.can_step(&self.memory, &self.display, &self.stack, &self.quirks, &self.keypad) {
                proof { crate::memory::reveal_font_lengths(self.memory.system_font); }
                let mut new_messages = self.cpu.step(
                    &mut self.memory,
                    &mut self.display,
                    &mut self.stack,
                    &self.quirks,
                    &self.keypad,
                );
                let ghost r = choose|r: u8| {
                    let o = #[trigger] step(before.machine, before.quirks, before.keys, before.font_len(), r);
                    machine_of(self.cpu@, self.memory.data@, self.display@, self.stack@) == o.0 && new_messages@ == o.1
                };
                let ghost new_msgs = new_messages@;
                messages.append(&mut new_messages);
                proof {
                    assert(messages@ =~= old(messages)@ + new_msgs);
                    assert(self@ =~= before.with_machine(step(before.machine, before.quirks, before.keys, before.font_len(), r).0));
                }
                Ghost(r)
            } else {
                messages.push(DeviceMessage::Fault(self.cpu.get_program_counter()));
                self.is_running = false;
                assert(self@ =~= (DeviceState { running: false, ..before }));
                Ghost(0u8)
            }
        } else {
            Ghost(0u8)
        }
    }

    /// Runs `cpu_speed` CPU steps (see `run`).
    fn run_steps(&mut self, cpu_speed: u32) -> (messages: Vec<DeviceMessage>)
        requires
            old(self)@.wf(),
        ensures
            final(self)@.wf(),
            exists|randoms: Seq<u8>|
                randoms.len() == cpu_speed && #[trigger] run(old(self)@, randoms) == (final(self)@, messages@),
    {
        let ghost t = self@;
        let ghost mut randoms: Seq<u8> = Seq::empty();
        let mut messages: Vec<DeviceMessage> = Vec::new();
        let mut i: u32 = 0;
        while i < cpu_speed
            invariant
                i <= cpu_speed,
                randoms.len() == i,
                self@.wf(),
                run(t, randoms) == (self@, messages@),
            decreases cpu_speed - i,
        {
            let r = self.run_one(&mut messages);
            proof {
                let prev = randoms;
                randoms = randoms.push(r@);
                assert(randoms.drop_last() =~= prev);
            }
            i += 1;
        }
        messages
    }
}

impl C8 {
    /// Acts on the messages of a frame, in order (see `handle`).
    fn handle_messages(&mut self, messages: &Vec<DeviceMessage>)
        requires
            old(self)@.wf(),
        ensures
            final(self)@ == handle_all(old(self)@, messages@),
            final(self)@.wf(),
    {
        let mut i: usize = 0;
        while i < messages.len()
            invariant
                i <= messages@.len(),
                self@.wf(),
                self@ == handle_all(old(self)@, messages@.take(i as int)),
            decreases messages@.len() - i,
        {
            let ghost before = self@;
            match messages[i] {
                DeviceMessage::ChangeResolution(resolution) => {
                    self.display.set_resolution(resolution);
                },
                DeviceMessage::Beep(_duration) => {
                    if self.audio_enabled {
                        self.audio_requests.push(AudioRequest::PlayBeep);
                    }
                },
                DeviceMessage::Exit => {
                    self.reset_device();
                },
                _ => {},
            }
            proof {
                assert(messages@.take(i as int + 1).drop_last() =~= messages@.take(i as int));
                assert(self@ =~= handle(before, messages@[i as int]));
            }
            i += 1;
        }
        assert(messages@.take(messages@.len() as int) =~= messages@);
    }

    /// Step the device by one frame: when it runs, the timers tick and the
    /// CPU takes `cpu_speed` steps; then the messages are acted on. Returns
    /// the messages.
    pub fn step(&mut self, cpu_speed: u32) -> (messages: Vec<DeviceMessage>)
        requires
            old(self)@.wf(),
        ensures
            final(self)@.wf(),
            exists|randoms: Seq<u8>|
                randoms.len() == cpu_speed && #[trigger] frame(old(self)@, randoms) == (final(self)@, messages@),
    {
        let ghost s0 = self@;
        let messages = if self.is_running {
            self.tick_timers();
            self.run_steps(cpu_speed)
        } else {
            Vec::new()
        };
        let ghost s1 = self@;
        self.handle_messages(&messages);
        proof {
            if s0.running {
                let randoms = choose|randoms: Seq<u8>|
                    randoms.len() == cpu_speed && #[trigger] run(tick_timers(s0), randoms) == (s1, messages@);
                assert(frame(s0, randoms) == (self@, messages@));
            } else {
                let randoms = Seq::new(cpu_speed as nat, |i: int| 0u8);
                assert(frame(s0, randoms) == (self@, messages@));
            }
        }
        messages
    }
}

} // verus!
