//! The CPU: registers, timers, the key wait, and the execution of one
//! instruction per step.

use vstd::prelude::*;
use crate::display::{Display, PLANE_COUNT, plane_active, blank, res_size};
use crate::fonts::{small_font, small_font_len};
use crate::isa::{
    CpuState, Machine, WaitingForKey, decoded, execute, execute_ok, exec_alu, exec_keys, exec_misc,
    exec_system, first_pressed, key_in_reg, machine_of, op_kind, op_n, op_nn, op_nnn, op_x,
    op_y, range_reg, reg_distance, skip_len, step, step_ok, store, wait_after, word_at,
};
use crate::keypad::{Keypad, KeypadKey, key_value, keypad_keys, keypad_order};
use crate::memory::{Memory, MAX_MEMORY};
use crate::message::DeviceMessage;
use crate::quirks::Quirks;
use crate::sprite::{draw_sprite_planes, join_bytes, lemma_join, SpriteDraw};
use crate::PROGRAM_START;

verus! {

/// The general purpose registers of the Chip-8
#[derive(Debug, Clone, Copy, PartialEq, Eq, Structural)]
pub enum Register {
    V0,
    V1,
    V2,
    V3,
    V4,
    V5,
    V6,
    V7,
    V8,
    V9,
    VA,
    VB,
    VC,
    VD,
    VE,
    VF,
}

/// The number of a register.
pub open spec fn register_number(r: Register) -> nat {
    match r {
        Register::V0 => 0,
        Register::V1 => 1,
        Register::V2 => 2,
        Register::V3 => 3,
        Register::V4 => 4,
        Register::V5 => 5,
        Register::V6 => 6,
        Register::V7 => 7,
        Register::V8 => 8,
        Register::V9 => 9,
        Register::VA => 10,
        Register::VB => 11,
        Register::VC => 12,
        Register::VD => 13,
        Register::VE => 14,
        Register::VF => 15,
    }
}

impl Register {
    /// The number of the register.
    pub fn index(&self) -> (i: usize)
        ensures
            i == register_number(*self),
    {
        match self {
            Register::V0 => 0,
            Register::V1 => 1,
            Register::V2 => 2,
            Register::V3 => 3,
            Register::V4 => 4,
            Register::V5 => 5,
            Register::V6 => 6,
            Register::V7 => 7,
            Register::V8 => 8,
            Register::V9 => 9,
            Register::VA => 10,
            Register::VB => 11,
            Register::VC => 12,
            Register::VD => 13,
            Register::VE => 14,
            Register::VF => 15,
        }
    }
}

/// Number of the flag register VF.
const VF: usize = 15;

/// Draws a byte from `rand::thread_rng()` through `rand::Rng::gen::<u8>`:
/// a uniformly distributed byte of the thread-local generator. Nothing is
/// stated of its value; every byte is possible.
#[verifier::external_body]
fn random_byte() -> (byte: u8) {
    rand::Rng::gen::<u8>(&mut rand::thread_rng())
}

/// Whether `opcode` is an instruction of the set (see `decoded`).
fn is_decoded(opcode: u16) -> (d: bool)
    ensures
        d == decoded(opcode),
{
    proof { lemma_decode(opcode); }
    let kind = (opcode & 0xF000) >> 12;
    let x = (opcode & 0x0F00) >> 8;
    let y = (opcode & 0x00F0) >> 4;
    let n = opcode & 0x000F;
    let nn = opcode & 0x00FF;
    if kind == 0 {
        x == 0 && ((y == 0 && n == 0) || y == 0xC || y == 0xD || (y == 0xE && (n == 0 || n == 0xE)) || (y == 0xF && n >= 0xB))
    } else if kind == 5 {
        n == 0 || n == 2 || n == 3
    } else if kind == 8 {
        n <= 7 || n == 0xE
    } else if kind == 9 {
        n == 0
    } else if kind == 0xE {
        nn == 0x9E || nn == 0xA1
    } else if kind == 0xF {
        (x == 0 && nn == 0) || nn == 0x01 || nn == 0x02 || nn == 0x07 || nn == 0x0A || nn == 0x15 || nn == 0x18
            || nn == 0x1E || nn == 0x29 || nn == 0x30 || nn == 0x33 || nn == 0x3A || nn == 0x55 || nn == 0x65
            || nn == 0x75 || nn == 0x85
    } else {
        true
    }
}

/// The CPU of the Chip-8
#[derive(Debug)]
pub struct CPU {
    /// Index register
    index_register: u16,
    /// Program counter
    program_counter: u16,
    /// General purpose registers
    registers: Vec<u8>,
    /// Delay timer
    delay_timer: u8,
    /// Sound timer
    sound_timer: u8,
    waiting_for_key: Option<WaitingForKey>,
    /// Flags are saved to a file or external storage in some implementations
    saved_registers: Vec<u8>,
    audio_buffer: Vec<u8>,
    buffer_pitch: u8,
}

impl View for CPU {
    type V = CpuState;

    open spec fn view(&self) -> CpuState {
        self.state()
    }
}

/// The CPU state after a reset: counter at `PROGRAM_START`, every register
/// and timer zero, no wait, no audio pattern, pitch 64.
pub open spec fn reset_cpu() -> CpuState {
    CpuState {
        index: 0,
        pc: PROGRAM_START,
        registers: Seq::new(16, |i: int| 0u8),
        delay: 0,
        sound: 0,
        waiting: None,
        saved: Seq::new(16, |i: int| 0u8),
        audio: Seq::empty(),
        pitch: 64,
    }
}

impl Default for CPU {
    fn default() -> (cpu: Self)
        ensures
            cpu@ == reset_cpu(),
    {
        let cpu = CPU {
            index_register: 0,
            program_counter: PROGRAM_START,
            registers: vec![0u8; 16],
            delay_timer: 0,
            sound_timer: 0,
            waiting_for_key: None,
            saved_registers: vec![0u8; 16],
            audio_buffer: Vec::new(),
            buffer_pitch: 64,
        };
        assert(cpu@ =~= reset_cpu());
        cpu
    }
}

/// Decoding an instruction with masks and shifts gives its nibbles.
proof fn lemma_decode(op: u16)
    ensures
        ((op & 0xF000u16) >> 12u16) as int == op_kind(op),
        ((op & 0x0F00u16) >> 8u16) as int == op_x(op),
        ((op & 0x00F0u16) >> 4u16) as int == op_y(op),
        (op & 0x000Fu16) as int == op_n(op),
        (op & 0x00FFu16) as int == op_nn(op),
        (op & 0x0FFFu16) as int == op_nnn(op),
        op_x(op) < 16,
        op_y(op) < 16,
        op_n(op) < 16,
        (((op & 0x0FFFu16) >> 8u16) & 0xFu16) == ((op & 0x0F00u16) >> 8u16),
{
    assert((((op & 0x0FFFu16) >> 8u16) & 0xFu16) == ((op & 0x0F00u16) >> 8u16)) by (bit_vector);
    assert(((op & 0xF000u16) >> 12u16) == op / 4096) by (bit_vector);
    assert(((op & 0x0F00u16) >> 8u16) == (op / 256) % 16) by (bit_vector);
    assert(((op & 0x00F0u16) >> 4u16) == (op / 16) % 16) by (bit_vector);
    assert((op & 0x000Fu16) == op % 16) by (bit_vector);
    assert((op & 0x00FFu16) == op % 256) by (bit_vector);
    assert((op & 0x0FFFu16) == op % 4096) by (bit_vector);
}

/// Shifts of a byte by one are halving and doubling.
proof fn lemma_shift_byte(v: u8)
    ensures
        v >> 1u8 == v / 2,
        v & 1u8 == v % 2,
        ((v << 1u8) as int) == (v * 2) % 256,
        v >> 7u8 == v / 128,
{
    assert(v >> 1u8 == v / 2) by (bit_vector);
    assert(v & 1u8 == v % 2) by (bit_vector);
    assert(v << 1u8 == ((v as u16 * 2) % 256) as u8) by (bit_vector);
    assert(v >> 7u8 == v / 128) by (bit_vector);
}

impl CPU {
    /// The CPU's state as mathematical values.
    pub closed spec fn state(&self) -> CpuState {
        CpuState {
            index: self.index_register,
            pc: self.program_counter,
            registers: self.registers@,
            delay: self.delay_timer,
            sound: self.sound_timer,
            waiting: self.waiting_for_key,
            saved: self.saved_registers@,
            audio: self.audio_buffer@,
            pitch: self.buffer_pitch,
        }
    }

    /// Get the audio buffer
    pub fn get_audio_buffer(&self) -> (buffer: &Vec<u8>)
        ensures
            buffer@ == self@.audio,
    {
        &self.audio_buffer
    }

    /// Clear the audio buffer
    pub fn clear_audio_buffer(&mut self)
        ensures
            final(self)@ == (CpuState { audio: Seq::empty(), ..old(self)@ }),
    {
        self.audio_buffer.clear();
        assert(self@ =~= (CpuState { audio: Seq::empty(), ..old(self)@ }));
    }

    /// Get the buffer pitch
    pub fn get_buffer_pitch(&self) -> (pitch: u8)
        ensures
            pitch == self@.pitch,
    {
        self.buffer_pitch
    }

    /// Get the program counter
    pub fn get_program_counter(&self) -> (pc: u16)
        ensures
            pc == self@.pc,
    {
        self.program_counter
    }

    /// Get the index register
    pub fn get_index_register(&self) -> (index: u16)
        ensures
            index == self@.index,
    {
        self.index_register
    }

    /// Get the general registers
    pub fn get_registers(&self) -> (registers: &Vec<u8>)
        ensures
            registers@ == self@.registers,
    {
        &self.registers
    }

    /// Get the delay timer
    pub fn delay_timer(&self) -> (t: u8)
        ensures
            t == self@.delay,
    {
        self.delay_timer
    }

    /// Get the sound timer
    pub fn sound_timer(&self) -> (t: u8)
        ensures
            t == self@.sound,
    {
        self.sound_timer
    }

    /// Set the delay timer
    pub fn set_delay_timer(&mut self, t: u8)
        ensures
            final(self)@ == (CpuState { delay: t, ..old(self)@ }),
    {
        self.delay_timer = t;
    }

    /// Set the sound timer
    pub fn set_sound_timer(&mut self, t: u8)
        ensures
            final(self)@ == (CpuState { sound: t, ..old(self)@ }),
    {
        self.sound_timer = t;
    }

    /// Moves the program counter past the next instruction.
    fn skip_next_instruction(&mut self, memory: &Memory)
        requires
            memory.wf(),
            old(self)@.pc + 1 < MAX_MEMORY,
            old(self)@.pc + skip_len(memory.data@, old(self)@.pc as int) <= u16::MAX,
        ensures
            final(self)@ == (CpuState {
                pc: (old(self)@.pc + skip_len(memory.data@, old(self)@.pc as int)) as u16,
                ..old(self)@
            }),
    {
        let pc = self.program_counter as usize;
        let hi = memory.data[pc];
        let lo = memory.data[pc + 1];
        proof { lemma_join(hi, lo); }
        let next_op = ((hi as u16) << 8) | (lo as u16);
        let result: u16 = if next_op == 0xF000 { 4 } else { 2 };
        self.program_counter = self.program_counter + result;
    }
}

impl CPU {
    /// Instructions `00..`.
    fn exec_system(
        &mut self,
        opcode: u16,
        memory: &mut Memory,
        display: &mut Display,
        stack: &mut Vec<u16>,
    ) -> (messages: Vec<DeviceMessage>)
        requires
            op_kind(opcode) == 0,
            old(self)@.wf(),
            old(memory).wf(),
            old(display)@.wf(),
            execute_ok(opcode, machine_of(old(self)@, old(memory).data@, old(display)@, old(stack)@), Quirks::default_spec(), Seq::empty()),
        ensures
            ({
                let r = exec_system(opcode, machine_of(old(self)@, old(memory).data@, old(display)@, old(stack)@));
                machine_of(final(self)@, final(memory).data@, final(display)@, final(stack)@) == r.0 && messages@ == r.1
            }),
            final(display)@.wf(),
            final(self)@.wf(),
            *final(memory) == *old(memory),
    {
        proof { lemma_decode(opcode); }
        let ghost m = machine_of(old(self)@, old(memory).data@, old(display)@, old(stack)@);
        let x = (opcode & 0x0F00) >> 8;
        let y = (opcode & 0x00F0) >> 4;
        let n = opcode & 0x000F;
        let mut messages: Vec<DeviceMessage> = Vec::new();
        if x != 0 {
        } else if y == 0 && n == 0 {
        } else if y == 0xC {
            display.scroll_down(n as u8);
        } else if y == 0xD {
            display.scroll_up(n as u8);
        } else if y == 0xE && n == 0 {
            let ghost d = display@;
            let ghost target = d.map_active(|px: Seq<u8>| blank(res_size(d.resolution)));
            let count = display.plane_count();
            let mut layer: usize = 0;
            while layer < count
                invariant
                    count == PLANE_COUNT,
                    layer <= count,
                    d.wf(),
                    target == d.map_active(|px: Seq<u8>| blank(res_size(d.resolution))),
                    display@.planes.len() == PLANE_COUNT,
                    display@.resolution == d.resolution,
                    display@.active_plane == d.active_plane,
                    forall|l: int| 0 <= l < layer ==> #[trigger] display@.planes[l] == target.planes[l],
                    forall|l: int| layer <= l < PLANE_COUNT ==> #[trigger] display@.planes[l] == d.planes[l],
                decreases count - layer,
            {
                if display.active_plane() & (layer + 1) != 0 {
                    display.clear(layer);
                }
                layer += 1;
            }
            assert(display@ =~= target);
        } else if y == 0xE && n == 0xE {
            match stack.pop() {
                Some(top) => {
                    self.program_counter = top;
                },
                None => {},
            }
        } else if y == 0xF && n == 0xB {
            display.scroll_right(4);
        } else if y == 0xF && n == 0xC {
            display.scroll_left(4);
        } else if y == 0xF && n == 0xD {
            self.program_counter = self.program_counter - 2;
            messages.push(DeviceMessage::Exit);
        } else if y == 0xF && n == 0xE {
            display.set_resolution(crate::display::DisplayResolution::Low);
            messages.push(DeviceMessage::ChangeResolution(crate::display::DisplayResolution::Low));
        } else if y == 0xF && n == 0xF {
            display.set_resolution(crate::display::DisplayResolution::High);
            messages.push(DeviceMessage::ChangeResolution(crate::display::DisplayResolution::High));
        }
        proof {
            let r = exec_system(opcode, m);
            assert(messages@ =~= r.1);
            assert(machine_of(self@, memory.data@, display@, stack@) =~= r.0);
        }
        messages
    }
}

impl CPU {
    /// Instructions `8XY.`.
    fn exec_alu(&mut self, opcode: u16, quirks: &Quirks, memory: &Memory, display: &Display, stack: &Vec<u16>)
        requires
            op_kind(opcode) == 8,
            old(self)@.wf(),
        ensures
            ({
                let r = exec_alu(opcode, machine_of(old(self)@, memory.data@, display@, stack@), *quirks);
                machine_of(final(self)@, memory.data@, display@, stack@) == r.0 && r.1 == Seq::<DeviceMessage>::empty()
            }),
            final(self)@.wf(),
    {
        proof { lemma_decode(opcode); }
        let ghost m = machine_of(old(self)@, memory.data@, display@, stack@);
        let x = ((opcode & 0x0F00) >> 8) as usize;
        let y = ((opcode & 0x00F0) >> 4) as usize;
        let n = opcode & 0x000F;
        let vx = self.registers[x];
        let vy = self.registers[y];
        let shifted = if quirks.vx_shifted_directly { vx } else { vy };
        proof { lemma_shift_byte(shifted); }
        if n == 0 {
            self.registers[x] = vy;
        } else if n == 1 {
            self.registers[x] = vx | vy;
            if quirks.vf_zero {
                self.registers[VF] = 0;
            }
        } else if n == 2 {
            self.registers[x] = vx & vy;
            if quirks.vf_zero {
                self.registers[VF] = 0;
            }
        } else if n == 3 {
            self.registers[x] = vx ^ vy;
            if quirks.vf_zero {
                self.registers[VF] = 0;
            }
        } else if n == 4 {
            let sum: u16 = vx as u16 + vy as u16;
            self.registers[x] = (sum % 256) as u8;
            self.registers[VF] = if sum > 255 { 1 } else { 0 };
        } else if n == 5 {
            let diff: u16 = (vx as u16 + 256 - vy as u16) % 256;
            self.registers[x] = diff as u8;
            self.registers[VF] = if vx >= vy { 1 } else { 0 };
        } else if n == 6 {
            self.registers[x] = shifted >> 1;
            self.registers[VF] = shifted & 0x1;
        } else if n == 7 {
            let diff: u16 = (vy as u16 + 256 - vx as u16) % 256;
            self.registers[x] = diff as u8;
            self.registers[VF] = if vy >= vx { 1 } else { 0 };
        } else if n == 0xE {
            self.registers[x] = shifted << 1;
            self.registers[VF] = shifted >> 7;
        }
        proof {
            let r = exec_alu(opcode, m, *quirks);
            assert(self@.registers =~= r.0.cpu.registers);
            assert(machine_of(self@, memory.data@, display@, stack@) =~= r.0);
        }
    }

    /// Instructions `EX9E` and `EXA1`.
    fn exec_keys(&mut self, opcode: u16, keypad: &Keypad, memory: &Memory, display: &Display, stack: &Vec<u16>)
        requires
            op_kind(opcode) == 0xE,
            old(self)@.wf(),
            memory.wf(),
            execute_ok(opcode, machine_of(old(self)@, memory.data@, display@, stack@), Quirks::default_spec(), keypad.state()),
        ensures
            ({
                let r = exec_keys(opcode, machine_of(old(self)@, memory.data@, display@, stack@), keypad.state());
                machine_of(final(self)@, memory.data@, display@, stack@) == r.0 && r.1 == Seq::<DeviceMessage>::empty()
            }),
            final(self)@.wf(),
    {
        proof { lemma_decode(opcode); }
        let x = ((opcode & 0x0F00) >> 8) as usize;
        let nn = opcode & 0x00FF;
        let key = KeypadKey::from(self.registers[x] as usize);
        assert(key_value(key) == key_in_reg(machine_of(old(self)@, memory.data@, display@, stack@), x as int));
        let pressed = keypad.key(&key) != 0;
        if nn == 0x9E {
            if pressed {
                self.skip_next_instruction(memory);
            }
        } else if nn == 0xA1 {
            if !pressed {
                self.skip_next_instruction(memory);
            }
        }
        assert(machine_of(self@, memory.data@, display@, stack@) =~= exec_keys(
            opcode, machine_of(old(self)@, memory.data@, display@, stack@), keypad.state()).0);
    }
}


impl CPU {
    /// Instructions `F...`.
    fn exec_misc(
        &mut self,
        opcode: u16,
        quirks: &Quirks,
        memory: &mut Memory,
        display: &mut Display,
        stack: &Vec<u16>,
    ) -> (messages: Vec<DeviceMessage>)
        requires
            op_kind(opcode) == 0xF,
            old(self)@.wf(),
            old(memory).wf(),
            old(display)@.wf(),
            small_font(old(memory).system_font).len() <= 80,
            execute_ok(opcode, machine_of(old(self)@, old(memory).data@, old(display)@, stack@), *quirks, Seq::empty()),
        ensures
            ({
                let r = exec_misc(opcode, machine_of(old(self)@, old(memory).data@, old(display)@, stack@), *quirks,
                    small_font(old(memory).system_font).len());
                machine_of(final(self)@, final(memory).data@, final(display)@, stack@) == r.0 && messages@ == r.1
            }),
            final(self)@.wf(),
            final(memory).wf(),
            final(display)@.wf(),
            final(memory).system_font == old(memory).system_font,
            final(memory).enable_xo == old(memory).enable_xo,
    {
        proof { lemma_decode(opcode); }
        let ghost m = machine_of(old(self)@, old(memory).data@, old(display)@, stack@);
        let x = ((opcode & 0x0F00) >> 8) as usize;
        let nn = opcode & 0x00FF;
        let vx = self.registers[x];
        let mut messages: Vec<DeviceMessage> = Vec::new();
        if x == 0 && nn == 0 {
            let pc = self.program_counter as usize;
            let hi = memory.data[pc];
            let lo = memory.data[pc + 1];
            proof { lemma_join(hi, lo); }
            self.index_register = ((hi as u16) << 8) | (lo as u16);
            self.program_counter = self.program_counter + 2;
        } else if nn == 0x01 {
            display.set_active_plane(x);
        } else if nn == 0x02 {
            let start = self.index_register as usize;
            let mut buffer: Vec<u8> = Vec::with_capacity(16);
            let mut z: usize = 0;
            while z < 16
                invariant
                    z <= 16,
                    start == m.cpu.index,
                    start + 15 <= u16::MAX,
                    memory.wf(),
                    memory.data@ == m.memory,
                    buffer@ =~= m.memory.subrange(start as int, start + z),
                decreases 16 - z,
            {
                buffer.push(memory.data[start + z]);
                z += 1;
            }
            self.audio_buffer = buffer;
            messages.push(DeviceMessage::NewAudioBuffer);
        } else if nn == 0x07 {
            self.registers[x] = self.delay_timer;
        } else if nn == 0x0A {
            messages.push(DeviceMessage::WaitingForKey(Some(x)));
        } else if nn == 0x15 {
            self.delay_timer = vx;
        } else if nn == 0x18 {
            self.sound_timer = vx;
            if self.sound_timer == 0 {
                self.audio_buffer.clear();
            }
            messages.push(DeviceMessage::Beep(vx));
        } else if nn == 0x1E {
            self.index_register = self.index_register + vx as u16;
        } else if nn == 0x29 {
            self.index_register = (vx * 5) as u16;
        } else if nn == 0x30 {
            assert((vx & 0xFu8) == vx % 16) by (bit_vector);
            let block = (vx & 0xF) * 10;
            let font_size = small_font_len(memory.system_font);
            self.index_register = (block + font_size as u8) as u16;
        } else if nn == 0x33 {
            let i = self.index_register as usize;
            memory.data.set(i, vx / 100);
            memory.data.set(i + 1, (vx / 10) % 10);
            memory.data.set(i + 2, (vx % 100) % 10);
        } else if nn == 0x3A {
            self.buffer_pitch = vx;
        } else if nn == 0x55 {
            let start = self.index_register as usize;
            let mut k: usize = 0;
            while k <= x
                invariant
                    x < 16,
                    k <= x + 1,
                    start == m.cpu.index,
                    start + x <= u16::MAX,
                    self@ == m.cpu,
                    m.cpu.wf(),
                    memory.wf(),
                    memory.system_font == old(memory).system_font,
                    memory.enable_xo == old(memory).enable_xo,
                    memory.data@ =~= store(m.memory, start as int, k as int, |j: int| m.reg(j)),
                decreases x + 1 - k,
            {
                memory.data.set(start + k, self.registers[k]);
                k += 1;
            }
            if quirks.i_incremented {
                self.index_register = self.index_register + 1;
            }
        } else if nn == 0x65 {
            let start = self.index_register as usize;
            let mut k: usize = 0;
            while k <= x
                invariant
                    x < 16,
                    k <= x + 1,
                    start == m.cpu.index,
                    start + x <= u16::MAX,
                    self@ == m.cpu.with_registers(self@.registers),
                    memory.data@ == m.memory,
                    memory.wf(),
                    self@.registers =~= Seq::new(16, |j: int| if j < k { m.memory[start + j] } else { m.reg(j) }),
                decreases x + 1 - k,
            {
                let v = memory.data[start + k];
                self.registers[k] = v;
                k += 1;
            }
            if quirks.i_incremented {
                self.index_register = self.index_register + 1;
            }
        } else if nn == 0x75 {
            let mut k: usize = 0;
            while k <= x
                invariant
                    x < 16,
                    k <= x + 1,
                    self@ == m.cpu.with_saved(self@.saved),
                    m.cpu.wf(),
                    self@.saved =~= Seq::new(16, |j: int| if j < k { m.reg(j) } else { m.cpu.saved[j] }),
                decreases x + 1 - k,
            {
                let v = self.registers[k];
                self.saved_registers[k] = v;
                k += 1;
            }
        } else if nn == 0x85 {
            let mut k: usize = 0;
            while k <= x
                invariant
                    x < 16,
                    k <= x + 1,
                    self@ == m.cpu.with_registers(self@.registers),
                    m.cpu.wf(),
                    self@.registers =~= Seq::new(16, |j: int| if j < k { m.cpu.saved[j] } else { m.reg(j) }),
                decreases x + 1 - k,
            {
                let v = self.saved_registers[k];
                self.registers[k] = v;
                k += 1;
            }
        }
        proof {
            let r = exec_misc(opcode, m, *quirks, small_font(old(memory).system_font).len());
            assert(messages@ =~= r.1);
            assert(self@ =~= r.0.cpu);
            assert(memory.data@ =~= r.0.memory);
            assert(machine_of(self@, memory.data@, display@, stack@) =~= r.0);
        }
        messages
    }
}


impl CPU {
    /// Draws a sprite at (`x`, `y`) of `height` rows from the index register
    /// on the active planes, and sets VF to 1 when a lit pixel was darkened.
    fn draw_sprite(
        &mut self,
        display: &mut Display,
        memory: &Memory,
        x: usize,
        y: usize,
        height: usize,
        clip_sprites: bool,
    )
        requires
            old(self)@.wf(),
            old(display)@.wf(),
            memory.wf(),
            height < 16,
            crate::sprite::sprite_fits(old(self)@.index as int, old(display)@.active_plane, height as nat),
        ensures
            ({
                let s = SpriteDraw {
                    memory: memory.data@,
                    index: old(self)@.index as int,
                    x: x as nat,
                    y: y as nat,
                    height: height as nat,
                    clip: clip_sprites,
                };
                &&& final(display)@ == s.result(old(display)@)
                &&& final(self)@ == old(self)@.with_registers(
                    old(self)@.registers.update(15, if s.collides(old(display)@) { 1u8 } else { 0u8 }))
            }),
    {
        self.registers[VF] = 0;
        let collision = draw_sprite_planes(display, memory, self.index_register, x, y, height, clip_sprites);
        self.registers[VF] = collision;
        assert(self@.registers =~= old(self)@.registers.update(15, collision));
    }

    /// Executes instruction `opcode`; the program counter already points past it.
    fn execute_instruction(
        &mut self,
        opcode: u16,
        memory: &mut Memory,
        display: &mut Display,
        stack: &mut Vec<u16>,
        quirks: &Quirks,
        keypad: &Keypad,
        random: u8,
    ) -> (messages: Vec<DeviceMessage>)
        requires
            old(self)@.wf(),
            old(memory).wf(),
            old(display)@.wf(),
            small_font(old(memory).system_font).len() <= 80,
            execute_ok(opcode, machine_of(old(self)@, old(memory).data@, old(display)@, old(stack)@), *quirks, keypad.state()),
        ensures
            ({
                let r = execute(
                    opcode,
                    machine_of(old(self)@, old(memory).data@, old(display)@, old(stack)@),
                    *quirks,
                    keypad.state(),
                    small_font(old(memory).system_font).len(),
                    random,
                );
                machine_of(final(self)@, final(memory).data@, final(display)@, final(stack)@) == r.0 && messages@ == r.1
            }),
            final(self)@.wf(),
            final(memory).wf(),
            final(display)@.wf(),
            final(memory).system_font == old(memory).system_font,
            final(memory).enable_xo == old(memory).enable_xo,
    {
        proof { lemma_decode(opcode); }
        let ghost m = machine_of(old(self)@, old(memory).data@, old(display)@, old(stack)@);
        let ghost font_len = small_font(old(memory).system_font).len();
        let kind = (opcode & 0xF000) >> 12;
        let x = ((opcode & 0x0F00) >> 8) as usize;
        let y = ((opcode & 0x00F0) >> 4) as usize;
        let n = opcode & 0x000F;
        let nn = (opcode & 0x00FF) as u8;
        let nnn = opcode & 0x0FFF;
        if !is_decoded(opcode) {
            let mut messages: Vec<DeviceMessage> = Vec::new();
            messages.push(DeviceMessage::UnknownOpCode(opcode));
            proof {
                assert(messages@ =~= seq![DeviceMessage::UnknownOpCode(opcode)]);
            }
            return messages;
        }
        if kind == 0 {
            return self.exec_system(opcode, memory, display, stack);
        } else if kind == 8 {
            self.exec_alu(opcode, quirks, memory, display, stack);
        } else if kind == 0xE {
            self.exec_keys(opcode, keypad, memory, display, stack);
        } else if kind == 0xF {
            return self.exec_misc(opcode, quirks, memory, display, stack);
        } else if kind == 1 {
            self.program_counter = nnn;
        } else if kind == 2 {
            stack.push(self.program_counter);
            self.program_counter = nnn;
        } else if kind == 3 {
            if self.registers[x] == nn {
                self.skip_next_instruction(memory);
            }
        } else if kind == 4 {
            if self.registers[x] != nn {
                self.skip_next_instruction(memory);
            }
        } else if kind == 5 && n == 0 {
            if self.registers[x] == self.registers[y] {
                self.skip_next_instruction(memory);
            }
        } else if kind == 5 && n == 2 {
            let distance = if x < y { y - x } else { x - y };
            let start = self.index_register as usize;
            let mut z: usize = 0;
            while z <= distance
                invariant
                    x < 16,
                    y < 16,
                    x == op_x(opcode),
                    y == op_y(opcode),
                    distance == reg_distance(opcode),
                    z <= distance + 1,
                    start == m.cpu.index,
                    start + distance <= u16::MAX,
                    self@ == m.cpu,
                    m.cpu.wf(),
                    memory.wf(),
                    memory.system_font == old(memory).system_font,
                    memory.enable_xo == old(memory).enable_xo,
                    memory.data@ =~= store(m.memory, start as int, z as int, |k: int| m.reg(range_reg(opcode, k))),
                decreases distance + 1 - z,
            {
                let r = if x < y { x + z } else { x - z };
                memory.data.set(start + z, self.registers[r]);
                z += 1;
            }
        } else if kind == 5 && n == 3 {
            let distance = if x < y { y - x } else { x - y };
            let start = self.index_register as usize;
            let mut z: usize = 0;
            while z <= distance
                invariant
                    x < 16,
                    y < 16,
                    x == op_x(opcode),
                    y == op_y(opcode),
                    distance == reg_distance(opcode),
                    z <= distance + 1,
                    start == m.cpu.index,
                    start + distance <= u16::MAX,
                    self@ == m.cpu.with_registers(self@.registers),
                    m.cpu.wf(),
                    memory.wf(),
                    memory.data@ == m.memory,
                    self@.registers =~= Seq::new(16, |r: int|
                        if (if x < y { x <= r < x + z } else { x - z < r <= x }) {
                            m.memory[start + (if r >= x { r - x } else { x - r })]
                        } else {
                            m.reg(r)
                        }),
                decreases distance + 1 - z,
            {
                let r = if x < y { x + z } else { x - z };
                let v = memory.data[start + z];
                self.registers[r] = v;
                z += 1;
            }
        } else if kind == 6 {
            self.registers[x] = nn;
        } else if kind == 7 {
            let sum: u16 = self.registers[x] as u16 + nn as u16;
            self.registers[x] = (sum % 256) as u8;
        } else if kind == 9 && n == 0 {
            if self.registers[x] != self.registers[y] {
                self.skip_next_instruction(memory);
            }
        } else if kind == 0xA {
            self.index_register = nnn;
        } else if kind == 0xB {
            self.program_counter = if quirks.jump_bits {
                let index = (nnn >> 8) & 0xF;
                nnn + self.registers[index as usize] as u16
            } else {
                nnn + self.registers[0] as u16
            };
        } else if kind == 0xC {
            self.registers[x] = random & nn;
        } else if kind == 0xD {
            let vx = self.registers[x] as usize;
            let vy = self.registers[y] as usize;
            self.draw_sprite(display, memory, vx, vy, n as usize, quirks.clip_sprites);
        }
        proof {
            let r = execute(opcode, m, *quirks, keypad.state(), font_len, random);
            assert(self@ =~= r.0.cpu);
            assert(memory.data@ =~= r.0.memory);
            assert(stack@ =~= r.0.stack);
            assert(machine_of(self@, memory.data@, display@, stack@) =~= r.0);
            assert(r.1 =~= Seq::<DeviceMessage>::empty());
        }
        Vec::new()
    }
}


/// The first key in keypad order that is pressed.
fn find_pressed(keypad: &Keypad) -> (key: Option<KeypadKey>)
    ensures
        key == first_pressed(keypad.state(), 0),
{
    let keys = keypad_keys();
    let mut i: usize = 0;
    while i < 16
        invariant
            i <= 16,
            keys@ == keypad_order(),
            first_pressed(keypad.state(), i as nat) == first_pressed(keypad.state(), 0),
        decreases 16 - i,
    {
        if keypad.is_key_pressed(&keys[i]) {
            return Some(keys[i]);
        }
        i += 1;
    }
    None
}

/// Every wait that an instruction asks for names a register.
proof fn lemma_wait_registers(op: u16, m: Machine, q: Quirks, keys: Seq<u8>, font_len: nat, random: u8)
    ensures
        forall|i: int| 0 <= i < execute(op, m, q, keys, font_len, random).1.len() ==>
            (#[trigger] execute(op, m, q, keys, font_len, random).1[i] matches DeviceMessage::WaitingForKey(r)
                ==> r matches Some(v) && v < 16),
{
    let msgs = execute(op, m, q, keys, font_len, random).1;
    assert(msgs.len() <= 1);
    if msgs.len() == 1 {
        if msgs[0] matches DeviceMessage::WaitingForKey(r) {
            assert(op_kind(op) == 0xF && op_nn(op) == 0x0A);
        }
    }
}

impl CPU {
    /// Step the CPU by one instruction, with `random` as the byte that a
    /// `CXNN` instruction draws.
    pub fn step_with_random(
        &mut self,
        memory: &mut Memory,
        display: &mut Display,
        stack: &mut Vec<u16>,
        quirks: &Quirks,
        keypad: &Keypad,
        random: u8,
    ) -> (messages: Vec<DeviceMessage>)
        requires
            old(self)@.wf(),
            old(memory).wf(),
            old(display)@.wf(),
            step_ok(machine_of(old(self)@, old(memory).data@, old(display)@, old(stack)@), *quirks, keypad.state()),
        ensures
            ({
                let r = step(
                    machine_of(old(self)@, old(memory).data@, old(display)@, old(stack)@),
                    *quirks,
                    keypad.state(),
                    small_font(old(memory).system_font).len(),
                    random,
                );
                machine_of(final(self)@, final(memory).data@, final(display)@, final(stack)@) == r.0 && messages@ == r.1
            }),
            final(self)@.wf(),
            final(memory).wf(),
            final(display)@.wf(),
            final(memory).system_font == old(memory).system_font,
            final(memory).enable_xo == old(memory).enable_xo,
    {
        let ghost m = machine_of(old(self)@, old(memory).data@, old(display)@, old(stack)@);
        let ghost font_len = small_font(old(memory).system_font).len();
        proof { crate::memory::reveal_font_lengths(old(memory).system_font); }
        if let Some(task) = self.waiting_for_key {
            match task.key {
                Some(key) => {
                    if !keypad.is_key_pressed(&key) {
                        self.registers[task.register] = key.key_index() as u8;
                        self.waiting_for_key = None;
                    }
                },
                None => {
                    match find_pressed(keypad) {
                        Some(k) => {
                            self.waiting_for_key = Some(WaitingForKey { register: task.register, key: Some(k) });
                        },
                        None => {},
                    }
                },
            }
            proof {
                let r = step(m, *quirks, keypad.state(), font_len, random);
                assert(self@ =~= r.0.cpu);
                assert(machine_of(self@, memory.data@, display@, stack@) =~= r.0);
            }
            return Vec::new();
        }
        let pc = self.program_counter as usize;
        let hi = memory.data[pc];
        let lo = memory.data[pc + 1];
        proof { lemma_join(hi, lo); }
        let opcode = ((hi as u16) << 8) | (lo as u16);
        self.program_counter = self.program_counter + 2;
        let messages = self.execute_instruction(opcode, memory, display, stack, quirks, keypad, random);
        let ghost after = self@;
        proof { lemma_wait_registers(opcode, m.with_pc(m.cpu.pc + 2), *quirks, keypad.state(), font_len, random); }
        let mut i: usize = 0;
        while i < messages.len()
            invariant
                i <= messages@.len(),
                self@ == (CpuState { waiting: self@.waiting, ..after }),
                after.wf(),
                self@.waiting == wait_after(after.waiting, messages@.take(i as int)),
                forall|j: int| 0 <= j < messages@.len() ==>
                    (#[trigger] messages@[j] matches DeviceMessage::WaitingForKey(r) ==> r matches Some(v) && v < 16),
                self@.waiting matches Some(w) ==> w.register < 16,
            decreases messages@.len() - i,
        {
            if let DeviceMessage::WaitingForKey(register) = messages[i] {
                let reg = match register {
                    Some(v) => v,
                    None => 0,
                };
                self.waiting_for_key = Some(WaitingForKey { register: reg, key: None });
            }
            assert(messages@.take(i as int + 1).drop_last() =~= messages@.take(i as int));
            i += 1;
        }
        proof {
            assert(messages@.take(messages@.len() as int) =~= messages@);
            let r = step(m, *quirks, keypad.state(), font_len, random);
            assert(self@ =~= r.0.cpu);
            assert(machine_of(self@, memory.data@, display@, stack@) =~= r.0);
        }
        messages
    }

    /// Step the CPU by one instruction. A `CXNN` instruction draws its byte
    /// from the thread's random number generator; the outcome is the step
    /// for some byte.
    pub fn step(
        &mut self,
        memory: &mut Memory,
        display: &mut Display,
        stack: &mut Vec<u16>,
        quirks: &Quirks,
        keypad: &Keypad,
    ) -> (messages: Vec<DeviceMessage>)
        requires
            old(self)@.wf(),
            old(memory).wf(),
            old(display)@.wf(),
            step_ok(machine_of(old(self)@, old(memory).data@, old(display)@, old(stack)@), *quirks, keypad.state()),
        ensures
            exists|random: u8| {
                let r = #[trigger] step(
                    machine_of(old(self)@, old(memory).data@, old(display)@, old(stack)@),
                    *quirks,
                    keypad.state(),
                    small_font(old(memory).system_font).len(),
                    random,
                );
                machine_of(final(self)@, final(memory).data@, final(display)@, final(stack)@) == r.0 && messages@ == r.1
            },
            final(self)@.wf(),
            final(memory).wf(),
            final(display)@.wf(),
            final(memory).system_font == old(memory).system_font,
            final(memory).enable_xo == old(memory).enable_xo,
    {
        let needs_random = self.waiting_for_key.is_none() && (memory.data[self.program_counter as usize] >> 4) == 0xC;
        let random = if needs_random { random_byte() } else { 0 };
        self.step_with_random(memory, display, stack, quirks, keypad, random)
    }
}


impl CPU {
    /// Whether a skip from the current counter can read the next
    /// instruction and move past it.
    fn can_skip(memory: &Memory, pc: u16) -> (ok: bool)
        requires
            memory.wf(),
        ensures
            ok == (pc + 1 < MAX_MEMORY && pc + skip_len(memory.data@, pc as int) <= u16::MAX),
    {
        let pc = pc as usize;
        if pc + 1 >= MAX_MEMORY {
            return false;
        }
        let hi = memory.data[pc];
        let lo = memory.data[pc + 1];
        proof { lemma_join(hi, lo); }
        let next_op = ((hi as u16) << 8) | (lo as u16);
        let len: usize = if next_op == 0xF000 { 4 } else { 2 };
        pc + len <= 0xFFFF
    }

    /// Whether the instruction `opcode` can be carried out with the program
    /// counter at `pc`, past the instruction.
    fn can_execute(
        &self,
        opcode: u16,
        pc: u16,
        memory: &Memory,
        display: &Display,
        stack: &Vec<u16>,
        quirks: &Quirks,
        keypad: &Keypad,
    ) -> (ok: bool)
        requires
            self@.wf(),
            memory.wf(),
        ensures
            ok == execute_ok(opcode, machine_of(CpuState { pc, ..self@ }, memory.data@, display@, stack@), *quirks, keypad.state()),
    {
        proof { lemma_decode(opcode); }
        let kind = (opcode & 0xF000) >> 12;
        let x = ((opcode & 0x0F00) >> 8) as usize;
        let y = ((opcode & 0x00F0) >> 4) as usize;
        let n = opcode & 0x000F;
        let nn = (opcode & 0x00FF) as u8;
        let vx = self.registers[x];
        let vy = self.registers[y];
        let i = self.index_register as usize;
        let distance = if x < y { y - x } else { x - y };
        if kind == 0 {
            (!(x == 0 && y == 0xE && n == 0xE) || stack.len() > 0)
                && (!(x == 0 && y == 0xF && n == 0xD) || pc >= 2)
        } else if kind == 3 {
            vx != nn || Self::can_skip(memory, pc)
        } else if kind == 4 {
            vx == nn || Self::can_skip(memory, pc)
        } else if kind == 5 && n == 0 {
            vx != vy || Self::can_skip(memory, pc)
        } else if kind == 5 && (n == 2 || n == 3) {
            i + distance <= 0xFFFF
        } else if kind == 9 && n == 0 {
            vx == vy || Self::can_skip(memory, pc)
        } else if kind == 0xD {
            let height = n as usize;
            let bytes: usize = if height == 0 { 32 } else { height };
            let mask = display.active_plane();
            let first: usize = if mask & 1 != 0 { bytes } else { 0 };
            let second: usize = if mask & 2 != 0 { bytes } else { 0 };
            i + first + second <= MAX_MEMORY
        } else if kind == 0xE {
            let key = KeypadKey::from(vx as usize);
            let pressed = keypad.key(&key) != 0;
            (!(nn == 0x9E && pressed) || Self::can_skip(memory, pc)) && (!(nn == 0xA1 && !pressed) || Self::can_skip(memory, pc))
        } else if kind == 0xF {
            if x == 0 && nn == 0 {
                pc as usize + 2 <= 0xFFFF
            } else if nn == 0x02 {
                i + 15 <= 0xFFFF
            } else if nn == 0x1E {
                i + vx as usize <= 0xFFFF
            } else if nn == 0x29 {
                (vx as usize) * 5 <= 0xFF
            } else if nn == 0x33 {
                i + 2 <= 0xFFFF
            } else if nn == 0x55 || nn == 0x65 {
                i + x <= 0xFFFF && (!quirks.i_incremented || i + 1 <= 0xFFFF)
            } else {
                true
            }
        } else {
            true
        }
    }

    /// Whether the next step can be carried out (see `step_ok`); a step on
    /// which this is false faults.
    pub fn can_step(
        &self,
        memory: &Memory,
        display: &Display,
        stack: &Vec<u16>,
        quirks: &Quirks,
        keypad: &Keypad,
    ) -> (ok: bool)
        requires
            self@.wf(),
            memory.wf(),
        ensures
            ok == step_ok(machine_of(self@, memory.data@, display@, stack@), *quirks, keypad.state()),
    {
        if self.waiting_for_key.is_some() {
            return true;
        }
        if self.program_counter as usize + 2 > 0xFFFF {
            return false;
        }
        let pc = self.program_counter as usize;
        let hi = memory.data[pc];
        let lo = memory.data[pc + 1];
        proof { lemma_join(hi, lo); }
        let opcode = ((hi as u16) << 8) | (lo as u16);
        self.can_execute(opcode, self.program_counter + 2, memory, display, stack, quirks, keypad)
    }
}

} // verus!
