//! The instruction set, stated as a function from a machine state to the
//! next one: what each instruction does to the registers, the memory, the
//! display and the stack, and the messages it hands to the host. Also the
//! inputs on which an instruction cannot be carried out.

use vstd::prelude::*;
use crate::display::{DisplayResolution, DisplayState, blank, res_size};
use crate::keypad::{KeypadKey, key_value, keypad_order};
use crate::message::DeviceMessage;
use crate::quirks::Quirks;
use crate::sprite::{SpriteDraw, join_bytes, sprite_fits};
use crate::memory::MAX_MEMORY;

verus! {

/// A wait for a key press that an `FX0A` instruction started: the register
/// that receives the key, and the key once it has been pressed.
#[derive(Debug, Clone, Copy, PartialEq, Eq, Structural)]
pub struct WaitingForKey {
    pub register: usize,
    pub key: Option<KeypadKey>,
}

/// What the CPU holds, as mathematical values.
#[verifier::ext_equal]
pub struct CpuState {
    pub index: u16,
    pub pc: u16,
    /// V0 to VF.
    pub registers: Seq<u8>,
    pub delay: u8,
    pub sound: u8,
    pub waiting: Option<WaitingForKey>,
    /// The registers saved by `FX75` ("flags").
    pub saved: Seq<u8>,
    /// The audio pattern loaded by `FX02`.
    pub audio: Seq<u8>,
    /// The pitch set by `FX3A`.
    pub pitch: u8,
}

impl CpuState {
    /// The state with `registers` as its registers.
    pub open spec fn with_registers(self, registers: Seq<u8>) -> CpuState {
        CpuState { registers, ..self }
    }

    /// The state with `saved` as its saved registers.
    pub open spec fn with_saved(self, saved: Seq<u8>) -> CpuState {
        CpuState { saved, ..self }
    }

    /// Sixteen registers, sixteen saved registers, and a wait that names one of them.
    pub open spec fn wf(self) -> bool {
        &&& self.registers.len() == 16
        &&& self.saved.len() == 16
        &&& (self.waiting matches Some(w) ==> w.register < 16)
    }
}

/// Everything that an instruction reads or changes.
#[verifier::ext_equal]
pub struct Machine {
    pub cpu: CpuState,
    pub memory: Seq<u8>,
    pub display: DisplayState,
    pub stack: Seq<u16>,
}

impl Machine {
    /// A well-formed CPU, 64 KiB of memory and a well-formed display.
    pub open spec fn wf(self) -> bool {
        &&& self.cpu.wf()
        &&& self.memory.len() == MAX_MEMORY
        &&& self.display.wf()
    }

    /// Register `i`.
    pub open spec fn reg(self, i: int) -> u8 {
        self.cpu.registers[i]
    }

    /// The machine with `cpu` in place of its CPU state.
    pub open spec fn with_cpu(self, cpu: CpuState) -> Machine {
        Machine { cpu, ..self }
    }

    /// The machine with the program counter at `pc`.
    pub open spec fn with_pc(self, pc: int) -> Machine {
        self.with_cpu(CpuState { pc: pc as u16, ..self.cpu })
    }

    /// The machine with the index register at `index`.
    pub open spec fn with_index(self, index: int) -> Machine {
        self.with_cpu(CpuState { index: index as u16, ..self.cpu })
    }

    /// The machine with `registers` as its registers.
    pub open spec fn with_regs(self, registers: Seq<u8>) -> Machine {
        self.with_cpu(CpuState { registers, ..self.cpu })
    }

    /// Register `i` set to `v`.
    pub open spec fn set_reg(self, i: int, v: int) -> Machine {
        self.with_regs(self.cpu.registers.update(i, v as u8))
    }

    /// The machine with `display` in place of its display.
    pub open spec fn with_display(self, display: DisplayState) -> Machine {
        Machine { display, ..self }
    }

    /// The machine with `memory` in place of its memory.
    pub open spec fn with_memory(self, memory: Seq<u8>) -> Machine {
        Machine { memory, ..self }
    }

    /// The instruction word at `addr`.
    pub open spec fn word_at(self, addr: int) -> u16 {
        word_at(self.memory, addr)
    }

    /// Skipping the next instruction: four bytes when it is the
    /// four-byte `F000 NNNN`, two otherwise.
    pub open spec fn skip_len(self) -> int {
        skip_len(self.memory, self.cpu.pc as int)
    }

    /// The machine after skipping the next instruction.
    pub open spec fn skipped(self) -> Machine {
        self.with_pc(self.cpu.pc + self.skip_len())
    }

    /// A skip can read the next instruction and advance past it.
    pub open spec fn skip_ok(self) -> bool {
        self.cpu.pc + 1 < MAX_MEMORY && self.cpu.pc + self.skip_len() <= u16::MAX
    }
}

/// The instruction word at `addr`: two bytes, the first one high.
pub open spec fn word_at(memory: Seq<u8>, addr: int) -> u16 {
    join_bytes(memory[addr], memory[addr + 1])
}

/// Bytes that skipping the instruction at `pc` passes over: four for the
/// four-byte `F000 NNNN`, two otherwise.
pub open spec fn skip_len(memory: Seq<u8>, pc: int) -> int {
    if word_at(memory, pc) == 0xF000 { 4 } else { 2 }
}

/// The machine made of these parts.
pub open spec fn machine_of(cpu: CpuState, memory: Seq<u8>, display: DisplayState, stack: Seq<u16>) -> Machine {
    Machine { cpu, memory, display, stack }
}

/// The high nibble of an instruction.
pub open spec fn op_kind(op: u16) -> int { op as int / 4096 }
/// The second nibble: register X.
pub open spec fn op_x(op: u16) -> int { (op as int / 256) % 16 }
/// The third nibble: register Y.
pub open spec fn op_y(op: u16) -> int { (op as int / 16) % 16 }
/// The low nibble N.
pub open spec fn op_n(op: u16) -> int { op as int % 16 }
/// The low byte NN.
pub open spec fn op_nn(op: u16) -> int { op as int % 256 }
/// The low twelve bits NNN.
pub open spec fn op_nnn(op: u16) -> int { op as int % 4096 }

/// What an instruction leaves and what it reports.
pub type Outcome = (Machine, Seq<DeviceMessage>);

/// Nothing changes and nothing is reported.
pub open spec fn quiet(m: Machine) -> Outcome {
    (m, Seq::empty())
}

/// Instructions `00..`: scrolling, clearing, returns, exit and resolution.
/// A resolution change takes effect at once (the display is cleared at the
/// new size) and is also reported, so that the host can resize its screen.
/// `00FD` keeps the counter on itself and reports `Exit`.
pub open spec fn exec_system(op: u16, m: Machine) -> Outcome {
    let d = m.display;
    let x = op_x(op);
    let y = op_y(op);
    let n = op_n(op);
    if x != 0 {
        quiet(m)
    } else if y == 0 && n == 0 {
        quiet(m)
    } else if y == 0xC {
        quiet(m.with_display(d.scrolled_down(n as nat)))
    } else if y == 0xD {
        quiet(m.with_display(d.scrolled_up(n as nat)))
    } else if y == 0xE && n == 0 {
        let size = res_size(d.resolution);
        quiet(m.with_display(d.map_active(|px: Seq<u8>| blank(size))))
    } else if y == 0xE && n == 0xE {
        let top = m.stack.last();
        quiet(Machine { stack: m.stack.drop_last(), ..m.with_pc(top as int) })
    } else if y == 0xF && n == 0xB {
        quiet(m.with_display(d.scrolled_right(4)))
    } else if y == 0xF && n == 0xC {
        quiet(m.with_display(d.scrolled_left(4)))
    } else if y == 0xF && n == 0xD {
        (m.with_pc(m.cpu.pc - 2), seq![DeviceMessage::Exit])
    } else if y == 0xF && n == 0xE {
        (m.with_display(d.with_resolution(DisplayResolution::Low)), seq![DeviceMessage::ChangeResolution(DisplayResolution::Low)])
    } else if y == 0xF && n == 0xF {
        (m.with_display(d.with_resolution(DisplayResolution::High)), seq![DeviceMessage::ChangeResolution(DisplayResolution::High)])
    } else {
        quiet(m)
    }
}

/// Instructions `8XY.`: register to register arithmetic and logic.
pub open spec fn exec_alu(op: u16, m: Machine, q: Quirks) -> Outcome {
    let x = op_x(op);
    let vx = m.reg(x);
    let vy = m.reg(op_y(op));
    let shifted: int = if q.vx_shifted_directly { vx as int } else { vy as int };
    let n = op_n(op);
    if n == 0 {
        quiet(m.set_reg(x, vy as int))
    } else if n == 1 {
        let r = m.set_reg(x, (vx | vy) as int);
        quiet(if q.vf_zero { r.set_reg(15, 0) } else { r })
    } else if n == 2 {
        let r = m.set_reg(x, (vx & vy) as int);
        quiet(if q.vf_zero { r.set_reg(15, 0) } else { r })
    } else if n == 3 {
        let r = m.set_reg(x, (vx ^ vy) as int);
        quiet(if q.vf_zero { r.set_reg(15, 0) } else { r })
    } else if n == 4 {
        quiet(m.set_reg(x, (vx + vy) % 256).set_reg(15, if vx + vy > 255 { 1 } else { 0 }))
    } else if n == 5 {
        quiet(m.set_reg(x, (vx - vy + 256) % 256).set_reg(15, if vx >= vy { 1 } else { 0 }))
    } else if n == 6 {
        quiet(m.set_reg(x, shifted / 2).set_reg(15, shifted % 2))
    } else if n == 7 {
        quiet(m.set_reg(x, (vy - vx + 256) % 256).set_reg(15, if vy >= vx { 1 } else { 0 }))
    } else if n == 0xE {
        quiet(m.set_reg(x, (shifted * 2) % 256).set_reg(15, shifted / 128))
    } else {
        quiet(m)
    }
}

/// The value of the key named by register X: the register value, capped at 15.
pub open spec fn key_in_reg(m: Machine, x: int) -> int {
    if m.reg(x) >= 15 { 15 } else { m.reg(x) as int }
}

/// Instructions `E...`: skips on the keypad.
pub open spec fn exec_keys(op: u16, m: Machine, keys: Seq<u8>) -> Outcome {
    let pressed = keys[key_in_reg(m, op_x(op))] != 0;
    if op_nn(op) == 0x9E {
        quiet(if pressed { m.skipped() } else { m })
    } else if op_nn(op) == 0xA1 {
        quiet(if !pressed { m.skipped() } else { m })
    } else {
        quiet(m)
    }
}

/// Memory with the bytes from `start` to `start + count` (inclusive of
/// `start`, exclusive of the end) given by `f` of their offset.
pub open spec fn store(mem: Seq<u8>, start: int, count: int, f: spec_fn(int) -> u8) -> Seq<u8> {
    Seq::new(mem.len(), |j: int| if start <= j < start + count { f(j - start) } else { mem[j] })
}

/// Instructions `F...`: timers, index arithmetic, memory transfers, sound.
/// `FX02` loads the audio pattern and reports `NewAudioBuffer`; `FX18` sets
/// the sound timer (dropping the pattern when it is 0) and reports `Beep`.
pub open spec fn exec_misc(op: u16, m: Machine, q: Quirks, font_len: nat) -> Outcome {
    let x = op_x(op);
    let vx = m.reg(x);
    let i = m.cpu.index as int;
    let c = m.cpu;
    let nn = op_nn(op);
    if x == 0 && nn == 0 {
        let pc = m.cpu.pc as int;
        quiet(m.with_index(m.word_at(pc) as int).with_pc(pc + 2))
    } else if nn == 0x01 {
        quiet(m.with_display(DisplayState { active_plane: (x as usize) & 3, ..m.display }))
    } else if nn == 0x02 {
        (m.with_cpu(CpuState { audio: m.memory.subrange(i, i + 16), ..c }), seq![DeviceMessage::NewAudioBuffer])
    } else if nn == 0x07 {
        quiet(m.set_reg(x, c.delay as int))
    } else if nn == 0x0A {
        (m, seq![DeviceMessage::WaitingForKey(Some(x as usize))])
    } else if nn == 0x15 {
        quiet(m.with_cpu(CpuState { delay: vx, ..c }))
    } else if nn == 0x18 {
        (
            m.with_cpu(CpuState { sound: vx, audio: if vx == 0 { Seq::empty() } else { c.audio }, ..c }),
            seq![DeviceMessage::Beep(vx)],
        )
    } else if nn == 0x1E {
        quiet(m.with_index(i + vx))
    } else if nn == 0x29 {
        quiet(m.with_index(vx * 5))
    } else if nn == 0x30 {
        quiet(m.with_index((vx % 16) * 10 + font_len))
    } else if nn == 0x33 {
        quiet(m.with_memory(m.memory.update(i, (vx / 100) as u8).update(i + 1, ((vx / 10) % 10) as u8).update(i + 2, (vx % 10) as u8)))
    } else if nn == 0x3A {
        quiet(m.with_cpu(CpuState { pitch: vx, ..c }))
    } else if nn == 0x55 {
        let r = m.with_memory(store(m.memory, i, x + 1, |k: int| m.reg(k)));
        quiet(if q.i_incremented { r.with_index(i + 1) } else { r })
    } else if nn == 0x65 {
        let r = m.with_regs(Seq::new(16, |k: int| if k <= x { m.memory[i + k] } else { m.reg(k) }));
        quiet(if q.i_incremented { r.with_index(i + 1) } else { r })
    } else if nn == 0x75 {
        quiet(m.with_cpu(CpuState { saved: Seq::new(16, |k: int| if k <= x { m.reg(k) } else { c.saved[k] }), ..c }))
    } else if nn == 0x85 {
        quiet(m.with_regs(Seq::new(16, |k: int| if k <= x { c.saved[k] } else { m.reg(k) })))
    } else {
        quiet(m)
    }
}

/// Distance between registers X and Y.
pub open spec fn reg_distance(op: u16) -> int {
    if op_x(op) < op_y(op) { op_y(op) - op_x(op) } else { op_x(op) - op_y(op) }
}

/// The register that offset `k` of a `5XY2`/`5XY3` range names: counting
/// from X towards Y.
pub open spec fn range_reg(op: u16, k: int) -> int {
    if op_x(op) < op_y(op) { op_x(op) + k } else { op_x(op) - k }
}

/// Whether `op` is an instruction of the set: CHIP-8, the SUPER-CHIP
/// additions (scrolling, `00FD`-`00FF`, `FX30`, `FX75`, `FX85`) and the
/// XO-CHIP additions (`5XY2`, `5XY3`, `F000`, `FX01`, `FX02`, `FX3A`).
pub open spec fn decoded(op: u16) -> bool {
    let kind = op_kind(op);
    let x = op_x(op);
    let y = op_y(op);
    let n = op_n(op);
    let nn = op_nn(op);
    if kind == 0 {
        x == 0 && ((y == 0 && n == 0) || y == 0xC || y == 0xD || (y == 0xE && (n == 0 || n == 0xE)) || (y == 0xF && n >= 0xB))
    } else if kind == 5 {
        n == 0 || n == 2 || n == 3
    } else if kind == 8 {
        n <= 7 || n == 0xE
    } else if kind == 9 {
        n == 0
    } else if kind == 0xE {
        nn == 0x9E || nn == 0xA1
    } else if kind == 0xF {
        (x == 0 && nn == 0) || nn == 0x01 || nn == 0x02 || nn == 0x07 || nn == 0x0A || nn == 0x15 || nn == 0x18
            || nn == 0x1E || nn == 0x29 || nn == 0x30 || nn == 0x33 || nn == 0x3A || nn == 0x55 || nn == 0x65
            || nn == 0x75 || nn == 0x85
    } else {
        true
    }
}

/// An instruction outside the set changes nothing and is reported.
pub open spec fn unknown(op: u16, m: Machine) -> Outcome {
    (m, seq![DeviceMessage::UnknownOpCode(op)])
}

/// The outcome of instruction `op` on machine `m`, whose program counter
/// already points past the instruction. `keys` is the keypad state,
/// `font_len` the length of the small system font, and `random` the byte
/// that `CXNN` draws. An instruction outside the set is reported as
/// `UnknownOpCode` and changes nothing.
pub open spec fn execute(op: u16, m: Machine, q: Quirks, keys: Seq<u8>, font_len: nat, random: u8) -> Outcome {
    let kind = op_kind(op);
    let x = op_x(op);
    let y = op_y(op);
    let n = op_n(op);
    let nn = op_nn(op);
    let nnn = op_nnn(op);
    let vx = m.reg(x);
    let vy = m.reg(y);
    let i = m.cpu.index as int;
    if !decoded(op) {
        unknown(op, m)
    } else if kind == 0 {
        exec_system(op, m)
    } else if kind == 1 {
        quiet(m.with_pc(nnn))
    } else if kind == 2 {
        quiet(Machine { stack: m.stack.push(m.cpu.pc), ..m.with_pc(nnn) })
    } else if kind == 3 {
        quiet(if vx == nn { m.skipped() } else { m })
    } else if kind == 4 {
        quiet(if vx != nn { m.skipped() } else { m })
    } else if kind == 5 && n == 0 {
        quiet(if vx == vy { m.skipped() } else { m })
    } else if kind == 5 && n == 2 {
        quiet(m.with_memory(store(m.memory, i, reg_distance(op) + 1, |k: int| m.reg(range_reg(op, k)))))
    } else if kind == 5 && n == 3 {
        quiet(m.with_regs(Seq::new(16, |r: int|
            if (x <= r <= y || y <= r <= x) { m.memory[i + (if r >= x { r - x } else { x - r })] } else { m.reg(r) })))
    } else if kind == 6 {
        quiet(m.set_reg(x, nn))
    } else if kind == 7 {
        quiet(m.set_reg(x, (vx + nn) % 256))
    } else if kind == 8 {
        exec_alu(op, m, q)
    } else if kind == 9 && n == 0 {
        quiet(if vx != vy { m.skipped() } else { m })
    } else if kind == 0xA {
        quiet(m.with_index(nnn))
    } else if kind == 0xB {
        quiet(m.with_pc(nnn + if q.jump_bits { vx } else { m.reg(0) }))
    } else if kind == 0xC {
        quiet(m.set_reg(x, (random & (nn as u8)) as int))
    } else if kind == 0xD {
        let s = SpriteDraw {
            memory: m.memory,
            index: i,
            x: vx as nat,
            y: vy as nat,
            height: n as nat,
            clip: q.clip_sprites,
        };
        quiet(m.with_display(s.result(m.display)).set_reg(15, if s.collides(m.display) { 1 } else { 0 }))
    } else if kind == 0xE {
        exec_keys(op, m, keys)
    } else if kind == 0xF {
        exec_misc(op, m, q, font_len)
    } else {
        quiet(m)
    }
}

/// Whether instruction `op` can be carried out on `m`: a return needs a
/// non-empty stack, reads and writes stay inside memory, skips stay inside
/// the address space, and index arithmetic does not overflow. On the other
/// inputs the instruction faults.
pub open spec fn execute_ok(op: u16, m: Machine, q: Quirks, keys: Seq<u8>) -> bool {
    let kind = op_kind(op);
    let x = op_x(op);
    let y = op_y(op);
    let n = op_n(op);
    let nn = op_nn(op);
    let vx = m.reg(x);
    let vy = m.reg(y);
    let i = m.cpu.index as int;
    if kind == 0 {
        &&& (x == 0 && y == 0xE && n == 0xE ==> m.stack.len() > 0)
        &&& (x == 0 && y == 0xF && n == 0xD ==> m.cpu.pc >= 2)
    } else if kind == 3 {
        vx == nn ==> m.skip_ok()
    } else if kind == 4 {
        vx != nn ==> m.skip_ok()
    } else if kind == 5 && n == 0 {
        vx == vy ==> m.skip_ok()
    } else if kind == 5 && (n == 2 || n == 3) {
        i + reg_distance(op) <= u16::MAX
    } else if kind == 9 && n == 0 {
        vx != vy ==> m.skip_ok()
    } else if kind == 0xD {
        sprite_fits(i, m.display.active_plane, n as nat)
    } else if kind == 0xE {
        let pressed = keys[key_in_reg(m, x)] != 0;
        (nn == 0x9E && pressed ==> m.skip_ok()) && (nn == 0xA1 && !pressed ==> m.skip_ok())
    } else if kind == 0xF {
        if x == 0 && nn == 0 {
            m.cpu.pc + 2 <= u16::MAX
        } else if nn == 0x02 {
            i + 15 <= u16::MAX
        } else if nn == 0x1E {
            i + vx <= u16::MAX
        } else if nn == 0x29 {
            vx * 5 <= u8::MAX
        } else if nn == 0x33 {
            i + 2 <= u16::MAX
        } else if nn == 0x55 || nn == 0x65 {
            i + x <= u16::MAX && (q.i_incremented ==> i + 1 <= u16::MAX)
        } else {
            true
        }
    } else {
        true
    }
}

/// The first key in keypad order, from position `from` on, that is pressed.
pub open spec fn first_pressed(keys: Seq<u8>, from: nat) -> Option<KeypadKey>
    decreases 16 - from,
{
    if from >= 16 {
        None
    } else if keys[key_value(keypad_order()[from as int]) as int] == 1 {
        Some(keypad_order()[from as int])
    } else {
        first_pressed(keys, from + 1)
    }
}

/// The wait that a message leaves: a `WaitingForKey` starts a new wait for
/// its register (register 0 when none is named); other messages keep `w`.
pub open spec fn wait_for(w: Option<WaitingForKey>, msg: DeviceMessage) -> Option<WaitingForKey> {
    match msg {
        DeviceMessage::WaitingForKey(r) => Some(
            WaitingForKey { register: match r { Some(v) => v, None => 0 }, key: None },
        ),
        _ => w,
    }
}

/// The wait that the messages of an instruction leave, taken in order.
pub open spec fn wait_after(w: Option<WaitingForKey>, msgs: Seq<DeviceMessage>) -> Option<WaitingForKey>
    decreases msgs.len(),
{
    if msgs.len() == 0 {
        w
    } else {
        wait_for(wait_after(w, msgs.drop_last()), msgs.last())
    }
}

/// One step of the CPU. While a key wait is on, the step only watches the
/// keypad: it remembers the first pressed key, and once that key is
/// released stores its value in the waiting register and ends the wait.
/// Otherwise it fetches the instruction at the program counter, moves the
/// counter past it and executes it.
pub open spec fn step(m: Machine, q: Quirks, keys: Seq<u8>, font_len: nat, random: u8) -> Outcome {
    let c = m.cpu;
    match c.waiting {
        Some(w) => match w.key {
            Some(key) => if keys[key_value(key) as int] != 1 {
                quiet(m.with_cpu(CpuState {
                    registers: c.registers.update(w.register as int, key_value(key) as u8),
                    waiting: None,
                    ..c
                }))
            } else {
                quiet(m)
            },
            None => match first_pressed(keys, 0) {
                Some(k) => quiet(m.with_cpu(CpuState { waiting: Some(WaitingForKey { key: Some(k), ..w }), ..c })),
                None => quiet(m),
            },
        },
        None => {
            let op = m.word_at(c.pc as int);
            let r = execute(op, m.with_pc(c.pc + 2), q, keys, font_len, random);
            (r.0.with_cpu(CpuState { waiting: wait_after(r.0.cpu.waiting, r.1), ..r.0.cpu }), r.1)
        },
    }
}

/// Whether a step can be carried out: a key wait always can; otherwise the
/// instruction must be readable, the counter must move past it without
/// overflow, and the instruction itself must be carried out.
pub open spec fn step_ok(m: Machine, q: Quirks, keys: Seq<u8>) -> bool {
    m.cpu.waiting is Some || (m.cpu.pc + 2 <= u16::MAX
        && execute_ok(m.word_at(m.cpu.pc as int), m.with_pc(m.cpu.pc + 2), q, keys))
}

} // verus!
