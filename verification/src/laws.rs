//! Properties of the library that relate several operations or hold of
//! every state.

use vstd::prelude::*;
use crate::display::{DisplayState, DisplayResolution, PLANE_COUNT, SCREEN_SIZE_LOW, blank, res_size};
use crate::isa::{Machine, decoded, execute, execute_ok, step, step_ok, wait_after, wait_for, op_kind, op_x, op_y, op_n, op_nn, op_nnn};
use crate::message::DeviceMessage;
use crate::quirks::Quirks;
use crate::sprite::SpriteDraw;
use crate::keypad::{KeypadKey, key_value, key_from_index, keypad_order};
use crate::quirks::{profiles, profile_key_from, device_name_key};
use crate::roms::display_name;
use crate::input::{keyboard_order, qwerty_key, azerty_key, extra_key, regular_key, polled, InputKey, KeyMapping};
use crate::device::{DeviceState, reset, frame, run, run_step, handle, handle_all, tick_timers, default_device, AudioRequest};

verus! {

/// Inverting a pixel twice gives back the display, when its pixels are 0 or 1.
pub proof fn law_toggle_twice(d: DisplayState, plane: int, index: int)
    requires
        d.wf(),
        d.binary(),
        0 <= plane < PLANE_COUNT,
        0 <= index < d.planes[plane].len(),
    ensures
        d.toggled(plane, index).toggled(plane, index) == d,
        d.toggled(plane, index).binary(),
{
    let t = d.toggled(plane, index);
    assert(t.planes[plane][index] <= 1);
    assert(t.toggled(plane, index).planes[plane] =~= d.planes[plane]);
    assert(t.toggled(plane, index).planes =~= d.planes);
}

/// Drawing a sprite keeps the planes' sizes and their pixels 0 or 1, and
/// drawing the same sprite again erases it: the display is back as it was.
pub proof fn law_draw_twice(s: SpriteDraw, d: DisplayState)
    requires
        d.wf(),
        d.binary(),
    ensures
        s.result(d).wf(),
        s.result(d).binary(),
        s.result(s.result(d)) == d,
{
    let r = s.result(d);
    assert(r.wf());
    assert forall|l: int, p: int| #![trigger s.covers(r, l, p)] s.covers(r, l, p) == s.covers(d, l, p) by {}
    assert forall|l: int, i: int| 0 <= l < r.planes.len() && 0 <= i < r.planes[l].len() implies #[trigger] r.planes[l][i] <= 1 by {
        assert(d.planes[l][i] <= 1);
    }
    let rr = s.result(r);
    assert forall|l: int| 0 <= l < PLANE_COUNT implies #[trigger] rr.planes[l] =~= d.planes[l] by {
        assert forall|p: int| 0 <= p < d.planes[l].len() implies #[trigger] rr.planes[l][p] == d.planes[l][p] by {
            assert(d.planes[l][p] <= 1);
            assert(s.covers(r, l, p) == s.covers(d, l, p));
        }
    }
    assert(rr.planes =~= d.planes);
}

/// A draw reports a collision exactly when it darkens a pixel that was lit.
pub proof fn law_collision_is_erasure(s: SpriteDraw, d: DisplayState)
    requires
        d.wf(),
        d.binary(),
    ensures
        s.collides(d) <==> exists|l: int, p: int|
            0 <= l < PLANE_COUNT && 0 <= p < d.planes[l].len() && #[trigger] d.planes[l][p] == 1
                && s.result(d).planes[l][p] == 0,
{
    if s.collides(d) {
        let (l, p) = choose|l: int, p: int|
            0 <= l < PLANE_COUNT && 0 <= p < d.planes[l].len() && #[trigger] s.covers(d, l, p)
                && d.planes[l][p] != 0;
        assert(d.planes[l][p] <= 1);
        assert(d.planes[l][p] == 1 && s.result(d).planes[l][p] == 0);
    }
    if exists|l: int, p: int|
        0 <= l < PLANE_COUNT && 0 <= p < d.planes[l].len() && #[trigger] d.planes[l][p] == 1
            && s.result(d).planes[l][p] == 0 {
        let (l, p) = choose|l: int, p: int|
            0 <= l < PLANE_COUNT && 0 <= p < d.planes[l].len() && #[trigger] d.planes[l][p] == 1
                && s.result(d).planes[l][p] == 0;
        assert(s.covers(d, l, p));
        assert(s.collides(d));
    }
}

/// The display operations keep the planes' sizes, and keep pixels 0 or 1.
pub proof fn law_display_ops_keep_shape(d: DisplayState, amount: nat, r: DisplayResolution, mask: usize)
    requires
        d.wf(),
    ensures
        d.scrolled_left(amount).wf(),
        d.scrolled_right(amount).wf(),
        d.scrolled_up(amount).wf(),
        d.scrolled_down(amount).wf(),
        d.with_resolution(r).wf(),
        d.map_active(|px: Seq<u8>| blank(res_size(d.resolution))).wf(),
        (DisplayState { active_plane: mask, ..d }).wf(),
        d.binary() ==> d.scrolled_left(amount).binary(),
        d.binary() ==> d.scrolled_right(amount).binary(),
        d.binary() ==> d.scrolled_up(amount).binary(),
        d.binary() ==> d.scrolled_down(amount).binary(),
        d.with_resolution(r).binary(),
        d.binary() ==> d.map_active(|px: Seq<u8>| blank(res_size(d.resolution))).binary(),
        d.binary() ==> (DisplayState { active_plane: mask, ..d }).binary(),
{
    if d.binary() {
        let w = d.width() as int;
        let shift = (d.width() * amount) as int;
        let a = d.scrolled_left(amount);
        assert forall|l: int, i: int| 0 <= l < a.planes.len() && 0 <= i < a.planes[l].len() implies #[trigger] a.planes[l][i] <= 1 by {
            if i % w + amount < w {
                crate::display::lemma_stays_in_plane(i, amount as int, w, a.planes[l].len() as int, d.resolution);
                assert(d.planes[l][i + amount] <= 1);
            }
        }
        let b = d.scrolled_right(amount);
        assert forall|l: int, i: int| 0 <= l < b.planes.len() && 0 <= i < b.planes[l].len() implies #[trigger] b.planes[l][i] <= 1 by {
            if i % w >= amount {
                crate::display::lemma_mod_le(i, w);
                assert(d.planes[l][i - amount] <= 1);
            }
        }
        let c = d.scrolled_up(amount);
        assert forall|l: int, i: int| 0 <= l < c.planes.len() && 0 <= i < c.planes[l].len() implies #[trigger] c.planes[l][i] <= 1 by {
            if i + shift < d.planes[l].len() {
                assert(d.planes[l][i + shift] <= 1);
            }
        }
        let e = d.scrolled_down(amount);
        assert forall|l: int, i: int| 0 <= l < e.planes.len() && 0 <= i < e.planes[l].len() implies #[trigger] e.planes[l][i] <= 1 by {
            if i >= shift {
                assert(d.planes[l][i - shift] <= 1);
            }
        }
        let f = d.map_active(|px: Seq<u8>| blank(res_size(d.resolution)));
        assert forall|l: int, i: int| 0 <= l < f.planes.len() && 0 <= i < f.planes[l].len() implies #[trigger] f.planes[l][i] <= 1 by {
            if !crate::display::plane_active(d.active_plane, l) {
                assert(d.planes[l][i] <= 1);
            }
        }
        let g = DisplayState { active_plane: mask, ..d };
        assert forall|l: int, i: int| 0 <= l < g.planes.len() && 0 <= i < g.planes[l].len() implies #[trigger] g.planes[l][i] <= 1 by {
            assert(d.planes[l][i] <= 1);
        }
    }
}

/// Every message that an instruction produces leaves a wait, when it
/// starts one, on a register.
proof fn lemma_execute_waits(op: u16, m: Machine, q: Quirks, keys: Seq<u8>, font_len: nat, random: u8)
    ensures
        ({
            let msgs = execute(op, m, q, keys, font_len, random).1;
            &&& msgs.len() <= 1
            &&& msgs.len() == 1 && msgs[0] is WaitingForKey ==> msgs[0] == DeviceMessage::WaitingForKey(Some(op_x(op) as usize))
            &&& op_x(op) < 16
        }),
{
}

/// A step that can be carried out keeps the machine well formed: sixteen
/// registers, sixteen saved registers, a wait on a register, 64 KiB of
/// memory, two planes of the resolution's size. It also keeps every pixel
/// 0 or 1.
pub proof fn law_step_keeps_machine_shape(m: Machine, q: Quirks, keys: Seq<u8>, font_len: nat, random: u8)
    requires
        m.wf(),
        crate::isa::step_ok(m, q, keys),
    ensures
        step(m, q, keys, font_len, random).0.wf(),
        m.display.binary() ==> step(m, q, keys, font_len, random).0.display.binary(),
{
    let c = m.cpu;
    match c.waiting {
        Some(w) => {},
        None => {
            let op = m.word_at(c.pc as int);
            let m1 = m.with_pc(c.pc + 2);
            let r = execute(op, m1, q, keys, font_len, random);
            lemma_execute_keeps_shape(op, m1, q, keys, font_len, random);
            lemma_execute_waits(op, m1, q, keys, font_len, random);
            let w = wait_after(r.0.cpu.waiting, r.1);
            if r.1.len() == 1 {
                assert(r.1.drop_last() =~= Seq::<DeviceMessage>::empty());
                assert(wait_after(r.0.cpu.waiting, r.1.drop_last()) == r.0.cpu.waiting);
                assert(w == wait_for(r.0.cpu.waiting, r.1[0]));
            } else {
                assert(r.1.len() == 0);
            }
        },
    }
}

/// Executing an instruction keeps the machine well formed and the pixels 0 or 1.
proof fn lemma_execute_keeps_shape(op: u16, m: Machine, q: Quirks, keys: Seq<u8>, font_len: nat, random: u8)
    requires
        m.wf(),
        execute_ok(op, m, q, keys),
    ensures
        execute(op, m, q, keys, font_len, random).0.wf(),
        m.display.binary() ==> execute(op, m, q, keys, font_len, random).0.display.binary(),
{
    let d = m.display;
    law_display_ops_keep_shape(d, crate::isa::op_n(op) as nat, DisplayResolution::Low, (op_x(op) as usize) & 3);
    law_display_ops_keep_shape(d, 4, DisplayResolution::Low, 0);
    law_display_ops_keep_shape(d, 0, DisplayResolution::High, 0);
    let kind = op_kind(op);
    let r = execute(op, m, q, keys, font_len, random).0;
    if kind == 0 {
        assert(r.wf());
    } else if kind == 8 {
        assert(r.wf());
    } else if kind == 0xF {
        assert(r.cpu.wf());
        assert(r.memory.len() == m.memory.len());
        assert(r.display.wf());
    } else if kind == 5 {
        assert(r.wf());
    } else if kind == 0xE {
        assert(r.wf());
    }
    if kind == 0xD {
        let s = SpriteDraw {
            memory: m.memory,
            index: m.cpu.index as int,
            x: m.reg(op_x(op)) as nat,
            y: m.reg(op_y(op)) as nat,
            height: op_n(op) as nat,
            clip: q.clip_sprites,
        };
        assert(s.result(d).wf());
        if d.binary() {
            law_draw_twice(s, d);
        }
    }
}


/// A call (`2NNN`) jumps to NNN and pushes the return address; a return
/// (`00EE`) right after it comes back to that address with the stack as it
/// was before the call.
pub proof fn law_call_then_return(call: u16, m: Machine, q: Quirks, keys: Seq<u8>, font_len: nat, random: u8)
    requires
        op_kind(call) == 2,
    ensures
        ({
            let m1 = execute(call, m, q, keys, font_len, random).0;
            let m2 = execute(0x00EEu16, m1, q, keys, font_len, random).0;
            &&& m1.cpu.pc == op_nnn(call)
            &&& m1.stack == m.stack.push(m.cpu.pc)
            &&& m2.cpu.pc == m.cpu.pc
            &&& m2.stack == m.stack
        }),
{
    let m1 = execute(call, m, q, keys, font_len, random).0;
    assert(op_kind(0x00EEu16) == 0 && op_x(0x00EEu16) == 0 && op_y(0x00EEu16) == 0xE && op_n(0x00EEu16) == 0xE);
    assert(m1.stack.drop_last() =~= m.stack);
}

/// `FX33` stores the decimal digits of VX at I, I+1 and I+2, hundreds first.
pub proof fn law_bcd_digits(op: u16, m: Machine, q: Quirks, keys: Seq<u8>, font_len: nat, random: u8)
    requires
        m.wf(),
        op_kind(op) == 0xF,
        op_nn(op) == 0x33,
        execute_ok(op, m, q, keys),
    ensures
        ({
            let mem = execute(op, m, q, keys, font_len, random).0.memory;
            let i = m.cpu.index as int;
            &&& mem[i] < 10 && mem[i + 1] < 10 && mem[i + 2] < 10
            &&& mem[i] * 100 + mem[i + 1] * 10 + mem[i + 2] == m.reg(op_x(op))
        }),
{
    let v = m.reg(op_x(op)) as int;
    assert(op_x(op) != 0 || op_nn(op) != 0);
    assert((v / 100) * 100 + ((v / 10) % 10) * 10 + v % 10 == v) by (nonlinear_arith)
        requires
            0 <= v < 256,
    ;
}

/// With the index left in place, `FX65` after `FX55` (same X) loads back the
/// registers it stored: the registers and the memory are as `FX55` left them.
pub proof fn law_store_then_load(store_op: u16, load_op: u16, m: Machine, q: Quirks, keys: Seq<u8>, font_len: nat, random: u8)
    requires
        m.wf(),
        !q.i_incremented,
        op_kind(store_op) == 0xF && op_nn(store_op) == 0x55,
        op_kind(load_op) == 0xF && op_nn(load_op) == 0x65,
        op_x(store_op) == op_x(load_op),
        execute_ok(store_op, m, q, keys),
    ensures
        ({
            let m1 = execute(store_op, m, q, keys, font_len, random).0;
            let m2 = execute(load_op, m1, q, keys, font_len, random).0;
            &&& m2.cpu.registers == m.cpu.registers
            &&& m2.memory == m1.memory
            &&& m2.cpu.index == m.cpu.index
        }),
{
    let m1 = execute(store_op, m, q, keys, font_len, random).0;
    let m2 = execute(load_op, m1, q, keys, font_len, random).0;
    let x = op_x(store_op);
    let i = m.cpu.index as int;
    assert(x != 0 || op_nn(store_op) != 0);
    assert(x != 0 || op_nn(load_op) != 0);
    assert forall|k: int| 0 <= k < 16 implies #[trigger] m2.cpu.registers[k] == m.cpu.registers[k] by {
        if k <= x {
            assert(m1.memory[i + k] == m.reg(k));
        }
    }
    assert(m2.cpu.registers =~= m.cpu.registers);
}

/// `FX85` after `FX75` (same X) restores registers V0 to VX as they were
/// saved, and leaves the others alone: every register is back.
pub proof fn law_save_then_restore(save_op: u16, restore_op: u16, m: Machine, q: Quirks, keys: Seq<u8>, font_len: nat, random: u8)
    requires
        m.wf(),
        op_kind(save_op) == 0xF && op_nn(save_op) == 0x75,
        op_kind(restore_op) == 0xF && op_nn(restore_op) == 0x85,
        op_x(save_op) == op_x(restore_op),
    ensures
        execute(restore_op, execute(save_op, m, q, keys, font_len, random).0, q, keys, font_len, random).0.cpu.registers
            == m.cpu.registers,
{
    let m1 = execute(save_op, m, q, keys, font_len, random).0;
    let m2 = execute(restore_op, m1, q, keys, font_len, random).0;
    assert(op_x(save_op) != 0 || op_nn(save_op) != 0);
    assert(op_x(restore_op) != 0 || op_nn(restore_op) != 0);
    assert(m2.cpu.registers =~= m.cpu.registers);
}

/// `8XY4` (X not VF) adds with carry: the new VX plus 256 times the carry
/// flag is the sum of the old VX and VY.
pub proof fn law_add_with_carry(op: u16, m: Machine, q: Quirks, keys: Seq<u8>, font_len: nat, random: u8)
    requires
        m.wf(),
        op_kind(op) == 8,
        op_n(op) == 4,
        op_x(op) != 15,
    ensures
        ({
            let r = execute(op, m, q, keys, font_len, random).0;
            r.reg(op_x(op)) + 256 * r.reg(15) == m.reg(op_x(op)) + m.reg(op_y(op))
        }),
{
    let x = op_x(op);
    let vx = m.reg(x) as int;
    let vy = m.reg(op_y(op)) as int;
    lemma_byte_sum(vx, vy);
    assert(execute(op, m, q, keys, font_len, random) == crate::isa::exec_alu(op, m, q));
}

/// A sum taken modulo 256, for bytes.
proof fn lemma_byte_sum(a: int, b: int)
    requires
        0 <= a < 256,
        0 <= b < 256,
    ensures
        (a + b) % 256 == (if a + b > 255 { a + b - 256 } else { a + b }),
{
    if a + b > 255 {
        vstd::arithmetic::div_mod::lemma_mod_sub_multiples_vanish(a + b, 256);
        vstd::arithmetic::div_mod::lemma_small_mod((a + b - 256) as nat, 256);
    } else {
        vstd::arithmetic::div_mod::lemma_small_mod((a + b) as nat, 256);
    }
}

/// A difference taken modulo 256, for bytes.
proof fn lemma_byte_difference(a: int, b: int)
    requires
        0 <= a < 256,
        0 <= b < 256,
    ensures
        (a - b + 256) % 256 == (if a >= b { a - b } else { a - b + 256 }),
{
    if a >= b {
        vstd::arithmetic::div_mod::lemma_mod_add_multiples_vanish(a - b, 256);
        vstd::arithmetic::div_mod::lemma_small_mod((a - b) as nat, 256);
    } else {
        vstd::arithmetic::div_mod::lemma_small_mod((a - b + 256) as nat, 256);
    }
}

/// `8XY5` (X not VF) subtracts with borrow: the new VX is the old VX minus
/// VY, plus 256 when the flag says a borrow happened (flag 0).
pub proof fn law_sub_with_borrow(op: u16, m: Machine, q: Quirks, keys: Seq<u8>, font_len: nat, random: u8)
    requires
        m.wf(),
        op_kind(op) == 8,
        op_n(op) == 5,
        op_x(op) != 15,
    ensures
        ({
            let r = execute(op, m, q, keys, font_len, random).0;
            r.reg(op_x(op)) == m.reg(op_x(op)) - m.reg(op_y(op)) + 256 * (1 - r.reg(15))
        }),
{
    let x = op_x(op);
    let vx = m.reg(x) as int;
    let vy = m.reg(op_y(op)) as int;
    lemma_byte_difference(vx, vy);
    assert(execute(op, m, q, keys, font_len, random) == crate::isa::exec_alu(op, m, q));
}

/// `3XNN` skips the next instruction exactly when VX equals NN, and `4XNN`
/// exactly when it does not; nothing else changes.
pub proof fn law_skip_on_equal(op: u16, m: Machine, q: Quirks, keys: Seq<u8>, font_len: nat, random: u8)
    requires
        op_kind(op) == 3 || op_kind(op) == 4,
    ensures
        ({
            let r = execute(op, m, q, keys, font_len, random).0;
            let equal = m.reg(op_x(op)) == op_nn(op);
            let skips = if op_kind(op) == 3 { equal } else { !equal };
            r == (if skips { m.skipped() } else { m })
        }),
{
}


/// Converting a key's index back into a key gives the key.
pub proof fn law_key_index_round_trip(key: KeypadKey)
    ensures
        key_from_index(key_value(key) as usize) == key,
{
}

/// Converting any index into a key gives the key of that value, where
/// indices from 15 up give `F`.
pub proof fn law_key_from_index_clamps(value: usize)
    ensures
        key_value(key_from_index(value)) == (if value >= 15 { 15 } else { value as nat }),
{
}

/// The keypad order lists every key exactly once.
pub proof fn law_keypad_order_lists_each_key_once(key: KeypadKey)
    ensures
        keypad_order().len() == 16,
        exists|i: int| 0 <= i < 16 && #[trigger] keypad_order()[i] == key,
        forall|i: int, j: int| 0 <= i < j < 16 ==> #[trigger] keypad_order()[i] != #[trigger] keypad_order()[j],
{
    assert(keypad_order()[key_position(key)] == key);
}

/// The position of a key in the keypad order.
spec fn key_position(key: KeypadKey) -> int {
    match key {
        KeypadKey::Num1 => 0,
        KeypadKey::Num2 => 1,
        KeypadKey::Num3 => 2,
        KeypadKey::C => 3,
        KeypadKey::Num4 => 4,
        KeypadKey::Num5 => 5,
        KeypadKey::Num6 => 6,
        KeypadKey::D => 7,
        KeypadKey::Num7 => 8,
        KeypadKey::Num8 => 9,
        KeypadKey::Num9 => 10,
        KeypadKey::E => 11,
        KeypadKey::A => 12,
        KeypadKey::Num0 => 13,
        KeypadKey::B => 14,
        KeypadKey::F => 15,
    }
}

/// On the QWERTY layout the host keys 1234 / QWER / ASDF / ZXCV, the first
/// sixteen keys polled, press the keypad's keys in the keypad's own layout
/// (123C / 456D / 789E / A0BF), position for position.
pub proof fn law_qwerty_grid_is_keypad_grid(i: int)
    requires
        0 <= i < 16,
    ensures
        qwerty_key(keyboard_order()[i]) == Some(keypad_order()[i]),
{
}

/// On the QWERTY layout, a stand-in key (an arrow or the space bar) presses
/// the same keypad key as the letter that it replaces.
pub proof fn law_stand_in_keys_match_their_letters(i: int)
    requires
        0 <= i < keyboard_order().len(),
        extra_key(keyboard_order()[i]),
    ensures
        regular_key(keyboard_order()[i]) matches Some(r) && qwerty_key(keyboard_order()[i]) == qwerty_key(r),
{
}

/// After a key's state is set, reading that key gives the state set, and
/// every other key reads as before.
pub proof fn law_key_read_after_write(state: Seq<u8>, key: KeypadKey, pressed: bool, other: KeypadKey)
    requires
        state.len() == 16,
    ensures
        ({
            let after = state.update(key_value(key) as int, if pressed { 1u8 } else { 0u8 });
            &&& (after[key_value(key) as int] == 1) == pressed
            &&& other != key ==> after[key_value(other) as int] == state[key_value(other) as int]
        }),
{
}

/// The quirks of each compatibility profile are recognised as that profile.
pub proof fn law_profile_quirks_round_trip(i: int)
    requires
        0 <= i < profiles().len(),
    ensures
        profile_key_from(profiles()[i].quirks, 0) == device_name_key(profiles()[i].device),
{
    reveal_with_fuel(profile_key_from, 4);
}

/// A file name with ".ch8" added is shown as the name itself.
pub proof fn law_rom_name_drops_extension(name: Seq<char>)
    ensures
        display_name(name + ".ch8"@) == name,
{
    reveal_strlit(".ch8");
    let file = name + ".ch8"@;
    assert(file.subrange(file.len() - 4, file.len() as int) =~= ".ch8"@);
    assert(file.subrange(0, file.len() - 4) =~= name);
}

/// Scrolling by nothing leaves the display as it is.
pub proof fn law_scroll_by_zero(d: DisplayState)
    requires
        d.wf(),
    ensures
        d.scrolled_left(0) == d,
        d.scrolled_right(0) == d,
        d.scrolled_up(0) == d,
        d.scrolled_down(0) == d,
{
    let w = d.width() as int;
    assert forall|l: int| 0 <= l < PLANE_COUNT implies #[trigger] d.scrolled_left(0).planes[l] =~= d.planes[l] by {
        assert forall|i: int| 0 <= i < d.planes[l].len() implies #[trigger] d.scrolled_left(0).planes[l][i] == d.planes[l][i] by {
            vstd::arithmetic::div_mod::lemma_mod_pos_bound(i, w);
        }
    }
    assert(d.scrolled_left(0).planes =~= d.planes);
    assert forall|l: int| 0 <= l < PLANE_COUNT implies #[trigger] d.scrolled_right(0).planes[l] =~= d.planes[l] by {
        assert forall|i: int| 0 <= i < d.planes[l].len() implies #[trigger] d.scrolled_right(0).planes[l][i] == d.planes[l][i] by {
            vstd::arithmetic::div_mod::lemma_mod_pos_bound(i, w);
        }
    }
    assert(d.scrolled_right(0).planes =~= d.planes);
    assert(d.width() * 0 == 0);
    assert forall|l: int| 0 <= l < PLANE_COUNT implies #[trigger] d.scrolled_up(0).planes[l] =~= d.planes[l] by {}
    assert(d.scrolled_up(0).planes =~= d.planes);
    assert forall|l: int| 0 <= l < PLANE_COUNT implies #[trigger] d.scrolled_down(0).planes[l] =~= d.planes[l] by {}
    assert(d.scrolled_down(0).planes =~= d.planes);
}

/// Resetting twice is resetting once, except that the sound output is asked
/// to stop a second time.
pub proof fn law_reset_twice(s: DeviceState)
    ensures
        reset(reset(s)) == (DeviceState { requests: reset(s).requests.push(AudioRequest::Stop), ..reset(s) }),
{
    assert(reset(reset(s)).machine =~= reset(s).machine);
}

/// A stopped device does nothing in a frame and reports nothing.
pub proof fn law_stopped_device_is_idle(s: DeviceState, randoms: Seq<u8>)
    requires
        !s.running,
    ensures
        frame(s, randoms) == (s, Seq::<DeviceMessage>::empty()),
{
}

/// The power-on device is well formed and its pixels are 0 or 1.
pub proof fn law_default_device_shape()
    ensures
        default_device().wf(),
        default_device().machine.display.binary(),
{
    let d = default_device();
    assert(d.machine.cpu.wf());
    assert(d.machine.memory.len() == crate::memory::MAX_MEMORY);
}

/// Acting on a message keeps the device well formed and its pixels 0 or 1.
proof fn lemma_handle_keeps_shape(s: DeviceState, msg: DeviceMessage)
    requires
        s.wf(),
        s.machine.display.binary(),
    ensures
        handle(s, msg).wf(),
        handle(s, msg).machine.display.binary(),
{
    law_default_device_shape();
    match msg {
        DeviceMessage::ChangeResolution(r) => {
            law_display_ops_keep_shape(s.machine.display, 0, r, 0);
        },
        DeviceMessage::Exit => {
            let t = reset(s);
            assert(t.machine.memory.len() == crate::memory::MAX_MEMORY);
        },
        _ => {},
    }
}

/// Acting on messages keeps the device well formed and its pixels 0 or 1.
proof fn lemma_handle_all_keeps_shape(s: DeviceState, msgs: Seq<DeviceMessage>)
    requires
        s.wf(),
        s.machine.display.binary(),
    ensures
        handle_all(s, msgs).wf(),
        handle_all(s, msgs).machine.display.binary(),
    decreases msgs.len(),
{
    if msgs.len() > 0 {
        lemma_handle_all_keeps_shape(s, msgs.drop_last());
        lemma_handle_keeps_shape(handle_all(s, msgs.drop_last()), msgs.last());
    }
}

/// CPU steps keep the device well formed and its pixels 0 or 1.
proof fn lemma_run_keeps_shape(s: DeviceState, randoms: Seq<u8>)
    requires
        s.wf(),
        s.machine.display.binary(),
    ensures
        run(s, randoms).0.wf(),
        run(s, randoms).0.machine.display.binary(),
    decreases randoms.len(),
{
    if randoms.len() > 0 {
        lemma_run_keeps_shape(s, randoms.drop_last());
        let s1 = run(s, randoms.drop_last()).0;
        if s1.running && crate::isa::step_ok(s1.machine, s1.quirks, s1.keys) {
            law_step_keeps_machine_shape(s1.machine, s1.quirks, s1.keys, s1.font_len(), randoms.last());
        }
    }
}

/// A frame keeps the device well formed and keeps every pixel 0 or 1.
pub proof fn law_frame_keeps_device_shape(s: DeviceState, randoms: Seq<u8>)
    requires
        s.wf(),
        s.machine.display.binary(),
    ensures
        frame(s, randoms).0.wf(),
        frame(s, randoms).0.machine.display.binary(),
{
    if s.running {
        let t = tick_timers(s);
        assert(t.wf());
        lemma_run_keeps_shape(t, randoms);
        lemma_handle_all_keeps_shape(run(t, randoms).0, run(t, randoms).1);
    } else {
        lemma_handle_all_keeps_shape(s, Seq::empty());
    }
}

/// Unsubscribing drops the listener from the event's listeners (the list
/// that `unsubscribe` leaves: every entry not equal to it, in order): it no
/// longer appears, and every other listener of the event still does.
pub proof fn law_unsubscribe_drops_listener<L>(listeners: Seq<L>, listener: L)
    ensures
        !listeners.filter(|l: L| l != listener).contains(listener),
        forall|i: int| 0 <= i < listeners.len() && listeners[i] != listener
            ==> listeners.filter(|l: L| l != listener).contains(#[trigger] listeners[i]),
{
    let pred = |l: L| l != listener;
    let kept = listeners.filter(pred);
    if kept.contains(listener) {
        let k = choose|k: int| 0 <= k < kept.len() && kept[k] == listener;
        listeners.lemma_filter_pred(pred, k);
    }
    assert forall|i: int| 0 <= i < listeners.len() && listeners[i] != listener implies kept.contains(#[trigger] listeners[i]) by {
        listeners.lemma_filter_contains(pred, i);
    }
}

/// Unsubscribing a listener undoes subscribing it: the listeners that
/// `subscribe` leaves (the listener added twice at the end), once the
/// listener is unsubscribed, are those that unsubscribing alone leaves.
pub proof fn law_unsubscribe_undoes_subscribe<L>(listeners: Seq<L>, listener: L)
    ensures
        listeners.push(listener).push(listener).filter(|l: L| l != listener)
            == listeners.filter(|l: L| l != listener),
{
    reveal_with_fuel(Seq::<_>::filter, 2);
    assert(listeners.push(listener).push(listener).drop_last() =~= listeners.push(listener));
    assert(listeners.push(listener).drop_last() =~= listeners);
}

/// Every host key that is polled presses some CHIP-8 key on both layouts,
/// so applying the keyboard never meets a key without a CHIP-8 key.
pub proof fn law_polled_keys_are_mapped(i: int)
    requires
        0 <= i < keyboard_order().len(),
    ensures
        qwerty_key(keyboard_order()[i]) is Some,
        azerty_key(keyboard_order()[i]) is Some,
{
}

/// On the QWERTY layout, applying the keyboard leaves a CHIP-8 key pressed
/// exactly when some host key that presses it is down.
pub proof fn law_qwerty_key_pressed_iff_a_host_key_is_down(down: Seq<InputKey>, state: Seq<u8>, pad: KeypadKey)
    requires
        state.len() == 16,
    ensures
        polled(KeyMapping::Qwerty, down, state, keyboard_order().len())[key_value(pad) as int]
            == (if exists|k: InputKey| #[trigger] qwerty_key(k) == Some(pad) && down.contains(k) { 1u8 } else { 0u8 }),
{
    lemma_qwerty_polled(down, state);
    lemma_last_presser(down, pad);
}

/// The state byte for whether a polled key is held.
spec fn bit(down: Seq<InputKey>, key: InputKey) -> u8 {
    if crate::input::held(down, key) { 1u8 } else { 0u8 }
}

/// The last host key in polling order that presses `pad` on QWERTY.
spec fn last_presser(pad: KeypadKey) -> InputKey {
    match pad {
        KeypadKey::Num1 => InputKey::Num1,
        KeypadKey::Num2 => InputKey::Num2,
        KeypadKey::Num3 => InputKey::Num3,
        KeypadKey::C => InputKey::Num4,
        KeypadKey::Num4 => InputKey::Q,
        KeypadKey::Num5 => InputKey::ArrowUp,
        KeypadKey::Num6 => InputKey::Space,
        KeypadKey::D => InputKey::R,
        KeypadKey::Num7 => InputKey::ArrowLeft,
        KeypadKey::Num8 => InputKey::ArrowDown,
        KeypadKey::Num9 => InputKey::ArrowRight,
        KeypadKey::E => InputKey::F,
        KeypadKey::A => InputKey::Z,
        KeypadKey::Num0 => InputKey::X,
        KeypadKey::B => InputKey::C,
        KeypadKey::F => InputKey::V,
    }
}

/// After polling every key on QWERTY, each CHIP-8 key holds whether the
/// last host key that presses it is held.
proof fn lemma_qwerty_polled(down: Seq<InputKey>, state: Seq<u8>)
    requires
        state.len() == 16,
    ensures
        forall|pad: KeypadKey| #[trigger] polled(KeyMapping::Qwerty, down, state, 21)[key_value(pad) as int]
            == bit(down, last_presser(pad)),
{
    let q = KeyMapping::Qwerty;
    let o = keyboard_order();
    let s0 = state;
    let s1 = s0.update(1, bit(down, InputKey::Num1));
    let s2 = s1.update(2, bit(down, InputKey::Num2));
    let s3 = s2.update(3, bit(down, InputKey::Num3));
    let s4 = s3.update(12, bit(down, InputKey::Num4));
    let s5 = s4.update(4, bit(down, InputKey::Q));
    let s6 = s5.update(5, bit(down, InputKey::W));
    let s7 = s6.update(6, bit(down, InputKey::E));
    let s8 = s7.update(13, bit(down, InputKey::R));
    let s9 = s8.update(7, bit(down, InputKey::A));
    let s10 = s9.update(8, bit(down, InputKey::S));
    let s11 = s10.update(9, bit(down, InputKey::D));
    let s12 = s11.update(14, bit(down, InputKey::F));
    let s13 = s12.update(10, bit(down, InputKey::Z));
    let s14 = s13.update(0, bit(down, InputKey::X));
    let s15 = s14.update(11, bit(down, InputKey::C));
    let s16 = s15.update(15, bit(down, InputKey::V));
    let s17 = s16.update(5, bit(down, InputKey::ArrowUp));
    let s18 = s17.update(8, bit(down, InputKey::ArrowDown));
    let s19 = s18.update(7, bit(down, InputKey::ArrowLeft));
    let s20 = s19.update(9, bit(down, InputKey::ArrowRight));
    let s21 = s20.update(6, bit(down, InputKey::Space));
    assert(o[0] == InputKey::Num1);
    assert(o[1] == InputKey::Num2);
    assert(o[2] == InputKey::Num3);
    assert(o[3] == InputKey::Num4);
    assert(o[4] == InputKey::Q);
    assert(o[5] == InputKey::W);
    assert(o[6] == InputKey::E);
    assert(o[7] == InputKey::R);
    assert(o[8] == InputKey::A);
    assert(o[9] == InputKey::S);
    assert(o[10] == InputKey::D);
    assert(o[11] == InputKey::F);
    assert(o[12] == InputKey::Z);
    assert(o[13] == InputKey::X);
    assert(o[14] == InputKey::C);
    assert(o[15] == InputKey::V);
    assert(o[16] == InputKey::ArrowUp);
    assert(o[17] == InputKey::ArrowDown);
    assert(o[18] == InputKey::ArrowLeft);
    assert(o[19] == InputKey::ArrowRight);
    assert(o[20] == InputKey::Space);
    assert(polled(q, down, state, 0) == s0);
    assert(polled(q, down, state, 1) == s1);
    assert(polled(q, down, state, 2) == s2);
    assert(polled(q, down, state, 3) == s3);
    assert(polled(q, down, state, 4) == s4);
    assert(polled(q, down, state, 5) == s5);
    assert(polled(q, down, state, 6) == s6);
    assert(polled(q, down, state, 7) == s7);
    assert(polled(q, down, state, 8) == s8);
    assert(polled(q, down, state, 9) == s9);
    assert(polled(q, down, state, 10) == s10);
    assert(polled(q, down, state, 11) == s11);
    assert(polled(q, down, state, 12) == s12);
    assert(polled(q, down, state, 13) == s13);
    assert(polled(q, down, state, 14) == s14);
    assert(polled(q, down, state, 15) == s15);
    assert(polled(q, down, state, 16) == s16);
    assert(polled(q, down, state, 17) == s17);
    assert(polled(q, down, state, 18) == s18);
    assert(polled(q, down, state, 19) == s19);
    assert(polled(q, down, state, 20) == s20);
    assert(polled(q, down, state, 21) == s21);
    assert forall|pad: KeypadKey| #[trigger] polled(q, down, state, 21)[key_value(pad) as int] == bit(down, last_presser(pad)) by {
        match pad {
            KeypadKey::Num0 => assert(s21[0] == bit(down, last_presser(pad))),
            KeypadKey::Num1 => assert(s21[1] == bit(down, last_presser(pad))),
            KeypadKey::Num2 => assert(s21[2] == bit(down, last_presser(pad))),
            KeypadKey::Num3 => assert(s21[3] == bit(down, last_presser(pad))),
            KeypadKey::Num4 => assert(s21[4] == bit(down, last_presser(pad))),
            KeypadKey::Num5 => assert(s21[5] == bit(down, last_presser(pad))),
            KeypadKey::Num6 => assert(s21[6] == bit(down, last_presser(pad))),
            KeypadKey::Num7 => assert(s21[7] == bit(down, last_presser(pad))),
            KeypadKey::Num8 => assert(s21[8] == bit(down, last_presser(pad))),
            KeypadKey::Num9 => assert(s21[9] == bit(down, last_presser(pad))),
            KeypadKey::A => assert(s21[10] == bit(down, last_presser(pad))),
            KeypadKey::B => assert(s21[11] == bit(down, last_presser(pad))),
            KeypadKey::C => assert(s21[12] == bit(down, last_presser(pad))),
            KeypadKey::D => assert(s21[13] == bit(down, last_presser(pad))),
            KeypadKey::E => assert(s21[14] == bit(down, last_presser(pad))),
            KeypadKey::F => assert(s21[15] == bit(down, last_presser(pad))),
        }
    }
}

/// Some host key that presses `pad` on QWERTY is down exactly when the
/// last one in polling order is held.
proof fn lemma_last_presser(down: Seq<InputKey>, pad: KeypadKey)
    ensures
        (exists|k: InputKey| #[trigger] qwerty_key(k) == Some(pad) && down.contains(k))
            == crate::input::held(down, last_presser(pad)),
{
    let l = last_presser(pad);
    if exists|k: InputKey| #[trigger] qwerty_key(k) == Some(pad) && down.contains(k) {
        let k = choose|k: InputKey| #[trigger] qwerty_key(k) == Some(pad) && down.contains(k);
        assert(k == l || regular_key(l) == Some(k));
    }
    if down.contains(l) {
        assert(qwerty_key(l) == Some(pad));
    }
    match regular_key(l) {
        Some(r) => {
            if down.contains(r) {
                assert(qwerty_key(r) == Some(pad));
            }
        },
        None => {},
    }
}

/// A call on the display: `set_resolution`, `clear`, `set_plane_pixel`,
/// `set_active_plane` or one of the scrolls, with its arguments.
pub enum DisplayOp {
    SetResolution(DisplayResolution),
    Clear(usize),
    SetPlanePixel(usize, usize, usize),
    SetActivePlane(usize),
    ScrollLeft(u8),
    ScrollRight(u8),
    ScrollUp(u8),
    ScrollDown(u8),
}

/// Whether the call `op` meets its `requires` on a display in state `d`.
pub open spec fn display_op_ok(d: DisplayState, op: DisplayOp) -> bool {
    match op {
        DisplayOp::Clear(plane) => plane < d.planes.len(),
        DisplayOp::SetPlanePixel(plane, x, y) => plane < d.planes.len() && y * d.width() + x < d.planes[plane as int].len(),
        DisplayOp::ScrollLeft(p) => p <= d.width(),
        DisplayOp::ScrollUp(p) => p <= d.height(),
        _ => true,
    }
}

/// The display after the call `op`, as that call's `ensures` states it.
pub open spec fn display_op(d: DisplayState, op: DisplayOp) -> DisplayState {
    match op {
        DisplayOp::SetResolution(r) => d.with_resolution(r),
        DisplayOp::Clear(plane) => d.cleared(plane as int),
        DisplayOp::SetPlanePixel(plane, x, y) => d.toggled(plane as int, y * d.width() + x),
        DisplayOp::SetActivePlane(mask) => DisplayState { active_plane: mask & 3, ..d },
        DisplayOp::ScrollLeft(p) => d.scrolled_left(p as nat),
        DisplayOp::ScrollRight(p) => d.scrolled_right(p as nat),
        DisplayOp::ScrollUp(p) => d.scrolled_up(p as nat),
        DisplayOp::ScrollDown(p) => d.scrolled_down(p as nat),
    }
}

/// The display after the calls `ops`, in order.
pub open spec fn display_ops(d: DisplayState, ops: Seq<DisplayOp>) -> DisplayState
    decreases ops.len(),
{
    if ops.len() == 0 {
        d
    } else {
        display_op(display_ops(d, ops.drop_last()), ops.last())
    }
}

/// Whether each call of `ops` meets its `requires` when it is made.
pub open spec fn display_ops_ok(d: DisplayState, ops: Seq<DisplayOp>) -> bool
    decreases ops.len(),
{
    if ops.len() == 0 {
        true
    } else {
        display_ops_ok(d, ops.drop_last()) && display_op_ok(display_ops(d, ops.drop_last()), ops.last())
    }
}

/// One display call keeps two planes of the resolution's size with pixels
/// 0 or 1.
proof fn lemma_display_op_keeps_shape(d: DisplayState, op: DisplayOp)
    requires
        d.wf(),
        d.binary(),
        display_op_ok(d, op),
    ensures
        display_op(d, op).wf(),
        display_op(d, op).binary(),
{
    match op {
        DisplayOp::SetResolution(r) => law_display_ops_keep_shape(d, 0, r, 0),
        DisplayOp::Clear(plane) => {
            let c = d.cleared(plane as int);
            assert forall|l: int, i: int| 0 <= l < c.planes.len() && 0 <= i < c.planes[l].len() implies #[trigger] c.planes[l][i] <= 1 by {
                if l != plane as int {
                    assert(d.planes[l][i] <= 1);
                }
            }
        },
        DisplayOp::SetPlanePixel(plane, x, y) => law_toggle_twice(d, plane as int, y * d.width() + x),
        DisplayOp::SetActivePlane(mask) => law_display_ops_keep_shape(d, 0, d.resolution, mask & 3),
        DisplayOp::ScrollLeft(p) => law_display_ops_keep_shape(d, p as nat, d.resolution, 0),
        DisplayOp::ScrollRight(p) => law_display_ops_keep_shape(d, p as nat, d.resolution, 0),
        DisplayOp::ScrollUp(p) => law_display_ops_keep_shape(d, p as nat, d.resolution, 0),
        DisplayOp::ScrollDown(p) => law_display_ops_keep_shape(d, p as nat, d.resolution, 0),
    }
}

/// Every display reached from the default display by calls that meet their
/// `requires` has two planes of the resolution's size, with pixels 0 or 1.
pub proof fn law_reachable_display_shape(ops: Seq<DisplayOp>)
    requires
        display_ops_ok(crate::display::default_display(), ops),
    ensures
        display_ops(crate::display::default_display(), ops).wf(),
        display_ops(crate::display::default_display(), ops).binary(),
    decreases ops.len(),
{
    let d0 = crate::display::default_display();
    if ops.len() == 0 {
        assert(d0.planes[0].len() == SCREEN_SIZE_LOW);
    } else {
        law_reachable_display_shape(ops.drop_last());
        lemma_display_op_keeps_shape(display_ops(d0, ops.drop_last()), ops.last());
    }
}

/// Running `FX55` and then `FX65` (same X) as two steps, with the index left
/// in place and the stored bytes clear of the second instruction: the
/// second step can run, the registers and the index come back as they
/// were, V0 to VX sit in memory from I on, and the counter has passed both.
pub proof fn law_store_then_load_steps(m: Machine, q: Quirks, keys: Seq<u8>, font_len: nat, random: u8)
    requires
        m.wf(),
        m.cpu.waiting is None,
        !q.i_incremented,
        m.cpu.pc + 4 <= u16::MAX,
        op_kind(m.word_at(m.cpu.pc as int)) == 0xF && op_nn(m.word_at(m.cpu.pc as int)) == 0x55,
        op_kind(m.word_at(m.cpu.pc + 2)) == 0xF && op_nn(m.word_at(m.cpu.pc + 2)) == 0x65,
        op_x(m.word_at(m.cpu.pc as int)) == op_x(m.word_at(m.cpu.pc + 2)),
        step_ok(m, q, keys),
        m.cpu.index + op_x(m.word_at(m.cpu.pc as int)) < m.cpu.pc + 2 || m.cpu.index > m.cpu.pc + 3,
    ensures
        ({
            let m1 = step(m, q, keys, font_len, random).0;
            let m2 = step(m1, q, keys, font_len, random).0;
            let x = op_x(m.word_at(m.cpu.pc as int));
            &&& step_ok(m1, q, keys)
            &&& m2.cpu.registers == m.cpu.registers
            &&& m2.cpu.index == m.cpu.index
            &&& m2.cpu.pc == m.cpu.pc + 4
            &&& m2.memory == m1.memory
            &&& forall|k: int| 0 <= k <= x ==> #[trigger] m2.memory[m.cpu.index + k] == m.cpu.registers[k]
        }),
{
    let pc = m.cpu.pc as int;
    let store_op = m.word_at(pc);
    let load_op = m.word_at(pc + 2);
    let x = op_x(store_op);
    let i = m.cpu.index as int;
    let ma = m.with_pc(pc + 2);
    assert(decoded(store_op));
    assert(decoded(load_op));
    let r1 = execute(store_op, ma, q, keys, font_len, random);
    assert(r1.1 == Seq::<DeviceMessage>::empty());
    let m1 = step(m, q, keys, font_len, random).0;
    assert(m1 == r1.0);
    assert(m1.memory[pc + 2] == m.memory[pc + 2]);
    assert(m1.memory[pc + 3] == m.memory[pc + 3]);
    assert(m1.word_at(pc + 2) == load_op);
    let mb = m1.with_pc(pc + 4);
    let r2 = execute(load_op, mb, q, keys, font_len, random);
    assert(r2.1 == Seq::<DeviceMessage>::empty());
    let m2 = step(m1, q, keys, font_len, random).0;
    assert(m2 == r2.0);
    assert forall|k: int| 0 <= k < 16 implies #[trigger] m2.cpu.registers[k] == m.cpu.registers[k] by {
        if k <= x {
            assert(m1.memory[i + k] == m.reg(k));
        }
    }
    assert(m2.cpu.registers =~= m.cpu.registers);
}

/// `8XY0` copies VY into VX: VX takes the old value of VY and every other
/// register keeps its value; nothing else changes and nothing is reported.
pub proof fn law_copy_register(op: u16, m: Machine, q: Quirks, keys: Seq<u8>, font_len: nat, random: u8)
    requires
        m.wf(),
        op_kind(op) == 8,
        op_n(op) == 0,
    ensures
        ({
            let r = execute(op, m, q, keys, font_len, random);
            &&& r.0.cpu.registers == m.cpu.registers.update(op_x(op), m.cpu.registers[op_y(op)])
            &&& r.0.cpu.registers[op_x(op)] == m.cpu.registers[op_y(op)]
            &&& forall|k: int| 0 <= k < 16 && k != op_x(op) ==> #[trigger] r.0.cpu.registers[k] == m.cpu.registers[k]
            &&& r.0.memory == m.memory
            &&& r.0.display == m.display
            &&& r.0.stack == m.stack
            &&& r.0.cpu.pc == m.cpu.pc
            &&& r.0.cpu.index == m.cpu.index
            &&& r.1.len() == 0
        }),
{
    assert(decoded(op));
}

/// `6XNN` loads NN into VX and `7XNN` adds NN to VX modulo 256 without
/// touching VF; every other register keeps its value.
pub proof fn law_load_and_add_immediate(op: u16, m: Machine, q: Quirks, keys: Seq<u8>, font_len: nat, random: u8)
    requires
        m.wf(),
        op_kind(op) == 6 || op_kind(op) == 7,
    ensures
        ({
            let r = execute(op, m, q, keys, font_len, random);
            let x = op_x(op);
            &&& op_kind(op) == 6 ==> r.0.cpu.registers[x] == op_nn(op)
            &&& op_kind(op) == 7 ==> r.0.cpu.registers[x] == (m.cpu.registers[x] + op_nn(op)) % 256
            &&& forall|k: int| 0 <= k < 16 && k != x ==> #[trigger] r.0.cpu.registers[k] == m.cpu.registers[k]
            &&& r.0.cpu.registers.len() == 16
            &&& r.0.memory == m.memory
            &&& r.1.len() == 0
        }),
{
    assert(decoded(op));
}

/// `8XY1`, `8XY2` and `8XY3` put VX OR, AND, XOR VY into VX; VF is cleared
/// when the quirk asks for it (and X is not VF), and no other register
/// changes.
pub proof fn law_logic_operations(op: u16, m: Machine, q: Quirks, keys: Seq<u8>, font_len: nat, random: u8)
    requires
        m.wf(),
        op_kind(op) == 8,
        1 <= op_n(op) <= 3,
        op_x(op) != 15,
    ensures
        ({
            let r = execute(op, m, q, keys, font_len, random);
            let x = op_x(op);
            let vx = m.cpu.registers[x];
            let vy = m.cpu.registers[op_y(op)];
            &&& op_n(op) == 1 ==> r.0.cpu.registers[x] == (vx | vy)
            &&& op_n(op) == 2 ==> r.0.cpu.registers[x] == (vx & vy)
            &&& op_n(op) == 3 ==> r.0.cpu.registers[x] == (vx ^ vy)
            &&& r.0.cpu.registers[15] == (if q.vf_zero { 0 } else { m.cpu.registers[15] })
            &&& forall|k: int| 0 <= k < 15 && k != x ==> #[trigger] r.0.cpu.registers[k] == m.cpu.registers[k]
            &&& r.1.len() == 0
        }),
{
    assert(decoded(op));
}

/// `8XY6` and `8XYE` (X not VF) shift VY, or VX itself under the shift
/// quirk, one bit right or left into VX, and put the bit shifted out in VF.
pub proof fn law_shifts(op: u16, m: Machine, q: Quirks, keys: Seq<u8>, font_len: nat, random: u8)
    requires
        m.wf(),
        op_kind(op) == 8,
        op_n(op) == 6 || op_n(op) == 0xE,
        op_x(op) != 15,
    ensures
        ({
            let r = execute(op, m, q, keys, font_len, random);
            let x = op_x(op);
            let v = if q.vx_shifted_directly { m.cpu.registers[x] } else { m.cpu.registers[op_y(op)] };
            &&& op_n(op) == 6 ==> r.0.cpu.registers[x] * 2 + r.0.cpu.registers[15] == v
            &&& op_n(op) == 0xE ==> r.0.cpu.registers[15] * 256 + r.0.cpu.registers[x] == v * 2
            &&& r.0.cpu.registers[15] <= 1
            &&& forall|k: int| 0 <= k < 15 && k != x ==> #[trigger] r.0.cpu.registers[k] == m.cpu.registers[k]
        }),
{
    assert(decoded(op));
    let x = op_x(op);
    let v: int = if q.vx_shifted_directly { m.cpu.registers[x] as int } else { m.cpu.registers[op_y(op)] as int };
    let r = execute(op, m, q, keys, font_len, random);
    if op_n(op) == 6 {
        assert(r.0 == m.set_reg(x, v / 2).set_reg(15, v % 2));
        assert((v / 2) * 2 + v % 2 == v);
    } else {
        assert(r.0 == m.set_reg(x, (v * 2) % 256).set_reg(15, v / 128));
        assert((v / 128) * 256 + (v * 2) % 256 == v * 2) by (nonlinear_arith)
            requires
                0 <= v < 256,
        ;
    }
}

/// At the start of a frame the delay timer counts down by one, staying at
/// 0, and so does the sound timer; the registers, memory and display are
/// untouched.
pub proof fn law_timers_count_down(s: DeviceState)
    ensures
        ({
            let t = tick_timers(s);
            let c = s.machine.cpu;
            &&& t.machine.cpu.delay == (if c.delay > 0 { c.delay - 1 } else { 0 })
            &&& t.machine.cpu.sound == (if c.sound > 0 { c.sound - 1 } else { 0 })
            &&& t.machine.cpu.registers == c.registers
            &&& t.machine.cpu.pc == c.pc
            &&& t.machine.memory == s.machine.memory
            &&& t.machine.display == s.machine.display
        }),
{
}

/// On the AZERTY layout the host keys 1234 / AZER / QSDF / WXCV press the
/// keypad's keys in the keypad's own layout (123C / 456D / 789E / A0BF),
/// position for position.
pub proof fn law_azerty_grid_is_keypad_grid(i: int)
    requires
        0 <= i < 16,
    ensures
        azerty_key(seq![
            InputKey::Num1, InputKey::Num2, InputKey::Num3, InputKey::Num4,
            InputKey::A, InputKey::Z, InputKey::E, InputKey::R,
            InputKey::Q, InputKey::S, InputKey::D, InputKey::F,
            InputKey::W, InputKey::X, InputKey::C, InputKey::V,
        ][i]) == Some(keypad_order()[i]),
{
}

/// On the QWERTY layout the host keys 1234 / QWER / ASDF / ZXCV press the
/// keypad's keys in the keypad's own layout, position for position.
pub proof fn law_qwerty_rows_are_keypad_rows(i: int)
    requires
        0 <= i < 16,
    ensures
        qwerty_key(seq![
            InputKey::Num1, InputKey::Num2, InputKey::Num3, InputKey::Num4,
            InputKey::Q, InputKey::W, InputKey::E, InputKey::R,
            InputKey::A, InputKey::S, InputKey::D, InputKey::F,
            InputKey::Z, InputKey::X, InputKey::C, InputKey::V,
        ][i]) == Some(keypad_order()[i]),
{
}

/// The pixel at column `x`, row `y` of a plane of width `w`.
pub open spec fn at(plane: Seq<u8>, w: nat, x: int, y: int) -> u8 {
    plane[y * w + x]
}

/// Scrolling moves each pixel of an active plane: down by `p` rows, up by
/// `p` rows, left or right by `p` columns, at the display's resolution,
/// with dark pixels entering where nothing moves in; inactive planes keep
/// their pixels.
pub proof fn law_scroll_moves_pixels(d: DisplayState, p: nat, l: int, x: int, y: int)
    requires
        d.wf(),
        0 <= l < PLANE_COUNT,
        0 <= x < d.width(),
        0 <= y < d.height(),
    ensures
        ({
            let w = d.width();
            let h = d.height();
            let active = crate::display::plane_active(d.active_plane, l);
            &&& at(d.scrolled_down(p).planes[l], w, x, y)
                == (if !active { at(d.planes[l], w, x, y) } else if y >= p { at(d.planes[l], w, x, y - p) } else { 0 })
            &&& at(d.scrolled_up(p).planes[l], w, x, y)
                == (if !active { at(d.planes[l], w, x, y) } else if y + p < h { at(d.planes[l], w, x, y + p) } else { 0 })
            &&& at(d.scrolled_left(p).planes[l], w, x, y)
                == (if !active { at(d.planes[l], w, x, y) } else if x + p < w { at(d.planes[l], w, x + p, y) } else { 0 })
            &&& at(d.scrolled_right(p).planes[l], w, x, y)
                == (if !active { at(d.planes[l], w, x, y) } else if x >= p { at(d.planes[l], w, x - p, y) } else { 0 })
        }),
{
    let w = d.width() as int;
    let h = d.height() as int;
    let pp = p as int;
    let i = y * w + x;
    assert(w > 0 && h > 0);
    assert(d.planes[l].len() == w * h);
    vstd::arithmetic::div_mod::lemma_fundamental_div_mod_converse(i, w, y, x);
    assert(0 <= i < w * h) by (nonlinear_arith)
        requires
            0 <= x < w,
            0 <= y < h,
            i == y * w + x,
    ;
    assert(y >= pp ==> i - w * pp == (y - pp) * w + x && i >= w * pp) by (nonlinear_arith)
        requires
            i == y * w + x,
            0 <= x < w,
    ;
    assert(y < pp ==> i < w * pp) by (nonlinear_arith)
        requires
            i == y * w + x,
            0 <= x < w,
    ;
    assert(i + w * pp == (y + pp) * w + x) by (nonlinear_arith)
        requires
            i == y * w + x,
    ;
    assert((y + pp < h) == ((y + pp) * w + x < w * h)) by (nonlinear_arith)
        requires
            0 <= x < w,
            0 <= y,
            0 <= pp,
            w > 0,
    ;
}

/// Whether bit `k` (0 the lowest) of a byte is set.
pub open spec fn byte_bit(byte: u8, k: int) -> bool {
    (byte as int / vstd::arithmetic::power2::pow2(k as nat) as int) % 2 == 1
}

/// A 16x16 sprite (height 0), drawn where it fits on the screen, inverts
/// the pixel at its row `a` and column `b` of each active plane exactly when
/// the sprite's bit for that pixel is set: row `a` is the two bytes at
/// `2a` and `2a + 1` of the plane's sprite data, the first byte giving
/// columns 0 to 7 and the second columns 8 to 15, most significant bit
/// leftmost. Other pixels at that place keep their value.
pub proof fn law_large_sprite_rows(s: SpriteDraw, d: DisplayState, l: int, a: int, b: int)
    requires
        d.wf(),
        s.height == 0,
        0 <= l < PLANE_COUNT,
        crate::display::plane_active(d.active_plane, l),
        0 <= a < 16,
        0 <= b < 16,
        s.x + 16 <= d.width(),
        s.y + 16 <= d.height(),
    ensures
        ({
            let base = s.base(d.active_plane, l);
            let set = if b < 8 { byte_bit(s.memory[base + 2 * a], 7 - b) } else { byte_bit(s.memory[base + 2 * a + 1], 15 - b) };
            let p = (s.y + a) * d.width() + (s.x + b);
            let old = d.planes[l][p];
            s.result(d).planes[l][p] == (if set { if old == 0 { 1u8 } else { 0u8 } } else { old })
        }),
{
    let w = d.width() as int;
    let h = d.height() as int;
    let px = s.x + b;
    let py = s.y + a;
    let p = py * w + px;
    vstd::arithmetic::div_mod::lemma_fundamental_div_mod_converse(p, w, py, px);
    assert(0 <= p < w * h) by (nonlinear_arith)
        requires
            0 <= px < w,
            0 <= py < h,
            p == py * w + px,
    ;
    vstd::arithmetic::div_mod::lemma_small_mod(s.x, w as nat);
    vstd::arithmetic::div_mod::lemma_small_mod(s.y, h as nat);
    vstd::arithmetic::div_mod::lemma_mod_add_multiples_vanish(a, h);
    vstd::arithmetic::div_mod::lemma_small_mod(a as nat, h as nat);
    vstd::arithmetic::div_mod::lemma_mod_add_multiples_vanish(b, w);
    vstd::arithmetic::div_mod::lemma_small_mod(b as nat, w as nat);
    assert(s.row_at(d, p / w) == a);
    assert(s.col_at(d, p % w) == b);
    let base = s.base(d.active_plane, l);
    let hi = s.memory[base + 2 * a];
    let lo = s.memory[base + 2 * a + 1];
    lemma_join_bits(hi, lo, (15 - b) as u16);
    assert(s.drawn(d, l, a, b) == (if b < 8 { byte_bit(hi, 7 - b) } else { byte_bit(lo, 15 - b) }));
}

/// Bit `k` of two bytes joined high then low is bit `k - 8` of the high
/// byte for `k` from 8 up, and bit `k` of the low byte below 8.
proof fn lemma_join_bits(hi: u8, lo: u8, k: u16)
    requires
        k < 16,
    ensures
        crate::sprite::bit_set(crate::sprite::join_bytes(hi, lo), k)
            == (if k >= 8 { byte_bit(hi, k - 8) } else { byte_bit(lo, k as int) }),
{
    crate::sprite::lemma_join(hi, lo);
    let j = crate::sprite::join_bytes(hi, lo);
    assert(j == (hi as u16) * 256 + lo as u16);
    if k >= 8 {
        let kk = (k - 8) as u8;
        assert(((j >> k) & 1u16 == 1u16) == ((hi >> kk) & 1u8 == 1u8)) by (bit_vector)
            requires
                j == ((hi as u16) << 8u16) | (lo as u16),
                8 <= k < 16,
                kk == k - 8,
        ;
        lemma_byte_bit(hi, kk);
    } else {
        let kk = k as u8;
        assert(((j >> k) & 1u16 == 1u16) == ((lo >> kk) & 1u8 == 1u8)) by (bit_vector)
            requires
                j == ((hi as u16) << 8u16) | (lo as u16),
                k < 8,
                kk == k,
        ;
        lemma_byte_bit(lo, kk);
    }
}

/// The shift-and-mask test of a byte's bit agrees with `byte_bit`.
proof fn lemma_byte_bit(v: u8, k: u8)
    requires
        k < 8,
    ensures
        ((v >> k) & 1u8 == 1u8) == byte_bit(v, k as int),
{
    vstd::bits::lemma_u8_shr_is_div(v, k);
    assert((v >> k) & 1u8 == (v >> k) % 2) by (bit_vector);
}

/// An 8-pixel-wide sprite of `n` rows (height 1 to 15), drawn where it fits
/// on the screen, inverts the pixel at its row `a` and column `b` of each
/// active plane exactly when bit `7 - b` of byte `a` of the plane's sprite
/// data is set (most significant bit leftmost).
pub proof fn law_small_sprite_rows(s: SpriteDraw, d: DisplayState, l: int, a: int, b: int)
    requires
        d.wf(),
        1 <= s.height <= 15,
        0 <= l < PLANE_COUNT,
        crate::display::plane_active(d.active_plane, l),
        0 <= a < s.height,
        0 <= b < 8,
        s.x + 8 <= d.width(),
        s.y + s.height <= d.height(),
    ensures
        ({
            let set = byte_bit(s.memory[s.base(d.active_plane, l) + a], 7 - b);
            let p = (s.y + a) * d.width() + (s.x + b);
            let old = d.planes[l][p];
            s.result(d).planes[l][p] == (if set { if old == 0 { 1u8 } else { 0u8 } } else { old })
        }),
{
    let w = d.width() as int;
    let h = d.height() as int;
    let px = s.x + b;
    let py = s.y + a;
    let p = py * w + px;
    vstd::arithmetic::div_mod::lemma_fundamental_div_mod_converse(p, w, py, px);
    assert(0 <= p < w * h) by (nonlinear_arith)
        requires
            0 <= px < w,
            0 <= py < h,
            p == py * w + px,
    ;
    vstd::arithmetic::div_mod::lemma_small_mod(s.x, w as nat);
    vstd::arithmetic::div_mod::lemma_small_mod(s.y, h as nat);
    vstd::arithmetic::div_mod::lemma_mod_add_multiples_vanish(a, h);
    vstd::arithmetic::div_mod::lemma_small_mod(a as nat, h as nat);
    vstd::arithmetic::div_mod::lemma_mod_add_multiples_vanish(b, w);
    vstd::arithmetic::div_mod::lemma_small_mod(b as nat, w as nat);
    assert(s.row_at(d, p / w) == a);
    assert(s.col_at(d, p % w) == b);
    let byte = s.memory[s.base(d.active_plane, l) + a];
    lemma_join_bits(0u8, byte, (7 - b) as u16);
    assert(crate::sprite::join_bytes(0u8, byte) == byte as u16);
}

/// Control flow: `1NNN` jumps to NNN; `2NNN` pushes the address after it
/// and jumps to NNN; `BNNN` jumps to NNN plus V0, or plus VX under the jump
/// quirk. Nothing else changes.
pub proof fn law_jumps(op: u16, m: Machine, q: Quirks, keys: Seq<u8>, font_len: nat, random: u8)
    requires
        m.wf(),
        op_kind(op) == 1 || op_kind(op) == 2 || op_kind(op) == 0xB,
    ensures
        ({
            let r = execute(op, m, q, keys, font_len, random);
            let offset: int = if q.jump_bits { m.cpu.registers[op_x(op)] as int } else { m.cpu.registers[0] as int };
            &&& op_kind(op) == 1 ==> r.0.cpu.pc == op_nnn(op) && r.0.stack == m.stack
            &&& op_kind(op) == 2 ==> r.0.cpu.pc == op_nnn(op) && r.0.stack == m.stack.push(m.cpu.pc)
            &&& op_kind(op) == 0xB ==> r.0.cpu.pc == op_nnn(op) + offset && r.0.stack == m.stack
            &&& r.0.cpu.registers == m.cpu.registers
            &&& r.0.memory == m.memory
            &&& r.1.len() == 0
        }),
{
    assert(decoded(op));
    assert(op_nnn(op) < 4096);
}

/// Timers and the index: `FX07` reads the delay timer into VX, `FX15` sets
/// the delay timer and `FX18` the sound timer to VX, `FX1E` adds VX to I,
/// `FX29` points I at the 5-byte digit VX, `ANNN` sets I to NNN.
pub proof fn law_timers_and_index(op: u16, m: Machine, q: Quirks, keys: Seq<u8>, font_len: nat, random: u8)
    requires
        m.wf(),
        op_kind(op) == 0xF || op_kind(op) == 0xA,
        execute_ok(op, m, q, keys),
    ensures
        ({
            let r = execute(op, m, q, keys, font_len, random);
            let x = op_x(op);
            let vx = m.cpu.registers[x];
            let nn = op_nn(op);
            &&& op_kind(op) == 0xA ==> r.0.cpu.index == op_nnn(op)
            &&& op_kind(op) == 0xF && nn == 0x07 ==> r.0.cpu.registers[x] == m.cpu.delay
            &&& op_kind(op) == 0xF && nn == 0x15 ==> r.0.cpu.delay == vx && r.0.cpu.registers == m.cpu.registers
            &&& op_kind(op) == 0xF && nn == 0x18 ==> r.0.cpu.sound == vx && r.1 == seq![DeviceMessage::Beep(vx)]
            &&& op_kind(op) == 0xF && nn == 0x1E ==> r.0.cpu.index == m.cpu.index + vx
            &&& op_kind(op) == 0xF && nn == 0x29 ==> r.0.cpu.index == vx * 5
        }),
{
    let x = op_x(op);
    let nn = op_nn(op);
    if op_kind(op) == 0xA {
        assert(decoded(op));
        assert(op_nnn(op) < 4096);
    } else if nn == 0x07 || nn == 0x15 || nn == 0x18 || nn == 0x1E || nn == 0x29 {
        assert(decoded(op));
        assert(x != 0 || nn != 0);
    }
}

/// `FX55` writes V0 to VX at I to I + X and leaves the rest of memory;
/// `FX65` reads V0 to VX from I to I + X and leaves the other registers.
/// The index then moves on by one when the quirk asks for it.
pub proof fn law_register_transfers(op: u16, m: Machine, q: Quirks, keys: Seq<u8>, font_len: nat, random: u8)
    requires
        m.wf(),
        op_kind(op) == 0xF,
        op_nn(op) == 0x55 || op_nn(op) == 0x65,
        execute_ok(op, m, q, keys),
    ensures
        ({
            let r = execute(op, m, q, keys, font_len, random);
            let x = op_x(op);
            let i = m.cpu.index as int;
            &&& op_nn(op) == 0x55 ==> (forall|k: int| 0 <= k <= x ==> #[trigger] r.0.memory[i + k] == m.cpu.registers[k])
            &&& op_nn(op) == 0x55 ==> (forall|j: int| 0 <= j < m.memory.len() && !(i <= j <= i + x)
                ==> #[trigger] r.0.memory[j] == m.memory[j])
            &&& op_nn(op) == 0x55 ==> r.0.memory.len() == m.memory.len() && r.0.cpu.registers == m.cpu.registers
            &&& op_nn(op) == 0x65 ==> (forall|k: int| 0 <= k <= x ==> #[trigger] r.0.cpu.registers[k] == m.memory[i + k])
            &&& op_nn(op) == 0x65 ==> (forall|k: int| x < k < 16 ==> #[trigger] r.0.cpu.registers[k] == m.cpu.registers[k])
            &&& op_nn(op) == 0x65 ==> r.0.memory == m.memory
            &&& r.0.cpu.index == (if q.i_incremented { i + 1 } else { i })
        }),
{
    assert(decoded(op));
    assert(op_x(op) != 0 || op_nn(op) != 0);
}

/// `00E0` clears every active plane and leaves the others as they were.
pub proof fn law_clear_screen(m: Machine, q: Quirks, keys: Seq<u8>, font_len: nat, random: u8)
    requires
        m.wf(),
    ensures
        ({
            let r = execute(0x00E0u16, m, q, keys, font_len, random);
            &&& r.0.display.resolution == m.display.resolution
            &&& r.0.display.planes.len() == m.display.planes.len()
            &&& forall|l: int, p: int| 0 <= l < PLANE_COUNT && 0 <= p < m.display.planes[l].len() ==>
                #[trigger] r.0.display.planes[l][p] == (if crate::display::plane_active(m.display.active_plane, l) { 0u8 } else { m.display.planes[l][p] })
            &&& r.0.cpu == m.cpu
            &&& r.0.memory == m.memory
            &&& r.1.len() == 0
        }),
{
    assert(op_kind(0x00E0u16) == 0 && op_x(0x00E0u16) == 0 && op_y(0x00E0u16) == 0xE && op_n(0x00E0u16) == 0);
    assert(decoded(0x00E0u16));
}

} // verus!
