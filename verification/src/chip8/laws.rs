//! Laws of the instruction set, proved of the model that the machine's
//! contracts are stated over.

use crate::chip8::error::Chip8Error;
use crate::chip8::model::{
    collides, flag, next_random, sprite_bit, sprite_column, sprite_row, target_pixel, xor_sprite,
    KeyReading, MachineView, RunState,
};
use crate::chip8::opcodes::{addr_of, family_of, imm4_of, lemma_fields, reg_x_of, reg_y_of};
use vstd::prelude::*;

verus! {

/// A bit of the sprite falls on exactly one pixel, and no other bit of the
/// sprite falls on it.
pub proof fn lemma_target_pixel(vx: u8, vy: u8, row: int, col: int)
    requires
        0 <= row < 32,
        0 <= col < 64,
    ensures
        0 <= target_pixel(vx, vy, row, col) < 2048,
        forall|p: int|
            0 <= p < 2048 ==> ((sprite_row(vy, p) == row && sprite_column(vx, p) == col) <==> p
                == target_pixel(vx, vy, row, col)),
{
    let t = target_pixel(vx, vy, row, col);
    assert forall|p: int| 0 <= p < 2048 implies ((sprite_row(vy, p) == row && sprite_column(
        vx,
        p,
    ) == col) <==> p == t) by {
        let px = p % 64;
        let py = p / 64;
        assert(p == px + 64 * py);
        if sprite_row(vy, p) == row && sprite_column(vx, p) == col {
            assert(px == (vx + col) % 64);
            assert(py == (vy + row) % 32);
        }
        if p == t {
            assert(px == (vx + col) % 64);
            assert(py == (vy + row) % 32);
        }
    }
}

/// XOR with 1 turns a pixel that is 0 or 1 into the other of the two.
pub proof fn lemma_flip(pixel: u8)
    requires
        pixel <= 1,
    ensures
        pixel ^ 1u8 == 1 - pixel,
        (pixel ^ 1u8) ^ 1u8 == pixel,
{
    assert(pixel <= 1 ==> (pixel ^ 1u8 == 1 - pixel && (pixel ^ 1u8) ^ 1u8 == pixel))
        by (bit_vector);
}

/// The random source never reaches the state 0 from another state.
pub proof fn lemma_next_random_nonzero(state: u16)
    requires
        state != 0,
    ensures
        next_random(state) != 0,
{
    assert(state != 0 ==> ({
        let a: u16 = state ^ (state << 7);
        let b: u16 = a ^ (a >> 9);
        b ^ (b << 8)
    }) != 0) by (bit_vector);
}

/// `8XY4` sets VF to 1 if and only if `Vx + Vy` is over 255, and to 0
/// otherwise; and `Vx` becomes `(Vx + Vy) mod 256`, unless `Vx` is VF itself,
/// which holds the flag.
pub proof fn lemma_add_carry(s: MachineView, opcode: u16)
    requires
        s.wf(),
    ensures
        s.add_reg_to_reg(opcode).registers[0xF] == flag(s.vx(opcode) + s.vy(opcode) > 255),
        s.add_reg_to_reg(opcode).registers[0xF] == 1 <==> s.vx(opcode) + s.vy(opcode) > 255,
        reg_x_of(opcode) != 0xF ==> s.add_reg_to_reg(opcode).vx(opcode) == (s.vx(opcode) + s.vy(
            opcode,
        )) % 256,
{
    lemma_fields(opcode);
}

/// `8XY5` sets VF to 1 if and only if `Vx >= Vy`, and to 0 otherwise; and
/// `Vx` becomes `(Vx - Vy) mod 256`, unless `Vx` is VF itself, which holds
/// the flag.
pub proof fn lemma_sub_borrow(s: MachineView, opcode: u16)
    requires
        s.wf(),
    ensures
        s.sub_reg1_to_reg0(opcode).registers[0xF] == flag(s.vx(opcode) >= s.vy(opcode)),
        s.sub_reg1_to_reg0(opcode).registers[0xF] == 1 <==> s.vx(opcode) >= s.vy(opcode),
        reg_x_of(opcode) != 0xF ==> s.sub_reg1_to_reg0(opcode).vx(opcode) == (s.vx(opcode) - s.vy(
            opcode,
        )) % 256,
{
    lemma_fields(opcode);
}

/// `8XY7` sets VF to 1 if and only if `Vy >= Vx`, and to 0 otherwise; and
/// `Vx` becomes `(Vy - Vx) mod 256`, unless `Vx` is VF itself.
pub proof fn lemma_reverse_sub_borrow(s: MachineView, opcode: u16)
    requires
        s.wf(),
    ensures
        s.sub_reg0_to_reg1(opcode).registers[0xF] == 1 <==> s.vy(opcode) >= s.vx(opcode),
        s.sub_reg0_to_reg1(opcode).registers[0xF] == 0 <==> s.vy(opcode) < s.vx(opcode),
        reg_x_of(opcode) != 0xF ==> s.sub_reg0_to_reg1(opcode).vx(opcode) == (s.vy(opcode) - s.vx(
            opcode,
        )) % 256,
{
    lemma_fields(opcode);
}

/// The shifts `8XY6` and `8XYE` leave VF at exactly 0 or 1: the lowest bit
/// of `Vx` for the right shift, its highest bit for the left shift; and `Vx`
/// becomes `Vx >> 1` and `Vx << 1`, unless `Vx` is VF itself.
pub proof fn lemma_shift_flags(s: MachineView, opcode: u16)
    requires
        s.wf(),
    ensures
        s.shift_right_reg(opcode).registers[0xF] == s.vx(opcode) & 1,
        s.shift_right_reg(opcode).registers[0xF] == 0 || s.shift_right_reg(opcode).registers[0xF]
            == 1,
        s.shift_left_reg(opcode).registers[0xF] == (s.vx(opcode) >> 7) & 1,
        s.shift_left_reg(opcode).registers[0xF] == 0 || s.shift_left_reg(opcode).registers[0xF]
            == 1,
        reg_x_of(opcode) != 0xF ==> s.shift_right_reg(opcode).vx(opcode) == s.vx(opcode) >> 1,
        reg_x_of(opcode) != 0xF ==> s.shift_left_reg(opcode).vx(opcode) == s.vx(opcode) << 1,
{
    lemma_fields(opcode);
    let value = s.vx(opcode);
    assert(value & 1 == value % 2) by (bit_vector);
    assert((value >> 7) & 1 == (if value >= 128 {
        1u8
    } else {
        0u8
    })) by (bit_vector);
    assert(value >> 1 == value / 2) by (bit_vector);
    assert(value << 1 == (2 * value) % 256) by (bit_vector);
}

/// `FX33` writes the hundreds, tens and units of `Vx`: three decimal digits
/// whose value is `Vx`.
pub proof fn lemma_bcd_digits(s: MachineView, opcode: u16)
    requires
        s.wf(),
        s.addr_register + 2 < 4096,
    ensures
        s.set_bcd(opcode) is Ok,
        ({
            let after = s.set_bcd(opcode)->Ok_0;
            let at = s.addr_register as int;
            &&& after.memory[at] < 10
            &&& after.memory[at + 1] < 10
            &&& after.memory[at + 2] < 10
            &&& 100 * after.memory[at] + 10 * after.memory[at + 1] + after.memory[at + 2] == s.vx(
                opcode,
            )
        }),
{
}

/// Dumping `V0` to `Vx` with `FX55`, clearing every register, and loading
/// `V0` to `Vx` back with `FX65` from the same address restores them, for
/// every `x`; the registers after `Vx` stay cleared.
pub proof fn lemma_dump_load_round_trip(s: MachineView, opcode: u16)
    requires
        s.wf(),
        s.addr_register + reg_x_of(opcode) < 4096,
    ensures
        s.reg_dump(opcode) is Ok,
        s.reg_dump(opcode)->Ok_0.with_registers_cleared().reg_load(opcode) is Ok,
        forall|i: int|
            0 <= i <= reg_x_of(opcode) ==> (#[trigger] s.reg_dump(
                opcode,
            )->Ok_0.with_registers_cleared().reg_load(opcode)->Ok_0.registers[i])
                == s.registers[i],
        forall|i: int|
            reg_x_of(opcode) < i < 16 ==> (#[trigger] s.reg_dump(
                opcode,
            )->Ok_0.with_registers_cleared().reg_load(opcode)->Ok_0.registers[i]) == 0,
{
    lemma_fields(opcode);
}

/// `FX55` succeeds exactly when the bytes it writes are all inside memory.
pub proof fn lemma_dump_in_bounds(s: MachineView, opcode: u16)
    ensures
        s.reg_dump(opcode) is Ok <==> s.addr_register + reg_x_of(opcode) < 4096,
{
}

/// Drawing the same sprite twice at the same place gives the framebuffer
/// back as it was.
pub proof fn lemma_xor_sprite_twice(gfx: Seq<u8>, sprite: Seq<u8>, vx: u8, vy: u8)
    requires
        forall|p: int| 0 <= p < gfx.len() ==> #[trigger] gfx[p] <= 1,
    ensures
        xor_sprite(xor_sprite(gfx, sprite, vx, vy), sprite, vx, vy) == gfx,
        forall|p: int|
            0 <= p < gfx.len() ==> #[trigger] xor_sprite(gfx, sprite, vx, vy)[p] <= 1,
{
    let once = xor_sprite(gfx, sprite, vx, vy);
    let twice = xor_sprite(once, sprite, vx, vy);
    assert forall|p: int| 0 <= p < gfx.len() implies twice[p] == gfx[p] && #[trigger] once[p]
        <= 1 by {
        lemma_flip(gfx[p]);
    }
    assert(twice =~= gfx);
}

/// The second of two equal draws collides exactly if the first one lit a
/// pixel: if the sprite has a set bit on a pixel that was off.
pub proof fn lemma_second_draw_collides(gfx: Seq<u8>, sprite: Seq<u8>, vx: u8, vy: u8)
    requires
        forall|p: int| 0 <= p < gfx.len() ==> #[trigger] gfx[p] <= 1,
    ensures
        collides(xor_sprite(gfx, sprite, vx, vy), sprite, vx, vy) <==> exists|p: int|
            0 <= p < gfx.len() && sprite_bit(sprite, vx, vy, p) && gfx[p] == 0,
{
    let once = xor_sprite(gfx, sprite, vx, vy);
    if collides(once, sprite, vx, vy) {
        let p = choose|p: int| 0 <= p < once.len() && sprite_bit(sprite, vx, vy, p) && once[p] == 1;
        lemma_flip(gfx[p]);
        assert(0 <= p < gfx.len() && sprite_bit(sprite, vx, vy, p) && gfx[p] == 0);
    }
    if exists|p: int| 0 <= p < gfx.len() && sprite_bit(sprite, vx, vy, p) && gfx[p] == 0 {
        let p = choose|p: int| 0 <= p < gfx.len() && sprite_bit(sprite, vx, vy, p) && gfx[p] == 0;
        lemma_flip(gfx[p]);
        assert(0 <= p < once.len() && sprite_bit(sprite, vx, vy, p) && once[p] == 1);
    }
}

/// `DXYN` carried out twice in a row, with coordinates that are not taken
/// from VF, gives the framebuffer back as it was before the first draw,
/// and the second draw leaves VF at 1 exactly if the first one lit a pixel,
/// and at 0 otherwise.
pub proof fn lemma_draw_twice(s: MachineView, opcode: u16)
    requires
        s.wf(),
        s.addr_register + imm4_of(opcode) <= 4096,
        reg_x_of(opcode) != 0xF,
        reg_y_of(opcode) != 0xF,
    ensures
        s.draw(opcode) is Ok,
        s.draw(opcode)->Ok_0.draw(opcode) is Ok,
        s.draw(opcode)->Ok_0.draw(opcode)->Ok_0.gfx == s.gfx,
        s.draw(opcode)->Ok_0.draw(opcode)->Ok_0.registers[0xF] == flag(
            exists|p: int|
                0 <= p < 2048 && sprite_bit(s.sprite(opcode), s.vx(opcode), s.vy(opcode), p)
                    && s.gfx[p] == 0,
        ),
{
    lemma_fields(opcode);
    let once = s.draw(opcode)->Ok_0;
    assert(once.sprite(opcode) == s.sprite(opcode));
    assert(once.vx(opcode) == s.vx(opcode));
    assert(once.vy(opcode) == s.vy(opcode));
    lemma_xor_sprite_twice(s.gfx, s.sprite(opcode), s.vx(opcode), s.vy(opcode));
    lemma_second_draw_collides(s.gfx, s.sprite(opcode), s.vx(opcode), s.vy(opcode));
}

/// A sprite has a set bit on a pixel exactly if one of the bits of its
/// rows, each row a byte whose top bit is the leftmost column, is set and
/// falls on that pixel: the bit of row `row` and column `col` falls on the
/// pixel in column `(vx + col) mod 64` of row `(vy + row) mod 32`.
pub proof fn lemma_sprite_bit_is_a_set_bit(sprite: Seq<u8>, vx: u8, vy: u8, p: int)
    requires
        0 <= p < 2048,
        sprite.len() <= 32,
    ensures
        sprite_bit(sprite, vx, vy, p) <==> exists|row: int, col: int|
            0 <= row < sprite.len() && 0 <= col < 8 && sprite[row] & (0x80u8 >> (col as u8)) != 0
                && #[trigger] target_pixel(vx, vy, row, col) == p,
{
    if sprite_bit(sprite, vx, vy, p) {
        let row = sprite_row(vy, p);
        let col = sprite_column(vx, p);
        lemma_target_pixel(vx, vy, row, col);
        assert(target_pixel(vx, vy, row, col) == p);
    }
    if exists|row: int, col: int|
        0 <= row < sprite.len() && 0 <= col < 8 && sprite[row] & (0x80u8 >> (col as u8)) != 0
            && #[trigger] target_pixel(vx, vy, row, col) == p {
        let (row, col) = choose|row: int, col: int|
            0 <= row < sprite.len() && 0 <= col < 8 && sprite[row] & (0x80u8 >> (col as u8)) != 0
                && #[trigger] target_pixel(vx, vy, row, col) == p;
        lemma_target_pixel(vx, vy, row, col);
    }
}

/// `00E0` turns every pixel off and moves the program counter on by
/// exactly 2.
pub proof fn lemma_clear_screen(s: MachineView)
    requires
        s.wf(),
    ensures
        s.clear_screen().gfx.len() == 2048,
        forall|p: int| 0 <= p < 2048 ==> #[trigger] s.clear_screen().gfx[p] == 0,
        s.clear_screen().program_counter == s.program_counter + 2,
{
}

/// A call with `2NNN` and the return with `00EE` that belongs to it: if the
/// call stack is not full, the call succeeds, and a return from any state
/// whose call stack is the one that the call left puts the program counter on
/// the instruction after the call and the call stack back as it was before
/// the call.
pub proof fn lemma_call_return_round_trip(s: MachineView, later: MachineView, opcode: u16)
    requires
        s.wf(),
        s.stack.len() < 16,
        later.stack == s.call_subroutine(opcode)->Ok_0.stack,
    ensures
        s.call_subroutine(opcode) is Ok,
        s.call_subroutine(opcode)->Ok_0.program_counter == addr_of(opcode),
        s.call_subroutine(opcode)->Ok_0.stack.len() == s.stack.len() + 1,
        later.return_from_subroutine() is Ok,
        later.return_from_subroutine()->Ok_0.program_counter == s.program_counter + 2,
        later.return_from_subroutine()->Ok_0.stack == s.stack,
{
    assert(s.stack.push(s.program_counter).drop_last() =~= s.stack);
}

/// A call succeeds exactly if fewer than 16 return addresses are on the
/// call stack: the 17th nested call fails with a stack overflow. A return
/// succeeds exactly if the call stack is not empty.
pub proof fn lemma_stack_limits(s: MachineView, opcode: u16)
    ensures
        s.call_subroutine(opcode) is Ok <==> s.stack.len() < 16,
        s.stack.len() >= 16 ==> s.call_subroutine(opcode) == Err::<MachineView, Chip8Error>(
            Chip8Error::StackOverflow,
        ),
        s.return_from_subroutine() is Ok <==> s.stack.len() > 0,
        s.stack.len() == 0 ==> s.return_from_subroutine() == Err::<MachineView, Chip8Error>(
            Chip8Error::StackUnderflow,
        ),
{
}

/// A program of more than 3072 bytes is refused, and the memory of a new
/// machine holds nothing but zeroes.
pub proof fn lemma_oversized_rom_refused(s: MachineView, rom: Seq<u8>)
    requires
        rom.len() > 3072,
    ensures
        s.load_rom(rom) == Err::<MachineView, Chip8Error>(Chip8Error::RomTooLarge),
        forall|a: int| 0 <= a < 4096 ==> #[trigger] MachineView::fresh().memory[a] == 0,
{
}

/// After pacing, the cycle is complete no earlier than one interval after
/// the previous one, and the wait is at most one interval.
pub proof fn lemma_pacing(s: MachineView, now: u64)
    requires
        s.wf(),
        s.last_instruction_time is Some,
        now + s.cycle_interval() <= u64::MAX,
        now >= s.last_instruction_time->0,
    ensures
        0 <= s.pacing_delay(now) <= s.cycle_interval(),
        s.paced(now).last_instruction_time == Some((now + s.pacing_delay(now)) as u64),
        now + s.pacing_delay(now) >= s.last_instruction_time->0 + s.cycle_interval(),
        now - s.last_instruction_time->0 >= s.cycle_interval() ==> s.pacing_delay(now) == 0,
{
    assert(s.cycle_interval() >= 0) by (nonlinear_arith)
        requires
            s.cycle_interval() == 1_000_000int / s.clock_speed as int,
            s.clock_speed > 0,
    ;
}

/// An instruction that succeeds on a valid state whose program counter is
/// inside memory leaves a valid state: the pixels stay 0 or 1, the call
/// stack stays within its capacity, and the sizes stay as they are.
pub proof fn lemma_execute_keeps_valid(s: MachineView, opcode: u16, now: u64, keys: KeyReading)
    requires
        s.wf(),
        s.fetchable(),
        s.execute_opcode(opcode, now, keys) is Ok,
    ensures
        s.execute_opcode(opcode, now, keys)->Ok_0.wf(),
{
    lemma_fields(opcode);
    let after = s.execute_opcode(opcode, now, keys)->Ok_0;
    lemma_next_random_nonzero(s.random_state);
    if family_of(opcode) == 0xD {
        lemma_xor_sprite_twice(s.gfx, s.sprite(opcode), s.vx(opcode), s.vy(opcode));
    }
    if family_of(opcode) == 0x2 {
        assert forall|i: int| 0 <= i < after.stack.len() implies #[trigger] after.stack[i] + 1
            < 4096 by {
            if i < s.stack.len() {
                assert(after.stack[i] == s.stack[i]);
            }
        }
    }
    if opcode == 0x00EE {
        assert(s.stack[s.stack.len() - 1] + 1 < 4096);
        assert forall|i: int| 0 <= i < after.stack.len() implies #[trigger] after.stack[i] + 1
            < 4096 by {
            assert(after.stack[i] == s.stack[i]);
        }
    }
}

/// Every instruction but a jump, a call and a return moves the program
/// counter on by exactly 2, or by exactly 4 where it is a skip whose
/// condition holds; a jump and a call set it to their target.
pub proof fn lemma_program_counter(s: MachineView, opcode: u16, now: u64, keys: KeyReading)
    requires
        s.wf(),
        s.execute_opcode(opcode, now, keys) is Ok,
    ensures
        ({
            let after = s.execute_opcode(opcode, now, keys)->Ok_0;
            let family = family_of(opcode);
            &&& family == 0x1 || family == 0x2 ==> after.program_counter == addr_of(opcode)
            &&& family == 0xB ==> after.program_counter == s.registers[0] + addr_of(opcode)
            &&& opcode == 0x00EE ==> after.program_counter == s.stack.last() + 2
            &&& family == 0x3 || family == 0x4 || family == 0x5 || family == 0x9 || family == 0xE
                ==> after.program_counter == s.program_counter + 2 || after.program_counter
                == s.program_counter + 4
            &&& opcode == 0x00E0 || family == 0x6 || family == 0x7 || family == 0x8 || family == 0xA
                || family == 0xC || family == 0xD || family == 0xF ==> after.program_counter
                == s.program_counter + 2
        }),
{
    lemma_fields(opcode);
}

/// A halted machine is halted for good: a cycle and a new start leave it as
/// it is and give its error again.
pub proof fn lemma_halted_is_terminal(s: MachineView, error: Chip8Error, now: u64, keys: KeyReading)
    requires
        s.state == RunState::Halted(error),
    ensures
        s.step(now, keys).0 == s,
        s.step(now, keys).1 == Err::<u64, Chip8Error>(error),
        s.init().0 == s,
        s.init().1 == Err::<(), Chip8Error>(error),
{
}

/// A cycle leaves a valid state valid, and a cycle that fails leaves the
/// machine halted with the error it gave.
pub proof fn lemma_step_keeps_valid(s: MachineView, now: u64, keys: KeyReading)
    requires
        s.wf(),
    ensures
        s.step(now, keys).0.wf(),
        s.step(now, keys).1 is Err ==> s.step(now, keys).0.state == RunState::Halted(
            s.step(now, keys).1->Err_0,
        ),
        s.step(now, keys).1 is Ok ==> s.step(now, keys).0.state == RunState::Running,
{
    if s.state !is Halted && s.rom_size != 0 && s.fetchable() {
        if s.execute_opcode(s.fetched(), now, keys) is Ok {
            lemma_execute_keeps_valid(s, s.fetched(), now, keys);
        }
    }
}

} // verus!
