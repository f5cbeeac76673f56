//! The machine state and the execution engine: fetch, decode, execute,
//! timer tick. Every instruction's effect on the state is stated as a
//! spec predicate and proved of the executable code.

use crate::clock::duration_millis;
use crate::clock::elapsed_since;
use crate::clock::instant_now;
use vstd::prelude::*;
use vstd::wrapping::u16_specs;

verus! {

/// A condition that ends the running program, reported to the host
/// instead of being swallowed or crashing the process.
///
/// The stack pointer is guarded: a call with all 16 frames in use is
/// `StackOverflow`, a return with an empty (or corrupt) stack is
/// `StackUnderflow`.  An instruction that would touch memory past the
/// 4096-byte space, or test a key index past the 16-key latch, is
/// `OutOfBounds`.
#[derive(Clone, Copy, Debug, PartialEq, Eq, Structural)]
pub enum Fault {
    /// The all-zero instruction word: an intentional halt, not an error.
    Halt,
    /// An instruction word that decodes to no known operation.
    UnknownOpcode(u16),
    /// A call with no free stack slot.
    StackOverflow,
    /// A return with nothing on the stack.
    StackUnderflow,
    /// A memory or key-latch access outside its bounds.
    OutOfBounds,
}

/// The machine state: register file, memory, stack, timers, input latch
/// and frame buffer, plus the engine's own fetch latch (`opcode`) and the
/// clock reading that paces the timers.
pub struct Cpu {
    /// The most recently fetched instruction word.
    pub opcode: u16,
    /// The 16 general-purpose 8-bit registers; register 15 doubles as the
    /// carry/borrow/collision flag output.
    pub v: [u8; 16],
    /// The 16-bit address register.
    pub i: u16,
    pub sound_timer: u8,
    pub delay_timer: u8,
    /// The program counter, a 16-bit offset into memory.
    pub pc: u16,
    /// The stack pointer: the number of return addresses on the stack.
    pub sp: usize,
    pub stack: [u16; 16],
    pub memory: [u8; 4096],
    /// The input latch, written by the host between cycles.
    pub key_buff: [bool; 16],
    /// The frame buffer: 32 rows of 64 pixels.
    pub disp_buff: [[bool; 64]; 32],
    /// When the timers last counted down.
    pub last_tick: std::time::Instant,
}

// ---------------------------------------------------------------------
// Instruction word fields
// ---------------------------------------------------------------------

/// The second nibble: the first operand register index.
pub open spec fn op_x(op: u16) -> u8 {
    ((op & 0x0f00) >> 8) as u8
}

/// The third nibble: the second operand register index.
pub open spec fn op_y(op: u16) -> u8 {
    ((op & 0x00f0) >> 4) as u8
}

/// The low nibble: a literal, e.g. a sprite's row count.
pub open spec fn op_n(op: u16) -> u8 {
    (op & 0x000f) as u8
}

/// The low byte: an embedded literal.
pub open spec fn op_kk(op: u16) -> u8 {
    (op & 0x00ff) as u8
}

/// The low 12 bits: an embedded address.
pub open spec fn op_nnn(op: u16) -> u16 {
    op & 0x0fff
}

/// The nibble fields of an instruction word always index within the
/// 16-register file, and the address field within memory.
pub proof fn lemma_field_bounds(op: u16)
    by (bit_vector)
    ensures
        op_x(op) < 16,
        op_y(op) < 16,
        op_n(op) < 16,
        op_nnn(op) < 0x1000,
{
}

// ---------------------------------------------------------------------
// Arithmetic helpers
// ---------------------------------------------------------------------

/// The program counter two past `pc`, wrapping at 16 bits.
pub open spec fn pc2(pc: u16) -> u16 {
    u16_specs::wrapping_add(pc, 2)
}

/// The program counter four past `pc`, wrapping at 16 bits.
pub open spec fn pc4(pc: u16) -> u16 {
    pc2(pc2(pc))
}

/// The low 8 bits of the sum of two registers.
pub open spec fn sum8(a: u8, b: u8) -> u8 {
    ((a + b) % 256) as u8
}

/// The carry out of an 8-bit sum: 1 when the mathematical sum exceeds 255.
pub open spec fn carry8(a: u8, b: u8) -> u8 {
    if a + b > 255 {
        1u8
    } else {
        0u8
    }
}

/// The modulo-256 difference `a - b`.
pub open spec fn diff8(a: u8, b: u8) -> u8 {
    if a >= b {
        (a - b) as u8
    } else {
        (a - b + 256) as u8
    }
}

/// The no-borrow flag of `a - b`: 1 when the minuend is strictly greater.
pub open spec fn no_borrow8(a: u8, b: u8) -> u8 {
    if a > b {
        1u8
    } else {
        0u8
    }
}

/// The instruction word held big-endian at `pc` in `mem`.
pub open spec fn fetch16(mem: [u8; 4096], pc: u16) -> u16 {
    ((mem[pc as int] as u16) << 8) | (mem[pc as int + 1] as u16)
}

// ---------------------------------------------------------------------
// The built-in font
// ---------------------------------------------------------------------

/// The 80-byte font table: sixteen 5-byte glyphs, one per hexadecimal
/// digit, preloaded at the bottom of memory.
pub open spec fn font_seq() -> Seq<u8> {
    seq![
        0xF0u8, 0x90u8, 0x90u8, 0x90u8, 0xF0u8,  // 0
        0x20u8, 0x60u8, 0x20u8, 0x20u8, 0x70u8,  // 1
        0xF0u8, 0x10u8, 0xF0u8, 0x80u8, 0xF0u8,  // 2
        0xF0u8, 0x10u8, 0xF0u8, 0x10u8, 0xF0u8,  // 3
        0x90u8, 0x90u8, 0xF0u8, 0x10u8, 0x10u8,  // 4
        0xF0u8, 0x80u8, 0xF0u8, 0x10u8, 0xF0u8,  // 5
        0xF0u8, 0x80u8, 0xF0u8, 0x90u8, 0xF0u8,  // 6
        0xF0u8, 0x10u8, 0x20u8, 0x40u8, 0x40u8,  // 7
        0xF0u8, 0x90u8, 0xF0u8, 0x90u8, 0xF0u8,  // 8
        0xF0u8, 0x90u8, 0xF0u8, 0x10u8, 0xF0u8,  // 9
        0xF0u8, 0x90u8, 0xF0u8, 0x90u8, 0x90u8,  // A
        0xE0u8, 0x90u8, 0xE0u8, 0x90u8, 0xE0u8,  // B
        0xF0u8, 0x80u8, 0x80u8, 0x80u8, 0xF0u8,  // C
        0xE0u8, 0x90u8, 0x90u8, 0x90u8, 0xE0u8,  // D
        0xF0u8, 0x80u8, 0xF0u8, 0x80u8, 0xF0u8,  // E
        0xF0u8, 0x80u8, 0xF0u8, 0x80u8, 0x80u8,  // F
    ]
}

/// The font table as bytes.
fn font_sprites() -> (f: [u8; 80])
    ensures
        f@ == font_seq(),
{
    let f: [u8; 80] = [
        0xF0, 0x90, 0x90, 0x90, 0xF0, 0x20, 0x60, 0x20, 0x20, 0x70, 0xF0, 0x10, 0xF0, 0x80, 0xF0,
        0xF0, 0x10, 0xF0, 0x10, 0xF0, 0x90, 0x90, 0xF0, 0x10, 0x10, 0xF0, 0x80, 0xF0, 0x10, 0xF0,
        0xF0, 0x80, 0xF0, 0x90, 0xF0, 0xF0, 0x10, 0x20, 0x40, 0x40, 0xF0, 0x90, 0xF0, 0x90, 0xF0,
        0xF0, 0x90, 0xF0, 0x10, 0xF0, 0xF0, 0x90, 0xF0, 0x90, 0x90, 0xE0, 0x90, 0xE0, 0x90, 0xE0,
        0xF0, 0x80, 0x80, 0x80, 0xF0, 0xE0, 0x90, 0x90, 0x90, 0xE0, 0xF0, 0x80, 0xF0, 0x80, 0xF0,
        0xF0, 0x80, 0xF0, 0x80, 0x80,
    ];
    proof {
        assert(f@ =~= font_seq());
    }
    f
}

// ---------------------------------------------------------------------
// Frame predicates: which parts of the state an instruction leaves alone
// ---------------------------------------------------------------------

/// Fields no execute step ever writes: the fetch latch, the host-owned
/// input latch, and the timer pacing clock.
pub open spec fn same_inputs(pre: Cpu, post: Cpu) -> bool {
    &&& post.opcode == pre.opcode
    &&& post.key_buff == pre.key_buff
    &&& post.last_tick == pre.last_tick
}

pub open spec fn same_timers(pre: Cpu, post: Cpu) -> bool {
    &&& post.delay_timer == pre.delay_timer
    &&& post.sound_timer == pre.sound_timer
}

pub open spec fn same_mem(pre: Cpu, post: Cpu) -> bool {
    post.memory == pre.memory
}

pub open spec fn same_disp(pre: Cpu, post: Cpu) -> bool {
    post.disp_buff == pre.disp_buff
}

pub open spec fn same_stack(pre: Cpu, post: Cpu) -> bool {
    &&& post.sp == pre.sp
    &&& post.stack == pre.stack
}

pub open spec fn same_v(pre: Cpu, post: Cpu) -> bool {
    post.v == pre.v
}

pub open spec fn same_i(pre: Cpu, post: Cpu) -> bool {
    post.i == pre.i
}

/// Nothing at all changed.
pub open spec fn same_state(pre: Cpu, post: Cpu) -> bool {
    &&& same_inputs(pre, post)
    &&& same_timers(pre, post)
    &&& same_mem(pre, post)
    &&& same_disp(pre, post)
    &&& same_stack(pre, post)
    &&& same_v(pre, post)
    &&& same_i(pre, post)
    &&& post.pc == pre.pc
}

/// The frame of a register instruction: everything but the register file
/// and the program counter is left alone.
pub open spec fn reg_frame(pre: Cpu, post: Cpu) -> bool {
    &&& same_inputs(pre, post)
    &&& same_timers(pre, post)
    &&& same_mem(pre, post)
    &&& same_disp(pre, post)
    &&& same_stack(pre, post)
    &&& same_i(pre, post)
}

/// The frame of a pure control-flow instruction: only the program counter
/// may move.
pub open spec fn jump_frame(pre: Cpu, post: Cpu) -> bool {
    &&& reg_frame(pre, post)
    &&& same_v(pre, post)
}

// ---------------------------------------------------------------------
// Instruction semantics, one predicate per operation
// ---------------------------------------------------------------------

/// 00E0: every pixel off, program counter advanced.
pub open spec fn spec_op_cls(pre: Cpu, post: Cpu) -> bool {
    &&& same_inputs(pre, post)
    &&& same_timers(pre, post)
    &&& same_mem(pre, post)
    &&& same_stack(pre, post)
    &&& same_v(pre, post)
    &&& same_i(pre, post)
    &&& post.pc == pc2(pre.pc)
    &&& forall|r: int, c: int| 0 <= r < 32 && 0 <= c < 64 ==> !post.disp_buff[r][c]
}

/// 00EE: pop the call-site address and resume two past it; underflow is a
/// fault that leaves the state alone.
pub open spec fn spec_op_ret(pre: Cpu, post: Cpu, r: Result<(), Fault>) -> bool {
    if 1 <= pre.sp <= 16 {
        &&& r is Ok
        &&& same_inputs(pre, post)
        &&& same_timers(pre, post)
        &&& same_mem(pre, post)
        &&& same_disp(pre, post)
        &&& same_v(pre, post)
        &&& same_i(pre, post)
        &&& post.stack == pre.stack
        &&& post.sp == pre.sp - 1
        &&& post.pc == pc2(pre.stack[pre.sp - 1])
    } else {
        &&& r == Err::<(), Fault>(Fault::StackUnderflow)
        &&& same_state(pre, post)
    }
}

/// 1nnn: jump to the embedded address.
pub open spec fn spec_op_jp(pre: Cpu, post: Cpu) -> bool {
    &&& jump_frame(pre, post)
    &&& post.pc == op_nnn(pre.opcode)
}

/// 2nnn: push the call-site address, then jump; overflow is a fault that
/// leaves the state alone.
pub open spec fn spec_op_call(pre: Cpu, post: Cpu, r: Result<(), Fault>) -> bool {
    if pre.sp < 16 {
        &&& r is Ok
        &&& same_inputs(pre, post)
        &&& same_timers(pre, post)
        &&& same_mem(pre, post)
        &&& same_disp(pre, post)
        &&& same_v(pre, post)
        &&& same_i(pre, post)
        &&& post.stack@ == pre.stack@.update(pre.sp as int, pre.pc)
        &&& post.sp == pre.sp + 1
        &&& post.pc == op_nnn(pre.opcode)
    } else {
        &&& r == Err::<(), Fault>(Fault::StackOverflow)
        &&& same_state(pre, post)
    }
}

/// 3xkk: skip the next instruction when register x equals the literal.
pub open spec fn spec_op_se(pre: Cpu, post: Cpu) -> bool {
    &&& jump_frame(pre, post)
    &&& post.pc == if pre.v[op_x(pre.opcode) as int] == op_kk(pre.opcode) {
        pc4(pre.pc)
    } else {
        pc2(pre.pc)
    }
}

/// 4xkk: skip the next instruction when register x differs from the literal.
pub open spec fn spec_op_sne(pre: Cpu, post: Cpu) -> bool {
    &&& jump_frame(pre, post)
    &&& post.pc == if pre.v[op_x(pre.opcode) as int] != op_kk(pre.opcode) {
        pc4(pre.pc)
    } else {
        pc2(pre.pc)
    }
}

/// 5xy0: skip the next instruction when the two registers are equal.
pub open spec fn spec_op_se_vx_vy(pre: Cpu, post: Cpu) -> bool {
    &&& jump_frame(pre, post)
    &&& post.pc == if pre.v[op_x(pre.opcode) as int] == pre.v[op_y(pre.opcode) as int] {
        pc4(pre.pc)
    } else {
        pc2(pre.pc)
    }
}

/// 9xy0: skip the next instruction when the two registers differ.
pub open spec fn spec_op_sne_vx_vy(pre: Cpu, post: Cpu) -> bool {
    &&& jump_frame(pre, post)
    &&& post.pc == if pre.v[op_x(pre.opcode) as int] != pre.v[op_y(pre.opcode) as int] {
        pc4(pre.pc)
    } else {
        pc2(pre.pc)
    }
}

/// 6xkk: load the literal into register x.
pub open spec fn spec_op_ld_vx_byte(pre: Cpu, post: Cpu) -> bool {
    &&& reg_frame(pre, post)
    &&& post.v@ == pre.v@.update(op_x(pre.opcode) as int, op_kk(pre.opcode))
    &&& post.pc == pc2(pre.pc)
}

/// 7xkk: add the literal to register x, truncating modulo 256, no flag.
pub open spec fn spec_op_add_vx_byte(pre: Cpu, post: Cpu) -> bool {
    let x = op_x(pre.opcode) as int;
    &&& reg_frame(pre, post)
    &&& post.v@ == pre.v@.update(x, sum8(pre.v[x], op_kk(pre.opcode)))
    &&& post.pc == pc2(pre.pc)
}

/// 8xy0: copy register y into register x.
pub open spec fn spec_op_ld_vx_vy(pre: Cpu, post: Cpu) -> bool {
    &&& reg_frame(pre, post)
    &&& post.v@ == pre.v@.update(op_x(pre.opcode) as int, pre.v[op_y(pre.opcode) as int])
    &&& post.pc == pc2(pre.pc)
}

/// 8xy1: bitwise OR of the two registers into register x.
pub open spec fn spec_op_or(pre: Cpu, post: Cpu) -> bool {
    let x = op_x(pre.opcode) as int;
    let y = op_y(pre.opcode) as int;
    &&& reg_frame(pre, post)
    &&& post.v@ == pre.v@.update(x, pre.v[x] | pre.v[y])
    &&& post.pc == pc2(pre.pc)
}

/// 8xy2: bitwise AND of the two registers into register x.
pub open spec fn spec_op_and(pre: Cpu, post: Cpu) -> bool {
    let x = op_x(pre.opcode) as int;
    let y = op_y(pre.opcode) as int;
    &&& reg_frame(pre, post)
    &&& post.v@ == pre.v@.update(x, pre.v[x] & pre.v[y])
    &&& post.pc == pc2(pre.pc)
}

/// 8xy3: bitwise XOR of the two registers into register x.
pub open spec fn spec_op_xor(pre: Cpu, post: Cpu) -> bool {
    let x = op_x(pre.opcode) as int;
    let y = op_y(pre.opcode) as int;
    &&& reg_frame(pre, post)
    &&& post.v@ == pre.v@.update(x, pre.v[x] ^ pre.v[y])
    &&& post.pc == pc2(pre.pc)
}

/// 8xy4: add with carry. The flag is written before the destination, so a
/// destination of register 15 keeps the sum, not the carry.
pub open spec fn spec_op_add_vx_vy(pre: Cpu, post: Cpu) -> bool {
    let x = op_x(pre.opcode) as int;
    let y = op_y(pre.opcode) as int;
    let a = pre.v[x];
    let b = pre.v[y];
    &&& reg_frame(pre, post)
    &&& post.v@ == pre.v@.update(15, carry8(a, b)).update(x, sum8(a, b))
    &&& post.pc == pc2(pre.pc)
}

/// 8xy5: subtract register y from register x with a no-borrow flag. The
/// flag is written first and the operands re-read, as the reference
/// machine does, so register 15 as an operand sees the flag.
pub open spec fn spec_op_sub_vx_vy(pre: Cpu, post: Cpu) -> bool {
    let x = op_x(pre.opcode) as int;
    let y = op_y(pre.opcode) as int;
    let v1 = pre.v@.update(15, no_borrow8(pre.v[x], pre.v[y]));
    &&& reg_frame(pre, post)
    &&& post.v@ == v1.update(x, diff8(v1[x], v1[y]))
    &&& post.pc == pc2(pre.pc)
}

/// 8xy6: shift register y right by one into register x; the flag takes
/// the bit shifted out. The flag is written before the source is read.
pub open spec fn spec_op_shr_vx_vy(pre: Cpu, post: Cpu) -> bool {
    let x = op_x(pre.opcode) as int;
    let y = op_y(pre.opcode) as int;
    let v1 = pre.v@.update(15, pre.v[y] & 1);
    &&& reg_frame(pre, post)
    &&& post.v@ == v1.update(x, v1[y] >> 1u8)
    &&& post.pc == pc2(pre.pc)
}

/// 8xy7: subtract register x from register y with a no-borrow flag,
/// result into register x; the flag is written first.
pub open spec fn spec_op_subn_vx_vy(pre: Cpu, post: Cpu) -> bool {
    let x = op_x(pre.opcode) as int;
    let y = op_y(pre.opcode) as int;
    let v1 = pre.v@.update(15, no_borrow8(pre.v[y], pre.v[x]));
    &&& reg_frame(pre, post)
    &&& post.v@ == v1.update(x, diff8(v1[y], v1[x]))
    &&& post.pc == pc2(pre.pc)
}

/// 8xyE: shift register y left by one into register x; the flag takes the
/// bit shifted out. The flag is written before the source is read.
pub open spec fn spec_op_shl_vx_vy(pre: Cpu, post: Cpu) -> bool {
    let x = op_x(pre.opcode) as int;
    let y = op_y(pre.opcode) as int;
    let v1 = pre.v@.update(15, pre.v[y] >> 7u8);
    &&& reg_frame(pre, post)
    &&& post.v@ == v1.update(x, v1[y] << 1u8)
    &&& post.pc == pc2(pre.pc)
}

/// Annn: load the embedded address into the address register.
pub open spec fn spec_op_ld_i_addr(pre: Cpu, post: Cpu) -> bool {
    &&& same_inputs(pre, post)
    &&& same_timers(pre, post)
    &&& same_mem(pre, post)
    &&& same_disp(pre, post)
    &&& same_stack(pre, post)
    &&& same_v(pre, post)
    &&& post.i == op_nnn(pre.opcode)
    &&& post.pc == pc2(pre.pc)
}

/// Bnnn: jump to the embedded address plus register 0.
pub open spec fn spec_op_jp_v0_addr(pre: Cpu, post: Cpu) -> bool {
    &&& jump_frame(pre, post)
    &&& post.pc == pre.v[0] + op_nnn(pre.opcode)
}

/// Register x took the byte `b` masked by the instruction's literal.
pub open spec fn masked_random(pre: Cpu, post: Cpu, b: u8) -> bool {
    post.v@ == pre.v@.update(op_x(pre.opcode) as int, b & op_kk(pre.opcode))
}

/// Cxkk: a random byte masked by the literal into register x. Which byte
/// came from the generator is not pinned down.
pub open spec fn spec_op_rnd_vx_byte(pre: Cpu, post: Cpu) -> bool {
    &&& reg_frame(pre, post)
    &&& exists|b: u8| #[trigger] masked_random(pre, post, b)
    &&& post.pc == pc2(pre.pc)
}

/// Ex9E: skip the next instruction when the key numbered by register x
/// is down; a register value past the 16-key latch is a fault.
pub open spec fn spec_op_skp_vx(pre: Cpu, post: Cpu, r: Result<(), Fault>) -> bool {
    let key = pre.v[op_x(pre.opcode) as int];
    if key < 16 {
        &&& r is Ok
        &&& jump_frame(pre, post)
        &&& post.pc == if pre.key_buff[key as int] {
            pc4(pre.pc)
        } else {
            pc2(pre.pc)
        }
    } else {
        &&& r == Err::<(), Fault>(Fault::OutOfBounds)
        &&& same_state(pre, post)
    }
}

/// ExA1: skip the next instruction when the key numbered by register x
/// is up; a register value past the 16-key latch is a fault.
pub open spec fn spec_op_sknp_vx(pre: Cpu, post: Cpu, r: Result<(), Fault>) -> bool {
    let key = pre.v[op_x(pre.opcode) as int];
    if key < 16 {
        &&& r is Ok
        &&& jump_frame(pre, post)
        &&& post.pc == if !pre.key_buff[key as int] {
            pc4(pre.pc)
        } else {
            pc2(pre.pc)
        }
    } else {
        &&& r == Err::<(), Fault>(Fault::OutOfBounds)
        &&& same_state(pre, post)
    }
}

/// Fx07: copy the delay timer into register x.
pub open spec fn spec_op_ld_vx_dt(pre: Cpu, post: Cpu) -> bool {
    &&& reg_frame(pre, post)
    &&& post.v@ == pre.v@.update(op_x(pre.opcode) as int, pre.delay_timer)
    &&& post.pc == pc2(pre.pc)
}

/// Some key of the latch is down.
pub open spec fn any_key(keys: [bool; 16]) -> bool {
    exists|k: int| 0 <= k < 16 && keys[k]
}

/// Fx0A: wait for a key. With no key down the state is untouched — the
/// program counter does not advance, so the instruction re-executes on
/// the next cycle. Once a key is down, the lowest-numbered pressed key
/// goes into register x and the counter advances.
/// Register x took `k`, the lowest-numbered key that is down.
pub open spec fn takes_lowest_key(pre: Cpu, post: Cpu, k: int) -> bool {
    &&& 0 <= k < 16
    &&& pre.key_buff[k]
    &&& forall|j: int| 0 <= j < k ==> !pre.key_buff[j]
    &&& post.v@ == pre.v@.update(op_x(pre.opcode) as int, k as u8)
}

pub open spec fn spec_op_ld_vx_k(pre: Cpu, post: Cpu) -> bool {
    if any_key(pre.key_buff) {
        &&& reg_frame(pre, post)
        &&& exists|k: int| #[trigger] takes_lowest_key(pre, post, k)
        &&& post.pc == pc2(pre.pc)
    } else {
        same_state(pre, post)
    }
}

/// Fx15: copy register x into the delay timer.
pub open spec fn spec_op_ld_dt_vx(pre: Cpu, post: Cpu) -> bool {
    &&& same_inputs(pre, post)
    &&& same_mem(pre, post)
    &&& same_disp(pre, post)
    &&& same_stack(pre, post)
    &&& same_v(pre, post)
    &&& same_i(pre, post)
    &&& post.sound_timer == pre.sound_timer
    &&& post.delay_timer == pre.v[op_x(pre.opcode) as int]
    &&& post.pc == pc2(pre.pc)
}

/// Fx18: copy register x into the sound timer.
pub open spec fn spec_op_ld_st_vx(pre: Cpu, post: Cpu) -> bool {
    &&& same_inputs(pre, post)
    &&& same_mem(pre, post)
    &&& same_disp(pre, post)
    &&& same_stack(pre, post)
    &&& same_v(pre, post)
    &&& same_i(pre, post)
    &&& post.delay_timer == pre.delay_timer
    &&& post.sound_timer == pre.v[op_x(pre.opcode) as int]
    &&& post.pc == pc2(pre.pc)
}

/// Fx29: point the address register at the 5-byte font glyph for the
/// digit in register x.
pub open spec fn spec_op_ld_f_vx(pre: Cpu, post: Cpu) -> bool {
    &&& same_inputs(pre, post)
    &&& same_timers(pre, post)
    &&& same_mem(pre, post)
    &&& same_disp(pre, post)
    &&& same_stack(pre, post)
    &&& same_v(pre, post)
    &&& post.i == 5 * pre.v[op_x(pre.opcode) as int]
    &&& post.pc == pc2(pre.pc)
}

/// Fx33: store the decimal digits of register x at the address register:
/// hundreds, tens, ones. The address register itself is untouched; a
/// write past the 4096-byte space is a fault.
pub open spec fn spec_op_ld_b_vx(pre: Cpu, post: Cpu, r: Result<(), Fault>) -> bool {
    let i = pre.i as int;
    let vx = pre.v[op_x(pre.opcode) as int];
    if i + 2 < 4096 {
        &&& r is Ok
        &&& same_inputs(pre, post)
        &&& same_timers(pre, post)
        &&& same_disp(pre, post)
        &&& same_stack(pre, post)
        &&& same_v(pre, post)
        &&& same_i(pre, post)
        &&& post.memory@ == pre.memory@.update(i, (vx / 100) as u8).update(
            i + 1,
            ((vx / 10) % 10) as u8,
        ).update(i + 2, (vx % 10) as u8)
        &&& post.pc == pc2(pre.pc)
    } else {
        &&& r == Err::<(), Fault>(Fault::OutOfBounds)
        &&& same_state(pre, post)
    }
}

/// Fx55: store registers 0 through x to memory at the address register,
/// then advance the address register by x + 1. A write past the
/// 4096-byte space is a fault.
pub open spec fn spec_op_ld_i_vx(pre: Cpu, post: Cpu, r: Result<(), Fault>) -> bool {
    let i = pre.i as int;
    let x = op_x(pre.opcode) as int;
    if i + x < 4096 {
        &&& r is Ok
        &&& same_inputs(pre, post)
        &&& same_timers(pre, post)
        &&& same_disp(pre, post)
        &&& same_stack(pre, post)
        &&& same_v(pre, post)
        &&& forall|k: int| 0 <= k <= x ==> post.memory[i + k] == pre.v[k]
        &&& forall|k: int| 0 <= k < 4096 && !(i <= k <= i + x) ==> post.memory[k] == pre.memory[k]
        &&& post.i == pre.i + x + 1
        &&& post.pc == pc2(pre.pc)
    } else {
        &&& r == Err::<(), Fault>(Fault::OutOfBounds)
        &&& same_state(pre, post)
    }
}

/// Fx65: load registers 0 through x from memory at the address register,
/// then advance the address register by x + 1. A read past the 4096-byte
/// space is a fault.
pub open spec fn spec_op_ld_vx_i(pre: Cpu, post: Cpu, r: Result<(), Fault>) -> bool {
    let i = pre.i as int;
    let x = op_x(pre.opcode) as int;
    if i + x < 4096 {
        &&& same_inputs(pre, post)
        &&& same_timers(pre, post)
        &&& same_mem(pre, post)
        &&& same_disp(pre, post)
        &&& same_stack(pre, post)
        &&& r is Ok
        &&& forall|k: int| 0 <= k <= x ==> post.v[k] == pre.memory[i + k]
        &&& forall|k: int| x < k < 16 ==> post.v[k] == pre.v[k]
        &&& post.i == pre.i + x + 1
        &&& post.pc == pc2(pre.pc)
    } else {
        &&& r == Err::<(), Fault>(Fault::OutOfBounds)
        &&& same_state(pre, post)
    }
}

// ---------------------------------------------------------------------
// The draw instruction
// ---------------------------------------------------------------------

/// One pixel of the frame buffer.
pub open spec fn pix(d: [[bool; 64]; 32], r: int, c: int) -> bool {
    d[r][c]
}

/// Whether screen cell (r, c) lies inside the drawn region of an n-row
/// sprite placed at (vx, vy): rows past the bottom edge and columns past
/// the right edge are clipped, not wrapped.
pub open spec fn in_sprite(vx: int, vy: int, n: int, r: int, c: int) -> bool {
    &&& vy <= r < vy + n
    &&& r < 32
    &&& vx <= c < vx + 8
    &&& c < 64
}

/// The sprite bit that lands on screen cell (r, c): bit (c - vx), counted
/// from the most significant end, of sprite row (r - vy) read from
/// memory at base address i.
pub open spec fn sprite_pixel(mem: [u8; 4096], i: int, vx: int, vy: int, r: int, c: int) -> bool {
    mem[i + (r - vy)] & (0x80u8 >> ((c - vx) as u8)) != 0
}

/// A collision at cell (r, c): the sprite sets a bit on a pixel that is
/// already on, so the XOR blit turns it off.
pub open spec fn draw_hit(pre: Cpu, vx: int, vy: int, n: int, r: int, c: int) -> bool {
    &&& in_sprite(vx, vy, n, r, c)
    &&& sprite_pixel(pre.memory, pre.i as int, vx, vy, r, c)
    &&& pix(pre.disp_buff, r, c)
}

/// Whether the draw turns any pixel from on to off.
pub open spec fn draw_collides(pre: Cpu, vx: int, vy: int, n: int) -> bool {
    exists|r: int, c: int| #[trigger] draw_hit(pre, vx, vy, n, r, c)
}

/// The frame buffer `d` part-way through a blit: the first `rows` sprite
/// rows and, on the row after them, the first `cols` sprite columns have
/// been toggled; every other pixel still shows `pre`.
spec fn drawn_upto(pre: Cpu, d: [[bool; 64]; 32], vx: int, vy: int, rows: int, cols: int) -> bool {
    forall|rr: int, cc: int|
        0 <= rr < 32 && 0 <= cc < 64 ==> #[trigger] pix(d, rr, cc) == (if in_sprite(
            vx,
            vy,
            rows,
            rr,
            cc,
        ) || (rr == vy + rows && vx <= cc < vx + cols && cc < 64) {
            pix(pre.disp_buff, rr, cc) != sprite_pixel(pre.memory, pre.i as int, vx, vy, rr, cc)
        } else {
            pix(pre.disp_buff, rr, cc)
        })
}

/// A collision somewhere in the first `rows` sprite rows, or in the
/// first `cols` columns of the row after them.
spec fn hits_upto(pre: Cpu, vx: int, vy: int, rows: int, cols: int) -> bool {
    ||| draw_collides(pre, vx, vy, rows)
    ||| exists|cc: int|
        vx <= cc < vx + cols && cc < 64 && #[trigger] sprite_pixel(
            pre.memory,
            pre.i as int,
            vx,
            vy,
            vy + rows,
            cc,
        ) && pix(pre.disp_buff, vy + rows, cc)
}

/// After a full sprite row is blitted, the part-way region of the next
/// row equals the one-more-row region, and the collisions seen so far
/// are exactly those of the taller sprite.
proof fn lemma_row_rollover(pre: Cpu, vx: int, vy: int, n: int, row: int, col_max: int)
    requires
        0 <= vx <= 0x3F,
        0 <= vy <= 0x1F,
        0 <= row < n,
        vy + row < 32,
        col_max == if 64 - vx > 8 {
            8int
        } else {
            64 - vx
        },
    ensures
        forall|a: int, b: int|
            #![trigger in_sprite(vx, vy, row + 1, a, b)]
            in_sprite(vx, vy, row + 1, a, b) <==> (in_sprite(vx, vy, row, a, b) || (a == vy + row
                && vx <= b < vx + col_max && b < 64)),
        hits_upto(pre, vx, vy, row, col_max) == draw_collides(pre, vx, vy, row + 1),
{
    assert(hits_upto(pre, vx, vy, row, col_max) == draw_collides(pre, vx, vy, row + 1)) by {
        if hits_upto(pre, vx, vy, row, col_max) {
            if draw_collides(pre, vx, vy, row) {
                let (a, b) = choose|a: int, b: int| #[trigger] draw_hit(pre, vx, vy, row, a, b);
                assert(draw_hit(pre, vx, vy, row + 1, a, b));
            } else {
                let w = choose|w: int|
                    vx <= w < vx + col_max && w < 64 && #[trigger] sprite_pixel(
                        pre.memory,
                        pre.i as int,
                        vx,
                        vy,
                        vy + row,
                        w,
                    ) && pix(pre.disp_buff, vy + row, w);
                assert(draw_hit(pre, vx, vy, row + 1, vy + row, w));
            }
        }
        if draw_collides(pre, vx, vy, row + 1) {
            let (a, b) = choose|a: int, b: int| #[trigger] draw_hit(pre, vx, vy, row + 1, a, b);
            if a < vy + row {
                assert(draw_hit(pre, vx, vy, row, a, b));
            } else {
                assert(hits_upto(pre, vx, vy, row, col_max));
            }
        }
    }
}

/// Rows clipped at the bottom edge draw nothing, so stopping there is
/// the same as blitting the sprite's full height.
proof fn lemma_draw_done(pre: Cpu, vx: int, vy: int, n: int, row_max: int)
    requires
        0 <= vx,
        0 <= vy,
        0 <= row_max <= n,
        row_max == n || vy + row_max == 32,
    ensures
        forall|a: int, b: int|
            #![trigger in_sprite(vx, vy, n, a, b)]
            in_sprite(vx, vy, n, a, b) <==> in_sprite(vx, vy, row_max, a, b),
        draw_collides(pre, vx, vy, row_max) == draw_collides(pre, vx, vy, n),
{
    assert(draw_collides(pre, vx, vy, row_max) == draw_collides(pre, vx, vy, n)) by {
        if draw_collides(pre, vx, vy, row_max) {
            let (a, b) = choose|a: int, b: int| #[trigger] draw_hit(pre, vx, vy, row_max, a, b);
            assert(draw_hit(pre, vx, vy, n, a, b));
        }
        if draw_collides(pre, vx, vy, n) {
            let (a, b) = choose|a: int, b: int| #[trigger] draw_hit(pre, vx, vy, n, a, b);
            assert(draw_hit(pre, vx, vy, row_max, a, b));
        }
    }
}

/// Dxyn: XOR an n-row sprite read from memory at the address register
/// onto the screen at the coordinates in registers x and y, and set the
/// flag register to 1 exactly when some pixel toggled off. Coordinates
/// off the 64x32 screen draw nothing — an empty blit: the screen keeps
/// every pixel, the flag clears (nothing collided) and the counter
/// advances like any other instruction's. A sprite read past the
/// 4096-byte space is a fault.
pub open spec fn spec_op_drw_vx_vy_n(pre: Cpu, post: Cpu, r: Result<(), Fault>) -> bool {
    let vx = pre.v[op_x(pre.opcode) as int] as int;
    let vy = pre.v[op_y(pre.opcode) as int] as int;
    let n = op_n(pre.opcode) as int;
    let i = pre.i as int;
    if vx > 0x3F || vy > 0x1F {
        &&& r is Ok
        &&& same_inputs(pre, post)
        &&& same_timers(pre, post)
        &&& same_mem(pre, post)
        &&& same_stack(pre, post)
        &&& same_i(pre, post)
        &&& same_disp(pre, post)
        &&& post.v@ == pre.v@.update(15, 0u8)
        &&& post.pc == pc2(pre.pc)
    } else if i + n > 4096 {
        &&& r == Err::<(), Fault>(Fault::OutOfBounds)
        &&& same_state(pre, post)
    } else {
        &&& r is Ok
        &&& same_inputs(pre, post)
        &&& same_timers(pre, post)
        &&& same_mem(pre, post)
        &&& same_stack(pre, post)
        &&& same_i(pre, post)
        &&& post.v@ == pre.v@.update(
            15,
            if draw_collides(pre, vx, vy, n) {
                1u8
            } else {
                0u8
            },
        )
        &&& forall|rr: int, cc: int|
            0 <= rr < 32 && 0 <= cc < 64 ==> #[trigger] pix(post.disp_buff, rr, cc) == (if in_sprite(
                vx,
                vy,
                n,
                rr,
                cc,
            ) {
                pix(pre.disp_buff, rr, cc) != sprite_pixel(pre.memory, i, vx, vy, rr, cc)
            } else {
                pix(pre.disp_buff, rr, cc)
            })
        &&& post.pc == pc2(pre.pc)
    }
}

// ---------------------------------------------------------------------
// Decode, one full execute step, the timer tick, one full cycle
// ---------------------------------------------------------------------

/// The 8xy_ sub-operations, selected by the low nibble.
pub open spec fn spec_step_8(pre: Cpu, post: Cpu, r: Result<(), Fault>) -> bool {
    let sel = pre.opcode & 0x000f;
    if sel == 0x0 {
        r is Ok && spec_op_ld_vx_vy(pre, post)
    } else if sel == 0x1 {
        r is Ok && spec_op_or(pre, post)
    } else if sel == 0x2 {
        r is Ok && spec_op_and(pre, post)
    } else if sel == 0x3 {
        r is Ok && spec_op_xor(pre, post)
    } else if sel == 0x4 {
        r is Ok && spec_op_add_vx_vy(pre, post)
    } else if sel == 0x5 {
        r is Ok && spec_op_sub_vx_vy(pre, post)
    } else if sel == 0x6 {
        r is Ok && spec_op_shr_vx_vy(pre, post)
    } else if sel == 0x7 {
        r is Ok && spec_op_subn_vx_vy(pre, post)
    } else if sel == 0xE {
        r is Ok && spec_op_shl_vx_vy(pre, post)
    } else {
        r == Err::<(), Fault>(Fault::UnknownOpcode(pre.opcode)) && same_state(pre, post)
    }
}

/// The Ex__ sub-operations, selected by the low byte.
pub open spec fn spec_step_e(pre: Cpu, post: Cpu, r: Result<(), Fault>) -> bool {
    let sel = pre.opcode & 0x00ff;
    if sel == 0x9E {
        spec_op_skp_vx(pre, post, r)
    } else if sel == 0xA1 {
        spec_op_sknp_vx(pre, post, r)
    } else {
        r == Err::<(), Fault>(Fault::UnknownOpcode(pre.opcode)) && same_state(pre, post)
    }
}

/// The Fx__ sub-operations, selected by the low byte.
pub open spec fn spec_step_f(pre: Cpu, post: Cpu, r: Result<(), Fault>) -> bool {
    let sel = pre.opcode & 0x00ff;
    if sel == 0x07 {
        r is Ok && spec_op_ld_vx_dt(pre, post)
    } else if sel == 0x0A {
        r is Ok && spec_op_ld_vx_k(pre, post)
    } else if sel == 0x15 {
        r is Ok && spec_op_ld_dt_vx(pre, post)
    } else if sel == 0x18 {
        r is Ok && spec_op_ld_st_vx(pre, post)
    } else if sel == 0x29 {
        r is Ok && spec_op_ld_f_vx(pre, post)
    } else if sel == 0x33 {
        spec_op_ld_b_vx(pre, post, r)
    } else if sel == 0x55 {
        spec_op_ld_i_vx(pre, post, r)
    } else if sel == 0x65 {
        spec_op_ld_vx_i(pre, post, r)
    } else {
        r == Err::<(), Fault>(Fault::UnknownOpcode(pre.opcode)) && same_state(pre, post)
    }
}

/// The 0x__ group: clear, return, and the explicit all-zero halt marker.
pub open spec fn spec_step_0(pre: Cpu, post: Cpu, r: Result<(), Fault>) -> bool {
    if pre.opcode == 0x00E0 {
        r is Ok && spec_op_cls(pre, post)
    } else if pre.opcode == 0x00EE {
        spec_op_ret(pre, post, r)
    } else if pre.opcode == 0x0000 {
        r == Err::<(), Fault>(Fault::Halt) && same_state(pre, post)
    } else {
        r == Err::<(), Fault>(Fault::UnknownOpcode(pre.opcode)) && same_state(pre, post)
    }
}

/// One decoded-and-executed instruction: the effect of the opcode already
/// latched in `pre.opcode` on the rest of the state. On a fault the state
/// is untouched.
pub open spec fn spec_step(pre: Cpu, post: Cpu, r: Result<(), Fault>) -> bool {
    let group = pre.opcode & 0xf000;
    if group == 0x0000 {
        spec_step_0(pre, post, r)
    } else if group == 0x1000 {
        r is Ok && spec_op_jp(pre, post)
    } else if group == 0x2000 {
        spec_op_call(pre, post, r)
    } else if group == 0x3000 {
        r is Ok && spec_op_se(pre, post)
    } else if group == 0x4000 {
        r is Ok && spec_op_sne(pre, post)
    } else if group == 0x5000 {
        r is Ok && spec_op_se_vx_vy(pre, post)
    } else if group == 0x6000 {
        r is Ok && spec_op_ld_vx_byte(pre, post)
    } else if group == 0x7000 {
        r is Ok && spec_op_add_vx_byte(pre, post)
    } else if group == 0x8000 {
        spec_step_8(pre, post, r)
    } else if group == 0x9000 {
        r is Ok && spec_op_sne_vx_vy(pre, post)
    } else if group == 0xA000 {
        r is Ok && spec_op_ld_i_addr(pre, post)
    } else if group == 0xB000 {
        r is Ok && spec_op_jp_v0_addr(pre, post)
    } else if group == 0xC000 {
        r is Ok && spec_op_rnd_vx_byte(pre, post)
    } else if group == 0xD000 {
        spec_op_drw_vx_vy_n(pre, post, r)
    } else if group == 0xE000 {
        spec_step_e(pre, post, r)
    } else {
        spec_step_f(pre, post, r)
    }
}

/// One countdown of a timer: toward zero when due, never below it.
pub open spec fn tick8(t: u8, due: bool) -> u8 {
    if due && t > 0 {
        (t - 1) as u8
    } else {
        t
    }
}

/// The timer step of a cycle. Whether the ~60 Hz interval has elapsed
/// depends on the host's clock, so only the shape of the change is
/// pinned: both timers count down together when the interval was due,
/// and nothing else moves.
/// The timer step, with the clock's verdict `due` made explicit.
pub open spec fn spec_tick_with(pre: Cpu, post: Cpu, due: bool) -> bool {
    &&& post.opcode == pre.opcode
    &&& post.key_buff == pre.key_buff
    &&& same_mem(pre, post)
    &&& same_disp(pre, post)
    &&& same_stack(pre, post)
    &&& same_v(pre, post)
    &&& same_i(pre, post)
    &&& post.pc == pre.pc
    &&& post.delay_timer == tick8(pre.delay_timer, due)
    &&& post.sound_timer == tick8(pre.sound_timer, due)
    &&& (!due ==> post.last_tick == pre.last_tick)
}

pub open spec fn spec_tick(pre: Cpu, post: Cpu) -> bool {
    exists|due: bool| #[trigger] spec_tick_with(pre, post, due)
}

/// One full cycle: fetch at the program counter, execute, count timers.
/// A counter at the edge of memory cannot fetch and is a fault; on any
/// fault the machine is left as it was (with the offending word latched),
/// and the timers do not count.
pub open spec fn spec_cycle(pre: Cpu, post: Cpu, r: Result<(), Fault>) -> bool {
    if pre.pc as int + 1 >= 4096 {
        &&& r == Err::<(), Fault>(Fault::OutOfBounds)
        &&& same_state(pre, post)
    } else {
        let fetched = Cpu { opcode: fetch16(pre.memory, pre.pc), ..pre };
        match r {
            Ok(_) => exists|mid: Cpu| #[trigger] spec_step(fetched, mid, Ok(())) && spec_tick(mid, post),
            Err(f) => spec_step(fetched, post, Err(f)),
        }
    }
}

// ---------------------------------------------------------------------
// The engine
// ---------------------------------------------------------------------

/// Relies on rand::random::<u8>: a byte drawn from the thread-local
/// generator. Nothing is promised of its value.
#[verifier::external_body]
fn random_byte() -> u8 {
    rand::random::<u8>()
}

impl Cpu {
    /// A machine with registers, memory, stack, timers, input latch and
    /// screen all zeroed, and the address register and program counter
    /// at the program origin.
    pub fn new() -> (cpu: Cpu)
        ensures
            cpu.opcode == 0,
            cpu.i == 0x200,
            cpu.pc == 0x200,
            cpu.sp == 0,
            cpu.delay_timer == 0,
            cpu.sound_timer == 0,
            forall|k: int| 0 <= k < 16 ==> cpu.v[k] == 0,
            forall|k: int| 0 <= k < 16 ==> cpu.stack[k] == 0,
            forall|k: int| 0 <= k < 4096 ==> cpu.memory[k] == 0,
            forall|k: int| 0 <= k < 16 ==> !cpu.key_buff[k],
            forall|r: int, c: int| 0 <= r < 32 && 0 <= c < 64 ==> !pix(cpu.disp_buff, r, c),
    {
        Cpu {
            opcode: 0,
            v: [0; 16],
            i: 0x200,
            sound_timer: 0,
            delay_timer: 0,
            pc: 0x200,
            sp: 0,
            stack: [0; 16],
            memory: [0; 4096],
            key_buff: [false; 16],
            disp_buff: [[false; 64]; 32],
            last_tick: instant_now(),
        }
    }

    /// The embedded 12-bit address of the latched instruction word.
    pub fn get_nnn(&self) -> (nnn: u16)
        ensures
            nnn == op_nnn(self.opcode),
            nnn < 0x1000,
    {
        proof {
            lemma_field_bounds(self.opcode);
        }
        self.opcode & 0x0fff
    }

    /// The embedded literal byte of the latched instruction word.
    pub fn get_kk(&self) -> (kk: u8)
        ensures
            kk == op_kk(self.opcode),
    {
        (self.opcode & 0x00ff) as u8
    }

    /// The first operand register index of the latched instruction word.
    pub fn get_x(&self) -> (x: u8)
        ensures
            x == op_x(self.opcode),
            x < 16,
    {
        proof {
            lemma_field_bounds(self.opcode);
        }
        ((self.opcode & 0x0f00) >> 8) as u8
    }

    /// The second operand register index of the latched instruction word.
    pub fn get_y(&self) -> (y: u8)
        ensures
            y == op_y(self.opcode),
            y < 16,
    {
        proof {
            lemma_field_bounds(self.opcode);
        }
        ((self.opcode & 0x00f0) >> 4) as u8
    }

    /// The low-nibble literal of the latched instruction word.
    pub fn get_n(&self) -> (n: u8)
        ensures
            n == op_n(self.opcode),
            n < 16,
    {
        proof {
            lemma_field_bounds(self.opcode);
        }
        (self.opcode & 0x000f) as u8
    }

    /// Advance the program counter past one instruction, wrapping at 16
    /// bits.
    pub fn inc_pc(&mut self)
        ensures
            *final(self) == (Cpu { pc: pc2(old(self).pc), ..*old(self) }),
    {
        self.pc = self.pc.wrapping_add(2);
    }

    /// Latch the instruction word held big-endian at the program counter.
    pub fn fetch_opcode(&mut self)
        requires
            old(self).pc as int + 1 < 4096,
        ensures
            *final(self) == (Cpu { opcode: fetch16(old(self).memory, old(self).pc), ..*old(self) }),
    {
        let hi = self.memory[self.pc as usize];
        let lo = self.memory[self.pc as usize + 1];
        self.opcode = ((hi as u16) << 8) | (lo as u16);
    }

    /// 00E0: clear the screen.
    pub fn op_cls(&mut self)
        ensures
            spec_op_cls(*old(self), *final(self)),
    {
        self.disp_buff = [[false; 64]; 32];
        self.inc_pc();
    }

    /// 00EE: return from a subroutine.
    pub fn op_ret(&mut self) -> (r: Result<(), Fault>)
        ensures
            spec_op_ret(*old(self), *final(self), r),
    {
        if self.sp < 1 || self.sp > 16 {
            return Err(Fault::StackUnderflow);
        }
        self.sp = self.sp - 1;
        self.pc = self.stack[self.sp];
        self.inc_pc();
        Ok(())
    }

    /// 1nnn: jump.
    pub fn op_jp(&mut self)
        ensures
            spec_op_jp(*old(self), *final(self)),
    {
        self.pc = self.get_nnn();
    }

    /// 2nnn: call a subroutine.
    pub fn op_call(&mut self) -> (r: Result<(), Fault>)
        ensures
            spec_op_call(*old(self), *final(self), r),
    {
        if self.sp >= 16 {
            return Err(Fault::StackOverflow);
        }
        self.stack[self.sp] = self.pc;
        self.sp = self.sp + 1;
        self.pc = self.get_nnn();
        Ok(())
    }

    /// 3xkk: skip when register x equals the literal.
    pub fn op_se(&mut self)
        ensures
            spec_op_se(*old(self), *final(self)),
    {
        let x = self.get_x();
        if self.v[x as usize] == self.get_kk() {
            self.inc_pc();
        }
        self.inc_pc();
    }

    /// 4xkk: skip when register x differs from the literal.
    pub fn op_sne(&mut self)
        ensures
            spec_op_sne(*old(self), *final(self)),
    {
        let x = self.get_x();
        if self.v[x as usize] != self.get_kk() {
            self.inc_pc();
        }
        self.inc_pc();
    }

    /// 5xy0: skip when the two registers are equal.
    pub fn op_se_vx_vy(&mut self)
        ensures
            spec_op_se_vx_vy(*old(self), *final(self)),
    {
        let x = self.get_x();
        let y = self.get_y();
        if self.v[x as usize] == self.v[y as usize] {
            self.inc_pc();
        }
        self.inc_pc();
    }

    /// 9xy0: skip when the two registers differ.
    pub fn op_sne_vx_vy(&mut self)
        ensures
            spec_op_sne_vx_vy(*old(self), *final(self)),
    {
        let x = self.get_x();
        let y = self.get_y();
        if self.v[x as usize] != self.v[y as usize] {
            self.inc_pc();
        }
        self.inc_pc();
    }

    /// 6xkk: load the literal into register x.
    pub fn op_ld_vx_byte(&mut self)
        ensures
            spec_op_ld_vx_byte(*old(self), *final(self)),
    {
        let x = self.get_x();
        let kk = self.get_kk();
        self.v[x as usize] = kk;
        self.inc_pc();
    }

    /// 7xkk: add the literal to register x, truncating modulo 256.
    pub fn op_add_vx_byte(&mut self)
        ensures
            spec_op_add_vx_byte(*old(self), *final(self)),
    {
        let x = self.get_x() as usize;
        let sum: u16 = self.v[x] as u16 + self.get_kk() as u16;
        let lo: u8 = if sum > 0xFF {
            (sum - 0x100) as u8
        } else {
            sum as u8
        };
        self.v[x] = lo;
        self.inc_pc();
    }

    /// 8xy0: copy register y into register x.
    pub fn op_ld_vx_vy(&mut self)
        ensures
            spec_op_ld_vx_vy(*old(self), *final(self)),
    {
        let x = self.get_x() as usize;
        let y = self.get_y() as usize;
        self.v[x] = self.v[y];
        self.inc_pc();
    }

    /// 8xy1: bitwise OR into register x.
    pub fn op_or(&mut self)
        ensures
            spec_op_or(*old(self), *final(self)),
    {
        let x = self.get_x() as usize;
        let y = self.get_y() as usize;
        self.v[x] = self.v[x] | self.v[y];
        self.inc_pc();
    }

    /// 8xy2: bitwise AND into register x.
    pub fn op_and(&mut self)
        ensures
            spec_op_and(*old(self), *final(self)),
    {
        let x = self.get_x() as usize;
        let y = self.get_y() as usize;
        self.v[x] = self.v[x] & self.v[y];
        self.inc_pc();
    }

    /// 8xy3: bitwise XOR into register x.
    pub fn op_xor(&mut self)
        ensures
            spec_op_xor(*old(self), *final(self)),
    {
        let x = self.get_x() as usize;
        let y = self.get_y() as usize;
        self.v[x] = self.v[x] ^ self.v[y];
        self.inc_pc();
    }

    /// 8xy4: add with carry into the flag register.
    pub fn op_add_vx_vy(&mut self)
        ensures
            spec_op_add_vx_vy(*old(self), *final(self)),
    {
        let x = self.get_x() as usize;
        let y = self.get_y() as usize;
        let sum: u16 = self.v[x] as u16 + self.v[y] as u16;
        if sum > 0xFF {
            self.v[0xF] = 1;
        } else {
            self.v[0xF] = 0;
        }
        let lo: u8 = if sum > 0xFF {
            (sum - 0x100) as u8
        } else {
            sum as u8
        };
        self.v[x] = lo;
        self.inc_pc();
    }

    /// 8xy5: subtract register y from register x, flag = no borrow.
    pub fn op_sub_vx_vy(&mut self)
        ensures
            spec_op_sub_vx_vy(*old(self), *final(self)),
    {
        let x = self.get_x() as usize;
        let y = self.get_y() as usize;
        if self.v[x] > self.v[y] {
            self.v[0xf] = 1;
        } else {
            self.v[0xf] = 0;
        }
        let a = self.v[x];
        let b = self.v[y];
        let d: u8 = if a >= b {
            a - b
        } else {
            (a as u16 + 0x100 - b as u16) as u8
        };
        self.v[x] = d;
        self.inc_pc();
    }

    /// 8xy6: shift register y right by one into register x.
    pub fn op_shr_vx_vy(&mut self)
        ensures
            spec_op_shr_vx_vy(*old(self), *final(self)),
    {
        let x = self.get_x() as usize;
        let y = self.get_y() as usize;
        self.v[0xf] = self.v[y] & 1;
        self.v[x] = self.v[y] >> 1;
        self.inc_pc();
    }

    /// 8xy7: subtract register x from register y, flag = no borrow.
    pub fn op_subn_vx_vy(&mut self)
        ensures
            spec_op_subn_vx_vy(*old(self), *final(self)),
    {
        let x = self.get_x() as usize;
        let y = self.get_y() as usize;
        if self.v[y] > self.v[x] {
            self.v[0xf] = 1;
        } else {
            self.v[0xf] = 0;
        }
        let a = self.v[y];
        let b = self.v[x];
        let d: u8 = if a >= b {
            a - b
        } else {
            (a as u16 + 0x100 - b as u16) as u8
        };
        self.v[x] = d;
        self.inc_pc();
    }

    /// 8xyE: shift register y left by one into register x.
    pub fn op_shl_vx_vy(&mut self)
        ensures
            spec_op_shl_vx_vy(*old(self), *final(self)),
    {
        let x = self.get_x() as usize;
        let y = self.get_y() as usize;
        self.v[0xf] = self.v[y] >> 7;
        self.v[x] = self.v[y] << 1;
        self.inc_pc();
    }

    /// Annn: load the embedded address into the address register.
    pub fn op_ld_i_addr(&mut self)
        ensures
            spec_op_ld_i_addr(*old(self), *final(self)),
    {
        self.i = self.get_nnn();
        self.inc_pc();
    }

    /// Bnnn: jump to the embedded address plus register 0.
    pub fn op_jp_v0_addr(&mut self)
        ensures
            spec_op_jp_v0_addr(*old(self), *final(self)),
    {
        self.pc = self.v[0] as u16 + self.get_nnn();
    }

    /// Cxkk: a random byte masked by the literal into register x.
    pub fn op_rnd_vx_byte(&mut self)
        ensures
            spec_op_rnd_vx_byte(*old(self), *final(self)),
    {
        let x = self.get_x();
        let b = random_byte();
        let kk = self.get_kk();
        self.v[x as usize] = b & kk;
        self.inc_pc();
        proof {
            assert(masked_random(*old(self), *self, b));
        }
    }

    /// Ex9E: skip when the key numbered by register x is down.
    pub fn op_skp_vx(&mut self) -> (r: Result<(), Fault>)
        ensures
            spec_op_skp_vx(*old(self), *final(self), r),
    {
        let x = self.get_x();
        let key = self.v[x as usize];
        if key >= 16 {
            return Err(Fault::OutOfBounds);
        }
        if self.key_buff[key as usize] {
            self.inc_pc();
        }
        self.inc_pc();
        Ok(())
    }

    /// ExA1: skip when the key numbered by register x is up.
    pub fn op_sknp_vx(&mut self) -> (r: Result<(), Fault>)
        ensures
            spec_op_sknp_vx(*old(self), *final(self), r),
    {
        let x = self.get_x();
        let key = self.v[x as usize];
        if key >= 16 {
            return Err(Fault::OutOfBounds);
        }
        if !self.key_buff[key as usize] {
            self.inc_pc();
        }
        self.inc_pc();
        Ok(())
    }

    /// Fx07: copy the delay timer into register x.
    pub fn op_ld_vx_dt(&mut self)
        ensures
            spec_op_ld_vx_dt(*old(self), *final(self)),
    {
        let x = self.get_x();
        self.v[x as usize] = self.delay_timer;
        self.inc_pc();
    }

    /// Fx0A: wait for a key press; the lowest pressed key index lands in
    /// register x. With no key down nothing changes, so the instruction
    /// runs again next cycle.
    pub fn op_ld_vx_k(&mut self)
        ensures
            spec_op_ld_vx_k(*old(self), *final(self)),
    {
        let x = self.get_x();
        let mut k: usize = 0;
        while k < 16
            invariant
                k <= 16,
                x == op_x(old(self).opcode),
                x < 16,
                *self == *old(self),
                forall|j: int| 0 <= j < k ==> !old(self).key_buff[j],
            decreases 16 - k,
        {
            if self.key_buff[k] {
                self.v[x as usize] = k as u8;
                self.inc_pc();
                proof {
                    assert(takes_lowest_key(*old(self), *self, k as int));
                }
                return ;
            }
            k = k + 1;
        }
    }

    /// Fx15: copy register x into the delay timer.
    pub fn op_ld_dt_vx(&mut self)
        ensures
            spec_op_ld_dt_vx(*old(self), *final(self)),
    {
        let x = self.get_x();
        self.delay_timer = self.v[x as usize];
        self.inc_pc();
    }

    /// Fx18: copy register x into the sound timer.
    pub fn op_ld_st_vx(&mut self)
        ensures
            spec_op_ld_st_vx(*old(self), *final(self)),
    {
        let x = self.get_x();
        self.sound_timer = self.v[x as usize];
        self.inc_pc();
    }

    /// Fx29: point the address register at the font glyph for the digit
    /// in register x; each glyph is 5 bytes from offset 0.
    pub fn op_ld_f_vx(&mut self)
        ensures
            spec_op_ld_f_vx(*old(self), *final(self)),
    {
        let x = self.get_x();
        self.i = self.v[x as usize] as u16 * 5;
        self.inc_pc();
    }

    /// Fx33: store the decimal digits of register x at the address
    /// register: hundreds, tens, ones.
    pub fn op_ld_b_vx(&mut self) -> (r: Result<(), Fault>)
        ensures
            spec_op_ld_b_vx(*old(self), *final(self), r),
    {
        let x = self.get_x();
        let vx = self.v[x as usize];
        let i = self.i as usize;
        if i + 2 >= 4096 {
            return Err(Fault::OutOfBounds);
        }
        self.memory[i] = vx / 100;
        self.memory[i + 1] = (vx / 10) % 10;
        self.memory[i + 2] = vx % 10;
        self.inc_pc();
        Ok(())
    }

    /// Fx55: store registers 0 through x to memory at the address
    /// register, then advance it past them.
    pub fn op_ld_i_vx(&mut self) -> (r: Result<(), Fault>)
        ensures
            spec_op_ld_i_vx(*old(self), *final(self), r),
    {
        let x = self.get_x();
        let i = self.i as usize;
        if i + x as usize >= 4096 {
            return Err(Fault::OutOfBounds);
        }
        let ghost pre = *self;
        let mut n: usize = 0;
        while n <= x as usize
            invariant
                n <= x as usize + 1,
                x == op_x(pre.opcode),
                x < 16,
                i == pre.i as usize,
                i + (x as usize) < 4096,
                self.opcode == pre.opcode,
                self.v == pre.v,
                self.i == pre.i,
                self.sound_timer == pre.sound_timer,
                self.delay_timer == pre.delay_timer,
                self.pc == pre.pc,
                self.sp == pre.sp,
                self.stack == pre.stack,
                self.key_buff == pre.key_buff,
                self.disp_buff == pre.disp_buff,
                self.last_tick == pre.last_tick,
                forall|k: int| 0 <= k < n ==> self.memory[i + k] == pre.v[k],
                forall|k: int|
                    0 <= k < 4096 && !(i <= k < i + n) ==> self.memory[k] == pre.memory[k],
            decreases x as usize + 1 - n,
        {
            self.memory[i + n] = self.v[n];
            n = n + 1;
        }
        self.i = self.i + x as u16 + 1;
        self.inc_pc();
        Ok(())
    }

    /// Fx65: load registers 0 through x from memory at the address
    /// register, then advance it past them.
    pub fn op_ld_vx_i(&mut self) -> (r: Result<(), Fault>)
        ensures
            spec_op_ld_vx_i(*old(self), *final(self), r),
    {
        let x = self.get_x();
        let i = self.i as usize;
        if i + x as usize >= 4096 {
            return Err(Fault::OutOfBounds);
        }
        let ghost pre = *self;
        let mut n: usize = 0;
        while n <= x as usize
            invariant
                n <= x as usize + 1,
                x == op_x(pre.opcode),
                x < 16,
                i == pre.i as usize,
                i + (x as usize) < 4096,
                self.opcode == pre.opcode,
                self.memory == pre.memory,
                self.i == pre.i,
                self.sound_timer == pre.sound_timer,
                self.delay_timer == pre.delay_timer,
                self.pc == pre.pc,
                self.sp == pre.sp,
                self.stack == pre.stack,
                self.key_buff == pre.key_buff,
                self.disp_buff == pre.disp_buff,
                self.last_tick == pre.last_tick,
                forall|k: int| 0 <= k < n ==> self.v[k] == pre.memory[i + k],
                forall|k: int| n <= k < 16 ==> self.v[k] == pre.v[k],
            decreases x as usize + 1 - n,
        {
            self.v[n] = self.memory[i + n];
            n = n + 1;
        }
        self.i = self.i + x as u16 + 1;
        self.inc_pc();
        Ok(())
    }

    /// Dxyn: draw a sprite by XOR and report any erased pixel in the
    /// flag register. Off-screen coordinates make an empty blit: no
    /// pixel drawn, the flag cleared, the counter advanced.
    #[verifier::loop_isolation(false)]
    #[verifier::rlimit(60)]
    pub fn op_drw_vx_vy_n(&mut self) -> (res: Result<(), Fault>)
        ensures
            spec_op_drw_vx_vy_n(*old(self), *final(self), res),
    {
        let x = self.get_x();
        let y = self.get_y();
        let n = self.get_n() as usize;
        let vx = self.v[x as usize] as usize;
        let vy = self.v[y as usize] as usize;
        let i = self.i as usize;
        if vx > 0x3F || vy > 0x1F {
            self.v[0xF] = 0;
            self.inc_pc();
            return Ok(());
        }
        if i + n > 4096 {
            return Err(Fault::OutOfBounds);
        }
        let ghost vxi = vx as int;
        let ghost vyi = vy as int;
        let row_max: usize = if n < 32 - vy {
            n
        } else {
            32 - vy
        };
        let col_max: usize = if 64 - vx > 8 {
            8
        } else {
            64 - vx
        };
        let mut flipped = false;
        let mut row: usize = 0;
        while row < row_max
            invariant
                row <= row_max,
                self.opcode == old(self).opcode,
                self.v == old(self).v,
                self.i == old(self).i,
                self.memory == old(self).memory,
                self.pc == old(self).pc,
                self.sp == old(self).sp,
                self.stack == old(self).stack,
                self.key_buff == old(self).key_buff,
                self.delay_timer == old(self).delay_timer,
                self.sound_timer == old(self).sound_timer,
                self.last_tick == old(self).last_tick,
                drawn_upto(*old(self), self.disp_buff, vxi, vyi, row as int, 0),
                flipped == draw_collides(*old(self), vxi, vyi, row as int),
            decreases row_max - row,
        {
            let byte = self.memory[i + row];
            let rr = vy + row;
            let mut col: usize = 0;
            while col < col_max
                invariant
                    col <= col_max,
                    row < row_max,
                    self.opcode == old(self).opcode,
                    self.v == old(self).v,
                    self.i == old(self).i,
                    self.memory == old(self).memory,
                    self.pc == old(self).pc,
                    self.sp == old(self).sp,
                    self.stack == old(self).stack,
                    self.key_buff == old(self).key_buff,
                    self.delay_timer == old(self).delay_timer,
                    self.sound_timer == old(self).sound_timer,
                    self.last_tick == old(self).last_tick,
                    drawn_upto(*old(self), self.disp_buff, vxi, vyi, row as int, col as int),
                    flipped == hits_upto(*old(self), vxi, vyi, row as int, col as int),
                decreases col_max - col,
            {
                let cc = vx + col;
                let spr = byte & (0x80u8 >> (col as u8)) != 0;
                let cur = self.disp_buff[rr][cc];
                let ghost d1 = self.disp_buff;
                if cur && spr {
                    flipped = true;
                }
                self.disp_buff[rr][cc] = cur != spr;
                proof {
                    let rri = rr as int;
                    let cci = cc as int;
                    let rowi = row as int;
                    let coli = col as int;
                    assert(pix(d1, rri, cci) == pix(old(self).disp_buff, rri, cci));
                    assert(cur == pix(old(self).disp_buff, rri, cci));
                    assert(spr == sprite_pixel(old(self).memory, i as int, vxi, vyi, rri, cci));
                    assert forall|a: int, b: int| 0 <= a < 32 && 0 <= b < 64 implies #[trigger] pix(
                        self.disp_buff,
                        a,
                        b,
                    ) == (if in_sprite(vxi, vyi, rowi, a, b) || (a == vyi + rowi && vxi <= b < vxi
                        + (coli + 1) && b < 64) {
                        pix(old(self).disp_buff, a, b) != sprite_pixel(
                            old(self).memory,
                            i as int,
                            vxi,
                            vyi,
                            a,
                            b,
                        )
                    } else {
                        pix(old(self).disp_buff, a, b)
                    }) by {
                        if a == rri && b == cci {
                            assert(pix(self.disp_buff, a, b) == (cur != spr));
                        } else {
                            assert(pix(self.disp_buff, a, b) == pix(d1, a, b));
                            assert(pix(d1, a, b) == (if in_sprite(vxi, vyi, rowi, a, b) || (a == vyi
                                + rowi && vxi <= b < vxi + coli && b < 64) {
                                pix(old(self).disp_buff, a, b) != sprite_pixel(
                                    old(self).memory,
                                    i as int,
                                    vxi,
                                    vyi,
                                    a,
                                    b,
                                )
                            } else {
                                pix(old(self).disp_buff, a, b)
                            }));
                        }
                    }
                    assert(drawn_upto(*old(self), self.disp_buff, vxi, vyi, rowi, coli + 1));
                    if cur && spr {
                        assert(hits_upto(*old(self), vxi, vyi, rowi, coli + 1));
                    } else {
                        assert(hits_upto(*old(self), vxi, vyi, rowi, coli + 1) == hits_upto(
                            *old(self),
                            vxi,
                            vyi,
                            rowi,
                            coli,
                        )) by {
                            if hits_upto(*old(self), vxi, vyi, rowi, coli + 1) && !draw_collides(
                                *old(self),
                                vxi,
                                vyi,
                                rowi,
                            ) {
                                let wc = choose|w: int|
                                    vxi <= w < vxi + (coli + 1) && w < 64 && #[trigger] sprite_pixel(
                                        old(self).memory,
                                        old(self).i as int,
                                        vxi,
                                        vyi,
                                        vyi + rowi,
                                        w,
                                    ) && pix(old(self).disp_buff, vyi + rowi, w);
                                assert(vxi <= wc < vxi + coli) by {
                                    if wc == cci {
                                        assert(false);
                                    }
                                }
                                assert(hits_upto(*old(self), vxi, vyi, rowi, coli));
                            }
                        }
                    }
                }
                col = col + 1;
            }
            proof {
                lemma_row_rollover(
                    *old(self),
                    vxi,
                    vyi,
                    op_n(old(self).opcode) as int,
                    row as int,
                    col_max as int,
                );
                assert(drawn_upto(*old(self), self.disp_buff, vxi, vyi, row as int + 1, 0));
            }
            row = row + 1;
        }
        proof {
            lemma_draw_done(
                *old(self),
                vxi,
                vyi,
                op_n(old(self).opcode) as int,
                row_max as int,
            );
            assert(drawn_upto(*old(self), self.disp_buff, vxi, vyi, op_n(old(self).opcode) as int, 0));
        }
        if flipped {
            self.v[0xF] = 1;
        } else {
            self.v[0xF] = 0;
        }
        self.inc_pc();
        Ok(())
    }

    /// The 0x__ group: clear-screen, return, and the all-zero halt word.
    pub fn op_0xxx(&mut self) -> (r: Result<(), Fault>)
        ensures
            spec_step_0(*old(self), *final(self), r),
    {
        if self.opcode == 0x00E0 {
            self.op_cls();
            Ok(())
        } else if self.opcode == 0x00EE {
            self.op_ret()
        } else if self.opcode == 0x0000 {
            Err(Fault::Halt)
        } else {
            Err(Fault::UnknownOpcode(self.opcode))
        }
    }

    /// The 8xy_ group, selected by the low nibble.
    pub fn op_8xxx(&mut self) -> (r: Result<(), Fault>)
        ensures
            spec_step_8(*old(self), *final(self), r),
    {
        let sel = self.opcode & 0x000f;
        match sel {
            0x0 => {
                self.op_ld_vx_vy();
                Ok(())
            },
            0x1 => {
                self.op_or();
                Ok(())
            },
            0x2 => {
                self.op_and();
                Ok(())
            },
            0x3 => {
                self.op_xor();
                Ok(())
            },
            0x4 => {
                self.op_add_vx_vy();
                Ok(())
            },
            0x5 => {
                self.op_sub_vx_vy();
                Ok(())
            },
            0x6 => {
                self.op_shr_vx_vy();
                Ok(())
            },
            0x7 => {
                self.op_subn_vx_vy();
                Ok(())
            },
            0xE => {
                self.op_shl_vx_vy();
                Ok(())
            },
            _ => Err(Fault::UnknownOpcode(self.opcode)),
        }
    }

    /// The Ex__ group, selected by the low byte.
    pub fn op_exxx(&mut self) -> (r: Result<(), Fault>)
        ensures
            spec_step_e(*old(self), *final(self), r),
    {
        let sel = self.opcode & 0x00ff;
        match sel {
            0x9E => self.op_skp_vx(),
            0xA1 => self.op_sknp_vx(),
            _ => Err(Fault::UnknownOpcode(self.opcode)),
        }
    }

    /// The Fx__ group, selected by the low byte.
    pub fn op_fxxx(&mut self) -> (r: Result<(), Fault>)
        ensures
            spec_step_f(*old(self), *final(self), r),
    {
        let sel = self.opcode & 0x00ff;
        match sel {
            0x07 => {
                self.op_ld_vx_dt();
                Ok(())
            },
            0x0A => {
                self.op_ld_vx_k();
                Ok(())
            },
            0x15 => {
                self.op_ld_dt_vx();
                Ok(())
            },
            0x18 => {
                self.op_ld_st_vx();
                Ok(())
            },
            0x29 => {
                self.op_ld_f_vx();
                Ok(())
            },
            0x33 => self.op_ld_b_vx(),
            0x55 => self.op_ld_i_vx(),
            0x65 => self.op_ld_vx_i(),
            _ => Err(Fault::UnknownOpcode(self.opcode)),
        }
    }

    /// Decode the latched instruction word by its high nibble and
    /// execute it.
    pub fn opcode_execute(&mut self) -> (r: Result<(), Fault>)
        ensures
            spec_step(*old(self), *final(self), r),
    {
        let group = self.opcode & 0xf000;
        match group {
            0x0000 => self.op_0xxx(),
            0x1000 => {
                self.op_jp();
                Ok(())
            },
            0x2000 => self.op_call(),
            0x3000 => {
                self.op_se();
                Ok(())
            },
            0x4000 => {
                self.op_sne();
                Ok(())
            },
            0x5000 => {
                self.op_se_vx_vy();
                Ok(())
            },
            0x6000 => {
                self.op_ld_vx_byte();
                Ok(())
            },
            0x7000 => {
                self.op_add_vx_byte();
                Ok(())
            },
            0x8000 => self.op_8xxx(),
            0x9000 => {
                self.op_sne_vx_vy();
                Ok(())
            },
            0xA000 => {
                self.op_ld_i_addr();
                Ok(())
            },
            0xB000 => {
                self.op_jp_v0_addr();
                Ok(())
            },
            0xC000 => {
                self.op_rnd_vx_byte();
                Ok(())
            },
            0xD000 => self.op_drw_vx_vy_n(),
            0xE000 => self.op_exxx(),
            _ => self.op_fxxx(),
        }
    }

    /// One full cycle: fetch the word at the program counter, execute
    /// it, and count the timers. A fault leaves the machine exactly as
    /// it was, with the offending word latched, and is the host's to
    /// judge: a `Halt` is the program's own stop marker, the rest are
    /// errors.
    pub fn emulate_cycle(&mut self) -> (r: Result<(), Fault>)
        ensures
            spec_cycle(*old(self), *final(self), r),
    {
        if self.pc > 4094 {
            return Err(Fault::OutOfBounds);
        }
        self.fetch_opcode();
        let ghost fetched = *self;
        let res = self.opcode_execute();
        match res {
            Ok(_) => {
                let ghost mid = *self;
                self.count_timers();
                proof {
                    assert(spec_step(fetched, mid, Ok(())) && spec_tick(mid, *self));
                }
                Ok(())
            },
            Err(f) => Err(f),
        }
    }

    /// Copy a byte sequence to the bottom of memory, leaving the bytes
    /// past it as they were.
    pub fn load_bytes(&mut self, data: Vec<u8>)
        requires
            data@.len() <= 4096,
        ensures
            forall|k: int| 0 <= k < data@.len() ==> final(self).memory[k] == data@[k],
            forall|k: int| data@.len() <= k < 4096 ==> final(self).memory[k] == old(self).memory[k],
            same_inputs(*old(self), *final(self)),
            same_timers(*old(self), *final(self)),
            same_disp(*old(self), *final(self)),
            same_stack(*old(self), *final(self)),
            same_v(*old(self), *final(self)),
            same_i(*old(self), *final(self)),
            final(self).pc == old(self).pc,
    {
        let mut idx: usize = 0;
        while idx < data.len()
            invariant
                idx <= data@.len(),
                data@.len() <= 4096,
                self.opcode == old(self).opcode,
                self.v == old(self).v,
                self.i == old(self).i,
                self.pc == old(self).pc,
                self.sp == old(self).sp,
                self.stack == old(self).stack,
                self.key_buff == old(self).key_buff,
                self.disp_buff == old(self).disp_buff,
                self.delay_timer == old(self).delay_timer,
                self.sound_timer == old(self).sound_timer,
                self.last_tick == old(self).last_tick,
                forall|k: int| 0 <= k < idx ==> self.memory[k] == data@[k],
                forall|k: int| idx <= k < 4096 ==> self.memory[k] == old(self).memory[k],
            decreases data@.len() - idx,
        {
            self.memory[idx] = data[idx];
            idx = idx + 1;
        }
    }

    /// Place the built-in font at the bottom of memory and the supplied
    /// program image at the program origin, with zeroes between; memory
    /// past the image keeps its old bytes.
    pub fn load_data(cpu: &mut Cpu, data_to_load: Vec<u8>)
        requires
            data_to_load@.len() <= 4096 - 0x200,
        ensures
            forall|k: int| 0 <= k < 80 ==> final(cpu).memory[k] == font_seq()[k],
            forall|k: int| 80 <= k < 0x200 ==> final(cpu).memory[k] == 0,
            forall|k: int|
                0 <= k < data_to_load@.len() ==> final(cpu).memory[0x200 + k] == data_to_load@[k],
            forall|k: int|
                0x200 + data_to_load@.len() <= k < 4096 ==> final(cpu).memory[k] == old(
                    cpu,
                ).memory[k],
            same_inputs(*old(cpu), *final(cpu)),
            same_timers(*old(cpu), *final(cpu)),
            same_disp(*old(cpu), *final(cpu)),
            same_stack(*old(cpu), *final(cpu)),
            same_v(*old(cpu), *final(cpu)),
            same_i(*old(cpu), *final(cpu)),
            final(cpu).pc == old(cpu).pc,
    {
        let font = font_sprites();
        let mut data: Vec<u8> = Vec::new();
        let mut k: usize = 0;
        while k < 80
            invariant
                k <= 80,
                data@.len() == k,
                font@ == font_seq(),
                forall|j: int| 0 <= j < k ==> data@[j] == font_seq()[j],
            decreases 80 - k,
        {
            data.push(font[k]);
            k = k + 1;
        }
        while data.len() < 0x200
            invariant
                80 <= data@.len() <= 0x200,
                forall|j: int| 0 <= j < 80 ==> data@[j] == font_seq()[j],
                forall|j: int| 80 <= j < data@.len() ==> data@[j] == 0,
            decreases 0x200 - data@.len(),
        {
            data.push(0);
        }
        let mut j: usize = 0;
        while j < data_to_load.len()
            invariant
                j <= data_to_load@.len(),
                data_to_load@.len() <= 4096 - 0x200,
                data@.len() == 0x200 + j,
                forall|q: int| 0 <= q < 80 ==> data@[q] == font_seq()[q],
                forall|q: int| 80 <= q < 0x200 ==> data@[q] == 0,
                forall|q: int| 0 <= q < j ==> data@[0x200 + q] == data_to_load@[q],
            decreases data_to_load@.len() - j,
        {
            data.push(data_to_load[j]);
            j = j + 1;
        }
        let ghost dv = data@;
        cpu.load_bytes(data);
        proof {
            assert forall|q: int| 80 <= q < 0x200 implies cpu.memory[q] == 0 by {
                assert(cpu.memory[q] == dv[q]);
            };
        }
    }

    /// The timer decision on an elapsed-time reading of `ms`
    /// milliseconds: both timers count down by one, toward zero and
    /// never below it, exactly when at least one ~60 Hz interval
    /// (17 ms) has passed, and the interval restarts; under 17 ms
    /// nothing moves.
    pub fn tick_timers(&mut self, ms: u128)
        ensures
            spec_tick_with(*old(self), *final(self), ms >= 17),
    {
        if ms >= 17 {
            self.last_tick = instant_now();
            if self.sound_timer > 0 {
                self.sound_timer = self.sound_timer - 1;
            }
            if self.delay_timer > 0 {
                self.delay_timer = self.delay_timer - 1;
            }
        }
    }

    /// Count both timers down by one when the ~60 Hz interval has passed
    /// since the last countdown; a timer at zero stays at zero. How much
    /// time has passed only the host's clock can say, so this contract
    /// fixes the shape of the change alone; the threshold itself is the
    /// contract of `tick_timers`, which takes the reading as a value.
    pub fn count_timers(&mut self)
        ensures
            spec_tick(*old(self), *final(self)),
    {
        let elapsed = elapsed_since(&self.last_tick);
        let ms = duration_millis(&elapsed);
        self.tick_timers(ms);
        proof {
            assert(spec_tick_with(*old(self), *final(self), ms >= 17));
        }
    }
}

} // verus!
