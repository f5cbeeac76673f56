//! Laws of the instruction set, stated over the same spec predicates
//! that the engine's contracts use, and proved once and for all.

use crate::cpu::any_key;
use crate::cpu::diff8;
use crate::cpu::fetch16;
use crate::cpu::lemma_field_bounds;
use crate::cpu::op_x;
use crate::cpu::op_y;
use crate::cpu::pc2;
use crate::cpu::same_state;
use crate::cpu::spec_cycle;
use crate::cpu::spec_op_add_vx_vy;
use crate::cpu::spec_op_call;
use crate::cpu::spec_op_ld_vx_k;
use crate::cpu::spec_op_ret;
use crate::cpu::draw_collides;
use crate::cpu::draw_hit;
use crate::cpu::in_sprite;
use crate::cpu::op_n;
use crate::cpu::pix;
use crate::cpu::spec_op_cls;
use crate::cpu::spec_op_drw_vx_vy_n;
use crate::cpu::spec_op_shl_vx_vy;
use crate::cpu::sprite_pixel;
use crate::cpu::spec_op_shr_vx_vy;
use crate::cpu::spec_op_sub_vx_vy;
use crate::cpu::spec_step;
use crate::cpu::spec_tick;
use crate::cpu::spec_tick_with;
use crate::cpu::takes_lowest_key;
use crate::cpu::Cpu;
use vstd::prelude::*;

verus! {

/// Law: add-with-carry leaves `(a + b) mod 256` in the destination and
/// raises the flag exactly when the mathematical sum exceeds 255. The
/// flag must itself survive, so the destination may not be register 15.
pub proof fn lemma_add_with_carry(pre: Cpu, post: Cpu)
    requires
        spec_op_add_vx_vy(pre, post),
        op_x(pre.opcode) != 15,
    ensures
        post.v[op_x(pre.opcode) as int] as int == (pre.v[op_x(pre.opcode) as int]
            + pre.v[op_y(pre.opcode) as int]) % 256,
        (post.v[15] == 1) <==> (pre.v[op_x(pre.opcode) as int] + pre.v[op_y(pre.opcode) as int]
            > 255),
        (post.v[15] == 0) <==> (pre.v[op_x(pre.opcode) as int] + pre.v[op_y(pre.opcode) as int]
            <= 255),
{
    lemma_field_bounds(pre.opcode);
}

/// Law: subtraction stores `(a - b) mod 256` whatever the flag says,
/// and the flag is 1 exactly when the minuend is strictly greater (no
/// borrow). Neither operand may be the flag register itself.
pub proof fn lemma_sub_sets_borrow_flag(pre: Cpu, post: Cpu)
    requires
        spec_op_sub_vx_vy(pre, post),
        op_x(pre.opcode) != 15,
        op_y(pre.opcode) != 15,
    ensures
        post.v[op_x(pre.opcode) as int] as int == (pre.v[op_x(pre.opcode) as int]
            - pre.v[op_y(pre.opcode) as int]) % 256,
        (post.v[15] == 1) <==> (pre.v[op_x(pre.opcode) as int] > pre.v[op_y(pre.opcode) as int]),
{
    lemma_field_bounds(pre.opcode);
    let a = pre.v[op_x(pre.opcode) as int] as int;
    let b = pre.v[op_y(pre.opcode) as int] as int;
    assert(diff8(pre.v[op_x(pre.opcode) as int], pre.v[op_y(pre.opcode) as int]) as int == (a - b)
        % 256) by {
        if a < b {
            assert((a - b) % 256 == a - b + 256) by (nonlinear_arith)
                requires
                    -256 <= a - b < 0,
            ;
        }
    };
}

/// Law: shift-right takes its value from the second operand register:
/// the flag receives its lowest bit (its parity) and the destination its
/// value shifted right by one (its half, rounded down).
pub proof fn lemma_shift_right(pre: Cpu, post: Cpu)
    requires
        spec_op_shr_vx_vy(pre, post),
        op_x(pre.opcode) != 15,
        op_y(pre.opcode) != 15,
    ensures
        post.v[op_x(pre.opcode) as int] == pre.v[op_y(pre.opcode) as int] >> 1u8,
        post.v[15] == pre.v[op_y(pre.opcode) as int] & 1,
        post.v[op_x(pre.opcode) as int] as int == pre.v[op_y(pre.opcode) as int] / 2,
        (post.v[15] == 1) <==> (pre.v[op_y(pre.opcode) as int] % 2 == 1),
{
    lemma_field_bounds(pre.opcode);
    let b = pre.v[op_y(pre.opcode) as int];
    assert((b >> 1u8) == b / 2) by (bit_vector);
    assert(((b & 1) == 1) <==> (b % 2 == 1)) by (bit_vector);
    assert(((b & 1) == 0) <==> (b % 2 == 0)) by (bit_vector);
}

/// Law: shift-left takes its value from the second operand register:
/// the flag receives its highest bit and the destination its value
/// doubled, modulo 256.
pub proof fn lemma_shift_left(pre: Cpu, post: Cpu)
    requires
        spec_op_shl_vx_vy(pre, post),
        op_x(pre.opcode) != 15,
        op_y(pre.opcode) != 15,
    ensures
        post.v[op_x(pre.opcode) as int] == pre.v[op_y(pre.opcode) as int] << 1u8,
        post.v[15] == pre.v[op_y(pre.opcode) as int] >> 7u8,
        post.v[op_x(pre.opcode) as int] as int == (2 * pre.v[op_y(pre.opcode) as int]) % 256,
        (post.v[15] == 1) <==> (pre.v[op_y(pre.opcode) as int] >= 128),
{
    lemma_field_bounds(pre.opcode);
    let b = pre.v[op_y(pre.opcode) as int];
    assert((b << 1u8) as int == (2 * b) % 256) by (bit_vector);
    assert(((b >> 7u8) == 1) <==> (b >= 128)) by (bit_vector);
    assert(((b >> 7u8) == 0) <==> (b < 128)) by (bit_vector);
}

/// Law: a call followed at once by a return puts the program counter
/// exactly two past the call instruction and restores the stack pointer
/// to its pre-call value.
pub proof fn lemma_call_then_ret(s0: Cpu, s1: Cpu, s2: Cpu)
    requires
        spec_op_call(s0, s1, Ok(())),
        spec_op_ret(s1, s2, Ok(())),
    ensures
        s2.pc == pc2(s0.pc),
        s2.sp == s0.sp,
        s2.v == s0.v,
        s2.memory == s0.memory,
{
    assert(s0.sp < 16);
    assert(s1.stack[s0.sp as int] == s0.pc);
}

/// Law: wait-for-key with no key down is a no-op, so the program
/// counter does not advance and the very same instruction re-executes
/// on the next cycle.
pub proof fn lemma_wait_key_blocks(pre: Cpu, post: Cpu)
    requires
        spec_op_ld_vx_k(pre, post),
        forall|k: int| 0 <= k < 16 ==> !pre.key_buff[k],
    ensures
        same_state(pre, post),
{
    if any_key(pre.key_buff) {
        let k = choose|k: int| 0 <= k < 16 && pre.key_buff[k];
        assert(false);
    }
}

/// Law: once a key is down, wait-for-key advances the counter by two
/// and stores the lowest-numbered pressed key in the destination
/// register.
pub proof fn lemma_wait_key_advances(pre: Cpu, post: Cpu, k: int)
    requires
        spec_op_ld_vx_k(pre, post),
        0 <= k < 16,
        pre.key_buff[k],
        forall|j: int| 0 <= j < k ==> !pre.key_buff[j],
    ensures
        post.pc == pc2(pre.pc),
        post.v[op_x(pre.opcode) as int] == k as u8,
{
    lemma_field_bounds(pre.opcode);
    assert(any_key(pre.key_buff));
    let kk = choose|kk: int| #[trigger] takes_lowest_key(pre, post, kk);
    assert(kk == k) by {
        if kk < k {
            assert(!pre.key_buff[kk]);
        }
        if k < kk {
            assert(!pre.key_buff[k]);
        }
    };
}

/// A sprite bit that lands visibly on an off pixel. After one draw the
/// pixel is on, so an identical second draw toggles it back off: a
/// collision.
pub open spec fn visible_on_blank(pre: Cpu, vx: int, vy: int, n: int, r: int, c: int) -> bool {
    &&& in_sprite(vx, vy, n, r, c)
    &&& sprite_pixel(pre.memory, pre.i as int, vx, vy, r, c)
    &&& !pix(pre.disp_buff, r, c)
}

/// Law: the XOR blit is self-inverse. Drawing the same sprite at the
/// same on-screen place twice restores every pixel, and the second draw
/// reports a collision exactly when some sprite bit fell visibly on a
/// pixel that was off before the first draw. The coordinate registers
/// must survive the first draw's flag write, so neither may be 15.
pub proof fn lemma_draw_twice_restores(s0: Cpu, s1: Cpu, s2: Cpu)
    requires
        spec_op_drw_vx_vy_n(s0, s1, Ok(())),
        spec_op_drw_vx_vy_n(s1, s2, Ok(())),
        op_x(s0.opcode) != 15,
        op_y(s0.opcode) != 15,
        s0.v[op_x(s0.opcode) as int] <= 0x3F,
        s0.v[op_y(s0.opcode) as int] <= 0x1F,
    ensures
        forall|r: int, c: int|
            0 <= r < 32 && 0 <= c < 64 ==> #[trigger] pix(s2.disp_buff, r, c) == pix(
                s0.disp_buff,
                r,
                c,
            ),
        ({
            let vx = s0.v[op_x(s0.opcode) as int] as int;
            let vy = s0.v[op_y(s0.opcode) as int] as int;
            let n = op_n(s0.opcode) as int;
            (s2.v[15] == 1) <==> exists|r: int, c: int| #[trigger] visible_on_blank(
                s0,
                vx,
                vy,
                n,
                r,
                c,
            )
        }),
{
    lemma_field_bounds(s0.opcode);
    let x = op_x(s0.opcode) as int;
    let y = op_y(s0.opcode) as int;
    let vx = s0.v[x] as int;
    let vy = s0.v[y] as int;
    let n = op_n(s0.opcode) as int;
    let i = s0.i as int;
    assert(s1.opcode == s0.opcode);
    assert(s1.v[x] == s0.v[x] && s1.v[y] == s0.v[y]);
    assert(s1.memory == s0.memory && s1.i == s0.i);
    assert forall|r: int, c: int| 0 <= r < 32 && 0 <= c < 64 implies #[trigger] pix(
        s2.disp_buff,
        r,
        c,
    ) == pix(s0.disp_buff, r, c) by {
        assert(pix(s1.disp_buff, r, c) == (if in_sprite(vx, vy, n, r, c) {
            pix(s0.disp_buff, r, c) != sprite_pixel(s0.memory, i, vx, vy, r, c)
        } else {
            pix(s0.disp_buff, r, c)
        }));
    };
    assert(s2.v@[15] == (if draw_collides(s1, vx, vy, n) {
        1u8
    } else {
        0u8
    }));
    assert(draw_collides(s1, vx, vy, n) <==> exists|r: int, c: int| #[trigger] visible_on_blank(
        s0,
        vx,
        vy,
        n,
        r,
        c,
    )) by {
        if draw_collides(s1, vx, vy, n) {
            let (r, c) = choose|r: int, c: int| #[trigger] draw_hit(s1, vx, vy, n, r, c);
            assert(pix(s1.disp_buff, r, c) == (pix(s0.disp_buff, r, c) != sprite_pixel(
                s0.memory,
                i,
                vx,
                vy,
                r,
                c,
            )));
            assert(visible_on_blank(s0, vx, vy, n, r, c));
        }
        if exists|r: int, c: int| #[trigger] visible_on_blank(s0, vx, vy, n, r, c) {
            let (r, c) = choose|r: int, c: int| #[trigger] visible_on_blank(s0, vx, vy, n, r, c);
            assert(pix(s1.disp_buff, r, c) == (pix(s0.disp_buff, r, c) != sprite_pixel(
                s0.memory,
                i,
                vx,
                vy,
                r,
                c,
            )));
            assert(draw_hit(s1, vx, vy, n, r, c));
        }
    };
}

/// Law: clear-screen, then any draw with at least one visible set
/// sprite bit, then the identical draw again, leaves every pixel off
/// and reports a collision on the second draw.
pub proof fn lemma_clear_then_draw_twice(s0: Cpu, s1: Cpu, s2: Cpu, s3: Cpu)
    requires
        spec_op_cls(s0, s1),
        spec_op_drw_vx_vy_n(s1, s2, Ok(())),
        spec_op_drw_vx_vy_n(s2, s3, Ok(())),
        op_x(s1.opcode) != 15,
        op_y(s1.opcode) != 15,
        s1.v[op_x(s1.opcode) as int] <= 0x3F,
        s1.v[op_y(s1.opcode) as int] <= 0x1F,
        ({
            let vx = s1.v[op_x(s1.opcode) as int] as int;
            let vy = s1.v[op_y(s1.opcode) as int] as int;
            let n = op_n(s1.opcode) as int;
            exists|r: int, c: int|
                in_sprite(vx, vy, n, r, c) && #[trigger] sprite_pixel(
                    s1.memory,
                    s1.i as int,
                    vx,
                    vy,
                    r,
                    c,
                )
        }),
    ensures
        forall|r: int, c: int| 0 <= r < 32 && 0 <= c < 64 ==> !(#[trigger] pix(s3.disp_buff, r, c)),
        s3.v[15] == 1,
{
    lemma_field_bounds(s1.opcode);
    let vx = s1.v[op_x(s1.opcode) as int] as int;
    let vy = s1.v[op_y(s1.opcode) as int] as int;
    let n = op_n(s1.opcode) as int;
    lemma_draw_twice_restores(s1, s2, s3);
    assert forall|r: int, c: int| 0 <= r < 32 && 0 <= c < 64 implies !(#[trigger] pix(
        s3.disp_buff,
        r,
        c,
    )) by {
        assert(!s1.disp_buff[r][c]);
    };
    let (r, c) = choose|r: int, c: int|
        in_sprite(vx, vy, n, r, c) && #[trigger] sprite_pixel(s1.memory, s1.i as int, vx, vy, r, c);
    assert(!s1.disp_buff[r][c]);
    assert(visible_on_blank(s1, vx, vy, n, r, c));
}

/// Law: drawing a sprite that lies entirely on the screen onto a clear
/// region, then drawing it again unchanged, reports a collision and
/// leaves the region all off — the second draw erases the first.
pub proof fn lemma_draw_twice_erases(s0: Cpu, s1: Cpu, s2: Cpu)
    requires
        spec_op_drw_vx_vy_n(s0, s1, Ok(())),
        spec_op_drw_vx_vy_n(s1, s2, Ok(())),
        op_x(s0.opcode) != 15,
        op_y(s0.opcode) != 15,
        ({
            let vx = s0.v[op_x(s0.opcode) as int] as int;
            let vy = s0.v[op_y(s0.opcode) as int] as int;
            let n = op_n(s0.opcode) as int;
            &&& vx + 8 <= 64
            &&& vy + n <= 32
            &&& forall|r: int, c: int|
                in_sprite(vx, vy, n, r, c) ==> !(#[trigger] pix(s0.disp_buff, r, c))
            &&& exists|r: int, c: int|
                in_sprite(vx, vy, n, r, c) && #[trigger] sprite_pixel(
                    s0.memory,
                    s0.i as int,
                    vx,
                    vy,
                    r,
                    c,
                )
        }),
    ensures
        ({
            let vx = s0.v[op_x(s0.opcode) as int] as int;
            let vy = s0.v[op_y(s0.opcode) as int] as int;
            let n = op_n(s0.opcode) as int;
            forall|r: int, c: int|
                in_sprite(vx, vy, n, r, c) ==> !(#[trigger] pix(s2.disp_buff, r, c))
        }),
        s2.v[15] == 1,
{
    lemma_field_bounds(s0.opcode);
    let vx = s0.v[op_x(s0.opcode) as int] as int;
    let vy = s0.v[op_y(s0.opcode) as int] as int;
    let n = op_n(s0.opcode) as int;
    let (r0, c0) = choose|r: int, c: int|
        in_sprite(vx, vy, n, r, c) && #[trigger] sprite_pixel(s0.memory, s0.i as int, vx, vy, r, c);
    assert(vx <= 0x3F && vy <= 0x1F);
    lemma_draw_twice_restores(s0, s1, s2);
    assert forall|r: int, c: int| in_sprite(vx, vy, n, r, c) implies !(#[trigger] pix(
        s2.disp_buff,
        r,
        c,
    )) by {
        assert(pix(s2.disp_buff, r, c) == pix(s0.disp_buff, r, c));
    };
    assert(visible_on_blank(s0, vx, vy, n, r0, c0));
}

/// Law: a machine whose program counter sits on a wait-for-key
/// instruction with no key down keeps its counter, registers, memory
/// and screen across a whole cycle — and the conclusion re-establishes
/// every hypothesis, so the counter stays put across any number of
/// cycles until a key appears.
pub proof fn lemma_wait_key_cycle(pre: Cpu, post: Cpu)
    requires
        pre.pc as int + 1 < 4096,
        fetch16(pre.memory, pre.pc) & 0xf000 == 0xF000,
        fetch16(pre.memory, pre.pc) & 0x00ff == 0x0A,
        forall|k: int| 0 <= k < 16 ==> !pre.key_buff[k],
        spec_cycle(pre, post, Ok(())),
    ensures
        post.pc == pre.pc,
        post.v == pre.v,
        post.memory == pre.memory,
        post.disp_buff == pre.disp_buff,
        post.key_buff == pre.key_buff,
        post.pc as int + 1 < 4096,
        fetch16(post.memory, post.pc) & 0xf000 == 0xF000,
        fetch16(post.memory, post.pc) & 0x00ff == 0x0A,
        forall|k: int| 0 <= k < 16 ==> !post.key_buff[k],
{
    let f = Cpu { opcode: fetch16(pre.memory, pre.pc), ..pre };
    let mid = choose|mid: Cpu| #[trigger] spec_step(f, mid, Ok(())) && spec_tick(mid, post);
    assert(spec_op_ld_vx_k(f, mid));
    lemma_wait_key_blocks(f, mid);
    let due = choose|due: bool| #[trigger] spec_tick_with(mid, post, due);
    assert(post.key_buff == pre.key_buff);
}

} // verus!
