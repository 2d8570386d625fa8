use vstd::prelude::*;

use vstd::arithmetic::mul::lemma_mul_inequality;

use crate::clock::countdown;
use crate::clock::countdown_spec;
use crate::clock::is_due;
use crate::clock::pace_due;
use crate::clock::timer_deadline;
use crate::clock::TICK_NS;
use crate::display::draw_collides;
use crate::display::draw_rel;
use crate::display::VIDEO_BYTES;
use crate::errors::EngineError;
use crate::errors::StepOutcome;
use crate::opcode::decode;
use crate::opcode::instr_wf;
use crate::opcode::spec_decode;
use crate::opcode::Instr;
use crate::vm::MEM_BYTES;
use crate::vm::STACK_DEPTH;
use crate::vm::VM;

verus! {

/// The cycle counter after one more instruction: it increments, saturating
/// at the top of its range rather than wrapping.
pub open spec fn sat_inc(c: u64) -> u64 {
    if c == u64::MAX {
        c
    } else {
        (c + 1) as u64
    }
}

/// An 8-bit register value wrapped modulo 256.
pub open spec fn wrap8(a: int) -> u8 {
    (a % 256) as u8
}

/// The big-endian 16-bit instruction word at `pc`.
pub open spec fn fetch_word(mem: Seq<u8>, pc: int) -> u16
    recommends
        0 <= pc,
        pc + 1 < mem.len(),
{
    (mem[pc] * 0x100 + mem[pc + 1]) as u16
}

/// The memory address `k` bytes above the address register, wrapping in the
/// 12-bit address space.
pub open spec fn mem_at(i: u16, k: int) -> int {
    (i + k) % 0x1000
}

/// The offset of address `a` above the address register, wrapping in the
/// 12-bit address space: the inverse of `mem_at`.
pub open spec fn mem_back(i: u16, a: int) -> int {
    (a - i + 0x10000) % 0x1000
}

/// The deadline a timer register takes when written with `value` at `now`,
/// saturating at the top of the 64-bit range.
pub open spec fn deadline_spec(now: u64, value: u8) -> u64 {
    if now + value * TICK_NS > u64::MAX {
        u64::MAX
    } else {
        (now + value * TICK_NS) as u64
    }
}

/// The countdown value of a timer as an 8-bit register reads it: clamped
/// to 255.
pub open spec fn countdown_u8(deadline: u64, now: u64) -> u8 {
    if countdown_spec(deadline, now) > 255 {
        255u8
    } else {
        countdown_spec(deadline, now) as u8
    }
}

/// The next state of the pseudo-random generator: a linear congruential
/// step modulo 2^31.
pub open spec fn rng_next(s: u64) -> u64 {
    ((s * 1103515245 + 12345) % 0x8000_0000) as u64
}

/// The byte drawn from a generator state.
pub open spec fn rng_byte(s: u64) -> u8 {
    ((s / 0x10000) % 0x100) as u8
}

/// The fields a loaded machine never changes while running: the pristine
/// ROM, the clock stamp, the configured speed, and the key snapshot (which
/// only the caller writes).
pub open spec fn same_frame(a: VM, b: VM) -> bool {
    &&& b.rom@ == a.rom@
    &&& b.rom_size == a.rom_size
    &&& b.clock == a.clock
    &&& b.speed == a.speed
    &&& b.keys@ == a.keys@
}

/// Live memory is unchanged.
pub open spec fn same_mem(a: VM, b: VM) -> bool {
    b.memory@ == a.memory@
}

/// The framebuffer and resolution are unchanged.
pub open spec fn same_disp(a: VM, b: VM) -> bool {
    &&& b.display.video@ == a.display.video@
    &&& b.display.pitch == a.display.pitch
}

/// The call stack is unchanged.
pub open spec fn same_stack(a: VM, b: VM) -> bool {
    &&& b.stack@ == a.stack@
    &&& b.sp == a.sp
}

/// The address register is unchanged.
pub open spec fn same_i(a: VM, b: VM) -> bool {
    b.regs.i == a.regs.i
}

/// The general registers are unchanged.
pub open spec fn same_v(a: VM, b: VM) -> bool {
    b.regs.v@ == a.regs.v@
}

/// The flag-storage registers are unchanged.
pub open spec fn same_r(a: VM, b: VM) -> bool {
    b.regs.r@ == a.regs.r@
}

/// Both timer deadlines are unchanged.
pub open spec fn same_t(a: VM, b: VM) -> bool {
    &&& b.regs.dt == a.regs.dt
    &&& b.regs.st == a.regs.st
}

/// The pseudo-random generator state is unchanged.
pub open spec fn same_rng(a: VM, b: VM) -> bool {
    b.rng == a.rng
}

/// The await-key state is unchanged.
pub open spec fn same_wait(a: VM, b: VM) -> bool {
    &&& b.waiting == a.waiting
    &&& b.wait_vx == a.wait_vx
    &&& b.wait_held@ == a.wait_held@
}

/// The two machine states are equal, field by field.
pub open spec fn vm_eq(a: VM, b: VM) -> bool {
    &&& same_frame(a, b)
    &&& same_mem(a, b)
    &&& same_disp(a, b)
    &&& same_stack(a, b)
    &&& same_i(a, b)
    &&& same_v(a, b)
    &&& same_r(a, b)
    &&& same_t(a, b)
    &&& same_rng(a, b)
    &&& same_wait(a, b)
    &&& b.pc == a.pc
    &&& b.cycles == a.cycles
}

/// What every successfully executed instruction does besides its own
/// effect: the frame fields stay and the cycle counter increments.
pub open spec fn step_frame(pre: VM, post: VM) -> bool {
    &&& same_frame(pre, post)
    &&& post.cycles == sat_inc(pre.cycles)
}

/// The sprite bytes an `N`-row (or 16x16) draw reads from memory at the
/// address register.
pub open spec fn sprite_seq(pre: VM, n: u8) -> Seq<u8> {
    let bytes = if n == 0 {
        32int
    } else {
        n as int
    };
    Seq::new(bytes as nat, |k: int| pre.memory@[mem_at(pre.regs.i, k)])
}

/// The effect of one decoded instruction on the machine, given the current
/// time `now`: what spec-level state `post` and result `r` the execution of
/// `op` in state `pre` produces. On an error the machine is unchanged.
pub open spec fn op_effect(pre: VM, post: VM, op: Instr, now: u64, r: Result<
    (),
    EngineError,
>) -> bool
    recommends
        pre.wf(),
        instr_wf(op),
        pre.pc <= 0xFFE,
{
    let v = pre.regs.v@;
    let ok = Ok::<(), EngineError>(());
    match op {
        Instr::Cls => r == ok && step_frame(pre, post) && same_mem(pre, post) && same_stack(
            pre,
            post,
        ) && same_i(pre, post) && same_v(pre, post) && same_r(pre, post) && same_t(pre, post)
            && same_rng(pre, post) && same_wait(pre, post) && post.display.pitch
            == pre.display.pitch && post.display.video@ =~= Seq::new(
            VIDEO_BYTES as nat,
            |i: int| 0u8,
        ) && post.pc == pre.pc + 2,
        Instr::Ret => if pre.sp == 0 {
            r == Err::<(), EngineError>(EngineError::StackUnderflow) && vm_eq(pre, post)
        } else {
            r == ok && step_frame(pre, post) && same_mem(pre, post) && same_disp(pre, post)
                && same_i(pre, post) && same_v(pre, post) && same_r(pre, post) && same_t(pre, post)
                && same_rng(pre, post) && same_wait(pre, post) && post.stack@ == pre.stack@
                && post.sp == pre.sp - 1 && post.pc == pre.stack@[pre.sp - 1]
        },
        Instr::ScrollDown(n) => r == ok && step_frame(pre, post) && same_mem(pre, post)
            && same_stack(pre, post) && same_i(pre, post) && same_v(pre, post) && same_r(pre, post)
            && same_t(pre, post) && same_rng(pre, post) && same_wait(pre, post)
            && post.display.pitch == pre.display.pitch && post.display.video@.len() == VIDEO_BYTES
            && (forall|k: int|
            0 <= k < n * pre.display.pitch ==> post.display.video@[k] == 0) && (forall|k: int|
            n * pre.display.pitch <= k < pre.display.pitch * pre.display.pitch * 4
                ==> post.display.video@[k] == pre.display.video@[k - n * pre.display.pitch]) && (
        forall|k: int|
            pre.display.pitch * pre.display.pitch * 4 <= k < VIDEO_BYTES ==> post.display.video@[k]
                == pre.display.video@[k]) && post.pc == pre.pc + 2,
        Instr::ScrollUp(n) => r == ok && step_frame(pre, post) && same_mem(pre, post) && same_stack(
            pre,
            post,
        ) && same_i(pre, post) && same_v(pre, post) && same_r(pre, post) && same_t(pre, post)
            && same_rng(pre, post) && same_wait(pre, post) && post.display.pitch
            == pre.display.pitch && post.display.video@.len() == VIDEO_BYTES && (forall|k: int|
            0 <= k < pre.display.pitch * pre.display.pitch * 4 - n * pre.display.pitch
                ==> post.display.video@[k] == pre.display.video@[k + n * pre.display.pitch]) && (
        forall|k: int|
            pre.display.pitch * pre.display.pitch * 4 - n * pre.display.pitch <= k
                < pre.display.pitch * pre.display.pitch * 4 ==> post.display.video@[k] == 0) && (
        forall|k: int|
            pre.display.pitch * pre.display.pitch * 4 <= k < VIDEO_BYTES ==> post.display.video@[k]
                == pre.display.video@[k]) && post.pc == pre.pc + 2,
        Instr::LowRes => r == ok && step_frame(pre, post) && same_mem(pre, post) && same_stack(
            pre,
            post,
        ) && same_i(pre, post) && same_v(pre, post) && same_r(pre, post) && same_t(pre, post)
            && same_rng(pre, post) && same_wait(pre, post) && post.display.video@
            == pre.display.video@ && post.display.pitch == 8 && post.pc == pre.pc + 2,
        Instr::HighRes => r == ok && step_frame(pre, post) && same_mem(pre, post) && same_stack(
            pre,
            post,
        ) && same_i(pre, post) && same_v(pre, post) && same_r(pre, post) && same_t(pre, post)
            && same_rng(pre, post) && same_wait(pre, post) && post.display.video@
            == pre.display.video@ && post.display.pitch == 16 && post.pc == pre.pc + 2,
        Instr::Jump(nnn) => r == ok && step_frame(pre, post) && same_mem(pre, post) && same_disp(
            pre,
            post,
        ) && same_stack(pre, post) && same_i(pre, post) && same_v(pre, post) && same_r(pre, post)
            && same_t(pre, post) && same_rng(pre, post) && same_wait(pre, post) && post.pc == nnn,
        Instr::Call(nnn) => if pre.sp == STACK_DEPTH {
            r == Err::<(), EngineError>(EngineError::StackOverflow) && vm_eq(pre, post)
        } else {
            r == ok && step_frame(pre, post) && same_mem(pre, post) && same_disp(pre, post)
                && same_i(pre, post) && same_v(pre, post) && same_r(pre, post) && same_t(pre, post)
                && same_rng(pre, post) && same_wait(pre, post) && post.stack@ == pre.stack@.update(
                pre.sp as int,
                (pre.pc + 2) as u16,
            ) && post.sp == pre.sp + 1 && post.pc == nnn
        },
        Instr::SkipEqImm(x, nn) => r == ok && step_frame(pre, post) && same_mem(pre, post)
            && same_disp(pre, post) && same_stack(pre, post) && same_i(pre, post) && same_v(
            pre,
            post,
        ) && same_r(pre, post) && same_t(pre, post) && same_rng(pre, post) && same_wait(pre, post)
            && post.pc == pre.pc + (if v[x as int] == nn {
            4int
        } else {
            2int
        }),
        Instr::SkipNeImm(x, nn) => r == ok && step_frame(pre, post) && same_mem(pre, post)
            && same_disp(pre, post) && same_stack(pre, post) && same_i(pre, post) && same_v(
            pre,
            post,
        ) && same_r(pre, post) && same_t(pre, post) && same_rng(pre, post) && same_wait(pre, post)
            && post.pc == pre.pc + (if v[x as int] != nn {
            4int
        } else {
            2int
        }),
        Instr::SkipEqReg(x, y) => r == ok && step_frame(pre, post) && same_mem(pre, post)
            && same_disp(pre, post) && same_stack(pre, post) && same_i(pre, post) && same_v(
            pre,
            post,
        ) && same_r(pre, post) && same_t(pre, post) && same_rng(pre, post) && same_wait(pre, post)
            && post.pc == pre.pc + (if v[x as int] == v[y as int] {
            4int
        } else {
            2int
        }),
        Instr::SetImm(x, nn) => r == ok && step_frame(pre, post) && same_mem(pre, post)
            && same_disp(pre, post) && same_stack(pre, post) && same_i(pre, post) && same_r(
            pre,
            post,
        ) && same_t(pre, post) && same_rng(pre, post) && same_wait(pre, post) && post.regs.v@
            == v.update(x as int, nn) && post.pc == pre.pc + 2,
        Instr::AddImm(x, nn) => r == ok && step_frame(pre, post) && same_mem(pre, post)
            && same_disp(pre, post) && same_stack(pre, post) && same_i(pre, post) && same_r(
            pre,
            post,
        ) && same_t(pre, post) && same_rng(pre, post) && same_wait(pre, post) && post.regs.v@
            == v.update(x as int, wrap8(v[x as int] + nn)) && post.pc == pre.pc + 2,
        Instr::Move(x, y) => r == ok && step_frame(pre, post) && same_mem(pre, post) && same_disp(
            pre,
            post,
        ) && same_stack(pre, post) && same_i(pre, post) && same_r(pre, post) && same_t(pre, post)
            && same_rng(pre, post) && same_wait(pre, post) && post.regs.v@ == v.update(
            x as int,
            v[y as int],
        ) && post.pc == pre.pc + 2,
        Instr::Or(x, y) => r == ok && step_frame(pre, post) && same_mem(pre, post) && same_disp(
            pre,
            post,
        ) && same_stack(pre, post) && same_i(pre, post) && same_r(pre, post) && same_t(pre, post)
            && same_rng(pre, post) && same_wait(pre, post) && post.regs.v@ == v.update(
            x as int,
            v[x as int] | v[y as int],
        ) && post.pc == pre.pc + 2,
        Instr::And(x, y) => r == ok && step_frame(pre, post) && same_mem(pre, post) && same_disp(
            pre,
            post,
        ) && same_stack(pre, post) && same_i(pre, post) && same_r(pre, post) && same_t(pre, post)
            && same_rng(pre, post) && same_wait(pre, post) && post.regs.v@ == v.update(
            x as int,
            v[x as int] & v[y as int],
        ) && post.pc == pre.pc + 2,
        Instr::Xor(x, y) => r == ok && step_frame(pre, post) && same_mem(pre, post) && same_disp(
            pre,
            post,
        ) && same_stack(pre, post) && same_i(pre, post) && same_r(pre, post) && same_t(pre, post)
            && same_rng(pre, post) && same_wait(pre, post) && post.regs.v@ == v.update(
            x as int,
            v[x as int] ^ v[y as int],
        ) && post.pc == pre.pc + 2,
        Instr::Add(x, y) => r == ok && step_frame(pre, post) && same_mem(pre, post) && same_disp(
            pre,
            post,
        ) && same_stack(pre, post) && same_i(pre, post) && same_r(pre, post) && same_t(pre, post)
            && same_rng(pre, post) && same_wait(pre, post) && post.regs.v@ == v.update(
            x as int,
            wrap8(v[x as int] + v[y as int]),
        ).update(
            15,
            if v[x as int] + v[y as int] > 255 {
                1u8
            } else {
                0u8
            },
        ) && post.pc == pre.pc + 2,
        Instr::Sub(x, y) => r == ok && step_frame(pre, post) && same_mem(pre, post) && same_disp(
            pre,
            post,
        ) && same_stack(pre, post) && same_i(pre, post) && same_r(pre, post) && same_t(pre, post)
            && same_rng(pre, post) && same_wait(pre, post) && post.regs.v@ == v.update(
            x as int,
            wrap8(v[x as int] - v[y as int]),
        ).update(
            15,
            if v[x as int] >= v[y as int] {
                1u8
            } else {
                0u8
            },
        ) && post.pc == pre.pc + 2,
        Instr::Shr(x) => r == ok && step_frame(pre, post) && same_mem(pre, post) && same_disp(
            pre,
            post,
        ) && same_stack(pre, post) && same_i(pre, post) && same_r(pre, post) && same_t(pre, post)
            && same_rng(pre, post) && same_wait(pre, post) && post.regs.v@ == v.update(
            x as int,
            ((v[x as int] / 2) as u8),
        ).update(15, ((v[x as int] % 2) as u8)) && post.pc == pre.pc + 2,
        Instr::SubFrom(x, y) => r == ok && step_frame(pre, post) && same_mem(pre, post)
            && same_disp(pre, post) && same_stack(pre, post) && same_i(pre, post) && same_r(
            pre,
            post,
        ) && same_t(pre, post) && same_rng(pre, post) && same_wait(pre, post) && post.regs.v@
            == v.update(x as int, wrap8(v[y as int] - v[x as int])).update(
            15,
            if v[y as int] >= v[x as int] {
                1u8
            } else {
                0u8
            },
        ) && post.pc == pre.pc + 2,
        Instr::Shl(x) => r == ok && step_frame(pre, post) && same_mem(pre, post) && same_disp(
            pre,
            post,
        ) && same_stack(pre, post) && same_i(pre, post) && same_r(pre, post) && same_t(pre, post)
            && same_rng(pre, post) && same_wait(pre, post) && post.regs.v@ == v.update(
            x as int,
            wrap8(v[x as int] * 2),
        ).update(15, ((v[x as int] / 128) as u8)) && post.pc == pre.pc + 2,
        Instr::SkipNeReg(x, y) => r == ok && step_frame(pre, post) && same_mem(pre, post)
            && same_disp(pre, post) && same_stack(pre, post) && same_i(pre, post) && same_v(
            pre,
            post,
        ) && same_r(pre, post) && same_t(pre, post) && same_rng(pre, post) && same_wait(pre, post)
            && post.pc == pre.pc + (if v[x as int] != v[y as int] {
            4int
        } else {
            2int
        }),
        Instr::SetIndex(nnn) => r == ok && step_frame(pre, post) && same_mem(pre, post)
            && same_disp(pre, post) && same_stack(pre, post) && same_v(pre, post) && same_r(
            pre,
            post,
        ) && same_t(pre, post) && same_rng(pre, post) && same_wait(pre, post) && post.regs.i == nnn
            && post.pc == pre.pc + 2,
        Instr::JumpV0(nnn) => r == ok && step_frame(pre, post) && same_mem(pre, post) && same_disp(
            pre,
            post,
        ) && same_stack(pre, post) && same_i(pre, post) && same_v(pre, post) && same_r(pre, post)
            && same_t(pre, post) && same_rng(pre, post) && same_wait(pre, post) && post.pc == nnn
            + v[0],
        Instr::Random(x, nn) => r == ok && step_frame(pre, post) && same_mem(pre, post)
            && same_disp(pre, post) && same_stack(pre, post) && same_i(pre, post) && same_r(
            pre,
            post,
        ) && same_t(pre, post) && same_wait(pre, post) && post.rng == rng_next(pre.rng)
            && post.regs.v@ == v.update(x as int, rng_byte(rng_next(pre.rng)) & nn) && post.pc
            == pre.pc + 2,
        Instr::Draw(x, y, n) => r == ok && step_frame(pre, post) && same_mem(pre, post)
            && same_stack(pre, post) && same_i(pre, post) && same_r(pre, post) && same_t(pre, post)
            && same_rng(pre, post) && same_wait(pre, post) && post.display.pitch
            == pre.display.pitch && post.pc == pre.pc + 2 && post.regs.v@ == v.update(
            15,
            if draw_collides(
                pre.display.video@,
                pre.display.pitch as int,
                v[x as int] as int,
                v[y as int] as int,
                sprite_seq(pre, n),
                n == 0,
            ) {
                1u8
            } else {
                0u8
            },
        ) && draw_rel(
            pre.display.video@,
            post.display.video@,
            pre.display.pitch as int,
            v[x as int] as int,
            v[y as int] as int,
            sprite_seq(pre, n),
            n == 0,
            draw_collides(
                pre.display.video@,
                pre.display.pitch as int,
                v[x as int] as int,
                v[y as int] as int,
                sprite_seq(pre, n),
                n == 0,
            ),
        ),
        Instr::SkipKey(x) => if v[x as int] > 15 {
            r == Err::<(), EngineError>(EngineError::InvalidOperand) && vm_eq(pre, post)
        } else {
            r == ok && step_frame(pre, post) && same_mem(pre, post) && same_disp(pre, post)
                && same_stack(pre, post) && same_i(pre, post) && same_v(pre, post) && same_r(
                pre,
                post,
            ) && same_t(pre, post) && same_rng(pre, post) && same_wait(pre, post) && post.pc
                == pre.pc + (if pre.keys@[v[x as int] as int] {
                4int
            } else {
                2int
            })
        },
        Instr::SkipNoKey(x) => if v[x as int] > 15 {
            r == Err::<(), EngineError>(EngineError::InvalidOperand) && vm_eq(pre, post)
        } else {
            r == ok && step_frame(pre, post) && same_mem(pre, post) && same_disp(pre, post)
                && same_stack(pre, post) && same_i(pre, post) && same_v(pre, post) && same_r(
                pre,
                post,
            ) && same_t(pre, post) && same_rng(pre, post) && same_wait(pre, post) && post.pc
                == pre.pc + (if !pre.keys@[v[x as int] as int] {
                4int
            } else {
                2int
            })
        },
        Instr::GetDelay(x) => r == ok && step_frame(pre, post) && same_mem(pre, post) && same_disp(
            pre,
            post,
        ) && same_stack(pre, post) && same_i(pre, post) && same_r(pre, post) && same_t(pre, post)
            && same_rng(pre, post) && same_wait(pre, post) && post.regs.v@ == v.update(
            x as int,
            countdown_u8(pre.regs.dt, now),
        ) && post.pc == pre.pc + 2,
        Instr::WaitKey(x) => r == ok && step_frame(pre, post) && same_mem(pre, post) && same_disp(
            pre,
            post,
        ) && same_stack(pre, post) && same_i(pre, post) && same_v(pre, post) && same_r(pre, post)
            && same_t(pre, post) && same_rng(pre, post) && post.waiting && post.wait_vx == x
            && post.wait_held@ == pre.keys@ && post.pc == pre.pc,
        Instr::SetDelay(x) => r == ok && step_frame(pre, post) && same_mem(pre, post) && same_disp(
            pre,
            post,
        ) && same_stack(pre, post) && same_i(pre, post) && same_v(pre, post) && same_r(pre, post)
            && same_rng(pre, post) && same_wait(pre, post) && post.regs.dt == deadline_spec(
            now,
            v[x as int],
        ) && post.regs.st == pre.regs.st && post.pc == pre.pc + 2,
        Instr::SetSound(x) => r == ok && step_frame(pre, post) && same_mem(pre, post) && same_disp(
            pre,
            post,
        ) && same_stack(pre, post) && same_i(pre, post) && same_v(pre, post) && same_r(pre, post)
            && same_rng(pre, post) && same_wait(pre, post) && post.regs.st == deadline_spec(
            now,
            v[x as int],
        ) && post.regs.dt == pre.regs.dt && post.pc == pre.pc + 2,
        Instr::AddIndex(x) => r == ok && step_frame(pre, post) && same_mem(pre, post) && same_disp(
            pre,
            post,
        ) && same_stack(pre, post) && same_v(pre, post) && same_r(pre, post) && same_t(pre, post)
            && same_rng(pre, post) && same_wait(pre, post) && post.regs.i == ((pre.regs.i + v[
            x as int
        ]) % 0x10000) as u16 && post.pc == pre.pc + 2,
        Instr::FontSprite(x) => r == ok && step_frame(pre, post) && same_mem(pre, post)
            && same_disp(pre, post) && same_stack(pre, post) && same_v(pre, post) && same_r(
            pre,
            post,
        ) && same_t(pre, post) && same_rng(pre, post) && same_wait(pre, post) && post.regs.i == (v[
            x as int
        ] as int % 16) * 5 && post.pc == pre.pc + 2,
        Instr::StoreBcd(x) => r == ok && step_frame(pre, post) && same_disp(pre, post)
            && same_stack(pre, post) && same_i(pre, post) && same_v(pre, post) && same_r(pre, post)
            && same_t(pre, post) && same_rng(pre, post) && same_wait(pre, post) && post.memory@
            == pre.memory@.update(mem_at(pre.regs.i, 0), ((v[x as int] / 100) as u8)).update(
            mem_at(pre.regs.i, 1),
            (((v[x as int] / 10) % 10) as u8),
        ).update(mem_at(pre.regs.i, 2), ((v[x as int] % 10) as u8)) && post.pc == pre.pc + 2,
        Instr::StoreRegs(x) => r == ok && step_frame(pre, post) && same_disp(pre, post)
            && same_stack(pre, post) && same_i(pre, post) && same_v(pre, post) && same_r(pre, post)
            && same_t(pre, post) && same_rng(pre, post) && same_wait(pre, post) && post.memory@
            =~= Seq::new(
            MEM_BYTES as nat,
            |a: int|
                if mem_back(pre.regs.i, a) <= x {
                    v[mem_back(pre.regs.i, a)]
                } else {
                    pre.memory@[a]
                },
        ) && post.pc == pre.pc + 2,
        Instr::LoadRegs(x) => r == ok && step_frame(pre, post) && same_mem(pre, post) && same_disp(
            pre,
            post,
        ) && same_stack(pre, post) && same_i(pre, post) && same_r(pre, post) && same_t(pre, post)
            && same_rng(pre, post) && same_wait(pre, post) && post.regs.v@ =~= Seq::new(
            16,
            |k: int|
                if k <= x {
                    pre.memory@[mem_at(pre.regs.i, k)]
                } else {
                    v[k]
                },
        ) && post.pc == pre.pc + 2,
        Instr::SaveFlags(x) => if x > 7 {
            r == Err::<(), EngineError>(EngineError::InvalidOperand) && vm_eq(pre, post)
        } else {
            r == ok && step_frame(pre, post) && same_mem(pre, post) && same_disp(pre, post)
                && same_stack(pre, post) && same_i(pre, post) && same_v(pre, post) && same_t(
                pre,
                post,
            ) && same_rng(pre, post) && same_wait(pre, post) && post.regs.r@ =~= Seq::new(
                8,
                |k: int|
                    if k <= x {
                        v[k]
                    } else {
                        pre.regs.r@[k]
                    },
            ) && post.pc == pre.pc + 2
        },
        Instr::LoadFlags(x) => if x > 7 {
            r == Err::<(), EngineError>(EngineError::InvalidOperand) && vm_eq(pre, post)
        } else {
            r == ok && step_frame(pre, post) && same_mem(pre, post) && same_disp(pre, post)
                && same_stack(pre, post) && same_i(pre, post) && same_r(pre, post) && same_t(
                pre,
                post,
            ) && same_rng(pre, post) && same_wait(pre, post) && post.regs.v@ =~= Seq::new(
                16,
                |k: int|
                    if k <= x {
                        pre.regs.r@[k]
                    } else {
                        v[k]
                    },
            ) && post.pc == pre.pc + 2
        },
    }
}

/// Addresses computed from the address register land in memory, and the
/// offset is recovered by `mem_back`.
proof fn lemma_mem_round_trip(i: u16, k: int)
    requires
        0 <= k < 0x1000,
    ensures
        0 <= mem_at(i, k) < 0x1000,
        mem_back(i, mem_at(i, k)) == k,
{
}

/// Every memory address is the image of its own offset: the forward map
/// inverts `mem_back`.
proof fn lemma_mem_forward(i: u16, a: int)
    requires
        0 <= a < 0x1000,
    ensures
        0 <= mem_back(i, a) < 0x1000,
        mem_at(i, mem_back(i, a)) == a,
{
}

impl VM {
    /// Adds one executed instruction to the cycle counter.
    fn bump_cycles(&mut self)
        ensures
            *final(self) == (VM { cycles: sat_inc(old(self).cycles), ..*old(self) }),
    {
        if self.cycles < u64::MAX {
            self.cycles = self.cycles + 1;
        }
    }

    /// Executes the system instructions: clear, return, scrolling and the
    /// resolution switches.
    #[verifier::rlimit(50)]
    fn exec_sys(&mut self, op: Instr, now: u64) -> (r: Result<(), EngineError>)
        requires
            old(self).wf(),
            instr_wf(op),
            old(self).pc <= 0xFFE,
            !old(self).waiting,
            op is Cls || op is Ret || op is ScrollDown || op is ScrollUp || op is LowRes
                || op is HighRes,
        ensures
            final(self).wf(),
            op_effect(*old(self), *final(self), op, now, r),
    {
        match op {
            Instr::Cls => {
                self.display.clear();
                self.pc = self.pc + 2;
            },
            Instr::Ret => {
                if self.sp == 0 {
                    return Err(EngineError::StackUnderflow);
                }
                self.sp = self.sp - 1;
                self.pc = self.stack[self.sp];
            },
            Instr::ScrollDown(n) => {
                self.display.scroll_down(n);
                self.pc = self.pc + 2;
            },
            Instr::ScrollUp(n) => {
                self.display.scroll_up(n);
                self.pc = self.pc + 2;
            },
            Instr::LowRes => {
                self.display.set_resolution(false);
                self.pc = self.pc + 2;
            },
            Instr::HighRes => {
                self.display.set_resolution(true);
                self.pc = self.pc + 2;
            },
            _ => {
                assert(false);
                return Err(EngineError::IllegalInstruction);
            },
        }
        self.bump_cycles();
        Ok(())
    }

    /// Executes the control-flow instructions: jumps, calls and skips.
    #[verifier::rlimit(50)]
    fn exec_flow(&mut self, op: Instr, now: u64) -> (r: Result<(), EngineError>)
        requires
            old(self).wf(),
            instr_wf(op),
            old(self).pc <= 0xFFE,
            !old(self).waiting,
            op is Jump || op is Call || op is SkipEqImm || op is SkipNeImm || op is SkipEqReg
                || op is SkipNeReg || op is JumpV0 || op is SkipKey || op is SkipNoKey,
        ensures
            final(self).wf(),
            op_effect(*old(self), *final(self), op, now, r),
    {
        match op {
            Instr::Jump(nnn) => {
                self.pc = nnn;
            },
            Instr::Call(nnn) => {
                if self.sp == STACK_DEPTH {
                    return Err(EngineError::StackOverflow);
                }
                self.stack[self.sp] = self.pc + 2;
                self.sp = self.sp + 1;
                self.pc = nnn;
            },
            Instr::SkipEqImm(x, nn) => {
                let skip = self.regs.v[x as usize] == nn;
                self.pc = self.pc + (if skip {
                    4
                } else {
                    2
                });
            },
            Instr::SkipNeImm(x, nn) => {
                let skip = self.regs.v[x as usize] != nn;
                self.pc = self.pc + (if skip {
                    4
                } else {
                    2
                });
            },
            Instr::SkipEqReg(x, y) => {
                let skip = self.regs.v[x as usize] == self.regs.v[y as usize];
                self.pc = self.pc + (if skip {
                    4
                } else {
                    2
                });
            },
            Instr::SkipNeReg(x, y) => {
                let skip = self.regs.v[x as usize] != self.regs.v[y as usize];
                self.pc = self.pc + (if skip {
                    4
                } else {
                    2
                });
            },
            Instr::JumpV0(nnn) => {
                self.pc = nnn + self.regs.v[0] as u16;
            },
            Instr::SkipKey(x) => {
                let key = self.regs.v[x as usize];
                if key > 15 {
                    return Err(EngineError::InvalidOperand);
                }
                let skip = self.keys[key as usize];
                self.pc = self.pc + (if skip {
                    4
                } else {
                    2
                });
            },
            Instr::SkipNoKey(x) => {
                let key = self.regs.v[x as usize];
                if key > 15 {
                    return Err(EngineError::InvalidOperand);
                }
                let skip = !self.keys[key as usize];
                self.pc = self.pc + (if skip {
                    4
                } else {
                    2
                });
            },
            _ => {
                assert(false);
                return Err(EngineError::IllegalInstruction);
            },
        }
        self.bump_cycles();
        Ok(())
    }

    /// Executes the arithmetic and logic instructions on the general
    /// registers, including the pseudo-random draw.
    #[verifier::rlimit(50)]
    fn exec_alu(&mut self, op: Instr, now: u64) -> (r: Result<(), EngineError>)
        requires
            old(self).wf(),
            instr_wf(op),
            old(self).pc <= 0xFFE,
            !old(self).waiting,
            op is SetImm || op is AddImm || op is Move || op is Or || op is And || op is Xor
                || op is Add || op is Sub || op is Shr || op is SubFrom || op is Shl
                || op is Random,
        ensures
            final(self).wf(),
            op_effect(*old(self), *final(self), op, now, r),
    {
        match op {
            Instr::SetImm(x, nn) => {
                self.regs.v[x as usize] = nn;
            },
            Instr::AddImm(x, nn) => {
                let a = self.regs.v[x as usize];
                let sum: u16 = a as u16 + nn as u16;
                self.regs.v[x as usize] = (sum % 256) as u8;
            },
            Instr::Move(x, y) => {
                let b = self.regs.v[y as usize];
                self.regs.v[x as usize] = b;
            },
            Instr::Or(x, y) => {
                let a = self.regs.v[x as usize];
                let b = self.regs.v[y as usize];
                self.regs.v[x as usize] = a | b;
            },
            Instr::And(x, y) => {
                let a = self.regs.v[x as usize];
                let b = self.regs.v[y as usize];
                self.regs.v[x as usize] = a & b;
            },
            Instr::Xor(x, y) => {
                let a = self.regs.v[x as usize];
                let b = self.regs.v[y as usize];
                self.regs.v[x as usize] = a ^ b;
            },
            Instr::Add(x, y) => {
                let a = self.regs.v[x as usize];
                let b = self.regs.v[y as usize];
                let sum: u16 = a as u16 + b as u16;
                self.regs.v[x as usize] = (sum % 256) as u8;
                self.regs.v[15] = if sum > 255 {
                    1
                } else {
                    0
                };
            },
            Instr::Sub(x, y) => {
                let a = self.regs.v[x as usize];
                let b = self.regs.v[y as usize];
                let diff: u8 = if a >= b {
                    a - b
                } else {
                    ((256 + a as u16 - b as u16) % 256) as u8
                };
                assert(diff == wrap8(a - b));
                self.regs.v[x as usize] = diff;
                self.regs.v[15] = if a >= b {
                    1
                } else {
                    0
                };
            },
            Instr::Shr(x) => {
                let a = self.regs.v[x as usize];
                self.regs.v[x as usize] = a / 2;
                self.regs.v[15] = a % 2;
            },
            Instr::SubFrom(x, y) => {
                let a = self.regs.v[x as usize];
                let b = self.regs.v[y as usize];
                let diff: u8 = if b >= a {
                    b - a
                } else {
                    ((256 + b as u16 - a as u16) % 256) as u8
                };
                assert(diff == wrap8(b - a));
                self.regs.v[x as usize] = diff;
                self.regs.v[15] = if b >= a {
                    1
                } else {
                    0
                };
            },
            Instr::Shl(x) => {
                let a = self.regs.v[x as usize];
                let doubled: u16 = a as u16 * 2;
                self.regs.v[x as usize] = (doubled % 256) as u8;
                self.regs.v[15] = a / 128;
            },
            Instr::Random(x, nn) => {
                proof {
                    lemma_mul_inequality(self.rng as int, 0x7FFF_FFFF, 1103515245);
                }
                let s: u64 = (self.rng * 1103515245 + 12345) % 0x8000_0000;
                self.rng = s;
                let byte: u8 = ((s / 0x10000) % 0x100) as u8;
                self.regs.v[x as usize] = byte & nn;
            },
            _ => {
                assert(false);
                return Err(EngineError::IllegalInstruction);
            },
        }
        self.pc = self.pc + 2;
        self.bump_cycles();
        Ok(())
    }

    /// Executes the address-register and timer instructions, and the entry
    /// into the await-key state.
    #[verifier::rlimit(50)]
    fn exec_index_timer(&mut self, op: Instr, now: u64) -> (r: Result<(), EngineError>)
        requires
            old(self).wf(),
            instr_wf(op),
            old(self).pc <= 0xFFE,
            !old(self).waiting,
            op is SetIndex || op is AddIndex || op is FontSprite || op is GetDelay
                || op is SetDelay || op is SetSound || op is WaitKey,
        ensures
            final(self).wf(),
            op_effect(*old(self), *final(self), op, now, r),
    {
        match op {
            Instr::SetIndex(nnn) => {
                self.regs.i = nnn;
                self.pc = self.pc + 2;
            },
            Instr::AddIndex(x) => {
                let val = self.regs.v[x as usize];
                let widened: u32 = self.regs.i as u32 + val as u32;
                self.regs.i = (widened % 0x10000) as u16;
                self.pc = self.pc + 2;
            },
            Instr::FontSprite(x) => {
                let digit = self.regs.v[x as usize] % 16;
                self.regs.i = (digit as u16) * 5;
                self.pc = self.pc + 2;
            },
            Instr::GetDelay(x) => {
                let val = countdown(self.regs.dt, now);
                self.regs.v[x as usize] = val;
                self.pc = self.pc + 2;
            },
            Instr::SetDelay(x) => {
                let val = self.regs.v[x as usize];
                self.regs.dt = timer_deadline(now, val);
                self.pc = self.pc + 2;
            },
            Instr::SetSound(x) => {
                let val = self.regs.v[x as usize];
                self.regs.st = timer_deadline(now, val);
                self.pc = self.pc + 2;
            },
            Instr::WaitKey(x) => {
                self.waiting = true;
                self.wait_vx = x;
                self.wait_held = crate::buffer::duplicate(&self.keys);
            },
            _ => {
                assert(false);
                return Err(EngineError::IllegalInstruction);
            },
        }
        self.bump_cycles();
        Ok(())
    }

    /// Executes the sprite draw.
    #[verifier::rlimit(50)]
    fn exec_draw(&mut self, x: u8, y: u8, n: u8, now: u64) -> (r: Result<(), EngineError>)
        requires
            old(self).wf(),
            x < 16,
            y < 16,
            n < 16,
            old(self).pc <= 0xFFE,
            !old(self).waiting,
        ensures
            final(self).wf(),
            op_effect(*old(self), *final(self), Instr::Draw(x, y, n), now, r),
    {
        let wide = n == 0;
        let needed: usize = if wide {
            32
        } else {
            n as usize
        };
        let base = self.regs.i;
        let mut sprite: Vec<u8> = Vec::new();
        let mut k: usize = 0;
        while k < needed
            invariant
                old(self).wf(),
                *self == *old(self),
                k <= needed,
                needed <= 32,
                base == old(self).regs.i,
                sprite@ =~= Seq::new(
                    k as nat,
                    |j: int| old(self).memory@[mem_at(old(self).regs.i, j)],
                ),
            decreases needed - k,
        {
            let addr = ((base as usize) + k) % 0x1000;
            sprite.push(self.memory[addr]);
            k = k + 1;
            assert(sprite@ =~= Seq::new(
                k as nat,
                |j: int| old(self).memory@[mem_at(old(self).regs.i, j)],
            ));
        }
        assert(sprite@ =~= sprite_seq(*old(self), n));
        let vx = self.regs.v[x as usize];
        let vy = self.regs.v[y as usize];
        let col = self.display.draw_sprite(vx, vy, &sprite, wide);
        self.regs.v[15] = if col {
            1
        } else {
            0
        };
        self.pc = self.pc + 2;
        self.bump_cycles();
        Ok(())
    }

    /// Executes the bulk-memory and flag-register instructions.
    #[verifier::rlimit(80)]
    fn exec_mem(&mut self, op: Instr, now: u64) -> (r: Result<(), EngineError>)
        requires
            old(self).wf(),
            instr_wf(op),
            old(self).pc <= 0xFFE,
            !old(self).waiting,
            op is StoreBcd || op is StoreRegs || op is LoadRegs || op is SaveFlags
                || op is LoadFlags,
        ensures
            final(self).wf(),
            op_effect(*old(self), *final(self), op, now, r),
    {
        match op {
            Instr::StoreBcd(x) => {
                let a = self.regs.v[x as usize];
                let base = self.regs.i as usize;
                let i0 = base % 0x1000;
                let i1 = (base + 1) % 0x1000;
                let i2 = (base + 2) % 0x1000;
                self.memory[i0] = a / 100;
                self.memory[i1] = (a / 10) % 10;
                self.memory[i2] = a % 10;
                self.pc = self.pc + 2;
            },
            Instr::StoreRegs(x) => {
                let xi = x as usize;
                let base = self.regs.i;
                let mut k: usize = 0;
                while k <= xi
                    invariant
                        old(self).wf(),
                        xi == x as int,
                        x < 16,
                        k <= xi + 1,
                        base == old(self).regs.i,
                        *self == (VM { memory: self.memory, ..*old(self) }),
                        self.memory@.len() == MEM_BYTES,
                        forall|a: int|
                            0 <= a < MEM_BYTES ==> self.memory@[a] == (if mem_back(base, a)
                                < k {
                                old(self).regs.v@[mem_back(base, a)]
                            } else {
                                old(self).memory@[a]
                            }),
                    decreases xi + 1 - k,
                {
                    proof {
                        lemma_mem_round_trip(base, k as int);
                    }
                    let addr = ((base as usize) + k) % 0x1000;
                    let val = self.regs.v[k];
                    self.memory[addr] = val;
                    proof {
                        assert forall|a: int|
                            0 <= a < MEM_BYTES && a != addr implies mem_back(base, a)
                            != k as int by {
                            if mem_back(base, a) == k as int {
                                lemma_mem_forward(base, a);
                            }
                        }
                    }
                    k = k + 1;
                }
                assert(self.memory@ =~= Seq::new(
                    MEM_BYTES as nat,
                    |a: int|
                        if mem_back(old(self).regs.i, a) <= x {
                            old(self).regs.v@[mem_back(old(self).regs.i, a)]
                        } else {
                            old(self).memory@[a]
                        },
                ));
                self.pc = self.pc + 2;
            },
            Instr::LoadRegs(x) => {
                let xi = x as usize;
                let base = self.regs.i;
                let mut k: usize = 0;
                while k <= xi
                    invariant
                        old(self).wf(),
                        xi == x as int,
                        x < 16,
                        k <= xi + 1,
                        base == old(self).regs.i,
                        *self == (VM { regs: self.regs, ..*old(self) }),
                        self.regs == (crate::registers::Registers {
                            v: self.regs.v,
                            ..old(self).regs
                        }),
                        self.regs.v@.len() == 16,
                        forall|j: int|
                            0 <= j < 16 ==> self.regs.v@[j] == (if j < k {
                                old(self).memory@[mem_at(base, j)]
                            } else {
                                old(self).regs.v@[j]
                            }),
                    decreases xi + 1 - k,
                {
                    proof {
                        lemma_mem_round_trip(base, k as int);
                    }
                    let addr = ((base as usize) + k) % 0x1000;
                    let val = self.memory[addr];
                    self.regs.v[k] = val;
                    k = k + 1;
                }
                assert(self.regs.v@ =~= Seq::new(
                    16,
                    |j: int|
                        if j <= x {
                            old(self).memory@[mem_at(old(self).regs.i, j)]
                        } else {
                            old(self).regs.v@[j]
                        },
                ));
                self.pc = self.pc + 2;
            },
            Instr::SaveFlags(x) => {
                if x > 7 {
                    return Err(EngineError::InvalidOperand);
                }
                let xi = x as usize;
                let mut k: usize = 0;
                while k <= xi
                    invariant
                        old(self).wf(),
                        xi == x as int,
                        x <= 7,
                        k <= xi + 1,
                        *self == (VM { regs: self.regs, ..*old(self) }),
                        self.regs == (crate::registers::Registers {
                            r: self.regs.r,
                            ..old(self).regs
                        }),
                        self.regs.r@.len() == 8,
                        forall|j: int|
                            0 <= j < 8 ==> self.regs.r@[j] == (if j < k {
                                old(self).regs.v@[j]
                            } else {
                                old(self).regs.r@[j]
                            }),
                    decreases xi + 1 - k,
                {
                    let val = self.regs.v[k];
                    self.regs.r[k] = val;
                    k = k + 1;
                }
                assert(self.regs.r@ =~= Seq::new(
                    8,
                    |j: int|
                        if j <= x {
                            old(self).regs.v@[j]
                        } else {
                            old(self).regs.r@[j]
                        },
                ));
                self.pc = self.pc + 2;
            },
            Instr::LoadFlags(x) => {
                if x > 7 {
                    return Err(EngineError::InvalidOperand);
                }
                let xi = x as usize;
                let mut k: usize = 0;
                while k <= xi
                    invariant
                        old(self).wf(),
                        xi == x as int,
                        x <= 7,
                        k <= xi + 1,
                        *self == (VM { regs: self.regs, ..*old(self) }),
                        self.regs == (crate::registers::Registers {
                            v: self.regs.v,
                            ..old(self).regs
                        }),
                        self.regs.v@.len() == 16,
                        forall|j: int|
                            0 <= j < 16 ==> self.regs.v@[j] == (if j < k {
                                old(self).regs.r@[j]
                            } else {
                                old(self).regs.v@[j]
                            }),
                    decreases xi + 1 - k,
                {
                    let val = self.regs.r[k];
                    self.regs.v[k] = val;
                    k = k + 1;
                }
                assert(self.regs.v@ =~= Seq::new(
                    16,
                    |j: int|
                        if j <= x {
                            old(self).regs.r@[j]
                        } else {
                            old(self).regs.v@[j]
                        },
                ));
                self.pc = self.pc + 2;
            },
            _ => {
                assert(false);
                return Err(EngineError::IllegalInstruction);
            },
        }
        self.bump_cycles();
        Ok(())
    }

    /// Executes one decoded instruction: applies its documented effect to
    /// the machine and increments the cycle counter, or reports the
    /// execution error it raises and leaves the machine unchanged.
    fn execute(&mut self, op: Instr, now: u64) -> (r: Result<(), EngineError>)
        requires
            old(self).wf(),
            instr_wf(op),
            old(self).pc <= 0xFFE,
            !old(self).waiting,
        ensures
            final(self).wf(),
            op_effect(*old(self), *final(self), op, now, r),
    {
        match op {
            Instr::Cls | Instr::Ret | Instr::ScrollDown(_) | Instr::ScrollUp(_) | Instr::LowRes
                | Instr::HighRes => self.exec_sys(op, now),
            Instr::Jump(_) | Instr::Call(_) | Instr::SkipEqImm(_, _) | Instr::SkipNeImm(_, _)
                | Instr::SkipEqReg(_, _) | Instr::SkipNeReg(_, _) | Instr::JumpV0(_)
                | Instr::SkipKey(_) | Instr::SkipNoKey(_) => self.exec_flow(op, now),
            Instr::SetImm(_, _) | Instr::AddImm(_, _) | Instr::Move(_, _) | Instr::Or(_, _)
                | Instr::And(_, _) | Instr::Xor(_, _) | Instr::Add(_, _) | Instr::Sub(_, _)
                | Instr::Shr(_) | Instr::SubFrom(_, _) | Instr::Shl(_) | Instr::Random(_, _) => {
                self.exec_alu(op, now)
            },
            Instr::SetIndex(_) | Instr::AddIndex(_) | Instr::FontSprite(_) | Instr::GetDelay(_)
                | Instr::SetDelay(_) | Instr::SetSound(_) | Instr::WaitKey(_) => {
                self.exec_index_timer(op, now)
            },
            Instr::Draw(x, y, n) => self.exec_draw(x, y, n, now),
            Instr::StoreBcd(_) | Instr::StoreRegs(_) | Instr::LoadRegs(_) | Instr::SaveFlags(_)
                | Instr::LoadFlags(_) => self.exec_mem(op, now),
        }
    }

    /// Advances the machine by at most one instruction at time `now`:
    /// yields `Paced` while the pacing gate holds the next cycle back,
    /// polls the await-key state, and otherwise fetches, decodes and
    /// executes the instruction at the program counter. Execution errors
    /// are fatal: the machine is left exactly as it was so the caller can
    /// inspect or reset it.
    #[verifier::rlimit(50)]
    pub fn step(&mut self, now: u64) -> (r: Result<StepOutcome, EngineError>)
        requires
            old(self).wf(),
        ensures
            final(self).wf(),
            step_effect(*old(self), *final(self), now, r),
    {
        if !is_due(self.clock, self.cycles, self.speed, now) {
            return Ok(StepOutcome::Paced);
        }
        if self.waiting {
            let mut k: usize = 0;
            while k < 16
                invariant
                    old(self).wf(),
                    old(self).waiting,
                    pace_due(old(self).clock, old(self).cycles, old(self).speed, now),
                    *self == *old(self),
                    k <= 16,
                    first_new_key(*old(self)) == first_new_key_from(*old(self), k as int),
                decreases 16 - k,
            {
                if self.keys[k] && !self.wait_held[k] {
                    proof {
                        assert(newly_pressed(*old(self), k as int));
                        assert(first_new_key_from(*old(self), k as int) == k as int);
                        assert(old(self).pc <= 0xFFE);
                    }
                    let vx = self.wait_vx as usize;
                    self.regs.v[vx] = k as u8;
                    self.waiting = false;
                    self.pc = self.pc + 2;
                    return Ok(StepOutcome::Executed);
                }
                k = k + 1;
            }
            return Ok(StepOutcome::AwaitingKey);
        }
        if self.pc >= 0xFFF {
            return Err(EngineError::MemoryFault);
        }
        let pc = self.pc as usize;
        let hi = self.memory[pc];
        let lo = self.memory[pc + 1];
        let word: u16 = (hi as u16) * 0x100 + (lo as u16);
        assert(word == fetch_word(old(self).memory@, old(self).pc as int));
        match decode(word) {
            Option::None => Err(EngineError::IllegalInstruction),
            Option::Some(op) => {
                match self.execute(op, now) {
                    Ok(()) => Ok(StepOutcome::Executed),
                    Err(e) => Err(e),
                }
            },
        }
    }
}


/// Key `k` is down now but was not held when the await-key state was
/// entered: only such an edge satisfies the wait.
pub open spec fn newly_pressed(pre: VM, k: int) -> bool {
    &&& pre.keys@[k]
    &&& !pre.wait_held@[k]
}

/// The lowest newly pressed key at or above `k`, or 16 when there is none.
pub open spec fn first_new_key_from(pre: VM, k: int) -> int
    decreases 16 - k,
{
    if k >= 16 {
        16
    } else if newly_pressed(pre, k) {
        k
    } else {
        first_new_key_from(pre, k + 1)
    }
}

/// The lowest newly pressed key, or 16 when there is none.
pub open spec fn first_new_key(pre: VM) -> int {
    first_new_key_from(pre, 0)
}

/// What one call of `step` does: yield `Paced` and change nothing while the
/// pacing gate holds the next cycle back; poll the await-key state; report
/// `MemoryFault` on a fetch past the end of memory and `IllegalInstruction`
/// on an unknown word, both without touching the machine; and otherwise
/// execute the decoded instruction per `op_effect`.
pub open spec fn step_effect(pre: VM, post: VM, now: u64, r: Result<
    StepOutcome,
    EngineError,
>) -> bool {
    if !pace_due(pre.clock, pre.cycles, pre.speed, now) {
        r == Ok::<StepOutcome, EngineError>(StepOutcome::Paced) && vm_eq(pre, post)
    } else if pre.waiting {
        if first_new_key(pre) < 16 {
            r == Ok::<StepOutcome, EngineError>(StepOutcome::Executed) && same_frame(pre, post)
                && post.cycles == pre.cycles && same_mem(pre, post) && same_disp(pre, post)
                && same_stack(pre, post) && same_i(pre, post) && same_r(pre, post) && same_t(
                pre,
                post,
            ) && same_rng(pre, post) && post.regs.v@ == pre.regs.v@.update(
                pre.wait_vx as int,
                first_new_key(pre) as u8,
            ) && !post.waiting && post.wait_vx == pre.wait_vx && post.wait_held@ == pre.wait_held@
                && post.pc == pre.pc + 2
        } else {
            r == Ok::<StepOutcome, EngineError>(StepOutcome::AwaitingKey) && vm_eq(pre, post)
        }
    } else if pre.pc >= 0xFFF {
        r == Err::<StepOutcome, EngineError>(EngineError::MemoryFault) && vm_eq(pre, post)
    } else {
        match spec_decode(fetch_word(pre.memory@, pre.pc as int)) {
            Option::None => r == Err::<StepOutcome, EngineError>(EngineError::IllegalInstruction)
                && vm_eq(pre, post),
            Option::Some(op) => {
                ||| (r == Ok::<StepOutcome, EngineError>(StepOutcome::Executed) && op_effect(
                    pre,
                    post,
                    op,
                    now,
                    Ok(()),
                ))
                ||| (r matches Err(e) && op_effect(pre, post, op, now, Err(e)))
            },
        }
    }
}


/// The configuration law: one step, whatever it did, never changes the
/// loaded ROM image, its size, the clock stamp, or the configured speed —
/// so a later `reset` restores exactly the state loading produced, whatever
/// ran in between.
#[verifier::rlimit(50)]
pub proof fn lemma_step_preserves_config(
    pre: VM,
    post: VM,
    now: u64,
    r: Result<StepOutcome, EngineError>,
)
    requires
        step_effect(pre, post, now, r),
    ensures
        post.rom@ == pre.rom@,
        post.rom_size == pre.rom_size,
        post.speed == pre.speed,
        post.clock == pre.clock,
{
}

/// The pacing law at the step level: a step only ever executes an
/// instruction when the pacing gate permits cycle `cycles + 1`, and the
/// cycle counter grows by at most one per step.
#[verifier::rlimit(50)]
pub proof fn lemma_step_paces(
    pre: VM,
    post: VM,
    now: u64,
    r: Result<StepOutcome, EngineError>,
)
    requires
        step_effect(pre, post, now, r),
    ensures
        post.cycles != pre.cycles ==> pace_due(pre.clock, pre.cycles, pre.speed, now),
        pre.cycles <= post.cycles <= sat_inc(pre.cycles),
{
}

} // verus!
