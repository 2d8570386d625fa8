use vstd::prelude::*;

use vstd::arithmetic::div_mod::lemma_fundamental_div_mod;
use vstd::arithmetic::div_mod::lemma_fundamental_div_mod_converse;
use vstd::arithmetic::mul::lemma_mul_inequality;

verus! {

/// Nanoseconds per tick of the 60 Hz delay/sound timers.
pub const TICK_NS: u64 = 1_000_000_000 / 60;

/// Nanoseconds per second, the unit of the pacing computation.
pub const SECOND_NS: u64 = 1_000_000_000;

/// The visible countdown value of a deadline-style timer at instant `now`:
/// `ceil((deadline - now) / TICK_NS)` while the timer is running, and 0 once
/// it has expired.
pub open spec fn countdown_spec(deadline: u64, now: u64) -> int {
    if now >= deadline {
        0
    } else {
        (deadline - now + (TICK_NS - 1)) / (TICK_NS as int)
    }
}

/// Reads a deadline-style timer: the derived countdown value, clamped to the
/// largest value an 8-bit register can hold.
pub fn countdown(deadline: u64, now: u64) -> (r: u8)
    ensures
        countdown_spec(deadline, now) <= 255 ==> r == countdown_spec(deadline, now),
        countdown_spec(deadline, now) > 255 ==> r == 255,
{
    if now >= deadline {
        0
    } else {
        let remaining: u64 = deadline - now;
        proof {
            let r_int = remaining as int;
            let t_int = TICK_NS as int;
            let q = (r_int - 1) / t_int;
            let m = (r_int - 1) % t_int;
            lemma_fundamental_div_mod(r_int - 1, t_int);
            lemma_div_nonneg(r_int - 1, t_int);
            vstd::arithmetic::div_mod::lemma_div_nonincreasing(r_int - 1, t_int);
            lemma_fundamental_div_mod_converse(r_int + t_int - 1, t_int, q + 1, m);
        }
        // ceil(remaining / TICK_NS) without overflowing the addition
        let t: u64 = (remaining - 1) / TICK_NS + 1;
        if t > 255 {
            255
        } else {
            t as u8
        }
    }
}

/// The deadline a timer register is set to when written with `value`:
/// `now + value * TICK_NS`, saturating at the top of the 64-bit range.
pub fn timer_deadline(now: u64, value: u8) -> (d: u64)
    ensures
        now + value * TICK_NS <= u64::MAX ==> d == now + value * TICK_NS,
        now + value * TICK_NS > u64::MAX ==> d == u64::MAX,
{
    let amount: u64 = (value as u64) * TICK_NS;
    if now > u64::MAX - amount {
        u64::MAX
    } else {
        now + amount
    }
}

/// The pacing gate: cycle number `cycles + 1` is permitted once the
/// wall-clock time elapsed since `clock` reaches the target
/// `cycles * SECOND_NS / speed`.
pub open spec fn pace_due(clock: u64, cycles: u64, speed: u64, now: u64) -> bool
    recommends
        speed >= 1,
{
    now >= clock + cycles * SECOND_NS / (speed as int)
}

/// Decides the pacing gate, computing the target in 128-bit arithmetic so
/// that no cycle count can overflow it.
pub fn is_due(clock: u64, cycles: u64, speed: u64, now: u64) -> (r: bool)
    requires
        speed >= 1,
    ensures
        r == pace_due(clock, cycles, speed, now),
{
    proof {
        lemma_mul_inequality(cycles as int, u64::MAX as int, SECOND_NS as int);
    }
    if now < clock {
        proof {
            lemma_div_nonneg(cycles * SECOND_NS, speed as int);
        }
        false
    } else {
        let elapsed: u128 = (now - clock) as u128;
        let target: u128 = (cycles as u128) * (SECOND_NS as u128) / (speed as u128);
        elapsed >= target
    }
}

/// Division of a non-negative value by a positive one is non-negative.
proof fn lemma_div_nonneg(x: int, d: int)
    requires
        x >= 0,
        d >= 1,
    ensures
        x / d >= 0,
{
    lemma_fundamental_div_mod(x, d);
    if x / d < 0 {
        lemma_mul_inequality(x / d, -1, d);
    }
}

/// The pacing law: whenever another cycle is permitted, the count of
/// cycles executed so far is bounded by the elapsed wall-clock time times the
/// configured speed — so continuous stepping can never run ahead of the
/// configured instruction rate by more than the rounding of one division.
pub proof fn lemma_pace_bounds_cycles(clock: u64, cycles: u64, speed: u64, now: u64)
    requires
        speed >= 1,
        pace_due(clock, cycles, speed, now),
    ensures
        now >= clock,
        cycles * SECOND_NS <= (now - clock) * speed + (speed - 1),
{
    let product = cycles * SECOND_NS as int;
    let q = product / (speed as int);
    lemma_fundamental_div_mod(product, speed as int);
    lemma_div_nonneg(product, speed as int);
    assert(q <= now - clock);
    lemma_mul_inequality(q, now - clock, speed as int);
}

/// The pacing law at the default rate: a cycle permitted exactly
/// one second after the clock was stamped is at most cycle 700, so with
/// `speed == 700` the cycle count after that second stabilizes at 700,
/// give or take the one cycle permitted at the boundary instant.
pub proof fn lemma_pace_seven_hundred(clock: u64, cycles: u64)
    requires
        clock + SECOND_NS <= u64::MAX,
        pace_due(clock, cycles, 700, (clock + SECOND_NS) as u64),
    ensures
        cycles <= 700,
{
    lemma_pace_bounds_cycles(clock, cycles, 700, (clock + SECOND_NS) as u64);
}

/// The timer law: a timer set to `value` ticks reads back as
/// `value - elapsed` after `elapsed` whole ticks, and as 0 once `value`
/// or more ticks have passed.
pub proof fn lemma_countdown_ticks(start: u64, value: u8, elapsed: u8)
    requires
        start + 255 * TICK_NS <= u64::MAX,
    ensures
        elapsed < value ==> countdown_spec(
            (start + value * TICK_NS) as u64,
            (start + elapsed * TICK_NS) as u64,
        ) == value - elapsed,
        elapsed >= value ==> countdown_spec(
            (start + value * TICK_NS) as u64,
            (start + elapsed * TICK_NS) as u64,
        ) == 0,
{
    lemma_mul_inequality(elapsed as int, 255, TICK_NS as int);
    lemma_mul_inequality(value as int, 255, TICK_NS as int);
    if elapsed >= value {
        lemma_mul_inequality(value as int, elapsed as int, TICK_NS as int);
    }
    if elapsed < value {
        lemma_mul_inequality(elapsed as int, value as int, TICK_NS as int);
        let deadline = (start + value * TICK_NS) as u64;
        let now = (start + elapsed * TICK_NS) as u64;
        let k = value - elapsed as int;
        vstd::arithmetic::mul::lemma_mul_is_distributive_sub_other_way(
            TICK_NS as int,
            value as int,
            elapsed as int,
        );
        assert(deadline - now == k * TICK_NS);
        lemma_fundamental_div_mod_converse(
            k * TICK_NS + (TICK_NS - 1),
            TICK_NS as int,
            k,
            TICK_NS - 1,
        );
    }
}

} // verus!
