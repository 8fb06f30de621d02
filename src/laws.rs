//! Laws of the machine, stated over the model and proved.

use vstd::prelude::*;
use crate::error::Chip8Error;
use crate::instruction::{decode_spec, Instruction};
use crate::semantics::{covers, cycle_spec, draw_collides, exec_spec, fetch_spec, first_key_down, tick_spec};
use crate::state::{
    pc_plus, MachineState, CYCLES_PER_SECOND, STACK_SIZE, DISPLAY_SIZE, KEYPAD_SIZE, TICK_PERIOD, TIMER_FREQ,
};

verus! {

/// Adding register `y` to register `x` sets VF to 1 exactly when the sum
/// exceeds 255, and leaves the sum modulo 256 in `x` (when `x` is not VF
/// itself). Subtracting `y` from `x` sets VF to 1 exactly when `x >= y`, and
/// leaves the difference modulo 256 in `x`.
pub proof fn law_add_sub_flags(s: MachineState, x: u8, y: u8, random: u8)
    requires
        s.wf(),
        x < 16,
        y < 16,
    ensures
        ({
            let (a, b) = (s.v[x as int], s.v[y as int]);
            &&& exec_spec(s, Instruction::AddRegToReg(x, y), random) matches Ok(t)
                && t.v[15] == (if a + b > 255 { 1u8 } else { 0u8 })
                && (x != 15 ==> t.v[x as int] == (a + b) % 256)
            &&& exec_spec(s, Instruction::SubRegFromReg(x, y), random) matches Ok(t)
                && t.v[15] == (if a >= b { 1u8 } else { 0u8 })
                && (x != 15 ==> t.v[x as int] == (a - b + 256) % 256)
        }),
{
}

/// Shifting right puts the low bit of the old value in VF; shifting left
/// puts its high bit there. The shifted value lands in `x` (when `x` is not
/// VF itself).
pub proof fn law_shift_flags(s: MachineState, x: u8, random: u8)
    requires
        s.wf(),
        x < 16,
    ensures
        ({
            let a = s.v[x as int];
            &&& exec_spec(s, Instruction::RightShift(x), random) matches Ok(t)
                && t.v[15] == a % 2
                && (x != 15 ==> t.v[x as int] == a / 2)
            &&& exec_spec(s, Instruction::LeftShift(x), random) matches Ok(t)
                && t.v[15] == a / 128
                && (x != 15 ==> t.v[x as int] == (a * 2) % 256)
        }),
{
}

/// Drawing the same sprite at the same place twice in a row restores the
/// grid exactly, and the second draw reports a collision exactly when the
/// first lit some cell. (The coordinates must not be read from VF, which the
/// first draw overwrites.)
pub proof fn law_draw_twice(s: MachineState, x: u8, y: u8, n: u8, random: u8)
    requires
        s.wf(),
        x < 15,
        y < 15,
        n < 16,
    ensures
        ({
            let inst = Instruction::Draw(x, y, n);
            exec_spec(s, inst, random) matches Ok(t1) && exec_spec(t1, inst, random) matches Ok(t2)
                && t2.display == s.display
                && (t2.v[15] == 1u8 <==> exists|p: int|
                    0 <= p < DISPLAY_SIZE && t1.display[p] != s.display[p] && #[trigger] t1.display[p] == 1u8)
        }),
{
    let inst = Instruction::Draw(x, y, n);
    let t1 = exec_spec(s, inst, random)->Ok_0;
    let t2 = exec_spec(t1, inst, random)->Ok_0;
    let px = (s.v[x as int] % 64) as int;
    let py = (s.v[y as int] % 32) as int;
    assert(t1.v[x as int] == s.v[x as int] && t1.v[y as int] == s.v[y as int]);
    assert forall|p: int| 0 <= p < DISPLAY_SIZE implies #[trigger] t2.display[p] == s.display[p] by {
        let d = s.display[p];
        assert((d ^ 1u8) ^ 1u8 == d) by (bit_vector);
    }
    assert(t2.display =~= s.display);
    if t2.v[15] == 1u8 {
        let w = choose|p: int|
            0 <= p < t1.display.len() && #[trigger] covers(s.memory, s.i, px, py, n as int, p)
                && t1.display[p] == 1u8;
        let d = s.display[w];
        assert(d ^ 1u8 != d) by (bit_vector);
        assert(t1.display[w] != s.display[w]);
    }
    if exists|p: int|
        0 <= p < DISPLAY_SIZE && t1.display[p] != s.display[p] && #[trigger] t1.display[p] == 1u8 {
        let w = choose|p: int|
            0 <= p < DISPLAY_SIZE && t1.display[p] != s.display[p] && #[trigger] t1.display[p] == 1u8;
        assert(covers(s.memory, s.i, px, py, n as int, w));
        assert(draw_collides(t1.display, s.memory, s.i, px, py, n as int));
    }
}

/// `first_key_down` finds the lowest key at or above `k` that is down, or
/// reports that none is.
proof fn lemma_first_key_down_props(keypad: Seq<bool>, k: int)
    requires
        keypad.len() == KEYPAD_SIZE,
        0 <= k <= KEYPAD_SIZE,
    ensures
        ({
            let m = first_key_down(keypad, k);
            &&& k <= m <= KEYPAD_SIZE
            &&& m < KEYPAD_SIZE ==> keypad[m]
            &&& forall|j: int| k <= j < m ==> !#[trigger] keypad[j]
        }),
    decreases KEYPAD_SIZE - k,
{
    if k < KEYPAD_SIZE && !keypad[k] {
        lemma_first_key_down_props(keypad, k + 1);
    }
}

/// A cycle that fetches the wait-for-key instruction leaves the program
/// counter on that instruction while no key is down; once a key is down it
/// moves one instruction on and puts the lowest key that is down in
/// register `x`.
pub proof fn law_wait_for_key(s: MachineState, x: u8, random: u8)
    requires
        s.wf(),
        decode_spec(fetch_spec(s)) == Some(Instruction::GetKey(x)),
    ensures
        ({
            let (t, r) = cycle_spec(s, random);
            &&& r is Ok
            &&& (forall|k: int| 0 <= k < KEYPAD_SIZE ==> !#[trigger] s.keypad[k]) ==> t.pc == s.pc
            &&& (exists|k: int| 0 <= k < KEYPAD_SIZE && #[trigger] s.keypad[k]) ==> {
                &&& t.pc == pc_plus(s.pc, 2)
                &&& t.v[x as int] < KEYPAD_SIZE
                &&& s.keypad[t.v[x as int] as int]
                &&& forall|j: int| 0 <= j < t.v[x as int] ==> !#[trigger] s.keypad[j]
            }
        }),
{
    let t = tick_spec(s);
    assert(fetch_spec(t) == fetch_spec(s));
    lemma_first_key_down_props(s.keypad, 0);
}

/// The machine after one cycle per byte of `randoms`, each cycle drawing
/// that byte from the random source. A cycle that fails leaves the machine
/// as `cycle_spec` says, and the run goes on from there.
pub open spec fn run_cycles(s: MachineState, randoms: Seq<u8>) -> MachineState
    decreases randoms.len(),
{
    if randoms.len() == 0 {
        s
    } else {
        cycle_spec(run_cycles(s, randoms.drop_last()), randoms.last()).0
    }
}

/// Whether the instruction at the program counter writes a timer.
pub open spec fn fetches_timer_write(s: MachineState) -> bool {
    decode_spec(fetch_spec(s)) matches Some(inst) && (inst is SetDelayTimer || inst is SetSoundTimer)
}

/// `t` counted down `k` times, stopping at zero.
pub open spec fn counted_down(t: u8, k: int) -> u8 {
    if t >= k {
        (t - k) as u8
    } else {
        0
    }
}

/// How many times the timers have counted down after `cycles` cycles from a
/// countdown of `countdown`.
pub open spec fn timer_decrements(countdown: u64, cycles: int) -> int {
    (cycles + TICK_PERIOD - countdown) / (TICK_PERIOD as int)
}

/// A cycle whose instruction writes no timer leaves the timers and the
/// countdown as the tick left them.
proof fn lemma_cycle_timers(s: MachineState, random: u8)
    requires
        s.wf(),
        !fetches_timer_write(s),
    ensures
        ({
            let (t, r) = cycle_spec(s, random);
            let k = tick_spec(s);
            &&& t.wf()
            &&& t.delay_timer == k.delay_timer
            &&& t.sound_timer == k.sound_timer
            &&& t.tick_countdown == k.tick_countdown
        }),
{
    let k = tick_spec(s);
    assert(fetch_spec(k) == fetch_spec(s));
    crate::semantics::lemma_decoded_wf(fetch_spec(s));
    let f = k.set_pc(pc_plus(k.pc, 2));
    if let Some(inst) = decode_spec(fetch_spec(s)) {
        crate::semantics::lemma_exec_wf(f, inst, random);
    }
}

/// Over a run in which no cycle fetches a timer-writing instruction, the
/// delay and sound timers count down once per `TICK_PERIOD` cycles: after
/// `T` cycles from a fresh countdown, `T * TIMER_FREQ / CYCLES_PER_SECOND`
/// times, stopping at zero, whatever else the instructions did.
pub proof fn law_timer_cadence(s: MachineState, randoms: Seq<u8>)
    requires
        s.wf(),
        forall|j: int| 0 <= j < randoms.len() ==> !fetches_timer_write(#[trigger] run_cycles(s, randoms.take(j))),
    ensures
        ({
            let t = run_cycles(s, randoms);
            let d = timer_decrements(s.tick_countdown, randoms.len() as int);
            &&& t.wf()
            &&& t.delay_timer == counted_down(s.delay_timer, d)
            &&& t.sound_timer == counted_down(s.sound_timer, d)
            &&& s.tick_countdown == TICK_PERIOD ==> d == randoms.len() * TIMER_FREQ / (CYCLES_PER_SECOND as int)
        }),
    decreases randoms.len(),
{
    lemma_timer_run(s, randoms);
}

/// The strengthened form of the cadence law that the induction carries:
/// it also says where the countdown stands.
#[verifier::spinoff_prover]
#[verifier::rlimit(60)]
proof fn lemma_timer_run(s: MachineState, randoms: Seq<u8>)
    requires
        s.wf(),
        forall|j: int| 0 <= j < randoms.len() ==> !fetches_timer_write(#[trigger] run_cycles(s, randoms.take(j))),
    ensures
        ({
            let t = run_cycles(s, randoms);
            let e = randoms.len() + TICK_PERIOD - s.tick_countdown;
            let d = timer_decrements(s.tick_countdown, randoms.len() as int);
            &&& t.wf()
            &&& t.tick_countdown == TICK_PERIOD - e % (TICK_PERIOD as int)
            &&& t.delay_timer == counted_down(s.delay_timer, d)
            &&& t.sound_timer == counted_down(s.sound_timer, d)
        }),
    decreases randoms.len(),
{
    if randoms.len() > 0 {
        let prefix = randoms.drop_last();
        assert forall|j: int| 0 <= j < prefix.len() implies !fetches_timer_write(
            #[trigger] run_cycles(s, prefix.take(j)),
        ) by {
            assert(prefix.take(j) =~= randoms.take(j));
        }
        lemma_timer_run(s, prefix);
        let r = run_cycles(s, prefix);
        assert(randoms.take(prefix.len() as int) =~= prefix);
        lemma_cycle_timers(r, randoms.last());
    }
}

/// The outcome of executing `insts` in order, stopping at the first error.
#[verifier::opaque]
pub open spec fn run_insts(s: MachineState, insts: Seq<Instruction>, random: u8) -> Result<
    MachineState,
    Chip8Error,
>
    decreases insts.len(),
{
    if insts.len() == 0 {
        Ok(s)
    } else {
        match exec_spec(s, insts[0], random) {
            Ok(t) => run_insts(t, insts.drop_first(), random),
            Err(e) => Err(e),
        }
    }
}

/// A call to each address of `addrs`, in order.
pub open spec fn call_insts(addrs: Seq<u16>) -> Seq<Instruction> {
    addrs.map_values(|a: u16| Instruction::Call(a))
}

/// `k` returns.
pub open spec fn return_insts(k: nat) -> Seq<Instruction> {
    Seq::new(k, |j: int| Instruction::Return)
}

/// The stack with the `k` slots from `from` on zeroed, as returns leave them.
pub open spec fn cleared(stack: Seq<u16>, from: int, k: int) -> Seq<u16> {
    Seq::new(stack.len(), |j: int| if from <= j < from + k { 0u16 } else { stack[j] })
}

proof fn lemma_run_concat(s: MachineState, a: Seq<Instruction>, b: Seq<Instruction>, random: u8)
    ensures
        run_insts(s, a + b, random) == match run_insts(s, a, random) {
            Ok(t) => run_insts(t, b, random),
            Err(e) => Err(e),
        },
    decreases a.len(),
{
    reveal(run_insts);
    if a.len() > 0 {
        assert((a + b).drop_first() =~= a.drop_first() + b);
        if let Ok(t) = exec_spec(s, a[0], random) {
            lemma_run_concat(t, a.drop_first(), b, random);
        }
    }
}

proof fn lemma_run_one(s: MachineState, inst: Instruction, random: u8)
    ensures
        run_insts(s, seq![inst], random) == exec_spec(s, inst, random),
        run_insts(s, Seq::empty(), random) == Ok::<MachineState, Chip8Error>(s),
{
    reveal(run_insts);
    assert(seq![inst].drop_first() =~= Seq::<Instruction>::empty());
    reveal_with_fuel(run_insts, 2);
}

proof fn lemma_calls_returns(s: MachineState, addrs: Seq<u16>, random: u8)
    requires
        s.stack.len() == STACK_SIZE,
        s.sp + addrs.len() <= STACK_SIZE,
    ensures
        run_insts(s, call_insts(addrs) + return_insts(addrs.len()), random) == Ok::<MachineState, Chip8Error>(
            MachineState { stack: cleared(s.stack, s.sp as int, addrs.len() as int), ..s },
        ),
    decreases addrs.len(),
{
    let k = addrs.len();
    if k == 0 {
        lemma_run_one(s, Instruction::Return, random);
        assert(call_insts(addrs) + return_insts(0) =~= Seq::<Instruction>::empty());
        assert(cleared(s.stack, s.sp as int, 0) =~= s.stack);
    } else {
        let rest = addrs.drop_first();
        let inner = call_insts(rest) + return_insts(rest.len());
        let call = seq![Instruction::Call(addrs[0])];
        let ret = seq![Instruction::Return];
        assert(call_insts(addrs) + return_insts(k) =~= call + (inner + ret));
        lemma_run_concat(s, call, inner + ret, random);
        let s1 = exec_spec(s, Instruction::Call(addrs[0]), random)->Ok_0;
        lemma_run_one(s, Instruction::Call(addrs[0]), random);
        lemma_run_concat(s1, inner, ret, random);
        lemma_calls_returns(s1, rest, random);
        let s2 = MachineState { stack: cleared(s1.stack, s1.sp as int, rest.len() as int), ..s1 };
        lemma_run_one(s2, Instruction::Return, random);
        let s3 = exec_spec(s2, Instruction::Return, random)->Ok_0;
        assert(s3 =~= MachineState { stack: cleared(s.stack, s.sp as int, k as int), ..s });
    }
}

/// Any run of calls that stays within the stack's depth, followed by as many
/// returns, succeeds and leaves the program counter and the stack pointer as
/// they were before the calls; of the stack only the slots above the old
/// stack pointer change.
pub proof fn law_calls_then_returns(s: MachineState, addrs: Seq<u16>, random: u8)
    requires
        s.wf(),
        s.sp + addrs.len() <= STACK_SIZE,
    ensures
        run_insts(s, call_insts(addrs) + return_insts(addrs.len()), random) matches Ok(t) && t.pc == s.pc
            && t.sp == s.sp && forall|j: int| 0 <= j < s.sp ==> #[trigger] t.stack[j] == s.stack[j],
{
    lemma_calls_returns(s, addrs, random);
}

} // verus!
