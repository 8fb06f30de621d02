//! What each instruction, and each cycle, does to the machine model.

use vstd::prelude::*;
use crate::error::Chip8Error;
use crate::instruction::{decode_spec, Instruction};
use crate::state::{
    mem_addr, pc_plus, MachineState, DISPLAY_HEIGHT, DISPLAY_SIZE, DISPLAY_WIDTH, FONT_START,
    KEYPAD_SIZE, MEM_SIZE, NUM_REGISTERS, SPRITE_SIZE, STACK_SIZE, START_ADDR, TICK_PERIOD,
};

verus! {

/// The built-in glyphs of the hex digits 0 to F, five rows each.
pub open spec fn font_glyphs() -> Seq<u8> {
    seq![
        0xf0u8, 0x90, 0x90, 0x90, 0xf0,
        0x20, 0x60, 0x20, 0x20, 0x70,
        0xf0, 0x10, 0xf0, 0x80, 0xf0,
        0xf0, 0x10, 0xf0, 0x10, 0xf0,
        0x90, 0x90, 0xf0, 0x10, 0x10,
        0xf0, 0x80, 0xf0, 0x10, 0xf0,
        0xf0, 0x80, 0xf0, 0x90, 0xf0,
        0xf0, 0x10, 0x20, 0x40, 0x40,
        0xf0, 0x90, 0xf0, 0x90, 0xf0,
        0xf0, 0x90, 0xf0, 0x10, 0xf0,
        0xf0, 0x90, 0xf0, 0x90, 0x90,
        0xe0, 0x90, 0xe0, 0x90, 0xe0,
        0xf0, 0x80, 0x80, 0x80, 0xf0,
        0xe0, 0x90, 0x90, 0x90, 0xe0,
        0xf0, 0x80, 0xf0, 0x80, 0xf0,
        0xf0, 0x80, 0xf0, 0x80, 0x80,
    ]
}

/// The machine as constructed: memory zero but for the font, every register,
/// timer and stack slot zero, the program counter at the program base.
pub open spec fn initial_state() -> MachineState {
    MachineState {
        memory: Seq::new(
            MEM_SIZE as nat,
            |a: int|
                if FONT_START <= a < FONT_START + 80 {
                    font_glyphs()[a - FONT_START]
                } else {
                    0u8
                },
        ),
        display: Seq::new(DISPLAY_SIZE as nat, |p: int| 0u8),
        v: Seq::new(NUM_REGISTERS as nat, |j: int| 0u8),
        stack: Seq::new(STACK_SIZE as nat, |j: int| 0u16),
        keypad: Seq::new(KEYPAD_SIZE as nat, |k: int| false),
        pc: START_ADDR,
        i: 0,
        sp: 0,
        delay_timer: 0,
        sound_timer: 0,
        draw_flag: false,
        tick_countdown: TICK_PERIOD,
    }
}

/// Memory after copying `rom` into program space.
pub open spec fn rom_loaded(memory: Seq<u8>, rom: Seq<u8>) -> Seq<u8> {
    Seq::new(
        memory.len(),
        |a: int|
            if START_ADDR <= a < START_ADDR + rom.len() {
                rom[a - START_ADDR]
            } else {
                memory[a]
            },
    )
}

/// Bit `col` of a sprite row, counted from the most significant bit.
pub open spec fn sprite_bit(row: u8, col: int) -> bool {
    (row >> ((7 - col) as u8)) & 1u8 == 1u8
}

/// Whether a sprite of `n` rows read from `memory` at `i`, drawn with its top
/// left corner at (`x`, `y`), covers display cell `p`. Cells past the right or
/// bottom edge are clipped: they have no index in the grid.
pub open spec fn covers(memory: Seq<u8>, i: u16, x: int, y: int, n: int, p: int) -> bool {
    let px = p % (DISPLAY_WIDTH as int);
    let py = p / (DISPLAY_WIDTH as int);
    &&& x <= px < x + 8
    &&& y <= py < y + n
    &&& sprite_bit(memory[mem_addr(i + py - y)], px - x)
}

/// The grid after drawing: every covered cell toggled, the rest kept.
pub open spec fn drawn_display(
    display: Seq<u8>,
    memory: Seq<u8>,
    i: u16,
    x: int,
    y: int,
    n: int,
) -> Seq<u8> {
    Seq::new(
        display.len(),
        |p: int|
            if covers(memory, i, x, y, n, p) {
                display[p] ^ 1u8
            } else {
                display[p]
            },
    )
}

/// Whether drawing toggles a cell that was lit.
pub open spec fn draw_collides(
    display: Seq<u8>,
    memory: Seq<u8>,
    i: u16,
    x: int,
    y: int,
    n: int,
) -> bool {
    exists|p: int|
        0 <= p < display.len() && #[trigger] covers(memory, i, x, y, n, p) && display[p] == 1u8
}

/// The lowest key at or above `k` that is down, or `KEYPAD_SIZE` if none is.
pub open spec fn first_key_down(keypad: Seq<bool>, k: int) -> int
    decreases KEYPAD_SIZE - k,
{
    if k >= KEYPAD_SIZE {
        KEYPAD_SIZE as int
    } else if keypad[k] {
        k
    } else {
        first_key_down(keypad, k + 1)
    }
}

/// Memory after storing `vals[0..=x]` at `i`, `i + 1`, ... (wrapping).
pub open spec fn stored_registers(memory: Seq<u8>, i: u16, vals: Seq<u8>, x: int) -> Seq<u8> {
    Seq::new(
        memory.len(),
        |a: int|
            {
                let j = (a - i) % (MEM_SIZE as int);
                if j <= x {
                    vals[j]
                } else {
                    memory[a]
                }
            },
    )
}

/// Registers after loading `v[0..=x]` from memory at `i`, `i + 1`, ...
pub open spec fn loaded_registers(memory: Seq<u8>, i: u16, vals: Seq<u8>, x: int) -> Seq<u8> {
    Seq::new(
        vals.len(),
        |j: int|
            if j <= x {
                memory[mem_addr(i + j)]
            } else {
                vals[j]
            },
    )
}

/// What executing `inst` does to a machine whose program counter already
/// points past it. `random` is the byte the random source yields.
pub open spec fn exec_spec(s: MachineState, inst: Instruction, random: u8) -> Result<
    MachineState,
    Chip8Error,
> {
    match inst {
        Instruction::ClearDisplay => Ok(
            MachineState {
                display: Seq::new(DISPLAY_SIZE as nat, |p: int| 0u8),
                draw_flag: true,
                ..s
            },
        ),
        Instruction::Return => if s.sp == 0 {
            Err(Chip8Error::StackUnderflow)
        } else {
            let top = s.sp - 1;
            Ok(MachineState { pc: s.stack[top], sp: top as u8, stack: s.stack.update(top, 0u16), ..s })
        },
        Instruction::Jump(addr) => Ok(s.set_pc(addr)),
        Instruction::Call(addr) => if s.sp >= STACK_SIZE {
            Err(Chip8Error::StackOverflow)
        } else {
            Ok(
                MachineState {
                    pc: addr,
                    sp: (s.sp + 1) as u8,
                    stack: s.stack.update(s.sp as int, s.pc),
                    ..s
                },
            )
        },
        Instruction::SkipIfRegEqImm(x, nn) => Ok(s.skip_if(s.v[x as int] == nn)),
        Instruction::SkipIfRegNeqImm(x, nn) => Ok(s.skip_if(s.v[x as int] != nn)),
        Instruction::SkipIfRegEqReg(x, y) => Ok(s.skip_if(s.v[x as int] == s.v[y as int])),
        Instruction::SetRegToImm(x, nn) => Ok(s.set_reg(x as int, nn)),
        Instruction::AddImmToReg(x, nn) => Ok(
            s.set_reg(x as int, ((s.v[x as int] + nn) % 256) as u8),
        ),
        Instruction::SetRegToReg(x, y) => Ok(s.set_reg(x as int, s.v[y as int])),
        Instruction::BitwiseOr(x, y) => Ok(s.set_reg(x as int, s.v[x as int] | s.v[y as int])),
        Instruction::BitwiseAnd(x, y) => Ok(s.set_reg(x as int, s.v[x as int] & s.v[y as int])),
        Instruction::BitwiseXor(x, y) => Ok(s.set_reg(x as int, s.v[x as int] ^ s.v[y as int])),
        Instruction::AddRegToReg(x, y) => {
            let sum = s.v[x as int] + s.v[y as int];
            Ok(s.set_reg(x as int, (sum % 256) as u8).set_flag(sum > 255))
        },
        Instruction::SubRegFromReg(x, y) => {
            let (a, b) = (s.v[x as int], s.v[y as int]);
            Ok(s.set_reg(x as int, ((a - b + 256) % 256) as u8).set_flag(a >= b))
        },
        Instruction::RightShift(x) => {
            let a = s.v[x as int];
            Ok(s.set_reg(x as int, a / 2).set_reg(15, a % 2))
        },
        Instruction::RsbRegFromReg(x, y) => {
            let (a, b) = (s.v[x as int], s.v[y as int]);
            Ok(s.set_reg(x as int, ((b - a + 256) % 256) as u8).set_flag(b >= a))
        },
        Instruction::LeftShift(x) => {
            let a = s.v[x as int];
            Ok(s.set_reg(x as int, ((a * 2) % 256) as u8).set_reg(15, a / 128))
        },
        Instruction::SkipIfRegNeqReg(x, y) => Ok(s.skip_if(s.v[x as int] != s.v[y as int])),
        Instruction::SetIToAddr(addr) => Ok(s.set_i(addr)),
        Instruction::JumpWithOffset(addr) => Ok(s.set_pc(pc_plus(addr, s.v[0] as int))),
        Instruction::SetRegToRand(x, nn) => Ok(s.set_reg(x as int, random & nn)),
        Instruction::Draw(x, y, n) => {
            let px = s.v[x as int] % (DISPLAY_WIDTH as u8);
            let py = s.v[y as int] % (DISPLAY_HEIGHT as u8);
            let collided = draw_collides(s.display, s.memory, s.i, px as int, py as int, n as int);
            Ok(
                MachineState {
                    display: drawn_display(s.display, s.memory, s.i, px as int, py as int, n as int),
                    draw_flag: true,
                    ..s.set_flag(collided)
                },
            )
        },
        Instruction::SkipIfKeyPressed(x) => Ok(s.skip_if(s.key_is_down(s.v[x as int] as int))),
        Instruction::SkipIfKeyNotPressed(x) => Ok(
            s.skip_if(!s.key_is_down(s.v[x as int] as int)),
        ),
        Instruction::GetDelayTimer(x) => Ok(s.set_reg(x as int, s.delay_timer)),
        Instruction::GetKey(x) => {
            let k = first_key_down(s.keypad, 0);
            if k < KEYPAD_SIZE {
                Ok(s.set_reg(x as int, k as u8))
            } else {
                Ok(s.set_pc(pc_plus(s.pc, MEM_SIZE - 2)))
            }
        },
        Instruction::SetDelayTimer(x) => Ok(MachineState { delay_timer: s.v[x as int], ..s }),
        Instruction::SetSoundTimer(x) => Ok(MachineState { sound_timer: s.v[x as int], ..s }),
        Instruction::AddRegToI(x) => Ok(s.set_i(((s.i + s.v[x as int]) % 0x10000) as u16)),
        Instruction::SetIToFont(x) => Ok(s.set_i((FONT_START + s.v[x as int] * SPRITE_SIZE) as u16)),
        Instruction::SetBcd(x) => {
            let a = s.v[x as int];
            Ok(
                MachineState {
                    memory: s.memory.update(mem_addr(s.i as int), a / 100).update(
                        mem_addr(s.i + 1),
                        (a / 10) % 10,
                    ).update(mem_addr(s.i + 2), a % 10),
                    ..s
                },
            )
        },
        Instruction::RegDump(x) => Ok(
            MachineState { memory: stored_registers(s.memory, s.i, s.v, x as int), ..s },
        ),
        Instruction::RegLoad(x) => Ok(
            MachineState { v: loaded_registers(s.memory, s.i, s.v, x as int), ..s },
        ),
    }
}

/// Whether the operands of `inst` are in range: registers and nibbles below
/// 16, addresses below 4096. Every decoded instruction is.
pub open spec fn inst_wf(inst: Instruction) -> bool {
    match inst {
        Instruction::ClearDisplay | Instruction::Return => true,
        Instruction::Jump(a) | Instruction::Call(a) | Instruction::SetIToAddr(a)
        | Instruction::JumpWithOffset(a) => a < MEM_SIZE,
        Instruction::SkipIfRegEqImm(x, _) | Instruction::SkipIfRegNeqImm(x, _)
        | Instruction::SetRegToImm(x, _) | Instruction::AddImmToReg(x, _)
        | Instruction::SetRegToRand(x, _) => x < 16,
        Instruction::SkipIfRegEqReg(x, y) | Instruction::SetRegToReg(x, y)
        | Instruction::BitwiseOr(x, y) | Instruction::BitwiseAnd(x, y)
        | Instruction::BitwiseXor(x, y) | Instruction::AddRegToReg(x, y)
        | Instruction::SubRegFromReg(x, y) | Instruction::RsbRegFromReg(x, y)
        | Instruction::SkipIfRegNeqReg(x, y) => x < 16 && y < 16,
        Instruction::Draw(x, y, n) => x < 16 && y < 16 && n < 16,
        Instruction::RightShift(x) | Instruction::LeftShift(x) | Instruction::SkipIfKeyPressed(x)
        | Instruction::SkipIfKeyNotPressed(x) | Instruction::GetDelayTimer(x)
        | Instruction::GetKey(x) | Instruction::SetDelayTimer(x) | Instruction::SetSoundTimer(x)
        | Instruction::AddRegToI(x) | Instruction::SetIToFont(x) | Instruction::SetBcd(x)
        | Instruction::RegDump(x) | Instruction::RegLoad(x) => x < 16,
    }
}

/// Whether a handler that turned `before` into `after` and returned `r`
/// did what `exec_spec` says: the new state on success, or the error with
/// the machine untouched.
pub open spec fn executes(
    before: MachineState,
    inst: Instruction,
    random: u8,
    after: MachineState,
    r: Result<(), Chip8Error>,
) -> bool {
    match exec_spec(before, inst, random) {
        Ok(s) => r == Ok::<(), Chip8Error>(()) && after == s,
        Err(e) => r == Err::<(), Chip8Error>(e) && after == before,
    }
}

/// Decoded instructions have their operands in range.
pub proof fn lemma_decoded_wf(op: u16)
    ensures
        decode_spec(op) matches Some(inst) ==> inst_wf(inst),
{
}

/// Executing a well-formed instruction keeps the machine well formed.
pub proof fn lemma_exec_wf(s: MachineState, inst: Instruction, random: u8)
    requires
        s.wf(),
        inst_wf(inst),
    ensures
        exec_spec(s, inst, random) matches Ok(t) ==> t.wf(),
{
}

/// Timer bookkeeping at the start of a cycle: the frame-changed flag is
/// cleared and the countdown advanced; when it runs out both timers count
/// down by one (stopping at zero) and it starts over.
pub open spec fn tick_spec(s: MachineState) -> MachineState {
    if s.tick_countdown <= 1 {
        MachineState {
            draw_flag: false,
            tick_countdown: TICK_PERIOD,
            delay_timer: if s.delay_timer > 0 { (s.delay_timer - 1) as u8 } else { 0 },
            sound_timer: if s.sound_timer > 0 { (s.sound_timer - 1) as u8 } else { 0 },
            ..s
        }
    } else {
        MachineState { draw_flag: false, tick_countdown: (s.tick_countdown - 1) as u64, ..s }
    }
}

/// The big-endian instruction word at the program counter.
pub open spec fn fetch_spec(s: MachineState) -> u16 {
    (s.memory[s.pc as int] * 256 + s.memory[mem_addr(s.pc + 1)]) as u16
}

/// One full cycle: tick, fetch, advance the program counter, decode and
/// execute. On an error the machine stays as it was after the fetch.
pub open spec fn cycle_spec(s: MachineState, random: u8) -> (MachineState, Result<(), Chip8Error>) {
    let t = tick_spec(s);
    let op = fetch_spec(t);
    let f = t.set_pc(pc_plus(t.pc, 2));
    match decode_spec(op) {
        None => (f, Err(Chip8Error::UnknownInstruction(op))),
        Some(inst) => match exec_spec(f, inst, random) {
            Ok(n) => (n, Ok(())),
            Err(e) => (f, Err(e)),
        },
    }
}

} // verus!
