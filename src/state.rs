//! The abstract machine: the mathematical model that every contract of the
//! interpreter is stated over.

use vstd::prelude::*;

verus! {

/// The cycle rate that timer decay is paced against.
pub const CYCLES_PER_SECOND: u64 = 600;
/// How often per second the delay and sound timers count down.
pub const TIMER_FREQ: u64 = 60;
/// Number of cycles between two timer decrements.
pub const TICK_PERIOD: u64 = CYCLES_PER_SECOND / TIMER_FREQ;

pub const DISPLAY_WIDTH: usize = 64;
pub const DISPLAY_HEIGHT: usize = 32;
pub const DISPLAY_SIZE: usize = 2048;
pub const MEM_SIZE: usize = 4096;
pub const NUM_REGISTERS: usize = 16;
pub const KEYPAD_SIZE: usize = 16;
pub const STACK_SIZE: usize = 16;
/// First address of the font glyphs.
pub const FONT_START: u16 = 0x50;
/// Bytes per font glyph.
pub const SPRITE_SIZE: u16 = 5;
/// Where a program is loaded and execution begins.
pub const START_ADDR: u16 = 0x200;
/// Largest program that fits between `START_ADDR` and the end of memory.
pub const MAX_ROM_SIZE: usize = 3584;

/// Everything an instruction can observe or change.
#[verifier::ext_equal]
pub ghost struct MachineState {
    pub memory: Seq<u8>,
    /// Row-major pixel grid; a pixel is lit when it holds 1.
    pub display: Seq<u8>,
    pub v: Seq<u8>,
    pub stack: Seq<u16>,
    pub keypad: Seq<bool>,
    pub pc: u16,
    pub i: u16,
    pub sp: u8,
    pub delay_timer: u8,
    pub sound_timer: u8,
    pub draw_flag: bool,
    /// Cycles left until the timers next count down.
    pub tick_countdown: u64,
}

/// An address as the machine sees it: every address wraps into memory.
pub open spec fn mem_addr(a: int) -> int {
    a % (MEM_SIZE as int)
}

/// The program counter after moving `delta` bytes forward (modulo memory).
pub open spec fn pc_plus(pc: u16, delta: int) -> u16 {
    ((pc + delta) % (MEM_SIZE as int)) as u16
}

impl MachineState {
    pub open spec fn wf(self) -> bool {
        &&& self.memory.len() == MEM_SIZE
        &&& self.display.len() == DISPLAY_SIZE
        &&& self.v.len() == NUM_REGISTERS
        &&& self.stack.len() == STACK_SIZE
        &&& self.keypad.len() == KEYPAD_SIZE
        &&& self.pc < MEM_SIZE
        &&& self.sp <= STACK_SIZE
        &&& forall|j: int| 0 <= j < STACK_SIZE ==> #[trigger] self.stack[j] < MEM_SIZE
        &&& 1 <= self.tick_countdown <= TICK_PERIOD
    }

    pub open spec fn set_reg(self, x: int, val: u8) -> MachineState {
        MachineState { v: self.v.update(x, val), ..self }
    }

    /// Writes the flag register VF.
    pub open spec fn set_flag(self, f: bool) -> MachineState {
        self.set_reg(15, if f { 1u8 } else { 0u8 })
    }

    pub open spec fn set_pc(self, pc: u16) -> MachineState {
        MachineState { pc, ..self }
    }

    /// Skips the next instruction when `cond` holds.
    pub open spec fn skip_if(self, cond: bool) -> MachineState {
        if cond {
            self.set_pc(pc_plus(self.pc, 2))
        } else {
            self
        }
    }

    pub open spec fn set_i(self, i: u16) -> MachineState {
        MachineState { i, ..self }
    }

    /// Whether the key numbered `k` exists and is held down.
    pub open spec fn key_is_down(self, k: int) -> bool {
        0 <= k < KEYPAD_SIZE && self.keypad[k]
    }
}

} // verus!
