//! The interpreter: machine state, program loading, keypad input and the
//! cycle driver. The instruction handlers live in `handlers`.

use vstd::prelude::*;
use crate::error::Chip8Error;
use crate::instruction::decode;
use crate::rng::random_byte;
use crate::semantics::{cycle_spec, fetch_spec, font_glyphs, initial_state, rom_loaded, tick_spec};
use crate::state::{
    pc_plus, MachineState, DISPLAY_SIZE, FONT_START, KEYPAD_SIZE, MAX_ROM_SIZE, MEM_SIZE,
    NUM_REGISTERS, STACK_SIZE, START_ADDR, TICK_PERIOD,
};

mod handlers;

verus! {

/// A CHIP-8 machine: memory, registers, call stack, timers, keypad and
/// display, advanced one instruction per cycle.
#[derive(Debug)]
pub struct Chip8 {
    memory: Vec<u8>,
    display: Vec<u8>,
    pc: u16,
    i: u16,
    stack: Vec<u16>,
    sp: u8,
    delay_timer: u8,
    sound_timer: u8,
    v: Vec<u8>,
    draw_flag: bool,
    keypad: Vec<bool>,
    tick_countdown: u64,
}

impl View for Chip8 {
    type V = MachineState;

    closed spec fn view(&self) -> MachineState {
        MachineState {
            memory: self.memory@,
            display: self.display@,
            v: self.v@,
            stack: self.stack@,
            keypad: self.keypad@,
            pc: self.pc,
            i: self.i,
            sp: self.sp,
            delay_timer: self.delay_timer,
            sound_timer: self.sound_timer,
            draw_flag: self.draw_flag,
            tick_countdown: self.tick_countdown,
        }
    }
}

/// The font glyphs as bytes.
fn font_bytes() -> (r: Vec<u8>)
    ensures
        r@ == font_glyphs(),
{
    let r: Vec<u8> = vec![
        0xf0, 0x90, 0x90, 0x90, 0xf0,
        0x20, 0x60, 0x20, 0x20, 0x70,
        0xf0, 0x10, 0xf0, 0x80, 0xf0,
        0xf0, 0x10, 0xf0, 0x10, 0xf0,
        0x90, 0x90, 0xf0, 0x10, 0x10,
        0xf0, 0x80, 0xf0, 0x10, 0xf0,
        0xf0, 0x80, 0xf0, 0x90, 0xf0,
        0xf0, 0x10, 0x20, 0x40, 0x40,
        0xf0, 0x90, 0xf0, 0x90, 0xf0,
        0xf0, 0x90, 0xf0, 0x10, 0xf0,
        0xf0, 0x90, 0xf0, 0x90, 0x90,
        0xe0, 0x90, 0xe0, 0x90, 0xe0,
        0xf0, 0x80, 0x80, 0x80, 0xf0,
        0xe0, 0x90, 0x90, 0x90, 0xe0,
        0xf0, 0x80, 0xf0, 0x80, 0xf0,
        0xf0, 0x80, 0xf0, 0x80, 0x80,
    ];
    assert(r@ =~= font_glyphs());
    r
}

impl Chip8 {
    /// The invariant every public operation keeps.
    pub closed spec fn wf(&self) -> bool {
        self@.wf()
    }

    /// A fresh machine: memory zero but for the font glyphs, registers,
    /// stack, timers, keypad and display zero, execution at the program base.
    pub fn new() -> (r: Chip8)
        ensures
            r@ == initial_state(),
            r.wf(),
    {
        let mut memory: Vec<u8> = vec![0u8; MEM_SIZE];
        let font = font_bytes();
        let start = FONT_START as usize;
        let mut k: usize = 0;
        while k < font.len()
            invariant
                font@ == font_glyphs(),
                start == FONT_START,
                0 <= k <= font.len(),
                memory@.len() == MEM_SIZE,
                forall|a: int|
                    0 <= a < MEM_SIZE ==> #[trigger] memory@[a] == if start <= a < start + k {
                        font_glyphs()[a - start]
                    } else {
                        0u8
                    },
            decreases font.len() - k,
        {
            memory[start + k] = font[k];
            k += 1;
        }
        let r = Chip8 {
            memory,
            display: vec![0u8; DISPLAY_SIZE],
            pc: START_ADDR,
            i: 0,
            stack: vec![0u16; STACK_SIZE],
            sp: 0,
            delay_timer: 0,
            sound_timer: 0,
            v: vec![0u8; NUM_REGISTERS],
            draw_flag: false,
            keypad: vec![false; KEYPAD_SIZE],
            tick_countdown: TICK_PERIOD,
        };
        assert(r@ =~= initial_state());
        r
    }
}


impl Chip8 {
    /// Clears the frame-changed flag and advances the timer countdown,
    /// counting both timers down when it runs out.
    fn tick(&mut self)
        requires
            old(self).wf(),
        ensures
            final(self)@ == tick_spec(old(self)@),
    {
        self.draw_flag = false;
        if self.tick_countdown <= 1 {
            self.tick_countdown = TICK_PERIOD;
            self.delay_timer = self.delay_timer.saturating_sub(1);
            self.sound_timer = self.sound_timer.saturating_sub(1);
        } else {
            self.tick_countdown -= 1;
        }
    }

    /// Reads the instruction word at the program counter and moves the
    /// program counter past it.
    fn fetch_inst(&mut self) -> (op: u16)
        requires
            old(self).wf(),
        ensures
            op == fetch_spec(old(self)@),
            final(self)@ == old(self)@.set_pc(pc_plus(old(self)@.pc, 2)),
    {
        let byte1 = self.memory[self.pc as usize] as u16;
        let byte2 = self.memory[(self.pc as usize + 1) % MEM_SIZE] as u16;
        self.pc = (self.pc + 2) % (MEM_SIZE as u16);
        byte1 * 256 + byte2
    }

    /// One cycle with `random` as the byte of the random source: tick the
    /// timers, fetch, decode and execute one instruction.
    pub fn step(&mut self, random: u8) -> (r: Result<(), Chip8Error>)
        requires
            old(self).wf(),
        ensures
            (final(self)@, r) == cycle_spec(old(self)@, random),
            final(self).wf(),
    {
        self.tick();
        let opcode = self.fetch_inst();
        proof {
            crate::semantics::lemma_decoded_wf(opcode);
        }
        match decode(opcode) {
            Ok(inst) => self.execute_inst(inst, random),
            Err(e) => Err(e),
        }
    }

    /// One cycle, drawing the random byte from the thread's generator. The
    /// outcome is that of `step` for some byte.
    pub fn run_cycle(&mut self) -> (r: Result<(), Chip8Error>)
        requires
            old(self).wf(),
        ensures
            exists|random: u8| #[trigger] cycle_spec(old(self)@, random) == (final(self)@, r),
            final(self).wf(),
    {
        let random = random_byte();
        self.step(random)
    }

    /// Copies `rom` into program space. A program longer than the space
    /// from the program base to the end of memory is refused, and the
    /// machine left as it was.
    pub fn load_rom(&mut self, rom: &[u8]) -> (r: Result<(), Chip8Error>)
        requires
            old(self).wf(),
        ensures
            final(self).wf(),
            rom@.len() > MAX_ROM_SIZE ==> r == Err::<(), Chip8Error>(Chip8Error::RomTooLarge(rom@.len() as usize))
                && final(self)@ == old(self)@,
            rom@.len() <= MAX_ROM_SIZE ==> r is Ok && final(self)@ == (MachineState {
                memory: rom_loaded(old(self)@.memory, rom@),
                ..old(self)@
            }),
    {
        if rom.len() > MAX_ROM_SIZE {
            return Err(Chip8Error::RomTooLarge(rom.len()));
        }
        let start = START_ADDR as usize;
        let mut k: usize = 0;
        while k < rom.len()
            invariant
                k <= rom@.len() <= MAX_ROM_SIZE,
                start == START_ADDR,
                old(self).wf(),
                self@ == (MachineState { memory: self.memory@, ..old(self)@ }),
                self.memory@.len() == MEM_SIZE,
                forall|a: int|
                    0 <= a < MEM_SIZE ==> #[trigger] self.memory@[a] == if start <= a < start + k {
                        rom@[a - start]
                    } else {
                        old(self)@.memory[a]
                    },
            decreases rom@.len() - k,
        {
            self.memory.set(start + k, rom[k]);
            k += 1;
        }
        assert(self.memory@ =~= rom_loaded(old(self)@.memory, rom@));
        Ok(())
    }

    /// Marks key `key` as held down.
    pub fn key_down(&mut self, key: u8)
        requires
            old(self).wf(),
            key < KEYPAD_SIZE,
        ensures
            final(self).wf(),
            final(self)@ == (MachineState { keypad: old(self)@.keypad.update(key as int, true), ..old(self)@ }),
    {
        self.keypad.set(key as usize, true);
    }

    /// Marks key `key` as released.
    pub fn key_up(&mut self, key: u8)
        requires
            old(self).wf(),
            key < KEYPAD_SIZE,
        ensures
            final(self).wf(),
            final(self)@ == (MachineState { keypad: old(self)@.keypad.update(key as int, false), ..old(self)@ }),
    {
        self.keypad.set(key as usize, false);
    }
}

impl Chip8 {
    /// The pixel grid, row by row; a lit cell holds 1.
    pub fn display(&self) -> (r: &[u8])
        ensures
            r@ == self@.display,
    {
        self.display.as_slice()
    }

    /// Whether the last cycle cleared the grid or drew on it.
    pub fn draw_flag(&self) -> (r: bool)
        ensures
            r == self@.draw_flag,
    {
        self.draw_flag
    }

    /// General register `x`; register 15 is the flag register VF.
    pub fn register(&self, x: usize) -> (r: u8)
        requires
            self.wf(),
            x < NUM_REGISTERS,
        ensures
            r == self@.v[x as int],
    {
        self.v[x]
    }

    pub fn program_counter(&self) -> (r: u16)
        ensures
            r == self@.pc,
    {
        self.pc
    }

    pub fn address_register(&self) -> (r: u16)
        ensures
            r == self@.i,
    {
        self.i
    }

    /// How many return addresses the stack holds.
    pub fn stack_pointer(&self) -> (r: u8)
        ensures
            r == self@.sp,
    {
        self.sp
    }

    pub fn delay_timer(&self) -> (r: u8)
        ensures
            r == self@.delay_timer,
    {
        self.delay_timer
    }

    pub fn sound_timer(&self) -> (r: u8)
        ensures
            r == self@.sound_timer,
    {
        self.sound_timer
    }

    /// The byte at address `addr`.
    pub fn memory_byte(&self, addr: usize) -> (r: u8)
        requires
            self.wf(),
            addr < MEM_SIZE,
        ensures
            r == self@.memory[addr as int],
    {
        self.memory[addr]
    }
}

} // verus!
