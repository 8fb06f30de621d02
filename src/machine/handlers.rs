//! One handler per instruction, each proved to do what `exec_spec` says.

use vstd::prelude::*;
use super::Chip8;
use crate::error::Chip8Error;
use crate::instruction::Instruction;
use crate::semantics::{
    covers, draw_collides, drawn_display, exec_spec, executes, first_key_down, inst_wf,
    loaded_registers, stored_registers,
};
use crate::state::{
    mem_addr, MachineState, DISPLAY_HEIGHT, DISPLAY_SIZE, DISPLAY_WIDTH, FONT_START,
    KEYPAD_SIZE, MEM_SIZE, SPRITE_SIZE, STACK_SIZE,
};

verus! {
/// The cells a draw has toggled once it has finished the first `row` rows and,
/// of the row after them, the first `col` columns.
spec fn drawn_so_far(memory: Seq<u8>, i: u16, x: int, y: int, n: int, p: int, row: int, col: int) -> bool {
    &&& covers(memory, i, x, y, n, p)
    &&& (p / (DISPLAY_WIDTH as int) - y < row || (p / (DISPLAY_WIDTH as int) - y == row && p
        % (DISPLAY_WIDTH as int) - x < col))
}

/// Drawing the cell at (`x + col`, `y + row`) moves exactly that cell, if the
/// sprite covers it, into the drawn set.
proof fn lemma_draw_step(memory: Seq<u8>, i: u16, x: int, y: int, n: int, row: int, col: int)
    requires
        0 <= x,
        0 <= y,
        0 <= col < 8,
        x + col < DISPLAY_WIDTH,
        y + row < DISPLAY_HEIGHT,
        0 <= row,
    ensures
        ({
            let idx = (y + row) * (DISPLAY_WIDTH as int) + x + col;
            &&& idx / (DISPLAY_WIDTH as int) == y + row
            &&& idx % (DISPLAY_WIDTH as int) == x + col
            &&& !drawn_so_far(memory, i, x, y, n, idx, row, col)
            &&& forall|p: int|
                0 <= p < DISPLAY_SIZE && p != idx ==> (drawn_so_far(memory, i, x, y, n, p, row, col + 1)
                    == #[trigger] drawn_so_far(memory, i, x, y, n, p, row, col))
        }),
{
    let idx = (y + row) * (DISPLAY_WIDTH as int) + x + col;
    vstd::arithmetic::div_mod::lemma_fundamental_div_mod_converse(
        idx,
        DISPLAY_WIDTH as int,
        y + row,
        x + col,
    );
}

/// Once a row has run to its eighth column or the right edge, the drawn set
/// is that of the next row's start.
proof fn lemma_row_done(memory: Seq<u8>, i: u16, x: int, y: int, n: int, row: int, col: int)
    requires
        0 <= x < DISPLAY_WIDTH,
        col == 8 || x + col >= DISPLAY_WIDTH,
    ensures
        forall|p: int|
            #![trigger drawn_so_far(memory, i, x, y, n, p, row, col)]
            #![trigger drawn_so_far(memory, i, x, y, n, p, row + 1, 0)]
            0 <= p < DISPLAY_SIZE ==> (drawn_so_far(memory, i, x, y, n, p, row, col)
                == drawn_so_far(memory, i, x, y, n, p, row + 1, 0)),
{
}

impl Chip8 {
    /// Draws a sprite of `n` rows from memory at the address register, with
    /// its top left corner at (register `x` mod width, register `y` mod
    /// height). Covered cells are toggled and cells past the edges clipped;
    /// VF tells whether a lit cell was toggled.
    fn draw(&mut self, x: u8, y: u8, n: u8)
        requires
            old(self).wf(),
            x < 16,
            y < 16,
            n < 16,
        ensures
            executes(old(self)@, Instruction::Draw(x, y, n), 0, final(self)@, Ok(())),
    {
        let px: usize = (self.v[x as usize] % (DISPLAY_WIDTH as u8)) as usize;
        let py: usize = (self.v[y as usize] % (DISPLAY_HEIGHT as u8)) as usize;
        let ghost d0 = self.display@;
        let ghost mem = self.memory@;
        let ghost i0 = self.i;
        let ghost nn = n as int;
        let mut collided = false;
        let mut row: usize = 0;
        while row < n as usize && py + row < DISPLAY_HEIGHT
            invariant
                old(self).wf(),
                px < DISPLAY_WIDTH,
                py < DISPLAY_HEIGHT,
                nn == n,
                row <= n,
                d0 == old(self)@.display,
                mem == old(self)@.memory,
                i0 == old(self)@.i,
                self@ == (MachineState { display: self.display@, ..old(self)@ }),
                self.display@.len() == DISPLAY_SIZE,
                forall|p: int|
                    0 <= p < DISPLAY_SIZE ==> #[trigger] self.display@[p] == if drawn_so_far(
                        mem,
                        i0,
                        px as int,
                        py as int,
                        nn,
                        p,
                        row as int,
                        0,
                    ) {
                        d0[p] ^ 1u8
                    } else {
                        d0[p]
                    },
                collided == exists|p: int|
                    0 <= p < DISPLAY_SIZE && #[trigger] drawn_so_far(
                        mem,
                        i0,
                        px as int,
                        py as int,
                        nn,
                        p,
                        row as int,
                        0,
                    ) && d0[p] == 1u8,
            decreases n - row,
        {
            let sprite = self.memory[(self.i as usize + row) % MEM_SIZE];
            let mut col: usize = 0;
            while col < 8 && px + col < DISPLAY_WIDTH
                invariant
                    old(self).wf(),
                    px < DISPLAY_WIDTH,
                    py + row < DISPLAY_HEIGHT,
                    nn == n,
                    row < n,
                    col <= 8,
                    d0 == old(self)@.display,
                    mem == old(self)@.memory,
                    i0 == old(self)@.i,
                    sprite == mem[mem_addr(i0 + row)],
                    self@ == (MachineState { display: self.display@, ..old(self)@ }),
                    self.display@.len() == DISPLAY_SIZE,
                    forall|p: int|
                        0 <= p < DISPLAY_SIZE ==> #[trigger] self.display@[p] == if drawn_so_far(
                            mem,
                            i0,
                            px as int,
                            py as int,
                            nn,
                            p,
                            row as int,
                            col as int,
                        ) {
                            d0[p] ^ 1u8
                        } else {
                            d0[p]
                        },
                    collided == exists|p: int|
                        0 <= p < DISPLAY_SIZE && #[trigger] drawn_so_far(
                            mem,
                            i0,
                            px as int,
                            py as int,
                            nn,
                            p,
                            row as int,
                            col as int,
                        ) && d0[p] == 1u8,
                decreases 8 - col,
            {
                let idx: usize = (py + row) * DISPLAY_WIDTH + px + col;
                let ghost before = collided;
                proof {
                    lemma_draw_step(mem, i0, px as int, py as int, nn, row as int, col as int);
                }
                let shift: u8 = (7 - col) as u8;
                if (sprite >> shift) & 1u8 == 1u8 {
                    assert(covers(mem, i0, px as int, py as int, nn, idx as int));
                    if self.display[idx] == 1 {
                        collided = true;
                    }
                    let toggled = self.display[idx] ^ 1u8;
                    self.display[idx] = toggled;
                } else {
                    assert(!covers(mem, i0, px as int, py as int, nn, idx as int));
                }
                proof {
                    if before {
                        let w = choose|p: int|
                            0 <= p < DISPLAY_SIZE && #[trigger] drawn_so_far(
                                mem,
                                i0,
                                px as int,
                                py as int,
                                nn,
                                p,
                                row as int,
                                col as int,
                            ) && d0[p] == 1u8;
                        assert(drawn_so_far(mem, i0, px as int, py as int, nn, w, row as int, col + 1));
                    } else if collided {
                        assert(drawn_so_far(mem, i0, px as int, py as int, nn, idx as int, row as int, col + 1));
                    } else {
                        assert forall|p: int|
                            0 <= p < DISPLAY_SIZE && #[trigger] drawn_so_far(
                                mem,
                                i0,
                                px as int,
                                py as int,
                                nn,
                                p,
                                row as int,
                                col + 1,
                            ) implies d0[p] != 1u8 by {
                            if p != idx {
                                assert(drawn_so_far(mem, i0, px as int, py as int, nn, p, row as int, col as int));
                            }
                        }
                    }
                }
                col += 1;
            }
            proof {
                lemma_row_done(mem, i0, px as int, py as int, nn, row as int, col as int);
            }
            row += 1;
        }
        proof {
            assert forall|p: int| 0 <= p < DISPLAY_SIZE implies #[trigger] drawn_so_far(
                mem,
                i0,
                px as int,
                py as int,
                nn,
                p,
                row as int,
                0,
            ) == covers(mem, i0, px as int, py as int, nn, p) by {}
            if collided {
                let w = choose|p: int|
                    0 <= p < DISPLAY_SIZE && #[trigger] drawn_so_far(
                        mem,
                        i0,
                        px as int,
                        py as int,
                        nn,
                        p,
                        row as int,
                        0,
                    ) && d0[p] == 1u8;
                assert(covers(mem, i0, px as int, py as int, nn, w));
            }
            if draw_collides(d0, mem, i0, px as int, py as int, nn) {
                let w = choose|p: int|
                    0 <= p < d0.len() && #[trigger] covers(mem, i0, px as int, py as int, nn, p)
                        && d0[p] == 1u8;
                assert(drawn_so_far(mem, i0, px as int, py as int, nn, w, row as int, 0));
            }
            assert(collided == draw_collides(d0, mem, i0, px as int, py as int, nn));
        }
        self.v.set(15, if collided { 1u8 } else { 0u8 });
        self.draw_flag = true;
        assert(self.display@ =~= drawn_display(d0, mem, i0, px as int, py as int, nn));
        assert(self@ =~= exec_spec(old(self)@, Instruction::Draw(x, y, n), 0)->Ok_0);
    }
}

impl Chip8 {
    /// Turns every cell of the grid off.
    fn clear_display(&mut self)
        requires
            old(self).wf(),
        ensures
            executes(old(self)@, Instruction::ClearDisplay, 0, final(self)@, Ok(())),
    {
        let mut p: usize = 0;
        while p < DISPLAY_SIZE
            invariant
                p <= DISPLAY_SIZE,
                self@ == (MachineState { display: self.display@, ..old(self)@ }),
                self.display@.len() == DISPLAY_SIZE,
                forall|q: int| 0 <= q < p ==> #[trigger] self.display@[q] == 0u8,
            decreases DISPLAY_SIZE - p,
        {
            self.display.set(p, 0);
            p += 1;
        }
        self.draw_flag = true;
        assert(self.display@ =~= Seq::new(DISPLAY_SIZE as nat, |q: int| 0u8));
    }

    /// Pops the return address into the program counter.
    fn ret(&mut self) -> (r: Result<(), Chip8Error>)
        requires
            old(self).wf(),
        ensures
            executes(old(self)@, Instruction::Return, 0, final(self)@, r),
    {
        if self.sp == 0 {
            return Err(Chip8Error::StackUnderflow);
        }
        self.sp -= 1;
        self.pc = self.stack[self.sp as usize];
        self.stack.set(self.sp as usize, 0);
        Ok(())
    }

    fn jump(&mut self, addr: u16)
        requires
            old(self).wf(),
        ensures
            executes(old(self)@, Instruction::Jump(addr), 0, final(self)@, Ok(())),
    {
        self.pc = addr;
    }

    /// Pushes the program counter and jumps to `addr`.
    fn call(&mut self, addr: u16) -> (r: Result<(), Chip8Error>)
        requires
            old(self).wf(),
        ensures
            executes(old(self)@, Instruction::Call(addr), 0, final(self)@, r),
    {
        if self.sp as usize >= STACK_SIZE {
            return Err(Chip8Error::StackOverflow);
        }
        self.stack.set(self.sp as usize, self.pc);
        self.pc = addr;
        self.sp += 1;
        Ok(())
    }

    /// Moves the program counter past the next instruction.
    fn skip(&mut self)
        requires
            old(self).wf(),
        ensures
            final(self)@ == old(self)@.skip_if(true),
    {
        self.pc = (self.pc + 2) % (MEM_SIZE as u16);
    }

    fn skip_if_reg_eq_imm(&mut self, x: u8, nn: u8)
        requires
            old(self).wf(),
            x < 16,
        ensures
            executes(old(self)@, Instruction::SkipIfRegEqImm(x, nn), 0, final(self)@, Ok(())),
    {
        if self.v[x as usize] == nn {
            self.skip();
        }
    }

    fn skip_if_reg_neq_imm(&mut self, x: u8, nn: u8)
        requires
            old(self).wf(),
            x < 16,
        ensures
            executes(old(self)@, Instruction::SkipIfRegNeqImm(x, nn), 0, final(self)@, Ok(())),
    {
        if self.v[x as usize] != nn {
            self.skip();
        }
    }

    fn skip_if_reg_eq_reg(&mut self, x: u8, y: u8)
        requires
            old(self).wf(),
            x < 16,
            y < 16,
        ensures
            executes(old(self)@, Instruction::SkipIfRegEqReg(x, y), 0, final(self)@, Ok(())),
    {
        if self.v[x as usize] == self.v[y as usize] {
            self.skip();
        }
    }

    fn skip_if_reg_neq_reg(&mut self, x: u8, y: u8)
        requires
            old(self).wf(),
            x < 16,
            y < 16,
        ensures
            executes(old(self)@, Instruction::SkipIfRegNeqReg(x, y), 0, final(self)@, Ok(())),
    {
        if self.v[x as usize] != self.v[y as usize] {
            self.skip();
        }
    }

    /// Writes register `x`.
    fn set_reg(&mut self, x: u8, val: u8)
        requires
            old(self).wf(),
            x < 16,
        ensures
            final(self)@ == old(self)@.set_reg(x as int, val),
    {
        self.v.set(x as usize, val);
    }

    fn set_reg_to_imm(&mut self, x: u8, nn: u8)
        requires
            old(self).wf(),
            x < 16,
        ensures
            executes(old(self)@, Instruction::SetRegToImm(x, nn), 0, final(self)@, Ok(())),
    {
        self.set_reg(x, nn);
    }

    /// Adds `nn` to register `x`, wrapping; VF is left alone.
    fn add_imm_to_reg(&mut self, x: u8, nn: u8)
        requires
            old(self).wf(),
            x < 16,
        ensures
            executes(old(self)@, Instruction::AddImmToReg(x, nn), 0, final(self)@, Ok(())),
    {
        let sum: u16 = self.v[x as usize] as u16 + nn as u16;
        self.set_reg(x, (sum % 256) as u8);
    }

    fn set_reg_to_reg(&mut self, x: u8, y: u8)
        requires
            old(self).wf(),
            x < 16,
            y < 16,
        ensures
            executes(old(self)@, Instruction::SetRegToReg(x, y), 0, final(self)@, Ok(())),
    {
        let b = self.v[y as usize];
        self.set_reg(x, b);
    }

    fn bitwise_or(&mut self, x: u8, y: u8)
        requires
            old(self).wf(),
            x < 16,
            y < 16,
        ensures
            executes(old(self)@, Instruction::BitwiseOr(x, y), 0, final(self)@, Ok(())),
    {
        let r = self.v[x as usize] | self.v[y as usize];
        self.set_reg(x, r);
    }

    fn bitwise_and(&mut self, x: u8, y: u8)
        requires
            old(self).wf(),
            x < 16,
            y < 16,
        ensures
            executes(old(self)@, Instruction::BitwiseAnd(x, y), 0, final(self)@, Ok(())),
    {
        let r = self.v[x as usize] & self.v[y as usize];
        self.set_reg(x, r);
    }

    fn bitwise_xor(&mut self, x: u8, y: u8)
        requires
            old(self).wf(),
            x < 16,
            y < 16,
        ensures
            executes(old(self)@, Instruction::BitwiseXor(x, y), 0, final(self)@, Ok(())),
    {
        let r = self.v[x as usize] ^ self.v[y as usize];
        self.set_reg(x, r);
    }

    /// Register `x` += register `y`, wrapping; VF = 1 on carry, else 0.
    fn add_reg_to_reg(&mut self, x: u8, y: u8)
        requires
            old(self).wf(),
            x < 16,
            y < 16,
        ensures
            executes(old(self)@, Instruction::AddRegToReg(x, y), 0, final(self)@, Ok(())),
    {
        let sum: u16 = self.v[x as usize] as u16 + self.v[y as usize] as u16;
        self.set_reg(x, (sum % 256) as u8);
        self.set_reg(15, if sum > 255 { 1 } else { 0 });
    }

    /// Register `x` -= register `y`, wrapping; VF = 1 when no borrow, else 0.
    fn sub_reg_from_reg(&mut self, x: u8, y: u8)
        requires
            old(self).wf(),
            x < 16,
            y < 16,
        ensures
            executes(old(self)@, Instruction::SubRegFromReg(x, y), 0, final(self)@, Ok(())),
    {
        let a = self.v[x as usize];
        let b = self.v[y as usize];
        self.set_reg(x, ((a as u16 + 256 - b as u16) % 256) as u8);
        self.set_reg(15, if a >= b { 1 } else { 0 });
    }

    /// Register `x` = register `y` - register `x`, wrapping; VF = 1 when no
    /// borrow, else 0.
    fn rsb_reg_from_reg(&mut self, x: u8, y: u8)
        requires
            old(self).wf(),
            x < 16,
            y < 16,
        ensures
            executes(old(self)@, Instruction::RsbRegFromReg(x, y), 0, final(self)@, Ok(())),
    {
        let a = self.v[x as usize];
        let b = self.v[y as usize];
        self.set_reg(x, ((b as u16 + 256 - a as u16) % 256) as u8);
        self.set_reg(15, if b >= a { 1 } else { 0 });
    }

    /// Shifts register `x` right by one; VF gets the bit shifted out.
    fn right_shift(&mut self, x: u8)
        requires
            old(self).wf(),
            x < 16,
        ensures
            executes(old(self)@, Instruction::RightShift(x), 0, final(self)@, Ok(())),
    {
        let a = self.v[x as usize];
        self.set_reg(x, a / 2);
        self.set_reg(15, a % 2);
    }

    /// Shifts register `x` left by one; VF gets the bit shifted out.
    fn left_shift(&mut self, x: u8)
        requires
            old(self).wf(),
            x < 16,
        ensures
            executes(old(self)@, Instruction::LeftShift(x), 0, final(self)@, Ok(())),
    {
        let a = self.v[x as usize];
        self.set_reg(x, ((a as u16 * 2) % 256) as u8);
        self.set_reg(15, a / 128);
    }

    fn set_i_to_addr(&mut self, addr: u16)
        requires
            old(self).wf(),
        ensures
            executes(old(self)@, Instruction::SetIToAddr(addr), 0, final(self)@, Ok(())),
    {
        self.i = addr;
    }

    /// Jumps to `addr` plus register 0, wrapping into memory.
    fn jump_with_offset(&mut self, addr: u16)
        requires
            old(self).wf(),
            addr < MEM_SIZE,
        ensures
            executes(old(self)@, Instruction::JumpWithOffset(addr), 0, final(self)@, Ok(())),
    {
        self.pc = (addr + self.v[0] as u16) % (MEM_SIZE as u16);
    }

    /// Register `x` = `random` AND `nn`.
    fn set_reg_to_rand(&mut self, x: u8, nn: u8, random: u8)
        requires
            old(self).wf(),
            x < 16,
        ensures
            executes(old(self)@, Instruction::SetRegToRand(x, nn), random, final(self)@, Ok(())),
    {
        self.set_reg(x, random & nn);
    }

    /// Whether key `k` exists and is down.
    fn key_is_down(&self, k: u8) -> (r: bool)
        requires
            self.wf(),
        ensures
            r == self@.key_is_down(k as int),
    {
        (k as usize) < KEYPAD_SIZE && self.keypad[k as usize]
    }

    fn skip_if_key_pressed(&mut self, x: u8)
        requires
            old(self).wf(),
            x < 16,
        ensures
            executes(old(self)@, Instruction::SkipIfKeyPressed(x), 0, final(self)@, Ok(())),
    {
        if self.key_is_down(self.v[x as usize]) {
            self.skip();
        }
    }

    fn skip_if_key_not_pressed(&mut self, x: u8)
        requires
            old(self).wf(),
            x < 16,
        ensures
            executes(old(self)@, Instruction::SkipIfKeyNotPressed(x), 0, final(self)@, Ok(())),
    {
        if !self.key_is_down(self.v[x as usize]) {
            self.skip();
        }
    }

    fn get_delay_timer(&mut self, x: u8)
        requires
            old(self).wf(),
            x < 16,
        ensures
            executes(old(self)@, Instruction::GetDelayTimer(x), 0, final(self)@, Ok(())),
    {
        let t = self.delay_timer;
        self.set_reg(x, t);
    }

    fn set_delay_timer(&mut self, x: u8)
        requires
            old(self).wf(),
            x < 16,
        ensures
            executes(old(self)@, Instruction::SetDelayTimer(x), 0, final(self)@, Ok(())),
    {
        self.delay_timer = self.v[x as usize];
    }

    fn set_sound_timer(&mut self, x: u8)
        requires
            old(self).wf(),
            x < 16,
        ensures
            executes(old(self)@, Instruction::SetSoundTimer(x), 0, final(self)@, Ok(())),
    {
        self.sound_timer = self.v[x as usize];
    }

    /// Address register += register `x`, wrapping at 16 bits.
    fn add_reg_to_i(&mut self, x: u8)
        requires
            old(self).wf(),
            x < 16,
        ensures
            executes(old(self)@, Instruction::AddRegToI(x), 0, final(self)@, Ok(())),
    {
        self.i = ((self.i as u32 + self.v[x as usize] as u32) % 0x10000) as u16;
    }

    /// Points the address register at the glyph of the digit in register `x`.
    fn set_i_to_font(&mut self, x: u8)
        requires
            old(self).wf(),
            x < 16,
        ensures
            executes(old(self)@, Instruction::SetIToFont(x), 0, final(self)@, Ok(())),
    {
        self.i = self.v[x as usize] as u16 * SPRITE_SIZE + FONT_START;
    }

    /// Stores the hundreds, tens and units digits of register `x` at the
    /// address register and the two bytes after it.
    fn set_bcd(&mut self, x: u8)
        requires
            old(self).wf(),
            x < 16,
        ensures
            executes(old(self)@, Instruction::SetBcd(x), 0, final(self)@, Ok(())),
    {
        let i = self.i as usize;
        let a = self.v[x as usize];
        self.memory.set(i % MEM_SIZE, a / 100);
        self.memory.set((i + 1) % MEM_SIZE, (a / 10) % 10);
        self.memory.set((i + 2) % MEM_SIZE, a % 10);
    }
}

/// Memory offsets wrap: address `a` lies `j` bytes past `i` exactly when it
/// is `i + j` wrapped into memory.
proof fn lemma_wrapped_offset(a: int, i: int, j: int)
    requires
        0 <= a < MEM_SIZE,
        0 <= i,
        0 <= j < MEM_SIZE,
    ensures
        ((a - i) % (MEM_SIZE as int) == j) == (a == mem_addr(i + j)),
{
    let m = MEM_SIZE as int;
    if (a - i) % m == j {
        let q = (a - i) / m;
        vstd::arithmetic::div_mod::lemma_fundamental_div_mod(a - i, m);
        vstd::arithmetic::div_mod::lemma_fundamental_div_mod_converse(i + j, m, -q, a);
    }
    if a == mem_addr(i + j) {
        let q = (i + j) / m;
        vstd::arithmetic::div_mod::lemma_fundamental_div_mod(i + j, m);
        vstd::arithmetic::div_mod::lemma_fundamental_div_mod_converse(a - i, m, -q, j);
    }
}

impl Chip8 {
    /// Puts the lowest key that is down into register `x`; with no key down,
    /// moves the program counter back so that this instruction runs again.
    fn get_key(&mut self, x: u8)
        requires
            old(self).wf(),
            x < 16,
        ensures
            executes(old(self)@, Instruction::GetKey(x), 0, final(self)@, Ok(())),
    {
        let mut k: usize = 0;
        while k < KEYPAD_SIZE
            invariant
                k <= KEYPAD_SIZE,
                x < 16,
                self@ == old(self)@,
                old(self).wf(),
                first_key_down(self@.keypad, 0) == first_key_down(self@.keypad, k as int),
            decreases KEYPAD_SIZE - k,
        {
            if self.keypad[k] {
                self.set_reg(x, k as u8);
                return;
            }
            k += 1;
        }
        self.pc = (self.pc + (MEM_SIZE as u16 - 2)) % (MEM_SIZE as u16);
    }

    /// Stores registers 0 to `x` in memory from the address register on.
    fn reg_dump(&mut self, x: u8)
        requires
            old(self).wf(),
            x < 16,
        ensures
            executes(old(self)@, Instruction::RegDump(x), 0, final(self)@, Ok(())),
    {
        let i = self.i as usize;
        let mut j: usize = 0;
        while j <= x as usize
            invariant
                j <= x + 1,
                x < 16,
                i == old(self)@.i,
                old(self).wf(),
                self@ == (MachineState { memory: self.memory@, ..old(self)@ }),
                self.memory@ == stored_registers(old(self)@.memory, old(self)@.i, old(self)@.v, j - 1),
            decreases x + 1 - j,
        {
            let val = self.v[j];
            let addr = (i + j) % MEM_SIZE;
            proof {
                let before = stored_registers(old(self)@.memory, old(self)@.i, old(self)@.v, j - 1);
                let after = stored_registers(old(self)@.memory, old(self)@.i, old(self)@.v, j as int);
                assert forall|a: int| 0 <= a < MEM_SIZE implies #[trigger] after[a] == before.update(
                    addr as int,
                    val,
                )[a] by {
                    lemma_wrapped_offset(a, i as int, j as int);
                }
                assert(after =~= before.update(addr as int, val));
            }
            self.memory.set(addr, val);
            j += 1;
        }
    }

    /// Loads registers 0 to `x` from memory from the address register on.
    fn reg_load(&mut self, x: u8)
        requires
            old(self).wf(),
            x < 16,
        ensures
            executes(old(self)@, Instruction::RegLoad(x), 0, final(self)@, Ok(())),
    {
        let i = self.i as usize;
        let mut j: usize = 0;
        while j <= x as usize
            invariant
                j <= x + 1,
                x < 16,
                i == old(self)@.i,
                old(self).wf(),
                self@ == (MachineState { v: self.v@, ..old(self)@ }),
                self.v@ == loaded_registers(old(self)@.memory, old(self)@.i, old(self)@.v, j - 1),
            decreases x + 1 - j,
        {
            let val = self.memory[(i + j) % MEM_SIZE];
            proof {
                let before = loaded_registers(old(self)@.memory, old(self)@.i, old(self)@.v, j - 1);
                let after = loaded_registers(old(self)@.memory, old(self)@.i, old(self)@.v, j as int);
                assert(after =~= before.update(j as int, val));
            }
            self.v.set(j, val);
            j += 1;
        }
    }
}

impl Chip8 {
    /// Executes one decoded instruction; the program counter already points
    /// past it. `random` is used by the random-number instruction alone.
    pub(super) fn execute_inst(&mut self, inst: Instruction, random: u8) -> (r: Result<(), Chip8Error>)
        requires
            old(self).wf(),
            inst_wf(inst),
        ensures
            executes(old(self)@, inst, random, final(self)@, r),
            final(self).wf(),
    {
        proof {
            crate::semantics::lemma_exec_wf(self@, inst, random);
        }
        match inst {
            Instruction::ClearDisplay => self.clear_display(),
            Instruction::Return => return self.ret(),
            Instruction::Jump(addr) => self.jump(addr),
            Instruction::Call(addr) => return self.call(addr),
            Instruction::SkipIfRegEqImm(x, nn) => self.skip_if_reg_eq_imm(x, nn),
            Instruction::SkipIfRegNeqImm(x, nn) => self.skip_if_reg_neq_imm(x, nn),
            Instruction::SkipIfRegEqReg(x, y) => self.skip_if_reg_eq_reg(x, y),
            Instruction::SetRegToImm(x, nn) => self.set_reg_to_imm(x, nn),
            Instruction::AddImmToReg(x, nn) => self.add_imm_to_reg(x, nn),
            Instruction::SetRegToReg(x, y) => self.set_reg_to_reg(x, y),
            Instruction::BitwiseOr(x, y) => self.bitwise_or(x, y),
            Instruction::BitwiseAnd(x, y) => self.bitwise_and(x, y),
            Instruction::BitwiseXor(x, y) => self.bitwise_xor(x, y),
            Instruction::AddRegToReg(x, y) => self.add_reg_to_reg(x, y),
            Instruction::SubRegFromReg(x, y) => self.sub_reg_from_reg(x, y),
            Instruction::RightShift(x) => self.right_shift(x),
            Instruction::RsbRegFromReg(x, y) => self.rsb_reg_from_reg(x, y),
            Instruction::LeftShift(x) => self.left_shift(x),
            Instruction::SkipIfRegNeqReg(x, y) => self.skip_if_reg_neq_reg(x, y),
            Instruction::SetIToAddr(addr) => self.set_i_to_addr(addr),
            Instruction::JumpWithOffset(addr) => self.jump_with_offset(addr),
            Instruction::SetRegToRand(x, nn) => self.set_reg_to_rand(x, nn, random),
            Instruction::Draw(x, y, n) => self.draw(x, y, n),
            Instruction::SkipIfKeyPressed(x) => self.skip_if_key_pressed(x),
            Instruction::SkipIfKeyNotPressed(x) => self.skip_if_key_not_pressed(x),
            Instruction::GetDelayTimer(x) => self.get_delay_timer(x),
            Instruction::GetKey(x) => self.get_key(x),
            Instruction::SetDelayTimer(x) => self.set_delay_timer(x),
            Instruction::SetSoundTimer(x) => self.set_sound_timer(x),
            Instruction::AddRegToI(x) => self.add_reg_to_i(x),
            Instruction::SetIToFont(x) => self.set_i_to_font(x),
            Instruction::SetBcd(x) => self.set_bcd(x),
            Instruction::RegDump(x) => self.reg_dump(x),
            Instruction::RegLoad(x) => self.reg_load(x),
        }
        Ok(())
    }
}

} // verus!
