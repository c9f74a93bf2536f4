//! The executable machine, proved against the model in [`crate::state`].

use vstd::prelude::*;

use crate::draw::{
    apply_flips, collide, lemma_apply_flips_concat, lemma_apply_flips_one, lemma_collide_concat,
    pixel_index, row_positions_upto, sprite_positions,
};
use crate::error::VmError;
use crate::instr::{decode, instr_wf, Instr};
use crate::state::{
    baseline, exec_spec, fetched, first_pressed_from, font_seq, lemma_tick_spec_err_rand_indep,
    spec_word, tick_spec, StateV,
};
use crate::{FONTSET_SIZE, FONT_GLYPH_HEIGHT, NUM_KEYS, NUM_REGS, RAM_SIZE, SCREEN_CELLS, STACK_SIZE, START_ADDR};

verus! {

broadcast use vstd::array::group_array_axioms;

/// One CHIP-8 machine: the whole state block, exclusively owned.
pub struct Emu {
    pc: u16,
    ram: [u8; RAM_SIZE],
    screen: [bool; SCREEN_CELLS],
    v_reg: [u8; NUM_REGS],
    i_reg: u16,
    sp: u16,
    keys: [bool; NUM_KEYS],
    stack: [u16; STACK_SIZE],
    dt: u8,
    st: u8,
}

impl View for Emu {
    type V = StateV;

    closed spec fn view(&self) -> StateV {
        StateV {
            pc: self.pc,
            ram: self.ram@,
            screen: self.screen@,
            v: self.v_reg@,
            i: self.i_reg,
            sp: self.sp,
            keys: self.keys@,
            stack: self.stack@,
            dt: self.dt,
            st: self.st,
        }
    }
}

impl Emu {
    /// Writes the built-in glyph font over the first 80 memory bytes.
    fn write_font(&mut self)
        ensures
            forall|j: int| 0 <= j < 80 ==> final(self)@.ram[j] == font_seq()[j],
            forall|j: int| 80 <= j < 4096 ==> final(self)@.ram[j] == old(self)@.ram[j],
            final(self)@ == (StateV { ram: final(self)@.ram, ..old(self)@ }),
    {
        let font: [u8; FONTSET_SIZE] = [
            0xF0, 0x90, 0x90, 0x90, 0xF0,
            0x20, 0x60, 0x20, 0x20, 0x70,
            0xF0, 0x10, 0xF0, 0x80, 0xF0,
            0xF0, 0x10, 0xF0, 0x10, 0xF0,
            0x90, 0x90, 0xF0, 0x10, 0x10,
            0xF0, 0x80, 0xF0, 0x10, 0xF0,
            0xF0, 0x80, 0xF0, 0x90, 0xF0,
            0xF0, 0x10, 0x20, 0x40, 0x40,
            0xF0, 0x90, 0xF0, 0x90, 0xF0,
            0xF0, 0x90, 0xF0, 0x10, 0xF0,
            0xF0, 0x90, 0xF0, 0x90, 0x90,
            0xE0, 0x90, 0xE0, 0x90, 0xE0,
            0xF0, 0x80, 0x80, 0x80, 0xF0,
            0xE0, 0x90, 0x90, 0x90, 0xE0,
            0xF0, 0x80, 0xF0, 0x80, 0xF0,
            0xF0, 0x80, 0xF0, 0x80, 0x80,
        ];
        proof {
            assert(font@ =~= font_seq());
        }
        let mut k: usize = 0;
        while k < FONTSET_SIZE
            invariant
                k <= 80,
                font@ == font_seq(),
                forall|j: int| 0 <= j < k ==> self@.ram[j] == font_seq()[j],
                forall|j: int| k <= j < 4096 ==> self@.ram[j] == old(self)@.ram[j],
                self@ == (StateV { ram: self@.ram, ..old(self)@ }),
            decreases 80 - k,
        {
            self.ram[k] = font[k];
            k += 1;
        }
    }

    /// Builds a machine in the baseline state: font loaded at the base of
    /// memory, all other memory, registers, stack, timers, keys and display
    /// zeroed, program counter at the load address.
    pub fn new() -> (e: Emu)
        ensures
            e@ == baseline(),
    {
        let mut e = Emu {
            pc: START_ADDR,
            ram: [0; RAM_SIZE],
            screen: [false; SCREEN_CELLS],
            v_reg: [0; NUM_REGS],
            i_reg: 0,
            sp: 0,
            keys: [false; NUM_KEYS],
            stack: [0; STACK_SIZE],
            dt: 0,
            st: 0,
        };
        e.write_font();
        proof {
            assert(e@ =~= baseline());
        }
        e
    }

    /// Discards all state — program memory, registers, stack, timers, keys
    /// and display — and returns to the same baseline as construction.
    pub fn reset(&mut self)
        ensures
            final(self)@ == baseline(),
    {
        self.pc = START_ADDR;
        self.ram = [0; RAM_SIZE];
        self.screen = [false; SCREEN_CELLS];
        self.v_reg = [0; NUM_REGS];
        self.i_reg = 0;
        self.sp = 0;
        self.keys = [false; NUM_KEYS];
        self.stack = [0; STACK_SIZE];
        self.dt = 0;
        self.st = 0;
        self.write_font();
        proof {
            assert(self@ =~= baseline());
        }
    }

    /// Copies a program into memory starting at the load address.  A
    /// program that would run past the end of memory is rejected whole.
    pub fn load(&mut self, data: &[u8]) -> (r: Result<(), VmError>)
        ensures
            match r {
                Ok(()) => data@.len() <= RAM_SIZE - START_ADDR
                    && final(self)@.ram == Seq::new(
                    4096,
                    |j: int|
                        if START_ADDR <= j < START_ADDR + data@.len() {
                            data@[j - START_ADDR]
                        } else {
                            old(self)@.ram[j]
                        },
                ) && final(self)@ == (StateV { ram: final(self)@.ram, ..old(self)@ }),
                Err(e) => e == VmError::MemOutOfBounds && data@.len() > RAM_SIZE - START_ADDR
                    && final(self)@ == old(self)@,
            },
    {
        let start = START_ADDR as usize;
        if data.len() > RAM_SIZE - start {
            return Err(VmError::MemOutOfBounds);
        }
        let mut k: usize = 0;
        while k < data.len()
            invariant
                start == START_ADDR as usize,
                k <= data@.len(),
                data@.len() <= RAM_SIZE - START_ADDR,
                forall|j: int|
                    START_ADDR <= j < START_ADDR + k ==> self@.ram[j] == data@[j - START_ADDR],
                forall|j: int|
                    (0 <= j < START_ADDR || START_ADDR + k <= j < 4096) ==> self@.ram[j] == old(
                        self,
                    )@.ram[j],
                self@ == (StateV { ram: self@.ram, ..old(self)@ }),
            decreases data@.len() - k,
        {
            self.ram[start + k] = data[k];
            k += 1;
        }
        proof {
            assert(self@.ram =~= Seq::new(
                4096,
                |j: int|
                    if START_ADDR <= j < START_ADDR + data@.len() {
                        data@[j - START_ADDR]
                    } else {
                        old(self)@.ram[j]
                    },
            ));
        }
        Ok(())
    }

    /// Sets the pressed state of one host key.
    pub fn keypress(&mut self, idx: usize, pressed: bool) -> (r: Result<(), VmError>)
        ensures
            match r {
                Ok(()) => idx < 16 && final(self)@ == (StateV {
                    keys: old(self)@.keys.update(idx as int, pressed),
                    ..old(self)@
                }),
                Err(e) => e == VmError::InvalidKey && idx >= 16 && final(self)@ == old(self)@,
            },
    {
        if idx < NUM_KEYS {
            self.keys[idx] = pressed;
            Ok(())
        } else {
            Err(VmError::InvalidKey)
        }
    }

    /// A read-only view of the display buffer, row-major, one flag per
    /// pixel.
    pub fn get_display(&self) -> (r: &[bool])
        ensures
            r@ == self@.screen,
    {
        self.screen.as_slice()
    }

    /// One timer tick: each timer counts down by one while above zero and
    /// holds at zero otherwise.  A sound timer read at exactly 1 signals
    /// the last audible tick to the host before this call brings it to 0.
    pub fn tick_timers(&mut self)
        ensures
            final(self)@ == (StateV {
                dt: if old(self)@.dt > 0 {
                    (old(self)@.dt - 1) as u8
                } else {
                    0
                },
                st: if old(self)@.st > 0 {
                    (old(self)@.st - 1) as u8
                } else {
                    0
                },
                ..old(self)@
            }),
    {
        if self.dt > 0 {
            self.dt = self.dt - 1;
        }
        if self.st > 0 {
            self.st = self.st - 1;
        }
    }

    /// The program counter.
    pub fn pc(&self) -> (r: u16)
        ensures
            r == self@.pc,
    {
        self.pc
    }

    /// The index register.
    pub fn index_reg(&self) -> (r: u16)
        ensures
            r == self@.i,
    {
        self.i_reg
    }

    /// The stack pointer: how many return addresses are on the stack.
    pub fn stack_ptr(&self) -> (r: u16)
        ensures
            r == self@.sp,
    {
        self.sp
    }

    /// General register `idx`.
    pub fn reg(&self, idx: usize) -> (r: u8)
        requires
            idx < 16,
        ensures
            r == self@.v[idx as int],
    {
        self.v_reg[idx]
    }

    /// The memory byte at `addr`.
    pub fn ram_byte(&self, addr: usize) -> (r: u8)
        requires
            addr < 4096,
        ensures
            r == self@.ram[addr as int],
    {
        self.ram[addr]
    }

    /// The pressed state of key `idx`.
    pub fn key(&self, idx: usize) -> (r: bool)
        requires
            idx < 16,
        ensures
            r == self@.keys[idx as int],
    {
        self.keys[idx]
    }

    /// The delay timer.
    pub fn delay_timer(&self) -> (r: u8)
        ensures
            r == self@.dt,
    {
        self.dt
    }

    /// The sound timer.
    pub fn sound_timer(&self) -> (r: u8)
        ensures
            r == self@.st,
    {
        self.st
    }

    /// Pushes a return address; the stack pointer indexes the next free
    /// slot, so a full stack is a fatal overflow.
    fn push(&mut self, val: u16) -> (r: Result<(), VmError>)
        requires
            old(self)@.wf(),
        ensures
            final(self)@.wf(),
            match r {
                Ok(()) => old(self)@.sp < 16 && final(self)@ == (StateV {
                    stack: old(self)@.stack.update(old(self)@.sp as int, val),
                    sp: (old(self)@.sp + 1) as u16,
                    ..old(self)@
                }),
                Err(e) => e == VmError::StackOverflow && old(self)@.sp >= 16 && final(self)@
                    == old(self)@,
            },
    {
        if self.sp < STACK_SIZE as u16 {
            self.stack[self.sp as usize] = val;
            self.sp = self.sp + 1;
            Ok(())
        } else {
            Err(VmError::StackOverflow)
        }
    }

    /// Pops a return address; popping an empty stack is a fatal underflow.
    fn pop(&mut self) -> (r: Result<u16, VmError>)
        requires
            old(self)@.wf(),
        ensures
            final(self)@.wf(),
            match r {
                Ok(addr) => old(self)@.sp >= 1 && addr == old(self)@.stack[old(self)@.sp - 1]
                    && final(self)@ == (StateV { sp: (old(self)@.sp - 1) as u16, ..old(self)@ }),
                Err(e) => e == VmError::StackUnderflow && old(self)@.sp == 0 && final(self)@
                    == old(self)@,
            },
    {
        if self.sp >= 1 {
            self.sp = self.sp - 1;
            Ok(self.stack[self.sp as usize])
        } else {
            Err(VmError::StackUnderflow)
        }
    }

    /// Reads the big-endian instruction word at the program counter and
    /// advances past it.  A word that would reach beyond memory is a fatal
    /// error and leaves the state untouched.
    fn fetch(&mut self) -> (r: Result<u16, VmError>)
        requires
            old(self)@.wf(),
        ensures
            final(self)@.wf(),
            match r {
                Ok(w) => old(self)@.pc + 1 < 4096 && w == spec_word(
                    old(self)@.ram[old(self)@.pc as int],
                    old(self)@.ram[old(self)@.pc as int + 1],
                ) && final(self)@ == fetched(old(self)@),
                Err(e) => e == VmError::MemOutOfBounds && old(self)@.pc + 1 >= 4096
                    && final(self)@ == old(self)@,
            },
    {
        let p = self.pc as usize;
        if p + 1 < RAM_SIZE {
            let hi = self.ram[p];
            let lo = self.ram[p + 1];
            self.pc = self.pc + 2;
            Ok(hi as u16 * 256 + lo as u16)
        } else {
            Err(VmError::MemOutOfBounds)
        }
    }

    /// The lowest pressed key index, or 16 if no key is pressed.
    fn first_pressed_key(&self) -> (r: usize)
        ensures
            r == first_pressed_from(self@.keys, 0),
            r <= 16,
    {
        let mut k: usize = 0;
        while k < NUM_KEYS
            invariant
                k <= 16,
                forall|j: int| 0 <= j < k ==> !self@.keys[j],
                first_pressed_from(self@.keys, k as int) == first_pressed_from(self@.keys, 0),
            decreases 16 - k,
        {
            if self.keys[k] {
                return k;
            }
            k += 1;
        }
        16
    }

    /// XOR-draws an `n`-row sprite read from memory at the index register
    /// at screen position `(Vx, Vy)`, wrapping coordinates, and sets `VF`
    /// to 1 exactly when a lit pixel was turned off.  A sprite that would
    /// be read beyond the end of memory is a fatal error.
    fn draw_sprite(&mut self, x: u8, y: u8, n: u8) -> (r: Result<(), VmError>)
        requires
            old(self)@.wf(),
            x < 16,
            y < 16,
            n < 16,
        ensures
            final(self)@.wf(),
            match r {
                Ok(()) => exec_spec(old(self)@, Instr::Draw { x, y, n }, 0) == Ok::<
                    StateV,
                    VmError,
                >(final(self)@),
                Err(e) => exec_spec(old(self)@, Instr::Draw { x, y, n }, 0) == Err::<
                    StateV,
                    VmError,
                >(e) && final(self)@ == old(self)@,
            },
    {
        if self.i_reg as usize + n as usize > RAM_SIZE {
            return Err(VmError::MemOutOfBounds);
        }
        let x0 = self.v_reg[x as usize];
        let y0 = self.v_reg[y as usize];
        let i0 = self.i_reg as usize;
        let ghost scr0 = self@.screen;
        let ghost ram0 = self@.ram;
        let mut flipped = false;
        let mut row: usize = 0;
        while row < n as usize
            invariant
                old(self)@.wf(),
                row <= n as usize,
                n < 16,
                i0 == old(self)@.i as usize,
                i0 + n <= 4096,
                x0 == old(self)@.v[x as int],
                y0 == old(self)@.v[y as int],
                scr0 == old(self)@.screen,
                ram0 == old(self)@.ram,
                self@.screen == apply_flips(
                    scr0,
                    sprite_positions(ram0, i0 as int, x0, y0, row as int),
                ),
                flipped == collide(scr0, sprite_positions(ram0, i0 as int, x0, y0, row as int)),
                self@.screen.len() == 2048,
                self@ == (StateV { screen: self@.screen, ..old(self)@ }),
            decreases n as usize - row,
        {
            let pixels = self.ram[i0 + row];
            let ghost rowbase = sprite_positions(ram0, i0 as int, x0, y0, row as int);
            let mut col: usize = 0;
            while col < 8
                invariant
                    old(self)@.wf(),
                    col <= 8,
                    row < n as usize,
                    n < 16,
                    i0 == old(self)@.i as usize,
                    i0 + n <= 4096,
                    x0 == old(self)@.v[x as int],
                    y0 == old(self)@.v[y as int],
                    scr0 == old(self)@.screen,
                    ram0 == old(self)@.ram,
                    pixels == ram0[i0 + row],
                    rowbase == sprite_positions(ram0, i0 as int, x0, y0, row as int),
                    self@.screen == apply_flips(
                        scr0,
                        rowbase + row_positions_upto(pixels, x0, y0, row as int, col as int),
                    ),
                    flipped == collide(
                        scr0,
                        rowbase + row_positions_upto(pixels, x0, y0, row as int, col as int),
                    ),
                    self@.screen.len() == 2048,
                    self@ == (StateV { screen: self@.screen, ..old(self)@ }),
                decreases 8 - col,
            {
                let ghost rp = row_positions_upto(pixels, x0, y0, row as int, col as int);
                let ghost q = rowbase + rp;
                if pixels & (0x80u8 >> (col as u8)) != 0 {
                    let px = (x0 as usize + col) % 64;
                    let py = (y0 as usize + row) % 32;
                    let idx = px + 64 * py;
                    let ghost pos = pixel_index(x0, y0, col as int, row as int);
                    proof {
                        assert(idx as int == pos);
                        assert(idx < 2048);
                        lemma_apply_flips_concat(scr0, q, seq![pos]);
                        lemma_collide_concat(scr0, q, seq![pos]);
                        lemma_apply_flips_one(apply_flips(scr0, q), pos);
                        assert(rowbase + row_positions_upto(
                            pixels,
                            x0,
                            y0,
                            row as int,
                            col as int + 1,
                        ) =~= q + seq![pos]);
                        assert(collide(scr0, q + seq![pos]) == (collide(scr0, q) || apply_flips(
                            scr0,
                            q,
                        )[pos]));
                    }
                    let cur = self.screen[idx];
                    flipped = flipped || cur;
                    self.screen[idx] = !cur;
                    proof {
                        assert(self@.screen =~= apply_flips(scr0, q + seq![pos]));
                    }
                } else {
                    proof {
                        assert(rowbase + row_positions_upto(
                            pixels,
                            x0,
                            y0,
                            row as int,
                            col as int + 1,
                        ) =~= q);
                    }
                }
                col += 1;
            }
            proof {
                assert(rowbase + row_positions_upto(pixels, x0, y0, row as int, 8)
                    == sprite_positions(ram0, i0 as int, x0, y0, row as int + 1));
            }
            row += 1;
        }
        let vf: u8 = if flipped {
            1
        } else {
            0
        };
        self.v_reg[NUM_REGS - 1] = vf;
        proof {
            assert(exec_spec(old(self)@, Instr::Draw { x, y, n }, 0) == Ok::<StateV, VmError>(
                self@,
            ));
        }
        Ok(())
    }

    /// Applies one decoded instruction to the post-fetch state, following
    /// [`exec_spec`] exactly; `b` is the random byte a `Rand` instruction
    /// consumes.  A failing instruction changes nothing.
    fn execute(&mut self, instr: Instr, b: u8) -> (r: Result<(), VmError>)
        requires
            old(self)@.wf(),
            instr_wf(instr),
            2 <= old(self)@.pc <= 4096,
        ensures
            final(self)@.wf(),
            match r {
                Ok(()) => exec_spec(old(self)@, instr, b) == Ok::<StateV, VmError>(final(self)@),
                Err(e) => exec_spec(old(self)@, instr, b) == Err::<StateV, VmError>(e)
                    && final(self)@ == old(self)@,
            },
    {
        match instr {
            Instr::Cls => {
                self.screen = [false; SCREEN_CELLS];
                proof {
                    assert(self@.screen =~= Seq::new(2048, |j: int| false));
                }
                Ok(())
            },
            Instr::Ret => {
                match self.pop() {
                    Ok(addr) => {
                        self.pc = addr;
                        Ok(())
                    },
                    Err(e) => Err(e),
                }
            },
            Instr::Jump { nnn } => {
                self.pc = nnn;
                Ok(())
            },
            Instr::Call { nnn } => {
                let pc0 = self.pc;
                match self.push(pc0) {
                    Ok(()) => {
                        self.pc = nnn;
                        Ok(())
                    },
                    Err(e) => Err(e),
                }
            },
            Instr::SkipEqImm { x, nn } => {
                if self.v_reg[x as usize] == nn {
                    self.pc = self.pc + 2;
                }
                Ok(())
            },
            Instr::SkipNeImm { x, nn } => {
                if self.v_reg[x as usize] != nn {
                    self.pc = self.pc + 2;
                }
                Ok(())
            },
            Instr::SkipEqReg { x, y } => {
                if self.v_reg[x as usize] == self.v_reg[y as usize] {
                    self.pc = self.pc + 2;
                }
                Ok(())
            },
            Instr::SetImm { x, nn } => {
                self.v_reg[x as usize] = nn;
                Ok(())
            },
            Instr::AddImm { x, nn } => {
                let sum = self.v_reg[x as usize] as u16 + nn as u16;
                self.v_reg[x as usize] = (sum % 256) as u8;
                Ok(())
            },
            Instr::MovReg { x, y } => {
                self.v_reg[x as usize] = self.v_reg[y as usize];
                Ok(())
            },
            Instr::OrReg { x, y } => {
                self.v_reg[x as usize] = self.v_reg[x as usize] | self.v_reg[y as usize];
                Ok(())
            },
            Instr::AndReg { x, y } => {
                self.v_reg[x as usize] = self.v_reg[x as usize] & self.v_reg[y as usize];
                Ok(())
            },
            Instr::XorReg { x, y } => {
                self.v_reg[x as usize] = self.v_reg[x as usize] ^ self.v_reg[y as usize];
                Ok(())
            },
            Instr::AddReg { x, y } => {
                let sum = self.v_reg[x as usize] as u16 + self.v_reg[y as usize] as u16;
                let vf: u8 = if sum > 255 {
                    1
                } else {
                    0
                };
                self.v_reg[x as usize] = (sum % 256) as u8;
                self.v_reg[NUM_REGS - 1] = vf;
                Ok(())
            },
            Instr::SubReg { x, y } => {
                let vx = self.v_reg[x as usize];
                let vy = self.v_reg[y as usize];
                if vx >= vy {
                    self.v_reg[x as usize] = vx - vy;
                    self.v_reg[NUM_REGS - 1] = 1;
                } else {
                    self.v_reg[x as usize] = (256 + vx as u16 - vy as u16) as u8;
                    self.v_reg[NUM_REGS - 1] = 0;
                }
                Ok(())
            },
            Instr::ShrReg { x } => {
                let vx = self.v_reg[x as usize];
                self.v_reg[x as usize] = vx >> 1u8;
                self.v_reg[NUM_REGS - 1] = vx & 1;
                Ok(())
            },
            Instr::SubFrom { x, y } => {
                let vx = self.v_reg[x as usize];
                let vy = self.v_reg[y as usize];
                if vy >= vx {
                    self.v_reg[x as usize] = vy - vx;
                    self.v_reg[NUM_REGS - 1] = 1;
                } else {
                    self.v_reg[x as usize] = (256 + vy as u16 - vx as u16) as u8;
                    self.v_reg[NUM_REGS - 1] = 0;
                }
                Ok(())
            },
            Instr::ShlReg { x } => {
                let vx = self.v_reg[x as usize];
                self.v_reg[x as usize] = vx << 1u8;
                self.v_reg[NUM_REGS - 1] = (vx >> 7u8) & 1;
                Ok(())
            },
            Instr::SkipNeReg { x, y } => {
                if self.v_reg[x as usize] != self.v_reg[y as usize] {
                    self.pc = self.pc + 2;
                }
                Ok(())
            },
            Instr::SetIndex { nnn } => {
                self.i_reg = nnn;
                Ok(())
            },
            Instr::JumpV0 { nnn } => {
                self.pc = self.v_reg[0] as u16 + nnn;
                Ok(())
            },
            Instr::Rand { x, nn } => {
                self.v_reg[x as usize] = b & nn;
                Ok(())
            },
            Instr::Draw { x, y, n } => {
                let r = self.draw_sprite(x, y, n);
                proof {
                    assert(exec_spec(old(self)@, instr, b) == exec_spec(old(self)@, instr, 0));
                }
                r
            },
            Instr::SkipKey { x } => {
                let vx = self.v_reg[x as usize];
                if vx < NUM_KEYS as u8 {
                    if self.keys[vx as usize] {
                        self.pc = self.pc + 2;
                    }
                    Ok(())
                } else {
                    Err(VmError::InvalidKey)
                }
            },
            Instr::SkipNoKey { x } => {
                let vx = self.v_reg[x as usize];
                if vx < NUM_KEYS as u8 {
                    if !self.keys[vx as usize] {
                        self.pc = self.pc + 2;
                    }
                    Ok(())
                } else {
                    Err(VmError::InvalidKey)
                }
            },
            Instr::GetDelay { x } => {
                self.v_reg[x as usize] = self.dt;
                Ok(())
            },
            Instr::WaitKey { x } => {
                let k = self.first_pressed_key();
                if k < NUM_KEYS {
                    self.v_reg[x as usize] = k as u8;
                } else {
                    self.pc = self.pc - 2;
                }
                Ok(())
            },
            Instr::SetDelay { x } => {
                self.dt = self.v_reg[x as usize];
                Ok(())
            },
            Instr::SetSound { x } => {
                self.st = self.v_reg[x as usize];
                Ok(())
            },
            Instr::AddIndex { x } => {
                let sum = self.i_reg as u32 + self.v_reg[x as usize] as u32;
                self.i_reg = (sum % 0x10000) as u16;
                Ok(())
            },
            Instr::FontChar { x } => {
                self.i_reg = self.v_reg[x as usize] as u16 * FONT_GLYPH_HEIGHT;
                Ok(())
            },
            Instr::Bcd { x } => {
                let i0 = self.i_reg as usize;
                if i0 + 2 < RAM_SIZE {
                    let vx = self.v_reg[x as usize];
                    self.ram[i0] = vx / 100;
                    self.ram[i0 + 1] = (vx / 10) % 10;
                    self.ram[i0 + 2] = vx % 10;
                    Ok(())
                } else {
                    Err(VmError::MemOutOfBounds)
                }
            },
            Instr::StoreRegs { x } => {
                let i0 = self.i_reg as usize;
                let xe = x as usize;
                if i0 + xe < RAM_SIZE {
                    let mut k: usize = 0;
                    while k <= xe
                        invariant
                            old(self)@.wf(),
                            x < 16,
                            xe == x as usize,
                            k <= xe + 1,
                            i0 == old(self)@.i as usize,
                            i0 + x < 4096,
                            forall|j: int|
                                i0 <= j < i0 + k ==> self@.ram[j] == old(self)@.v[j - i0],
                            forall|j: int|
                                (0 <= j < i0 || i0 + k <= j < 4096) ==> self@.ram[j]
                                    == old(self)@.ram[j],
                            self@ == (StateV { ram: self@.ram, ..old(self)@ }),
                        decreases xe + 1 - k,
                    {
                        self.ram[i0 + k] = self.v_reg[k];
                        k += 1;
                    }
                    proof {
                        assert(self@.ram =~= Seq::new(
                            4096,
                            |j: int|
                                if old(self)@.i <= j <= old(self)@.i + x {
                                    old(self)@.v[j - old(self)@.i]
                                } else {
                                    old(self)@.ram[j]
                                },
                        ));
                    }
                    Ok(())
                } else {
                    Err(VmError::MemOutOfBounds)
                }
            },
            Instr::LoadRegs { x } => {
                let i0 = self.i_reg as usize;
                let xe = x as usize;
                if i0 + xe < RAM_SIZE {
                    let mut k: usize = 0;
                    while k <= xe
                        invariant
                            old(self)@.wf(),
                            x < 16,
                            xe == x as usize,
                            k <= xe + 1,
                            i0 == old(self)@.i as usize,
                            i0 + x < 4096,
                            forall|j: int| 0 <= j < k ==> self@.v[j] == old(self)@.ram[i0 + j],
                            forall|j: int| k <= j < 16 ==> self@.v[j] == old(self)@.v[j],
                            self@ == (StateV { v: self@.v, ..old(self)@ }),
                        decreases xe + 1 - k,
                    {
                        self.v_reg[k] = self.ram[i0 + k];
                        k += 1;
                    }
                    proof {
                        assert(self@.v =~= Seq::new(
                            16,
                            |j: int|
                                if 0 <= j <= x {
                                    old(self)@.ram[old(self)@.i + j]
                                } else {
                                    old(self)@.v[j]
                                },
                        ));
                    }
                    Ok(())
                } else {
                    Err(VmError::MemOutOfBounds)
                }
            },
        }
    }

    /// One fetch/decode/execute cycle.  On success the new state is the
    /// [`tick_spec`] transition of the old one for some random byte; every
    /// failure leaves the state exactly as it was and is the failure
    /// [`tick_spec`] yields for every random byte.
    pub fn tick(&mut self) -> (r: Result<(), VmError>)
        requires
            old(self)@.wf(),
        ensures
            final(self)@.wf(),
            match r {
                Ok(()) => (exists|b: u8|
                    tick_spec(old(self)@, b) == Ok::<StateV, VmError>(final(self)@)) && tick_spec(
                    old(self)@,
                    0,
                ) is Ok,
                Err(e) => final(self)@ == old(self)@ && forall|b: u8|
                    tick_spec(old(self)@, b) == Err::<StateV, VmError>(e),
            },
    {
        let w = match self.fetch() {
            Ok(w) => w,
            Err(e) => {
                return Err(e);
            },
        };
        let instr = match decode(w) {
            Some(i) => i,
            None => {
                self.pc = self.pc - 2;
                proof {
                    assert(self@ =~= old(self)@);
                }
                return Err(VmError::UnknownOpcode { op: w, pc: self.pc });
            },
        };
        let b: u8 = match instr {
            Instr::Rand { .. } => rand::random::<u8>(),
            _ => 0,
        };
        match self.execute(instr, b) {
            Ok(()) => {
                proof {
                    assert(tick_spec(old(self)@, b) == Ok::<StateV, VmError>(self@));
                    assert(exists|bb: u8|
                        tick_spec(old(self)@, bb) == Ok::<StateV, VmError>(self@)) by {
                        assert(tick_spec(old(self)@, b) == Ok::<StateV, VmError>(self@));
                    }
                    lemma_tick_spec_err_rand_indep(old(self)@, 0, b);
                }
                Ok(())
            },
            Err(e) => {
                self.pc = self.pc - 2;
                proof {
                    assert(self@ =~= old(self)@);
                    assert(tick_spec(old(self)@, b) == Err::<StateV, VmError>(e));
                    assert forall|bb: u8|
                        tick_spec(old(self)@, bb) == Err::<StateV, VmError>(e) by {
                        lemma_tick_spec_err_rand_indep(old(self)@, b, bb);
                    }
                }
                Err(e)
            },
        }
    }
}

} // verus!
