//! The machine itself: its state in fixed-size storage, and the
//! fetch-decode-execute cycle over it.

use vstd::prelude::*;
use crate::entropy::random_byte;
use crate::keypad::Keypad;
use crate::opcode::{decode, spec_decode, Instruction};
use crate::state::{
    drawn_pixels, halted, initial_state, next, opcode_at, set_flag, set_v, skip_if,
    spec_add_index, spec_count_down, spec_execute, spec_index_after_load, spec_key_wait,
    spec_load_regs, spec_sprite_bit, spec_step, spec_store_digits, spec_store_regs, spec_tick,
    sprite_collides, sprite_covers, Fault, FaultKind, State, Status,
};

verus! {

/// The number of bytes of memory.
pub const MEMORY_SIZE: usize = 4096;

/// The address at which a program image starts.
pub const PROGRAM_START: u16 = 0x200;

/// The number of return addresses the call stack holds.
pub const STACKSIZE: usize = 16;

/// The width of the display in cells.
pub const XSIZE: usize = 64;

/// The height of the display in cells.
pub const YSIZE: usize = 32;

/// The side of the square that stands for one display cell on the host's
/// surface, in the surface's pixels.
pub const CELLSIZE: usize = 12;

/// Why a program image was not loaded.
#[derive(Clone, Copy, Debug, PartialEq, Eq)]
pub enum LoadError {
    /// The image does not fit between its start address and the end of memory.
    TooLarge,
}

/// One display cell as the host paints it: a square on the host's surface,
/// and whether it is lit.
#[derive(Clone, Copy, Debug, PartialEq, Eq)]
pub struct CellRect {
    pub x: i32,
    pub y: i32,
    pub width: u32,
    pub height: u32,
    pub lit: bool,
}

/// The registers as they are reported for diagnosis.
#[derive(Clone, Copy, Debug, PartialEq, Eq)]
pub struct RegisterReport {
    /// The program counter.
    pub pc: u16,
    /// The two bytes at the program counter, where both lie in memory.
    pub opcode: Option<(u8, u8)>,
    /// The registers `V0..VF`.
    pub reg_v: [u8; 16],
    /// The index register.
    pub reg_i: u16,
    /// The delay timer.
    pub reg_delay_timer: u8,
    /// The number of saved return addresses.
    pub stack_p: usize,
    /// The stack's slots: the first `stack_p` hold the saved return
    /// addresses, the oldest first; the others are zero.
    pub stack: [u16; 16],
}

/// The square that stands for display cell `p`, counted row by row.
pub open spec fn spec_cell_rect(p: int, lit: bool) -> CellRect {
    CellRect { x: ((p % 64) * 12) as i32, y: ((p / 64) * 12) as i32, width: 12, height: 12, lit }
}

/// Memory after `image` was copied to `at` and the addresses that follow.
pub open spec fn spec_load(mem: Seq<u8>, at: int, image: Seq<u8>) -> Seq<u8> {
    Seq::new(
        4096,
        |a: int|
            if at <= a < at + image.len() {
                image[a - at]
            } else {
                mem[a]
            },
    )
}

/// Whether the coming cycle executes the random instruction.
pub open spec fn spec_wants_random(s: State) -> bool {
    s.status is Running && s.fetchable() && spec_decode(
        s.mem[s.pc as int],
        s.mem[s.pc + 1],
    ) matches Some(Instruction::Rnd(_, _))
}

/// Whether the sprite has a set bit on cell `p` in one of its first `rows`
/// rows, or in row `rows` left of column `cols`.
spec fn covers_before(s: State, vx: u8, vy: u8, n: u8, p: int, rows: int, cols: int) -> bool {
    let row = (p / 64 - vy) % 32;
    let col = (p % 64 - vx) % 64;
    sprite_covers(s, vx, vy, n, p) && (row < rows || (row == rows && col < cols))
}

/// A timer after `ticks` ticks: it counts down and stops at zero.
pub fn count_down(timer: u8, ticks: u32) -> (left: u8)
    ensures
        left == spec_count_down(timer, ticks as nat),
{
    if ticks >= timer as u32 {
        0
    } else {
        timer - ticks as u8
    }
}

/// Whether bit `col` of a sprite row is set, counting from the leftmost
/// pixel. A row has eight bits; past them none is set.
pub fn sprite_bit(row: u8, col: u8) -> (set: bool)
    ensures
        set == spec_sprite_bit(row, col),
{
    col < 8 && row & (0x80u8 >> col) != 0
}

/// The CHIP-8 machine.
#[derive(Clone, Debug)]
pub struct Chip8 {
    mem: [u8; 4096],
    reg_v: [u8; 16],
    reg_i: u16,
    reg_delay_timer: u8,
    reg_sound_timer: u8,
    pc: u16,
    stack: [u16; 16],
    stack_p: usize,
    vram: [bool; 2048],
    status: Status,
    load_advances_index: bool,
}

impl View for Chip8 {
    type V = State;

    closed spec fn view(&self) -> State {
        State {
            mem: self.mem@,
            v: self.reg_v@,
            i: self.reg_i,
            delay: self.reg_delay_timer,
            sound: self.reg_sound_timer,
            pc: self.pc,
            stack: self.stack@.take(self.stack_p as int),
            pixels: self.vram@,
            status: self.status,
            load_advances_index: self.load_advances_index,
        }
    }
}

impl Chip8 {
    /// The storage is consistent: the stack pointer lies within the stack,
    /// and the state it stands for is well formed.
    pub closed spec fn wf(&self) -> bool {
        &&& self.stack_p <= 16
        &&& self@.wf()
    }

    /// A well-formed machine stands for a well-formed state.
    pub proof fn lemma_wf(&self)
        requires
            self.wf(),
        ensures
            self@.wf(),
    {
    }

    /// A machine in its initial state: memory, registers, timers and stack
    /// zero, the display unlit, the program counter at `0x200`, running,
    /// and register loads moving the index register.
    pub fn new() -> (chip8: Chip8)
        ensures
            chip8.wf(),
            chip8@ == initial_state(),
    {
        let chip8 = Chip8 {
            mem: [0u8; 4096],
            reg_v: [0u8; 16],
            reg_i: 0,
            reg_delay_timer: 0,
            reg_sound_timer: 0,
            pc: 0x200,
            stack: [0u16; 16],
            stack_p: 0,
            vram: [false; 2048],
            status: Status::Running,
            load_advances_index: true,
        };
        assert(chip8@.mem =~= initial_state().mem);
        assert(chip8@.v =~= initial_state().v);
        assert(chip8@.stack =~= initial_state().stack);
        assert(chip8@.pixels =~= initial_state().pixels);
        chip8
    }

    /// Sets whether loading registers from memory moves the index register
    /// past what was read (`true`, as a new machine has it) or leaves it.
    pub fn set_load_advances_index(&mut self, advances: bool)
        requires
            old(self).wf(),
        ensures
            final(self).wf(),
            final(self)@ == (State { load_advances_index: advances, ..old(self)@ }),
    {
        self.load_advances_index = advances;
    }

    /// Whether loading registers from memory moves the index register.
    pub fn load_advances_index(&self) -> (advances: bool)
        ensures
            advances == self@.load_advances_index,
    {
        self.load_advances_index
    }

    /// The program counter.
    pub fn pc(&self) -> (pc: u16)
        ensures
            pc == self@.pc,
    {
        self.pc
    }

    /// The index register.
    pub fn index(&self) -> (i: u16)
        ensures
            i == self@.i,
    {
        self.reg_i
    }

    /// The delay timer.
    pub fn delay_timer(&self) -> (t: u8)
        ensures
            t == self@.delay,
    {
        self.reg_delay_timer
    }

    /// The sound timer; the host sounds its tone while this is not zero.
    pub fn sound_timer(&self) -> (t: u8)
        ensures
            t == self@.sound,
    {
        self.reg_sound_timer
    }

    /// The driver's state.
    pub fn status(&self) -> (status: Status)
        ensures
            status == self@.status,
    {
        self.status
    }

    /// Whether a key-wait is pending.
    pub fn wait_for_key(&self) -> (waiting: bool)
        ensures
            waiting == (self@.status is WaitingForKey),
    {
        match self.status {
            Status::WaitingForKey(_) => true,
            _ => false,
        }
    }

    /// The fault that halted the machine, if one did.
    pub fn fault(&self) -> (fault: Option<Fault>)
        ensures
            fault == (match self@.status {
                Status::Halted(f) => Some(f),
                _ => None,
            }),
    {
        match self.status {
            Status::Halted(f) => Some(f),
            _ => None,
        }
    }

    /// The number of return addresses on the call stack.
    pub fn stack_depth(&self) -> (depth: usize)
        requires
            self.wf(),
        ensures
            depth == self@.stack.len(),
    {
        self.stack_p
    }

    /// Register `Vx`, or `None` where `x` names no register.
    pub fn register(&self, x: u8) -> (val: Option<u8>)
        ensures
            val == (if x < 16 {
                Some(self@.v[x as int])
            } else {
                None
            }),
    {
        if x < 16 {
            Some(self.reg_v[x as usize])
        } else {
            None
        }
    }

    /// The byte at `addr`, or `None` where `addr` lies outside memory.
    pub fn memory(&self, addr: u16) -> (val: Option<u8>)
        ensures
            val == (if addr < 4096 {
                Some(self@.mem[addr as int])
            } else {
                None
            }),
    {
        if addr < 4096 {
            Some(self.mem[addr as usize])
        } else {
            None
        }
    }

    /// Whether the display cell in column `x` of row `y` is lit. Coordinates
    /// wrap around the edges of the display.
    pub fn pixel(&self, x: usize, y: usize) -> (lit: bool)
        ensures
            lit == self@.pixels[(y % 32) * 64 + x % 64],
    {
        self.vram[(y % 32) * 64 + x % 64]
    }

    /// The fault of kind `kind` as it is reported at this point: with the
    /// program counter and the two bytes found there.
    pub fn error_mes(&self, kind: FaultKind) -> (fault: Fault)
        ensures
            fault == (Fault { kind, pc: self@.pc, opcode: opcode_at(self@) }),
    {
        let opcode = if self.pc < 4095 {
            Some((self.mem[self.pc as usize], self.mem[self.pc as usize + 1]))
        } else {
            None
        };
        Fault { kind, pc: self.pc, opcode }
    }

    fn halt(&mut self, kind: FaultKind)
        requires
            old(self).wf(),
        ensures
            final(self).wf(),
            final(self)@ == halted(old(self)@, kind),
    {
        self.status = Status::Halted(self.error_mes(kind));
    }

    fn advance(&mut self)
        requires
            old(self).wf(),
            old(self)@.fetchable(),
            !(old(self)@.status is WaitingForKey),
        ensures
            final(self).wf(),
            final(self)@ == next(old(self)@),
    {
        self.pc = self.pc + 2;
    }

    fn skip(&mut self, skip: bool)
        requires
            old(self).wf(),
            old(self)@.fetchable(),
            !(old(self)@.status is WaitingForKey),
        ensures
            final(self).wf(),
            final(self)@ == skip_if(old(self)@, skip),
    {
        if skip {
            self.pc = self.pc + 4;
        } else {
            self.pc = self.pc + 2;
        }
    }

    fn jump(&mut self, target: u16)
        requires
            old(self).wf(),
            !(old(self)@.status is WaitingForKey),
        ensures
            final(self).wf(),
            final(self)@ == (State { pc: target, ..old(self)@ }),
    {
        self.pc = target;
    }

    fn set_reg(&mut self, x: u8, val: u8)
        requires
            old(self).wf(),
            x < 16,
        ensures
            final(self).wf(),
            final(self)@ == set_v(old(self)@, x, val),
    {
        self.reg_v[x as usize] = val;
    }

    fn set_vf(&mut self, flag: bool)
        requires
            old(self).wf(),
        ensures
            final(self).wf(),
            final(self)@ == set_flag(old(self)@, flag),
    {
        self.reg_v[0xF] = if flag {
            1
        } else {
            0
        };
    }

    fn reg(&self, x: u8) -> (val: u8)
        requires
            x < 16,
        ensures
            val == self@.v[x as int],
    {
        self.reg_v[x as usize]
    }

    fn call(&mut self, target: u16)
        requires
            old(self).wf(),
            old(self)@.fetchable(),
            !(old(self)@.status is WaitingForKey),
        ensures
            final(self).wf(),
            final(self)@ == spec_execute(old(self)@, Instruction::Call(target), seq![], 0),
    {
        if self.stack_p >= 16 {
            self.halt(FaultKind::StackOverflow);
        } else {
            self.stack[self.stack_p] = self.pc + 2;
            self.stack_p = self.stack_p + 1;
            self.pc = target;
            assert(self@.stack =~= old(self)@.stack.push((old(self)@.pc + 2) as u16));
        }
    }

    fn ret(&mut self)
        requires
            old(self).wf(),
            !(old(self)@.status is WaitingForKey),
        ensures
            final(self).wf(),
            final(self)@ == spec_execute(old(self)@, Instruction::Ret, seq![], 0),
    {
        if self.stack_p == 0 {
            self.halt(FaultKind::StackUnderflow);
        } else {
            self.pc = self.stack[self.stack_p - 1];
            self.stack_p = self.stack_p - 1;
            assert(self@.stack =~= old(self)@.stack.drop_last());
        }
    }

    fn clear(&mut self)
        requires
            old(self).wf(),
        ensures
            final(self).wf(),
            final(self)@ == (State { pixels: Seq::new(2048, |p: int| false), ..old(self)@ }),
    {
        self.vram = [false; 2048];
        assert(self@.pixels =~= Seq::new(2048, |p: int| false));
    }

    fn store_digits(&mut self, val: u8)
        requires
            old(self).wf(),
            old(self)@.i + 2 < 4096,
        ensures
            final(self).wf(),
            final(self)@ == (State {
                mem: spec_store_digits(old(self)@.mem, old(self)@.i as int, val),
                ..old(self)@
            }),
    {
        let addr = self.reg_i as usize;
        self.mem[addr] = val / 100;
        self.mem[addr + 1] = (val % 100) / 10;
        self.mem[addr + 2] = val % 10;
    }

    fn store_regs(&mut self, x: u8)
        requires
            old(self).wf(),
            x < 16,
            old(self)@.i + x < 4096,
        ensures
            final(self).wf(),
            final(self)@ == (State {
                mem: spec_store_regs(old(self)@.mem, old(self)@.v, old(self)@.i as int, x),
                ..old(self)@
            }),
    {
        let base = self.reg_i as usize;
        let count = x as usize + 1;
        let ghost s0 = self@;
        let mut r: usize = 0;
        while r < count
            invariant
                r <= count,
                count == x + 1,
                x < 16,
                base == s0.i,
                base + x < 4096,
                self.wf(),
                self@ == (State { mem: self@.mem, ..s0 }),
                forall|a: int|
                    0 <= a < 4096 ==> self@.mem[a] == (if base <= a < base + r {
                        s0.v[a - base]
                    } else {
                        s0.mem[a]
                    }),
            decreases count - r,
        {
            self.mem[base + r] = self.reg_v[r];
            r += 1;
        }
        assert(self@.mem =~= spec_store_regs(s0.mem, s0.v, s0.i as int, x));
    }

    fn load_regs(&mut self, x: u8)
        requires
            old(self).wf(),
            x < 16,
            old(self)@.i + x < 4096,
        ensures
            final(self).wf(),
            final(self)@ == (State {
                v: spec_load_regs(old(self)@.mem, old(self)@.v, old(self)@.i as int, x),
                i: spec_index_after_load(old(self)@, x),
                ..old(self)@
            }),
    {
        let base = self.reg_i as usize;
        let count = x as usize + 1;
        let ghost s0 = self@;
        let mut r: usize = 0;
        while r < count
            invariant
                r <= count,
                count == x + 1,
                x < 16,
                base == s0.i,
                base + x < 4096,
                self.wf(),
                self@ == (State { v: self@.v, ..s0 }),
                forall|k: int|
                    0 <= k < 16 ==> self@.v[k] == (if k < r {
                        s0.mem[base + k]
                    } else {
                        s0.v[k]
                    }),
            decreases count - r,
        {
            self.reg_v[r] = self.mem[base + r];
            r += 1;
        }
        if self.load_advances_index {
            self.reg_i = self.reg_i + x as u16 + 1;
        }
        assert(self@.v =~= spec_load_regs(s0.mem, s0.v, s0.i as int, x));
    }

    fn add_index(&mut self, vx: u8)
        requires
            old(self).wf(),
        ensures
            final(self).wf(),
            final(self)@ == (State { i: spec_add_index(old(self)@.i, vx), ..old(self)@ }),
    {
        if self.reg_i > 0xFFFF - vx as u16 {
            self.reg_i = 0xFFFF;
        } else {
            self.reg_i = self.reg_i + vx as u16;
        }
    }

    fn set_index(&mut self, i: u16)
        requires
            old(self).wf(),
        ensures
            final(self).wf(),
            final(self)@ == (State { i, ..old(self)@ }),
    {
        self.reg_i = i;
    }

    fn set_delay(&mut self, val: u8)
        requires
            old(self).wf(),
        ensures
            final(self).wf(),
            final(self)@ == (State { delay: val, ..old(self)@ }),
    {
        self.reg_delay_timer = val;
    }

    fn set_sound(&mut self, val: u8)
        requires
            old(self).wf(),
        ensures
            final(self).wf(),
            final(self)@ == (State { sound: val, ..old(self)@ }),
    {
        self.reg_sound_timer = val;
    }

    fn key_wait(&mut self, x: u8, keys: &Keypad)
        requires
            old(self).wf(),
            x < 16,
            old(self)@.fetchable(),
        ensures
            final(self).wf(),
            final(self)@ == spec_key_wait(old(self)@, x, keys@),
    {
        match keys.first_pressed() {
            Some(k) => {
                self.status = Status::Running;
                self.set_reg(x, k);
                self.advance();
            },
            None => {
                self.status = Status::WaitingForKey(x);
            },
        }
    }

    #[verifier::rlimit(60)]
    fn draw_sprite(&mut self, vx: u8, vy: u8, n: u8) -> (hit: bool)
        requires
            old(self).wf(),
            n < 16,
            n == 0 || old(self)@.i + n <= 4096,
        ensures
            final(self).wf(),
            final(self)@ == (State {
                pixels: drawn_pixels(old(self)@, vx, vy, n),
                ..old(self)@
            }),
            hit == sprite_collides(old(self)@, vx, vy, n),
    {
        let ghost s0 = self@;
        let base = self.reg_i as usize;
        let mut hit = false;
        let mut row: usize = 0;
        while row < n as usize
            invariant
                row <= n < 16,
                n == 0 || base + n <= 4096,
                base == s0.i,
                s0 == old(self)@,
                s0.wf(),
                self.wf(),
                self@ == (State { pixels: self@.pixels, ..s0 }),
                forall|p: int|
                    0 <= p < 2048 ==> self@.pixels[p] == (s0.pixels[p] != covers_before(
                        s0,
                        vx,
                        vy,
                        n,
                        p,
                        row as int,
                        0,
                    )),
                hit == (exists|p: int|
                    0 <= p < 2048 && s0.pixels[p] && #[trigger] covers_before(
                        s0,
                        vx,
                        vy,
                        n,
                        p,
                        row as int,
                        0,
                    )),
            decreases n - row,
        {
            let byte = self.mem[base + row];
            let y = (vy as usize + row) % 32;
            let mut col: usize = 0;
            while col < 8
                invariant
                    col <= 8,
                    row < n < 16,
                    base + n <= 4096,
                    base == s0.i,
                    byte == s0.mem[base + row],
                    y == (vy + row) % 32,
                    s0.wf(),
                    self.wf(),
                    self@ == (State { pixels: self@.pixels, ..s0 }),
                    forall|p: int|
                        0 <= p < 2048 ==> self@.pixels[p] == (s0.pixels[p] != covers_before(
                            s0,
                            vx,
                            vy,
                            n,
                            p,
                            row as int,
                            col as int,
                        )),
                    hit == (exists|p: int|
                        0 <= p < 2048 && s0.pixels[p] && #[trigger] covers_before(
                            s0,
                            vx,
                            vy,
                            n,
                            p,
                            row as int,
                            col as int,
                        )),
                decreases 8 - col,
            {
                let x = (vx as usize + col) % 64;
                let cell = y * 64 + x;
                let bit = sprite_bit(byte, col as u8);
                let lit = self.vram[cell];
                let ghost before = self@.pixels;
                let ghost hit_before = hit;
                proof {
                    assert(cell / 64 == y && cell % 64 == x);
                    assert((y - vy) % 32 == row);
                    assert((x - vx) % 64 == col);
                    assert(!covers_before(s0, vx, vy, n, cell as int, row as int, col as int));
                    assert(lit == s0.pixels[cell as int]);
                    assert(covers_before(s0, vx, vy, n, cell as int, row as int, col + 1) == bit);
                    assert forall|p: int| 0 <= p < 2048 && p != cell implies covers_before(
                        s0,
                        vx,
                        vy,
                        n,
                        p,
                        row as int,
                        col + 1,
                    ) == covers_before(s0, vx, vy, n, p, row as int, col as int) by {
                        if (p / 64 - vy) % 32 == row && (p % 64 - vx) % 64 == col {
                            assert(p / 64 == y);
                            assert(p % 64 == x);
                        }
                    }
                }
                if bit && lit {
                    hit = true;
                }
                self.vram[cell] = lit != bit;
                col += 1;
                proof {
                    if hit {
                        if hit_before {
                            let w = choose|p: int|
                                0 <= p < 2048 && s0.pixels[p] && #[trigger] covers_before(
                                    s0,
                                    vx,
                                    vy,
                                    n,
                                    p,
                                    row as int,
                                    col - 1,
                                );
                            assert(covers_before(s0, vx, vy, n, w, row as int, col as int));
                        } else {
                            assert(covers_before(s0, vx, vy, n, cell as int, row as int, col as int));
                        }
                    }
                }
            }
            row += 1;
            proof {
                assert forall|p: int| 0 <= p < 2048 implies #[trigger] covers_before(
                    s0,
                    vx,
                    vy,
                    n,
                    p,
                    row as int,
                    0,
                ) == covers_before(s0, vx, vy, n, p, row - 1, 8) by {}
                if hit {
                    let w = choose|p: int|
                        0 <= p < 2048 && s0.pixels[p] && #[trigger] covers_before(
                            s0,
                            vx,
                            vy,
                            n,
                            p,
                            row - 1,
                            8,
                        );
                    assert(covers_before(s0, vx, vy, n, w, row as int, 0));
                }
            }
        }
        proof {
            assert forall|p: int| 0 <= p < 2048 implies covers_before(
                s0,
                vx,
                vy,
                n,
                p,
                n as int,
                0,
            ) == sprite_covers(s0, vx, vy, n, p) by {}
            assert(self@.pixels =~= drawn_pixels(s0, vx, vy, n));
        }
        hit
    }

    /// Whether `ins` loads a register from a byte, a register, the random
    /// source or the delay timer, or computes on registers.
    spec fn is_alu(ins: Instruction) -> bool {
        match ins {
            Instruction::LdByte(_, _)
            | Instruction::AddByte(_, _)
            | Instruction::LdReg(_, _)
            | Instruction::Or(_, _)
            | Instruction::And(_, _)
            | Instruction::Xor(_, _)
            | Instruction::AddReg(_, _)
            | Instruction::Sub(_, _)
            | Instruction::Shr(_, _)
            | Instruction::Subn(_, _)
            | Instruction::Shl(_, _)
            | Instruction::Rnd(_, _)
            | Instruction::LdVxDt(_) => true,
            _ => false,
        }
    }

    #[verifier::rlimit(60)]
    fn exec_alu(&mut self, ins: Instruction, keys: &Keypad, random: u8)
        requires
            old(self).wf(),
            ins.wf(),
            Self::is_alu(ins),
            old(self)@.status is Running,
            old(self)@.fetchable(),
        ensures
            final(self).wf(),
            final(self)@ == spec_execute(old(self)@, ins, keys@, random),
    {
        match ins {
            Instruction::LdByte(x, kk) => {
                self.set_reg(x, kk);
                self.advance();
            },
            Instruction::AddByte(x, kk) => {
                let vx = self.reg(x);
                self.set_reg(x, ((vx as u16 + kk as u16) % 256) as u8);
                self.advance();
            },
            Instruction::LdReg(x, y) => {
                let vy = self.reg(y);
                self.set_reg(x, vy);
                self.advance();
            },
            Instruction::Or(x, y) => {
                let vx = self.reg(x);
                let vy = self.reg(y);
                self.set_reg(x, vx | vy);
                self.advance();
            },
            Instruction::And(x, y) => {
                let vx = self.reg(x);
                let vy = self.reg(y);
                self.set_reg(x, vx & vy);
                self.advance();
            },
            Instruction::Xor(x, y) => {
                let vx = self.reg(x);
                let vy = self.reg(y);
                self.set_reg(x, vx ^ vy);
                self.advance();
            },
            Instruction::AddReg(x, y) => {
                let sum: u16 = self.reg(x) as u16 + self.reg(y) as u16;
                self.set_reg(x, (sum % 256) as u8);
                self.set_vf(sum > 255);
                self.advance();
            },
            Instruction::Sub(x, y) => {
                let vx = self.reg(x);
                let vy = self.reg(y);
                self.set_reg(x, ((vx as u16 + 256 - vy as u16) % 256) as u8);
                self.set_vf(vx > vy);
                self.advance();
            },
            Instruction::Shr(x, _y) => {
                let vx = self.reg(x);
                self.set_reg(x, vx / 2);
                self.set_vf(vx % 2 == 1);
                self.advance();
            },
            Instruction::Subn(x, y) => {
                let vx = self.reg(x);
                let vy = self.reg(y);
                if vy > vx {
                    self.set_reg(x, vy - vx);
                    self.set_vf(true);
                } else {
                    self.set_vf(false);
                }
                self.advance();
            },
            Instruction::Shl(x, _y) => {
                let vx = self.reg(x);
                self.set_reg(x, ((vx as u16 * 2) % 256) as u8);
                self.set_vf(vx >= 128);
                self.advance();
            },
            Instruction::Rnd(x, kk) => {
                self.set_reg(x, random & kk);
                self.advance();
            },
            Instruction::LdVxDt(x) => {
                self.set_reg(x, self.reg_delay_timer);
                self.advance();
            },
            _ => {},
        }
    }

    /// Whether `ins` jumps, calls, returns, skips or waits for a key.
    spec fn is_flow(ins: Instruction) -> bool {
        match ins {
            Instruction::Ret
            | Instruction::Sys(_)
            | Instruction::Jp(_)
            | Instruction::Call(_)
            | Instruction::SeByte(_, _)
            | Instruction::SneByte(_, _)
            | Instruction::SeReg(_, _)
            | Instruction::SneReg(_, _)
            | Instruction::JpV0(_)
            | Instruction::Skp(_)
            | Instruction::Sknp(_)
            | Instruction::LdVxK(_) => true,
            _ => false,
        }
    }

    #[verifier::rlimit(60)]
    fn exec_flow(&mut self, ins: Instruction, keys: &Keypad, random: u8)
        requires
            old(self).wf(),
            ins.wf(),
            Self::is_flow(ins),
            old(self)@.status is Running,
            old(self)@.fetchable(),
        ensures
            final(self).wf(),
            final(self)@ == spec_execute(old(self)@, ins, keys@, random),
    {
        match ins {
            Instruction::Ret => {
                self.ret();
            },
            Instruction::Sys(a) => {
                self.jump(a);
            },
            Instruction::Jp(a) => {
                self.jump(a);
            },
            Instruction::Call(a) => {
                self.call(a);
            },
            Instruction::SeByte(x, kk) => {
                let vx = self.reg(x);
                self.skip(vx == kk);
            },
            Instruction::SneByte(x, kk) => {
                let vx = self.reg(x);
                self.skip(vx != kk);
            },
            Instruction::SeReg(x, y) => {
                let vx = self.reg(x);
                let vy = self.reg(y);
                self.skip(vx == vy);
            },
            Instruction::SneReg(x, y) => {
                let vx = self.reg(x);
                let vy = self.reg(y);
                self.skip(vx != vy);
            },
            Instruction::JpV0(a) => {
                let v0 = self.reg(0);
                self.jump(a + v0 as u16);
            },
            Instruction::Skp(x) => {
                let vx = self.reg(x);
                self.skip(keys.is_pressed(vx));
            },
            Instruction::Sknp(x) => {
                let vx = self.reg(x);
                self.skip(!keys.is_pressed(vx));
            },
            Instruction::LdVxK(x) => {
                self.key_wait(x, keys);
            },
            _ => {},
        }
    }

    /// Whether `ins` works on the display, the index register, the timers
    /// or memory.
    spec fn is_mem(ins: Instruction) -> bool {
        match ins {
            Instruction::Cls
            | Instruction::LdI(_)
            | Instruction::Drw(_, _, _)
            | Instruction::LdDtVx(_)
            | Instruction::LdStVx(_)
            | Instruction::AddI(_)
            | Instruction::LdF(_)
            | Instruction::LdB(_)
            | Instruction::StoreRegs(_)
            | Instruction::LoadRegs(_) => true,
            _ => false,
        }
    }

    #[verifier::rlimit(60)]
    fn exec_mem(&mut self, ins: Instruction, keys: &Keypad, random: u8)
        requires
            old(self).wf(),
            ins.wf(),
            Self::is_mem(ins),
            old(self)@.status is Running,
            old(self)@.fetchable(),
        ensures
            final(self).wf(),
            final(self)@ == spec_execute(old(self)@, ins, keys@, random),
    {
        match ins {
            Instruction::Cls => {
                self.clear();
                self.advance();
            },
            Instruction::LdI(a) => {
                self.set_index(a);
                self.advance();
            },
            Instruction::Drw(x, y, n) => {
                let vx = self.reg(x);
                let vy = self.reg(y);
                if n > 0 && self.reg_i as usize + n as usize > 4096 {
                    self.halt(FaultKind::OutOfBounds);
                } else {
                    let hit = self.draw_sprite(vx, vy, n);
                    self.set_vf(hit);
                    self.advance();
                }
            },
            Instruction::LdDtVx(x) => {
                let vx = self.reg(x);
                self.set_delay(vx);
                self.advance();
            },
            Instruction::LdStVx(x) => {
                let vx = self.reg(x);
                self.set_sound(vx);
                self.advance();
            },
            Instruction::AddI(x) => {
                let vx = self.reg(x);
                self.add_index(vx);
                self.advance();
            },
            Instruction::LdF(x) => {
                let vx = self.reg(x);
                self.set_index(vx as u16 * 5);
                self.advance();
            },
            Instruction::LdB(x) => {
                let vx = self.reg(x);
                if self.reg_i >= 4094 {
                    self.halt(FaultKind::OutOfBounds);
                } else {
                    self.store_digits(vx);
                    self.advance();
                }
            },
            Instruction::StoreRegs(x) => {
                if self.reg_i as usize + x as usize >= 4096 {
                    self.halt(FaultKind::OutOfBounds);
                } else {
                    self.store_regs(x);
                    self.advance();
                }
            },
            Instruction::LoadRegs(x) => {
                if self.reg_i as usize + x as usize >= 4096 {
                    self.halt(FaultKind::OutOfBounds);
                } else {
                    self.load_regs(x);
                    self.advance();
                }
            },
            _ => {},
        }
    }

    fn execute(&mut self, ins: Instruction, keys: &Keypad, random: u8)
        requires
            old(self).wf(),
            ins.wf(),
            old(self)@.status is Running,
            old(self)@.fetchable(),
        ensures
            final(self).wf(),
            final(self)@ == spec_execute(old(self)@, ins, keys@, random),
    {
        match ins {
            Instruction::LdByte(_, _)
            | Instruction::AddByte(_, _)
            | Instruction::LdReg(_, _)
            | Instruction::Or(_, _)
            | Instruction::And(_, _)
            | Instruction::Xor(_, _)
            | Instruction::AddReg(_, _)
            | Instruction::Sub(_, _)
            | Instruction::Shr(_, _)
            | Instruction::Subn(_, _)
            | Instruction::Shl(_, _)
            | Instruction::Rnd(_, _)
            | Instruction::LdVxDt(_) => {
                self.exec_alu(ins, keys, random);
            },
            Instruction::Ret
            | Instruction::Sys(_)
            | Instruction::Jp(_)
            | Instruction::Call(_)
            | Instruction::SeByte(_, _)
            | Instruction::SneByte(_, _)
            | Instruction::SeReg(_, _)
            | Instruction::SneReg(_, _)
            | Instruction::JpV0(_)
            | Instruction::Skp(_)
            | Instruction::Sknp(_)
            | Instruction::LdVxK(_) => {
                self.exec_flow(ins, keys, random);
            },
            _ => {
                self.exec_mem(ins, keys, random);
            },
        }
    }

    /// One cycle, with the pad showing `keys` and the random source giving
    /// `random`. A halted machine stays as it is. A pending key-wait looks
    /// at the pad again. A running machine fetches the two bytes at the
    /// program counter and executes the instruction they encode; where they
    /// lie outside memory or encode nothing, where a call finds the stack
    /// full or a return finds it empty, or where the instruction reaches
    /// outside memory, the machine halts with that fault and is otherwise
    /// unchanged.
    pub fn step_with(&mut self, keys: &Keypad, random: u8)
        requires
            old(self).wf(),
        ensures
            final(self).wf(),
            final(self)@ == spec_step(old(self)@, keys@, random),
    {
        match self.status {
            Status::Halted(_) => {},
            Status::WaitingForKey(x) => {
                self.key_wait(x, keys);
            },
            Status::Running => {
                if self.pc >= 4095 {
                    self.halt(FaultKind::OutOfBounds);
                } else {
                    let hi = self.mem[self.pc as usize];
                    let lo = self.mem[self.pc as usize + 1];
                    match decode(hi, lo) {
                        None => {
                            self.halt(FaultKind::UnknownOpcode);
                        },
                        Some(ins) => {
                            self.execute(ins, keys, random);
                        },
                    }
                }
            },
        }
    }

    /// Lets `ticks` ticks of the 60 Hz clock pass: each timer counts down
    /// by `ticks` and stops at zero. Nothing else changes.
    pub fn tick(&mut self, ticks: u32)
        requires
            old(self).wf(),
        ensures
            final(self).wf(),
            final(self)@ == spec_tick(old(self)@, ticks as nat),
    {
        self.reg_delay_timer = count_down(self.reg_delay_timer, ticks);
        self.reg_sound_timer = count_down(self.reg_sound_timer, ticks);
    }

    /// Whether the coming cycle executes the random instruction.
    pub fn wants_random(&self) -> (wanted: bool)
        ensures
            wanted == spec_wants_random(self@),
    {
        match self.status {
            Status::Running => self.pc < 4095 && self.mem[self.pc as usize] / 16 == 0xC,
            _ => false,
        }
    }

    /// One cycle, with the pad showing `keys`. Where the cycle executes the
    /// random instruction, the byte comes from the thread's random number
    /// generator, and the state is the one that follows for some byte;
    /// every other cycle is determined by the state and the pad.
    pub fn cycle(&mut self, keys: &Keypad)
        requires
            old(self).wf(),
        ensures
            final(self).wf(),
            exists|random: u8| final(self)@ == spec_step(old(self)@, keys@, random),
            !spec_wants_random(old(self)@) ==> final(self)@ == spec_step(old(self)@, keys@, 0),
    {
        let random = if self.wants_random() {
            random_byte()
        } else {
            0
        };
        self.step_with(keys, random);
    }

    /// Copies `image` into memory from address `at` on. An image that does
    /// not fit between `at` and the end of memory is refused, and memory
    /// stays as it was.
    pub fn load_at(&mut self, at: u16, image: &[u8]) -> (loaded: Result<(), LoadError>)
        requires
            old(self).wf(),
        ensures
            final(self).wf(),
            at + image@.len() <= 4096 ==> loaded is Ok && final(self)@ == (State {
                mem: spec_load(old(self)@.mem, at as int, image@),
                ..old(self)@
            }),
            at + image@.len() > 4096 ==> loaded == Err::<(), LoadError>(LoadError::TooLarge)
                && final(self)@ == old(self)@,
    {
        let base = at as usize;
        let len = image.len();
        if base > 4096 || len > 4096 - base {
            return Err(LoadError::TooLarge);
        }
        let ghost s0 = self@;
        let mut k: usize = 0;
        while k < len
            invariant
                k <= len,
                len == image@.len(),
                base + len <= 4096,
                self.wf(),
                self@ == (State { mem: self@.mem, ..s0 }),
                forall|a: int|
                    0 <= a < 4096 ==> self@.mem[a] == (if base <= a < base + k {
                        image@[a - base]
                    } else {
                        s0.mem[a]
                    }),
            decreases len - k,
        {
            self.mem[base + k] = image[k];
            k += 1;
        }
        assert(self@.mem =~= spec_load(s0.mem, at as int, image@));
        Ok(())
    }

    /// Copies the program image `image` into memory from `0x200` on. An
    /// image of more than `4096 - 0x200` bytes is refused, and memory stays
    /// as it was.
    pub fn read_rom(&mut self, image: &[u8]) -> (loaded: Result<(), LoadError>)
        requires
            old(self).wf(),
        ensures
            final(self).wf(),
            image@.len() <= 4096 - 0x200 ==> loaded is Ok && final(self)@ == (State {
                mem: spec_load(old(self)@.mem, 0x200, image@),
                ..old(self)@
            }),
            image@.len() > 4096 - 0x200 ==> loaded == Err::<(), LoadError>(LoadError::TooLarge)
                && final(self)@ == old(self)@,
    {
        self.load_at(PROGRAM_START, image)
    }

    /// The display as the host paints it: one square for each cell, row by
    /// row, `CELLSIZE` wide and high, with the cell's state.
    pub fn draw(&self) -> (cells: Vec<CellRect>)
        ensures
            cells@.len() == 2048,
            forall|p: int| 0 <= p < 2048 ==> cells@[p] == spec_cell_rect(p, self@.pixels[p]),
    {
        let mut cells: Vec<CellRect> = Vec::with_capacity(XSIZE * YSIZE);
        let mut yy: usize = 0;
        while yy < YSIZE
            invariant
                yy <= 32,
                cells@.len() == yy * 64,
                forall|p: int|
                    0 <= p < yy * 64 ==> cells@[p] == spec_cell_rect(p, self@.pixels[p]),
            decreases 32 - yy,
        {
            let mut xx: usize = 0;
            while xx < XSIZE
                invariant
                    xx <= 64,
                    yy < 32,
                    cells@.len() == yy * 64 + xx,
                    forall|p: int|
                        0 <= p < yy * 64 + xx ==> cells@[p] == spec_cell_rect(
                            p,
                            self@.pixels[p],
                        ),
                decreases 64 - xx,
            {
                cells.push(
                    CellRect {
                        x: (xx * CELLSIZE) as i32,
                        y: (yy * CELLSIZE) as i32,
                        width: CELLSIZE as u32,
                        height: CELLSIZE as u32,
                        lit: self.vram[yy * 64 + xx],
                    },
                );
                xx += 1;
            }
            yy += 1;
        }
        cells
    }

    /// The registers, the instruction at the program counter and the stack,
    /// as they are reported for diagnosis. The stack's unused slots are
    /// reported as zero.
    pub fn report_reg(&self) -> (report: RegisterReport)
        requires
            self.wf(),
        ensures
            report.pc == self@.pc,
            report.opcode == opcode_at(self@),
            report.reg_v@ == self@.v,
            report.reg_i == self@.i,
            report.reg_delay_timer == self@.delay,
            report.stack_p == self@.stack.len(),
            report.stack@ == self@.stack + Seq::new(
                (16 - self@.stack.len()) as nat,
                |k: int| 0u16,
            ),
    {
        let mut stack = [0u16; 16];
        let mut k: usize = 0;
        while k < self.stack_p
            invariant
                k <= self.stack_p <= 16,
                forall|j: int|
                    0 <= j < 16 ==> stack@[j] == (if j < k {
                        self.stack@[j]
                    } else {
                        0u16
                    }),
            decreases self.stack_p - k,
        {
            stack[k] = self.stack[k];
            k += 1;
        }
        assert(stack@ =~= self@.stack + Seq::new((16 - self@.stack.len()) as nat, |k: int| 0u16));
        let fault = self.error_mes(FaultKind::OutOfBounds);
        RegisterReport {
            pc: self.pc,
            opcode: fault.opcode,
            reg_v: self.reg_v,
            reg_i: self.reg_i,
            reg_delay_timer: self.reg_delay_timer,
            stack_p: self.stack_p,
            stack,
        }
    }
}

} // verus!
