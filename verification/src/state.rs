//! The mathematical model of the machine: its state as plain sequences and
//! integers, and the state that follows from executing one instruction.

use vstd::prelude::*;
use crate::keypad::{key_down, spec_first_pressed};
use crate::opcode::{spec_decode, Instruction};

verus! {

/// Why the machine stopped.
#[derive(Clone, Copy, Debug, PartialEq, Eq)]
pub enum FaultKind {
    /// An instruction, or its fetch, reached outside the 4096 bytes of memory.
    OutOfBounds,
    /// A call with sixteen return addresses already saved.
    StackOverflow,
    /// A return with no return address saved.
    StackUnderflow,
    /// An instruction word that matches no defined pattern.
    UnknownOpcode,
}

/// The text by which a fault of kind `kind` is announced.
pub open spec fn spec_message(kind: FaultKind) -> Seq<char> {
    match kind {
        FaultKind::OutOfBounds => "Memory Out Of Bounds"@,
        FaultKind::StackOverflow => "Stack Full"@,
        FaultKind::StackUnderflow => "Stack Empty"@,
        FaultKind::UnknownOpcode => "Not Support Instruction"@,
    }
}

impl FaultKind {
    /// The text by which this kind of fault is announced.
    pub fn message(&self) -> (text: &'static str)
        ensures
            text@ == spec_message(*self),
    {
        match self {
            FaultKind::OutOfBounds => "Memory Out Of Bounds",
            FaultKind::StackOverflow => "Stack Full",
            FaultKind::StackUnderflow => "Stack Empty",
            FaultKind::UnknownOpcode => "Not Support Instruction",
        }
    }
}

/// A fatal condition: its kind, the program counter at which it arose and the
/// two bytes found there, where both lie in memory.
#[derive(Clone, Copy, Debug, PartialEq, Eq)]
pub struct Fault {
    pub kind: FaultKind,
    pub pc: u16,
    pub opcode: Option<(u8, u8)>,
}

/// Where the per-cycle driver stands.
#[derive(Clone, Copy, Debug, PartialEq, Eq)]
pub enum Status {
    /// The next cycle fetches the instruction at the program counter.
    Running,
    /// A key-wait is pending for the register with this number.
    WaitingForKey(u8),
    /// A fatal condition arose; no further cycle changes anything.
    Halted(Fault),
}

/// The machine as a mathematical value.
pub struct State {
    /// The 4096 bytes of memory.
    pub mem: Seq<u8>,
    /// The registers `V0..VF`.
    pub v: Seq<u8>,
    /// The index register.
    pub i: u16,
    /// The delay timer.
    pub delay: u8,
    /// The sound timer.
    pub sound: u8,
    /// The program counter.
    pub pc: u16,
    /// The saved return addresses, the most recent one last.
    pub stack: Seq<u16>,
    /// The display, row by row: cell `(x, y)` is element `y * 64 + x`.
    pub pixels: Seq<bool>,
    /// The driver's state.
    pub status: Status,
    /// Whether loading registers from memory moves the index register past
    /// what was read. Programs differ in which of the two they expect; no
    /// instruction changes the choice.
    pub load_advances_index: bool,
}

impl State {
    /// The sizes are those of the machine, and a pending key-wait names a
    /// register and stands on an instruction that lies in memory.
    pub open spec fn wf(self) -> bool {
        &&& self.mem.len() == 4096
        &&& self.v.len() == 16
        &&& self.stack.len() <= 16
        &&& self.pixels.len() == 2048
        &&& (self.status matches Status::WaitingForKey(x) ==> x < 16 && self.pc + 1 < 4096)
    }

    /// Whether the instruction at the program counter lies in memory.
    pub open spec fn fetchable(self) -> bool {
        self.pc + 1 < 4096
    }
}

/// The state a freshly initialised machine is in: everything zero, the
/// display unlit, the program counter at `0x200`, and register loads moving
/// the index register.
pub open spec fn initial_state() -> State {
    State {
        mem: Seq::new(4096, |a: int| 0u8),
        v: Seq::new(16, |r: int| 0u8),
        i: 0,
        delay: 0,
        sound: 0,
        pc: 0x200,
        stack: Seq::empty(),
        pixels: Seq::new(2048, |p: int| false),
        status: Status::Running,
        load_advances_index: true,
    }
}

/// The two bytes at the program counter, where both lie in memory.
pub open spec fn opcode_at(s: State) -> Option<(u8, u8)> {
    if s.fetchable() {
        Some((s.mem[s.pc as int], s.mem[s.pc + 1]))
    } else {
        None
    }
}

/// `s`, stopped by a fault of kind `kind`; nothing else changes.
pub open spec fn halted(s: State, kind: FaultKind) -> State {
    State { status: Status::Halted(Fault { kind, pc: s.pc, opcode: opcode_at(s) }), ..s }
}

/// `s` with the program counter on the following instruction.
pub open spec fn next(s: State) -> State {
    State { pc: (s.pc + 2) as u16, ..s }
}

/// `s` with the program counter past the following instruction if `skip`
/// holds, else on it.
pub open spec fn skip_if(s: State, skip: bool) -> State {
    State {
        pc: (s.pc + if skip {
            4int
        } else {
            2int
        }) as u16,
        ..s
    }
}

/// `s` with register `x` holding `val`.
pub open spec fn set_v(s: State, x: u8, val: u8) -> State {
    State { v: s.v.update(x as int, val), ..s }
}

/// `s` with `VF` holding 1 if `flag` holds, else 0.
pub open spec fn set_flag(s: State, flag: bool) -> State {
    set_v(s, 0xF, flag_byte(flag))
}

/// 1 for a flag that is set, 0 for one that is not.
pub open spec fn flag_byte(flag: bool) -> u8 {
    if flag {
        1
    } else {
        0
    }
}

/// Whether bit `col` of a sprite row is set, counting from the most
/// significant bit, which is the leftmost pixel. A row has eight bits.
pub open spec fn spec_sprite_bit(row: u8, col: u8) -> bool {
    col < 8 && row & (0x80u8 >> col) != 0
}

/// Whether the sprite of `n` rows at memory `s.i`, drawn with its top left
/// corner at `(vx, vy)`, has a set bit on display cell `p`. The corner and
/// every cell of the sprite wrap around the edges of the display.
pub open spec fn sprite_covers(s: State, vx: u8, vy: u8, n: u8, p: int) -> bool {
    let row = (p / 64 - vy) % 32;
    let col = (p % 64 - vx) % 64;
    row < n && col < 8 && spec_sprite_bit(s.mem[s.i + row], col as u8)
}

/// Whether drawing that sprite turns off a cell that was lit.
pub open spec fn sprite_collides(s: State, vx: u8, vy: u8, n: u8) -> bool {
    exists|p: int| 0 <= p < 2048 && s.pixels[p] && #[trigger] sprite_covers(s, vx, vy, n, p)
}

/// The display after that sprite was drawn: each cell under a set bit flips.
pub open spec fn drawn_pixels(s: State, vx: u8, vy: u8, n: u8) -> Seq<bool> {
    Seq::new(2048, |p: int| s.pixels[p] != sprite_covers(s, vx, vy, n, p))
}

/// The state after `Dxyn`: a fault if the sprite's rows do not all lie in
/// memory, else the sprite drawn and `VF` telling whether it collided.
pub open spec fn spec_draw(s: State, x: u8, y: u8, n: u8) -> State {
    let vx = s.v[x as int];
    let vy = s.v[y as int];
    if n > 0 && s.i + n > 4096 {
        halted(s, FaultKind::OutOfBounds)
    } else {
        next(
            set_flag(
                State { pixels: drawn_pixels(s, vx, vy, n), ..s },
                sprite_collides(s, vx, vy, n),
            ),
        )
    }
}

/// The state after one look at the pad for a key-wait on register `x`: the
/// first key that is down is stored and the program goes on; with no key down
/// the wait stays pending and nothing else changes.
pub open spec fn spec_key_wait(s: State, x: u8, keys: Seq<bool>) -> State {
    match spec_first_pressed(keys) {
        Some(k) => next(set_v(State { status: Status::Running, ..s }, x, k)),
        None => State { status: Status::WaitingForKey(x), ..s },
    }
}

/// The index register after `Fx1E`: the sum, held at the largest value the
/// register can store where it would pass that.
pub open spec fn spec_add_index(i: u16, vx: u8) -> u16 {
    if i + vx > 0xFFFF {
        0xFFFFu16
    } else {
        (i + vx) as u16
    }
}

/// Memory after `Fx33` stored the decimal digits of `val` at `i`.
pub open spec fn spec_store_digits(mem: Seq<u8>, i: int, val: u8) -> Seq<u8> {
    mem.update(i, val / 100).update(i + 1, (val % 100) / 10).update(i + 2, val % 10)
}

/// Memory after `Fx55` stored `V0..=Vx` at `i`.
pub open spec fn spec_store_regs(mem: Seq<u8>, v: Seq<u8>, i: int, x: u8) -> Seq<u8> {
    Seq::new(
        4096,
        |a: int|
            if i <= a <= i + x {
                v[a - i]
            } else {
                mem[a]
            },
    )
}

/// The registers after `Fx65` loaded `V0..=Vx` from `i`.
pub open spec fn spec_load_regs(mem: Seq<u8>, v: Seq<u8>, i: int, x: u8) -> Seq<u8> {
    Seq::new(
        16,
        |r: int|
            if r <= x {
                mem[i + r]
            } else {
                v[r]
            },
    )
}

/// The index register after `Fx65` loaded `V0..=Vx`: past what was read
/// where `s` is set to move it, else where it was.
pub open spec fn spec_index_after_load(s: State, x: u8) -> u16 {
    if s.load_advances_index {
        (s.i + x + 1) as u16
    } else {
        s.i
    }
}

/// The state after the instruction `ins` was executed in `s`, with the pad
/// showing `keys` and the random source giving `random`.
pub open spec fn spec_execute(s: State, ins: Instruction, keys: Seq<bool>, random: u8) -> State {
    match ins {
        Instruction::Cls => next(State { pixels: Seq::new(2048, |p: int| false), ..s }),
        Instruction::Ret => if s.stack.len() == 0 {
            halted(s, FaultKind::StackUnderflow)
        } else {
            State { pc: s.stack.last(), stack: s.stack.drop_last(), ..s }
        },
        Instruction::Sys(a) => State { pc: a, ..s },
        Instruction::Jp(a) => State { pc: a, ..s },
        Instruction::Call(a) => if s.stack.len() >= 16 {
            halted(s, FaultKind::StackOverflow)
        } else {
            State { pc: a, stack: s.stack.push((s.pc + 2) as u16), ..s }
        },
        Instruction::SeByte(x, kk) => skip_if(s, s.v[x as int] == kk),
        Instruction::SneByte(x, kk) => skip_if(s, s.v[x as int] != kk),
        Instruction::SeReg(x, y) => skip_if(s, s.v[x as int] == s.v[y as int]),
        Instruction::LdByte(x, kk) => next(set_v(s, x, kk)),
        Instruction::AddByte(x, kk) => next(set_v(s, x, ((s.v[x as int] + kk) % 256) as u8)),
        Instruction::LdReg(x, y) => next(set_v(s, x, s.v[y as int])),
        Instruction::Or(x, y) => next(set_v(s, x, s.v[x as int] | s.v[y as int])),
        Instruction::And(x, y) => next(set_v(s, x, s.v[x as int] & s.v[y as int])),
        Instruction::Xor(x, y) => next(set_v(s, x, s.v[x as int] ^ s.v[y as int])),
        Instruction::AddReg(x, y) => {
            let sum = s.v[x as int] + s.v[y as int];
            next(set_flag(set_v(s, x, (sum % 256) as u8), sum > 255))
        },
        Instruction::Sub(x, y) => {
            let vx = s.v[x as int];
            let vy = s.v[y as int];
            next(set_flag(set_v(s, x, ((vx - vy) % 256) as u8), vx > vy))
        },
        Instruction::Shr(x, y) => {
            let vx = s.v[x as int];
            next(set_flag(set_v(s, x, vx / 2), vx % 2 == 1))
        },
        Instruction::Subn(x, y) => {
            let vx = s.v[x as int];
            let vy = s.v[y as int];
            if vy > vx {
                next(set_flag(set_v(s, x, (vy - vx) as u8), true))
            } else {
                next(set_flag(s, false))
            }
        },
        Instruction::Shl(x, y) => {
            let vx = s.v[x as int];
            next(set_flag(set_v(s, x, ((vx * 2) % 256) as u8), vx >= 128))
        },
        Instruction::SneReg(x, y) => skip_if(s, s.v[x as int] != s.v[y as int]),
        Instruction::LdI(a) => next(State { i: a, ..s }),
        Instruction::JpV0(a) => State { pc: (a + s.v[0]) as u16, ..s },
        Instruction::Rnd(x, kk) => next(set_v(s, x, random & kk)),
        Instruction::Drw(x, y, n) => spec_draw(s, x, y, n),
        Instruction::Skp(x) => skip_if(s, key_down(keys, s.v[x as int])),
        Instruction::Sknp(x) => skip_if(s, !key_down(keys, s.v[x as int])),
        Instruction::LdVxDt(x) => next(set_v(s, x, s.delay)),
        Instruction::LdVxK(x) => spec_key_wait(s, x, keys),
        Instruction::LdDtVx(x) => next(State { delay: s.v[x as int], ..s }),
        Instruction::LdStVx(x) => next(State { sound: s.v[x as int], ..s }),
        Instruction::AddI(x) => next(State { i: spec_add_index(s.i, s.v[x as int]), ..s }),
        Instruction::LdF(x) => next(State { i: (s.v[x as int] * 5) as u16, ..s }),
        Instruction::LdB(x) => if s.i + 2 >= 4096 {
            halted(s, FaultKind::OutOfBounds)
        } else {
            next(State { mem: spec_store_digits(s.mem, s.i as int, s.v[x as int]), ..s })
        },
        Instruction::StoreRegs(x) => if s.i + x >= 4096 {
            halted(s, FaultKind::OutOfBounds)
        } else {
            next(State { mem: spec_store_regs(s.mem, s.v, s.i as int, x), ..s })
        },
        Instruction::LoadRegs(x) => if s.i + x >= 4096 {
            halted(s, FaultKind::OutOfBounds)
        } else {
            next(
                State {
                    v: spec_load_regs(s.mem, s.v, s.i as int, x),
                    i: spec_index_after_load(s, x),
                    ..s
                },
            )
        },
    }
}

/// The state after one cycle in `s`. A halted machine stays as it is; a
/// pending key-wait looks at the pad again; a running machine fetches the
/// word at the program counter, faults if it does not lie in memory or
/// encodes nothing, and else executes it.
pub open spec fn spec_step(s: State, keys: Seq<bool>, random: u8) -> State {
    match s.status {
        Status::Halted(_) => s,
        Status::WaitingForKey(x) => spec_key_wait(s, x, keys),
        Status::Running => if !s.fetchable() {
            halted(s, FaultKind::OutOfBounds)
        } else {
            match spec_decode(s.mem[s.pc as int], s.mem[s.pc + 1]) {
                None => halted(s, FaultKind::UnknownOpcode),
                Some(ins) => spec_execute(s, ins, keys, random),
            }
        },
    }
}

/// A timer after `ticks` ticks of the 60 Hz clock: it counts down and stops
/// at zero.
pub open spec fn spec_count_down(timer: u8, ticks: nat) -> u8 {
    if ticks >= timer {
        0
    } else {
        (timer - ticks) as u8
    }
}

/// `s` after `ticks` ticks of the 60 Hz clock: both timers count down,
/// nothing else changes.
pub open spec fn spec_tick(s: State, ticks: nat) -> State {
    State {
        delay: spec_count_down(s.delay, ticks),
        sound: spec_count_down(s.sound, ticks),
        ..s
    }
}

} // verus!
