//! What holds of the instruction set as a whole, proved from the model.

use vstd::prelude::*;
use crate::keypad::{lemma_first_pressed, spec_first_pressed};
use crate::opcode::{lemma_decode_wf, spec_decode, Instruction};
use crate::state::{
    drawn_pixels, flag_byte, halted, set_v, spec_count_down, spec_execute, spec_sprite_bit,
    spec_step, sprite_collides, sprite_covers, Fault, FaultKind, State, Status,
};
use crate::timer::{spec_pending_after, spec_ticks_due};

verus! {

/// A cycle of a running machine whose program counter stands on the
/// encoding of `ins` is the execution of `ins`.
pub proof fn lemma_step_executes(s: State, ins: Instruction, keys: Seq<bool>, random: u8)
    requires
        s.status is Running,
        s.fetchable(),
        spec_decode(s.mem[s.pc as int], s.mem[s.pc + 1]) == Some(ins),
    ensures
        spec_step(s, keys, random) == spec_execute(s, ins, keys, random),
{
}

/// The bit that an arithmetic instruction with a flag leaves in `VF`: the
/// carry of an addition, "no borrow" of a subtraction, the bit shifted out
/// of a shift.
pub open spec fn spec_flag_of(s: State, ins: Instruction) -> bool {
    match ins {
        Instruction::AddReg(x, y) => s.v[x as int] + s.v[y as int] > 255,
        Instruction::Sub(x, y) => s.v[x as int] > s.v[y as int],
        Instruction::Subn(x, y) => s.v[y as int] > s.v[x as int],
        Instruction::Shr(x, _) => s.v[x as int] % 2 == 1,
        Instruction::Shl(x, _) => s.v[x as int] >= 128,
        _ => false,
    }
}

/// Whether `ins` is an arithmetic instruction that sets the flag.
pub open spec fn has_flag(ins: Instruction) -> bool {
    ins is AddReg || ins is Sub || ins is Subn || ins is Shr || ins is Shl
}

/// After an arithmetic instruction with a flag, `VF` holds exactly that
/// flag, also where `VF` is the destination register.
pub proof fn lemma_flag_exact(s: State, ins: Instruction, keys: Seq<bool>, random: u8)
    requires
        s.wf(),
        ins.wf(),
        has_flag(ins),
    ensures
        spec_execute(s, ins, keys, random).v[0xF] == flag_byte(spec_flag_of(s, ins)),
{
}

/// The flag that an arithmetic instruction leaves does not depend on what
/// `VF` held before, unless `VF` is one of its operands.
pub proof fn lemma_flag_ignores_old_flag(
    s: State,
    before: u8,
    ins: Instruction,
    keys: Seq<bool>,
    random: u8,
)
    requires
        s.wf(),
        ins.wf(),
        match ins {
            Instruction::AddReg(x, y) | Instruction::Sub(x, y) | Instruction::Subn(x, y) => x
                != 0xF && y != 0xF,
            Instruction::Shr(x, _) | Instruction::Shl(x, _) => x != 0xF,
            _ => false,
        },
    ensures
        spec_execute(set_v(s, 0xF, before), ins, keys, random).v[0xF] == spec_execute(
            s,
            ins,
            keys,
            random,
        ).v[0xF],
{
}

/// After the display was cleared it has 64 x 32 cells and none is lit.
pub proof fn lemma_clear_unlit(s: State, keys: Seq<bool>, random: u8)
    requires
        s.wf(),
    ensures
        spec_execute(s, Instruction::Cls, keys, random).pixels.len() == 64 * 32,
        forall|p: int|
            0 <= p < 64 * 32 ==> !spec_execute(s, Instruction::Cls, keys, random).pixels[p],
{
}

/// Drawing the same sprite twice at the same place gives back the display
/// as it was, and the second draw reports a collision exactly when the
/// sprite has a set bit on a cell that was unlit before the first draw,
/// that is, on a cell that the first draw lit. The coordinate registers must
/// not be `VF`, which the first draw overwrites.
pub proof fn lemma_draw_twice(s: State, x: u8, y: u8, n: u8, keys: Seq<bool>, random: u8)
    requires
        s.wf(),
        x < 0xF,
        y < 0xF,
        n < 16,
        n == 0 || s.i + n <= 4096,
    ensures
        ({
            let once = spec_execute(s, Instruction::Drw(x, y, n), keys, random);
            let twice = spec_execute(once, Instruction::Drw(x, y, n), keys, random);
            &&& twice.pixels == s.pixels
            &&& twice.v[0xF] == flag_byte(
                exists|p: int|
                    0 <= p < 2048 && !s.pixels[p] && #[trigger] sprite_covers(
                        s,
                        s.v[x as int],
                        s.v[y as int],
                        n,
                        p,
                    ),
            )
        }),
{
    let vx = s.v[x as int];
    let vy = s.v[y as int];
    let once = spec_execute(s, Instruction::Drw(x, y, n), keys, random);
    let twice = spec_execute(once, Instruction::Drw(x, y, n), keys, random);
    assert(once.v[x as int] == vx && once.v[y as int] == vy);
    assert(once.pixels == drawn_pixels(s, vx, vy, n));
    assert forall|p: int| 0 <= p < 2048 implies sprite_covers(once, vx, vy, n, p)
        == sprite_covers(s, vx, vy, n, p) by {}
    assert(twice.pixels =~= s.pixels);
    let lit_by_first = exists|p: int|
        0 <= p < 2048 && !s.pixels[p] && #[trigger] sprite_covers(s, vx, vy, n, p);
    if sprite_collides(once, vx, vy, n) {
        let w = choose|p: int|
            0 <= p < 2048 && once.pixels[p] && #[trigger] sprite_covers(once, vx, vy, n, p);
        assert(sprite_covers(s, vx, vy, n, w));
        assert(!s.pixels[w]);
    }
    if lit_by_first {
        let w = choose|p: int|
            0 <= p < 2048 && !s.pixels[p] && #[trigger] sprite_covers(s, vx, vy, n, p);
        assert(sprite_covers(once, vx, vy, n, w));
        assert(once.pixels[w]);
    }
}

/// A sprite cell that would fall past the right or the bottom edge lands on
/// the opposite edge: the sprite's bit `col` of row `row` covers the cell in
/// column `(vx + col) mod 64` of row `(vy + row) mod 32`.
pub proof fn lemma_draw_wraps(s: State, vx: u8, vy: u8, n: u8, row: int, col: int)
    requires
        s.wf(),
        0 <= row < n < 16,
        0 <= col < 8,
    ensures
        sprite_covers(s, vx, vy, n, ((vy + row) % 32) * 64 + (vx + col) % 64)
            == spec_sprite_bit(s.mem[s.i + row], col as u8),
{
    let cell = ((vy + row) % 32) * 64 + (vx + col) % 64;
    assert(cell / 64 == (vy + row) % 32 && cell % 64 == (vx + col) % 64);
    assert((cell / 64 - vy) % 32 == row);
    assert((cell % 64 - vx) % 64 == col);
}

/// A call followed by a return leaves the program counter on the
/// instruction after the call, and the stack as it was.
pub proof fn lemma_call_then_return(s: State, target: u16, keys: Seq<bool>, random: u8)
    requires
        s.wf(),
        s.status is Running,
        s.fetchable(),
        s.stack.len() < 16,
    ensures
        ({
            let called = spec_execute(s, Instruction::Call(target), keys, random);
            let back = spec_execute(called, Instruction::Ret, keys, random);
            &&& called.pc == target
            &&& called.stack.len() == s.stack.len() + 1
            &&& back.pc == s.pc + 2
            &&& back.stack == s.stack
            &&& back.status is Running
        }),
{
    let called = spec_execute(s, Instruction::Call(target), keys, random);
    let back = spec_execute(called, Instruction::Ret, keys, random);
    assert(back.stack =~= s.stack);
}

/// A call with sixteen return addresses saved halts the machine with a
/// stack overflow and changes nothing else; a return with none saved halts
/// it with a stack underflow.
pub proof fn lemma_stack_faults(s: State, target: u16, keys: Seq<bool>, random: u8)
    requires
        s.wf(),
    ensures
        s.stack.len() == 16 ==> spec_execute(s, Instruction::Call(target), keys, random)
            == halted(s, FaultKind::StackOverflow),
        s.stack.len() == 0 ==> spec_execute(s, Instruction::Ret, keys, random) == halted(
            s,
            FaultKind::StackUnderflow,
        ),
{
}

/// The program counter at which the call number `k` of a chain of nested
/// calls stands: the first where the machine is, each later one at the
/// target of the call before it.
pub open spec fn spec_call_pc(s: State, targets: Seq<u16>, k: int) -> u16 {
    if k <= 0 {
        s.pc
    } else {
        targets[k - 1]
    }
}

/// The state after nested calls to each of `targets`, one from within the
/// other.
pub open spec fn spec_calls(s: State, targets: Seq<u16>) -> State
    decreases targets.len(),
{
    if targets.len() == 0 {
        s
    } else {
        spec_execute(
            spec_calls(s, targets.drop_last()),
            Instruction::Call(targets.last()),
            Seq::empty(),
            0,
        )
    }
}

/// The state after `n` returns.
pub open spec fn spec_returns(s: State, n: nat) -> State
    decreases n,
{
    if n == 0 {
        s
    } else {
        spec_execute(spec_returns(s, (n - 1) as nat), Instruction::Ret, Seq::empty(), 0)
    }
}

/// The stack after the first `k` calls of a chain of nested calls.
pub open spec fn spec_stack_after(s: State, targets: Seq<u16>, k: int) -> Seq<u16> {
    s.stack + Seq::new(k as nat, |i: int| (spec_call_pc(s, targets, i) + 2) as u16)
}

/// After the first `k` calls of a chain that the stack has room for, the
/// machine stands at the last target with one return address saved for each
/// call, and nothing else has changed.
pub proof fn lemma_nested_calls(s: State, targets: Seq<u16>, k: int)
    requires
        s.wf(),
        0 <= k <= targets.len(),
        s.stack.len() + targets.len() <= 16,
    ensures
        spec_calls(s, targets.take(k)) == (State {
            pc: spec_call_pc(s, targets, k),
            stack: spec_stack_after(s, targets, k),
            ..s
        }),
    decreases k,
{
    if k == 0 {
        assert(spec_stack_after(s, targets, 0) =~= s.stack);
    } else {
        lemma_nested_calls(s, targets, k - 1);
        assert(targets.take(k).drop_last() =~= targets.take(k - 1));
        assert(spec_stack_after(s, targets, k) =~= spec_stack_after(s, targets, k - 1).push(
            (spec_call_pc(s, targets, k - 1) + 2) as u16,
        ));
    }
}

/// Out of a chain of nested calls that the stack has room for, which is
/// any chain of up to sixteen calls on an empty stack, return number `j`
/// leaves the program counter on the instruction after the call that it
/// returns from, with the stack as that call found it and nothing else
/// changed. After as many returns as calls the machine is where it was, two
/// bytes on.
pub proof fn lemma_nested_returns(s: State, targets: Seq<u16>, j: int)
    requires
        s.wf(),
        1 <= j <= targets.len(),
        s.stack.len() + targets.len() <= 16,
    ensures
        spec_returns(spec_calls(s, targets), j as nat) == (State {
            pc: (spec_call_pc(s, targets, targets.len() - j) + 2) as u16,
            stack: spec_stack_after(s, targets, targets.len() - j),
            ..s
        }),
    decreases j,
{
    let len = targets.len() as int;
    assert(targets.take(len) =~= targets);
    let k = len - j;
    assert(spec_stack_after(s, targets, k + 1).drop_last() =~= spec_stack_after(s, targets, k));
    assert(spec_stack_after(s, targets, k + 1).last() == (spec_call_pc(s, targets, k) + 2) as u16);
    if j == 1 {
        lemma_nested_calls(s, targets, len);
        assert(spec_returns(spec_calls(s, targets), 0) == spec_calls(s, targets));
    } else {
        lemma_nested_returns(s, targets, j - 1);
    }
}

/// A timer that is not zero loses one with each tick; one that is zero
/// stays zero whatever time passes; and no timer ever grows.
pub proof fn lemma_count_down(timer: u8, ticks: nat)
    ensures
        timer > 0 ==> spec_count_down(timer, 1) == timer - 1,
        spec_count_down(0, ticks) == 0,
        spec_count_down(timer, 0) == timer,
        spec_count_down(timer, ticks) <= timer,
        spec_count_down(spec_count_down(timer, ticks), 1) == spec_count_down(timer, ticks + 1),
{
}

/// Time that adds up to exactly one period of the clock makes exactly one
/// tick due and leaves gathered what was gathered before.
pub proof fn lemma_one_period(pending: nat)
    requires
        pending < 16_667,
    ensures
        spec_ticks_due(pending, 16_667) == 1,
        spec_pending_after(pending, 16_667) == pending,
        forall|micros: nat| pending + micros < 16_667 ==> spec_ticks_due(pending, micros) == 0,
{
}

/// Executing an instruction leads from a well-formed state to a
/// well-formed state.
pub proof fn lemma_execute_keeps_wf(s: State, ins: Instruction, keys: Seq<bool>, random: u8)
    requires
        s.wf(),
        ins.wf(),
        s.status is Running,
        s.fetchable(),
        keys.len() == 16,
    ensures
        spec_execute(s, ins, keys, random).wf(),
{
    let after = spec_execute(s, ins, keys, random);
    match ins {
        Instruction::Cls | Instruction::Drw(_, _, _) => {
            assert(after.wf());
        },
        Instruction::Ret | Instruction::Call(_) | Instruction::Sys(_) | Instruction::Jp(_)
        | Instruction::JpV0(_) => {
            assert(after.wf());
        },
        Instruction::SeByte(_, _) | Instruction::SneByte(_, _) | Instruction::SeReg(_, _)
        | Instruction::SneReg(_, _) | Instruction::Skp(_) | Instruction::Sknp(_) => {
            assert(after.wf());
        },
        Instruction::LdByte(_, _) | Instruction::AddByte(_, _) | Instruction::LdReg(_, _)
        | Instruction::Or(_, _) | Instruction::And(_, _) | Instruction::Xor(_, _)
        | Instruction::Rnd(_, _) | Instruction::LdVxDt(_) => {
            assert(after.wf());
        },
        Instruction::AddReg(_, _) | Instruction::Sub(_, _) | Instruction::Subn(_, _)
        | Instruction::Shr(_, _) | Instruction::Shl(_, _) => {
            assert(after.wf());
        },
        Instruction::LdVxK(_) => {
            lemma_first_pressed(keys);
            assert(after.wf());
        },
        Instruction::LdI(_) | Instruction::LdDtVx(_) | Instruction::LdStVx(_)
        | Instruction::AddI(_) | Instruction::LdF(_) => {
            assert(after.wf());
        },
        Instruction::LdB(_) | Instruction::StoreRegs(_) | Instruction::LoadRegs(_) => {
            assert(after.wf());
        },
    }
}

/// A cycle leads from a well-formed state to a well-formed state: memory,
/// registers and display keep their sizes, the stack never holds more than
/// sixteen return addresses, and a pending key-wait names a register.
pub proof fn lemma_step_keeps_wf(s: State, keys: Seq<bool>, random: u8)
    requires
        s.wf(),
        keys.len() == 16,
    ensures
        spec_step(s, keys, random).wf(),
{
    match s.status {
        Status::Halted(_) => {},
        Status::WaitingForKey(_) => {
            lemma_first_pressed(keys);
        },
        Status::Running => {
            if s.fetchable() {
                let hi = s.mem[s.pc as int];
                let lo = s.mem[s.pc + 1];
                lemma_decode_wf(hi, lo);
                match spec_decode(hi, lo) {
                    Some(ins) => {
                        lemma_execute_keeps_wf(s, ins, keys, random);
                    },
                    None => {},
                }
            }
        },
    }
}

/// While a key-wait is pending and no key is down, a cycle changes nothing:
/// the program counter does not advance and no instruction executes.
pub proof fn lemma_key_wait_holds(s: State, keys: Seq<bool>, random: u8)
    requires
        s.wf(),
        s.status is WaitingForKey,
        keys.len() == 16,
        forall|k: int| 0 <= k < 16 ==> !keys[k],
    ensures
        spec_step(s, keys, random) == s,
{
    lemma_first_pressed(keys);
}

/// A running machine that meets the key-wait instruction with no key down
/// enters the wait without advancing the program counter.
pub proof fn lemma_key_wait_begins(s: State, x: u8, keys: Seq<bool>, random: u8)
    requires
        s.wf(),
        keys.len() == 16,
        forall|k: int| 0 <= k < 16 ==> !keys[k],
    ensures
        spec_execute(s, Instruction::LdVxK(x), keys, random) == (State {
            status: Status::WaitingForKey(x),
            ..s
        }),
{
    lemma_first_pressed(keys);
}

/// Once a key is down, the cycle that sees it ends a pending key-wait: the
/// register receives the index of a key that is down, the program counter
/// moves to the next instruction, and the machine runs again.
pub proof fn lemma_key_wait_captures(s: State, x: u8, keys: Seq<bool>, random: u8)
    requires
        s.wf(),
        s.status == Status::WaitingForKey(x),
        keys.len() == 16,
        exists|k: int| 0 <= k < 16 && keys[k],
    ensures
        ({
            let after = spec_step(s, keys, random);
            &&& after.status is Running
            &&& after.pc == s.pc + 2
            &&& spec_first_pressed(keys) == Some(after.v[x as int])
            &&& after.v[x as int] < 16
            &&& keys[after.v[x as int] as int]
            &&& after == (State {
                status: after.status,
                pc: after.pc,
                v: s.v.update(x as int, after.v[x as int]),
                ..s
            })
        }),
{
    lemma_first_pressed(keys);
    let after = spec_step(s, keys, random);
    assert(after.v =~= s.v.update(x as int, after.v[x as int]));
}

/// A word that encodes no instruction halts a running machine, and the
/// fault reports the program counter and the word found there.
pub proof fn lemma_unknown_opcode_halts(s: State, keys: Seq<bool>, random: u8)
    requires
        s.wf(),
        s.status is Running,
        s.fetchable(),
        spec_decode(s.mem[s.pc as int], s.mem[s.pc + 1]) is None,
    ensures
        spec_step(s, keys, random) == (State {
            status: Status::Halted(
                Fault {
                    kind: FaultKind::UnknownOpcode,
                    pc: s.pc,
                    opcode: Some((s.mem[s.pc as int], s.mem[s.pc + 1])),
                },
            ),
            ..s
        }),
{
}

/// A halted machine stays halted: no further cycle changes anything.
pub proof fn lemma_halted_is_terminal(s: State, keys: Seq<bool>, random: u8)
    requires
        s.status is Halted,
    ensures
        spec_step(s, keys, random) == s,
{
}

} // verus!
