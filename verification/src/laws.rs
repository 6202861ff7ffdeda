//! Laws of the instruction set, proved of the model that the engine is
//! verified against.

use vstd::prelude::*;
use crate::decode::{decoded, Instruction};
use crate::machine::{Fault, Machine};

verus! {

impl Machine {
    /// The machine after `instr` has run `n` times in a row, where none of
    /// the runs ends in a fault.
    pub open spec fn repeated(self, instr: Instruction, n: nat) -> Machine
        decreases n,
    {
        if n == 0 {
            self
        } else {
            match self.repeated(instr, (n - 1) as nat).step(instr, 0) {
                Ok(next) => next,
                Err(_) => self,
            }
        }
    }
}

/// Only the random instruction reads the random byte.
pub proof fn lemma_random_byte_unread(m: Machine, instr: Instruction, r1: u8, r2: u8)
    requires
        !(instr is Random),
    ensures
        m.step(instr, r1) == m.step(instr, r2),
{
}

/// Sums modulo 256 may be reduced at any point.
proof fn lemma_sum_mod_256(a: int, b: int, c: int)
    ensures
        ((a + b) % 256 + c) % 256 == (a + b + c) % 256,
        (a + b % 256) % 256 == (a + b) % 256,
{
}

/// The register value after `n` adds of `nn`, one after the other.
proof fn lemma_repeated_sum(val: int, nn: int, n: nat)
    requires
        n > 0,
    ensures
        ((val + nn * (n - 1)) % 256 + nn) % 256 == (val + nn * n) % 256,
{
    assert(nn * n == nn * (n - 1) + nn) by (nonlinear_arith);
    lemma_sum_mod_256(val, nn * (n - 1), nn);
}

/// One add of an immediate, on a machine whose register `x` was set to `val`.
proof fn lemma_add_immediate_once(m: Machine, x: u8, val: u8, nn: u8)
    requires
        m.wf(),
        x < 16,
    ensures
        m.with_register(x, val).step(Instruction::AddImmediate { x, nn }, 0) == Ok::<
            Machine,
            Fault,
        >(m.with_register(x, ((val + nn) % 256) as u8)),
{
    let sum = ((val + nn) % 256) as u8;
    assert(m.with_register(x, val).v.update(x as int, sum) =~= m.v.update(x as int, sum));
}

/// Adding the immediate `nn` to register `x` `n` times over leaves the
/// register at its old value plus `nn * n`, modulo 256; no other register
/// is written, the flag register included.
pub proof fn lemma_add_immediate_repeated(m: Machine, x: u8, nn: u8, n: nat)
    requires
        m.wf(),
        x < 16,
    ensures
        m.repeated(Instruction::AddImmediate { x, nn }, n) == m.with_register(
            x,
            ((m.v[x as int] + nn * n) % 256) as u8,
        ),
    decreases n,
{
    let instr = Instruction::AddImmediate { x, nn };
    if n == 0 {
        assert(nn * n == 0) by (nonlinear_arith)
            requires
                n == 0,
        ;
        assert(m.v.update(x as int, m.v[x as int]) =~= m.v);
    } else {
        let prev_total = ((m.v[x as int] + nn * (n - 1)) % 256) as u8;
        lemma_add_immediate_repeated(m, x, nn, (n - 1) as nat);
        lemma_repeated_sum(m.v[x as int] as int, nn as int, n);
        lemma_add_immediate_once(m, x, prev_total, nn);
    }
}

/// Adding the immediate `nn` to register `x` `n` times over is the same as
/// adding the immediate `nn * n mod 256` once.
pub proof fn lemma_add_immediate_additive(m: Machine, x: u8, nn: u8, n: nat)
    requires
        m.wf(),
        x < 16,
    ensures
        Ok::<Machine, Fault>(m.repeated(Instruction::AddImmediate { x, nn }, n)) == m.step(
            Instruction::AddImmediate { x, nn: ((nn * n) % 256) as u8 },
            0,
        ),
{
    lemma_add_immediate_repeated(m, x, nn, n);
    lemma_sum_mod_256(m.v[x as int] as int, nn * n, 0);
}

/// After an add of two registers the flag register is 1 if the sum of the
/// two operands passed 255, and 0 if it did not.
pub proof fn lemma_add_sets_carry(m: Machine, x: u8, y: u8, random: u8)
    requires
        m.wf(),
        x < 16,
        y < 16,
    ensures
        m.step(Instruction::Add { x, y }, random) matches Ok(next) && {
            &&& m.v[x as int] + m.v[y as int] > 255 ==> next.v[0xF] == 1
            &&& m.v[x as int] + m.v[y as int] <= 255 ==> next.v[0xF] == 0
            &&& x != 0xF ==> next.v[x as int] == (m.v[x as int] + m.v[y as int]) % 256
        },
{
}

/// After a subtraction of register `y` from register `x` the flag register
/// is 1 if nothing was borrowed, that is if `x` held at least what `y`
/// held, and 0 if it held less.
pub proof fn lemma_subtract_sets_no_borrow(m: Machine, x: u8, y: u8, random: u8)
    requires
        m.wf(),
        x < 16,
        y < 16,
    ensures
        m.step(Instruction::Subtract { x, y }, random) matches Ok(next) && {
            &&& m.v[x as int] >= m.v[y as int] ==> next.v[0xF] == 1
            &&& m.v[x as int] < m.v[y as int] ==> next.v[0xF] == 0
            &&& x != 0xF ==> next.v[x as int] == (m.v[x as int] - m.v[y as int]) % 256
        },
{
}

/// After a subtraction of register `x` from register `y`, with the result
/// in `x`, the flag register is 1 if `y` held at least what `x` held, and 0
/// if it held less.
pub proof fn lemma_subtract_reversed_sets_no_borrow(m: Machine, x: u8, y: u8, random: u8)
    requires
        m.wf(),
        x < 16,
        y < 16,
    ensures
        m.step(Instruction::SubtractReversed { x, y }, random) matches Ok(next) && {
            &&& m.v[y as int] >= m.v[x as int] ==> next.v[0xF] == 1
            &&& m.v[y as int] < m.v[x as int] ==> next.v[0xF] == 0
            &&& x != 0xF ==> next.v[x as int] == (m.v[y as int] - m.v[x as int]) % 256
        },
{
}

/// Drawing a sprite a second time at the same place puts the display back
/// as it was. The flag register then tells whether the sprite covers a cell
/// that was dark to begin with: such a cell was lit by the first drawing,
/// and the second one runs into it. So after a first drawing that hit
/// nothing, the second leaves the flag at 0 only for a sprite that covers
/// no cell at all.
pub proof fn lemma_draw_twice(m: Machine, x: u8, y: u8, rows: u8)
    requires
        m.wf(),
        x < 16,
        y < 16,
        m.drawn(x, y, rows).v[x as int] % 64 == m.v[x as int] % 64,
        m.drawn(x, y, rows).v[y as int] % 32 == m.v[y as int] % 32,
    ensures
        m.drawn(x, y, rows).drawn(x, y, rows).display == m.display,
        m.drawn(x, y, rows).drawn(x, y, rows).v[0xF] == 1 <==> exists|p: int|
            0 <= p < 2048 && !m.display[p] && m.sprite_covers(x, y, rows, p),
        m.drawn(x, y, rows).drawn(x, y, rows).v[0xF] == 0 <==> forall|p: int|
            0 <= p < 2048 && m.sprite_covers(x, y, rows, p) ==> m.display[p],
        !m.sprite_collides(x, y, rows) ==> (m.drawn(x, y, rows).drawn(x, y, rows).v[0xF] == 0
            <==> forall|p: int| 0 <= p < 2048 ==> !m.sprite_covers(x, y, rows, p)),
{
    let once = m.drawn(x, y, rows);
    let twice = once.drawn(x, y, rows);
    let lights_dark = exists|p: int|
        0 <= p < 2048 && !m.display[p] && m.sprite_covers(x, y, rows, p);
    assert forall|p: int| 0 <= p < 2048 implies once.sprite_covers(x, y, rows, p)
        == m.sprite_covers(x, y, rows, p) by {}
    assert(twice.display =~= m.display);
    assert(once.sprite_collides(x, y, rows) == lights_dark) by {
        if once.sprite_collides(x, y, rows) {
            let p = choose|p: int|
                0 <= p < 2048 && once.display[p] && once.sprite_covers(x, y, rows, p);
            assert(!m.display[p] && m.sprite_covers(x, y, rows, p));
        }
        if lights_dark {
            let p = choose|p: int|
                0 <= p < 2048 && !m.display[p] && m.sprite_covers(x, y, rows, p);
            assert(once.display[p] && once.sprite_covers(x, y, rows, p));
        }
    }
    if !m.sprite_collides(x, y, rows) && !lights_dark {
        assert forall|p: int| 0 <= p < 2048 implies !m.sprite_covers(x, y, rows, p) by {
            if m.sprite_covers(x, y, rows, p) {
                if m.display[p] {
                    assert(m.sprite_collides(x, y, rows));
                } else {
                    assert(lights_dark);
                }
            }
        }
    }
}

/// Registers other than the flag register keep the drawing position, so a
/// sprite drawn through them is drawn at the same place both times.
pub proof fn lemma_draw_keeps_position(m: Machine, x: u8, y: u8, rows: u8)
    requires
        m.wf(),
        x < 0xF,
        y < 0xF,
    ensures
        m.drawn(x, y, rows).v[x as int] == m.v[x as int],
        m.drawn(x, y, rows).v[y as int] == m.v[y as int],
{
}

/// A call followed by a return leaves the machine exactly as it was when
/// the call had been fetched: the program counter stands at the
/// instruction after the call, and the stack is as before.
pub proof fn lemma_call_then_return(m: Machine, random: u8)
    requires
        m.wf(),
        m.pc + 1 < 4096,
        m.stack.len() < 16,
        decoded(m.word_at_pc() as u16) matches Ok(Instruction::Call { .. }),
    ensures
        m.fetched().pc == m.pc + 2,
        m.fetched().executed(m.word_at_pc() as u16, random) matches Ok(called) && called.executed(
            0x00EE,
            random,
        ) == Ok::<Machine, Fault>(m.fetched()),
{
    let word = m.word_at_pc() as u16;
    let after_fetch = m.fetched();
    let called = after_fetch.executed(word, random)->Ok_0;
    assert(decoded(0x00EE) == Ok::<Instruction, Fault>(Instruction::Return));
    assert(called.stack.drop_last() =~= after_fetch.stack);
}

/// With no key down, fetching and carrying out a wait for a key leaves the
/// machine exactly as it was, so the same instruction is fetched again.
pub proof fn lemma_wait_for_key_stalls(m: Machine, random: u8)
    requires
        m.wf(),
        m.pc + 1 < 4096,
        forall|k: int| 0 <= k < 16 ==> !m.keys[k],
        decoded(m.word_at_pc() as u16) matches Ok(Instruction::WaitForKey { .. }),
    ensures
        m.fetched().executed(m.word_at_pc() as u16, random) == Ok::<Machine, Fault>(
            m,
        ),
{
}

} // verus!
