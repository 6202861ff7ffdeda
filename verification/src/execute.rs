//! The execute engine: each instruction carried out on the machine, proved
//! against the model.

use vstd::prelude::*;
use crate::decode::{decode, decoded, Instruction};
use crate::entropy::random_byte;
use crate::machine::{Fault, Machine, CPU};
use crate::semantics::lemma_lowest_pressed;

verus! {

/// Whether `opcode` stands for the instruction that draws a random byte.
pub open spec fn draws_random(opcode: u16) -> bool {
    decoded(opcode) matches Ok(Instruction::Random { .. })
}

impl CPU {
    /// How a call that was to bring about `expected` went: on success the
    /// machine is the expected one; on a fault it is untouched and the
    /// fault is handed back.
    pub open spec fn outcome(
        before: CPU,
        after: CPU,
        res: Result<(), Fault>,
        expected: Result<Machine, Fault>,
    ) -> bool {
        match expected {
            Ok(next) => res == Ok::<(), Fault>(()) && after@ == next && Self::spare_slots_kept(
                before,
                after,
            ),
            Err(fault) => res == Err::<(), Fault>(fault) && after == before,
        }
    }

    /// Steps over the next instruction if `cond` holds.
    fn skip_if(&mut self, cond: bool)
        ensures
            final(self)@ == old(self)@.skipping(cond),
            Self::same_stack(*old(self), *final(self)),
    {
        if cond {
            self.pc = self.pc.wrapping_add(2);
        }
    }

    /// Whether key number `key` is held down.
    fn key_is_down(&self, key: u8) -> (down: bool)
        ensures
            down == self@.key_down(key),
    {
        key < 16 && self.keys[key as usize]
    }

    /// Puts the lowest key held down into register `x`, or steps back onto
    /// the instruction if no key is down.
    fn wait_for_key(&mut self, x: u8)
        requires
            x < 16,
        ensures
            final(self)@ == old(self)@.awaited_key(x),
            Self::same_stack(*old(self), *final(self)),
    {
        let mut k: u8 = 0;
        while k < 16
            invariant
                k <= 16,
                x < 16,
                *self == *old(self),
                forall|j: int| 0 <= j < k ==> !self.keys@[j],
            decreases 16 - k,
        {
            if self.keys[k as usize] {
                proof {
                    lemma_lowest_pressed(self.keys@, k as int);
                }
                self.v[x as usize] = k;
                return ;
            }
            k += 1;
        }
        self.pc = self.pc.wrapping_sub(2);
    }

    /// Writes the three decimal digits of register `x` at the index
    /// register.
    fn store_decimal(&mut self, x: u8)
        requires
            x < 16,
        ensures
            final(self)@ == old(self)@.with_decimal(x),
            Self::same_stack(*old(self), *final(self)),
    {
        let val: u8 = self.v[x as usize];
        let base: usize = self.i as usize;
        self.memory[base % 4096] = val / 100;
        self.memory[(base + 1) % 4096] = (val % 100) / 10;
        self.memory[(base + 2) % 4096] = val % 10;
    }

    /// Copies registers 0 to `x` to memory at the index register.
    fn store_registers(&mut self, x: u8)
        requires
            x < 16,
        ensures
            final(self)@ == old(self)@.stored(x),
            Self::same_stack(*old(self), *final(self)),
    {
        let ghost m = self@;
        let base: usize = self.i as usize;
        let mut r: u8 = 0;
        while r <= x
            invariant
                x < 16,
                r <= x + 1,
                base == m.index,
                m.memory.len() == 4096,
                m.v.len() == 16,
                Self::same_stack(*old(self), *self),
                r == 0 ==> self@ == m,
                r > 0 ==> self@ == m.stored((r - 1) as u8),
            decreases x + 1 - r,
        {
            self.memory[(base + r as usize) % 4096] = self.v[r as usize];
            assert(self@.memory =~= m.stored(r).memory);
            r += 1;
        }
    }

    /// Fills registers 0 to `x` from memory at the index register.
    fn load_registers(&mut self, x: u8)
        requires
            x < 16,
        ensures
            final(self)@ == old(self)@.loaded(x),
            Self::same_stack(*old(self), *final(self)),
    {
        let ghost m = self@;
        let base: usize = self.i as usize;
        let mut r: u8 = 0;
        while r <= x
            invariant
                x < 16,
                r <= x + 1,
                base == m.index,
                m.memory.len() == 4096,
                m.v.len() == 16,
                Self::same_stack(*old(self), *self),
                r == 0 ==> self@ == m,
                r > 0 ==> self@ == m.loaded((r - 1) as u8),
            decreases x + 1 - r,
        {
            self.v[r as usize] = self.memory[(base + r as usize) % 4096];
            assert(self@.v =~= m.loaded(r).v);
            r += 1;
        }
    }

    /// The register operations that write the flag register: the result
    /// goes to register `x` first, the flag after it.
    fn alu(&mut self, instr: Instruction)
        requires
            old(self).wf(),
            instr.wf(),
            instr is Add || instr is Subtract || instr is SubtractReversed || instr is ShiftRight
                || instr is ShiftLeft,
        ensures
            Self::same_stack(*old(self), *final(self)),
            Ok::<Machine, Fault>(final(self)@) == old(self)@.step(instr, 0),
    {
        match instr {
            Instruction::Add { x, y } => {
                let a: u8 = self.v[x as usize];
                let b: u8 = self.v[y as usize];
                self.v[x as usize] = a.wrapping_add(b);
                self.v[0xF] = if b > 255 - a {
                    1
                } else {
                    0
                };
            },
            Instruction::Subtract { x, y } => {
                let a: u8 = self.v[x as usize];
                let b: u8 = self.v[y as usize];
                self.v[x as usize] = a.wrapping_sub(b);
                self.v[0xF] = if a >= b {
                    1
                } else {
                    0
                };
            },
            Instruction::SubtractReversed { x, y } => {
                let a: u8 = self.v[x as usize];
                let b: u8 = self.v[y as usize];
                self.v[x as usize] = b.wrapping_sub(a);
                self.v[0xF] = if b >= a {
                    1
                } else {
                    0
                };
            },
            Instruction::ShiftRight { x } => {
                let a: u8 = self.v[x as usize];
                assert(a >> 1 == a / 2 && a & 1 == a % 2) by (bit_vector);
                self.v[x as usize] = a >> 1;
                self.v[0xF] = a & 1;
            },
            Instruction::ShiftLeft { x } => {
                let a: u8 = self.v[x as usize];
                assert(a << 1 == a * 2 % 256 && a >> 7 == (if a >= 128 {
                    1u8
                } else {
                    0u8
                })) by (bit_vector);
                self.v[x as usize] = a << 1;
                self.v[0xF] = a >> 7;
            },
            _ => {},
        }
    }

    /// Carries out one decoded instruction; `random` is the byte that the
    /// random instruction uses.
    fn perform(&mut self, instr: Instruction, random: u8) -> (res: Result<(), Fault>)
        requires
            old(self).wf(),
            instr.wf(),
        ensures
            final(self).wf(),
            Self::outcome(*old(self), *final(self), res, old(self)@.step(instr, random)),
    {
        match instr {
            Instruction::ClearDisplay => {
                self.display = [false;2048];
                assert(self@.display =~= Seq::new(2048, |p: int| false));
            },
            Instruction::Return => {
                match self.pop() {
                    Ok(addr) => {
                        self.pc = addr;
                    },
                    Err(fault) => {
                        return Err(fault);
                    },
                }
            },
            Instruction::Jump { addr } => {
                self.pc = addr;
            },
            Instruction::Call { addr } => {
                match self.push(self.pc) {
                    Ok(()) => {
                        self.pc = addr;
                    },
                    Err(fault) => {
                        return Err(fault);
                    },
                }
            },
            Instruction::SkipIfEqual { x, nn } => {
                self.skip_if(self.v[x as usize] == nn);
            },
            Instruction::SkipIfNotEqual { x, nn } => {
                self.skip_if(self.v[x as usize] != nn);
            },
            Instruction::SkipIfRegistersEqual { x, y } => {
                self.skip_if(self.v[x as usize] == self.v[y as usize]);
            },
            Instruction::SkipIfRegistersDiffer { x, y } => {
                self.skip_if(self.v[x as usize] != self.v[y as usize]);
            },
            Instruction::LoadImmediate { x, nn } => {
                self.v[x as usize] = nn;
            },
            Instruction::AddImmediate { x, nn } => {
                self.v[x as usize] = self.v[x as usize].wrapping_add(nn);
            },
            Instruction::Copy { x, y } => {
                self.v[x as usize] = self.v[y as usize];
            },
            Instruction::Or { x, y } => {
                self.v[x as usize] = self.v[x as usize] | self.v[y as usize];
            },
            Instruction::And { x, y } => {
                self.v[x as usize] = self.v[x as usize] & self.v[y as usize];
            },
            Instruction::Xor { x, y } => {
                self.v[x as usize] = self.v[x as usize] ^ self.v[y as usize];
            },
            Instruction::Add { .. }
            | Instruction::Subtract { .. }
            | Instruction::SubtractReversed { .. }
            | Instruction::ShiftRight { .. }
            | Instruction::ShiftLeft { .. } => {
                self.alu(instr);
            },
            Instruction::SetIndex { addr } => {
                self.i = addr;
            },
            Instruction::Random { x, mask } => {
                self.v[x as usize] = random & mask;
            },
            Instruction::Draw { x, y, rows } => {
                self.draw(x, y, rows);
            },
            Instruction::SkipIfKeyDown { x } => {
                let down = self.key_is_down(self.v[x as usize]);
                self.skip_if(down);
            },
            Instruction::SkipIfKeyUp { x } => {
                let down = self.key_is_down(self.v[x as usize]);
                self.skip_if(!down);
            },
            Instruction::ReadDelay { x } => {
                self.v[x as usize] = self.delay_timer;
            },
            Instruction::WaitForKey { x } => {
                self.wait_for_key(x);
            },
            Instruction::SetDelay { x } => {
                self.delay_timer = self.v[x as usize];
            },
            Instruction::SetSound { x } => {
                self.sound_timer = self.v[x as usize];
            },
            Instruction::AddToIndex { x } => {
                self.i = self.i.wrapping_add(self.v[x as usize] as u16);
            },
            Instruction::Glyph { x } => {
                self.i = (self.v[x as usize] as u16) * 5;
            },
            Instruction::Decimal { x } => {
                self.store_decimal(x);
            },
            Instruction::Store { x } => {
                self.store_registers(x);
            },
            Instruction::Load { x } => {
                self.load_registers(x);
            },
        }
        Ok(())
    }

    /// Carries out the instruction that `opcode` stands for, with `random`
    /// as the byte that the random instruction draws. A word that stands
    /// for no instruction, a call on a full stack and a return on an empty
    /// one are faults, and leave the machine as it was.
    pub fn execute_with(&mut self, opcode: u16, random: u8) -> (res: Result<(), Fault>)
        requires
            old(self).wf(),
        ensures
            final(self).wf(),
            Self::outcome(*old(self), *final(self), res, old(self)@.executed(opcode, random)),
    {
        match decode(opcode) {
            Ok(instr) => self.perform(instr, random),
            Err(fault) => Err(fault),
        }
    }

    /// Carries out the instruction that `opcode` stands for. The random
    /// instruction draws its byte from the thread's generator; every other
    /// instruction does exactly what `execute_with` does.
    pub fn execute(&mut self, opcode: u16) -> (res: Result<(), Fault>)
        requires
            old(self).wf(),
        ensures
            final(self).wf(),
            !draws_random(opcode) ==> Self::outcome(
                *old(self),
                *final(self),
                res,
                old(self)@.executed(opcode, 0),
            ),
            draws_random(opcode) ==> exists|random: u8|
                Self::outcome(
                    *old(self),
                    *final(self),
                    res,
                    #[trigger] old(self)@.executed(opcode, random),
                ),
    {
        match decode(opcode) {
            Ok(instr) => {
                let random: u8 = match instr {
                    Instruction::Random { .. } => random_byte(),
                    _ => 0,
                };
                let res = self.perform(instr, random);
                assert(Self::outcome(
                    *old(self),
                    *self,
                    res,
                    old(self)@.executed(opcode, random),
                ));
                res
            },
            Err(fault) => Err(fault),
        }
    }

    /// One tick of the two timers: each moves one step toward zero and stays
    /// there.
    pub fn tick_timers(&mut self)
        ensures
            final(self)@ == old(self)@.ticked(),
            Self::same_stack(*old(self), *final(self)),
    {
        self.delay_timer = self.delay_timer.saturating_sub(1);
        self.sound_timer = self.sound_timer.saturating_sub(1);
    }
}

} // verus!
