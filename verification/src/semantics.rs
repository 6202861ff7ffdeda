//! What each instruction does, as functions on the mathematical model.

use vstd::prelude::*;
use crate::decode::{decoded, Instruction};
use crate::machine::{Fault, Machine};

verus! {

/// Whether the bit in column `col` of a sprite row is set; column 0 is the
/// leftmost pixel and the most significant bit.
pub open spec fn sprite_bit(row: u8, col: u8) -> bool {
    row & (0x80u8 >> col) != 0
}

/// The lowest key that is held down, if any is.
pub open spec fn lowest_pressed(keys: Seq<bool>) -> Option<int> {
    if exists|k: int| 0 <= k < keys.len() && keys[k] {
        Some(
            choose|k: int|
                0 <= k < keys.len() && keys[k] && forall|j: int| 0 <= j < k ==> !keys[j],
        )
    } else {
        None
    }
}

/// A key that is down, with no key below it down, is the lowest one down.
pub proof fn lemma_lowest_pressed(keys: Seq<bool>, k: int)
    requires
        0 <= k < keys.len(),
        keys[k],
        forall|j: int| 0 <= j < k ==> !keys[j],
    ensures
        lowest_pressed(keys) == Some(k),
{
    let found = choose|c: int|
        0 <= c < keys.len() && keys[c] && forall|j: int| 0 <= j < c ==> !keys[j];
    assert(found == k);
}

impl Machine {
    /// The machine with register `x` set to `val`.
    pub open spec fn with_register(self, x: u8, val: u8) -> Machine {
        Machine { v: self.v.update(x as int, val), ..self }
    }

    /// The machine with the flag register set to 1 if `flag` holds, else 0.
    pub open spec fn with_flag(self, flag: bool) -> Machine {
        self.with_register(
            0xF,
            if flag {
                1u8
            } else {
                0u8
            },
        )
    }

    /// The machine with the program counter moved by `delta`, modulo 65536.
    pub open spec fn advanced(self, delta: int) -> Machine {
        Machine { pc: ((self.pc + delta) % 65536) as u16, ..self }
    }

    /// The machine with the next instruction skipped if `cond` holds.
    pub open spec fn skipping(self, cond: bool) -> Machine {
        if cond {
            self.advanced(2)
        } else {
            self
        }
    }

    /// The memory address `offset` bytes past the index register; addresses
    /// past the end of memory continue at its start.
    pub open spec fn address(self, offset: int) -> int {
        (self.index + offset) % 4096
    }

    /// Whether key number `key` is held down. There are sixteen keys; a
    /// number that names none of them is a key that is not down.
    pub open spec fn key_down(self, key: u8) -> bool {
        key < 16 && self.keys[key as int]
    }

    /// Whether the sprite of `rows` rows at the index register, drawn with
    /// its top left corner at the position that registers `x` and `y` give,
    /// has a set bit over display cell `p`.
    pub open spec fn sprite_covers(self, x: u8, y: u8, rows: u8, p: int) -> bool {
        let col = p % 64 - self.v[x as int] % 64;
        let row = p / 64 - self.v[y as int] % 32;
        &&& 0 <= col < 8
        &&& 0 <= row < rows
        &&& sprite_bit(self.memory[self.address(row)], col as u8)
    }

    /// Whether the sprite has a set bit over a display cell that is lit.
    pub open spec fn sprite_collides(self, x: u8, y: u8, rows: u8) -> bool {
        exists|p: int| 0 <= p < 2048 && self.display[p] && self.sprite_covers(x, y, rows, p)
    }

    /// The machine after the sprite has been drawn: each cell under a set
    /// bit is toggled, and the flag register tells whether a lit cell was
    /// among them.
    pub open spec fn drawn(self, x: u8, y: u8, rows: u8) -> Machine {
        Machine {
            v: self.v.update(
                0xF,
                if self.sprite_collides(x, y, rows) {
                    1u8
                } else {
                    0u8
                },
            ),
            display: Seq::new(2048, |p: int| self.display[p] != self.sprite_covers(x, y, rows, p)),
            ..self
        }
    }

    /// The machine after waiting for a key: the lowest key held down goes to
    /// register `x`; with no key down the program counter steps back onto
    /// the instruction.
    pub open spec fn awaited_key(self, x: u8) -> Machine {
        match lowest_pressed(self.keys) {
            Some(k) => self.with_register(x, k as u8),
            None => self.advanced(-2),
        }
    }

    /// The machine with the decimal digits of register `x` written at the
    /// index register: hundreds, tens, ones.
    pub open spec fn with_decimal(self, x: u8) -> Machine {
        let val = self.v[x as int];
        Machine {
            memory: self.memory.update(self.address(0), val / 100).update(
                self.address(1),
                val / 10 % 10,
            ).update(self.address(2), val % 10),
            ..self
        }
    }

    /// The machine with registers 0 to `x` stored at the index register.
    pub open spec fn stored(self, x: u8) -> Machine {
        Machine {
            memory: Seq::new(
                4096,
                |a: int|
                    if (a - self.index) % 4096 <= x {
                        self.v[(a - self.index) % 4096]
                    } else {
                        self.memory[a]
                    },
            ),
            ..self
        }
    }

    /// The machine with registers 0 to `x` loaded from the index register.
    pub open spec fn loaded(self, x: u8) -> Machine {
        Machine {
            v: Seq::new(
                16,
                |r: int|
                    if r <= x {
                        self.memory[self.address(r)]
                    } else {
                        self.v[r]
                    },
            ),
            ..self
        }
    }

    /// The machine after one tick of the timers: each moves one step toward
    /// zero and stays there.
    pub open spec fn ticked(self) -> Machine {
        Machine {
            delay_timer: if self.delay_timer > 0 {
                (self.delay_timer - 1) as u8
            } else {
                0u8
            },
            sound_timer: if self.sound_timer > 0 {
                (self.sound_timer - 1) as u8
            } else {
                0u8
            },
            ..self
        }
    }

    /// The machine after `instr`, or the fault that stops it. `random` is
    /// the byte that the random instruction draws; no other one reads it.
    pub open spec fn step(self, instr: Instruction, random: u8) -> Result<Machine, Fault> {
        let v = self.v;
        match instr {
            Instruction::ClearDisplay => Ok(
                Machine { display: Seq::new(2048, |p: int| false), ..self },
            ),
            Instruction::Return => if self.stack.len() == 0 {
                Err(Fault::StackUnderflow)
            } else {
                Ok(Machine { pc: self.stack.last(), ..self.popped() })
            },
            Instruction::Jump { addr } => Ok(Machine { pc: addr, ..self }),
            Instruction::Call { addr } => if self.stack.len() >= 16 {
                Err(Fault::StackOverflow)
            } else {
                Ok(Machine { pc: addr, ..self.pushed(self.pc) })
            },
            Instruction::SkipIfEqual { x, nn } => Ok(self.skipping(v[x as int] == nn)),
            Instruction::SkipIfNotEqual { x, nn } => Ok(self.skipping(v[x as int] != nn)),
            Instruction::SkipIfRegistersEqual { x, y } => Ok(
                self.skipping(v[x as int] == v[y as int]),
            ),
            Instruction::SkipIfRegistersDiffer { x, y } => Ok(
                self.skipping(v[x as int] != v[y as int]),
            ),
            Instruction::LoadImmediate { x, nn } => Ok(self.with_register(x, nn)),
            Instruction::AddImmediate { x, nn } => Ok(
                self.with_register(x, ((v[x as int] + nn) % 256) as u8),
            ),
            Instruction::Copy { x, y } => Ok(self.with_register(x, v[y as int])),
            Instruction::Or { x, y } => Ok(self.with_register(x, v[x as int] | v[y as int])),
            Instruction::And { x, y } => Ok(self.with_register(x, v[x as int] & v[y as int])),
            Instruction::Xor { x, y } => Ok(self.with_register(x, v[x as int] ^ v[y as int])),
            Instruction::Add { x, y } => Ok(
                self.with_register(x, ((v[x as int] + v[y as int]) % 256) as u8).with_flag(
                    v[x as int] + v[y as int] > 255,
                ),
            ),
            Instruction::Subtract { x, y } => Ok(
                self.with_register(x, ((v[x as int] - v[y as int]) % 256) as u8).with_flag(
                    v[x as int] >= v[y as int],
                ),
            ),
            Instruction::SubtractReversed { x, y } => Ok(
                self.with_register(x, ((v[y as int] - v[x as int]) % 256) as u8).with_flag(
                    v[y as int] >= v[x as int],
                ),
            ),
            Instruction::ShiftRight { x } => Ok(
                self.with_register(x, v[x as int] / 2).with_flag(v[x as int] % 2 == 1),
            ),
            Instruction::ShiftLeft { x } => Ok(
                self.with_register(x, (v[x as int] * 2 % 256) as u8).with_flag(v[x as int] >= 128),
            ),
            Instruction::SetIndex { addr } => Ok(Machine { index: addr, ..self }),
            Instruction::Random { x, mask } => Ok(self.with_register(x, random & mask)),
            Instruction::Draw { x, y, rows } => Ok(self.drawn(x, y, rows)),
            Instruction::SkipIfKeyDown { x } => Ok(self.skipping(self.key_down(v[x as int]))),
            Instruction::SkipIfKeyUp { x } => Ok(self.skipping(!self.key_down(v[x as int]))),
            Instruction::ReadDelay { x } => Ok(self.with_register(x, self.delay_timer)),
            Instruction::WaitForKey { x } => Ok(self.awaited_key(x)),
            Instruction::SetDelay { x } => Ok(Machine { delay_timer: v[x as int], ..self }),
            Instruction::SetSound { x } => Ok(Machine { sound_timer: v[x as int], ..self }),
            Instruction::AddToIndex { x } => Ok(
                Machine { index: ((self.index + v[x as int]) % 65536) as u16, ..self },
            ),
            Instruction::Glyph { x } => Ok(Machine { index: (v[x as int] * 5) as u16, ..self }),
            Instruction::Decimal { x } => Ok(self.with_decimal(x)),
            Instruction::Store { x } => Ok(self.stored(x)),
            Instruction::Load { x } => Ok(self.loaded(x)),
        }
    }

    /// The machine after the instruction that `opcode` stands for, or the
    /// fault that stops it.
    pub open spec fn executed(self, opcode: u16, random: u8) -> Result<Machine, Fault> {
        match decoded(opcode) {
            Ok(instr) => self.step(instr, random),
            Err(fault) => Err(fault),
        }
    }
}

/// Every instruction leaves a well-formed machine well-formed.
pub proof fn lemma_step_wf(m: Machine, instr: Instruction, random: u8)
    requires
        m.wf(),
        instr.wf(),
    ensures
        m.step(instr, random) matches Ok(next) ==> next.wf(),
{
}

} // verus!
