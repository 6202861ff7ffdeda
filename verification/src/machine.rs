//! The machine state, its mathematical model, and the operations that do not
//! depend on the instruction set: construction, fetch, and the call stack.

use vstd::prelude::*;

verus! {

/// Conditions under which the machine refuses to carry on.
#[derive(Clone, Copy, Debug, PartialEq, Eq, Structural)]
pub enum Fault {
    /// The word matches no instruction pattern; the word is carried along.
    UnknownOpcode(u16),
    /// A call was made with all sixteen stack slots in use.
    StackOverflow,
    /// A return was made with no return address on the stack.
    StackUnderflow,
}

/// The mathematical model of a machine: what a program can observe.
///
/// `stack` holds only the live return addresses, oldest first, so its length
/// is the stack pointer.
pub struct Machine {
    pub memory: Seq<u8>,
    pub v: Seq<u8>,
    pub index: u16,
    pub pc: u16,
    pub stack: Seq<u16>,
    pub delay_timer: u8,
    pub sound_timer: u8,
    pub display: Seq<bool>,
    pub keys: Seq<bool>,
}

/// The hexadecimal glyphs, five rows each, digit `0` first.
pub open spec fn font() -> Seq<u8> {
    seq![
        0xF0u8, 0x90u8, 0x90u8, 0x90u8, 0xF0u8,
        0x20u8, 0x60u8, 0x20u8, 0x20u8, 0x70u8,
        0xF0u8, 0x10u8, 0xF0u8, 0x80u8, 0xF0u8,
        0xF0u8, 0x10u8, 0xF0u8, 0x10u8, 0xF0u8,
        0x90u8, 0x90u8, 0xF0u8, 0x10u8, 0x10u8,
        0xF0u8, 0x80u8, 0xF0u8, 0x10u8, 0xF0u8,
        0xF0u8, 0x80u8, 0xF0u8, 0x90u8, 0xF0u8,
        0xF0u8, 0x10u8, 0x20u8, 0x40u8, 0x40u8,
        0xF0u8, 0x90u8, 0xF0u8, 0x90u8, 0xF0u8,
        0xF0u8, 0x90u8, 0xF0u8, 0x10u8, 0xF0u8,
        0xF0u8, 0x90u8, 0xF0u8, 0x90u8, 0x90u8,
        0xE0u8, 0x90u8, 0xE0u8, 0x90u8, 0xE0u8,
        0xF0u8, 0x80u8, 0x80u8, 0x80u8, 0xF0u8,
        0xE0u8, 0x90u8, 0x90u8, 0x90u8, 0xE0u8,
        0xF0u8, 0x80u8, 0xF0u8, 0x80u8, 0xF0u8,
        0xF0u8, 0x80u8, 0xF0u8, 0x80u8, 0x80u8,
    ]
}

impl Machine {
    /// The sizes of the fixed parts, and the bound on the stack.
    pub open spec fn wf(self) -> bool {
        &&& self.memory.len() == 4096
        &&& self.v.len() == 16
        &&& self.stack.len() <= 16
        &&& self.display.len() == 2048
        &&& self.keys.len() == 16
    }

    /// A machine as it is before any program is loaded: the font at the
    /// bottom of memory, everything else zero, the program counter at 0x200.
    pub open spec fn initial() -> Machine {
        Machine {
            memory: Seq::new(
                4096,
                |a: int|
                    if a < 80 {
                        font()[a]
                    } else {
                        0u8
                    },
            ),
            v: Seq::new(16, |r: int| 0u8),
            index: 0,
            pc: 0x200,
            stack: Seq::empty(),
            delay_timer: 0,
            sound_timer: 0,
            display: Seq::new(2048, |p: int| false),
            keys: Seq::new(16, |k: int| false),
        }
    }

    /// The big-endian word at the program counter.
    pub open spec fn word_at_pc(self) -> int {
        self.memory[self.pc as int] * 256 + self.memory[self.pc + 1]
    }

    /// The machine after a fetch: only the program counter has moved.
    pub open spec fn fetched(self) -> Machine {
        Machine { pc: (self.pc + 2) as u16, ..self }
    }

    /// The display as a frame of colours, row by row: `lit` for a cell that
    /// is on, `dark` for one that is off.
    pub open spec fn frame(self, lit: u32, dark: u32) -> Seq<u32> {
        Seq::new(
            2048,
            |p: int|
                if self.display[p] {
                    lit
                } else {
                    dark
                },
        )
    }

    /// The machine after `addr` has been pushed.
    pub open spec fn pushed(self, addr: u16) -> Machine {
        Machine { stack: self.stack.push(addr), ..self }
    }

    /// The machine after the newest return address has been taken off.
    pub open spec fn popped(self) -> Machine {
        Machine { stack: self.stack.drop_last(), ..self }
    }
}

/// A CHIP-8 machine.
///
/// The fields are open to the host: it loads a program at 0x200, writes
/// `keys` before a cycle and reads `display` after it. The stack pointer
/// must stay at or below 16; the operations here keep it so.
pub struct CPU {
    /// The address space; the font occupies the first 80 bytes.
    pub memory: [u8; 4096],
    /// The general registers; register 0xF doubles as the flag register.
    pub v: [u8; 16],
    /// The index register.
    pub i: u16,
    /// The program counter.
    pub pc: u16,
    /// The return addresses, oldest first, in the slots below `sp`.
    pub stack: [u16; 16],
    /// The stack pointer: the number of return addresses on the stack.
    pub sp: u8,
    /// The delay timer.
    pub delay_timer: u8,
    /// The sound timer.
    pub sound_timer: u8,
    /// The display, 64 cells a row and 32 rows, row by row.
    pub display: [bool; 2048],
    /// The keypad: whether each of the sixteen keys is held down.
    pub keys: [bool; 16],
}

impl View for CPU {
    type V = Machine;

    open spec fn view(&self) -> Machine {
        Machine {
            memory: self.memory@,
            v: self.v@,
            index: self.i,
            pc: self.pc,
            stack: self.stack@.subrange(0, self.sp as int),
            delay_timer: self.delay_timer,
            sound_timer: self.sound_timer,
            display: self.display@,
            keys: self.keys@,
        }
    }
}

impl CPU {
    /// The stack pointer never passes the end of the stack.
    pub open spec fn wf(&self) -> bool {
        self.sp <= 16
    }

    /// The stack slots at and above the stack pointer of `after`, which
    /// the model does not show, hold what they held in `before`.
    pub open spec fn spare_slots_kept(before: CPU, after: CPU) -> bool {
        forall|j: int| after.sp <= j < 16 ==> after.stack@[j] == before.stack@[j]
    }

    /// The stack and the stack pointer are the same in both.
    pub open spec fn same_stack(before: CPU, after: CPU) -> bool {
        after.stack == before.stack && after.sp == before.sp
    }

    /// A machine with the font loaded and everything else cleared.
    pub fn new() -> (cpu: CPU)
        ensures
            cpu.wf(),
            cpu@ == Machine::initial(),
            forall|j: int| 0 <= j < 16 ==> cpu.stack@[j] == 0,
    {
        let glyphs: [u8; 80] = [
            0xF0, 0x90, 0x90, 0x90, 0xF0,
            0x20, 0x60, 0x20, 0x20, 0x70,
            0xF0, 0x10, 0xF0, 0x80, 0xF0,
            0xF0, 0x10, 0xF0, 0x10, 0xF0,
            0x90, 0x90, 0xF0, 0x10, 0x10,
            0xF0, 0x80, 0xF0, 0x10, 0xF0,
            0xF0, 0x80, 0xF0, 0x90, 0xF0,
            0xF0, 0x10, 0x20, 0x40, 0x40,
            0xF0, 0x90, 0xF0, 0x90, 0xF0,
            0xF0, 0x90, 0xF0, 0x10, 0xF0,
            0xF0, 0x90, 0xF0, 0x90, 0x90,
            0xE0, 0x90, 0xE0, 0x90, 0xE0,
            0xF0, 0x80, 0x80, 0x80, 0xF0,
            0xE0, 0x90, 0x90, 0x90, 0xE0,
            0xF0, 0x80, 0xF0, 0x80, 0xF0,
            0xF0, 0x80, 0xF0, 0x80, 0x80,
        ];
        assert(glyphs@ =~= font());
        let mut memory: [u8; 4096] = [0u8; 4096];
        let mut k: usize = 0;
        while k < 80
            invariant
                k <= 80,
                glyphs@ == font(),
                forall|a: int| 0 <= a < k ==> memory@[a] == font()[a],
                forall|a: int| k <= a < 4096 ==> memory@[a] == 0u8,
            decreases 80 - k,
        {
            memory[k] = glyphs[k];
            k += 1;
        }
        let cpu = CPU {
            memory,
            v: [0u8; 16],
            i: 0,
            pc: 0x200,
            stack: [0u16; 16],
            sp: 0,
            delay_timer: 0,
            sound_timer: 0,
            display: [false; 2048],
            keys: [false; 16],
        };
        assert(cpu@.memory =~= Machine::initial().memory);
        assert(cpu@.v =~= Machine::initial().v);
        assert(cpu@.stack =~= Machine::initial().stack);
        assert(cpu@.display =~= Machine::initial().display);
        assert(cpu@.keys =~= Machine::initial().keys);
        cpu
    }

    /// Reads the instruction word at the program counter, high byte first,
    /// and moves the program counter past it.
    pub fn fetch(&mut self) -> (word: u16)
        requires
            old(self).pc + 1 < 4096,
        ensures
            word == old(self)@.word_at_pc(),
            final(self)@ == old(self)@.fetched(),
            Self::same_stack(*old(self), *final(self)),
    {
        let hi: u8 = self.memory[self.pc as usize];
        let lo: u8 = self.memory[(self.pc + 1) as usize];
        assert((((hi as u16) << 8) | (lo as u16)) == hi * 256 + lo) by (bit_vector);
        self.pc = self.pc + 2;
        ((hi as u16) << 8) | (lo as u16)
    }

    /// The display as a frame of colours for a screen, row by row.
    pub fn frame(&self, lit: u32, dark: u32) -> (buffer: Vec<u32>)
        ensures
            buffer@ == self@.frame(lit, dark),
    {
        let mut buffer: Vec<u32> = Vec::with_capacity(2048);
        let mut p: usize = 0;
        while p < 2048
            invariant
                p <= 2048,
                buffer@.len() == p,
                forall|q: int| 0 <= q < p ==> buffer@[q] == self@.frame(lit, dark)[q],
            decreases 2048 - p,
        {
            buffer.push(
                if self.display[p] {
                    lit
                } else {
                    dark
                },
            );
            p += 1;
        }
        assert(buffer@ =~= self@.frame(lit, dark));
        buffer
    }

    /// Puts a return address on the call stack, unless the stack is full.
    pub fn push(&mut self, val: u16) -> (res: Result<(), Fault>)
        requires
            old(self).wf(),
        ensures
            final(self).wf(),
            old(self)@.stack.len() < 16 ==> res == Ok::<(), Fault>(()) && final(self)@ == old(
                self,
            )@.pushed(val) && Self::spare_slots_kept(*old(self), *final(self)),
            old(self)@.stack.len() >= 16 ==> res == Err::<(), Fault>(Fault::StackOverflow)
                && *final(self) == *old(self),
    {
        if self.sp >= 16 {
            return Err(Fault::StackOverflow);
        }
        self.stack[self.sp as usize] = val;
        self.sp = self.sp + 1;
        assert(self@.stack =~= old(self)@.stack.push(val));
        Ok(())
    }

    /// Takes the newest return address off the call stack, if there is one.
    pub fn pop(&mut self) -> (res: Result<u16, Fault>)
        requires
            old(self).wf(),
        ensures
            final(self).wf(),
            old(self)@.stack.len() > 0 ==> res == Ok::<u16, Fault>(old(self)@.stack.last())
                && final(self)@ == old(self)@.popped() && final(self).stack == old(self).stack,
            old(self)@.stack.len() == 0 ==> res == Err::<u16, Fault>(Fault::StackUnderflow)
                && *final(self) == *old(self),
    {
        if self.sp == 0 {
            return Err(Fault::StackUnderflow);
        }
        self.sp = self.sp - 1;
        assert(self@.stack =~= old(self)@.stack.drop_last());
        Ok(self.stack[self.sp as usize])
    }
}

} // verus!
