use vstd::prelude::*;

use crate::opcode::Opcode;

verus! {

/// Bytes of addressable memory.
pub const MEMORY_SIZE: usize = 4096;

/// Address at which a program image is loaded and execution starts.
pub const PROGRAM_START: u16 = 512;

/// Display width in pixels.
pub const SCREEN_WIDTH: usize = 64;

/// Display height in pixels.
pub const SCREEN_HEIGHT: usize = 32;

/// Depth of the call stack.
pub const STACK_DEPTH: u16 = 16;

/// Why an instruction could not be executed. The machine is left as it was.
#[derive(Clone, Copy, Debug, PartialEq, Eq, Structural)]
pub enum Fault {
    /// The word is no instruction of the machine.
    IllegalInstruction(u16),
    /// A call with all sixteen stack slots in use.
    StackOverflow,
    /// A return with an empty stack.
    StackUnderflow,
    /// A memory address outside the 4096 bytes, or an address register
    /// that would leave sixteen bits.
    MemoryOutOfRange,
}

/// The machine's whole state, as mathematical values.
pub struct Machine {
    /// Address of the next instruction.
    pub pc: u16,
    /// Number of return addresses on the stack.
    pub sp: u16,
    /// The sixteen stack slots; those below `sp` are in use.
    pub stack: Seq<u16>,
    /// The address register I.
    pub index: u16,
    pub memory: Seq<u8>,
    /// Registers V0 to VF.
    pub v: Seq<u8>,
    pub delay: u8,
    pub sound: u8,
    /// Whether the display changed since the flag was last cleared.
    pub redraw: bool,
    /// Row-major: the pixel at column `x`, row `y` is at `y * 64 + x`.
    pub display: Seq<bool>,
    /// The key held down, if any.
    pub key: Option<u8>,
}

impl Machine {
    /// Sizes of the fixed arrays, the stack pointer's range, and return
    /// addresses that point at a fetched instruction.
    pub open spec fn wf(self) -> bool {
        &&& self.memory.len() == MEMORY_SIZE
        &&& self.v.len() == 16
        &&& self.stack.len() == STACK_DEPTH
        &&& self.display.len() == SCREEN_WIDTH * SCREEN_HEIGHT
        &&& self.sp <= STACK_DEPTH
        &&& forall|i: int| 0 <= i < STACK_DEPTH ==> #[trigger] self.stack[i] < MEMORY_SIZE - 1
    }

    /// The machine at power-on: all zero, nothing pressed, the program
    /// counter at the load address.
    pub open spec fn initial() -> Machine {
        Machine {
            pc: PROGRAM_START,
            sp: 0,
            stack: Seq::new(STACK_DEPTH as nat, |i: int| 0u16),
            index: 0,
            memory: Seq::new(MEMORY_SIZE as nat, |i: int| 0u8),
            v: Seq::new(16, |i: int| 0u8),
            delay: 0,
            sound: 0,
            redraw: false,
            display: Seq::new((SCREEN_WIDTH * SCREEN_HEIGHT) as nat, |i: int| false),
            key: None,
        }
    }

    /// The pixel at column `x`, row `y`.
    pub open spec fn pixel(self, x: int, y: int) -> bool {
        self.display[y * SCREEN_WIDTH + x]
    }

    /// The instruction word at the program counter.
    pub open spec fn current_word(self) -> u16 {
        (self.memory[self.pc as int] as int * 256 + self.memory[self.pc + 1] as int) as u16
    }
}

/// `memory` with `bytes` written from address `start` on.
pub open spec fn splice(memory: Seq<u8>, start: int, bytes: Seq<u8>) -> Seq<u8> {
    Seq::new(
        memory.len(),
        |a: int| if start <= a < start + bytes.len() { bytes[a - start] } else { memory[a] },
    )
}

/// The fault that stops the next instruction, if any.
pub open spec fn fault(s: Machine) -> Option<Fault> {
    if s.pc + 1 >= MEMORY_SIZE {
        Some(Fault::MemoryOutOfRange)
    } else {
        instruction_fault(s, s.current_word())
    }
}

/// The fault that stops instruction `word` in state `s`, if any.
pub open spec fn instruction_fault(s: Machine, word: u16) -> Option<Fault> {
    let op = Opcode::spec_decode(word);
    if op.leading == 0x0 {
        if op.nnn == 0x0EE && s.sp == 0 {
            Some(Fault::StackUnderflow)
        } else {
            None
        }
    } else if op.leading == 0x2 {
        if s.sp >= STACK_DEPTH {
            Some(Fault::StackOverflow)
        } else {
            None
        }
    } else if op.leading == 0x8 {
        if op.n <= 7 || op.n == 0xE {
            None
        } else {
            Some(Fault::IllegalInstruction(word))
        }
    } else if op.leading == 0xD {
        if op.n > 0 && s.index + op.n > MEMORY_SIZE {
            Some(Fault::MemoryOutOfRange)
        } else {
            None
        }
    } else if op.leading == 0xE {
        if op.kk == 0x9E || op.kk == 0xA1 {
            None
        } else {
            Some(Fault::IllegalInstruction(word))
        }
    } else if op.leading == 0xF {
        misc_fault(s, word)
    } else {
        None
    }
}

/// The fault that stops instruction `word` of family `0xF`, if any.
pub open spec fn misc_fault(s: Machine, word: u16) -> Option<Fault> {
    let op = Opcode::spec_decode(word);
    let vx = s.v[op.x as int];
    if op.kk == 0x07 || op.kk == 0x0A || op.kk == 0x15 || op.kk == 0x18 || op.kk == 0x29 {
        None
    } else if op.kk == 0x1E {
        if s.index + vx > u16::MAX {
            Some(Fault::MemoryOutOfRange)
        } else {
            None
        }
    } else if op.kk == 0x33 {
        if s.index + 2 >= MEMORY_SIZE {
            Some(Fault::MemoryOutOfRange)
        } else {
            None
        }
    } else if op.kk == 0x55 || op.kk == 0x65 {
        if s.index + op.x >= MEMORY_SIZE {
            Some(Fault::MemoryOutOfRange)
        } else {
            None
        }
    } else {
        Some(Fault::IllegalInstruction(word))
    }
}

/// The machine after one instruction and the timer tick that follows it,
/// where `random` is the byte drawn for `Cxkk`.
pub open spec fn next(s: Machine, random: u8) -> Machine {
    tick(execute(s, s.current_word(), random))
}

/// Both timers count down by one, stopping at zero.
pub open spec fn tick(s: Machine) -> Machine {
    Machine {
        delay: if s.delay > 0 { (s.delay - 1) as u8 } else { 0 },
        sound: if s.sound > 0 { (s.sound - 1) as u8 } else { 0 },
        ..s
    }
}

/// Program counter past the current instruction, or past the one after it
/// when `skip` holds.
pub open spec fn skip_if(s: Machine, skip: bool) -> u16 {
    if skip { (s.pc + 4) as u16 } else { (s.pc + 2) as u16 }
}

/// Instruction `word` carried out on `s`, where `instruction_fault` is none.
pub open spec fn execute(s: Machine, word: u16, random: u8) -> Machine {
    let op = Opcode::spec_decode(word);
    let x = op.x as int;
    let vx = s.v[x];
    let vy = s.v[op.y as int];
    let pc2 = (s.pc + 2) as u16;
    if op.leading == 0x0 {
        if op.nnn == 0x0E0 {
            Machine { display: Seq::new(s.display.len(), |p: int| false), redraw: true, pc: pc2, ..s }
        } else if op.nnn == 0x0EE {
            Machine { sp: (s.sp - 1) as u16, pc: (s.stack[s.sp - 1] + 2) as u16, ..s }
        } else {
            Machine { pc: pc2, ..s }
        }
    } else if op.leading == 0x1 {
        Machine { pc: op.nnn, ..s }
    } else if op.leading == 0x2 {
        Machine { stack: s.stack.update(s.sp as int, s.pc), sp: (s.sp + 1) as u16, pc: op.nnn, ..s }
    } else if op.leading == 0x3 {
        Machine { pc: skip_if(s, vx == op.kk), ..s }
    } else if op.leading == 0x4 {
        Machine { pc: skip_if(s, vx != op.kk), ..s }
    } else if op.leading == 0x5 {
        Machine { pc: skip_if(s, vx == vy), ..s }
    } else if op.leading == 0x6 {
        Machine { v: s.v.update(x, op.kk), pc: pc2, ..s }
    } else if op.leading == 0x7 {
        Machine { v: s.v.update(x, ((vx + op.kk) % 256) as u8), pc: pc2, ..s }
    } else if op.leading == 0x8 {
        Machine { v: alu(s.v, op), pc: pc2, ..s }
    } else if op.leading == 0x9 {
        Machine { pc: skip_if(s, vx != vy), ..s }
    } else if op.leading == 0xA {
        Machine { index: op.nnn, pc: pc2, ..s }
    } else if op.leading == 0xB {
        Machine { pc: (op.nnn + s.v[0]) as u16, ..s }
    } else if op.leading == 0xC {
        Machine { v: s.v.update(x, random & op.kk), pc: pc2, ..s }
    } else if op.leading == 0xD {
        draw(s, op)
    } else if op.leading == 0xE {
        let pressed = s.key is Some;
        let k = s.key->Some_0;
        if op.kk == 0x9E {
            Machine { pc: skip_if(s, pressed && vx == k), ..s }
        } else {
            Machine { pc: skip_if(s, pressed && vx != k), ..s }
        }
    } else {
        misc(s, op)
    }
}

/// Registers after the register-to-register instruction `8xyn`.
pub open spec fn alu(v: Seq<u8>, op: Opcode) -> Seq<u8> {
    let x = op.x as int;
    let vx = v[x];
    let vy = v[op.y as int];
    if op.n == 0x0 {
        v.update(x, vy)
    } else if op.n == 0x1 {
        v.update(x, vx | vy)
    } else if op.n == 0x2 {
        v.update(x, vx & vy)
    } else if op.n == 0x3 {
        v.update(x, vx ^ vy)
    } else if op.n == 0x4 {
        v.update(x, ((vx + vy) % 256) as u8).update(15, if vx + vy > 255 { 1u8 } else { 0u8 })
    } else if op.n == 0x5 {
        v.update(x, ((vx - vy) % 256) as u8).update(15, if vx < vy { 1u8 } else { 0u8 })
    } else if op.n == 0x6 {
        let w = v.update(15, vx % 2);
        w.update(x, w[x] / 2)
    } else if op.n == 0x7 {
        v.update(x, ((vy - vx) % 256) as u8).update(15, if vy < vx { 1u8 } else { 0u8 })
    } else {
        let w = v.update(15, vx / 128);
        w.update(x, ((w[x] * 2) % 256) as u8)
    }
}

/// Bit `col` of a sprite row, counted from the most significant bit.
pub open spec fn sprite_bit(row: u8, col: int) -> bool {
    (row >> ((7 - col) as u8)) & 1u8 == 1u8
}

/// Whether a sprite of `n` rows read from `memory` at `index`, drawn at
/// (`vx`, `vy`) with both coordinates wrapping around the screen, has a set
/// bit on the pixel at column `px`, row `py`.
pub open spec fn covers(memory: Seq<u8>, index: u16, n: u8, vx: u8, vy: u8, px: int, py: int) -> bool {
    let col = (px - vx) % (SCREEN_WIDTH as int);
    let row = (py - vy) % (SCREEN_HEIGHT as int);
    row < n && col < 8 && sprite_bit(memory[index + row], col)
}

/// Whether sprite drawing instruction `op` covers the pixel at index `p`.
pub open spec fn draw_covers(s: Machine, op: Opcode, p: int) -> bool {
    covers(
        s.memory,
        s.index,
        op.n,
        s.v[op.x as int],
        s.v[op.y as int],
        p % (SCREEN_WIDTH as int),
        p / (SCREEN_WIDTH as int),
    )
}

/// Whether the sprite of `op` erases a lit pixel.
pub open spec fn collides(s: Machine, op: Opcode) -> bool {
    exists|p: int| 0 <= p < s.display.len() && s.display[p] && #[trigger] draw_covers(s, op, p)
}

/// The machine after `Dxyn`: each covered pixel flips, VF tells whether one
/// was erased, and a redraw is asked for.
pub open spec fn draw(s: Machine, op: Opcode) -> Machine {
    Machine {
        display: Seq::new(s.display.len(), |p: int| s.display[p] != draw_covers(s, op, p)),
        v: s.v.update(15, if collides(s, op) { 1u8 } else { 0u8 }),
        redraw: true,
        pc: (s.pc + 2) as u16,
        ..s
    }
}

/// The machine after an instruction of family `0xF`.
pub open spec fn misc(s: Machine, op: Opcode) -> Machine {
    let x = op.x as int;
    let vx = s.v[x];
    let i = s.index as int;
    let pc2 = (s.pc + 2) as u16;
    if op.kk == 0x07 {
        Machine { v: s.v.update(x, s.delay), pc: pc2, ..s }
    } else if op.kk == 0x0A {
        match s.key {
            Some(k) => Machine { v: s.v.update(x, k), pc: pc2, redraw: true, ..s },
            None => Machine { redraw: true, ..s },
        }
    } else if op.kk == 0x15 {
        Machine { delay: vx, pc: pc2, ..s }
    } else if op.kk == 0x18 {
        Machine { sound: vx, pc: pc2, ..s }
    } else if op.kk == 0x1E {
        let sum = s.index + vx;
        Machine {
            index: sum as u16,
            v: s.v.update(15, if sum > 0x0F00 { 1u8 } else { 0u8 }),
            pc: pc2,
            ..s
        }
    } else if op.kk == 0x29 {
        Machine { index: (vx * 5) as u16, pc: pc2, ..s }
    } else if op.kk == 0x33 {
        Machine { memory: splice(s.memory, i, bcd(vx)), pc: pc2, ..s }
    } else if op.kk == 0x55 {
        Machine { memory: splice(s.memory, i, s.v.subrange(0, x + 1)), pc: pc2, ..s }
    } else {
        Machine { v: splice(s.v, 0, s.memory.subrange(i, i + x + 1)), pc: pc2, ..s }
    }
}

/// The three decimal digits of `b`, hundreds first.
pub open spec fn bcd(b: u8) -> Seq<u8> {
    seq![b / 100, (b % 100) / 10, b % 10]
}

} // verus!
