use rand::Rng;
use vstd::prelude::*;

use crate::machine::{
    alu, covers, execute, fault, instruction_fault, misc, next, splice, Fault, Machine,
    MEMORY_SIZE, PROGRAM_START, SCREEN_HEIGHT, SCREEN_WIDTH, STACK_DEPTH,
};
use crate::opcode::Opcode;

verus! {

/// Relies on rand::thread_rng and rand::Rng::gen: a byte from the thread's
/// generator. Nothing is known of its value.
#[verifier::external_body]
fn random_byte() -> (r: u8) {
    rand::thread_rng().gen::<u8>()
}

/// Copies `count` bytes of `src`, from `from` on, into `dest` from `start` on.
fn write_bytes(dest: &mut Vec<u8>, start: usize, src: &[u8], from: usize, count: usize)
    requires
        start + count <= old(dest)@.len(),
        from + count <= src@.len(),
    ensures
        final(dest)@ == splice(old(dest)@, start as int, src@.subrange(from as int, from + count)),
{
    let dest_len = dest.len();
    let src_len = src.len();
    let mut k: usize = 0;
    while k < count
        invariant
            k <= count,
            dest_len == dest@.len(),
            src_len == src@.len(),
            start + count <= dest@.len(),
            from + count <= src@.len(),
            dest@ == splice(old(dest)@, start as int, src@.subrange(from as int, from + k)),
        decreases count - k,
    {
        dest.set(start + k, src[from + k]);
        k += 1;
        assert(dest@ =~= splice(old(dest)@, start as int, src@.subrange(from as int, from + k)));
    }
}

/// Pixel `p` of the screen is done when its sprite row is before `byte`, or
/// is `byte` with its column before `bit`.
spec fn done_before(vx: u8, vy: u8, p: int, byte: int, bit: int) -> bool {
    let col = sprite_col(vx, p);
    let row = sprite_row(vy, p);
    row < byte || (row == byte && col < bit)
}

/// Column of the sprite drawn at `vx` that lands on pixel `p`.
pub(crate) open spec fn sprite_col(vx: u8, p: int) -> int {
    (p % (SCREEN_WIDTH as int) - vx) % (SCREEN_WIDTH as int)
}

/// Row of the sprite drawn at `vy` that lands on pixel `p`.
pub(crate) open spec fn sprite_row(vy: u8, p: int) -> int {
    (p / (SCREEN_WIDTH as int) - vy) % (SCREEN_HEIGHT as int)
}

/// Row and column of a sprite bit land on one pixel, and no other pixel
/// has that row and column.
#[verifier::rlimit(40)]
pub(crate) proof fn lemma_pixel_place(vx: u8, vy: u8, byte: int, bit: int)
    requires
        0 <= byte < 16,
        0 <= bit < 8,
    ensures
        ({
            let px = (vx + bit) % 64;
            let py = (vy + byte) % 32;
            let idx = py * 64 + px;
            &&& 0 <= idx < 2048
            &&& idx % 64 == px
            &&& idx / 64 == py
            &&& (px - vx) % 64 == bit
            &&& (py - vy) % 32 == byte
            &&& forall|p: int|
                0 <= p < 2048 && #[trigger] sprite_col(vx, p) == bit && sprite_row(vy, p) == byte ==> p == idx
        }),
{
    let px = (vx + bit) % 64;
    let py = (vy + byte) % 32;
    let idx = py * 64 + px;
    assert(0 <= px < 64 && 0 <= py < 32);
    assert(idx % 64 == px && idx / 64 == py) by (nonlinear_arith)
        requires idx == py * 64 + px, 0 <= px < 64, 0 <= py < 32;
    assert forall|p: int|
        0 <= p < 2048 && #[trigger] sprite_col(vx, p) == bit && sprite_row(vy, p) == byte implies p == idx by {
        let q = p % 64;
        let r = p / 64;
        assert(p == r * 64 + q && 0 <= q < 64 && 0 <= r < 32) by (nonlinear_arith)
            requires 0 <= p < 2048, q == p % 64, r == p / 64;
    }
}

/// XORs a sprite of `n` rows, read from `memory` at `index`, onto `display`
/// at (`vx`, `vy`), wrapping each pixel around the screen. Returns whether a
/// lit pixel was erased.
fn blit(display: &mut Vec<bool>, memory: &Vec<u8>, index: usize, n: u8, vx: u8, vy: u8) -> (collided: bool)
    requires
        old(display)@.len() == SCREEN_WIDTH * SCREEN_HEIGHT,
        n < 16,
        n > 0 ==> index + n <= memory@.len(),
        index < 0x10000,
    ensures
        final(display)@.len() == old(display)@.len(),
        forall|p: int| 0 <= p < old(display)@.len() ==> #[trigger] final(display)@[p] == (old(display)@[p]
            != covers(memory@, index as u16, n, vx, vy, p % 64, p / 64)),
        collided == exists|p: int| 0 <= p < old(display)@.len() && old(display)@[p]
            && #[trigger] covers(memory@, index as u16, n, vx, vy, p % 64, p / 64),
{
    let ghost d0 = display@;
    let ghost cov = |p: int| covers(memory@, index as u16, n, vx, vy, p % 64, p / 64);
    let mut collided = false;
    let mut byte: u8 = 0;
    while byte < n
        invariant
            byte <= n < 16,
            n > 0 ==> index + n <= memory@.len(),
            index < 0x10000,
            d0.len() == 2048,
            display@.len() == 2048,
            cov == (|p: int| covers(memory@, index as u16, n, vx, vy, p % 64, p / 64)),
            forall|p: int| 0 <= p < 2048 ==> #[trigger] display@[p] == (d0[p] != (cov(p) && done_before(vx, vy, p, byte as int, 0))),
            collided == exists|p: int| 0 <= p < 2048 && d0[p] && #[trigger] cov(p) && done_before(vx, vy, p, byte as int, 0),
        decreases n - byte,
    {
        let py = (vy as usize + byte as usize) % SCREEN_HEIGHT;
        let row = memory[index + byte as usize];
        let mut bit: u8 = 0;
        proof {
            assert forall|p: int| 0 <= p < 2048 implies
                done_before(vx, vy, p, byte as int, 0) == done_before(vx, vy, p, byte as int, bit as int) by {}
        }
        while bit < 8
            invariant
                byte < n < 16,
                bit <= 8,
                index + n <= memory@.len(),
                index < 0x10000,
                py == (vy + byte) % 32,
                row == memory@[index + byte],
                d0.len() == 2048,
                display@.len() == 2048,
                cov == (|p: int| covers(memory@, index as u16, n, vx, vy, p % 64, p / 64)),
                forall|p: int| 0 <= p < 2048 ==> #[trigger] display@[p] == (d0[p] != (cov(p) && done_before(vx, vy, p, byte as int, bit as int))),
                collided == exists|p: int| 0 <= p < 2048 && d0[p] && #[trigger] cov(p) && done_before(vx, vy, p, byte as int, bit as int),
            decreases 8 - bit,
        {
            let px = (vx as usize + bit as usize) % SCREEN_WIDTH;
            let idx = py * SCREEN_WIDTH + px;
            let color = (row >> (7 - bit)) & 1;
            proof {
                lemma_pixel_place(vx, vy, byte as int, bit as int);
                assert(cov(idx as int) == (color == 1u8));
                assert forall|p: int| 0 <= p < 2048 implies
                    #[trigger] done_before(vx, vy, p, byte as int, bit + 1) == (done_before(vx, vy, p, byte as int, bit as int) || p == idx) by {}
            }
            let lit = display[idx];
            let ghost old_collided = collided;
            let ghost before = display@;
            if color == 1 {
                if lit {
                    collided = true;
                }
                display.set(idx, !lit);
            }
            bit += 1;
            proof {
                assert forall|p: int| 0 <= p < 2048 implies #[trigger] display@[p] == (d0[p] != (cov(p) && done_before(vx, vy, p, byte as int, bit as int))) by {
                    if p != idx {
                        assert(display@[p] == before[p]);
                    }
                }
                if collided && !old_collided {
                    assert(d0[idx as int] && cov(idx as int) && done_before(vx, vy, idx as int, byte as int, bit as int));
                }
                if old_collided {
                    let w = choose|p: int| 0 <= p < 2048 && d0[p] && #[trigger] cov(p) && done_before(vx, vy, p, byte as int, (bit - 1) as int);
                    assert(done_before(vx, vy, w, byte as int, bit as int));
                }
                if !collided {
                    assert forall|p: int| 0 <= p < 2048 && d0[p] && #[trigger] cov(p) implies !done_before(vx, vy, p, byte as int, bit as int) by {
                        if p == idx {
                            assert(before[p] == d0[p]);
                        }
                    }
                }
            }
        }
        byte += 1;
        proof {
            assert forall|p: int| 0 <= p < 2048 implies
                (cov(p) && done_before(vx, vy, p, byte as int, 0)) == (cov(p) && done_before(vx, vy, p, (byte - 1) as int, 8)) by {
            }
            if collided {
                let w = choose|p: int| 0 <= p < 2048 && d0[p] && #[trigger] cov(p) && done_before(vx, vy, p, (byte - 1) as int, 8);
                assert(done_before(vx, vy, w, byte as int, 0));
            }
        }
    }
    proof {
        assert forall|p: int| 0 <= p < 2048 implies cov(p) == (cov(p) && done_before(vx, vy, p, byte as int, 0)) by {
            assert(0 <= sprite_row(vy, p));
        }
        if collided {
            let w = choose|p: int| 0 <= p < 2048 && d0[p] && #[trigger] cov(p) && done_before(vx, vy, p, byte as int, 0);
            assert(covers(memory@, index as u16, n, vx, vy, w % 64, w / 64));
        } else {
            assert forall|p: int| 0 <= p < 2048 && d0[p] implies
                !#[trigger] covers(memory@, index as u16, n, vx, vy, p % 64, p / 64) by {
                if covers(memory@, index as u16, n, vx, vy, p % 64, p / 64) {
                    assert(cov(p) && done_before(vx, vy, p, byte as int, 0));
                }
            }
        }
    }
    collided
}

/// The interpreter: registers, memory, call stack, timers, display and the
/// key currently pressed.
pub struct Chip8 {
    counter: u16,
    stack_pointer: u16,
    stack: Vec<u16>,
    address_register: u16,
    memory: Vec<u8>,
    data_registers: Vec<u8>,
    delay_timer: u8,
    sound_timer: u8,
    redraw_flag: bool,
    display: Vec<bool>,
    pressed_key: Option<u8>,
}

impl View for Chip8 {
    type V = Machine;

    closed spec fn view(&self) -> Machine {
        Machine {
            pc: self.counter,
            sp: self.stack_pointer,
            stack: self.stack@,
            index: self.address_register,
            memory: self.memory@,
            v: self.data_registers@,
            delay: self.delay_timer,
            sound: self.sound_timer,
            redraw: self.redraw_flag,
            display: self.display@,
            key: self.pressed_key,
        }
    }
}

impl Chip8 {
    /// A machine at power-on.
    pub fn new() -> (r: Chip8)
        ensures
            r@ == Machine::initial(),
            r@.wf(),
    {
        let r = Chip8 {
            counter: PROGRAM_START,
            stack_pointer: 0,
            stack: vec![0u16; 16],
            address_register: 0,
            memory: vec![0u8; MEMORY_SIZE],
            data_registers: vec![0u8; 16],
            delay_timer: 0,
            sound_timer: 0,
            redraw_flag: false,
            display: vec![false; SCREEN_WIDTH * SCREEN_HEIGHT],
            pressed_key: None,
        };
        assert(r.stack@ =~= Machine::initial().stack);
        assert(r.memory@ =~= Machine::initial().memory);
        assert(r.data_registers@ =~= Machine::initial().v);
        assert(r.display@ =~= Machine::initial().display);
        r
    }

    /// Copies the font table into memory from address 0 on.
    pub fn load_fonts(&mut self, fonts: Vec<u8>)
        requires
            old(self)@.wf(),
            fonts@.len() <= MEMORY_SIZE,
        ensures
            final(self)@ == (Machine { memory: splice(old(self)@.memory, 0, fonts@), ..old(self)@ }),
            final(self)@.wf(),
    {
        write_bytes(&mut self.memory, 0, fonts.as_slice(), 0, fonts.len());
        assert(fonts@.subrange(0, fonts@.len() as int) =~= fonts@);
    }

    /// Copies a program image into memory from the load address on.
    pub fn load_rom(&mut self, program: &[u8])
        requires
            old(self)@.wf(),
            PROGRAM_START + program@.len() <= MEMORY_SIZE,
        ensures
            final(self)@ == (Machine {
                memory: splice(old(self)@.memory, PROGRAM_START as int, program@),
                ..old(self)@
            }),
            final(self)@.wf(),
    {
        write_bytes(&mut self.memory, PROGRAM_START as usize, program, 0, program.len());
        assert(program@.subrange(0, program@.len() as int) =~= program@);
    }

    /// Records the key held down now, if any.
    pub fn set_pressed_key(&mut self, key: Option<u8>)
        requires
            old(self)@.wf(),
        ensures
            final(self)@ == (Machine { key, ..old(self)@ }),
            final(self)@.wf(),
    {
        self.pressed_key = key;
    }

    /// Fetches, decodes and executes one instruction, with a random byte
    /// from the thread's generator for `Cxkk`, then ticks the timers. On a
    /// fault the machine is left as it was.
    pub fn run(&mut self) -> (r: Result<(), Fault>)
        requires
            old(self)@.wf(),
        ensures
            final(self)@.wf(),
            match r {
                Ok(()) => fault(old(self)@) is None && exists|random: u8| final(self)@ == next(old(self)@, random),
                Err(f) => fault(old(self)@) == Some(f) && final(self)@ == old(self)@,
            },
    {
        let random = random_byte();
        self.step(random)
    }

    /// Fetches, decodes and executes one instruction, with `random` as the
    /// byte drawn for `Cxkk`, then ticks the timers. On a fault the machine
    /// is left as it was.
    pub fn step(&mut self, random: u8) -> (r: Result<(), Fault>)
        requires
            old(self)@.wf(),
        ensures
            final(self)@.wf(),
            match r {
                Ok(()) => fault(old(self)@) is None && final(self)@ == next(old(self)@, random),
                Err(f) => fault(old(self)@) == Some(f) && final(self)@ == old(self)@,
            },
    {
        let pc = self.counter as usize;
        if pc + 1 >= MEMORY_SIZE {
            return Err(Fault::MemoryOutOfRange);
        }
        let word = Opcode::word_of(self.memory[pc], self.memory[pc + 1]);
        let op = Opcode::decode(word);
        match self.fault_of(word, op) {
            Some(f) => {
                return Err(f);
            },
            None => {},
        }
        self.execute(word, op, random);
        if self.delay_timer > 0 {
            self.delay_timer = self.delay_timer - 1;
        }
        if self.sound_timer > 0 {
            self.sound_timer = self.sound_timer - 1;
        }
        Ok(())
    }

    /// The fault that stops instruction `word` now, if any.
    fn fault_of(&self, word: u16, op: Opcode) -> (r: Option<Fault>)
        requires
            self@.wf(),
            op == Opcode::spec_decode(word),
        ensures
            r == instruction_fault(self@, word),
    {
        let x = op.x as usize;
        let index = self.address_register as usize;
        if op.leading == 0x0 {
            if op.nnn == 0x0EE && self.stack_pointer == 0 {
                Some(Fault::StackUnderflow)
            } else {
                None
            }
        } else if op.leading == 0x2 {
            if self.stack_pointer >= STACK_DEPTH {
                Some(Fault::StackOverflow)
            } else {
                None
            }
        } else if op.leading == 0x8 {
            if op.n <= 7 || op.n == 0xE {
                None
            } else {
                Some(Fault::IllegalInstruction(word))
            }
        } else if op.leading == 0xD {
            if op.n > 0 && index + op.n as usize > MEMORY_SIZE {
                Some(Fault::MemoryOutOfRange)
            } else {
                None
            }
        } else if op.leading == 0xE {
            if op.kk == 0x9E || op.kk == 0xA1 {
                None
            } else {
                Some(Fault::IllegalInstruction(word))
            }
        } else if op.leading == 0xF {
            let kk = op.kk;
            if kk == 0x07 || kk == 0x0A || kk == 0x15 || kk == 0x18 || kk == 0x29 {
                None
            } else if kk == 0x1E {
                if index + self.data_registers[x] as usize > 0xFFFF {
                    Some(Fault::MemoryOutOfRange)
                } else {
                    None
                }
            } else if kk == 0x33 {
                if index + 2 >= MEMORY_SIZE {
                    Some(Fault::MemoryOutOfRange)
                } else {
                    None
                }
            } else if kk == 0x55 || kk == 0x65 {
                if index + x >= MEMORY_SIZE {
                    Some(Fault::MemoryOutOfRange)
                } else {
                    None
                }
            } else {
                Some(Fault::IllegalInstruction(word))
            }
        } else {
            None
        }
    }

    /// Program counter past the current instruction, or past the next one
    /// too when `skip` holds.
    fn skip_if(&self, skip: bool) -> (r: u16)
        requires
            self.counter + 1 < MEMORY_SIZE,
        ensures
            r == crate::machine::skip_if(self@, skip),
    {
        if skip {
            self.counter + 4
        } else {
            self.counter + 2
        }
    }

    /// Carries out instruction `word`, which has no fault here.
    #[verifier::rlimit(60)]
    fn execute(&mut self, word: u16, op: Opcode, random: u8)
        requires
            old(self)@.wf(),
            old(self)@.pc + 1 < MEMORY_SIZE,
            op == Opcode::spec_decode(word),
            instruction_fault(old(self)@, word) is None,
        ensures
            final(self)@ == execute(old(self)@, word, random),
            final(self)@.wf(),
    {
        let x = op.x as usize;
        let vx = self.data_registers[x];
        let vy = self.data_registers[op.y as usize];
        if op.leading == 0x0 {
            if op.nnn == 0x0E0 {
                self.display = vec![false; SCREEN_WIDTH * SCREEN_HEIGHT];
                self.redraw_flag = true;
                self.counter = self.counter + 2;
                assert(self.display@ =~= execute(old(self)@, word, random).display);
            } else if op.nnn == 0x0EE {
                self.stack_pointer = self.stack_pointer - 1;
                self.counter = self.stack[self.stack_pointer as usize] + 2;
            } else {
                self.counter = self.counter + 2;
            }
        } else if op.leading == 0x1 {
            self.counter = op.nnn;
        } else if op.leading == 0x2 {
            self.stack.set(self.stack_pointer as usize, self.counter);
            self.stack_pointer = self.stack_pointer + 1;
            self.counter = op.nnn;
        } else if op.leading == 0x3 {
            self.counter = self.skip_if(vx == op.kk);
        } else if op.leading == 0x4 {
            self.counter = self.skip_if(vx != op.kk);
        } else if op.leading == 0x5 {
            self.counter = self.skip_if(vx == vy);
        } else if op.leading == 0x6 {
            self.data_registers.set(x, op.kk);
            self.counter = self.counter + 2;
        } else if op.leading == 0x7 {
            self.data_registers.set(x, vx.wrapping_add(op.kk));
            self.counter = self.counter + 2;
        } else if op.leading == 0x8 {
            self.exec_alu(op);
            self.counter = self.counter + 2;
        } else if op.leading == 0x9 {
            self.counter = self.skip_if(vx != vy);
        } else if op.leading == 0xA {
            self.address_register = op.nnn;
            self.counter = self.counter + 2;
        } else if op.leading == 0xB {
            self.counter = op.nnn + self.data_registers[0] as u16;
        } else if op.leading == 0xC {
            self.data_registers.set(x, random & op.kk);
            self.counter = self.counter + 2;
        } else if op.leading == 0xD {
            self.exec_draw(op);
        } else if op.leading == 0xE {
            let skip = match self.pressed_key {
                Some(k) => if op.kk == 0x9E { vx == k } else { vx != k },
                None => false,
            };
            self.counter = self.skip_if(skip);
        } else {
            self.exec_misc(word, op);
        }
    }

    /// Carries out the register-to-register instruction `op` of family `0x8`.
    fn exec_alu(&mut self, op: Opcode)
        requires
            old(self)@.wf(),
            op.leading == 0x8,
            op.x < 16 && op.y < 16,
            op.n <= 7 || op.n == 0xE,
        ensures
            final(self)@ == (Machine { v: alu(old(self)@.v, op), ..old(self)@ }),
    {
        let x = op.x as usize;
        let vx = self.data_registers[x];
        let vy = self.data_registers[op.y as usize];
        if op.n == 0x0 {
            self.data_registers.set(x, vy);
        } else if op.n == 0x1 {
            self.data_registers.set(x, vx | vy);
        } else if op.n == 0x2 {
            self.data_registers.set(x, vx & vy);
        } else if op.n == 0x3 {
            self.data_registers.set(x, vx ^ vy);
        } else if op.n == 0x4 {
            let sum = vx as u16 + vy as u16;
            self.data_registers.set(x, vx.wrapping_add(vy));
            self.data_registers.set(15, if sum > 255 { 1 } else { 0 });
        } else if op.n == 0x5 {
            self.data_registers.set(x, vx.wrapping_sub(vy));
            self.data_registers.set(15, if vx < vy { 1 } else { 0 });
        } else if op.n == 0x6 {
            assert(vx & 1u8 == vx % 2) by (bit_vector);
            self.data_registers.set(15, vx & 1);
            let w = self.data_registers[x];
            assert(w >> 1u8 == w / 2) by (bit_vector);
            self.data_registers.set(x, w >> 1);
        } else if op.n == 0x7 {
            self.data_registers.set(x, vy.wrapping_sub(vx));
            self.data_registers.set(15, if vy < vx { 1 } else { 0 });
        } else {
            assert(vx >> 7u8 == vx / 128) by (bit_vector);
            self.data_registers.set(15, vx >> 7);
            let w = self.data_registers[x];
            assert(w << 1u8 == (w * 2) % 256) by (bit_vector);
            self.data_registers.set(x, w << 1);
        }
    }

    /// Carries out `Dxyn`, whose sprite lies inside memory.
    fn exec_draw(&mut self, op: Opcode)
        requires
            old(self)@.wf(),
            old(self)@.pc + 1 < MEMORY_SIZE,
            op.leading == 0xD,
            op.x < 16 && op.y < 16 && op.n < 16,
            op.n > 0 ==> old(self)@.index + op.n <= MEMORY_SIZE,
        ensures
            final(self)@ == crate::machine::draw(old(self)@, op),
            final(self)@.wf(),
    {
        let vx = self.data_registers[op.x as usize];
        let vy = self.data_registers[op.y as usize];
        let index = self.address_register as usize;
        let ghost s0 = self@;
        let collided = blit(&mut self.display, &self.memory, index, op.n, vx, vy);
        self.data_registers.set(15, if collided { 1 } else { 0 });
        self.redraw_flag = true;
        self.counter = self.counter + 2;
        proof {
            let d = crate::machine::draw(s0, op);
            assert(self.display@ =~= d.display);
            assert forall|p: int| #[trigger] crate::machine::draw_covers(s0, op, p)
                == covers(s0.memory, s0.index, op.n, vx, vy, p % 64, p / 64) by {}
            if collided {
                let w = choose|p: int| 0 <= p < 2048 && s0.display[p]
                    && #[trigger] covers(s0.memory, s0.index, op.n, vx, vy, p % 64, p / 64);
                assert(crate::machine::draw_covers(s0, op, w));
            } else {
                assert forall|p: int| 0 <= p < 2048 && s0.display[p] implies
                    !#[trigger] crate::machine::draw_covers(s0, op, p) by {
                    assert(s0.display.len() == 2048);
                    assert(self.memory@ == s0.memory && index as u16 == s0.index);
                    assert(!covers(self.memory@, index as u16, op.n, vx, vy, p % 64, p / 64));
                }
            }
            assert(collided == crate::machine::collides(s0, op));
        }
    }

    /// Carries out the instruction `op` of family `0xF`, which has no fault
    /// here.
    fn exec_misc(&mut self, word: u16, op: Opcode)
        requires
            old(self)@.wf(),
            old(self)@.pc + 1 < MEMORY_SIZE,
            op == Opcode::spec_decode(word),
            op.leading == 0xF,
            op.x < 16,
            crate::machine::misc_fault(old(self)@, word) is None,
        ensures
            final(self)@ == misc(old(self)@, op),
            final(self)@.wf(),
    {
        let x = op.x as usize;
        let vx = self.data_registers[x];
        let index = self.address_register as usize;
        let kk = op.kk;
        if kk == 0x07 {
            self.data_registers.set(x, self.delay_timer);
            self.counter = self.counter + 2;
        } else if kk == 0x0A {
            match self.pressed_key {
                Some(k) => {
                    self.data_registers.set(x, k);
                    self.counter = self.counter + 2;
                },
                None => {},
            }
            self.redraw_flag = true;
        } else if kk == 0x15 {
            self.delay_timer = vx;
            self.counter = self.counter + 2;
        } else if kk == 0x18 {
            self.sound_timer = vx;
            self.counter = self.counter + 2;
        } else if kk == 0x1E {
            let sum = self.address_register + vx as u16;
            self.address_register = sum;
            self.data_registers.set(15, if sum > 0x0F00 { 1 } else { 0 });
            self.counter = self.counter + 2;
        } else if kk == 0x29 {
            self.address_register = vx as u16 * 5;
            self.counter = self.counter + 2;
        } else if kk == 0x33 {
            self.memory.set(index, vx / 100);
            self.memory.set(index + 1, (vx % 100) / 10);
            self.memory.set(index + 2, vx % 10);
            self.counter = self.counter + 2;
            assert(self.memory@ =~= misc(old(self)@, op).memory);
        } else if kk == 0x55 {
            write_bytes(&mut self.memory, index, self.data_registers.as_slice(), 0, x + 1);
            self.counter = self.counter + 2;
        } else {
            write_bytes(&mut self.data_registers, 0, self.memory.as_slice(), index, x + 1);
            self.counter = self.counter + 2;
        }
    }

    /// The program counter.
    pub fn pc(&self) -> (r: u16)
        ensures
            r == self@.pc,
    {
        self.counter
    }

    /// The number of return addresses on the call stack.
    pub fn stack_pointer(&self) -> (r: u16)
        ensures
            r == self@.sp,
    {
        self.stack_pointer
    }

    /// The address register I.
    pub fn index_register(&self) -> (r: u16)
        ensures
            r == self@.index,
    {
        self.address_register
    }

    /// Register V`reg`.
    pub fn register(&self, reg: usize) -> (r: u8)
        requires
            self@.wf(),
            reg < 16,
        ensures
            r == self@.v[reg as int],
    {
        self.data_registers[reg]
    }

    /// The delay timer.
    pub fn delay_timer(&self) -> (r: u8)
        ensures
            r == self@.delay,
    {
        self.delay_timer
    }

    /// The sound timer.
    pub fn sound_timer(&self) -> (r: u8)
        ensures
            r == self@.sound,
    {
        self.sound_timer
    }

    /// The byte at `addr`.
    pub fn memory_at(&self, addr: usize) -> (r: u8)
        requires
            self@.wf(),
            addr < MEMORY_SIZE,
        ensures
            r == self@.memory[addr as int],
    {
        self.memory[addr]
    }

    /// Whether the pixel at column `x`, row `y` is lit.
    pub fn pixel(&self, x: usize, y: usize) -> (r: bool)
        requires
            self@.wf(),
            x < SCREEN_WIDTH,
            y < SCREEN_HEIGHT,
        ensures
            r == self@.pixel(x as int, y as int),
    {
        self.display[y * SCREEN_WIDTH + x]
    }

    /// The whole display, row by row.
    pub fn display(&self) -> (r: &[bool])
        ensures
            r@ == self@.display,
    {
        self.display.as_slice()
    }

    /// Whether the display changed since the flag was last cleared.
    pub fn redraw_flag(&self) -> (r: bool)
        ensures
            r == self@.redraw,
    {
        self.redraw_flag
    }

    /// Acknowledges a redraw.
    pub fn clear_redraw_flag(&mut self)
        requires
            old(self)@.wf(),
        ensures
            final(self)@ == (Machine { redraw: false, ..old(self)@ }),
            final(self)@.wf(),
    {
        self.redraw_flag = false;
    }

    /// The key held down, if any.
    pub fn pressed_key(&self) -> (r: Option<u8>)
        ensures
            r == self@.key,
    {
        self.pressed_key
    }
}

} // verus!
