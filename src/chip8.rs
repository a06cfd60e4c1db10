use rand::rngs::SmallRng;
use rand::{Rng, SeedableRng};
use vstd::prelude::*;

use crate::keypad::{key_down, lowest_pressed, Keypad};
use crate::opcode::{nib0, nib1, nib2, nib3, word_of, OpCode};
use crate::reg::{IndexRegister, U12_MAX};
use crate::timer::Timer;
use crate::video::{collides, drawn, DrawCoords, Video, NUM_PIXELS};

verus! {

pub const MEMORY_SIZE_BYTES: usize = 4096;
pub const PROG_CTR_START_ADDR: u16 = 0x200;
pub const MAX_ROM_SIZE_BYTES: usize = 3584;
pub const FONTSET_START_ADDR: usize = 0x50;
pub const FONT_SET_LEN: usize = 80;
pub const STACK_DEPTH: u8 = 16;
/// The seed of the random source of an interpreter made by `Default`.
pub const DEFAULT_SEED: u64 = 0x5EED;

#[verifier::external_type_specification]
#[verifier::external_body]
pub struct ExSmallRng(SmallRng);

/// Relies on rand's `SeedableRng::seed_from_u64` for `SmallRng`: a generator
/// seeded from `seed`; it does not panic.
#[verifier::external_body]
fn seeded_rng(seed: u64) -> (r: SmallRng) {
    SmallRng::seed_from_u64(seed)
}

/// Relies on rand's `Rng::gen::<u8>`: the next byte of the generator, any value.
#[verifier::external_body]
fn random_byte(rng: &mut SmallRng) -> (r: u8) {
    rng.gen::<u8>()
}

/// Why a ROM could not be loaded, or why a step could not complete.
#[derive(Debug, Clone, Copy, PartialEq, Eq, Structural)]
pub enum Chip8Error {
    /// The ROM holds this many bytes: none, or more than the program region.
    InvalidRomLength(usize),
    /// The program counter leaves no room for a two-byte fetch.
    PcOutOfRange(u16),
    /// A return with an empty call stack.
    StackUnderflow(u16),
    /// A call with all sixteen stack slots in use.
    StackOverflow(u16),
    /// An instruction word that no handler decodes.
    UnknownOpcode(u16),
    /// The index register would leave its twelve bits.
    IndexOutOfRange(u16),
    /// A key query with this index, which is not one of the sixteen keys.
    KeyOutOfRange(u8),
    /// The instruction would read or write memory past its end.
    MemoryOutOfRange(u16),
}

/// The 80 bytes of the built-in hexadecimal digit sprites, five per digit.
pub open spec fn font_glyphs() -> Seq<u8> {
    seq![
        0xF0u8, 0x90, 0x90, 0x90, 0xF0, 0x20, 0x60, 0x20, 0x20, 0x70,
        0xF0, 0x10, 0xF0, 0x80, 0xF0, 0xF0, 0x10, 0xF0, 0x10, 0xF0,
        0x90, 0x90, 0xF0, 0x10, 0x10, 0xF0, 0x80, 0xF0, 0x10, 0xF0,
        0xF0, 0x80, 0xF0, 0x90, 0xF0, 0xF0, 0x10, 0x20, 0x40, 0x40,
        0xF0, 0x90, 0xF0, 0x90, 0xF0, 0xF0, 0x90, 0xF0, 0x10, 0xF0,
        0xF0, 0x90, 0xF0, 0x90, 0x90, 0xE0, 0x90, 0xE0, 0x90, 0xE0,
        0xF0, 0x80, 0x80, 0x80, 0xF0, 0xE0, 0x90, 0x90, 0x90, 0xE0,
        0xF0, 0x80, 0xF0, 0x80, 0xF0, 0xF0, 0x80, 0xF0, 0x80, 0x80,
    ]
}

/// The digit sprites as bytes.
pub fn font_set() -> (r: [u8; 80])
    ensures
        r@ == font_glyphs(),
{
    let r: [u8; 80] = [
        0xF0, 0x90, 0x90, 0x90, 0xF0, 0x20, 0x60, 0x20, 0x20, 0x70,
        0xF0, 0x10, 0xF0, 0x80, 0xF0, 0xF0, 0x10, 0xF0, 0x10, 0xF0,
        0x90, 0x90, 0xF0, 0x10, 0x10, 0xF0, 0x80, 0xF0, 0x10, 0xF0,
        0xF0, 0x80, 0xF0, 0x90, 0xF0, 0xF0, 0x10, 0x20, 0x40, 0x40,
        0xF0, 0x90, 0xF0, 0x90, 0xF0, 0xF0, 0x90, 0xF0, 0x10, 0xF0,
        0xF0, 0x90, 0xF0, 0x90, 0x90, 0xE0, 0x90, 0xE0, 0x90, 0xE0,
        0xF0, 0x80, 0x80, 0x80, 0xF0, 0xE0, 0x90, 0x90, 0x90, 0xE0,
        0xF0, 0x80, 0xF0, 0x80, 0xF0, 0xF0, 0x80, 0xF0, 0x80, 0x80,
    ];
    assert(r@ =~= font_glyphs());
    r
}


/// What an interpreter holds, as mathematical values.
pub struct MachineState {
    pub registers: Seq<u8>,
    pub memory: Seq<u8>,
    pub index: u16,
    pub pc: u16,
    pub stack: Seq<u16>,
    pub sp: u8,
    pub delay: u8,
    pub sound: u8,
    pub keys: u16,
    pub screen: Seq<u8>,
}

impl MachineState {
    pub open spec fn with_reg(self, i: int, v: u8) -> MachineState {
        MachineState { registers: self.registers.update(i, v), ..self }
    }

    pub open spec fn with_pc(self, pc: u16) -> MachineState {
        MachineState { pc, ..self }
    }

    /// Skips the next instruction when `cond` holds.
    pub open spec fn skip_if(self, cond: bool) -> MachineState {
        if cond { self.with_pc(self.pc.wrapping_add(2)) } else { self }
    }

    pub open spec fn vx(self, op: u16) -> u8 {
        self.registers[nib1(op) as int]
    }

    pub open spec fn vy(self, op: u16) -> u8 {
        self.registers[nib2(op) as int]
    }
}

/// Memory at start-up: the digit sprites at their base address, zero elsewhere.
pub open spec fn initial_memory() -> Seq<u8> {
    Seq::new(4096, |i: int| if 0x50 <= i < 0xA0 { font_glyphs()[i - 0x50] } else { 0u8 })
}

pub open spec fn initial_state() -> MachineState {
    MachineState {
        registers: Seq::new(16, |i: int| 0u8),
        memory: initial_memory(),
        index: 0,
        pc: 0x200,
        stack: Seq::new(16, |i: int| 0u16),
        sp: 0,
        delay: 0,
        sound: 0,
        keys: 0,
        screen: Seq::new(2048, |i: int| 0u8),
    }
}

/// Memory with `rom` copied to the start of the program region.
pub open spec fn with_rom(mem: Seq<u8>, rom: Seq<u8>) -> Seq<u8> {
    Seq::new(mem.len(), |i: int| if 0x200 <= i < 0x200 + rom.len() { rom[i - 0x200] } else { mem[i] })
}

pub open spec fn spec_cls(s: MachineState) -> MachineState {
    MachineState { screen: Seq::new(2048, |i: int| 0u8), ..s }
}

pub open spec fn spec_ret(s: MachineState, op: u16) -> Result<MachineState, Chip8Error> {
    if s.sp == 0 {
        Err(Chip8Error::StackUnderflow(op))
    } else {
        Ok(MachineState { sp: (s.sp - 1) as u8, pc: s.stack[s.sp - 1], ..s })
    }
}

pub open spec fn spec_call(s: MachineState, op: u16) -> Result<MachineState, Chip8Error> {
    if s.sp >= 16 {
        Err(Chip8Error::StackOverflow(op))
    } else {
        Ok(MachineState {
            stack: s.stack.update(s.sp as int, s.pc),
            sp: (s.sp + 1) as u8,
            pc: (op % 4096) as u16,
            ..s
        })
    }
}

pub open spec fn spec_add_reg(s: MachineState, op: u16) -> MachineState {
    let (a, b) = (s.vx(op), s.vy(op));
    s.with_reg(nib1(op) as int, a.wrapping_add(b)).with_reg(15, if a + b > 255 { 1 } else { 0 })
}

pub open spec fn spec_sub_reg(s: MachineState, op: u16) -> MachineState {
    let (a, b) = (s.vx(op), s.vy(op));
    s.with_reg(nib1(op) as int, a.wrapping_sub(b)).with_reg(15, if a >= b { 1 } else { 0 })
}

pub open spec fn spec_subn_reg(s: MachineState, op: u16) -> MachineState {
    let (a, b) = (s.vx(op), s.vy(op));
    s.with_reg(nib1(op) as int, b.wrapping_sub(a)).with_reg(15, if b >= a { 1 } else { 0 })
}

pub open spec fn spec_shr(s: MachineState, op: u16) -> MachineState {
    let a = s.vx(op);
    s.with_reg(15, a % 2).with_reg(nib1(op) as int, a / 2)
}

pub open spec fn spec_shl(s: MachineState, op: u16) -> MachineState {
    let a = s.vx(op);
    s.with_reg(15, a / 128).with_reg(nib1(op) as int, ((a * 2) % 256) as u8)
}

pub open spec fn spec_draw(s: MachineState, op: u16) -> Result<MachineState, Chip8Error> {
    let n = nib3(op) as int;
    if s.index + n > 4096 {
        Err(Chip8Error::MemoryOutOfRange(op))
    } else {
        let sprite = s.memory.subrange(s.index as int, s.index + n);
        let x = (s.vx(op) % 64) as int;
        let y = (s.vy(op) % 32) as int;
        Ok(MachineState { screen: drawn(s.screen, sprite, x, y), ..s }.with_reg(
            15,
            if collides(s.screen, sprite, x, y) { 1 } else { 0 },
        ))
    }
}

/// Ex9E skips when the key in Vx is down, ExA1 when it is up.
pub open spec fn spec_skip_key(s: MachineState, op: u16, down: bool) -> Result<MachineState, Chip8Error> {
    if s.vx(op) >= 16 {
        Err(Chip8Error::KeyOutOfRange(s.vx(op)))
    } else {
        Ok(s.skip_if(key_down(s.keys, s.vx(op)) == down))
    }
}

pub open spec fn spec_wait_key(s: MachineState, op: u16) -> MachineState {
    match lowest_pressed(s.keys) {
        Some(k) => s.with_reg(nib1(op) as int, k),
        None => s.with_pc(s.pc.wrapping_sub(2)),
    }
}

pub open spec fn spec_add_index(s: MachineState, op: u16) -> Result<MachineState, Chip8Error> {
    if s.index + s.vx(op) > 0xFFF {
        Err(Chip8Error::IndexOutOfRange(op))
    } else {
        Ok(MachineState { index: (s.index + s.vx(op)) as u16, ..s })
    }
}

pub open spec fn spec_bcd(s: MachineState, op: u16) -> Result<MachineState, Chip8Error> {
    let i = s.index as int;
    let v = s.vx(op);
    if i < 0x200 || i + 2 >= 4096 {
        Err(Chip8Error::MemoryOutOfRange(op))
    } else {
        Ok(MachineState {
            memory: s.memory.update(i, v / 100).update(i + 1, (v / 10) % 10).update(i + 2, v % 10),
            ..s
        })
    }
}

pub open spec fn spec_store_regs(s: MachineState, op: u16) -> Result<MachineState, Chip8Error> {
    let i = s.index as int;
    let x = nib1(op) as int;
    if i < 0x200 || i + x >= 4096 {
        Err(Chip8Error::MemoryOutOfRange(op))
    } else {
        Ok(MachineState {
            memory: Seq::new(4096, |j: int| if i <= j <= i + x { s.registers[j - i] } else { s.memory[j] }),
            ..s
        })
    }
}

pub open spec fn spec_load_regs(s: MachineState, op: u16) -> Result<MachineState, Chip8Error> {
    let i = s.index as int;
    let x = nib1(op) as int;
    if i + x >= 4096 {
        Err(Chip8Error::MemoryOutOfRange(op))
    } else {
        Ok(MachineState {
            registers: Seq::new(16, |j: int| if j <= x { s.memory[i + j] } else { s.registers[j] }),
            ..s
        })
    }
}

/// What one instruction does to a state whose program counter has already moved
/// past it; `rand` is the byte that RND uses.
pub open spec fn execute(s: MachineState, op: u16, rand: u8) -> Result<MachineState, Chip8Error> {
    let (a, x, y, n) = (nib0(op), nib1(op), nib2(op), nib3(op));
    let kk = (op % 256) as u8;
    let nnn = (op % 4096) as u16;
    if a == 0 && x == 0 && y == 0xE && n == 0 {
        Ok(spec_cls(s))
    } else if a == 0 && x == 0 && y == 0xE && n == 0xE {
        spec_ret(s, op)
    } else if a == 1 {
        Ok(s.with_pc(nnn))
    } else if a == 2 {
        spec_call(s, op)
    } else if a == 3 {
        Ok(s.skip_if(s.vx(op) == kk))
    } else if a == 4 {
        Ok(s.skip_if(s.vx(op) != kk))
    } else if a == 5 && n == 0 {
        Ok(s.skip_if(s.vx(op) == s.vy(op)))
    } else if a == 6 {
        Ok(s.with_reg(x as int, kk))
    } else if a == 7 {
        Ok(s.with_reg(x as int, s.vx(op).wrapping_add(kk)))
    } else if a == 8 && n == 0 {
        Ok(s.with_reg(x as int, s.vy(op)))
    } else if a == 8 && n == 1 {
        Ok(s.with_reg(x as int, s.vx(op) | s.vy(op)))
    } else if a == 8 && n == 2 {
        Ok(s.with_reg(x as int, s.vx(op) & s.vy(op)))
    } else if a == 8 && n == 3 {
        Ok(s.with_reg(x as int, s.vx(op) ^ s.vy(op)))
    } else if a == 8 && n == 4 {
        Ok(spec_add_reg(s, op))
    } else if a == 8 && n == 5 {
        Ok(spec_sub_reg(s, op))
    } else if a == 8 && n == 6 {
        Ok(spec_shr(s, op))
    } else if a == 8 && n == 7 {
        Ok(spec_subn_reg(s, op))
    } else if a == 8 && n == 0xE {
        Ok(spec_shl(s, op))
    } else if a == 9 && n == 0 {
        Ok(s.skip_if(s.vx(op) != s.vy(op)))
    } else if a == 0xA {
        Ok(MachineState { index: nnn, ..s })
    } else if a == 0xB {
        Ok(s.with_pc((s.registers[0] + nnn) as u16))
    } else if a == 0xC {
        Ok(s.with_reg(x as int, rand & kk))
    } else if a == 0xD {
        spec_draw(s, op)
    } else if a == 0xE && y == 9 && n == 0xE {
        spec_skip_key(s, op, true)
    } else if a == 0xE && y == 0xA && n == 1 {
        spec_skip_key(s, op, false)
    } else if a == 0xF && y == 0 && n == 7 {
        Ok(s.with_reg(x as int, s.delay))
    } else if a == 0xF && y == 0 && n == 0xA {
        Ok(spec_wait_key(s, op))
    } else if a == 0xF && y == 1 && n == 5 {
        Ok(MachineState { delay: s.vx(op), ..s })
    } else if a == 0xF && y == 1 && n == 8 {
        Ok(MachineState { sound: s.vx(op), ..s })
    } else if a == 0xF && y == 1 && n == 0xE {
        spec_add_index(s, op)
    } else if a == 0xF && y == 2 && n == 9 {
        Ok(MachineState { index: (0x50 + 5 * s.vx(op)) as u16, ..s })
    } else if a == 0xF && y == 3 && n == 3 {
        spec_bcd(s, op)
    } else if a == 0xF && y == 5 && n == 5 {
        spec_store_regs(s, op)
    } else if a == 0xF && y == 6 && n == 5 {
        spec_load_regs(s, op)
    } else {
        Err(Chip8Error::UnknownOpcode(op))
    }
}

/// Both timers count down by one, stopping at zero.
pub open spec fn tick_timers(s: MachineState) -> MachineState {
    MachineState {
        delay: if s.delay == 0 { 0 } else { (s.delay - 1) as u8 },
        sound: if s.sound == 0 { 0 } else { (s.sound - 1) as u8 },
        ..s
    }
}

/// The instruction word at the program counter.
pub open spec fn fetched(s: MachineState) -> u16 {
    word_of(s.memory[s.pc as int], s.memory[s.pc + 1])
}

/// One full cycle: fetch, execute, tick the timers. A failing cycle changes nothing.
pub open spec fn step_spec(s: MachineState, rand: u8) -> Result<MachineState, Chip8Error> {
    if s.pc + 1 >= 4096 {
        Err(Chip8Error::PcOutOfRange(s.pc))
    } else {
        match execute(s.with_pc((s.pc + 2) as u16), fetched(s), rand) {
            Ok(t) => Ok(tick_timers(t)),
            Err(e) => Err(e),
        }
    }
}

pub open spec fn spec_load_rom(s: MachineState, rom: Seq<u8>) -> Result<MachineState, Chip8Error> {
    if 1 <= rom.len() <= MAX_ROM_SIZE_BYTES {
        Ok(MachineState { memory: with_rom(s.memory, rom), ..s })
    } else {
        Err(Chip8Error::InvalidRomLength(rom.len() as usize))
    }
}

/// The instruction word at the program counter, and the state that has moved past it.
pub open spec fn spec_fetch(s: MachineState) -> Result<(u16, MachineState), Chip8Error> {
    if s.pc + 1 >= MEMORY_SIZE_BYTES {
        Err(Chip8Error::PcOutOfRange(s.pc))
    } else {
        Ok((fetched(s), s.with_pc((s.pc + 2) as u16)))
    }
}

/// `r` and the state after a call agree with the `expected` outcome, and a
/// failure leaves the state as it was.
pub open spec fn settles(
    pre: MachineState,
    post: MachineState,
    r: Result<(), Chip8Error>,
    expected: Result<MachineState, Chip8Error>,
) -> bool {
    match expected {
        Ok(t) => r is Ok && post == t,
        Err(e) => r == Err::<(), Chip8Error>(e) && post == pre,
    }
}


/// The interpreter: memory, registers, program counter, call stack, timers,
/// keypad, frame buffer and a random source for RND.
#[derive(Debug)]
pub struct Chip8 {
    pub registers: [u8; 16],
    pub memory: [u8; 4096],
    pub index: IndexRegister,
    pub program_counter: u16,
    pub stack: [u16; 16],
    pub stack_pointer: u8,
    pub delay_timer: Timer,
    pub sound_timer: Timer,
    pub keypad: Keypad,
    pub display: Video,
    pub rng: SmallRng,
}

impl View for Chip8 {
    type V = MachineState;

    open spec fn view(&self) -> MachineState {
        MachineState {
            registers: self.registers@,
            memory: self.memory@,
            index: self.index.inner,
            pc: self.program_counter,
            stack: self.stack@,
            sp: self.stack_pointer,
            delay: self.delay_timer.count,
            sound: self.sound_timer.count,
            keys: self.keypad.keys,
            screen: self.display.buffer@,
        }
    }
}

impl Default for Chip8 {
    /// An interpreter whose random source is seeded with `DEFAULT_SEED`.
    fn default() -> (r: Chip8)
        ensures
            r@ == initial_state(),
            r.wf(),
    {
        Chip8::with_seed(DEFAULT_SEED)
    }
}

impl Chip8 {
    /// A fresh interpreter: the digit sprites loaded, the program counter at the
    /// program region, everything else zero, and its random source seeded with `seed`.
    pub fn with_seed(seed: u64) -> (r: Chip8)
        ensures
            r@ == initial_state(),
            r.wf(),
    {
        let font = font_set();
        let mut memory = [0u8; 4096];
        let mut i: usize = 0;
        while i < FONT_SET_LEN
            invariant
                i <= FONT_SET_LEN,
                font@ == font_glyphs(),
                forall|j: int| 0 <= j < 4096 ==> #[trigger] memory[j] == if 0x50 <= j < 0x50 + i { font_glyphs()[j - 0x50] } else { 0u8 },
            decreases FONT_SET_LEN - i,
        {
            memory[FONTSET_START_ADDR + i] = font[i];
            i = i + 1;
        }
        let display = Video::default();
        let r = Chip8 {
            registers: [0u8; 16],
            memory,
            index: IndexRegister { inner: 0 },
            program_counter: PROG_CTR_START_ADDR,
            stack: [0u16; 16],
            stack_pointer: 0,
            delay_timer: Timer { count: 0 },
            sound_timer: Timer { count: 0 },
            keypad: Keypad { keys: 0 },
            display,
            rng: seeded_rng(seed),
        };
        assert(r@.registers =~= initial_state().registers);
        assert(r@.memory =~= initial_memory());
        assert(r@.stack =~= initial_state().stack);
        assert(r@.screen =~= initial_state().screen);
        r
    }
}

impl Chip8 {
    /// The index register fits in twelve bits and the stack holds at most sixteen entries.
    pub open spec fn wf(&self) -> bool {
        self.index.wf() && self.stack_pointer <= STACK_DEPTH
    }

    /// Copies `bytes` to the program region; a ROM that is empty or larger than
    /// the region is refused and nothing is written.
    pub fn load_rom(&mut self, bytes: &[u8]) -> (r: Result<(), Chip8Error>)
        ensures
            settles(old(self)@, final(self)@, r, spec_load_rom(old(self)@, bytes@)),
            final(self).wf() == old(self).wf(),
    {
        let nbytes = bytes.len();
        if nbytes == 0 || nbytes > MAX_ROM_SIZE_BYTES {
            return Err(Chip8Error::InvalidRomLength(nbytes));
        }
        let ghost mem0 = self.memory@;
        let mut i: usize = 0;
        while i < nbytes
            invariant
                nbytes == bytes@.len() <= MAX_ROM_SIZE_BYTES,
                i <= nbytes,
                mem0.len() == 4096,
                forall|j: int| 0 <= j < 4096 ==> #[trigger] self.memory[j] == if 0x200 <= j < 0x200 + i { bytes@[j - 0x200] } else { mem0[j] },
                self.registers == old(self).registers,
                self.index == old(self).index,
                self.program_counter == old(self).program_counter,
                self.stack == old(self).stack,
                self.stack_pointer == old(self).stack_pointer,
                self.delay_timer == old(self).delay_timer,
                self.sound_timer == old(self).sound_timer,
                self.keypad == old(self).keypad,
                self.display == old(self).display,
            decreases nbytes - i,
        {
            self.memory[0x200 + i] = bytes[i];
            i = i + 1;
        }
        assert(self@.memory =~= with_rom(mem0, bytes@));
        Ok(())
    }

    /// Reads the instruction word at the program counter and moves past it.
    pub fn next_opcode(&mut self) -> (r: Result<OpCode, Chip8Error>)
        ensures
            match spec_fetch(old(self)@) {
                Ok(t) => r == Ok::<OpCode, Chip8Error>(OpCode { inner: t.0 }) && final(self)@ == t.1,
                Err(e) => r == Err::<OpCode, Chip8Error>(e) && final(self)@ == old(self)@,
            },
            final(self).wf() == old(self).wf(),
    {
        let pc = self.program_counter;
        if pc as usize + 1 >= MEMORY_SIZE_BYTES {
            return Err(Chip8Error::PcOutOfRange(pc));
        }
        let opcode = OpCode::from((self.memory[pc as usize], self.memory[pc as usize + 1]));
        self.program_counter = pc + 2;
        Ok(opcode)
    }

    /// CLS: clears the frame buffer.
    #[allow(non_snake_case)]
    pub fn op_00E0(&mut self)
        requires
            old(self).wf(),
        ensures
            final(self)@ == spec_cls(old(self)@),
            final(self).wf(),
    {
        self.display.clear();
        assert(self@.screen =~= spec_cls(old(self)@).screen);
    }

    /// RET: returns to the address on top of the stack.
    #[allow(non_snake_case)]
    pub fn op_00EE(&mut self, opcode: OpCode) -> (r: Result<(), Chip8Error>)
        requires
            old(self).wf(),
        ensures
            settles(old(self)@, final(self)@, r, spec_ret(old(self)@, opcode.inner)),
            final(self).wf(),
    {
        if self.stack_pointer == 0 {
            return Err(Chip8Error::StackUnderflow(opcode.inner));
        }
        self.stack_pointer = self.stack_pointer - 1;
        self.program_counter = self.stack[self.stack_pointer as usize];
        Ok(())
    }

    /// JP addr: jumps to `nnn`.
    #[allow(non_snake_case)]
    pub fn op_1nnn(&mut self, opcode: OpCode)
        requires
            old(self).wf(),
        ensures
            final(self)@ == old(self)@.with_pc((opcode.inner % 4096) as u16),
            final(self).wf(),
    {
        self.program_counter = opcode.nnn();
    }

    /// CALL addr: pushes the program counter and jumps to `nnn`.
    #[allow(non_snake_case)]
    pub fn op_2nnn(&mut self, opcode: OpCode) -> (r: Result<(), Chip8Error>)
        requires
            old(self).wf(),
        ensures
            settles(old(self)@, final(self)@, r, spec_call(old(self)@, opcode.inner)),
            final(self).wf(),
    {
        if self.stack_pointer >= STACK_DEPTH {
            return Err(Chip8Error::StackOverflow(opcode.inner));
        }
        self.stack[self.stack_pointer as usize] = self.program_counter;
        self.stack_pointer = self.stack_pointer + 1;
        self.program_counter = opcode.nnn();
        assert(self@.stack =~= spec_call(old(self)@, opcode.inner)->Ok_0.stack);
        Ok(())
    }

    /// SE Vx, byte: skips the next instruction when `Vx == kk`.
    #[allow(non_snake_case)]
    pub fn op_3xkk(&mut self, opcode: OpCode)
        requires
            old(self).wf(),
        ensures
            final(self)@ == old(self)@.skip_if(old(self)@.vx(opcode.inner) == (opcode.inner % 256) as u8),
            final(self).wf(),
    {
        if self.registers[opcode.x() as usize] == opcode.kk() {
            self.program_counter = self.program_counter.wrapping_add(2);
        }
    }

    /// SNE Vx, byte: skips the next instruction when `Vx != kk`.
    #[allow(non_snake_case)]
    pub fn op_4xkk(&mut self, opcode: OpCode)
        requires
            old(self).wf(),
        ensures
            final(self)@ == old(self)@.skip_if(old(self)@.vx(opcode.inner) != (opcode.inner % 256) as u8),
            final(self).wf(),
    {
        if self.registers[opcode.x() as usize] != opcode.kk() {
            self.program_counter = self.program_counter.wrapping_add(2);
        }
    }

    /// SE Vx, Vy: skips the next instruction when `Vx == Vy`.
    #[allow(non_snake_case)]
    pub fn op_5xy0(&mut self, opcode: OpCode)
        requires
            old(self).wf(),
        ensures
            final(self)@ == old(self)@.skip_if(old(self)@.vx(opcode.inner) == old(self)@.vy(opcode.inner)),
            final(self).wf(),
    {
        if self.registers[opcode.x() as usize] == self.registers[opcode.y() as usize] {
            self.program_counter = self.program_counter.wrapping_add(2);
        }
    }

    /// LD Vx, byte: `Vx = kk`.
    #[allow(non_snake_case)]
    pub fn op_6xkk(&mut self, opcode: OpCode)
        requires
            old(self).wf(),
        ensures
            final(self)@ == old(self)@.with_reg(nib1(opcode.inner) as int, (opcode.inner % 256) as u8),
            final(self).wf(),
    {
        let x = opcode.x() as usize;
        let v = opcode.kk();
        self.registers[x] = v;
        assert(self@.registers =~= old(self)@.registers.update(x as int, v));
    }

    /// ADD Vx, byte: `Vx = Vx + kk`, wrapping, with no flag.
    #[allow(non_snake_case)]
    pub fn op_7xkk(&mut self, opcode: OpCode)
        requires
            old(self).wf(),
        ensures
            final(self)@ == old(self)@.with_reg(nib1(opcode.inner) as int, old(self)@.vx(opcode.inner).wrapping_add((opcode.inner % 256) as u8)),
            final(self).wf(),
    {
        let x = opcode.x() as usize;
        let v = self.registers[opcode.x() as usize].wrapping_add(opcode.kk());
        self.registers[x] = v;
        assert(self@.registers =~= old(self)@.registers.update(x as int, v));
    }

    /// LD Vx, Vy: `Vx = Vy`.
    #[allow(non_snake_case)]
    pub fn op_8xy0(&mut self, opcode: OpCode)
        requires
            old(self).wf(),
        ensures
            final(self)@ == old(self)@.with_reg(nib1(opcode.inner) as int, old(self)@.vy(opcode.inner)),
            final(self).wf(),
    {
        let x = opcode.x() as usize;
        let v = self.registers[opcode.y() as usize];
        self.registers[x] = v;
        assert(self@.registers =~= old(self)@.registers.update(x as int, v));
    }

    /// OR Vx, Vy.
    #[allow(non_snake_case)]
    pub fn op_8xy1(&mut self, opcode: OpCode)
        requires
            old(self).wf(),
        ensures
            final(self)@ == old(self)@.with_reg(nib1(opcode.inner) as int, old(self)@.vx(opcode.inner) | old(self)@.vy(opcode.inner)),
            final(self).wf(),
    {
        let x = opcode.x() as usize;
        let v = self.registers[opcode.x() as usize] | self.registers[opcode.y() as usize];
        self.registers[x] = v;
        assert(self@.registers =~= old(self)@.registers.update(x as int, v));
    }

    /// AND Vx, Vy.
    #[allow(non_snake_case)]
    pub fn op_8xy2(&mut self, opcode: OpCode)
        requires
            old(self).wf(),
        ensures
            final(self)@ == old(self)@.with_reg(nib1(opcode.inner) as int, old(self)@.vx(opcode.inner) & old(self)@.vy(opcode.inner)),
            final(self).wf(),
    {
        let x = opcode.x() as usize;
        let v = self.registers[opcode.x() as usize] & self.registers[opcode.y() as usize];
        self.registers[x] = v;
        assert(self@.registers =~= old(self)@.registers.update(x as int, v));
    }

    /// XOR Vx, Vy.
    #[allow(non_snake_case)]
    pub fn op_8xy3(&mut self, opcode: OpCode)
        requires
            old(self).wf(),
        ensures
            final(self)@ == old(self)@.with_reg(nib1(opcode.inner) as int, old(self)@.vx(opcode.inner) ^ old(self)@.vy(opcode.inner)),
            final(self).wf(),
    {
        let x = opcode.x() as usize;
        let v = self.registers[opcode.x() as usize] ^ self.registers[opcode.y() as usize];
        self.registers[x] = v;
        assert(self@.registers =~= old(self)@.registers.update(x as int, v));
    }

    /// ADD Vx, Vy: `Vx = Vx + Vy` wrapping, then `V15` is the carry.
    #[allow(non_snake_case)]
    pub fn op_8xy4(&mut self, opcode: OpCode)
        requires
            old(self).wf(),
        ensures
            final(self)@ == spec_add_reg(old(self)@, opcode.inner),
            final(self).wf(),
    {
        let x = opcode.x() as usize;
        let vx = self.registers[x];
        let vy = self.registers[opcode.y() as usize];
        let res = vx.wrapping_add(vy);
        let flag: u8 = if vx as u16 + vy as u16 > 255 { 1 } else { 0 };
        self.registers[x] = res;
        self.registers[15] = flag;
        assert(self@.registers =~= spec_add_reg(old(self)@, opcode.inner).registers);
    }

    /// SUB Vx, Vy: `Vx = Vx - Vy` wrapping, then `V15` is 1 when no borrow occurred.
    #[allow(non_snake_case)]
    pub fn op_8xy5(&mut self, opcode: OpCode)
        requires
            old(self).wf(),
        ensures
            final(self)@ == spec_sub_reg(old(self)@, opcode.inner),
            final(self).wf(),
    {
        let x = opcode.x() as usize;
        let vx = self.registers[x];
        let vy = self.registers[opcode.y() as usize];
        let res = vx.wrapping_sub(vy);
        let flag: u8 = if vx >= vy { 1 } else { 0 };
        self.registers[x] = res;
        self.registers[15] = flag;
        assert(self@.registers =~= spec_sub_reg(old(self)@, opcode.inner).registers);
    }

    /// SHR Vx: `V15` takes the low bit of `Vx`, then `Vx` is halved.
    #[allow(non_snake_case)]
    pub fn op_8xy6(&mut self, opcode: OpCode)
        requires
            old(self).wf(),
        ensures
            final(self)@ == spec_shr(old(self)@, opcode.inner),
            final(self).wf(),
    {
        let x = opcode.x() as usize;
        let vx = self.registers[x];
        let res = vx / 2;
        let flag: u8 = vx % 2;
        self.registers[15] = flag;
        self.registers[x] = res;
        assert(self@.registers =~= spec_shr(old(self)@, opcode.inner).registers);
    }

    /// SUBN Vx, Vy: `Vx = Vy - Vx` wrapping, then `V15` is 1 when no borrow occurred.
    #[allow(non_snake_case)]
    pub fn op_8xy7(&mut self, opcode: OpCode)
        requires
            old(self).wf(),
        ensures
            final(self)@ == spec_subn_reg(old(self)@, opcode.inner),
            final(self).wf(),
    {
        let x = opcode.x() as usize;
        let vx = self.registers[x];
        let vy = self.registers[opcode.y() as usize];
        let res = vy.wrapping_sub(vx);
        let flag: u8 = if vy >= vx { 1 } else { 0 };
        self.registers[x] = res;
        self.registers[15] = flag;
        assert(self@.registers =~= spec_subn_reg(old(self)@, opcode.inner).registers);
    }

    /// SHL Vx: `V15` takes the high bit of `Vx`, then `Vx` is doubled, wrapping.
    #[allow(non_snake_case)]
    pub fn op_8xyE(&mut self, opcode: OpCode)
        requires
            old(self).wf(),
        ensures
            final(self)@ == spec_shl(old(self)@, opcode.inner),
            final(self).wf(),
    {
        let x = opcode.x() as usize;
        let vx = self.registers[x];
        let res = (vx % 128) * 2;
        let flag: u8 = vx / 128;
        assert((vx % 128) * 2 == (vx * 2) % 256) by (nonlinear_arith);
        self.registers[15] = flag;
        self.registers[x] = res;
        assert(self@.registers =~= spec_shl(old(self)@, opcode.inner).registers);
    }

    /// SNE Vx, Vy: skips the next instruction when `Vx != Vy`.
    #[allow(non_snake_case)]
    pub fn op_9xy0(&mut self, opcode: OpCode)
        requires
            old(self).wf(),
        ensures
            final(self)@ == old(self)@.skip_if(old(self)@.vx(opcode.inner) != old(self)@.vy(opcode.inner)),
            final(self).wf(),
    {
        if self.registers[opcode.x() as usize] != self.registers[opcode.y() as usize] {
            self.program_counter = self.program_counter.wrapping_add(2);
        }
    }

    /// LD I, addr: `I = nnn`.
    #[allow(non_snake_case)]
    pub fn op_Annn(&mut self, opcode: OpCode)
        requires
            old(self).wf(),
        ensures
            final(self)@ == (MachineState { index: (opcode.inner % 4096) as u16, ..old(self)@ }),
            final(self).wf(),
    {
        self.index.load(opcode.nnn());
    }

    /// JP V0, addr: jumps to `V0 + nnn`, with the full twelve-bit address.
    #[allow(non_snake_case)]
    pub fn op_Bnnn(&mut self, opcode: OpCode)
        requires
            old(self).wf(),
        ensures
            final(self)@ == old(self)@.with_pc((old(self)@.registers[0] + opcode.inner % 4096) as u16),
            final(self).wf(),
    {
        self.program_counter = self.registers[0] as u16 + opcode.nnn();
    }

    /// RND Vx, byte: `Vx = rand_byte & kk`.
    #[allow(non_snake_case)]
    pub fn op_Cxkk(&mut self, opcode: OpCode, rand_byte: u8)
        requires
            old(self).wf(),
        ensures
            final(self)@ == old(self)@.with_reg(nib1(opcode.inner) as int, rand_byte & (opcode.inner % 256) as u8),
            final(self).wf(),
    {
        let x = opcode.x() as usize;
        let v = rand_byte & opcode.kk();
        self.registers[x] = v;
        assert(self@.registers =~= old(self)@.registers.update(x as int, v));
    }

    /// DRW Vx, Vy, nibble: draws the `n`-byte sprite at `I` at `(Vx, Vy)`; `V15` reports a collision.
    #[allow(non_snake_case)]
    pub fn op_Dxyn(&mut self, opcode: OpCode) -> (r: Result<(), Chip8Error>)
        requires
            old(self).wf(),
        ensures
            settles(old(self)@, final(self)@, r, spec_draw(old(self)@, opcode.inner)),
            final(self).wf(),
    {
        let n = opcode.n() as usize;
        let i = self.index.get();
        if i + n > MEMORY_SIZE_BYTES {
            return Err(Chip8Error::MemoryOutOfRange(opcode.inner));
        }
        let mut sprite: Vec<u8> = Vec::new();
        let mut k: usize = 0;
        while k < n
            invariant
                i + n <= MEMORY_SIZE_BYTES,
                k <= n,
                sprite@ == self.memory@.subrange(i as int, i + k),
            decreases n - k,
        {
            sprite.push(self.memory[i + k]);
            k = k + 1;
            assert(sprite@ =~= self.memory@.subrange(i as int, i + k));
        }
        let coords = DrawCoords::new(self.registers[opcode.x() as usize], self.registers[opcode.y() as usize]);
        let collided = self.display.draw(sprite.as_slice(), &coords);
        let flag: u8 = if collided { 1 } else { 0 };
        self.registers[15] = flag;
        assert(self@.registers =~= spec_draw(old(self)@, opcode.inner)->Ok_0.registers);
        Ok(())
    }

    /// SKP Vx: skips the next instruction when the key in `Vx` is down.
    #[allow(non_snake_case)]
    pub fn op_Ex9E(&mut self, opcode: OpCode) -> (r: Result<(), Chip8Error>)
        requires
            old(self).wf(),
        ensures
            settles(old(self)@, final(self)@, r, spec_skip_key(old(self)@, opcode.inner, true)),
            final(self).wf(),
    {
        let key = self.registers[opcode.x() as usize];
        if key >= 16 {
            return Err(Chip8Error::KeyOutOfRange(key));
        }
        if self.keypad.is_key_pressed(key) {
            self.program_counter = self.program_counter.wrapping_add(2);
        }
        Ok(())
    }

    /// SKNP Vx: skips the next instruction when the key in `Vx` is up.
    #[allow(non_snake_case)]
    pub fn op_ExA1(&mut self, opcode: OpCode) -> (r: Result<(), Chip8Error>)
        requires
            old(self).wf(),
        ensures
            settles(old(self)@, final(self)@, r, spec_skip_key(old(self)@, opcode.inner, false)),
            final(self).wf(),
    {
        let key = self.registers[opcode.x() as usize];
        if key >= 16 {
            return Err(Chip8Error::KeyOutOfRange(key));
        }
        if !self.keypad.is_key_pressed(key) {
            self.program_counter = self.program_counter.wrapping_add(2);
        }
        Ok(())
    }

    /// LD Vx, DT: `Vx` takes the delay timer.
    #[allow(non_snake_case)]
    pub fn op_Fx07(&mut self, opcode: OpCode)
        requires
            old(self).wf(),
        ensures
            final(self)@ == old(self)@.with_reg(nib1(opcode.inner) as int, old(self)@.delay),
            final(self).wf(),
    {
        let x = opcode.x() as usize;
        let v = self.delay_timer.cur_count();
        self.registers[x] = v;
        assert(self@.registers =~= old(self)@.registers.update(x as int, v));
    }

    /// LD Vx, K: `Vx` takes the lowest key that is down; with none down, the
    /// program counter moves back so that this instruction runs again.
    #[allow(non_snake_case)]
    pub fn op_Fx0A(&mut self, opcode: OpCode)
        requires
            old(self).wf(),
        ensures
            final(self)@ == spec_wait_key(old(self)@, opcode.inner),
            final(self).wf(),
    {
        let x = opcode.x() as usize;
        match self.keypad.pressed_key() {
            Some(k) => {
                self.registers[x] = k;
                assert(self@.registers =~= old(self)@.registers.update(x as int, k));
            },
            None => {
                self.program_counter = self.program_counter.wrapping_sub(2);
            },
        }
    }

    /// LD DT, Vx: the delay timer takes `Vx`.
    #[allow(non_snake_case)]
    pub fn op_Fx15(&mut self, opcode: OpCode)
        requires
            old(self).wf(),
        ensures
            final(self)@ == (MachineState { delay: old(self)@.vx(opcode.inner), ..old(self)@ }),
            final(self).wf(),
    {
        let v = self.registers[opcode.x() as usize];
        self.delay_timer.set(v);
    }

    /// LD ST, Vx: the sound timer takes `Vx`.
    #[allow(non_snake_case)]
    pub fn op_Fx18(&mut self, opcode: OpCode)
        requires
            old(self).wf(),
        ensures
            final(self)@ == (MachineState { sound: old(self)@.vx(opcode.inner), ..old(self)@ }),
            final(self).wf(),
    {
        let v = self.registers[opcode.x() as usize];
        self.sound_timer.set(v);
    }

    /// ADD I, Vx: `I = I + Vx`, refused when the sum leaves twelve bits.
    #[allow(non_snake_case)]
    pub fn op_Fx1E(&mut self, opcode: OpCode) -> (r: Result<(), Chip8Error>)
        requires
            old(self).wf(),
        ensures
            settles(old(self)@, final(self)@, r, spec_add_index(old(self)@, opcode.inner)),
            final(self).wf(),
    {
        let v = self.registers[opcode.x() as usize];
        if self.index.get() + v as usize > U12_MAX as usize {
            return Err(Chip8Error::IndexOutOfRange(opcode.inner));
        }
        self.index.add(v);
        Ok(())
    }

    /// LD F, Vx: `I` points at the sprite of the digit in `Vx`.
    #[allow(non_snake_case)]
    pub fn op_Fx29(&mut self, opcode: OpCode)
        requires
            old(self).wf(),
        ensures
            final(self)@ == (MachineState { index: (0x50 + 5 * old(self)@.vx(opcode.inner)) as u16, ..old(self)@ }),
            final(self).wf(),
    {
        let digit = self.registers[opcode.x() as usize];
        self.index.load((FONTSET_START_ADDR + 5 * digit as usize) as u16);
    }

    /// LD B, Vx: writes the hundreds, tens and ones of `Vx` to `I`, `I + 1`, `I + 2`;
    /// refused when that leaves the program region.
    #[allow(non_snake_case)]
    pub fn op_Fx33(&mut self, opcode: OpCode) -> (r: Result<(), Chip8Error>)
        requires
            old(self).wf(),
        ensures
            settles(old(self)@, final(self)@, r, spec_bcd(old(self)@, opcode.inner)),
            final(self).wf(),
    {
        let i = self.index.get();
        if i < PROG_CTR_START_ADDR as usize || i + 2 >= MEMORY_SIZE_BYTES {
            return Err(Chip8Error::MemoryOutOfRange(opcode.inner));
        }
        let v = self.registers[opcode.x() as usize];
        self.memory[i] = v / 100;
        self.memory[i + 1] = (v / 10) % 10;
        self.memory[i + 2] = v % 10;
        assert(self@.memory =~= spec_bcd(old(self)@, opcode.inner)->Ok_0.memory);
        Ok(())
    }

    /// LD [I], Vx: stores `V0` to `Vx` in memory from `I` on; refused when that
    /// leaves the program region.
    #[allow(non_snake_case)]
    pub fn op_Fx55(&mut self, opcode: OpCode) -> (r: Result<(), Chip8Error>)
        requires
            old(self).wf(),
        ensures
            settles(old(self)@, final(self)@, r, spec_store_regs(old(self)@, opcode.inner)),
            final(self).wf(),
    {
        let i = self.index.get();
        let x = opcode.x() as usize;
        if i < PROG_CTR_START_ADDR as usize || i + x >= MEMORY_SIZE_BYTES {
            return Err(Chip8Error::MemoryOutOfRange(opcode.inner));
        }
        let ghost mem0 = self.memory@;
        let mut k: usize = 0;
        while k <= x
            invariant
                i + x < MEMORY_SIZE_BYTES,
                x < 16,
                k <= x + 1,
                mem0 == old(self).memory@,
                self.registers == old(self).registers,
                self.index == old(self).index,
                self.program_counter == old(self).program_counter,
                self.stack == old(self).stack,
                self.stack_pointer == old(self).stack_pointer,
                self.delay_timer == old(self).delay_timer,
                self.sound_timer == old(self).sound_timer,
                self.keypad == old(self).keypad,
                self.display == old(self).display,
                forall|j: int| 0 <= j < 4096 ==> #[trigger] self.memory[j] == if i <= j < i + k { self.registers[j - i] } else { mem0[j] },
            decreases x + 1 - k,
        {
            self.memory[i + k] = self.registers[k];
            k = k + 1;
        }
        assert(self@.memory =~= spec_store_regs(old(self)@, opcode.inner)->Ok_0.memory);
        Ok(())
    }

    /// LD Vx, [I]: loads `V0` to `Vx` from memory from `I` on.
    #[allow(non_snake_case)]
    pub fn op_Fx65(&mut self, opcode: OpCode) -> (r: Result<(), Chip8Error>)
        requires
            old(self).wf(),
        ensures
            settles(old(self)@, final(self)@, r, spec_load_regs(old(self)@, opcode.inner)),
            final(self).wf(),
    {
        let i = self.index.get();
        let x = opcode.x() as usize;
        if i + x >= MEMORY_SIZE_BYTES {
            return Err(Chip8Error::MemoryOutOfRange(opcode.inner));
        }
        let ghost regs0 = self.registers@;
        let mut k: usize = 0;
        while k <= x
            invariant
                i + x < MEMORY_SIZE_BYTES,
                x < 16,
                k <= x + 1,
                regs0 == old(self).registers@,
                self.memory == old(self).memory,
                self.index == old(self).index,
                self.program_counter == old(self).program_counter,
                self.stack == old(self).stack,
                self.stack_pointer == old(self).stack_pointer,
                self.delay_timer == old(self).delay_timer,
                self.sound_timer == old(self).sound_timer,
                self.keypad == old(self).keypad,
                self.display == old(self).display,
                forall|j: int| 0 <= j < 16 ==> #[trigger] self.registers[j] == if j < k { self.memory[i + j] } else { regs0[j] },
            decreases x + 1 - k,
        {
            self.registers[k] = self.memory[i + k];
            k = k + 1;
        }
        assert(self@.registers =~= spec_load_regs(old(self)@, opcode.inner)->Ok_0.registers);
        Ok(())
    }

    /// Runs the decoded instruction; the program counter has already moved past it.
    fn dispatch(&mut self, opcode: OpCode, rand_byte: u8) -> (r: Result<(), Chip8Error>)
        requires
            old(self).wf(),
        ensures
            settles(old(self)@, final(self)@, r, execute(old(self)@, opcode.inner, rand_byte)),
            final(self).wf(),
    {
        let (a, _, c, d) = opcode.nibbles();
        match (a, c, d) {
            (0x0, _, _) if opcode.inner == 0x00E0 => {
                self.op_00E0();
                Ok(())
            },
            (0x0, _, _) if opcode.inner == 0x00EE => self.op_00EE(opcode),
            (0x1, _, _) => {
                self.op_1nnn(opcode);
                Ok(())
            },
            (0x2, _, _) => self.op_2nnn(opcode),
            (0x3, _, _) => {
                self.op_3xkk(opcode);
                Ok(())
            },
            (0x4, _, _) => {
                self.op_4xkk(opcode);
                Ok(())
            },
            (0x5, _, 0x0) => {
                self.op_5xy0(opcode);
                Ok(())
            },
            (0x6, _, _) => {
                self.op_6xkk(opcode);
                Ok(())
            },
            (0x7, _, _) => {
                self.op_7xkk(opcode);
                Ok(())
            },
            (0x8, _, 0x0) => {
                self.op_8xy0(opcode);
                Ok(())
            },
            (0x8, _, 0x1) => {
                self.op_8xy1(opcode);
                Ok(())
            },
            (0x8, _, 0x2) => {
                self.op_8xy2(opcode);
                Ok(())
            },
            (0x8, _, 0x3) => {
                self.op_8xy3(opcode);
                Ok(())
            },
            (0x8, _, 0x4) => {
                self.op_8xy4(opcode);
                Ok(())
            },
            (0x8, _, 0x5) => {
                self.op_8xy5(opcode);
                Ok(())
            },
            (0x8, _, 0x6) => {
                self.op_8xy6(opcode);
                Ok(())
            },
            (0x8, _, 0x7) => {
                self.op_8xy7(opcode);
                Ok(())
            },
            (0x8, _, 0xE) => {
                self.op_8xyE(opcode);
                Ok(())
            },
            (0x9, _, 0x0) => {
                self.op_9xy0(opcode);
                Ok(())
            },
            (0xA, _, _) => {
                self.op_Annn(opcode);
                Ok(())
            },
            (0xB, _, _) => {
                self.op_Bnnn(opcode);
                Ok(())
            },
            (0xC, _, _) => {
                self.op_Cxkk(opcode, rand_byte);
                Ok(())
            },
            (0xD, _, _) => self.op_Dxyn(opcode),
            (0xE, 0x9, 0xE) => self.op_Ex9E(opcode),
            (0xE, 0xA, 0x1) => self.op_ExA1(opcode),
            (0xF, 0x0, 0x7) => {
                self.op_Fx07(opcode);
                Ok(())
            },
            (0xF, 0x0, 0xA) => {
                self.op_Fx0A(opcode);
                Ok(())
            },
            (0xF, 0x1, 0x5) => {
                self.op_Fx15(opcode);
                Ok(())
            },
            (0xF, 0x1, 0x8) => {
                self.op_Fx18(opcode);
                Ok(())
            },
            (0xF, 0x1, 0xE) => self.op_Fx1E(opcode),
            (0xF, 0x2, 0x9) => {
                self.op_Fx29(opcode);
                Ok(())
            },
            (0xF, 0x3, 0x3) => self.op_Fx33(opcode),
            (0xF, 0x5, 0x5) => self.op_Fx55(opcode),
            (0xF, 0x6, 0x5) => self.op_Fx65(opcode),
            _ => Err(Chip8Error::UnknownOpcode(opcode.inner)),
        }
    }

    /// One cycle: fetches the instruction at the program counter, runs it with
    /// `rand_byte` as the byte that RND draws, and ticks both timers. When the
    /// cycle fails, the interpreter is left as it was.
    pub fn step(&mut self, rand_byte: u8) -> (r: Result<(), Chip8Error>)
        requires
            old(self).wf(),
        ensures
            settles(old(self)@, final(self)@, r, step_spec(old(self)@, rand_byte)),
            final(self).wf(),
    {
        let pc = self.program_counter;
        let opcode = match self.next_opcode() {
            Ok(op) => op,
            Err(e) => return Err(e),
        };
        match self.dispatch(opcode, rand_byte) {
            Ok(()) => {
                self.delay_timer.tick();
                self.sound_timer.tick();
                Ok(())
            },
            Err(e) => {
                self.program_counter = pc;
                Err(e)
            },
        }
    }

    /// One cycle with a byte drawn from the interpreter's own random source.
    pub fn tick(&mut self) -> (r: Result<(), Chip8Error>)
        requires
            old(self).wf(),
        ensures
            exists|b: u8| settles(old(self)@, final(self)@, r, #[trigger] step_spec(old(self)@, b)),
            final(self).wf(),
    {
        let b = random_byte(&mut self.rng);
        let r = self.step(b);
        assert(settles(old(self)@, self@, r, step_spec(old(self)@, b)));
        r
    }
}

/// The flags of the register arithmetic, for every pair of operands `a = Vx`,
/// `b = Vy`: ADD leaves `(a + b) mod 256` with `V15 = 1` exactly on a carry; SUB
/// leaves `(a - b) mod 256` with `V15 = 1` exactly when `a >= b`; SUBN leaves
/// `(b - a) mod 256` with `V15 = 1` exactly when `b >= a`; SHR and SHL put the bit
/// shifted out in `V15`. The target register is not the flag register itself.
pub proof fn lemma_arithmetic_flags(s: MachineState, op: u16)
    requires
        s.registers.len() == 16,
        nib1(op) != 15,
    ensures
        spec_add_reg(s, op).registers[nib1(op) as int] == (s.vx(op) + s.vy(op)) % 256,
        (spec_add_reg(s, op).registers[15] == 1) == (s.vx(op) + s.vy(op) > 255),
        spec_add_reg(s, op).registers[15] <= 1,
        spec_sub_reg(s, op).registers[nib1(op) as int] == (s.vx(op) - s.vy(op)) % 256,
        (spec_sub_reg(s, op).registers[15] == 1) == (s.vx(op) >= s.vy(op)),
        spec_sub_reg(s, op).registers[15] <= 1,
        spec_subn_reg(s, op).registers[nib1(op) as int] == (s.vy(op) - s.vx(op)) % 256,
        (spec_subn_reg(s, op).registers[15] == 1) == (s.vy(op) >= s.vx(op)),
        spec_subn_reg(s, op).registers[15] <= 1,
        spec_shr(s, op).registers[nib1(op) as int] == s.vx(op) / 2,
        spec_shr(s, op).registers[15] == s.vx(op) % 2,
        spec_shl(s, op).registers[nib1(op) as int] == (s.vx(op) * 2) % 256,
        spec_shl(s, op).registers[15] == s.vx(op) / 128,
{
    let a = s.vx(op);
    let b = s.vy(op);
    assert(a.wrapping_add(b) == (a + b) % 256);
    assert(a.wrapping_sub(b) == (a - b) % 256);
    assert(b.wrapping_sub(a) == (b - a) % 256);
}

/// Applies CALL once for each instruction word of `ops`, in order, stopping at
/// the first failure.
pub open spec fn calls(s: MachineState, ops: Seq<u16>) -> Result<MachineState, Chip8Error>
    decreases ops.len(),
{
    if ops.len() == 0 {
        Ok(s)
    } else {
        match calls(s, ops.drop_last()) {
            Ok(t) => spec_call(t, ops.last()),
            Err(e) => Err(e),
        }
    }
}

/// From an empty stack, up to sixteen nested calls succeed and leave that many
/// return addresses; a seventeenth overflows the stack. A return from an empty
/// stack underflows it.
pub proof fn lemma_call_depth(s: MachineState, ops: Seq<u16>)
    requires
        s.sp == 0,
        s.stack.len() == 16,
    ensures
        ops.len() <= 16 ==> calls(s, ops) is Ok && calls(s, ops)->Ok_0.sp == ops.len(),
        ops.len() == 17 ==> calls(s, ops) == Err::<MachineState, Chip8Error>(
            Chip8Error::StackOverflow(ops[16]),
        ),
        spec_ret(s, 0x00EE) == Err::<MachineState, Chip8Error>(Chip8Error::StackUnderflow(0x00EE)),
    decreases ops.len(),
{
    if ops.len() > 0 && ops.len() <= 17 {
        lemma_call_depth(s, ops.drop_last());
        if ops.len() == 17 {
            assert(ops.drop_last().len() == 16);
        }
    }
}

/// Whether `op` is the key wait Fx0A.
pub open spec fn is_key_wait(op: u16) -> bool {
    nib0(op) == 0xF && nib2(op) == 0 && nib3(op) == 0xA
}

/// A cycle on the key wait Fx0A: with no key down, only the timers move and the
/// program counter ends where it began, so the next cycle runs the same wait;
/// with a key down, `Vx` takes the lowest such key and the program counter
/// moves past the instruction.
pub proof fn lemma_key_wait(s: MachineState, rand: u8)
    requires
        s.pc + 1 < MEMORY_SIZE_BYTES,
        s.registers.len() == 16,
        is_key_wait(fetched(s)),
    ensures
        lowest_pressed(s.keys) is None ==> step_spec(s, rand) == Ok::<MachineState, Chip8Error>(tick_timers(s)),
        lowest_pressed(s.keys) is None ==> fetched(step_spec(s, rand)->Ok_0) == fetched(s)
            && step_spec(s, rand)->Ok_0.pc == s.pc,
        lowest_pressed(s.keys) is Some ==> step_spec(s, rand) is Ok
            && step_spec(s, rand)->Ok_0.pc == s.pc + 2
            && step_spec(s, rand)->Ok_0.registers[nib1(fetched(s)) as int] == lowest_pressed(s.keys)->Some_0,
{
    let t = s.with_pc((s.pc + 2) as u16);
    if lowest_pressed(s.keys) is None {
        assert(t.pc.wrapping_sub(2) == s.pc);
        assert(t.with_pc(t.pc.wrapping_sub(2)) == s);
    }
}

/// Runs one cycle for each byte of `rands`, in order, stopping at the first failure.
pub open spec fn steps(s: MachineState, rands: Seq<u8>) -> Result<MachineState, Chip8Error>
    decreases rands.len(),
{
    if rands.len() == 0 {
        Ok(s)
    } else {
        match steps(s, rands.drop_last()) {
            Ok(t) => step_spec(t, rands.last()),
            Err(e) => Err(e),
        }
    }
}

/// While no key is down, any number of cycles on the key wait Fx0A succeed and
/// leave the program counter, registers, memory and keys as they were.
pub proof fn lemma_key_wait_spins(s: MachineState, rands: Seq<u8>)
    requires
        s.pc + 1 < MEMORY_SIZE_BYTES,
        s.registers.len() == 16,
        is_key_wait(fetched(s)),
        lowest_pressed(s.keys) is None,
    ensures
        steps(s, rands) is Ok,
        steps(s, rands)->Ok_0.pc == s.pc,
        steps(s, rands)->Ok_0.registers == s.registers,
        steps(s, rands)->Ok_0.memory == s.memory,
        steps(s, rands)->Ok_0.keys == s.keys,
    decreases rands.len(),
{
    if rands.len() > 0 {
        lemma_key_wait_spins(s, rands.drop_last());
        let t = steps(s, rands.drop_last())->Ok_0;
        assert(fetched(t) == fetched(s));
        lemma_key_wait(t, rands.last());
    }
}

/// A cycle that succeeds leaves memory below the program region as it was, so
/// the digit sprites written at start-up survive every run.
pub proof fn lemma_step_keeps_low_memory(s: MachineState, rand: u8)
    requires
        s.memory.len() == MEMORY_SIZE_BYTES,
        s.registers.len() == 16,
    ensures
        step_spec(s, rand) is Ok ==> forall|i: int|
            0 <= i < 0x200 ==> #[trigger] step_spec(s, rand)->Ok_0.memory[i] == s.memory[i],
{
}

/// Several cycles that succeed leave memory below the program region as it was.
pub proof fn lemma_steps_keep_low_memory(s: MachineState, rands: Seq<u8>)
    requires
        s.memory.len() == MEMORY_SIZE_BYTES,
        s.registers.len() == 16,
    ensures
        steps(s, rands) is Ok ==> forall|i: int|
            0 <= i < 0x200 ==> #[trigger] steps(s, rands)->Ok_0.memory[i] == s.memory[i],
        steps(s, rands) is Ok ==> steps(s, rands)->Ok_0.memory.len() == MEMORY_SIZE_BYTES
            && steps(s, rands)->Ok_0.registers.len() == 16,
    decreases rands.len(),
{
    if rands.len() > 0 {
        lemma_steps_keep_low_memory(s, rands.drop_last());
        if steps(s, rands.drop_last()) is Ok {
            let t = steps(s, rands.drop_last())->Ok_0;
            lemma_step_keeps_low_memory(t, rands.last());
            lemma_step_keeps_shapes(t, rands.last());
        }
    }
}

proof fn lemma_step_keeps_shapes(s: MachineState, rand: u8)
    requires
        s.memory.len() == MEMORY_SIZE_BYTES,
        s.registers.len() == 16,
    ensures
        step_spec(s, rand) is Ok ==> step_spec(s, rand)->Ok_0.memory.len() == MEMORY_SIZE_BYTES
            && step_spec(s, rand)->Ok_0.registers.len() == 16,
{
}

} // verus!
