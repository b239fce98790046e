use vstd::prelude::*;

use crate::draw::{
    cells_valid, draw_sprite, lemma_drawn_cells_valid, mem_read, sprite_rows, MEMORY_SIZE,
    VIDEO_CELLS,
};
use crate::error::Error;
use crate::fontset::{self, fontset_spec, FONTSET_START_ADDRESS, GLYPH_BYTES};
use crate::instruction::{decode, Instruction};
use crate::model::{
    bcd, blank_screen, cycle_spec, draw_spec, execute_spec, fetch_spec, initialize_spec, last_pressed, load_spec,
    outcome, pressed_list, tick_timers_spec, write_block, Chip8View, MAX_ROM_SIZE, PC_START_ADDRESS, SCANNED_KEYS,
};
use crate::stack::Stack;
use crate::timer::{Timers, TIMER_HZ};

verus! {

/// The CPU clock the host runs at unless told otherwise.
pub const CLOCK_SPEED_HZ: u64 = 600;

/// The interpreter: memory, registers, call stack, timers, keypad and video
/// memory, mutated in place one cycle at a time.
pub struct Chip8 {
    memory: [u8; 4096],
    registers: [u8; 16],
    index_register: u16,
    program_counter: u16,
    gfx: [u8; 2048],
    timers: Timers,
    stack: Stack,
    keypad: [bool; 16],
    draw_flag: bool,
    sound_request: bool,
}

impl View for Chip8 {
    type V = Chip8View;

    closed spec fn view(&self) -> Chip8View {
        Chip8View {
            memory: self.memory@,
            registers: self.registers@,
            index_register: self.index_register,
            program_counter: self.program_counter,
            gfx: self.gfx@,
            timers: self.timers,
            stack: self.stack@,
            keypad: self.keypad@,
            draw_flag: self.draw_flag,
            sound_request: self.sound_request,
        }
    }
}

/// Relies on rand::random: a byte drawn from the thread-local generator.
/// Nothing is promised of its value.
#[verifier::external_body]
fn random_byte() -> u8 {
    rand::random::<u8>()
}

impl Chip8 {
    /// The state is well formed and the call stack's own bound holds.
    pub closed spec fn wf(&self) -> bool {
        self.stack.wf() && self@.wf()
    }

    /// A zeroed interpreter whose timers count down at 60 Hz under a
    /// `clock_hz` CPU clock.
    pub fn with_clock_rate(clock_hz: u64) -> (c: Self)
        requires
            clock_hz >= TIMER_HZ,
        ensures
            c.wf(),
            c@ == (Chip8View {
                memory: Seq::new(4096, |i: int| 0u8),
                registers: Seq::new(16, |i: int| 0u8),
                index_register: 0,
                program_counter: 0,
                gfx: blank_screen(),
                timers: Timers { delay: 0, sound: 0, counter: 0, divisor: clock_hz / TIMER_HZ },
                stack: Seq::empty(),
                keypad: Seq::new(16, |i: int| false),
                draw_flag: false,
                sound_request: false,
            }),
    {
        let c = Chip8 {
            memory: [0u8; 4096],
            registers: [0u8; 16],
            index_register: 0,
            program_counter: 0,
            gfx: [0u8; 2048],
            timers: Timers::new(clock_hz),
            stack: Stack::new(),
            keypad: [false; 16],
            draw_flag: false,
            sound_request: false,
        };
        assert(c.memory@ =~= Seq::new(4096, |i: int| 0u8));
        assert(c.registers@ =~= Seq::new(16, |i: int| 0u8));
        assert(c.gfx@ =~= blank_screen());
        assert(c.keypad@ =~= Seq::new(16, |i: int| false));
        c
    }

    /// A zeroed interpreter clocked at 600 Hz.
    pub fn new() -> (c: Self)
        ensures
            c.wf(),
            c@ == (Chip8View {
                memory: Seq::new(4096, |i: int| 0u8),
                registers: Seq::new(16, |i: int| 0u8),
                index_register: 0,
                program_counter: 0,
                gfx: blank_screen(),
                timers: Timers { delay: 0, sound: 0, counter: 0, divisor: 10 },
                stack: Seq::empty(),
                keypad: Seq::new(16, |i: int| false),
                draw_flag: false,
                sound_request: false,
            }),
    {
        Self::with_clock_rate(CLOCK_SPEED_HZ)
    }

    /// Points the program counter at the start address and copies the glyphs
    /// into memory.
    pub fn initialize(&mut self)
        requires
            old(self).wf(),
        ensures
            final(self).wf(),
            final(self)@ == initialize_spec(old(self)@),
    {
        self.program_counter = PC_START_ADDRESS;
        let font = fontset::get();
        let start = FONTSET_START_ADDRESS as usize;
        let mut i: usize = 0;
        while i < font.len()
            invariant
                start == 0x50,
                font@ == fontset_spec(),
                i <= 80,
                self.stack.wf(),
                self@ == (Chip8View {
                    memory: self@.memory,
                    program_counter: PC_START_ADDRESS,
                    ..old(self)@
                }),
                self@.memory == write_block(old(self)@.memory, 0x50, fontset_spec().subrange(0, i as int)),
            decreases 80 - i,
        {
            self.memory[start + i] = font[i];
            i = i + 1;
            assert(self@.memory =~= write_block(old(self)@.memory, 0x50, fontset_spec().subrange(0, i as int)));
        }
        assert(fontset_spec().subrange(0, 80) =~= fontset_spec());
    }

    /// Copies a ROM into memory from the start address, or fails with
    /// `RomTooLarge` when it does not fit below the top of memory.
    pub fn load_game(&mut self, rom: &[u8]) -> (r: Result<(), Error>)
        requires
            old(self).wf(),
        ensures
            final(self).wf(),
            outcome(r, old(self)@, final(self)@, load_spec(old(self)@, rom@)),
    {
        if rom.len() > MAX_ROM_SIZE {
            return Err(Error::RomTooLarge);
        }
        let start = PC_START_ADDRESS as usize;
        let mut i: usize = 0;
        while i < rom.len()
            invariant
                start == 0x200,
                rom.len() <= MAX_ROM_SIZE,
                i <= rom.len(),
                self.stack.wf(),
                self@ == (Chip8View { memory: self@.memory, ..old(self)@ }),
                self@.memory == write_block(old(self)@.memory, 0x200, rom@.subrange(0, i as int)),
            decreases rom.len() - i,
        {
            self.memory[start + i] = rom[i];
            i = i + 1;
            assert(self@.memory =~= write_block(old(self)@.memory, 0x200, rom@.subrange(0, i as int)));
        }
        assert(rom@.subrange(0, rom@.len() as int) =~= rom@);
        Ok(())
    }

    /// Replaces the keypad snapshot: key `i` takes `keypad_state[i]`; keys
    /// past the end of `keypad_state` keep their state.
    pub fn set_keys(&mut self, keypad_state: Vec<bool>)
        requires
            old(self).wf(),
        ensures
            final(self).wf(),
            final(self)@ == (Chip8View {
                keypad: Seq::new(
                    16,
                    |i: int|
                        if i < keypad_state@.len() {
                            keypad_state@[i]
                        } else {
                            old(self)@.keypad[i]
                        },
                ),
                ..old(self)@
            }),
    {
        let mut i: usize = 0;
        while i < 16 && i < keypad_state.len()
            invariant
                i <= 16,
                i <= keypad_state@.len(),
                self.stack.wf(),
                self@ == (Chip8View { keypad: self@.keypad, ..old(self)@ }),
                self@.keypad.len() == 16,
                forall|k: int|
                    0 <= k < 16 ==> #[trigger] self@.keypad[k] == if k < i {
                        keypad_state@[k]
                    } else {
                        old(self)@.keypad[k]
                    },
            decreases 16 - i,
        {
            self.keypad[i] = keypad_state[i];
            i = i + 1;
        }
        assert(self@.keypad =~= Seq::new(
            16,
            |k: int|
                if k < keypad_state@.len() {
                    keypad_state@[k]
                } else {
                    old(self)@.keypad[k]
                },
        ));
    }

    /// The highest held key among keys 0 to E, as the wait-for-key
    /// instruction scans them.
    fn scan_keys(&self) -> (k: Option<u8>)
        requires
            self.wf(),
        ensures
            k == last_pressed(self@.keypad, SCANNED_KEYS as int),
    {
        let mut found: Option<u8> = None;
        let mut key: usize = 0;
        while key < SCANNED_KEYS
            invariant
                key <= SCANNED_KEYS,
                self@.keypad.len() == 16,
                found == last_pressed(self@.keypad, key as int),
            decreases SCANNED_KEYS - key,
        {
            if self.keypad[key] {
                found = Some(key as u8);
            }
            key = key + 1;
        }
        found
    }

    /// Turns every video cell off.
    fn clear_screen(&mut self)
        requires
            old(self).wf(),
        ensures
            final(self).wf(),
            final(self)@ == (Chip8View { gfx: blank_screen(), ..old(self)@ }),
    {
        let mut i: usize = 0;
        while i < VIDEO_CELLS
            invariant
                i <= VIDEO_CELLS,
                self.stack.wf(),
                self@ == (Chip8View { gfx: self@.gfx, ..old(self)@ }),
                self@.gfx.len() == 2048,
                forall|j: int| 0 <= j < 2048 ==> #[trigger] self@.gfx[j] == if j < i {
                    0
                } else {
                    old(self)@.gfx[j]
                },
            decreases VIDEO_CELLS - i,
        {
            self.gfx[i] = 0;
            i = i + 1;
        }
        assert(self@.gfx =~= blank_screen());
    }

    /// Stores the decimal digits of Vx at I, I+1 and I+2, dropping any that
    /// would land past the end of memory.
    fn store_bcd(&mut self, x: u8)
        requires
            old(self).wf(),
            x < 16,
        ensures
            final(self).wf(),
            final(self)@ == (Chip8View {
                memory: write_block(
                    old(self)@.memory,
                    old(self)@.index_register as int,
                    bcd(old(self)@.registers[x as int]),
                ),
                ..old(self)@
            }),
    {
        let v = self.registers[x as usize];
        let start = self.index_register as usize;
        if start < MEMORY_SIZE {
            self.memory[start] = v / 100;
        }
        if start + 1 < MEMORY_SIZE {
            self.memory[start + 1] = (v / 10) % 10;
        }
        if start + 2 < MEMORY_SIZE {
            self.memory[start + 2] = v % 10;
        }
        assert(self@.memory =~= write_block(old(self)@.memory, start as int, bcd(v)));
    }

    /// Stores V0..=Vx in memory from I, dropping bytes past the end of memory.
    fn store_registers(&mut self, x: u8)
        requires
            old(self).wf(),
            x < 16,
        ensures
            final(self).wf(),
            final(self)@ == (Chip8View {
                memory: write_block(
                    old(self)@.memory,
                    old(self)@.index_register as int,
                    old(self)@.registers.subrange(0, x as int + 1),
                ),
                ..old(self)@
            }),
    {
        let start = self.index_register as usize;
        let mut k: usize = 0;
        while k <= x as usize
            invariant
                x < 16,
                k <= x + 1,
                start == old(self)@.index_register,
                self.stack.wf(),
                self@ == (Chip8View { memory: self@.memory, ..old(self)@ }),
                self@.memory == write_block(
                    old(self)@.memory,
                    start as int,
                    old(self)@.registers.subrange(0, k as int),
                ),
            decreases x + 1 - k,
        {
            if start + k < MEMORY_SIZE {
                self.memory[start + k] = self.registers[k];
            }
            k = k + 1;
            assert(self@.memory =~= write_block(
                old(self)@.memory,
                start as int,
                old(self)@.registers.subrange(0, k as int),
            ));
        }
    }

    /// Loads V0..=Vx from memory from I; addresses past the end read as 0.
    fn load_registers(&mut self, x: u8)
        requires
            old(self).wf(),
            x < 16,
        ensures
            final(self).wf(),
            final(self)@ == (Chip8View {
                registers: Seq::new(
                    16,
                    |k: int|
                        if k <= x {
                            mem_read(old(self)@.memory, old(self)@.index_register as int + k)
                        } else {
                            old(self)@.registers[k]
                        },
                ),
                ..old(self)@
            }),
    {
        let start = self.index_register as usize;
        let mut k: usize = 0;
        while k <= x as usize
            invariant
                x < 16,
                k <= x + 1,
                start == old(self)@.index_register,
                self.stack.wf(),
                self@ == (Chip8View { registers: self@.registers, ..old(self)@ }),
                self@.registers.len() == 16,
                forall|j: int|
                    0 <= j < 16 ==> #[trigger] self@.registers[j] == if j < k {
                        mem_read(old(self)@.memory, start + j)
                    } else {
                        old(self)@.registers[j]
                    },
            decreases x + 1 - k,
        {
            let byte: u8 = if start + k < MEMORY_SIZE {
                self.memory[start + k]
            } else {
                0
            };
            self.registers[k] = byte;
            k = k + 1;
        }
        assert(self@.registers =~= Seq::new(
            16,
            |j: int|
                if j <= x {
                    mem_read(old(self)@.memory, start + j)
                } else {
                    old(self)@.registers[j]
                },
        ));
    }

    /// Executes one decoded instruction. `random` is the byte that `CXNN`
    /// masks. A failing instruction (a stack fault) changes nothing.
    pub fn execute(&mut self, ins: Instruction, random: u8) -> (r: Result<(), Error>)
        requires
            old(self).wf(),
            ins.wf(),
        ensures
            final(self).wf(),
            outcome(r, old(self)@, final(self)@, execute_spec(old(self)@, ins, random)),
    {
        let pc = self.program_counter;
        proof {
            lemma_byte_ops();
        }
        match ins {
            Instruction::ClearScreen => {
                self.clear_screen();
                self.program_counter = pc.wrapping_add(2);
            },
            Instruction::Return => {
                match self.stack.pop() {
                    Ok(address) => {
                        self.program_counter = address;
                    },
                    Err(e) => {
                        return Err(e);
                    },
                }
            },
            Instruction::Jump { nnn } => {
                self.program_counter = nnn;
            },
            Instruction::Call { nnn } => {
                match self.stack.push(pc) {
                    Ok(()) => {
                        self.program_counter = nnn;
                    },
                    Err(e) => {
                        return Err(e);
                    },
                }
            },
            Instruction::SkipIfEqual { x, nn } => {
                let step: u16 = if self.registers[x as usize] == nn { 4 } else { 2 };
                self.program_counter = pc.wrapping_add(step);
            },
            Instruction::SkipIfNotEqual { x, nn } => {
                let step: u16 = if self.registers[x as usize] != nn { 4 } else { 2 };
                self.program_counter = pc.wrapping_add(step);
            },
            Instruction::SkipIfRegistersEqual { x, y } => {
                let step: u16 = if self.registers[x as usize] == self.registers[y as usize] {
                    4
                } else {
                    2
                };
                self.program_counter = pc.wrapping_add(step);
            },
            Instruction::Load { x, nn } => {
                self.registers[x as usize] = nn;
                self.program_counter = pc.wrapping_add(2);
            },
            Instruction::AddImmediate { x, nn } => {
                self.registers[x as usize] = self.registers[x as usize].wrapping_add(nn);
                self.program_counter = pc.wrapping_add(2);
            },
            Instruction::Assign { x, y } => {
                self.registers[x as usize] = self.registers[y as usize];
                self.program_counter = pc.wrapping_add(2);
            },
            Instruction::Or { x, y } => {
                self.registers[x as usize] = self.registers[x as usize] | self.registers[y as usize];
                self.program_counter = pc.wrapping_add(2);
            },
            Instruction::And { x, y } => {
                self.registers[x as usize] = self.registers[x as usize] & self.registers[y as usize];
                self.program_counter = pc.wrapping_add(2);
            },
            Instruction::Xor { x, y } => {
                self.registers[x as usize] = self.registers[x as usize] ^ self.registers[y as usize];
                self.program_counter = pc.wrapping_add(2);
            },
            Instruction::AddRegisters { x, y } => {
                let vx = self.registers[x as usize];
                let vy = self.registers[y as usize];
                self.registers[x as usize] = vx.wrapping_add(vy);
                self.registers[0xF] = if vx as u16 + vy as u16 > 255 { 1 } else { 0 };
                self.program_counter = pc.wrapping_add(2);
            },
            Instruction::Subtract { x, y } => {
                let vx = self.registers[x as usize];
                let vy = self.registers[y as usize];
                self.registers[x as usize] = vx.wrapping_sub(vy);
                self.registers[0xF] = if vx > vy { 1 } else { 0 };
                self.program_counter = pc.wrapping_add(2);
            },
            Instruction::ShiftRight { x, .. } => {
                let vx = self.registers[x as usize];
                self.registers[x as usize] = vx >> 1;
                self.registers[0xF] = vx & 0x01;
                self.program_counter = pc.wrapping_add(2);
            },
            Instruction::SubtractReversed { x, y } => {
                let vx = self.registers[x as usize];
                let vy = self.registers[y as usize];
                self.registers[x as usize] = vy.wrapping_sub(vx);
                self.registers[0xF] = if vy > vx { 1 } else { 0 };
                self.program_counter = pc.wrapping_add(2);
            },
            Instruction::ShiftLeft { x, .. } => {
                let vx = self.registers[x as usize];
                self.registers[x as usize] = vx << 1;
                self.registers[0xF] = (vx & 0x80) >> 7;
                self.program_counter = pc.wrapping_add(2);
            },
            Instruction::SkipIfRegistersNotEqual { x, y } => {
                let step: u16 = if self.registers[x as usize] != self.registers[y as usize] {
                    4
                } else {
                    2
                };
                self.program_counter = pc.wrapping_add(step);
            },
            Instruction::SetIndex { nnn } => {
                self.index_register = nnn;
                self.program_counter = pc.wrapping_add(2);
            },
            Instruction::JumpOffset { nnn } => {
                self.program_counter = nnn.wrapping_add(self.registers[0] as u16);
            },
            Instruction::Random { x, nn } => {
                self.registers[x as usize] = random & nn;
                self.program_counter = pc.wrapping_add(2);
            },
            Instruction::Draw { x, y, n } => {
                let vx = self.registers[x as usize];
                let vy = self.registers[y as usize];
                let index = self.index_register as usize;
                dxyn(self, vx, vy, n, index);
                self.program_counter = pc.wrapping_add(2);
            },
            Instruction::SkipIfKey { x } => {
                let key = self.registers[x as usize] as usize;
                let down = key < 16 && self.keypad[key];
                let step: u16 = if down { 4 } else { 2 };
                self.program_counter = pc.wrapping_add(step);
            },
            Instruction::SkipIfNotKey { x } => {
                let key = self.registers[x as usize] as usize;
                let down = key < 16 && self.keypad[key];
                let step: u16 = if !down { 4 } else { 2 };
                self.program_counter = pc.wrapping_add(step);
            },
            Instruction::GetDelay { x } => {
                self.registers[x as usize] = self.timers.delay;
                self.program_counter = pc.wrapping_add(2);
            },
            Instruction::WaitKey { x } => {
                // Without a held key the program counter stays put, so the
                // same instruction runs again next cycle.
                if let Some(key) = self.scan_keys() {
                    self.registers[x as usize] = key;
                    self.program_counter = pc.wrapping_add(2);
                }
            },
            Instruction::SetDelay { x } => {
                self.timers.delay = self.registers[x as usize];
                self.program_counter = pc.wrapping_add(2);
            },
            Instruction::SetSound { x } => {
                self.timers.sound = self.registers[x as usize];
                self.program_counter = pc.wrapping_add(2);
            },
            Instruction::AddIndex { x } => {
                self.index_register = self.index_register.wrapping_add(
                    self.registers[x as usize] as u16,
                );
                self.program_counter = pc.wrapping_add(2);
            },
            Instruction::FontCharacter { x } => {
                self.index_register = FONTSET_START_ADDRESS + GLYPH_BYTES * (
                self.registers[x as usize] as u16);
                self.program_counter = pc.wrapping_add(2);
            },
            Instruction::StoreBcd { x } => {
                self.store_bcd(x);
                self.program_counter = pc.wrapping_add(2);
            },
            Instruction::StoreRegisters { x } => {
                self.store_registers(x);
                self.program_counter = pc.wrapping_add(2);
            },
            Instruction::LoadRegisters { x } => {
                self.load_registers(x);
                self.program_counter = pc.wrapping_add(2);
            },
        }
        Ok(())
    }

    /// The big-endian instruction word at the program counter.
    fn fetch(&self) -> (opcode: u16)
        requires
            self.wf(),
        ensures
            opcode == fetch_spec(self@),
    {
        let pc = self.program_counter as usize;
        let high: u8 = if pc < MEMORY_SIZE {
            self.memory[pc]
        } else {
            0
        };
        let low: u8 = if pc + 1 < MEMORY_SIZE {
            self.memory[pc + 1]
        } else {
            0
        };
        (high as u16) * 256 + low as u16
    }

    /// One tick of the timers; a sound request latches until taken.
    fn tick_timers(&mut self)
        requires
            old(self).wf(),
        ensures
            final(self).wf(),
            final(self)@ == tick_timers_spec(old(self)@),
    {
        let sound_request = self.timers.tick();
        if sound_request {
            self.sound_request = true;
        }
    }

    /// One cycle with the given byte for `CXNN`: fetches the instruction at
    /// the program counter, decodes and executes it, then ticks the timers.
    /// A failing cycle (unknown opcode, stack fault) changes nothing.
    pub fn execute_cycle(&mut self, random_byte: u8) -> (r: Result<(), Error>)
        requires
            old(self).wf(),
        ensures
            final(self).wf(),
            outcome(r, old(self)@, final(self)@, cycle_spec(old(self)@, random_byte)),
    {
        let opcode = self.fetch();
        let ins = match decode(opcode) {
            Ok(ins) => ins,
            Err(e) => {
                return Err(e);
            },
        };
        match self.execute(ins, random_byte) {
            Ok(()) => {},
            Err(e) => {
                return Err(e);
            },
        }
        self.tick_timers();
        Ok(())
    }

    /// One cycle, with `CXNN` masking a byte from the random number
    /// generator: the outcome is that of `execute_cycle` for some byte.
    pub fn emulate_cycle(&mut self) -> (r: Result<(), Error>)
        requires
            old(self).wf(),
        ensures
            final(self).wf(),
            exists|random: u8| #[trigger]
                outcome(r, old(self)@, final(self)@, cycle_spec(old(self)@, random)),
    {
        let random = random_byte();
        self.execute_cycle(random)
    }

    /// The video memory: 64 x 32 cells, row-major, each 0x00 or 0xFF.
    pub fn video_memory(&self) -> (gfx: &[u8; 2048])
        requires
            self.wf(),
        ensures
            gfx@ == self@.gfx,
            cells_valid(gfx@),
    {
        &self.gfx
    }

    /// Whether a sprite was drawn since the host last cleared the flag.
    pub fn draw_flag(&self) -> (f: bool)
        ensures
            f == self@.draw_flag,
    {
        self.draw_flag
    }

    /// Lowers the draw flag once the host has redrawn.
    pub fn clear_draw_flag(&mut self)
        requires
            old(self).wf(),
        ensures
            final(self).wf(),
            final(self)@ == (Chip8View { draw_flag: false, ..old(self)@ }),
    {
        self.draw_flag = false;
    }

    /// Takes the pending sound request: true once after the sound timer ran
    /// out, then false until it runs out again.
    pub fn take_sound_request(&mut self) -> (requested: bool)
        requires
            old(self).wf(),
        ensures
            final(self).wf(),
            requested == old(self)@.sound_request,
            final(self)@ == (Chip8View { sound_request: false, ..old(self)@ }),
    {
        let requested = self.sound_request;
        self.sound_request = false;
        requested
    }

    /// V0 to VF.
    pub fn registers(&self) -> (v: [u8; 16])
        ensures
            v@ == self@.registers,
    {
        self.registers
    }

    /// The memory.
    pub fn memory(&self) -> (m: &[u8; 4096])
        ensures
            m@ == self@.memory,
    {
        &self.memory
    }

    /// The index register I.
    pub fn index_register(&self) -> (i: u16)
        ensures
            i == self@.index_register,
    {
        self.index_register
    }

    /// The program counter.
    pub fn program_counter(&self) -> (pc: u16)
        ensures
            pc == self@.program_counter,
    {
        self.program_counter
    }

    /// The delay timer.
    pub fn delay_timer(&self) -> (t: u8)
        ensures
            t == self@.timers.delay,
    {
        self.timers.delay
    }

    /// The sound timer.
    pub fn sound_timer(&self) -> (t: u8)
        ensures
            t == self@.timers.sound,
    {
        self.timers.sound
    }

    /// The number of return addresses on the call stack.
    pub fn stack_depth(&self) -> (d: u8)
        requires
            self.wf(),
        ensures
            d == self@.stack.len(),
    {
        self.stack.depth()
    }

    /// The held keys, in increasing order.
    pub fn pressed_keys(&self) -> (keys: Vec<u8>)
        requires
            self.wf(),
        ensures
            keys@ == pressed_list(self@.keypad, 16),
    {
        let mut keys: Vec<u8> = Vec::new();
        let mut key: usize = 0;
        while key < 16
            invariant
                key <= 16,
                self@.keypad.len() == 16,
                keys@ == pressed_list(self@.keypad, key as int),
            decreases 16 - key,
        {
            if self.keypad[key] {
                keys.push(key as u8);
            }
            key = key + 1;
        }
        keys
    }
}

/// The shifts and masks of the shift instructions, stated arithmetically.
proof fn lemma_byte_ops()
    ensures
        forall|v: u8| #[trigger] (v >> 1u8) == v / 2,
        forall|v: u8| #[trigger] (v & 0x01u8) == v % 2,
        forall|v: u8| #[trigger] (v << 1u8) == ((v * 2) % 256) as u8,
        forall|v: u8| #[trigger] ((v & 0x80u8) >> 7u8) == v / 128,
{
    assert forall|v: u8| #[trigger] (v >> 1u8) == v / 2 by {
        assert((v >> 1u8) == v / 2) by (bit_vector);
    }
    assert forall|v: u8| #[trigger] (v & 0x01u8) == v % 2 by {
        assert((v & 0x01u8) == v % 2) by (bit_vector);
    }
    assert forall|v: u8| #[trigger] (v << 1u8) == ((v * 2) % 256) as u8 by {
        assert((v << 1u8) == ((v * 2) % 256) as u8) by (bit_vector);
    }
    assert forall|v: u8| #[trigger] ((v & 0x80u8) >> 7u8) == v / 128 by {
        assert(((v & 0x80u8) >> 7u8) == v / 128) by (bit_vector);
    }
}

/// The draw engine on the interpreter: XOR-draws the `n`-row sprite read
/// from memory at `index` at (vx mod 64, vy mod 32), sets VF to 1 if a lit
/// cell was turned off and to 0 otherwise, and raises the draw flag.
pub fn dxyn(chip8: &mut Chip8, vx: u8, vy: u8, n: u8, index: usize)
    requires
        old(chip8).wf(),
    ensures
        final(chip8).wf(),
        final(chip8)@ == draw_spec(old(chip8)@, vx, vy, n, index as int),
{
    let collision = draw_sprite(&mut chip8.gfx, &chip8.memory, vx, vy, n, index);
    chip8.registers[0xF] = if collision { 1 } else { 0 };
    chip8.draw_flag = true;
    proof {
        lemma_drawn_cells_valid(
            old(chip8)@.gfx,
            sprite_rows(old(chip8)@.memory, index as int, n as int),
            vx as int % 64,
            vy as int % 32,
        );
    }
}

} // verus!
