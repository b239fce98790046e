use vstd::prelude::*;

use crate::draw::{
    cells_valid, collides, covers, drawn, lemma_draw_twice_restores, lemma_redraw_collides, mem_read,
    sprite_rows,
};
use crate::error::Error;
use crate::fontset::fontset_spec;
use crate::instruction::{decode_spec, Instruction};
use crate::timer::{tick_spec, Timers};

verus! {

/// Where ROMs are loaded and execution starts.
pub const PC_START_ADDRESS: u16 = 0x200;

/// The most ROM bytes that fit between the load address and the top of memory.
pub const MAX_ROM_SIZE: usize = 3584;

/// The mathematical state of the interpreter.
pub struct Chip8View {
    /// 4096 bytes of memory.
    pub memory: Seq<u8>,
    /// V0 to VF.
    pub registers: Seq<u8>,
    pub index_register: u16,
    pub program_counter: u16,
    /// 64 x 32 video cells, row-major, each 0x00 or 0xFF.
    pub gfx: Seq<u8>,
    pub timers: Timers,
    /// Live return addresses, oldest first.
    pub stack: Seq<u16>,
    /// Sixteen keys, true when held down.
    pub keypad: Seq<bool>,
    /// Set by every draw; cleared by the host.
    pub draw_flag: bool,
    /// Set when the sound timer runs out; consumed by the host.
    pub sound_request: bool,
}

impl Chip8View {
    /// The sizes of the state's parts, the video cell values, the stack
    /// bound and the timer counter's range.
    pub open spec fn wf(self) -> bool {
        &&& self.memory.len() == 4096
        &&& self.registers.len() == 16
        &&& self.gfx.len() == 2048
        &&& cells_valid(self.gfx)
        &&& self.timers.wf()
        &&& self.stack.len() <= 16
        &&& self.keypad.len() == 16
    }
}

/// The program counter moved on by `by` bytes, wrapping at 16 bits.
pub open spec fn advance(s: Chip8View, by: u16) -> Chip8View {
    Chip8View { program_counter: s.program_counter.wrapping_add(by), ..s }
}

/// Skips the next instruction when `cond` holds.
pub open spec fn skip_if(s: Chip8View, cond: bool) -> Chip8View {
    advance(s, if cond { 4 } else { 2 })
}

/// Vx := v, then PC + 2.
pub open spec fn set_register(s: Chip8View, x: u8, v: u8) -> Chip8View {
    advance(Chip8View { registers: s.registers.update(x as int, v), ..s }, 2)
}

/// Vx := v, then VF := flag (the flag wins when x is F), then PC + 2.
pub open spec fn set_with_flag(s: Chip8View, x: u8, v: u8, flag: u8) -> Chip8View {
    advance(Chip8View { registers: s.registers.update(x as int, v).update(15, flag), ..s }, 2)
}

/// `memory` with `data` written from `start`; bytes that would land past the
/// end are dropped.
pub open spec fn write_block(memory: Seq<u8>, start: int, data: Seq<u8>) -> Seq<u8> {
    Seq::new(
        memory.len(),
        |a: int|
            if start <= a < start + data.len() {
                data[a - start]
            } else {
                memory[a]
            },
    )
}

/// Whether key `key` is held; keys past F are never held.
pub open spec fn key_down(keypad: Seq<bool>, key: u8) -> bool {
    key < keypad.len() && keypad[key as int]
}

/// The highest held key among the first `n` keys.
pub open spec fn last_pressed(keypad: Seq<bool>, n: int) -> Option<u8>
    decreases n,
{
    if n <= 0 {
        None
    } else if keypad[n - 1] {
        Some((n - 1) as u8)
    } else {
        last_pressed(keypad, n - 1)
    }
}

/// The held keys among the first `n`, in increasing order.
pub open spec fn pressed_list(keypad: Seq<bool>, n: int) -> Seq<u8>
    decreases n,
{
    if n <= 0 {
        Seq::empty()
    } else if keypad[n - 1] {
        pressed_list(keypad, n - 1).push((n - 1) as u8)
    } else {
        pressed_list(keypad, n - 1)
    }
}

/// The number of keys that the wait-for-key instruction scans (0 to E).
pub const SCANNED_KEYS: usize = 15;

/// The decimal digits of a byte: hundreds, tens, ones.
pub open spec fn bcd(v: u8) -> Seq<u8> {
    seq![v / 100, (v / 10) % 10, v % 10]
}

/// A blank screen.
pub open spec fn blank_screen() -> Seq<u8> {
    Seq::new(2048, |i: int| 0u8)
}

/// XOR-draws the `n`-row sprite at `addr` at (vx, vy), sets VF to whether a
/// lit cell was turned off, and raises the draw flag.
pub open spec fn draw_spec(s: Chip8View, vx: u8, vy: u8, n: u8, addr: int) -> Chip8View {
    let rows = sprite_rows(s.memory, addr, n as int);
    let x0 = vx as int % 64;
    let y0 = vy as int % 32;
    Chip8View {
        gfx: drawn(s.gfx, rows, x0, y0),
        registers: s.registers.update(15, if collides(s.gfx, rows, x0, y0) { 1u8 } else { 0u8 }),
        draw_flag: true,
        ..s
    }
}

/// The effect of one instruction. `random` is the byte that `CXNN` masks.
pub open spec fn execute_spec(s: Chip8View, ins: Instruction, random: u8) -> Result<Chip8View, Error> {
    let v = s.registers;
    match ins {
        Instruction::ClearScreen => Ok(advance(Chip8View { gfx: blank_screen(), ..s }, 2)),
        Instruction::Return => if s.stack.len() == 0 {
            Err(Error::StackUnderflow)
        } else {
            Ok(Chip8View { program_counter: s.stack.last(), stack: s.stack.drop_last(), ..s })
        },
        Instruction::Jump { nnn } => Ok(Chip8View { program_counter: nnn, ..s }),
        Instruction::Call { nnn } => if s.stack.len() >= 16 {
            Err(Error::StackOverflow)
        } else {
            Ok(
                Chip8View {
                    program_counter: nnn,
                    stack: s.stack.push(s.program_counter),
                    ..s
                },
            )
        },
        Instruction::SkipIfEqual { x, nn } => Ok(skip_if(s, v[x as int] == nn)),
        Instruction::SkipIfNotEqual { x, nn } => Ok(skip_if(s, v[x as int] != nn)),
        Instruction::SkipIfRegistersEqual { x, y } => Ok(skip_if(s, v[x as int] == v[y as int])),
        Instruction::Load { x, nn } => Ok(set_register(s, x, nn)),
        Instruction::AddImmediate { x, nn } => Ok(set_register(s, x, v[x as int].wrapping_add(nn))),
        Instruction::Assign { x, y } => Ok(set_register(s, x, v[y as int])),
        Instruction::Or { x, y } => Ok(set_register(s, x, v[x as int] | v[y as int])),
        Instruction::And { x, y } => Ok(set_register(s, x, v[x as int] & v[y as int])),
        Instruction::Xor { x, y } => Ok(set_register(s, x, v[x as int] ^ v[y as int])),
        Instruction::AddRegisters { x, y } => Ok(
            set_with_flag(
                s,
                x,
                v[x as int].wrapping_add(v[y as int]),
                if v[x as int] + v[y as int] > 255 { 1 } else { 0 },
            ),
        ),
        Instruction::Subtract { x, y } => Ok(
            set_with_flag(
                s,
                x,
                v[x as int].wrapping_sub(v[y as int]),
                if v[x as int] > v[y as int] { 1 } else { 0 },
            ),
        ),
        Instruction::ShiftRight { x, .. } => Ok(
            set_with_flag(s, x, v[x as int] / 2, v[x as int] % 2),
        ),
        Instruction::SubtractReversed { x, y } => Ok(
            set_with_flag(
                s,
                x,
                v[y as int].wrapping_sub(v[x as int]),
                if v[y as int] > v[x as int] { 1 } else { 0 },
            ),
        ),
        Instruction::ShiftLeft { x, .. } => Ok(
            set_with_flag(s, x, ((v[x as int] * 2) % 256) as u8, v[x as int] / 128),
        ),
        Instruction::SkipIfRegistersNotEqual { x, y } => Ok(
            skip_if(s, v[x as int] != v[y as int]),
        ),
        Instruction::SetIndex { nnn } => Ok(advance(Chip8View { index_register: nnn, ..s }, 2)),
        Instruction::JumpOffset { nnn } => Ok(
            Chip8View { program_counter: nnn.wrapping_add(v[0] as u16), ..s },
        ),
        Instruction::Random { x, nn } => Ok(set_register(s, x, random & nn)),
        Instruction::Draw { x, y, n } => Ok(
            advance(draw_spec(s, v[x as int], v[y as int], n, s.index_register as int), 2),
        ),
        Instruction::SkipIfKey { x } => Ok(skip_if(s, key_down(s.keypad, v[x as int]))),
        Instruction::SkipIfNotKey { x } => Ok(skip_if(s, !key_down(s.keypad, v[x as int]))),
        Instruction::GetDelay { x } => Ok(set_register(s, x, s.timers.delay)),
        Instruction::WaitKey { x } => match last_pressed(s.keypad, SCANNED_KEYS as int) {
            Some(k) => Ok(set_register(s, x, k)),
            None => Ok(s),
        },
        Instruction::SetDelay { x } => Ok(
            advance(Chip8View { timers: Timers { delay: v[x as int], ..s.timers }, ..s }, 2),
        ),
        Instruction::SetSound { x } => Ok(
            advance(Chip8View { timers: Timers { sound: v[x as int], ..s.timers }, ..s }, 2),
        ),
        Instruction::AddIndex { x } => Ok(
            advance(
                Chip8View { index_register: s.index_register.wrapping_add(v[x as int] as u16), ..s },
                2,
            ),
        ),
        Instruction::FontCharacter { x } => Ok(
            advance(Chip8View { index_register: (0x50 + 5 * v[x as int]) as u16, ..s }, 2),
        ),
        Instruction::StoreBcd { x } => Ok(
            advance(
                Chip8View {
                    memory: write_block(s.memory, s.index_register as int, bcd(v[x as int])),
                    ..s
                },
                2,
            ),
        ),
        Instruction::StoreRegisters { x } => Ok(
            advance(
                Chip8View {
                    memory: write_block(
                        s.memory,
                        s.index_register as int,
                        v.subrange(0, x as int + 1),
                    ),
                    ..s
                },
                2,
            ),
        ),
        Instruction::LoadRegisters { x } => Ok(
            advance(
                Chip8View {
                    registers: Seq::new(
                        16,
                        |k: int|
                            if k <= x {
                                mem_read(s.memory, s.index_register as int + k)
                            } else {
                                v[k]
                            },
                    ),
                    ..s
                },
                2,
            ),
        ),
    }
}

/// The big-endian instruction word at the program counter; bytes past the
/// end of memory read as 0.
pub open spec fn fetch_spec(s: Chip8View) -> u16 {
    (mem_read(s.memory, s.program_counter as int) as int * 256 + mem_read(
        s.memory,
        s.program_counter as int + 1,
    ) as int) as u16
}

/// One tick of the timers; the sound request latches until the host takes it.
pub open spec fn tick_timers_spec(s: Chip8View) -> Chip8View {
    let (t, beep) = tick_spec(s.timers);
    Chip8View { timers: t, sound_request: s.sound_request || beep, ..s }
}

/// One cycle: fetch, decode, execute, then one timer tick. A failing cycle
/// changes nothing.
pub open spec fn cycle_spec(s: Chip8View, random: u8) -> Result<Chip8View, Error> {
    match decode_spec(fetch_spec(s)) {
        Err(e) => Err(e),
        Ok(ins) => match execute_spec(s, ins, random) {
            Err(e) => Err(e),
            Ok(t) => Ok(tick_timers_spec(t)),
        },
    }
}

/// Loading a ROM: its bytes are copied from the start address, or the load
/// fails when they do not fit.
pub open spec fn load_spec(s: Chip8View, rom: Seq<u8>) -> Result<Chip8View, Error> {
    if rom.len() > MAX_ROM_SIZE {
        Err(Error::RomTooLarge)
    } else {
        Ok(Chip8View { memory: write_block(s.memory, PC_START_ADDRESS as int, rom), ..s })
    }
}

/// Initialisation: the program counter at the start address and the glyphs
/// in memory.
pub open spec fn initialize_spec(s: Chip8View) -> Chip8View {
    Chip8View {
        program_counter: PC_START_ADDRESS,
        memory: write_block(s.memory, 0x50, fontset_spec()),
        ..s
    }
}

/// How a call that may fail relates its result and final state to the
/// expected outcome: on success the state is the expected one, on failure
/// the error is the expected one and the state is unchanged.
pub open spec fn outcome<T>(
    r: Result<T, Error>,
    before: Chip8View,
    after: Chip8View,
    expected: Result<Chip8View, Error>,
) -> bool {
    match expected {
        Ok(t) => r is Ok && after == t,
        Err(e) => r matches Err(f) && f == e && after == before,
    }
}

/// Clearing the screen turns all 2048 cells off and moves the program
/// counter on by 2; clearing twice leaves the same state as clearing once,
/// but for the program counter.
pub proof fn lemma_clear_screen_idempotent(s: Chip8View, random: u8)
    requires
        s.wf(),
    ensures
        execute_spec(s, Instruction::ClearScreen, random) matches Ok(once) && {
            &&& forall|i: int| 0 <= i < 2048 ==> #[trigger] once.gfx[i] == 0
            &&& once.gfx.len() == 2048
            &&& once.program_counter == s.program_counter.wrapping_add(2)
            &&& once == (Chip8View { gfx: once.gfx, program_counter: once.program_counter, ..s })
            &&& execute_spec(once, Instruction::ClearScreen, random) matches Ok(twice)
                && twice == (Chip8View {
                program_counter: once.program_counter.wrapping_add(2),
                ..once
            })
        },
{
}

/// Loading a ROM that fits and reading back as many bytes from the start
/// address gives the ROM; the rest of memory is untouched.
pub proof fn lemma_load_round_trip(s: Chip8View, rom: Seq<u8>)
    requires
        s.wf(),
        rom.len() <= MAX_ROM_SIZE,
    ensures
        load_spec(s, rom) matches Ok(t) && {
            &&& t.memory.subrange(PC_START_ADDRESS as int, PC_START_ADDRESS + rom.len()) == rom
            &&& forall|a: int|
                0 <= a < 4096 && !(PC_START_ADDRESS <= a < PC_START_ADDRESS + rom.len())
                    ==> #[trigger] t.memory[a] == s.memory[a]
            &&& t.memory.len() == 4096
        },
{
    let t = Chip8View { memory: write_block(s.memory, PC_START_ADDRESS as int, rom), ..s };
    assert(t.memory.subrange(PC_START_ADDRESS as int, PC_START_ADDRESS + rom.len()) =~= rom);
}

/// Drawing the same sprite twice at the same place restores the screen.
/// On a blank screen, with a sprite that lights at least one cell (cell
/// `i`), the first draw sets VF to 0 and the second sets VF to 1.
pub proof fn lemma_redraw(s: Chip8View, vx: u8, vy: u8, n: u8, addr: int, i: int)
    requires
        s.wf(),
    ensures
        draw_spec(draw_spec(s, vx, vy, n, addr), vx, vy, n, addr).gfx == s.gfx,
        s.gfx == blank_screen() && 0 <= i < 2048 && covers(
            sprite_rows(s.memory, addr, n as int),
            vx as int % 64,
            vy as int % 32,
            i % 64,
            i / 64,
        ) ==> draw_spec(s, vx, vy, n, addr).registers[15] == 0 && draw_spec(
            draw_spec(s, vx, vy, n, addr),
            vx,
            vy,
            n,
            addr,
        ).registers[15] == 1,
{
    let rows = sprite_rows(s.memory, addr, n as int);
    lemma_draw_twice_restores(s.gfx, rows, vx as int % 64, vy as int % 32);
    if s.gfx == blank_screen() && 0 <= i < 2048 && covers(
        rows,
        vx as int % 64,
        vy as int % 32,
        i % 64,
        i / 64,
    ) {
        lemma_redraw_collides(s.gfx, rows, vx as int % 64, vy as int % 32, i);
    }
}

} // verus!
