use vstd::prelude::*;

use crate::buffer::duplicate;
use crate::buffer::filled;
use crate::display::Display;
use crate::display::VIDEO_BYTES;
use crate::errors::EngineError;
use crate::registers::Registers;

verus! {

/// Size of the addressable memory in bytes.
pub const MEM_BYTES: usize = 0x1000;

/// Size of the reserved interpreter region at the bottom of memory: it
/// holds the built-in font sprites and is never overwritten by a load.
pub const RESERVED_BYTES: usize = 0x200;

/// The largest program that fits above the reserved region.
pub const MAX_PROGRAM: usize = 0x800;

/// Depth of the call stack.
pub const STACK_DEPTH: usize = 16;

/// The default instruction rate, in instructions per second.
pub const DEFAULT_SPEED: u64 = 700;

/// The 5-byte built-in glyph for hexadecimal digit `d`.
pub open spec fn glyph(d: int) -> Seq<u8> {
    if d == 0x0 {
        seq![0xF0u8, 0x90, 0x90, 0x90, 0xF0]
    } else if d == 0x1 {
        seq![0x20u8, 0x60, 0x20, 0x20, 0x70]
    } else if d == 0x2 {
        seq![0xF0u8, 0x10, 0xF0, 0x80, 0xF0]
    } else if d == 0x3 {
        seq![0xF0u8, 0x10, 0xF0, 0x10, 0xF0]
    } else if d == 0x4 {
        seq![0x90u8, 0x90, 0xF0, 0x10, 0x10]
    } else if d == 0x5 {
        seq![0xF0u8, 0x80, 0xF0, 0x10, 0xF0]
    } else if d == 0x6 {
        seq![0xF0u8, 0x80, 0xF0, 0x90, 0xF0]
    } else if d == 0x7 {
        seq![0xF0u8, 0x10, 0x20, 0x40, 0x40]
    } else if d == 0x8 {
        seq![0xF0u8, 0x90, 0xF0, 0x90, 0xF0]
    } else if d == 0x9 {
        seq![0xF0u8, 0x90, 0xF0, 0x10, 0xF0]
    } else if d == 0xA {
        seq![0xF0u8, 0x90, 0xF0, 0x90, 0x90]
    } else if d == 0xB {
        seq![0xE0u8, 0x90, 0xE0, 0x90, 0xE0]
    } else if d == 0xC {
        seq![0xF0u8, 0x80, 0x80, 0x80, 0xF0]
    } else if d == 0xD {
        seq![0xE0u8, 0x90, 0x90, 0x90, 0xE0]
    } else if d == 0xE {
        seq![0xF0u8, 0x80, 0xF0, 0x80, 0xF0]
    } else {
        seq![0xF0u8, 0x80, 0xF0, 0x80, 0x80]
    }
}

/// The font table: the sixteen glyphs packed back to back from address 0,
/// glyph `d` at address `5 * d`.
pub open spec fn font_seq() -> Seq<u8> {
    glyph(0) + glyph(1) + glyph(2) + glyph(3) + glyph(4) + glyph(5) + glyph(6) + glyph(7) + glyph(
        8,
    ) + glyph(9) + glyph(10) + glyph(11) + glyph(12) + glyph(13) + glyph(14) + glyph(15)
}

/// The pristine reserved region: the font table followed by zero bytes up
/// to the program origin.
pub open spec fn reserved_rom() -> Seq<u8> {
    font_seq() + Seq::new((RESERVED_BYTES - 80) as nat, |i: int| 0u8)
}

/// The pristine ROM image a load produces: the reserved region, the
/// program, and zero padding up to the end of memory.
pub open spec fn rom_image(program: Seq<u8>) -> Seq<u8>
    recommends
        program.len() <= MAX_PROGRAM,
{
    reserved_rom() + program + Seq::new((MEM_BYTES - RESERVED_BYTES - program.len()) as nat, |i: int| 0u8)
}

/// Appends five bytes.
fn push5(v: &mut Vec<u8>, a: u8, b: u8, c: u8, d: u8, e: u8)
    ensures
        final(v)@ == old(v)@ + seq![a, b, c, d, e],
{
    v.push(a);
    v.push(b);
    v.push(c);
    v.push(d);
    v.push(e);
    assert(v@ =~= old(v)@ + seq![a, b, c, d, e]);
}

/// Builds the pristine reserved region: the built-in font sprites followed
/// by zeroes.
fn emulator_rom() -> (r: Vec<u8>)
    ensures
        r@ == reserved_rom(),
        r@.len() == RESERVED_BYTES,
{
    let mut v: Vec<u8> = Vec::new();
    push5(&mut v, 0xF0, 0x90, 0x90, 0x90, 0xF0);
    push5(&mut v, 0x20, 0x60, 0x20, 0x20, 0x70);
    push5(&mut v, 0xF0, 0x10, 0xF0, 0x80, 0xF0);
    push5(&mut v, 0xF0, 0x10, 0xF0, 0x10, 0xF0);
    push5(&mut v, 0x90, 0x90, 0xF0, 0x10, 0x10);
    push5(&mut v, 0xF0, 0x80, 0xF0, 0x10, 0xF0);
    push5(&mut v, 0xF0, 0x80, 0xF0, 0x90, 0xF0);
    push5(&mut v, 0xF0, 0x10, 0x20, 0x40, 0x40);
    push5(&mut v, 0xF0, 0x90, 0xF0, 0x90, 0xF0);
    push5(&mut v, 0xF0, 0x90, 0xF0, 0x10, 0xF0);
    push5(&mut v, 0xF0, 0x90, 0xF0, 0x90, 0x90);
    push5(&mut v, 0xE0, 0x90, 0xE0, 0x90, 0xE0);
    push5(&mut v, 0xF0, 0x80, 0x80, 0x80, 0xF0);
    push5(&mut v, 0xE0, 0x90, 0x90, 0x90, 0xE0);
    push5(&mut v, 0xF0, 0x80, 0xF0, 0x80, 0xF0);
    push5(&mut v, 0xF0, 0x80, 0xF0, 0x80, 0x80);
    assert(v@ =~= font_seq());
    let mut i: usize = 80;
    while i < RESERVED_BYTES
        invariant
            80 <= i <= RESERVED_BYTES,
            v@.len() == i,
            v@.subrange(0, 80) == font_seq(),
            forall|j: int| 80 <= j < i ==> v@[j] == 0,
        decreases RESERVED_BYTES - i,
    {
        v.push(0);
        i = i + 1;
        assert(v@.subrange(0, 80) =~= font_seq());
    }
    assert(v@ =~= reserved_rom());
    v
}

/// The virtual machine: memory with its pristine ROM snapshot, the display,
/// the call stack, the register file, the key-pad snapshot, and the pacing
/// state. The engine performs no I/O: the step function receives the
/// current monotonic time in nanoseconds from the caller.
pub struct VM {
    /// The pristine ROM image: reserved region plus loaded program. Reset
    /// restores `memory` from it. Never changed after a load.
    pub rom: Vec<u8>,
    /// How many program bytes were loaded.
    pub rom_size: usize,
    /// The live addressable memory.
    pub memory: Vec<u8>,
    /// The display buffer and active resolution.
    pub display: Display,
    /// The fixed-depth call stack; entries at and above `sp` are inactive.
    pub stack: Vec<u16>,
    /// The stack pointer: the number of active return addresses.
    pub sp: usize,
    /// The program counter.
    pub pc: u16,
    /// The register file.
    pub regs: Registers,
    /// The instant (in ns) emulation began; stamped by `reset`.
    pub clock: u64,
    /// How many instructions have executed since `clock`.
    pub cycles: u64,
    /// The target instruction rate, in instructions per second.
    pub speed: u64,
    /// The key-pad snapshot, driven by the caller through `set_key`.
    pub keys: Vec<bool>,
    /// The state of the pseudo-random generator behind the random opcode.
    pub rng: u64,
    /// Whether the machine is in the await-key state.
    pub waiting: bool,
    /// The register the awaited key lands in.
    pub wait_vx: u8,
    /// The keys already held when the await-key state was entered; only a
    /// key not among them satisfies the wait.
    pub wait_held: Vec<bool>,
}

impl VM {
    /// The structural invariant every constructor establishes and every
    /// operation preserves.
    pub open spec fn wf(&self) -> bool {
        &&& self.rom@.len() == MEM_BYTES
        &&& self.memory@.len() == MEM_BYTES
        &&& self.display.wf()
        &&& self.stack@.len() == STACK_DEPTH
        &&& self.sp <= STACK_DEPTH
        &&& self.regs.wf()
        &&& self.keys@.len() == 16
        &&& self.wait_held@.len() == 16
        &&& self.wait_vx < 16
        &&& self.speed >= 1
        &&& self.rom_size <= MAX_PROGRAM
        &&& self.rng < 0x8000_0000
        &&& (self.waiting ==> self.pc <= 0xFFE)
    }

    /// The transient machine state is at its start value: program counter
    /// at the program origin, empty stack, zeroed registers, cleared
    /// display in low resolution, no keys held, no cycles run, not waiting.
    pub open spec fn fresh_core(&self) -> bool {
        &&& self.pc == 0x200
        &&& self.sp == 0
        &&& self.stack@ =~= Seq::new(STACK_DEPTH as nat, |i: int| 0u16)
        &&& self.regs.all_zero()
        &&& self.cycles == 0
        &&& self.keys@ =~= Seq::new(16, |i: int| false)
        &&& self.display.pitch == 8
        &&& self.display.video@ =~= Seq::new(VIDEO_BYTES as nat, |i: int| 0u8)
        &&& !self.waiting
        &&& self.wait_vx == 0
        &&& self.wait_held@ =~= Seq::new(16, |i: int| false)
    }

    /// A blank machine: no program, zeroed memory and ROM, default speed.
    pub fn new() -> (vm: VM)
        ensures
            vm.wf(),
            vm.fresh_core(),
            vm.rom@ =~= Seq::new(MEM_BYTES as nat, |i: int| 0u8),
            vm.rom_size == 0,
            vm.memory@ =~= Seq::new(MEM_BYTES as nat, |i: int| 0u8),
            vm.speed == DEFAULT_SPEED,
            vm.clock == 0,
            vm.rng == 0,
    {
        VM {
            rom: filled(MEM_BYTES, 0u8),
            rom_size: 0,
            memory: filled(MEM_BYTES, 0u8),
            display: Display::new(),
            stack: filled(STACK_DEPTH, 0u16),
            sp: 0,
            pc: 0x200,
            regs: Registers::new(),
            clock: 0,
            cycles: 0,
            speed: DEFAULT_SPEED,
            keys: filled(16, false),
            rng: 0,
            waiting: false,
            wait_vx: 0,
            wait_held: filled(16, false),
        }
    }

    /// Restores the machine to its state just after loading: `memory` is
    /// recopied from the pristine ROM, the program counter returns to the
    /// program origin, and registers, stack, display, keys and the cycle
    /// count are zeroed. The loaded ROM and the configured speed survive;
    /// the clock is re-stamped to `now`.
    pub fn reset(&mut self, now: u64)
        requires
            old(self).wf(),
        ensures
            final(self).wf(),
            final(self).fresh_core(),
            final(self).rom@ == old(self).rom@,
            final(self).rom_size == old(self).rom_size,
            final(self).speed == old(self).speed,
            final(self).memory@ == old(self).rom@,
            final(self).clock == now,
            final(self).rng == now % 0x8000_0000,
    {
        self.memory = duplicate(&self.rom);
        self.display = Display::new();
        self.stack = filled(STACK_DEPTH, 0u16);
        self.sp = 0;
        self.pc = 0x200;
        self.regs = Registers::new();
        self.cycles = 0;
        self.clock = now;
        self.keys = filled(16, false);
        self.rng = now % 0x8000_0000;
        self.waiting = false;
        self.wait_vx = 0;
        self.wait_held = filled(16, false);
    }

    /// Records one key of the 16-key pad as pressed or released. The engine
    /// only ever reads this snapshot; an external input source drives it.
    pub fn set_key(&mut self, index: usize, pressed: bool)
        requires
            old(self).wf(),
            index < 16,
        ensures
            final(self).wf(),
            final(self).keys@ == old(self).keys@.update(index as int, pressed),
            *final(self) == (VM { keys: final(self).keys, ..*old(self) }),
    {
        self.keys[index] = pressed;
    }

    /// Sets the target instruction rate in instructions per second.
    pub fn set_speed(&mut self, speed: u64)
        requires
            old(self).wf(),
            speed >= 1,
        ensures
            final(self).wf(),
            final(self).speed == speed,
            *final(self) == (VM { speed, ..*old(self) }),
    {
        self.speed = speed;
    }

    /// The packed framebuffer, for an external renderer.
    pub fn framebuffer(&self) -> (v: &Vec<u8>)
        ensures
            v@ == self.display.video@,
    {
        &self.display.video
    }

    /// Bytes per scan line of the active resolution: 8 low, 16 high.
    pub fn pitch(&self) -> (p: usize)
        ensures
            p == self.display.pitch,
    {
        self.display.pitch
    }

    /// Whether the high (128x64) resolution is active.
    pub fn high_resolution(&self) -> (h: bool)
        ensures
            h == (self.display.pitch == 16),
    {
        self.display.pitch == 16
    }

    /// Whether the sound timer is active at `now`: the binary "sound
    /// active" signal an external beeper consumes.
    pub fn sound_active(&self, now: u64) -> (a: bool)
        ensures
            a == (now < self.regs.st),
    {
        now < self.regs.st
    }
}

/// Loads a program: fails with `ProgramTooLarge` when it does not fit in
/// the 2048 bytes above the reserved region, and otherwise produces a
/// machine whose pristine ROM is the reserved font region, the program
/// bytes at the program origin, and zero padding; live memory starts as a
/// copy of that ROM and the program counter at the program origin.
pub fn load_rom(program: Vec<u8>) -> (r: Result<VM, EngineError>)
    ensures
        program@.len() > MAX_PROGRAM ==> r == Err::<VM, EngineError>(EngineError::ProgramTooLarge),
        program@.len() <= MAX_PROGRAM ==> (r matches Ok(vm) && vm.wf() && vm.fresh_core()
            && vm.rom_size == program@.len() && vm.rom@ == rom_image(program@) && vm.memory@
            == rom_image(program@) && vm.speed == DEFAULT_SPEED && vm.clock == 0 && vm.rng == 0 && (
        forall|a: int| 0 <= a < RESERVED_BYTES ==> vm.memory@[a] == reserved_rom()[a]) && (forall|
            a: int,
        |
            RESERVED_BYTES <= a < RESERVED_BYTES + program@.len() ==> vm.memory@[a] == program@[a
                - RESERVED_BYTES])),
{
    if program.len() > MAX_PROGRAM {
        return Err(EngineError::ProgramTooLarge);
    }
    let mut rom = emulator_rom();
    let mut k: usize = 0;
    while k < program.len()
        invariant
            k <= program@.len(),
            program@.len() <= MAX_PROGRAM,
            rom@ == reserved_rom() + program@.subrange(0, k as int),
        decreases program@.len() - k,
    {
        rom.push(program[k]);
        k = k + 1;
        assert(rom@ =~= reserved_rom() + program@.subrange(0, k as int));
    }
    assert(rom@ =~= reserved_rom() + program@);
    let base: usize = rom.len();
    while rom.len() < MEM_BYTES
        invariant
            base == RESERVED_BYTES + program@.len(),
            base <= rom@.len() <= MEM_BYTES,
            rom@.subrange(0, base as int) == reserved_rom() + program@,
            forall|j: int| base <= j < rom@.len() ==> rom@[j] == 0,
        decreases MEM_BYTES - rom@.len(),
    {
        rom.push(0);
        assert(rom@.subrange(0, base as int) =~= reserved_rom() + program@);
    }
    assert(rom@ =~= rom_image(program@));
    let memory = duplicate(&rom);
    let mut vm = VM::new();
    vm.rom = rom;
    vm.rom_size = program.len();
    vm.memory = memory;
    Ok(vm)
}

} // verus!
