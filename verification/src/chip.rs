//! The executable CHIP-8 machine.
//!
//! [`Chip_8`] owns the whole machine state. Its view is a
//! [`MachineView`], and `run_cycle` is proved to follow the transition
//! function [`step`] exactly, error cases included.

use vstd::pervasive::VecAdditionalExecFns;
use vstd::prelude::*;

use crate::font::font_byte;
use crate::keyboard::Keyboard;
use crate::keyboard::pressed_in;
use crate::machine::Chip8Error;
use crate::machine::MachineView;
use crate::machine::RunState;
use crate::machine::collision_at;
use crate::machine::collision_before;
use crate::machine::draw_collides;
use crate::machine::draw_display;
use crate::machine::initial_view;
use crate::machine::loaded_mem;
use crate::machine::loaded_regs;
use crate::machine::pixel_flip;
use crate::machine::sprite_bit;
use crate::machine::sprite_contrib;
use crate::machine::step;
use crate::machine::step_alu;
use crate::machine::step_draw;
use crate::machine::step_fx;
use crate::machine::step_op;
use crate::machine::stored_regs;
use crate::machine::ticked;

verus! {

/// Fills a byte vector with `n` copies of `v`.
fn filled_u8(n: usize, v: u8) -> (r: Vec<u8>)
    ensures
        r@.len() == n,
        forall|i: int| 0 <= i < n ==> r@[i] == v,
{
    let mut r: Vec<u8> = Vec::new();
    while r.len() < n
        invariant
            r@.len() <= n,
            forall|i: int| 0 <= i < r@.len() ==> r@[i] == v,
        decreases n - r@.len(),
    {
        r.push(v);
    }
    r
}

/// Bit `c` of a sprite row, counted from the most significant bit.
fn sprite_bit_at(row: u8, c: usize) -> (r: u8)
    requires
        c < 8,
    ensures
        r == sprite_bit(row, c as int),
        r <= 1,
{
    let d: u8 = if c == 0 {
        128
    } else if c == 1 {
        64
    } else if c == 2 {
        32
    } else if c == 3 {
        16
    } else if c == 4 {
        8
    } else if c == 5 {
        4
    } else if c == 6 {
        2
    } else {
        1
    };
    (row / d) % 2
}

/// The sprite bit a draw at `(x, y)` of height `n` sends to pixel `idx`.
fn contrib_at(mem: &Vec<u8>, i: u16, x: usize, y: usize, n: usize, idx: usize) -> (r: u8)
    requires
        mem@.len() == 4096,
        x < 64,
        y < 32,
        n < 16,
        idx < 2048,
        n > 0 ==> i as int + n <= 4096,
    ensures
        r == sprite_contrib(mem@, i, x as int, y as int, n as int, idx as int),
        r <= 1,
{
    let px: usize = idx % 64;
    let py: usize = idx / 64;
    let c: usize = (px + 64 - x) % 64;
    if y <= py && py < y + n && c < 8 {
        sprite_bit_at(mem[i as usize + (py - y)], c)
    } else {
        0
    }
}

/// The CHIP-8 machine: memory, registers, call stack, timers, display and
/// keypad, plus the running/awaiting-key state and the random generator.
#[allow(non_camel_case_types)]
pub struct Chip_8 {
    memory: Vec<u8>,
    registers: Vec<u8>,
    index_register: u16,
    program_counter: u16,
    graphics_buffer: Vec<u8>,
    delay_timer: u8,
    sound_timer: u8,
    stack: Vec<u16>,
    keyboard: Keyboard,
    state: RunState,
    rand_state: u16,
}

impl View for Chip_8 {
    type V = MachineView;

    closed spec fn view(&self) -> MachineView {
        MachineView {
            mem: self.memory@,
            regs: self.registers@,
            index: self.index_register,
            pc: self.program_counter,
            display: self.graphics_buffer@,
            delay: self.delay_timer,
            sound: self.sound_timer,
            stack: self.stack@,
            keys: self.keyboard@,
            mode: self.state,
            rand: self.rand_state,
        }
    }
}

impl Chip_8 {
    /// The machine invariant: the view is well-formed.
    pub open spec fn wf(&self) -> bool {
        self@.wf()
    }

    /// A freshly reset machine: zeroed memory with the font table at the
    /// bottom, program counter at the program start, everything else clear.
    pub fn init() -> (c: Chip_8)
        ensures
            c.wf(),
            c@ == initial_view(),
    {
        let mut memory = filled_u8(4096, 0);
        let mut j: usize = 0;
        while j < 80
            invariant
                memory@.len() == 4096,
                j <= 80,
                forall|a: int| 0 <= a < j ==> memory@[a] == crate::font::font_at(a),
                forall|a: int| j <= a < 4096 ==> memory@[a] == 0,
            decreases 80 - j,
        {
            memory.set(j, font_byte(j));
            j = j + 1;
        }
        let c = Chip_8 {
            memory,
            registers: filled_u8(16, 0),
            index_register: 0,
            program_counter: 512,
            graphics_buffer: filled_u8(2048, 0),
            delay_timer: 0,
            sound_timer: 0,
            stack: Vec::new(),
            keyboard: Keyboard::init(),
            state: RunState::Running,
            rand_state: 0xACE1,
        };
        proof {
            assert(c@.mem =~= initial_view().mem);
            assert(c@.regs =~= initial_view().regs);
            assert(c@.display =~= initial_view().display);
            assert(c@.stack =~= initial_view().stack);
            assert(c@.keys =~= initial_view().keys);
            assert(c@ =~= initial_view());
        }
        c
    }

    /// The 80-byte font table, glyph 0 first, as `init` preloads it.
    pub fn get_font_array() -> (r: Vec<u8>)
        ensures
            r@.len() == 80,
            forall|j: int| 0 <= j < 80 ==> r@[j] == crate::font::font_at(j),
    {
        let mut r: Vec<u8> = Vec::new();
        let mut j: usize = 0;
        while j < 80
            invariant
                j <= 80,
                r@.len() == j,
                forall|i: int| 0 <= i < j ==> r@[i] == crate::font::font_at(i),
            decreases 80 - j,
        {
            r.push(font_byte(j));
            j = j + 1;
        }
        r
    }

    /// Copies a program into memory at the program start. A program longer
    /// than 3584 bytes is refused whole with `RomTooLarge`; nothing outside
    /// the copied range changes either way.
    pub fn load_program(&mut self, program: &Vec<u8>) -> (r: Result<(), Chip8Error>)
        requires
            old(self).wf(),
        ensures
            final(self).wf(),
            program@.len() > 3584 ==> r == Err::<(), Chip8Error>(Chip8Error::RomTooLarge)
                && final(self)@ == old(self)@,
            program@.len() <= 3584 ==> r is Ok && final(self)@ == (MachineView {
                mem: loaded_mem(old(self)@.mem, program@),
                ..old(self)@
            }),
    {
        if program.len() > 3584 {
            return Err(Chip8Error::RomTooLarge);
        }
        let ghost s0 = self@;
        let mut j: usize = 0;
        while j < program.len()
            invariant
                self@ == (MachineView { mem: self@.mem, ..s0 }),
                self@.mem.len() == 4096,
                s0.wf(),
                j <= program@.len(),
                program@.len() <= 3584,
                forall|a: int| 512 <= a < 512 + j ==> self@.mem[a] == program@[a - 512],
                forall|a: int|
                    (0 <= a < 512 || 512 + j <= a < 4096) ==> self@.mem[a] == s0.mem[a],
            decreases program@.len() - j,
        {
            self.memory.set(512 + j, program[j]);
            j = j + 1;
        }
        proof {
            assert(self@.mem =~= loaded_mem(s0.mem, program@));
            assert(self@ =~= (MachineView { mem: loaded_mem(s0.mem, program@), ..s0 }));
        }
        Ok(())
    }

    /// An immutable snapshot of the 64x32 display, row-major; a pure read.
    pub fn get_graphics_buffer(&self) -> (r: Vec<u8>)
        requires
            self.wf(),
        ensures
            r@ == self@.display,
    {
        let mut r: Vec<u8> = Vec::new();
        let mut j: usize = 0;
        while j < self.graphics_buffer.len()
            invariant
                self.wf(),
                j <= 2048,
                r@.len() == j,
                forall|i: int| 0 <= i < j ==> r@[i] == self@.display[i],
            decreases 2048 - j,
        {
            r.push(self.graphics_buffer[j]);
            j = j + 1;
        }
        proof {
            assert(r@ =~= self@.display);
        }
        r
    }

    /// Replaces the pressed-key snapshot wholesale: afterwards a symbol is
    /// pressed exactly when a character in `keys` names it. No other part of
    /// the machine moves.
    pub fn set_keys(&mut self, keys: &Vec<char>)
        requires
            old(self).wf(),
        ensures
            final(self).wf(),
            forall|k: int|
                0 <= k < 16 ==> (final(self)@.keys[k] <==> pressed_in(
                    keys@,
                    keys@.len() as int,
                    k,
                )),
            final(self)@ == (MachineView { keys: final(self)@.keys, ..old(self)@ }),
    {
        self.keyboard.set_state(keys);
    }

    /// One 60 Hz tick: both timers go down by one, floored at zero. Returns
    /// true exactly when the sound timer went from one to zero, the moment
    /// the host's beeper fires.
    pub fn tick_timers(&mut self) -> (beep: bool)
        requires
            old(self).wf(),
        ensures
            final(self).wf(),
            final(self)@ == ticked(old(self)@),
            beep == (old(self)@.sound == 1),
    {
        if self.delay_timer > 0 {
            self.delay_timer = self.delay_timer - 1;
        }
        let beep = self.sound_timer == 1;
        if self.sound_timer > 0 {
            self.sound_timer = self.sound_timer - 1;
        }
        proof {
            assert(self@ =~= ticked(old(self)@));
        }
        beep
    }

    /// One of the sixteen registers, for hosts and tests that inspect the machine.
    pub fn get_register(&self, i: usize) -> (r: u8)
        requires
            self.wf(),
            i < 16,
        ensures
            r == self@.regs[i as int],
    {
        self.registers[i]
    }

    /// The program counter.
    pub fn get_program_counter(&self) -> (r: u16)
        ensures
            r == self@.pc,
    {
        self.program_counter
    }

    /// The index register I.
    pub fn get_index_register(&self) -> (r: u16)
        ensures
            r == self@.index,
    {
        self.index_register
    }

    /// The delay timer.
    pub fn get_delay_timer(&self) -> (r: u8)
        ensures
            r == self@.delay,
    {
        self.delay_timer
    }

    /// The sound timer.
    pub fn get_sound_timer(&self) -> (r: u8)
        ensures
            r == self@.sound,
    {
        self.sound_timer
    }

    /// How many calls are in flight.
    pub fn get_stack_depth(&self) -> (r: usize)
        ensures
            r == self@.stack.len(),
    {
        self.stack.len()
    }

    /// Whether the machine runs or awaits a key.
    pub fn get_run_state(&self) -> (r: RunState)
        ensures
            r == self@.mode,
    {
        self.state
    }

    /// The register-arithmetic group 8XYN.
    fn exec_alu(&mut self, op: u16) -> (r: Result<(), Chip8Error>)
        requires
            old(self).wf(),
            old(self)@.pc as int + 1 < 4096,
            old(self)@.mode is Running,
        ensures
            final(self).wf(),
            match step_alu(old(self)@, op) {
                Ok(v) => r is Ok && final(self)@ == v,
                Err(e) => r == Err::<(), Chip8Error>(e) && final(self)@ == old(self)@,
            },
    {
        let x: usize = ((op as usize) / 256) % 16;
        let y: usize = ((op as usize) / 16) % 16;
        let n: usize = (op as usize) % 16;
        let vx = self.registers[x];
        let vy = self.registers[y];
        match n {
            0 => {
                self.registers.set(x, vy);
                self.program_counter = self.program_counter + 2;
                Ok(())
            }
            1 => {
                self.registers.set(x, vx | vy);
                self.program_counter = self.program_counter + 2;
                Ok(())
            }
            2 => {
                self.registers.set(x, vx & vy);
                self.program_counter = self.program_counter + 2;
                Ok(())
            }
            3 => {
                self.registers.set(x, vx ^ vy);
                self.program_counter = self.program_counter + 2;
                Ok(())
            }
            4 => {
                let sum: u16 = vx as u16 + vy as u16;
                self.registers.set(x, (sum % 256) as u8);
                self.registers.set(15, if sum > 255 { 1 } else { 0 });
                self.program_counter = self.program_counter + 2;
                Ok(())
            }
            5 => {
                let diff: u16 = (vx as u16 + 256) - (vy as u16);
                self.registers.set(x, (diff % 256) as u8);
                self.registers.set(15, if vx >= vy { 1 } else { 0 });
                self.program_counter = self.program_counter + 2;
                Ok(())
            }
            6 => {
                self.registers.set(x, vx / 2);
                self.registers.set(15, vx % 2);
                self.program_counter = self.program_counter + 2;
                Ok(())
            }
            7 => {
                let diff: u16 = (vy as u16 + 256) - (vx as u16);
                self.registers.set(x, (diff % 256) as u8);
                self.registers.set(15, if vy >= vx { 1 } else { 0 });
                self.program_counter = self.program_counter + 2;
                Ok(())
            }
            14 => {
                let dbl: u16 = (vx as u16) * 2;
                self.registers.set(x, (dbl % 256) as u8);
                self.registers.set(15, vx / 128);
                self.program_counter = self.program_counter + 2;
                Ok(())
            }
            _ => Err(Chip8Error::UnsupportedOpcode(op)),
        }
    }

    /// The miscellaneous group FXNN.
    fn exec_fx(&mut self, op: u16) -> (r: Result<(), Chip8Error>)
        requires
            old(self).wf(),
            old(self)@.pc as int + 1 < 4096,
            old(self)@.mode is Running,
        ensures
            final(self).wf(),
            match step_fx(old(self)@, op) {
                Ok(v) => r is Ok && final(self)@ == v,
                Err(e) => r == Err::<(), Chip8Error>(e) && final(self)@ == old(self)@,
            },
    {
        let x: usize = ((op as usize) / 256) % 16;
        let kk: usize = (op as usize) % 256;
        let vx = self.registers[x];
        match kk {
            0x07 => {
                self.registers.set(x, self.delay_timer);
                self.program_counter = self.program_counter + 2;
                Ok(())
            }
            0x0A => {
                self.state = RunState::AwaitingKey(x as u8);
                Ok(())
            }
            0x15 => {
                self.delay_timer = vx;
                self.program_counter = self.program_counter + 2;
                Ok(())
            }
            0x18 => {
                self.sound_timer = vx;
                self.program_counter = self.program_counter + 2;
                Ok(())
            }
            0x1E => {
                let t: u32 = self.index_register as u32 + vx as u32;
                self.index_register = (t % 65536) as u16;
                self.program_counter = self.program_counter + 2;
                Ok(())
            }
            0x29 => {
                self.index_register = (vx % 16) as u16 * 5;
                self.program_counter = self.program_counter + 2;
                Ok(())
            }
            0x33 => {
                if self.index_register as usize + 3 > 4096 {
                    return Err(Chip8Error::MemoryAddressOutOfRange);
                }
                let i: usize = self.index_register as usize;
                self.memory.set(i, vx / 100);
                self.memory.set(i + 1, (vx / 10) % 10);
                self.memory.set(i + 2, vx % 10);
                self.program_counter = self.program_counter + 2;
                Ok(())
            }
            0x55 => {
                if self.index_register as usize + x + 1 > 4096 {
                    return Err(Chip8Error::MemoryAddressOutOfRange);
                }
                let i: usize = self.index_register as usize;
                let ghost s0 = self@;
                let mut r: usize = 0;
                while r <= x
                    invariant
                        self@ == (MachineView { mem: self@.mem, ..s0 }),
                        self@.mem.len() == 4096,
                        s0.wf(),
                        x < 16,
                        r <= x + 1,
                        i == s0.index,
                        i + x + 1 <= 4096,
                        forall|a: int| i <= a < i + r ==> self@.mem[a] == s0.regs[a - i],
                        forall|a: int|
                            (0 <= a < i || i + r <= a < 4096) ==> self@.mem[a] == s0.mem[a],
                    decreases x + 1 - r,
                {
                    self.memory.set(i + r, self.registers[r]);
                    r = r + 1;
                }
                proof {
                    assert(self@.mem =~= stored_regs(s0, x as int));
                }
                self.program_counter = self.program_counter + 2;
                proof {
                    assert(self@ =~= (MachineView {
                        mem: stored_regs(s0, x as int),
                        pc: (s0.pc + 2) as u16,
                        ..s0
                    }));
                }
                Ok(())
            }
            0x65 => {
                if self.index_register as usize + x + 1 > 4096 {
                    return Err(Chip8Error::MemoryAddressOutOfRange);
                }
                let i: usize = self.index_register as usize;
                let ghost s0 = self@;
                let mut r: usize = 0;
                while r <= x
                    invariant
                        self@ == (MachineView { regs: self@.regs, ..s0 }),
                        self@.regs.len() == 16,
                        s0.wf(),
                        x < 16,
                        r <= x + 1,
                        i == s0.index,
                        i + x + 1 <= 4096,
                        forall|q: int| 0 <= q < r ==> self@.regs[q] == s0.mem[i + q],
                        forall|q: int| r <= q < 16 ==> self@.regs[q] == s0.regs[q],
                    decreases x + 1 - r,
                {
                    let b = self.memory[i + r];
                    self.registers.set(r, b);
                    r = r + 1;
                }
                proof {
                    assert(self@.regs =~= loaded_regs(s0, x as int));
                }
                self.program_counter = self.program_counter + 2;
                proof {
                    assert(self@ =~= (MachineView {
                        regs: loaded_regs(s0, x as int),
                        pc: (s0.pc + 2) as u16,
                        ..s0
                    }));
                }
                Ok(())
            }
            _ => Err(Chip8Error::UnsupportedOpcode(op)),
        }
    }

    /// The draw instruction DXYN: XOR-blit the sprite at `I` onto the
    /// display, recording a collision in VF.
    fn exec_draw(&mut self, op: u16) -> (r: Result<(), Chip8Error>)
        requires
            old(self).wf(),
            old(self)@.pc as int + 1 < 4096,
            old(self)@.mode is Running,
        ensures
            final(self).wf(),
            match step_draw(old(self)@, op) {
                Ok(v) => r is Ok && final(self)@ == v,
                Err(e) => r == Err::<(), Chip8Error>(e) && final(self)@ == old(self)@,
            },
    {
        let x: usize = ((op as usize) / 256) % 16;
        let y: usize = ((op as usize) / 16) % 16;
        let n: usize = (op as usize) % 16;
        if n > 0 && self.index_register as usize + n > 4096 {
            return Err(Chip8Error::MemoryAddressOutOfRange);
        }
        let px: usize = (self.registers[x] % 64) as usize;
        let py: usize = (self.registers[y] % 32) as usize;
        let ghost s0 = self@;
        let mut collided = false;
        let mut idx: usize = 0;
        while idx < 2048
            invariant
                self@ == (MachineView { display: self@.display, ..s0 }),
                self@.display.len() == 2048,
                s0.wf(),
                px < 64,
                py < 32,
                n < 16,
                n > 0 ==> s0.index as int + n <= 4096,
                idx <= 2048,
                forall|j: int|
                    0 <= j < idx ==> self@.display[j] == pixel_flip(
                        s0.display[j],
                        sprite_contrib(s0.mem, s0.index, px as int, py as int, n as int, j),
                    ),
                forall|j: int| idx <= j < 2048 ==> self@.display[j] == s0.display[j],
                collided == collision_before(s0, px as int, py as int, n as int, idx as int),
            decreases 2048 - idx,
        {
            let sbit = contrib_at(&self.memory, self.index_register, px, py, n, idx);
            if sbit == 1 {
                if self.graphics_buffer[idx] == 1 {
                    collided = true;
                    self.graphics_buffer.set(idx, 0);
                } else {
                    self.graphics_buffer.set(idx, 1);
                }
            }
            proof {
                if collision_at(s0, px as int, py as int, n as int, idx as int) {
                    assert(collision_before(s0, px as int, py as int, n as int, idx as int + 1));
                } else if collision_before(s0, px as int, py as int, n as int, idx as int + 1) {
                    let w = choose|w: int|
                        0 <= w < idx as int + 1 && #[trigger] collision_at(
                            s0,
                            px as int,
                            py as int,
                            n as int,
                            w,
                        );
                    assert(w < idx as int);
                    assert(collision_before(s0, px as int, py as int, n as int, idx as int));
                }
            }
            idx = idx + 1;
        }
        proof {
            assert(self@.display =~= draw_display(s0, px as int, py as int, n as int));
        }
        self.registers.set(15, if collided { 1 } else { 0 });
        self.program_counter = self.program_counter + 2;
        proof {
            assert(self@ =~= (MachineView {
                display: draw_display(s0, px as int, py as int, n as int),
                regs: s0.regs.update(
                    15,
                    if draw_collides(s0, px as int, py as int, n as int) {
                        1u8
                    } else {
                        0u8
                    },
                ),
                pc: (s0.pc + 2) as u16,
                ..s0
            }));
        }
        Ok(())
    }

    /// Decodes and applies one instruction word to a running machine,
    /// exactly as the transition function `step_op` says, errors included;
    /// on an error nothing moves.
    pub fn execute_instruction(&mut self, op: u16) -> (r: Result<(), Chip8Error>)
        requires
            old(self).wf(),
            old(self)@.pc as int + 1 < 4096,
            old(self)@.mode is Running,
        ensures
            final(self).wf(),
            match step_op(old(self)@, op) {
                Ok(v) => r is Ok && final(self)@ == v,
                Err(e) => r == Err::<(), Chip8Error>(e) && final(self)@ == old(self)@,
            },
    {
        let hi: usize = (op as usize) / 4096;
        let x: usize = ((op as usize) / 256) % 16;
        let y: usize = ((op as usize) / 16) % 16;
        let n: usize = (op as usize) % 16;
        let kk: u8 = ((op as usize) % 256) as u8;
        let nnn: u16 = op % 4096;
        match hi {
            0 => {
                if op == 0x00E0 {
                    self.graphics_buffer = filled_u8(2048, 0);
                    self.program_counter = self.program_counter + 2;
                    proof {
                        assert(self@.display =~= Seq::new(2048, |i: int| 0u8));
                        assert(self@ =~= (MachineView {
                            display: Seq::new(2048, |i: int| 0u8),
                            pc: (old(self)@.pc + 2) as u16,
                            ..old(self)@
                        }));
                    }
                    Ok(())
                } else if op == 0x00EE {
                    match self.stack.pop() {
                        Some(addr) => {
                            self.program_counter = addr;
                            Ok(())
                        }
                        None => Err(Chip8Error::StackUnderflow),
                    }
                } else {
                    Err(Chip8Error::UnsupportedOpcode(op))
                }
            }
            1 => {
                self.program_counter = nnn;
                Ok(())
            }
            2 => {
                if self.stack.len() >= 16 {
                    Err(Chip8Error::StackOverflow)
                } else {
                    self.stack.push(self.program_counter + 2);
                    self.program_counter = nnn;
                    Ok(())
                }
            }
            3 => {
                let cond = self.registers[x] == kk;
                self.program_counter = self.program_counter + (if cond { 4 } else { 2 });
                Ok(())
            }
            4 => {
                let cond = self.registers[x] != kk;
                self.program_counter = self.program_counter + (if cond { 4 } else { 2 });
                Ok(())
            }
            5 => {
                if n == 0 {
                    let cond = self.registers[x] == self.registers[y];
                    self.program_counter = self.program_counter + (if cond { 4 } else { 2 });
                    Ok(())
                } else {
                    Err(Chip8Error::UnsupportedOpcode(op))
                }
            }
            6 => {
                self.registers.set(x, kk);
                self.program_counter = self.program_counter + 2;
                Ok(())
            }
            7 => {
                let sum: u16 = self.registers[x] as u16 + kk as u16;
                self.registers.set(x, (sum % 256) as u8);
                self.program_counter = self.program_counter + 2;
                Ok(())
            }
            8 => self.exec_alu(op),
            9 => {
                if n == 0 {
                    let cond = self.registers[x] != self.registers[y];
                    self.program_counter = self.program_counter + (if cond { 4 } else { 2 });
                    Ok(())
                } else {
                    Err(Chip8Error::UnsupportedOpcode(op))
                }
            }
            10 => {
                self.index_register = nnn;
                self.program_counter = self.program_counter + 2;
                Ok(())
            }
            11 => {
                self.program_counter = self.registers[0] as u16 + nnn;
                Ok(())
            }
            12 => {
                let t: u32 = (self.rand_state as u32) * 25173 + 13849;
                let nr: u16 = (t % 65536) as u16;
                self.rand_state = nr;
                let b: u8 = (nr / 256) as u8;
                self.registers.set(x, b & kk);
                self.program_counter = self.program_counter + 2;
                Ok(())
            }
            13 => self.exec_draw(op),
            14 => {
                if kk == 0x9E {
                    let cond = self.keyboard.is_pressed(self.registers[x]);
                    self.program_counter = self.program_counter + (if cond { 4 } else { 2 });
                    Ok(())
                } else if kk == 0xA1 {
                    let cond = !self.keyboard.is_pressed(self.registers[x]);
                    self.program_counter = self.program_counter + (if cond { 4 } else { 2 });
                    Ok(())
                } else {
                    Err(Chip8Error::UnsupportedOpcode(op))
                }
            }
            _ => self.exec_fx(op),
        }
    }

    /// One machine cycle, exactly as the transition function `step` says.
    /// While the machine awaits a key the cycle is a no-op until some key is
    /// pressed; otherwise the instruction at the program counter is fetched
    /// and applied whole. A fault is returned with nothing moved, so the
    /// host can decide its recovery policy.
    pub fn run_cycle(&mut self) -> (r: Result<(), Chip8Error>)
        requires
            old(self).wf(),
        ensures
            final(self).wf(),
            match step(old(self)@) {
                Ok(v) => r is Ok && final(self)@ == v,
                Err(e) => r == Err::<(), Chip8Error>(e) && final(self)@ == old(self)@,
            },
    {
        match self.state {
            RunState::AwaitingKey(xr) => {
                match self.keyboard.first_pressed() {
                    Some(k) => {
                        self.registers.set(xr as usize, k);
                        self.program_counter = self.program_counter + 2;
                        self.state = RunState::Running;
                        Ok(())
                    }
                    None => Ok(()),
                }
            }
            RunState::Running => {
                if (self.program_counter as usize) + 1 >= 4096 {
                    return Err(Chip8Error::MemoryAddressOutOfRange);
                }
                let pc: usize = self.program_counter as usize;
                let op: u16 = (self.memory[pc] as u16) * 256 + (self.memory[pc + 1] as u16);
                self.execute_instruction(op)
            }
        }
    }

    /// The byte at `addr`, for hosts and tests that inspect memory.
    pub fn read_memory(&self, addr: usize) -> (r: u8)
        requires
            self.wf(),
            addr < 4096,
        ensures
            r == self@.mem[addr as int],
    {
        self.memory[addr]
    }
}

} // verus!
