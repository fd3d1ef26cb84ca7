//! The mathematical model of the CHIP-8 machine.
//!
//! [`MachineView`] is the machine state as mathematics; [`step`] is the
//! transition one `run_cycle` call makes, covering the full instruction
//! table. The executable core in [`crate::chip`] is proved to follow `step`
//! exactly, so every law below is a statement about the running machine.

use vstd::prelude::*;

use crate::font::font_at;
use crate::keyboard::any_key;
use crate::keyboard::first_key;

verus! {

/// Bytes in the flat address space.
pub const MEM_SIZE: usize = 4096;

/// First address a loaded program occupies.
pub const PROGRAM_START: usize = 512;

/// Largest program that fits between `PROGRAM_START` and the end of memory.
pub const MAX_PROGRAM_LEN: usize = 3584;

/// Pixels of the monochrome display: 64 columns by 32 rows, row-major.
pub const DISPLAY_LEN: usize = 2048;

/// Columns of the display.
pub const DISPLAY_WIDTH: usize = 64;

/// Rows of the display.
pub const DISPLAY_HEIGHT: usize = 32;

/// Greatest number of return addresses the call stack holds.
pub const STACK_DEPTH: usize = 16;

/// Faults the core reports instead of panicking.
#[derive(Clone, Copy, Debug, PartialEq, Eq, Structural)]
pub enum Chip8Error {
    /// A program longer than `MAX_PROGRAM_LEN` bytes was handed to `load_program`.
    RomTooLarge,
    /// The host could not read the program bytes at all; raised by the host
    /// at the process boundary, never by the core itself.
    RomUnreadable,
    /// A call was made while the stack already held `STACK_DEPTH` addresses.
    StackOverflow,
    /// A return was executed while the call stack was empty.
    StackUnderflow,
    /// The fetched word matches no instruction; carries the word.
    UnsupportedOpcode(u16),
    /// An instruction would read or write outside the address space.
    MemoryAddressOutOfRange,
}

/// Whether the machine executes instructions or is parked on a blocking key
/// wait; the waiting variant names the register the pressed symbol goes to.
#[derive(Clone, Copy, Debug, PartialEq, Eq, Structural)]
pub enum RunState {
    Running,
    AwaitingKey(u8),
}

/// The whole machine state as mathematics.
#[verifier::ext_equal]
pub ghost struct MachineView {
    /// 4096 bytes of memory, font table first, program from address 512 on.
    pub mem: Seq<u8>,
    /// The sixteen 8-bit registers V0..VF.
    pub regs: Seq<u8>,
    /// The 16-bit index register I.
    pub index: u16,
    /// The 16-bit program counter.
    pub pc: u16,
    /// 2048 pixels, each 0 or 1, row-major with the origin top-left.
    pub display: Seq<u8>,
    /// The delay timer.
    pub delay: u8,
    /// The sound timer.
    pub sound: u8,
    /// Return addresses of the calls in flight, most recent last.
    pub stack: Seq<u16>,
    /// One flag per keypad symbol.
    pub keys: Seq<bool>,
    /// Running, or waiting on the blocking key instruction.
    pub mode: RunState,
    /// State of the pseudo-random generator behind the random instruction.
    pub rand: u16,
}

impl MachineView {
    /// Shapes and ranges every reachable machine state keeps.
    pub open spec fn wf(self) -> bool {
        &&& self.mem.len() == 4096
        &&& self.regs.len() == 16
        &&& self.display.len() == 2048
        &&& self.stack.len() <= 16
        &&& self.keys.len() == 16
        &&& forall|i: int| 0 <= i < 2048 ==> self.display[i] <= 1
        &&& match self.mode {
            RunState::Running => true,
            RunState::AwaitingKey(x) => x < 16 && self.pc as int + 1 < 4096,
        }
    }
}

/// High nibble of an instruction word.
pub open spec fn op_hi(op: u16) -> int {
    (op as int) / 0x1000
}

/// The X register index of an instruction word.
pub open spec fn op_x(op: u16) -> int {
    ((op as int) / 0x100) % 16
}

/// The Y register index of an instruction word.
pub open spec fn op_y(op: u16) -> int {
    ((op as int) / 16) % 16
}

/// Low nibble of an instruction word.
pub open spec fn op_n(op: u16) -> int {
    (op as int) % 16
}

/// Low byte of an instruction word.
pub open spec fn op_kk(op: u16) -> u8 {
    ((op as int) % 256) as u8
}

/// Low twelve bits of an instruction word: an address.
pub open spec fn op_nnn(op: u16) -> u16 {
    ((op as int) % 0x1000) as u16
}

/// The big-endian instruction word at the program counter.
pub open spec fn fetched_op(s: MachineView) -> u16 {
    (s.mem[s.pc as int] * 256 + s.mem[s.pc as int + 1]) as u16
}

/// Successor of the pseudo-random generator state: a 16-bit linear
/// congruential step.
pub open spec fn next_rand(s: u16) -> u16 {
    (((s as int) * 25173 + 13849) % 65536) as u16
}

/// The byte a generator state yields: its high half.
pub open spec fn rand_byte(s: u16) -> u8 {
    ((s as int) / 256) as u8
}

/// The state with the program counter advanced past the current
/// instruction, or past it and the next one when `cond` holds.
pub open spec fn skip_if(s: MachineView, cond: bool) -> MachineView {
    MachineView { pc: (s.pc + if cond { 4int } else { 2int }) as u16, ..s }
}

/// The state with register `x` set to `v` and the program counter advanced.
pub open spec fn reg_set(s: MachineView, x: int, v: u8) -> MachineView {
    MachineView { regs: s.regs.update(x, v), pc: (s.pc + 2) as u16, ..s }
}

/// The state with register `x` set to `v`, the flag register VF set to
/// `flag`, and the program counter advanced; when `x` is 15 the flag wins.
pub open spec fn reg_set_flag(s: MachineView, x: int, v: u8, flag: u8) -> MachineView {
    MachineView { regs: s.regs.update(x, v).update(15, flag), pc: (s.pc + 2) as u16, ..s }
}

/// True if the key named by register `x` is pressed; register values beyond
/// the sixteen symbols count as released.
pub open spec fn key_down(s: MachineView, x: int) -> bool {
    s.regs[x] < 16 && s.keys[s.regs[x] as int]
}

/// Bit `c` of a sprite row, counted from the most significant bit.
pub open spec fn sprite_bit(row: u8, c: int) -> u8 {
    if c == 0 {
        ((row as int) / 128 % 2) as u8
    } else if c == 1 {
        ((row as int) / 64 % 2) as u8
    } else if c == 2 {
        ((row as int) / 32 % 2) as u8
    } else if c == 3 {
        ((row as int) / 16 % 2) as u8
    } else if c == 4 {
        ((row as int) / 8 % 2) as u8
    } else if c == 5 {
        ((row as int) / 4 % 2) as u8
    } else if c == 6 {
        ((row as int) / 2 % 2) as u8
    } else if c == 7 {
        ((row as int) % 2) as u8
    } else {
        0
    }
}

/// The sprite bit a draw at `(x, y)` of height `n` sends to pixel `idx`:
/// 1 exactly when a set sprite bit lands there. Columns wrap around the
/// right edge; rows past the bottom are clipped.
pub open spec fn sprite_contrib(
    mem: Seq<u8>,
    i: u16,
    x: int,
    y: int,
    n: int,
    idx: int,
) -> u8 {
    let px = idx % 64;
    let py = idx / 64;
    let c = (px - x + 64) % 64;
    if y <= py && py < y + n && c < 8 {
        sprite_bit(mem[i as int + (py - y)], c)
    } else {
        0
    }
}

/// A pixel after XOR-compositing one sprite bit onto it.
pub open spec fn pixel_flip(p: u8, b: u8) -> u8 {
    if b == 1 {
        if p == 1 {
            0u8
        } else {
            1u8
        }
    } else {
        p
    }
}

/// The display after a draw at `(x, y)` of height `n`.
pub open spec fn draw_display(s: MachineView, x: int, y: int, n: int) -> Seq<u8> {
    Seq::new(2048, |idx: int| pixel_flip(s.display[idx], sprite_contrib(s.mem, s.index, x, y, n, idx)))
}

/// True if the draw turns pixel `idx` from set to unset.
pub open spec fn collision_at(s: MachineView, x: int, y: int, n: int, idx: int) -> bool {
    s.display[idx] == 1 && sprite_contrib(s.mem, s.index, x, y, n, idx) == 1
}

/// True if the draw turns some pixel below `k` from set to unset.
pub open spec fn collision_before(s: MachineView, x: int, y: int, n: int, k: int) -> bool {
    exists|idx: int| 0 <= idx < k && #[trigger] collision_at(s, x, y, n, idx)
}

/// True if the draw turns any pixel from set to unset.
pub open spec fn draw_collides(s: MachineView, x: int, y: int, n: int) -> bool {
    collision_before(s, x, y, n, 2048)
}

/// The draw instruction: XOR-blit the sprite rows at `I` onto the display
/// at the position named by registers X and Y, record a collision in VF,
/// and advance; fails when the sprite rows reach past the address space.
pub open spec fn step_draw(s: MachineView, op: u16) -> Result<MachineView, Chip8Error> {
    let n = op_n(op);
    if n > 0 && s.index as int + n > 4096 {
        Err(Chip8Error::MemoryAddressOutOfRange)
    } else {
        let x = s.regs[op_x(op)] % 64;
        let y = s.regs[op_y(op)] % 32;
        Ok(
            MachineView {
                display: draw_display(s, x as int, y as int, n),
                regs: s.regs.update(
                    15,
                    if draw_collides(s, x as int, y as int, n) {
                        1u8
                    } else {
                        0u8
                    },
                ),
                pc: (s.pc + 2) as u16,
                ..s
            },
        )
    }
}

/// The register-arithmetic group 8XYN.
pub open spec fn step_alu(s: MachineView, op: u16) -> Result<MachineView, Chip8Error> {
    let x = op_x(op);
    let y = op_y(op);
    let vx = s.regs[x];
    let vy = s.regs[y];
    let n = op_n(op);
    if n == 0 {
        Ok(reg_set(s, x, vy))
    } else if n == 1 {
        Ok(reg_set(s, x, vx | vy))
    } else if n == 2 {
        Ok(reg_set(s, x, vx & vy))
    } else if n == 3 {
        Ok(reg_set(s, x, vx ^ vy))
    } else if n == 4 {
        Ok(
            reg_set_flag(
                s,
                x,
                ((vx + vy) % 256) as u8,
                if vx + vy > 255 {
                    1u8
                } else {
                    0u8
                },
            ),
        )
    } else if n == 5 {
        Ok(
            reg_set_flag(
                s,
                x,
                ((vx - vy + 256) % 256) as u8,
                if vx >= vy {
                    1u8
                } else {
                    0u8
                },
            ),
        )
    } else if n == 6 {
        Ok(reg_set_flag(s, x, (vx / 2) as u8, (vx % 2) as u8))
    } else if n == 7 {
        Ok(
            reg_set_flag(
                s,
                x,
                ((vy - vx + 256) % 256) as u8,
                if vy >= vx {
                    1u8
                } else {
                    0u8
                },
            ),
        )
    } else if n == 14 {
        Ok(reg_set_flag(s, x, ((vx * 2) % 256) as u8, (vx / 128) as u8))
    } else {
        Err(Chip8Error::UnsupportedOpcode(op))
    }
}

/// Memory after storing registers V0..VX at addresses `I..I+X`.
pub open spec fn stored_regs(s: MachineView, x: int) -> Seq<u8> {
    Seq::new(
        4096,
        |a: int|
            if s.index as int <= a && a <= s.index as int + x {
                s.regs[a - s.index as int]
            } else {
                s.mem[a]
            },
    )
}

/// Registers after loading V0..VX from addresses `I..I+X`.
pub open spec fn loaded_regs(s: MachineView, x: int) -> Seq<u8> {
    Seq::new(
        16,
        |r: int|
            if r <= x {
                s.mem[s.index as int + r]
            } else {
                s.regs[r]
            },
    )
}

/// The miscellaneous group FXNN.
pub open spec fn step_fx(s: MachineView, op: u16) -> Result<MachineView, Chip8Error> {
    let x = op_x(op);
    let kk = op_kk(op);
    if kk == 0x07 {
        Ok(reg_set(s, x, s.delay))
    } else if kk == 0x0A {
        Ok(MachineView { mode: RunState::AwaitingKey(x as u8), ..s })
    } else if kk == 0x15 {
        Ok(MachineView { delay: s.regs[x], pc: (s.pc + 2) as u16, ..s })
    } else if kk == 0x18 {
        Ok(MachineView { sound: s.regs[x], pc: (s.pc + 2) as u16, ..s })
    } else if kk == 0x1E {
        Ok(
            MachineView {
                index: ((s.index + s.regs[x]) % 65536) as u16,
                pc: (s.pc + 2) as u16,
                ..s
            },
        )
    } else if kk == 0x29 {
        Ok(MachineView { index: ((s.regs[x] % 16) * 5) as u16, pc: (s.pc + 2) as u16, ..s })
    } else if kk == 0x33 {
        if s.index as int + 3 > 4096 {
            Err(Chip8Error::MemoryAddressOutOfRange)
        } else {
            let vx = s.regs[x];
            Ok(
                MachineView {
                    mem: s.mem.update(s.index as int, (vx / 100) as u8).update(
                        s.index as int + 1,
                        ((vx / 10) % 10) as u8,
                    ).update(s.index as int + 2, (vx % 10) as u8),
                    pc: (s.pc + 2) as u16,
                    ..s
                },
            )
        }
    } else if kk == 0x55 {
        if s.index as int + x + 1 > 4096 {
            Err(Chip8Error::MemoryAddressOutOfRange)
        } else {
            Ok(MachineView { mem: stored_regs(s, x), pc: (s.pc + 2) as u16, ..s })
        }
    } else if kk == 0x65 {
        if s.index as int + x + 1 > 4096 {
            Err(Chip8Error::MemoryAddressOutOfRange)
        } else {
            Ok(MachineView { regs: loaded_regs(s, x), pc: (s.pc + 2) as u16, ..s })
        }
    } else {
        Err(Chip8Error::UnsupportedOpcode(op))
    }
}

/// One instruction applied to a running machine: the full decode table.
/// Instructions that do not set the program counter themselves advance it
/// by 2; the skip forms advance it by 4 when their condition holds.
pub open spec fn step_op(s: MachineView, op: u16) -> Result<MachineView, Chip8Error> {
    let hi = op_hi(op);
    let x = op_x(op);
    let y = op_y(op);
    let n = op_n(op);
    let kk = op_kk(op);
    let nnn = op_nnn(op);
    if hi == 0 {
        if op == 0x00E0 {
            Ok(
                MachineView {
                    display: Seq::new(2048, |i: int| 0u8),
                    pc: (s.pc + 2) as u16,
                    ..s
                },
            )
        } else if op == 0x00EE {
            if s.stack.len() == 0 {
                Err(Chip8Error::StackUnderflow)
            } else {
                Ok(MachineView { pc: s.stack.last(), stack: s.stack.drop_last(), ..s })
            }
        } else {
            Err(Chip8Error::UnsupportedOpcode(op))
        }
    } else if hi == 1 {
        Ok(MachineView { pc: nnn, ..s })
    } else if hi == 2 {
        if s.stack.len() >= 16 {
            Err(Chip8Error::StackOverflow)
        } else {
            Ok(MachineView { stack: s.stack.push((s.pc + 2) as u16), pc: nnn, ..s })
        }
    } else if hi == 3 {
        Ok(skip_if(s, s.regs[x] == kk))
    } else if hi == 4 {
        Ok(skip_if(s, s.regs[x] != kk))
    } else if hi == 5 {
        if n == 0 {
            Ok(skip_if(s, s.regs[x] == s.regs[y]))
        } else {
            Err(Chip8Error::UnsupportedOpcode(op))
        }
    } else if hi == 6 {
        Ok(reg_set(s, x, kk))
    } else if hi == 7 {
        Ok(reg_set(s, x, ((s.regs[x] + kk) % 256) as u8))
    } else if hi == 8 {
        step_alu(s, op)
    } else if hi == 9 {
        if n == 0 {
            Ok(skip_if(s, s.regs[x] != s.regs[y]))
        } else {
            Err(Chip8Error::UnsupportedOpcode(op))
        }
    } else if hi == 10 {
        Ok(MachineView { index: nnn, pc: (s.pc + 2) as u16, ..s })
    } else if hi == 11 {
        Ok(MachineView { pc: (s.regs[0] + nnn) as u16, ..s })
    } else if hi == 12 {
        let r = next_rand(s.rand);
        Ok(
            MachineView {
                rand: r,
                regs: s.regs.update(x, rand_byte(r) & kk),
                pc: (s.pc + 2) as u16,
                ..s
            },
        )
    } else if hi == 13 {
        step_draw(s, op)
    } else if hi == 14 {
        if kk == 0x9E {
            Ok(skip_if(s, key_down(s, x)))
        } else if kk == 0xA1 {
            Ok(skip_if(s, !key_down(s, x)))
        } else {
            Err(Chip8Error::UnsupportedOpcode(op))
        }
    } else {
        step_fx(s, op)
    }
}

/// The transition one `run_cycle` call makes. While the machine awaits a
/// key, a cycle is a no-op until some key is pressed, when it finishes the
/// blocking instruction; otherwise it fetches, decodes and executes one
/// instruction, failing when the fetch itself would leave the address space.
pub open spec fn step(s: MachineView) -> Result<MachineView, Chip8Error> {
    match s.mode {
        RunState::AwaitingKey(x) => {
            if any_key(s.keys) {
                Ok(
                    MachineView {
                        regs: s.regs.update(x as int, first_key(s.keys) as u8),
                        pc: (s.pc + 2) as u16,
                        mode: RunState::Running,
                        ..s
                    },
                )
            } else {
                Ok(s)
            }
        }
        RunState::Running => {
            if s.pc as int + 1 >= 4096 {
                Err(Chip8Error::MemoryAddressOutOfRange)
            } else {
                step_op(s, fetched_op(s))
            }
        }
    }
}

/// A timer tick: both timers go down by one, floored at zero.
pub open spec fn ticked(s: MachineView) -> MachineView {
    MachineView {
        delay: if s.delay > 0 {
            (s.delay - 1) as u8
        } else {
            0u8
        },
        sound: if s.sound > 0 {
            (s.sound - 1) as u8
        } else {
            0u8
        },
        ..s
    }
}

/// The state a machine starts in: font table at the bottom of zeroed
/// memory, program counter at `PROGRAM_START`, everything else cleared.
pub open spec fn initial_view() -> MachineView {
    MachineView {
        mem: Seq::new(
            4096,
            |a: int|
                if a < 80 {
                    font_at(a)
                } else {
                    0u8
                },
        ),
        regs: Seq::new(16, |i: int| 0u8),
        index: 0,
        pc: 512,
        display: Seq::new(2048, |i: int| 0u8),
        delay: 0,
        sound: 0,
        stack: Seq::empty(),
        keys: Seq::new(16, |i: int| false),
        mode: RunState::Running,
        rand: 0xACE1,
    }
}

/// Memory after a program is copied in at `PROGRAM_START`; everything
/// outside the copied range, the font table included, is untouched.
pub open spec fn loaded_mem(mem: Seq<u8>, prog: Seq<u8>) -> Seq<u8> {
    Seq::new(
        4096,
        |a: int|
            if 512 <= a && a < 512 + prog.len() {
                prog[a - 512]
            } else {
                mem[a]
            },
    )
}

/// The three absolute-jump instruction forms: 1NNN, 2NNN and BNNN.
pub open spec fn is_jump_op(op: u16) -> bool {
    op_hi(op) == 1 || op_hi(op) == 2 || op_hi(op) == 11
}

/// The four conditional-skip forms: 3XKK, 4XKK, 5XY0, 9XY0, and the two
/// key-test skips EX9E and EXA1.
pub open spec fn is_skip_op(op: u16) -> bool {
    ||| op_hi(op) == 3
    ||| op_hi(op) == 4
    ||| (op_hi(op) == 5 && op_n(op) == 0)
    ||| (op_hi(op) == 9 && op_n(op) == 0)
    ||| (op_hi(op) == 14 && (op_kk(op) == 0x9E || op_kk(op) == 0xA1))
}

/// The subroutine return 00EE.
pub open spec fn is_return_op(op: u16) -> bool {
    op == 0x00EE
}

/// The blocking key wait FX0A.
pub open spec fn is_wait_key_op(op: u16) -> bool {
    op_hi(op) == 15 && op_kk(op) == 0x0A
}

/// The two timer-writing instructions FX15 and FX18.
pub open spec fn is_timer_write_op(op: u16) -> bool {
    op_hi(op) == 15 && (op_kk(op) == 0x15 || op_kk(op) == 0x18)
}

/// The condition under which a skip form skips.
pub open spec fn skip_cond(s: MachineView, op: u16) -> bool {
    if op_hi(op) == 3 {
        s.regs[op_x(op)] == op_kk(op)
    } else if op_hi(op) == 4 {
        s.regs[op_x(op)] != op_kk(op)
    } else if op_hi(op) == 5 {
        s.regs[op_x(op)] == s.regs[op_y(op)]
    } else if op_hi(op) == 9 {
        s.regs[op_x(op)] != s.regs[op_y(op)]
    } else if op_hi(op) == 14 && op_kk(op) == 0x9E {
        key_down(s, op_x(op))
    } else {
        !key_down(s, op_x(op))
    }
}

/// Every instruction that succeeds without setting the program counter
/// itself advances it by exactly 2; the skip forms advance it by 4 exactly
/// when their condition holds. The exceptions that set it themselves are
/// the three jumps, the return, and the key wait (which holds it still).
pub proof fn lemma_pc_advance(s: MachineView)
    requires
        s.wf(),
        s.mode is Running,
        step(s) is Ok,
    ensures
        ({
            let op = fetched_op(s);
            let v = step(s)->Ok_0;
            &&& (!is_jump_op(op) && !is_return_op(op) && !is_wait_key_op(op) && !is_skip_op(op))
                ==> v.pc == s.pc + 2
            &&& is_skip_op(op) ==> v.pc == s.pc + (if skip_cond(s, op) {
                4int
            } else {
                2int
            })
        }),
{
}

/// A call 2NNN followed by the return 00EE at its target lands the program
/// counter exactly on the address after the call, with the call stack
/// back at its pre-call contents and length.
pub proof fn lemma_call_return_round_trip(s: MachineView)
    requires
        s.wf(),
        s.mode is Running,
        s.pc as int + 1 < 4096,
        op_hi(fetched_op(s)) == 2,
        s.stack.len() < 16,
        op_nnn(fetched_op(s)) as int + 1 < 4096,
        s.mem[op_nnn(fetched_op(s)) as int] == 0x00,
        s.mem[op_nnn(fetched_op(s)) as int + 1] == 0xEE,
    ensures
        step(s) is Ok,
        step(step(s)->Ok_0) is Ok,
        step(step(s)->Ok_0)->Ok_0.pc == s.pc + 2,
        step(step(s)->Ok_0)->Ok_0.stack == s.stack,
        step(step(s)->Ok_0)->Ok_0.stack.len() == s.stack.len(),
{
    let v1 = step(s)->Ok_0;
    assert(fetched_op(v1) == 0x00EE);
    assert(v1.stack.len() > 0);
    assert(v1.stack.drop_last() =~= s.stack);
}

/// Drawing the same sprite twice at the same position restores every
/// pixel to its pre-draw value: XOR-compositing is its own inverse.
pub proof fn lemma_draw_twice_restores(s: MachineView, x: int, y: int, n: int)
    requires
        s.wf(),
        0 <= x < 64,
        0 <= y < 32,
        0 <= n < 16,
    ensures
        ({
            let s1 = MachineView { display: draw_display(s, x, y, n), ..s };
            draw_display(s1, x, y, n) == s.display
        }),
{
    let s1 = MachineView { display: draw_display(s, x, y, n), ..s };
    assert forall|idx: int| 0 <= idx < 2048 implies draw_display(s1, x, y, n)[idx]
        == s.display[idx] by {
        let b = sprite_contrib(s.mem, s.index, x, y, n, idx);
        assert(b <= 1);
        assert(s.display[idx] <= 1);
    }
    assert(draw_display(s1, x, y, n) =~= s.display);
}

/// Against an empty display, a draw whose sprite has at least one set bit
/// on screen reports no collision, and drawing it again at the same
/// position reports one: the second draw erases what the first set.
pub proof fn lemma_draw_collision_flags(s: MachineView, x: int, y: int, n: int)
    requires
        s.wf(),
        0 <= x < 64,
        0 <= y < 32,
        0 <= n < 16,
        forall|i: int| 0 <= i < 2048 ==> s.display[i] == 0,
        exists|i: int|
            0 <= i < 2048 && #[trigger] sprite_contrib(s.mem, s.index, x, y, n, i) == 1,
    ensures
        !draw_collides(s, x, y, n),
        ({
            let s1 = MachineView { display: draw_display(s, x, y, n), ..s };
            draw_collides(s1, x, y, n)
        }),
{
    if draw_collides(s, x, y, n) {
        let w = choose|w: int| 0 <= w < 2048 && #[trigger] collision_at(s, x, y, n, w);
        assert(s.display[w] == 0);
        assert(false);
    }
    let w = choose|i: int|
        0 <= i < 2048 && #[trigger] sprite_contrib(s.mem, s.index, x, y, n, i) == 1;
    let s1 = MachineView { display: draw_display(s, x, y, n), ..s };
    assert(s1.display[w] == 1);
    assert(collision_at(s1, x, y, n, w));
}

/// A cycle run while the machine awaits a key and no key is pressed
/// changes nothing at all: registers, program counter, memory, display,
/// stack and timers all stay put.
pub proof fn lemma_awaiting_key_blocks(s: MachineView)
    requires
        s.wf(),
        !(s.mode is Running),
        forall|k: int| 0 <= k < 16 ==> !s.keys[k],
    ensures
        step(s) == Ok::<MachineView, Chip8Error>(s),
{
    if any_key(s.keys) {
        let w = choose|k: int| 0 <= k < 16 && s.keys[k];
        assert(false);
    }
}

/// A cycle run while the machine awaits a key and some key is pressed
/// writes the lowest pressed symbol into the waiting register, advances
/// the program counter past the wait instruction, resumes running, and
/// touches nothing else.
pub proof fn lemma_awaiting_key_completes(s: MachineView, x: u8)
    requires
        s.wf(),
        s.mode == RunState::AwaitingKey(x),
        any_key(s.keys),
    ensures
        step(s) is Ok,
        step(s)->Ok_0.regs == s.regs.update(x as int, first_key(s.keys) as u8),
        step(s)->Ok_0.pc == s.pc + 2,
        step(s)->Ok_0.mode is Running,
        step(s)->Ok_0.mem == s.mem,
        step(s)->Ok_0.display == s.display,
        step(s)->Ok_0.stack == s.stack,
        step(s)->Ok_0.delay == s.delay,
        step(s)->Ok_0.sound == s.sound,
{
}

/// Timers move only under `tick_timers`: a successful cycle leaves both
/// timers exactly where they were, as long as the instruction it executes
/// is not one of the two that write a timer on purpose (FX15, FX18).
pub proof fn lemma_cycle_preserves_timers(s: MachineView)
    requires
        s.wf(),
        step(s) is Ok,
        s.mode is Running ==> !is_timer_write_op(fetched_op(s)),
    ensures
        step(s)->Ok_0.delay == s.delay,
        step(s)->Ok_0.sound == s.sound,
{
}

} // verus!
