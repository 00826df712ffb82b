use crate::decode::{addr_field, hi_nibble, lo_nibble, word_of};
use crate::frame::{blank_frame, draw_collision, draw_video};
use vstd::prelude::*;

verus! {

/// A fatal condition. The machine has no recovery policy: the driving loop
/// is expected to stop and report the diagnostic carried here.
#[derive(Clone, Copy, PartialEq, Eq, Structural, Debug)]
pub enum Chip8Error {
    /// The program handed to the constructor does not fit below the end of
    /// the 4096-byte memory when loaded at offset 0x200.
    ProgramTooLarge,
    /// A fetch was attempted while `pc` does not point at a full two-byte
    /// instruction inside memory.
    PcOutOfBounds { pc: u16 },
    /// The fetched word, carried here, names no instruction of the machine.
    InvalidOpcode { word: u16 },
    /// A return was executed while the call stack was empty; `pc` is the
    /// address the instruction was fetched from.
    StackUnderflow { pc: u16 },
    /// A memory-relative instruction reaches past the end of memory from
    /// the index register value carried here.
    MemoryOutOfBounds { index: u16 },
}

/// What a successful execution step reports to the driving loop.
#[derive(Clone, Copy, PartialEq, Eq, Structural, Debug)]
pub enum StepOutcome {
    /// The instruction ran to completion.
    Ran,
    /// The instruction was block-for-key: the machine is suspended until the
    /// host delivers the next key press to register `x` via `provide_key`.
    NeedKey { x: u8 },
}

/// The mathematical state of the machine: memory, program counter, register
/// file, call stack, index register, frame buffer (row-major), the two timer
/// counters, the run flag, and the configuration choice of whether the
/// add-to-index instruction reports overflow past 0x0FFF in register 0xF.
#[verifier::ext_equal]
pub struct MachineView {
    pub mem: Seq<u8>,
    pub pc: u16,
    pub regs: Seq<u8>,
    pub stack: Seq<u16>,
    pub index: u16,
    pub video: Seq<bool>,
    pub delay: u8,
    pub sound: u8,
    pub running: bool,
    pub vf_on_index_add: bool,
}

impl MachineView {
    /// The fixed sizes every reachable machine state has.
    pub open spec fn wf(self) -> bool {
        &&& self.mem.len() == 4096
        &&& self.regs.len() == 16
        &&& self.video.len() == 2048
    }

    /// The same state with another register file.
    pub open spec fn with_regs(self, regs: Seq<u8>) -> MachineView {
        MachineView { regs, ..self }
    }

    /// The same state with another program counter.
    pub open spec fn with_pc(self, pc: u16) -> MachineView {
        MachineView { pc, ..self }
    }
}

/// 8-bit wrapping sum, as the add instructions compute it.
pub open spec fn wrap_add8(a: u8, b: u8) -> u8 {
    ((a + b) % 256) as u8
}

/// 8-bit wrapping difference `a - b`, as the subtract instructions compute it.
pub open spec fn wrap_sub8(a: u8, b: u8) -> u8 {
    (if a >= b {
        a - b
    } else {
        a + 256 - b
    }) as u8
}

/// The built-in font table: sixteen glyphs, 0 through F, five bytes each,
/// written at memory offset 0x50 at construction.
pub open spec fn font_sprites() -> Seq<u8> {
    seq![
        0xF0u8, 0x90, 0x90, 0x90, 0xF0, // 0
        0x20, 0x60, 0x20, 0x20, 0x70, // 1
        0xF0, 0x10, 0xF0, 0x80, 0xF0, // 2
        0xF0, 0x10, 0xF0, 0x10, 0xF0, // 3
        0x90, 0x90, 0xF0, 0x10, 0x10, // 4
        0xF0, 0x80, 0xF0, 0x10, 0xF0, // 5
        0xF0, 0x80, 0xF0, 0x90, 0xF0, // 6
        0xF0, 0x10, 0x20, 0x40, 0x40, // 7
        0xF0, 0x90, 0xF0, 0x90, 0xF0, // 8
        0xF0, 0x90, 0xF0, 0x10, 0xF0, // 9
        0xF0, 0x90, 0xF0, 0x90, 0x90, // A
        0xE0, 0x90, 0xE0, 0x90, 0xE0, // B
        0xF0, 0x80, 0x80, 0x80, 0xF0, // C
        0xE0, 0x90, 0x90, 0x90, 0xE0, // D
        0xF0, 0x80, 0xF0, 0x80, 0xF0, // E
        0xF0, 0x80, 0xF0, 0x80, 0x80, // F
    ]
}

/// Memory as construction leaves it: zeroed, with the font table at 0x50
/// and the program at 0x200.
pub open spec fn initial_memory(program: Seq<u8>) -> Seq<u8> {
    Seq::new(4096, |i: int| {
        if 0x50 <= i < 0xA0 {
            font_sprites()[i - 0x50]
        } else if 0x200 <= i < 0x200 + program.len() {
            program[i - 0x200]
        } else {
            0u8
        }
    })
}

/// The state a machine starts in, given a program that fits in memory.
pub open spec fn initial_state(program: Seq<u8>) -> MachineView {
    MachineView {
        mem: initial_memory(program),
        pc: 0x200,
        regs: Seq::new(16, |i: int| 0u8),
        stack: Seq::empty(),
        index: 0,
        video: blank_frame(),
        delay: 0,
        sound: 0,
        running: false,
        vf_on_index_add: false,
    }
}

/// Clear: every pixel off.
pub open spec fn cls_spec(s: MachineView) -> MachineView {
    MachineView { video: blank_frame(), ..s }
}

/// Return: pop the saved program counter.
pub open spec fn ret_spec(s: MachineView) -> MachineView
    recommends
        s.stack.len() > 0,
{
    MachineView { pc: s.stack.last(), stack: s.stack.drop_last(), ..s }
}

/// Call: save the program counter (already advanced past the call
/// instruction) and jump.
pub open spec fn call_spec(s: MachineView, nnn: u16) -> MachineView {
    MachineView { stack: s.stack.push(s.pc), pc: nnn, ..s }
}

/// Conditional skip: step over the next instruction when `cond` holds.
pub open spec fn skip_if(s: MachineView, cond: bool) -> MachineView {
    if cond {
        s.with_pc((s.pc + 2) as u16)
    } else {
        s
    }
}

/// Add-immediate: wrapping, with no flag change.
pub open spec fn add_imm_spec(s: MachineView, x: int, nn: u8) -> MachineView {
    s.with_regs(s.regs.update(x, wrap_add8(s.regs[x], nn)))
}

/// Add: register 0xF takes the carry, then `x` takes the wrapped sum.
pub open spec fn add_spec(s: MachineView, x: int, y: int) -> MachineView {
    let carry: u8 = if s.regs[x] + s.regs[y] > 255 {
        1
    } else {
        0
    };
    s.with_regs(s.regs.update(15, carry).update(x, wrap_add8(s.regs[x], s.regs[y])))
}

/// Subtract `y` from `x`: register 0xF takes 1 exactly when no borrow was
/// needed, then `x` takes the wrapped difference.
pub open spec fn sub_spec(s: MachineView, x: int, y: int) -> MachineView {
    let no_borrow: u8 = if s.regs[x] >= s.regs[y] {
        1
    } else {
        0
    };
    s.with_regs(s.regs.update(15, no_borrow).update(x, wrap_sub8(s.regs[x], s.regs[y])))
}

/// Reverse subtract, `y - x`, written to `y`.
pub open spec fn sub_rev_spec(s: MachineView, x: int, y: int) -> MachineView {
    let no_borrow: u8 = if s.regs[y] >= s.regs[x] {
        1
    } else {
        0
    };
    s.with_regs(s.regs.update(15, no_borrow).update(y, wrap_sub8(s.regs[y], s.regs[x])))
}

/// Shift right: register 0xF takes the bit shifted out.
pub open spec fn shr_spec(s: MachineView, x: int) -> MachineView {
    s.with_regs(s.regs.update(15, s.regs[x] & 1).update(x, s.regs[x] >> 1))
}

/// Shift left: register 0xF takes the bit shifted out; the result is the
/// low eight bits of the doubled value.
pub open spec fn shl_spec(s: MachineView, x: int) -> MachineView {
    s.with_regs(s.regs.update(15, (s.regs[x] >> 7) & 1).update(x, s.regs[x] << 1))
}

/// Draw: XOR the `n`-byte sprite at the index register onto the frame,
/// anchored at the drawn registers taken modulo the grid size; register 0xF
/// takes the collision flag.
pub open spec fn draw_op_spec(s: MachineView, x: int, y: int, n: int) -> MachineView {
    let x0 = (s.regs[x] % 64) as int;
    let y0 = (s.regs[y] % 32) as int;
    let sprite = s.mem.subrange(s.index as int, s.index as int + n);
    MachineView {
        video: draw_video(s.video, sprite, x0, y0),
        regs: s.regs.update(
            15,
            if draw_collision(s.video, sprite, x0, y0) {
                1u8
            } else {
                0u8
            },
        ),
        ..s
    }
}

/// Add-to-index: the index register wraps at 16 bits; when the machine is
/// configured for it, register 0xF reports whether the sum passed 0x0FFF.
pub open spec fn add_index_spec(s: MachineView, v: u8) -> MachineView {
    let sum = s.index + v;
    MachineView {
        index: (sum % 0x10000) as u16,
        regs: if s.vf_on_index_add {
            s.regs.update(
                15,
                if sum > 0x0FFF {
                    1u8
                } else {
                    0u8
                },
            )
        } else {
            s.regs
        },
        ..s
    }
}

/// Binary-coded decimal: the hundreds, tens and units digits of the byte
/// `v`, stored at the index register and the two bytes after it.
pub open spec fn bcd_spec(s: MachineView, v: u8) -> MachineView
    recommends
        s.index + 3 <= 4096,
{
    MachineView {
        mem: s.mem.update(s.index as int, (v / 100) as u8).update(
            s.index as int + 1,
            ((v / 10) % 10) as u8,
        ).update(s.index as int + 2, (v % 10) as u8),
        ..s
    }
}

/// Store registers 0 through `x` at the index register onward.
pub open spec fn store_spec(s: MachineView, x: int) -> MachineView
    recommends
        s.index + x + 1 <= 4096,
{
    MachineView {
        mem: Seq::new(4096, |k: int| {
            if s.index <= k <= s.index + x {
                s.regs[k - s.index]
            } else {
                s.mem[k]
            }
        }),
        ..s
    }
}

/// Load registers 0 through `x` from the index register onward.
pub open spec fn load_spec(s: MachineView, x: int) -> MachineView
    recommends
        s.index + x + 1 <= 4096,
{
    s.with_regs(
        Seq::new(16, |i: int| {
            if i <= x {
                s.mem[s.index + i]
            } else {
                s.regs[i]
            }
        }),
    )
}

/// What the random instruction did: some byte, masked by the immediate,
/// went to register `x` and nothing else changed. It does not say which
/// byte: the value comes from the host's generator.
pub open spec fn rand_rel(s: MachineView, x: int, nn: u8, post: MachineView) -> bool {
    exists|b: u8| post == s.with_regs(s.regs.update(x, b & nn))
}

/// One 60 Hz tick of a timer counter: count down toward zero and stop
/// there; a tick at zero is a no-op.
pub open spec fn dec_to_zero(v: u8) -> u8 {
    if v > 0 {
        (v - 1) as u8
    } else {
        0
    }
}

/// One tick of the timer unit: both counters count down toward zero.
pub open spec fn tick_spec(s: MachineView) -> MachineView {
    MachineView { delay: dec_to_zero(s.delay), sound: dec_to_zero(s.sound), ..s }
}

/// Whether `pc` points at a full two-byte instruction.
pub open spec fn fetch_ok(s: MachineView) -> bool {
    s.pc + 1 < 4096
}

/// The full fetch-decode-execute relation: `step_rel(pre, post, r)` holds
/// exactly when one execution step from `pre` may leave the machine in
/// `post` and report `r`. It is a relation rather than a function for one
/// reason only: the random instruction may store any byte masked by its
/// immediate. Every error leaves the machine unchanged.
pub open spec fn step_rel(
    pre: MachineView,
    post: MachineView,
    r: Result<StepOutcome, Chip8Error>,
) -> bool {
    let ran = Result::<StepOutcome, Chip8Error>::Ok(StepOutcome::Ran);
    if !fetch_ok(pre) {
        post == pre && r == Result::<StepOutcome, Chip8Error>::Err(
            Chip8Error::PcOutOfBounds { pc: pre.pc },
        )
    } else {
        let hi = pre.mem[pre.pc as int];
        let lo = pre.mem[pre.pc as int + 1];
        let s = pre.with_pc((pre.pc + 2) as u16);
        let op = hi_nibble(hi);
        let x = lo_nibble(hi) as int;
        let y = hi_nibble(lo) as int;
        let n = lo_nibble(lo);
        let nn = lo;
        let nnn = addr_field(hi, lo);
        let w = word_of(hi, lo);
        if w == 0x00E0 {
            post == cls_spec(s) && r == ran
        } else if w == 0x00EE {
            if pre.stack.len() == 0 {
                post == pre && r == Result::<StepOutcome, Chip8Error>::Err(
                    Chip8Error::StackUnderflow { pc: pre.pc },
                )
            } else {
                post == ret_spec(s) && r == ran
            }
        } else if op == 0x1 {
            post == s.with_pc(nnn) && r == ran
        } else if op == 0x2 {
            post == call_spec(s, nnn) && r == ran
        } else if op == 0x3 {
            post == skip_if(s, s.regs[x] == nn) && r == ran
        } else if op == 0x4 {
            post == skip_if(s, s.regs[x] != nn) && r == ran
        } else if op == 0x5 && n == 0 {
            post == skip_if(s, s.regs[x] == s.regs[y]) && r == ran
        } else if op == 0x6 {
            post == s.with_regs(s.regs.update(x, nn)) && r == ran
        } else if op == 0x7 {
            post == add_imm_spec(s, x, nn) && r == ran
        } else if op == 0x8 && n == 0x0 {
            post == s.with_regs(s.regs.update(x, s.regs[y])) && r == ran
        } else if op == 0x8 && n == 0x1 {
            post == s.with_regs(s.regs.update(x, s.regs[x] | s.regs[y])) && r == ran
        } else if op == 0x8 && n == 0x2 {
            post == s.with_regs(s.regs.update(x, s.regs[x] & s.regs[y])) && r == ran
        } else if op == 0x8 && n == 0x3 {
            post == s.with_regs(s.regs.update(x, s.regs[x] ^ s.regs[y])) && r == ran
        } else if op == 0x8 && n == 0x4 {
            post == add_spec(s, x, y) && r == ran
        } else if op == 0x8 && n == 0x5 {
            post == sub_spec(s, x, y) && r == ran
        } else if op == 0x8 && n == 0x6 {
            post == shr_spec(s, x) && r == ran
        } else if op == 0x8 && n == 0x7 {
            post == sub_rev_spec(s, x, y) && r == ran
        } else if op == 0x8 && n == 0xE {
            post == shl_spec(s, x) && r == ran
        } else if op == 0x9 && n == 0 {
            post == skip_if(s, s.regs[x] != s.regs[y]) && r == ran
        } else if op == 0xA {
            post == (MachineView { index: nnn, ..s }) && r == ran
        } else if op == 0xB {
            post == s.with_pc((nnn + s.regs[0]) as u16) && r == ran
        } else if op == 0xC {
            rand_rel(s, x, nn, post) && r == ran
        } else if op == 0xD {
            if s.index + n > 4096 {
                post == pre && r == Result::<StepOutcome, Chip8Error>::Err(
                    Chip8Error::MemoryOutOfBounds { index: s.index },
                )
            } else {
                post == draw_op_spec(s, x, y, n as int) && r == ran
            }
        } else if op == 0xF && nn == 0x07 {
            post == s.with_regs(s.regs.update(x, s.delay)) && r == ran
        } else if op == 0xF && nn == 0x0A {
            post == s && r == Result::<StepOutcome, Chip8Error>::Ok(
                StepOutcome::NeedKey { x: lo_nibble(hi) },
            )
        } else if op == 0xF && nn == 0x15 {
            post == (MachineView { delay: s.regs[x], ..s }) && r == ran
        } else if op == 0xF && nn == 0x18 {
            post == (MachineView { sound: s.regs[x], ..s }) && r == ran
        } else if op == 0xF && nn == 0x1E {
            post == add_index_spec(s, s.regs[x]) && r == ran
        } else if op == 0xF && nn == 0x33 {
            if s.index + 3 > 4096 {
                post == pre && r == Result::<StepOutcome, Chip8Error>::Err(
                    Chip8Error::MemoryOutOfBounds { index: s.index },
                )
            } else {
                post == bcd_spec(s, s.regs[x]) && r == ran
            }
        } else if op == 0xF && nn == 0x55 {
            if s.index + x + 1 > 4096 {
                post == pre && r == Result::<StepOutcome, Chip8Error>::Err(
                    Chip8Error::MemoryOutOfBounds { index: s.index },
                )
            } else {
                post == store_spec(s, x) && r == ran
            }
        } else if op == 0xF && nn == 0x65 {
            if s.index + x + 1 > 4096 {
                post == pre && r == Result::<StepOutcome, Chip8Error>::Err(
                    Chip8Error::MemoryOutOfBounds { index: s.index },
                )
            } else {
                post == load_spec(s, x) && r == ran
            }
        } else {
            post == pre && r == Result::<StepOutcome, Chip8Error>::Err(
                Chip8Error::InvalidOpcode { word: w },
            )
        }
    }
}

} // verus!
