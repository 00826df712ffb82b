use crate::decode::decode;
use crate::display::Chip8Display;
use crate::frame::FrameBuffer;
use crate::state::{
    add_imm_spec, add_index_spec, add_spec, bcd_spec, call_spec, cls_spec, draw_op_spec,
    font_sprites, initial_memory, initial_state, load_spec, rand_rel, ret_spec, shl_spec,
    shr_spec, skip_if, step_rel, store_spec, sub_rev_spec, sub_spec, tick_spec, Chip8Error,
    MachineView, StepOutcome,
};
use vstd::prelude::*;

verus! {

/// Offset at which the program is loaded and execution starts.
pub const PROGRAM_MEMORY_OFFSET: usize = 0x200;

/// Offset of the built-in font table.
pub const FONT_MEMORY_OFFSET: usize = 0x50;

/// The machine: memory, register file, index register, program counter,
/// call stack, frame buffer, the two timer counters, and the frame sink the
/// engine pushes finished frames to. Its mathematical state is the
/// `MachineView` the view gives.
pub struct Chip8Emulator<D: Chip8Display> {
    memory: Vec<u8>,
    pc: u16,
    registers: Vec<u8>,
    stack: Vec<u16>,
    index: u16,
    video: FrameBuffer,
    delay: u8,
    sound: u8,
    running: bool,
    vf_on_index_add: bool,
    display_dev: D,
}

impl<D: Chip8Display> View for Chip8Emulator<D> {
    type V = MachineView;

    closed spec fn view(&self) -> MachineView {
        MachineView {
            mem: self.memory@,
            pc: self.pc,
            regs: self.registers@,
            stack: self.stack@,
            index: self.index,
            video: self.video@,
            delay: self.delay,
            sound: self.sound,
            running: self.running,
            vf_on_index_add: self.vf_on_index_add,
        }
    }
}

impl<D: Chip8Display> Chip8Emulator<D> {
    /// The machine always carries 4096 memory bytes, 16 registers and a
    /// 64x32 frame buffer.
    pub open spec fn wf(&self) -> bool {
        self@.wf()
    }

    /// Build a machine holding `program` at offset 0x200, the font table at
    /// offset 0x50, and everything else zeroed: registers, index, timers and
    /// frame buffer clear, the stack empty, the program counter at 0x200,
    /// the machine stopped, and the add-to-index overflow flag off. Fails
    /// exactly when the program does not fit in memory.
    pub fn new(program: &Vec<u8>, display_dev: D) -> (r: Result<Chip8Emulator<D>, Chip8Error>)
        ensures
            r is Ok <==> program@.len() <= 3584,
            r is Ok ==> (r->Ok_0).wf() && (r->Ok_0)@ == initial_state(program@),
            r is Err ==> r->Err_0 == Chip8Error::ProgramTooLarge,
    {
        if program.len() > 4096 - PROGRAM_MEMORY_OFFSET {
            return Err(Chip8Error::ProgramTooLarge);
        }
        let mut memory: Vec<u8> = Vec::new();
        let mut i: usize = 0;
        while i < 4096
            invariant
                i <= 4096,
                memory@.len() == i,
                forall|k: int| 0 <= k < i ==> memory@[k] == 0u8,
            decreases 4096 - i,
        {
            memory.push(0);
            i = i + 1;
        }
        let font: [u8; 80] = [
            0xF0, 0x90, 0x90, 0x90, 0xF0, // 0
            0x20, 0x60, 0x20, 0x20, 0x70, // 1
            0xF0, 0x10, 0xF0, 0x80, 0xF0, // 2
            0xF0, 0x10, 0xF0, 0x10, 0xF0, // 3
            0x90, 0x90, 0xF0, 0x10, 0x10, // 4
            0xF0, 0x80, 0xF0, 0x10, 0xF0, // 5
            0xF0, 0x80, 0xF0, 0x90, 0xF0, // 6
            0xF0, 0x10, 0x20, 0x40, 0x40, // 7
            0xF0, 0x90, 0xF0, 0x90, 0xF0, // 8
            0xF0, 0x90, 0xF0, 0x10, 0xF0, // 9
            0xF0, 0x90, 0xF0, 0x90, 0x90, // A
            0xE0, 0x90, 0xE0, 0x90, 0xE0, // B
            0xF0, 0x80, 0x80, 0x80, 0xF0, // C
            0xE0, 0x90, 0x90, 0x90, 0xE0, // D
            0xF0, 0x80, 0xF0, 0x80, 0xF0, // E
            0xF0, 0x80, 0xF0, 0x80, 0x80, // F
        ];
        proof {
            assert(font@ =~= font_sprites());
        }
        let mut i: usize = 0;
        while i < 80
            invariant
                i <= 80,
                memory@.len() == 4096,
                font@ == font_sprites(),
                forall|k: int| 0x50 <= k < 0x50 + i ==> memory@[k] == font_sprites()[k - 0x50],
                forall|k: int| 0 <= k < 4096 && !(0x50 <= k < 0x50 + i) ==> memory@[k] == 0u8,
            decreases 80 - i,
        {
            memory.set(FONT_MEMORY_OFFSET + i, font[i]);
            i = i + 1;
        }
        let mut i: usize = 0;
        while i < program.len()
            invariant
                i <= program@.len() <= 3584,
                memory@.len() == 4096,
                forall|k: int| 0x50 <= k < 0xA0 ==> memory@[k] == font_sprites()[k - 0x50],
                forall|k: int| 0x200 <= k < 0x200 + i ==> memory@[k] == program@[k - 0x200],
                forall|k: int|
                    0 <= k < 4096 && !(0x50 <= k < 0xA0) && !(0x200 <= k < 0x200 + i)
                        ==> memory@[k] == 0u8,
            decreases program@.len() - i,
        {
            memory.set(PROGRAM_MEMORY_OFFSET + i, program[i]);
            i = i + 1;
        }
        let mut registers: Vec<u8> = Vec::new();
        let mut i: usize = 0;
        while i < 16
            invariant
                i <= 16,
                registers@.len() == i,
                forall|k: int| 0 <= k < i ==> registers@[k] == 0u8,
            decreases 16 - i,
        {
            registers.push(0);
            i = i + 1;
        }
        let m = Chip8Emulator {
            memory,
            pc: 0x200,
            registers,
            stack: Vec::new(),
            index: 0,
            video: FrameBuffer::new(),
            delay: 0,
            sound: 0,
            running: false,
            vf_on_index_add: false,
            display_dev,
        };
        proof {
            assert(m@.mem =~= initial_memory(program@));
            assert(m@.regs =~= Seq::new(16, |i: int| 0u8));
            assert(m@.stack =~= Seq::<u16>::empty());
            assert(m@ =~= initial_state(program@));
        }
        Ok(m)
    }

    /// Choose whether the add-to-index instruction reports overflow past
    /// 0x0FFF in register 0xF. Off by default; some programs depend on
    /// either answer, so the choice is the host's.
    pub fn set_vf_on_index_add(&mut self, on: bool)
        ensures
            final(self)@ == (MachineView { vf_on_index_add: on, ..old(self)@ }),
    {
        self.vf_on_index_add = on;
    }

    /// Enter the `Running` state.
    pub fn start(&mut self)
        ensures
            final(self)@ == (MachineView { running: true, ..old(self)@ }),
    {
        self.running = true;
    }

    /// Host-driven shutdown: leave the `Running` state.
    pub fn halt(&mut self)
        ensures
            final(self)@ == (MachineView { running: false, ..old(self)@ }),
    {
        self.running = false;
    }

    /// Whether the machine is in the `Running` state.
    pub fn is_running(&self) -> (r: bool)
        ensures
            r == self@.running,
    {
        self.running
    }

    /// One 60 Hz tick of the timer unit: both counters count down toward
    /// zero and stop there, never wrapping below it.
    pub fn tick_timers(&mut self)
        ensures
            final(self)@ == tick_spec(old(self)@),
    {
        if self.delay > 0 {
            self.delay = self.delay - 1;
        }
        if self.sound > 0 {
            self.sound = self.sound - 1;
        }
        proof {
            assert(self@ =~= tick_spec(old(self)@));
        }
    }

    /// Clear: switch every pixel off and push the blank frame to the sink.
    pub fn op_00e0_cls(&mut self)
        requires
            old(self).wf(),
        ensures
            final(self).wf(),
            final(self)@ == cls_spec(old(self)@),
    {
        self.video.clear();
        self.display_dev.display(&self.video);
        proof {
            assert(self@ =~= cls_spec(old(self)@));
        }
    }

    /// Return: the program counter takes the address saved by the matching
    /// call. The caller must rule the empty stack out first; with no saved
    /// address a return is fatal.
    pub fn op_00ee_ret(&mut self)
        requires
            old(self).wf(),
            old(self)@.stack.len() > 0,
        ensures
            final(self).wf(),
            final(self)@ == ret_spec(old(self)@),
    {
        let npc = match self.stack.pop() {
            Some(v) => v,
            None => 0,
        };
        self.pc = npc;
        proof {
            assert(self@ =~= ret_spec(old(self)@));
        }
    }

    /// Jump.
    pub fn op_1nnn_jump(&mut self, nnn: u16)
        requires
            old(self).wf(),
        ensures
            final(self).wf(),
            final(self)@ == old(self)@.with_pc(nnn),
    {
        self.pc = nnn;
    }

    /// Call: save the (already advanced) program counter and jump.
    pub fn op_2nnn_call(&mut self, nnn: u16)
        requires
            old(self).wf(),
        ensures
            final(self).wf(),
            final(self)@ == call_spec(old(self)@, nnn),
    {
        self.stack.push(self.pc);
        self.pc = nnn;
        proof {
            assert(self@ =~= call_spec(old(self)@, nnn));
        }
    }

    /// Skip the next instruction when `val_x` equals the immediate.
    pub fn op_3xnn_skip(&mut self, val_x: u8, nn: u8)
        requires
            old(self).wf(),
            old(self)@.pc + 2 <= 0xFFFF,
        ensures
            final(self).wf(),
            final(self)@ == skip_if(old(self)@, val_x == nn),
    {
        if val_x == nn {
            self.pc = self.pc + 2;
        }
    }

    /// Skip the next instruction when `val_x` differs from the immediate.
    pub fn op_4xnn_skip(&mut self, val_x: u8, nn: u8)
        requires
            old(self).wf(),
            old(self)@.pc + 2 <= 0xFFFF,
        ensures
            final(self).wf(),
            final(self)@ == skip_if(old(self)@, val_x != nn),
    {
        if val_x != nn {
            self.pc = self.pc + 2;
        }
    }

    /// Skip the next instruction when the two register values are equal.
    pub fn op_5xy0_skip(&mut self, val_x: u8, val_y: u8)
        requires
            old(self).wf(),
            old(self)@.pc + 2 <= 0xFFFF,
        ensures
            final(self).wf(),
            final(self)@ == skip_if(old(self)@, val_x == val_y),
    {
        if val_x == val_y {
            self.pc = self.pc + 2;
        }
    }

    /// Skip the next instruction when the two register values differ.
    pub fn op_9xy0_skip(&mut self, val_x: u8, val_y: u8)
        requires
            old(self).wf(),
            old(self)@.pc + 2 <= 0xFFFF,
        ensures
            final(self).wf(),
            final(self)@ == skip_if(old(self)@, val_x != val_y),
    {
        if val_x != val_y {
            self.pc = self.pc + 2;
        }
    }

    /// Load the immediate into register `x`.
    pub fn op_6xnn_load(&mut self, x: u8, nn: u8)
        requires
            old(self).wf(),
            x < 16,
        ensures
            final(self).wf(),
            final(self)@ == old(self)@.with_regs(old(self)@.regs.update(x as int, nn)),
    {
        self.registers.set(x as usize, nn);
    }

    /// Add the immediate to register `x`, wrapping at 256; no flag changes.
    pub fn op_7xnn_add(&mut self, x: u8, nn: u8)
        requires
            old(self).wf(),
            x < 16,
        ensures
            final(self).wf(),
            final(self)@ == add_imm_spec(old(self)@, x as int, nn),
    {
        let a = self.registers[x as usize];
        let sum = (((a as u16) + (nn as u16)) % 256) as u8;
        self.registers.set(x as usize, sum);
        proof {
            assert(self@ =~= add_imm_spec(old(self)@, x as int, nn));
        }
    }

    /// Copy register `y` into register `x`.
    pub fn op_8xy0_set(&mut self, x: u8, y: u8)
        requires
            old(self).wf(),
            x < 16,
            y < 16,
        ensures
            final(self).wf(),
            final(self)@ == old(self)@.with_regs(
                old(self)@.regs.update(x as int, old(self)@.regs[y as int]),
            ),
    {
        let v = self.registers[y as usize];
        self.registers.set(x as usize, v);
    }

    /// Bitwise or of the two registers, into `x`.
    pub fn op_8xy1_or(&mut self, x: u8, y: u8)
        requires
            old(self).wf(),
            x < 16,
            y < 16,
        ensures
            final(self).wf(),
            final(self)@ == old(self)@.with_regs(
                old(self)@.regs.update(
                    x as int,
                    old(self)@.regs[x as int] | old(self)@.regs[y as int],
                ),
            ),
    {
        let v = self.registers[x as usize] | self.registers[y as usize];
        self.registers.set(x as usize, v);
    }

    /// Bitwise and of the two registers, into `x`.
    pub fn op_8xy2_and(&mut self, x: u8, y: u8)
        requires
            old(self).wf(),
            x < 16,
            y < 16,
        ensures
            final(self).wf(),
            final(self)@ == old(self)@.with_regs(
                old(self)@.regs.update(
                    x as int,
                    old(self)@.regs[x as int] & old(self)@.regs[y as int],
                ),
            ),
    {
        let v = self.registers[x as usize] & self.registers[y as usize];
        self.registers.set(x as usize, v);
    }

    /// Bitwise xor of the two registers, into `x`.
    pub fn op_8xy3_xor(&mut self, x: u8, y: u8)
        requires
            old(self).wf(),
            x < 16,
            y < 16,
        ensures
            final(self).wf(),
            final(self)@ == old(self)@.with_regs(
                old(self)@.regs.update(
                    x as int,
                    old(self)@.regs[x as int] ^ old(self)@.regs[y as int],
                ),
            ),
    {
        let v = self.registers[x as usize] ^ self.registers[y as usize];
        self.registers.set(x as usize, v);
    }

    /// Add register `y` to register `x`: register 0xF takes the carry,
    /// then `x` takes the sum wrapped at 256. Never faults.
    pub fn op_8xy4_add(&mut self, x: u8, y: u8)
        requires
            old(self).wf(),
            x < 16,
            y < 16,
        ensures
            final(self).wf(),
            final(self)@ == add_spec(old(self)@, x as int, y as int),
    {
        let a = self.registers[x as usize];
        let b = self.registers[y as usize];
        let carry: u8 = if a > 255 - b {
            1
        } else {
            0
        };
        self.registers.set(15, carry);
        let sum = (((a as u16) + (b as u16)) % 256) as u8;
        self.registers.set(x as usize, sum);
        proof {
            assert(self@ =~= add_spec(old(self)@, x as int, y as int));
        }
    }

    /// Subtract register `y` from register `x`: register 0xF takes 1
    /// exactly when `x >= y` (no borrow), then `x` takes the difference
    /// wrapped at 256.
    pub fn op_8xy5_sub(&mut self, x: u8, y: u8)
        requires
            old(self).wf(),
            x < 16,
            y < 16,
        ensures
            final(self).wf(),
            final(self)@ == sub_spec(old(self)@, x as int, y as int),
    {
        let a = self.registers[x as usize];
        let b = self.registers[y as usize];
        let no_borrow: u8 = if a >= b {
            1
        } else {
            0
        };
        self.registers.set(15, no_borrow);
        let res = if a >= b {
            a - b
        } else {
            (((a as u16) + 256) - (b as u16)) as u8
        };
        self.registers.set(x as usize, res);
        proof {
            assert(self@ =~= sub_spec(old(self)@, x as int, y as int));
        }
    }

    /// Shift register `x` right by one: register 0xF takes the bit shifted
    /// out, then `x` takes the shifted value.
    pub fn op_8xy6_rshift(&mut self, x: u8)
        requires
            old(self).wf(),
            x < 16,
        ensures
            final(self).wf(),
            final(self)@ == shr_spec(old(self)@, x as int),
    {
        let a = self.registers[x as usize];
        self.registers.set(15, a & 1);
        self.registers.set(x as usize, a >> 1);
        proof {
            assert(self@ =~= shr_spec(old(self)@, x as int));
        }
    }

    /// Reverse subtract: register 0xF takes 1 exactly when `y >= x`, then
    /// `y` takes `y - x` wrapped at 256.
    pub fn op_8xy7_sub_rev(&mut self, x: u8, y: u8)
        requires
            old(self).wf(),
            x < 16,
            y < 16,
        ensures
            final(self).wf(),
            final(self)@ == sub_rev_spec(old(self)@, x as int, y as int),
    {
        let a = self.registers[x as usize];
        let b = self.registers[y as usize];
        let no_borrow: u8 = if b >= a {
            1
        } else {
            0
        };
        self.registers.set(15, no_borrow);
        let res = if b >= a {
            b - a
        } else {
            (((b as u16) + 256) - (a as u16)) as u8
        };
        self.registers.set(y as usize, res);
        proof {
            assert(self@ =~= sub_rev_spec(old(self)@, x as int, y as int));
        }
    }

    /// Shift register `x` left by one: register 0xF takes the bit shifted
    /// out, then `x` takes the low eight bits of the doubled value.
    pub fn op_8xye_lshift(&mut self, x: u8)
        requires
            old(self).wf(),
            x < 16,
        ensures
            final(self).wf(),
            final(self)@ == shl_spec(old(self)@, x as int),
    {
        let a = self.registers[x as usize];
        let flag = (a & 0x80) >> 7;
        proof {
            assert((a & 0x80) >> 7 == (a >> 7) & 1) by (bit_vector);
        }
        self.registers.set(15, flag);
        self.registers.set(x as usize, a << 1);
        proof {
            assert(self@ =~= shl_spec(old(self)@, x as int));
        }
    }

    /// Jump to the address immediate offset by register 0.
    pub fn op_bnnn_jumpoff(&mut self, nnn: u16)
        requires
            old(self).wf(),
            nnn < 0x1000,
        ensures
            final(self).wf(),
            final(self)@ == old(self)@.with_pc((nnn + old(self)@.regs[0]) as u16),
    {
        let v = self.registers[0];
        self.pc = nnn + (v as u16);
    }

    /// Store a random byte masked by the immediate in register `x`. The
    /// byte comes from the host's generator; the contract promises only
    /// that the stored value is some byte masked by `nn` and that nothing
    /// else changes.
    pub fn op_cxnn_rand(&mut self, x: u8, nn: u8)
        requires
            old(self).wf(),
            x < 16,
        ensures
            final(self).wf(),
            rand_rel(old(self)@, x as int, nn, final(self)@),
    {
        let r = crate::rng::random_byte();
        let masked = r & nn;
        self.registers.set(x as usize, masked);
        proof {
            assert(self@ == old(self)@.with_regs(old(self)@.regs.update(x as int, r & nn)));
        }
    }

    /// Draw the `n`-byte sprite at the index register, anchored at the
    /// values of registers `x` and `y` taken modulo the grid size; register
    /// 0xF takes the collision flag, and the finished frame goes to the
    /// sink.
    pub fn op_dxyn_disp(&mut self, x: u8, y: u8, n: u8)
        requires
            old(self).wf(),
            x < 16,
            y < 16,
            n < 16,
            old(self)@.index + n <= 4096,
        ensures
            final(self).wf(),
            final(self)@ == draw_op_spec(old(self)@, x as int, y as int, n as int),
    {
        let x0 = self.registers[x as usize] % 64;
        let y0 = self.registers[y as usize] % 32;
        let mut sprite: Vec<u8> = Vec::new();
        let mut i: usize = 0;
        while i < n as usize
            invariant
                self.wf(),
                i <= n < 16,
                self@.index + n <= 4096,
                sprite@.len() == i,
                forall|j: int| 0 <= j < i ==> sprite@[j] == self@.mem[self@.index + j],
            decreases n - i,
        {
            sprite.push(self.memory[self.index as usize + i]);
            i = i + 1;
        }
        proof {
            assert(sprite@ =~= self@.mem.subrange(
                self@.index as int,
                self@.index as int + n as int,
            ));
        }
        let col = self.video.draw_sprite(&sprite, x0, y0);
        let flag: u8 = if col {
            1
        } else {
            0
        };
        self.registers.set(15, flag);
        self.display_dev.display(&self.video);
        proof {
            assert(self@ =~= draw_op_spec(old(self)@, x as int, y as int, n as int));
        }
    }

    /// Read the delay timer into register `x`.
    pub fn op_fx07_xtdtime(&mut self, x: u8)
        requires
            old(self).wf(),
            x < 16,
        ensures
            final(self).wf(),
            final(self)@ == old(self)@.with_regs(
                old(self)@.regs.update(x as int, old(self)@.delay),
            ),
    {
        let v = self.delay;
        self.registers.set(x as usize, v);
    }

    /// Write `val_x` to the delay timer.
    pub fn op_fx15_set_delay(&mut self, val_x: u8)
        ensures
            final(self)@ == (MachineView { delay: val_x, ..old(self)@ }),
    {
        self.delay = val_x;
    }

    /// Write `val_x` to the sound timer.
    pub fn op_fx18_set_sound(&mut self, val_x: u8)
        ensures
            final(self)@ == (MachineView { sound: val_x, ..old(self)@ }),
    {
        self.sound = val_x;
    }

    /// Add `val_x` to the index register, wrapping at 16 bits; when the
    /// machine is configured for it, register 0xF reports whether the sum
    /// passed 0x0FFF.
    pub fn op_fx1e_add_idx(&mut self, val_x: u8)
        requires
            old(self).wf(),
        ensures
            final(self).wf(),
            final(self)@ == add_index_spec(old(self)@, val_x),
    {
        let sum: u32 = (self.index as u32) + (val_x as u32);
        self.index = (sum % 0x10000) as u16;
        if self.vf_on_index_add {
            let flag: u8 = if sum > 0x0FFF {
                1
            } else {
                0
            };
            self.registers.set(15, flag);
        }
        proof {
            assert(self@ =~= add_index_spec(old(self)@, val_x));
        }
    }

    /// Store the hundreds, tens and units digits of `val_x` at the index
    /// register and the two bytes after it.
    pub fn op_fx33_conv(&mut self, val_x: u8)
        requires
            old(self).wf(),
            old(self)@.index + 3 <= 4096,
        ensures
            final(self).wf(),
            final(self)@ == bcd_spec(old(self)@, val_x),
    {
        let i = self.index as usize;
        self.memory.set(i, val_x / 100);
        self.memory.set(i + 1, (val_x / 10) % 10);
        self.memory.set(i + 2, val_x % 10);
        proof {
            assert(self@ =~= bcd_spec(old(self)@, val_x));
        }
    }

    /// Copy registers 0 through `x` to memory at the index register onward.
    pub fn op_fx55_store(&mut self, x: u8)
        requires
            old(self).wf(),
            x < 16,
            old(self)@.index + x + 1 <= 4096,
        ensures
            final(self).wf(),
            final(self)@ == store_spec(old(self)@, x as int),
    {
        let mut i: usize = 0;
        while i < x as usize + 1
            invariant
                self.wf(),
                x < 16,
                i <= x + 1,
                self@.index + x + 1 <= 4096,
                self@.index == old(self)@.index,
                self@.regs == old(self)@.regs,
                forall|k: int|
                    self@.index <= k < self@.index + i ==> self@.mem[k] == self@.regs[k
                        - self@.index],
                forall|k: int|
                    0 <= k < 4096 && !(self@.index <= k < self@.index + i) ==> self@.mem[k]
                        == old(self)@.mem[k],
                self@ == (MachineView { mem: self@.mem, ..old(self)@ }),
            decreases x + 1 - i,
        {
            let idx = self.index as usize + i;
            let v = self.registers[i];
            self.memory.set(idx, v);
            i = i + 1;
        }
        proof {
            assert(self@ =~= store_spec(old(self)@, x as int));
        }
    }

    /// Load registers 0 through `x` from memory at the index register
    /// onward.
    pub fn op_fx65_load(&mut self, x: u8)
        requires
            old(self).wf(),
            x < 16,
            old(self)@.index + x + 1 <= 4096,
        ensures
            final(self).wf(),
            final(self)@ == load_spec(old(self)@, x as int),
    {
        let mut i: usize = 0;
        while i < x as usize + 1
            invariant
                self.wf(),
                x < 16,
                i <= x + 1,
                self@.index + x + 1 <= 4096,
                self@.index == old(self)@.index,
                self@.mem == old(self)@.mem,
                forall|k: int| 0 <= k < i ==> self@.regs[k] == self@.mem[self@.index + k],
                forall|k: int| i <= k < 16 ==> self@.regs[k] == old(self)@.regs[k],
                self@ == (MachineView { regs: self@.regs, ..old(self)@ }),
            decreases x + 1 - i,
        {
            let idx = self.index as usize + i;
            let v = self.memory[idx];
            self.registers.set(i, v);
            i = i + 1;
        }
        proof {
            assert(self@ =~= load_spec(old(self)@, x as int));
        }
    }

    /// The program counter.
    pub fn program_counter(&self) -> (r: u16)
        ensures
            r == self@.pc,
    {
        self.pc
    }

    /// The index register.
    pub fn index_register(&self) -> (r: u16)
        ensures
            r == self@.index,
    {
        self.index
    }

    /// The value of general-purpose register `x`.
    pub fn register(&self, x: u8) -> (r: u8)
        requires
            self.wf(),
            x < 16,
        ensures
            r == self@.regs[x as int],
    {
        self.registers[x as usize]
    }

    /// The byte at memory address `addr`.
    pub fn memory_byte(&self, addr: u16) -> (r: u8)
        requires
            self.wf(),
            addr < 4096,
        ensures
            r == self@.mem[addr as int],
    {
        self.memory[addr as usize]
    }

    /// How many saved addresses the call stack holds.
    pub fn stack_depth(&self) -> (r: usize)
        ensures
            r == self@.stack.len(),
    {
        self.stack.len()
    }

    /// The pixel at column `x`, row `y` of the frame buffer.
    pub fn pixel(&self, x: usize, y: usize) -> (r: bool)
        requires
            self.wf(),
            x < 64,
            y < 32,
        ensures
            r == self@.video[y * 64 + x],
    {
        self.video.get(x, y)
    }

    /// The delay timer value.
    pub fn delay_timer(&self) -> (r: u8)
        ensures
            r == self@.delay,
    {
        self.delay
    }

    /// The sound timer value.
    pub fn sound_timer(&self) -> (r: u8)
        ensures
            r == self@.sound,
    {
        self.sound
    }

    /// One fetch-decode-execute cycle. Fetch reads the two instruction
    /// bytes at the program counter and advances it; decode splits the word
    /// into its fields; execute dispatches on them. The whole cycle is
    /// pinned down by `step_rel`: every opcode's effect, the block-for-key
    /// suspension, and the three fatal conditions (fetch past memory
    /// bounds, unrecognized opcode, return on an empty stack), each of
    /// which leaves the machine unchanged for the host to report.
    #[verifier::rlimit(100)]
    #[verifier::spinoff_prover]
    pub fn step(&mut self) -> (r: Result<StepOutcome, Chip8Error>)
        requires
            old(self).wf(),
        ensures
            final(self).wf(),
            step_rel(old(self)@, final(self)@, r),
    {
        let pc0 = self.pc;
        if pc0 as usize + 1 >= 4096 {
            return Err(Chip8Error::PcOutOfBounds { pc: pc0 });
        }
        let hi = self.memory[pc0 as usize];
        let lo = self.memory[pc0 as usize + 1];
        self.pc = pc0 + 2;
        let instr = decode(hi, lo);
        let w: u16 = ((hi as u16) << 8) | (lo as u16);
        proof {
            // The two 0x00Ex opcodes pin the whole word, hence the opcode
            // class as well; the dispatch below tests the class first.
            assert((((hi as u16) << 8) | (lo as u16)) == 0x00E0 ==> (hi >> 4) == 0)
                by (bit_vector);
            assert((((hi as u16) << 8) | (lo as u16)) == 0x00EE ==> (hi >> 4) == 0)
                by (bit_vector);
        }
        match instr.op {
            0x0 => {
                if w == 0x00E0 {
                    self.op_00e0_cls();
                    Ok(StepOutcome::Ran)
                } else if w == 0x00EE {
                    if self.stack.len() == 0 {
                        self.pc = pc0;
                        proof {
                            assert(self@ =~= old(self)@);
                        }
                        Err(Chip8Error::StackUnderflow { pc: pc0 })
                    } else {
                        self.op_00ee_ret();
                        Ok(StepOutcome::Ran)
                    }
                } else {
                    self.pc = pc0;
                    proof {
                        assert(self@ =~= old(self)@);
                    }
                    Err(Chip8Error::InvalidOpcode { word: w })
                }
            },
            0x1 => {
                self.op_1nnn_jump(instr.nnn);
                Ok(StepOutcome::Ran)
            },
            0x2 => {
                self.op_2nnn_call(instr.nnn);
                Ok(StepOutcome::Ran)
            },
            0x3 => {
                let v = self.registers[instr.x as usize];
                self.op_3xnn_skip(v, instr.nn);
                Ok(StepOutcome::Ran)
            },
            0x4 => {
                let v = self.registers[instr.x as usize];
                self.op_4xnn_skip(v, instr.nn);
                Ok(StepOutcome::Ran)
            },
            0x5 => {
                if instr.n == 0 {
                    let vx = self.registers[instr.x as usize];
                    let vy = self.registers[instr.y as usize];
                    self.op_5xy0_skip(vx, vy);
                    Ok(StepOutcome::Ran)
                } else {
                    self.pc = pc0;
                    proof {
                        assert(self@ =~= old(self)@);
                    }
                    Err(Chip8Error::InvalidOpcode { word: w })
                }
            },
            0x6 => {
                self.op_6xnn_load(instr.x, instr.nn);
                Ok(StepOutcome::Ran)
            },
            0x7 => {
                self.op_7xnn_add(instr.x, instr.nn);
                Ok(StepOutcome::Ran)
            },
            0x8 => {
                match instr.n {
                    0x0 => {
                        self.op_8xy0_set(instr.x, instr.y);
                        Ok(StepOutcome::Ran)
                    },
                    0x1 => {
                        self.op_8xy1_or(instr.x, instr.y);
                        Ok(StepOutcome::Ran)
                    },
                    0x2 => {
                        self.op_8xy2_and(instr.x, instr.y);
                        Ok(StepOutcome::Ran)
                    },
                    0x3 => {
                        self.op_8xy3_xor(instr.x, instr.y);
                        Ok(StepOutcome::Ran)
                    },
                    0x4 => {
                        self.op_8xy4_add(instr.x, instr.y);
                        Ok(StepOutcome::Ran)
                    },
                    0x5 => {
                        self.op_8xy5_sub(instr.x, instr.y);
                        Ok(StepOutcome::Ran)
                    },
                    0x6 => {
                        self.op_8xy6_rshift(instr.x);
                        Ok(StepOutcome::Ran)
                    },
                    0x7 => {
                        self.op_8xy7_sub_rev(instr.x, instr.y);
                        Ok(StepOutcome::Ran)
                    },
                    0xE => {
                        self.op_8xye_lshift(instr.x);
                        Ok(StepOutcome::Ran)
                    },
                    _ => {
                        self.pc = pc0;
                        proof {
                            assert(self@ =~= old(self)@);
                        }
                        Err(Chip8Error::InvalidOpcode { word: w })
                    },
                }
            },
            0x9 => {
                if instr.n == 0 {
                    let vx = self.registers[instr.x as usize];
                    let vy = self.registers[instr.y as usize];
                    self.op_9xy0_skip(vx, vy);
                    Ok(StepOutcome::Ran)
                } else {
                    self.pc = pc0;
                    proof {
                        assert(self@ =~= old(self)@);
                    }
                    Err(Chip8Error::InvalidOpcode { word: w })
                }
            },
            0xA => {
                self.index = instr.nnn;
                proof {
                    assert(self@ =~= (MachineView {
                        index: instr.nnn,
                        ..old(self)@.with_pc((old(self)@.pc + 2) as u16)
                    }));
                }
                Ok(StepOutcome::Ran)
            },
            0xB => {
                self.op_bnnn_jumpoff(instr.nnn);
                Ok(StepOutcome::Ran)
            },
            0xC => {
                self.op_cxnn_rand(instr.x, instr.nn);
                Ok(StepOutcome::Ran)
            },
            0xD => {
                if self.index as usize + instr.n as usize > 4096 {
                    let idx = self.index;
                    self.pc = pc0;
                    proof {
                        assert(self@ =~= old(self)@);
                    }
                    Err(Chip8Error::MemoryOutOfBounds { index: idx })
                } else {
                    self.op_dxyn_disp(instr.x, instr.y, instr.n);
                    Ok(StepOutcome::Ran)
                }
            },
            0xF => {
                match instr.nn {
                    0x07 => {
                        self.op_fx07_xtdtime(instr.x);
                        Ok(StepOutcome::Ran)
                    },
                    0x0A => Ok(StepOutcome::NeedKey { x: instr.x }),
                    0x15 => {
                        let v = self.registers[instr.x as usize];
                        self.op_fx15_set_delay(v);
                        Ok(StepOutcome::Ran)
                    },
                    0x18 => {
                        let v = self.registers[instr.x as usize];
                        self.op_fx18_set_sound(v);
                        Ok(StepOutcome::Ran)
                    },
                    0x1E => {
                        let v = self.registers[instr.x as usize];
                        self.op_fx1e_add_idx(v);
                        Ok(StepOutcome::Ran)
                    },
                    0x33 => {
                        if self.index as usize + 3 > 4096 {
                            let idx = self.index;
                            self.pc = pc0;
                            proof {
                                assert(self@ =~= old(self)@);
                            }
                            Err(Chip8Error::MemoryOutOfBounds { index: idx })
                        } else {
                            let v = self.registers[instr.x as usize];
                            self.op_fx33_conv(v);
                            Ok(StepOutcome::Ran)
                        }
                    },
                    0x55 => {
                        if self.index as usize + instr.x as usize + 1 > 4096 {
                            let idx = self.index;
                            self.pc = pc0;
                            proof {
                                assert(self@ =~= old(self)@);
                            }
                            Err(Chip8Error::MemoryOutOfBounds { index: idx })
                        } else {
                            self.op_fx55_store(instr.x);
                            Ok(StepOutcome::Ran)
                        }
                    },
                    0x65 => {
                        if self.index as usize + instr.x as usize + 1 > 4096 {
                            let idx = self.index;
                            self.pc = pc0;
                            proof {
                                assert(self@ =~= old(self)@);
                            }
                            Err(Chip8Error::MemoryOutOfBounds { index: idx })
                        } else {
                            self.op_fx65_load(instr.x);
                            Ok(StepOutcome::Ran)
                        }
                    },
                    _ => {
                        self.pc = pc0;
                        proof {
                            assert(self@ =~= old(self)@);
                        }
                        Err(Chip8Error::InvalidOpcode { word: w })
                    },
                }
            },
            _ => {
                self.pc = pc0;
                proof {
                    assert(self@ =~= old(self)@);
                }
                Err(Chip8Error::InvalidOpcode { word: w })
            },
        }
    }

    /// Deliver the key press the block-for-key instruction is waiting on:
    /// the key code, 0x0 through 0xF, is stored in register `x`.
    pub fn provide_key(&mut self, x: u8, key: u8)
        requires
            old(self).wf(),
            x < 16,
            key <= 0xF,
        ensures
            final(self).wf(),
            final(self)@ == old(self)@.with_regs(old(self)@.regs.update(x as int, key)),
    {
        self.registers.set(x as usize, key);
    }
}

} // verus!
