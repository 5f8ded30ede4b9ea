//! The CPU: registers, program counter, call stack and timers, with the
//! fetch and execute steps that drive them against the memory bus.
use vstd::prelude::*;

use crate::decoder::{decode, spec_decode};
use crate::instruction::Instruction;
use crate::memory::{Bus, RAM_SIZE, ROM_START, SCREEN_HEIGHT, SCREEN_WIDTH};
use crate::sprite::{
    lemma_draw_twice_restores, lemma_second_draw_collides, lemma_sprite_bit_shift, plot_bits,
    plot_rows, sprite_plotted,
};

verus! {

/// Depth of the call stack.
pub const STACK_DEPTH: usize = 16;

/// Number of general-purpose registers.
pub const REGISTER_COUNT: usize = 16;

/// Index of the flags register VF.
pub const FLAG_REGISTER: usize = 15;

/// The CPU state: sixteen 8-bit registers (VF doubling as the flags
/// register), the 16-bit index register and program counter, two timers, and
/// the call stack with its stack pointer.
pub struct Cpu {
    pub v_registers: Vec<u8>,
    pub pc: u16,
    pub i: u16,
    pub delay_timer: u8,
    pub sound_timer: u8,
    pub stack: Vec<u16>,
    pub sp: u8,
}

/// Number of sprite rows a draw at vertical origin `y0` actually touches:
/// rows past the bottom display edge are clipped.
pub open spec fn rows_drawn(y0: int, n: int) -> int {
    if y0 + n <= SCREEN_HEIGHT {
        n
    } else {
        SCREEN_HEIGHT - y0
    }
}

/// Every sprite row a draw reads lies inside RAM.
pub open spec fn draw_mem_ok(i: int, y0: int, n: int) -> bool {
    rows_drawn(y0, n) <= 0 || i + rows_drawn(y0, n) <= RAM_SIZE
}

/// All fields of `post` equal those of `pre` except possibly the program
/// counter.
pub open spec fn only_pc_may_change(pre: Cpu, post: Cpu) -> bool {
    &&& post.v_registers@ == pre.v_registers@
    &&& post.i == pre.i
    &&& post.delay_timer == pre.delay_timer
    &&& post.sound_timer == pre.sound_timer
    &&& post.stack@ == pre.stack@
    &&& post.sp == pre.sp
}

/// All fields of `post` equal those of `pre` except possibly the registers.
pub open spec fn only_regs_may_change(pre: Cpu, post: Cpu) -> bool {
    &&& post.pc == pre.pc
    &&& post.i == pre.i
    &&& post.delay_timer == pre.delay_timer
    &&& post.sound_timer == pre.sound_timer
    &&& post.stack@ == pre.stack@
    &&& post.sp == pre.sp
}

/// All fields of `post` equal those of `pre` except possibly the program
/// counter, stack and stack pointer.
pub open spec fn only_flow_may_change(pre: Cpu, post: Cpu) -> bool {
    &&& post.v_registers@ == pre.v_registers@
    &&& post.i == pre.i
    &&& post.delay_timer == pre.delay_timer
    &&& post.sound_timer == pre.sound_timer
}

/// `post` is the same CPU state as `pre`.
pub open spec fn cpu_unchanged(pre: Cpu, post: Cpu) -> bool {
    only_pc_may_change(pre, post) && post.pc == pre.pc
}

/// What one executed instruction does: relates the CPU and display before and
/// after `execute`, per instruction variant. RAM and keypad are never written
/// by `execute`. Decoded instructions outside the implemented subset are
/// silent no-ops, a documented gap of the engine. The shift instruction uses
/// the modern in-place convention: it shifts Vx alone and ignores Vy.
pub open spec fn step_spec(
    pre: Cpu,
    mem: Seq<u8>,
    d0: Seq<u8>,
    instr: Instruction,
    post: Cpu,
    d1: Seq<u8>,
    redraw: bool,
) -> bool {
    match instr {
        Instruction::Cls => {
            &&& cpu_unchanged(pre, post)
            &&& d1.len() == d0.len()
            &&& forall|p: int| 0 <= p < d1.len() ==> d1[p] == 0
            &&& redraw
        },
        Instruction::Ret => {
            &&& only_flow_may_change(pre, post)
            &&& post.pc == pre.stack@[pre.sp as int]
            &&& post.stack@ == pre.stack@
            &&& post.sp == pre.sp - 1
            &&& d1 == d0
            &&& !redraw
        },
        Instruction::Jump(nnn) => {
            &&& only_pc_may_change(pre, post)
            &&& post.pc == nnn
            &&& d1 == d0
            &&& !redraw
        },
        Instruction::Call(nnn) => {
            &&& only_flow_may_change(pre, post)
            &&& post.sp == pre.sp + 1
            &&& post.stack@ == pre.stack@.update(pre.sp + 1, pre.pc)
            &&& post.pc == nnn
            &&& d1 == d0
            &&& !redraw
        },
        Instruction::SkipEq(x, kk) => {
            &&& only_pc_may_change(pre, post)
            &&& pre.v_registers@[x as int] == kk ==> post.pc == pre.pc + 2
            &&& pre.v_registers@[x as int] != kk ==> post.pc == pre.pc
            &&& d1 == d0
            &&& !redraw
        },
        Instruction::SkipNotEq(x, kk) => {
            &&& only_pc_may_change(pre, post)
            &&& pre.v_registers@[x as int] != kk ==> post.pc == pre.pc + 2
            &&& pre.v_registers@[x as int] == kk ==> post.pc == pre.pc
            &&& d1 == d0
            &&& !redraw
        },
        Instruction::SkipRegEq(x, y) => {
            &&& only_pc_may_change(pre, post)
            &&& pre.v_registers@[x as int] == pre.v_registers@[y as int] ==> post.pc == pre.pc
                + 2
            &&& pre.v_registers@[x as int] != pre.v_registers@[y as int] ==> post.pc == pre.pc
            &&& d1 == d0
            &&& !redraw
        },
        Instruction::Load(x, kk) => {
            &&& only_regs_may_change(pre, post)
            &&& post.v_registers@ == pre.v_registers@.update(x as int, kk)
            &&& d1 == d0
            &&& !redraw
        },
        Instruction::Add(x, kk) => {
            &&& only_regs_may_change(pre, post)
            &&& post.v_registers@ == pre.v_registers@.update(
                x as int,
                ((pre.v_registers@[x as int] + kk) % 256) as u8,
            )
            &&& d1 == d0
            &&& !redraw
        },
        Instruction::LoadReg(x, y) => {
            &&& only_regs_may_change(pre, post)
            &&& post.v_registers@ == pre.v_registers@.update(
                x as int,
                pre.v_registers@[y as int],
            )
            &&& d1 == d0
            &&& !redraw
        },
        Instruction::Or(x, y) => {
            &&& only_regs_may_change(pre, post)
            &&& post.v_registers@ == pre.v_registers@.update(
                x as int,
                pre.v_registers@[x as int] | pre.v_registers@[y as int],
            )
            &&& d1 == d0
            &&& !redraw
        },
        Instruction::And(x, y) => {
            &&& only_regs_may_change(pre, post)
            &&& post.v_registers@ == pre.v_registers@.update(
                x as int,
                pre.v_registers@[x as int] & pre.v_registers@[y as int],
            )
            &&& d1 == d0
            &&& !redraw
        },
        Instruction::Xor(x, y) => {
            &&& only_regs_may_change(pre, post)
            &&& post.v_registers@ == pre.v_registers@.update(
                x as int,
                pre.v_registers@[x as int] ^ pre.v_registers@[y as int],
            )
            &&& d1 == d0
            &&& !redraw
        },
        Instruction::AddReg(x, y) => {
            &&& only_regs_may_change(pre, post)
            &&& post.v_registers@ == pre.v_registers@.update(
                x as int,
                ((pre.v_registers@[x as int] + pre.v_registers@[y as int]) % 256) as u8,
            ).update(
                FLAG_REGISTER as int,
                if pre.v_registers@[x as int] + pre.v_registers@[y as int] > 255 {
                    1u8
                } else {
                    0u8
                },
            )
            &&& d1 == d0
            &&& !redraw
        },
        Instruction::SubReg(x, y) => {
            &&& only_regs_may_change(pre, post)
            &&& post.v_registers@ == pre.v_registers@.update(
                x as int,
                ((pre.v_registers@[x as int] - pre.v_registers@[y as int] + 256) % 256) as u8,
            ).update(
                FLAG_REGISTER as int,
                if pre.v_registers@[x as int] >= pre.v_registers@[y as int] {
                    1u8
                } else {
                    0u8
                },
            )
            &&& d1 == d0
            &&& !redraw
        },
        Instruction::Shr(x, _y) => {
            &&& only_regs_may_change(pre, post)
            &&& post.v_registers@ == pre.v_registers@.update(
                x as int,
                (pre.v_registers@[x as int] / 2) as u8,
            ).update(FLAG_REGISTER as int, (pre.v_registers@[x as int] % 2) as u8)
            &&& d1 == d0
            &&& !redraw
        },
        Instruction::LoadI(nnn) => {
            &&& post.v_registers@ == pre.v_registers@
            &&& post.pc == pre.pc
            &&& post.i == nnn
            &&& post.delay_timer == pre.delay_timer
            &&& post.sound_timer == pre.sound_timer
            &&& post.stack@ == pre.stack@
            &&& post.sp == pre.sp
            &&& d1 == d0
            &&& !redraw
        },
        Instruction::Draw(x, y, n) => {
            let x0 = (pre.v_registers@[x as int] as int) % (SCREEN_WIDTH as int);
            let y0 = (pre.v_registers@[y as int] as int) % (SCREEN_HEIGHT as int);
            let r = plot_rows(d0, mem, pre.i as int, x0, y0, n as int, 0);
            &&& only_regs_may_change(pre, post)
            &&& post.v_registers@ == pre.v_registers@.update(
                FLAG_REGISTER as int,
                if r.1 {
                    1u8
                } else {
                    0u8
                },
            )
            &&& d1 == r.0
            &&& redraw
        },
        _ => {
            &&& cpu_unchanged(pre, post)
            &&& d1 == d0
            &&& !redraw
        },
    }
}

/// The inputs on which `execute` is defined. A return with an empty stack, a
/// call with a full stack, a skip that would run the program counter off the
/// 16-bit address space, and a draw whose sprite rows lie outside RAM are
/// fatal conditions: the engine refuses to run them and the driver must stop
/// instead.
pub open spec fn step_enabled(pre: Cpu, instr: Instruction) -> bool {
    match instr {
        Instruction::Ret => pre.sp >= 1,
        Instruction::Call(_) => pre.sp < STACK_DEPTH - 1,
        Instruction::SkipEq(x, kk) => pre.v_registers@[x as int] == kk ==> pre.pc + 2
            <= u16::MAX,
        Instruction::SkipNotEq(x, kk) => pre.v_registers@[x as int] != kk ==> pre.pc + 2
            <= u16::MAX,
        Instruction::SkipRegEq(x, y) => pre.v_registers@[x as int] == pre.v_registers@[y as int]
            ==> pre.pc + 2 <= u16::MAX,
        Instruction::Draw(_x, y, n) => draw_mem_ok(
            pre.i as int,
            (pre.v_registers@[y as int] as int) % (SCREEN_HEIGHT as int),
            n as int,
        ),
        _ => true,
    }
}

/// Operand fields of a decoded instruction are in range: register indices and
/// counts are nibbles, addresses are 12 bits.
pub open spec fn instr_wf(instr: Instruction) -> bool {
    match instr {
        Instruction::Jump(nnn) => nnn < 0x1000,
        Instruction::Call(nnn) => nnn < 0x1000,
        Instruction::SkipEq(x, _kk) => x < 16,
        Instruction::SkipNotEq(x, _kk) => x < 16,
        Instruction::SkipRegEq(x, y) => x < 16 && y < 16,
        Instruction::Load(x, _kk) => x < 16,
        Instruction::Add(x, _kk) => x < 16,
        Instruction::LoadReg(x, y) => x < 16 && y < 16,
        Instruction::Or(x, y) => x < 16 && y < 16,
        Instruction::And(x, y) => x < 16 && y < 16,
        Instruction::Xor(x, y) => x < 16 && y < 16,
        Instruction::AddReg(x, y) => x < 16 && y < 16,
        Instruction::SubReg(x, y) => x < 16 && y < 16,
        Instruction::Shr(x, y) => x < 16 && y < 16,
        Instruction::Subn(x, y) => x < 16 && y < 16,
        Instruction::Shl(x, y) => x < 16 && y < 16,
        Instruction::SkipRegNotEq(x, y) => x < 16 && y < 16,
        Instruction::LoadI(nnn) => nnn < 0x1000,
        Instruction::JumpOffset(nnn) => nnn < 0x1000,
        Instruction::Rand(x, _kk) => x < 16,
        Instruction::Draw(x, y, n) => x < 16 && y < 16 && n < 16,
        Instruction::SkipIfPressed(x) => x < 16,
        Instruction::SkipIfNotPressed(x) => x < 16,
        Instruction::LoadRegFromDelay(x) => x < 16,
        Instruction::WaitForKey(x) => x < 16,
        Instruction::LoadDelayFromReg(x) => x < 16,
        Instruction::LoadSoundFromReg(x) => x < 16,
        Instruction::AddIndex(x) => x < 16,
        Instruction::LoadFont(x) => x < 16,
        Instruction::Bcd(x) => x < 16,
        Instruction::DumpRegs(x) => x < 16,
        Instruction::FillRegs(x) => x < 16,
        _ => true,
    }
}

/// Whatever instruction an opcode decodes to has its operand fields in range.
pub proof fn lemma_decode_field_bounds(op: u16)
    ensures
        spec_decode(op) matches Some(instr) ==> instr_wf(instr),
{
}

impl Cpu {
    /// Registers and stack have their fixed sizes and the stack pointer stays
    /// inside the stack.
    pub open spec fn wf(&self) -> bool {
        &&& self.v_registers@.len() == REGISTER_COUNT
        &&& self.stack@.len() == STACK_DEPTH
        &&& self.sp < STACK_DEPTH
    }

    /// A CPU ready to run a freshly loaded ROM: everything zeroed and the
    /// program counter at the ROM load address.
    pub fn new() -> (c: Cpu)
        ensures
            c.wf(),
            c.pc == ROM_START,
            c.i == 0,
            c.delay_timer == 0,
            c.sound_timer == 0,
            c.sp == 0,
            forall|j: int| 0 <= j < REGISTER_COUNT ==> c.v_registers@[j] == 0,
            forall|j: int| 0 <= j < STACK_DEPTH ==> c.stack@[j] == 0,
    {
        let mut v_registers: Vec<u8> = Vec::new();
        let mut j: usize = 0;
        while j < REGISTER_COUNT
            invariant
                j <= REGISTER_COUNT,
                v_registers@.len() == j,
                forall|k: int| 0 <= k < j ==> v_registers@[k] == 0,
            decreases REGISTER_COUNT - j,
        {
            v_registers.push(0);
            j = j + 1;
        }
        let mut stack: Vec<u16> = Vec::new();
        let mut j: usize = 0;
        while j < STACK_DEPTH
            invariant
                j <= STACK_DEPTH,
                stack@.len() == j,
                forall|k: int| 0 <= k < j ==> stack@[k] == 0,
            decreases STACK_DEPTH - j,
        {
            stack.push(0);
            j = j + 1;
        }
        Cpu { v_registers, pc: ROM_START, i: 0, delay_timer: 0, sound_timer: 0, stack, sp: 0 }
    }

    /// Reads the two bytes at `[PC, PC + 1]`, combines them big-endian into an
    /// opcode, and advances PC by exactly 2. The caller must keep PC on two
    /// valid in-bounds bytes; running past the end of RAM is a fatal condition
    /// the engine refuses rather than reading out of bounds.
    pub fn fetch(&mut self, bus: &Bus) -> (opcode: u16)
        requires
            old(self).wf(),
            bus.wf(),
            old(self).pc + 1 < RAM_SIZE,
        ensures
            final(self).wf(),
            only_pc_may_change(*old(self), *final(self)),
            final(self).pc == old(self).pc + 2,
            opcode == bus.mem()[old(self).pc as int] * 256 + bus.mem()[old(self).pc as int + 1],
    {
        let byte1: u16 = (bus.memory[self.pc as usize] as u16) << 8;
        let byte2: u16 = bus.memory[self.pc as usize + 1] as u16;
        proof {
            let b1 = bus.mem()[self.pc as int] as u16;
            let b2 = bus.mem()[self.pc as int + 1] as u16;
            assert(b1 < 256 && b2 < 256 ==> ((b1 << 8) | b2) == b1 * 256 + b2) by (bit_vector);
        }
        self.pc = self.pc + 2;
        byte1 | byte2
    }

    /// Clears the display via the bus.
    fn clear_screen(&mut self, bus: &mut Bus)
        requires
            old(self).wf(),
            old(bus).wf(),
        ensures
            final(self).wf(),
            final(bus).wf(),
            cpu_unchanged(*old(self), *final(self)),
            final(self).pc == old(self).pc,
            final(bus).mem() == old(bus).mem(),
            final(bus).keys() == old(bus).keys(),
            final(bus).disp().len() == old(bus).disp().len(),
            forall|p: int| 0 <= p < final(bus).disp().len() ==> final(bus).disp()[p] == 0,
    {
        bus.clear_display();
    }

    /// XOR-plots the `n`-row sprite at the index register onto the display
    /// with origin `(Vx mod width, Vy mod height)`, clipping rows and columns
    /// at the display edges, and stores 1 in VF exactly when a plotted bit
    /// turned a set pixel off.
    fn draw_sprite(&mut self, x: u8, y: u8, n: u8, bus: &mut Bus)
        requires
            old(self).wf(),
            old(bus).wf(),
            x < 16,
            y < 16,
            n < 16,
            draw_mem_ok(
                old(self).i as int,
                (old(self).v_registers@[y as int] as int) % (SCREEN_HEIGHT as int),
                n as int,
            ),
        ensures
            final(self).wf(),
            final(bus).wf(),
            only_regs_may_change(*old(self), *final(self)),
            final(bus).mem() == old(bus).mem(),
            final(bus).keys() == old(bus).keys(),
            ({
                let x0 = (old(self).v_registers@[x as int] as int) % (SCREEN_WIDTH as int);
                let y0 = (old(self).v_registers@[y as int] as int) % (SCREEN_HEIGHT as int);
                let r = plot_rows(
                    old(bus).disp(),
                    old(bus).mem(),
                    old(self).i as int,
                    x0,
                    y0,
                    n as int,
                    0,
                );
                &&& final(bus).disp() == r.0
                &&& final(self).v_registers@ == old(self).v_registers@.update(
                    FLAG_REGISTER as int,
                    if r.1 {
                        1u8
                    } else {
                        0u8
                    },
                )
            }),
    {
        let x_coord = self.v_registers[x as usize] % (SCREEN_WIDTH as u8);
        let y_coord = self.v_registers[y as usize] % (SCREEN_HEIGHT as u8);

        let ghost v_orig = self.v_registers@;
        let ghost mem0 = bus.mem();
        let ghost keys0 = bus.keys();
        let ghost i0 = self.i;
        let ghost pc0 = self.pc;
        let ghost sp0 = self.sp;
        let ghost stack0 = self.stack@;
        let ghost dt0 = self.delay_timer;
        let ghost st0 = self.sound_timer;
        let ghost target = plot_rows(
            bus.disp(),
            bus.mem(),
            self.i as int,
            x_coord as int,
            y_coord as int,
            n as int,
            0,
        );

        self.v_registers.set(FLAG_REGISTER, 0);

        let mut row: u8 = 0;
        while row < n && y_coord + row < SCREEN_HEIGHT as u8
            invariant
                self.wf(),
                bus.wf(),
                row <= n,
                n < 16,
                x_coord < SCREEN_WIDTH,
                y_coord < SCREEN_HEIGHT,
                self.i == i0,
                self.pc == pc0,
                self.sp == sp0,
                self.stack@ == stack0,
                self.delay_timer == dt0,
                self.sound_timer == st0,
                v_orig.len() == REGISTER_COUNT,
                self.v_registers@ == v_orig.update(
                    FLAG_REGISTER as int,
                    self.v_registers@[FLAG_REGISTER as int],
                ),
                self.v_registers@[FLAG_REGISTER as int] == 0
                    || self.v_registers@[FLAG_REGISTER as int] == 1,
                bus.mem() == mem0,
                bus.keys() == keys0,
                draw_mem_ok(i0 as int, y_coord as int, n as int),
                plot_rows(
                    bus.disp(),
                    mem0,
                    i0 as int,
                    x_coord as int,
                    y_coord as int,
                    n as int,
                    row as int,
                ).0 == target.0,
                (self.v_registers@[FLAG_REGISTER as int] == 1 || plot_rows(
                    bus.disp(),
                    mem0,
                    i0 as int,
                    x_coord as int,
                    y_coord as int,
                    n as int,
                    row as int,
                ).1) == target.1,
            decreases n - row,
        {
            let current_y = y_coord + row;
            let sprite_row = bus.memory[self.i as usize + row as usize];

            let ghost d_row = bus.disp();
            let ghost vf_row = self.v_registers@[FLAG_REGISTER as int];
            let ghost row_target = plot_bits(
                d_row,
                sprite_row,
                x_coord as int,
                current_y as int,
                0,
            );

            let mut bit_idx: u8 = 0;
            while bit_idx < 8 && x_coord + bit_idx < SCREEN_WIDTH as u8
                invariant
                    self.wf(),
                    bus.wf(),
                    bit_idx <= 8,
                    x_coord < SCREEN_WIDTH,
                    current_y < SCREEN_HEIGHT,
                    self.i == i0,
                    self.pc == pc0,
                    self.sp == sp0,
                    self.stack@ == stack0,
                    self.delay_timer == dt0,
                    self.sound_timer == st0,
                    v_orig.len() == REGISTER_COUNT,
                    self.v_registers@ == v_orig.update(
                        FLAG_REGISTER as int,
                        self.v_registers@[FLAG_REGISTER as int],
                    ),
                    self.v_registers@[FLAG_REGISTER as int] == 0
                        || self.v_registers@[FLAG_REGISTER as int] == 1,
                    vf_row == 1 ==> self.v_registers@[FLAG_REGISTER as int] == 1,
                    bus.mem() == mem0,
                    bus.keys() == keys0,
                    row_target == plot_bits(
                        d_row,
                        sprite_row,
                        x_coord as int,
                        current_y as int,
                        0,
                    ),
                    plot_bits(
                        bus.disp(),
                        sprite_row,
                        x_coord as int,
                        current_y as int,
                        bit_idx as int,
                    ).0 == row_target.0,
                    (self.v_registers@[FLAG_REGISTER as int] == 1 || plot_bits(
                        bus.disp(),
                        sprite_row,
                        x_coord as int,
                        current_y as int,
                        bit_idx as int,
                    ).1) == (vf_row == 1 || row_target.1),
                decreases 8 - bit_idx,
            {
                let current_x = x_coord + bit_idx;

                let bit = (sprite_row >> (7 - bit_idx)) & 1;
                proof {
                    lemma_sprite_bit_shift(sprite_row, bit_idx);
                }

                if bit == 1 && bus.write_pixel(current_x, current_y, 1) {
                    self.v_registers.set(FLAG_REGISTER, 1);
                    proof {
                        assert(self.v_registers@ =~= v_orig.update(FLAG_REGISTER as int, 1u8));
                    }
                }
                bit_idx = bit_idx + 1;
            }
            row = row + 1;
        }
    }

    /// Decodes `opcode` and executes it against this CPU and the bus,
    /// returning whether the display changed and a redraw is warranted. The
    /// step taken is exactly `step_spec`; RAM and the keypad are never
    /// written. An opcode outside the decode table is fatal: the engine has
    /// no continuation for it and the driver must refuse it before calling.
    pub fn execute(&mut self, opcode: u16, bus: &mut Bus) -> (redraw: bool)
        requires
            old(self).wf(),
            old(bus).wf(),
            spec_decode(opcode) is Some,
            step_enabled(*old(self), spec_decode(opcode)->Some_0),
        ensures
            final(self).wf(),
            final(bus).wf(),
            final(bus).mem() == old(bus).mem(),
            final(bus).keys() == old(bus).keys(),
            step_spec(
                *old(self),
                old(bus).mem(),
                old(bus).disp(),
                spec_decode(opcode)->Some_0,
                *final(self),
                final(bus).disp(),
                redraw,
            ),
    {
        let mut should_redraw = false;
        proof {
            lemma_decode_field_bounds(opcode);
        }
        let instruction = match decode(opcode) {
            Some(instruction) => instruction,
            None => vstd::pervasive::unreached(),
        };

        match instruction {
            Instruction::Cls => {
                self.clear_screen(bus);
                should_redraw = true;
            },
            Instruction::Ret => {
                self.pc = self.stack[self.sp as usize];
                self.sp = self.sp - 1;
            },
            Instruction::Jump(nnn) => {
                self.pc = nnn;
            },
            Instruction::Call(nnn) => {
                self.sp = self.sp + 1;
                self.stack.set(self.sp as usize, self.pc);
                self.pc = nnn;
            },
            Instruction::SkipEq(x, kk) => {
                if self.v_registers[x as usize] == kk {
                    self.pc = self.pc + 2;
                }
            },
            Instruction::SkipNotEq(x, kk) => {
                if self.v_registers[x as usize] != kk {
                    self.pc = self.pc + 2;
                }
            },
            Instruction::SkipRegEq(x, y) => {
                if self.v_registers[x as usize] == self.v_registers[y as usize] {
                    self.pc = self.pc + 2;
                }
            },
            Instruction::Load(x, kk) => {
                self.v_registers.set(x as usize, kk);
            },
            Instruction::Add(x, kk) => {
                let vx = self.v_registers[x as usize];
                self.v_registers.set(x as usize, vx.wrapping_add(kk));
            },
            Instruction::LoadReg(x, y) => {
                let vy = self.v_registers[y as usize];
                self.v_registers.set(x as usize, vy);
            },
            Instruction::Or(x, y) => {
                let vx = self.v_registers[x as usize];
                let vy = self.v_registers[y as usize];
                self.v_registers.set(x as usize, vx | vy);
            },
            Instruction::And(x, y) => {
                let vx = self.v_registers[x as usize];
                let vy = self.v_registers[y as usize];
                self.v_registers.set(x as usize, vx & vy);
            },
            Instruction::Xor(x, y) => {
                let vx = self.v_registers[x as usize];
                let vy = self.v_registers[y as usize];
                self.v_registers.set(x as usize, vx ^ vy);
            },
            Instruction::AddReg(x, y) => {
                let result: u16 = self.v_registers[x as usize] as u16 + self.v_registers[y
                    as usize] as u16;
                let carry: u8 = if result > 0xFF {
                    1
                } else {
                    0
                };
                proof {
                    assert(result as u8 == result % 256) by (bit_vector);
                }
                self.v_registers.set(x as usize, result as u8);
                self.v_registers.set(FLAG_REGISTER, carry);
            },
            Instruction::SubReg(x, y) => {
                let vx = self.v_registers[x as usize];
                let vy = self.v_registers[y as usize];
                let result = vx.wrapping_sub(vy);
                let carry: u8 = if vx >= vy {
                    1
                } else {
                    0
                };
                self.v_registers.set(x as usize, result);
                self.v_registers.set(FLAG_REGISTER, carry);
            },
            Instruction::Shr(x, _y) => {
                let vx = self.v_registers[x as usize];
                proof {
                    assert(vx >> 1u8 == vx / 2 && vx & 1 == vx % 2) by (bit_vector);
                }
                self.v_registers.set(x as usize, vx >> 1);
                self.v_registers.set(FLAG_REGISTER, vx & 1);
            },
            Instruction::LoadI(nnn) => {
                self.i = nnn;
            },
            Instruction::Draw(x, y, n) => {
                self.draw_sprite(x, y, n, bus);
                should_redraw = true;
            },
            _ => (),
        }

        should_redraw
    }

    /// Steps the delay and sound timers down by one, stopping at zero; the
    /// driver calls this once per frame.
    pub fn decrease_timers(&mut self)
        ensures
            final(self).v_registers@ == old(self).v_registers@,
            final(self).pc == old(self).pc,
            final(self).i == old(self).i,
            final(self).stack@ == old(self).stack@,
            final(self).sp == old(self).sp,
            final(self).delay_timer == (if old(self).delay_timer > 0 {
                (old(self).delay_timer - 1) as u8
            } else {
                0u8
            }),
            final(self).sound_timer == (if old(self).sound_timer > 0 {
                (old(self).sound_timer - 1) as u8
            } else {
                0u8
            }),
    {
        if self.delay_timer > 0 {
            self.delay_timer = self.delay_timer - 1;
        }
        if self.sound_timer > 0 {
            self.sound_timer = self.sound_timer - 1;
        }
    }
}

/// A freshly constructed CPU, identical to `Cpu::new()`.
impl Default for Cpu {
    fn default() -> (c: Self)
        ensures
            c.wf(),
            c.pc == ROM_START,
            c.i == 0,
            c.delay_timer == 0,
            c.sound_timer == 0,
            c.sp == 0,
            forall|j: int| 0 <= j < REGISTER_COUNT ==> c.v_registers@[j] == 0,
            forall|j: int| 0 <= j < STACK_DEPTH ==> c.stack@[j] == 0,
    {
        Cpu::new()
    }
}


/// Add-immediate wraps on overflow and never touches the flags register: for
/// any executed `Add` whose destination is not VF itself, the destination
/// holds the wrapped sum and VF is exactly what it was before.
pub proof fn lemma_add_immediate_wraps(
    pre: Cpu,
    mem: Seq<u8>,
    d0: Seq<u8>,
    post: Cpu,
    d1: Seq<u8>,
    redraw: bool,
    x: u8,
    kk: u8,
)
    requires
        pre.wf(),
        x < 16,
        x != FLAG_REGISTER,
        step_spec(pre, mem, d0, Instruction::Add(x, kk), post, d1, redraw),
    ensures
        post.v_registers@[x as int] == (pre.v_registers@[x as int] + kk) % 256,
        post.v_registers@[FLAG_REGISTER as int] == pre.v_registers@[FLAG_REGISTER as int],
{
}

/// Register-add-with-carry stores the wrapped sum and sets VF to 1 exactly
/// when the raw sum exceeds 255, and to 0 otherwise, whatever VF held before.
pub proof fn lemma_add_with_carry(
    pre: Cpu,
    mem: Seq<u8>,
    d0: Seq<u8>,
    post: Cpu,
    d1: Seq<u8>,
    redraw: bool,
    x: u8,
    y: u8,
)
    requires
        pre.wf(),
        x < 16,
        y < 16,
        step_spec(pre, mem, d0, Instruction::AddReg(x, y), post, d1, redraw),
    ensures
        post.v_registers@[FLAG_REGISTER as int] == (if pre.v_registers@[x as int]
            + pre.v_registers@[y as int] > 255 {
            1u8
        } else {
            0u8
        }),
        x != FLAG_REGISTER ==> post.v_registers@[x as int] == (pre.v_registers@[x as int]
            + pre.v_registers@[y as int]) % 256,
{
}

/// Across two consecutive register-adds, the carry flag tracks each raw sum:
/// it flips back to 0 after a non-overflowing add that follows an overflowing
/// one.
pub proof fn lemma_add_carry_flips_back(
    c0: Cpu,
    mem: Seq<u8>,
    d0: Seq<u8>,
    c1: Cpu,
    d1: Seq<u8>,
    r1: bool,
    c2: Cpu,
    d2: Seq<u8>,
    r2: bool,
    x: u8,
    y: u8,
)
    requires
        c0.wf(),
        x < 16,
        y < 16,
        step_spec(c0, mem, d0, Instruction::AddReg(x, y), c1, d1, r1),
        step_spec(c1, mem, d1, Instruction::AddReg(x, y), c2, d2, r2),
        c0.v_registers@[x as int] + c0.v_registers@[y as int] > 255,
        c1.v_registers@[x as int] + c1.v_registers@[y as int] <= 255,
    ensures
        c1.v_registers@[FLAG_REGISTER as int] == 1,
        c2.v_registers@[FLAG_REGISTER as int] == 0,
{
}

/// Register-subtract-with-borrow stores the wrapping difference and sets VF
/// to 1 exactly when the minuend is at least the subtrahend (no borrow), and
/// to 0 otherwise; on borrow the stored result is the two's-complement
/// wrapped underflow value.
pub proof fn lemma_sub_with_borrow(
    pre: Cpu,
    mem: Seq<u8>,
    d0: Seq<u8>,
    post: Cpu,
    d1: Seq<u8>,
    redraw: bool,
    x: u8,
    y: u8,
)
    requires
        pre.wf(),
        x < 16,
        y < 16,
        step_spec(pre, mem, d0, Instruction::SubReg(x, y), post, d1, redraw),
    ensures
        post.v_registers@[FLAG_REGISTER as int] == (if pre.v_registers@[x as int]
            >= pre.v_registers@[y as int] {
            1u8
        } else {
            0u8
        }),
        x != FLAG_REGISTER && pre.v_registers@[x as int] >= pre.v_registers@[y as int]
            ==> post.v_registers@[x as int] == pre.v_registers@[x as int] - pre.v_registers@[y
            as int],
        x != FLAG_REGISTER && pre.v_registers@[x as int] < pre.v_registers@[y as int]
            ==> post.v_registers@[x as int] == pre.v_registers@[x as int] - pre.v_registers@[y
            as int] + 256,
{
}

/// Call/Return round-trip: a call pushes the pre-call program counter and
/// jumps, and a following return restores the program counter to exactly the
/// pushed value and hands back the stack pointer.
pub proof fn lemma_call_ret_round_trip(
    c0: Cpu,
    mem: Seq<u8>,
    d0: Seq<u8>,
    c1: Cpu,
    d1: Seq<u8>,
    r1: bool,
    c2: Cpu,
    d2: Seq<u8>,
    r2: bool,
    nnn: u16,
)
    requires
        c0.wf(),
        c0.sp < STACK_DEPTH - 1,
        step_spec(c0, mem, d0, Instruction::Call(nnn), c1, d1, r1),
        step_spec(c1, mem, d1, Instruction::Ret, c2, d2, r2),
    ensures
        c1.pc == nnn,
        c1.sp == c0.sp + 1,
        c1.stack@[c1.sp as int] == c0.pc,
        c2.pc == c0.pc,
        c2.sp == c0.sp,
{
}

/// Drawing the same sprite twice at the same location returns every pixel to
/// its pre-draw state (XOR plotting is an involution). The draw coordinates
/// must not come from VF, which the first draw overwrites with the collision
/// flag.
pub proof fn lemma_draw_twice_restores_display(
    c0: Cpu,
    mem: Seq<u8>,
    d0: Seq<u8>,
    c1: Cpu,
    d1: Seq<u8>,
    r1: bool,
    c2: Cpu,
    d2: Seq<u8>,
    r2: bool,
    x: u8,
    y: u8,
    n: u8,
)
    requires
        c0.wf(),
        x < 16,
        y < 16,
        x != FLAG_REGISTER,
        y != FLAG_REGISTER,
        d0.len() == SCREEN_WIDTH * SCREEN_HEIGHT,
        forall|p: int| 0 <= p < d0.len() ==> d0[p] <= 1,
        step_spec(c0, mem, d0, Instruction::Draw(x, y, n), c1, d1, r1),
        step_spec(c1, mem, d1, Instruction::Draw(x, y, n), c2, d2, r2),
    ensures
        d2 == d0,
        r1 && r2,
{
    let x0 = (c0.v_registers@[x as int] as int) % (SCREEN_WIDTH as int);
    let y0 = (c0.v_registers@[y as int] as int) % (SCREEN_HEIGHT as int);
    lemma_draw_twice_restores(d0, mem, c0.i as int, x0, y0, n as int);
}

/// If the sprite plots some pixel that is clear before the first draw, then
/// drawing it twice reports a collision on the second draw: the first draw
/// set that pixel and the second turned it off again.
pub proof fn lemma_second_draw_sets_collision_flag(
    c0: Cpu,
    mem: Seq<u8>,
    d0: Seq<u8>,
    c1: Cpu,
    d1: Seq<u8>,
    r1: bool,
    c2: Cpu,
    d2: Seq<u8>,
    r2: bool,
    x: u8,
    y: u8,
    n: u8,
    m: int,
)
    requires
        c0.wf(),
        x < 16,
        y < 16,
        x != FLAG_REGISTER,
        y != FLAG_REGISTER,
        d0.len() == SCREEN_WIDTH * SCREEN_HEIGHT,
        forall|p: int| 0 <= p < d0.len() ==> d0[p] <= 1,
        step_spec(c0, mem, d0, Instruction::Draw(x, y, n), c1, d1, r1),
        step_spec(c1, mem, d1, Instruction::Draw(x, y, n), c2, d2, r2),
        0 <= m < d0.len(),
        sprite_plotted(
            mem,
            c0.i as int,
            (c0.v_registers@[x as int] as int) % (SCREEN_WIDTH as int),
            (c0.v_registers@[y as int] as int) % (SCREEN_HEIGHT as int),
            n as int,
            0,
            m,
        ),
        d0[m] == 0,
    ensures
        c2.v_registers@[FLAG_REGISTER as int] == 1,
{
    let x0 = (c0.v_registers@[x as int] as int) % (SCREEN_WIDTH as int);
    let y0 = (c0.v_registers@[y as int] as int) % (SCREEN_HEIGHT as int);
    lemma_second_draw_collides(d0, mem, c0.i as int, x0, y0, n as int, m);
}

} // verus!
