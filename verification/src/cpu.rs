use crate::Chip8Error;
use crate::bus::Bus;
use crate::bus::BusView;
use crate::chip8::PROGRAM_START;
use crate::display::blank_screen;
use crate::display::screen_wf;
use crate::display::sprite_collision;
use crate::display::sprite_screen;
use crate::display::lemma_row_mod32;
use crate::display::lemma_sprite_step;
use crate::ram::first_oob;
use vstd::prelude::*;

verus! {

/// The interpreter-owned state: sixteen 8-bit general registers (register
/// 0xF is the flag register), the 16-bit address register, the program
/// counter and the call stack of return addresses.
#[verifier::ext_equal]
pub ghost struct CpuView {
    pub regs: Seq<u8>,
    pub i: u16,
    pub pc: u16,
    pub stack: Seq<u16>,
}

/// The interpreter as it starts: registers and address register zero, the
/// program counter at the program origin, the call stack empty.
pub open spec fn cpu_init() -> CpuView {
    CpuView { regs: Seq::new(16, |r: int| 0u8), i: 0, pc: PROGRAM_START, stack: Seq::empty() }
}

/// Wrapped 8-bit addition and its carry flag: the flag is 1 exactly when
/// the unsigned sum exceeds 255, and 0 otherwise.
pub open spec fn alu_add(a: u8, b: u8) -> (u8, u8) {
    (((a + b) % 256) as u8, if a + b > 255 { 1u8 } else { 0u8 })
}

/// Wrapped 8-bit subtraction and its no-borrow flag: the flag is 1 exactly
/// when no borrow occurs (first operand at least the second), 0 otherwise.
pub open spec fn alu_sub(a: u8, b: u8) -> (u8, u8) {
    (((a - b) % 256) as u8, if a >= b { 1u8 } else { 0u8 })
}

/// Addition opcode law: the result is the sum modulo 256 and the flag
/// register value is 1 exactly when the unsigned sum exceeds 255.
pub proof fn lemma_add_flag(a: u8, b: u8)
    ensures
        alu_add(a, b).0 == (a + b) % 256,
        (alu_add(a, b).1 == 1) <==> (a + b > 255),
        (alu_add(a, b).1 == 0) <==> (a + b <= 255),
{
}

/// Subtraction opcode law: the result is the difference modulo 256 and the
/// flag register value is 1 exactly when the first operand is at least the
/// second.
pub proof fn lemma_sub_flag(a: u8, b: u8)
    ensures
        alu_sub(a, b).0 == (a - b) % 256,
        (alu_sub(a, b).1 == 1) <==> (a >= b),
        (alu_sub(a, b).1 == 0) <==> (a < b),
{
}

/// Register write followed by register read returns the written value, for
/// every register index and byte value.
pub proof fn lemma_reg_write_then_read(regs: Seq<u8>, index: int, value: u8)
    requires
        regs.len() == 16,
        0 <= index < 16,
    ensures
        regs.update(index, value)[index] == value,
{
}

/// Memory after writing `cnt` bytes of `src` in ascending order starting
/// at `base`.
pub open spec fn mem_written(mem: Seq<u8>, src: Seq<u8>, base: int, cnt: int) -> Seq<u8> {
    Seq::new(mem.len(), |a: int| if base <= a < base + cnt { src[a - base] } else { mem[a] })
}

/// Registers after filling the first `cnt` of them from memory in
/// ascending order starting at `base`.
pub open spec fn regs_loaded(regs: Seq<u8>, mem: Seq<u8>, base: int, cnt: int) -> Seq<u8> {
    Seq::new(regs.len(), |r: int| if 0 <= r < cnt { mem[base + r] } else { regs[r] })
}

/// The effect of a two-operand arithmetic or shift instruction (operation
/// group 8) on the interpreter state.  The flag register is written as
/// documented per sub-opcode: carry for add, no-borrow for the subtract
/// forms, the bit shifted out for the shift forms, captured before the
/// one-bit shift is applied.
pub open spec fn exec_alu(c: CpuView, op: u16) -> Result<CpuView, Chip8Error> {
    let n = (op & 0x000F) as u8;
    let x = ((op & 0x0F00) >> 8) as u8;
    let y = ((op & 0x00F0) >> 4) as u8;
    let vx = c.regs[x as int];
    let vy = c.regs[y as int];
    let pc2 = (c.pc + 2) as u16;
    if n == 0x0 {
        Ok(CpuView { regs: c.regs.update(x as int, vy), pc: pc2, ..c })
    } else if n == 0x1 {
        Ok(CpuView { regs: c.regs.update(x as int, vx | vy), pc: pc2, ..c })
    } else if n == 0x2 {
        Ok(CpuView { regs: c.regs.update(x as int, vx & vy), pc: pc2, ..c })
    } else if n == 0x3 {
        Ok(CpuView { regs: c.regs.update(x as int, vx ^ vy), pc: pc2, ..c })
    } else if n == 0x4 {
        Ok(CpuView {
            regs: c.regs.update(x as int, alu_add(vx, vy).0).update(15, alu_add(vx, vy).1),
            pc: pc2,
            ..c
        })
    } else if n == 0x5 {
        Ok(CpuView {
            regs: c.regs.update(15, alu_sub(vx, vy).1).update(x as int, alu_sub(vx, vy).0),
            pc: pc2,
            ..c
        })
    } else if n == 0x6 {
        Ok(CpuView { regs: c.regs.update(15, vx & 1).update(x as int, vx >> 1), pc: pc2, ..c })
    } else if n == 0x7 {
        Ok(CpuView {
            regs: c.regs.update(15, alu_sub(vy, vx).1).update(x as int, alu_sub(vy, vx).0),
            pc: pc2,
            ..c
        })
    } else if n == 0xE {
        Ok(CpuView {
            regs: c.regs.update(15, (vx & 0x80) >> 7).update(x as int, vx << 1),
            pc: pc2,
            ..c
        })
    } else {
        Err(Chip8Error::UnknownOpcode(op))
    }
}

/// The effect of a timer, input, address-register or memory-block
/// instruction (operation group F) on machine state.  The blocked key-wait
/// is the one path that leaves the program counter unchanged.
pub open spec fn exec_misc(c: CpuView, b: BusView, op: u16) -> Result<
    (CpuView, BusView),
    Chip8Error,
> {
    let kk = (op & 0x00FF) as u8;
    let x = ((op & 0x0F00) >> 8) as u8;
    let vx = c.regs[x as int];
    let pc2 = (c.pc + 2) as u16;
    if kk == 0x07 {
        Ok((CpuView { regs: c.regs.update(x as int, b.timer), pc: pc2, ..c }, b))
    } else if kk == 0x0A {
        match b.key {
            Some(code) => Ok((CpuView { regs: c.regs.update(x as int, code), pc: pc2, ..c }, b)),
            None => Ok((c, b)),
        }
    } else if kk == 0x15 {
        Ok((CpuView { pc: pc2, ..c }, BusView { timer: vx, ..b }))
    } else if kk == 0x18 {
        Ok((CpuView { pc: pc2, ..c }, b))
    } else if kk == 0x1E {
        Ok((CpuView { i: ((c.i + vx) % 0x10000) as u16, pc: pc2, ..c }, b))
    } else if kk == 0x29 {
        Ok((CpuView { i: (vx * 5) as u16, pc: pc2, ..c }, b))
    } else if kk == 0x33 {
        if c.i + 2 >= 4096 {
            Err(Chip8Error::MemoryOutOfBounds(first_oob(c.i)))
        } else {
            Ok((
                CpuView { pc: pc2, ..c },
                BusView {
                    mem: b.mem.update(c.i as int, (vx / 100) as u8).update(
                        c.i as int + 1,
                        ((vx % 100) / 10) as u8,
                    ).update(c.i as int + 2, (vx % 10) as u8),
                    ..b
                },
            ))
        }
    } else if kk == 0x55 {
        if c.i + x >= 4096 {
            Err(Chip8Error::MemoryOutOfBounds(first_oob(c.i)))
        } else {
            Ok((
                CpuView { i: (c.i + x + 1) as u16, pc: pc2, ..c },
                BusView { mem: mem_written(b.mem, c.regs, c.i as int, x as int + 1), ..b },
            ))
        }
    } else if kk == 0x65 {
        if c.i + x >= 4096 {
            Err(Chip8Error::MemoryOutOfBounds(first_oob(c.i)))
        } else {
            Ok((
                CpuView {
                    regs: regs_loaded(c.regs, b.mem, c.i as int, x as int + 1),
                    i: (c.i + x + 1) as u16,
                    pc: pc2,
                    ..c
                },
                b,
            ))
        }
    } else {
        Err(Chip8Error::UnknownOpcode(op))
    }
}

/// The effect of the instruction word `op` on machine state, given the
/// random byte `rnd` drawn for the random opcode: the state after the
/// instruction, or the fatal error it raises.  Every path but the blocked
/// key-wait moves the program counter.
pub open spec fn exec_op(c: CpuView, b: BusView, op: u16, rnd: u8) -> Result<
    (CpuView, BusView),
    Chip8Error,
> {
    let nnn = op & 0x0FFF;
    let kk = (op & 0x00FF) as u8;
    let n = (op & 0x000F) as u8;
    let x = ((op & 0x0F00) >> 8) as u8;
    let y = ((op & 0x00F0) >> 4) as u8;
    let vx = c.regs[x as int];
    let vy = c.regs[y as int];
    let pc2 = (c.pc + 2) as u16;
    let pc4 = (c.pc + 4) as u16;
    let group = (op & 0xF000) >> 12;
    if group == 0x0 {
        if op == 0x00E0 {
            Ok((CpuView { pc: pc2, ..c }, BusView { screen: blank_screen(), ..b }))
        } else if op == 0x00EE {
            if c.stack.len() == 0 {
                Err(Chip8Error::StackUnderflow)
            } else {
                Ok((CpuView { pc: c.stack.last(), stack: c.stack.drop_last(), ..c }, b))
            }
        } else {
            Err(Chip8Error::UnknownOpcode(op))
        }
    } else if group == 0x1 {
        Ok((CpuView { pc: nnn, ..c }, b))
    } else if group == 0x2 {
        Ok((CpuView { stack: c.stack.push(pc2), pc: nnn, ..c }, b))
    } else if group == 0x3 {
        Ok((CpuView { pc: if vx == kk { pc4 } else { pc2 }, ..c }, b))
    } else if group == 0x4 {
        Ok((CpuView { pc: if vx != kk { pc4 } else { pc2 }, ..c }, b))
    } else if group == 0x5 {
        Ok((CpuView { pc: if vx == vy { pc4 } else { pc2 }, ..c }, b))
    } else if group == 0x6 {
        Ok((CpuView { regs: c.regs.update(x as int, kk), pc: pc2, ..c }, b))
    } else if group == 0x7 {
        Ok((CpuView { regs: c.regs.update(x as int, ((vx + kk) % 256) as u8), pc: pc2, ..c }, b))
    } else if group == 0x8 {
        match exec_alu(c, op) {
            Ok(c2) => Ok((c2, b)),
            Err(e) => Err(e),
        }
    } else if group == 0x9 {
        Ok((CpuView { pc: if vx != vy { pc4 } else { pc2 }, ..c }, b))
    } else if group == 0xA {
        Ok((CpuView { i: nnn, pc: pc2, ..c }, b))
    } else if group == 0xB {
        Ok((CpuView { pc: (nnn + c.regs[0]) as u16, ..c }, b))
    } else if group == 0xC {
        Ok((CpuView { regs: c.regs.update(x as int, rnd & kk), pc: pc2, ..c }, b))
    } else if group == 0xD {
        if n > 0 && c.i + n > 4096 {
            Err(Chip8Error::MemoryOutOfBounds(first_oob(c.i)))
        } else {
            let rows = if n == 0 {
                Seq::<u8>::empty()
            } else {
                b.mem.subrange(c.i as int, c.i as int + n as int)
            };
            let hit = sprite_collision(b.screen, rows, vx as int, vy as int);
            Ok((
                CpuView { regs: c.regs.update(15, if hit { 1u8 } else { 0u8 }), pc: pc2, ..c },
                BusView { screen: sprite_screen(b.screen, rows, vx as int, vy as int), ..b },
            ))
        }
    } else if group == 0xE {
        if kk == 0x9E {
            Ok((CpuView { pc: if b.key == Some(vx) { pc4 } else { pc2 }, ..c }, b))
        } else if kk == 0xA1 {
            Ok((CpuView { pc: if b.key != Some(vx) { pc4 } else { pc2 }, ..c }, b))
        } else {
            Err(Chip8Error::UnknownOpcode(op))
        }
    } else if group == 0xF {
        exec_misc(c, b, op)
    } else {
        Err(Chip8Error::UnknownOpcode(op))
    }
}

/// One machine step from CPU state `c` and bus state `b`: fetch the
/// big-endian instruction word at the program counter, then run it.  The
/// fetch itself fails if the program counter reaches past memory.
pub open spec fn step_spec(c: CpuView, b: BusView, rnd: u8) -> Result<
    (CpuView, BusView),
    Chip8Error,
> {
    if c.pc + 1 >= 4096 {
        Err(Chip8Error::MemoryOutOfBounds(first_oob(c.pc)))
    } else {
        let hi = b.mem[c.pc as int];
        let lo = b.mem[c.pc as int + 1];
        exec_op(c, b, ((hi as u16) << 8) | (lo as u16), rnd)
    }
}

/// How the outcome of an executed step relates the states before and after
/// it: on success the new states are exactly what `step_spec` gives; on a
/// fatal error the reported error is exactly what `step_spec` gives and
/// nothing changed.
pub open spec fn step_outcome(
    c0: CpuView,
    b0: BusView,
    c1: CpuView,
    b1: BusView,
    r: Result<(), Chip8Error>,
    rnd: u8,
) -> bool {
    match r {
        Ok(()) => step_spec(c0, b0, rnd) == Ok::<(CpuView, BusView), Chip8Error>((c1, b1)),
        Err(e) => step_spec(c0, b0, rnd) == Err::<(CpuView, BusView), Chip8Error>(e) && c1 == c0
            && b1 == b0,
    }
}

/// Relies on rand::random of the rand crate: draws a value from the thread
/// local generator.  Nothing is promised of the value.
pub assume_specification<T>[ rand::random::<T> ]() -> (r: T)
    where
        rand::distributions::Standard: rand::distributions::Distribution<T>,
;

/// Owns the register file, address register, program counter and call
/// stack; fetches one instruction via the bus each step, decodes it,
/// executes its effect and advances control flow.
pub struct Cpu {
    v: Vec<u8>,
    i: u16,
    pc: u16,
    ret_stack: Vec<u16>,
}

impl View for Cpu {
    type V = CpuView;

    closed spec fn view(&self) -> CpuView {
        CpuView { regs: self.v@, i: self.i, pc: self.pc, stack: self.ret_stack@ }
    }
}

impl Cpu {
    /// Exactly sixteen registers.
    pub open spec fn wf(&self) -> bool {
        self@.regs.len() == 16
    }

    /// A CPU in its start state.
    pub fn new() -> (c: Cpu)
        ensures
            c.wf(),
            c@ == cpu_init(),
    {
        let mut v: Vec<u8> = Vec::new();
        while v.len() < 16
            invariant
                forall|r: int| 0 <= r < v@.len() ==> v@[r] == 0,
                v@.len() <= 16,
            decreases 16 - v.len(),
        {
            v.push(0);
        }
        proof {
            assert(v@ =~= cpu_init().regs);
        }
        let c = Cpu { v, i: 0, pc: PROGRAM_START, ret_stack: Vec::new() };
        proof {
            assert(c@.stack =~= cpu_init().stack);
        }
        c
    }

    /// Stores `value` into general register `index`.
    pub fn write_reg(&mut self, index: u8, value: u8)
        requires
            old(self).wf(),
            index < 16,
        ensures
            final(self).wf(),
            final(self)@ == (CpuView {
                regs: old(self)@.regs.update(index as int, value),
                ..old(self)@
            }),
    {
        self.v[index as usize] = value;
    }

    /// The value of general register `index`.
    pub fn read_reg(&self, index: u8) -> (r: u8)
        requires
            self.wf(),
            index < 16,
        ensures
            r == self@.regs[index as int],
    {
        self.v[index as usize]
    }

    /// The program counter.
    pub fn get_pc(&self) -> (r: u16)
        ensures
            r == self@.pc,
    {
        self.pc
    }

    /// The address register.
    pub fn get_i(&self) -> (r: u16)
        ensures
            r == self@.i,
    {
        self.i
    }

    /// The call stack of return addresses, oldest first.
    pub fn get_stack(&self) -> (r: &Vec<u16>)
        ensures
            r@ == self@.stack,
    {
        &self.ret_stack
    }

    /// Reads `height` sprite rows from memory at the address register,
    /// XOR-draws them at (x, y) with wraparound, and writes the collision
    /// flag into the flag register.
    pub fn draw_sprite(&mut self, bus: &mut Bus, x: u8, y: u8, height: u8)
        requires
            old(self).wf(),
            old(bus).wf(),
            height <= 32,
            height > 0 ==> old(self)@.i + height <= 4096,
        ensures
            final(self).wf(),
            final(bus).wf(),
            ({
                let rows = if height == 0 {
                    Seq::<u8>::empty()
                } else {
                    old(bus)@.mem.subrange(
                        old(self)@.i as int,
                        old(self)@.i as int + height as int,
                    )
                };
                let hit = sprite_collision(old(bus)@.screen, rows, x as int, y as int);
                &&& final(bus)@ == (BusView {
                    screen: sprite_screen(old(bus)@.screen, rows, x as int, y as int),
                    ..old(bus)@
                })
                &&& final(self)@ == (CpuView {
                    regs: old(self)@.regs.update(15, if hit { 1u8 } else { 0u8 }),
                    ..old(self)@
                })
            }),
    {
        let ghost c0 = self@;
        let ghost b0 = bus@;
        let ghost s0 = bus@.screen;
        let ghost xi = x as int;
        let ghost yi = y as int;
        let ghost rows = if height == 0 {
            Seq::<u8>::empty()
        } else {
            b0.mem.subrange(c0.i as int, c0.i as int + height as int)
        };
        proof {
            assert(rows.len() == height as int);
            assert(bus@.screen =~= sprite_screen(s0, rows.take(0), xi, yi));
        }
        let mut vf_value: u8 = 0;
        let mut line: u8 = 0;
        while line < height
            invariant
                line <= height,
                height <= 32,
                self.wf(),
                bus.wf(),
                self@ == c0,
                height > 0 ==> c0.i + height <= 4096,
                bus@.mem == b0.mem,
                bus@.key == b0.key,
                bus@.timer == b0.timer,
                screen_wf(s0),
                s0 == b0.screen,
                xi == x as int,
                yi == y as int,
                height > 0 ==> rows == b0.mem.subrange(c0.i as int, c0.i as int + height as int),
                rows.len() == height as int,
                bus@.screen == sprite_screen(s0, rows.take(line as int), xi, yi),
                vf_value == 0 || vf_value == 1,
                (vf_value == 1) == sprite_collision(s0, rows.take(line as int), xi, yi),
            decreases height - line,
        {
            let ghost lprev = line as int;
            let ghost scur = bus@.screen;
            let addr: u16 = self.i + line as u16;
            let byte: u8 = match bus.ram_read_byte(addr) {
                Ok(v) => v,
                Err(_) => 0,
            };
            proof {
                assert(byte == rows[lprev]);
            }
            let pos_y: u16 = (y as u16 + line as u16) % 32;
            let flipped = bus.display_draw_byte(byte, x, pos_y as u8);
            if flipped {
                vf_value = 1;
            }
            line = line + 1;
            proof {
                lemma_row_mod32(scur, byte, xi, yi + lprev);
                lemma_sprite_step(s0, rows, xi, yi, lprev);
            }
        }
        proof {
            assert(rows.take(height as int) =~= rows);
        }
        self.write_reg(0xF, vf_value);
    }

    /// Runs a two-operand arithmetic or shift instruction (group 8) and
    /// advances the program counter past it.
    fn run_alu(&mut self, opcode: u16) -> (r: Result<(), Chip8Error>)
        requires
            old(self).wf(),
            old(self)@.pc + 2 < 65536,
        ensures
            final(self).wf(),
            match r {
                Ok(()) => exec_alu(old(self)@, opcode) == Ok::<CpuView, Chip8Error>(final(self)@),
                Err(e) => exec_alu(old(self)@, opcode) == Err::<CpuView, Chip8Error>(e)
                    && final(self)@ == old(self)@,
            },
    {
        let n = (opcode & 0x000F) as u8;
        let x = ((opcode & 0x0F00) >> 8) as u8;
        let y = ((opcode & 0x00F0) >> 4) as u8;
        proof {
            assert((opcode & 0x0F00) >> 8 < 16 && (opcode & 0x00F0) >> 4 < 16) by (bit_vector);
        }
        let vx = self.read_reg(x);
        let vy = self.read_reg(y);
        match n {
            // 8xy0: Vx = Vy
            0x0 => self.write_reg(x, vy),
            // 8xy1: Vx = Vx OR Vy
            0x1 => self.write_reg(x, vx | vy),
            // 8xy2: Vx = Vx AND Vy
            0x2 => self.write_reg(x, vx & vy),
            // 8xy3: Vx = Vx XOR Vy
            0x3 => self.write_reg(x, vx ^ vy),
            // 8xy4: Vx = Vx + Vy wrapped, VF = carry, always written
            0x4 => {
                let sum: u16 = vx as u16 + vy as u16;
                self.write_reg(x, (sum % 256) as u8);
                self.write_reg(0xF, if sum > 255 { 1 } else { 0 });
            },
            // 8xy5: VF = no borrow, then Vx = Vx - Vy wrapped
            0x5 => {
                self.write_reg(0xF, if vx >= vy { 1 } else { 0 });
                let diff: u16 = (vx as u16 + 256) - vy as u16;
                self.write_reg(x, (diff % 256) as u8);
            },
            // 8xy6: VF = bit shifted out, then Vx = Vx SHR 1
            0x6 => {
                self.write_reg(0xF, vx & 1);
                self.write_reg(x, vx >> 1);
            },
            // 8xy7: VF = no borrow, then Vx = Vy - Vx wrapped
            0x7 => {
                self.write_reg(0xF, if vy >= vx { 1 } else { 0 });
                let diff: u16 = (vy as u16 + 256) - vx as u16;
                self.write_reg(x, (diff % 256) as u8);
            },
            // 8xyE: VF = bit shifted out, then Vx = Vx SHL 1
            0xE => {
                self.write_reg(0xF, (vx & 0x80) >> 7);
                self.write_reg(x, vx << 1);
            },
            _ => {
                return Err(Chip8Error::UnknownOpcode(opcode));
            },
        }
        self.pc = self.pc + 2;
        Ok(())
    }

    /// Runs a timer, input, address-register or memory-block instruction
    /// (group F); every path advances the program counter except the
    /// key-wait with no key pressed.
    #[verifier::rlimit(100)]
    #[verifier::spinoff_prover]
    fn run_misc(&mut self, bus: &mut Bus, opcode: u16) -> (r: Result<(), Chip8Error>)
        requires
            old(self).wf(),
            old(bus).wf(),
            old(self)@.pc + 2 < 65536,
        ensures
            final(self).wf(),
            final(bus).wf(),
            match r {
                Ok(()) => exec_misc(old(self)@, old(bus)@, opcode) == Ok::<
                    (CpuView, BusView),
                    Chip8Error,
                >((final(self)@, final(bus)@)),
                Err(e) => exec_misc(old(self)@, old(bus)@, opcode) == Err::<
                    (CpuView, BusView),
                    Chip8Error,
                >(e) && final(self)@ == old(self)@ && final(bus)@ == old(bus)@,
            },
    {
        let ghost c0 = self@;
        let ghost b0 = bus@;
        let kk = (opcode & 0x00FF) as u8;
        let x = ((opcode & 0x0F00) >> 8) as u8;
        proof {
            assert((opcode & 0x0F00) >> 8 < 16) by (bit_vector);
        }
        let vx = self.read_reg(x);
        let mut next_pc: u16 = self.pc + 2;
        match kk {
            // Fx07: Vx = delay timer
            0x07 => {
                let t = bus.get_delay_timer();
                self.write_reg(x, t);
            },
            // Fx0A: wait for a key press, store its code in Vx; while no
            // key is pressed the program counter does not move and the
            // instruction re-runs on the next step
            0x0A => {
                match bus.get_key_pressed() {
                    Some(code) => {
                        self.write_reg(x, code);
                    },
                    None => {
                        next_pc = self.pc;
                    },
                }
            },
            // Fx15: delay timer = Vx
            0x15 => {
                bus.set_delay_timer(vx);
            },
            // Fx18: sound timer, not implemented; a no-op hook
            0x18 => {},
            // Fx1E: I = I + Vx, wrapped
            0x1E => {
                let s: u32 = self.i as u32 + vx as u32;
                self.i = (s % 65536) as u16;
            },
            // Fx29: I = location of the glyph sprite for digit Vx
            0x29 => {
                self.i = vx as u16 * 5;
            },
            // Fx33: store the BCD digits of Vx at I, I+1, I+2
            0x33 => {
                if self.i as usize + 2 >= crate::ram::MEM_SIZE {
                    let oob = if self.i >= 4096 {
                        self.i
                    } else {
                        4096
                    };
                    return Err(Chip8Error::MemoryOutOfBounds(oob));
                }
                let _ = bus.ram_write_byte(self.i, vx / 100);
                let _ = bus.ram_write_byte(self.i + 1, (vx % 100) / 10);
                let _ = bus.ram_write_byte(self.i + 2, vx % 10);
            },
            // Fx55: store V0..=Vx at I, then advance I past them
            0x55 => {
                if self.i as usize + x as usize >= crate::ram::MEM_SIZE {
                    let oob = if self.i >= 4096 {
                        self.i
                    } else {
                        4096
                    };
                    return Err(Chip8Error::MemoryOutOfBounds(oob));
                }
                let mut index: u8 = 0;
                while index < x + 1
                    invariant
                        index <= x + 1,
                        x < 16,
                        self.wf(),
                        bus.wf(),
                        self@ == c0,
                        c0.i + x < 4096,
                        bus@.key == b0.key,
                        bus@.timer == b0.timer,
                        bus@.screen == b0.screen,
                        bus@.mem == mem_written(b0.mem, c0.regs, c0.i as int, index as int),
                    decreases x + 1 - index,
                {
                    let value = self.read_reg(index);
                    let _ = bus.ram_write_byte(self.i + index as u16, value);
                    index = index + 1;
                    proof {
                        assert(bus@.mem =~= mem_written(
                            b0.mem,
                            c0.regs,
                            c0.i as int,
                            index as int,
                        ));
                    }
                }
                self.i = self.i + x as u16 + 1;
            },
            // Fx65: fill V0..=Vx from memory at I, then advance I past them
            0x65 => {
                if self.i as usize + x as usize >= crate::ram::MEM_SIZE {
                    let oob = if self.i >= 4096 {
                        self.i
                    } else {
                        4096
                    };
                    return Err(Chip8Error::MemoryOutOfBounds(oob));
                }
                let mut index: u8 = 0;
                while index < x + 1
                    invariant
                        index <= x + 1,
                        x < 16,
                        self.wf(),
                        bus.wf(),
                        bus@ == b0,
                        self@.i == c0.i,
                        self@.pc == c0.pc,
                        self@.stack == c0.stack,
                        c0.i + x < 4096,
                        c0.regs.len() == 16,
                        self@.regs == regs_loaded(c0.regs, b0.mem, c0.i as int, index as int),
                    decreases x + 1 - index,
                {
                    let value: u8 = match bus.ram_read_byte(self.i + index as u16) {
                        Ok(v) => v,
                        Err(_) => 0,
                    };
                    self.write_reg(index, value);
                    index = index + 1;
                    proof {
                        assert(self@.regs =~= regs_loaded(
                            c0.regs,
                            b0.mem,
                            c0.i as int,
                            index as int,
                        ));
                    }
                }
                self.i = self.i + x as u16 + 1;
            },
            _ => {
                return Err(Chip8Error::UnknownOpcode(opcode));
            },
        }
        self.pc = next_pc;
        Ok(())
    }

    /// Fetches, decodes and executes exactly one instruction, taking the
    /// byte `rnd` as the value drawn for the random opcode; deterministic
    /// in its arguments.  On a fatal error the machine state is unchanged.
    #[verifier::rlimit(100)]
    #[verifier::spinoff_prover]
    pub fn step_with_random(&mut self, bus: &mut Bus, rnd: u8) -> (r: Result<(), Chip8Error>)
        requires
            old(self).wf(),
            old(bus).wf(),
        ensures
            final(self).wf(),
            final(bus).wf(),
            step_outcome(old(self)@, old(bus)@, final(self)@, final(bus)@, r, rnd),
    {
        let ghost c0 = self@;
        let ghost b0 = bus@;
        let address = self.pc;

        if address as usize + 1 >= crate::ram::MEM_SIZE {
            let oob = if address >= 4096 {
                address
            } else {
                4096
            };
            return Err(Chip8Error::MemoryOutOfBounds(oob));
        }
        let hi = bus.ram_read_byte(address)? as u16;
        let lo = bus.ram_read_byte(address + 1)? as u16;
        let opcode: u16 = (hi << 8) | lo;

        let nnn = opcode & 0x0FFF;
        let kk = (opcode & 0x00FF) as u8;
        let n = (opcode & 0x000F) as u8;
        let x = ((opcode & 0x0F00) >> 8) as u8;
        let y = ((opcode & 0x00F0) >> 4) as u8;
        proof {
            assert((opcode & 0x0F00) >> 8 < 16 && (opcode & 0x00F0) >> 4 < 16 && (opcode & 0x000F)
                < 16 && (opcode & 0x0FFF) < 4096) by (bit_vector);
        }
        let vx = self.read_reg(x);
        let vy = self.read_reg(y);

        let mut next_pc: u16 = address + 2;

        let group = (opcode & 0xF000) >> 12;
        match group {
            0x0 => {
                match opcode {
                    // 00E0: clear the display
                    0x00E0 => bus.display_clear(),
                    // 00EE: return from subroutine
                    0x00EE => {
                        match self.ret_stack.pop() {
                            Some(a) => {
                                next_pc = a;
                            },
                            None => {
                                return Err(Chip8Error::StackUnderflow);
                            },
                        }
                    },
                    _ => {
                        return Err(Chip8Error::UnknownOpcode(opcode));
                    },
                }
            },
            // 1nnn: jump to nnn
            0x1 => {
                next_pc = nnn;
            },
            // 2nnn: call subroutine at nnn
            0x2 => {
                self.ret_stack.push(address + 2);
                next_pc = nnn;
            },
            // 3xkk: skip next instruction if Vx == kk
            0x3 => {
                if vx == kk {
                    next_pc = address + 4;
                }
            },
            // 4xkk: skip next instruction if Vx != kk
            0x4 => {
                if vx != kk {
                    next_pc = address + 4;
                }
            },
            // 5xy0: skip next instruction if Vx == Vy
            0x5 => {
                if vx == vy {
                    next_pc = address + 4;
                }
            },
            // 6xkk: Vx = kk
            0x6 => {
                self.write_reg(x, kk);
            },
            // 7xkk: Vx = Vx + kk wrapped, flag untouched
            0x7 => {
                let sum: u16 = vx as u16 + kk as u16;
                self.write_reg(x, (sum % 256) as u8);
            },
            // 8xyn: two-operand arithmetic and shifts
            0x8 => {
                return self.run_alu(opcode);
            },
            // 9xy0: skip next instruction if Vx != Vy
            0x9 => {
                if vx != vy {
                    next_pc = address + 4;
                }
            },
            // Annn: I = nnn
            0xA => {
                self.i = nnn;
            },
            // Bnnn: jump to nnn + V0
            0xB => {
                next_pc = nnn + self.read_reg(0x0) as u16;
            },
            // Cxkk: Vx = random byte AND kk
            0xC => {
                self.write_reg(x, rnd & kk);
            },
            // Dxyn: draw the n-byte sprite at address I at (Vx, Vy),
            // VF = collision
            0xD => {
                if n > 0 && self.i as usize + n as usize > crate::ram::MEM_SIZE {
                    let oob = if self.i >= 4096 {
                        self.i
                    } else {
                        4096
                    };
                    return Err(Chip8Error::MemoryOutOfBounds(oob));
                }
                self.draw_sprite(bus, vx, vy, n);
            },
            0xE => {
                let is_key_pressed = bus.key_pressed(vx);
                match kk {
                    // Ex9E: skip next instruction if key Vx is pressed
                    0x9E => {
                        if is_key_pressed {
                            next_pc = address + 4;
                        }
                    },
                    // ExA1: skip next instruction if key Vx is not pressed
                    0xA1 => {
                        if !is_key_pressed {
                            next_pc = address + 4;
                        }
                    },
                    _ => {
                        return Err(Chip8Error::UnknownOpcode(opcode));
                    },
                }
            },
            // Fxkk: timer, input, address register and memory blocks
            0xF => {
                return self.run_misc(bus, opcode);
            },
            _ => {
                return Err(Chip8Error::UnknownOpcode(opcode));
            },
        }

        self.pc = next_pc;
        Ok(())
    }

    /// Fetches, decodes and executes exactly one instruction, drawing the
    /// byte for the random opcode from the host's random source.
    pub fn run_instruction(&mut self, bus: &mut Bus) -> (r: Result<(), Chip8Error>)
        requires
            old(self).wf(),
            old(bus).wf(),
        ensures
            final(self).wf(),
            final(bus).wf(),
            exists|rnd: u8| step_outcome(old(self)@, old(bus)@, final(self)@, final(bus)@, r, rnd),
    {
        let rnd: u8 = rand::random();
        let r = self.step_with_random(bus, rnd);
        proof {
            assert(step_outcome(old(self)@, old(bus)@, self@, bus@, r, rnd));
        }
        r
    }
}

} // verus!
