use crate::Chip8Error;
use crate::bus::Bus;
use crate::bus::BusView;
use crate::bus::tick_timer;
use crate::cpu::Cpu;
use crate::cpu::CpuView;
use crate::cpu::cpu_init;
use crate::cpu::mem_written;
use crate::cpu::step_outcome;
use crate::display::blank_screen;
use crate::display::screen_wf;
use crate::ram::ram_init;
use vstd::prelude::*;

verus! {

/// The fixed memory address at which loaded programs begin execution.
pub const PROGRAM_START: u16 = 0x200;

/// A bus state after the timer tick that opens each machine step.
pub open spec fn ticked(b: BusView) -> BusView {
    BusView { timer: tick_timer(b.timer), ..b }
}

/// The whole machine: it owns the bus and the interpreter and exposes
/// loading a program image, advancing one step, reading the framebuffer
/// and setting the input state.
pub struct Chip8 {
    bus: Bus,
    cpu: Cpu,
}

impl View for Chip8 {
    type V = (CpuView, BusView);

    closed spec fn view(&self) -> (CpuView, BusView) {
        (self.cpu@, self.bus@)
    }
}

impl Chip8 {
    /// The interpreter has its sixteen registers and the bus its full
    /// memory and a well-formed screen.
    pub open spec fn wf(&self) -> bool {
        &&& self@.0.regs.len() == 16
        &&& self@.1.mem.len() == 4096
        &&& screen_wf(self@.1.screen)
    }

    /// A machine in its start state.
    pub fn new() -> (m: Chip8)
        ensures
            m.wf(),
            m@.0 == cpu_init(),
            m@.1 == (BusView {
                mem: ram_init(),
                screen: blank_screen(),
                key: None::<u8>,
                timer: 0,
            }),
    {
        Chip8 { bus: Bus::new(), cpu: Cpu::new() }
    }

    /// Places the program image into memory starting at the program
    /// origin, or reports the out-of-bounds error and changes nothing if
    /// the image exceeds memory size minus the origin.
    pub fn load_rom(&mut self, data: &Vec<u8>) -> (r: Result<(), Chip8Error>)
        requires
            old(self).wf(),
        ensures
            final(self).wf(),
            0x200 + data@.len() <= 4096 ==> r == Ok::<(), Chip8Error>(()) && final(self)@ == ((
                old(self)@.0,
                BusView {
                    mem: mem_written(old(self)@.1.mem, data@, 0x200, data@.len() as int),
                    ..old(self)@.1
                },
            )),
            0x200 + data@.len() > 4096 ==> r == Err::<(), Chip8Error>(
                Chip8Error::MemoryOutOfBounds(4096),
            ) && final(self)@ == old(self)@,
    {
        let ghost c0 = self@.0;
        let ghost b0 = self@.1;
        if data.len() > 4096 - 0x200 {
            return Err(Chip8Error::MemoryOutOfBounds(4096));
        }
        let mut pos: usize = 0;
        while pos < data.len()
            invariant
                pos <= data@.len(),
                0x200 + data@.len() <= 4096,
                self.wf(),
                self@.0 == c0,
                self@.1.screen == b0.screen,
                self@.1.key == b0.key,
                self@.1.timer == b0.timer,
                self@.1.mem == mem_written(b0.mem, data@, 0x200, pos as int),
            decreases data@.len() - pos,
        {
            let address = PROGRAM_START + pos as u16;
            let _ = self.bus.ram_write_byte(address, data[pos]);
            pos = pos + 1;
            proof {
                assert(self@.1.mem =~= mem_written(b0.mem, data@, 0x200, pos as int));
            }
        }
        Ok(())
    }

    /// One machine step: the timer ticks once, then the interpreter
    /// fetches, decodes and executes exactly one instruction.
    pub fn run_instruction(&mut self) -> (r: Result<(), Chip8Error>)
        requires
            old(self).wf(),
        ensures
            final(self).wf(),
            exists|rnd: u8|
                step_outcome(old(self)@.0, ticked(old(self)@.1), final(self)@.0, final(self)@.1, r, rnd),
    {
        self.bus.tick();
        proof {
            assert(self.bus@ == ticked(old(self)@.1));
        }
        let ghost bt = self.bus@;
        let r = self.cpu.run_instruction(&mut self.bus);
        proof {
            let rnd = choose|rnd: u8|
                step_outcome(old(self)@.0, bt, self.cpu@, self.bus@, r, rnd);
            assert(step_outcome(
                old(self)@.0,
                ticked(old(self)@.1),
                final(self)@.0,
                final(self)@.1,
                r,
                rnd,
            ));
        }
        r
    }

    /// The flat pixel buffer of the display, row-major, one cell per pixel.
    pub fn get_display_buffer(&self) -> (buffer: &Vec<u8>)
        ensures
            buffer@ == self@.1.screen,
    {
        self.bus.get_display_buffer()
    }

    /// Records which key is down, or `None` for all keys released.
    pub fn set_key_pressed(&mut self, key: Option<u8>)
        requires
            old(self).wf(),
        ensures
            final(self).wf(),
            final(self)@ == ((old(self)@.0, BusView { key, ..old(self)@.1 })),
    {
        self.bus.set_key_pressed(key);
    }

    /// Read-only access to the interpreter state, for inspection.
    pub fn cpu(&self) -> (c: &Cpu)
        ensures
            c@ == self@.0,
    {
        &self.cpu
    }

    /// Read-only access to the bus state, for inspection.
    pub fn bus(&self) -> (b: &Bus)
        ensures
            b@ == self@.1,
    {
        &self.bus
    }
}

} // verus!
