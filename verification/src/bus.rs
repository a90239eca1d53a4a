use crate::Chip8Error;
use crate::display::Display;
use crate::display::blank_screen;
use crate::display::row_collision;
use crate::display::row_screen;
use crate::display::screen_wf;
use crate::keyboard::Keyboard;
use crate::ram::Ram;
use crate::ram::ram_init;
use vstd::prelude::*;

verus! {

/// The mediated state behind the bus: memory bytes, screen cells, input
/// snapshot and the countdown timer.
#[verifier::ext_equal]
pub ghost struct BusView {
    pub mem: Seq<u8>,
    pub screen: Seq<u8>,
    pub key: Option<u8>,
    pub timer: u8,
}

/// A countdown timer value after one tick: decremented by exactly 1 if
/// nonzero, saturating at 0.
pub open spec fn tick_timer(t: u8) -> u8 {
    if t > 0 {
        (t - 1) as u8
    } else {
        0u8
    }
}

/// Composes memory, display, input state and the countdown timer behind
/// one set of mediated operations; every method forwards to exactly one
/// sub-component, and no opcode-specific logic lives here.
pub struct Bus {
    display: Display,
    keyboard: Keyboard,
    ram: Ram,
    delay_timer: u8,
}

impl View for Bus {
    type V = BusView;

    closed spec fn view(&self) -> BusView {
        BusView {
            mem: self.ram@,
            screen: self.display@,
            key: self.keyboard@,
            timer: self.delay_timer,
        }
    }
}

impl Bus {
    /// Memory has one byte per address and the screen one well-formed cell
    /// per pixel.
    pub open spec fn wf(&self) -> bool {
        &&& self@.mem.len() == 4096
        &&& screen_wf(self@.screen)
    }

    /// A bus over fresh components: glyph sprites in memory, a blank
    /// screen, no key pressed, timer at zero.
    pub fn new() -> (b: Bus)
        ensures
            b.wf(),
            b@.mem == ram_init(),
            b@.screen == blank_screen(),
            b@.key == None::<u8>,
            b@.timer == 0,
    {
        Bus { display: Display::new(), keyboard: Keyboard::new(), ram: Ram::new(), delay_timer: 0 }
    }

    /// Sets every pixel of the display to off.
    pub fn display_clear(&mut self)
        requires
            old(self).wf(),
        ensures
            final(self).wf(),
            final(self)@ == (BusView { screen: blank_screen(), ..old(self)@ }),
    {
        self.display.clear();
    }

    /// XOR-draws one sprite row byte at (x, y) with wraparound and reports
    /// whether any pixel went from on to off.
    pub fn display_draw_byte(&mut self, byte: u8, x: u8, y: u8) -> (collision: bool)
        requires
            old(self).wf(),
        ensures
            final(self).wf(),
            final(self)@ == (BusView {
                screen: row_screen(old(self)@.screen, byte, x as int, y as int),
                ..old(self)@
            }),
            collision == row_collision(old(self)@.screen, byte, x as int, y as int),
    {
        self.display.draw_byte(byte, x, y)
    }

    /// The memory byte at `address`, or the out-of-bounds error.
    pub fn ram_read_byte(&self, address: u16) -> (r: Result<u8, Chip8Error>)
        requires
            self.wf(),
        ensures
            address < 4096 ==> r == Ok::<u8, Chip8Error>(self@.mem[address as int]),
            address >= 4096 ==> r == Err::<u8, Chip8Error>(Chip8Error::MemoryOutOfBounds(address)),
    {
        self.ram.read_byte(address)
    }

    /// Stores `value` at `address`, or reports the out-of-bounds error and
    /// changes nothing.
    pub fn ram_write_byte(&mut self, address: u16, value: u8) -> (r: Result<(), Chip8Error>)
        requires
            old(self).wf(),
        ensures
            final(self).wf(),
            address < 4096 ==> r == Ok::<(), Chip8Error>(()) && final(self)@ == (BusView {
                mem: old(self)@.mem.update(address as int, value),
                ..old(self)@
            }),
            address >= 4096 ==> r == Err::<(), Chip8Error>(Chip8Error::MemoryOutOfBounds(address))
                && final(self)@ == old(self)@,
    {
        self.ram.write_byte(address, value)
    }

    /// Whether the key with code `key_code` is currently pressed.
    pub fn key_pressed(&self, key_code: u8) -> (r: bool)
        ensures
            r == (self@.key == Some(key_code)),
    {
        self.keyboard.key_pressed(key_code)
    }

    /// The key currently recorded as pressed, if any.
    pub fn get_key_pressed(&self) -> (r: Option<u8>)
        ensures
            r == self@.key,
    {
        self.keyboard.get_key_pressed()
    }

    /// Records which key is down, or `None` for all keys released.
    pub fn set_key_pressed(&mut self, key: Option<u8>)
        requires
            old(self).wf(),
        ensures
            final(self).wf(),
            final(self)@ == (BusView { key, ..old(self)@ }),
    {
        self.keyboard.set_key_pressed(key);
    }

    /// Sets the countdown timer.
    pub fn set_delay_timer(&mut self, value: u8)
        requires
            old(self).wf(),
        ensures
            final(self).wf(),
            final(self)@ == (BusView { timer: value, ..old(self)@ }),
    {
        self.delay_timer = value;
    }

    /// One timer tick: decrements by exactly 1 if nonzero, saturating at 0.
    pub fn tick(&mut self)
        requires
            old(self).wf(),
        ensures
            final(self).wf(),
            final(self)@ == (BusView { timer: tick_timer(old(self)@.timer), ..old(self)@ }),
    {
        if self.delay_timer > 0 {
            self.delay_timer = self.delay_timer - 1;
        }
    }

    /// The current countdown timer value.
    pub fn get_delay_timer(&self) -> (r: u8)
        ensures
            r == self@.timer,
    {
        self.delay_timer
    }

    /// The flat pixel buffer of the display, row-major, one cell per pixel.
    pub fn get_display_buffer(&self) -> (buffer: &Vec<u8>)
        ensures
            buffer@ == self@.screen,
    {
        self.display.get_display_buffer()
    }
}

} // verus!
