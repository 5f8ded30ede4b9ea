//! The memory bus: RAM with the built-in font, the monochrome display
//! buffer, and the 16-key keypad, with read/write primitives for each.
use vstd::prelude::*;

verus! {

/// Bytes of addressable RAM.
pub const RAM_SIZE: u16 = 4096;

/// Base address of the built-in hexadecimal font.
pub const FONT_BASE: u16 = 0x050;

/// Address at which ROM bytes are loaded and execution starts.
pub const ROM_START: u16 = 0x200;

/// Display width in pixels.
pub const SCREEN_WIDTH: usize = 64;

/// Display height in pixels.
pub const SCREEN_HEIGHT: usize = 32;

/// Number of keypad keys.
pub const KEY_COUNT: usize = 16;

/// The 16 five-byte glyphs of the built-in font, `0` through `F`.
pub open spec fn font_seq() -> Seq<u8> {
    seq![
        0xF0u8, 0x90u8, 0x90u8, 0x90u8, 0xF0u8, // 0
        0x20u8, 0x60u8, 0x20u8, 0x20u8, 0x70u8, // 1
        0xF0u8, 0x10u8, 0xF0u8, 0x80u8, 0xF0u8, // 2
        0xF0u8, 0x10u8, 0xF0u8, 0x10u8, 0xF0u8, // 3
        0x90u8, 0x90u8, 0xF0u8, 0x10u8, 0x10u8, // 4
        0xF0u8, 0x80u8, 0xF0u8, 0x10u8, 0xF0u8, // 5
        0xF0u8, 0x80u8, 0xF0u8, 0x90u8, 0xF0u8, // 6
        0xF0u8, 0x10u8, 0x20u8, 0x40u8, 0x40u8, // 7
        0xF0u8, 0x90u8, 0xF0u8, 0x90u8, 0xF0u8, // 8
        0xF0u8, 0x90u8, 0xF0u8, 0x10u8, 0xF0u8, // 9
        0xF0u8, 0x90u8, 0xF0u8, 0x90u8, 0x90u8, // A
        0xE0u8, 0x90u8, 0xE0u8, 0x90u8, 0xE0u8, // B
        0xF0u8, 0x80u8, 0x80u8, 0x80u8, 0xF0u8, // C
        0xE0u8, 0x90u8, 0x90u8, 0x90u8, 0xE0u8, // D
        0xF0u8, 0x80u8, 0xF0u8, 0x80u8, 0xF0u8, // E
        0xF0u8, 0x80u8, 0xF0u8, 0x80u8, 0x80u8, // F
    ]
}

/// The built-in font as bytes: 5 rows for each of the 16 hexadecimal glyphs.
pub fn fontset() -> (v: Vec<u8>)
    ensures
        v@ == font_seq(),
{
    let mut v: Vec<u8> = Vec::new();
    v.push(0xF0); v.push(0x90); v.push(0x90); v.push(0x90); v.push(0xF0);
    v.push(0x20); v.push(0x60); v.push(0x20); v.push(0x20); v.push(0x70);
    v.push(0xF0); v.push(0x10); v.push(0xF0); v.push(0x80); v.push(0xF0);
    v.push(0xF0); v.push(0x10); v.push(0xF0); v.push(0x10); v.push(0xF0);
    v.push(0x90); v.push(0x90); v.push(0xF0); v.push(0x10); v.push(0x10);
    v.push(0xF0); v.push(0x80); v.push(0xF0); v.push(0x10); v.push(0xF0);
    v.push(0xF0); v.push(0x80); v.push(0xF0); v.push(0x90); v.push(0xF0);
    v.push(0xF0); v.push(0x10); v.push(0x20); v.push(0x40); v.push(0x40);
    v.push(0xF0); v.push(0x90); v.push(0xF0); v.push(0x90); v.push(0xF0);
    v.push(0xF0); v.push(0x90); v.push(0xF0); v.push(0x10); v.push(0xF0);
    v.push(0xF0); v.push(0x90); v.push(0xF0); v.push(0x90); v.push(0x90);
    v.push(0xE0); v.push(0x90); v.push(0xE0); v.push(0x90); v.push(0xE0);
    v.push(0xF0); v.push(0x80); v.push(0x80); v.push(0x80); v.push(0xF0);
    v.push(0xE0); v.push(0x90); v.push(0x90); v.push(0x90); v.push(0xE0);
    v.push(0xF0); v.push(0x80); v.push(0xF0); v.push(0x80); v.push(0xF0);
    v.push(0xF0); v.push(0x80); v.push(0xF0); v.push(0x80); v.push(0x80);
    proof {
        assert(v@ =~= font_seq());
    }
    v
}

/// XOR of two pixel bits.
pub open spec fn xor_bit(a: u8, b: u8) -> u8 {
    if a == b {
        0
    } else {
        1
    }
}

/// Flat row-major index of pixel `(x, y)`.
pub open spec fn pixel_index(x: int, y: int) -> int {
    y * (SCREEN_WIDTH as int) + x
}

/// The display: a fixed grid of single-bit pixels, owned by the bus and
/// mutated only through its pixel operations.
pub struct Display {
    pub display_buffer: Vec<u8>,
}

impl Display {
    /// Every pixel is present and holds a single bit.
    pub open spec fn wf(&self) -> bool {
        &&& self.display_buffer@.len() == SCREEN_WIDTH * SCREEN_HEIGHT
        &&& forall|p: int|
            0 <= p < self.display_buffer@.len() ==> self.display_buffer@[p] <= 1
    }
}

/// The 16 boolean key states, mutated only by explicit set operations.
pub struct Keypad {
    pub keys: Vec<bool>,
}

impl Keypad {
    /// All 16 key states are present.
    pub open spec fn wf(&self) -> bool {
        self.keys@.len() == KEY_COUNT
    }

    /// A keypad with every key released.
    pub fn new() -> (k: Keypad)
        ensures
            k.wf(),
            forall|i: int| 0 <= i < KEY_COUNT ==> !k.keys@[i],
    {
        let mut keys: Vec<bool> = Vec::new();
        let mut i: usize = 0;
        while i < KEY_COUNT
            invariant
                i <= KEY_COUNT,
                keys@.len() == i,
                forall|j: int| 0 <= j < i ==> !keys@[j],
            decreases KEY_COUNT - i,
        {
            keys.push(false);
            i = i + 1;
        }
        Keypad { keys }
    }

    /// Whether key `key` (0..16) is currently pressed.
    pub fn is_pressed(&self, key: u8) -> (r: bool)
        requires
            self.wf(),
            key < KEY_COUNT,
        ensures
            r == self.keys@[key as int],
    {
        self.keys[key as usize]
    }

    /// Records key `key` (0..16) as pressed or released.
    pub fn set_key(&mut self, key: u8, pressed: bool)
        requires
            old(self).wf(),
            key < KEY_COUNT,
        ensures
            final(self).wf(),
            final(self).keys@ == old(self).keys@.update(key as int, pressed),
    {
        self.keys.set(key as usize, pressed);
    }
}

/// The memory bus: owns RAM (with the font preloaded), the display buffer and
/// the keypad, and mediates every access the CPU makes to them.
pub struct Bus {
    pub memory: Vec<u8>,
    pub display: Display,
    pub keypad: Keypad,
}

impl Bus {
    /// RAM contents as a sequence of bytes.
    pub open spec fn mem(&self) -> Seq<u8> {
        self.memory@
    }

    /// Display contents as a sequence of pixel bits, row-major.
    pub open spec fn disp(&self) -> Seq<u8> {
        self.display.display_buffer@
    }

    /// Key states as a sequence of booleans.
    pub open spec fn keys(&self) -> Seq<bool> {
        self.keypad.keys@
    }

    /// RAM, display and keypad all have their fixed sizes and the display
    /// holds single-bit pixels.
    pub open spec fn wf(&self) -> bool {
        &&& self.mem().len() == RAM_SIZE
        &&& self.display.wf()
        &&& self.keypad.wf()
    }

    /// A bus with zeroed RAM except for the font at `FONT_BASE`, a cleared
    /// display, and no key pressed.
    pub fn new() -> (b: Bus)
        ensures
            b.wf(),
            forall|j: int|
                0 <= j < font_seq().len() ==> b.mem()[FONT_BASE + j] == font_seq()[j],
            forall|a: int|
                0 <= a < RAM_SIZE && !(FONT_BASE <= a < FONT_BASE + font_seq().len())
                    ==> b.mem()[a] == 0,
            forall|p: int| 0 <= p < b.disp().len() ==> b.disp()[p] == 0,
            forall|i: int| 0 <= i < KEY_COUNT ==> !b.keys()[i],
    {
        let mut memory: Vec<u8> = Vec::new();
        let mut a: usize = 0;
        while a < RAM_SIZE as usize
            invariant
                a <= RAM_SIZE,
                memory@.len() == a,
                forall|j: int| 0 <= j < a ==> memory@[j] == 0,
            decreases RAM_SIZE - a,
        {
            memory.push(0);
            a = a + 1;
        }
        let font = fontset();
        let mut i: usize = 0;
        while i < font.len()
            invariant
                i <= font_seq().len(),
                font@ == font_seq(),
                memory@.len() == RAM_SIZE,
                forall|j: int| 0 <= j < i ==> memory@[FONT_BASE + j] == font_seq()[j],
                forall|a: int|
                    0 <= a < RAM_SIZE && !(FONT_BASE <= a < FONT_BASE + i) ==> memory@[a] == 0,
            decreases font_seq().len() - i,
        {
            memory.set(FONT_BASE as usize + i, font[i]);
            i = i + 1;
        }
        let mut display_buffer: Vec<u8> = Vec::new();
        let mut p: usize = 0;
        while p < SCREEN_WIDTH * SCREEN_HEIGHT
            invariant
                p <= SCREEN_WIDTH * SCREEN_HEIGHT,
                display_buffer@.len() == p,
                forall|j: int| 0 <= j < p ==> display_buffer@[j] == 0,
            decreases SCREEN_WIDTH * SCREEN_HEIGHT - p,
        {
            display_buffer.push(0);
            p = p + 1;
        }
        Bus { memory, display: Display { display_buffer }, keypad: Keypad::new() }
    }

    /// Copies `rom` into RAM at `ROM_START`, all or nothing: a payload larger
    /// than the space between `ROM_START` and the end of RAM is rejected with
    /// an error and no mutation at all; otherwise the bytes land verbatim at
    /// `ROM_START` and every other byte of RAM is left untouched.
    pub fn load_rom(&mut self, rom: &[u8]) -> (r: Result<(), String>)
        requires
            old(self).wf(),
        ensures
            final(self).wf(),
            final(self).disp() == old(self).disp(),
            final(self).keys() == old(self).keys(),
            rom@.len() > RAM_SIZE - ROM_START ==> {
                &&& r matches Err(m) && m@ == "The ROM is too big"@
                &&& final(self).mem() == old(self).mem()
            },
            rom@.len() <= RAM_SIZE - ROM_START ==> {
                &&& r is Ok
                &&& forall|j: int|
                    0 <= j < rom@.len() ==> final(self).mem()[ROM_START + j] == rom@[j]
                &&& forall|a: int|
                    0 <= a < RAM_SIZE && !(ROM_START <= a < ROM_START + rom@.len())
                        ==> final(self).mem()[a] == old(self).mem()[a]
            },
    {
        let available_space = RAM_SIZE - ROM_START;
        if rom.len() > available_space as usize {
            return Err("The ROM is too big".to_string());
        }
        let mut j: usize = 0;
        while j < rom.len()
            invariant
                j <= rom@.len(),
                rom@.len() <= RAM_SIZE - ROM_START,
                self.memory@.len() == RAM_SIZE,
                self.display == old(self).display,
                self.keypad == old(self).keypad,
                forall|k: int| 0 <= k < j ==> self.memory@[ROM_START + k] == rom@[k],
                forall|a: int|
                    0 <= a < RAM_SIZE && !(ROM_START <= a < ROM_START + j)
                        ==> self.memory@[a] == old(self).memory@[a],
            decreases rom@.len() - j,
        {
            self.memory.set(ROM_START as usize + j, rom[j]);
            j = j + 1;
        }
        Ok(())
    }

    /// XORs `value` into the pixel at `(x, y)` and reports a collision: true
    /// exactly when the pixel was 1 before and 0 after. The caller is
    /// responsible for keeping `(x, y)` inside the display; the bus does not
    /// clip.
    pub fn write_pixel(&mut self, x: u8, y: u8, value: u8) -> (r: bool)
        requires
            old(self).wf(),
            x < SCREEN_WIDTH,
            y < SCREEN_HEIGHT,
            value <= 1,
        ensures
            final(self).wf(),
            final(self).mem() == old(self).mem(),
            final(self).keys() == old(self).keys(),
            final(self).disp() == old(self).disp().update(
                pixel_index(x as int, y as int),
                xor_bit(old(self).disp()[pixel_index(x as int, y as int)], value),
            ),
            r == (old(self).disp()[pixel_index(x as int, y as int)] == 1 && value == 1),
    {
        let index = (y as usize) * SCREEN_WIDTH + (x as usize);
        let old_pixel = self.display.display_buffer[index];
        let new_pixel = old_pixel ^ value;
        proof {
            let op = old_pixel;
            let v = value;
            assert(op <= 1 && v <= 1 ==> op ^ v == (if op == v { 0u8 } else { 1u8 }))
                by (bit_vector);
        }
        self.display.display_buffer.set(index, new_pixel);
        old_pixel == 1 && new_pixel == 0
    }

    /// The current bit at `(x, y)`; read-only.
    pub fn get_pixel(&self, x: usize, y: usize) -> (r: u8)
        requires
            self.wf(),
            x < SCREEN_WIDTH,
            y < SCREEN_HEIGHT,
        ensures
            r == self.disp()[pixel_index(x as int, y as int)],
    {
        let index = y * SCREEN_WIDTH + x;
        self.display.display_buffer[index]
    }

    /// Sets every pixel to 0.
    pub fn clear_display(&mut self)
        requires
            old(self).wf(),
        ensures
            final(self).wf(),
            final(self).mem() == old(self).mem(),
            final(self).keys() == old(self).keys(),
            final(self).disp().len() == old(self).disp().len(),
            forall|p: int| 0 <= p < final(self).disp().len() ==> final(self).disp()[p] == 0,
    {
        let mut p: usize = 0;
        while p < SCREEN_WIDTH * SCREEN_HEIGHT
            invariant
                p <= SCREEN_WIDTH * SCREEN_HEIGHT,
                self.display.display_buffer@.len() == SCREEN_WIDTH * SCREEN_HEIGHT,
                self.memory == old(self).memory,
                self.keypad == old(self).keypad,
                forall|j: int| 0 <= j < p ==> self.display.display_buffer@[j] == 0,
            decreases SCREEN_WIDTH * SCREEN_HEIGHT - p,
        {
            self.display.display_buffer.set(p, 0);
            p = p + 1;
        }
    }

    /// Whether key `key` (0..16) is currently pressed.
    pub fn is_key_pressed(&self, key: u8) -> (r: bool)
        requires
            self.wf(),
            key < KEY_COUNT,
        ensures
            r == self.keys()[key as int],
    {
        self.keypad.is_pressed(key)
    }

    /// Records key `key` (0..16) as pressed or released.
    pub fn set_key(&mut self, key: u8, pressed: bool)
        requires
            old(self).wf(),
            key < KEY_COUNT,
        ensures
            final(self).wf(),
            final(self).mem() == old(self).mem(),
            final(self).disp() == old(self).disp(),
            final(self).keys() == old(self).keys().update(key as int, pressed),
    {
        self.keypad.set_key(key, pressed);
    }
}

/// A freshly constructed bus, identical to `Bus::new()`.
impl Default for Bus {
    fn default() -> (b: Self)
        ensures
            b.wf(),
            forall|j: int|
                0 <= j < font_seq().len() ==> b.mem()[FONT_BASE + j] == font_seq()[j],
            forall|a: int|
                0 <= a < RAM_SIZE && !(FONT_BASE <= a < FONT_BASE + font_seq().len())
                    ==> b.mem()[a] == 0,
            forall|p: int| 0 <= p < b.disp().len() ==> b.disp()[p] == 0,
            forall|i: int| 0 <= i < KEY_COUNT ==> !b.keys()[i],
    {
        Bus::new()
    }
}

} // verus!
