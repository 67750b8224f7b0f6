//! The CHIP-8 machine state: memory, registers, call stack, timers,
//! keypad and framebuffer, together with its mathematical view [`St`]
//! and the operations that create, reset and poke it.

use vstd::prelude::*;

verus! {

/// Number of framebuffer columns.
pub const WIDTH: usize = 64;
/// Number of framebuffer rows.
pub const HEIGHT: usize = 32;
/// Size of the addressable memory in bytes.
pub const MEM_SIZE: usize = 4096;
/// First address of the program region; also the reset value of `PC`.
pub const PROGRAM_START: usize = 512;
/// Size of the program region (`0x200..=0xFFF`), the longest loadable image.
pub const PROGRAM_CAPACITY: usize = 3584;
/// Number of call-stack slots.
pub const STACK_SLOTS: usize = 16;
/// Number of general-purpose registers (and of keypad slots).
pub const NUM_REGS: usize = 16;

/// The machine state as mathematics: every field of [`Cpu`] as a sequence
/// or a scalar, so that contracts can speak of whole-state transitions.
#[verifier::ext_equal]
pub ghost struct St {
    /// 4096 bytes of addressable memory.
    pub mem: Seq<u8>,
    /// 16 return-address slots.
    pub stack: Seq<u16>,
    /// 16 general-purpose registers `V0..=VF`.
    pub v: Seq<u8>,
    /// 16 keypad slots, `true` while the key is pressed.
    pub keypad: Seq<bool>,
    /// 2048 framebuffer cells, row-major, each 0 (unlit) or 1 (lit).
    pub fb: Seq<u8>,
    /// The index register `I`.
    pub i: u16,
    /// The program counter.
    pub pc: u16,
    /// The stack pointer: the next free stack slot.
    pub sp: int,
    /// The delta timer.
    pub dt: u8,
    /// The sound timer.
    pub st: u8,
    /// Whether the cycle just executed touched the framebuffer.
    pub fb_up: bool,
}

impl St {
    /// Shape of a sound state: the fixed-size parts have their sizes, every
    /// framebuffer cell is a single bit, and the stack pointer is in range.
    pub open spec fn wf(self) -> bool {
        &&& self.mem.len() == MEM_SIZE
        &&& self.stack.len() == STACK_SLOTS
        &&& self.v.len() == NUM_REGS
        &&& self.keypad.len() == NUM_REGS
        &&& self.fb.len() == WIDTH * HEIGHT
        &&& forall|p: int| 0 <= p < self.fb.len() ==> self.fb[p] == 0 || self.fb[p] == 1
        &&& 0 <= self.sp <= STACK_SLOTS
    }

    /// The state a freshly created machine is in: font table in the low
    /// 80 bytes, everything else zeroed, `PC` at the program start.
    pub open spec fn initial() -> St {
        St {
            mem: init_mem(),
            stack: Seq::new(STACK_SLOTS as nat, |k: int| 0u16),
            v: Seq::new(NUM_REGS as nat, |k: int| 0u8),
            keypad: Seq::new(NUM_REGS as nat, |k: int| false),
            fb: Seq::new((WIDTH * HEIGHT) as nat, |p: int| 0u8),
            i: 0,
            pc: PROGRAM_START as u16,
            sp: 0,
            dt: 0,
            st: 0,
            fb_up: false,
        }
    }
}

/// The 80-byte font table: five bytes per hexadecimal glyph `0`..=`F`,
/// each byte one row of an 8-wide sprite.
pub open spec fn font_seq() -> Seq<u8> {
    seq![
        0xF0u8, 0x90, 0x90, 0x90, 0xF0, // 0
        0x20, 0x60, 0x20, 0x20, 0x70, // 1
        0xF0, 0x10, 0xF0, 0x80, 0xF0, // 2
        0xF0, 0x10, 0xF0, 0x10, 0xF0, // 3
        0x90, 0x90, 0xF0, 0x10, 0x10, // 4
        0xF0, 0x80, 0xF0, 0x10, 0xF0, // 5
        0xF0, 0x80, 0xF0, 0x90, 0xF0, // 6
        0xF0, 0x10, 0x20, 0x40, 0x40, // 7
        0xF0, 0x90, 0xF0, 0x90, 0xF0, // 8
        0xF0, 0x90, 0xF0, 0x10, 0xF0, // 9
        0xF0, 0x90, 0xF0, 0x90, 0x90, // A
        0xE0, 0x90, 0xE0, 0x90, 0xE0, // B
        0xF0, 0x80, 0x80, 0x80, 0xF0, // C
        0xE0, 0x90, 0x90, 0x90, 0xE0, // D
        0xF0, 0x80, 0xF0, 0x80, 0xF0, // E
        0xF0, 0x80, 0xF0, 0x80, 0x80, // F
    ]
}

/// Memory at creation: the font table followed by zeros.
pub open spec fn init_mem() -> Seq<u8> {
    Seq::new(MEM_SIZE as nat, |a: int| if a < 80 { font_seq()[a] } else { 0u8 })
}

/// The full mutable state of the virtual machine. The fields are public:
/// the host reads the framebuffer and its changed flag directly, and may
/// inspect the rest between cycles.
pub struct Cpu {
    /// 4096 bytes of RAM; `0x000..0x050` holds the font table.
    pub memory: Vec<u8>,
    /// 16 slots of return addresses.
    pub stack: Vec<u16>,
    /// General-purpose registers `V0..=VF`.
    pub v: Vec<u8>,
    /// The index register `I`.
    pub i: u16,
    /// The program counter.
    pub pc: u16,
    /// The stack pointer: the next free stack slot.
    pub sp: usize,
    /// Keypad slots, `true` while the key is pressed.
    pub keypad: Vec<bool>,
    /// The delta timer.
    pub dt: u8,
    /// The sound timer.
    pub st: u8,
    /// The 64x32 pixel grid, row-major, one byte per cell, 0 or 1.
    pub frame_buffer: Vec<u8>,
    /// True only when the cycle just executed drew or cleared the screen.
    pub frame_buffer_updated: bool,
}

impl View for Cpu {
    type V = St;

    open spec fn view(&self) -> St {
        St {
            mem: self.memory@,
            stack: self.stack@,
            v: self.v@,
            keypad: self.keypad@,
            fb: self.frame_buffer@,
            i: self.i,
            pc: self.pc,
            sp: self.sp as int,
            dt: self.dt,
            st: self.st,
            fb_up: self.frame_buffer_updated,
        }
    }
}

impl Cpu {
    /// A well-formed machine: its view is a sound state.
    pub open spec fn wf(self) -> bool {
        self@.wf()
    }
}

/// A vector of `n` zero bytes.
pub(crate) fn zeroed_bytes(n: usize) -> (r: Vec<u8>)
    ensures
        r@ == Seq::new(n as nat, |k: int| 0u8),
{
    let mut r: Vec<u8> = Vec::new();
    while r.len() < n
        invariant
            r@.len() <= n,
            forall|k: int| 0 <= k < r@.len() ==> r@[k] == 0u8,
        decreases n - r@.len(),
    {
        r.push(0u8);
    }
    proof {
        assert(r@ =~= Seq::new(n as nat, |k: int| 0u8));
    }
    r
}

/// A vector of `n` zero words.
pub(crate) fn zeroed_words(n: usize) -> (r: Vec<u16>)
    ensures
        r@ == Seq::new(n as nat, |k: int| 0u16),
{
    let mut r: Vec<u16> = Vec::new();
    while r.len() < n
        invariant
            r@.len() <= n,
            forall|k: int| 0 <= k < r@.len() ==> r@[k] == 0u16,
        decreases n - r@.len(),
    {
        r.push(0u16);
    }
    proof {
        assert(r@ =~= Seq::new(n as nat, |k: int| 0u16));
    }
    r
}

/// A vector of `n` released key slots.
pub(crate) fn released_keys(n: usize) -> (r: Vec<bool>)
    ensures
        r@ == Seq::new(n as nat, |k: int| false),
{
    let mut r: Vec<bool> = Vec::new();
    while r.len() < n
        invariant
            r@.len() <= n,
            forall|k: int| 0 <= k < r@.len() ==> r@[k] == false,
        decreases n - r@.len(),
    {
        r.push(false);
    }
    proof {
        assert(r@ =~= Seq::new(n as nat, |k: int| false));
    }
    r
}

/// The font table as a vector, for installing into memory.
fn font_bytes() -> (r: Vec<u8>)
    ensures
        r@ == font_seq(),
{
    let mut r: Vec<u8> = Vec::new();
    r.push(0xF0); r.push(0x90); r.push(0x90); r.push(0x90); r.push(0xF0); // 0
    r.push(0x20); r.push(0x60); r.push(0x20); r.push(0x20); r.push(0x70); // 1
    r.push(0xF0); r.push(0x10); r.push(0xF0); r.push(0x80); r.push(0xF0); // 2
    r.push(0xF0); r.push(0x10); r.push(0xF0); r.push(0x10); r.push(0xF0); // 3
    r.push(0x90); r.push(0x90); r.push(0xF0); r.push(0x10); r.push(0x10); // 4
    r.push(0xF0); r.push(0x80); r.push(0xF0); r.push(0x10); r.push(0xF0); // 5
    r.push(0xF0); r.push(0x80); r.push(0xF0); r.push(0x90); r.push(0xF0); // 6
    r.push(0xF0); r.push(0x10); r.push(0x20); r.push(0x40); r.push(0x40); // 7
    r.push(0xF0); r.push(0x90); r.push(0xF0); r.push(0x90); r.push(0xF0); // 8
    r.push(0xF0); r.push(0x90); r.push(0xF0); r.push(0x10); r.push(0xF0); // 9
    r.push(0xF0); r.push(0x90); r.push(0xF0); r.push(0x90); r.push(0x90); // A
    r.push(0xE0); r.push(0x90); r.push(0xE0); r.push(0x90); r.push(0xE0); // B
    r.push(0xF0); r.push(0x80); r.push(0x80); r.push(0x80); r.push(0xF0); // C
    r.push(0xE0); r.push(0x90); r.push(0x90); r.push(0x90); r.push(0xE0); // D
    r.push(0xF0); r.push(0x80); r.push(0xF0); r.push(0x80); r.push(0xF0); // E
    r.push(0xF0); r.push(0x80); r.push(0xF0); r.push(0x80); r.push(0x80); // F
    proof {
        assert(r@ =~= font_seq());
    }
    r
}

impl Cpu {
    /// Creates a fully initialized machine: font table in the low 80 bytes
    /// of memory, every register, timer and pixel zeroed, `PC` at `0x200`.
    pub fn new() -> (r: Self)
        ensures
            r.wf(),
            r@ == St::initial(),
    {
        let font = font_bytes();
        let mut memory = zeroed_bytes(MEM_SIZE);
        let mut addr: usize = 0;
        while addr < 80
            invariant
                addr <= 80,
                font@ == font_seq(),
                memory@.len() == MEM_SIZE,
                forall|a: int| 0 <= a < addr ==> memory@[a] == font_seq()[a],
                forall|a: int| addr <= a < MEM_SIZE ==> memory@[a] == 0u8,
            decreases 80 - addr,
        {
            memory[addr] = font[addr];
            addr += 1;
        }
        let r = Cpu {
            memory,
            stack: zeroed_words(STACK_SLOTS),
            v: zeroed_bytes(NUM_REGS),
            i: 0,
            pc: PROGRAM_START as u16,
            sp: 0,
            keypad: released_keys(NUM_REGS),
            dt: 0,
            st: 0,
            frame_buffer: zeroed_bytes(WIDTH * HEIGHT),
            frame_buffer_updated: false,
        };
        proof {
            assert(r@.mem =~= init_mem());
            assert(r@ =~= St::initial());
        }
        r
    }
}

/// The index that a host keycode maps to: the conventional 16-key layout
/// (`1 2 3 4` / `Q W E R` / `A S D F` / `Z X C V`) onto keys `0`..=`F`.
pub open spec fn key_index(keycode: char) -> Option<int> {
    if keycode == 'X' {
        Some(0int)
    } else if keycode == '1' {
        Some(1int)
    } else if keycode == '2' {
        Some(2int)
    } else if keycode == '3' {
        Some(3int)
    } else if keycode == 'Q' {
        Some(4int)
    } else if keycode == 'W' {
        Some(5int)
    } else if keycode == 'E' {
        Some(6int)
    } else if keycode == 'A' {
        Some(7int)
    } else if keycode == 'S' {
        Some(8int)
    } else if keycode == 'D' {
        Some(9int)
    } else if keycode == 'Z' {
        Some(10int)
    } else if keycode == 'C' {
        Some(11int)
    } else if keycode == '4' {
        Some(12int)
    } else if keycode == 'R' {
        Some(13int)
    } else if keycode == 'F' {
        Some(14int)
    } else if keycode == 'V' {
        Some(15int)
    } else {
        None
    }
}

/// The state after loading a program image: a full machine reset — every
/// field back to its initial value, the changed flag included, the font
/// span kept exactly as it stands — and the image installed at `0x200`,
/// with any shorter remainder zeroed. The flag belongs to the executor:
/// it is true only for a cycle that just drew or cleared, never after a
/// load.
pub open spec fn load_st(s: St, rom: Seq<u8>) -> St {
    St {
        mem: Seq::new(
            MEM_SIZE as nat,
            |a: int|
                if a < 80 {
                    s.mem[a]
                } else if PROGRAM_START <= a < PROGRAM_START + rom.len() {
                    rom[a - PROGRAM_START]
                } else {
                    0u8
                },
        ),
        stack: Seq::new(STACK_SLOTS as nat, |k: int| 0u16),
        v: Seq::new(NUM_REGS as nat, |k: int| 0u8),
        keypad: Seq::new(NUM_REGS as nat, |k: int| false),
        fb: Seq::new((WIDTH * HEIGHT) as nat, |p: int| 0u8),
        i: 0,
        pc: PROGRAM_START as u16,
        sp: 0,
        dt: 0,
        st: 0,
        fb_up: false,
    }
}

impl Cpu {
    /// Resets the whole machine — every register, timer, stack slot, key
    /// and pixel, with `PC` back at `0x200` and only the font span kept —
    /// and installs the program image at `0x200`. A shorter image leaves
    /// the rest of the program region zeroed. The font bytes are kept as
    /// they stand, not rewritten: a program that overwrote them through
    /// the index register keeps the overwrite.
    pub fn load(&mut self, rom: &Vec<u8>)
        requires
            old(self).wf(),
            rom@.len() <= PROGRAM_CAPACITY,
        ensures
            final(self).wf(),
            final(self)@ == load_st(old(self)@, rom@),
    {
        let mut addr: usize = 80;
        while addr < MEM_SIZE
            invariant
                80 <= addr <= MEM_SIZE,
                self.memory@.len() == MEM_SIZE,
                self.stack == old(self).stack,
                self.v == old(self).v,
                self.keypad == old(self).keypad,
                self.frame_buffer == old(self).frame_buffer,
                self.i == old(self).i,
                self.pc == old(self).pc,
                self.sp == old(self).sp,
                self.dt == old(self).dt,
                self.st == old(self).st,
                self.frame_buffer_updated == old(self).frame_buffer_updated,
                forall|a: int| 0 <= a < 80 ==> self.memory@[a] == old(self)@.mem[a],
                forall|a: int| 80 <= a < addr ==> self.memory@[a] == 0u8,
            decreases MEM_SIZE - addr,
        {
            self.memory[addr] = 0;
            addr += 1;
        }
        let mut k: usize = 0;
        while k < rom.len()
            invariant
                k <= rom@.len(),
                rom@.len() <= PROGRAM_CAPACITY,
                self.memory@.len() == MEM_SIZE,
                self.stack == old(self).stack,
                self.v == old(self).v,
                self.keypad == old(self).keypad,
                self.frame_buffer == old(self).frame_buffer,
                self.i == old(self).i,
                self.pc == old(self).pc,
                self.sp == old(self).sp,
                self.dt == old(self).dt,
                self.st == old(self).st,
                self.frame_buffer_updated == old(self).frame_buffer_updated,
                forall|a: int| 0 <= a < 80 ==> self.memory@[a] == old(self)@.mem[a],
                forall|a: int|
                    80 <= a < MEM_SIZE && !(PROGRAM_START <= a < PROGRAM_START + k)
                        ==> self.memory@[a] == 0u8,
                forall|a: int|
                    PROGRAM_START <= a < PROGRAM_START + k ==> self.memory@[a] == rom@[a
                        - PROGRAM_START],
            decreases rom@.len() - k,
        {
            self.memory[PROGRAM_START + k] = rom[k];
            k += 1;
        }
        self.stack = zeroed_words(STACK_SLOTS);
        self.v = zeroed_bytes(NUM_REGS);
        self.keypad = released_keys(NUM_REGS);
        self.i = 0;
        self.pc = PROGRAM_START as u16;
        self.sp = 0;
        self.dt = 0;
        self.st = 0;
        self.frame_buffer = zeroed_bytes(WIDTH * HEIGHT);
        self.frame_buffer_updated = false;
        proof {
            assert(self@.mem =~= load_st(old(self)@, rom@).mem);
            assert(self@ =~= load_st(old(self)@, rom@));
        }
    }

    /// Sets or releases the one keypad slot that `keycode` maps to, via
    /// the fixed 16-entry symbol table; an unrecognized symbol changes
    /// nothing.
    pub fn update_keypad(&mut self, keycode: char, pressed: bool)
        requires
            old(self).wf(),
        ensures
            final(self).wf(),
            final(self)@ == match key_index(keycode) {
                Some(k) => (St { keypad: old(self)@.keypad.update(k, pressed), ..old(self)@ }),
                None => old(self)@,
            },
    {
        let slot: usize = match keycode {
            'X' => 0,
            '1' => 1,
            '2' => 2,
            '3' => 3,
            'Q' => 4,
            'W' => 5,
            'E' => 6,
            'A' => 7,
            'S' => 8,
            'D' => 9,
            'Z' => 10,
            'C' => 11,
            '4' => 12,
            'R' => 13,
            'F' => 14,
            'V' => 15,
            _ => {
                return ;
            },
        };
        self.keypad[slot] = pressed;
        proof {
            assert(self@ =~= (St {
                keypad: old(self)@.keypad.update(key_index(keycode)->Some_0, pressed),
                ..old(self)@
            }));
        }
    }
}

} // verus!
