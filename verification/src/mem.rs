//! The machine's interconnect: a fixed 4096-byte address space with
//! word/byte reads and a bounds-checked bulk write, plus the two device
//! surfaces the engine touches as instruction side effects.

use crate::display::Display;
use crate::keypad::{Keypad, KEY_COUNT};
use vstd::prelude::*;

verus! {

/// Number of bytes in the address space.
pub const RAM_SIZE: usize = 4096;

/// The address space and device surfaces shared by the engine and the
/// debug plane.
pub struct Interconnect {
    ram: Vec<u8>,
    display: Display,
    keypad: Keypad,
}

impl Interconnect {
    /// True of every value this type hands out: the region has exactly
    /// `RAM_SIZE` bytes and the surfaces are well formed.
    pub open spec fn wf(&self) -> bool {
        &&& self.ram_view().len() == RAM_SIZE
        &&& self.disp().wf()
        &&& self.kp().keys_view().len() == KEY_COUNT
    }

    /// The region's contents as a sequence of bytes.
    pub closed spec fn ram_view(&self) -> Seq<u8> {
        self.ram@
    }

    /// The output surface.
    pub closed spec fn disp(&self) -> Display {
        self.display
    }

    /// The input surface.
    pub closed spec fn kp(&self) -> Keypad {
        self.keypad
    }

    /// The output surface's pixel grid, row-major.
    pub open spec fn vram_view(&self) -> Seq<u8> {
        self.disp().vram_view()
    }

    /// How many frames the output surface has committed.
    pub open spec fn frames(&self) -> u64 {
        self.disp().frames()
    }

    /// The input surface's 16 key states.
    pub open spec fn keys_view(&self) -> Seq<bool> {
        self.kp().keys_view()
    }

    /// A zero-filled address space wired to the given surfaces.
    pub fn new(display: Display, keypad: Keypad) -> (r: Interconnect)
        requires
            display.wf(),
            keypad.keys_view().len() == KEY_COUNT,
        ensures
            r.wf(),
            r.ram_view() == Seq::<u8>::new(RAM_SIZE as nat, |a: int| 0u8),
            r.disp() == display,
            r.kp() == keypad,
    {
        let mut ram: Vec<u8> = Vec::new();
        let mut k: usize = 0;
        while k < RAM_SIZE
            invariant
                k <= RAM_SIZE,
                ram@.len() == k,
                forall|a: int| 0 <= a < k ==> ram@[a] == 0u8,
            decreases RAM_SIZE - k,
        {
            ram.push(0);
            k += 1;
        }
        proof {
            assert(ram@ =~= Seq::<u8>::new(RAM_SIZE as nat, |a: int| 0u8));
        }
        Interconnect { ram, display, keypad }
    }

    /// Exclusive access to the output surface.
    pub fn display(&mut self) -> (r: &mut Display)
        ensures
            *r == old(self).disp(),
            final(self).disp() == *final(r),
            final(self).ram_view() == old(self).ram_view(),
            final(self).kp() == old(self).kp(),
    {
        &mut self.display
    }

    /// Read access to the address space's bytes.
    pub fn ram(&self) -> (r: &Vec<u8>)
        ensures
            r@ == self.ram_view(),
    {
        &self.ram
    }

    /// A copy of `len` bytes starting at `addr`, cut off at the end of
    /// the region, for the debug plane's memory dumps.
    pub fn read_block(&self, addr: u16, len: usize) -> (r: Vec<u8>)
        requires
            self.wf(),
        ensures
            r@ == dump_spec(self.ram_view(), addr as int, len as int),
    {
        let start = addr as usize;
        let lo = if start < RAM_SIZE {
            start
        } else {
            RAM_SIZE
        };
        let hi = if len <= RAM_SIZE - lo {
            lo + len
        } else {
            RAM_SIZE
        };
        let mut out: Vec<u8> = Vec::new();
        let mut k: usize = lo;
        while k < hi
            invariant
                self.wf(),
                lo <= k <= hi <= RAM_SIZE,
                out@.len() == k - lo,
                forall|j: int| lo <= j < k ==> out@[j - lo] == self.ram_view()[j],
            decreases hi - k,
        {
            out.push(self.ram[k]);
            k += 1;
        }
        proof {
            assert(out@ =~= dump_spec(self.ram_view(), addr as int, len as int));
        }
        out
    }

    /// Whether the key at position `k` of the input surface is pressed.
    pub fn key_pressed(&self, k: usize) -> (r: bool)
        requires
            self.wf(),
            k < KEY_COUNT,
        ensures
            r == self.keys_view()[k as int],
    {
        self.keypad.is_key_pressed(k)
    }

    /// Exclusive access to the input surface.
    pub fn keypad(&mut self) -> (r: &mut Keypad)
        ensures
            *r == old(self).kp(),
            final(self).kp() == *final(r),
            final(self).ram_view() == old(self).ram_view(),
            final(self).disp() == old(self).disp(),
    {
        &mut self.keypad
    }

    /// The byte stored at `location`.
    pub fn read_byte(&self, location: u16) -> (r: u8)
        requires
            self.wf(),
            location < RAM_SIZE,
        ensures
            r == self.ram_view()[location as int],
    {
        self.ram[location as usize]
    }

    /// The big-endian 16-bit word stored at `location`: the high byte at
    /// `location`, the low byte at `location + 1`.
    pub fn read_word(&self, location: u16) -> (r: u16)
        requires
            self.wf(),
            location + 1 < RAM_SIZE,
        ensures
            r == self.ram_view()[location as int] * 256 + self.ram_view()[location as int + 1],
    {
        let hi = self.ram[location as usize];
        let lo = self.ram[location as usize + 1];
        hi as u16 * 256 + lo as u16
    }

    /// Copies `data` into the region starting at `location`. A copy that
    /// would run past the end of the region is rejected whole: nothing is
    /// written and the offending address is reported.
    pub fn write_memory(&mut self, location: u16, data: &Vec<u8>) -> (r: Result<(), crate::Fault>)
        requires
            old(self).wf(),
        ensures
            final(self).wf(),
            final(self).disp() == old(self).disp(),
            final(self).kp() == old(self).kp(),
            location + data@.len() <= RAM_SIZE ==> (r is Ok && final(self).ram_view()
                == write_block(old(self).ram_view(), location as int, data@)),
            location + data@.len() > RAM_SIZE ==> (r == Result::<(), crate::Fault>::Err(
                crate::Fault::Address { addr: location },
            ) && final(self).ram_view() == old(self).ram_view()),
    {
        let loc = location as usize;
        if loc > RAM_SIZE || data.len() > RAM_SIZE - loc {
            return Err(crate::Fault::Address { addr: location });
        }
        let mut k: usize = 0;
        while k < data.len()
            invariant
                self.wf(),
                self.display == old(self).disp(),
                self.keypad == old(self).kp(),
                k <= data@.len(),
                location + data@.len() <= RAM_SIZE,
                self.ram@.len() == RAM_SIZE,
                forall|a: int|
                    0 <= a < RAM_SIZE && !(location <= a < location + k) ==> self.ram@[a]
                        == old(self).ram_view()[a],
                forall|a: int|
                    location <= a < location + k ==> self.ram@[a] == data@[a - location],
            decreases data@.len() - k,
        {
            let idx = location as usize + k;
            self.ram[idx] = data[k];
            k += 1;
        }
        proof {
            assert(self.ram@ =~= write_block(old(self).ram_view(), location as int, data@));
        }
        Ok(())
    }
}

/// The byte range a debug memory dump returns: from `addr` to
/// `addr + len`, cut off at the end of the region.
pub open spec fn dump_spec(ram: Seq<u8>, addr: int, len: int) -> Seq<u8> {
    let lo = if addr < RAM_SIZE {
        addr
    } else {
        RAM_SIZE as int
    };
    let hi = if addr + len < RAM_SIZE {
        addr + len
    } else {
        RAM_SIZE as int
    };
    ram.subrange(lo, hi)
}

/// `base` with the bytes of `data` laid over it starting at `at`.
pub open spec fn write_block(base: Seq<u8>, at: int, data: Seq<u8>) -> Seq<u8> {
    Seq::new(base.len(), |a: int| if at <= a < at + data.len() { data[a - at] } else { base[a] })
}

} // verus!
