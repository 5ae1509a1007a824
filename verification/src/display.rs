//! The output surface: a 64x32 grid of one-bit pixels, stored row-major.
//!
//! The engine mutates the grid by exclusive-or compositing and marks a frame
//! as committed exactly once per draw instruction; whatever turns the grid
//! into pixels on a screen reads it from outside the library.

use vstd::prelude::*;

verus! {

/// Width of the pixel grid.
pub const CHIP8_WIDTH: usize = 64;

/// Height of the pixel grid.
pub const CHIP8_HEIGHT: usize = 32;

/// Number of pixels in the grid.
pub const VRAM_SIZE: usize = 2048;

/// The committed-frame count after one more commit; the count saturates
/// rather than wrap.
pub open spec fn bump_frames(f: u64) -> u64 {
    if f == u64::MAX {
        u64::MAX
    } else {
        (f + 1) as u64
    }
}

/// The 2-D binary pixel buffer, row-major: the pixel at column `x`, row `y`
/// sits at index `y * CHIP8_WIDTH + x`. Each byte is 0 or 1.
pub struct Display {
    vram: Vec<u8>,
    committed_frames: u64,
}

impl Display {
    /// True of every value this type hands out: the buffer holds exactly
    /// one byte per pixel, each 0 or 1.
    pub open spec fn wf(&self) -> bool {
        &&& self.vram_view().len() == VRAM_SIZE
        &&& forall|p: int| 0 <= p < VRAM_SIZE ==> self.vram_view()[p] <= 1
    }

    /// The pixel grid as a flat sequence, row-major.
    pub closed spec fn vram_view(&self) -> Seq<u8> {
        self.vram@
    }

    /// How many frames have been committed to the physical display so far.
    pub closed spec fn frames(&self) -> u64 {
        self.committed_frames
    }

    /// An all-dark surface with no frame committed yet.
    pub fn new() -> (r: Display)
        ensures
            r.wf(),
            r.vram_view() == Seq::<u8>::new(VRAM_SIZE as nat, |p: int| 0u8),
            r.frames() == 0,
    {
        let mut vram: Vec<u8> = Vec::new();
        let mut k: usize = 0;
        while k < VRAM_SIZE
            invariant
                k <= VRAM_SIZE,
                vram@.len() == k,
                forall|p: int| 0 <= p < k ==> vram@[p] == 0u8,
            decreases VRAM_SIZE - k,
        {
            vram.push(0);
            k += 1;
        }
        proof {
            assert(vram@ =~= Seq::<u8>::new(VRAM_SIZE as nat, |p: int| 0u8));
        }
        Display { vram, committed_frames: 0 }
    }

    /// Read access to the pixel grid for the rendering collaborator.
    pub fn vram(&self) -> (r: &Vec<u8>)
        ensures
            r@ == self.vram_view(),
    {
        &self.vram
    }

    /// The pixel at column `x`, row `y`.
    pub fn pixel(&self, x: usize, y: usize) -> (r: u8)
        requires
            self.wf(),
            x < CHIP8_WIDTH,
            y < CHIP8_HEIGHT,
        ensures
            r == self.vram_view()[y * CHIP8_WIDTH + x],
    {
        self.vram[y * CHIP8_WIDTH + x]
    }

    /// Exclusive-ors the pixel at column `x`, row `y` with 1 and reports
    /// whether the toggle turned a previously-set pixel off.
    pub fn xor_pixel(&mut self, x: usize, y: usize) -> (collision: bool)
        requires
            old(self).wf(),
            x < CHIP8_WIDTH,
            y < CHIP8_HEIGHT,
        ensures
            final(self).wf(),
            final(self).vram_view() == old(self).vram_view().update(
                (y * CHIP8_WIDTH + x) as int,
                (1 - old(self).vram_view()[y * CHIP8_WIDTH + x]) as u8,
            ),
            collision == (old(self).vram_view()[y * CHIP8_WIDTH + x] == 1),
            final(self).frames() == old(self).frames(),
    {
        let p = y * CHIP8_WIDTH + x;
        let was = self.vram[p];
        self.vram[p] = 1 - was;
        was == 1
    }

    /// Turns every pixel off. The cleared surface is not itself a committed
    /// frame; the next draw commits one.
    pub fn clear(&mut self)
        requires
            old(self).wf(),
        ensures
            final(self).wf(),
            final(self).vram_view() == Seq::<u8>::new(VRAM_SIZE as nat, |p: int| 0u8),
            final(self).frames() == old(self).frames(),
    {
        let mut k: usize = 0;
        while k < VRAM_SIZE
            invariant
                k <= VRAM_SIZE,
                self.vram@.len() == VRAM_SIZE,
                self.committed_frames == old(self).frames(),
                forall|p: int| 0 <= p < k ==> self.vram@[p] == 0u8,
            decreases VRAM_SIZE - k,
        {
            self.vram[k] = 0;
            k += 1;
        }
        proof {
            assert(self.vram@ =~= Seq::<u8>::new(VRAM_SIZE as nat, |p: int| 0u8));
        }
    }

    /// Marks the current grid as committed to the physical display. The
    /// engine calls this exactly once per draw instruction; the rendering
    /// collaborator watches `frame_count` to learn of it.
    pub fn commit_frame(&mut self)
        requires
            old(self).wf(),
        ensures
            final(self).wf(),
            final(self).vram_view() == old(self).vram_view(),
            final(self).frames() == bump_frames(old(self).frames()),
    {
        if self.committed_frames < u64::MAX {
            self.committed_frames = self.committed_frames + 1;
        }
    }

    /// How many frames have been committed, for the rendering collaborator.
    pub fn frame_count(&self) -> (r: u64)
        ensures
            r == self.frames(),
    {
        self.committed_frames
    }
}

} // verus!
