//! Frame cycling for a sprite animation.
//!
//! A basket holds an ordered sequence of frame texture handles and cycles
//! through them by elapsed time and a fixed frames-per-second rate. Elapsed
//! time is counted in milliseconds.

use vstd::prelude::*;

verus! {

/// A texture handle together with its pixel size. The handle itself is
/// opaque to the engine; the renderer outside this crate gives it meaning.
#[derive(Clone, Copy, PartialEq, Eq, Structural, Debug)]
pub struct SizedTexture {
    pub tex: u32,
    pub width: u32,
    pub height: u32,
}

/// The frame shown after `t_ms` milliseconds at `fps` frames per second,
/// among `n` frames: whole frames elapsed, wrapped around the sequence.
pub open spec fn spec_frame(t_ms: int, fps: int, n: int) -> int
    recommends
        n > 0,
{
    (t_ms * fps / 1000) % n
}

#[derive(Clone, Debug)]
pub struct TextureBasket {
    pub textures: Vec<SizedTexture>,
    pub fps: u32,
    pub t_ms: u64,
}

impl TextureBasket {
    pub open spec fn wf(self) -> bool {
        self.textures@.len() > 0
    }

    pub fn new(textures: Vec<SizedTexture>, fps: u32) -> (b: TextureBasket)
        requires
            textures@.len() > 0,
        ensures
            b.textures == textures,
            b.fps == fps,
            b.t_ms == 0,
            b.wf(),
    {
        TextureBasket { textures, fps, t_ms: 0 }
    }

    /// Index of the frame shown now.
    pub fn frame(&self) -> (i: usize)
        requires
            self.wf(),
        ensures
            i == spec_frame(self.t_ms as int, self.fps as int, self.textures@.len() as int),
            i < self.textures@.len(),
    {
        let n = self.textures.len();
        proof {
            assert((self.t_ms as int) * (self.fps as int) <= 0xffff_ffff_ffff_ffff * 0xffff_ffff)
                by (nonlinear_arith)
                requires
                    0 <= self.t_ms <= 0xffff_ffff_ffff_ffff && 0 <= self.fps <= 0xffff_ffff,
            ;
        }
        let whole: u128 = self.t_ms as u128 * self.fps as u128 / 1000;
        let idx: u128 = whole % n as u128;
        proof {
            lemma_frame_in_range(self.t_ms as int, self.fps as int, n as int);
        }
        idx as usize
    }

    /// The texture of the frame shown now.
    pub fn texture(&self) -> (t: &SizedTexture)
        requires
            self.wf(),
        ensures
            t == self.textures@[spec_frame(
                self.t_ms as int,
                self.fps as int,
                self.textures@.len() as int,
            )],
    {
        let i = self.frame();
        &self.textures[i]
    }

    /// Advance the elapsed time by one tick.
    pub fn update(&mut self, dt_ms: u64)
        requires
            old(self).t_ms + dt_ms <= u64::MAX,
        ensures
            final(self).t_ms == old(self).t_ms + dt_ms,
            final(self).textures == old(self).textures,
            final(self).fps == old(self).fps,
    {
        self.t_ms = self.t_ms + dt_ms;
    }
}

proof fn lemma_frame_in_range(t_ms: int, fps: int, n: int)
    requires
        n > 0,
        t_ms >= 0,
        fps >= 0,
    ensures
        0 <= spec_frame(t_ms, fps, n) < n,
        spec_frame(t_ms, fps, n) == (t_ms * fps / 1000) % n,
{
    let whole = t_ms * fps / 1000;
    assert(t_ms * fps >= 0) by (nonlinear_arith)
        requires
            t_ms >= 0 && fps >= 0,
    ;
    assert(whole >= 0) by (nonlinear_arith)
        requires
            t_ms * fps >= 0 && whole == t_ms * fps / 1000,
    ;
    assert(0 <= whole % n < n) by (nonlinear_arith)
        requires
            n > 0 && whole >= 0,
    ;
}

} // verus!
