//! Ephemeral speech bubbles.
//!
//! Every spoken line gets one bubble: a small window sized to the line's
//! text plus padding, placed relative to an anchor (the buddy), stacked
//! upward so an utterance piles up, and expiring on its own timer. A
//! bubble's link to the one before it is only a stored offset, never an
//! ownership edge: bubbles expire independently.
//!
//! Lengths and offsets here are in whole pixels.

use vstd::prelude::*;
use crate::font_manager::{
    lemma_mapped_width_some, mapped_text, spec_mapped, spec_text_width, BMSheet, FontMan,
    TEXT_LIMIT,
};
use crate::vec2::Vec2;

verus! {

/// How long a bubble stays up, in milliseconds.
pub const DEFAULT_DURATION_MS: u64 = 6000;

/// Padding around the text, in pixels, on each side.
pub const BUBBLE_PADDING: i64 = 10;

/// Vertical gap between stacked bubbles, in pixels.
pub const BUBBLE_GAP: i64 = 10;

/// How far above the anchor the first bubble of a chain sits, in pixels.
pub const BUBBLE_RISE: i64 = 20;

/// Most lines one utterance may spawn.
pub const CHAIN_LIMIT: usize = 1000;

#[derive(Clone, PartialEq, Eq, Debug)]
pub struct ChatterBubble {
    /// The line as the bubble draws it: characters without a glyph in the
    /// bubble's font are skipped.
    pub text: String,
    /// Window width: the text width plus padding on both sides.
    pub width: i64,
    /// Window height: the font's line height plus padding on both sides.
    pub height: i64,
    /// Offset of this bubble's window from the anchor's position.
    pub rel: Vec2,
    /// Remaining lifetime; the bubble reports closeable at zero.
    pub timer_ms: u64,
}

impl ChatterBubble {
    /// Size a bubble to its line of text. A character the font does not
    /// map is skipped rather than failing the line: the bubble keeps and
    /// draws the mapped subsequence.
    pub fn new(text: &str, sheet: &BMSheet, rel: Vec2, duration_ms: u64) -> (b: ChatterBubble)
        requires
            text@.len() <= TEXT_LIMIT,
        ensures
            b.text@ == spec_mapped(sheet.chars@, text@),
            spec_text_width(sheet.chars@, b.text@) == Some(b.width - 2 * BUBBLE_PADDING),
            b.height == sheet.common.line_height + 2 * BUBBLE_PADDING,
            b.rel == rel,
            b.timer_ms == duration_ms,
    {
        let shown = mapped_text(text, sheet);
        proof {
            lemma_mapped_width_some(sheet.chars@, text@);
        }
        let w = match FontMan::text_width(shown.as_str(), sheet) {
            Option::Some(w) => w,
            // every character of the mapped subsequence has a glyph
            Option::None => 0,
        };
        ChatterBubble {
            text: shown,
            width: w + 2 * BUBBLE_PADDING,
            height: sheet.common.line_height as i64 + 2 * BUBBLE_PADDING,
            rel,
            timer_ms: duration_ms,
        }
    }

    /// Count the lifetime down by one tick, stopping at zero.
    pub fn update(&mut self, dt_ms: u64)
        ensures
            final(self).timer_ms == if dt_ms >= old(self).timer_ms {
                0u64
            } else {
                (old(self).timer_ms - dt_ms) as u64
            },
            final(self).text == old(self).text,
            final(self).width == old(self).width,
            final(self).height == old(self).height,
            final(self).rel == old(self).rel,
    {
        if dt_ms >= self.timer_ms {
            self.timer_ms = 0;
        } else {
            self.timer_ms = self.timer_ms - dt_ms;
        }
    }

    /// A bubble is closeable exactly when its lifetime has run out.
    pub fn should_close(&self) -> (r: bool)
        ensures
            r == (self.timer_ms == 0),
    {
        self.timer_ms == 0
    }

    /// Move this bubble one slot further up the stack.
    pub fn bump(&mut self)
        requires
            old(self).rel.wide(),
            0 <= old(self).height <= 0x1_0000_0000,
        ensures
            final(self).rel.y == old(self).rel.y - (old(self).height + BUBBLE_GAP),
            final(self).rel.x == old(self).rel.x,
            final(self).text == old(self).text,
            final(self).width == old(self).width,
            final(self).height == old(self).height,
            final(self).timer_ms == old(self).timer_ms,
    {
        self.rel.y = self.rel.y - (self.height + BUBBLE_GAP);
    }

    /// Where the bubble's window goes, following its anchor's live position.
    pub fn position(&self, anchor: Vec2) -> (p: Vec2)
        requires
            anchor.wide(),
            self.rel.wide(),
        ensures
            p.x == anchor.x + self.rel.x,
            p.y == anchor.y + self.rel.y,
    {
        anchor.plus(self.rel)
    }
}

/// Creates, stacks and retires the bubbles of one buddy.
pub struct ChatterBubbleManager {
    pub bubbles: Vec<ChatterBubble>,
}

impl ChatterBubbleManager {
    pub fn new() -> (m: ChatterBubbleManager)
        ensures
            m.bubbles@.len() == 0,
    {
        ChatterBubbleManager { bubbles: Vec::new() }
    }

    /// Spawn one bubble per line of an utterance, each stacked one slot
    /// above the previous, all sharing the chain's font. Characters without
    /// a glyph are skipped within their line.
    pub fn spawn_chain(&mut self, lines: &Vec<String>, sheet: &BMSheet, duration_ms: u64)
        requires
            lines@.len() <= CHAIN_LIMIT,
            forall|i: int| 0 <= i < lines@.len() ==> (#[trigger] lines@[i])@.len() <= TEXT_LIMIT,
        ensures
            ({
                let slot = sheet.common.line_height + 2 * BUBBLE_PADDING + BUBBLE_GAP;
                &&& final(self).bubbles@.len() == old(self).bubbles@.len() + lines@.len()
                &&& forall|j: int|
                    0 <= j < old(self).bubbles@.len() ==> final(self).bubbles@[j] == old(
                        self,
                    ).bubbles@[j]
                &&& forall|j: int|
                    0 <= j < lines@.len() ==> {
                        let b = #[trigger] final(self).bubbles@[old(self).bubbles@.len() + j];
                        &&& b.text@ == spec_mapped(sheet.chars@, lines@[j]@)
                        &&& spec_text_width(sheet.chars@, b.text@) == Some(
                            b.width - 2 * BUBBLE_PADDING,
                        )
                        &&& b.height == sheet.common.line_height + 2 * BUBBLE_PADDING
                        &&& b.rel.x == 0
                        &&& b.rel.y == -(BUBBLE_RISE + slot * j)
                        &&& b.timer_ms == duration_ms
                    }
            }),
    {
        let ghost base = self.bubbles@.len() as int;
        let ghost slot = sheet.common.line_height + 2 * BUBBLE_PADDING + BUBBLE_GAP;
        let mut i: usize = 0;
        while i < lines.len()
            invariant
                lines@.len() <= CHAIN_LIMIT,
                forall|t: int| 0 <= t < lines@.len() ==> (#[trigger] lines@[t])@.len()
                    <= TEXT_LIMIT,
                i <= lines@.len(),
                base == old(self).bubbles@.len(),
                slot == sheet.common.line_height + 2 * BUBBLE_PADDING + BUBBLE_GAP,
                self.bubbles@.len() == base + i,
                forall|j: int| 0 <= j < base ==> self.bubbles@[j] == old(self).bubbles@[j],
                forall|j: int|
                    0 <= j < i ==> {
                        let b = #[trigger] self.bubbles@[base + j];
                        &&& b.text@ == spec_mapped(sheet.chars@, lines@[j]@)
                        &&& spec_text_width(sheet.chars@, b.text@) == Some(
                            b.width - 2 * BUBBLE_PADDING,
                        )
                        &&& b.height == sheet.common.line_height + 2 * BUBBLE_PADDING
                        &&& b.rel.x == 0
                        &&& b.rel.y == -(BUBBLE_RISE + slot * j)
                        &&& b.timer_ms == duration_ms
                    },
            decreases lines@.len() - i,
        {
            let line_height = sheet.common.line_height;
            proof {
                assert(-(0x8000_0000i64 + 30) * 1000 <= (line_height as i64 + 2 * BUBBLE_PADDING
                    + BUBBLE_GAP) * (i as i64) <= (0x8000_0000i64 + 30) * 1000)
                    by (nonlinear_arith)
                    requires
                        -0x8000_0000 <= line_height as i64 <= 0x8000_0000 && 0 <= i <= 1000,
                ;
            }
            let y: i64 = -(BUBBLE_RISE + (line_height as i64 + 2 * BUBBLE_PADDING + BUBBLE_GAP)
                * i as i64);
            let rel = Vec2 { x: 0, y };
            let b = ChatterBubble::new(lines[i].as_str(), sheet, rel, duration_ms);
            let ghost pre = self.bubbles@;
            self.bubbles.push(b);
            proof {
                assert(forall|j: int| 0 <= j < pre.len() ==> self.bubbles@[j] == pre[j]);
            }
            i = i + 1;
        }
    }

    /// Count every bubble's lifetime down by one tick.
    pub fn update(&mut self, dt_ms: u64)
        ensures
            final(self).bubbles@.len() == old(self).bubbles@.len(),
            forall|j: int|
                0 <= j < old(self).bubbles@.len() ==> {
                    let b0 = old(self).bubbles@[j];
                    let b1 = #[trigger] final(self).bubbles@[j];
                    &&& b1.timer_ms == if dt_ms >= b0.timer_ms {
                        0u64
                    } else {
                        (b0.timer_ms - dt_ms) as u64
                    }
                    &&& b1.text == b0.text
                    &&& b1.width == b0.width
                    &&& b1.height == b0.height
                    &&& b1.rel == b0.rel
                },
    {
        let n = self.bubbles.len();
        let mut i: usize = 0;
        while i < n
            invariant
                n == self.bubbles@.len(),
                n == old(self).bubbles@.len(),
                i <= n,
                forall|j: int|
                    i <= j < n ==> #[trigger] self.bubbles@[j] == old(self).bubbles@[j],
                forall|j: int|
                    0 <= j < i ==> {
                        let b0 = old(self).bubbles@[j];
                        let b1 = #[trigger] self.bubbles@[j];
                        &&& b1.timer_ms == if dt_ms >= b0.timer_ms {
                            0u64
                        } else {
                            (b0.timer_ms - dt_ms) as u64
                        }
                        &&& b1.text == b0.text
                        &&& b1.width == b0.width
                        &&& b1.height == b0.height
                        &&& b1.rel == b0.rel
                    },
            decreases n - i,
        {
            self.bubbles[i].update(dt_ms);
            i = i + 1;
        }
    }

    /// The bubbles that are still alive, in their original order.
    pub open spec fn spec_alive(s: Seq<ChatterBubble>) -> Seq<ChatterBubble>
        decreases s.len(),
    {
        if s.len() == 0 {
            Seq::empty()
        } else if s.last().timer_ms == 0 {
            Self::spec_alive(s.drop_last())
        } else {
            Self::spec_alive(s.drop_last()).push(s.last())
        }
    }

    /// Remove every closeable bubble; no other bubble is affected.
    pub fn retire(&mut self)
        ensures
            final(self).bubbles@ == Self::spec_alive(old(self).bubbles@),
    {
        let ghost bv = self.bubbles@;
        let mut src: Vec<ChatterBubble> = Vec::new();
        core::mem::swap(&mut src, &mut self.bubbles);
        let mut kept: Vec<ChatterBubble> = Vec::new();
        proof {
            assert(Self::spec_alive(src@) + kept@ =~= Self::spec_alive(bv));
        }
        while src.len() > 0
            invariant
                Self::spec_alive(src@) + kept@ == Self::spec_alive(bv),
            decreases src@.len(),
        {
            let b = src.pop().unwrap();
            if b.timer_ms != 0 {
                kept.insert(0, b);
                proof {
                    assert(Self::spec_alive(src@) + kept@ =~= Self::spec_alive(bv));
                }
            }
        }
        proof {
            assert(kept@ =~= Self::spec_alive(bv));
        }
        self.bubbles = kept;
    }
}

} // verus!
