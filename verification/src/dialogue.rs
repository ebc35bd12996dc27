//! Timed dialogue sequencing.
//!
//! A sequencer owns the pending speech lines of one buddy and a cadence
//! timer. Every time the cadence expires the next unconsumed line is
//! emitted; once the last line has been emitted the queue is cleared and
//! the buddy counts as no longer speaking.

use vstd::prelude::*;
use crate::seqs::{lemma_seq_deep_view_push, lemma_vec_deep_view};

verus! {

/// Interval between two emitted lines, in milliseconds.
pub const CHATTER_INTERVAL_MS: u64 = 3000;

/// Line groups flattened into the single run of lines they are spoken as.
pub open spec fn spec_flatten(groups: Seq<Seq<Seq<char>>>) -> Seq<Seq<char>>
    decreases groups.len(),
{
    if groups.len() == 0 {
        Seq::empty()
    } else {
        spec_flatten(groups.drop_last()) + groups.last()
    }
}

pub struct DialogueSequencer {
    pub lines: Vec<String>,
    pub cursor: usize,
    pub cadence_ms: u64,
}

impl DialogueSequencer {
    pub open spec fn wf(self) -> bool {
        &&& self.cursor <= self.lines@.len()
        &&& self.cadence_ms <= CHATTER_INTERVAL_MS
    }

    /// Still speaking: an unconsumed line stands at the cursor.
    pub open spec fn spec_speaking(self) -> bool {
        self.cursor < self.lines@.len()
    }

    pub fn new() -> (s: DialogueSequencer)
        ensures
            s.lines@.len() == 0,
            s.cursor == 0,
            s.cadence_ms == CHATTER_INTERVAL_MS,
            s.wf(),
            !s.spec_speaking(),
    {
        DialogueSequencer { lines: Vec::new(), cursor: 0, cadence_ms: CHATTER_INTERVAL_MS }
    }

    pub fn is_speaking(&self) -> (r: bool)
        ensures
            r == self.spec_speaking(),
    {
        self.cursor < self.lines.len()
    }

    /// Replace the queue wholesale: the given groups, flattened in order,
    /// become the pending lines, and the cadence restarts immediately.
    pub fn enqueue(&mut self, groups: &Vec<Vec<String>>)
        ensures
            final(self).lines.deep_view() == spec_flatten(groups.deep_view()),
            final(self).cursor == 0,
            final(self).cadence_ms == 0,
            final(self).wf(),
    {
        let mut lines: Vec<String> = Vec::new();
        let ghost gv = groups.deep_view();
        let mut gi: usize = 0;
        while gi < groups.len()
            invariant
                gi <= groups@.len(),
                gv == groups.deep_view(),
                lines.deep_view() == spec_flatten(gv.subrange(0, gi as int)),
            decreases groups@.len() - gi,
        {
            let group = &groups[gi];
            let mut li: usize = 0;
            while li < group.len()
                invariant
                    li <= group@.len(),
                    gi < groups@.len(),
                    gv == groups.deep_view(),
                    group == groups@[gi as int],
                    lines.deep_view() == spec_flatten(gv.subrange(0, gi as int))
                        + gv[gi as int].subrange(0, li as int),
                decreases group@.len() - li,
            {
                let ghost pre = lines@;
                proof {
                    lemma_vec_deep_view(&lines);
                    lemma_vec_deep_view(groups);
                }
                let line = group[li].clone();
                lines.push(line);
                proof {
                    lemma_vec_deep_view(&lines);
                    lemma_seq_deep_view_push(pre, groups@[gi as int]@[li as int]);
                    assert(lines.deep_view() =~= spec_flatten(gv.subrange(0, gi as int))
                        + gv[gi as int].subrange(0, li as int + 1));
                }
                li = li + 1;
            }
            proof {
                let pre = gv.subrange(0, gi as int + 1);
                assert(pre.drop_last() =~~= gv.subrange(0, gi as int));
                assert(gv[gi as int].subrange(0, li as int) =~~= gv[gi as int]);
                assert(lines.deep_view() =~~= spec_flatten(pre));
            }
            gi = gi + 1;
        }
        proof {
            assert(gv.subrange(0, gi as int) =~~= gv);
        }
        self.lines = lines;
        self.cursor = 0;
        self.cadence_ms = 0;
    }

    /// How one tick takes a sequencer from `a` to `b`, emitting `r`.
    pub open spec fn spec_tick_rel(
        a: DialogueSequencer,
        b: DialogueSequencer,
        dt_ms: int,
        r: Option<String>,
    ) -> bool {
        &&& (a.cadence_ms > dt_ms ==> {
            &&& r is None
            &&& b.cadence_ms == a.cadence_ms - dt_ms
            &&& b.lines == a.lines
            &&& b.cursor == a.cursor
        })
        &&& (a.cadence_ms <= dt_ms ==> b.cadence_ms == if a.cadence_ms + CHATTER_INTERVAL_MS
            > dt_ms {
            a.cadence_ms + CHATTER_INTERVAL_MS - dt_ms
        } else {
            0int
        })
        &&& (a.cadence_ms <= dt_ms && a.spec_speaking() ==> {
            &&& r == Some(a.lines@[a.cursor as int])
            &&& if a.cursor + 1 == a.lines@.len() {
                b.lines@.len() == 0 && b.cursor == 0
            } else {
                b.lines == a.lines && b.cursor == a.cursor + 1
            }
        })
        &&& (a.cadence_ms <= dt_ms && !a.spec_speaking() ==> {
            &&& r is None
            &&& b.lines == a.lines
            &&& b.cursor == a.cursor
        })
    }

    /// Advance the cadence timer by one tick; emit the line at the cursor
    /// when the cadence expires, clearing the queue after the last line.
    /// The restored cadence carries the overshoot, so emissions keep an
    /// exact interval; a whole missed interval floors the timer at zero.
    pub fn tick(&mut self, dt_ms: u64) -> (r: Option<String>)
        requires
            old(self).wf(),
        ensures
            final(self).wf(),
            Self::spec_tick_rel(*old(self), *final(self), dt_ms as int, r),
    {
        if self.cadence_ms > dt_ms {
            self.cadence_ms = self.cadence_ms - dt_ms;
            None
        } else {
            self.cadence_ms = if self.cadence_ms + CHATTER_INTERVAL_MS > dt_ms {
                self.cadence_ms + CHATTER_INTERVAL_MS - dt_ms
            } else {
                0
            };
            if self.cursor < self.lines.len() {
                let line = self.lines[self.cursor].clone();
                if self.cursor + 1 == self.lines.len() {
                    self.lines = Vec::new();
                    self.cursor = 0;
                } else {
                    self.cursor = self.cursor + 1;
                }
                Some(line)
            } else {
                None
            }
        }
    }
}

} // verus!
