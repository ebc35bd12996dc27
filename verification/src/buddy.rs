//! The buddy kinds and their dialogue data.
//!
//! A buddy is a closed tagged kind carrying its display name, dialogue
//! line-groups per category, sprite animation parameters and font. Loading
//! the sprite and font files is plumbing outside this crate.

use vstd::prelude::*;
use crate::seqs::{lemma_seq_deep_view_push, lemma_vec_deep_view};
use crate::texture::SizedTexture;

verus! {

/// Dialogue category: idle chatter, spoken after a long drag, or spoken
/// after a touch that barely moved the buddy.
#[derive(Clone, Copy, PartialEq, Eq, Structural, Hash, Debug)]
pub enum DialogKind {
    Chatter,
    Moved,
    Touched,
}

/// The dialogue table of the funfriend buddy: for each category, ordered
/// line-groups, each group a run of lines spoken in sequence.
pub open spec fn spec_dialog(kind: DialogKind) -> Seq<Seq<Seq<char>>> {
    match kind {
        DialogKind::Chatter => seq![
            seq!["HELLO AGAIN"@],
            seq!["HI INTERLOPER"@],
            seq!["HELLO!"@, "IS THE AUTH LAYER STILL DISSOCIATED?"@, "I MISS THEM"@],
            seq![
                "INTERLOPER!"@,
                "WELCOME"@,
                "BUT ALSO PLEASE DO NOT BOTHER ME"@,
                "VERY BUSY"@,
            ],
        ],
        DialogKind::Moved => seq![seq!["OK I'LL BE HERE"@]],
        DialogKind::Touched => seq![seq!["HI INTERLOPER!"@], seq!["HELLO!"@], seq!["HI!"@]],
    }
}

/// The line-groups of one dialogue category, as borrowed literals.
pub fn get(kind: DialogKind) -> (r: Vec<Vec<&'static str>>)
    ensures
        r.deep_view() == spec_dialog(kind),
{
    let r: Vec<Vec<&'static str>> = match kind {
        DialogKind::Chatter => vec![
            vec!["HELLO AGAIN"],
            vec!["HI INTERLOPER"],
            vec!["HELLO!", "IS THE AUTH LAYER STILL DISSOCIATED?", "I MISS THEM"],
            vec!["INTERLOPER!", "WELCOME", "BUT ALSO PLEASE DO NOT BOTHER ME", "VERY BUSY"],
        ],
        DialogKind::Moved => vec![vec!["OK I'LL BE HERE"]],
        DialogKind::Touched => vec![vec!["HI INTERLOPER!"], vec!["HELLO!"], vec!["HI!"]],
    };
    proof {
        assert(r.deep_view() =~~= spec_dialog(kind));
    }
    r
}

/// Turning a table of borrowed line-groups into owned strings.
pub trait QuickDialogInstantiation {
    spec fn dialog_view(&self) -> Seq<Seq<Seq<char>>>;

    fn cloned(&self) -> (r: Vec<Vec<String>>)
        ensures
            r.deep_view() == self.dialog_view(),
    ;
}

impl QuickDialogInstantiation for Vec<Vec<&'static str>> {
    open spec fn dialog_view(&self) -> Seq<Seq<Seq<char>>> {
        self.deep_view()
    }

    fn cloned(&self) -> (r: Vec<Vec<String>>) {
        let mut r: Vec<Vec<String>> = Vec::new();
        let mut gi: usize = 0;
        while gi < self.len()
            invariant
                gi <= self@.len(),
                r.deep_view() == self.deep_view().subrange(0, gi as int),
            decreases self@.len() - gi,
        {
            let group = &self[gi];
            let mut owned: Vec<String> = Vec::new();
            let mut li: usize = 0;
            while li < group.len()
                invariant
                    li <= group@.len(),
                    gi < self@.len(),
                    group == self@[gi as int],
                    owned.deep_view() == group.deep_view().subrange(0, li as int),
                decreases group@.len() - li,
            {
                let ghost pre = owned@;
                proof {
                    lemma_vec_deep_view(&owned);
                    lemma_vec_deep_view(group);
                }
                let s: &str = group[li];
                let t = s.to_owned();
                let ghost tv = t.deep_view();
                owned.push(t);
                proof {
                    lemma_vec_deep_view(&owned);
                    lemma_seq_deep_view_push(pre, owned@.last());
                    assert(tv == group.deep_view()[li as int]);
                    assert(owned.deep_view() =~= group.deep_view().subrange(0, li as int + 1));
                }
                li = li + 1;
            }
            proof {
                assert(owned.deep_view() =~= group.deep_view());
            }
            let ghost rpre = r@;
            let ghost ov = owned.deep_view();
            proof {
                lemma_vec_deep_view(&r);
                lemma_vec_deep_view(self);
            }
            r.push(owned);
            proof {
                lemma_vec_deep_view(&r);
                lemma_seq_deep_view_push(rpre, r@.last());
                assert(r.deep_view().last() == ov);
                assert(self.deep_view()[gi as int] == group.deep_view());
                assert(r.deep_view() =~= self.deep_view().subrange(0, gi as int + 1));
            }
            gi = gi + 1;
        }
        proof {
            assert(self.deep_view().subrange(0, gi as int) =~~= self.deep_view());
        }
        r
    }
}

/// The one built-in buddy.
#[derive(Clone, Copy, PartialEq, Eq, Structural, Debug)]
pub struct Funfriend;

impl Funfriend {
    pub fn name(&self) -> (r: &'static str)
        ensures
            r@ == "FUNFRIEND"@,
    {
        "FUNFRIEND"
    }

    /// The owned dialogue line-groups of one category.
    pub fn dialog(&self, kind: DialogKind) -> (r: Vec<Vec<String>>)
        ensures
            r.deep_view() == spec_dialog(kind),
    {
        get(kind).cloned()
    }

    /// Path stem of the bitmap font, without its extension.
    pub fn font(&self) -> (r: &'static str)
        ensures
            r@ == "assets/fonts/SpaceMono"@,
    {
        "assets/fonts/SpaceMono"
    }

    /// Number of frames in the body animation.
    pub fn frame_count(&self) -> (r: usize)
        ensures
            r == 40,
    {
        40
    }

    /// Frame rate of the body animation, in frames per second.
    pub fn fps(&self) -> (r: u32)
        ensures
            r == 10,
    {
        10
    }

    /// The funfriend has no background layer.
    pub fn background(&self) -> (r: Option<SizedTexture>)
        ensures
            r is None,
    {
        None
    }
}

} // verus!
