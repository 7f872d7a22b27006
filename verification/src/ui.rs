//! The renderer's decisions: what text each frame shows, and when the cached
//! layout must be recomputed. Drawing itself is left to the terminal
//! front end; everything it prints comes from here.
use vstd::prelude::*;

use crate::game::State;
use crate::game::upgrade_text;
use crate::points::amount_text;
use crate::points::format_amount;

verus! {

/// The renderer's cached layout key: the terminal size the row rectangles
/// were last computed for.
pub struct Ui {
    pub width: u16,
    pub height: u16,
}

impl Ui {
    /// A cache keyed on the given terminal size.
    pub fn default(width: u16, height: u16) -> (r: Ui)
        ensures
            r.width == width,
            r.height == height,
    {
        Ui { width, height }
    }

    /// Decide one frame's layout: true exactly when the terminal's width or
    /// height differs from the cached size, which then becomes the new key.
    pub fn update(&mut self, width: u16, height: u16) -> (recompute: bool)
        ensures
            recompute == (width != old(self).width || height != old(self).height),
            final(self).width == width,
            final(self).height == height,
    {
        let recompute = width != self.width || height != self.height;
        self.width = width;
        self.height = height;
        recompute
    }
}

/// The texts of one frame: the three cell contents and the shop rows.
pub struct FrameText {
    pub score: String,
    pub idle: String,
    pub active: String,
    pub rows: Vec<String>,
}

/// Project a state onto the texts of one frame: the formatted score, idle
/// and active increases, and one row text per shop upgrade, in order.
pub fn frame_text(state: &State) -> (r: FrameText)
    ensures
        r.score@ == amount_text(state.score@),
        r.idle@ == amount_text(state.idle_increase@),
        r.active@ == amount_text(state.active_increase@),
        r.rows@.len() == state.upgrade_list@.len(),
        forall|j: int|
            0 <= j < r.rows@.len() ==> r.rows@[j]@ == upgrade_text(state.upgrade_list@[j]),
{
    let score = format_amount(state.get_score());
    let idle = format_amount(state.get_idle_increase());
    let active = format_amount(state.get_active_increase());
    let mut rows: Vec<String> = Vec::new();
    let n = state.get_upgrade_list().len();
    let mut i: usize = 0;
    while i < n
        invariant
            i <= n,
            n == state.upgrade_list@.len(),
            rows@.len() == i,
            forall|j: int| 0 <= j < i ==> rows@[j]@ == upgrade_text(state.upgrade_list@[j]),
        decreases n - i,
    {
        let row = state.get_upgrade_list()[i].to_text();
        rows.push(row);
        i = i + 1;
    }
    FrameText { score, idle, active, rows }
}

} // verus!
