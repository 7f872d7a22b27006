//! Input handling: semantic actions, the key model, and the click debouncer.
//!
//! The terminal delivers key presses only, so a "click" is synthesised from a
//! pair of adjacent keys: one key reports the click button as held down, the
//! other reports it as released. A latch follows the most recent sample, and
//! exactly one `Click` is emitted on each transition from held to released,
//! however often the held key autorepeats.
use vstd::prelude::*;

verus! {

/// A semantic input event consumable by the game core.
#[derive(Clone, Copy, Debug, PartialEq, Eq, Structural)]
pub enum Action {
    ArrowUp,
    ArrowDown,
    Deselect,
    Exit,
    SelectUpgrade,
    Click,
}

/// A keyboard event, reduced to the keys the game reacts to.
#[derive(Clone, Copy, Debug, PartialEq, Eq, Structural)]
pub enum Key {
    /// The key meaning "the click button is currently depressed".
    ClickPress,
    /// The key meaning "the click button is released".
    ClickRelease,
    /// Arrow up.
    Up,
    /// Arrow down.
    Down,
    /// Escape.
    Esc,
    /// The quit key.
    Quit,
    /// The select key (Enter): attempt to buy the highlighted upgrade.
    Select,
    /// The terminal reported end of input: the game must exit.
    EndOfInput,
    /// Any other key; ignored, and treated as a released click sample.
    Other,
}

/// Whether a key samples the click button as depressed.
pub open spec fn sample_depressed(k: Key) -> bool {
    k is ClickPress
}

/// The latch after observing one key: it follows the sample.
pub open spec fn latch_next(latch: bool, k: Key) -> bool {
    sample_depressed(k)
}

/// The actions emitted on observing one key with the given latch: the key's
/// direct action, if any, then one `Click` on a held-to-released transition.
pub open spec fn emitted(latch: bool, k: Key) -> Seq<Action> {
    let direct: Seq<Action> = match k {
        Key::Up => seq![Action::ArrowUp],
        Key::Down => seq![Action::ArrowDown],
        Key::Esc => seq![Action::Deselect],
        Key::Quit => seq![Action::Exit],
        Key::Select => seq![Action::SelectUpgrade],
        Key::EndOfInput => seq![Action::Exit],
        _ => seq![],
    };
    if latch && !sample_depressed(k) {
        direct.push(Action::Click)
    } else {
        direct
    }
}

/// The click debouncer: tracks whether the click button is virtually held.
pub struct Control {
    /// The latch: true while the most recent sample was "depressed".
    pub click_depressed: bool,
}

impl Control {
    /// A fresh debouncer with the click button released.
    pub fn default() -> (r: Control)
        ensures
            !r.click_depressed,
    {
        Control { click_depressed: false }
    }

    /// Observe one key event and return the actions it gives rise to,
    /// in emission order.
    pub fn observe(&mut self, k: Key) -> (out: Vec<Action>)
        ensures
            out@ == emitted(old(self).click_depressed, k),
            final(self).click_depressed == latch_next(old(self).click_depressed, k),
    {
        let mut out: Vec<Action> = Vec::new();
        match k {
            Key::Up => out.push(Action::ArrowUp),
            Key::Down => out.push(Action::ArrowDown),
            Key::Esc => out.push(Action::Deselect),
            Key::Quit => out.push(Action::Exit),
            Key::Select => out.push(Action::SelectUpgrade),
            Key::EndOfInput => out.push(Action::Exit),
            _ => {},
        }
        let depressed = matches!(k, Key::ClickPress);
        if self.click_depressed && !depressed {
            out.push(Action::Click);
        }
        self.click_depressed = depressed;
        assert(out@ =~= emitted(old(self).click_depressed, k));
        out
    }
}

/// How many `Click`s a key sequence yields, starting from the given latch.
pub open spec fn clicks_emitted(latch: bool, ks: Seq<Key>) -> int
    decreases ks.len(),
{
    if ks.len() == 0 {
        0
    } else {
        emitted(latch, ks[0]).filter(|a: Action| a is Click).len() + clicks_emitted(
            latch_next(latch, ks[0]),
            ks.drop_first(),
        )
    }
}

/// Whether every key of the sequence is a click sample (press or release).
pub open spec fn all_click_samples(ks: Seq<Key>) -> bool {
    forall|i: int| 0 <= i < ks.len() ==> ks[i] is ClickPress || ks[i] is ClickRelease
}

/// The number of complete press-then-release cycles: adjacent pairs of a
/// press followed by a release. Leading releases and a trailing unreleased
/// press contribute nothing.
pub open spec fn complete_cycles(ks: Seq<Key>) -> int
    decreases ks.len(),
{
    if ks.len() < 2 {
        0
    } else {
        (if ks[0] is ClickPress && ks[1] is ClickRelease {
            1int
        } else {
            0int
        }) + complete_cycles(ks.drop_first())
    }
}

/// The key a latch value stands for, for the induction behind the law.
spec fn latch_as_key(latch: bool) -> Key {
    if latch {
        Key::ClickPress
    } else {
        Key::ClickRelease
    }
}

proof fn lemma_clicks_from_latch(latch: bool, ks: Seq<Key>)
    requires
        all_click_samples(ks),
    ensures
        clicks_emitted(latch, ks) == complete_cycles(seq![latch_as_key(latch)] + ks),
    decreases ks.len(),
{
    let pre = seq![latch_as_key(latch)] + ks;
    if ks.len() == 0 {
        assert(pre.len() == 1);
    } else {
        let k0 = ks[0];
        let latch2 = latch_next(latch, k0);
        assert(all_click_samples(ks.drop_first()));
        lemma_clicks_from_latch(latch2, ks.drop_first());
        assert(latch_as_key(latch2) == k0);
        assert(seq![latch_as_key(latch2)] + ks.drop_first() =~= pre.drop_first());
        // The head key emits one click exactly when the latch was set and the
        // key is a release sample.
        reveal_with_fuel(Seq::filter, 3);
        if latch && k0 is ClickRelease {
            assert(emitted(latch, k0) =~= seq![Action::Click]);
            assert(emitted(latch, k0).filter(|a: Action| a is Click).len() == 1);
        } else {
            assert(emitted(latch, k0).filter(|a: Action| a is Click).len() == 0);
        }
    }
}

/// The debounce law: over any sequence of virtual press and release samples,
/// a debouncer starting released emits exactly one `Click` per complete
/// press-then-release cycle.
pub proof fn lemma_debounce(ks: Seq<Key>)
    requires
        all_click_samples(ks),
    ensures
        clicks_emitted(false, ks) == complete_cycles(ks),
{
    lemma_clicks_from_latch(false, ks);
    let pre = seq![Key::ClickRelease] + ks;
    if ks.len() == 0 {
        assert(complete_cycles(pre) == 0);
    } else {
        // The artificial leading release forms no press-release pair.
        assert(pre.drop_first() =~= ks);
        assert(complete_cycles(pre) == complete_cycles(ks));
    }
}

} // verus!
