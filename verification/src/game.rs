//! The game core: upgrades, the shop, the game state, and the tick machine.
//!
//! All amounts are fixed-point [`Points`]. One tick accrues the idle increase,
//! then applies the drained actions in order; `Exit` stops the tick and asks
//! the caller to terminate. A purchase commits atomically: the cost is
//! deducted, the matching increase grows by the upgrade's level, and a fresh
//! upgrade replaces the bought one at the tail of the shop.
use vstd::prelude::*;

use rand::Rng;

use crate::control::Action;
use crate::points::Points;
use crate::points::digits10;
use crate::points::lemma_pow10_pos;
use crate::points::pow10;
use crate::points::sat_add;

verus! {

/// Which increase an upgrade improves.
#[derive(Clone, Copy, Debug, PartialEq, Eq, Structural)]
pub enum UpgradeType {
    Active,
    Idle,
}

/// A purchasable record: its kind, the magnitude added to the matching
/// increase on purchase, and the score deducted to acquire it.
#[derive(Clone, Copy, Debug, PartialEq, Eq, Structural)]
pub struct Upgrade {
    pub upgrade_type: UpgradeType,
    pub level: Points,
    pub cost: Points,
}

/// The authoritative game state.
#[derive(Debug)]
pub struct State {
    pub score: Points,
    pub active_increase: Points,
    pub idle_increase: Points,
    /// The highlighted shop row, if any.
    pub selection: Option<usize>,
    /// The shop: always exactly three upgrades, in display order.
    pub upgrade_list: Vec<Upgrade>,
}

/// The game core: owns the state; the caller runs the tick loop.
pub struct Game {
    pub state: State,
}

/// An upgrade's level lies in [0.0, 10.0) points.
pub open spec fn upgrade_wf(u: Upgrade) -> bool {
    u.level@ < 10000
}

/// Well-formedness of a game state: three well-formed shop rows, an active
/// increase of at least one point, and a selection inside the shop.
pub open spec fn state_wf(s: State) -> bool {
    &&& s.upgrade_list@.len() == 3
    &&& s.active_increase@ >= 1000
    &&& (forall|j: int| 0 <= j < 3 ==> upgrade_wf(s.upgrade_list@[j]))
    &&& (match s.selection {
        Some(i) => i < 3,
        None => true,
    })
}

/// Two states that agree on every field (the shop compared as a sequence).
pub open spec fn same_state(a: State, b: State) -> bool {
    &&& a.score == b.score
    &&& a.active_increase == b.active_increase
    &&& a.idle_increase == b.idle_increase
    &&& a.selection == b.selection
    &&& a.upgrade_list@ == b.upgrade_list@
}

/// `x` capped at the largest `u128` value.
pub open spec fn capped(x: int) -> int {
    if x > u128::MAX {
        u128::MAX as int
    } else {
        x
    }
}

/// The lower bound of the cost distribution for a freshly generated upgrade,
/// in thousandths, given the current score in thousandths: zero for the
/// bootstrap range, else one order of magnitude above the score.
pub open spec fn cost_lo(score: int) -> int {
    if score == 0 {
        0
    } else {
        capped(pow10(digits10(score)))
    }
}

/// The upper bound of the cost distribution: ten points for the bootstrap
/// range, else two orders of magnitude above the score.
pub open spec fn cost_hi(score: int) -> int {
    if score == 0 {
        10000
    } else {
        capped(pow10(digits10(score) + 1))
    }
}

/// A cost drawn for the given score lies within the documented range.
pub open spec fn cost_in_range(cost: int, score: int) -> bool {
    cost_lo(score) <= cost <= cost_hi(score)
}

/// Relies on `rand::rng` and `rand::Rng::random_range`: a draw from the
/// thread RNG over the inclusive integer range `lo..=hi` lies within that
/// range. The range is non-empty by the precondition, so the call does not
/// panic. Nothing more is assumed of the drawn value.
#[verifier::external_body]
fn draw_inclusive(lo: u128, hi: u128) -> (r: u128)
    requires
        lo <= hi,
    ensures
        lo <= r && r <= hi,
{
    rand::rng().random_range(lo..=hi)
}

impl UpgradeType {
    /// A uniformly random kind. Nothing is promised of the outcome.
    pub fn random() -> UpgradeType {
        if draw_inclusive(0, 1) == 0 {
            UpgradeType::Active
        } else {
            UpgradeType::Idle
        }
    }
}

/// One capped multiplication by ten advances a capped power of ten.
proof fn lemma_capped_pow10_step(e: nat)
    ensures
        capped(pow10(e + 1)) == if capped(pow10(e)) > u128::MAX as int / 10 {
            u128::MAX as int
        } else {
            10 * capped(pow10(e))
        },
{
    lemma_pow10_pos(e);
    let p = pow10(e);
    assert(pow10(e + 1) == 10 * p);
    if p > u128::MAX as int / 10 {
        assert(10 * p > u128::MAX) by {
            assert(p >= u128::MAX as int / 10 + 1);
            assert(10 * p >= 10 * (u128::MAX as int / 10 + 1)) by (nonlinear_arith)
                requires
                    p >= u128::MAX as int / 10 + 1,
            ;
        }
    } else {
        assert(10 * p <= u128::MAX) by {
            assert(p <= u128::MAX as int / 10);
            assert(10 * p <= 10 * (u128::MAX as int / 10)) by (nonlinear_arith)
                requires
                    p <= u128::MAX as int / 10,
            ;
        }
    }
}

/// Multiply a capped power of ten by ten, keeping the cap.
fn cap_mul10(p: u128, Ghost(e): Ghost<nat>) -> (r: u128)
    requires
        p as int == capped(pow10(e)),
    ensures
        r as int == capped(pow10(e + 1)),
{
    proof {
        lemma_capped_pow10_step(e);
    }
    if p > u128::MAX / 10 {
        u128::MAX
    } else {
        p * 10
    }
}

/// The cost bounds for a fresh upgrade, given the current score in
/// thousandths: the bootstrap range up to ten points when the score is zero,
/// else the decade one order of magnitude above the score, capped.
fn cost_bounds(score_milli: u128) -> (r: (u128, u128))
    ensures
        r.0 as int == cost_lo(score_milli as int),
        r.1 as int == cost_hi(score_milli as int),
        r.0 <= r.1,
{
    if score_milli == 0 {
        (0, 10000)
    } else {
        let mut n = score_milli;
        let mut lo: u128 = 10;
        proof {
            reveal_with_fuel(pow10, 2);
            assert(capped(pow10(1)) == 10);
        }
        while n >= 10
            invariant
                n >= 1,
                lo as int == capped(
                    pow10((digits10(score_milli as int) - digits10(n as int) + 1) as nat),
                ),
                digits10(n as int) <= digits10(score_milli as int),
            decreases n,
        {
            let ghost e = digits10(score_milli as int) - digits10(n as int) + 1;
            assert(digits10(n as int) == 1 + digits10(n as int / 10));
            n = n / 10;
            lo = cap_mul10(lo, Ghost(e as nat));
        }
        assert(digits10(n as int) == 1);
        let hi = cap_mul10(lo, Ghost(digits10(score_milli as int) as nat));
        proof {
            lemma_pow10_pos(digits10(score_milli as int));
            lemma_capped_pow10_step(digits10(score_milli as int));
        }
        (lo, hi)
    }
}

impl Upgrade {
    /// A freshly generated upgrade: a uniformly random kind, a level drawn
    /// from [0.0, 10.0) points, and a cost drawn from the range the current
    /// score commands (the bootstrap range when no state is given).
    pub fn random(state: Option<&State>) -> (u: Upgrade)
        ensures
            upgrade_wf(u),
            match state {
                Some(s) => cost_in_range(u.cost@, s.score@),
                None => cost_in_range(u.cost@, 0),
            },
    {
        let level = Points::new(draw_inclusive(0, 9999));
        let score_milli: u128 = match state {
            Some(s) => s.score.milli,
            None => 0,
        };
        let (lo, hi) = cost_bounds(score_milli);
        let cost = Points::new(draw_inclusive(lo, hi));
        Upgrade { upgrade_type: UpgradeType::random(), level, cost }
    }

    /// The shop row text for this upgrade, e.g.
    /// `" +idle; level: 5.00; costs: 2.00"`.
    pub fn to_text(&self) -> (r: String)
        ensures
            r@ == upgrade_text(*self),
    {
        let mut out = String::from_str(" +");
        out.append(self.upgrade_type.label());
        out.append("; level: ");
        let lv = crate::points::format_centi(self.level);
        out.append(lv.as_str());
        out.append("; costs: ");
        let c = crate::points::format_centi(self.cost);
        out.append(c.as_str());
        proof {
            reveal_strlit(" +");
            reveal_strlit("; level: ");
            reveal_strlit("; costs: ");
            assert(out@ =~= upgrade_text(*self));
        }
        out
    }
}

/// The text of one shop row.
pub open spec fn upgrade_text(u: Upgrade) -> Seq<char> {
    " +"@ + kind_label(u.upgrade_type) + "; level: "@ + crate::points::centi_text(u.level@)
        + "; costs: "@ + crate::points::centi_text(u.cost@)
}

/// The display label of an upgrade kind.
pub open spec fn kind_label(k: UpgradeType) -> Seq<char> {
    match k {
        UpgradeType::Active => "active"@,
        UpgradeType::Idle => "idle"@,
    }
}

impl UpgradeType {
    /// The display label of this kind.
    pub fn label(&self) -> (r: &'static str)
        ensures
            r@ == kind_label(*self),
    {
        match self {
            UpgradeType::Active => "active",
            UpgradeType::Idle => "idle",
        }
    }
}

/// The selection after an arrow-up: the previous row, saturating at the top;
/// the last row when nothing was selected.
pub open spec fn sel_after_up(sel: Option<usize>) -> Option<usize> {
    match sel {
        None => Some(2usize),
        Some(i) => if i == 0 {
            Some(0usize)
        } else {
            Some((i - 1) as usize)
        },
    }
}

/// The selection after an arrow-down: the next row, saturating at the
/// bottom; the first row when nothing was selected.
pub open spec fn sel_after_down(sel: Option<usize>) -> Option<usize> {
    match sel {
        None => Some(0usize),
        Some(i) => if i >= 2 {
            Some(2usize)
        } else {
            Some((i + 1) as usize)
        },
    }
}

/// Two states that agree on everything but the selection.
pub open spec fn same_but_selection(pre: State, post: State, sel: Option<usize>) -> bool {
    &&& post.score == pre.score
    &&& post.active_increase == pre.active_increase
    &&& post.idle_increase == pre.idle_increase
    &&& post.selection == sel
    &&& post.upgrade_list@ == pre.upgrade_list@
}

/// The atomic purchase rule. With no selection, or with a cost above the
/// score, nothing changes. Otherwise the cost is deducted, the matching
/// increase grows by the upgrade's level, the bought row is removed, and a
/// well-formed replacement priced for the new score is appended.
pub open spec fn purchase_step(pre: State, post: State) -> bool {
    match pre.selection {
        None => same_state(post, pre),
        Some(i) => {
            let u = pre.upgrade_list@[i as int];
            if pre.score@ < u.cost@ {
                same_state(post, pre)
            } else {
                &&& post.score@ == pre.score@ - u.cost@
                &&& post.selection == pre.selection
                &&& (match u.upgrade_type {
                    UpgradeType::Active => post.active_increase@ == sat_add(
                        pre.active_increase@,
                        u.level@,
                    ) && post.idle_increase == pre.idle_increase,
                    UpgradeType::Idle => post.idle_increase@ == sat_add(
                        pre.idle_increase@,
                        u.level@,
                    ) && post.active_increase == pre.active_increase,
                })
                &&& post.upgrade_list@.len() == 3
                &&& post.upgrade_list@.subrange(0, 2) == pre.upgrade_list@.remove(i as int)
                &&& upgrade_wf(post.upgrade_list@[2])
                &&& cost_in_range(post.upgrade_list@[2].cost@, post.score@)
            }
        },
    }
}

/// One action applied to a state. `Exit` never steps: the tick relation
/// handles it.
pub open spec fn step_act(pre: State, a: Action, post: State) -> bool {
    match a {
        Action::ArrowUp => same_but_selection(pre, post, sel_after_up(pre.selection)),
        Action::ArrowDown => same_but_selection(pre, post, sel_after_down(pre.selection)),
        Action::Deselect => same_but_selection(pre, post, None),
        Action::Click => {
            &&& post.score@ == sat_add(pre.score@, pre.active_increase@)
            &&& post.active_increase == pre.active_increase
            &&& post.idle_increase == pre.idle_increase
            &&& post.selection == pre.selection
            &&& post.upgrade_list@ == pre.upgrade_list@
        },
        Action::SelectUpgrade => purchase_step(pre, post),
        Action::Exit => false,
    }
}

/// A run of drained actions: applied in order until the first `Exit`, which
/// ends the run with `cont` false; a run without `Exit` ends with `cont`
/// true. Actions after an `Exit` are discarded unapplied.
pub open spec fn run_actions(pre: State, acts: Seq<Action>, post: State, cont: bool) -> bool
    decreases acts.len(),
{
    if acts.len() == 0 {
        same_state(post, pre) && cont
    } else if acts[0] is Exit {
        same_state(post, pre) && !cont
    } else {
        exists|mid: State|
            #[trigger] step_act(pre, acts[0], mid) && run_actions(mid, acts.drop_first(), post, cont)
    }
}

/// Idle accrual: the start of every tick adds the idle increase to the score
/// and changes nothing else.
pub open spec fn idle_applied(pre: State, post: State) -> bool {
    &&& post.score@ == sat_add(pre.score@, pre.idle_increase@)
    &&& post.active_increase == pre.active_increase
    &&& post.idle_increase == pre.idle_increase
    &&& post.selection == pre.selection
    &&& post.upgrade_list@ == pre.upgrade_list@
}

/// One whole tick: idle accrual, then the drained actions in order.
pub open spec fn tick_rel(pre: State, acts: Seq<Action>, post: State, cont: bool) -> bool {
    exists|mid: State| #[trigger] idle_applied(pre, mid) && run_actions(mid, acts, post, cont)
}

impl State {
    /// Idle accrual: add the idle increase to the score.
    pub fn update(&mut self)
        ensures
            idle_applied(*old(self), *final(self)),
    {
        self.score = self.score.saturating_add(self.idle_increase);
    }

    /// The current score.
    pub fn get_score(&self) -> (r: Points)
        ensures
            r == self.score,
    {
        self.score
    }

    /// The amount each click adds to the score.
    pub fn get_active_increase(&self) -> (r: Points)
        ensures
            r == self.active_increase,
    {
        self.active_increase
    }

    /// The amount each tick adds to the score.
    pub fn get_idle_increase(&self) -> (r: Points)
        ensures
            r == self.idle_increase,
    {
        self.idle_increase
    }

    /// The shop rows, in display order.
    pub fn get_upgrade_list(&self) -> (r: &Vec<Upgrade>)
        ensures
            r@ == self.upgrade_list@,
    {
        &self.upgrade_list
    }

    /// The highlighted row, if any.
    pub fn selected(&self) -> (r: Option<usize>)
        ensures
            r == self.selection,
    {
        self.selection
    }

    /// Select the first row.
    pub fn select_first(&mut self)
        ensures
            same_but_selection(*old(self), *final(self), Some(0usize)),
    {
        self.selection = Some(0);
    }

    /// Move the selection one row up, saturating at the top; select the last
    /// row when nothing was selected.
    pub fn select_previous(&mut self)
        ensures
            same_but_selection(*old(self), *final(self), sel_after_up(old(self).selection)),
    {
        self.selection = match self.selection {
            None => Some(2),
            Some(i) => if i == 0 {
                Some(0)
            } else {
                Some(i - 1)
            },
        };
    }

    /// Move the selection one row down, saturating at the bottom; select the
    /// first row when nothing was selected.
    pub fn select_next(&mut self)
        ensures
            same_but_selection(*old(self), *final(self), sel_after_down(old(self).selection)),
    {
        self.selection = match self.selection {
            None => Some(0),
            Some(i) => if i >= 2 {
                Some(2)
            } else {
                Some(i + 1)
            },
        };
    }

    /// Clear the selection.
    pub fn deselect(&mut self)
        ensures
            same_but_selection(*old(self), *final(self), None),
    {
        self.selection = None;
    }

    /// Add to the score, capped at the largest representable amount.
    pub fn adjust_score(&mut self, d: Points)
        ensures
            final(self).score@ == sat_add(old(self).score@, d@),
            final(self).active_increase == old(self).active_increase,
            final(self).idle_increase == old(self).idle_increase,
            final(self).selection == old(self).selection,
            final(self).upgrade_list@ == old(self).upgrade_list@,
    {
        self.score = self.score.saturating_add(d);
    }

    /// Grow the per-click increase.
    pub fn increase_active_increase(&mut self, d: Points)
        ensures
            final(self).active_increase@ == sat_add(old(self).active_increase@, d@),
            final(self).score == old(self).score,
            final(self).idle_increase == old(self).idle_increase,
            final(self).selection == old(self).selection,
            final(self).upgrade_list@ == old(self).upgrade_list@,
    {
        self.active_increase = self.active_increase.saturating_add(d);
    }

    /// Grow the per-tick increase.
    pub fn increase_idle_increase(&mut self, d: Points)
        ensures
            final(self).idle_increase@ == sat_add(old(self).idle_increase@, d@),
            final(self).score == old(self).score,
            final(self).active_increase == old(self).active_increase,
            final(self).selection == old(self).selection,
            final(self).upgrade_list@ == old(self).upgrade_list@,
    {
        self.idle_increase = self.idle_increase.saturating_add(d);
    }

    /// Whether the state is well formed, decided at run time.
    pub fn is_well_formed(&self) -> (r: bool)
        ensures
            r == state_wf(*self),
    {
        if self.upgrade_list.len() != 3 {
            return false;
        }
        if self.active_increase.milli < 1000 {
            return false;
        }
        if !(self.upgrade_list[0].level.milli < 10000 && self.upgrade_list[1].level.milli < 10000
            && self.upgrade_list[2].level.milli < 10000) {
            assert(!state_wf(*self));
            return false;
        }
        assert(forall|j: int| 0 <= j < 3 ==> upgrade_wf(self.upgrade_list@[j]));
        match self.selection {
            Some(i) => i < 3,
            None => true,
        }
    }
}

impl Game {
    /// A fresh game: zero score, a per-click increase of one point, no idle
    /// increase, the first row selected, and three bootstrap upgrades.
    pub fn default() -> (g: Game)
        ensures
            state_wf(g.state),
            g.state.score@ == 0,
            g.state.active_increase@ == 1000,
            g.state.idle_increase@ == 0,
            g.state.selection == Some(0usize),
            forall|j: int| 0 <= j < 3 ==> cost_in_range(#[trigger] g.state.upgrade_list@[j].cost@, 0),
    {
        let mut upgrade_list: Vec<Upgrade> = Vec::new();
        upgrade_list.push(Upgrade::random(None));
        upgrade_list.push(Upgrade::random(None));
        upgrade_list.push(Upgrade::random(None));
        Game {
            state: State {
                score: Points::zero(),
                active_increase: Points::new(1000),
                idle_increase: Points::zero(),
                selection: Some(0),
                upgrade_list,
            },
        }
    }

    /// Attempt to buy the selected upgrade: a no-op without a selection or
    /// without the funds, otherwise an atomic purchase with a fresh
    /// replacement appended.
    pub fn handle_upgrade(&mut self)
        requires
            state_wf(old(self).state),
        ensures
            state_wf(final(self).state),
            purchase_step(old(self).state, final(self).state),
    {
        match self.state.selection {
            None => {},
            Some(i) => {
                let cost = self.state.upgrade_list[i].cost;
                if self.state.score.ge(cost) {
                    let u = self.state.upgrade_list.remove(i);
                    self.state.score = self.state.score.sub(u.cost);
                    match u.upgrade_type {
                        UpgradeType::Active => {
                            self.state.active_increase = self.state.active_increase.saturating_add(
                                u.level,
                            );
                        },
                        UpgradeType::Idle => {
                            self.state.idle_increase = self.state.idle_increase.saturating_add(
                                u.level,
                            );
                        },
                    }
                    let replacement = Upgrade::random(Some(&self.state));
                    self.state.upgrade_list.push(replacement);
                    proof {
                        let pre = old(self).state;
                        let post = final(self).state;
                        assert(post.upgrade_list@.subrange(0, 2) =~= pre.upgrade_list@.remove(
                            i as int,
                        ));
                    }
                }
            },
        }
    }

    /// One tick: accrue the idle increase, then apply the drained actions in
    /// order. Returns whether the game goes on; `Exit` ends the tick at once
    /// and returns false, leaving later actions unapplied.
    pub fn update(&mut self, actions: &Vec<Action>) -> (cont: bool)
        requires
            state_wf(old(self).state),
        ensures
            state_wf(final(self).state),
            tick_rel(old(self).state, actions@, final(self).state, cont),
    {
        self.state.update();
        let ghost mid = self.state;
        let n = actions.len();
        let mut k: usize = 0;
        while k < n
            invariant
                k <= n,
                n == actions@.len(),
                state_wf(self.state),
                idle_applied(old(self).state, mid),
                run_actions(mid, actions@.take(k as int), self.state, true),
            decreases n - k,
        {
            let ghost prev = self.state;
            let a = actions[k];
            match a {
                Action::ArrowUp => self.state.select_previous(),
                Action::ArrowDown => self.state.select_next(),
                Action::Deselect => self.state.deselect(),
                Action::Exit => {
                    proof {
                        lemma_run_exit(mid, actions@.take(k as int), prev, actions@.skip(k as int));
                        assert(actions@.take(k as int) + actions@.skip(k as int) =~= actions@);
                        assert(run_actions(mid, actions@, self.state, false));
                    }
                    return false;
                },
                Action::SelectUpgrade => self.handle_upgrade(),
                Action::Click => {
                    self.state.score = self.state.score.saturating_add(self.state.active_increase);
                },
            }
            proof {
                assert(step_act(prev, a, self.state));
                lemma_run_snoc(mid, actions@.take(k as int), prev, a, self.state);
                assert(actions@.take(k as int).push(a) =~= actions@.take(k as int + 1));
            }
            k = k + 1;
        }
        proof {
            assert(actions@.take(n as int) =~= actions@);
        }
        true
    }
}

/// A step applied to a state seen through an equal one steps the equal one.
proof fn lemma_step_same(p1: State, p2: State, a: Action, q: State)
    requires
        same_state(p1, p2),
        step_act(p2, a, q),
    ensures
        step_act(p1, a, q),
{
    assert(p1.upgrade_list@ == p2.upgrade_list@);
    match a {
        Action::SelectUpgrade => {
            match p1.selection {
                None => {},
                Some(i) => {
                    assert(p1.upgrade_list@[i as int] == p2.upgrade_list@[i as int]);
                    assert(p1.upgrade_list@.remove(i as int) == p2.upgrade_list@.remove(i as int));
                },
            }
        },
        _ => {},
    }
}

/// Extending a still-running run by one non-exit step.
proof fn lemma_run_snoc(pre: State, acts: Seq<Action>, mid: State, a: Action, post: State)
    requires
        run_actions(pre, acts, mid, true),
        step_act(mid, a, post),
    ensures
        run_actions(pre, acts.push(a), post, true),
    decreases acts.len(),
{
    assert(!(a is Exit));
    if acts.len() == 0 {
        lemma_step_same(pre, mid, a, post);
        let s = acts.push(a);
        assert(s[0] == a);
        assert(s.drop_first() =~= Seq::<Action>::empty());
        assert(same_state(post, post));
        assert(step_act(pre, s[0], post) && run_actions(post, s.drop_first(), post, true));
    } else {
        assert(!(acts[0] is Exit));
        let m1 = choose|m1: State|
            #[trigger] step_act(pre, acts[0], m1) && run_actions(m1, acts.drop_first(), mid, true);
        lemma_run_snoc(m1, acts.drop_first(), mid, a, post);
        let s = acts.push(a);
        assert(s[0] == acts[0]);
        assert(s.drop_first() =~= acts.drop_first().push(a));
        assert(step_act(pre, s[0], m1) && run_actions(m1, s.drop_first(), post, true));
    }
}

/// A run that has not exited ends on the first `Exit` of what follows.
proof fn lemma_run_exit(pre: State, acts: Seq<Action>, mid: State, rest: Seq<Action>)
    requires
        run_actions(pre, acts, mid, true),
        rest.len() > 0,
        rest[0] is Exit,
    ensures
        run_actions(pre, acts + rest, mid, false),
    decreases acts.len(),
{
    if acts.len() == 0 {
        assert(acts + rest =~= rest);
        assert(same_state(mid, pre));
    } else {
        assert(!(acts[0] is Exit));
        let m1 = choose|m1: State|
            #[trigger] step_act(pre, acts[0], m1) && run_actions(m1, acts.drop_first(), mid, true);
        lemma_run_exit(m1, acts.drop_first(), mid, rest);
        let s = acts + rest;
        assert(s[0] == acts[0]);
        assert(s.drop_first() =~= acts.drop_first() + rest);
        assert(step_act(pre, s[0], m1) && run_actions(m1, s.drop_first(), mid, false));
    }
}

} // verus!

