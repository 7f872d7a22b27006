//! The game's global laws, proved over the tick relation: reachable states
//! stay well formed, a tick without a purchase adds exactly the idle amount
//! plus one active amount per click, a purchase commits atomically, and the
//! increases never decrease.
use vstd::prelude::*;

use crate::control::Action;
use crate::game::State;
use crate::game::idle_applied;
use crate::game::purchase_step;
use crate::game::run_actions;
use crate::game::state_wf;
use crate::game::step_act;
use crate::game::tick_rel;
use crate::game::upgrade_wf;
use crate::points::sat_add;

verus! {

/// The clicks a tick consumes: those drained before the first `Exit`.
pub open spec fn count_clicks(acts: Seq<Action>) -> int
    decreases acts.len(),
{
    if acts.len() == 0 {
        0
    } else if acts[0] is Exit {
        0
    } else {
        (if acts[0] is Click {
            1int
        } else {
            0int
        }) + count_clicks(acts.drop_first())
    }
}

proof fn lemma_count_clicks_nonneg(acts: Seq<Action>)
    ensures
        count_clicks(acts) >= 0,
    decreases acts.len(),
{
    if acts.len() == 0 || acts[0] is Exit {
    } else {
        lemma_count_clicks_nonneg(acts.drop_first());
    }
}

/// No action of the sequence attempts a purchase.
pub open spec fn no_purchase(acts: Seq<Action>) -> bool {
    forall|i: int| 0 <= i < acts.len() ==> !(acts[i] is SelectUpgrade)
}

proof fn lemma_step_wf(pre: State, a: Action, post: State)
    requires
        state_wf(pre),
        step_act(pre, a, post),
    ensures
        state_wf(post),
{
    match a {
        Action::SelectUpgrade => {
            match pre.selection {
                None => {},
                Some(i) => {
                    if pre.score@ >= pre.upgrade_list@[i as int].cost@ {
                        assert(forall|j: int|
                            0 <= j < 2 ==> post.upgrade_list@[j] == post.upgrade_list@.subrange(
                                0,
                                2,
                            )[j]);
                        assert(forall|j: int|
                            0 <= j < 2 ==> upgrade_wf(
                                #[trigger] pre.upgrade_list@.remove(i as int)[j],
                            ));
                    }
                },
            }
        },
        _ => {},
    }
}

proof fn lemma_run_wf(pre: State, acts: Seq<Action>, post: State, cont: bool)
    requires
        state_wf(pre),
        run_actions(pre, acts, post, cont),
    ensures
        state_wf(post),
    decreases acts.len(),
{
    if acts.len() == 0 || acts[0] is Exit {
    } else {
        let mid = choose|mid: State|
            #[trigger] step_act(pre, acts[0], mid) && run_actions(
                mid,
                acts.drop_first(),
                post,
                cont,
            );
        lemma_step_wf(pre, acts[0], mid);
        lemma_run_wf(mid, acts.drop_first(), post, cont);
    }
}

/// Reachability keeps the state's invariants: from a well-formed state,
/// every tick ends well formed — the score is non-negative, the shop holds
/// exactly three well-formed rows, the active increase is at least one
/// point, and any selection lies inside the shop.
pub proof fn lemma_tick_wf(pre: State, acts: Seq<Action>, post: State, cont: bool)
    requires
        state_wf(pre),
        tick_rel(pre, acts, post, cont),
    ensures
        state_wf(post),
        post.score@ >= 0,
        post.upgrade_list@.len() == 3,
        post.active_increase@ >= 1000,
        post.idle_increase@ >= 0,
        match post.selection {
            Some(i) => 0 <= i < 3,
            None => true,
        },
{
    let mid = choose|mid: State| #[trigger] idle_applied(pre, mid) && run_actions(
        mid,
        acts,
        post,
        cont,
    );
    lemma_run_wf(mid, acts, post, cont);
}

proof fn lemma_run_score_no_purchase(pre: State, acts: Seq<Action>, post: State, cont: bool)
    requires
        run_actions(pre, acts, post, cont),
        no_purchase(acts),
        pre.score@ + count_clicks(acts) * pre.active_increase@ <= u128::MAX,
    ensures
        post.score@ == pre.score@ + count_clicks(acts) * pre.active_increase@,
        post.active_increase == pre.active_increase,
        post.idle_increase == pre.idle_increase,
        post.upgrade_list@ == pre.upgrade_list@,
    decreases acts.len(),
{
    let k = count_clicks(acts);
    if acts.len() == 0 || acts[0] is Exit {
        assert(k * pre.active_increase@ == 0) by (nonlinear_arith)
            requires
                k == 0,
        ;
    } else {
        let mid = choose|mid: State|
            #[trigger] step_act(pre, acts[0], mid) && run_actions(
                mid,
                acts.drop_first(),
                post,
                cont,
            );
        assert(no_purchase(acts.drop_first()));
        let k2 = count_clicks(acts.drop_first());
        lemma_count_clicks_nonneg(acts.drop_first());
        let a = pre.active_increase@;
        if acts[0] is Click {
            assert(k == k2 + 1);
            assert(k * a == k2 * a + a) by (nonlinear_arith)
                requires
                    k == k2 + 1,
            ;
            assert(k2 * a >= 0) by (nonlinear_arith)
                requires
                    k2 >= 0,
                    a >= 0,
            ;
            assert(pre.score@ + a <= u128::MAX);
            assert(mid.score@ == pre.score@ + a);
            lemma_run_score_no_purchase(mid, acts.drop_first(), post, cont);
        } else {
            assert(k == k2);
            assert(mid.score@ == pre.score@);
            assert(mid.active_increase == pre.active_increase);
            lemma_run_score_no_purchase(mid, acts.drop_first(), post, cont);
        }
    }
}

/// The tick accounting law, in the absence of a purchase: a tick that
/// consumes `k` clicks adds exactly the idle increase plus `k` times the
/// active increase to the score, and touches neither the increases nor the
/// shop. The stated bound keeps the sum representable; at the cap the score
/// saturates instead.
pub proof fn lemma_tick_no_purchase(pre: State, acts: Seq<Action>, post: State, cont: bool)
    requires
        tick_rel(pre, acts, post, cont),
        no_purchase(acts),
        pre.score@ + pre.idle_increase@ + count_clicks(acts) * pre.active_increase@ <= u128::MAX,
    ensures
        post.score@ == pre.score@ + pre.idle_increase@ + count_clicks(acts)
            * pre.active_increase@,
        post.active_increase == pre.active_increase,
        post.idle_increase == pre.idle_increase,
        post.upgrade_list@ == pre.upgrade_list@,
{
    let mid = choose|mid: State| #[trigger] idle_applied(pre, mid) && run_actions(
        mid,
        acts,
        post,
        cont,
    );
    lemma_count_clicks_nonneg(acts);
    assert(count_clicks(acts) * pre.active_increase@ >= 0) by (nonlinear_arith)
        requires
            count_clicks(acts) >= 0,
            pre.active_increase@ >= 0,
    ;
    assert(mid.score@ == pre.score@ + pre.idle_increase@);
    lemma_run_score_no_purchase(mid, acts, post, cont);
}

proof fn lemma_run_selection_fixed(pre: State, acts: Seq<Action>, post: State, cont: bool)
    requires
        run_actions(pre, acts, post, cont),
        forall|i: int| 0 <= i < acts.len() ==> (acts[i] is Click || acts[i] is Exit),
    ensures
        post.selection == pre.selection,
    decreases acts.len(),
{
    if acts.len() == 0 || acts[0] is Exit {
    } else {
        let mid = choose|mid: State|
            #[trigger] step_act(pre, acts[0], mid) && run_actions(
                mid,
                acts.drop_first(),
                post,
                cont,
            );
        lemma_run_selection_fixed(mid, acts.drop_first(), post, cont);
    }
}

/// The tick accounting law in its sharpest form: a tick that drains clicks
/// alone adds the idle increase plus one active amount per click, and every
/// other field — the increases, the shop, the selection — is unchanged.
pub proof fn lemma_tick_clicks_only(pre: State, acts: Seq<Action>, post: State, cont: bool)
    requires
        tick_rel(pre, acts, post, cont),
        forall|i: int| 0 <= i < acts.len() ==> acts[i] is Click,
        pre.score@ + pre.idle_increase@ + acts.len() * pre.active_increase@ <= u128::MAX,
    ensures
        post.score@ == pre.score@ + pre.idle_increase@ + acts.len() * pre.active_increase@,
        post.active_increase == pre.active_increase,
        post.idle_increase == pre.idle_increase,
        post.upgrade_list@ == pre.upgrade_list@,
        post.selection == pre.selection,
        cont,
{
    lemma_count_all_clicks(acts);
    lemma_tick_no_purchase(pre, acts, post, cont);
    let mid = choose|mid: State| #[trigger] idle_applied(pre, mid) && run_actions(
        mid,
        acts,
        post,
        cont,
    );
    lemma_run_selection_fixed(mid, acts, post, cont);
    lemma_run_continues(mid, acts, post, cont);
}

proof fn lemma_count_all_clicks(acts: Seq<Action>)
    requires
        forall|i: int| 0 <= i < acts.len() ==> acts[i] is Click,
    ensures
        count_clicks(acts) == acts.len(),
    decreases acts.len(),
{
    if acts.len() > 0 {
        lemma_count_all_clicks(acts.drop_first());
    }
}

proof fn lemma_run_continues(pre: State, acts: Seq<Action>, post: State, cont: bool)
    requires
        run_actions(pre, acts, post, cont),
        forall|i: int| 0 <= i < acts.len() ==> !(acts[i] is Exit),
    ensures
        cont,
    decreases acts.len(),
{
    if acts.len() > 0 {
        let mid = choose|mid: State|
            #[trigger] step_act(pre, acts[0], mid) && run_actions(
                mid,
                acts.drop_first(),
                post,
                cont,
            );
        lemma_run_continues(mid, acts.drop_first(), post, cont);
    }
}

/// The purchase law: a successful purchase of the selected upgrade `u`
/// deducts exactly `u.cost` from the score, and exactly one of the two
/// increases grows, by exactly `u.level`, the shop keeping three rows. The
/// stated bound keeps the grown increase representable.
pub proof fn lemma_purchase_exact(pre: State, post: State, i: usize)
    requires
        state_wf(pre),
        purchase_step(pre, post),
        pre.selection == Some(i),
        pre.score@ >= pre.upgrade_list@[i as int].cost@,
        pre.active_increase@ + pre.upgrade_list@[i as int].level@ <= u128::MAX,
        pre.idle_increase@ + pre.upgrade_list@[i as int].level@ <= u128::MAX,
    ensures
        post.score@ == pre.score@ - pre.upgrade_list@[i as int].cost@,
        match pre.upgrade_list@[i as int].upgrade_type {
            crate::game::UpgradeType::Active => post.active_increase@ == pre.active_increase@
                + pre.upgrade_list@[i as int].level@ && post.idle_increase == pre.idle_increase,
            crate::game::UpgradeType::Idle => post.idle_increase@ == pre.idle_increase@
                + pre.upgrade_list@[i as int].level@ && post.active_increase
                == pre.active_increase,
        },
        post.upgrade_list@.len() == 3,
{
}

proof fn lemma_run_monotonic(pre: State, acts: Seq<Action>, post: State, cont: bool)
    requires
        run_actions(pre, acts, post, cont),
    ensures
        post.active_increase@ >= pre.active_increase@,
        post.idle_increase@ >= pre.idle_increase@,
    decreases acts.len(),
{
    if acts.len() == 0 || acts[0] is Exit {
    } else {
        let mid = choose|mid: State|
            #[trigger] step_act(pre, acts[0], mid) && run_actions(
                mid,
                acts.drop_first(),
                post,
                cont,
            );
        lemma_run_monotonic(mid, acts.drop_first(), post, cont);
    }
}

/// Monotonicity: over any tick, the active and idle increases never
/// decrease.
pub proof fn lemma_tick_monotonic(pre: State, acts: Seq<Action>, post: State, cont: bool)
    requires
        tick_rel(pre, acts, post, cont),
    ensures
        post.active_increase@ >= pre.active_increase@,
        post.idle_increase@ >= pre.idle_increase@,
{
    let mid = choose|mid: State| #[trigger] idle_applied(pre, mid) && run_actions(
        mid,
        acts,
        post,
        cont,
    );
    lemma_run_monotonic(mid, acts, post, cont);
}

} // verus!
