//! The order of work within one step.
//!
//! A step clears every accumulator, then lets each interacting pair add its
//! pull, then advances every body from what its accumulator holds, which
//! leaves the accumulator cleared again. The plan of a step depends on the
//! number of bodies alone, so one plan serves a whole run.

use crate::action::{contributions_of, Action};
use crate::body::{bodies, body_list, Body};
use crate::limits::{listable, LIST_LIMIT};
use crate::pairs::{
    lemma_ordered_pairs_entry, lemma_ordered_pairs_exactly_once, lemma_unordered_pairs_entry,
    lemma_unordered_pairs_exactly_once, lemma_unordered_pairs_len, massive_pairs,
    ordered_pair_count, ordered_pairs, pair_rank, test_massive_pairs, unordered_pair_count,
    unordered_pairs,
};
use vstd::prelude::*;

verus! {

/// One `Reset` for each of `list`, in its order.
pub open spec fn resets_of(list: Seq<Body>) -> Seq<Action> {
    list.map_values(|body: Body| Action::Reset(body))
}

/// One `Integrate` for each of `list`, in its order.
pub open spec fn integrations_of(list: Seq<Body>) -> Seq<Action> {
    list.map_values(|body: Body| Action::Integrate(body))
}

/// One `TestMassive` for each `(test, massive)` of `pairs`, in their order.
pub open spec fn test_massive_of(pairs: Seq<(usize, usize)>) -> Seq<Action> {
    pairs.map_values(|pair: (usize, usize)| Action::TestMassive { test: pair.0, massive: pair.1 })
}

/// One `MassiveMassive` for each `(first, second)` of `pairs`, in their order.
pub open spec fn massive_massive_of(pairs: Seq<(usize, usize)>) -> Seq<Action> {
    pairs.map_values(
        |pair: (usize, usize)| Action::MassiveMassive { first: pair.0, second: pair.1 },
    )
}

/// The first phase of a step: every accumulator is cleared.
pub open spec fn reset_phase(tests: nat, massives: nat) -> Seq<Action> {
    resets_of(bodies(tests, massives))
}

/// The second phase: each test particle with each massive body, then each
/// two massive bodies.
pub open spec fn interaction_phase(tests: nat, massives: nat) -> Seq<Action> {
    test_massive_of(ordered_pairs(tests, massives)) + massive_massive_of(unordered_pairs(massives))
}

/// The third phase: every body is advanced.
pub open spec fn integrate_phase(tests: nat, massives: nat) -> Seq<Action> {
    integrations_of(bodies(tests, massives))
}

/// The actions of one step, in order.
pub open spec fn step_actions(tests: nat, massives: nat) -> Seq<Action> {
    reset_phase(tests, massives) + interaction_phase(tests, massives) + integrate_phase(
        tests,
        massives,
    )
}

/// The number of actions in one step.
pub open spec fn step_len(tests: nat, massives: nat) -> int {
    2 * (tests + massives) + tests * massives + massives * (massives - 1) / 2
}

/// Neither count of pairs is negative.
proof fn lemma_counts_not_negative(tests: nat, massives: nat)
    ensures
        tests * massives >= 0,
        massives * (massives - 1) / 2 >= 0,
{
    assert(tests * massives >= 0 && massives * (massives - 1) / 2 >= 0) by (nonlinear_arith);
}

/// `step_actions` has `step_len` entries.
pub proof fn lemma_step_len(tests: nat, massives: nat)
    ensures
        step_actions(tests, massives).len() == step_len(tests, massives),
        reset_phase(tests, massives).len() == tests + massives,
        interaction_phase(tests, massives).len() == tests * massives + massives * (massives - 1)
            / 2,
        integrate_phase(tests, massives).len() == tests + massives,
{
    lemma_unordered_pairs_len(massives);
}

/// Appends a `Reset` or an `Integrate` for each body of `list`.
fn push_bodies(plan: &mut Vec<Action>, list: &Vec<Body>, integrate: bool)
    ensures
        final(plan)@ == old(plan)@ + (if integrate {
            integrations_of(list@)
        } else {
            resets_of(list@)
        }),
{
    let ghost before = plan@;
    let mut i: usize = 0;
    while i < list.len()
        invariant
            i <= list.len(),
            plan@.len() == before.len() + i,
            forall|k: int| 0 <= k < before.len() ==> plan@[k] == before[k],
            forall|k: int|
                0 <= k < i ==> plan@[before.len() + k] == (if integrate {
                    Action::Integrate(list@[k])
                } else {
                    Action::Reset(list@[k])
                }),
        decreases list.len() - i,
    {
        let body = list[i];
        if integrate {
            plan.push(Action::Integrate(body));
        } else {
            plan.push(Action::Reset(body));
        }
        i += 1;
    }
    assert(plan@ =~= before + (if integrate {
        integrations_of(list@)
    } else {
        resets_of(list@)
    }));
}

/// Appends a `TestMassive` or a `MassiveMassive` for each pair of `pairs`.
fn push_pairs(plan: &mut Vec<Action>, pairs: &Vec<(usize, usize)>, both_massive: bool)
    ensures
        final(plan)@ == old(plan)@ + (if both_massive {
            massive_massive_of(pairs@)
        } else {
            test_massive_of(pairs@)
        }),
{
    let ghost before = plan@;
    let mut i: usize = 0;
    while i < pairs.len()
        invariant
            i <= pairs.len(),
            plan@.len() == before.len() + i,
            forall|k: int| 0 <= k < before.len() ==> plan@[k] == before[k],
            forall|k: int|
                0 <= k < i ==> plan@[before.len() + k] == (if both_massive {
                    Action::MassiveMassive { first: pairs@[k].0, second: pairs@[k].1 }
                } else {
                    Action::TestMassive { test: pairs@[k].0, massive: pairs@[k].1 }
                }),
        decreases pairs.len() - i,
    {
        let pair = pairs[i];
        if both_massive {
            plan.push(Action::MassiveMassive { first: pair.0, second: pair.1 });
        } else {
            plan.push(Action::TestMassive { test: pair.0, massive: pair.1 });
        }
        i += 1;
    }
    assert(plan@ =~= before + (if both_massive {
        massive_massive_of(pairs@)
    } else {
        test_massive_of(pairs@)
    }));
}

/// The number of actions in one step, where a list of that many can be held.
pub fn step_count(tests: usize, massives: usize) -> (count: Option<usize>)
    ensures
        match count {
            Some(c) => listable(step_len(tests as nat, massives as nat)) && c == step_len(
                tests as nat,
                massives as nat,
            ),
            None => !listable(step_len(tests as nat, massives as nat)),
        },
{
    proof {
        lemma_counts_not_negative(tests as nat, massives as nat);
    }
    let crossed: usize = match ordered_pair_count(tests, massives) {
        Some(c) => c,
        None => {
            return None;
        },
    };
    let mutual: usize = match unordered_pair_count(massives) {
        Some(c) => c,
        None => {
            return None;
        },
    };
    if tests > LIST_LIMIT || massives > LIST_LIMIT {
        return None;
    }
    let total: usize = 2 * (tests + massives) + crossed + mutual;
    if total <= LIST_LIMIT {
        Some(total)
    } else {
        None
    }
}

/// Plans one step for a run of `tests` test particles and `massives` massive
/// bodies: the actions to carry out, in order. `None` where the plan would
/// be too long to hold.
pub fn step_plan(tests: usize, massives: usize) -> (plan: Option<Vec<Action>>)
    ensures
        match plan {
            Some(actions) => listable(step_len(tests as nat, massives as nat)) && actions@
                == step_actions(tests as nat, massives as nat),
            None => !listable(step_len(tests as nat, massives as nat)),
        },
{
    if step_count(tests, massives).is_none() {
        return None;
    }
    proof {
        lemma_counts_not_negative(tests as nat, massives as nat);
    }
    let crossed = match test_massive_pairs(tests, massives) {
        Some(list) => list,
        None => {
            return None;
        },
    };
    let mutual = match massive_pairs(massives) {
        Some(list) => list,
        None => {
            return None;
        },
    };
    let all = body_list(tests, massives);
    let mut actions: Vec<Action> = Vec::new();
    push_bodies(&mut actions, &all, false);
    push_pairs(&mut actions, &crossed, false);
    push_pairs(&mut actions, &mutual, true);
    push_bodies(&mut actions, &all, true);
    assert(actions@ =~= step_actions(tests as nat, massives as nat));
    Some(actions)
}

/// What stands at each place of a step: the resets of all bodies, then the
/// test-massive pairs, then the massive pairs, then the integrations of all
/// bodies.
pub proof fn lemma_step_entry(tests: nat, massives: nat, k: int)
    requires
        0 <= k < step_len(tests, massives),
    ensures
        step_actions(tests, massives).len() == step_len(tests, massives),
        tests * massives >= 0,
        massives * (massives - 1) / 2 >= 0,
        k < tests + massives ==> step_actions(tests, massives)[k] == Action::Reset(
            bodies(tests, massives)[k],
        ),
        tests + massives <= k < tests + massives + tests * massives ==> step_actions(
            tests,
            massives,
        )[k] == (Action::TestMassive {
            test: ordered_pairs(tests, massives)[k - (tests + massives)].0,
            massive: ordered_pairs(tests, massives)[k - (tests + massives)].1,
        }),
        tests + massives + tests * massives <= k < step_len(tests, massives) - (tests + massives)
            ==> step_actions(tests, massives)[k] == (Action::MassiveMassive {
            first: unordered_pairs(massives)[k - (tests + massives + tests * massives)].0,
            second: unordered_pairs(massives)[k - (tests + massives + tests * massives)].1,
        }),
        step_len(tests, massives) - (tests + massives) <= k ==> step_actions(tests, massives)[k]
            == Action::Integrate(
            bodies(tests, massives)[k - (step_len(tests, massives) - (tests + massives))],
        ),
{
    lemma_step_len(tests, massives);
    lemma_counts_not_negative(tests, massives);
}

/// Every action of a step names bodies of the run; a test particle is
/// paired with a massive body only, and two massive bodies that are paired
/// are distinct, the lower number first.
pub proof fn lemma_step_within(tests: nat, massives: nat, k: int)
    requires
        tests <= usize::MAX,
        massives <= usize::MAX,
        0 <= k < step_actions(tests, massives).len(),
    ensures
        match step_actions(tests, massives)[k] {
            Action::Reset(body) => body.within(tests, massives),
            Action::TestMassive { test, massive } => test < tests && massive < massives,
            Action::MassiveMassive { first, second } => first < second < massives,
            Action::Integrate(body) => body.within(tests, massives),
        },
{
    lemma_step_len(tests, massives);
    lemma_step_entry(tests, massives, k);
    let bodies_len = tests + massives;
    let crossed = tests * massives;
    if bodies_len <= k < bodies_len + crossed {
        lemma_ordered_pairs_entry(tests, massives, k - bodies_len);
    } else if bodies_len + crossed <= k < step_len(tests, massives) - bodies_len {
        lemma_unordered_pairs_entry(massives, k - bodies_len - crossed);
    }
}

/// A test particle is never the source of a pull: whatever an action of a
/// step takes as a source is a massive body of the run.
pub proof fn lemma_step_sources_massive(tests: nat, massives: nat, k: int, body: Body)
    requires
        tests <= usize::MAX,
        massives <= usize::MAX,
        0 <= k < step_actions(tests, massives).len(),
        step_actions(tests, massives)[k].pulled_by(body),
    ensures
        body is Massive,
        body.within(tests, massives),
{
    lemma_step_within(tests, massives, k);
}

/// Whatever a step adds goes onto a body of the run, scaled by the mass of
/// a massive body of the run, and never onto the source itself.
pub proof fn lemma_step_contributions_within(tests: nat, massives: nat, k: int, item: int)
    requires
        tests <= usize::MAX,
        massives <= usize::MAX,
        0 <= k < step_actions(tests, massives).len(),
        0 <= item < contributions_of(step_actions(tests, massives)[k]).len(),
    ensures
        ({
            let added = contributions_of(step_actions(tests, massives)[k])[item];
            &&& added.onto.within(tests, massives)
            &&& added.source.within(tests, massives)
            &&& added.source is Massive
            &&& added.onto != added.source
        }),
{
    lemma_step_within(tests, massives, k);
}

/// Within a step each body is cleared once, then pulled, then advanced
/// once: its reset stands before, and its integration after, every action
/// that adds to its accumulator.
pub proof fn lemma_step_order(tests: nat, massives: nat, body: Body)
    requires
        tests <= usize::MAX,
        massives <= usize::MAX,
        body.within(tests, massives),
    ensures
        ({
            let plan = step_actions(tests, massives);
            let reset_at = body.place(tests);
            let integrate_at = plan.len() - (tests + massives) + body.place(tests);
            &&& 0 <= reset_at < integrate_at < plan.len()
            &&& plan[reset_at] == Action::Reset(body)
            &&& plan[integrate_at] == Action::Integrate(body)
            &&& forall|k: int|
                0 <= k < plan.len() && (#[trigger] plan[k]) == Action::Reset(body) ==> k
                    == reset_at
            &&& forall|k: int|
                0 <= k < plan.len() && (#[trigger] plan[k]) == Action::Integrate(body) ==> k
                    == integrate_at
            &&& forall|k: int|
                0 <= k < plan.len() && (#[trigger] plan[k]).accumulates_on(body) ==> reset_at < k
                    < integrate_at
        }),
{
    let plan = step_actions(tests, massives);
    let bodies_len = tests + massives;
    let reset_at = body.place(tests);
    lemma_step_len(tests, massives);
    lemma_counts_not_negative(tests, massives);
    let integrate_at = plan.len() - bodies_len + reset_at;
    lemma_step_entry(tests, massives, reset_at);
    lemma_step_entry(tests, massives, integrate_at);
    assert forall|k: int| 0 <= k < plan.len() && (#[trigger] plan[k]) == Action::Reset(body) implies k
        == reset_at by {
        lemma_step_entry(tests, massives, k);
    }
    assert forall|k: int|
        0 <= k < plan.len() && (#[trigger] plan[k]) == Action::Integrate(body) implies k
        == integrate_at by {
        lemma_step_entry(tests, massives, k);
    }
    assert forall|k: int|
        0 <= k < plan.len() && (#[trigger] plan[k]).accumulates_on(body) implies reset_at < k
        < integrate_at by {
        lemma_step_entry(tests, massives, k);
    }
}

/// Nothing carries over from one step to the next: when a step follows a
/// step, a body's accumulator is cleared between its integration and the
/// next action that adds to it.
pub proof fn lemma_reset_between_steps(
    tests: nat,
    massives: nat,
    body: Body,
    integrated_at: int,
    added_at: int,
)
    requires
        tests <= usize::MAX,
        massives <= usize::MAX,
        body.within(tests, massives),
        0 <= integrated_at < added_at < 2 * step_actions(tests, massives).len(),
        (step_actions(tests, massives) + step_actions(tests, massives))[integrated_at]
            == Action::Integrate(body),
        (step_actions(tests, massives) + step_actions(tests, massives))[added_at].accumulates_on(
            body,
        ),
    ensures
        ({
            let twice = step_actions(tests, massives) + step_actions(tests, massives);
            let reset_at = step_actions(tests, massives).len() + body.place(tests);
            integrated_at < reset_at < added_at && twice[reset_at] == Action::Reset(body)
        }),
{
    let plan = step_actions(tests, massives);
    let twice = plan + plan;
    lemma_step_order(tests, massives, body);
    let integrated_in_step = if integrated_at < plan.len() {
        integrated_at
    } else {
        integrated_at - plan.len()
    };
    let added_in_step = if added_at < plan.len() {
        added_at
    } else {
        added_at - plan.len()
    };
    assert(twice[integrated_at] == plan[integrated_in_step]);
    assert(twice[added_at] == plan[added_in_step]);
    assert(twice[plan.len() + body.place(tests)] == plan[body.place(tests)]);
}

/// Whether the accumulator of `body` is at the zero vector once `actions`
/// have been carried out, whatever the pulls were. It is so at the start of
/// a run, stays so under actions that add nothing to it, and is so again
/// after each action that clears it.
pub open spec fn cleared_after(actions: Seq<Action>, body: Body) -> bool
    decreases actions.len(),
{
    if actions.len() == 0 {
        true
    } else if actions.last().clears(body) {
        true
    } else if actions.last().accumulates_on(body) {
        false
    } else {
        cleared_after(actions.drop_last(), body)
    }
}

/// From an action that clears an accumulator until the next action that
/// adds to it, the accumulator is at the zero vector.
pub proof fn lemma_cleared_since(actions: Seq<Action>, body: Body, at: int)
    requires
        0 <= at < actions.len(),
        actions[at].clears(body),
        forall|k: int| at < k < actions.len() ==> !(#[trigger] actions[k]).accumulates_on(body),
    ensures
        cleared_after(actions, body),
    decreases actions.len(),
{
    if at < actions.len() - 1 && !actions.last().clears(body) {
        lemma_cleared_since(actions.drop_last(), body, at);
    }
}

/// Right after a body's integration, and until the step is over, the
/// body's accumulator is at the zero vector, whatever was carried out
/// before the step.
pub proof fn lemma_cleared_after_integration(
    before: Seq<Action>,
    tests: nat,
    massives: nat,
    body: Body,
    upto: int,
)
    requires
        tests <= usize::MAX,
        massives <= usize::MAX,
        body.within(tests, massives),
        step_actions(tests, massives).len() - (tests + massives) + body.place(tests) < upto
            <= step_actions(tests, massives).len(),
    ensures
        step_actions(tests, massives)[step_actions(tests, massives).len() - (tests + massives)
            + body.place(tests)] == Action::Integrate(body),
        cleared_after(before + step_actions(tests, massives).subrange(0, upto), body),
{
    let plan = step_actions(tests, massives);
    let integrate_at = plan.len() - (tests + massives) + body.place(tests);
    let done = before + plan.subrange(0, upto);
    lemma_step_order(tests, massives, body);
    assert(done[before.len() + integrate_at] == plan[integrate_at]);
    assert forall|k: int| before.len() + integrate_at < k < done.len() implies !(#[trigger] done[k]).accumulates_on(
        body,
    ) by {
        assert(done[k] == plan[k - before.len()]);
    }
    lemma_cleared_since(done, body, before.len() + integrate_at);
}

/// When the bodies start to interact in a step, every accumulator is at
/// the zero vector, whatever was carried out before the step.
pub proof fn lemma_cleared_before_interaction(
    before: Seq<Action>,
    tests: nat,
    massives: nat,
    body: Body,
)
    requires
        tests <= usize::MAX,
        massives <= usize::MAX,
        body.within(tests, massives),
    ensures
        step_actions(tests, massives).subrange(0, (tests + massives) as int) == reset_phase(
            tests,
            massives,
        ),
        cleared_after(before + reset_phase(tests, massives), body),
{
    let plan = step_actions(tests, massives);
    let resets = reset_phase(tests, massives);
    let done = before + resets;
    lemma_step_len(tests, massives);
    assert(plan.subrange(0, (tests + massives) as int) =~= resets);
    let reset_at = body.place(tests);
    assert(done[before.len() + reset_at] == resets[reset_at]);
    assert forall|k: int| before.len() + reset_at < k < done.len() implies !(#[trigger] done[k]).accumulates_on(
        body,
    ) by {
        assert(done[k] == resets[k - before.len()]);
    }
    lemma_cleared_since(done, body, before.len() + reset_at);
}

/// Each test particle meets each massive body exactly once in a step.
pub proof fn lemma_step_test_massive_once(tests: nat, massives: nat, test: int, massive: int)
    requires
        tests <= usize::MAX,
        massives <= usize::MAX,
        0 <= test < tests,
        0 <= massive < massives,
    ensures
        ({
            let plan = step_actions(tests, massives);
            let at = tests + massives + test * massives + massive;
            &&& 0 <= at < plan.len()
            &&& plan[at] == (Action::TestMassive { test: test as usize, massive: massive as usize })
            &&& forall|k: int|
                0 <= k < plan.len() && (#[trigger] plan[k]) == (Action::TestMassive {
                    test: test as usize,
                    massive: massive as usize,
                }) ==> k == at
        }),
{
    let plan = step_actions(tests, massives);
    let bodies_len = tests + massives;
    let at = bodies_len + test * massives + massive;
    lemma_step_len(tests, massives);
    lemma_ordered_pairs_exactly_once(tests, massives, test, massive);
    lemma_counts_not_negative(tests, massives);
    lemma_step_entry(tests, massives, at);
    assert forall|k: int|
        0 <= k < plan.len() && (#[trigger] plan[k]) == (Action::TestMassive {
            test: test as usize,
            massive: massive as usize,
        }) implies k == at by {
        lemma_step_entry(tests, massives, k);
        if bodies_len <= k < bodies_len + tests * massives {
            assert(ordered_pairs(tests, massives)[k - bodies_len] == (
                test as usize,
                massive as usize,
            ));
        }
    }
}

/// Each two distinct massive bodies meet exactly once in a step, the lower
/// number first, and in no other action.
pub proof fn lemma_step_massive_massive_once(tests: nat, massives: nat, a: int, b: int)
    requires
        tests <= usize::MAX,
        massives <= usize::MAX,
        0 <= a < b < massives,
    ensures
        ({
            let plan = step_actions(tests, massives);
            let at = tests + massives + tests * massives + pair_rank(massives, a, b);
            &&& 0 <= at < plan.len()
            &&& plan[at] == (Action::MassiveMassive { first: a as usize, second: b as usize })
            &&& forall|k: int|
                0 <= k < plan.len() && ((#[trigger] plan[k]) == (Action::MassiveMassive {
                    first: a as usize,
                    second: b as usize,
                }) || plan[k] == (Action::MassiveMassive {
                    first: b as usize,
                    second: a as usize,
                })) ==> k == at
        }),
{
    let plan = step_actions(tests, massives);
    let before = tests + massives + tests * massives;
    let at = before + pair_rank(massives, a, b);
    lemma_step_len(tests, massives);
    lemma_unordered_pairs_exactly_once(massives, a, b);
    lemma_counts_not_negative(tests, massives);
    lemma_step_entry(tests, massives, at);
    assert forall|k: int|
        0 <= k < plan.len() && ((#[trigger] plan[k]) == (Action::MassiveMassive {
            first: a as usize,
            second: b as usize,
        }) || plan[k] == (Action::MassiveMassive {
            first: b as usize,
            second: a as usize,
        })) implies k == at by {
        lemma_step_entry(tests, massives, k);
        if before <= k < plan.len() - (tests + massives) {
            let pair = unordered_pairs(massives)[k - before];
            assert(pair == (a as usize, b as usize) || pair == (b as usize, a as usize));
        }
    }
}

/// With no massive body in the run nothing is added to any accumulator: a
/// step clears and advances the test particles, and does nothing else.
pub proof fn lemma_step_without_massive(tests: nat)
    ensures
        step_actions(tests, 0) == resets_of(bodies(tests, 0)) + integrations_of(bodies(tests, 0)),
        forall|k: int, body: Body|
            0 <= k < step_actions(tests, 0).len() ==> !(#[trigger] step_actions(
                tests,
                0,
            )[k].accumulates_on(body)),
{
    lemma_unordered_pairs_len(0);
    assert(tests * 0 == 0) by (nonlinear_arith);
    assert(interaction_phase(tests, 0) =~= Seq::empty());
    assert(step_actions(tests, 0) =~= resets_of(bodies(tests, 0)) + integrations_of(
        bodies(tests, 0),
    ));
}

} // verus!
