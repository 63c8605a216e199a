//! The units of work of a step, and what each does to the accumulators.
//!
//! An interaction evaluates the pull between its two bodies once. What it
//! adds to which accumulator, scaled by whose mass and with which sign, is
//! listed here as contributions; the caller evaluates the pull and makes the
//! additions.

use crate::body::Body;
use vstd::prelude::*;

verus! {

/// One unit of work in a step.
#[derive(Clone, Copy, Debug, PartialEq, Eq, Structural)]
pub enum Action {
    /// Set the body's accumulator to the zero vector.
    Reset(Body),
    /// Add to the test particle's accumulator the pull of the massive body,
    /// scaled by its mass. The massive body is left as it is.
    TestMassive { test: usize, massive: usize },
    /// Evaluate the pull between two massive bodies once and add it to both
    /// accumulators, with opposite signs, each scaled by the other's mass.
    MassiveMassive { first: usize, second: usize },
    /// Read the body's accumulator once, advance the body's position and
    /// velocity from it, and leave the accumulator at the zero vector.
    Integrate(Body),
}

/// One addition to an accumulator: the pull of the action, scaled by the
/// mass of `source`, is added to the accumulator of `onto`.
#[derive(Clone, Copy, Debug, PartialEq, Eq, Structural)]
pub struct Contribution {
    /// The body whose accumulator receives.
    pub onto: Body,
    /// The body whose mass scales the pull.
    pub source: Body,
    /// Whether the pull is added with its sign flipped.
    pub negated: bool,
}

impl Action {
    /// The two bodies between which the action evaluates the pull: the
    /// separation runs from the first to the second, and the pull is what
    /// the second exerts on the first, for a unit of mass.
    pub open spec fn evaluated_on(self) -> Option<(Body, Body)> {
        match self {
            Action::TestMassive { test, massive } => Some(
                (Body::Test(test), Body::Massive(massive)),
            ),
            Action::MassiveMassive { first, second } => Some(
                (Body::Massive(first), Body::Massive(second)),
            ),
            _ => None,
        }
    }

    /// Whether the action adds to the accumulator of `body`.
    pub open spec fn accumulates_on(self, body: Body) -> bool {
        match self {
            Action::TestMassive { test, .. } => body == Body::Test(test),
            Action::MassiveMassive { first, second } => body == Body::Massive(first) || body
                == Body::Massive(second),
            _ => false,
        }
    }

    /// Whether the action takes the mass and position of `body` as the
    /// source of a pull.
    pub open spec fn pulled_by(self, body: Body) -> bool {
        match self {
            Action::TestMassive { massive, .. } => body == Body::Massive(massive),
            Action::MassiveMassive { first, second } => body == Body::Massive(first) || body
                == Body::Massive(second),
            _ => false,
        }
    }

    /// The body whose accumulator the action leaves at the zero vector: a
    /// reset does so, and so does an integration, which uses up what the
    /// accumulator held.
    pub open spec fn cleared_body(self) -> Option<Body> {
        match self {
            Action::Reset(body) => Some(body),
            Action::Integrate(body) => Some(body),
            _ => None,
        }
    }

    /// Whether the action leaves the accumulator of `body` at the zero
    /// vector.
    pub open spec fn clears(self, body: Body) -> bool {
        self.cleared_body() == Some(body)
    }

    /// The two bodies between which the action evaluates the pull, if it
    /// evaluates one.
    pub fn evaluated(&self) -> (pair: Option<(Body, Body)>)
        ensures
            pair == self.evaluated_on(),
    {
        match *self {
            Action::TestMassive { test, massive } => Some(
                (Body::Test(test), Body::Massive(massive)),
            ),
            Action::MassiveMassive { first, second } => Some(
                (Body::Massive(first), Body::Massive(second)),
            ),
            _ => None,
        }
    }

    /// The body whose accumulator the action leaves at the zero vector, if
    /// there is one.
    pub fn cleared(&self) -> (body: Option<Body>)
        ensures
            body == self.cleared_body(),
    {
        match *self {
            Action::Reset(body) => Some(body),
            Action::Integrate(body) => Some(body),
            _ => None,
        }
    }
}

/// What an action adds, in the order of the additions. A test particle
/// receives from the massive body and gives nothing. Two massive bodies
/// receive from each other: the first the pull as it was evaluated, the
/// second the same pull with its sign flipped.
pub open spec fn contributions_of(action: Action) -> Seq<Contribution> {
    match action {
        Action::TestMassive { test, massive } => seq![
            (Contribution { onto: Body::Test(test), source: Body::Massive(massive), negated: false }),
        ],
        Action::MassiveMassive { first, second } => seq![
            (Contribution {
                onto: Body::Massive(first),
                source: Body::Massive(second),
                negated: false,
            }),
            (Contribution {
                onto: Body::Massive(second),
                source: Body::Massive(first),
                negated: true,
            }),
        ],
        _ => Seq::empty(),
    }
}

/// Lists what an action adds, in the order of the additions.
pub fn contributions(action: Action) -> (list: Vec<Contribution>)
    ensures
        list@ == contributions_of(action),
{
    let mut list: Vec<Contribution> = Vec::new();
    match action {
        Action::TestMassive { test, massive } => {
            list.push(
                Contribution { onto: Body::Test(test), source: Body::Massive(massive), negated: false },
            );
        },
        Action::MassiveMassive { first, second } => {
            list.push(
                Contribution {
                    onto: Body::Massive(first),
                    source: Body::Massive(second),
                    negated: false,
                },
            );
            list.push(
                Contribution {
                    onto: Body::Massive(second),
                    source: Body::Massive(first),
                    negated: true,
                },
            );
        },
        _ => {},
    }
    assert(list@ =~= contributions_of(action));
    list
}

/// Every contribution of an action goes by the action's one evaluation of
/// the pull: it is added as evaluated to the body the separation starts
/// from, and with its sign flipped to the body the separation runs to, so
/// that it always points from the receiver to the source. The source is a
/// massive body.
pub proof fn lemma_contribution_roles(action: Action, k: int)
    requires
        0 <= k < contributions_of(action).len(),
    ensures
        ({
            let item = contributions_of(action)[k];
            &&& action.evaluated_on() == Some(
                if item.negated {
                    (item.source, item.onto)
                } else {
                    (item.onto, item.source)
                },
            )
            &&& item.source is Massive
            &&& action.accumulates_on(item.onto)
            &&& action.pulled_by(item.source)
        }),
{
}

/// An action adds to the accumulator of a body exactly where one of its
/// contributions names the body as receiver, and it adds nothing where it
/// evaluates no pull.
pub proof fn lemma_contributions_cover(action: Action, body: Body)
    ensures
        action.accumulates_on(body) <==> exists|k: int|
            0 <= k < contributions_of(action).len() && (#[trigger] contributions_of(action)[k]).onto
                == body,
        action.evaluated_on() is None <==> contributions_of(action).len() == 0,
{
    let list = contributions_of(action);
    if action.accumulates_on(body) {
        match action {
            Action::TestMassive { .. } => {
                assert(list[0].onto == body);
            },
            Action::MassiveMassive { first, .. } => {
                if body == Body::Massive(first) {
                    assert(list[0].onto == body);
                } else {
                    assert(list[1].onto == body);
                }
            },
            _ => {},
        }
    }
}

/// A test particle receives once from the massive body it meets, by the
/// pull as evaluated; the massive body receives nothing.
pub proof fn lemma_test_massive_one_way(test: usize, massive: usize)
    ensures
        contributions_of(Action::TestMassive { test, massive }) == seq![
            (Contribution { onto: Body::Test(test), source: Body::Massive(massive), negated: false }),
        ],
        !(Action::TestMassive { test, massive }).accumulates_on(Body::Massive(massive)),
{
}

/// Two massive bodies that meet receive from each other, by one evaluation
/// of the pull: the second contribution has the roles of the first
/// exchanged and the opposite sign.
pub proof fn lemma_massive_massive_mutual(first: usize, second: usize)
    ensures
        ({
            let list = contributions_of(Action::MassiveMassive { first, second });
            &&& list.len() == 2
            &&& list[0].onto == Body::Massive(first)
            &&& list[0].source == Body::Massive(second)
            &&& list[1].onto == list[0].source
            &&& list[1].source == list[0].onto
            &&& list[1].negated != list[0].negated
        }),
{
}

} // verus!
