//! The bodies of a run.
//!
//! A run has a fixed number of test particles and of massive bodies. Each is
//! known by its index among its own.

use vstd::prelude::*;

verus! {

/// One body of a run: a test particle or a massive body, with its index.
#[derive(Clone, Copy, Debug, PartialEq, Eq, Structural)]
pub enum Body {
    /// A massless tracer: it is pulled and pulls nothing.
    Test(usize),
    /// A body with mass: it is pulled and pulls.
    Massive(usize),
}

impl Body {
    /// Whether the body belongs to a run of `tests` test particles and
    /// `massives` massive bodies.
    pub open spec fn within(self, tests: nat, massives: nat) -> bool {
        match self {
            Body::Test(i) => i < tests,
            Body::Massive(i) => i < massives,
        }
    }

    /// The body's place when the test particles are counted first.
    pub open spec fn place(self, tests: nat) -> int {
        match self {
            Body::Test(i) => i as int,
            Body::Massive(i) => tests + i,
        }
    }
}

/// The bodies of a run: the test particles, then the massive bodies.
pub open spec fn bodies(tests: nat, massives: nat) -> Seq<Body> {
    Seq::new(
        tests + massives,
        |k: int|
            if k < tests {
                Body::Test(k as usize)
            } else {
                Body::Massive((k - tests) as usize)
            },
    )
}

/// Lists the bodies of a run, the test particles first.
pub(crate) fn body_list(tests: usize, massives: usize) -> (list: Vec<Body>)
    requires
        tests + massives <= usize::MAX,
    ensures
        list@ == bodies(tests as nat, massives as nat),
{
    let mut list: Vec<Body> = Vec::new();
    let mut i: usize = 0;
    while i < tests
        invariant
            i <= tests,
            list@.len() == i,
            forall|k: int| 0 <= k < i ==> list@[k] == Body::Test(k as usize),
        decreases tests - i,
    {
        list.push(Body::Test(i));
        i += 1;
    }
    let mut j: usize = 0;
    while j < massives
        invariant
            j <= massives,
            list@.len() == tests + j,
            forall|k: int| 0 <= k < tests ==> list@[k] == Body::Test(k as usize),
            forall|k: int| tests <= k < tests + j ==> list@[k] == Body::Massive((k - tests) as usize),
        decreases massives - j,
    {
        list.push(Body::Massive(j));
        j += 1;
    }
    assert(list@ =~= bodies(tests as nat, massives as nat));
    list
}

} // verus!
