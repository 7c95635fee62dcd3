use vstd::prelude::*;

verus! {

/// What one probe of the scene did to a path.
#[derive(Debug, Clone, Copy, PartialEq, Eq, Structural)]
pub enum Bounce {
    /// The ray left the scene: the background is seen.
    Missed,
    /// The ray hit a surface whose material absorbed it.
    Absorbed,
    /// The ray hit a surface and a new ray leaves it.
    Scattered,
}

/// Why a path stopped.
#[derive(Debug, Clone, Copy, PartialEq, Eq, Structural)]
pub enum PathEnd {
    /// The bounce budget ran out: the path contributes black.
    Exhausted,
    /// A material absorbed the ray: the path contributes black.
    Absorbed,
    /// The ray escaped: the path contributes the background, scaled by the
    /// attenuations gathered so far.
    Escaped,
}

impl PathEnd {
    /// Whether a path that ended this way contributes exactly black.
    pub open spec fn is_black_spec(&self) -> bool {
        !(*self is Escaped)
    }

    /// Whether a path that ended this way contributes exactly black.
    #[verifier::when_used_as_spec(is_black_spec)]
    pub fn is_black(&self) -> (r: bool)
        ensures
            r == self.is_black_spec(),
    {
        match self {
            PathEnd::Escaped => false,
            _ => true,
        }
    }
}

/// How a path with `depth` bounces left ends when its successive probes give
/// `probes`, with the number of probes it used. A path out of budget stops
/// before probing; one that runs out of probes to read counts as escaped.
pub open spec fn trace(depth: nat, probes: Seq<Bounce>) -> (PathEnd, nat)
    decreases probes.len(),
{
    if depth == 0 {
        (PathEnd::Exhausted, 0)
    } else if probes.len() == 0 {
        (PathEnd::Escaped, 0)
    } else {
        match probes[0] {
            Bounce::Missed => (PathEnd::Escaped, 1),
            Bounce::Absorbed => (PathEnd::Absorbed, 1),
            Bounce::Scattered => {
                let rest = trace((depth - 1) as nat, probes.drop_first());
                (rest.0, rest.1 + 1)
            },
        }
    }
}

/// The bounce budget of one path being traced.
#[derive(Debug, Clone, Copy, PartialEq, Eq, Structural)]
pub struct PathBudget {
    remaining: u32,
}

impl PathBudget {
    pub closed spec fn remaining_spec(&self) -> nat {
        self.remaining as nat
    }

    /// A budget for a path traced with `max_depth` bounces.
    pub fn new(max_depth: u32) -> (r: PathBudget)
        ensures
            r.remaining_spec() == max_depth,
    {
        PathBudget { remaining: max_depth }
    }

    /// Bounces left.
    pub fn remaining(&self) -> (r: u32)
        ensures
            r == self.remaining_spec(),
    {
        self.remaining
    }

    /// Checked before each probe of the scene: `Some(Exhausted)` when no
    /// bounce is left, in which case the path contributes black whatever
    /// the ray and the scene are.
    pub fn check(&self) -> (r: Option<PathEnd>)
        ensures
            r == (if self.remaining_spec() == 0 {
                Some(PathEnd::Exhausted)
            } else {
                None::<PathEnd>
            }),
    {
        if self.remaining == 0 {
            Some(PathEnd::Exhausted)
        } else {
            None
        }
    }

    /// Records the outcome of a probe. A scattered ray spends one bounce and
    /// the path goes on (`None`); a miss or an absorption ends the path.
    pub fn record(&mut self, probe: Bounce) -> (r: Option<PathEnd>)
        requires
            old(self).remaining_spec() > 0,
        ensures
            match probe {
                Bounce::Missed => r == Some(PathEnd::Escaped) && *final(self) == *old(self),
                Bounce::Absorbed => r == Some(PathEnd::Absorbed) && *final(self) == *old(self),
                Bounce::Scattered => r == None::<PathEnd> && final(self).remaining_spec()
                    == old(self).remaining_spec() - 1,
            },
            r matches Some(end) ==> trace(old(self).remaining_spec(), seq![probe]) == (end, 1nat),
            r is None ==> forall|rest: Seq<Bounce>|
                #![trigger trace(final(self).remaining_spec(), rest)]
                trace(old(self).remaining_spec(), seq![probe].add(rest)) == (
                    trace(final(self).remaining_spec(), rest).0,
                    trace(final(self).remaining_spec(), rest).1 + 1,
                ),
    {
        match probe {
            Bounce::Missed => {
                proof {
                    reveal_with_fuel(trace, 2);
                }
                Some(PathEnd::Escaped)
            },
            Bounce::Absorbed => {
                proof {
                    reveal_with_fuel(trace, 2);
                }
                Some(PathEnd::Absorbed)
            },
            Bounce::Scattered => {
                self.remaining = self.remaining - 1;
                proof {
                    assert forall|rest: Seq<Bounce>|
                        #![trigger trace(self.remaining_spec(), rest)]
                        trace(old(self).remaining_spec(), seq![probe].add(rest)) == (
                            trace(self.remaining_spec(), rest).0,
                            trace(self.remaining_spec(), rest).1 + 1,
                        ) by {
                        assert(seq![probe].add(rest).drop_first() =~= rest);
                    }
                }
                None
            },
        }
    }
}

/// A path traced with a budget of zero bounces ends exhausted, and so black,
/// before it probes the scene, whatever the probes would have given.
pub proof fn lemma_zero_depth_is_black(probes: Seq<Bounce>)
    ensures
        trace(0, probes) == (PathEnd::Exhausted, 0nat),
        trace(0, probes).0.is_black(),
{
}

/// A path never probes the scene more than its budget allows, and it ends
/// exhausted exactly when every probe it made scattered and the budget is
/// spent.
pub proof fn lemma_depth_bounds_probes(depth: nat, probes: Seq<Bounce>)
    ensures
        trace(depth, probes).1 <= depth,
        trace(depth, probes).1 <= probes.len(),
        trace(depth, probes).0 is Exhausted <==> (depth <= probes.len() && trace(depth, probes).1
            == depth && forall|i: int| 0 <= i < depth ==> probes[i] is Scattered),
    decreases probes.len(),
{
    if depth > 0 && probes.len() > 0 && probes[0] is Scattered {
        let rest = probes.drop_first();
        lemma_depth_bounds_probes((depth - 1) as nat, rest);
        if trace((depth - 1) as nat, rest).0 is Exhausted {
            assert forall|i: int| 0 <= i < depth implies probes[i] is Scattered by {
                if i > 0 {
                    assert(probes[i] == rest[i - 1]);
                }
            }
        }
        if depth <= probes.len() && forall|i: int| 0 <= i < depth ==> probes[i] is Scattered {
            assert forall|i: int| 0 <= i < depth - 1 implies rest[i] is Scattered by {
                assert(rest[i] == probes[i + 1]);
            }
        }
    }
}

} // verus!
