//! Control of the light-transport estimator, in loop form.
//!
//! A camera ray is followed through the scene for at most `depth` bounces. At
//! each bounce the scene and the hit material report what became of the ray;
//! the path then ends in black (absorbed, or out of depth), ends on the sky
//! (the ray escaped), or goes on with the scattered ray. The colour work
//! around it (the sky gradient, the product of attenuations) is done by the
//! caller.
use vstd::prelude::*;

verus! {

/// What became of the ray at one bounce.
#[derive(PartialEq, Eq, Structural, Clone, Copy, Debug)]
pub enum Bounce {
    /// The ray hit nothing.
    Miss,
    /// The ray hit a surface whose material absorbed it.
    Absorbed,
    /// The ray hit a surface and was scattered into a new ray.
    Scattered,
}

/// How a finished path is shaded.
#[derive(PartialEq, Eq, Structural, Clone, Copy, Debug)]
pub enum Shade {
    /// No light: the ray was absorbed or the depth ran out.
    Black,
    /// The sky gradient seen along the last ray, times the attenuations met.
    Sky,
}

/// What the caller does next with a path.
#[derive(PartialEq, Eq, Structural, Clone, Copy, Debug)]
pub enum Step {
    /// Intersect the current ray with the scene and report the bounce.
    Trace,
    /// The path is finished.
    Done(Shade),
}

/// The recursive estimator: how a ray with `depth` bounces left ends when
/// the successive bounces are `bounces`; `None` when it needs more bounces
/// than are given.
pub open spec fn traced(depth: nat, bounces: Seq<Bounce>) -> Option<Shade>
    decreases bounces.len(),
{
    if depth == 0 {
        Some(Shade::Black)
    } else if bounces.len() == 0 {
        None
    } else {
        match bounces[0] {
            Bounce::Miss => Some(Shade::Sky),
            Bounce::Absorbed => Some(Shade::Black),
            Bounce::Scattered => traced((depth - 1) as nat, bounces.drop_first()),
        }
    }
}

/// The step that follows from an outcome: trace while it is open.
pub open spec fn step_of(outcome: Option<Shade>) -> Step {
    match outcome {
        Some(shade) => Step::Done(shade),
        None => Step::Trace,
    }
}

/// A light path being followed.
pub struct Path {
    remaining: u32,
    end: Option<Shade>,
}

impl Path {
    /// Bounces the path may still take.
    pub closed spec fn remaining(self) -> nat {
        self.remaining as nat
    }

    /// How the path ended, once it has.
    pub closed spec fn end(self) -> Option<Shade> {
        self.end
    }

    /// How the path ends if the bounces still to come are `future`.
    pub open spec fn outcome(self, future: Seq<Bounce>) -> Option<Shade> {
        match self.end() {
            Some(shade) => Some(shade),
            None => traced(self.remaining(), future),
        }
    }

    /// What the caller is to do next with the path.
    pub open spec fn next_step(self) -> Step {
        step_of(self.outcome(Seq::empty()))
    }

    /// A path for a camera ray allowed `depth` bounces.
    pub fn new(depth: u32) -> (path: Path)
        ensures
            path.remaining() == depth,
            path.end() is None,
            forall|future: Seq<Bounce>| #[trigger]
                path.outcome(future) == traced(depth as nat, future),
    {
        Path { remaining: depth, end: None }
    }

    /// What to do next: trace another bounce, or shade the finished path.
    pub fn next(&self) -> (step: Step)
        ensures
            step == self.next_step(),
            step == (match self.end() {
                Some(shade) => Step::Done(shade),
                None => if self.remaining() == 0 {
                    Step::Done(Shade::Black)
                } else {
                    Step::Trace
                },
            }),
    {
        match self.end {
            Some(shade) => Step::Done(shade),
            None => if self.remaining == 0 {
                Step::Done(Shade::Black)
            } else {
                Step::Trace
            },
        }
    }

    /// Takes the result of the bounce that `next` asked for: a miss ends the
    /// path on the sky, an absorption ends it in black, a scatter uses up one
    /// bounce. Either way the path then ends as the estimator does on the
    /// bounces that follow this one.
    pub fn record(&mut self, bounce: Bounce)
        requires
            old(self).next_step() == Step::Trace,
        ensures
            bounce == Bounce::Miss ==> final(self).end() == Some(Shade::Sky),
            bounce == Bounce::Absorbed ==> final(self).end() == Some(Shade::Black),
            bounce == Bounce::Scattered ==> final(self).end() is None && final(self).remaining()
                == old(self).remaining() - 1,
            forall|future: Seq<Bounce>| #[trigger]
                final(self).outcome(future) == old(self).outcome(seq![bounce] + future),
    {
        proof {
            assert forall|future: Seq<Bounce>| #[trigger]
                (seq![bounce] + future).drop_first() =~= future && (seq![bounce]
                    + future)[0] == bounce by {
                assert((seq![bounce] + future).drop_first() =~= future);
            }
        }
        match bounce {
            Bounce::Miss => {
                self.end = Some(Shade::Sky);
            },
            Bounce::Absorbed => {
                self.end = Some(Shade::Black);
            },
            Bounce::Scattered => {
                self.remaining = self.remaining - 1;
            },
        }
    }
}

/// A ray allowed no bounce is black whatever the scene holds, and is shaded
/// without any bounce being traced.
pub proof fn lemma_zero_depth_is_black(bounces: Seq<Bounce>)
    ensures
        traced(0, bounces) == Some(Shade::Black),
        traced(0, Seq::empty()) == Some(Shade::Black),
{
}

/// The estimator ends within `depth` bounces, and bounces after its end are
/// never consulted.
pub proof fn lemma_ends_within_depth(depth: nat, bounces: Seq<Bounce>, later: Seq<Bounce>)
    ensures
        bounces.len() >= depth ==> traced(depth, bounces) is Some,
        traced(depth, bounces) is Some ==> traced(depth, bounces + later) == traced(
            depth,
            bounces,
        ),
    decreases bounces.len(),
{
    if depth > 0 && bounces.len() > 0 {
        lemma_ends_within_depth((depth - 1) as nat, bounces.drop_first(), later);
        assert((bounces + later).drop_first() =~= bounces.drop_first() + later);
        assert((bounces + later)[0] == bounces[0]);
    }
}

} // verus!
