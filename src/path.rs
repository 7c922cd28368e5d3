//! The control of one light path: a ray is traced only while bounces are
//! left, and what it meets decides whether the path ends in black, ends in the
//! sky, or goes on with one bounce fewer.

use vstd::prelude::*;

verus! {

/// What a traced ray met in the scene.
#[derive(Clone, Copy, Debug, PartialEq, Eq, Structural)]
pub enum Surface {
    /// Nothing: the ray escaped to the sky.
    Missed,
    /// A surface whose material absorbed it.
    Absorbed,
    /// A surface whose material scattered it into a new ray.
    Scattered,
}

/// What the integrator does next.
#[derive(Clone, Copy, Debug, PartialEq, Eq, Structural)]
pub enum Step {
    /// End the path with no light.
    Black,
    /// End the path with the sky's colour seen along the ray.
    Sky,
    /// Trace the ray, with this many bounces left.
    Trace(i32),
}

/// The first step of a path given `depth` bounces.
pub open spec fn start_spec(depth: int) -> Step {
    if depth <= 0 {
        Step::Black
    } else {
        Step::Trace(depth as i32)
    }
}

/// The step after a ray with `depth` bounces left has met `met`.
pub open spec fn after_spec(depth: int, met: Surface) -> Step {
    match met {
        Surface::Missed => Step::Sky,
        Surface::Absorbed => Step::Black,
        Surface::Scattered => start_spec(depth - 1),
    }
}

/// The rays a path traces when the scene answers with `events`, one per
/// traced ray, starting from `step`.
pub open spec fn traces(step: Step, events: Seq<Surface>) -> nat
    decreases events.len(),
{
    match step {
        Step::Trace(depth) => if events.len() == 0 {
            1
        } else {
            1 + traces(after_spec(depth as int, events[0]), events.drop_first())
        },
        _ => 0,
    }
}

/// How a path begins: with no bounces left it is black at once, without
/// tracing; otherwise its first ray is traced.
pub fn start(depth: i32) -> (r: Step)
    ensures
        r == start_spec(depth as int),
{
    if depth <= 0 {
        Step::Black
    } else {
        Step::Trace(depth)
    }
}

/// How a path goes on after a ray with `depth` bounces left has met `met`: a
/// miss shows the sky, an absorption ends in black, and a scatter starts the
/// rest of the path with one bounce fewer.
pub fn after(depth: i32, met: Surface) -> (r: Step)
    requires
        depth > 0,
    ensures
        r == after_spec(depth as int, met),
{
    match met {
        Surface::Missed => Step::Sky,
        Surface::Absorbed => Step::Black,
        Surface::Scattered => start(depth - 1),
    }
}

/// A path begun with `depth` bounces traces at most `depth` rays, whatever the
/// scene answers, and none when `depth` is not positive.
pub proof fn lemma_traces_bounded(depth: int, events: Seq<Surface>)
    requires
        i32::MIN <= depth <= i32::MAX,
    ensures
        traces(start_spec(depth), events) <= if depth > 0 {
            depth
        } else {
            0
        },
    decreases events.len(),
{
    if depth > 0 && events.len() > 0 {
        let d = (depth as i32) as int;
        assert(d == depth);
        let rest = events.drop_first();
        if events[0] == Surface::Scattered {
            lemma_traces_bounded(depth - 1, rest);
        } else {
            assert(traces(after_spec(d, events[0]), rest) == 0);
        }
    }
}

} // verus!
