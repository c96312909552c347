//! The course: the ordered sequence of obstacles, as a mathematical object.
use vstd::prelude::*;

use crate::config::{
    MAX_OBSTACLES, MAX_SPACE_BETWEEN_OBSTACLE, MIN_SPACE_BETWEEN_OBSTACLE, SCREEN_WIDTH,
};
use crate::obstacle::Obstacle;

verus! {

/// A gap between two successive obstacles that the spacing range allows.
pub open spec fn spacing_ok(d: int) -> bool {
    MIN_SPACE_BETWEEN_OBSTACLE <= d <= MAX_SPACE_BETWEEN_OBSTACLE
}

/// Every obstacle has a drawn gap, there are at most `MAX_OBSTACLES` of them,
/// and each one stands a drawn spacing after the one before it.
pub open spec fn spaced(obs: Seq<Obstacle>) -> bool {
    &&& obs.len() <= MAX_OBSTACLES
    &&& forall|i: int| 0 <= i < obs.len() ==> #[trigger] obs[i].wf()
    &&& forall|i: int| 0 <= i < obs.len() - 1 ==> spacing_ok(obs[i + 1].x - #[trigger] obs[i].x)
}

/// Ascending order by column, without ties.
pub open spec fn ascending(obs: Seq<Obstacle>) -> bool {
    forall|i: int, j: int| 0 <= i < j < obs.len() ==> obs[i].x < obs[j].x
}

/// A course between two physics steps: spaced, with its first obstacle on
/// screen no further than one spacing from the left edge.
pub open spec fn course_wf(obs: Seq<Obstacle>) -> bool {
    &&& spaced(obs)
    &&& obs.len() > 0 ==> 0 <= obs[0].x <= MAX_SPACE_BETWEEN_OBSTACLE
}

/// Where the next obstacle is measured from: the last obstacle's column, or
/// the left edge for an empty course.
pub open spec fn next_origin(obs: Seq<Obstacle>) -> int {
    if obs.len() == 0 {
        0
    } else {
        obs.last().x as int
    }
}

/// A course as a new round lays it: obstacles from the left edge on, each a
/// drawn spacing after the one before, up to the first that stands at or past
/// two screen widths.
pub open spec fn freshly_laid(obs: Seq<Obstacle>) -> bool {
    &&& obs.len() > 0
    &&& spaced(obs)
    &&& spacing_ok(obs[0].x as int)
    &&& obs.last().x >= 2 * SCREEN_WIDTH
    &&& forall|i: int| 0 <= i < obs.len() - 1 ==> #[trigger] obs[i].x < 2 * SCREEN_WIDTH
}

/// Every obstacle moved one step left.
pub open spec fn shifted(obs: Seq<Obstacle>) -> Seq<Obstacle> {
    obs.map_values(|o: Obstacle| o.moved())
}

/// `after` is `before` with one obstacle appended: a drawn gap, a drawn
/// spacing after the last obstacle of `before`.
pub open spec fn appended(before: Seq<Obstacle>, after: Seq<Obstacle>) -> bool {
    &&& after.len() == before.len() + 1
    &&& after.drop_last() == before
    &&& after.last().wf()
    &&& spacing_ok(after.last().x - next_origin(before))
}

/// `after` is the course `before` once the obstacles that left the screen are
/// replaced: when the first obstacle stands left of the screen it is dropped
/// and a new one appended; else nothing changes.
pub open spec fn recycled(before: Seq<Obstacle>, after: Seq<Obstacle>) -> bool {
    if before.len() > 0 && before[0].x < 0 {
        appended(before.drop_first(), after)
    } else {
        after == before
    }
}

/// Two obstacles of a spaced course stand as far apart as the spacings
/// between them allow.
pub proof fn lemma_spacing(obs: Seq<Obstacle>, i: int, j: int)
    requires
        spaced(obs),
        0 <= i <= j < obs.len(),
    ensures
        MIN_SPACE_BETWEEN_OBSTACLE * (j - i) <= obs[j].x - obs[i].x,
        obs[j].x - obs[i].x <= MAX_SPACE_BETWEEN_OBSTACLE * (j - i),
    decreases j - i,
{
    if i < j {
        lemma_spacing(obs, i, j - 1);
        assert(spacing_ok(obs[j].x - obs[j - 1].x));
    }
}

/// A spaced course is in ascending order.
pub proof fn lemma_spaced_ascending(obs: Seq<Obstacle>)
    requires
        spaced(obs),
    ensures
        ascending(obs),
{
    assert forall|i: int, j: int| 0 <= i < j < obs.len() implies obs[i].x < obs[j].x by {
        lemma_spacing(obs, i, j);
    }
}

/// The columns of a well-formed course stay well inside `i32`.
pub proof fn lemma_course_bounds(obs: Seq<Obstacle>)
    requires
        course_wf(obs),
    ensures
        forall|i: int|
            0 <= i < obs.len() ==> 0 <= #[trigger] obs[i].x <= MAX_SPACE_BETWEEN_OBSTACLE * (
            MAX_OBSTACLES as int),
{
    assert forall|i: int| 0 <= i < obs.len() implies 0 <= #[trigger] obs[i].x
        <= MAX_SPACE_BETWEEN_OBSTACLE * (MAX_OBSTACLES as int) by {
        lemma_spacing(obs, 0, i);
    }
}

} // verus!
