//! Obstacles: every frame the obstacles shown are those under the viewport.

use vstd::prelude::*;
use crate::components::GridPosition;
use crate::map::Cell;
use crate::view::{is_selection, select_cells, visible_region, Viewport};

verus! {

/// Obstacles are shown under the viewport and this many cells around it.
pub const OBSTACLE_MARGIN: u8 = 1;

/// An obstacle that is shown: it has a place and nothing else.
#[derive(Clone, Copy, PartialEq, Eq, Debug, Structural)]
pub struct Obstacle {
    pub position: GridPosition,
}

/// The places of obstacles, in their order.
pub open spec fn places(obstacles: Seq<Obstacle>) -> Seq<GridPosition> {
    obstacles.map_values(|o: Obstacle| o.position)
}

/// Replaces the obstacles shown by those of the viewport: one for every
/// obstacle cell under the viewport and up to `OBSTACLE_MARGIN` cells around
/// it, in reading order, whatever was shown before. Without a viewport
/// nothing changes.
pub fn spawn_visible_obstacles(obstacles: &mut Vec<Obstacle>, view: Option<&Viewport>)
    ensures
        view is None ==> final(obstacles)@ == old(obstacles)@,
        view is Some ==> is_selection(
            places(final(obstacles)@),
            view.unwrap().region(OBSTACLE_MARGIN),
            Cell::Obstacle,
            Seq::empty(),
        ),
{
    let region = match view {
        Some(v) => visible_region(v, OBSTACLE_MARGIN),
        None => { return ; },
    };
    obstacles.clear();
    let none: Vec<GridPosition> = Vec::new();
    let cells = select_cells(&region, Cell::Obstacle, &none);
    let mut i: usize = 0;
    while i < cells.len()
        invariant
            i <= cells.len(),
            places(obstacles@) == cells@.subrange(0, i as int),
        decreases cells.len() - i,
    {
        let ghost earlier = obstacles@;
        obstacles.push(Obstacle { position: cells[i] });
        i += 1;
        assert(places(obstacles@) =~= places(earlier).push(cells@[i - 1]));
        assert(places(obstacles@) =~= cells@.subrange(0, i as int));
    }
    assert(cells@.subrange(0, cells@.len() as int) =~= cells@);
    assert(none@ =~= Seq::empty());
}

} // verus!
