//! Grid coordinate model and the few pieces of pure geometry the simulation
//! needs: positions are integer-valued grid cells, compared by exact
//! equality; pixel space is reached only through one conversion function.

use vstd::prelude::*;

verus! {

/// A 2D grid coordinate. Entity positions are cells of an integer lattice;
/// the same type serves as a displacement (a unit step per direction).
#[derive(Clone, Copy, PartialEq, Eq, Structural, Debug)]
pub struct GridPosition {
    pub x: i32,
    pub y: i32,
}

impl GridPosition {
    /// Component-wise sum, used to advance a position by a direction's
    /// unit vector.
    pub fn plus(self, other: GridPosition) -> (r: GridPosition)
        requires
            i32::MIN <= self.x + other.x <= i32::MAX,
            i32::MIN <= self.y + other.y <= i32::MAX,
        ensures
            r.x == self.x + other.x,
            r.y == self.y + other.y,
    {
        GridPosition { x: self.x + other.x, y: self.y + other.y }
    }
}

/// Whether a position can advance one cell in any direction without
/// leaving the coordinate representation.
pub open spec fn spec_can_step(p: GridPosition) -> bool {
    &&& i32::MIN < p.x < i32::MAX
    &&& i32::MIN < p.y < i32::MAX
}

/// Half-width of the playable square in cells: the number of cells across
/// the play area (nearest integer), halved and rounded with halves up.
/// A head whose coordinate reaches this value in absolute value is on the
/// boundary wall.
pub open spec fn spec_grid_max(play_area: u32, cell_size: u32) -> int
    recommends
        cell_size >= 1,
{
    (((play_area as int + (cell_size as int) / 2) / (cell_size as int)) + 1) / 2
}

/// Computes the grid half-width from the play-area size and the cell size.
pub fn grid_max(play_area: u32, cell_size: u32) -> (r: u64)
    requires
        cell_size >= 1,
    ensures
        r == spec_grid_max(play_area, cell_size),
{
    let cells: u64 = ((play_area as u64) + (cell_size as u64) / 2) / (cell_size as u64);
    (cells + 1) / 2
}

/// Converts a grid cell to its pixel-space translation: each component is
/// the cell coordinate scaled by the cell size. This is the only bridge
/// from grid space to pixel space; the renderer consumes its result.
pub fn snake_pos_to_translation(snake_pos: GridPosition, cell_size: u32) -> (r: (i64, i64))
    requires
        i64::MIN <= snake_pos.x * cell_size <= i64::MAX,
        i64::MIN <= snake_pos.y * cell_size <= i64::MAX,
    ensures
        r.0 == snake_pos.x * cell_size,
        r.1 == snake_pos.y * cell_size,
{
    let x: i64 = (snake_pos.x as i64) * (cell_size as i64);
    let y: i64 = (snake_pos.y as i64) * (cell_size as i64);
    (x, y)
}

} // verus!
