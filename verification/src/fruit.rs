//! Fruit placement: while a game is playing and no fruit exists, a free
//! grid cell inside the walls is chosen by rejection sampling — draw a
//! random cell, redraw while it collides with the snake or its tail, and
//! give up for the cycle after a bounded number of draws rather than
//! risk spinning on a crowded grid.

use vstd::prelude::*;

use crate::grid::{grid_max, spec_grid_max, GridPosition};
use crate::sim::{eq_except_fruit, SimState, SimView};
use crate::snake::{tail_contains, Fruit};

verus! {

/// How many candidate cells one spawn cycle may draw before giving up.
pub const FRUIT_SPAWN_TRIES: usize = 64;

/// A cell a fruit may occupy: strictly inside the walls, one cell of
/// margin at each boundary.
pub open spec fn spawn_in_bounds(p: GridPosition, play_area: u32, cell_size: u32) -> bool {
    &&& vstd::math::abs(p.x as int) <= spec_grid_max(play_area, cell_size) - 1
    &&& vstd::math::abs(p.y as int) <= spec_grid_max(play_area, cell_size) - 1
}

/// A cell not occupied by the snake's head nor by any tail segment. With
/// no actor present there is nothing to avoid.
pub open spec fn cell_free(v: SimView, p: GridPosition) -> bool {
    v.snake matches Some(sn) ==> p != sn.position && !v.tail.contains(p)
}

/// Relies on `rand::Rng::gen_range` over a `rand::thread_rng()` generator:
/// a value sampled from the inclusive range `lo..=hi` lies within it
/// (rand's documentation: "Generate a random value in the given range");
/// sampling panics only on an empty range, which `requires` excludes.
#[verifier::external_body]
fn random_coord(lo: i32, hi: i32) -> (r: i32)
    requires
        lo <= hi,
    ensures
        lo <= r <= hi,
{
    rand::Rng::gen_range(&mut rand::thread_rng(), lo..=hi)
}

/// Fruit-spawning system: if no fruit exists while playing, draws random
/// cells strictly inside the walls until one collides with neither the
/// head nor any tail segment, and places the fruit there; after a bounded
/// number of colliding draws it skips spawning for this cycle. Everything
/// but the fruit is left untouched.
pub fn fruit_spawner(s: &mut SimState)
    requires
        old(s).fruit is None && old(s).game.playing ==> old(s).game.cell_size >= 1 && old(
            s,
        ).game.play_area >= old(s).game.cell_size && spec_grid_max(
            old(s).game.play_area,
            old(s).game.cell_size,
        ) <= i32::MAX,
    ensures
        eq_except_fruit(final(s)@, old(s)@),
        !(old(s)@.fruit is None && old(s)@.playing) ==> final(s)@.fruit == old(s)@.fruit,
        final(s)@.fruit is None ==> final(s)@ == old(s)@,
        final(s)@.fruit is Some && old(s)@.fruit is None ==> spawn_in_bounds(
            final(s)@.fruit->Some_0,
            old(s)@.play_area,
            old(s)@.cell_size,
        ) && cell_free(old(s)@, final(s)@.fruit->Some_0),
{
    if s.fruit.is_none() && s.game.playing {
        let gm = grid_max(s.game.play_area, s.game.cell_size);
        proof {
            vstd::arithmetic::div_mod::lemma_div_non_zero(
                s.game.play_area as int + (s.game.cell_size as int) / 2,
                s.game.cell_size as int,
            );
        }
        let bound: i32 = (gm - 1) as i32;
        let lo: i32 = -bound;
        let hi: i32 = bound;
        let mut tries: usize = 0;
        while tries < FRUIT_SPAWN_TRIES
            invariant
                *s == *old(s),
                s.fruit is None,
                s.game.playing,
                0 <= bound,
                lo == -bound,
                hi == bound,
                bound == spec_grid_max(s.game.play_area, s.game.cell_size) - 1,
            decreases FRUIT_SPAWN_TRIES - tries,
        {
            let x = random_coord(lo, hi);
            let y = random_coord(lo, hi);
            let candidate = GridPosition { x, y };
            let mut overlap = false;
            match &s.snake {
                Some(sn) => {
                    if candidate == sn.position {
                        overlap = true;
                    }
                    if tail_contains(&s.tail, candidate) {
                        overlap = true;
                    }
                },
                None => {},
            }
            if !overlap {
                s.fruit = Some(Fruit { position: candidate });
                proof {
                    assert(eq_except_fruit(s@, old(s)@));
                }
                return ;
            }
            tries += 1;
        }
    }
    proof {
        assert(s@ =~= old(s)@);
    }
}

} // verus!
