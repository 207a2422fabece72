//! The frame controller: owns the player, the grid and the camera, maps input
//! events to intents, runs one update per tick and produces the frame's draw
//! commands. All windowing and drawing stays outside; a frame is handed out
//! as plain per-column rectangles.

use vstd::prelude::*;
use crate::grid::GridMap;
use crate::player::{Player, Action};
use crate::raycast::{Camera, ColumnRect};

verus! {

/// The aggregate game state: one player, one immutable grid, one camera.
pub struct Game {
    pub player: Player,
    pub map: GridMap,
    pub camera: Camera,
}

impl Game {
    /// Well-formed game: every component well-formed on the grid.
    pub open spec fn wf(self) -> bool {
        &&& self.map.wf()
        &&& self.player.wf(self.map)
        &&& self.camera.wf()
    }

    /// Assembles a game from its parts.
    pub fn new(player: Player, map: GridMap, camera: Camera) -> (g: Option<Game>)
        requires
            map.wf(),
            camera.wf(),
        ensures
            match g {
                Some(gg) => gg.wf() && gg.player == player && gg.map == map && gg.camera == camera,
                None => !player.wf(map),
            },
    {
        proof {
            if player.dir_x as int * player.dir_x as int + player.dir_y as int * player.dir_y as int
                <= crate::player::DIR_BOUND as int * crate::player::DIR_BOUND as int {
                crate::player::lemma_norm_component_bound(
                    player.dir_x as int,
                    player.dir_y as int,
                    crate::player::DIR_BOUND as int,
                );
            }
        }
        let b: i64 = crate::player::DIR_BOUND;
        if 0 <= player.pos_x && player.pos_x < (map.width as i64) * crate::fixed::SCALE && 0
            <= player.pos_y && player.pos_y < (map.height as i64) * crate::fixed::SCALE && -b
            <= player.dir_x && player.dir_x <= b && -b <= player.dir_y && player.dir_y <= b {
            proof {
                crate::fixed::lemma_mul_le(player.dir_x as int, player.dir_x as int, b as int, b as int);
                crate::fixed::lemma_mul_le(player.dir_y as int, player.dir_y as int, b as int, b as int);
            }
            let nsq: i64 = player.dir_x * player.dir_x + player.dir_y * player.dir_y;
            if nsq <= b * b {
                Some(Game { player, map, camera })
            } else {
                None
            }
        } else {
            None
        }
    }

    /// Whether any movement intent is currently held.
    pub open spec fn spec_any_intent(self) -> bool {
        self.player.forward || self.player.backward || self.player.rotate_left
            || self.player.rotate_right
    }

    /// Records a key press (`active == true`) or release on the player's
    /// intent flags; nothing else changes until the next tick.
    pub fn pressed(&mut self, a: Action, active: bool)
        ensures
            final(self).player == old(self).player.spec_set_intent(a, active),
            final(self).map == old(self).map,
            final(self).camera == old(self).camera,
    {
        self.player.set_intent(a, active);
    }

    /// One scheduled tick: if any intent is held, the player ticks and the
    /// camera plane rotates in lockstep with the heading, by the identical
    /// angle and direction; with no intent held, nothing changes.
    pub fn update(&mut self)
        requires
            old(self).wf(),
        ensures
            final(self).wf(),
            final(self).map == old(self).map,
            old(self).spec_any_intent() ==> final(self).player == old(self).player.spec_tick(
                old(self).map,
            ) && final(self).camera == old(self).camera.spec_update(
                old(self).player.rotate_left,
                old(self).player.rotate_right,
            ),
            !old(self).spec_any_intent() ==> final(self).player == old(self).player && final(self).camera == old(self).camera,
    {
        if self.player.forward || self.player.backward || self.player.rotate_left
            || self.player.rotate_right {
            let rl: bool = self.player.rotate_left;
            let rr: bool = self.player.rotate_right;
            self.player.tick(&self.map);
            proof {
                assert(self.player.rotate_left == rl && self.player.rotate_right == rr);
            }
            self.camera.update(&self.player);
        }
    }

    /// Produces the frame's draw commands: the surface is cleared to the
    /// background first, then each `Some` column rectangle is filled, in
    /// column order.
    pub fn render(&self) -> (frame: Vec<Option<ColumnRect>>)
        requires
            self.wf(),
        ensures
            frame@.len() == self.map.width * self.camera.rays - 1,
            forall|i: int|
                0 <= i < frame@.len() ==> frame@[i] == self.camera.spec_column(
                    self.player,
                    self.map,
                    i + 1,
                ),
    {
        self.camera.render(&self.player, &self.map)
    }
}

} // verus!
