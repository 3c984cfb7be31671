//! The player: where they are, how fast they move, and what they are doing.
use vstd::prelude::*;

use crate::constants::IDLE_TIME;
use crate::geometry::{fits_i32, Point, Rect, Subpixels};
use crate::tilemap::{in_world, rect_in_world};
use crate::utils::Direction;

verus! {

/// What the player is doing.
#[derive(Debug, Clone, Copy, PartialEq, Eq, Structural)]
pub enum PlayerState {
    Standing,
    Falling,
    Jumping,
    WallSliding,
    Crouching,
    Stopped,
}

/// The player.
#[derive(Debug, Clone, Copy)]
pub struct Player {
    pub position: Point<Subpixels>,
    pub delta: Point<Subpixels>,
    pub state: PlayerState,
    pub facing_right: bool,
    pub is_dead: bool,
    pub is_idle: bool,
    /// How many frames the player has stood still.
    pub idle_counter: i32,
    /// The part of the player that collides, relative to its position.
    pub hitbox: Rect<Subpixels>,
}

/// The player after its sprite's frame: facing the way it moves, and
/// counting how long it has stood still.
pub open spec fn sprite_after(p: Player) -> Player {
    let idle: int = if p.state == PlayerState::Standing && p.delta.x.0 == 0 {
        if p.idle_counter < IDLE_TIME { p.idle_counter + 1 } else { p.idle_counter as int }
    } else {
        0
    };
    Player {
        facing_right: if p.delta.x.0 > 0 {
            true
        } else if p.delta.x.0 < 0 {
            false
        } else {
            p.facing_right
        },
        idle_counter: idle as i32,
        is_idle: idle >= IDLE_TIME,
        ..p
    }
}

impl Player {
    /// A player at the origin, at rest and falling, facing right.
    pub fn new(hitbox: Rect<Subpixels>) -> (r: Player)
        ensures
            r.position.x.0 == 0 && r.position.y.0 == 0,
            r.delta.x.0 == 0 && r.delta.y.0 == 0,
            r.state == PlayerState::Falling,
            r.facing_right,
            !r.is_dead,
            !r.is_idle,
            r.idle_counter == 0,
            r.hitbox == hitbox,
    {
        Player {
            position: Point::<Subpixels>::zero(),
            delta: Point::<Subpixels>::zero(),
            state: PlayerState::Falling,
            facing_right: true,
            is_dead: false,
            is_idle: false,
            idle_counter: 0,
            hitbox,
        }
    }

    /// The rectangle that collides: the hit box moved to the player.
    pub open spec fn bounds(self) -> Rect<Subpixels> {
        Rect {
            x: Subpixels((self.position.x.0 + self.hitbox.x.0) as i32),
            y: Subpixels((self.position.y.0 + self.hitbox.y.0) as i32),
            w: self.hitbox.w,
            h: self.hitbox.h,
        }
    }

    /// The rectangle the player collides with when moving in `direction`.
    pub fn get_target_bounds_rect(&self, direction: Option<Direction>) -> (r: Rect<Subpixels>)
        requires
            fits_i32(self.position.x.0 + self.hitbox.x.0),
            fits_i32(self.position.y.0 + self.hitbox.y.0),
        ensures
            r == self.bounds(),
    {
        Rect {
            x: self.position.x + self.hitbox.x,
            y: self.position.y + self.hitbox.y,
            w: self.hitbox.w,
            h: self.hitbox.h,
        }
    }

    /// Follows the player's movement for the picture: facing the way they
    /// move, and idle after standing still long enough.
    pub fn update_sprite(&mut self)
        ensures
            *final(self) == sprite_after(*old(self)),
            final(self).facing_right == (if old(self).delta.x.0 > 0 {
                true
            } else if old(self).delta.x.0 < 0 {
                false
            } else {
                old(self).facing_right
            }),
            final(self).idle_counter == (if old(self).state == PlayerState::Standing && old(self).delta.x.0 == 0 {
                if old(self).idle_counter < IDLE_TIME { old(self).idle_counter + 1 } else { old(self).idle_counter as int }
            } else {
                0
            }),
            final(self).is_idle == (final(self).idle_counter >= IDLE_TIME),
            final(self).position == old(self).position,
            final(self).delta == old(self).delta,
            final(self).state == old(self).state,
            final(self).is_dead == old(self).is_dead,
            final(self).hitbox == old(self).hitbox,
    {
        if self.delta.x.0 > 0 {
            self.facing_right = true;
        } else if self.delta.x.0 < 0 {
            self.facing_right = false;
        }
        if self.state == PlayerState::Standing && self.delta.x.0 == 0 {
            if self.idle_counter < IDLE_TIME {
                self.idle_counter = self.idle_counter + 1;
            }
        } else {
            self.idle_counter = 0;
        }
        self.is_idle = self.idle_counter >= IDLE_TIME;
    }
}

} // verus!
