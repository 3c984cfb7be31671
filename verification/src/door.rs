//! Doors: exits to other levels, locked until enough stars are collected.
use vstd::prelude::*;
use vstd::std_specs::convert::FromSpec;

use crate::constants::{DOOR_CLOSING_FRAMES, DOOR_SPEED, DOOR_UNLOCKING_FRAMES};
use crate::geometry::{Rect, Subpixels};
use crate::properties::opt_text;
use crate::tilemap::MapObject;

verus! {

/// Where a door is in its life: locked, opening, open, closing behind the
/// player, or closed with the player through it.
#[derive(Debug, Clone, Copy, PartialEq, Eq, Structural)]
pub enum DoorState {
    Locked,
    Unlocking,
    Open,
    Closing,
    Closed,
}

/// A door to another level (or to the same level, if it names none).
pub struct Door {
    pub area: Rect<Subpixels>,
    pub destination: Option<String>,
    pub stars_needed: i32,
    pub state: DoorState,
    /// Frames since the door started opening or closing.
    pub frame: u32,
    /// Whether the player is at the door.
    pub active: bool,
}

/// How many frames opening a door takes.
pub open spec fn unlocking_time() -> int {
    DOOR_UNLOCKING_FRAMES * DOOR_SPEED
}

/// How many frames closing a door takes.
pub open spec fn closing_time() -> int {
    DOOR_CLOSING_FRAMES * DOOR_SPEED
}

/// A door after a frame with the player at `player_rect` and `star_count`
/// stars collected: it notes whether the player is at it, unlocks once
/// enough stars are collected, and goes on opening or closing.
pub open spec fn door_after(d: Door, player_rect: Rect<Subpixels>, star_count: i32) -> Door {
    let (state, frame) = match d.state {
        DoorState::Locked => if star_count >= d.stars_needed {
            (DoorState::Unlocking, 0u32)
        } else {
            (DoorState::Locked, d.frame)
        },
        DoorState::Unlocking => if d.frame + 1 >= unlocking_time() {
            (DoorState::Open, 0u32)
        } else {
            (DoorState::Unlocking, (d.frame + 1) as u32)
        },
        DoorState::Closing => if d.frame + 1 >= closing_time() {
            (DoorState::Closed, 0u32)
        } else {
            (DoorState::Closing, (d.frame + 1) as u32)
        },
        s => (s, d.frame),
    };
    Door { active: d.area.spec_intersects(player_rect), state, frame, ..d }
}

/// Whether `d` is the door that object `o` describes, as it stands before
/// the first frame: locked if it needs stars, else open.
pub open spec fn door_made(d: Door, o: MapObject) -> bool {
    &&& d.area == Rect::<Subpixels>::from_spec(o.position)
    &&& opt_text(d.destination) == opt_text(o.properties.destination)
    &&& d.stars_needed == o.properties.stars_needed
    &&& d.state == (if o.properties.stars_needed > 0 { DoorState::Locked } else { DoorState::Open })
    &&& d.frame == 0
    &&& !d.active
}

impl Door {
    /// The door that a map object describes: locked if it needs stars.
    pub fn new(obj: &MapObject) -> (r: Door)
        ensures
            door_made(r, *obj),
    {
        let destination = match &obj.properties.destination {
            Some(d) => Some(d.clone()),
            None => None,
        };
        let state = if obj.properties.stars_needed > 0 {
            DoorState::Locked
        } else {
            DoorState::Open
        };
        Door {
            area: Rect::<Subpixels>::from(obj.position),
            destination,
            stars_needed: obj.properties.stars_needed,
            state,
            frame: 0,
            active: false,
        }
    }

    pub fn is_open(&self) -> (r: bool)
        ensures
            r == (self.state == DoorState::Open),
    {
        self.state == DoorState::Open
    }

    pub fn is_closed(&self) -> (r: bool)
        ensures
            r == (self.state == DoorState::Closed),
    {
        self.state == DoorState::Closed
    }

    /// Starts closing the door behind the player.
    pub fn close(&mut self)
        ensures
            final(self).state == DoorState::Closing,
            final(self).frame == 0,
            final(self).area == old(self).area,
            final(self).destination == old(self).destination,
            final(self).stars_needed == old(self).stars_needed,
            final(self).active == old(self).active,
    {
        self.state = DoorState::Closing;
        self.frame = 0;
    }

    /// One frame of the door: it notes whether the player is at it, unlocks
    /// once enough stars are collected, and goes on opening or closing.
    pub fn update(&mut self, player_rect: Rect<Subpixels>, star_count: i32)
        requires
            old(self).area.edges_fit(),
            player_rect.edges_fit(),
        ensures
            *final(self) == door_after(*old(self), player_rect, star_count),
            final(self).active == old(self).area.spec_intersects(player_rect),
            final(self).area == old(self).area,
            final(self).destination == old(self).destination,
            final(self).stars_needed == old(self).stars_needed,
            (final(self).state, final(self).frame) == (match old(self).state {
                DoorState::Locked => if star_count >= old(self).stars_needed {
                    (DoorState::Unlocking, 0u32)
                } else {
                    (DoorState::Locked, old(self).frame)
                },
                DoorState::Unlocking => if old(self).frame + 1 >= unlocking_time() {
                    (DoorState::Open, 0u32)
                } else {
                    (DoorState::Unlocking, (old(self).frame + 1) as u32)
                },
                DoorState::Closing => if old(self).frame + 1 >= closing_time() {
                    (DoorState::Closed, 0u32)
                } else {
                    (DoorState::Closing, (old(self).frame + 1) as u32)
                },
                s => (s, old(self).frame),
            }),
    {
        self.active = self.area.intersects(player_rect);
        match self.state {
            DoorState::Locked => {
                if star_count >= self.stars_needed {
                    self.state = DoorState::Unlocking;
                    self.frame = 0;
                }
            },
            DoorState::Unlocking => {
                if self.frame >= DOOR_UNLOCKING_FRAMES * DOOR_SPEED - 1 {
                    self.state = DoorState::Open;
                    self.frame = 0;
                } else {
                    self.frame = self.frame + 1;
                }
            },
            DoorState::Closing => {
                if self.frame >= DOOR_CLOSING_FRAMES * DOOR_SPEED - 1 {
                    self.state = DoorState::Closed;
                    self.frame = 0;
                } else {
                    self.frame = self.frame + 1;
                }
            },
            _ => {},
        }
    }
}

} // verus!
