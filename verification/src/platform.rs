//! Platforms: moving platforms, falling bagels, conveyors, springs and buttons.
use vstd::prelude::*;

use crate::constants::{
    BAGEL_FALL_TIME, BAGEL_GRAVITY_ACCELERATION, BAGEL_MAX_GRAVITY, BAGEL_WAIT_TIME, BUTTON_DELAY,
    BUTTON_MAX_LEVEL, SPRING_SPEED, SPRING_STALL_FRAMES, SPRING_STEPS,
};
use crate::error::Error;
use crate::geometry::{fits_i32, trunc_div, Coord, Pixels, Point, Rect, Subpixels, SUBPIXELS};
use crate::soundmanager::{Sound, SoundManager};
use crate::switchstate::{after_command, condition_holds, flipped, SwitchState};
use crate::properties::opt_text;
use crate::sprite::SpriteSheet;
use crate::text::{append, same_text};
use crate::tilemap::{in_world, rect_in_world, ButtonType, ConveyorDirection, MapObject, Overflow, TileIndex, TileMap, WORLD};
use crate::mapdraw::draw_entry;
use crate::rendercontext::{to_pixels, RenderContext, RenderLayer, SpriteBatchEntry};
use crate::utils::{push_back, try_move_to_bounds, Direction};

verus! {

pub enum PlatformType {
    MovingPlatform(MovingPlatform),
    Bagel(Bagel),
    Conveyor(Conveyor),
    Spring(Spring),
    Button(Button),
}

/// Something the player can stand on, and what kind of thing it is.
pub struct Platform {
    pub id: i32,
    pub tile_gid: TileIndex,
    pub position: Rect<Subpixels>,
    pub delta: Point<Subpixels>,
    pub solid: bool,
    pub occupied: bool,
    pub subtype: PlatformType,
}

/// A platform that travels along a straight track.
pub struct MovingPlatform {
    pub direction: Direction,
    pub distance: Subpixels,
    pub speed: Subpixels,
    pub start: Point<Subpixels>,
    pub end: Point<Subpixels>,
    pub moving_forward: bool,
    pub condition: Option<String>,
    pub overflow: Overflow,
}

/// A platform that falls a while after it is stood on, then comes back.
pub struct Bagel {
    pub original_y: Subpixels,
    pub falling: bool,
    pub remaining: i32,
}

/// A platform that carries what stands on it sideways.
pub struct Conveyor;

/// A spring that sinks under the player and then throws them up.
pub struct Spring {
    pub up: bool,
    pub pos: Subpixels,
    pub stall_counter: i32,
    pub launch: bool,
    pub sprite: SpriteSheet,
}

/// A button that flips a switch when stepped on.
pub struct Button {
    pub level: u32,
    pub original_y: Subpixels,
    pub clicked: bool,
    pub button_type: ButtonType,
    pub was_occupied: bool,
    pub color: String,
    pub sprite: SpriteSheet,
}

/// The sign of an integer.
pub open spec fn sgn(v: int) -> int {
    if v < 0 {
        -1
    } else if v > 0 {
        1
    } else {
        0
    }
}

/// Whether `p` is the platform of map object `obj` as it stands before its
/// first frame: its tile and id, its rectangle in subpixels, unmoving and
/// unoccupied.
pub open spec fn at_rest(p: Platform, obj: MapObject) -> bool {
    &&& obj.gid == Some(p.tile_gid)
    &&& p.id == obj.id
    &&& p.position.x.0 == obj.position.x.0 * SUBPIXELS
    &&& p.position.y.0 == obj.position.y.0 * SUBPIXELS
    &&& p.position.w.0 == obj.position.w.0 * SUBPIXELS
    &&& p.position.h.0 == obj.position.h.0 * SUBPIXELS
    &&& p.delta.x.0 == 0
    &&& p.delta.y.0 == 0
    &&& p.solid == obj.properties.solid
    &&& !p.occupied
}

impl Platform {
    /// A platform for a map object, of the given kind, at rest.
    pub fn new(obj: &MapObject, subtype: PlatformType) -> (r: Result<Platform, Error>)
        requires
            obj.position.scalable(),
        ensures
            obj.gid is None ==> r == Err::<Platform, Error>(Error::MissingGid),
            obj.gid is Some ==> (r matches Ok(p) && at_rest(p, *obj) && p.subtype == subtype),
    {
        let tile_gid = match obj.gid {
            Some(g) => g,
            None => {
                return Err(Error::MissingGid);
            },
        };
        Ok(Platform {
            id: obj.id,
            tile_gid,
            position: obj.position.as_subpixels(),
            delta: Point::<Subpixels>::zero(),
            solid: obj.properties.solid,
            occupied: false,
            subtype,
        })
    }

    pub fn is_solid(&self) -> (r: bool)
        ensures
            r == self.solid,
    {
        self.solid
    }

    pub fn dx(&self) -> (r: Subpixels)
        ensures
            r == self.delta.x,
    {
        self.delta.x
    }

    pub fn dy(&self) -> (r: Subpixels)
        ensures
            r == self.delta.y,
    {
        self.delta.y
    }

    pub fn set_occupied(&mut self, occupied: bool)
        ensures
            final(self).occupied == occupied,
            final(self).position == old(self).position,
            final(self).delta == old(self).delta,
            final(self).solid == old(self).solid,
            final(self).tile_gid == old(self).tile_gid,
            final(self).id == old(self).id,
            final(self).subtype == old(self).subtype,
    {
        self.occupied = occupied;
    }
}

/// The state a moving platform and its base reach after one frame: whether
/// it moves forward, its new position and its velocity.
pub struct MovingStep {
    pub forward: bool,
    pub x: int,
    pub y: int,
    pub dx: int,
    pub dy: int,
}

/// One frame of a moving platform. A platform whose condition fails heads
/// back to its start and stops there. Otherwise it moves at its speed along
/// its track; at the end of the track it wraps to the start, stops just
/// past the end, or turns around, as its overflow says; turned around, it
/// goes back until it is at its start again.
pub open spec fn moving_step(mp: MovingPlatform, pos: Rect<Subpixels>, on: Set<Seq<char>>) -> MovingStep {
    let x = pos.x.0 as int;
    let y = pos.y.0 as int;
    let halted = match mp.condition {
        Some(c) => !condition_holds(on, c@),
        None => false,
    };
    let forward0 = mp.moving_forward && !halted;
    if halted && x == mp.start.x.0 && y == mp.start.y.0 {
        MovingStep { forward: false, x, y, dx: 0, dy: 0 }
    } else {
        let dx0 = mp.speed.0 * sgn(mp.end.x.0 - mp.start.x.0);
        let dy0 = mp.speed.0 * sgn(mp.end.y.0 - mp.start.y.0);
        if forward0 {
            let vertical = mp.direction == Direction::Up || mp.direction == Direction::Down;
            let p = if vertical { y } else { x };
            let e = if vertical { mp.end.y.0 as int } else { mp.end.x.0 as int };
            let s = if vertical { mp.start.y.0 as int } else { mp.start.x.0 as int };
            let d = if vertical { dy0 } else { dx0 };
            let backward = mp.direction == Direction::Up || mp.direction == Direction::Left;
            let past = if backward { p <= e } else { p >= e };
            // Position along the axis before moving, velocity along it, and forward flag.
            let (p1, d1, f1) = if !past {
                (p, d, true)
            } else {
                match mp.overflow {
                    Overflow::Wrap => if backward {
                        (p + mp.distance.0, d, true)
                    } else {
                        (s + (e - p), d, true)
                    },
                    Overflow::Clamp => if backward {
                        (e + 1, 0, true)
                    } else {
                        (e - 1, 0, true)
                    },
                    Overflow::Oscillate => (p, -d, false),
                }
            };
            if vertical {
                MovingStep { forward: f1, x: x + dx0, y: p1 + d1, dx: dx0, dy: d1 }
            } else {
                MovingStep { forward: f1, x: p1 + d1, y: y + dy0, dx: d1, dy: dy0 }
            }
        } else {
            let at_start = match mp.direction {
                Direction::Up => y >= mp.start.y.0,
                Direction::Down => y <= mp.start.y.0,
                Direction::Left => x >= mp.start.x.0,
                Direction::Right => x <= mp.start.x.0,
            };
            if at_start {
                MovingStep { forward: true, x: x + dx0, y: y + dy0, dx: dx0, dy: dy0 }
            } else {
                MovingStep { forward: false, x: x - dx0, y: y - dy0, dx: -dx0, dy: -dy0 }
            }
        }
    }
}

/// Whether a moving platform stays where it is, unmoved, in a frame: it is
/// halted by its condition and rests at its start.
pub open spec fn moving_rests(mp: MovingPlatform, pos: Rect<Subpixels>, on: Set<Seq<char>>) -> bool {
    &&& mp.condition matches Some(c) && !condition_holds(on, c@)
    &&& pos.x.0 == mp.start.x.0
    &&& pos.y.0 == mp.start.y.0
}

/// A moving platform that runs forward, not halted and not yet at its end,
/// takes a step of its speed toward its end on each axis: rightward where
/// its end lies right of its start, leftward where it lies left, not at all
/// where they line up (and likewise down and up), so the step shrinks its
/// distance to the end.
pub proof fn moving_platform_heads_for_its_end(mp: MovingPlatform, pos: Rect<Subpixels>, on: Set<Seq<char>>)
    requires
        mp.moving_forward,
        mp.condition matches Some(c) ==> condition_holds(on, c@),
        match mp.direction {
            Direction::Right => pos.x.0 < mp.end.x.0,
            Direction::Left => pos.x.0 > mp.end.x.0,
            Direction::Down => pos.y.0 < mp.end.y.0,
            Direction::Up => pos.y.0 > mp.end.y.0,
        },
    ensures
        ({
            let st = moving_step(mp, pos, on);
            &&& st.forward
            &&& st.x == pos.x.0 + st.dx
            &&& st.y == pos.y.0 + st.dy
            &&& mp.end.x.0 > mp.start.x.0 ==> st.dx == mp.speed.0
            &&& mp.end.x.0 < mp.start.x.0 ==> st.dx == -mp.speed.0
            &&& mp.end.x.0 == mp.start.x.0 ==> st.dx == 0
            &&& mp.end.y.0 > mp.start.y.0 ==> st.dy == mp.speed.0
            &&& mp.end.y.0 < mp.start.y.0 ==> st.dy == -mp.speed.0
            &&& mp.end.y.0 == mp.start.y.0 ==> st.dy == 0
        }),
{
    let sx = sgn(mp.end.x.0 - mp.start.x.0);
    let sy = sgn(mp.end.y.0 - mp.start.y.0);
    assert(mp.speed.0 * sx == (if sx == 1 { mp.speed.0 as int } else if sx == -1 { -mp.speed.0 } else { 0 })) by (nonlinear_arith)
        requires
            sx == 1 || sx == -1 || sx == 0;
    assert(mp.speed.0 * sy == (if sy == 1 { mp.speed.0 as int } else if sy == -1 { -mp.speed.0 } else { 0 })) by (nonlinear_arith)
        requires
            sy == 1 || sy == -1 || sy == 0;
}

/// A moving platform on its way back, not yet at its start, takes a step of
/// its speed toward its start on each axis.
pub proof fn moving_platform_returns_to_its_start(mp: MovingPlatform, pos: Rect<Subpixels>, on: Set<Seq<char>>)
    requires
        !mp.moving_forward,
        mp.condition matches Some(c) ==> condition_holds(on, c@),
        match mp.direction {
            Direction::Right => pos.x.0 > mp.start.x.0,
            Direction::Left => pos.x.0 < mp.start.x.0,
            Direction::Down => pos.y.0 > mp.start.y.0,
            Direction::Up => pos.y.0 < mp.start.y.0,
        },
    ensures
        ({
            let st = moving_step(mp, pos, on);
            &&& !st.forward
            &&& st.x == pos.x.0 + st.dx
            &&& st.y == pos.y.0 + st.dy
            &&& mp.end.x.0 > mp.start.x.0 ==> st.dx == -mp.speed.0
            &&& mp.end.x.0 < mp.start.x.0 ==> st.dx == mp.speed.0
            &&& mp.end.x.0 == mp.start.x.0 ==> st.dx == 0
            &&& mp.end.y.0 > mp.start.y.0 ==> st.dy == -mp.speed.0
            &&& mp.end.y.0 < mp.start.y.0 ==> st.dy == mp.speed.0
            &&& mp.end.y.0 == mp.start.y.0 ==> st.dy == 0
        }),
{
    let sx = sgn(mp.end.x.0 - mp.start.x.0);
    let sy = sgn(mp.end.y.0 - mp.start.y.0);
    assert(mp.speed.0 * sx == (if sx == 1 { mp.speed.0 as int } else if sx == -1 { -mp.speed.0 } else { 0 })) by (nonlinear_arith)
        requires
            sx == 1 || sx == -1 || sx == 0;
    assert(mp.speed.0 * sy == (if sy == 1 { mp.speed.0 as int } else if sy == -1 { -mp.speed.0 } else { 0 })) by (nonlinear_arith)
        requires
            sy == 1 || sy == -1 || sy == 0;
}

/// Positions and speeds small enough that a frame of movement stays within an `i32`.
pub open spec fn moving_fits(mp: MovingPlatform, pos: Rect<Subpixels>) -> bool {
    &&& in_world(pos.x.0 as int)
    &&& in_world(pos.y.0 as int)
    &&& in_world(mp.start.x.0 as int)
    &&& in_world(mp.start.y.0 as int)
    &&& in_world(mp.end.x.0 as int)
    &&& in_world(mp.end.y.0 as int)
    &&& in_world(mp.distance.0 as int)
    &&& in_world(mp.speed.0 as int)
}

/// A quantity in the world scaled by a sign stays in the world.
proof fn lemma_scaled_by_sign(v: int, s: int)
    requires
        in_world(v),
        -1 <= s <= 1,
    ensures
        in_world(v * s),
        v * s == (if s == 1 { v } else if s == -1 { -v } else { 0 }),
{
    if s == 1 {
        assert(v * s == v) by (nonlinear_arith)
            requires
                s == 1,
        ;
    } else if s == -1 {
        assert(v * s == -v) by (nonlinear_arith)
            requires
                s == -1,
        ;
    } else {
        assert(v * s == 0) by (nonlinear_arith)
            requires
                s == 0,
        ;
    }
}

/// Whether `p` is the moving platform that object `o` makes, at rest, on a
/// map with tiles of the given size.
pub open spec fn moving_made(p: Platform, o: MapObject, tilewidth: Pixels, tileheight: Pixels) -> bool {
    &&& at_rest(p, o)
    &&& p.subtype matches PlatformType::MovingPlatform(mp) && moving_platform_of(mp, o, tilewidth, tileheight)
}

/// Whether `p` is the bagel that object `o` makes, resting where it stands.
pub open spec fn bagel_made(p: Platform, o: MapObject) -> bool {
    &&& at_rest(p, o)
    &&& p.subtype matches PlatformType::Bagel(b) && b.original_y.0 == o.position.y.0 * SUBPIXELS && !b.falling
        && b.remaining == BAGEL_WAIT_TIME
}

/// Whether `p` is the conveyor that object `o` makes: moving sideways at
/// its speed (24 subpixels a frame by default), in the direction of its
/// convey property.
pub open spec fn conveyor_made(p: Platform, o: MapObject) -> bool {
    &&& p.subtype == PlatformType::Conveyor(Conveyor)
    &&& p.delta.x.0 == (match o.properties.convey {
        Some(ConveyorDirection::Left) => -platform_speed(o.properties.speed, 24),
        _ => platform_speed(o.properties.speed, 24),
    })
    &&& at_rest(Platform { delta: Point { x: Subpixels(0), y: p.delta.y }, ..p }, o)
}

/// Whether `p` is the spring that object `o` makes, at rest and up, drawn
/// from `sprite`.
pub open spec fn spring_made(p: Platform, o: MapObject, sprite: SpriteSheet) -> bool {
    &&& at_rest(p, o)
    &&& p.subtype == PlatformType::Spring(
        Spring { up: false, pos: Subpixels(0), stall_counter: SPRING_STALL_FRAMES, launch: false, sprite },
    )
}

/// Whether `p` is the button that object `o` makes: up, of its color (red
/// by default) and button type, drawn from `sprite`, sinking a pixel while
/// stood on.
pub open spec fn button_made(p: Platform, o: MapObject, sprite: SpriteSheet) -> bool {
    &&& p.subtype matches PlatformType::Button(b) && b.level == 0 && b.original_y.0 == o.position.y.0 * SUBPIXELS
        && !b.clicked && b.button_type == o.properties.button_type && !b.was_occupied && b.sprite == sprite
        && b.color@ == (match o.properties.color {
            Some(c) => c@,
            None => "red"@,
        })
    &&& p.delta.y.0 == SUBPIXELS
    &&& at_rest(Platform { delta: Point { x: p.delta.x, y: Subpixels(0) }, ..p }, o)
}

impl MovingPlatform {
    fn update(&mut self, base: &mut Platform, switches: &SwitchState)
        requires
            !moving_rests(*old(self), old(base).position, switches@) ==> moving_fits(*old(self), old(base).position),
        ensures
            ({
                let st = moving_step(*old(self), old(base).position, switches@);
                &&& final(self).moving_forward == st.forward
                &&& final(base).position.x.0 == st.x
                &&& final(base).position.y.0 == st.y
                &&& final(base).delta.x.0 == st.dx
                &&& final(base).delta.y.0 == st.dy
            }),
            final(base).position.w == old(base).position.w,
            final(base).position.h == old(base).position.h,
            final(base).solid == old(base).solid,
            final(base).occupied == old(base).occupied,
            final(base).tile_gid == old(base).tile_gid,
            final(base).id == old(base).id,
            final(base).subtype == old(base).subtype,
            final(self).direction == old(self).direction,
            final(self).distance == old(self).distance,
            final(self).speed == old(self).speed,
            final(self).start == old(self).start,
            final(self).end == old(self).end,
            final(self).condition == old(self).condition,
            final(self).overflow == old(self).overflow,
    {
        let mut halted = false;
        match &self.condition {
            Some(condition) => {
                if !switches.is_condition_true(condition.as_str()) {
                    halted = true;
                }
            },
            None => {},
        }
        if halted {
            self.moving_forward = false;
            if base.position.x.0 == self.start.x.0 && base.position.y.0 == self.start.y.0 {
                base.delta = Point::<Subpixels>::zero();
                return;
            }
        }
        let sx: i32 = (self.end.x - self.start.x).sign();
        let sy: i32 = (self.end.y - self.start.y).sign();
        proof {
            lemma_scaled_by_sign(self.speed.0 as int, sx as int);
            lemma_scaled_by_sign(self.speed.0 as int, sy as int);
        }
        base.delta.x = Subpixels(self.speed.0 * sx);
        base.delta.y = Subpixels(self.speed.0 * sy);
        if self.moving_forward {
            match self.direction {
                Direction::Up => {
                    if base.position.y.0 <= self.end.y.0 {
                        match self.overflow {
                            Overflow::Wrap => base.position.y = base.position.y + self.distance,
                            Overflow::Clamp => {
                                base.delta.y = Subpixels::zero();
                                base.position.y = self.end.y + Subpixels::new(1);
                            },
                            Overflow::Oscillate => {
                                base.delta.y = base.delta.y * -1;
                                self.moving_forward = false;
                            },
                        }
                    }
                },
                Direction::Down => {
                    if base.position.y.0 >= self.end.y.0 {
                        match self.overflow {
                            Overflow::Wrap => {
                                base.position.y = self.start.y + (self.end.y - base.position.y)
                            },
                            Overflow::Clamp => {
                                base.delta.y = Subpixels::zero();
                                base.position.y = self.end.y - Subpixels::new(1);
                            },
                            Overflow::Oscillate => {
                                base.delta.y = base.delta.y * -1;
                                self.moving_forward = false;
                            },
                        }
                    }
                },
                Direction::Left => {
                    if base.position.x.0 <= self.end.x.0 {
                        match self.overflow {
                            Overflow::Wrap => base.position.x = base.position.x + self.distance,
                            Overflow::Clamp => {
                                base.delta.x = Subpixels::zero();
                                base.position.x = self.end.x + Subpixels::new(1);
                            },
                            Overflow::Oscillate => {
                                base.delta.x = base.delta.x * -1;
                                self.moving_forward = false;
                            },
                        }
                    }
                },
                Direction::Right => {
                    if base.position.x.0 >= self.end.x.0 {
                        match self.overflow {
                            Overflow::Wrap => {
                                base.position.x = self.start.x + (self.end.x - base.position.x)
                            },
                            Overflow::Clamp => {
                                base.delta.x = Subpixels::zero();
                                base.position.x = self.end.x - Subpixels::new(1);
                            },
                            Overflow::Oscillate => {
                                base.delta.x = base.delta.x * -1;
                                self.moving_forward = false;
                            },
                        }
                    }
                },
            }
        } else {
            // It must be oscillating.
            let at_start = match self.direction {
                Direction::Up => base.position.y.0 >= self.start.y.0,
                Direction::Down => base.position.y.0 <= self.start.y.0,
                Direction::Left => base.position.x.0 >= self.start.x.0,
                Direction::Right => base.position.x.0 <= self.start.x.0,
            };
            if at_start {
                self.moving_forward = true;
            } else {
                base.delta.x = base.delta.x * -1;
                base.delta.y = base.delta.y * -1;
            }
        }
        base.position = base.position + base.delta;
    }
}

/// The step along each axis that a direction takes.
pub open spec fn unit_of(d: Direction) -> (int, int) {
    match d {
        Direction::Up => (0, -1),
        Direction::Down => (0, 1),
        Direction::Left => (-1, 0),
        Direction::Right => (1, 0),
    }
}

/// The speed, in subpixels a frame, of a platform whose speed property is
/// `speed` pixels per 16 frames, `default` where it has none.
pub open spec fn platform_speed(speed: Option<Pixels>, default: i32) -> int {
    let px = match speed {
        Some(p) => p.0 as int,
        None => default as int,
    };
    trunc_div(px * SUBPIXELS, 16)
}

/// The length, in subpixels, of the track of a moving platform: its
/// distance property in tiles along its direction.
pub open spec fn track_length(obj: MapObject, tilewidth: Pixels, tileheight: Pixels) -> int {
    let tile = match obj.properties.direction {
        Direction::Up | Direction::Down => tileheight.0 as int,
        Direction::Left | Direction::Right => tilewidth.0 as int,
    };
    tile * SUBPIXELS * obj.properties.distance
}

/// The sizes that a moving platform's set-up computes fit in an `i32`.
pub open spec fn moving_platform_fits(obj: MapObject, tilewidth: Pixels, tileheight: Pixels) -> bool {
    let tile = match obj.properties.direction {
        Direction::Up | Direction::Down => tileheight.0 as int,
        Direction::Left | Direction::Right => tilewidth.0 as int,
    };
    let len = track_length(obj, tilewidth, tileheight);
    let (sx, sy) = unit_of(obj.properties.direction);
    &&& obj.position.scalable()
    &&& fits_i32(tile * SUBPIXELS)
    &&& fits_i32(len)
    &&& fits_i32(len * sx)
    &&& fits_i32(len * sy)
    &&& fits_i32(obj.position.x.0 * SUBPIXELS + len * sx)
    &&& fits_i32(obj.position.y.0 * SUBPIXELS + len * sy)
    &&& obj.properties.speed matches Some(sp) ==> fits_i32(sp.0 * SUBPIXELS)
}

/// Whether `mp` is the moving platform that map object `obj` describes: it
/// starts where the object stands, heading forward, and its track runs its
/// distance in tiles in its direction.
pub open spec fn moving_platform_of(mp: MovingPlatform, obj: MapObject, tilewidth: Pixels, tileheight: Pixels) -> bool {
    let len = track_length(obj, tilewidth, tileheight);
    let (sx, sy) = unit_of(obj.properties.direction);
    &&& mp.direction == obj.properties.direction
    &&& mp.distance.0 == len
    &&& mp.speed.0 == platform_speed(obj.properties.speed, 1)
    &&& mp.start.x.0 == obj.position.x.0 * SUBPIXELS
    &&& mp.start.y.0 == obj.position.y.0 * SUBPIXELS
    &&& mp.end.x.0 == mp.start.x.0 + len * sx
    &&& mp.end.y.0 == mp.start.y.0 + len * sy
    &&& mp.moving_forward
    &&& opt_text(mp.condition) == opt_text(obj.properties.condition)
    &&& mp.overflow == obj.properties.overflow
}

/// A copy of an optional string.
fn copy_text(s: &Option<String>) -> (r: Option<String>)
    ensures
        opt_text(r) == opt_text(*s),
{
    match s {
        Some(t) => Some(t.clone()),
        None => None,
    }
}

/// The speed of a platform in subpixels a frame, from a speed in pixels per
/// 16 frames.
fn speed_from(speed: Option<Pixels>, default: i32) -> (r: Subpixels)
    requires
        speed matches Some(sp) ==> fits_i32(sp.0 * SUBPIXELS),
        fits_i32(default * SUBPIXELS),
    ensures
        r.0 == platform_speed(speed, default),
{
    let px = match speed {
        Some(p) => p,
        None => Pixels::new(default),
    };
    px.as_subpixels() / 16
}

impl MovingPlatform {
    /// The moving platform that a map object describes, on a map with tiles
    /// of the given size.
    pub fn new(obj: &MapObject, tilewidth: Pixels, tileheight: Pixels) -> (r: Result<Platform, Error>)
        requires
            moving_platform_fits(*obj, tilewidth, tileheight),
        ensures
            obj.gid is None ==> r == Err::<Platform, Error>(Error::MissingGid),
            obj.gid is Some ==> (r matches Ok(p) && moving_made(p, *obj, tilewidth, tileheight)),
    {
        let (dist_mult, sx, sy): (Pixels, i32, i32) = match obj.properties.direction {
            Direction::Up => (tileheight, 0, -1),
            Direction::Down => (tileheight, 0, 1),
            Direction::Left => (tilewidth, -1, 0),
            Direction::Right => (tilewidth, 1, 0),
        };
        // The speed is per 16 frames because that is what it was tuned for.
        let speed = speed_from(obj.properties.speed, 1);
        let dist_mult = dist_mult.as_subpixels();
        proof {
            assert(dist_mult.0 * obj.properties.distance == track_length(*obj, tilewidth, tileheight));
        }
        let distance = dist_mult * obj.properties.distance;
        proof {
            lemma_scaled_by_sign_fits(distance.0 as int, sx as int);
            lemma_scaled_by_sign_fits(distance.0 as int, sy as int);
        }
        let start = obj.position.top_left().as_subpixels();
        let end = start + Point::new(distance * sx, distance * sy);
        let moving_platform = MovingPlatform {
            direction: obj.properties.direction,
            speed,
            distance,
            start,
            end,
            moving_forward: true,
            condition: copy_text(&obj.properties.condition),
            overflow: obj.properties.overflow,
        };
        Platform::new(obj, PlatformType::MovingPlatform(moving_platform))
    }
}

/// Scaling a quantity by a sign keeps it an `i32`.
proof fn lemma_scaled_by_sign_fits(v: int, s: int)
    requires
        fits_i32(v * s),
        -1 <= s <= 1,
    ensures
        v * s == (if s == 1 { v } else if s == -1 { -v } else { 0 }),
{
    if s == 1 {
        assert(v * s == v) by (nonlinear_arith)
            requires
                s == 1,
        ;
    } else if s == -1 {
        assert(v * s == -v) by (nonlinear_arith)
            requires
                s == -1,
        ;
    } else {
        assert(v * s == 0) by (nonlinear_arith)
            requires
                s == 0,
        ;
    }
}

impl Bagel {
    /// The bagel that a map object describes, resting where it stands.
    pub fn new(obj: &MapObject) -> (r: Result<Platform, Error>)
        requires
            obj.position.scalable(),
        ensures
            obj.gid is None ==> r == Err::<Platform, Error>(Error::MissingGid),
            obj.gid is Some ==> (r matches Ok(p) && bagel_made(p, *obj)),
    {
        let original_y = obj.position.y.as_subpixels();
        let bagel = Bagel { original_y, falling: false, remaining: BAGEL_WAIT_TIME };
        Platform::new(obj, PlatformType::Bagel(bagel))
    }
}

impl Conveyor {
    /// The conveyor that a map object describes: a platform that moves
    /// sideways at its speed (24 pixels per 16 frames by default), in the
    /// direction of its convey property.
    pub fn new(obj: &MapObject) -> (r: Result<Platform, Error>)
        requires
            obj.position.scalable(),
            obj.properties.convey is Some,
            obj.properties.speed matches Some(sp) ==> fits_i32(sp.0 * SUBPIXELS),
        ensures
            obj.gid is None ==> r == Err::<Platform, Error>(Error::MissingGid),
            obj.gid is Some ==> (r matches Ok(p) && conveyor_made(p, *obj)),
    {
        // This is hand-tuned.
        let speed = speed_from(obj.properties.speed, 24);
        let dx = match obj.properties.convey {
            Some(ConveyorDirection::Left) => speed * -1,
            _ => speed,
        };
        let mut base = Platform::new(obj, PlatformType::Conveyor(Conveyor))?;
        base.delta.x = dx;
        Ok(base)
    }
}

impl Spring {
    /// The spring that a map object describes, at rest and up, drawn from
    /// the frames of `sprite`.
    pub fn new(obj: &MapObject, sprite: SpriteSheet) -> (r: Result<Platform, Error>)
        requires
            obj.position.scalable(),
        ensures
            obj.gid is None ==> r == Err::<Platform, Error>(Error::MissingGid),
            obj.gid is Some ==> (r matches Ok(p) && spring_made(p, *obj, sprite)),
    {
        let spring = Spring {
            up: false,
            pos: Subpixels::zero(),
            stall_counter: SPRING_STALL_FRAMES,
            launch: false,
            sprite,
        };
        Platform::new(obj, PlatformType::Spring(spring))
    }

    /// The frame of the spring's animation: how many whole pixels it is down.
    pub fn frame(&self) -> (r: i32)
        ensures
            r == trunc_div(self.pos.0 as int, SUBPIXELS as int),
    {
        self.pos.as_pixels().0
    }

    /// Whether a player on the spring gets thrown: while it springs back up,
    /// or at the bottom of its travel.
    pub fn should_boost(&self) -> (r: bool)
        ensures
            r == (self.up || trunc_div(self.pos.0 as int, SUBPIXELS as int) == SPRING_STEPS - 1),
    {
        self.up || (self.frame() == SPRING_STEPS - 1)
    }
}

/// The text that names a button's image: its color, except that the
/// `!white` button is drawn black.
pub open spec fn button_image_color(color: Seq<char>) -> Seq<char> {
    if color == seq!['!', 'w', 'h', 'i', 't', 'e'] {
        seq!['b', 'l', 'a', 'c', 'k']
    } else {
        color
    }
}

/// The path of the sprite sheet of a button of the given color.
pub fn get_button_image_path(color: &str) -> (r: String)
    ensures
        r@ == "assets/sprites/buttons/"@ + button_image_color(color@) + ".png"@,
{
    proof {
        reveal_strlit("!white");
        assert("!white"@ =~= seq!['!', 'w', 'h', 'i', 't', 'e']);
        reveal_strlit("black");
        assert("black"@ =~= seq!['b', 'l', 'a', 'c', 'k']);
    }
    let color = if same_text(color, "!white") {
        "black"
    } else {
        color
    };
    let mut path = String::new();
    append(&mut path, "assets/sprites/buttons/");
    append(&mut path, color);
    append(&mut path, ".png");
    path
}

impl Button {
    /// The button that a map object describes, up, of its color (red by
    /// default) and button type, drawn from the frames of `sprite`; it
    /// sinks a pixel while stood on.
    pub fn new(obj: &MapObject, sprite: SpriteSheet) -> (r: Result<Platform, Error>)
        requires
            obj.position.scalable(),
        ensures
            obj.gid is None ==> r == Err::<Platform, Error>(Error::MissingGid),
            obj.gid is Some ==> (r matches Ok(p) && button_made(p, *obj, sprite)),
    {
        let color = match &obj.properties.color {
            Some(c) => c.clone(),
            None => "red".to_owned(),
        };
        let button = Button {
            level: 0,
            original_y: obj.position.y.as_subpixels(),
            clicked: false,
            button_type: obj.properties.button_type,
            was_occupied: false,
            color,
            sprite,
        };
        let mut base = Platform::new(obj, PlatformType::Button(button))?;
        // A button sinks a whole pixel while it is stood on.
        base.delta.y = Pixels::new(1).as_subpixels();
        Ok(base)
    }
}

/// The base of a platform after a frame in which its kind moved it only
/// vertically: everything but its height and vertical speed kept.
pub open spec fn kept_but_vertical(p0: Platform, p1: Platform) -> bool {
    &&& p1.id == p0.id
    &&& p1.tile_gid == p0.tile_gid
    &&& p1.solid == p0.solid
    &&& p1.occupied == p0.occupied
    &&& p1.position.x == p0.position.x
    &&& p1.position.w == p0.position.w
    &&& p1.position.h == p0.position.h
    &&& p1.delta.x == p0.delta.x
    &&& p1.subtype == p0.subtype
}

/// One frame of a bagel. Stood on, it waits out its wait time and then
/// falls, faster each frame, for its fall time; then it is back where it
/// started, at rest. Left alone before it falls, its wait starts over.
pub open spec fn bagel_stepped(b0: Bagel, p0: Platform, b1: Bagel, p1: Platform) -> bool {
    let y0 = p0.position.y.0 as int;
    let dy0 = p0.delta.y.0 as int;
    &&& kept_but_vertical(p0, p1)
    &&& b1.original_y == b0.original_y
    &&& if b0.falling {
        if b0.remaining - 1 == 0 {
            &&& !b1.falling
            &&& b1.remaining == BAGEL_WAIT_TIME
            &&& p1.delta.y.0 == 0
            &&& p1.position.y == b0.original_y
        } else {
            // The speed only ever grows: it is at least the bagel's maximum
            // gravity from the first falling frame on.
            let d = if dy0 + BAGEL_GRAVITY_ACCELERATION < BAGEL_MAX_GRAVITY {
                BAGEL_MAX_GRAVITY as int
            } else {
                dy0 + BAGEL_GRAVITY_ACCELERATION
            };
            &&& b1.falling
            &&& b1.remaining == b0.remaining - 1
            &&& p1.delta.y.0 == d
            &&& p1.position.y.0 == y0 + d
        }
    } else if p0.occupied {
        &&& p1.position.y == p0.position.y
        &&& if b0.remaining - 1 == 0 {
            &&& b1.falling
            &&& b1.remaining == BAGEL_FALL_TIME
            &&& p1.delta.y.0 == 0
        } else {
            &&& !b1.falling
            &&& b1.remaining == b0.remaining - 1
            &&& p1.delta.y == p0.delta.y
        }
    } else {
        &&& !b1.falling
        &&& b1.remaining == BAGEL_WAIT_TIME
        &&& p1.delta.y == p0.delta.y
        &&& p1.position.y == p0.position.y
    }
}

/// The bounds under which a bagel's frame stays within an `i32`.
pub open spec fn bagel_fits(b: Bagel, p: Platform) -> bool {
    &&& b.remaining > i32::MIN
    &&& in_world(p.delta.y.0 as int)
    &&& in_world(p.position.y.0 as int)
}

impl Bagel {
    fn update(&mut self, base: &mut Platform)
        requires
            bagel_fits(*old(self), *old(base)),
        ensures
            bagel_stepped(*old(self), *old(base), *final(self), *final(base)),
    {
        if self.falling {
            self.remaining = self.remaining - 1;
            if self.remaining == 0 {
                base.delta.y = Subpixels::zero();
                base.position.y = self.original_y;
                self.falling = false;
                self.remaining = BAGEL_WAIT_TIME;
            } else {
                base.delta.y = base.delta.y + Subpixels::new(BAGEL_GRAVITY_ACCELERATION);
                if base.delta.y.0 < BAGEL_MAX_GRAVITY {
                    base.delta.y = Subpixels::new(BAGEL_MAX_GRAVITY);
                }
                base.position.y = base.position.y + base.delta.y;
            }
        } else if base.occupied {
            self.remaining = self.remaining - 1;
            if self.remaining == 0 {
                self.falling = true;
                self.remaining = BAGEL_FALL_TIME;
                base.delta.y = Subpixels::zero();
            }
        } else {
            self.remaining = BAGEL_WAIT_TIME;
        }
    }
}

/// One frame of a spring. Stood on, it sinks a pixel a frame to the bottom
/// of its travel, stays there a while, then springs back up a pixel a frame
/// and throws the player once it is all the way up. Left alone, it goes
/// back up.
pub open spec fn spring_stepped(s0: Spring, p0: Platform, s1: Spring, p1: Platform) -> bool {
    let pos = s0.pos.0 as int;
    &&& p1.id == p0.id
    &&& p1.tile_gid == p0.tile_gid
    &&& p1.solid == p0.solid
    &&& p1.occupied == p0.occupied
    &&& p1.position == p0.position
    &&& p1.subtype == p0.subtype
    &&& p1.delta.x.0 == 0
    &&& s1.sprite == s0.sprite
    &&& if !p0.occupied || s0.up {
        &&& s1.stall_counter == SPRING_STALL_FRAMES
        &&& s1.up == (p0.occupied && s0.up)
        &&& if pos > 0 {
            &&& s1.pos.0 == pos - SPRING_SPEED
            &&& p1.delta.y.0 == -SPRING_SPEED
            &&& !s1.launch
        } else {
            &&& s1.pos == s0.pos
            &&& p1.delta.y.0 == 0
            &&& s1.launch == p0.occupied
        }
    } else if pos < SPRING_STEPS * SUBPIXELS - SPRING_SPEED {
        &&& s1.stall_counter == SPRING_STALL_FRAMES
        &&& !s1.up
        &&& s1.pos.0 == pos + SPRING_SPEED
        &&& p1.delta.y.0 == SPRING_SPEED
        &&& !s1.launch
    } else if s0.stall_counter > 0 {
        &&& s1.stall_counter == s0.stall_counter - 1
        &&& !s1.up
        &&& s1.pos == s0.pos
        &&& p1.delta.y.0 == 0
        &&& !s1.launch
    } else {
        &&& s1.stall_counter == SPRING_STALL_FRAMES
        &&& s1.up
        &&& s1.pos == s0.pos
        &&& p1.delta.y.0 == 0
        &&& !s1.launch
    }
}

impl Spring {
    fn update(&mut self, base: &mut Platform)
        ensures
            spring_stepped(*old(self), *old(base), *final(self), *final(base)),
    {
        base.delta = Point::<Subpixels>::zero();
        self.launch = false;
        if !base.occupied {
            // Nobody is on it, so it resets.
            self.stall_counter = SPRING_STALL_FRAMES;
            self.up = false;
            if self.pos.0 > 0 {
                self.pos = self.pos - Subpixels::new(SPRING_SPEED);
                base.delta.y = Subpixels::new(SPRING_SPEED) * -1;
            }
        } else if self.up {
            // It is bouncing back up.
            self.stall_counter = SPRING_STALL_FRAMES;
            if self.pos.0 > 0 {
                self.pos = self.pos - Subpixels::new(SPRING_SPEED);
                base.delta.y = Subpixels::new(SPRING_SPEED) * -1;
            } else {
                self.launch = true;
            }
        } else if self.pos.0 < Pixels::new(SPRING_STEPS).as_subpixels().0 - SPRING_SPEED {
            // It is still going down.
            self.stall_counter = SPRING_STALL_FRAMES;
            self.pos = self.pos + Subpixels::new(SPRING_SPEED);
            base.delta.y = Subpixels::new(SPRING_SPEED);
        } else if self.stall_counter > 0 {
            // It is at the bottom, but has not been there long enough.
            self.stall_counter = self.stall_counter - 1;
        } else {
            // It has been at the bottom long enough: time to go up.
            self.stall_counter = SPRING_STALL_FRAMES;
            self.up = true;
        }
    }
}

/// Whether a button is down after a frame: a smart button follows the
/// condition its color names, stepping on it clicks a one-shot or smart
/// button and flips a toggle, and a momentary button is down exactly while
/// stood on.
pub open spec fn button_clicked(b: Button, occupied: bool, on: Set<Seq<char>>) -> bool {
    let c0 = if b.button_type == ButtonType::Smart {
        condition_holds(on, b.color@)
    } else {
        b.clicked
    };
    let c1 = if occupied && !b.was_occupied {
        match b.button_type {
            ButtonType::OneShot | ButtonType::Smart => true,
            ButtonType::Toggle => !c0,
            ButtonType::Momentary => c0,
        }
    } else {
        c0
    };
    if b.button_type == ButtonType::Momentary {
        occupied
    } else {
        c1
    }
}

/// One frame of a button. It sinks while down and rises while up, a level
/// a frame; when it changes it clicks, and flips the switch its color
/// names (a smart button instead runs its color as a command, when it goes
/// down under the player; a one-shot button does nothing when it comes up).
pub open spec fn button_stepped(
    b0: Button,
    p0: Platform,
    on0: Set<Seq<char>>,
    snd0: Seq<Sound>,
    b1: Button,
    p1: Platform,
    on1: Set<Seq<char>>,
    snd1: Seq<Sound>,
) -> bool {
    let clicked = button_clicked(b0, p0.occupied, on0);
    let level = if clicked {
        if b0.level < BUTTON_MAX_LEVEL { b0.level + 1 } else { b0.level as int }
    } else if b0.level > 0 {
        b0.level - 1
    } else {
        0
    };
    &&& kept_but_vertical(p0, p1)
    &&& p1.delta.y == p0.delta.y
    &&& b1.clicked == clicked
    &&& b1.was_occupied == p0.occupied
    &&& b1.level == level
    &&& p1.position.y.0 == b0.original_y.0 + level * SUBPIXELS / (BUTTON_DELAY as int)
    &&& b1.original_y == b0.original_y
    &&& b1.button_type == b0.button_type
    &&& b1.color@ == b0.color@
    &&& b1.sprite == b0.sprite
    &&& if clicked != b0.clicked {
        &&& snd1 == snd0.push(Sound::Click)
        &&& on1 == if b0.button_type == ButtonType::Smart {
            if clicked && p0.occupied {
                after_command(on0, b0.color@)
            } else {
                on0
            }
        } else if clicked || b0.button_type != ButtonType::OneShot {
            flipped(on0, b0.color@)
        } else {
            on0
        }
    } else {
        &&& snd1 == snd0
        &&& on1 == on0
    }
}

/// The bounds under which a button's frame stays within an `i32`.
pub open spec fn button_fits(b: Button) -> bool {
    &&& b.level <= BUTTON_MAX_LEVEL
    &&& in_world(b.original_y.0 as int)
}

impl Button {
    fn update(&mut self, base: &mut Platform, switches: &mut SwitchState, sounds: &mut SoundManager)
        requires
            button_fits(*old(self)),
        ensures
            button_stepped(
                *old(self),
                *old(base),
                old(switches)@,
                old(sounds)@,
                *final(self),
                *final(base),
                final(switches)@,
                final(sounds)@,
            ),
            button_fits(*final(self)),
    {
        let was_clicked = self.clicked;
        if self.button_type == ButtonType::Smart {
            self.clicked = switches.is_condition_true(self.color.as_str());
        }
        if base.occupied && !self.was_occupied {
            self.clicked = match self.button_type {
                ButtonType::OneShot | ButtonType::Smart => true,
                ButtonType::Toggle => !self.clicked,
                ButtonType::Momentary => self.clicked,
            };
        }
        self.was_occupied = base.occupied;
        if self.button_type == ButtonType::Momentary {
            self.clicked = base.occupied;
        }
        if self.clicked {
            if self.level < BUTTON_MAX_LEVEL {
                self.level = self.level + 1;
            }
        } else if self.level > 0 {
            self.level = self.level - 1;
        }
        let sunk = Pixels::new(self.level as i32).as_subpixels() / (BUTTON_DELAY as i32);
        base.position.y = self.original_y + sunk;
        if self.clicked != was_clicked {
            sounds.play(Sound::Click);
            if self.button_type == ButtonType::Smart {
                if self.clicked && base.occupied {
                    switches.apply_command(self.color.as_str());
                }
            } else if self.clicked || self.button_type != ButtonType::OneShot {
                switches.toggle(self.color.as_str());
            }
        }
    }
}

/// One frame of a moving platform, as its base and its kind see it.
pub open spec fn moving_stepped(mp0: MovingPlatform, p0: Platform, on: Set<Seq<char>>, mp1: MovingPlatform, p1: Platform) -> bool {
    let st = moving_step(mp0, p0.position, on);
    &&& mp1.moving_forward == st.forward
    &&& p1.position.x.0 == st.x
    &&& p1.position.y.0 == st.y
    &&& p1.delta.x.0 == st.dx
    &&& p1.delta.y.0 == st.dy
    &&& p1.position.w == p0.position.w
    &&& p1.position.h == p0.position.h
    &&& p1.id == p0.id
    &&& p1.tile_gid == p0.tile_gid
    &&& p1.solid == p0.solid
    &&& p1.occupied == p0.occupied
    &&& mp1.direction == mp0.direction
    &&& mp1.distance == mp0.distance
    &&& mp1.speed == mp0.speed
    &&& mp1.start == mp0.start
    &&& mp1.end == mp0.end
    &&& opt_text(mp1.condition) == opt_text(mp0.condition)
    &&& mp1.overflow == mp0.overflow
}

/// The bounds under which a platform's frame stays within an `i32`.
pub open spec fn platform_fits(p: Platform) -> bool {
    match p.subtype {
        PlatformType::MovingPlatform(mp) => moving_fits(mp, p.position),
        PlatformType::Bagel(b) => bagel_fits(b, p),
        PlatformType::Button(b) => button_fits(b),
        _ => true,
    }
}

/// One frame of a platform, whatever its kind: what it does to itself, to
/// the switches and to the sounds asked for.
pub open spec fn platform_stepped(
    p0: Platform,
    on0: Set<Seq<char>>,
    snd0: Seq<Sound>,
    p1: Platform,
    on1: Set<Seq<char>>,
    snd1: Seq<Sound>,
) -> bool {
    match p0.subtype {
        PlatformType::MovingPlatform(mp0) => p1.subtype matches PlatformType::MovingPlatform(mp1)
            && moving_stepped(mp0, p0, on0, mp1, p1) && on1 == on0 && snd1 == snd0,
        PlatformType::Bagel(b0) => p1.subtype matches PlatformType::Bagel(b1)
            && bagel_stepped(b0, p0, b1, Platform { subtype: p0.subtype, ..p1 }) && on1 == on0 && snd1 == snd0,
        PlatformType::Conveyor(_) => p1 == p0 && on1 == on0 && snd1 == snd0,
        PlatformType::Spring(s0) => p1.subtype matches PlatformType::Spring(s1)
            && spring_stepped(s0, p0, s1, Platform { subtype: p0.subtype, ..p1 }) && on1 == on0 && snd1 == snd0,
        PlatformType::Button(b0) => p1.subtype matches PlatformType::Button(b1)
            && button_stepped(b0, p0, on0, snd0, b1, Platform { subtype: p0.subtype, ..p1 }, on1, snd1),
    }
}

impl Platform {
    /// Runs one frame of the platform.
    pub fn update(&mut self, switches: &mut SwitchState, sounds: &mut SoundManager)
        requires
            platform_fits(*old(self)),
        ensures
            platform_stepped(*old(self), old(switches)@, old(sounds)@, *final(self), final(switches)@, final(sounds)@),
    {
        // Take the kind out for the frame, so that both it and the base can
        // change; a conveyor is trivial to build as a stand-in.
        let mut subtype = PlatformType::Conveyor(Conveyor);
        std::mem::swap(&mut subtype, &mut self.subtype);
        match subtype {
            PlatformType::MovingPlatform(mut platform) => {
                platform.update(self, switches);
                self.subtype = PlatformType::MovingPlatform(platform);
            },
            PlatformType::Bagel(mut bagel) => {
                bagel.update(self);
                self.subtype = PlatformType::Bagel(bagel);
            },
            PlatformType::Conveyor(c) => {
                self.subtype = PlatformType::Conveyor(c);
            },
            PlatformType::Spring(mut spring) => {
                spring.update(self);
                self.subtype = PlatformType::Spring(spring);
            },
            PlatformType::Button(mut button) => {
                button.update(self, switches, sounds);
                self.subtype = PlatformType::Button(button);
            },
        }
    }
}

/// How far down a platform's surface is: a spring's travel, nothing for
/// the other kinds.
pub open spec fn sunk_by(p: Platform) -> int {
    match p.subtype {
        PlatformType::Spring(s) => s.pos.0 as int,
        _ => 0,
    }
}

/// The part of a platform that stops the player: all of it below its
/// surface for a solid one, the top half for one that can be passed
/// from below.
pub open spec fn blocking_area(p: Platform) -> Rect<Subpixels> {
    let sunk = sunk_by(p);
    Rect {
        x: p.position.x,
        y: Subpixels((p.position.y.0 + sunk) as i32),
        w: p.position.w,
        h: if p.solid {
            Subpixels((p.position.h.0 - sunk) as i32)
        } else {
            Subpixels(trunc_div(p.position.h.0 as int, 2) as i32)
        },
    }
}

/// The offset that moves a player out of a platform: a solid platform
/// blocks from every side; any other only catches a player falling onto
/// it, and not one moving back.
pub open spec fn platform_push(p: Platform, player: Rect<Subpixels>, direction: Direction, is_backwards: bool) -> int {
    if !p.solid && (direction != Direction::Down || is_backwards) {
        0
    } else {
        push_back(player, blocking_area(p), direction)
    }
}

/// The bounds under which a platform's collision tests stay within an `i32`.
pub open spec fn platform_in_world(p: Platform) -> bool {
    &&& rect_in_world(p.position)
    &&& in_world(sunk_by(p))
}

/// Whether pushing the player's rectangle out of a platform can be worked
/// out in an `i32`: nothing is worked out where the platform cannot catch
/// the player; otherwise the platform's stopping area, the player's
/// rectangle and the push must fit.
pub open spec fn platform_push_fits(p: Platform, player: Rect<Subpixels>, direction: Direction, is_backwards: bool) -> bool {
    !p.solid && (direction != Direction::Down || is_backwards) || {
        &&& fits_i32(p.position.y.0 + sunk_by(p))
        &&& fits_i32(p.position.h.0 - sunk_by(p))
        &&& player.edges_fit()
        &&& blocking_area(p).edges_fit()
        &&& fits_i32(push_back(player, blocking_area(p), direction))
    }
}

/// A platform and a player within the world's bounds can always be
/// pushed apart in an `i32`.
pub proof fn lemma_push_fits(p: Platform, player: Rect<Subpixels>, direction: Direction, is_backwards: bool)
    requires
        platform_in_world(p),
        rect_in_world(player),
    ensures
        platform_push_fits(p, player, direction, is_backwards),
{
}

impl Spring {
    fn try_move_to(&self, base: &Platform, player_rect: Rect<Subpixels>, direction: Direction, is_backwards: bool) -> (r: Subpixels)
        requires
            base.subtype == PlatformType::Spring(*self),
            platform_push_fits(*base, player_rect, direction, is_backwards),
        ensures
            r.0 == platform_push(*base, player_rect, direction, is_backwards),
    {
        if base.solid {
            let area = Rect {
                x: base.position.x,
                y: base.position.y + self.pos,
                w: base.position.w,
                h: base.position.h - self.pos,
            };
            try_move_to_bounds(player_rect, area, direction)
        } else {
            if direction != Direction::Down {
                return Subpixels::zero();
            }
            if is_backwards {
                return Subpixels::zero();
            }
            let area = Rect {
                x: base.position.x,
                y: base.position.y + self.pos,
                w: base.position.w,
                h: base.position.h / 2,
            };
            try_move_to_bounds(player_rect, area, direction)
        }
    }
}

impl Platform {
    /// The offset that moves the player's rectangle, moving in `direction`,
    /// out of this platform.
    pub fn try_move_to(&self, player_rect: Rect<Subpixels>, direction: Direction, is_backwards: bool) -> (r: Subpixels)
        requires
            platform_push_fits(*self, player_rect, direction, is_backwards),
        ensures
            r.0 == platform_push(*self, player_rect, direction, is_backwards),
    {
        if let PlatformType::Spring(spring) = &self.subtype {
            return spring.try_move_to(self, player_rect, direction, is_backwards);
        }
        let area = if self.solid {
            self.position
        } else {
            if direction != Direction::Down {
                return Subpixels::zero();
            }
            if is_backwards {
                return Subpixels::zero();
            }
            Rect { x: self.position.x, y: self.position.y, w: self.position.w, h: self.position.h / 2 }
        };
        try_move_to_bounds(player_rect, area, direction)
    }
}


/// A random byte: calls `rand::random::<u8>()`. Nothing is stated of the
/// byte it gives.
#[verifier::external_body]
fn random_u8() -> (r: u8) {
    rand::random::<u8>()
}

/// How far a bagel under the player shakes along one axis, in subpixels:
/// a byte's remainder by 3, less 1.
pub fn bagel_shake(x: u8) -> (r: i32)
    ensures
        r == (x % 3) as int - 1,
        -1 <= r <= 1,
{
    (x % 3) as i32 - 1
}

/// Whether the frames of a sheet are small enough to be cut out of it.
pub open spec fn sheet_drawable(s: SpriteSheet) -> bool {
    &&& 0 <= s.sprite_width.0 <= 0x1000
    &&& 0 <= s.sprite_height.0 <= 0x1000
}

/// The batch entry that draws a tile of a map at `dest`.
pub open spec fn tile_entry(map: TileMap, tile_gid: TileIndex, dest: Rect<Subpixels>) -> SpriteBatchEntry {
    let ts = map.sets()[map.set_of(tile_gid)];
    draw_entry((ts.sprite, ts.source_rect(map.local_of(tile_gid)), dest))
}

/// The batch entry that draws frame `index` of the first row of a sheet
/// at `dest`.
pub open spec fn sheet_entry(s: SpriteSheet, index: int, dest: Rect<Subpixels>) -> SpriteBatchEntry {
    SpriteBatchEntry::Sprite { sprite: s.sprite, source: s.frame_rect(index, 0), destination: to_pixels(dest), reversed: false }
}

impl Platform {
    /// Where the platform is drawn: its rectangle moved by `offset`.
    pub open spec fn dest(&self, offset: Point<Subpixels>) -> Rect<Subpixels> {
        Rect {
            x: Subpixels((self.position.x.0 + offset.x.0) as i32),
            y: Subpixels((self.position.y.0 + offset.y.0) as i32),
            w: self.position.w,
            h: self.position.h,
        }
    }

    /// Whether the platform can be drawn with `offset` on `map`: its place
    /// and the offset are within the world, and what it is drawn from can
    /// be drawn.
    pub open spec fn drawable(&self, map: TileMap, offset: Point<Subpixels>) -> bool {
        &&& in_world(self.position.x.0 as int)
        &&& in_world(self.position.y.0 as int)
        &&& in_world(offset.x.0 as int)
        &&& in_world(offset.y.0 as int)
        &&& match self.subtype {
            PlatformType::Spring(sp) => sheet_drawable(sp.sprite) && 0 <= sp.pos.0 <= SPRING_STEPS * SUBPIXELS,
            PlatformType::Button(b) => sheet_drawable(b.sprite) && button_fits(b),
            PlatformType::Bagel(_) => {
                &&& map.tile_drawable(self.tile_gid)
                &&& 0 <= map.tilewidth.0 * SUBPIXELS <= WORLD
                &&& 0 <= map.tileheight.0 * SUBPIXELS <= WORLD
            },
            _ => map.tile_drawable(self.tile_gid),
        }
    }

    /// What the platform draws in game frame `frame`, a bagel under the
    /// player shaken by `shake` subpixels: a bagel its tile, the size of a
    /// map tile; a spring the frame of its sheet for how many whole pixels
    /// it is down; a button the frame for its level (two levels a frame),
    /// at its resting height; any other platform the current frame of its
    /// tile's animation, or its tile.
    pub open spec fn drawn(&self, map: TileMap, offset: Point<Subpixels>, frame: u64, shake: (i32, i32)) -> SpriteBatchEntry {
        let d = self.dest(offset);
        match self.subtype {
            PlatformType::Bagel(_) => {
                let (sx, sy) = if self.occupied { shake } else { (0i32, 0i32) };
                tile_entry(map, self.tile_gid, Rect {
                    x: Subpixels((d.x.0 + sx) as i32),
                    y: Subpixels((d.y.0 + sy) as i32),
                    w: Subpixels((map.tilewidth.0 * SUBPIXELS) as i32),
                    h: Subpixels((map.tileheight.0 * SUBPIXELS) as i32),
                })
            },
            PlatformType::Spring(sp) => sheet_entry(sp.sprite, trunc_div(sp.pos.0 as int, SUBPIXELS as int), d),
            PlatformType::Button(b) => sheet_entry(
                b.sprite,
                (b.level / BUTTON_DELAY) as int,
                Rect { y: Subpixels((b.original_y.0 + offset.y.0) as i32), ..d },
            ),
            _ => match map.sets()[map.set_of(self.tile_gid)].spec_animation(map.local_of(self.tile_gid)) {
                Some(a) => sheet_entry(a.sheet, a.frame_at(frame), d),
                None => tile_entry(map, self.tile_gid, d),
            },
        }
    }

    /// Draws the platform, a bagel under the player shaken by `shake`
    /// subpixels.
    pub fn draw_at(&self, map: &TileMap, context: &mut RenderContext, layer: RenderLayer, offset: Point<Subpixels>, shake: (i32, i32))
        requires
            self.drawable(*map, offset),
            -1 <= shake.0 <= 1,
            -1 <= shake.1 <= 1,
        ensures
            final(context).batch(layer).entries@ == old(context).batch(layer).entries@.push(
                self.drawn(*map, offset, old(context).frame, shake)),
            final(context).batch(layer).clear_color == old(context).batch(layer).clear_color,
            RenderContext::with_batch(*old(context), *final(context), layer, final(context).batch(layer)),
    {
        let x: i32 = self.position.x.0 + offset.x.0;
        let y: i32 = self.position.y.0 + offset.y.0;
        let dest = Rect { x: Subpixels(x), y: Subpixels(y), w: self.position.w, h: self.position.h };
        match &self.subtype {
            PlatformType::Bagel(_) => {
                let (sx, sy) = if self.occupied { shake } else { (0i32, 0i32) };
                let dest = Rect {
                    x: Subpixels(x + sx),
                    y: Subpixels(y + sy),
                    w: map.tilewidth.as_subpixels(),
                    h: map.tileheight.as_subpixels(),
                };
                map.draw_tile(context, self.tile_gid, layer, dest);
            },
            PlatformType::Spring(sp) => {
                let index: i32 = sp.frame();
                proof {
                    let w = sp.sprite.sprite_width.0 as int;
                    assert(0 <= index <= SPRING_STEPS);
                    assert(0 <= w * index <= 0x1000 * SPRING_STEPS) by (nonlinear_arith)
                        requires
                            0 <= w <= 0x1000,
                            0 <= index <= SPRING_STEPS,
                    ;
                }
                sp.sprite.blit(context, layer, dest, index as u32, 0, false);
            },
            PlatformType::Button(b) => {
                let dest = Rect { y: Subpixels(b.original_y.0 + offset.y.0), ..dest };
                let index: u32 = b.level / BUTTON_DELAY;
                proof {
                    let w = b.sprite.sprite_width.0 as int;
                    assert(0 <= w * index <= 0x1000 * BUTTON_MAX_LEVEL) by (nonlinear_arith)
                        requires
                            0 <= w <= 0x1000,
                            0 <= index <= BUTTON_MAX_LEVEL,
                    ;
                }
                b.sprite.blit(context, layer, dest, index, 0, false);
            },
            _ => {
                proof {
                    crate::tilemap::lemma_lookup_exists(map.sets(), self.tile_gid.0);
                }
                match map.get_animation(self.tile_gid) {
                    Some(anim) => {
                        proof {
                            let ts = map.sets()[map.set_of(self.tile_gid)];
                            assert(ts.animations@[map.local_of(self.tile_gid).0 as int] == Some(anim));
                        }
                        anim.blit(context, layer, dest, false);
                    },
                    None => {
                        map.draw_tile(context, self.tile_gid, layer, dest);
                    },
                }
            },
        }
    }

    /// Draws the platform; a bagel under the player shakes at random by up
    /// to a subpixel along each axis.
    pub fn draw(&self, map: &TileMap, context: &mut RenderContext, layer: RenderLayer, offset: Point<Subpixels>)
        requires
            self.drawable(*map, offset),
        ensures
            exists|sx: i32, sy: i32|
                -1 <= sx <= 1 && -1 <= sy <= 1 && final(context).batch(layer).entries@
                    == old(context).batch(layer).entries@.push(#[trigger] self.drawn(*map, offset, old(context).frame, (sx, sy))),
            final(context).batch(layer).clear_color == old(context).batch(layer).clear_color,
            RenderContext::with_batch(*old(context), *final(context), layer, final(context).batch(layer)),
    {
        let is_bagel = match &self.subtype {
            PlatformType::Bagel(_) => true,
            _ => false,
        };
        let shake = if self.occupied && is_bagel {
            (bagel_shake(random_u8()), bagel_shake(random_u8()))
        } else {
            (0i32, 0i32)
        };
        self.draw_at(map, context, layer, offset, shake);
        assert(context.batch(layer).entries@ == old(context).batch(layer).entries@.push(
            self.drawn(*map, offset, old(context).frame, shake)));
    }
}

} // verus!
