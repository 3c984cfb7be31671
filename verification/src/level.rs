//! A level being played: the player's movement and its collisions with the
//! map and the platforms, the switches, stars, doors and warps.
use vstd::prelude::*;

use crate::constants::{
    COYOTE_TIME, FALL_ACCELERATION, JUMP_ACCELERATION, JUMP_GRACE_TIME, JUMP_INITIAL_SPEED,
    PLAYER_DEFAULT_X, PLAYER_DEFAULT_Y, SLIDE_SPEED_DECELERATION, SPRING_BOUNCE_DURATION,
    SPRING_BOUNCE_VELOCITY, SPRING_JUMP_DURATION, SPRING_JUMP_VELOCITY, SPRING_STEPS, TARGET_WALK_SPEED,
    TOAST_HEIGHT, TOAST_SPEED, TOAST_TIME, VIEWPORT_PAN_SPEED, WALK_SPEED_ACCELERATION, WALK_SPEED_DECELERATION,
    WALL_JUMP_HORIZONTAL_SPEED, WALL_JUMP_VERTICAL_SPEED, WALL_SLIDE_SPEED, WALL_SLIDE_TIME,
    WALL_STICK_TIME, MAX_LIGHTS,
};
use crate::door::{door_after, door_made, Door, DoorState};
use crate::geometry::{fits_i32, trunc_div, Coord, Pixels, Point, Rect, Subpixels, SUBPIXELS};
use crate::inputmanager::InputSnapshot;
use crate::menu::{menu_update_fits, Menu};
use crate::platform::{bagel_made, button_made, conveyor_made, moving_made, spring_made, moving_platform_fits, Bagel, Button, Conveyor, MovingPlatform, Spring, platform_fits, platform_in_world, platform_push, platform_stepped, Platform, PlatformType};
use crate::player::{sprite_after, Player, PlayerState};
use crate::smallintset::SmallIntSet;
use crate::soundmanager::{Sound, SoundManager};
use crate::sprite::SpriteSheet;
use crate::star::{star_made, Star};
use crate::switchstate::SwitchState;
use crate::error::Error;
use crate::tilemap::{preferred_of, MapObject, has_tileset, in_world, rect_in_world, Probe, TileIndex, TileMap};
use crate::tileset::Slope;
use crate::properties::opt_text;
use crate::switchstate::after_command;
use crate::scene::SceneResult;
use crate::text::{append, decimal, push_decimal};
use crate::utils::{direction_order, order_in_direction, Color, Direction};
use crate::rendercontext::{to_pixels, with_light, Light, RenderContext, RenderLayer, SpriteBatchEntry};
use crate::warp::{warp_made, Warp};

verus! {

/// The platforms the player touches when moving, and how far they push.
pub struct PlatformIntersectionResult {
    pub offset: Subpixels,
    pub platforms: SmallIntSet<usize>,
}

/// The outcome of trying to move the player: how far back it has to go,
/// and the tiles or the platforms that stop it.
pub struct TryMovePlayerResult {
    pub offset: Subpixels,
    pub tile_ids: SmallIntSet<TileIndex>,
    pub platforms: SmallIntSet<usize>,
}

/// What moving the player along one axis ran into.
pub struct MoveAndCheckResult {
    pub on_ground: bool,
    pub on_tile_ids: SmallIntSet<TileIndex>,
    pub on_platforms: SmallIntSet<usize>,
    pub hit_ceiling: bool,
    pub against_wall: bool,
    pub crushed_by_platform: bool,
    pub stuck_in_wall: bool,
}

/// What moving the player sideways ran into.
pub struct MovePlayerXResult {
    pub pushing_against_wall: bool,
    pub stuck_in_wall: bool,
    pub crushed_by_platform: bool,
}

/// What moving the player up or down ran into.
pub struct MovePlayerYResult {
    pub on_ground: bool,
    pub stuck_in_wall: bool,
    pub crushed_by_platform: bool,
}

/// What the player's movement in a frame found, with the controls that
/// decide what they do next.
#[derive(Debug, Clone, Copy)]
pub struct PlayerMovementResult {
    pub on_ground: bool,
    pub pushing_against_wall: bool,
    pub jump_down: bool,
    pub jump_triggered: bool,
    pub crouch_down: bool,
    pub stuck_in_wall: bool,
    pub crushed_by_platform: bool,
}

/// A level being played.
pub struct Level {
    pub name: String,
    pub map_path: String,
    pub map: TileMap,
    pub player: Player,
    pub pause_menu: Menu,
    pub paused: bool,
    pub wall_stick_counter: i32,
    pub wall_stick_facing_right: bool,
    pub wall_slide_counter: i32,
    pub coyote_counter: i32,
    pub jump_grace_counter: i32,
    pub spring_counter: i32,
    pub previous_map_offset: Option<Point<Subpixels>>,
    pub toast_text: String,
    pub toast_position: Subpixels,
    pub toast_counter: i32,
    pub platforms: Vec<Platform>,
    pub stars: Vec<Star>,
    pub doors: Vec<Door>,
    pub warps: Vec<Warp>,
    pub star_count: i32,
    pub current_platform: Option<usize>,
    pub current_slopes: SmallIntSet<TileIndex>,
    pub switches: SwitchState,
    pub current_switch_tiles: SmallIntSet<TileIndex>,
    pub current_door: Option<usize>,
}

/// Moves the player right by `offset`.
pub fn inc_player_x(player: &mut Player, offset: Subpixels)
    requires
        fits_i32(old(player).position.x.0 + offset.0),
    ensures
        *final(player) == (Player { position: Point { x: Subpixels((old(player).position.x.0 + offset.0) as i32), y: old(player).position.y }, ..*old(player) }),
{
    player.position.x = player.position.x + offset;
}

/// Moves the player down by `offset`.
pub fn inc_player_y(player: &mut Player, offset: Subpixels)
    requires
        fits_i32(old(player).position.y.0 + offset.0),
    ensures
        *final(player) == (Player { position: Point { x: old(player).position.x, y: Subpixels((old(player).position.y.0 + offset.0) as i32) }, ..*old(player) }),
{
    player.position.y = player.position.y + offset;
}

/// The horizontal speed the player's controls aim for: walking left or
/// right while just one of the two is held.
pub open spec fn target_dx(left: bool, right: bool) -> int {
    if left && !right {
        -TARGET_WALK_SPEED
    } else if right && !left {
        TARGET_WALK_SPEED as int
    } else {
        0
    }
}

/// The horizontal speed after a frame. Crouching, the player slides to a
/// stop. Otherwise the speed moves toward the target: speeding up in the
/// direction of travel and slowing down against it by their rates, without
/// passing the target.
pub open spec fn trajectory_x(state: PlayerState, dx: int, left: bool, right: bool) -> int {
    if state == PlayerState::Crouching {
        if dx > 0 {
            if dx - SLIDE_SPEED_DECELERATION > 0 { dx - SLIDE_SPEED_DECELERATION } else { 0 }
        } else if dx < 0 {
            if dx + SLIDE_SPEED_DECELERATION < 0 { dx + SLIDE_SPEED_DECELERATION } else { 0 }
        } else {
            0
        }
    } else {
        let target = target_dx(left, right);
        let (up, down) = if dx > 0 {
            (WALK_SPEED_ACCELERATION as int, WALK_SPEED_DECELERATION as int)
        } else if dx < 0 {
            (WALK_SPEED_DECELERATION as int, WALK_SPEED_ACCELERATION as int)
        } else {
            (WALK_SPEED_ACCELERATION as int, WALK_SPEED_ACCELERATION as int)
        };
        let d1 = if target > dx {
            if dx + up < target { dx + up } else { target }
        } else {
            dx
        };
        if target < d1 {
            if d1 - down > target { d1 - down } else { target }
        } else {
            d1
        }
    }
}

/// The vertical speed after a frame, and the wall-slide counter: standing
/// or crouching, the player falls at least a subpixel to find the ground
/// again; jumping or falling, gravity pulls up to its limit; sliding down a
/// wall, the player first clings for a while.
pub open spec fn trajectory_y(state: PlayerState, dy: int, gravity: int, wall_slide_counter: int) -> (int, int) {
    match state {
        PlayerState::Standing | PlayerState::Crouching => (if dy < 1 { 1 } else { dy }, wall_slide_counter),
        PlayerState::Jumping => {
            let d = if dy < gravity { dy + JUMP_ACCELERATION } else { dy };
            (if d < gravity { d } else { gravity }, wall_slide_counter)
        },
        PlayerState::Falling => {
            let d = if dy < gravity { dy + FALL_ACCELERATION } else { dy };
            (if d < gravity { d } else { gravity }, wall_slide_counter)
        },
        PlayerState::WallSliding => if wall_slide_counter > 0 {
            (0, wall_slide_counter - 1)
        } else {
            (WALL_SLIDE_SPEED as int, wall_slide_counter)
        },
        PlayerState::Stopped => (dy, wall_slide_counter),
    }
}

/// Controls never make the player walk faster than the walking speed, and
/// every frame brings the speed closer to what the controls ask for.
pub proof fn walking_speed_bounded(state: PlayerState, dx: int, left: bool, right: bool)
    requires
        state != PlayerState::Crouching,
        -TARGET_WALK_SPEED <= dx <= TARGET_WALK_SPEED,
    ensures
        -TARGET_WALK_SPEED <= trajectory_x(state, dx, left, right) <= TARGET_WALK_SPEED,
        ({
            let t = target_dx(left, right);
            let d = trajectory_x(state, dx, left, right);
            &&& dx <= t ==> dx <= d <= t
            &&& dx >= t ==> t <= d <= dx
        }),
{
}

/// Crouching, the player slides to a stop: never faster, never turning.
pub proof fn crouch_slides_to_stop(dx: int, left: bool, right: bool)
    ensures
        ({
            let d = trajectory_x(PlayerState::Crouching, dx, left, right);
            &&& dx >= 0 ==> 0 <= d <= dx
            &&& dx <= 0 ==> dx <= d <= 0
        }),
{
}

/// What platforms do to a probe: the push-back that wins when moving in
/// `direction`, and the platforms that give it, over the first `n`
/// platforms.
pub open spec fn platform_fold(ps: Seq<Platform>, rect: Rect<Subpixels>, direction: Direction, back: bool, n: int) -> (int, Set<usize>)
    decreases n,
{
    if n <= 0 {
        (0, Set::empty())
    } else {
        let (o, s) = platform_fold(ps, rect, direction, back, n - 1);
        let d = platform_push(ps[n - 1], rect, direction, back);
        if d == 0 {
            (o, s)
        } else {
            let c = direction_order(d, o, direction);
            if c == -1 {
                (d, Set::empty().insert((n - 1) as usize))
            } else if c == 0 {
                (o, s.insert((n - 1) as usize))
            } else {
                (o, s)
            }
        }
    }
}

/// Whether the platforms' collision tests stay within bounds.
pub open spec fn platforms_in_world(ps: Seq<Platform>) -> bool {
    forall|i: int| 0 <= i < ps.len() ==> platform_in_world(#[trigger] ps[i])
}

/// The probe of the map for the player moving in `direction`.
pub open spec fn probe_of(l: Level, direction: Direction, back: bool) -> Probe {
    Probe { rect: l.player.bounds(), direction, on: l.switches@, backwards: back }
}

/// Whether the player can be tested against the map and the platforms
/// moving in `direction`: the map is well formed, everything is within the
/// world's bounds, and the player does not stick out of the map on a side
/// other than the one it moves toward.
pub open spec fn probe_ok(l: Level, direction: Direction) -> bool {
    &&& l.map.wf()
    &&& fits_i32(l.player.position.x.0 + l.player.hitbox.x.0)
    &&& fits_i32(l.player.position.y.0 + l.player.hitbox.y.0)
    &&& rect_in_world(l.player.bounds())
    &&& l.map.query_inside(l.player.bounds(), direction)
    &&& platforms_in_world(l.platforms@)
}

/// The outcome of trying to move the player in `direction`: the platforms
/// win over the map when they push at least as far.
pub open spec fn try_move_spec(l: Level, direction: Direction, back: bool) -> (int, Set<TileIndex>, Set<usize>) {
    let m = l.map.move_spec(probe_of(l, direction, back));
    let (po, ps) = platform_fold(l.platforms@, l.player.bounds(), direction, back, l.platforms@.len() as int);
    if direction_order(po, m.0, direction) <= 0 {
        (po, Set::empty(), ps)
    } else {
        (m.0, m.2, Set::empty())
    }
}

/// Whether the members of a set are in increasing order.
pub open spec fn increasing(s: Seq<usize>) -> bool {
    forall|i: int, j: int| 0 <= i < j < s.len() ==> s[i] < s[j]
}

/// What deciding the player's next state does to a level `l0` after a
/// movement `movement`: `l1`.
pub open spec fn state_stepped(l0: Level, movement: PlayerMovementResult, l1: Level) -> bool {
    &&& ({
        let st = state_step(l0, movement);
        &&& l1.player.state == st.state
        &&& l1.player.delta.x.0 == st.dx
        &&& l1.player.delta.y.0 == st.dy
        &&& l1.player.is_dead == st.is_dead
        &&& l1.coyote_counter == st.coyote
        &&& l1.jump_grace_counter == st.grace
        &&& l1.spring_counter == st.spring_counter
        &&& l1.wall_stick_counter == st.wall_stick_counter
        &&& l1.wall_stick_facing_right == st.wall_stick_facing_right
        &&& l1.wall_slide_counter == st.wall_slide_counter
        &&& l1.player == (Player {
            state: l1.player.state,
            delta: l1.player.delta,
            is_dead: l1.player.is_dead,
            ..l0.player
        })
        &&& l1.doors@.len() == l0.doors@.len()
        &&& forall|i: int| 0 <= i < l0.doors@.len() ==> {
            let d0 = #[trigger] l0.doors@[i];
            let d1 = l1.doors@[i];
            if closes_door(l0, movement) && (l0.current_door matches Some(cd) && cd as int == i) {
                &&& d1.state == DoorState::Closing
                &&& d1.frame == 0
                &&& d1.area == d0.area
                &&& d1.destination == d0.destination
                &&& d1.stars_needed == d0.stars_needed
                &&& d1.active == d0.active
            } else {
                d1 == d0
            }
        }
    })
    &&& l1 == (Level {
        player: l1.player,
        coyote_counter: l1.coyote_counter,
        jump_grace_counter: l1.jump_grace_counter,
        spring_counter: l1.spring_counter,
        wall_stick_counter: l1.wall_stick_counter,
        wall_stick_facing_right: l1.wall_stick_facing_right,
        wall_slide_counter: l1.wall_slide_counter,
        doors: l1.doors,
        ..l0
    })
}

impl Level {
    /// Changes the player's horizontal speed for a frame.
    pub fn update_player_trajectory_x(&mut self, inputs: &InputSnapshot)
        requires
            in_world(old(self).player.delta.x.0 as int),
        ensures
            final(self).player.delta.x.0 == trajectory_x(
                old(self).player.state,
                old(self).player.delta.x.0 as int,
                inputs.player_left_down,
                inputs.player_right_down,
            ),
            final(self).player == (Player { delta: Point { x: final(self).player.delta.x, y: old(self).player.delta.y }, ..old(self).player }),
            *final(self) == (Level { player: final(self).player, ..*old(self) }),
    {
        if self.player.state == PlayerState::Crouching {
            let dx = self.player.delta.x.0;
            if dx > 0 {
                let d = dx - SLIDE_SPEED_DECELERATION;
                self.player.delta.x = Subpixels(if d > 0 { d } else { 0 });
            } else if dx < 0 {
                let d = dx + SLIDE_SPEED_DECELERATION;
                self.player.delta.x = Subpixels(if d < 0 { d } else { 0 });
            }
            return;
        }
        // Apply the controls.
        let mut target: i32 = 0;
        if inputs.player_left_down && !inputs.player_right_down {
            target = -TARGET_WALK_SPEED;
        } else if inputs.player_right_down && !inputs.player_left_down {
            target = TARGET_WALK_SPEED;
        }
        // Change the speed toward the target.
        let dx = self.player.delta.x.0;
        let (up, down): (i32, i32) = if dx > 0 {
            // Facing right.
            (WALK_SPEED_ACCELERATION, WALK_SPEED_DECELERATION)
        } else if dx < 0 {
            // Facing left.
            (WALK_SPEED_DECELERATION, WALK_SPEED_ACCELERATION)
        } else {
            // Stopped.
            (WALK_SPEED_ACCELERATION, WALK_SPEED_ACCELERATION)
        };
        let mut d = dx;
        if target > d {
            d = d + up;
            if d > target {
                d = target;
            }
        }
        if target < d {
            d = d - down;
            if d < target {
                d = target;
            }
        }
        self.player.delta.x = Subpixels(d);
    }

    /// Changes the player's vertical speed for a frame.
    pub fn update_player_trajectory_y(&mut self)
        requires
            in_world(old(self).player.delta.y.0 as int),
        ensures
            ({
                let g = match old(self).map.properties.gravity {
                    Some(v) => v.0 as int,
                    None => crate::constants::MAX_GRAVITY as int,
                };
                let (dy, c) = trajectory_y(old(self).player.state, old(self).player.delta.y.0 as int, g, old(self).wall_slide_counter as int);
                &&& final(self).player.delta.y.0 == dy
                &&& final(self).wall_slide_counter == c
            }),
            final(self).player == (Player { delta: Point { x: old(self).player.delta.x, y: final(self).player.delta.y }, ..old(self).player }),
            *final(self) == (Level { player: final(self).player, wall_slide_counter: final(self).wall_slide_counter, ..*old(self) }),
    {
        let gravity = self.map.get_gravity().0;
        let dy = self.player.delta.y.0;
        match self.player.state {
            PlayerState::Standing | PlayerState::Crouching => {
                // Fall at least a subpixel, to hit the ground again.
                if dy < 1 {
                    self.player.delta.y = Subpixels::new(1);
                }
            },
            PlayerState::Jumping => {
                let mut d = dy;
                if d < gravity {
                    d = d + JUMP_ACCELERATION;
                }
                if d > gravity {
                    d = gravity;
                }
                self.player.delta.y = Subpixels(d);
            },
            PlayerState::Falling => {
                let mut d = dy;
                if d < gravity {
                    d = d + FALL_ACCELERATION;
                }
                if d > gravity {
                    d = gravity;
                }
                self.player.delta.y = Subpixels(d);
            },
            PlayerState::WallSliding => {
                // Grabbing a wall, the player clings a while before sliding.
                if self.wall_slide_counter > 0 {
                    self.wall_slide_counter = self.wall_slide_counter - 1;
                    self.player.delta.y = Subpixels::zero();
                } else {
                    self.player.delta.y = Subpixels::new(WALL_SLIDE_SPEED);
                }
            },
            PlayerState::Stopped => {},
        }
    }

    /// The platforms the player's rectangle runs into moving in `direction`,
    /// and the push-back of the nearest.
    pub fn find_platform_intersections(&self, player_rect: Rect<Subpixels>, direction: Direction, is_backwards: bool) -> (r: PlatformIntersectionResult)
        requires
            platforms_in_world(self.platforms@),
            rect_in_world(player_rect),
        ensures
            (r.offset.0 as int, r.platforms@) == platform_fold(self.platforms@, player_rect, direction, is_backwards, self.platforms@.len() as int),
            r.platforms.distinct(),
            increasing(r.platforms.members()),
            forall|i: int| 0 <= i < r.platforms.members().len() ==> #[trigger] r.platforms.members()[i] < self.platforms@.len(),
    {
        let mut result = PlatformIntersectionResult { offset: Subpixels::zero(), platforms: SmallIntSet::new() };
        let n = self.platforms.len();
        let mut i: usize = 0;
        while i < n
            invariant
                n == self.platforms@.len(),
                i <= n,
                platforms_in_world(self.platforms@),
                rect_in_world(player_rect),
                (result.offset.0 as int, result.platforms@) == platform_fold(self.platforms@, player_rect, direction, is_backwards, i as int),
                result.platforms.distinct(),
                increasing(result.platforms.members()),
                forall|k: int| 0 <= k < result.platforms.members().len() ==> #[trigger] result.platforms.members()[k] < i,
                in_world(result.offset.0 as int) || fits_i32(result.offset.0 as int),
            decreases n - i,
        {
            let platform = &self.platforms[i];
            proof {
                assert(platform_in_world(self.platforms@[i as int]));
                crate::platform::lemma_push_fits(self.platforms@[i as int], player_rect, direction, is_backwards);
            }
            let distance = platform.try_move_to(player_rect, direction, is_backwards);
            if distance.is_zero() {
                i = i + 1;
                continue;
            }
            let c = order_in_direction(distance, result.offset, direction);
            if c == -1 {
                {
                    result.offset = distance;
                    result.platforms = SmallIntSet::new();
                    result.platforms.insert(i);
                    proof {
                        assert(result.platforms@ =~= Set::<usize>::empty().insert(i));
                    }
                }
            } else if c == 0 {
                {
                    let ghost before = result.platforms.members();
                    result.platforms.insert(i);
                    proof {
                        assert(!before.contains(i)) by {
                            if before.contains(i) {
                                let k = choose|k: int| 0 <= k < before.len() && before[k] == i;
                                assert(before[k] < i);
                            }
                        }
                        result.platforms.lemma_members();
                    }
                }
            }
            i = i + 1;
        }
        result
    }

    /// How far the player has to move back after moving in `direction`,
    /// and what stops it: the map's tiles, or the platforms where they push
    /// at least as far.
    pub fn try_move_player(&self, direction: Direction, is_backwards: bool) -> (r: TryMovePlayerResult)
        requires
            probe_ok(*self, direction),
        ensures
            (r.offset.0 as int, r.tile_ids@, r.platforms@) == try_move_spec(*self, direction, is_backwards),
            r.tile_ids.distinct(),
            r.platforms.distinct(),
            increasing(r.platforms.members()),
            forall|i: int| 0 <= i < r.platforms.members().len() ==> #[trigger] r.platforms.members()[i] < self.platforms@.len(),
    {
        let player_rect = self.player.get_target_bounds_rect(Some(direction));
        let map_result = self.map.try_move_to(player_rect, direction, &self.switches, is_backwards);
        let platform_result = self.find_platform_intersections(player_rect, direction, is_backwards);
        let c = order_in_direction(platform_result.offset, map_result.hard_offset, direction);
        if c <= 0 {
            TryMovePlayerResult { offset: platform_result.offset, platforms: platform_result.platforms, tile_ids: SmallIntSet::new() }
        } else {
            let r = TryMovePlayerResult { offset: map_result.hard_offset, platforms: SmallIntSet::new(), tile_ids: map_result.tile_ids };
            proof {
                assert(r.platforms.members().len() == 0);
            }
            r
        }
    }

    /// Whether one of the given platforms is solid.
    fn hits_solid(&self, ids: &SmallIntSet<usize>) -> (r: bool)
        requires
            forall|i: int| 0 <= i < ids.members().len() ==> #[trigger] ids.members()[i] < self.platforms@.len(),
        ensures
            r == any_solid(self.platforms@, ids@),
    {
        let n = ids.len();
        let mut k: usize = 0;
        proof {
            ids.lemma_members();
        }
        while k < n
            invariant
                n == ids.members().len(),
                k <= n,
                ids.members().to_set() == ids@,
                forall|i: int| 0 <= i < ids.members().len() ==> #[trigger] ids.members()[i] < self.platforms@.len(),
                forall|j: int| 0 <= j < k ==> !self.platforms@[ids.members()[j] as int].solid,
            decreases n - k,
        {
            let p = ids.get(k);
            if self.platforms[p].is_solid() {
                proof {
                    assert(ids.members().contains(p));
                    assert(ids@.contains(p));
                }
                return true;
            }
            k = k + 1;
        }
        proof {
            if any_solid(self.platforms@, ids@) {
                let i = choose|i: usize| ids@.contains(i) && i < self.platforms@.len() && (#[trigger] self.platforms@[i as int]).solid;
                assert(ids.members().contains(i));
                let j = choose|j: int| 0 <= j < ids.members().len() && ids.members()[j] == i;
                assert(!self.platforms@[ids.members()[j] as int].solid);
            }
        }
        false
    }

    /// Moves the player out of what it ran into moving along an axis, then
    /// back out of anything that pushed it into, and reports what it
    /// touched: the ground or the ceiling, a wall, and whether it is now
    /// crushed by a platform or stuck in a wall.
    pub fn move_and_check(&mut self, forward: Direction, horizontal: bool) -> (r: MoveAndCheckResult)
        requires
            move_ok(*old(self), forward, horizontal),
        ensures
            ({
                let (p, g, t, ps, c, w, crushed, stuck) = move_and_check_spec(*old(self), forward, horizontal);
                &&& final(self).player == p
                &&& r.on_ground == g
                &&& r.on_tile_ids@ == t
                &&& r.on_platforms@ == ps
                &&& r.hit_ceiling == c
                &&& r.against_wall == w
                &&& r.crushed_by_platform == crushed
                &&& r.stuck_in_wall == stuck
            }),
            *final(self) == (Level { player: final(self).player, ..*old(self) }),
            r.on_tile_ids.distinct(),
            r.on_platforms.distinct(),
            increasing(r.on_platforms.members()),
            forall|i: int| 0 <= i < r.on_platforms.members().len() ==> #[trigger] r.on_platforms.members()[i] < old(self).platforms@.len(),
    {
        let ghost l0 = *self;
        let move_result1 = self.try_move_player(forward, false);
        if horizontal {
            inc_player_x(&mut self.player, move_result1.offset);
        } else {
            inc_player_y(&mut self.player, move_result1.offset);
        }
        proof {
            assert(*self == shifted(l0, horizontal, move_result1.offset.0 as int));
        }
        let ghost l1 = *self;
        // Try the opposite direction.
        let move_result2 = self.try_move_player(forward.opposite(), true);
        let offset = move_result2.offset;
        if horizontal {
            inc_player_x(&mut self.player, offset);
        } else {
            inc_player_y(&mut self.player, offset);
        }
        proof {
            assert(*self == shifted(l1, horizontal, offset.0 as int));
        }
        let hit_solid_platform1 = self.hits_solid(&move_result1.platforms);
        let hit_solid_platform2 = self.hits_solid(&move_result2.platforms);
        let mut result = MoveAndCheckResult {
            on_ground: false,
            on_tile_ids: SmallIntSet::new(),
            on_platforms: SmallIntSet::new(),
            hit_ceiling: false,
            against_wall: false,
            crushed_by_platform: false,
            stuck_in_wall: false,
        };
        match forward {
            Direction::Down => {
                result.on_ground = !move_result1.offset.is_zero();
                result.on_tile_ids = move_result1.tile_ids;
                result.on_platforms = move_result1.platforms;
            },
            Direction::Up => {
                // Moving up, what is below is only the ground when not in
                // the air, as on a platform that carries the player up.
                if self.player.state != PlayerState::Jumping && self.player.state != PlayerState::Falling {
                    result.on_ground = !move_result2.offset.is_zero();
                }
                result.hit_ceiling = !move_result1.offset.is_zero();
                result.on_tile_ids = move_result2.tile_ids;
                result.on_platforms = move_result2.platforms;
            },
            Direction::Left | Direction::Right => {
                result.against_wall = !move_result1.offset.is_zero();
            },
        }
        // See whether the player is crushed.
        if !offset.is_zero() {
            let crush_check = self.try_move_player(forward, false);
            if !crush_check.offset.is_zero() {
                let crushed = hit_solid_platform1 || hit_solid_platform2;
                if crushed {
                    result.crushed_by_platform = true;
                } else {
                    result.stuck_in_wall = true;
                }
            }
        }
        proof {
            assert(result.on_platforms.members().len() == 0 || increasing(result.on_platforms.members()));
        }
        result
    }

    /// Remembers the sloped tiles among those the player stands on.
    pub fn handle_slopes(&mut self, tiles: &SmallIntSet<TileIndex>)
        requires
            tiles_known(old(self).map, tiles@),
        ensures
            final(self).current_slopes@ == Set::new(|t: TileIndex| tiles@.contains(t) && is_slope(old(self).map, t)),
            final(self).current_slopes.distinct(),
            *final(self) == (Level { current_slopes: final(self).current_slopes, ..*old(self) }),
    {
        self.current_slopes.clear();
        let n = tiles.len();
        let mut k: usize = 0;
        proof {
            tiles.lemma_members();
        }
        while k < n
            invariant
                n == tiles.members().len(),
                k <= n,
                tiles.members().to_set() == tiles@,
                tiles_known(self.map, tiles@),
                self.current_slopes.distinct(),
                self.current_slopes@ == Set::new(|t: TileIndex| tiles.members().take(k as int).contains(t) && is_slope(self.map, t)),
                *self == (Level { current_slopes: self.current_slopes, ..*old(self) }),
            decreases n - k,
        {
            let t = tiles.get(k);
            proof {
                assert(tiles.members()[k as int] == t);
                assert(tiles.members().contains(t));
                assert(tiles@.contains(t));
            }
            let is_sloped = match self.map.get_tile_properties(t) {
                Some(p) => p.slope,
                None => false,
            };
            if is_sloped {
                self.current_slopes.insert(t);
            }
            proof {
                let next = tiles.members().take(k + 1);
                assert(next =~= tiles.members().take(k as int).push(t));
                assert(is_sloped == is_slope(self.map, t));
                assert forall|u: TileIndex| #[trigger] self.current_slopes@.contains(u) == (next.contains(u) && is_slope(self.map, u)) by {
                    if u == t {
                        assert(next[k as int] == t);
                    } else {
                        assert(next.contains(u) == tiles.members().take(k as int).contains(u)) by {
                            if next.contains(u) {
                                let j = choose|j: int| 0 <= j < next.len() && next[j] == u;
                                assert(j < k);
                                assert(tiles.members().take(k as int)[j] == u);
                            }
                            if tiles.members().take(k as int).contains(u) {
                                let j = choose|j: int| 0 <= j < k && tiles.members().take(k as int)[j] == u;
                                assert(next[j] == u);
                            }
                        }
                    }
                }
                assert(self.current_slopes@ =~= Set::new(|u: TileIndex| next.contains(u) && is_slope(self.map, u)));
            }
            k = k + 1;
        }
        proof {
            assert(tiles.members().take(n as int) =~= tiles.members());
            assert(self.current_slopes@ =~= Set::new(|t: TileIndex| tiles@.contains(t) && is_slope(old(self).map, t)));
        }
    }

    /// Kills the player if one of the tiles they touch is deadly.
    pub fn handle_spikes(&mut self, tiles: &SmallIntSet<TileIndex>)
        requires
            tiles_known(old(self).map, tiles@),
        ensures
            final(self).player.is_dead == (old(self).player.is_dead || exists|t: TileIndex| tiles@.contains(t) && is_deadly(old(self).map, t)),
            *final(self) == (Level { player: Player { is_dead: final(self).player.is_dead, ..old(self).player }, ..*old(self) }),
    {
        let n = tiles.len();
        let mut k: usize = 0;
        proof {
            tiles.lemma_members();
        }
        while k < n
            invariant
                n == tiles.members().len(),
                k <= n,
                tiles.members().to_set() == tiles@,
                tiles_known(self.map, tiles@),
                self.player.is_dead == (old(self).player.is_dead || exists|j: int| 0 <= j < k && is_deadly(self.map, tiles.members()[j])),
                *self == (Level { player: Player { is_dead: self.player.is_dead, ..old(self).player }, ..*old(self) }),
            decreases n - k,
        {
            let t = tiles.get(k);
            proof {
                assert(tiles.members()[k as int] == t);
                assert(tiles.members().contains(t));
                assert(tiles@.contains(t));
            }
            let deadly = match self.map.get_tile_properties(t) {
                Some(p) => p.deadly,
                None => false,
            };
            if deadly {
                self.player.is_dead = true;
            }
            proof {
                if deadly {
                    assert(is_deadly(self.map, tiles.members()[k as int]));
                }
                if !deadly && !old(self).player.is_dead && (exists|j: int| 0 <= j < k + 1 && is_deadly(self.map, tiles.members()[j])) {
                    let j = choose|j: int| 0 <= j < k + 1 && is_deadly(self.map, tiles.members()[j]);
                    assert(j < k);
                }
            }
            k = k + 1;
        }
        proof {
            if exists|t: TileIndex| tiles@.contains(t) && is_deadly(old(self).map, t) {
                let t = choose|t: TileIndex| tiles@.contains(t) && is_deadly(old(self).map, t);
                assert(tiles.members().contains(t));
                let j = choose|j: int| 0 <= j < tiles.members().len() && tiles.members()[j] == t;
                assert(is_deadly(self.map, tiles.members()[j]));
            }
            if exists|j: int| 0 <= j < n && is_deadly(self.map, tiles.members()[j]) {
                let j = choose|j: int| 0 <= j < n && is_deadly(self.map, tiles.members()[j]);
                assert(tiles@.contains(tiles.members()[j]));
            }
        }
    }

    /// Notes the platforms the player stands on: they are occupied, the
    /// others not, and the last of them carries the player.
    pub fn handle_current_platforms(&mut self, platforms: &SmallIntSet<usize>)
        requires
            forall|i: int| 0 <= i < platforms.members().len() ==> #[trigger] platforms.members()[i] < old(self).platforms@.len(),
        ensures
            final(self).platforms@.len() == old(self).platforms@.len(),
            forall|i: int| 0 <= i < old(self).platforms@.len() ==> #[trigger] final(self).platforms@[i] == (Platform { occupied: platforms@.contains(i as usize), ..old(self).platforms@[i] }),
            final(self).current_platform == (if platforms.members().len() == 0 {
                None
            } else {
                Some(platforms.members().last())
            }),
            *final(self) == (Level { platforms: final(self).platforms, current_platform: final(self).current_platform, ..*old(self) }),
    {
        self.current_platform = None;
        let n = self.platforms.len();
        let mut i: usize = 0;
        while i < n
            invariant
                n == self.platforms@.len(),
                n == old(self).platforms@.len(),
                i <= n,
                self.current_platform is None,
                forall|j: int| 0 <= j < i ==> #[trigger] self.platforms@[j] == (Platform { occupied: false, ..old(self).platforms@[j] }),
                forall|j: int| i <= j < n ==> #[trigger] self.platforms@[j] == old(self).platforms@[j],
                *self == (Level { platforms: self.platforms, current_platform: self.current_platform, ..*old(self) }),
            decreases n - i,
        {
            let mut p = self.platforms.remove(i);
            p.set_occupied(false);
            self.platforms.insert(i, p);
            i = i + 1;
        }
        let m = platforms.len();
        let mut k: usize = 0;
        proof {
            platforms.lemma_members();
        }
        while k < m
            invariant
                m == platforms.members().len(),
                k <= m,
                n == self.platforms@.len(),
                n == old(self).platforms@.len(),
                platforms.members().to_set() == platforms@,
                forall|i: int| 0 <= i < platforms.members().len() ==> #[trigger] platforms.members()[i] < n,
                forall|j: int| 0 <= j < n ==> #[trigger] self.platforms@[j] == (Platform { occupied: platforms.members().take(k as int).contains(j as usize), ..old(self).platforms@[j] }),
                self.current_platform == (if k == 0 { None } else { Some(platforms.members()[k - 1]) }),
                *self == (Level { platforms: self.platforms, current_platform: self.current_platform, ..*old(self) }),
            decreases m - k,
        {
            let index = platforms.get(k);
            let mut p = self.platforms.remove(index);
            p.set_occupied(true);
            self.platforms.insert(index, p);
            // The last platform found carries the player.
            self.current_platform = Some(index);
            proof {
                let next = platforms.members().take(k + 1);
                assert(next =~= platforms.members().take(k as int).push(index));
                assert forall|j: int| 0 <= j < n implies #[trigger] self.platforms@[j] == (Platform { occupied: next.contains(j as usize), ..old(self).platforms@[j] }) by {
                    if j as usize == index {
                        assert(next[k as int] == index);
                        assert(next.contains(index));
                    } else {
                        assert(next.contains(j as usize) == platforms.members().take(k as int).contains(j as usize));
                    }
                }
            }
            k = k + 1;
        }
        proof {
            assert(platforms.members().take(m as int) =~= platforms.members());
        }
    }


    /// Runs the switch tiles the player steps on: each switch tile is
    /// remembered, and one that was not stepped on in the last frame clicks
    /// and runs its command.
    pub fn handle_switch_tiles(&mut self, tiles: &SmallIntSet<TileIndex>, sounds: &mut SoundManager)
        requires
            tiles_known(old(self).map, tiles@),
        ensures
            final(self).current_switch_tiles@ == Set::new(|t: TileIndex| tiles@.contains(t) && switch_of(old(self).map, t) is Some),
            final(self).current_switch_tiles.distinct(),
            (final(self).switches@, final(sounds)@) == switch_fold(
                old(self).map,
                tiles.members(),
                old(self).current_switch_tiles@,
                old(self).switches@,
                old(sounds)@,
            ),
            *final(self) == (Level { current_switch_tiles: final(self).current_switch_tiles, switches: final(self).switches, ..*old(self) }),
            tiles.members().no_duplicates(),
    {
        let mut previous: SmallIntSet<TileIndex> = SmallIntSet::new();
        std::mem::swap(&mut previous, &mut self.current_switch_tiles);
        let ghost prev = previous@;
        let n = tiles.len();
        let mut k: usize = 0;
        proof {
            tiles.lemma_members();
            lemma_members_no_duplicates(*tiles);
        }
        while k < n
            invariant
                n == tiles.members().len(),
                k <= n,
                tiles.members().to_set() == tiles@,
                tiles_known(self.map, tiles@),
                prev == previous@,
                prev == old(self).current_switch_tiles@,
                self.current_switch_tiles.distinct(),
                self.current_switch_tiles@ == Set::new(|t: TileIndex| tiles.members().take(k as int).contains(t) && switch_of(self.map, t) is Some),
                (self.switches@, sounds@) == switch_fold(self.map, tiles.members().take(k as int), prev, old(self).switches@, old(sounds)@),
                *self == (Level { current_switch_tiles: self.current_switch_tiles, switches: self.switches, ..*old(self) }),
            decreases n - k,
        {
            let t = tiles.get(k);
            let ghost next = tiles.members().take(k + 1);
            proof {
                assert(tiles.members()[k as int] == t);
                assert(tiles.members().contains(t));
                assert(tiles@.contains(t));
                assert(next =~= tiles.members().take(k as int).push(t));
                assert(next.drop_last() == tiles.members().take(k as int));
            }
            let switch = match self.map.get_tile_properties(t) {
                Some(p) => match &p.switch {
                    Some(sw) => Some(sw.clone()),
                    None => None,
                },
                None => None,
            };
            proof {
                assert(opt_text(switch) == switch_of(self.map, t));
            }
            match switch {
                Some(sw) => {
                    self.current_switch_tiles.insert(t);
                    if !previous.contains(t) {
                        sounds.play(Sound::Click);
                        self.switches.apply_command(sw.as_str());
                    }
                },
                None => {},
            }
            proof {
                assert forall|u: TileIndex| #[trigger] self.current_switch_tiles@.contains(u) == (next.contains(u) && switch_of(self.map, u) is Some) by {
                    if u == t {
                        assert(next[k as int] == t);
                    } else {
                        assert(next.contains(u) == tiles.members().take(k as int).contains(u)) by {
                            if next.contains(u) {
                                let j = choose|j: int| 0 <= j < next.len() && next[j] == u;
                                assert(j < k);
                                assert(tiles.members().take(k as int)[j] == u);
                            }
                            if tiles.members().take(k as int).contains(u) {
                                let j = choose|j: int| 0 <= j < k && tiles.members().take(k as int)[j] == u;
                                assert(next[j] == u);
                            }
                        }
                    }
                }
                assert(self.current_switch_tiles@ =~= Set::new(|u: TileIndex| next.contains(u) && switch_of(self.map, u) is Some));
            }
            k = k + 1;
        }
        proof {
            assert(tiles.members().take(n as int) =~= tiles.members());
            assert(self.current_switch_tiles@ =~= Set::new(|t: TileIndex| tiles@.contains(t) && switch_of(old(self).map, t) is Some));
        }
    }

    /// How far the slopes the player is on make them fall this frame.
    pub fn get_slope_dy(&self) -> (r: Subpixels)
        requires
            self.map.wf(),
            tiles_known(self.map, self.current_slopes@),
            forall|t: TileIndex| self.current_slopes@.contains(t) ==> slope_at(self.map, t) is Some,
        ensures
            r.0 == slopes_fall(
                self.map,
                self.current_slopes.members(),
                self.player.delta.x.0 > 0 || (self.player.delta.x.0 == 0 && self.player.facing_right),
            ),
    {
        let going_right = self.player.delta.x.0 > 0 || (self.player.delta.x.0 == 0 && self.player.facing_right);
        let mut slope_fall_max: i32 = 0;
        let n = self.current_slopes.len();
        let mut k: usize = 0;
        proof {
            self.current_slopes.lemma_members();
        }
        while k < n
            invariant
                n == self.current_slopes.members().len(),
                k <= n,
                self.map.wf(),
                self.current_slopes.members().to_set() == self.current_slopes@,
                tiles_known(self.map, self.current_slopes@),
                forall|t: TileIndex| self.current_slopes@.contains(t) ==> slope_at(self.map, t) is Some,
                slope_fall_max == slopes_fall(self.map, self.current_slopes.members().take(k as int), going_right),
                0 <= slope_fall_max <= 2 * crate::tilemap::WORLD,
            decreases n - k,
        {
            let t = self.current_slopes.get(k);
            proof {
                assert(self.current_slopes.members()[k as int] == t);
                assert(self.current_slopes.members().contains(t));
                assert(self.current_slopes@.contains(t));
                assert(self.current_slopes.members().take(k + 1).drop_last() =~= self.current_slopes.members().take(k as int));
                crate::tilemap::lemma_lookup_exists(self.map.sets(), t.0);
            }
            let slope = match self.map.get_slope(t) {
                Some(sl) => sl,
                None => {
                    // Every current slope has one.
                    return Subpixels(slope_fall_max);
                },
            };
            proof {
                let i = self.map.set_of(t);
                let l = self.map.local_of(t);
                assert(l.0 < self.map.sets()[i].slopes@.len());
                assert(crate::tilemap::slope_bounded(self.map.sets()[i].slopes@[l.0 as int]));
            }
            let left_y = slope.left_y.0;
            let right_y = slope.right_y.0;
            let mut fall: i32 = 0;
            if going_right {
                // The player faces right.
                if right_y > left_y {
                    fall = right_y - left_y;
                }
            } else {
                // The player faces left.
                if left_y > right_y {
                    fall = left_y - right_y;
                }
            }
            if fall > slope_fall_max {
                slope_fall_max = fall;
            }
            k = k + 1;
        }
        proof {
            assert(self.current_slopes.members().take(n as int) =~= self.current_slopes.members());
        }
        Subpixels(slope_fall_max)
    }


    /// Moves the player sideways for a frame, carried by their platform,
    /// and stops them against a wall they push against.
    pub fn move_player_x(&mut self, inputs: &InputSnapshot) -> (r: MovePlayerXResult)
        requires
            move_x_ok(*old(self)),
        ensures
            ({
                let dir = x_direction(*old(self));
                let (p, g, t, ps, c, w, crushed, stuck) = move_and_check_spec(shifted(*old(self), true, x_dx(*old(self))), dir, true);
                let pushing = if dir == Direction::Left { inputs.player_left_down } else { inputs.player_right_down };
                &&& r.pushing_against_wall == (pushing && w)
                &&& r.crushed_by_platform == crushed
                &&& r.stuck_in_wall == stuck
                &&& final(self).player == if pushing && w {
                    Player { delta: Point { x: Subpixels(0), y: p.delta.y }, ..p }
                } else {
                    p
                }
            }),
            *final(self) == (Level { player: final(self).player, ..*old(self) }),
    {
        let mut dx = self.player.delta.x;
        match self.current_platform {
            Some(current_platform) => {
                dx = dx + self.platforms[current_platform].dx();
            },
            None => {},
        }
        inc_player_x(&mut self.player, dx);
        let (move_result, pushing) = if dx.0 < 0 || (dx.0 == 0 && !self.player.facing_right) {
            // Moving left.
            let move_result = self.move_and_check(Direction::Left, true);
            (move_result, inputs.player_left_down)
        } else {
            // Moving right.
            let move_result = self.move_and_check(Direction::Right, true);
            (move_result, inputs.player_right_down)
        };
        let result = MovePlayerXResult {
            pushing_against_wall: pushing && move_result.against_wall,
            crushed_by_platform: move_result.crushed_by_platform,
            stuck_in_wall: move_result.stuck_in_wall,
        };
        // Against a wall, the player stops.
        if result.pushing_against_wall {
            self.player.delta.x = Subpixels::zero();
        }
        result
    }

    /// Settles the player after a move up: out of what they ran into,
    /// onto the slopes and the platforms they are on.
    fn land_moving_up(&mut self) -> (r: MovePlayerYResult)
        requires
            move_ok(*old(self), Direction::Up, false),
        ensures
            landed(*old(self), true, *final(self), r, Seq::empty(), Seq::empty()),
    {
        let move_result = self.move_and_check(Direction::Up, false);
        if move_result.hit_ceiling {
            self.player.delta.y = Subpixels::zero();
        }
        proof {
            lemma_mac_tiles_known(*old(self), Direction::Up, false);
            lemma_increasing_last(move_result.on_platforms.members());
            move_result.on_platforms.lemma_members();
        }
        self.handle_slopes(&move_result.on_tile_ids);
        self.handle_current_platforms(&move_result.on_platforms);
        MovePlayerYResult {
            on_ground: move_result.on_ground,
            crushed_by_platform: move_result.crushed_by_platform,
            stuck_in_wall: move_result.stuck_in_wall,
        }
    }

    /// Settles the player after a move down: out of what they landed on,
    /// hurt by spikes, running the switches they step on, onto the slopes
    /// and the platforms they are on.
    #[verifier::spinoff_prover]
    #[verifier::rlimit(40)]
    fn land_moving_down(&mut self, sounds: &mut SoundManager) -> (r: MovePlayerYResult)
        requires
            move_ok(*old(self), Direction::Down, false),
        ensures
            landed(*old(self), false, *final(self), r, old(sounds)@, final(sounds)@),
    {
        let move_result = self.move_and_check(Direction::Down, false);
        proof {
            lemma_mac_tiles_known(*old(self), Direction::Down, false);
            lemma_increasing_last(move_result.on_platforms.members());
            move_result.on_platforms.lemma_members();
            move_result.on_tile_ids.lemma_members();
        }
        self.handle_spikes(&move_result.on_tile_ids);
        let ghost before_switches = *self;
        self.handle_switch_tiles(&move_result.on_tile_ids, sounds);
        proof {
            let ms = move_result.on_tile_ids.members();
            assert(before_switches.switches@ == old(self).switches@);
            assert(before_switches.current_switch_tiles@ == old(self).current_switch_tiles@);
            assert(ms.to_set() == move_result.on_tile_ids@ && ms.no_duplicates() && (self.switches@, sounds@) == switch_fold(
                old(self).map,
                ms,
                old(self).current_switch_tiles@,
                old(self).switches@,
                old(sounds)@,
            ));
        }
        self.handle_slopes(&move_result.on_tile_ids);
        self.handle_current_platforms(&move_result.on_platforms);
        let r = MovePlayerYResult {
            on_ground: move_result.on_ground,
            crushed_by_platform: move_result.crushed_by_platform,
            stuck_in_wall: move_result.stuck_in_wall,
        };
        proof {
            let m = move_and_check_spec(*old(self), Direction::Down, false);
            assert(landed_player(*old(self), false, self.player));
            assert(landed_platforms(old(self).platforms@, m.3, self.platforms@, self.current_platform));
            assert(landed_switches(*old(self), m.2, *self, old(sounds)@, sounds@));
        }
        r
    }

    /// Moves the player up or down for a frame, carried by their platform
    /// and pulled along slopes, and takes note of what they land on: the
    /// spikes, switches and slopes, and the platforms.
    #[verifier::spinoff_prover]
    pub fn move_player_y(&mut self, sounds: &mut SoundManager) -> (r: MovePlayerYResult)
        requires
            move_y_ok(*old(self)),
        ensures
            landed(
                shifted(*old(self), false, y_dy(*old(self))),
                y_dy(*old(self)) <= 0,
                *final(self),
                r,
                old(sounds)@,
                final(sounds)@,
            ),
    {
        let ghost l0 = *self;
        let mut dy = self.player.delta.y;
        match self.current_platform {
            Some(current_platform) => {
                // This can go either way.
                dy = dy + self.platforms[current_platform].dy();
            },
            None => {},
        }
        // On a slope, fall at least as far as the slope drops.
        if dy.0 >= 0 {
            let fall = self.get_slope_dy();
            if fall.0 > dy.0 {
                dy = fall;
            }
        }
        assert(dy.0 == y_dy(l0));
        inc_player_y(&mut self.player, dy);
        proof {
            assert(*self == shifted(l0, false, y_dy(l0)));
        }
        if dy.0 <= 0 {
            // Moving up.
            let r = self.land_moving_up();
            proof {
                assert(old(sounds)@ == sounds@);
            }
            r
        } else {
            // Moving down.
            self.land_moving_down(sounds)
        }
    }

    /// Runs the player's state machine for a frame: what they do next,
    /// given what their movement found and the controls.
    #[verifier::spinoff_prover]
    #[verifier::rlimit(100)]
    pub fn update_player_state(&mut self, movement: PlayerMovementResult)
        requires
            state_step_ok(*old(self)),
        ensures
            state_stepped(*old(self), movement, *final(self)),
    {
        if movement.on_ground {
            self.coyote_counter = COYOTE_TIME;
        } else if self.coyote_counter > 0 {
            self.coyote_counter = self.coyote_counter - 1;
        }
        if self.jump_grace_counter > 0 {
            self.jump_grace_counter = self.jump_grace_counter - 1;
        }
        if movement.crushed_by_platform {
            self.player.state = PlayerState::Stopped;
            self.player.is_dead = true;
            return;
        }
        let mut close = false;
        match self.player.state {
            PlayerState::Stopped => {
                proof {
                    assert(self.doors@ == old(self).doors@);
                    assert(!state_step(*old(self), movement).close_door);
                }
            },
            PlayerState::Standing => {
                let (launch, boost) = match self.current_platform {
                    Some(i) => match &self.platforms[i].subtype {
                        PlatformType::Spring(spring) => (spring.launch, spring.should_boost()),
                        _ => (false, false),
                    },
                    None => (false, false),
                };
                if launch {
                    self.jump_grace_counter = 0;
                    self.player.state = PlayerState::Jumping;
                    if movement.jump_triggered || self.jump_grace_counter > 0 {
                        self.spring_counter = SPRING_JUMP_DURATION;
                        self.player.delta.y = Subpixels::new(SPRING_JUMP_VELOCITY) * -1;
                    } else {
                        self.spring_counter = SPRING_BOUNCE_DURATION;
                        self.player.delta.y = Subpixels::new(SPRING_BOUNCE_VELOCITY) * -1;
                    }
                } else if self.coyote_counter == 0 {
                    self.player.state = PlayerState::Falling;
                    self.player.delta.y = Subpixels::zero();
                    match self.current_platform {
                        Some(i) => {
                            self.player.delta.x = self.platforms[i].dx();
                        },
                        None => {},
                    }
                } else if movement.crouch_down {
                    self.player.state = PlayerState::Crouching;
                } else if movement.jump_triggered || self.jump_grace_counter > 0 {
                    match self.current_door {
                        Some(current_door) => {
                            if self.doors[current_door].is_open() {
                                self.player.state = PlayerState::Stopped;
                                close = true;
                            }
                        },
                        None => {
                            self.jump_grace_counter = 0;
                            self.player.state = PlayerState::Jumping;
                            if boost {
                                self.spring_counter = SPRING_JUMP_DURATION;
                                self.player.delta.y = Subpixels::new(SPRING_JUMP_VELOCITY) * -1;
                            } else {
                                self.spring_counter = 0;
                                self.player.delta.y = Subpixels::new(JUMP_INITIAL_SPEED) * -1;
                            }
                            match self.current_platform {
                                Some(i) => {
                                    self.player.delta.x = self.player.delta.x + self.platforms[i].dx();
                                },
                                None => {},
                            }
                        },
                    }
                }
            },
            PlayerState::Falling => {
                if movement.jump_triggered {
                    self.jump_grace_counter = JUMP_GRACE_TIME;
                }
                if movement.on_ground {
                    self.player.state = PlayerState::Standing;
                    self.player.delta.y = Subpixels::zero();
                } else if movement.pushing_against_wall && self.player.delta.y.0 >= 0 {
                    self.player.state = PlayerState::WallSliding;
                    self.wall_slide_counter = WALL_SLIDE_TIME;
                }
            },
            PlayerState::Jumping => {
                if movement.on_ground {
                    self.player.state = PlayerState::Standing;
                    self.player.delta.y = Subpixels::zero();
                } else if self.player.delta.y.0 >= 0 {
                    self.player.state = PlayerState::Falling;
                } else if !movement.jump_down {
                    if self.spring_counter == 0 {
                        self.player.state = PlayerState::Falling;
                        self.player.delta.y = Subpixels::zero();
                    } else {
                        self.spring_counter = self.spring_counter - 1;
                    }
                }
            },
            PlayerState::WallSliding => {
                if movement.jump_triggered {
                    self.player.state = PlayerState::Jumping;
                    self.player.delta.y = Subpixels::new(WALL_JUMP_VERTICAL_SPEED) * -1;
                    if self.player.facing_right {
                        self.player.delta.x = Subpixels::new(WALL_JUMP_HORIZONTAL_SPEED) * -1;
                    } else {
                        self.player.delta.x = Subpixels::new(WALL_JUMP_HORIZONTAL_SPEED);
                    }
                } else if movement.on_ground {
                    self.player.state = PlayerState::Standing;
                } else if movement.pushing_against_wall {
                    self.wall_stick_counter = WALL_STICK_TIME;
                    self.wall_stick_facing_right = self.player.facing_right;
                } else if self.wall_stick_facing_right != self.player.facing_right {
                    self.player.state = PlayerState::Falling;
                } else if self.wall_stick_counter > 0 {
                    self.wall_stick_counter = self.wall_stick_counter - 1;
                } else {
                    self.player.state = PlayerState::Falling;
                }
            },
            PlayerState::Crouching => {
                if !movement.on_ground {
                    self.player.state = PlayerState::Falling;
                    self.player.delta.y = Subpixels::zero();
                } else if !movement.crouch_down {
                    self.player.state = PlayerState::Standing;
                }
            },
        }
        proof {
            assert(close == closes_door(*old(self), movement));
        }
        if close {
            match self.current_door {
                Some(current_door) => {
                    let ghost ds = self.doors@;
                    let mut door = self.doors.remove(current_door);
                    door.close();
                    self.doors.insert(current_door, door);
                    proof {
                        assert(ds == old(self).doors@);
                        assert(self.doors@ == ds.update(current_door as int, door));
                        assert(door.state == DoorState::Closing);
                        assert(door.area == ds[current_door as int].area);
                        assert(self.current_door == old(self).current_door);
                        assert(old(self).current_door == Some(current_door));

                    }
                },
                None => {},
            }
        }
        proof {
            assert(self.doors@.len() == old(self).doors@.len());
        }
    }


    /// Moves the player for a frame: their speeds change with the controls
    /// and gravity, then they move sideways and then up or down.
    #[verifier::spinoff_prover]
    #[verifier::rlimit(60)]
    pub fn update_player_movement(&mut self, inputs: &InputSnapshot, sounds: &mut SoundManager) -> (r: PlayerMovementResult)
        requires
            movement_ok(*old(self), *inputs),
        ensures
            movement_done(*old(self), *inputs, old(sounds)@, *final(self), final(sounds)@, r),
    {
        self.update_player_trajectory_x(inputs);
        self.update_player_trajectory_y();
        proof {
            let t = after_trajectories(*old(self), *inputs);
            let dx = trajectory_x(old(self).player.state, old(self).player.delta.x.0 as int, inputs.player_left_down, inputs.player_right_down);
            assert(self.player.delta.x.0 == dx);
            assert(dx as i32 == self.player.delta.x.0);
            assert(self.player.delta.x == t.player.delta.x);
            let g = match old(self).map.properties.gravity {
                Some(v) => v.0 as int,
                None => crate::constants::MAX_GRAVITY as int,
            };
            let ty = trajectory_y(old(self).player.state, old(self).player.delta.y.0 as int, g, old(self).wall_slide_counter as int);
            assert(self.player.delta.y.0 == ty.0);
            assert(ty.0 as i32 == self.player.delta.y.0);
            assert(self.wall_slide_counter == ty.1);
            assert(ty.1 as i32 == self.wall_slide_counter);
            assert(self.player.delta.y == t.player.delta.y);
            assert(self.player.delta == t.player.delta);
            assert(self.wall_slide_counter == t.wall_slide_counter);
            assert(self.player == t.player);
            assert(*self == t);
        }
        let ghost t = *self;
        let x_result = self.move_player_x(inputs);
        proof {
            assert(*self == after_move_x(t, *inputs));
        }
        let y_result = self.move_player_y(sounds);
        PlayerMovementResult {
            on_ground: y_result.on_ground,
            pushing_against_wall: x_result.pushing_against_wall,
            jump_down: inputs.player_jump_down,
            jump_triggered: inputs.player_jump_clicked,
            crouch_down: inputs.player_crouch_down,
            stuck_in_wall: x_result.stuck_in_wall || y_result.stuck_in_wall,
            crushed_by_platform: x_result.crushed_by_platform || y_result.crushed_by_platform,
        }
    }

}

/// The level with the player moved by `o` along an axis.
pub open spec fn shifted(l: Level, horizontal: bool, o: int) -> Level {
    Level {
        player: Player {
            position: if horizontal {
                Point { x: Subpixels((l.player.position.x.0 + o) as i32), y: l.player.position.y }
            } else {
                Point { x: l.player.position.x, y: Subpixels((l.player.position.y.0 + o) as i32) }
            },
            ..l.player
        },
        ..l
    }
}

/// Whether a move can be applied without overflow.
pub open spec fn shift_fits(l: Level, horizontal: bool, o: int) -> bool {
    if horizontal {
        fits_i32(l.player.position.x.0 + o)
    } else {
        fits_i32(l.player.position.y.0 + o)
    }
}

/// Whether one of the given platforms is solid.
pub open spec fn any_solid(ps: Seq<Platform>, ids: Set<usize>) -> bool {
    exists|i: usize| ids.contains(i) && i < ps.len() && (#[trigger] ps[i as int]).solid
}

/// Whether the three probes of a move along an axis can be made: out of
/// what the player ran into, back out of what that pushed it into, and
/// again forward to see whether it is crushed.
pub open spec fn move_ok(l: Level, forward: Direction, horizontal: bool) -> bool {
    let r1 = try_move_spec(l, forward, false);
    let l1 = shifted(l, horizontal, r1.0);
    let r2 = try_move_spec(l1, forward.spec_opposite(), true);
    let l2 = shifted(l1, horizontal, r2.0);
    &&& probe_ok(l, forward)
    &&& shift_fits(l, horizontal, r1.0)
    &&& probe_ok(l1, forward.spec_opposite())
    &&& shift_fits(l1, horizontal, r2.0)
    &&& r2.0 != 0 ==> probe_ok(l2, forward)
}

/// What a move along an axis finds, and where it leaves the player.
pub open spec fn move_and_check_spec(l: Level, forward: Direction, horizontal: bool) -> (
    Player,
    bool,
    Set<TileIndex>,
    Set<usize>,
    bool,
    bool,
    bool,
    bool,
) {
    let r1 = try_move_spec(l, forward, false);
    let l1 = shifted(l, horizontal, r1.0);
    let r2 = try_move_spec(l1, forward.spec_opposite(), true);
    let l2 = shifted(l1, horizontal, r2.0);
    let (on_ground, tiles, platforms, hit_ceiling, against_wall) = match forward {
        Direction::Down => (r1.0 != 0, r1.1, r1.2, false, false),
        Direction::Up => (
            l.player.state != PlayerState::Jumping && l.player.state != PlayerState::Falling && r2.0 != 0,
            r2.1,
            r2.2,
            r1.0 != 0,
            false,
        ),
        _ => (false, Set::empty(), Set::empty(), false, r1.0 != 0),
    };
    let crushed_or_stuck = r2.0 != 0 && try_move_spec(l2, forward, false).0 != 0;
    let solid = any_solid(l.platforms@, r1.2) || any_solid(l.platforms@, r2.2);
    (l2.player, on_ground, tiles, platforms, hit_ceiling, against_wall, crushed_or_stuck && solid, crushed_or_stuck && !solid)
}

/// Whether a tile is sloped.
pub open spec fn is_slope(map: TileMap, t: TileIndex) -> bool {
    map.props_of(t) matches Some(p) && p.slope
}

/// Whether a tile kills.
pub open spec fn is_deadly(map: TileMap, t: TileIndex) -> bool {
    map.props_of(t) matches Some(p) && p.deadly
}

/// The switch command of a tile, if it has one.
pub open spec fn switch_of(map: TileMap, t: TileIndex) -> Option<Seq<char>> {
    match map.props_of(t) {
        Some(p) => opt_text(p.switch),
        None => None,
    }
}

/// The slope of a tile, if it has one.
pub open spec fn slope_at(map: TileMap, t: TileIndex) -> Option<Slope> {
    map.sets()[map.set_of(t)].spec_slope(map.local_of(t))
}

/// Whether every tile of a set belongs to a tileset of the map.
pub open spec fn tiles_known(map: TileMap, tiles: Set<TileIndex>) -> bool {
    forall|t: TileIndex| tiles.contains(t) ==> has_tileset(map.sets(), t.0)
}

/// The switches and sounds after the switch tiles `ms` are stepped on,
/// in order: each tile that was not stepped on in the last frame clicks
/// and runs its command.
pub open spec fn switch_fold(
    map: TileMap,
    ms: Seq<TileIndex>,
    previous: Set<TileIndex>,
    on: Set<Seq<char>>,
    snd: Seq<Sound>,
) -> (Set<Seq<char>>, Seq<Sound>)
    decreases ms.len(),
{
    if ms.len() == 0 {
        (on, snd)
    } else {
        let (on1, snd1) = switch_fold(map, ms.drop_last(), previous, on, snd);
        let t = ms.last();
        match switch_of(map, t) {
            Some(sw) => if previous.contains(t) {
                (on1, snd1)
            } else {
                (after_command(on1, sw), snd1.push(Sound::Click))
            },
            None => (on1, snd1),
        }
    }
}

/// How far a slope makes the player fall when moving along it: the rise
/// of the slope ahead of the player, if it goes down that way.
pub open spec fn slope_fall(sl: Slope, going_right: bool) -> int {
    if going_right {
        if sl.right_y.0 > sl.left_y.0 { sl.right_y.0 - sl.left_y.0 } else { 0 }
    } else {
        if sl.left_y.0 > sl.right_y.0 { sl.left_y.0 - sl.right_y.0 } else { 0 }
    }
}

/// The largest fall of the slopes `ms`.
pub open spec fn slopes_fall(map: TileMap, ms: Seq<TileIndex>, going_right: bool) -> int
    decreases ms.len(),
{
    if ms.len() == 0 {
        0
    } else {
        let prev = slopes_fall(map, ms.drop_last(), going_right);
        let f = match slope_at(map, ms.last()) {
            Some(sl) => slope_fall(sl, going_right),
            None => 0,
        };
        if f > prev { f } else { prev }
    }
}

/// The horizontal movement of the player in a frame: their own speed and
/// that of the platform carrying them.
pub open spec fn x_dx(l: Level) -> int {
    l.player.delta.x.0 + match l.current_platform {
        Some(i) => l.platforms@[i as int].delta.x.0 as int,
        None => 0,
    }
}

/// The way the player moves sideways: left when moving left, or standing
/// still facing left; otherwise right.
pub open spec fn x_direction(l: Level) -> Direction {
    if x_dx(l) < 0 || (x_dx(l) == 0 && !l.player.facing_right) {
        Direction::Left
    } else {
        Direction::Right
    }
}

/// Whether the sideways move of a frame can be made.
pub open spec fn move_x_ok(l: Level) -> bool {
    &&& l.current_platform matches Some(i) ==> i < l.platforms@.len()
    &&& fits_i32(x_dx(l))
    &&& fits_i32(l.player.position.x.0 + x_dx(l))
    &&& move_ok(shifted(l, true, x_dx(l)), x_direction(l), true)
}

/// The vertical movement of the player in a frame before slopes.
pub open spec fn y_dy0(l: Level) -> int {
    l.player.delta.y.0 + match l.current_platform {
        Some(i) => l.platforms@[i as int].delta.y.0 as int,
        None => 0,
    }
}

/// Whether the player is moving right, for slopes.
pub open spec fn going_right(l: Level) -> bool {
    l.player.delta.x.0 > 0 || (l.player.delta.x.0 == 0 && l.player.facing_right)
}

/// The vertical movement of the player in a frame: on a slope, falling at
/// least as far as the slope drops ahead of them.
pub open spec fn y_dy(l: Level) -> int {
    let d = y_dy0(l);
    let f = slopes_fall(l.map, l.current_slopes.members(), going_right(l));
    if d >= 0 && f > d { f } else { d }
}

/// Whether the vertical move of a frame can be made.
pub open spec fn move_y_ok(l: Level) -> bool {
    &&& l.current_platform matches Some(i) ==> i < l.platforms@.len()
    &&& fits_i32(y_dy0(l))
    &&& tiles_known(l.map, l.current_slopes@)
    &&& forall|t: TileIndex| l.current_slopes@.contains(t) ==> slope_at(l.map, t) is Some
    &&& fits_i32(l.player.position.y.0 + y_dy(l))
    &&& move_ok(shifted(l, false, y_dy(l)), if y_dy(l) <= 0 { Direction::Up } else { Direction::Down }, false)
}

/// The tiles that a move along an axis reports belong to tilesets.
proof fn lemma_mac_tiles_known(l: Level, forward: Direction, horizontal: bool)
    requires
        move_ok(l, forward, horizontal),
    ensures
        tiles_known(l.map, move_and_check_spec(l, forward, horizontal).2),
{
    let r1 = try_move_spec(l, forward, false);
    let l1 = shifted(l, horizontal, r1.0);
    l.map.lemma_move_ids_known(probe_of(l, forward, false));
    l1.map.lemma_move_ids_known(probe_of(l1, forward.spec_opposite(), true));
}

/// The last member of an increasing sequence is its largest.
proof fn lemma_increasing_last(s: Seq<usize>)
    requires
        increasing(s),
    ensures
        s.len() > 0 ==> forall|j: usize| s.to_set().contains(j) ==> j <= s.last(),
        s.len() > 0 ==> s.to_set().contains(s.last()),
        (s.len() == 0) == (s.to_set() == Set::<usize>::empty()),
{
    if s.len() > 0 {
        assert forall|j: usize| s.to_set().contains(j) implies j <= s.last() by {
            let k = choose|k: int| 0 <= k < s.len() && s[k] == j;
            if k < s.len() - 1 {
                assert(s[k] < s[s.len() - 1]);
            }
        }
        assert(s.contains(s.last()));
        assert(s.to_set().contains(s.last()));
    } else {
        assert(s.to_set() =~= Set::<usize>::empty());
    }
    if s.to_set() == Set::<usize>::empty() && s.len() > 0 {
        assert(s.contains(s[0]));
        assert(s.to_set().contains(s[0]));
    }
}

/// The members of a small set hold no duplicates.
proof fn lemma_members_no_duplicates(s: SmallIntSet<TileIndex>)
    requires
        s.distinct(),
    ensures
        s.members().no_duplicates(),
{
    s.lemma_distinct_members();
}

/// What a move along the vertical axis from `l0` leaves: `l1` and the
/// result `r`, and the sounds asked for, from `snd0` to `snd1`.
pub open spec fn landed(l0: Level, up: bool, l1: Level, r: MovePlayerYResult, snd0: Seq<Sound>, snd1: Seq<Sound>) -> bool {
    let m = move_and_check_spec(l0, if up { Direction::Up } else { Direction::Down }, false);
    &&& r.on_ground == m.1
    &&& r.crushed_by_platform == m.6
    &&& r.stuck_in_wall == m.7
    &&& landed_player(l0, up, l1.player)
    &&& forall|x: TileIndex| #[trigger] l1.current_slopes@.contains(x) == (m.2.contains(x) && is_slope(l0.map, x))
    &&& landed_platforms(l0.platforms@, m.3, l1.platforms@, l1.current_platform)
    &&& up ==> l1.switches@ == l0.switches@ && snd1 == snd0 && l1.current_switch_tiles@ == l0.current_switch_tiles@
    &&& !up ==> landed_switches(l0, m.2, l1, snd0, snd1)
    &&& l1 == (Level {
        player: l1.player,
        current_slopes: l1.current_slopes,
        platforms: l1.platforms,
        current_platform: l1.current_platform,
        switches: l1.switches,
        current_switch_tiles: l1.current_switch_tiles,
        ..l0
    })
}

/// The player after a vertical move from `l0`: where the move leaves them,
/// stopped by a ceiling they hit going up, and dead if they land on
/// something deadly.
pub open spec fn landed_player(l0: Level, up: bool, p1: Player) -> bool {
    let m = move_and_check_spec(l0, if up { Direction::Up } else { Direction::Down }, false);
    let p = m.0;
    let dead = if up {
        p.is_dead
    } else {
        p.is_dead || exists|x: TileIndex| m.2.contains(x) && is_deadly(l0.map, x)
    };
    p1 == (Player { delta: Point { x: p.delta.x, y: if up && m.4 { Subpixels(0) } else { p.delta.y } }, is_dead: dead, ..p })
}

/// The platforms after the player lands on the platforms `ps`: those are
/// occupied and the others not, and the last of them carries the player.
pub open spec fn landed_platforms(ps0: Seq<Platform>, ps: Set<usize>, ps1: Seq<Platform>, current: Option<usize>) -> bool {
    &&& ps1.len() == ps0.len()
    &&& forall|i: int| 0 <= i < ps0.len() ==> #[trigger] ps1[i] == (Platform { occupied: ps.contains(i as usize), ..ps0[i] })
    &&& (current is None) == (ps == Set::<usize>::empty())
    &&& current matches Some(cp) ==> ps.contains(cp) && cp < ps1.len() && forall|j: usize| ps.contains(j) ==> j <= cp
}

/// The switches after the player lands on the tiles `t`: the switch tiles
/// among them are remembered, and those not stepped on before run, in some
/// order.
pub open spec fn landed_switches(l0: Level, t: Set<TileIndex>, l1: Level, snd0: Seq<Sound>, snd1: Seq<Sound>) -> bool {
    &&& forall|x: TileIndex| #[trigger] l1.current_switch_tiles@.contains(x) == (t.contains(x) && switch_of(l0.map, x) is Some)
    &&& exists|ms: Seq<TileIndex>| ms.to_set() == t && ms.no_duplicates() && (l1.switches@, snd1) == switch_fold(l0.map, ms, l0.current_switch_tiles@, l0.switches@, snd0)
}

/// The part of a level that the player's state machine changes.
pub struct StateStep {
    pub state: PlayerState,
    pub dx: int,
    pub dy: int,
    pub is_dead: bool,
    pub coyote: int,
    pub grace: int,
    pub spring_counter: int,
    pub wall_stick_counter: int,
    pub wall_stick_facing_right: bool,
    pub wall_slide_counter: int,
    /// Whether the player goes through the door they stand at.
    pub close_door: bool,
}

/// Whether the platform carrying the player is a spring that is throwing
/// them.
pub open spec fn spring_launch(l: Level) -> bool {
    match l.current_platform {
        Some(i) => match l.platforms@[i as int].subtype {
            PlatformType::Spring(sp) => sp.launch,
            _ => false,
        },
        None => false,
    }
}

/// Whether the platform carrying the player is a spring that boosts a
/// jump.
pub open spec fn spring_boost(l: Level) -> bool {
    match l.current_platform {
        Some(i) => match l.platforms@[i as int].subtype {
            PlatformType::Spring(sp) => sp.up || trunc_div(sp.pos.0 as int, SUBPIXELS as int) == SPRING_STEPS - 1,
            _ => false,
        },
        None => false,
    }
}

/// The horizontal speed of the platform carrying the player, if any.
pub open spec fn carrier_dx(l: Level) -> Option<int> {
    match l.current_platform {
        Some(i) => Some(l.platforms@[i as int].delta.x.0 as int),
        None => None,
    }
}

/// The player's state machine for a frame. Being crushed kills. Standing,
/// a spring throws the player up (higher when they jump), the end of the
/// coyote time makes them fall, crouching crouches, and jumping goes
/// through an open door they stand at or else jumps (higher off a spring,
/// and carried by their platform). Falling, a jump is remembered for a
/// while, landing stands, and pushing against a wall grabs it. Jumping,
/// landing stands, the top of the jump falls, and letting go of jump ends
/// it early unless a spring threw them. On a wall, jump kicks off it,
/// landing stands, pushing holds on, and letting go falls off after a
/// while. Crouching, losing the ground falls and letting go stands.
pub open spec fn state_step(l: Level, mv: PlayerMovementResult) -> StateStep {
    let p = l.player;
    let coyote = if mv.on_ground {
        COYOTE_TIME as int
    } else if l.coyote_counter > 0 {
        l.coyote_counter - 1
    } else {
        l.coyote_counter as int
    };
    let grace = if l.jump_grace_counter > 0 { l.jump_grace_counter - 1 } else { l.jump_grace_counter as int };
    let base = StateStep {
        state: p.state,
        dx: p.delta.x.0 as int,
        dy: p.delta.y.0 as int,
        is_dead: p.is_dead,
        coyote,
        grace,
        spring_counter: l.spring_counter as int,
        wall_stick_counter: l.wall_stick_counter as int,
        wall_stick_facing_right: l.wall_stick_facing_right,
        wall_slide_counter: l.wall_slide_counter as int,
        close_door: false,
    };
    if mv.crushed_by_platform {
        StateStep { state: PlayerState::Stopped, is_dead: true, ..base }
    } else {
        match p.state {
            PlayerState::Stopped => base,
            PlayerState::Standing => if spring_launch(l) {
                if mv.jump_triggered {
                    StateStep { grace: 0, state: PlayerState::Jumping, spring_counter: SPRING_JUMP_DURATION as int, dy: -SPRING_JUMP_VELOCITY, ..base }
                } else {
                    StateStep { grace: 0, state: PlayerState::Jumping, spring_counter: SPRING_BOUNCE_DURATION as int, dy: -SPRING_BOUNCE_VELOCITY, ..base }
                }
            } else if coyote == 0 {
                StateStep {
                    state: PlayerState::Falling,
                    dy: 0,
                    dx: match carrier_dx(l) {
                        Some(d) => d,
                        None => base.dx,
                    },
                    ..base
                }
            } else if mv.crouch_down {
                StateStep { state: PlayerState::Crouching, ..base }
            } else if mv.jump_triggered || grace > 0 {
                match l.current_door {
                    Some(cd) => if l.doors@[cd as int].state == DoorState::Open {
                        StateStep { state: PlayerState::Stopped, close_door: true, ..base }
                    } else {
                        base
                    },
                    None => {
                        let (sc, dy) = if spring_boost(l) {
                            (SPRING_JUMP_DURATION as int, -SPRING_JUMP_VELOCITY)
                        } else {
                            (0int, -JUMP_INITIAL_SPEED)
                        };
                        StateStep {
                            grace: 0,
                            state: PlayerState::Jumping,
                            spring_counter: sc,
                            dy,
                            dx: match carrier_dx(l) {
                                Some(d) => base.dx + d,
                                None => base.dx,
                            },
                            ..base
                        }
                    },
                }
            } else {
                base
            },
            PlayerState::Falling => {
                let g = if mv.jump_triggered { JUMP_GRACE_TIME as int } else { grace };
                if mv.on_ground {
                    StateStep { grace: g, state: PlayerState::Standing, dy: 0, ..base }
                } else if mv.pushing_against_wall && base.dy >= 0 {
                    StateStep { grace: g, state: PlayerState::WallSliding, wall_slide_counter: WALL_SLIDE_TIME as int, ..base }
                } else {
                    StateStep { grace: g, ..base }
                }
            },
            PlayerState::Jumping => if mv.on_ground {
                StateStep { state: PlayerState::Standing, dy: 0, ..base }
            } else if base.dy >= 0 {
                StateStep { state: PlayerState::Falling, ..base }
            } else if !mv.jump_down {
                if l.spring_counter == 0 {
                    StateStep { state: PlayerState::Falling, dy: 0, ..base }
                } else {
                    StateStep { spring_counter: l.spring_counter - 1, ..base }
                }
            } else {
                base
            },
            PlayerState::WallSliding => if mv.jump_triggered {
                StateStep {
                    state: PlayerState::Jumping,
                    dy: -WALL_JUMP_VERTICAL_SPEED,
                    dx: if p.facing_right { -WALL_JUMP_HORIZONTAL_SPEED } else { WALL_JUMP_HORIZONTAL_SPEED as int },
                    ..base
                }
            } else if mv.on_ground {
                StateStep { state: PlayerState::Standing, ..base }
            } else if mv.pushing_against_wall {
                StateStep { wall_stick_counter: WALL_STICK_TIME as int, wall_stick_facing_right: p.facing_right, ..base }
            } else if l.wall_stick_facing_right != p.facing_right {
                StateStep { state: PlayerState::Falling, ..base }
            } else if l.wall_stick_counter > 0 {
                StateStep { wall_stick_counter: l.wall_stick_counter - 1, ..base }
            } else {
                StateStep { state: PlayerState::Falling, ..base }
            },
            PlayerState::Crouching => if !mv.on_ground {
                StateStep { state: PlayerState::Falling, dy: 0, ..base }
            } else if !mv.crouch_down {
                StateStep { state: PlayerState::Standing, ..base }
            } else {
                base
            },
        }
    }
}

/// The bounds under which the state machine's frame stays within an `i32`.
pub open spec fn state_step_ok(l: Level) -> bool {
    &&& l.current_platform matches Some(i) ==> i < l.platforms@.len()
    &&& l.current_door matches Some(d) ==> d < l.doors@.len()
    &&& l.current_platform matches Some(i) ==> fits_i32(l.player.delta.x.0 + l.platforms@[i as int].delta.x.0)
    &&& l.spring_counter > i32::MIN
}

/// A wall jump kicks the player away from the wall: a wall-sliding player
/// who jumps (and is not crushed) jumps up at the wall-jump speed and
/// sideways at the wall-jump speed, to the left when they face (and cling
/// to) a wall on their right, and to the right when they face left.
pub proof fn wall_jump_kicks_away(l: Level, mv: PlayerMovementResult)
    requires
        l.player.state == PlayerState::WallSliding,
        mv.jump_triggered,
        !mv.crushed_by_platform,
    ensures
        state_step(l, mv).state == PlayerState::Jumping,
        state_step(l, mv).dy == -WALL_JUMP_VERTICAL_SPEED,
        state_step(l, mv).dy < 0,
        l.player.facing_right ==> state_step(l, mv).dx == -WALL_JUMP_HORIZONTAL_SPEED && state_step(l, mv).dx < 0,
        !l.player.facing_right ==> state_step(l, mv).dx == WALL_JUMP_HORIZONTAL_SPEED && state_step(l, mv).dx > 0,
{
}

/// A standing player who jumps, with ground (or coyote time) under them,
/// not crouching and not at a door, leaves the ground upward: at the jump
/// speed, or the spring's when a spring boosts them, keeping their own
/// sideways speed plus that of the platform carrying them.
pub proof fn standing_jump_goes_up(l: Level, mv: PlayerMovementResult)
    requires
        l.player.state == PlayerState::Standing,
        !mv.crushed_by_platform,
        !spring_launch(l),
        mv.on_ground || l.coyote_counter > 1,
        !mv.crouch_down,
        mv.jump_triggered,
        l.current_door is None,
    ensures
        state_step(l, mv).state == PlayerState::Jumping,
        state_step(l, mv).dy < 0,
        !spring_boost(l) ==> state_step(l, mv).dy == -JUMP_INITIAL_SPEED,
        spring_boost(l) ==> state_step(l, mv).dy == -SPRING_JUMP_VELOCITY,
        state_step(l, mv).dx == l.player.delta.x.0 + match carrier_dx(l) {
            Some(d) => d,
            None => 0,
        },
{
}

/// A standing player whose ground and coyote time are gone starts to fall,
/// from rest vertically.
pub proof fn walking_off_falls(l: Level, mv: PlayerMovementResult)
    requires
        l.player.state == PlayerState::Standing,
        !mv.crushed_by_platform,
        !spring_launch(l),
        !mv.on_ground,
        0 <= l.coyote_counter <= 1,
    ensures
        state_step(l, mv).state == PlayerState::Falling,
        state_step(l, mv).dy == 0,
{
}

/// Letting go of jump while still rising cuts the jump short, unless a
/// spring is still throwing the player: they start to fall from rest.
pub proof fn released_jump_falls(l: Level, mv: PlayerMovementResult)
    requires
        l.player.state == PlayerState::Jumping,
        !mv.crushed_by_platform,
        !mv.on_ground,
        l.player.delta.y.0 < 0,
        !mv.jump_down,
        l.spring_counter == 0,
    ensures
        state_step(l, mv).state == PlayerState::Falling,
        state_step(l, mv).dy == 0,
{
}

/// A player falling against a wall grabs it and slides down it.
pub proof fn falling_against_wall_slides(l: Level, mv: PlayerMovementResult)
    requires
        l.player.state == PlayerState::Falling,
        !mv.crushed_by_platform,
        !mv.on_ground,
        mv.pushing_against_wall,
        l.player.delta.y.0 >= 0,
    ensures
        state_step(l, mv).state == PlayerState::WallSliding,
        state_step(l, mv).wall_slide_counter == WALL_SLIDE_TIME,
{
}

/// A player crushed by a platform dies, whatever they were doing.
pub proof fn crushed_player_dies(l: Level, mv: PlayerMovementResult)
    requires
        mv.crushed_by_platform,
    ensures
        state_step(l, mv).is_dead,
        state_step(l, mv).state == PlayerState::Stopped,
{
}

/// A stopped player stays stopped.
pub proof fn stopped_stays_stopped(l: Level, mv: PlayerMovementResult)
    requires
        l.player.state == PlayerState::Stopped,
    ensures
        state_step(l, mv).state == PlayerState::Stopped,
        state_step(l, mv).dx == l.player.delta.x.0,
        state_step(l, mv).dy == l.player.delta.y.0,
{
}

/// A jumping or falling player who lands stands, at rest vertically.
pub proof fn landing_stands(l: Level, mv: PlayerMovementResult)
    requires
        mv.on_ground,
        !mv.crushed_by_platform,
        l.player.state == PlayerState::Jumping || l.player.state == PlayerState::Falling,
    ensures
        state_step(l, mv).state == PlayerState::Standing,
        state_step(l, mv).dy == 0,
{
}

/// The coyote time never exceeds its length: on the ground it starts over,
/// in the air it runs down to zero.
pub proof fn coyote_time_bounded(l: Level, mv: PlayerMovementResult)
    requires
        0 <= l.coyote_counter <= COYOTE_TIME,
    ensures
        0 <= state_step(l, mv).coyote <= COYOTE_TIME,
        !mv.on_ground ==> state_step(l, mv).coyote <= l.coyote_counter,
{
}

/// Whether the player goes through the door they stand at this frame:
/// standing, not thrown by a spring, still on the ground, not crouching,
/// jumping (or having jumped a moment ago), at an open door.
pub open spec fn closes_door(l: Level, mv: PlayerMovementResult) -> bool {
    let coyote = if mv.on_ground {
        COYOTE_TIME as int
    } else if l.coyote_counter > 0 {
        l.coyote_counter - 1
    } else {
        l.coyote_counter as int
    };
    let grace = if l.jump_grace_counter > 0 { l.jump_grace_counter - 1 } else { l.jump_grace_counter as int };
    &&& !mv.crushed_by_platform
    &&& l.player.state == PlayerState::Standing
    &&& !spring_launch(l)
    &&& coyote != 0
    &&& !mv.crouch_down
    &&& (mv.jump_triggered || grace > 0)
    &&& l.current_door matches Some(cd) && l.doors@[cd as int].state == DoorState::Open
}

/// The state machine goes through a door exactly when `closes_door` says.
pub proof fn closes_door_agrees(l: Level, mv: PlayerMovementResult)
    ensures
        state_step(l, mv).close_door == closes_door(l, mv),
{
}

/// The level after the player's speeds change for a frame.
pub open spec fn after_trajectories(l: Level, inputs: InputSnapshot) -> Level {
    let dx = trajectory_x(l.player.state, l.player.delta.x.0 as int, inputs.player_left_down, inputs.player_right_down);
    let g = match l.map.properties.gravity {
        Some(v) => v.0 as int,
        None => crate::constants::MAX_GRAVITY as int,
    };
    let (dy, c) = trajectory_y(l.player.state, l.player.delta.y.0 as int, g, l.wall_slide_counter as int);
    Level {
        player: Player { delta: Point { x: Subpixels(dx as i32), y: Subpixels(dy as i32) }, ..l.player },
        wall_slide_counter: c as i32,
        ..l
    }
}

/// The level after the player's sideways move for a frame.
pub open spec fn after_move_x(l: Level, inputs: InputSnapshot) -> Level {
    let dir = x_direction(l);
    let m = move_and_check_spec(shifted(l, true, x_dx(l)), dir, true);
    let pushing = if dir == Direction::Left { inputs.player_left_down } else { inputs.player_right_down };
    Level {
        player: if pushing && m.5 {
            Player { delta: Point { x: Subpixels(0), y: m.0.delta.y }, ..m.0 }
        } else {
            m.0
        },
        ..l
    }
}

/// Whether the player's movement for a frame can be made from `l`.
pub open spec fn movement_ok(l: Level, inputs: InputSnapshot) -> bool {
    let t = after_trajectories(l, inputs);
    &&& in_world(l.player.delta.x.0 as int)
    &&& in_world(l.player.delta.y.0 as int)
    &&& in_world(l.map.properties.gravity.unwrap_or(Subpixels(0)).0 as int)
    &&& move_x_ok(t)
    &&& move_y_ok(after_move_x(t, inputs))
}

/// Whether `ps1`, `ons` and `snds` are what the platforms `ps0` become,
/// one after the other, with the switches and sounds in between.
pub open spec fn platforms_chain(ps0: Seq<Platform>, ps1: Seq<Platform>, ons: Seq<Set<Seq<char>>>, snds: Seq<Seq<Sound>>) -> bool {
    &&& ps1.len() == ps0.len()
    &&& ons.len() == ps0.len() + 1
    &&& snds.len() == ps0.len() + 1
    &&& forall|i: int| 0 <= i < ps0.len() ==> #[trigger] platform_stepped(ps0[i], ons[i], snds[i], ps1[i], ons[i + 1], snds[i + 1])
}

/// Whether `l1` is `l0` after every platform has run a frame, in order.
pub open spec fn platforms_updated(l0: Level, snd0: Seq<Sound>, l1: Level, snd1: Seq<Sound>) -> bool {
    &&& exists|ons: Seq<Set<Seq<char>>>, snds: Seq<Seq<Sound>>| {
        &&& platforms_chain(l0.platforms@, l1.platforms@, ons, snds)
        &&& ons[0] == l0.switches@
        &&& snds[0] == snd0
        &&& ons.last() == l1.switches@
        &&& snds.last() == snd1
    }
    &&& l1 == (Level { platforms: l1.platforms, switches: l1.switches, ..l0 })
}

/// Whether every platform can run its frame.
pub open spec fn platforms_fit(ps: Seq<Platform>) -> bool {
    forall|i: int| 0 <= i < ps.len() ==> platform_fits(#[trigger] ps[i])
}

impl Level {
    /// Runs a frame of every platform, in order.
    pub fn update_platforms(&mut self, sounds: &mut SoundManager)
        requires
            platforms_fit(old(self).platforms@),
        ensures
            platforms_updated(*old(self), old(sounds)@, *final(self), final(sounds)@),
    {
        let n = self.platforms.len();
        let ghost ps0 = self.platforms@;
        let ghost mut ons: Seq<Set<Seq<char>>> = seq![self.switches@];
        let ghost mut snds: Seq<Seq<Sound>> = seq![sounds@];
        let mut i: usize = 0;
        while i < n
            invariant
                n == ps0.len(),
                ps0 == old(self).platforms@,
                i <= n,
                self.platforms@.len() == n,
                platforms_fit(ps0),
                forall|j: int| i <= j < n ==> #[trigger] self.platforms@[j] == ps0[j],
                ons.len() == i + 1,
                snds.len() == i + 1,
                ons[0] == old(self).switches@,
                snds[0] == old(sounds)@,
                ons.last() == self.switches@,
                snds.last() == sounds@,
                forall|j: int| 0 <= j < i ==> #[trigger] platform_stepped(ps0[j], ons[j], snds[j], self.platforms@[j], ons[j + 1], snds[j + 1]),
                *self == (Level { platforms: self.platforms, switches: self.switches, ..*old(self) }),
            decreases n - i,
        {
            let ghost on_before = self.switches@;
            let ghost snd_before = sounds@;
            let mut platform = self.platforms.remove(i);
            proof {
                assert(platform == ps0[i as int]);
                assert(platform_fits(ps0[i as int]));
            }
            platform.update(&mut self.switches, sounds);
            self.platforms.insert(i, platform);
            proof {
                ons = ons.push(self.switches@);
                snds = snds.push(sounds@);
                assert forall|j: int| 0 <= j < i + 1 implies #[trigger] platform_stepped(ps0[j], ons[j], snds[j], self.platforms@[j], ons[j + 1], snds[j + 1]) by {
                    if j < i {
                    } else {
                        assert(ons[j] == on_before);
                        assert(snds[j] == snd_before);
                    }
                }
            }
            i = i + 1;
        }
        proof {
            assert(platforms_chain(old(self).platforms@, self.platforms@, ons, snds));
        }
    }
}

/// Whether the areas of doors, warps and stars, and the player's rectangle,
/// are within the world's bounds.
pub open spec fn areas_in_world(l: Level) -> bool {
    &&& fits_i32(l.player.position.x.0 + l.player.hitbox.x.0)
    &&& fits_i32(l.player.position.y.0 + l.player.hitbox.y.0)
    &&& rect_in_world(l.player.bounds())
    &&& forall|i: int| 0 <= i < l.doors@.len() ==> rect_in_world(#[trigger] l.doors@[i].area)
    &&& forall|i: int| 0 <= i < l.warps@.len() ==> rect_in_world(#[trigger] l.warps@[i].position)
    &&& forall|i: int| 0 <= i < l.stars@.len() ==> rect_in_world(#[trigger] l.stars@[i].area)
}

/// The text of the star count, as the display shows it.
pub open spec fn stars_text(n: int) -> Seq<char> {
    "STARS x "@ + decimal(n as nat)
}

/// The stars of `s` that the player's rectangle does not touch, in order.
/// Picking up stars keeps exactly the stars the player does not touch, in
/// their order: none left touches the player, and every star not touched
/// stays.
pub proof fn stars_kept_are_untouched(s: Seq<Star>, player_rect: Rect<Subpixels>)
    ensures
        stars_kept(s, player_rect) == s.filter(|st: Star| !st.area.spec_intersects(player_rect)),
        forall|i: int| 0 <= i < stars_kept(s, player_rect).len() ==> !(#[trigger] stars_kept(s, player_rect)[i]).area.spec_intersects(player_rect),
        forall|i: int| 0 <= i < s.len() && !(#[trigger] s[i]).area.spec_intersects(player_rect) ==> stars_kept(s, player_rect).contains(s[i]),
    decreases s.len(),
{
    let f = |st: Star| !st.area.spec_intersects(player_rect);
    if s.len() > 0 {
        stars_kept_are_untouched(s.drop_last(), player_rect);
        assert(s.drop_last().push(s.last()) =~= s);
        reveal(Seq::filter);
        assert(s.filter(f) == if f(s.last()) { s.drop_last().filter(f).push(s.last()) } else { s.drop_last().filter(f) });
        let k = stars_kept(s, player_rect);
        assert forall|i: int| 0 <= i < s.len() && !(#[trigger] s[i]).area.spec_intersects(player_rect) implies k.contains(s[i]) by {
            if i < s.len() - 1 {
                assert(s.drop_last()[i] == s[i]);
                let j = choose|j: int| 0 <= j < stars_kept(s.drop_last(), player_rect).len() && stars_kept(s.drop_last(), player_rect)[j] == s[i];
                assert(k[j] == s[i]);
            } else {
                assert(k[k.len() - 1] == s[i]);
            }
        }
    } else {
        reveal(Seq::filter);
        assert(s.filter(f) =~= s);
    }
}

pub open spec fn stars_kept(s: Seq<Star>, player_rect: Rect<Subpixels>) -> Seq<Star>
    decreases s.len(),
{
    if s.len() == 0 {
        s
    } else {
        let prev = stars_kept(s.drop_last(), player_rect);
        if !s.last().area.spec_intersects(player_rect) {
            prev.push(s.last())
        } else {
            prev
        }
    }
}

proof fn lemma_stars_kept_len(s: Seq<Star>, player_rect: Rect<Subpixels>)
    ensures
        stars_kept(s, player_rect).len() <= s.len(),
    decreases s.len(),
{
    if s.len() > 0 {
        lemma_stars_kept_len(s.drop_last(), player_rect);
    }
}

/// The first door from `k` on that is closed after the frame, or the
/// number of doors if there is none.
pub open spec fn first_closed(ds: Seq<Door>, rect: Rect<Subpixels>, stars: i32, k: int) -> int
    decreases ds.len() - k,
{
    if k < 0 || k >= ds.len() {
        ds.len() as int
    } else if door_after(ds[k], rect, stars).state == DoorState::Closed {
        k
    } else {
        first_closed(ds, rect, stars, k + 1)
    }
}

/// The last door before `k` that the player is at after the frame.
pub open spec fn last_active(ds: Seq<Door>, rect: Rect<Subpixels>, stars: i32, k: int) -> Option<usize>
    decreases k,
{
    if k <= 0 {
        None
    } else if door_after(ds[k - 1], rect, stars).active {
        Some((k - 1) as usize)
    } else {
        last_active(ds, rect, stars, k - 1)
    }
}

/// What the doors' frame does to a level `l0` with the player at `rect`:
/// the doors run in order up to the first one that ends up closed, which
/// leads to its destination (or back to this level); the current door is
/// the last one run, but a closed one, that the player is at.
pub open spec fn doors_stepped(l0: Level, rect: Rect<Subpixels>, l1: Level, r: Option<SceneResult>) -> bool {
    let ds = l0.doors@;
    let k = first_closed(ds, rect, l0.star_count, 0);
    &&& l1.doors@.len() == ds.len()
    &&& forall|i: int| 0 <= i < ds.len() ==> (#[trigger] l1.doors@[i]) == if i <= k {
        door_after(ds[i], rect, l0.star_count)
    } else {
        ds[i]
    }
    &&& l1.current_door == last_active(ds, rect, l0.star_count, k)
    &&& (r is Some) == (k < ds.len())
    &&& r matches Some(res) ==> (res matches SceneResult::SwitchToLevel { path } && path@ == match ds[k].destination {
        Some(d) => d@,
        None => l0.map_path@,
    })
    &&& l1 == (Level { doors: l1.doors, current_door: l1.current_door, ..l0 })
}

/// Whether `r` is where the warp zones of `l` lead with the player at
/// `rect`: to the destination of the first zone the player is in, if any.
pub open spec fn warps_checked(l: Level, rect: Rect<Subpixels>, r: Option<SceneResult>) -> bool {
    &&& r matches Some(res) ==> (res matches SceneResult::SwitchToLevel { path } && exists|i: int| 0 <= i < l.warps@.len()
        && rect.spec_intersects(l.warps@[i].position) && path@ == l.warps@[i].destination@
        && forall|j: int| 0 <= j < i ==> !rect.spec_intersects(#[trigger] l.warps@[j].position))
    &&& r is None ==> forall|i: int| 0 <= i < l.warps@.len() ==> !rect.spec_intersects(#[trigger] l.warps@[i].position)
}

/// What picking up the stars at `rect` does to a level `l0` and the sounds
/// `snd0`: the stars touched go, each adds to the count and shines, and
/// the count shows if any was taken.
pub open spec fn stars_collected(l0: Level, rect: Rect<Subpixels>, snd0: Seq<Sound>, l1: Level, snd1: Seq<Sound>) -> bool {
    let kept = stars_kept(l0.stars@, rect);
    let taken = l0.stars@.len() - kept.len();
    &&& taken >= 0
    &&& l1.stars@.len() == kept.len()
    &&& forall|i: int| 0 <= i < kept.len() ==> (#[trigger] l1.stars@[i]).area == kept[i].area && l1.stars@[i].tile_gid == kept[i].tile_gid
    &&& l1.star_count == l0.star_count + taken
    &&& snd1 == snd0 + Seq::new(taken as nat, |k: int| Sound::Star)
    &&& taken > 0 ==> l1.toast_text@ == stars_text(l1.star_count as int) && l1.toast_counter == TOAST_TIME
    &&& taken == 0 ==> l1.toast_text == l0.toast_text && l1.toast_counter == l0.toast_counter
    &&& l1 == (Level { stars: l1.stars, star_count: l1.star_count, toast_text: l1.toast_text, toast_counter: l1.toast_counter, ..l0 })
}

/// What a frame does to the star count display of `l0`: while it has
/// time left it slides down into view and its time runs down; then it
/// slides back up out of view.
pub open spec fn toast_stepped(l0: Level, l1: Level) -> bool {
    &&& l0.toast_counter == 0 ==> l1.toast_counter == 0 && l1.toast_position.0 == (if l0.toast_position.0 > -TOAST_HEIGHT {
        l0.toast_position.0 - TOAST_SPEED
    } else {
        l0.toast_position.0 as int
    })
    &&& l0.toast_counter > 0 ==> l1.toast_counter == l0.toast_counter - 1 && l1.toast_position.0 == (if l0.toast_position.0 < 0 {
        l0.toast_position.0 + TOAST_SPEED
    } else {
        l0.toast_position.0 as int
    })
    &&& l1 == (Level { toast_counter: l1.toast_counter, toast_position: l1.toast_position, ..l0 })
}

impl Level {
    /// Runs a frame of every door; the first door that closes behind the
    /// player leads to its destination, or to this level again if it names
    /// none. The door the player stands at is remembered.
    pub fn update_doors(&mut self, player_rect: Rect<Subpixels>) -> (r: Option<SceneResult>)
        requires
            areas_in_world(*old(self)),
            rect_in_world(player_rect),
        ensures
            final(self).doors@.len() == old(self).doors@.len(),
            r matches Some(res) ==> (res matches SceneResult::SwitchToLevel { path } && exists|i: int| 0 <= i < final(self).doors@.len() && final(self).doors@[i].state == DoorState::Closed && path@ == match final(self).doors@[i].destination {
                Some(d) => d@,
                None => old(self).map_path@,
            }),
            r is None ==> forall|i: int| 0 <= i < final(self).doors@.len() ==> #[trigger] final(self).doors@[i].state != DoorState::Closed,
            r is None ==> (final(self).current_door matches Some(cd) ==> cd < final(self).doors@.len() && final(self).doors@[cd as int].active),
            r is None ==> (final(self).current_door is None ==> forall|i: int| 0 <= i < final(self).doors@.len() ==> !(#[trigger] final(self).doors@[i]).active),
            forall|i: int| 0 <= i < final(self).doors@.len() ==> (#[trigger] final(self).doors@[i]).area == old(self).doors@[i].area,
            *final(self) == (Level { doors: final(self).doors, current_door: final(self).current_door, ..*old(self) }),
            areas_in_world(*final(self)),
            doors_stepped(*old(self), player_rect, *final(self), r),
    {
        let ghost ds0 = self.doors@;
        let ghost sc = self.star_count;
        self.current_door = None;
        let n = self.doors.len();
        let mut i: usize = 0;
        while i < n
            invariant
                n == self.doors@.len(),
                n == old(self).doors@.len(),
                i <= n,
                rect_in_world(player_rect),
                areas_in_world(*self),
                forall|j: int| 0 <= j < n ==> (#[trigger] self.doors@[j]).area == old(self).doors@[j].area,
                forall|j: int| 0 <= j < i ==> #[trigger] self.doors@[j].state != DoorState::Closed,
                self.current_door matches Some(cd) ==> cd < i && self.doors@[cd as int].active,
                self.current_door is None ==> forall|j: int| 0 <= j < i ==> !(#[trigger] self.doors@[j]).active,
                *self == (Level { doors: self.doors, current_door: self.current_door, ..*old(self) }),
                ds0 == old(self).doors@,
                sc == old(self).star_count,
                forall|j: int| 0 <= j < n ==> (#[trigger] self.doors@[j]) == if j < i { door_after(ds0[j], player_rect, sc) } else { ds0[j] },
                first_closed(ds0, player_rect, sc, 0) == first_closed(ds0, player_rect, sc, i as int),
                self.current_door == last_active(ds0, player_rect, sc, i as int),
            decreases n - i,
        {
            let ghost ds = self.doors@;
            let mut door = self.doors.remove(i);
            proof {
                assert(door == ds[i as int]);
                assert(rect_in_world(ds[i as int].area));
            }
            door.update(player_rect, self.star_count);
            let closed = door.is_closed();
            let active = door.active;
            let destination = match &door.destination {
                Some(d) => Some(d.clone()),
                None => None,
            };
            self.doors.insert(i, door);
            proof {
                assert(self.doors@ == ds.update(i as int, door));
            }
            if closed {
                let path = match destination {
                    Some(d) => d,
                    None => self.map_path.clone(),
                };
                proof {
                    assert(self.doors@[i as int].state == DoorState::Closed);
                }
                return Some(SceneResult::SwitchToLevel { path });
            }
            if active {
                self.current_door = Some(i);
            }
            i = i + 1;
        }
        None
    }

    /// The level that the first warp zone the player is in leads to.
    pub fn check_warps(&self, player_rect: Rect<Subpixels>) -> (r: Option<SceneResult>)
        requires
            areas_in_world(*self),
            rect_in_world(player_rect),
        ensures
            warps_checked(*self, player_rect, r),
    {
        let n = self.warps.len();
        let mut i: usize = 0;
        while i < n
            invariant
                n == self.warps@.len(),
                i <= n,
                rect_in_world(player_rect),
                areas_in_world(*self),
                forall|j: int| 0 <= j < i ==> !player_rect.spec_intersects(#[trigger] self.warps@[j].position),
            decreases n - i,
        {
            proof {
                assert(rect_in_world(self.warps@[i as int].position));
            }
            if self.warps[i].is_inside(player_rect) {
                return Some(SceneResult::SwitchToLevel { path: self.warps[i].destination.clone() });
            }
            i = i + 1;
        }
        None
    }

    /// Picks up the stars the player touches: each one shines, adds to the
    /// count and shows it.
    pub fn collect_stars(&mut self, player_rect: Rect<Subpixels>, sounds: &mut SoundManager)
        requires
            areas_in_world(*old(self)),
            rect_in_world(player_rect),
            0 <= old(self).star_count,
            old(self).star_count + old(self).stars@.len() <= i32::MAX,
        ensures
            stars_collected(*old(self), player_rect, old(sounds)@, *final(self), final(sounds)@),
    {
        let mut old_stars: Vec<Star> = Vec::new();
        std::mem::swap(&mut old_stars, &mut self.stars);
        let ghost all = old_stars@;
        let n = old_stars.len();
        let mut i: usize = 0;
        while i < n
            invariant
                n == all.len(),
                all == old(self).stars@,
                old_stars@ == all,
                i <= n,
                rect_in_world(player_rect),
                forall|j: int| 0 <= j < n ==> rect_in_world(#[trigger] all[j].area),
                ({
                    let kept = stars_kept(all.take(i as int), player_rect);
                    let taken = i - kept.len();
                    &&& self.stars@.len() == kept.len()
                    &&& forall|k: int| 0 <= k < kept.len() ==> (#[trigger] self.stars@[k]).area == kept[k].area && self.stars@[k].tile_gid == kept[k].tile_gid
                    &&& self.star_count == old(self).star_count + taken
                    &&& sounds@ == old(sounds)@ + Seq::new(taken as nat, |k: int| Sound::Star)
                    &&& taken > 0 ==> self.toast_text@ == stars_text(self.star_count as int) && self.toast_counter == TOAST_TIME
                    &&& taken == 0 ==> self.toast_text == old(self).toast_text && self.toast_counter == old(self).toast_counter
                }),
                0 <= old(self).star_count,
                old(self).star_count + n <= i32::MAX,
                *self == (Level { stars: self.stars, star_count: self.star_count, toast_text: self.toast_text, toast_counter: self.toast_counter, ..*old(self) }),
            decreases n - i,
        {
            let ghost prefix = all.take(i as int);
            let ghost next = all.take(i + 1);
            proof {
                assert(next == prefix.push(all[i as int]));
                assert(stars_kept(next, player_rect) == if !all[i as int].area.spec_intersects(player_rect) {
                    stars_kept(prefix, player_rect).push(all[i as int])
                } else {
                    stars_kept(prefix, player_rect)
                }) by {
                    assert(next.drop_last() =~= prefix);
                }
                lemma_stars_kept_len(prefix, player_rect);
            }
            let star = Star { area: old_stars[i].area, tile_gid: old_stars[i].tile_gid };
            if star.intersects(player_rect) {
                sounds.play(Sound::Star);
                self.star_count = self.star_count + 1;
                let mut text = String::new();
                append(&mut text, "STARS x ");
                push_decimal(&mut text, self.star_count as u32);
                self.toast_text = text;
                self.toast_counter = TOAST_TIME;
                proof {
                    let kept = stars_kept(prefix, player_rect);
                    let taken = i - kept.len();
                    assert(sounds@ =~= old(sounds)@ + Seq::new((taken + 1) as nat, |k: int| Sound::Star));
                }
            } else {
                self.stars.push(star);
            }
            i = i + 1;
        }
        proof {
            assert(all.take(n as int) =~= all);
            lemma_stars_kept_len(all, player_rect);
        }
    }

    /// Moves the star count display: while it has time left it slides down
    /// into view and its time runs down; then it slides back up out of view.
    pub fn update_toast(&mut self)
        requires
            -TOAST_HEIGHT <= old(self).toast_position.0 <= 0,
            old(self).toast_counter >= 0,
        ensures
            toast_stepped(*old(self), *final(self)),
    {
        if self.toast_counter == 0 {
            if self.toast_position.0 > -TOAST_HEIGHT {
                self.toast_position = self.toast_position - Subpixels::new(TOAST_SPEED);
            }
        } else {
            self.toast_counter = self.toast_counter - 1;
            if self.toast_position.0 < 0 {
                self.toast_position = self.toast_position + Subpixels::new(TOAST_SPEED);
            }
        }
    }
}

/// Whether `l1`, the sounds `snd1` and the result `r` are what the
/// player's movement for a frame makes of `l0` and `snd0`.
pub open spec fn movement_done(l0: Level, inputs: InputSnapshot, snd0: Seq<Sound>, l1: Level, snd1: Seq<Sound>, r: PlayerMovementResult) -> bool {
    let t = after_trajectories(l0, inputs);
    let dir = x_direction(t);
    let mx = move_and_check_spec(shifted(t, true, x_dx(t)), dir, true);
    let pushing = if dir == Direction::Left { inputs.player_left_down } else { inputs.player_right_down };
    let x = after_move_x(t, inputs);
    let my = move_and_check_spec(shifted(x, false, y_dy(x)), if y_dy(x) <= 0 { Direction::Up } else { Direction::Down }, false);
    &&& landed(
        shifted(x, false, y_dy(x)),
        y_dy(x) <= 0,
        l1,
        MovePlayerYResult { on_ground: r.on_ground, stuck_in_wall: my.7, crushed_by_platform: my.6 },
        snd0,
        snd1,
    )
    &&& r.on_ground == my.1
    &&& r.pushing_against_wall == (pushing && mx.5)
    &&& r.jump_down == inputs.player_jump_down
    &&& r.jump_triggered == inputs.player_jump_clicked
    &&& r.crouch_down == inputs.player_crouch_down
    &&& r.stuck_in_wall == (mx.7 || my.7)
    &&& r.crushed_by_platform == (mx.6 || my.6)
}

/// The movement of a frame: none for a stopped player.
pub open spec fn moved(l1: Level, inputs: InputSnapshot, snd1: Seq<Sound>, l2: Level, snd2: Seq<Sound>, mv: PlayerMovementResult) -> bool {
    if l1.player.state == PlayerState::Stopped {
        &&& l2 == l1
        &&& snd2 == snd1
        &&& mv == (PlayerMovementResult {
            on_ground: false,
            pushing_against_wall: false,
            jump_down: false,
            jump_triggered: false,
            crouch_down: false,
            stuck_in_wall: false,
            crushed_by_platform: false,
        })
    } else {
        movement_done(l1, inputs, snd1, l2, snd2, mv)
    }
}

/// Whether the rest of a frame can run after the player moved.
pub open spec fn finish_ok(l: Level) -> bool {
    &&& state_step_ok(l)
    &&& areas_in_world(l)
    &&& 0 <= l.star_count
    &&& l.star_count + l.stars@.len() <= i32::MAX
    &&& -TOAST_HEIGHT <= l.toast_position.0 <= 0
    &&& l.toast_counter >= 0
}

/// Whether a frame of the level can run: the pause menu is well formed,
/// every platform can run its frame, and after any outcome of the
/// platforms' frames the player can move and the rest of the frame can run.
pub open spec fn update_ok(l0: Level, inputs: InputSnapshot, snd0: Seq<Sound>) -> bool {
    &&& l0.paused ==> l0.pause_menu.wf()
    &&& (!l0.paused && !inputs.cancel_clicked) ==> {
        &&& platforms_fit(l0.platforms@)
        &&& forall|l1: Level, snd1: Seq<Sound>| #[trigger] platforms_updated(l0, snd0, l1, snd1) ==> {
            &&& l1.player.state != PlayerState::Stopped ==> movement_ok(l1, inputs)
            &&& forall|l2: Level, snd2: Seq<Sound>, mv: PlayerMovementResult| #[trigger] moved(l1, inputs, snd1, l2, snd2, mv) ==> finish_ok(l2)
        }
    }
}

/// Whether the level `l1`, the sounds `snd1` and the result `r` are what a
/// frame of level `l0` with these inputs and sounds `snd0` gives: paused,
/// only the pause menu runs; cancel pauses; otherwise the level goes on,
/// leads to another level, or, the player dead, to the death screen.
pub open spec fn level_update_fits(l0: Level, inputs: InputSnapshot, snd0: Seq<Sound>, l1: Level, snd1: Seq<Sound>, r: SceneResult) -> bool {
    &&& l0.paused ==> menu_update_fits(l0.pause_menu, inputs, snd0, l1.pause_menu, snd1, r)
        && l1 == (Level { pause_menu: l1.pause_menu, ..l0 })
    &&& (!l0.paused && inputs.cancel_clicked) ==> (r is Continue && snd1 == snd0 && l1 == (Level { paused: true, ..l0 }))
    &&& (!l0.paused && !inputs.cancel_clicked) ==> {
        &&& r is Continue || r is SwitchToLevel || r is SwitchToKillScreen
        &&& r matches SceneResult::SwitchToKillScreen { path } ==> path@ == l0.map_path@ && l1.player.is_dead
        &&& r is Continue ==> !l1.player.is_dead
        &&& l1.star_count >= l0.star_count
        &&& !l1.paused
        &&& frame_run(l0, inputs, snd0, l1, snd1, r)
    }
}

/// What the end of a frame does to a level `l` whose player has moved and
/// decided what to do next, with sounds `snd`: the doors run, and one that
/// closes leads on; else a warp zone the player is in leads on; else the
/// stars the player touches are picked up, and a dead player goes to the
/// death screen, while for a live one the star count display moves.
pub open spec fn frame_end(l: Level, snd: Seq<Sound>, l1: Level, snd1: Seq<Sound>, r: SceneResult) -> bool {
    let rect = l.player.bounds();
    exists|ld: Level, rd: Option<SceneResult>|
        #[trigger] doors_stepped(l, rect, ld, rd) && match rd {
            Some(res) => r == res && l1 == ld && snd1 == snd,
            None => exists|rw: Option<SceneResult>|
                #[trigger] warps_checked(ld, rect, rw) && match rw {
                    Some(res) => r == res && l1 == ld && snd1 == snd,
                    None => exists|ls: Level, ss: Seq<Sound>|
                        #[trigger] stars_collected(ld, rect, snd, ls, ss) && snd1 == ss && if ls.player.is_dead {
                            l1 == ls && (r matches SceneResult::SwitchToKillScreen { path } && path@ == ls.map_path@)
                        } else {
                            toast_stepped(ls, l1) && r is Continue
                        },
                },
        }
}

/// A frame of a level `l0` that is neither paused nor pausing: the
/// platforms run, the player moves and decides what to do next, its sprite
/// follows, and the frame ends.
pub open spec fn frame_run(l0: Level, inputs: InputSnapshot, snd0: Seq<Sound>, l1: Level, snd1: Seq<Sound>, r: SceneResult) -> bool {
    exists|lp: Level, sp: Seq<Sound>|
        #[trigger] platforms_updated(l0, snd0, lp, sp) && exists|lm: Level, sm: Seq<Sound>, mv: PlayerMovementResult|
            #[trigger] moved(lp, inputs, sp, lm, sm, mv) && exists|ls: Level|
                #[trigger] state_stepped(lm, mv, ls) && frame_end(Level { player: sprite_after(ls.player), ..ls }, sm, l1, snd1, r)
}

impl Level {
    /// Runs a frame of the level. Paused, only the pause menu runs; cancel
    /// pauses. Otherwise the platforms run, the player moves and decides
    /// what to do next, the doors run (one that closes behind the player
    /// leads on), a warp zone the player is in leads on, the stars they
    /// touch are picked up, a dead player goes to the death screen, and the
    /// star count display moves.
    pub fn update(&mut self, inputs: &InputSnapshot, sounds: &mut SoundManager) -> (r: SceneResult)
        requires
            update_ok(*old(self), *inputs, old(sounds)@),
        ensures
            level_update_fits(*old(self), *inputs, old(sounds)@, *final(self), final(sounds)@, r),
    {
        if self.paused {
            return self.pause_menu.update(inputs, sounds);
        }
        if inputs.cancel_clicked {
            self.paused = true;
            return SceneResult::Continue;
        }
        let ghost l0 = *self;
        let ghost snd0 = sounds@;
        self.update_platforms(sounds);
        let ghost l1 = *self;
        let ghost snd1 = sounds@;
        proof {
            assert(platforms_updated(l0, snd0, l1, snd1));
        }
        let movement = match self.player.state {
            PlayerState::Stopped => PlayerMovementResult {
                on_ground: false,
                pushing_against_wall: false,
                jump_down: false,
                jump_triggered: false,
                crouch_down: false,
                stuck_in_wall: false,
                crushed_by_platform: false,
            },
            _ => self.update_player_movement(inputs, sounds),
        };
        proof {
            assert(moved(l1, *inputs, snd1, *self, sounds@, movement));
            assert(finish_ok(*self));
        }
        let ghost l2 = *self;
        let ghost snd2 = sounds@;
        self.update_player_state(movement);
        let ghost l3 = *self;
        self.player.update_sprite();
        let ghost l4 = *self;
        proof {
            assert(l4 == (Level { player: sprite_after(l3.player), ..l3 }));
            assert(self.player.bounds() == l2.player.bounds());
            assert forall|i: int| 0 <= i < self.doors@.len() implies rect_in_world(#[trigger] self.doors@[i].area) by {
                assert(self.doors@[i].area == l2.doors@[i].area);
            }
            assert(areas_in_world(*self));
        }
        let player_rect = self.player.get_target_bounds_rect(None);
        let doors = self.update_doors(player_rect);
        let ghost l5 = *self;
        proof {
            assert(platforms_updated(l0, snd0, l1, snd1));
            assert(moved(l1, *inputs, snd1, l2, snd2, movement));
            assert(state_stepped(l2, movement, l3));
            assert(doors_stepped(l4, player_rect, l5, doors));
        }
        match doors {
            Some(result) => {
                proof {
                    assert(frame_end(l4, snd2, *self, sounds@, result));
                }
                return result;
            },
            None => {},
        }
        let warps = self.check_warps(player_rect);
        proof {
            assert(warps_checked(l5, player_rect, warps));
        }
        match warps {
            Some(result) => {
                proof {
                    assert(frame_end(l4, snd2, *self, sounds@, result));
                }
                return result;
            },
            None => {},
        }
        proof {
            assert(finish_ok(l2));
            assert(l2.toast_counter >= 0);
            assert(self.toast_counter == l2.toast_counter);
            assert(self.toast_position == l2.toast_position);
            assert(self.star_count == old(self).star_count);
            assert(!self.paused);
        }
        self.collect_stars(player_rect, sounds);
        let ghost l6 = *self;
        let ghost snd6 = sounds@;
        proof {
            assert(stars_collected(l5, player_rect, snd2, l6, snd6));
        }
        if self.player.is_dead {
            let r = SceneResult::SwitchToKillScreen { path: self.map_path.clone() };
            proof {
                assert(frame_end(l4, snd2, *self, sounds@, r));
            }
            return r;
        }
        self.update_toast();
        proof {
            assert(toast_stepped(l6, *self));
            assert(frame_end(l4, snd2, *self, sounds@, SceneResult::Continue));
        }
        SceneResult::Continue
    }
}

/// Whether a map object is a thing that needs a tile: a platform, bagel,
/// conveyor, spring, button or star.
pub open spec fn needs_gid(o: MapObject) -> bool {
    o.properties.platform || o.properties.bagel || o.properties.convey is Some || o.properties.spring
        || o.properties.button || o.properties.star
}

/// How many platforms a map object makes.
pub open spec fn platforms_of(o: MapObject) -> int {
    (if o.properties.platform { 1int } else { 0int }) + (if o.properties.bagel { 1int } else { 0int }) + (if o.properties.convey is Some {
        1int
    } else {
        0int
    }) + (if o.properties.spring { 1int } else { 0int }) + (if o.properties.button { 1int } else { 0int })
}

/// How many platforms, doors, stars and warps the objects make.
pub open spec fn counts(objs: Seq<MapObject>) -> (int, int, int, int)
    decreases objs.len(),
{
    if objs.len() == 0 {
        (0, 0, 0, 0)
    } else {
        let (p, d, s, w) = counts(objs.drop_last());
        let o = objs.last();
        (
            p + platforms_of(o),
            d + if o.properties.door { 1int } else { 0int },
            s + if o.properties.star { 1int } else { 0int },
            w + if o.properties.warp is Some { 1int } else { 0int },
        )
    }
}

/// The bounds under which the objects of a map can be set up.
pub open spec fn objects_ok(map: TileMap) -> bool {
    forall|i: int| 0 <= i < map.objects@.len() ==> {
        let o = #[trigger] map.objects@[i];
        &&& o.position.scalable()
        &&& o.properties.platform ==> moving_platform_fits(o, map.tilewidth, map.tileheight)
        &&& o.properties.speed matches Some(sp) ==> fits_i32(sp.0 * SUBPIXELS)
        &&& fits_i32(o.properties.dx.0 * SUBPIXELS)
        &&& fits_i32(o.properties.dy.0 * SUBPIXELS)
    }
}

fn fits(v: i128) -> (r: bool)
    ensures
        r == fits_i32(v as int),
{
    -2147483648i128 <= v && v <= 2147483647i128
}

/// Whether one object of a map can be set up.
fn object_fits(o: &MapObject, tilewidth: Pixels, tileheight: Pixels) -> (r: bool)
    ensures
        r == ({
            &&& o.position.scalable()
            &&& o.properties.platform ==> moving_platform_fits(*o, tilewidth, tileheight)
            &&& o.properties.speed matches Some(sp) ==> fits_i32(sp.0 * SUBPIXELS)
            &&& fits_i32(o.properties.dx.0 * SUBPIXELS)
            &&& fits_i32(o.properties.dy.0 * SUBPIXELS)
        }),
{
    let s: i128 = SUBPIXELS as i128;
    let p = o.position;
    let scalable = fits(p.x.0 as i128 * s) && fits(p.y.0 as i128 * s) && fits(p.w.0 as i128 * s) && fits(p.h.0 as i128 * s);
    let speed_ok = match o.properties.speed {
        Some(sp) => fits(sp.0 as i128 * s),
        None => true,
    };
    let platform_ok = if o.properties.platform {
        let tile: i128 = match o.properties.direction {
            Direction::Up | Direction::Down => tileheight.0 as i128,
            Direction::Left | Direction::Right => tilewidth.0 as i128,
        };
        let (sx, sy): (i128, i128) = match o.properties.direction {
            Direction::Up => (0, -1),
            Direction::Down => (0, 1),
            Direction::Left => (-1, 0),
            Direction::Right => (1, 0),
        };
        let ts: i128 = tile * s;
        let d: i128 = o.properties.distance as i128;
        proof {
            assert(-0x8000_0000 * 32 <= ts <= 0x8000_0000 * 32);
            assert(-0x8000_0000 * 32 * 0x8000_0000 <= ts * d <= 0x8000_0000 * 32 * 0x8000_0000) by (nonlinear_arith)
                requires
                    -0x8000_0000 * 32 <= ts <= 0x8000_0000 * 32,
                    -0x8000_0000 <= d <= 0x8000_0000;
        }
        let len: i128 = ts * d;
        scalable && fits(tile * s) && fits(len) && fits(len * sx) && fits(len * sy) && fits(p.x.0 as i128 * s + len * sx)
            && fits(p.y.0 as i128 * s + len * sy) && speed_ok
    } else {
        true
    };
    scalable && platform_ok && speed_ok && fits(o.properties.dx.0 as i128 * s) && fits(o.properties.dy.0 as i128 * s)
}

/// How many of the kinds of platform before kind `k` (in order: a moving
/// platform, a bagel, a conveyor, a spring, a button) an object makes.
pub open spec fn kinds_before(o: MapObject, k: int) -> int {
    (if k > 0 && o.properties.platform { 1int } else { 0int }) + (if k > 1 && o.properties.bagel { 1int } else { 0int })
        + (if k > 2 && o.properties.convey is Some { 1int } else { 0int }) + (if k > 3 && o.properties.spring { 1int } else { 0int })
        + (if k > 4 && o.properties.button { 1int } else { 0int })
}

/// Whether `ps` are the platforms that object `o` makes, one of each kind
/// it is, in order, on a map with tiles of the given size; a spring drawn
/// from `spring`, a button from `button`.
pub open spec fn platforms_made(
    o: MapObject,
    ps: Seq<Platform>,
    tilewidth: Pixels,
    tileheight: Pixels,
    spring: Option<SpriteSheet>,
    button: Option<SpriteSheet>,
) -> bool {
    &&& ps.len() == platforms_of(o)
    &&& o.properties.platform ==> moving_made(ps[kinds_before(o, 0)], o, tilewidth, tileheight)
    &&& o.properties.bagel ==> bagel_made(ps[kinds_before(o, 1)], o)
    &&& o.properties.convey is Some ==> conveyor_made(ps[kinds_before(o, 2)], o)
    &&& o.properties.spring ==> spring_made(ps[kinds_before(o, 3)], o, spring.unwrap())
    &&& o.properties.button ==> button_made(ps[kinds_before(o, 4)], o, button.unwrap())
}

/// Whether the platforms, doors, stars and warp zones are those that the
/// objects make, in the objects' order; the button of object `i` drawn
/// from `buttons[i]`.
pub open spec fn objects_made(
    objs: Seq<MapObject>,
    ps: Seq<Platform>,
    ds: Seq<Door>,
    ss: Seq<Star>,
    ws: Seq<Warp>,
    tilewidth: Pixels,
    tileheight: Pixels,
    spring: Option<SpriteSheet>,
    buttons: Seq<Option<SpriteSheet>>,
) -> bool
    decreases objs.len(),
{
    if objs.len() == 0 {
        ps.len() == 0 && ds.len() == 0 && ss.len() == 0 && ws.len() == 0
    } else {
        let o = objs.last();
        let np = platforms_of(o);
        let nd = if o.properties.door { 1int } else { 0int };
        let ns = if o.properties.star { 1int } else { 0int };
        let nw = if o.properties.warp is Some { 1int } else { 0int };
        &&& np <= ps.len()
        &&& nd <= ds.len()
        &&& ns <= ss.len()
        &&& nw <= ws.len()
        &&& objects_made(
            objs.drop_last(),
            ps.take(ps.len() - np),
            ds.take(ds.len() - nd),
            ss.take(ss.len() - ns),
            ws.take(ws.len() - nw),
            tilewidth,
            tileheight,
            spring,
            buttons,
        )
        &&& platforms_made(o, ps.skip(ps.len() - np), tilewidth, tileheight, spring, buttons[objs.len() - 1])
        &&& o.properties.door ==> door_made(ds.last(), o)
        &&& o.properties.star ==> star_made(ss.last(), o)
        &&& o.properties.warp is Some ==> warp_made(ws.last(), o)
    }
}

/// The last of the first `k` objects that is a spawn point, if any.
pub open spec fn last_spawn(objs: Seq<MapObject>, k: int) -> Option<int>
    decreases k,
{
    if k <= 0 {
        None
    } else if objs[k - 1].properties.spawn {
        Some(k - 1)
    } else {
        last_spawn(objs, k - 1)
    }
}

/// The player `given` as the first `k` objects place it: at the last spawn
/// point among them, with its speed, jumping and facing its way; else at
/// the default place.
pub open spec fn player_at(given: Player, objs: Seq<MapObject>, k: int) -> Player {
    match last_spawn(objs, k) {
        Some(j) => {
            let o = objs[j];
            Player {
                position: Point {
                    x: Subpixels((o.position.x.0 * SUBPIXELS) as i32),
                    y: Subpixels((o.position.y.0 * SUBPIXELS) as i32),
                },
                delta: Point {
                    x: Subpixels((o.properties.dx.0 * SUBPIXELS) as i32),
                    y: Subpixels((o.properties.dy.0 * SUBPIXELS) as i32),
                },
                state: PlayerState::Jumping,
                facing_right: !o.properties.facing_left,
                ..given
            }
        },
        None => Player { position: Point { x: Subpixels(PLAYER_DEFAULT_X), y: Subpixels(PLAYER_DEFAULT_Y) }, ..given },
    }
}

/// Whether every object of a map can be set up, as `Level::new` needs.
pub fn objects_fit(map: &TileMap) -> (r: bool)
    ensures
        r == objects_ok(*map),
{
    let mut i: usize = 0;
    while i < map.objects.len()
        invariant
            i <= map.objects@.len(),
            forall|j: int| 0 <= j < i ==> {
                let o = #[trigger] map.objects@[j];
                &&& o.position.scalable()
                &&& o.properties.platform ==> moving_platform_fits(o, map.tilewidth, map.tileheight)
                &&& o.properties.speed matches Some(sp) ==> fits_i32(sp.0 * SUBPIXELS)
                &&& fits_i32(o.properties.dx.0 * SUBPIXELS)
                &&& fits_i32(o.properties.dy.0 * SUBPIXELS)
            },
        decreases map.objects.len() - i,
    {
        if !object_fits(&map.objects[i], map.tilewidth, map.tileheight) {
            return false;
        }
        i = i + 1;
    }
    true
}

impl Level {
    /// A level on a map: its platforms, doors, stars and warp zones come
    /// from the map's objects, the player starts at the last spawn point
    /// (or a default place), and the level's name shows at the top. Springs
    /// are drawn from `spring_sprite`, which is given where the map has a
    /// spring; the button of object `i` from `button_sprites[i]`.
    pub fn new(
        name: String,
        map_path: String,
        map: TileMap,
        player: Player,
        pause_menu: Menu,
        spring_sprite: Option<SpriteSheet>,
        button_sprites: &Vec<Option<SpriteSheet>>,
    ) -> (r: Result<Level, Error>)
        requires
            objects_ok(map),
            forall|i: int| 0 <= i < map.objects@.len() && (#[trigger] map.objects@[i]).properties.spring ==> spring_sprite is Some,
            button_sprites@.len() == map.objects@.len(),
            forall|i: int| 0 <= i < map.objects@.len() && (#[trigger] map.objects@[i]).properties.button ==> button_sprites@[i] is Some,
        ensures
            (exists|i: int| 0 <= i < map.objects@.len() && needs_gid(#[trigger] map.objects@[i]) && map.objects@[i].gid is None)
                <==> r is Err,
            r is Err ==> r == Err::<Level, Error>(Error::MissingGid),
            r matches Ok(l) ==> {
                let (np, nd, ns, nw) = counts(map.objects@);
                &&& l.platforms@.len() == np
                &&& l.doors@.len() == nd
                &&& l.stars@.len() == ns
                &&& l.warps@.len() == nw
                &&& l.name@ == name@
                &&& l.toast_text@ == name@
                &&& l.map_path@ == map_path@
                &&& l.map == map
                &&& !l.paused
                &&& l.star_count == 0
                &&& l.current_platform is None
                &&& l.current_door is None
                &&& l.switches@ == Set::<Seq<char>>::empty()
                &&& l.toast_position.0 == -TOAST_HEIGHT
                &&& l.toast_counter == TOAST_TIME
                &&& l.coyote_counter == COYOTE_TIME
                &&& l.wall_stick_counter == WALL_STICK_TIME
                &&& l.wall_slide_counter == WALL_SLIDE_TIME
                &&& l.jump_grace_counter == 0
                &&& l.spring_counter == 0
                &&& objects_made(map.objects@, l.platforms@, l.doors@, l.stars@, l.warps@, map.tilewidth, map.tileheight, spring_sprite, button_sprites@)
                &&& l.player == player_at(player, map.objects@, map.objects@.len() as int)
                &&& l.pause_menu == pause_menu
                &&& !l.wall_stick_facing_right
                &&& l.previous_map_offset is None
                &&& l.current_slopes@ == Set::<TileIndex>::empty()
                &&& l.current_switch_tiles@ == Set::<TileIndex>::empty()
            },
    {
        let ghost given = player;
        let mut player = player;
        player.position.x = Subpixels::new(PLAYER_DEFAULT_X);
        player.position.y = Subpixels::new(PLAYER_DEFAULT_Y);
        let mut platforms: Vec<Platform> = Vec::new();
        let mut stars: Vec<Star> = Vec::new();
        let mut doors: Vec<Door> = Vec::new();
        let mut warps: Vec<Warp> = Vec::new();
        let n = map.objects.len();
        let mut i: usize = 0;
        while i < n
            invariant
                n == map.objects@.len(),
                i <= n,
                objects_ok(map),
                button_sprites@.len() == n,
                forall|j: int| 0 <= j < n && (#[trigger] map.objects@[j]).properties.spring ==> spring_sprite is Some,
                forall|j: int| 0 <= j < n && (#[trigger] map.objects@[j]).properties.button ==> button_sprites@[j] is Some,
                forall|j: int| 0 <= j < i ==> !(needs_gid(#[trigger] map.objects@[j]) && map.objects@[j].gid is None),
                ({
                    let (np, nd, ns, nw) = counts(map.objects@.take(i as int));
                    &&& platforms@.len() == np
                    &&& doors@.len() == nd
                    &&& stars@.len() == ns
                    &&& warps@.len() == nw
                }),
                objects_made(map.objects@.take(i as int), platforms@, doors@, stars@, warps@, map.tilewidth, map.tileheight, spring_sprite, button_sprites@),
                player == player_at(given, map.objects@, i as int),
            decreases n - i,
        {
            let obj = &map.objects[i];
            proof {
                assert(map.objects@.take(i + 1).drop_last() =~= map.objects@.take(i as int));
                assert(map.objects@.take(i + 1).last() == map.objects@[i as int]);
                assert(obj.position.scalable());
            }
            if needs_gid_exec(obj) && obj.gid.is_none() {
                return Err(Error::MissingGid);
            }
            let ghost o = map.objects@[i as int];
            let ghost p0 = platforms@;
            let ghost d0 = doors@;
            let ghost s0 = stars@;
            let ghost w0 = warps@;
            add_platforms(&mut platforms, obj, map.tilewidth, map.tileheight, spring_sprite, button_sprites[i])?;
            let ghost added = platforms@.skip(p0.len() as int);
            if obj.properties.spawn {
                player.position.x = obj.position.x.as_subpixels();
                player.position.y = obj.position.y.as_subpixels();
                player.delta.x = obj.properties.dx.as_subpixels();
                player.delta.y = obj.properties.dy.as_subpixels();
                player.state = PlayerState::Jumping;
                player.facing_right = !obj.properties.facing_left;
            }
            if obj.properties.door {
                doors.push(Door::new(obj));
            }
            if obj.properties.star {
                let star = Star::new(obj)?;
                stars.push(star);
            }
            if obj.properties.warp.is_some() {
                let warp = Warp::new(obj)?;
                warps.push(warp);
            }
            proof {
                let objs1 = map.objects@.take(i + 1);
                assert(objs1.drop_last() =~= map.objects@.take(i as int));
                assert(objs1.last() == o);
                let np = platforms_of(o);
                assert(platforms@.take(platforms@.len() - np) =~= p0);
                assert(platforms@.skip(platforms@.len() - np) =~= added);
                let nd = if o.properties.door { 1int } else { 0int };
                let ns = if o.properties.star { 1int } else { 0int };
                let nw = if o.properties.warp is Some { 1int } else { 0int };
                assert(doors@.take(doors@.len() - nd) =~= d0);
                assert(stars@.take(stars@.len() - ns) =~= s0);
                assert(warps@.take(warps@.len() - nw) =~= w0);
                assert(objects_made(objs1, platforms@, doors@, stars@, warps@, map.tilewidth, map.tileheight, spring_sprite, button_sprites@));
            }
            i = i + 1;
        }
        proof {
            assert(map.objects@.take(n as int) =~= map.objects@);
        }
        let toast_text = name.clone();
        Ok(Level {
            name,
            map_path,
            map,
            player,
            pause_menu,
            paused: false,
            wall_stick_counter: WALL_STICK_TIME,
            wall_stick_facing_right: false,
            wall_slide_counter: WALL_SLIDE_TIME,
            coyote_counter: COYOTE_TIME,
            jump_grace_counter: 0,
            spring_counter: 0,
            previous_map_offset: None,
            toast_text,
            toast_position: Subpixels::new(TOAST_HEIGHT) * -1,
            toast_counter: TOAST_TIME,
            platforms,
            stars,
            doors,
            warps,
            star_count: 0,
            current_platform: None,
            current_slopes: SmallIntSet::new(),
            switches: SwitchState::new(),
            current_switch_tiles: SmallIntSet::new(),
            current_door: None,
        })
    }
}


/// Adds the platforms that an object makes, one of each kind it is, in
/// order.
fn add_platforms(
    platforms: &mut Vec<Platform>,
    obj: &MapObject,
    tilewidth: Pixels,
    tileheight: Pixels,
    spring: Option<SpriteSheet>,
    button: Option<SpriteSheet>,
) -> (r: Result<(), Error>)
    requires
        obj.position.scalable(),
        needs_gid(*obj) ==> obj.gid is Some,
        obj.properties.platform ==> moving_platform_fits(*obj, tilewidth, tileheight),
        obj.properties.speed matches Some(sp) ==> fits_i32(sp.0 * SUBPIXELS),
        obj.properties.spring ==> spring is Some,
        obj.properties.button ==> button is Some,
    ensures
        r is Ok,
        final(platforms)@.len() == old(platforms)@.len() + platforms_of(*obj),
        final(platforms)@.take(old(platforms)@.len() as int) == old(platforms)@,
        platforms_made(*obj, final(platforms)@.skip(old(platforms)@.len() as int), tilewidth, tileheight, spring, button),
{
    let ghost o = *obj;
    let ghost p0 = platforms@;
    let ghost mut added: Seq<Platform> = Seq::empty();
    if obj.properties.platform {
        let p = MovingPlatform::new(obj, tilewidth, tileheight)?;
        platforms.push(p);
        proof {
            added = added.push(p);
        }
    }
    assert(added.len() == kinds_before(o, 1) && platforms@ == p0 + added);
    assert(o.properties.platform ==> moving_made(added[kinds_before(o, 0)], o, tilewidth, tileheight));
    if obj.properties.bagel {
        let p = Bagel::new(obj)?;
        platforms.push(p);
        proof {
            added = added.push(p);
        }
    }
    assert(added.len() == kinds_before(o, 2) && platforms@ == p0 + added);
    assert(o.properties.bagel ==> bagel_made(added[kinds_before(o, 1)], o));
    if obj.properties.convey.is_some() {
        let p = Conveyor::new(obj)?;
        platforms.push(p);
        proof {
            added = added.push(p);
        }
    }
    assert(added.len() == kinds_before(o, 3) && platforms@ == p0 + added);
    assert(o.properties.convey is Some ==> conveyor_made(added[kinds_before(o, 2)], o));
    if obj.properties.spring {
        let p = Spring::new(obj, spring.unwrap())?;
        platforms.push(p);
        proof {
            added = added.push(p);
        }
    }
    assert(added.len() == kinds_before(o, 4) && platforms@ == p0 + added);
    assert(o.properties.spring ==> spring_made(added[kinds_before(o, 3)], o, spring.unwrap()));
    if obj.properties.button {
        let p = Button::new(obj, button.unwrap())?;
        platforms.push(p);
        proof {
            added = added.push(p);
        }
    }
    assert(added.len() == kinds_before(o, 5) && platforms@ == p0 + added);
    assert(o.properties.button ==> button_made(added[kinds_before(o, 4)], o, button.unwrap()));
    assert(platforms_made(o, added, tilewidth, tileheight, spring, button));
    assert(platforms@.take(p0.len() as int) =~= p0);
    assert(platforms@.skip(p0.len() as int) =~= added);
    Ok(())
}

/// Whether a map object needs a tile.
fn needs_gid_exec(o: &MapObject) -> (r: bool)
    ensures
        r == needs_gid(*o),
{
    o.properties.platform || o.properties.bagel || o.properties.convey.is_some() || o.properties.spring || o.properties.button
        || o.properties.star
}

/// One step of the view toward where it wants to be: at most the pan
/// speed away from where it was.
pub open spec fn pan(prev: int, want: int) -> int {
    if want - prev > VIEWPORT_PAN_SPEED {
        prev + VIEWPORT_PAN_SPEED
    } else if prev - want > VIEWPORT_PAN_SPEED {
        prev - VIEWPORT_PAN_SPEED
    } else {
        want
    }
}

/// The offset of the map on one axis of the screen: the player centered,
/// but no space wasted before the map's start (less `lead`) or past its
/// end (`limit` is the screen size less the map's); a view area of the map
/// overrides it; and the view moves at most the pan speed a frame.
pub open spec fn view_axis(center: int, pos: int, lead: int, limit: int, preferred: Option<int>, prev: Option<int>) -> int {
    let d1 = if center > pos + lead { pos + lead } else { center };
    let d2 = if d1 < pos + limit { pos + limit } else { d1 };
    let off1 = match preferred {
        Some(p) => -p,
        None => d2 - pos,
    };
    match prev {
        Some(q) => pan(q, off1),
        None => off1,
    }
}

/// The view stays within the pan speed of where it was: the view never
/// jumps.
pub proof fn view_never_jumps(center: int, pos: int, lead: int, limit: int, preferred: Option<int>, q: int)
    ensures
        -VIEWPORT_PAN_SPEED <= view_axis(center, pos, lead, limit, preferred, Some(q)) - q <= VIEWPORT_PAN_SPEED,
{
}

/// The bounds under which the view's arithmetic stays within an `i32`.
pub open spec fn view_ok(l: Level, dest: Rect<Subpixels>) -> bool {
    &&& l.map.objects_fit()
    &&& l.map.wf()
    &&& fits_i32(l.player.position.x.0 + l.player.hitbox.x.0)
    &&& fits_i32(l.player.position.y.0 + l.player.hitbox.y.0)
    &&& rect_in_world(l.player.bounds())
    &&& in_world(l.player.position.x.0 as int)
    &&& in_world(l.player.position.y.0 as int)
    &&& rect_in_world(dest)
    &&& l.previous_map_offset matches Some(q) ==> in_world(q.x.0 as int) && in_world(q.y.0 as int)
}

/// The map's offset on the screen `dest` in the level's next frame: on
/// each axis, the player is centred where the map allows, a view area the
/// player is in takes over, and the view moves at most the pan speed from
/// where it was.
pub open spec fn view_offset(l: Level, dest: Rect<Subpixels>) -> (int, int) {
    let p = l.player.position;
    let px = preferred_of(l.map.objects@, l.player.bounds(), false);
    let py = preferred_of(l.map.objects@, l.player.bounds(), true);
    let ox = view_axis(trunc_div(dest.w.0 as int, 2), p.x.0 as int, 0, dest.w.0 - l.map.right_edge(), px, match l.previous_map_offset {
        Some(q) => Some(q.x.0 as int),
        None => None,
    });
    let oy = view_axis(trunc_div(dest.h.0 as int, 2), p.y.0 as int, 4 * SUBPIXELS, dest.h.0 - l.map.bottom_edge(), py, match l.previous_map_offset {
        Some(q) => Some(q.y.0 as int),
        None => None,
    });
    (ox, oy)
}

impl Level {
    /// Where the map and the player are drawn on the screen `dest`: the map's
    /// offset and the player's place. The view is remembered for the next
    /// frame.
    pub fn update_view(&mut self, dest: Rect<Subpixels>) -> (r: (Point<Subpixels>, Point<Subpixels>))
        requires
            view_ok(*old(self), dest),
        ensures
            ({
                let l = *old(self);
                let p = l.player.position;
                let (ox, oy) = view_offset(l, dest);
                &&& r.0.x.0 == ox
                &&& r.0.y.0 == oy
                &&& r.1.x.0 == p.x.0 + ox
                &&& r.1.y.0 == p.y.0 + oy
                &&& final(self).previous_map_offset == Some(r.0)
            }),
            *final(self) == (Level { previous_map_offset: final(self).previous_map_offset, ..*old(self) }),
    {
        let player_rect = self.player.get_target_bounds_rect(None);
        proof {
            assert forall|i: int| 0 <= i < self.map.objects@.len() implies #[trigger] crate::tilemap::object_view_fits(self.map.objects@[i]) by {
                assert(crate::tilemap::object_fits(self.map.objects@[i]));
            }
        }
        let (preferred_x, preferred_y) = self.map.get_preferred_view(player_rect);
        proof {
            lemma_preferred_in_world(self.map.objects@, player_rect, false);
            lemma_preferred_in_world(self.map.objects@, player_rect, true);
        }
        let px = self.player.position.x.0;
        let py = self.player.position.y.0;
        let right_edge = (self.map.tilewidth * self.map.width).as_subpixels().0;
        let bottom_edge = (self.map.tileheight * self.map.height).as_subpixels().0;
        proof {
            assert(right_edge == self.map.right_edge() && bottom_edge == self.map.bottom_edge()) by (nonlinear_arith)
                requires
                    right_edge == (self.map.tilewidth.0 * self.map.width) * SUBPIXELS,
                    bottom_edge == (self.map.tileheight.0 * self.map.height) * SUBPIXELS,
            ;
        }
        let (prev_x, prev_y) = match self.previous_map_offset {
            Some(q) => (Some(q.x.0), Some(q.y.0)),
            None => (None, None),
        };
        let ox = view_axis_exec(dest.w.0 / 2, px, 0, dest.w.0 - right_edge, preferred_x, prev_x);
        let oy = view_axis_exec(dest.h.0 / 2, py, 4 * SUBPIXELS, dest.h.0 - bottom_edge, preferred_y, prev_y);
        let map_offset = Point::new(Subpixels(ox), Subpixels(oy));
        let player_draw = Point::new(Subpixels(px + ox), Subpixels(py + oy));
        self.previous_map_offset = Some(map_offset);
        (map_offset, player_draw)
    }
}

/// A view area's preferred offset lies within the world.
proof fn lemma_preferred_in_world(objs: Seq<MapObject>, rect: Rect<Subpixels>, vertical: bool)
    requires
        forall|i: int| 0 <= i < objs.len() ==> #[trigger] crate::tilemap::object_fits(objs[i]),
    ensures
        preferred_of(objs, rect, vertical) matches Some(x) ==> in_world(x),
    decreases objs.len(),
{
    if objs.len() > 0 {
        assert(crate::tilemap::object_fits(objs[objs.len() - 1]));
        lemma_preferred_in_world(objs.drop_last(), rect, vertical);
    }
}

/// The map's offset on one axis of the screen.
fn view_axis_exec(center: i32, pos: i32, lead: i32, limit: i32, preferred: Option<Subpixels>, prev: Option<i32>) -> (r: i32)
    requires
        in_world(center as int),
        in_world(pos as int),
        0 <= lead <= 4 * SUBPIXELS,
        -3 * crate::tilemap::WORLD <= limit <= 3 * crate::tilemap::WORLD,
        preferred matches Some(p) ==> in_world(p.0 as int),
        prev matches Some(q) ==> in_world(q as int),
    ensures
        r == view_axis(center as int, pos as int, lead as int, limit as int, match preferred {
            Some(p) => Some(p.0 as int),
            None => None,
        }, match prev {
            Some(q) => Some(q as int),
            None => None,
        }),
        -4 * crate::tilemap::WORLD <= r <= 4 * crate::tilemap::WORLD,
{
    let mut draw = center;
    // Waste no space before the start of the map.
    if draw > pos + lead {
        draw = pos + lead;
    }
    // Nor past its end.
    if draw < pos + limit {
        draw = pos + limit;
    }
    let mut offset = draw - pos;
    match preferred {
        Some(p) => {
            offset = -p.0;
        },
        None => {},
    }
    // Move the view at most so far a frame.
    match prev {
        Some(q) => {
            if offset - q > VIEWPORT_PAN_SPEED {
                offset = q + VIEWPORT_PAN_SPEED;
            } else if q - offset > VIEWPORT_PAN_SPEED {
                offset = q - VIEWPORT_PAN_SPEED;
            }
        },
        None => {},
    }
    offset
}

impl Level {
    /// Draws what lies over the world: the bar with the level's name while
    /// it shows on the screen `dest`, the darkness of a dark level, and the
    /// light around the player drawn at `player_draw`.
    pub fn draw_overlay(&self, context: &mut RenderContext, dest: Rect<Subpixels>, player_draw: Point<Subpixels>)
        requires
            rect_in_world(dest),
            in_world(self.toast_position.0 as int),
            in_world(player_draw.x.0 as int),
            in_world(player_draw.y.0 as int),
        ensures
            ({
                let bar = Rect {
                    x: dest.x,
                    y: Subpixels((dest.y.0 + self.toast_position.0) as i32),
                    w: dest.w,
                    h: Subpixels(TOAST_HEIGHT),
                };
                let light = Light {
                    position: Point {
                        x: Subpixels((player_draw.x.0 + 12 * SUBPIXELS) as i32),
                        y: Subpixels((player_draw.y.0 + 12 * SUBPIXELS) as i32),
                    },
                    radius: Subpixels((120 * SUBPIXELS) as i32),
                };
                &&& (bar.y.0 + bar.h.0 > 0) ==> final(context).hud_batch.entries@ == old(context).hud_batch.entries@.push(
                    SpriteBatchEntry::FillRect { destination: to_pixels(bar), color: Color { r: 0, g: 0, b: 0, a: 127 } })
                &&& (bar.y.0 + bar.h.0 <= 0) ==> final(context).hud_batch.entries@ == old(context).hud_batch.entries@
                &&& final(context).hud_batch.clear_color == old(context).hud_batch.clear_color
                &&& final(context).player_batch == old(context).player_batch
                &&& final(context).is_dark == self.map.properties.dark
                &&& old(context).lights@.len() < MAX_LIGHTS ==> final(context).lights@ == old(context).lights@.push(light)
                &&& old(context).lights@.len() >= MAX_LIGHTS ==> final(context).lights@ == old(context).lights@
                &&& final(context).width == old(context).width
                &&& final(context).height == old(context).height
                &&& final(context).frame == old(context).frame
            }),
    {
        let bar = Rect { x: dest.x, y: Subpixels(dest.y.0 + self.toast_position.0), w: dest.w, h: Subpixels(TOAST_HEIGHT) };
        if bar.y.0 + bar.h.0 > 0 {
            context.fill_rect(bar, RenderLayer::Hud, Color { r: 0, g: 0, b: 0, a: 127 });
        }
        context.is_dark = self.map.properties.dark;
        let spotlight = Point { x: Subpixels(player_draw.x.0 + 12 * SUBPIXELS), y: Subpixels(player_draw.y.0 + 12 * SUBPIXELS) };
        context.add_light(spotlight, Subpixels(120 * SUBPIXELS));
    }
}


/// The point of an offset.
pub open spec fn offset_point(v: (int, int)) -> Point<Subpixels> {
    Point { x: Subpixels(v.0 as i32), y: Subpixels(v.1 as i32) }
}

/// The whole logical screen of a frame, in subpixels.
pub open spec fn screen_of(c: RenderContext) -> Rect<Subpixels> {
    Rect {
        x: Subpixels(0),
        y: Subpixels(0),
        w: Subpixels((c.width * SUBPIXELS) as i32),
        h: Subpixels((c.height * SUBPIXELS) as i32),
    }
}

/// Whether every shake of a list lies between `lo` and `hi` on both axes.
pub open spec fn shakes_within(shakes: Seq<(i32, i32)>, lo: int, hi: int) -> bool {
    forall|k: int| 0 <= k < shakes.len() ==> lo <= (#[trigger] shakes[k]).0 <= hi && lo <= shakes[k].1 <= hi
}

/// What the platforms draw, each shaken by its shake.
pub open spec fn platforms_drawn(ps: Seq<Platform>, map: TileMap, offset: Point<Subpixels>, frame: u64, shakes: Seq<(i32, i32)>) -> Seq<SpriteBatchEntry> {
    Seq::new(ps.len(), |k: int| ps[k].drawn(map, offset, frame, shakes[k]))
}

/// What the stars draw, each shaken by its shake.
pub open spec fn stars_drawn(ss: Seq<Star>, map: TileMap, offset: Point<Subpixels>, shakes: Seq<(i32, i32)>) -> Seq<SpriteBatchEntry> {
    Seq::new(ss.len(), |k: int| ss[k].drawn(map, offset, shakes[k]))
}

/// The lights of a frame after the stars are drawn, each shaken by its
/// shake.
pub open spec fn stars_lit(ls: Seq<Light>, ss: Seq<Star>, offset: Point<Subpixels>, shakes: Seq<(i32, i32)>) -> Seq<Light>
    decreases ss.len(),
{
    if ss.len() == 0 {
        ls
    } else {
        with_light(stars_lit(ls, ss.drop_last(), offset, shakes.drop_last()), ss.last().light_of(offset, shakes.last()))
    }
}

/// Whether a level can be drawn on the screen `dest`: its view can be
/// worked out, and its map, platforms and stars drawn with the offset it
/// gives, the bar and the player's place within the world.
pub open spec fn level_drawable(l: Level, dest: Rect<Subpixels>) -> bool {
    let v = view_offset(l, dest);
    let off = offset_point(v);
    &&& view_ok(l, dest)
    &&& 0 <= dest.w.0
    &&& 0 <= dest.h.0
    &&& l.map.drawable()
    &&& in_world(v.0)
    &&& in_world(v.1)
    &&& in_world(l.toast_position.0 as int)
    &&& in_world(l.player.position.x.0 + v.0)
    &&& in_world(l.player.position.y.0 + v.1)
    &&& forall|i: int| 0 <= i < l.platforms@.len() ==> (#[trigger] l.platforms@[i]).drawable(l.map, off)
    &&& forall|i: int| 0 <= i < l.stars@.len() ==> (#[trigger] l.stars@[i]).drawable(l.map, off)
}

/// Whether a level `l0` can be drawn into the frame `c0`: the screen's
/// size fits, the level can be drawn on it, and so can its pause menu.
pub open spec fn level_draw_ok(l0: Level, c0: RenderContext) -> bool {
    &&& fits_i32(c0.width * SUBPIXELS)
    &&& fits_i32(c0.height * SUBPIXELS)
    &&& level_drawable(l0, screen_of(c0))
    &&& l0.paused ==> l0.pause_menu.drawable(c0.width, c0.height)
}

/// Whether `l1` and `c1` are the level `l0` and the frame `c0` after the
/// level is drawn.
pub open spec fn level_drawn(l0: Level, c0: RenderContext, l1: Level, c1: RenderContext) -> bool {
    ({
        let l = l0;
        let c = c0;
        let dest = screen_of(c);
        let v = view_offset(l, dest);
        let off = offset_point(v);
        let on = l.switches@;
        let bar = Rect {
            x: dest.x,
            y: Subpixels((dest.y.0 + l.toast_position.0) as i32),
            w: dest.w,
            h: Subpixels(TOAST_HEIGHT),
        };
        let spot = Light {
            position: Point {
                x: Subpixels((l.player.position.x.0 + v.0 + 12 * SUBPIXELS) as i32),
                y: Subpixels((l.player.position.y.0 + v.1 + 12 * SUBPIXELS) as i32),
            },
            radius: Subpixels((120 * SUBPIXELS) as i32),
        };
        let bar_draws = if bar.y.0 + bar.h.0 > 0 {
            seq![SpriteBatchEntry::FillRect { destination: to_pixels(bar), color: Color { r: 0, g: 0, b: 0, a: 127 } }]
        } else {
            Seq::<SpriteBatchEntry>::empty()
        };
        let menu_fill = if l.paused { seq![Menu::fill_entry(c.width, c.height)] } else { Seq::<SpriteBatchEntry>::empty() };
        let menu_hud = if l.paused { l.pause_menu.hud_draws(c.width, c.height, c.frame) } else { Seq::<SpriteBatchEntry>::empty() };
        &&& l1 == (Level { previous_map_offset: Some(off), ..l })
        &&& exists|ps: Seq<(i32, i32)>, ss: Seq<(i32, i32)>|
            #![trigger platforms_drawn(l.platforms@, l.map, off, c.frame, ps), stars_drawn(l.stars@, l.map, off, ss)]
            ps.len() == l.platforms@.len() && ss.len() == l.stars@.len() && shakes_within(ps, -1, 1)
                && shakes_within(ss, -3, 1) && c1.player_batch.entries@ == c.player_batch.entries@
                + l.map.background_draws(dest, off, on, c.frame) + platforms_drawn(l.platforms@, l.map, off, c.frame, ps)
                + stars_drawn(l.stars@, l.map, off, ss) + l.map.foreground_draws(dest, off, on, c.frame) + menu_fill
                && c1.lights@ == with_light(stars_lit(c.lights@, l.stars@, off, ss), spot)
        &&& c1.hud_batch.entries@ == c.hud_batch.entries@ + bar_draws + menu_hud
        &&& c1.is_dark == l.map.properties.dark
        &&& c1.width == c.width
        &&& c1.height == c.height
        &&& c1.frame == c.frame
    })
}

impl Level {
    /// Draws the level on the whole screen: the map up to the player's
    /// layer, the platforms, the stars, the map's layers in front of the
    /// player, then the backing of the bar that shows the level's name,
    /// the darkness of a dark level, the light around the player and, while
    /// the level is paused, the pause menu. The view is remembered for the
    /// next frame.
    pub fn draw(&mut self, context: &mut RenderContext)
        requires
            level_draw_ok(*old(self), *old(context)),
        ensures
            level_drawn(*old(self), *old(context), *final(self), *final(context)),
    {
        let ghost l = *self;
        let ghost c = *context;
        let dest = context.logical_area_in_subpixels();
        assert(dest == screen_of(c));
        let (map_offset, player_draw) = self.update_view(dest);
        assert(map_offset == offset_point(view_offset(l, dest)));
        let frame = context.frame;
        self.map.draw_background(context, RenderLayer::Player, dest, map_offset, &self.switches);
        let ghost after_bg = context.player_batch.entries@;
        let ghost hud = context.hud_batch;
        let ghost mut ps: Seq<(i32, i32)> = Seq::empty();
        let n = self.platforms.len();
        let mut i: usize = 0;
        while i < n
            invariant
                *self == (Level { previous_map_offset: Some(map_offset), ..l }),
                n == self.platforms@.len(),
                i <= n,
                ps.len() == i,
                shakes_within(ps, -1, 1),
                forall|k: int| 0 <= k < self.platforms@.len() ==> (#[trigger] self.platforms@[k]).drawable(self.map, map_offset),
                context.player_batch.entries@ == after_bg + platforms_drawn(self.platforms@.take(i as int), self.map, map_offset, frame, ps),
                context.hud_batch == hud,
                context.lights == c.lights,
                context.frame == frame,
                context.width == c.width,
                context.height == c.height,
            decreases n - i,
        {
            let ghost before = context.player_batch.entries@;
            self.platforms[i].draw(&self.map, context, RenderLayer::Player, map_offset);
            proof {
                let p = self.platforms@[i as int];
                let w = choose|sx: i32, sy: i32|
                    -1 <= sx <= 1 && -1 <= sy <= 1 && context.player_batch.entries@ == before.push(#[trigger] p.drawn(self.map, map_offset, frame, (sx, sy)));
                let ps1 = ps.push(w);
                assert(platforms_drawn(self.platforms@.take(i + 1), self.map, map_offset, frame, ps1) =~= platforms_drawn(
                    self.platforms@.take(i as int), self.map, map_offset, frame, ps).push(p.drawn(self.map, map_offset, frame, w)));
                ps = ps1;
            }
            i = i + 1;
        }
        proof {
            assert(self.platforms@.take(n as int) =~= self.platforms@);
        }
        let ghost after_ps = context.player_batch.entries@;
        let ghost mut ss: Seq<(i32, i32)> = Seq::empty();
        let m = self.stars.len();
        let mut j: usize = 0;
        while j < m
            invariant
                *self == (Level { previous_map_offset: Some(map_offset), ..l }),
                m == self.stars@.len(),
                j <= m,
                ss.len() == j,
                shakes_within(ss, -3, 1),
                forall|k: int| 0 <= k < self.stars@.len() ==> (#[trigger] self.stars@[k]).drawable(self.map, map_offset),
                context.player_batch.entries@ == after_ps + stars_drawn(self.stars@.take(j as int), self.map, map_offset, ss),
                context.lights@ == stars_lit(c.lights@, self.stars@.take(j as int), map_offset, ss),
                context.hud_batch == hud,
                context.frame == frame,
                context.width == c.width,
                context.height == c.height,
            decreases m - j,
        {
            let ghost before = context.player_batch.entries@;
            let ghost before_lights = context.lights@;
            self.stars[j].draw(&self.map, context, RenderLayer::Player, map_offset);
            proof {
                let st = self.stars@[j as int];
                let w = choose|sx: i32, sy: i32|
                    -3 <= sx <= 1 && -3 <= sy <= 1 && context.player_batch.entries@ == before.push(#[trigger] st.drawn(self.map, map_offset, (sx, sy)))
                        && context.lights@ == with_light(before_lights, st.light_of(map_offset, (sx, sy)));
                let ss1 = ss.push(w);
                assert(self.stars@.take(j + 1).drop_last() =~= self.stars@.take(j as int));
                assert(ss1.drop_last() =~= ss);
                assert(stars_drawn(self.stars@.take(j + 1), self.map, map_offset, ss1) =~= stars_drawn(
                    self.stars@.take(j as int), self.map, map_offset, ss).push(st.drawn(self.map, map_offset, w)));
                ss = ss1;
            }
            j = j + 1;
        }
        proof {
            assert(self.stars@.take(m as int) =~= self.stars@);
        }
        self.map.draw_foreground(context, RenderLayer::Player, dest, map_offset, &self.switches);
        let ghost before_overlay = *context;
        self.draw_overlay(context, dest, player_draw);
        let ghost after_overlay = *context;
        if self.paused {
            self.pause_menu.draw(context);
        }
        proof {
            let on = l.switches@;
            let menu_fill = if l.paused { seq![Menu::fill_entry(c.width, c.height)] } else { Seq::<SpriteBatchEntry>::empty() };
            let menu_hud = if l.paused { l.pause_menu.hud_draws(c.width, c.height, c.frame) } else { Seq::<SpriteBatchEntry>::empty() };
            assert(after_overlay.player_batch.entries@ =~= c.player_batch.entries@ + l.map.background_draws(dest, map_offset, on, frame)
                + platforms_drawn(l.platforms@, l.map, map_offset, frame, ps) + stars_drawn(l.stars@, l.map, map_offset, ss)
                + l.map.foreground_draws(dest, map_offset, on, frame));
            assert(context.player_batch.entries@ =~= after_overlay.player_batch.entries@ + menu_fill);
            assert(context.hud_batch.entries@ =~= after_overlay.hud_batch.entries@ + menu_hud);
            assert(before_overlay.lights@ == stars_lit(c.lights@, l.stars@, map_offset, ss));
            let spot = Light {
                position: Point {
                    x: Subpixels((l.player.position.x.0 + map_offset.x.0 + 12 * SUBPIXELS) as i32),
                    y: Subpixels((l.player.position.y.0 + map_offset.y.0 + 12 * SUBPIXELS) as i32),
                },
                radius: Subpixels((120 * SUBPIXELS) as i32),
            };
            assert(context.lights@ == with_light(stars_lit(c.lights@, l.stars@, map_offset, ss), spot));
            assert(context.player_batch.entries@ == c.player_batch.entries@ + l.map.background_draws(dest, map_offset, on, frame)
                + platforms_drawn(l.platforms@, l.map, map_offset, frame, ps) + stars_drawn(l.stars@, l.map, map_offset, ss)
                + l.map.foreground_draws(dest, map_offset, on, frame) + menu_fill);
            assert(context.is_dark == l.map.properties.dark);
            assert(*self == (Level { previous_map_offset: Some(map_offset), ..l }));
            let bar = Rect {
                x: dest.x,
                y: Subpixels((dest.y.0 + l.toast_position.0) as i32),
                w: dest.w,
                h: Subpixels(TOAST_HEIGHT),
            };
            let bar_draws = if bar.y.0 + bar.h.0 > 0 {
                seq![SpriteBatchEntry::FillRect { destination: to_pixels(bar), color: Color { r: 0, g: 0, b: 0, a: 127 } }]
            } else {
                Seq::<SpriteBatchEntry>::empty()
            };
            assert(context.hud_batch.entries@ =~= c.hud_batch.entries@ + bar_draws + menu_hud);
            assert(level_drawn(l, c, *self, *context));
        }
    }
}

} // verus!
