//! Tuning constants of the game. Speeds, distances and accelerations are in
//! subpixels (32 to a pixel) unless they say otherwise; times are in frames.
use vstd::prelude::*;

verus! {

// Basic window and render size.
pub const RENDER_WIDTH: u32 = 320;
pub const RENDER_HEIGHT: u32 = 180;
pub const FRAME_RATE: u32 = 60;

// Rendering details.
pub const MAX_LIGHTS: usize = 32;

/// How quickly the viewport pans to where it wants to be (5 pixels).
pub const VIEWPORT_PAN_SPEED: i32 = 160;

// Player defaults (8 pixels).
pub const PLAYER_DEFAULT_X: i32 = 256;
pub const PLAYER_DEFAULT_Y: i32 = 256;

// Horizontal speed.
pub const TARGET_WALK_SPEED: i32 = 64;
pub const WALK_SPEED_ACCELERATION: i32 = 2;
pub const WALK_SPEED_DECELERATION: i32 = 6;
pub const SLIDE_SPEED_DECELERATION: i32 = 1;

// Vertical speed.
/// How long to hover in the air before officially falling.
pub const COYOTE_TIME: i32 = 6;
/// How long to remember jump was pressed while falling.
pub const JUMP_GRACE_TIME: i32 = 12;
pub const JUMP_INITIAL_SPEED: i32 = 96;
pub const JUMP_ACCELERATION: i32 = 4;
pub const FALL_ACCELERATION: i32 = 10;
pub const MAX_GRAVITY: i32 = 64;

// Wall sliding.
pub const WALL_SLIDE_SPEED: i32 = 8;
pub const WALL_JUMP_HORIZONTAL_SPEED: i32 = 96;
pub const WALL_JUMP_VERTICAL_SPEED: i32 = 96;
pub const WALL_STICK_TIME: i32 = 3;
pub const WALL_SLIDE_TIME: i32 = 60;

// Player appearance.
/// How long before showing the idle animation.
pub const IDLE_TIME: i32 = 240;
/// How fast to animate the player.
pub const PLAYER_FRAMES_PER_FRAME: i32 = 4;

// How the "toast" text pops up at the top of the screen.
pub const TOAST_TIME: i32 = 150;
pub const TOAST_HEIGHT: i32 = 384;
pub const TOAST_SPEED: i32 = 16;

// Button switches.
/// How slowly the button goes down.
pub const BUTTON_DELAY: u32 = 2;
/// There are 4 frames of animation.
pub const BUTTON_MAX_LEVEL: u32 = 6;

// Falling platforms that look like bagels.
pub const BAGEL_WAIT_TIME: i32 = 30;
pub const BAGEL_FALL_TIME: i32 = 150;
pub const BAGEL_MAX_GRAVITY: i32 = 22;
pub const BAGEL_GRAVITY_ACCELERATION: i32 = 2;

// Springs that bounce you.
/// This should match the spring animation.
pub const SPRING_STEPS: i32 = 4;
/// How long the spring stays at the bottom.
pub const SPRING_STALL_FRAMES: i32 = 10;
/// How fast the spring itself moves (1 pixel).
pub const SPRING_SPEED: i32 = 32;
/// How long to jump when bouncing.
pub const SPRING_BOUNCE_DURATION: i32 = 30;
pub const SPRING_BOUNCE_VELOCITY: i32 = 96;
/// How long to jump when jumping from a spring.
pub const SPRING_JUMP_DURATION: i32 = 10;
pub const SPRING_JUMP_VELOCITY: i32 = 156;

// Doors.
pub const DOOR_SPEED: u32 = 3;
/// This should match the door animation frames.
pub const DOOR_CLOSING_FRAMES: u32 = 9;
pub const DOOR_UNLOCKING_FRAMES: u32 = 9;

} // verus!
