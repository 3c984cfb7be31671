//! Directions of movement and the collision rule shared by tiles and platforms.
use std::cmp::Ordering;

use vstd::prelude::*;

use crate::error::Error;
use crate::geometry::{fits_i32, Coord, Rect, Subpixels};
use crate::text::chars_of;

verus! {

/// A direction of movement on the screen; `Up` decreases `y`.
#[derive(Debug, Clone, Copy, PartialEq, Eq, Structural)]
pub enum Direction {
    Up,
    Down,
    Left,
    Right,
}

/// A colour with alpha.
#[derive(Debug, Clone, Copy, PartialEq, Eq, Structural)]
pub struct Color {
    pub r: u8,
    pub g: u8,
    pub b: u8,
    pub a: u8,
}

impl Direction {
    pub open spec fn spec_opposite(self) -> Direction {
        match self {
            Direction::Up => Direction::Down,
            Direction::Down => Direction::Up,
            Direction::Left => Direction::Right,
            Direction::Right => Direction::Left,
        }
    }

    pub fn opposite(self) -> (r: Direction)
        ensures
            r == self.spec_opposite(),
    {
        match self {
            Direction::Up => Direction::Down,
            Direction::Down => Direction::Up,
            Direction::Left => Direction::Right,
            Direction::Right => Direction::Left,
        }
    }

    /// The direction a compass letter names: `N` is up, `S` down, `E` right, `W` left.
    pub open spec fn from_letter(s: Seq<char>) -> Option<Direction> {
        if s == seq!['N'] {
            Some(Direction::Up)
        } else if s == seq!['S'] {
            Some(Direction::Down)
        } else if s == seq!['E'] {
            Some(Direction::Right)
        } else if s == seq!['W'] {
            Some(Direction::Left)
        } else {
            None
        }
    }

    /// Parses a compass letter.
    pub fn parse(s: &str) -> (r: Result<Direction, Error>)
        ensures
            match Direction::from_letter(s@) {
                Some(d) => r == Ok::<Direction, Error>(d),
                None => r matches Err(Error::InvalidDirection(t)) && t@ == s@,
            },
    {
        let c = chars_of(s);
        if c.len() == 1 {
            if c[0] == 'N' {
                assert(s@ == seq!['N']);
                return Ok(Direction::Up);
            } else if c[0] == 'S' {
                assert(s@ == seq!['S']);
                return Ok(Direction::Down);
            } else if c[0] == 'E' {
                assert(s@ == seq!['E']);
                return Ok(Direction::Right);
            } else if c[0] == 'W' {
                assert(s@ == seq!['W']);
                return Ok(Direction::Left);
            }
        }
        Err(Error::InvalidDirection(s.to_owned()))
    }
}

/// The value of a hexadecimal digit, of either case.
pub open spec fn hex_digit(c: char) -> Option<int> {
    let v = c as u32;
    if 48 <= v <= 57 {
        Some(v - 48)
    } else if 97 <= v <= 102 {
        Some(v - 87)
    } else if 65 <= v <= 70 {
        Some(v - 55)
    } else {
        None
    }
}

/// The byte that two hexadecimal digits at `i` give.
pub open spec fn hex_pair(s: Seq<char>, i: int) -> Option<u8> {
    match (hex_digit(s[i]), hex_digit(s[i + 1])) {
        (Some(hi), Some(lo)) => Some((hi * 16 + lo) as u8),
        _ => None,
    }
}

/// The colour that a `#rrggbb` (opaque) or `#aarrggbb` text names.
pub open spec fn color_of(s: Seq<char>) -> Option<Color> {
    if s.len() == 7 && s[0] == '#' {
        match (hex_pair(s, 1), hex_pair(s, 3), hex_pair(s, 5)) {
            (Some(r), Some(g), Some(b)) => Some(Color { r, g, b, a: 255 }),
            _ => None,
        }
    } else if s.len() == 9 && s[0] == '#' {
        match (hex_pair(s, 1), hex_pair(s, 3), hex_pair(s, 5), hex_pair(s, 7)) {
            (Some(a), Some(r), Some(g), Some(b)) => Some(Color { r, g, b, a }),
            _ => None,
        }
    } else {
        None
    }
}

fn read_hex_digit(c: char) -> (r: Option<u32>)
    ensures
        match hex_digit(c) {
            Some(v) => r == Some(v as u32),
            None => r is None,
        },
{
    let v = c as u32;
    if 48 <= v && v <= 57 {
        Some(v - 48)
    } else if 97 <= v && v <= 102 {
        Some(v - 87)
    } else if 65 <= v && v <= 70 {
        Some(v - 55)
    } else {
        None
    }
}

fn read_hex_pair(c: &Vec<char>, i: usize) -> (r: Option<u8>)
    requires
        i + 1 < c.len(),
    ensures
        r == hex_pair(c@, i as int),
{
    match (read_hex_digit(c[i]), read_hex_digit(c[i + 1])) {
        (Some(hi), Some(lo)) => Some((hi * 16 + lo) as u8),
        _ => None,
    }
}

impl Color {
    /// Parses a `#rrggbb` or `#aarrggbb` colour.
    pub fn parse(s: &str) -> (r: Result<Color, Error>)
        ensures
            match color_of(s@) {
                Some(c) => r == Ok::<Color, Error>(c),
                None => r matches Err(Error::InvalidColor(t)) && t@ == s@,
            },
    {
        let c = chars_of(s);
        if c.len() == 7 && c[0] == '#' {
            if let (Some(r), Some(g), Some(b)) = (read_hex_pair(&c, 1), read_hex_pair(&c, 3), read_hex_pair(&c, 5)) {
                return Ok(Color { r, g, b, a: 255 });
            }
        } else if c.len() == 9 && c[0] == '#' {
            if let (Some(a), Some(r), Some(g), Some(b)) = (
                read_hex_pair(&c, 1),
                read_hex_pair(&c, 3),
                read_hex_pair(&c, 5),
                read_hex_pair(&c, 7),
            ) {
                return Ok(Color { r, g, b, a });
            }
        }
        Err(Error::InvalidColor(s.to_owned()))
    }
}

/// Whether an offset is "less" than another when moving in `direction`:
/// moving down or right, a more negative push-back is less; moving up or
/// left, a more positive one is.
pub open spec fn direction_order(a: int, b: int, direction: Direction) -> int {
    let (lo, hi) = match direction {
        Direction::Down | Direction::Right => (a, b),
        Direction::Up | Direction::Left => (b, a),
    };
    if lo < hi {
        -1
    } else if lo == hi {
        0
    } else {
        1
    }
}

/// The order of two offsets as seen when moving in `direction`: -1, 0 or 1.
pub fn order_in_direction(a: Subpixels, b: Subpixels, direction: Direction) -> (r: i32)
    ensures
        r == direction_order(a.0 as int, b.0 as int, direction),
{
    let (lo, hi) = match direction {
        Direction::Down | Direction::Right => (a.0, b.0),
        Direction::Up | Direction::Left => (b.0, a.0),
    };
    if lo < hi {
        -1
    } else if lo == hi {
        0
    } else {
        1
    }
}

/// Compares two offsets as seen when moving in `direction`.
pub fn cmp_in_direction(a: Subpixels, b: Subpixels, direction: Direction) -> (r: Ordering)
    ensures
        (r == Ordering::Less) == (direction_order(a.val(), b.val(), direction) == -1),
        (r == Ordering::Equal) == (direction_order(a.val(), b.val(), direction) == 0),
        (r == Ordering::Greater) == (direction_order(a.val(), b.val(), direction) == 1),
{
    let (lo, hi) = match direction {
        Direction::Down | Direction::Right => (a.0, b.0),
        Direction::Up | Direction::Left => (b.0, a.0),
    };
    if lo < hi {
        Ordering::Less
    } else if lo == hi {
        Ordering::Equal
    } else {
        Ordering::Greater
    }
}

/// The displacement, along the axis of `direction`, that takes `actor` just
/// clear of `target`, pushing it back against `direction`; zero when they do
/// not touch.
pub open spec fn push_back(actor: Rect<Subpixels>, target: Rect<Subpixels>, direction: Direction) -> int {
    if !actor.spec_intersects(target) {
        0
    } else {
        match direction {
            Direction::Up => target.spec_bottom() - actor.spec_top() + 1,
            Direction::Down => target.spec_top() - actor.spec_bottom() - 1,
            Direction::Left => target.spec_right() - actor.spec_left() + 1,
            Direction::Right => target.spec_left() - actor.spec_right() - 1,
        }
    }
}

/// Returns the offset that moves `actor` out of `target` when `actor` was
/// moving in `direction`.
pub fn try_move_to_bounds(actor: Rect<Subpixels>, target: Rect<Subpixels>, direction: Direction) -> (r:
    Subpixels)
    requires
        actor.edges_fit(),
        target.edges_fit(),
        fits_i32(push_back(actor, target, direction)),
    ensures
        r.0 == push_back(actor, target, direction),
{
    if !actor.intersects(target) {
        return Subpixels(0);
    }
    match direction {
        Direction::Up => Subpixels(target.bottom().0 - actor.top().0 + 1),
        Direction::Down => Subpixels(target.top().0 - actor.bottom().0 - 1),
        Direction::Left => Subpixels(target.right().0 - actor.left().0 + 1),
        Direction::Right => Subpixels(target.left().0 - actor.right().0 - 1),
    }
}

/// Whether `actor`, moved by `offset` along the axis of `direction`, is strictly
/// clear of `target` on the side it came from.
pub open spec fn clear_after(
    actor: Rect<Subpixels>,
    target: Rect<Subpixels>,
    direction: Direction,
    offset: int,
) -> bool {
    match direction {
        Direction::Up => actor.spec_top() + offset > target.spec_bottom(),
        Direction::Down => actor.spec_bottom() + offset < target.spec_top(),
        Direction::Left => actor.spec_left() + offset > target.spec_right(),
        Direction::Right => actor.spec_right() + offset < target.spec_left(),
    }
}

/// The push-back of an actor that touches a target moves it against its
/// direction of travel, just far enough to clear the target: one subpixel
/// less would leave them touching.
pub proof fn push_back_separates(actor: Rect<Subpixels>, target: Rect<Subpixels>, direction: Direction)
    requires
        actor.spec_intersects(target),
    ensures
        clear_after(actor, target, direction, push_back(actor, target, direction)),
        match direction {
            Direction::Up | Direction::Left => push_back(actor, target, direction) > 0 && !clear_after(
                actor,
                target,
                direction,
                push_back(actor, target, direction) - 1,
            ),
            Direction::Down | Direction::Right => push_back(actor, target, direction) < 0
                && !clear_after(actor, target, direction, push_back(actor, target, direction) + 1),
        },
{
}

/// Offsets order as their direction says: the order is a total order,
/// reversed for the two opposite directions of an axis.
pub proof fn direction_order_reverses(a: int, b: int, direction: Direction)
    ensures
        direction_order(a, b, direction) == -direction_order(b, a, direction),
        direction_order(a, b, direction) == -direction_order(a, b, direction.spec_opposite()),
        (direction_order(a, b, direction) == 0) == (a == b),
{
}

} // verus!
