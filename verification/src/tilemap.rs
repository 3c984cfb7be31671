//! Tile maps: layers of tile ids, the objects placed on the map, and the
//! rules by which tiles block a moving player.
use vstd::prelude::*;

use crate::constants::MAX_GRAVITY;
use crate::error::Error;
use std::cmp::Ordering;

use crate::geometry::{fits_i32, trunc_div, Coord, Pixels, Point, Rect, Subpixels, SUBPIXELS};
use crate::sprite::Sprite;
use crate::smallintset::SmallIntSet;
use crate::switchstate::{condition_holds, SwitchState};
use crate::tileset::{LocalTileIndex, Slope, TileProperties, TileSet};
use crate::utils::{cmp_in_direction, direction_order, push_back, try_move_to_bounds, Color};
use crate::properties::{bool_or, int_opt, opt_text, text_opt, PropertyMap, PropertyView};
use crate::text::same_text;
use crate::utils::Direction;

verus! {

/// A global tile id: an index into the tilesets of a map; zero means no tile.
#[derive(Debug, Clone, Copy, PartialEq, Eq, Structural, Hash)]
pub struct TileIndex(pub usize);

impl TileIndex {
    pub fn new(n: usize) -> (r: TileIndex)
        ensures
            r.0 == n,
    {
        TileIndex(n)
    }

    pub fn index(self) -> (r: usize)
        ensures
            r == self.0,
    {
        self.0
    }
}

/// What a moving platform does at the end of its track.
#[derive(Debug, Clone, Copy, PartialEq, Eq, Structural)]
pub enum Overflow {
    Oscillate,
    Wrap,
    Clamp,
}

/// Which way a conveyor moves what stands on it.
#[derive(Debug, Clone, Copy, PartialEq, Eq, Structural)]
pub enum ConveyorDirection {
    Left,
    Right,
}

/// How a button reacts to being stepped on.
#[derive(Debug, Clone, Copy, PartialEq, Eq, Structural)]
pub enum ButtonType {
    OneShot,
    Toggle,
    Momentary,
    Smart,
}

impl Overflow {
    pub open spec fn from_text(s: Seq<char>) -> Option<Overflow> {
        if s == seq!['o', 's', 'c', 'i', 'l', 'l', 'a', 't', 'e'] {
            Some(Overflow::Oscillate)
        } else if s == seq!['w', 'r', 'a', 'p'] {
            Some(Overflow::Wrap)
        } else if s == seq!['c', 'l', 'a', 'm', 'p'] {
            Some(Overflow::Clamp)
        } else {
            None
        }
    }

    pub fn parse(s: &str) -> (r: Result<Overflow, Error>)
        ensures
            match Overflow::from_text(s@) {
                Some(o) => r == Ok::<Overflow, Error>(o),
                None => r matches Err(Error::InvalidOverflow(t)) && t@ == s@,
            },
    {
        proof {
            reveal_strlit("oscillate");
            assert("oscillate"@ =~= seq!['o', 's', 'c', 'i', 'l', 'l', 'a', 't', 'e']);
            reveal_strlit("wrap");
            assert("wrap"@ =~= seq!['w', 'r', 'a', 'p']);
            reveal_strlit("clamp");
            assert("clamp"@ =~= seq!['c', 'l', 'a', 'm', 'p']);
        }
        if same_text(s, "oscillate") {
            Ok(Overflow::Oscillate)
        } else if same_text(s, "wrap") {
            Ok(Overflow::Wrap)
        } else if same_text(s, "clamp") {
            Ok(Overflow::Clamp)
        } else {
            Err(Error::InvalidOverflow(s.to_owned()))
        }
    }
}

impl ConveyorDirection {
    pub open spec fn from_text(s: Seq<char>) -> Option<ConveyorDirection> {
        if s == seq!['W'] {
            Some(ConveyorDirection::Left)
        } else if s == seq!['E'] {
            Some(ConveyorDirection::Right)
        } else {
            None
        }
    }

    pub fn parse(s: &str) -> (r: Result<ConveyorDirection, Error>)
        ensures
            match ConveyorDirection::from_text(s@) {
                Some(o) => r == Ok::<ConveyorDirection, Error>(o),
                None => r matches Err(Error::InvalidConveyorDirection(t)) && t@ == s@,
            },
    {
        proof {
            reveal_strlit("W");
            assert("W"@ =~= seq!['W']);
            reveal_strlit("E");
            assert("E"@ =~= seq!['E']);
        }
        if same_text(s, "W") {
            Ok(ConveyorDirection::Left)
        } else if same_text(s, "E") {
            Ok(ConveyorDirection::Right)
        } else {
            Err(Error::InvalidConveyorDirection(s.to_owned()))
        }
    }
}

impl ButtonType {
    pub open spec fn from_text(s: Seq<char>) -> Option<ButtonType> {
        if s == seq!['o', 'n', 'e', 's', 'h', 'o', 't'] {
            Some(ButtonType::OneShot)
        } else if s == seq!['t', 'o', 'g', 'g', 'l', 'e'] {
            Some(ButtonType::Toggle)
        } else if s == seq!['m', 'o', 'm', 'e', 'n', 't', 'a', 'r', 'y'] {
            Some(ButtonType::Momentary)
        } else if s == seq!['s', 'm', 'a', 'r', 't'] {
            Some(ButtonType::Smart)
        } else {
            None
        }
    }

    pub fn parse(s: &str) -> (r: Result<ButtonType, Error>)
        ensures
            match ButtonType::from_text(s@) {
                Some(o) => r == Ok::<ButtonType, Error>(o),
                None => r matches Err(Error::InvalidButtonType(t)) && t@ == s@,
            },
    {
        proof {
            reveal_strlit("oneshot");
            assert("oneshot"@ =~= seq!['o', 'n', 'e', 's', 'h', 'o', 't']);
            reveal_strlit("toggle");
            assert("toggle"@ =~= seq!['t', 'o', 'g', 'g', 'l', 'e']);
            reveal_strlit("momentary");
            assert("momentary"@ =~= seq!['m', 'o', 'm', 'e', 'n', 't', 'a', 'r', 'y']);
            reveal_strlit("smart");
            assert("smart"@ =~= seq!['s', 'm', 'a', 'r', 't']);
        }
        if same_text(s, "oneshot") {
            Ok(ButtonType::OneShot)
        } else if same_text(s, "toggle") {
            Ok(ButtonType::Toggle)
        } else if same_text(s, "momentary") {
            Ok(ButtonType::Momentary)
        } else if same_text(s, "smart") {
            Ok(ButtonType::Smart)
        } else {
            Err(Error::InvalidButtonType(s.to_owned()))
        }
    }
}

/// The properties of a map object, read with their types and defaults.
pub struct MapObjectProperties {
    // Types
    pub platform: bool,
    pub bagel: bool,
    pub spring: bool,
    pub button: bool,
    pub door: bool,
    pub star: bool,
    pub spawn: bool,
    // Tiles
    pub solid: bool,
    // Map Areas
    pub preferred_x: Option<Pixels>,
    pub preferred_y: Option<Pixels>,
    // Platforms
    pub distance: i32,
    pub speed: Option<Pixels>,
    pub condition: Option<String>,
    pub overflow: Overflow,
    pub direction: Direction,
    pub convey: Option<ConveyorDirection>,
    // Buttons
    pub button_type: ButtonType,
    pub color: Option<String>,
    // Doors
    pub sprite: Option<String>,
    pub destination: Option<String>,
    pub stars_needed: i32,
    // Spawn points
    pub facing_left: bool,
    pub dx: Pixels,
    pub dy: Pixels,
    // Warp zones
    pub warp: Option<String>,
    // Menu buttons
    pub uibutton: Option<String>,
    pub label: String,
    pub raw: PropertyMap,
}

/// The text property `k`, or `d` where it is absent.
pub open spec fn text_or(m: Map<Seq<char>, PropertyView>, k: Seq<char>, d: Seq<char>) -> Seq<char> {
    match text_opt(m, k) {
        Some(Some(t)) => t,
        _ => d,
    }
}

/// The integer property `k`, or `d` where it is absent.
pub open spec fn int_or(m: Map<Seq<char>, PropertyView>, k: Seq<char>, d: i32) -> i32 {
    match int_opt(m, k) {
        Some(Some(n)) => n,
        _ => d,
    }
}

pub open spec fn pixels_opt(p: Option<Pixels>) -> Option<i32> {
    match p {
        Some(q) => Some(q.0),
        None => None,
    }
}

pub open spec fn convey_of(t: Option<Seq<char>>) -> Option<ConveyorDirection> {
    match t {
        Some(c) => ConveyorDirection::from_text(c),
        None => None,
    }
}

/// The flag properties of an object have boolean values where present.
pub open spec fn flags_valid(m: Map<Seq<char>, PropertyView>) -> bool {
    &&& bool_or(m, "platform"@, false) is Some
    &&& bool_or(m, "bagel"@, false) is Some
    &&& bool_or(m, "spring"@, false) is Some
    &&& bool_or(m, "button"@, false) is Some
    &&& bool_or(m, "door"@, false) is Some
    &&& bool_or(m, "star"@, false) is Some
    &&& bool_or(m, "spawn"@, false) is Some
    &&& bool_or(m, "solid"@, false) is Some
    &&& bool_or(m, "facing_left"@, false) is Some
}

/// The number properties of an object have integer values where present.
pub open spec fn numbers_valid(m: Map<Seq<char>, PropertyView>) -> bool {
    &&& int_opt(m, "preferred_x"@) is Some
    &&& int_opt(m, "preferred_y"@) is Some
    &&& int_opt(m, "speed"@) is Some
    &&& int_opt(m, "distance"@) is Some
    &&& int_opt(m, "stars_needed"@) is Some
    &&& int_opt(m, "dx"@) is Some
    &&& int_opt(m, "dy"@) is Some
}

/// The text properties of an object have text values where present.
pub open spec fn texts_valid(m: Map<Seq<char>, PropertyView>) -> bool {
    &&& text_opt(m, "condition"@) is Some
    &&& text_opt(m, "color"@) is Some
    &&& text_opt(m, "sprite"@) is Some
    &&& text_opt(m, "destination"@) is Some
    &&& text_opt(m, "warp"@) is Some
    &&& text_opt(m, "uibutton"@) is Some
    &&& text_opt(m, "label"@) is Some
}

/// The choice properties of an object are text naming a known choice.
pub open spec fn choices_valid(m: Map<Seq<char>, PropertyView>) -> bool {
    &&& text_opt(m, "overflow"@) is Some
    &&& text_opt(m, "direction"@) is Some
    &&& text_opt(m, "convey"@) is Some
    &&& text_opt(m, "button_type"@) is Some
    &&& Overflow::from_text(text_or(m, "overflow"@, "oscillate"@)) is Some
    &&& Direction::from_letter(text_or(m, "direction"@, "N"@)) is Some
    &&& (text_opt(m, "convey"@) matches Some(Some(c)) ==> ConveyorDirection::from_text(c) is Some)
    &&& ButtonType::from_text(text_or(m, "button_type"@, "toggle"@)) is Some
}

/// Whether a property map is a valid description of a map object: each
/// known property, where present, has its type, and the named choices are
/// among those the game knows.
pub open spec fn object_properties_valid(m: Map<Seq<char>, PropertyView>) -> bool {
    &&& flags_valid(m)
    &&& numbers_valid(m)
    &&& texts_valid(m)
    &&& choices_valid(m)
}

type Flags = (bool, bool, bool, bool, bool, bool, bool, bool, bool);

type Numbers = (Option<Pixels>, Option<Pixels>, Option<Pixels>, i32, i32, Pixels, Pixels);

type Texts = (Option<String>, Option<String>, Option<String>, Option<String>, Option<String>, Option<String>, String);

type Choices = (Overflow, Direction, Option<ConveyorDirection>, ButtonType);

fn read_flags(properties: &PropertyMap) -> (r: Result<Flags, Error>)
    ensures
        r is Ok <==> flags_valid(properties@),
        r matches Ok(f) ==> {
            &&& f.0 == bool_or(properties@, "platform"@, false).unwrap()
            &&& f.1 == bool_or(properties@, "bagel"@, false).unwrap()
            &&& f.2 == bool_or(properties@, "spring"@, false).unwrap()
            &&& f.3 == bool_or(properties@, "button"@, false).unwrap()
            &&& f.4 == bool_or(properties@, "door"@, false).unwrap()
            &&& f.5 == bool_or(properties@, "star"@, false).unwrap()
            &&& f.6 == bool_or(properties@, "spawn"@, false).unwrap()
            &&& f.7 == bool_or(properties@, "solid"@, false).unwrap()
            &&& f.8 == bool_or(properties@, "facing_left"@, false).unwrap()
        },
{
    let platform = properties.bool_or("platform", false)?;
    let bagel = properties.bool_or("bagel", false)?;
    let spring = properties.bool_or("spring", false)?;
    let button = properties.bool_or("button", false)?;
    let door = properties.bool_or("door", false)?;
    let star = properties.bool_or("star", false)?;
    let spawn = properties.bool_or("spawn", false)?;
    let solid = properties.bool_or("solid", false)?;
    let facing_left = properties.bool_or("facing_left", false)?;
    Ok((platform, bagel, spring, button, door, star, spawn, solid, facing_left))
}

fn read_numbers(properties: &PropertyMap) -> (r: Result<Numbers, Error>)
    ensures
        r is Ok <==> numbers_valid(properties@),
        r matches Ok(n) ==> {
            &&& pixels_opt(n.0) == int_opt(properties@, "preferred_x"@).unwrap()
            &&& pixels_opt(n.1) == int_opt(properties@, "preferred_y"@).unwrap()
            &&& pixels_opt(n.2) == int_opt(properties@, "speed"@).unwrap()
            &&& n.3 == int_or(properties@, "distance"@, 0)
            &&& n.4 == int_or(properties@, "stars_needed"@, 0)
            &&& n.5.0 == int_or(properties@, "dx"@, 0)
            &&& n.6.0 == int_or(properties@, "dy"@, 0)
        },
{
    let preferred_x = match properties.int_opt("preferred_x")? {
        Some(n) => Some(Pixels::new(n)),
        None => None,
    };
    let preferred_y = match properties.int_opt("preferred_y")? {
        Some(n) => Some(Pixels::new(n)),
        None => None,
    };
    let speed = match properties.int_opt("speed")? {
        Some(n) => Some(Pixels::new(n)),
        None => None,
    };
    let distance = match properties.int_opt("distance")? {
        Some(n) => n,
        None => 0,
    };
    let stars_needed = match properties.int_opt("stars_needed")? {
        Some(n) => n,
        None => 0,
    };
    let dx = match properties.int_opt("dx")? {
        Some(n) => n,
        None => 0,
    };
    let dy = match properties.int_opt("dy")? {
        Some(n) => n,
        None => 0,
    };
    Ok((preferred_x, preferred_y, speed, distance, stars_needed, Pixels::new(dx), Pixels::new(dy)))
}

fn read_texts(properties: &PropertyMap) -> (r: Result<Texts, Error>)
    ensures
        r is Ok <==> texts_valid(properties@),
        r matches Ok(t) ==> {
            &&& opt_text(t.0) == text_opt(properties@, "condition"@).unwrap()
            &&& opt_text(t.1) == text_opt(properties@, "color"@).unwrap()
            &&& opt_text(t.2) == text_opt(properties@, "sprite"@).unwrap()
            &&& opt_text(t.3) == text_opt(properties@, "destination"@).unwrap()
            &&& opt_text(t.4) == text_opt(properties@, "warp"@).unwrap()
            &&& opt_text(t.5) == text_opt(properties@, "uibutton"@).unwrap()
            &&& t.6@ == text_or(properties@, "label"@, ""@)
        },
{
    let condition = properties.text_opt("condition")?;
    let color = properties.text_opt("color")?;
    let sprite = properties.text_opt("sprite")?;
    let destination = properties.text_opt("destination")?;
    let warp = properties.text_opt("warp")?;
    let uibutton = properties.text_opt("uibutton")?;
    let label = match properties.get_string("label")? {
        Some(t) => t.to_owned(),
        None => "".to_owned(),
    };
    Ok((condition, color, sprite, destination, warp, uibutton, label))
}

fn read_choices(properties: &PropertyMap) -> (r: Result<Choices, Error>)
    ensures
        r is Ok <==> choices_valid(properties@),
        r matches Ok(c) ==> {
            &&& Some(c.0) == Overflow::from_text(text_or(properties@, "overflow"@, "oscillate"@))
            &&& Some(c.1) == Direction::from_letter(text_or(properties@, "direction"@, "N"@))
            &&& c.2 == convey_of(text_opt(properties@, "convey"@).unwrap())
            &&& Some(c.3) == ButtonType::from_text(text_or(properties@, "button_type"@, "toggle"@))
        },
{
    let overflow = match properties.get_string("overflow")? {
        Some(t) => Overflow::parse(t)?,
        None => Overflow::parse("oscillate")?,
    };
    let direction = match properties.get_string("direction")? {
        Some(t) => Direction::parse(t)?,
        None => Direction::parse("N")?,
    };
    let convey = match properties.get_string("convey")? {
        Some(t) => Some(ConveyorDirection::parse(t)?),
        None => None,
    };
    let button_type = match properties.get_string("button_type")? {
        Some(t) => ButtonType::parse(t)?,
        None => ButtonType::parse("toggle")?,
    };
    Ok((overflow, direction, convey, button_type))
}

impl MapObjectProperties {
    /// Reads the object properties from a property map.
    pub fn from_properties(properties: PropertyMap) -> (r: Result<MapObjectProperties, Error>)
        ensures
            r is Ok <==> object_properties_valid(properties@),
            r matches Ok(p) ==> Self::fields_match(p, properties@),
    {
        let f = read_flags(&properties)?;
        let n = read_numbers(&properties)?;
        let t = read_texts(&properties)?;
        let c = read_choices(&properties)?;
        let (platform, bagel, spring, button, door, star, spawn, solid, facing_left) = f;
        let (preferred_x, preferred_y, speed, distance, stars_needed, dx, dy) = n;
        let (condition, color, sprite, destination, warp, uibutton, label) = t;
        let (overflow, direction, convey, button_type) = c;
        Ok(MapObjectProperties {
            platform,
            bagel,
            spring,
            button,
            door,
            star,
            spawn,
            solid,
            preferred_x,
            preferred_y,
            distance,
            speed,
            condition,
            overflow,
            direction,
            convey,
            button_type,
            color,
            sprite,
            destination,
            stars_needed,
            facing_left,
            dx,
            dy,
            warp,
            uibutton,
            label,
            raw: properties,
        })
    }

    /// Each field of `p` is the property it is read from, or its default.
    pub open spec fn fields_match(p: MapObjectProperties, m: Map<Seq<char>, PropertyView>) -> bool {
        &&& p.raw@ == m
        &&& p.platform == bool_or(m, "platform"@, false).unwrap()
        &&& p.bagel == bool_or(m, "bagel"@, false).unwrap()
        &&& p.spring == bool_or(m, "spring"@, false).unwrap()
        &&& p.button == bool_or(m, "button"@, false).unwrap()
        &&& p.door == bool_or(m, "door"@, false).unwrap()
        &&& p.star == bool_or(m, "star"@, false).unwrap()
        &&& p.spawn == bool_or(m, "spawn"@, false).unwrap()
        &&& p.solid == bool_or(m, "solid"@, false).unwrap()
        &&& p.facing_left == bool_or(m, "facing_left"@, false).unwrap()
        &&& pixels_opt(p.preferred_x) == int_opt(m, "preferred_x"@).unwrap()
        &&& pixels_opt(p.preferred_y) == int_opt(m, "preferred_y"@).unwrap()
        &&& pixels_opt(p.speed) == int_opt(m, "speed"@).unwrap()
        &&& p.distance == int_or(m, "distance"@, 0)
        &&& p.stars_needed == int_or(m, "stars_needed"@, 0)
        &&& p.dx.0 == int_or(m, "dx"@, 0)
        &&& p.dy.0 == int_or(m, "dy"@, 0)
        &&& opt_text(p.condition) == text_opt(m, "condition"@).unwrap()
        &&& opt_text(p.color) == text_opt(m, "color"@).unwrap()
        &&& opt_text(p.sprite) == text_opt(m, "sprite"@).unwrap()
        &&& opt_text(p.destination) == text_opt(m, "destination"@).unwrap()
        &&& opt_text(p.warp) == text_opt(m, "warp"@).unwrap()
        &&& opt_text(p.uibutton) == text_opt(m, "uibutton"@).unwrap()
        &&& p.label@ == text_or(m, "label"@, ""@)
        &&& Some(p.overflow) == Overflow::from_text(text_or(m, "overflow"@, "oscillate"@))
        &&& Some(p.direction) == Direction::from_letter(text_or(m, "direction"@, "N"@))
        &&& p.convey == convey_of(text_opt(m, "convey"@).unwrap())
        &&& Some(p.button_type) == ButtonType::from_text(text_or(m, "button_type"@, "toggle"@))
    }
}

/// The largest distance, in subpixels, that a map or anything on it may span
/// (2^28 subpixels, over eight million pixels). Collision and drawing add up
/// to four such quantities with the screen's size, and those sums stay
/// within an `i32`; at twice this bound the view's sums would overflow.
pub const WORLD: i32 = 0x1000_0000;

pub open spec fn in_world(v: int) -> bool {
    -WORLD <= v <= WORLD
}

/// A rectangle whose position and size are within the world's bounds.
pub open spec fn rect_in_world(r: Rect<Subpixels>) -> bool {
    &&& in_world(r.x.0 as int)
    &&& in_world(r.y.0 as int)
    &&& in_world(r.w.0 as int)
    &&& in_world(r.h.0 as int)
}

/// The tilesets of a map, by descending first global id.
pub struct TileSetList {
    pub tilesets: Vec<TileSet>,
}

/// Whether `i` is the tileset a global id belongs to: the first, in
/// descending order of first ids, that starts at or before it.
pub open spec fn is_lookup(sets: Seq<TileSet>, gid: usize, i: int) -> bool {
    &&& 0 <= i < sets.len()
    &&& sets[i].firstgid.0 <= gid
    &&& forall|j: int| 0 <= j < i ==> sets[j].firstgid.0 > gid
}

pub open spec fn lookup_index(sets: Seq<TileSet>, gid: usize) -> int {
    choose|i: int| is_lookup(sets, gid, i)
}

pub proof fn lemma_lookup_unique(sets: Seq<TileSet>, gid: usize, i: int)
    requires
        is_lookup(sets, gid, i),
    ensures
        lookup_index(sets, gid) == i,
{
    let k = lookup_index(sets, gid);
    assert(is_lookup(sets, gid, k));
    if k < i {
        assert(sets[k].firstgid.0 > gid);
    } else if k > i {
        assert(sets[i].firstgid.0 > gid);
    }
}

/// Some tileset starts at or before the global id.
pub open spec fn has_tileset(sets: Seq<TileSet>, gid: usize) -> bool {
    exists|i: int| 0 <= i < sets.len() && sets[i].firstgid.0 <= gid
}

impl TileSetList {
    pub open spec fn sorted(&self) -> bool {
        forall|i: int, j: int|
            0 <= i < j < self.tilesets@.len() ==> self.tilesets@[i].firstgid.0
                >= self.tilesets@[j].firstgid.0
    }

    pub fn new() -> (r: Self)
        ensures
            r.tilesets@.len() == 0,
            r.sorted(),
    {
        TileSetList { tilesets: Vec::new() }
    }

    /// Adds a tileset, keeping the list in descending order of first id.
    pub fn add(&mut self, tileset: TileSet)
        requires
            old(self).sorted(),
        ensures
            final(self).sorted(),
            final(self).tilesets@.len() == old(self).tilesets@.len() + 1,
            exists|k: int|
                0 <= k < final(self).tilesets@.len() && final(self).tilesets@ == old(
                    self,
                ).tilesets@.insert(k, tileset),
    {
        let mut k: usize = 0;
        while k < self.tilesets.len() && self.tilesets[k].firstgid.0 >= tileset.firstgid.0
            invariant
                k <= self.tilesets@.len(),
                self.tilesets@ == old(self).tilesets@,
                forall|j: int| 0 <= j < k ==> self.tilesets@[j].firstgid.0 >= tileset.firstgid.0,
            decreases self.tilesets.len() - k,
        {
            k = k + 1;
        }
        let ghost g = tileset.firstgid.0;
        self.tilesets.insert(k, tileset);
        assert forall|i: int, j: int|
            0 <= i < j < self.tilesets@.len() implies self.tilesets@[i].firstgid.0
            >= self.tilesets@[j].firstgid.0 by {
            let o = old(self).tilesets@;
            if j < k {
                assert(self.tilesets@[i] == o[i] && self.tilesets@[j] == o[j]);
            } else if j == k {
                assert(self.tilesets@[i] == o[i]);
            } else if i == k {
                assert(self.tilesets@[j] == o[j - 1]);
                if (j - 1) > k {
                    assert(o[k as int].firstgid.0 >= o[j - 1].firstgid.0);
                }
            } else if i < k {
                assert(self.tilesets@[i] == o[i] && self.tilesets@[j] == o[j - 1]);
            } else {
                assert(self.tilesets@[i] == o[i - 1] && self.tilesets@[j] == o[j - 1]);
            }
        }
    }

    /// The tileset a global id belongs to, and the id local to it.
    pub fn lookup(&self, tile_gid: TileIndex) -> (r: (&TileSet, LocalTileIndex))
        requires
            has_tileset(self.tilesets@, tile_gid.0),
        ensures
            *r.0 == self.tilesets@[lookup_index(self.tilesets@, tile_gid.0)],
            r.1.0 == tile_gid.0 - r.0.firstgid.0,
            is_lookup(self.tilesets@, tile_gid.0, lookup_index(self.tilesets@, tile_gid.0)),
    {
        let mut i: usize = 0;
        while i < self.tilesets.len()
            invariant
                i <= self.tilesets@.len(),
                has_tileset(self.tilesets@, tile_gid.0),
                forall|j: int| 0 <= j < i ==> self.tilesets@[j].firstgid.0 > tile_gid.0,
            decreases self.tilesets.len() - i,
        {
            if let Some(tile_id) = self.tilesets[i].get_local_tile_index(tile_gid) {
                proof {
                    lemma_lookup_unique(self.tilesets@, tile_gid.0, i as int);
                }
                return (&self.tilesets[i], tile_id);
            }
            i = i + 1;
        }
        proof {
            let j = choose|j: int| 0 <= j < self.tilesets@.len() && self.tilesets@[j].firstgid.0 <= tile_gid.0;
            assert(self.tilesets@[j].firstgid.0 > tile_gid.0);
        }
        (&self.tilesets[0], LocalTileIndex(0))
    }
}

/// A layer of tile ids: `data[row][col]`.
pub struct TileLayer {
    pub id: u32,
    pub name: String,
    pub width: u32,
    pub height: u32,
    pub data: Vec<Vec<TileIndex>>,
    /// Whether this is the layer the player moves in.
    pub player: bool,
}

impl TileLayer {
    pub fn get(&self, row: usize, col: usize) -> (r: Option<&TileIndex>)
        ensures
            (row < self.data@.len() && col < self.data@[row as int]@.len()) ==> r == Some(
                &self.data@[row as int]@[col as int],
            ),
            !(row < self.data@.len() && col < self.data@[row as int]@.len()) ==> r is None,
    {
        if row < self.data.len() && col < self.data[row].len() {
            Some(&self.data[row][col])
        } else {
            None
        }
    }
}

/// An image layer; it only matters for drawing.
pub struct ImageLayer {
    pub source: String,
    /// The loaded image.
    pub surface: Sprite,
}

pub enum Layer {
    Tile(TileLayer),
    Image(ImageLayer),
}

/// Properties of a whole map.
pub struct TileMapProperties {
    pub dark: bool,
    pub gravity: Option<Subpixels>,
}

impl TileMapProperties {
    /// Reads `is_dark` (default false) and `gravity` from a property map.
    pub fn from_properties(properties: &PropertyMap) -> (r: Result<TileMapProperties, Error>)
        ensures
            r is Ok <==> (bool_or(properties@, "is_dark"@, false) is Some && int_opt(properties@, "gravity"@) is Some),
            r matches Ok(p) ==> p.dark == bool_or(properties@, "is_dark"@, false).unwrap()
                && match int_opt(properties@, "gravity"@).unwrap() {
                    Some(g) => p.gravity == Some(Subpixels(g)),
                    None => p.gravity is None,
                },
    {
        let dark = properties.bool_or("is_dark", false)?;
        let gravity = match properties.int_opt("gravity")? {
            Some(g) => Some(Subpixels::new(g)),
            None => None,
        };
        Ok(TileMapProperties { dark, gravity })
    }
}

/// An object placed on a map.
pub struct MapObject {
    pub id: i32,
    pub gid: Option<TileIndex>,
    pub position: Rect<Pixels>,
    pub properties: MapObjectProperties,
}

/// The outcome of trying to move into the tiles of a map: the offset that
/// stops the player, the offset that keeps them on a slope, and the tiles
/// that give the latter.
pub struct MoveResult {
    pub hard_offset: Subpixels,
    pub soft_offset: Subpixels,
    pub tile_ids: SmallIntSet<TileIndex>,
}

/// A move result as the contracts see it.
pub type MoveView = (int, int, Set<TileIndex>);

/// A move result after considering one more tile.
pub open spec fn consider(res: MoveView, gid: TileIndex, hard: int, soft: int, direction: Direction) -> MoveView {
    let hard2 = if direction_order(hard, res.0, direction) == -1 {
        hard
    } else {
        res.0
    };
    let c = direction_order(soft, res.1, direction);
    if c == -1 {
        (hard2, soft, Set::empty().insert(gid))
    } else if c == 0 {
        (hard2, res.1, res.2.insert(gid))
    } else {
        (hard2, res.1, res.2)
    }
}

/// A move result after considering a list of candidate tiles; `None` is a
/// place where no tile is considered.
pub open spec fn fold_moves(
    res: MoveView,
    cands: Seq<Option<(TileIndex, int, int)>>,
    direction: Direction,
) -> MoveView
    decreases cands.len(),
{
    if cands.len() == 0 {
        res
    } else {
        let r = fold_moves(res, cands.drop_last(), direction);
        match cands.last() {
            Some(c) => consider(r, c.0, c.1, c.2, direction),
            None => r,
        }
    }
}

pub proof fn lemma_fold_concat(
    res: MoveView,
    a: Seq<Option<(TileIndex, int, int)>>,
    b: Seq<Option<(TileIndex, int, int)>>,
    direction: Direction,
)
    ensures
        fold_moves(res, a + b, direction) == fold_moves(fold_moves(res, a, direction), b, direction),
    decreases b.len(),
{
    if b.len() == 0 {
        assert(a + b =~= a);
    } else {
        assert((a + b).drop_last() =~= a + b.drop_last());
        lemma_fold_concat(res, a, b.drop_last(), direction);
    }
}

pub open spec fn cand_hard(c: Option<(TileIndex, int, int)>) -> int {
    match c {
        Some(t) => t.1,
        None => 0,
    }
}

pub open spec fn cand_soft(c: Option<(TileIndex, int, int)>) -> int {
    match c {
        Some(t) => t.2,
        None => 0,
    }
}

/// Every candidate tile's hard offset, and zero, is at least the folded hard
/// offset in the direction's order; likewise for soft offsets.
pub proof fn fold_moves_is_least(
    res: MoveView,
    cands: Seq<Option<(TileIndex, int, int)>>,
    direction: Direction,
)
    ensures
        direction_order(fold_moves(res, cands, direction).0, res.0, direction) <= 0,
        direction_order(fold_moves(res, cands, direction).1, res.1, direction) <= 0,
        forall|i: int|
            0 <= i < cands.len() && #[trigger] cands[i] is Some ==> direction_order(
                fold_moves(res, cands, direction).0,
                cand_hard(cands[i]),
                direction,
            ) <= 0 && direction_order(fold_moves(res, cands, direction).1, cand_soft(cands[i]), direction)
                <= 0,
    decreases cands.len(),
{
    if cands.len() > 0 {
        fold_moves_is_least(res, cands.drop_last(), direction);
        assert forall|i: int|
            0 <= i < cands.len() && #[trigger] cands[i] is Some implies direction_order(
                fold_moves(res, cands, direction).0,
                cand_hard(cands[i]),
                direction,
            ) <= 0 && direction_order(fold_moves(res, cands, direction).1, cand_soft(cands[i]), direction)
                <= 0 by {
            if i < cands.len() - 1 {
                assert(cands.drop_last()[i] == cands[i]);
            }
        }
    }
}

impl MoveResult {
    pub open spec fn view(&self) -> MoveView {
        (self.hard_offset.val(), self.soft_offset.val(), self.tile_ids@)
    }

    pub open spec fn wf(&self) -> bool {
        self.tile_ids.distinct()
    }

    pub fn new() -> (r: MoveResult)
        ensures
            r.view() == (0int, 0int, Set::<TileIndex>::empty()),
            r.wf(),
    {
        MoveResult {
            hard_offset: Subpixels::zero(),
            soft_offset: Subpixels::zero(),
            tile_ids: SmallIntSet::new(),
        }
    }

    /// Takes one more tile into account: the hard offset becomes the least of
    /// the two in the direction's order, and the tile ids are those with the
    /// least soft offset.
    pub fn consider_tile(
        &mut self,
        tile_gid: TileIndex,
        hard_offset: Subpixels,
        soft_offset: Subpixels,
        direction: Direction,
    )
        requires
            old(self).wf(),
        ensures
            final(self).wf(),
            final(self).view() == consider(
                old(self).view(),
                tile_gid,
                hard_offset.val(),
                soft_offset.val(),
                direction,
            ),
    {
        match cmp_in_direction(hard_offset, self.hard_offset, direction) {
            Ordering::Less => {
                self.hard_offset = hard_offset;
            },
            _ => {},
        }
        match cmp_in_direction(soft_offset, self.soft_offset, direction) {
            Ordering::Less => {
                let mut ids = SmallIntSet::new();
                ids.insert(tile_gid);
                self.soft_offset = soft_offset;
                self.tile_ids = ids;
            },
            Ordering::Equal => self.tile_ids.insert(tile_gid),
            Ordering::Greater => {},
        }
    }
}

/// What a collision query asks: the player's bounds, the direction they
/// move in, the switches that are on, and whether this is the backwards check.
pub struct Probe {
    pub rect: Rect<Subpixels>,
    pub direction: Direction,
    pub on: Set<Seq<char>>,
    pub backwards: bool,
}

/// The three one-way letters: the side from which a one-way tile blocks.
pub open spec fn oneway_blocks(oneway: Seq<char>, direction: Direction) -> bool {
    match direction {
        Direction::Up => oneway == seq!['S'],
        Direction::Down => oneway == seq!['N'],
        Direction::Right => oneway == seq!['W'],
        Direction::Left => oneway == seq!['E'],
    }
}

/// A one-way tile is a ledge that stops a move only from the side its
/// letter names: "N" stops the player falling onto it from above (moving
/// down) and lets them jump up through it from below; "S" stops a move up,
/// "W" a move right and "E" a move left. A one-way tile never stops a move
/// back out of it, and a tile that is not one-way stops every move.
pub proof fn oneway_tiles_block_one_side(m: TileMap, gid: TileIndex, direction: Direction, backwards: bool)
    ensures
        (m.props_of(gid) matches Some(p) && p.oneway matches Some(o) && o@ == seq!['N']) ==> (m.solid_in_direction(
            gid,
            direction,
            backwards,
        ) <==> (direction == Direction::Down && !backwards)),
        (m.props_of(gid) matches Some(p) && p.oneway matches Some(o) && o@ == seq!['S']) ==> (m.solid_in_direction(
            gid,
            direction,
            backwards,
        ) <==> (direction == Direction::Up && !backwards)),
        (m.props_of(gid) matches Some(p) && p.oneway matches Some(o) && o@ == seq!['W']) ==> (m.solid_in_direction(
            gid,
            direction,
            backwards,
        ) <==> (direction == Direction::Right && !backwards)),
        (m.props_of(gid) matches Some(p) && p.oneway matches Some(o) && o@ == seq!['E']) ==> (m.solid_in_direction(
            gid,
            direction,
            backwards,
        ) <==> (direction == Direction::Left && !backwards)),
        (m.props_of(gid) matches Some(p) && p.oneway is None) ==> m.solid_in_direction(gid, direction, backwards),
        m.props_of(gid) is None ==> m.solid_in_direction(gid, direction, backwards),
{
    let (n, so, w, e) = (seq!['N'], seq!['S'], seq!['W'], seq!['E']);
    assert(n[0] == 'N' && so[0] == 'S' && w[0] == 'W' && e[0] == 'E');
    assert(n != so && n != w && n != e && so != w && so != e && w != e);
}

/// A map of tiles.
pub struct TileMap {
    pub width: i32,
    pub height: i32,
    pub tilewidth: Pixels,
    pub tileheight: Pixels,
    pub backgroundcolor: Color,
    pub tilesets: TileSetList,
    pub layers: Vec<Layer>,
    pub player_layer: Option<i32>,
    pub objects: Vec<MapObject>,
    pub properties: TileMapProperties,
}

impl TileMap {
    pub open spec fn sets(&self) -> Seq<TileSet> {
        self.tilesets.tilesets@
    }

    /// The index of the tileset of a global id.
    pub open spec fn set_of(&self, gid: TileIndex) -> int {
        lookup_index(self.sets(), gid.0)
    }

    pub open spec fn local_of(&self, gid: TileIndex) -> LocalTileIndex {
        LocalTileIndex((gid.0 - self.sets()[self.set_of(gid)].firstgid.0) as usize)
    }

    pub open spec fn props_of(&self, gid: TileIndex) -> Option<TileProperties> {
        self.sets()[self.set_of(gid)].spec_tile_properties(self.local_of(gid))
    }

    pub open spec fn condition_met(&self, gid: TileIndex, on: Set<Seq<char>>) -> bool {
        match self.props_of(gid) {
            None => true,
            Some(p) => match p.condition {
                None => true,
                Some(c) => condition_holds(on, c@),
            },
        }
    }

    pub open spec fn solid_in_direction(&self, gid: TileIndex, direction: Direction, backwards: bool) -> bool {
        match self.props_of(gid) {
            Some(p) => match p.oneway {
                Some(o) => !backwards && oneway_blocks(o@, direction),
                None => true,
            },
            None => true,
        }
    }

    /// The subpixel bounds of the tile at `row`, `col`.
    pub open spec fn tile_bounds(&self, row: int, col: int) -> Rect<Subpixels> {
        Rect {
            x: Subpixels((self.tilewidth.0 * col * SUBPIXELS) as i32),
            y: Subpixels((self.tileheight.0 * row * SUBPIXELS) as i32),
            w: Subpixels((self.tilewidth.0 * SUBPIXELS) as i32),
            h: Subpixels((self.tileheight.0 * SUBPIXELS) as i32),
        }
    }

    /// The solid area of a tile: its bounds less its hitbox margins.
    pub open spec fn hit_bounds(&self, gid: TileIndex, row: int, col: int) -> Rect<Subpixels> {
        let b = self.tile_bounds(row, col);
        match self.props_of(gid) {
            None => b,
            Some(p) => Rect {
                x: Subpixels((b.x.0 + p.hitbox_left.0 * SUBPIXELS) as i32),
                y: Subpixels((b.y.0 + p.hitbox_top.0 * SUBPIXELS) as i32),
                w: Subpixels((b.w.0 - (p.hitbox_left.0 + p.hitbox_right.0) * SUBPIXELS) as i32),
                h: Subpixels((b.h.0 - (p.hitbox_top.0 + p.hitbox_bottom.0) * SUBPIXELS) as i32),
            },
        }
    }

    /// The tile that stands in for `gid` under the switches `on`, and its
    /// local id in the tileset of `gid`: the tile itself when its condition
    /// holds, its alternate otherwise (none when it has no alternate).
    pub open spec fn effective(&self, gid: TileIndex, on: Set<Seq<char>>) -> Option<(TileIndex, LocalTileIndex)> {
        if self.condition_met(gid, on) {
            Some((gid, self.local_of(gid)))
        } else {
            match self.props_of(gid) {
                Some(p) => match p.alternate {
                    Some(alt) => Some((TileIndex((self.sets()[self.set_of(gid)].firstgid.0 + alt.0) as usize), alt)),
                    None => None,
                },
                None => None,
            }
        }
    }

    /// The tile a layer puts at a place.
    pub open spec fn gid_at(&self, li: int, row: int, col: int) -> TileIndex {
        match self.layers@[li] {
            Layer::Tile(l) => l.data@[row]@[col],
            Layer::Image(_) => TileIndex(0),
        }
    }

    /// Whether a layer takes part in collisions: a tile layer that is the
    /// player's layer, or any tile layer of a map without a player layer.
    pub open spec fn collides(&self, li: int) -> bool {
        match self.layers@[li] {
            Layer::Tile(l) => l.player || self.player_layer is None,
            Layer::Image(_) => false,
        }
    }

    /// The tile at `row`, `col` of layer `li`, if it blocks the probe, with
    /// its hard and soft offsets.
    pub open spec fn tile_candidate(&self, p: Probe, row: int, col: int, li: int) -> Option<(TileIndex, int, int)> {
        let gid = self.gid_at(li, row, col);
        if !self.collides(li) || gid.0 == 0 {
            None
        } else {
            match self.effective(gid, p.on) {
                None => None,
                Some(e) => {
                    let g = e.0;
                    let solid = match self.props_of(g) {
                        Some(t) => t.solid,
                        None => true,
                    };
                    if !solid || !self.solid_in_direction(g, p.direction, p.backwards) {
                        None
                    } else {
                        let bounds = self.hit_bounds(g, row, col);
                        let soft = push_back(p.rect, bounds, p.direction);
                        let hard = match self.sets()[self.set_of(gid)].spec_slope(e.1) {
                            Some(sl) => sl.spec_push_back(p.rect, bounds, p.direction),
                            None => soft,
                        };
                        Some((g, hard, soft))
                    }
                },
            }
        }
    }

    pub open spec fn cands_layers(&self, p: Probe, row: int, col: int) -> Seq<Option<(TileIndex, int, int)>> {
        Seq::new(self.layers@.len(), |li: int| self.tile_candidate(p, row, col, li))
    }

    /// The candidates of columns `c1..c` of a row.
    pub open spec fn cands_cols(&self, p: Probe, row: int, c1: int, c: int) -> Seq<Option<(TileIndex, int, int)>>
        decreases c - c1,
    {
        if c <= c1 {
            Seq::empty()
        } else {
            self.cands_cols(p, row, c1, c - 1) + self.cands_layers(p, row, c - 1)
        }
    }

    /// The candidates of rows `r1..r`, columns `c1..=c2`.
    pub open spec fn cands_rows(&self, p: Probe, r1: int, r: int, c1: int, c2: int) -> Seq<Option<(TileIndex, int, int)>>
        decreases r - r1,
    {
        if r <= r1 {
            Seq::empty()
        } else {
            self.cands_rows(p, r1, r - 1, c1, c2) + self.cands_cols(p, r - 1, c1, c2 + 1)
        }
    }

    pub open spec fn right_edge(&self) -> int {
        self.tilewidth.0 * self.width * SUBPIXELS
    }

    pub open spec fn bottom_edge(&self) -> int {
        self.tileheight.0 * self.height * SUBPIXELS
    }

    /// Whether the probe leaves the map on the side it moves toward, and the
    /// offset that brings it back.
    pub open spec fn edge_offset(&self, rect: Rect<Subpixels>, direction: Direction) -> Option<int> {
        match direction {
            Direction::Left => if rect.x.0 < 0 { Some(-rect.x.0) } else { None },
            Direction::Up => if rect.y.0 < 0 { Some(-rect.y.0) } else { None },
            Direction::Right => if rect.spec_right() >= self.right_edge() {
                Some(self.right_edge() - rect.spec_right() - 1)
            } else {
                None
            },
            Direction::Down => if rect.spec_bottom() >= self.bottom_edge() {
                Some(self.bottom_edge() - rect.spec_bottom() - 1)
            } else {
                None
            },
        }
    }

    pub open spec fn first_row(&self, rect: Rect<Subpixels>) -> int {
        let r = trunc_div(rect.spec_top(), self.tileheight.0 * SUBPIXELS);
        if r < 0 { 0 } else { r }
    }

    pub open spec fn last_row(&self, rect: Rect<Subpixels>) -> int {
        let r = trunc_div(rect.spec_bottom(), self.tileheight.0 * SUBPIXELS);
        if r < 0 { 0 } else { r }
    }

    pub open spec fn first_col(&self, rect: Rect<Subpixels>) -> int {
        let c = trunc_div(rect.spec_left(), self.tilewidth.0 * SUBPIXELS);
        if c < 0 { 0 } else { c }
    }

    pub open spec fn last_col(&self, rect: Rect<Subpixels>) -> int {
        let c = trunc_div(rect.spec_right(), self.tilewidth.0 * SUBPIXELS);
        if c < 0 { 0 } else { c }
    }

    /// The result of a collision query against the map's tiles.
    pub open spec fn move_spec(&self, p: Probe) -> MoveView {
        match self.edge_offset(p.rect, p.direction) {
            Some(o) => (o, o, Set::empty()),
            None => fold_moves(
                (0, 0, Set::empty()),
                self.cands_rows(
                    p,
                    self.first_row(p.rect),
                    self.last_row(p.rect) + 1,
                    self.first_col(p.rect),
                    self.last_col(p.rect),
                ),
                p.direction,
            ),
        }
    }

    /// A query that does not leave the map through its moving side scans
    /// only places inside the map (elsewhere the lookup of a tile fails).
    pub open spec fn query_inside(&self, rect: Rect<Subpixels>, direction: Direction) -> bool {
        self.edge_offset(rect, direction) is Some || (self.last_row(rect) < self.height
            && self.last_col(rect) < self.width)
    }

    /// The bounds that keep the map's arithmetic within an `i32` and every
    /// tile lookup within the map and its tilesets.
    pub open spec fn wf(&self) -> bool {
        &&& self.tilesets.sorted()
        &&& 0 < self.tilewidth.0 && 0 < self.tileheight.0
        &&& 0 <= self.width && 0 <= self.height
        &&& self.right_edge() <= WORLD
        &&& self.bottom_edge() <= WORLD
        &&& self.tilewidth.0 * SUBPIXELS <= WORLD
        &&& self.tileheight.0 * SUBPIXELS <= WORLD
        &&& forall|i: int| 0 <= i < self.sets().len() ==> #[trigger] self.sets()[i].firstgid.0 <= 0x4000_0000
        &&& forall|i: int, k: int|
            0 <= i < self.sets().len() && 0 <= k < self.sets()[i].properties@.len()
                ==> #[trigger] tile_props_bounded(self.sets()[i].properties@[k])
        &&& forall|i: int, k: int|
            0 <= i < self.sets().len() && 0 <= k < self.sets()[i].slopes@.len()
                ==> #[trigger] slope_bounded(self.sets()[i].slopes@[k])
        &&& forall|li: int| 0 <= li < self.layers@.len() ==> #[trigger] self.layer_fits(li)
    }

    /// A tile layer has a row for each row of the map and a tile for each
    /// column, and each tile is empty or has a tileset.
    pub open spec fn layer_fits(&self, li: int) -> bool {
        match self.layers@[li] {
            Layer::Tile(l) => {
                &&& l.data@.len() == self.height
                &&& forall|r: int| 0 <= r < self.height ==> (#[trigger] l.data@[r])@.len() == self.width
                &&& forall|r: int, c: int|
                    0 <= r < self.height && 0 <= c < self.width ==> (#[trigger] l.data@[r]@[c]).0 == 0
                        || has_tileset(self.sets(), l.data@[r]@[c].0)
            },
            Layer::Image(_) => true,
        }
    }
}

impl TileMap {
    pub fn get_tile_properties(&self, tile_gid: TileIndex) -> (r: Option<&TileProperties>)
        requires
            has_tileset(self.sets(), tile_gid.0),
        ensures
            match self.props_of(tile_gid) {
                Some(p) => r == Some(&p),
                None => r is None,
            },
            is_lookup(self.sets(), tile_gid.0, self.set_of(tile_gid)),
    {
        let (tileset, tile_id) = self.tilesets.lookup(tile_gid);
        tileset.get_tile_properties(tile_id)
    }

    pub fn get_slope(&self, tile_gid: TileIndex) -> (r: Option<Slope>)
        requires
            has_tileset(self.sets(), tile_gid.0),
        ensures
            r == self.sets()[self.set_of(tile_gid)].spec_slope(self.local_of(tile_gid)),
    {
        let (tileset, tile_id) = self.tilesets.lookup(tile_gid);
        tileset.get_slope(tile_id)
    }

    pub fn is_condition_met(&self, tile_gid: TileIndex, switches: &SwitchState) -> (r: bool)
        requires
            has_tileset(self.sets(), tile_gid.0),
        ensures
            r == self.condition_met(tile_gid, switches@),
    {
        let props = match self.get_tile_properties(tile_gid) {
            Some(p) => p,
            None => {
                return true;
            },
        };
        match &props.condition {
            Some(condition) => switches.is_condition_true(condition.as_str()),
            None => true,
        }
    }

    fn is_solid_in_direction(&self, tile_gid: TileIndex, direction: Direction, is_backwards: bool) -> (r: bool)
        requires
            has_tileset(self.sets(), tile_gid.0),
        ensures
            r == self.solid_in_direction(tile_gid, direction, is_backwards),
    {
        let oneway = match self.get_tile_properties(tile_gid) {
            Some(p) => match &p.oneway {
                Some(o) => o,
                None => {
                    return true;
                },
            },
            None => {
                return true;
            },
        };
        if is_backwards {
            return false;
        }
        proof {
            reveal_strlit("S");
            assert("S"@ =~= seq!['S']);
            reveal_strlit("N");
            assert("N"@ =~= seq!['N']);
            reveal_strlit("W");
            assert("W"@ =~= seq!['W']);
            reveal_strlit("E");
            assert("E"@ =~= seq!['E']);
        }
        match direction {
            Direction::Up => same_text(oneway.as_str(), "S"),
            Direction::Down => same_text(oneway.as_str(), "N"),
            Direction::Right => same_text(oneway.as_str(), "W"),
            Direction::Left => same_text(oneway.as_str(), "E"),
        }
    }

    /// The pixel bounds of the tile at `row`, `col`.
    fn get_rect(&self, row: i32, col: i32) -> (r: Rect<Pixels>)
        requires
            self.wf(),
            0 <= row < self.height,
            0 <= col < self.width,
        ensures
            r.x.0 == self.tilewidth.0 * col,
            r.y.0 == self.tileheight.0 * row,
            r.w == self.tilewidth,
            r.h == self.tileheight,
    {
        proof {
            lemma_mul_bound(self.tilewidth.0 as int, col as int, self.width as int);
            lemma_mul_bound(self.tileheight.0 as int, row as int, self.height as int);
        }
        Rect {
            x: Pixels(self.tilewidth.0 * col),
            y: Pixels(self.tileheight.0 * row),
            w: self.tilewidth,
            h: self.tileheight,
        }
    }
}

impl TileMap {
    /// The tile at `row`, `col` of layer `li`, if it blocks the probe, with
    /// its hard and soft offsets.
    fn check_tile(
        &self,
        player_rect: Rect<Subpixels>,
        direction: Direction,
        switches: &SwitchState,
        is_backwards: bool,
        row: i32,
        col: i32,
        li: usize,
    ) -> (r: Option<(TileIndex, Subpixels, Subpixels)>)
        requires
            self.wf(),
            rect_in_world(player_rect),
            0 <= row < self.height,
            0 <= col < self.width,
            li < self.layers@.len(),
        ensures
            match self.tile_candidate(
                Probe { rect: player_rect, direction, on: switches@, backwards: is_backwards },
                row as int,
                col as int,
                li as int,
            ) {
                None => r is None,
                Some(c) => r matches Some(t) && t.0 == c.0 && t.1.val() == c.1 && t.2.val() == c.2,
            },
    {
        let layer = match &self.layers[li] {
            Layer::Tile(l) => l,
            Layer::Image(_) => {
                return None;
            },
        };
        if !layer.player && self.player_layer.is_some() {
            return None;
        }
        assert(self.layer_fits(li as int));
        let tile_gid0 = layer.data[row as usize][col as usize];
        if tile_gid0.0 == 0 {
            return None;
        }
        let (tileset, local0) = self.tilesets.lookup(tile_gid0);
        let mut tile_gid = tile_gid0;
        let mut tile_id = local0;
        if !self.is_condition_met(tile_gid0, switches) {
            let alt = match self.get_tile_properties(tile_gid0) {
                Some(p) => match p.alternate {
                    Some(a) => a,
                    None => {
                        return None;
                    },
                },
                None => {
                    return None;
                },
            };
            proof {
                let i = self.set_of(tile_gid0);
                let k = self.local_of(tile_gid0).0 as int;
                assert(tile_props_bounded(self.sets()[i].properties@[k]));
                assert(self.sets()[i].firstgid.0 <= 0x4000_0000);
            }
            tile_id = alt;
            tile_gid = tileset.get_global_tile_index(alt);
        }
        assert(has_tileset(self.sets(), tile_gid.0)) by {
            let i = self.set_of(tile_gid0);
            assert(0 <= i < self.sets().len() && self.sets()[i].firstgid.0 <= tile_gid.0);
        }
        let solid = match self.get_tile_properties(tile_gid) {
            Some(p) => p.solid,
            None => true,
        };
        if !solid {
            return None;
        }
        if !self.is_solid_in_direction(tile_gid, direction, is_backwards) {
            return None;
        }
        let tile_rect = self.get_rect(row, col);
        proof {
            lemma_mul_bound(self.tilewidth.0 as int, col as int, self.width as int);
            lemma_mul_bound(self.tileheight.0 as int, row as int, self.height as int);
        }
        let mut tile_bounds: Rect<Subpixels> = tile_rect.as_subpixels();
        match self.get_tile_properties(tile_gid) {
            Some(props) => {
                proof {
                    let i = self.set_of(tile_gid);
                    let k = self.local_of(tile_gid).0 as int;
                    assert(tile_props_bounded(self.sets()[i].properties@[k]));
                }
                tile_bounds = Rect {
                    x: tile_bounds.x + props.hitbox_left.as_subpixels(),
                    y: tile_bounds.y + props.hitbox_top.as_subpixels(),
                    w: tile_bounds.w - (props.hitbox_left + props.hitbox_right).as_subpixels(),
                    h: tile_bounds.h - (props.hitbox_top + props.hitbox_bottom).as_subpixels(),
                };
            },
            None => {},
        }
        assert(tile_bounds == self.hit_bounds(tile_gid, row as int, col as int));
        let soft_offset = try_move_to_bounds(player_rect, tile_bounds, direction);
        let mut hard_offset = soft_offset;
        match tileset.get_slope(tile_id) {
            Some(slope) => {
                proof {
                    let i = self.set_of(tile_gid0);
                    if (tile_id.0 as int) < self.sets()[i].slopes@.len() {
                        assert(slope_bounded(self.sets()[i].slopes@[tile_id.0 as int]));
                    }
                    if tile_bounds.w.0 > 0 {
                        lemma_slant_bound(
                            slope.right_y.0 - slope.left_y.0,
                            slope.surface_along(player_rect, tile_bounds),
                            tile_bounds.w.0 as int,
                        );
                    }
                }
                hard_offset = slope.try_move_to_bounds(player_rect, tile_bounds, direction);
            },
            None => {},
        }
        Some((tile_gid, hard_offset, soft_offset))
    }
}

impl TileMap {
    /// Returns the offsets that move `player_rect` out of the map's solid
    /// tiles when moving in `direction`, or back onto the map when it has
    /// left it on that side.
    pub fn try_move_to(
        &self,
        player_rect: Rect<Subpixels>,
        direction: Direction,
        switches: &SwitchState,
        is_backwards: bool,
    ) -> (r: MoveResult)
        requires
            self.wf(),
            rect_in_world(player_rect),
            self.query_inside(player_rect, direction),
        ensures
            r.wf(),
            r.view() == self.move_spec(Probe { rect: player_rect, direction, on: switches@, backwards: is_backwards }),
    {
        let ghost p = Probe { rect: player_rect, direction, on: switches@, backwards: is_backwards };
        let mut result = MoveResult::new();

        let right_edge = (self.tilewidth * self.width).as_subpixels();
        let bottom_edge = (self.tileheight * self.height).as_subpixels();
        assert(right_edge.0 == self.right_edge() && bottom_edge.0 == self.bottom_edge()) by (nonlinear_arith)
            requires
                right_edge.0 == (self.tilewidth.0 * self.width) * SUBPIXELS,
                bottom_edge.0 == (self.tileheight.0 * self.height) * SUBPIXELS,
        ;

        match direction {
            Direction::Left => {
                if player_rect.x.0 < 0 {
                    result.hard_offset = player_rect.x * -1;
                    result.soft_offset = result.hard_offset;
                    return result;
                }
            },
            Direction::Up => {
                if player_rect.y.0 < 0 {
                    result.hard_offset = player_rect.y * -1;
                    result.soft_offset = result.hard_offset;
                    return result;
                }
            },
            Direction::Right => {
                if player_rect.right().0 >= right_edge.0 {
                    result.hard_offset = (right_edge - player_rect.right()) - Subpixels::new(1);
                    result.soft_offset = result.hard_offset;
                    return result;
                }
            },
            Direction::Down => {
                if player_rect.bottom().0 >= bottom_edge.0 {
                    result.hard_offset = (bottom_edge - player_rect.bottom()) - Subpixels::new(1);
                    result.soft_offset = result.hard_offset;
                    return result;
                }
            },
        }
        assert(self.edge_offset(player_rect, direction) is None);

        let th = self.tileheight.as_subpixels();
        let tw = self.tilewidth.as_subpixels();
        let mut row1 = player_rect.top() / th;
        let mut col1 = player_rect.left() / tw;
        let mut row2 = player_rect.bottom() / th;
        let mut col2 = player_rect.right() / tw;
        if row1 < 0 {
            row1 = 0;
        }
        if col1 < 0 {
            col1 = 0;
        }
        if row2 < 0 {
            row2 = 0;
        }
        if col2 < 0 {
            col2 = 0;
        }
        assert(row1 == self.first_row(player_rect) && row2 == self.last_row(player_rect));
        assert(col1 == self.first_col(player_rect) && col2 == self.last_col(player_rect));

        let n = self.layers.len();
        let ghost init: MoveView = (0int, 0int, Set::<TileIndex>::empty());
        let mut row = row1;
        while row <= row2
            invariant
                self.wf(),
                rect_in_world(player_rect),
                p == (Probe { rect: player_rect, direction, on: switches@, backwards: is_backwards }),
                n == self.layers@.len(),
                0 <= row1 <= row,
                row <= row2 + 1 || row == row1,
                row2 < self.height,
                0 <= col1,
                col2 < self.width,
                result.wf(),
                result.view() == fold_moves(init, self.cands_rows(p, row1 as int, row as int, col1 as int, col2 as int), direction),
            decreases row2 + 1 - row,
        {
            let ghost before_row = result.view();
            let mut col = col1;
            while col <= col2
                invariant
                    self.wf(),
                    rect_in_world(player_rect),
                    p == (Probe { rect: player_rect, direction, on: switches@, backwards: is_backwards }),
                    n == self.layers@.len(),
                    0 <= row < self.height,
                    0 <= col1 <= col,
                    col <= col2 + 1 || col == col1,
                    col2 < self.width,
                    result.wf(),
                    result.view() == fold_moves(before_row, self.cands_cols(p, row as int, col1 as int, col as int), direction),
                decreases col2 + 1 - col,
            {
                let ghost before_col = result.view();
                let mut li: usize = 0;
                while li < n
                    invariant
                        self.wf(),
                        rect_in_world(player_rect),
                        p == (Probe { rect: player_rect, direction, on: switches@, backwards: is_backwards }),
                        n == self.layers@.len(),
                        0 <= row < self.height,
                        0 <= col < self.width,
                        li <= n,
                        result.wf(),
                        result.view() == fold_moves(before_col, self.cands_layers(p, row as int, col as int).take(li as int), direction),
                    decreases n - li,
                {
                    let ghost cl = self.cands_layers(p, row as int, col as int);
                    assert(cl.take(li + 1).drop_last() =~= cl.take(li as int));
                    match self.check_tile(player_rect, direction, switches, is_backwards, row, col, li) {
                        Some(t) => {
                            result.consider_tile(t.0, t.1, t.2, direction);
                        },
                        None => {},
                    }
                    li = li + 1;
                }
                proof {
                    let cl = self.cands_layers(p, row as int, col as int);
                    assert(cl.take(n as int) =~= cl);
                    lemma_fold_concat(before_row, self.cands_cols(p, row as int, col1 as int, col as int), cl, direction);
                }
                col = col + 1;
            }
            proof {
                let cols = self.cands_cols(p, row as int, col1 as int, col2 + 1);
                assert(self.cands_cols(p, row as int, col1 as int, col as int) == cols);
                lemma_fold_concat(init, self.cands_rows(p, row1 as int, row as int, col1 as int, col2 as int), cols, direction);
            }
            row = row + 1;
        }
        proof {
            assert(self.cands_rows(p, row1 as int, row as int, col1 as int, col2 as int)
                == self.cands_rows(p, row1 as int, row2 + 1, col1 as int, col2 as int));
        }
        result
    }
}

/// The preferred view position on one axis that the objects give: the
/// preference of the last object without a tile that the player's bounds
/// touch and that states one, in subpixels.
pub open spec fn preferred_of(objs: Seq<MapObject>, rect: Rect<Subpixels>, vertical: bool) -> Option<int>
    decreases objs.len(),
{
    if objs.len() == 0 {
        None
    } else {
        let o = objs.last();
        let pref = if vertical {
            o.properties.preferred_y
        } else {
            o.properties.preferred_x
        };
        if o.gid is None && rect.spec_intersects(pixel_rect_sub(o.position)) && pref is Some {
            Some(pref.unwrap().0 * SUBPIXELS)
        } else {
            preferred_of(objs.drop_last(), rect, vertical)
        }
    }
}

/// A pixel rectangle in subpixels.
pub open spec fn pixel_rect_sub(r: Rect<Pixels>) -> Rect<Subpixels> {
    Rect {
        x: Subpixels((r.x.0 * SUBPIXELS) as i32),
        y: Subpixels((r.y.0 * SUBPIXELS) as i32),
        w: Subpixels((r.w.0 * SUBPIXELS) as i32),
        h: Subpixels((r.h.0 * SUBPIXELS) as i32),
    }
}

/// An object whose placement and view preferences fit the world's bounds.
pub open spec fn object_fits(o: MapObject) -> bool {
    &&& rect_in_world(pixel_rect_sub(o.position))
    &&& o.position.scalable()
    &&& (o.properties.preferred_x matches Some(x) ==> in_world(x.0 * SUBPIXELS))
    &&& (o.properties.preferred_y matches Some(y) ==> in_world(y.0 * SUBPIXELS))
}

/// Whether an object's area and preferred view can be worked out in an
/// `i32`: its area scales to subpixels and its edges fit, and so do its
/// preferred offsets.
pub open spec fn object_view_fits(o: MapObject) -> bool {
    &&& o.position.scalable()
    &&& pixel_rect_sub(o.position).edges_fit()
    &&& (o.properties.preferred_x matches Some(x) ==> fits_i32(x.0 * SUBPIXELS))
    &&& (o.properties.preferred_y matches Some(y) ==> fits_i32(y.0 * SUBPIXELS))
}

impl TileMap {
    pub open spec fn objects_view_fit(&self) -> bool {
        forall|i: int| 0 <= i < self.objects@.len() ==> #[trigger] object_view_fits(self.objects@[i])
    }

    pub open spec fn objects_fit(&self) -> bool {
        forall|i: int| 0 <= i < self.objects@.len() ==> #[trigger] object_fits(self.objects@[i])
    }

    /// The gravity of the map, or `MAX_GRAVITY` where it sets none.
    pub fn get_gravity(&self) -> (r: Subpixels)
        ensures
            r == (match self.properties.gravity {
                Some(g) => g,
                None => Subpixels(MAX_GRAVITY),
            }),
    {
        match self.properties.gravity {
            Some(g) => g,
            None => Subpixels::new(MAX_GRAVITY),
        }
    }

    /// Where the map's view areas that the player is in want the view.
    pub fn get_preferred_view(&self, player_rect: Rect<Subpixels>) -> (r: (Option<Subpixels>, Option<Subpixels>))
        requires
            self.objects_view_fit(),
            player_rect.edges_fit(),
        ensures
            match preferred_of(self.objects@, player_rect, false) {
                Some(x) => r.0 matches Some(v) && v.0 == x,
                None => r.0 is None,
            },
            match preferred_of(self.objects@, player_rect, true) {
                Some(y) => r.1 matches Some(v) && v.0 == y,
                None => r.1 is None,
            },
    {
        let mut preferred_x: Option<Subpixels> = None;
        let mut preferred_y: Option<Subpixels> = None;
        let mut i: usize = 0;
        while i < self.objects.len()
            invariant
                i <= self.objects@.len(),
                self.objects_view_fit(),
                player_rect.edges_fit(),
                match preferred_of(self.objects@.take(i as int), player_rect, false) {
                    Some(x) => preferred_x matches Some(v) && v.0 == x,
                    None => preferred_x is None,
                },
                match preferred_of(self.objects@.take(i as int), player_rect, true) {
                    Some(y) => preferred_y matches Some(v) && v.0 == y,
                    None => preferred_y is None,
                },
            decreases self.objects.len() - i,
        {
            let obj = &self.objects[i];
            assert(object_view_fits(self.objects@[i as int]));
            assert(self.objects@.take(i + 1).drop_last() =~= self.objects@.take(i as int));
            if obj.gid.is_none() {
                let area = obj.position.as_subpixels();
                if player_rect.intersects(area) {
                    match obj.properties.preferred_x {
                        Some(p_x) => {
                            preferred_x = Some(p_x.as_subpixels());
                        },
                        None => {},
                    }
                    match obj.properties.preferred_y {
                        Some(p_y) => {
                            preferred_y = Some(p_y.as_subpixels());
                        },
                        None => {},
                    }
                }
            }
            i = i + 1;
        }
        assert(self.objects@.take(i as int) =~= self.objects@);
        (preferred_x, preferred_y)
    }
}

/// A slope's rise over part of a tile's width is at most its whole rise.
pub proof fn lemma_slant_bound(rise: int, along: int, w: int)
    requires
        0 <= along <= w,
        w > 0,
    ensures
        -(if rise < 0 { -rise } else { rise }) <= trunc_div(rise * along, w) <= (if rise < 0 { -rise } else { rise }),
{
    if rise >= 0 {
        assert(0 <= rise * along <= rise * w) by (nonlinear_arith)
            requires
                rise >= 0,
                0 <= along <= w,
        ;
        assert((rise * along) / w <= rise) by (nonlinear_arith)
            requires
                rise >= 0,
                0 <= rise * along <= rise * w,
                w > 0,
        ;
        assert((rise * along) / w >= 0) by (nonlinear_arith)
            requires
                0 <= rise * along,
                w > 0,
        ;
    } else {
        assert(0 <= (-rise) * along <= (-rise) * w) by (nonlinear_arith)
            requires
                rise < 0,
                0 <= along <= w,
        ;
        assert(rise * along == -((-rise) * along)) by (nonlinear_arith);
        assert(((-rise) * along) / w <= -rise) by (nonlinear_arith)
            requires
                -rise > 0,
                0 <= (-rise) * along <= (-rise) * w,
                w > 0,
        ;
        assert(((-rise) * along) / w >= 0) by (nonlinear_arith)
            requires
                0 <= (-rise) * along,
                w > 0,
        ;
    }
}

/// `a * b * 32` stays below `a * n * 32` for `b < n`.
pub proof fn lemma_mul_bound(a: int, b: int, n: int)
    requires
        a > 0,
        0 <= b < n,
    ensures
        0 <= a * b <= a * n,
        0 <= a * b * 32 <= a * n * 32,
        a <= a * n,
{
    assert(0 <= a * b <= a * n) by (nonlinear_arith)
        requires
            a > 0,
            0 <= b < n,
    ;
    assert(a <= a * n) by (nonlinear_arith)
        requires
            a > 0,
            0 <= b < n,
    ;
}

/// Hitbox margins and alternate ids small enough for the map's arithmetic.
pub open spec fn tile_props_bounded(p: Option<TileProperties>) -> bool {
    match p {
        Some(t) => {
            &&& -0x1_0000 <= t.hitbox_left.0 <= 0x1_0000
            &&& -0x1_0000 <= t.hitbox_right.0 <= 0x1_0000
            &&& -0x1_0000 <= t.hitbox_top.0 <= 0x1_0000
            &&& -0x1_0000 <= t.hitbox_bottom.0 <= 0x1_0000
            &&& match t.alternate {
                Some(a) => a.0 <= 0x4000_0000,
                None => true,
            }
        },
        None => true,
    }
}

pub open spec fn slope_bounded(s: Option<Slope>) -> bool {
    match s {
        Some(sl) => in_world(sl.left_y.0 as int) && in_world(sl.right_y.0 as int),
        None => true,
    }
}

/// A tile id that has a tileset is looked up in one.
pub proof fn lemma_lookup_exists(sets: Seq<TileSet>, gid: usize)
    requires
        has_tileset(sets, gid),
    ensures
        is_lookup(sets, gid, lookup_index(sets, gid)),
{
    let i = choose|i: int| 0 <= i < sets.len() && sets[i].firstgid.0 <= gid;
    lemma_first_found(sets, gid, i + 1);
}

proof fn lemma_first_found(sets: Seq<TileSet>, gid: usize, n: int)
    requires
        0 < n <= sets.len(),
        exists|i: int| 0 <= i < n && sets[i].firstgid.0 <= gid,
    ensures
        exists|i: int| is_lookup(sets, gid, i),
    decreases n,
{
    if exists|i: int| 0 <= i < n - 1 && sets[i].firstgid.0 <= gid {
        lemma_first_found(sets, gid, n - 1);
    } else {
        assert(is_lookup(sets, gid, n - 1));
    }
}

/// Whether every tile that a list of candidates names has a tileset.
pub open spec fn cands_known(sets: Seq<TileSet>, cands: Seq<Option<(TileIndex, int, int)>>) -> bool {
    forall|i: int| 0 <= i < cands.len() ==> match #[trigger] cands[i] {
        Some(c) => has_tileset(sets, c.0.0),
        None => true,
    }
}

proof fn lemma_fold_known(sets: Seq<TileSet>, res: MoveView, cands: Seq<Option<(TileIndex, int, int)>>, direction: Direction)
    requires
        forall|t: TileIndex| res.2.contains(t) ==> has_tileset(sets, t.0),
        cands_known(sets, cands),
    ensures
        forall|t: TileIndex| fold_moves(res, cands, direction).2.contains(t) ==> has_tileset(sets, t.0),
    decreases cands.len(),
{
    if cands.len() > 0 {
        assert(cands_known(sets, cands.drop_last())) by {
            assert forall|i: int| 0 <= i < cands.drop_last().len() implies match #[trigger] cands.drop_last()[i] {
                Some(c) => has_tileset(sets, c.0.0),
                None => true,
            } by {
                assert(cands.drop_last()[i] == cands[i]);
            }
        }
        lemma_fold_known(sets, res, cands.drop_last(), direction);
        let r = fold_moves(res, cands.drop_last(), direction);
        assert(match cands[cands.len() - 1] {
            Some(c) => has_tileset(sets, c.0.0),
            None => true,
        });
        match cands.last() {
            Some(c) => {
                assert(has_tileset(sets, c.0.0));
                let after = consider(r, c.0, c.1, c.2, direction);
                assert forall|t: TileIndex| after.2.contains(t) implies has_tileset(sets, t.0) by {
                    if t != c.0 {
                        assert(r.2.contains(t));
                    }
                }
            },
            None => {},
        }
    }
}

impl TileMap {
    proof fn lemma_candidate_known(&self, p: Probe, row: int, col: int, li: int)
        requires
            self.wf(),
            0 <= row < self.height,
            0 <= col < self.width,
            0 <= li < self.layers@.len(),
        ensures
            match self.tile_candidate(p, row, col, li) {
                Some(c) => has_tileset(self.sets(), c.0.0),
                None => true,
            },
    {
        assert(self.layer_fits(li));
        let gid = self.gid_at(li, row, col);
        if self.collides(li) && gid.0 != 0 {
            match self.layers@[li] {
                Layer::Tile(l) => {
                    assert(l.data@[row]@.len() == self.width);
                    assert(gid == l.data@[row]@[col]);
                },
                Layer::Image(_) => {},
            }
            assert(has_tileset(self.sets(), gid.0));
            lemma_lookup_exists(self.sets(), gid.0);
            let k = self.set_of(gid);
            assert(0 <= k < self.sets().len());
            if !self.condition_met(gid, p.on) {
                match self.props_of(gid) {
                    Some(pr) => match pr.alternate {
                        Some(alt) => {
                            let local = self.local_of(gid);
                            assert(local.0 < self.sets()[k].properties@.len());
                            assert(tile_props_bounded(self.sets()[k].properties@[local.0 as int]));
                            assert(self.sets()[k].firstgid.0 <= 0x4000_0000);
                            let g = TileIndex((self.sets()[k].firstgid.0 + alt.0) as usize);
                            assert(self.sets()[k].firstgid.0 <= g.0);
                            assert(has_tileset(self.sets(), g.0));
                        },
                        None => {},
                    },
                    None => {},
                }
            }
        }
    }

    proof fn lemma_cols_known(&self, p: Probe, row: int, c1: int, c: int)
        requires
            self.wf(),
            0 <= row < self.height,
            0 <= c1,
            c <= self.width,
        ensures
            cands_known(self.sets(), self.cands_cols(p, row, c1, c)),
        decreases c - c1,
    {
        if c > c1 {
            self.lemma_cols_known(p, row, c1, c - 1);
            let a = self.cands_cols(p, row, c1, c - 1);
            let b = self.cands_layers(p, row, c - 1);
            assert forall|i: int| 0 <= i < (a + b).len() implies match #[trigger] (a + b)[i] {
                Some(x) => has_tileset(self.sets(), x.0.0),
                None => true,
            } by {
                if i < a.len() {
                    assert((a + b)[i] == a[i]);
                } else {
                    assert((a + b)[i] == b[i - a.len()]);
                    self.lemma_candidate_known(p, row, c - 1, i - a.len());
                }
            }
        }
    }

    proof fn lemma_rows_known(&self, p: Probe, r1: int, r: int, c1: int, c2: int)
        requires
            self.wf(),
            0 <= r1,
            r <= self.height,
            0 <= c1,
            c2 < self.width,
        ensures
            cands_known(self.sets(), self.cands_rows(p, r1, r, c1, c2)),
        decreases r - r1,
    {
        if r > r1 {
            self.lemma_rows_known(p, r1, r - 1, c1, c2);
            self.lemma_cols_known(p, r - 1, c1, c2 + 1);
            let a = self.cands_rows(p, r1, r - 1, c1, c2);
            let b = self.cands_cols(p, r - 1, c1, c2 + 1);
            assert forall|i: int| 0 <= i < (a + b).len() implies match #[trigger] (a + b)[i] {
                Some(x) => has_tileset(self.sets(), x.0.0),
                None => true,
            } by {
                if i < a.len() {
                    assert((a + b)[i] == a[i]);
                } else {
                    assert((a + b)[i] == b[i - a.len()]);
                }
            }
        }
    }

    /// Every tile that a collision query reports belongs to a tileset.
    pub proof fn lemma_move_ids_known(&self, p: Probe)
        requires
            self.wf(),
            self.query_inside(p.rect, p.direction),
        ensures
            forall|t: TileIndex| self.move_spec(p).2.contains(t) ==> has_tileset(self.sets(), t.0),
    {
        if self.edge_offset(p.rect, p.direction) is None {
            self.lemma_rows_known(p, self.first_row(p.rect), self.last_row(p.rect) + 1, self.first_col(p.rect), self.last_col(p.rect));
            lemma_fold_known(
                self.sets(),
                (0, 0, Set::empty()),
                self.cands_rows(p, self.first_row(p.rect), self.last_row(p.rect) + 1, self.first_col(p.rect), self.last_col(p.rect)),
                p.direction,
            );
        }
    }
}

} // verus!
