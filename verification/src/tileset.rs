//! Tilesets: the per-tile properties that collisions read, and sloped tiles.
use vstd::prelude::*;

use crate::geometry::{trunc_div, fits_i32, Coord, Pixels, Rect, Subpixels};
use crate::properties::PropertyMap;
use crate::tilemap::TileIndex;
use crate::sprite::{Animation, Sprite};
use crate::utils::{push_back, try_move_to_bounds, Direction};

verus! {

/// A tile id local to one tileset.
#[derive(Debug, Clone, Copy, PartialEq, Eq, Structural, Hash)]
pub struct LocalTileIndex(pub usize);

/// The properties of one tile of a tileset.
pub struct TileProperties {
    /// Whether the tile blocks movement.
    pub solid: bool,
    /// A one-way tile blocks only movement toward the side it names
    /// (`N`, `S`, `E` or `W`): a tile marked `N` blocks a player moving down.
    pub oneway: Option<String>,
    /// The tile shown, and collided with, while the tile's condition is false.
    pub alternate: Option<LocalTileIndex>,
    /// How far in from each edge of the tile its solid area starts.
    pub hitbox_left: Pixels,
    pub hitbox_right: Pixels,
    pub hitbox_top: Pixels,
    pub hitbox_bottom: Pixels,
    pub slope: bool,
    pub deadly: bool,
    /// The switch command the tile runs when the player steps on it.
    pub switch: Option<String>,
    /// The switch condition under which the tile is itself, not its alternate.
    pub condition: Option<String>,
    pub raw: PropertyMap,
}

/// A sloped tile surface: its height, measured down from the top of the
/// tile, at its left and right edges.
#[derive(Debug, Clone, Copy)]
pub struct Slope {
    pub left_y: Subpixels,
    pub right_y: Subpixels,
}

impl Slope {
    /// The height of the surface above the bottom of `actor`, below which
    /// `actor` moving down is stopped: the surface is the straight line from
    /// `left_y` at the tile's left edge to `right_y` at its right edge, read
    /// at the actor's horizontal centre clamped to the tile.
    pub open spec fn surface_along(self, actor: Rect<Subpixels>, target: Rect<Subpixels>) -> int {
        let center = actor.x.val() + trunc_div(actor.w.val(), 2);
        if center < target.x.val() {
            0
        } else if center > target.x.val() + target.w.val() {
            target.w.val()
        } else {
            center - target.x.val()
        }
    }

    pub open spec fn surface(self, actor: Rect<Subpixels>, target: Rect<Subpixels>) -> int {
        let along = self.surface_along(actor, target);
        target.y.val() + self.left_y.val() + (if target.w.val() > 0 {
            trunc_div((self.right_y.val() - self.left_y.val()) * along, target.w.val())
        } else {
            0
        })
    }

    /// The hard offset for an actor moving into a sloped tile.
    pub open spec fn spec_push_back(self, actor: Rect<Subpixels>, target: Rect<Subpixels>, direction: Direction) -> int {
        match direction {
            Direction::Down => if !actor.spec_intersects(target) || actor.spec_bottom() < self.surface(actor, target) {
                0
            } else {
                self.surface(actor, target) - actor.spec_bottom() - 1
            },
            _ => push_back(actor, target, direction),
        }
    }

    /// Returns the offset that moves `actor` out of the sloped tile `target`.
    pub fn try_move_to_bounds(&self, actor: Rect<Subpixels>, target: Rect<Subpixels>, direction: Direction) -> (r:
        Subpixels)
        requires
            actor.edges_fit(),
            target.edges_fit(),
            fits_i32(self.spec_push_back(actor, target, direction)),
        ensures
            r.0 == self.spec_push_back(actor, target, direction),
    {
        match direction {
            Direction::Down => {
                if !actor.intersects(target) {
                    return Subpixels(0);
                }
                let tx = target.x.0 as i128;
                let tw = target.w.0 as i128;
                let center: i128 = actor.x.0 as i128 + (actor.w.0 as i128) / 2;
                let along: i128 = if center < tx {
                    0
                } else if center > tx + tw {
                    tw
                } else {
                    center - tx
                };
                let rise: i128 = self.right_y.0 as i128 - self.left_y.0 as i128;
                let slant: i128 = if tw > 0 {
                    assert(0 <= along <= tw);
                    assert(-0x1_0000_0000 * 0x8000_0000 <= rise * along <= 0x1_0000_0000 * 0x8000_0000) by (nonlinear_arith)
                        requires
                            -0x1_0000_0000 <= rise <= 0x1_0000_0000,
                            0 <= along <= tw,
                            tw <= 0x8000_0000,
                    ;
                    let q = rise * along / tw;
                    assert(-0x1_0000_0000 * 0x8000_0000 <= q <= 0x1_0000_0000 * 0x8000_0000);
                    q
                } else {
                    0
                };
                let surface: i128 = target.y.0 as i128 + self.left_y.0 as i128 + slant;
                assert(surface == self.surface(actor, target));
                let bottom: i128 = actor.y.0 as i128 + actor.h.0 as i128;
                if bottom < surface {
                    Subpixels(0)
                } else {
                    Subpixels((surface - bottom - 1) as i32)
                }
            },
            _ => try_move_to_bounds(actor, target, direction),
        }
    }
}

/// A tileset: the tiles whose global ids start at `firstgid`.
pub struct TileSet {
    pub firstgid: TileIndex,
    /// The image the tiles are cut from, in rows of `columns` tiles.
    pub sprite: Sprite,
    pub tilewidth: Pixels,
    pub tileheight: Pixels,
    pub columns: u32,
    /// The animation of each local tile id that is animated.
    pub animations: Vec<Option<Animation>>,
    /// The properties of each local tile id that has any.
    pub properties: Vec<Option<TileProperties>>,
    /// The slope of each local tile id that is sloped.
    pub slopes: Vec<Option<Slope>>,
}

impl TileSet {
    /// The local id of a global one, for a global id at or after `firstgid`.
    pub fn get_local_tile_index(&self, tile_gid: TileIndex) -> (r: Option<LocalTileIndex>)
        ensures
            tile_gid.0 >= self.firstgid.0 ==> r == Some(LocalTileIndex((tile_gid.0 - self.firstgid.0) as usize)),
            tile_gid.0 < self.firstgid.0 ==> r is None,
    {
        if tile_gid.0 >= self.firstgid.0 {
            Some(LocalTileIndex(tile_gid.0 - self.firstgid.0))
        } else {
            None
        }
    }

    pub fn get_global_tile_index(&self, tile_id: LocalTileIndex) -> (r: TileIndex)
        requires
            self.firstgid.0 + tile_id.0 <= usize::MAX,
        ensures
            r.0 == self.firstgid.0 + tile_id.0,
    {
        TileIndex(self.firstgid.0 + tile_id.0)
    }

    pub open spec fn spec_tile_properties(&self, tile_id: LocalTileIndex) -> Option<TileProperties> {
        if tile_id.0 < self.properties@.len() {
            self.properties@[tile_id.0 as int]
        } else {
            None
        }
    }

    pub fn get_tile_properties(&self, tile_id: LocalTileIndex) -> (r: Option<&TileProperties>)
        ensures
            match self.spec_tile_properties(tile_id) {
                Some(p) => r == Some(&p),
                None => r is None,
            },
    {
        if tile_id.0 < self.properties.len() {
            match &self.properties[tile_id.0] {
                Some(p) => Some(p),
                None => None,
            }
        } else {
            None
        }
    }

    pub open spec fn spec_slope(&self, tile_id: LocalTileIndex) -> Option<Slope> {
        if tile_id.0 < self.slopes@.len() {
            self.slopes@[tile_id.0 as int]
        } else {
            None
        }
    }

    pub fn get_slope(&self, tile_id: LocalTileIndex) -> (r: Option<Slope>)
        ensures
            r == self.spec_slope(tile_id),
    {
        if tile_id.0 < self.slopes.len() {
            self.slopes[tile_id.0]
        } else {
            None
        }
    }
}

impl TileSet {
    /// Whether the tiles can be drawn: they have a size, the image has
    /// columns, and the animations can be shown.
    pub open spec fn drawable(&self) -> bool {
        &&& 0 < self.tilewidth.0 <= 0x1000
        &&& 0 < self.tileheight.0 <= 0x1000
        &&& self.columns > 0
        &&& forall|i: int| 0 <= i < self.animations@.len() ==> (#[trigger] self.animations@[i] matches Some(a) ==> a.valid())
    }

    /// Where in the image a tile is.
    pub open spec fn source_rect(&self, tile_id: LocalTileIndex) -> Rect<Pixels> {
        Rect {
            x: Pixels(((tile_id.0 % (self.columns as usize)) * self.tilewidth.0) as i32),
            y: Pixels(((tile_id.0 / (self.columns as usize)) * self.tileheight.0) as i32),
            w: self.tilewidth,
            h: self.tileheight,
        }
    }

    pub fn get_source_rect(&self, tile_id: LocalTileIndex) -> (r: Rect<Pixels>)
        requires
            self.drawable(),
            tile_id.0 < 0x1_0000,
        ensures
            r == self.source_rect(tile_id),
            0 <= r.x.0 <= 0x1000_0000,
            0 <= r.y.0 <= 0x1000_0000,
    {
        let c: usize = self.columns as usize;
        let col: usize = tile_id.0 % c;
        let row: usize = tile_id.0 / c;
        proof {
            assert(col <= tile_id.0 && row <= tile_id.0) by (nonlinear_arith)
                requires
                    c > 0,
                    col == tile_id.0 % c,
                    row == tile_id.0 / c;
            assert(col * self.tilewidth.0 <= 0x1_0000 * 0x1000) by (nonlinear_arith)
                requires
                    col < 0x1_0000,
                    0 < self.tilewidth.0 <= 0x1000;
            assert(row * self.tileheight.0 <= 0x1_0000 * 0x1000) by (nonlinear_arith)
                requires
                    row < 0x1_0000,
                    0 < self.tileheight.0 <= 0x1000;
        }
        Rect {
            x: Pixels((col as i32) * self.tilewidth.0),
            y: Pixels((row as i32) * self.tileheight.0),
            w: self.tilewidth,
            h: self.tileheight,
        }
    }

    pub open spec fn spec_animation(&self, tile_id: LocalTileIndex) -> Option<Animation> {
        if tile_id.0 < self.animations@.len() {
            self.animations@[tile_id.0 as int]
        } else {
            None
        }
    }

    pub fn get_animation(&self, tile_id: LocalTileIndex) -> (r: Option<Animation>)
        ensures
            r == self.spec_animation(tile_id),
    {
        if tile_id.0 < self.animations.len() {
            self.animations[tile_id.0]
        } else {
            None
        }
    }
}

} // verus!
