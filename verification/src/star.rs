//! Stars: collectibles that count toward opening doors.
use vstd::prelude::*;
use vstd::std_specs::convert::FromSpec;

use crate::error::Error;
use crate::geometry::{trunc_div, Point, Rect, Subpixels, SUBPIXELS};
use crate::mapdraw::draw_entry;
use crate::rendercontext::{with_light, Light, RenderContext, RenderLayer};
use crate::tilemap::{in_world, MapObject, TileIndex, TileMap};
use crate::constants::MAX_LIGHTS;

verus! {

/// A star waiting to be picked up.
pub struct Star {
    pub area: Rect<Subpixels>,
    pub tile_gid: TileIndex,
}

/// Whether `s` is the star that object `o` describes: its area, and its
/// tile.
pub open spec fn star_made(s: Star, o: MapObject) -> bool {
    &&& o.gid == Some(s.tile_gid)
    &&& s.area == Rect::<Subpixels>::from_spec(o.position)
}

impl Star {
    /// The star that a map object describes.
    pub fn new(obj: &MapObject) -> (r: Result<Star, Error>)
        ensures
            obj.gid is None ==> r == Err::<Star, Error>(Error::MissingGid),
            obj.gid is Some ==> (r matches Ok(s) && star_made(s, *obj)),
    {
        let tile_gid = match obj.gid {
            Some(g) => g,
            None => {
                return Err(Error::MissingGid);
            },
        };
        Ok(Star { area: Rect::<Subpixels>::from(obj.position), tile_gid })
    }

    /// Whether the player's rectangle touches the star.
    pub fn intersects(&self, player_rect: Rect<Subpixels>) -> (r: bool)
        requires
            self.area.edges_fit(),
            player_rect.edges_fit(),
        ensures
            r == self.area.spec_intersects(player_rect),
    {
        self.area.intersects(player_rect)
    }
}

/// A random `i32`: calls `rand::random::<i32>()`. Nothing is stated of
/// the number it gives.
#[verifier::external_body]
fn random_i32() -> (r: i32) {
    rand::random::<i32>()
}

/// How far a star shakes along one axis in a frame, in pixels: a random
/// number's remainder by 41, less 20, over 20, rounded toward zero.
pub fn star_shake(x: i32) -> (r: i32)
    ensures
        r == trunc_div(x - 41 * trunc_div(x as int, 41) - 20, 20),
        -3 <= r <= 1,
{
    let m: i32 = x % 41;
    assert(m == x - 41 * trunc_div(x as int, 41) && -40 <= m <= 40) by {
        if x >= 0 {
            assert(m == x % 41);
        }
    }
    let t: i32 = m - 20;
    t / 20
}

/// A random shake of a star, between -3 and 1 pixels.
fn star_rand() -> (r: i32)
    ensures
        -3 <= r <= 1,
{
    star_shake(random_i32())
}

impl Star {
    /// Where a star is drawn, shaken by `shake` pixels.
    pub open spec fn place(&self, offset: Point<Subpixels>, shake: (i32, i32)) -> Point<Subpixels> {
        Point {
            x: Subpixels((self.area.x.0 + offset.x.0 + shake.0 * SUBPIXELS) as i32),
            y: Subpixels((self.area.y.0 + offset.y.0 + shake.1 * SUBPIXELS) as i32),
        }
    }

    /// The draw of the star shaken by `shake` pixels.
    pub open spec fn drawn(&self, map: TileMap, offset: Point<Subpixels>, shake: (i32, i32)) -> crate::rendercontext::SpriteBatchEntry {
        let pos = self.place(offset, shake);
        let ts = map.sets()[map.set_of(self.tile_gid)];
        draw_entry((ts.sprite, ts.source_rect(map.local_of(self.tile_gid)), Rect { x: pos.x, y: pos.y, w: self.area.w, h: self.area.h }))
    }

    /// The light of the star shaken by `shake` pixels: a little below and
    /// right of its corner.
    pub open spec fn light_of(&self, offset: Point<Subpixels>, shake: (i32, i32)) -> Light {
        let pos = self.place(offset, shake);
        Light {
            position: Point { x: Subpixels((pos.x.0 + 3 * SUBPIXELS) as i32), y: Subpixels((pos.y.0 + 5 * SUBPIXELS) as i32) },
            radius: Subpixels((12 * SUBPIXELS) as i32),
        }
    }

    /// Whether a star can be drawn: its place and size are within the world,
    /// and its tile can be drawn.
    pub open spec fn drawable(&self, map: TileMap, offset: Point<Subpixels>) -> bool {
        &&& in_world(self.area.x.0 as int)
        &&& in_world(self.area.y.0 as int)
        &&& in_world(offset.x.0 as int)
        &&& in_world(offset.y.0 as int)
        &&& map.tile_drawable(self.tile_gid)
    }

    /// Draws the star shaken by `shake` pixels, and its light a little
    /// below and right of its corner.
    pub fn draw_at(&self, map: &TileMap, context: &mut RenderContext, layer: RenderLayer, offset: Point<Subpixels>, shake: (i32, i32))
        requires
            self.drawable(*map, offset),
            -3 <= shake.0 <= 1,
            -3 <= shake.1 <= 1,
        ensures
            ({
                let pos = self.place(offset, shake);
                let ts = map.sets()[map.set_of(self.tile_gid)];
                let dest = Rect { x: pos.x, y: pos.y, w: self.area.w, h: self.area.h };
                let light = Light {
                    position: Point { x: Subpixels((pos.x.0 + 3 * SUBPIXELS) as i32), y: Subpixels((pos.y.0 + 5 * SUBPIXELS) as i32) },
                    radius: Subpixels((12 * SUBPIXELS) as i32),
                };
                &&& final(context).batch(layer).entries@ == old(context).batch(layer).entries@.push(
                    draw_entry((ts.sprite, ts.source_rect(map.local_of(self.tile_gid)), dest)))
                &&& final(context).batch(layer).clear_color == old(context).batch(layer).clear_color
                &&& old(context).lights@.len() < MAX_LIGHTS ==> final(context).lights@ == old(context).lights@.push(light)
                &&& old(context).lights@.len() >= MAX_LIGHTS ==> final(context).lights@ == old(context).lights@
            }),
            RenderContext::same_but_layer(*old(context), *final(context), layer),
    {
        let x: i32 = self.area.x.0 + offset.x.0 + shake.0 * SUBPIXELS;
        let y: i32 = self.area.y.0 + offset.y.0 + shake.1 * SUBPIXELS;
        let dest = Rect { x: Subpixels(x), y: Subpixels(y), w: self.area.w, h: self.area.h };
        map.draw_tile(context, self.tile_gid, layer, dest);
        let light_position = Point { x: Subpixels(x + 3 * SUBPIXELS), y: Subpixels(y + 5 * SUBPIXELS) };
        context.add_light(light_position, Subpixels(12 * SUBPIXELS));
    }

    /// Draws the star, shaken at random by -3 to 1 pixels along each axis.
    pub fn draw(&self, map: &TileMap, context: &mut RenderContext, layer: RenderLayer, offset: Point<Subpixels>)
        requires
            self.drawable(*map, offset),
        ensures
            exists|sx: i32, sy: i32|
                -3 <= sx <= 1 && -3 <= sy <= 1 && final(context).batch(layer).entries@
                    == old(context).batch(layer).entries@.push(#[trigger] self.drawn(*map, offset, (sx, sy)))
                    && final(context).lights@ == with_light(old(context).lights@, self.light_of(offset, (sx, sy))),
            RenderContext::same_but_layer(*old(context), *final(context), layer),
    {
        let sx = star_rand();
        let sy = star_rand();
        self.draw_at(map, context, layer, offset, (sx, sy));
        assert(context.batch(layer).entries@ == old(context).batch(layer).entries@.push(self.drawn(*map, offset, (sx, sy))));
        assert(context.lights@ == with_light(old(context).lights@, self.light_of(offset, (sx, sy))));
    }
}

} // verus!
