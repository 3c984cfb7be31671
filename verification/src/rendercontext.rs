//! What a frame draws: two layers of sprite and rectangle draws, and the
//! lights of a dark level.
use vstd::prelude::*;

use crate::constants::MAX_LIGHTS;
use crate::geometry::{trunc_div, fits_i32, Pixels, Point, Rect, Subpixels, SUBPIXELS};
use crate::sprite::Sprite;
use crate::utils::Color;

verus! {

/// One draw in a batch.
pub enum SpriteBatchEntry {
    Sprite { sprite: Sprite, source: Rect<Pixels>, destination: Rect<Pixels>, reversed: bool },
    FillRect { destination: Rect<Pixels>, color: Color },
}

/// The draws of one layer, in the order they were asked for, over a clear
/// color.
pub struct SpriteBatch {
    pub clear_color: Color,
    pub entries: Vec<SpriteBatchEntry>,
}

/// A rectangle in subpixels rounded to whole pixels, toward zero.
pub open spec fn to_pixels(r: Rect<Subpixels>) -> Rect<Pixels> {
    Rect {
        x: Pixels(trunc_div(r.x.0 as int, SUBPIXELS as int) as i32),
        y: Pixels(trunc_div(r.y.0 as int, SUBPIXELS as int) as i32),
        w: Pixels(trunc_div(r.w.0 as int, SUBPIXELS as int) as i32),
        h: Pixels(trunc_div(r.h.0 as int, SUBPIXELS as int) as i32),
    }
}

/// The transparent black that a batch starts with.
pub open spec fn transparent() -> Color {
    Color { r: 0, g: 0, b: 0, a: 0 }
}

impl SpriteBatch {
    /// An empty batch over transparent black.
    pub fn new() -> (r: SpriteBatch)
        ensures
            r.clear_color == transparent(),
            r.entries@.len() == 0,
    {
        SpriteBatch { clear_color: Color { r: 0, g: 0, b: 0, a: 0 }, entries: Vec::new() }
    }

    /// Adds a draw of the `src` part of a sprite at `dst`, rounded to pixels.
    pub fn draw(&mut self, sprite: Sprite, dst: Rect<Subpixels>, src: Rect<Pixels>, reversed: bool)
        ensures
            final(self).clear_color == old(self).clear_color,
            final(self).entries@ == old(self).entries@.push(
                SpriteBatchEntry::Sprite { sprite, source: src, destination: to_pixels(dst), reversed },
            ),
    {
        let dst = dst.as_pixels();
        self.entries.push(SpriteBatchEntry::Sprite { sprite, source: src, destination: dst, reversed });
    }

    /// Adds a rectangle filled with `color`, rounded to pixels.
    pub fn fill_rect(&mut self, rect: Rect<Subpixels>, color: Color)
        ensures
            final(self).clear_color == old(self).clear_color,
            final(self).entries@ == old(self).entries@.push(
                SpriteBatchEntry::FillRect { destination: to_pixels(rect), color },
            ),
    {
        let rect = rect.as_pixels();
        self.entries.push(SpriteBatchEntry::FillRect { destination: rect, color });
    }
}

/// A light in a dark level.
#[derive(Debug, Clone, Copy)]
pub struct Light {
    pub position: Point<Subpixels>,
    pub radius: Subpixels,
}

/// The layer a draw goes to: the world, or the display over it.
#[derive(Debug, Clone, Copy, PartialEq, Eq, Structural)]
pub enum RenderLayer {
    Player,
    Hud,
}

/// Everything a frame asks the renderer to draw.
pub struct RenderContext {
    pub player_batch: SpriteBatch,
    pub hud_batch: SpriteBatch,
    pub width: u32,
    pub height: u32,
    pub frame: u64,
    pub lights: Vec<Light>,
    pub is_dark: bool,
}

impl RenderContext {
    /// An empty frame of the given logical size.
    pub fn new(width: u32, height: u32, frame: u64) -> (r: RenderContext)
        ensures
            r.player_batch.clear_color == transparent(),
            r.player_batch.entries@.len() == 0,
            r.hud_batch.clear_color == transparent(),
            r.hud_batch.entries@.len() == 0,
            r.width == width,
            r.height == height,
            r.frame == frame,
            r.lights@.len() == 0,
            !r.is_dark,
    {
        RenderContext {
            player_batch: SpriteBatch::new(),
            hud_batch: SpriteBatch::new(),
            width,
            height,
            frame,
            lights: Vec::new(),
            is_dark: false,
        }
    }

    /// The whole logical screen, in subpixels.
    pub fn logical_area_in_subpixels(&self) -> (r: Rect<Subpixels>)
        requires
            fits_i32(self.width * SUBPIXELS),
            fits_i32(self.height * SUBPIXELS),
        ensures
            r.x.0 == 0,
            r.y.0 == 0,
            r.w.0 == self.width * SUBPIXELS,
            r.h.0 == self.height * SUBPIXELS,
    {
        let w: i32 = self.width as i32;
        let h: i32 = self.height as i32;
        Rect { x: Pixels::zero(), y: Pixels::zero(), w: Pixels::new(w), h: Pixels::new(h) }.as_subpixels()
    }

    /// The batch a layer's draws go to.
    pub open spec fn batch(&self, layer: RenderLayer) -> SpriteBatch {
        match layer {
            RenderLayer::Player => self.player_batch,
            RenderLayer::Hud => self.hud_batch,
        }
    }

    /// Whether `after` is `before` with the batch of `layer` changed to `batch`.
    pub open spec fn with_batch(before: RenderContext, after: RenderContext, layer: RenderLayer, batch: SpriteBatch) -> bool {
        &&& after.batch(layer) == batch
        &&& match layer {
            RenderLayer::Player => after.hud_batch == before.hud_batch,
            RenderLayer::Hud => after.player_batch == before.player_batch,
        }
        &&& after.width == before.width
        &&& after.height == before.height
        &&& after.frame == before.frame
        &&& after.lights == before.lights
        &&& after.is_dark == before.is_dark
    }

    /// Whether `after` is `before` but for the batch of `layer` and the
    /// lights.
    pub open spec fn same_but_layer(before: RenderContext, after: RenderContext, layer: RenderLayer) -> bool {
        &&& match layer {
            RenderLayer::Player => after.hud_batch == before.hud_batch,
            RenderLayer::Hud => after.player_batch == before.player_batch,
        }
        &&& after.batch(layer).clear_color == before.batch(layer).clear_color
        &&& after.width == before.width
        &&& after.height == before.height
        &&& after.frame == before.frame
        &&& after.is_dark == before.is_dark
    }

    /// Draws the `src` part of a sprite at `dst` on a layer.
    pub fn draw(&mut self, sprite: Sprite, layer: RenderLayer, dst: Rect<Subpixels>, src: Rect<Pixels>)
        ensures
            final(self).batch(layer).clear_color == old(self).batch(layer).clear_color,
            final(self).batch(layer).entries@ == old(self).batch(layer).entries@.push(
                SpriteBatchEntry::Sprite { sprite, source: src, destination: to_pixels(dst), reversed: false },
            ),
            RenderContext::with_batch(*old(self), *final(self), layer, final(self).batch(layer)),
    {
        match layer {
            RenderLayer::Player => self.player_batch.draw(sprite, dst, src, false),
            RenderLayer::Hud => self.hud_batch.draw(sprite, dst, src, false),
        }
    }

    /// Draws the `src` part of a sprite at `dst` on a layer, mirrored.
    pub fn draw_reversed(&mut self, sprite: Sprite, layer: RenderLayer, dst: Rect<Subpixels>, src: Rect<Pixels>)
        ensures
            final(self).batch(layer).clear_color == old(self).batch(layer).clear_color,
            final(self).batch(layer).entries@ == old(self).batch(layer).entries@.push(
                SpriteBatchEntry::Sprite { sprite, source: src, destination: to_pixels(dst), reversed: true },
            ),
            RenderContext::with_batch(*old(self), *final(self), layer, final(self).batch(layer)),
    {
        match layer {
            RenderLayer::Player => self.player_batch.draw(sprite, dst, src, true),
            RenderLayer::Hud => self.hud_batch.draw(sprite, dst, src, true),
        }
    }

    /// Fills a rectangle of a layer with a color.
    pub fn fill_rect(&mut self, rect: Rect<Subpixels>, layer: RenderLayer, color: Color)
        ensures
            final(self).batch(layer).clear_color == old(self).batch(layer).clear_color,
            final(self).batch(layer).entries@ == old(self).batch(layer).entries@.push(
                SpriteBatchEntry::FillRect { destination: to_pixels(rect), color },
            ),
            RenderContext::with_batch(*old(self), *final(self), layer, final(self).batch(layer)),
    {
        match layer {
            RenderLayer::Player => self.player_batch.fill_rect(rect, color),
            RenderLayer::Hud => self.hud_batch.fill_rect(rect, color),
        }
    }

    /// Starts a new frame: no draws, the world over opaque black and the
    /// display over transparent black.
    pub fn clear(&mut self)
        ensures
            final(self).player_batch.entries@.len() == 0,
            final(self).hud_batch.entries@.len() == 0,
            final(self).player_batch.clear_color == (Color { r: 0, g: 0, b: 0, a: 255 }),
            final(self).hud_batch.clear_color == transparent(),
            final(self).width == old(self).width,
            final(self).height == old(self).height,
            final(self).frame == old(self).frame,
            final(self).lights == old(self).lights,
            final(self).is_dark == old(self).is_dark,
    {
        self.player_batch.entries.clear();
        self.hud_batch.entries.clear();
        self.player_batch.clear_color = Color { r: 0, g: 0, b: 0, a: 255 };
        self.hud_batch.clear_color = Color { r: 0, g: 0, b: 0, a: 0 };
    }

    /// Adds a light, unless the frame already has as many as the renderer
    /// takes, in which case the light is dropped.
    pub fn add_light(&mut self, position: Point<Subpixels>, radius: Subpixels)
        ensures
            old(self).lights@.len() >= MAX_LIGHTS ==> final(self).lights@ == old(self).lights@,
            old(self).lights@.len() < MAX_LIGHTS ==> final(self).lights@ == old(self).lights@.push(
                Light { position, radius },
            ),
            final(self).player_batch == old(self).player_batch,
            final(self).hud_batch == old(self).hud_batch,
            final(self).width == old(self).width,
            final(self).height == old(self).height,
            final(self).frame == old(self).frame,
            final(self).is_dark == old(self).is_dark,
    {
        if self.lights.len() >= MAX_LIGHTS {
            return;
        }
        self.lights.push(Light { position, radius });
    }
}

/// The lights of a frame after a light is added: dropped if the frame
/// already has as many as the renderer takes.
pub open spec fn with_light(ls: Seq<Light>, light: Light) -> Seq<Light> {
    if ls.len() < MAX_LIGHTS {
        ls.push(light)
    } else {
        ls
    }
}

/// A frame never holds more lights than the renderer takes.
pub proof fn lights_stay_bounded(before: Seq<Light>, after: Seq<Light>, light: Light)
    requires
        before.len() <= MAX_LIGHTS,
        before.len() >= MAX_LIGHTS ==> after == before,
        before.len() < MAX_LIGHTS ==> after == before.push(light),
    ensures
        after.len() <= MAX_LIGHTS,
{
}

} // verus!
