//! Handles to the images that the renderers draw from, and sheets of
//! equally sized frames cut from them.
use vstd::prelude::*;

use crate::geometry::{fits_i32, Pixels, Rect, Subpixels};
use crate::rendercontext::{to_pixels, RenderContext, RenderLayer, SpriteBatchEntry};

verus! {

/// An image that a renderer has loaded: which texture it lives in, and
/// where in that texture.
#[derive(Debug, Clone, Copy)]
pub struct Sprite {
    pub id: usize,
    pub area: Rect<Pixels>,
}

/// An image cut into a grid of frames of one size: columns are the frames
/// of an animation, rows are layers.
#[derive(Debug, Clone, Copy)]
pub struct SpriteSheet {
    pub sprite: Sprite,
    pub sprite_width: Pixels,
    pub sprite_height: Pixels,
}

impl SpriteSheet {
    /// A sheet of frames of the given size.
    pub fn new(sprite: Sprite, sprite_width: Pixels, sprite_height: Pixels) -> (r: SpriteSheet)
        ensures
            r.sprite == sprite,
            r.sprite_width == sprite_width,
            r.sprite_height == sprite_height,
    {
        SpriteSheet { sprite, sprite_width, sprite_height }
    }

    /// The part of the image that holds frame `index` of row `layer`.
    pub open spec fn frame_rect(self, index: int, layer: int) -> Rect<Pixels> {
        Rect {
            x: Pixels((self.sprite_width.0 * index) as i32),
            y: Pixels((self.sprite_height.0 * layer) as i32),
            w: self.sprite_width,
            h: self.sprite_height,
        }
    }

    /// Draws frame `index` of row `layer` at `dest`, mirrored if `reversed`.
    pub fn blit(&self, context: &mut RenderContext, layer: RenderLayer, dest: Rect<Subpixels>, index: u32, sprite_layer: u32, reversed: bool)
        requires
            index <= i32::MAX,
            sprite_layer <= i32::MAX,
            fits_i32(self.sprite_width.0 * index),
            fits_i32(self.sprite_height.0 * sprite_layer),
        ensures
            final(context).batch(layer).clear_color == old(context).batch(layer).clear_color,
            final(context).batch(layer).entries@ == old(context).batch(layer).entries@.push(
                SpriteBatchEntry::Sprite {
                    sprite: self.sprite,
                    source: self.frame_rect(index as int, sprite_layer as int),
                    destination: to_pixels(dest),
                    reversed,
                },
            ),
            RenderContext::with_batch(*old(context), *final(context), layer, final(context).batch(layer)),
    {
        let i: i32 = index as i32;
        let l: i32 = sprite_layer as i32;
        let src = Rect {
            x: Pixels(self.sprite_width.0 * i),
            y: Pixels(self.sprite_height.0 * l),
            w: self.sprite_width,
            h: self.sprite_height,
        };
        if reversed {
            context.draw_reversed(self.sprite, layer, dest, src);
        } else {
            context.draw(self.sprite, layer, dest, src);
        }
    }
}

/// A looping animation: the frames of the first row of a sheet, each shown
/// for `frame_duration` frames of the game.
#[derive(Debug, Clone, Copy)]
pub struct Animation {
    pub sheet: SpriteSheet,
    pub frames: u32,
    pub frame_duration: u32,
}

impl Animation {
    /// Whether the animation can be shown: it has frames, each lasting, and
    /// its frames lie within reach of an `i32`.
    pub open spec fn valid(self) -> bool {
        &&& 0 < self.frames <= 0x1_0000
        &&& 0 < self.frame_duration
        &&& 0 <= self.sheet.sprite_width.0 <= 0x1000
        &&& 0 <= self.sheet.sprite_height.0 <= 0x1000
    }

    /// The frame shown in frame `frame` of the game.
    pub open spec fn frame_at(self, frame: u64) -> int {
        ((frame / (self.frame_duration as u64)) % (self.frames as u64)) as int
    }

    /// The part of the image that frame `frame` of the game shows.
    pub fn current_source(&self, frame: u64) -> (r: Rect<Pixels>)
        requires
            self.valid(),
        ensures
            r == self.sheet.frame_rect(self.frame_at(frame), 0),
    {
        let index: u64 = (frame / (self.frame_duration as u64)) % (self.frames as u64);
        let index: i32 = index as i32;
        proof {
            assert(self.sheet.sprite_width.0 * index <= 0x1000 * 0x1_0000) by (nonlinear_arith)
                requires
                    0 <= self.sheet.sprite_width.0 <= 0x1000,
                    0 <= index < 0x1_0000;
            assert(0 <= self.sheet.sprite_width.0 * index) by (nonlinear_arith)
                requires
                    0 <= self.sheet.sprite_width.0,
                    0 <= index;
        }
        Rect {
            x: Pixels(self.sheet.sprite_width.0 * index),
            y: Pixels(0),
            w: self.sheet.sprite_width,
            h: self.sheet.sprite_height,
        }
    }

    /// Draws the current frame at `dest`, mirrored if `reversed`.
    pub fn blit(&self, context: &mut RenderContext, layer: RenderLayer, dest: Rect<Subpixels>, reversed: bool)
        requires
            self.valid(),
        ensures
            final(context).batch(layer).clear_color == old(context).batch(layer).clear_color,
            final(context).batch(layer).entries@ == old(context).batch(layer).entries@.push(
                SpriteBatchEntry::Sprite {
                    sprite: self.sheet.sprite,
                    source: self.sheet.frame_rect(self.frame_at(old(context).frame), 0),
                    destination: to_pixels(dest),
                    reversed,
                },
            ),
            RenderContext::with_batch(*old(context), *final(context), layer, final(context).batch(layer)),
    {
        let index: u64 = (context.frame / (self.frame_duration as u64)) % (self.frames as u64);
        let index: u32 = index as u32;
        proof {
            assert(self.sheet.sprite_width.0 * index <= 0x1000 * 0x1_0000) by (nonlinear_arith)
                requires
                    0 <= self.sheet.sprite_width.0 <= 0x1000,
                    index < 0x1_0000;
            assert(0 <= self.sheet.sprite_width.0 * index) by (nonlinear_arith)
                requires
                    0 <= self.sheet.sprite_width.0,
                    0 <= index;
        }
        self.sheet.blit(context, layer, dest, index, 0, reversed);
    }
}

} // verus!
