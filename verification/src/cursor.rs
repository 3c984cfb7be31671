//! The mouse cursor drawn over menus.
use vstd::prelude::*;
use vstd::std_specs::convert::FromSpec;

use crate::geometry::{Pixels, Point, Rect, Subpixels};
use crate::inputmanager::InputSnapshot;
use crate::rendercontext::{to_pixels, RenderContext, RenderLayer, SpriteBatchEntry};
use crate::sprite::Sprite;

verus! {

/// The mouse cursor: an 8 by 8 pixel image where the mouse is.
pub struct Cursor {
    pub position: Point<Subpixels>,
    pub sprite: Sprite,
}

/// The part of the cursor's image that is drawn.
pub open spec fn cursor_source() -> Rect<Pixels> {
    Rect { x: Pixels(0), y: Pixels(0), w: Pixels(8), h: Pixels(8) }
}

impl Cursor {
    /// The draw of the cursor.
    pub open spec fn entry(self) -> SpriteBatchEntry {
        SpriteBatchEntry::Sprite {
            sprite: self.sprite,
            source: cursor_source(),
            destination: to_pixels(Rect { x: self.position.x, y: self.position.y, w: Subpixels(256), h: Subpixels(256) }),
            reversed: false,
        }
    }

    /// A cursor at the origin.
    pub fn new(sprite: Sprite) -> (r: Cursor)
        ensures
            r.position.x.0 == 0 && r.position.y.0 == 0,
            r.sprite == sprite,
    {
        Cursor { position: Point::<Subpixels>::zero(), sprite }
    }

    /// Draws the cursor where it is.
    pub fn draw(&self, context: &mut RenderContext, layer: RenderLayer)
        ensures
            final(context).batch(layer).clear_color == old(context).batch(layer).clear_color,
            final(context).batch(layer).entries@ == old(context).batch(layer).entries@.push(
                SpriteBatchEntry::Sprite {
                    sprite: self.sprite,
                    source: cursor_source(),
                    destination: to_pixels(
                        Rect { x: self.position.x, y: self.position.y, w: Subpixels(256), h: Subpixels(256) },
                    ),
                    reversed: false,
                },
            ),
            RenderContext::with_batch(*old(context), *final(context), layer, final(context).batch(layer)),
    {
        let src = Rect { x: Pixels::zero(), y: Pixels::zero(), w: Pixels::new(8), h: Pixels::new(8) };
        let dest = src.as_subpixels() + self.position;
        proof {
            assert(dest.x == self.position.x);
            assert(dest.y == self.position.y);
        }
        context.draw(self.sprite, layer, dest, src);
    }

    /// Moves the cursor to the mouse.
    pub fn update(&mut self, input: &InputSnapshot)
        ensures
            final(self).position == Point::<Subpixels>::from_spec(input.mouse_position),
            final(self).sprite == old(self).sprite,
    {
        self.position = Point::<Subpixels>::from(input.mouse_position);
    }
}

} // verus!
