//! Buttons of menus: drawn from nine slices of an image, clicked with the
//! mouse or with the ok action while selected.
use vstd::prelude::*;
use vstd::std_specs::convert::FromSpec;

use crate::geometry::{fits_i32, trunc_div, Pixels, Point, Rect, Subpixels, SUBPIXELS};
use crate::inputmanager::InputSnapshot;
use crate::properties::opt_text;
use crate::rendercontext::{to_pixels, RenderContext, RenderLayer, SpriteBatchEntry};
use crate::soundmanager::{Sound, SoundManager};
use crate::sprite::SpriteSheet;
use crate::tilemap::{rect_in_world, MapObject};

verus! {

/// How a button looks: at rest, under the mouse or selected, or held down
/// by the mouse or by the ok action.
#[derive(Debug, Clone, Copy, PartialEq, Eq, Structural)]
pub enum UiButtonState {
    Normal,
    Hover,
    MouseClick,
    GamepadClick,
}

/// A button of a menu.
pub struct UiButton {
    pub position: Rect<Subpixels>,
    pub sprite: SpriteSheet,
    pub state: UiButtonState,
    pub label: String,
    pub action: Option<String>,
    pub tile_width: Pixels,
    pub tile_height: Pixels,
}

/// The state of a button after a frame, and whether it was clicked: a
/// held button is clicked when it is let go over the mouse; otherwise the
/// ok action on the selected button or the mouse button over it holds it,
/// and being selected or under the mouse lights it up.
pub open spec fn ui_step(state: UiButtonState, selected: bool, inputs: InputSnapshot, mouse_inside: bool) -> (UiButtonState, bool) {
    match state {
        UiButtonState::MouseClick => if inputs.mouse_button_left_down {
            (state, false)
        } else {
            (UiButtonState::Normal, mouse_inside)
        },
        UiButtonState::GamepadClick => if inputs.ok_down {
            (state, false)
        } else {
            (UiButtonState::Normal, mouse_inside)
        },
        _ => if selected && inputs.ok_down {
            (UiButtonState::GamepadClick, false)
        } else if mouse_inside && inputs.mouse_button_left_down {
            (UiButtonState::MouseClick, false)
        } else if selected || mouse_inside {
            (UiButtonState::Hover, false)
        } else {
            (UiButtonState::Normal, false)
        },
    }
}

/// The slice of the nine-slice image for a cell of a button `cols` cells
/// wide and `rows` high, shifted to the set of slices of the button's state.
pub open spec fn slice_index(col: int, cols: int, state: UiButtonState) -> int {
    let index: int = if col == 0 {
        0
    } else if col == cols - 1 {
        2
    } else {
        1
    };
    index + match state {
        UiButtonState::Normal => 0int,
        UiButtonState::Hover => 3int,
        _ => 6int,
    }
}

/// The row of the nine-slice image for row `row` of a button `rows` high.
pub open spec fn slice_layer(row: int, rows: int) -> int {
    if row == 0 {
        0
    } else if row == rows - 1 {
        2
    } else {
        1
    }
}

impl UiButton {
    /// The button that a map object describes, drawn from `sprite` with
    /// cells of the map's tile size.
    pub fn new(object: &MapObject, tile_width: Pixels, tile_height: Pixels, sprite: SpriteSheet) -> (r: UiButton)
        requires
            object.position.scalable(),
        ensures
            r.position.x.0 == object.position.x.0 * SUBPIXELS,
            r.position.y.0 == object.position.y.0 * SUBPIXELS,
            r.position.w.0 == object.position.w.0 * SUBPIXELS,
            r.position.h.0 == object.position.h.0 * SUBPIXELS,
            r.state == UiButtonState::Normal,
            r.label@ == object.properties.label@,
            opt_text(r.action) == opt_text(object.properties.uibutton),
            r.tile_width == tile_width,
            r.tile_height == tile_height,
            r.sprite == sprite,
    {
        let action = match &object.properties.uibutton {
            Some(a) => Some(a.clone()),
            None => None,
        };
        UiButton {
            position: object.position.as_subpixels(),
            sprite,
            state: UiButtonState::Normal,
            label: object.properties.label.clone(),
            action,
            tile_width,
            tile_height,
        }
    }

    /// Follows the inputs for a frame; when the button is clicked, it clicks
    /// and gives its action.
    pub fn update(&mut self, selected: bool, inputs: &InputSnapshot, sounds: &mut SoundManager) -> (r: Option<String>)
        requires
            old(self).position.edges_fit(),
        ensures
            ({
                let mouse = Point::<Subpixels>::from_spec(inputs.mouse_position);
                let (state, clicked) = ui_step(old(self).state, selected, *inputs, old(self).position.spec_contains(mouse));
                &&& final(self).state == state
                &&& clicked ==> final(sounds)@ == old(sounds)@.push(Sound::Click) && opt_text(r) == opt_text(
                    old(self).action,
                )
                &&& !clicked ==> final(sounds)@ == old(sounds)@ && r is None
            }),
            final(self).position == old(self).position,
            final(self).sprite == old(self).sprite,
            final(self).label == old(self).label,
            final(self).action == old(self).action,
            final(self).tile_width == old(self).tile_width,
            final(self).tile_height == old(self).tile_height,
    {
        let mut clicked = false;
        let mouse = Point::<Subpixels>::from(inputs.mouse_position);
        let mouse_inside = self.position.contains(mouse);
        self.state = match self.state {
            UiButtonState::MouseClick => {
                if inputs.mouse_button_left_down {
                    self.state
                } else {
                    if mouse_inside {
                        clicked = true;
                    }
                    UiButtonState::Normal
                }
            },
            UiButtonState::GamepadClick => {
                if inputs.ok_down {
                    self.state
                } else {
                    if mouse_inside {
                        clicked = true;
                    }
                    UiButtonState::Normal
                }
            },
            _ => {
                if selected && inputs.ok_down {
                    UiButtonState::GamepadClick
                } else if mouse_inside && inputs.mouse_button_left_down {
                    UiButtonState::MouseClick
                } else if selected || mouse_inside {
                    UiButtonState::Hover
                } else {
                    UiButtonState::Normal
                }
            },
        };
        if clicked {
            sounds.play(Sound::Click);
            match &self.action {
                Some(a) => Some(a.clone()),
                None => None,
            }
        } else {
            None
        }
    }

    /// The draw of the cell in row `row` and column `col`.
    pub open spec fn cell_draw(self, row: int, col: int) -> SpriteBatchEntry {
        let w = self.tile_width.0 * SUBPIXELS;
        let h = self.tile_height.0 * SUBPIXELS;
        let cols = trunc_div(self.position.w.0 as int, w);
        let rows = trunc_div(self.position.h.0 as int, h);
        SpriteBatchEntry::Sprite {
            sprite: self.sprite.sprite,
            source: self.sprite.frame_rect(slice_index(col, cols, self.state), slice_layer(row, rows)),
            destination: to_pixels(
                Rect {
                    x: Subpixels((self.position.x.0 + w * col) as i32),
                    y: Subpixels((self.position.y.0 + h * row) as i32),
                    w: Subpixels(w as i32),
                    h: Subpixels(h as i32),
                },
            ),
            reversed: false,
        }
    }

    /// The draws of the cells of the button, row by row.
    pub open spec fn cell_draws(self) -> Seq<SpriteBatchEntry> {
        let w = self.tile_width.0 * SUBPIXELS;
        let h = self.tile_height.0 * SUBPIXELS;
        let cols = trunc_div(self.position.w.0 as int, w);
        let rows = trunc_div(self.position.h.0 as int, h);
        Seq::new((rows * cols) as nat, |k: int| self.cell_draw(k / cols, k % cols))
    }

    /// The bounds under which drawing the button stays within an `i32`.
    pub open spec fn draw_fits(self) -> bool {
        &&& 0 < self.tile_width.0 <= 0x1000
        &&& 0 < self.tile_height.0 <= 0x1000
        &&& 0 <= self.position.w.0
        &&& 0 <= self.position.h.0
        &&& rect_in_world(self.position)
        &&& self.sprite.sprite_width.0 * 8 <= 0x7fff_ffff
        &&& self.sprite.sprite_height.0 * 2 <= 0x7fff_ffff
        &&& 0 <= self.sprite.sprite_width.0
        &&& 0 <= self.sprite.sprite_height.0
    }

    /// Draws the button as a grid of cells of the tile size: corners, edges
    /// and middle from the nine slices of its state.
    pub fn draw(&self, context: &mut RenderContext, layer: RenderLayer)
        requires
            self.draw_fits(),
        ensures
            final(context).batch(layer).clear_color == old(context).batch(layer).clear_color,
            final(context).batch(layer).entries@ == old(context).batch(layer).entries@ + self.cell_draws(),
            RenderContext::with_batch(*old(context), *final(context), layer, final(context).batch(layer)),
    {
        let w = self.tile_width.as_subpixels();
        let h = self.tile_height.as_subpixels();
        let cols: i32 = self.position.w.0 / w.0;
        let rows: i32 = self.position.h.0 / h.0;
        let ghost start = old(context).batch(layer).entries@;
        let ghost draws = self.cell_draws();
        proof {
            assert(cols <= self.position.w.0 / w.0 && cols * w.0 <= self.position.w.0) by (nonlinear_arith)
                requires
                    cols == self.position.w.0 / w.0,
                    w.0 > 0,
                    self.position.w.0 >= 0,
            ;
            assert(rows * h.0 <= self.position.h.0) by (nonlinear_arith)
                requires
                    rows == self.position.h.0 / h.0,
                    h.0 > 0,
                    self.position.h.0 >= 0,
            ;
            assert(0 <= cols && 0 <= rows) by (nonlinear_arith)
                requires
                    cols == self.position.w.0 / w.0,
                    rows == self.position.h.0 / h.0,
                    w.0 > 0,
                    h.0 > 0,
                    self.position.w.0 >= 0,
                    self.position.h.0 >= 0,
            ;
        }
        let mut row: i32 = 0;
        while row < rows
            invariant
                0 <= row <= rows,
                0 <= cols,
                cols * w.0 <= self.position.w.0,
                rows * h.0 <= self.position.h.0,
                w.0 == self.tile_width.0 * SUBPIXELS,
                h.0 == self.tile_height.0 * SUBPIXELS,
                cols == trunc_div(self.position.w.0 as int, w.0 as int),
                rows == trunc_div(self.position.h.0 as int, h.0 as int),
                self.draw_fits(),
                draws == self.cell_draws(),
                context.batch(layer).clear_color == old(context).batch(layer).clear_color,
                RenderContext::with_batch(*old(context), *context, layer, context.batch(layer)),
                context.batch(layer).entries@ == start + draws.take(row * cols),
                start == old(context).batch(layer).entries@,
            decreases rows - row,
        {
            let mut col: i32 = 0;
            while col < cols
                invariant
                    0 <= row < rows,
                    0 <= col <= cols,
                    cols * w.0 <= self.position.w.0,
                    rows * h.0 <= self.position.h.0,
                    w.0 == self.tile_width.0 * SUBPIXELS,
                    h.0 == self.tile_height.0 * SUBPIXELS,
                    cols == trunc_div(self.position.w.0 as int, w.0 as int),
                    rows == trunc_div(self.position.h.0 as int, h.0 as int),
                    self.draw_fits(),
                    draws == self.cell_draws(),
                    RenderContext::with_batch(*old(context), *context, layer, context.batch(layer)),
                    context.batch(layer).clear_color == old(context).batch(layer).clear_color,
                    context.batch(layer).entries@ == start + draws.take(row * cols + col),
                    start == old(context).batch(layer).entries@,
                decreases cols - col,
            {
                proof {
                    assert(w.0 * col <= self.position.w.0) by (nonlinear_arith)
                        requires
                            0 <= col < cols,
                            cols * w.0 <= self.position.w.0,
                            w.0 > 0,
                    ;
                    assert(h.0 * row <= self.position.h.0) by (nonlinear_arith)
                        requires
                            0 <= row < rows,
                            rows * h.0 <= self.position.h.0,
                            h.0 > 0,
                    ;
                }
                let x = self.position.x + w * col;
                let y = self.position.y + h * row;
                let dest = Rect { x, y, w, h };
                let index: u32 = if col == 0 {
                    0
                } else if col == cols - 1 {
                    2
                } else {
                    1
                };
                let sprite_layer: u32 = if row == 0 {
                    0
                } else if row == rows - 1 {
                    2
                } else {
                    1
                };
                let index: u32 = index + match self.state {
                    UiButtonState::Normal => 0,
                    UiButtonState::Hover => 3,
                    UiButtonState::GamepadClick | UiButtonState::MouseClick => 6,
                };
                self.sprite.blit(context, layer, dest, index, sprite_layer, false);
                proof {
                    let k: int = row * cols + col;
                    let c: int = cols as int;
                    assert(k / c == row && k % c == col) by (nonlinear_arith)
                        requires
                            k == row * c + col,
                            c == cols,
                            0 <= col < cols,
                            0 <= row,
                    ;
                    assert(k < rows * cols) by (nonlinear_arith)
                        requires
                            k == row * cols + col,
                            0 <= col < cols,
                            0 <= row < rows,
                    ;
                    assert(draws[k] == self.cell_draw(row as int, col as int));
                    assert(draws.take(k + 1) =~= draws.take(k).push(draws[k]));
                }
                col = col + 1;
            }
            proof {
                assert((row + 1) * cols == row * cols + cols) by (nonlinear_arith);
            }
            row = row + 1;
        }
        proof {
            assert(draws.take(rows * cols) =~= draws);
        }
    }

    /// Where the button's label is written, for a font of the given
    /// character size: a character in from its corner, and two pixels
    /// further while the button is held down.
    pub fn label_position(&self, char_width: Subpixels, char_height: Subpixels) -> (r: Point<Subpixels>)
        requires
            rect_in_world(self.position),
            crate::tilemap::in_world(char_width.0 as int),
            crate::tilemap::in_world(char_height.0 as int),
        ensures
            ({
                let pressed = self.state == UiButtonState::MouseClick || self.state == UiButtonState::GamepadClick;
                let extra = if pressed { 64int } else { 0int };
                &&& r.x.0 == self.position.x.0 + char_width.0 + extra
                &&& r.y.0 == self.position.y.0 + char_height.0 + extra
            }),
    {
        let mut label_pos = self.position.top_left();
        label_pos = label_pos + Point::new(char_width, char_height);
        if self.state == UiButtonState::MouseClick || self.state == UiButtonState::GamepadClick {
            label_pos = label_pos + Point::new(Subpixels::from_pixels(2), Subpixels::from_pixels(2));
        }
        label_pos
    }
}

} // verus!
