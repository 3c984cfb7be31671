//! Drawing a map: its layers of tiles, cut to the screen, with the tiles
//! whose condition fails shown as their alternates.
use vstd::prelude::*;

use crate::geometry::{fits_i32, trunc_div, Pixels, Point, Rect, Subpixels, SUBPIXELS};
use crate::rendercontext::{to_pixels, RenderContext, RenderLayer, SpriteBatchEntry};
use crate::sprite::{Animation, Sprite};
use crate::switchstate::SwitchState;
use crate::tilemap::{has_tileset, in_world, ImageLayer, Layer, TileIndex, TileLayer, TileMap, WORLD};
use crate::tileset::LocalTileIndex;

verus! {

/// What one draw of a sprite is: the sprite, the part of it, and where.
pub type Draw = (Sprite, Rect<Pixels>, Rect<Subpixels>);

/// The batch entry a draw adds.
pub open spec fn draw_entry(d: Draw) -> SpriteBatchEntry {
    SpriteBatchEntry::Sprite { sprite: d.0, source: d.1, destination: to_pixels(d.2), reversed: false }
}

/// `a / b` rounded up, for `b > 0`.
pub open spec fn ceil_div(a: int, b: int) -> int {
    if a % b == 0 { a / b } else { a / b + 1 }
}

fn ceil_div_i32(a: i32, b: i32) -> (r: i32)
    requires
        b > 0,
        -WORLD <= a <= WORLD,
    ensures
        r == ceil_div(a as int, b as int),
{
    if a >= 0 {
        if a % b == 0 {
            a / b
        } else {
            a / b + 1
        }
    } else {
        let q = a / b;
        proof {
            lemma_ceil_neg(a as int, b as int);
        }
        q
    }
}

proof fn lemma_ceil_neg(a: int, b: int)
    requires
        b > 0,
        a < 0,
    ensures
        ceil_div(a, b) == -((-a) / b),
{
    let t = (-a) / b;
    let m = (-a) % b;
    vstd::arithmetic::div_mod::lemma_fundamental_div_mod(-a, b);
    vstd::arithmetic::div_mod::lemma_mod_bound(-a, b);
    assert(-a == b * t + m);
    if m == 0 {
        assert(a == (-t) * b + 0) by (nonlinear_arith)
            requires
                -a == b * t + m,
                m == 0;
        vstd::arithmetic::div_mod::lemma_fundamental_div_mod_converse(a, b, -t, 0);
    } else {
        assert(a == (-t - 1) * b + (b - m)) by (nonlinear_arith)
            requires
                -a == b * t + m;
        vstd::arithmetic::div_mod::lemma_fundamental_div_mod_converse(a, b, -t - 1, b - m);
    }
}

impl TileMap {
    /// Whether a cell's tile can be drawn: empty, or a tile of a tileset whose
    /// local id, and that of its alternate, is small.
    pub open spec fn cell_ok(&self, gid: TileIndex) -> bool {
        gid.0 != 0 ==> {
            &&& has_tileset(self.sets(), gid.0)
            &&& self.local_of(gid).0 < 0x1_0000
            &&& (self.props_of(gid) matches Some(p) ==> (p.alternate matches Some(a) ==> a.0 < 0x1_0000))
        }
    }

    /// Whether the cell at `row`, `col` of a layer is there and can be drawn.
    pub open spec fn cell_ok_at(&self, l: TileLayer, row: int, col: int) -> bool {
        &&& row < l.data@.len()
        &&& col < l.data@[row]@.len()
        &&& self.cell_ok(l.data@[row]@[col])
    }

    /// Whether every cell of the map in a layer can be drawn.
    pub open spec fn layer_drawable(&self, l: TileLayer) -> bool {
        forall|row: int, col: int| 0 <= row < self.height && 0 <= col < self.width ==> #[trigger] self.cell_ok_at(l, row, col)
    }

    /// Whether the map can be drawn: it is well formed, its tilesets can be
    /// drawn, and so can every tile layer.
    pub open spec fn drawable(&self) -> bool {
        &&& self.wf()
        &&& forall|i: int| 0 <= i < self.sets().len() ==> #[trigger] self.sets()[i].drawable()
        &&& forall|k: int| 0 <= k < self.layers@.len() ==> #[trigger] self.layer_ok(self.layers@[k])
    }

    /// Whether a layer can be drawn: every cell of a tile layer, or the
    /// image of an image layer, whose size in subpixels fits an `i32`.
    pub open spec fn layer_ok(&self, layer: Layer) -> bool {
        match layer {
            Layer::Tile(l) => self.layer_drawable(l),
            Layer::Image(im) => fits_i32(im.surface.area.w.0 * SUBPIXELS) && fits_i32(im.surface.area.h.0 * SUBPIXELS),
        }
    }

    /// The draw of the cell at `row`, `col`: nothing for an empty cell or a
    /// tile whose condition fails and that has no alternate; else the tile
    /// (or its alternate) at its place, cut where it leaves `dest` on the
    /// left, top, right or bottom, and nothing if nothing is left. An
    /// animated tile shows its current frame instead.
    pub open spec fn cell_draw(&self, l: TileLayer, row: int, col: int, dest: Rect<Subpixels>, offset: Point<Subpixels>, on: Set<Seq<char>>, frame: u64) -> Option<Draw> {
        let index = l.data@[row]@[col];
        let ts = self.sets()[self.set_of(index)];
        let tile = if self.condition_met(index, on) {
            Some(self.local_of(index))
        } else {
            match self.props_of(index) {
                Some(p) => p.alternate,
                None => None,
            }
        };
        if index.0 == 0 {
            None
        } else {
            match tile {
                None => None,
                Some(t) => {
                    let src = ts.source_rect(t);
                    let tw = self.tilewidth.0 * SUBPIXELS;
                    let th = self.tileheight.0 * SUBPIXELS;
                    let px = tw * col + dest.x.0 + offset.x.0;
                    let py = th * row + dest.y.0 + offset.y.0;
                    let ex = if px < dest.x.0 { trunc_div(dest.x.0 - px, SUBPIXELS as int) } else { 0 };
                    let ey = if py < dest.y.0 { trunc_div(dest.y.0 - py, SUBPIXELS as int) } else { 0 };
                    let px2 = if px < dest.x.0 { dest.x.0 as int } else { px };
                    let py2 = if py < dest.y.0 { dest.y.0 as int } else { py };
                    let sx = src.x.0 + ex;
                    let sy = src.y.0 + ey;
                    let sw = src.w.0 - ex;
                    let sh = src.h.0 - ey;
                    let sw2 = if px2 + tw >= dest.x.0 + dest.w.0 { sw - trunc_div(px2 + tw - (dest.x.0 + dest.w.0), SUBPIXELS as int) } else { sw };
                    let sh2 = if py2 + th >= dest.y.0 + dest.h.0 { sh - trunc_div(py2 + th - (dest.y.0 + dest.h.0), SUBPIXELS as int) } else { sh };
                    if sw <= 0 || sh <= 0 || sw2 <= 0 || sh2 <= 0 {
                        None
                    } else {
                        let d = Rect {
                            x: Subpixels(px2 as i32),
                            y: Subpixels(py2 as i32),
                            w: Subpixels((sw2 * SUBPIXELS) as i32),
                            h: Subpixels((sh2 * SUBPIXELS) as i32),
                        };
                        match ts.spec_animation(self.local_of(index)) {
                            Some(a) => Some((a.sheet.sprite, a.sheet.frame_rect(a.frame_at(frame), 0), d)),
                            None => Some((ts.sprite, Rect { x: Pixels(sx as i32), y: Pixels(sy as i32), w: Pixels(sw2 as i32), h: Pixels(sh2 as i32) }, d)),
                        }
                    }
                },
            }
        }
    }

    /// The draws of the cells of `row` from column `c0` up to `c1`.
    pub open spec fn row_draws(&self, l: TileLayer, row: int, c0: int, c1: int, dest: Rect<Subpixels>, offset: Point<Subpixels>, on: Set<Seq<char>>, frame: u64) -> Seq<SpriteBatchEntry>
        decreases c1 - c0,
    {
        if c1 <= c0 {
            Seq::empty()
        } else {
            let rest = self.row_draws(l, row, c0, c1 - 1, dest, offset, on, frame);
            match self.cell_draw(l, row, c1 - 1, dest, offset, on, frame) {
                Some(d) => rest.push(draw_entry(d)),
                None => rest,
            }
        }
    }

    /// The draws of the rows from `r0` up to `r1`, each from `c0` up to `c1`.
    pub open spec fn grid_draws(&self, l: TileLayer, r0: int, r1: int, c0: int, c1: int, dest: Rect<Subpixels>, offset: Point<Subpixels>, on: Set<Seq<char>>, frame: u64) -> Seq<SpriteBatchEntry>
        decreases r1 - r0,
    {
        if r1 <= r0 {
            Seq::empty()
        } else {
            self.grid_draws(l, r0, r1 - 1, c0, c1, dest, offset, on, frame) + self.row_draws(l, r1 - 1, c0, c1, dest, offset, on, frame)
        }
    }

    /// The first row (or column) that can show on screen, and the end of
    /// those that do: from the first one the offset leaves on screen, as many
    /// as the screen holds and one more, but none past the map.
    pub open spec fn visible_range(offset: int, size: int, extent: int, count: int) -> (int, int) {
        let start = if -trunc_div(offset, size) > 0 { -trunc_div(offset, size) } else { 0 };
        let end = if start + ceil_div(extent, size) + 1 < count { start + ceil_div(extent, size) + 1 } else { count };
        (start, end)
    }

    /// The draws of a tile layer.
    pub open spec fn tile_layer_draws(&self, l: TileLayer, dest: Rect<Subpixels>, offset: Point<Subpixels>, on: Set<Seq<char>>, frame: u64) -> Seq<SpriteBatchEntry> {
        let (r0, r1) = Self::visible_range(offset.y.0 as int, self.tileheight.0 * SUBPIXELS, dest.h.0 as int, self.height as int);
        let (c0, c1) = Self::visible_range(offset.x.0 as int, self.tilewidth.0 * SUBPIXELS, dest.w.0 as int, self.width as int);
        self.grid_draws(l, r0, r1, c0, c1, dest, offset, on, frame)
    }
}

/// Whether a screen rectangle and an offset are within the world's bounds.
pub open spec fn view_in_world(dest: Rect<Subpixels>, offset: Point<Subpixels>) -> bool {
    &&& in_world(dest.x.0 as int)
    &&& in_world(dest.y.0 as int)
    &&& 0 <= dest.w.0 <= WORLD
    &&& 0 <= dest.h.0 <= WORLD
    &&& in_world(offset.x.0 as int)
    &&& in_world(offset.y.0 as int)
}

impl TileMap {
    /// The draw of one cell, as `cell_draw` says.
    fn draw_cell(&self, l: &TileLayer, row: i32, col: i32, dest: Rect<Subpixels>, offset: Point<Subpixels>, switches: &SwitchState, frame: u64) -> (r: Option<Draw>)
        requires
            self.drawable(),
            self.layer_drawable(*l),
            0 <= row < self.height,
            0 <= col < self.width,
            view_in_world(dest, offset),
        ensures
            r == self.cell_draw(*l, row as int, col as int, dest, offset, switches@, frame),
    {
        proof {
            assert(self.cell_ok_at(*l, row as int, col as int));
        }
        let index = l.data[row as usize][col as usize];
        if index.0 == 0 {
            return None;
        }
        let (tileset, tile_id) = self.tilesets.lookup(index);
        proof {
            assert(self.sets()[self.set_of(index)].drawable());
        }
        let tile = if self.is_condition_met(index, switches) {
            tile_id
        } else {
            match self.get_tile_properties(index) {
                Some(p) => match p.alternate {
                    Some(a) => a,
                    None => {
                        return None;
                    },
                },
                None => {
                    return None;
                },
            }
        };
        let source = tileset.get_source_rect(tile);
        let tw: i32 = self.tilewidth.0 * SUBPIXELS;
        let th: i32 = self.tileheight.0 * SUBPIXELS;
        proof {
            assert(tw * col <= tw * self.width) by (nonlinear_arith)
                requires
                    tw > 0,
                    col < self.width;
            assert(th * row <= th * self.height) by (nonlinear_arith)
                requires
                    th > 0,
                    row < self.height;
            assert(tw * col >= 0) by (nonlinear_arith)
                requires
                    tw > 0,
                    col >= 0;
            assert(th * row >= 0) by (nonlinear_arith)
                requires
                    th > 0,
                    row >= 0;
            assert(tw * self.width == self.right_edge()) by (nonlinear_arith)
                requires
                    tw == self.tilewidth.0 * SUBPIXELS;
            assert(th * self.height == self.bottom_edge()) by (nonlinear_arith)
                requires
                    th == self.tileheight.0 * SUBPIXELS;
        }
        let mut pos_x: i32 = tw * col + dest.x.0 + offset.x.0;
        let mut pos_y: i32 = th * row + dest.y.0 + offset.y.0;
        let mut sx: i32 = source.x.0;
        let mut sy: i32 = source.y.0;
        let mut sw: i32 = source.w.0;
        let mut sh: i32 = source.h.0;
        if pos_x < dest.x.0 {
            let extra = (dest.x.0 - pos_x) / SUBPIXELS;
            sx = sx + extra;
            sw = sw - extra;
            pos_x = dest.x.0;
        }
        if pos_y < dest.y.0 {
            let extra = (dest.y.0 - pos_y) / SUBPIXELS;
            sy = sy + extra;
            sh = sh - extra;
            pos_y = dest.y.0;
        }
        if sw <= 0 || sh <= 0 {
            return None;
        }
        let pos_right = pos_x + tw;
        if pos_right >= dest.x.0 + dest.w.0 {
            sw = sw - (pos_right - (dest.x.0 + dest.w.0)) / SUBPIXELS;
        }
        if sw <= 0 {
            return None;
        }
        let pos_bottom = pos_y + th;
        if pos_bottom >= dest.y.0 + dest.h.0 {
            sh = sh - (pos_bottom - (dest.y.0 + dest.h.0)) / SUBPIXELS;
        }
        if sh <= 0 {
            return None;
        }
        let d = Rect { x: Subpixels(pos_x), y: Subpixels(pos_y), w: Subpixels(sw * SUBPIXELS), h: Subpixels(sh * SUBPIXELS) };
        match tileset.get_animation(tile_id) {
            Some(a) => {
                proof {
                    let ts = *tileset;
                    assert(0 <= tile_id.0 < ts.animations@.len());
                    assert(ts.animations@[tile_id.0 as int] matches Some(aa) ==> aa.valid());
                }
                Some((a.sheet.sprite, a.current_source(frame), d))
            },
            None => Some((tileset.sprite, Rect { x: Pixels(sx), y: Pixels(sy), w: Pixels(sw), h: Pixels(sh) }, d)),
        }
    }
}

/// The draw of an image layer: the whole image, at the offset.
pub open spec fn image_draw(im: ImageLayer, offset: Point<Subpixels>) -> Draw {
    (
        im.surface,
        Rect { x: Pixels(0), y: Pixels(0), w: im.surface.area.w, h: im.surface.area.h },
        Rect {
            x: offset.x,
            y: offset.y,
            w: Subpixels((im.surface.area.w.0 * SUBPIXELS) as i32),
            h: Subpixels((im.surface.area.h.0 * SUBPIXELS) as i32),
        },
    )
}

/// Whether a layer is the player's tile layer.
pub open spec fn is_player_layer(layer: Layer) -> bool {
    layer matches Layer::Tile(l) && l.player
}

/// The index of the first player layer from `k` on, or the count of layers.
pub open spec fn first_player_layer(ls: Seq<Layer>, k: int) -> int
    decreases ls.len() - k,
{
    if k >= ls.len() || is_player_layer(ls[k]) {
        k
    } else {
        first_player_layer(ls, k + 1)
    }
}

impl TileMap {
    /// The draws of one layer.
    pub open spec fn layer_draws(&self, layer: Layer, dest: Rect<Subpixels>, offset: Point<Subpixels>, on: Set<Seq<char>>, frame: u64) -> Seq<SpriteBatchEntry> {
        match layer {
            Layer::Image(im) => seq![draw_entry(image_draw(im, offset))],
            Layer::Tile(l) => self.tile_layer_draws(l, dest, offset, on, frame),
        }
    }

    /// The draws of the layers from `k0` up to `k1`.
    pub open spec fn layers_draws(&self, k0: int, k1: int, dest: Rect<Subpixels>, offset: Point<Subpixels>, on: Set<Seq<char>>, frame: u64) -> Seq<SpriteBatchEntry>
        decreases k1 - k0,
    {
        if k1 <= k0 {
            Seq::empty()
        } else {
            self.layers_draws(k0, k1 - 1, dest, offset, on, frame) + self.layer_draws(self.layers@[k1 - 1], dest, offset, on, frame)
        }
    }

    /// The draws of the background: the background colour over `dest`, then
    /// the layers up to and including the first player layer.
    pub open spec fn background_draws(&self, dest: Rect<Subpixels>, offset: Point<Subpixels>, on: Set<Seq<char>>, frame: u64) -> Seq<SpriteBatchEntry> {
        let p = first_player_layer(self.layers@, 0);
        let last = if p < self.layers@.len() { p + 1 } else { p };
        seq![SpriteBatchEntry::FillRect { destination: to_pixels(dest), color: self.backgroundcolor }]
            + self.layers_draws(0, last, dest, offset, on, frame)
    }

    /// The draws of the foreground: the layers after the first player
    /// layer, if the map has a player layer.
    pub open spec fn foreground_draws(&self, dest: Rect<Subpixels>, offset: Point<Subpixels>, on: Set<Seq<char>>, frame: u64) -> Seq<SpriteBatchEntry> {
        let p = first_player_layer(self.layers@, 0);
        if self.player_layer is Some && p < self.layers@.len() {
            self.layers_draws(p + 1, self.layers@.len() as int, dest, offset, on, frame)
        } else {
            Seq::empty()
        }
    }

    /// Draws the tile layer `l`, as `tile_layer_draws` says.
    pub fn draw_tile_layer(&self, l: &TileLayer, context: &mut RenderContext, render_layer: RenderLayer, dest: Rect<Subpixels>, offset: Point<Subpixels>, switches: &SwitchState)
        requires
            self.drawable(),
            self.layer_drawable(*l),
            view_in_world(dest, offset),
        ensures
            final(context).batch(render_layer).clear_color == old(context).batch(render_layer).clear_color,
            final(context).batch(render_layer).entries@ == old(context).batch(render_layer).entries@
                + self.tile_layer_draws(*l, dest, offset, switches@, old(context).frame),
            RenderContext::with_batch(*old(context), *final(context), render_layer, final(context).batch(render_layer)),
    {
        let th: i32 = self.tileheight.0 * SUBPIXELS;
        let tw: i32 = self.tilewidth.0 * SUBPIXELS;
        let row_count = ceil_div_i32(dest.h.0, th) + 1;
        let col_count = ceil_div_i32(dest.w.0, tw) + 1;
        let mut start_row: i32 = -(offset.y.0 / th);
        if start_row < 0 {
            start_row = 0;
        }
        let mut end_row: i32 = start_row + row_count;
        if end_row > self.height {
            end_row = self.height;
        }
        let mut start_col: i32 = -(offset.x.0 / tw);
        if start_col < 0 {
            start_col = 0;
        }
        let mut end_col: i32 = start_col + col_count;
        if end_col > self.width {
            end_col = self.width;
        }
        let ghost frame = context.frame;
        let ghost on = switches@;
        let ghost start = *context;
        let ghost base = context.batch(render_layer).entries@;
        proof {
            assert((start_row as int, end_row as int) == Self::visible_range(offset.y.0 as int, th as int, dest.h.0 as int, self.height as int));
            assert((start_col as int, end_col as int) == Self::visible_range(offset.x.0 as int, tw as int, dest.w.0 as int, self.width as int));
        }
        let mut row: i32 = start_row;
        while row < end_row
            invariant
                self.drawable(),
                self.layer_drawable(*l),
                view_in_world(dest, offset),
                0 <= start_row,
                start_row <= row,
                row <= end_row || row == start_row,
                end_row <= self.height,
                0 <= start_col,
                end_col <= self.width,
                frame == context.frame,
                on == switches@,
                context.batch(render_layer).clear_color == start.batch(render_layer).clear_color,
                RenderContext::with_batch(start, *context, render_layer, context.batch(render_layer)),
                context.batch(render_layer).entries@ == base + self.grid_draws(*l, start_row as int, row as int, start_col as int, end_col as int, dest, offset, on, frame),
            decreases end_row - row,
        {
            let ghost before = context.batch(render_layer).entries@;
            let mut col: i32 = start_col;
            proof {
                assert(before + Seq::<SpriteBatchEntry>::empty() =~= before);
            }
            while col < end_col
                invariant
                    self.drawable(),
                    self.layer_drawable(*l),
                    view_in_world(dest, offset),
                    0 <= start_row <= row < end_row <= self.height,
                    0 <= start_col,
                    start_col <= col,
                    col <= end_col || col == start_col,
                    end_col <= self.width,
                    frame == context.frame,
                    on == switches@,
                    context.batch(render_layer).clear_color == start.batch(render_layer).clear_color,
                    RenderContext::with_batch(start, *context, render_layer, context.batch(render_layer)),
                    context.batch(render_layer).entries@ == before + self.row_draws(*l, row as int, start_col as int, col as int, dest, offset, on, frame),
                decreases end_col - col,
            {
                let ghost mid = context.batch(render_layer).entries@;
                match self.draw_cell(l, row, col, dest, offset, switches, context.frame) {
                    Some(d) => {
                        context.draw(d.0, render_layer, d.2, d.1);
                        proof {
                            assert(before + self.row_draws(*l, row as int, start_col as int, col + 1, dest, offset, on, frame)
                                =~= (before + self.row_draws(*l, row as int, start_col as int, col as int, dest, offset, on, frame)).push(draw_entry(d)));
                        }
                    },
                    None => {
                    },
                }
                col = col + 1;
            }
            proof {
                if end_col <= start_col {
                    assert(self.row_draws(*l, row as int, start_col as int, col as int, dest, offset, on, frame) =~= Seq::<SpriteBatchEntry>::empty());
                    assert(self.row_draws(*l, row as int, start_col as int, end_col as int, dest, offset, on, frame) =~= Seq::<SpriteBatchEntry>::empty());
                }
                assert(base + self.grid_draws(*l, start_row as int, row + 1, start_col as int, end_col as int, dest, offset, on, frame)
                    =~= base + self.grid_draws(*l, start_row as int, row as int, start_col as int, end_col as int, dest, offset, on, frame)
                        + self.row_draws(*l, row as int, start_col as int, end_col as int, dest, offset, on, frame));
            }
            row = row + 1;
        }
        proof {
            if end_row <= start_row {
                assert(self.grid_draws(*l, start_row as int, row as int, start_col as int, end_col as int, dest, offset, on, frame) =~= Seq::<SpriteBatchEntry>::empty());
                assert(self.grid_draws(*l, start_row as int, end_row as int, start_col as int, end_col as int, dest, offset, on, frame) =~= Seq::<SpriteBatchEntry>::empty());
            }
        }
    }
}

impl TileMap {
    /// Draws an image layer: the whole image at the offset.
    pub fn draw_image_layer(&self, layer: &ImageLayer, context: &mut RenderContext, render_layer: RenderLayer, offset: Point<Subpixels>)
        requires
            fits_i32(layer.surface.area.w.0 * SUBPIXELS),
            fits_i32(layer.surface.area.h.0 * SUBPIXELS),
        ensures
            final(context).batch(render_layer).clear_color == old(context).batch(render_layer).clear_color,
            final(context).batch(render_layer).entries@ == old(context).batch(render_layer).entries@.push(draw_entry(image_draw(*layer, offset))),
            RenderContext::with_batch(*old(context), *final(context), render_layer, final(context).batch(render_layer)),
    {
        let area = layer.surface.area;
        let dest = Rect { x: offset.x, y: offset.y, w: area.w.as_subpixels(), h: area.h.as_subpixels() };
        let source = Rect { x: Pixels::zero(), y: Pixels::zero(), w: area.w, h: area.h };
        context.draw(layer.surface, render_layer, dest, source);
    }

    /// Draws one layer.
    pub fn draw_layer(&self, layer: &Layer, context: &mut RenderContext, render_layer: RenderLayer, dest: Rect<Subpixels>, offset: Point<Subpixels>, switches: &SwitchState)
        requires
            self.drawable(),
            self.layer_ok(*layer),
            view_in_world(dest, offset),
        ensures
            final(context).batch(render_layer).clear_color == old(context).batch(render_layer).clear_color,
            final(context).batch(render_layer).entries@ == old(context).batch(render_layer).entries@
                + self.layer_draws(*layer, dest, offset, switches@, old(context).frame),
            RenderContext::with_batch(*old(context), *final(context), render_layer, final(context).batch(render_layer)),
    {
        match layer {
            Layer::Image(im) => {
                let ghost before = context.batch(render_layer).entries@;
                self.draw_image_layer(im, context, render_layer, offset);
                assert(before.push(draw_entry(image_draw(*im, offset))) =~= before + seq![draw_entry(image_draw(*im, offset))]);
            },
            Layer::Tile(l) => self.draw_tile_layer(l, context, render_layer, dest, offset, switches),
        }
    }

    /// Draws the layers from `k0` up to `k1`.
    fn draw_layers(&self, k0: usize, k1: usize, context: &mut RenderContext, render_layer: RenderLayer, dest: Rect<Subpixels>, offset: Point<Subpixels>, switches: &SwitchState)
        requires
            self.drawable(),
            k0 <= k1 <= self.layers@.len(),
            view_in_world(dest, offset),
        ensures
            final(context).batch(render_layer).clear_color == old(context).batch(render_layer).clear_color,
            final(context).batch(render_layer).entries@ == old(context).batch(render_layer).entries@
                + self.layers_draws(k0 as int, k1 as int, dest, offset, switches@, old(context).frame),
            RenderContext::with_batch(*old(context), *final(context), render_layer, final(context).batch(render_layer)),
    {
        let ghost start = *context;
        let ghost base = context.batch(render_layer).entries@;
        let ghost frame = context.frame;
        let mut k: usize = k0;
        proof {
            assert(base + self.layers_draws(k0 as int, k0 as int, dest, offset, switches@, frame) =~= base);
        }
        while k < k1
            invariant
                self.drawable(),
                k0 <= k <= k1 <= self.layers@.len(),
                view_in_world(dest, offset),
                frame == context.frame,
                context.batch(render_layer).clear_color == start.batch(render_layer).clear_color,
                RenderContext::with_batch(start, *context, render_layer, context.batch(render_layer)),
                context.batch(render_layer).entries@ == base + self.layers_draws(k0 as int, k as int, dest, offset, switches@, frame),
            decreases k1 - k,
        {
            proof {
                assert(self.layer_ok(self.layers@[k as int]));
            }
            self.draw_layer(&self.layers[k], context, render_layer, dest, offset, switches);
            proof {
                assert(base + self.layers_draws(k0 as int, k + 1, dest, offset, switches@, frame)
                    =~= base + self.layers_draws(k0 as int, k as int, dest, offset, switches@, frame)
                        + self.layer_draws(self.layers@[k as int], dest, offset, switches@, frame));
            }
            k = k + 1;
        }
    }

    /// The first player layer, or the count of layers.
    fn find_player_layer(&self) -> (r: usize)
        ensures
            r == first_player_layer(self.layers@, 0),
            r <= self.layers@.len(),
    {
        let mut k: usize = 0;
        while k < self.layers.len()
            invariant
                k <= self.layers@.len(),
                first_player_layer(self.layers@, 0) == first_player_layer(self.layers@, k as int),
            decreases self.layers.len() - k,
        {
            let found = match &self.layers[k] {
                Layer::Tile(l) => l.player,
                Layer::Image(_) => false,
            };
            if found {
                return k;
            }
            k = k + 1;
        }
        k
    }

    /// Draws the background colour over `dest`, then the layers up to and
    /// including the player's.
    pub fn draw_background(&self, context: &mut RenderContext, render_layer: RenderLayer, dest: Rect<Subpixels>, offset: Point<Subpixels>, switches: &SwitchState)
        requires
            self.drawable(),
            view_in_world(dest, offset),
        ensures
            final(context).batch(render_layer).entries@ == old(context).batch(render_layer).entries@
                + self.background_draws(dest, offset, switches@, old(context).frame),
            final(context).batch(render_layer).clear_color == old(context).batch(render_layer).clear_color,
            RenderContext::with_batch(*old(context), *final(context), render_layer, final(context).batch(render_layer)),
    {
        let ghost before = context.batch(render_layer).entries@;
        context.fill_rect(dest, render_layer, self.backgroundcolor);
        let p = self.find_player_layer();
        let last = if p < self.layers.len() { p + 1 } else { p };
        self.draw_layers(0, last, context, render_layer, dest, offset, switches);
        proof {
            let fill = SpriteBatchEntry::FillRect { destination: to_pixels(dest), color: self.backgroundcolor };
            assert(before.push(fill) + self.layers_draws(0, last as int, dest, offset, switches@, old(context).frame)
                =~= before + self.background_draws(dest, offset, switches@, old(context).frame));
        }
    }

    /// Draws the layers after the player's, if there is a player layer.
    pub fn draw_foreground(&self, context: &mut RenderContext, render_layer: RenderLayer, dest: Rect<Subpixels>, offset: Point<Subpixels>, switches: &SwitchState)
        requires
            self.drawable(),
            view_in_world(dest, offset),
        ensures
            final(context).batch(render_layer).entries@ == old(context).batch(render_layer).entries@
                + self.foreground_draws(dest, offset, switches@, old(context).frame),
            final(context).batch(render_layer).clear_color == old(context).batch(render_layer).clear_color,
            RenderContext::with_batch(*old(context), *final(context), render_layer, final(context).batch(render_layer)),
    {
        if self.player_layer.is_none() {
            assert(context.batch(render_layer).entries@ + Seq::<SpriteBatchEntry>::empty() =~= context.batch(render_layer).entries@);
            return;
        }
        let p = self.find_player_layer();
        if p < self.layers.len() {
            self.draw_layers(p + 1, self.layers.len(), context, render_layer, dest, offset, switches);
        } else {
            assert(context.batch(render_layer).entries@ + Seq::<SpriteBatchEntry>::empty() =~= context.batch(render_layer).entries@);
        }
    }

    /// Whether a tile can be drawn on its own: it has a tileset that can
    /// be drawn, and a small local id.
    pub open spec fn tile_drawable(&self, tile_gid: TileIndex) -> bool {
        &&& has_tileset(self.sets(), tile_gid.0)
        &&& self.local_of(tile_gid).0 < 0x1_0000
        &&& self.sets()[self.set_of(tile_gid)].drawable()
    }

    /// Draws a tile, its first frame, at `dest`.
    pub fn draw_tile(&self, context: &mut RenderContext, tile_gid: TileIndex, layer: RenderLayer, dest: Rect<Subpixels>)
        requires
            self.tile_drawable(tile_gid),
        ensures
            ({
                let ts = self.sets()[self.set_of(tile_gid)];
                &&& final(context).batch(layer).entries@ == old(context).batch(layer).entries@.push(
                    draw_entry((ts.sprite, ts.source_rect(self.local_of(tile_gid)), dest)))
                &&& final(context).batch(layer).clear_color == old(context).batch(layer).clear_color
                &&& RenderContext::with_batch(*old(context), *final(context), layer, final(context).batch(layer))
            }),
    {
        let (tileset, tile_id) = self.tilesets.lookup(tile_gid);
        let src = tileset.get_source_rect(tile_id);
        context.draw(tileset.sprite, layer, dest, src);
    }

    /// The animation of a tile, if it is animated.
    pub fn get_animation(&self, tile_gid: TileIndex) -> (r: Option<Animation>)
        requires
            has_tileset(self.sets(), tile_gid.0),
        ensures
            r == self.sets()[self.set_of(tile_gid)].spec_animation(self.local_of(tile_gid)),
    {
        let (tileset, tile_id) = self.tilesets.lookup(tile_gid);
        tileset.get_animation(tile_id)
    }
}

/// A tile is drawn inside the screen's left and top edges, and never
/// wider or taller than a tile.
pub proof fn tiles_stay_on_screen(m: TileMap, l: TileLayer, row: int, col: int, dest: Rect<Subpixels>, offset: Point<Subpixels>, on: Set<Seq<char>>, frame: u64)
    requires
        m.drawable(),
        m.layer_drawable(l),
        0 <= row < m.height,
        0 <= col < m.width,
        view_in_world(dest, offset),
    ensures
        m.cell_draw(l, row, col, dest, offset, on, frame) matches Some(d) ==> {
            &&& d.2.x.0 >= dest.x.0
            &&& d.2.y.0 >= dest.y.0
            &&& d.2.w.0 > 0
            &&& d.2.h.0 > 0
        },
{
    let index = l.data@[row]@[col];
    let ts = m.sets()[m.set_of(index)];
    if m.cell_draw(l, row, col, dest, offset, on, frame) is Some {
        assert(m.cell_ok_at(l, row, col));
        crate::tilemap::lemma_lookup_exists(m.sets(), index.0);
        assert(ts.drawable());
        let tw = m.tilewidth.0 * SUBPIXELS;
        let th = m.tileheight.0 * SUBPIXELS;
        assert(0 <= tw * col <= m.right_edge()) by (nonlinear_arith)
            requires
                tw > 0,
                0 <= col < m.width,
                m.right_edge() == m.tilewidth.0 * m.width * SUBPIXELS,
                tw == m.tilewidth.0 * SUBPIXELS;
        assert(0 <= th * row <= m.bottom_edge()) by (nonlinear_arith)
            requires
                th > 0,
                0 <= row < m.height,
                m.bottom_edge() == m.tileheight.0 * m.height * SUBPIXELS,
                th == m.tileheight.0 * SUBPIXELS;
    }
}

} // verus!
