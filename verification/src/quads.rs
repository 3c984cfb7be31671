//! The corners that a renderer draws a batch with: two triangles for each
//! entry, in whole pixels, before the renderer scales them to its surfaces.
use vstd::prelude::*;

use crate::geometry::{fits_i32, Pixels, Rect};
use crate::rendercontext::{SpriteBatch, SpriteBatchEntry};
use crate::utils::Color;

verus! {

/// The most entries of a batch that are drawn; the rest are left out.
pub const MAX_ENTRIES: usize = 4096;

/// A corner of a triangle: its place on the screen, its place in the
/// texture atlas, and its colour.
#[derive(Debug, Clone, Copy, PartialEq, Eq, Structural)]
pub struct Corner {
    pub x: i32,
    pub y: i32,
    pub u: i32,
    pub v: i32,
    pub color: Color,
}

/// The place on the screen, the place in the atlas, the colour and the
/// mirroring of an entry: a fill has an empty atlas place and its colour; a
/// sprite its part of the sprite's area and no colour.
pub open spec fn entry_parts(e: SpriteBatchEntry) -> (Rect<Pixels>, Rect<Pixels>, Color, bool) {
    match e {
        SpriteBatchEntry::FillRect { destination, color } => (
            destination,
            Rect { x: Pixels(0), y: Pixels(0), w: Pixels(0), h: Pixels(0) },
            color,
            false,
        ),
        SpriteBatchEntry::Sprite { sprite, source, destination, reversed } => (
            destination,
            Rect {
                x: Pixels((sprite.area.x.0 + source.x.0) as i32),
                y: Pixels((sprite.area.y.0 + source.y.0) as i32),
                w: source.w,
                h: source.h,
            },
            Color { r: 0, g: 0, b: 0, a: 0 },
            reversed,
        ),
    }
}

/// Whether the edges of an entry's places can be worked out in an `i32`.
pub open spec fn entry_fits(e: SpriteBatchEntry) -> bool {
    &&& e.spec_destination().edges_fit()
    &&& match e {
        SpriteBatchEntry::Sprite { sprite, source, .. } => {
            &&& fits_i32(sprite.area.x.0 + source.x.0)
            &&& fits_i32(sprite.area.y.0 + source.y.0)
            &&& fits_i32(sprite.area.x.0 + source.x.0 + source.w.0)
            &&& fits_i32(sprite.area.y.0 + source.y.0 + source.h.0)
        },
        _ => true,
    }
}

impl SpriteBatchEntry {
    pub open spec fn spec_destination(self) -> Rect<Pixels> {
        match self {
            SpriteBatchEntry::Sprite { destination, .. } => destination,
            SpriteBatchEntry::FillRect { destination, .. } => destination,
        }
    }
}

/// The six corners that draw an entry, as two triangles: top left, bottom
/// left, top right; top right, bottom left, bottom right. A mirrored
/// sprite takes its atlas columns from the other side.
pub open spec fn entry_corners(e: SpriteBatchEntry) -> Seq<Corner> {
    let (d, s, color, reversed) = entry_parts(e);
    let (dl, dt, dr, db) = (d.x.0, d.y.0, (d.x.0 + d.w.0) as i32, (d.y.0 + d.h.0) as i32);
    let (l, r) = (s.x.0, (s.x.0 + s.w.0) as i32);
    let (sl, sr) = if reversed { (r, l) } else { (l, r) };
    let (st, sb) = (s.y.0, (s.y.0 + s.h.0) as i32);
    seq![
        Corner { x: dl, y: dt, u: sl, v: st, color },
        Corner { x: dl, y: db, u: sl, v: sb, color },
        Corner { x: dr, y: dt, u: sr, v: st, color },
        Corner { x: dr, y: dt, u: sr, v: st, color },
        Corner { x: dl, y: db, u: sl, v: sb, color },
        Corner { x: dr, y: db, u: sr, v: sb, color },
    ]
}

/// The corners of entries, one entry after another.
pub open spec fn corners_of(es: Seq<SpriteBatchEntry>) -> Seq<Corner>
    decreases es.len(),
{
    if es.len() == 0 {
        Seq::empty()
    } else {
        corners_of(es.drop_last()) + entry_corners(es.last())
    }
}

/// The number of a batch's entries that are drawn.
pub open spec fn drawn_count(n: int) -> int {
    if n < MAX_ENTRIES { n } else { MAX_ENTRIES as int }
}

/// The corners that draw an entry.
fn push_corners(out: &mut Vec<Corner>, e: &SpriteBatchEntry)
    requires
        entry_fits(*e),
    ensures
        final(out)@ == old(out)@ + entry_corners(*e),
{
    let (d, s, color, reversed) = match e {
        SpriteBatchEntry::FillRect { destination, color } => (
            *destination,
            Rect { x: Pixels(0), y: Pixels(0), w: Pixels(0), h: Pixels(0) },
            *color,
            false,
        ),
        SpriteBatchEntry::Sprite { sprite, source, destination, reversed } => (
            *destination,
            Rect { x: Pixels(sprite.area.x.0 + source.x.0), y: Pixels(sprite.area.y.0 + source.y.0), w: source.w, h: source.h },
            Color { r: 0, g: 0, b: 0, a: 0 },
            *reversed,
        ),
    };
    let dl = d.x.0;
    let dt = d.y.0;
    let dr = d.x.0 + d.w.0;
    let db = d.y.0 + d.h.0;
    let l = s.x.0;
    let r = s.x.0 + s.w.0;
    let (sl, sr) = if reversed { (r, l) } else { (l, r) };
    let st = s.y.0;
    let sb = s.y.0 + s.h.0;
    let ghost before = out@;
    out.push(Corner { x: dl, y: dt, u: sl, v: st, color });
    out.push(Corner { x: dl, y: db, u: sl, v: sb, color });
    out.push(Corner { x: dr, y: dt, u: sr, v: st, color });
    out.push(Corner { x: dr, y: dt, u: sr, v: st, color });
    out.push(Corner { x: dl, y: db, u: sl, v: sb, color });
    out.push(Corner { x: dr, y: db, u: sr, v: sb, color });
    assert(out@ =~= before + entry_corners(*e));
}

/// The corners that draw a batch: those of its first `MAX_ENTRIES` entries,
/// in order.
pub fn batch_corners(batch: &SpriteBatch) -> (r: Vec<Corner>)
    requires
        forall|i: int| 0 <= i < batch.entries@.len() ==> entry_fits(#[trigger] batch.entries@[i]),
    ensures
        r@ == corners_of(batch.entries@.take(drawn_count(batch.entries@.len() as int))),
{
    let mut out: Vec<Corner> = Vec::new();
    let n = if batch.entries.len() < MAX_ENTRIES { batch.entries.len() } else { MAX_ENTRIES };
    let mut i: usize = 0;
    proof {
        assert(batch.entries@.take(0) =~= Seq::<SpriteBatchEntry>::empty());
    }
    while i < n
        invariant
            n == drawn_count(batch.entries@.len() as int),
            n <= batch.entries@.len(),
            i <= n,
            forall|k: int| 0 <= k < batch.entries@.len() ==> entry_fits(#[trigger] batch.entries@[k]),
            out@ == corners_of(batch.entries@.take(i as int)),
        decreases n - i,
    {
        push_corners(&mut out, &batch.entries[i]);
        proof {
            assert(batch.entries@.take(i + 1).drop_last() =~= batch.entries@.take(i as int));
        }
        i = i + 1;
    }
    out
}

} // verus!
