//! Packing images into a texture atlas: the tallest first, left to right in
//! rows as wide as the widest image, and the index that says where each went.
use vstd::prelude::*;

use crate::error::Error;
use crate::text::{append, decimal, push_decimal, split_on, split_seq, trim, trim_seq};

verus! {

/// The options of the atlas builder.
pub struct Args {
    /// The file that lists the images, one path per line, relative to it.
    pub texture_list: String,
    /// Where the atlas image goes.
    pub texture_atlas_image: String,
    /// Where the index of the atlas goes.
    pub texture_atlas_index: String,
}

/// An image to pack: its path as listed, and its size.
pub struct ImageFile {
    pub path: String,
    pub width: u32,
    pub height: u32,
}

/// Where an image went: `(x, y, width, height)` in the atlas.
pub struct AtlasEntry {
    pub path: String,
    pub location: (u32, u32, u32, u32),
}

/// The listed paths: the non-blank lines of the list, trimmed.
pub open spec fn listed_paths(lines: Seq<Seq<char>>) -> Seq<Seq<char>>
    decreases lines.len(),
{
    if lines.len() == 0 {
        Seq::empty()
    } else {
        let rest = listed_paths(lines.drop_last());
        let t = trim_seq(lines.last());
        if t.len() == 0 {
            rest
        } else {
            rest.push(t)
        }
    }
}

/// The paths that a texture list names.
pub fn image_paths(list: &str) -> (r: Vec<String>)
    ensures
        r@.map_values(|p: String| p@) == listed_paths(split_seq(list@, '\n')),
{
    let lines = split_on(list, '\n');
    let ghost all = split_seq(list@, '\n');
    let mut r: Vec<String> = Vec::new();
    let mut i: usize = 0;
    proof {
        assert(all.take(0) =~= Seq::<Seq<char>>::empty());
        assert(r@.map_values(|p: String| p@) =~= Seq::<Seq<char>>::empty());
    }
    while i < lines.len()
        invariant
            lines@.len() == all.len(),
            forall|j: int| 0 <= j < lines@.len() ==> #[trigger] lines@[j]@ == all[j],
            all == split_seq(list@, '\n'),
            i <= lines@.len(),
            r@.map_values(|p: String| p@) == listed_paths(all.take(i as int)),
        decreases lines.len() - i,
    {
        let line = trim(lines[i]);
        let ghost before = r@.map_values(|p: String| p@);
        proof {
            assert(all.take(i + 1).drop_last() =~= all.take(i as int));
            assert(all.take(i + 1).last() == lines@[i as int]@);
        }
        if line.unicode_len() > 0 {
            r.push(line.to_owned());
            proof {
                assert(r@.map_values(|p: String| p@) =~= before.push(line@));
            }
        }
        i = i + 1;
    }
    proof {
        assert(all.take(i as int) =~= all);
    }
    r
}

/// The first place in `t`, from `k` on, whose image is no taller than `h`.
pub open spec fn first_not_taller(t: Seq<ImageFile>, h: u32, k: int) -> int
    decreases t.len() - k,
{
    if k >= t.len() || t[k].height <= h {
        k
    } else {
        first_not_taller(t, h, k + 1)
    }
}

/// The images in the order they are packed: tallest first, and of equal
/// heights the one listed last first.
pub open spec fn tallest_first(s: Seq<ImageFile>) -> Seq<ImageFile>
    decreases s.len(),
{
    if s.len() == 0 {
        Seq::empty()
    } else {
        let t = tallest_first(s.drop_last());
        t.insert(first_not_taller(t, s.last().height, 0), s.last())
    }
}

/// The widest width among the images.
pub open spec fn max_width(s: Seq<ImageFile>) -> int
    decreases s.len(),
{
    if s.len() == 0 {
        0
    } else {
        let m = max_width(s.drop_last());
        if s.last().width > m { s.last().width as int } else { m }
    }
}

/// The sum of the images' heights.
pub open spec fn total_height(s: Seq<ImageFile>) -> int
    decreases s.len(),
{
    if s.len() == 0 {
        0
    } else {
        total_height(s.drop_last()) + s.last().height
    }
}

/// The first image, from `k` on, that fits in a row at `x`.
pub open spec fn first_fit(rem: Seq<ImageFile>, x: int, maxw: int, k: int) -> Option<int>
    decreases rem.len() - k,
{
    if k >= rem.len() || k < 0 {
        None
    } else if x + rem[k].width <= maxw {
        Some(k)
    } else {
        first_fit(rem, x, maxw, k + 1)
    }
}

/// Packs the remaining images from the point `(x, y)` of a row of height
/// `rowh`: the first image that fits goes next on the row, and when none
/// fits a new row starts. Gives each image with its place, in the order
/// they were placed, and the height of the atlas.
pub open spec fn pack(rem: Seq<ImageFile>, x: int, y: int, rowh: int, maxw: int) -> (Seq<(ImageFile, int, int)>, int)
    decreases rem.len(), (if x > 0 { 1int } else { 0int }),
{
    if rem.len() == 0 {
        (Seq::empty(), y + rowh)
    } else {
        match first_fit(rem, x, maxw, 0) {
            Some(i) => {
                proof {
                    lemma_first_fit(rem, x, maxw, 0);
                }
                let im = rem[i];
                let (rest, h) = pack(rem.remove(i), x + im.width, y, if im.height > rowh { im.height as int } else { rowh }, maxw);
                (seq![(im, x, y)] + rest, h)
            },
            None => if x > 0 {
                pack(rem, 0, y + rowh, 0, maxw)
            } else {
                (Seq::empty(), y + rowh)
            },
        }
    }
}

/// Whether an entry sits where the packing put an image.
pub open spec fn entry_is(e: AtlasEntry, p: (ImageFile, int, int)) -> bool {
    &&& e.path == p.0.path
    &&& e.location.0 == p.1
    &&& e.location.1 == p.2
    &&& e.location.2 == p.0.width
    &&& e.location.3 == p.0.height
}

/// Whether two placed rectangles do not overlap.
pub open spec fn apart(a: (u32, u32, u32, u32), b: (u32, u32, u32, u32)) -> bool {
    ||| a.0 + a.2 <= b.0
    ||| b.0 + b.2 <= a.0
    ||| a.1 + a.3 <= b.1
    ||| b.1 + b.3 <= a.1
}

proof fn lemma_sum_remove(s: Seq<ImageFile>, i: int)
    requires
        0 <= i < s.len(),
    ensures
        total_height(s) == total_height(s.remove(i)) + s[i].height,
    decreases s.len(),
{
    if i == s.len() - 1 {
        assert(s.remove(i) =~= s.drop_last());
    } else {
        assert(s.remove(i).drop_last() =~= s.drop_last().remove(i));
        lemma_sum_remove(s.drop_last(), i);
    }
}

pub proof fn lemma_first_fit(rem: Seq<ImageFile>, x: int, maxw: int, k: int)
    requires
        0 <= k <= rem.len(),
    ensures
        first_fit(rem, x, maxw, k) matches Some(i) ==> k <= i < rem.len() && x + rem[i].width <= maxw
            && forall|j: int| k <= j < i ==> x + #[trigger] rem[j].width > maxw,
        first_fit(rem, x, maxw, k) is None ==> forall|j: int| k <= j < rem.len() ==> x + #[trigger] rem[j].width > maxw,
    decreases rem.len() - k,
{
    if k < rem.len() {
        lemma_first_fit(rem, x, maxw, k + 1);
    }
}

proof fn lemma_first_not_taller(t: Seq<ImageFile>, h: u32, k: int)
    requires
        0 <= k <= t.len(),
    ensures
        k <= first_not_taller(t, h, k) <= t.len(),
        forall|j: int| k <= j < first_not_taller(t, h, k) ==> #[trigger] t[j].height > h,
        first_not_taller(t, h, k) < t.len() ==> t[first_not_taller(t, h, k)].height <= h,
    decreases t.len() - k,
{
    if k < t.len() && t[k].height > h {
        lemma_first_not_taller(t, h, k + 1);
    }
}

proof fn lemma_max_width(s: Seq<ImageFile>)
    ensures
        forall|j: int| 0 <= j < s.len() ==> #[trigger] s[j].width <= max_width(s),
        s.len() > 0 ==> exists|j: int| 0 <= j < s.len() && #[trigger] s[j].width == max_width(s),
        0 <= max_width(s) <= u32::MAX,
    decreases s.len(),
{
    if s.len() > 0 {
        lemma_max_width(s.drop_last());
        assert forall|j: int| 0 <= j < s.len() implies #[trigger] s[j].width <= max_width(s) by {
            if j < s.len() - 1 {
                assert(s[j] == s.drop_last()[j]);
            }
        }
        if s.last().width > max_width(s.drop_last()) {
            assert(s[s.len() - 1].width == max_width(s));
        } else if s.len() > 1 {
            let j = choose|j: int| 0 <= j < s.drop_last().len() && #[trigger] s.drop_last()[j].width == max_width(s.drop_last());
            assert(s[j] == s.drop_last()[j]);
        } else {
            assert(s[0].width == max_width(s));
        }
    }
}

/// Puts the images in packing order: tallest first, and of equal heights
/// the one listed last first.
pub fn order_images(images: Vec<ImageFile>) -> (r: Vec<ImageFile>)
    ensures
        r@ == tallest_first(images@),
{
    let ghost orig = images@;
    let mut images = images;
    let mut out: Vec<ImageFile> = Vec::new();
    let ghost mut k: int = 0;
    proof {
        assert(orig.take(0) =~= Seq::<ImageFile>::empty());
        assert(images@ =~= orig.skip(0));
    }
    while images.len() > 0
        invariant
            0 <= k <= orig.len(),
            images@ == orig.skip(k),
            out@ == tallest_first(orig.take(k)),
        decreases images.len(),
    {
        let im = images.remove(0);
        proof {
            assert(orig.take(k + 1).drop_last() =~= orig.take(k));
            assert(orig.take(k + 1).last() == orig[k]);
            assert(im == orig[k]);
            lemma_first_not_taller(out@, im.height, 0);
        }
        let mut j: usize = 0;
        while j < out.len() && out[j].height > im.height
            invariant
                j <= out@.len(),
                forall|m: int| 0 <= m < j ==> #[trigger] out@[m].height > im.height,
                first_not_taller(out@, im.height, 0) >= j,
                forall|m: int| j <= m < first_not_taller(out@, im.height, 0) ==> #[trigger] out@[m].height > im.height,
                first_not_taller(out@, im.height, 0) < out@.len() ==> out@[first_not_taller(out@, im.height, 0)].height <= im.height,
                first_not_taller(out@, im.height, 0) <= out@.len(),
            decreases out.len() - j,
        {
            j = j + 1;
        }
        proof {
            if j < first_not_taller(out@, im.height, 0) {
                assert(out@[j as int].height > im.height);
            }
        }
        out.insert(j, im);
        proof {
            k = k + 1;
            assert(images@ =~= orig.skip(k));
        }
    }
    proof {
        assert(orig.take(k) =~= orig);
    }
    out
}

/// Lays the images out in an atlas as wide as the widest of them: gives
/// where each went, in the order they were placed, and the atlas's width
/// and height. No two images overlap, and all lie inside the atlas.
pub fn layout(images: Vec<ImageFile>) -> (r: Result<(Vec<AtlasEntry>, u32, u32), Error>)
    requires
        total_height(images@) <= u32::MAX,
    ensures
        images@.len() == 0 ==> r == Err::<(Vec<AtlasEntry>, u32, u32), Error>(Error::NoImages),
        images@.len() > 0 ==> (r matches Ok((entries, width, height)) && {
            let maxw = max_width(images@);
            let (placed, h) = pack(tallest_first(images@), 0, 0, 0, maxw);
            &&& width == maxw
            &&& height == h
            &&& entries@.len() == placed.len()
            &&& entries@.len() == images@.len()
            &&& (forall|k: int| 0 <= k < entries@.len() ==> #[trigger] entry_is(entries@[k], placed[k]))
            &&& (forall|k: int| 0 <= k < entries@.len() ==> #[trigger] entries@[k].location.0 + entries@[k].location.2 <= width
                && entries@[k].location.1 + entries@[k].location.3 <= height)
            &&& (forall|a: int, b: int| 0 <= a < b < entries@.len() ==> apart(#[trigger] entries@[a].location, #[trigger] entries@[b].location))
        }),
{
    if images.len() == 0 {
        return Err(Error::NoImages);
    }
    let ghost orig = images@;
    let mut rem = order_images(images);
    let ghost start = rem@;
    proof {
        lemma_order_keeps(orig);
        lemma_max_width(orig);
    }
    let mut maxw: u32 = 0;
    let mut m: usize = 0;
    while m < rem.len()
        invariant
            m <= rem@.len(),
            rem@ == start,
            forall|j: int| 0 <= j < m ==> #[trigger] rem@[j].width <= maxw,
            m == 0 ==> maxw == 0,
            m > 0 ==> exists|j: int| 0 <= j < m && #[trigger] rem@[j].width == maxw,
        decreases rem.len() - m,
    {
        if rem[m].width > maxw {
            maxw = rem[m].width;
        }
        m = m + 1;
    }
    proof {
        lemma_same_max(orig, start, maxw as int);
    }
    let mut entries: Vec<AtlasEntry> = Vec::new();
    let mut x: u32 = 0;
    let mut y: u32 = 0;
    let mut rowh: u32 = 0;
    let ghost mut placed: Seq<(ImageFile, int, int)> = Seq::empty();
    let ghost mut used: int = 0;
    proof {
        assert(placed + pack(start, 0, 0, 0, maxw as int).0 =~= pack(start, 0, 0, 0, maxw as int).0);
    }
    while rem.len() > 0
        invariant
            maxw == max_width(orig),
            forall|j: int| 0 <= j < rem@.len() ==> #[trigger] rem@[j].width <= maxw,
            x <= maxw,
            pack(start, 0, 0, 0, maxw as int) == (placed + pack(rem@, x as int, y as int, rowh as int, maxw as int).0,
                pack(rem@, x as int, y as int, rowh as int, maxw as int).1),
            entries@.len() == placed.len(),
            forall|k: int| 0 <= k < entries@.len() ==> #[trigger] entry_is(entries@[k], placed[k]),
            used + total_height(rem@) == total_height(start),
            total_height(start) <= u32::MAX,
            y + rowh <= used,
            placed.len() + rem@.len() == start.len(),
            forall|k: int| 0 <= k < entries@.len() ==> #[trigger] entries@[k].location.0 + entries@[k].location.2 <= maxw,
            forall|k: int| 0 <= k < entries@.len() ==> (#[trigger] entries@[k].location.1 + entries@[k].location.3 <= y)
                || (entries@[k].location.1 == y && entries@[k].location.0 + entries@[k].location.2 <= x
                    && entries@[k].location.3 <= rowh),
            forall|a: int, b: int| 0 <= a < b < entries@.len() ==> apart(#[trigger] entries@[a].location, #[trigger] entries@[b].location),
        decreases rem@.len() * 2 + if x > 0 { 1int } else { 0int },
    {
        let ghost rem0 = rem@;
        proof {
            lemma_first_fit(rem0, x as int, maxw as int, 0);
            lemma_total_nonneg(rem0);
        }
        let mut i: usize = 0;
        while i < rem.len() && (x as u64) + (rem[i].width as u64) > (maxw as u64)
            invariant
                i <= rem@.len(),
                rem@ == rem0,
                forall|j: int| 0 <= j < i ==> x + #[trigger] rem@[j].width > maxw,
            decreases rem.len() - i,
        {
            i = i + 1;
        }
        proof {
            lemma_first_fit_is(rem0, x as int, maxw as int, i as int);
        }
        if i < rem.len() {
            let im = rem.remove(i);
            proof {
                lemma_sum_remove(rem0, i as int);
                assert(im == rem0[i as int]);
                assert forall|j: int| 0 <= j < rem@.len() implies #[trigger] rem@[j].width <= maxw by {
                    if j < i {
                        assert(rem@[j] == rem0[j]);
                    } else {
                        assert(rem@[j] == rem0[j + 1]);
                    }
                }
            }
            let location = (x, y, im.width, im.height);
            let ghost e = (im, x as int, y as int);
            let ghost newrow = if im.height > rowh { im.height as int } else { rowh as int };
            proof {
                let rest = pack(rem@, x + im.width, y as int, newrow, maxw as int);
                assert(pack(rem0, x as int, y as int, rowh as int, maxw as int) == (seq![e] + rest.0, rest.1));
                assert(placed + (seq![e] + rest.0) =~= placed.push(e) + rest.0);
            }
            entries.push(AtlasEntry { path: im.path, location });
            proof {
                placed = placed.push(e);
                used = used + im.height;
                assert(entry_is(entries@[entries@.len() - 1], placed[placed.len() - 1]));
                assert forall|a: int, b: int| 0 <= a < b < entries@.len() implies apart(#[trigger] entries@[a].location, #[trigger] entries@[b].location) by {
                    if b == entries@.len() - 1 {
                        assert(entries@[b].location == location);
                    }
                }
            }
            if im.height > rowh {
                rowh = im.height;
            }
            x = x + im.width;
        } else {
            proof {
                if x == 0 {
                    assert(rem0[0].width <= maxw);
                    assert(false);
                }
                assert(pack(rem0, x as int, y as int, rowh as int, maxw as int) == pack(rem0, 0, y + rowh, 0, maxw as int));
            }
            y = y + rowh;
            x = 0;
            rowh = 0;
        }
    }
    proof {
        assert(placed + Seq::<(ImageFile, int, int)>::empty() =~= placed);
    }
    Ok((entries, maxw, y + rowh))
}

proof fn lemma_total_nonneg(s: Seq<ImageFile>)
    ensures
        total_height(s) >= 0,
    decreases s.len(),
{
    if s.len() > 0 {
        lemma_total_nonneg(s.drop_last());
    }
}

/// `first_fit` from the start is the first index the search stops at.
proof fn lemma_first_fit_is(rem: Seq<ImageFile>, x: int, maxw: int, i: int)
    requires
        0 <= i <= rem.len(),
        forall|j: int| 0 <= j < i ==> x + #[trigger] rem[j].width > maxw,
        i < rem.len() ==> x + rem[i].width <= maxw,
    ensures
        i < rem.len() ==> first_fit(rem, x, maxw, 0) == Some(i),
        i == rem.len() ==> first_fit(rem, x, maxw, 0) is None,
{
    lemma_first_fit(rem, x, maxw, 0);
    match first_fit(rem, x, maxw, 0) {
        Some(k) => {
            if k < i {
                assert(x + rem[k].width > maxw);
            } else if k > i {
                assert(x + rem[i].width > maxw);
            }
        },
        None => {
            if i < rem.len() {
                assert(x + rem[i].width > maxw);
            }
        },
    }
}

/// Packing order keeps the images: the same widest width and total height,
/// and as many of them.
proof fn lemma_order_keeps(s: Seq<ImageFile>)
    ensures
        tallest_first(s).len() == s.len(),
        total_height(tallest_first(s)) == total_height(s),
        max_width(tallest_first(s)) == max_width(s),
    decreases s.len(),
{
    if s.len() > 0 {
        let t = tallest_first(s.drop_last());
        lemma_order_keeps(s.drop_last());
        lemma_first_not_taller(t, s.last().height, 0);
        let j = first_not_taller(t, s.last().height, 0);
        lemma_insert_sum(t, j, s.last());
        lemma_insert_max(t, j, s.last());
    }
}

proof fn lemma_insert_sum(t: Seq<ImageFile>, j: int, x: ImageFile)
    requires
        0 <= j <= t.len(),
    ensures
        total_height(t.insert(j, x)) == total_height(t) + x.height,
{
    lemma_sum_remove(t.insert(j, x), j);
    assert(t.insert(j, x).remove(j) =~= t);
}

proof fn lemma_insert_max(t: Seq<ImageFile>, j: int, x: ImageFile)
    requires
        0 <= j <= t.len(),
    ensures
        max_width(t.insert(j, x)) == if x.width > max_width(t) { x.width as int } else { max_width(t) },
{
    let u = t.insert(j, x);
    lemma_max_width(u);
    lemma_max_width(t);
    assert(u[j] == x);
    assert forall|k: int| 0 <= k < t.len() implies #[trigger] t[k].width <= max_width(u) by {
        if k < j {
            assert(u[k] == t[k]);
        } else {
            assert(u[k + 1] == t[k]);
        }
    }
    if t.len() > 0 {
        let w = choose|k: int| 0 <= k < t.len() && #[trigger] t[k].width == max_width(t);
        if w < j {
            assert(u[w] == t[w]);
        } else {
            assert(u[w + 1] == t[w]);
        }
    }
    let v = choose|k: int| 0 <= k < u.len() && #[trigger] u[k].width == max_width(u);
    if v < j {
        assert(u[v] == t[v]);
    } else if v > j {
        assert(u[v] == t[v - 1]);
    }
}

/// The widest width found by a scan is the widest width of the images.
proof fn lemma_same_max(orig: Seq<ImageFile>, start: Seq<ImageFile>, m: int)
    requires
        start == tallest_first(orig),
        orig.len() > 0,
        max_width(tallest_first(orig)) == max_width(orig),
        forall|j: int| 0 <= j < start.len() ==> #[trigger] start[j].width <= m,
        exists|j: int| 0 <= j < start.len() && #[trigger] start[j].width == m,
    ensures
        m == max_width(orig),
{
    lemma_max_width(start);
    let j = choose|j: int| 0 <= j < start.len() && #[trigger] start[j].width == m;
    let k = choose|k: int| 0 <= k < start.len() && #[trigger] start[k].width == max_width(start);
    assert(start[j].width <= max_width(start));
    assert(start[k].width <= m);
}

/// The line of the index for one entry: `x,y,width,height,path`.
pub open spec fn index_line(e: AtlasEntry) -> Seq<char> {
    decimal(e.location.0 as nat) + seq![','] + decimal(e.location.1 as nat) + seq![','] + decimal(
        e.location.2 as nat,
    ) + seq![','] + decimal(e.location.3 as nat) + seq![','] + e.path@ + seq!['\n']
}

/// The index of an atlas: one line per entry, each ended by a newline.
pub open spec fn index_of(es: Seq<AtlasEntry>) -> Seq<char>
    decreases es.len(),
{
    if es.len() == 0 {
        Seq::empty()
    } else {
        index_of(es.drop_last()) + index_line(es.last())
    }
}

fn entry_line(e: &AtlasEntry) -> (r: String)
    ensures
        r@ == index_line(*e),
{
    proof {
        reveal_strlit(",");
        reveal_strlit("\n");
    }
    let mut r = String::new();
    push_decimal(&mut r, e.location.0);
    append(&mut r, ",");
    let ghost a = r@;
    push_decimal(&mut r, e.location.1);
    append(&mut r, ",");
    let ghost b = r@;
    push_decimal(&mut r, e.location.2);
    append(&mut r, ",");
    let ghost c = r@;
    push_decimal(&mut r, e.location.3);
    append(&mut r, ",");
    let ghost d = r@;
    append(&mut r, e.path.as_str());
    append(&mut r, "\n");
    proof {
        assert(a =~= decimal(e.location.0 as nat) + seq![',']);
        assert(b =~= a + decimal(e.location.1 as nat) + seq![',']);
        assert(c =~= b + decimal(e.location.2 as nat) + seq![',']);
        assert(d =~= c + decimal(e.location.3 as nat) + seq![',']);
        assert(r@ =~= index_line(*e));
    }
    r
}

/// The text of the index of an atlas.
pub fn index_text(entries: &Vec<AtlasEntry>) -> (r: String)
    ensures
        r@ == index_of(entries@),
{
    let mut r = String::new();
    let mut i: usize = 0;
    proof {
        assert(entries@.take(0) =~= Seq::<AtlasEntry>::empty());
    }
    while i < entries.len()
        invariant
            i <= entries@.len(),
            r@ == index_of(entries@.take(i as int)),
        decreases entries.len() - i,
    {
        let line = entry_line(&entries[i]);
        let ghost before = r@;
        append(&mut r, line.as_str());
        proof {
            assert(entries@.take(i + 1).drop_last() =~= entries@.take(i as int));
            assert(entries@.take(i + 1).last() == entries@[i as int]);
        }
        i = i + 1;
    }
    proof {
        assert(entries@.take(i as int) =~= entries@);
    }
    r
}

} // verus!
