//! Reading maps: the elements of a map file, already split into fields,
//! turned into tile layers, objects and whole maps.
use vstd::prelude::*;

use crate::error::Error;
use crate::number::{parse_usize, unsigned_value};
use crate::properties::{PropertiesXml, PropertyMap, PropertyView};
use crate::text::{split_on, split_seq, trim, trim_seq};
use crate::geometry::{Pixels, Rect, Subpixels};
use crate::properties::{bool_or, int_opt};
use crate::tilemap::{
    has_tileset, lookup_index, object_properties_valid, ImageLayer, Layer, MapObject,
    MapObjectProperties, TileIndex, TileLayer, TileMap, TileMapProperties, TileSetList,
};
use crate::sprite::Sprite;
use crate::utils::{color_of, Color};
use crate::tileset::{LocalTileIndex, TileSet};

verus! {

/// The `<data>` element of a layer: CSV text.
pub struct DataXml {
    pub encoding: String,
    pub data: String,
}

/// A `<layer>` element.
pub struct LayerXml {
    pub id: u32,
    pub name: String,
    pub width: u32,
    pub height: u32,
    pub data: DataXml,
    pub properties: Option<PropertiesXml>,
}

/// What is wrong with the tile data of a layer.
pub enum DataFault {
    /// A field that is not a tile id: its text.
    BadNumber(Seq<char>),
    /// A row of another length than the layer's width: its length.
    RowWidth(int),
}

/// The tile ids of one line of CSV: its comma-separated fields, empty ones
/// skipped, or the first field that is not a number.
pub open spec fn csv_fields(parts: Seq<Seq<char>>) -> Result<Seq<usize>, Seq<char>>
    decreases parts.len(),
{
    if parts.len() == 0 {
        Ok(Seq::empty())
    } else {
        match csv_fields(parts.drop_last()) {
            Err(e) => Err(e),
            Ok(row) => {
                let p = parts.last();
                if p.len() == 0 {
                    Ok(row)
                } else {
                    match unsigned_value(p, usize::MAX as int) {
                        Some(v) => Ok(row.push(v as usize)),
                        None => Err(p),
                    }
                }
            },
        }
    }
}

/// The rows of tile data that the lines of CSV give, read in order up to
/// the first bad line, and its fault if there is one: blank lines are
/// skipped, and every row must be `width` long.
pub open spec fn data_rows(lines: Seq<Seq<char>>, width: u32) -> (Seq<Seq<usize>>, Option<DataFault>)
    decreases lines.len(),
{
    if lines.len() == 0 {
        (Seq::empty(), None)
    } else {
        let (rows, fault) = data_rows(lines.drop_last(), width);
        if fault is Some {
            (rows, fault)
        } else {
            let t = trim_seq(lines.last());
            if t.len() == 0 {
                (rows, None)
            } else {
                match csv_fields(split_seq(t, ',')) {
                    Err(p) => (rows, Some(DataFault::BadNumber(p))),
                    Ok(row) => if row.len() != width {
                        (rows, Some(DataFault::RowWidth(row.len() as int)))
                    } else {
                        (rows.push(row), None)
                    },
                }
            }
        }
    }
}

/// The tile ids of a row as numbers.
pub open spec fn row_view(row: Seq<TileIndex>) -> Seq<usize> {
    row.map_values(|t: TileIndex| t.0)
}

/// Reads one line of CSV.
fn parse_row(line: &str) -> (r: Result<Vec<TileIndex>, Error>)
    ensures
        match csv_fields(split_seq(line@, ',')) {
            Ok(row) => r matches Ok(v) && row_view(v@) == row,
            Err(p) => r matches Err(Error::InvalidNumber(t)) && t@ == p,
        },
{
    let parts = split_on(line, ',');
    let ghost all = split_seq(line@, ',');
    let mut row: Vec<TileIndex> = Vec::new();
    let mut i: usize = 0;
    proof {
        assert(all.take(0) =~= Seq::<Seq<char>>::empty());
        assert(row_view(row@) =~= Seq::<usize>::empty());
    }
    while i < parts.len()
        invariant
            parts@.len() == all.len(),
            forall|j: int| 0 <= j < parts@.len() ==> #[trigger] parts@[j]@ == all[j],
            all == split_seq(line@, ','),
            i <= parts@.len(),
            csv_fields(all.take(i as int)) == Ok::<Seq<usize>, Seq<char>>(row_view(row@)),
        decreases parts.len() - i,
    {
        let part = parts[i];
        let ghost before = row_view(row@);
        proof {
            assert(all.take(i + 1).drop_last() =~= all.take(i as int));
            assert(all.take(i + 1).last() == part@);
            assert(all.take(i + 1).len() == i + 1);
        }
        if part.unicode_len() == 0 {
            proof {
                assert(csv_fields(all.take(i + 1)) == Ok::<Seq<usize>, Seq<char>>(before));
            }
            i = i + 1;
            continue;
        }
        match parse_usize(part) {
            Some(v) => {
                row.push(TileIndex::new(v));
                proof {
                    assert(row_view(row@) =~= before.push(v));
                    assert(csv_fields(all.take(i + 1)) == Ok::<Seq<usize>, Seq<char>>(before.push(v)));
                }
            },
            None => {
                proof {
                    lemma_csv_stops(all, i as int);
                }
                return Err(Error::InvalidNumber(part.to_owned()));
            },
        }
        i = i + 1;
    }
    proof {
        assert(all.take(i as int) =~= all);
    }
    Ok(row)
}

/// Once a field is bad, the fields after it change nothing.
proof fn lemma_csv_stops(all: Seq<Seq<char>>, i: int)
    requires
        0 <= i < all.len(),
        csv_fields(all.take(i)) is Ok,
        all[i].len() > 0,
        unsigned_value(all[i], usize::MAX as int) is None,
    ensures
        csv_fields(all) == Err::<Seq<usize>, Seq<char>>(all[i]),
    decreases all.len() - i,
{
    if i + 1 == all.len() {
        assert(all.drop_last() =~= all.take(i));
    } else {
        assert(all.drop_last().take(i) =~= all.take(i));
        assert(all.drop_last()[i] == all[i]);
        lemma_csv_stops(all.drop_last(), i);
    }
}

/// Once a line is bad, the lines after it change nothing.
proof fn lemma_rows_stop(all: Seq<Seq<char>>, width: u32, i: int)
    requires
        0 <= i < all.len(),
        data_rows(all.take(i), width).1 is None,
        data_rows(all.take(i + 1), width).1 is Some,
    ensures
        data_rows(all, width) == data_rows(all.take(i + 1), width),
    decreases all.len() - i,
{
    if i + 1 == all.len() {
        assert(all.take(i + 1) =~= all);
    } else {
        assert(all.drop_last().take(i) =~= all.take(i));
        assert(all.drop_last().take(i + 1) =~= all.take(i + 1));
        lemma_rows_stop(all.drop_last(), width, i);
    }
}

/// The rows of a layer as numbers.
pub open spec fn rows_view(data: Seq<Vec<TileIndex>>) -> Seq<Seq<usize>> {
    data.map_values(|r: Vec<TileIndex>| row_view(r@))
}

/// Whether the player flag of a layer's properties reads: its value, or
/// false where it is absent.
pub open spec fn player_flag(m: Map<Seq<char>, PropertyView>) -> Option<bool> {
    crate::properties::bool_or(m, "player"@, false)
}

/// The map that a `<properties>` element gives, if every property in it
/// reads; no element gives the empty map.
pub open spec fn xml_props_map(props: Option<PropertiesXml>) -> Option<Map<Seq<char>, PropertyView>> {
    match props {
        None => Some(Map::empty()),
        Some(p) => if crate::properties::all_valid(p.property@) {
            Some(crate::properties::bindings_map(crate::properties::valid_bindings(p.property@)))
        } else {
            None
        },
    }
}

/// The player flag of a layer's `<properties>`, if they read: false where
/// there are none or the flag is absent.
pub open spec fn layer_props(props: Option<PropertiesXml>) -> Option<bool> {
    match xml_props_map(props) {
        None => None,
        Some(m) => player_flag(m),
    }
}

/// Reads a `<properties>` element, or gives the empty map where there is none.
fn read_props(props: &Option<PropertiesXml>) -> (r: Result<PropertyMap, Error>)
    ensures
        match xml_props_map(*props) {
            Some(m) => r matches Ok(pm) && pm@ == m,
            None => r is Err,
        },
{
    match props {
        Some(p) => PropertyMap::from_xml(p),
        None => Ok(PropertyMap::new()),
    }
}

/// An `<object>` element.
pub struct ObjectXml {
    pub id: i32,
    pub x: i32,
    pub y: i32,
    pub width: Option<i32>,
    pub height: Option<i32>,
    pub gid: Option<u32>,
    pub properties: Option<PropertiesXml>,
}

/// The properties of an object: its own, over those its tile has in its
/// tileset, if it has a tile; `None` where its own do not read.
pub open spec fn object_map(xml: ObjectXml, sets: Seq<TileSet>) -> Option<Map<Seq<char>, PropertyView>> {
    match xml_props_map(xml.properties) {
        None => None,
        Some(own) => match xml.gid {
            None => Some(own),
            Some(g) => {
                let ts = sets[lookup_index(sets, g as usize)];
                match ts.spec_tile_properties(LocalTileIndex((g - ts.firstgid.0) as usize)) {
                    Some(tp) => Some(tp.raw@.union_prefer_right(own)),
                    None => Some(own),
                }
            },
        },
    }
}

/// Where an object stands: tile objects are placed by their bottom edge.
pub open spec fn object_position(xml: ObjectXml) -> Rect<Pixels> {
    let w = match xml.width { Some(w) => w as int, None => 0 };
    let h = match xml.height { Some(h) => h as int, None => 0 };
    let y = if xml.gid is Some { xml.y - h } else { xml.y as int };
    Rect { x: Pixels(xml.x), y: Pixels(y as i32), w: Pixels(w as i32), h: Pixels(h as i32) }
}

/// What reading an `<object>` element gives, as `MapObject::new` reads it.
pub open spec fn object_fits(xml: ObjectXml, sets: Seq<TileSet>, r: Result<MapObject, Error>) -> bool {
    match object_map(xml, sets) {
        None => r is Err,
        Some(m) => {
            &&& r is Ok <==> object_properties_valid(m)
            &&& r matches Ok(o) ==> {
                &&& o.id == xml.id
                &&& o.gid == match xml.gid { Some(g) => Some(TileIndex(g as usize)), None => None }
                &&& o.position == object_position(xml)
                &&& MapObjectProperties::fields_match(o.properties, m)
            }
        },
    }
}

/// Whether an `<object>` element reads without error.
pub open spec fn object_reads(xml: ObjectXml, sets: Seq<TileSet>) -> bool {
    object_map(xml, sets) matches Some(m) && object_properties_valid(m)
}

/// Whether an `<object>` element can be read at all: its tile, if any, has a
/// tileset, and its top edge is an `i32`.
pub open spec fn object_placeable(xml: ObjectXml, sets: Seq<TileSet>) -> bool {
    let h = match xml.height { Some(h) => h as int, None => 0 };
    &&& xml.gid matches Some(g) ==> has_tileset(sets, g as usize)
    &&& xml.gid is Some ==> i32::MIN <= xml.y - h <= i32::MAX
}

impl MapObject {
    /// The object of an `<object>` element. An object with a tile takes the
    /// properties of that tile as defaults, and its `y` gives its bottom edge.
    pub fn new(xml: &ObjectXml, tilesets: &TileSetList) -> (r: Result<MapObject, Error>)
        requires
            object_placeable(*xml, tilesets.tilesets@),
        ensures
            object_fits(*xml, tilesets.tilesets@, r),
    {
        let mut properties = read_props(&xml.properties)?;
        let width = match xml.width { Some(w) => w, None => 0 };
        let height = match xml.height { Some(h) => h, None => 0 };
        let mut y = xml.y;
        let gid = match xml.gid {
            Some(index) => Some(TileIndex::new(index as usize)),
            None => None,
        };
        if let Some(g) = gid {
            let (tileset, tile_id) = tilesets.lookup(g);
            if let Some(props) = tileset.get_tile_properties(tile_id) {
                properties.set_defaults(&props.raw);
            }
            y = y - height;
        }
        let position = Rect { x: Pixels::new(xml.x), y: Pixels::new(y), w: Pixels::new(width), h: Pixels::new(height) };
        let properties = MapObjectProperties::from_properties(properties)?;
        Ok(MapObject { id: xml.id, gid, position, properties })
    }
}

/// What reading a `<layer>` element gives: an error where its properties do
/// not read, the first bad line of its data, or a row count other than its
/// height; else the layer with those rows.
pub open spec fn layer_fits(xml: LayerXml, r: Result<TileLayer, Error>) -> bool {
    let (rows, fault) = data_rows(split_seq(xml.data.data@, '\n'), xml.width);
    let props = layer_props(xml.properties);
    &&& props is None ==> r is Err
    &&& props matches Some(player) ==> {
        &&& (fault matches Some(DataFault::BadNumber(p)) ==> (r matches Err(Error::InvalidNumber(t)) && t@ == p))
        &&& (fault matches Some(DataFault::RowWidth(n)) ==> r == Err::<TileLayer, Error>(Error::RowWidth { row_len: n as usize, width: xml.width }))
        &&& (fault is None && rows.len() != xml.height ==> r == Err::<TileLayer, Error>(Error::LayerHeight { rows: rows.len() as usize, height: xml.height }))
        &&& (fault is None && rows.len() == xml.height ==> (r matches Ok(l) && {
            &&& rows_view(l.data@) == rows
            &&& l.id == xml.id
            &&& l.name@ == xml.name@
            &&& l.width == xml.width
            &&& l.height == xml.height
            &&& l.player == player
        }))
    }
}

/// Whether a `<layer>` element reads without error.
pub open spec fn layer_reads(xml: LayerXml) -> bool {
    let (rows, fault) = data_rows(split_seq(xml.data.data@, '\n'), xml.width);
    &&& layer_props(xml.properties) is Some
    &&& fault is None
    &&& rows.len() == xml.height
}

/// Whether a `<layer>` element marks the player's layer.
pub open spec fn layer_is_player(xml: LayerXml) -> bool {
    layer_props(xml.properties) == Some(true)
}

impl TileLayer {
    /// The tile layer of a `<layer>` element: its CSV data, one row per
    /// non-blank line, must be as wide and as high as the layer, and its
    /// `player` property marks the player's layer.
    pub fn from_xml(xml: &LayerXml) -> (r: Result<TileLayer, Error>)
        ensures
            layer_fits(*xml, r),
    {
        let props = read_props(&xml.properties)?;
        let player = match props.get_bool("player")? {
            Some(b) => b,
            None => false,
        };
        let lines = split_on(xml.data.data.as_str(), '\n');
        let ghost all = split_seq(xml.data.data@, '\n');
        let mut data: Vec<Vec<TileIndex>> = Vec::new();
        let mut i: usize = 0;
        while i < lines.len()
            invariant
                lines@.len() == all.len(),
                forall|j: int| 0 <= j < lines@.len() ==> #[trigger] lines@[j]@ == all[j],
                all == split_seq(xml.data.data@, '\n'),
                i <= lines@.len(),
                data_rows(all.take(i as int), xml.width).1 is None,
                rows_view(data@) == data_rows(all.take(i as int), xml.width).0,
            decreases lines.len() - i,
        {
            let line = trim(lines[i]);
            proof {
                assert(all.take(i + 1).drop_last() =~= all.take(i as int));
                assert(all.take(i + 1).last() == lines@[i as int]@);
            }
            if line.unicode_len() == 0 {
                i = i + 1;
                continue;
            }
            let row = match parse_row(line) {
                Ok(row) => row,
                Err(e) => {
                    proof {
                        lemma_rows_stop(all, xml.width, i as int);
                    }
                    return Err(e);
                },
            };
            if row.len() as u64 != xml.width as u64 {
                proof {
                    lemma_rows_stop(all, xml.width, i as int);
                }
                return Err(Error::RowWidth { row_len: row.len(), width: xml.width });
            }
            data.push(row);
            proof {
                assert(rows_view(data@) =~= rows_view(data@.drop_last()).push(row_view(row@)));
            }
            i = i + 1;
        }
        proof {
            assert(all.take(i as int) =~= all);
        }
        if data.len() as u64 != xml.height as u64 {
            return Err(Error::LayerHeight { rows: data.len(), height: xml.height });
        }
        Ok(TileLayer { id: xml.id, name: xml.name.clone(), width: xml.width, height: xml.height, data, player })
    }
}

/// A `<tileset>` reference of a map: the tileset file and the first global
/// id of its tiles.
pub struct TileSetSourceXml {
    pub source: String,
    pub firstgid: usize,
}

/// The `<image>` of an image layer.
pub struct ImageXml {
    pub source: String,
}

/// An `<imagelayer>` element.
pub struct ImageLayerXml {
    pub id: i32,
    pub image: ImageXml,
}

/// An `<objectgroup>` element.
pub struct ObjectGroupXml {
    pub object: Vec<ObjectXml>,
}

/// A child element of a `<map>`, in file order.
pub enum TileMapField {
    TileSet(TileSetSourceXml),
    Properties(PropertiesXml),
    ObjectGroup(ObjectGroupXml),
    Layer(LayerXml),
    ImageLayer(ImageLayerXml),
}

/// A `<map>` element.
pub struct TileMapXml {
    pub width: i32,
    pub height: i32,
    pub tilewidth: i32,
    pub tileheight: i32,
    /// `#000000` where the file gives none.
    pub backgroundcolor: String,
    pub fields: Vec<TileMapField>,
    pub properties: Option<PropertiesXml>,
}

/// The tile and image layers among the fields, in order.
pub open spec fn layer_fields(fields: Seq<TileMapField>) -> Seq<TileMapField>
    decreases fields.len(),
{
    if fields.len() == 0 {
        Seq::empty()
    } else {
        let rest = layer_fields(fields.drop_last());
        match fields.last() {
            TileMapField::Layer(_) => rest.push(fields.last()),
            TileMapField::ImageLayer(_) => rest.push(fields.last()),
            _ => rest,
        }
    }
}

/// How many image layers there are among the fields.
pub open spec fn image_count(fields: Seq<TileMapField>) -> int
    decreases fields.len(),
{
    if fields.len() == 0 {
        0
    } else {
        image_count(fields.drop_last()) + if fields.last() is ImageLayer { 1int } else { 0int }
    }
}

proof fn lemma_layer_fields_split(fields: Seq<TileMapField>, i: int)
    requires
        0 <= i <= fields.len(),
    ensures
        layer_fields(fields) == layer_fields(fields.take(i)) + layer_fields(fields.skip(i)),
    decreases fields.len() - i,
{
    if i == fields.len() {
        assert(fields.take(i) =~= fields);
        assert(fields.skip(i) =~= Seq::<TileMapField>::empty());
        assert(layer_fields(fields.take(i)) + Seq::<TileMapField>::empty() =~= layer_fields(fields.take(i)));
    } else {
        lemma_layer_fields_split(fields.drop_last(), i);
        assert(fields.drop_last().take(i) =~= fields.take(i));
        assert(fields.skip(i).drop_last() =~= fields.drop_last().skip(i));
        assert(fields.skip(i).last() == fields.last());
        let a = layer_fields(fields.take(i));
        let b = layer_fields(fields.drop_last().skip(i));
        assert((a + b).push(fields.last()) =~= a + b.push(fields.last()));
    }
}

proof fn lemma_image_count_concat(a: Seq<TileMapField>, b: Seq<TileMapField>)
    ensures
        image_count(a + b) == image_count(a) + image_count(b),
    decreases b.len(),
{
    if b.len() == 0 {
        assert(a + b =~= a);
    } else {
        assert((a + b).drop_last() =~= a + b.drop_last());
        lemma_image_count_concat(a, b.drop_last());
    }
}

/// The objects of all object groups among the fields, in order.
pub open spec fn object_fields(fields: Seq<TileMapField>) -> Seq<ObjectXml>
    decreases fields.len(),
{
    if fields.len() == 0 {
        Seq::empty()
    } else {
        let rest = object_fields(fields.drop_last());
        match fields.last() {
            TileMapField::ObjectGroup(g) => rest + g.object@,
            _ => rest,
        }
    }
}

/// Whether a layer field is a tile layer marked as the player's.
pub open spec fn is_player_field(f: TileMapField) -> bool {
    f matches TileMapField::Layer(l) && layer_is_player(l)
}

/// Whether some layer among the fields is the player's.
pub open spec fn has_player_layer(fields: Seq<TileMapField>) -> bool {
    exists|k: int| 0 <= k < layer_fields(fields).len() && #[trigger] is_player_field(layer_fields(fields)[k])
}

/// Whether a field reads, after fields among which a player layer was or
/// was not seen.
pub open spec fn field_reads(f: TileMapField, sets: Seq<TileSet>, player_seen: bool) -> bool {
    match f {
        TileMapField::Layer(l) => layer_reads(l) && !(player_seen && layer_is_player(l)),
        TileMapField::ObjectGroup(g) => forall|k: int| 0 <= k < g.object@.len() ==> #[trigger] object_reads(g.object@[k], sets),
        _ => true,
    }
}

/// Whether every field reads.
pub open spec fn fields_read(fields: Seq<TileMapField>, sets: Seq<TileSet>) -> bool {
    forall|i: int| 0 <= i < fields.len() ==> #[trigger] field_reads(fields[i], sets, has_player_layer(fields.take(i)))
}

/// Whether `e` is the error that the first bad field gives.
pub open spec fn field_error(f: TileMapField, sets: Seq<TileSet>, player_seen: bool, e: Error) -> bool {
    match f {
        TileMapField::Layer(l) => if !layer_reads(l) {
            layer_fits(l, Err(e))
        } else {
            e == Error::TooManyPlayerLayers
        },
        TileMapField::ObjectGroup(g) => exists|k: int| {
            &&& 0 <= k < g.object@.len()
            &&& (forall|j: int| 0 <= j < k ==> #[trigger] object_reads(g.object@[j], sets))
            &&& !object_reads(g.object@[k], sets)
            &&& #[trigger] object_fits(g.object@[k], sets, Err(e))
        },
        _ => false,
    }
}

/// Whether a layer was read from a layer field.
pub open spec fn layer_matches(layer: Layer, f: TileMapField, surface: Sprite) -> bool {
    match (layer, f) {
        (Layer::Tile(t), TileMapField::Layer(x)) => layer_fits(x, Ok(t)),
        (Layer::Image(im), TileMapField::ImageLayer(x)) => im.source@ == x.image.source@ && im.surface == surface,
        _ => false,
    }
}

/// The image that the `k`-th layer field takes, if it is an image layer.
pub open spec fn surface_of(ls: Seq<TileMapField>, k: int, images: Seq<Sprite>) -> Sprite {
    images[image_count(ls.take(k))]
}

proof fn lemma_image_count_nonneg(s: Seq<TileMapField>)
    ensures
        image_count(s) >= 0,
    decreases s.len(),
{
    if s.len() > 0 {
        lemma_image_count_nonneg(s.drop_last());
    }
}

/// Adding a layer field keeps the images of the fields before it.
proof fn lemma_surfaces_kept(ls: Seq<TileMapField>, f: TileMapField, images: Seq<Sprite>)
    ensures
        forall|k: int| 0 <= k < ls.len() ==> #[trigger] surface_of(ls.push(f), k, images) == surface_of(ls, k, images),
        image_count(ls.push(f)) == image_count(ls) + if f is ImageLayer { 1int } else { 0int },
{
    assert(ls.push(f).drop_last() =~= ls);
    assert forall|k: int| 0 <= k < ls.len() implies #[trigger] surface_of(ls.push(f), k, images) == surface_of(ls, k, images) by {
        assert(ls.push(f).take(k) =~= ls.take(k));
    }
}

/// Whether the map's own properties read.
pub open spec fn map_props_read(props: Option<PropertiesXml>) -> bool {
    xml_props_map(props) matches Some(m) && bool_or(m, "is_dark"@, false) is Some && int_opt(m, "gravity"@) is Some
}

/// Whether every object of the map can be read at all.
pub open spec fn objects_placeable(fields: Seq<TileMapField>, sets: Seq<TileSet>) -> bool {
    forall|i: int, k: int| 0 <= i < fields.len() ==> #[trigger] group_placeable(fields[i], k, sets)
}

/// Whether the `k`-th object of a field, if it is an object group that has
/// one, can be read at all.
pub open spec fn group_placeable(f: TileMapField, k: int, sets: Seq<TileSet>) -> bool {
    match f {
        TileMapField::ObjectGroup(g) => 0 <= k < g.object@.len() ==> object_placeable(g.object@[k], sets),
        _ => true,
    }
}

impl TileMap {
    /// The map of a `<map>` element, with its tilesets, and the images of its
    /// image layers in file order, already loaded. Its
    /// background colour must read, it needs a tileset, its layers and
    /// objects are read in file order, at most one layer may be the
    /// player's, and its properties give `is_dark` and `gravity`.
    pub fn from_xml(xml: TileMapXml, tilesets: TileSetList, images: Vec<Sprite>) -> (r: Result<TileMap, Error>)
        requires
            tilesets.sorted(),
            images@.len() == image_count(layer_fields(xml.fields@)),
            xml.fields@.len() <= i32::MAX,
            objects_placeable(xml.fields@, tilesets.tilesets@),
        ensures
            ({
                let sets = tilesets.tilesets@;
                let fields = xml.fields@;
                &&& r is Ok <==> (color_of(xml.backgroundcolor@) is Some && sets.len() > 0
                    && fields_read(fields, sets) && map_props_read(xml.properties))
                &&& color_of(xml.backgroundcolor@) is None ==> (r matches Err(Error::InvalidColor(t))
                    && t@ == xml.backgroundcolor@)
                &&& (color_of(xml.backgroundcolor@) is Some && sets.len() == 0) ==> r == Err::<TileMap, Error>(Error::NoTilesets)
                &&& (color_of(xml.backgroundcolor@) is Some && sets.len() > 0 && !fields_read(fields, sets))
                    ==> (r matches Err(e) && exists|i: int| {
                        &&& 0 <= i < fields.len()
                        &&& (forall|j: int| 0 <= j < i ==> #[trigger] field_reads(fields[j], sets, has_player_layer(fields.take(j))))
                        &&& !field_reads(fields[i], sets, has_player_layer(fields.take(i)))
                        &&& #[trigger] field_error(fields[i], sets, has_player_layer(fields.take(i)), e)
                    })
                &&& r matches Ok(m) ==> {
                    &&& m.width == xml.width
                    &&& m.height == xml.height
                    &&& m.tilewidth == Pixels(xml.tilewidth)
                    &&& m.tileheight == Pixels(xml.tileheight)
                    &&& Some(m.backgroundcolor) == color_of(xml.backgroundcolor@)
                    &&& m.tilesets == tilesets
                    &&& m.layers@.len() == layer_fields(fields).len()
                    &&& (forall|k: int| 0 <= k < m.layers@.len() ==> #[trigger] layer_matches(m.layers@[k], layer_fields(fields)[k], surface_of(layer_fields(fields), k, images@)))
                    &&& m.objects@.len() == object_fields(fields).len()
                    &&& (forall|k: int| 0 <= k < m.objects@.len() ==> #[trigger] object_fits(object_fields(fields)[k], sets, Ok(m.objects@[k])))
                    &&& match m.player_layer {
                        Some(p) => 0 <= p < m.layers@.len() && is_player_field(layer_fields(fields)[p as int])
                            && forall|k: int| 0 <= k < m.layers@.len() && k != p ==> !#[trigger] is_player_field(layer_fields(fields)[k]),
                        None => forall|k: int| 0 <= k < m.layers@.len() ==> !#[trigger] is_player_field(layer_fields(fields)[k]),
                    }
                    &&& xml_props_map(xml.properties) matches Some(pm) && m.properties.dark == bool_or(pm, "is_dark"@, false).unwrap()
                    &&& match int_opt(xml_props_map(xml.properties).unwrap(), "gravity"@).unwrap() {
                        Some(g) => m.properties.gravity == Some(Subpixels(g)),
                        None => m.properties.gravity is None,
                    }
                }
            }),
    {
        let backgroundcolor = Color::parse(xml.backgroundcolor.as_str())?;
        if tilesets.tilesets.len() == 0 {
            return Err(Error::NoTilesets);
        }
        let ghost sets = tilesets.tilesets@;
        let ghost fields = xml.fields@;
        let mut layers: Vec<Layer> = Vec::new();
        let mut objects: Vec<MapObject> = Vec::new();
        let mut player_layer: Option<i32> = None;
        let mut i: usize = 0;
        let mut img: usize = 0;
        proof {
            assert(fields.take(0) =~= Seq::<TileMapField>::empty());
        }
        while i < xml.fields.len()
            invariant
                fields == xml.fields@,
                sets == tilesets.tilesets@,
                sets.len() > 0,
                color_of(xml.backgroundcolor@) == Some(backgroundcolor),
                fields.len() <= i32::MAX,
                objects_placeable(fields, sets),
                i <= fields.len(),
                layers@.len() <= i,
                forall|j: int| 0 <= j < i ==> #[trigger] field_reads(fields[j], sets, has_player_layer(fields.take(j))),
                layers@.len() == layer_fields(fields.take(i as int)).len(),
                forall|k: int| 0 <= k < layers@.len() ==> #[trigger] layer_matches(layers@[k], layer_fields(fields.take(i as int))[k], surface_of(layer_fields(fields.take(i as int)), k, images@)),
                images@.len() == image_count(layer_fields(fields)),
                img <= images@.len(),
                img == image_count(layer_fields(fields.take(i as int))),
                objects@.len() == object_fields(fields.take(i as int)).len(),
                forall|k: int| 0 <= k < objects@.len() ==> #[trigger] object_fits(object_fields(fields.take(i as int))[k], sets, Ok(objects@[k])),
                match player_layer {
                    Some(p) => 0 <= p < layers@.len() && is_player_field(layer_fields(fields.take(i as int))[p as int])
                        && forall|k: int| 0 <= k < layers@.len() && k != p ==> !#[trigger] is_player_field(layer_fields(fields.take(i as int))[k]),
                    None => forall|k: int| 0 <= k < layers@.len() ==> !#[trigger] is_player_field(layer_fields(fields.take(i as int))[k]),
                },
            decreases fields.len() - i,
        {
            let ghost pre = fields.take(i as int);
            let ghost next = fields.take(i + 1);
            proof {
                assert(next.drop_last() =~= pre);
                assert(next.last() == fields[i as int]);
                assert(has_player_layer(pre) <==> player_layer is Some);
            }
            match &xml.fields[i] {
                TileMapField::Layer(lx) => {
                    let layer = match TileLayer::from_xml(lx) {
                        Ok(l) => l,
                        Err(e) => {
                            proof {
                                assert(field_error(fields[i as int], sets, has_player_layer(pre), e));
                                assert(!field_reads(fields[i as int], sets, has_player_layer(fields.take(i as int))));
                                assert(!fields_read(fields, sets));
                            }
                            return Err(e);
                        },
                    };
                    if layer.player {
                        if player_layer.is_some() {
                            proof {
                                assert(field_error(fields[i as int], sets, has_player_layer(pre), Error::TooManyPlayerLayers));
                                assert(!field_reads(fields[i as int], sets, has_player_layer(fields.take(i as int))));
                                assert(!fields_read(fields, sets));
                            }
                            return Err(Error::TooManyPlayerLayers);
                        }
                        player_layer = Some(layers.len() as i32);
                    }
                    layers.push(Layer::Tile(layer));
                    proof {
                        assert(layer_fields(next) =~= layer_fields(pre).push(fields[i as int]));
                        assert(object_fields(next) =~= object_fields(pre));
                        lemma_surfaces_kept(layer_fields(pre), fields[i as int], images@);
                        assert(layer_matches(layers@[layers@.len() - 1], layer_fields(next)[layers@.len() - 1], surface_of(layer_fields(next), layers@.len() - 1, images@)));
                    }
                },
                TileMapField::ImageLayer(ix) => {
                    proof {
                        lemma_layer_fields_split(fields, i as int);
                        lemma_layer_fields_split(fields.skip(i as int), 1);
                        assert(fields.skip(i as int).take(1) =~= seq![fields[i as int]]);
                        assert(seq![fields[i as int]].drop_last() =~= Seq::<TileMapField>::empty());
                        assert(seq![fields[i as int]].last() == fields[i as int]);
                        assert(layer_fields(Seq::<TileMapField>::empty()) == Seq::<TileMapField>::empty());
                        assert(layer_fields(seq![fields[i as int]]) =~= seq![fields[i as int]]);
                        assert(image_count(Seq::<TileMapField>::empty()) == 0);
                        assert(image_count(seq![fields[i as int]]) == 1);
                        lemma_image_count_concat(layer_fields(pre), layer_fields(fields.skip(i as int)));
                        lemma_image_count_concat(seq![fields[i as int]], layer_fields(fields.skip(i as int).skip(1)));
                        assert(seq![fields[i as int]].drop_last() =~= Seq::<TileMapField>::empty());
                        lemma_image_count_nonneg(layer_fields(fields.skip(i as int).skip(1)));
                    }
                    let surface = images[img];
                    assert(img < images.len());
                    layers.push(Layer::Image(ImageLayer { source: ix.image.source.clone(), surface }));
                    proof {
                        assert(layer_fields(next) =~= layer_fields(pre).push(fields[i as int]));
                        assert(object_fields(next) =~= object_fields(pre));
                        lemma_surfaces_kept(layer_fields(pre), fields[i as int], images@);
                        assert(layer_fields(next).take(layers@.len() - 1) =~= layer_fields(pre));
                    }
                    img = img + 1;
                },
                TileMapField::ObjectGroup(g) => {
                    let mut k: usize = 0;
                    let ghost start = objects@.len();
                    while k < g.object.len()
                        invariant
                            fields == xml.fields@,
                            sets == tilesets.tilesets@,
                            sets.len() > 0,
                            color_of(xml.backgroundcolor@) == Some(backgroundcolor),
                            objects_placeable(fields, sets),
                            0 <= i < fields.len(),
                            pre == fields.take(i as int),
                            forall|j: int| 0 <= j < i ==> #[trigger] field_reads(fields[j], sets, has_player_layer(fields.take(j))),
                            fields[i as int] matches TileMapField::ObjectGroup(gg) && gg.object@ == g.object@,
                            k <= g.object@.len(),
                            start == object_fields(pre).len(),
                            objects@.len() == start + k,
                            forall|j: int| 0 <= j < k ==> #[trigger] object_reads(g.object@[j], sets),
                            forall|m: int| 0 <= m < objects@.len() ==> #[trigger] object_fits((object_fields(pre) + g.object@)[m], sets, Ok(objects@[m])),
                        decreases g.object.len() - k,
                    {
                        proof {
                            assert(group_placeable(fields[i as int], k as int, sets));
                        }
                        match MapObject::new(&g.object[k], &tilesets) {
                            Ok(o) => {
                                objects.push(o);
                                proof {
                                    assert((object_fields(pre) + g.object@)[start + k] == g.object@[k as int]);
                                }
                            },
                            Err(e) => {
                                proof {
                                    assert(object_fits(g.object@[k as int], sets, Err(e)));
                                    assert(!object_reads(g.object@[k as int], sets));
                                    assert(field_error(fields[i as int], sets, has_player_layer(pre), e));
                                    assert(!field_reads(fields[i as int], sets, has_player_layer(fields.take(i as int))));
                                    assert(!fields_read(fields, sets));
                                }
                                return Err(e);
                            },
                        }
                        k = k + 1;
                    }
                    proof {
                        assert(object_fields(next) =~= object_fields(pre) + g.object@);
                        assert(layer_fields(next) =~= layer_fields(pre));
                    }
                },
                _ => {
                    proof {
                        assert(object_fields(next) =~= object_fields(pre));
                        assert(layer_fields(next) =~= layer_fields(pre));
                    }
                },
            }
            i = i + 1;
        }
        proof {
            assert(fields.take(i as int) =~= fields);
        }
        let props = read_props(&xml.properties)?;
        let properties = TileMapProperties::from_properties(&props)?;
        Ok(TileMap {
            width: xml.width,
            height: xml.height,
            tilewidth: Pixels::new(xml.tilewidth),
            tileheight: Pixels::new(xml.tileheight),
            backgroundcolor,
            tilesets,
            layers,
            player_layer,
            objects,
            properties,
        })
    }
}

/// Whether every object of a map's fields can be read at all, as
/// `TileMap::from_xml` needs.
pub fn objects_placeable_check(fields: &Vec<TileMapField>, tilesets: &TileSetList) -> (r: bool)
    ensures
        r == objects_placeable(fields@, tilesets.tilesets@),
{
    let mut i: usize = 0;
    while i < fields.len()
        invariant
            i <= fields@.len(),
            forall|j: int, k: int| 0 <= j < i ==> #[trigger] group_placeable(fields@[j], k, tilesets.tilesets@),
        decreases fields.len() - i,
    {
        if let TileMapField::ObjectGroup(g) = &fields[i] {
            let mut k: usize = 0;
            while k < g.object.len()
                invariant
                    i < fields@.len(),
                    k <= g.object@.len(),
                    fields@[i as int] matches TileMapField::ObjectGroup(gg) && gg.object@ == g.object@,
                    forall|m: int| 0 <= m < k ==> object_placeable(#[trigger] g.object@[m], tilesets.tilesets@),
                decreases g.object.len() - k,
            {
                let o = &g.object[k];
                let h: i64 = match o.height { Some(h) => h as i64, None => 0 };
                if let Some(gid) = o.gid {
                    if !has_tileset_check(tilesets, gid as usize) {
                        proof {
                            assert(!group_placeable(fields@[i as int], k as int, tilesets.tilesets@));
                        }
                        return false;
                    }
                    let top: i64 = o.y as i64 - h;
                    if top < i32::MIN as i64 || top > i32::MAX as i64 {
                        proof {
                            assert(!group_placeable(fields@[i as int], k as int, tilesets.tilesets@));
                        }
                        return false;
                    }
                }
                k = k + 1;
            }
            proof {
                assert forall|kk: int| #[trigger] group_placeable(fields@[i as int], kk, tilesets.tilesets@) by {
                    if 0 <= kk < g.object@.len() {
                        assert(object_placeable(g.object@[kk], tilesets.tilesets@));
                    }
                }
            }
        }
        i = i + 1;
    }
    true
}

/// Whether some tileset starts at or before a global id.
fn has_tileset_check(tilesets: &TileSetList, gid: usize) -> (r: bool)
    ensures
        r == has_tileset(tilesets.tilesets@, gid),
{
    let mut i: usize = 0;
    while i < tilesets.tilesets.len()
        invariant
            i <= tilesets.tilesets@.len(),
            forall|j: int| 0 <= j < i ==> tilesets.tilesets@[j].firstgid.0 > gid,
        decreases tilesets.tilesets.len() - i,
    {
        if tilesets.tilesets[i].firstgid.0 <= gid {
            return true;
        }
        i = i + 1;
    }
    false
}

} // verus!
