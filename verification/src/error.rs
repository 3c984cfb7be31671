//! The errors that the library reports.
use vstd::prelude::*;

verus! {

/// Why a map, its properties, or an input record could not be read.
#[derive(Debug, Clone, PartialEq, Eq)]
pub enum Error {
    /// A `direction` property other than `N`, `S`, `E` or `W`.
    InvalidDirection(String),
    /// An `overflow` property other than `oscillate`, `wrap` or `clamp`.
    InvalidOverflow(String),
    /// A `convey` property other than `W` or `E`.
    InvalidConveyorDirection(String),
    /// A `button_type` property other than `oneshot`, `toggle`, `momentary` or `smart`.
    InvalidButtonType(String),
    /// The named property holds a value of another type than the one asked for.
    PropertyNotInt(String),
    PropertyNotString(String),
    PropertyNotBool(String),
    /// A property declared with a type other than `int`, `string` or `bool`.
    InvalidPropertyType(String),
    /// A value that is not a decimal integer of the expected range.
    InvalidNumber(String),
    /// A row of tile data whose length differs from the layer's width.
    RowWidth { row_len: usize, width: u32 },
    /// Tile data whose row count differs from the layer's height.
    LayerHeight { rows: usize, height: u32 },
    /// More than one tile layer is marked as the player's layer.
    TooManyPlayerLayers,
    /// A colour that is not `#rrggbb` or `#aarrggbb`.
    InvalidColor(String),
    /// A map without any tileset.
    NoTilesets,
    /// An object that needs a tile id has none.
    MissingGid,
    /// A warp zone without a destination.
    MissingWarpDestination,
    /// A path that climbs above its root with `..`.
    InvalidPath(String),
    /// A path that names no file.
    FileNotFound(String),
    /// A file whose bytes are not UTF-8.
    NotUtf8(String),
    /// Bytes that are not a gzipped tar archive.
    BadArchive,
    /// A texture list that names no image.
    NoImages,
    /// A line of an input record without a comma.
    MissingComma,
    /// A `--record` and a `--playback` option given together.
    ConflictingRecordOptions,
}

} // verus!
