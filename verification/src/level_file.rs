//! An incomplete model of the Tiled Map Editor format.
//! We only define the bare-minimum fields needed to use the level files
//! we're trying to read.
//!
//! Reading a level file (the I/O and the JSON decoding) happens outside this
//! library; the loader hands the decoded values over in these types.
//! Fractional values arrive as subpixels (thousandths), which carry the
//! format's coordinates exactly as far as the game reads them.

use vstd::prelude::*;

verus! {

/// True when the flag is unset. The format omits boolean fields that are
/// false, and this predicate mirrors that rule.
pub fn is_false(x: &bool) -> (r: bool)
    ensures
        r == !*x,
{
    !*x
}

/// A whole level file.
#[derive(Debug, Clone)]
pub struct Level {
    pub width: u32,
    pub height: u32,
    pub infinite: bool,
    pub layers: Vec<Layer>,
    pub orientation: Orientation,
    pub render_order: RenderOrder,
    pub tiled_version: String,
    pub tile_width: u32,
    pub tile_height: u32,
    pub tile_sets: Vec<TileSet>,
    pub type_: String,
    pub version: u32,
    pub next_object_id: i32,
}

#[derive(Debug, Clone, Copy, PartialEq, Eq, Structural)]
pub enum Orientation {
    Orthogonal,
}

#[derive(Debug, Clone, Copy, PartialEq, Eq, Structural)]
pub enum RenderOrder {
    RightDown,
}

/// One layer of the level: either a grid of tile ids or a group of marker
/// objects.
#[derive(Debug, Clone)]
pub enum Layer {
    TileLayer {
        /// One global tile id per cell, row-major; 0 marks an empty cell.
        data: Vec<u32>,
        width: u32,
        height: u32,
        x: i32,
        y: i32,
        name: String,
        /// In thousandths: 1000 is fully opaque.
        opacity: u32,
        type_: String,
        visible: bool,
    },
    ObjectGroup {
        draw_order: DrawOrder,
        name: String,
        objects: Vec<Object>,
        /// In subpixels.
        offset_x: i64,
        /// In subpixels.
        offset_y: i64,
        /// In thousandths: 1000 is fully opaque.
        opacity: u32,
        type_: String,
        visible: bool,
        x: i32,
        y: i32,
    },
}

#[derive(Debug, Clone, Copy, PartialEq, Eq, Structural)]
pub enum DrawOrder {
    TopDown,
}

/// A marker object. Sizes, coordinates and rotation are in subpixels and
/// millidegrees.
#[derive(Debug, Clone)]
pub struct Object {
    pub width: i64,
    pub height: i64,
    pub x: i64,
    pub y: i64,
    pub rotation: i64,
    pub id: usize,
    pub name: String,
    pub type_: String,
    pub point: bool,
    pub visible: bool,
    /// Present on polyline objects: points relative to (x, y), in subpixels.
    pub polyline: Vec<Coordinate>,
}

/// One polyline point, in subpixels.
#[derive(Debug, Clone, Copy, PartialEq, Eq, Structural)]
pub struct Coordinate {
    pub x: i64,
    pub y: i64,
}

/// A set of tile images the layers draw from.
#[derive(Debug, Clone)]
pub struct TileSet {
    pub columns: u32,
    /// The global tile id of this set's first tile: a cell with global id g
    /// refers to this set's tile g - first_gid.
    pub first_gid: u32,
    pub grid: Grid,
    pub margin: i32,
    pub name: String,
    pub spacing: i32,
    pub tile_count: u32,
    pub tile_width: u32,
    pub tile_height: u32,
    /// The set's tiles, keyed by their set-local tile id.
    pub tiles: Vec<(u64, Tile)>,
}

#[derive(Debug, Clone, Copy, PartialEq, Eq, Structural)]
pub struct Grid {
    pub width: u32,
    pub height: u32,
    pub orientation: Orientation,
}

/// One tile's image: the path of the image file, relative to the level
/// file's directory, and its size in pixels.
#[derive(Debug, Clone)]
pub struct Tile {
    pub image: String,
    pub image_width: u32,
    pub image_height: u32,
}

} // verus!
