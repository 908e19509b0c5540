use vstd::prelude::*;

use crate::level_file as lf;
use crate::level_file::{Layer, Level, Object, TileSet};
use crate::math::{clamp_int, point_from_subpixels, subpixels_to_pixels, Point, Rect, ToPoint, Vec2D};
use crate::registry::{alist_get, alist_has_key, alist_find, lemma_alist_get_has_key};
use crate::texture_manager::TextureId;

verus! {

/// A grid of tiles. Must have at least one row and one column.
#[derive(Debug, Clone)]
pub struct TileGrid(pub Vec<Vec<Option<Tile>>>);

/// Every row of the grid has the same number of columns, and there is at
/// least one row and one column.
pub open spec fn grid_wf(grid: TileGrid) -> bool {
    &&& grid.0@.len() > 0
    &&& grid.0@[0]@.len() > 0
    &&& forall|i: int| 0 <= i < grid.0@.len() ==> #[trigger] grid.0@[i]@.len() == grid.0@[0]@.len()
}

/// The cell of a grid at (row, column).
pub open spec fn grid_cell(grid: TileGrid, row: int, col: int) -> Option<Tile> {
    grid.0@[row]@[col]
}

/// One tile placed on the map: its top-left corner in world pixels and the
/// image it is drawn from.
#[derive(Debug, Clone, Copy, PartialEq, Eq, Structural)]
pub struct Tile {
    pub x: i32,
    pub y: i32,
    pub texture_id: TextureId,
    pub image_width: u32,
    pub image_height: u32,
}

// --- Looking up a cell's tile among the tile sets ---

/// The tile a global tile id refers to: the first tile set whose id range
/// covers it and which has the set-local id wins. Id 0 (an empty cell), and
/// any id no set covers, refer to no tile.
pub open spec fn spec_lookup_tile(tile_sets: Seq<TileSet>, id: u32) -> Option<lf::Tile>
    decreases tile_sets.len(),
{
    if tile_sets.len() == 0 {
        None
    } else {
        let ts = tile_sets[0];
        if ts.first_gid <= id && alist_has_key(ts.tiles@, (id - ts.first_gid) as u64) {
            alist_get(ts.tiles@, (id - ts.first_gid) as u64)
        } else {
            spec_lookup_tile(tile_sets.drop_first(), id)
        }
    }
}

/// Linear scan of the tile sets for a global tile id.
fn lookup_tile<'a>(tile_sets: &'a Vec<TileSet>, id: u32) -> (found: Option<&'a lf::Tile>)
    ensures
        match found {
            Some(t) => spec_lookup_tile(tile_sets@, id) == Some(*t),
            None => spec_lookup_tile(tile_sets@, id) is None,
        },
{
    proof {
        assert(tile_sets@.skip(0) =~= tile_sets@);
    }
    let mut i: usize = 0;
    while i < tile_sets.len()
        invariant
            i <= tile_sets@.len(),
            spec_lookup_tile(tile_sets@, id) == spec_lookup_tile(tile_sets@.skip(i as int), id),
        decreases tile_sets@.len() - i,
    {
        proof {
            assert(tile_sets@.skip(i as int)[0] == tile_sets@[i as int]);
            assert(tile_sets@.skip(i as int).drop_first() =~= tile_sets@.skip(i + 1));
        }
        let ts = &tile_sets[i];
        if ts.first_gid <= id {
            match alist_find(&ts.tiles, ((id - ts.first_gid) as u64)) {
                Some(tile) => {
                    proof {
                        lemma_alist_get_has_key(ts.tiles@, (id - ts.first_gid) as u64);
                    }
                    return Some(tile);
                },
                None => {
                    proof {
                        lemma_alist_get_has_key(ts.tiles@, (id - ts.first_gid) as u64);
                    }
                },
            }
        }
        i = i + 1;
    }
    None
}

// --- Building one tile layer ---

/// The image paths of the textures the first `n` cells of a layer create:
/// one per cell that refers to a tile, in cell order. Each cell creates its
/// own texture, even when two cells share an image.
pub open spec fn spec_layer_paths(tile_sets: Seq<TileSet>, data: Seq<u32>, n: int) -> Seq<String>
    decreases n,
{
    if n <= 0 {
        Seq::<String>::empty()
    } else {
        spec_layer_paths(tile_sets, data, n - 1) + (match spec_lookup_tile(
            tile_sets,
            data[n - 1],
        ) {
            Some(t) => seq![t.image],
            None => Seq::<String>::empty(),
        })
    }
}

/// A cell creates at most one texture.
proof fn lemma_layer_paths_len_monotone(tile_sets: Seq<TileSet>, data: Seq<u32>, a: int, b: int)
    requires
        a <= b,
    ensures
        spec_layer_paths(tile_sets, data, a).len() <= spec_layer_paths(tile_sets, data, b).len(),
    decreases b - a,
{
    if a < b {
        lemma_layer_paths_len_monotone(tile_sets, data, a, b - 1);
    }
}

/// The cell of a built tile layer at (row, col): the tile its id refers to,
/// placed at (col, row) tile sizes from the map's top-left corner, drawn
/// from the texture its cell created — the texture ids continue
/// `first_texture` in cell order.
pub open spec fn spec_cell(
    tile_sets: Seq<TileSet>,
    data: Seq<u32>,
    columns: int,
    tile_width: int,
    tile_height: int,
    first_texture: int,
    row: int,
    col: int,
) -> Option<Tile> {
    let cell = row * columns + col;
    match spec_lookup_tile(tile_sets, data[cell]) {
        Some(t) => Some(
            Tile {
                x: (col * tile_width) as i32,
                y: (row * tile_height) as i32,
                texture_id: TextureId(
                    (first_texture + spec_layer_paths(tile_sets, data, cell).len()) as usize,
                ),
                image_width: t.image_width,
                image_height: t.image_height,
            },
        ),
        None => None,
    }
}

/// A built tile layer: its cells match `spec_cell` everywhere.
pub open spec fn grid_matches(
    grid: TileGrid,
    tile_sets: Seq<TileSet>,
    data: Seq<u32>,
    columns: int,
    rows: int,
    tile_width: int,
    tile_height: int,
    first_texture: int,
) -> bool {
    &&& grid.0@.len() == rows
    &&& forall|r: int| 0 <= r < rows ==> (#[trigger] grid.0@[r])@.len() == columns
    &&& forall|r: int, c: int| 0 <= r < rows && 0 <= c < columns ==> #[trigger] grid_cell(grid, r, c)
        == spec_cell(tile_sets, data, columns, tile_width, tile_height, first_texture, r, c)
}

/// Builds one tile layer's grid, row-major, creating one texture per cell
/// that refers to a tile: it appends that cell's image path to `paths`, and
/// the cell's texture id continues `first_texture` in step with the appended
/// paths.
fn build_tile_grid(
    tile_sets: &Vec<TileSet>,
    data: &Vec<u32>,
    columns: u32,
    rows: u32,
    tile_width: u32,
    tile_height: u32,
    first_texture: usize,
    paths: &mut Vec<String>,
) -> (grid: TileGrid)
    requires
        columns > 0,
        rows > 0,
        tile_width > 0,
        tile_height > 0,
        data@.len() == columns * rows,
        columns * tile_width <= i32::MAX,
        rows * tile_height <= i32::MAX,
        first_texture + spec_layer_paths(tile_sets@, data@, data@.len() as int).len()
            <= usize::MAX,
    ensures
        grid_matches(
            grid,
            tile_sets@,
            data@,
            columns as int,
            rows as int,
            tile_width as int,
            tile_height as int,
            first_texture as int,
        ),
        final(paths)@ == old(paths)@ + spec_layer_paths(tile_sets@, data@, data@.len() as int),
{
    let ghost initial_paths = paths@;
    let entry_len = paths.len();
    let data_len = data.len();
    let mut tile_rows: Vec<Vec<Option<Tile>>> = Vec::new();
    let mut r: u32 = 0;
    while r < rows
        invariant
            r <= rows,
            columns > 0,
            tile_width > 0,
            tile_height > 0,
            data_len == data@.len(),
            data@.len() == columns * rows,
            columns * tile_width <= i32::MAX,
            rows * tile_height <= i32::MAX,
            first_texture + spec_layer_paths(tile_sets@, data@, data@.len() as int).len()
                <= usize::MAX,
            entry_len == initial_paths.len(),
            tile_rows@.len() == r,
            forall|j: int| 0 <= j < r ==> (#[trigger] tile_rows@[j])@.len() == columns,
            forall|j: int, c: int| 0 <= j < r && 0 <= c < columns ==> #[trigger] tile_rows@[j]@[c]
                == spec_cell(
                tile_sets@,
                data@,
                columns as int,
                tile_width as int,
                tile_height as int,
                first_texture as int,
                j,
                c,
            ),
            paths@ == initial_paths + spec_layer_paths(
                tile_sets@,
                data@,
                r as int * columns as int,
            ),
        decreases rows - r,
    {
        proof {
            assert(r as int * columns as int + columns as int <= data@.len()
                && (r as int + 1) * columns as int == r as int * columns as int + columns as int)
                by (nonlinear_arith)
                requires
                    0 <= r as int,
                    (r as int) < (rows as int),
                    columns as int > 0,
                    data@.len() == columns as int * rows as int,
            ;
        }
        let mut tile_row: Vec<Option<Tile>> = Vec::new();
        let mut c: u32 = 0;
        while c < columns
            invariant
                c <= columns,
                r < rows,
                columns > 0,
                tile_width > 0,
                tile_height > 0,
                data_len == data@.len(),
                data@.len() == columns * rows,
                columns * tile_width <= i32::MAX,
                rows * tile_height <= i32::MAX,
                first_texture + spec_layer_paths(tile_sets@, data@, data@.len() as int).len()
                    <= usize::MAX,
                entry_len == initial_paths.len(),
                r as int * columns as int + columns as int <= data@.len(),
                tile_row@.len() == c,
                forall|k: int| 0 <= k < c ==> #[trigger] tile_row@[k] == spec_cell(
                    tile_sets@,
                    data@,
                    columns as int,
                    tile_width as int,
                    tile_height as int,
                    first_texture as int,
                    r as int,
                    k,
                ),
                paths@ == initial_paths + spec_layer_paths(
                    tile_sets@,
                    data@,
                    r as int * columns as int + c as int,
                ),
            decreases columns - c,
        {
            let ghost cell_index = r as int * columns as int + c as int;
            proof {
                lemma_layer_paths_len_monotone(tile_sets@, data@, cell_index + 1, data@.len() as int);
            }
            let cell: usize = (r as usize) * (columns as usize) + (c as usize);
            let id = data[cell];
            let tile = match lookup_tile(tile_sets, id) {
                Some(t) => {
                    proof {
                        assert(c as int * tile_width as int <= columns as int * tile_width as int
                            && columns as int <= columns as int * tile_width as int
                            && tile_width as int <= columns as int * tile_width as int
                            && r as int * tile_height as int <= rows as int * tile_height as int
                            && rows as int <= rows as int * tile_height as int
                            && tile_height as int <= rows as int * tile_height as int) by (nonlinear_arith)
                            requires
                                0 <= c as int,
                                (c as int) <= (columns as int),
                                1 <= columns as int,
                                0 <= r as int,
                                (r as int) <= (rows as int),
                                1 <= rows as int,
                                1 <= tile_width as int,
                                1 <= tile_height as int,
                        ;
                        assert(paths@.len() == initial_paths.len() + spec_layer_paths(
                            tile_sets@,
                            data@,
                            cell_index,
                        ).len());
                    }
                    let texture_id = TextureId(first_texture + (paths.len() - entry_len));
                    paths.push(t.image.clone());
                    proof {
                        assert(paths@ =~= initial_paths + spec_layer_paths(
                            tile_sets@,
                            data@,
                            cell_index + 1,
                        ));
                    }
                    Some(
                        Tile {
                            x: (c as i32) * (tile_width as i32),
                            y: (r as i32) * (tile_height as i32),
                            texture_id,
                            image_width: t.image_width,
                            image_height: t.image_height,
                        },
                    )
                },
                None => {
                    proof {
                        assert(paths@ =~= initial_paths + spec_layer_paths(
                            tile_sets@,
                            data@,
                            cell_index + 1,
                        ));
                    }
                    None
                },
            };
            tile_row.push(tile);
            c = c + 1;
        }
        tile_rows.push(tile_row);
        proof {
            assert forall|j: int, k: int| 0 <= j < r + 1 && 0 <= k < columns implies #[trigger]
                tile_rows@[j]@[k] == spec_cell(
                tile_sets@,
                data@,
                columns as int,
                tile_width as int,
                tile_height as int,
                first_texture as int,
                j,
                k,
            ) by {
                if j < r as int {
                    assert(tile_rows@[j] == tile_rows@.drop_last()[j]);
                }
            }
        }
        r = r + 1;
    }
    proof {
        assert(rows as int * columns as int == data@.len()) by (nonlinear_arith)
            requires
                data@.len() == columns as int * rows as int,
        ;
    }
    TileGrid(tile_rows)
}

// --- Markers ---

/// The state of the marker scan: the level's start point and boundary seen
/// so far (the last marker of a kind wins) and the static boundary
/// polylines, in file order.
pub struct MarkerState {
    pub level_start: Option<Point>,
    pub level_boundary: Option<Rect>,
    pub static_boundaries: Seq<Seq<Vec2D>>,
}

/// A subpixel length as a whole-pixel size: truncated toward zero and
/// saturated at the `u32` range.
pub open spec fn spec_pixel_dimension(v: i64) -> u32 {
    clamp_int(subpixels_to_pixels(v as int), 0, u32::MAX as int) as u32
}

/// A polyline object's points in world subpixels: each point moved by the
/// object's own position.
pub open spec fn spec_object_polyline(o: Object) -> Seq<Vec2D> {
    o.polyline@.map_values(
        |c: lf::Coordinate| Vec2D { x: (c.x + o.x) as i64, y: (c.y + o.y) as i64 },
    )
}

/// The effect of one marker object: a level start point, the level
/// boundary rectangle, or one more static boundary polyline.
pub open spec fn marker_step(st: MarkerState, o: Object) -> MarkerState {
    if o.type_@ == "level_start"@ {
        MarkerState { level_start: Some(point_from_subpixels(o.x as int, o.y as int)), ..st }
    } else if o.type_@ == "level_boundary"@ {
        MarkerState {
            level_boundary: Some(
                Rect {
                    x: point_from_subpixels(o.x as int, o.y as int).x,
                    y: point_from_subpixels(o.x as int, o.y as int).y,
                    width: spec_pixel_dimension(o.width),
                    height: spec_pixel_dimension(o.height),
                },
            ),
            ..st
        }
    } else {
        MarkerState { static_boundaries: st.static_boundaries.push(spec_object_polyline(o)), ..st }
    }
}

/// The effect of one marker group, in object order.
pub open spec fn markers_of_objects(st: MarkerState, objects: Seq<Object>) -> MarkerState
    decreases objects.len(),
{
    if objects.len() == 0 {
        st
    } else {
        marker_step(markers_of_objects(st, objects.drop_last()), objects.last())
    }
}

// --- The layer scan ---

/// A tile layer as the scan keeps it: its cell data, and how many textures
/// the earlier layers created (the layer's tile texture ids continue from
/// there).
pub struct LayerGrid {
    pub data: Seq<u32>,
    pub first_texture: int,
}

/// The state of the layer scan: the last tile layer seen under each
/// recognized name, the image paths of every texture created so far, and
/// the markers.
pub struct LevelBuild {
    pub background: Option<LayerGrid>,
    pub background_items: Option<LayerGrid>,
    pub map_layer: Option<LayerGrid>,
    pub paths: Seq<String>,
    pub markers: MarkerState,
}

/// The scan's starting state: nothing seen.
pub open spec fn empty_build() -> LevelBuild {
    LevelBuild {
        background: None,
        background_items: None,
        map_layer: None,
        paths: Seq::<String>::empty(),
        markers: MarkerState {
            level_start: None,
            level_boundary: None,
            static_boundaries: Seq::<Seq<Vec2D>>::empty(),
        },
    }
}

/// The effect of one layer on the scan: a tile layer lands in the slot its
/// name picks (a later layer of the same name wins) and creates its
/// textures; an object group adds its markers.
pub open spec fn build_step(tile_sets: Seq<TileSet>, st: LevelBuild, layer: Layer) -> LevelBuild {
    match layer {
        Layer::TileLayer { data, name, .. } => {
            let lg = LayerGrid { data: data@, first_texture: st.paths.len() as int };
            let scanned = LevelBuild {
                paths: st.paths + spec_layer_paths(tile_sets, data@, data@.len() as int),
                ..st
            };
            if name@ == "background"@ {
                LevelBuild { background: Some(lg), ..scanned }
            } else if name@ == "background_items"@ {
                LevelBuild { background_items: Some(lg), ..scanned }
            } else if name@ == "map"@ {
                LevelBuild { map_layer: Some(lg), ..scanned }
            } else {
                scanned
            }
        },
        Layer::ObjectGroup { objects, .. } => LevelBuild {
            markers: markers_of_objects(st.markers, objects@),
            ..st
        },
    }
}

/// The effect of the whole layer list, in file order.
pub open spec fn build_layers(tile_sets: Seq<TileSet>, st: LevelBuild, layers: Seq<Layer>) -> LevelBuild
    decreases layers.len(),
{
    if layers.len() == 0 {
        st
    } else {
        build_step(tile_sets, build_layers(tile_sets, st, layers.drop_last()), layers.last())
    }
}

/// Scanning a prefix of the layers creates at most as many textures as
/// scanning all of them.
proof fn lemma_build_paths_prefix(
    tile_sets: Seq<TileSet>,
    st: LevelBuild,
    layers: Seq<Layer>,
    k: int,
)
    requires
        0 <= k <= layers.len(),
    ensures
        build_layers(tile_sets, st, layers.take(k)).paths.len() <= build_layers(
            tile_sets,
            st,
            layers,
        ).paths.len(),
    decreases layers.len(),
{
    if k < layers.len() {
        assert(layers.drop_last().take(k) =~= layers.take(k));
        lemma_build_paths_prefix(tile_sets, st, layers.drop_last(), k);
    } else {
        assert(layers.take(k) =~= layers);
    }
}

// --- Well-formedness of a level ---

/// A tile layer's declared size matches the level and its data fills it,
/// and its name is one of the recognized layer names.
pub open spec fn tile_layer_wf(level: Level, data: Seq<u32>, width: u32, height: u32, name: Seq<char>) -> bool {
    &&& width == level.width
    &&& height == level.height
    &&& data.len() == level.width * level.height
    &&& (name == "background"@ || name == "background_items"@ || name == "map"@)
}

/// A marker object is one of the recognized kinds, is not rotated, and its
/// fields fit its kind: a start point is a point without size; a boundary
/// or static boundary is not a point; a static boundary's points stay in
/// range when moved to the object's position.
pub open spec fn object_wf(o: Object) -> bool {
    if o.type_@ == "level_start"@ {
        &&& o.point
        &&& o.rotation == 0
        &&& o.width == 0
        &&& o.height == 0
    } else if o.type_@ == "level_boundary"@ {
        &&& !o.point
        &&& o.rotation == 0
    } else if o.type_@ == "static_boundary"@ {
        &&& !o.point
        &&& o.rotation == 0
        &&& forall|i: int| 0 <= i < o.polyline@.len() ==> {
            &&& i64::MIN <= (#[trigger] o.polyline@[i]).x + o.x <= i64::MAX
            &&& i64::MIN <= o.polyline@[i].y + o.y <= i64::MAX
        }
    } else {
        false
    }
}

/// A layer is either a well-formed tile layer or the marker group.
pub open spec fn layer_wf(level: Level, layer: Layer) -> bool {
    match layer {
        Layer::TileLayer { data, width, height, name, .. } => tile_layer_wf(
            level,
            data@,
            width,
            height,
            name@,
        ),
        Layer::ObjectGroup { name, objects, .. } => {
            &&& name@ == "markers"@
            &&& forall|i: int| 0 <= i < objects@.len() ==> object_wf(#[trigger] objects@[i])
        },
    }
}

/// A level this library can use: a supported version, a non-degenerate
/// grid whose pixel size fits the coordinate space, well-formed layers, and
/// — after the scan — all three tile layers and both point markers present.
/// The original treats anything else as a programming error in the level
/// file.
pub open spec fn level_wf(level: Level) -> bool {
    &&& level.version == 1
    &&& level.width > 0
    &&& level.height > 0
    &&& level.tile_width > 0
    &&& level.tile_height > 0
    &&& level.width * level.height <= usize::MAX
    &&& level.width * level.tile_width <= i32::MAX
    &&& level.height * level.tile_height <= i32::MAX
    &&& forall|i: int| 0 <= i < level.layers@.len() ==> layer_wf(level, #[trigger] level.layers@[i])
    &&& ({
        let build = build_layers(level.tile_sets@, empty_build(), level.layers@);
        &&& build.background is Some
        &&& build.background_items is Some
        &&& build.map_layer is Some
        &&& build.markers.level_start is Some
        &&& build.markers.level_boundary is Some
    })
}

/// Resource that represents a map of tiles for an entire level of the game.
///
/// Top-left of the top-left tile is at position (0, 0). Each tile is of
/// constant width and height, so computing tiles within a boundary rectangle
/// is fairly trivial.
#[derive(Debug, Clone)]
pub struct LevelMap {
    pub level_start: Point,
    pub level_boundary: Rect,
    /// Static world boundaries (ground/walls) as polylines in subpixel
    /// coordinates, with no entity backing.
    pub static_boundaries: Vec<Vec<Vec2D>>,
    pub rows: usize,
    pub columns: usize,
    pub tile_width: usize,
    pub tile_height: usize,
    pub background: TileGrid,
    pub background_items: TileGrid,
    pub map: TileGrid,
}

/// Whether a name equals an expected literal.
fn is_named(name: &String, expected: &str) -> (r: bool)
    ensures
        r == (name@ == expected@),
{
    *name == expected.to_owned()
}

/// A subpixel length as a whole-pixel size, per `spec_pixel_dimension`.
fn pixel_dimension(v: i64) -> (r: u32)
    ensures
        r == spec_pixel_dimension(v),
{
    if v <= 0 {
        0
    } else {
        let d = v / 1000;
        if d > u32::MAX as i64 {
            u32::MAX
        } else {
            d as u32
        }
    }
}

/// A polyline object's points in world subpixels.
fn polyline_points(o: &Object) -> (points: Vec<Vec2D>)
    requires
        forall|i: int| 0 <= i < o.polyline@.len() ==> {
            &&& i64::MIN <= (#[trigger] o.polyline@[i]).x + o.x <= i64::MAX
            &&& i64::MIN <= o.polyline@[i].y + o.y <= i64::MAX
        },
    ensures
        points@ == spec_object_polyline(*o),
{
    let mut points: Vec<Vec2D> = Vec::new();
    let mut i: usize = 0;
    while i < o.polyline.len()
        invariant
            i <= o.polyline@.len(),
            forall|j: int| 0 <= j < o.polyline@.len() ==> {
                &&& i64::MIN <= (#[trigger] o.polyline@[j]).x + o.x <= i64::MAX
                &&& i64::MIN <= o.polyline@[j].y + o.y <= i64::MAX
            },
            points@ == spec_object_polyline(*o).take(i as int),
        decreases o.polyline@.len() - i,
    {
        let c = o.polyline[i];
        points.push(Vec2D { x: c.x + o.x, y: c.y + o.y });
        proof {
            assert(points@ =~= spec_object_polyline(*o).take(i + 1));
        }
        i = i + 1;
    }
    proof {
        assert(spec_object_polyline(*o).take(o.polyline@.len() as int) =~= spec_object_polyline(
            *o,
        ));
    }
    points
}

impl TileGrid {
    /// Returns (rows, columns) representing the dimensions of this grid
    pub fn dimensions(&self) -> (d: (usize, usize))
        requires
            self.0@.len() > 0,
        ensures
            d.0 == self.0@.len(),
            d.1 == self.0@[0]@.len(),
    {
        (self.0.len(), self.0[0].len())
    }

    /// The tiles of the grid's cells covered by `bounds`, row-major. The
    /// requested boundary may reach outside the map: it is clamped to the
    /// grid — the map's top-left is cell (0, 0) — so the nearest cells are
    /// returned instead.
    pub fn slice_within(&self, tile_width: usize, tile_height: usize, bounds: Rect) -> (tiles: Vec<
        Tile,
    >)
        requires
            grid_wf(*self),
            tile_width > 0,
            tile_height > 0,
            bounds_in_range(bounds),
        ensures
            ({
                let columns = self.0@[0]@.len() as int;
                let rows = self.0@.len() as int;
                let x = if bounds.x > 0 {
                    bounds.x as int
                } else {
                    0
                };
                let y = if bounds.y > 0 {
                    bounds.y as int
                } else {
                    0
                };
                let start_col = clamp_int(x / tile_width as int, 0, columns - 1);
                let start_row = clamp_int(y / tile_height as int, 0, rows - 1);
                let end_col = clamp_int((x + bounds.width) / tile_width as int, 0, columns - 1);
                let end_row = clamp_int((y + bounds.height) / tile_height as int, 0, rows - 1);
                tiles@ == spec_grid_slice(self.0@, start_row, end_row, start_col, end_col)
            }),
    {
        let x: usize = if bounds.x > 0 {
            bounds.x as usize
        } else {
            0
        };
        let y: usize = if bounds.y > 0 {
            bounds.y as usize
        } else {
            0
        };
        let width = bounds.width as usize;
        let height = bounds.height as usize;
        let (rows, columns) = self.dimensions();

        let start_col = clamp_index(x / tile_width, columns - 1);
        let start_row = clamp_index(y / tile_height, rows - 1);
        let end_col = clamp_index((x + width) / tile_width, columns - 1);
        let end_row = clamp_index((y + height) / tile_height, rows - 1);
        proof {
            vstd::arithmetic::div_mod::lemma_div_is_ordered(
                x as int,
                x as int + width as int,
                tile_width as int,
            );
            vstd::arithmetic::div_mod::lemma_div_is_ordered(
                y as int,
                y as int + height as int,
                tile_height as int,
            );
            assert(start_col <= end_col);
            assert(start_row <= end_row);
        }

        let mut tiles: Vec<Tile> = Vec::new();
        let mut r = start_row;
        while r <= end_row
            invariant
                grid_wf(*self),
                start_row <= r,
                end_row < self.0@.len(),
                end_col < self.0@[0]@.len(),
                end_row < usize::MAX,
                end_col < usize::MAX,
                start_col <= end_col,
                r <= end_row + 1,
                tiles@ == spec_grid_slice(
                    self.0@,
                    start_row as int,
                    r - 1,
                    start_col as int,
                    end_col as int,
                ),
            decreases end_row + 1 - r,
        {
            let mut c = start_col;
            while c <= end_col
                invariant
                    grid_wf(*self),
                    start_row <= r <= end_row < self.0@.len(),
                    start_col <= c,
                    end_col < self.0@[0]@.len(),
                    end_col < usize::MAX,
                    c <= end_col + 1,
                    tiles@ == spec_grid_slice(
                        self.0@,
                        start_row as int,
                        r - 1,
                        start_col as int,
                        end_col as int,
                    ) + spec_row_slice(self.0@[r as int], start_col as int, c - 1),
                decreases end_col + 1 - c,
            {
                match &self.0[r][c] {
                    Some(t) => {
                        tiles.push(*t);
                    },
                    None => {},
                }
                c = c + 1;
            }
            proof {
                assert(spec_grid_slice(
                    self.0@,
                    start_row as int,
                    r as int,
                    start_col as int,
                    end_col as int,
                ) == spec_grid_slice(
                    self.0@,
                    start_row as int,
                    r - 1,
                    start_col as int,
                    end_col as int,
                ) + spec_row_slice(self.0@[r as int], start_col as int, end_col as int));
            }
            r = r + 1;
        }
        tiles
    }
}

/// The clamped corners of a requested boundary fit the machine's word: the
/// boundary's far edge, measured from the map's top-left corner, has a
/// coordinate.
pub open spec fn bounds_in_range(bounds: Rect) -> bool {
    &&& (if bounds.x > 0 {
        bounds.x as int
    } else {
        0
    }) + bounds.width <= usize::MAX
    &&& (if bounds.y > 0 {
        bounds.y as int
    } else {
        0
    }) + bounds.height <= usize::MAX
}

/// `v` clamped to at most `hi`.
fn clamp_index(v: usize, hi: usize) -> (r: usize)
    ensures
        r == clamp_int(v as int, 0, hi as int),
{
    if v > hi {
        hi
    } else {
        v
    }
}

/// The tiles present among the cells `start_col..=end_col` of a row, in
/// order.
pub open spec fn spec_row_slice(row: Vec<Option<Tile>>, start_col: int, end_col: int) -> Seq<Tile>
    decreases end_col - start_col + 1,
{
    if end_col < start_col {
        Seq::<Tile>::empty()
    } else {
        spec_row_slice(row, start_col, end_col - 1) + (match row@[end_col] {
            Some(t) => seq![t],
            None => Seq::<Tile>::empty(),
        })
    }
}

/// The tiles present in the cell rectangle `start_row..=end_row` by
/// `start_col..=end_col`, row-major.
pub open spec fn spec_grid_slice(
    grid: Seq<Vec<Option<Tile>>>,
    start_row: int,
    end_row: int,
    start_col: int,
    end_col: int,
) -> Seq<Tile>
    decreases end_row - start_row + 1,
{
    if end_row < start_row {
        Seq::<Tile>::empty()
    } else {
        spec_grid_slice(grid, start_row, end_row - 1, start_col, end_col) + spec_row_slice(
            grid[end_row],
            start_col,
            end_col,
        )
    }
}

impl LevelMap {
    /// Builds the level map from a decoded level file, creating one texture
    /// per tile cell: the returned paths are the images to load, in
    /// creation order, and the tile whose path is k-th in the list carries
    /// texture id `first_texture_id + k`.
    ///
    /// A level that is not well-formed (`level_wf`) is a programming error
    /// in the level data, not a runtime condition.
    pub fn from_level(level: &Level, first_texture_id: usize) -> (result: (LevelMap, Vec<String>))
        requires
            level_wf(*level),
            first_texture_id + build_layers(
                level.tile_sets@,
                empty_build(),
                level.layers@,
            ).paths.len() <= usize::MAX,
        ensures
            ({
                let build = build_layers(level.tile_sets@, empty_build(), level.layers@);
                let map = result.0;
                &&& map.rows == level.height
                &&& map.columns == level.width
                &&& map.tile_width == level.tile_width
                &&& map.tile_height == level.tile_height
                &&& result.1@ == build.paths
                &&& Some(map.level_start) == build.markers.level_start
                &&& Some(map.level_boundary) == build.markers.level_boundary
                &&& map.static_boundaries@.map_values(|v: Vec<Vec2D>| v@)
                    == build.markers.static_boundaries
                &&& grid_matches(
                    map.background,
                    level.tile_sets@,
                    build.background->Some_0.data,
                    level.width as int,
                    level.height as int,
                    level.tile_width as int,
                    level.tile_height as int,
                    first_texture_id + build.background->Some_0.first_texture,
                )
                &&& grid_matches(
                    map.background_items,
                    level.tile_sets@,
                    build.background_items->Some_0.data,
                    level.width as int,
                    level.height as int,
                    level.tile_width as int,
                    level.tile_height as int,
                    first_texture_id + build.background_items->Some_0.first_texture,
                )
                &&& grid_matches(
                    map.map,
                    level.tile_sets@,
                    build.map_layer->Some_0.data,
                    level.width as int,
                    level.height as int,
                    level.tile_width as int,
                    level.tile_height as int,
                    first_texture_id + build.map_layer->Some_0.first_texture,
                )
            }),
    {
        let ghost full_build = build_layers(level.tile_sets@, empty_build(), level.layers@);
        let mut paths: Vec<String> = Vec::new();
        let mut background: Option<TileGrid> = None;
        let mut background_items: Option<TileGrid> = None;
        let mut map_grid: Option<TileGrid> = None;
        let mut level_start: Option<Point> = None;
        let mut level_boundary: Option<Rect> = None;
        let mut static_boundaries: Vec<Vec<Vec2D>> = Vec::new();
        let mut k: usize = 0;
        while k < level.layers.len()
            invariant
                k <= level.layers@.len(),
                level_wf(*level),
                first_texture_id + full_build.paths.len() <= usize::MAX,
                full_build == build_layers(level.tile_sets@, empty_build(), level.layers@),
                ({
                    let build = build_layers(
                        level.tile_sets@,
                        empty_build(),
                        level.layers@.take(k as int),
                    );
                    &&& paths@ == build.paths
                    &&& level_start == build.markers.level_start
                    &&& level_boundary == build.markers.level_boundary
                    &&& static_boundaries@.map_values(|v: Vec<Vec2D>| v@)
                        == build.markers.static_boundaries
                    &&& grid_slot_matches(
                        background,
                        build.background,
                        level.tile_sets@,
                        *level,
                        first_texture_id as int,
                    )
                    &&& grid_slot_matches(
                        background_items,
                        build.background_items,
                        level.tile_sets@,
                        *level,
                        first_texture_id as int,
                    )
                    &&& grid_slot_matches(
                        map_grid,
                        build.map_layer,
                        level.tile_sets@,
                        *level,
                        first_texture_id as int,
                    )
                }),
            decreases level.layers@.len() - k,
        {
            let ghost build = build_layers(level.tile_sets@, empty_build(), level.layers@.take(k as int));
            proof {
                assert(level.layers@.take(k + 1).drop_last() =~= level.layers@.take(k as int));
                assert(level.layers@.take(k + 1).last() == level.layers@[k as int]);
                assert(layer_wf(*level, level.layers@[k as int]));
                lemma_build_paths_prefix(
                    level.tile_sets@,
                    empty_build(),
                    level.layers@,
                    k as int,
                );
                lemma_build_paths_prefix(
                    level.tile_sets@,
                    empty_build(),
                    level.layers@,
                    k + 1,
                );
            }
            match &level.layers[k] {
                Layer::TileLayer { data, name, .. } => {
                    let first = first_texture_id + paths.len();
                    let grid = build_tile_grid(
                        &level.tile_sets,
                        data,
                        level.width,
                        level.height,
                        level.tile_width,
                        level.tile_height,
                        first,
                        &mut paths,
                    );
                    if is_named(name, "background") {
                        background = Some(grid);
                    } else if is_named(name, "background_items") {
                        background_items = Some(grid);
                    } else {
                        proof {
                            assert(name@ == "map"@);
                        }
                        map_grid = Some(grid);
                    }
                },
                Layer::ObjectGroup { objects, .. } => {
                    let mut j: usize = 0;
                    while j < objects.len()
                        invariant
                            j <= objects@.len(),
                            forall|i: int| 0 <= i < objects@.len() ==> object_wf(
                                #[trigger] objects@[i],
                            ),
                            ({
                                let st = markers_of_objects(
                                    build.markers,
                                    objects@.take(j as int),
                                );
                                &&& level_start == st.level_start
                                &&& level_boundary == st.level_boundary
                                &&& static_boundaries@.map_values(|v: Vec<Vec2D>| v@)
                                    == st.static_boundaries
                            }),
                        decreases objects@.len() - j,
                    {
                        proof {
                            assert(objects@.take(j + 1).drop_last() =~= objects@.take(j as int));
                            assert(objects@.take(j + 1).last() == objects@[j as int]);
                            assert(object_wf(objects@[j as int]));
                        }
                        let o = &objects[j];
                        if is_named(&o.type_, "level_start") {
                            level_start = Some(Vec2D { x: o.x, y: o.y }.to_point());
                        } else if is_named(&o.type_, "level_boundary") {
                            let corner = Vec2D { x: o.x, y: o.y }.to_point();
                            level_boundary = Some(
                                Rect {
                                    x: corner.x,
                                    y: corner.y,
                                    width: pixel_dimension(o.width),
                                    height: pixel_dimension(o.height),
                                },
                            );
                        } else {
                            let boundary = polyline_points(o);
                            static_boundaries.push(boundary);
                            proof {
                                assert(static_boundaries@.map_values(|v: Vec<Vec2D>| v@)
                                    =~= markers_of_objects(
                                    build.markers,
                                    objects@.take(j + 1),
                                ).static_boundaries);
                            }
                        }
                        j = j + 1;
                    }
                    proof {
                        assert(objects@.take(objects@.len() as int) =~= objects@);
                    }
                },
            }
            k = k + 1;
        }
        proof {
            assert(level.layers@.take(level.layers@.len() as int) =~= level.layers@);
        }
        let background = background.unwrap();
        let background_items = background_items.unwrap();
        let map = map_grid.unwrap();
        let level_start = level_start.unwrap();
        let level_boundary = level_boundary.unwrap();
        (
            LevelMap {
                level_start,
                level_boundary,
                static_boundaries,
                rows: level.height as usize,
                columns: level.width as usize,
                tile_width: level.tile_width as usize,
                tile_height: level.tile_height as usize,
                background,
                background_items,
                map,
            },
            paths,
        )
    }

    pub fn level_start(&self) -> (p: Point)
        ensures
            p == self.level_start,
    {
        self.level_start
    }

    pub fn level_boundary(&self) -> (r: Rect)
        ensures
            r == self.level_boundary,
    {
        self.level_boundary
    }

    pub fn static_boundaries(&self) -> (b: &Vec<Vec<Vec2D>>)
        ensures
            b == &self.static_boundaries,
    {
        &self.static_boundaries
    }

    /// The background tiles covered by `bounds`.
    pub fn background_within(&self, bounds: Rect) -> (tiles: Vec<Tile>)
        requires
            self.wf_grids(),
            bounds_in_range(bounds),
        ensures
            tiles@ == self.spec_slice(self.background, bounds),
    {
        self.background.slice_within(self.tile_width, self.tile_height, bounds)
    }

    /// The background item tiles covered by `bounds`.
    pub fn background_items_within(&self, bounds: Rect) -> (tiles: Vec<Tile>)
        requires
            self.wf_grids(),
            bounds_in_range(bounds),
        ensures
            tiles@ == self.spec_slice(self.background_items, bounds),
    {
        self.background_items.slice_within(self.tile_width, self.tile_height, bounds)
    }

    /// The map tiles covered by `bounds`.
    pub fn map_within(&self, bounds: Rect) -> (tiles: Vec<Tile>)
        requires
            self.wf_grids(),
            bounds_in_range(bounds),
        ensures
            tiles@ == self.spec_slice(self.map, bounds),
    {
        self.map.slice_within(self.tile_width, self.tile_height, bounds)
    }

    /// The level map's grids are well-formed and its tile size is
    /// non-degenerate.
    pub open spec fn wf_grids(&self) -> bool {
        &&& grid_wf(self.background)
        &&& grid_wf(self.background_items)
        &&& grid_wf(self.map)
        &&& self.tile_width > 0
        &&& self.tile_height > 0
    }

    /// What `slice_within` returns for one of this map's grids.
    pub open spec fn spec_slice(&self, grid: TileGrid, bounds: Rect) -> Seq<Tile> {
        let columns = grid.0@[0]@.len() as int;
        let rows = grid.0@.len() as int;
        let x = if bounds.x > 0 {
            bounds.x as int
        } else {
            0
        };
        let y = if bounds.y > 0 {
            bounds.y as int
        } else {
            0
        };
        spec_grid_slice(
            grid.0@,
            clamp_int(y / self.tile_height as int, 0, rows - 1),
            clamp_int((y + bounds.height) / self.tile_height as int, 0, rows - 1),
            clamp_int(x / self.tile_width as int, 0, columns - 1),
            clamp_int((x + bounds.width) / self.tile_width as int, 0, columns - 1),
        )
    }
}

/// The loop invariant of the layer scan for one grid slot: the slot is
/// filled exactly when the scan has seen its layer, with a grid matching
/// that layer.
pub open spec fn grid_slot_matches(
    slot: Option<TileGrid>,
    built: Option<LayerGrid>,
    tile_sets: Seq<TileSet>,
    level: Level,
    first_texture_id: int,
) -> bool {
    match built {
        Some(lg) => slot matches Some(grid) && grid_matches(
            grid,
            tile_sets,
            lg.data,
            level.width as int,
            level.height as int,
            level.tile_width as int,
            level.tile_height as int,
            first_texture_id + lg.first_texture,
        ),
        None => slot is None,
    }
}

} // verus!

