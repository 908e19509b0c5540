//! Tests of the level model: building a level map from decoded level data,
//! slicing tile grids, and the renderer's screen-space layout.

use robo_quest::level_file::{
    is_false, Coordinate, DrawOrder, Grid, Layer, Level, Object, Orientation, RenderOrder,
    Tile as TileImage, TileSet,
};
use robo_quest::map::{LevelMap, Tile, TileGrid};
use robo_quest::math::{Point, Rect, Vec2D};
use robo_quest::renderer::sprite_destination;
use robo_quest::texture_manager::TextureId;

fn tile_layer(name: &str, data: Vec<u32>) -> Layer {
    Layer::TileLayer {
        data,
        width: 2,
        height: 1,
        x: 0,
        y: 0,
        name: name.to_owned(),
        opacity: 1000,
        type_: "tilelayer".to_owned(),
        visible: true,
    }
}

fn marker(type_: &str, x: i64, y: i64, width: i64, height: i64, point: bool, polyline: Vec<Coordinate>) -> Object {
    Object {
        width,
        height,
        x,
        y,
        rotation: 0,
        id: 1,
        name: String::new(),
        type_: type_.to_owned(),
        point,
        visible: true,
        polyline,
    }
}

fn sample_level() -> Level {
    let tiles = vec![
        (0u64, TileImage { image: "a.png".to_owned(), image_width: 16, image_height: 16 }),
        (1u64, TileImage { image: "b.png".to_owned(), image_width: 16, image_height: 16 }),
    ];
    let tile_set = TileSet {
        columns: 2,
        first_gid: 1,
        grid: Grid { width: 16, height: 16, orientation: Orientation::Orthogonal },
        margin: 0,
        name: "tiles".to_owned(),
        spacing: 0,
        tile_count: 2,
        tile_width: 16,
        tile_height: 16,
        tiles,
    };
    let markers = Layer::ObjectGroup {
        draw_order: DrawOrder::TopDown,
        name: "markers".to_owned(),
        objects: vec![
            marker("level_start", 5500, 2500, 0, 0, true, vec![]),
            marker("level_boundary", 0, 0, 32000, 16000, false, vec![]),
            marker(
                "static_boundary",
                500,
                500,
                0,
                0,
                false,
                vec![Coordinate { x: 0, y: 0 }, Coordinate { x: 1000, y: 2000 }],
            ),
        ],
        offset_x: 0,
        offset_y: 0,
        opacity: 1000,
        type_: "objectgroup".to_owned(),
        visible: true,
        x: 0,
        y: 0,
    };
    Level {
        width: 2,
        height: 1,
        infinite: false,
        layers: vec![
            tile_layer("background", vec![1, 2]),
            tile_layer("background_items", vec![0, 0]),
            tile_layer("map", vec![2, 0]),
            markers,
        ],
        orientation: Orientation::Orthogonal,
        render_order: RenderOrder::RightDown,
        tiled_version: "1.1.6".to_owned(),
        tile_width: 16,
        tile_height: 16,
        tile_sets: vec![tile_set],
        type_: "map".to_owned(),
        version: 1,
        next_object_id: 2,
    }
}

#[test]
fn level_map_builds_grids_markers_and_texture_paths() {
    let level = sample_level();
    let (map, paths) = LevelMap::from_level(&level, 7);

    // One texture per cell that refers to a tile, in cell order across the
    // layers: background has gids 1 and 2, the map layer has gid 2.
    assert_eq!(paths, vec!["a.png".to_owned(), "b.png".to_owned(), "b.png".to_owned()]);

    assert_eq!(map.rows, 1);
    assert_eq!(map.columns, 2);
    assert_eq!(map.tile_width, 16);
    assert_eq!(map.tile_height, 16);

    // Background: both cells present, texture ids continue from 7.
    assert_eq!(
        map.background.0[0][0],
        Some(Tile { x: 0, y: 0, texture_id: TextureId::new(7), image_width: 16, image_height: 16 })
    );
    assert_eq!(
        map.background.0[0][1],
        Some(Tile { x: 16, y: 0, texture_id: TextureId::new(8), image_width: 16, image_height: 16 })
    );

    // Background items: gid 0 means an empty cell.
    assert_eq!(map.background_items.0[0][0], None);
    assert_eq!(map.background_items.0[0][1], None);

    // Map layer: its first cell created the third texture.
    assert_eq!(
        map.map.0[0][0],
        Some(Tile { x: 0, y: 0, texture_id: TextureId::new(9), image_width: 16, image_height: 16 })
    );
    assert_eq!(map.map.0[0][1], None);

    // Markers: subpixels truncated to pixels; polyline points moved by the
    // object's position, kept in subpixels.
    assert_eq!(map.level_start(), Point { x: 5, y: 2 });
    assert_eq!(map.level_boundary(), Rect { x: 0, y: 0, width: 32, height: 16 });
    assert_eq!(
        map.static_boundaries(),
        &vec![vec![Vec2D { x: 500, y: 500 }, Vec2D { x: 1500, y: 2500 }]]
    );
}

fn numbered_tile(n: usize) -> Option<Tile> {
    Some(Tile { x: 0, y: 0, texture_id: TextureId::new(n), image_width: 16, image_height: 16 })
}

fn sample_grid() -> TileGrid {
    // 2 rows x 3 columns, tiles numbered row-major 0..6, one hole.
    TileGrid(vec![
        vec![numbered_tile(0), numbered_tile(1), numbered_tile(2)],
        vec![numbered_tile(3), None, numbered_tile(5)],
    ])
}

fn texture_indices(tiles: &Vec<Tile>) -> Vec<usize> {
    tiles.iter().map(|t| t.texture_id.index()).collect()
}

#[test]
fn grid_dimensions_are_rows_then_columns() {
    assert_eq!(sample_grid().dimensions(), (2, 3));
}

#[test]
fn slice_within_returns_the_covered_cells_row_major() {
    let grid = sample_grid();
    // Cells are 16x16. A 20x20 boundary at the origin covers cells (0..=1,
    // 0..=1); the hole is skipped.
    let tiles = grid.slice_within(16, 16, Rect { x: 0, y: 0, width: 20, height: 20 });
    assert_eq!(texture_indices(&tiles), vec![0, 1, 3]);
}

#[test]
fn slice_within_clamps_to_the_grid() {
    let grid = sample_grid();
    // A boundary reaching far past the bottom-right corner is clamped to the
    // nearest cells.
    let tiles = grid.slice_within(16, 16, Rect { x: 40, y: 40, width: 500, height: 500 });
    assert_eq!(texture_indices(&tiles), vec![5]);
    // A boundary at negative coordinates is clamped to the top-left cell.
    let tiles = grid.slice_within(16, 16, Rect { x: -100, y: -100, width: 5, height: 5 });
    assert_eq!(texture_indices(&tiles), vec![0]);
}

#[test]
fn level_map_slices_are_per_layer() {
    let level = sample_level();
    let (map, _paths) = LevelMap::from_level(&level, 0);
    let bounds = Rect { x: 0, y: 0, width: 32, height: 16 };
    assert_eq!(texture_indices(&map.background_within(bounds)), vec![0, 1]);
    assert_eq!(map.background_items_within(bounds), vec![]);
    assert_eq!(texture_indices(&map.map_within(bounds)), vec![2]);
}

#[test]
fn is_false_mirrors_the_format_rule() {
    assert!(is_false(&false));
    assert!(!is_false(&true));
}

#[test]
fn camera_centers_the_focused_entity() {
    let center = Point { x: 100, y: 100 }.render_center(320, 240);
    assert_eq!(center, Point { x: -60, y: -20 });

    let dest = sprite_destination(
        center,
        Point { x: 10, y: 20 },
        Rect { x: 110, y: 115, width: 32, height: 30 },
    );
    // The sprite's region is centered on the entity's screen position.
    assert_eq!(dest, Rect { x: 54, y: 25, width: 32, height: 30 });
}
