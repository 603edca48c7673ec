use raycaster::{
    Circle, Color, FloorHit, Scalar, Shape, ShapeHitInfo, Texture, Tile, TileMap, Vector2, WallHit,
};

fn scalar_of(v: f64) -> Scalar {
    Scalar::from_bits(v.to_bits())
}

fn at(x: f64, y: f64) -> Vector2 {
    Vector2::new(scalar_of(x), scalar_of(y))
}

fn box_tile() -> Tile {
    Tile::new(
        Shape::Box,
        vec![Color::Test2, Color::Test, Color::Solid([scalar_of(1.0); 4]), Color::Texture(0)],
        Color::Test2,
        scalar_of(0.25),
        Color::Test,
        scalar_of(0.75),
    )
}

#[test]
fn tile_keeps_what_it_is_given() {
    let tile = box_tile();
    assert_eq!(tile.shape, Shape::Box);
    assert_eq!(
        tile.colors,
        [Color::Test2, Color::Test, Color::Solid([scalar_of(1.0); 4]), Color::Texture(0)]
    );
    assert_eq!(tile.floor_color, Color::Test2);
    assert_eq!(tile.floor_height, scalar_of(0.25));
    assert_eq!(tile.ceiling_color, Color::Test);
    assert_eq!(tile.ceiling_height, scalar_of(0.75));
}

#[test]
fn tile_fills_unused_slots_with_the_gradient() {
    let circle = Shape::Circle(Circle { pos: at(0.5, 0.5), radius: scalar_of(0.5) });
    let tile = Tile::new(circle, vec![Color::Test2], Color::Test, scalar_of(0.0), Color::Test, scalar_of(0.0));
    assert_eq!(tile.colors, [Color::Test2, Color::Test, Color::Test, Color::Test]);
    let open = Tile::new(Shape::Void, vec![], Color::Test2, scalar_of(0.0), Color::Test2, scalar_of(1.0));
    assert_eq!(open.colors, [Color::Test; 4]);
}

#[test]
fn wall_hit_takes_the_surface_of_the_face() {
    let tile = box_tile();
    let info = ShapeHitInfo { length: scalar_of(0.5), x: scalar_of(0.125), side: 2 };
    let hit = tile.wall_hit(&info, scalar_of(3.5));
    assert_eq!(
        hit,
        WallHit { length: scalar_of(3.5), x: scalar_of(0.125), color: Color::Solid([scalar_of(1.0); 4]) }
    );
    let first = ShapeHitInfo { length: scalar_of(0.5), x: scalar_of(0.5), side: 0 };
    assert_eq!(tile.wall_hit(&first, scalar_of(0.5)).color, Color::Test2);
    let last = ShapeHitInfo { length: scalar_of(0.5), x: scalar_of(0.5), side: 3 };
    assert_eq!(tile.wall_hit(&last, scalar_of(0.5)).color, Color::Texture(0));
}

#[test]
fn floor_hit_carries_floor_and_ceiling() {
    let tile = box_tile();
    let hit = tile.floor_hit(at(0.0, 0.5), at(1.0, 0.75), scalar_of(2.0), scalar_of(3.0));
    assert_eq!(
        hit,
        FloorHit {
            pos1: at(0.0, 0.5),
            pos2: at(1.0, 0.75),
            dist1: scalar_of(2.0),
            dist2: scalar_of(3.0),
            floor_color: Color::Test2,
            floor_height: scalar_of(0.25),
            ceiling_color: Color::Test,
            ceiling_height: scalar_of(0.75),
        }
    );
}

#[test]
fn new_map_is_open_everywhere() {
    let map = TileMap::new(4, 3, scalar_of(1.5));
    assert_eq!(map.width(), 4);
    assert_eq!(map.height(), 3);
    assert_eq!(map.wall_height(), scalar_of(1.5));
    let open = Tile::new(Shape::Void, vec![], Color::Test, scalar_of(0.0), Color::Test, scalar_of(1.5));
    for y in 0..3 {
        for x in 0..4 {
            assert_eq!(map.get_tile(x, y), Some(open));
        }
    }
}

#[test]
fn get_tile_outside_the_grid_is_nothing() {
    let map = TileMap::new(4, 3, scalar_of(1.0));
    assert_eq!(map.get_tile(-1, 0), None);
    assert_eq!(map.get_tile(0, -1), None);
    assert_eq!(map.get_tile(4, 0), None);
    assert_eq!(map.get_tile(0, 3), None);
    assert_eq!(map.get_tile(i32::MIN, i32::MAX), None);
    assert_eq!(map.get_tile(i32::MAX, 0), None);
}

#[test]
fn set_tile_changes_one_cell() {
    let mut map = TileMap::new(4, 3, scalar_of(1.0));
    map.add_texture(Texture::new(1, 1, vec![0, 0, 0, 255]).unwrap());
    let open = map.get_tile(0, 0).unwrap();
    map.set_tile(3, 1, box_tile());
    for y in 0..3 {
        for x in 0..4 {
            let expected = if x == 3 && y == 1 { box_tile() } else { open };
            assert_eq!(map.get_tile(x, y), Some(expected));
        }
    }
    assert_eq!(map.width(), 4);
    assert_eq!(map.height(), 3);
}

#[test]
fn set_tile_tells_columns_from_rows() {
    let mut map = TileMap::new(3, 2, scalar_of(1.0));
    map.add_texture(Texture::new(1, 1, vec![0, 0, 0, 255]).unwrap());
    map.set_tile(2, 0, box_tile());
    assert_eq!(map.get_tile(2, 0), Some(box_tile()));
    assert_eq!(map.get_tile(0, 1).unwrap().shape, Shape::Void);
    assert_eq!(map.get_tile(1, 1).unwrap().shape, Shape::Void);
}

#[test]
fn map_without_cells() {
    let map = TileMap::new(0, 7, scalar_of(1.0));
    assert_eq!(map.width(), 0);
    assert_eq!(map.height(), 7);
    assert_eq!(map.get_tile(0, 0), None);
}

#[test]
fn textures_are_found_under_their_handles() {
    let mut map = TileMap::new(2, 2, scalar_of(1.0));
    assert!(map.texture(0).is_none());
    let first = map.add_texture(Texture::new(1, 1, vec![1, 2, 3, 4]).unwrap());
    let second = map.add_texture(Texture::new(1, 2, vec![5, 6, 7, 8, 9, 10, 11, 12]).unwrap());
    assert_eq!(first, 0);
    assert_eq!(second, 1);
    assert_eq!(map.texture(0).unwrap().sample(0, 0), [1, 2, 3, 4]);
    assert_eq!(map.texture(1).unwrap().sample(0, 1), [9, 10, 11, 12]);
    assert!(map.texture(2).is_none());
    assert_eq!(map.width(), 2);
    assert_eq!(map.get_tile(1, 1).unwrap().shape, Shape::Void);
}

#[test]
fn surface_is_known_where_its_texture_is_held() {
    assert!(Color::Test.known(0));
    assert!(Color::Test2.known(0));
    assert!(Color::Solid([scalar_of(0.5); 4]).known(0));
    assert!(!Color::Texture(0).known(0));
    assert!(Color::Texture(0).known(1));
    assert!(!Color::Texture(1).known(1));
    assert!(Color::Texture(1).known(2));
}

#[test]
fn tile_is_known_where_all_its_textures_are_held() {
    let tile = box_tile();
    assert!(!tile.known(0));
    assert!(tile.known(1));
    let floor = Tile::new(
        Shape::Void,
        vec![],
        Color::Texture(2),
        scalar_of(0.0),
        Color::Test,
        scalar_of(1.0),
    );
    assert!(!floor.known(2));
    assert!(floor.known(3));
    let ceiling = Tile::new(
        Shape::Void,
        vec![],
        Color::Test,
        scalar_of(0.0),
        Color::Texture(4),
        scalar_of(1.0),
    );
    assert!(!ceiling.known(4));
    assert!(ceiling.known(5));
    for slot in 0..4 {
        let mut colors = vec![Color::Test; 4];
        colors[slot] = Color::Texture(7);
        let wall =
            Tile::new(Shape::Box, colors, Color::Test, scalar_of(0.0), Color::Test, scalar_of(1.0));
        assert!(!wall.known(7));
        assert!(wall.known(8));
    }
}

#[test]
fn map_accepts_tiles_whose_textures_it_holds() {
    let mut map = TileMap::new(2, 2, scalar_of(1.0));
    assert!(!map.accepts(&box_tile()));
    assert!(map.accepts(&map.get_tile(0, 0).unwrap()));
    map.add_texture(Texture::new(1, 1, vec![9, 9, 9, 9]).unwrap());
    assert!(map.accepts(&box_tile()));
    map.set_tile(1, 0, box_tile());
    map.add_texture(Texture::new(0, 0, vec![]).unwrap());
    assert!(map.accepts(&map.get_tile(1, 0).unwrap()));
    assert_eq!(map.get_tile(1, 0), Some(box_tile()));
}
