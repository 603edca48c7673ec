use raycaster::{Axis, Cell, Circle, Color, Crossing, Renderer, Scalar, Shape, Step, Tile, TileMap, Vector2};

fn n(v: f64) -> Scalar {
    Scalar::from_bits(v.to_bits())
}

fn wall_tile() -> Tile {
    Tile::new(
        Shape::Box,
        vec![Color::Test2, Color::Test, Color::Test, Color::Test],
        Color::Test,
        n(0.0),
        Color::Test,
        n(0.0),
    )
}

fn walled_map(size: usize) -> TileMap {
    let mut map = TileMap::new(size, size, n(1.0));
    for i in 0..size {
        map.set_tile(i, 0, wall_tile());
        map.set_tile(i, size - 1, wall_tile());
        map.set_tile(0, i, wall_tile());
        map.set_tile(size - 1, i, wall_tile());
    }
    map
}

/// The order in which the ray from `pos` along `dir` crosses the grid's
/// lines, and how far along the ray each crossing lies.
fn crossings_of(pos: (f64, f64), dir: (f64, f64), count: usize) -> (Cell, Step, Vec<Axis>, Vec<f64>) {
    let cell = Cell { x: pos.0.floor() as i32, y: pos.1.floor() as i32 };
    let delta = (1.0 / dir.0.abs(), 1.0 / dir.1.abs());
    let mut side = (
        if dir.0 < 0.0 {
            (pos.0 - cell.x as f64) * delta.0
        } else {
            (cell.x as f64 + 1.0 - pos.0) * delta.0
        },
        if dir.1 < 0.0 {
            (pos.1 - cell.y as f64) * delta.1
        } else {
            (cell.y as f64 + 1.0 - pos.1) * delta.1
        },
    );
    let mut axes = Vec::new();
    let mut dists = Vec::new();
    for _ in 0..count {
        if side.0 < side.1 {
            axes.push(Axis::X);
            dists.push(side.0);
            side.0 += delta.0;
        } else {
            axes.push(Axis::Y);
            dists.push(side.1);
            side.1 += delta.1;
        }
    }
    (cell, Step::new(dir.0 < 0.0, dir.1 < 0.0), axes, dists)
}

#[test]
fn step_follows_the_signs() {
    assert_eq!(Step::new(false, false), Step { x: 1, y: 1 });
    assert_eq!(Step::new(true, false), Step { x: -1, y: 1 });
    assert_eq!(Step::new(false, true), Step { x: 1, y: -1 });
    assert_eq!(Step::new(true, true), Step { x: -1, y: -1 });
}

#[test]
fn advance_into_an_open_cell() {
    let map = walled_map(10);
    let open = map.get_tile(5, 5).unwrap();
    let c = map.advance(Cell { x: 5, y: 5 }, Step::new(false, true), Axis::X).unwrap();
    assert_eq!(
        c,
        Crossing {
            left: Cell { x: 5, y: 5 },
            floor: open,
            entered: Cell { x: 6, y: 5 },
            inside: true,
            wall: None,
        }
    );
    let d = map.advance(Cell { x: 5, y: 5 }, Step::new(false, true), Axis::Y).unwrap();
    assert_eq!(d.entered, Cell { x: 5, y: 4 });
    assert!(d.inside);
    assert_eq!(d.wall, None);
}

#[test]
fn advance_into_a_wall() {
    let map = walled_map(10);
    let c = map.advance(Cell { x: 1, y: 3 }, Step::new(true, false), Axis::X).unwrap();
    assert_eq!(c.left, Cell { x: 1, y: 3 });
    assert_eq!(c.floor.shape, Shape::Void);
    assert_eq!(c.entered, Cell { x: 0, y: 3 });
    assert!(c.inside);
    assert_eq!(c.wall, Some(wall_tile()));
}

#[test]
fn advance_out_of_the_grid() {
    let map = walled_map(10);
    let c = map.advance(Cell { x: 9, y: 9 }, Step::new(false, false), Axis::Y).unwrap();
    assert_eq!(c.floor, wall_tile());
    assert_eq!(c.entered, Cell { x: 9, y: 10 });
    assert!(!c.inside);
    assert_eq!(c.wall, None);
    let d = map.advance(Cell { x: 0, y: 0 }, Step::new(true, true), Axis::X).unwrap();
    assert_eq!(d.entered, Cell { x: -1, y: 0 });
    assert!(!d.inside);
}

#[test]
fn advance_from_outside_goes_nowhere() {
    let map = walled_map(10);
    assert_eq!(map.advance(Cell { x: 10, y: 3 }, Step::new(true, false), Axis::X), None);
    assert_eq!(map.advance(Cell { x: -1, y: 3 }, Step::new(false, false), Axis::X), None);
    assert_eq!(map.advance(Cell { x: 3, y: -1 }, Step::new(false, false), Axis::Y), None);
    assert_eq!(map.advance(Cell { x: i32::MAX, y: i32::MIN }, Step::new(false, true), Axis::Y), None);
}

#[test]
fn ray_cast_visits_the_cells_in_order() {
    let map = walled_map(10);
    let axes = vec![Axis::X, Axis::Y, Axis::X, Axis::X];
    let found = map.ray_cast(Cell { x: 4, y: 4 }, Step::new(false, true), &axes);
    let left: Vec<Cell> = found.iter().map(|c| c.left).collect();
    let entered: Vec<Cell> = found.iter().map(|c| c.entered).collect();
    assert_eq!(
        left,
        vec![Cell { x: 4, y: 4 }, Cell { x: 5, y: 4 }, Cell { x: 5, y: 3 }, Cell { x: 6, y: 3 }]
    );
    assert_eq!(
        entered,
        vec![Cell { x: 5, y: 4 }, Cell { x: 5, y: 3 }, Cell { x: 6, y: 3 }, Cell { x: 7, y: 3 }]
    );
    for c in &found {
        assert!(c.inside);
        assert_eq!(c.wall, None);
        assert_eq!(c.floor.shape, Shape::Void);
    }
}

#[test]
fn ray_cast_ends_where_the_ray_leaves_the_grid() {
    let map = walled_map(10);
    let axes = vec![Axis::X; 50];
    let found = map.ray_cast(Cell { x: 7, y: 5 }, Step::new(false, false), &axes);
    assert_eq!(found.len(), 3);
    assert_eq!(found[0].wall, None);
    assert_eq!(found[1].wall, Some(wall_tile()));
    assert_eq!(found[1].entered, Cell { x: 9, y: 5 });
    assert_eq!(found[2].left, Cell { x: 9, y: 5 });
    assert_eq!(found[2].floor, wall_tile());
    assert_eq!(found[2].entered, Cell { x: 10, y: 5 });
    assert!(!found[2].inside);
    assert_eq!(found[2].wall, None);
}

#[test]
fn ray_cast_from_outside_finds_nothing() {
    let map = walled_map(10);
    let axes = vec![Axis::X; 5];
    assert!(map.ray_cast(Cell { x: -1, y: 5 }, Step::new(false, false), &axes).is_empty());
    assert!(map.ray_cast(Cell { x: 5, y: 10 }, Step::new(false, true), &axes).is_empty());
}

#[test]
fn ray_cast_without_crossings_finds_nothing() {
    let map = walled_map(10);
    assert!(map.ray_cast(Cell { x: 5, y: 5 }, Step::new(false, false), &vec![]).is_empty());
}

#[test]
fn ray_leaves_a_ten_by_ten_grid_within_twenty_steps() {
    let map = TileMap::new(10, 10, n(1.0));
    let directions = [
        (1.0, 0.0),
        (-1.0, 0.0),
        (0.0, 1.0),
        (0.0, -1.0),
        (1.0, 1.0),
        (-1.0, 0.37),
        (0.2, -1.0),
        (-0.9, -0.9),
        (1.0, 0.001),
    ];
    let origins = [(5.0, 5.0), (0.5, 0.5), (9.5, 9.5), (0.0, 9.99), (3.25, 7.75)];
    for pos in origins {
        for dir in directions {
            let (cell, step, axes, _) = crossings_of(pos, dir, 100);
            let found = map.ray_cast(cell, step, &axes);
            assert!(!found.is_empty());
            assert!(found.len() < 20);
            for (k, c) in found.iter().enumerate() {
                assert!(map.get_tile(c.left.x, c.left.y).is_some());
                assert_eq!(c.inside, k + 1 < found.len());
                assert_eq!(c.inside, map.get_tile(c.entered.x, c.entered.y).is_some());
            }
        }
    }
}

#[test]
fn longest_walk_through_a_grid() {
    let map = TileMap::new(10, 10, n(1.0));
    let mut axes = Vec::new();
    for _ in 0..9 {
        axes.push(Axis::X);
        axes.push(Axis::Y);
    }
    axes.push(Axis::X);
    axes.push(Axis::X);
    let found = map.ray_cast(Cell { x: 0, y: 0 }, Step::new(false, false), &axes);
    assert_eq!(found.len(), 19);
    assert_eq!(found[18].left, Cell { x: 9, y: 9 });
    assert_eq!(found[18].entered, Cell { x: 10, y: 9 });
}

#[test]
fn open_cells_never_report_a_wall() {
    let map = TileMap::new(10, 10, n(1.0));
    for dir in [(1.0, 0.3), (-0.4, 1.0), (-1.0, -1.0), (0.7, -0.2)] {
        let (cell, step, axes, _) = crossings_of((4.5, 5.5), dir, 40);
        for c in map.ray_cast(cell, step, &axes) {
            assert_eq!(c.wall, None);
        }
    }
}

#[test]
fn walls_are_reported_only_where_a_shape_stands() {
    let map = walled_map(10);
    for dir in [(1.0, 0.3), (-0.4, 1.0), (-1.0, -1.0), (0.7, -0.2)] {
        let (cell, step, axes, _) = crossings_of((4.5, 5.5), dir, 40);
        for c in map.ray_cast(cell, step, &axes) {
            let entered = map.get_tile(c.entered.x, c.entered.y);
            match c.wall {
                Some(tile) => {
                    assert_eq!(entered, Some(tile));
                    assert!(!tile.shape.is_void());
                }
                None => assert!(entered.is_none() || entered.unwrap().shape.is_void()),
            }
        }
    }
}

#[test]
fn every_ray_of_the_view_meets_the_border() {
    let map = walled_map(10);
    let width: usize = 600;
    let height: usize = 500;
    let mut renderer = Renderer::new(width, height);
    let fov = 60.0f64.to_radians();
    let front = (1.0, 0.0);
    let plane = (0.0, (fov / 2.0).tan());
    for column in 0..width {
        let camera_x = 2.0 * column as f64 / width as f64 - 1.0;
        let dir = (front.0 + plane.0 * camera_x, front.1 + plane.1 * camera_x);
        let (cell, step, axes, dists) = crossings_of((5.0, 5.0), dir, 20);
        assert_eq!(cell, Cell { x: 5, y: 5 });
        let found = map.ray_cast(cell, step, &axes);
        let (k, hit) = found
            .iter()
            .enumerate()
            .find(|(_, c)| c.wall.is_some())
            .expect("no wall on the ray");
        assert_eq!(hit.wall, Some(wall_tile()));
        let length = dists[k];
        assert!(length.is_finite());
        assert!(length > 0.0 && length <= 5.7);
        assert_eq!(length, 4.0);
        assert_eq!(hit.entered.x, 9);

        let line_height = (height as f64 / length) as i32;
        let span = renderer.wall_span(line_height, 0);
        assert_eq!((span.draw_start, span.draw_end), (188, 312));
        for y in span.draw_start..span.draw_end {
            assert!(!renderer.pixel_finished(column, y));
            assert!(renderer.set_pixel(column, y, true));
            assert!(renderer.pixel_finished(column, y));
        }
        assert_eq!(renderer.column_left(column), height - 124);
    }
}

#[test]
fn ray_goes_on_behind_a_clear_circle() {
    let mut map = walled_map(10);
    let clear = Color::Solid([n(1.0), n(1.0), n(1.0), n(0.0)]);
    let circle = Tile::new(
        Shape::Circle(Circle { pos: Vector2::new(n(0.5), n(0.5)), radius: n(0.5) }),
        vec![clear],
        Color::Test,
        n(0.0),
        Color::Test,
        n(0.0),
    );
    map.set_tile(6, 5, circle);
    let (cell, step, axes, dists) = crossings_of((5.5, 5.5), (1.0, 0.0), 20);
    let found = map.ray_cast(cell, step, &axes);
    let walls: Vec<(usize, Tile)> =
        found.iter().enumerate().filter_map(|(k, c)| c.wall.map(|t| (k, t))).collect();
    assert_eq!(walls.len(), 2);
    assert_eq!(walls[0], (0, circle));
    assert_eq!(walls[1], (3, wall_tile()));
    assert_eq!(found[0].entered, Cell { x: 6, y: 5 });
    assert_eq!(found[3].entered, Cell { x: 9, y: 5 });
    assert_eq!(dists[0], 0.5);
    assert_eq!(dists[3], 3.5);

    // the circle lets all light through, so its pixels stay open for the wall
    let mut renderer = Renderer::new(1, 100);
    let mut remaining = 1.0;
    let alpha = match circle.colors[0] {
        Color::Solid(c) => f64::from_bits(c[3].bits),
        _ => unreachable!(),
    };
    remaining *= 1.0 - alpha;
    assert!(remaining > 0.0);
    assert!(!renderer.set_pixel(0, 50, remaining == 0.0));
    assert!(!renderer.pixel_finished(0, 50));
    remaining *= 1.0 - 1.0;
    assert!(renderer.set_pixel(0, 50, remaining == 0.0));
    assert!(renderer.pixel_finished(0, 50));
}

#[test]
fn wall_at_tells_shapes_from_open_cells() {
    let map = walled_map(10);
    assert_eq!(map.wall_at(Cell { x: 0, y: 4 }), Some(wall_tile()));
    assert_eq!(map.wall_at(Cell { x: 9, y: 9 }), Some(wall_tile()));
    assert_eq!(map.wall_at(Cell { x: 4, y: 4 }), None);
    assert_eq!(map.wall_at(Cell { x: 10, y: 4 }), None);
    assert_eq!(map.wall_at(Cell { x: 4, y: -1 }), None);
}
