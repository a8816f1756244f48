use flappy::obstacles::{advance_walls, collides, retire};
use flappy::screen::{Pixel, Screen, Tile};
use flappy::wall::{Edge, Wall};

fn wall_after(edge: Edge, shrink: isize, velocity: isize, ticks: usize) -> Wall {
    let mut w = Wall::with_shape(edge, shrink, velocity);
    for _ in 0..ticks {
        w.update_pixel();
    }
    w
}

#[test]
fn retire_drops_exactly_the_walls_off_the_screen() {
    let walls = vec![
        wall_after(Edge::Floor, 0, 120, 10),
        wall_after(Edge::Ceiling, 1, 120, 51),
        wall_after(Edge::Floor, 2, 120, 50),
        wall_after(Edge::Ceiling, 3, 120, 70),
        wall_after(Edge::Floor, 4, 120, 0),
    ];
    let flags: Vec<bool> = walls.iter().map(|w| w.is_offscreen()).collect();
    assert_eq!(flags, vec![false, true, false, true, false]);
    let kept = retire(walls);
    let heights: Vec<isize> = kept.iter().map(|w| w.height()).collect();
    assert_eq!(heights, vec![20, 18, 16]);
    assert!(kept.iter().all(|w| !w.is_offscreen()));
}

#[test]
fn retire_of_nothing_is_nothing() {
    assert_eq!(retire(Vec::new()).len(), 0);
}

#[test]
fn retire_keeps_a_wall_until_its_last_column_is_negative() {
    // lead at -119 units: column 0 by truncation
    let w = wall_after(Edge::Floor, 0, 1, 6119);
    assert_eq!(w.blocks()[0].x_fine, -119);
    assert!(!w.is_offscreen());
    assert_eq!(retire(vec![w]).len(), 1);
    let w = wall_after(Edge::Floor, 0, 1, 6120);
    assert!(w.is_offscreen());
    assert_eq!(retire(vec![w]).len(), 0);
}

#[test]
fn collides_only_on_the_very_cell() {
    // columns 10 and 9, rows 0 to 12
    let walls = vec![wall_after(Edge::Ceiling, 6, 120, 40)];
    for x in 7..13 {
        for y in -1..16 {
            let inside = (x == 9 || x == 10) && (0..=12).contains(&y);
            assert_eq!(collides(&walls, &Pixel { x, y }), inside, "at {} {}", x, y);
        }
    }
}

#[test]
fn a_neighbouring_cell_is_no_collision() {
    let walls = vec![wall_after(Edge::Floor, 0, 120, 49)];
    // columns 1 and 0, rows 11 to 29
    assert!(collides(&walls, &Pixel { x: 1, y: 11 }));
    assert!(!collides(&walls, &Pixel { x: 1, y: 10 }));
    assert!(!collides(&walls, &Pixel { x: 2, y: 11 }));
    assert!(!collides(&walls, &Pixel { x: 2, y: 10 }));
    assert!(collides(&walls, &Pixel { x: 0, y: 29 }));
    assert!(!collides(&walls, &Pixel { x: 0, y: 30 }));
    assert!(!collides(&walls, &Pixel { x: -1, y: 29 }));
}

#[test]
fn collides_with_any_of_several_walls() {
    let walls = vec![
        wall_after(Edge::Floor, 0, 120, 10),
        wall_after(Edge::Ceiling, 0, 120, 30),
    ];
    assert!(collides(&walls, &Pixel { x: 40, y: 29 }));
    assert!(collides(&walls, &Pixel { x: 19, y: 0 }));
    assert!(!collides(&walls, &Pixel { x: 40, y: 0 }));
    assert!(!collides(&walls, &Pixel { x: 19, y: 29 }));
    assert!(!collides(&Vec::new(), &Pixel { x: 19, y: 0 }));
}

#[test]
fn advance_moves_and_draws_the_walls() {
    let mut walls = vec![
        wall_after(Edge::Floor, 6, 120, 0),
        wall_after(Edge::Ceiling, 6, 120, 20),
    ];
    let mut screen = Screen::new();
    screen.set(&Pixel { x: 1, y: 15 }, Tile::Bird);
    screen.set(&Pixel { x: 29, y: 3 }, Tile::Bird);
    advance_walls(&mut walls, &mut screen);
    assert_eq!(walls[0].blocks()[0].x_fine, 5880);
    assert_eq!(walls[1].blocks()[0].x_fine, 3480);
    for y in 0..30 {
        for x in 0..50 {
            let floor = (x == 49 || x == 48) && y >= 17;
            let ceiling = (x == 29 || x == 28) && y <= 12;
            let want = if floor || ceiling {
                Tile::Wall
            } else if (x, y) == (1, 15) {
                Tile::Bird
            } else {
                Tile::Sky
            };
            assert_eq!(screen.get(&Pixel { x, y }), Some(want), "at {} {}", x, y);
        }
    }
}

#[test]
fn a_column_right_of_the_field_is_not_drawn() {
    let mut walls = vec![wall_after(Edge::Floor, 0, 33, 0)];
    let mut screen = Screen::new();
    advance_walls(&mut walls, &mut screen);
    // 5967 and 5847 units: columns 49 and 48
    let mut count = 0;
    for y in 0..30 {
        for x in 0..50 {
            if screen.get(&Pixel { x, y }) == Some(Tile::Wall) {
                count += 1;
                assert!(x == 48 || x == 49);
                assert!(y >= 11);
            }
        }
    }
    assert_eq!(count, 38);
}

#[test]
fn a_wall_half_way_out_is_half_drawn() {
    // lead at 0 units: columns 0 and, by truncation of -120, -1
    let mut walls = vec![wall_after(Edge::Ceiling, 0, 120, 49)];
    let mut screen = Screen::new();
    advance_walls(&mut walls, &mut screen);
    assert_eq!(walls[0].blocks()[0].pixel.x, 0);
    assert!(!walls[0].is_offscreen());
    let mut count = 0;
    for y in 0..30 {
        for x in 0..50 {
            if screen.get(&Pixel { x, y }) == Some(Tile::Wall) {
                count += 1;
                assert_eq!(x, 0);
            }
        }
    }
    assert_eq!(count, 19);
}
