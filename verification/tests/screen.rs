use flappy::screen::{glyph_of, Pixel, Screen, Tile, SCREEN_HEIGHT, SCREEN_WIDTH};

fn cells(s: &Screen) -> Vec<Vec<Tile>> {
    (0..SCREEN_HEIGHT)
        .map(|y| (0..SCREEN_WIDTH).map(|x| s.get(&Pixel { x, y }).unwrap()).collect())
        .collect()
}

#[test]
fn the_playfield_is_50_by_30() {
    assert_eq!(SCREEN_WIDTH, 50);
    assert_eq!(SCREEN_HEIGHT, 30);
}

#[test]
fn new_screen_is_all_sky() {
    let s = Screen::new();
    for row in cells(&s) {
        assert_eq!(row.len(), 50);
        for tile in row {
            assert_eq!(tile, Tile::Sky);
        }
    }
}

#[test]
fn set_writes_one_cell_and_no_other() {
    let mut s = Screen::new();
    let before = cells(&s);
    s.set(&Pixel { x: 3, y: 4 }, Tile::Wall);
    let after = cells(&s);
    for y in 0..30 {
        for x in 0..50 {
            if (x, y) == (3, 4) {
                assert_eq!(after[y][x], Tile::Wall);
            } else {
                assert_eq!(after[y][x], before[y][x]);
            }
        }
    }
}

#[test]
fn set_reaches_every_corner() {
    let mut s = Screen::new();
    for p in [
        Pixel { x: 0, y: 0 },
        Pixel { x: 49, y: 0 },
        Pixel { x: 0, y: 29 },
        Pixel { x: 49, y: 29 },
    ] {
        s.set(&p, Tile::Bird);
        assert_eq!(s.get(&p), Some(Tile::Bird));
    }
}

#[test]
fn set_overwrites() {
    let mut s = Screen::new();
    let p = Pixel { x: 1, y: 15 };
    s.set(&p, Tile::Bird);
    s.set(&p, Tile::Wall);
    assert_eq!(s.get(&p), Some(Tile::Wall));
    s.set(&p, Tile::Sky);
    assert_eq!(s.get(&p), Some(Tile::Sky));
}

#[test]
fn set_out_of_range_changes_nothing() {
    let mut s = Screen::new();
    s.set(&Pixel { x: 7, y: 7 }, Tile::Bird);
    let before = cells(&s);
    let outside = [
        Pixel { x: 50, y: 0 },
        Pixel { x: 0, y: 30 },
        Pixel { x: -1, y: 0 },
        Pixel { x: 0, y: -1 },
        Pixel { x: 50, y: 30 },
        Pixel { x: -1, y: -1 },
        Pixel { x: 7, y: 30 },
        Pixel { x: 50, y: 7 },
        Pixel { x: isize::MAX, y: 7 },
        Pixel { x: 7, y: isize::MIN },
        Pixel { x: isize::MIN, y: isize::MAX },
    ];
    for p in outside {
        s.set(&p, Tile::Wall);
        assert_eq!(cells(&s), before);
        assert_eq!(s.get(&p), None);
    }
}

#[test]
fn set_out_of_range_on_a_ring_around_the_field() {
    let mut s = Screen::new();
    let before = cells(&s);
    for x in -2isize..52 {
        for y in -2isize..32 {
            if x < 0 || x >= 50 || y < 0 || y >= 30 {
                s.set(&Pixel { x, y }, Tile::Wall);
            }
        }
    }
    assert_eq!(cells(&s), before);
}

#[test]
fn refresh_clears_every_cell() {
    let mut s = Screen::new();
    for x in 0..50 {
        for y in 0..30 {
            s.set(&Pixel { x, y }, if (x + y) % 2 == 0 { Tile::Wall } else { Tile::Bird });
        }
    }
    s.refresh();
    assert_eq!(cells(&s), cells(&Screen::new()));
}

#[test]
fn each_tile_has_its_glyph() {
    assert_eq!(glyph_of(Tile::Sky), ' ');
    assert_eq!(glyph_of(Tile::Bird), 'B');
    assert_eq!(glyph_of(Tile::Wall), '#');
}

#[test]
fn render_of_an_empty_screen() {
    let text: String = Screen::new().render().into_iter().collect();
    let row = format!("{}\n\r", "  ".repeat(50));
    assert_eq!(text, row.repeat(30));
    assert_eq!(text.chars().count(), 3060);
}

#[test]
fn render_shows_bird_and_wall() {
    let mut s = Screen::new();
    s.set(&Pixel { x: 1, y: 15 }, Tile::Bird);
    s.set(&Pixel { x: 49, y: 29 }, Tile::Wall);
    s.set(&Pixel { x: 0, y: 0 }, Tile::Wall);
    let text: String = s.render().into_iter().collect();
    let lines: Vec<&str> = text.split("\n\r").collect();
    assert_eq!(lines.len(), 31);
    assert_eq!(lines[30], "");
    assert_eq!(lines[0], format!("# {}", "  ".repeat(49)));
    assert_eq!(lines[15], format!("  B {}", "  ".repeat(48)));
    assert_eq!(lines[29], format!("{}# ", "  ".repeat(49)));
    for (y, line) in lines.iter().enumerate().take(30) {
        assert_eq!(line.len(), 100);
        if y != 0 && y != 15 && y != 29 {
            assert_eq!(*line, "  ".repeat(50));
        }
    }
}
