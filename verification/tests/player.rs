use flappy::player::{Player, FLAP_IMPULSE, GRAVITY_PER_TICK, PLAYER_COLUMN, START_ROW};
use flappy::screen::Pixel;

#[test]
fn constants_in_units() {
    // a sixtieth and a half of a cell of 120 units
    assert_eq!(GRAVITY_PER_TICK, 120 / 60);
    assert_eq!(FLAP_IMPULSE, -120 / 2);
    assert_eq!(PLAYER_COLUMN, 1);
    assert_eq!(START_ROW, 15);
}

#[test]
fn new_player_rests_at_mid_height() {
    let p = Player::new();
    assert_eq!(p.pixel(), Pixel { x: 1, y: 15 });
    assert_eq!(p.height(), 1800);
    assert_eq!(p.velocity(), 0);
    assert_eq!(p.score(), 0);
    assert_eq!(p.score_cells(), 0);
}

#[test]
fn flap_overwrites_the_velocity() {
    let mut p = Player::new();
    p.flap();
    assert_eq!(p.velocity(), -60);
    p.flap();
    assert_eq!(p.velocity(), -60);
    p.integrate(2);
    p.integrate(2);
    assert_eq!(p.velocity(), -56);
    p.flap();
    assert_eq!(p.velocity(), -60);
    assert_eq!(p.height(), 1800 - 58 - 56);
}

#[test]
fn integrate_adds_gravity_then_velocity() {
    let mut p = Player::new();
    p.integrate(2);
    assert_eq!(p.velocity(), 2);
    assert_eq!(p.height(), 1802);
    p.integrate(2);
    assert_eq!(p.velocity(), 4);
    assert_eq!(p.height(), 1806);
    p.integrate(9);
    assert_eq!(p.velocity(), 13);
    assert_eq!(p.height(), 1819);
    p.integrate(-20);
    assert_eq!(p.velocity(), -7);
    assert_eq!(p.height(), 1812);
}

#[test]
fn integrate_leaves_row_and_score_alone() {
    let mut p = Player::new();
    p.add_score(33);
    for _ in 0..30 {
        p.integrate(2);
    }
    assert_eq!(p.pixel(), Pixel { x: 1, y: 15 });
    assert_eq!(p.score(), 33);
}

#[test]
fn flap_then_integrate_moves_up_on_the_next_projection() {
    let mut p = Player::new();
    assert_eq!(p.pixel().y, 15);
    p.flap();
    p.integrate(GRAVITY_PER_TICK);
    assert_eq!(p.velocity(), FLAP_IMPULSE + GRAVITY_PER_TICK);
    assert_eq!(p.velocity(), -58);
    assert_eq!(p.height(), 1742);
    p.height_to_pixel();
    assert_eq!(p.pixel(), Pixel { x: 1, y: 14 });
}

#[test]
fn free_fall_in_closed_form() {
    for n in 0isize..=40 {
        let mut p = Player::new();
        for _ in 0..n {
            p.integrate(2);
        }
        assert_eq!(p.velocity(), 2 * n);
        assert_eq!(p.height(), 1800 + n * (n + 1));
    }
}

#[test]
fn same_commands_same_motion() {
    let flaps = [3usize, 4, 20, 21, 50];
    let run = || {
        let mut p = Player::new();
        let mut trace = Vec::new();
        for t in 0..60 {
            if flaps.contains(&t) {
                p.flap();
            }
            p.integrate(GRAVITY_PER_TICK);
            trace.push((p.height(), p.velocity()));
        }
        trace
    };
    assert_eq!(run(), run());
    let trace = run();
    assert_eq!(trace[2], (1812, 6));
    assert_eq!(trace[3], (1754, -58));
    assert_eq!(trace[4], (1696, -58));
    assert_eq!(trace[5], (1640, -56));
}

#[test]
fn row_is_not_clamped() {
    let mut p = Player::new();
    for _ in 0..34 {
        p.flap();
        p.integrate(2);
    }
    assert_eq!(p.height(), 1800 - 34 * 58);
    p.height_to_pixel();
    assert_eq!(p.pixel(), Pixel { x: 1, y: -1 });

    let mut q = Player::new();
    for _ in 0..42 {
        q.integrate(2);
    }
    assert_eq!(q.height(), 1800 + 42 * 43);
    q.height_to_pixel();
    assert_eq!(q.pixel(), Pixel { x: 1, y: 30 });
}

#[test]
fn a_height_just_above_the_top_is_still_row_zero() {
    let mut p = Player::new();
    for _ in 0..32 {
        p.flap();
        p.integrate(2);
    }
    assert_eq!(p.height(), 1800 - 32 * 58);
    assert!(p.height() < 0 && p.height() > -120);
    p.height_to_pixel();
    assert_eq!(p.pixel().y, 0);
}

#[test]
fn score_grows_and_is_shown_in_cells() {
    let mut p = Player::new();
    for _ in 0..4 {
        p.add_score(33);
    }
    assert_eq!(p.score(), 132);
    assert_eq!(p.score_cells(), 1);
    for _ in 0..36 {
        p.add_score(33);
    }
    // 40 ticks at 11/40 of a cell each
    assert_eq!(p.score(), 1320);
    assert_eq!(p.score_cells(), 11);
}
