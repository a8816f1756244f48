use flappy::units::{from_cell, to_cell, UNITS_PER_CELL};

#[test]
fn a_cell_has_120_units() {
    assert_eq!(UNITS_PER_CELL, 120);
}

#[test]
fn to_cell_truncates_toward_zero() {
    assert_eq!(to_cell(0), 0);
    assert_eq!(to_cell(119), 0);
    assert_eq!(to_cell(120), 1);
    assert_eq!(to_cell(1800), 15);
    assert_eq!(to_cell(3599), 29);
    assert_eq!(to_cell(3600), 30);
    assert_eq!(to_cell(-1), 0);
    assert_eq!(to_cell(-119), 0);
    assert_eq!(to_cell(-120), -1);
    assert_eq!(to_cell(-121), -1);
    assert_eq!(to_cell(-240), -2);
}

#[test]
fn from_cell_gives_the_origin_of_the_cell() {
    assert_eq!(from_cell(0), 0);
    assert_eq!(from_cell(15), 1800);
    assert_eq!(from_cell(50), 6000);
    assert_eq!(from_cell(-1), -120);
}

#[test]
fn a_cell_origin_lies_in_its_cell() {
    for c in -40isize..=60 {
        assert_eq!(to_cell(from_cell(c)), c);
    }
}

#[test]
fn truncation_keeps_the_order() {
    let mut last = to_cell(-500);
    for x in -499isize..=500 {
        let c = to_cell(x);
        assert!(last <= c);
        last = c;
    }
}
