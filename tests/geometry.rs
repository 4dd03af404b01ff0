use tsurust::{get_facing_position, is_affected, Position};

fn pos(row: usize, col: usize, path_index: u8) -> Position {
    Position { row, col, path_index }
}

#[test]
fn facing_across_each_edge() {
    assert_eq!(get_facing_position(pos(2, 2, 0)), Some(pos(3, 2, 5)));
    assert_eq!(get_facing_position(pos(2, 2, 1)), Some(pos(3, 2, 4)));
    assert_eq!(get_facing_position(pos(2, 2, 2)), Some(pos(2, 3, 7)));
    assert_eq!(get_facing_position(pos(2, 2, 3)), Some(pos(2, 3, 6)));
    assert_eq!(get_facing_position(pos(2, 2, 4)), Some(pos(1, 2, 1)));
    assert_eq!(get_facing_position(pos(2, 2, 5)), Some(pos(1, 2, 0)));
    assert_eq!(get_facing_position(pos(2, 2, 6)), Some(pos(2, 1, 3)));
    assert_eq!(get_facing_position(pos(2, 2, 7)), Some(pos(2, 1, 2)));
}

#[test]
fn facing_off_each_border() {
    assert_eq!(get_facing_position(pos(0, 3, 4)), None);
    assert_eq!(get_facing_position(pos(0, 3, 5)), None);
    assert_eq!(get_facing_position(pos(5, 3, 0)), None);
    assert_eq!(get_facing_position(pos(5, 3, 1)), None);
    assert_eq!(get_facing_position(pos(3, 5, 2)), None);
    assert_eq!(get_facing_position(pos(3, 5, 3)), None);
    assert_eq!(get_facing_position(pos(3, 0, 6)), None);
    assert_eq!(get_facing_position(pos(3, 0, 7)), None);
}

#[test]
fn facing_back_returns_to_the_start() {
    for row in 0..6 {
        for col in 0..6 {
            for i in 0..8u8 {
                let p = pos(row, col, i);
                if let Some(q) = get_facing_position(p) {
                    assert_eq!(get_facing_position(q), Some(p));
                }
            }
        }
    }
}

#[test]
fn affected_when_standing_on_or_facing_the_cell() {
    assert!(is_affected(pos(1, 1, 3), 1, 1));
    assert!(is_affected(pos(1, 1, 3), 1, 2));
    assert!(is_affected(pos(1, 1, 0), 2, 1));
    assert!(!is_affected(pos(1, 1, 3), 2, 1));
    assert!(!is_affected(pos(1, 1, 3), 1, 0));
    assert!(!is_affected(pos(0, 0, 5), 0, 1));
}

#[test]
fn with_path_index_keeps_the_cell() {
    assert_eq!(pos(4, 1, 2).with_path_index(7), pos(4, 1, 7));
}
