use tsurust::layout::{
    coords_to_pixels, path_edge_segment, path_index_position, to_pixels, BOARD_BORDER, PATH_EDGE_SEGMENT_LENGTH,
    SCREEN_HEIGHT, SCREEN_WIDTH, THIRD, TILE_SIDE_LENGTH,
};
use tsurust::Position;

#[test]
fn layout_constants() {
    assert_eq!(SCREEN_WIDTH, 1200);
    assert_eq!(SCREEN_HEIGHT, 1000);
    assert_eq!(TILE_SIDE_LENGTH, 125);
    assert_eq!(THIRD, 41);
    assert_eq!(BOARD_BORDER, 62);
    assert_eq!(PATH_EDGE_SEGMENT_LENGTH, 20);
}

#[test]
fn connector_positions() {
    assert_eq!(path_index_position(0), (41, 125));
    assert_eq!(path_index_position(1), (82, 125));
    assert_eq!(path_index_position(2), (125, 82));
    assert_eq!(path_index_position(3), (125, 41));
    assert_eq!(path_index_position(4), (82, 0));
    assert_eq!(path_index_position(5), (41, 0));
    assert_eq!(path_index_position(6), (0, 41));
    assert_eq!(path_index_position(7), (0, 82));
}

#[test]
fn edge_segments_point_into_the_tile() {
    assert_eq!(path_edge_segment(0), ((41, 125), (41, 105)));
    assert_eq!(path_edge_segment(3), ((125, 41), (105, 41)));
    assert_eq!(path_edge_segment(4), ((82, 0), (82, 20)));
    assert_eq!(path_edge_segment(7), ((0, 82), (20, 82)));
}

#[test]
fn cell_and_position_pixels() {
    assert_eq!(coords_to_pixels(0, 0), (62, 62));
    assert_eq!(coords_to_pixels(1, 2), (187, 312));
    assert_eq!(to_pixels(Position { row: 2, col: 1, path_index: 5 }), (228, 312));
    assert_eq!(to_pixels(Position { row: 5, col: 5, path_index: 2 }), (812, 769));
}
